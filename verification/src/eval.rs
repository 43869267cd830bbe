//! The evaluator: recursive dispatch over atoms and call forms.

use vstd::prelude::*;
use crate::atom::{
    atoms_view, lemma_view_of_items, names_view, result_view, Atom, AtomView, EvalError,
};
use crate::binding::{child_of, AList};
use crate::lemmas::lemma_bind_params_keeps_outer;
use crate::primitives::{apply_primitive, arity_matches, classify, tail_from};
pub use crate::primitives::{apply_eq, apply_equal};
use crate::semantics::{
    all_symbols, apply_spec, bind_params, call_spec, defun_spec, eval_operands,
    eval_spec, levels, resolve, strict_spec, symbol_names, Comparison, Op, Primitive, Tag,
};

verus! {

/// How deep call forms may nest in an evaluation started by [`eval`].
pub const MAX_DEPTH: usize = 64;

/// Resolves a symbol, from the innermost frame outward.
pub fn assoc(symbol: &str, a_list: &AList) -> (r: Result<Atom, EvalError>)
    ensures
        result_view(r) == resolve(a_list@, symbol@),
{
    match a_list.get_binding(symbol) {
        Some(atom) => Ok(atom),
        None => Err(EvalError::UnboundSymbol(symbol.to_owned())),
    }
}

/// Binds parameters to arguments pairwise, in order.
#[verifier::loop_isolation(false)]
fn bind_parameters(frame: &mut AList, params: &Vec<String>, args: &Vec<Atom>)
    ensures
        final(frame)@ == bind_params(old(frame)@, names_view(params@), atoms_view(args@), 0),
{
    let ghost names = names_view(params@);
    let ghost values = atoms_view(args@);
    let mut i: usize = 0;
    while i < params.len() && i < args.len()
        invariant
            i <= params@.len(),
            i <= args@.len(),
            bind_params(frame@, names, values, i as nat) == bind_params(
                old(frame)@,
                names,
                values,
                0,
            ),
        decreases params@.len() - i,
    {
        assert(names[i as int] == params@[i as int]@);
        assert(values[i as int] == args@[i as int]@);
        frame.set_binding(params[i].clone(), args[i].clone());
        i += 1;
    }
}

/// Evaluates `(defun name (param ...) body ...)`.
#[verifier::loop_isolation(false)]
fn define_function(list: &[Atom], a_list: &mut AList) -> (r: Result<Atom, EvalError>)
    ensures
        (result_view(r), final(a_list)@) == defun_spec(atoms_view(list@), old(a_list)@),
        final(a_list)@.drop_last() == old(a_list)@.drop_last(),
{
    let ghost items = atoms_view(list@);
    if list.len() < 4 {
        return Err(EvalError::ArityError);
    }
    assert(items[1] == list@[1]@);
    assert(items[2] == list@[2]@);
    proof {
        lemma_view_of_items(list@[2]);
    }
    match (&list[1], &list[2]) {
        (Atom::Symbol(name), Atom::List(params)) => {
            let ghost formal = atoms_view(params@);
            let mut names: Vec<String> = Vec::new();
            let mut i: usize = 0;
            while i < params.len()
                invariant
                    i <= params@.len(),
                    names@.len() == i,
                    forall|j: int| 0 <= j < i ==> #[trigger] formal[j] is Symbol,
                    forall|j: int| 0 <= j < i ==> names@[j]@ == formal[j]->Symbol_0,
                decreases params@.len() - i,
            {
                assert(formal[i as int] == params@[i as int]@);
                match &params[i] {
                    Atom::Symbol(s) => {
                        names.push(s.clone());
                    },
                    _ => {
                        assert(!all_symbols(formal));
                        return Err(EvalError::MalformedForm);
                    },
                }
                i += 1;
            }
            assert(all_symbols(formal));
            assert(names_view(names@) =~= symbol_names(formal));
            let body = tail_from(list, 3);
            let function = Atom::Function { params: names, body };
            proof {
                lemma_view_of_items(function);
                a_list.lemma_has_frame();
            }
            a_list.set_binding(name.clone(), function);
            assert(final(a_list)@.drop_last() =~= old(a_list)@.drop_last());
            Ok(Atom::Void)
        },
        _ => Err(EvalError::MalformedForm),
    }
}

/// Evaluates an expression, nesting call forms at most [`MAX_DEPTH`] deep.
pub fn eval(parsed: &Atom, a_list: &mut AList) -> (r: Result<Atom, EvalError>)
    ensures
        (result_view(r), final(a_list)@) == eval_spec(parsed@, old(a_list)@, levels(MAX_DEPTH)),
        final(a_list)@.drop_last() == old(a_list)@.drop_last(),
{
    eval_bounded(parsed, a_list, MAX_DEPTH)
}

/// Evaluates an expression, nesting call forms at most `depth` deep. Only
/// the innermost frame of the environment can change.
pub fn eval_bounded(parsed: &Atom, a_list: &mut AList, depth: usize) -> (r: Result<Atom, EvalError>)
    ensures
        (result_view(r), final(a_list)@) == eval_spec(parsed@, old(a_list)@, levels(depth)),
        final(a_list)@.drop_last() == old(a_list)@.drop_last(),
    decreases depth, 0nat, 0nat,
{
    proof {
        lemma_view_of_items(*parsed);
    }
    match parsed {
        Atom::List(expr) => {
            if depth == 0 {
                Err(EvalError::DepthExceeded)
            } else {
                apply_atom(expr.as_slice(), a_list, depth - 1)
            }
        },
        Atom::Symbol(name) => assoc(name.as_str(), a_list),
        Atom::Integer(n) => Ok(Atom::Integer(*n)),
        Atom::Quote(inner) => Ok((**inner).clone()),
        Atom::Bool(b) => Ok(Atom::Bool(*b)),
        Atom::Nil => Ok(Atom::Nil),
        _ => Err(EvalError::TypeError),
    }
}

/// Evaluates the operands of a call form, left to right.
#[verifier::loop_isolation(false)]
fn evaluate_operands(list: &[Atom], a_list: &mut AList, depth: usize, numeric: bool) -> (r: Result<
    Vec<Atom>,
    EvalError,
>)
    requires
        list@.len() >= 1,
    ensures
        match r {
            Ok(vals) => {
                &&& eval_operands(
                    atoms_view(list@),
                    1,
                    Seq::empty(),
                    old(a_list)@,
                    levels(depth),
                    numeric,
                ) == (Ok::<Seq<AtomView>, crate::atom::ErrorView>(atoms_view(vals@)), final(a_list)@)
                &&& vals@.len() == list@.len() - 1
            },
            Err(e) => eval_operands(
                atoms_view(list@),
                1,
                Seq::empty(),
                old(a_list)@,
                levels(depth),
                numeric,
            ) == (Err::<Seq<AtomView>, crate::atom::ErrorView>(e@), final(a_list)@),
        },
        final(a_list)@.drop_last() == old(a_list)@.drop_last(),
    decreases depth, 1nat, 0nat,
{
    let ghost items = atoms_view(list@);
    let ghost whole = eval_operands(items, 1, Seq::empty(), old(a_list)@, levels(depth), numeric);
    let mut vals: Vec<Atom> = Vec::new();
    let mut i: usize = 1;
    assert(atoms_view(vals@) =~= Seq::empty());
    while i < list.len()
        invariant
            1 <= i <= list@.len(),
            vals@.len() == i - 1,
            eval_operands(items, i as nat, atoms_view(vals@), a_list@, levels(depth), numeric)
                == whole,
            a_list@.drop_last() == old(a_list)@.drop_last(),
        decreases list@.len() - i,
    {
        assert(items[i as int] == list@[i as int]@);
        let ghost before = atoms_view(vals@);
        match eval_bounded(&list[i], a_list, depth) {
            Err(e) => {
                return Err(e);
            },
            Ok(v) => {
                if numeric && !matches!(v, Atom::Integer(_)) {
                    return Err(EvalError::TypeError);
                }
                vals.push(v);
                assert(atoms_view(vals@) =~= before.push(v@));
            },
        }
        i += 1;
    }
    Ok(vals)
}

/// Applies a primitive to the operands of a call form.
fn apply_strict(p: Primitive, list: &[Atom], a_list: &mut AList, depth: usize) -> (r: Result<
    Atom,
    EvalError,
>)
    ensures
        (result_view(r), final(a_list)@) == strict_spec(
            p,
            atoms_view(list@),
            old(a_list)@,
            levels(depth),
        ),
        final(a_list)@.drop_last() == old(a_list)@.drop_last(),
    decreases depth, 2nat, 0nat,
{
    if list.len() == 0 || !arity_matches(p, list.len() - 1) {
        return Err(EvalError::ArityError);
    }
    let numeric = matches!(p, Primitive::Arith(_));
    match evaluate_operands(list, a_list, depth, numeric) {
        Err(e) => Err(e),
        Ok(vals) => apply_primitive(p, &vals),
    }
}

/// Evaluates a comparison form: two operands, both numbers.
pub fn apply_cmp(args: &[Atom], a_list: &mut AList, cmp: Comparison, depth: usize) -> (r: Result<
    Atom,
    EvalError,
>)
    ensures
        (result_view(r), final(a_list)@) == strict_spec(
            Primitive::Compare(cmp),
            atoms_view(args@),
            old(a_list)@,
            levels(depth),
        ),
        final(a_list)@.drop_last() == old(a_list)@.drop_last(),
    decreases depth, 3nat, 0nat,
{
    apply_strict(Primitive::Compare(cmp), args, a_list, depth)
}

/// Evaluates a type predicate form: one operand, asked for its variant.
pub fn apply_type_predicate(args: &[Atom], a_list: &mut AList, predicate: Tag, depth: usize) -> (r:
    Result<Atom, EvalError>)
    ensures
        (result_view(r), final(a_list)@) == strict_spec(
            Primitive::Is(predicate),
            atoms_view(args@),
            old(a_list)@,
            levels(depth),
        ),
        final(a_list)@.drop_last() == old(a_list)@.drop_last(),
    decreases depth, 3nat, 0nat,
{
    apply_strict(Primitive::Is(predicate), args, a_list, depth)
}

/// Calls the user function bound to `name` on the operands of a call form.
fn call_function(name: &str, list: &[Atom], a_list: &mut AList, depth: usize) -> (r: Result<
    Atom,
    EvalError,
>)
    requires
        list@.len() >= 1,
    ensures
        (result_view(r), final(a_list)@) == call_spec(
            name@,
            atoms_view(list@),
            old(a_list)@,
            levels(depth),
        ),
        final(a_list)@.drop_last() == old(a_list)@.drop_last(),
    decreases depth, 2nat, 0nat,
{
    let found = a_list.get_binding(name);
    proof {
        if found is Some {
            lemma_view_of_items(found->Some_0);
        }
    }
    match found {
        Some(Atom::Function { params, body }) => {
            match evaluate_operands(list, a_list, depth, false) {
                Err(e) => Err(e),
                Ok(args) => {
                    if body.len() == 0 {
                        return Err(EvalError::MalformedForm);
                    }
                    assert(atoms_view(body@)[0] == body@[0]@);
                    let ghost after = a_list@;
                    proof {
                        a_list.lemma_has_frame();
                    }
                    let mut outer = AList::new();
                    core::mem::swap(a_list, &mut outer);
                    let mut frame = AList::new_with_parent(outer);
                    bind_parameters(&mut frame, &params, &args);
                    let ghost bound = frame@;
                    assert(bound.drop_last() =~= after) by {
                        lemma_bind_params_keeps_outer(
                            child_of(after),
                            names_view(params@),
                            atoms_view(args@),
                            0,
                        );
                    }
                    let r = eval_bounded(&body[0], &mut frame, depth);
                    match frame.into_parent() {
                        Some(p) => {
                            *a_list = p;
                        },
                        None => {},
                    }
                    r
                },
            }
        },
        _ => Err(EvalError::UnrecognizedSymbol(name.to_owned())),
    }
}

/// Evaluates a call form: dispatches on the symbol at the head of the list.
pub fn apply_atom(list: &[Atom], a_list: &mut AList, depth: usize) -> (r: Result<Atom, EvalError>)
    ensures
        (result_view(r), final(a_list)@) == apply_spec(atoms_view(list@), old(a_list)@, levels(depth)),
        final(a_list)@.drop_last() == old(a_list)@.drop_last(),
    decreases depth, 3nat, 1nat,
{
    if list.len() == 0 {
        return Err(EvalError::EmptyListApplication);
    }
    assert(atoms_view(list@)[0] == list@[0]@);
    match &list[0] {
        Atom::Symbol(s) => {
            match classify(s.as_str()) {
                Op::Primitive(Primitive::Compare(cmp)) => apply_cmp(list, a_list, cmp, depth),
                Op::Primitive(Primitive::Is(tag)) => apply_type_predicate(list, a_list, tag, depth),
                Op::Primitive(p) => apply_strict(p, list, a_list, depth),
                Op::Defun => define_function(list, a_list),
                Op::Cond => Ok(Atom::Void),
                Op::Call => call_function(s.as_str(), list, a_list, depth),
            }
        },
        _ => Err(EvalError::EmptyListApplication),
    }
}

} // verus!
