//! What holds of evaluation in general, proved from its meaning.

use vstd::prelude::*;
use crate::atom::{AtomView, ErrorView};
use crate::binding::{bind, child_of, lookup, Scope};
use crate::semantics::{
    all_symbols, apply_spec, arity_ok, bind_params, call_spec, defun_spec, eq_spec, equal_spec,
    eval_operands, eval_spec, exhausted, op_of, primitive, strict_spec, symbol_names, Op,
    Primitive,
};

verus! {

/// A number, a truth value and `Nil` evaluate to themselves, at any depth,
/// and leave the scope as it was.
pub proof fn lemma_literals_self_evaluate(a: AtomView, scope: Scope, depth: nat)
    requires
        a is Integer || a is Bool || a is Nil,
    ensures
        eval_spec(a, scope, depth) == (Ok::<AtomView, ErrorView>(a), scope),
{
}

/// A quoted value evaluates to the value itself, whatever the scope holds:
/// nothing inside the quote is evaluated.
pub proof fn lemma_quote_yields_contents(x: AtomView, scope: Scope, depth: nat)
    ensures
        eval_spec(AtomView::Quote(Box::new(x)), scope, depth) == (
            Ok::<AtomView, ErrorView>(x),
            scope,
        ),
{
}

/// A symbol evaluates to what the nearest frame binds it to, and fails as
/// unbound exactly when no frame binds it. The scope stays as it was.
pub proof fn lemma_symbol_resolves(name: Seq<char>, scope: Scope, depth: nat)
    ensures
        eval_spec(AtomView::Symbol(name), scope, depth).1 == scope,
        match lookup(scope, name) {
            Some(v) => eval_spec(AtomView::Symbol(name), scope, depth).0 == Ok::<
                AtomView,
                ErrorView,
            >(v),
            None => eval_spec(AtomView::Symbol(name), scope, depth).0 == Err::<
                AtomView,
                ErrorView,
            >(ErrorView::UnboundSymbol(name)),
        },
        lookup(scope, name) is None <==> forall|k: int|
            0 <= k < scope.len() ==> !(#[trigger] scope[k]).contains_key(name),
{
    lemma_lookup_absent(scope, name);
}

/// A name resolves to nothing exactly when no frame of the chain binds it.
pub proof fn lemma_lookup_absent(scope: Scope, name: Seq<char>)
    ensures
        lookup(scope, name) is None <==> forall|k: int|
            0 <= k < scope.len() ==> !(#[trigger] scope[k]).contains_key(name),
    decreases scope.len(),
{
    if scope.len() > 0 {
        let outer = scope.drop_last();
        lemma_lookup_absent(outer, name);
        if scope.last().contains_key(name) {
            assert(scope[scope.len() - 1].contains_key(name));
        } else if lookup(outer, name) is None {
            assert forall|k: int| 0 <= k < scope.len() implies !(#[trigger] scope[k]).contains_key(
                name,
            ) by {
                if k < scope.len() - 1 {
                    assert(outer[k] == scope[k]);
                }
            }
        } else {
            let k = choose|k: int| 0 <= k < outer.len() && (#[trigger] outer[k]).contains_key(name);
            assert(scope[k] == outer[k]);
        }
    }
}

/// A name resolves to the binding of the innermost frame that holds it:
/// frames further in that do not bind the name are passed over.
pub proof fn lemma_lookup_nearest(scope: Scope, name: Seq<char>, k: int)
    requires
        0 <= k < scope.len(),
        scope[k].contains_key(name),
        forall|j: int| k < j < scope.len() ==> !(#[trigger] scope[j]).contains_key(name),
    ensures
        lookup(scope, name) == Some(scope[k][name]),
    decreases scope.len(),
{
    if k < scope.len() - 1 {
        let outer = scope.drop_last();
        assert(!scope[scope.len() - 1].contains_key(name));
        assert(outer[k] == scope[k]);
        assert forall|j: int| k < j < outer.len() implies !(#[trigger] outer[j]).contains_key(
            name,
        ) by {
            assert(outer[j] == scope[j]);
        }
        lemma_lookup_nearest(outer, name, k);
    }
}

/// After a name is bound it resolves to the value bound last, and every
/// other name resolves as before.
pub proof fn lemma_bind_then_lookup(scope: Scope, name: Seq<char>, value: AtomView, other: Seq<char>)
    requires
        scope.len() >= 1,
    ensures
        lookup(bind(scope, name, value), name) == Some(value),
        other != name ==> lookup(bind(scope, name, value), other) == lookup(scope, other),
{
    let after = bind(scope, name, value);
    assert(after.drop_last() =~= scope.drop_last());
}

/// A fresh inner frame hides nothing: every name resolves as in the
/// enclosing scope.
pub proof fn lemma_child_inherits(scope: Scope, name: Seq<char>)
    ensures
        lookup(child_of(scope), name) == lookup(scope, name),
{
    assert(child_of(scope).drop_last() =~= scope);
}

/// Binding changes the innermost frame only.
pub proof fn lemma_bind_keeps_outer(scope: Scope, name: Seq<char>, value: AtomView)
    requires
        scope.len() >= 1,
    ensures
        bind(scope, name, value).len() == scope.len(),
        bind(scope, name, value).drop_last() == scope.drop_last(),
{
    assert(bind(scope, name, value).drop_last() =~= scope.drop_last());
}

/// Binding parameters changes the innermost frame only.
pub proof fn lemma_bind_params_keeps_outer(
    scope: Scope,
    params: Seq<Seq<char>>,
    args: Seq<AtomView>,
    i: nat,
)
    requires
        scope.len() >= 1,
    ensures
        bind_params(scope, params, args, i).len() == scope.len(),
        bind_params(scope, params, args, i).drop_last() == scope.drop_last(),
    decreases params.len() - i,
{
    if i < params.len() && i < args.len() {
        let next = bind(scope, params[i as int], args[i as int]);
        lemma_bind_keeps_outer(scope, params[i as int], args[i as int]);
        lemma_bind_params_keeps_outer(next, params, args, i + 1);
    }
}

/// Binding the parameters from index `i` on leaves a name alone that is none
/// of them.
pub proof fn lemma_bind_params_skips(
    scope: Scope,
    params: Seq<Seq<char>>,
    args: Seq<AtomView>,
    i: nat,
    name: Seq<char>,
)
    requires
        scope.len() >= 1,
        forall|j: int| i <= j < params.len() && j < args.len() ==> params[j] != name,
    ensures
        lookup(bind_params(scope, params, args, i), name) == lookup(scope, name),
    decreases params.len() - i,
{
    if i < params.len() && i < args.len() {
        let next = bind(scope, params[i as int], args[i as int]);
        lemma_bind_then_lookup(scope, params[i as int], args[i as int], name);
        lemma_bind_params_skips(next, params, args, i + 1, name);
    }
}

/// Inside a function's frame a parameter resolves to its argument, whatever
/// the enclosing scope binds the same name to. Of a name that occurs twice
/// among the parameters, the last occurrence with an argument counts.
pub proof fn lemma_parameter_shadows(
    scope: Scope,
    params: Seq<Seq<char>>,
    args: Seq<AtomView>,
    k: int,
)
    requires
        0 <= k < params.len(),
        k < args.len(),
        forall|j: int| k < j < params.len() && j < args.len() ==> params[j] != params[k],
    ensures
        lookup(bind_params(child_of(scope), params, args, 0), params[k]) == Some(args[k]),
{
    lemma_parameter_bound_from(child_of(scope), params, args, 0, k);
}

proof fn lemma_parameter_bound_from(
    scope: Scope,
    params: Seq<Seq<char>>,
    args: Seq<AtomView>,
    i: nat,
    k: int,
)
    requires
        scope.len() >= 1,
        i <= k < params.len(),
        k < args.len(),
        forall|j: int| k < j < params.len() && j < args.len() ==> params[j] != params[k],
    ensures
        lookup(bind_params(scope, params, args, i), params[k]) == Some(args[k]),
    decreases params.len() - i,
{
    let next = bind(scope, params[i as int], args[i as int]);
    lemma_bind_keeps_outer(scope, params[i as int], args[i as int]);
    if i == k {
        lemma_bind_then_lookup(scope, params[k], args[k], params[k]);
        lemma_bind_params_skips(next, params, args, i + 1, params[k]);
    } else {
        lemma_parameter_bound_from(next, params, args, i + 1, k);
    }
}

/// Evaluation can change the innermost frame only: the frames that enclose
/// it are, after any evaluation, what they were before.
pub proof fn lemma_eval_keeps_outer(a: AtomView, scope: Scope, depth: nat)
    requires
        scope.len() >= 1,
    ensures
        eval_spec(a, scope, depth).1.len() == scope.len(),
        eval_spec(a, scope, depth).1.drop_last() == scope.drop_last(),
    decreases depth, 0nat, 0nat,
{
    match a {
        AtomView::List(items) => {
            if depth > 0 {
                lemma_apply_keeps_outer(items, scope, (depth - 1) as nat);
            }
        },
        _ => {},
    }
}

/// Evaluating operands can change the innermost frame only.
pub proof fn lemma_operands_keep_outer(
    items: Seq<AtomView>,
    i: nat,
    acc: Seq<AtomView>,
    scope: Scope,
    depth: nat,
    numeric: bool,
)
    requires
        scope.len() >= 1,
    ensures
        eval_operands(items, i, acc, scope, depth, numeric).1.len() == scope.len(),
        eval_operands(items, i, acc, scope, depth, numeric).1.drop_last() == scope.drop_last(),
    decreases depth, 1nat, items.len() - i,
{
    if i < items.len() {
        lemma_eval_keeps_outer(items[i as int], scope, depth);
        let first = eval_spec(items[i as int], scope, depth);
        match first.0 {
            Err(_) => {},
            Ok(v) => {
                if !(numeric && !(v is Integer)) {
                    lemma_operands_keep_outer(items, i + 1, acc.push(v), first.1, depth, numeric);
                }
            },
        }
    }
}

/// A call form can change the innermost frame only.
pub proof fn lemma_apply_keeps_outer(items: Seq<AtomView>, scope: Scope, depth: nat)
    requires
        scope.len() >= 1,
    ensures
        apply_spec(items, scope, depth).1.len() == scope.len(),
        apply_spec(items, scope, depth).1.drop_last() == scope.drop_last(),
    decreases depth, 3nat, 0nat,
{
    if items.len() > 0 {
        match items[0] {
            AtomView::Symbol(name) => {
                match op_of(name) {
                    Op::Primitive(p) => {
                        if arity_ok(p, items.len() - 1) {
                            lemma_operands_keep_outer(
                                items,
                                1,
                                Seq::empty(),
                                scope,
                                depth,
                                p is Arith,
                            );
                        }
                    },
                    Op::Defun => {
                        if items.len() >= 4 {
                            match (items[1], items[2]) {
                                (AtomView::Symbol(f), AtomView::List(params)) => {
                                    assert(defun_spec(items, scope).1.drop_last()
                                        =~= scope.drop_last());
                                },
                                _ => {},
                            }
                        }
                    },
                    Op::Cond => {},
                    Op::Call => {
                        lemma_operands_keep_outer(items, 1, Seq::empty(), scope, depth, false);
                    },
                }
            },
            _ => {},
        }
    }
}

/// A call of a user function leaves behind the scope that the evaluation of
/// its operands left: whatever the body bound, parameters included, is gone
/// with the call's frame, and no binding of the caller is touched by it.
pub proof fn lemma_call_leaves_no_trace(
    name: Seq<char>,
    items: Seq<AtomView>,
    scope: Scope,
    depth: nat,
)
    requires
        lookup(scope, name) is Some,
        lookup(scope, name)->Some_0 is Function,
    ensures
        call_spec(name, items, scope, depth).1 == eval_operands(
            items,
            1,
            Seq::empty(),
            scope,
            depth,
            false,
        ).1,
{
}

/// Operands that are numbers evaluate to themselves, in order, and leave
/// the scope as it was.
pub proof fn lemma_number_operands(
    items: Seq<AtomView>,
    i: nat,
    acc: Seq<AtomView>,
    scope: Scope,
    depth: nat,
    numeric: bool,
)
    requires
        i <= items.len(),
        forall|j: int| i <= j < items.len() ==> (#[trigger] items[j]) is Integer,
    ensures
        eval_operands(items, i, acc, scope, depth, numeric) == (
            Ok::<Seq<AtomView>, ErrorView>(acc + items.subrange(i as int, items.len() as int)),
            scope,
        ),
    decreases items.len() - i,
{
    if i >= items.len() {
        assert(acc + items.subrange(i as int, items.len() as int) =~= acc);
    } else {
        assert(items[i as int] is Integer);
        assert(eval_spec(items[i as int], scope, depth) == (
            Ok::<AtomView, ErrorView>(items[i as int]),
            scope,
        ));
        lemma_number_operands(items, i + 1, acc.push(items[i as int]), scope, depth, numeric);
        assert(acc.push(items[i as int]) + items.subrange(i as int + 1, items.len() as int) =~= acc
            + items.subrange(i as int, items.len() as int));
    }
}

/// A call whose operands are all number literals leaves the scope exactly as
/// it was, whatever the function's body does: the same call, made again,
/// meets the same scope and gives the same result.
pub proof fn lemma_call_is_repeatable(
    name: Seq<char>,
    items: Seq<AtomView>,
    scope: Scope,
    depth: nat,
)
    requires
        forall|j: int| 1 <= j < items.len() ==> (#[trigger] items[j]) is Integer,
    ensures
        call_spec(name, items, scope, depth).1 == scope,
        call_spec(name, items, call_spec(name, items, scope, depth).1, depth) == call_spec(
            name,
            items,
            scope,
            depth,
        ),
{
    if items.len() >= 1 {
        lemma_number_operands(items, 1, Seq::empty(), scope, depth, false);
    }
}

/// A well-formed definition yields `Void` and binds its name, in the
/// innermost frame, to the function of the given parameters and body. The
/// body is kept as written: nothing of it is evaluated.
pub proof fn lemma_defun_binds(items: Seq<AtomView>, scope: Scope)
    requires
        scope.len() >= 1,
        items.len() >= 4,
        items[1] is Symbol,
        items[2] is List,
        all_symbols(items[2]->List_0),
    ensures
        defun_spec(items, scope).0 == Ok::<AtomView, ErrorView>(AtomView::Void),
        lookup(defun_spec(items, scope).1, items[1]->Symbol_0) == Some(
            AtomView::Function {
                params: symbol_names(items[2]->List_0),
                body: items.subrange(3, items.len() as int),
            },
        ),
        defun_spec(items, scope).1.drop_last() == scope.drop_last(),
{
    let function = AtomView::Function {
        params: symbol_names(items[2]->List_0),
        body: items.subrange(3, items.len() as int),
    };
    lemma_bind_then_lookup(scope, items[1]->Symbol_0, function, items[1]->Symbol_0);
    lemma_bind_keeps_outer(scope, items[1]->Symbol_0, function);
}

/// A primitive applied to the right number of operands, all of them number
/// literals, computes on those numbers and leaves the scope as it was.
pub proof fn lemma_primitive_on_numbers(
    p: Primitive,
    items: Seq<AtomView>,
    scope: Scope,
    depth: nat,
)
    requires
        arity_ok(p, items.len() - 1),
        forall|j: int| 1 <= j < items.len() ==> (#[trigger] items[j]) is Integer,
    ensures
        strict_spec(p, items, scope, depth) == (
            primitive(p, items.subrange(1, items.len() as int)),
            scope,
        ),
{
    lemma_number_operands(items, 1, Seq::empty(), scope, depth, p is Arith);
    assert(Seq::<AtomView>::empty() + items.subrange(1, items.len() as int) =~= items.subrange(
        1,
        items.len() as int,
    ));
}

/// The operand that fails first decides the outcome: its failure is handed
/// on unchanged, and no operand after it is evaluated.
pub proof fn lemma_first_failure_wins(
    items: Seq<AtomView>,
    i: nat,
    acc: Seq<AtomView>,
    scope: Scope,
    depth: nat,
    numeric: bool,
)
    requires
        i < items.len(),
        eval_spec(items[i as int], scope, depth).0 is Err,
    ensures
        eval_operands(items, i, acc, scope, depth, numeric) == (
            Err::<Seq<AtomView>, ErrorView>(eval_spec(items[i as int], scope, depth).0->Err_0),
            eval_spec(items[i as int], scope, depth).1,
        ),
{
}

/// The depth bound adds one failure and changes nothing else: an evaluation
/// that does not run out of depth gives the same result, and leaves the
/// same scope, at every greater depth.
pub proof fn lemma_depth_is_monotone(a: AtomView, scope: Scope, depth: nat, more: nat)
    requires
        depth <= more,
        !exhausted(eval_spec(a, scope, depth).0),
    ensures
        eval_spec(a, scope, more) == eval_spec(a, scope, depth),
    decreases depth, 0nat, 0nat,
{
    match a {
        AtomView::List(items) => {
            lemma_apply_depth_is_monotone(items, scope, (depth - 1) as nat, (more - 1) as nat);
        },
        _ => {},
    }
}

/// Operands that do not run out of depth evaluate alike at every greater
/// depth.
pub proof fn lemma_operands_depth_is_monotone(
    items: Seq<AtomView>,
    i: nat,
    acc: Seq<AtomView>,
    scope: Scope,
    depth: nat,
    more: nat,
    numeric: bool,
)
    requires
        depth <= more,
        !exhausted(eval_operands(items, i, acc, scope, depth, numeric).0),
    ensures
        eval_operands(items, i, acc, scope, more, numeric) == eval_operands(
            items,
            i,
            acc,
            scope,
            depth,
            numeric,
        ),
    decreases depth, 1nat, items.len() - i,
{
    if i < items.len() {
        let first = eval_spec(items[i as int], scope, depth);
        lemma_depth_is_monotone(items[i as int], scope, depth, more);
        match first.0 {
            Err(_) => {},
            Ok(v) => {
                if !(numeric && !(v is Integer)) {
                    lemma_operands_depth_is_monotone(
                        items,
                        i + 1,
                        acc.push(v),
                        first.1,
                        depth,
                        more,
                        numeric,
                    );
                }
            },
        }
    }
}

/// A call form that does not run out of depth evaluates alike at every
/// greater depth.
pub proof fn lemma_apply_depth_is_monotone(
    items: Seq<AtomView>,
    scope: Scope,
    depth: nat,
    more: nat,
)
    requires
        depth <= more,
        !exhausted(apply_spec(items, scope, depth).0),
    ensures
        apply_spec(items, scope, more) == apply_spec(items, scope, depth),
    decreases depth, 3nat, 0nat,
{
    if items.len() > 0 {
        match items[0] {
            AtomView::Symbol(name) => {
                match op_of(name) {
                    Op::Primitive(p) => {
                        if arity_ok(p, items.len() - 1) {
                            lemma_operands_depth_is_monotone(
                                items,
                                1,
                                Seq::empty(),
                                scope,
                                depth,
                                more,
                                p is Arith,
                            );
                        }
                    },
                    Op::Defun => {},
                    Op::Cond => {},
                    Op::Call => {
                        match lookup(scope, name) {
                            Some(AtomView::Function { params, body }) => {
                                lemma_operands_depth_is_monotone(
                                    items,
                                    1,
                                    Seq::empty(),
                                    scope,
                                    depth,
                                    more,
                                    false,
                                );
                                let operands = eval_operands(
                                    items,
                                    1,
                                    Seq::empty(),
                                    scope,
                                    depth,
                                    false,
                                );
                                match operands.0 {
                                    Err(_) => {},
                                    Ok(vals) => {
                                        if body.len() > 0 {
                                            let frame = bind_params(
                                                child_of(operands.1),
                                                params,
                                                vals,
                                                0,
                                            );
                                            lemma_depth_is_monotone(body[0], frame, depth, more);
                                        }
                                    },
                                }
                            },
                            _ => {},
                        }
                    },
                }
            },
            _ => {},
        }
    }
}

/// Shallow equality implies deep equality, and is never true of a list or a
/// quote.
pub proof fn lemma_eq_is_finer(l: AtomView, r: AtomView)
    ensures
        eq_spec(l, r) ==> equal_spec(l, r),
        l is List || l is Quote || r is List || r is Quote ==> !eq_spec(l, r),
{
}

/// Whether a value is free of `Void` and of functions, all the way down.
pub open spec fn is_data(v: AtomView) -> bool
    decreases v,
{
    match v {
        AtomView::Void | AtomView::Function { .. } => false,
        AtomView::List(items) => forall|i: int| 0 <= i < items.len() ==> is_data(#[trigger] items[i]),
        AtomView::Quote(inner) => is_data(*inner),
        _ => true,
    }
}

/// On data, deep equality is identity: two values are `equal` exactly when
/// they are the same value.
pub proof fn lemma_equal_is_identity(l: AtomView, r: AtomView)
    requires
        is_data(l),
    ensures
        equal_spec(l, r) <==> l == r,
    decreases l,
{
    match (l, r) {
        (AtomView::List(a), AtomView::List(b)) => {
            if a.len() == b.len() {
                assert forall|i: int| 0 <= i < a.len() implies (equal_spec(#[trigger] a[i], b[i])
                    <==> a[i] == b[i]) by {
                    lemma_equal_is_identity(a[i], b[i]);
                }
                if equal_spec(l, r) {
                    assert(a =~= b);
                }
            }
        },
        (AtomView::Quote(a), AtomView::Quote(b)) => {
            lemma_equal_is_identity(*a, *b);
        },
        _ => {},
    }
}

} // verus!
