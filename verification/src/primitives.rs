//! The built-in operations on values that are already evaluated.

use vstd::prelude::*;
use crate::atom::{atoms_view, lemma_view_of_items, result_view, Atom, EvalError};
use crate::semantics::{
    all_numbers, arity_ok, compare, eq_spec, equal_spec, fold_from, has_tag, in_range, number, op_of, primitive, step,
    arith_spec, Arithmetic, Comparison, Op, Primitive, Tag,
};
use crate::text::str_eq;

verus! {

/// Selects the operation that a head symbol names.
pub fn classify(name: &str) -> (op: Op)
    ensures
        op == op_of(name@),
{
    if str_eq(name, "car") {
        Op::Primitive(Primitive::Car)
    } else if str_eq(name, "cdr") {
        Op::Primitive(Primitive::Cdr)
    } else if str_eq(name, "+") {
        Op::Primitive(Primitive::Arith(Arithmetic::Add))
    } else if str_eq(name, "-") {
        Op::Primitive(Primitive::Arith(Arithmetic::Sub))
    } else if str_eq(name, "*") {
        Op::Primitive(Primitive::Arith(Arithmetic::Mul))
    } else if str_eq(name, "cons") {
        Op::Primitive(Primitive::Cons)
    } else if str_eq(name, "equal") {
        Op::Primitive(Primitive::Equal)
    } else if str_eq(name, "eq") {
        Op::Primitive(Primitive::Eq)
    } else if str_eq(name, "defun") {
        Op::Defun
    } else if str_eq(name, "cond") {
        Op::Cond
    } else if str_eq(name, "<") {
        Op::Primitive(Primitive::Compare(Comparison::Less))
    } else if str_eq(name, "<=") {
        Op::Primitive(Primitive::Compare(Comparison::LessEq))
    } else if str_eq(name, ">") {
        Op::Primitive(Primitive::Compare(Comparison::Greater))
    } else if str_eq(name, ">=") {
        Op::Primitive(Primitive::Compare(Comparison::GreaterEq))
    } else if str_eq(name, "integerp") {
        Op::Primitive(Primitive::Is(Tag::Integer))
    } else if str_eq(name, "boolp") {
        Op::Primitive(Primitive::Is(Tag::Bool))
    } else if str_eq(name, "symbolp") {
        Op::Primitive(Primitive::Is(Tag::Symbol))
    } else if str_eq(name, "listp") {
        Op::Primitive(Primitive::Is(Tag::List))
    } else if str_eq(name, "functionp") {
        Op::Primitive(Primitive::Is(Tag::Function))
    } else if str_eq(name, "nilp") {
        Op::Primitive(Primitive::Is(Tag::Nil))
    } else if str_eq(name, "quotep") {
        Op::Primitive(Primitive::Is(Tag::Quote))
    } else {
        Op::Call
    }
}

/// Deep structural equality of two values.
#[verifier::loop_isolation(false)]
pub fn apply_equal(left: &Atom, right: &Atom) -> (r: bool)
    ensures
        r == equal_spec(left@, right@),
    decreases left,
{
    proof {
        lemma_view_of_items(*left);
        lemma_view_of_items(*right);
    }
    match (left, right) {
        (Atom::Integer(l), Atom::Integer(r)) => *l == *r,
        (Atom::Bool(l), Atom::Bool(r)) => *l == *r,
        (Atom::Nil, Atom::Nil) => true,
        (Atom::List(l), Atom::List(r)) => {
            if l.len() != r.len() {
                return false;
            }
            let mut i: usize = 0;
            while i < l.len()
                invariant
                    i <= l.len(),
                    l.len() == r.len(),
                    forall|j: int| 0 <= j < i ==> equal_spec(#[trigger] atoms_view(l@)[j], atoms_view(r@)[j]),
                decreases l.len() - i,
            {
                if !apply_equal(&l[i], &r[i]) {
                    assert(!equal_spec(atoms_view(l@)[i as int], atoms_view(r@)[i as int]));
                    return false;
                }
                i += 1;
            }
            true
        },
        (Atom::Symbol(l), Atom::Symbol(r)) => str_eq(l.as_str(), r.as_str()),
        (Atom::Quote(l), Atom::Quote(r)) => apply_equal(&**l, &**r),
        _ => false,
    }
}

/// Shallow equality of two values: never `true` of lists or quotes.
pub fn apply_eq(left: &Atom, right: &Atom) -> (r: bool)
    ensures
        r == eq_spec(left@, right@),
{
    match (left, right) {
        (Atom::Integer(l), Atom::Integer(r)) => *l == *r,
        (Atom::Bool(l), Atom::Bool(r)) => *l == *r,
        (Atom::Nil, Atom::Nil) => true,
        (Atom::Symbol(l), Atom::Symbol(r)) => str_eq(l.as_str(), r.as_str()),
        _ => false,
    }
}

/// Whether a value is of the variant that `tag` names.
pub fn is_tagged(value: &Atom, tag: Tag) -> (r: bool)
    ensures
        r == has_tag(value@, tag),
{
    match tag {
        Tag::Integer => matches!(value, Atom::Integer(_)),
        Tag::Bool => matches!(value, Atom::Bool(_)),
        Tag::Symbol => matches!(value, Atom::Symbol(_)),
        Tag::List => matches!(value, Atom::List(_)),
        Tag::Function => matches!(value, Atom::Function { .. }),
        Tag::Nil => matches!(value, Atom::Nil),
        Tag::Quote => matches!(value, Atom::Quote(_)),
    }
}

/// Evaluates a comparison of two numbers.
pub fn compare_numbers(c: Comparison, a: i64, b: i64) -> (r: bool)
    ensures
        r == compare(c, a as int, b as int),
{
    match c {
        Comparison::Less => a < b,
        Comparison::LessEq => a <= b,
        Comparison::Greater => a > b,
        Comparison::GreaterEq => a >= b,
    }
}

/// Copies the items from index `start` on.
pub(crate) fn tail_from(items: &[Atom], start: usize) -> (r: Vec<Atom>)
    requires
        start <= items@.len(),
    ensures
        atoms_view(r@) == atoms_view(items@).subrange(start as int, items@.len() as int),
{
    let mut out: Vec<Atom> = Vec::new();
    let mut i: usize = start;
    while i < items.len()
        invariant
            start <= i <= items@.len(),
            out@.len() == i - start,
            forall|j: int| 0 <= j < out@.len() ==> out@[j]@ == items@[start + j]@,
        decreases items@.len() - i,
    {
        out.push(items[i].clone());
        i += 1;
    }
    assert(atoms_view(out@) =~= atoms_view(items@).subrange(start as int, items@.len() as int));
    out
}

/// The number that a value holds; zero for what is no number.
fn number_of(value: &Atom) -> (n: i64)
    ensures
        n == number(value@),
{
    match value {
        Atom::Integer(n) => *n,
        _ => 0,
    }
}

/// Folds at least two numbers with one arithmetic operation, checking every
/// step for overflow.
#[verifier::loop_isolation(false)]
pub fn fold_numbers(op: Arithmetic, vals: &Vec<Atom>) -> (r: Result<Atom, EvalError>)
    ensures
        result_view(r) == arith_spec(op, atoms_view(vals@)),
{
    let ghost views = atoms_view(vals@);
    if vals.len() < 2 {
        return Err(EvalError::ArityError);
    }
    let mut k: usize = 0;
    while k < vals.len()
        invariant
            k <= vals@.len(),
            forall|j: int| 0 <= j < k ==> #[trigger] views[j] is Integer,
        decreases vals@.len() - k,
    {
        assert(views[k as int] == vals@[k as int]@);
        if !matches!(&vals[k], Atom::Integer(_)) {
            assert(!all_numbers(views));
            return Err(EvalError::TypeError);
        }
        k += 1;
    }
    assert(all_numbers(views));
    let mut acc: i64 = 0;
    let mut i: usize = 0;
    match op {
        Arithmetic::Add => {},
        Arithmetic::Mul => {
            acc = 1;
        },
        Arithmetic::Sub => {
            assert(views[0] == vals@[0]@);
            acc = number_of(&vals[0]);
            i = 1;
        },
    }
    let ghost start = fold_from(op, acc as int, views, i as nat);
    while i < vals.len()
        invariant
            i <= vals@.len(),
            fold_from(op, acc as int, views, i as nat) == start,
        decreases vals@.len() - i,
    {
        let x = number_of(&vals[i]);
        let next = match op {
            Arithmetic::Add => acc.checked_add(x),
            Arithmetic::Sub => acc.checked_sub(x),
            Arithmetic::Mul => acc.checked_mul(x),
        };
        assert(views[i as int] == vals@[i as int]@);
        match next {
            Some(n) => {
                assert(n == step(op, acc as int, x as int));
                acc = n;
            },
            None => {
                assert(!in_range(step(op, acc as int, x as int)));
                assert(fold_from(op, acc as int, views, i as nat) is None);
                return Err(EvalError::Overflow);
            },
        }
        i += 1;
    }
    Ok(Atom::Integer(acc))
}

/// Whether a primitive accepts `n` operands.
pub fn arity_matches(p: Primitive, n: usize) -> (r: bool)
    ensures
        r == arity_ok(p, n as int),
{
    match p {
        Primitive::Car | Primitive::Cdr | Primitive::Is(_) => n == 1,
        Primitive::Arith(_) => n >= 2,
        Primitive::Cons | Primitive::Equal | Primitive::Eq | Primitive::Compare(_) => n == 2,
    }
}

/// Computes a primitive on the values of its operands.
pub fn apply_primitive(p: Primitive, vals: &Vec<Atom>) -> (r: Result<Atom, EvalError>)
    ensures
        result_view(r) == primitive(p, atoms_view(vals@)),
{
    let ghost views = atoms_view(vals@);
    if !arity_matches(p, vals.len()) {
        return Err(EvalError::ArityError);
    }
    assert(views[0] == vals@[0]@);
    match p {
        Primitive::Car => {
            proof {
                lemma_view_of_items(vals@[0]);
            }
            match &vals[0] {
                Atom::List(items) => {
                    if items.len() > 0 {
                        Ok(items[0].clone())
                    } else {
                        Err(EvalError::TypeError)
                    }
                },
                _ => Err(EvalError::TypeError),
            }
        },
        Primitive::Cdr => {
            proof {
                lemma_view_of_items(vals@[0]);
            }
            match &vals[0] {
                Atom::List(items) => {
                    if items.len() > 0 {
                        let rest = Atom::List(tail_from(items.as_slice(), 1));
                        proof {
                            lemma_view_of_items(rest);
                        }
                        Ok(rest)
                    } else {
                        Err(EvalError::TypeError)
                    }
                },
                _ => Err(EvalError::TypeError),
            }
        },
        Primitive::Arith(op) => fold_numbers(op, vals),
        Primitive::Cons => {
            assert(views[1] == vals@[1]@);
            proof {
                lemma_view_of_items(vals@[1]);
            }
            match &vals[1] {
                Atom::List(items) => {
                    let mut out: Vec<Atom> = Vec::new();
                    out.push(vals[0].clone());
                    let mut i: usize = 0;
                    while i < items.len()
                        invariant
                            i <= items@.len(),
                            out@.len() == i + 1,
                            out@[0]@ == vals@[0]@,
                            forall|j: int| 0 <= j < i ==> out@[j + 1]@ == items@[j]@,
                        decreases items@.len() - i,
                    {
                        out.push(items[i].clone());
                        i += 1;
                    }
                    let joined = Atom::List(out);
                    proof {
                        lemma_view_of_items(joined);
                        assert(atoms_view(out@) =~= seq![views[0]] + atoms_view(items@));
                    }
                    Ok(joined)
                },
                Atom::Nil => {
                    let mut out: Vec<Atom> = Vec::new();
                    out.push(vals[0].clone());
                    let single = Atom::List(out);
                    proof {
                        lemma_view_of_items(single);
                        assert(atoms_view(out@) =~= seq![views[0]]);
                    }
                    Ok(single)
                },
                _ => Err(EvalError::TypeError),
            }
        },
        Primitive::Equal => {
            assert(views[1] == vals@[1]@);
            Ok(Atom::Bool(apply_equal(&vals[0], &vals[1])))
        },
        Primitive::Eq => {
            assert(views[1] == vals@[1]@);
            Ok(Atom::Bool(apply_eq(&vals[0], &vals[1])))
        },
        Primitive::Compare(c) => {
            assert(views[1] == vals@[1]@);
            match (&vals[0], &vals[1]) {
                (Atom::Integer(a), Atom::Integer(b)) => Ok(Atom::Bool(compare_numbers(c, *a, *b))),
                _ => Err(EvalError::TypeError),
            }
        },
        Primitive::Is(tag) => Ok(Atom::Bool(is_tagged(&vals[0], tag))),
    }
}

} // verus!
