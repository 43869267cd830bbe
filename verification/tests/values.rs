use minilisp::atom::Atom;
use minilisp::binding::AList;
use minilisp::atom::EvalError;
use minilisp::eval::{apply_eq, apply_equal};
use minilisp::primitives::{apply_primitive, arity_matches, classify, fold_numbers};
use minilisp::semantics::{Arithmetic, Comparison, Op, Primitive, Tag};

fn symbol(name: &str) -> Atom {
    Atom::Symbol(name.to_string())
}

#[test]
fn clone_is_deep_and_equal() {
    let f = Atom::Function {
        params: vec!["a".to_string(), "b".to_string()],
        body: vec![Atom::List(vec![symbol("+"), symbol("a"), symbol("b")]), Atom::Void],
    };
    let value = Atom::List(vec![
        Atom::Integer(-3),
        Atom::Bool(true),
        Atom::Quote(Box::new(Atom::List(vec![Atom::Nil, symbol("s")]))),
        f,
    ]);
    let copy = value.clone();
    assert_eq!(copy, value);
}

#[test]
fn apply_equal_compares_structure() {
    let a = Atom::List(vec![Atom::Integer(1), Atom::List(vec![symbol("x")])]);
    let b = Atom::List(vec![Atom::Integer(1), Atom::List(vec![symbol("x")])]);
    let c = Atom::List(vec![Atom::Integer(1), Atom::List(vec![symbol("y")])]);
    let d = Atom::List(vec![Atom::Integer(1)]);
    assert!(apply_equal(&a, &b));
    assert!(!apply_equal(&a, &c));
    assert!(!apply_equal(&a, &d));
    assert!(!apply_equal(&d, &a));
    assert!(apply_equal(&Atom::List(vec![]), &Atom::List(vec![])));
    assert!(!apply_equal(&Atom::List(vec![]), &Atom::Nil));
    assert!(!apply_equal(&Atom::Bool(false), &Atom::Nil));
    assert!(apply_equal(&Atom::Quote(Box::new(a)), &Atom::Quote(Box::new(b))));
}

#[test]
fn apply_equal_is_false_of_void_and_functions() {
    assert!(!apply_equal(&Atom::Void, &Atom::Void));
    let f = Atom::Function { params: vec![], body: vec![] };
    let g = Atom::Function { params: vec![], body: vec![] };
    assert!(!apply_equal(&f, &g));
}

#[test]
fn apply_eq_is_false_of_lists_and_quotes() {
    let a = Atom::List(vec![]);
    let b = Atom::List(vec![]);
    assert!(!apply_eq(&a, &b));
    let p = Atom::Quote(Box::new(Atom::Nil));
    let q = Atom::Quote(Box::new(Atom::Nil));
    assert!(!apply_eq(&p, &q));
    assert!(apply_eq(&symbol("a"), &symbol("a")));
    assert!(!apply_eq(&symbol("a"), &symbol("A")));
    assert!(apply_eq(&Atom::Integer(7), &Atom::Integer(7)));
    assert!(!apply_eq(&Atom::Integer(7), &Atom::Integer(8)));
    assert!(apply_eq(&Atom::Nil, &Atom::Nil));
    assert!(!apply_eq(&Atom::Nil, &Atom::Bool(false)));
}

#[test]
fn classify_knows_every_built_in() {
    assert_eq!(classify("car"), Op::Primitive(Primitive::Car));
    assert_eq!(classify("cdr"), Op::Primitive(Primitive::Cdr));
    assert_eq!(classify("+"), Op::Primitive(Primitive::Arith(Arithmetic::Add)));
    assert_eq!(classify("-"), Op::Primitive(Primitive::Arith(Arithmetic::Sub)));
    assert_eq!(classify("*"), Op::Primitive(Primitive::Arith(Arithmetic::Mul)));
    assert_eq!(classify("cons"), Op::Primitive(Primitive::Cons));
    assert_eq!(classify("equal"), Op::Primitive(Primitive::Equal));
    assert_eq!(classify("eq"), Op::Primitive(Primitive::Eq));
    assert_eq!(classify("defun"), Op::Defun);
    assert_eq!(classify("cond"), Op::Cond);
    assert_eq!(classify("<"), Op::Primitive(Primitive::Compare(Comparison::Less)));
    assert_eq!(classify("<="), Op::Primitive(Primitive::Compare(Comparison::LessEq)));
    assert_eq!(classify(">"), Op::Primitive(Primitive::Compare(Comparison::Greater)));
    assert_eq!(classify(">="), Op::Primitive(Primitive::Compare(Comparison::GreaterEq)));
    assert_eq!(classify("integerp"), Op::Primitive(Primitive::Is(Tag::Integer)));
    assert_eq!(classify("boolp"), Op::Primitive(Primitive::Is(Tag::Bool)));
    assert_eq!(classify("symbolp"), Op::Primitive(Primitive::Is(Tag::Symbol)));
    assert_eq!(classify("listp"), Op::Primitive(Primitive::Is(Tag::List)));
    assert_eq!(classify("functionp"), Op::Primitive(Primitive::Is(Tag::Function)));
    assert_eq!(classify("nilp"), Op::Primitive(Primitive::Is(Tag::Nil)));
    assert_eq!(classify("quotep"), Op::Primitive(Primitive::Is(Tag::Quote)));
    assert_eq!(classify("CAR"), Op::Call);
    assert_eq!(classify(""), Op::Call);
    assert_eq!(classify("inc"), Op::Call);
}

#[test]
fn fold_numbers_exact_values() {
    let v = vec![Atom::Integer(7), Atom::Integer(-2), Atom::Integer(3)];
    assert_eq!(fold_numbers(Arithmetic::Add, &v), Ok(Atom::Integer(8)));
    assert_eq!(fold_numbers(Arithmetic::Sub, &v), Ok(Atom::Integer(6)));
    assert_eq!(fold_numbers(Arithmetic::Mul, &v), Ok(Atom::Integer(-42)));
}

#[test]
fn fold_numbers_failures() {
    let one = vec![Atom::Integer(5)];
    assert_eq!(fold_numbers(Arithmetic::Sub, &one), Err(EvalError::ArityError));
    assert_eq!(fold_numbers(Arithmetic::Add, &vec![]), Err(EvalError::ArityError));
    let mixed = vec![Atom::Integer(i64::MAX), Atom::Integer(1), Atom::Nil];
    assert_eq!(fold_numbers(Arithmetic::Add, &mixed), Err(EvalError::TypeError));
    let big = vec![Atom::Integer(i64::MIN), Atom::Integer(-1)];
    assert_eq!(fold_numbers(Arithmetic::Mul, &big), Err(EvalError::Overflow));
    assert_eq!(fold_numbers(Arithmetic::Add, &big), Err(EvalError::Overflow));
    assert_eq!(fold_numbers(Arithmetic::Sub, &big), Ok(Atom::Integer(i64::MIN + 1)));
}

#[test]
fn apply_primitive_checks_arity_first() {
    let none: Vec<Atom> = vec![];
    let two = vec![Atom::Integer(1), Atom::Nil];
    assert_eq!(apply_primitive(Primitive::Car, &none), Err(EvalError::ArityError));
    assert_eq!(apply_primitive(Primitive::Car, &two), Err(EvalError::ArityError));
    assert_eq!(apply_primitive(Primitive::Cons, &none), Err(EvalError::ArityError));
    assert_eq!(apply_primitive(Primitive::Cons, &two), Ok(Atom::List(vec![Atom::Integer(1)])));
    assert_eq!(apply_primitive(Primitive::Is(Tag::Nil), &two), Err(EvalError::ArityError));
    assert!(arity_matches(Primitive::Arith(Arithmetic::Add), 5));
    assert!(!arity_matches(Primitive::Arith(Arithmetic::Add), 1));
    assert!(arity_matches(Primitive::Compare(Comparison::Less), 2));
    assert!(!arity_matches(Primitive::Eq, 3));
}

#[test]
fn frames_chain_and_overwrite() {
    let mut root = AList::new();
    assert_eq!(root.get_binding("k"), None);
    root.set_binding("k".to_string(), Atom::Integer(1));
    root.set_binding("k".to_string(), Atom::Integer(2));
    root.set_binding("other".to_string(), Atom::Nil);
    assert_eq!(root.get_binding("k"), Some(Atom::Integer(2)));
    let mut inner = AList::new_with_parent(root);
    assert_eq!(inner.get_binding("k"), Some(Atom::Integer(2)));
    inner.set_binding("k".to_string(), Atom::Integer(3));
    assert_eq!(inner.get_binding("k"), Some(Atom::Integer(3)));
    assert_eq!(inner.get_binding("other"), Some(Atom::Nil));
    let innermost = AList::new_with_parent(inner);
    assert_eq!(innermost.get_binding("k"), Some(Atom::Integer(3)));
    let inner = innermost.into_parent().unwrap();
    let root = inner.into_parent().unwrap();
    assert_eq!(root.get_binding("k"), Some(Atom::Integer(2)));
    assert_eq!(root.get_binding("K"), None);
}
