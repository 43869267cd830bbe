use minilisp::atom::{Atom, EvalError};
use minilisp::binding::AList;
use minilisp::eval::eval;
use minilisp::parser::{parse, parse_expr, parse_expr_at, parse_list, parse_list_at, ParseError};
use minilisp::tokenize::Token;
use minilisp::tokenize::{chars_of, tokenize};

fn symbol(name: &str) -> Atom {
    Atom::Symbol(name.to_string())
}

fn word(name: &str) -> Token {
    Token::Symbol(name.to_string())
}

fn read(text: &str) -> Result<Atom, ParseError> {
    parse(&tokenize(text))
}

fn run_in(env: &mut AList, text: &str) -> Result<Atom, EvalError> {
    let expr = read(text).expect("the text is one expression");
    eval(&expr, env)
}

fn run(text: &str) -> Result<Atom, EvalError> {
    let mut env = AList::new();
    run_in(&mut env, text)
}

#[test]
fn test_tokenize_quote() {
    let input = "'(1 2 3)";
    let expected = vec![
        Token::Quote,
        Token::OpenParen,
        Token::Number(1),
        Token::Number(2),
        Token::Number(3),
        Token::CloseParen,
    ];

    let result = tokenize(input);
    assert_eq!(result, expected);
}

#[test]
fn test_tokenize_defun() {
    let input = "(defun my_func (x) (+ x 3))";
    let expected = vec![
        Token::OpenParen,
        Token::Symbol("defun".to_string()),
        Token::Symbol("my_func".to_string()),
        Token::OpenParen,
        Token::Symbol("x".to_string()),
        Token::CloseParen,
        Token::OpenParen,
        Token::Symbol("+".to_string()),
        Token::Symbol("x".to_string()),
        Token::Number(3),
        Token::CloseParen,
        Token::CloseParen,
    ];
    let result = tokenize(input);
    assert_eq!(result, expected);
}

#[test]
fn tokenize_empty_and_blank() {
    assert_eq!(tokenize(""), Vec::<Token>::new());
    assert_eq!(tokenize(" \t\n\r "), Vec::<Token>::new());
    assert_eq!(tokenize("\u{00A0}\u{2003}\u{3000}"), Vec::<Token>::new());
}

#[test]
fn tokenize_nil_and_symbols() {
    assert_eq!(tokenize("nil"), vec![Token::Nil]);
    assert_eq!(tokenize("nil nils Nil"), vec![Token::Nil, word("nils"), word("Nil")]);
    assert_eq!(tokenize("a(b)c'd"), vec![
        word("a"),
        Token::OpenParen,
        word("b"),
        Token::CloseParen,
        word("c"),
        Token::Quote,
        word("d"),
    ]);
    assert_eq!(tokenize("x1 -5 <= é"), vec![word("x1"), word("-5"), word("<="), word("é")]);
    assert_eq!(tokenize("a\rb"), vec![word("a"), word("b")]);
}

#[test]
fn tokenize_numbers() {
    assert_eq!(tokenize("0"), vec![Token::Number(0)]);
    assert_eq!(tokenize("007"), vec![Token::Number(7)]);
    assert_eq!(tokenize("42 1234567890"), vec![Token::Number(42), Token::Number(1234567890)]);
    assert_eq!(tokenize("9223372036854775807"), vec![Token::Number(i64::MAX)]);
    assert_eq!(tokenize("12abc"), vec![Token::Number(12), word("abc")]);
    assert_eq!(tokenize("(1)"), vec![Token::OpenParen, Token::Number(1), Token::CloseParen]);
}

#[test]
fn tokenize_drops_runs_that_are_no_number() {
    assert_eq!(tokenize("9223372036854775808"), Vec::<Token>::new());
    assert_eq!(tokenize("99999999999999999999999"), Vec::<Token>::new());
    assert_eq!(tokenize("1.5"), Vec::<Token>::new());
    assert_eq!(tokenize("."), Vec::<Token>::new());
    assert_eq!(tokenize("1.2.3 4"), vec![Token::Number(4)]);
    assert_eq!(tokenize("(+ 1. 2)"), vec![
        Token::OpenParen,
        word("+"),
        Token::Number(2),
        Token::CloseParen,
    ]);
}

#[test]
fn chars_of_keeps_every_character() {
    assert_eq!(chars_of(""), Vec::<char>::new());
    assert_eq!(chars_of("a(é 1"), vec!['a', '(', 'é', ' ', '1']);
}

#[test]
fn token_clone_is_equal() {
    for t in [
        Token::OpenParen,
        Token::CloseParen,
        word("abc"),
        Token::Number(-9),
        Token::Quote,
        Token::Nil,
    ] {
        assert_eq!(t.clone(), t);
    }
}

#[test]
fn parse_atoms() {
    assert_eq!(read("42"), Ok(Atom::Integer(42)));
    assert_eq!(read("x"), Ok(symbol("x")));
    assert_eq!(read("nil"), Ok(Atom::Nil));
    assert_eq!(read("'x"), Ok(Atom::Quote(Box::new(symbol("x")))));
    assert_eq!(read("''1"), Ok(Atom::Quote(Box::new(Atom::Quote(Box::new(Atom::Integer(1)))))));
}

#[test]
fn parse_lists() {
    assert_eq!(read("()"), Ok(Atom::List(vec![])));
    assert_eq!(
        read("(+ 1 (f nil) '(a))"),
        Ok(Atom::List(vec![
            symbol("+"),
            Atom::Integer(1),
            Atom::List(vec![symbol("f"), Atom::Nil]),
            Atom::Quote(Box::new(Atom::List(vec![symbol("a")]))),
        ]))
    );
}

#[test]
fn parse_failures() {
    assert_eq!(read(""), Err(ParseError::EmptyExpression));
    assert_eq!(read("'"), Err(ParseError::EmptyExpression));
    assert_eq!(read(")"), Err(ParseError::UnexpectedCloseParen));
    assert_eq!(read("')"), Err(ParseError::UnexpectedCloseParen));
    assert_eq!(read("("), Err(ParseError::UnclosedList));
    assert_eq!(read("(a (b)"), Err(ParseError::UnclosedList));
    assert_eq!(read("(a '"), Err(ParseError::EmptyExpression));
    assert_eq!(read("1 2"), Err(ParseError::ExtraTokens));
    assert_eq!(read("(a) )"), Err(ParseError::ExtraTokens));
    assert_eq!(read("(a))"), Err(ParseError::ExtraTokens));
}

#[test]
fn parse_expr_returns_the_rest() {
    let tokens = tokenize("(a b) c d");
    let (atom, rest) = parse_expr(&tokens).unwrap();
    assert_eq!(atom, Atom::List(vec![symbol("a"), symbol("b")]));
    assert_eq!(rest, &[word("c"), word("d")][..]);
    let (atom, rest) = parse_expr(rest).unwrap();
    assert_eq!(atom, symbol("c"));
    assert_eq!(rest, &[word("d")][..]);
    let (atom, rest) = parse_expr(rest).unwrap();
    assert_eq!(atom, symbol("d"));
    assert!(rest.is_empty());
    assert_eq!(parse_expr(rest), Err(ParseError::EmptyExpression));
}

#[test]
fn parse_list_wants_an_opening_parenthesis() {
    let tokens = tokenize("a (b)");
    assert_eq!(parse_list(&tokens), Err(ParseError::ExpectedOpenParen));
    assert_eq!(parse_list(&[]), Err(ParseError::ExpectedOpenParen));
    let (atom, rest) = parse_list(&tokens[1..]).unwrap();
    assert_eq!(atom, Atom::List(vec![symbol("b")]));
    assert!(rest.is_empty());
    assert_eq!(parse_list(&tokenize("(a")), Err(ParseError::UnclosedList));
}

#[test]
fn parse_at_positions() {
    let tokens = tokenize("a (b '(c)) d");
    assert_eq!(parse_expr_at(&tokens, 0), Ok((symbol("a"), 1)));
    let inner = Atom::List(vec![
        symbol("b"),
        Atom::Quote(Box::new(Atom::List(vec![symbol("c")]))),
    ]);
    assert_eq!(parse_expr_at(&tokens, 1), Ok((inner, 8)));
    assert_eq!(parse_list_at(&tokens, 4), Ok((Atom::List(vec![symbol("c")]), 7)));
    assert_eq!(parse_list_at(&tokens, 0), Err(ParseError::ExpectedOpenParen));
    assert_eq!(parse_expr_at(&tokens, 9), Err(ParseError::EmptyExpression));
    assert_eq!(parse_list_at(&tokens, 9), Err(ParseError::ExpectedOpenParen));
}

#[test]
fn text_arithmetic() {
    assert_eq!(run("(+ 2 3 4)"), Ok(Atom::Integer(9)));
    assert_eq!(run("(- 10 3 2)"), Ok(Atom::Integer(5)));
    assert_eq!(run("(* 2 3 4)"), Ok(Atom::Integer(24)));
    assert_eq!(run("(+ 1)"), Err(EvalError::ArityError));
}

#[test]
fn text_lists() {
    assert_eq!(run("(car (cons 1 (cons 2 nil)))"), Ok(Atom::Integer(1)));
    assert_eq!(run("(cdr (cons 1 (cons 2 nil)))"), Ok(Atom::List(vec![Atom::Integer(2)])));
    assert_eq!(run("(car nil)"), Err(EvalError::TypeError));
    assert_eq!(run("(car (cons))"), Err(EvalError::ArityError));
    assert_eq!(run("(car '(7 8 9))"), Ok(Atom::Integer(7)));
}

#[test]
fn text_equality() {
    assert_eq!(run("(equal (cons 1 nil) (cons 1 nil))"), Ok(Atom::Bool(true)));
    assert_eq!(run("(eq (cons 1 nil) (cons 1 nil))"), Ok(Atom::Bool(false)));
    assert_eq!(run("(eq 'a 'a)"), Ok(Atom::Bool(true)));
}

#[test]
fn text_define_and_call() {
    let mut env = AList::new();
    assert_eq!(run_in(&mut env, "(defun inc (x) (+ x 1))"), Ok(Atom::Void));
    assert_eq!(run_in(&mut env, "(inc 5)"), Ok(Atom::Integer(6)));
    assert_eq!(run_in(&mut env, "(inc 5)"), Ok(Atom::Integer(6)));
    assert_eq!(run_in(&mut env, "(inc (inc 5))"), Ok(Atom::Integer(7)));
}

#[test]
fn text_predicates_and_comparisons() {
    assert_eq!(run("(integerp 3)"), Ok(Atom::Bool(true)));
    assert_eq!(run("(listp nil)"), Ok(Atom::Bool(false)));
    assert_eq!(run("(< 3 5)"), Ok(Atom::Bool(true)));
    assert_eq!(run("(< 3 'x)"), Err(EvalError::TypeError));
    assert_eq!(run("(>= 3 5)"), Ok(Atom::Bool(false)));
}

#[test]
fn text_shadowing() {
    let mut env = AList::new();
    assert_eq!(run_in(&mut env, "(defun x () 10)"), Ok(Atom::Void));
    assert_eq!(run_in(&mut env, "(defun twice (x) (* x 2))"), Ok(Atom::Void));
    assert_eq!(run_in(&mut env, "(twice 4)"), Ok(Atom::Integer(8)));
    assert_eq!(run_in(&mut env, "(x)"), Ok(Atom::Integer(10)));
    assert_eq!(run_in(&mut env, "(functionp x)"), Ok(Atom::Bool(true)));
}
