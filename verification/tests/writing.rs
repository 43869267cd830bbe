use minilisp::atom::EvalError;
use minilisp::parser::ParseError;
use minilisp::text::decimal_text;
use minilisp::token::{Token, TokenVec};
use minilisp::tokenize::tokenize;

#[test]
fn decimal_text_of_numbers() {
    assert_eq!(decimal_text(0), "0");
    assert_eq!(decimal_text(7), "7");
    assert_eq!(decimal_text(10), "10");
    assert_eq!(decimal_text(-1), "-1");
    assert_eq!(decimal_text(1234567890), "1234567890");
    assert_eq!(decimal_text(-9034), "-9034");
    assert_eq!(decimal_text(i64::MAX), "9223372036854775807");
    assert_eq!(decimal_text(i64::MIN), "-9223372036854775808");
}

#[test]
fn decimal_text_reads_back() {
    for n in [0i64, 5, 99, 100, 101, 65536, i64::MAX] {
        assert_eq!(tokenize(&decimal_text(n)), vec![Token::Number(n)]);
    }
}

#[test]
fn token_text() {
    assert_eq!(Token::OpenParen.to_text(), "(");
    assert_eq!(Token::CloseParen.to_text(), ")");
    assert_eq!(Token::Symbol("defun".to_string()).to_text(), "defun");
    assert_eq!(Token::Number(42).to_text(), "42");
    assert_eq!(Token::Quote.to_text(), "'");
    assert_eq!(Token::Nil.to_text(), "Nil");
}

#[test]
fn token_sequence_text() {
    assert_eq!(TokenVec(vec![]).to_text(), "");
    assert_eq!(TokenVec(vec![Token::Nil]).to_text(), "Nil");
    assert_eq!(TokenVec(tokenize("'(+ x 12)")).to_text(), "' ( + x 12 )");
}

#[test]
fn evaluation_messages() {
    assert_eq!(EvalError::UnboundSymbol("x".to_string()).message(), "Symbol 'x' not found");
    assert_eq!(
        EvalError::UnrecognizedSymbol("f".to_string()).message(),
        "Symbol 'f' is not recognized"
    );
    assert_eq!(EvalError::ArityError.message(), "Wrong number of arguments");
    assert_eq!(EvalError::TypeError.message(), "Operand of the wrong type");
    assert_eq!(EvalError::MalformedForm.message(), "Invalid function definition");
    assert_eq!(EvalError::EmptyListApplication.message(), "Expected a symbol");
    assert_eq!(EvalError::Overflow.message(), "Arithmetic overflow");
    assert_eq!(EvalError::DepthExceeded.message(), "Evaluation nested too deeply");
}

#[test]
fn parsing_messages() {
    assert_eq!(ParseError::UnclosedList.message(), "Unclosed list");
    assert_eq!(ParseError::ExpectedOpenParen.message(), "Expected open parenthesis, '('");
    assert_eq!(ParseError::UnexpectedCloseParen.message(), "Unexpected ')'");
    assert_eq!(ParseError::EmptyExpression.message(), "Empty expression");
    assert_eq!(ParseError::ExtraTokens.message(), "Extra tokens after parse");
}
