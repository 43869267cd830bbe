//! The parser: from a sequence of tokens to one atom.

use vstd::prelude::*;
use vstd::slice::slice_subrange;
use vstd::string::StringExecFns;
pub use crate::atom::Atom;
use crate::atom::{atoms_view, lemma_view_of_items, AtomView};
use crate::token::{tokens_view, Token, TokenView};

verus! {

/// Why a sequence of tokens is no expression.
#[derive(Clone, Copy, Debug, PartialEq, Eq)]
pub enum ParseError {
    /// The tokens end inside a list.
    UnclosedList,
    /// A list was asked for where no opening parenthesis stands.
    ExpectedOpenParen,
    /// A closing parenthesis stands where an expression should begin.
    UnexpectedCloseParen,
    /// The tokens end where an expression should begin.
    EmptyExpression,
    /// Tokens follow a complete expression.
    ExtraTokens,
}

/// The message that describes a failure of parsing.
pub open spec fn message_of(e: ParseError) -> Seq<char> {
    match e {
        ParseError::UnclosedList => "Unclosed list"@,
        ParseError::ExpectedOpenParen => "Expected open parenthesis, '('"@,
        ParseError::UnexpectedCloseParen => "Unexpected ')'"@,
        ParseError::EmptyExpression => "Empty expression"@,
        ParseError::ExtraTokens => "Extra tokens after parse"@,
    }
}

impl ParseError {
    /// Describes the failure in words.
    pub fn message(&self) -> (r: String)
        ensures
            r@ == message_of(*self),
    {
        match self {
            ParseError::UnclosedList => String::from_str("Unclosed list"),
            ParseError::ExpectedOpenParen => String::from_str("Expected open parenthesis, '('"),
            ParseError::UnexpectedCloseParen => String::from_str("Unexpected ')'"),
            ParseError::EmptyExpression => String::from_str("Empty expression"),
            ParseError::ExtraTokens => String::from_str("Extra tokens after parse"),
        }
    }
}

/// The expression that begins at `pos`, with the position after it.
pub open spec fn parse_expr_spec(tokens: Seq<TokenView>, pos: nat) -> Result<(AtomView, nat), ParseError>
    decreases tokens.len() - pos, 1nat,
{
    if pos >= tokens.len() {
        Err(ParseError::EmptyExpression)
    } else {
        match tokens[pos as int] {
            TokenView::Quote => match parse_expr_spec(tokens, pos + 1) {
                Ok((inner, next)) => Ok((AtomView::Quote(Box::new(inner)), next)),
                Err(e) => Err(e),
            },
            TokenView::OpenParen => parse_items_spec(tokens, pos + 1, Seq::empty()),
            TokenView::Number(n) => Ok((AtomView::Integer(n), pos + 1)),
            TokenView::Symbol(s) => Ok((AtomView::Symbol(s), pos + 1)),
            TokenView::CloseParen => Err(ParseError::UnexpectedCloseParen),
            TokenView::Nil => Ok((AtomView::Nil, pos + 1)),
        }
    }
}

/// The list whose first items are `acc` and whose remaining items begin at
/// `pos`, up to the closing parenthesis, with the position after it.
pub open spec fn parse_items_spec(tokens: Seq<TokenView>, pos: nat, acc: Seq<AtomView>) -> Result<
    (AtomView, nat),
    ParseError,
>
    decreases tokens.len() - pos, 2nat,
{
    if pos >= tokens.len() {
        Err(ParseError::UnclosedList)
    } else if tokens[pos as int] is CloseParen {
        Ok((AtomView::List(acc), pos + 1))
    } else {
        match parse_expr_spec(tokens, pos) {
            Err(e) => Err(e),
            Ok((item, next)) => {
                if pos < next <= tokens.len() {
                    parse_items_spec(tokens, next, acc.push(item))
                } else {
                    Err(ParseError::UnclosedList)
                }
            },
        }
    }
}

/// The parenthesised list that begins at `pos`, with the position after it.
pub open spec fn parse_list_spec(tokens: Seq<TokenView>, pos: nat) -> Result<(AtomView, nat), ParseError> {
    if pos < tokens.len() && tokens[pos as int] is OpenParen {
        parse_items_spec(tokens, pos + 1, Seq::empty())
    } else {
        Err(ParseError::ExpectedOpenParen)
    }
}

/// The one expression that the tokens make up.
pub open spec fn parse_spec(tokens: Seq<TokenView>) -> Result<AtomView, ParseError> {
    match parse_expr_spec(tokens, 0) {
        Err(e) => Err(e),
        Ok((atom, next)) => if next == tokens.len() {
            Ok(atom)
        } else {
            Err(ParseError::ExtraTokens)
        },
    }
}

/// An expression takes at least one token and ends within the tokens.
pub proof fn lemma_parse_advances(tokens: Seq<TokenView>, pos: nat)
    ensures
        parse_expr_spec(tokens, pos) matches Ok((_, next)) ==> pos < next <= tokens.len(),
    decreases tokens.len() - pos, 1nat,
{
    if pos < tokens.len() {
        match tokens[pos as int] {
            TokenView::Quote => {
                lemma_parse_advances(tokens, pos + 1);
            },
            TokenView::OpenParen => {
                lemma_items_advance(tokens, pos + 1, Seq::empty());
            },
            _ => {},
        }
    }
}

/// The rest of a list ends within the tokens.
pub proof fn lemma_items_advance(tokens: Seq<TokenView>, pos: nat, acc: Seq<AtomView>)
    ensures
        parse_items_spec(tokens, pos, acc) matches Ok((_, next)) ==> pos < next <= tokens.len(),
    decreases tokens.len() - pos, 2nat,
{
    if pos < tokens.len() && !(tokens[pos as int] is CloseParen) {
        lemma_parse_advances(tokens, pos);
        match parse_expr_spec(tokens, pos) {
            Ok((item, next)) => {
                lemma_items_advance(tokens, next, acc.push(item));
            },
            Err(_) => {},
        }
    }
}

/// What a step of parsing gives: the atom and the position after it.
pub open spec fn step_view(r: Result<(Atom, usize), ParseError>) -> Result<(AtomView, nat), ParseError> {
    match r {
        Ok((atom, next)) => Ok((atom@, next as nat)),
        Err(e) => Err(e),
    }
}

/// Parses the expression that begins at `pos`.
pub fn parse_expr_at(tokens: &[Token], pos: usize) -> (r: Result<(Atom, usize), ParseError>)
    ensures
        step_view(r) == parse_expr_spec(tokens_view(tokens@), pos as nat),
        r matches Ok((_, next)) ==> pos < next <= tokens@.len(),
    decreases tokens@.len() - pos, 1nat,
{
    proof {
        lemma_parse_advances(tokens_view(tokens@), pos as nat);
    }
    if pos >= tokens.len() {
        return Err(ParseError::EmptyExpression);
    }
    assert(tokens_view(tokens@)[pos as int] == tokens@[pos as int]@);
    match &tokens[pos] {
        Token::Quote => match parse_expr_at(tokens, pos + 1) {
            Ok((inner, next)) => Ok((Atom::Quote(Box::new(inner)), next)),
            Err(e) => Err(e),
        },
        Token::OpenParen => parse_list_at(tokens, pos),
        Token::Number(n) => Ok((Atom::Integer(*n), pos + 1)),
        Token::Symbol(s) => Ok((Atom::Symbol(s.clone()), pos + 1)),
        Token::CloseParen => Err(ParseError::UnexpectedCloseParen),
        Token::Nil => Ok((Atom::Nil, pos + 1)),
    }
}

/// Parses the parenthesised list that begins at `pos`.
#[verifier::loop_isolation(false)]
pub fn parse_list_at(tokens: &[Token], pos: usize) -> (r: Result<(Atom, usize), ParseError>)
    ensures
        step_view(r) == parse_list_spec(tokens_view(tokens@), pos as nat),
        r matches Ok((_, next)) ==> pos < next <= tokens@.len(),
    decreases tokens@.len() - pos, 0nat,
{
    let ghost views = tokens_view(tokens@);
    if pos >= tokens.len() {
        return Err(ParseError::ExpectedOpenParen);
    }
    assert(views[pos as int] == tokens@[pos as int]@);
    match &tokens[pos] {
        Token::OpenParen => {},
        _ => {
            return Err(ParseError::ExpectedOpenParen);
        },
    }
    let mut items: Vec<Atom> = Vec::new();
    let mut cur: usize = pos + 1;
    assert(atoms_view(items@) =~= Seq::empty());
    while cur < tokens.len()
        invariant
            pos < cur <= tokens@.len(),
            parse_items_spec(views, cur as nat, atoms_view(items@)) == parse_list_spec(
                views,
                pos as nat,
            ),
        decreases tokens@.len() - cur,
    {
        assert(views[cur as int] == tokens@[cur as int]@);
        if matches!(&tokens[cur], Token::CloseParen) {
            let list = Atom::List(items);
            proof {
                lemma_view_of_items(list);
            }
            return Ok((list, cur + 1));
        }
        let ghost before = atoms_view(items@);
        match parse_expr_at(tokens, cur) {
            Err(e) => {
                return Err(e);
            },
            Ok((item, next)) => {
                items.push(item);
                assert(atoms_view(items@) =~= before.push(item@));
                cur = next;
            },
        }
    }
    Err(ParseError::UnclosedList)
}

/// What parsing a prefix gives: the atom and the tokens that follow it.
pub open spec fn rest_view(tokens: Seq<Token>, r: Result<(Atom, &[Token]), ParseError>) -> Result<
    (AtomView, nat),
    ParseError,
> {
    match r {
        Ok((atom, rest)) => Ok((atom@, (tokens.len() - rest@.len()) as nat)),
        Err(e) => Err(e),
    }
}

/// Parses the parenthesised list at the front of the tokens and returns it
/// with the tokens that follow it.
pub fn parse_list(tokens: &[Token]) -> (r: Result<(Atom, &[Token]), ParseError>)
    ensures
        rest_view(tokens@, r) == parse_list_spec(tokens_view(tokens@), 0),
        r matches Ok((_, rest)) ==> rest@.len() < tokens@.len() && rest@ == tokens@.subrange(
            tokens@.len() - rest@.len(),
            tokens@.len() as int,
        ),
{
    match parse_list_at(tokens, 0) {
        Ok((atom, next)) => Ok((atom, slice_subrange(tokens, next, tokens.len()))),
        Err(e) => Err(e),
    }
}

/// Parses the expression at the front of the tokens and returns it with the
/// tokens that follow it.
pub fn parse_expr(tokens: &[Token]) -> (r: Result<(Atom, &[Token]), ParseError>)
    ensures
        rest_view(tokens@, r) == parse_expr_spec(tokens_view(tokens@), 0),
        r matches Ok((_, rest)) ==> rest@.len() < tokens@.len() && rest@ == tokens@.subrange(
            tokens@.len() - rest@.len(),
            tokens@.len() as int,
        ),
{
    match parse_expr_at(tokens, 0) {
        Ok((atom, next)) => Ok((atom, slice_subrange(tokens, next, tokens.len()))),
        Err(e) => Err(e),
    }
}

/// The model of a result of parsing.
pub open spec fn parsed_view(r: Result<Atom, ParseError>) -> Result<AtomView, ParseError> {
    match r {
        Ok(atom) => Ok(atom@),
        Err(e) => Err(e),
    }
}

/// Parses tokens that make up exactly one expression.
pub fn parse(tokens: &[Token]) -> (r: Result<Atom, ParseError>)
    ensures
        parsed_view(r) == parse_spec(tokens_view(tokens@)),
{
    match parse_expr_at(tokens, 0) {
        Err(e) => Err(e),
        Ok((parsed, next)) => {
            if next != tokens.len() {
                Err(ParseError::ExtraTokens)
            } else {
                Ok(parsed)
            }
        },
    }
}

} // verus!
