//! Lexical units.

use vstd::prelude::*;
use vstd::string::StringExecFns;
use crate::text::{decimal_text, integer_text};

verus! {

/// A lexical unit of the source text.
#[derive(Debug, PartialEq)]
pub enum Token {
    OpenParen,
    CloseParen,
    Symbol(String),
    Number(i64),
    Quote,
    Nil,
}

/// The mathematical model of a [`Token`].
pub enum TokenView {
    OpenParen,
    CloseParen,
    Symbol(Seq<char>),
    Number(int),
    Quote,
    Nil,
}

impl View for Token {
    type V = TokenView;

    open spec fn view(&self) -> TokenView {
        match self {
            Token::OpenParen => TokenView::OpenParen,
            Token::CloseParen => TokenView::CloseParen,
            Token::Symbol(s) => TokenView::Symbol(s@),
            Token::Number(n) => TokenView::Number(*n as int),
            Token::Quote => TokenView::Quote,
            Token::Nil => TokenView::Nil,
        }
    }
}

impl Clone for Token {
    fn clone(&self) -> (r: Token)
        ensures
            r@ == self@,
    {
        match self {
            Token::OpenParen => Token::OpenParen,
            Token::CloseParen => Token::CloseParen,
            Token::Symbol(s) => Token::Symbol(s.clone()),
            Token::Number(n) => Token::Number(*n),
            Token::Quote => Token::Quote,
            Token::Nil => Token::Nil,
        }
    }
}

/// How a token is written.
pub open spec fn token_text(t: TokenView) -> Seq<char> {
    match t {
        TokenView::OpenParen => "("@,
        TokenView::CloseParen => ")"@,
        TokenView::Symbol(s) => s,
        TokenView::Number(n) => integer_text(n),
        TokenView::Quote => "'"@,
        TokenView::Nil => "Nil"@,
    }
}

impl Token {
    /// Writes the token.
    pub fn to_text(&self) -> (r: String)
        ensures
            r@ == token_text(self@),
    {
        match self {
            Token::OpenParen => String::from_str("("),
            Token::CloseParen => String::from_str(")"),
            Token::Symbol(s) => s.clone(),
            Token::Number(n) => decimal_text(*n),
            Token::Quote => String::from_str("'"),
            Token::Nil => String::from_str("Nil"),
        }
    }
}

/// The models of a sequence of tokens, element by element.
pub open spec fn tokens_view(tokens: Seq<Token>) -> Seq<TokenView> {
    Seq::new(tokens.len(), |i: int| tokens[i]@)
}

/// How the first `n` tokens are written: one after the other, with a space
/// between two of them.
pub open spec fn joined_text(tokens: Seq<TokenView>, n: nat) -> Seq<char>
    decreases n,
{
    if n == 0 {
        Seq::empty()
    } else if n == 1 {
        token_text(tokens[0])
    } else {
        joined_text(tokens, (n - 1) as nat) + " "@ + token_text(tokens[n - 1])
    }
}

/// A sequence of tokens that can be written out.
pub struct TokenVec(pub Vec<Token>);

impl TokenVec {
    /// Writes the tokens, separated by single spaces.
    pub fn to_text(&self) -> (r: String)
        ensures
            r@ == joined_text(tokens_view(self.0@), self.0@.len()),
    {
        let ghost views = tokens_view(self.0@);
        let mut out = String::new();
        let mut index: usize = 0;
        while index < self.0.len()
            invariant
                index <= self.0@.len(),
                views == tokens_view(self.0@),
                out@ == joined_text(views, index as nat),
            decreases self.0@.len() - index,
        {
            if index > 0 {
                out.append(" ");
            }
            assert(views[index as int] == self.0@[index as int]@);
            let written = self.0[index].to_text();
            out.append(written.as_str());
            assert(Seq::<char>::empty() + written@ =~= written@);
            index += 1;
        }
        out
    }
}

} // verus!
