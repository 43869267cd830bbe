//! The tokenizer: from source text to tokens.

use vstd::prelude::*;
use vstd::std_specs::iter::IteratorSpec;
use vstd::string::StrSliceExecFns;
use crate::text::str_eq;
pub use crate::token::{Token, TokenVec};
use crate::token::{tokens_view, TokenView};

verus! {

/// The characters of a string, in order.
pub fn chars_of(s: &str) -> (r: Vec<char>)
    ensures
        r@ == s@,
{
    broadcast use vstd::string::axiom_spec_iter, vstd::string::next_postcondition;

    let mut out: Vec<char> = Vec::new();
    let mut it = s.chars();
    assert(it.remaining() == s@);
    loop
        invariant
            out@ + it.remaining() == s@,
            it.decrease() is Some,
        decreases it.decrease()->0,
    {
        match it.next() {
            Some(c) => {
                out.push(c);
                assert(out@ + it.remaining() =~= s@);
            },
            None => {
                assert(out@ =~= s@);
                return out;
            },
        }
    }
}

/// Whether a character is a decimal digit.
pub open spec fn is_digit(c: char) -> bool {
    48 <= c as u32 <= 57
}

/// Whether a character is white space, as Unicode defines it.
pub open spec fn is_space(c: char) -> bool {
    let u = c as u32;
    ||| 0x09 <= u <= 0x0D
    ||| u == 0x20
    ||| u == 0x85
    ||| u == 0xA0
    ||| u == 0x1680
    ||| 0x2000 <= u <= 0x200A
    ||| u == 0x2028
    ||| u == 0x2029
    ||| u == 0x202F
    ||| u == 0x205F
    ||| u == 0x3000
}

/// Whether a character can stand in a numeric literal.
pub open spec fn is_numeric(c: char) -> bool {
    is_digit(c) || c == '.'
}

/// Whether a character ends a symbol.
pub open spec fn is_delimiter(c: char) -> bool {
    c == '(' || c == ')' || c == '\'' || is_space(c)
}

/// Whether a character continues a run: a numeric run holds digits and
/// dots, a symbol holds everything up to the next delimiter.
pub open spec fn continues_run(c: char, numeric: bool) -> bool {
    if numeric {
        is_numeric(c)
    } else {
        !is_delimiter(c)
    }
}

/// Where the run that reaches `pos` ends.
pub open spec fn run_end(chars: Seq<char>, pos: nat, numeric: bool) -> nat
    decreases chars.len() - pos,
{
    if pos < chars.len() && continues_run(chars[pos as int], numeric) {
        run_end(chars, pos + 1, numeric)
    } else {
        pos
    }
}

/// The number that a sequence of digits denotes in base ten.
pub open spec fn decimal_value(digits: Seq<char>) -> int
    decreases digits.len(),
{
    if digits.len() == 0 {
        0
    } else {
        decimal_value(digits.drop_last()) * 10 + (digits.last() as u32 - 48)
    }
}

/// Whether every character is a decimal digit.
pub open spec fn all_digits(run: Seq<char>) -> bool {
    forall|i: int| 0 <= i < run.len() ==> is_digit(#[trigger] run[i])
}

/// The value of a numeric run: that of its digits, if it holds nothing else
/// and the value fits in 64 bits.
pub open spec fn number_of(run: Seq<char>) -> Option<int> {
    if all_digits(run) && decimal_value(run) <= i64::MAX {
        Some(decimal_value(run))
    } else {
        None
    }
}

/// The tokens `acc` followed by those of the text from `pos` on. White space
/// separates; a numeric run that is no number gives no token.
pub open spec fn tokenize_from(chars: Seq<char>, pos: nat, acc: Seq<TokenView>) -> Seq<TokenView>
    decreases chars.len() - pos,
{
    if pos >= chars.len() {
        acc
    } else {
        let c = chars[pos as int];
        if c == '(' {
            tokenize_from(chars, pos + 1, acc.push(TokenView::OpenParen))
        } else if c == ')' {
            tokenize_from(chars, pos + 1, acc.push(TokenView::CloseParen))
        } else if c == '\'' {
            tokenize_from(chars, pos + 1, acc.push(TokenView::Quote))
        } else if is_space(c) {
            tokenize_from(chars, pos + 1, acc)
        } else {
            let end = run_end(chars, pos + 1, is_numeric(c));
            let run = chars.subrange(pos as int, end as int);
            let next = if is_numeric(c) {
                match number_of(run) {
                    Some(n) => acc.push(TokenView::Number(n)),
                    None => acc,
                }
            } else if run == "nil"@ {
                acc.push(TokenView::Nil)
            } else {
                acc.push(TokenView::Symbol(run))
            };
            if pos < end <= chars.len() {
                tokenize_from(chars, end, next)
            } else {
                next
            }
        }
    }
}

/// The tokens of a text.
pub open spec fn tokenize_spec(chars: Seq<char>) -> Seq<TokenView> {
    tokenize_from(chars, 0, Seq::empty())
}

/// A run ends at or after the position it reaches, within the text: the
/// tokenizer always moves on by at least one character.
pub proof fn lemma_run_end_bounds(chars: Seq<char>, pos: nat, numeric: bool)
    requires
        pos <= chars.len(),
    ensures
        pos <= run_end(chars, pos, numeric) <= chars.len(),
    decreases chars.len() - pos,
{
    if pos < chars.len() && continues_run(chars[pos as int], numeric) {
        lemma_run_end_bounds(chars, pos + 1, numeric);
    }
}

/// Tokens are only ever added: what was read so far stays at the front.
pub proof fn lemma_tokens_extend(chars: Seq<char>, pos: nat, acc: Seq<TokenView>)
    requires
        pos <= chars.len(),
    ensures
        acc.len() <= tokenize_from(chars, pos, acc).len(),
        tokenize_from(chars, pos, acc).subrange(0, acc.len() as int) == acc,
    decreases chars.len() - pos,
{
    if pos >= chars.len() {
        assert(acc.subrange(0, acc.len() as int) =~= acc);
    } else {
        let c = chars[pos as int];
        if c == '(' {
            let next = acc.push(TokenView::OpenParen);
            lemma_tokens_extend(chars, pos + 1, next);
            assert(tokenize_from(chars, pos, acc).subrange(0, acc.len() as int) =~= next.subrange(
                0,
                acc.len() as int,
            ));
            assert(next.subrange(0, acc.len() as int) =~= acc);
        } else if c == ')' {
            let next = acc.push(TokenView::CloseParen);
            lemma_tokens_extend(chars, pos + 1, next);
            assert(tokenize_from(chars, pos, acc).subrange(0, acc.len() as int) =~= next.subrange(
                0,
                acc.len() as int,
            ));
            assert(next.subrange(0, acc.len() as int) =~= acc);
        } else if c == '\'' {
            let next = acc.push(TokenView::Quote);
            lemma_tokens_extend(chars, pos + 1, next);
            assert(tokenize_from(chars, pos, acc).subrange(0, acc.len() as int) =~= next.subrange(
                0,
                acc.len() as int,
            ));
            assert(next.subrange(0, acc.len() as int) =~= acc);
        } else if is_space(c) {
            lemma_tokens_extend(chars, pos + 1, acc);
        } else {
            let end = run_end(chars, pos + 1, is_numeric(c));
            lemma_run_end_bounds(chars, pos + 1, is_numeric(c));
            let run = chars.subrange(pos as int, end as int);
            let next = if is_numeric(c) {
                match number_of(run) {
                    Some(n) => acc.push(TokenView::Number(n)),
                    None => acc,
                }
            } else if run == "nil"@ {
                acc.push(TokenView::Nil)
            } else {
                acc.push(TokenView::Symbol(run))
            };
            lemma_tokens_extend(chars, end, next);
            assert(tokenize_from(chars, pos, acc).subrange(0, acc.len() as int) =~= next.subrange(
                0,
                acc.len() as int,
            ));
            assert(next.subrange(0, acc.len() as int) =~= acc);
        }
    }
}

/// The value of digits is no less than the value of any of their prefixes.
pub proof fn lemma_decimal_value_grows(digits: Seq<char>, k: int)
    requires
        all_digits(digits),
        0 <= k <= digits.len(),
    ensures
        0 <= decimal_value(digits.subrange(0, k)) <= decimal_value(digits),
    decreases digits.len(),
{
    if digits.len() == 0 {
        assert(digits.subrange(0, k) =~= digits);
    } else if k == digits.len() {
        assert(digits.subrange(0, k) =~= digits);
        lemma_decimal_value_grows(digits.drop_last(), k - 1);
        assert(is_digit(digits.last()));
    } else {
        let shorter = digits.drop_last();
        assert(all_digits(shorter));
        lemma_decimal_value_grows(shorter, k);
        assert(shorter.subrange(0, k) =~= digits.subrange(0, k));
        assert(is_digit(digits.last()));
    }
}

fn digit(c: char) -> (r: bool)
    ensures
        r == is_digit(c),
{
    let u = c as u32;
    48 <= u && u <= 57
}

fn digit_value(c: char) -> (d: i64)
    requires
        is_digit(c),
    ensures
        d == c as u32 - 48,
{
    let u = c as u32;
    (u - 48) as i64
}

fn space(c: char) -> (r: bool)
    ensures
        r == is_space(c),
{
    let u = c as u32;
    (0x09 <= u && u <= 0x0D) || u == 0x20 || u == 0x85 || u == 0xA0 || u == 0x1680 || (0x2000 <= u
        && u <= 0x200A) || u == 0x2028 || u == 0x2029 || u == 0x202F || u == 0x205F || u == 0x3000
}

fn in_run(c: char, numeric: bool) -> (r: bool)
    ensures
        r == continues_run(c, numeric),
{
    if numeric {
        digit(c) || c == '.'
    } else {
        !(c == '(' || c == ')' || c == '\'' || space(c))
    }
}

/// Finds the end of the run that reaches `pos`.
fn scan_run(chars: &Vec<char>, pos: usize, numeric: bool) -> (end: usize)
    requires
        pos <= chars@.len(),
    ensures
        end == run_end(chars@, pos as nat, numeric),
        pos <= end <= chars@.len(),
{
    let mut end: usize = pos;
    while end < chars.len() && in_run(chars[end], numeric)
        invariant
            pos <= end <= chars@.len(),
            run_end(chars@, end as nat, numeric) == run_end(chars@, pos as nat, numeric),
        decreases chars@.len() - end,
    {
        end += 1;
    }
    end
}

/// Reads the digits between `from` and `to` as a number.
#[verifier::loop_isolation(false)]
fn read_number(chars: &Vec<char>, from: usize, to: usize) -> (r: Option<i64>)
    requires
        from <= to <= chars@.len(),
    ensures
        match r {
            Some(n) => number_of(chars@.subrange(from as int, to as int)) == Some(n as int),
            None => number_of(chars@.subrange(from as int, to as int)) is None,
        },
{
    let ghost run = chars@.subrange(from as int, to as int);
    let mut value: i64 = 0;
    let mut i: usize = from;
    assert(run.subrange(0, 0) =~= Seq::<char>::empty());
    while i < to
        invariant
            from <= i <= to,
            all_digits(run.subrange(0, i - from)),
            value == decimal_value(run.subrange(0, i - from)),
            0 <= value,
        decreases to - i,
    {
        let c = chars[i];
        assert(run[i - from] == c);
        if !digit(c) {
            assert(!all_digits(run));
            return None;
        }
        let ghost longer = run.subrange(0, i - from + 1);
        assert(longer.drop_last() =~= run.subrange(0, i - from));
        assert(longer.last() == c);
        assert(all_digits(longer)) by {
            assert forall|j: int| 0 <= j < longer.len() implies is_digit(#[trigger] longer[j]) by {
                if j < longer.len() - 1 {
                    assert(run.subrange(0, i - from)[j] == longer[j]);
                }
            }
        }
        let d = digit_value(c);
        assert(decimal_value(longer) == value * 10 + d);
        let next = match value.checked_mul(10) {
            Some(tens) => tens.checked_add(d),
            None => None,
        };
        match next {
            Some(n) => {
                value = n;
            },
            None => {
                assert(decimal_value(longer) > i64::MAX);
                proof {
                    if all_digits(run) {
                        lemma_decimal_value_grows(run, i - from + 1);
                    }
                }
                return None;
            },
        }
        i += 1;
    }
    assert(run.subrange(0, to - from) =~= run);
    Some(value)
}

/// Splits source text into tokens.
#[verifier::loop_isolation(false)]
pub fn tokenize(input: &str) -> (r: Vec<Token>)
    ensures
        tokens_view(r@) == tokenize_spec(input@),
{
    let chars = chars_of(input);
    let mut tokens: Vec<Token> = Vec::new();
    let mut pos: usize = 0;
    assert(tokens_view(tokens@) =~= Seq::empty());
    while pos < chars.len()
        invariant
            pos <= chars@.len(),
            chars@ == input@,
            tokenize_from(chars@, pos as nat, tokens_view(tokens@)) == tokenize_spec(input@),
        decreases chars@.len() - pos,
    {
        let c = chars[pos];
        let ghost before = tokens_view(tokens@);
        if c == '(' {
            tokens.push(Token::OpenParen);
            assert(tokens_view(tokens@) =~= before.push(TokenView::OpenParen));
            pos += 1;
        } else if c == ')' {
            tokens.push(Token::CloseParen);
            assert(tokens_view(tokens@) =~= before.push(TokenView::CloseParen));
            pos += 1;
        } else if c == '\'' {
            tokens.push(Token::Quote);
            assert(tokens_view(tokens@) =~= before.push(TokenView::Quote));
            pos += 1;
        } else if space(c) {
            pos += 1;
        } else {
            let numeric = digit(c) || c == '.';
            let end = scan_run(&chars, pos + 1, numeric);
            let ghost run = chars@.subrange(pos as int, end as int);
            if numeric {
                match read_number(&chars, pos, end) {
                    Some(n) => {
                        tokens.push(Token::Number(n));
                        assert(tokens_view(tokens@) =~= before.push(TokenView::Number(n as int)));
                    },
                    None => {},
                }
            } else {
                let word = input.substring_char(pos, end);
                if str_eq(word, "nil") {
                    tokens.push(Token::Nil);
                    assert(tokens_view(tokens@) =~= before.push(TokenView::Nil));
                } else {
                    tokens.push(Token::Symbol(word.to_owned()));
                    assert(tokens_view(tokens@) =~= before.push(TokenView::Symbol(run)));
                }
            }
            pos = end;
        }
    }
    tokens
}

} // verus!
