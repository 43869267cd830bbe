//! Comparison of string slices and the decimal notation of numbers.

use vstd::prelude::*;
use vstd::string::StringExecFns;

verus! {

/// Calls `==` of `str` from the standard library, which compares two string
/// slices byte by byte. Trusted: the result is `true` exactly when both hold
/// the same sequence of characters.
#[verifier::external_body]
pub(crate) fn str_eq(a: &str, b: &str) -> (r: bool)
    ensures
        r == (a@ == b@),
{
    a == b
}

/// The numeral of a digit; empty for what is no digit.
pub open spec fn digit_name(d: int) -> Seq<char> {
    if d == 0 {
        "0"@
    } else if d == 1 {
        "1"@
    } else if d == 2 {
        "2"@
    } else if d == 3 {
        "3"@
    } else if d == 4 {
        "4"@
    } else if d == 5 {
        "5"@
    } else if d == 6 {
        "6"@
    } else if d == 7 {
        "7"@
    } else if d == 8 {
        "8"@
    } else if d == 9 {
        "9"@
    } else {
        Seq::empty()
    }
}

/// The decimal notation of a natural number, without leading zeros.
pub open spec fn natural_text(n: nat) -> Seq<char>
    decreases n,
{
    if n < 10 {
        digit_name(n as int)
    } else {
        natural_text(n / 10) + digit_name((n % 10) as int)
    }
}

/// The decimal notation of an integer: a minus sign before a negative one.
pub open spec fn integer_text(n: int) -> Seq<char> {
    if n < 0 {
        "-"@ + natural_text((-n) as nat)
    } else {
        natural_text(n as nat)
    }
}

/// The numerals of digits given lowest first, written highest first.
pub open spec fn digits_text(digits: Seq<u8>) -> Seq<char>
    decreases digits.len(),
{
    if digits.len() == 0 {
        Seq::empty()
    } else {
        digit_name(digits.last() as int) + digits_text(digits.drop_last())
    }
}

fn digit_str(d: u8) -> (r: &'static str)
    requires
        d < 10,
    ensures
        r@ == digit_name(d as int),
{
    if d == 0 {
        "0"
    } else if d == 1 {
        "1"
    } else if d == 2 {
        "2"
    } else if d == 3 {
        "3"
    } else if d == 4 {
        "4"
    } else if d == 5 {
        "5"
    } else if d == 6 {
        "6"
    } else if d == 7 {
        "7"
    } else if d == 8 {
        "8"
    } else {
        "9"
    }
}

/// Writes a number in decimal notation.
pub fn decimal_text(n: i64) -> (r: String)
    ensures
        r@ == integer_text(n as int),
{
    let wide: i128 = n as i128;
    let magnitude: i128 = if wide < 0 {
        -wide
    } else {
        wide
    };
    let mut rest: i128 = magnitude;
    let mut digits: Vec<u8> = Vec::new();
    while rest >= 10
        invariant
            0 <= rest <= magnitude,
            natural_text(magnitude as nat) == natural_text(rest as nat) + digits_text(digits@),
            forall|j: int| 0 <= j < digits@.len() ==> digits@[j] < 10,
        decreases rest,
    {
        let d: u8 = (rest % 10) as u8;
        let ghost before = digits@;
        digits.push(d);
        assert(digits@.drop_last() =~= before);
        assert(natural_text((rest / 10) as nat) + digits_text(digits@) =~= natural_text(rest as nat)
            + digits_text(before));
        rest = rest / 10;
    }
    let mut out = if wide < 0 {
        String::from_str("-")
    } else {
        String::new()
    };
    out.append(digit_str(rest as u8));
    let mut i: usize = digits.len();
    assert(digits@.subrange(0, i as int) =~= digits@);
    while i > 0
        invariant
            i <= digits@.len(),
            forall|j: int| 0 <= j < digits@.len() ==> digits@[j] < 10,
            out@ + digits_text(digits@.subrange(0, i as int)) == integer_text(n as int),
        decreases i,
    {
        let ghost upto = digits@.subrange(0, i as int);
        i -= 1;
        assert(upto.drop_last() =~= digits@.subrange(0, i as int));
        assert(upto.last() == digits@[i as int]);
        let ghost before = out@;
        out.append(digit_str(digits[i]));
        assert(out@ + digits_text(digits@.subrange(0, i as int)) =~= before + digits_text(upto));
    }
    assert(digits_text(digits@.subrange(0, 0)) =~= Seq::<char>::empty());
    assert(out@ + Seq::<char>::empty() =~= out@);
    out
}

} // verus!
