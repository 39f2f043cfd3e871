//! Numbers as text, and text as numbers.

use crate::types::Text;
use std::string::String;
use vstd::prelude::*;
use vstd::string::StringExecFns;

verus! {

/// The character for a digit.
pub open spec fn digit(d: nat) -> char {
    if d == 0 {
        '0'
    } else if d == 1 {
        '1'
    } else if d == 2 {
        '2'
    } else if d == 3 {
        '3'
    } else if d == 4 {
        '4'
    } else if d == 5 {
        '5'
    } else if d == 6 {
        '6'
    } else if d == 7 {
        '7'
    } else if d == 8 {
        '8'
    } else {
        '9'
    }
}

/// The number in decimal notation.
pub open spec fn decimal(n: nat) -> Text
    decreases n,
{
    if n < 10 {
        seq![digit(n)]
    } else {
        decimal(n / 10).push(digit(n % 10))
    }
}

/// The digit as text.
fn digit_text(d: usize) -> (r: &'static str)
    requires
        d < 10,
    ensures
        r@ == seq![digit(d as nat)],
{
    proof {
        reveal_strlit("0");
        reveal_strlit("1");
        reveal_strlit("2");
        reveal_strlit("3");
        reveal_strlit("4");
        reveal_strlit("5");
        reveal_strlit("6");
        reveal_strlit("7");
        reveal_strlit("8");
        reveal_strlit("9");
    }
    let r = if d == 0 {
        "0"
    } else if d == 1 {
        "1"
    } else if d == 2 {
        "2"
    } else if d == 3 {
        "3"
    } else if d == 4 {
        "4"
    } else if d == 5 {
        "5"
    } else if d == 6 {
        "6"
    } else if d == 7 {
        "7"
    } else if d == 8 {
        "8"
    } else {
        "9"
    };
    r
}

/// The number in decimal notation.
pub fn decimal_text(n: usize) -> (r: String)
    ensures
        r@ == decimal(n as nat),
    decreases n,
{
    if n < 10 {
        digit_text(n).to_owned()
    } else {
        let mut s = decimal_text(n / 10);
        s.append(digit_text(n % 10));
        s
    }
}

/// The texts one after the other.
pub fn join3(a: &str, b: &str, c: &str) -> (r: String)
    ensures
        r@ == a@ + b@ + c@,
{
    let mut s = String::from_str(a);
    s.append(b);
    s.append(c);
    s
}

/// The error with which `str::parse` of the standard library refuses a text
/// that does not stand for a number. Nothing is said of what it holds.
#[verifier::external_type_specification]
#[verifier::external_body]
pub struct ExParseIntError(core::num::ParseIntError);

/// The number that the text stands for, if it stands for one.
pub uninterp spec fn parsed_number(text: Seq<char>) -> Option<usize>;

/// Reads the text as a number with `str::parse` of the standard library. The
/// claim is that what `parse::<usize>` finds depends on the text alone: the
/// number is the one that the text stands for, and an error says that it
/// stands for none.
#[verifier::external_body]
pub(crate) fn parse_number(text: &str) -> (r: Result<usize, core::num::ParseIntError>)
    ensures
        r is Ok ==> parsed_number(text@) == Some(r->Ok_0),
        r is Err ==> parsed_number(text@) is None,
{
    text.parse::<usize>()
}

/// The number that the text stands for, if it stands for one.
pub fn number(text: &str) -> (r: Option<usize>)
    ensures
        r == parsed_number(text@),
{
    match parse_number(text) {
        Ok(n) => Some(n),
        Err(_) => None,
    }
}

} // verus!
