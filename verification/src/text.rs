//! Small numbers as text.

use vstd::prelude::*;
use vstd::string::StringExecFns;

verus! {

/// The digit `d` as text, for `d` below ten.
pub open spec fn spec_digit(d: int) -> Seq<char> {
    if d == 0 {
        "0"@
    } else if d == 1 {
        "1"@
    } else if d == 2 {
        "2"@
    } else if d == 3 {
        "3"@
    } else if d == 4 {
        "4"@
    } else if d == 5 {
        "5"@
    } else if d == 6 {
        "6"@
    } else if d == 7 {
        "7"@
    } else if d == 8 {
        "8"@
    } else {
        "9"@
    }
}

/// The number `n` in decimal digits, without leading zeros.
pub open spec fn spec_decimal(n: u8) -> Seq<char> {
    if n >= 100 {
        spec_digit(n as int / 100) + spec_digit((n as int / 10) % 10) + spec_digit(n as int % 10)
    } else if n >= 10 {
        spec_digit(n as int / 10) + spec_digit(n as int % 10)
    } else {
        spec_digit(n as int)
    }
}

/// The digit `d` as text.
fn digit(d: u8) -> (r: &'static str)
    requires
        d < 10,
    ensures
        r@ == spec_digit(d as int),
{
    if d == 0 {
        "0"
    } else if d == 1 {
        "1"
    } else if d == 2 {
        "2"
    } else if d == 3 {
        "3"
    } else if d == 4 {
        "4"
    } else if d == 5 {
        "5"
    } else if d == 6 {
        "6"
    } else if d == 7 {
        "7"
    } else if d == 8 {
        "8"
    } else {
        "9"
    }
}

/// Writes `n` in decimal digits.
pub fn decimal(n: u8) -> (r: String)
    ensures
        r@ == spec_decimal(n),
{
    let mut r = String::new();
    if n >= 100 {
        r.append(digit(n / 100));
    }
    if n >= 10 {
        r.append(digit((n / 10) % 10));
    }
    r.append(digit(n % 10));
    assert(r@ =~= spec_decimal(n));
    r
}

/// What `str::parse::<u8>` of the standard library makes of a text: the
/// number it accepts the text as, if it accepts it.
pub uninterp spec fn str_parse_u8(s: Seq<char>) -> Option<u8>;

/// `str::parse::<u8>` of the standard library.
#[verifier::external_body]
pub(crate) fn parse_u8(s: &str) -> (r: Option<u8>)
    ensures
        r == str_parse_u8(s@),
{
    match s.parse::<u8>() {
        Ok(n) => Some(n),
        Err(_) => None,
    }
}

} // verus!
