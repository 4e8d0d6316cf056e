//! Decimal rendering of stat magnitudes for the human-readable report.

use vstd::prelude::*;

verus! {

/// The digit character for one decimal digit value.
pub open spec fn digit_char(d: int) -> char {
    if d == 0 { '0' }
    else if d == 1 { '1' }
    else if d == 2 { '2' }
    else if d == 3 { '3' }
    else if d == 4 { '4' }
    else if d == 5 { '5' }
    else if d == 6 { '6' }
    else if d == 7 { '7' }
    else if d == 8 { '8' }
    else { '9' }
}

/// The decimal digit characters of a non-negative number, most significant
/// first, without leading zeros (zero itself is the single digit `0`).
pub open spec fn decimal_digits(n: int) -> Seq<char>
    recommends
        n >= 0,
    decreases n,
{
    if n < 10 {
        seq![digit_char(n)]
    } else {
        decimal_digits(n / 10).push(digit_char(n % 10))
    }
}

/// Relies on core::fmt through `format!`: the decimal rendering of a `u32`
/// is its digits, most significant first, without leading zeros.
#[verifier::external_body]
pub fn u32_to_string(v: u32) -> (r: String)
    ensures
        r@ == decimal_digits(v as int),
{
    format!("{}", v)
}

} // verus!
