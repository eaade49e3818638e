//! Decimal text of integers, as Rust's `Display` writes it.
use vstd::prelude::*;

verus! {

/// The ASCII digit for `d` (`0 <= d < 10`).
pub open spec fn digit_char(d: nat) -> char {
    ((48 + d) as u8) as char
}

/// The decimal digits of `n`, most significant first, without leading zeros ("0" for zero).
pub open spec fn digits(n: nat) -> Seq<char>
    decreases n,
{
    if n < 10 {
        seq![digit_char(n)]
    } else {
        digits(n / 10).push(digit_char(n % 10))
    }
}

/// The decimal text of `v`: its digits, after a `-` when it is negative.
pub open spec fn decimal(v: int) -> Seq<char> {
    if v < 0 {
        seq!['-'] + digits((-v) as nat)
    } else {
        digits(v as nat)
    }
}

/// Calls `i32::to_string`; std documents that integers display as their decimal digits,
/// after a `-` sign when negative.
#[verifier::external_body]
pub fn i32_to_string(v: i32) -> (s: String)
    ensures
        s@ == decimal(v as int),
{
    v.to_string()
}

/// Calls `usize::to_string`; std documents that integers display as their decimal digits.
#[verifier::external_body]
pub fn usize_to_string(v: usize) -> (s: String)
    ensures
        s@ == decimal(v as int),
{
    v.to_string()
}

} // verus!
