//! Small string helpers: ASCII bytes to `String`, and decimal rendering of
//! integers for error messages.
use vstd::prelude::*;

verus! {

/// The decimal digits of `n`, most significant first, no leading zeros.
pub open spec fn spec_dec_digits(n: nat) -> Seq<char>
    decreases n,
{
    if n < 10 {
        seq![((0x30 + n) as u8) as char]
    } else {
        spec_dec_digits(n / 10).push(((0x30 + n % 10) as u8) as char)
    }
}

/// Relies on `String::from_utf8`: on ASCII bytes it succeeds and yields the
/// string whose characters are those bytes.
#[verifier::external_body]
pub fn ascii_bytes_to_string(bytes: &Vec<u8>) -> (r: String)
    requires
        forall|i: int| 0 <= i < bytes@.len() ==> bytes@[i] < 0x80,
    ensures
        r@.len() == bytes@.len(),
        forall|i: int| 0 <= i < bytes@.len() ==> r@[i] == bytes@[i] as char,
{
    String::from_utf8(bytes.clone()).unwrap_or_default()
}

/// Relies on `core::fmt::Display` for `u64`: it renders the value as its
/// decimal digits without sign or leading zeros.
#[verifier::external_body]
pub fn u64_to_dec_string(n: u64) -> (r: String)
    ensures
        r@ == spec_dec_digits(n as nat),
{
    format!("{}", n)
}

} // verus!
