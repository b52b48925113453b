use vstd::prelude::*;
use vstd::utf8::{encode_utf8, valid_utf8};

verus! {

/// Relies on String::from_utf8: it succeeds exactly on valid UTF-8 input and
/// returns the string whose character encoding is that input.
#[verifier::external_body]
pub(crate) fn bytes_to_string(v: Vec<u8>) -> (r: Option<String>)
    ensures
        r is Some <==> valid_utf8(v@),
        r is Some ==> encode_utf8(r.unwrap()@) == v@,
{
    String::from_utf8(v).ok()
}

/// The decimal spelling of a number: most significant digit first, no
/// leading zeros (a single `0` for zero).
pub open spec fn dec_str_of(n: nat) -> Seq<char>
    decreases n,
{
    if n < 10 {
        seq![crate::hexcodec::hex_char(n as u8)]
    } else {
        dec_str_of(n / 10) + seq![crate::hexcodec::hex_char((n % 10) as u8)]
    }
}

/// Relies on u128's Display implementation: it writes the number's decimal
/// digits, most significant first and without leading zeros.
#[verifier::external_body]
pub(crate) fn u128_to_decimal(n: u128) -> (r: String)
    ensures
        r@ == dec_str_of(n as nat),
{
    format!("{}", n)
}

/// The UTF-8 bytes of a string, as a fresh vector.
pub fn string_to_bytes(s: &str) -> (r: Vec<u8>)
    ensures
        r@ == encode_utf8(s@),
{
    vstd::slice::slice_to_vec(s.as_bytes())
}

} // verus!
