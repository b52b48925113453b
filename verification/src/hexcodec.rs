use vstd::prelude::*;

verus! {

/// A hexadecimal digit, either case.
pub open spec fn is_hex_digit(c: char) -> bool {
    (48 <= c as u32 && c as u32 <= 57)  // '0'..'9'
    || (97 <= c as u32 && c as u32 <= 102)  // 'a'..'f'
    || (65 <= c as u32 && c as u32 <= 70)  // 'A'..'F'
}

/// A lowercase hexadecimal digit.
pub open spec fn is_lower_hex_digit(c: char) -> bool {
    (48 <= c as u32 && c as u32 <= 57) || (97 <= c as u32 && c as u32 <= 102)
}

/// The value of a hexadecimal digit.
pub open spec fn hex_val(c: char) -> u8 {
    if 48 <= c as u32 && c as u32 <= 57 {
        (c as u32 - 48) as u8
    } else if 97 <= c as u32 && c as u32 <= 102 {
        (c as u32 - 87) as u8
    } else if 65 <= c as u32 && c as u32 <= 70 {
        (c as u32 - 55) as u8
    } else {
        0
    }
}

/// The lowercase digit of a value below 16.
pub open spec fn hex_char(v: u8) -> char {
    if v == 0 { '0' } else if v == 1 { '1' } else if v == 2 { '2' } else if v == 3 { '3' }
    else if v == 4 { '4' } else if v == 5 { '5' } else if v == 6 { '6' } else if v == 7 { '7' }
    else if v == 8 { '8' } else if v == 9 { '9' } else if v == 10 { 'a' } else if v == 11 { 'b' }
    else if v == 12 { 'c' } else if v == 13 { 'd' } else if v == 14 { 'e' } else { 'f' }
}

/// An even-length string of hexadecimal digits: what `hex` decodes.
pub open spec fn is_hex_string(s: Seq<char>) -> bool {
    &&& s.len() % 2 == 0
    &&& forall|i: int| 0 <= i < s.len() ==> is_hex_digit(#[trigger] s[i])
}

/// An even-length string of lowercase hexadecimal digits: what `hex` produces.
pub open spec fn is_lower_hex_string(s: Seq<char>) -> bool {
    &&& s.len() % 2 == 0
    &&& forall|i: int| 0 <= i < s.len() ==> is_lower_hex_digit(#[trigger] s[i])
}

/// The bytes a string of hexadecimal digits spells, two digits per byte.
pub open spec fn hex_bytes(s: Seq<char>) -> Seq<u8> {
    Seq::new(s.len() / 2, |i: int| ((hex_val(s[2 * i]) as nat) * 16 + hex_val(s[2 * i + 1]) as nat) as u8)
}

/// The lowercase hexadecimal spelling of a byte string.
pub open spec fn hex_str_of(b: Seq<u8>) -> Seq<char> {
    Seq::new(
        2 * b.len(),
        |i: int| if i % 2 == 0 {
            hex_char(b[i / 2] / 16)
        } else {
            hex_char(b[i / 2] % 16)
        },
    )
}

/// Relies on hex::decode: it accepts exactly the even-length strings of
/// hexadecimal digits of either case (such a string is ASCII, so the crate's
/// view of it as bytes and the view here as characters agree), and each
/// output byte is its pair of digits.
#[verifier::external_body]
pub(crate) fn hex_decode(s: &str) -> (r: Option<Vec<u8>>)
    ensures
        r is Some <==> is_hex_string(s@),
        r is Some ==> r.unwrap()@ == hex_bytes(s@),
{
    hex::decode(s).ok()
}

/// Relies on hex::encode: two lowercase hexadecimal digits for each input
/// byte, most significant digit first.
#[verifier::external_body]
pub(crate) fn hex_encode(data: &Vec<u8>) -> (r: String)
    ensures
        r@ == hex_str_of(data@),
{
    hex::encode(data.as_slice())
}

/// A digit's value is below 16, and lowercase spelling inverts it.
proof fn lemma_hex_digit(c: char)
    requires
        is_hex_digit(c),
    ensures
        hex_val(c) < 16,
        is_lower_hex_digit(c) ==> hex_char(hex_val(c)) == c,
{
}

/// The spelling of a byte string is lowercase hexadecimal and spells those bytes.
pub proof fn lemma_hex_str_of_spells(b: Seq<u8>)
    ensures
        hex_str_of(b).len() == 2 * b.len(),
        is_lower_hex_string(hex_str_of(b)),
        hex_bytes(hex_str_of(b)) == b,
{
    let s = hex_str_of(b);
    assert forall|i: int| 0 <= i < s.len() implies is_lower_hex_digit(#[trigger] s[i]) by {
        let v = if i % 2 == 0 { b[i / 2] / 16 } else { b[i / 2] % 16 };
        assert(v < 16);
    };
    assert forall|i: int| 0 <= i < b.len() implies hex_bytes(s)[i] == b[i] by {
        assert(s[2 * i] == hex_char(b[i] / 16));
        assert(s[2 * i + 1] == hex_char(b[i] % 16));
        assert(hex_val(hex_char(b[i] / 16)) == b[i] / 16);
        assert(hex_val(hex_char(b[i] % 16)) == b[i] % 16);
    };
    assert(hex_bytes(s) =~= b);
}

/// Decoding then re-encoding a lowercase hexadecimal string gives it back.
pub proof fn lemma_lower_hex_roundtrip(s: Seq<char>)
    requires
        is_lower_hex_string(s),
    ensures
        hex_str_of(hex_bytes(s)) == s,
{
    let b = hex_bytes(s);
    assert forall|i: int| 0 <= i < s.len() implies hex_str_of(b)[i] == s[i] by {
        let j = i / 2;
        assert(b[j] == (hex_val(s[2 * j]) as nat) * 16 + hex_val(s[2 * j + 1]) as nat);
        lemma_hex_digit(s[2 * j]);
        lemma_hex_digit(s[2 * j + 1]);
        assert(b[j] / 16 == hex_val(s[2 * j]) && b[j] % 16 == hex_val(s[2 * j + 1])) by {
            vstd::arithmetic::div_mod::lemma_fundamental_div_mod_converse(
                b[j] as int,
                16,
                hex_val(s[2 * j]) as int,
                hex_val(s[2 * j + 1]) as int,
            );
        };
        if i % 2 == 0 {
            assert(i == 2 * j);
        } else {
            assert(i == 2 * j + 1);
        }
    };
    assert(hex_str_of(b) =~= s);
}

} // verus!
