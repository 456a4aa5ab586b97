//! Lowercase hex encoding of bytes and its inverse, as used for key
//! identifiers and fixture side-car files.

use vstd::prelude::*;

verus! {

/// The lowercase hex digit for a nibble.
pub open spec fn hex_digit(n: u8) -> char
    recommends
        n < 16,
{
    if n < 10 {
        ((48 + n) as u8) as char
    } else {
        ((87 + n) as u8) as char
    }
}

/// The lowercase hex encoding of bytes: two digits per byte, high nibble
/// first.
pub open spec fn spec_hex_encode(b: Seq<u8>) -> Seq<char> {
    Seq::new(
        b.len() * 2,
        |i: int| if i % 2 == 0 {
            hex_digit(b[i / 2] / 16)
        } else {
            hex_digit(b[i / 2] % 16)
        },
    )
}

/// Whether a byte is the ASCII code of a hex digit, in either case.
pub open spec fn is_hex_digit_byte(b: u8) -> bool {
    (48 <= b && b <= 57) || (97 <= b && b <= 102) || (65 <= b && b <= 70)
}

/// The nibble value of the ASCII code of a hex digit.
pub open spec fn hex_val_byte(b: u8) -> u8
    recommends
        is_hex_digit_byte(b),
{
    if 48 <= b && b <= 57 {
        (b - 48) as u8
    } else if 97 <= b && b <= 102 {
        (b - 87) as u8
    } else if 65 <= b && b <= 70 {
        (b - 55) as u8
    } else {
        0
    }
}

/// Whether a byte string is well-formed hex text: even length, hex digits
/// only.
pub open spec fn is_hex_text(s: Seq<u8>) -> bool {
    s.len() % 2 == 0 && forall|i: int| 0 <= i < s.len() ==> is_hex_digit_byte(#[trigger] s[i])
}

/// The bytes denoted by well-formed hex text.
pub open spec fn spec_hex_decode(s: Seq<u8>) -> Seq<u8> {
    Seq::new(s.len() / 2, |i: int| (16 * hex_val_byte(s[2 * i]) + hex_val_byte(s[2 * i + 1])) as u8)
}

/// Relies on `hex::encode` (hex crate): encodes bytes as lowercase hex, two
/// digits per byte, high nibble first.
#[verifier::external_body]
pub(crate) fn hex_encode(data: &[u8]) -> (r: String)
    ensures
        r@ == spec_hex_encode(data@),
{
    hex::encode(data)
}

/// Relies on `hex::decode` (hex crate): decodes hex text, accepting both
/// cases, and fails exactly on odd length or a non-hex byte.
#[verifier::external_body]
pub(crate) fn hex_decode(data: &[u8]) -> (r: Option<Vec<u8>>)
    ensures
        r is Some <==> is_hex_text(data@),
        r matches Some(b) ==> b@ == spec_hex_decode(data@),
{
    match hex::decode(data) {
        Ok(b) => Some(b),
        Err(_) => None,
    }
}

/// Every character of a hex encoding is an ASCII hex digit.
pub proof fn lemma_hex_encode_ascii(b: Seq<u8>)
    ensures
        forall|i: int|
            0 <= i < spec_hex_encode(b).len() ==> is_hex_digit_byte(
                #[trigger] spec_hex_encode(b)[i] as u8,
            ),
{
    assert forall|i: int| 0 <= i < spec_hex_encode(b).len() implies is_hex_digit_byte(
        spec_hex_encode(b)[i] as u8,
    ) by {
        let n = if i % 2 == 0 {
            b[i / 2] / 16
        } else {
            b[i / 2] % 16
        };
        assert(n < 16);
        assert(spec_hex_encode(b)[i] == hex_digit(n));
    }
}

/// Decoding a hex encoding, read back as bytes, gives the original bytes.
pub proof fn lemma_hex_round_trip(b: Seq<u8>)
    ensures
        is_hex_text(spec_hex_encode(b).map_values(|c: char| c as u8)),
        spec_hex_decode(spec_hex_encode(b).map_values(|c: char| c as u8)) == b,
{
    let text = spec_hex_encode(b).map_values(|c: char| c as u8);
    lemma_hex_encode_ascii(b);
    assert(text.len() == 2 * b.len());
    assert forall|i: int| 0 <= i < text.len() implies is_hex_digit_byte(#[trigger] text[i]) by {
        assert(text[i] == spec_hex_encode(b)[i] as u8);
    }
    assert forall|i: int| 0 <= i < b.len() implies spec_hex_decode(text)[i] == b[i] by {
        assert(text[2 * i] == hex_digit(b[i] / 16) as u8);
        assert(text[2 * i + 1] == hex_digit(b[i] % 16) as u8);
        assert(hex_val_byte(hex_digit(b[i] / 16) as u8) == b[i] / 16);
        assert(hex_val_byte(hex_digit(b[i] % 16) as u8) == b[i] % 16);
    }
    assert(spec_hex_decode(text) =~= b);
}

} // verus!
