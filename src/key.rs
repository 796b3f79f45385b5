use vstd::prelude::*;

use rand::Rng;

use crate::error::CryptError;

verus! {

/// A hexadecimal digit, in either case.
pub open spec fn is_hex_digit(c: char) -> bool {
    ('0' <= c && c <= '9') || ('a' <= c && c <= 'f') || ('A' <= c && c <= 'F')
}

/// The value of a hexadecimal digit.
pub open spec fn hex_digit_value(c: char) -> int {
    if '0' <= c && c <= '9' {
        c as int - '0' as int
    } else if 'a' <= c && c <= 'f' {
        c as int - 'a' as int + 10
    } else {
        c as int - 'A' as int + 10
    }
}

/// Text that decodes to bytes: an even number of hexadecimal digits.
pub open spec fn is_hex_text(s: Seq<char>) -> bool {
    s.len() % 2 == 0 && forall|i: int| 0 <= i < s.len() ==> is_hex_digit(#[trigger] s[i])
}

/// The bytes that hexadecimal text stands for: one per pair of digits, high digit first.
pub open spec fn hex_decoded(s: Seq<char>) -> Seq<u8> {
    Seq::new(
        s.len() / 2,
        |i: int| (hex_digit_value(s[2 * i]) * 16 + hex_digit_value(s[2 * i + 1])) as u8,
    )
}

/// The lowercase digit for a value below sixteen.
pub open spec fn lower_hex_digit(v: int) -> char {
    if v < 10 {
        (v + '0' as int) as char
    } else {
        (v - 10 + 'a' as int) as char
    }
}

/// Bytes written as lowercase hexadecimal text, two digits per byte, high digit first.
pub open spec fn hex_encoded(b: Seq<u8>) -> Seq<char> {
    Seq::new(
        2 * b.len(),
        |i: int|
            if i % 2 == 0 {
                lower_hex_digit(b[i / 2] as int / 16)
            } else {
                lower_hex_digit(b[i / 2] as int % 16)
            },
    )
}

/// Text that is a valid key: exactly 64 hexadecimal digits.
pub open spec fn is_key_text(s: Seq<char>) -> bool {
    s.len() == 64 && is_hex_text(s)
}

#[verifier::external_type_specification]
#[verifier::external_body]
pub struct ExFromHexError(hex::FromHexError);

/// Relies on hex::decode: text of even length made of hexadecimal digits (either
/// case) decodes to one byte per pair, high digit first; any other text is an error.
#[verifier::external_body]
fn decode_hex(s: &str) -> (r: Result<Vec<u8>, hex::FromHexError>)
    ensures
        r is Ok <==> is_hex_text(s@),
        r matches Ok(v) ==> v@ == hex_decoded(s@),
{
    hex::decode(s)
}

/// Relies on hex::encode: two lowercase digits per byte, high digit first.
#[verifier::external_body]
fn encode_hex(b: &[u8; 32]) -> (r: String)
    ensures
        r@ == hex_encoded(b@),
{
    hex::encode(b)
}

/// Relies on rand::thread_rng and Rng::fill: 32 bytes drawn from the thread's
/// cryptographically secure generator. Nothing is promised of their values.
#[verifier::external_body]
pub(crate) fn random_key() -> (r: [u8; 32]) {
    let mut raw = [0u8; 32];
    rand::thread_rng().fill(&mut raw);
    raw
}

/// Parses a key written as 64 hexadecimal digits (either case).
pub fn hex_to_key(s: &str) -> (r: Result<[u8; 32], CryptError>)
    ensures
        r is Ok <==> is_key_text(s@),
        r matches Ok(k) ==> k@ == hex_decoded(s@),
        r matches Err(e) ==> e == CryptError::InvalidKey,
{
    match decode_hex(s) {
        Ok(bytes) => {
            if bytes.len() != 32 {
                return Err(CryptError::InvalidKey);
            }
            let mut key: [u8; 32] = [0u8; 32];
            let mut i: usize = 0;
            while i < 32
                invariant
                    bytes@.len() == 32,
                    0 <= i <= 32,
                    forall|j: int| 0 <= j < i ==> key@[j] == bytes@[j],
                decreases 32 - i,
            {
                key[i] = bytes[i];
                i = i + 1;
            }
            assert(key@ =~= bytes@);
            Ok(key)
        },
        Err(_) => Err(CryptError::InvalidKey),
    }
}

/// Writes a key as 64 lowercase hexadecimal digits.
pub fn key_to_hex(key: &[u8; 32]) -> (r: String)
    ensures
        r@ == hex_encoded(key@),
        is_key_text(r@),
        hex_decoded(r@) == key@,
{
    proof {
        lemma_hex_round_trip(key@);
    }
    encode_hex(key)
}

proof fn lemma_lower_hex_digit(v: int)
    requires
        0 <= v < 16,
    ensures
        is_hex_digit(lower_hex_digit(v)),
        hex_digit_value(lower_hex_digit(v)) == v,
{
}

/// Hexadecimal text written from bytes decodes to those bytes again.
pub proof fn lemma_hex_round_trip(b: Seq<u8>)
    ensures
        is_hex_text(hex_encoded(b)),
        hex_decoded(hex_encoded(b)) == b,
{
    let s = hex_encoded(b);
    assert forall|i: int| 0 <= i < s.len() implies is_hex_digit(#[trigger] s[i]) by {
        lemma_lower_hex_digit(b[i / 2] as int / 16);
        lemma_lower_hex_digit(b[i / 2] as int % 16);
    }
    assert forall|i: int| 0 <= i < b.len() implies #[trigger] hex_decoded(s)[i] == b[i] by {
        assert(s[2 * i] == lower_hex_digit(b[i] as int / 16));
        assert(s[2 * i + 1] == lower_hex_digit(b[i] as int % 16));
        lemma_lower_hex_digit(b[i] as int / 16);
        lemma_lower_hex_digit(b[i] as int % 16);
    }
    assert(hex_decoded(s) =~= b);
}

} // verus!
