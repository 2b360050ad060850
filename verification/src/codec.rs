//! Hex decoding and comparisons of byte strings and text.
use vstd::prelude::*;
use vstd::utf8::{encode_utf8, encode_utf8_decode_utf8};
use crate::error::HexError;

verus! {

/// The value of a hex digit byte (`0-9`, `a-f`, `A-F`).
pub open spec fn hex_digit(c: u8) -> Option<u8> {
    if 48 <= c <= 57 {
        Some((c - 48) as u8)
    } else if 97 <= c <= 102 {
        Some((c - 87) as u8)
    } else if 65 <= c <= 70 {
        Some((c - 55) as u8)
    } else {
        None
    }
}

/// The index of the first byte at or after `from` that is not a hex digit.
pub open spec fn first_invalid_hex(data: Seq<u8>, from: int) -> Option<int>
    decreases data.len() - from,
{
    if from < 0 || from >= data.len() {
        None
    } else if hex_digit(data[from]) is None {
        Some(from)
    } else {
        first_invalid_hex(data, from + 1)
    }
}

/// The bytes that a string of hex digits stands for, two digits per byte, the high
/// nibble first.
pub open spec fn hex_bytes(data: Seq<u8>) -> Seq<u8> {
    Seq::new(
        data.len() / 2,
        |k: int| (hex_digit(data[2 * k]).unwrap() * 16 + hex_digit(data[2 * k + 1]).unwrap()) as u8,
    )
}

/// Hex decoding: an odd length is refused first, then the first byte that is not a
/// hex digit, with its index; otherwise the decoded bytes.
pub open spec fn hex_decode_spec(data: Seq<u8>) -> Result<Seq<u8>, HexError> {
    if data.len() % 2 != 0 {
        Err(HexError::OddLength)
    } else {
        match first_invalid_hex(data, 0) {
            Some(i) => Err(HexError::InvalidHexCharacter { c: data[i] as char, index: i as usize }),
            None => Ok(hex_bytes(data)),
        }
    }
}

/// A decoding outcome with its bytes taken as a sequence.
pub open spec fn decoded_view(r: Result<Vec<u8>, HexError>) -> Result<Seq<u8>, HexError> {
    match r {
        Ok(v) => Ok(v@),
        Err(e) => Err(e),
    }
}

/// Decodes a hex string with `hex::decode` (hex 0.4).
/// Claimed of the outside code: an odd length fails with `OddLength`; otherwise the
/// first byte (in order) that is not a hex digit fails with `InvalidHexCharacter`,
/// holding that byte as a char and its index; otherwise each pair of digits gives
/// one byte, high nibble first. The error is converted variant by variant.
#[verifier::external_body]
pub(crate) fn hex_decode(data: &[u8]) -> (r: Result<Vec<u8>, HexError>)
    ensures
        decoded_view(r) == hex_decode_spec(data@),
{
    match ::hex::decode(data) {
        Ok(v) => Ok(v),
        Err(::hex::FromHexError::InvalidHexCharacter { c, index }) => Err(
            HexError::InvalidHexCharacter { c, index },
        ),
        Err(::hex::FromHexError::OddLength) => Err(HexError::OddLength),
        Err(::hex::FromHexError::InvalidStringLength) => Err(HexError::InvalidStringLength),
    }
}

/// The texts of a sequence of strings.
pub open spec fn texts(s: Seq<String>) -> Seq<Seq<char>> {
    s.map_values(|x: String| x@)
}

/// Whether two byte strings are equal.
pub fn bytes_eq(a: &[u8], b: &[u8]) -> (r: bool)
    ensures
        r == (a@ == b@),
{
    if a.len() != b.len() {
        return false;
    }
    let mut i: usize = 0;
    while i < a.len()
        invariant
            a@.len() == b@.len(),
            i <= a@.len(),
            forall|k: int| 0 <= k < i ==> a@[k] == b@[k],
        decreases a@.len() - i,
    {
        if a[i] != b[i] {
            return false;
        }
        i = i + 1;
    }
    assert(a@ =~= b@);
    true
}

/// Whether two texts are equal.
pub fn str_eq(a: &str, b: &str) -> (r: bool)
    ensures
        r == (a@ == b@),
{
    let x = a.as_bytes();
    let y = b.as_bytes();
    let same = bytes_eq(x, y);
    proof {
        encode_utf8_decode_utf8(a@);
        encode_utf8_decode_utf8(b@);
    }
    same
}

} // verus!
