//! Hexadecimal text and the bytes it stands for.

use vstd::prelude::*;
use crate::error::{BdlError, BdlErrorView};
use crate::text::is_hex_digit;

verus! {

/// The lower-case hexadecimal digit for a value from 0 to 15.
pub open spec fn lower_hex_digit(n: int) -> char {
    if 0 <= n && n < 10 {
        (0x30 + n) as char
    } else {
        (0x57 + n) as char
    }
}

/// The value from 0 to 15 that a hexadecimal digit stands for.
pub open spec fn hex_value(c: char) -> int {
    if '0' <= c && c <= '9' {
        c as int - 0x30
    } else if 'a' <= c && c <= 'f' {
        c as int - 0x57
    } else {
        c as int - 0x37
    }
}

/// The text that writes each byte as two lower-case hexadecimal digits,
/// the high half first.
pub open spec fn hex_lower(bytes: Seq<u8>) -> Seq<char> {
    Seq::new(
        2 * bytes.len(),
        |i: int|
            lower_hex_digit(
                if i % 2 == 0 {
                    bytes[i / 2] as int / 16
                } else {
                    bytes[i / 2] as int % 16
                },
            ),
    )
}

/// An even number of characters, each a hexadecimal digit.
pub open spec fn is_hex_text(s: Seq<char>) -> bool {
    s.len() % 2 == 0 && forall|i: int| 0 <= i < s.len() ==> is_hex_digit(#[trigger] s[i])
}

/// The bytes that pairs of hexadecimal digits stand for, the high half
/// first.
pub open spec fn bytes_of_hex(digits: Seq<char>) -> Seq<u8> {
    Seq::new(
        digits.len() / 2,
        |i: int| (16 * hex_value(digits[2 * i]) + hex_value(digits[2 * i + 1])) as u8,
    )
}

/// What `hex::decode` reports of a text that it does not decode.
pub uninterp spec fn hex_decode_error_text(text: Seq<char>) -> Seq<char>;

/// `hex::encode`: two lower-case digits for each byte, the high half first.
#[verifier::external_body]
pub(crate) fn hex_encode(bytes: &[u8]) -> (r: String)
    ensures
        r@ == hex_lower(bytes@),
{
    hex::encode(bytes)
}

/// `hex::decode`: it decodes a text of an even number of hexadecimal
/// digits, of either case, pair by pair, and fails on every other text
/// (the crate reads bytes, and no byte of a character outside ASCII is a
/// digit). The error is handed on as the text that the crate renders it to.
#[verifier::external_body]
pub(crate) fn hex_decode(text: &str) -> (out: Result<Vec<u8>, String>)
    ensures
        match out {
            Ok(bytes) => is_hex_text(text@) && bytes@ == bytes_of_hex(text@),
            Err(detail) => !is_hex_text(text@) && detail@ == hex_decode_error_text(text@),
        },
{
    hex::decode(text).map_err(|e| e.to_string())
}

/// What decoding a text of hexadecimal digits gives.
pub open spec fn decoded_hex(digits: Seq<char>) -> Result<Seq<u8>, BdlErrorView> {
    if digits.len() % 2 != 0 {
        Err(BdlErrorView::OddLengthHex)
    } else if !is_hex_text(digits) {
        Err(BdlErrorView::HexDecodeError { detail: hex_decode_error_text(digits) })
    } else {
        Ok(bytes_of_hex(digits))
    }
}

/// The view of what a decoder returns.
pub open spec fn bytes_result_view(r: Result<Vec<u8>, BdlError>) -> Result<Seq<u8>, BdlErrorView> {
    match r {
        Ok(v) => Ok(v@),
        Err(e) => Err(e@),
    }
}

/// Decodes hexadecimal text into bytes: an odd number of characters is
/// refused first, then a character that is no digit.
pub fn decode_hex_digits(digits: &str) -> (r: Result<Vec<u8>, BdlError>)
    ensures
        bytes_result_view(r) == decoded_hex(digits@),
{
    if digits.unicode_len() % 2 != 0 {
        return Err(BdlError::OddLengthHex);
    }
    match hex_decode(digits) {
        Ok(bytes) => Ok(bytes),
        Err(detail) => Err(BdlError::HexDecodeError { detail }),
    }
}

/// Writing bytes as hexadecimal text and reading that text back gives the
/// bytes again.
pub proof fn lemma_hex_round_trip(bytes: Seq<u8>)
    ensures
        is_hex_text(hex_lower(bytes)),
        bytes_of_hex(hex_lower(bytes)) == bytes,
        decoded_hex(hex_lower(bytes)) == Ok::<Seq<u8>, BdlErrorView>(bytes),
{
    let h = hex_lower(bytes);
    assert forall|i: int| 0 <= i < h.len() implies is_hex_digit(#[trigger] h[i]) by {
        let b = bytes[i / 2] as int;
        assert(0 <= b / 16 < 16 && 0 <= b % 16 < 16);
    }
    assert forall|i: int| 0 <= i < bytes.len() implies #[trigger] bytes_of_hex(h)[i] == bytes[i] by {
        let b = bytes[i] as int;
        assert((2 * i) / 2 == i && (2 * i + 1) / 2 == i);
        assert((2 * i) % 2 == 0 && (2 * i + 1) % 2 == 1);
        assert(0 <= b / 16 < 16 && 0 <= b % 16 < 16);
        assert(hex_value(lower_hex_digit(b / 16)) == b / 16);
        assert(hex_value(lower_hex_digit(b % 16)) == b % 16);
        assert(16 * (b / 16) + b % 16 == b);
    }
    assert(bytes_of_hex(h) =~= bytes);
}

} // verus!
