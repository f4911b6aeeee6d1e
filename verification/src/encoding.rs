//! Hexadecimal text: what counts as hex, what it decodes to, and how a
//! 32-byte hash is written out.

use vstd::prelude::*;
use vstd::utf8::{encode_utf8, is_ascii_chars, is_ascii_chars_encode_utf8};

verus! {

/// Whether the byte is an ASCII hex digit, in either case.
pub open spec fn is_hex_digit(b: u8) -> bool {
    ||| 0x30 <= b <= 0x39
    ||| 0x41 <= b <= 0x46
    ||| 0x61 <= b <= 0x66
}

/// The value, 0 to 15, of an ASCII hex digit.
pub open spec fn hex_digit_value(b: u8) -> nat
    recommends
        is_hex_digit(b),
{
    if 0x30 <= b <= 0x39 {
        (b - 0x30) as nat
    } else if 0x41 <= b <= 0x46 {
        (b - 0x41 + 10) as nat
    } else {
        (b - 0x61 + 10) as nat
    }
}

/// Whether the bytes are hex text: an even number of hex digits.
pub open spec fn is_hex_text(text: Seq<u8>) -> bool {
    &&& text.len() % 2 == 0
    &&& forall|i: int| 0 <= i < text.len() ==> is_hex_digit(#[trigger] text[i])
}

/// The bytes that hex text stands for: each pair of digits gives one byte,
/// the first digit being the high half.
pub open spec fn hex_decoded(text: Seq<u8>) -> Seq<u8>
    recommends
        is_hex_text(text),
{
    Seq::new(
        text.len() / 2,
        |i: int| (16 * hex_digit_value(text[2 * i]) + hex_digit_value(text[2 * i + 1])) as u8,
    )
}

/// The lower-case hex digit for a value from 0 to 15.
pub open spec fn lower_hex_char(v: nat) -> char
    recommends
        v < 16,
{
    if v < 10 {
        (0x30 + v) as char
    } else {
        (0x61 + v - 10) as char
    }
}

/// The lower-case hex text of `bytes`, two digits per byte, high half first.
pub open spec fn lower_hex_text(bytes: Seq<u8>) -> Seq<char> {
    Seq::new(
        2 * bytes.len(),
        |i: int|
            lower_hex_char(
                if i % 2 == 0 {
                    (bytes[i / 2] / 16) as nat
                } else {
                    (bytes[i / 2] % 16) as nat
                },
            ),
    )
}

/// How a hash is written on a command line: `0x` and then all of its bytes
/// in lower-case hex.
pub open spec fn hash_text(hash: Seq<u8>) -> Seq<char> {
    seq!['0', 'x'] + lower_hex_text(hash)
}

/// `hex::FromHexError`, the error of `hex::decode`. It is passed through and
/// never looked into.
#[verifier::external_type_specification]
#[verifier::external_body]
pub struct ExFromHexError(hex::FromHexError);

/// Calls `hex::decode`. Trusted: the call succeeds exactly on an even number
/// of hex digits of either case, and then yields one byte per pair of digits,
/// the first digit being the high half.
#[verifier::external_body]
pub(crate) fn decode_hex(text: &[u8]) -> (decoded: Result<Vec<u8>, hex::FromHexError>)
    ensures
        decoded is Ok <==> is_hex_text(text@),
        decoded matches Ok(bytes) ==> bytes@ == hex_decoded(text@),
{
    hex::decode(text)
}

/// Formats the hash with the `Display` impl of `alloy_primitives::B256`.
/// Trusted: the text is `0x` followed by the 64 lower-case hex digits of the
/// 32 bytes.
#[verifier::external_body]
pub(crate) fn hash_string(hash: &[u8; 32]) -> (text: String)
    ensures
        text@ == hash_text(hash@),
{
    alloy_primitives::B256::from(*hash).to_string()
}

/// Lower-case hex text, taken as the bytes of a string, is hex text, and
/// decodes to the bytes that it was written from.
pub proof fn lemma_lower_hex_text_decodes(bytes: Seq<u8>)
    ensures
        encode_utf8(lower_hex_text(bytes)).len() == 2 * bytes.len(),
        is_hex_text(encode_utf8(lower_hex_text(bytes))),
        hex_decoded(encode_utf8(lower_hex_text(bytes))) == bytes,
{
    let chars = lower_hex_text(bytes);
    let text = encode_utf8(chars);
    assert forall|i: int| 0 <= i < chars.len() implies '\0' <= #[trigger] chars[i] <= '\u{7f}' by {
        lemma_lower_hex_char(chars, bytes, i);
    }
    assert(is_ascii_chars(chars));
    is_ascii_chars_encode_utf8(chars);
    assert forall|i: int| 0 <= i < text.len() implies is_hex_digit(#[trigger] text[i]) by {
        lemma_lower_hex_char(chars, bytes, i);
        assert(chars[i] as u8 == text[i]);
    }
    assert forall|i: int| 0 <= i < bytes.len() implies #[trigger] hex_decoded(text)[i]
        == bytes[i] by {
        lemma_lower_hex_char(chars, bytes, 2 * i);
        lemma_lower_hex_char(chars, bytes, 2 * i + 1);
        assert(chars[2 * i] as u8 == text[2 * i]);
        assert(chars[2 * i + 1] as u8 == text[2 * i + 1]);
    }
    assert(hex_decoded(text) =~= bytes);
}

/// The digit at `i` of the lower-case hex text of `bytes` is an ASCII hex
/// digit whose value is the half of the byte that it stands for.
proof fn lemma_lower_hex_char(chars: Seq<char>, bytes: Seq<u8>, i: int)
    requires
        chars == lower_hex_text(bytes),
        0 <= i < 2 * bytes.len(),
    ensures
        '\0' <= chars[i] <= '\u{7f}',
        is_hex_digit(chars[i] as u8),
        hex_digit_value(chars[i] as u8) == if i % 2 == 0 {
            (bytes[i / 2] / 16) as nat
        } else {
            (bytes[i / 2] % 16) as nat
        },
{
    let v: nat = if i % 2 == 0 {
        (bytes[i / 2] / 16) as nat
    } else {
        (bytes[i / 2] % 16) as nat
    };
    assert(v < 16);
    assert(chars[i] == lower_hex_char(v));
}

} // verus!
