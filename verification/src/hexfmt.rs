//! Digests as lowercase hexadecimal text.

use vstd::prelude::*;
use vstd::utf8::{encode_utf8, is_ascii_chars, is_ascii_chars_encode_utf8};
use crate::engine::Fract;
use crate::sponge::{hash256, hash512};

verus! {

/// The lowercase hexadecimal digit for a value from 0 to 15.
pub open spec fn hex_digit(n: int) -> char
    recommends
        0 <= n < 16,
{
    seq!['0', '1', '2', '3', '4', '5', '6', '7', '8', '9', 'a', 'b', 'c', 'd', 'e', 'f'][n]
}

/// The hexadecimal text of a byte sequence: two lowercase digits for each
/// byte, the high half first.
pub open spec fn hex_string(bytes: Seq<u8>) -> Seq<char> {
    Seq::new(
        2 * bytes.len(),
        |i: int|
            if i % 2 == 0 {
                hex_digit(bytes[i / 2] as int / 16)
            } else {
                hex_digit(bytes[i / 2] as int % 16)
            },
    )
}

/// Hexadecimal text is twice as long as the bytes it shows and holds ASCII
/// characters only, so it takes one byte per character in UTF-8.
pub proof fn lemma_hex_string_ascii(bytes: Seq<u8>)
    ensures
        hex_string(bytes).len() == 2 * bytes.len(),
        is_ascii_chars(hex_string(bytes)),
        encode_utf8(hex_string(bytes)).len() == 2 * bytes.len(),
{
    let text = hex_string(bytes);
    assert forall|i: int| 0 <= i < text.len() implies '\0' <= #[trigger] text[i] <= '\u{7f}' by {
        let byte = bytes[i / 2];
        let digit: int = if i % 2 == 0 {
            byte as int / 16
        } else {
            byte as int % 16
        };
        assert(0 <= digit < 16);
        assert(text[i] == hex_digit(digit));
    }
    is_ascii_chars_encode_utf8(text);
}

/// Calls `hex::encode` of the `hex` crate, which is not verified here.
///
/// The contract says what that function's source shows: it walks the bytes
/// in order and writes for each one the digit of its upper four bits and
/// then the digit of its lower four bits, taken from `0123456789abcdef`.
#[verifier::external_body]
fn encode_hex(bytes: &[u8]) -> (text: String)
    ensures
        text@ == hex_string(bytes@),
{
    hex::encode(bytes)
}

/// The digest of `data` in hexadecimal: of the 512-bit digest where `long`
/// is set, of the 256-bit digest where it is not.
pub open spec fn digest_text(long: bool, data: Seq<u8>) -> Seq<char> {
    if long {
        hex_string(hash512(data))
    } else {
        hex_string(hash256(data))
    }
}

/// Hashes `data` and returns the digest in hexadecimal, 512 bits wide
/// where `use_512` is set and 256 bits wide where it is not.
pub fn hex_digest(data: &[u8], use_512: bool) -> (text: String)
    ensures
        text@ == digest_text(use_512, data@),
{
    if use_512 {
        hash512_to_hex(data)
    } else {
        hash_to_hex(data)
    }
}

/// Hashes `data` to 256 bits and returns the digest as 64 hexadecimal digits.
pub fn hash_to_hex(data: &[u8]) -> (text: String)
    ensures
        text@ == hex_string(hash256(data@)),
{
    let digest: [u8; 32] = Fract::hash(data);
    encode_hex(digest.as_slice())
}

/// Hashes `data` to 512 bits and returns the digest as 128 hexadecimal digits.
pub fn hash512_to_hex(data: &[u8]) -> (text: String)
    ensures
        text@ == hex_string(hash512(data@)),
{
    let digest: [u8; 64] = Fract::hash512(data);
    encode_hex(digest.as_slice())
}

} // verus!
