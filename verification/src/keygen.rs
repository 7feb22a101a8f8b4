//! Key material: thirty-two random bytes written as lowercase hexadecimal.

use rand::Rng;
use vstd::prelude::*;

verus! {

/// Number of random bytes behind one key.
pub const KEY_BYTES: usize = 32;

/// The lowercase hexadecimal digit for a value below sixteen.
pub open spec fn hex_digit(n: int) -> char {
    seq!['0', '1', '2', '3', '4', '5', '6', '7', '8', '9', 'a', 'b', 'c', 'd', 'e', 'f'][n]
}

/// Two lowercase hexadecimal digits for each byte, the high half first.
pub open spec fn hex_text(bytes: Seq<u8>) -> Seq<char> {
    Seq::new(
        2 * bytes.len(),
        |i: int|
            if i % 2 == 0 {
                hex_digit(bytes[i / 2] as int / 16)
            } else {
                hex_digit(bytes[i / 2] as int % 16)
            },
    )
}

/// Whether `c` is one of `0`..`9`, `a`..`f`.
pub open spec fn is_hex_char(c: char) -> bool {
    exists|n: int| 0 <= n < 16 && c == #[trigger] hex_digit(n)
}

/// Whether `text` has the shape of a key that this library generates:
/// sixty-four lowercase hexadecimal digits.
pub open spec fn is_key_text(text: Seq<char>) -> bool {
    &&& text.len() == 2 * KEY_BYTES
    &&& forall|i: int| 0 <= i < text.len() ==> is_hex_char(#[trigger] text[i])
}

/// `rand::rng().fill(..)`: overwrites the buffer with bytes from the
/// thread-local generator. Nothing is claimed of the bytes.
#[verifier::external_body]
fn fill_random(buffer: &mut [u8; 32]) {
    rand::rng().fill(buffer)
}

/// `hex::encode`: each byte becomes two characters of
/// `0123456789abcdef`, the high four bits first, in the order of the bytes.
#[verifier::external_body]
fn hex_encode(bytes: &[u8; 32]) -> (text: String)
    ensures
        text@ == hex_text(bytes@),
{
    hex::encode(bytes)
}

/// Every hexadecimal rendering uses hexadecimal digits only, two per byte.
pub proof fn lemma_hex_text_shape(bytes: Seq<u8>)
    ensures
        hex_text(bytes).len() == 2 * bytes.len(),
        forall|i: int|
            0 <= i < hex_text(bytes).len() ==> is_hex_char(#[trigger] hex_text(bytes)[i]),
{
    assert forall|i: int| 0 <= i < hex_text(bytes).len() implies is_hex_char(
        #[trigger] hex_text(bytes)[i],
    ) by {
        let b = bytes[i / 2] as int;
        if i % 2 == 0 {
            assert(hex_text(bytes)[i] == hex_digit(b / 16));
        } else {
            assert(hex_text(bytes)[i] == hex_digit(b % 16));
        }
    }
}

/// The key that thirty-two bytes stand for: the bytes in hexadecimal.
pub fn key_text(bytes: &[u8; 32]) -> (key: String)
    ensures
        key@ == hex_text(bytes@),
        is_key_text(key@),
{
    let key = hex_encode(bytes);
    proof {
        lemma_hex_text_shape(bytes@);
    }
    key
}

/// Draws a fresh key: thirty-two bytes from the random source, in
/// hexadecimal. Which key comes back is not determined; its shape is.
pub fn generate_key() -> (key: String)
    ensures
        is_key_text(key@),
{
    let mut bytes = [0u8; 32];
    fill_random(&mut bytes);
    key_text(&bytes)
}

} // verus!
