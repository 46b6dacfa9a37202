//! The content hash of a file: the BLAKE3 digest of its bytes, as text.

use vstd::prelude::*;

verus! {

/// The BLAKE3 digest of `data` in lower-case hexadecimal.
pub uninterp spec fn blake3_hex(data: Seq<u8>) -> Seq<char>;

/// A digit of lower-case hexadecimal.
pub open spec fn is_hex_digit(c: char) -> bool {
    ('0' <= c && c <= '9') || ('a' <= c && c <= 'f')
}

/// Calls `blake3::hash` and writes the digest out with `Hash::to_hex`.
/// Trusted: the text is a function of the bytes alone, and it is 64 digits
/// of lower-case hexadecimal, two for each of the digest's 32 bytes.
#[verifier::external_body]
fn digest_hex(data: &[u8]) -> (hex: String)
    ensures
        hex@ == blake3_hex(data@),
        hex@.len() == 64,
        forall|i: int| 0 <= i < hex@.len() ==> is_hex_digit(#[trigger] hex@[i]),
{
    blake3::hash(data).to_hex().to_string()
}

/// The content hash of a file that holds the bytes `data`: 64 digits of
/// lower-case hexadecimal.
pub fn calculate_file_hash(data: &[u8]) -> (hash: String)
    ensures
        hash@ == blake3_hex(data@),
        hash@.len() == 64,
        forall|i: int| 0 <= i < hash@.len() ==> is_hex_digit(#[trigger] hash@[i]),
{
    digest_hex(data)
}

} // verus!
