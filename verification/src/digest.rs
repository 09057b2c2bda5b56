//! SHA-256 digests in hexadecimal.

use crate::text;
use sha2::Digest;
use vstd::prelude::*;

verus! {

/// The SHA-256 digest of bytes, as `sha2` computes it.
pub uninterp spec fn sha256(bytes: Seq<u8>) -> Seq<u8>;

/// Calls `sha2::Sha256::digest`. The contract names the digest, as a function
/// of the bytes, and says that it has 32 bytes.
#[verifier::external_body]
fn sha256_digest(bytes: &[u8]) -> (r: Vec<u8>)
    ensures
        r@ == sha256(bytes@),
        r@.len() == 32,
{
    sha2::Sha256::digest(bytes).to_vec()
}

/// Calls `hex::encode`: two lower-case hexadecimal digits for each byte.
#[verifier::external_body]
fn hex_encode(bytes: &Vec<u8>) -> (r: String)
    ensures
        r@ == text::lower_hex(bytes@),
{
    hex::encode(bytes)
}

/// Whether a text has the form of a fingerprint: 64 lower-case hexadecimal digits.
pub open spec fn is_fingerprint(text: Seq<char>) -> bool {
    text.len() == 64 && text::is_lower_hex(text)
}

/// The SHA-256 digest of bytes in lower-case hexadecimal.
pub fn sha256_hex(bytes: &[u8]) -> (r: String)
    ensures
        r@ == text::lower_hex(sha256(bytes@)),
        is_fingerprint(r@),
{
    let digest = sha256_digest(bytes);
    proof {
        text::lemma_lower_hex(digest@);
    }
    hex_encode(&digest)
}

/// The SHA-256 digest of bytes, one byte after the other in hexadecimal.
pub fn fingerprint_bytes(bytes: &Vec<u8>) -> (r: String)
    ensures
        r@ == text::lower_hex(sha256(bytes@)),
        is_fingerprint(r@),
{
    let digest = sha256_digest(bytes.as_slice());
    proof {
        text::lemma_lower_hex(digest@);
    }
    text::hex_text(&digest)
}

} // verus!
