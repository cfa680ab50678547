//! The digest of a block's content.

use vstd::prelude::*;
use sha2::{Digest, Sha256};
use crate::encoding::{hex_encode, hex_encoded};

verus! {

/// The SHA-256 digest of `data`.
pub uninterp spec fn sha256_digest(data: Seq<u8>) -> Seq<u8>;

/// The digest of `data` as the text that digests are compared and tested in:
/// 64 lowercase hexadecimal digits.
pub open spec fn digest_hex(data: Seq<u8>) -> Seq<char> {
    hex_encoded(sha256_digest(data))
}

/// `sha2::Sha256` over `data` in one pass: `new`, `update`, `finalize`. The
/// result is the SHA-256 digest of `data`, which has 32 bytes.
#[verifier::external_body]
pub(crate) fn sha256(data: &[u8]) -> (r: Vec<u8>)
    ensures
        r@ == sha256_digest(data@),
        r@.len() == 32,
{
    let mut hasher = Sha256::new();
    hasher.update(data);
    hasher.finalize().to_vec()
}

/// The digest of `data` as lowercase hexadecimal text.
pub fn hash_hex(data: &[u8]) -> (r: String)
    ensures
        r@ == digest_hex(data@),
        r@.len() == 64,
{
    let digest = sha256(data);
    hex_encode(digest.as_slice())
}

} // verus!
