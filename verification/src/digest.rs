//! SHA-256 digests.

use crate::text::{hex_bytes, hex_of_bytes};
use sha2::{Digest, Sha256};
use vstd::prelude::*;

verus! {

/// The SHA-256 digest of bytes.
pub uninterp spec fn sha256(bytes: Seq<u8>) -> Seq<u8>;

/// `sha2::Sha256::digest`: the result depends on the bytes alone and is 32 bytes long.
#[verifier::external_body]
pub(crate) fn sha256_digest(bytes: &[u8]) -> (r: Vec<u8>)
    ensures
        r@ == sha256(bytes@),
        r@.len() == 32,
{
    Sha256::digest(bytes).to_vec()
}

/// The digest of bytes in lower-case hexadecimal.
pub fn sha256_hex(bytes: &[u8]) -> (r: String)
    ensures
        r@ == hex_bytes(sha256(bytes@)),
        r@.len() == 64,
{
    let digest = sha256_digest(bytes);
    hex_of_bytes(&digest)
}

/// The digest of a request body in lower-case hexadecimal.
pub fn request_body_digest(body: &[u8]) -> (r: String)
    ensures
        r@ == hex_bytes(sha256(body@)),
        r@.len() == 64,
{
    let digest = sha256_digest(body);
    hex_of_bytes(&digest)
}

} // verus!
