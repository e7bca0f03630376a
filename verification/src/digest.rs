use sha2::Digest;
use vstd::prelude::*;

use crate::text::{hex, hex_text, join};

verus! {

/// The SHA-256 hash of `data`.
pub uninterp spec fn sha256(data: Seq<u8>) -> Seq<u8>;

/// The SHA-256 hash of the bytes, by `sha2::Sha256::digest`.
///
/// Trusted: the hash is a function of the bytes alone and has 32 bytes.
#[verifier::external_body]
pub(crate) fn sha256_of(data: &[u8]) -> (hash: Vec<u8>)
    ensures
        hash@ == sha256(data@),
        hash@.len() == 32,
{
    sha2::Sha256::digest(data).to_vec()
}

/// The digest by which registries and the blob cache address `data`.
pub open spec fn digest_of(data: Seq<u8>) -> Seq<char> {
    "sha256:"@ + hex_text(sha256(data))
}

/// The digest by which registries and the blob cache address the bytes: `sha256:` and the
/// hash in lowercase hexadecimal.
pub fn content_digest(data: &[u8]) -> (digest: String)
    ensures
        digest@ == digest_of(data@),
{
    let hash = sha256_of(data);
    join("sha256:", hex(hash.as_slice()).as_str())
}

} // verus!
