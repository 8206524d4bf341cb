//! Content digests for change detection. The digest itself comes from an
//! outside implementation of SHA-256; here it is a named function of the
//! input bytes alone, which is all the change detector relies on.

use vstd::prelude::*;

verus! {

/// The SHA-256 digest of a byte sequence. Its value is not written out
/// here; the library only relies on it being a function of the bytes alone.
pub uninterp spec fn sha256_of(data: Seq<u8>) -> Seq<u8>;

/// Relies on `sha2::Sha256::digest` (the `Digest` trait's one-shot entry
/// point): the SHA-256 digest of the input, a function of the input bytes
/// alone, always 32 bytes long.
#[verifier::external_body]
pub fn conpute_hash(data: &[u8]) -> (r: Vec<u8>)
    ensures
        r@ == sha256_of(data@),
        r@.len() == 32,
{
    let digest = <sha2::Sha256 as sha2::Digest>::digest(data);
    digest.to_vec()
}

} // verus!
