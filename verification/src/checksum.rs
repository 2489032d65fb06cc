//! Content-hash verification for revision deltas.
//!
//! A revision carries the hash of its `delta`; [`verify_checksum`] recomputes
//! the hash and compares. The hash itself is computed by an outside crate and
//! is only named here, not restated: [`md5_of`] stands for the digest the
//! crate returns, a function of the input bytes alone.

use vstd::prelude::*;

use crate::protocol::bytes_equal;

verus! {

/// The MD5 digest of a byte string, as the outside hash function computes it.
pub uninterp spec fn md5_of(data: Seq<u8>) -> Seq<u8>;

/// Relies on md5::compute: the digest depends on the input bytes alone and is
/// 16 bytes long.
#[verifier::external_body]
fn md5_digest(data: &Vec<u8>) -> (r: Vec<u8>)
    ensures
        r@ == md5_of(data@),
        r@.len() == 16,
{
    md5::compute(data.as_slice()).0.to_vec()
}

/// The content hash a well-formed revision must carry for `delta`.
pub fn compute_checksum(delta: &Vec<u8>) -> (r: Vec<u8>)
    ensures
        r@ == md5_of(delta@),
        r@.len() == 16,
{
    md5_digest(delta)
}

/// Recomputes the content hash of `delta` and compares it with the claimed
/// checksum; `false` exactly when the claim does not match the content.
pub fn verify_checksum(delta: &Vec<u8>, claimed: &Vec<u8>) -> (r: bool)
    ensures
        r == (md5_of(delta@) == claimed@),
{
    let digest = md5_digest(delta);
    bytes_equal(&digest, claimed)
}

} // verus!
