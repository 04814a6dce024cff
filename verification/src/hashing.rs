//! The content-hash utility: SHA-256 over a block's canonical
//! serialization, giving every block its collision-free identity.

use vstd::prelude::*;
use sha2::{Digest, Sha256};
use crate::chain::Block;
use crate::serial::{block_to_bytes, spec_block_bytes};

verus! {

/// The SHA-256 digest of a byte string: a function of the bytes alone.
pub uninterp spec fn sha256_of(data: Seq<u8>) -> Seq<u8>;

/// Relies on sha2::Sha256 through Digest::digest: a deterministic digest
/// of the input bytes alone, 32 bytes wide.
#[verifier::external_body]
fn sha256_digest(data: &Vec<u8>) -> (r: [u8; 32])
    ensures
        r@ == sha256_of(data@),
{
    Sha256::digest(data.as_slice()).into()
}

/// Content hash of a byte string.
pub fn calculate_sha256(data: &Vec<u8>) -> (r: crate::chain::Hash)
    ensures
        r@ == sha256_of(data@),
{
    crate::chain::Hash::SHA256(sha256_digest(data))
}

/// A block's content hash: the digest of its canonical serialization.
pub open spec fn spec_block_hash(b: crate::chain::BlockView) -> Seq<u8> {
    sha256_of(spec_block_bytes(b))
}

/// Computes a block's content hash.
pub fn block_hash(b: &Block) -> (r: crate::chain::Hash)
    ensures
        r@ == spec_block_hash(b@),
{
    let bytes = block_to_bytes(b);
    calculate_sha256(&bytes)
}

} // verus!
