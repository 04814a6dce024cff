//! Canonical byte serialization: the fixed layout a block is hashed over,
//! and the layout under which the chain head is persisted and recovered.

use vstd::prelude::*;
use vstd::bytes::*;
use vstd::slice::slice_subrange;
use crate::chain::{Block, BlockView, ChainInfo, CheckpointBeacon};

verus! {

/// Canonical serialization of a block: version, checkpoint, previous-block
/// hash, merkle root, optional signature (presence byte, then length and
/// bytes), influence, and the transaction count, all integers little-endian.
pub open spec fn spec_block_bytes(b: BlockView) -> Seq<u8> {
    spec_u32_to_le_bytes(b.version) + spec_u32_to_le_bytes(b.checkpoint) + b.hash_prev_block
        + b.hash_merkle_root + (match b.block_sig {
        None => seq![0u8],
        Some(sig) => seq![1u8] + spec_u64_to_le_bytes(sig.len() as u64) + sig,
    }) + spec_u64_to_le_bytes(b.influence) + spec_u32_to_le_bytes(b.txn_count)
}

/// Appends the 32 digest bytes of a hash.
fn push_hash(out: &mut Vec<u8>, h: &crate::chain::Hash)
    ensures
        final(out)@ == old(out)@ + h@,
{
    let crate::chain::Hash::SHA256(a) = h;
    for i in 0..32
        invariant
            h@ == a@,
            out@ == old(out)@ + a@.subrange(0, i as int),
    {
        out.push(a[i]);
        proof {
            assert(out@ =~= old(out)@ + a@.subrange(0, i + 1 as int));
        }
    }
    proof {
        assert(old(out)@ + a@.subrange(0, 32) =~= old(out)@ + a@);
    }
}

/// Appends a copy of the given bytes.
fn push_bytes(out: &mut Vec<u8>, bytes: &Vec<u8>)
    ensures
        final(out)@ == old(out)@ + bytes@,
{
    for i in 0..bytes.len()
        invariant
            out@ == old(out)@ + bytes@.subrange(0, i as int),
    {
        out.push(bytes[i]);
        proof {
            assert(out@ =~= old(out)@ + bytes@.subrange(0, i + 1 as int));
        }
    }
    proof {
        assert(old(out)@ + bytes@.subrange(0, bytes@.len() as int) =~= old(out)@ + bytes@);
    }
}

/// Serializes a block into its canonical byte form, the form its content
/// hash is computed over.
pub fn block_to_bytes(b: &Block) -> (r: Vec<u8>)
    ensures
        r@ == spec_block_bytes(b@),
{
    let mut out = u32_to_le_bytes(b.header.block_header.version);
    let mut part = u32_to_le_bytes(b.header.block_header.beacon.checkpoint);
    out.append(&mut part);
    push_hash(&mut out, &b.header.block_header.beacon.hash_prev_block);
    push_hash(&mut out, &b.header.block_header.hash_merkle_root);
    match &b.header.proof.block_sig {
        None => {
            out.push(0u8);
        },
        Some(sig) => {
            out.push(1u8);
            let mut len_bytes = u64_to_le_bytes(sig.bytes.len() as u64);
            out.append(&mut len_bytes);
            push_bytes(&mut out, &sig.bytes);
        },
    }
    let mut inf = u64_to_le_bytes(b.header.proof.influence);
    out.append(&mut inf);
    let mut count = u32_to_le_bytes(b.txn_count);
    out.append(&mut count);
    proof {
        assert(out@ =~= spec_block_bytes(b@));
    }
    out
}

/// Number of bytes a serialized chain head occupies: a 4-byte checkpoint
/// followed by the 32-byte tip hash.
pub open spec fn chain_info_byte_len() -> int {
    36
}

/// Canonical serialization of the persisted chain head.
pub open spec fn spec_chain_info_bytes(ci: ChainInfo) -> Seq<u8> {
    spec_u32_to_le_bytes(ci.highest_block_checkpoint.checkpoint)
        + ci.highest_block_checkpoint.hash_prev_block@
}

/// Serializes a chain head for persistence.
pub fn chain_info_to_bytes(ci: &ChainInfo) -> (r: Vec<u8>)
    ensures
        r@ == spec_chain_info_bytes(*ci),
        r@.len() == chain_info_byte_len(),
{
    let mut out = u32_to_le_bytes(ci.highest_block_checkpoint.checkpoint);
    push_hash(&mut out, &ci.highest_block_checkpoint.hash_prev_block);
    proof {
        assert(out@ =~= spec_chain_info_bytes(*ci));
    }
    out
}

/// Recovers a chain head from persisted bytes. Succeeds exactly on inputs
/// of the canonical length, and the recovered value re-serializes to the
/// given bytes.
pub fn chain_info_from_bytes(bytes: &Vec<u8>) -> (r: Option<ChainInfo>)
    ensures
        r is Some <==> bytes@.len() == chain_info_byte_len(),
        match r {
            Some(ci) => spec_chain_info_bytes(ci) == bytes@,
            None => true,
        },
{
    if bytes.len() != 36 {
        return None;
    }
    let checkpoint = u32_from_le_bytes(slice_subrange(bytes.as_slice(), 0, 4));
    let mut digest = [0u8; 32];
    for i in 0..32
        invariant
            bytes@.len() == 36,
            forall|j: int| 0 <= j < i ==> digest@[j] == bytes@[4 + j],
    {
        digest[i] = bytes[4 + i];
    }
    let ci = ChainInfo {
        highest_block_checkpoint: CheckpointBeacon {
            checkpoint,
            hash_prev_block: crate::chain::Hash::SHA256(digest),
        },
    };
    proof {
        lemma_auto_spec_u32_to_from_le_bytes();
        assert(spec_u32_to_le_bytes(checkpoint) =~= bytes@.subrange(0, 4));
        assert(digest@ =~= bytes@.subrange(4, 36));
        assert(spec_chain_info_bytes(ci) =~= bytes@);
    }
    Some(ci)
}

/// Two chain heads with the same serialization are the same chain head.
pub proof fn lemma_chain_info_bytes_injective(a: ChainInfo, b: ChainInfo)
    requires
        spec_chain_info_bytes(a) == spec_chain_info_bytes(b),
    ensures
        a == b,
{
    lemma_auto_spec_u32_to_from_le_bytes();
    let sa = spec_chain_info_bytes(a);
    let sb = spec_chain_info_bytes(b);
    assert(spec_u32_to_le_bytes(a.highest_block_checkpoint.checkpoint) =~= sa.subrange(0, 4));
    assert(spec_u32_to_le_bytes(b.highest_block_checkpoint.checkpoint) =~= sb.subrange(0, 4));
    assert(a.highest_block_checkpoint.checkpoint == b.highest_block_checkpoint.checkpoint);
    assert(a.highest_block_checkpoint.hash_prev_block@ =~= sa.subrange(4, 36));
    assert(b.highest_block_checkpoint.hash_prev_block@ =~= sb.subrange(4, 36));
    let crate::chain::Hash::SHA256(ha) = a.highest_block_checkpoint.hash_prev_block;
    let crate::chain::Hash::SHA256(hb) = b.highest_block_checkpoint.hash_prev_block;
    assert(ha =~= hb);
}

} // verus!
