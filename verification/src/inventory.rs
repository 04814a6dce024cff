//! Inventory reconciliation: given the inventory vectors a peer offers,
//! compute the sublist this node does not have, preserving their order.

use vstd::prelude::*;
use crate::chain::{inv_vector_hash, Block, InvVector};
use crate::index::{contains_block, lemma_find_block_push, BlockIndex};

verus! {

/// The subsequence of `vs` whose wrapped hashes are unknown to the block
/// map, in their original order.
pub open spec fn spec_missing(
    blocks: Seq<(crate::chain::Hash, Block)>,
    vs: Seq<InvVector>,
) -> Seq<InvVector>
    decreases vs.len(),
{
    if vs.len() == 0 {
        Seq::empty()
    } else {
        let rest = spec_missing(blocks, vs.drop_last());
        if !contains_block(blocks, inv_vector_hash(vs.last())) {
            rest.push(vs.last())
        } else {
            rest
        }
    }
}

/// `vs` with every vector wrapping the given hash removed, in order.
pub open spec fn spec_drop_hash(vs: Seq<InvVector>, h: Seq<u8>) -> Seq<InvVector>
    decreases vs.len(),
{
    if vs.len() == 0 {
        Seq::empty()
    } else {
        let rest = spec_drop_hash(vs.drop_last(), h);
        if inv_vector_hash(vs.last()) != h {
            rest.push(vs.last())
        } else {
            rest
        }
    }
}

/// Reconciliation is idempotent in the filtering sense: the missing
/// sublist contains only unknown hashes, so filtering it again against the
/// same block map returns it unchanged.
pub proof fn lemma_missing_idempotent(
    blocks: Seq<(crate::chain::Hash, Block)>,
    vs: Seq<InvVector>,
)
    ensures
        spec_missing(blocks, spec_missing(blocks, vs)) == spec_missing(blocks, vs),
    decreases vs.len(),
{
    if vs.len() > 0 {
        let m0 = spec_missing(blocks, vs.drop_last());
        lemma_missing_idempotent(blocks, vs.drop_last());
        if !contains_block(blocks, inv_vector_hash(vs.last())) {
            let m = m0.push(vs.last());
            assert(m.drop_last() =~= m0);
            assert(spec_missing(blocks, m) == spec_missing(blocks, m0).push(vs.last()));
        }
    }
}

/// Making one new block known filters exactly the vectors wrapping its
/// hash out of the missing sublist, and leaves every other vector's fate
/// unchanged.
pub proof fn lemma_missing_after_insert(
    blocks: Seq<(crate::chain::Hash, Block)>,
    p: (crate::chain::Hash, Block),
    vs: Seq<InvVector>,
)
    ensures
        spec_missing(blocks.push(p), vs) == spec_drop_hash(spec_missing(blocks, vs), p.0@),
    decreases vs.len(),
{
    lemma_find_block_push(blocks, p, inv_vector_hash(vs.last()));
    if vs.len() == 0 {
        assert(spec_missing(blocks.push(p), vs) =~= Seq::<InvVector>::empty());
    } else {
        let last = vs.last();
        let m0 = spec_missing(blocks, vs.drop_last());
        lemma_missing_after_insert(blocks, p, vs.drop_last());
        if contains_block(blocks, inv_vector_hash(last)) {
        } else if inv_vector_hash(last) == p.0@ {
            assert(m0.push(last).drop_last() =~= m0);
        } else {
            assert(m0.push(last).drop_last() =~= m0);
        }
    }
}

/// Filters the peer's inventory vectors down to the ones whose hashes this
/// node does not have, preserving their order. Never fails.
pub fn missing(index: &BlockIndex, inv_vectors: Vec<InvVector>) -> (r: Vec<InvVector>)
    ensures
        r@ == spec_missing(index.blocks@, inv_vectors@),
{
    let mut out: Vec<InvVector> = Vec::new();
    let n = inv_vectors.len();
    for i in 0..n
        invariant
            n == inv_vectors@.len(),
            out@ == spec_missing(index.blocks@, inv_vectors@.subrange(0, i as int)),
    {
        let v = inv_vectors[i];
        let h = v.hash();
        let ghost pre = inv_vectors@.subrange(0, i as int);
        proof {
            assert(inv_vectors@.subrange(0, i + 1 as int).drop_last() =~= pre);
            assert(inv_vectors@.subrange(0, i + 1 as int).last() == inv_vectors@[i as int]);
        }
        if !index.contains(&h) {
            out.push(v);
        }
    }
    proof {
        assert(inv_vectors@.subrange(0, n as int) =~= inv_vectors@);
    }
    out
}

} // verus!
