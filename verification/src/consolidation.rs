//! The consolidation engine: the deterministic, total tie-break rule that
//! selects a single canonical block per epoch among its candidates, so all
//! honest nodes converge on the same winner without extra communication.

use vstd::prelude::*;
use crate::chain::{hash_lex_lt, lemma_hash_lex_total, lemma_hash_lex_trans, lemma_hash_view_eq,
    Block, Epoch};
use crate::index::{contains_block, lemma_candidates_known, spec_candidates, spec_influence,
    BlockIndex};

verus! {

/// The tie-break order: candidate `a` is at least as good as `b` when it
/// carries strictly greater influence, or equal influence and an equal or
/// lexicographically smaller hash.
pub open spec fn beats(blocks: Seq<(crate::chain::Hash, Block)>, a: Seq<u8>, b: Seq<u8>) -> bool {
    ||| spec_influence(blocks, a) > spec_influence(blocks, b)
    ||| (spec_influence(blocks, a) == spec_influence(blocks, b) && (a == b || hash_lex_lt(a, b)))
}

/// The tie-break order is transitive.
pub proof fn lemma_beats_trans(
    blocks: Seq<(crate::chain::Hash, Block)>,
    a: Seq<u8>,
    b: Seq<u8>,
    c: Seq<u8>,
)
    requires
        beats(blocks, a, b),
        beats(blocks, b, c),
    ensures
        beats(blocks, a, c),
{
    if spec_influence(blocks, a) == spec_influence(blocks, b) && spec_influence(blocks, b)
        == spec_influence(blocks, c) {
        if a != b && b != c {
            lemma_hash_lex_trans(a, b, c);
        }
    }
}

/// A hash is canonical for an epoch when it is one of the epoch's
/// candidates and is at least as good as every candidate under the
/// tie-break order.
pub open spec fn is_canonical(index: BlockIndex, e: Epoch, h: crate::chain::Hash) -> bool {
    let cs = spec_candidates(index.epoch_to_block_hash@, e);
    &&& cs.contains(h)
    &&& (forall|i: int| 0 <= i < cs.len() ==> beats(index.blocks@, h@, cs[i]@))
}

/// Tie-break determinism: an epoch has at most one canonical block, so
/// repeated consolidations of the same candidate set always select the
/// same hash.
pub proof fn lemma_canonical_unique(
    index: BlockIndex,
    e: Epoch,
    h1: crate::chain::Hash,
    h2: crate::chain::Hash,
)
    requires
        is_canonical(index, e, h1),
        is_canonical(index, e, h2),
    ensures
        h1 == h2,
{
    let cs = spec_candidates(index.epoch_to_block_hash@, e);
    let i1 = choose|i: int| 0 <= i < cs.len() && cs[i] == h1;
    let i2 = choose|i: int| 0 <= i < cs.len() && cs[i] == h2;
    assert(beats(index.blocks@, h1@, h2@));
    assert(beats(index.blocks@, h2@, h1@));
    lemma_hash_lex_total(h1@, h2@);
    lemma_hash_view_eq(h1, h2);
}

/// Selects the canonical block hash for an epoch among its candidates:
/// the strictly greatest influence wins, and equal influence is broken by
/// the lexicographically smallest hash. Returns nothing exactly when the
/// epoch has no candidates.
pub fn select_canonical(index: &BlockIndex, epoch: Epoch) -> (r: Option<crate::chain::Hash>)
    requires
        index.wf(),
    ensures
        match r {
            Some(h) => is_canonical(*index, epoch, h) && contains_block(index.blocks@, h@),
            None => spec_candidates(index.epoch_to_block_hash@, epoch).len() == 0,
        },
        r is Some <==> spec_candidates(index.epoch_to_block_hash@, epoch).len() > 0,
{
    let cs = index.candidates(epoch);
    proof {
        lemma_candidates_known(*index, epoch);
    }
    if cs.len() == 0 {
        return None;
    }
    let mut best: crate::chain::Hash = cs[0];
    let mut best_inf: u64 = index.influence_of(&best);
    let n = cs.len();
    for i in 1..n
        invariant
            index.wf(),
            cs@ == spec_candidates(index.epoch_to_block_hash@, epoch),
            n == cs@.len(),
            0 < i <= n,
            forall|p: int|
                0 <= p < cs@.len() ==> contains_block(
                    index.blocks@,
                    (#[trigger] cs@[p])@,
                ),
            exists|j: int| 0 <= j < i && cs@[j] == best,
            best_inf == spec_influence(index.blocks@, best@),
            forall|j: int| 0 <= j < i ==> beats(index.blocks@, best@, cs@[j]@),
    {
        let inf = index.influence_of(&cs[i]);
        if inf > best_inf || (inf == best_inf && cs[i].lex_lt(&best)) {
            proof {
                assert(beats(index.blocks@, cs@[i as int]@, best@));
                assert forall|j: int| 0 <= j < i + 1 implies beats(
                    index.blocks@,
                    cs@[i as int]@,
                    cs@[j]@,
                ) by {
                    if j < i {
                        lemma_beats_trans(index.blocks@, cs@[i as int]@, best@, cs@[j]@);
                    }
                }
            }
            best = cs[i];
            best_inf = inf;
        } else {
            proof {
                lemma_hash_lex_total(best@, cs@[i as int]@);
                assert(beats(index.blocks@, best@, cs@[i as int]@));
            }
        }
    }
    proof {
        let j = choose|j: int| 0 <= j < cs@.len() && cs@[j] == best;
        assert(cs@.contains(best));
    }
    Some(best)
}

} // verus!
