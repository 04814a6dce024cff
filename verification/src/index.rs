//! The block index: sole authority for which blocks this node knows and
//! which candidate blocks compete for each epoch.

use vstd::prelude::*;
use crate::chain::{Block, Epoch};
use crate::errors::BlocksManagerError;
use crate::hashing::{block_hash, spec_block_hash};

verus! {

/// The block stored under a hash key, searching from the most recent entry.
pub open spec fn spec_find_block(s: Seq<(crate::chain::Hash, Block)>, h: Seq<u8>) -> Option<Block>
    decreases s.len(),
{
    if s.len() == 0 {
        None
    } else if s.last().0@ == h {
        Some(s.last().1)
    } else {
        spec_find_block(s.drop_last(), h)
    }
}

/// Whether some entry carries the given hash as its key.
pub open spec fn contains_block(s: Seq<(crate::chain::Hash, Block)>, h: Seq<u8>) -> bool {
    spec_find_block(s, h) is Some
}

/// The influence of the block stored under a hash (zero if absent, a case
/// a well-formed index never asks about).
pub open spec fn spec_influence(s: Seq<(crate::chain::Hash, Block)>, h: Seq<u8>) -> u64 {
    match spec_find_block(s, h) {
        Some(b) => b@.influence,
        None => 0,
    }
}

/// An entry carrying the hash makes the lookup succeed.
pub proof fn lemma_find_block_present(s: Seq<(crate::chain::Hash, Block)>, h: Seq<u8>, k: int)
    requires
        0 <= k < s.len(),
        s[k].0@ == h,
    ensures
        contains_block(s, h),
    decreases s.len(),
{
    if s.last().0@ != h {
        lemma_find_block_present(s.drop_last(), h, k);
    }
}

/// With no entry carrying the hash, the lookup fails.
pub proof fn lemma_find_block_absent(s: Seq<(crate::chain::Hash, Block)>, h: Seq<u8>)
    requires
        forall|j: int| 0 <= j < s.len() ==> s[j].0@ != h,
    ensures
        spec_find_block(s, h) is None,
    decreases s.len(),
{
    if s.len() > 0 {
        lemma_find_block_absent(s.drop_last(), h);
    }
}

/// With distinct keys, the lookup returns exactly the entry that carries
/// the hash.
pub proof fn lemma_find_block_at(s: Seq<(crate::chain::Hash, Block)>, k: int)
    requires
        forall|i: int, j: int| 0 <= i < j < s.len() ==> s[i].0@ != s[j].0@,
        0 <= k < s.len(),
    ensures
        spec_find_block(s, s[k].0@) == Some(s[k].1),
    decreases s.len(),
{
    if k < s.len() - 1 {
        assert(s.last().0@ != s[k].0@);
        lemma_find_block_at(s.drop_last(), k);
    }
}

/// How a lookup reads through an appended entry.
pub proof fn lemma_find_block_push(
    s: Seq<(crate::chain::Hash, Block)>,
    p: (crate::chain::Hash, Block),
    h: Seq<u8>,
)
    ensures
        spec_find_block(s.push(p), h) == if p.0@ == h {
            Some(p.1)
        } else {
            spec_find_block(s, h)
        },
{
    assert(s.push(p).drop_last() =~= s);
}

/// The candidate hashes recorded for an epoch, when the epoch has an entry.
pub open spec fn spec_find_epoch(
    s: Seq<(Epoch, Vec<crate::chain::Hash>)>,
    e: Epoch,
) -> Option<Seq<crate::chain::Hash>>
    decreases s.len(),
{
    if s.len() == 0 {
        None
    } else if s.last().0 == e {
        Some(s.last().1@)
    } else {
        spec_find_epoch(s.drop_last(), e)
    }
}

/// The candidate set for an epoch: empty when no block arrived for it.
pub open spec fn spec_candidates(
    s: Seq<(Epoch, Vec<crate::chain::Hash>)>,
    e: Epoch,
) -> Seq<crate::chain::Hash> {
    match spec_find_epoch(s, e) {
        Some(hs) => hs,
        None => Seq::empty(),
    }
}

/// With no entry for the epoch, the lookup fails.
pub proof fn lemma_find_epoch_absent(s: Seq<(Epoch, Vec<crate::chain::Hash>)>, e: Epoch)
    requires
        forall|j: int| 0 <= j < s.len() ==> s[j].0 != e,
    ensures
        spec_find_epoch(s, e) is None,
    decreases s.len(),
{
    if s.len() > 0 {
        lemma_find_epoch_absent(s.drop_last(), e);
    }
}

/// With distinct epochs, the lookup returns exactly the entry for the epoch.
pub proof fn lemma_find_epoch_at(s: Seq<(Epoch, Vec<crate::chain::Hash>)>, k: int)
    requires
        forall|i: int, j: int| 0 <= i < j < s.len() ==> s[i].0 != s[j].0,
        0 <= k < s.len(),
    ensures
        spec_find_epoch(s, s[k].0) == Some(s[k].1@),
    decreases s.len(),
{
    if k < s.len() - 1 {
        lemma_find_epoch_at(s.drop_last(), k);
    }
}

/// How an epoch lookup reads through an appended entry.
pub proof fn lemma_find_epoch_push(
    s: Seq<(Epoch, Vec<crate::chain::Hash>)>,
    p: (Epoch, Vec<crate::chain::Hash>),
    e: Epoch,
)
    ensures
        spec_find_epoch(s.push(p), e) == if p.0 == e {
            Some(p.1@)
        } else {
            spec_find_epoch(s, e)
        },
{
    assert(s.push(p).drop_last() =~= s);
}

/// How an epoch lookup reads through an entry replaced in place, when the
/// replacement keeps the entry's epoch.
pub proof fn lemma_find_epoch_update(
    s: Seq<(Epoch, Vec<crate::chain::Hash>)>,
    k: int,
    p: (Epoch, Vec<crate::chain::Hash>),
    e: Epoch,
)
    requires
        forall|i: int, j: int| 0 <= i < j < s.len() ==> s[i].0 != s[j].0,
        0 <= k < s.len(),
        s[k].0 == p.0,
    ensures
        spec_find_epoch(s.update(k, p), e) == if p.0 == e {
            Some(p.1@)
        } else {
            spec_find_epoch(s, e)
        },
    decreases s.len(),
{
    let s2 = s.update(k, p);
    if k == s.len() - 1 {
        assert(s2.last() == p);
        assert(s2.drop_last() =~= s.drop_last());
        if p.0 != e {
            assert(s.last().0 != e);
        }
    } else {
        assert(s2.last() == s.last());
        assert(s2.drop_last() =~= s.drop_last().update(k, p));
        lemma_find_epoch_update(s.drop_last(), k, p, e);
        if p.0 == e {
            assert(s.last().0 != e);
        }
    }
}

/// A copy of a vector of hashes.
fn clone_hash_vec(v: &Vec<crate::chain::Hash>) -> (r: Vec<crate::chain::Hash>)
    ensures
        r@ == v@,
{
    let mut out: Vec<crate::chain::Hash> = Vec::new();
    for i in 0..v.len()
        invariant
            out@ == v@.subrange(0, i as int),
    {
        out.push(v[i]);
        proof {
            assert(out@ =~= v@.subrange(0, i + 1 as int));
        }
    }
    proof {
        assert(v@.subrange(0, v@.len() as int) =~= v@);
    }
    out
}

/// In-memory structure holding all known blocks by hash, and the
/// epoch-to-candidate-hashes map.
pub struct BlockIndex {
    /// Blocks stored by their content hash.
    pub blocks: Vec<(crate::chain::Hash, Block)>,
    /// For each epoch with at least one candidate, the candidate hashes.
    pub epoch_to_block_hash: Vec<(Epoch, Vec<crate::chain::Hash>)>,
}

impl BlockIndex {
    /// The keys of the block map are distinct, and each key is the content
    /// hash of the block stored under it.
    pub open spec fn blocks_wf(self) -> bool {
        &&& (forall|i: int, j: int|
            0 <= i < j < self.blocks@.len() ==> self.blocks@[i].0@ != self.blocks@[j].0@)
        &&& (forall|i: int|
            0 <= i < self.blocks@.len() ==> (#[trigger] self.blocks@[i]).0@ == spec_block_hash(
                self.blocks@[i].1@,
            ))
    }

    /// Epoch entries are distinct; within one epoch the candidate hashes
    /// are distinct; and every candidate hash is the key of a stored block
    /// whose checkpoint is that epoch (no dangling references).
    pub open spec fn epochs_wf(self) -> bool {
        let es = self.epoch_to_block_hash@;
        &&& (forall|i: int, j: int| 0 <= i < j < es.len() ==> es[i].0 != es[j].0)
        &&& (forall|i: int, p: int, q: int|
            #![trigger es[i].1@[p], es[i].1@[q]]
            0 <= i < es.len() && 0 <= p < q < es[i].1@.len() ==> es[i].1@[p]@ != es[i].1@[q]@)
        &&& (forall|i: int, p: int|
            #![trigger es[i].1@[p]]
            0 <= i < es.len() && 0 <= p < es[i].1@.len() ==> (spec_find_block(
                self.blocks@,
                es[i].1@[p]@,
            ) matches Some(b) && b@.checkpoint == es[i].0))
    }

    /// The index invariant.
    pub open spec fn wf(self) -> bool {
        self.blocks_wf() && self.epochs_wf()
    }

    /// An empty index.
    pub fn new() -> (r: BlockIndex)
        ensures
            r.wf(),
            r.blocks@.len() == 0,
            r.epoch_to_block_hash@.len() == 0,
    {
        BlockIndex { blocks: Vec::new(), epoch_to_block_hash: Vec::new() }
    }

    /// Number of known blocks.
    pub fn num_blocks(&self) -> (n: usize)
        ensures
            n == self.blocks@.len(),
    {
        self.blocks.len()
    }

    /// Whether a block with this hash is already known.
    pub fn contains(&self, hash: &crate::chain::Hash) -> (r: bool)
        ensures
            r == contains_block(self.blocks@, hash@),
    {
        let n = self.blocks.len();
        for i in 0..n
            invariant
                n == self.blocks@.len(),
                forall|j: int| 0 <= j < i ==> self.blocks@[j].0@ != hash@,
        {
            if self.blocks[i].0.eq_hash(hash) {
                proof {
                    lemma_find_block_present(self.blocks@, hash@, i as int);
                }
                return true;
            }
        }
        proof {
            lemma_find_block_absent(self.blocks@, hash@);
        }
        false
    }

    /// A copy of the stored block with this hash; `BlockDoesNotExist` when
    /// the hash is unknown.
    pub fn get(&self, hash: &crate::chain::Hash) -> (r: Result<Block, BlocksManagerError>)
        requires
            self.wf(),
        ensures
            match r {
                Ok(b) => spec_find_block(self.blocks@, hash@) matches Some(b0) && b@ == b0@,
                Err(e) => !contains_block(self.blocks@, hash@) && e
                    == BlocksManagerError::BlockDoesNotExist,
            },
            r is Ok <==> contains_block(self.blocks@, hash@),
    {
        let n = self.blocks.len();
        for i in 0..n
            invariant
                self.wf(),
                n == self.blocks@.len(),
                forall|j: int| 0 <= j < i ==> self.blocks@[j].0@ != hash@,
        {
            if self.blocks[i].0.eq_hash(hash) {
                proof {
                    lemma_find_block_at(self.blocks@, i as int);
                }
                return Ok(self.blocks[i].1.clone());
            }
        }
        proof {
            lemma_find_block_absent(self.blocks@, hash@);
        }
        Err(BlocksManagerError::BlockDoesNotExist)
    }

    /// The influence carried by the stored block with this hash.
    pub fn influence_of(&self, hash: &crate::chain::Hash) -> (r: u64)
        requires
            self.wf(),
            contains_block(self.blocks@, hash@),
        ensures
            r == spec_influence(self.blocks@, hash@),
    {
        let n = self.blocks.len();
        for i in 0..n
            invariant
                self.wf(),
                contains_block(self.blocks@, hash@),
                n == self.blocks@.len(),
                forall|j: int| 0 <= j < i ==> self.blocks@[j].0@ != hash@,
        {
            if self.blocks[i].0.eq_hash(hash) {
                proof {
                    lemma_find_block_at(self.blocks@, i as int);
                }
                return self.blocks[i].1.header.proof.influence;
            }
        }
        proof {
            lemma_find_block_absent(self.blocks@, hash@);
            assert(false);
        }
        0
    }

    /// Index of the epoch's entry in the candidate map, if the epoch has one.
    fn find_epoch_index(&self, epoch: Epoch) -> (r: Option<usize>)
        ensures
            match r {
                Some(k) => k < self.epoch_to_block_hash@.len()
                    && self.epoch_to_block_hash@[k as int].0 == epoch,
                None => forall|j: int|
                    0 <= j < self.epoch_to_block_hash@.len() ==> self.epoch_to_block_hash@[j].0
                        != epoch,
            },
    {
        let n = self.epoch_to_block_hash.len();
        for i in 0..n
            invariant
                n == self.epoch_to_block_hash@.len(),
                forall|j: int| 0 <= j < i ==> self.epoch_to_block_hash@[j].0 != epoch,
        {
            if self.epoch_to_block_hash[i].0 == epoch {
                return Some(i);
            }
        }
        None
    }

    /// The (possibly empty) candidate hashes for an epoch. Never fails.
    pub fn candidates(&self, epoch: Epoch) -> (r: Vec<crate::chain::Hash>)
        requires
            self.wf(),
        ensures
            r@ == spec_candidates(self.epoch_to_block_hash@, epoch),
    {
        match self.find_epoch_index(epoch) {
            Some(k) => {
                proof {
                    lemma_find_epoch_at(self.epoch_to_block_hash@, k as int);
                }
                clone_hash_vec(&self.epoch_to_block_hash[k].1)
            },
            None => {
                proof {
                    lemma_find_epoch_absent(self.epoch_to_block_hash@, epoch);
                    assert(spec_candidates(self.epoch_to_block_hash@, epoch) =~= Seq::<
                        crate::chain::Hash,
                    >::empty());
                }
                Vec::new()
            },
        }
    }

    /// Computes the block's content hash and inserts the block: fails with
    /// `BlockAlreadyExists` when that hash is already a key, and otherwise
    /// records the block under its hash, appends the hash to its epoch's
    /// candidate set (creating the set if absent) and returns the hash.
    /// Mutates the two maps together or not at all; no other epoch and no
    /// other block is touched.
    pub fn insert_candidate(&mut self, block: Block) -> (r: Result<
        crate::chain::Hash,
        BlocksManagerError,
    >)
        requires
            old(self).wf(),
        ensures
            final(self).wf(),
            match r {
                Ok(h) => {
                    &&& h@ == spec_block_hash(block@)
                    &&& !contains_block(old(self).blocks@, h@)
                    &&& final(self).blocks@ == old(self).blocks@.push((h, block))
                    &&& spec_candidates(final(self).epoch_to_block_hash@, block@.checkpoint)
                        == spec_candidates(
                        old(self).epoch_to_block_hash@,
                        block@.checkpoint,
                    ).push(h)
                    &&& (forall|e: Epoch|
                        e != block@.checkpoint ==> spec_candidates(
                            final(self).epoch_to_block_hash@,
                            e,
                        ) == spec_candidates(old(self).epoch_to_block_hash@, e))
                },
                Err(err) => {
                    &&& err == BlocksManagerError::BlockAlreadyExists
                    &&& contains_block(old(self).blocks@, spec_block_hash(block@))
                    &&& final(self).blocks@ == old(self).blocks@
                    &&& final(self).epoch_to_block_hash@ == old(self).epoch_to_block_hash@
                },
            },
            r is Ok <==> !contains_block(old(self).blocks@, spec_block_hash(block@)),
    {
        let hash = block_hash(&block);
        if self.contains(&hash) {
            return Err(BlocksManagerError::BlockAlreadyExists);
        }
        proof {
            assert forall|j: int| 0 <= j < self.blocks@.len() implies self.blocks@[j].0@
                != hash@ by {
                if self.blocks@[j].0@ == hash@ {
                    lemma_find_block_present(self.blocks@, hash@, j);
                }
            }
        }
        let epoch = block.header.block_header.beacon.checkpoint;
        match self.find_epoch_index(epoch) {
            Some(k) => {
                proof {
                    lemma_find_epoch_at(self.epoch_to_block_hash@, k as int);
                }
                let e0 = self.epoch_to_block_hash[k].0;
                let mut hs = clone_hash_vec(&self.epoch_to_block_hash[k].1);
                hs.push(hash);
                let ghost pre = self.epoch_to_block_hash@;
                self.epoch_to_block_hash[k] = (e0, hs);
                proof {
                    assert forall|e: Epoch| true implies spec_find_epoch(
                        self.epoch_to_block_hash@,
                        e,
                    ) == if e == epoch {
                        Some(pre[k as int].1@.push(hash))
                    } else {
                        spec_find_epoch(pre, e)
                    } by {
                        lemma_find_epoch_update(
                            pre,
                            k as int,
                            (e0, hs),
                            e,
                        );
                    }
                }
            },
            None => {
                let mut hs: Vec<crate::chain::Hash> = Vec::new();
                hs.push(hash);
                let ghost pre = self.epoch_to_block_hash@;
                self.epoch_to_block_hash.push((epoch, hs));
                proof {
                    lemma_find_epoch_absent(pre, epoch);
                    assert forall|e: Epoch| true implies spec_find_epoch(
                        self.epoch_to_block_hash@,
                        e,
                    ) == if e == epoch {
                        Some(seq![hash])
                    } else {
                        spec_find_epoch(pre, e)
                    } by {
                        lemma_find_epoch_push(pre, (epoch, hs), e);
                        assert(hs@ =~= seq![hash]);
                    }
                    assert(spec_candidates(pre, epoch) =~= Seq::<crate::chain::Hash>::empty());
                    assert(seq![hash] =~= Seq::<crate::chain::Hash>::empty().push(hash));
                }
            },
        }
        let ghost pre_blocks = self.blocks@;
        let ghost new_epochs = self.epoch_to_block_hash@;
        self.blocks.push((hash, block));
        proof {
            assert forall|h2: Seq<u8>| true implies spec_find_block(self.blocks@, h2) == if h2
                == hash@ {
                Some(self.blocks@.last().1)
            } else {
                spec_find_block(pre_blocks, h2)
            } by {
                lemma_find_block_push(pre_blocks, self.blocks@.last(), h2);
            }
            lemma_insert_preserves_wf(*old(self), *self, hash, epoch);
        }
        Ok(hash)
    }
}

/// The insertion of a fresh block preserves the index invariant.
proof fn lemma_insert_preserves_wf(
    pre: BlockIndex,
    post: BlockIndex,
    hash: crate::chain::Hash,
    epoch: Epoch,
)
    requires
        pre.wf(),
        !contains_block(pre.blocks@, hash@),
        post.blocks@.len() == pre.blocks@.len() + 1,
        post.blocks@.last().0 == hash,
        post.blocks@.last().1@.checkpoint == epoch,
        hash@ == spec_block_hash(post.blocks@.last().1@),
        forall|j: int| 0 <= j < pre.blocks@.len() ==> post.blocks@[j] == pre.blocks@[j],
        forall|h2: Seq<u8>|
            #![trigger spec_find_block(post.blocks@, h2)]
            spec_find_block(post.blocks@, h2) == if h2 == hash@ {
                Some(post.blocks@.last().1)
            } else {
                spec_find_block(pre.blocks@, h2)
            },
        forall|i: int, j: int|
            0 <= i < j < post.epoch_to_block_hash@.len() ==> post.epoch_to_block_hash@[i].0
                != post.epoch_to_block_hash@[j].0,
        forall|e: Epoch|
            #![trigger spec_find_epoch(post.epoch_to_block_hash@, e)]
            spec_find_epoch(post.epoch_to_block_hash@, e) == if e == epoch {
                Some(spec_candidates(pre.epoch_to_block_hash@, epoch).push(hash))
            } else {
                spec_find_epoch(pre.epoch_to_block_hash@, e)
            },
    ensures
        post.wf(),
{
    assert forall|j: int| 0 <= j < pre.blocks@.len() implies pre.blocks@[j].0@ != hash@ by {
        if pre.blocks@[j].0@ == hash@ {
            lemma_find_block_present(pre.blocks@, hash@, j);
        }
    }
    assert(post.blocks_wf());
    let es = post.epoch_to_block_hash@;
    let pes = pre.epoch_to_block_hash@;
    assert forall|i: int, p: int|
        #![trigger es[i].1@[p]]
        0 <= i < es.len() && 0 <= p < es[i].1@.len() implies (spec_find_block(
        post.blocks@,
        es[i].1@[p]@,
    ) matches Some(b) && b@.checkpoint == es[i].0) && (forall|q: int|
        p < q < es[i].1@.len() ==> es[i].1@[p]@ != es[i].1@[q]@) by {
        lemma_find_epoch_at(es, i);
        let e = es[i].0;
        if e == epoch {
            let cs0 = spec_candidates(pes, epoch);
            assert(es[i].1@ == cs0.push(hash));
            // cs0 is the old candidate set for this epoch, when it exists
            if spec_find_epoch(pes, epoch) is Some {
                let k = epoch_entry_index(pes, epoch);
                lemma_epoch_entry_index(pes, epoch);
                assert(pes[k].1@ == cs0);
            } else {
                assert(cs0 =~= Seq::<crate::chain::Hash>::empty());
            }
            assert forall|p2: int| 0 <= p2 < cs0.len() implies cs0[p2]@ != hash@ by {
                if cs0[p2]@ == hash@ {
                    lemma_candidate_known(pre, epoch, p2);
                }
            }
            if es[i].1@[p]@ == hash@ {
                assert(p == cs0.len());
            } else {
                lemma_candidate_known(pre, epoch, p);
            }
            assert forall|q: int| p < q < es[i].1@.len() implies es[i].1@[p]@ != es[i].1@[q]@ by {
                if q < cs0.len() {
                    lemma_old_candidates_distinct(pre, epoch, p, q);
                } else {
                    assert(es[i].1@[q]@ == hash@);
                    lemma_candidate_known(pre, epoch, p);
                }
            }
        } else {
            // the entry is an old epoch's entry, untouched
            let k = epoch_entry_index(pes, e);
            lemma_epoch_entry_index(pes, e);
            assert(pes[k].1@ == es[i].1@);
            lemma_candidate_known(pre, e, p);
            assert forall|q: int| p < q < es[i].1@.len() implies es[i].1@[p]@ != es[i].1@[q]@ by {
                lemma_old_candidates_distinct(pre, e, p, q);
            }
        }
    }
}

/// Inserting a block twice succeeds once and no more: a successful
/// insertion appends exactly one entry keyed by the block's hash, so the
/// map grows by exactly one, the hash is then a key, and by the contract
/// of `insert_candidate` an immediate re-insertion of the same block is
/// rejected with `BlockAlreadyExists`, leaving the index unchanged.
pub proof fn lemma_insert_then_duplicate(
    pre: Seq<(crate::chain::Hash, Block)>,
    h: crate::chain::Hash,
    b: Block,
)
    requires
        !contains_block(pre, h@),
    ensures
        contains_block(pre.push((h, b)), h@),
        pre.push((h, b)).len() == pre.len() + 1,
{
    lemma_find_block_push(pre, (h, b), h@);
}

/// Two blocks sharing an epoch but differing in content hash: inserting
/// both into an epoch with no candidates leaves that epoch with exactly
/// the two hashes (the contract of `insert_candidate` appends each hash to
/// the epoch's candidate set in turn).
pub proof fn lemma_two_candidates_same_epoch(
    cs0: Seq<crate::chain::Hash>,
    h1: crate::chain::Hash,
    h2: crate::chain::Hash,
)
    requires
        cs0.len() == 0,
        h1@ != h2@,
    ensures
        cs0.push(h1).push(h2).len() == 2,
        cs0.push(h1).push(h2).contains(h1),
        cs0.push(h1).push(h2).contains(h2),
        h1 != h2,
{
    let cs = cs0.push(h1).push(h2);
    assert(cs[0] == h1);
    assert(cs[1] == h2);
}

/// In a well-formed index, every candidate recorded for an epoch resolves
/// to a stored block whose checkpoint is that epoch.
pub proof fn lemma_candidates_known(index: BlockIndex, e: Epoch)
    requires
        index.wf(),
    ensures
        forall|p: int|
            0 <= p < spec_candidates(index.epoch_to_block_hash@, e).len() ==> contains_block(
                index.blocks@,
                (#[trigger] spec_candidates(index.epoch_to_block_hash@, e)[p])@,
            ) && (spec_find_block(index.blocks@, spec_candidates(index.epoch_to_block_hash@, e)[p]@)
                matches Some(b) && b@.checkpoint == e),
{
    if spec_find_epoch(index.epoch_to_block_hash@, e) is Some {
        assert forall|p: int|
            0 <= p < spec_candidates(index.epoch_to_block_hash@, e).len() implies contains_block(
            index.blocks@,
            (#[trigger] spec_candidates(index.epoch_to_block_hash@, e)[p])@,
        ) && (spec_find_block(index.blocks@, spec_candidates(index.epoch_to_block_hash@, e)[p]@)
            matches Some(b) && b@.checkpoint == e) by {
            lemma_candidate_known(index, e, p);
        }
    }
}

/// The position of the entry for an epoch that has one.
spec fn epoch_entry_index(s: Seq<(Epoch, Vec<crate::chain::Hash>)>, e: Epoch) -> int
    decreases s.len(),
{
    if s.len() == 0 {
        0
    } else if s.last().0 == e {
        s.len() - 1
    } else {
        epoch_entry_index(s.drop_last(), e)
    }
}

proof fn lemma_epoch_entry_index(s: Seq<(Epoch, Vec<crate::chain::Hash>)>, e: Epoch)
    requires
        spec_find_epoch(s, e) is Some,
    ensures
        0 <= epoch_entry_index(s, e) < s.len(),
        s[epoch_entry_index(s, e)].0 == e,
        s[epoch_entry_index(s, e)].1@ == spec_find_epoch(s, e).unwrap(),
    decreases s.len(),
{
    if s.last().0 != e {
        lemma_epoch_entry_index(s.drop_last(), e);
    }
}

/// In a well-formed index, each candidate recorded for an epoch resolves
/// to a stored block of that epoch.
proof fn lemma_candidate_known(pre: BlockIndex, e: Epoch, p: int)
    requires
        pre.wf(),
        spec_find_epoch(pre.epoch_to_block_hash@, e) is Some,
        0 <= p < spec_candidates(pre.epoch_to_block_hash@, e).len(),
    ensures
        spec_find_block(pre.blocks@, spec_candidates(pre.epoch_to_block_hash@, e)[p]@)
            matches Some(b) && b@.checkpoint == e,
        contains_block(pre.blocks@, spec_candidates(pre.epoch_to_block_hash@, e)[p]@),
{
    let k = epoch_entry_index(pre.epoch_to_block_hash@, e);
    lemma_epoch_entry_index(pre.epoch_to_block_hash@, e);
    assert(pre.epoch_to_block_hash@[k].1@[p] == spec_candidates(pre.epoch_to_block_hash@, e)[p]);
}

/// In a well-formed index, the candidates recorded for an epoch are distinct.
proof fn lemma_old_candidates_distinct(pre: BlockIndex, e: Epoch, p: int, q: int)
    requires
        pre.wf(),
        spec_find_epoch(pre.epoch_to_block_hash@, e) is Some,
        0 <= p < q < spec_candidates(pre.epoch_to_block_hash@, e).len(),
    ensures
        spec_candidates(pre.epoch_to_block_hash@, e)[p]@ != spec_candidates(
            pre.epoch_to_block_hash@,
            e,
        )[q]@,
{
    let k = epoch_entry_index(pre.epoch_to_block_hash@, e);
    lemma_epoch_entry_index(pre.epoch_to_block_hash@, e);
    assert(pre.epoch_to_block_hash@[k].1@[p] == spec_candidates(pre.epoch_to_block_hash@, e)[p]);
    assert(pre.epoch_to_block_hash@[k].1@[q] == spec_candidates(pre.epoch_to_block_hash@, e)[q]);
}

} // verus!
