//! The block-management facade: the single entry point sequencing the
//! block index, the consolidation engine and the chain-head tracker, as
//! exposed to session and RPC callers.

use vstd::prelude::*;
use crate::chain::{Block, ChainInfo, CheckpointBeacon, Epoch, InvVector};
use crate::consolidation::{is_canonical, select_canonical};
use crate::errors::BlocksManagerError;
use crate::hashing::spec_block_hash;
use crate::index::{contains_block, spec_candidates, spec_find_block, BlockIndex};
use crate::inventory::{missing, spec_missing};
use crate::serial::{chain_info_byte_len, chain_info_from_bytes, spec_chain_info_bytes};
use crate::storage::{chain_key, spec_chain_key, Put};

verus! {

/// Result of reconciling a peer's inventory vectors. Reconciliation never
/// fails; the alias mirrors the message-handling convention of callers.
pub type InvVectorsResult = Result<Vec<InvVector>, BlocksManagerError>;

/// The outcome of consolidating an epoch.
pub enum ConsolidationOutcome {
    /// The selected canonical hash, and the persistence request carrying
    /// the advanced chain head, for the caller to hand to storage.
    Consolidated(crate::chain::Hash, Put),
    /// The epoch had no candidates: a valid no-op, not an error.
    NoCandidates,
}

/// The block manager: the in-memory chain head plus the block index.
pub struct BlocksManager {
    /// Blockchain tip metadata; absent until recovered or initialized.
    pub chain_info: Option<ChainInfo>,
    /// All known blocks and the epoch-to-candidates map.
    pub index: BlockIndex,
}

impl Default for BlocksManager {
    /// An empty manager: no chain head, no blocks.
    fn default() -> (r: Self)
        ensures
            r.wf(),
            r.chain_info is None,
            r.index.blocks@.len() == 0,
            r.index.epoch_to_block_hash@.len() == 0,
    {
        BlocksManager { chain_info: None, index: BlockIndex::new() }
    }
}

impl BlocksManager {
    /// The manager invariant: the index is well formed.
    pub open spec fn wf(self) -> bool {
        self.index.wf()
    }

    /// Number of known blocks.
    pub fn num_blocks(&self) -> (n: usize)
        ensures
            n == self.index.blocks@.len(),
    {
        self.index.num_blocks()
    }

    /// Whether a block with this hash is already known.
    pub fn contains(&self, hash: &crate::chain::Hash) -> (r: bool)
        ensures
            r == contains_block(self.index.blocks@, hash@),
    {
        self.index.contains(hash)
    }

    /// The (possibly empty) candidate hashes for an epoch. Never fails.
    pub fn candidates(&self, epoch: Epoch) -> (r: Vec<crate::chain::Hash>)
        requires
            self.wf(),
        ensures
            r@ == spec_candidates(self.index.epoch_to_block_hash@, epoch),
    {
        self.index.candidates(epoch)
    }

    /// Processes a new block received from a session: hashes it, rejects
    /// it as a duplicate if the hash is already known, and otherwise
    /// records it as a candidate for its epoch and returns its hash. The
    /// only path by which new blocks enter the system; the chain head is
    /// not touched.
    pub fn process_new_block(&mut self, block: Block) -> (r: Result<
        crate::chain::Hash,
        BlocksManagerError,
    >)
        requires
            old(self).wf(),
        ensures
            final(self).wf(),
            final(self).chain_info == old(self).chain_info,
            match r {
                Ok(h) => {
                    &&& h@ == spec_block_hash(block@)
                    &&& !contains_block(old(self).index.blocks@, h@)
                    &&& final(self).index.blocks@ == old(self).index.blocks@.push((h, block))
                    &&& spec_candidates(final(self).index.epoch_to_block_hash@, block@.checkpoint)
                        == spec_candidates(
                        old(self).index.epoch_to_block_hash@,
                        block@.checkpoint,
                    ).push(h)
                    &&& (forall|e: Epoch|
                        e != block@.checkpoint ==> spec_candidates(
                            final(self).index.epoch_to_block_hash@,
                            e,
                        ) == spec_candidates(old(self).index.epoch_to_block_hash@, e))
                },
                Err(err) => {
                    &&& err == BlocksManagerError::BlockAlreadyExists
                    &&& contains_block(old(self).index.blocks@, spec_block_hash(block@))
                    &&& final(self).index.blocks@ == old(self).index.blocks@
                    &&& final(self).index.epoch_to_block_hash@
                        == old(self).index.epoch_to_block_hash@
                },
            },
            r is Ok <==> !contains_block(old(self).index.blocks@, spec_block_hash(block@)),
    {
        self.index.insert_candidate(block)
    }

    /// A copy of the known block with this hash; `BlockDoesNotExist` when
    /// the hash was never inserted.
    pub fn try_to_get_block(&self, hash: crate::chain::Hash) -> (r: Result<
        Block,
        BlocksManagerError,
    >)
        requires
            self.wf(),
        ensures
            match r {
                Ok(b) => spec_find_block(self.index.blocks@, hash@) matches Some(b0) && b@ == b0@,
                Err(e) => !contains_block(self.index.blocks@, hash@) && e
                    == BlocksManagerError::BlockDoesNotExist,
            },
            r is Ok <==> contains_block(self.index.blocks@, hash@),
    {
        self.index.get(&hash)
    }

    /// Filters the offered inventory vectors down to the ones this node is
    /// missing, preserving their order. Always succeeds.
    pub fn discard_existing_inv_vectors(&self, inv_vectors: Vec<InvVector>) -> (r: InvVectorsResult)
        ensures
            r matches Ok(out) && out@ == spec_missing(self.index.blocks@, inv_vectors@),
    {
        Ok(missing(&self.index, inv_vectors))
    }

    /// Consolidates an epoch: selects the canonical candidate under the
    /// tie-break rule, advances the in-memory chain head optimistically,
    /// and returns the persistence request for the caller to issue (a
    /// failed persistence is logged by the caller and does not roll the
    /// tip back). With no candidates, reports `NoCandidates` and changes
    /// nothing. The persisted head's hash is always a known block.
    pub fn consolidate(&mut self, epoch: Epoch) -> (r: ConsolidationOutcome)
        requires
            old(self).wf(),
        ensures
            final(self).wf(),
            final(self).index.blocks@ == old(self).index.blocks@,
            final(self).index.epoch_to_block_hash@ == old(self).index.epoch_to_block_hash@,
            match r {
                ConsolidationOutcome::Consolidated(h, put) => {
                    &&& is_canonical(old(self).index, epoch, h)
                    &&& contains_block(old(self).index.blocks@, h@)
                    &&& final(self).chain_info matches Some(ci) && ci == (ChainInfo {
                        highest_block_checkpoint: CheckpointBeacon {
                            checkpoint: epoch,
                            hash_prev_block: h,
                        },
                    }) && put.key@ == spec_chain_key() && put.value@ == spec_chain_info_bytes(ci)
                },
                ConsolidationOutcome::NoCandidates => {
                    &&& spec_candidates(old(self).index.epoch_to_block_hash@, epoch).len() == 0
                    &&& final(self).chain_info == old(self).chain_info
                },
            },
            (r is NoCandidates) <==> spec_candidates(
                old(self).index.epoch_to_block_hash@,
                epoch,
            ).len() == 0,
    {
        match select_canonical(&self.index, epoch) {
            Some(h) => {
                let ci = ChainInfo {
                    highest_block_checkpoint: CheckpointBeacon {
                        checkpoint: epoch,
                        hash_prev_block: h,
                    },
                };
                self.chain_info = Some(ci);
                let put = Put::from_value(chain_key(), &ci);
                match put {
                    Ok(p) => ConsolidationOutcome::Consolidated(h, p),
                    Err(_) => ConsolidationOutcome::Consolidated(h, Put::new(chain_key(), Vec::new())),
                }
            },
            None => ConsolidationOutcome::NoCandidates,
        }
    }

    /// Adopts the chain head found in storage, or initializes a fresh
    /// genesis-equivalent head when storage holds none. `stored` is what
    /// the storage collaborator returned for the chain-head key. Returns
    /// the persistence request to issue when a fresh head was created, and
    /// `StorageError` when the stored bytes do not decode (the one
    /// condition that should abort startup).
    pub fn load_or_init(&mut self, stored: Option<Vec<u8>>) -> (r: Result<
        Option<Put>,
        BlocksManagerError,
    >)
        ensures
            final(self).index == old(self).index,
            match stored {
                None => r matches Ok(opt) && opt matches Some(put) && final(self).chain_info
                    matches Some(ci) && ci.highest_block_checkpoint.checkpoint == 0
                    && ci.highest_block_checkpoint.hash_prev_block@ == Seq::new(32, |i: int| 0u8)
                    && put.key@ == spec_chain_key() && put.value@ == spec_chain_info_bytes(ci),
                Some(bytes) => {
                    if bytes@.len() == chain_info_byte_len() {
                        r matches Ok(opt) && opt is None && (final(self).chain_info matches Some(ci)
                            && spec_chain_info_bytes(ci) == bytes@)
                    } else {
                        r matches Err(e) && e == BlocksManagerError::StorageError
                            && final(self).chain_info == old(self).chain_info
                    }
                },
            },
    {
        match stored {
            None => {
                let ci = ChainInfo::genesis();
                self.chain_info = Some(ci);
                match Put::from_value(chain_key(), &ci) {
                    Ok(p) => Ok(Some(p)),
                    Err(_) => Ok(Some(Put::new(chain_key(), Vec::new()))),
                }
            },
            Some(bytes) => {
                match chain_info_from_bytes(&bytes) {
                    Some(ci) => {
                        self.chain_info = Some(ci);
                        Ok(None)
                    },
                    None => Err(BlocksManagerError::StorageError),
                }
            },
        }
    }

    /// The in-memory chain head; never blocks and never fails. Before
    /// initialization it is the genesis-equivalent default (a condition
    /// that must not occur once `load_or_init` has completed).
    pub fn current(&self) -> (r: ChainInfo)
        ensures
            self.chain_info matches Some(ci) ==> r == ci,
            self.chain_info is None ==> r.highest_block_checkpoint.checkpoint == 0
                && r.highest_block_checkpoint.hash_prev_block@ == Seq::new(32, |i: int| 0u8),
    {
        match &self.chain_info {
            Some(ci) => *ci,
            None => ChainInfo::genesis(),
        }
    }

    /// The epoch of the current chain tip, as used in handshake fields.
    pub fn current_tip_epoch(&self) -> (r: Epoch)
        ensures
            self.chain_info matches Some(ci) ==> r == ci.highest_block_checkpoint.checkpoint,
            self.chain_info is None ==> r == 0,
    {
        self.current().highest_block_checkpoint.checkpoint
    }

    /// The persistence request for the current chain head: a `Put` of its
    /// serialization under the chain-head key, or nothing when no head is
    /// held yet (persisting before initialization is a caller error, to be
    /// logged and skipped, never a crash).
    pub fn persist_chain_info(&self) -> (r: Option<Put>)
        ensures
            match self.chain_info {
                Some(ci) => r matches Some(put) && put.key@ == spec_chain_key() && put.value@
                    == spec_chain_info_bytes(ci),
                None => r is None,
            },
    {
        match &self.chain_info {
            Some(ci) => {
                match Put::from_value(chain_key(), ci) {
                    Ok(p) => Some(p),
                    Err(_) => Some(Put::new(chain_key(), Vec::new())),
                }
            },
            None => None,
        }
    }
}

} // verus!
