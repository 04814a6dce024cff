//! Core data model: hashes, epochs, beacons, blocks, chain-head metadata
//! and inventory vectors.

use vstd::prelude::*;

verus! {

/// A discrete protocol time slot (also called a checkpoint). Multiple
/// blocks may be proposed for the same epoch until consolidation.
pub type Epoch = u32;

/// A 256-bit content digest acting as a block's primary key: equality of
/// hashes is treated as equality of content.
#[derive(Clone, Copy, Debug, PartialEq, Eq)]
pub enum Hash {
    SHA256([u8; 32]),
}

impl View for Hash {
    type V = Seq<u8>;

    open spec fn view(&self) -> Seq<u8> {
        match self {
            Hash::SHA256(bytes) => bytes@,
        }
    }
}

/// Lexicographic strict order on two 32-byte digests: some position holds
/// a smaller byte while all earlier positions agree.
pub open spec fn hash_lex_lt(a: Seq<u8>, b: Seq<u8>) -> bool {
    exists|i: int|
        0 <= i < 32 && a[i] < b[i] && (forall|j: int| 0 <= j < i ==> a[j] == b[j])
}

impl Hash {
    /// Equality of the digests, byte for byte.
    pub fn eq_hash(&self, other: &Hash) -> (r: bool)
        ensures
            r == (self@ == other@),
    {
        let Hash::SHA256(a) = self;
        let Hash::SHA256(b) = other;
        for i in 0..32
            invariant
                self@ == a@,
                other@ == b@,
                forall|j: int| 0 <= j < i ==> a@[j] == b@[j],
        {
            if a[i] != b[i] {
                proof {
                    assert(a@[i as int] != b@[i as int]);
                }
                return false;
            }
        }
        proof {
            assert(a@ =~= b@);
        }
        true
    }

    /// Strict lexicographic comparison of the digests, used as the
    /// consolidation tie-break.
    pub fn lex_lt(&self, other: &Hash) -> (r: bool)
        ensures
            r == hash_lex_lt(self@, other@),
    {
        let Hash::SHA256(a) = self;
        let Hash::SHA256(b) = other;
        for i in 0..32
            invariant
                self@ == a@,
                other@ == b@,
                forall|j: int| 0 <= j < i ==> a@[j] == b@[j],
        {
            if a[i] < b[i] {
                proof {
                    assert(0 <= i < 32 && a@[i as int] < b@[i as int] && (forall|j: int|
                        0 <= j < i ==> a@[j] == b@[j]));
                }
                return true;
            }
            if a[i] > b[i] {
                proof {
                    lemma_no_lex_witness(a@, b@, i as int);
                }
                return false;
            }
        }
        proof {
            assert(a@ =~= b@);
            if hash_lex_lt(a@, b@) {
                let k = choose|k: int|
                    0 <= k < 32 && a@[k] < b@[k] && (forall|j: int|
                        0 <= j < k ==> a@[j] == b@[j]);
                assert(false);
            }
        }
        false
    }
}

/// If the digests agree up to position `i` and `a` is strictly larger
/// there, then `a` is not lexicographically below `b`.
proof fn lemma_no_lex_witness(a: Seq<u8>, b: Seq<u8>, i: int)
    requires
        0 <= i < 32,
        a[i] > b[i],
        forall|j: int| 0 <= j < i ==> a[j] == b[j],
    ensures
        !hash_lex_lt(a, b),
{
    if hash_lex_lt(a, b) {
        let k = choose|k: int|
            0 <= k < 32 && a[k] < b[k] && (forall|j: int| 0 <= j < k ==> a[j] == b[j]);
        if k < i {
            assert(a[k] == b[k]);
        } else if k > i {
            assert(a[i] == b[i]);
        }
        assert(false);
    }
}

/// The lexicographic order on 32-byte digests is total: two digests are
/// equal or one is strictly below the other, and never both.
pub proof fn lemma_hash_lex_total(a: Seq<u8>, b: Seq<u8>)
    requires
        a.len() == 32,
        b.len() == 32,
    ensures
        hash_lex_lt(a, b) || hash_lex_lt(b, a) || a == b,
        !(hash_lex_lt(a, b) && hash_lex_lt(b, a)),
        hash_lex_lt(a, b) ==> a != b,
{
    if a != b {
        assert(!(a =~= b));
        let k = choose|k: int| 0 <= k < 32 && a[k] != b[k];
        let first = first_diff(a, b, 0);
        lemma_first_diff(a, b, 0, k);
        if a[first] < b[first] {
            assert(hash_lex_lt(a, b));
        } else {
            assert(hash_lex_lt(b, a));
        }
    }
    if hash_lex_lt(a, b) && hash_lex_lt(b, a) {
        let i = choose|i: int|
            0 <= i < 32 && a[i] < b[i] && (forall|j: int| 0 <= j < i ==> a[j] == b[j]);
        let k = choose|k: int|
            0 <= k < 32 && b[k] < a[k] && (forall|j: int| 0 <= j < k ==> b[j] == a[j]);
        if i < k {
            assert(b[i] == a[i]);
        } else if k < i {
            assert(a[k] == b[k]);
        }
        assert(false);
    }
    if hash_lex_lt(a, b) {
        let i = choose|i: int|
            0 <= i < 32 && a[i] < b[i] && (forall|j: int| 0 <= j < i ==> a[j] == b[j]);
        assert(a[i] != b[i]);
    }
}

/// The lexicographic order on digests is transitive.
pub proof fn lemma_hash_lex_trans(a: Seq<u8>, b: Seq<u8>, c: Seq<u8>)
    requires
        hash_lex_lt(a, b),
        hash_lex_lt(b, c),
    ensures
        hash_lex_lt(a, c),
{
    let p = choose|p: int|
        0 <= p < 32 && a[p] < b[p] && (forall|j: int| 0 <= j < p ==> a[j] == b[j]);
    let q = choose|q: int|
        0 <= q < 32 && b[q] < c[q] && (forall|j: int| 0 <= j < q ==> b[j] == c[j]);
    let m = if p <= q {
        p
    } else {
        q
    };
    assert(a[m] < c[m]);
    assert(forall|j: int| 0 <= j < m ==> a[j] == c[j]);
}

/// Hashes with equal digests are the same hash.
pub proof fn lemma_hash_view_eq(h1: Hash, h2: Hash)
    requires
        h1@ == h2@,
    ensures
        h1 == h2,
{
    let Hash::SHA256(a) = h1;
    let Hash::SHA256(b) = h2;
    assert(forall|i: int| 0 <= i < 32 ==> a[i] == b[i]);
    assert(a =~= b);
}

/// Index of the first position where `a` and `b` differ, scanning from `i`.
spec fn first_diff(a: Seq<u8>, b: Seq<u8>, i: int) -> int
    decreases 32 - i,
{
    if i < 0 || i >= 32 {
        32
    } else if a[i] != b[i] {
        i
    } else {
        first_diff(a, b, i + 1)
    }
}

proof fn lemma_first_diff(a: Seq<u8>, b: Seq<u8>, i: int, k: int)
    requires
        0 <= i <= k < 32,
        a[k] != b[k],
        forall|j: int| 0 <= j < i ==> a[j] == b[j],
    ensures
        i <= first_diff(a, b, i) <= k,
        a[first_diff(a, b, i)] != b[first_diff(a, b, i)],
        forall|j: int| 0 <= j < first_diff(a, b, i) ==> a[j] == b[j],
    decreases 32 - i,
{
    if a[i] != b[i] {
    } else {
        lemma_first_diff(a, b, i + 1, k);
    }
}

/// An optional cryptographic signature attached to a leadership proof.
/// Its validity is out of scope: the core only records its bytes.
#[derive(Debug, PartialEq, Eq)]
pub struct Signature {
    /// Raw signature bytes.
    pub bytes: Vec<u8>,
}

impl Clone for Signature {
    fn clone(&self) -> (r: Self)
        ensures
            r.bytes@ == self.bytes@,
    {
        let bytes = clone_byte_vec(&self.bytes);
        Signature { bytes }
    }
}

/// A byte-for-byte copy of a byte vector.
fn clone_byte_vec(v: &Vec<u8>) -> (r: Vec<u8>)
    ensures
        r@ == v@,
{
    let mut out: Vec<u8> = Vec::new();
    for i in 0..v.len()
        invariant
            out@ == v@.subrange(0, i as int),
    {
        out.push(v[i]);
        proof {
            assert(out@ =~= v@.subrange(0, i + 1 as int));
        }
    }
    proof {
        assert(v@.subrange(0, v@.len() as int) =~= v@);
    }
    out
}

/// A block's eligibility proof for its epoch. The influence value is the
/// consolidation tie-break ranking; the signature is carried opaquely.
#[derive(Debug, PartialEq, Eq)]
pub struct LeadershipProof {
    /// Optional signature over the block header.
    pub block_sig: Option<Signature>,
    /// Leadership ranking used to order competing candidates.
    pub influence: u64,
}

/// The signature bytes carried by a proof, when present.
pub open spec fn proof_sig_view(p: LeadershipProof) -> Option<Seq<u8>> {
    match p.block_sig {
        Some(sig) => Some(sig.bytes@),
        None => None,
    }
}

impl Clone for LeadershipProof {
    fn clone(&self) -> (r: Self)
        ensures
            proof_sig_view(r) == proof_sig_view(*self),
            r.influence == self.influence,
    {
        let block_sig = match &self.block_sig {
            Some(sig) => Some(sig.clone()),
            None => None,
        };
        LeadershipProof { block_sig, influence: self.influence }
    }
}

/// A pair (epoch, hash of the previous block) anchoring a block's claimed
/// position in the chain.
#[derive(Clone, Copy, Debug, PartialEq, Eq)]
pub struct CheckpointBeacon {
    /// The epoch this beacon points at.
    pub checkpoint: Epoch,
    /// Hash of the block preceding this position.
    pub hash_prev_block: Hash,
}

/// Block header: version, chain position and merkle root.
#[derive(Clone, Copy, Debug, PartialEq, Eq)]
pub struct BlockHeader {
    /// Protocol version of the block.
    pub version: u32,
    /// Claimed chain position.
    pub beacon: CheckpointBeacon,
    /// Merkle root over the block's transactions.
    pub hash_merkle_root: Hash,
}

/// Block header together with its leadership proof.
#[derive(Debug, PartialEq, Eq)]
pub struct BlockHeaderWithProof {
    /// The plain header.
    pub block_header: BlockHeader,
    /// Eligibility proof for the header's epoch.
    pub proof: LeadershipProof,
}

impl Clone for BlockHeaderWithProof {
    fn clone(&self) -> (r: Self)
        ensures
            r.block_header == self.block_header,
            proof_sig_view(r.proof) == proof_sig_view(self.proof),
            r.proof.influence == self.proof.influence,
    {
        BlockHeaderWithProof { block_header: self.block_header, proof: self.proof.clone() }
    }
}

/// A transaction. The core treats transactions as opaque units: their
/// content is out of scope beyond the count carried by the block.
#[derive(Clone, Copy, Debug, PartialEq, Eq)]
pub struct Transaction;

/// A block: header with proof, plus its transactions. Two blocks are the
/// same entity exactly when their content hashes are equal.
#[derive(Debug, PartialEq, Eq)]
pub struct Block {
    /// Header and leadership proof.
    pub header: BlockHeaderWithProof,
    /// Number of transactions.
    pub txn_count: u32,
    /// The transactions themselves.
    pub txns: Vec<Transaction>,
}

impl Clone for Block {
    fn clone(&self) -> (r: Self)
        ensures
            r@ == self@,
    {
        let mut txns: Vec<Transaction> = Vec::new();
        for i in 0..self.txns.len()
            invariant
                txns@.len() == i,
        {
            txns.push(Transaction);
        }
        Block { header: self.header.clone(), txn_count: self.txn_count, txns }
    }
}

/// Mathematical content of a block: every field the core reads, as plain
/// values.
pub ghost struct BlockView {
    /// Protocol version.
    pub version: u32,
    /// Epoch the block claims.
    pub checkpoint: Epoch,
    /// Digest of the previous block.
    pub hash_prev_block: Seq<u8>,
    /// Merkle root digest.
    pub hash_merkle_root: Seq<u8>,
    /// Signature bytes, when present.
    pub block_sig: Option<Seq<u8>>,
    /// Leadership ranking.
    pub influence: u64,
    /// Declared transaction count.
    pub txn_count: u32,
    /// Number of transactions carried.
    pub txns_len: nat,
}

impl View for Block {
    type V = BlockView;

    open spec fn view(&self) -> BlockView {
        BlockView {
            version: self.header.block_header.version,
            checkpoint: self.header.block_header.beacon.checkpoint,
            hash_prev_block: self.header.block_header.beacon.hash_prev_block@,
            hash_merkle_root: self.header.block_header.hash_merkle_root@,
            block_sig: match self.header.proof.block_sig {
                Some(sig) => Some(sig.bytes@),
                None => None,
            },
            influence: self.header.proof.influence,
            txn_count: self.txn_count,
            txns_len: self.txns@.len(),
        }
    }
}

/// The persisted chain-head metadata: the current tip's beacon.
#[derive(Clone, Copy, Debug, PartialEq, Eq)]
pub struct ChainInfo {
    /// Beacon of the most recently consolidated block.
    pub highest_block_checkpoint: CheckpointBeacon,
}

impl ChainInfo {
    /// The genesis-equivalent chain head: epoch zero, all-zero previous
    /// hash. Used when no chain head has ever been persisted.
    pub fn genesis() -> (r: ChainInfo)
        ensures
            r.highest_block_checkpoint.checkpoint == 0,
            r.highest_block_checkpoint.hash_prev_block@ == Seq::<u8>::new(32, |i: int| 0u8),
    {
        let zero = [0u8; 32];
        assert(zero@ =~= Seq::<u8>::new(32, |i: int| 0u8));
        ChainInfo {
            highest_block_checkpoint: CheckpointBeacon {
                checkpoint: 0,
                hash_prev_block: Hash::SHA256(zero),
            },
        }
    }
}

/// A typed reference to network-replicable content, used to negotiate what
/// a peer is missing. Every variant wraps the content's hash.
#[derive(Clone, Copy, Debug, PartialEq, Eq)]
pub enum InvVector {
    /// Placeholder for content a peer could not serve.
    Error(Hash),
    /// A block.
    Block(Hash),
    /// A transaction.
    Tx(Hash),
    /// A data request.
    DataRequest(Hash),
    /// A data-request result.
    DataResult(Hash),
}

/// The hash wrapped by an inventory vector, whatever its variant.
pub open spec fn inv_vector_hash(v: InvVector) -> Seq<u8> {
    match v {
        InvVector::Error(h) => h@,
        InvVector::Block(h) => h@,
        InvVector::Tx(h) => h@,
        InvVector::DataRequest(h) => h@,
        InvVector::DataResult(h) => h@,
    }
}

impl InvVector {
    /// Extracts the wrapped hash regardless of the variant tag.
    pub fn hash(&self) -> (r: Hash)
        ensures
            r@ == inv_vector_hash(*self),
    {
        match self {
            InvVector::Error(h) => *h,
            InvVector::Block(h) => *h,
            InvVector::Tx(h) => *h,
            InvVector::DataRequest(h) => *h,
            InvVector::DataResult(h) => *h,
        }
    }
}

} // verus!
