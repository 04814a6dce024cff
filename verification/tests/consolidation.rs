use blocks_manager::chain::{
    Block, BlockHeader, BlockHeaderWithProof, ChainInfo, CheckpointBeacon, InvVector,
    LeadershipProof, Signature, Transaction,
};
use blocks_manager::serial::{chain_info_from_bytes, chain_info_to_bytes};
use blocks_manager::{BlocksManager, BlocksManagerError, ConsolidationOutcome};

fn sha(bytes: [u8; 32]) -> blocks_manager::chain::Hash {
    blocks_manager::chain::Hash::SHA256(bytes)
}

fn digest_bytes(h: &blocks_manager::chain::Hash) -> [u8; 32] {
    let blocks_manager::chain::Hash::SHA256(bytes) = h;
    *bytes
}

fn build_block(checkpoint: u32, influence: u64, merkle: u8) -> Block {
    Block {
        header: BlockHeaderWithProof {
            block_header: BlockHeader {
                version: 1,
                beacon: CheckpointBeacon {
                    checkpoint,
                    hash_prev_block: sha([4; 32]),
                },
                hash_merkle_root: sha([merkle; 32]),
            },
            proof: LeadershipProof {
                block_sig: None,
                influence,
            },
        },
        txn_count: 1,
        txns: vec![Transaction],
    }
}

#[test]
fn consolidate_selects_greatest_influence() {
    // Two candidates at the same epoch, influences 99999 and 12345: the
    // 99999 one wins regardless of insertion order.
    for reversed in [false, true] {
        let mut bm = BlocksManager::default();
        let strong = build_block(2, 99999, 3);
        let weak = build_block(2, 12345, 3);
        let (hash_strong, _hash_weak) = if reversed {
            let hw = bm.process_new_block(weak.clone()).unwrap();
            let hs = bm.process_new_block(strong.clone()).unwrap();
            (hs, hw)
        } else {
            let hs = bm.process_new_block(strong.clone()).unwrap();
            let hw = bm.process_new_block(weak.clone()).unwrap();
            (hs, hw)
        };
        match bm.consolidate(2) {
            ConsolidationOutcome::Consolidated(h, put) => {
                assert_eq!(h, hash_strong);
                assert_eq!(put.key, b"chain".to_vec());
                let expected = ChainInfo {
                    highest_block_checkpoint: CheckpointBeacon {
                        checkpoint: 2,
                        hash_prev_block: h,
                    },
                };
                assert_eq!(put.value, chain_info_to_bytes(&expected));
                assert_eq!(bm.current(), expected);
                assert_eq!(bm.current_tip_epoch(), 2);
            }
            ConsolidationOutcome::NoCandidates => panic!("expected a canonical block"),
        }
    }
}

#[test]
fn consolidate_tie_break_smallest_hash() {
    // Equal influence: the lexicographically smallest hash wins, in both
    // insertion orders.
    let block_a = build_block(5, 7777, 1);
    let block_b = build_block(5, 7777, 2);
    let mut winners = Vec::new();
    for reversed in [false, true] {
        let mut bm = BlocksManager::default();
        let (first, second) = if reversed {
            (block_b.clone(), block_a.clone())
        } else {
            (block_a.clone(), block_b.clone())
        };
        let h1 = bm.process_new_block(first).unwrap();
        let h2 = bm.process_new_block(second).unwrap();
        let smallest = if digest_bytes(&h1) < digest_bytes(&h2) {
            h1
        } else {
            h2
        };
        match bm.consolidate(5) {
            ConsolidationOutcome::Consolidated(h, _put) => {
                assert_eq!(h, smallest);
                winners.push(h);
            }
            ConsolidationOutcome::NoCandidates => panic!("expected a canonical block"),
        }
    }
    assert_eq!(winners[0], winners[1]);
}

#[test]
fn consolidate_empty_epoch_is_no_candidates() {
    let mut bm = BlocksManager::default();
    bm.process_new_block(build_block(2, 99999, 3)).unwrap();
    assert!(matches!(bm.consolidate(7), ConsolidationOutcome::NoCandidates));
    // The chain head is untouched.
    assert_eq!(bm.current_tip_epoch(), 0);
}

#[test]
fn scenario_three_epochs_and_one_unknown_vector() {
    // Three blocks at checkpoints 2, 1, 3 with influences 99999, 10000 and
    // 72138: each epoch holds a singleton candidate set, and reconciling
    // their vectors plus one unknown vector returns exactly the unknown
    // one, preserving its position.
    let mut bm = BlocksManager::default();
    let hash_a = bm.process_new_block(build_block(2, 99999, 3)).unwrap();
    let hash_b = bm.process_new_block(build_block(1, 10000, 3)).unwrap();
    let hash_c = bm.process_new_block(build_block(3, 72138, 3)).unwrap();

    assert_eq!(bm.candidates(2), vec![hash_a]);
    assert_eq!(bm.candidates(1), vec![hash_b]);
    assert_eq!(bm.candidates(3), vec![hash_c]);

    let unknown = InvVector::Block(sha([9; 32]));
    let inv_vectors = vec![
        InvVector::Block(hash_a),
        unknown.clone(),
        InvVector::Block(hash_b),
        InvVector::Block(hash_c),
    ];
    let missing = bm.discard_existing_inv_vectors(inv_vectors).unwrap();
    assert_eq!(missing, vec![unknown]);
}

#[test]
fn reconcile_is_idempotent() {
    let mut bm = BlocksManager::default();
    bm.process_new_block(build_block(2, 99999, 3)).unwrap();
    let known = InvVector::Block(bm.candidates(2)[0]);
    let unknown_1 = InvVector::Tx(sha([8; 32]));
    let unknown_2 = InvVector::Block(sha([9; 32]));
    let inv_vectors = vec![unknown_1.clone(), known, unknown_2.clone()];
    let once = bm.discard_existing_inv_vectors(inv_vectors).unwrap();
    let twice = bm.discard_existing_inv_vectors(once.clone()).unwrap();
    assert_eq!(once, vec![unknown_1, unknown_2]);
    assert_eq!(twice, once);
}

#[test]
fn reconcile_after_insert_removes_exactly_that_entry() {
    let mut bm = BlocksManager::default();
    let block = build_block(2, 99999, 3);
    let pending = vec![
        InvVector::Block(sha([9; 32])),
        InvVector::Block(blocks_manager::hashing::block_hash(&block)),
        InvVector::Block(sha([7; 32])),
    ];
    let before = bm.discard_existing_inv_vectors(pending.clone()).unwrap();
    assert_eq!(before, pending);
    let hash = bm.process_new_block(block).unwrap();
    let after = bm.discard_existing_inv_vectors(pending.clone()).unwrap();
    assert_eq!(after, vec![pending[0].clone(), pending[2].clone()]);
    assert_eq!(pending[1], InvVector::Block(hash));
}

#[test]
fn load_or_init_empty_storage() {
    // Startup with empty storage: a default chain head is adopted and
    // exactly one Put for the chain-head key is handed back.
    let mut bm = BlocksManager::default();
    let puts = bm.load_or_init(None).unwrap();
    let put = puts.expect("a fresh head must be persisted once");
    assert_eq!(put.key, b"chain".to_vec());
    let head = bm.current();
    assert_eq!(head.highest_block_checkpoint.checkpoint, 0);
    assert_eq!(
        head.highest_block_checkpoint.hash_prev_block,
        sha([0; 32])
    );
    assert_eq!(put.value, chain_info_to_bytes(&head));
}

#[test]
fn load_or_init_recovers_persisted_head() {
    let stored = ChainInfo {
        highest_block_checkpoint: CheckpointBeacon {
            checkpoint: 42,
            hash_prev_block: sha([6; 32]),
        },
    };
    let bytes = chain_info_to_bytes(&stored);
    let mut bm = BlocksManager::default();
    let puts = bm.load_or_init(Some(bytes)).unwrap();
    assert!(puts.is_none());
    assert_eq!(bm.current(), stored);
    assert_eq!(bm.current_tip_epoch(), 42);
}

#[test]
fn load_or_init_rejects_corrupt_bytes() {
    let mut bm = BlocksManager::default();
    let err = bm.load_or_init(Some(vec![1, 2, 3])).unwrap_err();
    assert_eq!(err, BlocksManagerError::StorageError);
}

#[test]
fn chain_info_round_trip() {
    let head = ChainInfo {
        highest_block_checkpoint: CheckpointBeacon {
            checkpoint: 7,
            hash_prev_block: sha([5; 32]),
        },
    };
    let bytes = chain_info_to_bytes(&head);
    assert_eq!(bytes.len(), 36);
    assert_eq!(chain_info_from_bytes(&bytes), Some(head));
    assert_eq!(chain_info_from_bytes(&vec![0; 35]), None);
}

#[test]
fn signed_blocks_hash_differently() {
    // The signature bytes take part in the canonical serialization, so a
    // signed block is a different entity than its unsigned twin.
    let unsigned = build_block(2, 99999, 3);
    let mut signed = build_block(2, 99999, 3);
    signed.header.proof.block_sig = Some(Signature { bytes: vec![1, 2, 3] });
    let mut bm = BlocksManager::default();
    let h1 = bm.process_new_block(unsigned).unwrap();
    let h2 = bm.process_new_block(signed).unwrap();
    assert_ne!(h1, h2);
    assert_eq!(bm.num_blocks(), 2);
}

#[test]
fn sha256_matches_reference_vector() {
    // SHA-256 of the ASCII bytes "abc".
    let data = vec![97u8, 98, 99];
    let expected: [u8; 32] = [
        0xba, 0x78, 0x16, 0xbf, 0x8f, 0x01, 0xcf, 0xea, 0x41, 0x41, 0x40, 0xde, 0x5d, 0xae,
        0x22, 0x23, 0xb0, 0x03, 0x61, 0xa3, 0x96, 0x17, 0x7a, 0x9c, 0xb4, 0x10, 0xff, 0x61,
        0xf2, 0x00, 0x15, 0xad,
    ];
    assert_eq!(blocks_manager::hashing::calculate_sha256(&data), sha(expected));
}

#[test]
fn storage_message_constructors() {
    let get = blocks_manager::Get::new(b"chain".to_vec());
    assert_eq!(get.key, b"chain".to_vec());
    let put = blocks_manager::Put::new(b"chain".to_vec(), vec![1, 2]);
    assert_eq!(put.key, b"chain".to_vec());
    assert_eq!(put.value, vec![1, 2]);
    let del = blocks_manager::Delete::new(b"chain".to_vec());
    assert_eq!(del.key, b"chain".to_vec());
}

#[test]
fn empty_inputs() {
    let bm = BlocksManager::default();
    // Reconciling an empty offer yields an empty request list.
    assert_eq!(bm.discard_existing_inv_vectors(Vec::new()).unwrap(), Vec::new());
    // An epoch nobody proposed for has no candidates.
    assert!(bm.candidates(123).is_empty());
    assert_eq!(bm.num_blocks(), 0);
}

#[test]
fn hash_comparisons() {
    let small = sha([1; 32]);
    let big = sha([2; 32]);
    assert!(small.eq_hash(&small));
    assert!(!small.eq_hash(&big));
    assert!(small.lex_lt(&big));
    assert!(!big.lex_lt(&small));
    assert!(!small.lex_lt(&small));
}
