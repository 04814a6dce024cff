use blocks_manager::chain::{
    Block, BlockHeader, BlockHeaderWithProof, CheckpointBeacon, InvVector, LeadershipProof,
    Transaction,
};
use blocks_manager::BlocksManager;

fn sha(bytes: [u8; 32]) -> blocks_manager::chain::Hash {
    blocks_manager::chain::Hash::SHA256(bytes)
}

fn build_hardcoded_block(checkpoint: u32, influence: u64) -> Block {
    Block {
        header: BlockHeaderWithProof {
            block_header: BlockHeader {
                version: 1,
                beacon: CheckpointBeacon {
                    checkpoint,
                    hash_prev_block: sha([4; 32]),
                },
                hash_merkle_root: sha([3; 32]),
            },
            proof: LeadershipProof {
                block_sig: None,
                influence,
            },
        },
        txn_count: 1,
        txns: vec![Transaction],
    }
}

#[test]
fn add_block() {
    let mut bm = BlocksManager::default();

    // Build hardcoded block
    let checkpoint = 2;
    let block_a = build_hardcoded_block(checkpoint, 99999);

    // Add block to BlocksManager
    let hash_a = bm.process_new_block(block_a.clone()).unwrap();

    // Check the block is added into the blocks map
    assert_eq!(bm.num_blocks(), 1);
    assert_eq!(bm.try_to_get_block(hash_a).unwrap(), block_a);

    // Check the block is added into the epoch-to-hash map
    assert_eq!(bm.candidates(checkpoint).len(), 1);
    assert_eq!(bm.candidates(checkpoint)[0], hash_a);
}

#[test]
fn add_same_block_twice() {
    let mut bm = BlocksManager::default();

    // Build hardcoded block
    let block = build_hardcoded_block(2, 99999);

    // Only the first block will be inserted
    assert!(bm.process_new_block(block.clone()).is_ok());
    assert!(bm.process_new_block(block).is_err());
    assert_eq!(bm.num_blocks(), 1);
}

#[test]
fn add_blocks_same_epoch() {
    let mut bm = BlocksManager::default();

    // Build hardcoded blocks
    let checkpoint = 2;
    let block_a = build_hardcoded_block(checkpoint, 99999);
    let block_b = build_hardcoded_block(checkpoint, 12345);

    // Add blocks to the BlocksManager
    let hash_a = bm.process_new_block(block_a).unwrap();
    let hash_b = bm.process_new_block(block_b).unwrap();

    // Check that both blocks are stored in the same epoch
    assert_eq!(bm.candidates(checkpoint).len(), 2);
    assert!(bm.candidates(checkpoint).contains(&hash_a));
    assert!(bm.candidates(checkpoint).contains(&hash_b));
}

#[test]
fn get_existing_block() {
    // Create empty BlocksManager
    let mut bm = BlocksManager::default();

    // Create a hardcoded block
    let block_a = build_hardcoded_block(2, 99999);

    // Add the block to the BlocksManager
    let hash_a = bm.process_new_block(block_a.clone()).unwrap();

    // Try to get the block from the BlocksManager
    let stored_block = bm.try_to_get_block(hash_a).unwrap();

    assert_eq!(stored_block, block_a);
}

#[test]
fn get_non_existent_block() {
    // Create empty BlocksManager
    let bm = BlocksManager::default();

    // Try to get a block with an invented hash
    let result = bm.try_to_get_block(sha([1; 32]));

    // Check that an error was obtained
    assert!(result.is_err());
}

#[test]
fn discard_all() {
    // Create empty BlocksManager
    let mut bm = BlocksManager::default();

    // Build blocks
    let block_a = build_hardcoded_block(2, 99999);
    let block_b = build_hardcoded_block(1, 10000);
    let block_c = build_hardcoded_block(3, 72138);

    // Add blocks to the BlocksManager
    let hash_a = bm.process_new_block(block_a.clone()).unwrap();
    let hash_b = bm.process_new_block(block_b.clone()).unwrap();
    let hash_c = bm.process_new_block(block_c.clone()).unwrap();

    // Build vector of inventory vectors from hashes
    let mut inv_vectors = Vec::new();
    inv_vectors.push(InvVector::Block(hash_a));
    inv_vectors.push(InvVector::Block(hash_b));
    inv_vectors.push(InvVector::Block(hash_c));

    // Filter inventory vectors
    let missing_inv_vectors = bm.discard_existing_inv_vectors(inv_vectors).unwrap();

    // Check there is no missing inventory vector
    assert!(missing_inv_vectors.is_empty());
}

#[test]
fn discard_some() {
    // Create empty BlocksManager
    let mut bm = BlocksManager::default();

    // Build blocks
    let block_a = build_hardcoded_block(2, 99999);
    let block_b = build_hardcoded_block(1, 10000);
    let block_c = build_hardcoded_block(3, 72138);

    // Add blocks to the BlocksManager
    let hash_a = bm.process_new_block(block_a.clone()).unwrap();
    let hash_b = bm.process_new_block(block_b.clone()).unwrap();
    let hash_c = bm.process_new_block(block_c.clone()).unwrap();

    // Missing inventory vector
    let missing_inv_vector = InvVector::Block(sha([1; 32]));

    // Build vector of inventory vectors from hashes
    let mut inv_vectors = Vec::new();
    inv_vectors.push(InvVector::Block(hash_a));
    inv_vectors.push(InvVector::Block(hash_b));
    inv_vectors.push(InvVector::Block(hash_c));
    inv_vectors.push(missing_inv_vector.clone());

    // Filter inventory vectors
    let missing_inv_vectors = bm.discard_existing_inv_vectors(inv_vectors).unwrap();

    // Check the expected missing inventory vectors
    assert_eq!(missing_inv_vectors, vec![missing_inv_vector]);
}

#[test]
fn discard_none() {
    // Create empty BlocksManager
    let mut bm = BlocksManager::default();

    // Build blocks
    let block_a = build_hardcoded_block(2, 99999);
    let block_b = build_hardcoded_block(1, 10000);
    let block_c = build_hardcoded_block(3, 72138);

    // Add blocks to the BlocksManager
    bm.process_new_block(block_a.clone()).unwrap();
    bm.process_new_block(block_b.clone()).unwrap();
    bm.process_new_block(block_c.clone()).unwrap();

    // Missing inventory vector
    let missing_inv_vector_1 = InvVector::Block(sha([1; 32]));
    let missing_inv_vector_2 = InvVector::Block(sha([2; 32]));
    let missing_inv_vector_3 = InvVector::Block(sha([3; 32]));

    // Build vector of missing inventory vectors from hashes
    let mut inv_vectors = Vec::new();
    inv_vectors.push(missing_inv_vector_1);
    inv_vectors.push(missing_inv_vector_2);
    inv_vectors.push(missing_inv_vector_3);

    // Filter inventory vectors
    let missing_inv_vectors = bm
        .discard_existing_inv_vectors(inv_vectors.clone())
        .unwrap();

    // Check there is no missing inventory vector
    assert_eq!(missing_inv_vectors, inv_vectors);
}
