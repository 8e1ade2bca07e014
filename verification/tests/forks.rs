use pp_blockchain::block::Block;
use pp_blockchain::blockchain::Blockchain;
use pp_blockchain::transaction::Transaction;

/// A hash-consistent chain of `len` blocks starting from the genesis
/// sentinel. No proof-of-work is run: whole-chain validation deliberately
/// does not re-check the difficulty target.
fn linked_chain(len: usize, seed: u64) -> Vec<Block> {
    let mut chain = vec![Block::with_timestamp(vec![], "0".to_string(), seed)];
    for i in 1..len {
        let prev_hash = chain[i - 1].hash.clone();
        chain.push(Block::with_timestamp(vec![], prev_hash, seed + i as u64));
    }
    chain
}

fn three_block_ledger() -> Blockchain {
    let mut bc = Blockchain::new().unwrap();
    bc.difficulty = 1;
    bc.mine_pending_transactions("m".to_string()).unwrap();
    bc.mine_pending_transactions("m".to_string()).unwrap();
    assert_eq!(bc.chain.len(), 3);
    bc
}

#[test]
fn longer_valid_candidate_replaces_the_chain() {
    let mut bc = three_block_ledger();
    let candidate = linked_chain(4, 1000);
    let expected_tip = candidate[3].hash.clone();
    assert!(bc.resolve_conflicts(vec![candidate]));
    assert_eq!(bc.chain.len(), 4);
    assert_eq!(bc.chain[3].hash, expected_tip);
}

#[test]
fn equal_length_candidate_does_not_replace() {
    let mut bc = three_block_ledger();
    let old_tip = bc.chain[2].hash.clone();
    let candidate = linked_chain(3, 1000);
    assert!(!bc.resolve_conflicts(vec![candidate]));
    assert_eq!(bc.chain.len(), 3);
    assert_eq!(bc.chain[2].hash, old_tip);
}

#[test]
fn shorter_candidate_does_not_replace() {
    let mut bc = three_block_ledger();
    assert!(!bc.resolve_conflicts(vec![linked_chain(2, 1000)]));
    assert_eq!(bc.chain.len(), 3);
}

#[test]
fn invalid_longer_candidate_does_not_replace() {
    let mut bc = three_block_ledger();
    let mut candidate = linked_chain(5, 1000);
    candidate[3].previous_hash = "broken".to_string();
    assert!(!bc.resolve_conflicts(vec![candidate]));
    assert_eq!(bc.chain.len(), 3);
}

#[test]
fn candidate_without_genesis_sentinel_does_not_replace() {
    let mut bc = three_block_ledger();
    let mut candidate = linked_chain(4, 1000);
    candidate[0].previous_hash = "1".to_string();
    assert!(!bc.resolve_conflicts(vec![candidate]));
    assert_eq!(bc.chain.len(), 3);
}

#[test]
fn candidate_with_inconsistent_hash_does_not_replace() {
    let mut bc = three_block_ledger();
    let mut candidate = linked_chain(4, 1000);
    candidate[2].timestamp += 1;
    assert!(!bc.resolve_conflicts(vec![candidate]));
    assert_eq!(bc.chain.len(), 3);
}

#[test]
fn the_longest_valid_candidate_wins() {
    let mut bc = three_block_ledger();
    let four = linked_chain(4, 1000);
    let six = linked_chain(6, 2000);
    let mut broken_seven = linked_chain(7, 3000);
    broken_seven[5].previous_hash = "broken".to_string();
    let expected_tip = six[5].hash.clone();
    assert!(bc.resolve_conflicts(vec![four, broken_seven, six]));
    assert_eq!(bc.chain.len(), 6);
    assert_eq!(bc.chain[5].hash, expected_tip);
}

#[test]
fn resolution_leaves_pool_and_configuration_alone() {
    let mut bc = three_block_ledger();
    bc.create_transaction(Transaction::with_timestamp("a".to_string(), "b".to_string(), 1, 1));
    let pool_len = bc.pending_transactions.len();
    assert!(bc.resolve_conflicts(vec![linked_chain(4, 1000)]));
    assert_eq!(bc.pending_transactions.len(), pool_len);
    assert_eq!(bc.difficulty, 1);
    assert_eq!(bc.mining_reward, 100);
}

#[test]
fn no_candidates_changes_nothing() {
    let mut bc = three_block_ledger();
    let old_tip = bc.chain[2].hash.clone();
    assert!(!bc.resolve_conflicts(vec![]));
    assert_eq!(bc.chain[2].hash, old_tip);
}

#[test]
fn unmined_but_consistent_chain_passes_whole_chain_validation() {
    // The flagged discrepancy between the two validity checks: whole-chain
    // validation accepts a chain whose hashes meet no difficulty target,
    // while single-block acceptance would reject each of its blocks.
    let bc = three_block_ledger();
    let candidate = linked_chain(4, 1000);
    assert!(bc.is_valid_chain(&candidate));
    let mut other = Blockchain::with_genesis_timestamp(5);
    other.chain = candidate;
    assert!(other.is_chain_valid());
}
