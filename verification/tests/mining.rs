use pp_blockchain::block::{has_leading_zeros, Block};
use pp_blockchain::transaction::Transaction;

#[test]
fn leading_zero_check() {
    assert!(has_leading_zeros("0000abcd", 4));
    assert!(has_leading_zeros("0000abcd", 0));
    assert!(!has_leading_zeros("0001abcd", 4));
    assert!(!has_leading_zeros("00", 4));
    assert!(has_leading_zeros("", 0));
    assert!(!has_leading_zeros("", 1));
}

#[test]
fn mined_block_meets_difficulty() {
    let t = Transaction::with_timestamp("a".to_string(), "b".to_string(), 3, 4);
    let mut b = Block::with_timestamp(vec![t], "prev".to_string(), 5);
    b.mine_block(2).unwrap();
    assert!(has_leading_zeros(&b.hash, 2));
    assert!(b.hash.starts_with("00"));
    assert_eq!(b.hash, b.calculate_hash());
}

#[test]
fn mined_nonce_is_the_smallest_solving_one() {
    let mut b = Block::with_timestamp(vec![], "prev".to_string(), 5);
    b.mine_block(2).unwrap();
    let solved = b.nonce;
    for n in 0..solved {
        let mut probe = b.clone();
        probe.nonce = n;
        assert!(!has_leading_zeros(&probe.calculate_hash(), 2));
    }
}

#[test]
fn mining_leaves_other_fields_alone() {
    let t = Transaction::with_timestamp("x".to_string(), "y".to_string(), 9, 9);
    let mut b = Block::with_timestamp(vec![t], "tip".to_string(), 77);
    b.mine_block(1).unwrap();
    assert_eq!(b.timestamp, 77);
    assert_eq!(b.previous_hash, "tip");
    assert_eq!(b.transactions.len(), 1);
    assert_eq!(b.transactions[0].from_address, "x");
}

#[test]
fn mining_at_zero_difficulty_keeps_the_block_as_built() {
    // Every hash has at least zero leading zeros, so nonce 0 already solves.
    let mut b = Block::with_timestamp(vec![], "prev".to_string(), 1);
    let before = b.hash.clone();
    b.mine_block(0).unwrap();
    assert_eq!(b.nonce, 0);
    assert_eq!(b.hash, before);
}
