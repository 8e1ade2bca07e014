use pp_blockchain::block::Block;
use pp_blockchain::transaction::Transaction;
use sha2::{Digest, Sha256};

fn sha256_hex_of_str(s: &str) -> String {
    format!("{:x}", Sha256::digest(s.as_bytes()))
}

#[test]
fn transaction_hash_is_deterministic() {
    let t = Transaction::with_timestamp("alice".to_string(), "bob".to_string(), 100, 1234);
    let h1 = t.calculate_hash();
    let h2 = t.calculate_hash();
    assert_eq!(h1, h2);
}

#[test]
fn transaction_hash_matches_documented_preimage() {
    // Preimage: from ++ to ++ amount ++ timestamp, integers in decimal.
    let t = Transaction::with_timestamp("a".to_string(), "b".to_string(), 5, 7);
    let expected = sha256_hex_of_str("ab57");
    assert_eq!(t.calculate_hash(), expected);
}

#[test]
fn transaction_hash_is_not_the_preimage() {
    let t = Transaction::with_timestamp("a".to_string(), "b".to_string(), 5, 7);
    let h = t.calculate_hash();
    assert_ne!(h, "ab57");
    assert_eq!(h.len(), 64);
}

#[test]
fn block_hash_is_deterministic() {
    let t = Transaction::with_timestamp("alice".to_string(), "bob".to_string(), 12, 34);
    let b = Block::with_timestamp(vec![t], "prev".to_string(), 99);
    let h1 = b.calculate_hash();
    let h2 = b.calculate_hash();
    assert_eq!(h1, h2);
    assert_eq!(b.hash, h1);
}

#[test]
fn block_hash_matches_documented_preimage() {
    // Preimage: previous_hash ++ timestamp ++ records ++ nonce, where each
    // record is from|to|amount|timestamp; .
    let t1 = Transaction::with_timestamp("a".to_string(), "b".to_string(), 5, 7);
    let t2 = Transaction::with_timestamp("null".to_string(), "m".to_string(), 100, 8);
    let b = Block::with_timestamp(vec![t1, t2], "prev".to_string(), 99);
    let expected = sha256_hex_of_str("prev99a|b|5|7;null|m|100|8;0");
    assert_eq!(b.hash, expected);
    assert_eq!(b.calculate_hash(), expected);
}

#[test]
fn block_hash_of_empty_transaction_list() {
    let b = Block::with_timestamp(vec![], "0".to_string(), 0);
    let expected = sha256_hex_of_str("000");
    assert_eq!(b.hash, expected);
}

#[test]
fn block_hash_depends_on_every_field() {
    let base = Block::with_timestamp(vec![], "p".to_string(), 1);
    let other_prev = Block::with_timestamp(vec![], "q".to_string(), 1);
    let other_time = Block::with_timestamp(vec![], "p".to_string(), 2);
    let t = Transaction::with_timestamp("a".to_string(), "b".to_string(), 1, 1);
    let other_txs = Block::with_timestamp(vec![t], "p".to_string(), 1);
    assert_ne!(base.hash, other_prev.hash);
    assert_ne!(base.hash, other_time.hash);
    assert_ne!(base.hash, other_txs.hash);
    let mut other_nonce = Block::with_timestamp(vec![], "p".to_string(), 1);
    other_nonce.nonce = 1;
    assert_ne!(base.hash, other_nonce.calculate_hash());
}
