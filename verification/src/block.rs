use vstd::prelude::*;
use vstd::string::*;

use crate::errors::LedgerError;
use crate::hashing::{sha256_hex, sha256_hex_of};
use crate::numeral::{dec_chars, u64_to_dec};
use crate::transaction::Transaction;

verus! {

/// An ordered batch of transactions linked to its predecessor by hash and
/// carrying a proof-of-work nonce. `hash` is over all the other fields;
/// a block is mined once `hash` meets the leading-zero difficulty target.
#[derive(Debug)]
pub struct Block {
    pub timestamp: u64,
    pub transactions: Vec<Transaction>,
    pub previous_hash: String,
    pub hash: String,
    pub nonce: u64,
}

/// One transaction inside the canonical serialization of a block's
/// transaction list: the four fields in order, separated by `'|'` and closed
/// by `';'`. Field order and formatting are fixed, so the serialization is
/// byte-stable across nodes.
pub open spec fn tx_record(t: Transaction) -> Seq<char> {
    t.from_address@ + seq!['|'] + t.to_address@ + seq!['|'] + dec_chars(t.amount as nat)
        + seq!['|'] + dec_chars(t.timestamp as nat) + seq![';']
}

/// The canonical serialization of a transaction list: the records in order.
pub open spec fn txs_records(ts: Seq<Transaction>) -> Seq<char>
    decreases ts.len(),
{
    if ts.len() == 0 {
        Seq::empty()
    } else {
        txs_records(ts.drop_last()) + tx_record(ts.last())
    }
}

/// The hashed preimage of a block: previous hash, timestamp, canonical
/// transaction serialization and nonce, concatenated in that order.
pub open spec fn block_preimage(
    previous_hash: Seq<char>,
    timestamp: u64,
    ts: Seq<Transaction>,
    nonce: u64,
) -> Seq<char> {
    previous_hash + dec_chars(timestamp as nat) + txs_records(ts) + dec_chars(nonce as nat)
}

/// The hash a block with these fields would carry at the given nonce.
pub open spec fn hash_at(
    previous_hash: Seq<char>,
    timestamp: u64,
    ts: Seq<Transaction>,
    nonce: u64,
) -> Seq<char> {
    sha256_hex_of(block_preimage(previous_hash, timestamp, ts, nonce))
}

/// The hash a block's fields determine; a consistent block stores exactly it.
pub open spec fn spec_block_hash(b: Block) -> Seq<char> {
    hash_at(b.previous_hash@, b.timestamp, b.transactions@, b.nonce)
}

/// The difficulty target: at least `d` leading `'0'` hex characters.
pub open spec fn meets_difficulty(h: Seq<char>, d: nat) -> bool {
    d <= h.len() && forall|i: int| 0 <= i < d ==> h[i] == '0'
}

/// Whether `h` starts with at least `difficulty` `'0'` characters.
pub fn has_leading_zeros(h: &str, difficulty: usize) -> (r: bool)
    ensures
        r == meets_difficulty(h@, difficulty as nat),
{
    let len = h.unicode_len();
    if len < difficulty {
        return false;
    }
    let mut i: usize = 0;
    while i < difficulty
        invariant
            i <= difficulty,
            difficulty <= h@.len(),
            forall|j: int| 0 <= j < i ==> h@[j] == '0',
        decreases difficulty - i,
    {
        if h.get_char(i) != '0' {
            return false;
        }
        i += 1;
    }
    true
}

/// Renders a transaction list in its canonical serialization.
fn txs_to_string(txs: &Vec<Transaction>) -> (s: String)
    ensures
        s@ == txs_records(txs@),
{
    let mut s = String::new();
    let mut i: usize = 0;
    while i < txs.len()
        invariant
            i <= txs@.len(),
            s@ == txs_records(txs@.take(i as int)),
        decreases txs@.len() - i,
    {
        let t = &txs[i];
        s.append(t.from_address.as_str());
        s.append("|");
        s.append(t.to_address.as_str());
        s.append("|");
        let amount_dec = u64_to_dec(t.amount);
        s.append(amount_dec.as_str());
        s.append("|");
        let timestamp_dec = u64_to_dec(t.timestamp);
        s.append(timestamp_dec.as_str());
        s.append(";");
        proof {
            reveal_strlit("|");
            reveal_strlit(";");
            assert("|"@ =~= seq!['|']);
            assert(";"@ =~= seq![';']);
            assert(txs@.take(i + 1).drop_last() =~= txs@.take(i as int));
            assert(txs@.take(i + 1).last() == txs@[i as int]);
            assert(s@ =~= txs_records(txs@.take(i + 1)));
        }
        i += 1;
    }
    proof {
        assert(txs@.take(txs@.len() as int) =~= txs@);
    }
    s
}

/// Renders the nonce-independent front of a block's preimage.
fn preimage_front(previous_hash: &String, timestamp: u64, txs: &Vec<Transaction>) -> (s: String)
    ensures
        s@ == previous_hash@ + dec_chars(timestamp as nat) + txs_records(txs@),
{
    let mut s = previous_hash.clone();
    let timestamp_dec = u64_to_dec(timestamp);
    s.append(timestamp_dec.as_str());
    let records = txs_to_string(txs);
    s.append(records.as_str());
    proof {
        assert(s@ =~= previous_hash@ + dec_chars(timestamp as nat) + txs_records(txs@));
    }
    s
}

/// Hashes the block whose preimage front is `front` at the given nonce.
fn hash_with_nonce(front: &String, nonce: u64) -> (r: String)
    ensures
        r@ == sha256_hex_of(front@ + dec_chars(nonce as nat)),
{
    let mut s = front.clone();
    let nonce_dec = u64_to_dec(nonce);
    s.append(nonce_dec.as_str());
    sha256_hex(s.as_str())
}

impl Block {
    /// Builds an unmined block from all fields, with nothing left to a clock:
    /// the nonce starts at zero and the stored hash is already consistent.
    pub fn with_timestamp(transactions: Vec<Transaction>, previous_hash: String, timestamp: u64) -> (b: Block)
        ensures
            b.timestamp == timestamp,
            b.transactions@ == transactions@,
            b.previous_hash == previous_hash,
            b.nonce == 0,
            b.hash@ == spec_block_hash(b),
    {
        let mut block = Block {
            timestamp,
            transactions,
            previous_hash,
            hash: String::new(),
            nonce: 0,
        };
        block.hash = block.calculate_hash();
        block
    }

    /// Builds an unmined block stamped with the current wall-clock time.
    /// Fails only when no timestamp can be read.
    pub fn new(transactions: Vec<Transaction>, previous_hash: String) -> (r: Result<Block, LedgerError>)
        ensures
            (match r {
                Ok(b) => {
                    &&& b.transactions@ == transactions@
                    &&& b.previous_hash == previous_hash
                    &&& b.nonce == 0
                    &&& b.hash@ == spec_block_hash(b)
                },
                Err(e) => e == LedgerError::ClockUnavailable,
            }),
    {
        match crate::clock::now_millis() {
            Some(ts) => Ok(Block::with_timestamp(transactions, previous_hash, ts)),
            None => Err(LedgerError::ClockUnavailable),
        }
    }

    /// Recomputes the hash over the block's current fields. Equal fields
    /// always reproduce the identical digest, which is what chain validation
    /// relies on.
    pub fn calculate_hash(&self) -> (r: String)
        ensures
            r@ == spec_block_hash(*self),
    {
        let front = preimage_front(&self.previous_hash, self.timestamp, &self.transactions);
        let r = hash_with_nonce(&front, self.nonce);
        proof {
            assert(front@ + dec_chars(self.nonce as nat) =~= block_preimage(
                self.previous_hash@,
                self.timestamp,
                self.transactions@,
                self.nonce,
            ));
        }
        r
    }

    /// Searches nonces upward from the current one until the recomputed hash
    /// meets the difficulty target, then stores that smallest solving nonce
    /// and its hash. Reports `MiningExhausted`, leaving the block untouched,
    /// when no nonce from the current one up solves the target.
    pub fn mine_block(&mut self, difficulty: usize) -> (r: Result<(), LedgerError>)
        ensures
            final(self).timestamp == old(self).timestamp,
            final(self).transactions == old(self).transactions,
            final(self).previous_hash == old(self).previous_hash,
            (match r {
                Ok(()) => {
                    &&& final(self).nonce >= old(self).nonce
                    &&& final(self).hash@ == spec_block_hash(*final(self))
                    &&& meets_difficulty(final(self).hash@, difficulty as nat)
                    &&& forall|n: u64|
                        old(self).nonce <= n < final(self).nonce ==> !meets_difficulty(
                            hash_at(old(self).previous_hash@, old(self).timestamp, old(self).transactions@, n),
                            difficulty as nat,
                        )
                },
                Err(e) => {
                    &&& e == LedgerError::MiningExhausted
                    &&& *final(self) == *old(self)
                    &&& forall|n: u64|
                        n >= old(self).nonce ==> !meets_difficulty(
                            hash_at(old(self).previous_hash@, old(self).timestamp, old(self).transactions@, n),
                            difficulty as nat,
                        )
                },
            }),
    {
        let front = preimage_front(&self.previous_hash, self.timestamp, &self.transactions);
        proof {
            assert(forall|n: u64| front@ + dec_chars(n as nat) =~= block_preimage(
                self.previous_hash@,
                self.timestamp,
                self.transactions@,
                n,
            ));
        }
        let mut nonce: u64 = self.nonce;
        loop
            invariant
                *self == *old(self),
                nonce >= old(self).nonce,
                front@ == old(self).previous_hash@ + dec_chars(old(self).timestamp as nat)
                    + txs_records(old(self).transactions@),
                forall|n: u64| front@ + dec_chars(n as nat) == block_preimage(
                    old(self).previous_hash@,
                    old(self).timestamp,
                    old(self).transactions@,
                    n,
                ),
                forall|n: u64|
                    old(self).nonce <= n < nonce ==> !meets_difficulty(
                        hash_at(old(self).previous_hash@, old(self).timestamp, old(self).transactions@, n),
                        difficulty as nat,
                    ),
            decreases u64::MAX - nonce,
        {
            let candidate = hash_with_nonce(&front, nonce);
            if has_leading_zeros(candidate.as_str(), difficulty) {
                self.nonce = nonce;
                self.hash = candidate;
                return Ok(());
            }
            if nonce == u64::MAX {
                return Err(LedgerError::MiningExhausted);
            }
            nonce = nonce + 1;
        }
    }
}

impl Clone for Block {
    /// An exact copy, field by field.
    fn clone(&self) -> (r: Self)
        ensures
            r.timestamp == self.timestamp,
            r.transactions@ == self.transactions@,
            r.previous_hash == self.previous_hash,
            r.hash == self.hash,
            r.nonce == self.nonce,
    {
        Block {
            timestamp: self.timestamp,
            transactions: crate::transaction::clone_transactions(&self.transactions),
            previous_hash: self.previous_hash.clone(),
            hash: self.hash.clone(),
            nonce: self.nonce,
        }
    }
}

/// Fixed fields give one fixed block hash: repeated hashing of an unmodified
/// block always yields the identical digest.
pub proof fn lemma_block_hash_deterministic(a: Block, b: Block)
    requires
        a.previous_hash@ == b.previous_hash@,
        a.timestamp == b.timestamp,
        a.transactions@ == b.transactions@,
        a.nonce == b.nonce,
    ensures
        spec_block_hash(a) == spec_block_hash(b),
{
    assert(block_preimage(a.previous_hash@, a.timestamp, a.transactions@, a.nonce)
        == block_preimage(b.previous_hash@, b.timestamp, b.transactions@, b.nonce));
}

} // verus!
