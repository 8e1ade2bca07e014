use vstd::prelude::*;
use vstd::string::*;

use crate::errors::LedgerError;
use crate::hashing::{sha256_hex, sha256_hex_of};
use crate::numeral::{dec_chars, u64_to_dec};

verus! {

/// An immutable value-transfer record. `from_address == "null"` marks a
/// mining-reward mint with no debited source. No signature or balance check
/// constrains construction; `amount` is only ever read as a signed delta.
#[derive(Debug)]
pub struct Transaction {
    pub from_address: String,
    pub to_address: String,
    pub amount: u64,
    pub timestamp: u64,
}

/// The byte-stable preimage hashed by `Transaction::calculate_hash`: the four
/// fields concatenated in order, the integers in decimal.
pub open spec fn tx_hash_preimage(t: Transaction) -> Seq<char> {
    t.from_address@ + t.to_address@ + dec_chars(t.amount as nat) + dec_chars(t.timestamp as nat)
}

/// The content hash of a transaction: a pure function of its four fields.
pub open spec fn spec_tx_hash(t: Transaction) -> Seq<char> {
    sha256_hex_of(tx_hash_preimage(t))
}

impl Transaction {
    /// Builds the record from all four fields, with nothing left to a clock.
    pub fn with_timestamp(from_address: String, to_address: String, amount: u64, timestamp: u64) -> (t: Transaction)
        ensures
            t == (Transaction { from_address, to_address, amount, timestamp }),
    {
        Transaction { from_address, to_address, amount, timestamp }
    }

    /// Builds the record stamped with the current wall-clock time. Fails only
    /// when no timestamp can be read.
    pub fn new(from_address: String, to_address: String, amount: u64) -> (r: Result<Transaction, LedgerError>)
        ensures
            (match r {
                Ok(t) => {
                    &&& t.from_address == from_address
                    &&& t.to_address == to_address
                    &&& t.amount == amount
                },
                Err(e) => e == LedgerError::ClockUnavailable,
            }),
    {
        match crate::clock::now_millis() {
            Some(ts) => Ok(Transaction::with_timestamp(from_address, to_address, amount, ts)),
            None => Err(LedgerError::ClockUnavailable),
        }
    }

    /// The content hash, recomputable at will: equal fields always give the
    /// identical digest. It is inspection only; no validation path checks it.
    pub fn calculate_hash(&self) -> (r: String)
        ensures
            r@ == spec_tx_hash(*self),
    {
        let mut s = self.from_address.clone();
        s.append(self.to_address.as_str());
        let amount_dec = u64_to_dec(self.amount);
        s.append(amount_dec.as_str());
        let timestamp_dec = u64_to_dec(self.timestamp);
        s.append(timestamp_dec.as_str());
        proof {
            assert(s@ =~= tx_hash_preimage(*self));
        }
        sha256_hex(s.as_str())
    }
}

impl Clone for Transaction {
    /// An exact copy: the clone equals the source value.
    fn clone(&self) -> (r: Self)
        ensures
            r == *self,
    {
        Transaction {
            from_address: self.from_address.clone(),
            to_address: self.to_address.clone(),
            amount: self.amount,
            timestamp: self.timestamp,
        }
    }
}

/// Fixed fields give one fixed content hash: repeated hashing of an
/// unmodified transaction always yields the identical digest.
pub proof fn lemma_tx_hash_deterministic(a: Transaction, b: Transaction)
    requires
        a.from_address@ == b.from_address@,
        a.to_address@ == b.to_address@,
        a.amount == b.amount,
        a.timestamp == b.timestamp,
    ensures
        spec_tx_hash(a) == spec_tx_hash(b),
{
    assert(tx_hash_preimage(a) == tx_hash_preimage(b));
}

/// An element-wise copy of a transaction list, equal to its source in view.
pub(crate) fn clone_transactions(v: &Vec<Transaction>) -> (r: Vec<Transaction>)
    ensures
        r@ == v@,
{
    let mut r: Vec<Transaction> = Vec::new();
    let mut i: usize = 0;
    while i < v.len()
        invariant
            i <= v@.len(),
            r@ =~= v@.take(i as int),
        decreases v@.len() - i,
    {
        r.push(v[i].clone());
        i += 1;
    }
    proof {
        assert(v@.take(v@.len() as int) =~= v@);
    }
    r
}

} // verus!
