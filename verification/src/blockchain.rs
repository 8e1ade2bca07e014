use vstd::prelude::*;
use vstd::string::*;

use crate::block::{has_leading_zeros, hash_at, meets_difficulty, spec_block_hash, Block};
use crate::errors::LedgerError;
use crate::transaction::{clone_transactions, Transaction};

verus! {

/// The ledger: an append-only chain of blocks, the pending-transaction pool,
/// the mining configuration, and the registered peer identifiers.
#[derive(Debug)]
pub struct Blockchain {
    pub chain: Vec<Block>,
    pub difficulty: usize,
    pub pending_transactions: Vec<Transaction>,
    pub mining_reward: u64,
    pub nodes: Vec<String>,
}

/// Every block past the first stores its own recomputed hash and links to its
/// predecessor's hash. This is what `is_chain_valid` decides; the first block
/// is not examined.
pub open spec fn chain_links_ok(chain: Seq<Block>) -> bool {
    forall|i: int|
        1 <= i < chain.len() ==> {
            &&& (#[trigger] chain[i]).previous_hash@ == chain[i - 1].hash@
            &&& chain[i].hash@ == spec_block_hash(chain[i])
        }
}

/// A whole chain offered by a peer is valid when it opens with the genesis
/// sentinel `"0"` and is correctly linked and hashed throughout. The
/// proof-of-work difficulty is deliberately not re-checked here, unlike the
/// single-block acceptance rule.
pub open spec fn valid_candidate(chain: Seq<Block>) -> bool {
    &&& chain.len() > 0
    &&& chain[0].previous_hash@ == "0"@
    &&& chain_links_ok(chain)
}

/// The single-block acceptance rule: the block must link to the current tip
/// and its stored hash must meet the difficulty target. The stored hash is
/// not recomputed here, unlike whole-chain validation.
pub open spec fn accepts_block(chain: Seq<Block>, difficulty: nat, b: Block) -> bool {
    &&& chain.len() > 0
    &&& b.previous_hash@ == chain.last().hash@
    &&& meets_difficulty(b.hash@, difficulty)
}

/// The signed amount a transaction moves onto `address`: credited when it is
/// the destination, debited when it is the source (both when it is both).
pub open spec fn tx_delta(t: Transaction, address: Seq<char>) -> int {
    (if t.to_address@ == address {
        t.amount as int
    } else {
        0
    }) - (if t.from_address@ == address {
        t.amount as int
    } else {
        0
    })
}

/// The balance a transaction list leaves on `address`.
pub open spec fn txs_balance(ts: Seq<Transaction>, address: Seq<char>) -> int
    decreases ts.len(),
{
    if ts.len() == 0 {
        0
    } else {
        txs_balance(ts.drop_last(), address) + tx_delta(ts.last(), address)
    }
}

/// The balance a chain leaves on `address`: every transaction of every block,
/// in order.
pub open spec fn chain_balance(chain: Seq<Block>, address: Seq<char>) -> int
    decreases chain.len(),
{
    if chain.len() == 0 {
        0
    } else {
        chain_balance(chain.drop_last(), address) + txs_balance(chain.last().transactions@, address)
    }
}

/// The running balance after the first `bi` blocks and the first `ti`
/// transactions of block `bi`: every intermediate value the balance scan
/// passes through.
pub open spec fn scan_balance(chain: Seq<Block>, bi: int, ti: int, address: Seq<char>) -> int {
    chain_balance(chain.take(bi), address) + txs_balance(chain[bi].transactions@.take(ti), address)
}

/// Whether `url` already stands among the registered peer identifiers.
pub open spec fn node_registered(nodes: Seq<String>, url: Seq<char>) -> bool {
    exists|i: int| 0 <= i < nodes.len() && nodes[i]@ == url
}

/// The outcome of holding a single remote block against the acceptance rule,
/// with the reason for a rejection.
#[derive(Clone, Copy, Debug, PartialEq, Eq, Structural)]
pub enum BlockVerdict {
    /// Links to the current tip and meets the difficulty target.
    Accepted,
    /// `previous_hash` does not match the current tip's hash.
    LinkMismatch,
    /// Linked correctly, but the stored hash fails the difficulty target.
    InsufficientProofOfWork,
}

/// Whether candidate `j` beats a current chain of length `cur_len`: it is
/// strictly longer and valid.
pub open spec fn beats(chains: Seq<Vec<Block>>, cur_len: int, j: int) -> bool {
    &&& 0 <= j < chains.len()
    &&& chains[j]@.len() > cur_len
    &&& valid_candidate(chains[j]@)
}

impl Blockchain {
    /// The genesis block for this ledger: no transactions, the sentinel
    /// previous hash `"0"`, and a consistent stored hash.
    fn create_genesis_block(&self, timestamp: u64) -> (b: Block)
        ensures
            b.transactions@.len() == 0,
            b.previous_hash@ == "0"@,
            b.timestamp == timestamp,
            b.nonce == 0,
            b.hash@ == spec_block_hash(b),
    {
        Block::with_timestamp(Vec::new(), String::from_str("0"), timestamp)
    }

    /// A fresh ledger whose genesis block carries the given timestamp, with
    /// the default difficulty 4 and mining reward 100. The one-block chain is
    /// already a valid candidate.
    pub fn with_genesis_timestamp(genesis_timestamp: u64) -> (bc: Blockchain)
        ensures
            bc.chain@.len() == 1,
            bc.chain@[0].previous_hash@ == "0"@,
            bc.chain@[0].transactions@.len() == 0,
            bc.chain@[0].timestamp == genesis_timestamp,
            bc.chain@[0].nonce == 0,
            bc.chain@[0].hash@ == spec_block_hash(bc.chain@[0]),
            valid_candidate(bc.chain@),
            bc.difficulty == 4,
            bc.mining_reward == 100,
            bc.pending_transactions@.len() == 0,
            bc.nodes@.len() == 0,
    {
        let mut blockchain = Blockchain {
            chain: Vec::new(),
            difficulty: 4,
            pending_transactions: Vec::new(),
            mining_reward: 100,
            nodes: Vec::new(),
        };
        let genesis = blockchain.create_genesis_block(genesis_timestamp);
        blockchain.chain.push(genesis);
        blockchain
    }

    /// A fresh ledger whose genesis block is stamped with the current
    /// wall-clock time. Fails only when no timestamp can be read.
    pub fn new() -> (r: Result<Blockchain, LedgerError>)
        ensures
            (match r {
                Ok(bc) => {
                    &&& bc.chain@.len() == 1
                    &&& bc.chain@[0].previous_hash@ == "0"@
                    &&& bc.chain@[0].transactions@.len() == 0
                    &&& bc.chain@[0].nonce == 0
                    &&& bc.chain@[0].hash@ == spec_block_hash(bc.chain@[0])
                    &&& valid_candidate(bc.chain@)
                    &&& bc.difficulty == 4
                    &&& bc.mining_reward == 100
                    &&& bc.pending_transactions@.len() == 0
                    &&& bc.nodes@.len() == 0
                },
                Err(e) => e == LedgerError::ClockUnavailable,
            }),
    {
        match crate::clock::now_millis() {
            Some(ts) => Ok(Blockchain::with_genesis_timestamp(ts)),
            None => Err(LedgerError::ClockUnavailable),
        }
    }

    /// The tip: the most recently appended block.
    pub fn get_latest_block(&self) -> (b: &Block)
        requires
            self.chain@.len() > 0,
        ensures
            *b == self.chain@.last(),
    {
        &self.chain[self.chain.len() - 1]
    }

    /// Appends a transaction to the pending pool, unconditionally: no balance
    /// or double-spend check constrains it.
    pub fn create_transaction(&mut self, transaction: Transaction)
        ensures
            final(self).pending_transactions@ == old(self).pending_transactions@.push(transaction),
            final(self).chain == old(self).chain,
            final(self).difficulty == old(self).difficulty,
            final(self).mining_reward == old(self).mining_reward,
            final(self).nodes == old(self).nodes,
    {
        self.pending_transactions.push(transaction);
    }

    /// Assembles the pending pool into a block on the current tip, mines it,
    /// appends it, and reseeds the pool with the single mint transaction
    /// `"null" -> mining_reward_address` of `mining_reward`. On failure
    /// (clock or nonce exhaustion) the ledger is left untouched.
    pub fn mine_pending_transactions(&mut self, mining_reward_address: String) -> (r: Result<
        (),
        LedgerError,
    >)
        requires
            old(self).chain@.len() > 0,
        ensures
            (match r {
                Ok(()) => {
                    let nb = final(self).chain@.last();
                    &&& final(self).chain@ == old(self).chain@.push(nb)
                    &&& nb.transactions@ == old(self).pending_transactions@
                    &&& nb.previous_hash@ == old(self).chain@.last().hash@
                    &&& nb.hash@ == spec_block_hash(nb)
                    &&& meets_difficulty(nb.hash@, old(self).difficulty as nat)
                    &&& forall|n: u64|
                        n < nb.nonce ==> !meets_difficulty(
                            hash_at(nb.previous_hash@, nb.timestamp, nb.transactions@, n),
                            old(self).difficulty as nat,
                        )
                    &&& final(self).pending_transactions@.len() == 1
                    &&& final(self).pending_transactions@[0].from_address@ == "null"@
                    &&& final(self).pending_transactions@[0].to_address == mining_reward_address
                    &&& final(self).pending_transactions@[0].amount == old(self).mining_reward
                    &&& final(self).difficulty == old(self).difficulty
                    &&& final(self).mining_reward == old(self).mining_reward
                    &&& final(self).nodes == old(self).nodes
                    &&& chain_links_ok(old(self).chain@) ==> chain_links_ok(final(self).chain@)
                    &&& valid_candidate(old(self).chain@) ==> valid_candidate(final(self).chain@)
                },
                Err(e) => {
                    &&& *final(self) == *old(self)
                    &&& (e == LedgerError::ClockUnavailable || e == LedgerError::MiningExhausted)
                },
            }),
    {
        proof {
            reveal_strlit("null");
        }
        let reward_tx = match Transaction::new(
            String::from_str("null"),
            mining_reward_address,
            self.mining_reward,
        ) {
            Ok(t) => t,
            Err(e) => {
                return Err(e);
            },
        };
        let txs = clone_transactions(&self.pending_transactions);
        let previous_hash = self.get_latest_block().hash.clone();
        let mut block = match Block::new(txs, previous_hash) {
            Ok(b) => b,
            Err(e) => {
                return Err(e);
            },
        };
        match block.mine_block(self.difficulty) {
            Ok(()) => {},
            Err(e) => {
                return Err(e);
            },
        };
        self.chain.push(block);
        proof {
            if chain_links_ok(old(self).chain@) {
                lemma_links_ok_push(old(self).chain@, self.chain@.last());
            }
        }
        let mut reseeded: Vec<Transaction> = Vec::new();
        reseeded.push(reward_tx);
        self.pending_transactions = reseeded;
        Ok(())
    }

    /// The balance of `address`: a fresh full scan, subtracting each amount
    /// sent from it and adding each amount sent to it. The machine-width
    /// precondition only asks that no intermediate value of that scan leaves
    /// the `i64` range.
    pub fn get_balance_of_address(&self, address: &str) -> (balance: i64)
        requires
            forall|bi: int, ti: int|
                0 <= bi < self.chain@.len() && 0 <= ti <= self.chain@[bi].transactions@.len()
                    ==> i64::MIN <= #[trigger] scan_balance(self.chain@, bi, ti, address@)
                    <= i64::MAX,
        ensures
            balance as int == chain_balance(self.chain@, address@),
    {
        let addr = String::from_str(address);
        let mut balance: i64 = 0;
        let mut bi: usize = 0;
        while bi < self.chain.len()
            invariant
                bi <= self.chain@.len(),
                addr@ == address@,
                balance as int == chain_balance(self.chain@.take(bi as int), address@),
                forall|bj: int, tj: int|
                    0 <= bj < self.chain@.len() && 0 <= tj <= self.chain@[bj].transactions@.len()
                        ==> i64::MIN <= #[trigger] scan_balance(self.chain@, bj, tj, address@)
                        <= i64::MAX,
            decreases self.chain@.len() - bi,
        {
            let block = &self.chain[bi];
            let mut ti: usize = 0;
            proof {
                assert(block.transactions@.take(0) =~= Seq::<Transaction>::empty());
            }
            while ti < block.transactions.len()
                invariant
                    bi < self.chain@.len(),
                    *block == self.chain@[bi as int],
                    ti <= block.transactions@.len(),
                    addr@ == address@,
                    balance as int == scan_balance(self.chain@, bi as int, ti as int, address@),
                    forall|bj: int, tj: int|
                        0 <= bj < self.chain@.len() && 0 <= tj
                            <= self.chain@[bj].transactions@.len() ==> i64::MIN
                            <= #[trigger] scan_balance(self.chain@, bj, tj, address@) <= i64::MAX,
                decreases block.transactions@.len() - ti,
            {
                let t = &block.transactions[ti];
                let mut acc: i128 = balance as i128;
                if t.from_address == addr {
                    acc = acc - (t.amount as i128);
                }
                if t.to_address == addr {
                    acc = acc + (t.amount as i128);
                }
                proof {
                    assert(block.transactions@.take(ti + 1).drop_last() =~= block.transactions@.take(
                        ti as int,
                    ));
                    assert(block.transactions@.take(ti + 1).last() == block.transactions@[ti as int]);
                    assert(acc as int == scan_balance(self.chain@, bi as int, ti + 1, address@));
                }
                balance = acc as i64;
                ti += 1;
            }
            proof {
                assert(block.transactions@.take(block.transactions@.len() as int)
                    =~= block.transactions@);
                assert(self.chain@.take(bi + 1).drop_last() =~= self.chain@.take(bi as int));
                assert(self.chain@.take(bi + 1).last() == self.chain@[bi as int]);
            }
            bi += 1;
        }
        proof {
            assert(self.chain@.take(self.chain@.len() as int) =~= self.chain@);
        }
        balance
    }

    /// Scans the chain past the first block and reports whether every block
    /// stores its own recomputed hash and links to its predecessor. A single
    /// boolean comes back, with no failing index.
    pub fn is_chain_valid(&self) -> (r: bool)
        ensures
            r == chain_links_ok(self.chain@),
    {
        let mut i: usize = 1;
        while i < self.chain.len()
            invariant
                1 <= i,
                forall|j: int|
                    1 <= j < i && j < self.chain@.len() ==> {
                        &&& (#[trigger] self.chain@[j]).previous_hash@ == self.chain@[j - 1].hash@
                        &&& self.chain@[j].hash@ == spec_block_hash(self.chain@[j])
                    },
            decreases self.chain@.len() - i,
        {
            let current_block = &self.chain[i];
            let previous_block = &self.chain[i - 1];
            let recomputed = current_block.calculate_hash();
            if !(current_block.hash == recomputed) {
                return false;
            }
            if !(current_block.previous_hash == previous_block.hash) {
                return false;
            }
            i += 1;
        }
        true
    }

    /// Records a peer identifier, idempotently: a second registration of the
    /// same identifier changes nothing.
    pub fn register_node(&mut self, node_url: String)
        ensures
            node_registered(old(self).nodes@, node_url@) ==> *final(self) == *old(self),
            !node_registered(old(self).nodes@, node_url@) ==> {
                &&& final(self).nodes@ == old(self).nodes@.push(node_url)
                &&& final(self).chain == old(self).chain
                &&& final(self).difficulty == old(self).difficulty
                &&& final(self).pending_transactions == old(self).pending_transactions
                &&& final(self).mining_reward == old(self).mining_reward
            },
    {
        let mut i: usize = 0;
        while i < self.nodes.len()
            invariant
                i <= self.nodes@.len(),
                forall|j: int| 0 <= j < i ==> self.nodes@[j]@ != node_url@,
            decreases self.nodes@.len() - i,
        {
            if self.nodes[i] == node_url {
                return ;
            }
            i += 1;
        }
        self.nodes.push(node_url);
    }

    /// Holds a single remote block against the acceptance rule without
    /// touching the ledger, and names the reason for a rejection.
    pub fn evaluate_new_block(&self, new_block: &Block) -> (v: BlockVerdict)
        requires
            self.chain@.len() > 0,
        ensures
            (v == BlockVerdict::Accepted) == accepts_block(
                self.chain@,
                self.difficulty as nat,
                *new_block,
            ),
            (v == BlockVerdict::LinkMismatch) == (new_block.previous_hash@
                != self.chain@.last().hash@),
            (v == BlockVerdict::InsufficientProofOfWork) == (new_block.previous_hash@
                == self.chain@.last().hash@ && !meets_difficulty(
                new_block.hash@,
                self.difficulty as nat,
            )),
    {
        let link_ok = {
            let latest_block = self.get_latest_block();
            new_block.previous_hash == latest_block.hash
        };
        if !link_ok {
            return BlockVerdict::LinkMismatch;
        }
        if !has_leading_zeros(new_block.hash.as_str(), self.difficulty) {
            return BlockVerdict::InsufficientProofOfWork;
        }
        BlockVerdict::Accepted
    }

    /// Decides a single remote block by the acceptance rule: correct link to
    /// the tip and a stored hash meeting the difficulty target. On acceptance
    /// the block is appended and the whole pending pool is cleared, dropping
    /// any transaction the block did not include; otherwise nothing changes.
    pub fn receive_new_block(&mut self, new_block: Block, _sender_node_url: String) -> (accepted:
        bool)
        requires
            old(self).chain@.len() > 0,
        ensures
            accepted == accepts_block(old(self).chain@, old(self).difficulty as nat, new_block),
            accepted ==> {
                &&& final(self).chain@ == old(self).chain@.push(new_block)
                &&& final(self).pending_transactions@ == Seq::<Transaction>::empty()
                &&& final(self).difficulty == old(self).difficulty
                &&& final(self).mining_reward == old(self).mining_reward
                &&& final(self).nodes == old(self).nodes
            },
            !accepted ==> *final(self) == *old(self),
    {
        match self.evaluate_new_block(&new_block) {
            BlockVerdict::Accepted => {
                self.chain.push(new_block);
                self.pending_transactions.clear();
                true
            },
            BlockVerdict::LinkMismatch => false,
            BlockVerdict::InsufficientProofOfWork => false,
        }
    }

    /// Whether a whole chain offered by a peer is valid: genesis sentinel,
    /// then correct linkage and hash recomputation for every later block.
    /// The proof-of-work difficulty is not re-checked on this path.
    pub fn is_valid_chain(&self, chain: &Vec<Block>) -> (r: bool)
        requires
            chain@.len() > 0,
        ensures
            r == valid_candidate(chain@),
    {
        proof {
            reveal_strlit("0");
        }
        let sentinel = String::from_str("0");
        if !(chain[0].previous_hash == sentinel) {
            return false;
        }
        let mut i: usize = 1;
        while i < chain.len()
            invariant
                1 <= i,
                forall|j: int|
                    1 <= j < i && j < chain@.len() ==> {
                        &&& (#[trigger] chain@[j]).previous_hash@ == chain@[j - 1].hash@
                        &&& chain@[j].hash@ == spec_block_hash(chain@[j])
                    },
            decreases chain@.len() - i,
        {
            let block = &chain[i];
            let previous_block = &chain[i - 1];
            if !(block.previous_hash == previous_block.hash) {
                return false;
            }
            let recomputed = block.calculate_hash();
            if !(block.hash == recomputed) {
                return false;
            }
            i += 1;
        }
        true
    }

    /// The fork-choice rule: among the offered chains, the first of greatest
    /// length that is valid and strictly longer than the current chain
    /// replaces it wholesale; with no such candidate the chain stays and
    /// `false` comes back. The pending pool and configuration never change.
    pub fn resolve_conflicts(&mut self, chains: Vec<Vec<Block>>) -> (replaced: bool)
        ensures
            replaced == exists|j: int| beats(chains@, old(self).chain@.len() as int, j),
            replaced ==> exists|j: int|
                {
                    &&& #[trigger] beats(chains@, old(self).chain@.len() as int, j)
                    &&& final(self).chain@ == chains@[j]@
                    &&& forall|k: int|
                        beats(chains@, old(self).chain@.len() as int, k) ==> chains@[k]@.len()
                            <= chains@[j]@.len()
                    &&& forall|k: int|
                        0 <= k < j && beats(chains@, old(self).chain@.len() as int, k)
                            ==> chains@[k]@.len() < chains@[j]@.len()
                },
            replaced ==> valid_candidate(final(self).chain@) && final(self).chain@.len() > old(
                self,
            ).chain@.len(),
            final(self).pending_transactions == old(self).pending_transactions,
            final(self).difficulty == old(self).difficulty,
            final(self).mining_reward == old(self).mining_reward,
            final(self).nodes == old(self).nodes,
            !replaced ==> *final(self) == *old(self),
    {
        let ghost cur_len = self.chain@.len() as int;
        let mut best: usize = 0;
        let mut found = false;
        let mut max_length = self.chain.len();
        let mut i: usize = 0;
        while i < chains.len()
            invariant
                i <= chains@.len(),
                *self == *old(self),
                cur_len == old(self).chain@.len() as int,
                max_length >= old(self).chain@.len(),
                !found ==> max_length == old(self).chain@.len(),
                !found ==> forall|k: int| 0 <= k < i ==> !beats(chains@, cur_len, k),
                found ==> {
                    &&& best < i
                    &&& beats(chains@, cur_len, best as int)
                    &&& chains@[best as int]@.len() == max_length
                    &&& forall|k: int|
                        0 <= k < i && beats(chains@, cur_len, k) ==> chains@[k]@.len() <= max_length
                    &&& forall|k: int|
                        0 <= k < best && beats(chains@, cur_len, k) ==> chains@[k]@.len()
                            < max_length
                },
            decreases chains@.len() - i,
        {
            let candidate_len = chains[i].len();
            if candidate_len > max_length {
                if self.is_valid_chain(&chains[i]) {
                    max_length = candidate_len;
                    best = i;
                    found = true;
                }
            }
            i += 1;
        }
        if found {
            let mut remaining = chains;
            let new_chain = remaining.swap_remove(best);
            self.chain = new_chain;
            true
        } else {
            false
        }
    }
}

/// Appending a block that links to the tip and stores its own recomputed
/// hash preserves chain validity: this is why a freshly mined chain passes
/// `is_chain_valid`.
pub proof fn lemma_links_ok_push(chain: Seq<Block>, b: Block)
    requires
        chain_links_ok(chain),
        chain.len() > 0,
        b.previous_hash@ == chain.last().hash@,
        b.hash@ == spec_block_hash(b),
    ensures
        chain_links_ok(chain.push(b)),
        valid_candidate(chain) ==> valid_candidate(chain.push(b)),
{
    let extended = chain.push(b);
    assert forall|i: int| 1 <= i < extended.len() implies {
        &&& (#[trigger] extended[i]).previous_hash@ == extended[i - 1].hash@
        &&& extended[i].hash@ == spec_block_hash(extended[i])
    } by {
        if i < chain.len() {
            assert(extended[i] == chain[i]);
            assert(extended[i - 1] == chain[i - 1]);
        } else {
            assert(extended[i] == b);
            assert(extended[i - 1] == chain.last());
        }
    }
}

/// A remote block whose stored hash fails the difficulty target is rejected,
/// even when it links to the current tip correctly.
pub proof fn lemma_reject_weak_pow(chain: Seq<Block>, difficulty: nat, b: Block)
    requires
        !meets_difficulty(b.hash@, difficulty),
    ensures
        !accepts_block(chain, difficulty, b),
{
}

/// A remote block whose `previous_hash` does not match the current tip is
/// rejected, even when its stored hash meets the difficulty target.
pub proof fn lemma_reject_stale_link(chain: Seq<Block>, difficulty: nat, b: Block)
    requires
        chain.len() > 0,
        b.previous_hash@ != chain.last().hash@,
    ensures
        !accepts_block(chain, difficulty, b),
{
}

} // verus!
