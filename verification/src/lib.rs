//! A minimal proof-of-work ledger: transactions, hash-linked blocks, and a
//! blockchain state machine with mining, balance derivation, chain validation
//! and longest-chain fork resolution.

pub mod block;
pub mod blockchain;
pub mod clock;
pub mod errors;
pub mod hashing;
pub mod numeral;
pub mod transaction;
