use vstd::prelude::*;

verus! {

/// A fault that ends an in-progress ledger operation without mutating state.
#[derive(Clone, Copy, Debug, PartialEq, Eq, Structural)]
pub enum LedgerError {
    /// The nonce space was exhausted before any hash met the difficulty target.
    MiningExhausted,
    /// The system clock could not provide a timestamp.
    ClockUnavailable,
}

} // verus!
