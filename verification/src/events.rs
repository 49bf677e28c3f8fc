//! Event and error records of the ledger.

use vstd::prelude::*;

verus! {

/// Immutable record of one completed state transition, appended to the
/// ledger's log in the exact order operations complete.
#[derive(Clone, Copy, Debug, PartialEq, Eq, Structural)]
pub enum Event {
    Transfer { from: u64, to: u64, amount: u64 },
    Approval { owner: u64, spender: u64, amount: u64 },
    Mint { account: u64, amount: u64 },
    Burn { account: u64, amount: u64 },
}

/// Why an operation was rejected. Every error is reported before any state
/// is written, so a rejected operation mutates nothing.
#[derive(Clone, Copy, Debug, PartialEq, Eq, Structural)]
pub enum Error {
    ERC20InsufficientAllowance,
    ERC20InsufficientBalance,
    Overflow,
}

} // verus!
