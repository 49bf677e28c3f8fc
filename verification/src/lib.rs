//! A fungible-token ledger: per-account balances, per-owner/per-spender
//! allowances, and a global total supply, mutated only by five atomic
//! operations (transfer, delegated transfer, approve, mint, burn).
//!
//! Every operation is verified to preserve the ledger invariant
//! (total supply equals the sum of all balances) and to be atomic:
//! a rejected operation leaves the whole state untouched.

pub mod events;
pub mod laws;
pub mod ledger;
pub mod state;
pub mod store;
