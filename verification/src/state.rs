//! The mathematical model of the ledger.
//!
//! A [`State`] is what a ledger value means: a total supply, a total map
//! from account to balance, a total map from (owner, spender) to allowance,
//! and the log of emitted events. The `step_*` functions define each of the
//! five operations as a pure state transition: the new state paired with the
//! operation's result. A rejected operation returns the state unchanged.

use crate::events::{Error, Event};
use vstd::prelude::*;

verus! {

/// The abstract ledger state. Balances and allowances are total maps (an
/// account that was never written holds zero), with unbounded integer
/// values; the exec ledger proves its `u64` values always fit.
#[verifier::ext_equal]
pub struct State {
    pub total: int,
    pub balances: Map<u64, int>,
    pub allowances: Map<(u64, u64), int>,
    pub events: Seq<Event>,
}

/// The state of a freshly created ledger: zero supply, all balances and
/// allowances zero, no events.
pub open spec fn initial_state() -> State {
    State {
        total: 0,
        balances: Map::new(|a: u64| true, |a: u64| 0),
        allowances: Map::new(|k: (u64, u64)| true, |k: (u64, u64)| 0),
        events: Seq::empty(),
    }
}

/// `caller` sends `amount` to `to`. Rejected with `ERC20InsufficientBalance`
/// when the caller's balance is short; a self-transfer is a permitted no-op
/// that still emits the event.
pub open spec fn step_transfer(s: State, caller: u64, to: u64, amount: u64) -> (State, Result<
    (),
    Error,
>) {
    if s.balances[caller] >= amount {
        let debited = s.balances.insert(caller, s.balances[caller] - amount);
        let credited = debited.insert(to, debited[to] + amount);
        (
            State {
                balances: credited,
                events: s.events.push(Event::Transfer { from: caller, to, amount }),
                ..s
            },
            Ok(()),
        )
    } else {
        (s, Err(Error::ERC20InsufficientBalance))
    }
}

/// `caller`, acting as spender, moves `amount` from `from` to `to` and uses
/// up that much of its allowance. The allowance is checked before the
/// balance, so a short allowance is reported even when the balance is short
/// too.
pub open spec fn step_transfer_from(
    s: State,
    caller: u64,
    from: u64,
    to: u64,
    amount: u64,
) -> (State, Result<(), Error>) {
    if s.allowances[(from, caller)] < amount {
        (s, Err(Error::ERC20InsufficientAllowance))
    } else if s.balances[from] < amount {
        (s, Err(Error::ERC20InsufficientBalance))
    } else {
        let spent = s.allowances.insert((from, caller), s.allowances[(from, caller)] - amount);
        let debited = s.balances.insert(from, s.balances[from] - amount);
        let credited = debited.insert(to, debited[to] + amount);
        (
            State {
                balances: credited,
                allowances: spent,
                events: s.events.push(Event::Transfer { from, to, amount }),
                ..s
            },
            Ok(()),
        )
    }
}

/// `caller` grants `spender` an allowance of exactly `amount`: an absolute
/// overwrite, never an addition to what was granted before. Never rejected.
pub open spec fn step_approve(s: State, caller: u64, spender: u64, amount: u64) -> (State, Result<
    (),
    Error,
>) {
    (
        State {
            allowances: s.allowances.insert((caller, spender), amount as int),
            events: s.events.push(Event::Approval { owner: caller, spender, amount }),
            ..s
        },
        Ok(()),
    )
}

/// `caller` mints `amount` new tokens to themself. Rejected with `Overflow`
/// when the new total supply would not be representable; the caller's new
/// balance then fits as well, since no balance exceeds the supply.
pub open spec fn step_mint(s: State, caller: u64, amount: u64) -> (State, Result<(), Error>) {
    if s.total + amount > u64::MAX {
        (s, Err(Error::Overflow))
    } else {
        (
            State {
                total: s.total + amount,
                balances: s.balances.insert(caller, s.balances[caller] + amount),
                events: s.events.push(Event::Mint { account: caller, amount }),
                ..s
            },
            Ok(()),
        )
    }
}

/// `caller` burns `amount` of their own tokens, shrinking the total supply.
/// Rejected with `ERC20InsufficientBalance` when the caller's balance is
/// short.
pub open spec fn step_burn(s: State, caller: u64, amount: u64) -> (State, Result<(), Error>) {
    if s.balances[caller] >= amount {
        (
            State {
                total: s.total - amount,
                balances: s.balances.insert(caller, s.balances[caller] - amount),
                events: s.events.push(Event::Burn { account: caller, amount }),
                ..s
            },
            Ok(()),
        )
    } else {
        (s, Err(Error::ERC20InsufficientBalance))
    }
}

/// One requested operation, with its arguments.
pub enum Op {
    Transfer { caller: u64, to: u64, amount: u64 },
    TransferFrom { caller: u64, from: u64, to: u64, amount: u64 },
    Approve { caller: u64, spender: u64, amount: u64 },
    Mint { caller: u64, amount: u64 },
    Burn { caller: u64, amount: u64 },
}

/// Apply one operation to a state.
pub open spec fn step(s: State, op: Op) -> (State, Result<(), Error>) {
    match op {
        Op::Transfer { caller, to, amount } => step_transfer(s, caller, to, amount),
        Op::TransferFrom { caller, from, to, amount } => step_transfer_from(
            s,
            caller,
            from,
            to,
            amount,
        ),
        Op::Approve { caller, spender, amount } => step_approve(s, caller, spender, amount),
        Op::Mint { caller, amount } => step_mint(s, caller, amount),
        Op::Burn { caller, amount } => step_burn(s, caller, amount),
    }
}

/// Apply a whole sequence of operations, first to last. A rejected
/// operation leaves the state unchanged and the ledger goes on with the
/// next one.
pub open spec fn step_all(s: State, ops: Seq<Op>) -> State
    decreases ops.len(),
{
    if ops.len() == 0 {
        s
    } else {
        step_all(step(s, ops[0]).0, ops.drop_first())
    }
}

/// The event a successful operation emits.
pub open spec fn event_of(op: Op) -> Event {
    match op {
        Op::Transfer { caller, to, amount } => Event::Transfer { from: caller, to, amount },
        Op::TransferFrom { caller, from, to, amount } => Event::Transfer { from, to, amount },
        Op::Approve { caller, spender, amount } => Event::Approval {
            owner: caller,
            spender,
            amount,
        },
        Op::Mint { caller, amount } => Event::Mint { account: caller, amount },
        Op::Burn { caller, amount } => Event::Burn { account: caller, amount },
    }
}

} // verus!
