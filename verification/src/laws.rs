//! Laws of the ledger, stated and proved over the abstract [`State`]
//! transitions. Each exec operation's contract says its effect is exactly
//! the corresponding `step_*` transition, so these laws hold of the running
//! ledger as well.

use crate::events::{Error, Event};
use crate::ledger::Pallet;
use crate::state::{event_of, step, step_all, step_approve, step_burn, step_mint,
    step_transfer_from, Op, State};
use crate::store::lemma_balance_le_total;
use vstd::prelude::*;

verus! {

/// Under the ledger invariant the total supply is the sum of all balances,
/// so no balance is negative or exceeds the supply, and the supply itself
/// is representable.
pub proof fn lemma_balance_le_supply(l: Pallet, account: u64)
    requires
        l.wf(),
    ensures
        0 <= l@.balances[account] <= l@.total <= u64::MAX,
{
    lemma_balance_le_total(l.balance_entries@, account);
}

/// No allowance is ever negative, in any ledger.
pub proof fn lemma_allowance_nonneg(l: Pallet, owner: u64, spender: u64)
    ensures
        0 <= l@.allowances[(owner, spender)],
{
}

/// Atomicity: a rejected operation — whichever operation, whichever error —
/// leaves the whole state untouched: all three maps and the event log.
pub proof fn lemma_rejected_keeps_state(s: State, op: Op)
    ensures
        step(s, op).1 is Err ==> step(s, op).0 == s,
{
}

/// A successful operation appends exactly one event, the record of itself;
/// a rejected operation appends none.
pub proof fn lemma_step_emits_its_event(s: State, op: Op)
    ensures
        step(s, op).1 is Ok ==> step(s, op).0.events == s.events.push(event_of(op)),
        step(s, op).1 is Err ==> step(s, op).0.events == s.events,
{
}

/// The event log is append-only: whatever sequence of operations runs,
/// valid or rejected, the log so far stays in place, in order.
pub proof fn lemma_log_is_append_only(s: State, ops: Seq<Op>)
    ensures
        step_all(s, ops).events.len() >= s.events.len(),
        forall|i: int|
            0 <= i < s.events.len() ==> step_all(s, ops).events[i] == s.events[i],
    decreases ops.len(),
{
    if ops.len() > 0 {
        let s1 = step(s, ops[0]).0;
        lemma_step_emits_its_event(s, ops[0]);
        lemma_log_is_append_only(s1, ops.drop_first());
        assert(step_all(s, ops) == step_all(s1, ops.drop_first()));
        assert forall|i: int| 0 <= i < s.events.len() implies step_all(s, ops).events[i]
            == s.events[i] by {
            assert(s1.events[i] == s.events[i]);
            assert(step_all(s1, ops.drop_first()).events[i] == s1.events[i]);
        }
    }
}

/// An allowance is absolute, not additive: approving twice leaves the
/// second amount, not the sum, and the second approval succeeds like any
/// other.
pub proof fn lemma_approve_is_absolute(s: State, owner: u64, spender: u64, first: u64, second: u64)
    ensures
        step_approve(step_approve(s, owner, spender, first).0, owner, spender, second).0.allowances[
            (owner, spender)
        ] == second,
        step_approve(step_approve(s, owner, spender, first).0, owner, spender, second).1 == Ok::<
            (),
            Error,
        >(()),
{
}

/// A delegated transfer spends the allowance: on success, the spender's
/// allowance from `from` shrinks by exactly the amount moved, and the
/// balances move with it.
pub proof fn lemma_transfer_from_spends_allowance(
    s: State,
    caller: u64,
    from: u64,
    to: u64,
    amount: u64,
)
    requires
        step_transfer_from(s, caller, from, to, amount).1 is Ok,
    ensures
        step_transfer_from(s, caller, from, to, amount).0.allowances[(from, caller)]
            == s.allowances[(from, caller)] - amount,
        from != to ==> step_transfer_from(s, caller, from, to, amount).0.balances[from]
            == s.balances[from] - amount,
        from != to ==> step_transfer_from(s, caller, from, to, amount).0.balances[to]
            == s.balances[to] + amount,
        from == to ==> step_transfer_from(s, caller, from, to, amount).0.balances[from]
            == s.balances[from],
{
}

/// The allowance is checked before the balance: a short allowance is
/// reported even when the balance is short too, and a short balance only
/// once the allowance suffices.
pub proof fn lemma_allowance_checked_first(s: State, caller: u64, from: u64, to: u64, amount: u64)
    ensures
        s.allowances[(from, caller)] < amount ==> step_transfer_from(s, caller, from, to, amount).1
            == Err::<(), Error>(Error::ERC20InsufficientAllowance),
        s.allowances[(from, caller)] >= amount && s.balances[from] < amount ==> step_transfer_from(
            s,
            caller,
            from,
            to,
            amount,
        ).1 == Err::<(), Error>(Error::ERC20InsufficientBalance),
{
}

/// Mint/burn round trip: minting an amount and then burning it restores
/// the total supply, every balance and every allowance, and the log holds
/// the two events of the trip.
pub proof fn lemma_mint_burn_round_trip(s: State, caller: u64, amount: u64)
    requires
        0 <= s.balances[caller],
        s.total + amount <= u64::MAX,
    ensures
        step_mint(s, caller, amount).1 is Ok,
        step_burn(step_mint(s, caller, amount).0, caller, amount).1 is Ok,
        step_burn(step_mint(s, caller, amount).0, caller, amount).0.total == s.total,
        forall|a: u64|
            step_burn(step_mint(s, caller, amount).0, caller, amount).0.balances[a]
                == s.balances[a],
        step_burn(step_mint(s, caller, amount).0, caller, amount).0.allowances == s.allowances,
        step_burn(step_mint(s, caller, amount).0, caller, amount).0.events == s.events.push(
            Event::Mint { account: caller, amount },
        ).push(Event::Burn { account: caller, amount }),
{
    let s1 = step_mint(s, caller, amount).0;
    let s2 = step_burn(s1, caller, amount).0;
    assert(s1.balances[caller] == s.balances[caller] + amount);
    assert forall|a: u64| s2.balances[a] == s.balances[a] by {
        if a == caller {
            assert(s2.balances[caller] == s1.balances[caller] - amount);
        }
    }
}

} // verus!
