//! The ledger: holds the balance store, the allowance store, the total
//! supply and the event log, and applies the five operations atomically.
//!
//! Every operation requires and preserves the ledger invariant [`Pallet::wf`]
//! (the total supply equals the sum of all balances), and its exact effect —
//! on success and on rejection alike — is the corresponding `step_*`
//! transition of the abstract [`State`].

use crate::events::{Error, Event};
use crate::state::{initial_state, step, step_approve, step_burn, step_mint, step_transfer,
    step_transfer_from, Op, State};
use crate::store::{allowance_in, balance_in, balance_total, get_allowance, get_balance,
    lemma_balance_le_total, set_allowance, set_balance, AllowanceEntry, BalanceEntry};
use vstd::prelude::*;

verus! {

/// A fungible-token ledger. Each instance is an independent ledger; all
/// state is held in the value itself, so callers decide how instances are
/// shared or persisted.
pub struct Pallet {
    pub supply: u64,
    pub balance_entries: Vec<BalanceEntry>,
    pub allowance_entries: Vec<AllowanceEntry>,
    pub log: Vec<Event>,
}

impl View for Pallet {
    type V = State;

    open spec fn view(&self) -> State {
        State {
            total: self.supply as int,
            balances: Map::new(|a: u64| true, |a: u64| balance_in(self.balance_entries@, a) as int),
            allowances: Map::new(
                |k: (u64, u64)| true,
                |k: (u64, u64)| allowance_in(self.allowance_entries@, k.0, k.1) as int,
            ),
            events: self.log@,
        }
    }
}

impl Pallet {
    /// The ledger invariant: the stored total supply is exactly the sum of
    /// all balances. Established by [`Pallet::new`] and preserved by every
    /// operation; `u64` storage makes every balance and allowance
    /// non-negative by construction.
    pub open spec fn wf(self) -> bool {
        self.supply == balance_total(self.balance_entries@)
    }

    /// Create a fresh ledger: zero total supply, every balance and
    /// allowance zero, no events.
    pub fn new() -> (r: Pallet)
        ensures
            r.wf(),
            r@ == initial_state(),
    {
        let r = Pallet {
            supply: 0,
            balance_entries: Vec::new(),
            allowance_entries: Vec::new(),
            log: Vec::new(),
        };
        proof {
            assert(r@.balances =~= initial_state().balances);
            assert(r@.allowances =~= initial_state().allowances);
            assert(r@ =~= initial_state());
        }
        r
    }

    /// The current total supply: the sum of all balances.
    pub fn total_supply(&self) -> (r: u64)
        ensures
            r == self@.total,
    {
        self.supply
    }

    /// The balance of `account`; zero when it was never credited.
    pub fn balances(&self, account: u64) -> (r: u64)
        ensures
            r == self@.balances[account],
    {
        get_balance(&self.balance_entries, account)
    }

    /// The allowance `owner` has granted `spender`; zero when none was
    /// granted.
    pub fn allowances(&self, owner: u64, spender: u64) -> (r: u64)
        ensures
            r == self@.allowances[(owner, spender)],
    {
        get_allowance(&self.allowance_entries, owner, spender)
    }

    /// The event log, one record per completed operation, in completion
    /// order.
    pub fn events(&self) -> (r: &Vec<Event>)
        ensures
            r@ == self@.events,
    {
        &self.log
    }

    /// Grant `spender` an allowance of exactly `amount` out of the caller's
    /// balance, overwriting any earlier grant. Always succeeds and emits an
    /// `Approval` event.
    pub fn approve(&mut self, caller: u64, spender: u64, amount: u64) -> (r: Result<(), Error>)
        requires
            old(self).wf(),
        ensures
            final(self).wf(),
            final(self)@ == step_approve(old(self)@, caller, spender, amount).0,
            r == step_approve(old(self)@, caller, spender, amount).1,
    {
        set_allowance(&mut self.allowance_entries, caller, spender, amount);
        self.log.push(Event::Approval { owner: caller, spender, amount });
        proof {
            let s1 = step_approve(old(self)@, caller, spender, amount).0;
            assert(self@.balances =~= s1.balances);
            assert(self@.allowances =~= s1.allowances);
            assert(self@ =~= s1);
        }
        Ok(())
    }

    /// Send `amount` from the caller's balance to `to`. Rejected with
    /// `ERC20InsufficientBalance`, mutating nothing, when the caller's
    /// balance is short; on success emits a `Transfer` event. A
    /// self-transfer or a zero amount is a permitted no-op that still emits
    /// the event. The credited balance cannot overflow: under the invariant
    /// no balance can exceed the total supply.
    pub fn transfer(&mut self, caller: u64, to: u64, amount: u64) -> (r: Result<(), Error>)
        requires
            old(self).wf(),
        ensures
            final(self).wf(),
            final(self)@ == step_transfer(old(self)@, caller, to, amount).0,
            r == step_transfer(old(self)@, caller, to, amount).1,
    {
        let sender_balance = get_balance(&self.balance_entries, caller);
        if sender_balance < amount {
            return Err(Error::ERC20InsufficientBalance);
        }
        set_balance(&mut self.balance_entries, caller, sender_balance - amount);
        let receiver_balance = get_balance(&self.balance_entries, to);
        proof {
            lemma_balance_le_total(self.balance_entries@, to);
        }
        set_balance(&mut self.balance_entries, to, receiver_balance + amount);
        self.log.push(Event::Transfer { from: caller, to, amount });
        proof {
            let s1 = step_transfer(old(self)@, caller, to, amount).0;
            assert(self@.balances =~= s1.balances);
            assert(self@.allowances =~= s1.allowances);
            assert(self@ =~= s1);
        }
        Ok(())
    }

    /// As spender, move `amount` from `from` to `to`, spending that much of
    /// the allowance `from` granted the caller. The allowance is checked
    /// before the balance: a short allowance is rejected with
    /// `ERC20InsufficientAllowance` even when the balance is short too, and
    /// only then a short balance with `ERC20InsufficientBalance`. A rejected
    /// call mutates nothing; success emits a `Transfer` event.
    pub fn transfer_from(&mut self, caller: u64, from: u64, to: u64, amount: u64) -> (r: Result<
        (),
        Error,
    >)
        requires
            old(self).wf(),
        ensures
            final(self).wf(),
            final(self)@ == step_transfer_from(old(self)@, caller, from, to, amount).0,
            r == step_transfer_from(old(self)@, caller, from, to, amount).1,
    {
        let allowance = get_allowance(&self.allowance_entries, from, caller);
        if allowance < amount {
            return Err(Error::ERC20InsufficientAllowance);
        }
        let sender_balance = get_balance(&self.balance_entries, from);
        if sender_balance < amount {
            return Err(Error::ERC20InsufficientBalance);
        }
        set_allowance(&mut self.allowance_entries, from, caller, allowance - amount);
        set_balance(&mut self.balance_entries, from, sender_balance - amount);
        let receiver_balance = get_balance(&self.balance_entries, to);
        proof {
            lemma_balance_le_total(self.balance_entries@, to);
        }
        set_balance(&mut self.balance_entries, to, receiver_balance + amount);
        self.log.push(Event::Transfer { from, to, amount });
        proof {
            let s1 = step_transfer_from(old(self)@, caller, from, to, amount).0;
            assert(self@.balances =~= s1.balances);
            assert(self@.allowances =~= s1.allowances);
            assert(self@ =~= s1);
        }
        Ok(())
    }

    /// Mint `amount` new tokens to the caller, growing the total supply.
    /// Rejected with `Overflow`, mutating nothing, when the new total
    /// supply would not fit; the caller's new balance then fits as well,
    /// since under the invariant no balance exceeds the supply. Success
    /// emits a `Mint` event.
    pub fn mint(&mut self, caller: u64, amount: u64) -> (r: Result<(), Error>)
        requires
            old(self).wf(),
        ensures
            final(self).wf(),
            final(self)@ == step_mint(old(self)@, caller, amount).0,
            r == step_mint(old(self)@, caller, amount).1,
    {
        if amount > u64::MAX - self.supply {
            return Err(Error::Overflow);
        }
        let balance = get_balance(&self.balance_entries, caller);
        proof {
            lemma_balance_le_total(self.balance_entries@, caller);
        }
        set_balance(&mut self.balance_entries, caller, balance + amount);
        self.supply = self.supply + amount;
        self.log.push(Event::Mint { account: caller, amount });
        proof {
            let s1 = step_mint(old(self)@, caller, amount).0;
            assert(self@.balances =~= s1.balances);
            assert(self@.allowances =~= s1.allowances);
            assert(self@ =~= s1);
        }
        Ok(())
    }

    /// Burn `amount` of the caller's own tokens, shrinking the total
    /// supply. Rejected with `ERC20InsufficientBalance`, mutating nothing,
    /// when the caller's balance is short; the supply cannot underflow,
    /// since under the invariant it is at least the caller's balance.
    /// Success emits a `Burn` event.
    pub fn burn(&mut self, caller: u64, amount: u64) -> (r: Result<(), Error>)
        requires
            old(self).wf(),
        ensures
            final(self).wf(),
            final(self)@ == step_burn(old(self)@, caller, amount).0,
            r == step_burn(old(self)@, caller, amount).1,
    {
        let balance = get_balance(&self.balance_entries, caller);
        if balance < amount {
            return Err(Error::ERC20InsufficientBalance);
        }
        proof {
            lemma_balance_le_total(self.balance_entries@, caller);
        }
        set_balance(&mut self.balance_entries, caller, balance - amount);
        self.supply = self.supply - amount;
        self.log.push(Event::Burn { account: caller, amount });
        proof {
            let s1 = step_burn(old(self)@, caller, amount).0;
            assert(self@.balances =~= s1.balances);
            assert(self@.allowances =~= s1.allowances);
            assert(self@ =~= s1);
        }
        Ok(())
    }

    /// Dispatch one requested operation to the operation it names. Callers
    /// that replay a whole sequence of requests — valid and rejected mixed —
    /// keep the invariant at every step, since each call both requires and
    /// re-establishes it.
    pub fn apply(&mut self, op: &Op) -> (r: Result<(), Error>)
        requires
            old(self).wf(),
        ensures
            final(self).wf(),
            final(self)@ == step(old(self)@, *op).0,
            r == step(old(self)@, *op).1,
    {
        match *op {
            Op::Transfer { caller, to, amount } => self.transfer(caller, to, amount),
            Op::TransferFrom { caller, from, to, amount } => self.transfer_from(
                caller,
                from,
                to,
                amount,
            ),
            Op::Approve { caller, spender, amount } => self.approve(caller, spender, amount),
            Op::Mint { caller, amount } => self.mint(caller, amount),
            Op::Burn { caller, amount } => self.burn(caller, amount),
        }
    }
}

} // verus!
