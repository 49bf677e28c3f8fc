//! In-memory store for the ledger's two key spaces: the balance map
//! (account -> amount) and the allowance map ((owner, spender) -> amount).
//!
//! Each map is a vector of entries, read by first match; an absent key reads
//! as zero. The spec functions `balance_in`, `balance_total` and
//! `allowance_in` are the mathematical meaning of a vector of entries, and
//! the exec `get`/`set` functions are verified against them.

use vstd::prelude::*;

verus! {

/// One balance entry: `account` currently owns `amount`.
pub struct BalanceEntry {
    pub account: u64,
    pub amount: u64,
}

/// One allowance entry: `spender` may move up to `amount` out of `owner`'s
/// balance.
pub struct AllowanceEntry {
    pub owner: u64,
    pub spender: u64,
    pub amount: u64,
}

/// The balance a sequence of entries assigns to `account`: the first
/// matching entry's amount, or zero when no entry matches.
pub open spec fn balance_in(s: Seq<BalanceEntry>, account: u64) -> u64
    decreases s.len(),
{
    if s.len() == 0 {
        0u64
    } else if s[0].account == account {
        s[0].amount
    } else {
        balance_in(s.drop_first(), account)
    }
}

/// The sum of every entry's amount. Stale (shadowed) entries never exist in
/// the ledger, so this is the sum of all balances.
pub open spec fn balance_total(s: Seq<BalanceEntry>) -> int
    decreases s.len(),
{
    if s.len() == 0 {
        0
    } else {
        s[0].amount + balance_total(s.drop_first())
    }
}

/// The allowance a sequence of entries assigns to `(owner, spender)`.
pub open spec fn allowance_in(s: Seq<AllowanceEntry>, owner: u64, spender: u64) -> u64
    decreases s.len(),
{
    if s.len() == 0 {
        0u64
    } else if s[0].owner == owner && s[0].spender == spender {
        s[0].amount
    } else {
        allowance_in(s.drop_first(), owner, spender)
    }
}

/// The total of the entry amounts is never negative.
pub proof fn lemma_balance_total_nonneg(s: Seq<BalanceEntry>)
    ensures
        balance_total(s) >= 0,
    decreases s.len(),
{
    if s.len() > 0 {
        lemma_balance_total_nonneg(s.drop_first());
    }
}

/// No single balance exceeds the total of all entry amounts.
pub proof fn lemma_balance_le_total(s: Seq<BalanceEntry>, account: u64)
    ensures
        balance_in(s, account) <= balance_total(s),
    decreases s.len(),
{
    if s.len() > 0 {
        lemma_balance_le_total(s.drop_first(), account);
        lemma_balance_total_nonneg(s.drop_first());
    }
}

/// Reading a key skips a prefix in which the key does not occur.
proof fn lemma_balance_skip_prefix(s: Seq<BalanceEntry>, i: int, account: u64)
    requires
        0 <= i <= s.len(),
        forall|j: int| 0 <= j < i ==> s[j].account != account,
    ensures
        balance_in(s, account) == balance_in(s.subrange(i, s.len() as int), account),
    decreases i,
{
    if i > 0 {
        assert(s.drop_first().subrange(i - 1, s.drop_first().len() as int) =~= s.subrange(
            i,
            s.len() as int,
        ));
        lemma_balance_skip_prefix(s.drop_first(), i - 1, account);
    } else {
        assert(s.subrange(0, s.len() as int) =~= s);
    }
}

/// Overwriting an entry whose account is not `b` leaves `b`'s balance alone.
proof fn lemma_balance_update_other(s: Seq<BalanceEntry>, i: int, e: BalanceEntry, b: u64)
    requires
        0 <= i < s.len(),
        s[i].account != b,
        e.account != b,
    ensures
        balance_in(s.update(i, e), b) == balance_in(s, b),
    decreases s.len(),
{
    if i == 0 {
        assert(s.update(0, e).drop_first() =~= s.drop_first());
    } else {
        assert(s.update(i, e).drop_first() =~= s.drop_first().update(i - 1, e));
        lemma_balance_update_other(s.drop_first(), i - 1, e, b);
    }
}

/// Overwriting one entry shifts the total by the difference of the amounts.
proof fn lemma_balance_total_update(s: Seq<BalanceEntry>, i: int, e: BalanceEntry)
    requires
        0 <= i < s.len(),
    ensures
        balance_total(s.update(i, e)) == balance_total(s) - s[i].amount + e.amount,
    decreases s.len(),
{
    if i == 0 {
        assert(s.update(0, e).drop_first() =~= s.drop_first());
    } else {
        assert(s.update(i, e).drop_first() =~= s.drop_first().update(i - 1, e));
        lemma_balance_total_update(s.drop_first(), i - 1, e);
    }
}

/// A key that occurs in no entry reads as zero.
proof fn lemma_balance_absent(s: Seq<BalanceEntry>, account: u64)
    requires
        forall|j: int| 0 <= j < s.len() ==> s[j].account != account,
    ensures
        balance_in(s, account) == 0,
    decreases s.len(),
{
    if s.len() > 0 {
        lemma_balance_absent(s.drop_first(), account);
    }
}

/// Appending an entry for an absent key makes that entry the key's balance.
proof fn lemma_balance_push_new(s: Seq<BalanceEntry>, e: BalanceEntry)
    requires
        forall|j: int| 0 <= j < s.len() ==> s[j].account != e.account,
    ensures
        balance_in(s.push(e), e.account) == e.amount,
    decreases s.len(),
{
    if s.len() == 0 {
        assert(s.push(e)[0] == e);
    } else {
        assert(s.push(e).drop_first() =~= s.drop_first().push(e));
        lemma_balance_push_new(s.drop_first(), e);
    }
}

/// Appending an entry for one account leaves every other balance alone.
proof fn lemma_balance_push_other(s: Seq<BalanceEntry>, e: BalanceEntry, b: u64)
    requires
        e.account != b,
    ensures
        balance_in(s.push(e), b) == balance_in(s, b),
    decreases s.len(),
{
    if s.len() == 0 {
        assert(s.push(e)[0] == e);
        assert(s.push(e).drop_first() =~= s);
    } else {
        assert(s.push(e).drop_first() =~= s.drop_first().push(e));
        lemma_balance_push_other(s.drop_first(), e, b);
    }
}

/// Appending an entry adds its amount to the total.
proof fn lemma_balance_total_push(s: Seq<BalanceEntry>, e: BalanceEntry)
    ensures
        balance_total(s.push(e)) == balance_total(s) + e.amount,
    decreases s.len(),
{
    if s.len() == 0 {
        assert(s.push(e)[0] == e);
        assert(s.push(e).drop_first() =~= s);
    } else {
        assert(s.push(e).drop_first() =~= s.drop_first().push(e));
        lemma_balance_total_push(s.drop_first(), e);
    }
}

/// Read `account`'s balance: the first matching entry, or zero.
pub fn get_balance(entries: &Vec<BalanceEntry>, account: u64) -> (r: u64)
    ensures
        r == balance_in(entries@, account),
{
    let n = entries.len();
    let mut i: usize = 0;
    while i < n
        invariant
            n == entries@.len(),
            0 <= i <= n,
            forall|j: int| 0 <= j < i ==> entries@[j].account != account,
        decreases n - i,
    {
        if entries[i].account == account {
            proof {
                lemma_balance_skip_prefix(entries@, i as int, account);
                assert(entries@.subrange(i as int, entries@.len() as int)[0] == entries@[i as int]);
            }
            return entries[i].amount;
        }
        i += 1;
    }
    proof {
        lemma_balance_absent(entries@, account);
    }
    0
}

/// Write `account`'s balance to `amount`, overwriting the existing entry or
/// appending a new one. Every other balance is unchanged, and the total of
/// all amounts shifts by the difference from the old balance.
pub fn set_balance(entries: &mut Vec<BalanceEntry>, account: u64, amount: u64)
    ensures
        balance_in(final(entries)@, account) == amount,
        forall|b: u64|
            b != account ==> balance_in(final(entries)@, b) == balance_in(old(entries)@, b),
        balance_total(final(entries)@) == balance_total(old(entries)@) - balance_in(
            old(entries)@,
            account,
        ) + amount,
{
    let n = entries.len();
    let mut i: usize = 0;
    while i < n
        invariant
            n == entries@.len(),
            0 <= i <= n,
            entries@ == old(entries)@,
            forall|j: int| 0 <= j < i ==> entries@[j].account != account,
        decreases n - i,
    {
        if entries[i].account == account {
            proof {
                lemma_balance_skip_prefix(entries@, i as int, account);
                assert(entries@.subrange(i as int, entries@.len() as int)[0] == entries@[i as int]);
            }
            let e = BalanceEntry { account, amount };
            entries[i] = e;
            proof {
                lemma_balance_skip_prefix(entries@, i as int, account);
                assert(entries@.subrange(i as int, entries@.len() as int)[0] == entries@[i as int]);
                assert forall|b: u64| b != account implies balance_in(entries@, b) == balance_in(
                    old(entries)@,
                    b,
                ) by {
                    lemma_balance_update_other(old(entries)@, i as int, e, b);
                }
                lemma_balance_total_update(old(entries)@, i as int, e);
            }
            return ;
        }
        i += 1;
    }
    let e = BalanceEntry { account, amount };
    entries.push(e);
    proof {
        lemma_balance_absent(old(entries)@, account);
        lemma_balance_push_new(old(entries)@, e);
        assert forall|b: u64| b != account implies balance_in(entries@, b) == balance_in(
            old(entries)@,
            b,
        ) by {
            lemma_balance_push_other(old(entries)@, e, b);
        }
        lemma_balance_total_push(old(entries)@, e);
    }
}

/// Reading an allowance key skips a prefix in which it does not occur.
proof fn lemma_allowance_skip_prefix(s: Seq<AllowanceEntry>, i: int, owner: u64, spender: u64)
    requires
        0 <= i <= s.len(),
        forall|j: int| 0 <= j < i ==> !(s[j].owner == owner && s[j].spender == spender),
    ensures
        allowance_in(s, owner, spender) == allowance_in(
            s.subrange(i, s.len() as int),
            owner,
            spender,
        ),
    decreases i,
{
    if i > 0 {
        assert(s.drop_first().subrange(i - 1, s.drop_first().len() as int) =~= s.subrange(
            i,
            s.len() as int,
        ));
        lemma_allowance_skip_prefix(s.drop_first(), i - 1, owner, spender);
    } else {
        assert(s.subrange(0, s.len() as int) =~= s);
    }
}

/// Overwriting an entry for one key pair leaves every other pair alone.
proof fn lemma_allowance_update_other(
    s: Seq<AllowanceEntry>,
    i: int,
    e: AllowanceEntry,
    o: u64,
    sp: u64,
)
    requires
        0 <= i < s.len(),
        !(s[i].owner == o && s[i].spender == sp),
        !(e.owner == o && e.spender == sp),
    ensures
        allowance_in(s.update(i, e), o, sp) == allowance_in(s, o, sp),
    decreases s.len(),
{
    if i == 0 {
        assert(s.update(0, e).drop_first() =~= s.drop_first());
    } else {
        assert(s.update(i, e).drop_first() =~= s.drop_first().update(i - 1, e));
        lemma_allowance_update_other(s.drop_first(), i - 1, e, o, sp);
    }
}

/// A key pair that occurs in no entry reads as zero.
proof fn lemma_allowance_absent(s: Seq<AllowanceEntry>, owner: u64, spender: u64)
    requires
        forall|j: int| 0 <= j < s.len() ==> !(s[j].owner == owner && s[j].spender == spender),
    ensures
        allowance_in(s, owner, spender) == 0,
    decreases s.len(),
{
    if s.len() > 0 {
        lemma_allowance_absent(s.drop_first(), owner, spender);
    }
}

/// Appending an entry for an absent key pair makes it that pair's allowance.
proof fn lemma_allowance_push_new(s: Seq<AllowanceEntry>, e: AllowanceEntry)
    requires
        forall|j: int| 0 <= j < s.len() ==> !(s[j].owner == e.owner && s[j].spender == e.spender),
    ensures
        allowance_in(s.push(e), e.owner, e.spender) == e.amount,
    decreases s.len(),
{
    if s.len() == 0 {
        assert(s.push(e)[0] == e);
    } else {
        assert(s.push(e).drop_first() =~= s.drop_first().push(e));
        lemma_allowance_push_new(s.drop_first(), e);
    }
}

/// Appending an entry for one key pair leaves every other pair alone.
proof fn lemma_allowance_push_other(s: Seq<AllowanceEntry>, e: AllowanceEntry, o: u64, sp: u64)
    requires
        !(e.owner == o && e.spender == sp),
    ensures
        allowance_in(s.push(e), o, sp) == allowance_in(s, o, sp),
    decreases s.len(),
{
    if s.len() == 0 {
        assert(s.push(e)[0] == e);
        assert(s.push(e).drop_first() =~= s);
    } else {
        assert(s.push(e).drop_first() =~= s.drop_first().push(e));
        lemma_allowance_push_other(s.drop_first(), e, o, sp);
    }
}

/// Read the allowance of `(owner, spender)`: the first matching entry, or
/// zero.
pub fn get_allowance(entries: &Vec<AllowanceEntry>, owner: u64, spender: u64) -> (r: u64)
    ensures
        r == allowance_in(entries@, owner, spender),
{
    let n = entries.len();
    let mut i: usize = 0;
    while i < n
        invariant
            n == entries@.len(),
            0 <= i <= n,
            forall|j: int|
                0 <= j < i ==> !(entries@[j].owner == owner && entries@[j].spender == spender),
        decreases n - i,
    {
        if entries[i].owner == owner && entries[i].spender == spender {
            proof {
                lemma_allowance_skip_prefix(entries@, i as int, owner, spender);
                assert(entries@.subrange(i as int, entries@.len() as int)[0] == entries@[i as int]);
            }
            return entries[i].amount;
        }
        i += 1;
    }
    proof {
        lemma_allowance_absent(entries@, owner, spender);
    }
    0
}

/// Write the allowance of `(owner, spender)` to `amount`, overwriting the
/// existing entry or appending a new one. Every other pair is unchanged.
pub fn set_allowance(entries: &mut Vec<AllowanceEntry>, owner: u64, spender: u64, amount: u64)
    ensures
        allowance_in(final(entries)@, owner, spender) == amount,
        forall|o: u64, sp: u64|
            !(o == owner && sp == spender) ==> allowance_in(final(entries)@, o, sp)
                == allowance_in(old(entries)@, o, sp),
{
    let n = entries.len();
    let mut i: usize = 0;
    while i < n
        invariant
            n == entries@.len(),
            0 <= i <= n,
            entries@ == old(entries)@,
            forall|j: int|
                0 <= j < i ==> !(entries@[j].owner == owner && entries@[j].spender == spender),
        decreases n - i,
    {
        if entries[i].owner == owner && entries[i].spender == spender {
            let e = AllowanceEntry { owner, spender, amount };
            entries[i] = e;
            proof {
                lemma_allowance_skip_prefix(entries@, i as int, owner, spender);
                assert(entries@.subrange(i as int, entries@.len() as int)[0] == entries@[i as int]);
                assert forall|o: u64, sp: u64| !(o == owner && sp == spender) implies allowance_in(
                    entries@,
                    o,
                    sp,
                ) == allowance_in(old(entries)@, o, sp) by {
                    lemma_allowance_update_other(old(entries)@, i as int, e, o, sp);
                }
            }
            return ;
        }
        i += 1;
    }
    let e = AllowanceEntry { owner, spender, amount };
    entries.push(e);
    proof {
        lemma_allowance_push_new(old(entries)@, e);
        assert forall|o: u64, sp: u64| !(o == owner && sp == spender) implies allowance_in(
            entries@,
            o,
            sp,
        ) == allowance_in(old(entries)@, o, sp) by {
            lemma_allowance_push_other(old(entries)@, e, o, sp);
        }
    }
}

} // verus!
