//! Yield books: for every epoch, how much of its yield has been credited to
//! holders who settled it, against the shares still waiting to settle it.
//! These sums let the vault show that all holders together are never owed
//! more yield than was distributed.

use vstd::prelude::*;
use crate::ledger::{
    account_in, account_index, epoch_share_of, has_account, holders_unique, lemma_epoch_share_bounded,
    lemma_store_account, share_yield, store_account, yield_total, Account, EpochRecord,
};

verus! {

/// Sum of `f` over the accounts in `s`.
pub open spec fn sum_by(s: Seq<Account>, f: spec_fn(Account) -> int) -> int
    decreases s.len(),
{
    if s.len() == 0 {
        0
    } else {
        sum_by(s.drop_last(), f) + f(s.last())
    }
}

/// Sum of `f(e)` for `e` in `[0, n)`.
pub open spec fn sum_over(n: int, f: spec_fn(int) -> int) -> int
    decreases n,
{
    if n <= 0 {
        0
    } else {
        sum_over(n - 1, f) + f(n - 1)
    }
}

/// Shares of the accounts that have not yet settled epoch `e`.
pub open spec fn unsettled_shares(s: Seq<Account>, e: int) -> int {
    sum_by(s, |a: Account| if a.settled_epoch <= e { a.shares as int } else { 0int })
}

/// Yield of epoch `e` (recorded as `ep`) owed to the accounts that have not
/// yet settled it.
pub open spec fn epoch_owed(s: Seq<Account>, ep: EpochRecord, e: int) -> int {
    sum_by(
        s,
        |a: Account| if a.settled_epoch <= e { epoch_share_of(ep, a.shares as int) } else { 0int },
    )
}

/// What epoch `e` owes the accounts of `s` that have not settled it, as a
/// function of `e`.
pub open spec fn owed_fn(s: Seq<Account>, epochs: Seq<EpochRecord>) -> spec_fn(int) -> int {
    |e: int| epoch_owed(s, epochs[e], e)
}

/// What a constant balance of `shares` earns in epoch `e` if it has not
/// settled it (settled up to `from`), as a function of `e`.
pub open spec fn pending_part_fn(epochs: Seq<EpochRecord>, shares: int, from: int) -> spec_fn(
    int,
) -> int {
    |e: int| if from <= e { epoch_share_of(epochs[e], shares) } else { 0int }
}

/// Yield already settled into the accounts: accrued plus claimed.
pub open spec fn settled_entitlement(s: Seq<Account>) -> int {
    sum_by(s, |a: Account| a.accrued_yield + a.claimed_yield)
}

/// Yield earned by the accounts in epochs they have not settled.
pub open spec fn unsettled_entitlement(s: Seq<Account>, epochs: Seq<EpochRecord>) -> int {
    sum_by(
        s,
        |a: Account|
            share_yield(epochs, a.shares as int, a.settled_epoch as int, epochs.len() as int),
    )
}

/// Everything the accounts are entitled to: settled and unsettled yield.
pub open spec fn total_entitlement(s: Seq<Account>, epochs: Seq<EpochRecord>) -> int {
    settled_entitlement(s) + unsettled_entitlement(s, epochs)
}

/// The credited amounts after an account that had settled up to
/// `acc.settled_epoch` with `acc.shares` settles every epoch.
pub open spec fn credit_settlement(credited: Seq<int>, epochs: Seq<EpochRecord>, acc: Account) -> Seq<
    int,
> {
    Seq::new(
        credited.len(),
        |e: int|
            if acc.settled_epoch <= e {
                credited[e] + epoch_share_of(epochs[e], acc.shares as int)
            } else {
                credited[e]
            },
    )
}

/// The yield books balance: one credited amount per epoch; per epoch, what
/// was credited plus the pro-rata claim of the unsettled shares stays
/// within the epoch's yield; and what was credited in total is what the
/// accounts have settled.
pub open spec fn books_ok(s: Seq<Account>, epochs: Seq<EpochRecord>, credited: Seq<int>) -> bool {
    &&& credited.len() == epochs.len()
    &&& forall|e: int|
        #![trigger credited[e]]
        0 <= e < epochs.len() ==> credited[e] >= 0 && credited[e] * epochs[e].total_shares
            + epochs[e].yield_amount * unsettled_shares(s, e) <= epochs[e].yield_amount
            * epochs[e].total_shares
    &&& settled_entitlement(s) == sum_over(credited.len() as int, seq_fn(credited))
}

/// The elements of `c` as a function of their index.
pub open spec fn seq_fn(c: Seq<int>) -> spec_fn(int) -> int {
    |e: int| c[e]
}

// ─────────────────────────────────────────────────────────────────────────────
// Sums
// ─────────────────────────────────────────────────────────────────────────────

/// Sums over accounts add up pointwise.
pub proof fn lemma_sum_by_add(s: Seq<Account>, f: spec_fn(Account) -> int, g: spec_fn(Account) -> int)
    ensures
        sum_by(s, |a: Account| f(a) + g(a)) == sum_by(s, f) + sum_by(s, g),
    decreases s.len(),
{
    if s.len() > 0 {
        lemma_sum_by_add(s.drop_last(), f, g);
    }
}

/// Sums over accounts of pointwise-equal functions agree.
pub proof fn lemma_sum_by_ext(s: Seq<Account>, f: spec_fn(Account) -> int, g: spec_fn(Account) -> int)
    requires
        forall|i: int| 0 <= i < s.len() ==> f(#[trigger] s[i]) == g(s[i]),
    ensures
        sum_by(s, f) == sum_by(s, g),
    decreases s.len(),
{
    if s.len() > 0 {
        let p = s.drop_last();
        assert forall|i: int| 0 <= i < p.len() implies f(#[trigger] p[i]) == g(p[i]) by {
            assert(p[i] == s[i]);
        }
        lemma_sum_by_ext(p, f, g);
        assert(f(s.last()) == g(s[s.len() - 1]));
    }
}

/// Sums over accounts of pointwise-smaller functions are smaller.
pub proof fn lemma_sum_by_le(s: Seq<Account>, f: spec_fn(Account) -> int, g: spec_fn(Account) -> int)
    requires
        forall|i: int| 0 <= i < s.len() ==> f(#[trigger] s[i]) <= g(s[i]),
    ensures
        sum_by(s, f) <= sum_by(s, g),
    decreases s.len(),
{
    if s.len() > 0 {
        let p = s.drop_last();
        assert forall|i: int| 0 <= i < p.len() implies f(#[trigger] p[i]) <= g(p[i]) by {
            assert(p[i] == s[i]);
        }
        lemma_sum_by_le(p, f, g);
        assert(f(s.last()) <= g(s[s.len() - 1]));
    }
}

/// A sum over accounts after replacing one element.
pub proof fn lemma_sum_by_update(s: Seq<Account>, f: spec_fn(Account) -> int, i: int, x: Account)
    requires
        0 <= i < s.len(),
    ensures
        sum_by(s.update(i, x), f) == sum_by(s, f) - f(s[i]) + f(x),
    decreases s.len(),
{
    let t = s.update(i, x);
    if i == s.len() - 1 {
        assert(t.drop_last() =~= s.drop_last());
    } else {
        lemma_sum_by_update(s.drop_last(), f, i, x);
        assert(t.drop_last() =~= s.drop_last().update(i, x));
    }
}

/// Storing an account moves a sum by the change of that holder's term,
/// when a fresh account's term is zero.
pub proof fn lemma_sum_by_store(s: Seq<Account>, f: spec_fn(Account) -> int, acc: Account)
    requires
        holders_unique(s),
        f(Account::fresh(acc.holder)) == 0,
    ensures
        sum_by(store_account(s, acc), f) == sum_by(s, f) - f(account_in(s, acc.holder)) + f(acc),
{
    if has_account(s, acc.holder) {
        lemma_sum_by_update(s, f, account_index(s, acc.holder), acc);
    } else {
        assert(s.push(acc).drop_last() =~= s);
    }
}

/// Sums over a range add up pointwise.
pub proof fn lemma_sum_over_add(n: int, f: spec_fn(int) -> int, g: spec_fn(int) -> int)
    ensures
        sum_over(n, |e: int| f(e) + g(e)) == sum_over(n, f) + sum_over(n, g),
    decreases n,
{
    if n > 0 {
        lemma_sum_over_add(n - 1, f, g);
    }
}

/// Sums over a range of pointwise-equal functions agree.
pub proof fn lemma_sum_over_ext(n: int, f: spec_fn(int) -> int, g: spec_fn(int) -> int)
    requires
        forall|e: int| 0 <= e < n ==> #[trigger] f(e) == g(e),
    ensures
        sum_over(n, f) == sum_over(n, g),
    decreases n,
{
    if n > 0 {
        lemma_sum_over_ext(n - 1, f, g);
    }
}

/// Sums over a range of pointwise-smaller functions are smaller.
pub proof fn lemma_sum_over_le(n: int, f: spec_fn(int) -> int, g: spec_fn(int) -> int)
    requires
        forall|e: int| 0 <= e < n ==> #[trigger] f(e) <= g(e),
    ensures
        sum_over(n, f) <= sum_over(n, g),
    decreases n,
{
    if n > 0 {
        lemma_sum_over_le(n - 1, f, g);
    }
}

/// The yield of the first `n` epochs as a sum over a range.
pub proof fn lemma_yield_total_as_sum(epochs: Seq<EpochRecord>, n: int)
    requires
        0 <= n,
    ensures
        yield_total(epochs, 0, n) == sum_over(n, |e: int| epochs[e].yield_amount as int),
    decreases n,
{
    if n > 0 {
        lemma_yield_total_as_sum(epochs, n - 1);
    }
}

/// A holder's unsettled yield as a sum over all epochs of the epochs it
/// has not settled.
pub proof fn lemma_share_yield_as_sum(epochs: Seq<EpochRecord>, shares: int, from: int, n: int)
    requires
        0 <= from,
    ensures
        share_yield(epochs, shares, from, n) == sum_over(n, pending_part_fn(epochs, shares, from)),
    decreases n,
{
    if n > 0 {
        lemma_share_yield_as_sum(epochs, shares, from, n - 1);
        if n - 1 < from {
            assert(share_yield(epochs, shares, from, n) == 0) by {
                lemma_share_yield_empty(epochs, shares, from, n);
            }
            assert(share_yield(epochs, shares, from, n - 1) == 0) by {
                lemma_share_yield_empty(epochs, shares, from, n - 1);
            }
        }
    } else {
        lemma_share_yield_empty(epochs, shares, from, n);
    }
}

/// A holder earns nothing over an empty range of epochs.
pub proof fn lemma_share_yield_empty(epochs: Seq<EpochRecord>, shares: int, from: int, to: int)
    requires
        to <= from,
    ensures
        share_yield(epochs, shares, from, to) == 0,
{
}

/// Exchanging the order of summation: the unsettled yield of all accounts
/// is the sum over epochs of what each epoch owes its unsettled accounts.
pub proof fn lemma_unsettled_by_epoch(s: Seq<Account>, epochs: Seq<EpochRecord>)
    ensures
        unsettled_entitlement(s, epochs) == sum_over(epochs.len() as int, owed_fn(s, epochs)),
    decreases s.len(),
{
    let n = epochs.len() as int;
    if s.len() == 0 {
        let zero = |e: int| 0int;
        assert forall|e: int| 0 <= e < n implies #[trigger] owed_fn(s, epochs)(e) == zero(e) by {
            assert(epoch_owed(s, epochs[e], e) == 0);
        }
        lemma_sum_over_ext(n, owed_fn(s, epochs), zero);
        lemma_sum_over_zero(n);
    } else {
        let p = s.drop_last();
        let a = s.last();
        lemma_unsettled_by_epoch(p, epochs);
        let g = pending_part_fn(epochs, a.shares as int, a.settled_epoch as int);
        lemma_share_yield_as_sum(epochs, a.shares as int, a.settled_epoch as int, n);
        lemma_sum_over_add(n, owed_fn(p, epochs), g);
        let rhs = |e: int| owed_fn(p, epochs)(e) + g(e);
        assert forall|e: int| 0 <= e < n implies #[trigger] owed_fn(s, epochs)(e) == rhs(e) by {
            assert(s.drop_last() == p);
        }
        assert(unsettled_entitlement(s, epochs) == unsettled_entitlement(p, epochs) + share_yield(
            epochs,
            a.shares as int,
            a.settled_epoch as int,
            n,
        ));
        lemma_sum_over_ext(n, owed_fn(s, epochs), rhs);
    }
}

/// A sum of zeros is zero.
pub proof fn lemma_sum_over_zero(n: int)
    ensures
        sum_over(n, |e: int| 0int) == 0,
    decreases n,
{
    if n > 0 {
        lemma_sum_over_zero(n - 1);
    }
}

/// What an epoch owes its unsettled accounts, times its supply, is at most
/// its yield times their shares (each part is rounded down).
pub proof fn lemma_epoch_owed_bound(s: Seq<Account>, ep: EpochRecord, e: int)
    requires
        ep.total_shares > 0,
        ep.yield_amount >= 0,
        forall|i: int| 0 <= i < s.len() ==> #[trigger] s[i].shares >= 0,
    ensures
        0 <= epoch_owed(s, ep, e),
        epoch_owed(s, ep, e) * ep.total_shares <= ep.yield_amount * unsettled_shares(s, e),
    decreases s.len(),
{
    if s.len() > 0 {
        let p = s.drop_last();
        assert forall|i: int| 0 <= i < p.len() implies #[trigger] p[i].shares >= 0 by {
            assert(p[i] == s[i]);
        }
        lemma_epoch_owed_bound(p, ep, e);
        let a = s.last();
        assert(a.shares >= 0);
        let t = ep.total_shares as int;
        let y = ep.yield_amount as int;
        if a.settled_epoch <= e {
            let q = epoch_share_of(ep, a.shares as int);
            assert(q == (a.shares * y) / t);
            vstd::arithmetic::div_mod::lemma_fundamental_div_mod(a.shares * y, t);
            vstd::arithmetic::div_mod::lemma_mod_pos_bound(a.shares * y, t);
            assert(a.shares * y >= 0) by (nonlinear_arith)
                requires
                    a.shares >= 0,
                    y >= 0,
            ;
            vstd::arithmetic::div_mod::lemma_div_pos_is_pos(a.shares * y, t);
            assert(q * t <= a.shares * y) by (nonlinear_arith)
                requires
                    a.shares * y == t * q + (a.shares * y) % t,
                    (a.shares * y) % t >= 0,
            ;
            let op = epoch_owed(p, ep, e);
            let up = unsettled_shares(p, e);
            assert((op + q) * t <= y * (up + a.shares)) by (nonlinear_arith)
                requires
                    op * t <= y * up,
                    q * t <= a.shares * y,
            ;
        }
    }
}

/// With balanced books, everything the accounts are entitled to is within
/// the yield distributed so far.
pub proof fn lemma_books_bound_entitlement(
    s: Seq<Account>,
    epochs: Seq<EpochRecord>,
    credited: Seq<int>,
)
    requires
        books_ok(s, epochs, credited),
        forall|e: int|
            #![trigger epochs[e]]
            0 <= e < epochs.len() ==> epochs[e].yield_amount > 0 && epochs[e].total_shares > 0,
        forall|i: int| 0 <= i < s.len() ==> #[trigger] s[i].shares >= 0,
    ensures
        total_entitlement(s, epochs) <= yield_total(epochs, 0, epochs.len() as int),
{
    let n = epochs.len() as int;
    lemma_unsettled_by_epoch(s, epochs);
    lemma_yield_total_as_sum(epochs, n);
    let c = seq_fn(credited);
    let o = owed_fn(s, epochs);
    let y = |e: int| epochs[e].yield_amount as int;
    let co = |e: int| c(e) + o(e);
    assert forall|e: int| 0 <= e < n implies #[trigger] co(e) <= y(e) by {
        let ep = epochs[e];
        assert(ep.yield_amount > 0 && ep.total_shares > 0);
        lemma_epoch_owed_bound(s, ep, e);
        let t = ep.total_shares as int;
        let yy = ep.yield_amount as int;
        let u = unsettled_shares(s, e);
        let ow = epoch_owed(s, ep, e);
        assert(credited[e] * t + yy * u <= yy * t);
        assert((credited[e] + ow) * t <= yy * t) by (nonlinear_arith)
            requires
                credited[e] * t + yy * u <= yy * t,
                ow * t <= yy * u,
        ;
        assert(credited[e] + ow <= yy) by (nonlinear_arith)
            requires
                (credited[e] + ow) * t <= yy * t,
                t > 0,
        ;
    }
    lemma_sum_over_le(n, co, y);
    lemma_sum_over_add(n, c, o);
}

// ─────────────────────────────────────────────────────────────────────────────
// Keeping the books
// ─────────────────────────────────────────────────────────────────────────────

/// A holder's part of an epoch's yield, times the epoch's supply, is at
/// most its shares times the epoch's yield.
pub proof fn lemma_epoch_share_scaled(ep: EpochRecord, shares: int)
    requires
        ep.total_shares > 0,
        ep.yield_amount >= 0,
        shares >= 0,
    ensures
        0 <= epoch_share_of(ep, shares),
        epoch_share_of(ep, shares) * ep.total_shares <= ep.yield_amount * shares,
{
    let t = ep.total_shares as int;
    let y = ep.yield_amount as int;
    assert(shares * y >= 0) by (nonlinear_arith)
        requires
            shares >= 0,
            y >= 0,
    ;
    vstd::arithmetic::div_mod::lemma_fundamental_div_mod(shares * y, t);
    vstd::arithmetic::div_mod::lemma_mod_pos_bound(shares * y, t);
    vstd::arithmetic::div_mod::lemma_div_pos_is_pos(shares * y, t);
    let q = (shares * y) / t;
    assert(q * t <= y * shares) by (nonlinear_arith)
        requires
            shares * y == t * q + (shares * y) % t,
            (shares * y) % t >= 0,
    ;
}

/// Settling the account of `acc.holder` (which was `o`) into `acc` credits
/// each epoch it had not settled with its part, and keeps the books.
pub proof fn lemma_books_after_settle(
    s: Seq<Account>,
    epochs: Seq<EpochRecord>,
    credited: Seq<int>,
    acc: Account,
)
    requires
        holders_unique(s),
        books_ok(s, epochs, credited),
        forall|e: int|
            #![trigger epochs[e]]
            0 <= e < epochs.len() ==> epochs[e].yield_amount > 0 && epochs[e].total_shares > 0,
        account_in(s, acc.holder).settled_epoch <= epochs.len(),
        account_in(s, acc.holder).shares >= 0,
        acc.settled_epoch == epochs.len(),
        acc.accrued_yield + acc.claimed_yield == account_in(s, acc.holder).accrued_yield
            + account_in(s, acc.holder).claimed_yield + share_yield(
            epochs,
            account_in(s, acc.holder).shares as int,
            account_in(s, acc.holder).settled_epoch as int,
            epochs.len() as int,
        ),
    ensures
        books_ok(
            store_account(s, acc),
            epochs,
            credit_settlement(credited, epochs, account_in(s, acc.holder)),
        ),
{
    let o = account_in(s, acc.holder);
    let n = epochs.len() as int;
    let t = store_account(s, acc);
    let c2 = credit_settlement(credited, epochs, o);
    assert forall|e: int| #![trigger c2[e]] 0 <= e < n implies c2[e] >= 0 && c2[e]
        * epochs[e].total_shares + epochs[e].yield_amount * unsettled_shares(t, e)
        <= epochs[e].yield_amount * epochs[e].total_shares by {
        let f = |a: Account| if a.settled_epoch <= e { a.shares as int } else { 0int };
        lemma_sum_by_store(s, f, acc);
        let ep = epochs[e];
        assert(ep.yield_amount > 0 && ep.total_shares > 0);
        assert(credited[e] >= 0);
        let tt = ep.total_shares as int;
        let yy = ep.yield_amount as int;
        let u = unsettled_shares(s, e);
        if o.settled_epoch <= e {
            lemma_epoch_share_scaled(ep, o.shares as int);
            let q = epoch_share_of(ep, o.shares as int);
            assert(c2[e] == credited[e] + q);
            assert(unsettled_shares(t, e) == u - o.shares);
            assert((credited[e] + q) * tt + yy * (u - o.shares) <= yy * tt) by (nonlinear_arith)
                requires
                    credited[e] * tt + yy * u <= yy * tt,
                    q * tt <= yy * o.shares,
            ;
        } else {
            assert(c2[e] == credited[e]);
            assert(unsettled_shares(t, e) == u);
        }
    }
    let g = |a: Account| a.accrued_yield + a.claimed_yield;
    lemma_sum_by_store(s, g, acc);
    let pf = pending_part_fn(epochs, o.shares as int, o.settled_epoch as int);
    lemma_share_yield_as_sum(epochs, o.shares as int, o.settled_epoch as int, n);
    let c = seq_fn(credited);
    lemma_sum_over_add(n, c, pf);
    let sum_fn = |e: int| c(e) + pf(e);
    assert forall|e: int| 0 <= e < n implies #[trigger] seq_fn(c2)(e) == sum_fn(e) by {}
    lemma_sum_over_ext(n, seq_fn(c2), sum_fn);
}

/// Shares summed with `sum_by` are the share total.
pub proof fn lemma_sum_by_shares(s: Seq<Account>)
    ensures
        sum_by(s, |a: Account| a.shares as int) == crate::ledger::sum_shares(s),
    decreases s.len(),
{
    if s.len() > 0 {
        lemma_sum_by_shares(s.drop_last());
    }
}

/// Opening a new epoch over the current supply keeps the books, with
/// nothing credited from it yet.
pub proof fn lemma_books_after_distribute(
    s: Seq<Account>,
    epochs: Seq<EpochRecord>,
    credited: Seq<int>,
    x: EpochRecord,
)
    requires
        books_ok(s, epochs, credited),
        forall|i: int| 0 <= i < s.len() ==> #[trigger] s[i].settled_epoch <= epochs.len(),
        x.total_shares == crate::ledger::sum_shares(s),
        x.yield_amount >= 0,
    ensures
        books_ok(s, epochs.push(x), credited.push(0int)),
{
    let n = epochs.len() as int;
    let e2 = epochs.push(x);
    let c2 = credited.push(0int);
    let f = |a: Account| if a.settled_epoch <= n { a.shares as int } else { 0int };
    assert forall|i: int| 0 <= i < s.len() implies f(#[trigger] s[i]) == (|a: Account|
        a.shares as int)(s[i]) by {}
    lemma_sum_by_ext(s, f, |a: Account| a.shares as int);
    lemma_sum_by_shares(s);
    assert(unsettled_shares(s, n) == x.total_shares);
    assert forall|e: int| #![trigger c2[e]] 0 <= e < n + 1 implies c2[e] >= 0 && c2[e]
        * e2[e].total_shares + e2[e].yield_amount * unsettled_shares(s, e) <= e2[e].yield_amount
        * e2[e].total_shares by {
        if e < n {
            assert(c2[e] == credited[e]);
            assert(e2[e] == epochs[e]);
        } else {
            assert(c2[e] == 0);
            assert(e2[e] == x);
        }
    }
    assert forall|e: int| 0 <= e < n implies #[trigger] seq_fn(c2)(e) == seq_fn(credited)(e) by {}
    lemma_sum_over_ext(n, seq_fn(c2), seq_fn(credited));
}

} // verus!
