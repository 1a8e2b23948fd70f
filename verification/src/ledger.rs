//! Share ledger and epoch yield bookkeeping: per-holder accounts kept in a
//! sequence with unique holders, and the per-epoch yield records from which
//! each holder's pending yield is computed.

use vstd::prelude::*;
use crate::math::mul_div_floor;
use crate::types::Address;

verus! {

/// One holder's position in the vault.
#[derive(Clone, Copy, Debug, PartialEq, Eq, Structural)]
pub struct Account {
    pub holder: Address,
    /// Vault shares held.
    pub shares: i128,
    /// Assets deposited over the holder's lifetime.
    pub deposited: i128,
    /// Yield earned in epochs up to `settled_epoch` and not yet claimed.
    pub accrued_yield: i128,
    /// Number of epochs whose yield is already counted in `accrued_yield`.
    pub settled_epoch: u32,
    /// Yield claimed over the holder's lifetime.
    pub claimed_yield: i128,
}

impl Account {
    /// The position of a holder that never interacted with the vault.
    pub open spec fn fresh(holder: Address) -> Account {
        Account {
            holder,
            shares: 0,
            deposited: 0,
            accrued_yield: 0,
            settled_epoch: 0,
            claimed_yield: 0,
        }
    }

    /// An empty position for `holder`.
    pub fn new(holder: Address) -> (r: Account)
        ensures
            r == Account::fresh(holder),
    {
        Account {
            holder,
            shares: 0,
            deposited: 0,
            accrued_yield: 0,
            settled_epoch: 0,
            claimed_yield: 0,
        }
    }
}

/// The yield distributed in one epoch and the share supply it is split over.
#[derive(Clone, Copy, Debug, PartialEq, Eq, Structural)]
pub struct EpochRecord {
    pub yield_amount: i128,
    pub total_shares: i128,
    pub timestamp: u64,
}

// ─────────────────────────────────────────────────────────────────────────────
// Accounts
// ─────────────────────────────────────────────────────────────────────────────

/// No holder has two accounts.
pub open spec fn holders_unique(s: Seq<Account>) -> bool {
    forall|i: int, j: int|
        0 <= i < s.len() && 0 <= j < s.len() && i != j ==> #[trigger] s[i].holder != #[trigger] s[j].holder
}

/// Whether `a` has an account.
pub open spec fn has_account(s: Seq<Account>, a: Address) -> bool {
    exists|i: int| 0 <= i < s.len() && #[trigger] s[i].holder == a
}

/// The position of `a`'s account (meaningful when it has one).
pub open spec fn account_index(s: Seq<Account>, a: Address) -> int {
    choose|i: int| 0 <= i < s.len() && #[trigger] s[i].holder == a
}

/// The account of `a`, or a fresh one when it has none.
pub open spec fn account_in(s: Seq<Account>, a: Address) -> Account {
    if has_account(s, a) {
        s[account_index(s, a)]
    } else {
        Account::fresh(a)
    }
}

/// `s` with `acc` written in its holder's place, appended when new.
pub open spec fn store_account(s: Seq<Account>, acc: Account) -> Seq<Account> {
    if has_account(s, acc.holder) {
        s.update(account_index(s, acc.holder), acc)
    } else {
        s.push(acc)
    }
}

/// Total shares over all accounts.
pub open spec fn sum_shares(s: Seq<Account>) -> int
    decreases s.len(),
{
    if s.len() == 0 {
        0
    } else {
        sum_shares(s.drop_last()) + s.last().shares
    }
}

/// With unique holders, the index found for a holder is the one holding it.
pub proof fn lemma_account_index_unique(s: Seq<Account>, a: Address, i: int)
    requires
        holders_unique(s),
        0 <= i < s.len(),
        s[i].holder == a,
    ensures
        has_account(s, a),
        account_index(s, a) == i,
        account_in(s, a) == s[i],
{
    let k = account_index(s, a);
    assert(0 <= k < s.len() && s[k].holder == a);
    if k != i {
        assert(s[k].holder != s[i].holder);
    }
}

/// Sum of shares after replacing one element.
pub proof fn lemma_sum_shares_update(s: Seq<Account>, i: int, x: Account)
    requires
        0 <= i < s.len(),
    ensures
        sum_shares(s.update(i, x)) == sum_shares(s) - s[i].shares + x.shares,
    decreases s.len(),
{
    let t = s.update(i, x);
    if i == s.len() - 1 {
        assert(t.drop_last() =~= s.drop_last());
    } else {
        lemma_sum_shares_update(s.drop_last(), i, x);
        assert(t.drop_last() =~= s.drop_last().update(i, x));
    }
}

/// Sum of shares after appending an element.
pub proof fn lemma_sum_shares_push(s: Seq<Account>, x: Account)
    ensures
        sum_shares(s.push(x)) == sum_shares(s) + x.shares,
{
    assert(s.push(x).drop_last() =~= s);
}

/// With no negative balance, every balance is at most the total.
pub proof fn lemma_share_at_most_sum(s: Seq<Account>, i: int)
    requires
        0 <= i < s.len(),
        forall|j: int| 0 <= j < s.len() ==> #[trigger] s[j].shares >= 0,
    ensures
        0 <= s[i].shares <= sum_shares(s),
        sum_shares(s) >= 0,
    decreases s.len(),
{
    lemma_sum_shares_nonneg(s.drop_last());
    if i < s.len() - 1 {
        lemma_share_at_most_sum(s.drop_last(), i);
    }
}

/// With no negative balance, the total is not negative.
pub proof fn lemma_sum_shares_nonneg(s: Seq<Account>)
    requires
        forall|j: int| 0 <= j < s.len() ==> #[trigger] s[j].shares >= 0,
    ensures
        sum_shares(s) >= 0,
    decreases s.len(),
{
    if s.len() > 0 {
        lemma_sum_shares_nonneg(s.drop_last());
    }
}

/// With no negative balance, two different accounts together hold at most
/// the total.
pub proof fn lemma_two_shares_at_most_sum(s: Seq<Account>, i: int, j: int)
    requires
        0 <= i < s.len(),
        0 <= j < s.len(),
        i != j,
        forall|k: int| 0 <= k < s.len() ==> #[trigger] s[k].shares >= 0,
    ensures
        s[i].shares + s[j].shares <= sum_shares(s),
    decreases s.len(),
{
    let n = s.len() - 1;
    if i == n {
        lemma_share_at_most_sum(s.drop_last(), j);
    } else if j == n {
        lemma_share_at_most_sum(s.drop_last(), i);
    } else {
        lemma_two_shares_at_most_sum(s.drop_last(), i, j);
    }
}

/// Storing an account keeps holders unique, changes only that holder's
/// account, and moves the share total by the change of its balance.
pub proof fn lemma_store_account(s: Seq<Account>, acc: Account)
    requires
        holders_unique(s),
    ensures
        holders_unique(store_account(s, acc)),
        account_in(store_account(s, acc), acc.holder) == acc,
        forall|a: Address|
            a != acc.holder ==> #[trigger] account_in(store_account(s, acc), a) == account_in(
                s,
                a,
            ),
        sum_shares(store_account(s, acc)) == sum_shares(s) - account_in(s, acc.holder).shares
            + acc.shares,
        store_account(s, acc).len() >= s.len(),
        forall|j: int|
            0 <= j < store_account(s, acc).len() ==> (#[trigger] store_account(s, acc)[j] == acc
                || (j < s.len() && store_account(s, acc)[j] == s[j])),
{
    let t = store_account(s, acc);
    if has_account(s, acc.holder) {
        let k = account_index(s, acc.holder);
        lemma_sum_shares_update(s, k, acc);
        assert forall|i: int, j: int|
            0 <= i < t.len() && 0 <= j < t.len() && i != j implies #[trigger] t[i].holder
            != #[trigger] t[j].holder by {
            if i != k && j != k {
                assert(s[i].holder != s[j].holder);
            } else if i == k {
                assert(s[j].holder != s[k].holder);
            } else {
                assert(s[i].holder != s[k].holder);
            }
        }
        lemma_account_index_unique(t, acc.holder, k);
        assert forall|a: Address| a != acc.holder implies #[trigger] account_in(t, a)
            == account_in(s, a) by {
            if has_account(s, a) {
                let m = account_index(s, a);
                assert(m != k);
                lemma_account_index_unique(t, a, m);
            } else {
                if has_account(t, a) {
                    let m = account_index(t, a);
                    assert(t[m].holder == a);
                    assert(m != k);
                    assert(s[m].holder == a);
                }
            }
        }
    } else {
        lemma_sum_shares_push(s, acc);
        let n = s.len() as int;
        assert forall|i: int, j: int|
            0 <= i < t.len() && 0 <= j < t.len() && i != j implies #[trigger] t[i].holder
            != #[trigger] t[j].holder by {
            if i != n && j != n {
                assert(s[i].holder != s[j].holder);
            } else if i == n {
                if t[j].holder == acc.holder {
                    assert(s[j].holder == acc.holder);
                }
            } else {
                if t[i].holder == acc.holder {
                    assert(s[i].holder == acc.holder);
                }
            }
        }
        lemma_account_index_unique(t, acc.holder, n);
        assert forall|a: Address| a != acc.holder implies #[trigger] account_in(t, a)
            == account_in(s, a) by {
            if has_account(s, a) {
                let m = account_index(s, a);
                lemma_account_index_unique(t, a, m);
            } else {
                if has_account(t, a) {
                    let m = account_index(t, a);
                    assert(t[m].holder == a);
                    assert(m != n);
                    assert(s[m].holder == a);
                }
            }
        }
    }
}

/// Position of `a`'s account in `accounts`, if it has one.
pub fn find_account(accounts: &Vec<Account>, a: Address) -> (r: Option<usize>)
    requires
        holders_unique(accounts@),
    ensures
        r is None <==> !has_account(accounts@, a),
        r matches Some(i) ==> i < accounts.len() && accounts@[i as int].holder == a && i
            == account_index(accounts@, a) && accounts@[i as int] == account_in(accounts@, a),
{
    let n: usize = accounts.len();
    let mut i: usize = 0;
    while i < n
        invariant
            n == accounts.len(),
            i <= n,
            holders_unique(accounts@),
            forall|j: int| 0 <= j < i ==> #[trigger] accounts@[j].holder != a,
        decreases n - i,
    {
        if accounts[i].holder == a {
            proof {
                lemma_account_index_unique(accounts@, a, i as int);
            }
            return Some(i);
        }
        i = i + 1;
    }
    None
}

/// The account of `a` in `accounts`, fresh when it has none.
pub fn get_account(accounts: &Vec<Account>, a: Address) -> (r: Account)
    requires
        holders_unique(accounts@),
    ensures
        r == account_in(accounts@, a),
{
    match find_account(accounts, a) {
        Some(i) => accounts[i],
        None => Account::new(a),
    }
}

/// Writes `acc` into its holder's place (found at `idx`), or appends it.
pub fn put_account(accounts: &mut Vec<Account>, idx: Option<usize>, acc: Account)
    requires
        holders_unique(old(accounts)@),
        idx is None <==> !has_account(old(accounts)@, acc.holder),
        idx matches Some(i) ==> i == account_index(old(accounts)@, acc.holder) && i < old(
            accounts,
        ).len(),
    ensures
        final(accounts)@ == store_account(old(accounts)@, acc),
{
    match idx {
        Some(i) => {
            accounts.set(i, acc);
        },
        None => {
            accounts.push(acc);
        },
    }
}

// ─────────────────────────────────────────────────────────────────────────────
// Allowances
// ─────────────────────────────────────────────────────────────────────────────

/// Shares `spender` may move on behalf of `owner`.
#[derive(Clone, Copy, Debug, PartialEq, Eq, Structural)]
pub struct Allowance {
    pub owner: Address,
    pub spender: Address,
    pub amount: i128,
}

/// No (owner, spender) pair has two entries.
pub open spec fn allowance_pairs_unique(s: Seq<Allowance>) -> bool {
    forall|i: int, j: int|
        0 <= i < s.len() && 0 <= j < s.len() && i != j ==> !(#[trigger] s[i].owner
            == #[trigger] s[j].owner && s[i].spender == s[j].spender)
}

/// Whether the pair has an entry.
pub open spec fn has_allowance(s: Seq<Allowance>, owner: Address, spender: Address) -> bool {
    exists|i: int| 0 <= i < s.len() && #[trigger] s[i].owner == owner && s[i].spender == spender
}

/// Position of the pair's entry (meaningful when it has one).
pub open spec fn allowance_index(s: Seq<Allowance>, owner: Address, spender: Address) -> int {
    choose|i: int| 0 <= i < s.len() && #[trigger] s[i].owner == owner && s[i].spender == spender
}

/// The allowance of the pair; zero when it has no entry.
pub open spec fn allowance_in(s: Seq<Allowance>, owner: Address, spender: Address) -> i128 {
    if has_allowance(s, owner, spender) {
        s[allowance_index(s, owner, spender)].amount
    } else {
        0
    }
}

/// `s` with the pair's allowance set to `amount`.
pub open spec fn set_allowance(s: Seq<Allowance>, owner: Address, spender: Address, amount: i128) -> Seq<
    Allowance,
> {
    if has_allowance(s, owner, spender) {
        s.update(allowance_index(s, owner, spender), Allowance { owner, spender, amount })
    } else {
        s.push(Allowance { owner, spender, amount })
    }
}

/// With unique pairs, the index found for a pair is the one holding it.
pub proof fn lemma_allowance_index_unique(s: Seq<Allowance>, owner: Address, spender: Address, i: int)
    requires
        allowance_pairs_unique(s),
        0 <= i < s.len(),
        s[i].owner == owner,
        s[i].spender == spender,
    ensures
        has_allowance(s, owner, spender),
        allowance_index(s, owner, spender) == i,
{
    let k = allowance_index(s, owner, spender);
    assert(0 <= k < s.len() && s[k].owner == owner && s[k].spender == spender);
    if k != i {
        assert(!(s[k].owner == s[i].owner && s[k].spender == s[i].spender));
    }
}

/// Setting one pair's allowance keeps pairs unique and leaves every other
/// pair's allowance as it was.
pub proof fn lemma_set_allowance(s: Seq<Allowance>, owner: Address, spender: Address, amount: i128)
    requires
        allowance_pairs_unique(s),
    ensures
        allowance_pairs_unique(set_allowance(s, owner, spender, amount)),
        allowance_in(set_allowance(s, owner, spender, amount), owner, spender) == amount,
        forall|o: Address, p: Address|
            !(o == owner && p == spender) ==> #[trigger] allowance_in(
                set_allowance(s, owner, spender, amount),
                o,
                p,
            ) == allowance_in(s, o, p),
        forall|j: int|
            0 <= j < set_allowance(s, owner, spender, amount).len() ==> (#[trigger] set_allowance(
                s,
                owner,
                spender,
                amount,
            )[j].amount == amount || (j < s.len() && set_allowance(s, owner, spender, amount)[j]
                == s[j])),
{
    let t = set_allowance(s, owner, spender, amount);
    let n = if has_allowance(s, owner, spender) {
        allowance_index(s, owner, spender)
    } else {
        s.len() as int
    };
    assert(t[n] == Allowance { owner, spender, amount });
    assert forall|i: int, j: int|
        0 <= i < t.len() && 0 <= j < t.len() && i != j implies !(#[trigger] t[i].owner
        == #[trigger] t[j].owner && t[i].spender == t[j].spender) by {
        if i != n && j != n {
            assert(t[i] == s[i] && t[j] == s[j]);
        } else if i == n {
            assert(t[j] == s[j]);
            if s[j].owner == owner && s[j].spender == spender {
                assert(has_allowance(s, owner, spender));
                lemma_allowance_index_unique(s, owner, spender, j);
            }
        } else {
            assert(t[i] == s[i]);
            if s[i].owner == owner && s[i].spender == spender {
                assert(has_allowance(s, owner, spender));
                lemma_allowance_index_unique(s, owner, spender, i);
            }
        }
    }
    lemma_allowance_index_unique(t, owner, spender, n);
    assert forall|o: Address, p: Address| !(o == owner && p == spender) implies #[trigger] allowance_in(
        t,
        o,
        p,
    ) == allowance_in(s, o, p) by {
        if has_allowance(s, o, p) {
            let m = allowance_index(s, o, p);
            assert(m != n);
            assert(t[m] == s[m]);
            lemma_allowance_index_unique(t, o, p, m);
        } else if has_allowance(t, o, p) {
            let m = allowance_index(t, o, p);
            assert(m != n);
            assert(t[m] == s[m]);
        }
    }
}

/// The allowance `spender` has from `owner`, with its position if stored.
pub fn find_allowance(s: &Vec<Allowance>, owner: Address, spender: Address) -> (r: (Option<usize>, i128))
    requires
        allowance_pairs_unique(s@),
    ensures
        r.0 is None <==> !has_allowance(s@, owner, spender),
        r.0 matches Some(i) ==> i == allowance_index(s@, owner, spender) && i < s.len(),
        r.1 == allowance_in(s@, owner, spender),
{
    let n: usize = s.len();
    let mut i: usize = 0;
    while i < n
        invariant
            n == s.len(),
            i <= n,
            allowance_pairs_unique(s@),
            forall|j: int|
                0 <= j < i ==> !(#[trigger] s@[j].owner == owner && s@[j].spender == spender),
        decreases n - i,
    {
        if s[i].owner == owner && s[i].spender == spender {
            proof {
                lemma_allowance_index_unique(s@, owner, spender, i as int);
            }
            return (Some(i), s[i].amount);
        }
        i = i + 1;
    }
    (None, 0)
}

/// Sets the allowance of a pair whose position is `idx` (if stored).
pub fn put_allowance(
    s: &mut Vec<Allowance>,
    idx: Option<usize>,
    owner: Address,
    spender: Address,
    amount: i128,
)
    requires
        allowance_pairs_unique(old(s)@),
        idx is None <==> !has_allowance(old(s)@, owner, spender),
        idx matches Some(i) ==> i == allowance_index(old(s)@, owner, spender) && i < old(s).len(),
    ensures
        final(s)@ == set_allowance(old(s)@, owner, spender, amount),
{
    match idx {
        Some(i) => {
            s.set(i, Allowance { owner, spender, amount });
        },
        None => {
            s.push(Allowance { owner, spender, amount });
        },
    }
}

// ─────────────────────────────────────────────────────────────────────────────
// Epoch yield
// ─────────────────────────────────────────────────────────────────────────────

/// The part of an epoch's yield earned by `shares` (rounded down).
pub open spec fn epoch_share_of(e: EpochRecord, shares: int) -> int {
    if e.total_shares > 0 {
        shares * e.yield_amount / (e.total_shares as int)
    } else {
        0
    }
}

/// Yield earned by a constant balance of `shares` over epochs `[from, to)`.
pub open spec fn share_yield(epochs: Seq<EpochRecord>, shares: int, from: int, to: int) -> int
    decreases to - from,
{
    if to <= from {
        0
    } else {
        share_yield(epochs, shares, from, to - 1) + epoch_share_of(epochs[to - 1], shares)
    }
}

/// Yield distributed over epochs `[from, to)`.
pub open spec fn yield_total(epochs: Seq<EpochRecord>, from: int, to: int) -> int
    decreases to - from,
{
    if to <= from {
        0
    } else {
        yield_total(epochs, from, to - 1) + epochs[to - 1].yield_amount
    }
}

/// Every recorded epoch carries a positive yield over a positive supply.
pub open spec fn epochs_well_formed(epochs: Seq<EpochRecord>) -> bool {
    forall|e: int|
        #![trigger epochs[e]]
        0 <= e < epochs.len() ==> epochs[e].yield_amount > 0 && epochs[e].total_shares > 0
}

/// `shares` never exceeds the supply of the epochs in `[from, to)`.
pub open spec fn within_supply(epochs: Seq<EpochRecord>, shares: int, from: int, to: int) -> bool {
    forall|e: int| #![trigger epochs[e]] from <= e < to ==> shares <= epochs[e].total_shares
}

/// One epoch's share of yield is between zero and its whole yield.
pub proof fn lemma_epoch_share_bounded(e: EpochRecord, shares: int)
    requires
        e.yield_amount >= 0,
        e.total_shares > 0,
        0 <= shares <= e.total_shares,
    ensures
        0 <= epoch_share_of(e, shares) <= e.yield_amount,
{
    let t = e.total_shares as int;
    let y = e.yield_amount as int;
    assert(0 <= shares * y <= t * y) by (nonlinear_arith)
        requires
            0 <= shares <= t,
            y >= 0,
    ;
    vstd::arithmetic::div_mod::lemma_div_is_ordered(shares * y, t * y, t);
    vstd::arithmetic::div_mod::lemma_div_multiples_vanish(y, t);
    vstd::arithmetic::div_mod::lemma_div_pos_is_pos(shares * y, t);
}

/// A holder's yield over a range is between zero and the range's yield.
pub proof fn lemma_share_yield_bounded(epochs: Seq<EpochRecord>, shares: int, from: int, to: int)
    requires
        0 <= from,
        to <= epochs.len(),
        epochs_well_formed(epochs),
        0 <= shares,
        within_supply(epochs, shares, from, to),
    ensures
        0 <= share_yield(epochs, shares, from, to) <= yield_total(epochs, from, to),
    decreases to - from,
{
    if to > from {
        lemma_share_yield_bounded(epochs, shares, from, to - 1);
        lemma_epoch_share_bounded(epochs[to - 1], shares);
    }
}

/// Yield totals over adjacent ranges add up.
pub proof fn lemma_yield_total_split(epochs: Seq<EpochRecord>, a: int, b: int, c: int)
    requires
        a <= b <= c,
    ensures
        yield_total(epochs, a, c) == yield_total(epochs, a, b) + yield_total(epochs, b, c),
    decreases c - b,
{
    if c > b {
        lemma_yield_total_split(epochs, a, b, c - 1);
    }
}

/// Yield totals are not negative.
pub proof fn lemma_yield_total_nonneg(epochs: Seq<EpochRecord>, from: int, to: int)
    requires
        0 <= from,
        to <= epochs.len(),
        epochs_well_formed(epochs),
    ensures
        yield_total(epochs, from, to) >= 0,
    decreases to - from,
{
    if to > from {
        lemma_yield_total_nonneg(epochs, from, to - 1);
    }
}

/// Appending an epoch leaves sums over earlier ranges unchanged.
pub proof fn lemma_push_keeps_sums(
    epochs: Seq<EpochRecord>,
    x: EpochRecord,
    shares: int,
    from: int,
    to: int,
)
    requires
        0 <= from,
        to <= epochs.len(),
    ensures
        yield_total(epochs.push(x), from, to) == yield_total(epochs, from, to),
        share_yield(epochs.push(x), shares, from, to) == share_yield(epochs, shares, from, to),
    decreases to - from,
{
    if to > from {
        lemma_push_keeps_sums(epochs, x, shares, from, to - 1);
        assert(epochs.push(x)[to - 1] == epochs[to - 1]);
    }
}

/// Yield earned by a constant balance of `shares` over the epochs from
/// `from` to the latest one.
pub fn share_yield_since(epochs: &Vec<EpochRecord>, shares: i128, from: usize) -> (r: i128)
    requires
        from <= epochs.len(),
        epochs_well_formed(epochs@),
        0 <= shares,
        within_supply(epochs@, shares as int, from as int, epochs.len() as int),
        yield_total(epochs@, from as int, epochs.len() as int) <= i128::MAX,
    ensures
        r == share_yield(epochs@, shares as int, from as int, epochs.len() as int),
{
    let n: usize = epochs.len();
    let mut acc: i128 = 0;
    let mut k: usize = from;
    proof {
        lemma_yield_total_split(epochs@, from as int, from as int, n as int);
    }
    while k < n
        invariant
            n == epochs.len(),
            from <= k <= n,
            epochs_well_formed(epochs@),
            0 <= shares,
            within_supply(epochs@, shares as int, from as int, n as int),
            yield_total(epochs@, from as int, n as int) <= i128::MAX,
            acc == share_yield(epochs@, shares as int, from as int, k as int),
        decreases n - k,
    {
        let e: EpochRecord = epochs[k];
        proof {
            lemma_share_yield_bounded(epochs@, shares as int, from as int, (k + 1) as int);
            lemma_yield_total_split(epochs@, from as int, (k + 1) as int, n as int);
            lemma_yield_total_nonneg(epochs@, (k + 1) as int, n as int);
            lemma_epoch_share_bounded(e, shares as int);
        }
        let part: i128 = match mul_div_floor(shares, e.yield_amount, e.total_shares) {
            Some(p) => p,
            None => {
                // a holder's part never exceeds the epoch's yield
                proof {
                    assert(false);
                }
                0
            },
        };
        acc = acc + part;
        k = k + 1;
    }
    acc
}

} // verus!
