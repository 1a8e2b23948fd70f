//! Properties of the vault that span several operations, stated over the
//! abstract state that the operations' contracts speak of.

use vstd::prelude::*;
use crate::ledger::{
    account_index, epoch_share_of, has_account, lemma_push_keeps_sums, lemma_store_account,
    lemma_two_shares_at_most_sum, share_yield, store_account, EpochRecord,
};
use crate::books::{lemma_books_bound_entitlement, lemma_sum_by_add, lemma_sum_by_ext, sum_by};
use crate::ledger::Account;
use crate::types::{early_fee_spec, lemma_fee_at_most_gross, Address, VaultState};
use crate::vault::{
    account_ok, lemma_account_ok, lemma_scaled_down, lemma_settle, transition_allowed, VaultError,
    VaultView,
};

verus! {

/// A holder never earns or claims more yield than was distributed in total.
pub proof fn lemma_yield_never_exceeds_distributed(v: VaultView, a: Address)
    requires
        v.wf(),
    ensures
        0 <= v.pending_yield(a),
        v.pending_yield(a) + v.account(a).claimed_yield <= v.total_yield_distributed,
{
    lemma_account_ok(v, a);
    lemma_settle(v, v.account(a));
}

/// A claim of part of the pending yield leaves the rest pending: the
/// claimant's pending yield drops by what it claimed, its lifetime claims
/// grow by as much, and no other holder's pending yield moves.  Claiming
/// everything leaves nothing pending.
pub proof fn lemma_claim_moves_pending_to_claimed(v: VaultView, a: Address, amount: int, b: Address)
    requires
        v.wf(),
        0 <= amount <= v.pending_yield(a),
    ensures
        v.after_claim(a, amount).pending_yield(a) == v.pending_yield(a) - amount,
        v.after_claim(a, amount).account(a).claimed_yield == v.account(a).claimed_yield + amount,
        b != a ==> v.after_claim(a, amount).pending_yield(b) == v.pending_yield(b),
        v.after_claim(a, amount).account(a).shares == v.account(a).shares,
        amount == v.pending_yield(a) ==> v.after_claim(a, amount).pending_yield(a) == 0,
{
    lemma_account_ok(v, a);
    lemma_settle(v, v.account(a));
    lemma_store_account(v.accounts, v.claimed(a, amount));
    let n = v.epochs.len() as int;
    assert(share_yield(v.epochs, v.account(a).shares as int, n, n) == 0);
}

/// Vesting never releases more than is pending, releases more (or as much)
/// as time passes, and releases everything once the vesting period after the
/// latest distribution is over, or at once when the period is zero.
pub proof fn lemma_vesting_schedule(v: VaultView, amount: int, now: u64, later: u64)
    requires
        amount >= 0,
        now <= later,
    ensures
        0 <= v.vested_part(amount, now) <= amount,
        v.vested_part(amount, now) <= v.vested_part(amount, later),
        v.profile.yield_vesting_period == 0 ==> v.vested_part(amount, now) == amount,
        v.epochs.len() > 0 && now >= v.epochs[v.epochs.len() - 1].timestamp
            + v.profile.yield_vesting_period ==> v.vested_part(amount, now) == amount,
{
    let p = v.profile.yield_vesting_period as int;
    if p > 0 && v.epochs.len() > 0 {
        let t = v.epochs[v.epochs.len() - 1].timestamp as int;
        if t < now < t + p {
            lemma_scaled_down(amount, now - t, p);
            if later < t + p {
                assert(amount * (now - t) <= amount * (later - t)) by (nonlinear_arith)
                    requires
                        amount >= 0,
                        now <= later,
                ;
                vstd::arithmetic::div_mod::lemma_div_is_ordered(
                    amount * (now - t),
                    amount * (later - t),
                    p,
                );
            }
        }
        if t < later < t + p {
            lemma_scaled_down(amount, later - t, p);
        }
    }
}

/// Buying shares leaves every holder's pending yield as it was: yield earned
/// before the purchase is settled at the old balance.
pub proof fn lemma_issue_keeps_pending(
    v: VaultView,
    a: Address,
    shares: int,
    assets: int,
    b: Address,
)
    requires
        v.wf(),
        shares > 0,
        assets > 0,
        v.total_supply + shares <= i128::MAX,
        v.account(a).deposited + assets <= i128::MAX,
    ensures
        v.after_issue(a, shares, assets).pending_yield(b) == v.pending_yield(b),
        v.after_issue(a, shares, assets).account(a).shares == v.account(a).shares + shares,
{
    lemma_account_ok(v, a);
    lemma_settle(v, v.account(a));
    lemma_store_account(v.accounts, v.credited(a, shares, assets));
    let n = v.epochs.len() as int;
    assert(share_yield(v.epochs, v.account(a).shares + shares, n, n) == 0);
}

/// Burning shares leaves every holder's pending yield as it was.
pub proof fn lemma_burn_keeps_pending(v: VaultView, a: Address, shares: int, assets: int, b: Address)
    requires
        v.wf(),
        0 < shares <= v.account(a).shares,
    ensures
        v.after_burn(a, shares, assets).pending_yield(b) == v.pending_yield(b),
        v.after_burn(a, shares, assets).account(a).shares == v.account(a).shares - shares,
{
    lemma_account_ok(v, a);
    lemma_settle(v, v.account(a));
    lemma_store_account(v.accounts, v.debited(a, shares));
    let n = v.epochs.len() as int;
    assert(share_yield(v.epochs, v.account(a).shares - shares, n, n) == 0);
}

/// A distribution of `amount` raises each holder's pending yield by its
/// pro-rata part of `amount`, rounded down, at its current balance.
pub proof fn lemma_distribute_credits_pro_rata(v: VaultView, amount: int, now: u64, a: Address)
    requires
        v.wf(),
        v.total_supply > 0,
        0 < amount <= i128::MAX,
    ensures
        v.after_distribute(amount, now).pending_yield(a) == v.pending_yield(a) + v.account(
            a,
        ).shares * amount / (v.total_supply as int),
{
    lemma_account_ok(v, a);
    let acc = v.account(a);
    let x = EpochRecord { yield_amount: amount as i128, total_shares: v.total_supply, timestamp: now };
    let w = v.after_distribute(amount, now);
    assert(w.epochs == v.epochs.push(x));
    assert(w.account(a) == acc);
    lemma_push_keeps_sums(
        v.epochs,
        x,
        acc.shares as int,
        acc.settled_epoch as int,
        v.epochs.len() as int,
    );
    assert(w.epochs[v.epochs.len() as int] == x);
    assert(epoch_share_of(x, acc.shares as int) == acc.shares * amount / (v.total_supply as int));
}

/// A holder of the whole supply is credited the whole distribution.
pub proof fn lemma_sole_holder_receives_all_yield(v: VaultView, amount: int, now: u64, a: Address)
    requires
        v.wf(),
        v.total_supply > 0,
        v.account(a).shares == v.total_supply,
        0 < amount <= i128::MAX,
    ensures
        v.after_distribute(amount, now).pending_yield(a) == v.pending_yield(a) + amount,
{
    lemma_distribute_credits_pro_rata(v, amount, now, a);
    vstd::arithmetic::div_mod::lemma_div_multiples_vanish(amount, v.total_supply as int);
    assert(v.total_supply * amount == amount * v.total_supply) by (nonlinear_arith);
}

/// Depositing and immediately redeeming the shares received never returns
/// more than was deposited.  Excluded: a vault with no shares but leftover
/// assets, where the first depositor's shares also claim those assets.
pub proof fn lemma_deposit_then_redeem_no_gain(v: VaultView, a: Address, assets: int)
    requires
        v.wf(),
        assets > 0,
        v.total_supply > 0 || v.total_assets == 0,
        v.preview_deposit(assets) > 0,
        v.total_supply + v.preview_deposit(assets) <= i128::MAX,
        v.total_assets + assets <= i128::MAX,
        v.account(a).deposited + assets <= i128::MAX,
    ensures
        v.after_issue(a, v.preview_deposit(assets), assets).preview_redeem(v.preview_deposit(assets))
            <= assets,
{
    let s = v.total_supply as int;
    let t = v.total_assets as int;
    let sh = v.preview_deposit(assets);
    let w = v.after_issue(a, sh, assets);
    assert(w.total_supply == s + sh);
    assert(w.total_assets == t + assets);
    if s == 0 {
        assert(sh == assets);
        vstd::arithmetic::div_mod::lemma_div_multiples_vanish(assets, assets);
        assert(sh * (t + assets) == assets * assets);
    } else {
        vstd::arithmetic::div_mod::lemma_fundamental_div_mod(assets * s, t);
        let r = (assets * s) % t;
        assert(t * sh + r == assets * s);
        assert(sh * (t + assets) <= assets * (s + sh)) by (nonlinear_arith)
            requires
                t * sh + r == assets * s,
                r >= 0,
        ;
        assert(sh * (t + assets) / (s + sh) <= assets) by {
            vstd::arithmetic::div_mod::lemma_div_is_ordered(
                sh * (t + assets),
                assets * (s + sh),
                s + sh,
            );
            vstd::arithmetic::div_mod::lemma_div_multiples_vanish(assets, s + sh);
            assert(assets * (s + sh) == (s + sh) * assets) by (nonlinear_arith);
        }
    }
}

/// A transfer moves exactly `amount` shares from `from` to `to`, keeps the
/// share supply, and leaves every holder's pending yield as it was.
pub proof fn lemma_transfer_conserves(v: VaultView, from: Address, to: Address, amount: int, b: Address)
    requires
        v.wf(),
        0 < amount <= v.account(from).shares,
    ensures
        v.after_transfer(from, to, amount).total_supply == v.total_supply,
        v.after_transfer(from, to, amount).pending_yield(b) == v.pending_yield(b),
        from != to ==> v.after_transfer(from, to, amount).account(from).shares == v.account(
            from,
        ).shares - amount,
        from != to ==> v.after_transfer(from, to, amount).account(to).shares == v.account(
            to,
        ).shares + amount,
        from == to ==> v.after_transfer(from, to, amount).account(from).shares == v.account(
            from,
        ).shares,
        b != from && b != to ==> v.after_transfer(from, to, amount).account(b) == v.account(b),
{
    let n = v.epochs.len() as int;
    lemma_account_ok(v, from);
    lemma_settle(v, v.account(from));
    lemma_account_ok(v, to);
    lemma_settle(v, v.account(to));
    if from == to {
        lemma_store_account(v.accounts, v.settled(v.account(from)));
        assert(share_yield(v.epochs, v.account(from).shares as int, n, n) == 0);
    } else {
        let w = VaultView { accounts: store_account(v.accounts, v.debited(from, amount)), ..v };
        lemma_store_account(v.accounts, v.debited(from, amount));
        assert(w.account(to) == v.account(to));
        assert forall|k: int| 0 <= k < v.accounts.len() implies #[trigger] v.accounts[k].shares
            >= 0 by {
            assert(account_ok(v.accounts[k], v.epochs));
        }
        if has_account(v.accounts, to) {
            let i = account_index(v.accounts, from);
            let j = account_index(v.accounts, to);
            assert(v.accounts[i].holder != v.accounts[j].holder);
            lemma_two_shares_at_most_sum(v.accounts, i, j);
        }
        assert(v.account(to).shares + amount <= v.total_supply);
        lemma_store_account(w.accounts, w.moved_in(to, amount));
        assert(share_yield(v.epochs, v.account(from).shares - amount, n, n) == 0);
        assert(share_yield(v.epochs, v.account(to).shares + amount, n, n) == 0);
    }
}

/// All holders together have never been credited more yield than was
/// distributed: summed over every account, pending plus claimed yield is
/// at most the total distributed.
pub proof fn lemma_all_holders_within_distributed(v: VaultView)
    requires
        v.wf(),
    ensures
        sum_by(v.accounts, |a: Account| v.pending_of(a) + a.claimed_yield)
            <= v.total_yield_distributed,
{
    assert forall|i: int| 0 <= i < v.accounts.len() implies #[trigger] v.accounts[i].shares >= 0 by {
        assert(account_ok(v.accounts[i], v.epochs));
    }
    lemma_books_bound_entitlement(v.accounts, v.epochs, v.epoch_credits);
    let n = v.epochs.len() as int;
    let f = |a: Account| a.accrued_yield + a.claimed_yield;
    let g = |a: Account| share_yield(v.epochs, a.shares as int, a.settled_epoch as int, n);
    lemma_sum_by_add(v.accounts, f, g);
    let h = |a: Account| f(a) + g(a);
    assert forall|i: int| 0 <= i < v.accounts.len() implies h(#[trigger] v.accounts[i]) == (|a: Account|
        v.pending_of(a) + a.claimed_yield)(v.accounts[i]) by {}
    lemma_sum_by_ext(v.accounts, h, |a: Account| v.pending_of(a) + a.claimed_yield);
}

/// Once funding is cancelled or the vault is closed, no operation moves it
/// to another state.
pub proof fn lemma_final_states_stay(from: VaultState, to: VaultState)
    requires
        from == VaultState::Cancelled || from == VaultState::Closed,
        transition_allowed(from, to),
    ensures
        to == from,
{
}

/// Paying a holder out of a cancelled vault or in emergency mode never pays
/// out more than the vault holds, and paying out the only holder left pays
/// out everything.
pub proof fn lemma_exit_within_assets(v: VaultView, a: Address)
    requires
        v.wf(),
        v.account(a).shares > 0,
    ensures
        0 <= v.preview_redeem(v.account(a).shares as int) <= v.total_assets,
        v.account(a).shares == v.total_supply ==> v.preview_redeem(v.account(a).shares as int)
            == v.total_assets,
{
    lemma_account_ok(v, a);
    let h = v.account(a).shares as int;
    let s = v.total_supply as int;
    let t = v.total_assets as int;
    assert(0 <= h * t <= s * t) by (nonlinear_arith)
        requires
            0 < h <= s,
            t > 0,
    ;
    vstd::arithmetic::div_mod::lemma_div_is_ordered(h * t, s * t, s);
    vstd::arithmetic::div_mod::lemma_div_multiples_vanish(t, s);
    vstd::arithmetic::div_mod::lemma_div_pos_is_pos(h * t, s);
}

/// An early redemption pays out at most what the shares are worth; the fee
/// it keeps back stays in the vault.
pub proof fn lemma_early_net_within_worth(v: VaultView, shares: int)
    requires
        v.wf(),
        0 < shares <= v.total_supply,
    ensures
        0 <= v.early_net(shares) <= v.preview_redeem(shares) <= v.total_assets,
{
    let s = v.total_supply as int;
    let t = v.total_assets as int;
    assert(0 <= shares * t <= s * t) by (nonlinear_arith)
        requires
            0 < shares <= s,
            t > 0,
    ;
    vstd::arithmetic::div_mod::lemma_div_is_ordered(shares * t, s * t, s);
    vstd::arithmetic::div_mod::lemma_div_multiples_vanish(t, s);
    vstd::arithmetic::div_mod::lemma_div_pos_is_pos(shares * t, s);
    lemma_fee_at_most_gross(v.preview_redeem(shares), v.early_redemption_fee_bps as int);
}


/// With a vesting period, vesting is timed from the latest distribution:
/// at or before its timestamp nothing of the pending yield has vested, and
/// while the period after it runs, the vested part is the elapsed fraction
/// of the period (rounded down).
pub proof fn lemma_vesting_timed_from_latest_distribution(v: VaultView, amount: int, now: u64)
    requires
        v.profile.yield_vesting_period > 0,
        v.epochs.len() > 0,
        amount >= 0,
    ensures
        now <= v.epochs[v.epochs.len() - 1].timestamp ==> v.vested_part(amount, now) == 0,
        v.epochs[v.epochs.len() - 1].timestamp < now < v.epochs[v.epochs.len() - 1].timestamp
            + v.profile.yield_vesting_period ==> v.vested_part(amount, now) == amount * (now
            - v.epochs[v.epochs.len() - 1].timestamp) / (v.profile.yield_vesting_period as int),
{
}

/// With a vesting period, a distribution leaves nothing claimable by anyone
/// until time moves past it: every holder's claimable yield is zero at the
/// distribution's timestamp or before.
pub proof fn lemma_distribution_restarts_vesting(
    v: VaultView,
    amount: int,
    now: u64,
    a: Address,
    t: u64,
)
    requires
        v.profile.yield_vesting_period > 0,
        t <= now,
    ensures
        v.after_distribute(amount, now).claimable_yield(a, t) == 0,
{
    let w = v.after_distribute(amount, now);
    assert(w.epochs[w.epochs.len() - 1].timestamp == now);
}

/// A processed early redemption pays the requested shares' worth less the
/// fee at the vault's own rate, `gross * fee_bps / 10_000` with `gross` the
/// shares' pro-rata part of the assets; the vault's assets drop by exactly
/// that net payment (the fee stays) and the user's balance by the shares.
pub proof fn lemma_early_redemption_charges_configured_fee(v: VaultView, caller: Address, id: int)
    requires
        v.wf(),
        v.process_error(caller, id) is None,
    ensures
        ({
            let req = v.redemption_requests[id];
            let gross = req.shares * v.total_assets / (v.total_supply as int);
            let net = gross - gross * v.early_redemption_fee_bps / 10_000;
            &&& v.early_net(req.shares as int) == net
            &&& v.after_process(id).total_assets == v.total_assets - net
            &&& v.after_process(id).total_supply == v.total_supply - req.shares
            &&& v.after_process(id).account(req.user).shares == v.account(req.user).shares
                - req.shares
        }),
{
    let req = v.redemption_requests[id];
    lemma_account_ok(v, req.user);
    lemma_settle(v, v.account(req.user));
    let gross = req.shares * v.total_assets / (v.total_supply as int);
    assert(v.total_supply > 0);
    assert(req.shares > 0);
    lemma_early_net_within_worth(v, req.shares as int);
    assert(v.preview_redeem(req.shares as int) == gross);
    assert(early_fee_spec(gross, v.early_redemption_fee_bps as int) == gross
        * v.early_redemption_fee_bps / 10_000);
    let d = v.debited(req.user, req.shares as int);
    lemma_store_account(v.accounts, d);
    let b = v.after_burn(req.user, req.shares as int, v.early_net(req.shares as int));
    assert(b.account(req.user) == d);
    assert(v.after_process(id).accounts == b.accounts);
}

/// A deposit that goes through never lifts the receiver's lifetime deposits
/// above the per-user maximum, when there is one: what it deposited before
/// plus what it deposits now stays within the limit.
pub proof fn lemma_deposit_respects_user_cap(
    v: VaultView,
    caller: Address,
    assets: int,
    receiver: Address,
    kyc: bool,
)
    requires
        v.wf(),
        v.deposit_error(caller, assets, receiver, kyc) is None,
    ensures
        v.after_issue(receiver, v.preview_deposit(assets), assets).account(receiver).deposited
            == v.account(receiver).deposited + assets,
        v.max_deposit_per_user > 0 ==> v.after_issue(receiver, v.preview_deposit(assets), assets).account(
            receiver,
        ).deposited <= v.max_deposit_per_user,
{
    lemma_account_ok(v, receiver);
    lemma_settle(v, v.account(receiver));
    lemma_store_account(v.accounts, v.credited(receiver, v.preview_deposit(assets), assets));
}

/// The same limit holds for mints: the assets a mint costs count against
/// the receiver's lifetime deposits.
pub proof fn lemma_mint_respects_user_cap(
    v: VaultView,
    caller: Address,
    shares: int,
    receiver: Address,
    kyc: bool,
)
    requires
        v.wf(),
        v.mint_error(caller, shares, receiver, kyc) is None,
    ensures
        v.after_issue(receiver, shares, v.preview_mint(shares)).account(receiver).deposited
            == v.account(receiver).deposited + v.preview_mint(shares),
        v.max_deposit_per_user > 0 ==> v.after_issue(receiver, shares, v.preview_mint(shares)).account(
            receiver,
        ).deposited <= v.max_deposit_per_user,
{
    lemma_account_ok(v, receiver);
    lemma_settle(v, v.account(receiver));
    lemma_store_account(v.accounts, v.credited(receiver, shares, v.preview_mint(shares)));
}

/// A deposit or mint is refused for the per-user maximum only when the
/// receiver's lifetime deposits plus what it would pay in now exceed it.
pub proof fn lemma_user_cap_refuses_only_excess(
    v: VaultView,
    caller: Address,
    amount: int,
    receiver: Address,
    kyc: bool,
)
    requires
        v.wf(),
    ensures
        v.deposit_error(caller, amount, receiver, kyc) == Some(VaultError::ExceedsMaximumDeposit)
            ==> v.max_deposit_per_user > 0 && v.account(receiver).deposited + amount
            > v.max_deposit_per_user,
        v.mint_error(caller, amount, receiver, kyc) == Some(VaultError::ExceedsMaximumDeposit)
            ==> v.max_deposit_per_user > 0 && v.account(receiver).deposited + v.preview_mint(amount)
            > v.max_deposit_per_user,
{
}

} // verus!
