//! The single-RWA vault: a share ledger over a pool of assets that moves
//! through a funding → active → matured → closed lifecycle (or from
//! funding to cancelled, with refunds, when funding fails, or into an
//! emergency mode with pro-rata claims), with yield distributed in epochs
//! pro rata to the shares held at distribution time and vesting over the
//! vault's vesting period, early-redemption requests processed at a fee,
//! timelocked critical actions, and deposits, withdrawals, transfers,
//! redemptions and claims counted per epoch and over the vault's lifetime.
//!
//! Every operation checks its preconditions in a fixed order and either
//! fails with the first applicable error, leaving the vault untouched, or
//! applies its effect.  Calls that the surrounding contract makes to other
//! contracts (token transfers, the KYC verifier) and the ledger clock are
//! not made here: their results are arguments.

use vstd::prelude::*;
use crate::ledger::{
    account_in, account_index, allowance_in, allowance_index, allowance_pairs_unique,
    epoch_share_of, epochs_well_formed, find_account, find_allowance, get_account, has_account,
    has_allowance, holders_unique, lemma_account_index_unique, lemma_epoch_share_bounded,
    lemma_push_keeps_sums, lemma_set_allowance, lemma_share_at_most_sum, lemma_share_yield_bounded,
    lemma_store_account, lemma_two_shares_at_most_sum, lemma_yield_total_nonneg,
    lemma_yield_total_split, put_account, put_allowance, set_allowance, share_yield,
    share_yield_since, store_account, sum_shares, within_supply, yield_total, Account, Allowance,
    EpochRecord,
};
use crate::books::{
    books_ok, credit_settlement, lemma_books_after_distribute, lemma_books_after_settle,
};
use crate::math::{ceil_div, mul_div_ceil, mul_div_floor};
use crate::types::{
    early_fee_spec, yield_per_share_spec, Address, ClaimCostHint, EarlyRedemptionFeePreview,
    ActionType, ActivityKind, EpochActivity, EpochData, InitParams, PendingYieldEpoch,
    RedemptionRequest, Role, RwaDetails, TimelockAction, VaultState, YieldSummary,
};

verus! {

/// Largest early-redemption fee a vault accepts, in basis points.
pub const MAX_EARLY_REDEMPTION_FEE_BPS: u32 = 1000;

/// Freeze flag that stops withdrawals, redemptions and early-redemption
/// requests.
pub const FREEZE_WITHDRAW_REDEEM: u32 = 2;

/// Freeze flag that stops yield claims.
pub const FREEZE_YIELD: u32 = 4;

/// Why an operation was refused.  The contract error code is
/// given for each variant that has one.
#[derive(Clone, Copy, Debug, PartialEq, Eq, Structural)]
pub enum VaultError {
    /// Code 1: the caller has not passed KYC.
    NotKYCVerified,
    /// Code 3: the caller lacks the operator role the operation needs.
    NotAuthorized,
    /// Code 4: the caller is not the admin.
    NotAdmin,
    /// Code 5: the operation is not allowed in the vault's current state.
    InvalidVaultState,
    /// Code 6: the deposit is below the minimum deposit.
    BelowMinimumDeposit,
    /// Code 7: the deposit would exceed the per-user maximum.
    ExceedsMaximumDeposit,
    /// Code 8: the maturity date has not been reached.
    NotMatured,
    /// Code 9: the caller has no pending yield.
    NoYieldToClaim,
    /// Code 10: total assets are below the funding target.
    FundingTargetNotMet,
    /// Code 11: the vault is paused, or the operation is frozen.
    VaultPaused,
    /// Code 12: the address given is the vault contract's own.
    ZeroAddress,
    /// Code 13: the amount is zero (or converts to zero shares).
    ZeroAmount,
    /// Code 14: an address taking part is blacklisted.
    AddressBlacklisted,
    /// Code 16: the funding deadline has passed.
    FundingDeadlinePassed,
    /// Code 35: a timelocked action's delay has not passed yet.
    TimelockDelayNotPassed,
    /// Code 19: the caller may not move the owner's shares.
    InsufficientAllowance,
    /// Code 20: the owner holds too few shares.
    InsufficientBalance,
    /// Code 22: the early-redemption fee is above the maximum.
    FeeTooHigh,
    /// Code 32: the owner must claim its pending yield before burning shares.
    BurnRequiresYieldClaim,
    /// Code 33: the minimum deposit is above the per-user maximum.
    InvalidDepositLimits,
    /// Code 48: the shares redeem for zero assets.
    PreviewZeroAssets,
    /// Code 50: yield cannot be distributed when no shares exist.
    NoShareholders,
    /// Funding cannot be cancelled before its deadline has passed (or when
    /// the vault has no deadline).
    FundingDeadlineNotPassed,
    /// Funding cannot be cancelled once total assets reach the target.
    FundingTargetReached,
    /// No open early-redemption request has that number: it was never made
    /// or was already processed or rejected.
    InvalidRedemptionRequest,
    /// No open timelocked action has that number: it was never proposed or
    /// was already executed or cancelled.
    InvalidTimelockAction,
    /// A total would leave the range of `i128` (or the epoch counter that
    /// of `u32`).
    ArithmeticOverflow,
}

/// The outcome of checking whether a user can ask for early redemption.
#[derive(Clone, Copy, Debug, PartialEq, Eq, Structural)]
pub enum RedemptionPrecheck {
    Pass,
    Fail(VaultError),
}

/// An operator role held by an address.
#[derive(Clone, Copy, Debug, PartialEq, Eq, Structural)]
pub struct RoleGrant {
    pub holder: Address,
    pub role: Role,
}

/// The abstract state of a vault.
#[verifier::ext_equal]
pub struct VaultView {
    pub admin: Address,
    pub state: VaultState,
    pub funding_target: i128,
    pub maturity_date: u64,
    pub min_deposit: i128,
    pub max_deposit_per_user: i128,
    pub early_redemption_fee_bps: u32,
    pub funding_deadline: u64,
    pub paused: bool,
    /// Bits of `FREEZE_WITHDRAW_REDEEM` and `FREEZE_YIELD` that are set.
    pub freeze_flags: u32,
    /// Whether shares can only be burned once their owner has no pending
    /// yield.
    pub burn_requires_yield_claim: bool,
    /// Whether share transfers need the receiver to have passed KYC.
    pub transfer_requires_kyc: bool,
    pub total_supply: i128,
    pub total_assets: i128,
    pub total_yield_distributed: i128,
    pub roles: Seq<RoleGrant>,
    pub blacklist: Seq<Address>,
    pub accounts: Seq<Account>,
    pub epochs: Seq<EpochRecord>,
    pub allowances: Seq<Allowance>,
    /// Per epoch, the yield credited so far to holders who settled it.
    pub epoch_credits: Seq<int>,
    pub profile: VaultProfile,
    /// Activity counted in each epoch, indexed by epoch number; the last
    /// entry is the current epoch's.
    pub activity: Seq<EpochActivity>,
    /// Activity counted over the vault's lifetime.
    pub lifetime_activity: EpochActivity,
    /// Early-redemption requests, numbered by position.
    pub redemption_requests: Seq<RedemptionRequest>,
    /// Timelocked critical actions, numbered by position.
    pub timelock_actions: Seq<TimelockAction>,
}

/// Descriptive configuration a vault is created with and keeps unchanged.
#[derive(Debug)]
pub struct VaultProfile {
    /// Asset token address (e.g. USDC).
    pub asset: Address,
    pub share_name: String,
    pub share_symbol: String,
    pub share_decimals: u32,
    pub zkme_verifier: Address,
    pub cooperator: Address,
    pub rwa: RwaDetails,
    /// Delay in seconds for critical admin operations.
    pub timelock_delay: u64,
    /// Yield vesting period in seconds (0 = instant claiming).
    pub yield_vesting_period: u64,
}

/// Whether `b` occurs among the first `n` entries of `s`.
pub open spec fn listed(s: Seq<Address>, b: Address, n: int) -> bool {
    exists|j: int| 0 <= j < n && s[j] == b
}

/// The lifecycle only moves forward: Funding → Active → Matured → Closed,
/// or Funding → Cancelled when funding fails, or from any of Funding, Active
/// and Matured into Emergency.
pub open spec fn transition_allowed(from: VaultState, to: VaultState) -> bool {
    ||| from == to
    ||| from == VaultState::Funding && to == VaultState::Active
    ||| from == VaultState::Funding && to == VaultState::Cancelled
    ||| to == VaultState::Emergency && (from == VaultState::Funding || from == VaultState::Active
        || from == VaultState::Matured)
    ||| from == VaultState::Active && to == VaultState::Matured
    ||| from == VaultState::Matured && to == VaultState::Closed
}

/// A holder's account is consistent with the recorded epochs: balances are
/// not negative, its balance never exceeded the supply of an epoch it has
/// not settled, and it never earned or claimed more than was distributed
/// in the epochs it has settled.
pub open spec fn account_ok(acc: Account, epochs: Seq<EpochRecord>) -> bool {
    &&& acc.shares >= 0
    &&& acc.deposited >= 0
    &&& acc.accrued_yield >= 0
    &&& acc.claimed_yield >= 0
    &&& acc.settled_epoch <= epochs.len()
    &&& within_supply(epochs, acc.shares as int, acc.settled_epoch as int, epochs.len() as int)
    &&& acc.accrued_yield + acc.claimed_yield <= yield_total(
        epochs,
        0,
        acc.settled_epoch as int,
    )
}

impl VaultView {
    /// The vault's invariant.
    pub open spec fn wf(self) -> bool {
        &&& holders_unique(self.accounts)
        &&& forall|i: int|
            0 <= i < self.accounts.len() ==> #[trigger] account_ok(self.accounts[i], self.epochs)
        &&& sum_shares(self.accounts) == self.total_supply
        &&& self.total_supply >= 0
        &&& self.total_assets >= 0
        &&& self.total_supply > 0 ==> self.total_assets > 0
        &&& epochs_well_formed(self.epochs)
        &&& self.epochs.len() < u32::MAX
        &&& self.total_yield_distributed == yield_total(self.epochs, 0, self.epochs.len() as int)
        &&& self.early_redemption_fee_bps <= MAX_EARLY_REDEMPTION_FEE_BPS
        &&& allowance_pairs_unique(self.allowances)
        &&& forall|i: int| 0 <= i < self.allowances.len() ==> #[trigger] self.allowances[i].amount >= 0
        &&& books_ok(self.accounts, self.epochs, self.epoch_credits)
        &&& self.activity.len() == self.epochs.len() + 1
        &&& forall|i: int|
            0 <= i < self.redemption_requests.len() ==> #[trigger] self.redemption_requests[i].shares
                > 0
    }

    /// Whether `a` holds a role that passes a check for `r`.
    pub open spec fn has_role(self, a: Address, r: Role) -> bool {
        exists|i: int|
            0 <= i < self.roles.len() && #[trigger] self.roles[i].holder == a
                && self.roles[i].role.grants_spec(r)
    }

    /// Whether `a` is blacklisted.
    pub open spec fn is_blacklisted(self, a: Address) -> bool {
        listed(self.blacklist, a, self.blacklist.len() as int)
    }

    /// The account of `a` (a fresh one if it never held shares).
    pub open spec fn account(self, a: Address) -> Account {
        account_in(self.accounts, a)
    }

    /// Number of epochs in which yield has been distributed.
    pub open spec fn current_epoch(self) -> int {
        self.epochs.len() as int
    }

    /// Yield earned by `acc` and not yet claimed.
    pub open spec fn pending_of(self, acc: Account) -> int {
        acc.accrued_yield + share_yield(
            self.epochs,
            acc.shares as int,
            acc.settled_epoch as int,
            self.epochs.len() as int,
        )
    }

    /// Yield earned by `a` and not yet claimed.
    pub open spec fn pending_yield(self, a: Address) -> int {
        self.pending_of(self.account(a))
    }

    /// `acc` with its yield earned so far moved into `accrued_yield`.
    pub open spec fn settled(self, acc: Account) -> Account {
        Account {
            holder: acc.holder,
            shares: acc.shares,
            deposited: acc.deposited,
            accrued_yield: self.pending_of(acc) as i128,
            settled_epoch: self.epochs.len() as u32,
            claimed_yield: acc.claimed_yield,
        }
    }

    /// Whether total assets have reached the funding target.
    pub open spec fn funding_target_met(self) -> bool {
        self.total_assets >= self.funding_target
    }

    /// Shares that `assets` buy (rounded down); one for one in an empty vault.
    pub open spec fn preview_deposit(self, assets: int) -> int {
        if self.total_supply == 0 {
            assets
        } else {
            assets * self.total_supply / (self.total_assets as int)
        }
    }

    /// Assets that `shares` cost (rounded up); one for one in an empty vault.
    pub open spec fn preview_mint(self, shares: int) -> int {
        if self.total_supply == 0 {
            shares
        } else {
            ceil_div(shares * self.total_assets, self.total_supply as int)
        }
    }

    /// Shares burned to pay out `assets` (rounded up).
    pub open spec fn preview_withdraw(self, assets: int) -> int {
        if self.total_supply == 0 {
            0
        } else {
            ceil_div(assets * self.total_supply, self.total_assets as int)
        }
    }

    /// Assets paid out for `shares` (rounded down).
    pub open spec fn preview_redeem(self, shares: int) -> int {
        if self.total_supply == 0 {
            0
        } else {
            shares * self.total_assets / (self.total_supply as int)
        }
    }

    // ── errors ──────────────────────────────────────────────────────────

    /// Common checks of deposits and mints, after the amount is known to be
    /// positive: limits on the assets paid in by `receiver`.
    pub open spec fn issue_limit_error(self, receiver: Address, assets: int, shares: int) -> Option<
        VaultError,
    > {
        let dep = self.account(receiver).deposited;
        if assets < self.min_deposit {
            Some(VaultError::BelowMinimumDeposit)
        } else if self.max_deposit_per_user > 0 && dep + assets > self.max_deposit_per_user {
            Some(VaultError::ExceedsMaximumDeposit)
        } else if shares > i128::MAX || assets > i128::MAX || self.total_assets + assets
            > i128::MAX || self.total_supply + shares > i128::MAX || dep + assets > i128::MAX {
            Some(VaultError::ArithmeticOverflow)
        } else if shares == 0 {
            Some(VaultError::ZeroAmount)
        } else {
            None
        }
    }

    /// Checks shared by every way of buying shares.
    pub open spec fn issue_entry_error(
        self,
        caller: Address,
        receiver: Address,
        caller_kyc_verified: bool,
    ) -> Option<VaultError> {
        if self.paused {
            Some(VaultError::VaultPaused)
        } else if !(self.state == VaultState::Funding || self.state == VaultState::Active) {
            Some(VaultError::InvalidVaultState)
        } else if !caller_kyc_verified {
            Some(VaultError::NotKYCVerified)
        } else if self.is_blacklisted(caller) || self.is_blacklisted(receiver) {
            Some(VaultError::AddressBlacklisted)
        } else {
            None
        }
    }

    /// Why `deposit` refuses, if it does.
    pub open spec fn deposit_error(
        self,
        caller: Address,
        assets: int,
        receiver: Address,
        caller_kyc_verified: bool,
    ) -> Option<VaultError> {
        if self.issue_entry_error(caller, receiver, caller_kyc_verified) is Some {
            self.issue_entry_error(caller, receiver, caller_kyc_verified)
        } else if assets <= 0 {
            Some(VaultError::ZeroAmount)
        } else {
            self.issue_limit_error(receiver, assets, self.preview_deposit(assets))
        }
    }

    /// Why `mint` refuses, if it does.
    pub open spec fn mint_error(
        self,
        caller: Address,
        shares: int,
        receiver: Address,
        caller_kyc_verified: bool,
    ) -> Option<VaultError> {
        if self.issue_entry_error(caller, receiver, caller_kyc_verified) is Some {
            self.issue_entry_error(caller, receiver, caller_kyc_verified)
        } else if shares <= 0 {
            Some(VaultError::ZeroAmount)
        } else if self.preview_mint(shares) > i128::MAX {
            Some(VaultError::ArithmeticOverflow)
        } else {
            self.issue_limit_error(receiver, self.preview_mint(shares), shares)
        }
    }

    /// Checks shared by withdrawals and redemptions.
    pub open spec fn burn_entry_error(self, receiver: Address, owner: Address) -> Option<VaultError> {
        if self.paused || self.freeze_flags & FREEZE_WITHDRAW_REDEEM != 0 {
            Some(VaultError::VaultPaused)
        } else if !(self.state == VaultState::Active || self.state == VaultState::Matured) {
            Some(VaultError::InvalidVaultState)
        } else if self.is_blacklisted(owner) || self.is_blacklisted(receiver) {
            Some(VaultError::AddressBlacklisted)
        } else {
            None
        }
    }

    /// Why `withdraw` refuses, if it does.
    pub open spec fn withdraw_error(
        self,
        caller: Address,
        assets: int,
        receiver: Address,
        owner: Address,
    ) -> Option<VaultError> {
        if self.burn_entry_error(receiver, owner) is Some {
            self.burn_entry_error(receiver, owner)
        } else if assets <= 0 {
            Some(VaultError::ZeroAmount)
        } else if caller != owner && self.preview_withdraw(assets) > self.allowance(owner, caller) {
            Some(VaultError::InsufficientAllowance)
        } else if self.total_supply == 0 || self.preview_withdraw(assets) > self.account(
            owner,
        ).shares {
            Some(VaultError::InsufficientBalance)
        } else if self.burn_requires_yield_claim && self.pending_yield(owner) > 0 {
            Some(VaultError::BurnRequiresYieldClaim)
        } else {
            None
        }
    }

    /// Why `redeem` refuses, if it does.
    pub open spec fn redeem_error(
        self,
        caller: Address,
        shares: int,
        receiver: Address,
        owner: Address,
    ) -> Option<VaultError> {
        if self.burn_entry_error(receiver, owner) is Some {
            self.burn_entry_error(receiver, owner)
        } else if shares <= 0 {
            Some(VaultError::ZeroAmount)
        } else if caller != owner && shares > self.allowance(owner, caller) {
            Some(VaultError::InsufficientAllowance)
        } else if shares > self.account(owner).shares {
            Some(VaultError::InsufficientBalance)
        } else if self.burn_requires_yield_claim && self.pending_yield(owner) > 0 {
            Some(VaultError::BurnRequiresYieldClaim)
        } else if self.preview_redeem(shares) == 0 {
            Some(VaultError::PreviewZeroAssets)
        } else {
            None
        }
    }

    /// Allowances after `caller` burns `shares` of `owner`: unchanged when
    /// the owner acts itself, else the caller's allowance is spent.
    pub open spec fn spent_allowance(self, caller: Address, owner: Address, shares: int) -> Seq<
        Allowance,
    > {
        if caller == owner {
            self.allowances
        } else {
            set_allowance(
                self.allowances,
                owner,
                caller,
                (self.allowance(owner, caller) - shares) as i128,
            )
        }
    }

    /// Why `distribute_yield` refuses, if it does.
    pub open spec fn distribute_error(self, caller: Address, amount: int) -> Option<VaultError> {
        if !self.has_role(caller, Role::YieldOperator) {
            Some(VaultError::NotAuthorized)
        } else if self.state != VaultState::Active {
            Some(VaultError::InvalidVaultState)
        } else if self.total_supply == 0 {
            Some(VaultError::NoShareholders)
        } else if amount <= 0 {
            Some(VaultError::ZeroAmount)
        } else if self.total_assets + amount > i128::MAX || self.total_yield_distributed + amount
            > i128::MAX || self.epochs.len() + 1 >= u32::MAX {
            Some(VaultError::ArithmeticOverflow)
        } else {
            None
        }
    }

    /// The part of `amount` of pending yield that has vested at `now`.
    /// Pending yield vests linearly over the vesting period that follows the
    /// latest distribution: nothing at its timestamp, all of it once the
    /// period has passed, the elapsed fraction (rounded down) in between.
    /// With a vesting period of zero (or before any distribution) all of it
    /// has vested.
    pub open spec fn vested_part(self, amount: int, now: u64) -> int {
        let p = self.profile.yield_vesting_period;
        if p == 0 || self.epochs.len() == 0 {
            amount
        } else {
            let t = self.epochs[self.epochs.len() - 1].timestamp;
            if now >= t + p {
                amount
            } else if now <= t {
                0
            } else {
                amount * (now - t) / (p as int)
            }
        }
    }

    /// Yield `a` can claim at `now`: the vested part of its pending yield.
    pub open spec fn claimable_yield(self, a: Address, now: u64) -> int {
        self.vested_part(self.pending_yield(a), now)
    }

    /// Why `claim_yield` refuses, if it does.
    pub open spec fn claim_error(self, caller: Address, now: u64) -> Option<VaultError> {
        if self.paused || self.freeze_flags & FREEZE_YIELD != 0 {
            Some(VaultError::VaultPaused)
        } else if !(self.state == VaultState::Active || self.state == VaultState::Matured) {
            Some(VaultError::InvalidVaultState)
        } else if self.claimable_yield(caller, now) == 0 {
            Some(VaultError::NoYieldToClaim)
        } else {
            None
        }
    }

    /// Why `activate_vault` refuses, if it does.
    pub open spec fn activate_error(self, caller: Address, now: u64) -> Option<VaultError> {
        if !self.has_role(caller, Role::LifecycleManager) {
            Some(VaultError::NotAuthorized)
        } else if self.state != VaultState::Funding {
            Some(VaultError::InvalidVaultState)
        } else if !self.funding_target_met() {
            Some(VaultError::FundingTargetNotMet)
        } else if self.funding_deadline > 0 && now > self.funding_deadline {
            Some(VaultError::FundingDeadlinePassed)
        } else {
            None
        }
    }

    /// Why `mature_vault` refuses, if it does.
    pub open spec fn mature_error(self, caller: Address, now: u64) -> Option<VaultError> {
        if !self.has_role(caller, Role::LifecycleManager) {
            Some(VaultError::NotAuthorized)
        } else if self.state != VaultState::Active {
            Some(VaultError::InvalidVaultState)
        } else if now < self.maturity_date {
            Some(VaultError::NotMatured)
        } else {
            None
        }
    }

    /// Why `close_vault` refuses, if it does.
    pub open spec fn close_error(self, caller: Address) -> Option<VaultError> {
        if !self.has_role(caller, Role::LifecycleManager) {
            Some(VaultError::NotAuthorized)
        } else if self.state != VaultState::Matured {
            Some(VaultError::InvalidVaultState)
        } else {
            None
        }
    }

    /// Why `cancel_funding` refuses, if it does.
    pub open spec fn cancel_error(self, caller: Address, now: u64) -> Option<VaultError> {
        if !self.has_role(caller, Role::LifecycleManager) {
            Some(VaultError::NotAuthorized)
        } else if self.state != VaultState::Funding {
            Some(VaultError::InvalidVaultState)
        } else if !(self.funding_deadline > 0 && now > self.funding_deadline) {
            Some(VaultError::FundingDeadlineNotPassed)
        } else if self.funding_target_met() {
            Some(VaultError::FundingTargetReached)
        } else {
            None
        }
    }

    /// Why paying `caller` out of a vault in state `st` refuses, if it does.
    pub open spec fn exit_error(self, caller: Address, st: VaultState) -> Option<VaultError> {
        if self.state != st {
            Some(VaultError::InvalidVaultState)
        } else if self.account(caller).shares == 0 {
            Some(VaultError::InsufficientBalance)
        } else if self.preview_redeem(self.account(caller).shares as int) == 0 {
            Some(VaultError::PreviewZeroAssets)
        } else {
            None
        }
    }

    /// Why `refund` refuses, if it does.
    pub open spec fn refund_error(self, caller: Address) -> Option<VaultError> {
        self.exit_error(caller, VaultState::Cancelled)
    }

    /// Why `emergency_claim` refuses, if it does.
    pub open spec fn emergency_claim_error(self, caller: Address) -> Option<VaultError> {
        self.exit_error(caller, VaultState::Emergency)
    }

    /// Why `enter_emergency` refuses, if it does.
    pub open spec fn emergency_error(self, caller: Address) -> Option<VaultError> {
        if !self.has_role(caller, Role::TreasuryManager) {
            Some(VaultError::NotAuthorized)
        } else if !(self.state == VaultState::Funding || self.state == VaultState::Active
            || self.state == VaultState::Matured) {
            Some(VaultError::InvalidVaultState)
        } else {
            None
        }
    }

    /// Why `request_early_redemption` refuses, if it does.
    pub open spec fn request_error(self, user: Address, shares: int) -> Option<VaultError> {
        if self.paused || self.freeze_flags & FREEZE_WITHDRAW_REDEEM != 0 {
            Some(VaultError::VaultPaused)
        } else if self.state != VaultState::Active {
            Some(VaultError::InvalidVaultState)
        } else if self.is_blacklisted(user) {
            Some(VaultError::AddressBlacklisted)
        } else if shares <= 0 {
            Some(VaultError::ZeroAmount)
        } else if shares > self.account(user).shares {
            Some(VaultError::InsufficientBalance)
        } else if self.redemption_requests.len() >= u32::MAX {
            Some(VaultError::ArithmeticOverflow)
        } else {
            None
        }
    }

    /// Why `user` cannot ask to redeem early at all, if it cannot.
    pub open spec fn precheck_error(self, user: Address) -> Option<VaultError> {
        if self.paused || self.freeze_flags & FREEZE_WITHDRAW_REDEEM != 0 {
            Some(VaultError::VaultPaused)
        } else if self.state != VaultState::Active {
            Some(VaultError::InvalidVaultState)
        } else if self.is_blacklisted(user) {
            Some(VaultError::AddressBlacklisted)
        } else if self.account(user).shares == 0 {
            Some(VaultError::InsufficientBalance)
        } else {
            None
        }
    }

    /// Whether request `id` exists and is neither processed nor rejected.
    pub open spec fn request_open(self, id: int) -> bool {
        0 <= id < self.redemption_requests.len() && !self.redemption_requests[id].processed
    }

    /// Why `process_early_redemption` refuses, if it does.
    pub open spec fn process_error(self, caller: Address, id: int) -> Option<VaultError> {
        let req = self.redemption_requests[id];
        if !self.has_role(caller, Role::LifecycleManager) {
            Some(VaultError::NotAuthorized)
        } else if self.paused {
            Some(VaultError::VaultPaused)
        } else if self.state != VaultState::Active {
            Some(VaultError::InvalidVaultState)
        } else if !self.request_open(id) {
            Some(VaultError::InvalidRedemptionRequest)
        } else if self.is_blacklisted(req.user) {
            Some(VaultError::AddressBlacklisted)
        } else if req.shares > self.account(req.user).shares {
            Some(VaultError::InsufficientBalance)
        } else if self.preview_redeem(req.shares as int) == 0 {
            Some(VaultError::PreviewZeroAssets)
        } else {
            None
        }
    }

    /// Why `propose_action` refuses, if it does.
    pub open spec fn propose_error(self, caller: Address, now: u64) -> Option<VaultError> {
        if caller != self.admin {
            Some(VaultError::NotAdmin)
        } else if now + self.profile.timelock_delay > u64::MAX || self.timelock_actions.len()
            >= u32::MAX {
            Some(VaultError::ArithmeticOverflow)
        } else {
            None
        }
    }

    /// Whether action `id` exists and is neither executed nor cancelled.
    pub open spec fn action_open(self, id: int) -> bool {
        0 <= id < self.timelock_actions.len() && !self.timelock_actions[id].executed
            && !self.timelock_actions[id].cancelled
    }

    /// Why `execute_action` refuses, if it does.
    pub open spec fn execute_error(self, caller: Address, id: int, now: u64) -> Option<VaultError> {
        if caller != self.admin {
            Some(VaultError::NotAdmin)
        } else if !self.action_open(id) {
            Some(VaultError::InvalidTimelockAction)
        } else if now < self.timelock_actions[id].executable_at {
            Some(VaultError::TimelockDelayNotPassed)
        } else {
            None
        }
    }

    /// Why `cancel_action` refuses, if it does.
    pub open spec fn cancel_action_error(self, caller: Address, id: int) -> Option<VaultError> {
        if caller != self.admin {
            Some(VaultError::NotAdmin)
        } else if !self.action_open(id) {
            Some(VaultError::InvalidTimelockAction)
        } else {
            None
        }
    }

    /// Why `reject_early_redemption` refuses, if it does.
    pub open spec fn reject_error(self, caller: Address, id: int) -> Option<VaultError> {
        if !self.has_role(caller, Role::LifecycleManager) {
            Some(VaultError::NotAuthorized)
        } else if !self.request_open(id) {
            Some(VaultError::InvalidRedemptionRequest)
        } else {
            None
        }
    }

    /// Shares `spender` may move on behalf of `owner`.
    pub open spec fn allowance(self, owner: Address, spender: Address) -> i128 {
        allowance_in(self.allowances, owner, spender)
    }

    /// Why `transfer` refuses, if it does.
    pub open spec fn transfer_error(
        self,
        from: Address,
        to: Address,
        amount: int,
        to_kyc_verified: bool,
    ) -> Option<VaultError> {
        if self.paused {
            Some(VaultError::VaultPaused)
        } else if self.is_blacklisted(from) || self.is_blacklisted(to) {
            Some(VaultError::AddressBlacklisted)
        } else if self.transfer_requires_kyc && !to_kyc_verified {
            Some(VaultError::NotKYCVerified)
        } else if amount <= 0 {
            Some(VaultError::ZeroAmount)
        } else if amount > self.account(from).shares {
            Some(VaultError::InsufficientBalance)
        } else {
            None
        }
    }

    /// Why `transfer_from` refuses, if it does.
    pub open spec fn transfer_from_error(
        self,
        spender: Address,
        from: Address,
        to: Address,
        amount: int,
        to_kyc_verified: bool,
    ) -> Option<VaultError> {
        if self.paused {
            Some(VaultError::VaultPaused)
        } else if self.is_blacklisted(from) || self.is_blacklisted(to) {
            Some(VaultError::AddressBlacklisted)
        } else if self.transfer_requires_kyc && !to_kyc_verified {
            Some(VaultError::NotKYCVerified)
        } else if amount <= 0 {
            Some(VaultError::ZeroAmount)
        } else if amount > self.allowance(from, spender) {
            Some(VaultError::InsufficientAllowance)
        } else if amount > self.account(from).shares {
            Some(VaultError::InsufficientBalance)
        } else {
            None
        }
    }

    // ── effects ─────────────────────────────────────────────────────────

    /// `a`'s account after `shares` are moved into it by a transfer.
    pub open spec fn moved_in(self, a: Address, shares: int) -> Account {
        let s = self.settled(self.account(a));
        Account {
            holder: s.holder,
            shares: (s.shares + shares) as i128,
            deposited: s.deposited,
            accrued_yield: s.accrued_yield,
            settled_epoch: s.settled_epoch,
            claimed_yield: s.claimed_yield,
        }
    }

    /// The vault after `amount` shares move from `from` to `to`; both
    /// accounts are settled first.
    pub open spec fn after_transfer(self, from: Address, to: Address, amount: int) -> VaultView {
        if from == to {
            VaultView {
                accounts: store_account(self.accounts, self.settled(self.account(from))),
                epoch_credits: self.credits_after_settling(from),
                ..self
            }
        } else {
            let w = VaultView {
                accounts: store_account(self.accounts, self.debited(from, amount)),
                epoch_credits: self.credits_after_settling(from),
                ..self
            };
            VaultView {
                accounts: store_account(w.accounts, w.moved_in(to, amount)),
                epoch_credits: w.credits_after_settling(to),
                ..self
            }
        }
    }

    /// Epoch credits after `a` settles every epoch.
    pub open spec fn credits_after_settling(self, a: Address) -> Seq<int> {
        credit_settlement(self.epoch_credits, self.epochs, self.account(a))
    }

    /// The vault in state `s`.
    pub open spec fn with_state(self, s: VaultState) -> VaultView {
        VaultView { state: s, ..self }
    }

    /// `a`'s account after `shares` bought with `assets` are credited to it.
    pub open spec fn credited(self, a: Address, shares: int, assets: int) -> Account {
        let s = self.settled(self.account(a));
        Account {
            holder: s.holder,
            shares: (s.shares + shares) as i128,
            deposited: (s.deposited + assets) as i128,
            accrued_yield: s.accrued_yield,
            settled_epoch: s.settled_epoch,
            claimed_yield: s.claimed_yield,
        }
    }

    /// The vault after `shares` are issued to `a` for `assets`.
    pub open spec fn after_issue(self, a: Address, shares: int, assets: int) -> VaultView {
        VaultView {
            accounts: store_account(self.accounts, self.credited(a, shares, assets)),
            epoch_credits: self.credits_after_settling(a),
            total_supply: (self.total_supply + shares) as i128,
            total_assets: (self.total_assets + assets) as i128,
            ..self
        }
    }

    /// `a`'s account after `shares` are burned from it.
    pub open spec fn debited(self, a: Address, shares: int) -> Account {
        let s = self.settled(self.account(a));
        Account {
            holder: s.holder,
            shares: (s.shares - shares) as i128,
            deposited: s.deposited,
            accrued_yield: s.accrued_yield,
            settled_epoch: s.settled_epoch,
            claimed_yield: s.claimed_yield,
        }
    }

    /// The vault after `shares` of `a` are burned and `assets` paid out.
    pub open spec fn after_burn(self, a: Address, shares: int, assets: int) -> VaultView {
        VaultView {
            accounts: store_account(self.accounts, self.debited(a, shares)),
            epoch_credits: self.credits_after_settling(a),
            total_supply: (self.total_supply - shares) as i128,
            total_assets: (self.total_assets - assets) as i128,
            ..self
        }
    }

    /// `a`'s account once `amount` of its pending yield is paid out; the
    /// rest stays pending.
    pub open spec fn claimed(self, a: Address, amount: int) -> Account {
        let s = self.settled(self.account(a));
        Account {
            holder: s.holder,
            shares: s.shares,
            deposited: s.deposited,
            accrued_yield: (s.accrued_yield - amount) as i128,
            settled_epoch: s.settled_epoch,
            claimed_yield: (s.claimed_yield + amount) as i128,
        }
    }

    /// The vault after `a` claims `amount` of its pending yield.
    pub open spec fn after_claim(self, a: Address, amount: int) -> VaultView {
        VaultView {
            accounts: store_account(self.accounts, self.claimed(a, amount)),
            epoch_credits: self.credits_after_settling(a),
            ..self
        }
    }

    /// The vault after a new epoch distributes `amount` over the current supply.
    pub open spec fn after_distribute(self, amount: int, now: u64) -> VaultView {
        VaultView {
            epochs: self.epochs.push(
                EpochRecord {
                    yield_amount: amount as i128,
                    total_shares: self.total_supply,
                    timestamp: now,
                },
            ),
            total_assets: (self.total_assets + amount) as i128,
            total_yield_distributed: (self.total_yield_distributed + amount) as i128,
            epoch_credits: self.epoch_credits.push(0),
            activity: self.activity.push(EpochActivity::zeroed()),
            ..self
        }
    }

    /// The vault once an event of `kind` moving `volume` is counted in the
    /// current epoch and over the lifetime (see `EpochActivity::recorded`).
    pub open spec fn with_activity(self, kind: ActivityKind, volume: int, joined: bool, exited: bool) -> VaultView {
        let last = self.activity.len() - 1;
        VaultView {
            activity: self.activity.update(
                last,
                self.activity[last].recorded(kind, volume, joined, exited),
            ),
            lifetime_activity: self.lifetime_activity.recorded(kind, volume, joined, exited),
            ..self
        }
    }

    /// The vault after all of `a`'s shares are burned for the assets they
    /// are worth (rounded down), counted as a redemption that empties `a`.
    pub open spec fn after_exit(self, a: Address) -> VaultView {
        let held = self.account(a).shares as int;
        let assets = self.preview_redeem(held);
        self.after_burn(a, held, assets).with_activity(ActivityKind::Redemption, assets, false, true)
    }

    /// The vault once `user` has asked to redeem `shares` early at `now`.
    pub open spec fn after_request(self, user: Address, shares: int, now: u64) -> VaultView {
        VaultView {
            redemption_requests: self.redemption_requests.push(
                RedemptionRequest { user, shares: shares as i128, request_time: now, processed: false },
            ),
            ..self
        }
    }

    /// The vault with request `id` marked processed.
    pub open spec fn with_request_closed(self, id: int) -> VaultView {
        VaultView {
            redemption_requests: self.redemption_requests.update(
                id,
                RedemptionRequest { processed: true, ..self.redemption_requests[id] },
            ),
            ..self
        }
    }

    /// What an early redemption of `shares` pays out: their worth less the
    /// early-redemption fee, which stays in the vault.
    pub open spec fn early_net(self, shares: int) -> int {
        let gross = self.preview_redeem(shares);
        gross - early_fee_spec(gross, self.early_redemption_fee_bps as int)
    }

    /// The vault after request `id` is processed: the requested shares are
    /// burned, the net amount paid out and the request closed.
    pub open spec fn after_process(self, id: int) -> VaultView {
        let req = self.redemption_requests[id];
        let net = self.early_net(req.shares as int);
        self.after_burn(req.user, req.shares as int, net).with_request_closed(id).with_activity(
            ActivityKind::Redemption,
            net,
            false,
            self.account(req.user).shares == req.shares,
        )
    }

    /// The vault with action `id` marked executed.
    pub open spec fn with_action_executed(self, id: int) -> VaultView {
        VaultView {
            timelock_actions: self.timelock_actions.update(
                id,
                TimelockAction { executed: true, ..self.timelock_actions[id] },
            ),
            ..self
        }
    }

    /// The vault with action `id` marked cancelled.
    pub open spec fn with_action_cancelled(self, id: int) -> VaultView {
        VaultView {
            timelock_actions: self.timelock_actions.update(
                id,
                TimelockAction { cancelled: true, ..self.timelock_actions[id] },
            ),
            ..self
        }
    }

    /// Whether a transfer from `from` to `to` brings in a new holder.
    pub open spec fn transfer_joins(self, from: Address, to: Address) -> bool {
        from != to && self.account(to).shares == 0
    }

    /// Whether a transfer of `amount` from `from` to `to` empties `from`.
    pub open spec fn transfer_exits(self, from: Address, to: Address, amount: int) -> bool {
        from != to && self.account(from).shares == amount
    }

    /// The vault with `a` added to or removed from the blacklist, every
    /// other address keeping its standing.
    pub open spec fn blacklist_updated(self, other: VaultView, a: Address, flag: bool) -> bool {
        &&& other.is_blacklisted(a) == flag
        &&& forall|b: Address| b != a ==> #[trigger] other.is_blacklisted(b) == self.is_blacklisted(b)
        &&& other == VaultView { blacklist: other.blacklist, ..self }
    }
}

// ─────────────────────────────────────────────────────────────────────────────
// Proofs about the invariant
// ─────────────────────────────────────────────────────────────────────────────

/// A fresh account is consistent with any epochs.
pub proof fn lemma_fresh_account_ok(a: Address, epochs: Seq<EpochRecord>)
    requires
        epochs_well_formed(epochs),
    ensures
        account_ok(Account::fresh(a), epochs),
{
    assert(yield_total(epochs, 0, 0) == 0);
    assert forall|e: int| 0 <= e < epochs.len() implies 0 <= #[trigger] epochs[e].total_shares by {
        assert(epochs[e].total_shares > 0);
    }
}

/// Every holder's account in a well-formed vault is consistent.
pub proof fn lemma_account_ok(v: VaultView, a: Address)
    requires
        v.wf(),
    ensures
        account_ok(v.account(a), v.epochs),
        v.account(a).holder == a,
        v.account(a).shares <= v.total_supply,
{
    if has_account(v.accounts, a) {
        let i = account_index(v.accounts, a);
        assert(account_ok(v.accounts[i], v.epochs));
        assert forall|j: int| 0 <= j < v.accounts.len() implies #[trigger] v.accounts[j].shares
            >= 0 by {
            assert(account_ok(v.accounts[j], v.epochs));
        }
        lemma_share_at_most_sum(v.accounts, i);
    } else {
        lemma_fresh_account_ok(a, v.epochs);
    }
}

/// Settling a consistent account keeps it consistent and keeps its pending
/// yield, which is bounded by what was distributed less what it claimed.
pub proof fn lemma_settle(v: VaultView, acc: Account)
    requires
        v.wf(),
        account_ok(acc, v.epochs),
    ensures
        0 <= acc.accrued_yield <= v.pending_of(acc),
        v.pending_of(acc) + acc.claimed_yield <= v.total_yield_distributed,
        account_ok(v.settled(acc), v.epochs),
        v.pending_of(v.settled(acc)) == v.pending_of(acc),
        v.settled(acc).accrued_yield == v.pending_of(acc),
{
    let n = v.epochs.len() as int;
    let s = acc.settled_epoch as int;
    lemma_share_yield_bounded(v.epochs, acc.shares as int, s, n);
    lemma_yield_total_split(v.epochs, 0, s, n);
    lemma_yield_total_nonneg(v.epochs, s, n);
    assert(share_yield(v.epochs, acc.shares as int, n, n) == 0);
}

/// Storing a consistent account keeps every account consistent and the
/// share total equal to the supply once the supply moves with the balance.
pub proof fn lemma_store_keeps_accounts_ok(v: VaultView, acc: Account)
    requires
        v.wf(),
        account_ok(acc, v.epochs),
    ensures
        forall|i: int|
            0 <= i < store_account(v.accounts, acc).len() ==> #[trigger] account_ok(
                store_account(v.accounts, acc)[i],
                v.epochs,
            ),
        holders_unique(store_account(v.accounts, acc)),
        sum_shares(store_account(v.accounts, acc)) == v.total_supply - v.account(acc.holder).shares
            + acc.shares,
{
    lemma_store_account(v.accounts, acc);
    let t = store_account(v.accounts, acc);
    assert forall|i: int| 0 <= i < t.len() implies #[trigger] account_ok(t[i], v.epochs) by {
        if t[i] != acc {
            assert(account_ok(v.accounts[i], v.epochs));
        }
    }
}

// ─────────────────────────────────────────────────────────────────────────────
// The vault
// ─────────────────────────────────────────────────────────────────────────────

/// A single real-world-asset vault.
pub struct Vault {
    admin: Address,
    state: VaultState,
    funding_target: i128,
    maturity_date: u64,
    min_deposit: i128,
    max_deposit_per_user: i128,
    early_redemption_fee_bps: u32,
    funding_deadline: u64,
    paused: bool,
    freeze_flags: u32,
    burn_requires_yield_claim: bool,
    transfer_requires_kyc: bool,
    total_supply: i128,
    total_assets: i128,
    total_yield_distributed: i128,
    roles: Vec<RoleGrant>,
    blacklist: Vec<Address>,
    accounts: Vec<Account>,
    epochs: Vec<EpochRecord>,
    allowances: Vec<Allowance>,
    epoch_credits: Ghost<Seq<int>>,
    profile: VaultProfile,
    activity: Vec<EpochActivity>,
    lifetime_activity: EpochActivity,
    redemption_requests: Vec<RedemptionRequest>,
    timelock_actions: Vec<TimelockAction>,
}

impl View for Vault {
    type V = VaultView;

    closed spec fn view(&self) -> VaultView {
        VaultView {
            admin: self.admin,
            state: self.state,
            funding_target: self.funding_target,
            maturity_date: self.maturity_date,
            min_deposit: self.min_deposit,
            max_deposit_per_user: self.max_deposit_per_user,
            early_redemption_fee_bps: self.early_redemption_fee_bps,
            funding_deadline: self.funding_deadline,
            paused: self.paused,
            freeze_flags: self.freeze_flags,
            burn_requires_yield_claim: self.burn_requires_yield_claim,
            transfer_requires_kyc: self.transfer_requires_kyc,
            total_supply: self.total_supply,
            total_assets: self.total_assets,
            total_yield_distributed: self.total_yield_distributed,
            roles: self.roles@,
            blacklist: self.blacklist@,
            accounts: self.accounts@,
            epochs: self.epochs@,
            allowances: self.allowances@,
            epoch_credits: self.epoch_credits@,
            profile: self.profile,
            activity: self.activity@,
            lifetime_activity: self.lifetime_activity,
            redemption_requests: self.redemption_requests@,
            timelock_actions: self.timelock_actions@,
        }
    }
}

/// Why `Vault::new` refuses the parameters, if it does.
pub open spec fn init_error(params: InitParams) -> Option<VaultError> {
    if params.early_redemption_fee_bps > MAX_EARLY_REDEMPTION_FEE_BPS {
        Some(VaultError::FeeTooHigh)
    } else if params.max_deposit_per_user > 0 && params.min_deposit > params.max_deposit_per_user {
        Some(VaultError::InvalidDepositLimits)
    } else {
        None
    }
}

/// The vault that `params` create: funding, empty, with the admin holding
/// the superrole.
pub open spec fn initial_view(params: InitParams) -> VaultView {
    VaultView {
        admin: params.admin,
        state: VaultState::Funding,
        funding_target: params.funding_target,
        maturity_date: params.maturity_date,
        min_deposit: params.min_deposit,
        max_deposit_per_user: params.max_deposit_per_user,
        early_redemption_fee_bps: params.early_redemption_fee_bps,
        funding_deadline: params.funding_deadline,
        paused: false,
        freeze_flags: 0,
        burn_requires_yield_claim: false,
        transfer_requires_kyc: false,
        total_supply: 0,
        total_assets: 0,
        total_yield_distributed: 0,
        roles: seq![RoleGrant { holder: params.admin, role: Role::FullOperator }],
        blacklist: Seq::empty(),
        accounts: Seq::empty(),
        epochs: Seq::empty(),
        allowances: Seq::empty(),
        epoch_credits: Seq::empty(),
        profile: VaultProfile {
            asset: params.asset,
            share_name: params.share_name,
            share_symbol: params.share_symbol,
            share_decimals: params.share_decimals,
            zkme_verifier: params.zkme_verifier,
            cooperator: params.cooperator,
            rwa: RwaDetails {
                name: params.rwa_name,
                symbol: params.rwa_symbol,
                document_uri: params.rwa_document_uri,
                category: params.rwa_category,
                expected_apy: params.expected_apy,
            },
            timelock_delay: params.timelock_delay,
            yield_vesting_period: params.yield_vesting_period,
        },
        activity: seq![EpochActivity::zeroed()],
        lifetime_activity: EpochActivity::zeroed(),
        redemption_requests: Seq::empty(),
        timelock_actions: Seq::empty(),
    }
}

impl Vault {
    /// Creates a vault in the `Funding` state from its parameters.
    pub fn new(params: InitParams) -> (r: Result<Vault, VaultError>)
        ensures
            match r {
                Ok(v) => init_error(params) is None && v@ == initial_view(params) && v@.wf(),
                Err(e) => init_error(params) == Some(e),
            },
    {
        if params.early_redemption_fee_bps > MAX_EARLY_REDEMPTION_FEE_BPS {
            return Err(VaultError::FeeTooHigh);
        }
        if params.max_deposit_per_user > 0 && params.min_deposit > params.max_deposit_per_user {
            return Err(VaultError::InvalidDepositLimits);
        }
        let mut roles: Vec<RoleGrant> = Vec::new();
        roles.push(RoleGrant { holder: params.admin, role: Role::FullOperator });
        let mut activity: Vec<EpochActivity> = Vec::new();
        activity.push(EpochActivity::zero());
        let ghost p = params;
        let profile = VaultProfile {
            asset: params.asset,
            share_name: params.share_name,
            share_symbol: params.share_symbol,
            share_decimals: params.share_decimals,
            zkme_verifier: params.zkme_verifier,
            cooperator: params.cooperator,
            rwa: RwaDetails {
                name: params.rwa_name,
                symbol: params.rwa_symbol,
                document_uri: params.rwa_document_uri,
                category: params.rwa_category,
                expected_apy: params.expected_apy,
            },
            timelock_delay: params.timelock_delay,
            yield_vesting_period: params.yield_vesting_period,
        };
        let v = Vault {
            admin: params.admin,
            state: VaultState::Funding,
            funding_target: params.funding_target,
            maturity_date: params.maturity_date,
            min_deposit: params.min_deposit,
            max_deposit_per_user: params.max_deposit_per_user,
            early_redemption_fee_bps: params.early_redemption_fee_bps,
            funding_deadline: params.funding_deadline,
            paused: false,
            freeze_flags: 0,
            burn_requires_yield_claim: false,
            transfer_requires_kyc: false,
            total_supply: 0,
            total_assets: 0,
            total_yield_distributed: 0,
            roles,
            blacklist: Vec::new(),
            accounts: Vec::new(),
            epochs: Vec::new(),
            allowances: Vec::new(),
            epoch_credits: Ghost(Seq::empty()),
            profile,
            activity,
            lifetime_activity: EpochActivity::zero(),
            redemption_requests: Vec::new(),
            timelock_actions: Vec::new(),
        };
        proof {
            assert(v@.roles =~= initial_view(p).roles);
            assert(v@.activity =~= initial_view(p).activity);
            assert(sum_shares(v@.accounts) == 0);
            assert(yield_total(v@.epochs, 0, 0) == 0);
        }
        Ok(v)
    }

    // ── queries ─────────────────────────────────────────────────────────

    /// The descriptive configuration the vault was created with.
    pub fn profile(&self) -> (r: &VaultProfile)
        ensures
            *r == self@.profile,
    {
        &self.profile
    }

    /// Details of the real-world asset behind the vault.
    pub fn get_rwa_details(&self) -> (r: &RwaDetails)
        ensures
            *r == self@.profile.rwa,
    {
        &self.profile.rwa
    }

    /// The admin address.
    pub fn admin(&self) -> (r: Address)
        ensures
            r == self@.admin,
    {
        self.admin
    }

    /// Current lifecycle state.
    pub fn vault_state(&self) -> (r: VaultState)
        ensures
            r == self@.state,
    {
        self.state
    }

    /// Total assets that must be raised before the vault can be activated.
    pub fn funding_target(&self) -> (r: i128)
        ensures
            r == self@.funding_target,
    {
        self.funding_target
    }

    /// Timestamp from which the vault can be matured.
    pub fn maturity_date(&self) -> (r: u64)
        ensures
            r == self@.maturity_date,
    {
        self.maturity_date
    }

    /// Smallest deposit accepted.
    pub fn min_deposit(&self) -> (r: i128)
        ensures
            r == self@.min_deposit,
    {
        self.min_deposit
    }

    /// Largest lifetime deposit per user (0: no limit).
    pub fn max_deposit_per_user(&self) -> (r: i128)
        ensures
            r == self@.max_deposit_per_user,
    {
        self.max_deposit_per_user
    }

    /// Early-redemption fee in basis points.
    pub fn early_redemption_fee_bps(&self) -> (r: u32)
        ensures
            r == self@.early_redemption_fee_bps,
    {
        self.early_redemption_fee_bps
    }

    /// Timestamp after which the vault can no longer be activated (0: none).
    pub fn funding_deadline(&self) -> (r: u64)
        ensures
            r == self@.funding_deadline,
    {
        self.funding_deadline
    }

    /// Whether user operations are paused.
    pub fn paused(&self) -> (r: bool)
        ensures
            r == self@.paused,
    {
        self.paused
    }

    /// Total shares in existence.
    pub fn total_supply(&self) -> (r: i128)
        ensures
            r == self@.total_supply,
    {
        self.total_supply
    }

    /// Assets the vault accounts for: deposits and distributed yield, less
    /// what was withdrawn or redeemed.
    pub fn total_assets(&self) -> (r: i128)
        ensures
            r == self@.total_assets,
    {
        self.total_assets
    }

    /// Sum of all yield ever distributed.
    pub fn total_yield_distributed(&self) -> (r: i128)
        ensures
            r == self@.total_yield_distributed,
    {
        self.total_yield_distributed
    }

    /// Number of epochs in which yield has been distributed.
    pub fn current_epoch(&self) -> (r: u32)
        requires
            self@.wf(),
        ensures
            r == self@.current_epoch(),
    {
        self.epochs.len() as u32
    }

    /// Whether total assets have reached the funding target.
    pub fn is_funding_target_met(&self) -> (r: bool)
        ensures
            r == self@.funding_target_met(),
    {
        self.total_assets >= self.funding_target
    }

    /// Whether `now` is at or past the maturity date.
    pub fn is_matured(&self, now: u64) -> (r: bool)
        ensures
            r == (now >= self@.maturity_date),
    {
        now >= self.maturity_date
    }

    /// Seconds from `now` until maturity; 0 once maturity is reached.
    pub fn time_to_maturity(&self, now: u64) -> (r: u64)
        ensures
            r == (if now >= self@.maturity_date {
                0
            } else {
                self@.maturity_date - now
            }),
    {
        if now >= self.maturity_date {
            0
        } else {
            self.maturity_date - now
        }
    }

    /// Whether `a` holds a role that passes a check for `role`.
    pub fn has_role(&self, a: Address, role: Role) -> (r: bool)
        ensures
            r == self@.has_role(a, role),
    {
        let n: usize = self.roles.len();
        let mut i: usize = 0;
        while i < n
            invariant
                n == self.roles.len(),
                i <= n,
                forall|j: int|
                    0 <= j < i ==> !(#[trigger] self.roles@[j].holder == a
                        && self.roles@[j].role.grants_spec(role)),
            decreases n - i,
        {
            let g: RoleGrant = self.roles[i];
            if g.holder == a && g.role.grants(&role) {
                return true;
            }
            i = i + 1;
        }
        false
    }

    /// Whether `a` is blacklisted.
    pub fn is_blacklisted(&self, a: Address) -> (r: bool)
        ensures
            r == self@.is_blacklisted(a),
    {
        let n: usize = self.blacklist.len();
        let mut i: usize = 0;
        while i < n
            invariant
                n == self.blacklist.len(),
                i <= n,
                forall|j: int| 0 <= j < i ==> #[trigger] self.blacklist@[j] != a,
            decreases n - i,
        {
            if self.blacklist[i] == a {
                assert(self@.blacklist[i as int] == a);
                return true;
            }
            i = i + 1;
        }
        false
    }

    /// Activity counted in `epoch`; all zero for an epoch not yet reached.
    pub fn epoch_activity(&self, epoch: u32) -> (r: EpochActivity)
        ensures
            r == if (epoch as int) < self@.activity.len() {
                self@.activity[epoch as int]
            } else {
                EpochActivity::zeroed()
            },
    {
        if (epoch as usize) < self.activity.len() {
            self.activity[epoch as usize]
        } else {
            EpochActivity::zero()
        }
    }

    /// Activity counted over the vault's lifetime.
    pub fn lifetime_activity(&self) -> (r: EpochActivity)
        ensures
            r == self@.lifetime_activity,
    {
        self.lifetime_activity
    }

    /// Shares held by `a`.
    pub fn balance(&self, a: Address) -> (r: i128)
        requires
            self@.wf(),
        ensures
            r == self@.account(a).shares,
    {
        get_account(&self.accounts, a).shares
    }

    /// Assets deposited by `a` over its lifetime.
    pub fn user_deposited(&self, a: Address) -> (r: i128)
        requires
            self@.wf(),
        ensures
            r == self@.account(a).deposited,
    {
        get_account(&self.accounts, a).deposited
    }

    /// Yield claimed by `a` over its lifetime.
    pub fn total_yield_claimed(&self, a: Address) -> (r: i128)
        requires
            self@.wf(),
        ensures
            r == self@.account(a).claimed_yield,
    {
        get_account(&self.accounts, a).claimed_yield
    }

    /// Yield distributed in epoch `epoch` (numbered from 1); 0 for an epoch
    /// that does not exist.
    pub fn epoch_yield(&self, epoch: u32) -> (r: i128)
        ensures
            r == (if 1 <= epoch <= self@.epochs.len() {
                self@.epochs[epoch - 1].yield_amount
            } else {
                0
            }),
    {
        if epoch >= 1 && (epoch as usize) <= self.epochs.len() {
            self.epochs[(epoch - 1) as usize].yield_amount
        } else {
            0
        }
    }

    /// `acc` with the yield it earned in unsettled epochs moved into its
    /// accrued yield.
    fn settle(&self, acc: Account) -> (r: Account)
        requires
            self@.wf(),
            account_ok(acc, self@.epochs),
        ensures
            r == self@.settled(acc),
    {
        proof {
            lemma_settle(self@, acc);
            lemma_share_yield_bounded(
                self@.epochs,
                acc.shares as int,
                acc.settled_epoch as int,
                self@.epochs.len() as int,
            );
            lemma_yield_total_split(
                self@.epochs,
                0,
                acc.settled_epoch as int,
                self@.epochs.len() as int,
            );
            lemma_yield_total_nonneg(self@.epochs, 0, acc.settled_epoch as int);
        }
        let earned: i128 = share_yield_since(&self.epochs, acc.shares, acc.settled_epoch as usize);
        Account {
            holder: acc.holder,
            shares: acc.shares,
            deposited: acc.deposited,
            accrued_yield: acc.accrued_yield + earned,
            settled_epoch: self.epochs.len() as u32,
            claimed_yield: acc.claimed_yield,
        }
    }

    /// Yield earned by `a` and not yet claimed.
    pub fn pending_yield(&self, a: Address) -> (r: i128)
        requires
            self@.wf(),
        ensures
            r == self@.pending_yield(a),
    {
        proof {
            lemma_account_ok(self@, a);
        }
        let acc: Account = get_account(&self.accounts, a);
        proof {
            lemma_settle(self@, acc);
        }
        self.settle(acc).accrued_yield
    }
}

impl Vault {
    // ── administration ──────────────────────────────────────────────────

    /// The admin grants `role` to `holder`.
    pub fn grant_role(&mut self, caller: Address, holder: Address, role: Role) -> (r: Result<
        (),
        VaultError,
    >)
        requires
            old(self)@.wf(),
        ensures
            final(self)@.wf(),
            match r {
                Ok(()) => caller == old(self)@.admin && final(self)@ == (VaultView {
                    roles: old(self)@.roles.push(RoleGrant { holder, role }),
                    ..old(self)@
                }),
                Err(e) => caller != old(self)@.admin && e == VaultError::NotAdmin && final(self)@
                    == old(self)@,
            },
    {
        if caller != self.admin {
            return Err(VaultError::NotAdmin);
        }
        self.roles.push(RoleGrant { holder, role });
        Ok(())
    }

    /// A compliance officer adds `a` to (`flag`) or removes it from the blacklist.
    pub fn set_blacklisted(&mut self, caller: Address, a: Address, flag: bool) -> (r: Result<
        (),
        VaultError,
    >)
        requires
            old(self)@.wf(),
        ensures
            final(self)@.wf(),
            match r {
                Ok(()) => old(self)@.has_role(caller, Role::ComplianceOfficer) && old(self)@.blacklist_updated(final(self)@, a, flag),
                Err(e) => !old(self)@.has_role(caller, Role::ComplianceOfficer) && e
                    == VaultError::NotAuthorized && final(self)@ == old(self)@,
            },
    {
        if !self.has_role(caller, Role::ComplianceOfficer) {
            return Err(VaultError::NotAuthorized);
        }
        let ghost before = self@;
        let mut kept: Vec<Address> = Vec::new();
        let n: usize = self.blacklist.len();
        let mut i: usize = 0;
        while i < n
            invariant
                n == self.blacklist.len(),
                i <= n,
                before.blacklist == self.blacklist@,
                forall|j: int| 0 <= j < kept.len() ==> #[trigger] kept@[j] != a,
                forall|b: Address|
                    b != a ==> (#[trigger] listed(kept@, b, kept@.len() as int) <==> listed(
                        self.blacklist@,
                        b,
                        i as int,
                    )),
            decreases n - i,
        {
            let b: Address = self.blacklist[i];
            let ghost old_kept = kept@;
            if b != a {
                kept.push(b);
            }
            assert forall|c: Address| c != a implies (#[trigger] listed(
                kept@,
                c,
                kept@.len() as int,
            ) <==> listed(self.blacklist@, c, i + 1)) by {
                if listed(self.blacklist@, c, i + 1) {
                    let j = choose|j: int| 0 <= j < i + 1 && self.blacklist@[j] == c;
                    if j < i {
                        assert(listed(self.blacklist@, c, i as int));
                        assert(listed(old_kept, c, old_kept.len() as int));
                        let k = choose|k: int| 0 <= k < old_kept.len() && old_kept[k] == c;
                        assert(kept@[k] == c);
                    } else {
                        assert(kept@[kept.len() - 1] == c);
                    }
                }
                if listed(kept@, c, kept@.len() as int) {
                    let j = choose|j: int| 0 <= j < kept@.len() && kept@[j] == c;
                    if j < old_kept.len() {
                        assert(old_kept[j] == c);
                        assert(listed(old_kept, c, old_kept.len() as int));
                        assert(listed(self.blacklist@, c, i as int));
                        let k = choose|k: int| 0 <= k < i && self.blacklist@[k] == c;
                        assert(self.blacklist@[k] == c);
                    } else {
                        assert(self.blacklist@[i as int] == c);
                    }
                }
            }
            i = i + 1;
        }
        let ghost without = kept@;
        if flag {
            kept.push(a);
        }
        self.blacklist = kept;
        proof {
            assert forall|b: Address| b != a implies #[trigger] self@.is_blacklisted(b)
                == before.is_blacklisted(b) by {
                assert(listed(without, b, without.len() as int) == listed(
                    before.blacklist,
                    b,
                    before.blacklist.len() as int,
                ));
                if listed(self@.blacklist, b, self@.blacklist.len() as int) {
                    let j = choose|j: int| 0 <= j < self@.blacklist.len() && self@.blacklist[j] == b;
                    assert(without[j] == b);
                }
                if listed(without, b, without.len() as int) {
                    let j = choose|j: int| 0 <= j < without.len() && without[j] == b;
                    assert(self@.blacklist[j] == b);
                }
            }
            if !flag {
                if listed(self@.blacklist, a, self@.blacklist.len() as int) {
                    let j = choose|j: int| 0 <= j < self@.blacklist.len() && self@.blacklist[j] == a;
                    assert(without[j] != a);
                }
            } else {
                assert(self@.blacklist[self@.blacklist.len() - 1] == a);
            }
            assert(self@ == VaultView { blacklist: self@.blacklist, ..before });
        }
        Ok(())
    }

    /// A treasury manager pauses user operations.
    pub fn pause(&mut self, caller: Address) -> (r: Result<(), VaultError>)
        requires
            old(self)@.wf(),
        ensures
            final(self)@.wf(),
            match r {
                Ok(()) => old(self)@.has_role(caller, Role::TreasuryManager) && final(self)@ == (
                VaultView { paused: true, ..old(self)@ }),
                Err(e) => !old(self)@.has_role(caller, Role::TreasuryManager) && e
                    == VaultError::NotAuthorized && final(self)@ == old(self)@,
            },
    {
        if !self.has_role(caller, Role::TreasuryManager) {
            return Err(VaultError::NotAuthorized);
        }
        self.paused = true;
        Ok(())
    }

    /// A treasury manager sets the freeze flags (`FREEZE_WITHDRAW_REDEEM`,
    /// `FREEZE_YIELD`).
    pub fn set_freeze_flags(&mut self, caller: Address, flags: u32) -> (r: Result<(), VaultError>)
        requires
            old(self)@.wf(),
        ensures
            final(self)@.wf(),
            match r {
                Ok(()) => old(self)@.has_role(caller, Role::TreasuryManager) && final(self)@ == (
                VaultView { freeze_flags: flags, ..old(self)@ }),
                Err(e) => !old(self)@.has_role(caller, Role::TreasuryManager) && e
                    == VaultError::NotAuthorized && final(self)@ == old(self)@,
            },
    {
        if !self.has_role(caller, Role::TreasuryManager) {
            return Err(VaultError::NotAuthorized);
        }
        self.freeze_flags = flags;
        Ok(())
    }

    /// The freeze flags that are set.
    pub fn freeze_flags(&self) -> (r: u32)
        ensures
            r == self@.freeze_flags,
    {
        self.freeze_flags
    }

    /// The admin decides whether burning shares needs pending yield to be
    /// claimed first.
    pub fn set_burn_requires_yield_claim(&mut self, caller: Address, flag: bool) -> (r: Result<
        (),
        VaultError,
    >)
        requires
            old(self)@.wf(),
        ensures
            final(self)@.wf(),
            match r {
                Ok(()) => caller == old(self)@.admin && final(self)@ == (VaultView {
                    burn_requires_yield_claim: flag,
                    ..old(self)@
                }),
                Err(e) => caller != old(self)@.admin && e == VaultError::NotAdmin && final(self)@
                    == old(self)@,
            },
    {
        if caller != self.admin {
            return Err(VaultError::NotAdmin);
        }
        self.burn_requires_yield_claim = flag;
        Ok(())
    }

    /// Whether burning shares needs pending yield to be claimed first.
    pub fn burn_requires_yield_claim(&self) -> (r: bool)
        ensures
            r == self@.burn_requires_yield_claim,
    {
        self.burn_requires_yield_claim
    }

    /// A compliance officer decides whether share transfers need the
    /// receiver to have passed KYC.
    pub fn set_transfer_requires_kyc(&mut self, caller: Address, flag: bool) -> (r: Result<
        (),
        VaultError,
    >)
        requires
            old(self)@.wf(),
        ensures
            final(self)@.wf(),
            match r {
                Ok(()) => old(self)@.has_role(caller, Role::ComplianceOfficer) && final(self)@ == (
                VaultView { transfer_requires_kyc: flag, ..old(self)@ }),
                Err(e) => !old(self)@.has_role(caller, Role::ComplianceOfficer) && e
                    == VaultError::NotAuthorized && final(self)@ == old(self)@,
            },
    {
        if !self.has_role(caller, Role::ComplianceOfficer) {
            return Err(VaultError::NotAuthorized);
        }
        self.transfer_requires_kyc = flag;
        Ok(())
    }

    /// Whether share transfers need the receiver to have passed KYC.
    pub fn transfer_requires_kyc(&self) -> (r: bool)
        ensures
            r == self@.transfer_requires_kyc,
    {
        self.transfer_requires_kyc
    }

    /// A compliance officer sets the KYC verifier; refused when it is the
    /// vault contract's own address, `contract_address`.
    pub fn set_zkme_verifier(&mut self, caller: Address, verifier: Address, contract_address: Address) -> (r:
        Result<(), VaultError>)
        requires
            old(self)@.wf(),
        ensures
            final(self)@.wf(),
            match r {
                Ok(()) => old(self)@.has_role(caller, Role::ComplianceOfficer) && verifier
                    != contract_address && final(self)@ == (VaultView {
                    profile: VaultProfile { zkme_verifier: verifier, ..old(self)@.profile },
                    ..old(self)@
                }),
                Err(e) => final(self)@ == old(self)@ && if !old(self)@.has_role(
                    caller,
                    Role::ComplianceOfficer,
                ) {
                    e == VaultError::NotAuthorized
                } else {
                    verifier == contract_address && e == VaultError::ZeroAddress
                },
            },
    {
        if !self.has_role(caller, Role::ComplianceOfficer) {
            return Err(VaultError::NotAuthorized);
        }
        if verifier == contract_address {
            return Err(VaultError::ZeroAddress);
        }
        self.profile.zkme_verifier = verifier;
        Ok(())
    }

    /// A compliance officer sets the cooperator; refused when it is the
    /// vault contract's own address, `contract_address`.
    pub fn set_cooperator(&mut self, caller: Address, cooperator: Address, contract_address: Address) -> (r:
        Result<(), VaultError>)
        requires
            old(self)@.wf(),
        ensures
            final(self)@.wf(),
            match r {
                Ok(()) => old(self)@.has_role(caller, Role::ComplianceOfficer) && cooperator
                    != contract_address && final(self)@ == (VaultView {
                    profile: VaultProfile { cooperator, ..old(self)@.profile },
                    ..old(self)@
                }),
                Err(e) => final(self)@ == old(self)@ && if !old(self)@.has_role(
                    caller,
                    Role::ComplianceOfficer,
                ) {
                    e == VaultError::NotAuthorized
                } else {
                    cooperator == contract_address && e == VaultError::ZeroAddress
                },
            },
    {
        if !self.has_role(caller, Role::ComplianceOfficer) {
            return Err(VaultError::NotAuthorized);
        }
        if cooperator == contract_address {
            return Err(VaultError::ZeroAddress);
        }
        self.profile.cooperator = cooperator;
        Ok(())
    }

    /// A treasury manager resumes user operations.
    pub fn unpause(&mut self, caller: Address) -> (r: Result<(), VaultError>)
        requires
            old(self)@.wf(),
        ensures
            final(self)@.wf(),
            match r {
                Ok(()) => old(self)@.has_role(caller, Role::TreasuryManager) && final(self)@ == (
                VaultView { paused: false, ..old(self)@ }),
                Err(e) => !old(self)@.has_role(caller, Role::TreasuryManager) && e
                    == VaultError::NotAuthorized && final(self)@ == old(self)@,
            },
    {
        if !self.has_role(caller, Role::TreasuryManager) {
            return Err(VaultError::NotAuthorized);
        }
        self.paused = false;
        Ok(())
    }

    /// A lifecycle manager sets the maturity date.
    pub fn set_maturity_date(&mut self, caller: Address, maturity_date: u64) -> (r: Result<
        (),
        VaultError,
    >)
        requires
            old(self)@.wf(),
        ensures
            final(self)@.wf(),
            match r {
                Ok(()) => old(self)@.has_role(caller, Role::LifecycleManager) && final(self)@ == (
                VaultView { maturity_date, ..old(self)@ }),
                Err(e) => !old(self)@.has_role(caller, Role::LifecycleManager) && e
                    == VaultError::NotAuthorized && final(self)@ == old(self)@,
            },
    {
        if !self.has_role(caller, Role::LifecycleManager) {
            return Err(VaultError::NotAuthorized);
        }
        self.maturity_date = maturity_date;
        Ok(())
    }

    /// A lifecycle manager sets the funding target.
    pub fn set_funding_target(&mut self, caller: Address, funding_target: i128) -> (r: Result<
        (),
        VaultError,
    >)
        requires
            old(self)@.wf(),
        ensures
            final(self)@.wf(),
            match r {
                Ok(()) => old(self)@.has_role(caller, Role::LifecycleManager) && final(self)@ == (
                VaultView { funding_target, ..old(self)@ }),
                Err(e) => !old(self)@.has_role(caller, Role::LifecycleManager) && e
                    == VaultError::NotAuthorized && final(self)@ == old(self)@,
            },
    {
        if !self.has_role(caller, Role::LifecycleManager) {
            return Err(VaultError::NotAuthorized);
        }
        self.funding_target = funding_target;
        Ok(())
    }

    /// A lifecycle manager sets the deposit limits; the minimum may not
    /// exceed a (non-zero) per-user maximum.
    pub fn set_deposit_limits(
        &mut self,
        caller: Address,
        min_deposit: i128,
        max_deposit_per_user: i128,
    ) -> (r: Result<(), VaultError>)
        requires
            old(self)@.wf(),
        ensures
            final(self)@.wf(),
            match r {
                Ok(()) => old(self)@.has_role(caller, Role::LifecycleManager) && !(
                max_deposit_per_user > 0 && min_deposit > max_deposit_per_user) && final(self)@
                    == (VaultView { min_deposit, max_deposit_per_user, ..old(self)@ }),
                Err(e) => final(self)@ == old(self)@ && if !old(self)@.has_role(
                    caller,
                    Role::LifecycleManager,
                ) {
                    e == VaultError::NotAuthorized
                } else {
                    max_deposit_per_user > 0 && min_deposit > max_deposit_per_user && e
                        == VaultError::InvalidDepositLimits
                },
            },
    {
        if !self.has_role(caller, Role::LifecycleManager) {
            return Err(VaultError::NotAuthorized);
        }
        if max_deposit_per_user > 0 && min_deposit > max_deposit_per_user {
            return Err(VaultError::InvalidDepositLimits);
        }
        self.min_deposit = min_deposit;
        self.max_deposit_per_user = max_deposit_per_user;
        Ok(())
    }

    /// A lifecycle manager sets the early-redemption fee, at most
    /// `MAX_EARLY_REDEMPTION_FEE_BPS`.
    pub fn set_early_redemption_fee(&mut self, caller: Address, fee_bps: u32) -> (r: Result<
        (),
        VaultError,
    >)
        requires
            old(self)@.wf(),
        ensures
            final(self)@.wf(),
            match r {
                Ok(()) => old(self)@.has_role(caller, Role::LifecycleManager) && fee_bps
                    <= MAX_EARLY_REDEMPTION_FEE_BPS && final(self)@ == (VaultView {
                    early_redemption_fee_bps: fee_bps,
                    ..old(self)@
                }),
                Err(e) => final(self)@ == old(self)@ && if !old(self)@.has_role(
                    caller,
                    Role::LifecycleManager,
                ) {
                    e == VaultError::NotAuthorized
                } else {
                    fee_bps > MAX_EARLY_REDEMPTION_FEE_BPS && e == VaultError::FeeTooHigh
                },
            },
    {
        if !self.has_role(caller, Role::LifecycleManager) {
            return Err(VaultError::NotAuthorized);
        }
        if fee_bps > MAX_EARLY_REDEMPTION_FEE_BPS {
            return Err(VaultError::FeeTooHigh);
        }
        self.early_redemption_fee_bps = fee_bps;
        Ok(())
    }

    // ── lifecycle ───────────────────────────────────────────────────────

    /// A lifecycle manager moves a funded vault from `Funding` to `Active`.
    pub fn activate_vault(&mut self, caller: Address, now: u64) -> (r: Result<(), VaultError>)
        requires
            old(self)@.wf(),
        ensures
            final(self)@.wf(),
            transition_allowed(old(self)@.state, final(self)@.state),
            match r {
                Ok(()) => old(self)@.activate_error(caller, now) is None && final(self)@ == old(self)@.with_state(VaultState::Active),
                Err(e) => old(self)@.activate_error(caller, now) == Some(e) && final(self)@ == old(self)@,
            },
    {
        if !self.has_role(caller, Role::LifecycleManager) {
            return Err(VaultError::NotAuthorized);
        }
        if self.state != VaultState::Funding {
            return Err(VaultError::InvalidVaultState);
        }
        if self.total_assets < self.funding_target {
            return Err(VaultError::FundingTargetNotMet);
        }
        if self.funding_deadline > 0 && now > self.funding_deadline {
            return Err(VaultError::FundingDeadlinePassed);
        }
        self.state = VaultState::Active;
        Ok(())
    }

    /// A lifecycle manager moves an active vault to `Matured` once the
    /// maturity date is reached.
    pub fn mature_vault(&mut self, caller: Address, now: u64) -> (r: Result<(), VaultError>)
        requires
            old(self)@.wf(),
        ensures
            final(self)@.wf(),
            transition_allowed(old(self)@.state, final(self)@.state),
            match r {
                Ok(()) => old(self)@.mature_error(caller, now) is None && final(self)@ == old(self)@.with_state(VaultState::Matured),
                Err(e) => old(self)@.mature_error(caller, now) == Some(e) && final(self)@ == old(self)@,
            },
    {
        if !self.has_role(caller, Role::LifecycleManager) {
            return Err(VaultError::NotAuthorized);
        }
        if self.state != VaultState::Active {
            return Err(VaultError::InvalidVaultState);
        }
        if now < self.maturity_date {
            return Err(VaultError::NotMatured);
        }
        self.state = VaultState::Matured;
        Ok(())
    }

    /// A lifecycle manager closes a matured vault.
    pub fn close_vault(&mut self, caller: Address) -> (r: Result<(), VaultError>)
        requires
            old(self)@.wf(),
        ensures
            final(self)@.wf(),
            transition_allowed(old(self)@.state, final(self)@.state),
            match r {
                Ok(()) => old(self)@.close_error(caller) is None && final(self)@ == old(self)@.with_state(VaultState::Closed),
                Err(e) => old(self)@.close_error(caller) == Some(e) && final(self)@ == old(self)@,
            },
    {
        if !self.has_role(caller, Role::LifecycleManager) {
            return Err(VaultError::NotAuthorized);
        }
        if self.state != VaultState::Matured {
            return Err(VaultError::InvalidVaultState);
        }
        self.state = VaultState::Closed;
        Ok(())
    }

    /// A lifecycle manager cancels funding that failed: the deadline has
    /// passed without the target being met.  Holders can then take refunds.
    pub fn cancel_funding(&mut self, caller: Address, now: u64) -> (r: Result<(), VaultError>)
        requires
            old(self)@.wf(),
        ensures
            final(self)@.wf(),
            transition_allowed(old(self)@.state, final(self)@.state),
            match r {
                Ok(()) => old(self)@.cancel_error(caller, now) is None && final(self)@ == old(self)@.with_state(VaultState::Cancelled),
                Err(e) => old(self)@.cancel_error(caller, now) == Some(e) && final(self)@ == old(self)@,
            },
    {
        if !self.has_role(caller, Role::LifecycleManager) {
            return Err(VaultError::NotAuthorized);
        }
        if self.state != VaultState::Funding {
            return Err(VaultError::InvalidVaultState);
        }
        if !(self.funding_deadline > 0 && now > self.funding_deadline) {
            return Err(VaultError::FundingDeadlineNotPassed);
        }
        if self.total_assets >= self.funding_target {
            return Err(VaultError::FundingTargetReached);
        }
        self.state = VaultState::Cancelled;
        Ok(())
    }
}

/// Appending an epoch whose supply covers an account's balance keeps that
/// account consistent.
pub proof fn lemma_account_ok_after_push(acc: Account, epochs: Seq<EpochRecord>, x: EpochRecord)
    requires
        account_ok(acc, epochs),
        acc.shares <= x.total_shares,
    ensures
        account_ok(acc, epochs.push(x)),
{
    let t = epochs.push(x);
    let st = acc.settled_epoch as int;
    assert forall|e: int| #![trigger t[e]] st <= e < t.len() implies acc.shares <= t[e].total_shares by {
        if e < epochs.len() {
            assert(t[e] == epochs[e]);
        }
    }
    lemma_push_keeps_sums(epochs, x, 0, 0, st);
}

/// Distributing yield that passes every check keeps the vault well formed.
pub proof fn lemma_distribute_keeps_wf(v: VaultView, amount: int, now: u64)
    requires
        v.wf(),
        v.total_supply > 0,
        amount > 0,
        v.total_assets + amount <= i128::MAX,
        v.total_yield_distributed + amount <= i128::MAX,
        v.epochs.len() + 1 < u32::MAX,
    ensures
        v.after_distribute(amount, now).wf(),
{
    let w = v.after_distribute(amount, now);
    let x = EpochRecord { yield_amount: amount as i128, total_shares: v.total_supply, timestamp: now };
    assert(w.epochs == v.epochs.push(x));
    assert forall|i: int| 0 <= i < w.accounts.len() implies #[trigger] account_ok(
        w.accounts[i],
        w.epochs,
    ) by {
        assert(account_ok(v.accounts[i], v.epochs));
        assert forall|j: int| 0 <= j < v.accounts.len() implies #[trigger] v.accounts[j].shares
            >= 0 by {
            assert(account_ok(v.accounts[j], v.epochs));
        }
        lemma_share_at_most_sum(v.accounts, i);
        lemma_account_ok_after_push(v.accounts[i], v.epochs, x);
    }
    assert forall|e: int| #![trigger w.epochs[e]] 0 <= e < w.epochs.len() implies w.epochs[e].yield_amount > 0
        && w.epochs[e].total_shares > 0 by {
        if e < v.epochs.len() {
            assert(w.epochs[e] == v.epochs[e]);
        }
    }
    assert forall|i: int| 0 <= i < v.accounts.len() implies #[trigger] v.accounts[i].settled_epoch
        <= v.epochs.len() by {
        assert(account_ok(v.accounts[i], v.epochs));
    }
    lemma_books_after_distribute(v.accounts, v.epochs, v.epoch_credits, x);
    lemma_push_keeps_sums(v.epochs, x, 0, 0, v.epochs.len() as int);
    assert(yield_total(w.epochs, 0, w.epochs.len() as int) == yield_total(
        w.epochs,
        0,
        v.epochs.len() as int,
    ) + amount);
}

impl Vault {
    // ── conversions ─────────────────────────────────────────────────────

    /// Shares that `assets` would buy; `None` when they exceed `i128::MAX`.
    pub fn preview_deposit(&self, assets: i128) -> (r: Option<i128>)
        requires
            self@.wf(),
            assets >= 0,
        ensures
            r is Some <==> self@.preview_deposit(assets as int) <= i128::MAX,
            r matches Some(s) ==> s == self@.preview_deposit(assets as int),
    {
        if self.total_supply == 0 {
            Some(assets)
        } else {
            mul_div_floor(assets, self.total_supply, self.total_assets)
        }
    }

    /// Assets that `shares` would cost; `None` when they exceed `i128::MAX`.
    pub fn preview_mint(&self, shares: i128) -> (r: Option<i128>)
        requires
            self@.wf(),
            shares >= 0,
        ensures
            r is Some <==> self@.preview_mint(shares as int) <= i128::MAX,
            r matches Some(a) ==> a == self@.preview_mint(shares as int),
    {
        if self.total_supply == 0 {
            Some(shares)
        } else {
            mul_div_ceil(shares, self.total_assets, self.total_supply)
        }
    }

    /// Shares that paying out `assets` would burn; `None` when they exceed
    /// `i128::MAX`.
    pub fn preview_withdraw(&self, assets: i128) -> (r: Option<i128>)
        requires
            self@.wf(),
            assets >= 0,
        ensures
            r is Some <==> self@.preview_withdraw(assets as int) <= i128::MAX,
            r matches Some(s) ==> s == self@.preview_withdraw(assets as int),
    {
        if self.total_supply == 0 {
            Some(0)
        } else {
            mul_div_ceil(assets, self.total_supply, self.total_assets)
        }
    }

    /// Assets that redeeming `shares` would pay out; `None` when they exceed
    /// `i128::MAX`.
    pub fn preview_redeem(&self, shares: i128) -> (r: Option<i128>)
        requires
            self@.wf(),
            shares >= 0,
        ensures
            r is Some <==> self@.preview_redeem(shares as int) <= i128::MAX,
            r matches Some(a) ==> a == self@.preview_redeem(shares as int),
    {
        if self.total_supply == 0 {
            Some(0)
        } else {
            mul_div_floor(shares, self.total_assets, self.total_supply)
        }
    }

    // ── share issuance and burning ──────────────────────────────────────

    /// Counts an event of `kind` moving `volume` in the current epoch and
    /// over the lifetime.
    fn record_activity(&mut self, kind: ActivityKind, volume: i128, joined: bool, exited: bool)
        requires
            old(self)@.wf(),
            volume >= 0,
        ensures
            final(self)@ == old(self)@.with_activity(kind, volume as int, joined, exited),
            final(self)@.wf(),
    {
        let last: usize = self.activity.len() - 1;
        let mut current: EpochActivity = self.activity[last];
        current.record(kind, volume, joined, exited);
        self.activity.set(last, current);
        let mut lifetime: EpochActivity = self.lifetime_activity;
        lifetime.record(kind, volume, joined, exited);
        self.lifetime_activity = lifetime;
    }

    /// Credits `shares` bought with `assets` to `receiver`.
    fn issue(&mut self, receiver: Address, shares: i128, assets: i128)
        requires
            old(self)@.wf(),
            shares > 0,
            assets > 0,
            old(self)@.total_assets + assets <= i128::MAX,
            old(self)@.total_supply + shares <= i128::MAX,
            old(self)@.account(receiver).deposited + assets <= i128::MAX,
        ensures
            final(self)@ == old(self)@.after_issue(receiver, shares as int, assets as int),
            final(self)@.wf(),
    {
        let ghost v = self@;
        proof {
            lemma_account_ok(v, receiver);
            lemma_settle(v, v.account(receiver));
        }
        let idx: Option<usize> = find_account(&self.accounts, receiver);
        let acc: Account = match idx {
            Some(i) => self.accounts[i],
            None => Account::new(receiver),
        };
        let st: Account = self.settle(acc);
        let credited = Account {
            holder: st.holder,
            shares: st.shares + shares,
            deposited: st.deposited + assets,
            accrued_yield: st.accrued_yield,
            settled_epoch: st.settled_epoch,
            claimed_yield: st.claimed_yield,
        };
        assert(credited == v.credited(receiver, shares as int, assets as int));
        proof {
            lemma_store_keeps_accounts_ok(v, credited);
            lemma_books_after_settle(v.accounts, v.epochs, v.epoch_credits, credited);
        }
        put_account(&mut self.accounts, idx, credited);
        self.epoch_credits = Ghost(v.credits_after_settling(receiver));
        self.total_supply = self.total_supply + shares;
        self.total_assets = self.total_assets + assets;
    }

    /// Burns `shares` of `owner` and pays out `assets`.
    fn burn(&mut self, owner: Address, shares: i128, assets: i128)
        requires
            old(self)@.wf(),
            0 < shares <= old(self)@.account(owner).shares,
            0 <= assets <= old(self)@.total_assets,
            old(self)@.total_supply - shares > 0 ==> old(self)@.total_assets - assets > 0,
        ensures
            final(self)@ == old(self)@.after_burn(owner, shares as int, assets as int),
            final(self)@.wf(),
    {
        let ghost v = self@;
        proof {
            lemma_account_ok(v, owner);
            lemma_settle(v, v.account(owner));
        }
        let idx: Option<usize> = find_account(&self.accounts, owner);
        let acc: Account = match idx {
            Some(i) => self.accounts[i],
            None => Account::new(owner),
        };
        let st: Account = self.settle(acc);
        let debited = Account {
            holder: st.holder,
            shares: st.shares - shares,
            deposited: st.deposited,
            accrued_yield: st.accrued_yield,
            settled_epoch: st.settled_epoch,
            claimed_yield: st.claimed_yield,
        };
        assert(debited == v.debited(owner, shares as int));
        proof {
            lemma_store_keeps_accounts_ok(v, debited);
            lemma_books_after_settle(v.accounts, v.epochs, v.epoch_credits, debited);
        }
        put_account(&mut self.accounts, idx, debited);
        self.epoch_credits = Ghost(v.credits_after_settling(owner));
        self.total_supply = self.total_supply - shares;
        self.total_assets = self.total_assets - assets;
    }

    /// Common checks of every way of buying shares.
    fn issue_entry_check(&self, caller: Address, receiver: Address, caller_kyc_verified: bool) -> (r:
        Option<VaultError>)
        ensures
            r == self@.issue_entry_error(caller, receiver, caller_kyc_verified),
    {
        if self.paused {
            Some(VaultError::VaultPaused)
        } else if !(self.state == VaultState::Funding || self.state == VaultState::Active) {
            Some(VaultError::InvalidVaultState)
        } else if !caller_kyc_verified {
            Some(VaultError::NotKYCVerified)
        } else if self.is_blacklisted(caller) || self.is_blacklisted(receiver) {
            Some(VaultError::AddressBlacklisted)
        } else {
            None
        }
    }

    /// Limits on `receiver` paying in `assets` for `shares`.
    fn issue_limit_check(&self, receiver: Address, assets: i128, shares: i128) -> (r: Option<
        VaultError,
    >)
        requires
            self@.wf(),
            assets > 0,
            shares >= 0,
        ensures
            r == self@.issue_limit_error(receiver, assets as int, shares as int),
    {
        proof {
            lemma_account_ok(self@, receiver);
        }
        let dep: i128 = get_account(&self.accounts, receiver).deposited;
        if assets < self.min_deposit {
            Some(VaultError::BelowMinimumDeposit)
        } else if self.max_deposit_per_user > 0 && dep > self.max_deposit_per_user - assets {
            Some(VaultError::ExceedsMaximumDeposit)
        } else if self.total_assets > i128::MAX - assets || self.total_supply > i128::MAX - shares
            || dep > i128::MAX - assets {
            Some(VaultError::ArithmeticOverflow)
        } else if shares == 0 {
            Some(VaultError::ZeroAmount)
        } else {
            None
        }
    }

    /// Deposits `assets` from `caller` and issues the shares they buy to
    /// `receiver`.  `caller_kyc_verified` is the KYC verifier's answer for
    /// `caller`.  Returns the shares issued.
    pub fn deposit(
        &mut self,
        caller: Address,
        assets: i128,
        receiver: Address,
        caller_kyc_verified: bool,
    ) -> (r: Result<i128, VaultError>)
        requires
            old(self)@.wf(),
        ensures
            final(self)@.wf(),
            transition_allowed(old(self)@.state, final(self)@.state),
            match r {
                Ok(shares) => old(self)@.deposit_error(
                    caller,
                    assets as int,
                    receiver,
                    caller_kyc_verified,
                ) is None && shares == old(self)@.preview_deposit(assets as int)
                    && final(self)@.account(receiver).deposited == old(self)@.account(receiver).deposited
                    + assets && (old(self)@.max_deposit_per_user > 0 ==> final(self)@.account(
                    receiver,
                ).deposited <= old(self)@.max_deposit_per_user) && final(self)@
                    == old(self)@.after_issue(receiver, shares as int, assets as int).with_activity(
                    ActivityKind::Deposit,
                    assets as int,
                    old(self)@.account(receiver).shares == 0,
                    false,
                ),
                Err(e) => old(self)@.deposit_error(
                    caller,
                    assets as int,
                    receiver,
                    caller_kyc_verified,
                ) == Some(e) && final(self)@ == old(self)@,
            },
    {
        if let Some(e) = self.issue_entry_check(caller, receiver, caller_kyc_verified) {
            return Err(e);
        }
        if assets <= 0 {
            return Err(VaultError::ZeroAmount);
        }
        let shares: i128 = match self.preview_deposit(assets) {
            Some(s) => s,
            None => {
                proof {
                    lemma_account_ok(self@, receiver);
                }
                if assets < self.min_deposit {
                    return Err(VaultError::BelowMinimumDeposit);
                }
                let dep: i128 = get_account(&self.accounts, receiver).deposited;
                if self.max_deposit_per_user > 0 && dep > self.max_deposit_per_user - assets {
                    return Err(VaultError::ExceedsMaximumDeposit);
                }
                return Err(VaultError::ArithmeticOverflow);
            },
        };
        proof {
            if self@.total_supply > 0 {
                vstd::arithmetic::div_mod::lemma_div_pos_is_pos(
                    assets * self@.total_supply,
                    self@.total_assets as int,
                );
                assert(assets * self@.total_supply >= 0) by (nonlinear_arith)
                    requires
                        assets > 0,
                        self@.total_supply > 0,
                ;
            }
        }
        if let Some(e) = self.issue_limit_check(receiver, assets, shares) {
            return Err(e);
        }
        let joined: bool = self.balance(receiver) == 0;
        proof {
            crate::laws::lemma_deposit_respects_user_cap(
                self@,
                caller,
                assets as int,
                receiver,
                caller_kyc_verified,
            );
        }
        self.issue(receiver, shares, assets);
        self.record_activity(ActivityKind::Deposit, assets, joined, false);
        Ok(shares)
    }

    /// Issues exactly `shares` to `receiver`, paying in the assets they cost
    /// from `caller`.  Returns the assets paid in.
    pub fn mint(&mut self, caller: Address, shares: i128, receiver: Address, caller_kyc_verified: bool) -> (r:
        Result<i128, VaultError>)
        requires
            old(self)@.wf(),
        ensures
            final(self)@.wf(),
            transition_allowed(old(self)@.state, final(self)@.state),
            match r {
                Ok(assets) => old(self)@.mint_error(
                    caller,
                    shares as int,
                    receiver,
                    caller_kyc_verified,
                ) is None && assets == old(self)@.preview_mint(shares as int)
                    && final(self)@.account(receiver).deposited == old(self)@.account(receiver).deposited
                    + assets && (old(self)@.max_deposit_per_user > 0 ==> final(self)@.account(
                    receiver,
                ).deposited <= old(self)@.max_deposit_per_user) && final(self)@
                    == old(self)@.after_issue(receiver, shares as int, assets as int).with_activity(
                    ActivityKind::Deposit,
                    assets as int,
                    old(self)@.account(receiver).shares == 0,
                    false,
                ),
                Err(e) => old(self)@.mint_error(
                    caller,
                    shares as int,
                    receiver,
                    caller_kyc_verified,
                ) == Some(e) && final(self)@ == old(self)@,
            },
    {
        if let Some(e) = self.issue_entry_check(caller, receiver, caller_kyc_verified) {
            return Err(e);
        }
        if shares <= 0 {
            return Err(VaultError::ZeroAmount);
        }
        let assets: i128 = match self.preview_mint(shares) {
            Some(a) => a,
            None => {
                return Err(VaultError::ArithmeticOverflow);
            },
        };
        proof {
            if self@.total_supply > 0 {
                assert(shares * self@.total_assets > 0) by (nonlinear_arith)
                    requires
                        shares > 0,
                        self@.total_assets > 0,
                ;
                vstd::arithmetic::div_mod::lemma_div_pos_is_pos(
                    shares * self@.total_assets + self@.total_supply - 1,
                    self@.total_supply as int,
                );
                assert((shares * self@.total_assets + self@.total_supply - 1) / (
                self@.total_supply as int) >= 1) by {
                    vstd::arithmetic::div_mod::lemma_div_is_ordered(
                        self@.total_supply as int,
                        shares * self@.total_assets + self@.total_supply - 1,
                        self@.total_supply as int,
                    );
                    vstd::arithmetic::div_mod::lemma_div_by_self(self@.total_supply as int);
                }
            }
        }
        if let Some(e) = self.issue_limit_check(receiver, assets, shares) {
            return Err(e);
        }
        let joined: bool = self.balance(receiver) == 0;
        proof {
            crate::laws::lemma_mint_respects_user_cap(
                self@,
                caller,
                shares as int,
                receiver,
                caller_kyc_verified,
            );
        }
        self.issue(receiver, shares, assets);
        self.record_activity(ActivityKind::Deposit, assets, joined, false);
        Ok(assets)
    }
}

/// Paying out `assets` for the rounded-up shares they burn never pays out
/// more than the vault holds, and leaves assets behind while shares remain.
proof fn lemma_withdraw_bounds(a: int, supply: int, total: int, burned: int)
    requires
        a > 0,
        supply > 0,
        total > 0,
        burned == ceil_div(a * supply, total),
        burned <= supply,
    ensures
        burned >= 1,
        a <= total,
        burned < supply ==> a < total,
{
    let n = a * supply + total - 1;
    vstd::arithmetic::div_mod::lemma_fundamental_div_mod(n, total);
    let r = n % total;
    assert(n == total * burned + r);
    assert(a * supply >= 1) by (nonlinear_arith)
        requires
            a > 0,
            supply > 0,
    ;
    assert(burned >= 1) by (nonlinear_arith)
        requires
            n == total * burned + r,
            0 <= r < total,
            n >= total,
    ;
    assert(a * supply <= total * burned) by (nonlinear_arith)
        requires
            n == total * burned + r,
            r < total,
            n == a * supply + total - 1,
    ;
    assert(total * burned <= total * supply) by (nonlinear_arith)
        requires
            burned <= supply,
            total > 0,
    ;
    assert(a <= total) by (nonlinear_arith)
        requires
            a * supply <= total * supply,
            supply > 0,
    ;
    if burned < supply {
        assert(total * burned <= total * (supply - 1)) by (nonlinear_arith)
            requires
                burned <= supply - 1,
                total > 0,
        ;
        assert(a < total) by (nonlinear_arith)
            requires
                a * supply <= total * (supply - 1),
                supply > 0,
                total > 0,
        ;
    }
}

/// Redeeming at most the whole supply pays out at most the whole assets,
/// and strictly less while shares remain.
proof fn lemma_redeem_bounds(shares: int, supply: int, total: int)
    requires
        0 < shares <= supply,
        total > 0,
    ensures
        0 <= shares * total / supply <= total,
        shares < supply ==> shares * total / supply < total,
{
    assert(0 <= shares * total <= supply * total) by (nonlinear_arith)
        requires
            0 < shares <= supply,
            total > 0,
    ;
    vstd::arithmetic::div_mod::lemma_div_is_ordered(shares * total, supply * total, supply);
    vstd::arithmetic::div_mod::lemma_div_multiples_vanish(total, supply);
    vstd::arithmetic::div_mod::lemma_div_pos_is_pos(shares * total, supply);
    if shares < supply {
        vstd::arithmetic::div_mod::lemma_fundamental_div_mod(shares * total, supply);
        let q = shares * total / supply;
        let r = shares * total % supply;
        assert(q < total) by (nonlinear_arith)
            requires
                shares * total == supply * q + r,
                0 <= r,
                shares < supply,
                total > 0,
                supply > 0,
        ;
    }
}

impl Vault {
    /// Common checks of withdrawals and redemptions.
    fn burn_entry_check(&self, receiver: Address, owner: Address) -> (r: Option<VaultError>)
        ensures
            r == self@.burn_entry_error(receiver, owner),
    {
        if self.paused || self.freeze_flags & FREEZE_WITHDRAW_REDEEM != 0 {
            Some(VaultError::VaultPaused)
        } else if !(self.state == VaultState::Active || self.state == VaultState::Matured) {
            Some(VaultError::InvalidVaultState)
        } else if self.is_blacklisted(owner) || self.is_blacklisted(receiver) {
            Some(VaultError::AddressBlacklisted)
        } else {
            None
        }
    }

    /// Spends `shares` of the allowance `owner` gave `caller`, unless the
    /// owner acts itself.
    fn spend_allowance(&mut self, caller: Address, owner: Address, shares: i128)
        requires
            old(self)@.wf(),
            caller != owner ==> 0 <= shares <= old(self)@.allowance(owner, caller),
        ensures
            final(self)@ == (VaultView {
                allowances: old(self)@.spent_allowance(caller, owner, shares as int),
                ..old(self)@
            }),
            final(self)@.wf(),
    {
        if caller != owner {
            let (idx, allowed): (Option<usize>, i128) = find_allowance(
                &self.allowances,
                owner,
                caller,
            );
            proof {
                lemma_set_allowance(self@.allowances, owner, caller, (allowed - shares) as i128);
            }
            put_allowance(&mut self.allowances, idx, owner, caller, allowed - shares);
        }
    }

    /// Pays out `assets` to `receiver`, burning the shares of `owner` they
    /// are worth (rounded up); a caller other than the owner spends its
    /// allowance.  Returns the shares burned.
    pub fn withdraw(&mut self, caller: Address, assets: i128, receiver: Address, owner: Address) -> (r:
        Result<i128, VaultError>)
        requires
            old(self)@.wf(),
        ensures
            final(self)@.wf(),
            transition_allowed(old(self)@.state, final(self)@.state),
            match r {
                Ok(shares) => old(self)@.withdraw_error(caller, assets as int, receiver, owner) is None
                    && shares == old(self)@.preview_withdraw(assets as int) && final(self)@ == (
                VaultView {
                    allowances: old(self)@.spent_allowance(caller, owner, shares as int),
                    ..old(self)@.after_burn(owner, shares as int, assets as int)
                }).with_activity(
                    ActivityKind::Withdrawal,
                    assets as int,
                    false,
                    old(self)@.account(owner).shares == shares,
                ),
                Err(e) => old(self)@.withdraw_error(caller, assets as int, receiver, owner) == Some(
                    e,
                ) && final(self)@ == old(self)@,
            },
    {
        if let Some(e) = self.burn_entry_check(receiver, owner) {
            return Err(e);
        }
        if assets <= 0 {
            return Err(VaultError::ZeroAmount);
        }
        let allowed: i128 = self.allowance(owner, caller);
        proof {
            lemma_allowance_nonneg(self@, owner, caller);
        }
        if self.total_supply == 0 {
            return Err(VaultError::InsufficientBalance);
        }
        proof {
            lemma_account_ok(self@, owner);
        }
        let held: i128 = self.balance(owner);
        let shares: i128 = match self.preview_withdraw(assets) {
            Some(s) => s,
            None => {
                if caller != owner {
                    return Err(VaultError::InsufficientAllowance);
                }
                return Err(VaultError::InsufficientBalance);
            },
        };
        if caller != owner && shares > allowed {
            return Err(VaultError::InsufficientAllowance);
        }
        if shares > held {
            return Err(VaultError::InsufficientBalance);
        }
        if self.burn_requires_yield_claim && self.pending_yield(owner) > 0 {
            return Err(VaultError::BurnRequiresYieldClaim);
        }
        proof {
            lemma_withdraw_bounds(
                assets as int,
                self@.total_supply as int,
                self@.total_assets as int,
                shares as int,
            );
        }
        let exited: bool = held == shares;
        self.burn(owner, shares, assets);
        self.spend_allowance(caller, owner, shares);
        self.record_activity(ActivityKind::Withdrawal, assets, false, exited);
        Ok(shares)
    }

    /// Burns `shares` of `owner` and pays out the assets they are worth
    /// (rounded down) to `receiver`; a caller other than the owner spends
    /// its allowance.  Returns the assets paid out.
    pub fn redeem(&mut self, caller: Address, shares: i128, receiver: Address, owner: Address) -> (r:
        Result<i128, VaultError>)
        requires
            old(self)@.wf(),
        ensures
            final(self)@.wf(),
            transition_allowed(old(self)@.state, final(self)@.state),
            match r {
                Ok(assets) => old(self)@.redeem_error(caller, shares as int, receiver, owner) is None
                    && assets == old(self)@.preview_redeem(shares as int) && final(self)@ == (
                VaultView {
                    allowances: old(self)@.spent_allowance(caller, owner, shares as int),
                    ..old(self)@.after_burn(owner, shares as int, assets as int)
                }).with_activity(
                    ActivityKind::Redemption,
                    assets as int,
                    false,
                    old(self)@.account(owner).shares == shares,
                ),
                Err(e) => old(self)@.redeem_error(caller, shares as int, receiver, owner) == Some(
                    e,
                ) && final(self)@ == old(self)@,
            },
    {
        if let Some(e) = self.burn_entry_check(receiver, owner) {
            return Err(e);
        }
        if shares <= 0 {
            return Err(VaultError::ZeroAmount);
        }
        let allowed: i128 = self.allowance(owner, caller);
        if caller != owner && shares > allowed {
            return Err(VaultError::InsufficientAllowance);
        }
        proof {
            lemma_account_ok(self@, owner);
        }
        let held: i128 = self.balance(owner);
        if shares > held {
            return Err(VaultError::InsufficientBalance);
        }
        if self.burn_requires_yield_claim && self.pending_yield(owner) > 0 {
            return Err(VaultError::BurnRequiresYieldClaim);
        }
        proof {
            lemma_redeem_bounds(
                shares as int,
                self@.total_supply as int,
                self@.total_assets as int,
            );
        }
        let assets: i128 = match self.preview_redeem(shares) {
            Some(a) => a,
            None => {
                // the payout never exceeds the total assets
                proof {
                    assert(false);
                }
                0
            },
        };
        if assets == 0 {
            return Err(VaultError::PreviewZeroAssets);
        }
        let exited: bool = held == shares;
        self.burn(owner, shares, assets);
        self.spend_allowance(caller, owner, shares);
        self.record_activity(ActivityKind::Redemption, assets, false, exited);
        Ok(assets)
    }

    /// Burns all of `caller`'s shares for the assets they are worth, in a
    /// vault in state `st`.
    fn exit(&mut self, caller: Address, st: VaultState) -> (r: Result<i128, VaultError>)
        requires
            old(self)@.wf(),
        ensures
            final(self)@.wf(),
            match r {
                Ok(assets) => old(self)@.exit_error(caller, st) is None && assets == old(self)@.preview_redeem(old(self)@.account(caller).shares as int) && final(self)@ == old(self)@.after_exit(caller),
                Err(e) => old(self)@.exit_error(caller, st) == Some(e) && final(self)@ == old(self)@,
            },
    {
        if self.state != st {
            return Err(VaultError::InvalidVaultState);
        }
        proof {
            lemma_account_ok(self@, caller);
        }
        let held: i128 = self.balance(caller);
        if held == 0 {
            return Err(VaultError::InsufficientBalance);
        }
        proof {
            lemma_redeem_bounds(held as int, self@.total_supply as int, self@.total_assets as int);
        }
        let assets: i128 = match self.preview_redeem(held) {
            Some(a) => a,
            None => {
                // the payout never exceeds the total assets
                proof {
                    assert(false);
                }
                0
            },
        };
        if assets == 0 {
            return Err(VaultError::PreviewZeroAssets);
        }
        self.burn(caller, held, assets);
        self.record_activity(ActivityKind::Redemption, assets, false, true);
        Ok(assets)
    }

    /// In a vault whose funding was cancelled, burns all of the caller's
    /// shares and pays out the assets they are worth (rounded down).
    /// Returns the assets refunded.
    pub fn refund(&mut self, caller: Address) -> (r: Result<i128, VaultError>)
        requires
            old(self)@.wf(),
        ensures
            final(self)@.wf(),
            transition_allowed(old(self)@.state, final(self)@.state),
            match r {
                Ok(assets) => old(self)@.refund_error(caller) is None && assets == old(self)@.preview_redeem(old(self)@.account(caller).shares as int) && final(self)@ == old(self)@.after_exit(caller),
                Err(e) => old(self)@.refund_error(caller) == Some(e) && final(self)@ == old(self)@,
            },
    {
        self.exit(caller, VaultState::Cancelled)
    }

    /// In emergency mode, burns all of the caller's shares and pays out its
    /// pro-rata share of the remaining assets (rounded down).  Returns the
    /// assets paid out.
    pub fn emergency_claim(&mut self, caller: Address) -> (r: Result<i128, VaultError>)
        requires
            old(self)@.wf(),
        ensures
            final(self)@.wf(),
            transition_allowed(old(self)@.state, final(self)@.state),
            match r {
                Ok(assets) => old(self)@.emergency_claim_error(caller) is None && assets == old(self)@.preview_redeem(old(self)@.account(caller).shares as int) && final(self)@ == old(self)@.after_exit(caller),
                Err(e) => old(self)@.emergency_claim_error(caller) == Some(e) && final(self)@ == old(self)@,
            },
    {
        self.exit(caller, VaultState::Emergency)
    }

    /// A treasury manager puts a vault that is funding, active or matured
    /// into emergency mode, in which holders claim their pro-rata share of
    /// the remaining assets.
    pub fn enter_emergency(&mut self, caller: Address) -> (r: Result<(), VaultError>)
        requires
            old(self)@.wf(),
        ensures
            final(self)@.wf(),
            transition_allowed(old(self)@.state, final(self)@.state),
            match r {
                Ok(()) => old(self)@.emergency_error(caller) is None && final(self)@ == old(self)@.with_state(VaultState::Emergency),
                Err(e) => old(self)@.emergency_error(caller) == Some(e) && final(self)@ == old(self)@,
            },
    {
        if !self.has_role(caller, Role::TreasuryManager) {
            return Err(VaultError::NotAuthorized);
        }
        if !(self.state == VaultState::Funding || self.state == VaultState::Active || self.state
            == VaultState::Matured) {
            return Err(VaultError::InvalidVaultState);
        }
        self.state = VaultState::Emergency;
        Ok(())
    }

    // ── timelocked actions ──────────────────────────────────────────────

    /// The admin proposes a critical action of `action_type` with `data`
    /// at `now`; it becomes executable once the vault's timelock delay has
    /// passed.  Returns the action's number.
    pub fn propose_action(&mut self, caller: Address, action_type: ActionType, data: Vec<u8>, now: u64) -> (r:
        Result<u32, VaultError>)
        requires
            old(self)@.wf(),
        ensures
            final(self)@.wf(),
            transition_allowed(old(self)@.state, final(self)@.state),
            match r {
                Ok(id) => {
                    let a = final(self)@.timelock_actions[id as int];
                    &&& old(self)@.propose_error(caller, now) is None
                    &&& id == old(self)@.timelock_actions.len()
                    &&& final(self)@.timelock_actions == old(self)@.timelock_actions.push(a)
                    &&& final(self)@ == (VaultView {
                        timelock_actions: final(self)@.timelock_actions,
                        ..old(self)@
                    })
                    &&& a.action_type == action_type
                    &&& a.data@ == data@
                    &&& a.proposed_at == now
                    &&& a.executable_at == now + old(self)@.profile.timelock_delay
                    &&& !a.executed
                    &&& !a.cancelled
                },
                Err(e) => old(self)@.propose_error(caller, now) == Some(e) && final(self)@ == old(self)@,
            },
    {
        if caller != self.admin {
            return Err(VaultError::NotAdmin);
        }
        if self.timelock_actions.len() >= u32::MAX as usize {
            return Err(VaultError::ArithmeticOverflow);
        }
        match TimelockAction::propose(action_type, data, now, self.profile.timelock_delay) {
            Some(a) => {
                let id: u32 = self.timelock_actions.len() as u32;
                self.timelock_actions.push(a);
                Ok(id)
            },
            None => Err(VaultError::ArithmeticOverflow),
        }
    }

    /// Timelocked action number `id`, if there is one.
    pub fn get_timelock_action(&self, id: u32) -> (r: Option<&TimelockAction>)
        ensures
            r is Some <==> (id as int) < self@.timelock_actions.len(),
            r matches Some(a) ==> *a == self@.timelock_actions[id as int],
    {
        if (id as usize) < self.timelock_actions.len() {
            Some(&self.timelock_actions[id as usize])
        } else {
            None
        }
    }

    /// The admin carries out action `id` once its delay has passed; it is
    /// marked executed and its type returned for the caller to act on.
    pub fn execute_action(&mut self, caller: Address, id: u32, now: u64) -> (r: Result<
        ActionType,
        VaultError,
    >)
        requires
            old(self)@.wf(),
        ensures
            final(self)@.wf(),
            transition_allowed(old(self)@.state, final(self)@.state),
            match r {
                Ok(kind) => old(self)@.execute_error(caller, id as int, now) is None && kind == old(self)@.timelock_actions[id as int].action_type && final(self)@ == old(self)@.with_action_executed(id as int),
                Err(e) => old(self)@.execute_error(caller, id as int, now) == Some(e) && final(self)@ == old(self)@,
            },
    {
        if caller != self.admin {
            return Err(VaultError::NotAdmin);
        }
        let i: usize = id as usize;
        if i >= self.timelock_actions.len() || self.timelock_actions[i].executed
            || self.timelock_actions[i].cancelled {
            return Err(VaultError::InvalidTimelockAction);
        }
        if now < self.timelock_actions[i].executable_at {
            return Err(VaultError::TimelockDelayNotPassed);
        }
        let ghost before = self@;
        let mut a: TimelockAction = self.timelock_actions.remove(i);
        let kind: ActionType = a.action_type;
        a.executed = true;
        self.timelock_actions.insert(i, a);
        proof {
            assert(self@.timelock_actions =~= before.with_action_executed(i as int).timelock_actions);
        }
        Ok(kind)
    }

    /// The admin cancels action `id` before it is executed.
    pub fn cancel_action(&mut self, caller: Address, id: u32) -> (r: Result<(), VaultError>)
        requires
            old(self)@.wf(),
        ensures
            final(self)@.wf(),
            transition_allowed(old(self)@.state, final(self)@.state),
            match r {
                Ok(()) => old(self)@.cancel_action_error(caller, id as int) is None && final(self)@ == old(self)@.with_action_cancelled(id as int),
                Err(e) => old(self)@.cancel_action_error(caller, id as int) == Some(e) && final(self)@ == old(self)@,
            },
    {
        if caller != self.admin {
            return Err(VaultError::NotAdmin);
        }
        let i: usize = id as usize;
        if i >= self.timelock_actions.len() || self.timelock_actions[i].executed
            || self.timelock_actions[i].cancelled {
            return Err(VaultError::InvalidTimelockAction);
        }
        let ghost before = self@;
        let mut a: TimelockAction = self.timelock_actions.remove(i);
        a.cancelled = true;
        self.timelock_actions.insert(i, a);
        proof {
            assert(self@.timelock_actions =~= before.with_action_cancelled(i as int).timelock_actions);
        }
        Ok(())
    }

    // ── early redemption requests ───────────────────────────────────────

    /// Whether `user` can ask to redeem early at all, and if not, why not.
    pub fn can_request_early_redemption(&self, user: Address) -> (r: RedemptionPrecheck)
        requires
            self@.wf(),
        ensures
            r == match self@.precheck_error(user) {
                Some(e) => RedemptionPrecheck::Fail(e),
                None => RedemptionPrecheck::Pass,
            },
    {
        if self.paused || self.freeze_flags & FREEZE_WITHDRAW_REDEEM != 0 {
            RedemptionPrecheck::Fail(VaultError::VaultPaused)
        } else if self.state != VaultState::Active {
            RedemptionPrecheck::Fail(VaultError::InvalidVaultState)
        } else if self.is_blacklisted(user) {
            RedemptionPrecheck::Fail(VaultError::AddressBlacklisted)
        } else if self.balance(user) == 0 {
            RedemptionPrecheck::Fail(VaultError::InsufficientBalance)
        } else {
            RedemptionPrecheck::Pass
        }
    }

    fn request_check(&self, user: Address, shares: i128) -> (r: Option<VaultError>)
        requires
            self@.wf(),
        ensures
            r == self@.request_error(user, shares as int),
    {
        if self.paused || self.freeze_flags & FREEZE_WITHDRAW_REDEEM != 0 {
            Some(VaultError::VaultPaused)
        } else if self.state != VaultState::Active {
            Some(VaultError::InvalidVaultState)
        } else if self.is_blacklisted(user) {
            Some(VaultError::AddressBlacklisted)
        } else if shares <= 0 {
            Some(VaultError::ZeroAmount)
        } else if shares > self.balance(user) {
            Some(VaultError::InsufficientBalance)
        } else if self.redemption_requests.len() >= u32::MAX as usize {
            Some(VaultError::ArithmeticOverflow)
        } else {
            None
        }
    }

    /// `user` asks to redeem `shares` before maturity, at `now`.  Returns
    /// the request's number.  The shares stay with the user until the
    /// request is processed.
    pub fn request_early_redemption(&mut self, user: Address, shares: i128, now: u64) -> (r: Result<
        u32,
        VaultError,
    >)
        requires
            old(self)@.wf(),
        ensures
            final(self)@.wf(),
            transition_allowed(old(self)@.state, final(self)@.state),
            match r {
                Ok(id) => old(self)@.request_error(user, shares as int) is None && id == old(self)@.redemption_requests.len() && final(self)@ == old(self)@.after_request(
                    user,
                    shares as int,
                    now,
                ),
                Err(e) => old(self)@.request_error(user, shares as int) == Some(e) && final(self)@
                    == old(self)@,
            },
    {
        if let Some(e) = self.request_check(user, shares) {
            return Err(e);
        }
        let id: u32 = self.redemption_requests.len() as u32;
        self.redemption_requests.push(
            RedemptionRequest { user, shares, request_time: now, processed: false },
        );
        Ok(id)
    }

    /// Early-redemption request number `id`, if there is one.
    pub fn get_redemption_request(&self, id: u32) -> (r: Option<RedemptionRequest>)
        ensures
            r == if (id as int) < self@.redemption_requests.len() {
                Some(self@.redemption_requests[id as int])
            } else {
                None::<RedemptionRequest>
            },
    {
        if (id as usize) < self.redemption_requests.len() {
            Some(self.redemption_requests[id as usize])
        } else {
            None
        }
    }

    /// A lifecycle manager processes request `id`: the requested shares are
    /// burned and their worth less the early-redemption fee is paid out to
    /// the user; the fee stays in the vault.  Returns the net amount paid.
    pub fn process_early_redemption(&mut self, caller: Address, id: u32) -> (r: Result<
        i128,
        VaultError,
    >)
        requires
            old(self)@.wf(),
        ensures
            final(self)@.wf(),
            transition_allowed(old(self)@.state, final(self)@.state),
            match r {
                Ok(net) => old(self)@.process_error(caller, id as int) is None && net == old(self)@.preview_redeem(old(self)@.redemption_requests[id as int].shares as int) - old(self)@.preview_redeem(old(self)@.redemption_requests[id as int].shares as int) * old(self)@.early_redemption_fee_bps / 10_000 && net == old(self)@.early_net(old(self)@.redemption_requests[id as int].shares as int) && final(self)@ == old(self)@.after_process(id as int),
                Err(e) => old(self)@.process_error(caller, id as int) == Some(e) && final(self)@
                    == old(self)@,
            },
    {
        if !self.has_role(caller, Role::LifecycleManager) {
            return Err(VaultError::NotAuthorized);
        }
        if self.paused {
            return Err(VaultError::VaultPaused);
        }
        if self.state != VaultState::Active {
            return Err(VaultError::InvalidVaultState);
        }
        let i: usize = id as usize;
        if i >= self.redemption_requests.len() || self.redemption_requests[i].processed {
            return Err(VaultError::InvalidRedemptionRequest);
        }
        let req: RedemptionRequest = self.redemption_requests[i];
        if self.is_blacklisted(req.user) {
            return Err(VaultError::AddressBlacklisted);
        }
        proof {
            lemma_account_ok(self@, req.user);
            assert(req.shares > 0);
        }
        let held: i128 = self.balance(req.user);
        if req.shares > held {
            return Err(VaultError::InsufficientBalance);
        }
        proof {
            lemma_redeem_bounds(
                req.shares as int,
                self@.total_supply as int,
                self@.total_assets as int,
            );
        }
        let gross: i128 = match self.preview_redeem(req.shares) {
            Some(a) => a,
            None => {
                // the payout never exceeds the total assets
                proof {
                    assert(false);
                }
                0
            },
        };
        if gross == 0 {
            return Err(VaultError::PreviewZeroAssets);
        }
        let split = EarlyRedemptionFeePreview::from_gross(gross, self.early_redemption_fee_bps);
        let net: i128 = split.net_assets;
        let exited: bool = held == req.shares;
        let ghost v = self@;
        self.burn(req.user, req.shares, net);
        self.redemption_requests.set(i, RedemptionRequest { processed: true, ..req });
        proof {
            assert(self@ == v.after_burn(req.user, req.shares as int, net as int).with_request_closed(
                i as int,
            ));
        }
        self.record_activity(ActivityKind::Redemption, net, false, exited);
        Ok(net)
    }

    /// A lifecycle manager rejects request `id`, closing it without
    /// redeeming anything.
    pub fn reject_early_redemption(&mut self, caller: Address, id: u32) -> (r: Result<
        (),
        VaultError,
    >)
        requires
            old(self)@.wf(),
        ensures
            final(self)@.wf(),
            transition_allowed(old(self)@.state, final(self)@.state),
            match r {
                Ok(()) => old(self)@.reject_error(caller, id as int) is None && final(self)@ == old(self)@.with_request_closed(id as int),
                Err(e) => old(self)@.reject_error(caller, id as int) == Some(e) && final(self)@
                    == old(self)@,
            },
    {
        if !self.has_role(caller, Role::LifecycleManager) {
            return Err(VaultError::NotAuthorized);
        }
        let i: usize = id as usize;
        if i >= self.redemption_requests.len() || self.redemption_requests[i].processed {
            return Err(VaultError::InvalidRedemptionRequest);
        }
        let req: RedemptionRequest = self.redemption_requests[i];
        self.redemption_requests.set(i, RedemptionRequest { processed: true, ..req });
        Ok(())
    }

    // ── yield ───────────────────────────────────────────────────────────

    /// A yield operator distributes `amount` of yield over the current
    /// share supply, opening a new epoch stamped `now`.  Returns the new
    /// epoch's number.
    pub fn distribute_yield(&mut self, caller: Address, amount: i128, now: u64) -> (r: Result<
        u32,
        VaultError,
    >)
        requires
            old(self)@.wf(),
        ensures
            final(self)@.wf(),
            transition_allowed(old(self)@.state, final(self)@.state),
            match r {
                Ok(epoch) => old(self)@.distribute_error(caller, amount as int) is None && epoch
                    == old(self)@.current_epoch() + 1 && final(self)@ == old(self)@.after_distribute(
                    amount as int,
                    now,
                ),
                Err(e) => old(self)@.distribute_error(caller, amount as int) == Some(e) && final(self)@ == old(self)@,
            },
    {
        if !self.has_role(caller, Role::YieldOperator) {
            return Err(VaultError::NotAuthorized);
        }
        if self.state != VaultState::Active {
            return Err(VaultError::InvalidVaultState);
        }
        if self.total_supply == 0 {
            return Err(VaultError::NoShareholders);
        }
        if amount <= 0 {
            return Err(VaultError::ZeroAmount);
        }
        if self.total_assets > i128::MAX - amount || self.total_yield_distributed > i128::MAX
            - amount || self.epochs.len() >= (u32::MAX - 1) as usize {
            return Err(VaultError::ArithmeticOverflow);
        }
        proof {
            lemma_distribute_keeps_wf(self@, amount as int, now);
        }
        self.epochs.push(
            EpochRecord { yield_amount: amount, total_shares: self.total_supply, timestamp: now },
        );
        self.total_assets = self.total_assets + amount;
        self.total_yield_distributed = self.total_yield_distributed + amount;
        self.epoch_credits = Ghost(self.epoch_credits@.push(0));
        self.activity.push(EpochActivity::zero());
        Ok(self.epochs.len() as u32)
    }

    /// The part of `amount` of pending yield vested at `now`.
    fn vested_amount(&self, amount: i128, now: u64) -> (r: i128)
        requires
            self@.wf(),
            amount >= 0,
        ensures
            r == self@.vested_part(amount as int, now),
            0 <= r <= amount,
    {
        let p: u64 = self.profile.yield_vesting_period;
        let n: usize = self.epochs.len();
        if p == 0 || n == 0 {
            return amount;
        }
        let t: u64 = self.epochs[n - 1].timestamp;
        if now >= t && now - t >= p {
            return amount;
        }
        if now <= t {
            return 0;
        }
        let elapsed: u64 = now - t;
        proof {
            lemma_scaled_down(amount as int, elapsed as int, p as int);
        }
        match mul_div_floor(amount, elapsed as i128, p as i128) {
            Some(v) => v,
            None => {
                // the vested part never exceeds the amount
                proof {
                    assert(false);
                }
                0
            },
        }
    }

    /// Yield `a` can claim at `now`: the vested part of its pending yield.
    pub fn claimable_yield(&self, a: Address, now: u64) -> (r: i128)
        requires
            self@.wf(),
        ensures
            r == self@.claimable_yield(a, now),
            ({
                let p = self@.profile.yield_vesting_period;
                let n = self@.epochs.len();
                p > 0 && n > 0 ==> {
                    &&& now <= self@.epochs[n - 1].timestamp ==> r == 0
                    &&& self@.epochs[n - 1].timestamp < now < self@.epochs[n - 1].timestamp + p
                        ==> r == self@.pending_yield(a) * (now - self@.epochs[n - 1].timestamp) / (
                    p as int)
                }
            }),
    {
        let pending: i128 = self.pending_yield(a);
        proof {
            lemma_account_ok(self@, a);
            lemma_settle(self@, self@.account(a));
        }
        self.vested_amount(pending, now)
    }

    /// Pays out the part of the caller's pending yield that has vested at
    /// `now` (all of it when the vault's vesting period is zero); the rest
    /// stays pending.  Returns the amount claimed.
    pub fn claim_yield(&mut self, caller: Address, now: u64) -> (r: Result<i128, VaultError>)
        requires
            old(self)@.wf(),
        ensures
            final(self)@.wf(),
            transition_allowed(old(self)@.state, final(self)@.state),
            ({
                let p = old(self)@.profile.yield_vesting_period;
                let n = old(self)@.epochs.len();
                p > 0 && n > 0 && now <= old(self)@.epochs[n - 1].timestamp ==> r is Err
            }),
            ({
                let p = old(self)@.profile.yield_vesting_period;
                let n = old(self)@.epochs.len();
                r matches Ok(amount) ==> (p > 0 && n > 0 && now < old(self)@.epochs[n
                    - 1].timestamp + p ==> amount == old(self)@.pending_yield(caller) * (now - old(self)@.epochs[n - 1].timestamp) / (p as int))
            }),
            match r {
                Ok(amount) => old(self)@.claim_error(caller, now) is None && amount == old(self)@.claimable_yield(caller, now) && final(self)@ == old(self)@.after_claim(
                    caller,
                    amount as int,
                ).with_activity(ActivityKind::YieldClaim, amount as int, false, false),
                Err(e) => old(self)@.claim_error(caller, now) == Some(e) && final(self)@ == old(self)@,
            },
    {
        if self.paused || self.freeze_flags & FREEZE_YIELD != 0 {
            return Err(VaultError::VaultPaused);
        }
        if !(self.state == VaultState::Active || self.state == VaultState::Matured) {
            return Err(VaultError::InvalidVaultState);
        }
        let ghost v = self@;
        proof {
            lemma_account_ok(v, caller);
            lemma_settle(v, v.account(caller));
        }
        let idx: Option<usize> = find_account(&self.accounts, caller);
        let acc: Account = match idx {
            Some(i) => self.accounts[i],
            None => Account::new(caller),
        };
        let st: Account = self.settle(acc);
        let amount: i128 = self.vested_amount(st.accrued_yield, now);
        if amount == 0 {
            return Err(VaultError::NoYieldToClaim);
        }
        let paid = Account {
            holder: st.holder,
            shares: st.shares,
            deposited: st.deposited,
            accrued_yield: st.accrued_yield - amount,
            settled_epoch: st.settled_epoch,
            claimed_yield: st.claimed_yield + amount,
        };
        assert(paid == v.claimed(caller, amount as int));
        proof {
            lemma_store_keeps_accounts_ok(v, paid);
            lemma_books_after_settle(v.accounts, v.epochs, v.epoch_credits, paid);
        }
        put_account(&mut self.accounts, idx, paid);
        self.epoch_credits = Ghost(v.credits_after_settling(caller));
        self.record_activity(ActivityKind::YieldClaim, amount, false, false);
        Ok(amount)
    }
}

/// Scaling `a` by `e / p` with `0 <= e < p` gives at most `a`.
pub proof fn lemma_scaled_down(a: int, e: int, p: int)
    requires
        a >= 0,
        0 <= e <= p,
        p > 0,
    ensures
        0 <= a * e / p <= a,
{
    assert(0 <= a * e <= a * p) by (nonlinear_arith)
        requires
            a >= 0,
            0 <= e <= p,
    ;
    assert(a * p == p * a) by (nonlinear_arith);
    vstd::arithmetic::div_mod::lemma_div_is_ordered(a * e, a * p, p);
    vstd::arithmetic::div_mod::lemma_div_multiples_vanish(a, p);
    vstd::arithmetic::div_mod::lemma_div_pos_is_pos(a * e, p);
}

impl Vault {
    // ── reporting ───────────────────────────────────────────────────────

    /// Fee preview for an early redemption of `shares` at the vault's fee
    /// rate; `None` when their value exceeds `i128::MAX`.
    pub fn estimate_early_redemption_fee(&self, shares: i128) -> (r: Option<EarlyRedemptionFeePreview>)
        requires
            self@.wf(),
            shares >= 0,
        ensures
            r is Some <==> self@.preview_redeem(shares as int) <= i128::MAX,
            r matches Some(p) ==> {
                &&& p.gross_assets == self@.preview_redeem(shares as int)
                &&& p.fee_bps == self@.early_redemption_fee_bps
                &&& p.fee_amount == early_fee_spec(
                    p.gross_assets as int,
                    self@.early_redemption_fee_bps as int,
                )
                &&& p.net_assets == p.gross_assets - p.fee_amount
            },
    {
        match self.preview_redeem(shares) {
            Some(gross) => {
                proof {
                    if self@.total_supply > 0 {
                        assert(shares * self@.total_assets >= 0) by (nonlinear_arith)
                            requires
                                shares >= 0,
                                self@.total_assets >= 0,
                        ;
                        vstd::arithmetic::div_mod::lemma_div_pos_is_pos(
                            shares * self@.total_assets,
                            self@.total_supply as int,
                        );
                    }
                }
                Some(EarlyRedemptionFeePreview::from_gross(gross, self.early_redemption_fee_bps))
            },
            None => None,
        }
    }

    /// The record of epoch `epoch` (numbered from 1); `None` when there is
    /// no such epoch or its scaled yield per share exceeds `i128::MAX`.
    pub fn get_epoch_data(&self, epoch: u32) -> (r: Option<EpochData>)
        requires
            self@.wf(),
        ensures
            r is Some <==> 1 <= epoch <= self@.epochs.len() && yield_per_share_spec(
                self@.epochs[epoch - 1].yield_amount as int,
                self@.epochs[epoch - 1].total_shares as int,
            ) <= i128::MAX,
            r matches Some(d) ==> {
                let e = self@.epochs[epoch - 1];
                &&& d.epoch == epoch
                &&& d.yield_amount == e.yield_amount
                &&& d.total_shares == e.total_shares
                &&& d.timestamp == e.timestamp
                &&& d.yield_per_share == yield_per_share_spec(
                    e.yield_amount as int,
                    e.total_shares as int,
                )
            },
    {
        if epoch >= 1 && (epoch as usize) <= self.epochs.len() {
            let e: EpochRecord = self.epochs[(epoch - 1) as usize];
            assert(e == self@.epochs[epoch - 1]);
            EpochData::new(epoch, e.yield_amount, e.total_shares, e.timestamp)
        } else {
            None
        }
    }

    /// Aggregate yield statistics.
    pub fn get_yield_summary(&self) -> (r: YieldSummary)
        requires
            self@.wf(),
        ensures
            r.total_epochs == self@.epochs.len(),
            r.total_yield_distributed == self@.total_yield_distributed,
            r.average_yield_per_epoch == (if self@.epochs.len() == 0 {
                0
            } else {
                (self@.total_yield_distributed as int) / (self@.epochs.len() as int)
            }),
            r.latest_epoch_yield == (if self@.epochs.len() == 0 {
                0
            } else {
                self@.epochs.last().yield_amount
            }),
            r.earliest_epoch == (if self@.epochs.len() == 0 {
                0int
            } else {
                1int
            }),
            r.latest_epoch == self@.epochs.len(),
    {
        let n: usize = self.epochs.len();
        proof {
            lemma_yield_total_nonneg(self@.epochs, 0, n as int);
        }
        if n == 0 {
            YieldSummary {
                total_epochs: 0,
                total_yield_distributed: self.total_yield_distributed,
                average_yield_per_epoch: 0,
                latest_epoch_yield: 0,
                earliest_epoch: 0,
                latest_epoch: 0,
            }
        } else {
            YieldSummary {
                total_epochs: n as u32,
                total_yield_distributed: self.total_yield_distributed,
                average_yield_per_epoch: self.total_yield_distributed / (n as i128),
                latest_epoch_yield: self.epochs[n - 1].yield_amount,
                earliest_epoch: 1,
                latest_epoch: n as u32,
            }
        }
    }

    /// Work a claim by `a` would do: the epochs since its last settlement.
    pub fn claim_cost_hint(&self, a: Address) -> (r: ClaimCostHint)
        requires
            self@.wf(),
        ensures
            r.current_epoch == self@.epochs.len(),
            r.last_claimed_epoch == self@.account(a).settled_epoch,
            r.epochs_scanned == self@.epochs.len() - self@.account(a).settled_epoch,
            r.unclaimed_epochs == self@.epochs.len() - self@.account(a).settled_epoch,
    {
        proof {
            lemma_account_ok(self@, a);
        }
        let acc: Account = get_account(&self.accounts, a);
        let n: u32 = self.epochs.len() as u32;
        ClaimCostHint {
            current_epoch: n,
            last_claimed_epoch: acc.settled_epoch,
            epochs_scanned: n - acc.settled_epoch,
            unclaimed_epochs: n - acc.settled_epoch,
        }
    }

    /// `a`'s share of each epoch it has not yet settled.
    pub fn pending_yield_breakdown(&self, a: Address) -> (r: Vec<PendingYieldEpoch>)
        requires
            self@.wf(),
        ensures
            r.len() == self@.epochs.len() - self@.account(a).settled_epoch,
            forall|k: int|
                0 <= k < r.len() ==> {
                    let e = self@.account(a).settled_epoch + k;
                    &&& #[trigger] r@[k].epoch == e + 1
                    &&& r@[k].pending == epoch_share_of(self@.epochs[e], self@.account(a).shares as int)
                },
    {
        proof {
            lemma_account_ok(self@, a);
        }
        let acc: Account = get_account(&self.accounts, a);
        let n: usize = self.epochs.len();
        let start: usize = acc.settled_epoch as usize;
        let mut out: Vec<PendingYieldEpoch> = Vec::new();
        let mut k: usize = start;
        while k < n
            invariant
                n == self.epochs.len(),
                start <= k <= n,
                start == acc.settled_epoch,
                n < u32::MAX,
                account_ok(acc, self@.epochs),
                epochs_well_formed(self@.epochs),
                out.len() == k - start,
                forall|j: int|
                    0 <= j < out.len() ==> {
                        let e = start + j;
                        &&& #[trigger] out@[j].epoch == e + 1
                        &&& out@[j].pending == epoch_share_of(self@.epochs[e], acc.shares as int)
                    },
            decreases n - k,
        {
            let e: EpochRecord = self.epochs[k];
            assert(e == self@.epochs[k as int]);
            proof {
                lemma_epoch_share_bounded(e, acc.shares as int);
            }
            let part: i128 = match mul_div_floor(acc.shares, e.yield_amount, e.total_shares) {
                Some(p) => p,
                None => {
                // a holder's part never exceeds the epoch's yield
                proof {
                    assert(false);
                }
                0
            },
            };
            out.push(PendingYieldEpoch { epoch: (k + 1) as u32, pending: part });
            k = k + 1;
        }
        out
    }
}

/// Allowances in a well-formed vault are not negative.
pub proof fn lemma_allowance_nonneg(v: VaultView, owner: Address, spender: Address)
    requires
        v.wf(),
    ensures
        v.allowance(owner, spender) >= 0,
{
    if has_allowance(v.allowances, owner, spender) {
        let i = allowance_index(v.allowances, owner, spender);
        assert(v.allowances[i].amount >= 0);
    }
}

/// Storing a consistent account among consistent accounts keeps them all
/// consistent and the holders unique.
pub proof fn lemma_store_ok(accounts: Seq<Account>, epochs: Seq<EpochRecord>, acc: Account)
    requires
        holders_unique(accounts),
        forall|i: int| 0 <= i < accounts.len() ==> #[trigger] account_ok(accounts[i], epochs),
        account_ok(acc, epochs),
    ensures
        holders_unique(store_account(accounts, acc)),
        forall|i: int|
            0 <= i < store_account(accounts, acc).len() ==> #[trigger] account_ok(
                store_account(accounts, acc)[i],
                epochs,
            ),
{
    lemma_store_account(accounts, acc);
    let t = store_account(accounts, acc);
    assert forall|i: int| 0 <= i < t.len() implies #[trigger] account_ok(t[i], epochs) by {
        if t[i] != acc {
            assert(account_ok(accounts[i], epochs));
        }
    }
}

impl Vault {
    // ── share transfers ─────────────────────────────────────────────────

    /// Shares `spender` may move on behalf of `owner`.
    pub fn allowance(&self, owner: Address, spender: Address) -> (r: i128)
        requires
            self@.wf(),
        ensures
            r == self@.allowance(owner, spender),
    {
        find_allowance(&self.allowances, owner, spender).1
    }

    /// `owner` lets `spender` move up to `amount` of its shares; a negative
    /// amount is refused.
    pub fn approve(&mut self, owner: Address, spender: Address, amount: i128) -> (r: Result<
        (),
        VaultError,
    >)
        requires
            old(self)@.wf(),
        ensures
            final(self)@.wf(),
            match r {
                Ok(()) => amount >= 0 && final(self)@ == (VaultView {
                    allowances: set_allowance(old(self)@.allowances, owner, spender, amount),
                    ..old(self)@
                }),
                Err(e) => amount < 0 && e == VaultError::ZeroAmount && final(self)@ == old(self)@,
            },
    {
        if amount < 0 {
            return Err(VaultError::ZeroAmount);
        }
        let (idx, _current): (Option<usize>, i128) = find_allowance(&self.allowances, owner, spender);
        proof {
            lemma_set_allowance(self@.allowances, owner, spender, amount);
        }
        put_allowance(&mut self.allowances, idx, owner, spender, amount);
        Ok(())
    }

    /// Moves `amount` shares from `from` to `to`, settling both accounts.
    fn move_shares(&mut self, from: Address, to: Address, amount: i128)
        requires
            old(self)@.wf(),
            0 < amount <= old(self)@.account(from).shares,
        ensures
            final(self)@ == old(self)@.after_transfer(from, to, amount as int),
            final(self)@.wf(),
    {
        let ghost v = self@;
        proof {
            lemma_account_ok(v, from);
            lemma_settle(v, v.account(from));
            lemma_account_ok(v, to);
            lemma_settle(v, v.account(to));
        }
        let idx_f: Option<usize> = find_account(&self.accounts, from);
        let acc_f: Account = match idx_f {
            Some(i) => self.accounts[i],
            None => Account::new(from),
        };
        let sf: Account = self.settle(acc_f);
        if from == to {
            proof {
                lemma_store_keeps_accounts_ok(v, sf);
                lemma_books_after_settle(v.accounts, v.epochs, v.epoch_credits, sf);
            }
            put_account(&mut self.accounts, idx_f, sf);
            self.epoch_credits = Ghost(v.credits_after_settling(from));
            return;
        }
        let idx_t: Option<usize> = find_account(&self.accounts, to);
        let acc_t: Account = match idx_t {
            Some(i) => self.accounts[i],
            None => Account::new(to),
        };
        let st: Account = self.settle(acc_t);
        proof {
            assert forall|k: int| 0 <= k < v.accounts.len() implies #[trigger] v.accounts[k].shares
                >= 0 by {
                assert(account_ok(v.accounts[k], v.epochs));
            }
            if let Some(j) = idx_t {
                let i = idx_f.unwrap();
                lemma_two_shares_at_most_sum(v.accounts, i as int, j as int);
            }
        }
        let deb = Account {
            holder: sf.holder,
            shares: sf.shares - amount,
            deposited: sf.deposited,
            accrued_yield: sf.accrued_yield,
            settled_epoch: sf.settled_epoch,
            claimed_yield: sf.claimed_yield,
        };
        let cred = Account {
            holder: st.holder,
            shares: st.shares + amount,
            deposited: st.deposited,
            accrued_yield: st.accrued_yield,
            settled_epoch: st.settled_epoch,
            claimed_yield: st.claimed_yield,
        };
        let ghost w = VaultView {
            accounts: store_account(v.accounts, v.debited(from, amount as int)),
            epoch_credits: v.credits_after_settling(from),
            ..v
        };
        assert(deb == v.debited(from, amount as int));
        proof {
            lemma_store_ok(v.accounts, v.epochs, deb);
            lemma_store_account(v.accounts, deb);
            lemma_books_after_settle(v.accounts, v.epochs, v.epoch_credits, deb);
        }
        put_account(&mut self.accounts, idx_f, deb);
        proof {
            let s1 = self.accounts@;
            assert(s1 == w.accounts);
            assert(w.account(to) == v.account(to));
            if let Some(j) = idx_t {
                let i = idx_f.unwrap();
                assert(i != j);
                assert(s1[j as int] == v.accounts[j as int]);
                lemma_account_index_unique(s1, to, j as int);
            } else {
                if has_account(s1, to) {
                    let m = account_index(s1, to);
                    if s1[m] != deb {
                        assert(m < v.accounts.len() && s1[m] == v.accounts[m]);
                    }
                }
            }
            assert(cred == w.moved_in(to, amount as int));
            lemma_store_ok(s1, v.epochs, cred);
            lemma_store_account(s1, cred);
            lemma_books_after_settle(w.accounts, w.epochs, w.epoch_credits, cred);
        }
        put_account(&mut self.accounts, idx_t, cred);
        self.epoch_credits = Ghost(w.credits_after_settling(to));
    }

    /// `from` transfers `amount` of its shares to `to`.  `to_kyc_verified`
    /// is the KYC verifier's answer for `to`, needed when transfers require
    /// KYC.
    pub fn transfer(&mut self, from: Address, to: Address, amount: i128, to_kyc_verified: bool) -> (r: Result<
        (),
        VaultError,
    >)
        requires
            old(self)@.wf(),
        ensures
            final(self)@.wf(),
            transition_allowed(old(self)@.state, final(self)@.state),
            match r {
                Ok(()) => old(self)@.transfer_error(from, to, amount as int, to_kyc_verified) is None && final(self)@
                    == old(self)@.after_transfer(from, to, amount as int).with_activity(
                    ActivityKind::Transfer,
                    amount as int,
                    old(self)@.transfer_joins(from, to),
                    old(self)@.transfer_exits(from, to, amount as int),
                ),
                Err(e) => old(self)@.transfer_error(from, to, amount as int, to_kyc_verified) == Some(e) && final(
                    self)@ == old(self)@,
            },
    {
        if self.paused {
            return Err(VaultError::VaultPaused);
        }
        if self.is_blacklisted(from) || self.is_blacklisted(to) {
            return Err(VaultError::AddressBlacklisted);
        }
        if self.transfer_requires_kyc && !to_kyc_verified {
            return Err(VaultError::NotKYCVerified);
        }
        if amount <= 0 {
            return Err(VaultError::ZeroAmount);
        }
        let held: i128 = self.balance(from);
        if amount > held {
            return Err(VaultError::InsufficientBalance);
        }
        let joined: bool = from != to && self.balance(to) == 0;
        let exited: bool = from != to && held == amount;
        self.move_shares(from, to, amount);
        self.record_activity(ActivityKind::Transfer, amount, joined, exited);
        Ok(())
    }

    /// `spender` moves `amount` shares of `from` to `to`, spending that much
    /// of the allowance `from` gave it.  `to_kyc_verified` is as for
    /// `transfer`.
    pub fn transfer_from(
        &mut self,
        spender: Address,
        from: Address,
        to: Address,
        amount: i128,
        to_kyc_verified: bool,
    ) -> (r:
        Result<(), VaultError>)
        requires
            old(self)@.wf(),
        ensures
            final(self)@.wf(),
            transition_allowed(old(self)@.state, final(self)@.state),
            match r {
                Ok(()) => old(self)@.transfer_from_error(spender, from, to, amount as int, to_kyc_verified) is None
                    && final(self)@ == (VaultView {
                    allowances: set_allowance(
                        old(self)@.allowances,
                        from,
                        spender,
                        (old(self)@.allowance(from, spender) - amount) as i128,
                    ),
                    ..old(self)@.after_transfer(from, to, amount as int)
                }).with_activity(
                    ActivityKind::Transfer,
                    amount as int,
                    old(self)@.transfer_joins(from, to),
                    old(self)@.transfer_exits(from, to, amount as int),
                ),
                Err(e) => old(self)@.transfer_from_error(spender, from, to, amount as int, to_kyc_verified) == Some(
                    e,
                ) && final(self)@ == old(self)@,
            },
    {
        if self.paused {
            return Err(VaultError::VaultPaused);
        }
        if self.is_blacklisted(from) || self.is_blacklisted(to) {
            return Err(VaultError::AddressBlacklisted);
        }
        if self.transfer_requires_kyc && !to_kyc_verified {
            return Err(VaultError::NotKYCVerified);
        }
        if amount <= 0 {
            return Err(VaultError::ZeroAmount);
        }
        let (idx, allowed): (Option<usize>, i128) = find_allowance(&self.allowances, from, spender);
        if amount > allowed {
            return Err(VaultError::InsufficientAllowance);
        }
        let held: i128 = self.balance(from);
        if amount > held {
            return Err(VaultError::InsufficientBalance);
        }
        let joined: bool = from != to && self.balance(to) == 0;
        let exited: bool = from != to && held == amount;
        self.move_shares(from, to, amount);
        proof {
            lemma_set_allowance(self@.allowances, from, spender, (allowed - amount) as i128);
        }
        put_allowance(&mut self.allowances, idx, from, spender, allowed - amount);
        self.record_activity(ActivityKind::Transfer, amount, joined, exited);
        Ok(())
    }
}

} // verus!
