//! Shared types used across the vault.

use vstd::prelude::*;
use crate::math::{mul_div_floor};

verus! {

/// Basis-point denominator: 10_000 bps is 100%.
pub const BPS_DENOMINATOR: i128 = 10_000;

/// Fixed-point scale of `EpochData::yield_per_share`.
pub const YIELD_PRECISION: i128 = 1_000_000_000_000_000_000;

/// An account identity as the vault sees it: an opaque identifier that is
/// only ever compared for equality.
#[derive(Clone, Copy, Debug, PartialEq, Eq, Structural)]
pub struct Address {
    pub id: u64,
}

// ─────────────────────────────────────────────────────────────────────────────
// Initialisation parameters
// ─────────────────────────────────────────────────────────────────────────────

/// Everything a vault is created with, in a single argument.
#[derive(Clone, Debug)]
pub struct InitParams {
    /// Asset token address (e.g. USDC).
    pub asset: Address,
    pub share_name: String,
    pub share_symbol: String,
    pub share_decimals: u32,
    pub admin: Address,
    pub zkme_verifier: Address,
    pub cooperator: Address,
    pub funding_target: i128,
    pub maturity_date: u64,
    pub min_deposit: i128,
    pub max_deposit_per_user: i128,
    pub early_redemption_fee_bps: u32,
    /// Unix timestamp after which funding can be cancelled if target not met.
    pub funding_deadline: u64,
    pub rwa_name: String,
    pub rwa_symbol: String,
    pub rwa_document_uri: String,
    pub rwa_category: String,
    pub expected_apy: u32,
    /// Delay in seconds for critical admin operations.
    pub timelock_delay: u64,
    /// Yield vesting period in seconds (0 = instant claiming).
    pub yield_vesting_period: u64,
}

// ─────────────────────────────────────────────────────────────────────────────
// Vault state
// ─────────────────────────────────────────────────────────────────────────────

/// Lifecycle state of a vault.
#[derive(Clone, Copy, Debug, PartialEq, Eq, Structural)]
pub enum VaultState {
    /// Accepting deposits to reach funding target.
    Funding,
    /// RWA investment is active, generating yield.
    Active,
    /// Investment matured, full redemptions enabled.
    Matured,
    /// Vault is closed.
    Closed,
    /// Funding failed (deadline passed without meeting target); refunds available.
    Cancelled,
    /// Emergency mode: users can claim pro-rata share of remaining assets.
    Emergency,
}

/// Descriptive details of the real-world asset behind a vault.
#[derive(Clone, Debug)]
pub struct RwaDetails {
    pub name: String,
    pub symbol: String,
    pub document_uri: String,
    pub category: String,
    pub expected_apy: u32,
}

// ─────────────────────────────────────────────────────────────────────────────
// Role-based access control
// ─────────────────────────────────────────────────────────────────────────────

/// Granular operator role.  `FullOperator` is the superrole and passes every
/// role check.
///
/// - `YieldOperator`     → `distribute_yield`
/// - `LifecycleManager`  → `activate_vault`, `cancel_funding`, `mature_vault`,
///                          `close_vault`, `set_maturity_date`, `set_deposit_limits`,
///                          `set_funding_target`, `set_early_redemption_fee`
/// - `ComplianceOfficer` → `set_blacklisted`
/// - `TreasuryManager`   → `pause`, `unpause`
/// - `FullOperator`      → all of the above
#[derive(Clone, Copy, Debug, PartialEq, Eq, Structural)]
pub enum Role {
    YieldOperator,
    LifecycleManager,
    ComplianceOfficer,
    TreasuryManager,
    FullOperator,
}

impl Role {
    /// A held role satisfies a role check exactly when it is that role or
    /// the superrole.
    pub open spec fn grants_spec(self, required: Role) -> bool {
        self == Role::FullOperator || self == required
    }

    /// Whether holding `self` passes a check for `required`.
    pub fn grants(&self, required: &Role) -> (r: bool)
        ensures
            r == self.grants_spec(*required),
    {
        *self == Role::FullOperator || *self == *required
    }
}

/// The superrole passes every role check, and every role passes its own.
pub proof fn lemma_full_operator_grants_every_role(required: Role)
    ensures
        Role::FullOperator.grants_spec(required),
        required.grants_spec(required),
{
}

/// A role other than the superrole passes no check but its own.
pub proof fn lemma_narrow_role_grants_only_itself(held: Role, required: Role)
    requires
        held != Role::FullOperator,
        held != required,
    ensures
        !held.grants_spec(required),
{
}

// ─────────────────────────────────────────────────────────────────────────────
// Redemption request
// ─────────────────────────────────────────────────────────────────────────────

/// An early-redemption request queued by a user.
#[derive(Clone, Copy, Debug, PartialEq, Eq, Structural)]
pub struct RedemptionRequest {
    pub user: Address,
    pub shares: i128,
    pub request_time: u64,
    pub processed: bool,
}

// ─────────────────────────────────────────────────────────────────────────────
// Epoch data (historical yield queries)
// ─────────────────────────────────────────────────────────────────────────────

/// Per-epoch yield data.
#[derive(Clone, Copy, Debug, PartialEq, Eq, Structural)]
pub struct EpochData {
    pub epoch: u32,
    pub yield_amount: i128,
    pub total_shares: i128,
    /// yield_amount * YIELD_PRECISION / total_shares; 0 if total_shares == 0.
    pub yield_per_share: i128,
    /// Timestamp when this epoch was created.
    pub timestamp: u64,
}

/// The yield per share of an epoch, scaled by `YIELD_PRECISION`.
pub open spec fn yield_per_share_spec(yield_amount: int, total_shares: int) -> int {
    if total_shares == 0 {
        0
    } else {
        yield_amount * YIELD_PRECISION / total_shares
    }
}

impl EpochData {
    /// Builds the record of an epoch, computing its yield per share.
    /// `None` exactly when the scaled yield per share exceeds `i128::MAX`.
    pub fn new(epoch: u32, yield_amount: i128, total_shares: i128, timestamp: u64) -> (r: Option<
        EpochData,
    >)
        requires
            yield_amount >= 0,
            total_shares >= 0,
        ensures
            r is Some <==> yield_per_share_spec(yield_amount as int, total_shares as int)
                <= i128::MAX,
            r matches Some(d) ==> {
                &&& d.epoch == epoch
                &&& d.yield_amount == yield_amount
                &&& d.total_shares == total_shares
                &&& d.timestamp == timestamp
                &&& d.yield_per_share == yield_per_share_spec(
                    yield_amount as int,
                    total_shares as int,
                )
            },
    {
        let per_share: i128 = if total_shares == 0 {
            0
        } else {
            match mul_div_floor(yield_amount, YIELD_PRECISION, total_shares) {
                Some(v) => v,
                None => {
                    return None;
                },
            }
        };
        Some(EpochData { epoch, yield_amount, total_shares, yield_per_share: per_share, timestamp })
    }
}

/// Aggregate yield statistics for the vault.
#[derive(Clone, Copy, Debug, PartialEq, Eq, Structural)]
pub struct YieldSummary {
    pub total_epochs: u32,
    pub total_yield_distributed: i128,
    pub average_yield_per_epoch: i128,
    pub latest_epoch_yield: i128,
    pub earliest_epoch: u32,
    pub latest_epoch: u32,
}

/// Per-epoch yield breakdown for a specific user.
#[derive(Clone, Copy, Debug, PartialEq, Eq, Structural)]
pub struct UserEpochYield {
    pub epoch: u32,
    pub user_shares: i128,
    pub yield_earned: i128,
    pub claimed: bool,
}

// ─────────────────────────────────────────────────────────────────────────────
// Lightweight view helpers
// ─────────────────────────────────────────────────────────────────────────────

/// Read-only preview of the fee charged for an early redemption request,
/// in the vault's underlying asset units.
#[derive(Clone, Copy, Debug, PartialEq, Eq, Structural)]
pub struct EarlyRedemptionFeePreview {
    /// Gross assets that the shares would redeem for (before fee).
    pub gross_assets: i128,
    /// Early redemption fee amount (gross_assets * fee_bps / 10_000).
    pub fee_amount: i128,
    /// Net assets paid out (gross_assets - fee_amount).
    pub net_assets: i128,
    /// Fee rate in basis points applied in the preview.
    pub fee_bps: u32,
}

/// The early-redemption fee on `gross` assets at `fee_bps` basis points.
pub open spec fn early_fee_spec(gross: int, fee_bps: int) -> int {
    gross * fee_bps / (BPS_DENOMINATOR as int)
}

impl EarlyRedemptionFeePreview {
    /// Splits `gross_assets` into the fee at `fee_bps` and the net payout.
    pub fn from_gross(gross_assets: i128, fee_bps: u32) -> (r: EarlyRedemptionFeePreview)
        requires
            gross_assets >= 0,
            fee_bps <= BPS_DENOMINATOR,
        ensures
            r.gross_assets == gross_assets,
            r.fee_bps == fee_bps,
            r.fee_amount == early_fee_spec(gross_assets as int, fee_bps as int),
            r.net_assets == gross_assets - r.fee_amount,
            0 <= r.fee_amount <= gross_assets,
            0 <= r.net_assets <= gross_assets,
    {
        proof {
            lemma_fee_at_most_gross(gross_assets as int, fee_bps as int);
        }
        let fee: i128 = match mul_div_floor(gross_assets, fee_bps as i128, BPS_DENOMINATOR) {
            Some(f) => f,
            None => {
                // the fee never exceeds the gross amount
                proof {
                    assert(false);
                }
                0
            },
        };
        EarlyRedemptionFeePreview {
            gross_assets,
            fee_amount: fee,
            net_assets: gross_assets - fee,
            fee_bps,
        }
    }
}

/// A fee of at most 100% never exceeds the amount it is taken from.
pub proof fn lemma_fee_at_most_gross(gross: int, fee_bps: int)
    requires
        gross >= 0,
        0 <= fee_bps <= BPS_DENOMINATOR,
    ensures
        0 <= early_fee_spec(gross, fee_bps) <= gross,
{
    assert(0 <= gross * fee_bps <= gross * 10_000) by (nonlinear_arith)
        requires
            gross >= 0,
            0 <= fee_bps <= 10_000,
    ;
    vstd::arithmetic::div_mod::lemma_div_is_ordered(gross * fee_bps, gross * 10_000, 10_000);
    vstd::arithmetic::div_mod::lemma_div_multiples_vanish(gross, 10_000);
    vstd::arithmetic::div_mod::lemma_div_pos_is_pos(gross * fee_bps, 10_000);
}

/// Per-epoch pending yield breakdown item for a user.
#[derive(Clone, Copy, Debug, PartialEq, Eq, Structural)]
pub struct PendingYieldEpoch {
    pub epoch: u32,
    pub pending: i128,
}

/// Non-binding hint of the work required to claim yield for a user.
#[derive(Clone, Copy, Debug, PartialEq, Eq, Structural)]
pub struct ClaimCostHint {
    /// Current epoch at time of estimation.
    pub current_epoch: u32,
    /// Cursor used by claiming logic.
    pub last_claimed_epoch: u32,
    /// Number of epochs the claim path is expected to scan.
    pub epochs_scanned: u32,
    /// Number of epochs that have not been marked claimed for the user.
    pub unclaimed_epochs: u32,
}

// ─────────────────────────────────────────────────────────────────────────────
// Timelock
// ─────────────────────────────────────────────────────────────────────────────

/// Types of critical operations that require timelock protection.
#[derive(Clone, Copy, Debug, PartialEq, Eq, Structural)]
pub enum ActionType {
    EmergencyWithdraw,
    TransferAdmin,
    Upgrade,
    WasmHashUpdate,
}

/// A timelocked action that delays execution of critical operations.
#[derive(Clone, Debug)]
pub struct TimelockAction {
    pub action_type: ActionType,
    pub data: Vec<u8>,
    pub proposed_at: u64,
    pub executable_at: u64,
    pub executed: bool,
    pub cancelled: bool,
}

impl TimelockAction {
    /// An action proposed at `proposed_at` that becomes executable `delay`
    /// seconds later; `None` when that time is beyond `u64::MAX`.
    pub fn propose(action_type: ActionType, data: Vec<u8>, proposed_at: u64, delay: u64) -> (r:
        Option<TimelockAction>)
        ensures
            r is Some <==> proposed_at + delay <= u64::MAX,
            r matches Some(a) ==> {
                &&& a.action_type == action_type
                &&& a.data@ == data@
                &&& a.proposed_at == proposed_at
                &&& a.executable_at == proposed_at + delay
                &&& !a.executed
                &&& !a.cancelled
            },
    {
        if proposed_at > u64::MAX - delay {
            return None;
        }
        Some(
            TimelockAction {
                action_type,
                data,
                proposed_at,
                executable_at: proposed_at + delay,
                executed: false,
                cancelled: false,
            },
        )
    }

    /// Whether the action may be carried out at `now`: neither executed nor
    /// cancelled, and its delay has passed.
    pub fn is_executable(&self, now: u64) -> (r: bool)
        ensures
            r == (!self.executed && !self.cancelled && now >= self.executable_at),
    {
        !self.executed && !self.cancelled && now >= self.executable_at
    }
}

// ─────────────────────────────────────────────────────────────────────────────
// Activity tracking
// ─────────────────────────────────────────────────────────────────────────────

/// Aggregate activity counters for a single epoch (or lifetime).
#[derive(Clone, Copy, Debug, PartialEq, Eq, Structural)]
pub struct EpochActivity {
    pub deposits_count: u32,
    pub deposits_volume: i128,
    pub withdrawals_count: u32,
    pub withdrawals_volume: i128,
    pub transfers_count: u32,
    pub transfers_volume: i128,
    pub redemptions_count: u32,
    pub redemptions_volume: i128,
    pub yield_claims_count: u32,
    pub yield_claims_volume: i128,
    pub new_investors: u32,
    pub exiting_investors: u32,
}

/// The kinds of holder activity that are counted.
#[derive(Clone, Copy, Debug, PartialEq, Eq, Structural)]
pub enum ActivityKind {
    Deposit,
    Withdrawal,
    Transfer,
    Redemption,
    YieldClaim,
}

/// A counter after one more event; it stays at `u32::MAX` once there.
pub open spec fn bumped(n: u32) -> u32 {
    if n < u32::MAX {
        (n + 1) as u32
    } else {
        n
    }
}

/// A volume after `amount` more; it stays at `i128::MAX` once there.
pub open spec fn added_volume(v: i128, amount: int) -> i128 {
    if v + amount <= i128::MAX {
        (v + amount) as i128
    } else {
        i128::MAX
    }
}

fn bump(n: u32) -> (r: u32)
    ensures
        r == bumped(n),
{
    if n < u32::MAX {
        n + 1
    } else {
        n
    }
}

fn add_volume(v: i128, amount: i128) -> (r: i128)
    requires
        amount >= 0,
    ensures
        r == added_volume(v, amount as int),
{
    if v <= i128::MAX - amount {
        v + amount
    } else {
        i128::MAX
    }
}

impl EpochActivity {
    /// The record with every counter and volume at zero.
    pub open spec fn zeroed() -> EpochActivity {
        EpochActivity {
            deposits_count: 0,
            deposits_volume: 0,
            withdrawals_count: 0,
            withdrawals_volume: 0,
            transfers_count: 0,
            transfers_volume: 0,
            redemptions_count: 0,
            redemptions_volume: 0,
            yield_claims_count: 0,
            yield_claims_volume: 0,
            new_investors: 0,
            exiting_investors: 0,
        }
    }

    /// The record after one event of `kind` moving `volume`: its counter
    /// goes up by one and its volume by `volume`; `joined` counts a holder
    /// whose balance left zero, `exited` one whose balance reached zero.
    /// Counters and volumes saturate at their type's maximum.
    pub open spec fn recorded(self, kind: ActivityKind, volume: int, joined: bool, exited: bool) -> EpochActivity {
        let a = match kind {
            ActivityKind::Deposit => EpochActivity {
                deposits_count: bumped(self.deposits_count),
                deposits_volume: added_volume(self.deposits_volume, volume),
                ..self
            },
            ActivityKind::Withdrawal => EpochActivity {
                withdrawals_count: bumped(self.withdrawals_count),
                withdrawals_volume: added_volume(self.withdrawals_volume, volume),
                ..self
            },
            ActivityKind::Transfer => EpochActivity {
                transfers_count: bumped(self.transfers_count),
                transfers_volume: added_volume(self.transfers_volume, volume),
                ..self
            },
            ActivityKind::Redemption => EpochActivity {
                redemptions_count: bumped(self.redemptions_count),
                redemptions_volume: added_volume(self.redemptions_volume, volume),
                ..self
            },
            ActivityKind::YieldClaim => EpochActivity {
                yield_claims_count: bumped(self.yield_claims_count),
                yield_claims_volume: added_volume(self.yield_claims_volume, volume),
                ..self
            },
        };
        EpochActivity {
            new_investors: if joined {
                bumped(a.new_investors)
            } else {
                a.new_investors
            },
            exiting_investors: if exited {
                bumped(a.exiting_investors)
            } else {
                a.exiting_investors
            },
            ..a
        }
    }

    /// Activity record with every counter and volume at zero.
    pub fn zero() -> (r: Self)
        ensures
            r == EpochActivity::zeroed(),
    {
        EpochActivity {
            deposits_count: 0,
            deposits_volume: 0,
            withdrawals_count: 0,
            withdrawals_volume: 0,
            transfers_count: 0,
            transfers_volume: 0,
            redemptions_count: 0,
            redemptions_volume: 0,
            yield_claims_count: 0,
            yield_claims_volume: 0,
            new_investors: 0,
            exiting_investors: 0,
        }
    }

    /// Counts one event of `kind` moving `volume` (see `recorded`).
    pub fn record(&mut self, kind: ActivityKind, volume: i128, joined: bool, exited: bool)
        requires
            volume >= 0,
        ensures
            *final(self) == old(self).recorded(kind, volume as int, joined, exited),
    {
        match kind {
            ActivityKind::Deposit => {
                self.deposits_count = bump(self.deposits_count);
                self.deposits_volume = add_volume(self.deposits_volume, volume);
            },
            ActivityKind::Withdrawal => {
                self.withdrawals_count = bump(self.withdrawals_count);
                self.withdrawals_volume = add_volume(self.withdrawals_volume, volume);
            },
            ActivityKind::Transfer => {
                self.transfers_count = bump(self.transfers_count);
                self.transfers_volume = add_volume(self.transfers_volume, volume);
            },
            ActivityKind::Redemption => {
                self.redemptions_count = bump(self.redemptions_count);
                self.redemptions_volume = add_volume(self.redemptions_volume, volume);
            },
            ActivityKind::YieldClaim => {
                self.yield_claims_count = bump(self.yield_claims_count);
                self.yield_claims_volume = add_volume(self.yield_claims_volume, volume);
            },
        }
        if joined {
            self.new_investors = bump(self.new_investors);
        }
        if exited {
            self.exiting_investors = bump(self.exiting_investors);
        }
    }
}

/// A pending multi-sig emergency withdrawal proposal.
#[derive(Clone, Copy, Debug, PartialEq, Eq, Structural)]
pub struct EmergencyProposal {
    pub recipient: Address,
    pub proposed_at: u64,
    pub executed: bool,
}

} // verus!
