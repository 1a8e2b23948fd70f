use single_rwa_vault::math::{mul_div_ceil, mul_div_floor};
use single_rwa_vault::types::{ActionType, Address, EpochActivity, InitParams, Role, VaultState};
use single_rwa_vault::vault::{
    RedemptionPrecheck, Vault, VaultError, FREEZE_WITHDRAW_REDEEM, FREEZE_YIELD,
};

const ADMIN: Address = Address { id: 1 };
const ALICE: Address = Address { id: 10 };
const BOB: Address = Address { id: 11 };
const CAROL: Address = Address { id: 12 };

fn params() -> InitParams {
    InitParams {
        asset: Address { id: 900 },
        share_name: String::from("Share"),
        share_symbol: String::from("SHR"),
        share_decimals: 6,
        admin: ADMIN,
        zkme_verifier: Address { id: 901 },
        cooperator: Address { id: 902 },
        funding_target: 1_000,
        maturity_date: 10_000,
        min_deposit: 10,
        max_deposit_per_user: 0,
        early_redemption_fee_bps: 100,
        funding_deadline: 0,
        rwa_name: String::from("Bond"),
        rwa_symbol: String::from("BND"),
        rwa_document_uri: String::from("ipfs://x"),
        rwa_category: String::from("Fixed income"),
        expected_apy: 400,
        timelock_delay: 0,
        yield_vesting_period: 0,
    }
}

fn active_vault() -> Vault {
    let mut v = Vault::new(params()).unwrap();
    v.deposit(ALICE, 600, ALICE, true).unwrap();
    v.deposit(BOB, 400, BOB, true).unwrap();
    v.activate_vault(ADMIN, 1).unwrap();
    v
}

#[test]
fn test_mul_div_exact_on_wide_products() {
    let big = i128::MAX / 4;
    assert_eq!(mul_div_floor(big, big, big), Some(big));
    assert_eq!(mul_div_floor(i128::MAX, i128::MAX, i128::MAX), Some(i128::MAX));
    assert_eq!(mul_div_floor(i128::MAX, 2, 1), None);
    assert_eq!(mul_div_floor(7, 3, 2), Some(10));
    assert_eq!(mul_div_ceil(7, 3, 2), Some(11));
    assert_eq!(mul_div_ceil(6, 3, 2), Some(9));
    assert_eq!(mul_div_ceil(i128::MAX, 1, 1), Some(i128::MAX));
    assert_eq!(mul_div_ceil(i128::MAX, 3, 2), None);
    // (2^126 * 6) / 4 = 3 * 2^125
    assert_eq!(mul_div_floor(1i128 << 126, 6, 4), Some(3i128 << 125));
}

#[test]
fn test_new_rejects_bad_parameters() {
    let mut p = params();
    p.early_redemption_fee_bps = 1001;
    assert!(matches!(Vault::new(p), Err(VaultError::FeeTooHigh)));
    let mut p = params();
    p.min_deposit = 100;
    p.max_deposit_per_user = 50;
    assert!(matches!(Vault::new(p), Err(VaultError::InvalidDepositLimits)));
}

#[test]
fn test_deposit_errors_in_order() {
    let mut v = Vault::new(params()).unwrap();
    assert_eq!(v.deposit(ALICE, 100, ALICE, false), Err(VaultError::NotKYCVerified));
    assert_eq!(v.deposit(ALICE, 0, ALICE, true), Err(VaultError::ZeroAmount));
    assert_eq!(v.deposit(ALICE, 5, ALICE, true), Err(VaultError::BelowMinimumDeposit));
    v.set_deposit_limits(ADMIN, 10, 500).unwrap();
    v.deposit(ALICE, 400, ALICE, true).unwrap();
    assert_eq!(v.deposit(ALICE, 101, ALICE, true), Err(VaultError::ExceedsMaximumDeposit));
    v.set_blacklisted(ADMIN, BOB, true).unwrap();
    assert!(v.is_blacklisted(BOB));
    assert_eq!(v.deposit(ALICE, 50, BOB, true), Err(VaultError::AddressBlacklisted));
    v.set_blacklisted(ADMIN, BOB, false).unwrap();
    assert!(!v.is_blacklisted(BOB));
    v.pause(ADMIN).unwrap();
    assert!(v.paused());
    assert_eq!(v.deposit(ALICE, 50, ALICE, true), Err(VaultError::VaultPaused));
    v.unpause(ADMIN).unwrap();
    assert_eq!(v.deposit(ALICE, 50, ALICE, true), Ok(50));
    assert_eq!(v.total_assets(), 450);
    assert_eq!(v.user_deposited(ALICE), 450);
}

#[test]
fn test_deposit_overflow_reported() {
    let mut v = Vault::new(params()).unwrap();
    v.deposit(ALICE, i128::MAX / 2, ALICE, true).unwrap();
    assert_eq!(v.deposit(BOB, i128::MAX / 2 + 2, BOB, true), Err(VaultError::ArithmeticOverflow));
    assert_eq!(v.balance(BOB), 0);
}

#[test]
fn test_deposit_not_allowed_after_maturity() {
    let mut v = active_vault();
    v.mature_vault(ADMIN, 10_000).unwrap();
    assert_eq!(v.deposit(CAROL, 100, CAROL, true), Err(VaultError::InvalidVaultState));
}

#[test]
fn test_share_price_after_yield() {
    let mut v = active_vault();
    v.distribute_yield(ADMIN, 1_000, 5).unwrap();
    // 2000 assets back 1000 shares: 100 assets buy 50 shares.
    assert_eq!(v.preview_deposit(100), Some(50));
    assert_eq!(v.preview_mint(50), Some(100));
    assert_eq!(v.preview_mint(1), Some(2));
    assert_eq!(v.preview_redeem(3), Some(6));
    assert_eq!(v.preview_withdraw(3), Some(2));
    assert_eq!(v.deposit(CAROL, 100, CAROL, true), Ok(50));
    assert_eq!(v.balance(CAROL), 50);
    assert_eq!(v.total_supply(), 1_050);
}

#[test]
fn test_pro_rata_yield_and_claims() {
    let mut v = active_vault();
    assert_eq!(v.distribute_yield(ADMIN, 1_000, 5), Ok(1));
    assert_eq!(v.pending_yield(ALICE), 600);
    assert_eq!(v.pending_yield(BOB), 400);
    // a later depositor does not share in earlier epochs
    v.deposit(CAROL, 2_000, CAROL, true).unwrap();
    assert_eq!(v.pending_yield(CAROL), 0);
    assert_eq!(v.pending_yield(ALICE), 600);
    assert_eq!(v.claim_yield(ALICE, 100), Ok(600));
    assert_eq!(v.pending_yield(ALICE), 0);
    assert_eq!(v.claim_yield(ALICE, 100), Err(VaultError::NoYieldToClaim));
    assert_eq!(v.total_yield_claimed(ALICE), 600);
    assert_eq!(v.current_epoch(), 1);
}

#[test]
fn test_yield_rounds_down_per_holder() {
    let mut v = Vault::new(params()).unwrap();
    v.deposit(ALICE, 500, ALICE, true).unwrap();
    v.deposit(BOB, 500, BOB, true).unwrap();
    v.deposit(CAROL, 500, CAROL, true).unwrap();
    v.activate_vault(ADMIN, 1).unwrap();
    v.distribute_yield(ADMIN, 100, 2).unwrap();
    assert_eq!(v.pending_yield(ALICE), 33);
    assert_eq!(v.pending_yield(BOB), 33);
    assert_eq!(v.pending_yield(CAROL), 33);
}

#[test]
fn test_distribute_yield_errors() {
    let mut v = Vault::new(params()).unwrap();
    assert_eq!(v.distribute_yield(ALICE, 10, 1), Err(VaultError::NotAuthorized));
    v.grant_role(ADMIN, BOB, Role::YieldOperator).unwrap();
    assert_eq!(v.distribute_yield(BOB, 10, 1), Err(VaultError::InvalidVaultState));
    v.set_funding_target(ADMIN, 0).unwrap();
    v.activate_vault(ADMIN, 1).unwrap();
    assert_eq!(v.distribute_yield(BOB, 10, 1), Err(VaultError::NoShareholders));
    v.deposit(ALICE, 100, ALICE, true).unwrap();
    assert_eq!(v.distribute_yield(BOB, 0, 1), Err(VaultError::ZeroAmount));
    assert_eq!(v.distribute_yield(BOB, 10, 1), Ok(1));
    assert_eq!(v.epoch_yield(1), 10);
    assert_eq!(v.epoch_yield(2), 0);
    assert_eq!(v.total_yield_distributed(), 10);
}

#[test]
fn test_role_checks() {
    let mut v = Vault::new(params()).unwrap();
    assert_eq!(v.grant_role(BOB, BOB, Role::FullOperator), Err(VaultError::NotAdmin));
    v.grant_role(ADMIN, BOB, Role::ComplianceOfficer).unwrap();
    assert!(v.has_role(BOB, Role::ComplianceOfficer));
    assert!(!v.has_role(BOB, Role::TreasuryManager));
    assert_eq!(v.pause(BOB), Err(VaultError::NotAuthorized));
    assert_eq!(v.activate_vault(BOB, 0), Err(VaultError::NotAuthorized));
    assert_eq!(v.set_early_redemption_fee(ADMIN, 1001), Err(VaultError::FeeTooHigh));
    v.set_early_redemption_fee(ADMIN, 1000).unwrap();
    assert_eq!(v.early_redemption_fee_bps(), 1000);
    assert_eq!(v.set_deposit_limits(ADMIN, 10, 5), Err(VaultError::InvalidDepositLimits));
    assert_eq!(v.min_deposit(), 10);
    assert_eq!(v.max_deposit_per_user(), 0);
}

#[test]
fn test_activation_rules() {
    let mut p = params();
    p.funding_deadline = 50;
    let mut v = Vault::new(p).unwrap();
    assert_eq!(v.funding_deadline(), 50);
    v.deposit(ALICE, 1_000, ALICE, true).unwrap();
    assert_eq!(v.activate_vault(ADMIN, 51), Err(VaultError::FundingDeadlinePassed));
    assert_eq!(v.vault_state(), VaultState::Funding);
    assert_eq!(v.mature_vault(ADMIN, 20_000), Err(VaultError::InvalidVaultState));
    assert_eq!(v.close_vault(ADMIN), Err(VaultError::InvalidVaultState));
    v.activate_vault(ADMIN, 50).unwrap();
    assert_eq!(v.activate_vault(ADMIN, 50), Err(VaultError::InvalidVaultState));
    assert!(!v.is_matured(9_999));
    assert!(v.is_matured(10_000));
}

#[test]
fn test_withdraw_and_redeem() {
    let mut v = active_vault();
    v.distribute_yield(ADMIN, 1_000, 5).unwrap();
    assert_eq!(v.withdraw(ALICE, 100, ALICE, BOB), Err(VaultError::InsufficientAllowance));
    assert_eq!(v.allowance(BOB, ALICE), 0);
    assert_eq!(v.withdraw(ALICE, 0, ALICE, ALICE), Err(VaultError::ZeroAmount));
    assert_eq!(v.withdraw(ALICE, 1_201, ALICE, ALICE), Err(VaultError::InsufficientBalance));
    // 2000 assets over 1000 shares: 101 assets burn ceil(50.5) = 51 shares.
    assert_eq!(v.withdraw(ALICE, 101, ALICE, ALICE), Ok(51));
    assert_eq!(v.balance(ALICE), 549);
    assert_eq!(v.total_assets(), 1_899);
    assert_eq!(v.total_supply(), 949);
    // yield earned before the withdrawal is kept
    assert_eq!(v.pending_yield(ALICE), 600);
    assert_eq!(v.redeem(BOB, 0, BOB, BOB), Err(VaultError::ZeroAmount));
    assert_eq!(v.redeem(BOB, 401, BOB, BOB), Err(VaultError::InsufficientBalance));
    let paid = v.redeem(BOB, 400, BOB, BOB).unwrap();
    assert_eq!(paid, 400 * 1_899 / 949);
    assert_eq!(v.balance(BOB), 0);
    assert_eq!(v.pending_yield(BOB), 400);
}

#[test]
fn test_redeem_of_dust_pays_nothing_error() {
    let mut v = Vault::new(params()).unwrap();
    v.set_funding_target(ADMIN, 0).unwrap();
    v.deposit(ALICE, 100, ALICE, true).unwrap();
    v.activate_vault(ADMIN, 1).unwrap();
    // 100 shares, 100 assets; redeem 99 -> 99 assets, leaving 1 share / 1 asset
    assert_eq!(v.redeem(ALICE, 99, ALICE, ALICE), Ok(99));
    assert_eq!(v.redeem(ALICE, 1, ALICE, ALICE), Ok(1));
    assert_eq!(v.total_supply(), 0);
    assert_eq!(v.total_assets(), 0);
    assert_eq!(v.withdraw(ALICE, 1, ALICE, ALICE), Err(VaultError::InsufficientBalance));
}

#[test]
fn test_claim_requires_state_and_unpaused() {
    let mut v = Vault::new(params()).unwrap();
    assert_eq!(v.claim_yield(ALICE, 100), Err(VaultError::InvalidVaultState));
    let mut v = active_vault();
    v.distribute_yield(ADMIN, 10, 2).unwrap();
    v.pause(ADMIN).unwrap();
    assert_eq!(v.claim_yield(ALICE, 100), Err(VaultError::VaultPaused));
    assert_eq!(v.withdraw(ALICE, 1, ALICE, ALICE), Err(VaultError::VaultPaused));
}

#[test]
fn test_reporting_helpers() {
    let mut v = active_vault();
    let summary = v.get_yield_summary();
    assert_eq!(summary.total_epochs, 0);
    assert_eq!(summary.average_yield_per_epoch, 0);
    assert_eq!(summary.earliest_epoch, 0);
    v.distribute_yield(ADMIN, 1_000, 7).unwrap();
    v.distribute_yield(ADMIN, 500, 9).unwrap();
    let summary = v.get_yield_summary();
    assert_eq!(summary.total_epochs, 2);
    assert_eq!(summary.total_yield_distributed, 1_500);
    assert_eq!(summary.average_yield_per_epoch, 750);
    assert_eq!(summary.latest_epoch_yield, 500);
    assert_eq!(summary.earliest_epoch, 1);
    assert_eq!(summary.latest_epoch, 2);

    let data = v.get_epoch_data(2).unwrap();
    assert_eq!(data.epoch, 2);
    assert_eq!(data.yield_amount, 500);
    assert_eq!(data.total_shares, 1_000);
    assert_eq!(data.timestamp, 9);
    assert_eq!(data.yield_per_share, 500 * 1_000_000_000_000_000_000 / 1_000);
    assert!(v.get_epoch_data(0).is_none());
    assert!(v.get_epoch_data(3).is_none());

    let parts = v.pending_yield_breakdown(ALICE);
    assert_eq!(parts.len(), 2);
    assert_eq!(parts[0].epoch, 1);
    assert_eq!(parts[0].pending, 600);
    assert_eq!(parts[1].epoch, 2);
    assert_eq!(parts[1].pending, 300);

    let hint = v.claim_cost_hint(ALICE);
    assert_eq!(hint.current_epoch, 2);
    assert_eq!(hint.last_claimed_epoch, 0);
    assert_eq!(hint.epochs_scanned, 2);
    v.claim_yield(ALICE, 100).unwrap();
    let hint = v.claim_cost_hint(ALICE);
    assert_eq!(hint.last_claimed_epoch, 2);
    assert_eq!(hint.unclaimed_epochs, 0);
    assert!(v.pending_yield_breakdown(ALICE).is_empty());

    // 100 shares are worth 250 assets (2500 / 1000); the fee is 1%.
    let fee = v.estimate_early_redemption_fee(100).unwrap();
    assert_eq!(fee.gross_assets, 250);
    assert_eq!(fee.fee_amount, 2);
    assert_eq!(fee.net_assets, 248);
    assert_eq!(fee.fee_bps, 100);
}

#[test]
fn test_refused_operation_leaves_vault_unchanged() {
    let mut v = active_vault();
    let supply = v.total_supply();
    let assets = v.total_assets();
    assert!(v.redeem(ALICE, 10_000, ALICE, ALICE).is_err());
    assert!(v.deposit(ALICE, 1, ALICE, true).is_err());
    assert_eq!(v.total_supply(), supply);
    assert_eq!(v.total_assets(), assets);
    assert_eq!(v.balance(ALICE), 600);
}

#[test]
fn test_deposit_then_redeem_never_gains() {
    let mut v = active_vault();
    v.distribute_yield(ADMIN, 333, 3).unwrap();
    let shares = v.deposit(CAROL, 1_001, CAROL, true).unwrap();
    let back = v.redeem(CAROL, shares, CAROL, CAROL).unwrap();
    assert!(back <= 1_001);
    assert_eq!(back, 1_000);
}

#[test]
fn test_sole_holder_receives_all_yield() {
    let mut v = Vault::new(params()).unwrap();
    v.deposit(ALICE, 1_000, ALICE, true).unwrap();
    v.activate_vault(ADMIN, 1).unwrap();
    v.distribute_yield(ADMIN, 777, 2).unwrap();
    assert_eq!(v.pending_yield(ALICE), 777);
}

#[test]
fn test_lifecycle_moves_only_forward() {
    let mut v = active_vault();
    v.mature_vault(ADMIN, 10_000).unwrap();
    assert_eq!(v.activate_vault(ADMIN, 10_000), Err(VaultError::InvalidVaultState));
    v.close_vault(ADMIN).unwrap();
    assert_eq!(v.vault_state(), VaultState::Closed);
    assert_eq!(v.mature_vault(ADMIN, 10_000), Err(VaultError::InvalidVaultState));
    assert_eq!(v.close_vault(ADMIN), Err(VaultError::InvalidVaultState));
}

#[test]
fn test_transfer_keeps_earned_yield() {
    let mut v = active_vault();
    v.distribute_yield(ADMIN, 1_000, 5).unwrap();
    assert_eq!(v.transfer(ALICE, CAROL, 0, true), Err(VaultError::ZeroAmount));
    assert_eq!(v.transfer(ALICE, CAROL, 601, true), Err(VaultError::InsufficientBalance));
    v.transfer(ALICE, CAROL, 200, true).unwrap();
    assert_eq!(v.balance(ALICE), 400);
    assert_eq!(v.balance(CAROL), 200);
    assert_eq!(v.total_supply(), 1_000);
    // earlier yield stays with the sender
    assert_eq!(v.pending_yield(ALICE), 600);
    assert_eq!(v.pending_yield(CAROL), 0);
    // later yield follows the new balances
    v.distribute_yield(ADMIN, 100, 6).unwrap();
    assert_eq!(v.pending_yield(ALICE), 640);
    assert_eq!(v.pending_yield(CAROL), 20);
    assert_eq!(v.pending_yield(BOB), 440);
    // a self-transfer changes no balance
    v.transfer(BOB, BOB, 100, true).unwrap();
    assert_eq!(v.balance(BOB), 400);
    v.set_blacklisted(ADMIN, CAROL, true).unwrap();
    assert_eq!(v.transfer(ALICE, CAROL, 1, true), Err(VaultError::AddressBlacklisted));
}

#[test]
fn test_allowances_gate_third_party_moves() {
    let mut v = active_vault();
    assert_eq!(v.allowance(ALICE, CAROL), 0);
    assert_eq!(v.transfer_from(CAROL, ALICE, CAROL, 10, true), Err(VaultError::InsufficientAllowance));
    assert_eq!(v.approve(ALICE, CAROL, -1), Err(VaultError::ZeroAmount));
    v.approve(ALICE, CAROL, 300).unwrap();
    assert_eq!(v.allowance(ALICE, CAROL), 300);
    v.transfer_from(CAROL, ALICE, BOB, 100, true).unwrap();
    assert_eq!(v.allowance(ALICE, CAROL), 200);
    assert_eq!(v.balance(BOB), 500);
    assert_eq!(v.redeem(CAROL, 201, CAROL, ALICE), Err(VaultError::InsufficientAllowance));
    assert_eq!(v.redeem(CAROL, 150, CAROL, ALICE), Ok(150));
    assert_eq!(v.allowance(ALICE, CAROL), 50);
    assert_eq!(v.balance(ALICE), 350);
    assert_eq!(v.withdraw(CAROL, 51, CAROL, ALICE), Err(VaultError::InsufficientAllowance));
    assert_eq!(v.withdraw(CAROL, 50, CAROL, ALICE), Ok(50));
    assert_eq!(v.allowance(ALICE, CAROL), 0);
    // the owner needs no allowance
    assert_eq!(v.redeem(ALICE, 10, ALICE, ALICE), Ok(10));
    assert_eq!(v.allowance(ALICE, CAROL), 0);
}

#[test]
fn test_profile_is_kept() {
    let v = Vault::new(params()).unwrap();
    assert_eq!(v.profile().share_symbol, "SHR");
    assert_eq!(v.profile().share_decimals, 6);
    assert_eq!(v.get_rwa_details().name, "Bond");
    assert_eq!(v.get_rwa_details().expected_apy, 400);
}

fn funding_vault_with_deadline() -> Vault {
    let mut p = params();
    p.funding_deadline = 100;
    let mut v = Vault::new(p).unwrap();
    v.deposit(ALICE, 300, ALICE, true).unwrap();
    v.deposit(BOB, 200, BOB, true).unwrap();
    v
}

#[test]
fn test_cancel_funding_checks_in_order() {
    let mut v = funding_vault_with_deadline();
    assert_eq!(v.cancel_funding(CAROL, 101), Err(VaultError::NotAuthorized));
    assert_eq!(v.cancel_funding(ADMIN, 100), Err(VaultError::FundingDeadlineNotPassed));
    assert_eq!(v.vault_state(), VaultState::Funding);
    // a vault that reached its target cannot be cancelled
    v.deposit(CAROL, 500, CAROL, true).unwrap();
    assert_eq!(v.cancel_funding(ADMIN, 101), Err(VaultError::FundingTargetReached));
    // without a deadline funding never fails
    let mut w = Vault::new(params()).unwrap();
    assert_eq!(w.cancel_funding(ADMIN, u64::MAX), Err(VaultError::FundingDeadlineNotPassed));
    // only a vault still funding can be cancelled
    let mut a = active_vault();
    assert_eq!(a.cancel_funding(ADMIN, 10_000), Err(VaultError::InvalidVaultState));
}

#[test]
fn test_cancelled_vault_refunds_holders() {
    let mut v = funding_vault_with_deadline();
    assert_eq!(v.refund(ALICE), Err(VaultError::InvalidVaultState));
    v.grant_role(ADMIN, CAROL, Role::LifecycleManager).unwrap();
    assert_eq!(v.cancel_funding(CAROL, 101), Ok(()));
    assert_eq!(v.vault_state(), VaultState::Cancelled);
    // a cancelled vault takes no deposits and is never activated
    assert_eq!(v.deposit(ALICE, 100, ALICE, true), Err(VaultError::InvalidVaultState));
    assert_eq!(v.activate_vault(ADMIN, 1), Err(VaultError::InvalidVaultState));
    assert_eq!(v.refund(CAROL), Err(VaultError::InsufficientBalance));
    assert_eq!(v.refund(ALICE), Ok(300));
    assert_eq!(v.balance(ALICE), 0);
    assert_eq!(v.total_assets(), 200);
    assert_eq!(v.total_supply(), 200);
    assert_eq!(v.refund(ALICE), Err(VaultError::InsufficientBalance));
    assert_eq!(v.refund(BOB), Ok(200));
    assert_eq!(v.total_assets(), 0);
    assert_eq!(v.total_supply(), 0);
    let life = v.lifetime_activity();
    assert_eq!(life.redemptions_count, 2);
    assert_eq!(life.redemptions_volume, 500);
    assert_eq!(life.exiting_investors, 2);
}

#[test]
fn test_activity_counted_per_epoch() {
    let mut v = active_vault();
    let e0 = v.epoch_activity(0);
    assert_eq!(e0.deposits_count, 2);
    assert_eq!(e0.deposits_volume, 1_000);
    assert_eq!(e0.new_investors, 2);
    assert_eq!(e0.exiting_investors, 0);
    assert_eq!(v.distribute_yield(ADMIN, 1_000, 5), Ok(1));
    assert_eq!(v.epoch_activity(1), EpochActivity::zero());
    // a refused operation counts nothing
    assert_eq!(v.transfer(ALICE, CAROL, 601, true), Err(VaultError::InsufficientBalance));
    assert_eq!(v.epoch_activity(1), EpochActivity::zero());
    v.transfer(ALICE, CAROL, 600, true).unwrap();
    assert_eq!(v.claim_yield(BOB, 100), Ok(400));
    assert_eq!(v.redeem(BOB, 100, BOB, BOB), Ok(200));
    assert_eq!(v.withdraw(BOB, 200, BOB, BOB), Ok(100));
    let e1 = v.epoch_activity(1);
    assert_eq!(e1.deposits_count, 0);
    assert_eq!(e1.transfers_count, 1);
    assert_eq!(e1.transfers_volume, 600);
    assert_eq!(e1.yield_claims_count, 1);
    assert_eq!(e1.yield_claims_volume, 400);
    assert_eq!(e1.redemptions_count, 1);
    assert_eq!(e1.redemptions_volume, 200);
    assert_eq!(e1.withdrawals_count, 1);
    assert_eq!(e1.withdrawals_volume, 200);
    assert_eq!(e1.new_investors, 1);
    assert_eq!(e1.exiting_investors, 1);
    // the earlier epoch keeps its counts, a later one has none yet
    assert_eq!(v.epoch_activity(0), e0);
    assert_eq!(v.epoch_activity(2), EpochActivity::zero());
    let life = v.lifetime_activity();
    assert_eq!(life.deposits_count, 2);
    assert_eq!(life.deposits_volume, 1_000);
    assert_eq!(life.transfers_volume, 600);
    assert_eq!(life.yield_claims_volume, 400);
    assert_eq!(life.redemptions_volume, 200);
    assert_eq!(life.withdrawals_volume, 200);
    assert_eq!(life.new_investors, 3);
    assert_eq!(life.exiting_investors, 1);
}

#[test]
fn test_yield_vests_over_the_period() {
    let mut p = params();
    p.yield_vesting_period = 1_000;
    let mut v = Vault::new(p).unwrap();
    v.deposit(ALICE, 600, ALICE, true).unwrap();
    v.deposit(BOB, 400, BOB, true).unwrap();
    v.activate_vault(ADMIN, 1).unwrap();
    v.distribute_yield(ADMIN, 1_000, 5_000).unwrap();
    // nothing has vested at the distribution itself
    assert_eq!(v.claimable_yield(ALICE, 5_000), 0);
    assert_eq!(v.claim_yield(ALICE, 5_000), Err(VaultError::NoYieldToClaim));
    // a quarter of the period: a quarter of the pending yield
    assert_eq!(v.claimable_yield(ALICE, 5_250), 150);
    assert_eq!(v.claim_yield(ALICE, 5_250), Ok(150));
    assert_eq!(v.pending_yield(ALICE), 450);
    assert_eq!(v.total_yield_claimed(ALICE), 150);
    // rounded down: 400 * 333 / 1000 = 133.2
    assert_eq!(v.claim_yield(BOB, 5_333), Ok(133));
    // once the period is over, all that is pending can be claimed
    assert_eq!(v.claim_yield(ALICE, 6_000), Ok(450));
    assert_eq!(v.pending_yield(ALICE), 0);
    assert_eq!(v.claim_yield(BOB, 9_999), Ok(267));
    assert_eq!(v.claim_yield(BOB, 9_999), Err(VaultError::NoYieldToClaim));
}

#[test]
fn test_emergency_mode_pays_pro_rata() {
    let mut v = active_vault();
    v.distribute_yield(ADMIN, 500, 5).unwrap();
    assert_eq!(v.emergency_claim(ALICE), Err(VaultError::InvalidVaultState));
    assert_eq!(v.enter_emergency(ALICE), Err(VaultError::NotAuthorized));
    v.grant_role(ADMIN, CAROL, Role::TreasuryManager).unwrap();
    assert_eq!(v.enter_emergency(CAROL), Ok(()));
    assert_eq!(v.vault_state(), VaultState::Emergency);
    assert_eq!(v.enter_emergency(CAROL), Err(VaultError::InvalidVaultState));
    // no ordinary exits in emergency mode
    assert_eq!(v.redeem(ALICE, 10, ALICE, ALICE), Err(VaultError::InvalidVaultState));
    assert_eq!(v.emergency_claim(CAROL), Err(VaultError::InsufficientBalance));
    // 1_500 assets over 1_000 shares
    assert_eq!(v.emergency_claim(ALICE), Ok(900));
    assert_eq!(v.emergency_claim(BOB), Ok(600));
    assert_eq!(v.total_assets(), 0);
    assert_eq!(v.total_supply(), 0);
    // a closed vault cannot enter emergency mode
    let mut w = active_vault();
    w.mature_vault(ADMIN, 10_000).unwrap();
    w.close_vault(ADMIN).unwrap();
    assert_eq!(w.enter_emergency(ADMIN), Err(VaultError::InvalidVaultState));
}

#[test]
fn test_early_redemption_requests() {
    let mut v = active_vault();
    assert_eq!(v.request_early_redemption(ALICE, 0, 7), Err(VaultError::ZeroAmount));
    assert_eq!(v.request_early_redemption(ALICE, 601, 7), Err(VaultError::InsufficientBalance));
    assert_eq!(v.can_request_early_redemption(ALICE), RedemptionPrecheck::Pass);
    assert_eq!(
        v.can_request_early_redemption(CAROL),
        RedemptionPrecheck::Fail(VaultError::InsufficientBalance)
    );
    assert_eq!(v.request_early_redemption(ALICE, 200, 7), Ok(0));
    assert_eq!(v.request_early_redemption(BOB, 100, 8), Ok(1));
    let req = v.get_redemption_request(0).unwrap();
    assert_eq!(req.user, ALICE);
    assert_eq!(req.shares, 200);
    assert_eq!(req.request_time, 7);
    assert!(!req.processed);
    assert_eq!(v.get_redemption_request(2), None);
    // the shares stay with the user until processing
    assert_eq!(v.balance(ALICE), 600);
    assert_eq!(v.process_early_redemption(ALICE, 0), Err(VaultError::NotAuthorized));
    assert_eq!(v.process_early_redemption(ADMIN, 5), Err(VaultError::InvalidRedemptionRequest));
    // 200 shares are worth 200; the fee of 1% (2) stays in the vault
    assert_eq!(v.process_early_redemption(ADMIN, 0), Ok(198));
    assert_eq!(v.balance(ALICE), 400);
    assert_eq!(v.total_supply(), 800);
    assert_eq!(v.total_assets(), 802);
    assert!(v.get_redemption_request(0).unwrap().processed);
    assert_eq!(v.process_early_redemption(ADMIN, 0), Err(VaultError::InvalidRedemptionRequest));
    assert_eq!(v.reject_early_redemption(ADMIN, 1), Ok(()));
    assert_eq!(v.reject_early_redemption(ADMIN, 1), Err(VaultError::InvalidRedemptionRequest));
    assert_eq!(v.process_early_redemption(ADMIN, 1), Err(VaultError::InvalidRedemptionRequest));
    assert_eq!(v.balance(BOB), 400);
    // only while the vault is active
    v.mature_vault(ADMIN, 10_000).unwrap();
    assert_eq!(v.request_early_redemption(BOB, 10, 10_000), Err(VaultError::InvalidVaultState));
}

#[test]
fn test_timelocked_actions_wait_for_delay() {
    let mut p = params();
    p.timelock_delay = 3_600;
    let mut v = Vault::new(p).unwrap();
    assert_eq!(v.propose_action(ALICE, ActionType::TransferAdmin, vec![1], 100), Err(VaultError::NotAdmin));
    assert_eq!(v.propose_action(ADMIN, ActionType::Upgrade, vec![1, 2], 100), Ok(0));
    assert_eq!(v.propose_action(ADMIN, ActionType::TransferAdmin, vec![3], 200), Ok(1));
    assert_eq!(v.get_timelock_action(0).unwrap().executable_at, 3_700);
    assert_eq!(v.get_timelock_action(0).unwrap().data, vec![1, 2]);
    assert_eq!(v.execute_action(ADMIN, 0, 3_699), Err(VaultError::TimelockDelayNotPassed));
    assert_eq!(v.execute_action(ALICE, 0, 3_700), Err(VaultError::NotAdmin));
    assert_eq!(v.execute_action(ADMIN, 0, 3_700), Ok(ActionType::Upgrade));
    assert!(v.get_timelock_action(0).unwrap().executed);
    assert_eq!(v.execute_action(ADMIN, 0, 4_000), Err(VaultError::InvalidTimelockAction));
    assert_eq!(v.cancel_action(ADMIN, 1), Ok(()));
    assert!(v.get_timelock_action(1).unwrap().cancelled);
    assert_eq!(v.execute_action(ADMIN, 1, 9_999), Err(VaultError::InvalidTimelockAction));
    assert_eq!(v.execute_action(ADMIN, 2, 9_999), Err(VaultError::InvalidTimelockAction));
    assert!(v.get_timelock_action(2).is_none());
    assert_eq!(v.propose_action(ADMIN, ActionType::Upgrade, vec![], u64::MAX), Err(VaultError::ArithmeticOverflow));
}

#[test]
fn test_freeze_flags_stop_their_operations() {
    let mut v = active_vault();
    v.distribute_yield(ADMIN, 100, 5).unwrap();
    assert_eq!(v.set_freeze_flags(ALICE, FREEZE_YIELD), Err(VaultError::NotAuthorized));
    v.set_freeze_flags(ADMIN, FREEZE_YIELD).unwrap();
    assert_eq!(v.freeze_flags(), FREEZE_YIELD);
    assert_eq!(v.claim_yield(ALICE, 100), Err(VaultError::VaultPaused));
    // withdrawals still go through
    assert_eq!(v.redeem(BOB, 10, BOB, BOB), Ok(11));
    v.set_freeze_flags(ADMIN, FREEZE_WITHDRAW_REDEEM).unwrap();
    assert_eq!(v.redeem(BOB, 10, BOB, BOB), Err(VaultError::VaultPaused));
    assert_eq!(v.withdraw(BOB, 10, BOB, BOB), Err(VaultError::VaultPaused));
    assert_eq!(v.request_early_redemption(BOB, 10, 9), Err(VaultError::VaultPaused));
    assert_eq!(
        v.can_request_early_redemption(BOB),
        RedemptionPrecheck::Fail(VaultError::VaultPaused)
    );
    assert_eq!(v.claim_yield(ALICE, 100), Ok(60));
    v.set_freeze_flags(ADMIN, 0).unwrap();
    assert_eq!(v.redeem(BOB, 10, BOB, BOB), Ok(11));
}

#[test]
fn test_burn_requires_yield_claim_when_configured() {
    let mut v = active_vault();
    v.distribute_yield(ADMIN, 100, 5).unwrap();
    assert_eq!(v.set_burn_requires_yield_claim(BOB, true), Err(VaultError::NotAdmin));
    v.set_burn_requires_yield_claim(ADMIN, true).unwrap();
    assert!(v.burn_requires_yield_claim());
    assert_eq!(v.redeem(ALICE, 10, ALICE, ALICE), Err(VaultError::BurnRequiresYieldClaim));
    assert_eq!(v.withdraw(ALICE, 10, ALICE, ALICE), Err(VaultError::BurnRequiresYieldClaim));
    assert_eq!(v.claim_yield(ALICE, 100), Ok(60));
    assert_eq!(v.redeem(ALICE, 10, ALICE, ALICE), Ok(11));
}

#[test]
fn test_transfer_kyc_and_compliance_addresses() {
    let mut v = active_vault();
    let contract = Address { id: 999 };
    assert_eq!(v.set_transfer_requires_kyc(BOB, true), Err(VaultError::NotAuthorized));
    v.set_transfer_requires_kyc(ADMIN, true).unwrap();
    assert!(v.transfer_requires_kyc());
    assert_eq!(v.transfer(ALICE, CAROL, 10, false), Err(VaultError::NotKYCVerified));
    assert_eq!(v.transfer(ALICE, CAROL, 10, true), Ok(()));
    assert_eq!(v.set_zkme_verifier(ADMIN, contract, contract), Err(VaultError::ZeroAddress));
    assert_eq!(v.set_zkme_verifier(BOB, CAROL, contract), Err(VaultError::NotAuthorized));
    assert_eq!(v.set_zkme_verifier(ADMIN, CAROL, contract), Ok(()));
    assert_eq!(v.profile().zkme_verifier, CAROL);
    assert_eq!(v.set_cooperator(ADMIN, contract, contract), Err(VaultError::ZeroAddress));
    assert_eq!(v.set_cooperator(ADMIN, BOB, contract), Ok(()));
    assert_eq!(v.profile().cooperator, BOB);
}
