use single_rwa_vault::types::{Address, InitParams, Role, VaultState};
use single_rwa_vault::vault::{Vault, VaultError};

struct Ctx {
    vault: Vault,
    admin: Address,
    operator: Address,
    user: Address,
    now: u64,
    next_id: u64,
}

fn default_params(admin: Address) -> InitParams {
    InitParams {
        asset: Address { id: 900 },
        share_name: String::from("RWA Vault Share"),
        share_symbol: String::from("RWAV"),
        share_decimals: 6,
        admin,
        zkme_verifier: Address { id: 901 },
        cooperator: Address { id: 902 },
        funding_target: 100_000_000,
        maturity_date: 1_000_000,
        min_deposit: 1_000_000,
        max_deposit_per_user: 0,
        early_redemption_fee_bps: 200,
        funding_deadline: 0,
        rwa_name: String::from("Treasury Bill"),
        rwa_symbol: String::from("TBILL"),
        rwa_document_uri: String::from("ipfs://doc"),
        rwa_category: String::from("Bond"),
        expected_apy: 500,
        timelock_delay: 172_800,
        yield_vesting_period: 0,
    }
}

fn setup_with_kyc_bypass() -> Ctx {
    let admin = Address { id: 1 };
    let operator = Address { id: 2 };
    let user = Address { id: 3 };
    let mut vault = Vault::new(default_params(admin)).unwrap();
    vault.grant_role(admin, operator, Role::FullOperator).unwrap();
    Ctx { vault, admin, operator, user, now: 100, next_id: 10 }
}

fn create_user(ctx: &mut Ctx) -> Address {
    ctx.next_id += 1;
    Address { id: ctx.next_id }
}

// ─────────────────────────────────────────────────────────────────────────────
// Happy paths
// ─────────────────────────────────────────────────────────────────────────────

#[test]
fn test_activate_vault_transitions_to_active() {
    let mut ctx = setup_with_kyc_bypass();

    assert_eq!(ctx.vault.vault_state(), VaultState::Funding);

    let amount = 100_000_000i128;
    let user_a = create_user(&mut ctx);
    ctx.vault.deposit(user_a, amount, user_a, true).unwrap();

    assert!(ctx.vault.is_funding_target_met());

    ctx.vault.activate_vault(ctx.operator, ctx.now).unwrap();

    assert_eq!(ctx.vault.vault_state(), VaultState::Active);
}

#[test]
fn test_mature_vault_transitions_to_matured() {
    let mut ctx = setup_with_kyc_bypass();

    let amount = 100_000_000i128;
    ctx.vault.deposit(ctx.user, amount, ctx.user, true).unwrap();
    ctx.vault.activate_vault(ctx.operator, ctx.now).unwrap();

    let maturity = ctx.vault.maturity_date();
    ctx.now = maturity + 1;

    ctx.vault.mature_vault(ctx.operator, ctx.now).unwrap();

    assert_eq!(ctx.vault.vault_state(), VaultState::Matured);
}

#[test]
fn test_exact_funding_target_met_and_activated() {
    let mut ctx = setup_with_kyc_bypass();

    let target = ctx.vault.funding_target();

    let user_exact = create_user(&mut ctx);
    ctx.vault.deposit(user_exact, target, user_exact, true).unwrap();

    ctx.vault.activate_vault(ctx.operator, ctx.now).unwrap();

    assert_eq!(ctx.vault.vault_state(), VaultState::Active);
    assert_eq!(ctx.vault.balance(user_exact), target);
}

/// When the timestamp equals the maturity date, maturing succeeds.
#[test]
fn test_mature_vault_succeeds_at_exact_maturity_timestamp() {
    let mut ctx = setup_with_kyc_bypass();

    let amount = 100_000_000i128;
    ctx.vault.deposit(ctx.user, amount, ctx.user, true).unwrap();
    ctx.vault.activate_vault(ctx.operator, ctx.now).unwrap();

    let maturity = 5_000_000u64;
    ctx.vault.set_maturity_date(ctx.operator, maturity).unwrap();

    ctx.now = maturity;
    assert_eq!(ctx.now, maturity);

    ctx.vault.mature_vault(ctx.operator, ctx.now).unwrap();
    assert_eq!(ctx.vault.vault_state(), VaultState::Matured);
}

/// One second before the maturity date, maturing fails with `NotMatured`.
#[test]
fn test_mature_vault_fails_just_before_maturity() {
    let mut ctx = setup_with_kyc_bypass();

    let amount = 100_000_000i128;
    ctx.vault.deposit(ctx.user, amount, ctx.user, true).unwrap();
    ctx.vault.activate_vault(ctx.operator, ctx.now).unwrap();

    let maturity = 5_000_000u64;
    ctx.vault.set_maturity_date(ctx.operator, maturity).unwrap();

    ctx.now = maturity - 1;
    assert_eq!(ctx.vault.mature_vault(ctx.operator, ctx.now), Err(VaultError::NotMatured));
    assert_eq!(ctx.vault.vault_state(), VaultState::Active);
}

#[test]
fn test_set_maturity_date() {
    let mut ctx = setup_with_kyc_bypass();

    let new_maturity = 2_000_000_000u64;
    ctx.vault.set_maturity_date(ctx.operator, new_maturity).unwrap();

    assert_eq!(ctx.vault.maturity_date(), new_maturity);
}

#[test]
fn test_is_funding_target_met() {
    let mut ctx = setup_with_kyc_bypass();

    let target = ctx.vault.funding_target();

    assert!(!ctx.vault.is_funding_target_met());

    ctx.vault.deposit(ctx.user, target, ctx.user, true).unwrap();

    assert!(ctx.vault.is_funding_target_met());
}

#[test]
fn test_time_to_maturity() {
    let mut ctx = setup_with_kyc_bypass();

    let maturity = 10_000u64;
    ctx.vault.set_maturity_date(ctx.operator, maturity).unwrap();

    ctx.now = 1000;
    assert_eq!(ctx.vault.time_to_maturity(ctx.now), 9000);

    ctx.now += 5000;
    assert_eq!(ctx.vault.time_to_maturity(ctx.now), 4000);

    ctx.now += 4000;
    assert_eq!(ctx.vault.time_to_maturity(ctx.now), 0);

    ctx.now += 1000;
    assert_eq!(ctx.vault.time_to_maturity(ctx.now), 0);
}

// ─────────────────────────────────────────────────────────────────────────────
// Error paths
// ─────────────────────────────────────────────────────────────────────────────

#[test]
fn test_activate_insufficient_funding() {
    let mut ctx = setup_with_kyc_bypass();

    let amount = 50_000_000i128;
    ctx.vault.deposit(ctx.user, amount, ctx.user, true).unwrap();

    assert!(!ctx.vault.is_funding_target_met());

    assert_eq!(
        ctx.vault.activate_vault(ctx.operator, ctx.now),
        Err(VaultError::FundingTargetNotMet)
    );
    assert_eq!(ctx.vault.vault_state(), VaultState::Funding);
}

#[test]
fn test_operator_only_guards() {
    let mut ctx = setup_with_kyc_bypass();

    assert_eq!(
        ctx.vault.set_maturity_date(ctx.user, 2_000_000_000u64),
        Err(VaultError::NotAuthorized)
    );
    assert_eq!(ctx.vault.maturity_date(), 1_000_000);
}

/// Distributing yield in the Funding state fails with `InvalidVaultState`.
#[test]
fn test_yield_distribution_fails_in_funding_state() {
    let mut ctx = setup_with_kyc_bypass();

    assert_eq!(ctx.vault.vault_state(), VaultState::Funding);

    let yield_amount = 1_000_000i128;

    assert_eq!(
        ctx.vault.distribute_yield(ctx.operator, yield_amount, ctx.now),
        Err(VaultError::InvalidVaultState)
    );
}

/// Distributing yield in the Closed state fails with `InvalidVaultState`.
#[test]
fn test_yield_distribution_fails_in_closed_state() {
    let mut ctx = setup_with_kyc_bypass();

    let amount = 100_000_000i128;
    ctx.vault.deposit(ctx.user, amount, ctx.user, true).unwrap();
    ctx.vault.activate_vault(ctx.operator, ctx.now).unwrap();

    let maturity = ctx.vault.maturity_date();
    ctx.now = maturity + 1;
    ctx.vault.mature_vault(ctx.operator, ctx.now).unwrap();

    ctx.vault.withdraw(ctx.user, amount, ctx.user, ctx.user).unwrap();

    ctx.vault.close_vault(ctx.operator).unwrap();

    assert_eq!(ctx.vault.vault_state(), VaultState::Closed);

    let yield_amount = 1_000_000i128;
    assert_eq!(
        ctx.vault.distribute_yield(ctx.operator, yield_amount, ctx.now),
        Err(VaultError::InvalidVaultState)
    );
}

/// Control: yield distribution succeeds in the Active state.
#[test]
fn test_yield_distribution_succeeds_in_active_state() {
    let mut ctx = setup_with_kyc_bypass();

    let amount = 100_000_000i128;
    ctx.vault.deposit(ctx.user, amount, ctx.user, true).unwrap();
    ctx.vault.activate_vault(ctx.operator, ctx.now).unwrap();
    assert_eq!(ctx.vault.vault_state(), VaultState::Active);

    let yield_amount = 5_000_000i128;

    assert!(ctx.vault.distribute_yield(ctx.operator, yield_amount, ctx.now).is_ok());
}

// ─────────────────────────────────────────────────────────────────────────────
// Large values
// ─────────────────────────────────────────────────────────────────────────────

#[test]
fn test_large_value_deposit_does_not_overflow() {
    let mut ctx = setup_with_kyc_bypass();

    let large_amount = i128::MAX / 4;

    let user_a = create_user(&mut ctx);
    ctx.vault.deposit(user_a, large_amount, user_a, true).unwrap();

    let user_b = create_user(&mut ctx);
    ctx.vault.deposit(user_b, large_amount, user_b, true).unwrap();

    let balance_a = ctx.vault.balance(user_a);
    let balance_b = ctx.vault.balance(user_b);

    assert_eq!(balance_a, large_amount);
    assert_eq!(balance_b, large_amount);

    let combined = balance_a + balance_b;
    assert!(combined >= large_amount);
}

#[test]
fn test_large_value_mint_does_not_overflow() {
    let mut ctx = setup_with_kyc_bypass();

    let large_shares = i128::MAX / 4;

    let user = create_user(&mut ctx);

    let assets_used = ctx.vault.mint(user, large_shares, user, true).unwrap();

    assert!(assets_used > 0);
    assert_eq!(ctx.vault.balance(user), large_shares);

    let user2 = create_user(&mut ctx);
    let assets_used_2 = ctx.vault.mint(user2, large_shares, user2, true).unwrap();

    assert!(assets_used_2 > 0);
    assert_eq!(ctx.vault.balance(user2), large_shares);
}

#[test]
fn test_admin_holds_superrole_after_creation() {
    let ctx = setup_with_kyc_bypass();
    assert_eq!(ctx.vault.admin(), ctx.admin);
    assert!(ctx.vault.has_role(ctx.admin, Role::LifecycleManager));
    assert!(ctx.vault.has_role(ctx.operator, Role::YieldOperator));
    assert!(!ctx.vault.has_role(ctx.user, Role::YieldOperator));
}
