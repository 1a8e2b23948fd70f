//! Accounting with a fee-on-transfer asset: deposits and yield are
//! accounted at the requested gross amount, while the asset delivers a
//! lower net balance after charging its transfer fee.

use std::collections::HashMap;

use single_rwa_vault::types::{Address, InitParams, VaultState};
use single_rwa_vault::vault::Vault;

/// A token that burns `fee_bps` of every transfer.
struct FeeOnTransferToken {
    fee_bps: u32,
    balances: HashMap<u64, i128>,
}

impl FeeOnTransferToken {
    fn new(fee_bps: u32) -> Self {
        FeeOnTransferToken { fee_bps, balances: HashMap::new() }
    }

    fn mint(&mut self, to: &Address, amount: &i128) {
        *self.balances.entry(to.id).or_insert(0) += *amount;
    }

    fn balance(&self, who: &Address) -> i128 {
        *self.balances.get(&who.id).unwrap_or(&0)
    }

    fn transfer(&mut self, from: &Address, to: &Address, amount: i128) {
        let fee = amount * i128::from(self.fee_bps) / 10_000i128;
        *self.balances.entry(from.id).or_insert(0) -= amount;
        *self.balances.entry(to.id).or_insert(0) += amount - fee;
    }
}

fn normalize_amount(value: f64, decimals: u32) -> i128 {
    (value * 10f64.powi(decimals as i32)) as i128
}

fn params(admin: Address) -> InitParams {
    InitParams {
        asset: Address { id: 900 },
        share_name: String::from("RWA Vault Share"),
        share_symbol: String::from("RWAV"),
        share_decimals: 6,
        admin,
        zkme_verifier: Address { id: 901 },
        cooperator: Address { id: 902 },
        funding_target: 100_000_000,
        maturity_date: 1_000_000,
        min_deposit: 1_000_000,
        max_deposit_per_user: 0,
        early_redemption_fee_bps: 200,
        funding_deadline: 0,
        rwa_name: String::from("Treasury Bill"),
        rwa_symbol: String::from("TBILL"),
        rwa_document_uri: String::from("ipfs://doc"),
        rwa_category: String::from("Bond"),
        expected_apy: 500,
        timelock_delay: 172_800,
        yield_vesting_period: 0,
    }
}

#[test]
fn test_fee_on_transfer_asset_uses_gross_amounts_for_deposit_and_yield_accounting() {
    let fee_bps = 500u32;
    let admin = Address { id: 1 };
    let user = Address { id: 3 };
    let vault_id = Address { id: 77 };
    let now = 100u64;
    let mut vault = Vault::new(params(admin)).unwrap();
    let mut asset = FeeOnTransferToken::new(fee_bps);

    let deposit_amount = normalize_amount(100.0, 6);
    let deposit_fee = deposit_amount * i128::from(fee_bps) / 10_000i128;
    let net_deposit_received = deposit_amount - deposit_fee;

    asset.mint(&user, &deposit_amount);
    asset.transfer(&user, &vault_id, deposit_amount);
    let shares = vault.deposit(user, deposit_amount, user, true).unwrap();

    assert_eq!(shares, deposit_amount, "shares are minted from the gross deposit");
    assert_eq!(vault.total_assets(), deposit_amount, "gross deposit is added to accounting");
    assert_eq!(vault.total_supply(), deposit_amount);
    assert_eq!(vault.user_deposited(user), deposit_amount);
    assert_eq!(
        asset.balance(&vault_id),
        net_deposit_received,
        "vault receives the net asset amount after the transfer fee"
    );
    assert!(vault.is_funding_target_met(), "gross accounting is used for funding target checks");

    vault.activate_vault(admin, now).unwrap();
    assert_eq!(vault.vault_state(), VaultState::Active);

    let yield_amount = normalize_amount(10.0, 6);
    let yield_fee = yield_amount * i128::from(fee_bps) / 10_000i128;
    let net_yield_received = yield_amount - yield_fee;

    asset.mint(&admin, &yield_amount);
    asset.transfer(&admin, &vault_id, yield_amount);
    let epoch = vault.distribute_yield(admin, yield_amount, now).unwrap();

    assert_eq!(epoch, 1u32);
    assert_eq!(vault.epoch_yield(epoch), yield_amount);
    assert_eq!(vault.total_yield_distributed(), yield_amount);
    assert_eq!(vault.pending_yield(user), yield_amount);
    assert_eq!(
        vault.total_assets(),
        deposit_amount + yield_amount,
        "yield accounting also uses the gross amount requested by the operator"
    );
    assert_eq!(
        asset.balance(&vault_id),
        net_deposit_received + net_yield_received,
        "actual vault token balance only reflects net transfers"
    );

    let claimed = vault.claim_yield(user, 100).unwrap();
    asset.transfer(&vault_id, &user, claimed);

    assert_eq!(claimed, yield_amount, "claim accounting uses the full gross epoch yield");
    assert_eq!(vault.total_yield_claimed(user), yield_amount);
    assert_eq!(vault.pending_yield(user), 0);
    assert_eq!(
        asset.balance(&user),
        net_yield_received,
        "the outbound claim transfer is also haircut by the asset fee"
    );
    assert_eq!(
        asset.balance(&vault_id),
        net_deposit_received + net_yield_received - yield_amount,
        "claiming the gross yield consumes more vault balance than the net yield transfer supplied"
    );
    assert!(
        asset.balance(&vault_id) < vault.total_assets(),
        "the test documents the current mismatch between recorded assets and actual token balance"
    );
}
