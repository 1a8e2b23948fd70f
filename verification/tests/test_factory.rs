use single_rwa_vault::factory::{
    validate_init_params, FactoryError, VaultFactory, VaultInfo, VaultRemoved, VaultType,
    CONTRACT_VERSION, STORAGE_SCHEMA_VERSION,
};
use single_rwa_vault::types::{Address, InitParams};

struct Env {
    next_id: u64,
    now: u64,
}

impl Env {
    fn new() -> Self {
        Env { next_id: 100, now: 1_000 }
    }

    fn generate(&mut self) -> Address {
        self.next_id += 1;
        Address { id: self.next_id }
    }
}

/// A factory with a dummy (all-zero) code hash.
fn setup_factory(e: &mut Env) -> (VaultFactory, Address) {
    let admin = e.generate();
    let asset = e.generate();
    let zkme = e.generate();
    let coop = e.generate();
    let wasm_hash = [0u8; 32];
    (VaultFactory::new(admin, asset, zkme, coop, wasm_hash), admin)
}

/// Records a vault directly, as if it had been deployed.
fn inject_vault(e: &mut Env, factory: &mut VaultFactory, admin: Address, active: bool) -> Address {
    let vault = e.generate();
    let info = VaultInfo {
        vault,
        vault_type: VaultType::SingleRwa,
        name: String::from("Test Vault"),
        symbol: String::from("TV"),
        active,
        created_at: e.now,
    };
    factory.register_vault(admin, info).unwrap();
    vault
}

fn params(now: u64) -> InitParams {
    InitParams {
        asset: Address { id: 1 },
        share_name: String::from("S"),
        share_symbol: String::from("S"),
        share_decimals: 6,
        admin: Address { id: 2 },
        zkme_verifier: Address { id: 3 },
        cooperator: Address { id: 4 },
        funding_target: 100,
        maturity_date: now + 1,
        min_deposit: 10,
        max_deposit_per_user: 50,
        early_redemption_fee_bps: 1000,
        funding_deadline: 0,
        rwa_name: String::from("R"),
        rwa_symbol: String::from("R"),
        rwa_document_uri: String::from("u"),
        rwa_category: String::from("c"),
        expected_apy: 0,
        timelock_delay: 0,
        yield_vesting_period: 0,
    }
}

#[test]
fn test_factory_versioning_and_migration() {
    let mut e = Env::new();
    let (mut factory, admin) = setup_factory(&mut e);

    assert_eq!(factory.contract_version(), 1u32);
    assert_eq!(factory.storage_schema_version(), 1u32);

    factory.migrate(admin).unwrap();
    assert_eq!(factory.storage_schema_version(), 1u32);

    let asset = e.generate();
    let zkme = e.generate();
    let coop = e.generate();
    factory.set_defaults(admin, asset, zkme, coop).unwrap();
    assert_eq!(factory.defaults(), (asset, zkme, coop));
}

#[test]
fn test_remove_inactive_vault_success() {
    let mut e = Env::new();
    let (mut factory, admin) = setup_factory(&mut e);
    let vault = inject_vault(&mut e, &mut factory, admin, false);

    assert!(factory.get_vault_info(vault).is_some());
    assert!(factory.get_all_vaults().contains(&vault));
    assert!(factory.get_single_rwa_vaults().contains(&vault));

    factory.remove_vault(admin, vault).unwrap();

    assert!(factory.get_vault_info(vault).is_none(), "VaultInfo must be deleted");
    assert!(!factory.get_all_vaults().contains(&vault), "vault must not appear in AllVaults");
    assert!(
        !factory.get_single_rwa_vaults().contains(&vault),
        "vault must not appear in SingleRwaVaults"
    );
}

#[test]
fn test_get_all_vaults_excludes_removed_vault() {
    let mut e = Env::new();
    let (mut factory, admin) = setup_factory(&mut e);

    let keep = inject_vault(&mut e, &mut factory, admin, false);
    let remove = inject_vault(&mut e, &mut factory, admin, false);

    factory.remove_vault(admin, remove).unwrap();

    let all = factory.get_all_vaults();
    assert!(!all.contains(&remove), "removed vault must not appear in get_all_vaults");
    assert!(all.contains(&keep), "remaining vault must still appear in get_all_vaults");
}

#[test]
fn test_remove_vault_non_admin_fails() {
    let mut e = Env::new();
    let (mut factory, admin) = setup_factory(&mut e);
    let vault = inject_vault(&mut e, &mut factory, admin, false);

    let random = e.generate();
    assert_eq!(factory.remove_vault(random, vault), Err(FactoryError::NotAuthorized));
    assert!(factory.has_vault(vault));
}

#[test]
fn test_remove_active_vault_fails() {
    let mut e = Env::new();
    let (mut factory, admin) = setup_factory(&mut e);
    let vault = inject_vault(&mut e, &mut factory, admin, true);

    assert_eq!(factory.remove_vault(admin, vault), Err(FactoryError::VaultIsActive));
    assert!(factory.has_vault(vault));
}

#[test]
fn test_remove_unknown_vault_fails() {
    let mut e = Env::new();
    let (mut factory, admin) = setup_factory(&mut e);
    let ghost = e.generate();

    assert_eq!(factory.remove_vault(admin, ghost), Err(FactoryError::VaultNotFound));
}

#[test]
fn test_remove_vault_emits_event() {
    let mut e = Env::new();
    let (mut factory, admin) = setup_factory(&mut e);
    let vault = inject_vault(&mut e, &mut factory, admin, false);

    let event = factory.remove_vault(admin, vault).unwrap();
    assert_eq!(event, VaultRemoved { vault, admin });
}

#[test]
fn test_registering_twice_lists_vault_once() {
    let mut e = Env::new();
    let (mut factory, admin) = setup_factory(&mut e);
    let vault = inject_vault(&mut e, &mut factory, admin, true);
    let info = VaultInfo {
        vault,
        vault_type: VaultType::SingleRwa,
        name: String::from("Renamed"),
        symbol: String::from("RN"),
        active: false,
        created_at: 5,
    };
    factory.register_vault(admin, info).unwrap();
    assert_eq!(factory.get_all_vaults(), vec![vault]);
    assert_eq!(factory.get_single_rwa_vaults(), vec![vault]);
    assert_eq!(factory.get_vault_info(vault).unwrap().name, "Renamed");
    factory.remove_vault(admin, vault).unwrap();
    assert!(factory.get_all_vaults().is_empty());
}

#[test]
fn test_remove_keeps_listing_order_of_others() {
    let mut e = Env::new();
    let (mut factory, admin) = setup_factory(&mut e);
    let a = inject_vault(&mut e, &mut factory, admin, false);
    let b = inject_vault(&mut e, &mut factory, admin, false);
    let c = inject_vault(&mut e, &mut factory, admin, false);
    factory.remove_vault(admin, b).unwrap();
    assert_eq!(factory.get_all_vaults(), vec![a, c]);
    assert_eq!(factory.get_single_rwa_vaults(), vec![a, c]);
}

#[test]
fn test_only_admin_migrates_and_sets_defaults() {
    let mut e = Env::new();
    let (mut factory, _admin) = setup_factory(&mut e);
    let other = e.generate();
    assert_eq!(factory.migrate(other), Err(FactoryError::NotAuthorized));
    assert_eq!(factory.set_defaults(other, other, other, other), Err(FactoryError::NotAuthorized));
    assert_eq!(CONTRACT_VERSION, 1);
    assert_eq!(STORAGE_SCHEMA_VERSION, 1);
}

#[test]
fn test_register_requires_operator() {
    let mut e = Env::new();
    let (mut factory, admin) = setup_factory(&mut e);
    let op = e.generate();
    let info = VaultInfo {
        vault: Address { id: 7 },
        vault_type: VaultType::SingleRwa,
        name: String::from("V"),
        symbol: String::from("V"),
        active: true,
        created_at: 0,
    };
    let info2 = VaultInfo {
        vault: Address { id: 7 },
        vault_type: VaultType::SingleRwa,
        name: String::from("V"),
        symbol: String::from("V"),
        active: true,
        created_at: 0,
    };
    assert_eq!(factory.register_vault(op, info), Err(FactoryError::NotAuthorized));
    factory.add_operator(admin, op).unwrap();
    assert!(factory.may_create(op));
    factory.register_vault(op, info2).unwrap();
    assert!(factory.has_vault(Address { id: 7 }));
}

#[test]
fn test_validate_init_params_rules() {
    let now = 1_000u64;
    assert_eq!(validate_init_params(&params(now), now), Ok(()));

    let mut p = params(now);
    p.maturity_date = now;
    assert_eq!(validate_init_params(&p, now), Err(FactoryError::InvalidInitParams));

    let mut p = params(now);
    p.early_redemption_fee_bps = 1001;
    assert_eq!(validate_init_params(&p, now), Err(FactoryError::InvalidInitParams));

    let mut p = params(now);
    p.min_deposit = -1;
    assert_eq!(validate_init_params(&p, now), Err(FactoryError::InvalidInitParams));

    let mut p = params(now);
    p.funding_target = -1;
    assert_eq!(validate_init_params(&p, now), Err(FactoryError::InvalidInitParams));

    let mut p = params(now);
    p.min_deposit = 60;
    assert_eq!(validate_init_params(&p, now), Err(FactoryError::InvalidInitParams));

    let mut p = params(now);
    p.min_deposit = 60;
    p.max_deposit_per_user = 0;
    assert_eq!(validate_init_params(&p, now), Ok(()));
}

#[test]
fn test_check_create_order_of_errors() {
    let mut e = Env::new();
    let admin = e.generate();
    let stranger = e.generate();
    let zero_hash = VaultFactory::new(admin, admin, admin, admin, [0u8; 32]);
    let now = e.now;
    assert_eq!(zero_hash.check_create(stranger, &params(now), now), Err(FactoryError::NotAuthorized));
    assert_eq!(zero_hash.check_create(admin, &params(now), now), Err(FactoryError::InvalidWasmHash));

    let mut hash = [0u8; 32];
    hash[31] = 1;
    let factory = VaultFactory::new(admin, admin, admin, admin, hash);
    assert_eq!(factory.check_create(admin, &params(now), now), Ok(()));
    let mut bad = params(now);
    bad.maturity_date = 0;
    assert_eq!(factory.check_create(admin, &bad, now), Err(FactoryError::InvalidInitParams));
}

#[test]
fn test_check_batch_limits() {
    let mut hash = [0u8; 32];
    hash[0] = 9;
    let admin = Address { id: 1 };
    let factory = VaultFactory::new(admin, admin, admin, admin, hash);
    let now = 50u64;
    let ten: Vec<InitParams> = (0..10).map(|_| params(now)).collect();
    assert_eq!(factory.check_batch(admin, &ten, now), Ok(()));
    let eleven: Vec<InitParams> = (0..11).map(|_| params(now)).collect();
    assert_eq!(factory.check_batch(admin, &eleven, now), Err(FactoryError::BatchTooLarge));
    let mut mixed: Vec<InitParams> = (0..3).map(|_| params(now)).collect();
    mixed[1].early_redemption_fee_bps = 5000;
    assert_eq!(factory.check_batch(admin, &mixed, now), Err(FactoryError::InvalidInitParams));
}

#[test]
fn test_older_schema_requires_migration() {
    let mut e = Env::new();
    let admin = e.generate();
    let other = e.generate();
    let mut hash = [0u8; 32];
    hash[0] = 7;
    let mut f = VaultFactory::with_stored_schema(admin, admin, admin, admin, hash, 0);
    assert_eq!(f.storage_schema_version(), 0);
    assert_eq!(f.set_defaults(admin, other, other, other), Err(FactoryError::MigrationRequired));
    assert_eq!(f.check_create(admin, &params(e.now), e.now), Err(FactoryError::MigrationRequired));
    assert_eq!(f.migrate(other), Err(FactoryError::NotAuthorized));
    assert_eq!(f.migrate(admin), Ok(()));
    assert_eq!(f.storage_schema_version(), STORAGE_SCHEMA_VERSION);
    assert_eq!(f.set_defaults(admin, other, other, other), Ok(()));
}
