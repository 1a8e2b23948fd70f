//! The vault factory's registry: which vaults exist, the lists they are
//! listed in, the checks a new vault's parameters must pass, and the
//! storage-schema version guard.  Deploying a vault is done by the
//! surrounding contract; this registry records the result.

use vstd::prelude::*;
use crate::types::{Address, InitParams};

verus! {

/// Version of the factory contract.
pub const CONTRACT_VERSION: u32 = 1;

/// Version of the storage layout the factory code expects.
pub const STORAGE_SCHEMA_VERSION: u32 = 1;

/// Most vaults that one batch may create.
pub const MAX_BATCH_SIZE: usize = 10;

/// Largest early-redemption fee accepted for a new vault, in basis points.
pub const MAX_INIT_FEE_BPS: u32 = 1000;

/// Why a factory operation was refused.  The contract error
/// code is given for each variant.
#[derive(Clone, Copy, Debug, PartialEq, Eq, Structural)]
pub enum FactoryError {
    /// Code 2: no vault is registered at that address.
    VaultNotFound,
    /// Code 3: the caller may not perform the operation.
    NotAuthorized,
    /// Code 4: an active vault cannot be removed.
    VaultIsActive,
    /// Code 6: the vault parameters are invalid.
    InvalidInitParams,
    /// Code 7: the batch holds more than `MAX_BATCH_SIZE` vaults.
    BatchTooLarge,
    /// Code 8: the vault code hash is all zeros.
    InvalidWasmHash,
    /// Code 9: storage must be migrated first.
    MigrationRequired,
}

/// Kind of vault a factory deploys.
#[derive(Clone, Copy, Debug, PartialEq, Eq, Structural)]
pub enum VaultType {
    SingleRwa,
}

/// What the factory records about a deployed vault.
#[derive(Debug)]
pub struct VaultInfo {
    pub vault: Address,
    pub vault_type: VaultType,
    pub name: String,
    pub symbol: String,
    pub active: bool,
    pub created_at: u64,
}

/// Published when a vault is removed from the registry.
#[derive(Clone, Copy, Debug, PartialEq, Eq, Structural)]
pub struct VaultRemoved {
    pub vault: Address,
    pub admin: Address,
}

/// The abstract state of the factory.
#[verifier::ext_equal]
pub struct FactoryView {
    pub admin: Address,
    pub default_asset: Address,
    pub default_zkme_verifier: Address,
    pub default_cooperator: Address,
    pub wasm_hash: Seq<u8>,
    pub schema_version: u32,
    pub operators: Seq<Address>,
    pub infos: Seq<VaultInfo>,
    pub all_vaults: Seq<Address>,
    pub single_rwa_vaults: Seq<Address>,
}

/// Whether `a` occurs in `s`.
pub open spec fn contains_addr(s: Seq<Address>, a: Address) -> bool {
    exists|i: int| 0 <= i < s.len() && s[i] == a
}

/// No address occurs twice in `s`.
pub open spec fn addrs_unique(s: Seq<Address>) -> bool {
    forall|i: int, j: int| 0 <= i < j < s.len() ==> s[i] != s[j]
}

/// Whether a vault is recorded at `a`.
pub open spec fn has_info(s: Seq<VaultInfo>, a: Address) -> bool {
    exists|i: int| 0 <= i < s.len() && s[i].vault == a
}

/// No vault is recorded twice.
pub open spec fn infos_unique(s: Seq<VaultInfo>) -> bool {
    forall|i: int, j: int| 0 <= i < j < s.len() ==> s[i].vault != s[j].vault
}

/// Position of the record of `a` (meaningful when there is one).
pub open spec fn info_index_in(s: Seq<VaultInfo>, a: Address) -> int {
    choose|i: int| 0 <= i < s.len() && s[i].vault == a
}

/// `s` with `info` replacing the record at its address, or appended.
pub open spec fn with_info(s: Seq<VaultInfo>, info: VaultInfo) -> Seq<VaultInfo> {
    if has_info(s, info.vault) {
        s.update(info_index_in(s, info.vault), info)
    } else {
        s.push(info)
    }
}

/// `s` with `a` appended unless it already occurs.
pub open spec fn with_addr(s: Seq<Address>, a: Address) -> Seq<Address> {
    if contains_addr(s, a) {
        s
    } else {
        s.push(a)
    }
}

/// `s` without `a` (unchanged when `a` does not occur).
pub open spec fn without_addr(s: Seq<Address>, a: Address) -> Seq<Address> {
    s.filter(|x: Address| x != a)
}

/// Whether a new vault may be created with `params` at time `now`.
pub open spec fn init_params_valid(params: InitParams, now: u64) -> bool {
    &&& params.maturity_date > now
    &&& params.early_redemption_fee_bps <= MAX_INIT_FEE_BPS
    &&& params.min_deposit >= 0
    &&& params.funding_target >= 0
    &&& (params.min_deposit > 0 && params.max_deposit_per_user > 0) ==> params.min_deposit
        <= params.max_deposit_per_user
}

/// Checks the parameters of a new vault at time `now`: maturity in the
/// future, fee at most `MAX_INIT_FEE_BPS`, non-negative minimum deposit and
/// funding target, and a minimum not above the maximum when both are set.
pub fn validate_init_params(params: &InitParams, now: u64) -> (r: Result<(), FactoryError>)
    ensures
        r is Ok <==> init_params_valid(*params, now),
        r matches Err(e) ==> e == FactoryError::InvalidInitParams,
{
    if params.maturity_date <= now {
        return Err(FactoryError::InvalidInitParams);
    }
    if params.early_redemption_fee_bps > MAX_INIT_FEE_BPS {
        return Err(FactoryError::InvalidInitParams);
    }
    if params.min_deposit < 0 || params.funding_target < 0 {
        return Err(FactoryError::InvalidInitParams);
    }
    if params.min_deposit > 0 && params.max_deposit_per_user > 0 && params.min_deposit
        > params.max_deposit_per_user {
        return Err(FactoryError::InvalidInitParams);
    }
    Ok(())
}

/// Whether every byte of a code hash is zero.
pub fn is_zero_hash(hash: &[u8; 32]) -> (r: bool)
    ensures
        r == (forall|i: int| 0 <= i < 32 ==> #[trigger] hash@[i] == 0),
{
    let mut i: usize = 0;
    while i < 32
        invariant
            i <= 32,
            forall|j: int| 0 <= j < i ==> #[trigger] hash@[j] == 0,
        decreases 32 - i,
    {
        if hash[i] != 0 {
            return false;
        }
        i = i + 1;
    }
    true
}

/// Removes `a` from a list holding each address at most once.
fn remove_addr(v: &mut Vec<Address>, a: Address)
    requires
        addrs_unique(old(v)@),
    ensures
        final(v)@ == without_addr(old(v)@, a),
        addrs_unique(final(v)@),
        !contains_addr(final(v)@, a),
        forall|b: Address| b != a ==> (contains_addr(final(v)@, b) == contains_addr(old(v)@, b)),
{
    let ghost s = v@;
    let n: usize = v.len();
    let mut i: usize = 0;
    while i < n
        invariant
            n == v.len(),
            v@ == s,
            s == old(v)@,
            addrs_unique(s),
            i <= n,
            forall|j: int| 0 <= j < i ==> v@[j] != a,
        decreases n - i,
    {
        if v[i] == a {
            v.remove(i);
            proof {
                lemma_remove_unique(s, a, i as int);
            }
            return;
        }
        i = i + 1;
    }
    proof {
        lemma_filter_absent(s, a);
    }
}

/// Removing the one occurrence of `a` from a list without duplicates is
/// filtering it out.
proof fn lemma_remove_unique(s: Seq<Address>, a: Address, i: int)
    requires
        addrs_unique(s),
        0 <= i < s.len(),
        s[i] == a,
    ensures
        s.remove(i) == without_addr(s, a),
        addrs_unique(s.remove(i)),
        !contains_addr(s.remove(i), a),
        forall|b: Address| b != a ==> (contains_addr(s.remove(i), b) == contains_addr(s, b)),
{
    let t = s.remove(i);
    assert forall|j: int| 0 <= j < s.len() && j != i implies s[j] != a by {
        if j < i {
            assert(s[j] != s[i]);
        } else {
            assert(s[i] != s[j]);
        }
    }
    lemma_filter_skips(s, a, i);
    lemma_remove_keeps_others(s, i);
    assert forall|j: int| 0 <= j < t.len() implies t[j] != a by {
        if j < i {
            assert(t[j] == s[j]);
        } else {
            assert(t[j] == s[j + 1]);
        }
    }
}

/// Removing index `i` keeps uniqueness and the membership of every other
/// address.
proof fn lemma_remove_keeps_others(s: Seq<Address>, i: int)
    requires
        addrs_unique(s),
        0 <= i < s.len(),
    ensures
        addrs_unique(s.remove(i)),
        forall|b: Address| b != s[i] ==> (contains_addr(s.remove(i), b) == contains_addr(s, b)),
{
    let t = s.remove(i);
    assert forall|p: int, q: int| 0 <= p < q < t.len() implies t[p] != t[q] by {
        let pp = if p < i { p } else { p + 1 };
        let qq = if q < i { q } else { q + 1 };
        assert(t[p] == s[pp]);
        assert(t[q] == s[qq]);
    }
    assert forall|b: Address| b != s[i] implies (contains_addr(t, b) == contains_addr(s, b)) by {
        if contains_addr(s, b) {
            let k = choose|k: int| 0 <= k < s.len() && s[k] == b;
            if k < i {
                assert(t[k] == b);
            } else {
                assert(t[k - 1] == b);
            }
        }
        if contains_addr(t, b) {
            let k = choose|k: int| 0 <= k < t.len() && t[k] == b;
            if k < i {
                assert(s[k] == b);
            } else {
                assert(s[k + 1] == b);
            }
        }
    }
}

/// Filtering out an address that does not occur changes nothing.
proof fn lemma_filter_absent(s: Seq<Address>, a: Address)
    requires
        forall|j: int| 0 <= j < s.len() ==> s[j] != a,
    ensures
        without_addr(s, a) == s,
        !contains_addr(s, a),
    decreases s.len(),
{
    reveal_with_fuel(Seq::filter, 1);
    if s.len() > 0 {
        lemma_filter_absent(s.drop_last(), a);
        assert(s.drop_last().push(s.last()) =~= s);
    } else {
        assert(s.filter(|x: Address| x != a) =~= s);
    }
}

/// Filtering out `a` where it occurs once, at `i`, is removing index `i`.
proof fn lemma_filter_skips(s: Seq<Address>, a: Address, i: int)
    requires
        0 <= i < s.len(),
        s[i] == a,
        forall|j: int| 0 <= j < s.len() && j != i ==> s[j] != a,
    ensures
        without_addr(s, a) == s.remove(i),
    decreases s.len(),
{
    reveal_with_fuel(Seq::filter, 1);
    let p = s.drop_last();
    if i == s.len() - 1 {
        lemma_filter_absent(p, a);
        assert(s.remove(i) =~= p);
    } else {
        lemma_filter_skips(p, a, i);
        assert(s.remove(i) =~= p.remove(i).push(s.last()));
    }
}

/// The factory's registry state.
pub struct VaultFactory {
    admin: Address,
    default_asset: Address,
    default_zkme_verifier: Address,
    default_cooperator: Address,
    wasm_hash: [u8; 32],
    schema_version: u32,
    operators: Vec<Address>,
    infos: Vec<VaultInfo>,
    all_vaults: Vec<Address>,
    single_rwa_vaults: Vec<Address>,
}

impl View for VaultFactory {
    type V = FactoryView;

    closed spec fn view(&self) -> FactoryView {
        FactoryView {
            admin: self.admin,
            default_asset: self.default_asset,
            default_zkme_verifier: self.default_zkme_verifier,
            default_cooperator: self.default_cooperator,
            wasm_hash: self.wasm_hash@,
            schema_version: self.schema_version,
            operators: self.operators@,
            infos: self.infos@,
            all_vaults: self.all_vaults@,
            single_rwa_vaults: self.single_rwa_vaults@,
        }
    }
}

impl FactoryView {
    /// The registry's invariant: nothing is recorded or listed twice.
    pub open spec fn wf(self) -> bool {
        &&& infos_unique(self.infos)
        &&& addrs_unique(self.all_vaults)
        &&& addrs_unique(self.single_rwa_vaults)
    }

    /// Whether `a` may create vaults: the admin or an operator.
    pub open spec fn may_create(self, a: Address) -> bool {
        a == self.admin || contains_addr(self.operators, a)
    }

    /// Why `remove_vault` refuses, if it does.
    pub open spec fn remove_error(self, caller: Address, vault: Address) -> Option<FactoryError> {
        if caller != self.admin {
            Some(FactoryError::NotAuthorized)
        } else if !has_info(self.infos, vault) {
            Some(FactoryError::VaultNotFound)
        } else if self.infos[self.info_index(vault)].active {
            Some(FactoryError::VaultIsActive)
        } else {
            None
        }
    }

    /// Position of the record of `vault` (meaningful when there is one).
    pub open spec fn info_index(self, vault: Address) -> int {
        info_index_in(self.infos, vault)
    }

    /// Why creating a vault with `params` at `now` is refused, if it is.
    pub open spec fn create_error(self, caller: Address, params: InitParams, now: u64) -> Option<
        FactoryError,
    > {
        if !self.may_create(caller) {
            Some(FactoryError::NotAuthorized)
        } else if self.schema_version != STORAGE_SCHEMA_VERSION {
            Some(FactoryError::MigrationRequired)
        } else if forall|i: int| 0 <= i < 32 ==> #[trigger] self.wasm_hash[i] == 0 {
            Some(FactoryError::InvalidWasmHash)
        } else if !init_params_valid(params, now) {
            Some(FactoryError::InvalidInitParams)
        } else {
            None
        }
    }
}

impl VaultFactory {
    /// A factory administered by `admin`, deploying code `wasm_hash` with
    /// the given default addresses, at the current storage schema.
    pub fn new(
        admin: Address,
        default_asset: Address,
        default_zkme_verifier: Address,
        default_cooperator: Address,
        wasm_hash: [u8; 32],
    ) -> (r: VaultFactory)
        ensures
            r@.wf(),
            r@ == (FactoryView {
                admin,
                default_asset,
                default_zkme_verifier,
                default_cooperator,
                wasm_hash: wasm_hash@,
                schema_version: STORAGE_SCHEMA_VERSION,
                operators: Seq::empty(),
                infos: Seq::empty(),
                all_vaults: Seq::empty(),
                single_rwa_vaults: Seq::empty(),
            }),
    {
        VaultFactory {
            admin,
            default_asset,
            default_zkme_verifier,
            default_cooperator,
            wasm_hash,
            schema_version: STORAGE_SCHEMA_VERSION,
            operators: Vec::new(),
            infos: Vec::new(),
            all_vaults: Vec::new(),
            single_rwa_vaults: Vec::new(),
        }
    }

    /// A factory whose registry was stored under schema `schema_version`,
    /// as found by an upgraded contract before `migrate` runs; every call
    /// that needs the current layout refuses until then.
    pub fn with_stored_schema(
        admin: Address,
        default_asset: Address,
        default_zkme_verifier: Address,
        default_cooperator: Address,
        wasm_hash: [u8; 32],
        schema_version: u32,
    ) -> (r: VaultFactory)
        ensures
            r@.wf(),
            r@ == (FactoryView {
                admin,
                default_asset,
                default_zkme_verifier,
                default_cooperator,
                wasm_hash: wasm_hash@,
                schema_version,
                operators: Seq::empty(),
                infos: Seq::empty(),
                all_vaults: Seq::empty(),
                single_rwa_vaults: Seq::empty(),
            }),
    {
        VaultFactory {
            admin,
            default_asset,
            default_zkme_verifier,
            default_cooperator,
            wasm_hash,
            schema_version,
            operators: Vec::new(),
            infos: Vec::new(),
            all_vaults: Vec::new(),
            single_rwa_vaults: Vec::new(),
        }
    }

    /// Version of the factory contract.
    pub fn contract_version(&self) -> (r: u32)
        ensures
            r == CONTRACT_VERSION,
    {
        CONTRACT_VERSION
    }

    /// Version of the storage layout currently in place.
    pub fn storage_schema_version(&self) -> (r: u32)
        ensures
            r == self@.schema_version,
    {
        self.schema_version
    }

    /// The admin brings storage to the current schema; a no-op when it is
    /// already current.
    pub fn migrate(&mut self, caller: Address) -> (r: Result<(), FactoryError>)
        requires
            old(self)@.wf(),
        ensures
            final(self)@.wf(),
            match r {
                Ok(()) => caller == old(self)@.admin && final(self)@ == (FactoryView {
                    schema_version: STORAGE_SCHEMA_VERSION,
                    ..old(self)@
                }),
                Err(e) => caller != old(self)@.admin && e == FactoryError::NotAuthorized && final(self)@ == old(self)@,
            },
    {
        if caller != self.admin {
            return Err(FactoryError::NotAuthorized);
        }
        self.schema_version = STORAGE_SCHEMA_VERSION;
        Ok(())
    }

    /// The admin sets the default asset, KYC verifier and cooperator of new
    /// vaults; refused until storage is migrated.
    pub fn set_defaults(
        &mut self,
        caller: Address,
        asset: Address,
        zkme_verifier: Address,
        cooperator: Address,
    ) -> (r: Result<(), FactoryError>)
        requires
            old(self)@.wf(),
        ensures
            final(self)@.wf(),
            match r {
                Ok(()) => caller == old(self)@.admin && old(self)@.schema_version
                    == STORAGE_SCHEMA_VERSION && final(self)@ == (FactoryView {
                    default_asset: asset,
                    default_zkme_verifier: zkme_verifier,
                    default_cooperator: cooperator,
                    ..old(self)@
                }),
                Err(e) => final(self)@ == old(self)@ && if caller != old(self)@.admin {
                    e == FactoryError::NotAuthorized
                } else {
                    old(self)@.schema_version != STORAGE_SCHEMA_VERSION && e
                        == FactoryError::MigrationRequired
                },
            },
    {
        if caller != self.admin {
            return Err(FactoryError::NotAuthorized);
        }
        if self.schema_version != STORAGE_SCHEMA_VERSION {
            return Err(FactoryError::MigrationRequired);
        }
        self.default_asset = asset;
        self.default_zkme_verifier = zkme_verifier;
        self.default_cooperator = cooperator;
        Ok(())
    }

    /// The default asset, KYC verifier and cooperator of new vaults.
    pub fn defaults(&self) -> (r: (Address, Address, Address))
        ensures
            r == (self@.default_asset, self@.default_zkme_verifier, self@.default_cooperator),
    {
        (self.default_asset, self.default_zkme_verifier, self.default_cooperator)
    }

    /// The admin lets `operator` create vaults.
    pub fn add_operator(&mut self, caller: Address, operator: Address) -> (r: Result<(), FactoryError>)
        requires
            old(self)@.wf(),
        ensures
            final(self)@.wf(),
            match r {
                Ok(()) => caller == old(self)@.admin && final(self)@ == (FactoryView {
                    operators: old(self)@.operators.push(operator),
                    ..old(self)@
                }),
                Err(e) => caller != old(self)@.admin && e == FactoryError::NotAuthorized && final(self)@ == old(self)@,
            },
    {
        if caller != self.admin {
            return Err(FactoryError::NotAuthorized);
        }
        self.operators.push(operator);
        Ok(())
    }

    /// Whether `a` may create vaults.
    pub fn may_create(&self, a: Address) -> (r: bool)
        ensures
            r == self@.may_create(a),
    {
        if a == self.admin {
            return true;
        }
        let n: usize = self.operators.len();
        let mut i: usize = 0;
        while i < n
            invariant
                n == self.operators.len(),
                i <= n,
                forall|j: int| 0 <= j < i ==> self.operators@[j] != a,
            decreases n - i,
        {
            if self.operators[i] == a {
                assert(self@.operators[i as int] == a);
                return true;
            }
            i = i + 1;
        }
        false
    }

    /// Checks whether `caller` may create a vault with `params` at `now`.
    pub fn check_create(&self, caller: Address, params: &InitParams, now: u64) -> (r: Result<
        (),
        FactoryError,
    >)
        ensures
            match r {
                Ok(()) => self@.create_error(caller, *params, now) is None,
                Err(e) => self@.create_error(caller, *params, now) == Some(e),
            },
    {
        if !self.may_create(caller) {
            return Err(FactoryError::NotAuthorized);
        }
        if self.schema_version != STORAGE_SCHEMA_VERSION {
            return Err(FactoryError::MigrationRequired);
        }
        assert(self@.wasm_hash == self.wasm_hash@);
        if is_zero_hash(&self.wasm_hash) {
            return Err(FactoryError::InvalidWasmHash);
        }
        validate_init_params(params, now)
    }

    /// Checks a batch of vault parameters: at most `MAX_BATCH_SIZE`, each
    /// one acceptable.
    pub fn check_batch(&self, caller: Address, batch: &Vec<InitParams>, now: u64) -> (r: Result<
        (),
        FactoryError,
    >)
        ensures
            batch.len() > MAX_BATCH_SIZE ==> r == Err::<(), FactoryError>(
                FactoryError::BatchTooLarge,
            ),
            batch.len() <= MAX_BATCH_SIZE ==> (r is Ok <==> forall|i: int|
                0 <= i < batch.len() ==> (#[trigger] self@.create_error(caller, batch@[i], now))
                    is None),
            r matches Err(e) ==> batch.len() > MAX_BATCH_SIZE || exists|i: int|
                0 <= i < batch.len() && #[trigger] self@.create_error(caller, batch@[i], now)
                    == Some(e) && forall|j: int|
                    0 <= j < i ==> (#[trigger] self@.create_error(caller, batch@[j], now)) is None,
    {
        if batch.len() > MAX_BATCH_SIZE {
            return Err(FactoryError::BatchTooLarge);
        }
        let n: usize = batch.len();
        let mut i: usize = 0;
        while i < n
            invariant
                n == batch.len(),
                n <= MAX_BATCH_SIZE,
                i <= n,
                forall|j: int|
                    0 <= j < i ==> (#[trigger] self@.create_error(caller, batch@[j], now)) is None,
            decreases n - i,
        {
            if let Err(e) = self.check_create(caller, &batch[i], now) {
                return Err(e);
            }
            i = i + 1;
        }
        Ok(())
    }

    /// Records a deployed vault: its record replaces any earlier one at the
    /// same address, and the address is listed once in each list.
    pub fn register_vault(&mut self, caller: Address, info: VaultInfo) -> (r: Result<
        (),
        FactoryError,
    >)
        requires
            old(self)@.wf(),
        ensures
            final(self)@.wf(),
            match r {
                Ok(()) => {
                    &&& old(self)@.may_create(caller)
                    &&& final(self)@ == (FactoryView {
                        infos: with_info(old(self)@.infos, info),
                        all_vaults: with_addr(old(self)@.all_vaults, info.vault),
                        single_rwa_vaults: with_addr(old(self)@.single_rwa_vaults, info.vault),
                        ..old(self)@
                    })
                    &&& has_info(final(self)@.infos, info.vault)
                    &&& contains_addr(final(self)@.all_vaults, info.vault)
                    &&& contains_addr(final(self)@.single_rwa_vaults, info.vault)
                    &&& forall|a: Address|
                        a != info.vault ==> (has_info(final(self)@.infos, a) == has_info(
                            old(self)@.infos,
                            a,
                        ) && contains_addr(final(self)@.all_vaults, a) == contains_addr(
                            old(self)@.all_vaults,
                            a,
                        ) && contains_addr(final(self)@.single_rwa_vaults, a) == contains_addr(
                            old(self)@.single_rwa_vaults,
                            a,
                        ))
                },
                Err(e) => !old(self)@.may_create(caller) && e == FactoryError::NotAuthorized
                    && final(self)@ == old(self)@,
            },
    {
        if !self.may_create(caller) {
            return Err(FactoryError::NotAuthorized);
        }
        let a: Address = info.vault;
        let ghost before = self@;
        let idx: Option<usize> = self.find_info(a);
        match idx {
            Some(i) => {
                self.infos.set(i, info);
                proof {
                    let s = before.infos;
                    let t = self.infos@;
                    assert forall|p: int, q: int| 0 <= p < q < t.len() implies t[p].vault
                        != t[q].vault by {
                        assert(s[p].vault != s[q].vault || (p != i as int && q != i as int));
                        if p == i as int {
                            assert(s[q].vault != s[p].vault);
                        }
                        if q == i as int {
                            assert(s[p].vault != s[q].vault);
                        }
                    }
                    assert(t[i as int].vault == a);
                    assert forall|b: Address| b != a implies has_info(t, b) == has_info(s, b) by {
                        if has_info(s, b) {
                            let k = choose|k: int| 0 <= k < s.len() && s[k].vault == b;
                            assert(t[k].vault == b);
                        }
                        if has_info(t, b) {
                            let k = choose|k: int| 0 <= k < t.len() && t[k].vault == b;
                            assert(s[k].vault == b);
                        }
                    }
                }
            },
            None => {
                self.infos.push(info);
                proof {
                    let s = before.infos;
                    let t = self.infos@;
                    assert forall|p: int, q: int| 0 <= p < q < t.len() implies t[p].vault
                        != t[q].vault by {
                        if q == s.len() {
                            assert(t[p].vault == s[p].vault);
                        }
                    }
                    assert(t[s.len() as int].vault == a);
                    assert forall|b: Address| b != a implies has_info(t, b) == has_info(s, b) by {
                        if has_info(s, b) {
                            let k = choose|k: int| 0 <= k < s.len() && s[k].vault == b;
                            assert(t[k].vault == b);
                        }
                        if has_info(t, b) {
                            let k = choose|k: int| 0 <= k < t.len() && t[k].vault == b;
                            assert(s[k].vault == b);
                        }
                    }
                }
            },
        }
        add_addr(&mut self.all_vaults, a);
        add_addr(&mut self.single_rwa_vaults, a);
        Ok(())
    }

    /// Position of the record of `vault`, if there is one.
    fn find_info(&self, vault: Address) -> (r: Option<usize>)
        requires
            self@.wf(),
        ensures
            r is None <==> !has_info(self@.infos, vault),
            r matches Some(i) ==> i < self@.infos.len() && self@.infos[i as int].vault == vault && i
                == self@.info_index(vault),
    {
        let n: usize = self.infos.len();
        let mut i: usize = 0;
        while i < n
            invariant
                n == self.infos.len(),
                i <= n,
                self@.wf(),
                forall|j: int| 0 <= j < i ==> self@.infos[j].vault != vault,
            decreases n - i,
        {
            if self.infos[i].vault == vault {
                proof {
                    let k = self@.info_index(vault);
                    assert(self@.infos[i as int].vault == vault);
                    assert(0 <= k < self@.infos.len() && self@.infos[k].vault == vault);
                    if k != i as int {
                        if k < i as int {
                            assert(self@.infos[k].vault != self@.infos[i as int].vault);
                        } else {
                            assert(self@.infos[i as int].vault != self@.infos[k].vault);
                        }
                    }
                }
                return Some(i);
            }
            i = i + 1;
        }
        None
    }

    /// Whether a vault is recorded at `vault`.
    pub fn has_vault(&self, vault: Address) -> (r: bool)
        requires
            self@.wf(),
        ensures
            r == has_info(self@.infos, vault),
    {
        self.find_info(vault).is_some()
    }

    /// The record of the vault at `vault`, if there is one.
    pub fn get_vault_info(&self, vault: Address) -> (r: Option<&VaultInfo>)
        requires
            self@.wf(),
        ensures
            r is Some <==> has_info(self@.infos, vault),
            r matches Some(info) ==> *info == self@.infos[self@.info_index(vault)],
    {
        match self.find_info(vault) {
            Some(i) => Some(&self.infos[i]),
            None => None,
        }
    }

    /// Every listed vault, in listing order.
    pub fn get_all_vaults(&self) -> (r: Vec<Address>)
        ensures
            r@ == self@.all_vaults,
    {
        copy_addrs(&self.all_vaults)
    }

    /// Every listed single-RWA vault, in listing order.
    pub fn get_single_rwa_vaults(&self) -> (r: Vec<Address>)
        ensures
            r@ == self@.single_rwa_vaults,
    {
        copy_addrs(&self.single_rwa_vaults)
    }

    /// The admin removes an inactive vault: its record is deleted and it is
    /// taken off every list.  Returns the removal event.
    pub fn remove_vault(&mut self, caller: Address, vault: Address) -> (r: Result<
        VaultRemoved,
        FactoryError,
    >)
        requires
            old(self)@.wf(),
        ensures
            final(self)@.wf(),
            match r {
                Ok(ev) => {
                    &&& old(self)@.remove_error(caller, vault) is None
                    &&& ev == VaultRemoved { vault, admin: caller }
                    &&& final(self)@ == (FactoryView {
                        infos: old(self)@.infos.remove(old(self)@.info_index(vault)),
                        all_vaults: without_addr(old(self)@.all_vaults, vault),
                        single_rwa_vaults: without_addr(old(self)@.single_rwa_vaults, vault),
                        ..old(self)@
                    })
                    &&& !has_info(final(self)@.infos, vault)
                    &&& !contains_addr(final(self)@.all_vaults, vault)
                    &&& !contains_addr(final(self)@.single_rwa_vaults, vault)
                    &&& forall|a: Address|
                        a != vault ==> (has_info(final(self)@.infos, a) == has_info(
                            old(self)@.infos,
                            a,
                        ) && contains_addr(final(self)@.all_vaults, a) == contains_addr(
                            old(self)@.all_vaults,
                            a,
                        ) && contains_addr(final(self)@.single_rwa_vaults, a) == contains_addr(
                            old(self)@.single_rwa_vaults,
                            a,
                        ))
                },
                Err(e) => old(self)@.remove_error(caller, vault) == Some(e) && final(self)@ == old(self)@,
            },
    {
        if caller != self.admin {
            return Err(FactoryError::NotAuthorized);
        }
        let i: usize = match self.find_info(vault) {
            Some(i) => i,
            None => {
                return Err(FactoryError::VaultNotFound);
            },
        };
        if self.infos[i].active {
            return Err(FactoryError::VaultIsActive);
        }
        let ghost s = self@.infos;
        let _removed: VaultInfo = self.infos.remove(i);
        proof {
            let t = self.infos@;
            assert(t == s.remove(i as int));
            assert forall|p: int, q: int| 0 <= p < q < t.len() implies t[p].vault
                != t[q].vault by {
                let pp = if p < i { p } else { p + 1 };
                let qq = if q < i { q } else { q + 1 };
                assert(t[p] == s[pp] && t[q] == s[qq]);
                assert(s[pp].vault != s[qq].vault);
            }
            assert forall|b: Address| b != vault implies has_info(t, b) == has_info(s, b) by {
                if has_info(s, b) {
                    let k = choose|k: int| 0 <= k < s.len() && s[k].vault == b;
                    assert(k != i);
                    if k < i {
                        assert(t[k].vault == b);
                    } else {
                        assert(t[k - 1].vault == b);
                    }
                }
                if has_info(t, b) {
                    let k = choose|k: int| 0 <= k < t.len() && t[k].vault == b;
                    if k < i {
                        assert(s[k].vault == b);
                    } else {
                        assert(s[k + 1].vault == b);
                    }
                }
            }
            if has_info(t, vault) {
                let k = choose|k: int| 0 <= k < t.len() && t[k].vault == vault;
                if k < i {
                    assert(s[k].vault == s[i as int].vault);
                } else {
                    assert(s[k + 1].vault == s[i as int].vault);
                }
            }
        }
        remove_addr(&mut self.all_vaults, vault);
        remove_addr(&mut self.single_rwa_vaults, vault);
        Ok(VaultRemoved { vault, admin: caller })
    }
}

/// Appends `a` to a list holding each address at most once, unless present.
fn add_addr(v: &mut Vec<Address>, a: Address)
    requires
        addrs_unique(old(v)@),
    ensures
        final(v)@ == with_addr(old(v)@, a),
        addrs_unique(final(v)@),
        contains_addr(final(v)@, a),
        forall|b: Address| b != a ==> (contains_addr(final(v)@, b) == contains_addr(old(v)@, b)),
{
    let n: usize = v.len();
    let mut i: usize = 0;
    while i < n
        invariant
            n == v.len(),
            i <= n,
            addrs_unique(v@),
            forall|j: int| 0 <= j < i ==> v@[j] != a,
        decreases n - i,
    {
        if v[i] == a {
            assert(v@[i as int] == a);
            return;
        }
        i = i + 1;
    }
    let ghost s = v@;
    v.push(a);
    proof {
        assert(v@[s.len() as int] == a);
        assert forall|b: Address| b != a implies (contains_addr(v@, b) == contains_addr(s, b)) by {
            if contains_addr(v@, b) {
                let k = choose|k: int| 0 <= k < v@.len() && v@[k] == b;
                assert(s[k] == b);
            }
            if contains_addr(s, b) {
                let k = choose|k: int| 0 <= k < s.len() && s[k] == b;
                assert(v@[k] == b);
            }
        }
    }
}

/// A copy of a list of addresses.
fn copy_addrs(v: &Vec<Address>) -> (r: Vec<Address>)
    ensures
        r@ == v@,
{
    let mut out: Vec<Address> = Vec::new();
    let n: usize = v.len();
    let mut i: usize = 0;
    while i < n
        invariant
            n == v.len(),
            i <= n,
            out@ == v@.take(i as int),
        decreases n - i,
    {
        out.push(v[i]);
        assert(v@.take(i as int).push(v@[i as int]) =~= v@.take(i + 1));
        i = i + 1;
    }
    assert(v@.take(n as int) =~= v@);
    out
}

} // verus!
