//! The vault's persistent state and its primitive accessors.
//!
//! Supported assets, each user's collateral assets and the global position
//! index are slot-ordered lists: adding appends, removing moves the last
//! element into the freed slot (swap-and-pop), exactly as the ledger layout
//! keeps them. Balances are kept per (user, asset) pair, and a zero balance
//! is not stored at all.
use vstd::prelude::*;

use std::collections::HashMap;

use crate::common::AccountId;
use crate::vault::types::{default_asset_config, AssetConfig, CollateralAsset, PauseFlag, Position, pause_bit};

verus! {

broadcast use vstd::std_specs::hash::group_hash_axioms;

/// Contract version reported before any upgrade has been recorded.
pub const DEFAULT_CONTRACT_VERSION: u32 = 1;

/// Storage schema version assumed before any migration has been recorded.
pub const DEFAULT_STORAGE_SCHEMA_VERSION: u32 = 1;

/// `2^64`, the stride of the (user, asset) balance key.
pub open spec fn key_stride() -> int {
    0x1_0000_0000_0000_0000
}

/// The storage key of the balance of `asset` held by `user`.
pub open spec fn balance_key(user: AccountId, asset: AccountId) -> u128 {
    (user as int * key_stride() + asset as int) as u128
}

/// Distinct (user, asset) pairs have distinct balance keys.
pub proof fn lemma_balance_key_injective(u1: AccountId, a1: AccountId, u2: AccountId, a2: AccountId)
    ensures
        balance_key(u1, a1) == balance_key(u2, a2) ==> u1 == u2 && a1 == a2,
{
    let n = key_stride();
    assert(0 <= u1 as int * n + a1 as int <= u128::MAX) by (nonlinear_arith)
        requires
            n == 0x1_0000_0000_0000_0000,
            0 <= u1 <= u64::MAX,
            0 <= a1 <= u64::MAX,
    ;
    assert(0 <= u2 as int * n + a2 as int <= u128::MAX) by (nonlinear_arith)
        requires
            n == 0x1_0000_0000_0000_0000,
            0 <= u2 <= u64::MAX,
            0 <= a2 <= u64::MAX,
    ;
    if balance_key(u1, a1) == balance_key(u2, a2) {
        assert(u1 as int * n + a1 as int == u2 as int * n + a2 as int);
        assert(u1 == u2 && a1 == a2) by (nonlinear_arith)
            requires
                u1 as int * n + a1 as int == u2 as int * n + a2 as int,
                n == 0x1_0000_0000_0000_0000,
                0 <= a1 < n,
                0 <= a2 < n,
                0 <= u1,
                0 <= u2,
        ;
    }
}

fn compute_balance_key(user: AccountId, asset: AccountId) -> (k: u128)
    ensures
        k == balance_key(user, asset),
{
    let n: u128 = 0x1_0000_0000_0000_0000;
    proof {
        assert(user as int * n + asset as int <= u128::MAX) by (nonlinear_arith)
            requires
                n == 0x1_0000_0000_0000_0000,
                0 <= user <= u64::MAX,
                0 <= asset <= u64::MAX,
        ;
        assert(user as int * n >= 0) by (nonlinear_arith)
            requires
                n >= 0,
                user >= 0,
        ;
    }
    (user as u128) * n + (asset as u128)
}

/// Position of `x` in `v`, if present.
pub fn index_of(v: &Vec<AccountId>, x: AccountId) -> (r: Option<usize>)
    ensures
        match r {
            Some(i) => i < v@.len() && v@[i as int] == x,
            None => !v@.contains(x),
        },
{
    let mut i: usize = 0;
    while i < v.len()
        invariant
            i <= v@.len(),
            forall|j: int| 0 <= j < i ==> v@[j] != x,
        decreases v@.len() - i,
    {
        if v[i] == x {
            return Some(i);
        }
        i = i + 1;
    }
    None
}

/// The vault's persistent state.
pub struct VaultState {
    /// Administrator.
    pub admin: Option<AccountId>,
    /// Legacy circuit-breaker flag, kept beside the granular pause mask.
    pub paused: bool,
    /// Bitmask of paused operations; absent reads as zero.
    pub pause_mask: Option<u32>,
    /// Lending pool that reports users' debt.
    pub lending_pool: Option<AccountId>,
    /// Price oracle.
    pub oracle: Option<AccountId>,
    /// Liquidation engine allowed to seize collateral.
    pub liquidation_engine: Option<AccountId>,
    /// Lending pool under its alternative key.
    pub pool: Option<AccountId>,
    /// Recorded contract version, if any.
    pub contract_version: Option<u32>,
    /// Recorded storage schema version, if any.
    pub storage_schema_version: Option<u32>,
    /// Supported assets in slot order.
    pub supported_assets: Vec<AccountId>,
    /// Explicit asset configurations.
    pub asset_configs: HashMap<AccountId, AssetConfig>,
    /// Positive balances keyed by `balance_key(user, asset)`.
    pub balances: HashMap<u128, i128>,
    /// Each user's deposited assets in slot order.
    pub user_assets: HashMap<AccountId, Vec<AccountId>>,
    /// Users with an open position in slot order.
    pub position_index: Vec<AccountId>,
}

impl VaultState {
    /// Supported assets in slot order.
    pub open spec fn supported(&self) -> Seq<AccountId> {
        self.supported_assets@
    }

    /// Explicitly stored asset configurations.
    pub open spec fn configs(&self) -> Map<AccountId, AssetConfig> {
        self.asset_configs@
    }

    /// Balance of `asset` held by `user` (zero when nothing is stored).
    pub open spec fn balance(&self, user: AccountId, asset: AccountId) -> int {
        if self.balances@.contains_key(balance_key(user, asset)) {
            self.balances@[balance_key(user, asset)] as int
        } else {
            0
        }
    }

    /// Assets `user` has deposited, in slot order.
    pub open spec fn user_asset_list(&self, user: AccountId) -> Seq<AccountId> {
        if self.user_assets@.contains_key(user) {
            self.user_assets@[user]@
        } else {
            Seq::empty()
        }
    }

    /// Users with an open position, in slot order.
    pub open spec fn positions(&self) -> Seq<AccountId> {
        self.position_index@
    }

    /// Everything outside the scalar fields is unchanged between two states.
    pub open spec fn same_collections(&self, other: &VaultState) -> bool {
        &&& self.supported() == other.supported()
        &&& self.configs() == other.configs()
        &&& forall|u: AccountId, a: AccountId| #[trigger] self.balance(u, a) == other.balance(u, a)
        &&& forall|u: AccountId| #[trigger] self.user_asset_list(u) == other.user_asset_list(u)
        &&& self.positions() == other.positions()
    }

    /// The scalar fields are unchanged between two states.
    pub open spec fn same_scalars(&self, other: &VaultState) -> bool {
        &&& self.admin == other.admin
        &&& self.paused == other.paused
        &&& self.pause_mask == other.pause_mask
        &&& self.lending_pool == other.lending_pool
        &&& self.oracle == other.oracle
        &&& self.liquidation_engine == other.liquidation_engine
        &&& self.pool == other.pool
        &&& self.contract_version == other.contract_version
        &&& self.storage_schema_version == other.storage_schema_version
    }

    /// Well-formedness: the slot lists hold no duplicates, every stored
    /// balance is positive, a user's asset list holds exactly the assets in
    /// which the user has a positive balance, and the position index holds
    /// exactly the users whose asset list is not empty.
    pub open spec fn wf(&self) -> bool {
        &&& self.supported().no_duplicates()
        &&& self.positions().no_duplicates()
        &&& forall|u: AccountId| (#[trigger] self.user_asset_list(u)).no_duplicates()
        &&& forall|u: AccountId, a: AccountId| #[trigger] self.balance(u, a) >= 0
        &&& forall|u: AccountId, a: AccountId|
            #![trigger self.balance(u, a)]
            #![trigger self.user_asset_list(u).contains(a)]
            self.balance(u, a) > 0 <==> self.user_asset_list(u).contains(a)
        &&& forall|u: AccountId|
            #![trigger self.positions().contains(u)]
            #![trigger self.user_asset_list(u)]
            self.positions().contains(u) <==> self.user_asset_list(u).len() > 0
    }

    /// An empty, uninitialised vault.
    pub fn new() -> (s: Self)
        ensures
            s.wf(),
            s.admin is None,
            !s.paused,
            s.pause_mask is None,
            s.lending_pool is None,
            s.oracle is None,
            s.liquidation_engine is None,
            s.pool is None,
            s.contract_version is None,
            s.storage_schema_version is None,
            s.supported() == Seq::<AccountId>::empty(),
            s.configs() == Map::<AccountId, AssetConfig>::empty(),
            forall|u: AccountId, a: AccountId| #[trigger] s.balance(u, a) == 0,
            forall|u: AccountId| #[trigger] s.user_asset_list(u) == Seq::<AccountId>::empty(),
            s.positions() == Seq::<AccountId>::empty(),
    {
        VaultState {
            admin: None,
            paused: false,
            pause_mask: None,
            lending_pool: None,
            oracle: None,
            liquidation_engine: None,
            pool: None,
            contract_version: None,
            storage_schema_version: None,
            supported_assets: Vec::new(),
            asset_configs: HashMap::new(),
            balances: HashMap::new(),
            user_assets: HashMap::new(),
            position_index: Vec::new(),
        }
    }
}

impl VaultState {
    /// Whether an administrator has been recorded.
    pub fn has_admin(&self) -> (r: bool)
        ensures
            r == self.admin is Some,
    {
        self.admin.is_some()
    }

    /// The administrator, if any.
    pub fn get_admin(&self) -> (r: Option<AccountId>)
        ensures
            r == self.admin,
    {
        self.admin
    }

    /// Records the administrator.
    pub fn set_admin(&mut self, admin: AccountId)
        ensures
            *final(self) == (VaultState { admin: Some(admin), ..*old(self) }),
    {
        self.admin = Some(admin);
    }

    /// The legacy circuit-breaker flag.
    pub fn is_paused(&self) -> (r: bool)
        ensures
            r == self.paused,
    {
        self.paused
    }

    /// Sets the legacy circuit-breaker flag.
    pub fn set_paused(&mut self, paused: bool)
        ensures
            *final(self) == (VaultState { paused: paused, ..*old(self) }),
    {
        self.paused = paused;
    }

    /// The lending pool, if any.
    pub fn get_lending_pool(&self) -> (r: Option<AccountId>)
        ensures
            r == self.lending_pool,
    {
        self.lending_pool
    }

    /// Records the lending pool.
    pub fn set_lending_pool(&mut self, lending_pool: AccountId)
        ensures
            *final(self) == (VaultState { lending_pool: Some(lending_pool), ..*old(self) }),
    {
        self.lending_pool = Some(lending_pool);
    }

    /// The oracle, if any.
    pub fn get_oracle(&self) -> (r: Option<AccountId>)
        ensures
            r == self.oracle,
    {
        self.oracle
    }

    /// Records the oracle.
    pub fn set_oracle(&mut self, oracle: AccountId)
        ensures
            *final(self) == (VaultState { oracle: Some(oracle), ..*old(self) }),
    {
        self.oracle = Some(oracle);
    }

    /// The liquidation engine, if any.
    pub fn get_liquidation_engine(&self) -> (r: Option<AccountId>)
        ensures
            r == self.liquidation_engine,
    {
        self.liquidation_engine
    }

    /// Records the liquidation engine.
    pub fn set_liquidation_engine(&mut self, engine: AccountId)
        ensures
            *final(self) == (VaultState { liquidation_engine: Some(engine), ..*old(self) }),
    {
        self.liquidation_engine = Some(engine);
    }

    /// The lending pool under its alternative key, if any.
    pub fn get_pool(&self) -> (r: Option<AccountId>)
        ensures
            r == self.pool,
    {
        self.pool
    }

    /// Records the lending pool under its alternative key.
    pub fn set_pool(&mut self, pool: AccountId)
        ensures
            *final(self) == (VaultState { pool: Some(pool), ..*old(self) }),
    {
        self.pool = Some(pool);
    }

    /// The pause mask (zero when never written).
    pub fn get_pause_mask(&self) -> (r: u32)
        ensures
            r == mask_of(self.pause_mask),
    {
        match self.pause_mask {
            Some(m) => m,
            None => 0,
        }
    }

    /// Records the pause mask.
    pub fn set_pause_mask(&mut self, mask: u32)
        ensures
            *final(self) == (VaultState { pause_mask: Some(mask), ..*old(self) }),
    {
        self.pause_mask = Some(mask);
    }

    /// Whether the operation's bit is set in the pause mask.
    pub fn is_operation_paused(&self, flag: &PauseFlag) -> (r: bool)
        ensures
            r == (mask_of(self.pause_mask) & pause_bit(*flag) != 0),
    {
        self.get_pause_mask() & flag.bit() != 0
    }

    /// The recorded contract version, or the default.
    pub fn get_contract_version(&self) -> (r: u32)
        ensures
            r == (match self.contract_version {
                Some(v) => v,
                None => DEFAULT_CONTRACT_VERSION,
            }),
    {
        match self.contract_version {
            Some(v) => v,
            None => DEFAULT_CONTRACT_VERSION,
        }
    }

    /// Records the contract version.
    pub fn set_contract_version(&mut self, version: u32)
        ensures
            *final(self) == (VaultState { contract_version: Some(version), ..*old(self) }),
    {
        self.contract_version = Some(version);
    }

    /// The recorded storage schema version, or the default.
    pub fn get_storage_schema_version(&self) -> (r: u32)
        ensures
            r == (match self.storage_schema_version {
                Some(v) => v,
                None => DEFAULT_STORAGE_SCHEMA_VERSION,
            }),
    {
        match self.storage_schema_version {
            Some(v) => v,
            None => DEFAULT_STORAGE_SCHEMA_VERSION,
        }
    }

    /// Records the storage schema version.
    pub fn set_storage_schema_version(&mut self, version: u32)
        ensures
            *final(self) == (VaultState { storage_schema_version: Some(version), ..*old(self) }),
    {
        self.storage_schema_version = Some(version);
    }
}

/// A stored pause mask, reading an absent one as zero.
pub open spec fn mask_of(m: Option<u32>) -> u32 {
    match m {
        Some(v) => v,
        None => 0,
    }
}

/// `s` with `x` taken out by swap-and-pop: the last element moves into the
/// slot `x` occupied. Unchanged when `x` is absent.
pub open spec fn swap_pop(s: Seq<AccountId>, x: AccountId) -> Seq<AccountId> {
    if s.contains(x) {
        let i = choose|i: int| 0 <= i < s.len() && s[i] == x;
        s.update(i, s.last()).drop_last()
    } else {
        s
    }
}

/// In a list without duplicates, swap-and-pop at the slot of `x` is
/// `swap_pop(s, x)`, and it leaves exactly the other elements.
pub proof fn lemma_swap_pop_at(s: Seq<AccountId>, x: AccountId, i: int)
    requires
        s.no_duplicates(),
        0 <= i < s.len(),
        s[i] == x,
    ensures
        swap_pop(s, x) == s.update(i, s.last()).drop_last(),
        swap_pop(s, x).no_duplicates(),
        swap_pop(s, x).len() == s.len() - 1,
        forall|y: AccountId| #[trigger] swap_pop(s, x).contains(y) <==> (s.contains(y) && y != x),
{
    let j = choose|j: int| 0 <= j < s.len() && s[j] == x;
    assert(j == i);
    let r = s.update(i, s.last()).drop_last();
    assert forall|y: AccountId| #[trigger] r.contains(y) <==> (s.contains(y) && y != x) by {
        if r.contains(y) {
            let k = choose|k: int| 0 <= k < r.len() && r[k] == y;
            if k == i {
                assert(y == s[s.len() - 1]);
                assert(s.len() - 1 != i);
            } else {
                assert(y == s[k]);
            }
        }
        if s.contains(y) && y != x {
            let k = choose|k: int| 0 <= k < s.len() && s[k] == y;
            assert(k != i);
            if k == s.len() - 1 {
                assert(r[i] == y);
            } else {
                assert(r[k] == y);
            }
        }
    }
    assert forall|a: int, b: int| 0 <= a < r.len() && 0 <= b < r.len() && a != b implies r[a] != r[b] by {
        if a == i {
            assert(r[a] == s[s.len() - 1]);
            assert(r[b] == s[b]);
        } else if b == i {
            assert(r[b] == s[s.len() - 1]);
            assert(r[a] == s[a]);
        }
    }
}

/// Appending an absent element keeps a list free of duplicates.
pub proof fn lemma_push_fresh(s: Seq<AccountId>, x: AccountId)
    requires
        s.no_duplicates(),
        !s.contains(x),
    ensures
        s.push(x).no_duplicates(),
        forall|y: AccountId| #[trigger] s.push(x).contains(y) <==> (s.contains(y) || y == x),
{
    assert forall|y: AccountId| #[trigger] s.push(x).contains(y) <==> (s.contains(y) || y == x) by {
        if s.push(x).contains(y) {
            let k = choose|k: int| 0 <= k < s.push(x).len() && s.push(x)[k] == y;
            if k < s.len() {
                assert(s[k] == y);
            }
        }
        if s.contains(y) {
            let k = choose|k: int| 0 <= k < s.len() && s[k] == y;
            assert(s.push(x)[k] == y);
        }
        if y == x {
            assert(s.push(x)[s.len() as int] == y);
        }
    }
    assert forall|a: int, b: int| 0 <= a < s.push(x).len() && 0 <= b < s.push(x).len() && a != b implies s.push(x)[a] != s.push(x)[b] by {
        if a == s.len() {
            assert(s.push(x)[b] == s[b]);
        } else if b == s.len() {
            assert(s.push(x)[a] == s[a]);
        }
    }
}

/// A copy of a list of account ids.
pub fn copy_ids(v: &Vec<AccountId>) -> (r: Vec<AccountId>)
    ensures
        r@ == v@,
{
    let mut r: Vec<AccountId> = Vec::new();
    let mut i: usize = 0;
    while i < v.len()
        invariant
            i <= v@.len(),
            r@ == v@.subrange(0, i as int),
        decreases v@.len() - i,
    {
        r.push(v[i]);
        i = i + 1;
        assert(r@ == v@.subrange(0, i as int));
    }
    assert(v@.subrange(0, v@.len() as int) == v@);
    r
}

impl VaultState {
    /// Only the supported-asset list may differ between the two states.
    pub open spec fn same_except_supported(&self, other: &VaultState) -> bool {
        &&& self.same_scalars(other)
        &&& self.configs() == other.configs()
        &&& forall|u: AccountId, a: AccountId| #[trigger] self.balance(u, a) == other.balance(u, a)
        &&& forall|u: AccountId| #[trigger] self.user_asset_list(u) == other.user_asset_list(u)
        &&& self.positions() == other.positions()
    }

    /// Whether `asset` is supported.
    pub fn is_supported_asset(&self, asset: AccountId) -> (r: bool)
        ensures
            r == self.supported().contains(asset),
    {
        index_of(&self.supported_assets, asset).is_some()
    }

    /// Number of supported assets.
    pub fn supported_asset_count(&self) -> (r: u32)
        requires
            self.supported().len() <= u32::MAX,
        ensures
            r == self.supported().len(),
    {
        self.supported_assets.len() as u32
    }

    /// The supported asset in slot `slot`, if any.
    pub fn get_supported_asset_at(&self, slot: u32) -> (r: Option<AccountId>)
        ensures
            r == (if slot < self.supported().len() {
                Some(self.supported()[slot as int])
            } else {
                None::<AccountId>
            }),
    {
        if (slot as usize) < self.supported_assets.len() {
            Some(self.supported_assets[slot as usize])
        } else {
            None
        }
    }

    /// All supported assets in slot order.
    pub fn get_supported_assets(&self) -> (r: Vec<AccountId>)
        ensures
            r@ == self.supported(),
    {
        copy_ids(&self.supported_assets)
    }

    /// Lists `asset` in the next free slot; nothing happens when it is
    /// already listed.
    pub fn add_supported_asset(&mut self, asset: AccountId)
        requires
            old(self).supported().no_duplicates(),
        ensures
            final(self).supported() == (if old(self).supported().contains(asset) {
                old(self).supported()
            } else {
                old(self).supported().push(asset)
            }),
            final(self).supported().no_duplicates(),
            final(self).same_except_supported(old(self)),
    {
        if index_of(&self.supported_assets, asset).is_some() {
            return;
        }
        proof {
            lemma_push_fresh(self.supported_assets@, asset);
        }
        self.supported_assets.push(asset);
    }

    /// Delists `asset`, moving the last listed asset into its slot; nothing
    /// happens when it is not listed.
    pub fn remove_supported_asset(&mut self, asset: AccountId)
        requires
            old(self).supported().no_duplicates(),
        ensures
            final(self).supported() == swap_pop(old(self).supported(), asset),
            final(self).supported().no_duplicates(),
            final(self).same_except_supported(old(self)),
    {
        match index_of(&self.supported_assets, asset) {
            Some(slot) => {
                proof {
                    lemma_swap_pop_at(self.supported_assets@, asset, slot as int);
                }
                self.supported_assets.swap_remove(slot);
            },
            None => {},
        }
    }

    /// The stored configuration of `asset`, if any.
    pub fn get_asset_config(&self, asset: AccountId) -> (r: Option<AssetConfig>)
        ensures
            r == (if self.configs().contains_key(asset) {
                Some(self.configs()[asset])
            } else {
                None::<AssetConfig>
            }),
    {
        match self.asset_configs.get(&asset) {
            Some(c) => Some(*c),
            None => None,
        }
    }

    /// The configuration of `asset`, or the default one.
    pub fn get_asset_config_or_default(&self, asset: AccountId) -> (r: AssetConfig)
        ensures
            r == self.config_of(asset),
    {
        match self.asset_configs.get(&asset) {
            Some(c) => *c,
            None => AssetConfig::default(),
        }
    }

    /// The configuration that applies to `asset`: the stored one or the
    /// default.
    pub open spec fn config_of(&self, asset: AccountId) -> AssetConfig {
        if self.configs().contains_key(asset) {
            self.configs()[asset]
        } else {
            default_asset_config()
        }
    }

    /// Stores the configuration of `asset`.
    pub fn set_asset_config(&mut self, asset: AccountId, config: &AssetConfig)
        ensures
            final(self).configs() == old(self).configs().insert(asset, *config),
            final(self).same_scalars(old(self)),
            final(self).supported() == old(self).supported(),
            forall|u: AccountId, a: AccountId| #[trigger] final(self).balance(u, a) == old(self).balance(u, a),
            forall|u: AccountId| #[trigger] final(self).user_asset_list(u) == old(self).user_asset_list(u),
            final(self).positions() == old(self).positions(),
    {
        self.asset_configs.insert(asset, *config);
    }

    /// Balance of `asset` held by `user` (zero when none).
    pub fn get_position_balance(&self, user: AccountId, asset: AccountId) -> (r: i128)
        ensures
            r == self.balance(user, asset),
    {
        let k = compute_balance_key(user, asset);
        match self.balances.get(&k) {
            Some(b) => *b,
            None => 0,
        }
    }

    /// Records the balance of `asset` held by `user`; a zero balance is
    /// removed instead of stored.
    pub fn set_position_balance(&mut self, user: AccountId, asset: AccountId, balance: i128)
        ensures
            forall|u: AccountId, a: AccountId|
                #[trigger] final(self).balance(u, a) == (if u == user && a == asset {
                    balance as int
                } else {
                    old(self).balance(u, a)
                }),
            final(self).same_scalars(old(self)),
            final(self).supported() == old(self).supported(),
            final(self).configs() == old(self).configs(),
            forall|u: AccountId| #[trigger] final(self).user_asset_list(u) == old(self).user_asset_list(u),
            final(self).positions() == old(self).positions(),
    {
        let k = compute_balance_key(user, asset);
        if balance == 0 {
            self.balances.remove(&k);
        } else {
            self.balances.insert(k, balance);
        }
        proof {
            assert forall|u: AccountId, a: AccountId|
                #[trigger] self.balance(u, a) == (if u == user && a == asset {
                    balance as int
                } else {
                    old(self).balance(u, a)
                }) by {
                lemma_balance_key_injective(u, a, user, asset);
            }
        }
    }
}

impl VaultState {
    /// Only `user`'s asset list may differ between the two states.
    pub open spec fn same_except_user_assets_of(&self, other: &VaultState, user: AccountId) -> bool {
        &&& self.same_scalars(other)
        &&& self.supported() == other.supported()
        &&& self.configs() == other.configs()
        &&& forall|u: AccountId, a: AccountId| #[trigger] self.balance(u, a) == other.balance(u, a)
        &&& forall|u: AccountId| u != user ==> #[trigger] self.user_asset_list(u) == other.user_asset_list(u)
        &&& self.positions() == other.positions()
    }

    /// Only the position index may differ between the two states.
    pub open spec fn same_except_positions(&self, other: &VaultState) -> bool {
        &&& self.same_scalars(other)
        &&& self.supported() == other.supported()
        &&& self.configs() == other.configs()
        &&& forall|u: AccountId, a: AccountId| #[trigger] self.balance(u, a) == other.balance(u, a)
        &&& forall|u: AccountId| #[trigger] self.user_asset_list(u) == other.user_asset_list(u)
    }

    /// Number of assets in `user`'s list.
    pub fn user_asset_count(&self, user: AccountId) -> (r: u32)
        requires
            self.user_asset_list(user).len() <= u32::MAX,
        ensures
            r == self.user_asset_list(user).len(),
    {
        match self.user_assets.get(&user) {
            Some(v) => v.len() as u32,
            None => 0,
        }
    }

    /// The asset in slot `slot` of `user`'s list, if any.
    pub fn get_user_asset_at(&self, user: AccountId, slot: u32) -> (r: Option<AccountId>)
        ensures
            r == (if slot < self.user_asset_list(user).len() {
                Some(self.user_asset_list(user)[slot as int])
            } else {
                None::<AccountId>
            }),
    {
        match self.user_assets.get(&user) {
            Some(v) => {
                if (slot as usize) < v.len() {
                    Some(v[slot as usize])
                } else {
                    None
                }
            },
            None => None,
        }
    }

    /// Takes `user`'s list out of the map (an empty list when absent).
    fn take_user_assets(&mut self, user: AccountId) -> (r: Vec<AccountId>)
        ensures
            r@ == old(self).user_asset_list(user),
            final(self).user_assets@ == old(self).user_assets@.remove(user),
            *final(self) == (VaultState { user_assets: final(self).user_assets, ..*old(self) }),
    {
        match self.user_assets.remove(&user) {
            Some(v) => v,
            None => Vec::new(),
        }
    }

    /// Appends `asset` to `user`'s list; nothing happens when it is already
    /// there.
    pub fn add_user_asset(&mut self, user: AccountId, asset: AccountId)
        requires
            old(self).user_asset_list(user).no_duplicates(),
        ensures
            final(self).user_asset_list(user) == (if old(self).user_asset_list(user).contains(asset) {
                old(self).user_asset_list(user)
            } else {
                old(self).user_asset_list(user).push(asset)
            }),
            final(self).user_asset_list(user).no_duplicates(),
            final(self).same_except_user_assets_of(old(self), user),
    {
        let mut list = self.take_user_assets(user);
        if index_of(&list, asset).is_none() {
            proof {
                lemma_push_fresh(list@, asset);
            }
            list.push(asset);
        }
        self.user_assets.insert(user, list);
        proof {
            assert forall|u: AccountId| u != user implies #[trigger] self.user_asset_list(u) == old(self).user_asset_list(u) by {
                assert(self.user_assets@.contains_key(u) == old(self).user_assets@.contains_key(u));
            }
        }
    }

    /// Removes `asset` from `user`'s list by swap-and-pop; nothing happens
    /// when it is not there.
    pub fn remove_user_asset(&mut self, user: AccountId, asset: AccountId)
        requires
            old(self).user_asset_list(user).no_duplicates(),
        ensures
            final(self).user_asset_list(user) == swap_pop(old(self).user_asset_list(user), asset),
            final(self).user_asset_list(user).no_duplicates(),
            final(self).same_except_user_assets_of(old(self), user),
    {
        let mut list = self.take_user_assets(user);
        match index_of(&list, asset) {
            Some(slot) => {
                proof {
                    lemma_swap_pop_at(list@, asset, slot as int);
                }
                list.swap_remove(slot);
            },
            None => {},
        }
        self.user_assets.insert(user, list);
        proof {
            assert forall|u: AccountId| u != user implies #[trigger] self.user_asset_list(u) == old(self).user_asset_list(u) by {
                assert(self.user_assets@.contains_key(u) == old(self).user_assets@.contains_key(u));
            }
        }
    }

    /// Number of users in the position index.
    pub fn position_count(&self) -> (r: u32)
        requires
            self.positions().len() <= u32::MAX,
        ensures
            r == self.positions().len(),
    {
        self.position_index.len() as u32
    }

    /// The user in slot `slot` of the position index, if any.
    pub fn get_position_at(&self, slot: u32) -> (r: Option<AccountId>)
        ensures
            r == (if slot < self.positions().len() {
                Some(self.positions()[slot as int])
            } else {
                None::<AccountId>
            }),
    {
        if (slot as usize) < self.position_index.len() {
            Some(self.position_index[slot as usize])
        } else {
            None
        }
    }

    /// Whether `user` is in the position index.
    pub fn user_in_position_index(&self, user: AccountId) -> (r: bool)
        ensures
            r == self.positions().contains(user),
    {
        index_of(&self.position_index, user).is_some()
    }

    /// Appends `user` to the position index; nothing happens when it is
    /// already there.
    pub fn add_to_position_index(&mut self, user: AccountId)
        requires
            old(self).positions().no_duplicates(),
        ensures
            final(self).positions() == (if old(self).positions().contains(user) {
                old(self).positions()
            } else {
                old(self).positions().push(user)
            }),
            final(self).positions().no_duplicates(),
            final(self).same_except_positions(old(self)),
    {
        if index_of(&self.position_index, user).is_some() {
            return;
        }
        proof {
            lemma_push_fresh(self.position_index@, user);
        }
        self.position_index.push(user);
    }

    /// Removes `user` from the position index by swap-and-pop; nothing
    /// happens when it is not there.
    pub fn remove_from_position_index(&mut self, user: AccountId)
        requires
            old(self).positions().no_duplicates(),
        ensures
            final(self).positions() == swap_pop(old(self).positions(), user),
            final(self).positions().no_duplicates(),
            final(self).same_except_positions(old(self)),
    {
        match index_of(&self.position_index, user) {
            Some(slot) => {
                proof {
                    lemma_swap_pop_at(self.position_index@, user, slot as int);
                }
                self.position_index.swap_remove(slot);
            },
            None => {},
        }
    }

    /// All users in the position index, in slot order.
    pub fn get_position_index(&self) -> (r: Vec<AccountId>)
        ensures
            r@ == self.positions(),
    {
        copy_ids(&self.position_index)
    }
}

impl VaultState {
    /// The collateral entries of `user`'s position: each listed asset with
    /// its balance, in slot order.
    pub open spec fn position_items(&self, user: AccountId) -> Seq<CollateralAsset> {
        self.user_asset_list(user).map_values(
            |a: AccountId| CollateralAsset { asset: a, amount: self.balance(user, a) as i128 },
        )
    }

    /// Whether `user` has an open position.
    pub open spec fn has_position(&self, user: AccountId) -> bool {
        self.positions().contains(user) && self.user_asset_list(user).len() > 0
    }

    /// The position of `user`: `None` when the user is not in the position
    /// index or holds no collateral.
    pub fn get_position(&self, user: AccountId) -> (r: Option<Position>)
        requires
            self.wf(),
        ensures
            match r {
                Some(p) => self.has_position(user) && p.user == user && p.collateral@ == self.position_items(user),
                None => !self.has_position(user),
            },
    {
        if !self.user_in_position_index(user) {
            return None;
        }
        let list = match self.user_assets.get(&user) {
            Some(v) => v,
            None => {
                return None;
            },
        };
        let mut collateral: Vec<CollateralAsset> = Vec::new();
        let mut i: usize = 0;
        while i < list.len()
            invariant
                self.wf(),
                list@ == self.user_asset_list(user),
                i <= list@.len(),
                collateral@ == self.position_items(user).take(i as int),
            decreases list@.len() - i,
        {
            let asset = list[i];
            let balance = self.get_position_balance(user, asset);
            proof {
                assert(self.user_asset_list(user).contains(asset)) by {
                    assert(self.user_asset_list(user)[i as int] == asset);
                }
            }
            if balance > 0 {
                collateral.push(CollateralAsset { asset, amount: balance });
            }
            i = i + 1;
            assert(collateral@ == self.position_items(user).take(i as int));
        }
        assert(self.position_items(user).take(list@.len() as int) == self.position_items(user));
        if collateral.len() == 0 {
            return None;
        }
        Some(Position { user, collateral })
    }

    /// Whether any user holds a positive balance of `asset`.
    pub fn has_open_position(&self, asset: AccountId) -> (r: bool)
        requires
            self.wf(),
        ensures
            r == exists|u: AccountId| #[trigger] self.balance(u, asset) > 0,
    {
        let mut i: usize = 0;
        while i < self.position_index.len()
            invariant
                self.wf(),
                i <= self.positions().len(),
                forall|j: int| 0 <= j < i ==> self.balance(#[trigger] self.positions()[j], asset) <= 0,
            decreases self.positions().len() - i,
        {
            let user = self.position_index[i];
            if self.get_position_balance(user, asset) > 0 {
                return true;
            }
            i = i + 1;
        }
        proof {
            assert forall|u: AccountId| #[trigger] self.balance(u, asset) <= 0 by {
                if self.balance(u, asset) > 0 {
                    assert(self.user_asset_list(u).contains(asset));
                    assert(self.positions().contains(u));
                    let j = choose|j: int| 0 <= j < self.positions().len() && self.positions()[j] == u;
                    assert(self.balance(self.positions()[j], asset) <= 0);
                }
            }
        }
        false
    }

    /// The position of every user in the position index, in slot order.
    pub fn get_all_positions(&self) -> (r: Vec<Position>)
        requires
            self.wf(),
        ensures
            r@.len() == self.positions().len(),
            forall|i: int|
                0 <= i < r@.len() ==> (#[trigger] r@[i]).user == self.positions()[i]
                    && r@[i].collateral@ == self.position_items(self.positions()[i]),
    {
        let mut out: Vec<Position> = Vec::new();
        let mut i: usize = 0;
        while i < self.position_index.len()
            invariant
                self.wf(),
                i <= self.positions().len(),
                out@.len() == i,
                forall|j: int|
                    0 <= j < i ==> (#[trigger] out@[j]).user == self.positions()[j]
                        && out@[j].collateral@ == self.position_items(self.positions()[j]),
            decreases self.positions().len() - i,
        {
            let user = self.position_index[i];
            proof {
                assert(self.positions().contains(user)) by {
                    assert(self.positions()[i as int] == user);
                }
            }
            match self.get_position(user) {
                Some(p) => {
                    out.push(p);
                },
                None => {
                    return out;
                },
            }
            i = i + 1;
        }
        out
    }
}

impl VaultState {
    /// Number of assets in `user`'s list, as a `usize`.
    pub fn user_asset_count_usize(&self, user: AccountId) -> (r: usize)
        ensures
            r == self.user_asset_list(user).len(),
    {
        match self.user_assets.get(&user) {
            Some(v) => v.len(),
            None => 0,
        }
    }
}

} // verus!
