//! Contract upgrades and storage-schema migrations.
use vstd::prelude::*;

use crate::vault::errors::VaultError;
use crate::vault::storage::VaultState;

verus! {

/// Contract version recorded by an upgrade.
pub const CURRENT_CONTRACT_VERSION: u32 = 2;

/// Newest storage schema a migration can reach.
pub const CURRENT_STORAGE_SCHEMA_VERSION: u32 = 2;

/// The recorded contract version (or the default).
pub fn get_contract_version(state: &VaultState) -> (r: u32)
    ensures
        r == (match state.contract_version {
            Some(v) => v,
            None => crate::vault::storage::DEFAULT_CONTRACT_VERSION,
        }),
{
    state.get_contract_version()
}

/// The recorded storage schema version (or the default).
pub fn get_storage_schema_version(state: &VaultState) -> (r: u32)
    ensures
        r == (match state.storage_schema_version {
            Some(v) => v,
            None => crate::vault::storage::DEFAULT_STORAGE_SCHEMA_VERSION,
        }),
{
    state.get_storage_schema_version()
}

/// Records that the contract code was upgraded (administrator only; the host
/// installs the new code) and returns the version recorded before.
/// `NotInitialized` without an administrator, leaving the state unchanged.
pub fn upgrade(state: &mut VaultState) -> (r: Result<u32, VaultError>)
    ensures
        r == (if old(state).admin is None {
            Err(VaultError::NotInitialized)
        } else {
            Ok::<u32, VaultError>(old(state).get_contract_version_spec())
        }),
        r is Ok ==> *final(state) == (VaultState { contract_version: Some(CURRENT_CONTRACT_VERSION), ..*old(state) }),
        r is Err ==> *final(state) == *old(state),
{
    if state.get_admin().is_none() {
        return Err(VaultError::NotInitialized);
    }
    let old_version = state.get_contract_version();
    state.set_contract_version(CURRENT_CONTRACT_VERSION);
    Ok(old_version)
}

/// One migration step between consecutive schema versions; only 1 → 2 (a
/// no-op that keeps every stored value) exists.
pub fn migrate_step(from: u32, to: u32) -> (r: Result<(), VaultError>)
    ensures
        r == (if from == 1 && to == 2 {
            Ok::<(), VaultError>(())
        } else {
            Err(VaultError::MigrationSkipped)
        }),
{
    if from == 1 && to == 2 {
        Ok(())
    } else {
        Err(VaultError::MigrationSkipped)
    }
}

/// Migrates the storage schema step by step up to `target` (administrator
/// only) and returns the version it started from.
///
/// Errors, leaving the state unchanged, in this order: `NotInitialized`;
/// `MigrationAlreadyApplied` when `target` is the current version;
/// `MigrationOutOfOrder` when it is older; `MigrationSkipped` when it is
/// beyond the newest schema or a step between them does not exist.
pub fn migrate(state: &mut VaultState, target_storage_schema_version: u32) -> (r: Result<u32, VaultError>)
    ensures
        ({
            let current = old(state).get_storage_schema_version_spec();
            r == (if old(state).admin is None {
                Err(VaultError::NotInitialized)
            } else if target_storage_schema_version == current {
                Err(VaultError::MigrationAlreadyApplied)
            } else if target_storage_schema_version < current {
                Err(VaultError::MigrationOutOfOrder)
            } else if target_storage_schema_version > CURRENT_STORAGE_SCHEMA_VERSION {
                Err(VaultError::MigrationSkipped)
            } else if !(current == 1 && target_storage_schema_version == 2) {
                Err(VaultError::MigrationSkipped)
            } else {
                Ok::<u32, VaultError>(current)
            })
        }),
        r is Ok ==> *final(state) == (VaultState { storage_schema_version: Some(target_storage_schema_version), ..*old(state) }),
        r is Err ==> *final(state) == *old(state),
{
    if state.get_admin().is_none() {
        return Err(VaultError::NotInitialized);
    }
    let current = state.get_storage_schema_version();
    if target_storage_schema_version == current {
        return Err(VaultError::MigrationAlreadyApplied);
    }
    if target_storage_schema_version < current {
        return Err(VaultError::MigrationOutOfOrder);
    }
    if target_storage_schema_version > CURRENT_STORAGE_SCHEMA_VERSION {
        return Err(VaultError::MigrationSkipped);
    }
    let mut version = current;
    while version < target_storage_schema_version
        invariant
            current <= version <= target_storage_schema_version,
            current < target_storage_schema_version <= 2,
            version > current ==> (current == 1 && version == 2),
            current == old(state).get_storage_schema_version_spec(),
            old(state).admin is Some,
            *state == *old(state),
        decreases target_storage_schema_version - version,
    {
        let next = version + 1;
        if let Err(e) = migrate_step(version, next) {
            return Err(e);
        }
        version = next;
    }
    state.set_storage_schema_version(version);
    Ok(current)
}

impl VaultState {
    /// The recorded contract version, or the default.
    pub open spec fn get_contract_version_spec(&self) -> u32 {
        match self.contract_version {
            Some(v) => v,
            None => crate::vault::storage::DEFAULT_CONTRACT_VERSION,
        }
    }

    /// The recorded storage schema version, or the default.
    pub open spec fn get_storage_schema_version_spec(&self) -> u32 {
        match self.storage_schema_version {
            Some(v) => v,
            None => crate::vault::storage::DEFAULT_STORAGE_SCHEMA_VERSION,
        }
    }
}

} // verus!
