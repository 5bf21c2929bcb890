//! Versioned storage migration: markers, resumable progress and legacy entries.
use soroban_sdk::Env;
use vstd::prelude::*;

use crate::host::{bool_val, id_items, ledger, persistent_entries, val_bool, val_ids};
use crate::keys::DataKey;
use crate::ledger::{Data, Ledger};
use crate::store::{bump_entry_ttl, discard, load, store};
use crate::types::{
    law_progress_round_trip, progress_of, progress_val, val_progress, MigrationProgress,
};

verus! {

impl Ledger {
    /// How far the migration to a version has come; one that has not started is at the
    /// beginning of its first phase.
    pub open spec fn migration_progress(self, version: soroban_sdk::String) -> MigrationProgress {
        if self.has(DataKey::MigrationCursor(version)) {
            progress_of(self.value(DataKey::MigrationCursor(version)))
        } else {
            MigrationProgress { phase: 0, cursor: 0 }
        }
    }
}

/// A migration resumes where its progress was noted, and at the beginning once that is
/// cleared.
pub proof fn law_progress_follows_writes(
    l: Ledger,
    version: soroban_sdk::String,
    progress: MigrationProgress,
)
    ensures
        l.put(DataKey::MigrationCursor(version), progress@).migration_progress(version)
            == progress,
        l.put(DataKey::MigrationCursor(version), progress@).fit(
            DataKey::MigrationCursor(version),
        ),
        l.remove(DataKey::MigrationCursor(version)).migration_progress(version)
            == (MigrationProgress { phase: 0, cursor: 0 }),
{
    law_progress_round_trip(progress);
}

/// The progress of a migration is the marker in its entry, and the beginning without one.
pub proof fn law_progress_is_the_stored_marker(
    l: Ledger,
    version: soroban_sdk::String,
    phase: u32,
    cursor: u64,
)
    ensures
        l.get(DataKey::MigrationCursor(version)) is None ==> {
            &&& l.migration_progress(version).phase == 0
            &&& l.migration_progress(version).cursor == 0
        },
        l.get(DataKey::MigrationCursor(version)) == Some(
            (MigrationProgress { phase, cursor })@,
        ) ==> {
            &&& l.migration_progress(version).phase == phase
            &&& l.migration_progress(version).cursor == cursor
        },
{
    law_progress_round_trip(MigrationProgress { phase, cursor });
}

/// Mark the migration to `version` as done.
pub fn set_migration_done(env: &mut Env, version: &soroban_sdk::String)
    requires
        ledger(*old(env)).in_contract,
    ensures
        ledger(*final(env)) == ledger(*old(env)).put(
            DataKey::MigrationDone(*version),
            Data::Bool(true),
        ),
{
    let key = DataKey::MigrationDone(version.clone());
    let v = bool_val(env, true);
    store(env, &key, v);
}

/// Whether the migration to `version` is done.
pub fn is_migration_done(env: &mut Env, version: &soroban_sdk::String) -> (done: bool)
    requires
        ledger(*old(env)).in_contract,
        ledger(*old(env)).fit(DataKey::MigrationDone(*version)),
    ensures
        done == ledger(*old(env)).flag(DataKey::MigrationDone(*version)),
        ledger(*final(env)) == ledger(*old(env)).flag_read(DataKey::MigrationDone(*version)),
{
    let key = DataKey::MigrationDone(version.clone());
    let done = match load(env, &key) {
        Some(v) => val_bool(env, v),
        None => false,
    };
    if done {
        bump_entry_ttl(env, &key);
    }
    done
}

/// Load the resumable migration progress for `version` (phase 0, cursor 0 when the
/// migration has not started yet).
pub fn get_migration_progress(env: &Env, version: &soroban_sdk::String) -> (progress:
    MigrationProgress)
    requires
        ledger(*env).in_contract,
        ledger(*env).fit(DataKey::MigrationCursor(*version)),
    ensures
        progress == ledger(*env).migration_progress(*version),
{
    match load(env, &DataKey::MigrationCursor(version.clone())) {
        Some(v) => val_progress(env, v),
        None => MigrationProgress { phase: 0, cursor: 0 },
    }
}

/// Note how far the migration to `version` has come.
pub fn set_migration_progress(
    env: &mut Env,
    version: &soroban_sdk::String,
    progress: &MigrationProgress,
)
    requires
        ledger(*old(env)).in_contract,
    ensures
        ledger(*final(env)) == ledger(*old(env)).put(
            DataKey::MigrationCursor(*version),
            progress@,
        ),
        ledger(*final(env)).migration_progress(*version) == *progress,
{
    proof {
        law_progress_follows_writes(ledger(*env), *version, *progress);
    }
    let key = DataKey::MigrationCursor(version.clone());
    let v = progress_val(env, progress);
    store(env, &key, v);
}

/// Forget how far the migration to `version` has come.
pub fn clear_migration_progress(env: &mut Env, version: &soroban_sdk::String)
    requires
        ledger(*old(env)).in_contract,
    ensures
        ledger(*final(env)) == ledger(*old(env)).remove(DataKey::MigrationCursor(*version)),
{
    discard(env, &DataKey::MigrationCursor(version.clone()));
}

/// Read-and-delete a legacy monolithic index entry. Returns `None` when the key does not
/// exist (already migrated or never written). Used exclusively by the storage migration.
pub fn take_legacy_index_vec(env: &mut Env, key: &DataKey) -> (taken: Option<soroban_sdk::Vec<u64>>)
    requires
        ledger(*old(env)).in_contract,
        ledger(*old(env)).has(*key) ==> ledger(*old(env)).value(*key) is List,
    ensures
        taken is Some == ledger(*old(env)).has(*key),
        taken matches Some(list) ==> Data::List(id_items(list)) == ledger(*old(env)).value(*key),
        taken is Some <==> persistent_entries(*old(env)).contains_key(key@),
        taken matches Some(list) ==> Data::List(id_items(list)) == persistent_entries(
            *old(env),
        )[key@].value,
        !persistent_entries(*final(env)).contains_key(key@),
        ledger(*final(env)) == ledger(*old(env)).remove(*key),
        !ledger(*final(env)).has(*key),
{
    match load(env, key) {
        Some(v) => {
            let list = val_ids(env, v);
            discard(env, key);
            Some(list)
        },
        None => {
            assert(ledger(*env) =~= ledger(*env).remove(*key));
            None
        },
    }
}

} // verus!
