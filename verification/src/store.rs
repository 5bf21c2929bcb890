//! Access to the persistent entries by key.
use soroban_sdk::{Env, Val};
use vstd::prelude::*;

use crate::host::{
    ledger, persistent_extend_ttl, persistent_get, persistent_has, persistent_remove,
    persistent_set, val_data,
};
use crate::keys::{key_val, DataKey};
use crate::ledger::{LEDGER_TTL_BUMP, LEDGER_TTL_THRESHOLD};

verus! {

/// Extend the life of the entry under `key`.
pub fn bump_entry_ttl(env: &mut Env, key: &DataKey)
    requires
        ledger(*old(env)).in_contract,
        ledger(*old(env)).has(*key),
    ensures
        ledger(*final(env)) == ledger(*old(env)).touch(*key),
{
    let k = key_val(env, key);
    persistent_extend_ttl(env, k, LEDGER_TTL_THRESHOLD, LEDGER_TTL_BUMP);
}

/// Whether there is an entry under `key`.
pub(crate) fn is_stored(env: &Env, key: &DataKey) -> (found: bool)
    requires
        ledger(*env).in_contract,
    ensures
        found == ledger(*env).has(*key),
{
    persistent_has(env, key_val(env, key))
}

/// The value of the entry under `key`, where there is one.
pub(crate) fn load(env: &Env, key: &DataKey) -> (found: Option<Val>)
    requires
        ledger(*env).in_contract,
    ensures
        found is Some == ledger(*env).has(*key),
        found matches Some(v) ==> val_data(v) == ledger(*env).value(*key),
{
    persistent_get(env, key_val(env, key))
}

/// The value of the entry under `key`, where there is one, whose life is then extended.
pub(crate) fn load_alive(env: &mut Env, key: &DataKey) -> (found: Option<Val>)
    requires
        ledger(*old(env)).in_contract,
    ensures
        found is Some == ledger(*old(env)).has(*key),
        found matches Some(v) ==> val_data(v) == ledger(*old(env)).value(*key),
        ledger(*final(env)) == ledger(*old(env)).touch(*key),
{
    let found = load(env, key);
    if found.is_some() {
        bump_entry_ttl(env, key);
    }
    found
}

/// Writes `value` under `key` and extends the entry's life.
pub(crate) fn store(env: &mut Env, key: &DataKey, value: Val)
    requires
        ledger(*old(env)).in_contract,
    ensures
        ledger(*final(env)) == ledger(*old(env)).put(*key, val_data(value)),
{
    let k = key_val(env, key);
    persistent_set(env, k, value);
    bump_entry_ttl(env, key);
    assert(ledger(*env).persistent =~= ledger(*old(env)).put(*key, val_data(value)).persistent);
}

/// Deletes the entry under `key`.
pub(crate) fn discard(env: &mut Env, key: &DataKey)
    requires
        ledger(*old(env)).in_contract,
    ensures
        ledger(*final(env)) == ledger(*old(env)).remove(*key),
{
    let k = key_val(env, key);
    persistent_remove(env, k);
}

} // verus!
