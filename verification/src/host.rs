//! The boundary to the Soroban SDK.
//!
//! Everything in this file is trusted: the declared types, the names of what their
//! values hold, and one small function for each SDK function that the library calls.
//!
//! A host that runs out of its metering budget, or that a transaction did not let
//! touch an entry, aborts the whole invocation; control then never comes back to the
//! library. Host values belong to the host that made them: a program has one, and
//! every value here is made, read and stored through the `Env` at hand.
use soroban_sdk::{Address, Env, IntoVal, Symbol, TryFromVal, Val};
use vstd::prelude::*;

use crate::keys::DataKey;
use crate::ledger::{extended, written, Data, Entry, Event, Ledger};

verus! {

// ---------------------------------------------------------------------------------
// Types

/// `soroban_sdk::Env`: the handle to the host that runs the contract.
#[verifier::external_type_specification]
#[verifier::external_body]
pub struct ExEnv(Env);

/// `soroban_sdk::Val`: any host value.
#[verifier::external_type_specification]
#[verifier::external_body]
pub struct ExVal(Val);

/// `soroban_sdk::Address`: an account or a contract.
#[verifier::external_type_specification]
#[verifier::external_body]
pub struct ExAddress(Address);

/// `soroban_sdk::Symbol`: a short identifier.
#[verifier::external_type_specification]
#[verifier::external_body]
pub struct ExSymbol(Symbol);

/// `soroban_sdk::String`: a host string.
#[verifier::external_type_specification]
#[verifier::external_body]
pub struct ExString(soroban_sdk::String);

/// `soroban_sdk::Vec`: a host vector.
#[verifier::external_type_specification]
#[verifier::external_body]
#[verifier::reject_recursive_types(T)]
pub struct ExVec<T>(soroban_sdk::Vec<T>);

/// `soroban_sdk::Map`: a host map.
#[verifier::external_type_specification]
#[verifier::external_body]
#[verifier::reject_recursive_types(K)]
#[verifier::reject_recursive_types(V)]
pub struct ExMap<K, V>(soroban_sdk::Map<K, V>);

// ---------------------------------------------------------------------------------
// What the values of those types hold

/// The persistent entries of the contract that runs in `env`, each with the
/// time-to-live that an access to it finds.
pub uninterp spec fn persistent_entries(env: Env) -> Map<Data, Entry>;

/// The live temporary entries of the contract that runs in `env`.
pub uninterp spec fn temporary_entries(env: Env) -> Map<Data, Entry>;

/// The events published in `env`, oldest first.
pub uninterp spec fn published_events(env: Env) -> Seq<Event>;

/// Whether a contract is running in `env`.
pub uninterp spec fn in_contract(env: Env) -> bool;

/// The network's limit on the time-to-live of an entry.
pub uninterp spec fn max_ttl(env: Env) -> nat;

/// The time-to-live with which the network creates a persistent entry.
pub uninterp spec fn new_persistent_ttl(env: Env) -> nat;

/// The time-to-live with which the network creates a temporary entry.
pub uninterp spec fn new_temporary_ttl(env: Env) -> nat;

/// What a host value holds.
pub uninterp spec fn val_data(v: Val) -> Data;

/// The items of a host vector of arbitrary values.
pub uninterp spec fn list_items(v: soroban_sdk::Vec<Val>) -> Seq<Data>;

/// The items of a host vector of ids. The host does not check their kind, so a vector
/// that came from outside may hold anything.
pub uninterp spec fn id_items(v: soroban_sdk::Vec<u64>) -> Seq<Data>;

/// What a host map holds: a `Data::Record` where all its keys are symbols.
pub uninterp spec fn map_data(m: soroban_sdk::Map<Symbol, Val>) -> Data;

/// All that the contracts of this library say about an `Env`.
pub open spec fn ledger(env: Env) -> Ledger {
    Ledger {
        persistent: persistent_entries(env),
        temporary: temporary_entries(env),
        events: published_events(env),
        in_contract: in_contract(env),
        max_ttl: max_ttl(env),
        new_persistent_ttl: new_persistent_ttl(env),
        new_temporary_ttl: new_temporary_ttl(env),
    }
}

/// Whether `name` can be a symbol: at most 32 characters, each a letter of the English
/// alphabet, a digit or an underscore.
pub open spec fn is_symbol(name: Seq<char>) -> bool {
    &&& name.len() <= 32
    &&& forall|i: int| 0 <= i < name.len() ==> is_symbol_char(#[trigger] name[i])
}

/// Whether `c` may stand in a symbol.
pub open spec fn is_symbol_char(c: char) -> bool {
    ||| 'a' <= c <= 'z'
    ||| 'A' <= c <= 'Z'
    ||| '0' <= c <= '9'
    ||| c == '_'
}

/// Whether `d` is the stored form of a key of this library.
pub open spec fn is_key(d: Data) -> bool {
    exists|key: DataKey| #[trigger] key@ == d
}

/// The data of a list of ids.
pub open spec fn ids_data(s: Seq<u64>) -> Data {
    Data::List(s.map_values(|id: u64| Data::U64(id)))
}

/// Whether `d` is a list of ids.
pub open spec fn is_ids(d: Data) -> bool {
    d matches Data::List(items) && forall|i: int|
        0 <= i < items.len() ==> #[trigger] items[i] is U64
}

/// The ids in `d`.
pub open spec fn ids_of(d: Data) -> Seq<u64> {
    d->List_0.map_values(|item: Data| item->U64_0)
}

/// The ids in a host vector.
pub open spec fn ids(list: soroban_sdk::Vec<u64>) -> Seq<u64> {
    ids_of(Data::List(id_items(list)))
}

/// Whether a host vector holds exactly the ids `s`, in that order.
pub open spec fn holds_ids(list: soroban_sdk::Vec<u64>, s: Seq<u64>) -> bool {
    &&& is_ids(Data::List(id_items(list)))
    &&& ids(list) == s
}

/// A stored list of ids reads back as the ids that were stored, in their order.
pub proof fn law_ids_round_trip(s: Seq<u64>)
    ensures
        is_ids(ids_data(s)),
        ids_of(ids_data(s)) == s,
{
    assert(ids_of(ids_data(s)) =~= s);
}

/// A host vector of ids holds the data of its ids.
pub proof fn lemma_ids_data(list: soroban_sdk::Vec<u64>)
    requires
        is_ids(Data::List(id_items(list))),
    ensures
        ids_data(ids(list)) == Data::List(id_items(list)),
        ids(list).len() == id_items(list).len(),
{
    assert(ids_data(ids(list))->List_0 =~= id_items(list));
}

/// The model of an `Env` is what the `Env` holds.
pub proof fn law_ledger_is_what_env_holds(env: Env)
    ensures
        ledger(env).persistent == persistent_entries(env),
        ledger(env).temporary == temporary_entries(env),
        ledger(env).events == published_events(env),
        ledger(env).in_contract == in_contract(env),
        ledger(env).max_ttl == max_ttl(env),
        ledger(env).new_persistent_ttl == new_persistent_ttl(env),
        ledger(env).new_temporary_ttl == new_temporary_ttl(env),
{
}

/// The data of a list of ids is the list of those ids, one for one and in their order, and
/// it reads back as such.
pub proof fn law_ids_are_stored_one_for_one(s: Seq<u64>, items: Seq<Data>)
    ensures
        ids_data(s) == Data::List(items) <==> items.len() == s.len() && forall|i: int|
            0 <= i < s.len() ==> #[trigger] items[i] == Data::U64(s[i]),
        is_ids(Data::List(items)) <==> forall|i: int|
            0 <= i < items.len() ==> (#[trigger] items[i]) is U64,
        is_ids(Data::List(items)) && ids_of(Data::List(items)) == s <==> items.len() == s.len()
            && forall|i: int| 0 <= i < s.len() ==> #[trigger] items[i] == Data::U64(s[i]),
{
    if items.len() == s.len() && forall|i: int|
        0 <= i < s.len() ==> #[trigger] items[i] == Data::U64(s[i]) {
        assert(ids_data(s)->List_0 =~= items);
        assert(ids_of(Data::List(items)) =~= s);
    }
    if is_ids(Data::List(items)) && ids_of(Data::List(items)) == s {
        assert forall|i: int| 0 <= i < s.len() implies #[trigger] items[i] == Data::U64(s[i]) by {
            assert(ids_of(Data::List(items))[i] == s[i]);
        }
    }
}

/// A host vector holds given ids exactly where its items are those ids, one for one and in
/// their order.
pub proof fn law_held_ids_are_the_items(list: soroban_sdk::Vec<u64>, s: Seq<u64>)
    ensures
        holds_ids(list, s) <==> id_items(list).len() == s.len() && forall|i: int|
            0 <= i < s.len() ==> #[trigger] id_items(list)[i] == Data::U64(s[i]),
        holds_ids(list, s) ==> ids(list) == s,
{
    law_ids_are_stored_one_for_one(s, id_items(list));
}

/// The data of every key is a key.
pub proof fn law_every_key_is_a_key(key: DataKey)
    ensures
        is_key(key@),
{
}

/// A record without fields.
pub open spec fn no_fields() -> Map<Seq<char>, Data> {
    Map::empty()
}

// ---------------------------------------------------------------------------------
// Storage

/// Calls `Persistent::has`, which tells whether the running contract has a persistent
/// entry under the key.
#[verifier::external_body]
pub(crate) fn persistent_has(env: &Env, key: Val) -> (found: bool)
    requires
        in_contract(*env),
        is_key(val_data(key)),
    ensures
        found == persistent_entries(*env).contains_key(val_data(key)),
{
    env.storage().persistent().has(&key)
}

/// Calls `Persistent::get`, which returns the value under the key, or `None` where there
/// is no entry.
#[verifier::external_body]
pub(crate) fn persistent_get(env: &Env, key: Val) -> (found: Option<Val>)
    requires
        in_contract(*env),
        is_key(val_data(key)),
    ensures
        found is Some == persistent_entries(*env).contains_key(val_data(key)),
        found matches Some(v) ==> val_data(v) == persistent_entries(*env)[val_data(key)].value,
{
    env.storage().persistent().get(&key)
}

/// Calls `Persistent::set`, which writes the value under the key. An entry that exists
/// keeps its time-to-live, a new one gets the network's minimum.
#[verifier::external_body]
pub(crate) fn persistent_set(env: &mut Env, key: Val, value: Val)
    requires
        in_contract(*old(env)),
        is_key(val_data(key)),
    ensures
        persistent_entries(*final(env)) == written(
            persistent_entries(*old(env)),
            val_data(key),
            val_data(value),
            new_persistent_ttl(*old(env)),
        ),
        in_contract(*final(env)),
        ledger(*final(env)) == (Ledger {
            persistent: persistent_entries(*final(env)),
            ..ledger(*old(env))
        }),
{
    env.storage().persistent().set(&key, &value)
}

/// Calls `Persistent::remove`, which deletes the entry under the key and does nothing
/// where there is none.
#[verifier::external_body]
pub(crate) fn persistent_remove(env: &mut Env, key: Val)
    requires
        in_contract(*old(env)),
        is_key(val_data(key)),
    ensures
        persistent_entries(*final(env)) == persistent_entries(*old(env)).remove(val_data(key)),
        ledger(*final(env)) == (Ledger {
            persistent: persistent_entries(*final(env)),
            ..ledger(*old(env))
        }),
{
    env.storage().persistent().remove(&key)
}

/// Calls `Persistent::extend_ttl`: an entry with at most `threshold` ledgers left gets
/// `extend_to` of them, clamped to the network's limit. The host rejects a key without
/// an entry and a threshold above the extension.
#[verifier::external_body]
pub(crate) fn persistent_extend_ttl(env: &mut Env, key: Val, threshold: u32, extend_to: u32)
    requires
        in_contract(*old(env)),
        is_key(val_data(key)),
        persistent_entries(*old(env)).contains_key(val_data(key)),
        threshold <= extend_to,
    ensures
        persistent_entries(*final(env)) == extended(
            persistent_entries(*old(env)),
            val_data(key),
            threshold,
            extend_to,
            max_ttl(*old(env)),
        ),
        ledger(*final(env)) == (Ledger {
            persistent: persistent_entries(*final(env)),
            ..ledger(*old(env))
        }),
{
    env.storage().persistent().extend_ttl(&key, threshold, extend_to)
}

/// Calls `Temporary::has`, which tells whether the running contract has a live temporary
/// entry under the key.
#[verifier::external_body]
pub(crate) fn temporary_has(env: &Env, key: Val) -> (found: bool)
    requires
        in_contract(*env),
        is_key(val_data(key)),
    ensures
        found == temporary_entries(*env).contains_key(val_data(key)),
{
    env.storage().temporary().has(&key)
}

/// Calls `Temporary::set`, which writes the value under the key. An entry that exists
/// keeps its time-to-live, a new one gets the network's minimum.
#[verifier::external_body]
pub(crate) fn temporary_set(env: &mut Env, key: Val, value: Val)
    requires
        in_contract(*old(env)),
        is_key(val_data(key)),
    ensures
        temporary_entries(*final(env)) == written(
            temporary_entries(*old(env)),
            val_data(key),
            val_data(value),
            new_temporary_ttl(*old(env)),
        ),
        ledger(*final(env)) == (Ledger {
            temporary: temporary_entries(*final(env)),
            ..ledger(*old(env))
        }),
{
    env.storage().temporary().set(&key, &value)
}

/// Calls `Temporary::remove`, which deletes the entry under the key and does nothing
/// where there is none.
#[verifier::external_body]
pub(crate) fn temporary_remove(env: &mut Env, key: Val)
    requires
        in_contract(*old(env)),
        is_key(val_data(key)),
    ensures
        temporary_entries(*final(env)) == temporary_entries(*old(env)).remove(val_data(key)),
        ledger(*final(env)) == (Ledger {
            temporary: temporary_entries(*final(env)),
            ..ledger(*old(env))
        }),
{
    env.storage().temporary().remove(&key)
}

/// Calls `Temporary::extend_ttl`: an entry with at most `threshold` ledgers left gets
/// `extend_to` of them. The host rejects a key without an entry, a threshold above the
/// extension, and an extension above the network's limit.
#[verifier::external_body]
pub(crate) fn temporary_extend_ttl(env: &mut Env, key: Val, threshold: u32, extend_to: u32)
    requires
        in_contract(*old(env)),
        is_key(val_data(key)),
        temporary_entries(*old(env)).contains_key(val_data(key)),
        threshold <= extend_to,
        extend_to <= max_ttl(*old(env)),
    ensures
        temporary_entries(*final(env)) == extended(
            temporary_entries(*old(env)),
            val_data(key),
            threshold,
            extend_to,
            max_ttl(*old(env)),
        ),
        ledger(*final(env)) == (Ledger {
            temporary: temporary_entries(*final(env)),
            ..ledger(*old(env))
        }),
{
    env.storage().temporary().extend_ttl(&key, threshold, extend_to)
}

// ---------------------------------------------------------------------------------
// Events

/// Calls `Events::publish`, which records one event behind those published before. Lists,
/// maps and long byte strings are no topics.
#[verifier::external_body]
#[allow(deprecated)]
pub(crate) fn publish(env: &mut Env, topics: soroban_sdk::Vec<Val>, data: Val)
    requires
        forall|i: int|
            0 <= i < list_items(topics).len() ==> {
                let topic = #[trigger] list_items(topics)[i];
                topic is Symbol || topic is Address
            },
    ensures
        published_events(*final(env)) == published_events(*old(env)).push(
            Event { topics: list_items(topics), data: val_data(data) },
        ),
        ledger(*final(env)) == (Ledger {
            events: published_events(*final(env)),
            ..ledger(*old(env))
        }),
{
    env.events().publish(topics, data)
}

// ---------------------------------------------------------------------------------
// Host values from plain ones

/// Calls `IntoVal::into_val` for `bool`, which gives the host's form of the boolean.
#[verifier::external_body]
pub(crate) fn bool_val(env: &Env, b: bool) -> (v: Val)
    ensures
        val_data(v) == Data::Bool(b),
{
    b.into_val(env)
}

/// Calls `IntoVal::into_val` for `u32`, which gives the host's form of the number.
#[verifier::external_body]
pub(crate) fn u32_val(env: &Env, n: u32) -> (v: Val)
    ensures
        val_data(v) == Data::U32(n),
{
    n.into_val(env)
}

/// Calls `IntoVal::into_val` for `u64`, which gives the host's form of the number.
#[verifier::external_body]
pub(crate) fn u64_val(env: &Env, n: u64) -> (v: Val)
    ensures
        val_data(v) == Data::U64(n),
{
    n.into_val(env)
}

/// Calls `IntoVal::into_val` for `i128`, which gives the host's form of the number.
#[verifier::external_body]
pub(crate) fn i128_val(env: &Env, n: i128) -> (v: Val)
    ensures
        val_data(v) == Data::I128(n),
{
    n.into_val(env)
}

/// Calls `Symbol::new`, which makes the symbol with the characters of `name`. It panics
/// where `name` cannot be a symbol.
#[verifier::external_body]
pub(crate) fn symbol_val(env: &Env, name: &str) -> (v: Val)
    requires
        is_symbol(name@),
    ensures
        val_data(v) == Data::Symbol(name@),
{
    Symbol::new(env, name).to_val()
}

/// Calls `Address::to_val`, which gives the address as a host value.
#[verifier::external_body]
pub(crate) fn address_val(a: &Address) -> (v: Val)
    ensures
        val_data(v) == Data::Address(*a),
{
    a.to_val()
}

/// Calls `String::to_val`, which gives the string as a host value.
#[verifier::external_body]
pub(crate) fn text_val(s: &soroban_sdk::String) -> (v: Val)
    ensures
        val_data(v) == Data::Text(*s),
{
    s.to_val()
}

/// Calls `Vec::to_val` for a vector of ids, which gives the vector as a host value.
#[verifier::external_body]
pub(crate) fn ids_val(list: &soroban_sdk::Vec<u64>) -> (v: Val)
    ensures
        val_data(v) == Data::List(id_items(*list)),
{
    list.to_val()
}

/// Calls `Vec::to_val` for a vector of values, which gives the vector as a host value.
#[verifier::external_body]
pub(crate) fn list_val(list: &soroban_sdk::Vec<Val>) -> (v: Val)
    ensures
        val_data(v) == Data::List(list_items(*list)),
{
    list.to_val()
}

/// Calls `Map::to_val`, which gives the map as a host value.
#[verifier::external_body]
pub(crate) fn record_val(m: &soroban_sdk::Map<Symbol, Val>) -> (v: Val)
    ensures
        val_data(v) == map_data(*m),
{
    m.to_val()
}

// ---------------------------------------------------------------------------------
// Plain values from host ones. Each conversion panics on a value of another kind.

/// Calls `bool::try_from_val`, which reads a boolean.
#[verifier::external_body]
pub(crate) fn val_bool(env: &Env, v: Val) -> (b: bool)
    requires
        val_data(v) is Bool,
    ensures
        val_data(v) == Data::Bool(b),
{
    bool::try_from_val(env, &v).unwrap()
}

/// Calls `u32::try_from_val`, which reads a 32-bit unsigned number.
#[verifier::external_body]
pub(crate) fn val_u32(env: &Env, v: Val) -> (n: u32)
    requires
        val_data(v) is U32,
    ensures
        val_data(v) == Data::U32(n),
{
    u32::try_from_val(env, &v).unwrap()
}

/// Calls `u64::try_from_val`, which reads a 64-bit unsigned number.
#[verifier::external_body]
pub(crate) fn val_u64(env: &Env, v: Val) -> (n: u64)
    requires
        val_data(v) is U64,
    ensures
        val_data(v) == Data::U64(n),
{
    u64::try_from_val(env, &v).unwrap()
}

/// Calls `i128::try_from_val`, which reads a 128-bit signed number.
#[verifier::external_body]
pub(crate) fn val_i128(env: &Env, v: Val) -> (n: i128)
    requires
        val_data(v) is I128,
    ensures
        val_data(v) == Data::I128(n),
{
    i128::try_from_val(env, &v).unwrap()
}

/// Calls `Address::try_from_val`, which reads an address.
#[verifier::external_body]
pub(crate) fn val_address(env: &Env, v: Val) -> (a: Address)
    requires
        val_data(v) is Address,
    ensures
        val_data(v) == Data::Address(a),
{
    Address::try_from_val(env, &v).unwrap()
}

/// Calls `Vec::try_from_val` for a vector of ids, which checks that the value is a vector
/// and does not look at its items.
#[verifier::external_body]
pub(crate) fn val_ids(env: &Env, v: Val) -> (list: soroban_sdk::Vec<u64>)
    requires
        val_data(v) is List,
    ensures
        val_data(v) == Data::List(id_items(list)),
{
    soroban_sdk::Vec::try_from_val(env, &v).unwrap()
}

/// Calls `Vec::try_from_val` for a vector of values.
#[verifier::external_body]
pub(crate) fn val_list(env: &Env, v: Val) -> (list: soroban_sdk::Vec<Val>)
    requires
        val_data(v) is List,
    ensures
        val_data(v) == Data::List(list_items(list)),
{
    soroban_sdk::Vec::try_from_val(env, &v).unwrap()
}

/// Calls `Map::try_from_val` for a map from symbols to values.
#[verifier::external_body]
pub(crate) fn val_record(env: &Env, v: Val) -> (m: soroban_sdk::Map<Symbol, Val>)
    requires
        val_data(v) is Record,
    ensures
        map_data(m) == val_data(v),
{
    soroban_sdk::Map::try_from_val(env, &v).unwrap()
}

// ---------------------------------------------------------------------------------
// Host vectors of values

/// Calls `Vec::new`, which makes an empty vector.
#[verifier::external_body]
pub(crate) fn list_new(env: &Env) -> (list: soroban_sdk::Vec<Val>)
    ensures
        list_items(list) == Seq::<Data>::empty(),
{
    soroban_sdk::Vec::new(env)
}

/// Calls `Vec::len`. A host vector holds at most `u32::MAX` items.
#[verifier::external_body]
pub(crate) fn list_len(list: &soroban_sdk::Vec<Val>) -> (n: u32)
    ensures
        n == list_items(*list).len(),
{
    list.len()
}

/// Calls `Vec::get`, which returns the item at the position, or `None` where there is
/// none.
#[verifier::external_body]
pub(crate) fn list_get(list: &soroban_sdk::Vec<Val>, i: u32) -> (item: Option<Val>)
    ensures
        item is Some == (i < list_items(*list).len()),
        item matches Some(v) ==> val_data(v) == list_items(*list)[i as int],
{
    list.get(i)
}

/// Calls `Vec::push_back`, which adds one item at the end.
#[verifier::external_body]
pub(crate) fn list_push_back(list: &mut soroban_sdk::Vec<Val>, item: Val)
    requires
        list_items(*old(list)).len() < u32::MAX,
    ensures
        list_items(*final(list)) == list_items(*old(list)).push(val_data(item)),
{
    list.push_back(item)
}

// ---------------------------------------------------------------------------------
// Host vectors of ids

/// Calls `Vec::new`, which makes an empty vector.
#[verifier::external_body]
pub(crate) fn ids_new(env: &Env) -> (list: soroban_sdk::Vec<u64>)
    ensures
        id_items(list) == Seq::<Data>::empty(),
{
    soroban_sdk::Vec::new(env)
}

/// Calls `Vec::len`. A host vector holds at most `u32::MAX` items.
#[verifier::external_body]
pub(crate) fn ids_len(list: &soroban_sdk::Vec<u64>) -> (n: u32)
    ensures
        n == id_items(*list).len(),
{
    list.len()
}

/// Calls `Vec::get`, which returns the item at the position, or `None` where there is
/// none. It panics on an item that is not an id.
#[verifier::external_body]
pub(crate) fn ids_get(list: &soroban_sdk::Vec<u64>, i: u32) -> (item: Option<u64>)
    requires
        i < id_items(*list).len() ==> id_items(*list)[i as int] is U64,
    ensures
        item is Some == (i < id_items(*list).len()),
        item matches Some(id) ==> id_items(*list)[i as int] == Data::U64(id),
{
    list.get(i)
}

/// Calls `Vec::set`, which replaces the item at the position. It panics past the end.
#[verifier::external_body]
pub(crate) fn ids_set(list: &mut soroban_sdk::Vec<u64>, i: u32, item: u64)
    requires
        i < id_items(*old(list)).len(),
    ensures
        id_items(*final(list)) == id_items(*old(list)).update(i as int, Data::U64(item)),
{
    list.set(i, item)
}

/// Calls `Vec::push_back`, which adds one item at the end.
#[verifier::external_body]
pub(crate) fn ids_push_back(list: &mut soroban_sdk::Vec<u64>, item: u64)
    requires
        id_items(*old(list)).len() < u32::MAX,
    ensures
        id_items(*final(list)) == id_items(*old(list)).push(Data::U64(item)),
{
    list.push_back(item)
}

/// Calls `Vec::remove`, which takes out the item at the position and closes the gap, and
/// returns `None` with nothing changed past the end.
#[verifier::external_body]
pub(crate) fn ids_remove(list: &mut soroban_sdk::Vec<u64>, i: u32) -> (done: Option<()>)
    ensures
        done is Some == (i < id_items(*old(list)).len()),
        id_items(*final(list)) == (if i < id_items(*old(list)).len() {
            id_items(*old(list)).remove(i as int)
        } else {
            id_items(*old(list))
        }),
{
    list.remove(i)
}

/// Calls `Vec::first_index_of`, which returns the first position that holds the item, or
/// `None` where no position does.
#[verifier::external_body]
pub(crate) fn ids_first_index_of(list: &soroban_sdk::Vec<u64>, item: u64) -> (at: Option<u32>)
    ensures
        at is Some == id_items(*list).contains(Data::U64(item)),
        at matches Some(i) ==> {
            &&& i < id_items(*list).len()
            &&& id_items(*list)[i as int] == Data::U64(item)
            &&& forall|j: int| 0 <= j < i ==> id_items(*list)[j] != Data::U64(item)
        },
{
    list.first_index_of(item)
}

// ---------------------------------------------------------------------------------
// Host maps from symbols

/// Calls `Map::new`, which makes an empty map.
#[verifier::external_body]
pub(crate) fn record_new(env: &Env) -> (m: soroban_sdk::Map<Symbol, Val>)
    ensures
        map_data(m) == Data::Record(no_fields()),
{
    soroban_sdk::Map::new(env)
}

/// Calls `Map::set`, which puts the value under the symbol `name`.
#[verifier::external_body]
pub(crate) fn record_set(m: &mut soroban_sdk::Map<Symbol, Val>, name: &str, value: Val)
    requires
        is_symbol(name@),
        map_data(*old(m)) is Record,
    ensures
        map_data(*final(m)) == Data::Record(
            map_data(*old(m))->Record_0.insert(name@, val_data(value)),
        ),
{
    let key = Symbol::new(m.env(), name);
    m.set(key, value)
}

/// Calls `Map::get`, which returns the value under the symbol `name`, or `None` where
/// there is none.
#[verifier::external_body]
pub(crate) fn record_get(m: &soroban_sdk::Map<Symbol, Val>, name: &str) -> (value: Option<Val>)
    requires
        is_symbol(name@),
        map_data(*m) is Record,
    ensures
        value is Some == map_data(*m)->Record_0.contains_key(name@),
        value matches Some(v) ==> val_data(v) == map_data(*m)->Record_0[name@],
{
    m.get(Symbol::new(m.env(), name))
}

// ---------------------------------------------------------------------------------
// Copies of handles

/// `Address::clone` gives another handle to the same address.
pub assume_specification[ <soroban_sdk::Address as Clone>::clone ](
    a: &soroban_sdk::Address,
) -> (copy: soroban_sdk::Address)
    ensures
        copy == *a,
;

/// `String::clone` gives another handle to the same string.
pub assume_specification[ <soroban_sdk::String as Clone>::clone ](
    s: &soroban_sdk::String,
) -> (copy: soroban_sdk::String)
    ensures
        copy == *s,
;

} // verus!
