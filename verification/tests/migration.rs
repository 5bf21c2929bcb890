//! Migration markers, progress and legacy entries.
use marketplace_storage::keys::DataKey;
use marketplace_storage::migration::{
    clear_migration_progress, get_migration_progress, is_migration_done, set_migration_done,
    set_migration_progress, take_legacy_index_vec,
};
use marketplace_storage::types::MigrationProgress;
use soroban_sdk::testutils::{Address as _, ContractFunctionSet, EnvTestConfig};
use soroban_sdk::{Address, Env, String, Symbol, Val};

/// A contract without functions of its own.
struct Empty;

impl ContractFunctionSet for Empty {
    fn call(&self, _func: &str, _env: Env, _args: &[Val]) -> Option<Val> {
        None
    }
}

/// Runs `f` as a contract on a fresh ledger.
fn in_contract<T>(f: impl FnOnce(&mut Env) -> T) -> T {
    let env = Env::new_with_config(EnvTestConfig {
        capture_snapshot_at_drop: false,
    });
    env.cost_estimate().budget().reset_unlimited();
    env.cost_estimate().disable_resource_limits();
    let id = env.register(Empty, ());
    let mut handle = env.clone();
    env.as_contract(&id, || f(&mut handle))
}

#[test]
fn a_migration_is_done_once_marked() {
    in_contract(|env| {
        let version = String::from_str(env, "1.1.0");
        let other = String::from_str(env, "1.2.0");
        assert!(!is_migration_done(env, &version));
        set_migration_done(env, &version);
        assert!(is_migration_done(env, &version));
        assert!(!is_migration_done(env, &other));
        // The text counts, not the handle.
        assert!(is_migration_done(env, &String::from_str(env, "1.1.0")));
    });
}

#[test]
fn progress_starts_at_the_beginning_and_is_kept() {
    in_contract(|env| {
        let version = String::from_str(env, "1.1.0");
        let other = String::from_str(env, "2.0.0");
        let progress = get_migration_progress(env, &version);
        assert_eq!((progress.phase, progress.cursor), (0, 0));
        set_migration_progress(
            env,
            &version,
            &MigrationProgress {
                phase: 3,
                cursor: u64::MAX,
            },
        );
        let progress = get_migration_progress(env, &version);
        assert_eq!((progress.phase, progress.cursor), (3, u64::MAX));
        let elsewhere = get_migration_progress(env, &other);
        assert_eq!((elsewhere.phase, elsewhere.cursor), (0, 0));
        clear_migration_progress(env, &version);
        let progress = get_migration_progress(env, &version);
        assert_eq!((progress.phase, progress.cursor), (0, 0));
    });
}

#[test]
fn a_marker_is_no_progress() {
    in_contract(|env| {
        let version = String::from_str(env, "1.1.0");
        set_migration_progress(env, &version, &MigrationProgress { phase: 1, cursor: 2 });
        assert!(!is_migration_done(env, &version));
        set_migration_done(env, &version);
        let progress = get_migration_progress(env, &version);
        assert_eq!((progress.phase, progress.cursor), (1, 2));
    });
}

#[test]
fn a_legacy_list_is_taken_once() {
    in_contract(|env| {
        let key = (Symbol::new(env, "ActiveListings"),);
        let mut list: soroban_sdk::Vec<u64> = soroban_sdk::Vec::new(env);
        for id in [4, 9, u64::MAX] {
            list.push_back(id);
        }
        env.storage().persistent().set(&key, &list);
        let taken = take_legacy_index_vec(env, &DataKey::ActiveListings).unwrap();
        assert_eq!(taken.iter().collect::<Vec<u64>>(), vec![4, 9, u64::MAX]);
        assert!(!env.storage().persistent().has(&key));
        assert!(take_legacy_index_vec(env, &DataKey::ActiveListings).is_none());
    });
}

#[test]
fn an_empty_legacy_list_is_taken_too() {
    in_contract(|env| {
        let key = (Symbol::new(env, "ListingOffers"), 5u64);
        let list: soroban_sdk::Vec<u64> = soroban_sdk::Vec::new(env);
        env.storage().persistent().set(&key, &list);
        let taken = take_legacy_index_vec(env, &DataKey::ListingOffers(5)).unwrap();
        assert_eq!(taken.len(), 0);
        assert!(take_legacy_index_vec(env, &DataKey::ListingOffers(5)).is_none());
    });
}

#[test]
fn taking_one_legacy_list_leaves_the_others() {
    in_contract(|env| {
        let artist = Address::generate(env);
        let key = (Symbol::new(env, "ArtistListings"), artist.clone());
        let mut list: soroban_sdk::Vec<u64> = soroban_sdk::Vec::new(env);
        list.push_back(1);
        env.storage().persistent().set(&key, &list);
        assert!(take_legacy_index_vec(env, &DataKey::ArtistAuctions(artist.clone())).is_none());
        let other = Address::generate(env);
        assert!(take_legacy_index_vec(env, &DataKey::ArtistListings(other)).is_none());
        assert!(take_legacy_index_vec(env, &DataKey::ArtistListings(artist)).is_some());
    });
}

#[test]
fn a_copied_key_names_the_same_entry() {
    in_contract(|env| {
        let artist = Address::generate(env);
        let key = DataKey::OffererOffers(artist.clone());
        let raw = (Symbol::new(env, "OffererOffers"), artist);
        let mut list: soroban_sdk::Vec<u64> = soroban_sdk::Vec::new(env);
        list.push_back(3);
        env.storage().persistent().set(&raw, &list);
        assert!(take_legacy_index_vec(env, &key.clone()).is_some());
        assert!(take_legacy_index_vec(env, &key).is_none());
    });
}
