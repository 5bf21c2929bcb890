//! Reentrancy guards.
use marketplace_storage::ledger::REENTRANCY_LOCK_TTL;
use marketplace_storage::locks::{
    acquire_auction_lock, acquire_listing_lock, release_auction_lock, release_listing_lock,
};
use soroban_sdk::testutils::storage::{Persistent as _, Temporary as _};
use soroban_sdk::testutils::{ContractFunctionSet, EnvTestConfig, Ledger as _};
use soroban_sdk::{Env, Symbol, Val};

/// A contract without functions of its own.
struct Empty;

impl ContractFunctionSet for Empty {
    fn call(&self, _func: &str, _env: Env, _args: &[Val]) -> Option<Val> {
        None
    }
}

/// Runs `f` as a contract on a fresh ledger.
fn in_contract<T>(f: impl FnOnce(&mut Env) -> T) -> T {
    let env = Env::new_with_config(EnvTestConfig {
        capture_snapshot_at_drop: false,
    });
    env.cost_estimate().budget().reset_unlimited();
    env.cost_estimate().disable_resource_limits();
    let id = env.register(Empty, ());
    let mut handle = env.clone();
    env.as_contract(&id, || f(&mut handle))
}

#[test]
fn a_lock_is_taken_once() {
    in_contract(|env| {
        assert!(acquire_listing_lock(env, 1));
        assert!(!acquire_listing_lock(env, 1));
        release_listing_lock(env, 1);
        assert!(acquire_listing_lock(env, 1));
    });
}

#[test]
fn an_auction_lock_is_taken_once() {
    in_contract(|env| {
        assert!(acquire_auction_lock(env, 1));
        assert!(!acquire_auction_lock(env, 1));
        release_auction_lock(env, 1);
        assert!(acquire_auction_lock(env, 1));
    });
}

#[test]
fn locks_are_independent() {
    in_contract(|env| {
        assert!(acquire_listing_lock(env, 1));
        assert!(acquire_listing_lock(env, 2));
        assert!(acquire_auction_lock(env, 1));
        release_auction_lock(env, 1);
        assert!(!acquire_listing_lock(env, 1));
        release_listing_lock(env, 2);
        assert!(!acquire_listing_lock(env, 1));
        assert!(acquire_listing_lock(env, 2));
    });
}

#[test]
fn releasing_a_free_lock_changes_nothing() {
    in_contract(|env| {
        release_listing_lock(env, 1);
        release_auction_lock(env, 1);
        assert_eq!(env.storage().temporary().all().len(), 0);
    });
}

#[test]
fn a_lock_is_a_temporary_entry_of_its_own_lifetime() {
    in_contract(|env| {
        let before = env.storage().persistent().all().len();
        acquire_listing_lock(env, 9);
        acquire_auction_lock(env, 9);
        let listing = (Symbol::new(env, "ListingLock"), 9u64);
        let auction = (Symbol::new(env, "AuctionLock"), 9u64);
        assert_eq!(env.storage().temporary().get(&listing), Some(true));
        assert_eq!(env.storage().temporary().get(&auction), Some(true));
        assert_eq!(env.storage().temporary().get_ttl(&listing), REENTRANCY_LOCK_TTL);
        assert_eq!(env.storage().temporary().get_ttl(&auction), REENTRANCY_LOCK_TTL);
        assert_eq!(env.storage().persistent().all().len(), before);
        assert_eq!(REENTRANCY_LOCK_TTL, 100);
        release_listing_lock(env, 9);
        release_auction_lock(env, 9);
        assert_eq!(env.storage().temporary().all().len(), 0);
    });
}

#[test]
fn a_lock_keeps_a_longer_life_of_the_network() {
    in_contract(|env| {
        env.ledger().set_min_temp_entry_ttl(500);
        acquire_listing_lock(env, 9);
        let key = (Symbol::new(env, "ListingLock"), 9u64);
        assert_eq!(env.storage().temporary().get_ttl(&key), 499);
    });
}

#[test]
fn an_expired_lock_is_free() {
    in_contract(|env| {
        let start = env.ledger().sequence();
        assert!(acquire_listing_lock(env, 1));
        env.ledger().set_sequence_number(start + REENTRANCY_LOCK_TTL);
        assert!(!acquire_listing_lock(env, 1));
        env.ledger().set_sequence_number(start + REENTRANCY_LOCK_TTL + 1);
        assert!(acquire_listing_lock(env, 1));
    });
}
