//! The active-listings index.
use marketplace_storage::active::{
    active_listings_len, add_to_active_listings, get_active_listing_ids,
    get_active_listing_ids_range, remove_from_active_listings,
};
use marketplace_storage::index::index_append;
use marketplace_storage::keys::IndexId;
use soroban_sdk::testutils::storage::Persistent as _;
use soroban_sdk::testutils::{ContractFunctionSet, EnvTestConfig};
use soroban_sdk::{Env, Symbol, Val};

/// A contract without functions of its own.
struct Empty;

impl ContractFunctionSet for Empty {
    fn call(&self, _func: &str, _env: Env, _args: &[Val]) -> Option<Val> {
        None
    }
}

/// Runs `f` as a contract on a fresh ledger.
fn in_contract<T>(f: impl FnOnce(&mut Env) -> T) -> T {
    let env = Env::new_with_config(EnvTestConfig {
        capture_snapshot_at_drop: false,
    });
    env.cost_estimate().budget().reset_unlimited();
    env.cost_estimate().disable_resource_limits();
    let id = env.register(Empty, ());
    let mut handle = env.clone();
    env.as_contract(&id, || f(&mut handle))
}

fn active(env: &mut Env) -> Vec<u64> {
    get_active_listing_ids(env).iter().collect()
}

/// The position noted for a listing.
fn noted(env: &Env, listing_id: u64) -> Option<u32> {
    let key = (Symbol::new(env, "ActiveListingPos"), listing_id);
    env.storage().persistent().get(&key)
}

#[test]
fn listings_are_added_at_the_end() {
    in_contract(|env| {
        assert_eq!(active_listings_len(env), 0);
        for id in [30, 10, 20] {
            add_to_active_listings(env, id);
        }
        assert_eq!(active(env), vec![30, 10, 20]);
        assert_eq!(active_listings_len(env), 3);
        assert_eq!(noted(env, 30), Some(0));
        assert_eq!(noted(env, 20), Some(2));
        assert_eq!(noted(env, 99), None);
    });
}

#[test]
fn adding_twice_adds_once() {
    in_contract(|env| {
        add_to_active_listings(env, 1);
        add_to_active_listings(env, 2);
        add_to_active_listings(env, 1);
        assert_eq!(active(env), vec![1, 2]);
    });
}

#[test]
fn removal_swaps_the_last_listing_in() {
    in_contract(|env| {
        for id in 1..=4 {
            add_to_active_listings(env, id);
        }
        remove_from_active_listings(env, 2);
        assert_eq!(active(env), vec![1, 4, 3]);
        assert_eq!(noted(env, 4), Some(1));
        assert_eq!(noted(env, 2), None);
        remove_from_active_listings(env, 3);
        assert_eq!(active(env), vec![1, 4]);
        assert_eq!(noted(env, 3), None);
    });
}

#[test]
fn removing_an_absent_listing_changes_nothing() {
    in_contract(|env| {
        add_to_active_listings(env, 1);
        remove_from_active_listings(env, 2);
        assert_eq!(active(env), vec![1]);
    });
}

#[test]
fn removal_undoes_an_addition() {
    in_contract(|env| {
        for id in 1..=3 {
            add_to_active_listings(env, id);
        }
        add_to_active_listings(env, 9);
        remove_from_active_listings(env, 9);
        assert_eq!(active(env), vec![1, 2, 3]);
    });
}

#[test]
fn removing_all_leaves_no_entry() {
    in_contract(|env| {
        for id in 1..=3 {
            add_to_active_listings(env, id);
        }
        for id in [2, 3, 1] {
            remove_from_active_listings(env, id);
        }
        assert_eq!(active(env), Vec::<u64>::new());
        assert_eq!(env.storage().persistent().all().len(), 0);
    });
}

#[test]
fn a_removed_listing_can_come_back() {
    in_contract(|env| {
        for id in 1..=3 {
            add_to_active_listings(env, id);
        }
        remove_from_active_listings(env, 1);
        add_to_active_listings(env, 1);
        assert_eq!(active(env), vec![3, 2, 1]);
    });
}

#[test]
fn positions_stay_right_across_pages() {
    in_contract(|env| {
        for id in 1..=120 {
            add_to_active_listings(env, id);
        }
        for id in [5, 119, 100, 120, 1] {
            remove_from_active_listings(env, id);
        }
        let ids = active(env);
        assert_eq!(ids.len(), 115);
        for (pos, id) in ids.iter().enumerate() {
            assert_eq!(noted(env, *id), Some(pos as u32));
        }
        let mut sorted = ids.clone();
        sorted.sort();
        let want: Vec<u64> = (1..=120)
            .filter(|n| ![5, 119, 100, 120, 1].contains(n))
            .collect();
        assert_eq!(sorted, want);
    });
}

#[test]
fn a_range_is_a_part_of_the_index() {
    in_contract(|env| {
        for id in 1..=110 {
            add_to_active_listings(env, id);
        }
        let part: Vec<u64> = get_active_listing_ids_range(env, 98, 5).iter().collect();
        assert_eq!(part, vec![99, 100, 101, 102, 103]);
        let end: Vec<u64> = get_active_listing_ids_range(env, 109, 5).iter().collect();
        assert_eq!(end, vec![110]);
        assert_eq!(get_active_listing_ids_range(env, 110, 5).len(), 0);
    });
}

#[test]
fn a_listing_that_stands_elsewhere_is_not_removed() {
    in_contract(|env| {
        add_to_active_listings(env, 1);
        add_to_active_listings(env, 2);
        let key = (Symbol::new(env, "ActiveListingPos"), 7u64);
        // A position whose slot holds another listing.
        env.storage().persistent().set(&key, &0u32);
        remove_from_active_listings(env, 7);
        assert_eq!(active(env), vec![1, 2]);
        assert_eq!(noted(env, 7), Some(0));
        // A position past the end.
        env.storage().persistent().set(&key, &50u32);
        remove_from_active_listings(env, 7);
        assert_eq!(active(env), vec![1, 2]);
        assert_eq!(noted(env, 7), Some(50));
    });
}

#[test]
fn other_indexes_leave_the_active_listings_alone() {
    in_contract(|env| {
        add_to_active_listings(env, 1);
        index_append(env, &IndexId::ListingOffers(1), 8);
        assert_eq!(active(env), vec![1]);
        assert_eq!(noted(env, 8), None);
    });
}
