//! The paged index engine and the append-only collections.
use marketplace_storage::collections::{
    add_artist_auction_id, add_artist_listing_id, add_listing_offer_id, add_offerer_offer_id,
    get_artist_auction_ids, get_artist_listing_ids, load_listing_offers, load_offerer_offers,
};
use marketplace_storage::index::{
    index_all, index_append, index_get, index_len, index_load_page, index_range,
    index_swap_remove, INDEX_PAGE_SIZE,
};
use marketplace_storage::keys::IndexId;
use soroban_sdk::testutils::storage::Persistent as _;
use soroban_sdk::testutils::{Address as _, ContractFunctionSet, EnvTestConfig};
use soroban_sdk::{Address, Env, Val};

/// A contract without functions of its own.
struct Empty;

impl ContractFunctionSet for Empty {
    fn call(&self, _func: &str, _env: Env, _args: &[Val]) -> Option<Val> {
        None
    }
}

/// Runs `f` as a contract on a fresh ledger.
fn in_contract<T>(f: impl FnOnce(&mut Env) -> T) -> T {
    let env = Env::new_with_config(EnvTestConfig {
        capture_snapshot_at_drop: false,
    });
    env.cost_estimate().budget().reset_unlimited();
    env.cost_estimate().disable_resource_limits();
    let id = env.register(Empty, ());
    let mut handle = env.clone();
    env.as_contract(&id, || f(&mut handle))
}

fn plain(list: &soroban_sdk::Vec<u64>) -> Vec<u64> {
    list.iter().collect()
}

/// The ids `1..=n` in the active-listings index.
fn filled(env: &mut Env, n: u64) -> IndexId {
    for id in 1..=n {
        index_append(env, &IndexId::ActiveListings, id);
    }
    IndexId::ActiveListings
}

/// Number of persistent entries that exist.
fn entries(env: &Env) -> u32 {
    env.storage().persistent().all().len()
}

#[test]
fn an_index_starts_empty() {
    in_contract(|env| {
        let id = IndexId::ListingOffers(5);
        assert_eq!(index_len(env, &id), 0);
        assert_eq!(plain(&index_all(env, &id)), Vec::<u64>::new());
        assert_eq!(index_get(env, &id, 0), None);
        assert_eq!(index_swap_remove(env, &id, 0), None);
        assert_eq!(plain(&index_load_page(env, &id, 0)), Vec::<u64>::new());
        assert_eq!(entries(env), 0);
    });
}

#[test]
fn appended_elements_are_read_back_in_order() {
    in_contract(|env| {
        let id = filled(env, 5);
        assert_eq!(index_len(env, &id), 5);
        assert_eq!(plain(&index_all(env, &id)), vec![1, 2, 3, 4, 5]);
        assert_eq!(index_get(env, &id, 0), Some(1));
        assert_eq!(index_get(env, &id, 4), Some(5));
        assert_eq!(index_get(env, &id, 5), None);
        assert_eq!(index_get(env, &id, u32::MAX), None);
    });
}

#[test]
fn pages_hold_a_hundred_ids() {
    assert_eq!(INDEX_PAGE_SIZE, 100);
    in_contract(|env| {
        let id = filled(env, 250);
        assert_eq!(index_load_page(env, &id, 0).len(), 100);
        assert_eq!(index_load_page(env, &id, 1).len(), 100);
        assert_eq!(index_load_page(env, &id, 2).len(), 50);
        assert_eq!(index_load_page(env, &id, 3).len(), 0);
        assert_eq!(index_load_page(env, &id, 1).get(0), Some(101));
        assert_eq!(index_get(env, &id, 99), Some(100));
        assert_eq!(index_get(env, &id, 100), Some(101));
        assert_eq!(index_get(env, &id, 249), Some(250));
        assert_eq!(plain(&index_all(env, &id)), (1..=250).collect::<Vec<u64>>());
        // Three pages and the length.
        assert_eq!(entries(env), 4);
    });
}

#[test]
fn a_full_page_starts_no_new_page() {
    in_contract(|env| {
        let id = filled(env, 100);
        assert_eq!(entries(env), 2);
        index_append(env, &id, 101);
        assert_eq!(entries(env), 3);
        assert_eq!(plain(&index_load_page(env, &id, 1)), vec![101]);
    });
}

#[test]
fn ranges_cross_pages_and_stop_at_the_end() {
    in_contract(|env| {
        let id = filled(env, 230);
        assert_eq!(plain(&index_range(env, &id, 0, 3)), vec![1, 2, 3]);
        assert_eq!(plain(&index_range(env, &id, 98, 4)), vec![99, 100, 101, 102]);
        assert_eq!(
            plain(&index_range(env, &id, 95, 120)),
            (96..=215).collect::<Vec<u64>>()
        );
        assert_eq!(plain(&index_range(env, &id, 228, 10)), vec![229, 230]);
        assert_eq!(plain(&index_range(env, &id, 228, u32::MAX)), vec![229, 230]);
        assert_eq!(plain(&index_range(env, &id, 230, 10)), Vec::<u64>::new());
        assert_eq!(plain(&index_range(env, &id, u32::MAX, u32::MAX)), Vec::<u64>::new());
        assert_eq!(plain(&index_range(env, &id, 5, 0)), Vec::<u64>::new());
    });
}

#[test]
fn consecutive_ranges_join() {
    in_contract(|env| {
        let id = filled(env, 150);
        let mut joined = plain(&index_range(env, &id, 20, 60));
        joined.extend(plain(&index_range(env, &id, 80, 50)));
        assert_eq!(joined, plain(&index_range(env, &id, 20, 110)));
    });
}

#[test]
fn swap_removal_moves_the_last_element_within_a_page() {
    in_contract(|env| {
        let id = filled(env, 4);
        assert_eq!(index_swap_remove(env, &id, 1), Some(4));
        assert_eq!(plain(&index_all(env, &id)), vec![1, 4, 3]);
        assert_eq!(index_len(env, &id), 3);
    });
}

#[test]
fn swap_removal_of_the_last_element_moves_nothing() {
    in_contract(|env| {
        let id = filled(env, 3);
        assert_eq!(index_swap_remove(env, &id, 2), None);
        assert_eq!(plain(&index_all(env, &id)), vec![1, 2]);
    });
}

#[test]
fn swap_removal_past_the_end_changes_nothing() {
    in_contract(|env| {
        let id = filled(env, 3);
        assert_eq!(index_swap_remove(env, &id, 3), None);
        assert_eq!(index_swap_remove(env, &id, u32::MAX), None);
        assert_eq!(plain(&index_all(env, &id)), vec![1, 2, 3]);
    });
}

#[test]
fn swap_removal_moves_the_last_element_across_pages() {
    in_contract(|env| {
        let id = filled(env, 150);
        assert_eq!(index_swap_remove(env, &id, 10), Some(150));
        assert_eq!(index_get(env, &id, 10), Some(150));
        assert_eq!(index_len(env, &id), 149);
        assert_eq!(index_load_page(env, &id, 0).len(), 100);
        assert_eq!(index_load_page(env, &id, 1).len(), 49);
    });
}

#[test]
fn emptied_pages_are_deleted() {
    in_contract(|env| {
        let id = filled(env, 101);
        assert_eq!(entries(env), 3);
        assert_eq!(index_swap_remove(env, &id, 0), Some(101));
        // The second page is gone.
        assert_eq!(entries(env), 2);
        assert_eq!(index_get(env, &id, 0), Some(101));
        index_append(env, &id, 7);
        assert_eq!(plain(&index_load_page(env, &id, 1)), vec![7]);
    });
}

#[test]
fn an_emptied_index_leaves_no_entry() {
    in_contract(|env| {
        let id = filled(env, 2);
        assert_eq!(index_swap_remove(env, &id, 0), Some(2));
        assert_eq!(index_swap_remove(env, &id, 0), None);
        assert_eq!(index_len(env, &id), 0);
        assert_eq!(entries(env), 0);
        index_append(env, &id, 9);
        assert_eq!(plain(&index_all(env, &id)), vec![9]);
    });
}

#[test]
fn swap_removal_keeps_every_other_element() {
    in_contract(|env| {
        let id = filled(env, 205);
        assert_eq!(index_swap_remove(env, &id, 150), Some(205));
        assert_eq!(index_swap_remove(env, &id, 3), Some(204));
        let mut left = plain(&index_all(env, &id));
        left.sort();
        let want: Vec<u64> = (1..=205).filter(|n| *n != 151 && *n != 4).collect();
        assert_eq!(left, want);
    });
}

#[test]
fn indexes_do_not_touch_each_other() {
    in_contract(|env| {
        let a = Address::generate(env);
        let b = Address::generate(env);
        add_artist_listing_id(env, &a, 1);
        add_artist_listing_id(env, &b, 2);
        add_artist_listing_id(env, &a, 3);
        add_artist_auction_id(env, &a, 4);
        add_offerer_offer_id(env, &a, 5);
        add_listing_offer_id(env, 1, 6);
        add_listing_offer_id(env, 2, 7);
        assert_eq!(plain(&get_artist_listing_ids(env, &a)), vec![1, 3]);
        assert_eq!(plain(&get_artist_listing_ids(env, &b)), vec![2]);
        assert_eq!(plain(&get_artist_auction_ids(env, &a)), vec![4]);
        assert_eq!(plain(&get_artist_auction_ids(env, &b)), Vec::<u64>::new());
        assert_eq!(plain(&load_offerer_offers(env, &a)), vec![5]);
        assert_eq!(plain(&load_listing_offers(env, 1)), vec![6]);
        assert_eq!(plain(&load_listing_offers(env, 2)), vec![7]);
    });
}

#[test]
fn an_index_may_hold_an_id_twice() {
    in_contract(|env| {
        add_listing_offer_id(env, 1, 6);
        add_listing_offer_id(env, 1, 6);
        assert_eq!(plain(&load_listing_offers(env, 1)), vec![6, 6]);
    });
}
