//! Pending-offer tracking.
use marketplace_storage::pending::{
    add_pending_offer, clear_pending_offers, load_pending_offer_ids, pending_offer_count,
    remove_pending_offer,
};
use soroban_sdk::testutils::storage::Persistent as _;
use soroban_sdk::testutils::{ContractFunctionSet, EnvTestConfig};
use soroban_sdk::{Env, Val};

/// A contract without functions of its own.
struct Empty;

impl ContractFunctionSet for Empty {
    fn call(&self, _func: &str, _env: Env, _args: &[Val]) -> Option<Val> {
        None
    }
}

/// Runs `f` as a contract on a fresh ledger.
fn in_contract<T>(f: impl FnOnce(&mut Env) -> T) -> T {
    let env = Env::new_with_config(EnvTestConfig {
        capture_snapshot_at_drop: false,
    });
    env.cost_estimate().budget().reset_unlimited();
    env.cost_estimate().disable_resource_limits();
    let id = env.register(Empty, ());
    let mut handle = env.clone();
    env.as_contract(&id, || f(&mut handle))
}

fn pending(env: &mut Env, listing_id: u64) -> Vec<u64> {
    load_pending_offer_ids(env, listing_id).iter().collect()
}

#[test]
fn offers_pend_in_order() {
    in_contract(|env| {
        assert_eq!(pending_offer_count(env, 1), 0);
        for offer in [5, 3, 4] {
            add_pending_offer(env, 1, offer);
        }
        assert_eq!(pending(env, 1), vec![5, 3, 4]);
        assert_eq!(pending_offer_count(env, 1), 3);
    });
}

#[test]
fn a_removed_offer_leaves_the_others_in_order() {
    in_contract(|env| {
        for offer in [5, 3, 4] {
            add_pending_offer(env, 1, offer);
        }
        remove_pending_offer(env, 1, 3);
        assert_eq!(pending(env, 1), vec![5, 4]);
        assert_eq!(pending_offer_count(env, 1), 2);
    });
}

#[test]
fn removing_an_offer_that_does_not_pend_changes_nothing() {
    in_contract(|env| {
        remove_pending_offer(env, 1, 3);
        assert_eq!(env.storage().persistent().all().len(), 0);
        add_pending_offer(env, 1, 5);
        remove_pending_offer(env, 1, 3);
        assert_eq!(pending(env, 1), vec![5]);
    });
}

#[test]
fn only_the_first_mention_is_removed() {
    in_contract(|env| {
        for offer in [7, 5, 7] {
            add_pending_offer(env, 1, offer);
        }
        remove_pending_offer(env, 1, 7);
        assert_eq!(pending(env, 1), vec![5, 7]);
    });
}

#[test]
fn the_entry_goes_with_the_last_offer() {
    in_contract(|env| {
        add_pending_offer(env, 1, 5);
        assert_eq!(env.storage().persistent().all().len(), 1);
        remove_pending_offer(env, 1, 5);
        assert_eq!(env.storage().persistent().all().len(), 0);
        assert_eq!(pending_offer_count(env, 1), 0);
    });
}

#[test]
fn clearing_drops_all_offers_of_one_listing() {
    in_contract(|env| {
        add_pending_offer(env, 1, 5);
        add_pending_offer(env, 1, 6);
        add_pending_offer(env, 2, 7);
        clear_pending_offers(env, 1);
        assert_eq!(pending(env, 1), Vec::<u64>::new());
        assert_eq!(pending(env, 2), vec![7]);
        clear_pending_offers(env, 1);
        assert_eq!(env.storage().persistent().all().len(), 1);
    });
}

#[test]
fn removal_undoes_a_pending_offer() {
    in_contract(|env| {
        add_pending_offer(env, 1, 5);
        add_pending_offer(env, 1, 6);
        remove_pending_offer(env, 1, 6);
        assert_eq!(pending(env, 1), vec![5]);
    });
}
