//! Counters, listings, auctions and offers.
use marketplace_storage::counters::{
    get_auction_count, get_listing_count, get_offer_count, increment_auction_count,
    increment_listing_count, increment_offer_count,
};
use marketplace_storage::records::{
    load_auction, load_listing, load_offer, save_auction, save_listing, save_offer,
};
use marketplace_storage::types::{Auction, Listing, Offer};
use soroban_sdk::testutils::{ContractFunctionSet, EnvTestConfig};
use soroban_sdk::{Env, IntoVal, Symbol, TryFromVal, Val};

/// A contract without functions of its own.
struct Empty;

impl ContractFunctionSet for Empty {
    fn call(&self, _func: &str, _env: Env, _args: &[Val]) -> Option<Val> {
        None
    }
}

/// Runs `f` as a contract on a fresh ledger.
fn in_contract<T>(f: impl FnOnce(&mut Env) -> T) -> T {
    let env = Env::new_with_config(EnvTestConfig {
        capture_snapshot_at_drop: false,
    });
    env.cost_estimate().budget().reset_unlimited();
    env.cost_estimate().disable_resource_limits();
    let id = env.register(Empty, ());
    let mut handle = env.clone();
    env.as_contract(&id, || f(&mut handle))
}

/// A stored record with an id in the field `name` and a price.
fn record(env: &Env, name: &str, id: u64, price: i128) -> Val {
    let mut fields: soroban_sdk::Map<Symbol, Val> = soroban_sdk::Map::new(env);
    fields.set(Symbol::new(env, name), id.into_val(env));
    fields.set(Symbol::new(env, "price"), price.into_val(env));
    fields.to_val()
}

/// The price in a stored record.
fn price(env: &Env, record: Val) -> i128 {
    let fields: soroban_sdk::Map<Symbol, Val> =
        soroban_sdk::Map::try_from_val(env, &record).unwrap();
    let value = fields.get(Symbol::new(env, "price")).unwrap();
    i128::try_from_val(env, &value).unwrap()
}

#[test]
fn counters_start_at_zero_and_count_by_one() {
    in_contract(|env| {
        assert_eq!(get_listing_count(env), 0);
        assert_eq!(increment_listing_count(env), 1);
        assert_eq!(increment_listing_count(env), 2);
        assert_eq!(get_listing_count(env), 2);
    });
}

#[test]
fn counters_count_apart() {
    in_contract(|env| {
        increment_listing_count(env);
        increment_listing_count(env);
        increment_listing_count(env);
        increment_auction_count(env);
        increment_auction_count(env);
        assert_eq!(increment_offer_count(env), 1);
        assert_eq!(get_listing_count(env), 3);
        assert_eq!(get_auction_count(env), 2);
        assert_eq!(get_offer_count(env), 1);
    });
}

#[test]
fn a_saved_listing_is_found_under_its_id() {
    in_contract(|env| {
        assert!(load_listing(env, 7).is_none());
        let listing = Listing {
            listing_id: 7,
            record: record(env, "listing_id", 7, 250),
        };
        save_listing(env, &listing);
        let found = load_listing(env, 7).unwrap();
        assert_eq!(found.listing_id, 7);
        assert_eq!(price(env, found.record), 250);
        assert!(load_listing(env, 8).is_none());
        assert!(load_auction(env, 7).is_none());
        assert!(load_offer(env, 7).is_none());
    });
}

#[test]
fn saving_again_replaces_the_listing() {
    in_contract(|env| {
        for amount in [10, 20] {
            let listing = Listing {
                listing_id: 1,
                record: record(env, "listing_id", 1, amount),
            };
            save_listing(env, &listing);
        }
        let found = load_listing(env, 1).unwrap();
        assert_eq!(price(env, found.record), 20);
    });
}

#[test]
fn a_saved_auction_is_found_under_its_id() {
    in_contract(|env| {
        let big = u64::MAX;
        let auction = Auction {
            auction_id: big,
            record: record(env, "auction_id", big, -1),
        };
        save_auction(env, &auction);
        let found = load_auction(env, big).unwrap();
        assert_eq!(found.auction_id, big);
        assert_eq!(price(env, found.record), -1);
        assert!(load_auction(env, 0).is_none());
    });
}

#[test]
fn a_saved_offer_is_found_under_its_id() {
    in_contract(|env| {
        let offer = Offer {
            offer_id: 0,
            record: record(env, "offer_id", 0, i128::MAX),
        };
        save_offer(env, &offer);
        let found = load_offer(env, 0).unwrap();
        assert_eq!(found.offer_id, 0);
        assert_eq!(price(env, found.record), i128::MAX);
        assert!(load_offer(env, 1).is_none());
    });
}
