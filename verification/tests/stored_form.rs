//! The form in which entries are stored, and how long they live.
use marketplace_storage::active::add_to_active_listings;
use marketplace_storage::bids::{append_bid_record, load_auction_bids};
use marketplace_storage::collections::{
    add_artist_auction_id, add_artist_listing_id, add_listing_offer_id, add_offerer_offer_id,
};
use marketplace_storage::config::{
    get_artist_cancel_cursor, get_bid_history_cap_storage, get_treasury_storage,
    is_artist_revoked_storage, is_paused, set_artist_cancel_cursor,
    set_artist_revocation_storage, set_auction_extension_trigger_storage,
    set_auction_extension_window_storage, set_bid_history_cap_storage, set_max_price_storage,
    set_min_bid_increment_storage, set_min_price_storage, set_paused, set_pending_admin_storage,
    set_protocol_fee_bps_storage, set_treasury_storage,
};
use marketplace_storage::counters::{
    get_listing_count, increment_auction_count, increment_listing_count, increment_offer_count,
};
use marketplace_storage::index::{index_len, index_load_page};
use marketplace_storage::keys::{DataKey, IndexId};
use marketplace_storage::ledger::{LEDGER_TTL_BUMP, LEDGER_TTL_THRESHOLD};
use marketplace_storage::migration::{
    get_migration_progress, is_migration_done, set_migration_done, set_migration_progress,
};
use marketplace_storage::pending::{add_pending_offer, pending_offer_count};
use marketplace_storage::store::bump_entry_ttl;
use marketplace_storage::types::{BidRecord, MigrationProgress};
use soroban_sdk::testutils::storage::Persistent as _;
use soroban_sdk::testutils::{
    Address as _, ContractFunctionSet, EnvTestConfig, Ledger as _,
};
use soroban_sdk::{Address, Env, IntoVal, String, Symbol, TryFromVal, Val};

/// A contract without functions of its own.
struct Empty;

impl ContractFunctionSet for Empty {
    fn call(&self, _func: &str, _env: Env, _args: &[Val]) -> Option<Val> {
        None
    }
}

/// Runs `f` as a contract on a fresh ledger.
fn in_contract<T>(f: impl FnOnce(&mut Env) -> T) -> T {
    let env = Env::new_with_config(EnvTestConfig {
        capture_snapshot_at_drop: false,
    });
    env.cost_estimate().budget().reset_unlimited();
    env.cost_estimate().disable_resource_limits();
    let id = env.register(Empty, ());
    let mut handle = env.clone();
    env.as_contract(&id, || f(&mut handle))
}

fn name(env: &Env, text: &str) -> Symbol {
    Symbol::new(env, text)
}

fn ttl<K: IntoVal<Env, Val>>(env: &Env, key: &K) -> u32 {
    env.storage().persistent().get_ttl(key)
}

/// Lets `n` ledgers pass.
fn pass(env: &Env, n: u32) {
    let now = env.ledger().sequence();
    env.ledger().set_sequence_number(now + n);
}

#[test]
fn counters_are_stored_under_their_names() {
    in_contract(|env| {
        increment_listing_count(env);
        increment_auction_count(env);
        increment_auction_count(env);
        for _ in 0..3 {
            increment_offer_count(env);
        }
        let stored = env.storage().persistent();
        assert_eq!(stored.get(&(name(env, "ListingCount"),)), Some(1u64));
        assert_eq!(stored.get(&(name(env, "AuctionCount"),)), Some(2u64));
        assert_eq!(stored.get(&(name(env, "OfferCount"),)), Some(3u64));
        assert_eq!(stored.all().len(), 3);
    });
}

#[test]
fn settings_are_stored_under_their_names() {
    in_contract(|env| {
        let a = Address::generate(env);
        let b = Address::generate(env);
        set_treasury_storage(env, &a);
        set_pending_admin_storage(env, &b);
        set_protocol_fee_bps_storage(env, 1);
        set_min_bid_increment_storage(env, 2);
        set_auction_extension_window_storage(env, 3);
        set_auction_extension_trigger_storage(env, 4);
        set_min_price_storage(env, 5);
        set_max_price_storage(env, 6);
        set_bid_history_cap_storage(env, 7);
        set_paused(env, true);
        set_artist_revocation_storage(env, &a);
        set_artist_cancel_cursor(env, &a, 8);
        let stored = env.storage().persistent();
        assert_eq!(stored.get(&(name(env, "Treasury"),)), Some(a.clone()));
        assert_eq!(stored.get(&(name(env, "PendingAdmin"),)), Some(b));
        assert_eq!(stored.get(&(name(env, "ProtocolFeeBps"),)), Some(1u32));
        assert_eq!(stored.get(&(name(env, "MinBidIncrement"),)), Some(2i128));
        assert_eq!(stored.get(&(name(env, "AuctionExtensionWindow"),)), Some(3u64));
        assert_eq!(stored.get(&(name(env, "AuctionExtensionTrigger"),)), Some(4u64));
        assert_eq!(stored.get(&(name(env, "MinPrice"),)), Some(5i128));
        assert_eq!(stored.get(&(name(env, "MaxPrice"),)), Some(6i128));
        assert_eq!(stored.get(&(name(env, "BidHistoryCap"),)), Some(7u32));
        assert_eq!(stored.get(&(name(env, "IsPaused"),)), Some(true));
        assert_eq!(stored.get(&(name(env, "RevokedArtist"), a.clone())), Some(true));
        assert_eq!(stored.get(&(name(env, "ArtistCancelCursor"), a)), Some(8u32));
        assert_eq!(stored.all().len(), 12);
    });
}

#[test]
fn indexes_are_stored_as_pages_and_a_length() {
    in_contract(|env| {
        let a = Address::generate(env);
        add_to_active_listings(env, 1);
        add_artist_listing_id(env, &a, 2);
        add_artist_auction_id(env, &a, 3);
        add_offerer_offer_id(env, &a, 4);
        add_listing_offer_id(env, 9, 5);
        let ids: [(Val, u64); 5] = [
            ((name(env, "ActiveListings"),).into_val(env), 1),
            ((name(env, "ArtistListings"), a.clone()).into_val(env), 2),
            ((name(env, "ArtistAuctions"), a.clone()).into_val(env), 3),
            ((name(env, "OffererOffers"), a.clone()).into_val(env), 4),
            ((name(env, "ListingOffers"), 9u64).into_val(env), 5),
        ];
        let stored = env.storage().persistent();
        for (id, element) in ids {
            let len: Option<u32> = stored.get(&(name(env, "IndexLen"), id));
            assert_eq!(len, Some(1));
            let page: soroban_sdk::Vec<u64> =
                stored.get(&(name(env, "IndexPage"), id, 0u32)).unwrap();
            assert_eq!(page.iter().collect::<Vec<u64>>(), vec![element]);
        }
        assert_eq!(stored.get(&(name(env, "ActiveListingPos"), 1u64)), Some(0u32));
        assert_eq!(stored.all().len(), 11);
    });
}

#[test]
fn pending_offers_are_stored_as_one_list() {
    in_contract(|env| {
        add_pending_offer(env, 3, 8);
        add_pending_offer(env, 3, 9);
        let key = (name(env, "ListingPendingOffers"), 3u64);
        let list: soroban_sdk::Vec<u64> = env.storage().persistent().get(&key).unwrap();
        assert_eq!(list.iter().collect::<Vec<u64>>(), vec![8, 9]);
    });
}

#[test]
fn bids_are_stored_as_records() {
    in_contract(|env| {
        let bidder = Address::generate(env);
        let bid = BidRecord {
            bidder: bidder.clone(),
            amount: -3,
            ledger: 12,
        };
        append_bid_record(env, 6, &bid, 5);
        let key = (name(env, "AuctionBids"), 6u64);
        let list: soroban_sdk::Vec<soroban_sdk::Map<Symbol, Val>> =
            env.storage().persistent().get(&key).unwrap();
        assert_eq!(list.len(), 1);
        let fields = list.get(0).unwrap();
        assert_eq!(fields.len(), 3);
        let value = |field: &str| fields.get(name(env, field)).unwrap();
        assert_eq!(Address::try_from_val(env, &value("bidder")).unwrap(), bidder);
        assert_eq!(i128::try_from_val(env, &value("amount")).unwrap(), -3);
        assert_eq!(u32::try_from_val(env, &value("ledger")).unwrap(), 12);
    });
}

#[test]
fn a_migration_is_stored_as_a_marker_and_a_record() {
    in_contract(|env| {
        let version = String::from_str(env, "1.1.0");
        set_migration_done(env, &version);
        set_migration_progress(env, &version, &MigrationProgress { phase: 2, cursor: 30 });
        let stored = env.storage().persistent();
        assert_eq!(stored.get(&(name(env, "MigrationDone"), version.clone())), Some(true));
        let fields: soroban_sdk::Map<Symbol, Val> =
            stored.get(&(name(env, "MigrationCursor"), version)).unwrap();
        assert_eq!(fields.len(), 2);
        let value = |field: &str| fields.get(name(env, field)).unwrap();
        assert_eq!(u32::try_from_val(env, &value("phase")).unwrap(), 2);
        assert_eq!(u64::try_from_val(env, &value("cursor")).unwrap(), 30);
    });
}

#[test]
fn a_written_entry_lives_for_the_full_extension() {
    assert_eq!(LEDGER_TTL_BUMP, 432_000);
    assert_eq!(LEDGER_TTL_THRESHOLD, 144_000);
    in_contract(|env| {
        increment_listing_count(env);
        let key = (name(env, "ListingCount"),);
        assert_eq!(ttl(env, &key), LEDGER_TTL_BUMP);
        pass(env, 1000);
        increment_listing_count(env);
        assert_eq!(ttl(env, &key), LEDGER_TTL_BUMP - 1000);
        pass(env, LEDGER_TTL_BUMP - 1000 - LEDGER_TTL_THRESHOLD - 1);
        increment_listing_count(env);
        assert_eq!(ttl(env, &key), LEDGER_TTL_THRESHOLD + 1);
        pass(env, 1);
        increment_listing_count(env);
        assert_eq!(ttl(env, &key), LEDGER_TTL_BUMP);
    });
}

#[test]
fn the_network_limits_an_extension() {
    in_contract(|env| {
        env.ledger().set_max_entry_ttl(200_000);
        increment_listing_count(env);
        assert_eq!(ttl(env, &(name(env, "ListingCount"),)), 200_000);
    });
}

#[test]
fn some_reads_extend_a_life_and_some_do_not() {
    in_contract(|env| {
        let a = Address::generate(env);
        let version = String::from_str(env, "1.1.0");
        let bid = BidRecord {
            bidder: a.clone(),
            amount: 1,
            ledger: 1,
        };
        increment_listing_count(env);
        set_paused(env, true);
        set_artist_cancel_cursor(env, &a, 3);
        set_migration_progress(env, &version, &MigrationProgress { phase: 1, cursor: 1 });
        set_treasury_storage(env, &a);
        set_bid_history_cap_storage(env, 9);
        set_artist_revocation_storage(env, &a);
        set_migration_done(env, &version);
        add_listing_offer_id(env, 1, 1);
        add_pending_offer(env, 1, 1);
        append_bid_record(env, 1, &bid, 5);
        pass(env, LEDGER_TTL_BUMP - LEDGER_TTL_THRESHOLD);

        // Plain reads.
        get_listing_count(env);
        is_paused(env);
        get_artist_cancel_cursor(env, &a);
        get_migration_progress(env, &version);
        assert_eq!(ttl(env, &(name(env, "ListingCount"),)), LEDGER_TTL_THRESHOLD);
        assert_eq!(ttl(env, &(name(env, "IsPaused"),)), LEDGER_TTL_THRESHOLD);
        assert_eq!(
            ttl(env, &(name(env, "ArtistCancelCursor"), a.clone())),
            LEDGER_TTL_THRESHOLD
        );
        assert_eq!(
            ttl(env, &(name(env, "MigrationCursor"), version.clone())),
            LEDGER_TTL_THRESHOLD
        );

        // Reads that extend.
        get_treasury_storage(env);
        get_bid_history_cap_storage(env);
        is_artist_revoked_storage(env, &a);
        is_migration_done(env, &version);
        index_len(env, &IndexId::ListingOffers(1));
        index_load_page(env, &IndexId::ListingOffers(1), 0);
        pending_offer_count(env, 1);
        load_auction_bids(env, 1);
        let id: Val = (name(env, "ListingOffers"), 1u64).into_val(env);
        assert_eq!(ttl(env, &(name(env, "Treasury"),)), LEDGER_TTL_BUMP);
        assert_eq!(ttl(env, &(name(env, "BidHistoryCap"),)), LEDGER_TTL_BUMP);
        assert_eq!(ttl(env, &(name(env, "RevokedArtist"), a)), LEDGER_TTL_BUMP);
        assert_eq!(ttl(env, &(name(env, "MigrationDone"), version)), LEDGER_TTL_BUMP);
        assert_eq!(ttl(env, &(name(env, "IndexLen"), id)), LEDGER_TTL_BUMP);
        assert_eq!(ttl(env, &(name(env, "IndexPage"), id, 0u32)), LEDGER_TTL_BUMP);
        assert_eq!(ttl(env, &(name(env, "ListingPendingOffers"), 1u64)), LEDGER_TTL_BUMP);
        assert_eq!(ttl(env, &(name(env, "AuctionBids"), 1u64)), LEDGER_TTL_BUMP);
    });
}

#[test]
fn an_entry_of_another_writer_can_be_kept_alive() {
    in_contract(|env| {
        let key = (name(env, "Admin"),);
        let admin = Address::generate(env);
        env.storage().persistent().set(&key, &admin);
        assert!(ttl(env, &key) < LEDGER_TTL_BUMP);
        bump_entry_ttl(env, &DataKey::Admin);
        assert_eq!(ttl(env, &key), LEDGER_TTL_BUMP);
    });
}
