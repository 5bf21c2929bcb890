//! Configuration, moderation and the admin transfer.
use marketplace_storage::config::{
    clear_artist_cancel_cursor, clear_pending_admin_storage, get_artist_cancel_cursor,
    get_auction_extension_trigger_storage, get_auction_extension_window_storage,
    get_bid_history_cap_storage, get_max_price_storage, get_min_bid_increment_storage,
    get_min_price_storage, get_pending_admin_storage, get_protocol_fee_bps_storage,
    get_treasury_storage, is_artist_revoked_storage, is_paused, remove_artist_revocation_storage,
    set_artist_cancel_cursor, set_artist_revocation_storage,
    set_auction_extension_trigger_storage, set_auction_extension_window_storage,
    set_bid_history_cap_storage, set_max_price_storage, set_min_bid_increment_storage,
    set_min_price_storage, set_paused, set_pending_admin_storage, set_protocol_fee_bps_storage,
    set_treasury_storage, DEFAULT_BID_HISTORY_CAP, MAX_BID_HISTORY_CAP,
};
use soroban_sdk::testutils::{Address as _, ContractFunctionSet, EnvTestConfig};
use soroban_sdk::{Address, Env, Val};

/// A contract without functions of its own.
struct Empty;

impl ContractFunctionSet for Empty {
    fn call(&self, _func: &str, _env: Env, _args: &[Val]) -> Option<Val> {
        None
    }
}

/// Runs `f` as a contract on a fresh ledger.
fn in_contract<T>(f: impl FnOnce(&mut Env) -> T) -> T {
    let env = Env::new_with_config(EnvTestConfig {
        capture_snapshot_at_drop: false,
    });
    env.cost_estimate().budget().reset_unlimited();
    env.cost_estimate().disable_resource_limits();
    let id = env.register(Empty, ());
    let mut handle = env.clone();
    env.as_contract(&id, || f(&mut handle))
}

#[test]
fn nothing_is_configured_at_first() {
    in_contract(|env| {
        assert!(get_treasury_storage(env).is_none());
        assert_eq!(get_protocol_fee_bps_storage(env), None);
        assert_eq!(get_min_bid_increment_storage(env), None);
        assert_eq!(get_auction_extension_window_storage(env), None);
        assert_eq!(get_auction_extension_trigger_storage(env), None);
        assert_eq!(get_min_price_storage(env), None);
        assert_eq!(get_max_price_storage(env), None);
        assert!(get_pending_admin_storage(env).is_none());
        assert!(!is_paused(env));
        assert_eq!(get_bid_history_cap_storage(env), 50);
    });
}

#[test]
fn every_setting_reads_back_as_its_own() {
    in_contract(|env| {
        let treasury = Address::generate(env);
        let admin = Address::generate(env);
        set_treasury_storage(env, &treasury);
        set_pending_admin_storage(env, &admin);
        set_protocol_fee_bps_storage(env, 250);
        set_min_bid_increment_storage(env, -5);
        set_auction_extension_window_storage(env, 600);
        set_auction_extension_trigger_storage(env, u64::MAX);
        set_min_price_storage(env, 1);
        set_max_price_storage(env, i128::MAX);
        set_bid_history_cap_storage(env, 75);
        assert!(get_treasury_storage(env).unwrap() == treasury);
        assert!(get_pending_admin_storage(env).unwrap() == admin);
        assert_eq!(get_protocol_fee_bps_storage(env), Some(250));
        assert_eq!(get_min_bid_increment_storage(env), Some(-5));
        assert_eq!(get_auction_extension_window_storage(env), Some(600));
        assert_eq!(get_auction_extension_trigger_storage(env), Some(u64::MAX));
        assert_eq!(get_min_price_storage(env), Some(1));
        assert_eq!(get_max_price_storage(env), Some(i128::MAX));
        assert_eq!(get_bid_history_cap_storage(env), 75);
    });
}

#[test]
fn a_setting_is_the_one_last_written() {
    in_contract(|env| {
        set_protocol_fee_bps_storage(env, 1);
        set_protocol_fee_bps_storage(env, 0);
        assert_eq!(get_protocol_fee_bps_storage(env), Some(0));
    });
}

#[test]
fn a_nomination_can_be_withdrawn() {
    in_contract(|env| {
        let admin = Address::generate(env);
        set_pending_admin_storage(env, &admin);
        clear_pending_admin_storage(env);
        assert!(get_pending_admin_storage(env).is_none());
        clear_pending_admin_storage(env);
    });
}

#[test]
fn the_marketplace_pauses_and_resumes() {
    in_contract(|env| {
        set_paused(env, true);
        assert!(is_paused(env));
        set_paused(env, false);
        assert!(!is_paused(env));
    });
}

#[test]
fn a_revocation_holds_for_its_artist_until_lifted() {
    in_contract(|env| {
        let artist = Address::generate(env);
        let other = Address::generate(env);
        assert!(!is_artist_revoked_storage(env, &artist));
        set_artist_revocation_storage(env, &artist);
        assert!(is_artist_revoked_storage(env, &artist));
        assert!(!is_artist_revoked_storage(env, &other));
        remove_artist_revocation_storage(env, &artist);
        assert!(!is_artist_revoked_storage(env, &artist));
    });
}

#[test]
fn a_cancellation_resumes_at_its_cursor() {
    in_contract(|env| {
        let artist = Address::generate(env);
        let other = Address::generate(env);
        assert_eq!(get_artist_cancel_cursor(env, &artist), 0);
        set_artist_cancel_cursor(env, &artist, 120);
        assert_eq!(get_artist_cancel_cursor(env, &artist), 120);
        assert_eq!(get_artist_cancel_cursor(env, &other), 0);
        clear_artist_cancel_cursor(env, &artist);
        assert_eq!(get_artist_cancel_cursor(env, &artist), 0);
    });
}

#[test]
fn the_bid_history_caps_are_fifty_and_two_hundred() {
    assert_eq!(DEFAULT_BID_HISTORY_CAP, 50);
    assert_eq!(MAX_BID_HISTORY_CAP, 200);
}
