//! The bid history ring buffer.
use marketplace_storage::bids::{append_bid_record, load_auction_bids};
use marketplace_storage::config::MAX_BID_HISTORY_CAP;
use marketplace_storage::types::BidRecord;
use soroban_sdk::testutils::{Address as _, ContractFunctionSet, EnvTestConfig};
use soroban_sdk::{Address, Env, Val};

/// A contract without functions of its own.
struct Empty;

impl ContractFunctionSet for Empty {
    fn call(&self, _func: &str, _env: Env, _args: &[Val]) -> Option<Val> {
        None
    }
}

/// Runs `f` as a contract on a fresh ledger.
fn in_contract<T>(f: impl FnOnce(&mut Env) -> T) -> T {
    let env = Env::new_with_config(EnvTestConfig {
        capture_snapshot_at_drop: false,
    });
    env.cost_estimate().budget().reset_unlimited();
    env.cost_estimate().disable_resource_limits();
    let id = env.register(Empty, ());
    let mut handle = env.clone();
    env.as_contract(&id, || f(&mut handle))
}

/// Places `bid_count` bids with cap `cap` and checks that the stored history is as long
/// as the smaller of the two.
fn run_ring_buffer_trial(cap: u32, bid_count: usize) {
    in_contract(|env| {
        let auction_id: u64 = 1;
        let address = Address::generate(env);
        for i in 0..bid_count {
            let record = BidRecord {
                bidder: address.clone(),
                amount: (i as i128 + 1) * 100,
                ledger: i as u32 + 1,
            };
            append_bid_record(env, auction_id, &record, cap);
        }
        let history = load_auction_bids(env, auction_id);
        let expected = std::cmp::min(bid_count, cap as usize);
        assert_eq!(history.len(), expected, "cap={cap}, bid_count={bid_count}");
    });
}

#[test]
fn ring_buffer_len_is_always_min_n_cap() {
    for cap in [1, 2, 3, 7, 50] {
        for bids in [0, 1, 2, 3, 4, 6, 7, 8, 49, 50, 51, 120] {
            run_ring_buffer_trial(cap, bids);
        }
    }
    run_ring_buffer_trial(MAX_BID_HISTORY_CAP - 1, 210);
    run_ring_buffer_trial(MAX_BID_HISTORY_CAP, 199);
    run_ring_buffer_trial(MAX_BID_HISTORY_CAP, 200);
    run_ring_buffer_trial(MAX_BID_HISTORY_CAP, 201);
}

#[test]
fn ring_buffer_len_with_twice_the_largest_cap() {
    run_ring_buffer_trial(MAX_BID_HISTORY_CAP, 400);
}

#[test]
fn ring_buffer_cap_one_keeps_only_latest_bid() {
    for bids in [1usize, 2, 3, 10, 99, 100] {
        in_contract(|env| {
            let auction_id: u64 = 42;
            let address = Address::generate(env);
            for i in 0..bids {
                append_bid_record(
                    env,
                    auction_id,
                    &BidRecord {
                        bidder: address.clone(),
                        amount: i as i128 + 1,
                        ledger: i as u32,
                    },
                    1,
                );
            }
            let history = load_auction_bids(env, auction_id);
            assert_eq!(history.len(), 1);
            // The single retained record must be the last bid placed.
            assert_eq!(history[0].amount, bids as i128);
        });
    }
}

#[test]
fn ring_buffer_no_eviction_when_bids_lte_cap() {
    for (cap, bids) in [
        (1u32, 0usize),
        (1, 1),
        (2, 1),
        (2, 2),
        (50, 49),
        (50, 50),
        (200, 0),
        (200, 150),
        (200, 200),
    ] {
        run_ring_buffer_trial(cap, bids);

        // Amounts are in insertion order: 100, 200, ...
        in_contract(|env| {
            let auction_id: u64 = 99;
            let address = Address::generate(env);
            for i in 0..bids {
                append_bid_record(
                    env,
                    auction_id,
                    &BidRecord {
                        bidder: address.clone(),
                        amount: (i as i128 + 1) * 100,
                        ledger: i as u32,
                    },
                    cap,
                );
            }
            let history = load_auction_bids(env, auction_id);
            assert_eq!(history.len(), bids);
            for (idx, record) in history.iter().enumerate() {
                assert_eq!(record.amount, (idx as i128 + 1) * 100, "record at index {idx}");
            }
        });
    }
}

fn bid(bidder: &Address, amount: i128) -> BidRecord {
    BidRecord {
        bidder: bidder.clone(),
        amount,
        ledger: amount as u32 + 7,
    }
}

fn amounts(env: &mut Env, auction_id: u64) -> Vec<i128> {
    load_auction_bids(env, auction_id)
        .iter()
        .map(|b| b.amount)
        .collect()
}

#[test]
fn eviction_keeps_the_latest_in_order() {
    in_contract(|env| {
        let a = Address::generate(env);
        for n in 1..=5 {
            append_bid_record(env, 1, &bid(&a, n), 3);
        }
        assert_eq!(amounts(env, 1), vec![3, 4, 5]);
    });
}

#[test]
fn a_bid_comes_back_with_all_its_fields() {
    in_contract(|env| {
        let a = Address::generate(env);
        let b = Address::generate(env);
        append_bid_record(env, 1, &bid(&a, 10), 5);
        append_bid_record(
            env,
            1,
            &BidRecord {
                bidder: b.clone(),
                amount: i128::MIN,
                ledger: u32::MAX,
            },
            5,
        );
        let history = load_auction_bids(env, 1);
        assert_eq!(history.len(), 2);
        assert!(history[0].bidder == a);
        assert_eq!(history[0].amount, 10);
        assert_eq!(history[0].ledger, 17);
        assert!(history[1].bidder == b);
        assert_eq!(history[1].amount, i128::MIN);
        assert_eq!(history[1].ledger, u32::MAX);
    });
}

#[test]
fn auctions_have_histories_of_their_own() {
    in_contract(|env| {
        let a = Address::generate(env);
        append_bid_record(env, 1, &bid(&a, 10), 5);
        append_bid_record(env, 2, &bid(&a, 20), 5);
        assert_eq!(amounts(env, 1), vec![10]);
        assert_eq!(amounts(env, 2), vec![20]);
        assert_eq!(amounts(env, 3), Vec::<i128>::new());
    });
}

#[test]
fn a_lowered_cap_stops_growth_and_drops_one_bid_at_a_time() {
    in_contract(|env| {
        let a = Address::generate(env);
        for n in 1..=4 {
            append_bid_record(env, 1, &bid(&a, n), 10);
        }
        append_bid_record(env, 1, &bid(&a, 5), 2);
        assert_eq!(amounts(env, 1), vec![2, 3, 4, 5]);
    });
}

#[test]
fn a_cap_of_zero_keeps_one_bid() {
    in_contract(|env| {
        let a = Address::generate(env);
        append_bid_record(env, 1, &bid(&a, 1), 0);
        assert_eq!(amounts(env, 1), vec![1]);
        append_bid_record(env, 1, &bid(&a, 2), 0);
        assert_eq!(amounts(env, 1), vec![2]);
    });
}
