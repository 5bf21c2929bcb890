//! The counters from which listings, auctions and offers get their ids.
use soroban_sdk::Env;
use vstd::prelude::*;

use crate::host::{ledger, u64_val, val_u64};
use crate::keys::{lemma_keys_differ, DataKey};
use crate::ledger::{law_well_typed_is_kept, law_write_is_exact, Data, Ledger};
use crate::store::{load, store};

verus! {

impl Ledger {
    /// The value of a counter; one that was never counted up is zero.
    pub open spec fn count(self, counter: DataKey) -> nat {
        if self.has(counter) {
            self.value(counter)->U64_0 as nat
        } else {
            0
        }
    }

    /// A counter is counted up by one.
    pub open spec fn counted(self, counter: DataKey) -> Ledger {
        self.put(counter, Data::U64((self.count(counter) + 1) as u64))
    }
}

/// Counting up gives the next number, so no number comes twice, and moves no other
/// counter.
pub proof fn law_count_grows_by_one(l: Ledger, counter: DataKey, other: DataKey)
    requires
        l.count(counter) < u64::MAX,
        other != counter,
    ensures
        l.counted(counter).count(counter) == l.count(counter) + 1,
        l.counted(counter).count(other) == l.count(other),
{
    lemma_keys_differ(other, counter);
}

/// A counter is the number in its entry, and zero without one. Counting up writes the next
/// number, whatever the number is, and changes nothing but the counter's entry.
pub proof fn law_counting_is_exact(l: Ledger, counter: DataKey, n: u64)
    ensures
        l.get(counter) is None ==> l.count(counter) == 0,
        l.get(counter) == Some(Data::U64(n)) ==> l.count(counter) == n,
        l.count(counter) == n && n < u64::MAX ==> l.counted(counter).get(counter) == Some(
            Data::U64((n + 1) as u64),
        ),
        l.counted(counter).ttl(counter) == l.bumped(
            if l.has(counter) {
                l.ttl(counter)
            } else {
                l.new_persistent_ttl
            },
        ),
        l.counted(counter).persistent.remove(counter@) == l.persistent.remove(counter@),
        l.counted(counter) == (Ledger { persistent: l.counted(counter).persistent, ..l }),
{
    law_write_is_exact(l, counter, Data::U64((l.count(counter) + 1) as u64));
}

/// Counting up keeps the ledger well typed.
pub proof fn law_counting_keeps_types(l: Ledger, counter: DataKey)
    requires
        l.well_typed(),
        counter is ListingCount || counter is AuctionCount || counter is OfferCount,
    ensures
        l.counted(counter).well_typed(),
{
    law_well_typed_is_kept(l, counter, Data::U64((l.count(counter) + 1) as u64));
}

/// Number of listings created so far.
pub fn get_listing_count(env: &Env) -> (count: u64)
    requires
        ledger(*env).in_contract,
        ledger(*env).fit(DataKey::ListingCount),
    ensures
        count == ledger(*env).count(DataKey::ListingCount),
{
    match load(env, &DataKey::ListingCount) {
        Some(v) => val_u64(env, v),
        None => 0,
    }
}

/// Count one more listing and return its number.
pub fn increment_listing_count(env: &mut Env) -> (count: u64)
    requires
        ledger(*old(env)).in_contract,
        ledger(*old(env)).fit(DataKey::ListingCount),
        ledger(*old(env)).count(DataKey::ListingCount) < u64::MAX,
    ensures
        count == ledger(*old(env)).count(DataKey::ListingCount) + 1,
        ledger(*final(env)) == ledger(*old(env)).counted(DataKey::ListingCount),
{
    let count: u64 = get_listing_count(env) + 1;
    let v = u64_val(env, count);
    store(env, &DataKey::ListingCount, v);
    count
}

/// Number of auctions created so far.
pub fn get_auction_count(env: &Env) -> (count: u64)
    requires
        ledger(*env).in_contract,
        ledger(*env).fit(DataKey::AuctionCount),
    ensures
        count == ledger(*env).count(DataKey::AuctionCount),
{
    match load(env, &DataKey::AuctionCount) {
        Some(v) => val_u64(env, v),
        None => 0,
    }
}

/// Count one more auction and return its number.
pub fn increment_auction_count(env: &mut Env) -> (count: u64)
    requires
        ledger(*old(env)).in_contract,
        ledger(*old(env)).fit(DataKey::AuctionCount),
        ledger(*old(env)).count(DataKey::AuctionCount) < u64::MAX,
    ensures
        count == ledger(*old(env)).count(DataKey::AuctionCount) + 1,
        ledger(*final(env)) == ledger(*old(env)).counted(DataKey::AuctionCount),
{
    let count: u64 = get_auction_count(env) + 1;
    let v = u64_val(env, count);
    store(env, &DataKey::AuctionCount, v);
    count
}

/// Number of offers created so far.
pub fn get_offer_count(env: &Env) -> (count: u64)
    requires
        ledger(*env).in_contract,
        ledger(*env).fit(DataKey::OfferCount),
    ensures
        count == ledger(*env).count(DataKey::OfferCount),
{
    match load(env, &DataKey::OfferCount) {
        Some(v) => val_u64(env, v),
        None => 0,
    }
}

/// Count one more offer and return its number.
pub fn increment_offer_count(env: &mut Env) -> (count: u64)
    requires
        ledger(*old(env)).in_contract,
        ledger(*old(env)).fit(DataKey::OfferCount),
        ledger(*old(env)).count(DataKey::OfferCount) < u64::MAX,
    ensures
        count == ledger(*old(env)).count(DataKey::OfferCount) + 1,
        ledger(*final(env)) == ledger(*old(env)).counted(DataKey::OfferCount),
{
    let count: u64 = get_offer_count(env) + 1;
    let v = u64_val(env, count);
    store(env, &DataKey::OfferCount, v);
    count
}

} // verus!
