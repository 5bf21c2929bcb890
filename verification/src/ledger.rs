//! The mathematical model of the contract's storage: plain values, entries with a
//! time-to-live, and the operations that the library performs on them.
use soroban_sdk::{Address, Val};
use vstd::prelude::*;

use crate::host::is_ids;
use crate::keys::{law_keys_are_distinct, lemma_keys_differ, DataKey, IndexId};
use crate::types::{
    has_id, is_bid, is_bids, is_progress, law_bid_round_trip, law_progress_round_trip, BidRecord,
    MigrationProgress,
};

verus! {

/// What a host value holds, as plain data.
///
/// `Address` and `Text` keep the SDK's own value: in contracts, two addresses (or two
/// strings) are equal when they denote the same address (the same text), whichever
/// handle reaches them.
#[verifier::ext_equal]
pub enum Data {
    Bool(bool),
    U32(u32),
    U64(u64),
    I128(i128),
    /// A symbol, by its characters.
    Symbol(Seq<char>),
    Address(Address),
    Text(soroban_sdk::String),
    /// A host vector.
    List(Seq<Data>),
    /// A host map whose keys are all symbols: the form in which structs are stored.
    Record(Map<Seq<char>, Data>),
    /// Any other kind of host value.
    Other(Val),
}

/// A storage entry: its value and the number of ledgers, not counting the current one,
/// that it is going to live for.
#[verifier::ext_equal]
pub struct Entry {
    pub value: Data,
    pub ttl: nat,
}

/// A published contract event.
#[verifier::ext_equal]
pub struct Event {
    pub topics: Seq<Data>,
    pub data: Data,
}

/// Everything the library reads or changes through an `Env`.
#[verifier::ext_equal]
pub struct Ledger {
    /// The persistent entries of the running contract.
    pub persistent: Map<Data, Entry>,
    /// The temporary entries of the running contract that have not expired.
    pub temporary: Map<Data, Entry>,
    /// The events published so far, oldest first.
    pub events: Seq<Event>,
    /// Whether a contract is running, which is when its storage can be reached.
    pub in_contract: bool,
    /// The longest time-to-live that the network lets an entry be extended to.
    pub max_ttl: nat,
    /// The time-to-live that the network gives to a new persistent entry.
    pub new_persistent_ttl: nat,
    /// The time-to-live that the network gives to a new temporary entry.
    pub new_temporary_ttl: nat,
}

/// The time-to-live after an extension: an entry that has at most `threshold` ledgers
/// left gets `extend_to` of them, or `max_ttl` where that is less. No entry ever loses
/// any.
pub open spec fn extended_ttl(ttl: nat, threshold: u32, extend_to: u32, max_ttl: nat) -> nat {
    let target = if (extend_to as nat) < max_ttl {
        extend_to as nat
    } else {
        max_ttl
    };
    if ttl <= threshold && ttl < target {
        target
    } else {
        ttl
    }
}

/// `entries` with `value` under `key`. An entry that was there keeps its time-to-live,
/// a new one starts with `new_ttl`.
pub open spec fn written(
    entries: Map<Data, Entry>,
    key: Data,
    value: Data,
    new_ttl: nat,
) -> Map<Data, Entry> {
    let ttl = if entries.contains_key(key) {
        entries[key].ttl
    } else {
        new_ttl
    };
    entries.insert(key, Entry { value, ttl })
}

/// `entries` with the time-to-live of the entry under `key` extended.
pub open spec fn extended(
    entries: Map<Data, Entry>,
    key: Data,
    threshold: u32,
    extend_to: u32,
    max_ttl: nat,
) -> Map<Data, Entry> {
    let entry = entries[key];
    let ttl = extended_ttl(entry.ttl, threshold, extend_to, max_ttl);
    entries.insert(key, Entry { value: entry.value, ttl })
}

/// The time-to-live that the library extends a persistent entry to.
pub const LEDGER_TTL_BUMP: u32 = 432_000;

/// The library extends a persistent entry that has at most this many ledgers left.
pub const LEDGER_TTL_THRESHOLD: u32 = 144_000;

/// The time-to-live that a reentrancy lock gets.
pub const REENTRANCY_LOCK_TTL: u32 = 100;

/// Whether `value` is what the library stores under `key`.
pub open spec fn fits(key: DataKey, value: Data) -> bool {
    match key {
        DataKey::ListingCount
        | DataKey::AuctionCount
        | DataKey::OfferCount
        | DataKey::AuctionExtensionWindow
        | DataKey::AuctionExtensionTrigger => value is U64,
        DataKey::ProtocolFeeBps
        | DataKey::IndexLen(_)
        | DataKey::ActiveListingPos(_)
        | DataKey::ArtistCancelCursor(_)
        | DataKey::BidHistoryCap => value is U32,
        DataKey::MinBidIncrement | DataKey::MinPrice | DataKey::MaxPrice => value is I128,
        DataKey::Admin | DataKey::Treasury | DataKey::PendingAdmin => value is Address,
        DataKey::RevokedArtist(_)
        | DataKey::IsPaused
        | DataKey::ListingLock(_)
        | DataKey::AuctionLock(_)
        | DataKey::MigrationDone(_) => value is Bool,
        DataKey::IndexPage(..)
        | DataKey::ListingPendingOffers(_)
        | DataKey::ArtistListings(_)
        | DataKey::ArtistAuctions(_)
        | DataKey::ListingOffers(_)
        | DataKey::OffererOffers(_)
        | DataKey::ActiveListings => is_ids(value),
        DataKey::AuctionBids(_) => is_bids(value),
        DataKey::MigrationCursor(_) => is_progress(value),
        DataKey::Listing(_) => has_id(value, "listing_id"@),
        DataKey::Auction(_) => has_id(value, "auction_id"@),
        DataKey::Offer(_) => has_id(value, "offer_id"@),
        DataKey::TokenWhitelist => true,
    }
}

impl Ledger {
    /// Whether there is a persistent entry under `key`.
    pub open spec fn has(self, key: DataKey) -> bool {
        self.persistent.contains_key(key@)
    }

    /// The value of the persistent entry under `key`.
    pub open spec fn value(self, key: DataKey) -> Data {
        self.persistent[key@].value
    }

    /// The value of the persistent entry under `key`, where there is one.
    pub open spec fn get(self, key: DataKey) -> Option<Data> {
        if self.has(key) {
            Some(self.value(key))
        } else {
            None
        }
    }

    /// The time-to-live of the persistent entry under `key`.
    pub open spec fn ttl(self, key: DataKey) -> nat {
        self.persistent[key@].ttl
    }

    /// Whether what stands under `key`, if anything does, is of the kind that the
    /// library stores there.
    pub open spec fn fit(self, key: DataKey) -> bool {
        self.has(key) ==> fits(key, self.value(key))
    }

    /// Whether every entry is of the kind that the library stores under its key.
    pub open spec fn well_typed(self) -> bool {
        forall|key: DataKey| #[trigger] self.fit(key)
    }

    /// `ttl` after the extension that the library gives to a persistent entry.
    pub open spec fn bumped(self, ttl: nat) -> nat {
        extended_ttl(ttl, LEDGER_TTL_THRESHOLD, LEDGER_TTL_BUMP, self.max_ttl)
    }

    /// `value` is written under `key`, and the entry's life is extended.
    pub open spec fn put(self, key: DataKey, value: Data) -> Ledger {
        let ttl = if self.has(key) {
            self.ttl(key)
        } else {
            self.new_persistent_ttl
        };
        Ledger {
            persistent: self.persistent.insert(key@, Entry { value, ttl: self.bumped(ttl) }),
            ..self
        }
    }

    /// The life of the entry under `key`, if there is one, is extended.
    pub open spec fn touch(self, key: DataKey) -> Ledger {
        if self.has(key) {
            Ledger {
                persistent: self.persistent.insert(
                    key@,
                    Entry { value: self.value(key), ttl: self.bumped(self.ttl(key)) },
                ),
                ..self
            }
        } else {
            self
        }
    }

    /// The entry under `key`, if there is one, is deleted.
    pub open spec fn remove(self, key: DataKey) -> Ledger {
        Ledger { persistent: self.persistent.remove(key@), ..self }
    }
}

/// A write is what the next read of its key gives back.
pub proof fn law_read_gives_back_write(l: Ledger, key: DataKey, value: Data)
    ensures
        l.put(key, value).get(key) == Some(value),
{
}

/// A write changes the entry of no other key.
pub proof fn law_write_leaves_other_keys(l: Ledger, key: DataKey, value: Data, other: DataKey)
    requires
        other != key,
    ensures
        l.put(key, value).get(other) == l.get(other),
        l.put(key, value).ttl(other) == l.ttl(other),
{
    lemma_keys_differ(other, key);
}

/// After a removal its key has no entry.
pub proof fn law_removed_is_gone(l: Ledger, key: DataKey)
    ensures
        l.remove(key).get(key) is None,
{
}

/// A removal changes the entry of no other key.
pub proof fn law_removal_leaves_other_keys(l: Ledger, key: DataKey, other: DataKey)
    requires
        other != key,
    ensures
        l.remove(key).get(other) == l.get(other),
        l.remove(key).ttl(other) == l.ttl(other),
{
    lemma_keys_differ(other, key);
}

/// Extending the life of one entry changes the value of none.
pub proof fn law_touch_keeps_values(l: Ledger, key: DataKey, other: DataKey)
    ensures
        l.touch(key).get(other) == l.get(other),
{
}

/// An extension never shortens a life. After it the entry has more than the threshold
/// left, or all that the network allows.
pub proof fn law_bump_extends_life(l: Ledger, ttl: nat)
    ensures
        l.bumped(ttl) >= ttl,
        l.bumped(ttl) > LEDGER_TTL_THRESHOLD || l.bumped(ttl) >= l.max_ttl,
{
}

/// Extending a life twice in a row is the same as extending it once.
pub proof fn law_touch_is_idempotent(l: Ledger, key: DataKey)
    ensures
        l.touch(key).touch(key) == l.touch(key),
{
    assert(l.touch(key).touch(key) =~= l.touch(key));
}

/// What the library stores keeps the ledger well typed, and so do removals and
/// extensions.
pub proof fn law_well_typed_is_kept(l: Ledger, key: DataKey, value: Data)
    requires
        l.well_typed(),
    ensures
        fits(key, value) ==> l.put(key, value).well_typed(),
        l.remove(key).well_typed(),
        l.touch(key).well_typed(),
{
    if fits(key, value) {
        assert forall|other: DataKey| #[trigger] l.put(key, value).fit(other) by {
            assert(l.fit(other));
            if other@ == key@ {
                law_keys_are_distinct(other, key);
            }
        }
    }
    assert forall|other: DataKey| #[trigger] l.remove(key).fit(other) by {
        assert(l.fit(other));
    }
    assert forall|other: DataKey| #[trigger] l.touch(key).fit(other) by {
        assert(l.fit(other));
    }
}

/// A ledger without entries is well typed.
pub proof fn law_empty_ledger_is_well_typed(l: Ledger)
    requires
        l.persistent == Map::<Data, Entry>::empty(),
    ensures
        l.well_typed(),
{
    assert forall|key: DataKey| #[trigger] l.fit(key) by {}
}

/// What is under a key is what the entry with the key's data holds, and nothing else.
pub proof fn law_entries_are_found_by_key(l: Ledger, key: DataKey)
    ensures
        l.has(key) <==> l.persistent.contains_key(key@),
        l.has(key) ==> l.get(key) == Some(l.persistent[key@].value),
        l.has(key) ==> l.value(key) == l.persistent[key@].value,
        l.has(key) ==> l.ttl(key) == l.persistent[key@].ttl,
        !l.persistent.contains_key(key@) ==> l.get(key) is None,
{
}

/// An extension gives an entry with at most `threshold` ledgers left the life asked for,
/// or the network's limit where that is shorter, and leaves an entry with more alone.
pub proof fn law_extension_is_exact(ttl: nat, threshold: u32, extend_to: u32, max_ttl: nat)
    requires
        threshold <= extend_to,
    ensures
        ttl > threshold ==> extended_ttl(ttl, threshold, extend_to, max_ttl) == ttl,
        ttl <= threshold && extend_to <= max_ttl ==> extended_ttl(
            ttl,
            threshold,
            extend_to,
            max_ttl,
        ) == extend_to,
        ttl <= threshold && ttl <= max_ttl < extend_to ==> extended_ttl(
            ttl,
            threshold,
            extend_to,
            max_ttl,
        ) == max_ttl,
        max_ttl < ttl <= threshold ==> extended_ttl(ttl, threshold, extend_to, max_ttl) == ttl,
{
}

/// The library's extension gives an entry with at most 144,000 ledgers left 432,000 of
/// them, or the network's limit where that is less, and leaves an entry with more alone.
pub proof fn law_bump_is_exact(l: Ledger, ttl: nat)
    ensures
        ttl > 144_000 ==> l.bumped(ttl) == ttl,
        ttl <= 144_000 && l.max_ttl >= 432_000 ==> l.bumped(ttl) == 432_000,
        ttl <= 144_000 && ttl <= l.max_ttl < 432_000 ==> l.bumped(ttl) == l.max_ttl,
        l.max_ttl < ttl <= 144_000 ==> l.bumped(ttl) == ttl,
{
}

/// A write puts the value under its key, with an extended life, and changes nothing else.
pub proof fn law_write_is_exact(l: Ledger, key: DataKey, value: Data)
    ensures
        l.put(key, value).persistent.contains_key(key@),
        l.put(key, value).persistent[key@].value == value,
        l.persistent.contains_key(key@) ==> l.put(key, value).persistent[key@].ttl == l.bumped(
            l.persistent[key@].ttl,
        ),
        !l.persistent.contains_key(key@) ==> l.put(key, value).persistent[key@].ttl == l.bumped(
            l.new_persistent_ttl,
        ),
        l.put(key, value).persistent.remove(key@) == l.persistent.remove(key@),
        l.put(key, value) == (Ledger { persistent: l.put(key, value).persistent, ..l }),
{
    assert(l.put(key, value).persistent.remove(key@) =~= l.persistent.remove(key@));
}

/// A touch extends the life of the entry under its key, keeps its value, and changes
/// nothing else. Without an entry it changes nothing at all.
pub proof fn law_touch_is_exact(l: Ledger, key: DataKey)
    ensures
        !l.persistent.contains_key(key@) ==> l.touch(key) == l,
        l.persistent.contains_key(key@) ==> {
            &&& l.touch(key).persistent.contains_key(key@)
            &&& l.touch(key).persistent[key@].value == l.persistent[key@].value
            &&& l.touch(key).persistent[key@].ttl == l.bumped(l.persistent[key@].ttl)
        },
        l.touch(key).persistent.remove(key@) == l.persistent.remove(key@),
        l.touch(key) == (Ledger { persistent: l.touch(key).persistent, ..l }),
{
    assert(l.touch(key).persistent.remove(key@) =~= l.persistent.remove(key@));
}

/// A removal deletes the entry under its key and changes nothing else.
pub proof fn law_removal_is_exact(l: Ledger, key: DataKey)
    ensures
        !l.remove(key).persistent.contains_key(key@),
        forall|k: Data| k != key@ ==> (#[trigger] l.remove(key).persistent.contains_key(k)
            <==> l.persistent.contains_key(k)),
        forall|k: Data| k != key@ && l.persistent.contains_key(k) ==> #[trigger] l.remove(
            key,
        ).persistent[k] == l.persistent[k],
        l.remove(key) == (Ledger { persistent: l.remove(key).persistent, ..l }),
{
}

/// A ledger whose entries all fit under their keys is well typed, and nothing else is
/// asked of it.
pub proof fn law_well_typed_is_entry_by_entry(l: Ledger, key: DataKey)
    ensures
        l.fit(key) <==> (l.persistent.contains_key(key@) ==> fits(
            key,
            l.persistent[key@].value,
        )),
        l.well_typed() <==> (forall|k: DataKey| #[trigger]
            l.persistent.contains_key(k@) ==> fits(k, l.persistent[k@].value)),
{
    if l.well_typed() {
        assert forall|k: DataKey| #[trigger] l.persistent.contains_key(k@) implies fits(
            k,
            l.persistent[k@].value,
        ) by {
            assert(l.fit(k));
        }
    }
    if forall|k: DataKey| #[trigger]
        l.persistent.contains_key(k@) ==> fits(k, l.persistent[k@].value) {
        assert forall|k: DataKey| #[trigger] l.fit(k) by {
            if l.persistent.contains_key(k@) {
                assert(fits(k, l.persistent[k@].value));
            }
        }
    }
}

/// Every number fits where a number of its kind is stored.
pub proof fn law_numbers_fit(n: u64, m: u32, amount: i128, id: u64, idx: IndexId, a: Address)
    ensures
        fits(DataKey::ListingCount, Data::U64(n)),
        fits(DataKey::AuctionCount, Data::U64(n)),
        fits(DataKey::OfferCount, Data::U64(n)),
        fits(DataKey::AuctionExtensionWindow, Data::U64(n)),
        fits(DataKey::AuctionExtensionTrigger, Data::U64(n)),
        fits(DataKey::ProtocolFeeBps, Data::U32(m)),
        fits(DataKey::IndexLen(idx), Data::U32(m)),
        fits(DataKey::ActiveListingPos(id), Data::U32(m)),
        fits(DataKey::ArtistCancelCursor(a), Data::U32(m)),
        fits(DataKey::BidHistoryCap, Data::U32(m)),
        fits(DataKey::MinBidIncrement, Data::I128(amount)),
        fits(DataKey::MinPrice, Data::I128(amount)),
        fits(DataKey::MaxPrice, Data::I128(amount)),
{
}

/// Every address and every flag fits where one is stored.
pub proof fn law_addresses_and_flags_fit(
    addr: Address,
    flag: bool,
    a: Address,
    id: u64,
    version: soroban_sdk::String,
)
    ensures
        fits(DataKey::Admin, Data::Address(addr)),
        fits(DataKey::Treasury, Data::Address(addr)),
        fits(DataKey::PendingAdmin, Data::Address(addr)),
        fits(DataKey::RevokedArtist(a), Data::Bool(flag)),
        fits(DataKey::IsPaused, Data::Bool(flag)),
        fits(DataKey::ListingLock(id), Data::Bool(flag)),
        fits(DataKey::AuctionLock(id), Data::Bool(flag)),
        fits(DataKey::MigrationDone(version), Data::Bool(flag)),
{
}

/// Every list of ids fits where one is stored.
pub proof fn law_id_lists_fit(items: Seq<Data>, id: u64, idx: IndexId, page: u32, a: Address)
    requires
        forall|i: int| 0 <= i < items.len() ==> (#[trigger] items[i]) is U64,
    ensures
        fits(DataKey::IndexPage(idx, page), Data::List(items)),
        fits(DataKey::ListingPendingOffers(id), Data::List(items)),
        fits(DataKey::ArtistListings(a), Data::List(items)),
        fits(DataKey::ArtistAuctions(a), Data::List(items)),
        fits(DataKey::ListingOffers(id), Data::List(items)),
        fits(DataKey::OffererOffers(a), Data::List(items)),
        fits(DataKey::ActiveListings, Data::List(items)),
{
}

/// Every list of stored bids, every stored progress marker and every record with its id
/// fits where one is stored.
pub proof fn law_records_fit(
    bids: Seq<BidRecord>,
    progress: MigrationProgress,
    fields: Map<Seq<char>, Data>,
    n: u64,
    id: u64,
    version: soroban_sdk::String,
)
    ensures
        fits(DataKey::AuctionBids(id), Data::List(Seq::new(bids.len(), |i: int| bids[i]@))),
        fits(DataKey::MigrationCursor(version), progress@),
        fits(
            DataKey::Listing(id),
            Data::Record(fields.insert("listing_id"@, Data::U64(n))),
        ),
        fits(
            DataKey::Auction(id),
            Data::Record(fields.insert("auction_id"@, Data::U64(n))),
        ),
        fits(DataKey::Offer(id), Data::Record(fields.insert("offer_id"@, Data::U64(n)))),
{
    let items = Seq::new(bids.len(), |i: int| bids[i]@);
    assert forall|i: int| 0 <= i < items.len() implies is_bid(#[trigger] items[i]) by {
        law_bid_round_trip(bids[i]);
    }
    law_progress_round_trip(progress);
}

} // verus!
