//! Listings, auctions and offers by their ids.
use soroban_sdk::Env;
use vstd::prelude::*;

use crate::host::{ledger, val_data};
use crate::keys::DataKey;
use crate::ledger::{Data, Ledger};
use crate::store::{load_alive, store};
use crate::types::{has_id, id_in, val_auction, val_listing, val_offer, Auction, Listing, Offer};

verus! {

/// A saved listing fits under its key and is what a load of its id finds.
pub proof fn law_saved_listing_is_found(l: Ledger, listing: Listing)
    requires
        listing.wf(),
    ensures
        l.put(DataKey::Listing(listing.listing_id), val_data(listing.record)).get(
            DataKey::Listing(listing.listing_id),
        ) == Some(val_data(listing.record)),
        l.put(DataKey::Listing(listing.listing_id), val_data(listing.record)).fit(
            DataKey::Listing(listing.listing_id),
        ),
        id_in(val_data(listing.record), "listing_id"@) == listing.listing_id,
{
}

/// A saved auction fits under its key and is what a load of its id finds.
pub proof fn law_saved_auction_is_found(l: Ledger, auction: Auction)
    requires
        auction.wf(),
    ensures
        l.put(DataKey::Auction(auction.auction_id), val_data(auction.record)).get(
            DataKey::Auction(auction.auction_id),
        ) == Some(val_data(auction.record)),
        l.put(DataKey::Auction(auction.auction_id), val_data(auction.record)).fit(
            DataKey::Auction(auction.auction_id),
        ),
        id_in(val_data(auction.record), "auction_id"@) == auction.auction_id,
{
}

/// A saved offer fits under its key and is what a load of its id finds.
pub proof fn law_saved_offer_is_found(l: Ledger, offer: Offer)
    requires
        offer.wf(),
    ensures
        l.put(DataKey::Offer(offer.offer_id), val_data(offer.record)).get(
            DataKey::Offer(offer.offer_id),
        ) == Some(val_data(offer.record)),
        l.put(DataKey::Offer(offer.offer_id), val_data(offer.record)).fit(
            DataKey::Offer(offer.offer_id),
        ),
        id_in(val_data(offer.record), "offer_id"@) == offer.offer_id,
{
}

/// Whatever number stands in the id field of a stored record, that is the id that the
/// record is read with, so a record that is stored under its own id is read with that id.
pub proof fn law_ids_are_read_as_stored(fields: Map<Seq<char>, Data>, name: Seq<char>, n: u64)
    requires
        fields.contains_key(name),
        fields[name] == Data::U64(n),
    ensures
        has_id(Data::Record(fields), name),
        id_in(Data::Record(fields), name) == n,
{
}

/// Store a listing under its id.
pub fn save_listing(env: &mut Env, listing: &Listing)
    requires
        ledger(*old(env)).in_contract,
        listing.wf(),
    ensures
        ledger(*final(env)) == ledger(*old(env)).put(
            DataKey::Listing(listing.listing_id),
            val_data(listing.record),
        ),
{
    let key = DataKey::Listing(listing.listing_id);
    store(env, &key, listing.record);
}

/// Load the listing with the given id, or `None` when there is none.
pub fn load_listing(env: &mut Env, listing_id: u64) -> (found: Option<Listing>)
    requires
        ledger(*old(env)).in_contract,
        ledger(*old(env)).fit(DataKey::Listing(listing_id)),
    ensures
        found is Some == ledger(*old(env)).has(DataKey::Listing(listing_id)),
        found matches Some(listing) ==> {
            &&& listing.wf()
            &&& val_data(listing.record) == ledger(*old(env)).value(DataKey::Listing(listing_id))
        },
        found matches Some(listing) ==> {
            &&& val_data(listing.record) is Record
            &&& val_data(listing.record)->Record_0["listing_id"@] == Data::U64(listing.listing_id)
        },
        found matches Some(listing) ==> ledger(*old(env)).value(
            DataKey::Listing(listing_id),
        )->Record_0["listing_id"@] == Data::U64(listing_id) ==> listing.listing_id == listing_id,
        ledger(*final(env)) == ledger(*old(env)).touch(DataKey::Listing(listing_id)),
{
    let key = DataKey::Listing(listing_id);
    match load_alive(env, &key) {
        Some(v) => Some(val_listing(env, v)),
        None => None,
    }
}

/// Store an auction under its id.
pub fn save_auction(env: &mut Env, auction: &Auction)
    requires
        ledger(*old(env)).in_contract,
        auction.wf(),
    ensures
        ledger(*final(env)) == ledger(*old(env)).put(
            DataKey::Auction(auction.auction_id),
            val_data(auction.record),
        ),
{
    let key = DataKey::Auction(auction.auction_id);
    store(env, &key, auction.record);
}

/// Load the auction with the given id, or `None` when there is none.
pub fn load_auction(env: &mut Env, auction_id: u64) -> (found: Option<Auction>)
    requires
        ledger(*old(env)).in_contract,
        ledger(*old(env)).fit(DataKey::Auction(auction_id)),
    ensures
        found is Some == ledger(*old(env)).has(DataKey::Auction(auction_id)),
        found matches Some(auction) ==> {
            &&& auction.wf()
            &&& val_data(auction.record) == ledger(*old(env)).value(DataKey::Auction(auction_id))
        },
        found matches Some(auction) ==> {
            &&& val_data(auction.record) is Record
            &&& val_data(auction.record)->Record_0["auction_id"@] == Data::U64(auction.auction_id)
        },
        found matches Some(auction) ==> ledger(*old(env)).value(
            DataKey::Auction(auction_id),
        )->Record_0["auction_id"@] == Data::U64(auction_id) ==> auction.auction_id == auction_id,
        ledger(*final(env)) == ledger(*old(env)).touch(DataKey::Auction(auction_id)),
{
    let key = DataKey::Auction(auction_id);
    match load_alive(env, &key) {
        Some(v) => Some(val_auction(env, v)),
        None => None,
    }
}

/// Store an offer under its id.
pub fn save_offer(env: &mut Env, offer: &Offer)
    requires
        ledger(*old(env)).in_contract,
        offer.wf(),
    ensures
        ledger(*final(env)) == ledger(*old(env)).put(
            DataKey::Offer(offer.offer_id),
            val_data(offer.record),
        ),
{
    let key = DataKey::Offer(offer.offer_id);
    store(env, &key, offer.record);
}

/// Load the offer with the given id, or `None` when there is none.
pub fn load_offer(env: &mut Env, offer_id: u64) -> (found: Option<Offer>)
    requires
        ledger(*old(env)).in_contract,
        ledger(*old(env)).fit(DataKey::Offer(offer_id)),
    ensures
        found is Some == ledger(*old(env)).has(DataKey::Offer(offer_id)),
        found matches Some(offer) ==> {
            &&& offer.wf()
            &&& val_data(offer.record) == ledger(*old(env)).value(DataKey::Offer(offer_id))
        },
        found matches Some(offer) ==> {
            &&& val_data(offer.record) is Record
            &&& val_data(offer.record)->Record_0["offer_id"@] == Data::U64(offer.offer_id)
        },
        found matches Some(offer) ==> ledger(*old(env)).value(
            DataKey::Offer(offer_id),
        )->Record_0["offer_id"@] == Data::U64(offer_id) ==> offer.offer_id == offer_id,
        ledger(*final(env)) == ledger(*old(env)).touch(DataKey::Offer(offer_id)),
{
    let key = DataKey::Offer(offer_id);
    match load_alive(env, &key) {
        Some(v) => Some(val_offer(env, v)),
        None => None,
    }
}

} // verus!
