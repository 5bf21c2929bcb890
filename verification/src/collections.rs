//! The append-only collections of ids: per artist, per offerer and per listing.
use soroban_sdk::{Address, Env};
use vstd::prelude::*;

use crate::host::{holds_ids, ledger};
use crate::index::{index_all, index_append};
use crate::keys::IndexId;

verus! {

/// Note a listing that an artist created.
pub fn add_artist_listing_id(env: &mut Env, artist: &Address, listing_id: u64)
    requires
        ledger(*old(env)).in_contract,
        ledger(*old(env)).appendable(IndexId::ArtistListings(*artist)),
    ensures
        ledger(*final(env)) == ledger(*old(env)).appended(
            IndexId::ArtistListings(*artist),
            listing_id,
        ),
        ledger(*old(env)).index_wf(IndexId::ArtistListings(*artist)) ==> {
            &&& ledger(*final(env)).index_wf(IndexId::ArtistListings(*artist))
            &&& ledger(*final(env)).index_seq(IndexId::ArtistListings(*artist)) == ledger(
                *old(env),
            ).index_seq(IndexId::ArtistListings(*artist)).push(listing_id)
        },
{
    index_append(env, &IndexId::ArtistListings(artist.clone()), listing_id);
}

/// All listings that an artist ever created, oldest first.
pub fn get_artist_listing_ids(env: &mut Env, artist: &Address) -> (out: soroban_sdk::Vec<u64>)
    requires
        ledger(*old(env)).in_contract,
        ledger(*old(env)).all_readable(IndexId::ArtistListings(*artist)),
    ensures
        holds_ids(out, ledger(*old(env)).index_seq(IndexId::ArtistListings(*artist))),
        ledger(*final(env)) == ledger(*old(env)).range_read(
            IndexId::ArtistListings(*artist),
            0,
            ledger(*old(env)).index_len(IndexId::ArtistListings(*artist)) as u32,
        ),
{
    index_all(env, &IndexId::ArtistListings(artist.clone()))
}

/// Note an auction that an artist created.
pub fn add_artist_auction_id(env: &mut Env, artist: &Address, auction_id: u64)
    requires
        ledger(*old(env)).in_contract,
        ledger(*old(env)).appendable(IndexId::ArtistAuctions(*artist)),
    ensures
        ledger(*final(env)) == ledger(*old(env)).appended(
            IndexId::ArtistAuctions(*artist),
            auction_id,
        ),
        ledger(*old(env)).index_wf(IndexId::ArtistAuctions(*artist)) ==> {
            &&& ledger(*final(env)).index_wf(IndexId::ArtistAuctions(*artist))
            &&& ledger(*final(env)).index_seq(IndexId::ArtistAuctions(*artist)) == ledger(
                *old(env),
            ).index_seq(IndexId::ArtistAuctions(*artist)).push(auction_id)
        },
{
    index_append(env, &IndexId::ArtistAuctions(artist.clone()), auction_id);
}

/// All auctions that an artist ever created, oldest first.
pub fn get_artist_auction_ids(env: &mut Env, artist: &Address) -> (out: soroban_sdk::Vec<u64>)
    requires
        ledger(*old(env)).in_contract,
        ledger(*old(env)).all_readable(IndexId::ArtistAuctions(*artist)),
    ensures
        holds_ids(out, ledger(*old(env)).index_seq(IndexId::ArtistAuctions(*artist))),
        ledger(*final(env)) == ledger(*old(env)).range_read(
            IndexId::ArtistAuctions(*artist),
            0,
            ledger(*old(env)).index_len(IndexId::ArtistAuctions(*artist)) as u32,
        ),
{
    index_all(env, &IndexId::ArtistAuctions(artist.clone()))
}

/// Note an offer that was made on a listing.
pub fn add_listing_offer_id(env: &mut Env, listing_id: u64, offer_id: u64)
    requires
        ledger(*old(env)).in_contract,
        ledger(*old(env)).appendable(IndexId::ListingOffers(listing_id)),
    ensures
        ledger(*final(env)) == ledger(*old(env)).appended(
            IndexId::ListingOffers(listing_id),
            offer_id,
        ),
        ledger(*old(env)).index_wf(IndexId::ListingOffers(listing_id)) ==> {
            &&& ledger(*final(env)).index_wf(IndexId::ListingOffers(listing_id))
            &&& ledger(*final(env)).index_seq(IndexId::ListingOffers(listing_id)) == ledger(
                *old(env),
            ).index_seq(IndexId::ListingOffers(listing_id)).push(offer_id)
        },
{
    index_append(env, &IndexId::ListingOffers(listing_id), offer_id);
}

/// All offers ever made on a listing, oldest first.
pub fn load_listing_offers(env: &mut Env, listing_id: u64) -> (out: soroban_sdk::Vec<u64>)
    requires
        ledger(*old(env)).in_contract,
        ledger(*old(env)).all_readable(IndexId::ListingOffers(listing_id)),
    ensures
        holds_ids(out, ledger(*old(env)).index_seq(IndexId::ListingOffers(listing_id))),
        ledger(*final(env)) == ledger(*old(env)).range_read(
            IndexId::ListingOffers(listing_id),
            0,
            ledger(*old(env)).index_len(IndexId::ListingOffers(listing_id)) as u32,
        ),
{
    index_all(env, &IndexId::ListingOffers(listing_id))
}

/// Note an offer that an offerer made.
pub fn add_offerer_offer_id(env: &mut Env, offerer: &Address, offer_id: u64)
    requires
        ledger(*old(env)).in_contract,
        ledger(*old(env)).appendable(IndexId::OffererOffers(*offerer)),
    ensures
        ledger(*final(env)) == ledger(*old(env)).appended(
            IndexId::OffererOffers(*offerer),
            offer_id,
        ),
        ledger(*old(env)).index_wf(IndexId::OffererOffers(*offerer)) ==> {
            &&& ledger(*final(env)).index_wf(IndexId::OffererOffers(*offerer))
            &&& ledger(*final(env)).index_seq(IndexId::OffererOffers(*offerer)) == ledger(
                *old(env),
            ).index_seq(IndexId::OffererOffers(*offerer)).push(offer_id)
        },
{
    index_append(env, &IndexId::OffererOffers(offerer.clone()), offer_id);
}

/// All offers that an offerer ever made, oldest first.
pub fn load_offerer_offers(env: &mut Env, offerer: &Address) -> (out: soroban_sdk::Vec<u64>)
    requires
        ledger(*old(env)).in_contract,
        ledger(*old(env)).all_readable(IndexId::OffererOffers(*offerer)),
    ensures
        holds_ids(out, ledger(*old(env)).index_seq(IndexId::OffererOffers(*offerer))),
        ledger(*final(env)) == ledger(*old(env)).range_read(
            IndexId::OffererOffers(*offerer),
            0,
            ledger(*old(env)).index_len(IndexId::OffererOffers(*offerer)) as u32,
        ),
{
    index_all(env, &IndexId::OffererOffers(offerer.clone()))
}

} // verus!
