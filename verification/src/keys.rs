//! The keys of the marketplace's storage entries and the form in which the host sees
//! them.
use soroban_sdk::{Address, Env, Val};
use vstd::prelude::*;

use crate::host::{
    address_val, is_symbol, list_new, list_push_back, list_val, symbol_val, text_val, u32_val,
    u64_val, val_data,
};
use crate::ledger::Data;

verus! {

/// Identifies one of the growing id-collections kept by the marketplace.
///
/// Every index is stored as a sequence of fixed-capacity pages
/// (`DataKey::IndexPage(id, page_no)`) plus a single length key
/// (`DataKey::IndexLen(id)`), so no individual storage entry grows unboundedly
/// with protocol usage. The number of pages follows from the length.
pub enum IndexId {
    /// Global set of currently-active listing ids (supports swap-removal).
    ActiveListings,
    /// All listing ids ever created by an artist (append-only).
    ArtistListings(Address),
    /// All auction ids ever created by an artist (append-only).
    ArtistAuctions(Address),
    /// All offer ids ever made by an offerer (append-only).
    OffererOffers(Address),
    /// All offer ids ever made on a listing (append-only).
    ListingOffers(u64),
}

/// The key of a storage entry.
pub enum DataKey {
    ListingCount,
    Listing(u64),
    /// Legacy: monolithic per-artist listing index, only read by the migration.
    ArtistListings(Address),
    Admin,
    TokenWhitelist,
    Treasury,
    ProtocolFeeBps,
    AuctionCount,
    Auction(u64),
    /// Legacy: monolithic per-artist auction index.
    ArtistAuctions(Address),
    RevokedArtist(Address),
    OfferCount,
    Offer(u64),
    /// Legacy: monolithic per-listing offer index.
    ListingOffers(u64),
    /// Legacy: monolithic per-offerer offer index.
    OffererOffers(Address),
    ListingLock(u64),
    AuctionLock(u64),
    IsPaused,
    PendingAdmin,
    /// Legacy: monolithic active-listings index.
    ActiveListings,
    MinBidIncrement,
    AuctionExtensionWindow,
    AuctionExtensionTrigger,
    AuctionBids(u64),
    MinPrice,
    MaxPrice,
    MigrationDone(soroban_sdk::String),
    /// One fixed-capacity page of the identified index.
    IndexPage(IndexId, u32),
    /// Total number of elements stored across all pages of the index.
    IndexLen(IndexId),
    /// Current position of an active listing inside the active-listings index. Exists
    /// iff the listing is in the index.
    ActiveListingPos(u64),
    /// The listing's pending offer ids; its length is the pending-offer counter.
    ListingPendingOffers(u64),
    /// Resume position of the batched cancellation of an artist's listings.
    ArtistCancelCursor(Address),
    /// Resumable progress of a versioned migration.
    MigrationCursor(soroban_sdk::String),
    /// Global default for the bid history cap of a new auction.
    BidHistoryCap,
}

impl Clone for IndexId {
    fn clone(&self) -> (copy: Self)
        ensures
            copy == *self,
    {
        match self {
            IndexId::ActiveListings => IndexId::ActiveListings,
            IndexId::ArtistListings(a) => IndexId::ArtistListings(a.clone()),
            IndexId::ArtistAuctions(a) => IndexId::ArtistAuctions(a.clone()),
            IndexId::OffererOffers(a) => IndexId::OffererOffers(a.clone()),
            IndexId::ListingOffers(id) => IndexId::ListingOffers(*id),
        }
    }
}

impl Clone for DataKey {
    fn clone(&self) -> (copy: Self)
        ensures
            copy == *self,
    {
        match self {
            DataKey::ListingCount => DataKey::ListingCount,
            DataKey::Listing(id) => DataKey::Listing(*id),
            DataKey::ArtistListings(a) => DataKey::ArtistListings(a.clone()),
            DataKey::Admin => DataKey::Admin,
            DataKey::TokenWhitelist => DataKey::TokenWhitelist,
            DataKey::Treasury => DataKey::Treasury,
            DataKey::ProtocolFeeBps => DataKey::ProtocolFeeBps,
            DataKey::AuctionCount => DataKey::AuctionCount,
            DataKey::Auction(id) => DataKey::Auction(*id),
            DataKey::ArtistAuctions(a) => DataKey::ArtistAuctions(a.clone()),
            DataKey::RevokedArtist(a) => DataKey::RevokedArtist(a.clone()),
            DataKey::OfferCount => DataKey::OfferCount,
            DataKey::Offer(id) => DataKey::Offer(*id),
            DataKey::ListingOffers(id) => DataKey::ListingOffers(*id),
            DataKey::OffererOffers(a) => DataKey::OffererOffers(a.clone()),
            DataKey::ListingLock(id) => DataKey::ListingLock(*id),
            DataKey::AuctionLock(id) => DataKey::AuctionLock(*id),
            DataKey::IsPaused => DataKey::IsPaused,
            DataKey::PendingAdmin => DataKey::PendingAdmin,
            DataKey::ActiveListings => DataKey::ActiveListings,
            DataKey::MinBidIncrement => DataKey::MinBidIncrement,
            DataKey::AuctionExtensionWindow => DataKey::AuctionExtensionWindow,
            DataKey::AuctionExtensionTrigger => DataKey::AuctionExtensionTrigger,
            DataKey::AuctionBids(id) => DataKey::AuctionBids(*id),
            DataKey::MinPrice => DataKey::MinPrice,
            DataKey::MaxPrice => DataKey::MaxPrice,
            DataKey::MigrationDone(version) => DataKey::MigrationDone(version.clone()),
            DataKey::IndexPage(id, page) => DataKey::IndexPage(id.clone(), *page),
            DataKey::IndexLen(id) => DataKey::IndexLen(id.clone()),
            DataKey::ActiveListingPos(id) => DataKey::ActiveListingPos(*id),
            DataKey::ListingPendingOffers(id) => DataKey::ListingPendingOffers(*id),
            DataKey::ArtistCancelCursor(a) => DataKey::ArtistCancelCursor(a.clone()),
            DataKey::MigrationCursor(version) => DataKey::MigrationCursor(version.clone()),
            DataKey::BidHistoryCap => DataKey::BidHistoryCap,
        }
    }
}

/// The data of an enum variant without a payload.
pub open spec fn variant0(name: Seq<char>) -> Data {
    Data::List(seq![Data::Symbol(name)])
}

/// The data of an enum variant with one payload value.
pub open spec fn variant1(name: Seq<char>, a: Data) -> Data {
    Data::List(seq![Data::Symbol(name), a])
}

/// The data of an enum variant with two payload values.
pub open spec fn variant2(name: Seq<char>, a: Data, b: Data) -> Data {
    Data::List(seq![Data::Symbol(name), a, b])
}

impl View for IndexId {
    type V = Data;

    /// An index id is stored as a list: the variant's name, then its payload.
    open spec fn view(&self) -> Data {
        match *self {
            IndexId::ActiveListings => variant0("ActiveListings"@),
            IndexId::ArtistListings(a) => variant1("ArtistListings"@, Data::Address(a)),
            IndexId::ArtistAuctions(a) => variant1("ArtistAuctions"@, Data::Address(a)),
            IndexId::OffererOffers(a) => variant1("OffererOffers"@, Data::Address(a)),
            IndexId::ListingOffers(id) => variant1("ListingOffers"@, Data::U64(id)),
        }
    }
}

impl View for DataKey {
    type V = Data;

    /// A key is stored as a list: the variant's name, then its payload.
    open spec fn view(&self) -> Data {
        match *self {
            DataKey::ListingCount => variant0("ListingCount"@),
            DataKey::Listing(id) => variant1("Listing"@, Data::U64(id)),
            DataKey::ArtistListings(a) => variant1("ArtistListings"@, Data::Address(a)),
            DataKey::Admin => variant0("Admin"@),
            DataKey::TokenWhitelist => variant0("TokenWhitelist"@),
            DataKey::Treasury => variant0("Treasury"@),
            DataKey::ProtocolFeeBps => variant0("ProtocolFeeBps"@),
            DataKey::AuctionCount => variant0("AuctionCount"@),
            DataKey::Auction(id) => variant1("Auction"@, Data::U64(id)),
            DataKey::ArtistAuctions(a) => variant1("ArtistAuctions"@, Data::Address(a)),
            DataKey::RevokedArtist(a) => variant1("RevokedArtist"@, Data::Address(a)),
            DataKey::OfferCount => variant0("OfferCount"@),
            DataKey::Offer(id) => variant1("Offer"@, Data::U64(id)),
            DataKey::ListingOffers(id) => variant1("ListingOffers"@, Data::U64(id)),
            DataKey::OffererOffers(a) => variant1("OffererOffers"@, Data::Address(a)),
            DataKey::ListingLock(id) => variant1("ListingLock"@, Data::U64(id)),
            DataKey::AuctionLock(id) => variant1("AuctionLock"@, Data::U64(id)),
            DataKey::IsPaused => variant0("IsPaused"@),
            DataKey::PendingAdmin => variant0("PendingAdmin"@),
            DataKey::ActiveListings => variant0("ActiveListings"@),
            DataKey::MinBidIncrement => variant0("MinBidIncrement"@),
            DataKey::AuctionExtensionWindow => variant0("AuctionExtensionWindow"@),
            DataKey::AuctionExtensionTrigger => variant0("AuctionExtensionTrigger"@),
            DataKey::AuctionBids(id) => variant1("AuctionBids"@, Data::U64(id)),
            DataKey::MinPrice => variant0("MinPrice"@),
            DataKey::MaxPrice => variant0("MaxPrice"@),
            DataKey::MigrationDone(version) => variant1("MigrationDone"@, Data::Text(version)),
            DataKey::IndexPage(id, page) => variant2("IndexPage"@, id@, Data::U32(page)),
            DataKey::IndexLen(id) => variant1("IndexLen"@, id@),
            DataKey::ActiveListingPos(id) => variant1("ActiveListingPos"@, Data::U64(id)),
            DataKey::ListingPendingOffers(id) => variant1("ListingPendingOffers"@, Data::U64(id)),
            DataKey::ArtistCancelCursor(a) => variant1("ArtistCancelCursor"@, Data::Address(a)),
            DataKey::MigrationCursor(version) => variant1("MigrationCursor"@, Data::Text(version)),
            DataKey::BidHistoryCap => variant0("BidHistoryCap"@),
        }
    }
}

/// Makes the host value of a variant without a payload.
fn variant0_val(env: &Env, name: &str) -> (v: Val)
    requires
        is_symbol(name@),
    ensures
        val_data(v) == variant0(name@),
{
    let mut list = list_new(env);
    list_push_back(&mut list, symbol_val(env, name));
    let v = list_val(&list);
    assert(val_data(v)->List_0 =~= seq![Data::Symbol(name@)]);
    v
}

/// Makes the host value of a variant with one payload value.
fn variant1_val(env: &Env, name: &str, a: Val) -> (v: Val)
    requires
        is_symbol(name@),
    ensures
        val_data(v) == variant1(name@, val_data(a)),
{
    let mut list = list_new(env);
    list_push_back(&mut list, symbol_val(env, name));
    list_push_back(&mut list, a);
    let v = list_val(&list);
    assert(val_data(v)->List_0 =~= seq![Data::Symbol(name@), val_data(a)]);
    v
}

/// Makes the host value of a variant with two payload values.
fn variant2_val(env: &Env, name: &str, a: Val, b: Val) -> (v: Val)
    requires
        is_symbol(name@),
    ensures
        val_data(v) == variant2(name@, val_data(a), val_data(b)),
{
    let mut list = list_new(env);
    list_push_back(&mut list, symbol_val(env, name));
    list_push_back(&mut list, a);
    list_push_back(&mut list, b);
    let v = list_val(&list);
    assert(val_data(v)->List_0 =~= seq![Data::Symbol(name@), val_data(a), val_data(b)]);
    v
}

proof fn lemma_index_names()
    ensures
        is_symbol("ActiveListings"@),
        is_symbol("ArtistListings"@),
        is_symbol("ArtistAuctions"@),
        is_symbol("OffererOffers"@),
        is_symbol("ListingOffers"@),
{
    reveal_strlit("ActiveListings");
    reveal_strlit("ArtistListings");
    reveal_strlit("ArtistAuctions");
    reveal_strlit("OffererOffers");
    reveal_strlit("ListingOffers");
}

/// Makes the host value of an index id.
pub(crate) fn index_id_val(env: &Env, id: &IndexId) -> (v: Val)
    ensures
        val_data(v) == id@,
{
    proof {
        lemma_index_names();
    }
    match id {
        IndexId::ActiveListings => variant0_val(env, "ActiveListings"),
        IndexId::ArtistListings(a) => variant1_val(env, "ArtistListings", address_val(a)),
        IndexId::ArtistAuctions(a) => variant1_val(env, "ArtistAuctions", address_val(a)),
        IndexId::OffererOffers(a) => variant1_val(env, "OffererOffers", address_val(a)),
        IndexId::ListingOffers(n) => variant1_val(env, "ListingOffers", u64_val(env, *n)),
    }
}

proof fn lemma_key_names()
    ensures
        is_symbol("ListingCount"@),
        is_symbol("Listing"@),
        is_symbol("Admin"@),
        is_symbol("TokenWhitelist"@),
        is_symbol("Treasury"@),
        is_symbol("ProtocolFeeBps"@),
        is_symbol("AuctionCount"@),
        is_symbol("Auction"@),
        is_symbol("RevokedArtist"@),
        is_symbol("OfferCount"@),
        is_symbol("Offer"@),
        is_symbol("ListingLock"@),
        is_symbol("AuctionLock"@),
        is_symbol("IsPaused"@),
        is_symbol("PendingAdmin"@),
        is_symbol("MinBidIncrement"@),
        is_symbol("AuctionExtensionWindow"@),
        is_symbol("AuctionExtensionTrigger"@),
        is_symbol("AuctionBids"@),
        is_symbol("MinPrice"@),
        is_symbol("MaxPrice"@),
        is_symbol("MigrationDone"@),
        is_symbol("IndexPage"@),
        is_symbol("IndexLen"@),
        is_symbol("ActiveListingPos"@),
        is_symbol("ListingPendingOffers"@),
        is_symbol("ArtistCancelCursor"@),
        is_symbol("MigrationCursor"@),
        is_symbol("BidHistoryCap"@),
{
    reveal_strlit("ListingCount");
    reveal_strlit("Listing");
    reveal_strlit("Admin");
    reveal_strlit("TokenWhitelist");
    reveal_strlit("Treasury");
    reveal_strlit("ProtocolFeeBps");
    reveal_strlit("AuctionCount");
    reveal_strlit("Auction");
    reveal_strlit("RevokedArtist");
    reveal_strlit("OfferCount");
    reveal_strlit("Offer");
    reveal_strlit("ListingLock");
    reveal_strlit("AuctionLock");
    reveal_strlit("IsPaused");
    reveal_strlit("PendingAdmin");
    reveal_strlit("MinBidIncrement");
    reveal_strlit("AuctionExtensionWindow");
    reveal_strlit("AuctionExtensionTrigger");
    reveal_strlit("AuctionBids");
    reveal_strlit("MinPrice");
    reveal_strlit("MaxPrice");
    reveal_strlit("MigrationDone");
    reveal_strlit("IndexPage");
    reveal_strlit("IndexLen");
    reveal_strlit("ActiveListingPos");
    reveal_strlit("ListingPendingOffers");
    reveal_strlit("ArtistCancelCursor");
    reveal_strlit("MigrationCursor");
    reveal_strlit("BidHistoryCap");
}

/// Makes the host value of a key.
pub(crate) fn key_val(env: &Env, key: &DataKey) -> (v: Val)
    ensures
        val_data(v) == key@,
{
    proof {
        lemma_index_names();
        lemma_key_names();
    }
    match key {
        DataKey::ListingCount => variant0_val(env, "ListingCount"),
        DataKey::Listing(id) => variant1_val(env, "Listing", u64_val(env, *id)),
        DataKey::ArtistListings(a) => variant1_val(env, "ArtistListings", address_val(a)),
        DataKey::Admin => variant0_val(env, "Admin"),
        DataKey::TokenWhitelist => variant0_val(env, "TokenWhitelist"),
        DataKey::Treasury => variant0_val(env, "Treasury"),
        DataKey::ProtocolFeeBps => variant0_val(env, "ProtocolFeeBps"),
        DataKey::AuctionCount => variant0_val(env, "AuctionCount"),
        DataKey::Auction(id) => variant1_val(env, "Auction", u64_val(env, *id)),
        DataKey::ArtistAuctions(a) => variant1_val(env, "ArtistAuctions", address_val(a)),
        DataKey::RevokedArtist(a) => variant1_val(env, "RevokedArtist", address_val(a)),
        DataKey::OfferCount => variant0_val(env, "OfferCount"),
        DataKey::Offer(id) => variant1_val(env, "Offer", u64_val(env, *id)),
        DataKey::ListingOffers(id) => variant1_val(env, "ListingOffers", u64_val(env, *id)),
        DataKey::OffererOffers(a) => variant1_val(env, "OffererOffers", address_val(a)),
        DataKey::ListingLock(id) => variant1_val(env, "ListingLock", u64_val(env, *id)),
        DataKey::AuctionLock(id) => variant1_val(env, "AuctionLock", u64_val(env, *id)),
        DataKey::IsPaused => variant0_val(env, "IsPaused"),
        DataKey::PendingAdmin => variant0_val(env, "PendingAdmin"),
        DataKey::ActiveListings => variant0_val(env, "ActiveListings"),
        DataKey::MinBidIncrement => variant0_val(env, "MinBidIncrement"),
        DataKey::AuctionExtensionWindow => variant0_val(env, "AuctionExtensionWindow"),
        DataKey::AuctionExtensionTrigger => variant0_val(env, "AuctionExtensionTrigger"),
        DataKey::AuctionBids(id) => variant1_val(env, "AuctionBids", u64_val(env, *id)),
        DataKey::MinPrice => variant0_val(env, "MinPrice"),
        DataKey::MaxPrice => variant0_val(env, "MaxPrice"),
        DataKey::MigrationDone(version) => variant1_val(env, "MigrationDone", text_val(version)),
        DataKey::IndexPage(id, page) => {
            let index = index_id_val(env, id);
            variant2_val(env, "IndexPage", index, u32_val(env, *page))
        },
        DataKey::IndexLen(id) => {
            let index = index_id_val(env, id);
            variant1_val(env, "IndexLen", index)
        },
        DataKey::ActiveListingPos(id) => {
            variant1_val(env, "ActiveListingPos", u64_val(env, *id))
        },
        DataKey::ListingPendingOffers(id) => {
            variant1_val(env, "ListingPendingOffers", u64_val(env, *id))
        },
        DataKey::ArtistCancelCursor(a) => variant1_val(env, "ArtistCancelCursor", address_val(a)),
        DataKey::MigrationCursor(version) => {
            variant1_val(env, "MigrationCursor", text_val(version))
        },
        DataKey::BidHistoryCap => variant0_val(env, "BidHistoryCap"),
    }
}

/// Two index ids with the same data are the same index id.
pub proof fn law_index_ids_are_distinct(a: IndexId, b: IndexId)
    requires
        a@ == b@,
    ensures
        a == b,
{
    reveal_strlit("ActiveListings");
    reveal_strlit("ArtistListings");
    reveal_strlit("ArtistAuctions");
    reveal_strlit("OffererOffers");
    reveal_strlit("ListingOffers");
    assert("ActiveListings"@[1] == 'c');
    assert("ArtistListings"@[1] == 'r');
    assert("ArtistListings"@[6] == 'L');
    assert("ArtistAuctions"@[1] == 'r');
    assert("ArtistAuctions"@[6] == 'A');
    assert("OffererOffers"@[0] == 'O');
    assert("ListingOffers"@[0] == 'L');
    assert(a@->List_0[0] == b@->List_0[0]);
    if a@->List_0.len() == 2 {
        assert(a@->List_0[1] == b@->List_0[1]);
    }
}

/// Two keys with the same data are the same key: no two keys ever share an entry.
pub proof fn law_keys_are_distinct(a: DataKey, b: DataKey)
    requires
        a@ == b@,
    ensures
        a == b,
{
    reveal_strlit("ActiveListings");
    reveal_strlit("ArtistListings");
    reveal_strlit("ArtistAuctions");
    reveal_strlit("OffererOffers");
    reveal_strlit("ListingOffers");
    reveal_strlit("ListingCount");
    reveal_strlit("Listing");
    reveal_strlit("Admin");
    reveal_strlit("TokenWhitelist");
    reveal_strlit("Treasury");
    reveal_strlit("ProtocolFeeBps");
    reveal_strlit("AuctionCount");
    reveal_strlit("Auction");
    reveal_strlit("RevokedArtist");
    reveal_strlit("OfferCount");
    reveal_strlit("Offer");
    reveal_strlit("ListingLock");
    reveal_strlit("AuctionLock");
    reveal_strlit("IsPaused");
    reveal_strlit("PendingAdmin");
    reveal_strlit("MinBidIncrement");
    reveal_strlit("AuctionExtensionWindow");
    reveal_strlit("AuctionExtensionTrigger");
    reveal_strlit("AuctionBids");
    reveal_strlit("MinPrice");
    reveal_strlit("MaxPrice");
    reveal_strlit("MigrationDone");
    reveal_strlit("IndexPage");
    reveal_strlit("IndexLen");
    reveal_strlit("ActiveListingPos");
    reveal_strlit("ListingPendingOffers");
    reveal_strlit("ArtistCancelCursor");
    reveal_strlit("MigrationCursor");
    reveal_strlit("BidHistoryCap");
    assert("ActiveListings"@.len() == 14);
    assert("ArtistListings"@.len() == 14);
    assert("ArtistAuctions"@.len() == 14);
    assert("OffererOffers"@.len() == 13);
    assert("ListingOffers"@.len() == 13);
    assert("ListingCount"@.len() == 12);
    assert("Listing"@.len() == 7);
    assert("Admin"@.len() == 5);
    assert("TokenWhitelist"@.len() == 14);
    assert("Treasury"@.len() == 8);
    assert("ProtocolFeeBps"@.len() == 14);
    assert("AuctionCount"@.len() == 12);
    assert("Auction"@.len() == 7);
    assert("RevokedArtist"@.len() == 13);
    assert("OfferCount"@.len() == 10);
    assert("Offer"@.len() == 5);
    assert("ListingLock"@.len() == 11);
    assert("AuctionLock"@.len() == 11);
    assert("IsPaused"@.len() == 8);
    assert("PendingAdmin"@.len() == 12);
    assert("MinBidIncrement"@.len() == 15);
    assert("AuctionExtensionWindow"@.len() == 22);
    assert("AuctionExtensionTrigger"@.len() == 23);
    assert("AuctionBids"@.len() == 11);
    assert("MinPrice"@.len() == 8);
    assert("MaxPrice"@.len() == 8);
    assert("MigrationDone"@.len() == 13);
    assert("IndexPage"@.len() == 9);
    assert("IndexLen"@.len() == 8);
    assert("ActiveListingPos"@.len() == 16);
    assert("ListingPendingOffers"@.len() == 20);
    assert("ArtistCancelCursor"@.len() == 18);
    assert("MigrationCursor"@.len() == 15);
    assert("BidHistoryCap"@.len() == 13);
    assert("ActiveListings"@[1] == 'c');
    assert("ArtistListings"@[1] == 'r');
    assert("ArtistListings"@[6] == 'L');
    assert("ArtistAuctions"@[1] == 'r');
    assert("ArtistAuctions"@[6] == 'A');
    assert("OffererOffers"@[0] == 'O');
    assert("ListingOffers"@[0] == 'L');
    assert("ListingCount"@[0] == 'L');
    assert("Listing"@[0] == 'L');
    assert("Admin"@[0] == 'A');
    assert("TokenWhitelist"@[1] == 'o');
    assert("Treasury"@[0] == 'T');
    assert("ProtocolFeeBps"@[1] == 'r');
    assert("ProtocolFeeBps"@[6] == 'o');
    assert("AuctionCount"@[0] == 'A');
    assert("Auction"@[0] == 'A');
    assert("RevokedArtist"@[0] == 'R');
    assert("Offer"@[0] == 'O');
    assert("ListingLock"@[0] == 'L');
    assert("AuctionLock"@[0] == 'A');
    assert("AuctionLock"@[7] == 'L');
    assert("IsPaused"@[0] == 'I');
    assert("IsPaused"@[1] == 's');
    assert("PendingAdmin"@[0] == 'P');
    assert("MinBidIncrement"@[2] == 'n');
    assert("AuctionBids"@[0] == 'A');
    assert("AuctionBids"@[7] == 'B');
    assert("MinPrice"@[0] == 'M');
    assert("MinPrice"@[1] == 'i');
    assert("MaxPrice"@[0] == 'M');
    assert("MaxPrice"@[1] == 'a');
    assert("MigrationDone"@[0] == 'M');
    assert("IndexLen"@[0] == 'I');
    assert("IndexLen"@[1] == 'n');
    assert("MigrationCursor"@[2] == 'g');
    assert("BidHistoryCap"@[0] == 'B');
    assert(a@->List_0[0] == b@->List_0[0]);
    if a@->List_0.len() == 2 {
        assert(a@->List_0[1] == b@->List_0[1]);
    }
    if a@->List_0.len() == 3 {
        assert(a@->List_0[1] == b@->List_0[1]);
        assert(a@->List_0[2] == b@->List_0[2]);
    }
    if let (DataKey::IndexPage(i, _), DataKey::IndexPage(j, _)) = (a, b) {
        law_index_ids_are_distinct(i, j);
    }
    if let (DataKey::IndexLen(i), DataKey::IndexLen(j)) = (a, b) {
        law_index_ids_are_distinct(i, j);
    }
}

/// Different keys have different data.
pub proof fn lemma_keys_differ(a: DataKey, b: DataKey)
    requires
        a != b,
    ensures
        a@ != b@,
{
    if a@ == b@ {
        law_keys_are_distinct(a, b);
    }
}

/// An index id is stored as a list: the name of its kind, spelled out, and what it is of.
pub proof fn law_index_ids_are_spelled_out(n: u64, a: Address)
    ensures
        IndexId::ActiveListings@ == Data::List(seq![Data::Symbol("ActiveListings"@)]),
        IndexId::ArtistListings(a)@ == Data::List(
            seq![Data::Symbol("ArtistListings"@), Data::Address(a)],
        ),
        IndexId::ArtistAuctions(a)@ == Data::List(
            seq![Data::Symbol("ArtistAuctions"@), Data::Address(a)],
        ),
        IndexId::OffererOffers(a)@ == Data::List(
            seq![Data::Symbol("OffererOffers"@), Data::Address(a)],
        ),
        IndexId::ListingOffers(n)@ == Data::List(
            seq![Data::Symbol("ListingOffers"@), Data::U64(n)],
        ),
{
}

/// A key without a payload is stored as a list with its name, spelled out.
pub proof fn law_plain_keys_are_spelled_out()
    ensures
        DataKey::ListingCount@ == Data::List(seq![Data::Symbol("ListingCount"@)]),
        DataKey::Admin@ == Data::List(seq![Data::Symbol("Admin"@)]),
        DataKey::TokenWhitelist@ == Data::List(seq![Data::Symbol("TokenWhitelist"@)]),
        DataKey::Treasury@ == Data::List(seq![Data::Symbol("Treasury"@)]),
        DataKey::ProtocolFeeBps@ == Data::List(seq![Data::Symbol("ProtocolFeeBps"@)]),
        DataKey::AuctionCount@ == Data::List(seq![Data::Symbol("AuctionCount"@)]),
        DataKey::OfferCount@ == Data::List(seq![Data::Symbol("OfferCount"@)]),
        DataKey::IsPaused@ == Data::List(seq![Data::Symbol("IsPaused"@)]),
        DataKey::PendingAdmin@ == Data::List(seq![Data::Symbol("PendingAdmin"@)]),
        DataKey::ActiveListings@ == Data::List(seq![Data::Symbol("ActiveListings"@)]),
        DataKey::MinBidIncrement@ == Data::List(seq![Data::Symbol("MinBidIncrement"@)]),
        DataKey::AuctionExtensionWindow@ == Data::List(seq![Data::Symbol("AuctionExtensionWindow"@)]),
        DataKey::AuctionExtensionTrigger@ == Data::List(seq![Data::Symbol("AuctionExtensionTrigger"@)]),
        DataKey::MinPrice@ == Data::List(seq![Data::Symbol("MinPrice"@)]),
        DataKey::MaxPrice@ == Data::List(seq![Data::Symbol("MaxPrice"@)]),
        DataKey::BidHistoryCap@ == Data::List(seq![Data::Symbol("BidHistoryCap"@)]),
{
}

/// A key with a payload is stored as a list: its name, spelled out, then the payload.
pub proof fn law_keys_are_spelled_out(
    n: u64,
    a: Address,
    text: soroban_sdk::String,
    id: IndexId,
    page: u32,
)
    ensures
        DataKey::Listing(n)@ == Data::List(seq![Data::Symbol("Listing"@), Data::U64(n)]),
        DataKey::ArtistListings(a)@ == Data::List(
            seq![Data::Symbol("ArtistListings"@), Data::Address(a)],
        ),
        DataKey::Auction(n)@ == Data::List(seq![Data::Symbol("Auction"@), Data::U64(n)]),
        DataKey::ArtistAuctions(a)@ == Data::List(
            seq![Data::Symbol("ArtistAuctions"@), Data::Address(a)],
        ),
        DataKey::RevokedArtist(a)@ == Data::List(
            seq![Data::Symbol("RevokedArtist"@), Data::Address(a)],
        ),
        DataKey::Offer(n)@ == Data::List(seq![Data::Symbol("Offer"@), Data::U64(n)]),
        DataKey::ListingOffers(n)@ == Data::List(
            seq![Data::Symbol("ListingOffers"@), Data::U64(n)],
        ),
        DataKey::OffererOffers(a)@ == Data::List(
            seq![Data::Symbol("OffererOffers"@), Data::Address(a)],
        ),
        DataKey::ListingLock(n)@ == Data::List(seq![Data::Symbol("ListingLock"@), Data::U64(n)]),
        DataKey::AuctionLock(n)@ == Data::List(seq![Data::Symbol("AuctionLock"@), Data::U64(n)]),
        DataKey::AuctionBids(n)@ == Data::List(seq![Data::Symbol("AuctionBids"@), Data::U64(n)]),
        DataKey::MigrationDone(text)@ == Data::List(
            seq![Data::Symbol("MigrationDone"@), Data::Text(text)],
        ),
        DataKey::IndexPage(id, page)@ == Data::List(
            seq![Data::Symbol("IndexPage"@), id@, Data::U32(page)],
        ),
        DataKey::IndexLen(id)@ == Data::List(seq![Data::Symbol("IndexLen"@), id@]),
        DataKey::ActiveListingPos(n)@ == Data::List(
            seq![Data::Symbol("ActiveListingPos"@), Data::U64(n)],
        ),
        DataKey::ListingPendingOffers(n)@ == Data::List(
            seq![Data::Symbol("ListingPendingOffers"@), Data::U64(n)],
        ),
        DataKey::ArtistCancelCursor(a)@ == Data::List(
            seq![Data::Symbol("ArtistCancelCursor"@), Data::Address(a)],
        ),
        DataKey::MigrationCursor(text)@ == Data::List(
            seq![Data::Symbol("MigrationCursor"@), Data::Text(text)],
        ),
{
}

} // verus!
