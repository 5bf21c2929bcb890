//! The records that the marketplace stores, and their stored form.
use soroban_sdk::{Address, Env, Val};
use vstd::prelude::*;

use crate::host::{
    address_val, i128_val, is_symbol, no_fields, record_get, record_new, record_set, record_val,
    u32_val, u64_val, val_address, val_data, val_i128, val_record, val_u32, val_u64,
};
use crate::ledger::Data;

verus! {

/// A listing. The storage layer reads its id; `record` is the whole listing in its stored
/// form, a record whose field `listing_id` is that id.
pub struct Listing {
    pub listing_id: u64,
    pub record: Val,
}

/// An auction. The storage layer reads its id; `record` is the whole auction in its stored
/// form, a record whose field `auction_id` is that id.
pub struct Auction {
    pub auction_id: u64,
    pub record: Val,
}

/// An offer. The storage layer reads its id; `record` is the whole offer in its stored
/// form, a record whose field `offer_id` is that id.
pub struct Offer {
    pub offer_id: u64,
    pub record: Val,
}

/// One bid in the history of an auction.
pub struct BidRecord {
    pub bidder: Address,
    pub amount: i128,
    pub ledger: u32,
}

/// Resumable progress marker for a versioned storage migration.
pub struct MigrationProgress {
    /// Which migration phase is in progress.
    pub phase: u32,
    /// Position within the phase (last fully-processed item id/index).
    pub cursor: u64,
}

impl Clone for Listing {
    fn clone(&self) -> (copy: Self)
        ensures
            copy == *self,
    {
        Listing { listing_id: self.listing_id, record: self.record }
    }
}

impl Clone for Auction {
    fn clone(&self) -> (copy: Self)
        ensures
            copy == *self,
    {
        Auction { auction_id: self.auction_id, record: self.record }
    }
}

impl Clone for Offer {
    fn clone(&self) -> (copy: Self)
        ensures
            copy == *self,
    {
        Offer { offer_id: self.offer_id, record: self.record }
    }
}

impl Clone for BidRecord {
    fn clone(&self) -> (copy: Self)
        ensures
            copy == *self,
    {
        BidRecord { bidder: self.bidder.clone(), amount: self.amount, ledger: self.ledger }
    }
}

impl Clone for MigrationProgress {
    fn clone(&self) -> (copy: Self)
        ensures
            copy == *self,
    {
        MigrationProgress { phase: self.phase, cursor: self.cursor }
    }
}

/// Whether `d` is a record that has an id in the field `name`.
pub open spec fn has_id(d: Data, name: Seq<char>) -> bool {
    d matches Data::Record(fields) && fields.contains_key(name) && fields[name] is U64
}

/// The id in the field `name` of the record `d`.
pub open spec fn id_in(d: Data, name: Seq<char>) -> u64 {
    d->Record_0[name]->U64_0
}

impl Listing {
    /// Whether the stored form carries the listing's id.
    pub open spec fn wf(self) -> bool {
        let d = val_data(self.record);
        has_id(d, "listing_id"@) && id_in(d, "listing_id"@) == self.listing_id
    }
}

impl Auction {
    /// Whether the stored form carries the auction's id.
    pub open spec fn wf(self) -> bool {
        let d = val_data(self.record);
        has_id(d, "auction_id"@) && id_in(d, "auction_id"@) == self.auction_id
    }
}

impl Offer {
    /// Whether the stored form carries the offer's id.
    pub open spec fn wf(self) -> bool {
        let d = val_data(self.record);
        has_id(d, "offer_id"@) && id_in(d, "offer_id"@) == self.offer_id
    }
}

impl View for BidRecord {
    type V = Data;

    /// A bid is stored as a record with one field for each of its own.
    open spec fn view(&self) -> Data {
        Data::Record(
            no_fields().insert("amount"@, Data::I128(self.amount)).insert(
                "bidder"@,
                Data::Address(self.bidder),
            ).insert("ledger"@, Data::U32(self.ledger)),
        )
    }
}

impl View for MigrationProgress {
    type V = Data;

    /// A progress marker is stored as a record with one field for each of its own.
    open spec fn view(&self) -> Data {
        Data::Record(
            no_fields().insert("cursor"@, Data::U64(self.cursor)).insert(
                "phase"@,
                Data::U32(self.phase),
            ),
        )
    }
}

/// Whether `d` is the stored form of a bid.
pub open spec fn is_bid(d: Data) -> bool {
    d == bid_of(d)@
}

/// The bid that `d` is the stored form of.
pub open spec fn bid_of(d: Data) -> BidRecord {
    let fields = d->Record_0;
    BidRecord {
        bidder: fields["bidder"@]->Address_0,
        amount: fields["amount"@]->I128_0,
        ledger: fields["ledger"@]->U32_0,
    }
}

/// Whether `d` is the stored form of a bid history.
pub open spec fn is_bids(d: Data) -> bool {
    d matches Data::List(items) && forall|i: int|
        0 <= i < items.len() ==> is_bid(#[trigger] items[i])
}

/// The stored form of a bid history.
pub open spec fn bids_data(bids: Seq<BidRecord>) -> Data {
    Data::List(bids.map_values(|bid: BidRecord| bid@))
}

/// The bid history that `d` is the stored form of.
pub open spec fn bids_of(d: Data) -> Seq<BidRecord> {
    d->List_0.map_values(|item: Data| bid_of(item))
}

/// Whether `d` is the stored form of a progress marker.
pub open spec fn is_progress(d: Data) -> bool {
    d == progress_of(d)@
}

/// The progress marker that `d` is the stored form of.
pub open spec fn progress_of(d: Data) -> MigrationProgress {
    let fields = d->Record_0;
    MigrationProgress { phase: fields["phase"@]->U32_0, cursor: fields["cursor"@]->U64_0 }
}

proof fn lemma_bid_fields()
    ensures
        is_symbol("amount"@),
        is_symbol("bidder"@),
        is_symbol("ledger"@),
        "amount"@ != "bidder"@,
        "amount"@ != "ledger"@,
        "bidder"@ != "ledger"@,
{
    reveal_strlit("amount");
    reveal_strlit("bidder");
    reveal_strlit("ledger");
    assert("amount"@[0] == 'a');
    assert("bidder"@[0] == 'b');
    assert("ledger"@[0] == 'l');
}

proof fn lemma_progress_fields()
    ensures
        is_symbol("cursor"@),
        is_symbol("phase"@),
        "cursor"@ != "phase"@,
{
    reveal_strlit("cursor");
    reveal_strlit("phase");
    assert("cursor"@.len() == 6);
    assert("phase"@.len() == 5);
}

/// A stored bid reads back as the bid that was stored.
pub proof fn law_bid_round_trip(bid: BidRecord)
    ensures
        is_bid(bid@),
        bid_of(bid@) == bid,
{
    lemma_bid_fields();
}

/// A stored bid history reads back as the bids that were stored, in their order.
pub proof fn law_bids_round_trip(bids: Seq<BidRecord>)
    ensures
        is_bids(bids_data(bids)),
        bids_of(bids_data(bids)) == bids,
{
    assert forall|i: int| 0 <= i < bids.len() implies is_bid(bids[i]@) && bid_of(bids[i]@)
        == bids[i] by {
        law_bid_round_trip(bids[i]);
    }
    assert(bids_of(bids_data(bids)) =~= bids);
}

/// A stored progress marker reads back as the marker that was stored.
pub proof fn law_progress_round_trip(progress: MigrationProgress)
    ensures
        is_progress(progress@),
        progress_of(progress@) == progress,
{
    lemma_progress_fields();
}

/// Reads the id in the field `name` of a record.
fn val_id(env: &Env, v: Val, name: &str) -> (id: u64)
    requires
        is_symbol(name@),
        has_id(val_data(v), name@),
    ensures
        id == id_in(val_data(v), name@),
{
    let fields = val_record(env, v);
    let id = record_get(&fields, name).unwrap();
    val_u64(env, id)
}

/// Reads the stored form of a listing.
pub(crate) fn val_listing(env: &Env, v: Val) -> (listing: Listing)
    requires
        has_id(val_data(v), "listing_id"@),
    ensures
        listing.wf(),
        val_data(listing.record) == val_data(v),
{
    proof {
        reveal_strlit("listing_id");
    }
    Listing { listing_id: val_id(env, v, "listing_id"), record: v }
}

/// Reads the stored form of an auction.
pub(crate) fn val_auction(env: &Env, v: Val) -> (auction: Auction)
    requires
        has_id(val_data(v), "auction_id"@),
    ensures
        auction.wf(),
        val_data(auction.record) == val_data(v),
{
    proof {
        reveal_strlit("auction_id");
    }
    Auction { auction_id: val_id(env, v, "auction_id"), record: v }
}

/// Reads the stored form of an offer.
pub(crate) fn val_offer(env: &Env, v: Val) -> (offer: Offer)
    requires
        has_id(val_data(v), "offer_id"@),
    ensures
        offer.wf(),
        val_data(offer.record) == val_data(v),
{
    proof {
        reveal_strlit("offer_id");
    }
    Offer { offer_id: val_id(env, v, "offer_id"), record: v }
}

/// Makes the stored form of a bid.
pub(crate) fn bid_val(env: &Env, bid: &BidRecord) -> (v: Val)
    ensures
        val_data(v) == bid@,
{
    proof {
        lemma_bid_fields();
    }
    let mut fields = record_new(env);
    record_set(&mut fields, "amount", i128_val(env, bid.amount));
    record_set(&mut fields, "bidder", address_val(&bid.bidder));
    record_set(&mut fields, "ledger", u32_val(env, bid.ledger));
    record_val(&fields)
}

/// Reads the stored form of a bid.
pub(crate) fn val_bid(env: &Env, v: Val) -> (bid: BidRecord)
    requires
        is_bid(val_data(v)),
    ensures
        bid == bid_of(val_data(v)),
        bid@ == val_data(v),
{
    proof {
        lemma_bid_fields();
    }
    let fields = val_record(env, v);
    let bidder = record_get(&fields, "bidder").unwrap();
    let amount = record_get(&fields, "amount").unwrap();
    let ledger = record_get(&fields, "ledger").unwrap();
    BidRecord {
        bidder: val_address(env, bidder),
        amount: val_i128(env, amount),
        ledger: val_u32(env, ledger),
    }
}

/// Makes the stored form of a progress marker.
pub(crate) fn progress_val(env: &Env, progress: &MigrationProgress) -> (v: Val)
    ensures
        val_data(v) == progress@,
{
    proof {
        lemma_progress_fields();
    }
    let mut fields = record_new(env);
    record_set(&mut fields, "cursor", u64_val(env, progress.cursor));
    record_set(&mut fields, "phase", u32_val(env, progress.phase));
    record_val(&fields)
}

/// Reads the stored form of a progress marker.
pub(crate) fn val_progress(env: &Env, v: Val) -> (progress: MigrationProgress)
    requires
        is_progress(val_data(v)),
    ensures
        progress == progress_of(val_data(v)),
        progress@ == val_data(v),
{
    proof {
        lemma_progress_fields();
    }
    let fields = val_record(env, v);
    let phase = record_get(&fields, "phase").unwrap();
    let cursor = record_get(&fields, "cursor").unwrap();
    MigrationProgress { phase: val_u32(env, phase), cursor: val_u64(env, cursor) }
}

/// A record carries its id exactly where the field of that name holds the number.
pub proof fn law_records_carry_their_ids(
    fields: Map<Seq<char>, Data>,
    name: Seq<char>,
    listing: Listing,
    auction: Auction,
    offer: Offer,
)
    ensures
        has_id(Data::Record(fields), name) <==> fields.contains_key(name) && fields[name] is U64,
        has_id(Data::Record(fields), name) ==> Data::U64(id_in(Data::Record(fields), name))
            == fields[name],
        listing.wf() <==> val_data(listing.record) is Record && val_data(
            listing.record,
        )->Record_0.contains_key("listing_id"@) && val_data(
            listing.record,
        )->Record_0["listing_id"@] == Data::U64(listing.listing_id),
        auction.wf() <==> val_data(auction.record) is Record && val_data(
            auction.record,
        )->Record_0.contains_key("auction_id"@) && val_data(
            auction.record,
        )->Record_0["auction_id"@] == Data::U64(auction.auction_id),
        offer.wf() <==> val_data(offer.record) is Record && val_data(
            offer.record,
        )->Record_0.contains_key("offer_id"@) && val_data(offer.record)->Record_0["offer_id"@]
            == Data::U64(offer.offer_id),
{
}

/// A bid is stored as a record of exactly three fields, which hold its amount, its bidder
/// and its ledger.
pub proof fn law_bids_are_spelled_out(bid: BidRecord)
    ensures
        bid@ is Record,
        bid@->Record_0.dom() == set!["amount"@, "bidder"@, "ledger"@],
        bid@->Record_0["amount"@] == Data::I128(bid.amount),
        bid@->Record_0["bidder"@] == Data::Address(bid.bidder),
        bid@->Record_0["ledger"@] == Data::U32(bid.ledger),
        is_bid(bid@),
        bid_of(bid@) == bid,
{
    lemma_bid_fields();
    law_bid_round_trip(bid);
    assert(bid@->Record_0.dom() =~= set!["amount"@, "bidder"@, "ledger"@]);
}

/// A bid history is stored as the list of its bids, one for one and in their order, and it
/// reads back as such.
pub proof fn law_histories_are_stored_one_for_one(bids: Seq<BidRecord>, items: Seq<Data>)
    requires
        items.len() == bids.len(),
        forall|i: int| 0 <= i < bids.len() ==> #[trigger] items[i] == bids[i]@,
    ensures
        bids_data(bids) == Data::List(items),
        is_bids(Data::List(items)),
        bids_of(Data::List(items)) == bids,
{
    assert(bids_data(bids)->List_0 =~= items);
    law_bids_round_trip(bids);
}

/// A progress marker is stored as a record of exactly two fields, which hold its phase and
/// its cursor.
pub proof fn law_progress_is_spelled_out(progress: MigrationProgress)
    ensures
        progress@ is Record,
        progress@->Record_0.dom() == set!["cursor"@, "phase"@],
        progress@->Record_0["cursor"@] == Data::U64(progress.cursor),
        progress@->Record_0["phase"@] == Data::U32(progress.phase),
        is_progress(progress@),
        progress_of(progress@) == progress,
{
    lemma_progress_fields();
    law_progress_round_trip(progress);
    assert(progress@->Record_0.dom() =~= set!["cursor"@, "phase"@]);
}

} // verus!
