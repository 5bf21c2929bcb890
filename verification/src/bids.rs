//! The bid history of an auction: a ring buffer of bounded length.
use soroban_sdk::Env;
use vstd::prelude::*;

use crate::host::{
    ledger, list_get, list_items, list_len, list_new, list_push_back, list_val, val_list,
};
use crate::keys::{lemma_keys_differ, DataKey};
use crate::ledger::{
    law_touch_is_exact, law_well_typed_is_kept, law_write_is_exact, Data, Ledger,
};
use crate::store::{bump_entry_ttl, load, store};
use crate::types::{
    bid_val, bids_data, bids_of, is_bid, is_bids, law_bids_round_trip,
    law_histories_are_stored_one_for_one, val_bid, BidRecord,
};

verus! {

/// The history `bids` after one more bid: with `cap` bids or more in it, the oldest goes.
pub open spec fn with_bid(bids: Seq<BidRecord>, bid: BidRecord, cap: u32) -> Seq<BidRecord> {
    if bids.len() >= cap && bids.len() > 0 {
        bids.drop_first().push(bid)
    } else {
        bids.push(bid)
    }
}

/// The history `bids` after all of `placed`, one behind the other.
pub open spec fn with_bids(bids: Seq<BidRecord>, placed: Seq<BidRecord>, cap: u32) -> Seq<BidRecord>
    decreases placed.len(),
{
    if placed.len() == 0 {
        bids
    } else {
        with_bid(with_bids(bids, placed.drop_last(), cap), placed.last(), cap)
    }
}

impl Ledger {
    /// The bid history of an auction, oldest bid first.
    pub open spec fn bids(self, auction_id: u64) -> Seq<BidRecord> {
        if self.has(DataKey::AuctionBids(auction_id)) {
            bids_of(self.value(DataKey::AuctionBids(auction_id)))
        } else {
            Seq::empty()
        }
    }

    /// The history is read: one with bids has its life extended.
    pub open spec fn bids_read(self, auction_id: u64) -> Ledger {
        if self.bids(auction_id).len() > 0 {
            self.touch(DataKey::AuctionBids(auction_id))
        } else {
            self
        }
    }

    /// A bid joins the history.
    pub open spec fn bid_appended(self, auction_id: u64, bid: BidRecord, cap: u32) -> Ledger {
        self.put(
            DataKey::AuctionBids(auction_id),
            bids_data(with_bid(self.bids(auction_id), bid, cap)),
        )
    }

    /// All of `placed` join the history, one behind the other.
    pub open spec fn bids_appended(
        self,
        auction_id: u64,
        placed: Seq<BidRecord>,
        cap: u32,
    ) -> Ledger
        decreases placed.len(),
    {
        if placed.len() == 0 {
            self
        } else {
            self.bids_appended(auction_id, placed.drop_last(), cap).bid_appended(
                auction_id,
                placed.last(),
                cap,
            )
        }
    }
}

/// The last `n` bids of `placed`, or all of them where there are fewer.
pub open spec fn latest(placed: Seq<BidRecord>, n: nat) -> Seq<BidRecord> {
    if placed.len() <= n {
        placed
    } else {
        placed.skip(placed.len() - n)
    }
}

/// The smaller of two numbers.
pub open spec fn least(a: nat, b: nat) -> nat {
    if a <= b {
        a
    } else {
        b
    }
}

/// However many bids are placed with a cap of at least one, a history that started empty
/// holds exactly the latest of them, as many as the cap allows: their number is the
/// smaller of the number of bids and the cap.
pub proof fn law_history_keeps_the_latest(placed: Seq<BidRecord>, cap: u32)
    requires
        cap >= 1,
    ensures
        with_bids(Seq::empty(), placed, cap) == latest(placed, cap as nat),
        with_bids(Seq::empty(), placed, cap).len() == least(placed.len(), cap as nat),
        placed.len() <= cap ==> with_bids(Seq::empty(), placed, cap) == placed,
        placed.len() > cap ==> with_bids(Seq::empty(), placed, cap).len() == cap,
        placed.len() > cap ==> forall|i: int|
            0 <= i < cap ==> #[trigger] with_bids(Seq::empty(), placed, cap)[i] == placed[placed.len()
                - cap + i],
    decreases placed.len(),
{
    if placed.len() > 0 {
        law_history_keeps_the_latest(placed.drop_last(), cap);
        assert(with_bids(Seq::empty(), placed, cap) =~= latest(placed, cap as nat));
    } else {
        assert(placed =~= Seq::empty());
    }
}

/// With a cap of one only the most recent bid is ever kept.
pub proof fn law_cap_one_keeps_only_the_latest(placed: Seq<BidRecord>)
    requires
        placed.len() > 0,
    ensures
        with_bids(Seq::empty(), placed, 1) == seq![placed.last()],
{
    law_history_keeps_the_latest(placed, 1);
    assert(latest(placed, 1) =~= seq![placed.last()]);
}

/// As long as there are no more bids than the cap allows, all are kept in the order in
/// which they were placed.
pub proof fn law_no_eviction_up_to_the_cap(placed: Seq<BidRecord>, cap: u32)
    requires
        placed.len() <= cap,
    ensures
        with_bids(Seq::empty(), placed, cap) == placed,
    decreases placed.len(),
{
    if placed.len() > 0 {
        law_no_eviction_up_to_the_cap(placed.drop_last(), cap);
        assert(with_bids(Seq::empty(), placed, cap) =~= placed);
    } else {
        assert(placed =~= Seq::empty());
    }
}

/// A history within the cap stays within it; one beyond the cap, because the cap was
/// lowered, does not grow. The newest bid stands last.
pub proof fn law_history_is_bounded(bids: Seq<BidRecord>, bid: BidRecord, cap: u32)
    requires
        cap >= 1,
    ensures
        bids.len() <= cap ==> with_bid(bids, bid, cap).len() <= cap,
        bids.len() > cap ==> with_bid(bids, bid, cap).len() == bids.len(),
        with_bid(bids, bid, cap).last() == bid,
{
}

/// What the ledger holds after a number of bids is what the history becomes.
pub proof fn law_ledger_holds_the_history(
    l: Ledger,
    auction_id: u64,
    placed: Seq<BidRecord>,
    cap: u32,
)
    ensures
        l.bids_appended(auction_id, placed, cap).bids(auction_id) == with_bids(
            l.bids(auction_id),
            placed,
            cap,
        ),
    decreases placed.len(),
{
    if placed.len() > 0 {
        law_ledger_holds_the_history(l, auction_id, placed.drop_last(), cap);
        law_bids_round_trip(with_bids(l.bids(auction_id), placed, cap));
    }
}

/// Bids on one auction leave the history of every other auction as it was.
pub proof fn law_auctions_are_bid_on_apart(
    l: Ledger,
    auction_id: u64,
    bid: BidRecord,
    cap: u32,
    other: u64,
)
    requires
        other != auction_id,
    ensures
        l.bid_appended(auction_id, bid, cap).bids(other) == l.bids(other),
{
    lemma_keys_differ(DataKey::AuctionBids(other), DataKey::AuctionBids(auction_id));
}

/// A bid keeps the ledger well typed.
pub proof fn law_bids_keep_types(l: Ledger, auction_id: u64, bid: BidRecord, cap: u32)
    requires
        l.well_typed(),
    ensures
        l.bid_appended(auction_id, bid, cap).well_typed(),
{
    let after = with_bid(l.bids(auction_id), bid, cap);
    law_bids_round_trip(after);
    law_well_typed_is_kept(l, DataKey::AuctionBids(auction_id), bids_data(after));
}

/// A history with at least `cap` bids, and more than `cap` too, loses exactly its oldest
/// bid to a new one: every other bid moves up by one place and the new one stands last. A
/// history with room keeps all its bids in their places.
pub proof fn law_the_oldest_bid_is_evicted(bids: Seq<BidRecord>, bid: BidRecord, cap: u32)
    ensures
        bids.len() >= cap && bids.len() > 0 ==> {
            &&& with_bid(bids, bid, cap).len() == bids.len()
            &&& forall|i: int|
                0 <= i < bids.len() - 1 ==> #[trigger] with_bid(bids, bid, cap)[i] == bids[i + 1]
            &&& with_bid(bids, bid, cap)[bids.len() - 1] == bid
        },
        bids.len() < cap || bids.len() == 0 ==> {
            &&& with_bid(bids, bid, cap).len() == bids.len() + 1
            &&& forall|i: int|
                0 <= i < bids.len() ==> #[trigger] with_bid(bids, bid, cap)[i] == bids[i]
            &&& with_bid(bids, bid, cap)[bids.len() as int] == bid
        },
{
}

/// The history of an auction is the list of bids in its entry, one for one, and empty
/// without one.
pub proof fn law_history_is_the_stored_list(l: Ledger, auction_id: u64, bids: Seq<BidRecord>)
    ensures
        l.get(DataKey::AuctionBids(auction_id)) is None ==> l.bids(auction_id).len() == 0,
        l.get(DataKey::AuctionBids(auction_id)) == Some(
            Data::List(Seq::new(bids.len(), |i: int| bids[i]@)),
        ) ==> l.bids(auction_id) == bids,
{
    law_histories_are_stored_one_for_one(bids, Seq::new(bids.len(), |i: int| bids[i]@));
}

/// A bid changes the entry of its auction's history and nothing else; the entry then holds
/// the history, bid by bid.
pub proof fn law_bid_is_exact(l: Ledger, auction_id: u64, bid: BidRecord, cap: u32)
    ensures
        ({
            let key = DataKey::AuctionBids(auction_id);
            let after = l.bid_appended(auction_id, bid, cap);
            let history = with_bid(l.bids(auction_id), bid, cap);
            &&& after.get(key) == Some(Data::List(Seq::new(history.len(), |i: int| history[i]@)))
            &&& after.bids(auction_id) == history
            &&& after.ttl(key) == l.bumped(
                if l.has(key) {
                    l.ttl(key)
                } else {
                    l.new_persistent_ttl
                },
            )
            &&& after.persistent.remove(key@) == l.persistent.remove(key@)
            &&& after == (Ledger { persistent: after.persistent, ..l })
        }),
{
    let key = DataKey::AuctionBids(auction_id);
    let history = with_bid(l.bids(auction_id), bid, cap);
    law_histories_are_stored_one_for_one(
        history,
        Seq::new(history.len(), |i: int| history[i]@),
    );
    law_write_is_exact(l, key, bids_data(history));
}

/// Reading a history extends the life of one with bids and does nothing else.
pub proof fn law_history_read_is_exact(l: Ledger, auction_id: u64)
    ensures
        ({
            let key = DataKey::AuctionBids(auction_id);
            let after = l.bids_read(auction_id);
            &&& l.bids(auction_id).len() == 0 ==> after == l
            &&& l.bids(auction_id).len() > 0 ==> after.get(key) == l.get(key) && after.ttl(key)
                == l.bumped(l.ttl(key))
            &&& after.persistent.remove(key@) == l.persistent.remove(key@)
            &&& after == (Ledger { persistent: after.persistent, ..l })
        }),
{
    law_touch_is_exact(l, DataKey::AuctionBids(auction_id));
}

/// Append a bid to the auction's history. With `cap` records or more in it, the oldest is
/// evicted first.
pub fn append_bid_record(env: &mut Env, auction_id: u64, record: &BidRecord, cap: u32)
    requires
        ledger(*old(env)).in_contract,
        ledger(*old(env)).fit(DataKey::AuctionBids(auction_id)),
    ensures
        ledger(*final(env)) == ledger(*old(env)).bid_appended(auction_id, *record, cap),
        ledger(*final(env)).bids(auction_id) == with_bid(
            ledger(*old(env)).bids(auction_id),
            *record,
            cap,
        ),
        ledger(*final(env)).fit(DataKey::AuctionBids(auction_id)),
        ({
            let old_bids = ledger(*old(env)).bids(auction_id);
            let new_bids = ledger(*final(env)).bids(auction_id);
            &&& old_bids.len() >= cap && old_bids.len() > 0 ==> {
                &&& new_bids.len() == old_bids.len()
                &&& forall|i: int|
                    0 <= i < old_bids.len() - 1 ==> #[trigger] new_bids[i] == old_bids[i + 1]
            }
            &&& old_bids.len() < cap || old_bids.len() == 0 ==> {
                &&& new_bids.len() == old_bids.len() + 1
                &&& forall|i: int| 0 <= i < old_bids.len() ==> #[trigger] new_bids[i] == old_bids[i]
            }
            &&& new_bids[new_bids.len() - 1] == *record
        }),
{
    let ghost l = ledger(*env);
    let key = DataKey::AuctionBids(auction_id);
    let mut history = match load(env, &key) {
        Some(v) => val_list(env, v),
        None => list_new(env),
    };
    let ghost items = list_items(history);
    assert(l.bids(auction_id) =~= bids_of(Data::List(items)));
    let len = list_len(&history);
    if len >= cap {
        let mut trimmed = list_new(env);
        let mut i: u32 = 1;
        assert(len > 0 ==> list_items(trimmed) =~= items.subrange(1, 1));
        while i < len
            invariant
                1 <= i,
                len > 0 ==> i <= len,
                len == items.len(),
                items == list_items(history),
                len > 0 ==> list_items(trimmed) == items.subrange(1, i as int),
                len == 0 ==> list_items(trimmed).len() == 0,
            decreases len - i,
        {
            let item = list_get(&history, i).unwrap();
            list_push_back(&mut trimmed, item);
            assert(list_items(trimmed) =~= items.subrange(1, i + 1));
            i += 1;
        }
        history = trimmed;
    }
    let v = bid_val(env, record);
    list_push_back(&mut history, v);
    let ghost after = with_bid(l.bids(auction_id), *record, cap);
    proof {
        assert(list_items(history) =~= bids_data(after)->List_0);
        law_bids_round_trip(after);
    }
    store(env, &key, list_val(&history));
}

/// The auction's bid history, oldest bid first.
pub fn load_auction_bids(env: &mut Env, auction_id: u64) -> (out: Vec<BidRecord>)
    requires
        ledger(*old(env)).in_contract,
        ledger(*old(env)).fit(DataKey::AuctionBids(auction_id)),
    ensures
        out@ == ledger(*old(env)).bids(auction_id),
        ledger(*final(env)) == ledger(*old(env)).bids_read(auction_id),
{
    let ghost l = ledger(*env);
    let key = DataKey::AuctionBids(auction_id);
    let history = match load(env, &key) {
        Some(v) => val_list(env, v),
        None => list_new(env),
    };
    let ghost items = list_items(history);
    assert(l.bids(auction_id) =~= bids_of(Data::List(items)));
    let len = list_len(&history);
    if len != 0 {
        bump_entry_ttl(env, &key);
    }
    let mut out: Vec<BidRecord> = Vec::new();
    let mut i: u32 = 0;
    while i < len
        invariant
            i <= len,
            len == items.len(),
            items == list_items(history),
            is_bids(Data::List(items)),
            out@ == bids_of(Data::List(items)).take(i as int),
        decreases len - i,
    {
        let item = list_get(&history, i).unwrap();
        assert(is_bid(items[i as int]));
        out.push(val_bid(env, item));
        assert(out@ =~= bids_of(Data::List(items)).take(i + 1));
        i += 1;
    }
    assert(out@ =~= l.bids(auction_id));
    out
}

} // verus!
