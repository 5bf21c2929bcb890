//! Pending-offer tracking.
//!
//! A single entry per listing holds the ids of its pending offers. Its length is the
//! pending-offer counter, so a cap is enforced with one storage read. Every terminal
//! transition of an offer removes its id here.
use soroban_sdk::Env;
use vstd::prelude::*;

use crate::host::{
    holds_ids, id_items, ids, ids_data, ids_first_index_of, ids_len, ids_new, ids_of,
    ids_push_back, ids_remove, ids_val, is_ids, law_ids_are_stored_one_for_one,
    law_ids_round_trip, ledger, lemma_ids_data, val_ids,
};
use crate::keys::{lemma_keys_differ, DataKey};
use crate::ledger::{
    law_touch_is_exact, law_well_typed_is_kept, law_write_is_exact, Data, Ledger,
};
use crate::store::{bump_entry_ttl, discard, load, store};

verus! {

impl Ledger {
    /// The pending offers of a listing, oldest first.
    pub open spec fn pending(self, listing_id: u64) -> Seq<u64> {
        if self.has(DataKey::ListingPendingOffers(listing_id)) {
            ids_of(self.value(DataKey::ListingPendingOffers(listing_id)))
        } else {
            Seq::empty()
        }
    }

    /// Whether the entry of a listing is well formed: it is a list of ids, and there is
    /// none where no offer is pending.
    pub open spec fn pending_wf(self, listing_id: u64) -> bool {
        self.has(DataKey::ListingPendingOffers(listing_id)) ==> {
            &&& is_ids(self.value(DataKey::ListingPendingOffers(listing_id)))
            &&& self.pending(listing_id).len() > 0
        }
    }

    /// The pending offers are read: an entry with offers has its life extended.
    pub open spec fn pending_read(self, listing_id: u64) -> Ledger {
        if self.pending(listing_id).len() > 0 {
            self.touch(DataKey::ListingPendingOffers(listing_id))
        } else {
            self
        }
    }

    /// An offer becomes pending.
    pub open spec fn pending_added(self, listing_id: u64, offer_id: u64) -> Ledger {
        self.put(
            DataKey::ListingPendingOffers(listing_id),
            ids_data(self.pending(listing_id).push(offer_id)),
        )
    }

    /// An offer is pending no more: its first mention goes, and the entry goes with the
    /// last one. An offer that is not mentioned leaves all as it is, with the entry read.
    pub open spec fn pending_removed(self, listing_id: u64, offer_id: u64) -> Ledger {
        let key = DataKey::ListingPendingOffers(listing_id);
        let left = self.pending(listing_id).remove_value(offer_id);
        if !self.pending(listing_id).contains(offer_id) {
            self.pending_read(listing_id)
        } else if left.len() == 0 {
            self.remove(key)
        } else {
            self.put(key, ids_data(left))
        }
    }

    /// No offer is pending any more.
    pub open spec fn pending_cleared(self, listing_id: u64) -> Ledger {
        self.remove(DataKey::ListingPendingOffers(listing_id))
    }
}

/// Reading the pending offers changes no value.
pub proof fn law_pending_read_keeps_values(l: Ledger, listing_id: u64, key: DataKey)
    ensures
        l.pending_read(listing_id).get(key) == l.get(key),
{
}

/// A new pending offer goes behind the others, and the entry stays well formed.
pub proof fn law_add_pending(l: Ledger, listing_id: u64, offer_id: u64)
    ensures
        l.pending_added(listing_id, offer_id).pending(listing_id) == l.pending(listing_id).push(
            offer_id,
        ),
        l.pending_added(listing_id, offer_id).pending_wf(listing_id),
{
    law_ids_round_trip(l.pending(listing_id).push(offer_id));
}

/// Removing an offer takes out its first mention and nothing else, and the entry stays
/// well formed: it is deleted when the last pending offer leaves.
pub proof fn law_remove_pending(l: Ledger, listing_id: u64, offer_id: u64)
    requires
        l.pending_wf(listing_id),
    ensures
        l.pending_removed(listing_id, offer_id).pending(listing_id) == l.pending(
            listing_id,
        ).remove_value(offer_id),
        l.pending_removed(listing_id, offer_id).pending_wf(listing_id),
        l.pending_removed(listing_id, offer_id).pending(listing_id).len() == l.pending(
            listing_id,
        ).len() - (if l.pending(listing_id).contains(offer_id) {
            1int
        } else {
            0int
        }),
        l.pending_removed(listing_id, offer_id).has(DataKey::ListingPendingOffers(listing_id)) == (
        l.pending_removed(listing_id, offer_id).pending(listing_id).len() > 0),
{
    let before = l.pending(listing_id);
    let left = before.remove_value(offer_id);
    before.index_of_first_ensures(offer_id);
    law_ids_round_trip(left);
    law_pending_read_keeps_values(l, listing_id, DataKey::ListingPendingOffers(listing_id));
    if before.contains(offer_id) && left.len() == 0 {
        assert(left =~= Seq::<u64>::empty());
    }
}

/// Removing an offer that was just added gives back the pending offers from before.
pub proof fn law_remove_pending_undoes_add(l: Ledger, listing_id: u64, offer_id: u64)
    requires
        l.pending_wf(listing_id),
        !l.pending(listing_id).contains(offer_id),
    ensures
        l.pending_added(listing_id, offer_id).pending_removed(listing_id, offer_id).pending(
            listing_id,
        ) == l.pending(listing_id),
{
    let before = l.pending(listing_id);
    let mid = l.pending_added(listing_id, offer_id);
    law_add_pending(l, listing_id, offer_id);
    law_remove_pending(mid, listing_id, offer_id);
    let s = before.push(offer_id);
    assert(s[before.len() as int] == offer_id);
    s.index_of_first_ensures(offer_id);
    assert(s.remove_value(offer_id) =~= before);
}

/// Where no offer is pending twice, a removed offer is pending no more, and every other
/// offer is pending exactly where it was before.
pub proof fn law_removed_offer_is_not_pending(l: Ledger, listing_id: u64, offer_id: u64, other: u64)
    requires
        l.pending_wf(listing_id),
        l.pending(listing_id).no_duplicates(),
    ensures
        l.pending_removed(listing_id, offer_id).pending(listing_id).contains(other) <==> l.pending(
            listing_id,
        ).contains(other) && other != offer_id,
        l.pending_removed(listing_id, offer_id).pending(listing_id).no_duplicates(),
{
    let before = l.pending(listing_id);
    let after = before.remove_value(offer_id);
    law_remove_pending(l, listing_id, offer_id);
    before.index_of_first_ensures(offer_id);
    if before.contains(offer_id) {
        let at = before.index_of_first(offer_id).unwrap();
        assert(after =~= before.remove(at));
        if after.contains(other) {
            let i = choose|i: int| 0 <= i < after.len() && after[i] == other;
            assert(before[if i < at { i } else { i + 1 }] == other);
        }
        if before.contains(other) && other != offer_id {
            let i = choose|i: int| 0 <= i < before.len() && before[i] == other;
            assert(after[if i < at { i } else { i - 1 }] == other);
        }
    }
}

/// After the whole set is dropped no offer is pending.
pub proof fn law_cleared_has_no_pending(l: Ledger, listing_id: u64)
    ensures
        l.pending_cleared(listing_id).pending(listing_id) == Seq::<u64>::empty(),
        l.pending_cleared(listing_id).pending_wf(listing_id),
{
}

/// What happens to the pending offers of one listing leaves those of every other listing
/// as they were.
pub proof fn law_listings_pend_apart(l: Ledger, listing_id: u64, offer_id: u64, other: u64)
    requires
        other != listing_id,
    ensures
        l.pending_added(listing_id, offer_id).pending(other) == l.pending(other),
        l.pending_removed(listing_id, offer_id).pending(other) == l.pending(other),
        l.pending_cleared(listing_id).pending(other) == l.pending(other),
{
    lemma_keys_differ(
        DataKey::ListingPendingOffers(other),
        DataKey::ListingPendingOffers(listing_id),
    );
}

/// Every change to the pending offers keeps the ledger well typed.
pub proof fn law_pending_writes_keep_types(l: Ledger, listing_id: u64, offer_id: u64)
    requires
        l.well_typed(),
    ensures
        l.pending_added(listing_id, offer_id).well_typed(),
        l.pending_removed(listing_id, offer_id).well_typed(),
        l.pending_cleared(listing_id).well_typed(),
{
    let key = DataKey::ListingPendingOffers(listing_id);
    let more = l.pending(listing_id).push(offer_id);
    let left = l.pending(listing_id).remove_value(offer_id);
    law_ids_round_trip(more);
    law_ids_round_trip(left);
    law_well_typed_is_kept(l, key, ids_data(more));
    law_well_typed_is_kept(l, key, ids_data(left));
}

/// The pending offers are the ids in the listing's entry, one for one, and none without
/// one. The entry is well formed exactly where it is absent or a list of ids that is not
/// empty.
pub proof fn law_pending_is_the_stored_list(l: Ledger, listing_id: u64, items: Seq<Data>)
    requires
        forall|i: int| 0 <= i < items.len() ==> (#[trigger] items[i]) is U64,
    ensures
        l.get(DataKey::ListingPendingOffers(listing_id)) is None ==> l.pending(listing_id).len()
            == 0 && l.pending_wf(listing_id),
        l.get(DataKey::ListingPendingOffers(listing_id)) == Some(Data::List(items)) ==> {
            &&& l.pending(listing_id).len() == items.len()
            &&& forall|i: int|
                0 <= i < items.len() ==> #[trigger] items[i] == Data::U64(
                    l.pending(listing_id)[i],
                )
            &&& l.pending_wf(listing_id) <==> items.len() > 0
        },
{
    if l.get(DataKey::ListingPendingOffers(listing_id)) == Some(Data::List(items)) {
        law_ids_are_stored_one_for_one(l.pending(listing_id), items);
    }
}

/// Reading the pending offers extends the life of an entry with offers and does nothing
/// else.
pub proof fn law_pending_read_is_exact(l: Ledger, listing_id: u64)
    ensures
        ({
            let key = DataKey::ListingPendingOffers(listing_id);
            let after = l.pending_read(listing_id);
            &&& l.pending(listing_id).len() == 0 ==> after == l
            &&& l.pending(listing_id).len() > 0 ==> after.get(key) == l.get(key) && after.ttl(key)
                == l.bumped(l.ttl(key))
            &&& after.persistent.remove(key@) == l.persistent.remove(key@)
            &&& after == (Ledger { persistent: after.persistent, ..l })
        }),
{
    law_touch_is_exact(l, DataKey::ListingPendingOffers(listing_id));
}

/// A new pending offer goes behind all the others, which keep their places, and only the
/// listing's entry changes.
pub proof fn law_add_pending_is_exact(l: Ledger, listing_id: u64, offer_id: u64)
    ensures
        ({
            let key = DataKey::ListingPendingOffers(listing_id);
            let after = l.pending_added(listing_id, offer_id);
            let before = l.pending(listing_id);
            &&& after.has(key)
            &&& is_ids(after.value(key))
            &&& after.pending(listing_id).len() == before.len() + 1
            &&& after.pending(listing_id)[before.len() as int] == offer_id
            &&& forall|i: int|
                0 <= i < before.len() ==> #[trigger] after.pending(listing_id)[i] == before[i]
            &&& after.ttl(key) == l.bumped(
                if l.has(key) {
                    l.ttl(key)
                } else {
                    l.new_persistent_ttl
                },
            )
            &&& after.persistent.remove(key@) == l.persistent.remove(key@)
            &&& after == (Ledger { persistent: after.persistent, ..l })
        }),
{
    let key = DataKey::ListingPendingOffers(listing_id);
    let more = l.pending(listing_id).push(offer_id);
    law_ids_round_trip(more);
    law_write_is_exact(l, key, ids_data(more));
}

/// Removing an offer whose first mention is at `at` closes the gap there and keeps all
/// other offers in their order; the entry goes with the last one. Removing an offer that
/// is not mentioned only reads the entry. Nothing but the listing's entry changes.
pub proof fn law_remove_pending_is_exact(l: Ledger, listing_id: u64, offer_id: u64, at: int)
    ensures
        ({
            let key = DataKey::ListingPendingOffers(listing_id);
            let after = l.pending_removed(listing_id, offer_id);
            let before = l.pending(listing_id);
            let first = 0 <= at < before.len() && before[at] == offer_id && forall|i: int|
                0 <= i < at ==> before[i] != offer_id;
            &&& first ==> {
                &&& after.pending(listing_id).len() == before.len() - 1
                &&& forall|i: int|
                    0 <= i < at ==> #[trigger] after.pending(listing_id)[i] == before[i]
                &&& forall|i: int|
                    at <= i < before.len() - 1 ==> #[trigger] after.pending(listing_id)[i]
                        == before[i + 1]
                &&& after.has(key) <==> before.len() > 1
                &&& after.has(key) ==> is_ids(after.value(key)) && after.ttl(key) == l.bumped(
                    l.ttl(key),
                )
            }
            &&& (forall|i: int| 0 <= i < before.len() ==> before[i] != offer_id) ==> after
                == l.pending_read(listing_id)
            &&& after.persistent.remove(key@) == l.persistent.remove(key@)
            &&& after == (Ledger { persistent: after.persistent, ..l })
        }),
{
    let key = DataKey::ListingPendingOffers(listing_id);
    let before = l.pending(listing_id);
    let left = before.remove_value(offer_id);
    before.index_of_first_ensures(offer_id);
    law_ids_round_trip(left);
    law_pending_read_is_exact(l, listing_id);
    law_write_is_exact(l, key, ids_data(left));
    assert(l.remove(key).persistent.remove(key@) =~= l.persistent.remove(key@));
    if 0 <= at < before.len() && before[at] == offer_id && forall|i: int|
        0 <= i < at ==> before[i] != offer_id {
        assert(before.contains(offer_id));
        let found = before.index_of_first(offer_id).unwrap();
        assert(found == at);
        assert(left =~= before.remove(at));
        assert(l.has(key));
        if left.len() == 0 {
            assert(l.remove(key).pending(listing_id) =~= left);
        }
    }
}

/// Clearing the pending offers deletes the listing's entry and changes nothing else.
pub proof fn law_clear_pending_is_exact(l: Ledger, listing_id: u64)
    ensures
        ({
            let key = DataKey::ListingPendingOffers(listing_id);
            let after = l.pending_cleared(listing_id);
            &&& !after.has(key)
            &&& after.persistent == l.persistent.remove(key@)
            &&& after == (Ledger { persistent: after.persistent, ..l })
        }),
{
}

/// The ids of the listing's pending offers.
pub fn load_pending_offer_ids(env: &mut Env, listing_id: u64) -> (out: soroban_sdk::Vec<u64>)
    requires
        ledger(*old(env)).in_contract,
        ledger(*old(env)).fit(DataKey::ListingPendingOffers(listing_id)),
    ensures
        holds_ids(out, ledger(*old(env)).pending(listing_id)),
        ledger(*final(env)) == ledger(*old(env)).pending_read(listing_id),
{
    let key = DataKey::ListingPendingOffers(listing_id);
    let out = match load(env, &key) {
        Some(v) => val_ids(env, v),
        None => ids_new(env),
    };
    assert(ids(out) =~= ledger(*env).pending(listing_id));
    if ids_len(&out) != 0 {
        bump_entry_ttl(env, &key);
    }
    out
}

/// Number of currently-pending offers on the listing (O(1) storage reads).
pub fn pending_offer_count(env: &mut Env, listing_id: u64) -> (count: u32)
    requires
        ledger(*old(env)).in_contract,
        ledger(*old(env)).fit(DataKey::ListingPendingOffers(listing_id)),
    ensures
        count == ledger(*old(env)).pending(listing_id).len(),
        ledger(*final(env)) == ledger(*old(env)).pending_read(listing_id),
{
    let list = load_pending_offer_ids(env, listing_id);
    proof {
        lemma_ids_data(list);
    }
    ids_len(&list)
}

/// Add `offer_id` to the listing's pending set.
pub fn add_pending_offer(env: &mut Env, listing_id: u64, offer_id: u64)
    requires
        ledger(*old(env)).in_contract,
        ledger(*old(env)).fit(DataKey::ListingPendingOffers(listing_id)),
        ledger(*old(env)).pending(listing_id).len() < u32::MAX,
    ensures
        ledger(*final(env)) == ledger(*old(env)).pending_added(listing_id, offer_id),
        ledger(*final(env)).pending(listing_id) == ledger(*old(env)).pending(listing_id).push(
            offer_id,
        ),
        ledger(*final(env)).pending_wf(listing_id),
{
    let ghost l = ledger(*env);
    let key = DataKey::ListingPendingOffers(listing_id);
    let mut list = load_pending_offer_ids(env, listing_id);
    proof {
        lemma_ids_data(list);
    }
    let ghost loaded = ids(list);
    ids_push_back(&mut list, offer_id);
    assert(ids(list) =~= loaded.push(offer_id));
    proof {
        lemma_ids_data(list);
        law_add_pending(l, listing_id, offer_id);
    }
    store(env, &key, ids_val(&list));
    assert(ledger(*env) =~= l.pending_added(listing_id, offer_id));
}

/// Remove `offer_id` from the listing's pending set. No-op when absent (e.g. an offer that
/// was created before pending offers were tracked). The entry is deleted when the last
/// pending offer leaves.
pub fn remove_pending_offer(env: &mut Env, listing_id: u64, offer_id: u64)
    requires
        ledger(*old(env)).in_contract,
        ledger(*old(env)).fit(DataKey::ListingPendingOffers(listing_id)),
    ensures
        ledger(*final(env)) == ledger(*old(env)).pending_removed(listing_id, offer_id),
        ledger(*final(env)).pending(listing_id) == ledger(*old(env)).pending(
            listing_id,
        ).remove_value(offer_id),
        ledger(*old(env)).pending_wf(listing_id) ==> ledger(*final(env)).pending_wf(listing_id),
{
    let ghost l = ledger(*env);
    let key = DataKey::ListingPendingOffers(listing_id);
    let mut list = load_pending_offer_ids(env, listing_id);
    let ghost loaded = ids(list);
    proof {
        lemma_ids_data(list);
        lemma_items_contain(list, offer_id);
        loaded.index_of_first_ensures(offer_id);
        law_ids_round_trip(loaded.remove_value(offer_id));
        law_pending_read_keeps_values(l, listing_id, key);
        if l.pending_wf(listing_id) {
            law_remove_pending(l, listing_id, offer_id);
        }
    }
    if let Some(i) = ids_first_index_of(&list, offer_id) {
        proof {
            let at = loaded.index_of_first(offer_id).unwrap();
            assert(id_items(list)[at] == Data::U64(loaded[at]));
            assert(loaded[i as int] == offer_id);
            assert(at == i);
        }
        ids_remove(&mut list, i);
        assert(ids(list) =~= loaded.remove_value(offer_id));
        proof {
            lemma_ids_data(list);
        }
        if ids_len(&list) == 0 {
            discard(env, &key);
            assert(ledger(*env).pending(listing_id) =~= loaded.remove_value(offer_id));
        } else {
            store(env, &key, ids_val(&list));
        }
        assert(ledger(*env) =~= l.pending_removed(listing_id, offer_id));
    }
}

/// A host vector of ids has an id among its items exactly where it has it among its ids.
proof fn lemma_items_contain(list: soroban_sdk::Vec<u64>, id: u64)
    requires
        is_ids(Data::List(id_items(list))),
    ensures
        id_items(list).contains(Data::U64(id)) <==> ids(list).contains(id),
{
    if ids(list).contains(id) {
        let i = choose|i: int| 0 <= i < ids(list).len() && ids(list)[i] == id;
        assert(id_items(list)[i] == Data::U64(id));
    }
    if id_items(list).contains(Data::U64(id)) {
        let i = choose|i: int| 0 <= i < id_items(list).len() && id_items(list)[i] == Data::U64(id);
        assert(ids(list)[i] == id);
    }
}

/// Drop the whole pending set (used when a listing reaches a terminal state and all its
/// pending offers were swept in the same invocation).
pub fn clear_pending_offers(env: &mut Env, listing_id: u64)
    requires
        ledger(*old(env)).in_contract,
    ensures
        ledger(*final(env)) == ledger(*old(env)).pending_cleared(listing_id),
{
    discard(env, &DataKey::ListingPendingOffers(listing_id));
}

} // verus!
