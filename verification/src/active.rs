//! The active-listings index.
//!
//! The only index that shrinks. A per-listing position key
//! (`DataKey::ActiveListingPos`) makes removal O(1): read the position, swap the last
//! element into the vacated slot, fix up the moved element's position key. Once removals
//! occur, the index is an unordered set: pagination order is stable between removals but
//! is no longer strict insertion order.
use soroban_sdk::Env;
use vstd::prelude::*;

use crate::host::{holds_ids, id_items, ledger, u32_val, val_u32};
use crate::index::{
    belongs, index_all, index_append, index_get, index_len, index_range, index_swap_remove,
    law_append_is_exact, law_append_leaves_other_entries, law_append_leaves_other_indexes,
    law_append_pushes,
    law_index_is_its_entries, law_index_writes_keep_types, law_other_writes_leave_index,
    law_positions_are_reached, law_swap_remove_leaves_other_entries, law_swap_remove_takes_one,
    seq_swap_remove, INDEX_PAGE_SIZE,
};
use crate::keys::{lemma_keys_differ, DataKey, IndexId};
use crate::ledger::{law_well_typed_is_kept, law_write_is_exact, Data, Ledger};
use crate::store::{discard, is_stored, load, store};

verus! {

impl Ledger {
    /// The ids of the active listings, in index order.
    pub open spec fn active(self) -> Seq<u64> {
        self.index_seq(IndexId::ActiveListings)
    }

    /// The position that is noted for a listing.
    pub open spec fn active_pos(self, listing_id: u64) -> u32 {
        self.value(DataKey::ActiveListingPos(listing_id))->U32_0
    }

    /// Whether the position noted for a listing, if any is, holds that listing.
    pub open spec fn pos_points_at(self, listing_id: u64) -> bool {
        self.has(DataKey::ActiveListingPos(listing_id)) ==> {
            &&& self.value(DataKey::ActiveListingPos(listing_id)) is U32
            &&& self.active_pos(listing_id) < self.active().len()
            &&& self.active()[self.active_pos(listing_id) as int] == listing_id
        }
    }

    /// Whether the listing at a position of the index has that position noted.
    pub open spec fn pos_is_noted(self, pos: int) -> bool {
        let key = DataKey::ActiveListingPos(self.active()[pos]);
        self.has(key) && self.value(key) == Data::U32(pos as u32)
    }

    /// Whether the active-listings index is well formed: a listing has a position noted
    /// exactly where it is in the index, and that is where it stands.
    pub open spec fn active_wf(self) -> bool {
        &&& self.index_wf(IndexId::ActiveListings)
        &&& forall|listing_id: u64| #[trigger] self.pos_points_at(listing_id)
        &&& forall|pos: int| 0 <= pos < self.active().len() ==> #[trigger] self.pos_is_noted(pos)
    }

    /// A listing joins the index. One that has a position noted changes nothing.
    pub open spec fn active_added(self, listing_id: u64) -> Ledger {
        let idx = IndexId::ActiveListings;
        let key = DataKey::ActiveListingPos(listing_id);
        if self.has(key) {
            self
        } else {
            self.appended(idx, listing_id).put(key, Data::U32(self.index_len(idx) as u32))
        }
    }

    /// The element that a read at a position finds.
    pub open spec fn active_at(self, pos: u32) -> Option<u64> {
        let idx = IndexId::ActiveListings;
        if pos < self.index_len(idx) && self.reaches(idx, pos as int) {
            Some(self.index_element(idx, pos as int))
        } else {
            None
        }
    }

    /// A listing leaves the index. One that has no position noted changes nothing; one
    /// that does not stand where its position says only has the index read.
    pub open spec fn active_removed(self, listing_id: u64) -> Ledger {
        let idx = IndexId::ActiveListings;
        let key = DataKey::ActiveListingPos(listing_id);
        let pos = self.active_pos(listing_id);
        let len = self.index_len(idx);
        if !self.has(key) {
            self
        } else if self.active_at(pos) != Some(listing_id) {
            if pos < len {
                self.len_read(idx).page_read(idx, pos / INDEX_PAGE_SIZE)
            } else {
                self.len_read(idx)
            }
        } else if pos + 1 < len {
            let moved = self.index_element(idx, len - 1);
            self.swap_removed(idx, pos).put(
                DataKey::ActiveListingPos(moved),
                Data::U32(pos),
            ).remove(key)
        } else {
            self.swap_removed(idx, pos).remove(key)
        }
    }
}

/// The index holds no listing twice.
pub proof fn law_active_has_no_duplicates(l: Ledger)
    requires
        l.active_wf(),
    ensures
        l.active().no_duplicates(),
{
    assert forall|i: int, j: int|
        0 <= i < l.active().len() && 0 <= j < l.active().len() && i != j implies l.active()[i]
        != l.active()[j] by {
        assert(l.pos_is_noted(i));
        assert(l.pos_is_noted(j));
    }
}

/// A listing has a position noted exactly where it is in the index.
pub proof fn law_position_iff_active(l: Ledger, listing_id: u64)
    requires
        l.active_wf(),
    ensures
        l.has(DataKey::ActiveListingPos(listing_id)) <==> l.active().contains(listing_id),
{
    assert(l.pos_points_at(listing_id));
    if l.active().contains(listing_id) {
        let pos = choose|pos: int| 0 <= pos < l.active().len() && l.active()[pos] == listing_id;
        assert(l.pos_is_noted(pos));
    }
}

/// Adding a listing keeps the index well formed. A new listing goes to the end, one that
/// is in the index already stays where it is.
pub proof fn law_add_active(l: Ledger, listing_id: u64)
    requires
        l.active_wf(),
        l.active().len() < u32::MAX,
    ensures
        l.active_added(listing_id).active_wf(),
        l.active_added(listing_id).active() == (if l.active().contains(listing_id) {
            l.active()
        } else {
            l.active().push(listing_id)
        }),
{
    let idx = IndexId::ActiveListings;
    let key = DataKey::ActiveListingPos(listing_id);
    law_position_iff_active(l, listing_id);
    if !l.has(key) {
        let mid = l.appended(idx, listing_id);
        let after = l.active_added(listing_id);
        law_append_pushes(l, idx, listing_id);
        assert forall|k: DataKey| belongs(k, idx) implies #[trigger] after.get(k) == mid.get(k) by {
            lemma_keys_differ(k, key);
        }
        law_index_is_its_entries(after, mid, idx);
        assert forall|other: u64| other != listing_id implies #[trigger] after.get(
            DataKey::ActiveListingPos(other),
        ) == l.get(DataKey::ActiveListingPos(other)) by {
            law_append_leaves_other_entries(l, idx, listing_id, DataKey::ActiveListingPos(other));
            lemma_keys_differ(DataKey::ActiveListingPos(other), key);
        }
        assert forall|other: u64| #[trigger] after.pos_points_at(other) by {
            assert(l.pos_points_at(other));
            if other != listing_id {
                assert(after.get(DataKey::ActiveListingPos(other)) == l.get(
                    DataKey::ActiveListingPos(other),
                ));
            }
        }
        assert forall|pos: int|
            0 <= pos < after.active().len() implies #[trigger] after.pos_is_noted(pos) by {
            if pos < l.active().len() {
                assert(l.pos_is_noted(pos));
                let other = l.active()[pos];
                assert(l.active().contains(other));
                assert(after.get(DataKey::ActiveListingPos(other)) == l.get(
                    DataKey::ActiveListingPos(other),
                ));
            }
        }
    }
}

/// Adding a listing twice is the same as adding it once.
pub proof fn law_add_active_is_idempotent(l: Ledger, listing_id: u64)
    ensures
        l.active_added(listing_id).active_added(listing_id) == l.active_added(listing_id),
{
}

/// Removing a listing keeps the index well formed and takes out that listing alone, with
/// the last listing in its place. One that is not in the index changes nothing.
pub proof fn law_remove_active(l: Ledger, listing_id: u64)
    requires
        l.active_wf(),
    ensures
        l.active_removed(listing_id).active_wf(),
        l.active().contains(listing_id) ==> l.active_removed(listing_id).active()
            == seq_swap_remove(l.active(), l.active_pos(listing_id) as int),
        !l.active().contains(listing_id) ==> l.active_removed(listing_id) == l,
{
    let idx = IndexId::ActiveListings;
    let key = DataKey::ActiveListingPos(listing_id);
    law_position_iff_active(l, listing_id);
    if l.has(key) {
        assert(l.pos_points_at(listing_id));
        let pos = l.active_pos(listing_id);
        let len = l.active().len();
        law_positions_are_reached(l, idx, pos as int);
        law_positions_are_reached(l, idx, len - 1);
        law_swap_remove_takes_one(l, idx, pos);
        law_active_has_no_duplicates(l);
        let mid = l.swap_removed(idx, pos);
        let after = l.active_removed(listing_id);
        let moved = l.active()[len - 1];
        assert forall|k: DataKey| belongs(k, idx) implies #[trigger] after.get(k) == mid.get(k) by {
            lemma_keys_differ(k, key);
            lemma_keys_differ(k, DataKey::ActiveListingPos(moved));
        }
        law_index_is_its_entries(after, mid, idx);
        assert forall|other: u64| other != listing_id && (other != moved || pos + 1 == len) implies
            #[trigger] after.get(DataKey::ActiveListingPos(other)) == l.get(
                DataKey::ActiveListingPos(other),
            ) by {
            law_swap_remove_leaves_other_entries(l, idx, pos, DataKey::ActiveListingPos(other));
            lemma_keys_differ(DataKey::ActiveListingPos(other), key);
            if other != moved {
                lemma_keys_differ(
                    DataKey::ActiveListingPos(other),
                    DataKey::ActiveListingPos(moved),
                );
            }
        }
        if moved != listing_id {
            lemma_keys_differ(DataKey::ActiveListingPos(moved), key);
        }
        assert forall|other: u64| #[trigger] after.pos_points_at(other) by {
            assert(l.pos_points_at(other));
            if other != listing_id && (other != moved || pos + 1 == len) {
                assert(after.get(DataKey::ActiveListingPos(other)) == l.get(
                    DataKey::ActiveListingPos(other),
                ));
            }
        }
        assert forall|q: int| 0 <= q < after.active().len() implies #[trigger] after.pos_is_noted(
            q,
        ) by {
            assert(l.pos_is_noted(q));
            let other = l.active()[q];
            if q != pos {
                assert(other != listing_id && other != moved);
                assert(after.get(DataKey::ActiveListingPos(other)) == l.get(
                    DataKey::ActiveListingPos(other),
                ));
            }
        }
    }
}

/// After a removal the listing is not in the index, and every other listing is in it
/// exactly where it was in it before.
pub proof fn law_remove_active_is_set_removal(l: Ledger, listing_id: u64)
    requires
        l.active_wf(),
    ensures
        l.active_removed(listing_id).active().to_set() == l.active().to_set().remove(listing_id),
{
    law_remove_active(l, listing_id);
    let before = l.active();
    let after = l.active_removed(listing_id).active();
    if before.contains(listing_id) {
        law_position_iff_active(l, listing_id);
        assert(l.pos_points_at(listing_id));
        law_active_has_no_duplicates(l);
        let pos = l.active_pos(listing_id) as int;
        assert forall|x: u64| after.contains(x) <==> before.contains(x) && x != listing_id by {
            if after.contains(x) {
                let q = choose|q: int| 0 <= q < after.len() && after[q] == x;
                if q == pos {
                    assert(before[before.len() - 1] == x);
                } else {
                    assert(before[q] == x);
                }
            }
            if before.contains(x) && x != listing_id {
                let q = choose|q: int| 0 <= q < before.len() && before[q] == x;
                if q == before.len() - 1 {
                    assert(after[pos] == x);
                } else {
                    assert(after[q] == x);
                }
            }
        }
    }
    assert(after.to_set() =~= before.to_set().remove(listing_id));
}

/// Adding a listing adds exactly that listing to the set of active ones.
pub proof fn law_add_active_is_set_insertion(l: Ledger, listing_id: u64)
    requires
        l.active_wf(),
        l.active().len() < u32::MAX,
    ensures
        l.active_added(listing_id).active().to_set() == l.active().to_set().insert(listing_id),
{
    law_add_active(l, listing_id);
    let before = l.active();
    if !before.contains(listing_id) {
        let after = before.push(listing_id);
        assert forall|x: u64| after.contains(x) <==> before.contains(x) || x == listing_id by {
            if before.contains(x) {
                let q = choose|q: int| 0 <= q < before.len() && before[q] == x;
                assert(after[q] == x);
            }
            assert(after[before.len() as int] == listing_id);
        }
    }
    assert(l.active_added(listing_id).active().to_set() =~= before.to_set().insert(listing_id));
}

/// Removing a listing that was just added gives back the index from before.
pub proof fn law_remove_undoes_add(l: Ledger, listing_id: u64)
    requires
        l.active_wf(),
        l.active().len() < u32::MAX,
        !l.active().contains(listing_id),
    ensures
        l.active_added(listing_id).active_removed(listing_id).active() == l.active(),
{
    let mid = l.active_added(listing_id);
    law_add_active(l, listing_id);
    law_remove_active(mid, listing_id);
    law_active_has_no_duplicates(mid);
    assert(mid.active()[l.active().len() as int] == listing_id);
    assert(mid.pos_is_noted(l.active().len() as int));
    assert(mid.active_removed(listing_id).active() =~= l.active());
}

/// Writing or removing an entry that is neither of the index nor a noted position leaves
/// the active listings as they were.
pub proof fn law_other_writes_leave_active(l: Ledger, key: DataKey, value: Data)
    requires
        l.active_wf(),
        !belongs(key, IndexId::ActiveListings),
        !(key is ActiveListingPos),
    ensures
        l.put(key, value).active() == l.active(),
        l.put(key, value).active_wf(),
        l.remove(key).active() == l.active(),
        l.remove(key).active_wf(),
{
    law_other_writes_leave_index(l, key, value, IndexId::ActiveListings);
    assert forall|listing_id: u64| #[trigger] l.put(key, value).get(
        DataKey::ActiveListingPos(listing_id),
    ) == l.get(DataKey::ActiveListingPos(listing_id)) by {
        lemma_keys_differ(DataKey::ActiveListingPos(listing_id), key);
    }
    assert forall|listing_id: u64| #[trigger] l.remove(key).get(
        DataKey::ActiveListingPos(listing_id),
    ) == l.get(DataKey::ActiveListingPos(listing_id)) by {
        lemma_keys_differ(DataKey::ActiveListingPos(listing_id), key);
    }
    lemma_same_notes(l, l.put(key, value));
    lemma_same_notes(l, l.remove(key));
}

/// Appending to another index leaves the active listings as they were.
pub proof fn law_other_indexes_leave_active(l: Ledger, id: IndexId, value: u64)
    requires
        l.active_wf(),
        id != IndexId::ActiveListings,
    ensures
        l.appended(id, value).active() == l.active(),
        l.appended(id, value).active_wf(),
{
    law_append_leaves_other_indexes(l, id, value, IndexId::ActiveListings);
    assert forall|listing_id: u64| #[trigger] l.appended(id, value).get(
        DataKey::ActiveListingPos(listing_id),
    ) == l.get(DataKey::ActiveListingPos(listing_id)) by {
        law_append_leaves_other_entries(l, id, value, DataKey::ActiveListingPos(listing_id));
    }
    lemma_same_notes(l, l.appended(id, value));
}

/// The active listings stay well formed where the index and the noted positions stay.
proof fn lemma_same_notes(a: Ledger, b: Ledger)
    requires
        a.active_wf(),
        b.index_wf(IndexId::ActiveListings),
        b.active() == a.active(),
        forall|listing_id: u64| #[trigger]
            b.get(DataKey::ActiveListingPos(listing_id)) == a.get(
                DataKey::ActiveListingPos(listing_id),
            ),
    ensures
        b.active_wf(),
{
    assert forall|listing_id: u64| #[trigger] b.pos_points_at(listing_id) by {
        assert(a.pos_points_at(listing_id));
        assert(b.get(DataKey::ActiveListingPos(listing_id)) == a.get(
            DataKey::ActiveListingPos(listing_id),
        ));
    }
    assert forall|pos: int| 0 <= pos < b.active().len() implies #[trigger] b.pos_is_noted(pos) by {
        assert(a.pos_is_noted(pos));
        assert(b.get(DataKey::ActiveListingPos(b.active()[pos])) == a.get(
            DataKey::ActiveListingPos(b.active()[pos]),
        ));
    }
}

/// Adding and removing a listing keep the ledger well typed.
pub proof fn law_active_writes_keep_types(l: Ledger, listing_id: u64)
    requires
        l.well_typed(),
    ensures
        l.active_added(listing_id).well_typed(),
        l.active_removed(listing_id).well_typed(),
{
    let idx = IndexId::ActiveListings;
    let key = DataKey::ActiveListingPos(listing_id);
    let pos = l.active_pos(listing_id);
    let len = l.index_len(idx);
    let moved = l.index_element(idx, len - 1);
    law_index_writes_keep_types(l, idx, listing_id, pos);
    law_well_typed_is_kept(l.appended(idx, listing_id), key, Data::U32(len as u32));
    law_well_typed_is_kept(l, DataKey::IndexLen(idx), Data::U32(0));
    law_well_typed_is_kept(
        l.len_read(idx),
        DataKey::IndexPage(idx, pos / INDEX_PAGE_SIZE),
        Data::U32(0),
    );
    let swapped = l.swap_removed(idx, pos);
    law_well_typed_is_kept(swapped, DataKey::ActiveListingPos(moved), Data::U32(pos));
    law_well_typed_is_kept(swapped, key, Data::U32(0));
    law_well_typed_is_kept(
        swapped.put(DataKey::ActiveListingPos(moved), Data::U32(pos)),
        key,
        Data::U32(0),
    );
}

/// The active listings are the ids that the index of active listings holds, position by
/// position, and a noted position is the number in its entry.
pub proof fn law_active_listings_stand_on_their_pages(l: Ledger, pos: int, id: u64, n: u32)
    ensures
        l.active().len() == l.index_len(IndexId::ActiveListings),
        0 <= pos < l.active().len() ==> l.active()[pos] == l.index_page(
            IndexId::ActiveListings,
            (pos / 100) as u32,
        )[pos % 100],
        l.get(DataKey::ActiveListingPos(id)) == Some(Data::U32(n)) ==> l.active_pos(id) == n,
{
}

/// The index of active listings is well formed exactly where its pages are, every noted
/// position holds its listing, and every listing in the index has its position noted.
pub proof fn law_active_wf_means(l: Ledger)
    ensures
        l.active_wf() <==> {
            &&& l.index_wf(IndexId::ActiveListings)
            &&& forall|id: u64| #[trigger]
                l.has(DataKey::ActiveListingPos(id)) ==> {
                    &&& l.value(DataKey::ActiveListingPos(id)) is U32
                    &&& l.value(DataKey::ActiveListingPos(id))->U32_0 < l.active().len()
                    &&& l.active()[l.value(DataKey::ActiveListingPos(id))->U32_0 as int] == id
                }
            &&& forall|pos: int|
                0 <= pos < l.active().len() ==> l.get(
                    DataKey::ActiveListingPos(#[trigger] l.active()[pos]),
                ) == Some(Data::U32(pos as u32))
        },
{
    if l.active_wf() {
        assert forall|id: u64| #[trigger] l.has(DataKey::ActiveListingPos(id)) implies {
            &&& l.value(DataKey::ActiveListingPos(id)) is U32
            &&& l.value(DataKey::ActiveListingPos(id))->U32_0 < l.active().len()
            &&& l.active()[l.value(DataKey::ActiveListingPos(id))->U32_0 as int] == id
        } by {
            assert(l.pos_points_at(id));
        }
        assert forall|pos: int| 0 <= pos < l.active().len() implies l.get(
            DataKey::ActiveListingPos(#[trigger] l.active()[pos]),
        ) == Some(Data::U32(pos as u32)) by {
            assert(l.pos_is_noted(pos));
        }
    }
    if {
        &&& l.index_wf(IndexId::ActiveListings)
        &&& forall|id: u64| #[trigger]
            l.has(DataKey::ActiveListingPos(id)) ==> {
                &&& l.value(DataKey::ActiveListingPos(id)) is U32
                &&& l.value(DataKey::ActiveListingPos(id))->U32_0 < l.active().len()
                &&& l.active()[l.value(DataKey::ActiveListingPos(id))->U32_0 as int] == id
            }
        &&& forall|pos: int|
            0 <= pos < l.active().len() ==> l.get(
                DataKey::ActiveListingPos(#[trigger] l.active()[pos]),
            ) == Some(Data::U32(pos as u32))
    } {
        assert forall|id: u64| #[trigger] l.pos_points_at(id) by {
            if l.has(DataKey::ActiveListingPos(id)) {
                assert(l.value(DataKey::ActiveListingPos(id)) is U32);
            }
        }
        assert forall|pos: int| 0 <= pos < l.active().len() implies #[trigger] l.pos_is_noted(
            pos,
        ) by {
            assert(l.get(DataKey::ActiveListingPos(l.active()[pos])) == Some(
                Data::U32(pos as u32),
            ));
        }
    }
}

/// Adding a listing that has no position noted appends it and notes the length from
/// before as its position; nothing else changes. One that has a position noted changes
/// nothing at all.
pub proof fn law_add_active_is_exact(l: Ledger, id: u64)
    requires
        l.index_len(IndexId::ActiveListings) < u32::MAX,
    ensures
        l.has(DataKey::ActiveListingPos(id)) ==> l.active_added(id) == l,
        !l.has(DataKey::ActiveListingPos(id)) ==> {
            let after = l.active_added(id);
            let key = DataKey::ActiveListingPos(id);
            &&& after.get(key) == Some(
                Data::U32(l.index_len(IndexId::ActiveListings) as u32),
            )
            &&& after.ttl(key) == l.bumped(l.new_persistent_ttl)
            &&& after.persistent.remove(key@) == l.appended(
                IndexId::ActiveListings,
                id,
            ).persistent.remove(key@)
            &&& after == (Ledger { persistent: after.persistent, ..l })
        },
{
    let key = DataKey::ActiveListingPos(id);
    let mid = l.appended(IndexId::ActiveListings, id);
    law_append_leaves_other_entries(l, IndexId::ActiveListings, id, key);
    law_append_is_exact(l, IndexId::ActiveListings, id);
    law_write_is_exact(mid, key, Data::U32(l.index_len(IndexId::ActiveListings) as u32));
}

/// A read at a position finds the id on its page, and nothing past the end of the index
/// or of the page.
pub proof fn law_active_at_means(l: Ledger, pos: u32)
    ensures
        l.active_at(pos) == (if pos < l.index_len(IndexId::ActiveListings) && l.reaches(
            IndexId::ActiveListings,
            pos as int,
        ) {
            Some(l.index_page(IndexId::ActiveListings, pos / 100)[(pos % 100) as int])
        } else {
            None
        }),
{
}

/// Removing a listing that stands where its position says takes it out by swap-removal,
/// notes the position of the listing that moved, if one did, and drops the note of the
/// removed one; nothing else changes. Without a noted position nothing changes at all, and
/// with a wrong one only the index is read.
pub proof fn law_remove_active_is_exact(l: Ledger, id: u64)
    ensures
        ({
            let idx = IndexId::ActiveListings;
            let after = l.active_removed(id);
            let key = DataKey::ActiveListingPos(id);
            let pos = l.value(key)->U32_0;
            let swapped = l.swap_removed(idx, pos);
            let moved = l.index_element(idx, l.index_len(idx) - 1);
            let moved_key = DataKey::ActiveListingPos(moved);
            &&& !l.has(key) ==> after == l
            &&& l.has(key) && l.active_at(pos) != Some(id) && pos >= l.index_len(idx) ==> after
                == l.len_read(idx)
            &&& l.has(key) && l.active_at(pos) != Some(id) && pos < l.index_len(idx) ==> after
                == l.len_read(idx).page_read(idx, pos / 100)
            &&& l.has(key) && l.active_at(pos) == Some(id) ==> {
                &&& !after.has(key)
                &&& pos + 1 < l.index_len(idx) && moved != id ==> {
                    &&& after.get(moved_key) == Some(Data::U32(pos))
                    &&& after.ttl(moved_key) == l.bumped(
                        if l.has(moved_key) {
                            l.ttl(moved_key)
                        } else {
                            l.new_persistent_ttl
                        },
                    )
                    &&& after.persistent.remove(key@).remove(moved_key@)
                        == swapped.persistent.remove(key@).remove(moved_key@)
                }
                &&& pos + 1 >= l.index_len(idx) || moved == id ==> after.persistent
                    == swapped.persistent.remove(key@)
                &&& after == (Ledger { persistent: after.persistent, ..swapped })
            }
        }),
{
    let idx = IndexId::ActiveListings;
    let after = l.active_removed(id);
    let key = DataKey::ActiveListingPos(id);
    let pos = l.value(key)->U32_0;
    let swapped = l.swap_removed(idx, pos);
    let moved = l.index_element(idx, l.index_len(idx) - 1);
    let moved_key = DataKey::ActiveListingPos(moved);
    law_swap_remove_leaves_other_entries(l, idx, pos, moved_key);
    if moved != id {
        lemma_keys_differ(moved_key, key);
    }
    if l.has(key) && l.active_at(pos) == Some(id) {
        assert(swapped.max_ttl == l.max_ttl && swapped.new_persistent_ttl
            == l.new_persistent_ttl);
        if pos + 1 < l.index_len(idx) && moved != id {
            assert(after.persistent.remove(key@).remove(moved_key@)
                =~= swapped.persistent.remove(key@).remove(moved_key@));
        } else {
            assert(after.persistent =~= swapped.persistent.remove(key@));
        }
    }
}

/// Put a listing into the index of active listings.
pub fn add_to_active_listings(env: &mut Env, listing_id: u64)
    requires
        ledger(*old(env)).in_contract,
        !ledger(*old(env)).has(DataKey::ActiveListingPos(listing_id)) ==> ledger(
            *old(env),
        ).appendable(IndexId::ActiveListings),
    ensures
        ledger(*final(env)) == ledger(*old(env)).active_added(listing_id),
        ledger(*old(env)).active_wf() ==> ledger(*final(env)).active_wf(),
        ledger(*old(env)).active_wf() ==> ledger(*final(env)).active() == (if ledger(
            *old(env),
        ).active().contains(listing_id) {
            ledger(*old(env)).active()
        } else {
            ledger(*old(env)).active().push(listing_id)
        }),
{
    let ghost l = ledger(*env);
    let idx = IndexId::ActiveListings;
    let pos_key = DataKey::ActiveListingPos(listing_id);
    proof {
        if l.active_wf() {
            law_position_iff_active(l, listing_id);
        }
    }
    // Idempotency guard: never double-insert an id already in the index.
    if is_stored(env, &pos_key) {
        return;
    }
    proof {
        if l.active_wf() {
            law_add_active(l, listing_id);
        }
    }
    let pos = index_len(env, &idx);
    let ghost page = pos / INDEX_PAGE_SIZE;
    proof {
        lemma_keys_differ(DataKey::IndexLen(idx), DataKey::IndexPage(idx, page));
        lemma_keys_differ(DataKey::IndexLen(idx), pos_key);
        lemma_keys_differ(DataKey::IndexPage(idx, page), pos_key);
    }
    index_append(env, &idx, listing_id);
    assert(ledger(*env) =~= l.appended(idx, listing_id));
    let v = u32_val(env, pos);
    store(env, &pos_key, v);
}

/// Take a listing out of the index of active listings.
pub fn remove_from_active_listings(env: &mut Env, listing_id: u64)
    requires
        ledger(*old(env)).in_contract,
        ledger(*old(env)).has(DataKey::ActiveListingPos(listing_id)) ==> {
            let l = ledger(*old(env));
            let idx = IndexId::ActiveListings;
            let pos = l.active_pos(listing_id);
            let len = l.index_len(idx);
            &&& l.value(DataKey::ActiveListingPos(listing_id)) is U32
            &&& l.fit(DataKey::IndexLen(idx))
            &&& pos < len ==> l.fit(DataKey::IndexPage(idx, pos / INDEX_PAGE_SIZE))
            &&& l.active_at(pos) == Some(listing_id) ==> l.reaches(idx, len - 1)
        },
    ensures
        ledger(*final(env)) == ledger(*old(env)).active_removed(listing_id),
        ledger(*old(env)).active_wf() ==> {
            &&& ledger(*final(env)).active_wf()
            &&& ledger(*final(env)).active().to_set() == ledger(*old(env)).active().to_set().remove(
                listing_id,
            )
        },
{
    let ghost l = ledger(*env);
    let idx = IndexId::ActiveListings;
    let pos_key = DataKey::ActiveListingPos(listing_id);
    proof {
        if l.active_wf() {
            law_remove_active(l, listing_id);
            law_remove_active_is_set_removal(l, listing_id);
        }
    }
    let pos: u32 = match load(env, &pos_key) {
        Some(v) => val_u32(env, v),
        None => {
            return;  // not in the index: nothing to do
        },
    };
    // Defensive consistency check: the slot must actually hold this id.
    let held = index_get(env, &idx, pos);
    assert(held == l.active_at(pos));
    match held {
        Some(id) => {
            if id != listing_id {
                return;
            }
        },
        None => {
            return;
        },
    }
    let ghost mid = ledger(*env);
    let ghost last_page = ((l.index_len(idx) - 1) as u32) / INDEX_PAGE_SIZE;
    let ghost pos_page = pos / INDEX_PAGE_SIZE;
    proof {
        lemma_keys_differ(DataKey::IndexLen(idx), DataKey::IndexPage(idx, pos_page));
        lemma_keys_differ(DataKey::IndexLen(idx), DataKey::IndexPage(idx, last_page));
        if pos_page != last_page {
            lemma_keys_differ(
                DataKey::IndexPage(idx, pos_page),
                DataKey::IndexPage(idx, last_page),
            );
        }
    }
    let moved = index_swap_remove(env, &idx, pos);
    assert(ledger(*env) =~= l.swap_removed(idx, pos));
    match moved {
        Some(id) => {
            let moved_key = DataKey::ActiveListingPos(id);
            let v = u32_val(env, pos);
            store(env, &moved_key, v);
        },
        None => {},
    }
    discard(env, &pos_key);
}

/// Number of active listings.
pub fn active_listings_len(env: &mut Env) -> (len: u32)
    requires
        ledger(*old(env)).in_contract,
        ledger(*old(env)).fit(DataKey::IndexLen(IndexId::ActiveListings)),
    ensures
        len == ledger(*old(env)).index_len(IndexId::ActiveListings),
        len == ledger(*old(env)).active().len(),
        ledger(*final(env)) == ledger(*old(env)).len_read(IndexId::ActiveListings),
{
    index_len(env, &IndexId::ActiveListings)
}

/// Up to `limit` active listings, from position `start` on.
pub fn get_active_listing_ids_range(env: &mut Env, start: u32, limit: u32) -> (out:
    soroban_sdk::Vec<u64>)
    requires
        ledger(*old(env)).in_contract,
        ledger(*old(env)).readable(IndexId::ActiveListings, start, limit),
    ensures
        holds_ids(
            out,
            ledger(*old(env)).index_elements(IndexId::ActiveListings, start, limit),
        ),
        ledger(*final(env)) == ledger(*old(env)).range_read(
            IndexId::ActiveListings,
            start,
            limit,
        ),
        start >= ledger(*old(env)).active().len() ==> id_items(out).len() == 0,
        start < ledger(*old(env)).active().len() ==> id_items(out).len() == (if limit <= ledger(
            *old(env),
        ).active().len() - start {
            limit as int
        } else {
            ledger(*old(env)).active().len() - start
        }),
        forall|i: int|
            0 <= i < id_items(out).len() ==> #[trigger] id_items(out)[i] == Data::U64(
                ledger(*old(env)).active()[start + i],
            ),
{
    index_range(env, &IndexId::ActiveListings, start, limit)
}

/// The whole active index: for tests and migration assertions only; the read surface
/// pages through `get_active_listing_ids_range`.
pub fn get_active_listing_ids(env: &mut Env) -> (out: soroban_sdk::Vec<u64>)
    requires
        ledger(*old(env)).in_contract,
        ledger(*old(env)).all_readable(IndexId::ActiveListings),
    ensures
        holds_ids(out, ledger(*old(env)).active()),
        ledger(*final(env)) == ledger(*old(env)).range_read(
            IndexId::ActiveListings,
            0,
            ledger(*old(env)).index_len(IndexId::ActiveListings) as u32,
        ),
{
    index_all(env, &IndexId::ActiveListings)
}

} // verus!
