//! The paged index engine.
//!
//! Each `IndexId` collection is a sequence of fixed-capacity pages. Element `i` lives in
//! page `i / INDEX_PAGE_SIZE` at offset `i % INDEX_PAGE_SIZE`. Appending touches only the
//! last page; swap-removal touches at most the page holding the removed slot plus the
//! last page. Emptied pages are deleted so dead keys do not accumulate.
use soroban_sdk::Env;
use vstd::prelude::*;

use crate::host::{
    holds_ids, id_items, ids, ids_data, ids_get, ids_len, ids_new, ids_of, ids_push_back, ids_remove,
    ids_set, ids_val, is_ids, law_held_ids_are_the_items, law_ids_are_stored_one_for_one,
    law_ids_round_trip, ledger, lemma_ids_data, u32_val, val_ids,
    val_u32,
};
use crate::keys::{lemma_keys_differ, DataKey, IndexId};
use crate::ledger::{
    law_removal_leaves_other_keys, law_touch_is_exact, law_touch_keeps_values, law_well_typed_is_kept,
    law_write_leaves_other_keys, Data, Ledger,
};
use crate::store::{bump_entry_ttl, discard, load, store};

verus! {

/// Maximum number of ids held by one index page.
pub const INDEX_PAGE_SIZE: u32 = 100;

impl Ledger {
    /// The stored length of the index.
    pub open spec fn index_len(self, id: IndexId) -> nat {
        if self.has(DataKey::IndexLen(id)) {
            self.value(DataKey::IndexLen(id))->U32_0 as nat
        } else {
            0
        }
    }

    /// The entries of one page of the index; a page that does not exist has none.
    pub open spec fn index_page(self, id: IndexId, page: u32) -> Seq<u64> {
        if self.has(DataKey::IndexPage(id, page)) {
            ids_of(self.value(DataKey::IndexPage(id, page)))
        } else {
            Seq::empty()
        }
    }

    /// The elements of the index.
    pub open spec fn index_seq(self, id: IndexId) -> Seq<u64> {
        Seq::new(
            self.index_len(id),
            |i: int|
                self.index_page(id, (i / INDEX_PAGE_SIZE as int) as u32)[i
                    % INDEX_PAGE_SIZE as int],
        )
    }

    /// Whether a page is what the length of the index asks for: full, or the filled part
    /// of the last page, or absent.
    pub open spec fn page_wf(self, id: IndexId, page: u32) -> bool {
        let left = self.index_len(id) - page * INDEX_PAGE_SIZE;
        if left > 0 {
            &&& self.has(DataKey::IndexPage(id, page))
            &&& is_ids(self.value(DataKey::IndexPage(id, page)))
            &&& self.index_page(id, page).len() == (if left < INDEX_PAGE_SIZE {
                left
            } else {
                INDEX_PAGE_SIZE as int
            })
        } else {
            !self.has(DataKey::IndexPage(id, page))
        }
    }

    /// Whether the index is well formed: a length entry exists exactly for an index that
    /// is not empty, and every page is what the length asks for.
    pub open spec fn index_wf(self, id: IndexId) -> bool {
        &&& self.has(DataKey::IndexLen(id)) ==> {
            &&& self.value(DataKey::IndexLen(id)) is U32
            &&& self.index_len(id) > 0
        }
        &&& forall|page: u32| #[trigger] self.page_wf(id, page)
    }

    /// The length is read: a length entry that says more than zero has its life extended.
    pub open spec fn len_read(self, id: IndexId) -> Ledger {
        if self.index_len(id) > 0 {
            self.touch(DataKey::IndexLen(id))
        } else {
            self
        }
    }

    /// A page is read: one with entries has its life extended.
    pub open spec fn page_read(self, id: IndexId, page: u32) -> Ledger {
        if self.index_page(id, page).len() > 0 {
            self.touch(DataKey::IndexPage(id, page))
        } else {
            self
        }
    }

    /// The pages `lo..hi` are read.
    pub open spec fn pages_read(self, id: IndexId, lo: int, hi: int) -> Ledger
        decreases hi - lo,
    {
        if lo < hi {
            self.pages_read(id, lo, hi - 1).page_read(id, (hi - 1) as u32)
        } else {
            self
        }
    }

    /// The length is written; a zero length has no entry.
    pub open spec fn with_index_len(self, id: IndexId, len: u32) -> Ledger {
        if len == 0 {
            self.remove(DataKey::IndexLen(id))
        } else {
            self.put(DataKey::IndexLen(id), Data::U32(len))
        }
    }

    /// A page is written; an empty page has no entry.
    pub open spec fn with_index_page(self, id: IndexId, page: u32, entries: Seq<u64>) -> Ledger {
        if entries.len() == 0 {
            self.remove(DataKey::IndexPage(id, page))
        } else {
            self.put(DataKey::IndexPage(id, page), ids_data(entries))
        }
    }

    /// `value` is appended to the index: it goes to the end of the page that the length
    /// points at, and the length grows by one.
    pub open spec fn appended(self, id: IndexId, value: u64) -> Ledger {
        let len = self.index_len(id);
        let page = (len / INDEX_PAGE_SIZE as nat) as u32;
        self.with_index_page(id, page, self.index_page(id, page).push(value)).with_index_len(
            id,
            (len + 1) as u32,
        )
    }
}

impl Ledger {
    /// The element at a position, by the page and the offset that it stands for.
    pub open spec fn index_element(self, id: IndexId, pos: int) -> u64 {
        self.index_page(id, (pos / INDEX_PAGE_SIZE as int) as u32)[pos % INDEX_PAGE_SIZE as int]
    }

    /// Whether the page that a position falls on is a page of ids that reaches as far as
    /// the position.
    pub open spec fn reaches(self, id: IndexId, pos: int) -> bool {
        let page = (pos / INDEX_PAGE_SIZE as int) as u32;
        &&& self.fit(DataKey::IndexPage(id, page))
        &&& pos % (INDEX_PAGE_SIZE as int) < self.index_page(id, page).len()
    }

    /// Whether the index can take one more element: its length and the page that the
    /// length points at are what they should be, and neither is full to the limit of
    /// its counter.
    pub open spec fn appendable(self, id: IndexId) -> bool {
        let page = (self.index_len(id) / INDEX_PAGE_SIZE as nat) as u32;
        &&& self.fit(DataKey::IndexLen(id))
        &&& self.index_len(id) < u32::MAX
        &&& self.fit(DataKey::IndexPage(id, page))
        &&& self.index_page(id, page).len() < u32::MAX
    }

    /// Whether every position of a range can be read.
    pub open spec fn readable(self, id: IndexId, start: u32, limit: u32) -> bool {
        &&& self.fit(DataKey::IndexLen(id))
        &&& forall|pos: int|
            start <= pos < range_end(self.index_len(id), start, limit) ==> #[trigger] self.reaches(
                id,
                pos,
            )
    }

    /// Whether every position of the index can be read.
    pub open spec fn all_readable(self, id: IndexId) -> bool {
        self.readable(id, 0, self.index_len(id) as u32)
    }

    /// The last element moves into the slot at `pos` and its own slot goes away. A
    /// position past the end leaves the index as it is, with its length read.
    pub open spec fn swap_removed(self, id: IndexId, pos: u32) -> Ledger {
        let len = self.index_len(id);
        if pos >= len {
            self.len_read(id)
        } else {
            let last = (len - 1) as u32;
            let last_page = last / INDEX_PAGE_SIZE;
            let pos_page = pos / INDEX_PAGE_SIZE;
            let last_off = (last % INDEX_PAGE_SIZE) as int;
            let pos_off = (pos % INDEX_PAGE_SIZE) as int;
            let moved = self.index_element(id, last as int);
            let entries = self.index_page(id, last_page);
            let paged = if pos_page == last_page {
                self.with_index_page(
                    id,
                    last_page,
                    entries.update(pos_off, moved).remove(last_off),
                )
            } else {
                self.with_index_page(id, last_page, entries.remove(last_off)).with_index_page(
                    id,
                    pos_page,
                    self.index_page(id, pos_page).update(pos_off, moved),
                )
            };
            paged.with_index_len(id, last)
        }
    }
}

/// Where a range of at most `limit` positions from `start` on ends.
pub open spec fn range_end(len: nat, start: u32, limit: u32) -> int {
    if start + limit < len {
        start + limit
    } else {
        len as int
    }
}

impl Ledger {
    /// The elements of a range: those at the positions from `start` on, at most `limit`
    /// of them.
    pub open spec fn index_elements(self, id: IndexId, start: u32, limit: u32) -> Seq<u64> {
        let len = self.index_len(id);
        if start >= len {
            Seq::empty()
        } else {
            Seq::new(
                (range_end(len, start, limit) - start) as nat,
                |i: int| self.index_element(id, start + i),
            )
        }
    }

    /// A range is read: the length, then each page that holds a position of the range.
    pub open spec fn range_read(self, id: IndexId, start: u32, limit: u32) -> Ledger {
        let len = self.index_len(id);
        if start >= len || limit == 0 {
            self.len_read(id)
        } else {
            let last = range_end(len, start, limit) - 1;
            self.len_read(id).pages_read(
                id,
                start as int / INDEX_PAGE_SIZE as int,
                last / INDEX_PAGE_SIZE as int + 1,
            )
        }
    }
}

/// `s` with its last element in the slot at `pos` and one slot less at the end.
pub open spec fn seq_swap_remove(s: Seq<u64>, pos: int) -> Seq<u64> {
    s.update(pos, s.last()).drop_last()
}

/// Every position of a well-formed index can be read.
pub proof fn law_positions_are_reached(l: Ledger, id: IndexId, pos: int)
    requires
        l.index_wf(id),
        0 <= pos < l.index_len(id),
    ensures
        l.reaches(id, pos),
        l.index_element(id, pos) == l.index_seq(id)[pos],
{
    assert(l.page_wf(id, (pos / INDEX_PAGE_SIZE as int) as u32));
}

/// Reading the length of an index changes no value.
pub proof fn law_len_read_keeps_values(l: Ledger, id: IndexId, key: DataKey)
    ensures
        l.len_read(id).get(key) == l.get(key),
        l.len_read(id).in_contract == l.in_contract,
{
}

/// Reading pages of an index changes no value.
pub proof fn law_pages_read_keep_values(l: Ledger, id: IndexId, lo: int, hi: int, key: DataKey)
    ensures
        l.pages_read(id, lo, hi).get(key) == l.get(key),
        l.pages_read(id, lo, hi).in_contract == l.in_contract,
    decreases hi - lo,
{
    if lo < hi {
        law_pages_read_keep_values(l, id, lo, hi - 1, key);
    }
}

/// Reading a range of an index changes no value.
pub proof fn law_range_read_keeps_values(
    l: Ledger,
    id: IndexId,
    start: u32,
    limit: u32,
    key: DataKey,
)
    ensures
        l.range_read(id, start, limit).get(key) == l.get(key),
{
    law_len_read_keeps_values(l, id, key);
    let last = range_end(l.index_len(id), start, limit) - 1;
    law_pages_read_keep_values(
        l.len_read(id),
        id,
        start as int / INDEX_PAGE_SIZE as int,
        last / INDEX_PAGE_SIZE as int + 1,
        key,
    );
}

/// A well-formed index can be read at any range, and takes another element as long as its
/// length can be counted.
pub proof fn law_well_formed_is_usable(l: Ledger, id: IndexId, start: u32, limit: u32)
    requires
        l.index_wf(id),
    ensures
        l.readable(id, start, limit),
        l.all_readable(id),
        l.index_len(id) < u32::MAX ==> l.appendable(id),
{
    assert forall|pos: int| 0 <= pos < l.index_len(id) implies #[trigger] l.reaches(id, pos) by {
        law_positions_are_reached(l, id, pos);
    }
    assert(l.page_wf(id, (l.index_len(id) / INDEX_PAGE_SIZE as nat) as u32));
}

/// A range of a well-formed index is the part of it from `start` on, cut off at `limit`
/// elements and at the end of the index.
pub proof fn law_range_is_subrange(l: Ledger, id: IndexId, start: u32, limit: u32)
    requires
        l.index_wf(id),
    ensures
        l.index_elements(id, start, limit) == (if start >= l.index_len(id) {
            Seq::empty()
        } else {
            l.index_seq(id).subrange(start as int, range_end(l.index_len(id), start, limit))
        }),
{
    let len = l.index_len(id);
    let end = range_end(len, start, limit);
    if start < len {
        assert(l.index_elements(id, start, limit) =~= l.index_seq(id).subrange(
            start as int,
            end,
        ));
    }
}

/// Reading consecutive ranges one behind the other gives what one read of both gives.
pub proof fn law_ranges_join(l: Ledger, id: IndexId, start: u32, first: u32, second: u32)
    requires
        start + first <= u32::MAX,
        first + second <= u32::MAX,
    ensures
        l.index_elements(id, start, first) + l.index_elements(id, (start + first) as u32, second)
            == l.index_elements(id, start, (first + second) as u32),
{
    assert(l.index_elements(id, start, first) + l.index_elements(
        id,
        (start + first) as u32,
        second,
    ) =~= l.index_elements(id, start, (first + second) as u32));
}

/// Swap-removal from a sequence drops the element at the position and no other.
pub proof fn law_swap_remove_drops_one(s: Seq<u64>, pos: int)
    requires
        0 <= pos < s.len(),
    ensures
        seq_swap_remove(s, pos).to_multiset() == s.to_multiset().remove(s[pos]),
        seq_swap_remove(s, pos).len() == s.len() - 1,
{
    broadcast use vstd::seq_lib::group_to_multiset_ensures;

    let last = s.last();
    let filled = s.update(pos, last);
    assert(filled =~= seq_swap_remove(s, pos).push(last));
    assert(filled.to_multiset() =~= s.to_multiset().insert(last).remove(s[pos]));
    assert(filled.to_multiset() =~= seq_swap_remove(s, pos).to_multiset().insert(last));
    assert(s.to_multiset().count(s[pos]) > 0) by {
        assert(s.contains(s[pos]));
    }
    let kept = seq_swap_remove(s, pos).to_multiset();
    let want = s.to_multiset().remove(s[pos]);
    assert forall|x: u64| kept.count(x) == want.count(x) by {
        assert(filled.to_multiset().count(x) == kept.insert(last).count(x));
        assert(filled.to_multiset().count(x) == s.to_multiset().insert(last).remove(s[pos]).count(
            x,
        ));
    }
    assert(kept =~= want);
}

/// Writing a page changes that page alone.
proof fn lemma_with_index_page(l: Ledger, id: IndexId, page: u32, entries: Seq<u64>)
    ensures
        ({
            let after = l.with_index_page(id, page, entries);
            &&& after.index_len(id) == l.index_len(id)
            &&& after.get(DataKey::IndexLen(id)) == l.get(DataKey::IndexLen(id))
            &&& after.index_page(id, page) == entries
            &&& after.has(DataKey::IndexPage(id, page)) == (entries.len() > 0)
            &&& after.fit(DataKey::IndexPage(id, page))
            &&& forall|other: u32|
                #![trigger after.index_page(id, other)]
                #![trigger after.has(DataKey::IndexPage(id, other))]
                other != page ==> {
                    &&& after.index_page(id, other) == l.index_page(id, other)
                    &&& after.get(DataKey::IndexPage(id, other)) == l.get(
                        DataKey::IndexPage(id, other),
                    )
                }
        }),
{
    let after = l.with_index_page(id, page, entries);
    law_ids_round_trip(entries);
    lemma_keys_differ(DataKey::IndexLen(id), DataKey::IndexPage(id, page));
    assert forall|other: u32| other != page implies {
        &&& #[trigger] after.index_page(id, other) == l.index_page(id, other)
        &&& after.get(DataKey::IndexPage(id, other)) == l.get(DataKey::IndexPage(id, other))
    } by {
        lemma_keys_differ(DataKey::IndexPage(id, other), DataKey::IndexPage(id, page));
    }
}

/// Writing the length changes the length alone.
proof fn lemma_with_index_len(l: Ledger, id: IndexId, len: u32)
    ensures
        ({
            let after = l.with_index_len(id, len);
            &&& after.index_len(id) == len
            &&& after.has(DataKey::IndexLen(id)) == (len > 0)
            &&& after.fit(DataKey::IndexLen(id))
            &&& forall|page: u32|
                #![trigger after.index_page(id, page)]
                #![trigger after.has(DataKey::IndexPage(id, page))]
                {
                    &&& after.index_page(id, page) == l.index_page(id, page)
                    &&& after.get(DataKey::IndexPage(id, page)) == l.get(
                        DataKey::IndexPage(id, page),
                    )
                }
        }),
{
    let after = l.with_index_len(id, len);
    assert forall|page: u32|
        {
            &&& #[trigger] after.index_page(id, page) == l.index_page(id, page)
            &&& after.get(DataKey::IndexPage(id, page)) == l.get(DataKey::IndexPage(id, page))
        } by {
        lemma_keys_differ(DataKey::IndexPage(id, page), DataKey::IndexLen(id));
    }
}

/// Appending to a well-formed index keeps it well formed and puts the new element behind
/// all the others.
pub proof fn law_append_pushes(l: Ledger, id: IndexId, value: u64)
    requires
        l.index_wf(id),
        l.index_len(id) < u32::MAX,
    ensures
        l.appended(id, value).index_wf(id),
        l.appended(id, value).index_seq(id) == l.index_seq(id).push(value),
{
    let len = l.index_len(id);
    let page = (len / INDEX_PAGE_SIZE as nat) as u32;
    let entries = l.index_page(id, page).push(value);
    let mid = l.with_index_page(id, page, entries);
    let after = l.appended(id, value);
    lemma_with_index_page(l, id, page, entries);
    lemma_with_index_len(mid, id, (len + 1) as u32);
    assert(l.page_wf(id, page));
    assert forall|p: u32| #[trigger] after.page_wf(id, p) by {
        assert(l.page_wf(id, p));
        assert(after.index_page(id, p) == mid.index_page(id, p));
        if p != page {
            assert(mid.index_page(id, p) == l.index_page(id, p));
        }
    }
    let old_seq = l.index_seq(id);
    let new_seq = after.index_seq(id);
    assert forall|i: int| 0 <= i < new_seq.len() implies new_seq[i] == old_seq.push(value)[i] by {
        let p = (i / INDEX_PAGE_SIZE as int) as u32;
        assert(l.page_wf(id, p));
        assert(after.index_page(id, p) == mid.index_page(id, p));
        if p != page {
            assert(mid.index_page(id, p) == l.index_page(id, p));
        }
    }
    assert(new_seq =~= old_seq.push(value));
}

/// Swap-removal keeps a well-formed index well formed and takes out exactly the element
/// at the position, with the last element in its place.
pub proof fn law_swap_remove_takes_one(l: Ledger, id: IndexId, pos: u32)
    requires
        l.index_wf(id),
        pos < l.index_len(id),
    ensures
        l.swap_removed(id, pos).index_wf(id),
        l.swap_removed(id, pos).index_seq(id) == seq_swap_remove(l.index_seq(id), pos as int),
{
    let len = l.index_len(id);
    let last = (len - 1) as u32;
    let last_page = last / INDEX_PAGE_SIZE;
    let pos_page = pos / INDEX_PAGE_SIZE;
    let last_off = (last % INDEX_PAGE_SIZE) as int;
    let pos_off = (pos % INDEX_PAGE_SIZE) as int;
    let moved = l.index_element(id, last as int);
    let entries = l.index_page(id, last_page);
    assert(l.page_wf(id, last_page));
    assert(l.page_wf(id, pos_page));
    assert(entries.len() == last_off + 1);
    let after = l.swap_removed(id, pos);
    let paged = if pos_page == last_page {
        let kept = entries.update(pos_off, moved).remove(last_off);
        lemma_with_index_page(l, id, last_page, kept);
        l.with_index_page(id, last_page, kept)
    } else {
        let kept = entries.remove(last_off);
        let filled = l.index_page(id, pos_page).update(pos_off, moved);
        let mid = l.with_index_page(id, last_page, kept);
        lemma_with_index_page(l, id, last_page, kept);
        lemma_with_index_page(mid, id, pos_page, filled);
        mid.with_index_page(id, pos_page, filled)
    };
    lemma_with_index_len(paged, id, last);
    assert forall|p: u32| #[trigger] after.page_wf(id, p) by {
        assert(l.page_wf(id, p));
        assert(after.index_page(id, p) == paged.index_page(id, p));
        if p != last_page && p != pos_page {
            assert(paged.index_page(id, p) == l.index_page(id, p));
        }
    }
    let old_seq = l.index_seq(id);
    let new_seq = after.index_seq(id);
    let want = seq_swap_remove(old_seq, pos as int);
    assert forall|i: int| 0 <= i < new_seq.len() implies new_seq[i] == want[i] by {
        let p = (i / INDEX_PAGE_SIZE as int) as u32;
        assert(l.page_wf(id, p));
        assert(after.index_page(id, p) == paged.index_page(id, p));
        if p != last_page && p != pos_page {
            assert(paged.index_page(id, p) == l.index_page(id, p));
        }
    }
    assert(new_seq =~= want);
}

/// Whether `key` is the key of the length or of a page of the index.
pub open spec fn belongs(key: DataKey, id: IndexId) -> bool {
    match key {
        DataKey::IndexLen(other) => other == id,
        DataKey::IndexPage(other, _) => other == id,
        _ => false,
    }
}

/// Appending to an index changes no entry outside it.
pub proof fn law_append_leaves_other_entries(l: Ledger, id: IndexId, value: u64, key: DataKey)
    requires
        !belongs(key, id),
    ensures
        l.appended(id, value).get(key) == l.get(key),
        l.appended(id, value).ttl(key) == l.ttl(key),
{
    let page = (l.index_len(id) / INDEX_PAGE_SIZE as nat) as u32;
    lemma_keys_differ(key, DataKey::IndexLen(id));
    lemma_keys_differ(key, DataKey::IndexPage(id, page));
}

/// Swap-removal from an index changes no entry outside it.
pub proof fn law_swap_remove_leaves_other_entries(l: Ledger, id: IndexId, pos: u32, key: DataKey)
    requires
        !belongs(key, id),
    ensures
        l.swap_removed(id, pos).get(key) == l.get(key),
        l.swap_removed(id, pos).ttl(key) == l.ttl(key),
{
    let last = (l.index_len(id) - 1) as u32;
    lemma_keys_differ(key, DataKey::IndexLen(id));
    lemma_keys_differ(key, DataKey::IndexPage(id, last / INDEX_PAGE_SIZE));
    lemma_keys_differ(key, DataKey::IndexPage(id, pos / INDEX_PAGE_SIZE));
}

/// An index is made of its own entries alone: where those agree, the indexes agree.
pub proof fn law_index_is_its_entries(a: Ledger, b: Ledger, id: IndexId)
    requires
        forall|key: DataKey| belongs(key, id) ==> #[trigger] a.get(key) == b.get(key),
    ensures
        a.index_seq(id) == b.index_seq(id),
        a.index_wf(id) == b.index_wf(id),
{
    let len = DataKey::IndexLen(id);
    assert(belongs(len, id));
    assert(a.get(len) == b.get(len));
    assert forall|page: u32|
        {
            &&& #[trigger] a.index_page(id, page) == b.index_page(id, page)
            &&& a.page_wf(id, page) == b.page_wf(id, page)
        } by {
        let key = DataKey::IndexPage(id, page);
        assert(belongs(key, id));
        assert(a.get(key) == b.get(key));
    }
    assert(a.index_seq(id) =~= b.index_seq(id));
    if a.index_wf(id) {
        assert forall|page: u32| #[trigger] b.page_wf(id, page) by {
            assert(a.page_wf(id, page));
            assert(a.index_page(id, page) == b.index_page(id, page));
        }
    }
    if b.index_wf(id) {
        assert forall|page: u32| #[trigger] a.page_wf(id, page) by {
            assert(b.page_wf(id, page));
            assert(a.index_page(id, page) == b.index_page(id, page));
        }
    }
}

/// Appending to one index leaves every other index as it was.
pub proof fn law_append_leaves_other_indexes(l: Ledger, id: IndexId, value: u64, other: IndexId)
    requires
        other != id,
    ensures
        l.appended(id, value).index_seq(other) == l.index_seq(other),
        l.appended(id, value).index_wf(other) == l.index_wf(other),
{
    assert forall|key: DataKey| belongs(key, other) implies #[trigger] l.appended(id, value).get(
        key,
    ) == l.get(key) by {
        law_append_leaves_other_entries(l, id, value, key);
    }
    law_index_is_its_entries(l.appended(id, value), l, other);
}

/// Swap-removal from one index leaves every other index as it was.
pub proof fn law_swap_remove_leaves_other_indexes(l: Ledger, id: IndexId, pos: u32, other: IndexId)
    requires
        other != id,
    ensures
        l.swap_removed(id, pos).index_seq(other) == l.index_seq(other),
        l.swap_removed(id, pos).index_wf(other) == l.index_wf(other),
{
    assert forall|key: DataKey| belongs(key, other) implies #[trigger] l.swap_removed(id, pos).get(
        key,
    ) == l.get(key) by {
        law_swap_remove_leaves_other_entries(l, id, pos, key);
    }
    law_index_is_its_entries(l.swap_removed(id, pos), l, other);
}

/// An index of which nothing is stored is well formed and empty.
pub proof fn law_absent_index_is_empty(l: Ledger, id: IndexId)
    requires
        forall|key: DataKey| belongs(key, id) ==> !#[trigger] l.has(key),
    ensures
        l.index_wf(id),
        l.index_seq(id) == Seq::<u64>::empty(),
{
    assert(belongs(DataKey::IndexLen(id), id));
    assert(!l.has(DataKey::IndexLen(id)));
    assert forall|page: u32| #[trigger] l.page_wf(id, page) by {
        assert(belongs(DataKey::IndexPage(id, page), id));
    }
    assert(l.index_seq(id) =~= Seq::<u64>::empty());
}

/// A page holds at most `INDEX_PAGE_SIZE` ids, and the pages that exist are those that
/// the length asks for: the first `ceil(len / INDEX_PAGE_SIZE)`.
pub proof fn law_pages_follow_from_length(l: Ledger, id: IndexId, page: u32)
    requires
        l.index_wf(id),
    ensures
        l.index_page(id, page).len() <= INDEX_PAGE_SIZE,
        l.has(DataKey::IndexPage(id, page)) <==> page < (l.index_len(id) + INDEX_PAGE_SIZE - 1)
            / INDEX_PAGE_SIZE as int,
        l.has(DataKey::IndexPage(id, page)) ==> l.index_page(id, page).len() > 0,
{
    assert(l.page_wf(id, page));
}

/// Appending touches only the page that the length points at.
pub proof fn law_append_leaves_other_pages(l: Ledger, id: IndexId, value: u64, page: u32)
    requires
        page != l.index_len(id) / INDEX_PAGE_SIZE as nat,
    ensures
        l.appended(id, value).get(DataKey::IndexPage(id, page)) == l.get(
            DataKey::IndexPage(id, page),
        ),
        l.appended(id, value).ttl(DataKey::IndexPage(id, page)) == l.ttl(
            DataKey::IndexPage(id, page),
        ),
{
    let key = DataKey::IndexPage(id, page);
    let at = (l.index_len(id) / INDEX_PAGE_SIZE as nat) as u32;
    lemma_keys_differ(key, DataKey::IndexPage(id, at));
    lemma_keys_differ(key, DataKey::IndexLen(id));
}

/// Swap-removal touches at most the page of the removed slot and the last page.
pub proof fn law_swap_remove_leaves_other_pages(l: Ledger, id: IndexId, pos: u32, page: u32)
    requires
        pos < l.index_len(id),
        page != pos / INDEX_PAGE_SIZE,
        page != (l.index_len(id) - 1) / INDEX_PAGE_SIZE as int,
    ensures
        l.swap_removed(id, pos).get(DataKey::IndexPage(id, page)) == l.get(
            DataKey::IndexPage(id, page),
        ),
        l.swap_removed(id, pos).ttl(DataKey::IndexPage(id, page)) == l.ttl(
            DataKey::IndexPage(id, page),
        ),
{
    let key = DataKey::IndexPage(id, page);
    let last = (l.index_len(id) - 1) as u32;
    lemma_keys_differ(key, DataKey::IndexPage(id, last / INDEX_PAGE_SIZE));
    lemma_keys_differ(key, DataKey::IndexPage(id, pos / INDEX_PAGE_SIZE));
    lemma_keys_differ(key, DataKey::IndexLen(id));
}

/// Writing, removing or extending an entry outside an index leaves the index as it was.
pub proof fn law_other_writes_leave_index(l: Ledger, key: DataKey, value: Data, id: IndexId)
    requires
        !belongs(key, id),
    ensures
        l.put(key, value).index_seq(id) == l.index_seq(id),
        l.put(key, value).index_wf(id) == l.index_wf(id),
        l.remove(key).index_seq(id) == l.index_seq(id),
        l.remove(key).index_wf(id) == l.index_wf(id),
        l.touch(key).index_seq(id) == l.index_seq(id),
        l.touch(key).index_wf(id) == l.index_wf(id),
{
    assert forall|k: DataKey| belongs(k, id) implies #[trigger] l.put(key, value).get(k) == l.get(
        k,
    ) by {
        law_write_leaves_other_keys(l, key, value, k);
    }
    assert forall|k: DataKey| belongs(k, id) implies #[trigger] l.remove(key).get(k) == l.get(
        k,
    ) by {
        law_removal_leaves_other_keys(l, key, k);
    }
    assert forall|k: DataKey| belongs(k, id) implies #[trigger] l.touch(key).get(k) == l.get(
        k,
    ) by {
        law_touch_keeps_values(l, key, k);
    }
    law_index_is_its_entries(l.put(key, value), l, id);
    law_index_is_its_entries(l.remove(key), l, id);
    law_index_is_its_entries(l.touch(key), l, id);
}

/// Writing a page keeps the ledger well typed.
proof fn lemma_with_index_page_is_typed(l: Ledger, id: IndexId, page: u32, entries: Seq<u64>)
    requires
        l.well_typed(),
    ensures
        l.with_index_page(id, page, entries).well_typed(),
{
    law_ids_round_trip(entries);
    law_well_typed_is_kept(l, DataKey::IndexPage(id, page), ids_data(entries));
}

/// Appending and swap-removal keep the ledger well typed.
pub proof fn law_index_writes_keep_types(l: Ledger, id: IndexId, value: u64, pos: u32)
    requires
        l.well_typed(),
    ensures
        l.appended(id, value).well_typed(),
        l.swap_removed(id, pos).well_typed(),
{
    let len = l.index_len(id);
    let page = (len / INDEX_PAGE_SIZE as nat) as u32;
    let entries = l.index_page(id, page).push(value);
    lemma_with_index_page_is_typed(l, id, page, entries);
    law_well_typed_is_kept(
        l.with_index_page(id, page, entries),
        DataKey::IndexLen(id),
        Data::U32((len + 1) as u32),
    );
    law_well_typed_is_kept(l, DataKey::IndexLen(id), Data::U32(0));
    let last = (len - 1) as u32;
    let last_page = last / INDEX_PAGE_SIZE;
    let pos_page = pos / INDEX_PAGE_SIZE;
    let last_off = (last % INDEX_PAGE_SIZE) as int;
    let pos_off = (pos % INDEX_PAGE_SIZE) as int;
    let moved = l.index_element(id, last as int);
    let entries = l.index_page(id, last_page);
    let paged = if pos_page == last_page {
        let kept = entries.update(pos_off, moved).remove(last_off);
        lemma_with_index_page_is_typed(l, id, last_page, kept);
        l.with_index_page(id, last_page, kept)
    } else {
        let kept = entries.remove(last_off);
        let filled = l.index_page(id, pos_page).update(pos_off, moved);
        let mid = l.with_index_page(id, last_page, kept);
        lemma_with_index_page_is_typed(l, id, last_page, kept);
        lemma_with_index_page_is_typed(mid, id, pos_page, filled);
        mid.with_index_page(id, pos_page, filled)
    };
    law_well_typed_is_kept(paged, DataKey::IndexLen(id), Data::U32(last));
}

/// Reading a range keeps the ledger well typed.
pub proof fn law_index_reads_keep_types(l: Ledger, id: IndexId, start: u32, limit: u32)
    requires
        l.well_typed(),
    ensures
        l.range_read(id, start, limit).well_typed(),
{
    assert forall|key: DataKey| #[trigger] l.range_read(id, start, limit).fit(key) by {
        assert(l.fit(key));
        law_range_read_keeps_values(l, id, start, limit, key);
    }
}

/// The length of an index is the number in its length entry, and zero without one.
pub proof fn law_length_is_the_stored_number(l: Ledger, id: IndexId, n: u32)
    ensures
        l.get(DataKey::IndexLen(id)) is None ==> l.index_len(id) == 0,
        l.get(DataKey::IndexLen(id)) == Some(Data::U32(n)) ==> l.index_len(id) == n,
{
}

/// A page holds the ids in its entry, one for one, and none without one.
pub proof fn law_page_is_the_stored_list(l: Ledger, id: IndexId, page: u32, items: Seq<Data>)
    requires
        forall|i: int| 0 <= i < items.len() ==> (#[trigger] items[i]) is U64,
    ensures
        l.get(DataKey::IndexPage(id, page)) is None ==> l.index_page(id, page).len() == 0,
        l.get(DataKey::IndexPage(id, page)) == Some(Data::List(items)) ==> {
            &&& l.index_page(id, page).len() == items.len()
            &&& forall|i: int|
                0 <= i < items.len() ==> #[trigger] items[i] == Data::U64(
                    l.index_page(id, page)[i],
                )
        },
{
    if l.get(DataKey::IndexPage(id, page)) == Some(Data::List(items)) {
        law_ids_are_stored_one_for_one(l.index_page(id, page), items);
    }
}

/// The element at a position stands on page `pos / 100` at offset `pos % 100`, and an
/// index has as many elements as its length says.
pub proof fn law_elements_stand_on_their_pages(l: Ledger, id: IndexId, pos: int)
    ensures
        l.index_seq(id).len() == l.index_len(id),
        l.index_element(id, pos) == l.index_page(id, (pos / 100) as u32)[pos % 100],
        0 <= pos < l.index_len(id) ==> l.index_seq(id)[pos] == l.index_page(
            id,
            (pos / 100) as u32,
        )[pos % 100],
{
}

/// An index is well formed exactly where its length entry is absent or a positive number,
/// every page that starts before the end is a list of ids as long as what is left, up to
/// a hundred, and no other page exists.
pub proof fn law_well_formed_means(l: Ledger, id: IndexId)
    ensures
        l.index_wf(id) <==> {
            &&& l.has(DataKey::IndexLen(id)) ==> l.value(DataKey::IndexLen(id)) is U32 && l.value(
                DataKey::IndexLen(id),
            ) != Data::U32(0)
            &&& forall|page: u32| #[trigger]
                l.has(DataKey::IndexPage(id, page)) <==> page * 100 < l.index_len(id)
            &&& forall|page: u32| #[trigger]
                l.has(DataKey::IndexPage(id, page)) ==> {
                    &&& is_ids(l.value(DataKey::IndexPage(id, page)))
                    &&& l.index_page(id, page).len() == l.index_len(id) - page * 100
                        || l.index_page(id, page).len() == 100
                    &&& l.index_page(id, page).len() <= l.index_len(id) - page * 100
                    &&& l.index_page(id, page).len() <= 100
                }
        },
{
    if l.index_wf(id) {
        assert forall|page: u32| #[trigger]
            l.has(DataKey::IndexPage(id, page)) <==> page * 100 < l.index_len(id) by {
            assert(l.page_wf(id, page));
        }
        assert forall|page: u32| #[trigger] l.has(DataKey::IndexPage(id, page)) implies {
            &&& is_ids(l.value(DataKey::IndexPage(id, page)))
            &&& l.index_page(id, page).len() == l.index_len(id) - page * 100 || l.index_page(
                id,
                page,
            ).len() == 100
            &&& l.index_page(id, page).len() <= l.index_len(id) - page * 100
            &&& l.index_page(id, page).len() <= 100
        } by {
            assert(l.page_wf(id, page));
        }
    }
    if {
        &&& l.has(DataKey::IndexLen(id)) ==> l.value(DataKey::IndexLen(id)) is U32 && l.value(
            DataKey::IndexLen(id),
        ) != Data::U32(0)
        &&& forall|page: u32| #[trigger]
            l.has(DataKey::IndexPage(id, page)) <==> page * 100 < l.index_len(id)
        &&& forall|page: u32| #[trigger]
            l.has(DataKey::IndexPage(id, page)) ==> {
                &&& is_ids(l.value(DataKey::IndexPage(id, page)))
                &&& l.index_page(id, page).len() == l.index_len(id) - page * 100 || l.index_page(
                    id,
                    page,
                ).len() == 100
                &&& l.index_page(id, page).len() <= l.index_len(id) - page * 100
                &&& l.index_page(id, page).len() <= 100
            }
    } {
        assert forall|page: u32| #[trigger] l.page_wf(id, page) by {
            assert(l.has(DataKey::IndexPage(id, page)) <==> page * 100 < l.index_len(id));
        }
    }
}

/// A position is reached exactly where its page exists as a list of ids that is longer
/// than the position's offset.
pub proof fn law_reach_means(l: Ledger, id: IndexId, pos: int)
    ensures
        l.reaches(id, pos) <==> {
            let page = (pos / 100) as u32;
            &&& l.has(DataKey::IndexPage(id, page))
            &&& is_ids(l.value(DataKey::IndexPage(id, page)))
            &&& pos % 100 < l.index_page(id, page).len()
        },
{
}

/// No more is asked of an index that is appended to or read than that the entries at hand
/// are of their kinds, that the length can still grow, and that every position of the
/// range is reached.
pub proof fn law_usable_means(l: Ledger, id: IndexId, start: u32, limit: u32)
    requires
        l.has(DataKey::IndexLen(id)) ==> l.value(DataKey::IndexLen(id)) is U32,
    ensures
        ({
            let page = (l.index_len(id) / 100) as u32;
            &&& l.index_len(id) < u32::MAX
            &&& l.has(DataKey::IndexPage(id, page)) ==> is_ids(
                l.value(DataKey::IndexPage(id, page)),
            )
            &&& l.index_page(id, page).len() < u32::MAX
        }) ==> l.appendable(id),
        (forall|pos: int|
            start <= pos < start + limit && pos < l.index_len(id) ==> #[trigger] l.reaches(
                id,
                pos,
            )) ==> l.readable(id, start, limit),
        (forall|pos: int| 0 <= pos < l.index_len(id) ==> #[trigger] l.reaches(id, pos))
            ==> l.all_readable(id),
{
}

/// A range has `limit` elements, or as many as there are from `start` on where that is
/// less, and its `i`-th element is the one at position `start + i`. A range from past the
/// end is empty.
pub proof fn law_range_is_counted_from_start(l: Ledger, id: IndexId, start: u32, limit: u32)
    ensures
        start >= l.index_len(id) ==> l.index_elements(id, start, limit).len() == 0,
        start < l.index_len(id) && limit <= l.index_len(id) - start ==> l.index_elements(
            id,
            start,
            limit,
        ).len() == limit,
        start < l.index_len(id) && limit > l.index_len(id) - start ==> l.index_elements(
            id,
            start,
            limit,
        ).len() == l.index_len(id) - start,
        forall|i: int|
            0 <= i < l.index_elements(id, start, limit).len() ==> #[trigger] l.index_elements(
                id,
                start,
                limit,
            )[i] == l.index_seq(id)[start + i],
        start <= l.index_len(id) && start + limit <= l.index_len(id) ==> range_end(
            l.index_len(id),
            start,
            limit,
        ) == start + limit,
        start + limit > l.index_len(id) ==> range_end(l.index_len(id), start, limit)
            == l.index_len(id),
{
}

/// Reading the length extends the life of the length entry of an index that is not empty
/// and does nothing else.
pub proof fn law_length_read_is_exact(l: Ledger, id: IndexId)
    ensures
        l.index_len(id) == 0 ==> l.len_read(id) == l,
        l.index_len(id) > 0 ==> {
            &&& l.len_read(id).get(DataKey::IndexLen(id)) == l.get(DataKey::IndexLen(id))
            &&& l.len_read(id).ttl(DataKey::IndexLen(id)) == l.bumped(
                l.ttl(DataKey::IndexLen(id)),
            )
        },
        l.len_read(id).persistent.remove(DataKey::IndexLen(id)@) == l.persistent.remove(
            DataKey::IndexLen(id)@,
        ),
        l.len_read(id) == (Ledger { persistent: l.len_read(id).persistent, ..l }),
{
    law_touch_is_exact(l, DataKey::IndexLen(id));
}

/// Reading a page extends the life of a page with entries and does nothing else.
pub proof fn law_page_read_is_exact(l: Ledger, id: IndexId, page: u32)
    ensures
        l.index_page(id, page).len() == 0 ==> l.page_read(id, page) == l,
        l.index_page(id, page).len() > 0 ==> {
            &&& l.page_read(id, page).get(DataKey::IndexPage(id, page)) == l.get(
                DataKey::IndexPage(id, page),
            )
            &&& l.page_read(id, page).ttl(DataKey::IndexPage(id, page)) == l.bumped(
                l.ttl(DataKey::IndexPage(id, page)),
            )
        },
        l.page_read(id, page).persistent.remove(DataKey::IndexPage(id, page)@)
            == l.persistent.remove(DataKey::IndexPage(id, page)@),
        l.page_read(id, page) == (Ledger { persistent: l.page_read(id, page).persistent, ..l }),
{
    law_touch_is_exact(l, DataKey::IndexPage(id, page));
}

/// Reading consecutive pages extends the life of those of them that have entries and of
/// nothing else.
proof fn lemma_pages_read(l: Ledger, id: IndexId, lo: int, hi: int, page: u32, key: DataKey)
    requires
        0 <= lo,
        hi <= u32::MAX + 1,
    ensures
        ({
            let after = l.pages_read(id, lo, hi);
            &&& lo <= page < hi && l.index_page(id, page).len() > 0 ==> after.ttl(
                DataKey::IndexPage(id, page),
            ) == l.bumped(l.ttl(DataKey::IndexPage(id, page)))
            &&& !(lo <= page < hi && l.index_page(id, page).len() > 0) ==> after.ttl(
                DataKey::IndexPage(id, page),
            ) == l.ttl(DataKey::IndexPage(id, page))
            &&& !(key is IndexPage && key->IndexPage_0 == id) ==> after.ttl(key) == l.ttl(key)
            &&& after == (Ledger { persistent: after.persistent, ..l })
        }),
    decreases hi - lo,
{
    if lo < hi {
        lemma_pages_read(l, id, lo, hi - 1, page, key);
        let before = l.pages_read(id, lo, hi - 1);
        let p = (hi - 1) as u32;
        law_pages_read_keep_values(l, id, lo, hi - 1, DataKey::IndexPage(id, p));
        law_page_read_is_exact(before, id, p);
        if page != p {
            lemma_keys_differ(DataKey::IndexPage(id, page), DataKey::IndexPage(id, p));
        }
        if key != DataKey::IndexPage(id, p) {
            lemma_keys_differ(key, DataKey::IndexPage(id, p));
        }
    }
}

/// Reading a range extends the life of the length entry and of every page with entries
/// that holds a position of the range, and of nothing else.
pub proof fn law_range_read_is_exact(
    l: Ledger,
    id: IndexId,
    start: u32,
    limit: u32,
    page: u32,
    key: DataKey,
)
    ensures
        ({
            let after = l.range_read(id, start, limit);
            let len = l.index_len(id);
            let read = start < len && limit > 0 && page * 100 < start + limit && page * 100 < len
                && start < (page + 1) * 100 && l.index_page(id, page).len() > 0;
            &&& len > 0 ==> after.ttl(DataKey::IndexLen(id)) == l.bumped(
                l.ttl(DataKey::IndexLen(id)),
            )
            &&& len == 0 ==> after == l
            &&& read ==> after.ttl(DataKey::IndexPage(id, page)) == l.bumped(
                l.ttl(DataKey::IndexPage(id, page)),
            )
            &&& !read ==> after.ttl(DataKey::IndexPage(id, page)) == l.ttl(
                DataKey::IndexPage(id, page),
            )
            &&& key != DataKey::IndexLen(id) && !(key is IndexPage && key->IndexPage_0 == id)
                ==> after.ttl(key) == l.ttl(key)
            &&& after == (Ledger { persistent: after.persistent, ..l })
        }),
{
    let len = l.index_len(id);
    let base = l.len_read(id);
    law_length_read_is_exact(l, id);
    law_len_read_keeps_values(l, id, DataKey::IndexPage(id, page));
    lemma_keys_differ(DataKey::IndexPage(id, page), DataKey::IndexLen(id));
    if key != DataKey::IndexLen(id) {
        lemma_keys_differ(key, DataKey::IndexLen(id));
    }
    if start < len && limit > 0 {
        let last = range_end(len, start, limit) - 1;
        let lo = start as int / 100;
        let hi = last / 100 + 1;
        assert(l.range_read(id, start, limit) == base.pages_read(id, lo, hi));
        lemma_pages_read(base, id, lo, hi, page, key);
        lemma_pages_read(base, id, lo, hi, page, DataKey::IndexLen(id));
    }
}

/// An append writes the length plus one, puts the new id behind the others on the page
/// that the length points at, and changes nothing else.
pub proof fn law_append_is_exact(l: Ledger, id: IndexId, value: u64)
    requires
        l.index_len(id) < u32::MAX,
    ensures
        ({
            let after = l.appended(id, value);
            let at = (l.index_len(id) / 100) as u32;
            let len = DataKey::IndexLen(id);
            let page = DataKey::IndexPage(id, at);
            &&& after.get(len) == Some(Data::U32((l.index_len(id) + 1) as u32))
            &&& after.has(page)
            &&& is_ids(after.value(page))
            &&& after.index_page(id, at).len() == l.index_page(id, at).len() + 1
            &&& after.index_page(id, at).last() == value
            &&& forall|i: int|
                0 <= i < l.index_page(id, at).len() ==> #[trigger] after.index_page(id, at)[i]
                    == l.index_page(id, at)[i]
            &&& after.ttl(len) == l.bumped(
                if l.has(len) {
                    l.ttl(len)
                } else {
                    l.new_persistent_ttl
                },
            )
            &&& after.ttl(page) == l.bumped(
                if l.has(page) {
                    l.ttl(page)
                } else {
                    l.new_persistent_ttl
                },
            )
            &&& after.persistent.remove(len@).remove(page@) == l.persistent.remove(len@).remove(
                page@,
            )
            &&& after == (Ledger { persistent: after.persistent, ..l })
        }),
{
    let after = l.appended(id, value);
    let at = (l.index_len(id) / 100) as u32;
    let len = DataKey::IndexLen(id);
    let page = DataKey::IndexPage(id, at);
    let entries = l.index_page(id, at).push(value);
    lemma_keys_differ(len, page);
    lemma_with_index_page(l, id, at, entries);
    lemma_with_index_len(l.with_index_page(id, at, entries), id, (l.index_len(id) + 1) as u32);
    law_ids_round_trip(entries);
    assert(after.index_page(id, at) == entries);
    assert(after.persistent.remove(len@).remove(page@) =~= l.persistent.remove(len@).remove(
        page@,
    ));
}

/// Swap-removal drops the last slot of the last page and puts what stood there into the
/// slot at `pos`, writes the length minus one, deletes what becomes empty, and changes
/// nothing else. Past the end only the length is read.
pub proof fn law_swap_remove_is_exact(l: Ledger, id: IndexId, pos: u32)
    requires
        pos < l.index_len(id) ==> l.reaches(id, l.index_len(id) - 1) && l.reaches(id, pos as int),
    ensures
        pos >= l.index_len(id) ==> l.swap_removed(id, pos) == l.len_read(id),
        pos < l.index_len(id) ==> {
            let after = l.swap_removed(id, pos);
            let last = (l.index_len(id) - 1) as u32;
            let len = DataKey::IndexLen(id);
            let from = DataKey::IndexPage(id, last / 100);
            let to = DataKey::IndexPage(id, pos / 100);
            let moved = l.index_page(id, last / 100)[(last % 100) as int];
            &&& after.get(len) == (if last == 0 {
                None
            } else {
                Some(Data::U32(last))
            })
            &&& pos / 100 != last / 100 ==> {
                &&& after.index_page(id, last / 100) == l.index_page(id, last / 100).remove(
                    (last % 100) as int,
                )
                &&& after.index_page(id, pos / 100) == l.index_page(id, pos / 100).update(
                    (pos % 100) as int,
                    moved,
                )
            }
            &&& pos / 100 == last / 100 ==> after.index_page(id, last / 100) == l.index_page(
                id,
                last / 100,
            ).update((pos % 100) as int, moved).remove((last % 100) as int)
            &&& after.has(from) <==> after.index_page(id, last / 100).len() > 0
            &&& after.has(to) <==> after.index_page(id, pos / 100).len() > 0
            &&& after.has(from) ==> is_ids(after.value(from)) && after.ttl(from) == l.bumped(
                l.ttl(from),
            )
            &&& after.has(to) ==> is_ids(after.value(to)) && after.ttl(to) == l.bumped(l.ttl(to))
            &&& after.has(len) ==> after.ttl(len) == l.bumped(l.ttl(len))
            &&& after.persistent.remove(len@).remove(from@).remove(to@) == l.persistent.remove(
                len@,
            ).remove(from@).remove(to@)
            &&& after == (Ledger { persistent: after.persistent, ..l })
        },
{
    if pos < l.index_len(id) {
        let after = l.swap_removed(id, pos);
        let last = (l.index_len(id) - 1) as u32;
        let last_page = last / 100;
        let pos_page = pos / 100;
        let last_off = (last % 100) as int;
        let pos_off = (pos % 100) as int;
        let len = DataKey::IndexLen(id);
        let from = DataKey::IndexPage(id, last_page);
        let to = DataKey::IndexPage(id, pos_page);
        let entries = l.index_page(id, last_page);
        let moved = entries[last_off];
        assert(moved == l.index_element(id, last as int));
        lemma_keys_differ(len, from);
        lemma_keys_differ(len, to);
        let paged = if pos_page == last_page {
            let kept = entries.update(pos_off, moved).remove(last_off);
            lemma_with_index_page(l, id, last_page, kept);
            law_ids_round_trip(kept);
            l.with_index_page(id, last_page, kept)
        } else {
            lemma_keys_differ(from, to);
            let kept = entries.remove(last_off);
            let filled = l.index_page(id, pos_page).update(pos_off, moved);
            let mid = l.with_index_page(id, last_page, kept);
            lemma_with_index_page(l, id, last_page, kept);
            lemma_with_index_page(mid, id, pos_page, filled);
            law_ids_round_trip(kept);
            law_ids_round_trip(filled);
            mid.with_index_page(id, pos_page, filled)
        };
        lemma_with_index_len(paged, id, last);
        assert(after == paged.with_index_len(id, last));
        assert(after.index_page(id, last_page) == paged.index_page(id, last_page));
        assert(after.index_page(id, pos_page) == paged.index_page(id, pos_page));
        assert(after.persistent.remove(len@).remove(from@).remove(to@) =~= l.persistent.remove(
            len@,
        ).remove(from@).remove(to@));
    }
}

/// Swap-removal from a sequence shortens it by one, puts its last element into the slot at
/// `pos` where that still exists, and keeps every other element in its place.
pub proof fn law_swap_remove_fills_the_slot(s: Seq<u64>, pos: int)
    requires
        0 <= pos < s.len(),
    ensures
        seq_swap_remove(s, pos).len() == s.len() - 1,
        pos < s.len() - 1 ==> seq_swap_remove(s, pos)[pos] == s[s.len() - 1],
        forall|i: int|
            0 <= i < s.len() - 1 && i != pos ==> #[trigger] seq_swap_remove(s, pos)[i] == s[i],
{
}

/// The entries of an index are its length entry and its pages, and no others.
pub proof fn law_entries_of_an_index(key: DataKey, id: IndexId)
    ensures
        belongs(key, id) <==> key == DataKey::IndexLen(id) || (key is IndexPage
            && key->IndexPage_0 == id),
{
}

/// What a range read hands out, item by item.
proof fn lemma_range_items(
    l: Ledger,
    id: IndexId,
    start: u32,
    limit: u32,
    out: soroban_sdk::Vec<u64>,
)
    requires
        holds_ids(out, l.index_elements(id, start, limit)),
    ensures
        start >= l.index_len(id) ==> id_items(out).len() == 0,
        start < l.index_len(id) ==> id_items(out).len() == (if limit <= l.index_len(id) - start {
            limit as int
        } else {
            l.index_len(id) - start
        }),
        forall|i: int|
            0 <= i < id_items(out).len() ==> #[trigger] id_items(out)[i] == Data::U64(
                l.index_seq(id)[start + i],
            ),
{
    law_held_ids_are_the_items(out, l.index_elements(id, start, limit));
    law_range_is_counted_from_start(l, id, start, limit);
}

fn index_page_key(id: &IndexId, page: u32) -> (key: DataKey)
    ensures
        key == DataKey::IndexPage(*id, page),
{
    DataKey::IndexPage(id.clone(), page)
}

fn index_len_key(id: &IndexId) -> (key: DataKey)
    ensures
        key == DataKey::IndexLen(*id),
{
    DataKey::IndexLen(id.clone())
}

/// Total number of elements in the index.
pub fn index_len(env: &mut Env, id: &IndexId) -> (len: u32)
    requires
        ledger(*old(env)).in_contract,
        ledger(*old(env)).fit(DataKey::IndexLen(*id)),
    ensures
        len == ledger(*old(env)).index_len(*id),
        ledger(*final(env)) == ledger(*old(env)).len_read(*id),
{
    let key = index_len_key(id);
    let len: u32 = match load(env, &key) {
        Some(v) => val_u32(env, v),
        None => 0,
    };
    // Keep the length entry alive alongside its pages: it is read on every index
    // access, making it the hottest entry of the index.
    if len > 0 {
        bump_entry_ttl(env, &key);
    }
    len
}

fn set_index_len(env: &mut Env, id: &IndexId, len: u32)
    requires
        ledger(*old(env)).in_contract,
    ensures
        ledger(*final(env)) == ledger(*old(env)).with_index_len(*id, len),
{
    let key = index_len_key(id);
    if len == 0 {
        discard(env, &key);
    } else {
        let v = u32_val(env, len);
        store(env, &key, v);
    }
}

/// Load one page of the index (empty vec if the page does not exist).
pub fn index_load_page(env: &mut Env, id: &IndexId, page: u32) -> (entries: soroban_sdk::Vec<u64>)
    requires
        ledger(*old(env)).in_contract,
        ledger(*old(env)).fit(DataKey::IndexPage(*id, page)),
    ensures
        holds_ids(entries, ledger(*old(env)).index_page(*id, page)),
        ledger(*final(env)) == ledger(*old(env)).page_read(*id, page),
{
    let key = index_page_key(id, page);
    let entries = match load(env, &key) {
        Some(v) => val_ids(env, v),
        None => ids_new(env),
    };
    assert(ids(entries) =~= ledger(*env).index_page(*id, page));
    if ids_len(&entries) != 0 {
        bump_entry_ttl(env, &key);
    }
    entries
}

fn index_store_page(env: &mut Env, id: &IndexId, page: u32, entries: &soroban_sdk::Vec<u64>)
    requires
        ledger(*old(env)).in_contract,
        holds_ids(*entries, ids(*entries)),
    ensures
        ledger(*final(env)) == ledger(*old(env)).with_index_page(*id, page, ids(*entries)),
{
    proof {
        lemma_ids_data(*entries);
    }
    let key = index_page_key(id, page);
    if ids_len(entries) == 0 {
        // Dead pages are removed as soon as they empty out.
        discard(env, &key);
    } else {
        store(env, &key, ids_val(entries));
    }
}

/// Append `value` to the end of the index. O(1): reads/writes only the last page and the
/// length key.
pub fn index_append(env: &mut Env, id: &IndexId, value: u64)
    requires
        ledger(*old(env)).in_contract,
        ledger(*old(env)).appendable(*id),
    ensures
        ledger(*final(env)) == ledger(*old(env)).appended(*id, value),
        ledger(*old(env)).index_wf(*id) ==> {
            &&& ledger(*final(env)).index_wf(*id)
            &&& ledger(*final(env)).index_seq(*id) == ledger(*old(env)).index_seq(*id).push(value)
        },
{
    let ghost l = ledger(*env);
    let len = index_len(env, id);
    let page: u32 = len / INDEX_PAGE_SIZE;
    proof {
        lemma_keys_differ(DataKey::IndexLen(*id), DataKey::IndexPage(*id, page));
    }
    let mut entries = index_load_page(env, id, page);
    let ghost loaded = ids(entries);
    ids_push_back(&mut entries, value);
    assert(ids(entries) =~= loaded.push(value));
    index_store_page(env, id, page, &entries);
    set_index_len(env, id, len + 1);
    proof {
        assert(ledger(*env).persistent =~= l.appended(*id, value).persistent);
        if l.index_wf(*id) {
            law_append_pushes(l, *id, value);
        }
    }
}

/// Read the element at logical position `pos`, or `None` when out of range.
pub fn index_get(env: &mut Env, id: &IndexId, pos: u32) -> (element: Option<u64>)
    requires
        ledger(*old(env)).in_contract,
        ledger(*old(env)).fit(DataKey::IndexLen(*id)),
        pos < ledger(*old(env)).index_len(*id) ==> ledger(*old(env)).fit(
            DataKey::IndexPage(*id, pos / INDEX_PAGE_SIZE),
        ),
    ensures
        element is Some == (pos < ledger(*old(env)).index_len(*id) && ledger(*old(env)).reaches(
            *id,
            pos as int,
        )),
        element matches Some(e) ==> e == ledger(*old(env)).index_element(*id, pos as int),
        ledger(*final(env)) == (if pos < ledger(*old(env)).index_len(*id) {
            ledger(*old(env)).len_read(*id).page_read(*id, pos / INDEX_PAGE_SIZE)
        } else {
            ledger(*old(env)).len_read(*id)
        }),
        ledger(*old(env)).index_wf(*id) ==> element == (if pos < ledger(*old(env)).index_len(*id) {
            Some(ledger(*old(env)).index_seq(*id)[pos as int])
        } else {
            None
        }),
{
    let ghost l = ledger(*env);
    let len = index_len(env, id);
    if pos >= len {
        return None;
    }
    proof {
        if l.index_wf(*id) {
            law_positions_are_reached(l, *id, pos as int);
        }
    }
    let entries = index_load_page(env, id, pos / INDEX_PAGE_SIZE);
    ids_get(&entries, pos % INDEX_PAGE_SIZE)
}

/// Remove the element at logical position `pos` by moving the last element of the index
/// into its slot (swap-remove). Returns `Some(moved_value)` when an element was relocated
/// into `pos`, `None` when `pos` was the last element (or past the end).
///
/// This deliberately does not preserve insertion order: the caller must treat the index
/// as an unordered set once removals occur.
pub fn index_swap_remove(env: &mut Env, id: &IndexId, pos: u32) -> (moved: Option<u64>)
    requires
        ledger(*old(env)).in_contract,
        ledger(*old(env)).fit(DataKey::IndexLen(*id)),
        pos < ledger(*old(env)).index_len(*id) ==> {
            &&& ledger(*old(env)).reaches(*id, ledger(*old(env)).index_len(*id) - 1)
            &&& ledger(*old(env)).reaches(*id, pos as int)
        },
    ensures
        moved == (if pos + 1 < ledger(*old(env)).index_len(*id) {
            Some(ledger(*old(env)).index_element(*id, ledger(*old(env)).index_len(*id) - 1))
        } else {
            None
        }),
        ledger(*final(env)) == ledger(*old(env)).swap_removed(*id, pos),
        ledger(*old(env)).index_wf(*id) && pos < ledger(*old(env)).index_len(*id) ==> {
            &&& ledger(*final(env)).index_wf(*id)
            &&& ledger(*final(env)).index_seq(*id) == seq_swap_remove(
                ledger(*old(env)).index_seq(*id),
                pos as int,
            )
        },
{
    let ghost l = ledger(*env);
    let len = index_len(env, id);
    if pos >= len {
        return None;
    }
    proof {
        if l.index_wf(*id) {
            law_swap_remove_takes_one(l, *id, pos);
        }
    }
    let last: u32 = len - 1;
    let last_page_no: u32 = last / INDEX_PAGE_SIZE;
    let last_off: u32 = last % INDEX_PAGE_SIZE;
    let pos_page_no: u32 = pos / INDEX_PAGE_SIZE;
    let pos_off: u32 = pos % INDEX_PAGE_SIZE;
    proof {
        lemma_keys_differ(DataKey::IndexLen(*id), DataKey::IndexPage(*id, last_page_no));
        lemma_keys_differ(DataKey::IndexLen(*id), DataKey::IndexPage(*id, pos_page_no));
        if pos_page_no != last_page_no {
            lemma_keys_differ(
                DataKey::IndexPage(*id, pos_page_no),
                DataKey::IndexPage(*id, last_page_no),
            );
        }
    }
    let mut last_page = index_load_page(env, id, last_page_no);
    let ghost entries = ids(last_page);
    let last_val = ids_get(&last_page, last_off).unwrap();

    let moved = if pos == last {
        ids_remove(&mut last_page, last_off);
        assert(ids(last_page) =~= entries.update(pos_off as int, last_val).remove(last_off as int));
        index_store_page(env, id, last_page_no, &last_page);
        None
    } else {
        if pos_page_no == last_page_no {
            ids_set(&mut last_page, pos_off, last_val);
            ids_remove(&mut last_page, last_off);
            assert(ids(last_page) =~= entries.update(pos_off as int, last_val).remove(
                last_off as int,
            ));
            index_store_page(env, id, last_page_no, &last_page);
        } else {
            ids_remove(&mut last_page, last_off);
            assert(ids(last_page) =~= entries.remove(last_off as int));
            index_store_page(env, id, last_page_no, &last_page);
            let mut pos_page = index_load_page(env, id, pos_page_no);
            let ghost loaded = ids(pos_page);
            ids_set(&mut pos_page, pos_off, last_val);
            assert(ids(pos_page) =~= loaded.update(pos_off as int, last_val));
            index_store_page(env, id, pos_page_no, &pos_page);
        }
        Some(last_val)
    };
    set_index_len(env, id, last);
    assert(ledger(*env).persistent =~= l.swap_removed(*id, pos).persistent);
    moved
}

/// Read up to `limit` elements starting at logical position `start`. Positions past the
/// end yield an empty vector.
pub fn index_range(env: &mut Env, id: &IndexId, start: u32, limit: u32) -> (out:
    soroban_sdk::Vec<u64>)
    requires
        ledger(*old(env)).in_contract,
        ledger(*old(env)).readable(*id, start, limit),
    ensures
        holds_ids(out, ledger(*old(env)).index_elements(*id, start, limit)),
        ledger(*final(env)) == ledger(*old(env)).range_read(*id, start, limit),
        ledger(*old(env)).index_wf(*id) ==> ids(out) == (if start >= ledger(*old(env)).index_len(
            *id,
        ) {
            Seq::empty()
        } else {
            ledger(*old(env)).index_seq(*id).subrange(
                start as int,
                range_end(ledger(*old(env)).index_len(*id), start, limit),
            )
        }),
        start >= ledger(*old(env)).index_len(*id) ==> id_items(out).len() == 0,
        start < ledger(*old(env)).index_len(*id) ==> id_items(out).len() == (if limit <= ledger(
            *old(env),
        ).index_len(*id) - start {
            limit as int
        } else {
            ledger(*old(env)).index_len(*id) - start
        }),
        forall|i: int|
            0 <= i < id_items(out).len() ==> #[trigger] id_items(out)[i] == Data::U64(
                ledger(*old(env)).index_seq(*id)[start + i],
            ),
{
    let ghost l = ledger(*env);
    let ghost elements = l.index_elements(*id, start, limit);
    let mut out = ids_new(env);
    let len = index_len(env, id);
    proof {
        if l.index_wf(*id) {
            law_range_is_subrange(l, *id, start, limit);
        }
    }
    if start >= len || limit == 0 {
        assert(ids(out) =~= elements);
        proof {
            lemma_range_items(l, *id, start, limit, out);
        }
        return out;
    }
    let wanted: u32 = start.saturating_add(limit);
    let end: u32 = if wanted < len {
        wanted
    } else {
        len
    };
    let mut page_no: u32 = start / INDEX_PAGE_SIZE;
    let ghost first = page_no as int;
    proof {
        assert(l.reaches(*id, start as int));
        law_len_read_keeps_values(l, *id, DataKey::IndexPage(*id, page_no));
    }
    let mut entries = index_load_page(env, id, page_no);
    let ghost base = l.len_read(*id);
    assert(base.pages_read(*id, first, first) == base);
    assert(base.pages_read(*id, first, first + 1) == base.page_read(*id, page_no));
    let mut pos: u32 = start;
    assert(ids(out) =~= elements.take(0));
    while pos < end
        invariant
            start <= pos <= end,
            end == range_end(l.index_len(*id), start, limit),
            start < len == l.index_len(*id),
            limit > 0,
            l.in_contract,
            base == l.len_read(*id),
            elements == l.index_elements(*id, start, limit),
            first == start / INDEX_PAGE_SIZE,
            page_no == (if pos == start {
                start / INDEX_PAGE_SIZE
            } else {
                ((pos - 1) as u32) / INDEX_PAGE_SIZE
            }),
            holds_ids(entries, l.index_page(*id, page_no)),
            ledger(*env) == base.pages_read(*id, first, page_no + 1),
            forall|p: int| start <= p < end ==> #[trigger] l.reaches(*id, p),
            holds_ids(out, elements.take(pos - start)),
        decreases end - pos,
    {
        let p: u32 = pos / INDEX_PAGE_SIZE;
        assert(l.reaches(*id, pos as int));
        if p != page_no {
            page_no = p;
            proof {
                law_len_read_keeps_values(l, *id, DataKey::IndexPage(*id, p));
                law_pages_read_keep_values(
                    base,
                    *id,
                    first,
                    p as int,
                    DataKey::IndexPage(*id, p),
                );
            }
            entries = index_load_page(env, id, page_no);
        }
        let ghost sofar = ids(out);
        assert(sofar.len() == pos - start);
        let element = ids_get(&entries, pos % INDEX_PAGE_SIZE).unwrap();
        ids_push_back(&mut out, element);
        assert(ids(out) =~= sofar.push(element));
        assert(elements.take(pos + 1 - start) =~= elements.take(pos - start).push(element));
        pos += 1;
    }
    assert(elements.take(end - start) =~= elements);
    proof {
        lemma_range_items(l, *id, start, limit, out);
    }
    out
}

/// Read the whole index. Unbounded in the number of pages: reserved for view functions
/// and tests; transaction paths must use `index_range`.
pub fn index_all(env: &mut Env, id: &IndexId) -> (out: soroban_sdk::Vec<u64>)
    requires
        ledger(*old(env)).in_contract,
        ledger(*old(env)).all_readable(*id),
    ensures
        holds_ids(out, ledger(*old(env)).index_seq(*id)),
        ledger(*final(env)) == ledger(*old(env)).range_read(
            *id,
            0,
            ledger(*old(env)).index_len(*id) as u32,
        ),
{
    let ghost l = ledger(*env);
    let len = index_len(env, id);
    proof {
        let mid = l.len_read(*id);
        assert(mid.len_read(*id) =~= mid);
        assert forall|page: u32| #[trigger]
            mid.index_page(*id, page) == l.index_page(*id, page) by {
            law_len_read_keeps_values(l, *id, DataKey::IndexPage(*id, page));
        }
        law_len_read_keeps_values(l, *id, DataKey::IndexLen(*id));
        assert forall|pos: int| 0 <= pos < len implies #[trigger] mid.reaches(*id, pos) by {
            assert(l.reaches(*id, pos));
            law_len_read_keeps_values(
                l,
                *id,
                DataKey::IndexPage(*id, (pos / INDEX_PAGE_SIZE as int) as u32),
            );
        }
        assert(mid.index_elements(*id, 0, len) =~= l.index_seq(*id));
    }
    index_range(env, id, 0, len)
}

} // verus!
