//! Configuration, moderation and the admin transfer.
use soroban_sdk::{Address, Env};
use vstd::prelude::*;

use crate::host::{
    address_val, bool_val, i128_val, ledger, u32_val, u64_val, val_address, val_bool, val_i128,
    val_u32, val_u64,
};
use crate::keys::DataKey;
use crate::ledger::{law_touch_is_exact, Data, Ledger};
use crate::store::{bump_entry_ttl, discard, load, load_alive, store};

verus! {

/// Default bid history cap used when the admin has not configured a custom value.
pub const DEFAULT_BID_HISTORY_CAP: u32 = 50;

/// Hard upper bound for the admin-configurable cap. Keeps the per-auction history bounded
/// and the O(n) eviction shift economically acceptable.
pub const MAX_BID_HISTORY_CAP: u32 = 200;

impl Ledger {
    /// Whether a flag is set: its entry exists and holds `true`.
    pub open spec fn flag(self, key: DataKey) -> bool {
        self.get(key) == Some(Data::Bool(true))
    }

    /// A flag is read: one that is set has its life extended.
    pub open spec fn flag_read(self, key: DataKey) -> Ledger {
        if self.flag(key) {
            self.touch(key)
        } else {
            self
        }
    }

    /// How many entries of an artist's listings a batched cancellation has processed.
    pub open spec fn cancel_cursor(self, artist: Address) -> u32 {
        if self.has(DataKey::ArtistCancelCursor(artist)) {
            self.value(DataKey::ArtistCancelCursor(artist))->U32_0
        } else {
            0
        }
    }

    /// The bid history cap of a new auction.
    pub open spec fn bid_history_cap(self) -> u32 {
        if self.has(DataKey::BidHistoryCap) {
            self.value(DataKey::BidHistoryCap)->U32_0
        } else {
            DEFAULT_BID_HISTORY_CAP
        }
    }
}

/// A flag that is set is set, and one whose entry is removed is not.
pub proof fn law_flag_follows_writes(l: Ledger, key: DataKey, value: bool)
    ensures
        l.put(key, Data::Bool(value)).flag(key) == value,
        !l.remove(key).flag(key),
{
}

/// A cancellation resumes where its cursor was set, and at the start once it is cleared.
pub proof fn law_cancel_cursor_follows_writes(l: Ledger, artist: Address, cursor: u32)
    ensures
        l.put(DataKey::ArtistCancelCursor(artist), Data::U32(cursor)).cancel_cursor(artist)
            == cursor,
        l.remove(DataKey::ArtistCancelCursor(artist)).cancel_cursor(artist) == 0,
{
}

/// The bid history cap is the one last set, and the default until one is.
pub proof fn law_bid_history_cap_follows_writes(l: Ledger, cap: u32)
    ensures
        l.put(DataKey::BidHistoryCap, Data::U32(cap)).bid_history_cap() == cap,
        !l.has(DataKey::BidHistoryCap) ==> l.bid_history_cap() == DEFAULT_BID_HISTORY_CAP,
{
}

/// A flag is the boolean in its entry, and not set without one. Reading it extends the life
/// of a flag that is set and does nothing else.
pub proof fn law_flag_is_the_stored_boolean(l: Ledger, key: DataKey, value: bool)
    ensures
        l.get(key) is None ==> !l.flag(key),
        l.get(key) == Some(Data::Bool(value)) ==> l.flag(key) == value,
        l.get(key) == Some(Data::Bool(true)) ==> {
            &&& l.flag_read(key).get(key) == Some(Data::Bool(true))
            &&& l.flag_read(key).ttl(key) == l.bumped(l.ttl(key))
        },
        l.get(key) != Some(Data::Bool(true)) ==> l.flag_read(key) == l,
        l.flag_read(key).persistent.remove(key@) == l.persistent.remove(key@),
        l.flag_read(key) == (Ledger { persistent: l.flag_read(key).persistent, ..l }),
{
    law_touch_is_exact(l, key);
}

/// A cursor and the bid history cap are the numbers in their entries; without one the
/// cursor is zero and the cap is fifty.
pub proof fn law_cursor_and_cap_are_the_stored_numbers(l: Ledger, artist: Address, n: u32)
    ensures
        l.get(DataKey::ArtistCancelCursor(artist)) is None ==> l.cancel_cursor(artist) == 0,
        l.get(DataKey::ArtistCancelCursor(artist)) == Some(Data::U32(n)) ==> l.cancel_cursor(
            artist,
        ) == n,
        l.get(DataKey::BidHistoryCap) is None ==> l.bid_history_cap() == 50,
        l.get(DataKey::BidHistoryCap) == Some(Data::U32(n)) ==> l.bid_history_cap() == n,
{
}

/// Resume position of the batched cancellation of the artist's listings.
pub fn get_artist_cancel_cursor(env: &Env, artist: &Address) -> (cursor: u32)
    requires
        ledger(*env).in_contract,
        ledger(*env).fit(DataKey::ArtistCancelCursor(*artist)),
    ensures
        cursor == ledger(*env).cancel_cursor(*artist),
{
    match load(env, &DataKey::ArtistCancelCursor(artist.clone())) {
        Some(v) => val_u32(env, v),
        None => 0,
    }
}

/// Note how far the batched cancellation of the artist's listings has come.
pub fn set_artist_cancel_cursor(env: &mut Env, artist: &Address, cursor: u32)
    requires
        ledger(*old(env)).in_contract,
    ensures
        ledger(*final(env)) == ledger(*old(env)).put(
            DataKey::ArtistCancelCursor(*artist),
            Data::U32(cursor),
        ),
{
    let key = DataKey::ArtistCancelCursor(artist.clone());
    let v = u32_val(env, cursor);
    store(env, &key, v);
}

/// Forget how far the batched cancellation of the artist's listings has come.
pub fn clear_artist_cancel_cursor(env: &mut Env, artist: &Address)
    requires
        ledger(*old(env)).in_contract,
    ensures
        ledger(*final(env)) == ledger(*old(env)).remove(DataKey::ArtistCancelCursor(*artist)),
{
    discard(env, &DataKey::ArtistCancelCursor(artist.clone()));
}

/// Revoke the artist.
pub fn set_artist_revocation_storage(env: &mut Env, artist: &Address)
    requires
        ledger(*old(env)).in_contract,
    ensures
        ledger(*final(env)) == ledger(*old(env)).put(
            DataKey::RevokedArtist(*artist),
            Data::Bool(true),
        ),
{
    let key = DataKey::RevokedArtist(artist.clone());
    let v = bool_val(env, true);
    store(env, &key, v);
}

/// Lift the revocation of the artist.
pub fn remove_artist_revocation_storage(env: &mut Env, artist: &Address)
    requires
        ledger(*old(env)).in_contract,
    ensures
        ledger(*final(env)) == ledger(*old(env)).remove(DataKey::RevokedArtist(*artist)),
{
    discard(env, &DataKey::RevokedArtist(artist.clone()));
}

/// Whether the artist is revoked.
pub fn is_artist_revoked_storage(env: &mut Env, artist: &Address) -> (revoked: bool)
    requires
        ledger(*old(env)).in_contract,
        ledger(*old(env)).fit(DataKey::RevokedArtist(*artist)),
    ensures
        revoked == ledger(*old(env)).flag(DataKey::RevokedArtist(*artist)),
        ledger(*final(env)) == ledger(*old(env)).flag_read(DataKey::RevokedArtist(*artist)),
{
    let key = DataKey::RevokedArtist(artist.clone());
    let revoked = match load(env, &key) {
        Some(v) => val_bool(env, v),
        None => false,
    };
    if revoked {
        bump_entry_ttl(env, &key);
    }
    revoked
}

/// Set the treasury, which receives the protocol fee.
pub fn set_treasury_storage(env: &mut Env, addr: &Address)
    requires
        ledger(*old(env)).in_contract,
    ensures
        ledger(*final(env)) == ledger(*old(env)).put(DataKey::Treasury, Data::Address(*addr)),
{
    store(env, &DataKey::Treasury, address_val(addr));
}

/// The treasury, when one was set.
pub fn get_treasury_storage(env: &mut Env) -> (found: Option<Address>)
    requires
        ledger(*old(env)).in_contract,
        ledger(*old(env)).fit(DataKey::Treasury),
    ensures
        found is Some == ledger(*old(env)).has(DataKey::Treasury),
        found matches Some(value) ==> ledger(*old(env)).value(DataKey::Treasury)
            == Data::Address(value),
        ledger(*final(env)) == ledger(*old(env)).touch(DataKey::Treasury),
{
    match load_alive(env, &DataKey::Treasury) {
        Some(v) => Some(val_address(env, v)),
        None => None,
    }
}

/// Set the protocol fee, in basis points.
pub fn set_protocol_fee_bps_storage(env: &mut Env, bps: u32)
    requires
        ledger(*old(env)).in_contract,
    ensures
        ledger(*final(env)) == ledger(*old(env)).put(DataKey::ProtocolFeeBps, Data::U32(bps)),
{
    let v = u32_val(env, bps);
    store(env, &DataKey::ProtocolFeeBps, v);
}

/// The protocol fee in basis points, when one was set.
pub fn get_protocol_fee_bps_storage(env: &mut Env) -> (found: Option<u32>)
    requires
        ledger(*old(env)).in_contract,
        ledger(*old(env)).fit(DataKey::ProtocolFeeBps),
    ensures
        found is Some == ledger(*old(env)).has(DataKey::ProtocolFeeBps),
        found matches Some(value) ==> ledger(*old(env)).value(DataKey::ProtocolFeeBps)
            == Data::U32(value),
        ledger(*final(env)) == ledger(*old(env)).touch(DataKey::ProtocolFeeBps),
{
    match load_alive(env, &DataKey::ProtocolFeeBps) {
        Some(v) => Some(val_u32(env, v)),
        None => None,
    }
}

/// Set the least amount by which a bid must exceed the one before.
pub fn set_min_bid_increment_storage(env: &mut Env, increment: i128)
    requires
        ledger(*old(env)).in_contract,
    ensures
        ledger(*final(env)) == ledger(*old(env)).put(
            DataKey::MinBidIncrement,
            Data::I128(increment),
        ),
{
    let v = i128_val(env, increment);
    store(env, &DataKey::MinBidIncrement, v);
}

/// The least bid increment, when one was set.
pub fn get_min_bid_increment_storage(env: &mut Env) -> (found: Option<i128>)
    requires
        ledger(*old(env)).in_contract,
        ledger(*old(env)).fit(DataKey::MinBidIncrement),
    ensures
        found is Some == ledger(*old(env)).has(DataKey::MinBidIncrement),
        found matches Some(value) ==> ledger(*old(env)).value(DataKey::MinBidIncrement)
            == Data::I128(value),
        ledger(*final(env)) == ledger(*old(env)).touch(DataKey::MinBidIncrement),
{
    match load_alive(env, &DataKey::MinBidIncrement) {
        Some(v) => Some(val_i128(env, v)),
        None => None,
    }
}

/// Set by how much a late bid extends an auction.
pub fn set_auction_extension_window_storage(env: &mut Env, window: u64)
    requires
        ledger(*old(env)).in_contract,
    ensures
        ledger(*final(env)) == ledger(*old(env)).put(
            DataKey::AuctionExtensionWindow,
            Data::U64(window),
        ),
{
    let v = u64_val(env, window);
    store(env, &DataKey::AuctionExtensionWindow, v);
}

/// The extension window, when one was set.
pub fn get_auction_extension_window_storage(env: &mut Env) -> (found: Option<u64>)
    requires
        ledger(*old(env)).in_contract,
        ledger(*old(env)).fit(DataKey::AuctionExtensionWindow),
    ensures
        found is Some == ledger(*old(env)).has(DataKey::AuctionExtensionWindow),
        found matches Some(value) ==> ledger(*old(env)).value(DataKey::AuctionExtensionWindow)
            == Data::U64(value),
        ledger(*final(env)) == ledger(*old(env)).touch(DataKey::AuctionExtensionWindow),
{
    match load_alive(env, &DataKey::AuctionExtensionWindow) {
        Some(v) => Some(val_u64(env, v)),
        None => None,
    }
}

/// Set how late a bid must be to extend an auction.
pub fn set_auction_extension_trigger_storage(env: &mut Env, trigger: u64)
    requires
        ledger(*old(env)).in_contract,
    ensures
        ledger(*final(env)) == ledger(*old(env)).put(
            DataKey::AuctionExtensionTrigger,
            Data::U64(trigger),
        ),
{
    let v = u64_val(env, trigger);
    store(env, &DataKey::AuctionExtensionTrigger, v);
}

/// The extension trigger, when one was set.
pub fn get_auction_extension_trigger_storage(env: &mut Env) -> (found: Option<u64>)
    requires
        ledger(*old(env)).in_contract,
        ledger(*old(env)).fit(DataKey::AuctionExtensionTrigger),
    ensures
        found is Some == ledger(*old(env)).has(DataKey::AuctionExtensionTrigger),
        found matches Some(value) ==> ledger(*old(env)).value(DataKey::AuctionExtensionTrigger)
            == Data::U64(value),
        ledger(*final(env)) == ledger(*old(env)).touch(DataKey::AuctionExtensionTrigger),
{
    match load_alive(env, &DataKey::AuctionExtensionTrigger) {
        Some(v) => Some(val_u64(env, v)),
        None => None,
    }
}

/// Set the lower price bound.
pub fn set_min_price_storage(env: &mut Env, min: i128)
    requires
        ledger(*old(env)).in_contract,
    ensures
        ledger(*final(env)) == ledger(*old(env)).put(DataKey::MinPrice, Data::I128(min)),
{
    let v = i128_val(env, min);
    store(env, &DataKey::MinPrice, v);
}

/// The lower price bound, when one was set.
pub fn get_min_price_storage(env: &mut Env) -> (found: Option<i128>)
    requires
        ledger(*old(env)).in_contract,
        ledger(*old(env)).fit(DataKey::MinPrice),
    ensures
        found is Some == ledger(*old(env)).has(DataKey::MinPrice),
        found matches Some(value) ==> ledger(*old(env)).value(DataKey::MinPrice)
            == Data::I128(value),
        ledger(*final(env)) == ledger(*old(env)).touch(DataKey::MinPrice),
{
    match load_alive(env, &DataKey::MinPrice) {
        Some(v) => Some(val_i128(env, v)),
        None => None,
    }
}

/// Set the upper price bound.
pub fn set_max_price_storage(env: &mut Env, max: i128)
    requires
        ledger(*old(env)).in_contract,
    ensures
        ledger(*final(env)) == ledger(*old(env)).put(DataKey::MaxPrice, Data::I128(max)),
{
    let v = i128_val(env, max);
    store(env, &DataKey::MaxPrice, v);
}

/// The upper price bound, when one was set.
pub fn get_max_price_storage(env: &mut Env) -> (found: Option<i128>)
    requires
        ledger(*old(env)).in_contract,
        ledger(*old(env)).fit(DataKey::MaxPrice),
    ensures
        found is Some == ledger(*old(env)).has(DataKey::MaxPrice),
        found matches Some(value) ==> ledger(*old(env)).value(DataKey::MaxPrice)
            == Data::I128(value),
        ledger(*final(env)) == ledger(*old(env)).touch(DataKey::MaxPrice),
{
    match load_alive(env, &DataKey::MaxPrice) {
        Some(v) => Some(val_i128(env, v)),
        None => None,
    }
}

/// Nominate the next admin.
pub fn set_pending_admin_storage(env: &mut Env, pending: &Address)
    requires
        ledger(*old(env)).in_contract,
    ensures
        ledger(*final(env)) == ledger(*old(env)).put(
            DataKey::PendingAdmin,
            Data::Address(*pending),
        ),
{
    store(env, &DataKey::PendingAdmin, address_val(pending));
}

/// The nominated admin, when there is one.
pub fn get_pending_admin_storage(env: &mut Env) -> (found: Option<Address>)
    requires
        ledger(*old(env)).in_contract,
        ledger(*old(env)).fit(DataKey::PendingAdmin),
    ensures
        found is Some == ledger(*old(env)).has(DataKey::PendingAdmin),
        found matches Some(value) ==> ledger(*old(env)).value(DataKey::PendingAdmin)
            == Data::Address(value),
        ledger(*final(env)) == ledger(*old(env)).touch(DataKey::PendingAdmin),
{
    match load_alive(env, &DataKey::PendingAdmin) {
        Some(v) => Some(val_address(env, v)),
        None => None,
    }
}

/// Withdraw the nomination of the next admin.
pub fn clear_pending_admin_storage(env: &mut Env)
    requires
        ledger(*old(env)).in_contract,
    ensures
        ledger(*final(env)) == ledger(*old(env)).remove(DataKey::PendingAdmin),
{
    discard(env, &DataKey::PendingAdmin);
}

/// Pause or resume the marketplace.
pub fn set_paused(env: &mut Env, paused: bool)
    requires
        ledger(*old(env)).in_contract,
    ensures
        ledger(*final(env)) == ledger(*old(env)).put(DataKey::IsPaused, Data::Bool(paused)),
{
    let v = bool_val(env, paused);
    store(env, &DataKey::IsPaused, v);
}

/// Whether the marketplace is paused.
pub fn is_paused(env: &Env) -> (paused: bool)
    requires
        ledger(*env).in_contract,
        ledger(*env).fit(DataKey::IsPaused),
    ensures
        paused == ledger(*env).flag(DataKey::IsPaused),
{
    match load(env, &DataKey::IsPaused) {
        Some(v) => val_bool(env, v),
        None => false,
    }
}

/// Persist the admin-chosen global bid history cap.
pub fn set_bid_history_cap_storage(env: &mut Env, cap: u32)
    requires
        ledger(*old(env)).in_contract,
    ensures
        ledger(*final(env)) == ledger(*old(env)).put(DataKey::BidHistoryCap, Data::U32(cap)),
{
    let v = u32_val(env, cap);
    store(env, &DataKey::BidHistoryCap, v);
}

/// Read the current global bid history cap. Returns `DEFAULT_BID_HISTORY_CAP` when no
/// custom value has been set yet.
pub fn get_bid_history_cap_storage(env: &mut Env) -> (cap: u32)
    requires
        ledger(*old(env)).in_contract,
        ledger(*old(env)).fit(DataKey::BidHistoryCap),
    ensures
        cap == ledger(*old(env)).bid_history_cap(),
        ledger(*final(env)) == ledger(*old(env)).touch(DataKey::BidHistoryCap),
{
    match load_alive(env, &DataKey::BidHistoryCap) {
        Some(v) => val_u32(env, v),
        None => DEFAULT_BID_HISTORY_CAP,
    }
}

} // verus!
