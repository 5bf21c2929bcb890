//! Reentrancy guards: short-lived locks in temporary storage.
use soroban_sdk::Env;
use vstd::prelude::*;

use crate::host::{
    bool_val, ledger, temporary_extend_ttl, temporary_has, temporary_remove, temporary_set,
};
use crate::keys::{key_val, lemma_keys_differ, DataKey};
use crate::ledger::{extended_ttl, Data, Entry, Ledger, REENTRANCY_LOCK_TTL};

verus! {

impl Ledger {
    /// Whether a lock is held.
    pub open spec fn locked(self, lock: DataKey) -> bool {
        self.temporary.contains_key(lock@)
    }

    /// A lock is taken, for a life of at least `REENTRANCY_LOCK_TTL` ledgers. One that is
    /// held stays as it is.
    pub open spec fn lock_taken(self, lock: DataKey) -> Ledger {
        if self.locked(lock) {
            self
        } else {
            let ttl = extended_ttl(
                self.new_temporary_ttl,
                REENTRANCY_LOCK_TTL,
                REENTRANCY_LOCK_TTL,
                self.max_ttl,
            );
            Ledger {
                temporary: self.temporary.insert(
                    lock@,
                    Entry { value: Data::Bool(true), ttl },
                ),
                ..self
            }
        }
    }

    /// A lock is given back.
    pub open spec fn lock_freed(self, lock: DataKey) -> Ledger {
        Ledger { temporary: self.temporary.remove(lock@), ..self }
    }
}

/// A lock that was taken is held, so it cannot be taken again; once given back it is
/// free, and the storage is as it was before it was taken.
pub proof fn law_lock_excludes(l: Ledger, lock: DataKey)
    ensures
        l.lock_taken(lock).locked(lock),
        l.lock_taken(lock).lock_taken(lock) == l.lock_taken(lock),
        !l.lock_freed(lock).locked(lock),
        !l.locked(lock) ==> l.lock_taken(lock).lock_freed(lock) == l,
{
    if !l.locked(lock) {
        assert(l.lock_taken(lock).lock_freed(lock) =~= l);
    }
}

/// Taking or giving back one lock leaves every other lock as it was.
pub proof fn law_locks_are_independent(l: Ledger, lock: DataKey, other: DataKey)
    requires
        other != lock,
    ensures
        l.lock_taken(lock).locked(other) == l.locked(other),
        l.lock_freed(lock).locked(other) == l.locked(other),
{
    lemma_keys_differ(other, lock);
}

/// A lock outlives the ledgers that it is taken for.
pub proof fn law_lock_lives_long_enough(l: Ledger, lock: DataKey)
    requires
        !l.locked(lock),
        REENTRANCY_LOCK_TTL <= l.max_ttl,
    ensures
        l.lock_taken(lock).temporary[lock@].ttl >= REENTRANCY_LOCK_TTL,
{
}

/// A lock is held exactly where its temporary entry exists. Taking a free one writes
/// `true` there, with a life of a hundred ledgers or what the network gives if that is
/// more; taking a held one changes nothing; giving one back deletes its entry. Nothing else
/// ever changes.
pub proof fn law_locks_are_exact(l: Ledger, lock: DataKey)
    ensures
        l.locked(lock) <==> l.temporary.contains_key(lock@),
        l.locked(lock) ==> l.lock_taken(lock) == l,
        !l.locked(lock) ==> {
            &&& l.lock_taken(lock).temporary.contains_key(lock@)
            &&& l.lock_taken(lock).temporary[lock@].value == Data::Bool(true)
            &&& l.new_temporary_ttl > 100 ==> l.lock_taken(lock).temporary[lock@].ttl
                == l.new_temporary_ttl
            &&& l.new_temporary_ttl <= 100 <= l.max_ttl ==> l.lock_taken(
                lock,
            ).temporary[lock@].ttl == 100
        },
        l.lock_taken(lock).temporary.remove(lock@) == l.temporary.remove(lock@),
        l.lock_taken(lock) == (Ledger { temporary: l.lock_taken(lock).temporary, ..l }),
        l.lock_freed(lock) == (Ledger { temporary: l.temporary.remove(lock@), ..l }),
{
    assert(l.lock_taken(lock).temporary.remove(lock@) =~= l.temporary.remove(lock@));
}

fn take_lock(env: &mut Env, lock: &DataKey) -> (acquired: bool)
    requires
        ledger(*old(env)).in_contract,
        ledger(*old(env)).locked(*lock) || REENTRANCY_LOCK_TTL <= ledger(*old(env)).max_ttl,
    ensures
        acquired == !ledger(*old(env)).locked(*lock),
        ledger(*final(env)) == ledger(*old(env)).lock_taken(*lock),
{
    let key = key_val(env, lock);
    if temporary_has(env, key) {
        return false;
    }
    let v = bool_val(env, true);
    temporary_set(env, key, v);
    temporary_extend_ttl(env, key, REENTRANCY_LOCK_TTL, REENTRANCY_LOCK_TTL);
    assert(ledger(*env) =~= ledger(*old(env)).lock_taken(*lock));
    true
}

/// Take the lock of a listing. Returns `false` when it is held already.
pub fn acquire_listing_lock(env: &mut Env, listing_id: u64) -> (acquired: bool)
    requires
        ledger(*old(env)).in_contract,
        ledger(*old(env)).locked(DataKey::ListingLock(listing_id)) || REENTRANCY_LOCK_TTL <= ledger(
            *old(env),
        ).max_ttl,
    ensures
        acquired == !ledger(*old(env)).locked(DataKey::ListingLock(listing_id)),
        ledger(*final(env)) == ledger(*old(env)).lock_taken(DataKey::ListingLock(listing_id)),
{
    take_lock(env, &DataKey::ListingLock(listing_id))
}

/// Give back the lock of a listing.
pub fn release_listing_lock(env: &mut Env, listing_id: u64)
    requires
        ledger(*old(env)).in_contract,
    ensures
        ledger(*final(env)) == ledger(*old(env)).lock_freed(DataKey::ListingLock(listing_id)),
{
    let key = key_val(env, &DataKey::ListingLock(listing_id));
    temporary_remove(env, key);
}

/// Take the lock of an auction. Returns `false` when it is held already.
pub fn acquire_auction_lock(env: &mut Env, auction_id: u64) -> (acquired: bool)
    requires
        ledger(*old(env)).in_contract,
        ledger(*old(env)).locked(DataKey::AuctionLock(auction_id)) || REENTRANCY_LOCK_TTL <= ledger(
            *old(env),
        ).max_ttl,
    ensures
        acquired == !ledger(*old(env)).locked(DataKey::AuctionLock(auction_id)),
        ledger(*final(env)) == ledger(*old(env)).lock_taken(DataKey::AuctionLock(auction_id)),
{
    take_lock(env, &DataKey::AuctionLock(auction_id))
}

/// Give back the lock of an auction.
pub fn release_auction_lock(env: &mut Env, auction_id: u64)
    requires
        ledger(*old(env)).in_contract,
    ensures
        ledger(*final(env)) == ledger(*old(env)).lock_freed(DataKey::AuctionLock(auction_id)),
{
    let key = key_val(env, &DataKey::AuctionLock(auction_id));
    temporary_remove(env, key);
}

} // verus!
