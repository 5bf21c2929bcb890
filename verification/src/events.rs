//! Approval event emitters of the NFT collection.
//!
//! | Topic          | Meaning                                            |
//! |----------------|----------------------------------------------------|
//! | `approval_set` | Per-token approval granted (with optional expiry). |
//! | `appr_all_set` | Collection-level operator grant/revoke.            |
//! | `aprvl_rvkd`   | All per-token approvals revoked by owner.          |
//!
//! Indexers can filter on the topic symbols to reconstruct the full approval state of
//! every token without re-reading contract storage.
use soroban_sdk::{Address, Env, Val};
use vstd::prelude::*;

use crate::host::{
    address_val, bool_val, is_symbol, ledger, list_items, list_new, list_push_back, list_val,
    publish, symbol_val, u32_val, u64_val, val_data,
};
use crate::ledger::{Data, Event, Ledger};

verus! {

impl Ledger {
    /// An event is published behind those before it.
    pub open spec fn published(self, topics: Seq<Data>, data: Data) -> Ledger {
        Ledger { events: self.events.push(Event { topics, data }), ..self }
    }
}

/// The data of a triple.
pub open spec fn triple(a: Data, b: Data, c: Data) -> Data {
    Data::List(seq![a, b, c])
}

/// The topics of an approval event: its name and the owner.
pub open spec fn topics_of(name: Seq<char>, owner: Address) -> Seq<Data> {
    seq![Data::Symbol(name), Data::Address(owner)]
}

/// The expiry that an operator event announces: that of the grant, and 0 for a revocation.
pub open spec fn announced_expiry(approved: bool, expires_at: u32) -> u32 {
    if approved {
        expires_at
    } else {
        0
    }
}

/// Publishing an event keeps every event before it and touches no storage entry.
pub proof fn law_events_are_only_added(l: Ledger, topics: Seq<Data>, data: Data)
    ensures
        l.published(topics, data).events.drop_last() == l.events,
        l.published(topics, data).events.last() == (Event { topics, data }),
        l.published(topics, data).persistent == l.persistent,
        l.published(topics, data).temporary == l.temporary,
{
    assert(l.published(topics, data).events.drop_last() =~= l.events);
}

/// A grant announces its own expiry, whatever it is, and a revocation announces 0: no two
/// grants with different expiries look alike to an indexer.
pub proof fn law_grants_announce_their_expiry(expires_at: u32, other: u32)
    ensures
        announced_expiry(true, expires_at) == expires_at,
        announced_expiry(false, expires_at) == 0,
        announced_expiry(true, expires_at) == announced_expiry(true, other) ==> expires_at == other,
{
}

/// The data of a triple is the list of its three items, and the topics of an approval event
/// are its name and the owner.
pub proof fn law_events_are_spelled_out(
    a: Data,
    b: Data,
    c: Data,
    name: Seq<char>,
    owner: Address,
)
    ensures
        triple(a, b, c) == Data::List(seq![a, b, c]),
        topics_of(name, owner) == seq![Data::Symbol(name), Data::Address(owner)],
{
}

fn triple_val(env: &Env, a: Val, b: Val, c: Val) -> (v: Val)
    ensures
        val_data(v) == triple(val_data(a), val_data(b), val_data(c)),
{
    let mut list = list_new(env);
    list_push_back(&mut list, a);
    list_push_back(&mut list, b);
    list_push_back(&mut list, c);
    let v = list_val(&list);
    assert(val_data(v)->List_0 =~= seq![val_data(a), val_data(b), val_data(c)]);
    v
}

fn emit(env: &mut Env, name: &str, owner: &Address, data: Val)
    requires
        is_symbol(name@),
    ensures
        ledger(*final(env)) == ledger(*old(env)).published(
            topics_of(name@, *owner),
            val_data(data),
        ),
{
    let mut topics = list_new(env);
    list_push_back(&mut topics, symbol_val(env, name));
    list_push_back(&mut topics, address_val(owner));
    assert(list_items(topics) =~= topics_of(name@, *owner));
    publish(env, topics, data);
}

/// Emitted when a per-token approval is set or updated.
///
/// Topics: `("approval_set", owner)`. Data: `(approved, token_id, expires_at)`.
///
/// `expires_at == 0` means that the approval never expires.
pub fn emit_approval_set(
    env: &mut Env,
    owner: &Address,
    approved: &Address,
    token_id: u64,
    expires_at: u32,
)
    ensures
        ledger(*final(env)) == ledger(*old(env)).published(
            topics_of("approval_set"@, *owner),
            triple(Data::Address(*approved), Data::U64(token_id), Data::U32(expires_at)),
        ),
        ledger(*final(env)).events.len() == ledger(*old(env)).events.len() + 1,
        ledger(*final(env)).events.drop_last() == ledger(*old(env)).events,
        ledger(*final(env)).events.last().topics == seq![
            Data::Symbol("approval_set"@),
            Data::Address(*owner),
        ],
        ledger(*final(env)).events.last().data == Data::List(
            seq![Data::Address(*approved), Data::U64(token_id), Data::U32(expires_at)],
        ),
        ledger(*final(env)) == (Ledger {
            events: ledger(*final(env)).events,
            ..ledger(*old(env))
        }),
{
    proof {
        reveal_strlit("approval_set");
    }
    let token = u64_val(env, token_id);
    let expiry = u32_val(env, expires_at);
    let data = triple_val(env, address_val(approved), token, expiry);
    emit(env, "approval_set", owner, data);
}

/// Emitted when an operator's collection-wide approval is granted or revoked.
///
/// Topics: `("appr_all_set", owner)`. Data: `(operator, approved, expires_at)`.
///
/// `approved == false` means revocation; the event's `expires_at` is always 0 in that
/// case. `expires_at == 0` in a grant means that it never expires.
pub fn emit_approval_for_all_set(
    env: &mut Env,
    owner: &Address,
    operator: &Address,
    approved: bool,
    expires_at: u32,
)
    ensures
        ledger(*final(env)) == ledger(*old(env)).published(
            topics_of("appr_all_set"@, *owner),
            triple(
                Data::Address(*operator),
                Data::Bool(approved),
                Data::U32(announced_expiry(approved, expires_at)),
            ),
        ),
        ledger(*final(env)).events.len() == ledger(*old(env)).events.len() + 1,
        ledger(*final(env)).events.drop_last() == ledger(*old(env)).events,
        ledger(*final(env)).events.last().topics == seq![
            Data::Symbol("appr_all_set"@),
            Data::Address(*owner),
        ],
        approved ==> ledger(*final(env)).events.last().data == Data::List(
            seq![Data::Address(*operator), Data::Bool(true), Data::U32(expires_at)],
        ),
        !approved ==> ledger(*final(env)).events.last().data == Data::List(
            seq![Data::Address(*operator), Data::Bool(false), Data::U32(0)],
        ),
        ledger(*final(env)) == (Ledger {
            events: ledger(*final(env)).events,
            ..ledger(*old(env))
        }),
{
    proof {
        reveal_strlit("appr_all_set");
    }
    let granted = bool_val(env, approved);
    let announced: u32 = if approved {
        expires_at
    } else {
        0
    };
    let expiry = u32_val(env, announced);
    let data = triple_val(env, address_val(operator), granted, expiry);
    emit(env, "appr_all_set", owner, data);
}

/// Emitted when the token owner revokes all approvals of a token.
///
/// Topics: `("aprvl_rvkd", owner)`. Data: `token_id`.
///
/// Indexers that cache per-token approvals should treat this as a full invalidation of
/// the approval and of its expiry for the token.
pub fn emit_approval_revoked(env: &mut Env, owner: &Address, token_id: u64)
    ensures
        ledger(*final(env)) == ledger(*old(env)).published(
            topics_of("aprvl_rvkd"@, *owner),
            Data::U64(token_id),
        ),
        ledger(*final(env)).events.len() == ledger(*old(env)).events.len() + 1,
        ledger(*final(env)).events.drop_last() == ledger(*old(env)).events,
        ledger(*final(env)).events.last().topics == seq![
            Data::Symbol("aprvl_rvkd"@),
            Data::Address(*owner),
        ],
        ledger(*final(env)).events.last().data == Data::U64(token_id),
        ledger(*final(env)) == (Ledger {
            events: ledger(*final(env)).events,
            ..ledger(*old(env))
        }),
{
    proof {
        reveal_strlit("aprvl_rvkd");
    }
    let token = u64_val(env, token_id);
    emit(env, "aprvl_rvkd", owner, token);
}

} // verus!
