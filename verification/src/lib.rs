//! Storage layer of an artwork marketplace on Soroban, with the approval events of its NFT
//! collection.
//!
//! Contracts speak of a `Ledger`, the mathematical model of what an `Env` holds: the
//! persistent and temporary entries with their times-to-live, and the published events.
//! `ledger` defines the model, `host` ties it to the SDK, `keys` and `types` give keys
//! and records their stored form, and `store` reads and writes single entries. All other
//! modules build on these: the paged `index` engine with the `active` listings and the
//! append-only `collections`, the `counters` and `records`, `pending` offers, `bids`,
//! `config`, `locks`, `migration` and `events`.

pub mod active;
pub mod bids;
pub mod collections;
pub mod config;
pub mod counters;
pub mod events;
pub mod host;
pub mod index;
pub mod keys;
pub mod ledger;
pub mod locks;
pub mod migration;
pub mod pending;
pub mod records;
pub mod store;
pub mod types;
