# marketplace_storage

Storage layer of an artwork marketplace on Soroban, verified with Verus: counters and
records, a paged index engine with swap-removal, the index of active listings, pending
offers, bounded bid histories, configuration, reentrancy locks, migration markers, and the
approval events of the NFT collection.

- `src/` is the verified library. Contracts are stated over `Ledger`
  (`src/ledger.rs`), a model of the entries, their times-to-live and the events.
  `src/host.rs` is the boundary to the Soroban SDK, and the only part that is trusted.
- `app/` holds the keys and records with the SDK's derived conversions.
- `tests/` runs the library on the SDK's test host.
