# slotbimap

A bidirectional `key <-> id` store, verified with Verus: records live in a
`slotmap::SlotMap` under stable `DefaultKey` ids, and a `hashbrown::HashTable`
of ids indexes them by the hash of their keys.

## Layout

- `src/bimap.rs`: `SlotBimap`, its view (a map from id to `(key, value)`), its
  invariant `wf` and the operations by id and by key.
- `src/entry.rs`: the entry API and the `get_or_insert` family built on it.
- `src/laws.rs`: laws that relate several operations (lookups after an
  insertion, what an insertion keeps, what a removal forgets).
- `src/store.rs`, `src/index.rs`, `src/keyhash.rs`: the slot map, the hash
  table and the hash builder, each paired with a ghost value that stands for
  what it holds or computes; the functions there that call into `slotmap`,
  `hashbrown` and `BuildHasher` are trusted, and their contracts say what the
  outside code does.
- `src/with_id.rs`: `WithId`, a value paired with its id.

## What lookups by key rest on

`SlotBimap::keys_behave()` collects the contracts of `Eq`, `Hash` and
`BuildHasher`: `==` on keys is equality and hashing a key is deterministic (in
vstd's terms), and the builder type keeps its hashes for as long as one
instance lives (`HashBuilderModel`, which holds for hashbrown's default builder
and, by vstd's model, for std's `RandomState`). The operations that hash or
compare keys require it.

The store also keeps, as ghost state, every id it has handed out, the slot each
names and how often that slot has been filled since; a removed id is handed out
again only once its slot has been filled 2^31 times (when the slot's generation
wraps around). Dropping an entry, or a value reference paired with its id,
hands the store back as it was left (`group_entry_resolved`,
`lemma_with_id_resolved`).
