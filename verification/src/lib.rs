//! A bidirectional `key <-> id` store: a slot map whose entries can also be
//! looked up by key, and a hash index whose entries can also be looked up by
//! their stable id.
//!
//! Inserting a key hands back a cheap `Copy` id. Lookups by id skip hashing
//! entirely; lookups by key go through the hash index as usual.

mod bimap;
mod entry;
mod index;
mod keyhash;
pub mod laws;
mod outside;
mod store;
mod with_id;

pub use bimap::SlotBimap;
pub use entry::{
    group_entry_resolved, lemma_entry_resolved, lemma_occupied_resolved, lemma_vacant_resolved, Entry,
    OccupiedEntry, VacantEntry,
};
pub use keyhash::HashBuilderModel;
pub use slotmap::DefaultKey;
pub use store::Record;
pub use with_id::{lemma_with_id_resolved, WithId};
