//! The hash index of a `SlotBimap`: a hash table of ids, each placed by the
//! hash of the key that its record holds.
//!
//! `Index` pairs the table with a ghost map from each id held to the hash it
//! was inserted with. Only the functions of this module touch either field.
use crate::keyhash::{HashBuilderModel, KeyHasher};
use crate::store::{same_id, Record, Slots};
use core::hash::{BuildHasher, Hash};
use hashbrown::HashTable;
use slotmap::DefaultKey;
use vstd::laws_eq::obeys_concrete_eq;
use vstd::prelude::*;
use vstd::std_specs::hash::obeys_key_model;

verus! {

/// What an id in the index is tested against while probing.
pub enum Probe<'a, K> {
    /// The id itself.
    Id(DefaultKey),
    /// The key of the record that the id names.
    Key(&'a K),
}

impl<'a, K> Probe<'a, K> {
    /// Whether `id` is what this probe looks for, given the records held.
    pub open spec fn matches<V>(self, records: Map<DefaultKey, Record<K, V>>, id: DefaultKey) -> bool {
        match self {
            Probe::Id(target) => id == target,
            Probe::Key(key) => records.contains_key(id) && records[id].key == *key,
        }
    }

    /// Tests `id` against this probe; the equality function handed to the
    /// hash table.
    pub fn test<V>(&self, slots: &Slots<K, V>, id: &DefaultKey) -> (r: bool)
        where K: PartialEq,
        requires
            obeys_concrete_eq::<K>(),
        ensures
            r == self.matches(slots@, *id),
    {
        match self {
            Probe::Id(target) => same_id(id, target),
            Probe::Key(key) => match slots.get(*id) {
                Some(rec) => {
                    proof {
                        reveal(obeys_concrete_eq);
                    }
                    rec.key == **key
                },
                None => false,
            },
        }
    }
}

/// The hash of the key of the record named by `id`; the hasher handed to the
/// hash table for moving its ids when it grows. Every id in the table names a
/// record held, so the fallback for an id that names none is never taken.
pub fn hash_of_record<K: Hash, V, S: BuildHasher + HashBuilderModel>(
    hasher: &KeyHasher<K, S>,
    slots: &Slots<K, V>,
    id: &DefaultKey,
) -> (r: u64)
    requires
        obeys_key_model::<K>(),
        S::keeps_hashes(),
    ensures
        slots@.contains_key(*id) ==> r == hasher.hash_of(slots@[*id].key),
{
    match slots.get(*id) {
        Some(rec) => hasher.hash(&rec.key),
        None => 0,
    }
}

/// The hash table itself, kept out of Verus's sight (its allocator parameter
/// cannot be declared).
#[verifier::external_body]
struct RawIndex {
    table: HashTable<DefaultKey>,
}

/// A hash table of ids together with the hash that each id was inserted with.
pub struct Index {
    raw: RawIndex,
    hashes: Ghost<Map<DefaultKey, u64>>,
}

impl View for Index {
    type V = Map<DefaultKey, u64>;

    closed spec fn view(&self) -> Map<DefaultKey, u64> {
        self.hashes@
    }
}

impl Index {
    /// `HashTable::new`: an empty table.
    #[verifier::external_body]
    pub fn new() -> (r: Index)
        ensures
            r@ =~= Map::empty(),
    {
        Index { raw: RawIndex { table: HashTable::new() }, hashes: Ghost(Map::empty()) }
    }

    /// `HashTable::find`: an id that `probe` matches, if the table finds one.
    /// The table tests every id inserted with `hash` (and perhaps others), so
    /// `None` means that no id inserted with `hash` matches.
    #[verifier::external_body]
    pub fn find<K: PartialEq, V>(&self, hash: u64, slots: &Slots<K, V>, probe: &Probe<K>) -> (r:
        Option<DefaultKey>)
        requires
            obeys_concrete_eq::<K>(),
        ensures
            match r {
                Some(id) => self@.contains_key(id) && probe.matches(slots@, id),
                None => forall|id: DefaultKey|
                    #![trigger self@[id]]
                    self@.contains_key(id) && self@[id] == hash ==> !probe.matches(slots@, id),
            },
    {
        self.raw.table.find(hash, |id| probe.test(slots, id)).copied()
    }

    /// `HashTable::find_entry` followed by `OccupiedEntry::remove`: takes out
    /// an id that `probe` matches, if the table finds one; as with `find`,
    /// `None` means that no id inserted with `hash` matches.
    #[verifier::external_body]
    pub fn remove<K: PartialEq, V>(&mut self, hash: u64, slots: &Slots<K, V>, probe: &Probe<K>) -> (r:
        Option<DefaultKey>)
        requires
            obeys_concrete_eq::<K>(),
        ensures
            match r {
                Some(id) => {
                    &&& old(self)@.contains_key(id)
                    &&& probe.matches(slots@, id)
                    &&& final(self)@ == old(self)@.remove(id)
                },
                None => {
                    &&& forall|id: DefaultKey|
                        #![trigger old(self)@[id]]
                        old(self)@.contains_key(id) && old(self)@[id] == hash ==> !probe.matches(slots@, id)
                    &&& final(self)@ == old(self)@
                },
            },
    {
        match self.raw.table.find_entry(hash, |id| probe.test(slots, id)) {
            Ok(entry) => Some(entry.remove().0),
            Err(_) => None,
        }
    }

    /// `HashTable::insert_unique`: adds `id`, placed by `hash`. The table may
    /// move its ids when it grows, and takes their hashes from
    /// `hash_of_record`; as the table requires, that gives each id the hash
    /// it was inserted with.
    #[verifier::external_body]
    pub fn insert_unique<K: Hash, V, S: BuildHasher + HashBuilderModel>(
        &mut self,
        hash: u64,
        id: DefaultKey,
        slots: &Slots<K, V>,
        hasher: &KeyHasher<K, S>,
    )
        requires
            obeys_key_model::<K>(),
            S::keeps_hashes(),
            !old(self)@.contains_key(id),
            forall|e: DefaultKey|
                #[trigger] old(self)@.contains_key(e) ==> slots@.contains_key(e) && old(self)@[e]
                    == hasher.hash_of(slots@[e].key),
        ensures
            final(self)@ == old(self)@.insert(id, hash),
    {
        self.raw.table.insert_unique(hash, id, |e| hash_of_record(hasher, slots, e));
    }
}

} // verus!
