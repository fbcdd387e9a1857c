//! `SlotBimap`: records in a slot map, indexed by the hash of their keys.
use crate::index::{Index, Probe};
use crate::keyhash::{HashBuilderModel, KeyHasher};
use crate::store::{refilled, Record, Slots};
use crate::with_id::WithId;
use core::hash::{BuildHasher, Hash};
use hashbrown::DefaultHashBuilder;
use slotmap::DefaultKey;
use vstd::laws_eq::obeys_concrete_eq;
use vstd::prelude::*;
use vstd::std_specs::hash::obeys_key_model;

verus! {

/// Bidirectional `key <-> id` store.
///
/// Its contents are a map from id to `(key, value)` in which no key occurs
/// twice; lookups by id go to the slot map, lookups by key through the hash
/// index.
#[verifier::reject_recursive_types(K)]
#[verifier::reject_recursive_types(V)]
pub struct SlotBimap<K, V, S = DefaultHashBuilder> {
    data: Slots<K, V>,
    index: Index,
    hasher: KeyHasher<K, S>,
}

impl<K, V, S> View for SlotBimap<K, V, S> {
    type V = Map<DefaultKey, (K, V)>;

    /// Each id held, with its key and value.
    closed spec fn view(&self) -> Map<DefaultKey, (K, V)> {
        Map::new(
            |id: DefaultKey| self.data@.contains_key(id),
            |id: DefaultKey| (self.data@[id].key, self.data@[id].value),
        )
    }
}

impl<K, V, S> SlotBimap<K, V, S> {
    /// Whether some id holds `key`.
    pub open spec fn holds_key(self, key: K) -> bool {
        exists|id: DefaultKey| self@.contains_key(id) && self@[id].0 == key
    }

    /// The id that holds `key`, if any.
    pub open spec fn id_of(self, key: K) -> Option<DefaultKey> {
        if self.holds_key(key) {
            Some(choose|id: DefaultKey| self@.contains_key(id) && self@[id].0 == key)
        } else {
            None
        }
    }

    /// For every id this store has handed out, held or removed since, the
    /// slot of the slot map it names.
    pub closed spec fn slot_of(&self) -> Map<DefaultKey, nat> {
        self.data.slot_of()
    }

    /// For every id this store has handed out, how many times its slot has
    /// been filled since.
    pub closed spec fn refills(&self) -> Map<DefaultKey, nat> {
        self.data.refills()
    }

    /// Every id this store has handed out, held or removed since.
    pub open spec fn issued(&self) -> Set<DefaultKey> {
        self.refills().dom()
    }

    /// `after` has the same history of ids as this store.
    pub open spec fn same_history(self, after: Self) -> bool {
        after.slot_of() == self.slot_of() && after.refills() == self.refills()
    }

    /// `after` is this store having handed out `id`, in some slot, for one
    /// more entry: the other ids of that slot count one more refill, and `id`
    /// was handed out before only if its slot has been filled 2^31 times since
    /// (when its generation wraps around).
    pub open spec fn issues(self, after: Self, id: DefaultKey) -> bool {
        &&& after.slot_of() == self.slot_of().insert(id, after.slot_of()[id])
        &&& after.refills() == refilled(self.refills(), self.slot_of(), id, after.slot_of()[id])
        &&& self.issued().contains(id) ==> after.slot_of()[id] == self.slot_of()[id]
        &&& self.issued().contains(id) ==> self.refills()[id] + 1 >= 0x8000_0000
    }

    /// `after` is this store once `key` has been given a value: the id that
    /// held `key` keeps it, with `value` as its value; if none did, `key` and
    /// `value` are stored under `id`, which was free and is newly issued.
    pub open spec fn filled_by(self, after: Self, key: K, id: DefaultKey, value: V) -> bool {
        &&& after.wf()
        &&& match self.id_of(key) {
            Some(i) => {
                &&& id == i
                &&& after@ == self@.insert(i, (self@[i].0, value))
                &&& self.same_history(after)
            },
            None => {
                &&& !self@.contains_key(id)
                &&& after@ == self@.insert(id, (key, value))
                &&& self.issues(after, id)
            },
        }
    }

    /// The hash that this store's hasher gives `key`.
    pub closed spec fn hash_for(&self, key: K) -> u64 {
        self.hasher.hash_of(key)
    }

    /// The store's invariant: every id held was handed out by the slot map, the
    /// index holds exactly the ids of the records, each under the hash of its
    /// record's key, and no key is held twice.
    pub closed spec fn wf(&self) -> bool {
        &&& self.data@.dom().finite()
        &&& self.data@.dom().subset_of(self.data.issued())
        &&& self.data.slot_of().dom() == self.data.issued()
        &&& forall|id: DefaultKey|
            #![trigger self.index@.contains_key(id)]
            #![trigger self.data@.contains_key(id)]
            self.index@.contains_key(id) <==> self.data@.contains_key(id)
        &&& forall|id: DefaultKey|
            #[trigger] self.index@.contains_key(id) ==> self.index@[id] == self.hasher.hash_of(
                self.data@[id].key,
            )
        &&& forall|i: DefaultKey, j: DefaultKey|
            #![trigger self.data@[i], self.data@[j]]
            self.data@.contains_key(i) && self.data@.contains_key(j) && self.data@[i].key
                == self.data@[j].key ==> i == j
    }

    /// No key is held by two ids.
    pub proof fn law_keys_unique(&self, i: DefaultKey, j: DefaultKey)
        requires
            self.wf(),
            self@.contains_key(i),
            self@.contains_key(j),
            self@[i].0 == self@[j].0,
        ensures
            i == j,
    {
        assert(self.data@[i].key == self@[i].0);
        assert(self.data@[j].key == self@[j].0);
    }

    /// Looking up the key that an id holds gives back that id: `get_id` undoes
    /// `get_key`.
    pub proof fn law_id_of_key(&self, id: DefaultKey, key: K)
        requires
            self.wf(),
            self@.contains_key(id),
            self@[id].0 == key,
        ensures
            self.id_of(key) == Some(id),
    {
        assert(self.holds_key(key));
        let c = choose|c: DefaultKey| self@.contains_key(c) && self@[c].0 == key;
        self.law_keys_unique(c, id);
    }

    /// A well-formed store holds finitely many entries.
    pub proof fn lemma_finite(&self)
        requires
            self.wf(),
        ensures
            self@.dom().finite(),
    {
        self.lemma_len();
    }

    /// The entries are as many as the records.
    proof fn lemma_len(&self)
        requires
            self.wf(),
        ensures
            self@.len() == self.data@.len(),
            self@.dom().finite(),
    {
        assert(self@.dom() =~= self.data@.dom());
    }

    /// Builds an empty store with a default hasher.
    fn with_default_hasher() -> (r: Self)
        where S: Default,
        ensures
            r.wf(),
            r@ =~= Map::empty(),
            r.slot_of() =~= Map::empty(),
            r.refills() =~= Map::empty(),
    {
        let r = SlotBimap { data: Slots::new(), index: Index::new(), hasher: KeyHasher::new() };
        assert(r.data@.dom() =~= Set::empty());
        r
    }
}

impl<K, V, S: Default> Default for SlotBimap<K, V, S> {
    /// An empty store with a default hasher.
    fn default() -> (r: Self)
        ensures
            r.wf(),
            r@ =~= Map::empty(),
            r.slot_of() =~= Map::empty(),
            r.refills() =~= Map::empty(),
    {
        Self::with_default_hasher()
    }
}

impl<K: Hash + Eq, V, S: BuildHasher + HashBuilderModel> SlotBimap<K, V, S> {
    /// The model of keys and hashers that lookups by key rest on: `==` on
    /// keys is equality, and hashing a key is deterministic for one builder
    /// instance (the contracts of `Eq`, `Hash` and `BuildHasher`).
    pub open spec fn keys_behave() -> bool {
        &&& obeys_concrete_eq::<K>()
        &&& obeys_key_model::<K>()
        &&& S::keeps_hashes()
    }

    /// Creates an empty [`SlotBimap`] with a default hasher.
    #[must_use]
    pub fn new() -> (r: Self)
        where S: Default,
        ensures
            r.wf(),
            r@ =~= Map::empty(),
            r.slot_of() =~= Map::empty(),
            r.refills() =~= Map::empty(),
    {
        Self::with_default_hasher()
    }

    /// The hash of `key`.
    pub(crate) fn hash_key(&self, key: &K) -> (r: u64)
        requires
            Self::keys_behave(),
        ensures
            r == self.hash_for(*key),
    {
        self.hasher.hash(key)
    }

    /// Returns the id associated with `key`, given its precomputed `hash`.
    pub(crate) fn get_id_hashed(&self, key: &K, hash: u64) -> (r: Option<DefaultKey>)
        requires
            self.wf(),
            Self::keys_behave(),
            hash == self.hash_for(*key),
        ensures
            r == self.id_of(*key),
    {
        let probe = Probe::Key(key);
        let r = self.index.find(hash, &self.data, &probe);
        proof {
            match r {
                Some(id) => {
                    self.law_id_of_key(id, *key);
                },
                None => {
                    if self.holds_key(*key) {
                        let w = choose|w: DefaultKey| self@.contains_key(w) && self@[w].0 == *key;
                        assert(self.index@.contains_key(w));
                        assert(self.index@[w] == hash);
                        assert(probe.matches(self.data@, w));
                    }
                },
            }
        }
        r
    }

    /// Returns the id associated with `key`, if any.
    #[must_use]
    pub fn get_id(&self, key: &K) -> (r: Option<DefaultKey>)
        requires
            self.wf(),
            Self::keys_behave(),
        ensures
            r == self.id_of(*key),
    {
        let hash = self.hasher.hash(key);
        self.get_id_hashed(key, hash)
    }

    /// Returns the key associated with `id`, if any.
    #[must_use]
    pub fn get_key(&self, id: DefaultKey) -> (r: Option<&K>)
        requires
            self.wf(),
        ensures
            match r {
                Some(k) => self@.contains_key(id) && *k == self@[id].0,
                None => !self@.contains_key(id),
            },
    {
        match self.data.get(id) {
            Some(rec) => Some(&rec.key),
            None => None,
        }
    }

    /// Inserts a `key`-`value` pair into the map and returns its id.
    ///
    /// If `key` is already present, its value is replaced and the previous
    /// value is returned alongside the existing id. Otherwise a new entry is
    /// created and `None` is returned alongside the freshly allocated id.
    pub fn insert(&mut self, key: K, value: V) -> (r: WithId<Option<V>, DefaultKey>)
        requires
            old(self).wf(),
            Self::keys_behave(),
            old(self).holds_key(key) || old(self)@.len() + 1 < u32::MAX,
        ensures
            final(self).wf(),
            old(self).filled_by(*final(self), key, r.spec_id(), value),
            r.spec_value() == (match old(self).id_of(key) {
                Some(id) => Some(old(self)@[id].1),
                None => None::<V>,
            }),
    {
        let hash = self.hasher.hash(&key);
        match self.get_id_hashed(&key, hash) {
            Some(id) => {
                let ghost pre = *self;
                let rec = self.data.get_mut(id).unwrap();
                let old_value = rec.replace_value(value);
                proof {
                    assert(self.data@ =~= pre.data@.insert(id, Record { key: pre.data@[id].key, value }));
                    assert(self@ =~= pre@.insert(id, (pre@[id].0, value)));
                }
                WithId::new(id, Some(old_value))
            },
            None => {
                let r = self.insert_vacant(hash, key, value);
                WithId::new(r.0, None)
            },
        }
    }

    /// Stores `key` and `value` under a fresh id, for a `key` that is not
    /// held and whose hash is `hash`; returns the id and the stored value.
    pub(crate) fn insert_vacant(&mut self, hash: u64, key: K, value: V) -> (r: (DefaultKey, &mut V))
        requires
            old(self).wf(),
            Self::keys_behave(),
            !old(self).holds_key(key),
            old(self)@.len() + 1 < u32::MAX,
            hash == old(self).hash_for(key),
        ensures
            final(self).wf(),
            !old(self)@.contains_key(r.0),
            *r.1 == value,
            final(self)@ == old(self)@.insert(r.0, (key, *final(r.1))),
            old(self).issues(*final(self), r.0),
    {
        let ghost pre = *self;
        proof {
            self.lemma_len();
        }
        let id = self.data.insert(Record { key, value });
        self.index.insert_unique(hash, id, &self.data, &self.hasher);
        proof {
            assert forall|i: DefaultKey, j: DefaultKey|
                self.data@.contains_key(i) && self.data@.contains_key(j) && #[trigger] self.data@[i].key
                    == #[trigger] self.data@[j].key implies i == j by {
                if i == id && j != id {
                    assert(pre@.contains_key(j) && pre@[j].0 == key);
                } else if j == id && i != id {
                    assert(pre@.contains_key(i) && pre@[i].0 == key);
                }
            }
            assert(self.data@.dom() =~= pre.data@.dom().insert(id));
            assert(self.data.issued() =~= pre.data.issued().insert(id));
            assert(self.data.slot_of().dom() =~= self.data.issued());
        }
        let rec = self.data.get_mut(id).unwrap();
        let v = &mut rec.value;
        proof {
            assert(after_borrow(*self)@ =~= pre@.insert(id, (key, *final(v))));
        }
        (id, v)
    }

    /// Removes the entry identified by `id`, returning its value if present.
    pub fn remove(&mut self, id: DefaultKey) -> (r: Option<V>)
        requires
            old(self).wf(),
            Self::keys_behave(),
        ensures
            final(self).wf(),
            r == (if old(self)@.contains_key(id) { Some(old(self)@[id].1) } else { None }),
            final(self)@ == old(self)@.remove(id),
            old(self).same_history(*final(self)),
    {
        let ghost pre = *self;
        let record = match self.data.remove(id) {
            Some(record) => record,
            None => {
                proof {
                    assert(self@ =~= pre@.remove(id));
                }
                return None;
            },
        };
        let hash = self.hasher.hash(&record.key);
        let probe: Probe<K> = Probe::Id(id);
        let removed = self.index.remove(hash, &self.data, &probe);
        proof {
            assert(pre.index@.contains_key(id));
            if removed is None {
                assert(probe.matches(self.data@, id));
            }
            assert(self.index@ =~= pre.index@.remove(id));
            assert(self@ =~= pre@.remove(id));
            assert(self.data@.dom() =~= pre.data@.dom().remove(id));
        }
        Some(record.value)
    }

    /// Removes the entry associated with `key`, returning its value if present.
    pub fn remove_by_key(&mut self, key: &K) -> (r: Option<V>)
        requires
            old(self).wf(),
            Self::keys_behave(),
        ensures
            final(self).wf(),
            match old(self).id_of(*key) {
                Some(id) => r == Some(old(self)@[id].1) && final(self)@ == old(self)@.remove(id),
                None => r is None && final(self)@ == old(self)@,
            },
            old(self).same_history(*final(self)),
    {
        let ghost pre = *self;
        let hash = self.hasher.hash(key);
        let probe = Probe::Key(key);
        let id = match self.index.remove(hash, &self.data, &probe) {
            Some(id) => id,
            None => {
                proof {
                    if pre.holds_key(*key) {
                        let w = choose|w: DefaultKey| pre@.contains_key(w) && pre@[w].0 == *key;
                        assert(pre.index@.contains_key(w));
                        assert(probe.matches(pre.data@, w));
                    }
                }
                return None;
            },
        };
        proof {
            pre.law_id_of_key(id, *key);
        }
        let record = match self.data.remove(id) {
            Some(record) => record,
            None => {
                proof {
                    assert(false);
                }
                return None;
            },
        };
        proof {
            assert(self.index@ =~= pre.index@.remove(id));
            assert(self@ =~= pre@.remove(id));
            assert(self.data@.dom() =~= pre.data@.dom().remove(id));
        }
        Some(record.value)
    }

    /// Returns a reference to the value identified by `id`, if present.
    #[must_use]
    pub fn get(&self, id: DefaultKey) -> (r: Option<&V>)
        requires
            self.wf(),
        ensures
            match r {
                Some(v) => self@.contains_key(id) && *v == self@[id].1,
                None => !self@.contains_key(id),
            },
    {
        match self.data.get(id) {
            Some(rec) => Some(&rec.value),
            None => None,
        }
    }

    /// Returns a mutable reference to the value identified by `id`, if present.
    #[must_use]
    pub fn get_mut(&mut self, id: DefaultKey) -> (r: Option<&mut V>)
        requires
            old(self).wf(),
        ensures
            final(self).wf(),
            match r {
                Some(v) => {
                    &&& old(self)@.contains_key(id)
                    &&& *v == old(self)@[id].1
                    &&& final(self)@ == old(self)@.insert(id, (old(self)@[id].0, *final(v)))
                },
                None => !old(self)@.contains_key(id) && final(self)@ == old(self)@,
            },
            old(self).same_history(*final(self)),
    {
        match self.data.get_mut(id) {
            Some(rec) => Some(&mut rec.value),
            None => None,
        }
    }

    /// Returns the value associated with `key` along with its id, if present.
    #[must_use]
    pub fn get_by_key(&self, key: &K) -> (r: Option<WithId<&V, DefaultKey>>)
        requires
            self.wf(),
            Self::keys_behave(),
        ensures
            match self.id_of(*key) {
                Some(id) => r is Some && r->0.spec_id() == id && *r->0.spec_value() == self@[id].1,
                None => r is None,
            },
    {
        let id = match self.get_id(key) {
            Some(id) => id,
            None => return None,
        };
        match self.data.get(id) {
            Some(rec) => Some(WithId::new(id, &rec.value)),
            None => None,
        }
    }

    /// Returns a mutable reference to the value associated with `key` along
    /// with its id, if present.
    #[must_use]
    pub fn get_mut_by_key(&mut self, key: &K) -> (r: Option<WithId<&mut V, DefaultKey>>)
        requires
            old(self).wf(),
            Self::keys_behave(),
        ensures
            final(self).wf(),
            match old(self).id_of(*key) {
                Some(id) => {
                    &&& r is Some
                    &&& r->0.spec_id() == id
                    &&& *r->0.spec_value() == old(self)@[id].1
                    &&& final(self)@ == old(self)@.insert(id, (old(self)@[id].0, *final(r->0.spec_value())))
                },
                None => r is None && final(self)@ == old(self)@,
            },
            old(self).same_history(*final(self)),
    {
        let id = match self.get_id(key) {
            Some(id) => id,
            None => return None,
        };
        match self.data.get_mut(id) {
            Some(rec) => Some(WithId::new(id, &mut rec.value)),
            None => None,
        }
    }

    /// Returns `true` if the map contains a value for the given `id`.
    #[must_use]
    pub fn contains(&self, id: DefaultKey) -> (r: bool)
        requires
            self.wf(),
        ensures
            r == self@.contains_key(id),
    {
        self.data.contains(id)
    }

    /// Returns `true` if the map contains a value for the given `key`.
    #[must_use]
    pub fn contains_key(&self, key: &K) -> (r: bool)
        requires
            self.wf(),
            Self::keys_behave(),
        ensures
            r == self.holds_key(*key),
    {
        self.get_id(key).is_some()
    }

    /// Returns the number of entries in the map.
    #[must_use]
    pub fn len(&self) -> (r: usize)
        requires
            self.wf(),
        ensures
            r == self@.len(),
    {
        proof {
            self.lemma_len();
        }
        self.data.len()
    }

    /// Returns `true` if the map contains no entries.
    #[must_use]
    pub fn is_empty(&self) -> (r: bool)
        requires
            self.wf(),
        ensures
            r == (self@.len() == 0),
    {
        proof {
            self.lemma_len();
        }
        self.data.is_empty()
    }
}

} // verus!
