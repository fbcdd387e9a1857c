//! The entry API of `SlotBimap`: one lookup by key, then inspect or fill.
use crate::bimap::SlotBimap;
use crate::keyhash::HashBuilderModel;
use crate::with_id::WithId;
use core::hash::{BuildHasher, Hash};
use slotmap::DefaultKey;
use vstd::prelude::*;

verus! {

/// A view into a single entry of a [`SlotBimap`], obtained from [`SlotBimap::entry`].
#[verifier::reject_recursive_types(K)]
#[verifier::reject_recursive_types(V)]
pub enum Entry<'a, K, V, S> {
    Occupied(OccupiedEntry<'a, K, V, S>),
    Vacant(VacantEntry<'a, K, V, S>),
}

/// An entry for a key that is already present in the store.
#[verifier::reject_recursive_types(K)]
#[verifier::reject_recursive_types(V)]
pub struct OccupiedEntry<'a, K, V, S> {
    /// The store borrowed for the entry's lifetime.
    store: &'a mut SlotBimap<K, V, S>,
    /// The id whose record holds the entry's key.
    id: DefaultKey,
}

/// An entry for a key that is not yet present in the store.
#[verifier::reject_recursive_types(K)]
#[verifier::reject_recursive_types(V)]
pub struct VacantEntry<'a, K, V, S> {
    /// The store borrowed for the entry's lifetime.
    store: &'a mut SlotBimap<K, V, S>,
    /// The hash of `key`, computed once by the lookup.
    hash: u64,
    /// The key that would be inserted.
    key: K,
}

impl<'a, K, V, S> OccupiedEntry<'a, K, V, S> {
    /// The store the entry borrows.
    pub closed spec fn spec_store(&self) -> &'a mut SlotBimap<K, V, S> {
        self.store
    }

    /// The id whose record holds the entry's key.
    pub closed spec fn spec_id(&self) -> DefaultKey {
        self.id
    }

    /// The store is well formed and holds the entry's id.
    pub open spec fn valid(&self) -> bool {
        self.spec_store().wf() && self.spec_store()@.contains_key(self.spec_id())
    }

    /// Returns the id of this entry.
    pub fn id(&self) -> (r: DefaultKey)
        ensures
            r == self.spec_id(),
    {
        self.id
    }
}

impl<'a, K: Hash + Eq, V, S: BuildHasher + HashBuilderModel> OccupiedEntry<'a, K, V, S> {
    /// Returns a reference to this entry's key.
    pub fn key(&self) -> (r: &K)
        requires
            self.valid(),
        ensures
            *r == self.spec_store()@[self.spec_id()].0,
    {
        self.store.get_key(self.id).unwrap()
    }

    /// Returns a reference to this entry's value.
    pub fn get(&self) -> (r: &V)
        requires
            self.valid(),
        ensures
            *r == self.spec_store()@[self.spec_id()].1,
    {
        self.store.get(self.id).unwrap()
    }

    /// Returns a mutable reference to this entry's value.
    pub fn get_mut(&mut self) -> (r: &mut V)
        requires
            old(self).valid(),
        ensures
            final(self).valid(),
            final(self).spec_id() == old(self).spec_id(),
            *final(final(self).spec_store()) == *final(old(self).spec_store()),
            (*old(self).spec_store()).same_history(*final(self).spec_store()),
            *r == old(self).spec_store()@[old(self).spec_id()].1,
            final(self).spec_store()@ == old(self).spec_store()@.insert(
                old(self).spec_id(),
                (old(self).spec_store()@[old(self).spec_id()].0, *final(r)),
            ),
    {
        self.store.get_mut(self.id).unwrap()
    }

    /// Converts the entry into a mutable reference to its value, bound to the
    /// store's lifetime.
    pub fn into_mut(self) -> (r: &'a mut V)
        requires
            self.valid(),
        ensures
            *r == self.spec_store()@[self.spec_id()].1,
            final(self.spec_store()).wf(),
            final(self.spec_store())@ == self.spec_store()@.insert(
                self.spec_id(),
                (self.spec_store()@[self.spec_id()].0, *final(r)),
            ),
            (*self.spec_store()).same_history(*final(self.spec_store())),
    {
        self.store.get_mut(self.id).unwrap()
    }

    /// Replaces this entry's value, returning the old one.
    pub fn insert(&mut self, value: V) -> (r: V)
        requires
            old(self).valid(),
        ensures
            final(self).valid(),
            final(self).spec_id() == old(self).spec_id(),
            *final(final(self).spec_store()) == *final(old(self).spec_store()),
            (*old(self).spec_store()).same_history(*final(self).spec_store()),
            r == old(self).spec_store()@[old(self).spec_id()].1,
            final(self).spec_store()@ == old(self).spec_store()@.insert(
                old(self).spec_id(),
                (old(self).spec_store()@[old(self).spec_id()].0, value),
            ),
    {
        let v = self.store.get_mut(self.id).unwrap();
        let mut value = value;
        std::mem::swap(v, &mut value);
        value
    }

    /// Removes the entry from the store, returning its value.
    pub fn remove(self) -> (r: V)
        requires
            self.valid(),
            SlotBimap::<K, V, S>::keys_behave(),
        ensures
            r == self.spec_store()@[self.spec_id()].1,
            final(self.spec_store()).wf(),
            final(self.spec_store())@ == self.spec_store()@.remove(self.spec_id()),
            (*self.spec_store()).same_history(*final(self.spec_store())),
    {
        self.store.remove(self.id).unwrap()
    }
}

impl<'a, K, V, S> VacantEntry<'a, K, V, S> {
    /// The store the entry borrows.
    pub closed spec fn spec_store(&self) -> &'a mut SlotBimap<K, V, S> {
        self.store
    }

    /// The hash of the entry's key, computed once by the lookup.
    pub closed spec fn spec_hash(&self) -> u64 {
        self.hash
    }

    /// The key that would be inserted.
    pub closed spec fn spec_key(&self) -> K {
        self.key
    }

    /// The store is well formed, does not hold the entry's key, and `hash`
    /// is what its hasher gives that key.
    pub open spec fn valid(&self) -> bool {
        &&& self.spec_store().wf()
        &&& !self.spec_store().holds_key(self.spec_key())
        &&& self.spec_hash() == self.spec_store().hash_for(self.spec_key())
    }

    /// Returns a reference to the key that would be inserted.
    pub fn key(&self) -> (r: &K)
        ensures
            *r == self.spec_key(),
    {
        &self.key
    }

    /// Takes ownership of the key, consuming the entry.
    pub fn into_key(self) -> (r: K)
        ensures
            r == self.spec_key(),
            *final(self.spec_store()) == *self.spec_store(),
    {
        self.key
    }
}

impl<'a, K: Hash + Eq, V, S: BuildHasher + HashBuilderModel> VacantEntry<'a, K, V, S> {
    /// Inserts `value` for the entry's key, returning a mutable reference to it
    /// alongside the freshly assigned id.
    pub fn insert(self, value: V) -> (r: WithId<&'a mut V, DefaultKey>)
        requires
            self.valid(),
            SlotBimap::<K, V, S>::keys_behave(),
            self.spec_store()@.len() + 1 < u32::MAX,
        ensures
            !self.spec_store()@.contains_key(r.spec_id()),
            *r.spec_value() == value,
            final(self.spec_store()).wf(),
            final(self.spec_store())@ == self.spec_store()@.insert(
                r.spec_id(),
                (self.spec_key(), *final(r.spec_value())),
            ),
            (*self.spec_store()).issues(*final(self.spec_store()), r.spec_id()),
    {
        let VacantEntry { store, hash, key } = self;
        let (id, v) = store.insert_vacant(hash, key, value);
        WithId::new(id, v)
    }
}

impl<'a, K, V, S> Entry<'a, K, V, S> {
    /// The entry came from a well-formed store, as `SlotBimap::entry` makes it.
    pub open spec fn valid(&self) -> bool {
        match self {
            Entry::Occupied(e) => e.valid(),
            Entry::Vacant(e) => e.valid(),
        }
    }

    /// The key this entry is for.
    pub open spec fn spec_key(&self) -> K {
        match self {
            Entry::Occupied(e) => e.spec_store()@[e.spec_id()].0,
            Entry::Vacant(e) => e.spec_key(),
        }
    }

    /// Filling the entry needs a fresh id: it is vacant, and the slot map
    /// has room for one more record.
    pub open spec fn can_fill(&self) -> bool {
        match self {
            Entry::Occupied(_) => true,
            Entry::Vacant(e) => e.spec_store()@.len() + 1 < u32::MAX,
        }
    }

    /// `after` is the store once the entry is filled: an occupied entry keeps
    /// its id and takes `value` as its value, a vacant one stores its key and
    /// `value` under `id`, which was free and is newly issued.
    pub open spec fn filled(&self, after: SlotBimap<K, V, S>, id: DefaultKey, value: V) -> bool {
        &&& after.wf()
        &&& match self {
            Entry::Occupied(e) => {
                &&& id == e.spec_id()
                &&& after@ == e.spec_store()@.insert(e.spec_id(), (e.spec_store()@[e.spec_id()].0, value))
                &&& (*e.spec_store()).same_history(after)
            },
            Entry::Vacant(e) => {
                &&& !e.spec_store()@.contains_key(id)
                &&& after@ == e.spec_store()@.insert(id, (e.spec_key(), value))
                &&& (*e.spec_store()).issues(after, id)
            },
        }
    }

    /// The value an occupied entry holds.
    pub open spec fn held_value(&self) -> V
        recommends
            self is Occupied,
    {
        match self {
            Entry::Occupied(e) => e.spec_store()@[e.spec_id()].1,
            Entry::Vacant(_) => arbitrary(),
        }
    }

    pub(crate) fn occupied(store: &'a mut SlotBimap<K, V, S>, id: DefaultKey) -> (r: Self)
        ensures
            r matches Entry::Occupied(e) && e.spec_id() == id && *e.spec_store() == *old(store) && *final(e.spec_store())
                == *final(store),
    {
        Entry::Occupied(OccupiedEntry { store, id })
    }

    pub(crate) fn vacant(store: &'a mut SlotBimap<K, V, S>, hash: u64, key: K) -> (r: Self)
        ensures
            r matches Entry::Vacant(e) && e.spec_hash() == hash && e.spec_key() == key && *e.spec_store() == *old(store)
                && *final(e.spec_store()) == *final(store),
    {
        Entry::Vacant(VacantEntry { store, hash, key })
    }

    /// Returns the id of this entry, or `None` if it is vacant.
    pub fn id(&self) -> (r: Option<DefaultKey>)
        ensures
            r == (match self {
                Entry::Occupied(e) => Some(e.spec_id()),
                Entry::Vacant(_) => None::<DefaultKey>,
            }),
    {
        match self {
            Entry::Occupied(e) => Some(e.id()),
            Entry::Vacant(_) => None,
        }
    }
}

impl<'a, K: Hash + Eq, V, S: BuildHasher + HashBuilderModel> Entry<'a, K, V, S> {
    /// Returns a reference to this entry's key.
    pub fn key(&self) -> (r: &K)
        requires
            self.valid(),
        ensures
            *r == self.spec_key(),
    {
        match self {
            Entry::Occupied(e) => e.key(),
            Entry::Vacant(e) => e.key(),
        }
    }

    /// Like [`or_insert_with`](Self::or_insert_with), but `f` receives a
    /// reference to the key being inserted.
    pub fn or_insert_with_key<F: FnOnce(&K) -> V>(self, f: F) -> (r: WithId<&'a mut V, DefaultKey>)
        requires
            self.valid(),
            self.can_fill(),
            SlotBimap::<K, V, S>::keys_behave(),
            self matches Entry::Vacant(e) ==> f.requires((&e.spec_key(),)),
        ensures
            match self {
                Entry::Occupied(e) => self.filled(*final(e.spec_store()), r.spec_id(), *final(r.spec_value())),
                Entry::Vacant(e) => self.filled(*final(e.spec_store()), r.spec_id(), *final(r.spec_value())),
            },
            self is Occupied ==> *r.spec_value() == self.held_value(),
            self matches Entry::Vacant(e) ==> f.ensures((&e.spec_key(),), *r.spec_value()),
    {
        match self {
            Entry::Occupied(e) => {
                let id = e.id();
                WithId::new(id, e.into_mut())
            },
            Entry::Vacant(e) => {
                let value = f(&e.key);
                e.insert(value)
            },
        }
    }

    /// Ensures the entry is occupied, inserting the result of `f` if it is
    /// vacant.
    pub fn or_insert_with<F: FnOnce() -> V>(self, f: F) -> (r: WithId<&'a mut V, DefaultKey>)
        requires
            self.valid(),
            self.can_fill(),
            SlotBimap::<K, V, S>::keys_behave(),
            self is Vacant ==> f.requires(()),
        ensures
            match self {
                Entry::Occupied(e) => self.filled(*final(e.spec_store()), r.spec_id(), *final(r.spec_value())),
                Entry::Vacant(e) => self.filled(*final(e.spec_store()), r.spec_id(), *final(r.spec_value())),
            },
            self is Occupied ==> *r.spec_value() == self.held_value(),
            self is Vacant ==> f.ensures((), *r.spec_value()),
    {
        let g = move |_key: &K| -> (v: V)
            requires
                f.requires(()),
            ensures
                f.ensures((), v),
        {
            f()
        };
        self.or_insert_with_key(g)
    }

    /// Ensures the entry is occupied, inserting `default` if it is vacant.
    pub fn or_insert(self, default: V) -> (r: WithId<&'a mut V, DefaultKey>)
        requires
            self.valid(),
            self.can_fill(),
            SlotBimap::<K, V, S>::keys_behave(),
        ensures
            match self {
                Entry::Occupied(e) => self.filled(*final(e.spec_store()), r.spec_id(), *final(r.spec_value())),
                Entry::Vacant(e) => self.filled(*final(e.spec_store()), r.spec_id(), *final(r.spec_value())),
            },
            self is Occupied ==> *r.spec_value() == self.held_value(),
            self is Vacant ==> *r.spec_value() == default,
    {
        let f = move || -> (v: V)
            ensures
                v == default,
        {
            default
        };
        self.or_insert_with(f)
    }

    /// Ensures the entry is occupied, inserting `V::default()` if it is vacant.
    pub fn or_default(self) -> (r: WithId<&'a mut V, DefaultKey>)
        where V: Default,
        requires
            self.valid(),
            self.can_fill(),
            SlotBimap::<K, V, S>::keys_behave(),
        ensures
            match self {
                Entry::Occupied(e) => self.filled(*final(e.spec_store()), r.spec_id(), *final(r.spec_value())),
                Entry::Vacant(e) => self.filled(*final(e.spec_store()), r.spec_id(), *final(r.spec_value())),
            },
            self is Occupied ==> *r.spec_value() == self.held_value(),
            self is Vacant ==> call_ensures(V::default, (), *r.spec_value()),
    {
        self.or_insert_with(V::default)
    }

    /// Like [`or_try_insert_with`](Self::or_try_insert_with), but `f`
    /// receives a reference to the key being inserted.
    pub fn or_try_insert_with_key<E, F: FnOnce(&K) -> Result<V, E>>(self, f: F) -> (r: Result<
        WithId<&'a mut V, DefaultKey>,
        E,
    >)
        requires
            self.valid(),
            SlotBimap::<K, V, S>::keys_behave(),
            self matches Entry::Vacant(e) ==> f.requires((&e.spec_key(),)),
            self matches Entry::Vacant(e) ==> (self.can_fill() || forall|res: Result<V, E>|
                #[trigger] f.ensures((&e.spec_key(),), res) ==> res is Err),
        ensures
            match r {
                Ok(w) => {
                    &&& match self {
                        Entry::Occupied(e) => self.filled(*final(e.spec_store()), w.spec_id(), *final(w.spec_value())),
                        Entry::Vacant(e) => self.filled(*final(e.spec_store()), w.spec_id(), *final(w.spec_value())),
                    }
                    &&& self is Occupied ==> *w.spec_value() == self.held_value()
                    &&& self matches Entry::Vacant(e) ==> f.ensures((&e.spec_key(),), Ok::<V, E>(*w.spec_value()))
                },
                Err(err) => {
                    &&& self matches Entry::Vacant(e)
                    &&& f.ensures((&e.spec_key(),), Err::<V, E>(err))
                    &&& *final(e.spec_store()) == *e.spec_store()
                },
            },
    {
        match self {
            Entry::Occupied(e) => {
                let id = e.id();
                Ok(WithId::new(id, e.into_mut()))
            },
            Entry::Vacant(e) => {
                match f(&e.key) {
                    Ok(value) => Ok(e.insert(value)),
                    Err(err) => Err(err),
                }
            },
        }
    }

    /// Ensures the entry is occupied, inserting the result of `f` if it is
    /// vacant. Nothing is inserted if `f` returns `Err`.
    pub fn or_try_insert_with<E, F: FnOnce() -> Result<V, E>>(self, f: F) -> (r: Result<
        WithId<&'a mut V, DefaultKey>,
        E,
    >)
        requires
            self.valid(),
            SlotBimap::<K, V, S>::keys_behave(),
            self is Vacant ==> f.requires(()),
            self is Vacant ==> (self.can_fill() || forall|res: Result<V, E>|
                #[trigger] f.ensures((), res) ==> res is Err),
        ensures
            match r {
                Ok(w) => {
                    &&& match self {
                        Entry::Occupied(e) => self.filled(*final(e.spec_store()), w.spec_id(), *final(w.spec_value())),
                        Entry::Vacant(e) => self.filled(*final(e.spec_store()), w.spec_id(), *final(w.spec_value())),
                    }
                    &&& self is Occupied ==> *w.spec_value() == self.held_value()
                    &&& self is Vacant ==> f.ensures((), Ok::<V, E>(*w.spec_value()))
                },
                Err(err) => {
                    &&& self matches Entry::Vacant(e)
                    &&& f.ensures((), Err::<V, E>(err))
                    &&& *final(e.spec_store()) == *e.spec_store()
                },
            },
    {
        let g = move |_key: &K| -> (v: Result<V, E>)
            requires
                f.requires(()),
            ensures
                f.ensures((), v),
        {
            f()
        };
        self.or_try_insert_with_key(g)
    }

    /// Runs `f` against the value if the entry is occupied, leaving a vacant
    /// entry untouched.
    pub fn and_modify<F: FnOnce(&mut V)>(self, f: F) -> (r: Self)
        requires
            self.valid(),
            self is Occupied ==> forall|v: &mut V| #[trigger] f.requires((v,)),
        ensures
            r.valid(),
            match self {
                Entry::Occupied(e) => {
                    &&& r matches Entry::Occupied(o)
                    &&& o.spec_id() == e.spec_id()
                    &&& *final(o.spec_store()) == *final(e.spec_store())
                    &&& (*e.spec_store()).same_history(*o.spec_store())
                    &&& exists|v: &mut V|
                        *v == e.spec_store()@[e.spec_id()].1 && #[trigger] f.ensures((v,), ()) && o.spec_store()@
                            == e.spec_store()@.insert(e.spec_id(), (e.spec_store()@[e.spec_id()].0, *final(v)))
                },
                Entry::Vacant(e) => {
                    &&& r matches Entry::Vacant(o)
                    &&& o.spec_key() == e.spec_key()
                    &&& o.spec_hash() == e.spec_hash()
                    &&& *o.spec_store() == *e.spec_store()
                    &&& *final(o.spec_store()) == *final(e.spec_store())
                },
            },
    {
        match self {
            Entry::Occupied(mut e) => {
                f(e.get_mut());
                Entry::Occupied(e)
            },
            Entry::Vacant(e) => Entry::Vacant(e),
        }
    }
}

/// An occupied entry that is dropped or left as it was hands its store back
/// unchanged.
pub broadcast proof fn lemma_occupied_resolved<'a, K, V, S>(e: OccupiedEntry<'a, K, V, S>)
    ensures
        #[trigger] has_resolved(e) ==> *final(e.spec_store()) == *e.spec_store(),
{
}

/// A vacant entry that is dropped or left as it was hands its store back
/// unchanged: looking a key up through `entry` inserts nothing by itself.
pub broadcast proof fn lemma_vacant_resolved<'a, K, V, S>(e: VacantEntry<'a, K, V, S>)
    ensures
        #[trigger] has_resolved(e) ==> *final(e.spec_store()) == *e.spec_store(),
{
}

/// An entry that is dropped or left as it was hands its store back unchanged.
pub broadcast proof fn lemma_entry_resolved<'a, K, V, S>(e: Entry<'a, K, V, S>)
    ensures
        #[trigger] has_resolved(e) ==> match e {
            Entry::Occupied(o) => *final(o.spec_store()) == *o.spec_store(),
            Entry::Vacant(v) => *final(v.spec_store()) == *v.spec_store(),
        },
{
}

/// Dropping an entry hands its store back as the entry left it.
pub broadcast group group_entry_resolved {
    lemma_occupied_resolved,
    lemma_vacant_resolved,
    lemma_entry_resolved,
}

impl<K: Hash + Eq, V, S: BuildHasher + HashBuilderModel> SlotBimap<K, V, S> {
    /// Gets the entry for `key`, computing the hash and lookup once so the
    /// result can be inspected or filled without a second probe.
    #[must_use]
    pub fn entry(&mut self, key: K) -> (r: Entry<'_, K, V, S>)
        requires
            old(self).wf(),
            Self::keys_behave(),
        ensures
            r.valid(),
            match r {
                Entry::Occupied(e) => {
                    &&& old(self).id_of(key) == Some(e.spec_id())
                    &&& *e.spec_store() == *old(self)
                    &&& *final(e.spec_store()) == *final(self)
                },
                Entry::Vacant(e) => {
                    &&& old(self).id_of(key) is None
                    &&& e.spec_key() == key
                    &&& *e.spec_store() == *old(self)
                    &&& *final(e.spec_store()) == *final(self)
                },
            },
    {
        let hash = self.hash_key(&key);
        match self.get_id_hashed(&key, hash) {
            Some(id) => Entry::occupied(self, id),
            None => Entry::vacant(self, hash, key),
        }
    }

    /// Returns the value associated with `key`, inserting the result of `f` if
    /// it is not already present. `f` is only called on insertion.
    pub fn get_or_insert_with<F: FnOnce() -> V>(&mut self, key: K, f: F) -> (r: WithId<&mut V, DefaultKey>)
        requires
            old(self).wf(),
            Self::keys_behave(),
            old(self).holds_key(key) || (old(self)@.len() + 1 < u32::MAX && f.requires(())),
        ensures
            old(self).filled_by(*final(self), key, r.spec_id(), *final(r.spec_value())),
            old(self).holds_key(key) ==> *r.spec_value() == old(self)@[r.spec_id()].1,
            !old(self).holds_key(key) ==> f.ensures((), *r.spec_value()),
    {
        self.entry(key).or_insert_with(f)
    }

    /// Like [`get_or_insert_with`](Self::get_or_insert_with), but `f` receives a
    /// reference to the key being inserted.
    pub fn get_or_insert_with_key<F: FnOnce(&K) -> V>(&mut self, key: K, f: F) -> (r: WithId<&mut V, DefaultKey>)
        requires
            old(self).wf(),
            Self::keys_behave(),
            old(self).holds_key(key) || (old(self)@.len() + 1 < u32::MAX && f.requires((&key,))),
        ensures
            old(self).filled_by(*final(self), key, r.spec_id(), *final(r.spec_value())),
            old(self).holds_key(key) ==> *r.spec_value() == old(self)@[r.spec_id()].1,
            !old(self).holds_key(key) ==> f.ensures((&key,), *r.spec_value()),
    {
        self.entry(key).or_insert_with_key(f)
    }

    /// Returns the value associated with `key`, inserting `value` if it is not
    /// already present.
    pub fn get_or_insert(&mut self, key: K, value: V) -> (r: WithId<&mut V, DefaultKey>)
        requires
            old(self).wf(),
            Self::keys_behave(),
            old(self).holds_key(key) || old(self)@.len() + 1 < u32::MAX,
        ensures
            old(self).filled_by(*final(self), key, r.spec_id(), *final(r.spec_value())),
            old(self).holds_key(key) ==> *r.spec_value() == old(self)@[r.spec_id()].1,
            !old(self).holds_key(key) ==> *r.spec_value() == value,
    {
        self.entry(key).or_insert(value)
    }

    /// Returns the value associated with `key`, inserting `V::default()` if it
    /// is not already present.
    pub fn get_or_insert_default(&mut self, key: K) -> (r: WithId<&mut V, DefaultKey>)
        where V: Default,
        requires
            old(self).wf(),
            Self::keys_behave(),
            old(self).holds_key(key) || old(self)@.len() + 1 < u32::MAX,
        ensures
            old(self).filled_by(*final(self), key, r.spec_id(), *final(r.spec_value())),
            old(self).holds_key(key) ==> *r.spec_value() == old(self)@[r.spec_id()].1,
            !old(self).holds_key(key) ==> call_ensures(V::default, (), *r.spec_value()),
    {
        self.entry(key).or_default()
    }

    /// Returns the id associated with `key`, inserting the result of `f` if it
    /// is not already present.
    pub fn get_or_insert_id_with<F: FnOnce() -> V>(&mut self, key: K, f: F) -> (r: DefaultKey)
        requires
            old(self).wf(),
            Self::keys_behave(),
            old(self).holds_key(key) || (old(self)@.len() + 1 < u32::MAX && f.requires(())),
        ensures
            final(self).wf(),
            match old(self).id_of(key) {
                Some(id) => r == id && final(self)@ == old(self)@,
                None => {
                    &&& !old(self)@.contains_key(r)
                    &&& exists|v: V| #[trigger] f.ensures((), v) && final(self)@ == old(self)@.insert(r, (key, v))
                },
            },
    {
        let w = self.entry(key).or_insert_with(f);
        let id = w.id();
        let value = w.into_value();
        proof {
            let v = *value;
            assert(*final(value) == v);
            if !old(self).holds_key(key) {
                assert(f.ensures((), v));
            }
        }
        id
    }

    /// Returns the value associated with `key`, inserting the result of `f` if
    /// it is not already present. `f` is only called on insertion, and nothing
    /// is inserted if it returns `Err`.
    pub fn get_or_try_insert_with<E, F: FnOnce() -> Result<V, E>>(&mut self, key: K, f: F) -> (r: Result<
        WithId<&mut V, DefaultKey>,
        E,
    >)
        requires
            old(self).wf(),
            Self::keys_behave(),
            old(self).holds_key(key) || f.requires(()),
            old(self).holds_key(key) || old(self)@.len() + 1 < u32::MAX || forall|res: Result<V, E>|
                #[trigger] f.ensures((), res) ==> res is Err,
        ensures
            match r {
                Ok(w) => {
                    &&& old(self).filled_by(*final(self), key, w.spec_id(), *final(w.spec_value()))
                    &&& old(self).holds_key(key) ==> *w.spec_value() == old(self)@[w.spec_id()].1
                    &&& !old(self).holds_key(key) ==> f.ensures((), Ok::<V, E>(*w.spec_value()))
                },
                Err(err) => {
                    &&& !old(self).holds_key(key)
                    &&& f.ensures((), Err::<V, E>(err))
                    &&& *final(self) == *old(self)
                },
            },
    {
        self.entry(key).or_try_insert_with(f)
    }

    /// Like [`get_or_try_insert_with`](Self::get_or_try_insert_with), but `f`
    /// receives a reference to the key being inserted.
    pub fn get_or_try_insert_with_key<E, F: FnOnce(&K) -> Result<V, E>>(&mut self, key: K, f: F) -> (r: Result<
        WithId<&mut V, DefaultKey>,
        E,
    >)
        requires
            old(self).wf(),
            Self::keys_behave(),
            old(self).holds_key(key) || f.requires((&key,)),
            old(self).holds_key(key) || old(self)@.len() + 1 < u32::MAX || forall|res: Result<V, E>|
                #[trigger] f.ensures((&key,), res) ==> res is Err,
        ensures
            match r {
                Ok(w) => {
                    &&& old(self).filled_by(*final(self), key, w.spec_id(), *final(w.spec_value()))
                    &&& old(self).holds_key(key) ==> *w.spec_value() == old(self)@[w.spec_id()].1
                    &&& !old(self).holds_key(key) ==> f.ensures((&key,), Ok::<V, E>(*w.spec_value()))
                },
                Err(err) => {
                    &&& !old(self).holds_key(key)
                    &&& f.ensures((&key,), Err::<V, E>(err))
                    &&& *final(self) == *old(self)
                },
            },
    {
        self.entry(key).or_try_insert_with_key(f)
    }

    /// Returns the id associated with `key`, inserting the result of `f` if it
    /// is not already present. Nothing is inserted if `f` returns `Err`.
    pub fn get_or_try_insert_id_with<E, F: FnOnce() -> Result<V, E>>(&mut self, key: K, f: F) -> (r: Result<
        DefaultKey,
        E,
    >)
        requires
            old(self).wf(),
            Self::keys_behave(),
            old(self).holds_key(key) || f.requires(()),
            old(self).holds_key(key) || old(self)@.len() + 1 < u32::MAX || forall|res: Result<V, E>|
                #[trigger] f.ensures((), res) ==> res is Err,
        ensures
            final(self).wf(),
            match r {
                Ok(id) => match old(self).id_of(key) {
                    Some(i) => id == i && final(self)@ == old(self)@,
                    None => {
                        &&& !old(self)@.contains_key(id)
                        &&& exists|v: V|
                            #[trigger] f.ensures((), Ok::<V, E>(v)) && final(self)@ == old(self)@.insert(id, (key, v))
                    },
                },
                Err(err) => {
                    &&& !old(self).holds_key(key)
                    &&& f.ensures((), Err::<V, E>(err))
                    &&& final(self)@ == old(self)@
                },
            },
    {
        match self.entry(key).or_try_insert_with(f) {
            Ok(w) => {
                let id = w.id();
                let value = w.into_value();
                proof {
                    let v = *value;
                    assert(*final(value) == v);
                    if !old(self).holds_key(key) {
                        assert(f.ensures((), Ok::<V, E>(v)));
                    }
                }
                Ok(id)
            },
            Err(err) => Err(err),
        }
    }
}

} // verus!
