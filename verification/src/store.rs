//! The records of a `SlotBimap`, held in a slot map keyed by `DefaultKey`.
//!
//! `Slots` pairs the slot map with ghost values that stand for its contents
//! and its history: for every id it has handed out, the slot (index) the id
//! names, and how many times that slot has been filled again since. Only the
//! functions of this module touch these fields, and each of them states how a
//! slot map call changes them.
use slotmap::{DefaultKey, SlotMap};
use vstd::prelude::*;

verus! {

/// The value actually stored for each id: the interned key and its value.
#[derive(Debug)]
pub struct Record<K, V> {
    pub key: K,
    pub value: V,
}

impl<K, V> Record<K, V> {
    /// Replaces the value, returning the previous one; the key is kept.
    pub fn replace_value(&mut self, value: V) -> (r: V)
        ensures
            r == old(self).value,
            final(self).key == old(self).key,
            final(self).value == value,
    {
        let mut value = value;
        std::mem::swap(&mut self.value, &mut value);
        value
    }
}

/// The slot map itself, kept out of Verus's sight (its key type is bounded by
/// a trait of the slot map crate).
#[verifier::external_body]
#[verifier::reject_recursive_types(K)]
#[verifier::reject_recursive_types(V)]
struct RawSlots<K, V> {
    map: SlotMap<DefaultKey, Record<K, V>>,
}

/// The refill counts once `id`, naming `slot`, has been handed out: `id` starts
/// again from none, and every other id naming `slot` counts one more.
pub open spec fn refilled(
    refills: Map<DefaultKey, nat>,
    slot_of: Map<DefaultKey, nat>,
    id: DefaultKey,
    slot: nat,
) -> Map<DefaultKey, nat> {
    Map::new(
        |j: DefaultKey| refills.contains_key(j) || j == id,
        |j: DefaultKey|
            if j == id {
                0
            } else if slot_of[j] == slot {
                refills[j] + 1
            } else {
                refills[j]
            },
    )
}

/// A slot map of records together with the map from id to record that it
/// holds, the ids it has handed out, and the number of records inserted.
#[verifier::reject_recursive_types(K)]
#[verifier::reject_recursive_types(V)]
pub struct Slots<K, V> {
    raw: RawSlots<K, V>,
    contents: Ghost<Map<DefaultKey, Record<K, V>>>,
    slots: Ghost<Map<DefaultKey, nat>>,
    refills: Ghost<Map<DefaultKey, nat>>,
}

impl<K, V> View for Slots<K, V> {
    type V = Map<DefaultKey, Record<K, V>>;

    closed spec fn view(&self) -> Map<DefaultKey, Record<K, V>> {
        self.contents@
    }
}

impl<K, V> Slots<K, V> {
    /// For every id the slot map has handed out, held or removed since, the
    /// slot it names.
    pub closed spec fn slot_of(&self) -> Map<DefaultKey, nat> {
        self.slots@
    }

    /// For every id the slot map has handed out, how many times its slot has
    /// been filled since the id was handed out.
    pub closed spec fn refills(&self) -> Map<DefaultKey, nat> {
        self.refills@
    }

    /// Every id the slot map has handed out.
    pub open spec fn issued(&self) -> Set<DefaultKey> {
        self.refills().dom()
    }

    /// `SlotMap::with_key`: an empty slot map, which has handed out nothing.
    #[verifier::external_body]
    pub fn new() -> (r: Slots<K, V>)
        ensures
            r@ =~= Map::empty(),
            r.slot_of() =~= Map::empty(),
            r.refills() =~= Map::empty(),
    {
        Slots {
            raw: RawSlots { map: SlotMap::with_key() },
            contents: Ghost(Map::empty()),
            slots: Ghost(Map::empty()),
            refills: Ghost(Map::empty()),
        }
    }

    /// `SlotMap::len`: the number of records held.
    #[verifier::external_body]
    pub fn len(&self) -> (r: usize)
        ensures
            r == self@.len(),
    {
        self.raw.map.len()
    }

    /// `SlotMap::is_empty`: whether no record is held.
    #[verifier::external_body]
    pub fn is_empty(&self) -> (r: bool)
        ensures
            r == (self@.len() == 0),
    {
        self.raw.map.is_empty()
    }

    /// `SlotMap::contains_key`: whether `id` names a record held.
    #[verifier::external_body]
    pub fn contains(&self, id: DefaultKey) -> (r: bool)
        ensures
            r == self@.contains_key(id),
    {
        self.raw.map.contains_key(id)
    }

    /// `SlotMap::get`: the record named by `id`, if it is held.
    #[verifier::external_body]
    pub fn get(&self, id: DefaultKey) -> (r: Option<&Record<K, V>>)
        ensures
            match r {
                Some(rec) => self@.contains_key(id) && *rec == self@[id],
                None => !self@.contains_key(id),
            },
    {
        self.raw.map.get(id)
    }

    /// `SlotMap::get_mut`: a mutable reference to the record named by `id`,
    /// if it is held. Whatever is written through it becomes the record.
    #[verifier::external_body]
    pub fn get_mut(&mut self, id: DefaultKey) -> (r: Option<&mut Record<K, V>>)
        ensures
            match r {
                Some(rec) => {
                    &&& old(self)@.contains_key(id)
                    &&& *rec == old(self)@[id]
                    &&& final(self)@ == old(self)@.insert(id, *final(rec))
                },
                None => !old(self)@.contains_key(id) && final(self)@ == old(self)@,
            },
            final(self).slot_of() == old(self).slot_of(),
            final(self).refills() == old(self).refills(),
    {
        self.raw.map.get_mut(id)
    }

    /// `SlotMap::insert`: stores `rec` under an id that no record held has,
    /// and returns that id. The slot map panics when it already holds
    /// `u32::MAX - 1` records, so that is left out.
    ///
    /// An id is a slot index and a version; the version of a slot grows by
    /// two each time the slot is filled again, and wraps around after 2^31
    /// fillings. So the new id names some slot, every id naming that slot has
    /// its count of refills raised by one, and the new id is one handed out
    /// before only if its slot has been filled 2^31 times since.
    #[verifier::external_body]
    pub fn insert(&mut self, rec: Record<K, V>) -> (id: DefaultKey)
        requires
            old(self)@.len() + 1 < u32::MAX,
        ensures
            !old(self)@.contains_key(id),
            final(self)@ == old(self)@.insert(id, rec),
            final(self).slot_of() == old(self).slot_of().insert(id, final(self).slot_of()[id]),
            final(self).refills() == refilled(
                old(self).refills(),
                old(self).slot_of(),
                id,
                final(self).slot_of()[id],
            ),
            old(self).issued().contains(id) ==> final(self).slot_of()[id] == old(self).slot_of()[id],
            old(self).issued().contains(id) ==> old(self).refills()[id] + 1 >= 0x8000_0000,
    {
        self.raw.map.insert(rec)
    }

    /// `SlotMap::remove`: takes out the record named by `id`, if it is held.
    #[verifier::external_body]
    pub fn remove(&mut self, id: DefaultKey) -> (r: Option<Record<K, V>>)
        ensures
            match r {
                Some(rec) => old(self)@.contains_key(id) && rec == old(self)@[id],
                None => !old(self)@.contains_key(id),
            },
            final(self)@ == old(self)@.remove(id),
            final(self).slot_of() == old(self).slot_of(),
            final(self).refills() == old(self).refills(),
    {
        self.raw.map.remove(id)
    }
}

/// `PartialEq::eq` on `DefaultKey`: two ids are equal exactly when they are
/// the same value (the derived comparison of index and generation).
#[verifier::external_body]
pub fn same_id(a: &DefaultKey, b: &DefaultKey) -> (r: bool)
    ensures
        r == (*a == *b),
{
    *a == *b
}

} // verus!
