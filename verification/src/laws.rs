//! Laws of `SlotBimap` that relate several of its operations.
//!
//! They are stated over the spec functions that the operations' contracts
//! use: `filled_by` (what `insert`, the entry API and the `get_or_insert`
//! family leave behind), `id_of` (what `get_id` returns) and the view (what
//! `get` and `get_key` return).
use crate::bimap::SlotBimap;
use slotmap::DefaultKey;
use vstd::prelude::*;

verus! {

/// Looking up the id of a key gives an id that holds that key: `get_key`
/// undoes `get_id`.
pub proof fn law_key_of_id<K, V, S>(m: SlotBimap<K, V, S>, key: K)
    requires
        m.wf(),
        m.holds_key(key),
    ensures
        m.id_of(key) matches Some(id) && m@.contains_key(id) && m@[id].0 == key,
{
}

/// After a key is given a value, looking the key up gives the id the value
/// was stored under, and that id holds the key and the value.
pub proof fn law_fill_then_lookup<K, V, S>(
    before: SlotBimap<K, V, S>,
    after: SlotBimap<K, V, S>,
    key: K,
    id: DefaultKey,
    value: V,
)
    requires
        before.wf(),
        before.filled_by(after, key, id, value),
    ensures
        after@.contains_key(id),
        after@[id] == (key, value),
        after.id_of(key) == Some(id),
{
    if before.holds_key(key) {
        law_key_of_id(before, key);
    }
    after.law_id_of_key(id, key);
}

/// Giving a key a value leaves every other id with the key and value it
/// held, and an id that already held the key keeps it.
pub proof fn law_fill_keeps_others<K, V, S>(
    before: SlotBimap<K, V, S>,
    after: SlotBimap<K, V, S>,
    key: K,
    id: DefaultKey,
    value: V,
    other: DefaultKey,
)
    requires
        before.wf(),
        before.filled_by(after, key, id, value),
        before@.contains_key(other),
    ensures
        after@.contains_key(other),
        after@[other].0 == before@[other].0,
        other != id ==> after@[other] == before@[other],
        before@[other].0 == key ==> other == id,
{
    if before@[other].0 == key {
        before.law_id_of_key(other, key);
    }
}

/// Giving a key a value adds one entry when the key was not held, and none
/// when it was.
pub proof fn law_fill_len<K, V, S>(
    before: SlotBimap<K, V, S>,
    after: SlotBimap<K, V, S>,
    key: K,
    id: DefaultKey,
    value: V,
)
    requires
        before.wf(),
        before.filled_by(after, key, id, value),
    ensures
        after@.len() == before@.len() + (if before.holds_key(key) { 0int } else { 1int }),
{
    before.lemma_finite();
    if before.holds_key(key) {
        law_key_of_id(before, key);
    }
}

/// Giving the same key a value twice keeps the id of the first time; the
/// second value replaces the first.
pub proof fn law_refill_same_id<K, V, S>(
    m0: SlotBimap<K, V, S>,
    m1: SlotBimap<K, V, S>,
    m2: SlotBimap<K, V, S>,
    key: K,
    id1: DefaultKey,
    v1: V,
    id2: DefaultKey,
    v2: V,
)
    requires
        m0.wf(),
        m0.filled_by(m1, key, id1, v1),
        m1.filled_by(m2, key, id2, v2),
    ensures
        id2 == id1,
        m2@ == m1@.insert(id1, (key, v2)),
{
    law_fill_then_lookup(m0, m1, key, id1, v1);
}

/// Removing an id removes its key: looking the key up afterwards finds
/// nothing, and one entry fewer is held.
pub proof fn law_remove_forgets_key<K, V, S>(
    before: SlotBimap<K, V, S>,
    after: SlotBimap<K, V, S>,
    id: DefaultKey,
)
    requires
        before.wf(),
        before@.contains_key(id),
        after@ == before@.remove(id),
    ensures
        after.id_of(before@[id].0) is None,
        after@.len() + 1 == before@.len(),
{
    before.lemma_finite();
    let key = before@[id].0;
    if after.holds_key(key) {
        let w = choose|w: DefaultKey| after@.contains_key(w) && after@[w].0 == key;
        before.law_keys_unique(w, id);
    }
}

/// An id that was handed out and has since been removed stays dead when a
/// key is given a value: the store does not hand it out again, so it still
/// names no entry, unless its slot has been filled 2^31 times since (when the
/// slot's generation wraps around). Its slot counts at most one more refill.
pub proof fn law_stale_id_stays_dead<K, V, S>(
    before: SlotBimap<K, V, S>,
    after: SlotBimap<K, V, S>,
    key: K,
    id: DefaultKey,
    value: V,
    stale: DefaultKey,
)
    requires
        before.wf(),
        before.filled_by(after, key, id, value),
        before.issued().contains(stale),
        !before@.contains_key(stale),
        before.refills()[stale] + 1 < 0x8000_0000,
    ensures
        id != stale,
        !after@.contains_key(stale),
        after.issued().contains(stale),
        after.refills()[stale] <= before.refills()[stale] + 1,
{
    if before.holds_key(key) {
        law_key_of_id(before, key);
    }
}

/// Giving a key that is not held a value and then removing the id it got
/// gives back the store's contents: the value comes back out, the key is no
/// longer found, and as many entries are held as before.
pub proof fn law_insert_then_remove<K, V, S>(
    m0: SlotBimap<K, V, S>,
    m1: SlotBimap<K, V, S>,
    m2: SlotBimap<K, V, S>,
    key: K,
    id: DefaultKey,
    value: V,
)
    requires
        m0.wf(),
        !m0.holds_key(key),
        m0.filled_by(m1, key, id, value),
        m2@ == m1@.remove(id),
    ensures
        m1@[id].1 == value,
        m2@ == m0@,
        m2.id_of(key) is None,
        m2@.len() == m0@.len(),
{
    assert(m2@ =~= m0@);
}

/// After an id is removed, no key looks up to it: every key still found is
/// found under an id that is held.
pub proof fn law_remove_leaves_no_stale_lookup<K, V, S>(
    before: SlotBimap<K, V, S>,
    after: SlotBimap<K, V, S>,
    id: DefaultKey,
    key: K,
)
    requires
        before.wf(),
        after@ == before@.remove(id),
    ensures
        after.id_of(key) matches Some(j) ==> j != id && after@.contains_key(j) && after@[j].0 == key,
{
}

/// In a well-formed store (as every operation leaves it) each id held is
/// found again by its key, and no two ids hold the same key.
pub proof fn law_every_key_finds_its_id<K, V, S>(m: SlotBimap<K, V, S>)
    requires
        m.wf(),
    ensures
        forall|j: DefaultKey| #[trigger] m@.contains_key(j) ==> m.id_of(m@[j].0) == Some(j),
        forall|i: DefaultKey, j: DefaultKey|
            m@.contains_key(i) && m@.contains_key(j) && #[trigger] m@[i].0 == #[trigger] m@[j].0 ==> i == j,
{
    assert forall|j: DefaultKey| #[trigger] m@.contains_key(j) implies m.id_of(m@[j].0) == Some(j) by {
        m.law_id_of_key(j, m@[j].0);
    }
    assert forall|i: DefaultKey, j: DefaultKey|
        m@.contains_key(i) && m@.contains_key(j) && #[trigger] m@[i].0 == #[trigger] m@[j].0 implies i == j by {
        m.law_keys_unique(i, j);
    }
}

} // verus!
