use slotmap::DefaultKey;
use vstd::prelude::*;

verus! {

/// A value paired with the id it is associated with in a
/// [`SlotBimap`](crate::SlotBimap).
#[derive(Debug, Clone, Copy, PartialEq, Eq, Hash)]
pub struct WithId<V, I = DefaultKey> {
    id: I,
    value: V,
}

impl<V, I> WithId<V, I> {
    /// The id half of the pair.
    pub closed spec fn spec_id(&self) -> I {
        self.id
    }

    /// The value half of the pair.
    pub closed spec fn spec_value(&self) -> V {
        self.value
    }

    /// Pairs `value` with `id`.
    #[must_use]
    pub fn new(id: I, value: V) -> (r: Self)
        ensures
            r.spec_id() == id,
            r.spec_value() == value,
    {
        Self { id, value }
    }

    /// Returns the id.
    #[must_use]
    pub fn id(&self) -> (r: I)
        where I: Clone,
        ensures
            cloned(self.spec_id(), r),
    {
        self.id.clone()
    }

    /// Returns a reference to the value.
    #[must_use]
    pub fn value(&self) -> (r: &V)
        ensures
            *r == self.spec_value(),
    {
        &self.value
    }

    /// Returns a mutable reference to the value.
    #[must_use]
    pub fn value_mut(&mut self) -> (r: &mut V)
        ensures
            *r == old(self).spec_value(),
            final(self).spec_id() == old(self).spec_id(),
            final(self).spec_value() == *final(r),
    {
        &mut self.value
    }

    /// Replaces the value, returning the old one. The id is left unchanged.
    pub fn replace_value(&mut self, value: V) -> (r: V)
        ensures
            r == old(self).spec_value(),
            final(self).spec_id() == old(self).spec_id(),
            final(self).spec_value() == value,
    {
        let mut value = value;
        std::mem::swap(&mut self.value, &mut value);
        value
    }

    /// Consumes the pair and returns the value, discarding the id.
    #[must_use]
    pub fn into_value(self) -> (r: V)
        ensures
            r == self.spec_value(),
    {
        self.value
    }
}

/// A pair holding a mutable reference that is dropped or left as it was
/// leaves the referenced value as it is.
pub broadcast proof fn lemma_with_id_resolved<'a, V, I>(w: WithId<&'a mut V, I>)
    ensures
        #[trigger] has_resolved(w) ==> *final(w.spec_value()) == *w.spec_value(),
{
}

impl<V, I> std::ops::Deref for WithId<V, I> {
    type Target = V;

    fn deref(&self) -> (r: &V)
        ensures
            *r == self.spec_value(),
    {
        &self.value
    }
}

impl<V, I> std::ops::DerefMut for WithId<V, I> {
    fn deref_mut(&mut self) -> (r: &mut V)
        ensures
            *r == old(self).spec_value(),
            final(self).spec_id() == old(self).spec_id(),
            final(self).spec_value() == *final(r),
    {
        &mut self.value
    }
}

} // verus!
