//! The hasher of a `SlotBimap`.
//!
//! A hasher built by one `BuildHasher` instance hashes a key the same way for
//! as long as the instance lives (given `Hash` and `BuildHasher` implementations
//! that keep their documented contracts), though two instances may differ: the
//! default ones are seeded at random. `KeyHasher` pairs the builder with a
//! ghost function that stands for what this one instance computes.
use core::hash::{BuildHasher, Hash};
use vstd::prelude::*;
use hashbrown::DefaultHashBuilder;
use std::hash::RandomState;
use vstd::std_specs::hash::{builds_valid_hashers, obeys_key_model};

verus! {

/// Hash builders for which it is known that every hasher one instance builds
/// hashes a given stream of writes the same way: what `BuildHasher`'s
/// documentation asks of its implementations.
///
/// An impl whose `keeps_hashes` is `true` is a promise that nothing proves:
/// the contract of `KeyHasher::hash`, and with it every lookup by key, rests
/// on it. The impls here are for builders whose source keeps the promise.
pub trait HashBuilderModel {
    /// Whether this builder type keeps that promise.
    spec fn keeps_hashes() -> bool;
}

/// hashbrown's default builder wraps a foldhash `RandomState`: a per-instance
/// seed drawn at creation and a process-wide seed, which every hasher it
/// builds starts from.
impl HashBuilderModel for DefaultHashBuilder {
    open spec fn keeps_hashes() -> bool {
        true
    }
}

/// std's builder, by vstd's model of it.
impl HashBuilderModel for RandomState {
    open spec fn keeps_hashes() -> bool {
        builds_valid_hashers::<RandomState>()
    }
}

/// A `BuildHasher` together with the function from key to hash that it computes.
#[verifier::reject_recursive_types(K)]
pub struct KeyHasher<K, S> {
    builder: S,
    hashes: Ghost<spec_fn(K) -> u64>,
}

impl<K, S> KeyHasher<K, S> {
    /// The hash that this instance gives each key.
    pub closed spec fn hash_of(&self, key: K) -> u64 {
        (self.hashes@)(key)
    }

    /// `Default::default` of the builder type: a new builder. Nothing is known
    /// of the function it computes, which depends on how it was seeded.
    #[verifier::external_body]
    pub fn new() -> (r: KeyHasher<K, S>)
        where S: Default,
    {
        KeyHasher { builder: S::default(), hashes: Ghost(arbitrary()) }
    }

    /// `BuildHasher::hash_one`: the hash of `key`, which is the same for every
    /// call on this instance, under vstd's model of keys and for a builder type that keeps its hashes.
    #[verifier::external_body]
    pub fn hash(&self, key: &K) -> (r: u64)
        where K: Hash, S: BuildHasher + HashBuilderModel,
        requires
            obeys_key_model::<K>(),
            S::keeps_hashes(),
        ensures
            r == self.hash_of(*key),
    {
        self.builder.hash_one(key)
    }
}

} // verus!
