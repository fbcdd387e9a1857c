use hashbrown::DefaultHashBuilder;
use slotmap::DefaultKey;
use vstd::prelude::*;

verus! {

/// The id type of the store: a slot map key, an index and a generation.
#[verifier::external_type_specification]
#[verifier::external_body]
pub struct ExDefaultKey(DefaultKey);

/// `Clone::clone` on `DefaultKey` (derived, on a `Copy` type): the copy is
/// the same id.
pub assume_specification[ <DefaultKey as Clone>::clone ](k: &DefaultKey) -> (r: DefaultKey)
    ensures
        r == *k,
;

/// The default hash builder: a seeded foldhash `RandomState`.
#[verifier::external_type_specification]
#[verifier::external_body]
pub struct ExDefaultHashBuilder(DefaultHashBuilder);

} // verus!
