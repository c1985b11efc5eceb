//! JSON operands, carried through the library as values of `serde_json`.
use vstd::prelude::*;

verus! {

/// A JSON document; the library never looks inside it, only carries and copies it.
#[verifier::external_type_specification]
#[verifier::external_body]
pub struct ExJsonValue(serde_json::Value);

/// Relies on the `Clone` that `serde_json::Value` derives (with `Map`'s, which
/// clones its inner map): a deep copy, so the copy is the same document.
pub assume_specification[ <serde_json::Value as Clone>::clone ](v: &serde_json::Value) -> (r:
    serde_json::Value)
    ensures
        r == *v,
;

} // verus!
