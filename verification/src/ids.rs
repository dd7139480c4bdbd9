//! The one place the engine draws fresh random identifiers.

use vstd::prelude::*;

verus! {

/// Relies on uuid's `Uuid::new_v4` and its `Display` impl: the result is the
/// 36-character hyphenated form of a random UUID.  Nothing more can be said
/// of a random value; callers treat collisions as a store failure.
#[verifier::external_body]
pub fn fresh_uuid() -> (s: String)
    ensures
        s@.len() == 36,
{
    uuid::Uuid::new_v4().to_string()
}

} // verus!
