use vstd::prelude::*;

verus! {

/// Failure taxonomy of the rating engine.
///
/// `NotAMember` guards rating creation and update; `AlreadyExists` reports a
/// duplicate group membership; `NotFound` means no row matched a scoped
/// update, delete or lookup; `InvalidDate` is defensive and cannot arise for
/// the date representation used here; `StoreError` stands for a failure of
/// the backing store itself, such as an exhausted key space.
#[derive(Clone, Copy, Debug, PartialEq, Eq, Structural)]
pub enum CoreError {
    NotAMember,
    AlreadyExists,
    NotFound,
    InvalidDate,
    StoreError,
}

/// Outcome classification for a single push delivery attempt.
///
/// A `PermanentlyInvalid` endpoint is gone or unknown and its subscription
/// must be removed; a `Transient` failure is logged by the caller and
/// otherwise ignored.
#[derive(Clone, Copy, Debug, PartialEq, Eq, Structural)]
pub enum DeliveryError {
    PermanentlyInvalid,
    Transient,
}

} // verus!
