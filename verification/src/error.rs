//! The errors of the list.

use vstd::prelude::*;

verus! {

/// Everything that can go wrong while reading or changing the list.
#[derive(Debug, Clone, Copy, PartialEq, Eq, Structural)]
pub enum PointercrateError {
    /// The position asked for lies outside `1..=maximal`.
    InvalidPosition { maximal: i16 },
    /// The record requirement lies outside `0..=100`.
    InvalidRequirement,
    /// The video link does not have the accepted form.
    InvalidMediaLink,
    /// The caller's version token is not the entry's current one.
    PreconditionFailed,
    /// The entry, player or creator row asked for does not exist.
    NotFound,
    /// The caller lacks the permission the operation needs.
    PermissionDenied,
    /// The store could not carry out a statement.
    DatabaseError,
}

} // verus!
