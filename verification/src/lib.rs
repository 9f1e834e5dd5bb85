//! An in-memory store for short text posts ("tweets"), with verified
//! create / like / delete / query operations.
//!
//! The store owns a flat table of posts keyed by a dense, monotonically
//! increasing identifier, together with the next-identifier counter.
//! Deletion is gated on the caller being the post's author, pagination is a
//! slice of the ascending-id enumeration, and the author filter is proved
//! equal to the naive filter-then-slice definition even though the scan
//! exits early.
//!
//! Host concerns (caller identity, clock, log sink, persistence) are not
//! part of this crate's logic: every operation takes the identity and the
//! timestamp it needs as plain arguments.

pub mod laws;
pub mod store;

pub use crate::store::Tweet;
pub use crate::store::TwitterContract;
