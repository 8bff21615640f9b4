//! Structural errors.  Every queue operation is total and non-blocking:
//! the only failures are the ones below, and all of them are recoverable
//! by the caller.

use vstd::prelude::*;

verus! {

/// Error returned by a push: the queue had no room.  The rejected value
/// comes back to the caller intact.
#[derive(Debug, PartialEq, Eq)]
pub enum PushError<T> {
    /// The queue was full; the value could not be inserted.
    Full(T),
}

/// Error returned by a pop: no element was available.
#[derive(Debug, PartialEq, Eq)]
pub enum PopError {
    /// The queue was empty.
    Empty,
}

/// Error returned by a peek: no element was available.
#[derive(Debug, PartialEq, Eq)]
pub enum PeekError {
    /// The queue was empty.
    Empty,
}

/// Error returned by a bulk operation: fewer than the requested number
/// of slots were available.  Carries the number that was available, so
/// the caller may retry with that count.
#[derive(Debug, PartialEq, Eq)]
pub enum SlicesError {
    /// Fewer slots than requested; the payload is how many there were.
    TooFewSlots(usize),
}

} // verus!
