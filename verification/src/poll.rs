//! What polling an async iterator or a future reports.

use vstd::prelude::*;

verus! {

/// The answer of a future that was polled once.
#[derive(Debug, PartialEq, Eq)]
pub enum Poll<T> {
    /// The future finished with this value.
    Ready(T),
    /// The future has to be polled again later.
    Pending,
}

/// The answer of an async iterator that was asked for its next item.
#[derive(Debug, PartialEq, Eq)]
pub enum PollNext<Item> {
    /// The next item.
    Item(Item),
    /// No item yet. The iterator has to be asked again until it answers otherwise.
    Pending,
    /// There are no more items. The iterator must not be polled again.
    Done,
}

} // verus!
