//! The verified core of a driver for async iterators.
//!
//! A driver owns an async iterator and runs a body next to it. The body asks for items through a
//! handle, and while it waits for something else, the driver keeps the iterator going. This crate
//! holds the state that the two share and every decision that is taken on it, one step at a time.
//! Futures, wakers and pinning are left to the code that calls it.

mod call;
mod cell;
pub mod handle;
pub mod history;
pub mod input;
pub mod laws;
pub mod never_done;
pub mod once;
pub mod poll;
pub mod state;
pub mod step_laws;

pub use handle::{new_driven_async_iterator, AlreadyBorrowed, DrivenAsyncIterator};
pub use never_done::NeverDone;
pub use once::{pending_once, poll_once, PendingOnce, PollOnce};
pub use poll::{Poll, PollNext};
pub use state::{DriveState, Turn};
