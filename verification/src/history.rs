//! Histories of a driven iterator: everything that can happen to the shared state, in any order,
//! and the record of what was done to the iterator and what came out.

use vstd::prelude::*;

use crate::poll::{Poll, PollNext};
use crate::state::DriveView;

verus! {

/// A step on the shared state: a call of `fetch`, `next`, `with_mut` or `settle` of
/// [`crate::state::DriveState`], whose contracts say what it does. It carries what the iterator becomes, and answers, in case the
/// step polls it or hands it out; in other cases these values play no role.
pub enum Event<Iter, Item> {
    /// The driver starts a round with a background fetch.
    Fetch(Iter, PollNext<Item>),
    /// A `next` future is polled.
    Next(Iter, PollNext<Item>),
    /// The body gets hold of the iterator.
    Mutate(Iter),
    /// The driver ends a round in which the body was left pending.
    Settle(Iter),
}

/// An entry in the record of what was done to the iterator and what came out.
pub enum Call<Item> {
    /// The iterator was asked for its next item and gave this answer.
    PollNext(PollNext<Item>),
    /// The iterator was polled for progress.
    PollProgress,
    /// The body got hold of the iterator.
    Mutate,
    /// A `next` future became ready with this value.
    Deliver(Option<Item>),
    /// The driver went round again at once.
    Again,
    /// The driver began to wait for a wakeup.
    Yield,
}

impl<Item> Call<Item> {
    /// Whether the entry is a poll of the iterator.
    pub open spec fn is_poll(self) -> bool {
        self is PollNext || self is PollProgress
    }

    /// The items that the iterator gave, in order.
    pub open spec fn yielded(record: Seq<Self>) -> Seq<Item>
        decreases record.len(),
    {
        if record.len() == 0 {
            seq![]
        } else if let Call::PollNext(PollNext::Item(item)) = record.last() {
            Self::yielded(record.drop_last()).push(item)
        } else {
            Self::yielded(record.drop_last())
        }
    }

    /// The items that `next` futures became ready with, in order.
    pub open spec fn delivered(record: Seq<Self>) -> Seq<Item>
        decreases record.len(),
    {
        if record.len() == 0 {
            seq![]
        } else if let Call::Deliver(Some(item)) = record.last() {
            Self::delivered(record.drop_last()).push(item)
        } else {
            Self::delivered(record.drop_last())
        }
    }
}

impl<Iter, Item> Event<Iter, Item> {
    /// Whether `events` is one round of the driver with a pending body: a fetch, what the body does,
    /// and the settling.
    pub open spec fn is_round(events: Seq<Self>) -> bool {
        &&& events.len() >= 2
        &&& events.first() is Fetch
        &&& events.last() is Settle
        &&& forall|k: int| 0 < k < events.len() - 1 ==> (#[trigger] events[k]) is Next || events[k] is Mutate
    }
}

impl<Iter, Item, T> DriveView<Iter, Item, T> {
    /// The state after the event `event`.
    pub open spec fn step(self, event: Event<Iter, Item>) -> Self {
        match event {
            Event::Fetch(after, answer) => if self.fetches() {
                self.after_fetch(after, answer)
            } else {
                self
            },
            Event::Next(after, answer) => if self.next_asks() {
                self.after_next(after, answer)
            } else {
                self.after_idle_next()
            },
            Event::Mutate(after) => if self.iterator is Some {
                self.after_mutation(Some(after))
            } else {
                self.after_mutation(None)
            },
            Event::Settle(after) => if !self.repolls() && self.progresses() {
                self.after_pending(Some(after))
            } else {
                self.after_pending(self.iterator)
            },
        }
    }

    /// What a poll of a `next` future returns in this state, where `answer` is the answer of the
    /// iterator in case it is asked.
    pub open spec fn next_polled(self, answer: PollNext<Item>) -> Poll<Option<Item>> {
        if self.next_asks() {
            Self::next_result(answer)
        } else {
            self.idle_next_result()
        }
    }

    /// The entries that the event `event` adds to the record when it happens in this state.
    pub open spec fn entries(self, event: Event<Iter, Item>) -> Seq<Call<Item>> {
        match event {
            Event::Fetch(_, answer) => if self.fetches() {
                seq![Call::PollNext(answer)]
            } else {
                seq![]
            },
            Event::Next(_, answer) => {
                let asked = if self.next_asks() {
                    seq![Call::PollNext(answer)]
                } else {
                    seq![]
                };
                match self.next_polled(answer) {
                    Poll::Ready(value) => asked.push(Call::Deliver(value)),
                    Poll::Pending => asked,
                }
            },
            Event::Mutate(_) => if self.iterator is Some {
                seq![Call::Mutate]
            } else {
                seq![]
            },
            Event::Settle(_) => if self.repolls() {
                seq![Call::Again]
            } else if self.progresses() {
                seq![Call::PollProgress, Call::Yield]
            } else {
                seq![Call::Yield]
            },
        }
    }

    /// The state after the events `events`, in this order.
    pub open spec fn run(self, events: Seq<Event<Iter, Item>>) -> Self
        decreases events.len(),
    {
        if events.len() == 0 {
            self
        } else {
            self.run(events.drop_last()).step(events.last())
        }
    }

    /// The record of the events `events`, in this order.
    pub open spec fn record(self, events: Seq<Event<Iter, Item>>) -> Seq<Call<Item>>
        decreases events.len(),
    {
        if events.len() == 0 {
            seq![]
        } else {
            self.record(events.drop_last()) + self.run(events.drop_last()).entries(events.last())
        }
    }

    /// The item in the buffer, if there is one.
    pub open spec fn buffered(self) -> Seq<Item> {
        match self.item {
            Some(item) => seq![item],
            None => seq![],
        }
    }
}

} // verus!
