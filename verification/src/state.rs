//! The state that the driver and the handle in its body share, and the steps they take on it.
//!
//! The iterator itself is an arbitrary value here. A step that may poll it takes the poll as a
//! closure, so that what the iterator does stays with the caller, and the contract of the step
//! says in which states the closure runs, what it is given and what becomes of its answer.

use vstd::prelude::*;

use crate::history::{Call, Event};
use crate::poll::{Poll, PollNext};

verus! {

/// The state shared by the driver and the handle in its body.
pub struct DriveState<Iter, Item, T> {
    /// The iterator, until it is done. It is dropped as soon as it says so.
    iterator: Option<Iter>,
    /// An item that was fetched but not yet handed out.
    item: Option<Item>,
    /// Whether an item was asked for that the iterator did not have ready.
    next_item_wanted: bool,
    /// Whether the body has touched the iterator since the driver last settled.
    mutated_this_iteration: bool,
    /// The value of the body, once control has reached its end.
    body_value: Option<T>,
}

/// The contents of a `DriveState`.
#[verifier::ext_equal]
pub struct DriveView<Iter, Item, T> {
    pub iterator: Option<Iter>,
    pub item: Option<Item>,
    pub next_item_wanted: bool,
    pub mutated_this_iteration: bool,
    pub body_value: Option<T>,
}

/// What the driver has to do once its body was polled.
#[derive(Debug, PartialEq, Eq)]
pub enum Turn<R, T> {
    /// The body returned early: leave the calling function with this value.
    Return(R),
    /// Control reached the end of the body: this is the value of the whole expression.
    Break(T),
    /// Go round again without waiting for a wakeup.
    Again,
    /// Wait for a wakeup, then go round again.
    Yield,
}

impl<Iter, Item, T> DriveView<Iter, Item, T> {
    /// The state before anything has happened.
    pub open spec fn initial(iter: Iter) -> Self {
        DriveView {
            iterator: Some(iter),
            item: None,
            next_item_wanted: false,
            mutated_this_iteration: false,
            body_value: None,
        }
    }

    /// No item is asked for while one is waiting to be handed out.
    pub open spec fn wf(self) -> bool {
        self.item is Some ==> !self.next_item_wanted
    }

    /// The state once a live iterator has become `after` and answered `answer`: an iterator
    /// that says it is done is dropped.
    pub open spec fn polled(self, after: Iter, answer: PollNext<Item>) -> Self {
        DriveView {
            iterator: if answer is Done { None } else { Some(after) },
            ..self
        }
    }

    /// Whether a background fetch polls the iterator. If not, it does nothing.
    pub open spec fn fetches(self) -> bool {
        self.next_item_wanted && self.item is None && self.iterator is Some
    }

    /// The state after a background fetch for which the iterator became `after` and answered
    /// `answer`: an item goes into the buffer, and is then no longer wanted.
    pub open spec fn after_fetch(self, after: Iter, answer: PollNext<Item>) -> Self {
        if let PollNext::Item(item) = answer {
            DriveView { item: Some(item), next_item_wanted: false, ..self.polled(after, answer) }
        } else {
            self.polled(after, answer)
        }
    }

    /// Whether a poll of `next` polls the iterator.
    pub open spec fn next_asks(self) -> bool {
        self.item is None && self.iterator is Some && !self.next_item_wanted
    }

    /// The state after a poll of `next` for which the iterator became `after` and answered
    /// `answer`: an iterator that is not ready leaves the item wanted.
    pub open spec fn after_next(self, after: Iter, answer: PollNext<Item>) -> Self {
        DriveView { next_item_wanted: answer is Pending, ..self.polled(after, answer) }
    }

    /// What a poll of `next` returns when the iterator was asked and answered `answer`.
    pub open spec fn next_result(answer: PollNext<Item>) -> Poll<Option<Item>> {
        match answer {
            PollNext::Item(item) => Poll::Ready(Some(item)),
            PollNext::Done => Poll::Ready(None),
            PollNext::Pending => Poll::Pending,
        }
    }

    /// The state after a poll of `next` that does not ask the iterator: the buffer is empty.
    pub open spec fn after_idle_next(self) -> Self {
        DriveView { item: None, ..self }
    }

    /// What a poll of `next` returns when it does not ask the iterator: what was in the buffer,
    /// or the end if the iterator is gone, or nothing yet if a background fetch is asking.
    pub open spec fn idle_next_result(self) -> Poll<Option<Item>> {
        if self.item is Some || self.iterator is None {
            Poll::Ready(self.item)
        } else {
            Poll::Pending
        }
    }

    /// The state after the body got hold of the iterator, which is now `iterator`.
    pub open spec fn after_mutation(self, iterator: Option<Iter>) -> Self {
        DriveView { iterator, mutated_this_iteration: true, ..self }
    }

    /// Whether the driver goes round again at once when its body is pending: the body touched
    /// the iterator, which may have something to do now without ever causing a wakeup.
    pub open spec fn repolls(self) -> bool {
        self.mutated_this_iteration && self.iterator is Some
    }

    /// Whether the driver lets the iterator make progress before it waits: nobody is waiting for
    /// an item, so nothing else polls it before the next wakeup.
    pub open spec fn progresses(self) -> bool {
        !self.next_item_wanted && self.iterator is Some
    }

    /// What the driver does next when polling the body reported `body`: an early return comes
    /// first, then the end of the body.
    pub open spec fn turn<R>(self, body: Poll<R>) -> Turn<R, T> {
        match (body, self.body_value) {
            (Poll::Ready(output), _) => Turn::Return(output),
            (Poll::Pending, Some(value)) => Turn::Break(value),
            (Poll::Pending, None) => if self.repolls() {
                Turn::Again
            } else {
                Turn::Yield
            },
        }
    }

    /// The state after the driver settled with a pending body, when the iterator is now
    /// `iterator`.
    pub open spec fn after_pending(self, iterator: Option<Iter>) -> Self {
        DriveView { iterator, mutated_this_iteration: false, ..self }
    }
}

impl<Iter, Item, T> View for DriveState<Iter, Item, T> {
    type V = DriveView<Iter, Item, T>;

    closed spec fn view(&self) -> DriveView<Iter, Item, T> {
        DriveView {
            iterator: self.iterator,
            item: self.item,
            next_item_wanted: self.next_item_wanted,
            mutated_this_iteration: self.mutated_this_iteration,
            body_value: self.body_value,
        }
    }
}

impl<Iter, Item, T> DriveState<Iter, Item, T> {
    /// A state that owns `iter` and has done nothing with it yet.
    pub fn new(iter: Iter) -> (state: Self)
        ensures
            state@ == DriveView::<Iter, Item, T>::initial(iter),
            state@.wf(),
    {
        DriveState {
            iterator: Some(iter),
            item: None,
            next_item_wanted: false,
            mutated_this_iteration: false,
            body_value: None,
        }
    }

    /// The iterator, if it is not done yet.
    pub fn iterator(&mut self) -> (iterator: &mut Option<Iter>)
        ensures
            *iterator == old(self)@.iterator,
            final(self)@ == (DriveView { iterator: *final(iterator), ..old(self)@ }),
    {
        &mut self.iterator
    }

    /// The item that was fetched but not yet handed out.
    pub fn item(&mut self) -> (item: &mut Option<Item>)
        ensures
            *item == old(self)@.item,
            final(self)@ == (DriveView { item: *final(item), ..old(self)@ }),
    {
        &mut self.item
    }

    /// Whether an item was asked for that the iterator did not have ready.
    pub fn next_item_wanted(&mut self) -> (wanted: &mut bool)
        ensures
            *wanted == old(self)@.next_item_wanted,
            final(self)@ == (DriveView { next_item_wanted: *final(wanted), ..old(self)@ }),
    {
        &mut self.next_item_wanted
    }

    /// Whether the body has touched the iterator since the driver last settled.
    pub fn mutated_this_iteration(&mut self) -> (mutated: &mut bool)
        ensures
            *mutated == old(self)@.mutated_this_iteration,
            final(self)@ == (DriveView { mutated_this_iteration: *final(mutated), ..old(self)@ }),
    {
        &mut self.mutated_this_iteration
    }

    /// The value of the body, once control has reached its end.
    pub fn body_value(&mut self) -> (value: &mut Option<T>)
        ensures
            *value == old(self)@.body_value,
            final(self)@ == (DriveView { body_value: *final(value), ..old(self)@ }),
    {
        &mut self.body_value
    }

    /// Asks the iterator once for its next item, with `poll`.
    ///
    /// The iterator is dropped the first time it answers `Done`. From then on the answer is
    /// `Done` and `poll` does not run.
    pub fn poll_next_once<F>(&mut self, poll: F) -> (answer: PollNext<Item>)
        where F: FnOnce(&mut Iter) -> PollNext<Item>
        requires
            forall|iter: &mut Iter| old(self)@.iterator == Some(*iter) ==> call_requires(poll, (iter,)),
        ensures
            old(self)@.iterator is None ==> answer is Done && final(self)@ == old(self)@,
            old(self)@.iterator is Some ==> exists|iter: &mut Iter|
                #[trigger] call_ensures(poll, (iter,), answer)
                && old(self)@.iterator == Some(*iter)
                && final(self)@ == old(self)@.polled(*final(iter), answer),
    {
        match &mut self.iterator {
            Some(iter) => {
                let answer = poll(iter);
                if let PollNext::Done = answer {
                    self.iterator = None;
                }
                answer
            },
            None => PollNext::Done,
        }
    }

    /// Lets the iterator make progress once, with `poll`, without asking it for an item.
    ///
    /// If the iterator is done and dropped, the answer is `Ready` and `poll` does not run.
    pub fn poll_progress_once<F>(&mut self, poll: F) -> (answer: Poll<()>)
        where F: FnOnce(&mut Iter) -> Poll<()>
        requires
            forall|iter: &mut Iter| old(self)@.iterator == Some(*iter) ==> call_requires(poll, (iter,)),
        ensures
            old(self)@.iterator is None ==> answer == Poll::Ready(()) && final(self)@ == old(self)@,
            old(self)@.iterator is Some ==> exists|iter: &mut Iter|
                #[trigger] call_ensures(poll, (iter,), answer)
                && old(self)@.iterator == Some(*iter)
                && final(self)@ == (DriveView { iterator: Some(*final(iter)), ..old(self)@ }),
    {
        match &mut self.iterator {
            Some(iter) => poll(iter),
            None => Poll::Ready(()),
        }
    }

    /// Fetches an item in the background, if one is wanted and not there yet.
    ///
    /// The driver does this at the start of every round, so a fetch that was begun goes on even
    /// when the `next` that began it is cancelled.
    pub fn fetch<F>(&mut self, poll: F)
        where F: FnOnce(&mut Iter) -> PollNext<Item>
        requires
            old(self)@.fetches() ==> forall|iter: &mut Iter|
                old(self)@.iterator == Some(*iter) ==> call_requires(poll, (iter,)),
        ensures
            !old(self)@.fetches() ==> final(self)@ == old(self)@,
            old(self)@.fetches() ==> exists|iter: &mut Iter, answer: PollNext<Item>|
                #[trigger] call_ensures(poll, (iter,), answer)
                && old(self)@.iterator == Some(*iter)
                && final(self)@ == old(self)@.after_fetch(*final(iter), answer),
            exists|after: Iter, answer: PollNext<Item>|
                final(self)@ == #[trigger] old(self)@.step(Event::Fetch(after, answer))
                && old(self)@.entries(Event::Fetch(after, answer)) == (if old(self)@.fetches() {
                    seq![Call::PollNext(answer)]
                } else {
                    seq![]
                })
                && (old(self)@.fetches() ==> exists|iter: &mut Iter|
                    #[trigger] call_ensures(poll, (iter,), answer)
                    && old(self)@.iterator == Some(*iter) && *final(iter) == after),
            old(self)@.wf() ==> final(self)@.wf(),
    {
        let ghost before = self@;
        assert(forall|after: Iter, answer: PollNext<Item>| before.fetches()
            ==> before.step(Event::Fetch(after, answer)) == #[trigger] before.after_fetch(after, answer));
        assert(!before.fetches() ==> before.step(Event::Fetch(arbitrary(), PollNext::Pending)) == before);
        // A cancelled `next` may have left an item behind.
        if self.next_item_wanted && self.item.is_none() {
            if let PollNext::Item(item) = self.poll_next_once(poll) {
                self.item = Some(item);
                self.next_item_wanted = false;
            }
        }
    }

    /// Polls a `next` future once.
    ///
    /// An item left in the buffer comes first. Otherwise the iterator is asked here, unless a
    /// background fetch is already asking it. If it has nothing yet, the background fetch takes
    /// over, because the future that is polled here may be cancelled.
    pub fn next<F>(&mut self, poll: F) -> (polled: Poll<Option<Item>>)
        where F: FnOnce(&mut Iter) -> PollNext<Item>
        requires
            old(self)@.next_asks() ==> forall|iter: &mut Iter|
                old(self)@.iterator == Some(*iter) ==> call_requires(poll, (iter,)),
        ensures
            !old(self)@.next_asks() ==> polled == old(self)@.idle_next_result()
                && final(self)@ == old(self)@.after_idle_next(),
            old(self)@.next_asks() ==> exists|iter: &mut Iter, answer: PollNext<Item>|
                #[trigger] call_ensures(poll, (iter,), answer)
                && old(self)@.iterator == Some(*iter)
                && polled == DriveView::<Iter, Item, T>::next_result(answer)
                && final(self)@ == old(self)@.after_next(*final(iter), answer),
            exists|after: Iter, answer: PollNext<Item>|
                final(self)@ == #[trigger] old(self)@.step(Event::Next(after, answer))
                && old(self)@.entries(Event::Next(after, answer)) == (if old(self)@.next_asks() {
                    seq![Call::PollNext(answer)]
                } else {
                    seq![]
                }) + (match polled {
                    Poll::Ready(value) => seq![Call::Deliver(value)],
                    Poll::Pending => seq![],
                })
                && (old(self)@.next_asks() ==> exists|iter: &mut Iter|
                    #[trigger] call_ensures(poll, (iter,), answer)
                    && old(self)@.iterator == Some(*iter) && *final(iter) == after),
            old(self)@.wf() ==> final(self)@.wf(),
    {
        let ghost before = self@;
        assert(forall|after: Iter, answer: PollNext<Item>| before.next_asks()
            ==> before.step(Event::Next(after, answer)) == #[trigger] before.after_next(after, answer));
        assert(!before.next_asks()
            ==> before.step(Event::Next(arbitrary(), PollNext::Pending)) == before.after_idle_next());
        if let Some(item) = self.item.take() {
            return Poll::Ready(Some(item));
        }
        if self.iterator.is_none() {
            return Poll::Ready(None);
        }
        if !self.next_item_wanted {
            match self.poll_next_once(poll) {
                PollNext::Item(item) => return Poll::Ready(Some(item)),
                PollNext::Done => return Poll::Ready(None),
                PollNext::Pending => {},
            }
            self.next_item_wanted = true;
        }
        Poll::Pending
    }

    /// Lends the iterator to `f`, if it is not done yet.
    ///
    /// The iterator may have something to do afterwards without causing a wakeup, so the driver
    /// is told to go round again.
    pub fn with_mut<F, Ret>(&mut self, f: F) -> (ret: Ret)
        where F: FnOnce(Option<&mut Iter>) -> Ret
        requires
            old(self)@.iterator is None ==> call_requires(f, (None,)),
            forall|iter: &mut Iter| old(self)@.iterator == Some(*iter) ==> call_requires(f, (Some(iter),)),
        ensures
            old(self)@.iterator is None ==> call_ensures(f, (None,), ret)
                && final(self)@ == old(self)@.after_mutation(None),
            old(self)@.iterator is Some ==> exists|iter: &mut Iter|
                #[trigger] call_ensures(f, (Some(iter),), ret)
                && old(self)@.iterator == Some(*iter)
                && final(self)@ == old(self)@.after_mutation(Some(*final(iter))),
            exists|after: Iter|
                final(self)@ == #[trigger] old(self)@.step(Event::Mutate(after))
                && old(self)@.entries(Event::Mutate(after)) == (if old(self)@.iterator is Some {
                    seq![Call::<Item>::Mutate]
                } else {
                    seq![]
                })
                && (old(self)@.iterator is Some ==> exists|iter: &mut Iter|
                    #[trigger] call_ensures(f, (Some(iter),), ret)
                    && old(self)@.iterator == Some(*iter) && *final(iter) == after),
            old(self)@.wf() ==> final(self)@.wf(),
    {
        let ghost before = self@;
        assert(forall|after: Iter| before.iterator is Some
            ==> before.step(Event::Mutate(after)) == #[trigger] before.after_mutation(Some(after)));
        assert(before.iterator is None
            ==> before.step(Event::Mutate(arbitrary())) == before.after_mutation(None));
        self.mutated_this_iteration = true;
        match &mut self.iterator {
            Some(iter) => f(Some(iter)),
            None => f(None),
        }
    }

    /// Ends a round of the driver: `body` is what polling the body reported.
    ///
    /// If the driver is about to wait while nobody is waiting for an item, the iterator makes
    /// progress first, with `poll`. It does so only here, so a chain of items that were ready
    /// costs a single poll.
    pub fn settle<R, F>(&mut self, body: Poll<R>, poll: F) -> (turn: Turn<R, T>)
        where F: FnOnce(&mut Iter) -> Poll<()>
        requires
            old(self)@.turn(body) is Yield && old(self)@.progresses()
                ==> forall|iter: &mut Iter|
                    old(self)@.iterator == Some(*iter) ==> call_requires(poll, (iter,)),
        ensures
            turn == old(self)@.turn(body),
            turn is Return ==> final(self)@ == old(self)@,
            turn is Break ==> final(self)@ == (DriveView { body_value: None, ..old(self)@ }),
            turn is Again || (turn is Yield && !old(self)@.progresses())
                ==> final(self)@ == old(self)@.after_pending(old(self)@.iterator),
            turn is Yield && old(self)@.progresses()
                ==> exists|iter: &mut Iter, answer: Poll<()>|
                    #[trigger] call_ensures(poll, (iter,), answer)
                    && old(self)@.iterator == Some(*iter)
                    && final(self)@ == old(self)@.after_pending(Some(*final(iter))),
            turn is Again || turn is Yield ==> exists|after: Iter|
                final(self)@ == #[trigger] old(self)@.step(Event::Settle(after))
                && old(self)@.entries(Event::Settle(after)) == (if turn is Again {
                    seq![Call::<Item>::Again]
                } else if old(self)@.progresses() {
                    seq![Call::<Item>::PollProgress, Call::<Item>::Yield]
                } else {
                    seq![Call::<Item>::Yield]
                })
                && (turn is Yield && old(self)@.progresses() ==> exists|iter: &mut Iter, answer: Poll<()>|
                    #[trigger] call_ensures(poll, (iter,), answer)
                    && old(self)@.iterator == Some(*iter) && *final(iter) == after),
            old(self)@.wf() ==> final(self)@.wf(),
    {
        let ghost before = self@;
        assert(forall|after: Iter| !before.repolls() && before.progresses()
            ==> before.step(Event::Settle(after)) == #[trigger] before.after_pending(Some(after)));
        assert(before.repolls() || !before.progresses()
            ==> before.step(Event::Settle(arbitrary())) == before.after_pending(before.iterator));
        if let Poll::Ready(output) = body {
            return Turn::Return(output);
        }
        if let Some(value) = self.body_value.take() {
            return Turn::Break(value);
        }
        if self.mutated_this_iteration {
            self.mutated_this_iteration = false;
            if self.iterator.is_some() {
                return Turn::Again;
            }
        }
        if !self.next_item_wanted {
            let _ = self.poll_progress_once(poll);
        }
        Turn::Yield
    }
}

} // verus!
