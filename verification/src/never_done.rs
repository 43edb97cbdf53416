//! An adapter for async iterators that can be given more work after they ran out of it.

use vstd::prelude::*;

use crate::poll::{Poll, PollNext};

verus! {

/// An async iterator that is never done.
///
/// A driver drops its iterator as soon as it says that it is done. Some iterators say so when
/// they have run out of work, and go on when they are given more. With this adapter such an
/// iterator is pending instead, and so it is kept. It is polled again after it said that it is
/// done, which not every iterator allows.
#[derive(Debug)]
pub struct NeverDone<Iter> {
    iter: Iter,
}

impl<Iter> View for NeverDone<Iter> {
    /// The inner iterator.
    type V = Iter;

    closed spec fn view(&self) -> Iter {
        self.iter
    }
}

/// The answer that is given in place of `answer`: the end becomes `Pending`.
pub open spec fn without_end<Item>(answer: PollNext<Item>) -> PollNext<Item> {
    match answer {
        PollNext::Done => PollNext::Pending,
        other => other,
    }
}

/// Items and pauses are passed on as they are, and the end becomes a pause.
pub proof fn law_only_the_end_changes<Item>(item: Item)
    ensures
        without_end(PollNext::Item(item)) == PollNext::Item(item),
        without_end(PollNext::<Item>::Pending) == PollNext::<Item>::Pending,
        without_end(PollNext::<Item>::Done) == PollNext::<Item>::Pending,
{
}

impl<Iter> NeverDone<Iter> {
    /// Wraps `iter`.
    pub fn new(iter: Iter) -> (wrapped: Self)
        ensures
            wrapped@ == iter,
    {
        NeverDone { iter }
    }

    /// Takes the inner iterator out again.
    pub fn into_inner(self) -> (iter: Iter)
        ensures
            iter == self@,
    {
        self.iter
    }

    /// The inner iterator.
    pub fn as_pin_mut(&mut self) -> (iter: &mut Iter)
        ensures
            *iter == old(self)@,
            *final(iter) == final(self)@,
    {
        &mut self.iter
    }

    /// Asks the inner iterator for its next item, with `poll`. The answer is never `Done`.
    pub fn poll_next<Item, F>(&mut self, poll: F) -> (answer: PollNext<Item>)
        where F: FnOnce(&mut Iter) -> PollNext<Item>
        requires
            forall|iter: &mut Iter| *iter == old(self)@ ==> call_requires(poll, (iter,)),
        ensures
            exists|iter: &mut Iter, inner: PollNext<Item>| #[trigger] call_ensures(poll, (iter,), inner)
                && *iter == old(self)@ && *final(iter) == final(self)@
                && answer == without_end(inner),
            !(answer is Done),
    {
        match poll(&mut self.iter) {
            PollNext::Done => PollNext::Pending,
            other => other,
        }
    }

    /// Lets the inner iterator make progress, with `poll`.
    pub fn poll_progress<F>(&mut self, poll: F) -> (answer: Poll<()>)
        where F: FnOnce(&mut Iter) -> Poll<()>
        requires
            forall|iter: &mut Iter| *iter == old(self)@ ==> call_requires(poll, (iter,)),
        ensures
            exists|iter: &mut Iter| #[trigger] call_ensures(poll, (iter,), answer)
                && *iter == old(self)@ && *final(iter) == final(self)@,
    {
        poll(&mut self.iter)
    }
}

impl<Iter> core::ops::Deref for NeverDone<Iter> {
    type Target = Iter;

    fn deref(&self) -> (iter: &Iter)
        ensures
            *iter == self@,
    {
        &self.iter
    }
}

impl<Iter> core::ops::DerefMut for NeverDone<Iter> {
    fn deref_mut(&mut self) -> (iter: &mut Iter)
        ensures
            *iter == old(self)@,
            *final(iter) == final(self)@,
    {
        &mut self.iter
    }
}

} // verus!
