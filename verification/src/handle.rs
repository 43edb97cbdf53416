//! The handle that the body of a driver works with.
//!
//! A handle borrows the state only for the length of a step. Nothing is known beforehand of the
//! state that it finds in the cell, because the driver and other handles use the cell in between.
//! The contracts say what a step does with the state that the borrow gave access to, whichever it
//! is: the same as the function of that name in [`crate::state`]. If the borrow is refused, no
//! closure runs. The contracts speak of that one borrow. What the cell holds when the call has
//! returned they do not say, since a shared cell has no value that a contract could name. A
//! handle uses what it is lent for whole steps only.

use atomic_refcell::{AtomicRefCell, AtomicRefMut, BorrowMutError};
use vstd::prelude::*;

use crate::call::apply;
use crate::cell::Lent;
use crate::poll::{Poll, PollNext};
use crate::state::{DriveState, DriveView};

verus! {

/// A handle to a driven async iterator, for the body of its driver.
#[verifier::reject_recursive_types(Iter)]
#[verifier::reject_recursive_types(Item)]
#[verifier::reject_recursive_types(T)]
pub struct DrivenAsyncIterator<'a, Iter, Item, T> {
    state: &'a AtomicRefCell<DriveState<Iter, Item, T>>,
}

/// The state is in use: a handle was used within a closure that was given to a handle, or by
/// two threads at the same time.
#[derive(Debug, PartialEq, Eq)]
pub struct AlreadyBorrowed;

/// A handle to the iterator in `state`.
pub fn new_driven_async_iterator<'a, Iter, Item, T>(
    state: &'a AtomicRefCell<DriveState<Iter, Item, T>>,
) -> (handle: DrivenAsyncIterator<'a, Iter, Item, T>)
    ensures
        handle.cell() == state,
{
    DrivenAsyncIterator { state }
}

impl<'a, Iter, Item, T> DrivenAsyncIterator<'a, Iter, Item, T> {
    /// The cell that the handle shares with the driver.
    pub closed spec fn cell(&self) -> &'a AtomicRefCell<DriveState<Iter, Item, T>> {
        self.state
    }

    /// Whether a borrow of the cell may end in `outcome`.
    pub open spec fn may_borrow(
        &self,
        outcome: Result<AtomicRefMut<'a, DriveState<Iter, Item, T>>, BorrowMutError>,
    ) -> bool {
        call_ensures(AtomicRefCell::<DriveState<Iter, Item, T>>::try_borrow_mut, (self.cell(),), outcome)
    }

    /// Whether a borrow of the cell may fail, because it is in use.
    pub open spec fn refuses(&self) -> bool {
        exists|error: BorrowMutError| #[trigger] self.may_borrow(Err(error))
    }

    /// Whether a borrow of the cell may succeed and give access to `state`.
    pub closed spec fn lends(&self, state: &mut DriveState<Iter, Item, T>) -> bool {
        exists|guard: AtomicRefMut<'a, DriveState<Iter, Item, T>>|
            #[trigger] self.may_borrow(Ok(guard)) && Lent::<'a, Iter, Item, T>::reaches(guard, state)
    }

    /// Borrows the cell.
    fn borrow(&self) -> (outcome: Result<AtomicRefMut<'a, DriveState<Iter, Item, T>>, BorrowMutError>)
        ensures
            self.may_borrow(outcome),
            outcome is Err ==> self.refuses(),
    {
        let outcome = apply(AtomicRefCell::<DriveState<Iter, Item, T>>::try_borrow_mut, self.state);
        assert(outcome matches Err(error) ==> self.may_borrow(Err(error)));
        outcome
    }

    /// The state in the cell that was borrowed with `guard`, for one step.
    fn lend<'b>(
        &self,
        guard: &'b mut AtomicRefMut<'a, DriveState<Iter, Item, T>>,
    ) -> (lent: Lent<'b, Iter, Item, T>)
        requires
            self.may_borrow(Ok(*old(guard))),
        ensures
            self.lends(lent.state()),
    {
        Lent::new(guard)
    }

    /// What the handle prints as for debugging: only its name, since the state may be in use.
    pub fn fmt(&self) -> (text: &'static str)
        ensures
            text@ == "DrivenAsyncIterator"@,
    {
        "DrivenAsyncIterator"
    }

    /// Polls a future for the next item once; `poll` asks the iterator.
    ///
    /// Several such futures may be polled in turn. One that is dropped before it is ready does
    /// not stop the fetch that it began: the item goes to whoever asks next.
    ///
    /// Fails only if the borrow of the cell failed, and then `poll` does not run. Otherwise the
    /// state that was borrowed takes the step of `DriveState::next`. Whether the cell is in use,
    /// what state it holds, and what it holds after the call, is known only at run time.
    pub fn next<F>(&self, poll: F) -> (polled: Result<Poll<Option<Item>>, AlreadyBorrowed>)
        where F: FnOnce(&mut Iter) -> PollNext<Item>
        requires
            forall|state: &mut DriveState<Iter, Item, T>, iter: &mut Iter|
                #![trigger self.lends(state), call_requires(poll, (iter,))]
                self.lends(state) && (*state)@.next_asks() && (*state)@.iterator == Some(*iter)
                    ==> call_requires(poll, (iter,)),
        ensures
            polled is Err ==> self.refuses(),
            polled matches Ok(polled) ==> exists|state: &mut DriveState<Iter, Item, T>|
                #[trigger] self.lends(state) && if (*state)@.next_asks() {
                    exists|iter: &mut Iter, answer: PollNext<Item>|
                        #[trigger] call_ensures(poll, (iter,), answer)
                        && (*state)@.iterator == Some(*iter)
                        && polled == DriveView::<Iter, Item, T>::next_result(answer)
                        && (*final(state))@ == (*state)@.after_next(*final(iter), answer)
                } else {
                    polled == (*state)@.idle_next_result() && (*final(state))@ == (*state)@.after_idle_next()
                },
    {
        match self.borrow() {
            Ok(mut guard) => Ok(self.lend(&mut guard).next(poll)),
            Err(_) => Err(AlreadyBorrowed),
        }
    }

    /// Lends the iterator to `f`, or `None` if it is done and dropped.
    ///
    /// This serves an iterator that is a pinned pointer. It is the same as `with_mut`, since the
    /// pointer itself may be moved. If the borrow of the cell failed, `f` does not run.
    pub fn with_pin_mut<F, Ret>(&self, f: F) -> (ret: Result<Ret, AlreadyBorrowed>)
        where F: FnOnce(Option<&mut Iter>) -> Ret
        requires
            forall|state: &mut DriveState<Iter, Item, T>, iter: &mut Iter|
                #![trigger self.lends(state), call_requires(f, (Some(iter),))]
                self.lends(state) && (*state)@.iterator == Some(*iter) ==> call_requires(f, (Some(iter),)),
            forall|state: &mut DriveState<Iter, Item, T>| #[trigger] self.lends(state)
                && (*state)@.iterator is None ==> call_requires(f, (None,)),
        ensures
            ret is Err ==> self.refuses(),
            ret is Ok ==> exists|state: &mut DriveState<Iter, Item, T>|
                #[trigger] self.lends(state)
                && ((*state)@.iterator is None ==> call_ensures(f, (None,), ret->Ok_0)
                    && (*final(state))@ == (*state)@.after_mutation(None))
                && ((*state)@.iterator is Some ==> exists|iter: &mut Iter|
                    #[trigger] call_ensures(f, (Some(iter),), ret->Ok_0)
                    && (*state)@.iterator == Some(*iter)
                    && (*final(state))@ == (*state)@.after_mutation(Some(*final(iter)))),
    {
        self.with_mut(f)
    }

    /// Lends the iterator to `f`, or `None` if it is done and dropped.
    ///
    /// The driver polls the iterator and the body again before it waits, in case `f` gave the
    /// iterator more to do.
    ///
    /// Fails only if the borrow of the cell failed, and then `f` does not run. Otherwise the state
    /// that was borrowed takes the step of `DriveState::with_mut`. What the cell holds after the
    /// call is known only at run time.
    pub fn with_mut<F, Ret>(&self, f: F) -> (ret: Result<Ret, AlreadyBorrowed>)
        where F: FnOnce(Option<&mut Iter>) -> Ret
        requires
            forall|state: &mut DriveState<Iter, Item, T>, iter: &mut Iter|
                #![trigger self.lends(state), call_requires(f, (Some(iter),))]
                self.lends(state) && (*state)@.iterator == Some(*iter) ==> call_requires(f, (Some(iter),)),
            forall|state: &mut DriveState<Iter, Item, T>| #[trigger] self.lends(state)
                && (*state)@.iterator is None ==> call_requires(f, (None,)),
        ensures
            ret is Err ==> self.refuses(),
            ret is Ok ==> exists|state: &mut DriveState<Iter, Item, T>|
                #[trigger] self.lends(state)
                && ((*state)@.iterator is None ==> call_ensures(f, (None,), ret->Ok_0)
                    && (*final(state))@ == (*state)@.after_mutation(None))
                && ((*state)@.iterator is Some ==> exists|iter: &mut Iter|
                    #[trigger] call_ensures(f, (Some(iter),), ret->Ok_0)
                    && (*state)@.iterator == Some(*iter)
                    && (*final(state))@ == (*state)@.after_mutation(Some(*final(iter)))),
    {
        match self.borrow() {
            Ok(mut guard) => {
                let ret = self.lend(&mut guard).with_mut(f);
                let lent: Result<Ret, AlreadyBorrowed> = Ok(ret);
                assert(lent->Ok_0 == ret);
                lent
            },
            Err(_) => Err(AlreadyBorrowed),
        }
    }
}

/// A handle is refused, or lent a state, only by a borrow of its own cell that failed, or
/// succeeded.
pub proof fn law_handles_borrow_their_cell<'a, Iter, Item, T>(
    handle: DrivenAsyncIterator<'a, Iter, Item, T>,
    state: &mut DriveState<Iter, Item, T>,
)
    ensures
        handle.refuses() ==> exists|error: BorrowMutError| #[trigger] call_ensures(
            AtomicRefCell::<DriveState<Iter, Item, T>>::try_borrow_mut,
            (handle.cell(),),
            Err::<AtomicRefMut<'a, DriveState<Iter, Item, T>>, BorrowMutError>(error),
        ),
        handle.lends(state) ==> exists|guard: AtomicRefMut<'a, DriveState<Iter, Item, T>>| #[trigger] call_ensures(
            AtomicRefCell::<DriveState<Iter, Item, T>>::try_borrow_mut,
            (handle.cell(),),
            Ok::<AtomicRefMut<'a, DriveState<Iter, Item, T>>, BorrowMutError>(guard),
        ),
{
}

/// Handles to the same cell borrow the same: what one may be refused or lent, the other may be
/// too.
pub proof fn law_handles_share_the_cell<'a, Iter, Item, T>(
    first: DrivenAsyncIterator<'a, Iter, Item, T>,
    second: DrivenAsyncIterator<'a, Iter, Item, T>,
)
    requires
        first.cell() == second.cell(),
    ensures
        first.refuses() == second.refuses(),
        forall|state: &mut DriveState<Iter, Item, T>| #[trigger] first.lends(state) == second.lends(state),
{
}

} // verus!
