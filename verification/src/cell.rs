//! The cell that the driver and its handles share, from the `atomic_refcell` crate.

use atomic_refcell::{AtomicRefCell, AtomicRefMut, BorrowMutError};
use core::ops::DerefMut;
use vstd::prelude::*;

use crate::call::apply;
use crate::poll::{Poll, PollNext};
use crate::state::{DriveState, DriveView};

verus! {

/// `atomic_refcell::AtomicRefCell`, a cell that checks at run time that it is borrowed once.
#[verifier::external_type_specification]
#[verifier::external_body]
#[verifier::reject_recursive_types(T)]
pub struct ExAtomicRefCell<T: ?Sized>(AtomicRefCell<T>);

/// `atomic_refcell::AtomicRefMut`, the exclusive borrow of such a cell.
#[verifier::external_type_specification]
#[verifier::external_body]
#[verifier::reject_recursive_types(T)]
pub struct ExAtomicRefMut<'b, T: ?Sized + 'b>(AtomicRefMut<'b, T>);

/// `atomic_refcell::BorrowMutError`, which says that the cell is borrowed already.
#[verifier::external_type_specification]
#[verifier::external_body]
pub struct ExBorrowMutError(BorrowMutError);

/// `AtomicRefCell::try_borrow_mut` borrows the cell exclusively, or fails without panicking if
/// it is borrowed already. Who has borrowed it, and what is in it, is known only at run time, so
/// nothing is claimed of the result.
pub assume_specification<T: ?Sized>[ AtomicRefCell::<T>::try_borrow_mut ](
    cell: &AtomicRefCell<T>,
) -> (borrowed: Result<AtomicRefMut<'_, T>, BorrowMutError>)
;

/// `AtomicRefMut::deref_mut` gives access to the contents of the borrowed cell. What they are is
/// known only at run time, so nothing is claimed of them.
#[verifier::external_body]
pub(crate) fn contents_mut<'a, T: ?Sized>(guard: &'a mut AtomicRefMut<'_, T>) -> (contents: &'a mut T) {
    guard.deref_mut()
}

/// A state in a borrowed cell. A handle can use it for one whole step, and in no other way.
pub(crate) struct Lent<'b, Iter, Item, T>(&'b mut DriveState<Iter, Item, T>);

impl<'b, Iter, Item, T> Lent<'b, Iter, Item, T> {
    /// The state that is lent.
    pub(crate) closed spec fn state(self) -> &'b mut DriveState<Iter, Item, T> {
        self.0
    }

    /// Whether `guard` may give access to `state`.
    pub(crate) closed spec fn reaches(
        guard: AtomicRefMut<'b, DriveState<Iter, Item, T>>,
        state: &mut DriveState<Iter, Item, T>,
    ) -> bool {
        exists|borrowed: &mut AtomicRefMut<'b, DriveState<Iter, Item, T>>| *borrowed == guard
            && #[trigger] call_ensures(contents_mut::<DriveState<Iter, Item, T>>, (borrowed,), state)
    }

    /// The state in the cell that was borrowed with `guard`.
    pub(crate) fn new<'a>(guard: &'b mut AtomicRefMut<'a, DriveState<Iter, Item, T>>) -> (lent: Self)
        ensures
            Lent::<'a, Iter, Item, T>::reaches(*old(guard), lent.state()),
    {
        Lent(apply(contents_mut::<DriveState<Iter, Item, T>>, guard))
    }

    /// Takes the step of `DriveState::next` on the state that is lent.
    pub(crate) fn next<F>(self, poll: F) -> (polled: Poll<Option<Item>>)
        where F: FnOnce(&mut Iter) -> PollNext<Item>
        requires
            (*self.state())@.next_asks() ==> forall|iter: &mut Iter|
                (*self.state())@.iterator == Some(*iter) ==> call_requires(poll, (iter,)),
        ensures
            if (*self.state())@.next_asks() {
                exists|iter: &mut Iter, answer: PollNext<Item>|
                    #[trigger] call_ensures(poll, (iter,), answer)
                    && (*self.state())@.iterator == Some(*iter)
                    && polled == DriveView::<Iter, Item, T>::next_result(answer)
                    && (*final(self.state()))@ == (*self.state())@.after_next(*final(iter), answer)
            } else {
                polled == (*self.state())@.idle_next_result()
                    && (*final(self.state()))@ == (*self.state())@.after_idle_next()
            },
    {
        self.0.next(poll)
    }

    /// Takes the step of `DriveState::with_mut` on the state that is lent.
    pub(crate) fn with_mut<F, Ret>(self, f: F) -> (ret: Ret)
        where F: FnOnce(Option<&mut Iter>) -> Ret
        requires
            (*self.state())@.iterator is None ==> call_requires(f, (None,)),
            forall|iter: &mut Iter| (*self.state())@.iterator == Some(*iter) ==> call_requires(f, (Some(iter),)),
        ensures
            (*self.state())@.iterator is None ==> call_ensures(f, (None,), ret)
                && (*final(self.state()))@ == (*self.state())@.after_mutation(None),
            (*self.state())@.iterator is Some ==> exists|iter: &mut Iter|
                #[trigger] call_ensures(f, (Some(iter),), ret)
                && (*self.state())@.iterator == Some(*iter)
                && (*final(self.state()))@ == (*self.state())@.after_mutation(Some(*final(iter))),
    {
        self.0.with_mut(f)
    }
}

} // verus!
