//! The laws of single steps once more, stated of the calls: what a call returns and leaves behind,
//! over the fields of the state and the answers of the iterator.

use vstd::prelude::*;

use crate::handle::{AlreadyBorrowed, DrivenAsyncIterator};
use crate::never_done::NeverDone;
use crate::once::PendingOnce;
use crate::poll::{Poll, PollNext};
use crate::state::{DriveState, Turn};

verus! {

/// At the end of a round, the first of these that applies decides what is next: the body returned
/// early, control reached its end, it touched an iterator that is still there. Otherwise the
/// driver waits.
pub proof fn law_settle_decides<Iter, Item, T, R, F: FnOnce(&mut Iter) -> Poll<()>>(
    body: Poll<R>,
    poll: F,
    turn: Turn<R, T>,
)
    ensures
        forall|state: &mut DriveState<Iter, Item, T>| #[trigger] call_ensures(
            DriveState::<Iter, Item, T>::settle::<R, F>,
            (state, body, poll),
            turn,
        ) ==> match body {
            Poll::Ready(output) => turn == Turn::<R, T>::Return(output),
            Poll::Pending => match (*state)@.body_value {
                Some(value) => turn == Turn::<R, T>::Break(value),
                None => if (*state)@.mutated_this_iteration && (*state)@.iterator is Some {
                    turn == Turn::<R, T>::Again
                } else {
                    turn == Turn::<R, T>::Yield
                },
            },
        },
{
}

/// At the end of a round, an early return leaves the state as it is, and the value of the body is
/// handed out once. If the body is pending, its use of the iterator is forgotten, and the iterator
/// is polled for progress only before the driver waits, only if no item is wanted. Nothing else
/// changes.
pub proof fn law_settle_keeps<Iter, Item, T, R, F: FnOnce(&mut Iter) -> Poll<()>>(
    body: Poll<R>,
    poll: F,
    turn: Turn<R, T>,
)
    ensures
        forall|state: &mut DriveState<Iter, Item, T>| #[trigger] call_ensures(
            DriveState::<Iter, Item, T>::settle::<R, F>,
            (state, body, poll),
            turn,
        ) ==> {
            &&& (*final(state))@.item == (*state)@.item
            &&& (*final(state))@.next_item_wanted == (*state)@.next_item_wanted
            &&& (*final(state))@.body_value == (if body is Ready { (*state)@.body_value } else { None })
            &&& (*final(state))@.mutated_this_iteration == ((body is Ready || (*state)@.body_value is Some)
                && (*state)@.mutated_this_iteration)
            &&& if body is Pending && (*state)@.body_value is None && !(*state)@.mutated_this_iteration
                && !(*state)@.next_item_wanted && (*state)@.iterator is Some {
                exists|iter: &mut Iter, answer: Poll<()>| #[trigger] call_ensures(poll, (iter,), answer)
                    && (*state)@.iterator == Some(*iter)
                    && (*final(state))@.iterator == Some(*final(iter))
            } else {
                (*final(state))@.iterator == (*state)@.iterator
            }
        },
{
}

/// A `next` takes the item in the buffer first, is at the end if there is none and the iterator is
/// gone, waits if one is being fetched, and otherwise asks the iterator and passes its answer on.
pub proof fn law_next_decides<Iter, Item, T, F: FnOnce(&mut Iter) -> PollNext<Item>>(
    poll: F,
    polled: Poll<Option<Item>>,
)
    ensures
        forall|state: &mut DriveState<Iter, Item, T>| #[trigger] call_ensures(
            DriveState::<Iter, Item, T>::next::<F>,
            (state, poll),
            polled,
        ) ==> {
            &&& (*state)@.item is Some ==> polled == Poll::Ready((*state)@.item)
            &&& (*state)@.item is None && (*state)@.iterator is None ==> polled == Poll::Ready(None::<Item>)
            &&& (*state)@.item is None && (*state)@.iterator is Some && (*state)@.next_item_wanted ==> polled
                == Poll::<Option<Item>>::Pending
            &&& (*state)@.item is None && (*state)@.iterator is Some && !(*state)@.next_item_wanted
                ==> exists|iter: &mut Iter, answer: PollNext<Item>| #[trigger] call_ensures(poll, (iter,), answer)
                && (*state)@.iterator == Some(*iter)
                && (*final(state))@.iterator == (if answer is Done { None } else { Some(*final(iter)) })
                && (*final(state))@.next_item_wanted == (answer is Pending)
                && match answer {
                    PollNext::Item(item) => polled == Poll::Ready(Some(item)),
                    PollNext::Done => polled == Poll::Ready(None::<Item>),
                    PollNext::Pending => polled == Poll::<Option<Item>>::Pending,
                }
        },
{
}

/// A `next` leaves the buffer empty. It leaves the iterator and what is wanted alone if it does
/// not ask the iterator, and everything else in any case.
pub proof fn law_next_keeps<Iter, Item, T, F: FnOnce(&mut Iter) -> PollNext<Item>>(
    poll: F,
    polled: Poll<Option<Item>>,
)
    ensures
        forall|state: &mut DriveState<Iter, Item, T>| #[trigger] call_ensures(
            DriveState::<Iter, Item, T>::next::<F>,
            (state, poll),
            polled,
        ) ==> {
            &&& (*final(state))@.item is None
            &&& (*final(state))@.mutated_this_iteration == (*state)@.mutated_this_iteration
            &&& (*final(state))@.body_value == (*state)@.body_value
            &&& (*state)@.item is Some || (*state)@.iterator is None || (*state)@.next_item_wanted ==> {
                &&& (*final(state))@.iterator == (*state)@.iterator
                &&& (*final(state))@.next_item_wanted == (*state)@.next_item_wanted
            }
        },
{
}

/// A background fetch asks the iterator if an item is wanted, none is in the buffer, and the
/// iterator is there. An item that it gives goes into the buffer and is no longer wanted. Nothing
/// else changes.
pub proof fn law_fetch_call<Iter, Item, T, F: FnOnce(&mut Iter) -> PollNext<Item>>(poll: F)
    ensures
        forall|state: &mut DriveState<Iter, Item, T>| #[trigger] call_ensures(
            DriveState::<Iter, Item, T>::fetch::<F>,
            (state, poll),
            (),
        ) ==> {
            &&& (*final(state))@.mutated_this_iteration == (*state)@.mutated_this_iteration
            &&& (*final(state))@.body_value == (*state)@.body_value
            &&& if (*state)@.next_item_wanted && (*state)@.item is None && (*state)@.iterator is Some {
                exists|iter: &mut Iter, answer: PollNext<Item>| #[trigger] call_ensures(poll, (iter,), answer)
                    && (*state)@.iterator == Some(*iter)
                    && match answer {
                        PollNext::Item(item) => {
                            &&& (*final(state))@.iterator == Some(*final(iter))
                            &&& (*final(state))@.item == Some(item)
                            &&& !(*final(state))@.next_item_wanted
                        },
                        PollNext::Done => {
                            &&& (*final(state))@.iterator is None
                            &&& (*final(state))@.item is None
                            &&& (*final(state))@.next_item_wanted
                        },
                        PollNext::Pending => {
                            &&& (*final(state))@.iterator == Some(*final(iter))
                            &&& (*final(state))@.item is None
                            &&& (*final(state))@.next_item_wanted
                        },
                    }
            } else {
                &&& (*final(state))@.iterator == (*state)@.iterator
                &&& (*final(state))@.item == (*state)@.item
                &&& (*final(state))@.next_item_wanted == (*state)@.next_item_wanted
            }
        },
{
}

/// Whoever gets hold of the iterator is noted, whether it is there or not, gets the iterator
/// itself, and changes nothing but the iterator.
pub proof fn law_with_mut_call<Iter, Item, T, Ret, F: FnOnce(Option<&mut Iter>) -> Ret>(f: F, ret: Ret)
    ensures
        forall|state: &mut DriveState<Iter, Item, T>| #[trigger] call_ensures(
            DriveState::<Iter, Item, T>::with_mut::<F, Ret>,
            (state, f),
            ret,
        ) ==> {
            &&& (*final(state))@.mutated_this_iteration
            &&& (*final(state))@.item == (*state)@.item
            &&& (*final(state))@.next_item_wanted == (*state)@.next_item_wanted
            &&& (*final(state))@.body_value == (*state)@.body_value
            &&& (*state)@.iterator is None ==> (*final(state))@.iterator is None && call_ensures(f, (None,), ret)
            &&& (*state)@.iterator is Some ==> exists|iter: &mut Iter|
                #[trigger] call_ensures(f, (Some(iter),), ret)
                && (*state)@.iterator == Some(*iter)
                && (*final(state))@.iterator == Some(*final(iter))
        },
{
}

/// A poll for an item is passed on to the iterator, which is dropped if it is done. Once it is
/// gone, the answer is that it is done. Nothing else changes.
pub proof fn law_poll_next_call<Iter, Item, T, F: FnOnce(&mut Iter) -> PollNext<Item>>(
    poll: F,
    answer: PollNext<Item>,
)
    ensures
        forall|state: &mut DriveState<Iter, Item, T>| #[trigger] call_ensures(
            DriveState::<Iter, Item, T>::poll_next_once::<F>,
            (state, poll),
            answer,
        ) ==> {
            &&& (*final(state))@.item == (*state)@.item
            &&& (*final(state))@.next_item_wanted == (*state)@.next_item_wanted
            &&& (*final(state))@.mutated_this_iteration == (*state)@.mutated_this_iteration
            &&& (*final(state))@.body_value == (*state)@.body_value
            &&& answer is Done ==> (*final(state))@.iterator is None
            &&& (*state)@.iterator is None ==> answer is Done && (*final(state))@.iterator is None
            &&& (*state)@.iterator is Some ==> exists|iter: &mut Iter| #[trigger] call_ensures(poll, (iter,), answer)
                && (*state)@.iterator == Some(*iter)
                && (answer is Done || (*final(state))@.iterator == Some(*final(iter)))
        },
{
}

/// A poll for progress is passed on to the iterator. Once it is gone, there is nothing to wait
/// for. Nothing else changes.
pub proof fn law_poll_progress_call<Iter, Item, T, F: FnOnce(&mut Iter) -> Poll<()>>(poll: F, answer: Poll<()>)
    ensures
        forall|state: &mut DriveState<Iter, Item, T>| #[trigger] call_ensures(
            DriveState::<Iter, Item, T>::poll_progress_once::<F>,
            (state, poll),
            answer,
        ) ==> {
            &&& (*final(state))@.item == (*state)@.item
            &&& (*final(state))@.next_item_wanted == (*state)@.next_item_wanted
            &&& (*final(state))@.mutated_this_iteration == (*state)@.mutated_this_iteration
            &&& (*final(state))@.body_value == (*state)@.body_value
            &&& (*state)@.iterator is None ==> answer is Ready && (*final(state))@.iterator is None
            &&& (*state)@.iterator is Some ==> exists|iter: &mut Iter| #[trigger] call_ensures(poll, (iter,), answer)
                && (*state)@.iterator == Some(*iter)
                && (*final(state))@.iterator == Some(*final(iter))
        },
{
}

/// A new state owns the iterator, and nothing has happened yet.
pub proof fn law_new_call<Iter, Item, T>(iter: Iter, state: DriveState<Iter, Item, T>)
    requires
        call_ensures(DriveState::<Iter, Item, T>::new, (iter,), state),
    ensures
        state@.iterator == Some(iter),
        state@.item is None,
        !state@.next_item_wanted,
        !state@.mutated_this_iteration,
        state@.body_value is None,
{
}

/// Whoever gets hold of the iterator through a handle is noted in the state that was lent, gets
/// the iterator that is in it, and changes nothing but the iterator. If the handle fails, its
/// borrow was refused.
pub proof fn law_handle_with_mut_call<'a, Iter, Item, T, Ret, F: FnOnce(Option<&mut Iter>) -> Ret>(
    handle: DrivenAsyncIterator<'a, Iter, Item, T>,
    f: F,
    ret: Result<Ret, AlreadyBorrowed>,
)
    requires
        call_ensures(DrivenAsyncIterator::<'a, Iter, Item, T>::with_mut::<F, Ret>, (&handle, f), ret)
            || call_ensures(DrivenAsyncIterator::<'a, Iter, Item, T>::with_pin_mut::<F, Ret>, (&handle, f), ret),
    ensures
        ret is Err ==> handle.refuses(),
        ret is Ok ==> exists|state: &mut DriveState<Iter, Item, T>| #[trigger] handle.lends(state) && {
            &&& (*final(state))@.mutated_this_iteration
            &&& (*final(state))@.item == (*state)@.item
            &&& (*final(state))@.next_item_wanted == (*state)@.next_item_wanted
            &&& (*final(state))@.body_value == (*state)@.body_value
            &&& (*state)@.iterator is None ==> (*final(state))@.iterator is None
                && call_ensures(f, (None,), ret->Ok_0)
            &&& (*state)@.iterator is Some ==> exists|iter: &mut Iter|
                #[trigger] call_ensures(f, (Some(iter),), ret->Ok_0)
                && (*state)@.iterator == Some(*iter)
                && (*final(state))@.iterator == Some(*final(iter))
        },
{
}

/// A `next` through a handle takes the item in the buffer of the state that was lent first, is at
/// the end if there is none and the iterator is gone, waits if one is being fetched, and otherwise
/// asks the iterator and passes its answer on. If the handle fails, its borrow was refused.
pub proof fn law_handle_next_call<'a, Iter, Item, T, F: FnOnce(&mut Iter) -> PollNext<Item>>(
    handle: DrivenAsyncIterator<'a, Iter, Item, T>,
    poll: F,
    ret: Result<Poll<Option<Item>>, AlreadyBorrowed>,
)
    requires
        call_ensures(DrivenAsyncIterator::<'a, Iter, Item, T>::next::<F>, (&handle, poll), ret),
    ensures
        ret is Err ==> handle.refuses(),
        ret matches Ok(polled) ==> exists|state: &mut DriveState<Iter, Item, T>| #[trigger] handle.lends(state) && {
            &&& (*final(state))@.item is None
            &&& (*final(state))@.mutated_this_iteration == (*state)@.mutated_this_iteration
            &&& (*final(state))@.body_value == (*state)@.body_value
            &&& (*state)@.item is Some ==> polled == Poll::Ready((*state)@.item)
            &&& (*state)@.item is None && (*state)@.iterator is None ==> polled == Poll::Ready(None::<Item>)
            &&& (*state)@.item is None && (*state)@.iterator is Some && (*state)@.next_item_wanted ==> polled
                == Poll::<Option<Item>>::Pending
            &&& if (*state)@.item is None && (*state)@.iterator is Some && !(*state)@.next_item_wanted {
                exists|iter: &mut Iter, answer: PollNext<Item>| #[trigger] call_ensures(poll, (iter,), answer)
                    && (*state)@.iterator == Some(*iter)
                    && (*final(state))@.iterator == (if answer is Done { None } else { Some(*final(iter)) })
                    && (*final(state))@.next_item_wanted == (answer is Pending)
                    && match answer {
                        PollNext::Item(item) => polled == Poll::Ready(Some(item)),
                        PollNext::Done => polled == Poll::Ready(None::<Item>),
                        PollNext::Pending => polled == Poll::<Option<Item>>::Pending,
                    }
            } else {
                &&& (*final(state))@.iterator == (*state)@.iterator
                &&& (*final(state))@.next_item_wanted == (*state)@.next_item_wanted
            }
        },
{
}

/// An iterator that is never done passes on what the inner iterator says, and pauses where that
/// one ends.
pub proof fn law_never_done_call<Iter, Item, F: FnOnce(&mut Iter) -> PollNext<Item>>(
    poll: F,
    answer: PollNext<Item>,
)
    ensures
        forall|wrapped: &mut NeverDone<Iter>| #[trigger] call_ensures(
            NeverDone::<Iter>::poll_next::<Item, F>,
            (wrapped, poll),
            answer,
        ) ==> exists|iter: &mut Iter, inner: PollNext<Item>| #[trigger] call_ensures(poll, (iter,), inner)
            && *iter == (*wrapped)@
            && *final(iter) == (*final(wrapped))@
            && match inner {
                PollNext::Item(item) => answer == PollNext::Item(item),
                _ => answer == PollNext::<Item>::Pending,
            },
{
}

/// A future that is pending once is ready if it was polled before, and has been polled then.
pub proof fn law_pending_once_call(answer: Poll<()>)
    ensures
        forall|future: &mut PendingOnce| #[trigger] call_ensures(PendingOnce::poll, (future,), answer) ==> {
            &&& answer is Ready <==> (*future)@
            &&& (*final(future))@
        },
{
}

} // verus!
