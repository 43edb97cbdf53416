use atomic_refcell::AtomicRefCell;
use drive_async_iterator::{
    new_driven_async_iterator, pending_once, poll_once, AlreadyBorrowed, DriveState, NeverDone, Poll,
    PollNext, Turn,
};

type State = DriveState<Vec<&'static str>, u32, char>;

/// An iterator that writes down how it is polled.
fn state() -> State {
    DriveState::new(vec![])
}

fn log(state: &mut State) -> Vec<&'static str> {
    state.iterator().as_mut().unwrap().clone()
}

fn item(n: u32) -> impl FnOnce(&mut Vec<&'static str>) -> PollNext<u32> {
    move |iter: &mut Vec<&'static str>| {
        iter.push("item");
        PollNext::Item(n)
    }
}

fn pending(iter: &mut Vec<&'static str>) -> PollNext<u32> {
    iter.push("pending");
    PollNext::Pending
}

fn done(iter: &mut Vec<&'static str>) -> PollNext<u32> {
    iter.push("done");
    PollNext::Done
}

fn progress(iter: &mut Vec<&'static str>) -> Poll<()> {
    iter.push("progress");
    Poll::Pending
}

fn unexpected(_: &mut Vec<&'static str>) -> PollNext<u32> {
    panic!("polled")
}

fn unexpected_progress(_: &mut Vec<&'static str>) -> Poll<()> {
    panic!("polled for progress")
}

#[test]
fn a_new_state_has_done_nothing() {
    let mut state = state();
    assert_eq!(log(&mut state), Vec::<&str>::new());
    assert_eq!(*state.item(), None);
    assert!(!*state.next_item_wanted());
    assert!(!*state.mutated_this_iteration());
    assert_eq!(*state.body_value(), None);
}

#[test]
fn the_iterator_is_dropped_when_it_is_done() {
    let mut state = state();
    assert_eq!(state.poll_next_once(pending), PollNext::Pending);
    assert_eq!(state.poll_next_once(item(5)), PollNext::Item(5));
    assert_eq!(state.poll_progress_once(progress), Poll::Pending);
    assert_eq!(log(&mut state), vec!["pending", "item", "progress"]);
    assert_eq!(state.poll_next_once(done), PollNext::Done);
    assert!(state.iterator().is_none());
    assert_eq!(state.poll_next_once(unexpected), PollNext::Done);
    assert_eq!(state.poll_progress_once(unexpected_progress), Poll::Ready(()));
    assert_eq!(state.next(unexpected), Poll::Ready(None));
}

#[test]
fn next_asks_the_iterator_itself_first() {
    let mut state = state();
    assert_eq!(state.next(item(5)), Poll::Ready(Some(5)));
    assert!(!*state.next_item_wanted());
    assert_eq!(state.next(done), Poll::Ready(None));
    assert!(state.iterator().is_none());
}

#[test]
fn the_background_fetch_takes_over_from_next() {
    let mut state = state();
    // Nothing is wanted yet.
    state.fetch(unexpected);
    assert_eq!(state.next(pending), Poll::Pending);
    assert!(*state.next_item_wanted());
    // Another `next` leaves the asking to the fetch.
    assert_eq!(state.next(unexpected), Poll::Pending);
    state.fetch(pending);
    assert!(*state.next_item_wanted());
    state.fetch(item(7));
    assert!(!*state.next_item_wanted());
    assert_eq!(*state.item(), Some(7));
    // The buffer is full.
    state.fetch(unexpected);
    assert_eq!(state.next(unexpected), Poll::Ready(Some(7)));
    assert_eq!(*state.item(), None);
    assert_eq!(log(&mut state), vec!["pending", "pending", "item"]);
}

#[test]
fn a_fetch_that_ends_the_iteration_ends_next() {
    let mut state = state();
    assert_eq!(state.next(pending), Poll::Pending);
    state.fetch(done);
    assert!(state.iterator().is_none());
    assert_eq!(state.next(unexpected), Poll::Ready(None));
    state.fetch(unexpected);
    assert_eq!(state.settle(Poll::<u8>::Pending, unexpected_progress), Turn::Yield);
}

#[test]
fn the_driver_polls_for_progress_before_it_waits() {
    let mut state = state();
    assert_eq!(state.settle(Poll::<u8>::Pending, progress), Turn::Yield);
    assert_eq!(log(&mut state), vec!["progress"]);
    assert_eq!(state.next(pending), Poll::Pending);
    // Now the iterator owes an item and must not be polled for anything else.
    assert_eq!(state.settle(Poll::<u8>::Pending, unexpected_progress), Turn::Yield);
}

#[test]
fn a_mutation_is_followed_up() {
    let mut state = state();
    let grow = |iter: Option<&mut Vec<&'static str>>| {
        iter.unwrap().push("mutated");
        3
    };
    assert_eq!(state.with_mut(grow), 3);
    assert!(*state.mutated_this_iteration());
    // The driver goes round again before the iterator makes progress.
    assert_eq!(state.settle(Poll::<u8>::Pending, unexpected_progress), Turn::Again);
    assert!(!*state.mutated_this_iteration());
    state.fetch(unexpected);
    assert_eq!(state.settle(Poll::<u8>::Pending, progress), Turn::Yield);
    // Somebody waits for an item: it is asked for at once.
    assert_eq!(state.next(pending), Poll::Pending);
    assert_eq!(state.with_mut(grow), 3);
    assert_eq!(state.settle(Poll::<u8>::Pending, unexpected_progress), Turn::Again);
    assert!(!*state.mutated_this_iteration());
    state.fetch(item(1));
    assert_eq!(state.next(unexpected), Poll::Ready(Some(1)));
    assert_eq!(log(&mut state), vec!["mutated", "progress", "pending", "mutated", "item"]);
    // The iterator is gone: there is nothing to follow up.
    assert_eq!(state.next(done), Poll::Ready(None));
    assert_eq!(state.with_mut(|iter: Option<&mut Vec<&'static str>>| iter.is_none()), true);
    assert_eq!(state.settle(Poll::<u8>::Pending, unexpected_progress), Turn::Yield);
    assert!(!*state.mutated_this_iteration());
}

#[test]
fn an_early_return_comes_before_the_end_of_the_body() {
    let mut state = state();
    *state.body_value() = Some('v');
    assert_eq!(state.settle(Poll::Ready(4u8), unexpected_progress), Turn::Return(4));
    assert_eq!(*state.body_value(), Some('v'));
    assert_eq!(state.settle(Poll::<u8>::Pending, unexpected_progress), Turn::Break('v'));
    assert_eq!(*state.body_value(), None);
}

#[test]
fn a_handle_reports_reentrant_use() {
    let cell = AtomicRefCell::new(state());
    let handle = new_driven_async_iterator(&cell);
    let inner = handle.with_mut(|_: Option<&mut Vec<&'static str>>| {
        assert_eq!(handle.next(unexpected), Err(AlreadyBorrowed));
        handle.with_pin_mut(|_: Option<&mut Vec<&'static str>>| 1)
    });
    assert_eq!(inner, Ok(Err(AlreadyBorrowed)));
    assert_eq!(handle.next(item(9)), Ok(Poll::Ready(Some(9))));
    assert_eq!(handle.with_mut(|iter: Option<&mut Vec<&'static str>>| iter.unwrap().len()), Ok(1));
    assert_eq!(handle.fmt(), "DrivenAsyncIterator");
}

#[test]
fn never_done_is_pending_in_place_of_done() {
    let mut iter = NeverDone::new(vec![]);
    assert_eq!(iter.poll_next(done), PollNext::Pending);
    assert_eq!(iter.poll_next(pending), PollNext::Pending);
    assert_eq!(iter.poll_next(item(5)), PollNext::Item(5));
    assert_eq!(iter.poll_progress(progress), Poll::Pending);
    assert_eq!(iter.poll_progress(|_: &mut Vec<&'static str>| Poll::Ready(())), Poll::Ready(()));
    assert_eq!(iter.len(), 4);
    iter.clear();
    iter.as_pin_mut().push("more");
    assert_eq!(iter.into_inner(), vec!["more"]);
}

#[test]
fn pending_once_is_pending_once() {
    let mut future = pending_once();
    assert_eq!(future.poll(), Poll::Pending);
    assert_eq!(future.poll(), Poll::Ready(()));
    assert_eq!(future.poll(), Poll::Ready(()));
}

#[test]
fn poll_once_is_ready_with_the_answer() {
    let mut inner = pending_once();
    let mut future = poll_once(&mut inner);
    assert_eq!(future.poll(|f: &mut drive_async_iterator::PendingOnce| f.poll()), Poll::Ready(Poll::Pending));
    assert_eq!(poll_once(&mut inner).poll(|f: &mut drive_async_iterator::PendingOnce| f.poll()), Poll::Ready(Poll::Ready(())));
}
