use atomic_refcell::AtomicRefCell;
use drive_async_iterator::{
    new_driven_async_iterator, DriveState, DrivenAsyncIterator, NeverDone, Poll, PollNext, Turn,
};
use std::cell::{Cell, RefCell};
use std::collections::VecDeque;
use std::future::{poll_fn, Future};
use std::pin::Pin;
use std::rc::Rc;
use std::task::{Context, Waker};

/// What the tests drive.
trait AsyncIterator {
    type Item;
    fn poll_next(&mut self) -> PollNext<Self::Item>;
    fn poll_progress(&mut self) -> Poll<()> {
        Poll::Ready(())
    }
}

/// An iterator whose items are all ready.
struct Items<T>(VecDeque<T>);

impl<T> AsyncIterator for Items<T> {
    type Item = T;
    fn poll_next(&mut self) -> PollNext<T> {
        match self.0.pop_front() {
            Some(item) => PollNext::Item(item),
            None => PollNext::Done,
        }
    }
}

fn items<T>(list: Vec<T>) -> Items<T> {
    Items(list.into())
}

type Job<'a, T> = Pin<Box<dyn Future<Output = T> + 'a>>;

/// A set of futures that yields their outputs, and can be given more of them.
struct Jobs<'a, T> {
    running: Vec<Job<'a, T>>,
    finished: VecDeque<T>,
}

impl<'a, T> Jobs<'a, T> {
    fn new() -> Self {
        Jobs { running: vec![], finished: VecDeque::new() }
    }

    fn push(&mut self, job: impl Future<Output = T> + 'a) {
        self.running.push(Box::pin(job));
    }

    fn poll_all(&mut self) {
        let mut still = vec![];
        for mut job in self.running.drain(..) {
            match job.as_mut().poll(&mut Context::from_waker(Waker::noop())) {
                std::task::Poll::Ready(value) => self.finished.push_back(value),
                std::task::Poll::Pending => still.push(job),
            }
        }
        self.running = still;
    }
}

impl<T> AsyncIterator for Jobs<'_, T> {
    type Item = T;
    fn poll_next(&mut self) -> PollNext<T> {
        self.poll_all();
        match self.finished.pop_front() {
            Some(value) => PollNext::Item(value),
            None if self.running.is_empty() => PollNext::Done,
            None => PollNext::Pending,
        }
    }
    fn poll_progress(&mut self) -> Poll<()> {
        self.poll_all();
        if self.running.is_empty() { Poll::Ready(()) } else { Poll::Pending }
    }
}

impl<I: AsyncIterator> AsyncIterator for NeverDone<I> {
    type Item = I::Item;
    fn poll_next(&mut self) -> PollNext<I::Item> {
        NeverDone::poll_next(self, |iter: &mut I| iter.poll_next())
    }
    fn poll_progress(&mut self) -> Poll<()> {
        NeverDone::poll_progress(self, |iter: &mut I| iter.poll_progress())
    }
}

type State<I, T> = AtomicRefCell<DriveState<I, <I as AsyncIterator>::Item, T>>;

fn state<I: AsyncIterator, T>(iter: I) -> State<I, T> {
    AtomicRefCell::new(DriveState::new(iter))
}

fn into_std<T>(poll: Poll<T>) -> std::task::Poll<T> {
    match poll {
        Poll::Ready(value) => std::task::Poll::Ready(value),
        Poll::Pending => std::task::Poll::Pending,
    }
}

/// A future for the next item.
fn next<'a, I: AsyncIterator, T>(
    handle: &'a DrivenAsyncIterator<'a, I, I::Item, T>,
) -> impl Future<Output = Option<I::Item>> + 'a {
    poll_fn(move |_| into_std(handle.next(|iter: &mut I| iter.poll_next()).unwrap()))
}

/// Drives the iterator in `cell` until `body` has finished. Every wait ends in a wakeup, but after
/// a thousand of them the body is considered stuck. Also counts the waits.
fn drive<I: AsyncIterator, T>(cell: &State<I, T>, body: impl Future<Output = T>) -> (T, usize) {
    let mut body = Box::pin(body);
    let mut finished = false;
    let mut waits = 0;
    loop {
        cell.borrow_mut().fetch(|iter: &mut I| iter.poll_next());
        if !finished {
            let polled = body.as_mut().poll(&mut Context::from_waker(Waker::noop()));
            if let std::task::Poll::Ready(value) = polled {
                finished = true;
                *cell.borrow_mut().body_value() = Some(value);
            }
        }
        let turn = cell.borrow_mut().settle(Poll::<()>::Pending, |iter: &mut I| iter.poll_progress());
        match turn {
            Turn::Break(value) => return (value, waits),
            Turn::Again => {}
            Turn::Yield => waits += 1,
            Turn::Return(()) => unreachable!(),
        }
        assert!(waits < 1000, "deadlock");
    }
}

/// Waits for this many wakeups.
async fn sleep(ticks: usize) {
    let mut left = ticks;
    poll_fn(move |_| {
        if left == 0 {
            return std::task::Poll::Ready(());
        }
        left -= 1;
        std::task::Poll::Pending
    })
    .await
}

/// Polls `future` for this many wakeups at most.
async fn timeout<T>(ticks: usize, future: impl Future<Output = T>) -> Option<T> {
    let mut future = Box::pin(future);
    let mut left = ticks;
    poll_fn(move |cx| {
        if let std::task::Poll::Ready(value) = future.as_mut().poll(cx) {
            return std::task::Poll::Ready(Some(value));
        }
        if left == 0 {
            return std::task::Poll::Ready(None);
        }
        left -= 1;
        std::task::Poll::Pending
    })
    .await
}

/// Polls two futures side by side.
async fn join<A, B>(a: impl Future<Output = A>, b: impl Future<Output = B>) -> (A, B) {
    let (mut a, mut b) = (Box::pin(a), Box::pin(b));
    let (mut left, mut right) = (None, None);
    poll_fn(move |cx| {
        if left.is_none() {
            if let std::task::Poll::Ready(value) = a.as_mut().poll(cx) {
                left = Some(value);
            }
        }
        if right.is_none() {
            if let std::task::Poll::Ready(value) = b.as_mut().poll(cx) {
                right = Some(value);
            }
        }
        if left.is_some() && right.is_some() {
            std::task::Poll::Ready((left.take().unwrap(), right.take().unwrap()))
        } else {
            std::task::Poll::Pending
        }
    })
    .await
}

/// A lock that only futures wait for.
struct Mutex(Cell<bool>);

struct Guard<'a>(&'a Mutex);

impl Mutex {
    fn new() -> Self {
        Mutex(Cell::new(false))
    }
    fn try_lock(&self) -> Option<Guard<'_>> {
        if self.0.replace(true) { None } else { Some(Guard(self)) }
    }
    fn lock(&self) -> impl Future<Output = Guard<'_>> + '_ {
        poll_fn(|_| match self.try_lock() {
            Some(guard) => std::task::Poll::Ready(guard),
            None => std::task::Poll::Pending,
        })
    }
}

impl Drop for Guard<'_> {
    fn drop(&mut self) {
        (self.0).0.set(false);
    }
}

#[test]
fn test_drive() {
    let cell = state(items(vec![1, 2, 3]));
    let iter = new_driven_async_iterator(&cell);
    let (finished, waits) = drive(&cell, async {
        assert_eq!(next(&iter).await, Some(1));
        assert_eq!(next(&iter).await, Some(2));
        assert_eq!(next(&iter).await, Some(3));
        assert_eq!(next(&iter).await, None);
        true
    });
    assert!(finished);
    assert_eq!(waits, 0);
}

#[test]
fn test_mutex() {
    async fn foo(lock: &Mutex) {
        let _guard = lock.lock().await;
        sleep(10).await;
    }
    let lock = Mutex::new();
    let mut futures = Jobs::new();
    futures.push(foo(&lock));
    futures.push(foo(&lock));
    let cell = state(futures);
    let futures = new_driven_async_iterator(&cell);
    let (count, _) = drive(&cell, async {
        let mut count = 0;
        while let Some(()) = next(&futures).await {
            foo(&lock).await; // Should not deadlock here!
            count += 1;
        }
        count
    });
    assert_eq!(count, 2);
}

#[test]
fn test_delayed_next() {
    let lock = Mutex::new();
    let guard = lock.try_lock().unwrap();
    let mut futures = Jobs::new();
    futures.push(async {
        drop(guard);
        42
    });
    assert!(lock.try_lock().is_none());
    let cell = state(futures);
    let futures = new_driven_async_iterator(&cell);
    drive(&cell, async {
        // The futures should make progress even before the call to `next`, so the guard should
        // get dropped promptly. If not, this is a deadlock.
        let _guard = lock.lock().await;
        assert_eq!(next(&futures).await, Some(42));
        assert_eq!(next(&futures).await, None);
    });
}

#[test]
fn test_cancelled_next() {
    let mut futures = Jobs::new();
    futures.push(async {
        sleep(10).await;
        42
    });
    let cell = state(futures);
    let futures = new_driven_async_iterator(&cell);
    let (iterations, _) = drive(&cell, async {
        let mut iterations = 0;
        // `next` gets cancelled several times before it eventually returns the item.
        loop {
            iterations += 1;
            if let Some(Some(x)) = timeout(1, next(&futures)).await {
                assert_eq!(x, 42);
                break;
            }
        }
        iterations
    });
    assert!(iterations > 5);
}

#[test]
fn test_poll_progress_after_item() {
    struct ProgressAfterItem {
        item_yielded: bool,
        sender: Option<Rc<Cell<bool>>>,
    }
    impl AsyncIterator for ProgressAfterItem {
        type Item = ();
        fn poll_next(&mut self) -> PollNext<()> {
            if self.item_yielded {
                PollNext::Pending
            } else {
                self.item_yielded = true;
                PollNext::Item(())
            }
        }
        fn poll_progress(&mut self) -> Poll<()> {
            if self.item_yielded {
                if let Some(sender) = self.sender.take() {
                    sender.set(true);
                }
            }
            Poll::Ready(())
        }
    }
    let receiver = Rc::new(Cell::new(false));
    let cell = state(ProgressAfterItem { item_yielded: false, sender: Some(receiver.clone()) });
    let iter = new_driven_async_iterator(&cell);
    drive(&cell, async {
        assert_eq!(next(&iter).await, Some(()));
        // An item was taken, but the iterator was not yet polled for progress.
        assert!(!receiver.get());
        // It is when the body goes to wait for something else.
        poll_fn(|_| {
            if receiver.get() { std::task::Poll::Ready(()) } else { std::task::Poll::Pending }
        })
        .await;
    });
}

#[test]
fn test_concurrent_nexts() {
    let cell = state(items(vec![1, 2]));
    let iter = new_driven_async_iterator(&cell);
    drive(&cell, async {
        let (option1, option2) = join(next(&iter), next(&iter)).await;
        let mut items = [option1.unwrap(), option2.unwrap()];
        items.sort();
        assert_eq!(items, [1, 2]);
    });
}

#[test]
fn test_pending_then_done() {
    // Pending at first, and done without ever yielding an item.
    struct Foo(usize);
    impl AsyncIterator for Foo {
        type Item = ();
        fn poll_next(&mut self) -> PollNext<()> {
            if self.0 == 0 {
                return PollNext::Done;
            }
            self.0 -= 1;
            PollNext::Pending
        }
    }
    let cell = state(Foo(10));
    let iter = new_driven_async_iterator(&cell);
    drive(&cell, async {
        assert_eq!(next(&iter).await, None);
    });
    assert!(cell.borrow_mut().iterator().is_none());
}

#[test]
fn test_with_mut() {
    let cell = state(Jobs::new());
    let iter = new_driven_async_iterator(&cell);
    drive(&cell, async {
        iter.with_mut(|maybe_iter: Option<&mut Jobs<'_, i32>>| {
            maybe_iter.unwrap().push(async {
                sleep(10).await;
                42
            });
        })
        .unwrap();
        assert_eq!(next(&iter).await, Some(42));
        iter.with_pin_mut(|maybe_iter: Option<&mut Jobs<'_, i32>>| {
            maybe_iter.unwrap().push(async {
                sleep(10).await;
                99
            });
        })
        .unwrap();
        assert_eq!(next(&iter).await, Some(99));
        assert_eq!(next(&iter).await, None);
    });
}

#[test]
fn test_send_and_sync() {
    fn assert_send_sync<T: Send + Sync>(_: &T) {}
    let cell: State<Items<i32>, ()> = state(items(vec![1, 2, 3]));
    let iter = new_driven_async_iterator(&cell);
    assert_send_sync(&cell);
    assert_send_sync(&iter);
    drive(&cell, async { while let Some(_) = next(&iter).await {} });
    let future = async {
        let cell: State<Items<i32>, ()> = state(items(vec![1, 2, 3]));
        let iter = new_driven_async_iterator(&cell);
        while let Some(_) = next(&iter).await {}
    };
    assert_send_sync(&future);
}

#[test]
fn test_with_mut_after_drop() {
    let cell = state(items(vec![()]));
    let iter = new_driven_async_iterator(&cell);
    drive(&cell, async {
        iter.with_mut(|maybe: Option<&mut Items<()>>| assert!(maybe.is_some())).unwrap();
        assert!(next(&iter).await.is_some());
        iter.with_mut(|maybe: Option<&mut Items<()>>| assert!(maybe.is_some())).unwrap();
        assert!(next(&iter).await.is_none());
        iter.with_mut(|maybe: Option<&mut Items<()>>| assert!(maybe.is_none())).unwrap();
        assert!(next(&iter).await.is_none());
        iter.with_mut(|maybe: Option<&mut Items<()>>| assert!(maybe.is_none())).unwrap();
    });
}

#[test]
fn never_done_takes_more_work() {
    // The work is added by one half of the body while the other half is waiting for an item, and
    // nothing but the mutation itself tells the driver that there is something to do.
    let cell = state(NeverDone::new(Jobs::new()));
    let iter = new_driven_async_iterator(&cell);
    let (items, waits) = drive(&cell, async {
        let (items, ()) = join(
            async { vec![next(&iter).await.unwrap(), next(&iter).await.unwrap()] },
            async {
                sleep(1).await;
                iter.with_mut(|jobs: Option<&mut NeverDone<Jobs<'_, i32>>>| {
                    let jobs = jobs.expect("never dropped");
                    jobs.push(async { 1 });
                    jobs.push(async { 2 });
                })
                .unwrap();
            },
        )
        .await;
        items
    });
    assert_eq!(items, vec![1, 2]);
    assert_eq!(waits, 1);
}

#[test]
fn items_of_a_cancelled_next_are_not_lost() {
    let log = RefCell::new(vec![]);
    let mut jobs = Jobs::new();
    for n in 0..3 {
        jobs.push(async move {
            sleep(2).await;
            n
        });
    }
    let cell = state(jobs);
    let iter = new_driven_async_iterator(&cell);
    drive(&cell, async {
        // Begins a fetch and gives it up.
        assert_eq!(timeout(0, next(&iter)).await, None);
        // The item arrives while nobody is waiting for it.
        sleep(10).await;
        while let Some(item) = next(&iter).await {
            log.borrow_mut().push(item);
        }
    });
    assert_eq!(log.into_inner(), vec![0, 1, 2]);
}

#[test]
fn a_mutation_polls_the_body_again() {
    let cell = state(items(vec![1]));
    let iter = new_driven_async_iterator(&cell);
    let polls = Cell::new(0);
    let (_, waits) = drive(
        &cell,
        poll_fn(|_| {
            polls.set(polls.get() + 1);
            if polls.get() == 1 {
                iter.with_mut(|maybe: Option<&mut Items<i32>>| maybe.unwrap().0.push_back(2)).unwrap();
                return std::task::Poll::Pending;
            }
            std::task::Poll::Ready(())
        }),
    );
    assert_eq!((polls.get(), waits), (2, 0));
}
