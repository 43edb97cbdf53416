//! Two small futures that the driver is built from.

use vstd::prelude::*;

use crate::poll::Poll;

verus! {

/// A future that is pending the first time it is polled, and ready from then on. Waiting for it
/// gives up control until the next wakeup.
#[derive(Debug)]
pub struct PendingOnce {
    yielded: bool,
}

/// A future that has not been polled yet.
pub fn pending_once() -> (future: PendingOnce)
    ensures
        !future@,
{
    PendingOnce { yielded: false }
}

impl View for PendingOnce {
    /// Whether the future was polled before.
    type V = bool;

    closed spec fn view(&self) -> bool {
        self.yielded
    }
}

impl PendingOnce {
    /// The answer to a poll, given whether the future was polled before.
    pub open spec fn answer(polled: bool) -> Poll<()> {
        if polled {
            Poll::Ready(())
        } else {
            Poll::Pending
        }
    }

    /// The answers to the next `n` polls, given whether the future was polled before.
    pub open spec fn answers(polled: bool, n: nat) -> Seq<Poll<()>>
        decreases n,
    {
        if n == 0 {
            seq![]
        } else {
            seq![Self::answer(polled)] + Self::answers(true, (n - 1) as nat)
        }
    }

    /// A fresh future is pending for its first poll and for no other.
    pub proof fn law_pending_exactly_once(n: nat, k: int)
        requires
            0 <= k < n,
        ensures
            Self::answers(false, n).len() == n,
            Self::answers(false, n)[k] == if k == 0 { Poll::Pending } else { Poll::Ready(()) },
    {
        Self::lemma_ready((n - 1) as nat);
    }

    proof fn lemma_ready(n: nat)
        ensures
            Self::answers(true, n).len() == n,
            forall|k: int| 0 <= k < n ==> #[trigger] Self::answers(true, n)[k] == Poll::Ready(()),
        decreases n,
    {
        if n > 0 {
            Self::lemma_ready((n - 1) as nat);
        }
    }

    /// Polls the future.
    pub fn poll(&mut self) -> (polled: Poll<()>)
        ensures
            polled == Self::answer(old(self)@),
            final(self)@,
    {
        if self.yielded {
            Poll::Ready(())
        } else {
            self.yielded = true;
            Poll::Pending
        }
    }
}

/// A future that is always ready, with the answer of another future that is polled once.
pub struct PollOnce<'a, Fut>(pub &'a mut Fut);

/// Wraps `fut`, to be polled once.
pub fn poll_once<'a, Fut>(fut: &'a mut Fut) -> (future: PollOnce<'a, Fut>)
    ensures
        *future.0 == *old(fut),
        *final(future.0) == *final(fut),
{
    PollOnce(fut)
}

impl<Fut> PollOnce<'_, Fut> {
    /// Polls the wrapped future, with `poll`, and is ready with its answer.
    pub fn poll<Output, F>(&mut self, poll: F) -> (polled: Poll<Poll<Output>>)
        where F: FnOnce(&mut Fut) -> Poll<Output>
        requires
            forall|fut: &mut Fut| *fut == *old(self).0 ==> call_requires(poll, (fut,)),
        ensures
            exists|fut: &mut Fut, answer: Poll<Output>| #[trigger] call_ensures(poll, (fut,), answer)
                && *fut == *old(self).0
                && *final(fut) == *final(self).0
                && polled == Poll::Ready(answer),
            *final(final(self).0) == *final(old(self).0),
    {
        Poll::Ready(poll(self.0))
    }
}

} // verus!
