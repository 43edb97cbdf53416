//! What holds of a driven iterator whatever happens: in every order of background fetches, polls
//! of `next` futures (concurrent or cancelled), mutations by the body and rounds of the driver,
//! and whatever the iterator answers. First come the laws on histories, then those on a single
//! step from any state.

use vstd::prelude::*;

use crate::history::{Call, Event};
use crate::poll::{Poll, PollNext};
use crate::state::{DriveView, Turn};

verus! {

/// No item is asked for while one is in the buffer, and none is left in the buffer once the
/// iterator is gone.
pub proof fn law_buffer<Iter, Item, T>(iter: Iter, events: Seq<Event<Iter, Item>>)
    ensures
        DriveView::<Iter, Item, T>::initial(iter).run(events).wf(),
        DriveView::<Iter, Item, T>::initial(iter).run(events).item is Some
            ==> !DriveView::<Iter, Item, T>::initial(iter).run(events).next_item_wanted,
        DriveView::<Iter, Item, T>::initial(iter).run(events).iterator is None
            ==> DriveView::<Iter, Item, T>::initial(iter).run(events).item is None,
    decreases events.len(),
{
    if events.len() > 0 {
        law_buffer::<Iter, Item, T>(iter, events.drop_last());
    }
}

proof fn lemma_concat<Item>(first: Seq<Call<Item>>, second: Seq<Call<Item>>)
    ensures
        Call::yielded(first + second) == Call::yielded(first) + Call::yielded(second),
        Call::delivered(first + second) == Call::delivered(first) + Call::delivered(second),
    decreases second.len(),
{
    if second.len() == 0 {
        assert(first + second == first);
    } else {
        lemma_concat(first, second.drop_last());
        assert((first + second).drop_last() == first + second.drop_last());
    }
}

/// Every item that the iterator gives comes out of `next` once, in order, unless it is still in
/// the buffer. None is lost when a `next` is cancelled, and concurrent `next`s share them.
pub proof fn law_items_in_order<Iter, Item, T>(iter: Iter, events: Seq<Event<Iter, Item>>)
    ensures
        ({
            let start = DriveView::<Iter, Item, T>::initial(iter);
            Call::yielded(start.record(events))
                == Call::delivered(start.record(events)) + start.run(events).buffered()
        }),
    decreases events.len(),
{
    let start = DriveView::<Iter, Item, T>::initial(iter);
    if events.len() > 0 {
        let earlier = events.drop_last();
        let added = start.run(earlier).entries(events.last());
        law_items_in_order::<Iter, Item, T>(iter, earlier);
        law_buffer::<Iter, Item, T>(iter, earlier);
        lemma_concat(start.record(earlier), added);
        reveal_with_fuel(Call::yielded, 3);
        reveal_with_fuel(Call::delivered, 3);
        assert(added.len() > 0 ==> added.drop_last() == added.take(added.len() - 1));
        assert(Call::yielded(start.record(events))
            =~= Call::delivered(start.record(events)) + start.run(events).buffered());
    }
}

/// Everything about the end of the iteration, for the record of `events` and all its prefixes.
proof fn lemma_end<Iter, Item, T>(iter: Iter, events: Seq<Event<Iter, Item>>)
    ensures
        ({
            let start = DriveView::<Iter, Item, T>::initial(iter);
            let record = start.record(events);
            &&& start.run(events).iterator is Some <==> !record.contains(Call::PollNext(PollNext::Done))
            &&& forall|i: int, j: int|
                0 <= i < j < record.len() && #[trigger] record[i] == Call::PollNext(PollNext::<Item>::Done) ==> {
                    &&& !(#[trigger] record[j]).is_poll()
                    &&& record[j] !is Mutate
                    &&& record[j] matches Call::Deliver(value) ==> value is None
                }
            &&& forall|j: int| 0 <= j < record.len() && #[trigger] record[j] == Call::Deliver(None::<Item>)
                ==> exists|i: int| 0 <= i < j && record[i] == Call::PollNext(PollNext::<Item>::Done)
        }),
    decreases events.len(),
{
    let start = DriveView::<Iter, Item, T>::initial(iter);
    if events.len() > 0 {
        let earlier = events.drop_last();
        lemma_end::<Iter, Item, T>(iter, earlier);
        law_buffer::<Iter, Item, T>(iter, earlier);
        let before = start.record(earlier);
        let added = start.run(earlier).entries(events.last());
        let record = start.record(events);
        let done = Call::PollNext(PollNext::<Item>::Done);
        let live = start.run(earlier).iterator is Some;
        assert(forall|k: int| before.len() <= k < record.len() ==> #[trigger] record[k] == added[k - before.len()]);
        if !live {
            let d = before.index_of(done);
            assert(record[d] == done);
        } else if start.run(events).iterator is None {
            assert(added[0] == done);
            assert(record[before.len() as int] == done);
        }
        assert(start.run(events).iterator is Some ==> !added.contains(done));
    }
}

/// The iterator is there as long as it has not said that it is done, and no longer: it is dropped
/// at once.
pub proof fn law_dropped_when_done<Iter, Item, T>(iter: Iter, events: Seq<Event<Iter, Item>>)
    ensures
        DriveView::<Iter, Item, T>::initial(iter).run(events).iterator is Some
            <==> !DriveView::<Iter, Item, T>::initial(iter).record(events).contains(
            Call::PollNext(PollNext::Done),
        ),
{
    lemma_end::<Iter, Item, T>(iter, events);
}

/// Once the iterator has said that it is done, it is left alone: it is not polled again and the
/// body does not get hold of it. Every `next` is then answered with `None`.
pub proof fn law_fused<Iter, Item, T>(iter: Iter, events: Seq<Event<Iter, Item>>, i: int, j: int)
    requires
        0 <= i < j < DriveView::<Iter, Item, T>::initial(iter).record(events).len(),
        DriveView::<Iter, Item, T>::initial(iter).record(events)[i] == Call::PollNext(PollNext::<Item>::Done),
    ensures
        ({
            let entry = DriveView::<Iter, Item, T>::initial(iter).record(events)[j];
            &&& !entry.is_poll()
            &&& entry !is Mutate
            &&& entry matches Call::Deliver(value) ==> value is None
        }),
        DriveView::<Iter, Item, T>::initial(iter).run(events).iterator is None,
{
    lemma_end::<Iter, Item, T>(iter, events);
}

/// A `next` is answered with `None` only after the iterator has said that it is done.
pub proof fn law_none_means_done<Iter, Item, T>(iter: Iter, events: Seq<Event<Iter, Item>>, j: int)
    requires
        0 <= j < DriveView::<Iter, Item, T>::initial(iter).record(events).len(),
        DriveView::<Iter, Item, T>::initial(iter).record(events)[j] == Call::Deliver(None::<Item>),
    ensures
        exists|i: int| 0 <= i < j && #[trigger] DriveView::<Iter, Item, T>::initial(iter).record(events)[i]
            == Call::PollNext(PollNext::<Item>::Done),
{
    lemma_end::<Iter, Item, T>(iter, events);
}

/// Whether the iterator has answered `Pending` and has not been asked to the end since.
spec fn owes_an_answer<Item>(record: Seq<Call<Item>>) -> bool {
    exists|i: int| 0 <= i < record.len() && #[trigger] record[i] == Call::PollNext(PollNext::<Item>::Pending)
        && forall|k: int| i < k < record.len() ==> !#[trigger] settles(record[k])
}

/// Whether the entry is an answer other than `Pending`.
pub open spec fn settles<Item>(entry: Call<Item>) -> bool {
    entry is PollNext && entry != Call::PollNext(PollNext::<Item>::Pending)
}

proof fn lemma_owes<Item>(record: Seq<Call<Item>>, entry: Call<Item>)
    ensures
        owes_an_answer(record.push(entry)) == if entry is PollNext {
            entry == Call::PollNext(PollNext::<Item>::Pending)
        } else {
            owes_an_answer(record)
        },
{
    let longer = record.push(entry);
    assert(longer[record.len() as int] == entry);
    if entry is PollNext {
        assert(settles(longer[record.len() as int]) == settles(entry));
    } else if owes_an_answer(record) {
        let i = choose|i: int| 0 <= i < record.len() && #[trigger] record[i] == Call::PollNext(PollNext::<Item>::Pending)
            && forall|k: int| i < k < record.len() ==> !#[trigger] settles(record[k]);
        assert(longer[i] == record[i]);
        assert forall|k: int| i < k < longer.len() implies !#[trigger] settles(longer[k]) by {
            if k < record.len() {
                assert(!settles(record[k]));
            }
        }
    } else if owes_an_answer(longer) {
        let i = choose|i: int| 0 <= i < longer.len() && #[trigger] longer[i] == Call::PollNext(PollNext::<Item>::Pending)
            && forall|k: int| i < k < longer.len() ==> !#[trigger] settles(longer[k]);
        assert(record[i] == longer[i]);
        assert forall|k: int| i < k < record.len() implies !#[trigger] settles(record[k]) by {
            assert(!settles(longer[k]));
        }
    }
}

/// As long as the iterator is there, an item is wanted exactly when the iterator owes an answer,
/// so it is never polled for progress while it does.
proof fn lemma_wanted<Iter, Item, T>(iter: Iter, events: Seq<Event<Iter, Item>>)
    ensures
        ({
            let start = DriveView::<Iter, Item, T>::initial(iter);
            let record = start.record(events);
            &&& start.run(events).iterator is Some
                ==> start.run(events).next_item_wanted == owes_an_answer(record)
            &&& forall|i: int, j: int|
                0 <= i < j < record.len() && #[trigger] record[i] == Call::PollNext(PollNext::<Item>::Pending)
                    && #[trigger] record[j] == Call::<Item>::PollProgress
                    ==> exists|k: int| i < k < j && #[trigger] settles(record[k])
        }),
    decreases events.len(),
{
    let start = DriveView::<Iter, Item, T>::initial(iter);
    if events.len() > 0 {
        let earlier = events.drop_last();
        lemma_wanted::<Iter, Item, T>(iter, earlier);
        law_buffer::<Iter, Item, T>(iter, earlier);
        let before = start.record(earlier);
        let added = start.run(earlier).entries(events.last());
        let record = start.record(events);
        if added.len() == 0 {
            assert(record == before);
        } else {
            let middle = before.push(added[0]);
            lemma_owes(before, added[0]);
            if added.len() == 1 {
                assert(record == middle);
            } else {
                lemma_owes(middle, added[1]);
                assert(record == middle.push(added[1]));
            }
        }
        assert forall|i: int, j: int|
            0 <= i < j < record.len() && #[trigger] record[i] == Call::PollNext(PollNext::<Item>::Pending)
                && #[trigger] record[j] == Call::<Item>::PollProgress
            implies exists|k: int| i < k < j && #[trigger] settles(record[k]) by {
            assert(before[i] == record[i]);
            if j < before.len() {
                assert(before[j] == record[j]);
                let k = choose|k: int| i < k < j && #[trigger] settles(before[k]);
                assert(settles(record[k]));
            } else {
                assert(!owes_an_answer(before));
                let k = choose|k: int| i < k < before.len() && #[trigger] settles(before[k]);
                assert(settles(record[k]));
            }
        }
    } else {
        assert(!owes_an_answer(start.record(events)));
    }
}

/// An iterator that answered `Pending` is asked on until it answers otherwise: it is not polled
/// for progress in between.
pub proof fn law_pending_is_asked_on<Iter, Item, T>(iter: Iter, events: Seq<Event<Iter, Item>>, i: int, j: int)
    requires
        0 <= i < j < DriveView::<Iter, Item, T>::initial(iter).record(events).len(),
        DriveView::<Iter, Item, T>::initial(iter).record(events)[i] == Call::PollNext(PollNext::<Item>::Pending),
        DriveView::<Iter, Item, T>::initial(iter).record(events)[j] == Call::<Item>::PollProgress,
    ensures
        exists|k: int| i < k < j && #[trigger] settles(
            DriveView::<Iter, Item, T>::initial(iter).record(events)[k],
        ),
{
    lemma_wanted::<Iter, Item, T>(iter, events);
}

/// The iterator is polled for progress only at the moment when the driver begins to wait.
pub proof fn law_progress_only_before_waiting<Iter, Item, T>(
    state: DriveView<Iter, Item, T>,
    events: Seq<Event<Iter, Item>>,
    j: int,
)
    requires
        0 <= j < state.record(events).len(),
        state.record(events)[j] == Call::<Item>::PollProgress,
    ensures
        j + 1 < state.record(events).len(),
        state.record(events)[j + 1] == Call::<Item>::Yield,
    decreases events.len(),
{
    let earlier = state.record(events.drop_last());
    if j < earlier.len() {
        law_progress_only_before_waiting(state, events.drop_last(), j);
    }
}

/// A fetch that was begun goes on, whatever else happens, until the iterator answers it. In
/// particular it does not depend on the `next` that began it.
pub proof fn law_fetch_goes_on<Iter, Item, T>(state: DriveView<Iter, Item, T>, events: Seq<Event<Iter, Item>>)
    requires
        state.fetches(),
        forall|k: int| 0 <= k < events.len() ==>
            (#[trigger] events[k] matches Event::Fetch(_, answer) ==> answer is Pending),
    ensures
        state.run(events).fetches(),
    decreases events.len(),
{
    if events.len() > 0 {
        law_fetch_goes_on(state, events.drop_last());
    }
}

/// An item that was fetched stays in the buffer until a `next` is polled, which becomes ready
/// with it at once.
pub proof fn law_fetched_item_is_kept<Iter, Item, T>(
    state: DriveView<Iter, Item, T>,
    events: Seq<Event<Iter, Item>>,
    after: Iter,
    answer: PollNext<Item>,
)
    requires
        state.wf(),
        state.item is Some,
        forall|k: int| 0 <= k < events.len() ==> !(#[trigger] events[k] is Next),
    ensures
        state.run(events).item == state.item,
        state.run(events).wf(),
        state.run(events).entries(Event::Next(after, answer)) == seq![Call::Deliver(state.item)],
    decreases events.len(),
{
    if events.len() > 0 {
        law_fetched_item_is_kept(state, events.drop_last(), after, answer);
    }
}

/// When a `next` is cancelled whose fetch has begun, the iterator is asked on. The item that it
/// gives in the end is what the `next` that is polled first after that becomes ready with.
pub proof fn law_cancelled_next<Iter, Item, T>(
    state: DriveView<Iter, Item, T>,
    waiting: Seq<Event<Iter, Item>>,
    fetched: Iter,
    item: Item,
    idle: Seq<Event<Iter, Item>>,
    after: Iter,
    answer: PollNext<Item>,
)
    requires
        state.fetches(),
        forall|k: int| 0 <= k < waiting.len() ==>
            (#[trigger] waiting[k] matches Event::Fetch(_, answer) ==> answer is Pending),
        forall|k: int| 0 <= k < idle.len() ==> !(#[trigger] idle[k] is Next),
    ensures
        state.run(waiting).step(Event::Fetch(fetched, PollNext::Item(item))).run(idle).entries(
            Event::Next(after, answer),
        ) == seq![Call::Deliver(Some(item))],
{
    law_fetch_goes_on(state, waiting);
    law_fetched_item_is_kept(
        state.run(waiting).step(Event::Fetch(fetched, PollNext::Item(item))),
        idle,
        after,
        answer,
    );
}

/// With an iterator that never says that it is done, the iterator stays, and no `next` is ever
/// answered with `None`.
pub proof fn law_never_done<Iter, Item, T>(iter: Iter, events: Seq<Event<Iter, Item>>)
    requires
        forall|k: int| 0 <= k < events.len() ==> match #[trigger] events[k] {
            Event::Fetch(_, answer) => !(answer is Done),
            Event::Next(_, answer) => !(answer is Done),
            _ => true,
        },
    ensures
        DriveView::<Iter, Item, T>::initial(iter).run(events).iterator is Some,
        !DriveView::<Iter, Item, T>::initial(iter).record(events).contains(Call::Deliver(None)),
    decreases events.len(),
{
    if events.len() > 0 {
        law_never_done::<Iter, Item, T>(iter, events.drop_last());
        lemma_end::<Iter, Item, T>(iter, events);
    }
}

/// Whether the last poll in `record` was one for an item that the iterator did not have yet.
spec fn ends_pending<Item>(record: Seq<Call<Item>>) -> bool {
    exists|k: int| 0 <= k < record.len() && #[trigger] record[k] == Call::PollNext(PollNext::<Item>::Pending)
        && forall|j: int| k < j < record.len() ==> !(#[trigger] record[j]).is_poll()
}

proof fn lemma_within_round<Iter, Item, T>(state: DriveView<Iter, Item, T>, events: Seq<Event<Iter, Item>>)
    requires
        state.wf(),
        events.len() >= 1,
        events.first() is Fetch,
        forall|k: int| 0 < k < events.len() ==> (#[trigger] events[k]) is Next || events[k] is Mutate,
    ensures
        state.run(events).wf(),
        state.run(events).iterator is Some && state.run(events).next_item_wanted
            ==> ends_pending(state.record(events)),
        !state.run(events).mutated_this_iteration
            ==> forall|j: int| 0 <= j < state.record(events).len() ==> !(#[trigger] state.record(events)[j] is Mutate),
        (exists|k: int| 0 <= k < events.len() && #[trigger] events[k] is Mutate)
            ==> state.run(events).mutated_this_iteration,
    decreases events.len(),
{
    let record = state.record(events);
    let earlier = events.drop_last();
    let before = state.record(earlier);
    let added = state.run(earlier).entries(events.last());
    if events.len() == 1 {
        assert(state.run(earlier) == state);
        assert(before == Seq::<Call<Item>>::empty());
        assert(record == added);
        if state.fetches() {
            assert(record[0] == added[0]);
        }
    } else {
        lemma_within_round(state, earlier);
        if added.len() == 0 {
            assert(record == before);
        } else {
            assert(record[before.len() as int] == added[0]);
            if state.run(events).iterator is Some && state.run(events).next_item_wanted {
                if ends_pending(before) && added[0] is Mutate {
                    let k = choose|k: int| 0 <= k < before.len()
                        && #[trigger] before[k] == Call::PollNext(PollNext::<Item>::Pending)
                        && forall|j: int| k < j < before.len() ==> !(#[trigger] before[j]).is_poll();
                    assert(record[k] == before[k]);
                    assert forall|j: int| k < j < record.len() implies !(#[trigger] record[j]).is_poll() by {
                        if j < before.len() {
                            assert(!before[j].is_poll());
                        }
                    }
                }
            }
        }
        assert forall|j: int| !state.run(events).mutated_this_iteration && 0 <= j < record.len() implies !(
        #[trigger] record[j] is Mutate) by {
            if j < before.len() {
                assert(!(before[j] is Mutate));
            }
        }
        if exists|k: int| 0 <= k < events.len() && #[trigger] events[k] is Mutate {
            let k = choose|k: int| 0 <= k < events.len() && #[trigger] events[k] is Mutate;
            if k < earlier.len() {
                assert(earlier[k] is Mutate);
            }
        }
    }
}

/// Whenever the driver begins to wait, an iterator that is still there has been polled in the
/// same round, and the body has not touched it in that round. If an item is wanted, the iterator
/// was asked for it and had nothing yet; if not, it was polled for progress just before.
pub proof fn law_polled_before_waiting<Iter, Item, T>(
    state: DriveView<Iter, Item, T>,
    round: Seq<Event<Iter, Item>>,
)
    requires
        state.wf(),
        Event::is_round(round),
        state.record(round).last() == Call::<Item>::Yield,
        state.run(round).iterator is Some,
    ensures
        exists|k: int| {
            &&& 0 <= k < state.record(round).len() - 1
            &&& #[trigger] state.record(round)[k] == if state.run(round).next_item_wanted {
                Call::PollNext(PollNext::<Item>::Pending)
            } else {
                Call::PollProgress
            }
            &&& forall|j: int| k < j < state.record(round).len() ==> !(#[trigger] state.record(round)[j]).is_poll()
        },
        forall|j: int| 0 <= j < state.record(round).len() ==> !(#[trigger] state.record(round)[j] is Mutate),
{
    let earlier = round.drop_last();
    assert forall|k: int| 0 < k < earlier.len() implies (#[trigger] earlier[k]) is Next || earlier[k] is Mutate by {
        assert(round[k] == earlier[k]);
    }
    lemma_within_round(state, earlier);
    let before = state.record(earlier);
    let record = state.record(round);
    assert forall|j: int| 0 <= j < record.len() implies !(#[trigger] record[j] is Mutate) by {
        if j < before.len() {
            assert(!(before[j] is Mutate));
        }
    }
    if state.run(round).next_item_wanted {
        let k = choose|k: int| 0 <= k < before.len()
            && #[trigger] before[k] == Call::PollNext(PollNext::<Item>::Pending)
            && forall|j: int| k < j < before.len() ==> !(#[trigger] before[j]).is_poll();
        assert(record[k] == before[k]);
        assert forall|j: int| k < j < record.len() implies !(#[trigger] record[j]).is_poll() by {
            if j < before.len() {
                assert(!before[j].is_poll());
            }
        }
    } else {
        assert(record[before.len() as int] == Call::<Item>::PollProgress);
    }
}

/// When the body has touched the iterator in a round and it is still there, the driver does not
/// wait but goes round again at once: it polls its body again, after it has asked the iterator
/// for the item, if one is wanted.
pub proof fn law_mutation_is_followed_up<Iter, Item, T>(
    state: DriveView<Iter, Item, T>,
    round: Seq<Event<Iter, Item>>,
)
    requires
        state.wf(),
        Event::is_round(round),
        exists|k: int| 0 <= k < round.len() && #[trigger] round[k] is Mutate,
        state.run(round).iterator is Some,
    ensures
        !state.run(round).mutated_this_iteration,
        state.record(round).last() == Call::<Item>::Again,
        state.run(round).next_item_wanted ==> state.run(round).fetches(),
{
    let earlier = round.drop_last();
    assert forall|k: int| 0 < k < earlier.len() implies (#[trigger] earlier[k]) is Next || earlier[k] is Mutate by {
        assert(round[k] == earlier[k]);
    }
    let k = choose|k: int| 0 <= k < round.len() && #[trigger] round[k] is Mutate;
    assert(earlier[k] is Mutate);
    lemma_within_round(state, earlier);
}

/// Once the iterator has said that it is done, every poll of a `next` future is ready at once,
/// with `None`, and polls nothing: the body never waits for an iterator that is gone.
pub proof fn law_next_after_the_end<Iter, Item, T>(
    iter: Iter,
    events: Seq<Event<Iter, Item>>,
    after: Iter,
    answer: PollNext<Item>,
)
    requires
        DriveView::<Iter, Item, T>::initial(iter).record(events).contains(Call::PollNext(PollNext::Done)),
    ensures
        DriveView::<Iter, Item, T>::initial(iter).run(events).entries(Event::Next(after, answer))
            == seq![Call::Deliver(None::<Item>)],
{
    lemma_end::<Iter, Item, T>(iter, events);
    law_buffer::<Iter, Item, T>(iter, events);
}

/// Whether the body has touched the iterator since the driver last went round again or waited.
pub open spec fn touched<Item>(record: Seq<Call<Item>>) -> bool {
    exists|i: int| 0 <= i < record.len() && #[trigger] record[i] == Call::<Item>::Mutate
        && forall|k: int| i < k < record.len() ==> #[trigger] record[k] != Call::<Item>::Again
            && record[k] != Call::<Item>::Yield
}

proof fn lemma_touched<Item>(record: Seq<Call<Item>>, entry: Call<Item>)
    requires
        touched(record),
        entry != Call::<Item>::Again,
        entry != Call::<Item>::Yield,
    ensures
        touched(record.push(entry)),
{
    let longer = record.push(entry);
    let i = choose|i: int| 0 <= i < record.len() && #[trigger] record[i] == Call::<Item>::Mutate
        && forall|k: int| i < k < record.len() ==> #[trigger] record[k] != Call::<Item>::Again
            && record[k] != Call::<Item>::Yield;
    assert(longer[i] == record[i]);
    assert forall|k: int| i < k < longer.len() implies #[trigger] longer[k] != Call::<Item>::Again
        && longer[k] != Call::<Item>::Yield by {
        if k < record.len() {
            assert(longer[k] == record[k]);
        }
    }
}

proof fn lemma_mutated<Iter, Item, T>(iter: Iter, events: Seq<Event<Iter, Item>>)
    ensures
        ({
            let start = DriveView::<Iter, Item, T>::initial(iter);
            &&& start.run(events).mutated_this_iteration && start.run(events).iterator is Some
                ==> touched(start.record(events))
            &&& forall|j: int| 0 <= j < start.record(events).len()
                && #[trigger] start.record(events)[j] == Call::<Item>::Again
                ==> touched(start.record(events).take(j))
        }),
    decreases events.len(),
{
    let start = DriveView::<Iter, Item, T>::initial(iter);
    let record = start.record(events);
    if events.len() > 0 {
        let earlier = events.drop_last();
        lemma_mutated::<Iter, Item, T>(iter, earlier);
        let before = start.record(earlier);
        let added = start.run(earlier).entries(events.last());
        if start.run(events).mutated_this_iteration && start.run(events).iterator is Some {
            if events.last() is Mutate {
                assert(record[before.len() as int] == Call::<Item>::Mutate);
            } else if added.len() == 0 {
                assert(record == before);
            } else {
                lemma_touched(before, added[0]);
                if added.len() == 1 {
                    assert(record == before.push(added[0]));
                } else {
                    lemma_touched(before.push(added[0]), added[1]);
                    assert(record == before.push(added[0]).push(added[1]));
                }
            }
        }
        assert forall|j: int| 0 <= j < record.len() && #[trigger] record[j] == Call::<Item>::Again
            implies touched(record.take(j)) by {
            if j < before.len() {
                assert(before[j] == record[j]);
                assert(record.take(j) == before.take(j));
            } else {
                assert(record.take(j) == before);
            }
        }
    }
}

/// The driver goes round again without waiting only if the body has touched the iterator since
/// it last did so or waited. Otherwise it waits, and leaves the thread to others.
pub proof fn law_again_only_after_mutation<Iter, Item, T>(iter: Iter, events: Seq<Event<Iter, Item>>, j: int)
    requires
        0 <= j < DriveView::<Iter, Item, T>::initial(iter).record(events).len(),
        DriveView::<Iter, Item, T>::initial(iter).record(events)[j] == Call::<Item>::Again,
    ensures
        exists|i: int| {
            &&& 0 <= i < j
            &&& #[trigger] DriveView::<Iter, Item, T>::initial(iter).record(events)[i] == Call::<Item>::Mutate
            &&& forall|k: int| i < k < j ==> {
                &&& #[trigger] DriveView::<Iter, Item, T>::initial(iter).record(events)[k] != Call::<Item>::Again
                &&& DriveView::<Iter, Item, T>::initial(iter).record(events)[k] != Call::<Item>::Yield
            }
        },
{
    lemma_mutated::<Iter, Item, T>(iter, events);
    let record = DriveView::<Iter, Item, T>::initial(iter).record(events);
    let shorter = record.take(j);
    let i = choose|i: int| 0 <= i < shorter.len() && #[trigger] shorter[i] == Call::<Item>::Mutate
        && forall|k: int| i < k < shorter.len() ==> #[trigger] shorter[k] != Call::<Item>::Again
            && shorter[k] != Call::<Item>::Yield;
    assert(record[i] == Call::<Item>::Mutate);
    assert forall|k: int| i < k < j implies #[trigger] record[k] != Call::<Item>::Again
        && record[k] != Call::<Item>::Yield by {
        assert(shorter[k] == record[k]);
    }
}

proof fn lemma_untouched<Iter, Item, T>(state: DriveView<Iter, Item, T>, events: Seq<Event<Iter, Item>>)
    requires
        !state.mutated_this_iteration,
        forall|k: int| 0 <= k < events.len() ==> !(#[trigger] events[k] is Mutate),
    ensures
        !state.run(events).mutated_this_iteration,
    decreases events.len(),
{
    if events.len() > 0 {
        lemma_untouched(state, events.drop_last());
    }
}

/// A round in which the body is left pending and does not touch the iterator ends in waiting,
/// whether the iterator is there or not, and whether or not an item is wanted.
pub proof fn law_untouched_round_waits<Iter, Item, T>(
    state: DriveView<Iter, Item, T>,
    round: Seq<Event<Iter, Item>>,
)
    requires
        !state.mutated_this_iteration,
        round.len() > 0,
        round.last() is Settle,
        forall|k: int| 0 <= k < round.len() ==> !(#[trigger] round[k] is Mutate),
    ensures
        state.record(round).len() > 0,
        state.record(round).last() == Call::<Item>::Yield,
{
    lemma_untouched(state, round.drop_last());
}

/// However often the body touches the iterator in a round, the driver notices: two mutations
/// count as well as one.
pub proof fn law_every_mutation_counts<Iter, Item, T>(state: DriveView<Iter, Item, T>, first: Iter, second: Iter)
    ensures
        state.step(Event::Mutate(first)).mutated_this_iteration,
        state.step(Event::Mutate(first)).step(Event::Mutate(second)).mutated_this_iteration,
        state.iterator is Some ==> {
            let twice = state.step(Event::Mutate(first)).step(Event::Mutate(second));
            &&& twice.iterator == Some(second)
            &&& twice.entries(Event::Settle(second)) == seq![Call::<Item>::Again]
        },
{
}

/// An early return from the body leaves the calling function with its value, whatever the state
/// holds: the value of a body that also reached its end, a wanted or buffered item, or nothing.
pub proof fn law_early_return<Iter, Item, T, R>(state: DriveView<Iter, Item, T>, output: R)
    ensures
        state.turn(Poll::Ready(output)) == Turn::<R, T>::Return(output),
{
}

/// When control has reached the end of the body, the whole expression has its value at once,
/// whether or not an item is wanted or buffered, the iterator is still there, or the body has
/// touched it.
pub proof fn law_end_of_body<Iter, Item, T, R>(state: DriveView<Iter, Item, T>, value: T)
    requires
        state.body_value == Some(value),
    ensures
        state.turn(Poll::<R>::Pending) == Turn::<R, T>::Break(value),
{
}

/// While the body is pending and has not reached its end, the driver neither returns nor ends. It
/// goes round again if the body has touched an iterator that is still there, and waits otherwise.
pub proof fn law_pending_body<Iter, Item, T, R>(state: DriveView<Iter, Item, T>)
    requires
        state.body_value is None,
    ensures
        state.mutated_this_iteration && state.iterator is Some
            ==> state.turn(Poll::<R>::Pending) == Turn::<R, T>::Again,
        !state.mutated_this_iteration || state.iterator is None
            ==> state.turn(Poll::<R>::Pending) == Turn::<R, T>::Yield,
{
}

/// A driver starts with its iterator and nothing else.
pub proof fn law_start<Iter, Item, T>(iter: Iter)
    ensures
        DriveView::<Iter, Item, T>::initial(iter) == (DriveView::<Iter, Item, T> {
            iterator: Some(iter),
            item: None,
            next_item_wanted: false,
            mutated_this_iteration: false,
            body_value: None,
        }),
{
}

/// A `next` that finds an item in the buffer takes it, and polls nothing.
pub proof fn law_next_takes_the_buffer<Iter, Item, T>(
    state: DriveView<Iter, Item, T>,
    item: Item,
    after: Iter,
    answer: PollNext<Item>,
)
    requires
        state.item == Some(item),
    ensures
        state.entries(Event::Next(after, answer)) == seq![Call::Deliver(Some(item))],
        state.step(Event::Next(after, answer)) == (DriveView { item: None, ..state }),
{
}

/// A `next` with an empty buffer and no iterator is ready with `None`, and changes nothing.
pub proof fn law_next_without_iterator<Iter, Item, T>(
    state: DriveView<Iter, Item, T>,
    after: Iter,
    answer: PollNext<Item>,
)
    requires
        state.item is None,
        state.iterator is None,
    ensures
        state.entries(Event::Next(after, answer)) == seq![Call::Deliver(None::<Item>)],
        state.step(Event::Next(after, answer)) == state,
{
}

/// A `next` with an empty buffer leaves the asking to the background fetch that is under way, and
/// otherwise asks the iterator itself, once. It is ready with the item or with the end, if that
/// is the answer. Otherwise it is pending, and from then on the item is wanted.
pub proof fn law_next_with_empty_buffer<Iter, Item, T>(
    state: DriveView<Iter, Item, T>,
    after: Iter,
    answer: PollNext<Item>,
)
    requires
        state.item is None,
        state.iterator is Some,
    ensures
        ({
            let entries = state.entries(Event::Next(after, answer));
            let left = state.step(Event::Next(after, answer));
            if state.next_item_wanted {
                entries == Seq::<Call<Item>>::empty() && left == state
            } else {
                match answer {
                    PollNext::Item(item) => {
                        &&& entries == seq![Call::PollNext(answer), Call::Deliver(Some(item))]
                        &&& left == (DriveView { iterator: Some(after), ..state })
                    },
                    PollNext::Done => {
                        &&& entries == seq![Call::PollNext(answer), Call::Deliver(None)]
                        &&& left == (DriveView { iterator: None, ..state })
                    },
                    PollNext::Pending => {
                        &&& entries == seq![Call::PollNext(answer)]
                        &&& left == (DriveView { iterator: Some(after), next_item_wanted: true, ..state })
                    },
                }
            }
        }),
{
    assert(state.after_idle_next() == (DriveView { item: None::<Item>, ..state }));
}

/// A background fetch asks the iterator, once, exactly if an item is wanted, the buffer is empty
/// and the iterator is there. An item goes into the buffer and is no longer wanted; an iterator
/// that is done is dropped; otherwise the item stays wanted. In other states it does nothing.
pub proof fn law_fetch<Iter, Item, T>(state: DriveView<Iter, Item, T>, after: Iter, answer: PollNext<Item>)
    ensures
        ({
            let entries = state.entries(Event::Fetch(after, answer));
            let left = state.step(Event::Fetch(after, answer));
            if state.next_item_wanted && state.item is None && state.iterator is Some {
                &&& entries == seq![Call::PollNext(answer)]
                &&& match answer {
                    PollNext::Item(item) => left == (DriveView {
                        iterator: Some(after),
                        item: Some(item),
                        next_item_wanted: false,
                        ..state
                    }),
                    PollNext::Done => left == (DriveView { iterator: None, ..state }),
                    PollNext::Pending => left == (DriveView { iterator: Some(after), ..state }),
                }
            } else {
                entries == Seq::<Call<Item>>::empty() && left == state
            }
        }),
{
}

/// A mutation leaves the iterator as the body left it, is remembered until the driver settles, and
/// touches nothing else. An iterator that is gone stays gone.
pub proof fn law_mutation<Iter, Item, T>(state: DriveView<Iter, Item, T>, after: Iter)
    ensures
        state.iterator is Some ==> {
            &&& state.entries(Event::Mutate(after)) == seq![Call::<Item>::Mutate]
            &&& state.step(Event::Mutate(after)) == (DriveView {
                iterator: Some(after),
                mutated_this_iteration: true,
                ..state
            })
        },
        state.iterator is None ==> {
            &&& state.entries(Event::Mutate(after)) == Seq::<Call<Item>>::empty()
            &&& state.step(Event::Mutate(after)) == (DriveView { mutated_this_iteration: true, ..state })
        },
{
}

/// Settling with a pending body forgets the mutation. Going round again polls nothing. Waiting
/// polls the iterator for progress, once, exactly if it is there and no item is wanted. Nothing
/// else changes.
pub proof fn law_settle<Iter, Item, T>(state: DriveView<Iter, Item, T>, after: Iter)
    ensures
        ({
            let entries = state.entries(Event::Settle(after));
            let left = state.step(Event::Settle(after));
            if state.mutated_this_iteration && state.iterator is Some {
                &&& entries == seq![Call::<Item>::Again]
                &&& left == (DriveView { mutated_this_iteration: false, ..state })
            } else if state.iterator is Some && !state.next_item_wanted {
                &&& entries == seq![Call::<Item>::PollProgress, Call::<Item>::Yield]
                &&& left == (DriveView { iterator: Some(after), mutated_this_iteration: false, ..state })
            } else {
                &&& entries == seq![Call::<Item>::Yield]
                &&& left == (DriveView { mutated_this_iteration: false, ..state })
            }
        }),
{
}

/// In which states a step polls the iterator: nothing polls one that is gone, no item is asked for
/// while one is in the buffer, and progress is polled for only while no item is wanted.
pub proof fn law_who_polls<Iter, Item, T>(state: DriveView<Iter, Item, T>)
    ensures
        state.iterator is None ==> !state.fetches() && !state.next_asks() && !state.progresses()
            && !state.repolls(),
        state.item is Some ==> !state.fetches() && !state.next_asks(),
        state.iterator is Some && state.item is None ==> state.fetches() == state.next_item_wanted
            && state.next_asks() == !state.next_item_wanted,
        state.iterator is Some ==> state.progresses() == !state.next_item_wanted
            && state.repolls() == state.mutated_this_iteration,
{
}

/// Polling the iterator for an item drops it if it is done and keeps it otherwise, and changes
/// nothing else.
pub proof fn law_poll<Iter, Item, T>(state: DriveView<Iter, Item, T>, after: Iter, answer: PollNext<Item>)
    ensures
        state.polled(after, answer) == (DriveView {
            iterator: match answer {
                PollNext::Done => None,
                _ => Some(after),
            },
            ..state
        }),
{
}

/// What a `next` future reports is what is recorded of it: ready with a value exactly if that
/// value is delivered.
pub proof fn law_next_reports<Iter, Item, T>(state: DriveView<Iter, Item, T>, after: Iter, answer: PollNext<Item>)
    ensures
        ({
            let entries = state.entries(Event::Next(after, answer));
            match state.next_polled(answer) {
                Poll::Ready(value) => entries.len() > 0 && entries.last() == Call::Deliver(value),
                Poll::Pending => forall|k: int| 0 <= k < entries.len() ==> !(#[trigger] entries[k] is Deliver),
            }
        }),
        state.next_asks() ==> state.next_polled(answer) == DriveView::<Iter, Item, T>::next_result(answer),
        !state.next_asks() ==> state.next_polled(answer) == state.idle_next_result(),
{
}

/// A `next` that stays pending leaves a fetch under way: the item is wanted, the buffer is empty
/// and the iterator is there to be asked in the next round.
pub proof fn law_pending_next_is_fetched<Iter, Item, T>(
    state: DriveView<Iter, Item, T>,
    after: Iter,
    answer: PollNext<Item>,
)
    requires
        state.next_polled(answer) is Pending,
    ensures
        ({
            let left = state.step(Event::Next(after, answer));
            left.next_item_wanted && left.item is None && left.iterator is Some
        }),
{
}

} // verus!
