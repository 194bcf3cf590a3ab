//! Waiting for I/O: who is woken, what they are told, and what survives.

use vstd::prelude::*;

use crate::dispatch::{
    all_delivered, concerned, events_dispatched, merged, met, still_waiting,
};
use crate::event::Descriptor;
use crate::io_wait::IoWait;
use crate::mailbox::{lemma_senders_left, senders_left, Slot};
use crate::selector::{
    first_index, io_mailboxes, io_queue_ok, io_tokens, lemma_first_index, shut_down, swap_removed,
    IoWaiter, SelectorCore,
};
use crate::wake::{outdated, wakeups_ok, Wakeup};

verus! {

/// Some event reports, of the waiter's descriptor, a condition that it waits for.
pub open spec fn some_event_concerns<V>(waiter: IoWaiter<V>, events: Seq<(Descriptor, i32)>) -> bool {
    exists|i: int|
        0 <= i < events.len() && (#[trigger] events[i]).0 == waiter.fd && events[i].1
            & waiter.events != 0
}

/// A waiter is woken if and only if some event reports, of its descriptor, a
/// condition that it waits for.
pub proof fn law_woken_iff_some_event_concerns<V>(waiter: IoWaiter<V>, events: Seq<(Descriptor, i32)>)
    ensures
        met(waiter, events) != 0 <==> some_event_concerns(waiter, events),
    decreases events.len(),
{
    let mask = waiter.events;
    if events.len() == 0 {
        assert(0i32 & mask == 0) by (bit_vector);
    } else {
        let front = events.drop_last();
        let last = events.last();
        assert(events[events.len() - 1] == last);
        law_woken_iff_some_event_concerns(waiter, front);
        let rest = merged(front, waiter.fd);
        let event = last.1;
        assert((rest | event) & mask != 0 <==> rest & mask != 0 || event & mask != 0)
            by (bit_vector);
        if some_event_concerns(waiter, front) {
            let i = choose|i: int|
                0 <= i < front.len() && (#[trigger] front[i]).0 == waiter.fd && front[i].1 & mask
                    != 0;
            assert(events[i] == front[i]);
        }
        if some_event_concerns(waiter, events) {
            let i = choose|i: int|
                0 <= i < events.len() && (#[trigger] events[i]).0 == waiter.fd && events[i].1
                    & mask != 0;
            if i < front.len() {
                assert(front[i] == events[i]);
            }
        }
    }
}

/// What a woken waiter is told is among the conditions that it waits for.
pub proof fn law_told_only_what_was_asked<V>(waiter: IoWaiter<V>, events: Seq<(Descriptor, i32)>)
    ensures
        met(waiter, events) & waiter.events == met(waiter, events),
{
    let all = merged(events, waiter.fd);
    let mask = waiter.events;
    assert((all & mask) & mask == all & mask) by (bit_vector);
}

/// A dispatch sends every queued waiter the conditions that it waits for and
/// that came about, if any, and touches no other mailbox. The ends of the
/// mailboxes stay as they are.
pub proof fn law_dispatch_delivers<V>(
    before: SelectorCore<V>,
    after: SelectorCore<V>,
    events: Seq<(Descriptor, i32)>,
)
    requires
        before.wf(),
        events_dispatched(before, after, events),
    ensures
        forall|i: int|
            0 <= i < before.io_waiters@.len() ==> {
                let waiter = #[trigger] before.io_waiters@[i];
                after.io_results@[waiter.mailbox] == (Slot {
                    value: met(waiter, events),
                    ..before.io_results@[waiter.mailbox]
                })
            },
        forall|key: usize| #[trigger]
            after.io_results@.contains_key(key) == before.io_results@.contains_key(key),
        forall|key: usize|
            !io_mailboxes(before.io_waiters@).contains(key) ==> #[trigger] after.io_results@[key]
                == before.io_results@[key],
{
    let waiters = before.io_waiters@;
    lemma_all_delivered(before.io_results@, waiters, events, waiters.len() as int);
    assert(waiters.take(waiters.len() as int) =~= waiters);
    assert forall|key: usize| !io_mailboxes(waiters).contains(
        key,
    ) implies #[trigger] after.io_results@[key] == before.io_results@[key] by {
        assert forall|i: int| 0 <= i < waiters.len() implies (#[trigger] waiters[i]).mailbox
            != key by {
            assert(io_mailboxes(waiters)[i] == waiters[i].mailbox);
        }
    }
}

proof fn lemma_all_delivered<V>(
    boxes: Map<usize, Slot<i32>>,
    waiters: Seq<IoWaiter<V>>,
    events: Seq<(Descriptor, i32)>,
    count: int,
)
    requires
        io_queue_ok(waiters, boxes),
        0 <= count <= waiters.len(),
    ensures
        ({
            let sent = all_delivered(boxes, waiters.take(count), events);
            &&& forall|i: int|
                0 <= i < count ==> sent[(#[trigger] waiters[i]).mailbox] == (Slot {
                    value: met(waiters[i], events),
                    ..boxes[waiters[i].mailbox]
                })
            &&& forall|key: usize| #[trigger] sent.contains_key(key) == boxes.contains_key(key)
            &&& forall|key: usize|
                (forall|i: int| 0 <= i < count ==> (#[trigger] waiters[i]).mailbox != key)
                    ==> #[trigger] sent[key] == boxes[key]
        }),
    decreases count,
{
    if count > 0 {
        lemma_all_delivered(boxes, waiters, events, count - 1);
        let last = waiters[count - 1];
        assert(waiters.take(count).drop_last() =~= waiters.take(count - 1));
        assert(waiters.take(count).last() == last);
        let earlier = all_delivered(boxes, waiters.take(count - 1), events);
        assert forall|i: int| 0 <= i < count - 1 implies (#[trigger] waiters[i]).mailbox
            != last.mailbox by {
            assert(waiters[i].mailbox != waiters[count - 1].mailbox);
        }
        assert(earlier[last.mailbox] == boxes[last.mailbox]);
        assert(boxes.contains_key(last.mailbox));
    }
}

/// A call that waits for I/O is told exactly the conditions that it asked for
/// and that the next dispatch reports. If there are any, its fiber has left the
/// queue and is the last of those to be woken; if there are none, it waits on,
/// and a call that ended now would be told of none.
pub proof fn law_wait_is_told_what_came_about<V>(
    before: SelectorCore<V>,
    queued: SelectorCore<V>,
    after: SelectorCore<V>,
    wait: IoWait,
    fiber: V,
    io: V,
    events: i32,
    fd: Descriptor,
    reported: Seq<(Descriptor, i32)>,
)
    requires
        before.wf(),
        queued.wf(),
        wait.started(before, queued, fiber, io, events, fd),
        events_dispatched(queued, after, reported),
    ensures
        wait.open_in(after),
        ({
            let conditions = merged(reported, fd) & events;
            let waiter = queued.io_waiters@.last();
            if conditions != 0 {
                &&& wait.answer(after) == Some(conditions)
                &&& after.io_waiters@ == still_waiting(before.io_waiters@, reported)
                &&& concerned(queued.io_waiters@, reported) == concerned(
                    before.io_waiters@,
                    reported,
                ).push(Wakeup { fiber, mailbox: Some(wait.mailbox) })
            } else {
                &&& wait.answer(after) is None
                &&& after.io_waiters@ == still_waiting(before.io_waiters@, reported).push(waiter)
                &&& concerned(queued.io_waiters@, reported) == concerned(
                    before.io_waiters@,
                    reported,
                )
            }
        }),
{
    law_dispatch_delivers(queued, after, reported);
    let last = queued.io_waiters@.len() - 1;
    assert(queued.io_waiters@[last].mailbox == wait.mailbox);
    assert(after.io_results@.contains_key(wait.mailbox));
    assert(queued.io_waiters@.drop_last() =~= before.io_waiters@);
}

/// A wait that ends before anything happened leaves the selector as it was, but
/// for the tokens, and is told of nothing. (Where the token is still in the
/// queue from an earlier round, that older waiter leaves instead.)
pub proof fn law_wait_for_nothing_leaves_no_trace<V>(
    before: SelectorCore<V>,
    queued: SelectorCore<V>,
    after: SelectorCore<V>,
    wait: IoWait,
    fiber: V,
    io: V,
    events: i32,
    fd: Descriptor,
)
    requires
        before.wf(),
        !io_tokens(before.io_waiters@).contains(wait.token),
        wait.started(before, queued, fiber, io, events, fd),
        wait.finished(queued, after),
    ensures
        wait.answer(queued) is None,
        after.io_waiters@ == before.io_waiters@,
        after.io_results@ == before.io_results@,
        after.ready == before.ready,
        after.process_waiters == before.process_waiters,
        after.process_results == before.process_results,
{
    let tokens = io_tokens(queued.io_waiters@);
    let last = before.io_waiters@.len() as int;
    lemma_first_index(tokens, wait.token);
    assert(tokens[last] == wait.token);
    match first_index(tokens, wait.token) {
        Some(i) => {
            if i < last {
                assert(io_tokens(before.io_waiters@)[i] == wait.token);
            }
            assert(swap_removed(queued.io_waiters@, last) =~= before.io_waiters@);
            assert(queued.io_waiters@[last].mailbox == wait.mailbox);
        },
        None => {},
    }
    assert(after.io_results@ =~= before.io_results@);
}

/// A call that has ended is not woken: a wake-up that was meant for it, and had
/// not had its turn, is passed over.
pub proof fn law_ended_wait_is_not_woken<V>(
    before: SelectorCore<V>,
    after: SelectorCore<V>,
    wait: IoWait,
    wakeup: Wakeup<V>,
)
    requires
        before.wf(),
        wait.open_in(before),
        wait.finished(before, after),
        wakeup.mailbox == Some(wait.mailbox),
        wakeups_ok(seq![wakeup], before),
    ensures
        after.io_results@.contains_key(wait.mailbox),
        after.io_results@[wait.mailbox].sender,
        !after.io_results@[wait.mailbox].receiver,
        outdated(wakeup, after.io_results@),
{
    let boxes = before.io_results@;
    assert(seq![wakeup][0] == wakeup);
    lemma_first_index(io_tokens(before.io_waiters@), wait.token);
    if let Some(i) = first_index(io_tokens(before.io_waiters@), wait.token) {
        let other = before.io_waiters@[i].mailbox;
        assert(io_mailboxes(before.io_waiters@)[i] == other);
        assert(other != wait.mailbox);
    }
}

/// A wait that has ended, and whose entry has left its queue, leaves no mailbox
/// behind.
pub proof fn law_ended_wait_frees_its_mailbox<V>(
    before: SelectorCore<V>,
    after: SelectorCore<V>,
    wait: IoWait,
)
    requires
        before.wf(),
        wait.open_in(before),
        wait.finished(before, after),
        !before.io_results@[wait.mailbox].sender,
    ensures
        !after.io_results@.contains_key(wait.mailbox),
{
    lemma_first_index(io_tokens(before.io_waiters@), wait.token);
}

/// Every call that waits for I/O, but for those that `ended`, still waits for
/// its answer, and an answer that has been sent to it is still there.
pub open spec fn waits_survive<V>(
    before: SelectorCore<V>,
    after: SelectorCore<V>,
    ended: Set<usize>,
) -> bool {
    forall|key: usize|
        !ended.contains(key) && before.io_results@.contains_key(key)
            && before.io_results@[key].receiver ==> {
            &&& #[trigger] after.io_results@.contains_key(key)
            &&& after.io_results@[key].receiver
            &&& before.io_results@[key].value != 0 ==> after.io_results@[key].value
                == before.io_results@[key].value
        }
}

/// Every call that waits for I/O, but for those that `ended`, still waits for
/// its answer, and finds just what it would have found before: nothing has been
/// sent to it, taken away or replaced.
pub open spec fn answers_stay<V>(
    before: SelectorCore<V>,
    after: SelectorCore<V>,
    ended: Set<usize>,
) -> bool {
    forall|key: usize|
        !ended.contains(key) && before.io_results@.contains_key(key)
            && before.io_results@[key].receiver ==> {
            &&& #[trigger] after.io_results@.contains_key(key)
            &&& after.io_results@[key].receiver
            &&& after.io_results@[key].value == before.io_results@[key].value
        }
}

/// The wake-ups that have not had their turn stay good.
pub open spec fn wakeups_survive<V>(before: SelectorCore<V>, after: SelectorCore<V>) -> bool {
    forall|wakeups: Seq<Wakeup<V>>|
        wakeups_ok(wakeups, before) ==> #[trigger] wakeups_ok(wakeups, after)
}

/// A new wait disturbs no other.
pub proof fn law_start_disturbs_nobody<V>(
    before: SelectorCore<V>,
    after: SelectorCore<V>,
    wait: IoWait,
    fiber: V,
    io: V,
    events: i32,
    fd: Descriptor,
)
    requires
        before.wf(),
        wait.started(before, after, fiber, io, events, fd),
    ensures
        answers_stay(before, after, Set::empty()),
        wakeups_survive(before, after),
{
    assert forall|wakeups: Seq<Wakeup<V>>| wakeups_ok(
        wakeups,
        before,
    ) implies #[trigger] wakeups_ok(wakeups, after) by {
        assert forall|i: int| 0 <= i < wakeups.len() implies ((
        #[trigger] wakeups[i]).mailbox matches Some(key) ==> {
            &&& after.io_results@.contains_key(key)
            &&& after.io_results@[key].sender
            &&& !io_mailboxes(after.io_waiters@).contains(key)
        }) by {
            if let Some(key) = wakeups[i].mailbox {
                let keys = io_mailboxes(after.io_waiters@);
                if keys.contains(key) {
                    let j = choose|j: int| 0 <= j < keys.len() && keys[j] == key;
                    if j < before.io_waiters@.len() {
                        assert(io_mailboxes(before.io_waiters@)[j] == key);
                    }
                }
            }
        }
    }
}

/// A wait that ends disturbs no other.
pub proof fn law_finish_disturbs_nobody<V>(
    before: SelectorCore<V>,
    after: SelectorCore<V>,
    wait: IoWait,
)
    requires
        before.wf(),
        wait.open_in(before),
        wait.finished(before, after),
    ensures
        answers_stay(before, after, set![wait.mailbox]),
        wakeups_survive(before, after),
{
    let waiters = before.io_waiters@;
    lemma_first_index(io_tokens(waiters), wait.token);
    let found = first_index(io_tokens(waiters), wait.token);
    assert forall|wakeups: Seq<Wakeup<V>>| wakeups_ok(
        wakeups,
        before,
    ) implies #[trigger] wakeups_ok(wakeups, after) by {
        assert forall|i: int| 0 <= i < wakeups.len() implies ((
        #[trigger] wakeups[i]).mailbox matches Some(key) ==> {
            &&& after.io_results@.contains_key(key)
            &&& after.io_results@[key].sender
            &&& !io_mailboxes(after.io_waiters@).contains(key)
        }) by {
            if let Some(key) = wakeups[i].mailbox {
                if let Some(at) = found {
                    assert(io_mailboxes(waiters)[at] == waiters[at].mailbox);
                    assert(waiters[at].mailbox != key);
                }
                let keys = io_mailboxes(after.io_waiters@);
                if keys.contains(key) {
                    let j = choose|j: int| 0 <= j < keys.len() && keys[j] == key;
                    let k = match found {
                        Some(at) => if j == at {
                            waiters.len() - 1
                        } else {
                            j
                        },
                        None => j,
                    };
                    assert(waiters[k].mailbox == key);
                    assert(io_mailboxes(waiters)[k] == key);
                }
            }
        }
    }
}

/// A dispatch disturbs nobody: no call stops waiting, no answer is lost or
/// replaced, and wake-ups from an earlier dispatch stay good.
pub proof fn law_dispatch_disturbs_nobody<V>(
    before: SelectorCore<V>,
    after: SelectorCore<V>,
    events: Seq<(Descriptor, i32)>,
)
    requires
        before.wf(),
        events_dispatched(before, after, events),
    ensures
        waits_survive(before, after, Set::empty()),
        wakeups_survive(before, after),
{
    law_dispatch_delivers(before, after, events);
    let waiters = before.io_waiters@;
    let keys = io_mailboxes(waiters);
    assert forall|key: usize| {
        &&& #[trigger] after.io_results@[key].receiver == before.io_results@[key].receiver
        &&& after.io_results@[key].sender == before.io_results@[key].sender
        &&& before.io_results@[key].value != 0 ==> after.io_results@[key].value
            == before.io_results@[key].value
    } by {
        if keys.contains(key) {
            let i = choose|i: int| 0 <= i < keys.len() && keys[i] == key;
            assert(waiters[i].mailbox == key);
        }
    }
    assert forall|wakeups: Seq<Wakeup<V>>| wakeups_ok(
        wakeups,
        before,
    ) implies #[trigger] wakeups_ok(wakeups, after) by {
        assert forall|i: int| 0 <= i < wakeups.len() implies ((
        #[trigger] wakeups[i]).mailbox matches Some(key) ==> {
            &&& after.io_results@.contains_key(key)
            &&& after.io_results@[key].sender
            &&& !io_mailboxes(after.io_waiters@).contains(key)
        }) by {
            if let Some(key) = wakeups[i].mailbox {
                assert(after.io_results@[key].sender == before.io_results@[key].sender);
                lemma_still_waiting_keys(waiters, events, key);
            }
        }
    }
}

proof fn lemma_still_waiting_keys<V>(
    waiters: Seq<IoWaiter<V>>,
    events: Seq<(Descriptor, i32)>,
    key: usize,
)
    requires
        !io_mailboxes(waiters).contains(key),
    ensures
        !io_mailboxes(still_waiting(waiters, events)).contains(key),
    decreases waiters.len(),
{
    if waiters.len() > 0 {
        let front = waiters.drop_last();
        let last = waiters.last();
        assert(io_mailboxes(waiters)[waiters.len() - 1] == last.mailbox);
        assert forall|i: int| 0 <= i < front.len() implies io_mailboxes(front)[i] != key by {
            assert(io_mailboxes(waiters)[i] == front[i].mailbox);
        }
        lemma_still_waiting_keys(front, events, key);
        let rest = still_waiting(front, events);
        let whole = still_waiting(waiters, events);
        assert forall|i: int| 0 <= i < whole.len() implies io_mailboxes(whole)[i] != key by {
            if i < rest.len() {
                assert(io_mailboxes(rest)[i] == whole[i].mailbox);
            }
        }
    }
}

/// A dispatch sorts the waiters into those that wait on and those that are
/// woken: each is one or the other, and both keep their order.
pub proof fn law_dispatch_loses_nobody<V>(waiters: Seq<IoWaiter<V>>, events: Seq<(Descriptor, i32)>)
    ensures
        still_waiting(waiters, events).len() + concerned(waiters, events).len() == waiters.len(),
        forall|i: int|
            0 <= i < waiters.len() ==> if met(#[trigger] waiters[i], events) == 0 {
                still_waiting(waiters, events).contains(waiters[i])
            } else {
                concerned(waiters, events).contains(
                    Wakeup { fiber: waiters[i].fiber, mailbox: Some(waiters[i].mailbox) },
                )
            },
    decreases waiters.len(),
{
    if waiters.len() > 0 {
        let front = waiters.drop_last();
        let last = waiters.last();
        law_dispatch_loses_nobody(front, events);
        let stay = still_waiting(front, events);
        let wake = concerned(front, events);
        let whole_stay = still_waiting(waiters, events);
        let whole_wake = concerned(waiters, events);
        assert forall|i: int| 0 <= i < waiters.len() implies if met(
            #[trigger] waiters[i],
            events,
        ) == 0 {
            whole_stay.contains(waiters[i])
        } else {
            whole_wake.contains(
                Wakeup { fiber: waiters[i].fiber, mailbox: Some(waiters[i].mailbox) },
            )
        } by {
            let wakeup = Wakeup { fiber: waiters[i].fiber, mailbox: Some(waiters[i].mailbox) };
            if i < front.len() {
                assert(front[i] == waiters[i]);
                if met(waiters[i], events) == 0 {
                    let j = choose|j: int| 0 <= j < stay.len() && stay[j] == waiters[i];
                    assert(whole_stay[j] == waiters[i]);
                } else {
                    let j = choose|j: int| 0 <= j < wake.len() && wake[j] == wakeup;
                    assert(whole_wake[j] == wakeup);
                }
            } else if met(waiters[i], events) == 0 {
                assert(whole_stay[stay.len() as int] == last);
            } else {
                assert(whole_wake[wake.len() as int] == wakeup);
            }
        }
    }
}

/// Closing a selector ends no call by itself: each still finds what has been
/// sent to it, and nothing where nothing has. Wake-ups that have not had their
/// turn stay good.
pub proof fn law_close_disturbs_nobody<V>(before: SelectorCore<V>, after: SelectorCore<V>)
    requires
        before.wf(),
        shut_down(before, after),
    ensures
        answers_stay(before, after, Set::empty()),
        wakeups_survive(before, after),
        forall|wait: IoWait|
            wait.open_in(before) ==> #[trigger] wait.open_in(after) && wait.answer(after)
                == wait.answer(before),
{
    let waiters = before.io_waiters@;
    let keys = io_mailboxes(waiters);
    assert(keys.no_duplicates());
    assert forall|i: int| 0 <= i < keys.len() implies before.io_results@.contains_key(
        #[trigger] keys[i],
    ) && before.io_results@[keys[i]].sender by {
        assert(keys[i] == waiters[i].mailbox);
    }
    lemma_senders_left(before.io_results@, keys);
    assert forall|key: usize|
        before.io_results@.contains_key(key) && before.io_results@[key].receiver implies {
        &&& #[trigger] after.io_results@.contains_key(key)
        &&& after.io_results@[key].receiver
        &&& after.io_results@[key].value == before.io_results@[key].value
    } by {
        assert(senders_left(before.io_results@, keys).contains_key(key));
    }
    assert forall|wakeups: Seq<Wakeup<V>>| wakeups_ok(
        wakeups,
        before,
    ) implies #[trigger] wakeups_ok(wakeups, after) by {
        assert forall|i: int| 0 <= i < wakeups.len() implies ((
        #[trigger] wakeups[i]).mailbox matches Some(key) ==> {
            &&& after.io_results@.contains_key(key)
            &&& after.io_results@[key].sender
            &&& !io_mailboxes(after.io_waiters@).contains(key)
        }) by {
            if let Some(key) = wakeups[i].mailbox {
                assert(!keys.contains(key));
                assert(senders_left(before.io_results@, keys).contains_key(key));
            }
        }
    }
}

} // verus!
