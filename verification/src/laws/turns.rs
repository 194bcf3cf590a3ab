//! Waking fibers, one call at a time: who is found, who is passed over, and why.

use vstd::prelude::*;

use crate::dispatch::{concerned, merged, met, still_waiting};
use crate::event::Descriptor;
use crate::io_wait::IoWait;
use crate::laws::frame::{same_box, same_io, same_processes, same_ready, same_rest, sender_gone};
use crate::laws::queued_waits::law_io_wait_is_queued_as_asked;
use crate::laws::waiting::{
    law_dispatch_delivers, law_woken_iff_some_event_concerns, some_event_concerns,
};
use crate::laws::waking::{call_ended, law_each_fiber_has_one_turn};
use crate::mailbox::{lemma_senders_left, senders_left};
use crate::process::ProcessScan;
use crate::selector::{io_mailboxes, IoWaiter, SelectorCore};
use crate::wake::{lemma_wake_keys, wake_keys, wakeups_ok, wakeups_spent, WakeQueue, WakeStep, Wakeup};

verus! {

/// A flush takes everybody who is ready, in their order, and leaves nobody.
pub proof fn law_flush_takes_everybody<V: Copy>(core: &mut SelectorCore<V>, queue: WakeQueue<V>)
    requires
        call_ensures(WakeQueue::<V>::flush_ready, (core,), queue),
    ensures
        queue.next == 0,
        queue.woken == 0,
        queue.wakeups@.len() == old(core).ready@.len(),
        forall|i: int|
            0 <= i < queue.wakeups@.len() ==> {
                &&& (#[trigger] queue.wakeups@[i]).fiber == old(core).ready@[i].fiber
                &&& queue.wakeups@[i].mailbox is None
            },
        final(core).ready@.len() == 0,
        final(core).next_token == old(core).next_token,
        same_io(*old(core), *final(core)),
        same_processes(*old(core), *final(core)),
        same_rest(*old(core), *final(core)),
{
}

/// After a round everybody who got a status is woken, in the order of the answers.
pub proof fn law_everybody_served_is_woken<V: Copy>(scan: ProcessScan<V>, queue: WakeQueue<V>)
    requires
        call_ensures(WakeQueue::<V>::process_waiters, (scan,), queue),
    ensures
        queue.next == 0,
        queue.woken == 0,
        queue.wakeups@.len() == scan.ready@.len(),
        forall|i: int|
            0 <= i < queue.wakeups@.len() ==> {
                &&& (#[trigger] queue.wakeups@[i]).fiber == scan.ready@[i]
                &&& queue.wakeups@[i].mailbox is None
            },
{
}

/// The wake-ups from `from` up to `to` are used: their mailboxes have lost their
/// sending ends, no other mailbox is touched, and nothing else has changed.
pub open spec fn used_up<V>(
    before: SelectorCore<V>,
    after: SelectorCore<V>,
    wakeups: Seq<Wakeup<V>>,
    from: int,
    to: int,
) -> bool {
    &&& forall|p: int|
        from <= p < to ==> ((#[trigger] wakeups[p]).mailbox matches Some(key) ==> sender_gone(
            before.io_results@,
            after.io_results@,
            key,
        ))
    &&& forall|key: usize|
        (forall|p: int| from <= p < to ==> (#[trigger] wakeups[p]).mailbox != Some(key))
            ==> #[trigger] same_box(before.io_results@, after.io_results@, key)
    &&& after.io_waiters@ == before.io_waiters@
    &&& same_processes(before, after)
    &&& same_ready(before, after)
    &&& same_rest(before, after)
}

/// A look at the queue, once `woken` fibers have been woken. It finds the next
/// wake-up whose call still waits, or the end if there is none: every wake-up that it
/// passes over is for a call whose mailbox has no receiving end any more.
pub open spec fn looked<V, E>(
    before: WakeQueue<V>,
    core_before: SelectorCore<V>,
    after: WakeQueue<V>,
    core_after: SelectorCore<V>,
    step: WakeStep<V, E>,
    woken: int,
) -> bool {
    let wakeups = before.wakeups@;
    let boxes = core_before.io_results@;
    &&& after.wakeups@ == wakeups
    &&& after.woken == woken
    &&& before.next <= after.next <= wakeups.len()
    &&& match step {
        WakeStep::Probe(fiber) => {
            &&& before.next < after.next
            &&& fiber == wakeups[after.next - 1].fiber
            &&& wakeups[after.next - 1].mailbox matches Some(key) ==> boxes[key].receiver
            &&& forall|p: int|
                before.next <= p < after.next - 1 ==> (#[trigger] wakeups[p]).mailbox is Some
                    && !boxes[wakeups[p].mailbox->0].receiver
        },
        WakeStep::Transfer(_) => false,
        WakeStep::Done(outcome) => {
            &&& outcome matches Ok(count) && count == woken
            &&& after.next == wakeups.len()
            &&& forall|p: int|
                before.next <= p < wakeups.len() ==> (#[trigger] wakeups[p]).mailbox is Some
                    && !boxes[wakeups[p].mailbox->0].receiver
        },
    }
    &&& used_up(core_before, core_after, wakeups, before.next as int, after.next as int)
}

/// A wake-up is passed over only if the call that it was meant for has ended: as long
/// as the receiving end of its mailbox is attached, a look at the queue finds it.
pub proof fn law_whoever_still_waits_is_found<V: Copy, E>(
    queue: &mut WakeQueue<V>,
    core: &mut SelectorCore<V>,
    step: WakeStep<V, E>,
)
    requires
        old(core).wf(),
        old(queue).wf(*old(core)),
        call_ensures(WakeQueue::<V>::advance::<E>, (queue, core), step),
    ensures
        looked(
            *old(queue),
            *old(core),
            *final(queue),
            *final(core),
            step,
            old(queue).woken as int,
        ),
{
    lemma_looked(*old(queue), *old(core), *final(queue), *final(core), step);
}

/// A fiber that is alive gets control. One that has ended is passed over, and the
/// queue is looked at again. An exception ends the matter: nobody else is woken, and
/// all the wake-ups that are left are dropped.
pub proof fn law_living_fiber_gets_control<V: Copy, E>(
    queue: &mut WakeQueue<V>,
    core: &mut SelectorCore<V>,
    fiber: V,
    alive: Result<bool, E>,
    step: WakeStep<V, E>,
)
    requires
        old(core).wf(),
        old(queue).wf(*old(core)),
        call_ensures(WakeQueue::<V>::probed::<E>, (queue, core, fiber, alive), step),
    ensures
        match alive {
            Ok(true) => {
                &&& step == WakeStep::<V, E>::Transfer(fiber)
                &&& *final(queue) == *old(queue)
                &&& *final(core) == *old(core)
            },
            Ok(false) => looked(
                *old(queue),
                *old(core),
                *final(queue),
                *final(core),
                step,
                old(queue).woken as int,
            ),
            Err(error) => {
                &&& step == WakeStep::<V, E>::Done(Err(error))
                &&& final(queue).next == old(queue).wakeups@.len()
                &&& used_up(
                    *old(core),
                    *final(core),
                    old(queue).wakeups@,
                    old(queue).next as int,
                    old(queue).wakeups@.len() as int,
                )
            },
        },
{
    match alive {
        Ok(true) => {},
        Ok(false) => {
            lemma_looked(*old(queue), *old(core), *final(queue), *final(core), step);
        },
        Err(_) => {
            lemma_dropped(*old(queue), *old(core), *final(core));
        },
    }
}

/// A fiber that gave control back counts as woken, and the queue is looked at again.
/// An exception ends the matter: nobody else is woken, and all the wake-ups that are
/// left are dropped.
pub proof fn law_every_transfer_counts<V: Copy, E>(
    queue: &mut WakeQueue<V>,
    core: &mut SelectorCore<V>,
    outcome: Result<Option<V>, E>,
    step: WakeStep<V, E>,
)
    requires
        old(core).wf(),
        old(queue).wf(*old(core)),
        old(queue).woken < old(queue).next,
        call_ensures(WakeQueue::<V>::transferred::<E>, (queue, core, outcome), step),
    ensures
        match outcome {
            Ok(_) => looked(
                *old(queue),
                *old(core),
                *final(queue),
                *final(core),
                step,
                old(queue).woken + 1,
            ),
            Err(error) => {
                &&& step == WakeStep::<V, E>::Done(Err(error))
                &&& final(queue).next == old(queue).wakeups@.len()
                &&& used_up(
                    *old(core),
                    *final(core),
                    old(queue).wakeups@,
                    old(queue).next as int,
                    old(queue).wakeups@.len() as int,
                )
            },
        },
{
    match outcome {
        Ok(_) => {
            let counted = WakeQueue { woken: (old(queue).woken + 1) as usize, ..*old(queue) };
            lemma_looked(counted, *old(core), *final(queue), *final(core), step);
        },
        Err(_) => {
            lemma_dropped(*old(queue), *old(core), *final(core));
        },
    }
}

proof fn lemma_looked<V, E>(
    before: WakeQueue<V>,
    core_before: SelectorCore<V>,
    after: WakeQueue<V>,
    core_after: SelectorCore<V>,
    step: WakeStep<V, E>,
)
    requires
        before.wf(core_before),
        WakeQueue::<V>::advanced(before, core_before, after, core_after, step),
    ensures
        looked(before, core_before, after, core_after, step, before.woken as int),
{
    law_each_fiber_has_one_turn(before, core_before, after, core_after, step);
    let wakeups = before.wakeups@;
    let boxes = core_before.io_results@;
    assert forall|p: int|
        before.next <= p < wakeups.len() && call_ended(wakeups[p], boxes) implies (
    #[trigger] wakeups[p]).mailbox is Some && !boxes[wakeups[p].mailbox->0].receiver by {}
    lemma_used_up(
        core_before,
        core_after,
        wakeups,
        before.next as int,
        before.next as int,
        after.next as int,
    );
}

proof fn lemma_dropped<V>(
    before: WakeQueue<V>,
    core_before: SelectorCore<V>,
    core_after: SelectorCore<V>,
)
    requires
        before.wf(core_before),
        wakeups_spent(core_before, core_after, before.wakeups@.skip(before.next as int)),
    ensures
        used_up(
            core_before,
            core_after,
            before.wakeups@,
            before.next as int,
            before.wakeups@.len() as int,
        ),
{
    let wakeups = before.wakeups@;
    let next = before.next as int;
    assert(wakeups.subrange(next, wakeups.len() as int) =~= wakeups.skip(next));
    lemma_used_up(core_before, core_after, wakeups, next, next, wakeups.len() as int);
}

proof fn lemma_used_up<V>(
    before: SelectorCore<V>,
    after: SelectorCore<V>,
    wakeups: Seq<Wakeup<V>>,
    next: int,
    from: int,
    to: int,
)
    requires
        0 <= next == from <= to <= wakeups.len(),
        wakeups_ok(wakeups.skip(next), before),
        wakeups_spent(before, after, wakeups.subrange(from, to)),
    ensures
        used_up(before, after, wakeups, from, to),
{
    let rest = wakeups.skip(next);
    let spent = wakeups.subrange(from, to);
    let boxes = before.io_results@;
    let keys = wake_keys(spent);
    assert(forall|i: int| 0 <= i < spent.len() ==> spent[i] == rest[i]);
    assert(wakeups_ok(spent, before));
    lemma_wake_keys(spent, before);
    lemma_senders_left(boxes, keys);
    assert forall|p: int| from <= p < to implies ((#[trigger] wakeups[p]).mailbox matches Some(
        key,
    ) ==> sender_gone(boxes, after.io_results@, key)) by {
        assert(spent[p - from] == wakeups[p]);
        if let Some(key) = wakeups[p].mailbox {
            lemma_key_is_used(spent, p - from, key);
            let there = senders_left(boxes, keys).contains_key(key);
        }
    }
    assert forall|key: usize|
        (forall|p: int| from <= p < to ==> (#[trigger] wakeups[p]).mailbox != Some(
            key,
        )) implies #[trigger] same_box(boxes, after.io_results@, key) by {
        if keys.contains(key) {
            let i = choose|i: int| 0 <= i < spent.len() && (#[trigger] spent[i]).mailbox == Some(key);
            assert(wakeups[from + i].mailbox == Some(key));
        }
        let there = senders_left(boxes, keys).contains_key(key);
    }
}

proof fn lemma_key_is_used<V>(wakeups: Seq<Wakeup<V>>, i: int, key: usize)
    requires
        0 <= i < wakeups.len(),
        wakeups[i].mailbox == Some(key),
    ensures
        wake_keys(wakeups).contains(key),
    decreases wakeups.len(),
{
    let front = wakeups.drop_last();
    let keys = wake_keys(front);
    if i == wakeups.len() - 1 {
        assert(keys.push(key)[keys.len() as int] == key);
    } else {
        assert(front[i] == wakeups[i]);
        lemma_key_is_used(front, i, key);
        let at = choose|at: int| 0 <= at < keys.len() && keys[at] == key;
        assert(wake_keys(wakeups)[at] == key);
    }
}

/// What a waiter is told: of the conditions that it waits for, just those that some
/// event reports of its descriptor.
pub open spec fn told_right<V>(
    waiter: IoWaiter<V>,
    events: Seq<(Descriptor, i32)>,
    told: i32,
) -> bool {
    forall|mask: i32| #![trigger told & mask]
        told & mask != 0 <==> exists|i: int|
            0 <= i < events.len() && (#[trigger] events[i]).0 == waiter.fd && (events[i].1
                & waiter.events) & mask != 0
}

/// When events are handed out, a waiter leaves the queue if and only if some event
/// reports, of its descriptor, a condition that it waits for; both those that leave
/// and those that stay keep their order. Each that leaves is to be woken with its own
/// fiber, and finds in its own mailbox just the conditions that it waits for and that
/// were reported. No other mailbox is touched, and nothing else changes.
pub proof fn law_events_reach_whom_they_concern<V: Copy>(
    core: &mut SelectorCore<V>,
    events: &Vec<(Descriptor, i32)>,
    queue: WakeQueue<V>,
)
    requires
        old(core).wf(),
        call_ensures(WakeQueue::<V>::dispatch_io_events, (core, events), queue),
    ensures
        queue.next == 0,
        queue.woken == 0,
        final(core).io_waiters@ == old(core).io_waiters@.filter(
            |waiter: IoWaiter<V>| !some_event_concerns(waiter, events@),
        ),
        queue.wakeups@ == old(core).io_waiters@.filter(
            |waiter: IoWaiter<V>| some_event_concerns(waiter, events@),
        ).map_values(
            |waiter: IoWaiter<V>|
                Wakeup { fiber: waiter.fiber, mailbox: Some(waiter.mailbox) },
        ),
        forall|i: int|
            0 <= i < old(core).io_waiters@.len() ==> {
                let waiter = #[trigger] old(core).io_waiters@[i];
                let before = old(core).io_results@[waiter.mailbox];
                let after = final(core).io_results@[waiter.mailbox];
                &&& told_right(waiter, events@, after.value)
                &&& after.receiver == before.receiver
                &&& after.sender == before.sender
            },
        forall|key: usize| #[trigger]
            final(core).io_results@.contains_key(key) == old(core).io_results@.contains_key(key),
        forall|key: usize|
            (forall|i: int|
                0 <= i < old(core).io_waiters@.len() ==> (
                #[trigger] old(core).io_waiters@[i]).mailbox != key) ==> #[trigger] same_box(
                old(core).io_results@,
                final(core).io_results@,
                key,
            ),
        same_processes(*old(core), *final(core)),
        same_ready(*old(core), *final(core)),
        same_rest(*old(core), *final(core)),
{
    let before = *old(core);
    let after = *final(core);
    let waiters = before.io_waiters@;
    law_dispatch_delivers(before, after, events@);
    lemma_sorted(waiters, events@);
    assert forall|i: int| 0 <= i < waiters.len() implies told_right(
        #[trigger] waiters[i],
        events@,
        after.io_results@[waiters[i].mailbox].value,
    ) by {
        lemma_told(waiters[i], events@);
    }
    assert forall|key: usize|
        (forall|i: int| 0 <= i < waiters.len() ==> (#[trigger] waiters[i]).mailbox
            != key) implies #[trigger] same_box(before.io_results@, after.io_results@, key) by {
        let keys = io_mailboxes(waiters);
        if keys.contains(key) {
            let i = choose|i: int| 0 <= i < keys.len() && keys[i] == key;
            assert(waiters[i].mailbox == key);
        }
        assert(after.io_results@[key] == before.io_results@[key]);
        let there = after.io_results@.contains_key(key);
    }
}

proof fn lemma_sorted<V>(waiters: Seq<IoWaiter<V>>, events: Seq<(Descriptor, i32)>)
    ensures
        still_waiting(waiters, events) == waiters.filter(
            |waiter: IoWaiter<V>| !some_event_concerns(waiter, events),
        ),
        concerned(waiters, events) == waiters.filter(
            |waiter: IoWaiter<V>| some_event_concerns(waiter, events),
        ).map_values(
            |waiter: IoWaiter<V>|
                Wakeup { fiber: waiter.fiber, mailbox: Some(waiter.mailbox) },
        ),
    decreases waiters.len(),
{
    reveal(Seq::filter);
    let wakeup_of = |waiter: IoWaiter<V>|
        Wakeup { fiber: waiter.fiber, mailbox: Some(waiter.mailbox) };
    if waiters.len() > 0 {
        let front = waiters.drop_last();
        lemma_sorted(front, events);
        law_woken_iff_some_event_concerns(waiters.last(), events);
        let woken = front.filter(|waiter: IoWaiter<V>| some_event_concerns(waiter, events));
        assert(woken.push(waiters.last()).map_values(wakeup_of) =~= woken.map_values(
            wakeup_of,
        ).push(wakeup_of(waiters.last())));
    }
}

proof fn lemma_told<V>(waiter: IoWaiter<V>, events: Seq<(Descriptor, i32)>)
    ensures
        told_right(waiter, events, met(waiter, events)),
    decreases events.len(),
{
    let told = met(waiter, events);
    let wanted = waiter.events;
    if events.len() == 0 {
        assert forall|mask: i32| #![trigger told & mask] told & mask == 0 by {
            assert((0i32 & wanted) & mask == 0) by (bit_vector);
        }
    } else {
        let front = events.drop_last();
        let last = events.last();
        lemma_told(waiter, front);
        let earlier = met(waiter, front);
        let rest = merged(front, waiter.fd);
        let event = last.1;
        assert(events[events.len() - 1] == last);
        assert forall|mask: i32| #![trigger told & mask]
            told & mask != 0 <==> exists|i: int|
                0 <= i < events.len() && (#[trigger] events[i]).0 == waiter.fd && (events[i].1
                    & wanted) & mask != 0 by {
            assert(((rest | event) & wanted) & mask != 0 <==> (rest & wanted) & mask != 0 || (event
                & wanted) & mask != 0) by (bit_vector);
            assert(earlier & mask != 0 <==> exists|i: int|
                0 <= i < front.len() && (#[trigger] front[i]).0 == waiter.fd && (front[i].1
                    & wanted) & mask != 0);
            if earlier & mask != 0 {
                let i = choose|i: int|
                    0 <= i < front.len() && (#[trigger] front[i]).0 == waiter.fd && (front[i].1
                        & wanted) & mask != 0;
                assert(events[i] == front[i]);
            }
            if exists|i: int|
                0 <= i < events.len() && (#[trigger] events[i]).0 == waiter.fd && (events[i].1
                    & wanted) & mask != 0 {
                let i = choose|i: int|
                    0 <= i < events.len() && (#[trigger] events[i]).0 == waiter.fd && (events[i].1
                        & wanted) & mask != 0;
                if i < front.len() {
                    assert(front[i] == events[i]);
                }
            }
        }
    }
}

/// A fiber that waits for I/O, and of whose descriptor the next events report something
/// that it waits for, is the last of those to be woken, and its call answers with just
/// the conditions that it waits for and that were reported. If they report nothing of the
/// kind it is not woken, and a call that ended now would answer with nothing.
pub proof fn law_waiting_fiber_is_woken_and_told<V: Copy, E>(
    first: &mut SelectorCore<V>,
    fiber: V,
    io: V,
    wanted: i32,
    fd: Descriptor,
    wait: IoWait,
    second: &mut SelectorCore<V>,
    events: &Vec<(Descriptor, i32)>,
    queue: WakeQueue<V>,
    third: &mut SelectorCore<V>,
    back: Option<V>,
    answer: Result<Option<i32>, E>,
)
    requires
        old(first).wf(),
        call_ensures(IoWait::selector_io_wait::<V>, (first, fiber, io, wanted, fd), wait),
        *old(second) == *final(first),
        call_ensures(WakeQueue::<V>::dispatch_io_events, (second, events), queue),
        *old(third) == *final(second),
        call_ensures(IoWait::finish::<V, E>, (wait, third, Ok(back)), answer),
    ensures
        match answer {
            Ok(Some(told)) => {
                &&& told != 0
                &&& queue.wakeups@.len() > 0
                &&& queue.wakeups@.last().fiber == fiber
                &&& queue.wakeups@.last().mailbox == Some(wait.mailbox)
                &&& forall|mask: i32| #![trigger told & mask]
                    told & mask != 0 <==> exists|i: int|
                        0 <= i < events@.len() && (#[trigger] events@[i]).0 == fd && (events@[i].1
                            & wanted) & mask != 0
            },
            Ok(None) => {
                &&& forall|i: int|
                    0 <= i < events@.len() && (#[trigger] events@[i]).0 == fd ==> events@[i].1
                        & wanted == 0
                &&& forall|i: int|
                    0 <= i < queue.wakeups@.len() ==> (#[trigger] queue.wakeups@[i]).mailbox
                        != Some(wait.mailbox)
            },
            Err(_) => false,
        },
{
    let queued = *final(first);
    let after = *final(second);
    let waiter = queued.io_waiters@.last();
    let at = queued.io_waiters@.len() - 1;
    assert(queued.io_waiters@[at] == waiter);
    law_events_reach_whom_they_concern(second, events, queue);
    law_io_wait_is_queued_as_asked(first, fiber, io, wanted, fd, wait);
    lemma_told(waiter, events@);
    law_dispatch_delivers(queued, after, events@);
    law_woken_iff_some_event_concerns(waiter, events@);
    let front = queued.io_waiters@.drop_last();
    reveal(Seq::filter);
    if answer == Ok::<Option<i32>, E>(None) {
        assert forall|i: int| 0 <= i < queue.wakeups@.len() implies (
        #[trigger] queue.wakeups@[i]).mailbox != Some(wait.mailbox) by {
            lemma_wakeups_of(front, events@);
            assert(queue.wakeups@ == concerned(front, events@));
            let j = choose|j: int|
                0 <= j < front.len() && Some((#[trigger] front[j]).mailbox)
                    == queue.wakeups@[i].mailbox;
            assert(queued.io_waiters@[j].mailbox != queued.io_waiters@[at].mailbox);
        }
        assert forall|i: int| 0 <= i < events@.len() && (#[trigger] events@[i]).0
            == fd implies events@[i].1 & wanted == 0 by {
            if events@[i].1 & wanted != 0 {
                assert(some_event_concerns(waiter, events@));
            }
        }
    }
}

proof fn lemma_wakeups_of<V>(waiters: Seq<IoWaiter<V>>, events: Seq<(Descriptor, i32)>)
    ensures
        forall|i: int|
            0 <= i < concerned(waiters, events).len() ==> exists|j: int|
                0 <= j < waiters.len() && Some((#[trigger] waiters[j]).mailbox) == (
                #[trigger] concerned(waiters, events)[i]).mailbox,
    decreases waiters.len(),
{
    if waiters.len() > 0 {
        let front = waiters.drop_last();
        lemma_wakeups_of(front, events);
        let rest = concerned(front, events);
        let all = concerned(waiters, events);
        assert forall|i: int| 0 <= i < all.len() implies exists|j: int|
            0 <= j < waiters.len() && Some((#[trigger] waiters[j]).mailbox) == (
            #[trigger] all[i]).mailbox by {
            if i < rest.len() {
                assert(rest[i] == all[i]);
                let j = choose|j: int|
                    0 <= j < front.len() && Some((#[trigger] front[j]).mailbox) == rest[i].mailbox;
                assert(waiters[j] == front[j]);
            } else {
                assert(Some(waiters[waiters.len() - 1].mailbox) == all[i].mailbox);
            }
        }
    }
}

} // verus!
