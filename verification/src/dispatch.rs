//! Handing readiness events to the I/O waiters.

use std::collections::HashMap;

use vstd::prelude::*;

use crate::event::Descriptor;
use crate::mailbox::{delivered, Slot};
use crate::selector::{io_mailboxes, io_queue_ok, IoWaiter, SelectorCore};
use crate::wake::{wakeups_ok, WakeQueue, Wakeup};

verus! {

/// All conditions that `events` report of one descriptor.
pub open spec fn merged(events: Seq<(Descriptor, i32)>, fd: Descriptor) -> i32
    decreases events.len(),
{
    if events.len() == 0 {
        0
    } else {
        let rest = merged(events.drop_last(), fd);
        if events.last().0 == fd {
            rest | events.last().1
        } else {
            rest
        }
    }
}

/// The conditions that a waiter asked for and that have come about.
pub open spec fn met<V>(waiter: IoWaiter<V>, events: Seq<(Descriptor, i32)>) -> i32 {
    merged(events, waiter.fd) & waiter.events
}

/// The waiters that none of the events concern, in their order.
pub open spec fn still_waiting<V>(waiters: Seq<IoWaiter<V>>, events: Seq<(Descriptor, i32)>) -> Seq<
    IoWaiter<V>,
>
    decreases waiters.len(),
{
    if waiters.len() == 0 {
        Seq::empty()
    } else {
        let rest = still_waiting(waiters.drop_last(), events);
        if met(waiters.last(), events) == 0 {
            rest.push(waiters.last())
        } else {
            rest
        }
    }
}

/// The wake-ups of the waiters that some event concerns, in their order.
pub open spec fn concerned<V>(waiters: Seq<IoWaiter<V>>, events: Seq<(Descriptor, i32)>) -> Seq<Wakeup<V>>
    decreases waiters.len(),
{
    if waiters.len() == 0 {
        Seq::empty()
    } else {
        let rest = concerned(waiters.drop_last(), events);
        if met(waiters.last(), events) == 0 {
            rest
        } else {
            rest.push(
                Wakeup { fiber: waiters.last().fiber, mailbox: Some(waiters.last().mailbox) },
            )
        }
    }
}

/// The mailboxes once each waiter that some event concerns has been sent the
/// conditions it asked for.
pub open spec fn all_delivered<V>(
    boxes: Map<usize, Slot<i32>>,
    waiters: Seq<IoWaiter<V>>,
    events: Seq<(Descriptor, i32)>,
) -> Map<usize, Slot<i32>>
    decreases waiters.len(),
{
    if waiters.len() == 0 {
        boxes
    } else {
        let rest = all_delivered(boxes, waiters.drop_last(), events);
        if met(waiters.last(), events) == 0 {
            rest
        } else {
            delivered(rest, waiters.last().mailbox, met(waiters.last(), events))
        }
    }
}

/// How a selector changes when events are handed to its waiters.
pub open spec fn events_dispatched<V>(
    before: SelectorCore<V>,
    after: SelectorCore<V>,
    events: Seq<(Descriptor, i32)>,
) -> bool {
    &&& after.io_waiters@ == still_waiting(before.io_waiters@, events)
    &&& after.io_results@ == all_delivered(before.io_results@, before.io_waiters@, events)
    &&& after == SelectorCore {
        io_waiters: after.io_waiters,
        io_results: after.io_results,
        ..before
    }
}

/// Merges the events of each descriptor.
fn merge_events(events: &Vec<(Descriptor, i32)>) -> (by_fd: HashMap<Descriptor, i32>)
    ensures
        forall|fd: Descriptor|
            merged(events@, fd) == if #[trigger] by_fd@.contains_key(fd) {
                by_fd@[fd]
            } else {
                0
            },
{
    broadcast use vstd::std_specs::hash::group_hash_axioms;

    let mut by_fd: HashMap<Descriptor, i32> = HashMap::new();
    for i in 0..events.len()
        invariant
            forall|fd: Descriptor|
                merged(events@.take(i as int), fd) == if #[trigger] by_fd@.contains_key(fd) {
                    by_fd@[fd]
                } else {
                    0
                },
    {
        let (fd, event) = events[i];
        let known = match by_fd.get(&fd) {
            Some(existing) => Some(*existing),
            None => None,
        };
        let conditions: i32 = match known {
            Some(existing) => existing | event,
            None => event,
        };
        assert(0i32 | event == event) by (bit_vector);
        by_fd.insert(fd, conditions);
        assert(events@.take(i + 1).drop_last() =~= events@.take(i as int));
    }
    assert(events@.take(events@.len() as int) =~= events@);
    by_fd
}

/// What a dispatch does to waiters whose mailboxes are in order: the waiters
/// that stay are in order, so are the wake-ups, and the mailboxes of the two do
/// not overlap.
pub proof fn lemma_dispatched<V>(
    before: SelectorCore<V>,
    events: Seq<(Descriptor, i32)>,
    count: int,
)
    requires
        0 <= count <= before.io_waiters@.len(),
        io_queue_ok(before.io_waiters@, before.io_results@),
    ensures
        ({
            let seen = before.io_waiters@.take(count);
            let boxes = all_delivered(before.io_results@, seen, events);
            let wakeups = concerned(seen, events);
            let stay = still_waiting(seen, events);
            &&& boxes.dom() == before.io_results@.dom()
            &&& forall|key: usize| #[trigger]
                boxes[key].sender == before.io_results@[key].sender && boxes[key].receiver
                    == before.io_results@[key].receiver
            &&& forall|i: int|
                count <= i < before.io_waiters@.len() ==> boxes[(
                #[trigger] before.io_waiters@[i]).mailbox]
                    == before.io_results@[before.io_waiters@[i].mailbox]
            &&& forall|i: int|
                0 <= i < stay.len() ==> {
                    &&& boxes[(#[trigger] stay[i]).mailbox] == before.io_results@[stay[i].mailbox]
                    &&& exists|j: int| 0 <= j < count && before.io_waiters@[j] == stay[i]
                }
            &&& forall|i: int, j: int|
                0 <= i < j < stay.len() ==> (#[trigger] stay[i]).mailbox != (
                #[trigger] stay[j]).mailbox
            &&& forall|i: int|
                0 <= i < wakeups.len() ==> {
                    &&& (#[trigger] wakeups[i]).mailbox is Some
                    &&& exists|j: int|
                        0 <= j < count && (#[trigger] before.io_waiters@[j]).mailbox
                            == wakeups[i].mailbox->0
                }
            &&& forall|i: int, j: int|
                0 <= i < wakeups.len() && 0 <= j < stay.len() ==> (
                #[trigger] wakeups[i]).mailbox != Some((#[trigger] stay[j]).mailbox)
            &&& forall|i: int, j: int|
                0 <= i < j < wakeups.len() ==> (#[trigger] wakeups[i]).mailbox != (
                #[trigger] wakeups[j]).mailbox
        }),
    decreases count,
{
    let waiters = before.io_waiters@;
    if count > 0 {
        lemma_dispatched(before, events, count - 1);
        let seen = waiters.take(count);
        let front = waiters.take(count - 1);
        assert(seen.drop_last() =~= front);
        let last = waiters[count - 1];
        assert(seen.last() == last);
        assert(before.io_results@.contains_key(last.mailbox));
        let stay = still_waiting(front, events);
        let wakeups = concerned(front, events);
        assert forall|i: int| 0 <= i < stay.len() implies (#[trigger] stay[i]).mailbox
            != last.mailbox by {
            let j = choose|j: int| 0 <= j < count - 1 && waiters[j] == stay[i];
            assert(waiters[j].mailbox != waiters[count - 1].mailbox);
        }
        assert forall|i: int| 0 <= i < wakeups.len() implies (#[trigger] wakeups[i]).mailbox
            != Some(last.mailbox) by {
            let j = choose|j: int|
                0 <= j < count - 1 && (#[trigger] waiters[j]).mailbox == wakeups[i].mailbox->0;
            assert(waiters[j].mailbox != waiters[count - 1].mailbox);
        }
        let new_stay = still_waiting(seen, events);
        assert forall|i: int| 0 <= i < new_stay.len() implies exists|j: int|
            0 <= j < count && waiters[j] == (#[trigger] new_stay[i]) by {
            if i < stay.len() {
                let j = choose|j: int| 0 <= j < count - 1 && waiters[j] == stay[i];
                assert(waiters[j] == new_stay[i]);
            } else {
                assert(waiters[count - 1] == new_stay[i]);
            }
        }
        let new_wakeups = concerned(seen, events);
        assert forall|i: int| 0 <= i < new_wakeups.len() implies exists|j: int|
            0 <= j < count && (#[trigger] waiters[j]).mailbox == (
            #[trigger] new_wakeups[i]).mailbox->0 by {
            if i < wakeups.len() {
                let j = choose|j: int|
                    0 <= j < count - 1 && (#[trigger] waiters[j]).mailbox == wakeups[i].mailbox->0;
                assert(waiters[j].mailbox == new_wakeups[i].mailbox->0);
            } else {
                assert(waiters[count - 1].mailbox == new_wakeups[i].mailbox->0);
            }
        }
    }
}

impl<V: Copy> WakeQueue<V> {
    /// Takes out of their queue the waiters that the events concern, with the
    /// conditions that they asked for in their mailboxes.
    pub fn dispatch_io_events(core: &mut SelectorCore<V>, events: &Vec<(Descriptor, i32)>) -> (queue: Self)
        requires
            old(core).wf(),
        ensures
            final(core).wf(),
            queue.wf(*final(core)),
            queue.next == 0,
            queue.woken == 0,
            queue.wakeups@ == concerned(old(core).io_waiters@, events@),
            events_dispatched(*old(core), *final(core), events@),
    {
        broadcast use vstd::std_specs::hash::group_hash_axioms;

        let by_fd = merge_events(events);
        let mut wakeups: Vec<Wakeup<V>> = Vec::new();
        let ghost waiters = core.io_waiters@;
        let mut index: usize = 0;
        while index < core.io_waiters.len()
            invariant
                old(core).wf(),
                waiters == old(core).io_waiters@,
                forall|fd: Descriptor|
                    merged(events@, fd) == if #[trigger] by_fd@.contains_key(fd) {
                        by_fd@[fd]
                    } else {
                        0
                    },
                index + wakeups@.len() <= waiters.len(),
                ({
                    let count = index + wakeups@.len();
                    let seen = waiters.take(count);
                    &&& index == still_waiting(seen, events@).len()
                    &&& core.io_waiters@ == still_waiting(seen, events@) + waiters.skip(count)
                    &&& wakeups@ == concerned(seen, events@)
                    &&& core.io_results@ == all_delivered(old(core).io_results@, seen, events@)
                }),
                *core == (SelectorCore {
                    io_waiters: core.io_waiters,
                    io_results: core.io_results,
                    ..*old(core)
                }),
            decreases core.io_waiters@.len() - index,
        {
            let ghost count = index + wakeups@.len();
            proof {
                lemma_dispatched(*old(core), events@, count);
                assert(waiters.take(count + 1).drop_last() =~= waiters.take(count));
                assert(core.io_waiters@[index as int] == waiters[count]);
                assert(waiters.take(count + 1).last() == waiters[count]);
            }
            let known = match by_fd.get(&core.io_waiters[index].fd) {
                Some(conditions) => *conditions,
                None => 0,
            };
            let conditions: i32 = known & core.io_waiters[index].events;
            if conditions == 0 {
                index += 1;
                assert(core.io_waiters@ =~= still_waiting(waiters.take(count + 1), events@)
                    + waiters.skip(count + 1));
            } else {
                let waiter = core.io_waiters.remove(index);
                core.io_results.deliver(waiter.mailbox, conditions);
                wakeups.push(Wakeup { fiber: waiter.fiber, mailbox: Some(waiter.mailbox) });
                assert(core.io_waiters@ =~= still_waiting(waiters.take(count + 1), events@)
                    + waiters.skip(count + 1));
            }
        }
        let queue = WakeQueue { wakeups, next: 0, woken: 0 };
        proof {
            let count = waiters.len() as int;
            assert(waiters.take(count) =~= waiters);
            lemma_dispatched(*old(core), events@, count);
            assert(core.io_waiters@ =~= still_waiting(waiters, events@));
            assert(queue.wakeups@.skip(0) =~= queue.wakeups@);
            assert forall|i: int| 0 <= i < queue.wakeups@.len() implies !io_mailboxes(
                core.io_waiters@,
            ).contains((#[trigger] queue.wakeups@[i]).mailbox->0) by {
                let keys = io_mailboxes(core.io_waiters@);
                if keys.contains(queue.wakeups@[i].mailbox->0) {
                    let j = choose|j: int|
                        0 <= j < keys.len() && keys[j] == queue.wakeups@[i].mailbox->0;
                    assert(core.io_waiters@[j].mailbox == queue.wakeups@[i].mailbox->0);
                }
            }
            assert(wakeups_ok(queue.wakeups@, *core));
        }
        queue
    }
}

} // verus!
