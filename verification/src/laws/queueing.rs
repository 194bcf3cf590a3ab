//! The queues of a selector: who comes in, who goes out, and who is marked.

use vstd::prelude::*;

use crate::event::BackendKind;
use crate::interrupt::Interrupt;
use crate::laws::frame::{
    same_box, same_io, same_processes, same_ready, same_rest, sender_gone, swapped_out,
};
use crate::mailbox::{lemma_senders_left, senders_left, Slot};
use crate::platform::Platform;
use crate::selector::{
    first_index, io_mailboxes, io_results_without, io_roots, io_tokens, lemma_first_index,
    process_mailboxes, process_results_without, process_roots, process_tokens, ready_ids,
    ready_roots, without_io_waiter, without_process_waiter, without_ready, IoWaiter,
    ProcessWaiter, ReadyEntry, SelectorCore,
};

verus! {

/// A new selector is open and empty, has no loop fiber and no interrupt, has not
/// waited, and gives out the token 1 first.
pub proof fn law_new_selector_is_empty<V: Copy>(kind: BackendKind, core: SelectorCore<V>)
    requires
        call_ensures(SelectorCore::<V>::new, (kind,), core),
    ensures
        core.kind == kind,
        core.loop_fiber is None,
        core.interrupt is None,
        core.ready@.len() == 0,
        core.io_waiters@.len() == 0,
        core.process_waiters@.len() == 0,
        forall|key: usize| !core.io_results@.contains_key(key),
        forall|key: usize| !core.process_results@.contains_key(key),
        core.next_token == 1,
        core.idle_duration.seconds == 0,
        core.idle_duration.nanoseconds == 0,
        !core.closed,
        !core.blocked,
        core.wf(),
{
}

/// A selector that is made ready for use knows its loop fiber and is open; it needs
/// an interrupt if it is on Unix and has none. Once that is attached it has it.
/// Nobody who is ready or waits is affected.
pub proof fn law_initialized_selector_knows_its_loop<V: Copy>(
    core: &mut SelectorCore<V>,
    platform: Platform,
    loop_fiber: V,
    needs: bool,
    later: &mut SelectorCore<V>,
    interrupt: Interrupt,
    known: Option<V>,
)
    requires
        call_ensures(SelectorCore::<V>::initialize, (core, &platform, loop_fiber), needs),
        *old(later) == *final(core),
        call_ensures(SelectorCore::<V>::attach_interrupt, (later, interrupt), ()),
        call_ensures(SelectorCore::<V>::loop_value, (&*final(core),), known),
    ensures
        known == Some(loop_fiber),
        final(core).loop_fiber == Some(loop_fiber),
        !final(core).closed,
        needs <==> platform.unix && old(core).interrupt is None,
        final(core).interrupt == old(core).interrupt,
        final(later).interrupt == Some(interrupt),
        final(later).loop_fiber == Some(loop_fiber),
        !final(later).closed,
        final(later).kind == old(core).kind,
        final(later).blocked == old(core).blocked,
        final(later).idle_duration == old(core).idle_duration,
        same_io(*old(core), *final(later)),
        same_processes(*old(core), *final(later)),
        same_ready(*old(core), *final(later)),
{
}

/// Tokens count up by one, and start over at 1 after the last.
pub proof fn law_tokens_count_up<V: Copy>(
    core: &mut SelectorCore<V>,
    token: usize,
    later: &mut SelectorCore<V>,
    next: usize,
)
    requires
        call_ensures(SelectorCore::<V>::next_token, (core,), token),
        *old(later) == *final(core),
        call_ensures(SelectorCore::<V>::next_token, (later,), next),
    ensures
        token == old(core).next_token,
        token < usize::MAX ==> next == token + 1,
        token == usize::MAX ==> next == 1,
        final(core).ready@ == old(core).ready@,
        same_io(*old(core), *final(core)),
        same_processes(*old(core), *final(core)),
        same_rest(*old(core), *final(core)),
{
}

/// A fiber that is pushed comes last in the ready queue, with the next token;
/// everybody before it stays in place.
pub proof fn law_pushed_fiber_comes_last<V: Copy>(
    core: &mut SelectorCore<V>,
    fiber: V,
    id: usize,
    ready: bool,
)
    requires
        call_ensures(SelectorCore::<V>::push_ready, (core, fiber), id),
        call_ensures(SelectorCore::<V>::ready_p, (&*final(core),), ready),
    ensures
        ready,
        id == old(core).next_token,
        final(core).next_token == if id == usize::MAX {
            1
        } else {
            id + 1
        },
        final(core).ready@.len() == old(core).ready@.len() + 1,
        final(core).ready@.last().fiber == fiber,
        final(core).ready@.last().id == id,
        forall|i: int|
            0 <= i < old(core).ready@.len() ==> #[trigger] final(core).ready@[i]
                == old(core).ready@[i],
        same_io(*old(core), *final(core)),
        same_processes(*old(core), *final(core)),
        same_rest(*old(core), *final(core)),
{
}

/// Somebody is ready if and only if the ready queue is not empty.
pub proof fn law_ready_means_somebody_is<V: Copy>(core: SelectorCore<V>, ready: bool)
    requires
        call_ensures(SelectorCore::<V>::ready_p, (&core,), ready),
    ensures
        ready <==> core.ready@.len() != 0,
{
}

/// Removing an entry takes the first one with this identifier out of the ready
/// queue, and nobody else; without such an entry nothing changes.
pub proof fn law_first_entry_is_removed<V: Copy>(core: &mut SelectorCore<V>, id: usize)
    requires
        call_ensures(SelectorCore::<V>::remove_ready, (core, id), ()),
    ensures
        first_taken(old(core).ready@, final(core).ready@, id),
        final(core).next_token == old(core).next_token,
        same_io(*old(core), *final(core)),
        same_processes(*old(core), *final(core)),
        same_rest(*old(core), *final(core)),
{
    lemma_first_taken(old(core).ready@, final(core).ready@, id);
}

/// `ids[i]` is the first to be `id`.
pub open spec fn is_first(ids: Seq<usize>, i: int, id: usize) -> bool {
    &&& 0 <= i < ids.len()
    &&& ids[i] == id
    &&& forall|j: int| 0 <= j < i ==> #[trigger] ids[j] != id
}

/// None of `ids` is `id`.
pub open spec fn is_nowhere(ids: Seq<usize>, id: usize) -> bool {
    forall|i: int| 0 <= i < ids.len() ==> #[trigger] ids[i] != id
}

/// The first entry with this identifier has left the queue, if there was one; the
/// others are still in their order.
pub open spec fn first_taken<V>(
    before: Seq<ReadyEntry<V>>,
    after: Seq<ReadyEntry<V>>,
    id: usize,
) -> bool {
    let ids = before.map_values(|entry: ReadyEntry<V>| entry.id);
    ||| is_nowhere(ids, id) && after == before
    ||| exists|i: int| #[trigger] is_first(ids, i, id) && after == before.remove(i)
}

pub proof fn lemma_first_taken<V>(
    before: Seq<ReadyEntry<V>>,
    after: Seq<ReadyEntry<V>>,
    id: usize,
)
    requires
        after == without_ready(before, id),
    ensures
        first_taken(before, after, id),
{
    let ids = before.map_values(|entry: ReadyEntry<V>| entry.id);
    assert(ids =~= ready_ids(before));
    lemma_first_index(ids, id);
    if let Some(i) = first_index(ids, id) {
        assert(is_first(ids, i, id));
    }
}

/// The waiter at `i` has left its queue and the last one has taken its place; its
/// mailbox has lost its sending end, and no other mailbox is touched.
pub open spec fn io_waiter_left<V>(
    before: SelectorCore<V>,
    after: SelectorCore<V>,
    i: int,
) -> bool {
    let key = before.io_waiters@[i].mailbox;
    &&& swapped_out(before.io_waiters@, after.io_waiters@, i)
    &&& sender_gone(before.io_results@, after.io_results@, key)
    &&& forall|other: usize|
        other != key ==> #[trigger] same_box(before.io_results@, after.io_results@, other)
}

/// The waiter at `i` has left its queue and the last one has taken its place; its
/// mailbox has lost its sending end, and no other mailbox is touched.
pub open spec fn process_waiter_left<V>(
    before: SelectorCore<V>,
    after: SelectorCore<V>,
    i: int,
) -> bool {
    let key = before.process_waiters@[i].mailbox;
    &&& swapped_out(before.process_waiters@, after.process_waiters@, i)
    &&& sender_gone(before.process_results@, after.process_results@, key)
    &&& forall|other: usize|
        other != key ==> #[trigger] same_box(
            before.process_results@,
            after.process_results@,
            other,
        )
}

/// The first waiter for I/O with this token has left, if there was one.
pub open spec fn first_io_waiter_taken<V>(
    before: SelectorCore<V>,
    after: SelectorCore<V>,
    token: usize,
) -> bool {
    let tokens = before.io_waiters@.map_values(|waiter: IoWaiter<V>| waiter.token);
    ||| is_nowhere(tokens, token) && same_io(before, after)
    ||| exists|i: int| #[trigger] is_first(tokens, i, token) && io_waiter_left(before, after, i)
}

/// The first waiter for a process with this token has left, if there was one.
pub open spec fn first_process_waiter_taken<V>(
    before: SelectorCore<V>,
    after: SelectorCore<V>,
    token: usize,
) -> bool {
    let tokens = before.process_waiters@.map_values(|waiter: ProcessWaiter<V>| waiter.token);
    ||| is_nowhere(tokens, token) && same_processes(before, after)
    ||| exists|i: int| #[trigger]
        is_first(tokens, i, token) && process_waiter_left(before, after, i)
}

pub proof fn lemma_io_waiter_taken<V>(
    before: SelectorCore<V>,
    after: SelectorCore<V>,
    token: usize,
)
    requires
        before.wf(),
        after.io_waiters@ == without_io_waiter(before.io_waiters@, token),
        after.io_results@ == io_results_without(before.io_waiters@, before.io_results@, token),
    ensures
        first_io_waiter_taken(before, after, token),
{
    let waiters = before.io_waiters@;
    let tokens = waiters.map_values(|waiter: IoWaiter<V>| waiter.token);
    assert(tokens =~= io_tokens(waiters));
    lemma_first_index(tokens, token);
    if let Some(i) = first_index(tokens, token) {
        assert(before.io_results@.contains_key(waiters[i].mailbox));
        assert(swapped_out(waiters, after.io_waiters@, i));
        assert(io_waiter_left(before, after, i));
        assert(is_first(tokens, i, token));
    }
}

pub proof fn lemma_process_waiter_taken<V>(
    before: SelectorCore<V>,
    after: SelectorCore<V>,
    token: usize,
)
    requires
        before.wf(),
        after.process_waiters@ == without_process_waiter(before.process_waiters@, token),
        after.process_results@ == process_results_without(
            before.process_waiters@,
            before.process_results@,
            token,
        ),
    ensures
        first_process_waiter_taken(before, after, token),
{
    let waiters = before.process_waiters@;
    let tokens = waiters.map_values(|waiter: ProcessWaiter<V>| waiter.token);
    assert(tokens =~= process_tokens(waiters));
    lemma_first_index(tokens, token);
    if let Some(i) = first_index(tokens, token) {
        assert(before.process_results@.contains_key(waiters[i].mailbox));
        assert(swapped_out(waiters, after.process_waiters@, i));
        assert(process_waiter_left(before, after, i));
        assert(is_first(tokens, i, token));
    }
}

/// Removing a waiter for I/O takes the first one with this token out of its queue,
/// and nobody else; without such a waiter nothing changes.
pub proof fn law_first_io_waiter_is_removed<V: Copy>(core: &mut SelectorCore<V>, token: usize)
    requires
        old(core).wf(),
        call_ensures(SelectorCore::<V>::remove_io_waiter, (core, token), ()),
    ensures
        first_io_waiter_taken(*old(core), *final(core), token),
        same_processes(*old(core), *final(core)),
        same_ready(*old(core), *final(core)),
        same_rest(*old(core), *final(core)),
{
    lemma_io_waiter_taken(*old(core), *final(core), token);
}

/// Removing a waiter for a process takes the first one with this token out of its
/// queue, and nobody else; without such a waiter nothing changes.
pub proof fn law_first_process_waiter_is_removed<V: Copy>(
    core: &mut SelectorCore<V>,
    token: usize,
)
    requires
        old(core).wf(),
        call_ensures(SelectorCore::<V>::remove_process_waiter, (core, token), ()),
    ensures
        first_process_waiter_taken(*old(core), *final(core), token),
        same_io(*old(core), *final(core)),
        same_ready(*old(core), *final(core)),
        same_rest(*old(core), *final(core)),
{
    lemma_process_waiter_taken(*old(core), *final(core), token);
}

/// A collection of garbage spares just what the selector holds: the loop fiber, the
/// fibers that are ready, the I/O objects and fibers of those that wait for I/O, and
/// the fibers of those that wait for a process, each in the order of its queue.
pub proof fn law_mark_lists_just_what_is_held<V: Copy>(core: SelectorCore<V>, roots: Vec<V>)
    requires
        core.wf(),
        call_ensures(SelectorCore::<V>::mark, (&core,), roots),
    ensures
        ({
            let first = if core.loop_fiber is Some {
                1int
            } else {
                0
            };
            let second = first + core.ready@.len();
            let third = second + 2 * core.io_waiters@.len();
            &&& roots@.len() == third + core.process_waiters@.len()
            &&& core.loop_fiber matches Some(fiber) ==> roots@[0] == fiber
            &&& forall|i: int|
                0 <= i < core.ready@.len() ==> roots@[first + i] == (#[trigger] core.ready@[i]).fiber
            &&& forall|i: int|
                0 <= i < core.io_waiters@.len() ==> {
                    &&& roots@[second + 2 * i] == (#[trigger] core.io_waiters@[i]).io
                    &&& roots@[second + 2 * i + 1] == core.io_waiters@[i].fiber
                }
            &&& forall|i: int|
                0 <= i < core.process_waiters@.len() ==> roots@[third + i] == (
                #[trigger] core.process_waiters@[i]).fiber
        }),
{
    lemma_ready_roots(core.ready@);
    lemma_io_roots(core.io_waiters@);
    assert forall|i: int| 0 <= i < core.process_waiters@.len() implies core.process_results@[(
    #[trigger] core.process_waiters@[i]).mailbox].value is None by {}
    lemma_process_roots(core.process_waiters@, core.process_results@);
}

proof fn lemma_ready_roots<V>(queue: Seq<ReadyEntry<V>>)
    ensures
        ready_roots(queue).len() == queue.len(),
        forall|i: int|
            0 <= i < queue.len() ==> ready_roots(queue)[i] == (#[trigger] queue[i]).fiber,
    decreases queue.len(),
{
    if queue.len() > 0 {
        lemma_ready_roots(queue.drop_last());
        assert forall|i: int| 0 <= i < queue.len() implies ready_roots(queue)[i] == (
        #[trigger] queue[i]).fiber by {
            if i < queue.len() - 1 {
                assert(queue.drop_last()[i] == queue[i]);
            }
        }
    }
}

proof fn lemma_io_roots<V>(waiters: Seq<IoWaiter<V>>)
    ensures
        io_roots(waiters).len() == 2 * waiters.len(),
        forall|i: int|
            0 <= i < waiters.len() ==> {
                &&& io_roots(waiters)[2 * i] == (#[trigger] waiters[i]).io
                &&& io_roots(waiters)[2 * i + 1] == waiters[i].fiber
            },
    decreases waiters.len(),
{
    if waiters.len() > 0 {
        lemma_io_roots(waiters.drop_last());
        assert forall|i: int| 0 <= i < waiters.len() implies {
            &&& io_roots(waiters)[2 * i] == (#[trigger] waiters[i]).io
            &&& io_roots(waiters)[2 * i + 1] == waiters[i].fiber
        } by {
            if i < waiters.len() - 1 {
                assert(waiters.drop_last()[i] == waiters[i]);
            }
        }
    }
}

proof fn lemma_process_roots<V>(
    waiters: Seq<ProcessWaiter<V>>,
    boxes: Map<usize, Slot<Option<V>>>,
)
    requires
        forall|i: int|
            0 <= i < waiters.len() ==> boxes[(#[trigger] waiters[i]).mailbox].value is None,
    ensures
        process_roots(waiters, boxes).len() == waiters.len(),
        forall|i: int|
            0 <= i < waiters.len() ==> process_roots(waiters, boxes)[i] == (
            #[trigger] waiters[i]).fiber,
    decreases waiters.len(),
{
    if waiters.len() > 0 {
        let front = waiters.drop_last();
        assert forall|i: int| 0 <= i < front.len() implies boxes[(
        #[trigger] front[i]).mailbox].value is None by {
            assert(front[i] == waiters[i]);
        }
        lemma_process_roots(front, boxes);
        assert(waiters[waiters.len() - 1] == waiters.last());
        assert forall|i: int| 0 <= i < waiters.len() implies process_roots(waiters, boxes)[i] == (
        #[trigger] waiters[i]).fiber by {
            if i < waiters.len() - 1 {
                assert(front[i] == waiters[i]);
            }
        }
    }
}

/// A closed selector has forgotten its loop fiber and everybody who was ready or
/// waited, and hands its interrupt out. The mailboxes of those that waited have lost
/// their sending ends; all others are as they were.
pub proof fn law_closed_selector_is_empty<V: Copy>(
    core: &mut SelectorCore<V>,
    interrupt: Option<Interrupt>,
)
    requires
        old(core).wf(),
        call_ensures(SelectorCore::<V>::close, (core,), interrupt),
    ensures
        interrupt == old(core).interrupt,
        final(core).interrupt is None,
        final(core).closed,
        final(core).loop_fiber is None,
        final(core).ready@.len() == 0,
        final(core).io_waiters@.len() == 0,
        final(core).process_waiters@.len() == 0,
        final(core).kind == old(core).kind,
        final(core).next_token == old(core).next_token,
        final(core).idle_duration == old(core).idle_duration,
        final(core).blocked == old(core).blocked,
        forall|i: int|
            0 <= i < old(core).io_waiters@.len() ==> sender_gone(
                old(core).io_results@,
                final(core).io_results@,
                (#[trigger] old(core).io_waiters@[i]).mailbox,
            ),
        forall|key: usize|
            (forall|i: int|
                0 <= i < old(core).io_waiters@.len() ==> (
                #[trigger] old(core).io_waiters@[i]).mailbox != key) ==> #[trigger] same_box(
                old(core).io_results@,
                final(core).io_results@,
                key,
            ),
        forall|i: int|
            0 <= i < old(core).process_waiters@.len() ==> sender_gone(
                old(core).process_results@,
                final(core).process_results@,
                (#[trigger] old(core).process_waiters@[i]).mailbox,
            ),
        forall|key: usize|
            (forall|i: int|
                0 <= i < old(core).process_waiters@.len() ==> (
                #[trigger] old(core).process_waiters@[i]).mailbox != key) ==> #[trigger] same_box(
                old(core).process_results@,
                final(core).process_results@,
                key,
            ),
{
    let waiters = old(core).io_waiters@;
    let keys = io_mailboxes(waiters);
    let boxes = old(core).io_results@;
    assert(forall|i: int| 0 <= i < waiters.len() ==> keys[i] == (#[trigger] waiters[i]).mailbox);
    assert forall|i: int| 0 <= i < keys.len() implies boxes.contains_key(#[trigger] keys[i])
        && boxes[keys[i]].sender by {
        assert(keys[i] == waiters[i].mailbox);
    }
    assert(keys.no_duplicates());
    lemma_senders_left(boxes, keys);
    assert forall|i: int| 0 <= i < waiters.len() implies sender_gone(
        boxes,
        final(core).io_results@,
        (#[trigger] waiters[i]).mailbox,
    ) by {
        assert(keys[i] == waiters[i].mailbox);
        assert(keys.contains(waiters[i].mailbox));
        let there = senders_left(boxes, keys).contains_key(waiters[i].mailbox);
    }
    assert forall|key: usize|
        (forall|i: int| 0 <= i < waiters.len() ==> (#[trigger] waiters[i]).mailbox
            != key) implies #[trigger] same_box(boxes, final(core).io_results@, key) by {
        if keys.contains(key) {
            let i = choose|i: int| 0 <= i < keys.len() && keys[i] == key;
            assert(waiters[i].mailbox == key);
        }
        let there = senders_left(boxes, keys).contains_key(key);
    }
    let workers = old(core).process_waiters@;
    let marks = process_mailboxes(workers);
    let slots = old(core).process_results@;
    assert(forall|i: int| 0 <= i < workers.len() ==> marks[i] == (#[trigger] workers[i]).mailbox);
    assert forall|i: int| 0 <= i < marks.len() implies slots.contains_key(#[trigger] marks[i])
        && slots[marks[i]].sender by {
        assert(marks[i] == workers[i].mailbox);
    }
    assert(marks.no_duplicates());
    lemma_senders_left(slots, marks);
    assert forall|i: int| 0 <= i < workers.len() implies sender_gone(
        slots,
        final(core).process_results@,
        (#[trigger] workers[i]).mailbox,
    ) by {
        assert(marks[i] == workers[i].mailbox);
        assert(marks.contains(workers[i].mailbox));
        let there = senders_left(slots, marks).contains_key(workers[i].mailbox);
    }
    assert forall|key: usize|
        (forall|i: int| 0 <= i < workers.len() ==> (#[trigger] workers[i]).mailbox
            != key) implies #[trigger] same_box(slots, final(core).process_results@, key) by {
        if marks.contains(key) {
            let i = choose|i: int| 0 <= i < marks.len() && marks[i] == key;
            assert(workers[i].mailbox == key);
        }
        let there = senders_left(slots, marks).contains_key(key);
    }
}

} // verus!
