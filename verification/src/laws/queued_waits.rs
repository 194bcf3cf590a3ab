//! Waits as they are queued and ended: what was asked for, and what is answered.

use vstd::prelude::*;

use crate::event::Descriptor;
use crate::io_wait::{io_descriptor, IoWait};
use crate::laws::frame::{
    receiver_gone, same_box, same_io, same_processes, same_ready, same_rest, sender_gone,
    swapped_out,
};
use crate::laws::queueing::{is_first, is_nowhere};
use crate::mailbox::Slot;
use crate::platform::Platform;
use crate::process::{ProcessScan, ProcessWait, ProcessWaitStart, StatusProbe};
use crate::selector::{
    first_index, io_tokens, lemma_first_index, process_tokens, IoWaiter, ProcessWaiter,
    SelectorCore,
};

verus! {

/// A descriptor is the number that the I/O object gives; on Unix it is the number
/// in 32 bits with the same lower half.
pub proof fn law_descriptor_is_the_number_given(platform: Platform, fileno: i64, fd: Descriptor)
    requires
        call_ensures(io_descriptor, (&platform, fileno), fd),
    ensures
        !platform.unix ==> fd == fileno,
        platform.unix ==> -0x8000_0000 <= fd < 0x8000_0000 && fd & 0xffff_ffff == fileno
            & 0xffff_ffff,
        -0x8000_0000 <= fileno < 0x8000_0000 ==> fd == fileno,
{
    assert(((fileno as i32) as i64) & 0xffff_ffff == fileno & 0xffff_ffff) by (bit_vector);
    assert(-0x8000_0000 <= fileno < 0x8000_0000 ==> (fileno as i32) as i64 == fileno)
        by (bit_vector);
}

/// The token that follows.
pub open spec fn counted_up(before: usize, after: usize) -> bool {
    after == if before == usize::MAX {
        1
    } else {
        before + 1
    }
}

/// A mailbox that was not in use has both ends and holds `value`; no other mailbox
/// is touched.
pub open spec fn box_opened<T>(
    before: Map<usize, Slot<T>>,
    after: Map<usize, Slot<T>>,
    key: usize,
    value: T,
) -> bool {
    &&& !before.contains_key(key)
    &&& after.contains_key(key)
    &&& after[key].receiver
    &&& after[key].sender
    &&& after[key].value == value
    &&& forall|other: usize| other != key ==> #[trigger] same_box(before, after, other)
}

/// The mailboxes once the call with the mailbox `own` has ended and the entry with
/// the mailbox `sent` has left its queue; no other mailbox is touched.
pub open spec fn boxes_left<T>(
    before: Map<usize, Slot<T>>,
    after: Map<usize, Slot<T>>,
    sent: usize,
    own: usize,
) -> bool {
    &&& if sent == own {
        !after.contains_key(own)
    } else {
        sender_gone(before, after, sent) && receiver_gone(before, after, own)
    }
    &&& forall|other: usize|
        other != sent && other != own ==> #[trigger] same_box(before, after, other)
}

/// A wait for I/O comes last in its queue, with the fiber, the I/O object, the
/// conditions and the descriptor that it was given, and with an empty mailbox of its
/// own. Everybody before it stays in place, and nothing else changes.
pub proof fn law_io_wait_is_queued_as_asked<V: Copy>(
    core: &mut SelectorCore<V>,
    fiber: V,
    io: V,
    events: i32,
    fd: Descriptor,
    wait: IoWait,
)
    requires
        old(core).wf(),
        call_ensures(IoWait::selector_io_wait::<V>, (core, fiber, io, events, fd), wait),
    ensures
        final(core).io_waiters@.len() == old(core).io_waiters@.len() + 1,
        ({
            let waiter = final(core).io_waiters@.last();
            &&& waiter.fiber == fiber
            &&& waiter.io == io
            &&& waiter.events == events
            &&& waiter.fd == fd
            &&& waiter.token == wait.token
            &&& waiter.mailbox == wait.mailbox
        }),
        forall|i: int|
            0 <= i < old(core).io_waiters@.len() ==> #[trigger] final(core).io_waiters@[i]
                == old(core).io_waiters@[i],
        wait.token == old(core).next_token,
        counted_up(old(core).next_token, final(core).next_token),
        box_opened(old(core).io_results@, final(core).io_results@, wait.mailbox, 0i32),
        final(core).ready@ == old(core).ready@,
        same_processes(*old(core), *final(core)),
        same_rest(*old(core), *final(core)),
{
}

/// A wait for I/O that ends answers with what is in its mailbox, or with nothing if
/// that is 0, or with the exception that was raised. Its entry leaves the queue if
/// it is still there, its mailbox loses its receiving end, and nothing else changes.
pub proof fn law_io_wait_answers_what_was_sent<V: Copy, E>(
    wait: IoWait,
    core: &mut SelectorCore<V>,
    transfer: Result<Option<V>, E>,
    answer: Result<Option<i32>, E>,
)
    requires
        old(core).wf(),
        old(core).io_results@.contains_key(wait.mailbox),
        old(core).io_results@[wait.mailbox].receiver,
        call_ensures(IoWait::finish::<V, E>, (wait, core, transfer), answer),
    ensures
        ({
            let sent = old(core).io_results@[wait.mailbox].value;
            &&& transfer matches Err(error) ==> answer == Err::<Option<i32>, E>(error)
            &&& transfer is Ok && sent == 0 ==> answer == Ok::<Option<i32>, E>(None)
            &&& transfer is Ok && sent != 0 ==> answer == Ok::<Option<i32>, E>(Some(sent))
        }),
        io_wait_left(*old(core), *final(core), wait.token, wait.mailbox),
        same_processes(*old(core), *final(core)),
        same_ready(*old(core), *final(core)),
        same_rest(*old(core), *final(core)),
{
    let before = *old(core);
    let after = *final(core);
    let waiters = before.io_waiters@;
    let tokens = waiters.map_values(|waiter: IoWaiter<V>| waiter.token);
    assert(tokens =~= io_tokens(waiters));
    lemma_first_index(tokens, wait.token);
    if let Some(i) = first_index(tokens, wait.token) {
        assert(before.io_results@.contains_key(waiters[i].mailbox));
        assert(swapped_out(waiters, after.io_waiters@, i));
        assert(boxes_left(
            before.io_results@,
            after.io_results@,
            waiters[i].mailbox,
            wait.mailbox,
        ));
        assert(is_first(tokens, i, wait.token));
    }
}

/// The first waiter for I/O with this token has left its queue, if there was one,
/// and the call with this mailbox has ended.
pub open spec fn io_wait_left<V>(
    before: SelectorCore<V>,
    after: SelectorCore<V>,
    token: usize,
    mailbox: usize,
) -> bool {
    let waiters = before.io_waiters@;
    let tokens = waiters.map_values(|waiter: IoWaiter<V>| waiter.token);
    ||| {
        &&& is_nowhere(tokens, token)
        &&& after.io_waiters@ == waiters
        &&& receiver_gone(before.io_results@, after.io_results@, mailbox)
        &&& forall|other: usize|
            other != mailbox ==> #[trigger] same_box(before.io_results@, after.io_results@, other)
    }
    ||| exists|i: int|
        {
            &&& #[trigger] is_first(tokens, i, token)
            &&& swapped_out(waiters, after.io_waiters@, i)
            &&& boxes_left(before.io_results@, after.io_results@, waiters[i].mailbox, mailbox)
        }
}

/// The first waiter for a process with this token has left its queue, if there was
/// one, and the call with this mailbox has ended.
pub open spec fn process_wait_left<V>(
    before: SelectorCore<V>,
    after: SelectorCore<V>,
    token: usize,
    mailbox: usize,
) -> bool {
    let waiters = before.process_waiters@;
    let tokens = waiters.map_values(|waiter: ProcessWaiter<V>| waiter.token);
    ||| {
        &&& is_nowhere(tokens, token)
        &&& after.process_waiters@ == waiters
        &&& receiver_gone(before.process_results@, after.process_results@, mailbox)
        &&& forall|other: usize|
            other != mailbox ==> #[trigger] same_box(
                before.process_results@,
                after.process_results@,
                other,
            )
    }
    ||| exists|i: int|
        {
            &&& #[trigger] is_first(tokens, i, token)
            &&& swapped_out(waiters, after.process_waiters@, i)
            &&& boxes_left(
                before.process_results@,
                after.process_results@,
                waiters[i].mailbox,
                mailbox,
            )
        }
}

/// A wait for a process whose status is known, or whose question raised an
/// exception, ends with it and queues nobody. Otherwise it comes last in its queue,
/// with the fiber, the process and the flags that it was given, and with an empty
/// mailbox of its own; a round that comes to it asks for just this process with just
/// these flags. Everybody before it stays in place, and nothing else changes.
pub proof fn law_process_wait_is_queued_as_asked<V: Copy, E>(
    core: &mut SelectorCore<V>,
    fiber: V,
    pid: i64,
    flags: i32,
    status: Result<Option<V>, E>,
    start: Result<ProcessWaitStart<V>, E>,
    scan: ProcessScan<V>,
    question: Option<(i64, i32)>,
)
    requires
        old(core).wf(),
        call_ensures(
            ProcessWait::selector_process_wait::<V, E>,
            (core, fiber, pid, flags, status),
            start,
        ),
        call_ensures(ProcessScan::<V>::question, (&scan, &*final(core)), question),
        scan.index == old(core).process_waiters@.len(),
    ensures
        status matches Err(error) ==> start == Err::<ProcessWaitStart<V>, E>(error),
        status matches Ok(Some(known)) ==> start == Ok::<ProcessWaitStart<V>, E>(
            ProcessWaitStart::Known(known),
        ),
        !(status matches Ok(None)) ==> *final(core) == *old(core),
        status matches Ok(None) ==> {
            &&& start matches Ok(ProcessWaitStart::Queued(wait)) && {
                let waiter = final(core).process_waiters@.last();
                &&& waiter.fiber == fiber
                &&& waiter.pid == pid
                &&& waiter.flags == flags
                &&& waiter.token == wait.token
                &&& waiter.mailbox == wait.mailbox
                &&& wait.token == old(core).next_token
                &&& box_opened(
                    old(core).process_results@,
                    final(core).process_results@,
                    wait.mailbox,
                    None,
                )
            }
            &&& question == Some((pid, flags))
            &&& final(core).process_waiters@.len() == old(core).process_waiters@.len() + 1
            &&& forall|i: int|
                0 <= i < old(core).process_waiters@.len() ==> #[trigger] final(core).process_waiters@[i]
                    == old(core).process_waiters@[i]
            &&& counted_up(old(core).next_token, final(core).next_token)
            &&& final(core).ready@ == old(core).ready@
        },
        same_io(*old(core), *final(core)),
        same_rest(*old(core), *final(core)),
{
}

/// A wait for a process that ends answers with the status in its mailbox, if there
/// is one, or with the exception that was raised. Its entry leaves the queue if it is
/// still there, its mailbox loses its receiving end, and nothing else changes.
pub proof fn law_process_wait_answers_what_was_sent<V: Copy, E>(
    wait: ProcessWait,
    core: &mut SelectorCore<V>,
    transfer: Result<Option<V>, E>,
    answer: Result<Option<V>, E>,
)
    requires
        old(core).wf(),
        old(core).process_results@.contains_key(wait.mailbox),
        old(core).process_results@[wait.mailbox].receiver,
        call_ensures(ProcessWait::finish::<V, E>, (wait, core, transfer), answer),
    ensures
        transfer matches Err(error) ==> answer == Err::<Option<V>, E>(error),
        transfer is Ok ==> answer == Ok::<Option<V>, E>(
            old(core).process_results@[wait.mailbox].value,
        ),
        process_wait_left(*old(core), *final(core), wait.token, wait.mailbox),
        same_io(*old(core), *final(core)),
        same_ready(*old(core), *final(core)),
        same_rest(*old(core), *final(core)),
{
    let before = *old(core);
    let after = *final(core);
    let waiters = before.process_waiters@;
    let tokens = waiters.map_values(|waiter: ProcessWaiter<V>| waiter.token);
    assert(tokens =~= process_tokens(waiters));
    lemma_first_index(tokens, wait.token);
    if let Some(i) = first_index(tokens, wait.token) {
        assert(before.process_results@.contains_key(waiters[i].mailbox));
        assert(swapped_out(waiters, after.process_waiters@, i));
        assert(boxes_left(
            before.process_results@,
            after.process_results@,
            waiters[i].mailbox,
            wait.mailbox,
        ));
        assert(is_first(tokens, i, wait.token));
    }
}

/// A round begins with the first waiter. Each question is for the process and the
/// flags of the waiter that the round has come to, until there is none. An answer
/// without a status leaves the waiter in the queue and goes on to the next; one with
/// a status is put into the mailbox of just this waiter, which leaves the queue, and
/// its fiber comes last among those to be woken. An exception changes nothing.
pub proof fn law_round_serves_whom_it_asks<V: Copy, E>(
    first: ProcessScan<V>,
    scan: &mut ProcessScan<V>,
    core: &mut SelectorCore<V>,
    question: Option<(i64, i32)>,
    status: Result<Option<V>, E>,
    outcome: Result<(), E>,
)
    requires
        old(core).wf(),
        call_ensures(ProcessScan::<V>::check_process_waiters, (), first),
        call_ensures(ProcessScan::<V>::question, (&*old(scan), &*old(core)), question),
        old(scan).index < old(core).process_waiters@.len(),
        call_ensures(ProcessScan::<V>::answered::<E>, (scan, core, status), outcome),
    ensures
        first.index == 0,
        first.ready@.len() == 0,
        ({
            let at = old(scan).index as int;
            let waiter = old(core).process_waiters@[at];
            let key = waiter.mailbox;
            &&& question == Some((waiter.pid, waiter.flags))
            &&& match status {
                Err(error) => {
                    &&& outcome == Err::<(), E>(error)
                    &&& *final(scan) == *old(scan)
                    &&& *final(core) == *old(core)
                },
                Ok(None) => {
                    &&& outcome is Ok
                    &&& final(scan).index == at + 1
                    &&& final(scan).ready@ == old(scan).ready@
                    &&& *final(core) == *old(core)
                },
                Ok(Some(value)) => {
                    let boxes = old(core).process_results@;
                    let after = final(core).process_results@;
                    &&& outcome is Ok
                    &&& final(scan).index == at
                    &&& final(scan).ready@ == old(scan).ready@.push(waiter.fiber)
                    &&& swapped_out(
                        old(core).process_waiters@,
                        final(core).process_waiters@,
                        at,
                    )
                    &&& after.contains_key(key) == boxes[key].receiver
                    &&& boxes[key].receiver ==> {
                        &&& after[key].receiver
                        &&& !after[key].sender
                        &&& after[key].value == Some(value)
                    }
                    &&& forall|other: usize|
                        other != key ==> #[trigger] same_box(boxes, after, other)
                },
            }
        }),
        same_io(*old(core), *final(core)),
        same_ready(*old(core), *final(core)),
        same_rest(*old(core), *final(core)),
{
    assert(old(core).process_results@.contains_key(
        old(core).process_waiters@[old(scan).index as int].mailbox,
    ));
}

/// A round that has come to the end of the queue asks nobody.
pub proof fn law_round_ends_with_the_queue<V: Copy>(
    scan: ProcessScan<V>,
    core: SelectorCore<V>,
    question: Option<(i64, i32)>,
)
    requires
        call_ensures(ProcessScan::<V>::question, (&scan, &core), question),
    ensures
        question is None <==> scan.index >= core.process_waiters@.len(),
{
}

/// A question for the status of a process is put for just this process, with its
/// flags and the flag that makes a wait return at once: to the class of statuses if
/// that can wait, else to the process module. What that brings is the answer.
pub proof fn law_status_is_asked_for_as_given<V: Copy, E>(
    pid: i64,
    flags: i32,
    flag: i32,
    by_class: bool,
    has_list: bool,
    status: Result<Option<V>, E>,
    start: StatusProbe<V, E>,
    flagged: StatusProbe<V, E>,
    classed: StatusProbe<V, E>,
    chosen: StatusProbe<V, E>,
    listed: StatusProbe<V, E>,
    end: StatusProbe<V, E>,
)
    requires
        call_ensures(StatusProbe::<V, E>::process_status_wait, (pid, flags), start),
        call_ensures(StatusProbe::<V, E>::flag_found, (start, Ok(flag)), flagged),
        call_ensures(StatusProbe::<V, E>::class_found, (flagged, Ok(())), classed),
        call_ensures(StatusProbe::<V, E>::class_answered, (classed, Ok(by_class)), chosen),
        !by_class ==> call_ensures(
            StatusProbe::<V, E>::module_waited,
            (chosen, Ok(has_list)),
            listed,
        ),
        by_class ==> call_ensures(StatusProbe::<V, E>::status_found, (chosen, status), end),
        !by_class && has_list ==> call_ensures(
            StatusProbe::<V, E>::status_found,
            (listed, status),
            end,
        ),
    ensures
        start == (StatusProbe::<V, E>::LookUpFlag { pid, flags }),
        flagged == (StatusProbe::<V, E>::LookUpClass { pid, wait_flags: flags | flag }),
        classed == (StatusProbe::<V, E>::AskClass { pid, wait_flags: flags | flag }),
        by_class ==> chosen == (StatusProbe::<V, E>::WaitByClass {
            pid,
            wait_flags: flags | flag,
        }),
        !by_class ==> chosen == (StatusProbe::<V, E>::WaitByModule {
            pid,
            wait_flags: flags | flag,
        }),
        !by_class && has_list ==> listed == StatusProbe::<V, E>::TakeLast,
        !by_class && !has_list ==> listed == StatusProbe::<V, E>::Done(Ok(None)),
        by_class || has_list ==> end == StatusProbe::<V, E>::Done(status),
{
}

/// An exception on the way to a status is the answer.
pub proof fn law_status_question_passes_exceptions_on<V: Copy, E>(
    before_flag: StatusProbe<V, E>,
    before_class: StatusProbe<V, E>,
    before_answer: StatusProbe<V, E>,
    before_list: StatusProbe<V, E>,
    error: E,
    after_flag: StatusProbe<V, E>,
    after_class: StatusProbe<V, E>,
    after_answer: StatusProbe<V, E>,
    after_list: StatusProbe<V, E>,
)
    requires
        before_flag is LookUpFlag,
        before_class is LookUpClass,
        before_answer is AskClass,
        before_list is WaitByModule,
        call_ensures(StatusProbe::<V, E>::flag_found, (before_flag, Err(error)), after_flag),
        call_ensures(StatusProbe::<V, E>::class_found, (before_class, Err(error)), after_class),
        call_ensures(
            StatusProbe::<V, E>::class_answered,
            (before_answer, Err(error)),
            after_answer,
        ),
        call_ensures(StatusProbe::<V, E>::module_waited, (before_list, Err(error)), after_list),
    ensures
        after_flag == StatusProbe::<V, E>::Done(Err(error)),
        after_class == StatusProbe::<V, E>::Done(Err(error)),
        after_answer == StatusProbe::<V, E>::Done(Err(error)),
        after_list == StatusProbe::<V, E>::Done(Err(error)),
{
}

} // verus!
