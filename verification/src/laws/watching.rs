//! Waiting for descriptors, one call at a time: what is asked, what is found, and how
//! the wait is cut short.

use vstd::prelude::*;

use crate::event::{Descriptor, PRIORITY, READABLE, WRITABLE};
use crate::failure::{ErrorKind, Failure};
use crate::interrupt::{selector_wakeup, Clearing, Interrupt, InterruptOpen};
use crate::laws::frame::{same_io, same_processes, same_ready};
use crate::nonblock::{nonblock_restored, restore_nonblock, SetNonblock};
use crate::platform::{Platform, UnixNumbers};
use crate::poll::{
    interest, interrupt_count, interrupt_requests, known_closed, nothing_watched,
    platform_sleep, readiness, ready_events, watched, with_interest, PollCall, PollEvents,
    PollRequest, PollStart,
};
use crate::selector::{IoWaiter, SelectorCore};

verus! {

/// A platform has just the Unix numbers that were handed in, and is a Unix system if
/// and only if there were any. A call is worth making again if and only if it failed
/// with one of the two retry codes.
pub proof fn law_platform_is_what_was_handed_in(
    unix: Option<UnixNumbers>,
    platform: Platform,
    errno: i32,
    again: bool,
)
    requires
        call_ensures(Platform::host, (unix,), platform),
        call_ensures(Platform::try_again, (&platform, errno), again),
    ensures
        platform.unix <==> unix is Some,
        unix matches Some(numbers) ==> {
            &&& platform.pollin == numbers.pollin
            &&& platform.pollpri == numbers.pollpri
            &&& platform.pollout == numbers.pollout
            &&& platform.pollerr == numbers.pollerr
            &&& platform.pollhup == numbers.pollhup
            &&& platform.nonblock == numbers.nonblock
        },
        platform.eagain == 11 || platform.eagain == 35,
        platform.ewouldblock == platform.eagain || platform.ewouldblock == 140,
        platform.einval == 22,
        platform.eintr == 4,
        again <==> errno == platform.eagain || errno == platform.ewouldblock,
{
}

/// An interrupt that is opened is the pipe that the system gave, with both its ends
/// non-blocking. It is not opened if the system refused the pipe, or if an end could
/// not be prepared, and then that is what is told.
pub proof fn law_interrupt_is_the_pipe_given(
    start: InterruptOpen,
    result: i32,
    input: i32,
    output: i32,
    piped: InterruptOpen,
    first: Result<i32, Failure>,
    half: InterruptOpen,
    second: Result<i32, Failure>,
    end: InterruptOpen,
)
    requires
        call_ensures(InterruptOpen::open, (), start),
        call_ensures(InterruptOpen::pipe_opened, (start, result, input, output), piped),
        result != -1 ==> call_ensures(InterruptOpen::input_prepared, (piped, first), half),
        result != -1 && first is Ok ==> call_ensures(
            InterruptOpen::output_prepared,
            (half, second),
            end,
        ),
    ensures
        start is OpenPipe,
        result == -1 ==> match piped {
            InterruptOpen::Done(Err(failure)) => failure.kind == ErrorKind::SystemCall
                && failure.message@ == "IO_Event_Interrupt_open:pipe"@,
            _ => false,
        },
        result != -1 ==> piped == (InterruptOpen::PrepareInput { input, output }),
        result != -1 ==> match first {
            Ok(_) => half == (InterruptOpen::PrepareOutput { input, output }),
            Err(failure) => half == InterruptOpen::Done(Err(failure)),
        },
        result != -1 && first is Ok ==> match second {
            Ok(_) => end == InterruptOpen::Done(Ok(Interrupt { input, output })),
            Err(failure) => end == InterruptOpen::Done(Err(failure)),
        },
{
}

/// A signal fails if and only if the system refused it for another reason than that
/// the pipe is full. An interrupt is read again as long as there was something to read;
/// it is clear when there is nothing more, and cannot be cleared if and only if the
/// system refused for another reason.
pub proof fn law_full_and_empty_are_no_failures(
    platform: Platform,
    result: isize,
    errno: i32,
    signalled: Result<(), Failure>,
    cleared: Clearing,
)
    requires
        call_ensures(Interrupt::signal, (&platform, result, errno), signalled),
        call_ensures(Interrupt::clear, (&platform, result, errno), cleared),
    ensures
        ({
            let refused = result == -1 && errno != platform.eagain && errno
                != platform.ewouldblock;
            &&& signalled is Ok <==> !refused
            &&& signalled matches Err(failure) ==> failure.kind == ErrorKind::SystemCall
                && failure.message@ == "IO_Event_Interrupt_signal:write"@
            &&& cleared is ReadAgain <==> result > 0
            &&& result <= 0 && !refused ==> match cleared {
                Clearing::Done(outcome) => outcome is Ok,
                Clearing::ReadAgain => false,
            }
            &&& refused ==> match cleared {
                Clearing::Done(Err(failure)) => failure.kind == ErrorKind::SystemCall
                    && failure.message@ == "IO_Event_Interrupt_clear:read"@,
                _ => false,
            }
        }),
{
}

/// A selector is woken through its interrupt, if and only if it is waiting and has one.
pub proof fn law_only_a_waiting_selector_is_woken<V: Copy>(
    core: SelectorCore<V>,
    target: Option<Interrupt>,
)
    requires
        call_ensures(selector_wakeup::<V>, (&core,), target),
    ensures
        core.blocked ==> target == core.interrupt,
        !core.blocked ==> target is None,
{
}

/// A descriptor that blocks is given just one flag more, which makes it non-blocking,
/// and keeps the others; one that does not is left alone. Either way the flags it had
/// are remembered, and are what it gets back. What the system refuses is told.
pub proof fn law_one_flag_is_changed(
    platform: Platform,
    start: SetNonblock,
    flags: i32,
    read: SetNonblock,
    result: i32,
    written: SetNonblock,
    back: Option<i32>,
    answer: i32,
    restored: Result<(), Failure>,
)
    requires
        call_ensures(SetNonblock::set_nonblock, (), start),
        call_ensures(SetNonblock::flags_read, (start, &platform, flags), read),
        read is SetFlags ==> call_ensures(SetNonblock::flags_written, (read, result), written),
        call_ensures(restore_nonblock, (&platform, flags), back),
        call_ensures(nonblock_restored, (answer,), restored),
    ensures
        start is GetFlags,
        flags == -1 ==> match read {
            SetNonblock::Done(Err(failure)) => failure.kind == ErrorKind::SystemCall
                && failure.message@ == "IO_Event_Selector_nonblock_set:F_GETFL"@,
            _ => false,
        },
        flags != -1 && flags & platform.nonblock != 0 ==> read == SetNonblock::Done(Ok(flags)),
        flags != -1 && flags & platform.nonblock == 0 ==> match read {
            SetNonblock::SetFlags { original, flags: changed } => {
                &&& original == flags
                &&& changed & platform.nonblock == platform.nonblock
                &&& changed & !platform.nonblock == flags & !platform.nonblock
            },
            _ => false,
        },
        read is SetFlags && result != -1 ==> written == SetNonblock::Done(Ok(flags)),
        read is SetFlags && result == -1 ==> match written {
            SetNonblock::Done(Err(failure)) => failure.kind == ErrorKind::SystemCall
                && failure.message@ == "IO_Event_Selector_nonblock_set:F_SETFL"@,
            _ => false,
        },
        flags & platform.nonblock == 0 ==> back == Some(flags),
        flags & platform.nonblock != 0 ==> back is None,
        restored is Ok <==> answer != -1,
        restored matches Err(failure) ==> failure.kind == ErrorKind::SystemCall
            && failure.message@ == "IO_Event_Selector_nonblock_restore:F_SETFL"@,
{
    let flag = platform.nonblock;
    assert((flags | flag) & flag == flag && (flags | flag) & !flag == flags & !flag)
        by (bit_vector);
}

/// A waiter with an open I/O object wants one of the poll conditions `mask` of this
/// descriptor. Where asking whether the object is closed raised an exception it counts
/// as open.
pub open spec fn wants<V>(
    platform: Platform,
    waiter: IoWaiter<V>,
    closed: Option<bool>,
    fd: Descriptor,
    mask: i16,
) -> bool {
    &&& closed != Some(true)
    &&& waiter.fd == fd
    &&& ((waiter.events & 1 != 0 && platform.pollin & mask != 0) || (waiter.events & 2 != 0
        && platform.pollpri & mask != 0) || (waiter.events & 4 != 0 && platform.pollout & mask
        != 0))
}

/// Some waiter wants one of the poll conditions `mask` of this descriptor.
pub open spec fn somebody_wants<V>(
    platform: Platform,
    waiters: Seq<IoWaiter<V>>,
    closed: Seq<Option<bool>>,
    fd: Descriptor,
    mask: i16,
) -> bool {
    exists|i: int|
        0 <= i < waiters.len() && wants(platform, #[trigger] waiters[i], closed[i], fd, mask)
}

/// Some waiter with an open I/O object waits for this descriptor.
pub open spec fn somebody_waits<V>(
    waiters: Seq<IoWaiter<V>>,
    closed: Seq<Option<bool>>,
    fd: Descriptor,
) -> bool {
    exists|i: int|
        0 <= i < waiters.len() && closed[i] != Some(true) && (#[trigger] waiters[i]).fd == fd
}

/// The system is asked first for the interrupt, if there is one, and then once for each
/// descriptor that a waiter with an open I/O object waits for, and for no other; of each
/// for just the conditions that its waiters want. It is asked for no longer than the
/// caller is prepared to wait, and for ever where that is not limited. It is not asked at
/// all if there is no such descriptor and no time.
pub proof fn law_wait_is_for_what_is_wanted<V: Copy>(
    core: &mut SelectorCore<V>,
    platform: Platform,
    closed: &Vec<Option<bool>>,
    timeout: Option<i32>,
    start: PollStart,
)
    requires
        closed@.len() == old(core).io_waiters@.len(),
        call_ensures(PollCall::platform_poll::<V>, (core, &platform, closed, timeout), start),
    ensures
        start is Skip <==> timeout == Some(0i32) && forall|fd: Descriptor|
            !#[trigger] somebody_waits(old(core).io_waiters@, closed@, fd),
        start is Skip ==> *final(core) == *old(core),
        start matches PollStart::Wait(call) ==> {
            let waiters = old(core).io_waiters@;
            let own = if old(core).interrupt is Some {
                1int
            } else {
                0
            };
            &&& own <= call.requests@.len()
            &&& old(core).interrupt matches Some(interrupt) ==> {
                &&& call.requests@[0].fd == interrupt.input
                &&& call.requests@[0].events == platform.pollin
                &&& call.interrupt_fd == Some(interrupt.input as Descriptor)
            }
            &&& old(core).interrupt is None ==> call.interrupt_fd is None
            &&& forall|i: int, j: int|
                own <= i < j < call.requests@.len() ==> (#[trigger] call.requests@[i]).fd != (
                #[trigger] call.requests@[j]).fd
            &&& forall|i: int|
                own <= i < call.requests@.len() ==> asked_right(
                    platform,
                    waiters,
                    closed@,
                    #[trigger] call.requests@[i],
                )
            &&& forall|fd: Descriptor| #[trigger]
                somebody_waits(waiters, closed@, fd) ==> exists|i: int|
                    own <= i < call.requests@.len() && (#[trigger] call.requests@[i]).fd == fd
            &&& timeout matches Some(milliseconds) ==> call.timeout == milliseconds
            &&& timeout is None ==> call.timeout == -1
            &&& final(core).blocked
            &&& same_io(*old(core), *final(core))
            &&& same_processes(*old(core), *final(core))
            &&& same_ready(*old(core), *final(core))
            &&& final(core).kind == old(core).kind
            &&& final(core).loop_fiber == old(core).loop_fiber
            &&& final(core).idle_duration == old(core).idle_duration
            &&& final(core).closed == old(core).closed
            &&& final(core).interrupt == old(core).interrupt
        },
{
    let waiters = old(core).io_waiters@;
    assert forall|fd: Descriptor| #[trigger]
        somebody_waits(waiters, closed@, fd) == watched(waiters, closed@, fd) by {
        lemma_watched(waiters, closed@, fd);
    }
    if start is Skip {
        assert forall|fd: Descriptor| !#[trigger] somebody_waits(waiters, closed@, fd) by {
            lemma_watched(waiters, closed@, fd);
            assert(nothing_watched(waiters, closed@));
            assert(!watched(waiters, closed@, fd));
        }
    }
    if let PollStart::Wait(call) = start {
        let prefix = interrupt_requests(*old(core), platform);
        let own = prefix.len() as int;
        let tail = call.requests@.skip(own);
        assert(forall|i: int| own <= i < call.requests@.len() ==> tail[i - own] == call.requests@[i]);
        if own > 0 {
            assert(call.requests@.take(own)[0] == call.requests@[0]);
        }
        assert forall|i: int| own <= i < call.requests@.len() implies asked_right(
            platform,
            waiters,
            closed@,
            #[trigger] call.requests@[i],
        ) by {
            assert(tail[i - own] == call.requests@[i]);
            lemma_watched(waiters, closed@, call.requests@[i].fd);
            lemma_interest(platform, waiters, closed@, call.requests@[i].fd);
        }
        assert forall|i: int, j: int| own <= i < j < call.requests@.len() implies (
        #[trigger] call.requests@[i]).fd != (#[trigger] call.requests@[j]).fd by {
            assert(tail[i - own].fd != tail[j - own].fd);
        }
        assert forall|fd: Descriptor| #[trigger]
            somebody_waits(waiters, closed@, fd) implies exists|i: int|
            own <= i < call.requests@.len() && (#[trigger] call.requests@[i]).fd == fd by {
            lemma_watched(waiters, closed@, fd);
            let i = choose|i: int| 0 <= i < tail.len() && (#[trigger] tail[i]).fd == fd;
            assert(call.requests@[own + i].fd == fd);
        }
        if timeout == Some(0i32) {
            let fd = choose|fd: Descriptor| watched(waiters, closed@, fd);
            lemma_watched(waiters, closed@, fd);
            assert(somebody_waits(waiters, closed@, fd));
        }
    }
}

/// A request is for a descriptor that is waited for, and for just the conditions wanted.
pub open spec fn asked_right<V>(
    platform: Platform,
    waiters: Seq<IoWaiter<V>>,
    closed: Seq<Option<bool>>,
    request: PollRequest,
) -> bool {
    &&& somebody_waits(waiters, closed, request.fd)
    &&& forall|mask: i16| #![trigger request.events & mask]
        request.events & mask != 0 <==> somebody_wants(
            platform,
            waiters,
            closed,
            request.fd,
            mask,
        )
}

proof fn lemma_watched<V>(waiters: Seq<IoWaiter<V>>, closed: Seq<Option<bool>>, fd: Descriptor)
    ensures
        watched(waiters, closed, fd) == somebody_waits(waiters, closed, fd),
{
    if watched(waiters, closed, fd) {
        let i = choose|i: int|
            0 <= i < waiters.len() && !known_closed(closed[i]) && (
            #[trigger] waiters[i]).fd == fd;
        assert(waiters[i].fd == fd && closed[i] != Some(true));
    }
    if somebody_waits(waiters, closed, fd) {
        let i = choose|i: int|
            0 <= i < waiters.len() && closed[i] != Some(true) && (#[trigger] waiters[i]).fd == fd;
        assert(waiters[i].fd == fd && !known_closed(closed[i]));
    }
}

proof fn lemma_interest<V>(
    platform: Platform,
    waiters: Seq<IoWaiter<V>>,
    closed: Seq<Option<bool>>,
    fd: Descriptor,
)
    requires
        closed.len() == waiters.len(),
    ensures
        ({
            let events = interest(platform, waiters, closed, fd);
            forall|mask: i16| #![trigger events & mask]
                events & mask != 0 <==> somebody_wants(platform, waiters, closed, fd, mask)
        }),
    decreases waiters.len(),
{
    let events = interest(platform, waiters, closed, fd);
    if waiters.len() == 0 {
        assert forall|mask: i16| #![trigger events & mask] events & mask == 0 by {
            assert(0i16 & mask == 0) by (bit_vector);
        }
    } else {
        let front = waiters.drop_last();
        let shut = closed.drop_last();
        let last = waiters.len() - 1;
        lemma_interest(platform, front, shut, fd);
        let earlier = interest(platform, front, shut, fd);
        let wanted = waiters.last().events;
        assert forall|mask: i16| #![trigger events & mask]
            events & mask != 0 <==> somebody_wants(platform, waiters, closed, fd, mask) by {
            assert(earlier & mask != 0 <==> somebody_wants(platform, front, shut, fd, mask));
            lemma_with_interest(platform, earlier, wanted, mask);
            assert(waiters[last] == waiters.last() && closed[last] == closed.last());
            if somebody_wants(platform, front, shut, fd, mask) {
                let i = choose|i: int|
                    0 <= i < front.len() && wants(
                        platform,
                        #[trigger] front[i],
                        shut[i],
                        fd,
                        mask,
                    );
                assert(waiters[i] == front[i] && closed[i] == shut[i]);
            }
            if somebody_wants(platform, waiters, closed, fd, mask) {
                let i = choose|i: int|
                    0 <= i < waiters.len() && wants(
                        platform,
                        #[trigger] waiters[i],
                        closed[i],
                        fd,
                        mask,
                    );
                if i < last {
                    assert(front[i] == waiters[i] && shut[i] == closed[i]);
                }
            }
        }
    }
}

proof fn lemma_with_interest(platform: Platform, conditions: i16, events: i32, mask: i16)
    ensures
        with_interest(platform, conditions, events) & mask != 0 <==> conditions & mask != 0 || (
        events & READABLE != 0 && platform.pollin & mask != 0) || (events & PRIORITY != 0
            && platform.pollpri & mask != 0) || (events & WRITABLE != 0 && platform.pollout & mask
            != 0),
{
    let first = if events & READABLE != 0 {
        conditions | platform.pollin
    } else {
        conditions
    };
    let second = if events & PRIORITY != 0 {
        first | platform.pollpri
    } else {
        first
    };
    lemma_or(conditions, platform.pollin, mask);
    lemma_or(first, platform.pollpri, mask);
    lemma_or(second, platform.pollout, mask);
}

proof fn lemma_or(a: i16, b: i16, mask: i16)
    ensures
        (a | b) & mask != 0 <==> a & mask != 0 || b & mask != 0,
{
    assert((a | b) & mask != 0 <==> a & mask != 0 || b & mask != 0) by (bit_vector);
}

/// What a report says: 1 for data, a hang-up or an error, 2 for priority data, 4 for
/// room to write.
pub open spec fn said(platform: Platform, revents: i16) -> int {
    (if revents & (platform.pollin | platform.pollhup | platform.pollerr) != 0 {
        1int
    } else {
        0
    }) + (if revents & platform.pollpri != 0 {
        2int
    } else {
        0
    }) + (if revents & platform.pollout != 0 {
        4int
    } else {
        0
    })
}

/// What is reported of each descriptor that was asked for.
pub open spec fn reports(
    platform: Platform,
    requests: Seq<PollRequest>,
    revents: Seq<i16>,
) -> Seq<(Descriptor, i16)> {
    Seq::new(requests.len(), |i: int| (requests[i].fd, revents[i]))
}

/// When a wait is over the selector no longer counts as waiting. A wait fails if and only
/// if the system refused it for another reason than a signal. Otherwise its events are, in
/// the order of the requests, the descriptors of which something was reported, but for the
/// interrupt, each with just what was; and the interrupt is to be cleared as often as
/// something was reported of it. A wait that a signal cut short brings nothing.
pub proof fn law_wait_brings_what_was_reported<V: Copy>(
    call: PollCall,
    core: &mut SelectorCore<V>,
    platform: Platform,
    result: i32,
    errno: i32,
    revents: &Vec<i16>,
    outcome: Result<PollEvents, Failure>,
)
    requires
        revents@.len() == call.requests@.len(),
        call_ensures(
            PollCall::finish::<V>,
            (call, core, &platform, result, errno, revents),
            outcome,
        ),
    ensures
        !final(core).blocked,
        same_io(*old(core), *final(core)),
        same_processes(*old(core), *final(core)),
        same_ready(*old(core), *final(core)),
        final(core).kind == old(core).kind,
        final(core).loop_fiber == old(core).loop_fiber,
        final(core).idle_duration == old(core).idle_duration,
        final(core).closed == old(core).closed,
        final(core).interrupt == old(core).interrupt,
        outcome is Err <==> result == -1 && errno != platform.eintr,
        outcome matches Err(failure) ==> failure.kind == ErrorKind::SystemCall && failure.message@
            == "IO_Event_Selector_poll"@,
        outcome matches Ok(found) ==> {
            let all = reports(platform, call.requests@, revents@);
            let own = match call.interrupt_fd {
                Some(fd) => fd,
                None => -1i64,
            };
            &&& result == -1 ==> found.events@.len() == 0 && found.clears == 0
            &&& result != -1 ==> {
                &&& found.events@ == all.filter(
                    |report: (Descriptor, i16)|
                        report.0 != own && said(platform, report.1) != 0,
                ).map_values(
                    |report: (Descriptor, i16)| (report.0, said(platform, report.1) as i32),
                )
                &&& found.clears == all.filter(
                    |report: (Descriptor, i16)| report.0 == own && report.1 != 0,
                ).len()
            }
        },
{
    if outcome is Ok && result != -1 {
        let own = match call.interrupt_fd {
            Some(fd) => fd,
            None => -1i64,
        };
        lemma_reports(platform, call.requests@, revents@, own);
    }
}

proof fn lemma_reports(
    platform: Platform,
    requests: Seq<PollRequest>,
    revents: Seq<i16>,
    own: Descriptor,
)
    requires
        revents.len() == requests.len(),
    ensures
        ready_events(platform, requests, revents, own) == reports(
            platform,
            requests,
            revents,
        ).filter(
            |report: (Descriptor, i16)| report.0 != own && said(platform, report.1) != 0,
        ).map_values(|report: (Descriptor, i16)| (report.0, said(platform, report.1) as i32)),
        interrupt_count(requests, revents, own) == reports(platform, requests, revents).filter(
            |report: (Descriptor, i16)| report.0 == own && report.1 != 0,
        ).len(),
    decreases requests.len(),
{
    reveal(Seq::filter);
    let all = reports(platform, requests, revents);
    let ready = |report: (Descriptor, i16)| report.0 != own && said(platform, report.1) != 0;
    let event = |report: (Descriptor, i16)| (report.0, said(platform, report.1) as i32);
    if requests.len() > 0 {
        let front = requests.drop_last();
        let earlier = revents.drop_last();
        lemma_reports(platform, front, earlier, own);
        assert(all.drop_last() =~= reports(platform, front, earlier));
        assert(all.last() == (requests.last().fd, revents.last()));
        let found = reports(platform, front, earlier).filter(ready);
        assert(found.push(all.last()).map_values(event) =~= found.map_values(event).push(
            event(all.last()),
        ));
        let reported = revents.last();
        let bits = platform.pollin | platform.pollhup | platform.pollerr;
        let pri = platform.pollpri;
        let out = platform.pollout;
        assert(reported == 0 ==> reported & bits == 0 && reported & pri == 0 && reported & out
            == 0) by (bit_vector);
        assert(readiness(platform, reported) == said(platform, reported));
    } else {
        assert(all =~= Seq::empty());
        assert(ready_events(platform, requests, revents, own) =~= all.filter(ready).map_values(
            event,
        ));
    }
}

/// Where descriptors cannot be waited for, a turn sleeps for just the time that the caller
/// is prepared to wait, if that is limited and not over, and does not count as waiting.
pub proof fn law_time_passes_instead<V: Copy>(
    core: &mut SelectorCore<V>,
    timeout: Option<i32>,
    sleep: Option<u64>,
)
    requires
        call_ensures(platform_sleep::<V>, (core, timeout), sleep),
    ensures
        match timeout {
            Some(milliseconds) => if milliseconds > 0 {
                sleep == Some(milliseconds as u64)
            } else {
                sleep is None
            },
            None => sleep is None,
        },
        !final(core).blocked,
        same_io(*old(core), *final(core)),
        same_processes(*old(core), *final(core)),
        same_ready(*old(core), *final(core)),
        final(core).interrupt == old(core).interrupt,
        final(core).loop_fiber == old(core).loop_fiber,
        final(core).idle_duration == old(core).idle_duration,
        final(core).closed == old(core).closed,
        final(core).kind == old(core).kind,
{
}

} // verus!
