//! From what the waiters want to what the system reports, and back.

use vstd::prelude::*;

use crate::dispatch::met;
use crate::event::{Descriptor, PRIORITY, READABLE, WRITABLE};
use crate::interrupt::wakeup_target;
use crate::laws::waiting::{law_woken_iff_some_event_concerns, some_event_concerns};
use crate::platform::Platform;
use crate::poll::{
    interest, interrupt_requests, known_closed, readiness, ready_events, with_interest, PollRequest,
};
use crate::selector::{IoWaiter, SelectorCore};

verus! {

/// Some waiter with an open I/O object waits for this descriptor, and for one of
/// `conditions`.
pub open spec fn wanted<V>(
    waiters: Seq<IoWaiter<V>>,
    closed: Seq<Option<bool>>,
    fd: Descriptor,
    conditions: i32,
) -> bool {
    exists|i: int|
        0 <= i < waiters.len() && !known_closed(closed[i]) && (#[trigger] waiters[i]).fd == fd
            && waiters[i].events & conditions != 0
}

proof fn lemma_wanted_push<V>(
    waiters: Seq<IoWaiter<V>>,
    closed: Seq<Option<bool>>,
    fd: Descriptor,
    conditions: i32,
)
    requires
        waiters.len() > 0,
        closed.len() == waiters.len(),
    ensures
        wanted(waiters, closed, fd, conditions) == (wanted(
            waiters.drop_last(),
            closed.drop_last(),
            fd,
            conditions,
        ) || (!known_closed(closed.last()) && waiters.last().fd == fd && waiters.last().events
            & conditions != 0)),
{
    let front = waiters.drop_last();
    let shut = closed.drop_last();
    let last = waiters.len() - 1;
    if wanted(front, shut, fd, conditions) {
        let i = choose|i: int|
            0 <= i < front.len() && !known_closed(shut[i]) && (#[trigger] front[i]).fd == fd
                && front[i].events & conditions != 0;
        assert(waiters[i] == front[i] && closed[i] == shut[i]);
    }
    if wanted(waiters, closed, fd, conditions) {
        let i = choose|i: int|
            0 <= i < waiters.len() && !known_closed(closed[i]) && (#[trigger] waiters[i]).fd == fd
                && waiters[i].events & conditions != 0;
        if i < last {
            assert(front[i] == waiters[i] && shut[i] == closed[i]);
        }
    }
    assert(waiters[last] == waiters.last());
}

/// The system is asked to report a condition of a descriptor if and only if some
/// waiter with an open I/O object waits for it there.
pub proof fn law_asks_for_what_is_wanted<V>(
    platform: Platform,
    waiters: Seq<IoWaiter<V>>,
    closed: Seq<Option<bool>>,
    fd: Descriptor,
)
    requires
        platform.bits_apart(),
        closed.len() == waiters.len(),
    ensures
        interest(platform, waiters, closed, fd) & platform.pollin != 0 <==> wanted(
            waiters,
            closed,
            fd,
            READABLE,
        ),
        interest(platform, waiters, closed, fd) & platform.pollpri != 0 <==> wanted(
            waiters,
            closed,
            fd,
            PRIORITY,
        ),
        interest(platform, waiters, closed, fd) & platform.pollout != 0 <==> wanted(
            waiters,
            closed,
            fd,
            WRITABLE,
        ),
    decreases waiters.len(),
{
    if waiters.len() == 0 {
        let (a, b, c) = (platform.pollin, platform.pollpri, platform.pollout);
        assert(0i16 & a == 0 && 0i16 & b == 0 && 0i16 & c == 0) by (bit_vector);
    } else {
        let front = waiters.drop_last();
        let shut = closed.drop_last();
        law_asks_for_what_is_wanted(platform, front, shut, fd);
        lemma_wanted_push(waiters, closed, fd, READABLE);
        lemma_wanted_push(waiters, closed, fd, PRIORITY);
        lemma_wanted_push(waiters, closed, fd, WRITABLE);
        lemma_with_interest(
            platform,
            interest(platform, front, shut, fd),
            waiters.last().events,
        );
    }
}

proof fn lemma_with_interest(platform: Platform, conditions: i16, events: i32)
    requires
        platform.bits_apart(),
    ensures
        with_interest(platform, conditions, events) & platform.pollin != 0 <==> conditions
            & platform.pollin != 0 || events & READABLE != 0,
        with_interest(platform, conditions, events) & platform.pollpri != 0 <==> conditions
            & platform.pollpri != 0 || events & PRIORITY != 0,
        with_interest(platform, conditions, events) & platform.pollout != 0 <==> conditions
            & platform.pollout != 0 || events & WRITABLE != 0,
{
    let first = if events & READABLE != 0 {
        conditions | platform.pollin
    } else {
        conditions
    };
    let second = if events & PRIORITY != 0 {
        first | platform.pollpri
    } else {
        first
    };
    lemma_add_bit(conditions, platform.pollin, platform.pollpri, platform.pollout);
    lemma_add_bit(first, platform.pollpri, platform.pollin, platform.pollout);
    lemma_add_bit(second, platform.pollout, platform.pollin, platform.pollpri);
}

/// Adding a bit adds that bit and leaves others alone.
proof fn lemma_add_bit(c: i16, bit: i16, one: i16, two: i16)
    requires
        bit != 0,
        bit & one == 0 || one & bit == 0,
        bit & two == 0 || two & bit == 0,
    ensures
        (c | bit) & bit != 0,
        (c | bit) & one == c & one,
        (c | bit) & two == c & two,
{
    assert({
        &&& (c | bit) & bit != 0
        &&& (c | bit) & one == c & one
        &&& (c | bit) & two == c & two
    }) by (bit_vector)
        requires
            bit != 0,
            bit & one == 0 || one & bit == 0,
            bit & two == 0 || two & bit == 0,
    ;
}

/// A descriptor counts as readable if and only if the system reports data, a
/// hang-up or an error; as having priority data, or as writable, if and only if
/// the system says so.
pub proof fn law_readiness_is_what_was_reported(platform: Platform, revents: i16)
    ensures
        readiness(platform, revents) & READABLE != 0 <==> revents & (platform.pollin
            | platform.pollhup | platform.pollerr) != 0,
        readiness(platform, revents) & PRIORITY != 0 <==> revents & platform.pollpri != 0,
        readiness(platform, revents) & WRITABLE != 0 <==> revents & platform.pollout != 0,
{
    assert({
        &&& 0i32 & 1 == 0 && 0i32 & 2 == 0 && 0i32 & 4 == 0
        &&& 1i32 & 1 != 0 && 1i32 & 2 == 0 && 1i32 & 4 == 0
        &&& 2i32 & 1 == 0 && 2i32 & 2 != 0 && 2i32 & 4 == 0
        &&& 3i32 & 1 != 0 && 3i32 & 2 != 0 && 3i32 & 4 == 0
        &&& 4i32 & 1 == 0 && 4i32 & 2 == 0 && 4i32 & 4 != 0
        &&& 5i32 & 1 != 0 && 5i32 & 2 == 0 && 5i32 & 4 != 0
        &&& 6i32 & 1 == 0 && 6i32 & 2 != 0 && 6i32 & 4 != 0
        &&& 7i32 & 1 != 0 && 7i32 & 2 != 0 && 7i32 & 4 != 0
    }) by (bit_vector);
}

/// The events that a wait brings are about descriptors that were asked for,
/// never about the interrupt, and say what the system reported there.
pub proof fn law_events_are_what_was_reported(
    platform: Platform,
    requests: Seq<PollRequest>,
    revents: Seq<i16>,
    interrupt_fd: Descriptor,
)
    requires
        revents.len() == requests.len(),
    ensures
        forall|k: int|
            0 <= k < ready_events(platform, requests, revents, interrupt_fd).len() ==> {
                let event = #[trigger] ready_events(platform, requests, revents, interrupt_fd)[k];
                &&& event.0 != interrupt_fd
                &&& event.1 != 0
                &&& exists|i: int|
                    0 <= i < requests.len() && (#[trigger] requests[i]).fd == event.0
                        && readiness(platform, revents[i]) == event.1
            },
        forall|i: int|
            0 <= i < requests.len() && (#[trigger] requests[i]).fd != interrupt_fd && revents[i]
                != 0 && readiness(platform, revents[i]) != 0 ==> ready_events(
                platform,
                requests,
                revents,
                interrupt_fd,
            ).contains((requests[i].fd, readiness(platform, revents[i]))),
    decreases requests.len(),
{
    if requests.len() > 0 {
        let front = requests.drop_last();
        let earlier = revents.drop_last();
        law_events_are_what_was_reported(platform, front, earlier, interrupt_fd);
        let rest = ready_events(platform, front, earlier, interrupt_fd);
        let all = ready_events(platform, requests, revents, interrupt_fd);
        let last = requests.len() - 1;
        assert(requests[last] == requests.last());
        assert forall|k: int| 0 <= k < all.len() implies {
            let event = #[trigger] all[k];
            &&& event.0 != interrupt_fd
            &&& event.1 != 0
            &&& exists|i: int|
                0 <= i < requests.len() && (#[trigger] requests[i]).fd == event.0 && readiness(
                    platform,
                    revents[i],
                ) == event.1
        } by {
            let event = all[k];
            if k < rest.len() {
                assert(rest[k] == event);
                let i = choose|i: int|
                    0 <= i < front.len() && (#[trigger] front[i]).fd == event.0 && readiness(
                        platform,
                        earlier[i],
                    ) == event.1;
                assert(requests[i].fd == event.0 && revents[i] == earlier[i]);
            } else {
                assert(requests[last].fd == event.0);
            }
        }
        assert forall|i: int|
            0 <= i < requests.len() && (#[trigger] requests[i]).fd != interrupt_fd && revents[i]
                != 0 && readiness(platform, revents[i]) != 0 implies all.contains(
            (requests[i].fd, readiness(platform, revents[i])),
        ) by {
            let event = (requests[i].fd, readiness(platform, revents[i]));
            if i < last {
                assert(front[i] == requests[i] && earlier[i] == revents[i]);
                let k = choose|k: int| 0 <= k < rest.len() && rest[k] == event;
                assert(all[k] == event);
            } else {
                assert(all[rest.len() as int] == event);
            }
        }
    }
}

/// A report of a descriptor says something that was waited for.
pub open spec fn report_answers(platform: Platform, revents: i16, events: i32) -> bool {
    ||| events & READABLE != 0 && revents & (platform.pollin | platform.pollhup
        | platform.pollerr) != 0
    ||| events & PRIORITY != 0 && revents & platform.pollpri != 0
    ||| events & WRITABLE != 0 && revents & platform.pollout != 0
}

/// A waiter is woken by what the system reports of its descriptor: if it waits
/// to read, by data, a hang-up or an error; if it waits for priority data or to
/// write, by just that.
pub proof fn law_report_wakes_the_waiter<V>(
    platform: Platform,
    requests: Seq<PollRequest>,
    revents: Seq<i16>,
    interrupt_fd: Descriptor,
    waiter: IoWaiter<V>,
    i: int,
)
    requires
        revents.len() == requests.len(),
        0 <= i < requests.len(),
        requests[i].fd == waiter.fd,
        waiter.fd != interrupt_fd,
        report_answers(platform, revents[i], waiter.events),
    ensures
        met(waiter, ready_events(platform, requests, revents, interrupt_fd)) != 0,
{
    let events = ready_events(platform, requests, revents, interrupt_fd);
    let ready = readiness(platform, revents[i]);
    let reported = revents[i];
    let wanted = waiter.events;
    law_readiness_is_what_was_reported(platform, reported);
    law_events_are_what_was_reported(platform, requests, revents, interrupt_fd);
    let bits = platform.pollin | platform.pollhup | platform.pollerr;
    let pri = platform.pollpri;
    let out = platform.pollout;
    assert(reported & bits != 0 || reported & pri != 0 || reported & out != 0 ==> reported != 0)
        by (bit_vector);
    assert((ready & 1 != 0 && wanted & 1 != 0) || (ready & 2 != 0 && wanted & 2 != 0) || (ready
        & 4 != 0 && wanted & 4 != 0) ==> ready & wanted != 0 && ready != 0) by (bit_vector);
    let k = choose|k: int| 0 <= k < events.len() && events[k] == (waiter.fd, ready);
    assert(events[k].0 == waiter.fd && events[k].1 & waiter.events != 0);
    assert(some_event_concerns(waiter, events));
    law_woken_iff_some_event_concerns(waiter, events);
}

/// A selector is woken through its interrupt while it waits, and at no other
/// time; and the interrupt that is signalled is one that the wait asks about.
pub proof fn law_wakeup_reaches_the_wait<V>(
    before: SelectorCore<V>,
    waiting: SelectorCore<V>,
    after: SelectorCore<V>,
    platform: Platform,
)
    requires
        !before.blocked,
        waiting == (SelectorCore { blocked: true, ..before }),
        after == (SelectorCore { blocked: false, ..waiting }),
    ensures
        wakeup_target(before) is None,
        wakeup_target(after) is None,
        interrupt_requests(before, platform) == (match wakeup_target(waiting) {
            Some(interrupt) => seq![
                PollRequest { fd: interrupt.input as Descriptor, events: platform.pollin },
            ],
            None => Seq::<PollRequest>::empty(),
        }),
{
}

} // verus!
