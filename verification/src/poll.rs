//! Waiting for descriptors.

use std::collections::HashMap;

use vstd::prelude::*;

use crate::event::{Descriptor, PRIORITY, READABLE, WRITABLE};
use crate::failure::{ErrorKind, Failure};
use crate::platform::Platform;
use crate::selector::{IoWaiter, SelectorCore};

verus! {

/// A descriptor to wait for, and the poll conditions that end the wait.
#[derive(Clone, Copy, Debug, PartialEq, Eq, Structural)]
pub struct PollRequest {
    pub fd: Descriptor,
    pub events: i16,
}

/// Poll conditions, with those added that stand for the readiness conditions
/// `events`.
pub open spec fn with_interest(platform: Platform, conditions: i16, events: i32) -> i16 {
    let conditions = if events & READABLE != 0 {
        conditions | platform.pollin
    } else {
        conditions
    };
    let conditions = if events & PRIORITY != 0 {
        conditions | platform.pollpri
    } else {
        conditions
    };
    if events & WRITABLE != 0 {
        conditions | platform.pollout
    } else {
        conditions
    }
}

/// Whether a waiter's I/O object is known to be closed. Where asking raised an
/// exception it is not.
pub open spec fn known_closed(closed: Option<bool>) -> bool {
    closed == Some(true)
}

/// Some waiter with an open I/O object waits for this descriptor.
pub open spec fn watched<V>(
    waiters: Seq<IoWaiter<V>>,
    closed: Seq<Option<bool>>,
    fd: Descriptor,
) -> bool {
    exists|i: int|
        0 <= i < waiters.len() && !known_closed(closed[i]) && (#[trigger] waiters[i]).fd == fd
}

/// No waiter with an open I/O object waits for any descriptor.
pub open spec fn nothing_watched<V>(waiters: Seq<IoWaiter<V>>, closed: Seq<Option<bool>>) -> bool {
    forall|fd: Descriptor| !#[trigger] watched(waiters, closed, fd)
}

/// The poll conditions that the waiters with open I/O objects ask for of one
/// descriptor.
pub open spec fn interest<V>(
    platform: Platform,
    waiters: Seq<IoWaiter<V>>,
    closed: Seq<Option<bool>>,
    fd: Descriptor,
) -> i16
    decreases waiters.len(),
{
    if waiters.len() == 0 {
        0
    } else {
        let rest = interest(platform, waiters.drop_last(), closed.drop_last(), fd);
        if !known_closed(closed.last()) && waiters.last().fd == fd {
            with_interest(platform, rest, waiters.last().events)
        } else {
            rest
        }
    }
}

/// The requests ask once for each descriptor that a waiter with an open I/O
/// object waits for, and for no other; and of each for what its waiters want.
pub open spec fn covers<V>(
    requests: Seq<PollRequest>,
    platform: Platform,
    waiters: Seq<IoWaiter<V>>,
    closed: Seq<Option<bool>>,
) -> bool {
    &&& forall|i: int, j: int|
        0 <= i < j < requests.len() ==> (#[trigger] requests[i]).fd != (#[trigger] requests[j]).fd
    &&& forall|i: int|
        0 <= i < requests.len() ==> {
            &&& watched(waiters, closed, (#[trigger] requests[i]).fd)
            &&& requests[i].events == interest(platform, waiters, closed, requests[i].fd)
        }
    &&& forall|fd: Descriptor| #[trigger]
        watched(waiters, closed, fd) ==> exists|i: int|
            0 <= i < requests.len() && (#[trigger] requests[i]).fd == fd
}

/// The request for the descriptor through which a waiting selector is woken.
pub open spec fn interrupt_requests<V>(core: SelectorCore<V>, platform: Platform) -> Seq<
    PollRequest,
> {
    match core.interrupt {
        Some(interrupt) => seq![
            PollRequest { fd: interrupt.input as Descriptor, events: platform.pollin },
        ],
        None => Seq::empty(),
    }
}

fn add_interest(platform: &Platform, conditions: i16, events: i32) -> (result: i16)
    ensures
        result == with_interest(*platform, conditions, events),
{
    let mut result: i16 = conditions;
    if events & READABLE != 0 {
        result = result | platform.pollin;
    }
    if events & PRIORITY != 0 {
        result = result | platform.pollpri;
    }
    if events & WRITABLE != 0 {
        result = result | platform.pollout;
    }
    result
}

/// The requests on behalf of the waiters.
fn waiter_requests<V: Copy>(
    core: &SelectorCore<V>,
    platform: &Platform,
    closed: &Vec<Option<bool>>,
) -> (requests: Vec<PollRequest>)
    requires
        closed@.len() == core.io_waiters@.len(),
    ensures
        covers(requests@, *platform, core.io_waiters@, closed@),
{
    broadcast use vstd::std_specs::hash::group_hash_axioms;

    let mut requests: Vec<PollRequest> = Vec::new();
    let mut places: HashMap<Descriptor, usize> = HashMap::new();
    let ghost waiters = core.io_waiters@;
    for i in 0..core.io_waiters.len()
        invariant
            waiters == core.io_waiters@,
            closed@.len() == waiters.len(),
            covers(requests@, *platform, waiters.take(i as int), closed@.take(i as int)),
            forall|fd: Descriptor| #[trigger]
                places@.contains_key(fd) ==> places@[fd] < requests@.len()
                    && requests@[places@[fd] as int].fd == fd,
            forall|j: int|
                0 <= j < requests@.len() ==> places@.contains_key((#[trigger] requests@[j]).fd),
    {
        let ghost seen = waiters.take(i as int);
        let ghost shut = closed@.take(i as int);
        let ghost seen_next = waiters.take(i + 1);
        let ghost shut_next = closed@.take(i + 1);
        let ghost before = requests@;
        let fd = core.io_waiters[i].fd;
        let events = core.io_waiters[i].events;
        proof {
            assert(seen_next.drop_last() =~= seen);
            assert(shut_next.drop_last() =~= shut);
            assert(seen_next.last() == waiters[i as int]);
            assert(shut_next.last() == closed@[i as int]);
            assert forall|other: Descriptor| #[trigger]
                watched(seen, shut, other) implies watched(seen_next, shut_next, other) by {
                let j = choose|j: int|
                    0 <= j < seen.len() && !known_closed(shut[j]) && (#[trigger] seen[j]).fd
                        == other;
                assert(seen_next[j].fd == other && shut_next[j] == shut[j]);
            }
            assert forall|other: Descriptor| #[trigger]
                watched(seen_next, shut_next, other) implies watched(seen, shut, other) || (
            !known_closed(closed@[i as int]) && other == fd) by {
                let j = choose|j: int|
                    0 <= j < seen_next.len() && !known_closed(shut_next[j]) && (
                    #[trigger] seen_next[j]).fd == other;
                if j < i {
                    assert(seen[j].fd == other && shut[j] == shut_next[j]);
                }
            }
        }
        let skip = match closed[i] {
            Some(shut) => shut,
            None => false,
        };
        if !skip {
            assert(watched(seen_next, shut_next, fd)) by {
                assert(seen_next[i as int].fd == fd);
            }
            let place = match places.get(&fd) {
                Some(place) => Some(*place),
                None => None,
            };
            match place {
                Some(place) => {
                    let conditions = add_interest(platform, requests[place].events, events);
                    requests.set(place, PollRequest { fd, events: conditions });
                    assert forall|other: Descriptor| #[trigger]
                        watched(seen_next, shut_next, other) implies exists|j: int|
                        0 <= j < requests@.len() && (#[trigger] requests@[j]).fd == other by {
                        if other == fd {
                            assert(requests@[place as int].fd == fd);
                        } else {
                            let j = choose|j: int|
                                0 <= j < before.len() && (#[trigger] before[j]).fd == other;
                            assert(requests@[j].fd == other);
                        }
                    }
                },
                None => {
                    proof {
                        if watched(seen, shut, fd) {
                            let j = choose|j: int|
                                0 <= j < before.len() && (#[trigger] before[j]).fd == fd;
                            assert(places@.contains_key(before[j].fd));
                        }
                        lemma_unwatched(*platform, seen, shut, fd);
                    }
                    let conditions = add_interest(platform, 0, events);
                    places.insert(fd, requests.len());
                    requests.push(PollRequest { fd, events: conditions });
                    assert forall|other: Descriptor| #[trigger]
                        watched(seen_next, shut_next, other) implies exists|j: int|
                        0 <= j < requests@.len() && (#[trigger] requests@[j]).fd == other by {
                        if other == fd {
                            assert(requests@[before.len() as int].fd == fd);
                        } else {
                            let j = choose|j: int|
                                0 <= j < before.len() && (#[trigger] before[j]).fd == other;
                            assert(requests@[j].fd == other);
                        }
                    }
                },
            }
        }
    }
    assert(waiters.take(waiters.len() as int) =~= waiters);
    assert(closed@.take(waiters.len() as int) =~= closed@);
    requests
}

/// Of a descriptor that nobody waits for, nothing is asked.
proof fn lemma_unwatched<V>(
    platform: Platform,
    waiters: Seq<IoWaiter<V>>,
    closed: Seq<Option<bool>>,
    fd: Descriptor,
)
    requires
        closed.len() == waiters.len(),
        !watched(waiters, closed, fd),
    ensures
        interest(platform, waiters, closed, fd) == 0,
    decreases waiters.len(),
{
    if waiters.len() > 0 {
        let front = waiters.drop_last();
        let shut = closed.drop_last();
        if watched(front, shut, fd) {
            let j = choose|j: int|
                0 <= j < front.len() && !known_closed(shut[j]) && (#[trigger] front[j]).fd == fd;
            assert(waiters[j].fd == fd && closed[j] == shut[j]);
        }
        lemma_unwatched(platform, front, shut, fd);
        assert(waiters[waiters.len() - 1] == waiters.last());
    }
}

/// A wait for descriptors.
pub struct PollCall {
    /// What to wait for.
    pub requests: Vec<PollRequest>,
    /// How long to wait at most, in milliseconds; a negative number is for ever.
    pub timeout: i32,
    /// The descriptor through which the selector is woken.
    pub interrupt_fd: Option<Descriptor>,
}

/// How a wait for descriptors begins.
pub enum PollStart {
    /// There is nothing to wait for.
    Skip,
    /// The system has to be asked.
    Wait(PollCall),
}

/// What a wait for descriptors has brought.
pub struct PollEvents {
    /// The descriptors that became ready, and for what.
    pub events: Vec<(Descriptor, i32)>,
    /// How often the interrupt has to be cleared.
    pub clears: usize,
}

/// The readiness conditions that poll conditions stand for. A descriptor that is
/// in error or hung up counts as readable.
pub open spec fn readiness(platform: Platform, revents: i16) -> i32 {
    (if revents & (platform.pollin | platform.pollhup | platform.pollerr) != 0 {
        READABLE as int
    } else {
        0
    } + if revents & platform.pollpri != 0 {
        PRIORITY as int
    } else {
        0
    } + if revents & platform.pollout != 0 {
        WRITABLE as int
    } else {
        0
    }) as i32
}

/// The descriptors that became ready, and for what: `revents[i]` is what became
/// of `requests[i]`. The descriptor of the interrupt is not among them.
pub open spec fn ready_events(
    platform: Platform,
    requests: Seq<PollRequest>,
    revents: Seq<i16>,
    interrupt_fd: Descriptor,
) -> Seq<(Descriptor, i32)>
    decreases requests.len(),
{
    if requests.len() == 0 {
        Seq::empty()
    } else {
        let rest = ready_events(
            platform,
            requests.drop_last(),
            revents.drop_last(),
            interrupt_fd,
        );
        let fd = requests.last().fd;
        let ready = readiness(platform, revents.last());
        if revents.last() == 0 || fd == interrupt_fd || ready == 0 {
            rest
        } else {
            rest.push((fd, ready))
        }
    }
}

/// How many requests show that the selector was woken on purpose.
pub open spec fn interrupt_count(
    requests: Seq<PollRequest>,
    revents: Seq<i16>,
    interrupt_fd: Descriptor,
) -> nat
    decreases requests.len(),
{
    if requests.len() == 0 {
        0
    } else {
        let rest = interrupt_count(requests.drop_last(), revents.drop_last(), interrupt_fd);
        if revents.last() != 0 && requests.last().fd == interrupt_fd {
            rest + 1
        } else {
            rest
        }
    }
}

fn ready_conditions(platform: &Platform, revents: i16) -> (ready: i32)
    ensures
        ready == readiness(*platform, revents),
{
    let mut ready: i32 = 0;
    if revents & (platform.pollin | platform.pollhup | platform.pollerr) != 0 {
        assert(0i32 | 1i32 == 1i32) by (bit_vector);
        ready = ready | READABLE;
    }
    if revents & platform.pollpri != 0 {
        assert(ready | 2i32 == ready + 2) by (bit_vector)
            requires
                ready == 0 || ready == 1,
        ;
        ready = ready | PRIORITY;
    }
    if revents & platform.pollout != 0 {
        assert(ready | 4i32 == ready + 4) by (bit_vector)
            requires
                ready == 0 || ready == 1 || ready == 2 || ready == 3,
        ;
        ready = ready | WRITABLE;
    }
    ready
}

/// The descriptor number to compare with: without an interrupt, one that no
/// descriptor has.
pub open spec fn interrupt_number(interrupt_fd: Option<Descriptor>) -> Descriptor {
    match interrupt_fd {
        Some(fd) => fd,
        None => -1i64,
    }
}

/// On a system that cannot wait for descriptors, a turn of the event loop lets
/// the time pass and brings no events: how many milliseconds to sleep, if any.
pub fn platform_sleep<V: Copy>(core: &mut SelectorCore<V>, timeout: Option<i32>) -> (sleep: Option<
    u64,
>)
    ensures
        sleep == (match timeout {
            Some(milliseconds) => if milliseconds > 0 {
                Some(milliseconds as u64)
            } else {
                None
            },
            None => None,
        }),
        *final(core) == (SelectorCore { blocked: false, ..*old(core) }),
{
    core.blocked = false;
    match timeout {
        Some(milliseconds) if milliseconds > 0 => Some(milliseconds as u64),
        _ => None,
    }
}

impl PollCall {
    /// Prepares to wait at most `timeout` milliseconds, or for ever, for the
    /// descriptors of the waiters whose I/O objects are not closed, and for the
    /// interrupt. `closed[i]` tells whether the object of the waiter `i` is.
    /// Where there are no descriptors and no time to wait, nothing is done;
    /// otherwise the selector counts as blocked from here on.
    pub fn platform_poll<V: Copy>(
        core: &mut SelectorCore<V>,
        platform: &Platform,
        closed: &Vec<Option<bool>>,
        timeout: Option<i32>,
    ) -> (start: PollStart)
        requires
            closed@.len() == old(core).io_waiters@.len(),
        ensures
            match start {
                PollStart::Skip => {
                    &&& timeout == Some(0i32)
                    &&& nothing_watched(old(core).io_waiters@, closed@)
                    &&& *final(core) == *old(core)
                },
                PollStart::Wait(call) => {
                    let prefix = interrupt_requests(*old(core), *platform);
                    &&& timeout == Some(0i32) ==> exists|fd: Descriptor|
                        watched(old(core).io_waiters@, closed@, fd)
                    &&& prefix.len() <= call.requests@.len()
                    &&& call.requests@.take(prefix.len() as int) == prefix
                    &&& covers(
                        call.requests@.skip(prefix.len() as int),
                        *platform,
                        old(core).io_waiters@,
                        closed@,
                    )
                    &&& call.timeout == (match timeout {
                        Some(milliseconds) => milliseconds,
                        None => -1i32,
                    })
                    &&& call.interrupt_fd == (match old(core).interrupt {
                        Some(interrupt) => Some(interrupt.input as Descriptor),
                        None => None,
                    })
                    &&& *final(core) == SelectorCore { blocked: true, ..*old(core) }
                },
            },
    {
        let mut requests: Vec<PollRequest> = Vec::new();
        let interrupt_fd = match &core.interrupt {
            Some(interrupt) => Some(interrupt.input as Descriptor),
            None => None,
        };
        let mut own: usize = 0;
        if let Some(fd) = interrupt_fd {
            requests.push(PollRequest { fd, events: platform.pollin });
            own = 1;
        }
        let ghost prefix = requests@;
        let mut waiting = waiter_requests(core, platform, closed);
        let ghost tail = waiting@;
        requests.append(&mut waiting);
        assert(requests@ == prefix + tail);
        proof {
            assert(prefix =~= interrupt_requests(*core, *platform));
            assert(requests@.take(prefix.len() as int) =~= prefix);
            assert(requests@.skip(prefix.len() as int) =~= tail);
        }
        let no_time = match timeout {
            Some(milliseconds) => milliseconds == 0,
            None => false,
        };
        if requests.len() <= own && no_time {
            assert forall|fd: Descriptor| !watched(core.io_waiters@, closed@, fd) by {
                if watched(core.io_waiters@, closed@, fd) {
                    let i = choose|i: int| 0 <= i < tail.len() && (#[trigger] tail[i]).fd == fd;
                    assert(tail[i].fd == fd);
                }
            }
            return PollStart::Skip;
        }
        proof {
            if no_time {
                assert(watched(core.io_waiters@, closed@, tail[0].fd));
            }
        }
        core.blocked = true;
        PollStart::Wait(
            PollCall {
                requests,
                timeout: match timeout {
                    Some(milliseconds) => milliseconds,
                    None => -1,
                },
                interrupt_fd,
            },
        )
    }

    /// Ends the wait. The system answered `result`, with `errno` where that is
    /// -1, and `revents[i]` for `requests[i]`. A wait that a signal cut short
    /// has brought nothing.
    pub fn finish<V: Copy>(
        self,
        core: &mut SelectorCore<V>,
        platform: &Platform,
        result: i32,
        errno: i32,
        revents: &Vec<i16>,
    ) -> (outcome: Result<PollEvents, Failure>)
        requires
            revents@.len() == self.requests@.len(),
        ensures
            *final(core) == (SelectorCore { blocked: false, ..*old(core) }),
            outcome is Err <==> result == -1 && errno != platform.eintr,
            match outcome {
                Ok(found) => if result == -1 {
                    found.events@ == Seq::<(Descriptor, i32)>::empty() && found.clears == 0
                } else {
                    let interrupt_fd = interrupt_number(self.interrupt_fd);
                    &&& found.events@ == ready_events(
                        *platform,
                        self.requests@,
                        revents@,
                        interrupt_fd,
                    )
                    &&& found.clears == interrupt_count(self.requests@, revents@, interrupt_fd)
                },
                Err(failure) => failure.says(ErrorKind::SystemCall, "IO_Event_Selector_poll"@),
            },
    {
        core.blocked = false;
        if result == -1 {
            if errno == platform.eintr {
                return Ok(PollEvents { events: Vec::new(), clears: 0 });
            }
            return Err(Failure::system_call("IO_Event_Selector_poll"));
        }
        let interrupt_fd: Descriptor = match self.interrupt_fd {
            Some(fd) => fd,
            None => -1,
        };
        let mut events: Vec<(Descriptor, i32)> = Vec::new();
        let mut clears: usize = 0;
        for i in 0..self.requests.len()
            invariant
                revents@.len() == self.requests@.len(),
                clears <= i,
                events@ == ready_events(
                    *platform,
                    self.requests@.take(i as int),
                    revents@.take(i as int),
                    interrupt_fd,
                ),
                clears == interrupt_count(
                    self.requests@.take(i as int),
                    revents@.take(i as int),
                    interrupt_fd,
                ),
        {
            proof {
                assert(self.requests@.take(i + 1).drop_last() =~= self.requests@.take(i as int));
                assert(revents@.take(i + 1).drop_last() =~= revents@.take(i as int));
            }
            let fd: Descriptor = self.requests[i].fd;
            if revents[i] != 0 {
                if fd == interrupt_fd {
                    clears += 1;
                } else {
                    let ready = ready_conditions(platform, revents[i]);
                    if ready != 0 {
                        events.push((fd, ready));
                    }
                }
            }
        }
        assert(self.requests@.take(self.requests@.len() as int) =~= self.requests@);
        assert(revents@.take(revents@.len() as int) =~= revents@);
        Ok(PollEvents { events, clears })
    }
}

} // verus!
