//! A turn of the event loop, from its start to the number it ends with.

use vstd::prelude::*;

use crate::event::Descriptor;
use crate::laws::frame::{same_io, same_processes, same_ready};
use crate::select::SelectCall;
use crate::selector::{IdleDuration, SelectorCore};

verus! {

/// Everything but the time waited is as it was.
pub open spec fn same_but_idle<V>(before: SelectorCore<V>, after: SelectorCore<V>) -> bool {
    &&& same_io(before, after)
    &&& same_processes(before, after)
    &&& same_ready(before, after)
    &&& after.kind == before.kind
    &&& after.loop_fiber == before.loop_fiber
    &&& after.closed == before.closed
    &&& after.blocked == before.blocked
    &&& after.interrupt == before.interrupt
}

/// A turn begins without having waited, wakes those who are ready, and then checks the
/// processes. If that woke somebody the turn is over, and ends with their number. If it
/// did not, the turn waits, at most for the time that the caller says; but not at all if
/// somebody was woken before or has become ready meanwhile.
pub proof fn law_turn_does_not_wait_while_somebody_is_ready<V: Copy, E>(
    core: &mut SelectorCore<V>,
    start: SelectCall<E>,
    flushed: usize,
    checking: SelectCall<E>,
    now: SelectorCore<V>,
    woken: usize,
    next: SelectCall<E>,
    timeout: Option<i32>,
    waiting: SelectCall<E>,
)
    requires
        call_ensures(SelectCall::<E>::selector_select::<V>, (core,), start),
        call_ensures(SelectCall::<E>::flushed, (start, Ok(flushed)), checking),
        call_ensures(SelectCall::<E>::checked::<V>, (checking, &now, Ok(woken)), next),
        next is ReadTimeout ==> call_ensures(
            SelectCall::<E>::timeout_read,
            (next, Ok(timeout)),
            waiting,
        ),
    ensures
        start is FlushReady,
        final(core).idle_duration.seconds == 0,
        final(core).idle_duration.nanoseconds == 0,
        same_but_idle(*old(core), *final(core)),
        checking == (SelectCall::<E>::CheckProcesses { flushed }),
        woken > 0 ==> match next {
            SelectCall::Done(Ok(count)) => woken <= i64::MAX ==> count == woken,
            _ => false,
        },
        woken == 0 && (flushed > 0 || now.ready@.len() > 0) ==> next == (SelectCall::<E>::Poll {
            timeout: Some(0i32),
            timed: false,
        }),
        woken == 0 && flushed == 0 && now.ready@.len() == 0 ==> next is ReadTimeout && match waiting {
            SelectCall::Poll { timeout: at_most, timed } => {
                &&& at_most == timeout
                &&& timed <==> match timeout {
                    Some(milliseconds) => milliseconds > 0,
                    None => true,
                }
            },
            _ => false,
        },
{
}

/// When the wait is over the turn takes down how long it took, if it was to be measured,
/// hands the events on just as they came, checks the processes once more, and ends with
/// the number of all those woken for the one or the other.
pub proof fn law_turn_ends_with_all_it_woke<V: Copy, E>(
    core: &mut SelectorCore<V>,
    timeout: Option<i32>,
    timed: bool,
    events: Vec<(Descriptor, i32)>,
    elapsed: IdleDuration,
    found: SelectCall<E>,
    dispatched: usize,
    rechecking: SelectCall<E>,
    woken: usize,
    end: SelectCall<E>,
)
    requires
        dispatched + woken <= i64::MAX,
        dispatched + woken <= usize::MAX,
        call_ensures(
            SelectCall::<E>::polled::<V>,
            (SelectCall::<E>::Poll { timeout, timed }, core, Ok(events), elapsed),
            found,
        ),
        call_ensures(SelectCall::<E>::dispatched, (found, Ok(dispatched)), rechecking),
        call_ensures(SelectCall::<E>::rechecked, (rechecking, Ok(woken)), end),
    ensures
        found == (SelectCall::<E>::Dispatch { events }),
        final(core).idle_duration == if timed {
            elapsed
        } else {
            old(core).idle_duration
        },
        same_but_idle(*old(core), *final(core)),
        rechecking == (SelectCall::<E>::RecheckProcesses { dispatched }),
        end matches SelectCall::Done(Ok(count)) && count == dispatched + woken,
{
}

/// An exception at any stage is what the turn ends with, and the time waited is not taken
/// down.
pub proof fn law_turn_passes_exceptions_on<V: Copy, E>(
    core: &mut SelectorCore<V>,
    now: SelectorCore<V>,
    flushed: usize,
    timeout: Option<i32>,
    timed: bool,
    events: Vec<(Descriptor, i32)>,
    elapsed: IdleDuration,
    dispatched: usize,
    error: E,
    after_flush: SelectCall<E>,
    after_check: SelectCall<E>,
    after_timeout: SelectCall<E>,
    after_poll: SelectCall<E>,
    after_dispatch: SelectCall<E>,
    after_recheck: SelectCall<E>,
)
    requires
        call_ensures(
            SelectCall::<E>::flushed,
            (SelectCall::<E>::FlushReady, Err(error)),
            after_flush,
        ),
        call_ensures(
            SelectCall::<E>::checked::<V>,
            (SelectCall::<E>::CheckProcesses { flushed }, &now, Err(error)),
            after_check,
        ),
        call_ensures(
            SelectCall::<E>::timeout_read,
            (SelectCall::<E>::ReadTimeout, Err(error)),
            after_timeout,
        ),
        call_ensures(
            SelectCall::<E>::polled::<V>,
            (SelectCall::<E>::Poll { timeout, timed }, core, Err(error), elapsed),
            after_poll,
        ),
        call_ensures(
            SelectCall::<E>::dispatched,
            (SelectCall::<E>::Dispatch { events }, Err(error)),
            after_dispatch,
        ),
        call_ensures(
            SelectCall::<E>::rechecked,
            (SelectCall::<E>::RecheckProcesses { dispatched }, Err(error)),
            after_recheck,
        ),
    ensures
        after_flush == SelectCall::<E>::Done(Err(error)),
        after_check == SelectCall::<E>::Done(Err(error)),
        after_timeout == SelectCall::<E>::Done(Err(error)),
        after_poll == SelectCall::<E>::Done(Err(error)),
        after_dispatch == SelectCall::<E>::Done(Err(error)),
        after_recheck == SelectCall::<E>::Done(Err(error)),
        *final(core) == *old(core),
{
}

} // verus!
