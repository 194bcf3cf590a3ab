//! Switching fibers: where control goes, and who gets it back.

use vstd::prelude::*;

use crate::failure::{ErrorKind, Failure};
use crate::laws::frame::{same_io, same_processes, same_rest};
use crate::laws::queueing::{first_taken, lemma_first_taken};
use crate::selector::SelectorCore;
use crate::transfer::{selector_raise, selector_resume, selector_yield, Suspension, Transfer};
use crate::wake::{WakeQueue, Wakeup};

verus! {

/// The fiber `current` is the last in the ready queue, in an entry of its own;
/// everybody before it stays in place, and nothing else has changed.
pub open spec fn waits_its_turn<V>(
    before: SelectorCore<V>,
    after: SelectorCore<V>,
    current: V,
    id: usize,
) -> bool {
    &&& id == before.next_token
    &&& after.next_token == if id == usize::MAX {
        1
    } else {
        id + 1
    }
    &&& after.ready@.len() == before.ready@.len() + 1
    &&& after.ready@.last().fiber == current
    &&& after.ready@.last().id == id
    &&& forall|i: int|
        0 <= i < before.ready@.len() ==> #[trigger] after.ready@[i] == before.ready@[i]
    &&& same_io(before, after)
    &&& same_processes(before, after)
    &&& same_rest(before, after)
}

/// These are the wake-ups of the fibers that were ready, in their order, and
/// `current` comes last.
pub open spec fn woken_last<V>(
    before: SelectorCore<V>,
    wakeups: Seq<Wakeup<V>>,
    current: V,
) -> bool {
    &&& wakeups.len() == before.ready@.len() + 1
    &&& wakeups.last().fiber == current
    &&& forall|i: int| 0 <= i < wakeups.len() ==> (#[trigger] wakeups[i]).mailbox is None
    &&& forall|i: int|
        0 <= i < before.ready@.len() ==> (#[trigger] wakeups[i]).fiber == before.ready@[i].fiber
}

/// A fiber that yields goes to the loop fiber, and is itself what the next flush of
/// the ready queue wakes, after those that were ready before.
pub proof fn law_yielding_fiber_is_woken_next<V: Copy, E>(
    core: &mut SelectorCore<V>,
    current: V,
    started: (Suspension, Transfer<V, E>),
    later: &mut SelectorCore<V>,
    queue: WakeQueue<V>,
)
    requires
        call_ensures(selector_yield::<V, E>, (core, current), started),
        *old(later) == *final(core),
        call_ensures(WakeQueue::<V>::flush_ready, (later,), queue),
    ensures
        started.1 == Transfer::<V, E>::Probe(old(core).loop_fiber),
        waits_its_turn(*old(core), *final(core), current, started.0.ready_id),
        woken_last(*old(core), queue.wakeups@, current),
{
}

/// A fiber that resumes another goes to that one, and is itself what the next flush
/// of the ready queue wakes, after those that were ready before. It fails if and
/// only if it names no fiber, and then changes nothing.
pub proof fn law_resuming_fiber_is_woken_next<V: Copy, E>(
    core: &mut SelectorCore<V>,
    arguments: &[V],
    current: V,
    started: Result<(Suspension, Transfer<V, E>), Failure>,
    later: &mut SelectorCore<V>,
    queue: WakeQueue<V>,
)
    requires
        call_ensures(selector_resume::<V, E>, (core, arguments, current), started),
        *old(later) == *final(core),
        call_ensures(WakeQueue::<V>::flush_ready, (later,), queue),
    ensures
        started is Err <==> arguments@.len() == 0,
        started matches Ok((suspension, transfer)) ==> {
            &&& transfer == Transfer::<V, E>::Probe(Some(arguments@[0]))
            &&& waits_its_turn(*old(core), *final(core), current, suspension.ready_id)
            &&& woken_last(*old(core), queue.wakeups@, current)
        },
        started matches Err(failure) ==> {
            &&& failure.kind == ErrorKind::Argument
            &&& failure.message@ == "wrong number of arguments (given 0, expected 1+)"@
            &&& *final(core) == *old(core)
        },
{
}

/// A fiber that raises an exception in another is itself what the next flush of the
/// ready queue wakes, after those that were ready before. It fails if and only if it
/// names no fiber or no exception, and then changes nothing.
pub proof fn law_raising_fiber_is_woken_next<V: Copy>(
    core: &mut SelectorCore<V>,
    arguments: &[V],
    current: V,
    started: Result<(Suspension, V), Failure>,
    later: &mut SelectorCore<V>,
    queue: WakeQueue<V>,
)
    requires
        call_ensures(selector_raise::<V>, (core, arguments, current), started),
        *old(later) == *final(core),
        call_ensures(WakeQueue::<V>::flush_ready, (later,), queue),
    ensures
        started is Err <==> arguments@.len() < 2,
        started matches Ok((suspension, target)) ==> {
            &&& target == arguments@[0]
            &&& waits_its_turn(*old(core), *final(core), current, suspension.ready_id)
            &&& woken_last(*old(core), queue.wakeups@, current)
        },
        started matches Err(failure) ==> {
            &&& failure.kind == ErrorKind::Argument
            &&& failure.message@ == "wrong number of arguments (given 0..1, expected 2+)"@
            &&& *final(core) == *old(core)
        },
{
}

/// A fiber that runs again leaves the ready queue, and nobody else does; what came
/// back, a value or an exception, is passed on.
pub proof fn law_suspension_takes_only_itself_out<V: Copy, R, E>(
    suspension: Suspension,
    core: &mut SelectorCore<V>,
    outcome: Result<R, E>,
    result: Result<R, E>,
)
    requires
        call_ensures(Suspension::finish::<V, R, E>, (suspension, core, outcome), result),
    ensures
        result == outcome,
        first_taken(old(core).ready@, final(core).ready@, suspension.ready_id),
        final(core).next_token == old(core).next_token,
        same_io(*old(core), *final(core)),
        same_processes(*old(core), *final(core)),
        same_rest(*old(core), *final(core)),
{
    lemma_first_taken(old(core).ready@, final(core).ready@, suspension.ready_id);
}

/// A transfer to a fiber reaches just this fiber, if it is alive, and ends with what
/// comes back. It ends with nil if the fiber has ended, and with the exception if
/// asking raised one.
pub proof fn law_transfer_reaches_its_target<V: Copy, E>(
    target: Option<V>,
    start: Transfer<V, E>,
    alive: Result<bool, E>,
    asked: Transfer<V, E>,
    back: Result<V, E>,
    end: Transfer<V, E>,
)
    requires
        call_ensures(Transfer::<V, E>::transfer_value, (target,), start),
        call_ensures(Transfer::<V, E>::probed, (start, alive), asked),
        call_ensures(Transfer::<V, E>::switched, (asked, back), end),
    ensures
        start == Transfer::<V, E>::Probe(target),
        alive == Ok::<bool, E>(true) ==> asked == Transfer::<V, E>::Switch(target),
        alive == Ok::<bool, E>(false) ==> asked == Transfer::<V, E>::Done(Ok(None)),
        alive matches Err(error) ==> asked == Transfer::<V, E>::Done(Err(error)),
        alive == Ok::<bool, E>(true) ==> match back {
            Ok(value) => end == Transfer::<V, E>::Done(Ok(Some(value))),
            Err(error) => end == Transfer::<V, E>::Done(Err(error)),
        },
{
}

/// A transfer to the event loop is one to the loop fiber, unless that is the fiber
/// that runs: then it ends at once, with nil. A comparison that raised an exception
/// found no sameness.
pub proof fn law_loop_does_not_transfer_to_itself<V: Copy, E>(
    core: SelectorCore<V>,
    start: Transfer<V, E>,
    same: Result<bool, E>,
    next: Transfer<V, E>,
)
    requires
        call_ensures(Transfer::<V, E>::selector_transfer, (&core,), start),
        call_ensures(Transfer::<V, E>::compared, (start, same), next),
    ensures
        start == Transfer::<V, E>::Compare(core.loop_fiber),
        same == Ok::<bool, E>(true) ==> next == Transfer::<V, E>::Done(Ok(None)),
        same != Ok::<bool, E>(true) ==> next == Transfer::<V, E>::Probe(core.loop_fiber),
{
}

} // verus!
