//! What a worker pool counts, and what it remembers.

use vstd::prelude::*;

use crate::busy::{first_found, BusyCall, BusyException, BusyOutcome};
use crate::worker_pool::{remembered, CallError, PoolEvent, WorkerCall, WorkerPoolState};

verus! {

/// What the calling fiber's waits ended with, up to now: the exception that is
/// remembered.
pub open spec fn remembered_after<E>(outcomes: Seq<Result<(), E>>) -> Option<E>
    decreases outcomes.len(),
{
    if outcomes.len() == 0 {
        None
    } else {
        remembered(remembered_after(outcomes.drop_last()), outcomes.last())
    }
}

/// Of the outcomes of several waits the first exception is remembered, and none
/// if there was none.
proof fn lemma_first_remembered<E>(outcomes: Seq<Result<(), E>>)
    ensures
        match remembered_after(outcomes) {
            Some(error) => exists|i: int|
                0 <= i < outcomes.len() && #[trigger] outcomes[i] == Err::<(), E>(error)
                    && forall|j: int| 0 <= j < i ==> (#[trigger] outcomes[j]) is Ok,
            None => forall|i: int| 0 <= i < outcomes.len() ==> (#[trigger] outcomes[i]) is Ok,
        },
    decreases outcomes.len(),
{
    if outcomes.len() > 0 {
        let front = outcomes.drop_last();
        let last = outcomes.len() - 1;
        lemma_first_remembered(front);
        assert(forall|i: int| 0 <= i < front.len() ==> front[i] == outcomes[i]);
        match remembered_after(front) {
            Some(error) => {
                let i = choose|i: int|
                    0 <= i < front.len() && #[trigger] front[i] == Err::<(), E>(error)
                        && forall|j: int| 0 <= j < i ==> (#[trigger] front[j]) is Ok;
                assert(outcomes[i] == Err::<(), E>(error));
                assert forall|j: int| 0 <= j < i implies (#[trigger] outcomes[j]) is Ok by {
                    assert(front[j] is Ok);
                }
            },
            None => {
                assert forall|j: int| 0 <= j < last implies (#[trigger] outcomes[j]) is Ok by {
                    assert(front[j] is Ok);
                }
                assert(outcomes[last] == outcomes.last());
            },
        }
    }
}

/// A step of a call while its operation runs on a thread.
pub enum CallStep<E> {
    /// The pool learns whether the operation has ended.
    Asked { completed: bool },
    /// The calling fiber has waited.
    Waited { outcome: Result<(), E> },
    /// The thread was told to end.
    Killed,
}

/// A call from the start of its thread on: the states that it goes through, and
/// the steps that lead from each to the next.
pub open spec fn is_call<E>(calls: Seq<WorkerCall<E>>, steps: Seq<CallStep<E>>) -> bool {
    &&& calls.len() == steps.len() + 1
    &&& calls[0] == (WorkerCall::<E>::AskCompleted { interruption: None })
    &&& forall|k: int|
        0 <= k < steps.len() ==> match #[trigger] steps[k] {
            CallStep::Asked { completed } => calls[k] is AskCompleted && calls[k + 1]
                == calls[k].after_question(completed),
            CallStep::Waited { outcome } => calls[k] is Block && calls[k + 1]
                == calls[k].after_wait(outcome),
            CallStep::Killed => calls[k] is KillThread && calls[k + 1] == calls[k].after_kill(),
        }
}

/// What the waits of the calling fiber ended with, in their order.
pub open spec fn wait_outcomes<E>(steps: Seq<CallStep<E>>) -> Seq<Result<(), E>>
    decreases steps.len(),
{
    if steps.len() == 0 {
        Seq::empty()
    } else {
        let earlier = wait_outcomes(steps.drop_last());
        match steps.last() {
            CallStep::Waited { outcome } => earlier.push(outcome),
            _ => earlier,
        }
    }
}

/// A call ends with the first exception that was raised in the calling fiber
/// while it waited, however many there were; and it ends well if and only if there
/// was none.
pub proof fn law_first_exception_is_remembered<E>(
    calls: Seq<WorkerCall<E>>,
    steps: Seq<CallStep<E>>,
    before: WorkerPoolState,
    end: WorkerCall<E>,
    after: WorkerPoolState,
)
    requires
        is_call(calls, steps),
        calls.last() is JoinThread,
        calls.last().ends(before, end, after),
    ensures
        calls.last()->JoinThread_interruption == remembered_after(wait_outcomes(steps)),
        ({
            let outcomes = wait_outcomes(steps);
            match end {
                WorkerCall::Done(Err(CallError::Raised(error))) => exists|i: int|
                    0 <= i < outcomes.len() && #[trigger] outcomes[i] == Err::<(), E>(error)
                        && forall|j: int| 0 <= j < i ==> (#[trigger] outcomes[j]) is Ok,
                WorkerCall::Done(Ok(value)) => value && forall|i: int|
                    0 <= i < outcomes.len() ==> (#[trigger] outcomes[i]) is Ok,
                _ => false,
            }
        }),
{
    lemma_call(calls, steps, steps.len() as int);
    assert(steps.take(steps.len() as int) =~= steps);
    lemma_first_remembered(wait_outcomes(steps));
}

/// The exception that a call whose operation runs remembers.
pub open spec fn interruption<E>(call: WorkerCall<E>) -> Option<E> {
    match call {
        WorkerCall::AskCompleted { interruption } => interruption,
        WorkerCall::Block { interruption } => interruption,
        WorkerCall::KillThread { first } => Some(first),
        WorkerCall::JoinThread { interruption } => interruption,
        _ => None,
    }
}

proof fn lemma_call<E>(calls: Seq<WorkerCall<E>>, steps: Seq<CallStep<E>>, count: int)
    requires
        is_call(calls, steps),
        0 <= count <= steps.len(),
    ensures
        interruption(calls[count]) == remembered_after(wait_outcomes(steps.take(count))),
    decreases count,
{
    if count > 0 {
        let last = count - 1;
        lemma_call(calls, steps, last);
        assert(steps.take(count).drop_last() =~= steps.take(last));
        let earlier = wait_outcomes(steps.take(last));
        match steps[last] {
            CallStep::Waited { outcome } => {
                assert(earlier.push(outcome).drop_last() =~= earlier);
            },
            _ => {},
        }
    }
}

/// What was found at the interruptions of a busy operation, up to now: the
/// exception that is remembered.
pub open spec fn found_after<V>(found: Seq<Option<V>>) -> Option<V>
    decreases found.len(),
{
    if found.len() == 0 {
        None
    } else {
        first_found(found_after(found.drop_last()), found.last())
    }
}

/// Of what was found at several interruptions the first exception is remembered,
/// and none if there was none.
proof fn lemma_first_found<V>(found: Seq<Option<V>>)
    ensures
        match found_after(found) {
            Some(exception) => exists|i: int|
                0 <= i < found.len() && #[trigger] found[i] == Some(exception) && forall|j: int|
                    0 <= j < i ==> (#[trigger] found[j]) is None,
            None => forall|i: int| 0 <= i < found.len() ==> (#[trigger] found[i]) is None,
        },
    decreases found.len(),
{
    if found.len() > 0 {
        let front = found.drop_last();
        let last = found.len() - 1;
        lemma_first_found(front);
        match found_after(front) {
            Some(exception) => {
                let i = choose|i: int|
                    0 <= i < front.len() && #[trigger] front[i] == Some(exception) && forall|j: int|
                        0 <= j < i ==> (#[trigger] front[j]) is None;
                assert(found[i] == Some(exception));
                assert forall|j: int| 0 <= j < i implies (#[trigger] found[j]) is None by {
                    assert(front[j] is None);
                }
            },
            None => {
                assert forall|j: int| 0 <= j < last implies (#[trigger] found[j]) is None by {
                    assert(front[j] is None);
                }
                assert(found[last] == found.last());
            },
        }
    }
}

/// A step of a busy operation that runs on a thread.
pub enum BusyStep<V> {
    /// It is learnt whether the operation has ended.
    Asked { completed: bool },
    /// The calling fiber has waited, and an exception was raised in it or not.
    Waited { raised: bool },
    /// The operation was interrupted, and this exception was found.
    Interrupted { found: Option<V> },
}

/// A busy operation from the start of its thread on: the states that it goes
/// through, and the steps that lead from each to the next.
pub open spec fn is_busy<V: Copy, E>(
    calls: Seq<BusyCall<V, E>>,
    steps: Seq<BusyStep<V>>,
) -> bool {
    &&& calls.len() == steps.len() + 1
    &&& calls[0] == (BusyCall::<V, E>::AskCompleted { interrupted: false, exception: None })
    &&& forall|k: int|
        0 <= k < steps.len() ==> match #[trigger] steps[k] {
            BusyStep::Asked { completed } => calls[k] is AskCompleted && calls[k + 1]
                == calls[k].after_question(completed),
            BusyStep::Waited { raised } => calls[k] is Block && calls[k + 1]
                == calls[k].after_wait(raised),
            BusyStep::Interrupted { found } => calls[k] is Interrupt && calls[k + 1]
                == calls[k].after_interruption(found),
        }
}

/// What was found at the interruptions, in their order.
pub open spec fn all_found<V>(steps: Seq<BusyStep<V>>) -> Seq<Option<V>>
    decreases steps.len(),
{
    if steps.len() == 0 {
        Seq::empty()
    } else {
        let earlier = all_found(steps.drop_last());
        match steps.last() {
            BusyStep::Interrupted { found } => earlier.push(found),
            _ => earlier,
        }
    }
}

/// An exception was raised in the calling fiber during one of its waits.
pub open spec fn some_wait_raised<V>(steps: Seq<BusyStep<V>>) -> bool {
    exists|k: int|
        0 <= k < steps.len() && #[trigger] steps[k] == (BusyStep::<V>::Waited { raised: true })
}

/// A busy operation is reported as interrupted if and only if an exception was
/// raised in the calling fiber while it waited, whatever its own wait ended with.
/// The exception reported is the first that was found, and one that says that the
/// operation was interrupted if none was found.
pub proof fn law_first_exception_is_reported<V: Copy, E>(
    calls: Seq<BusyCall<V, E>>,
    steps: Seq<BusyStep<V>>,
    outcome: BusyOutcome,
)
    requires
        is_busy(calls, steps),
        calls.last() is JoinThread,
    ensures
        calls.last().after_join() == (BusyCall::<V, E>::Report {
            interrupted: some_wait_raised(steps),
            exception: found_after(all_found(steps)),
        }),
        ({
            let report = calls.last().after_join().reported(outcome);
            let found = all_found(steps);
            &&& report.result is Exception <==> some_wait_raised(steps)
            &&& match report.exception {
                BusyException::Absent => !some_wait_raised(steps),
                BusyException::Given(exception) => some_wait_raised(steps) && exists|i: int|
                    0 <= i < found.len() && #[trigger] found[i] == Some(exception) && forall|j: int|
                        0 <= j < i ==> (#[trigger] found[j]) is None,
                BusyException::Interrupted => some_wait_raised(steps) && forall|i: int|
                    0 <= i < found.len() ==> (#[trigger] found[i]) is None,
            }
        }),
{
    lemma_busy(calls, steps, steps.len() as int);
    assert(steps.take(steps.len() as int) =~= steps);
    lemma_first_found(all_found(steps));
}

/// What a busy operation that runs on a thread remembers: whether it was
/// interrupted, or is being, and the exception that was found.
pub open spec fn memory<V, E>(call: BusyCall<V, E>) -> (bool, Option<V>) {
    match call {
        BusyCall::AskCompleted { interrupted, exception } => (interrupted, exception),
        BusyCall::Block { interrupted, exception } => (interrupted, exception),
        BusyCall::Interrupt { exception } => (true, exception),
        BusyCall::JoinThread { interrupted, exception } => (interrupted, exception),
        _ => (false, None),
    }
}

proof fn lemma_busy<V: Copy, E>(
    calls: Seq<BusyCall<V, E>>,
    steps: Seq<BusyStep<V>>,
    count: int,
)
    requires
        is_busy(calls, steps),
        0 <= count <= steps.len(),
    ensures
        memory(calls[count]) == (
            some_wait_raised(steps.take(count)),
            found_after(all_found(steps.take(count))),
        ),
    decreases count,
{
    if count > 0 {
        let last = count - 1;
        lemma_busy(calls, steps, last);
        let now = steps.take(count);
        let front = steps.take(last);
        assert(now.drop_last() =~= front);
        assert(now[last] == steps[last]);
        if some_wait_raised(front) {
            let k = choose|k: int|
                0 <= k < front.len() && #[trigger] front[k] == (BusyStep::<V>::Waited {
                    raised: true,
                });
            assert(now[k] == front[k]);
        }
        if some_wait_raised(now) && now[last] != (BusyStep::<V>::Waited { raised: true }) {
            let k = choose|k: int|
                0 <= k < now.len() && #[trigger] now[k] == (BusyStep::<V>::Waited {
                    raised: true,
                });
            assert(front[k] == now[k]);
        }
        match steps[last] {
            BusyStep::Interrupted { found } => {
                assert(all_found(front).push(found).drop_last() =~= all_found(front));
            },
            _ => {},
        }
    }
}

/// The state of a pool after a history of events.
pub open spec fn pool_after_all(state: WorkerPoolState, history: Seq<PoolEvent>) -> WorkerPoolState
    decreases history.len(),
{
    if history.len() == 0 {
        state
    } else {
        pool_after_all(state, history.drop_last()).after(history.last())
    }
}

/// How often an event occurs.
pub open spec fn occurrences(history: Seq<PoolEvent>, event: PoolEvent) -> nat
    decreases history.len(),
{
    if history.len() == 0 {
        0
    } else {
        occurrences(history.drop_last(), event) + if history.last() == event {
            1nat
        } else {
            0
        }
    }
}

/// A pool counts the operations that it accepted, those that ran to their end
/// and those that were cut short; and it is shut down if and only if it was shut
/// down at some time.
pub proof fn law_pool_counts_what_happened(state: WorkerPoolState, history: Seq<PoolEvent>)
    requires
        state.call_count == 0,
        state.completed_count == 0,
        state.cancelled_count == 0,
        !state.shutdown,
        history.len() <= usize::MAX,
    ensures
        ({
            let after = pool_after_all(state, history);
            &&& after.maximum_worker_count == state.maximum_worker_count
            &&& after.call_count == occurrences(history, PoolEvent::Accepted)
            &&& after.completed_count == occurrences(history, PoolEvent::Completed)
            &&& after.cancelled_count == occurrences(history, PoolEvent::Cancelled)
            &&& after.shutdown == (occurrences(history, PoolEvent::Closed) > 0)
        }),
    decreases history.len(),
{
    lemma_occurrences(history, PoolEvent::Accepted);
    lemma_occurrences(history, PoolEvent::Completed);
    lemma_occurrences(history, PoolEvent::Cancelled);
    if history.len() > 0 {
        law_pool_counts_what_happened(state, history.drop_last());
    }
}

/// An operation comes to its end.
pub open spec fn ends(event: PoolEvent) -> bool {
    event is Completed || event is Cancelled
}

/// Each operation that comes to its end was accepted before, and no other one was
/// accepted with it: `own[i]` is when the operation that ends at `i` was.
pub open spec fn ends_have_starts(history: Seq<PoolEvent>, own: Seq<int>) -> bool {
    &&& own.len() == history.len()
    &&& forall|i: int|
        0 <= i < history.len() && ends(history[i]) ==> 0 <= #[trigger] own[i] < i
            && history[own[i]] is Accepted
    &&& forall|i: int, j: int|
        0 <= i < j < history.len() && ends(history[i]) && ends(history[j]) ==> #[trigger] own[i]
            != #[trigger] own[j]
}

/// At every time, whatever operations overlap, no more of them have ended than
/// were accepted; and no counter ever decreases.
pub proof fn law_ends_never_exceed_starts(
    state: WorkerPoolState,
    history: Seq<PoolEvent>,
    own: Seq<int>,
    count: int,
    later: int,
)
    requires
        state.call_count == 0,
        state.completed_count == 0,
        state.cancelled_count == 0,
        !state.shutdown,
        history.len() <= usize::MAX,
        ends_have_starts(history, own),
        0 <= count <= later <= history.len(),
    ensures
        ({
            let now = pool_after_all(state, history.take(count));
            let then_on = pool_after_all(state, history.take(later));
            &&& now.completed_count + now.cancelled_count <= now.call_count
            &&& now.call_count <= then_on.call_count
            &&& now.completed_count <= then_on.completed_count
            &&& now.cancelled_count <= then_on.cancelled_count
        }),
{
    law_pool_counts_what_happened(state, history.take(count));
    law_pool_counts_what_happened(state, history.take(later));
    lemma_occurrences_grow(history, PoolEvent::Accepted, count, later);
    lemma_occurrences_grow(history, PoolEvent::Completed, count, later);
    lemma_occurrences_grow(history, PoolEvent::Cancelled, count, later);
    lemma_no_more_ends(history, own, count);
}

/// No more operations ended than were accepted, among the first `count` events.
proof fn lemma_no_more_ends(history: Seq<PoolEvent>, own: Seq<int>, count: int)
    requires
        ends_have_starts(history, own),
        0 <= count <= history.len(),
    ensures
        occurrences(history.take(count), PoolEvent::Completed) + occurrences(
            history.take(count),
            PoolEvent::Cancelled,
        ) <= occurrences(history.take(count), PoolEvent::Accepted),
{
    lemma_starts(history, count);
    lemma_spent_starts(history, own, count);
    assert forall|at: int| spent_starts(history, own, count).contains(at) implies starts(
        history,
        count,
    ).contains(at) by {
        let i = choose|i: int| 0 <= i < count && ends(history[i]) && #[trigger] own[i] == at;
        assert(0 <= own[i] < i);
    }
    vstd::set_lib::lemma_len_subset(spent_starts(history, own, count), starts(history, count));
}

/// When the operations were accepted that ended among the first `count` events.
pub open spec fn spent_starts(history: Seq<PoolEvent>, own: Seq<int>, count: int) -> Set<int>
    decreases count,
{
    if count <= 0 {
        Set::empty()
    } else {
        let earlier = spent_starts(history, own, count - 1);
        if ends(history[count - 1]) {
            earlier.insert(own[count - 1])
        } else {
            earlier
        }
    }
}

/// When operations were accepted, among the first `count` events.
pub open spec fn starts(history: Seq<PoolEvent>, count: int) -> Set<int>
    decreases count,
{
    if count <= 0 {
        Set::empty()
    } else {
        let earlier = starts(history, count - 1);
        if history[count - 1] is Accepted {
            earlier.insert(count - 1)
        } else {
            earlier
        }
    }
}

/// Among the first `count` events an operation ended that was accepted at `at`.
pub open spec fn ended_by_then(
    history: Seq<PoolEvent>,
    own: Seq<int>,
    count: int,
    at: int,
) -> bool {
    exists|i: int| 0 <= i < count && ends(history[i]) && #[trigger] own[i] == at
}

proof fn lemma_starts(history: Seq<PoolEvent>, count: int)
    requires
        0 <= count <= history.len(),
    ensures
        starts(history, count).finite(),
        starts(history, count).len() == occurrences(history.take(count), PoolEvent::Accepted),
        forall|i: int| #[trigger]
            starts(history, count).contains(i) <==> 0 <= i < count && history[i] is Accepted,
    decreases count,
{
    if count > 0 {
        lemma_starts(history, count - 1);
        assert(history.take(count).drop_last() =~= history.take(count - 1));
    }
}

proof fn lemma_spent_starts(history: Seq<PoolEvent>, own: Seq<int>, count: int)
    requires
        ends_have_starts(history, own),
        0 <= count <= history.len(),
    ensures
        spent_starts(history, own, count).finite(),
        spent_starts(history, own, count).len() == occurrences(
            history.take(count),
            PoolEvent::Completed,
        ) + occurrences(history.take(count), PoolEvent::Cancelled),
        forall|at: int| #[trigger]
            spent_starts(history, own, count).contains(at) ==> ended_by_then(
                history,
                own,
                count,
                at,
            ),
    decreases count,
{
    if count > 0 {
        let last = count - 1;
        lemma_spent_starts(history, own, last);
        assert(history.take(count).drop_last() =~= history.take(last));
        assert(history.take(count).last() == history[last]);
        let before = spent_starts(history, own, last);
        let after = spent_starts(history, own, count);
        if ends(history[last]) && before.contains(own[last]) {
            let i = choose|i: int|
                0 <= i < last && ends(history[i]) && #[trigger] own[i] == own[last];
            assert(own[i] != own[last]);
        }
        assert forall|at: int| #[trigger] after.contains(at) implies ended_by_then(
            history,
            own,
            count,
            at,
        ) by {
            if before.contains(at) {
                let i = choose|i: int|
                    0 <= i < last && ends(history[i]) && #[trigger] own[i] == at;
                assert(ends(history[i]) && own[i] == at);
            } else {
                assert(ends(history[last]) && own[last] == at);
            }
        }
    }
}

proof fn lemma_occurrences_grow(
    history: Seq<PoolEvent>,
    event: PoolEvent,
    count: int,
    later: int,
)
    requires
        0 <= count <= later <= history.len(),
    ensures
        occurrences(history.take(count), event) <= occurrences(history.take(later), event),
    decreases later - count,
{
    if count < later {
        lemma_occurrences_grow(history, event, count, later - 1);
        assert(history.take(later).drop_last() =~= history.take(later - 1));
    }
}

/// A step of a pool at work on several calls at a time.
pub enum PoolStep {
    /// A call begins.
    Begun { call: int },
    /// A call goes on.
    Moved { call: int },
    /// A call whose thread has ended comes to its end.
    Joined { call: int },
    /// The pool is shut down.
    Closed,
}

/// How a pool and its calls change with a step.
pub open spec fn stepped<E>(
    before: WorkerPoolState,
    calls_before: Map<int, WorkerCall<E>>,
    after: WorkerPoolState,
    calls_after: Map<int, WorkerCall<E>>,
    step: PoolStep,
) -> bool {
    match step {
        PoolStep::Begun { call } => {
            &&& !calls_before.contains_key(call)
            &&& before.shutdown || before.call_count < usize::MAX
            &&& calls_after == calls_before.insert(call, calls_after[call])
            &&& WorkerCall::<E>::began(before, calls_after[call], after)
        },
        PoolStep::Moved { call } => {
            &&& calls_before.contains_key(call)
            &&& calls_after == calls_before.insert(call, calls_after[call])
            &&& calls_before[call].moves(calls_after[call])
            &&& after == before
        },
        PoolStep::Joined { call } => {
            &&& calls_before.contains_key(call)
            &&& calls_before[call] is JoinThread
            &&& calls_after == calls_before.insert(call, calls_after[call])
            &&& calls_before[call].ends(before, calls_after[call], after)
        },
        PoolStep::Closed => {
            &&& calls_after == calls_before
            &&& after == before.after(PoolEvent::Closed)
        },
    }
}

/// A pool at work: its states and those of its calls, and the steps that lead from
/// each to the next. At first no call is on its way.
pub open spec fn is_work<E>(
    pools: Seq<WorkerPoolState>,
    calls: Seq<Map<int, WorkerCall<E>>>,
    steps: Seq<PoolStep>,
) -> bool {
    &&& pools.len() == steps.len() + 1
    &&& calls.len() == steps.len() + 1
    &&& calls[0] == Map::<int, WorkerCall<E>>::empty()
    &&& pools[0].completed_count + pools[0].cancelled_count <= pools[0].call_count
    &&& forall|k: int|
        0 <= k < steps.len() ==> stepped(
            pools[k],
            calls[k],
            pools[k + 1],
            calls[k + 1],
            #[trigger] steps[k],
        )
}

/// The calls that have begun and not ended.
pub open spec fn on_their_way<E>(calls: Map<int, WorkerCall<E>>) -> Set<int> {
    Set::new(|call: int| calls.contains_key(call) && !(calls[call] is Done))
}

/// How many calls a pool counts as ended.
pub open spec fn ended_count(pool: WorkerPoolState) -> int {
    pool.completed_count + pool.cancelled_count
}

/// Whatever calls a pool works on at a time: the calls that it counts as ended and
/// those on their way are at most those it accepted, and no counter decreases.
pub proof fn law_calls_are_counted_once<E>(
    pools: Seq<WorkerPoolState>,
    calls: Seq<Map<int, WorkerCall<E>>>,
    steps: Seq<PoolStep>,
    count: int,
    later: int,
)
    requires
        is_work(pools, calls, steps),
        0 <= count <= later <= steps.len(),
    ensures
        on_their_way(calls[count]).finite(),
        ended_count(pools[count]) + on_their_way(calls[count]).len() <= pools[count].call_count,
        ended_count(pools[count]) <= pools[count].call_count,
        pools[count].call_count <= pools[later].call_count,
        pools[count].completed_count <= pools[later].completed_count,
        pools[count].cancelled_count <= pools[later].cancelled_count,
    decreases later,
{
    if count < later {
        law_calls_are_counted_once(pools, calls, steps, count, later - 1);
        law_calls_are_counted_once(pools, calls, steps, later - 1, later - 1);
        law_a_step_counts_what_it_did(
            pools[later - 1],
            calls[later - 1],
            pools[later],
            calls[later],
            steps[later - 1],
        );
        assert(stepped(
            pools[later - 1],
            calls[later - 1],
            pools[later - 1 + 1],
            calls[later - 1 + 1],
            steps[later - 1],
        ));
    } else if count == 0 {
        assert(on_their_way(calls[0]) =~= Set::empty());
    } else {
        let last = count - 1;
        law_calls_are_counted_once(pools, calls, steps, last, last);
        assert(stepped(pools[last], calls[last], pools[last + 1], calls[last + 1], steps[last]));
        law_a_step_counts_what_it_did(
            pools[last],
            calls[last],
            pools[count],
            calls[count],
            steps[last],
        );
    }
}

/// The pool's counters grow by one at a time: that of the accepted calls when the
/// pool accepts one, that of the completed calls if and only if a call ends well,
/// which is always with `true`, and that of the cancelled calls if and only if a
/// call whose operation ran ends with an exception. Those that are counted as ended
/// are no longer on their way.
pub proof fn law_a_step_counts_what_it_did<E>(
    before: WorkerPoolState,
    calls_before: Map<int, WorkerCall<E>>,
    after: WorkerPoolState,
    calls_after: Map<int, WorkerCall<E>>,
    step: PoolStep,
)
    requires
        stepped(before, calls_before, after, calls_after, step),
        on_their_way(calls_before).finite(),
        ended_count(before) + on_their_way(calls_before).len() <= before.call_count,
    ensures
        on_their_way(calls_after).finite(),
        ended_count(after) + on_their_way(calls_after).len() <= after.call_count,
        before.call_count <= after.call_count <= before.call_count + 1,
        ended_count(before) <= ended_count(after) <= ended_count(before) + 1,
        before.completed_count <= after.completed_count,
        before.cancelled_count <= after.cancelled_count,
        match step {
            PoolStep::Begun { call } => {
                &&& ended_count(after) == ended_count(before)
                &&& calls_after[call] matches WorkerCall::Done(outcome) ==> outcome is Err
                &&& after.call_count == before.call_count + 1 <==> !(calls_after[call] is Done)
            },
            PoolStep::Moved { call } => {
                &&& after == before
                &&& calls_after[call] matches WorkerCall::Done(outcome) ==> outcome is Err
            },
            PoolStep::Joined { call } => {
                &&& calls_after[call] is Done
                &&& after.call_count == before.call_count
                &&& calls_after[call]->Done_0 is Ok ==> calls_after[call]->Done_0->Ok_0
                &&& after.completed_count == before.completed_count + 1
                    <==> calls_after[call]->Done_0 is Ok
                &&& after.cancelled_count == before.cancelled_count + 1
                    <==> calls_after[call]->Done_0 is Err
            },
            PoolStep::Closed => ended_count(after) == ended_count(before) && after.call_count
                == before.call_count,
        },
{
    let way = on_their_way(calls_before);
    match step {
        PoolStep::Begun { call } => {
            if before.shutdown {
                assert(on_their_way(calls_after) =~= way);
            } else {
                assert(!way.contains(call));
                assert(on_their_way(calls_after) =~= way.insert(call));
            }
        },
        PoolStep::Moved { call } => {
            assert(way.contains(call));
            if calls_after[call] is Done {
                assert(on_their_way(calls_after) =~= way.remove(call));
            } else {
                assert(on_their_way(calls_after) =~= way);
            }
        },
        PoolStep::Joined { call } => {
            assert(way.contains(call));
            assert(on_their_way(calls_after) =~= way.remove(call));
        },
        PoolStep::Closed => {},
    }
}

proof fn lemma_occurrences(history: Seq<PoolEvent>, event: PoolEvent)
    ensures
        occurrences(history, event) <= history.len(),
    decreases history.len(),
{
    if history.len() > 0 {
        lemma_occurrences(history.drop_last(), event);
    }
}

} // verus!
