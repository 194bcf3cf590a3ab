//! Worker pools and busy operations, one call at a time.

use vstd::prelude::*;

use crate::busy::{
    busy_blocking_operation, BusyCall, BusyException, BusyOutcome, BusyReport, BusyResult,
};
use crate::failure::{ErrorKind, Failure};
use crate::worker_pool::{CallError, WorkerCall, WorkerPoolState, WorkerPoolStatistics};

verus! {

/// A pool has as many workers as it was told, and one if it was told nothing; it begins
/// without calls, and open. It is refused if and only if it was told none, and then stays
/// as it was.
pub proof fn law_pool_has_the_workers_it_was_told(
    pool: &mut WorkerPoolState,
    count: Option<usize>,
    outcome: Result<(), Failure>,
    fresh: WorkerPoolState,
)
    requires
        call_ensures(WorkerPoolState::initialize, (pool, count), outcome),
        call_ensures(<WorkerPoolState as Default>::default, (), fresh),
    ensures
        outcome is Err <==> count == Some(0usize),
        outcome is Ok ==> {
            &&& final(pool).maximum_worker_count == match count {
                Some(number) => number,
                None => 1,
            }
            &&& final(pool).call_count == 0
            &&& final(pool).completed_count == 0
            &&& final(pool).cancelled_count == 0
            &&& !final(pool).shutdown
        },
        outcome matches Err(failure) ==> {
            &&& *final(pool) == *old(pool)
            &&& failure.kind == ErrorKind::Argument
            &&& failure.message@ == "maximum_worker_count must be greater than 0!"@
        },
        fresh.maximum_worker_count == 0,
        fresh.call_count == 0,
        fresh.completed_count == 0,
        fresh.cancelled_count == 0,
        !fresh.shutdown,
{
}

/// A pool that is closed is shut down and keeps its counts. What a pool tells about
/// itself is what it counted; it has its workers as long as it is not shut down, and
/// never a queue.
pub proof fn law_statistics_tell_the_state(
    pool: &mut WorkerPoolState,
    statistics: WorkerPoolStatistics,
)
    requires
        call_ensures(WorkerPoolState::statistics, (&*old(pool),), statistics),
        call_ensures(WorkerPoolState::close, (pool,), ()),
    ensures
        final(pool).shutdown,
        final(pool).maximum_worker_count == old(pool).maximum_worker_count,
        final(pool).call_count == old(pool).call_count,
        final(pool).completed_count == old(pool).completed_count,
        final(pool).cancelled_count == old(pool).cancelled_count,
        statistics.current_worker_count == if old(pool).shutdown {
            0
        } else {
            old(pool).maximum_worker_count
        },
        statistics.maximum_worker_count == old(pool).maximum_worker_count,
        statistics.call_count == old(pool).call_count,
        statistics.completed_count == old(pool).completed_count,
        statistics.cancelled_count == old(pool).cancelled_count,
        statistics.shutdown == old(pool).shutdown,
        statistics.current_queue_size == 0,
{
}

/// The call is over because the pool refuses it.
pub open spec fn refused<E>(call: WorkerCall<E>, kind: ErrorKind, message: Seq<char>) -> bool {
    match call {
        WorkerCall::Done(Err(CallError::Refused(failure))) => failure.kind == kind
            && failure.message@ == message,
        _ => false,
    }
}

/// An open pool accepts a call and counts it, and just that; a closed one refuses it and
/// stays as it was. A thread is started if and only if the operation can be called and
/// there is a fiber scheduler.
pub proof fn law_thread_is_started_for_what_can_run<E>(
    pool: &mut WorkerPoolState,
    begun: WorkerCall<E>,
    callable: bool,
    asked: WorkerCall<E>,
    scheduler: bool,
    found: WorkerCall<E>,
    ready: WorkerCall<E>,
)
    requires
        old(pool).shutdown || old(pool).call_count < usize::MAX,
        call_ensures(WorkerCall::<E>::call, (pool,), begun),
        call_ensures(
            WorkerCall::<E>::callable,
            (WorkerCall::<E>::AskCallable, Ok(callable)),
            asked,
        ),
        call_ensures(
            WorkerCall::<E>::scheduler_found,
            (WorkerCall::<E>::AskScheduler, scheduler),
            found,
        ),
        call_ensures(
            WorkerCall::<E>::thread_started,
            (WorkerCall::<E>::StartThread, Ok(())),
            ready,
        ),
    ensures
        old(pool).shutdown ==> {
            &&& refused(begun, ErrorKind::Runtime, "Worker pool is shut down!"@)
            &&& *final(pool) == *old(pool)
        },
        !old(pool).shutdown ==> {
            &&& begun is AskCallable
            &&& final(pool).call_count == old(pool).call_count + 1
            &&& final(pool).completed_count == old(pool).completed_count
            &&& final(pool).cancelled_count == old(pool).cancelled_count
            &&& final(pool).maximum_worker_count == old(pool).maximum_worker_count
            &&& !final(pool).shutdown
        },
        callable ==> asked is AskScheduler,
        !callable ==> refused(asked, ErrorKind::Argument, "Invalid blocking operation!"@),
        scheduler ==> found is StartThread,
        !scheduler ==> refused(
            found,
            ErrorKind::Runtime,
            "WorkerPool requires a fiber scheduler!"@,
        ),
        ready == (WorkerCall::<E>::AskCompleted { interruption: None }),
{
}

/// The calling fiber waits as long as the operation has not ended. An exception raised in
/// it meanwhile has the thread killed, and is remembered unless an earlier one is.
pub proof fn law_call_waits_for_its_operation<E>(
    interruption: Option<E>,
    completed: bool,
    asked: WorkerCall<E>,
    outcome: Result<(), E>,
    woken: WorkerCall<E>,
    first: E,
    killed: WorkerCall<E>,
)
    requires
        call_ensures(
            WorkerCall::<E>::completed,
            (WorkerCall::<E>::AskCompleted { interruption }, completed),
            asked,
        ),
        call_ensures(
            WorkerCall::<E>::unblocked,
            (WorkerCall::<E>::Block { interruption }, outcome),
            woken,
        ),
        call_ensures(WorkerCall::<E>::killed, (WorkerCall::<E>::KillThread { first },), killed),
    ensures
        completed ==> asked == (WorkerCall::<E>::JoinThread { interruption }),
        !completed ==> asked == (WorkerCall::<E>::Block { interruption }),
        outcome is Ok ==> woken == (WorkerCall::<E>::AskCompleted { interruption }),
        outcome matches Err(error) ==> woken == (WorkerCall::<E>::KillThread {
            first: match interruption {
                Some(earlier) => earlier,
                None => error,
            },
        }),
        killed == (WorkerCall::<E>::AskCompleted { interruption: Some(first) }),
{
}

/// A call ends with the exception that it remembers, and counts as cancelled; without one
/// it ends well, and counts as completed. No other count changes.
pub proof fn law_call_ends_with_what_it_remembers<E>(
    pool: &mut WorkerPoolState,
    interruption: Option<E>,
    end: WorkerCall<E>,
)
    requires
        match interruption {
            Some(_) => old(pool).cancelled_count < usize::MAX,
            None => old(pool).completed_count < usize::MAX,
        },
        call_ensures(
            WorkerCall::<E>::joined,
            (WorkerCall::<E>::JoinThread { interruption }, pool),
            end,
        ),
    ensures
        interruption matches Some(error) ==> {
            &&& end == WorkerCall::<E>::Done(Err(CallError::Raised(error)))
            &&& final(pool).cancelled_count == old(pool).cancelled_count + 1
            &&& final(pool).completed_count == old(pool).completed_count
        },
        interruption is None ==> {
            &&& end == WorkerCall::<E>::Done(Ok(true))
            &&& final(pool).cancelled_count == old(pool).cancelled_count
            &&& final(pool).completed_count == old(pool).completed_count + 1
        },
        final(pool).call_count == old(pool).call_count,
        final(pool).maximum_worker_count == old(pool).maximum_worker_count,
        final(pool).shutdown == old(pool).shutdown,
{
}

/// An exception before the thread runs is what the call ends with.
pub proof fn law_call_passes_exceptions_on<E>(
    error: E,
    asked: WorkerCall<E>,
    started: WorkerCall<E>,
)
    requires
        call_ensures(
            WorkerCall::<E>::callable,
            (WorkerCall::<E>::AskCallable, Err(error)),
            asked,
        ),
        call_ensures(
            WorkerCall::<E>::thread_started,
            (WorkerCall::<E>::StartThread, Err(error)),
            started,
        ),
    ensures
        asked == WorkerCall::<E>::Done(Err(CallError::Raised(error))),
        started == WorkerCall::<E>::Done(Err(CallError::Raised(error))),
{
}

/// The wait of a busy operation was cut short if and only if its pipe could be read;
/// it ran its time if and only if the system reports nothing; anything else is an error.
pub proof fn law_busy_wait_ends_in_one_of_three_ways(
    result: i32,
    readable: bool,
    outcome: BusyOutcome,
)
    requires
        call_ensures(busy_blocking_operation, (result, readable), outcome),
    ensures
        outcome.cancelled <==> result > 0 && readable,
        outcome.operation_result == -1 <==> result > 0 && readable,
        outcome.operation_result == 0 <==> result == 0,
        outcome.operation_result == -2 <==> !(result > 0 && readable) && result != 0,
{
}

/// A busy operation needs a pipe. With a fiber scheduler it runs on a thread, and without
/// one here; here nothing can interrupt it.
pub proof fn law_busy_operation_runs_somewhere<V: Copy, E>(
    start: BusyCall<V, E>,
    result: i32,
    piped: BusyCall<V, E>,
    scheduler: bool,
    found: BusyCall<V, E>,
    here: BusyCall<V, E>,
    started: Result<(), E>,
    running: BusyCall<V, E>,
)
    requires
        call_ensures(BusyCall::<V, E>::worker_pool_busy_unix, (), start),
        call_ensures(BusyCall::<V, E>::pipe_opened, (start, result), piped),
        call_ensures(
            BusyCall::<V, E>::scheduler_found,
            (BusyCall::<V, E>::AskScheduler, scheduler),
            found,
        ),
        call_ensures(BusyCall::<V, E>::ran, (BusyCall::<V, E>::RunHere,), here),
        call_ensures(
            BusyCall::<V, E>::thread_started,
            (BusyCall::<V, E>::StartThread, started),
            running,
        ),
    ensures
        start is OpenPipe,
        result == 0 ==> piped is AskScheduler,
        result != 0 ==> match piped {
            BusyCall::Failed(failure) => failure.kind == ErrorKind::SystemCall
                && failure.message@ == "IO_Event_WorkerPool_busy:pipe"@,
            _ => false,
        },
        scheduler ==> found is StartThread,
        !scheduler ==> found is RunHere,
        here == (BusyCall::<V, E>::Report { interrupted: false, exception: None }),
        started is Ok ==> running == (BusyCall::<V, E>::AskCompleted {
            interrupted: false,
            exception: None,
        }),
        started matches Err(error) ==> running == BusyCall::<V, E>::Raised(error),
{
}

/// The calling fiber waits as long as the busy operation has not ended. An exception
/// raised in it meanwhile interrupts the operation, and is remembered unless an earlier
/// one is. What is remembered when the thread ends is what is reported.
pub proof fn law_busy_operation_remembers_its_interruption<V: Copy, E>(
    interrupted: bool,
    exception: Option<V>,
    completed: bool,
    asked: BusyCall<V, E>,
    raised: bool,
    woken: BusyCall<V, E>,
    found: Option<V>,
    cut: BusyCall<V, E>,
    joined: BusyCall<V, E>,
)
    requires
        call_ensures(
            BusyCall::<V, E>::completed,
            (BusyCall::<V, E>::AskCompleted { interrupted, exception }, completed),
            asked,
        ),
        call_ensures(
            BusyCall::<V, E>::unblocked,
            (BusyCall::<V, E>::Block { interrupted, exception }, raised),
            woken,
        ),
        call_ensures(
            BusyCall::<V, E>::interrupted,
            (BusyCall::<V, E>::Interrupt { exception }, found),
            cut,
        ),
        call_ensures(
            BusyCall::<V, E>::joined,
            (BusyCall::<V, E>::JoinThread { interrupted, exception },),
            joined,
        ),
    ensures
        completed ==> asked == (BusyCall::<V, E>::JoinThread { interrupted, exception }),
        !completed ==> asked == (BusyCall::<V, E>::Block { interrupted, exception }),
        raised ==> woken == (BusyCall::<V, E>::Interrupt { exception }),
        !raised ==> woken == (BusyCall::<V, E>::AskCompleted { interrupted, exception }),
        cut == (BusyCall::<V, E>::AskCompleted {
            interrupted: true,
            exception: if exception is Some {
                exception
            } else {
                found
            },
        }),
        joined == (BusyCall::<V, E>::Report { interrupted, exception }),
{
}

/// A busy operation that was interrupted is reported as cancelled, with the exception that
/// is remembered, or one that says so. Otherwise it is reported as cancelled if its wait
/// was cut short, as completed if it ran its time, and as an error if it did neither; and
/// without an exception.
pub proof fn law_busy_report_says_how_it_ended<V: Copy, E>(
    interrupted: bool,
    exception: Option<V>,
    outcome: BusyOutcome,
    report: BusyReport<V>,
    name: &'static str,
)
    requires
        call_ensures(
            BusyCall::<V, E>::report,
            (BusyCall::<V, E>::Report { interrupted, exception }, outcome),
            report,
        ),
        call_ensures(BusyResult::name, (&report.result,), name),
    ensures
        ({
            let cut = outcome.operation_result == -1 || outcome.cancelled;
            &&& interrupted ==> name@ == "exception"@
            &&& !interrupted && cut ==> name@ == "cancelled"@
            &&& !interrupted && !cut && outcome.operation_result == 0 ==> name@ == "completed"@
            &&& !interrupted && !cut && outcome.operation_result != 0 ==> name@ == "error"@
            &&& report.cancelled <==> interrupted || cut
            &&& interrupted ==> match exception {
                Some(given) => report.exception == BusyException::Given(given),
                None => report.exception is Interrupted,
            }
            &&& !interrupted ==> report.exception is Absent
        }),
{
}

/// Each way to end is reported under a name of its own.
pub proof fn law_results_have_names_of_their_own(
    exception: &'static str,
    cancelled: &'static str,
    completed: &'static str,
    error: &'static str,
)
    requires
        call_ensures(BusyResult::name, (&BusyResult::Exception,), exception),
        call_ensures(BusyResult::name, (&BusyResult::Cancelled,), cancelled),
        call_ensures(BusyResult::name, (&BusyResult::Completed,), completed),
        call_ensures(BusyResult::name, (&BusyResult::Error,), error),
    ensures
        exception@ == "exception"@,
        cancelled@ == "cancelled"@,
        completed@ == "completed"@,
        error@ == "error"@,
{
}

} // verus!
