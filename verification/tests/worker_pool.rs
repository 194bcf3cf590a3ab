use io_event::busy::{
    busy_blocking_operation, BusyCall, BusyException, BusyOutcome, BusyResult,
};
use io_event::failure::{ErrorKind, Failure};
use io_event::worker_pool::{CallError, WorkerCall, WorkerPoolState, WorkerPoolStatistics};

type Call = WorkerCall<&'static str>;

fn new_pool() -> WorkerPoolState {
    let mut state = WorkerPoolState::default();
    assert!(state.initialize(None).is_ok());
    state
}

fn refusal(call: Call) -> Failure {
    match call {
        WorkerCall::Done(Err(CallError::Refused(failure))) => failure,
        _ => panic!("the pool refuses"),
    }
}

#[test]
fn pool_has_at_least_one_worker() {
    let mut state = WorkerPoolState::default();
    assert_eq!(state.maximum_worker_count, 0);
    assert!(state.initialize(None).is_ok());
    assert_eq!(state.maximum_worker_count, 1);
    state.call_count = 5;
    state.shutdown = true;
    match state.initialize(Some(0)) {
        Ok(()) => panic!("a pool needs workers"),
        Err(failure) => {
            assert_eq!(failure.kind, ErrorKind::Argument);
            assert_eq!(failure.message, "maximum_worker_count must be greater than 0!");
        }
    }
    assert_eq!((state.call_count, state.shutdown), (5, true));
    assert!(state.initialize(Some(4)).is_ok());
    assert_eq!(
        state,
        WorkerPoolState {
            maximum_worker_count: 4,
            call_count: 0,
            completed_count: 0,
            cancelled_count: 0,
            shutdown: false
        }
    );
}

#[test]
fn completed_call_is_counted() {
    let mut state = new_pool();
    let call: Call = WorkerCall::call(&mut state);
    assert!(matches!(call, WorkerCall::AskCallable));
    assert_eq!(state.call_count, 1);
    let call = call.callable(Ok(true));
    assert!(matches!(call, WorkerCall::AskScheduler));
    let call = call.scheduler_found(true);
    assert!(matches!(call, WorkerCall::StartThread));
    let call = call.thread_started(Ok(()));
    assert!(matches!(call, WorkerCall::AskCompleted { interruption: None }));
    let call = call.completed(false);
    assert!(matches!(call, WorkerCall::Block { interruption: None }));
    let call = call.unblocked(Ok(())).completed(true);
    assert!(matches!(call, WorkerCall::JoinThread { interruption: None }));
    assert!(matches!(call.joined(&mut state), WorkerCall::Done(Ok(true))));
    assert_eq!((state.completed_count, state.cancelled_count), (1, 0));
}

#[test]
fn first_exception_is_remembered() {
    let mut state = new_pool();
    let call: Call = WorkerCall::AskCompleted { interruption: None };
    let call = call.completed(false).unblocked(Err("first"));
    assert!(matches!(call, WorkerCall::KillThread { first: "first" }));
    let call = call.killed();
    assert!(matches!(call, WorkerCall::AskCompleted { interruption: Some("first") }));
    let call = call.completed(false).unblocked(Err("second"));
    assert!(matches!(call, WorkerCall::KillThread { first: "first" }));
    let call = call.killed().completed(false).unblocked(Ok(())).completed(true);
    assert!(matches!(call, WorkerCall::JoinThread { interruption: Some("first") }));
    let call = call.joined(&mut state);
    assert!(matches!(call, WorkerCall::Done(Err(CallError::Raised("first")))));
    assert_eq!((state.completed_count, state.cancelled_count), (0, 1));
}

#[test]
fn closed_pool_refuses_calls() {
    let mut state = new_pool();
    state.close();
    let failure = refusal(WorkerCall::call(&mut state));
    assert_eq!(failure.kind, ErrorKind::Runtime);
    assert_eq!(failure.message, "Worker pool is shut down!");
    assert_eq!(state.call_count, 0);
    state.close();
    assert!(state.shutdown);
}

#[test]
fn call_needs_an_operation_and_a_scheduler() {
    let mut state = new_pool();
    let call: Call = WorkerCall::call(&mut state);
    let failure = refusal(call.callable(Ok(false)));
    assert_eq!(failure.kind, ErrorKind::Argument);
    assert_eq!(failure.message, "Invalid blocking operation!");
    let call: Call = WorkerCall::call(&mut state);
    let failure = refusal(call.callable(Ok(true)).scheduler_found(false));
    assert_eq!(failure.kind, ErrorKind::Runtime);
    assert_eq!(failure.message, "WorkerPool requires a fiber scheduler!");
    assert_eq!(state.call_count, 2);
    let raised = |call: Call| matches!(call, WorkerCall::Done(Err(CallError::Raised("bad"))));
    assert!(raised(Call::AskCallable.callable(Err("bad"))));
    assert!(raised(Call::StartThread.thread_started(Err("bad"))));
}

#[test]
fn statistics_show_the_state() {
    let mut state = new_pool();
    assert!(state.initialize(Some(3)).is_ok());
    let _call: Call = WorkerCall::call(&mut state);
    let expected = WorkerPoolStatistics {
        current_worker_count: 3,
        maximum_worker_count: 3,
        call_count: 1,
        completed_count: 0,
        cancelled_count: 0,
        shutdown: false,
        current_queue_size: 0,
    };
    assert_eq!(state.statistics(), expected);
    state.close();
    let expected = WorkerPoolStatistics { current_worker_count: 0, shutdown: true, ..expected };
    assert_eq!(state.statistics(), expected);
}

#[test]
fn pool_counts_what_happened() {
    let mut state = new_pool();
    for _ in 0..3 {
        let _call: Call = WorkerCall::call(&mut state);
    }
    let completed: Call = WorkerCall::JoinThread { interruption: None };
    completed.joined(&mut state);
    let cancelled: Call = WorkerCall::JoinThread { interruption: Some("raised") };
    cancelled.joined(&mut state);
    state.close();
    assert_eq!((state.call_count, state.completed_count, state.cancelled_count), (3, 1, 1));
    assert!(state.shutdown);
}

#[test]
fn busy_wait_ends_in_one_of_three_ways() {
    let outcome = |operation_result, cancelled| BusyOutcome { operation_result, cancelled };
    assert_eq!(busy_blocking_operation(1, true), outcome(-1, true));
    assert_eq!(busy_blocking_operation(0, false), outcome(0, false));
    assert_eq!(busy_blocking_operation(-1, false), outcome(-2, false));
    assert_eq!(busy_blocking_operation(1, false), outcome(-2, false));
}

type Busy = BusyCall<u64, &'static str>;

#[test]
fn busy_operation_runs_here_without_a_scheduler() {
    let call: Busy = BusyCall::worker_pool_busy_unix();
    let call = call.pipe_opened(0).scheduler_found(false);
    assert!(matches!(call, BusyCall::RunHere));
    let call = call.ran();
    assert!(matches!(call, BusyCall::Report { interrupted: false, exception: None }));
    let report = call.report(BusyOutcome { operation_result: 0, cancelled: false });
    assert_eq!(report.result, BusyResult::Completed);
    assert!(!report.cancelled);
    assert!(matches!(report.exception, BusyException::Absent));
}

#[test]
fn busy_operation_runs_on_a_thread_with_a_scheduler() {
    let call: Busy = BusyCall::worker_pool_busy_unix();
    let call = call.pipe_opened(0).scheduler_found(true).thread_started(Ok(()));
    let call = call.completed(false).unblocked(false).completed(true).joined();
    assert!(matches!(call, BusyCall::Report { interrupted: false, exception: None }));
    let report = call.report(BusyOutcome { operation_result: 0, cancelled: true });
    assert_eq!((report.result, report.cancelled), (BusyResult::Cancelled, true));
}

#[test]
fn busy_operation_reports_the_first_exception() {
    let call: Busy = BusyCall::AskCompleted { interrupted: false, exception: None };
    let call = call.completed(false).unblocked(true);
    assert!(matches!(call, BusyCall::Interrupt { exception: None }));
    let call = call.interrupted(Some(5)).completed(false).unblocked(true);
    assert!(matches!(call, BusyCall::Interrupt { exception: Some(5) }));
    let call = call.interrupted(Some(6)).completed(true).joined();
    let report = call.report(BusyOutcome { operation_result: -1, cancelled: true });
    assert_eq!((report.result, report.cancelled), (BusyResult::Exception, true));
    assert!(matches!(report.exception, BusyException::Given(5)));
    let call: Busy = BusyCall::Interrupt { exception: None };
    let call = call.interrupted(None).completed(true).joined();
    let report = call.report(BusyOutcome { operation_result: 0, cancelled: false });
    assert_eq!(report.result, BusyResult::Exception);
    assert!(matches!(report.exception, BusyException::Interrupted));
}

#[test]
fn busy_operation_may_fail() {
    let call: Busy = BusyCall::worker_pool_busy_unix();
    match call.pipe_opened(-1) {
        BusyCall::Failed(failure) => {
            assert_eq!(failure.kind, ErrorKind::SystemCall);
            assert_eq!(failure.message, "IO_Event_WorkerPool_busy:pipe");
        }
        _ => panic!("there is no pipe"),
    }
    let call: Busy = BusyCall::StartThread;
    assert!(matches!(call.thread_started(Err("bad")), BusyCall::Raised("bad")));
    let call: Busy = BusyCall::Report { interrupted: false, exception: None };
    let report = call.report(BusyOutcome { operation_result: -2, cancelled: false });
    assert_eq!((report.result, report.cancelled), (BusyResult::Error, false));
    let call: Busy = BusyCall::Report { interrupted: false, exception: None };
    let report = call.report(BusyOutcome { operation_result: -1, cancelled: false });
    assert_eq!((report.result, report.cancelled), (BusyResult::Cancelled, true));
}

#[test]
fn busy_results_have_names() {
    assert_eq!(BusyResult::Exception.name(), "exception");
    assert_eq!(BusyResult::Cancelled.name(), "cancelled");
    assert_eq!(BusyResult::Completed.name(), "completed");
    assert_eq!(BusyResult::Error.name(), "error");
}

#[test]
fn overlapping_calls_are_counted_once() {
    let mut state = new_pool();
    let first: Call = WorkerCall::call(&mut state);
    let second: Call = WorkerCall::call(&mut state);
    let third: Call = WorkerCall::call(&mut state);
    assert_eq!(refusal(third.callable(Ok(false))).kind, ErrorKind::Argument);
    let first = first.callable(Ok(true)).scheduler_found(true).thread_started(Ok(()));
    let second = second.callable(Ok(true)).scheduler_found(true).thread_started(Ok(()));
    let second = second.completed(false).unblocked(Err("raised")).killed().completed(true);
    assert!(matches!(second.joined(&mut state), WorkerCall::Done(Err(_))));
    assert_eq!((state.call_count, state.completed_count, state.cancelled_count), (3, 0, 1));
    state.close();
    let first = first.completed(true);
    assert!(matches!(first.joined(&mut state), WorkerCall::Done(Ok(true))));
    assert_eq!((state.call_count, state.completed_count, state.cancelled_count), (3, 1, 1));
}
