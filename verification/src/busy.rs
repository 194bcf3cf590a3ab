//! A blocking operation that only waits, for trying out a worker pool.

use vstd::prelude::*;

use crate::failure::{ErrorKind, Failure};

verus! {

/// How the wait of a busy operation ended.
#[derive(Clone, Copy, Debug, PartialEq, Eq, Structural)]
pub struct BusyOutcome {
    /// 0 where the time ran out, -1 where the wait was cut short, -2 where the
    /// system refused it.
    pub operation_result: i32,
    pub cancelled: bool,
}

/// How the wait of a busy operation ended: the system answered `result`, and
/// `readable` where the pipe that cuts the wait short could be read.
pub fn busy_blocking_operation(result: i32, readable: bool) -> (outcome: BusyOutcome)
    ensures
        outcome == (if result > 0 && readable {
            BusyOutcome { operation_result: -1i32, cancelled: true }
        } else if result == 0 {
            BusyOutcome { operation_result: 0, cancelled: false }
        } else {
            BusyOutcome { operation_result: -2i32, cancelled: false }
        }),
{
    if result > 0 && readable {
        BusyOutcome { operation_result: -1, cancelled: true }
    } else if result == 0 {
        BusyOutcome { operation_result: 0, cancelled: false }
    } else {
        BusyOutcome { operation_result: -2, cancelled: false }
    }
}

/// In a word, how a busy operation ended.
#[derive(Clone, Copy, Debug, PartialEq, Eq, Structural)]
pub enum BusyResult {
    Exception,
    Cancelled,
    Completed,
    Error,
}

impl BusyResult {
    pub open spec fn spec_name(self) -> Seq<char> {
        match self {
            BusyResult::Exception => "exception"@,
            BusyResult::Cancelled => "cancelled"@,
            BusyResult::Completed => "completed"@,
            BusyResult::Error => "error"@,
        }
    }

    /// The name under which the result is reported.
    pub fn name(&self) -> (name: &'static str)
        ensures
            name@ == self.spec_name(),
    {
        match self {
            BusyResult::Exception => "exception",
            BusyResult::Cancelled => "cancelled",
            BusyResult::Completed => "completed",
            BusyResult::Error => "error",
        }
    }
}

/// The exception to report.
#[derive(Debug)]
pub enum BusyException<V> {
    /// None.
    Absent,
    /// This one.
    Given(V),
    /// One that says that the operation was interrupted.
    Interrupted,
}

/// What is reported of a busy operation.
#[derive(Debug)]
pub struct BusyReport<V> {
    pub result: BusyResult,
    pub cancelled: bool,
    pub exception: BusyException<V>,
}

/// The exception that is remembered after one more interruption, for which
/// `found` was found.
pub open spec fn first_found<V>(exception: Option<V>, found: Option<V>) -> Option<V> {
    match exception {
        Some(first) => Some(first),
        None => found,
    }
}

/// A busy operation on its way: what has to be asked or done next. `V` is an
/// exception held by its handle, `E` is one that is raised.
pub enum BusyCall<V, E> {
    /// Open the pipe that cuts the wait short.
    OpenPipe,
    /// Has the calling thread a fiber scheduler?
    AskScheduler,
    /// Carry the operation out on the calling thread.
    RunHere,
    /// Start a thread that carries the operation out.
    StartThread,
    /// Has the operation ended?
    AskCompleted { interrupted: bool, exception: Option<V> },
    /// Let the scheduler block the calling fiber.
    Block { interrupted: bool, exception: Option<V> },
    /// Look up the exception that was raised in the calling fiber, unless one is
    /// known; cut the wait short; and clear the exception.
    Interrupt { exception: Option<V> },
    /// Wait for the end of the thread.
    JoinThread { interrupted: bool, exception: Option<V> },
    /// Close the pipe and report.
    Report { interrupted: bool, exception: Option<V> },
    /// The operation could not be started.
    Failed(Failure),
    /// An exception was raised before the operation was started.
    Raised(E),
}

impl<V: Copy, E> BusyCall<V, E> {
    /// What follows the question whether the operation has ended.
    pub open spec fn after_question(self, completed: bool) -> Self {
        if completed {
            BusyCall::JoinThread {
                interrupted: self->AskCompleted_interrupted,
                exception: self->AskCompleted_exception,
            }
        } else {
            BusyCall::Block {
                interrupted: self->AskCompleted_interrupted,
                exception: self->AskCompleted_exception,
            }
        }
    }

    /// What follows a wait of the calling fiber, in which an exception was raised
    /// or not.
    pub open spec fn after_wait(self, raised: bool) -> Self {
        if raised {
            BusyCall::Interrupt { exception: self->Block_exception }
        } else {
            BusyCall::AskCompleted {
                interrupted: self->Block_interrupted,
                exception: self->Block_exception,
            }
        }
    }

    /// What follows an interruption for which `found` was found.
    pub open spec fn after_interruption(self, found: Option<V>) -> Self {
        BusyCall::AskCompleted {
            interrupted: true,
            exception: first_found(self->Interrupt_exception, found),
        }
    }

    /// What follows the end of the thread.
    pub open spec fn after_join(self) -> Self {
        BusyCall::Report {
            interrupted: self->JoinThread_interrupted,
            exception: self->JoinThread_exception,
        }
    }

    /// What is reported of an operation whose wait ended with `outcome`.
    pub open spec fn reported(self, outcome: BusyOutcome) -> BusyReport<V> {
        if self->Report_interrupted {
            BusyReport {
                result: BusyResult::Exception,
                cancelled: true,
                exception: match self->Report_exception {
                    Some(exception) => BusyException::Given(exception),
                    None => BusyException::Interrupted,
                },
            }
        } else if outcome.operation_result == -1 || outcome.cancelled {
            BusyReport {
                result: BusyResult::Cancelled,
                cancelled: true,
                exception: BusyException::Absent,
            }
        } else if outcome.operation_result == 0 {
            BusyReport {
                result: BusyResult::Completed,
                cancelled: false,
                exception: BusyException::Absent,
            }
        } else {
            BusyReport {
                result: BusyResult::Error,
                cancelled: false,
                exception: BusyException::Absent,
            }
        }
    }

    /// Starts a busy operation.
    pub fn worker_pool_busy_unix() -> (call: Self)
        ensures
            call == BusyCall::<V, E>::OpenPipe,
    {
        BusyCall::OpenPipe
    }

    /// Goes on once the system has answered `result` to opening a pipe.
    pub fn pipe_opened(self, result: i32) -> (call: Self)
        requires
            self is OpenPipe,
        ensures
            if result != 0 {
                call matches BusyCall::Failed(failure) && failure.says(
                    ErrorKind::SystemCall,
                    "IO_Event_WorkerPool_busy:pipe"@,
                )
            } else {
                call == BusyCall::<V, E>::AskScheduler
            },
    {
        if result != 0 {
            BusyCall::Failed(Failure::system_call("IO_Event_WorkerPool_busy:pipe"))
        } else {
            BusyCall::AskScheduler
        }
    }

    /// Goes on from the question for a fiber scheduler. Without one nobody else
    /// could run meanwhile.
    pub fn scheduler_found(self, found: bool) -> (call: Self)
        requires
            self is AskScheduler,
        ensures
            call == (if found {
                BusyCall::<V, E>::StartThread
            } else {
                BusyCall::<V, E>::RunHere
            }),
    {
        if found {
            BusyCall::StartThread
        } else {
            BusyCall::RunHere
        }
    }

    /// Goes on once the operation has ended on the calling thread.
    pub fn ran(self) -> (call: Self)
        requires
            self is RunHere,
        ensures
            call == (BusyCall::<V, E>::Report { interrupted: false, exception: None }),
    {
        BusyCall::Report { interrupted: false, exception: None }
    }

    /// Goes on once the thread runs.
    pub fn thread_started(self, started: Result<(), E>) -> (call: Self)
        requires
            self is StartThread,
        ensures
            call == (match started {
                Ok(_) => BusyCall::<V, E>::AskCompleted { interrupted: false, exception: None },
                Err(error) => BusyCall::<V, E>::Raised(error),
            }),
    {
        match started {
            Ok(_) => BusyCall::AskCompleted { interrupted: false, exception: None },
            Err(error) => BusyCall::Raised(error),
        }
    }

    /// Goes on from the question whether the operation has ended. The calling
    /// fiber waits until it has.
    pub fn completed(self, completed: bool) -> (call: Self)
        requires
            self is AskCompleted,
        ensures
            call == self.after_question(completed),
    {
        match self {
            BusyCall::AskCompleted { interrupted, exception } => if completed {
                BusyCall::JoinThread { interrupted, exception }
            } else {
                BusyCall::Block { interrupted, exception }
            },
            other => other,
        }
    }

    /// Goes on once the calling fiber runs again. An exception that was raised
    /// in it cuts the wait short.
    pub fn unblocked(self, raised: bool) -> (call: Self)
        requires
            self is Block,
        ensures
            call == self.after_wait(raised),
    {
        match self {
            BusyCall::Block { interrupted, exception } => if raised {
                BusyCall::Interrupt { exception }
            } else {
                BusyCall::AskCompleted { interrupted, exception }
            },
            other => other,
        }
    }

    /// Goes on once the wait was cut short. `found` is the exception that was
    /// raised in the calling fiber, if one was found; the first one is
    /// remembered.
    pub fn interrupted(self, found: Option<V>) -> (call: Self)
        requires
            self is Interrupt,
        ensures
            call == self.after_interruption(found),
    {
        match self {
            BusyCall::Interrupt { exception } => BusyCall::AskCompleted {
                interrupted: true,
                exception: match exception {
                    Some(first) => Some(first),
                    None => found,
                },
            },
            other => other,
        }
    }

    /// Goes on once the thread has ended.
    pub fn joined(self) -> (call: Self)
        requires
            self is JoinThread,
        ensures
            call == self.after_join(),
    {
        match self {
            BusyCall::JoinThread { interrupted, exception } => BusyCall::Report {
                interrupted,
                exception,
            },
            other => other,
        }
    }

    /// What is reported of the operation, whose wait ended with `outcome`. An
    /// interruption is reported before anything else, and a wait that was cut
    /// short before one that ended in time.
    pub fn report(self, outcome: BusyOutcome) -> (report: BusyReport<V>)
        requires
            self is Report,
        ensures
            report == self.reported(outcome),
    {
        if let BusyCall::Report { interrupted: true, exception } = self {
            return BusyReport {
                result: BusyResult::Exception,
                cancelled: true,
                exception: match exception {
                    Some(exception) => BusyException::Given(exception),
                    None => BusyException::Interrupted,
                },
            };
        }
        if outcome.operation_result == -1 || outcome.cancelled {
            BusyReport {
                result: BusyResult::Cancelled,
                cancelled: true,
                exception: BusyException::Absent,
            }
        } else if outcome.operation_result == 0 {
            BusyReport {
                result: BusyResult::Completed,
                cancelled: false,
                exception: BusyException::Absent,
            }
        } else {
            BusyReport {
                result: BusyResult::Error,
                cancelled: false,
                exception: BusyException::Absent,
            }
        }
    }
}

} // verus!
