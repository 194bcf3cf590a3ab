//! Running blocking operations on threads of their own.

use vstd::prelude::*;

use crate::failure::{ErrorKind, Failure};

verus! {

/// The state of a worker pool.
#[derive(Clone, Copy, Debug, PartialEq, Eq, Structural)]
pub struct WorkerPoolState {
    pub maximum_worker_count: usize,
    /// How many operations were accepted.
    pub call_count: usize,
    /// How many of them ran to their end.
    pub completed_count: usize,
    /// How many of them were cut short.
    pub cancelled_count: usize,
    pub shutdown: bool,
}

/// What a worker pool tells about itself.
#[derive(Clone, Copy, Debug, PartialEq, Eq, Structural)]
pub struct WorkerPoolStatistics {
    pub current_worker_count: usize,
    pub maximum_worker_count: usize,
    pub call_count: usize,
    pub completed_count: usize,
    pub cancelled_count: usize,
    pub shutdown: bool,
    pub current_queue_size: usize,
}

impl Default for WorkerPoolState {
    fn default() -> (state: Self)
        ensures
            state == (WorkerPoolState {
                maximum_worker_count: 0,
                call_count: 0,
                completed_count: 0,
                cancelled_count: 0,
                shutdown: false,
            }),
    {
        WorkerPoolState {
            maximum_worker_count: 0,
            call_count: 0,
            completed_count: 0,
            cancelled_count: 0,
            shutdown: false,
        }
    }
}

/// What happens to a pool between two times that it is made ready for use.
pub enum PoolEvent {
    /// An operation is accepted.
    Accepted,
    /// An operation ran to its end.
    Completed,
    /// An operation was cut short.
    Cancelled,
    /// The pool is shut down.
    Closed,
}

impl WorkerPoolState {
    /// The state of a pool after an event.
    pub open spec fn after(self, event: PoolEvent) -> WorkerPoolState {
        match event {
            PoolEvent::Accepted => WorkerPoolState {
                call_count: (self.call_count + 1) as usize,
                ..self
            },
            PoolEvent::Completed => WorkerPoolState {
                completed_count: (self.completed_count + 1) as usize,
                ..self
            },
            PoolEvent::Cancelled => WorkerPoolState {
                cancelled_count: (self.cancelled_count + 1) as usize,
                ..self
            },
            PoolEvent::Closed => WorkerPoolState { shutdown: true, ..self },
        }
    }

    /// Makes the pool ready for use. A pool has at least one worker, and one
    /// worker unless the caller says otherwise.
    pub fn initialize(&mut self, maximum_worker_count: Option<usize>) -> (outcome: Result<
        (),
        Failure,
    >)
        ensures
            outcome is Err <==> maximum_worker_count == Some(0usize),
            match outcome {
                Ok(_) => *final(self) == (WorkerPoolState {
                    maximum_worker_count: match maximum_worker_count {
                        Some(count) => count,
                        None => 1,
                    },
                    call_count: 0,
                    completed_count: 0,
                    cancelled_count: 0,
                    shutdown: false,
                }),
                Err(failure) => {
                    &&& failure.says(
                        ErrorKind::Argument,
                        "maximum_worker_count must be greater than 0!"@,
                    )
                    &&& *final(self) == *old(self)
                },
            },
    {
        let count: usize = match maximum_worker_count {
            Some(count) => count,
            None => 1,
        };
        if count == 0 {
            return Err(Failure::argument("maximum_worker_count must be greater than 0!"));
        }
        *self = WorkerPoolState {
            maximum_worker_count: count,
            call_count: 0,
            completed_count: 0,
            cancelled_count: 0,
            shutdown: false,
        };
        Ok(())
    }

    /// Shuts the pool down: it accepts no more operations.
    pub fn close(&mut self)
        ensures
            *final(self) == old(self).after(PoolEvent::Closed),
    {
        self.shutdown = true;
    }

    /// What the pool tells about itself. A pool that is shut down has no
    /// workers, and no pool has operations in a queue.
    pub fn statistics(&self) -> (statistics: WorkerPoolStatistics)
        ensures
            statistics == (WorkerPoolStatistics {
                current_worker_count: if self.shutdown {
                    0
                } else {
                    self.maximum_worker_count
                },
                maximum_worker_count: self.maximum_worker_count,
                call_count: self.call_count,
                completed_count: self.completed_count,
                cancelled_count: self.cancelled_count,
                shutdown: self.shutdown,
                current_queue_size: 0,
            }),
    {
        WorkerPoolStatistics {
            current_worker_count: if self.shutdown {
                0
            } else {
                self.maximum_worker_count
            },
            maximum_worker_count: self.maximum_worker_count,
            call_count: self.call_count,
            completed_count: self.completed_count,
            cancelled_count: self.cancelled_count,
            shutdown: self.shutdown,
            current_queue_size: 0,
        }
    }
}

/// Why an operation was not carried out.
pub enum CallError<E> {
    /// The pool refused it.
    Refused(Failure),
    /// An exception was raised.
    Raised(E),
}

/// An operation on its way through a worker pool: what has to be asked or done
/// next. `interruption` is the first exception that was raised in the calling
/// fiber while it waited.
pub enum WorkerCall<E> {
    /// Can the operation be called?
    AskCallable,
    /// Has the calling thread a fiber scheduler?
    AskScheduler,
    /// Start a thread that carries the operation out.
    StartThread,
    /// Has the operation ended?
    AskCompleted { interruption: Option<E> },
    /// Let the scheduler block the calling fiber.
    Block { interruption: Option<E> },
    /// Kill the thread.
    KillThread { first: E },
    /// Wait for the end of the thread.
    JoinThread { interruption: Option<E> },
    /// The call is over.
    Done(Result<bool, CallError<E>>),
}

/// The exception that is remembered after one more wait of the calling fiber,
/// which ended with `outcome`.
pub open spec fn remembered<E>(interruption: Option<E>, outcome: Result<(), E>) -> Option<E> {
    match (interruption, outcome) {
        (None, Err(error)) => Some(error),
        _ => interruption,
    }
}

impl<E> WorkerCall<E> {
    /// The call ends because the pool refuses it, with this failure.
    pub open spec fn refuses(self, kind: ErrorKind, message: Seq<char>) -> bool {
        self matches WorkerCall::Done(Err(CallError::Refused(failure))) && failure.says(
            kind,
            message,
        )
    }

    /// What a call begins with, and how its pool changes.
    pub open spec fn began(before: WorkerPoolState, call: Self, after: WorkerPoolState) -> bool {
        if before.shutdown {
            &&& call.refuses(ErrorKind::Runtime, "Worker pool is shut down!"@)
            &&& after == before
        } else {
            &&& call == WorkerCall::<E>::AskCallable
            &&& after == before.after(PoolEvent::Accepted)
        }
    }

    /// A call goes on from `self` to `after`, without its pool.
    pub open spec fn moves(self, after: Self) -> bool {
        match self {
            WorkerCall::AskCallable => {
                ||| after == WorkerCall::<E>::AskScheduler
                ||| after.refuses(ErrorKind::Argument, "Invalid blocking operation!"@)
                ||| after matches WorkerCall::Done(Err(CallError::Raised(_)))
            },
            WorkerCall::AskScheduler => {
                ||| after == WorkerCall::<E>::StartThread
                ||| after.refuses(ErrorKind::Runtime, "WorkerPool requires a fiber scheduler!"@)
            },
            WorkerCall::StartThread => {
                ||| after == (WorkerCall::<E>::AskCompleted { interruption: None })
                ||| after matches WorkerCall::Done(Err(CallError::Raised(_)))
            },
            WorkerCall::AskCompleted { interruption } => {
                ||| after == (WorkerCall::<E>::Block { interruption })
                ||| after == (WorkerCall::<E>::JoinThread { interruption })
            },
            WorkerCall::Block { interruption } => {
                ||| after == (WorkerCall::<E>::AskCompleted { interruption })
                ||| after matches WorkerCall::KillThread { first } && (interruption is Some
                    ==> interruption == Some(first))
            },
            WorkerCall::KillThread { first } => after == (WorkerCall::<E>::AskCompleted {
                interruption: Some(first),
            }),
            _ => false,
        }
    }

    /// What follows the question whether the operation has ended.
    pub open spec fn after_question(self, completed: bool) -> Self {
        if completed {
            WorkerCall::JoinThread { interruption: self->AskCompleted_interruption }
        } else {
            WorkerCall::Block { interruption: self->AskCompleted_interruption }
        }
    }

    /// What follows a wait of the calling fiber that ended with `outcome`.
    pub open spec fn after_wait(self, outcome: Result<(), E>) -> Self {
        match outcome {
            Ok(_) => WorkerCall::AskCompleted { interruption: self->Block_interruption },
            Err(_) => WorkerCall::KillThread {
                first: remembered(self->Block_interruption, outcome)->0,
            },
        }
    }

    /// What follows once the thread was told to end.
    pub open spec fn after_kill(self) -> Self {
        WorkerCall::AskCompleted { interruption: Some(self->first) }
    }

    /// What a call whose thread has ended ends with, and how its pool changes.
    pub open spec fn ends(
        self,
        before: WorkerPoolState,
        call: Self,
        after: WorkerPoolState,
    ) -> bool {
        match self->JoinThread_interruption {
            Some(error) => {
                &&& call == WorkerCall::<E>::Done(Err(CallError::Raised(error)))
                &&& after == before.after(PoolEvent::Cancelled)
            },
            None => {
                &&& call == WorkerCall::<E>::Done(Ok(true))
                &&& after == before.after(PoolEvent::Completed)
            },
        }
    }

    /// Starts a call. A pool that is not shut down accepts it, and counts it.
    pub fn call(state: &mut WorkerPoolState) -> (call: Self)
        requires
            !old(state).shutdown ==> old(state).call_count < usize::MAX,
        ensures
            Self::began(*old(state), call, *final(state)),
    {
        if state.shutdown {
            return WorkerCall::Done(
                Err(CallError::Refused(Failure::runtime("Worker pool is shut down!"))),
            );
        }
        state.call_count = state.call_count + 1;
        WorkerCall::AskCallable
    }

    /// Goes on from the question whether the operation can be called.
    pub fn callable(self, callable: Result<bool, E>) -> (call: Self)
        requires
            self is AskCallable,
        ensures
            self.moves(call),
            match callable {
                Ok(true) => call == WorkerCall::<E>::AskScheduler,
                Ok(false) => call.refuses(ErrorKind::Argument, "Invalid blocking operation!"@),
                Err(error) => call == WorkerCall::<E>::Done(Err(CallError::Raised(error))),
            },
    {
        match callable {
            Ok(true) => WorkerCall::AskScheduler,
            Ok(false) => WorkerCall::Done(
                Err(CallError::Refused(Failure::argument("Invalid blocking operation!"))),
            ),
            Err(error) => WorkerCall::Done(Err(CallError::Raised(error))),
        }
    }

    /// Goes on from the question for a fiber scheduler.
    pub fn scheduler_found(self, found: bool) -> (call: Self)
        requires
            self is AskScheduler,
        ensures
            self.moves(call),
            if found {
                call == WorkerCall::<E>::StartThread
            } else {
                call.refuses(ErrorKind::Runtime, "WorkerPool requires a fiber scheduler!"@)
            },
    {
        if found {
            WorkerCall::StartThread
        } else {
            WorkerCall::Done(
                Err(CallError::Refused(Failure::runtime("WorkerPool requires a fiber scheduler!"))),
            )
        }
    }

    /// Goes on once the thread runs.
    pub fn thread_started(self, started: Result<(), E>) -> (call: Self)
        requires
            self is StartThread,
        ensures
            self.moves(call),
            call == (match started {
                Ok(_) => WorkerCall::<E>::AskCompleted { interruption: None },
                Err(error) => WorkerCall::<E>::Done(Err(CallError::Raised(error))),
            }),
    {
        match started {
            Ok(_) => WorkerCall::AskCompleted { interruption: None },
            Err(error) => WorkerCall::Done(Err(CallError::Raised(error))),
        }
    }

    /// Goes on from the question whether the operation has ended. The calling
    /// fiber waits until it has.
    pub fn completed(self, completed: bool) -> (call: Self)
        requires
            self is AskCompleted,
        ensures
            self.moves(call),
            call == self.after_question(completed),
    {
        match self {
            WorkerCall::AskCompleted { interruption } => if completed {
                WorkerCall::JoinThread { interruption }
            } else {
                WorkerCall::Block { interruption }
            },
            other => other,
        }
    }

    /// Goes on once the calling fiber runs again. An exception that was raised
    /// in it ends the operation; the first one is remembered.
    pub fn unblocked(self, outcome: Result<(), E>) -> (call: Self)
        requires
            self is Block,
        ensures
            self.moves(call),
            call == self.after_wait(outcome),
    {
        match (self, outcome) {
            (WorkerCall::Block { interruption }, Ok(_)) => WorkerCall::AskCompleted {
                interruption,
            },
            (WorkerCall::Block { interruption: Some(first) }, Err(_)) => WorkerCall::KillThread {
                first,
            },
            (WorkerCall::Block { interruption: None }, Err(error)) => WorkerCall::KillThread {
                first: error,
            },
            (other, _) => other,
        }
    }

    /// Goes on once the thread was told to end, whether or not that worked.
    pub fn killed(self) -> (call: Self)
        requires
            self is KillThread,
        ensures
            self.moves(call),
            call == self.after_kill(),
    {
        match self {
            WorkerCall::KillThread { first } => WorkerCall::AskCompleted {
                interruption: Some(first),
            },
            other => other,
        }
    }

    /// Ends the call once the thread has ended. It counts as cancelled if an
    /// exception was raised in the calling fiber, and as completed otherwise.
    pub fn joined(self, state: &mut WorkerPoolState) -> (call: Self)
        requires
            self is JoinThread,
            match self->JoinThread_interruption {
                Some(_) => old(state).cancelled_count < usize::MAX,
                None => old(state).completed_count < usize::MAX,
            },
        ensures
            self.ends(*old(state), call, *final(state)),
    {
        match self {
            WorkerCall::JoinThread { interruption: Some(error) } => {
                state.cancelled_count = state.cancelled_count + 1;
                WorkerCall::Done(Err(CallError::Raised(error)))
            },
            _ => {
                state.completed_count = state.completed_count + 1;
                WorkerCall::Done(Ok(true))
            },
        }
    }
}

} // verus!
