//! One turn of the event loop.

use vstd::prelude::*;

use crate::event::Descriptor;
use crate::selector::{IdleDuration, SelectorCore};

verus! {

/// A turn of the event loop on its way: what has to be done next. `E` is an
/// exception raised on the way.
pub enum SelectCall<E> {
    /// Wake the fibers that are ready.
    FlushReady,
    /// Wake the fibers whose processes have changed state.
    CheckProcesses { flushed: usize },
    /// Read how long the caller is prepared to wait.
    ReadTimeout,
    /// Wait for descriptors, at most `timeout` milliseconds, or for ever; if
    /// `timed`, measure for how long.
    Poll { timeout: Option<i32>, timed: bool },
    /// Wake the fibers that these events concern.
    Dispatch { events: Vec<(Descriptor, i32)> },
    /// Once more wake the fibers whose processes have changed state.
    RecheckProcesses { dispatched: usize },
    /// The turn is over; this many fibers were woken because of an event.
    Done(Result<i64, E>),
}

/// Waiting this long takes time.
pub open spec fn takes_time(timeout: Option<i32>) -> bool {
    match timeout {
        Some(milliseconds) => milliseconds > 0,
        None => true,
    }
}

impl<E> SelectCall<E> {
    /// Starts a turn of the event loop. It has not waited yet.
    pub fn selector_select<V: Copy>(core: &mut SelectorCore<V>) -> (call: Self)
        ensures
            call == SelectCall::<E>::FlushReady,
            *final(core) == (SelectorCore {
                idle_duration: IdleDuration { seconds: 0, nanoseconds: 0 },
                ..*old(core)
            }),
    {
        core.idle_duration = IdleDuration { seconds: 0, nanoseconds: 0 };
        SelectCall::FlushReady
    }

    /// Goes on once `count` ready fibers have been woken.
    pub fn flushed(self, count: Result<usize, E>) -> (call: Self)
        requires
            self is FlushReady,
        ensures
            call == (match count {
                Ok(count) => SelectCall::<E>::CheckProcesses { flushed: count },
                Err(error) => SelectCall::<E>::Done(Err(error)),
            }),
    {
        match count {
            Ok(count) => SelectCall::CheckProcesses { flushed: count },
            Err(error) => SelectCall::Done(Err(error)),
        }
    }

    /// Goes on once `count` fibers have been woken for their processes. If there
    /// were any, the turn is over. If other fibers were woken or have become
    /// ready, there is no time to wait.
    pub fn checked<V: Copy>(self, core: &SelectorCore<V>, count: Result<usize, E>) -> (call: Self)
        requires
            self is CheckProcesses,
        ensures
            call == (match count {
                Ok(count) => if count > 0 {
                    SelectCall::<E>::Done(Ok(count as i64))
                } else if self->flushed > 0 || core.ready@.len() > 0 {
                    SelectCall::<E>::Poll { timeout: Some(0), timed: false }
                } else {
                    SelectCall::<E>::ReadTimeout
                },
                Err(error) => SelectCall::<E>::Done(Err(error)),
            }),
    {
        match (self, count) {
            (SelectCall::CheckProcesses { flushed }, Ok(count)) => {
                if count > 0 {
                    SelectCall::Done(Ok(#[verifier::truncate] (count as i64)))
                } else if flushed > 0 || core.ready_p() {
                    SelectCall::Poll { timeout: Some(0), timed: false }
                } else {
                    SelectCall::ReadTimeout
                }
            },
            (other, Ok(_)) => other,
            (_, Err(error)) => SelectCall::Done(Err(error)),
        }
    }

    /// Goes on with the time that the caller is prepared to wait.
    pub fn timeout_read(self, timeout: Result<Option<i32>, E>) -> (call: Self)
        requires
            self is ReadTimeout,
        ensures
            call == (match timeout {
                Ok(timeout) => SelectCall::<E>::Poll { timeout, timed: takes_time(timeout) },
                Err(error) => SelectCall::<E>::Done(Err(error)),
            }),
    {
        match timeout {
            Ok(timeout) => SelectCall::Poll {
                timeout,
                timed: match timeout {
                    Some(milliseconds) => milliseconds > 0,
                    None => true,
                },
            },
            Err(error) => SelectCall::Done(Err(error)),
        }
    }

    /// Goes on once the wait is over. It took `elapsed`, which is taken down if
    /// it was to be measured.
    pub fn polled<V: Copy>(
        self,
        core: &mut SelectorCore<V>,
        events: Result<Vec<(Descriptor, i32)>, E>,
        elapsed: IdleDuration,
    ) -> (call: Self)
        requires
            self is Poll,
        ensures
            match events {
                Ok(events) => {
                    &&& call == (SelectCall::<E>::Dispatch { events })
                    &&& *final(core) == if self->timed {
                        SelectorCore { idle_duration: elapsed, ..*old(core) }
                    } else {
                        *old(core)
                    }
                },
                Err(error) => {
                    &&& call == SelectCall::<E>::Done(Err(error))
                    &&& *final(core) == *old(core)
                },
            },
    {
        match (self, events) {
            (SelectCall::Poll { timed, .. }, Ok(events)) => {
                if timed {
                    core.idle_duration = elapsed;
                }
                SelectCall::Dispatch { events }
            },
            (other, Ok(_)) => other,
            (_, Err(error)) => SelectCall::Done(Err(error)),
        }
    }

    /// Goes on once `count` fibers have been woken for the events.
    pub fn dispatched(self, count: Result<usize, E>) -> (call: Self)
        requires
            self is Dispatch,
        ensures
            call == (match count {
                Ok(count) => SelectCall::<E>::RecheckProcesses { dispatched: count },
                Err(error) => SelectCall::<E>::Done(Err(error)),
            }),
    {
        match count {
            Ok(count) => SelectCall::RecheckProcesses { dispatched: count },
            Err(error) => SelectCall::Done(Err(error)),
        }
    }

    /// Ends the turn once `count` more fibers have been woken for their
    /// processes.
    pub fn rechecked(self, count: Result<usize, E>) -> (call: Self)
        requires
            self is RecheckProcesses,
            count matches Ok(count) ==> self->dispatched + count <= usize::MAX,
        ensures
            call == (match count {
                Ok(count) => SelectCall::<E>::Done(
                    Ok((self->dispatched + count) as usize as i64),
                ),
                Err(error) => SelectCall::<E>::Done(Err(error)),
            }),
    {
        match (self, count) {
            (SelectCall::RecheckProcesses { dispatched }, Ok(count)) => {
                let resumed: usize = dispatched + count;
                SelectCall::Done(Ok(#[verifier::truncate] (resumed as i64)))
            },
            (other, Ok(_)) => other,
            (_, Err(error)) => SelectCall::Done(Err(error)),
        }
    }
}

} // verus!
