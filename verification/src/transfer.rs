//! Switching from one fiber to another.

use vstd::prelude::*;

use crate::failure::{ErrorKind, Failure};
use crate::selector::{token_after, without_ready, ReadyEntry, SelectorCore};

verus! {

/// A transfer of control on its way: what has to be asked or done next. A
/// target of `None` is the nil object; `E` is an exception raised on the way.
pub enum Transfer<V, E> {
    /// Is the target the fiber that is running?
    Compare(Option<V>),
    /// Is the target alive?
    Probe(Option<V>),
    /// Switch to the target.
    Switch(Option<V>),
    /// The transfer is over. Without a switch its value is `None`, which is nil.
    Done(Result<Option<V>, E>),
}

impl<V: Copy, E> Transfer<V, E> {
    /// The fiber, or nil, that an unfinished transfer is to.
    pub open spec fn target(self) -> Option<V> {
        match self {
            Transfer::Compare(target) => target,
            Transfer::Probe(target) => target,
            Transfer::Switch(target) => target,
            Transfer::Done(_) => None,
        }
    }

    /// A transfer to the fiber that runs the event loop.
    pub fn selector_transfer(core: &SelectorCore<V>) -> (transfer: Self)
        ensures
            transfer == Transfer::<V, E>::Compare(core.loop_fiber),
    {
        Transfer::Compare(core.loop_value())
    }

    /// A transfer to a fiber that is known to be another.
    pub fn transfer_value(target: Option<V>) -> (transfer: Self)
        ensures
            transfer == Transfer::<V, E>::Probe(target),
    {
        Transfer::Probe(target)
    }

    /// Goes on from the comparison of the target with the running fiber. A
    /// fiber does not transfer to itself. A comparison that raised an exception
    /// found no sameness.
    pub fn compared(self, same: Result<bool, E>) -> (transfer: Self)
        requires
            self is Compare,
        ensures
            transfer == (match same {
                Ok(true) => Transfer::<V, E>::Done(Ok(None)),
                _ => Transfer::<V, E>::Probe(self.target()),
            }),
    {
        match (self, same) {
            (Transfer::Compare(_), Ok(true)) => Transfer::Done(Ok(None)),
            (Transfer::Compare(target), _) => Transfer::Probe(target),
            (other, _) => other,
        }
    }

    /// Goes on from the question whether the target is alive. There is no
    /// switch to a fiber that has ended.
    pub fn probed(self, alive: Result<bool, E>) -> (transfer: Self)
        requires
            self is Probe,
        ensures
            transfer == (match alive {
                Ok(true) => Transfer::<V, E>::Switch(self.target()),
                Ok(false) => Transfer::<V, E>::Done(Ok(None)),
                Err(error) => Transfer::<V, E>::Done(Err(error)),
            }),
    {
        match (self, alive) {
            (Transfer::Probe(target), Ok(true)) => Transfer::Switch(target),
            (_, Ok(_)) => Transfer::Done(Ok(None)),
            (_, Err(error)) => Transfer::Done(Err(error)),
        }
    }

    /// Ends the transfer with what was passed back when control returned.
    pub fn switched(self, outcome: Result<V, E>) -> (transfer: Self)
        requires
            self is Switch,
        ensures
            transfer == (match outcome {
                Ok(value) => Transfer::<V, E>::Done(Ok(Some(value))),
                Err(error) => Transfer::<V, E>::Done(Err(error)),
            }),
    {
        match outcome {
            Ok(value) => Transfer::Done(Ok(Some(value))),
            Err(error) => Transfer::Done(Err(error)),
        }
    }
}

/// A fiber that has put itself into the ready queue while another one runs.
pub struct Suspension {
    pub ready_id: usize,
}

/// The state of a selector once a fiber has put itself into the ready queue.
pub open spec fn suspended<V>(before: SelectorCore<V>, after: SelectorCore<V>, current: V) -> bool {
    &&& after.ready@ == before.ready@.push(ReadyEntry { id: before.next_token, fiber: current })
    &&& after == SelectorCore {
        ready: after.ready,
        next_token: token_after(before.next_token),
        ..before
    }
}

/// Starts to resume `arguments[0]` with the other arguments; the running fiber
/// stays ready meanwhile.
pub fn selector_resume<V: Copy, E>(
    core: &mut SelectorCore<V>,
    arguments: &[V],
    current: V,
) -> (started: Result<(Suspension, Transfer<V, E>), Failure>)
    ensures
        started is Err <==> arguments@.len() == 0,
        match started {
            Ok((suspension, transfer)) => {
                &&& suspension.ready_id == old(core).next_token
                &&& transfer == Transfer::<V, E>::Probe(Some(arguments@[0]))
                &&& suspended(*old(core), *final(core), current)
            },
            Err(failure) => {
                &&& failure.says(
                    ErrorKind::Argument,
                    "wrong number of arguments (given 0, expected 1+)"@,
                )
                &&& *final(core) == *old(core)
            },
        },
{
    if arguments.len() == 0 {
        return Err(Failure::argument("wrong number of arguments (given 0, expected 1+)"));
    }
    let ready_id = core.push_ready(current);
    Ok((Suspension { ready_id }, Transfer::transfer_value(Some(arguments[0]))))
}

/// Starts to give way to the event loop; the running fiber stays ready
/// meanwhile.
pub fn selector_yield<V: Copy, E>(core: &mut SelectorCore<V>, current: V) -> (started: (
    Suspension,
    Transfer<V, E>,
))
    ensures
        started.0.ready_id == old(core).next_token,
        started.1 == Transfer::<V, E>::Probe(old(core).loop_fiber),
        suspended(*old(core), *final(core), current),
{
    let loop_fiber = core.loop_value();
    let ready_id = core.push_ready(current);
    (Suspension { ready_id }, Transfer::transfer_value(loop_fiber))
}

/// Starts to raise an exception in `arguments[0]`, which the other arguments
/// describe; the running fiber stays ready meanwhile. Hands out the fiber.
pub fn selector_raise<V: Copy>(
    core: &mut SelectorCore<V>,
    arguments: &[V],
    current: V,
) -> (started: Result<(Suspension, V), Failure>)
    ensures
        started is Err <==> arguments@.len() < 2,
        match started {
            Ok((suspension, target)) => {
                &&& suspension.ready_id == old(core).next_token
                &&& target == arguments@[0]
                &&& suspended(*old(core), *final(core), current)
            },
            Err(failure) => {
                &&& failure.says(
                    ErrorKind::Argument,
                    "wrong number of arguments (given 0..1, expected 2+)"@,
                )
                &&& *final(core) == *old(core)
            },
        },
{
    if arguments.len() < 2 {
        return Err(Failure::argument("wrong number of arguments (given 0..1, expected 2+)"));
    }
    let ready_id = core.push_ready(current);
    Ok((Suspension { ready_id }, arguments[0]))
}

impl Suspension {
    /// Ends the suspension: the fiber runs again, so it leaves the ready queue,
    /// whether or not the other fiber ended with an exception.
    pub fn finish<V: Copy, R, E>(
        self,
        core: &mut SelectorCore<V>,
        outcome: Result<R, E>,
    ) -> (result: Result<R, E>)
        ensures
            result == outcome,
            final(core).ready@ == without_ready(old(core).ready@, self.ready_id),
            *final(core) == (SelectorCore { ready: final(core).ready, ..*old(core) }),
    {
        core.remove_ready(self.ready_id);
        outcome
    }
}

} // verus!
