//! Waking a selector that waits.

use vstd::prelude::*;

use crate::failure::{ErrorKind, Failure};
use crate::platform::Platform;
use crate::selector::SelectorCore;

verus! {

/// The two ends of the pipe through which a waiting selector is woken.
#[derive(Clone, Copy, Debug, PartialEq, Eq, Structural)]
pub struct Interrupt {
    pub input: i32,
    pub output: i32,
}

/// An interrupt being opened: what has to be done next.
pub enum InterruptOpen {
    /// Open a pipe.
    OpenPipe,
    /// Keep calls on the pipe's reading end from blocking.
    PrepareInput { input: i32, output: i32 },
    /// Keep calls on the pipe's writing end from blocking.
    PrepareOutput { input: i32, output: i32 },
    /// The interrupt is open, or could not be opened.
    Done(Result<Interrupt, Failure>),
}

impl InterruptOpen {
    /// Starts to open an interrupt.
    pub fn open() -> (opening: Self)
        ensures
            opening == InterruptOpen::OpenPipe,
    {
        InterruptOpen::OpenPipe
    }

    /// Goes on once the system has answered `result`, and given the two ends.
    pub fn pipe_opened(self, result: i32, input: i32, output: i32) -> (opening: Self)
        requires
            self is OpenPipe,
        ensures
            if result == -1 {
                opening matches InterruptOpen::Done(Err(failure)) && failure.says(
                    ErrorKind::SystemCall,
                    "IO_Event_Interrupt_open:pipe"@,
                )
            } else {
                opening == (InterruptOpen::PrepareInput { input, output })
            },
    {
        if result == -1 {
            InterruptOpen::Done(Err(Failure::system_call("IO_Event_Interrupt_open:pipe")))
        } else {
            InterruptOpen::PrepareInput { input, output }
        }
    }

    /// Goes on once the reading end has been prepared.
    pub fn input_prepared(self, outcome: Result<i32, Failure>) -> (opening: Self)
        requires
            self is PrepareInput,
        ensures
            opening == (match outcome {
                Ok(_) => InterruptOpen::PrepareOutput {
                    input: self->PrepareInput_input,
                    output: self->PrepareInput_output,
                },
                Err(failure) => InterruptOpen::Done(Err(failure)),
            }),
    {
        match (self, outcome) {
            (InterruptOpen::PrepareInput { input, output }, Ok(_)) => InterruptOpen::PrepareOutput {
                input,
                output,
            },
            (other, Ok(_)) => other,
            (_, Err(failure)) => InterruptOpen::Done(Err(failure)),
        }
    }

    /// Goes on once the writing end has been prepared.
    pub fn output_prepared(self, outcome: Result<i32, Failure>) -> (opening: Self)
        requires
            self is PrepareOutput,
        ensures
            opening == (match outcome {
                Ok(_) => InterruptOpen::Done(
                    Ok(
                        Interrupt {
                            input: self->PrepareOutput_input,
                            output: self->PrepareOutput_output,
                        },
                    ),
                ),
                Err(failure) => InterruptOpen::Done(Err(failure)),
            }),
    {
        match (self, outcome) {
            (InterruptOpen::PrepareOutput { input, output }, Ok(_)) => InterruptOpen::Done(
                Ok(Interrupt { input, output }),
            ),
            (other, Ok(_)) => other,
            (_, Err(failure)) => InterruptOpen::Done(Err(failure)),
        }
    }
}

/// What follows a read from an interrupt that is being cleared.
pub enum Clearing {
    /// There may be more to read.
    ReadAgain,
    /// The interrupt is clear, or cannot be cleared.
    Done(Result<(), Failure>),
}

impl Interrupt {
    /// A call on an interrupt failed: the system answered `result`, with `errno`
    /// where that is -1. A call that would have had to wait has not failed.
    pub open spec fn call_failed(platform: Platform, result: isize, errno: i32) -> bool {
        &&& result == -1
        &&& errno != platform.eagain
        &&& errno != platform.ewouldblock
    }

    /// The outcome of writing to an interrupt: the system answered `result`,
    /// with `errno` where that is -1. A pipe that is full has been written to
    /// already, so the selector will wake.
    pub fn signal(platform: &Platform, result: isize, errno: i32) -> (outcome: Result<(), Failure>)
        ensures
            outcome is Err <==> Self::call_failed(*platform, result, errno),
            outcome matches Err(failure) ==> failure.says(
                ErrorKind::SystemCall,
                "IO_Event_Interrupt_signal:write"@,
            ),
    {
        if result == -1 && !platform.try_again(errno) {
            Err(Failure::system_call("IO_Event_Interrupt_signal:write"))
        } else {
            Ok(())
        }
    }

    /// The outcome of reading from an interrupt to clear it: the system answered
    /// `result`, with `errno` where that is -1.
    pub fn clear(platform: &Platform, result: isize, errno: i32) -> (clearing: Clearing)
        ensures
            clearing is ReadAgain <==> result > 0,
            (clearing matches Clearing::Done(outcome) && outcome is Err) <==> Self::call_failed(
                *platform,
                result,
                errno,
            ),
            clearing matches Clearing::Done(Err(failure)) ==> failure.says(
                ErrorKind::SystemCall,
                "IO_Event_Interrupt_clear:read"@,
            ),
    {
        if result > 0 {
            Clearing::ReadAgain
        } else if result == -1 && !platform.try_again(errno) {
            Clearing::Done(Err(Failure::system_call("IO_Event_Interrupt_clear:read")))
        } else {
            Clearing::Done(Ok(()))
        }
    }
}

/// The interrupt to signal in order to wake a selector.
pub open spec fn wakeup_target<V>(core: SelectorCore<V>) -> Option<Interrupt> {
    if core.blocked {
        core.interrupt
    } else {
        None
    }
}

/// The interrupt to signal in order to wake a selector: none unless the selector
/// is waiting and has an interrupt.
pub fn selector_wakeup<V: Copy>(core: &SelectorCore<V>) -> (interrupt: Option<Interrupt>)
    ensures
        interrupt == wakeup_target(*core),
{
    if core.blocked {
        core.interrupt
    } else {
        None
    }
}

} // verus!
