//! Keeping calls on a descriptor from blocking.

use vstd::prelude::*;

use crate::failure::{ErrorKind, Failure};
use crate::platform::Platform;

verus! {

/// A descriptor being made non-blocking: what has to be done next.
pub enum SetNonblock {
    /// Read the descriptor's flags.
    GetFlags,
    /// Give the descriptor the flags `flags`; before, they were `original`.
    SetFlags { original: i32, flags: i32 },
    /// The descriptor is non-blocking, and these were its flags before; or it
    /// could not be made so.
    Done(Result<i32, Failure>),
}

impl SetNonblock {
    /// What follows once the system gave these flags, or -1.
    pub open spec fn follows_flags(step: Self, platform: Platform, flags: i32) -> bool {
        if flags == -1 {
            step matches SetNonblock::Done(Err(failure)) && failure.says(
                ErrorKind::SystemCall,
                "IO_Event_Selector_nonblock_set:F_GETFL"@,
            )
        } else if flags & platform.nonblock == 0 {
            step == (SetNonblock::SetFlags { original: flags, flags: flags | platform.nonblock })
        } else {
            step == SetNonblock::Done(Ok(flags))
        }
    }

    /// Starts to make a descriptor non-blocking.
    pub fn set_nonblock() -> (step: Self)
        ensures
            step == SetNonblock::GetFlags,
    {
        SetNonblock::GetFlags
    }

    /// Goes on with the flags that the system gave, or -1. A descriptor that is
    /// non-blocking already is left alone.
    pub fn flags_read(self, platform: &Platform, flags: i32) -> (step: Self)
        requires
            self is GetFlags,
        ensures
            Self::follows_flags(step, *platform, flags),
    {
        if flags == -1 {
            return SetNonblock::Done(
                Err(Failure::system_call("IO_Event_Selector_nonblock_set:F_GETFL")),
            );
        }
        if flags & platform.nonblock == 0 {
            SetNonblock::SetFlags { original: flags, flags: flags | platform.nonblock }
        } else {
            SetNonblock::Done(Ok(flags))
        }
    }

    /// Ends with the system's answer to the change of flags.
    pub fn flags_written(self, result: i32) -> (step: Self)
        requires
            self is SetFlags,
        ensures
            if result == -1 {
                step matches SetNonblock::Done(Err(failure)) && failure.says(
                    ErrorKind::SystemCall,
                    "IO_Event_Selector_nonblock_set:F_SETFL"@,
                )
            } else {
                step == SetNonblock::Done(Ok(self->original))
            },
    {
        match self {
            SetNonblock::SetFlags { original, .. } if result != -1 => SetNonblock::Done(Ok(original)),
            _ => SetNonblock::Done(
                Err(Failure::system_call("IO_Event_Selector_nonblock_set:F_SETFL")),
            ),
        }
    }
}

/// The flags to give back to a descriptor that was made non-blocking and whose
/// flags were `original` before; none if it had been non-blocking all along.
pub fn restore_nonblock(platform: &Platform, original: i32) -> (flags: Option<i32>)
    ensures
        flags == (if original & platform.nonblock == 0 {
            Some(original)
        } else {
            None
        }),
{
    if original & platform.nonblock == 0 {
        Some(original)
    } else {
        None
    }
}

/// The outcome of giving a descriptor its flags back: the system answered
/// `result`.
pub fn nonblock_restored(result: i32) -> (outcome: Result<(), Failure>)
    ensures
        outcome is Err <==> result == -1,
        outcome matches Err(failure) ==> failure.says(
            ErrorKind::SystemCall,
            "IO_Event_Selector_nonblock_restore:F_SETFL"@,
        ),
{
    if result == -1 {
        Err(Failure::system_call("IO_Event_Selector_nonblock_restore:F_SETFL"))
    } else {
        Ok(())
    }
}

} // verus!
