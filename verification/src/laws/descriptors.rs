//! What happens to a descriptor's flags.

use vstd::prelude::*;

use crate::buffer::BufferOutcome;
use crate::event::Descriptor;
use crate::io_call::{IoCall, IoRequest};
use crate::nonblock::SetNonblock;
use crate::platform::Platform;

verus! {

/// A descriptor that an operation makes non-blocking gets the flags back that it
/// had, whatever becomes of the operation; one that was non-blocking already
/// keeps its flags throughout.
pub proof fn law_descriptor_gets_its_flags_back<E>(
    platform: Platform,
    flags: i32,
    step: SetNonblock,
    request: IoRequest,
    fd: Descriptor,
    outcome: Result<BufferOutcome, E>,
)
    requires
        platform.nonblock != 0,
        flags != -1,
        SetNonblock::follows_flags(step, platform, flags),
    ensures
        ({
            let transfer = IoCall::<E>::Transfer { request, fd, original: Some(flags) };
            let after = transfer.after_transfer(platform, outcome);
            match step {
                SetNonblock::SetFlags { original, flags: changed } => {
                    &&& original == flags
                    &&& changed & platform.nonblock != 0
                    &&& after == IoCall::<E>::Restore { fd, flags, outcome }
                },
                SetNonblock::Done(Ok(original)) => {
                    &&& original == flags
                    &&& flags & platform.nonblock != 0
                    &&& after == IoCall::<E>::Done(outcome)
                },
                _ => false,
            }
        }),
{
    let flag = platform.nonblock;
    assert(flag != 0 ==> (flags | flag) & flag != 0) by (bit_vector);
}

} // verus!
