//! Waiting for an I/O object to become ready.

use vstd::prelude::*;

use crate::event::Descriptor;
use crate::mailbox::{receiver_left, Slot};
use crate::platform::Platform;
use crate::selector::{
    io_results_without, io_tokens, lemma_first_index, token_after, without_io_waiter, IoWaiter,
    SelectorCore,
};

verus! {

/// A number in the width of the system's descriptors: 32 bits on Unix, 64 bits
/// elsewhere.
pub open spec fn descriptor(platform: Platform, fileno: i64) -> Descriptor {
    if platform.unix {
        (fileno as i32) as i64
    } else {
        fileno
    }
}

/// The descriptor number of an I/O object, in the width of the system's
/// descriptors.
pub fn io_descriptor(platform: &Platform, fileno: i64) -> (fd: Descriptor)
    ensures
        fd == descriptor(*platform, fileno),
{
    if platform.unix {
        let narrow: i32 = #[verifier::truncate]
        (fileno as i32);
        narrow as i64
    } else {
        fileno
    }
}

/// A call that has put its fiber among the I/O waiters and given way to the
/// event loop.
pub struct IoWait {
    pub token: usize,
    pub mailbox: usize,
}

impl IoWait {
    /// The call's end of its mailbox is attached.
    pub open spec fn open_in<V>(self, core: SelectorCore<V>) -> bool {
        core.io_results@.contains_key(self.mailbox) && core.io_results@[self.mailbox].receiver
    }

    /// How a selector changes when this call puts `fiber` among the waiters.
    pub open spec fn started<V>(
        self,
        before: SelectorCore<V>,
        after: SelectorCore<V>,
        fiber: V,
        io: V,
        events: i32,
        fd: Descriptor,
    ) -> bool {
        &&& self.token == before.next_token
        &&& !before.io_results@.contains_key(self.mailbox)
        &&& after.io_waiters@ == before.io_waiters@.push(
            IoWaiter { token: self.token, fd, io, fiber, events, mailbox: self.mailbox },
        )
        &&& after.io_results@ == before.io_results@.insert(
            self.mailbox,
            Slot { value: 0, receiver: true, sender: true },
        )
        &&& after == SelectorCore {
            io_waiters: after.io_waiters,
            io_results: after.io_results,
            next_token: token_after(before.next_token),
            ..before
        }
    }

    /// How a selector changes when this call ends.
    pub open spec fn finished<V>(self, before: SelectorCore<V>, after: SelectorCore<V>) -> bool {
        &&& after.io_waiters@ == without_io_waiter(before.io_waiters@, self.token)
        &&& after.io_results@ == receiver_left(
            io_results_without(before.io_waiters@, before.io_results@, self.token),
            self.mailbox,
        )
        &&& after == SelectorCore {
            io_waiters: after.io_waiters,
            io_results: after.io_results,
            ..before
        }
    }

    /// What the call has to say if no exception was raised: the conditions in
    /// its mailbox, or `None` if there are none.
    pub open spec fn answer<V>(self, core: SelectorCore<V>) -> Option<i32> {
        if core.io_results@[self.mailbox].value == 0 {
            None
        } else {
            Some(core.io_results@[self.mailbox].value)
        }
    }

    /// Queues `fiber` until `io`, whose descriptor is `fd`, meets one of
    /// `events`.
    pub fn selector_io_wait<V: Copy>(
        core: &mut SelectorCore<V>,
        fiber: V,
        io: V,
        events: i32,
        fd: Descriptor,
    ) -> (wait: IoWait)
        requires
            old(core).wf(),
        ensures
            final(core).wf(),
            wait.open_in(*final(core)),
            wait.started(*old(core), *final(core), fiber, io, events, fd),
    {
        let mailbox = core.io_results.open(0);
        let token = core.next_token();
        core.io_waiters.push(IoWaiter { token, fd, io, fiber, events, mailbox });
        IoWait { token, mailbox }
    }

    /// Ends the wait once the event loop has given control back. The fiber
    /// leaves the queue if it is still in it. Without an exception the answer
    /// is the conditions that came about, or `None` where the fiber was woken
    /// for another reason.
    pub fn finish<V: Copy, E>(
        self,
        core: &mut SelectorCore<V>,
        transfer: Result<Option<V>, E>,
    ) -> (answer: Result<Option<i32>, E>)
        requires
            old(core).wf(),
            self.open_in(*old(core)),
        ensures
            final(core).wf(),
            self.finished(*old(core), *final(core)),
            answer == (match transfer {
                Ok(_) => Ok::<Option<i32>, E>(self.answer(*old(core))),
                Err(error) => Err::<Option<i32>, E>(error),
            }),
    {
        proof {
            lemma_first_index(io_tokens(core.io_waiters@), self.token);
        }
        core.remove_io_waiter(self.token);
        let ready = core.io_results.receive(self.mailbox);
        match transfer {
            Ok(_) => Ok(
                if ready == 0 {
                    None
                } else {
                    Some(ready)
                },
            ),
            Err(error) => Err(error),
        }
    }
}

} // verus!
