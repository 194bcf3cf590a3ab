//! Moving bytes between a buffer and a descriptor.

use vstd::prelude::*;

use crate::event::{READABLE, WRITABLE};
use crate::platform::Platform;

verus! {

/// A call that moves bytes. The last two give the position in the file.
#[derive(Clone, Copy, Debug, PartialEq, Eq, Structural)]
pub enum BufferIoOperation {
    Read,
    Write,
    PRead(i64),
    PWrite(i64),
}

impl BufferIoOperation {
    /// The operation at a position that lies `amount` further on, where it has
    /// a position.
    pub open spec fn advanced(self, amount: int) -> Self {
        match self {
            BufferIoOperation::PRead(from) => BufferIoOperation::PRead((from + amount) as i64),
            BufferIoOperation::PWrite(from) => BufferIoOperation::PWrite((from + amount) as i64),
            other => other,
        }
    }

    /// A position `amount` further on can be told.
    pub open spec fn can_advance(self, amount: int) -> bool {
        match self {
            BufferIoOperation::PRead(from) => from + amount <= i64::MAX,
            BufferIoOperation::PWrite(from) => from + amount <= i64::MAX,
            _ => true,
        }
    }

    pub open spec fn spec_writes_to_buffer(self) -> bool {
        self is Read || self is PRead
    }

    /// Whether the bytes go from the descriptor to the buffer.
    pub fn writes_to_buffer(&self) -> (writes: bool)
        ensures
            writes == self.spec_writes_to_buffer(),
    {
        match self {
            BufferIoOperation::Read => true,
            BufferIoOperation::Write => false,
            BufferIoOperation::PRead(_) => true,
            BufferIoOperation::PWrite(_) => false,
        }
    }

    /// The condition that the operation waits for.
    pub open spec fn awaited(self) -> i32 {
        if self.spec_writes_to_buffer() {
            READABLE
        } else {
            WRITABLE
        }
    }

    /// The condition that the operation waits for.
    pub fn events(&self) -> (events: i32)
        ensures
            events == self.awaited(),
    {
        if self.writes_to_buffer() {
            READABLE
        } else {
            WRITABLE
        }
    }

    /// Moves the position, where there is one, `amount` further on.
    pub fn advance(&mut self, amount: usize)
        requires
            amount <= i64::MAX,
            old(self).can_advance(amount as int),
        ensures
            *final(self) == old(self).advanced(amount as int),
    {
        match *self {
            BufferIoOperation::PRead(from) => {
                *self = BufferIoOperation::PRead(from + amount as i64);
            },
            BufferIoOperation::PWrite(from) => {
                *self = BufferIoOperation::PWrite(from + amount as i64);
            },
            BufferIoOperation::Read => {},
            BufferIoOperation::Write => {},
        }
    }
}

/// What becomes of moving bytes.
#[derive(Clone, Copy, Debug, PartialEq, Eq, Structural)]
pub enum BufferOutcome {
    /// This many bytes were moved.
    Transferred(usize),
    /// The system refused; this is its error code with the sign changed.
    Refused(i64),
}

/// Bytes being moved between a descriptor and a buffer of `size` bytes.
#[derive(Clone, Copy, Debug, PartialEq, Eq, Structural)]
pub struct BufferTransfer {
    pub operation: BufferIoOperation,
    pub size: usize,
    /// How many bytes have to be moved yet before the transfer may end. With 0
    /// a single call is made, which is not waited for.
    pub length: usize,
    /// Where in the buffer the next byte goes to or comes from.
    pub offset: usize,
    /// How many bytes have been moved.
    pub total: usize,
}

/// What has to be done next to move bytes. `E` is an exception raised on the
/// way.
pub enum BufferStep<E> {
    /// Make the call on the `maximum` bytes of the buffer from `offset` on.
    Call { offset: usize, maximum: usize },
    /// Wait until the descriptor meets one of `events`.
    Wait { events: i32 },
    /// The transfer is over.
    Done(Result<BufferOutcome, E>),
}

/// The code `errno` as a result: with the sign changed.
pub open spec fn refused(errno: i32) -> BufferOutcome {
    BufferOutcome::Refused((-errno) as i64)
}

pub(crate) fn refuse(errno: i32) -> (outcome: BufferOutcome)
    ensures
        outcome == refused(errno),
{
    BufferOutcome::Refused(-(errno as i64))
}

impl BufferTransfer {
    /// The next byte lies in the buffer or at its end.
    pub open spec fn wf(self) -> bool {
        self.total <= self.offset <= self.size
    }

    /// The transfer once a call has moved `count` bytes.
    pub open spec fn moved(self, count: int) -> Self {
        BufferTransfer {
            operation: self.operation.advanced(count),
            offset: (self.offset + count) as usize,
            total: (self.total + count) as usize,
            length: if count >= self.length {
                self.length
            } else {
                (self.length - count) as usize
            },
            ..self
        }
    }

    /// The next call: it may use the buffer to its end. Without room in the
    /// buffer the transfer is over.
    pub open spec fn next_call<E>(self) -> BufferStep<E> {
        if self.offset == self.size {
            BufferStep::Done(Ok(BufferOutcome::Transferred(self.total)))
        } else {
            BufferStep::Call { offset: self.offset, maximum: (self.size - self.offset) as usize }
        }
    }

    /// The transfer once a call has answered `result`.
    pub open spec fn after_call(self, result: isize) -> Self {
        if result > 0 {
            self.moved(result as int)
        } else {
            self
        }
    }

    /// What follows a call that answered `result`, with `errno` where that is
    /// negative.
    pub open spec fn step_after<E>(
        self,
        platform: Platform,
        result: isize,
        errno: i32,
    ) -> BufferStep<E> {
        if result < 0 {
            if self.length > 0 && (errno == platform.eagain || errno == platform.ewouldblock) {
                BufferStep::Wait { events: self.operation.awaited() }
            } else {
                BufferStep::Done(Ok(refused(errno)))
            }
        } else if result == 0 {
            BufferStep::Done(Ok(BufferOutcome::Transferred(self.total)))
        } else if result >= self.length {
            BufferStep::Done(Ok(BufferOutcome::Transferred((self.total + result) as usize)))
        } else {
            self.moved(result as int).next_call()
        }
    }

    fn call_or_stop<E>(&self) -> (step: BufferStep<E>)
        requires
            self.wf(),
        ensures
            step == self.next_call::<E>(),
    {
        if self.offset == self.size {
            BufferStep::Done(Ok(BufferOutcome::Transferred(self.total)))
        } else {
            BufferStep::Call { offset: self.offset, maximum: self.size - self.offset }
        }
    }

    /// Starts to move at least `length` bytes between a descriptor and a buffer
    /// of `size` bytes, from `offset` on. There is nothing beyond the end of the
    /// buffer.
    pub fn selector_io_buffer_syscall<E>(
        platform: &Platform,
        operation: BufferIoOperation,
        length: usize,
        offset: usize,
        size: usize,
    ) -> (started: (BufferTransfer, BufferStep<E>))
        ensures
            started.0 == (BufferTransfer { operation, size, length, offset, total: 0 }),
            offset <= size ==> started.0.wf(),
            started.1 == (if offset > size {
                BufferStep::<E>::Done(Ok(refused(platform.einval)))
            } else {
                started.0.next_call::<E>()
            }),
    {
        let transfer = BufferTransfer { operation, size, length, offset, total: 0 };
        if offset > size {
            return (transfer, BufferStep::Done(Ok(refuse(platform.einval))));
        }
        let step = transfer.call_or_stop();
        (transfer, step)
    }

    /// Goes on from a call: the system answered `result`, with `errno` where
    /// that is negative. A call that would have had to wait is made again once
    /// the descriptor is ready, as long as bytes are missing. The transfer ends
    /// when none are, when the system moves no more, or at the end of the
    /// buffer.
    pub fn called<E>(&mut self, platform: &Platform, result: isize, errno: i32) -> (step:
        BufferStep<E>)
        requires
            old(self).wf(),
            result > 0 ==> {
                &&& old(self).offset + result <= usize::MAX
                &&& old(self).operation.can_advance(result as int)
                &&& result < old(self).length ==> old(self).offset + result <= old(self).size
            },
        ensures
            *final(self) == old(self).after_call(result),
            step is Call || step is Wait ==> final(self).wf(),
            step == old(self).step_after::<E>(*platform, result, errno),
    {
        if result < 0 {
            if self.length > 0 && platform.try_again(errno) {
                return BufferStep::Wait { events: self.operation.events() };
            }
            return BufferStep::Done(Ok(refuse(errno)));
        }
        if result == 0 {
            return BufferStep::Done(Ok(BufferOutcome::Transferred(self.total)));
        }
        let count: usize = result as usize;
        self.total = self.total + count;
        self.offset = self.offset + count;
        self.operation.advance(count);
        if count >= self.length {
            return BufferStep::Done(Ok(BufferOutcome::Transferred(self.total)));
        }
        self.length = self.length - count;
        self.call_or_stop()
    }

    /// Goes on once the wait is over: the call is made again.
    pub fn waited<E>(&self, outcome: Result<Option<i32>, E>) -> (step: BufferStep<E>)
        requires
            self.wf(),
        ensures
            step == (match outcome {
                Ok(_) => self.next_call::<E>(),
                Err(error) => BufferStep::<E>::Done(Err(error)),
            }),
    {
        match outcome {
            Ok(_) => self.call_or_stop(),
            Err(error) => BufferStep::Done(Err(error)),
        }
    }
}

/// Bytes being moved by a buffer that makes the calls itself, on systems where
/// descriptors cannot be used directly.
#[derive(Clone, Copy, Debug, PartialEq, Eq, Structural)]
pub struct DelegatedTransfer {
    /// The condition to wait for.
    pub events: i32,
    /// How many bytes have to be moved yet before the transfer may end.
    pub length: usize,
    /// Where in the buffer the next byte goes to or comes from.
    pub offset: usize,
    /// How many bytes have been moved.
    pub total: usize,
}

/// What has to be done next to have bytes moved. `E` is an exception raised on
/// the way.
pub enum DelegatedStep<E> {
    /// Let the buffer make a call, from `offset` on.
    Call { offset: usize },
    /// Wait until the descriptor meets one of `events`.
    Wait { events: i32 },
    /// The transfer is over.
    Done(Result<BufferOutcome, E>),
}

impl DelegatedTransfer {
    /// Starts to have at least `length` bytes moved, from `offset` on.
    pub fn start<E>(events: i32, length: usize, offset: usize) -> (started: (
        DelegatedTransfer,
        DelegatedStep<E>,
    ))
        ensures
            started.0 == (DelegatedTransfer { events, length, offset, total: 0 }),
            started.1 == (DelegatedStep::<E>::Call { offset }),
    {
        (DelegatedTransfer { events, length, offset, total: 0 }, DelegatedStep::Call { offset })
    }

    /// Goes on from a call that the buffer answered with `result`: how many
    /// bytes it moved, or an error code with the sign changed.
    pub fn called<E>(&mut self, platform: &Platform, result: i64) -> (step: DelegatedStep<E>)
        requires
            old(self).total <= old(self).offset,
            result != i64::MIN,
            result > 0 ==> old(self).offset + result <= usize::MAX,
        ensures
            final(self).total <= final(self).offset,
            final(self).events == old(self).events,
            final(self).offset == old(self).offset + if result > 0 {
                result as int
            } else {
                0
            },
            final(self).total == old(self).total + if result > 0 {
                result as int
            } else {
                0
            },
            final(self).length == if 0 < result < old(self).length {
                old(self).length - result
            } else {
                old(self).length as int
            },
            step == (if result < 0 {
                let errno = (-result) as i32;
                if old(self).length > 0 && (errno == platform.eagain || errno
                    == platform.ewouldblock) {
                    DelegatedStep::<E>::Wait { events: old(self).events }
                } else {
                    DelegatedStep::<E>::Done(Ok(BufferOutcome::Refused(result)))
                }
            } else if result == 0 || result >= old(self).length {
                DelegatedStep::<E>::Done(Ok(BufferOutcome::Transferred(final(self).total)))
            } else {
                DelegatedStep::<E>::Call { offset: final(self).offset }
            }),
    {
        if result < 0 {
            let errno = #[verifier::truncate]
            ((-result) as i32);
            if self.length > 0 && platform.try_again(errno) {
                return DelegatedStep::Wait { events: self.events };
            }
            return DelegatedStep::Done(Ok(BufferOutcome::Refused(result)));
        }
        if result == 0 {
            return DelegatedStep::Done(Ok(BufferOutcome::Transferred(self.total)));
        }
        let count: usize = result as usize;
        self.total = self.total + count;
        self.offset = self.offset + count;
        if count >= self.length {
            return DelegatedStep::Done(Ok(BufferOutcome::Transferred(self.total)));
        }
        self.length = self.length - count;
        DelegatedStep::Call { offset: self.offset }
    }

    /// Goes on once the wait is over: the call is made again.
    pub fn waited<E>(&self, outcome: Result<Option<i32>, E>) -> (step: DelegatedStep<E>)
        ensures
            step == (match outcome {
                Ok(_) => DelegatedStep::<E>::Call { offset: self.offset },
                Err(error) => DelegatedStep::<E>::Done(Err(error)),
            }),
    {
        match outcome {
            Ok(_) => DelegatedStep::Call { offset: self.offset },
            Err(error) => DelegatedStep::Done(Err(error)),
        }
    }
}

} // verus!
