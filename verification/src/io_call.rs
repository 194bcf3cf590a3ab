//! Reading and writing on behalf of a fiber.

use vstd::prelude::*;

use crate::buffer::{refuse, refused, BufferIoOperation, BufferOutcome};
use crate::event::Descriptor;
use crate::failure::{arity_message, wrong_arity, ErrorKind, Failure};
use crate::io_wait::{descriptor, io_descriptor};
use crate::nonblock::restore_nonblock;
use crate::platform::Platform;

verus! {

/// The operations of a selector that move bytes.
///
/// Their arguments are a fiber, an I/O object and a buffer, in this order;
/// then, for the last two, a position in the file; then the least number of
/// bytes to move, and where in the buffer to start, which the first two need
/// not be told.
#[derive(Clone, Copy, Debug, PartialEq, Eq, Structural)]
pub enum IoMethod {
    Read,
    Write,
    PRead,
    PWrite,
}

impl IoMethod {
    /// The operation takes a position in the file.
    pub open spec fn positioned(self) -> bool {
        self is PRead || self is PWrite
    }

    /// The operation takes this number of arguments.
    pub open spec fn takes(self, count: int) -> bool {
        if self.positioned() {
            count == 6
        } else {
            4 <= count <= 5
        }
    }

    /// The numbers of arguments that the operation takes, in words.
    pub open spec fn arity(self) -> Seq<char> {
        if self.positioned() {
            "6"@
        } else {
            "4..5"@
        }
    }

    /// The call that carries the operation out.
    pub open spec fn operation(self, position: i64) -> BufferIoOperation {
        match self {
            IoMethod::Read => BufferIoOperation::Read,
            IoMethod::Write => BufferIoOperation::Write,
            IoMethod::PRead => BufferIoOperation::PRead(position),
            IoMethod::PWrite => BufferIoOperation::PWrite(position),
        }
    }

    fn at(self, position: i64) -> (operation: BufferIoOperation)
        ensures
            operation == self.operation(position),
    {
        match self {
            IoMethod::Read => BufferIoOperation::Read,
            IoMethod::Write => BufferIoOperation::Write,
            IoMethod::PRead => BufferIoOperation::PRead(position),
            IoMethod::PWrite => BufferIoOperation::PWrite(position),
        }
    }
}

/// What the arguments of an operation ask for.
#[derive(Clone, Copy, Debug, PartialEq, Eq, Structural)]
pub struct IoRequest {
    pub operation: BufferIoOperation,
    /// The least number of bytes to move.
    pub length: usize,
    /// Where in the buffer to start.
    pub offset: usize,
}

/// An operation on its way: what has to be asked or done next. Arguments are
/// counted from 0. `E` is an exception raised on the way.
pub enum IoCall<E> {
    /// Convert this argument to a position in the file.
    ReadPosition { method: IoMethod, argument: usize },
    /// Convert this argument to a number of bytes; `offset_argument` tells where
    /// to start, if it was given.
    ReadLength { operation: BufferIoOperation, argument: usize, offset_argument: Option<usize> },
    /// Convert this argument to a place in the buffer.
    ReadOffset { operation: BufferIoOperation, length: usize, argument: usize },
    /// Ask the buffer for its size.
    AskBufferSize(IoRequest),
    /// Ask the I/O object for its descriptor number.
    AskDescriptor(IoRequest),
    /// Make the descriptor non-blocking.
    SetNonblock { request: IoRequest, fd: Descriptor },
    /// Move the bytes. If the descriptor was made non-blocking, these were its
    /// flags before.
    Transfer { request: IoRequest, fd: Descriptor, original: Option<i32> },
    /// Give the descriptor these flags back.
    Restore { fd: Descriptor, flags: i32, outcome: Result<BufferOutcome, E> },
    /// The operation is over.
    Done(Result<BufferOutcome, E>),
}

impl<E> IoCall<E> {
    /// Starts an operation that was given `argument_count` arguments.
    pub fn start(method: IoMethod, argument_count: usize) -> (started: Result<Self, Failure>)
        ensures
            started is Ok <==> method.takes(argument_count as int),
            match started {
                Ok(call) => call == (if method.positioned() {
                    IoCall::<E>::ReadPosition { method, argument: 3 }
                } else {
                    IoCall::<E>::ReadLength {
                        operation: method.operation(0),
                        argument: 3,
                        offset_argument: if argument_count == 5 {
                            Some(4usize)
                        } else {
                            None
                        },
                    }
                }),
                Err(failure) => failure.says(
                    ErrorKind::Argument,
                    arity_message(argument_count as nat, method.arity()),
                ),
            },
    {
        match method {
            IoMethod::PRead | IoMethod::PWrite => {
                if argument_count != 6 {
                    return Err(wrong_arity(argument_count, "6"));
                }
                Ok(IoCall::ReadPosition { method, argument: 3 })
            },
            IoMethod::Read | IoMethod::Write => {
                if argument_count < 4 || argument_count > 5 {
                    return Err(wrong_arity(argument_count, "4..5"));
                }
                Ok(
                    IoCall::ReadLength {
                        operation: method.at(0),
                        argument: 3,
                        offset_argument: if argument_count == 5 {
                            Some(4)
                        } else {
                            None
                        },
                    },
                )
            },
        }
    }

    /// Goes on with the position in the file.
    pub fn position_read(self, position: Result<i64, E>) -> (call: Self)
        requires
            self is ReadPosition,
        ensures
            call == (match position {
                Ok(position) => IoCall::<E>::ReadLength {
                    operation: self->method.operation(position),
                    argument: 4,
                    offset_argument: Some(5usize),
                },
                Err(error) => IoCall::<E>::Done(Err(error)),
            }),
    {
        match (self, position) {
            (IoCall::ReadPosition { method, .. }, Ok(position)) => IoCall::ReadLength {
                operation: method.at(position),
                argument: 4,
                offset_argument: Some(5),
            },
            (other, Ok(_)) => other,
            (_, Err(error)) => IoCall::Done(Err(error)),
        }
    }

    /// Goes on with the least number of bytes to move. Where the caller did not
    /// say where in the buffer to start, it is at the beginning.
    pub fn length_read(self, length: Result<usize, E>) -> (call: Self)
        requires
            self is ReadLength,
        ensures
            call == (match length {
                Ok(length) => match self->offset_argument {
                    Some(argument) => IoCall::<E>::ReadOffset {
                        operation: self->ReadLength_operation,
                        length,
                        argument,
                    },
                    None => IoCall::<E>::AskBufferSize(
                        IoRequest { operation: self->ReadLength_operation, length, offset: 0 },
                    ),
                },
                Err(error) => IoCall::<E>::Done(Err(error)),
            }),
    {
        match (self, length) {
            (IoCall::ReadLength { operation, offset_argument, .. }, Ok(length)) => {
                match offset_argument {
                    Some(argument) => IoCall::ReadOffset { operation, length, argument },
                    None => IoCall::AskBufferSize(IoRequest { operation, length, offset: 0 }),
                }
            },
            (other, Ok(_)) => other,
            (_, Err(error)) => IoCall::Done(Err(error)),
        }
    }

    /// Goes on with the place in the buffer to start at.
    pub fn offset_read(self, offset: Result<usize, E>) -> (call: Self)
        requires
            self is ReadOffset,
        ensures
            call == (match offset {
                Ok(offset) => IoCall::<E>::AskBufferSize(
                    IoRequest {
                        operation: self->ReadOffset_operation,
                        length: self->length,
                        offset,
                    },
                ),
                Err(error) => IoCall::<E>::Done(Err(error)),
            }),
    {
        match (self, offset) {
            (IoCall::ReadOffset { operation, length, .. }, Ok(offset)) => IoCall::AskBufferSize(
                IoRequest { operation, length, offset },
            ),
            (other, Ok(_)) => other,
            (_, Err(error)) => IoCall::Done(Err(error)),
        }
    }

    /// Goes on with the size of the buffer. There is no starting beyond its end.
    pub fn size_read(self, platform: &Platform, size: Result<usize, E>) -> (call: Self)
        requires
            self is AskBufferSize,
        ensures
            call == (match size {
                Ok(size) => if self->AskBufferSize_0.offset > size {
                    IoCall::<E>::Done(Ok(refused(platform.einval)))
                } else {
                    IoCall::<E>::AskDescriptor(self->AskBufferSize_0)
                },
                Err(error) => IoCall::<E>::Done(Err(error)),
            }),
    {
        match (self, size) {
            (IoCall::AskBufferSize(request), Ok(size)) => {
                if request.offset > size {
                    IoCall::Done(Ok(refuse(platform.einval)))
                } else {
                    IoCall::AskDescriptor(request)
                }
            },
            (other, Ok(_)) => other,
            (_, Err(error)) => IoCall::Done(Err(error)),
        }
    }

    /// Goes on with the number of the descriptor. On Unix it is made non-blocking
    /// first, unless the operation gives a position in the file.
    pub fn descriptor_read(self, platform: &Platform, fileno: Result<i64, E>) -> (call: Self)
        requires
            self is AskDescriptor,
        ensures
            call == (match fileno {
                Ok(fileno) => {
                    let request = self->AskDescriptor_0;
                    let fd = descriptor(*platform, fileno);
                    if platform.unix && (request.operation is Read || request.operation is Write) {
                        IoCall::<E>::SetNonblock { request, fd }
                    } else {
                        IoCall::<E>::Transfer { request, fd, original: None }
                    }
                },
                Err(error) => IoCall::<E>::Done(Err(error)),
            }),
    {
        match (self, fileno) {
            (IoCall::AskDescriptor(request), Ok(fileno)) => {
                let fd = io_descriptor(platform, fileno);
                let plain = match request.operation {
                    BufferIoOperation::Read | BufferIoOperation::Write => true,
                    _ => false,
                };
                if platform.unix && plain {
                    IoCall::SetNonblock { request, fd }
                } else {
                    IoCall::Transfer { request, fd, original: None }
                }
            },
            (other, Ok(_)) => other,
            (_, Err(error)) => IoCall::Done(Err(error)),
        }
    }

    /// Goes on once the descriptor is non-blocking; these were its flags before.
    pub fn nonblock_set(self, flags: Result<i32, E>) -> (call: Self)
        requires
            self is SetNonblock,
        ensures
            call == (match flags {
                Ok(flags) => IoCall::<E>::Transfer {
                    request: self->SetNonblock_request,
                    fd: self->SetNonblock_fd,
                    original: Some(flags),
                },
                Err(error) => IoCall::<E>::Done(Err(error)),
            }),
    {
        match (self, flags) {
            (IoCall::SetNonblock { request, fd }, Ok(flags)) => IoCall::Transfer {
                request,
                fd,
                original: Some(flags),
            },
            (other, Ok(_)) => other,
            (_, Err(error)) => IoCall::Done(Err(error)),
        }
    }

    /// What follows once the bytes have been moved, or have not.
    pub open spec fn after_transfer(
        self,
        platform: Platform,
        outcome: Result<BufferOutcome, E>,
    ) -> Self {
        match self->original {
            Some(flags) => if flags & platform.nonblock == 0 {
                IoCall::Restore { fd: self->Transfer_fd, flags, outcome }
            } else {
                IoCall::Done(outcome)
            },
            None => IoCall::Done(outcome),
        }
    }

    /// Goes on once the bytes have been moved, or have not. A descriptor that
    /// was not non-blocking before gets its flags back, whatever happened.
    pub fn transferred(self, platform: &Platform, outcome: Result<BufferOutcome, E>) -> (call: Self)
        requires
            self is Transfer,
        ensures
            call == self.after_transfer(*platform, outcome),
    {
        match self {
            IoCall::Transfer { fd, original: Some(original), .. } => {
                match restore_nonblock(platform, original) {
                    Some(flags) => IoCall::Restore { fd, flags, outcome },
                    None => IoCall::Done(outcome),
                }
            },
            _ => IoCall::Done(outcome),
        }
    }

    /// Ends once the descriptor has its flags back. If it could not get them,
    /// that is what the operation ends with.
    pub fn restored(self, result: Result<(), E>) -> (call: Self)
        requires
            self is Restore,
        ensures
            call == (match result {
                Ok(_) => IoCall::<E>::Done(self->outcome),
                Err(error) => IoCall::<E>::Done(Err(error)),
            }),
    {
        match (self, result) {
            (IoCall::Restore { outcome, .. }, Ok(_)) => IoCall::Done(outcome),
            (other, Ok(_)) => other,
            (_, Err(error)) => IoCall::Done(Err(error)),
        }
    }
}

} // verus!
