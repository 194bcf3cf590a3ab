//! Reading and writing, one call at a time.

use vstd::prelude::*;

use crate::buffer::{
    BufferIoOperation, BufferOutcome, BufferStep, BufferTransfer, DelegatedStep,
    DelegatedTransfer,
};
use crate::event::{Descriptor, PRIORITY, READABLE, WRITABLE};
use crate::failure::{decimal, digit_char, ErrorKind, Failure};
use crate::io_call::{IoCall, IoMethod, IoRequest};
use crate::platform::Platform;

verus! {

/// The readiness conditions are the numbers that the language has for them.
pub proof fn law_conditions_have_their_numbers()
    ensures
        READABLE == 1,
        PRIORITY == 2,
        WRITABLE == 4,
{
}

/// An operation that reads fills the buffer and waits until its descriptor is
/// readable; one that writes takes from the buffer and waits until its descriptor is
/// writable; with or without a position in the file.
pub proof fn law_operation_waits_for_its_direction(
    operation: BufferIoOperation,
    fills: bool,
    events: i32,
)
    requires
        call_ensures(BufferIoOperation::writes_to_buffer, (&operation,), fills),
        call_ensures(BufferIoOperation::events, (&operation,), events),
    ensures
        operation is Read ==> fills && events == 1,
        operation is PRead ==> fills && events == 1,
        operation is Write ==> !fills && events == 4,
        operation is PWrite ==> !fills && events == 4,
{
}

/// The operation `after` is `before` at a position `count` bytes further on, where it
/// has one.
pub open spec fn moved_on(
    before: BufferIoOperation,
    after: BufferIoOperation,
    count: int,
) -> bool {
    match before {
        BufferIoOperation::Read => after is Read,
        BufferIoOperation::Write => after is Write,
        BufferIoOperation::PRead(from) => after matches BufferIoOperation::PRead(to) && to == from
            + count,
        BufferIoOperation::PWrite(from) => after matches BufferIoOperation::PWrite(to) && to
            == from + count,
    }
}

/// The position `count` bytes further on can be told.
pub open spec fn has_room(operation: BufferIoOperation, count: int) -> bool {
    match operation {
        BufferIoOperation::PRead(from) => from + count <= i64::MAX,
        BufferIoOperation::PWrite(from) => from + count <= i64::MAX,
        _ => true,
    }
}

/// The position in the file moves by just the bytes moved.
pub proof fn law_position_moves_with_the_bytes(operation: &mut BufferIoOperation, amount: usize)
    requires
        has_room(*old(operation), amount as int),
        call_ensures(BufferIoOperation::advance, (operation, amount), ()),
    ensures
        moved_on(*old(operation), *final(operation), amount as int),
{
}

/// The condition that an operation waits for: 1 to read, 4 to write.
pub open spec fn direction(operation: BufferIoOperation) -> i32 {
    match operation {
        BufferIoOperation::Read => 1,
        BufferIoOperation::PRead(_) => 1,
        BufferIoOperation::Write => 4,
        BufferIoOperation::PWrite(_) => 4,
    }
}

/// A transfer begins with a call on the buffer from the given offset to its end. It
/// is over at once at the end of the buffer, and refused beyond it.
pub proof fn law_transfer_begins_where_it_was_told<E>(
    platform: Platform,
    operation: BufferIoOperation,
    length: usize,
    offset: usize,
    size: usize,
    started: (BufferTransfer, BufferStep<E>),
)
    requires
        call_ensures(
            BufferTransfer::selector_io_buffer_syscall::<E>,
            (&platform, operation, length, offset, size),
            started,
        ),
    ensures
        started.0.operation == operation,
        started.0.length == length,
        started.0.offset == offset,
        started.0.size == size,
        started.0.total == 0,
        offset > size ==> started.1 == BufferStep::<E>::Done(
            Ok(BufferOutcome::Refused(-(platform.einval as i64) as i64)),
        ),
        offset == size ==> started.1 == BufferStep::<E>::Done(Ok(BufferOutcome::Transferred(0))),
        offset < size ==> started.1 == (BufferStep::<E>::Call {
            offset,
            maximum: (size - offset) as usize,
        }),
{
}

/// A call that moved bytes moves the place in the buffer, the count and the position
/// by just as many. The transfer is over as soon as no bytes are missing, or at the
/// end of the buffer, and ends with the count; otherwise the next call is on the rest
/// of the buffer, and as many bytes less are missing. A call that moved none ends it
/// too. A call that would have had to wait, with bytes missing, is waited for in the
/// direction of the operation; any other refusal ends the transfer with its code.
pub proof fn law_call_is_followed_up<E>(
    transfer: &mut BufferTransfer,
    platform: Platform,
    result: isize,
    errno: i32,
    step: BufferStep<E>,
)
    requires
        old(transfer).total <= old(transfer).offset <= old(transfer).size,
        result <= old(transfer).size - old(transfer).offset,
        result > 0 ==> has_room(old(transfer).operation, result as int),
        call_ensures(
            BufferTransfer::called::<E>,
            (transfer, &platform, result, errno),
            step,
        ),
    ensures
        result <= 0 ==> *final(transfer) == *old(transfer),
        result == 0 ==> step == BufferStep::<E>::Done(
            Ok(BufferOutcome::Transferred(old(transfer).total)),
        ),
        result < 0 ==> {
            let again = errno == platform.eagain || errno == platform.ewouldblock;
            &&& again && old(transfer).length > 0 ==> step == (BufferStep::<E>::Wait {
                events: direction(old(transfer).operation),
            })
            &&& !again || old(transfer).length == 0 ==> step == BufferStep::<E>::Done(
                Ok(BufferOutcome::Refused(-(errno as i64) as i64)),
            )
        },
        result > 0 ==> {
            let total = old(transfer).total + result;
            let offset = old(transfer).offset + result;
            &&& final(transfer).total == total
            &&& final(transfer).offset == offset
            &&& final(transfer).size == old(transfer).size
            &&& moved_on(old(transfer).operation, final(transfer).operation, result as int)
            &&& result >= old(transfer).length || offset == old(transfer).size ==> step
                == BufferStep::<E>::Done(Ok(BufferOutcome::Transferred(total as usize)))
            &&& result < old(transfer).length ==> final(transfer).length == old(transfer).length
                - result
            &&& result < old(transfer).length && offset < old(transfer).size ==> step == (
            BufferStep::<E>::Call {
                offset: offset as usize,
                maximum: (old(transfer).size - offset) as usize,
            })
        },
{
}

/// After a wait the same call is made again, on the rest of the buffer. An exception
/// ends the transfer.
pub proof fn law_call_is_made_again_after_a_wait<E>(
    transfer: BufferTransfer,
    outcome: Result<Option<i32>, E>,
    step: BufferStep<E>,
)
    requires
        transfer.total <= transfer.offset < transfer.size,
        call_ensures(BufferTransfer::waited::<E>, (&transfer, outcome), step),
    ensures
        outcome is Ok ==> step == (BufferStep::<E>::Call {
            offset: transfer.offset,
            maximum: (transfer.size - transfer.offset) as usize,
        }),
        outcome matches Err(error) ==> step == BufferStep::<E>::Done(Err(error)),
{
}

/// A transfer that the buffer makes itself begins at the given offset, waits for the
/// given condition, and is made again from where it was after a wait.
pub proof fn law_delegated_transfer_begins_where_it_was_told<E>(
    events: i32,
    length: usize,
    offset: usize,
    started: (DelegatedTransfer, DelegatedStep<E>),
    transfer: DelegatedTransfer,
    outcome: Result<Option<i32>, E>,
    again: DelegatedStep<E>,
)
    requires
        call_ensures(DelegatedTransfer::start::<E>, (events, length, offset), started),
        call_ensures(DelegatedTransfer::waited::<E>, (&transfer, outcome), again),
    ensures
        started.0.events == events,
        started.0.length == length,
        started.0.offset == offset,
        started.0.total == 0,
        started.1 == (DelegatedStep::<E>::Call { offset }),
        outcome is Ok ==> again == (DelegatedStep::<E>::Call { offset: transfer.offset }),
        outcome matches Err(error) ==> again == DelegatedStep::<E>::Done(Err(error)),
{
}

/// A call that the buffer made and that moved bytes moves the place in the buffer and
/// the count by just as many. The transfer is over as soon as no bytes are missing,
/// and ends with the count; otherwise the next call is from the new place on. A call
/// that moved none ends it too. A call that would have had to wait, with bytes
/// missing, is waited for; any other refusal is what the transfer ends with.
pub proof fn law_delegated_call_is_followed_up<E>(
    transfer: &mut DelegatedTransfer,
    platform: Platform,
    result: i64,
    step: DelegatedStep<E>,
)
    requires
        old(transfer).total <= old(transfer).offset,
        result != i64::MIN,
        result > 0 ==> old(transfer).offset + result <= usize::MAX,
        call_ensures(DelegatedTransfer::called::<E>, (transfer, &platform, result), step),
    ensures
        final(transfer).events == old(transfer).events,
        result <= 0 ==> *final(transfer) == *old(transfer),
        result == 0 ==> step == DelegatedStep::<E>::Done(
            Ok(BufferOutcome::Transferred(old(transfer).total)),
        ),
        -0x8000_0000 < result < 0 ==> (-result) as i32 == -result,
        result < 0 ==> {
            let errno = (-result) as i32;
            let again = errno == platform.eagain || errno == platform.ewouldblock;
            &&& again && old(transfer).length > 0 ==> step == (DelegatedStep::<E>::Wait {
                events: old(transfer).events,
            })
            &&& !again || old(transfer).length == 0 ==> step == DelegatedStep::<E>::Done(
                Ok(BufferOutcome::Refused(result)),
            )
        },
        result > 0 ==> {
            let total = old(transfer).total + result;
            let offset = old(transfer).offset + result;
            &&& final(transfer).total == total
            &&& final(transfer).offset == offset
            &&& result >= old(transfer).length ==> step == DelegatedStep::<E>::Done(
                Ok(BufferOutcome::Transferred(total as usize)),
            )
            &&& result < old(transfer).length ==> {
                &&& final(transfer).length == old(transfer).length - result
                &&& step == (DelegatedStep::<E>::Call { offset: offset as usize })
            }
        },
{
}

/// What a string of decimal digits stands for.
pub open spec fn value_of(digits: Seq<char>) -> int
    decreases digits.len(),
{
    if digits.len() == 0 {
        0
    } else {
        10 * value_of(digits.drop_last()) + (digits.last() as int - '0' as int)
    }
}

/// A number is written in decimal digits, without leading zeros.
pub open spec fn reads_as(digits: Seq<char>, number: int) -> bool {
    &&& digits.len() > 0
    &&& forall|i: int| 0 <= i < digits.len() ==> '0' <= #[trigger] digits[i] <= '9'
    &&& digits.len() > 1 ==> digits[0] != '0'
    &&& value_of(digits) == number
}

proof fn lemma_decimal(number: nat)
    ensures
        reads_as(decimal(number), number as int),
        number > 0 ==> decimal(number)[0] != '0',
    decreases number,
{
    let digit = number % 10;
    assert('0' <= digit_char(digit) <= '9');
    assert(digit_char(digit) as int - '0' as int == digit);
    if number < 10 {
        assert(decimal(number).drop_last() =~= Seq::<char>::empty());
        assert(value_of(decimal(number).drop_last()) == 0);
    } else {
        lemma_decimal(number / 10);
        let front = decimal(number / 10);
        assert(decimal(number).drop_last() =~= front);
        assert forall|i: int| 0 <= i < decimal(number).len() implies '0' <= #[trigger] decimal(
            number,
        )[i] <= '9' by {
            if i < front.len() {
                assert(decimal(number)[i] == front[i]);
            }
        }
        assert(decimal(number)[0] == front[0]);
    }
}

/// An operation is refused if and only if it is given the wrong number of arguments:
/// 4 or 5 where it gives no position in the file, 6 where it gives one. The refusal
/// tells the number given and the numbers taken.
pub proof fn law_wrong_number_of_arguments_is_told<E>(
    method: IoMethod,
    count: usize,
    started: Result<IoCall<E>, Failure>,
)
    requires
        call_ensures(IoCall::<E>::start, (method, count), started),
    ensures
        method is Read || method is Write ==> (started is Ok <==> count == 4 || count == 5),
        method is PRead || method is PWrite ==> (started is Ok <==> count == 6),
        started matches Err(failure) ==> {
            let taken = if method is Read || method is Write {
                "4..5"@
            } else {
                "6"@
            };
            &&& failure.kind == ErrorKind::Argument
            &&& exists|digits: Seq<char>| #[trigger]
                reads_as(digits, count as int) && failure.message@
                    == "wrong number of arguments (given "@ + digits + ", expected "@ + taken
                    + ")"@
        },
{
    lemma_decimal(count as nat);
}

/// Reading and writing ask for the number of bytes and then, if the caller gave it,
/// for the place in the buffer, which is otherwise its beginning; and go on with just
/// what was given.
pub proof fn law_plain_operation_asks_for_what_was_given<E>(
    method: IoMethod,
    count: usize,
    start: IoCall<E>,
    length: usize,
    sized: IoCall<E>,
    offset: usize,
    placed: IoCall<E>,
)
    requires
        method is Read || method is Write,
        call_ensures(IoCall::<E>::start, (method, count), Ok(start)),
        call_ensures(IoCall::<E>::length_read, (start, Ok(length)), sized),
        count == 5 ==> call_ensures(IoCall::<E>::offset_read, (sized, Ok(offset)), placed),
    ensures
        ({
            let operation = if method is Read {
                BufferIoOperation::Read
            } else {
                BufferIoOperation::Write
            };
            &&& start == (IoCall::<E>::ReadLength {
                operation,
                argument: 3,
                offset_argument: if count == 5 {
                    Some(4usize)
                } else {
                    None
                },
            })
            &&& count == 4 ==> sized == IoCall::<E>::AskBufferSize(
                IoRequest { operation, length, offset: 0 },
            )
            &&& count == 5 ==> {
                &&& sized == (IoCall::<E>::ReadOffset { operation, length, argument: 4 })
                &&& placed == IoCall::<E>::AskBufferSize(IoRequest { operation, length, offset })
            }
        }),
{
}

/// Reading and writing at a position in the file ask for the position, the number of
/// bytes and the place in the buffer, and go on with just what was given.
pub proof fn law_positioned_operation_asks_for_what_was_given<E>(
    method: IoMethod,
    count: usize,
    start: IoCall<E>,
    position: i64,
    positioned: IoCall<E>,
    length: usize,
    sized: IoCall<E>,
    offset: usize,
    placed: IoCall<E>,
)
    requires
        method is PRead || method is PWrite,
        call_ensures(IoCall::<E>::start, (method, count), Ok(start)),
        call_ensures(IoCall::<E>::position_read, (start, Ok(position)), positioned),
        call_ensures(IoCall::<E>::length_read, (positioned, Ok(length)), sized),
        call_ensures(IoCall::<E>::offset_read, (sized, Ok(offset)), placed),
    ensures
        ({
            let operation = if method is PRead {
                BufferIoOperation::PRead(position)
            } else {
                BufferIoOperation::PWrite(position)
            };
            &&& start == (IoCall::<E>::ReadPosition { method, argument: 3 })
            &&& positioned == (IoCall::<E>::ReadLength {
                operation,
                argument: 4,
                offset_argument: Some(5usize),
            })
            &&& sized == (IoCall::<E>::ReadOffset { operation, length, argument: 5 })
            &&& placed == IoCall::<E>::AskBufferSize(IoRequest { operation, length, offset })
        }),
{
}

/// The number in 32 bits with the same lower half.
pub open spec fn narrowed(fileno: i64, fd: Descriptor) -> bool {
    -0x8000_0000 <= fd < 0x8000_0000 && fd & 0xffff_ffff == fileno & 0xffff_ffff
}

/// An operation that starts beyond the end of the buffer is refused. Any other goes on
/// to its descriptor, which on Unix is made non-blocking first where the operation
/// gives no position in the file.
pub proof fn law_operation_stays_in_the_buffer<E>(
    platform: Platform,
    request: IoRequest,
    size: usize,
    asked: IoCall<E>,
    fileno: i64,
    found: IoCall<E>,
)
    requires
        call_ensures(
            IoCall::<E>::size_read,
            (IoCall::<E>::AskBufferSize(request), &platform, Ok(size)),
            asked,
        ),
        call_ensures(
            IoCall::<E>::descriptor_read,
            (IoCall::<E>::AskDescriptor(request), &platform, Ok(fileno)),
            found,
        ),
    ensures
        request.offset > size ==> asked == IoCall::<E>::Done(
            Ok(BufferOutcome::Refused(-(platform.einval as i64) as i64)),
        ),
        request.offset <= size ==> asked == IoCall::<E>::AskDescriptor(request),
        ({
            let plain = request.operation is Read || request.operation is Write;
            &&& platform.unix && plain ==> match found {
                IoCall::SetNonblock { request: kept, fd } => kept == request && narrowed(
                    fileno,
                    fd,
                ),
                _ => false,
            }
            &&& platform.unix && !plain ==> match found {
                IoCall::Transfer { request: kept, fd, original } => kept == request
                    && original is None && narrowed(fileno, fd),
                _ => false,
            }
            &&& !platform.unix ==> found == (IoCall::<E>::Transfer {
                request,
                fd: fileno,
                original: None,
            })
        }),
{
    assert(((fileno as i32) as i64) & 0xffff_ffff == fileno & 0xffff_ffff) by (bit_vector);
}

/// A descriptor that was made non-blocking gets just the flags back that it had before,
/// whatever became of the bytes; one that was non-blocking all along, or was left alone,
/// does not. The operation ends with what became of the bytes, unless the flags could
/// not be given back.
pub proof fn law_flags_are_given_back<E>(
    platform: Platform,
    request: IoRequest,
    fd: Descriptor,
    flags: i32,
    set: IoCall<E>,
    outcome: Result<BufferOutcome, E>,
    moved: IoCall<E>,
    alone: IoCall<E>,
    result: Result<(), E>,
    end: IoCall<E>,
)
    requires
        call_ensures(
            IoCall::<E>::nonblock_set,
            (IoCall::<E>::SetNonblock { request, fd }, Ok(flags)),
            set,
        ),
        call_ensures(IoCall::<E>::transferred, (set, &platform, outcome), moved),
        call_ensures(
            IoCall::<E>::transferred,
            (IoCall::<E>::Transfer { request, fd, original: None }, &platform, outcome),
            alone,
        ),
        call_ensures(
            IoCall::<E>::restored,
            (IoCall::<E>::Restore { fd, flags, outcome }, result),
            end,
        ),
    ensures
        set == (IoCall::<E>::Transfer { request, fd, original: Some(flags) }),
        flags & platform.nonblock == 0 ==> moved == (IoCall::<E>::Restore { fd, flags, outcome }),
        flags & platform.nonblock != 0 ==> moved == IoCall::<E>::Done(outcome),
        alone == IoCall::<E>::Done(outcome),
        result is Ok ==> end == IoCall::<E>::Done(outcome),
        result matches Err(error) ==> end == IoCall::<E>::Done(Err(error)),
{
}

/// An exception before the bytes are moved is what the operation ends with.
pub proof fn law_operation_passes_exceptions_on<E>(
    platform: Platform,
    method: IoMethod,
    operation: BufferIoOperation,
    request: IoRequest,
    fd: Descriptor,
    number: usize,
    other: Option<usize>,
    error: E,
    position: IoCall<E>,
    length: IoCall<E>,
    offset: IoCall<E>,
    size: IoCall<E>,
    descriptor: IoCall<E>,
    flags: IoCall<E>,
)
    requires
        call_ensures(
            IoCall::<E>::position_read,
            (IoCall::<E>::ReadPosition { method, argument: number }, Err(error)),
            position,
        ),
        call_ensures(
            IoCall::<E>::length_read,
            (
                IoCall::<E>::ReadLength { operation, argument: number, offset_argument: other },
                Err(error),
            ),
            length,
        ),
        call_ensures(
            IoCall::<E>::offset_read,
            (IoCall::<E>::ReadOffset { operation, length: number, argument: number }, Err(error)),
            offset,
        ),
        call_ensures(
            IoCall::<E>::size_read,
            (IoCall::<E>::AskBufferSize(request), &platform, Err(error)),
            size,
        ),
        call_ensures(
            IoCall::<E>::descriptor_read,
            (IoCall::<E>::AskDescriptor(request), &platform, Err(error)),
            descriptor,
        ),
        call_ensures(
            IoCall::<E>::nonblock_set,
            (IoCall::<E>::SetNonblock { request, fd }, Err(error)),
            flags,
        ),
    ensures
        position == IoCall::<E>::Done(Err(error)),
        length == IoCall::<E>::Done(Err(error)),
        offset == IoCall::<E>::Done(Err(error)),
        size == IoCall::<E>::Done(Err(error)),
        descriptor == IoCall::<E>::Done(Err(error)),
        flags == IoCall::<E>::Done(Err(error)),
{
}

} // verus!
