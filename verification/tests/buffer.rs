use io_event::buffer::{
    BufferIoOperation, BufferOutcome, BufferStep, BufferTransfer, DelegatedStep,
    DelegatedTransfer,
};
use io_event::event::{READABLE, WRITABLE};
use io_event::failure::ErrorKind;
use io_event::io_call::{IoCall, IoMethod, IoRequest};
use io_event::platform::{Platform, UnixNumbers};

fn host() -> Platform {
    Platform::host(Some(UnixNumbers {
        pollin: libc::POLLIN,
        pollpri: libc::POLLPRI,
        pollout: libc::POLLOUT,
        pollerr: libc::POLLERR,
        pollhup: libc::POLLHUP,
        nonblock: libc::O_NONBLOCK,
    }))
}

type Step = BufferStep<&'static str>;

fn start(
    operation: BufferIoOperation,
    length: usize,
    offset: usize,
    size: usize,
) -> (BufferTransfer, Step) {
    BufferTransfer::selector_io_buffer_syscall(&host(), operation, length, offset, size)
}

#[test]
fn operations_know_their_direction() {
    assert!(BufferIoOperation::Read.writes_to_buffer());
    assert!(BufferIoOperation::PRead(3).writes_to_buffer());
    assert!(!BufferIoOperation::Write.writes_to_buffer());
    assert!(!BufferIoOperation::PWrite(3).writes_to_buffer());
    assert_eq!(BufferIoOperation::Read.events(), READABLE);
    assert_eq!(BufferIoOperation::PWrite(0).events(), WRITABLE);
    let mut operation = BufferIoOperation::PRead(-3);
    operation.advance(10);
    assert_eq!(operation, BufferIoOperation::PRead(7));
    let mut operation = BufferIoOperation::PWrite(1);
    operation.advance(2);
    assert_eq!(operation, BufferIoOperation::PWrite(3));
    let mut operation = BufferIoOperation::Write;
    operation.advance(10);
    assert_eq!(operation, BufferIoOperation::Write);
}

#[test]
fn transfer_goes_on_until_enough_was_moved() {
    let platform = host();
    let (mut transfer, step) = start(BufferIoOperation::PRead(1000), 10, 4, 64);
    assert!(matches!(step, BufferStep::Call { offset: 4, maximum: 60 }));
    let step: Step = transfer.called(&platform, 3, 0);
    assert!(matches!(step, BufferStep::Call { offset: 7, maximum: 57 }));
    let step: Step = transfer.called(&platform, -1, libc::EAGAIN);
    assert!(matches!(step, BufferStep::Wait { events: READABLE }));
    let step: Step = transfer.waited(Ok(Some(READABLE)));
    assert!(matches!(step, BufferStep::Call { offset: 7, maximum: 57 }));
    let step: Step = transfer.called(&platform, 8, 0);
    assert!(matches!(step, BufferStep::Done(Ok(BufferOutcome::Transferred(11)))));
    assert_eq!(transfer.operation, BufferIoOperation::PRead(1011));
    assert_eq!((transfer.total, transfer.offset), (11, 15));
}

#[test]
fn transfer_ends_where_nothing_more_is_moved() {
    let platform = host();
    let (mut transfer, _) = start(BufferIoOperation::Read, 10, 0, 64);
    let _step: Step = transfer.called(&platform, 3, 0);
    let step: Step = transfer.called(&platform, 0, 0);
    assert!(matches!(step, BufferStep::Done(Ok(BufferOutcome::Transferred(3)))));
}

#[test]
fn transfer_ends_at_the_end_of_the_buffer() {
    let platform = host();
    let (mut transfer, step) = start(BufferIoOperation::Write, 10, 4, 8);
    assert!(matches!(step, BufferStep::Call { offset: 4, maximum: 4 }));
    let step: Step = transfer.called(&platform, 4, 0);
    assert!(matches!(step, BufferStep::Done(Ok(BufferOutcome::Transferred(4)))));
    let (_, step) = start(BufferIoOperation::Write, 10, 8, 8);
    assert!(matches!(step, BufferStep::Done(Ok(BufferOutcome::Transferred(0)))));
}

#[test]
fn transfer_does_not_start_beyond_the_buffer() {
    let (_, step) = start(BufferIoOperation::Read, 1, 9, 8);
    match step {
        BufferStep::Done(Ok(outcome)) => {
            assert_eq!(outcome, BufferOutcome::Refused(-i64::from(libc::EINVAL)))
        }
        _ => panic!("there is no such place"),
    }
}

#[test]
fn transfer_of_nothing_is_not_waited_for() {
    let platform = host();
    let (mut transfer, _) = start(BufferIoOperation::Read, 0, 0, 8);
    let step: Step = transfer.called(&platform, -1, libc::EAGAIN);
    match step {
        BufferStep::Done(Ok(outcome)) => {
            assert_eq!(outcome, BufferOutcome::Refused(-i64::from(libc::EAGAIN)))
        }
        _ => panic!("nobody wants to wait"),
    }
    let (mut transfer, _) = start(BufferIoOperation::Read, 0, 0, 8);
    let step: Step = transfer.called(&platform, 5, 0);
    assert!(matches!(step, BufferStep::Done(Ok(BufferOutcome::Transferred(5)))));
}

#[test]
fn refusals_and_exceptions_end_the_transfer() {
    let platform = host();
    let (mut transfer, _) = start(BufferIoOperation::Write, 10, 0, 8);
    let step: Step = transfer.called(&platform, -1, libc::EPIPE);
    match step {
        BufferStep::Done(Ok(outcome)) => {
            assert_eq!(outcome, BufferOutcome::Refused(-i64::from(libc::EPIPE)))
        }
        _ => panic!("the system refused"),
    }
    let step: Step = transfer.waited(Err("raised"));
    assert!(matches!(step, BufferStep::Done(Err("raised"))));
}

#[test]
fn delegated_transfer_follows_the_buffer() {
    let platform = host();
    type Delegated = DelegatedStep<&'static str>;
    let (mut transfer, step): (DelegatedTransfer, Delegated) =
        DelegatedTransfer::start(WRITABLE, 10, 4);
    assert!(matches!(step, DelegatedStep::Call { offset: 4 }));
    let step: Delegated = transfer.called(&platform, 6);
    assert!(matches!(step, DelegatedStep::Call { offset: 10 }));
    let step: Delegated = transfer.called(&platform, -i64::from(libc::EAGAIN));
    assert!(matches!(step, DelegatedStep::Wait { events: WRITABLE }));
    let step: Delegated = transfer.waited(Ok(None));
    assert!(matches!(step, DelegatedStep::Call { offset: 10 }));
    let step: Delegated = transfer.waited(Err("raised"));
    assert!(matches!(step, DelegatedStep::Done(Err("raised"))));
    let step: Delegated = transfer.called(&platform, 4);
    assert!(matches!(step, DelegatedStep::Done(Ok(BufferOutcome::Transferred(10)))));
    let (mut transfer, _step): (DelegatedTransfer, Delegated) =
        DelegatedTransfer::start(WRITABLE, 10, 4);
    let step: Delegated = transfer.called(&platform, 0);
    assert!(matches!(step, DelegatedStep::Done(Ok(BufferOutcome::Transferred(0)))));
    let step: Delegated = transfer.called(&platform, -5);
    assert!(matches!(step, DelegatedStep::Done(Ok(BufferOutcome::Refused(-5)))));
}

type Call = IoCall<&'static str>;

fn begin(method: IoMethod, count: usize) -> Call {
    match IoCall::start(method, count) {
        Ok(call) => call,
        Err(_) => panic!("the number of arguments is right"),
    }
}

#[test]
fn numbers_of_arguments_are_checked() {
    let refusal = |method, count| -> String {
        match Call::start(method, count) {
            Ok(_) => panic!("the number of arguments is wrong"),
            Err(failure) => {
                assert_eq!(failure.kind, ErrorKind::Argument);
                failure.message
            }
        }
    };
    assert_eq!(
        refusal(IoMethod::Read, 3),
        "wrong number of arguments (given 3, expected 4..5)"
    );
    assert_eq!(
        refusal(IoMethod::Write, 6),
        "wrong number of arguments (given 6, expected 4..5)"
    );
    assert_eq!(
        refusal(IoMethod::PRead, 5),
        "wrong number of arguments (given 5, expected 6)"
    );
    assert_eq!(
        refusal(IoMethod::PWrite, 1209),
        "wrong number of arguments (given 1209, expected 6)"
    );
    assert_eq!(
        refusal(IoMethod::Read, 0),
        "wrong number of arguments (given 0, expected 4..5)"
    );
}

#[test]
fn read_goes_through_all_its_stages() {
    let platform = host();
    let call = begin(IoMethod::Read, 5);
    assert!(matches!(
        call,
        IoCall::ReadLength {
            operation: BufferIoOperation::Read,
            argument: 3,
            offset_argument: Some(4)
        }
    ));
    let call = call.length_read(Ok(10));
    assert!(matches!(call, IoCall::ReadOffset { length: 10, argument: 4, .. }));
    let call = call.offset_read(Ok(2));
    let request = IoRequest { operation: BufferIoOperation::Read, length: 10, offset: 2 };
    assert!(matches!(call, IoCall::AskBufferSize(asked) if asked == request));
    let call = call.size_read(&platform, Ok(2));
    assert!(matches!(call, IoCall::AskDescriptor(asked) if asked == request));
    let call = call.descriptor_read(&platform, Ok(8));
    assert!(matches!(call, IoCall::SetNonblock { fd: 8, .. }));
    let call = call.nonblock_set(Ok(libc::O_RDWR));
    assert!(matches!(
        call,
        IoCall::Transfer { fd: 8, original: Some(libc::O_RDWR), .. }
    ));
    let call = call.transferred(&platform, Err("raised"));
    assert!(matches!(
        call,
        IoCall::Restore { fd: 8, flags: libc::O_RDWR, outcome: Err("raised") }
    ));
    assert!(matches!(call.restored(Ok(())), IoCall::Done(Err("raised"))));
}

#[test]
fn write_may_leave_the_offset_out() {
    let platform = host();
    let call = begin(IoMethod::Write, 4).length_read(Ok(7));
    let request = IoRequest { operation: BufferIoOperation::Write, length: 7, offset: 0 };
    assert!(matches!(call, IoCall::AskBufferSize(asked) if asked == request));
    let call = call.size_read(&platform, Ok(0)).descriptor_read(&platform, Ok(8));
    let call = call.nonblock_set(Ok(libc::O_NONBLOCK));
    let outcome = BufferOutcome::Transferred(7);
    let call = call.transferred(&platform, Ok(outcome));
    assert!(matches!(call, IoCall::Done(Ok(found)) if found == outcome));
}

#[test]
fn positioned_operations_leave_the_flags_alone() {
    let platform = host();
    let call = begin(IoMethod::PRead, 6);
    assert!(matches!(call, IoCall::ReadPosition { argument: 3, .. }));
    let call = call.position_read(Ok(-4));
    assert!(matches!(
        call,
        IoCall::ReadLength {
            operation: BufferIoOperation::PRead(-4),
            argument: 4,
            offset_argument: Some(5)
        }
    ));
    let call = call.length_read(Ok(1)).offset_read(Ok(0)).size_read(&platform, Ok(9));
    let call = call.descriptor_read(&platform, Ok(8));
    assert!(matches!(call, IoCall::Transfer { fd: 8, original: None, .. }));
    let outcome = BufferOutcome::Refused(-9);
    let call = call.transferred(&platform, Ok(outcome));
    assert!(matches!(call, IoCall::Done(Ok(found)) if found == outcome));
    let call = begin(IoMethod::PWrite, 6).position_read(Ok(12));
    assert!(matches!(
        call,
        IoCall::ReadLength { operation: BufferIoOperation::PWrite(12), .. }
    ));
}

#[test]
fn operation_does_not_start_beyond_the_buffer() {
    let platform = host();
    let call = begin(IoMethod::Read, 5).length_read(Ok(1)).offset_read(Ok(9));
    match call.size_read(&platform, Ok(8)) {
        IoCall::Done(Ok(outcome)) => {
            assert_eq!(outcome, BufferOutcome::Refused(-i64::from(libc::EINVAL)))
        }
        _ => panic!("there is no such place"),
    }
}

#[test]
fn exceptions_end_the_operation() {
    let platform = host();
    let failed = |call: Call| matches!(call, IoCall::Done(Err("bad")));
    let request = IoRequest { operation: BufferIoOperation::Read, length: 1, offset: 0 };
    assert!(failed(begin(IoMethod::PRead, 6).position_read(Err("bad"))));
    assert!(failed(begin(IoMethod::Read, 5).length_read(Err("bad"))));
    assert!(failed(begin(IoMethod::Read, 5).length_read(Ok(1)).offset_read(Err("bad"))));
    assert!(failed(Call::AskBufferSize(request).size_read(&platform, Err("bad"))));
    assert!(failed(Call::AskDescriptor(request).descriptor_read(&platform, Err("bad"))));
    assert!(failed(Call::SetNonblock { request, fd: 8 }.nonblock_set(Err("bad"))));
    let outcome = Ok(BufferOutcome::Transferred(1));
    assert!(failed(Call::Restore { fd: 8, flags: 0, outcome }.restored(Err("bad"))));
}

#[test]
fn flags_are_a_matter_of_unix() {
    let platform = Platform::host(None);
    let request = IoRequest { operation: BufferIoOperation::Read, length: 1, offset: 0 };
    let wide = 0x1_0000_0005;
    let call = Call::AskDescriptor(request).descriptor_read(&platform, Ok(wide));
    assert!(matches!(call, IoCall::Transfer { fd: 0x1_0000_0005, original: None, .. }));
    let call = Call::AskDescriptor(request).descriptor_read(&host(), Ok(wide));
    assert!(matches!(call, IoCall::SetNonblock { fd: 5, .. }));
}
