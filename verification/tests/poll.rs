use io_event::event::{BackendKind, PRIORITY, READABLE, WRITABLE};
use io_event::failure::ErrorKind;
use io_event::interrupt::{selector_wakeup, Clearing, Interrupt, InterruptOpen};
use io_event::io_wait::IoWait;
use io_event::nonblock::{nonblock_restored, restore_nonblock, SetNonblock};
use io_event::platform::{Platform, UnixNumbers};
use io_event::poll::{platform_sleep, PollCall, PollRequest, PollStart};
use io_event::select::SelectCall;
use io_event::selector::{IdleDuration, SelectorCore};
use io_event::wake::WakeQueue;

fn host() -> Platform {
    Platform::host(Some(UnixNumbers {
        pollin: libc::POLLIN,
        pollpri: libc::POLLPRI,
        pollout: libc::POLLOUT,
        pollerr: libc::POLLERR,
        pollhup: libc::POLLHUP,
        nonblock: libc::O_NONBLOCK,
    }))
}

fn new_core() -> SelectorCore<u64> {
    SelectorCore::new(BackendKind::EPoll)
}

fn wait(core: &mut SelectorCore<u64>, fd: i64, events: i32) -> IoWait {
    IoWait::selector_io_wait(core, fd as u64, fd as u64 + 100, events, fd)
}

fn waiting(start: PollStart) -> PollCall {
    match start {
        PollStart::Wait(call) => call,
        PollStart::Skip => panic!("there is something to wait for"),
    }
}

#[test]
fn host_constants_are_those_of_the_system() {
    let platform = host();
    assert_eq!(platform.eagain, libc::EAGAIN);
    assert_eq!(platform.ewouldblock, libc::EWOULDBLOCK);
    assert_eq!(platform.einval, libc::EINVAL);
    assert_eq!(platform.eintr, libc::EINTR);
    assert_eq!(platform.pollin, libc::POLLIN);
    assert_eq!(platform.pollpri, libc::POLLPRI);
    assert_eq!(platform.pollout, libc::POLLOUT);
    assert_eq!(platform.pollerr, libc::POLLERR);
    assert_eq!(platform.pollhup, libc::POLLHUP);
    assert_eq!(platform.nonblock, libc::O_NONBLOCK);
    assert_eq!((platform.einval, platform.eintr), (22, 4));
    assert_eq!((platform.pollin, platform.pollpri, platform.pollout), (1, 2, 4));
    assert_eq!((platform.pollerr, platform.pollhup), (8, 16));
    assert!([11, 35].contains(&platform.eagain));
    assert!([platform.eagain, 140].contains(&platform.ewouldblock));
    assert!(platform.unix);
    assert!(platform.try_again(libc::EAGAIN));
    assert!(platform.try_again(libc::EWOULDBLOCK));
    assert!(!platform.try_again(libc::EINTR));
    assert!(!platform.try_again(0));
}

#[test]
fn requests_merge_the_waiters_of_a_descriptor() {
    let platform = host();
    let mut core = new_core();
    core.attach_interrupt(Interrupt { input: 3, output: 4 });
    wait(&mut core, 8, READABLE);
    wait(&mut core, 9, WRITABLE);
    wait(&mut core, 8, PRIORITY);
    wait(&mut core, 10, READABLE);
    wait(&mut core, 11, READABLE);
    let closed = vec![Some(false), None, Some(false), Some(true), Some(false)];
    let call = waiting(PollCall::platform_poll(&mut core, &platform, &closed, Some(250)));
    assert!(core.blocked);
    assert_eq!(call.timeout, 250);
    assert_eq!(call.interrupt_fd, Some(3));
    assert_eq!(call.requests[0], PollRequest { fd: 3, events: libc::POLLIN });
    let mut rest: Vec<(i64, i16)> =
        call.requests[1..].iter().map(|request| (request.fd, request.events)).collect();
    rest.sort();
    assert_eq!(
        rest,
        vec![(8, libc::POLLIN | libc::POLLPRI), (9, libc::POLLOUT), (11, libc::POLLIN)]
    );
}

#[test]
fn without_a_limit_the_wait_is_for_ever() {
    let platform = host();
    let mut core = new_core();
    let call = waiting(PollCall::platform_poll(&mut core, &platform, &Vec::new(), None));
    assert_eq!(call.timeout, -1);
    assert_eq!(call.interrupt_fd, None);
    assert_eq!(call.requests.len(), 0);
    assert!(core.blocked);
}

#[test]
fn nothing_to_wait_for_and_no_time() {
    let platform = host();
    let mut core = new_core();
    core.attach_interrupt(Interrupt { input: 3, output: 4 });
    let start = PollCall::platform_poll(&mut core, &platform, &Vec::new(), Some(0));
    assert!(matches!(start, PollStart::Skip));
    assert!(!core.blocked);
    wait(&mut core, 8, READABLE);
    let start = PollCall::platform_poll(&mut core, &platform, &vec![Some(true)], Some(0));
    assert!(matches!(start, PollStart::Skip));
    let start = PollCall::platform_poll(&mut core, &platform, &vec![Some(false)], Some(0));
    assert!(matches!(start, PollStart::Wait(_)));
}

#[test]
fn reports_become_events() {
    let platform = host();
    let mut core = new_core();
    core.attach_interrupt(Interrupt { input: 3, output: 4 });
    for fd in 8..14 {
        wait(&mut core, fd, READABLE | PRIORITY | WRITABLE);
    }
    let closed = vec![Some(false); 6];
    let call = waiting(PollCall::platform_poll(&mut core, &platform, &closed, None));
    let revents: Vec<i16> = call
        .requests
        .iter()
        .map(|request| match request.fd {
            3 => libc::POLLIN,
            8 => libc::POLLIN,
            9 => libc::POLLHUP,
            10 => libc::POLLERR | libc::POLLOUT,
            11 => libc::POLLPRI,
            12 => 0x20,
            _ => 0,
        })
        .collect();
    let found = match call.finish(&mut core, &platform, 6, 0, &revents) {
        Ok(found) => found,
        Err(_) => panic!("the wait succeeded"),
    };
    assert!(!core.blocked);
    assert_eq!(found.clears, 1);
    let mut events = found.events;
    events.sort();
    assert_eq!(
        events,
        vec![(8, READABLE), (9, READABLE), (10, READABLE | WRITABLE), (11, PRIORITY)]
    );
    let queue = WakeQueue::dispatch_io_events(&mut core, &events);
    let woken: Vec<u64> = queue.wakeups.iter().map(|wakeup| wakeup.fiber).collect();
    assert_eq!(woken, vec![8, 9, 10, 11]);
}

#[test]
fn interrupted_wait_brings_nothing() {
    let platform = host();
    let mut core = new_core();
    wait(&mut core, 8, READABLE);
    let call = waiting(PollCall::platform_poll(&mut core, &platform, &vec![None], None));
    match call.finish(&mut core, &platform, -1, libc::EINTR, &vec![libc::POLLIN]) {
        Ok(found) => {
            assert_eq!(found.events, Vec::new());
            assert_eq!(found.clears, 0);
        }
        Err(_) => panic!("an interruption is no failure"),
    }
    assert!(!core.blocked);
}

#[test]
fn failed_wait_is_a_failure() {
    let platform = host();
    let mut core = new_core();
    let call = waiting(PollCall::platform_poll(&mut core, &platform, &Vec::new(), None));
    match call.finish(&mut core, &platform, -1, libc::EINVAL, &Vec::new()) {
        Ok(_) => panic!("the wait failed"),
        Err(failure) => {
            assert_eq!(failure.kind, ErrorKind::SystemCall);
            assert_eq!(failure.message, "IO_Event_Selector_poll");
        }
    }
    assert!(!core.blocked);
}

#[test]
fn only_a_waiting_selector_is_woken() {
    let mut core = new_core();
    assert_eq!(selector_wakeup(&core), None);
    core.attach_interrupt(Interrupt { input: 3, output: 4 });
    assert_eq!(selector_wakeup(&core), None);
    core.blocked = true;
    assert_eq!(selector_wakeup(&core), Some(Interrupt { input: 3, output: 4 }));
    core.interrupt = None;
    assert_eq!(selector_wakeup(&core), None);
}

#[test]
fn interrupt_is_opened_step_by_step() {
    match InterruptOpen::open().pipe_opened(-1, 0, 0) {
        InterruptOpen::Done(Err(failure)) => {
            assert_eq!(failure.kind, ErrorKind::SystemCall);
            assert_eq!(failure.message, "IO_Event_Interrupt_open:pipe");
        }
        _ => panic!("there is no pipe"),
    }
    let opening = InterruptOpen::open().pipe_opened(0, 5, 6);
    assert!(matches!(opening, InterruptOpen::PrepareInput { input: 5, output: 6 }));
    let opening = opening.input_prepared(Ok(0));
    assert!(matches!(opening, InterruptOpen::PrepareOutput { input: 5, output: 6 }));
    match opening.output_prepared(Ok(0)) {
        InterruptOpen::Done(Ok(interrupt)) => {
            assert_eq!(interrupt, Interrupt { input: 5, output: 6 })
        }
        _ => panic!("the interrupt is open"),
    }
    let failed = |opening: InterruptOpen| matches!(opening, InterruptOpen::Done(Err(_)));
    let refusal = || match nonblock_restored(-1) {
        Err(failure) => failure,
        Ok(()) => panic!("the system refused"),
    };
    let input = InterruptOpen::PrepareInput { input: 5, output: 6 };
    assert!(failed(input.input_prepared(Err(refusal()))));
    let output = InterruptOpen::PrepareOutput { input: 5, output: 6 };
    assert!(failed(output.output_prepared(Err(refusal()))));
}

#[test]
fn full_interrupt_counts_as_signalled() {
    let platform = host();
    assert!(Interrupt::signal(&platform, 1, 0).is_ok());
    assert!(Interrupt::signal(&platform, -1, libc::EAGAIN).is_ok());
    match Interrupt::signal(&platform, -1, libc::EPIPE) {
        Ok(()) => panic!("nobody listens"),
        Err(failure) => assert_eq!(failure.message, "IO_Event_Interrupt_signal:write"),
    }
}

#[test]
fn interrupt_is_read_until_it_is_empty() {
    let platform = host();
    assert!(matches!(Interrupt::clear(&platform, 128, 0), Clearing::ReadAgain));
    assert!(matches!(Interrupt::clear(&platform, 0, 0), Clearing::Done(Ok(()))));
    assert!(matches!(Interrupt::clear(&platform, -1, libc::EAGAIN), Clearing::Done(Ok(()))));
    match Interrupt::clear(&platform, -1, libc::EBADF) {
        Clearing::Done(Err(failure)) => {
            assert_eq!(failure.kind, ErrorKind::SystemCall);
            assert_eq!(failure.message, "IO_Event_Interrupt_clear:read");
        }
        _ => panic!("the read failed"),
    }
}

#[test]
fn flags_are_changed_only_where_needed() {
    let platform = host();
    let flags = libc::O_RDWR;
    let step = SetNonblock::set_nonblock().flags_read(&platform, flags);
    match step {
        SetNonblock::SetFlags { original, flags: changed } => {
            assert_eq!(original, flags);
            assert_eq!(changed, flags | libc::O_NONBLOCK);
        }
        _ => panic!("the descriptor blocks"),
    }
    let step = SetNonblock::set_nonblock().flags_read(&platform, flags).flags_written(0);
    assert!(matches!(step, SetNonblock::Done(Ok(original)) if original == flags));
    assert_eq!(restore_nonblock(&platform, flags), Some(flags));
    let flags = libc::O_RDWR | libc::O_NONBLOCK;
    let step = SetNonblock::set_nonblock().flags_read(&platform, flags);
    assert!(matches!(step, SetNonblock::Done(Ok(original)) if original == flags));
    assert_eq!(restore_nonblock(&platform, flags), None);
}

#[test]
fn refused_flags_are_failures() {
    let platform = host();
    match SetNonblock::set_nonblock().flags_read(&platform, -1) {
        SetNonblock::Done(Err(failure)) => {
            assert_eq!(failure.kind, ErrorKind::SystemCall);
            assert_eq!(failure.message, "IO_Event_Selector_nonblock_set:F_GETFL");
        }
        _ => panic!("there are no flags"),
    }
    match SetNonblock::set_nonblock().flags_read(&platform, 0).flags_written(-1) {
        SetNonblock::Done(Err(failure)) => {
            assert_eq!(failure.message, "IO_Event_Selector_nonblock_set:F_SETFL");
        }
        _ => panic!("the system refused"),
    }
    assert!(nonblock_restored(0).is_ok());
    match nonblock_restored(-1) {
        Err(failure) => {
            assert_eq!(failure.message, "IO_Event_Selector_nonblock_restore:F_SETFL")
        }
        Ok(()) => panic!("the system refused"),
    }
}

type Turn = SelectCall<&'static str>;

#[test]
fn turn_goes_through_all_its_stages() {
    let mut core = new_core();
    core.idle_duration = IdleDuration { seconds: 9, nanoseconds: 9 };
    let turn: Turn = SelectCall::selector_select(&mut core);
    assert!(matches!(turn, SelectCall::FlushReady));
    assert_eq!(core.idle_duration, IdleDuration { seconds: 0, nanoseconds: 0 });
    let turn = turn.flushed(Ok(0));
    assert!(matches!(turn, SelectCall::CheckProcesses { flushed: 0 }));
    let turn = turn.checked(&core, Ok(0));
    assert!(matches!(turn, SelectCall::ReadTimeout));
    let turn = turn.timeout_read(Ok(Some(20)));
    assert!(matches!(turn, SelectCall::Poll { timeout: Some(20), timed: true }));
    let elapsed = IdleDuration { seconds: 0, nanoseconds: 20_000_000 };
    let turn = turn.polled(&mut core, Ok(vec![(8, READABLE)]), elapsed);
    assert!(matches!(&turn, SelectCall::Dispatch { events } if *events == vec![(8, READABLE)]));
    assert_eq!(core.idle_duration, elapsed);
    let turn = turn.dispatched(Ok(3));
    assert!(matches!(turn, SelectCall::RecheckProcesses { dispatched: 3 }));
    assert!(matches!(turn.rechecked(Ok(2)), SelectCall::Done(Ok(5))));
}

#[test]
fn turn_does_not_wait_while_somebody_is_ready() {
    let mut core = new_core();
    let turn: Turn = SelectCall::CheckProcesses { flushed: 2 };
    let turn = turn.checked(&core, Ok(0));
    assert!(matches!(turn, SelectCall::Poll { timeout: Some(0), timed: false }));
    let turn = turn.polled(&mut core, Ok(Vec::new()), IdleDuration { seconds: 1, nanoseconds: 0 });
    assert!(matches!(turn, SelectCall::Dispatch { .. }));
    assert_eq!(core.idle_duration, IdleDuration { seconds: 0, nanoseconds: 0 });
    core.push_ready(1);
    let turn: Turn = SelectCall::CheckProcesses { flushed: 0 };
    let turn = turn.checked(&core, Ok(0));
    assert!(matches!(turn, SelectCall::Poll { timeout: Some(0), timed: false }));
    let turn: Turn = SelectCall::CheckProcesses { flushed: 2 };
    assert!(matches!(turn.checked(&core, Ok(4)), SelectCall::Done(Ok(4))));
}

#[test]
fn only_waits_that_take_time_are_timed() {
    let read = |timeout| {
        let turn: Turn = SelectCall::ReadTimeout;
        match turn.timeout_read(Ok(timeout)) {
            SelectCall::Poll { timed, .. } => timed,
            _ => panic!("the wait comes next"),
        }
    };
    assert!(read(None));
    assert!(read(Some(1)));
    assert!(!read(Some(0)));
}

#[test]
fn exceptions_end_the_turn() {
    let mut core = new_core();
    let failed = |turn: Turn| matches!(turn, SelectCall::Done(Err("bad")));
    let none = IdleDuration { seconds: 5, nanoseconds: 0 };
    assert!(failed(Turn::FlushReady.flushed(Err("bad"))));
    assert!(failed(Turn::CheckProcesses { flushed: 0 }.checked(&core, Err("bad"))));
    assert!(failed(Turn::ReadTimeout.timeout_read(Err("bad"))));
    let poll = Turn::Poll { timeout: None, timed: true };
    assert!(failed(poll.polled(&mut core, Err("bad"), none)));
    assert_eq!(core.idle_duration, IdleDuration { seconds: 0, nanoseconds: 0 });
    assert!(failed(Turn::Dispatch { events: Vec::new() }.dispatched(Err("bad"))));
    assert!(failed(Turn::RecheckProcesses { dispatched: 0 }.rechecked(Err("bad"))));
}

#[test]
fn wakeup_reaches_the_wait() {
    let platform = host();
    let mut core = new_core();
    core.attach_interrupt(Interrupt { input: 3, output: 4 });
    let call = waiting(PollCall::platform_poll(&mut core, &platform, &Vec::new(), None));
    assert_eq!(selector_wakeup(&core), Some(Interrupt { input: 3, output: 4 }));
    assert_eq!(call.requests, vec![PollRequest { fd: 3, events: libc::POLLIN }]);
    match call.finish(&mut core, &platform, 1, 0, &vec![libc::POLLIN]) {
        Ok(found) => assert_eq!((found.events, found.clears), (Vec::new(), 1)),
        Err(_) => panic!("the wait succeeded"),
    }
    assert_eq!(selector_wakeup(&core), None);
}

#[test]
fn time_passes_where_descriptors_cannot_be_waited_for() {
    let mut core = new_core();
    core.blocked = true;
    assert_eq!(platform_sleep(&mut core, Some(250)), Some(250));
    assert!(!core.blocked);
    assert_eq!(platform_sleep(&mut core, Some(0)), None);
    assert_eq!(platform_sleep(&mut core, Some(-1)), None);
    assert_eq!(platform_sleep(&mut core, None), None);
}

#[test]
fn other_systems_have_error_codes_only() {
    let platform = Platform::host(None);
    assert!(!platform.unix);
    assert_eq!((platform.eagain, platform.einval), (libc::EAGAIN, libc::EINVAL));
    assert_eq!((platform.pollin, platform.pollpri, platform.pollout), (0, 0, 0));
    assert_eq!((platform.pollerr, platform.pollhup, platform.nonblock), (0, 0, 0));
    let mut core = new_core();
    assert!(!core.initialize(&platform, 7));
    assert_eq!(core.loop_value(), Some(7));
    assert!(core.initialize(&host(), 7));
}

#[test]
fn cleared_until_signalled_again() {
    let platform = host();
    let capacity = 200;
    let mut held = 0;
    for _ in 0..300 {
        let (result, errno) = if held < capacity { (1, 0) } else { (-1, libc::EAGAIN) };
        held = if result == 1 { held + 1 } else { held };
        assert!(Interrupt::signal(&platform, result, errno).is_ok());
    }
    let mut reads = 0;
    let outcome = loop {
        let result: isize = if held > 0 { std::cmp::min(held, 128) } else { -1 };
        held -= std::cmp::max(result, 0);
        reads += 1;
        match Interrupt::clear(&platform, result, libc::EAGAIN) {
            Clearing::ReadAgain => {}
            Clearing::Done(outcome) => break outcome,
        }
    };
    assert!(outcome.is_ok());
    assert_eq!((reads, held), (3, 0));
    assert!(matches!(Interrupt::clear(&platform, -1, libc::EAGAIN), Clearing::Done(Ok(()))));
}
