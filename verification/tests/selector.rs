use io_event::event::BackendKind;
use io_event::failure::ErrorKind;
use io_event::interrupt::Interrupt;
use io_event::io_wait::IoWait;
use io_event::platform::{Platform, UnixNumbers};
use io_event::selector::{IdleDuration, SelectorCore};
use io_event::transfer::{selector_raise, selector_resume, selector_yield, Transfer};
use io_event::wake::{WakeQueue, WakeStep};

fn host() -> Platform {
    Platform::host(Some(UnixNumbers {
        pollin: libc::POLLIN,
        pollpri: libc::POLLPRI,
        pollout: libc::POLLOUT,
        pollerr: libc::POLLERR,
        pollhup: libc::POLLHUP,
        nonblock: libc::O_NONBLOCK,
    }))
}

fn new_core() -> SelectorCore<u64> {
    SelectorCore::new(BackendKind::EPoll)
}

fn ready_fibers(core: &SelectorCore<u64>) -> Vec<u64> {
    core.ready.iter().map(|entry| entry.fiber).collect()
}

#[test]
fn new_selector_is_empty() {
    let core: SelectorCore<u64> = SelectorCore::new(BackendKind::KQueue);
    assert_eq!(core.kind, BackendKind::KQueue);
    assert_eq!(core.loop_value(), None);
    assert!(!core.ready_p());
    assert_eq!(core.io_waiters.len(), 0);
    assert_eq!(core.process_waiters.len(), 0);
    assert_eq!(core.next_token, 1);
    assert_eq!(core.idle_duration, IdleDuration { seconds: 0, nanoseconds: 0 });
    assert!(!core.closed && !core.blocked);
    assert!(core.interrupt.is_none());
}

#[test]
fn initialize_asks_for_an_interrupt_once() {
    let mut core = new_core();
    assert!(core.initialize(&host(), 7));
    core.attach_interrupt(Interrupt { input: 3, output: 4 });
    assert!(!core.initialize(&host(), 8));
    assert_eq!(core.loop_value(), Some(8));
    assert_eq!(core.interrupt, Some(Interrupt { input: 3, output: 4 }));
}

#[test]
fn tokens_count_up_and_start_over_at_one() {
    let mut core = new_core();
    assert_eq!(core.next_token(), 1);
    assert_eq!(core.next_token(), 2);
    core.next_token = usize::MAX;
    assert_eq!(core.next_token(), usize::MAX);
    assert_eq!(core.next_token(), 1);
}

#[test]
fn ready_entries_are_removed_by_identifier() {
    let mut core = new_core();
    let first = core.push_ready(10);
    let second = core.push_ready(20);
    let third = core.push_ready(30);
    assert_eq!((first, second, third), (1, 2, 3));
    core.remove_ready(second);
    assert_eq!(ready_fibers(&core), vec![10, 30]);
    core.remove_ready(second);
    assert_eq!(ready_fibers(&core), vec![10, 30]);
    assert!(core.ready_p());
}

#[test]
fn io_waiter_is_replaced_by_the_last_one() {
    let mut core = new_core();
    let first = IoWait::selector_io_wait(&mut core, 1, 11, 1, 5);
    let _second = IoWait::selector_io_wait(&mut core, 2, 12, 1, 6);
    let _third = IoWait::selector_io_wait(&mut core, 3, 13, 1, 7);
    core.remove_io_waiter(first.token);
    let fibers: Vec<u64> = core.io_waiters.iter().map(|waiter| waiter.fiber).collect();
    assert_eq!(fibers, vec![3, 2]);
    core.remove_io_waiter(99);
    assert_eq!(core.io_waiters.len(), 2);
    assert!(core.io_results.has_receiver(first.mailbox));
    assert!(!core.io_results.has_sender(first.mailbox));
}

#[test]
fn suspension_leaves_no_trace() {
    let mut core = new_core();
    core.push_ready(5);
    let started = selector_resume::<u64, ()>(&mut core, &[42, 43], 9);
    let (suspension, transfer) = match started {
        Ok(pair) => pair,
        Err(_) => panic!("one argument is enough"),
    };
    assert!(matches!(transfer, Transfer::Probe(Some(42))));
    assert_eq!(ready_fibers(&core), vec![5, 9]);
    let result = suspension.finish(&mut core, Err::<u64, &str>("raised"));
    assert_eq!(result, Err("raised"));
    assert_eq!(ready_fibers(&core), vec![5]);
    assert_eq!(core.next_token, 3);
}

#[test]
fn suspension_after_a_flush_removes_nobody() {
    let mut core = new_core();
    let (suspension, _) = selector_yield::<u64, ()>(&mut core, 9);
    let queue = WakeQueue::flush_ready(&mut core);
    assert_eq!(queue.wakeups.len(), 1);
    core.push_ready(10);
    let result = suspension.finish(&mut core, Ok::<u64, ()>(1));
    assert_eq!(result, Ok(1));
    assert_eq!(ready_fibers(&core), vec![10]);
}

#[test]
fn resume_needs_a_fiber() {
    let mut core = new_core();
    match selector_resume::<u64, ()>(&mut core, &[], 9) {
        Ok(_) => panic!("there is nobody to resume"),
        Err(failure) => {
            assert_eq!(failure.kind, ErrorKind::Argument);
            assert_eq!(
                failure.message,
                "wrong number of arguments (given 0, expected 1+)"
            );
        }
    }
    assert!(!core.ready_p());
    assert_eq!(core.next_token, 1);
}

#[test]
fn raise_needs_a_fiber_and_an_exception() {
    let mut core = new_core();
    match selector_raise(&mut core, &[42], 9) {
        Ok(_) => panic!("there is nothing to raise"),
        Err(failure) => {
            assert_eq!(failure.kind, ErrorKind::Argument);
            assert_eq!(
                failure.message,
                "wrong number of arguments (given 0..1, expected 2+)"
            );
        }
    }
    assert!(!core.ready_p());
    match selector_raise(&mut core, &[42, 43], 9) {
        Ok((suspension, target)) => {
            assert_eq!(target, 42);
            assert_eq!(suspension.ready_id, 1);
        }
        Err(_) => panic!("two arguments are enough"),
    }
    assert_eq!(ready_fibers(&core), vec![9]);
}

#[test]
fn yield_goes_to_the_loop() {
    let mut core = new_core();
    let (_, transfer) = selector_yield::<u64, ()>(&mut core, 9);
    assert!(matches!(transfer, Transfer::Probe(None)));
    core.initialize(&host(), 77);
    let (suspension, transfer) = selector_yield::<u64, ()>(&mut core, 9);
    assert!(matches!(transfer, Transfer::Probe(Some(77))));
    assert_eq!(suspension.ready_id, 2);
}

#[test]
fn transfer_asks_before_it_switches() {
    let mut core = new_core();
    core.initialize(&host(), 77);
    let start = || Transfer::<u64, &str>::selector_transfer(&core);
    assert!(matches!(start(), Transfer::Compare(Some(77))));
    assert!(matches!(start().compared(Ok(true)), Transfer::Done(Ok(None))));
    assert!(matches!(start().compared(Ok(false)), Transfer::Probe(Some(77))));
    assert!(matches!(start().compared(Err("odd")), Transfer::Probe(Some(77))));
    let probe = || Transfer::<u64, &str>::transfer_value(Some(5));
    assert!(matches!(probe().probed(Ok(false)), Transfer::Done(Ok(None))));
    assert!(matches!(probe().probed(Err("gone")), Transfer::Done(Err("gone"))));
    let switch = || probe().probed(Ok(true));
    assert!(matches!(switch(), Transfer::Switch(Some(5))));
    assert!(matches!(switch().switched(Ok(8)), Transfer::Done(Ok(Some(8)))));
    assert!(matches!(switch().switched(Err("oops")), Transfer::Done(Err("oops"))));
}

#[test]
fn everything_held_is_marked() {
    let mut core = new_core();
    core.initialize(&host(), 1);
    core.push_ready(2);
    IoWait::selector_io_wait(&mut core, 3, 4, 1, 9);
    let started = io_event::process::ProcessWait::selector_process_wait::<u64, ()>(
        &mut core,
        5,
        100,
        0,
        Ok(None),
    );
    assert!(started.is_ok());
    assert_eq!(core.mark(), vec![1, 2, 4, 3, 5]);
}

#[test]
fn close_forgets_everybody_but_open_calls() {
    let mut core = new_core();
    core.initialize(&host(), 1);
    core.attach_interrupt(Interrupt { input: 3, output: 4 });
    core.push_ready(2);
    let wait = IoWait::selector_io_wait(&mut core, 3, 4, 1, 9);
    let interrupt = core.close();
    assert_eq!(interrupt, Some(Interrupt { input: 3, output: 4 }));
    assert!(core.closed);
    assert_eq!(core.loop_value(), None);
    assert!(!core.ready_p());
    assert_eq!(core.io_waiters.len(), 0);
    assert!(core.interrupt.is_none());
    assert!(core.io_results.has_receiver(wait.mailbox));
    assert!(!core.io_results.has_sender(wait.mailbox));
    let mailbox = wait.mailbox;
    assert_eq!(wait.finish(&mut core, Ok::<Option<u64>, ()>(None)), Ok(None));
    assert!(!core.io_results.has_receiver(mailbox));
    assert_eq!(core.close(), None);
}

#[test]
fn flush_wakes_who_was_ready_at_the_start() {
    let mut core = new_core();
    core.push_ready(10);
    core.push_ready(20);
    core.push_ready(30);
    let mut queue = WakeQueue::flush_ready(&mut core);
    assert!(!core.ready_p());
    let step: WakeStep<u64, &str> = queue.advance(&mut core);
    assert!(matches!(step, WakeStep::Probe(10)));
    let step: WakeStep<u64, &str> = queue.probed(&mut core, 10, Ok(true));
    assert!(matches!(step, WakeStep::Transfer(10)));
    core.push_ready(40);
    let step: WakeStep<u64, &str> = queue.transferred(&mut core, Ok(None));
    assert!(matches!(step, WakeStep::Probe(20)));
    let step: WakeStep<u64, &str> = queue.probed(&mut core, 20, Ok(false));
    assert!(matches!(step, WakeStep::Probe(30)));
    let step: WakeStep<u64, &str> = queue.probed(&mut core, 30, Ok(true));
    assert!(matches!(step, WakeStep::Transfer(30)));
    let step: WakeStep<u64, &str> = queue.transferred(&mut core, Ok(Some(1)));
    assert!(matches!(step, WakeStep::Done(Ok(2))));
    assert_eq!(ready_fibers(&core), vec![40]);
}

#[test]
fn exception_ends_the_waking() {
    let mut core = new_core();
    core.push_ready(10);
    core.push_ready(20);
    let mut queue = WakeQueue::flush_ready(&mut core);
    let step: WakeStep<u64, &str> = queue.advance(&mut core);
    assert!(matches!(step, WakeStep::Probe(10)));
    let step: WakeStep<u64, &str> = queue.probed(&mut core, 10, Err("bad"));
    assert!(matches!(step, WakeStep::Done(Err("bad"))));
    let mut core = new_core();
    core.push_ready(10);
    let mut queue = WakeQueue::flush_ready(&mut core);
    let _step: WakeStep<u64, &str> = queue.advance(&mut core);
    let _step: WakeStep<u64, &str> = queue.probed(&mut core, 10, Ok(true));
    let step: WakeStep<u64, &str> = queue.transferred(&mut core, Err("worse"));
    assert!(matches!(step, WakeStep::Done(Err("worse"))));
}

#[test]
fn empty_queue_is_done_at_once() {
    let mut core = new_core();
    let mut queue = WakeQueue::flush_ready(&mut core);
    let step: WakeStep<u64, ()> = queue.advance(&mut core);
    assert!(matches!(step, WakeStep::Done(Ok(0))));
}
