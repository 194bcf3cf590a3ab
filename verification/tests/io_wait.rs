use io_event::event::{BackendKind, PRIORITY, READABLE, WRITABLE};
use io_event::io_wait::{io_descriptor, IoWait};
use io_event::mailbox::Mailboxes;
use io_event::platform::{Platform, UnixNumbers};
use io_event::selector::SelectorCore;
use io_event::wake::{WakeQueue, WakeStep};

fn new_core() -> SelectorCore<u64> {
    SelectorCore::new(BackendKind::EPoll)
}

type Step = WakeStep<u64, &'static str>;

#[test]
fn descriptor_numbers_are_narrowed_on_unix() {
    let unix = Platform::host(Some(UnixNumbers {
        pollin: libc::POLLIN,
        pollpri: libc::POLLPRI,
        pollout: libc::POLLOUT,
        pollerr: libc::POLLERR,
        pollhup: libc::POLLHUP,
        nonblock: libc::O_NONBLOCK,
    }));
    assert_eq!(io_descriptor(&unix, 7), 7);
    assert_eq!(io_descriptor(&unix, -1), -1);
    assert_eq!(io_descriptor(&unix, 0x1_0000_0005), 5);
    assert_eq!(io_descriptor(&unix, 0x8000_0000), i64::from(i32::MIN));
    let other = Platform::host(None);
    assert_eq!(io_descriptor(&other, 0x1_0000_0005), 0x1_0000_0005);
    assert_eq!(io_descriptor(&other, -1), -1);
}

#[test]
fn wait_is_told_what_came_about() {
    let mut core = new_core();
    let wait = IoWait::selector_io_wait(&mut core, 1, 11, READABLE | PRIORITY, 5);
    let other = IoWait::selector_io_wait(&mut core, 2, 12, WRITABLE, 5);
    let events = vec![(5, READABLE), (6, WRITABLE), (5, PRIORITY)];
    let mut queue = WakeQueue::dispatch_io_events(&mut core, &events);
    assert_eq!(core.io_waiters.len(), 1);
    assert_eq!(core.io_waiters[0].fiber, 2);
    let step: Step = queue.advance(&mut core);
    assert!(matches!(step, WakeStep::Probe(1)));
    let step: Step = queue.probed(&mut core, 1, Ok(true));
    assert!(matches!(step, WakeStep::Transfer(1)));
    let answer = wait.finish(&mut core, Ok::<Option<u64>, ()>(None));
    assert_eq!(answer, Ok(Some(READABLE | PRIORITY)));
    let step: Step = queue.transferred(&mut core, Ok(None));
    assert!(matches!(step, WakeStep::Done(Ok(1))));
    assert_eq!(core.io_waiters.len(), 1);
    assert!(core.io_results.has_receiver(other.mailbox));
    assert_eq!(core.io_results.peek(other.mailbox), 0);
}

#[test]
fn several_waiters_keep_their_order() {
    let mut core = new_core();
    for fiber in 1..=5u64 {
        let fd = if fiber % 2 == 0 { 8 } else { 9 };
        IoWait::selector_io_wait(&mut core, fiber, fiber + 10, READABLE, fd);
    }
    let queue = WakeQueue::dispatch_io_events(&mut core, &vec![(9, READABLE)]);
    let woken: Vec<u64> = queue.wakeups.iter().map(|wakeup| wakeup.fiber).collect();
    let waiting: Vec<u64> = core.io_waiters.iter().map(|waiter| waiter.fiber).collect();
    assert_eq!(woken, vec![1, 3, 5]);
    assert_eq!(waiting, vec![2, 4]);
}

#[test]
fn no_events_wake_nobody() {
    let mut core = new_core();
    IoWait::selector_io_wait(&mut core, 1, 11, READABLE, 5);
    let mut queue = WakeQueue::dispatch_io_events(&mut core, &Vec::new());
    let step: Step = queue.advance(&mut core);
    assert!(matches!(step, WakeStep::Done(Ok(0))));
    assert_eq!(core.io_waiters.len(), 1);
}

#[test]
fn events_that_nobody_asked_for_wake_nobody() {
    let mut core = new_core();
    IoWait::selector_io_wait(&mut core, 1, 11, READABLE, 5);
    let queue = WakeQueue::dispatch_io_events(&mut core, &vec![(5, WRITABLE), (6, READABLE)]);
    assert_eq!(queue.wakeups.len(), 0);
    assert_eq!(core.io_waiters.len(), 1);
}

#[test]
fn wait_for_nothing_leaves_no_trace() {
    let mut core = new_core();
    let standing = IoWait::selector_io_wait(&mut core, 1, 11, READABLE, 5);
    let wait = IoWait::selector_io_wait(&mut core, 2, 12, READABLE, 6);
    let mailbox = wait.mailbox;
    assert_eq!(wait.finish(&mut core, Ok::<Option<u64>, ()>(Some(3))), Ok(None));
    assert_eq!(core.io_waiters.len(), 1);
    assert_eq!(core.io_waiters[0].token, standing.token);
    assert!(!core.io_results.has_receiver(mailbox));
    assert!(!core.io_results.has_sender(mailbox));
    assert!(core.io_results.has_sender(standing.mailbox));
}

#[test]
fn exception_is_raised_after_the_waiter_has_left() {
    let mut core = new_core();
    let wait = IoWait::selector_io_wait(&mut core, 1, 11, READABLE, 5);
    assert_eq!(wait.finish(&mut core, Err("timeout")), Err("timeout"));
    assert_eq!(core.io_waiters.len(), 0);
}

#[test]
fn ended_wait_is_not_woken() {
    let mut core = new_core();
    let first = IoWait::selector_io_wait(&mut core, 1, 11, READABLE, 5);
    let second = IoWait::selector_io_wait(&mut core, 2, 12, READABLE, 5);
    let mut queue = WakeQueue::dispatch_io_events(&mut core, &vec![(5, READABLE)]);
    let step: Step = queue.advance(&mut core);
    assert!(matches!(step, WakeStep::Probe(1)));
    assert_eq!(second.finish(&mut core, Err("raised")), Err("raised"));
    let again = IoWait::selector_io_wait(&mut core, 2, 12, READABLE, 5);
    let step: Step = queue.probed(&mut core, 1, Ok(true));
    assert!(matches!(step, WakeStep::Transfer(1)));
    assert_eq!(first.finish(&mut core, Ok::<Option<u64>, ()>(None)), Ok(Some(READABLE)));
    let step: Step = queue.transferred(&mut core, Ok(None));
    assert!(matches!(step, WakeStep::Done(Ok(1))));
    assert_eq!(core.io_waiters.len(), 1);
    assert_eq!(core.io_results.peek(again.mailbox), 0);
    assert!(core.io_results.has_receiver(again.mailbox));
}

#[test]
fn exception_while_waking_frees_the_mailboxes() {
    let mut core = new_core();
    let first = IoWait::selector_io_wait(&mut core, 1, 11, READABLE, 5);
    let second = IoWait::selector_io_wait(&mut core, 2, 12, READABLE, 5);
    let mut queue = WakeQueue::dispatch_io_events(&mut core, &vec![(5, READABLE)]);
    let _step: Step = queue.advance(&mut core);
    let step: Step = queue.probed(&mut core, 1, Err("bad"));
    assert!(matches!(step, WakeStep::Done(Err("bad"))));
    assert!(!core.io_results.has_sender(first.mailbox));
    assert!(!core.io_results.has_sender(second.mailbox));
    assert_eq!(second.finish(&mut core, Ok::<Option<u64>, ()>(None)), Ok(Some(READABLE)));
}

#[test]
fn answers_survive_other_operations() {
    let mut core = new_core();
    let first = IoWait::selector_io_wait(&mut core, 1, 11, READABLE, 5);
    let mut queue = WakeQueue::dispatch_io_events(&mut core, &vec![(5, READABLE)]);
    let second = IoWait::selector_io_wait(&mut core, 2, 12, WRITABLE, 5);
    let mut later = WakeQueue::dispatch_io_events(&mut core, &vec![(5, READABLE | WRITABLE)]);
    let step: Step = later.advance(&mut core);
    assert!(matches!(step, WakeStep::Probe(2)));
    core.close();
    let step: Step = queue.advance(&mut core);
    assert!(matches!(step, WakeStep::Probe(1)));
    assert_eq!(first.finish(&mut core, Ok::<Option<u64>, ()>(None)), Ok(Some(READABLE)));
    assert_eq!(second.finish(&mut core, Ok::<Option<u64>, ()>(None)), Ok(Some(WRITABLE)));
}

#[test]
fn mailbox_keys_are_used_again_once_both_ends_have_left() {
    let mut boxes: Mailboxes<i32> = Mailboxes::new();
    let first = boxes.open(1);
    let second = boxes.open(2);
    assert_ne!(first, second);
    boxes.deliver(first, 10);
    assert_eq!(boxes.peek(first), 10);
    assert_eq!(boxes.receive(first), 10);
    assert!(boxes.has_sender(first));
    let third = boxes.open(3);
    assert!(third != first && third != second);
    boxes.leave(first);
    assert_eq!(boxes.open(4), first);
    assert!(!boxes.has_receiver(99));
    assert!(!boxes.has_sender(99));
}

#[test]
fn wait_finds_what_one_dispatch_matched() {
    let mut core = new_core();
    let other = IoWait::selector_io_wait(&mut core, 1, 11, READABLE, 5);
    let wait = IoWait::selector_io_wait(&mut core, 2, 12, READABLE | WRITABLE, 6);
    WakeQueue::dispatch_io_events(&mut core, &vec![(5, WRITABLE), (6, PRIORITY)]);
    assert_eq!(core.io_results.peek(wait.mailbox), 0);
    assert_eq!(other.finish(&mut core, Ok::<Option<u64>, ()>(None)), Ok(None));
    let mut queue = WakeQueue::dispatch_io_events(&mut core, &vec![(6, PRIORITY | WRITABLE)]);
    let late = IoWait::selector_io_wait(&mut core, 3, 13, READABLE, 6);
    WakeQueue::dispatch_io_events(&mut core, &vec![(6, READABLE)]);
    let step: Step = queue.advance(&mut core);
    assert!(matches!(step, WakeStep::Probe(2)));
    core.close();
    assert_eq!(wait.finish(&mut core, Ok::<Option<u64>, ()>(None)), Ok(Some(WRITABLE)));
    assert_eq!(late.finish(&mut core, Ok::<Option<u64>, ()>(None)), Ok(Some(READABLE)));
}

#[test]
fn run_of_a_queue_uses_each_wakeup_once() {
    let mut core = new_core();
    let first = IoWait::selector_io_wait(&mut core, 1, 11, READABLE, 5);
    let second = IoWait::selector_io_wait(&mut core, 2, 12, READABLE, 5);
    let third = IoWait::selector_io_wait(&mut core, 3, 13, READABLE, 5);
    let fourth = IoWait::selector_io_wait(&mut core, 4, 14, READABLE, 5);
    let mut queue = WakeQueue::dispatch_io_events(&mut core, &vec![(5, READABLE)]);
    let mut looked_at = Vec::new();
    let mut ended = Some(second);
    let mut step: Step = queue.advance(&mut core);
    let count = loop {
        step = match step {
            WakeStep::Probe(fiber) => {
                looked_at.push(fiber);
                queue.probed(&mut core, fiber, Ok(fiber != 3))
            }
            WakeStep::Transfer(_) => {
                if let Some(wait) = ended.take() {
                    assert_eq!(wait.finish(&mut core, Err("raised")), Err("raised"));
                }
                queue.transferred(&mut core, Ok(None))
            }
            WakeStep::Done(outcome) => break outcome,
        };
    };
    assert_eq!(count, Ok(2));
    assert_eq!(looked_at, vec![1, 3, 4]);
    for wait in [first, third, fourth] {
        assert!(!core.io_results.has_sender(wait.mailbox));
    }
}

#[test]
fn queues_stay_good_side_by_side() {
    let mut core = new_core();
    let first = IoWait::selector_io_wait(&mut core, 1, 11, READABLE, 5);
    let second = IoWait::selector_io_wait(&mut core, 2, 12, READABLE, 5);
    let third = IoWait::selector_io_wait(&mut core, 3, 13, READABLE, 6);
    let mut outer = WakeQueue::dispatch_io_events(&mut core, &vec![(5, READABLE)]);
    let step: Step = outer.advance(&mut core);
    assert!(matches!(step, WakeStep::Probe(1)));
    let step: Step = outer.probed(&mut core, 1, Ok(true));
    assert!(matches!(step, WakeStep::Transfer(1)));
    let mut inner = WakeQueue::dispatch_io_events(&mut core, &vec![(5, READABLE), (6, READABLE)]);
    assert_eq!(inner.wakeups.len(), 1);
    assert_ne!(inner.wakeups[0].mailbox, outer.wakeups[1].mailbox);
    let step: Step = inner.advance(&mut core);
    assert!(matches!(step, WakeStep::Probe(3)));
    let step: Step = inner.probed(&mut core, 3, Ok(false));
    assert!(matches!(step, WakeStep::Done(Ok(0))));
    assert!(core.io_results.has_sender(second.mailbox));
    let step: Step = outer.transferred(&mut core, Ok(None));
    assert!(matches!(step, WakeStep::Probe(2)));
    for wait in [first, second, third] {
        assert_eq!(wait.finish(&mut core, Ok::<Option<u64>, ()>(None)), Ok(Some(READABLE)));
    }
}
