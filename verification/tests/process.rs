use io_event::event::BackendKind;
use io_event::process::{ProcessScan, ProcessWait, ProcessWaitStart, StatusProbe};
use io_event::selector::SelectorCore;
use io_event::wake::{WakeQueue, WakeStep};

fn new_core() -> SelectorCore<u64> {
    SelectorCore::new(BackendKind::EPoll)
}

fn queue(core: &mut SelectorCore<u64>, fiber: u64, pid: i64) -> ProcessWait {
    match ProcessWait::selector_process_wait::<u64, ()>(core, fiber, pid, 2, Ok(None)) {
        Ok(ProcessWaitStart::Queued(wait)) => wait,
        _ => panic!("the process is running"),
    }
}

type Probe = StatusProbe<u64, &'static str>;

#[test]
fn status_is_asked_of_the_class_if_it_can_wait() {
    let probe: Probe = StatusProbe::process_status_wait(100, 2);
    let probe = probe.flag_found(Ok(1));
    assert!(matches!(probe, StatusProbe::LookUpClass { pid: 100, wait_flags: 3 }));
    let probe = probe.class_found(Ok(()));
    assert!(matches!(probe, StatusProbe::AskClass { pid: 100, wait_flags: 3 }));
    let probe = probe.class_answered(Ok(true));
    assert!(matches!(probe, StatusProbe::WaitByClass { pid: 100, wait_flags: 3 }));
    let probe = probe.status_found(Ok(Some(7)));
    assert!(matches!(probe, StatusProbe::Done(Ok(Some(7)))));
}

#[test]
fn status_is_taken_off_the_list_otherwise() {
    let ask = || -> Probe { StatusProbe::AskClass { pid: 100, wait_flags: 3 } };
    let wait = || ask().class_answered(Ok(false));
    assert!(matches!(wait(), StatusProbe::WaitByModule { pid: 100, wait_flags: 3 }));
    assert!(matches!(wait().module_waited(Ok(false)), StatusProbe::Done(Ok(None))));
    assert!(matches!(wait().module_waited(Ok(true)), StatusProbe::TakeLast));
    let last = wait().module_waited(Ok(true)).status_found(Ok(Some(8)));
    assert!(matches!(last, StatusProbe::Done(Ok(Some(8)))));
    assert!(matches!(wait().module_waited(Err("none")), StatusProbe::Done(Err("none"))));
}

#[test]
fn exceptions_end_the_question() {
    let start = || -> Probe { StatusProbe::process_status_wait(1, 0) };
    assert!(matches!(start().flag_found(Err("a")), StatusProbe::Done(Err("a"))));
    let class = || start().flag_found(Ok(1));
    assert!(matches!(class().class_found(Err("b")), StatusProbe::Done(Err("b"))));
    let ask = || class().class_found(Ok(()));
    assert!(matches!(ask().class_answered(Err("c")), StatusProbe::Done(Err("c"))));
    let wait = ask().class_answered(Ok(true));
    assert!(matches!(wait.status_found(Err("d")), StatusProbe::Done(Err("d"))));
}

#[test]
fn known_status_is_not_waited_for() {
    let mut core = new_core();
    let start = ProcessWait::selector_process_wait::<u64, ()>(&mut core, 1, 100, 0, Ok(Some(9)));
    assert!(matches!(start, Ok(ProcessWaitStart::Known(9))));
    let start = ProcessWait::selector_process_wait(&mut core, 1, 100, 0, Err("no child"));
    assert!(matches!(start, Err("no child")));
    assert_eq!(core.process_waiters.len(), 0);
    assert_eq!(core.next_token, 1);
}

#[test]
fn wait_is_told_the_status() {
    let mut core = new_core();
    let wait = queue(&mut core, 1, 100);
    let mut scan = ProcessScan::check_process_waiters();
    assert_eq!(scan.question(&core), Some((100, 2)));
    assert!(scan.answered(&mut core, Ok::<Option<u64>, ()>(Some(55))).is_ok());
    assert_eq!(scan.question(&core), None);
    assert_eq!(scan.ready, vec![1]);
    let mut wakeups = WakeQueue::process_waiters(scan);
    let step: WakeStep<u64, ()> = wakeups.advance(&mut core);
    assert!(matches!(step, WakeStep::Probe(1)));
    assert_eq!(wait.finish(&mut core, Ok::<Option<u64>, ()>(None)), Ok(Some(55)));
}

#[test]
fn round_asks_everybody_once() {
    let mut core = new_core();
    let _first = queue(&mut core, 1, 101);
    let second = queue(&mut core, 2, 102);
    let _third = queue(&mut core, 3, 103);
    let fourth = queue(&mut core, 4, 104);
    let mut scan = ProcessScan::check_process_waiters();
    let mut asked = Vec::new();
    while let Some((pid, flags)) = scan.question(&core) {
        assert_eq!(flags, 2);
        asked.push(pid);
        let status = if pid % 2 == 0 { Some(pid as u64) } else { None };
        assert!(scan.answered(&mut core, Ok::<Option<u64>, ()>(status)).is_ok());
    }
    assert_eq!(asked, vec![101, 102, 104, 103]);
    assert_eq!(scan.ready, vec![2, 4]);
    let left: Vec<i64> = core.process_waiters.iter().map(|waiter| waiter.pid).collect();
    assert_eq!(left, vec![101, 103]);
    assert_eq!(second.finish(&mut core, Ok::<Option<u64>, ()>(None)), Ok(Some(102)));
    assert_eq!(fourth.finish(&mut core, Ok::<Option<u64>, ()>(None)), Ok(Some(104)));
}

#[test]
fn exception_ends_the_round() {
    let mut core = new_core();
    queue(&mut core, 1, 101);
    let mut scan = ProcessScan::check_process_waiters();
    assert_eq!(scan.answered(&mut core, Err("no child")), Err("no child"));
    assert_eq!(core.process_waiters.len(), 1);
    assert_eq!(scan.index, 0);
}

#[test]
fn wait_for_a_process_that_runs_on_leaves_no_trace() {
    let mut core = new_core();
    let wait = queue(&mut core, 1, 101);
    let mailbox = wait.mailbox;
    assert_eq!(wait.finish(&mut core, Ok::<Option<u64>, ()>(None)), Ok(None));
    assert_eq!(core.process_waiters.len(), 0);
    assert!(!core.process_results.has_receiver(mailbox));
    let wait = queue(&mut core, 1, 101);
    assert_eq!(wait.finish(&mut core, Err("raised")), Err("raised"));
    assert_eq!(core.process_waiters.len(), 0);
}

#[test]
fn process_waiter_is_replaced_by_the_last_one() {
    let mut core = new_core();
    let first = queue(&mut core, 1, 101);
    queue(&mut core, 2, 102);
    queue(&mut core, 3, 103);
    core.remove_process_waiter(first.token);
    let left: Vec<i64> = core.process_waiters.iter().map(|waiter| waiter.pid).collect();
    assert_eq!(left, vec![103, 102]);
    core.remove_process_waiter(77);
    assert_eq!(core.process_waiters.len(), 2);
}

#[test]
fn status_survives_a_close() {
    let mut core = new_core();
    let first = queue(&mut core, 1, 101);
    let second = queue(&mut core, 2, 102);
    let mut scan = ProcessScan::check_process_waiters();
    assert!(scan.answered(&mut core, Ok::<Option<u64>, ()>(Some(5))).is_ok());
    core.close();
    assert_eq!(first.finish(&mut core, Ok::<Option<u64>, ()>(None)), Ok(Some(5)));
    assert_eq!(second.finish(&mut core, Ok::<Option<u64>, ()>(None)), Ok(None));
}

#[test]
fn wait_finds_what_one_answer_brought() {
    let mut core = new_core();
    let wait = queue(&mut core, 1, 101);
    let other = queue(&mut core, 2, 102);
    let mut scan = ProcessScan::check_process_waiters();
    assert!(scan.answered(&mut core, Ok::<Option<u64>, ()>(None)).is_ok());
    assert!(scan.answered(&mut core, Ok::<Option<u64>, ()>(Some(7))).is_ok());
    assert_eq!(core.process_results.peek(wait.mailbox), None);
    let mut again = ProcessScan::check_process_waiters();
    assert!(again.answered(&mut core, Ok::<Option<u64>, ()>(Some(8))).is_ok());
    assert_eq!(other.finish(&mut core, Ok::<Option<u64>, ()>(None)), Ok(Some(7)));
    assert_eq!(wait.finish(&mut core, Ok::<Option<u64>, ()>(None)), Ok(Some(8)));
}
