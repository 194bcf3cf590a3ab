//! The whole life of a wait for a process, from its start to its end.

use vstd::prelude::*;

use crate::laws::processes::{
    law_close_disturbs_nobody, law_finish_disturbs_nobody, law_start_disturbs_nobody,
};
use crate::process::{ProcessScan, ProcessWait};
use crate::selector::{
    first_index, lemma_first_index, process_mailboxes, process_tokens, shut_down, ProcessWaiter,
    SelectorCore,
};

verus! {

/// What happens to a selector while a call waits for a process.
pub enum LifeStep<V> {
    /// Another call starts to wait.
    Started { other: ProcessWait, fiber: V, pid: i64, flags: i32 },
    /// Another call ends.
    Ended { other: ProcessWait },
    /// A round of questions, which stands at `scan`, gets an answer.
    Answered { scan: ProcessScan<V>, next: ProcessScan<V>, status: Option<V> },
    /// The selector is closed.
    Closed,
    /// Something that has nothing to do with waits for processes.
    Elsewhere,
}

/// How a selector changes with a step, while the call with this mailbox waits.
pub open spec fn lived<V: Copy>(
    before: SelectorCore<V>,
    after: SelectorCore<V>,
    step: LifeStep<V>,
    mailbox: usize,
) -> bool {
    match step {
        LifeStep::Started { other, fiber, pid, flags } => other.started(
            before,
            after,
            fiber,
            pid,
            flags,
        ),
        LifeStep::Ended { other } => {
            &&& other.open_in(before)
            &&& other.mailbox != mailbox
            &&& other.finished(before, after)
        },
        LifeStep::Answered { scan, next, status } => {
            &&& scan.index < before.process_waiters@.len()
            &&& ProcessScan::stepped(scan, before, next, after, status)
        },
        LifeStep::Closed => shut_down(before, after),
        LifeStep::Elsewhere => {
            &&& after.process_waiters@ == before.process_waiters@
            &&& after.process_results@ == before.process_results@
        },
    }
}

/// The life of a wait up to now: the states that the selector goes through from
/// the start of the wait on, and the steps that lead from each to the next.
pub open spec fn is_life<V: Copy>(
    wait: ProcessWait,
    waiter: ProcessWaiter<V>,
    before: SelectorCore<V>,
    cores: Seq<SelectorCore<V>>,
    steps: Seq<LifeStep<V>>,
) -> bool {
    &&& before.wf()
    &&& waiter.mailbox == wait.mailbox
    &&& waiter.token == wait.token
    &&& cores.len() == steps.len() + 1
    &&& wait.started(before, cores[0], waiter.fiber, waiter.pid, waiter.flags)
    &&& forall|k: int| 0 <= k < cores.len() ==> (#[trigger] cores[k]).wf()
    &&& forall|k: int|
        0 <= k < steps.len() ==> lived(cores[k], cores[k + 1], #[trigger] steps[k], wait.mailbox)
}

/// The step `k` is an answer with a status, to the question for this waiter's
/// process.
pub open spec fn served<V: Copy>(
    waiter: ProcessWaiter<V>,
    cores: Seq<SelectorCore<V>>,
    steps: Seq<LifeStep<V>>,
    k: int,
) -> bool {
    &&& steps[k] is Answered
    &&& steps[k]->status is Some
    &&& cores[k].process_waiters@[steps[k]->scan.index as int].mailbox == waiter.mailbox
}

/// A call that waits for a process finds nothing if and only if no question for
/// its process was answered with a status during its life, whatever else
/// happened. Otherwise one was, and it finds that status. In particular a call
/// that ends at once finds nothing.
pub proof fn law_wait_finds_what_one_answer_brought<V: Copy>(
    wait: ProcessWait,
    waiter: ProcessWaiter<V>,
    before: SelectorCore<V>,
    cores: Seq<SelectorCore<V>>,
    steps: Seq<LifeStep<V>>,
)
    requires
        is_life(wait, waiter, before, cores, steps),
    ensures
        wait.open_in(cores.last()),
        wait.answer(cores.last()) is None <==> forall|k: int|
            0 <= k < steps.len() ==> !#[trigger] served(waiter, cores, steps, k),
        forall|k: int|
            0 <= k < steps.len() && #[trigger] served(waiter, cores, steps, k) ==> wait.answer(
                cores.last(),
            ) == steps[k]->status,
        forall|j: int, k: int|
            0 <= j < steps.len() && 0 <= k < steps.len() && #[trigger] served(
                waiter,
                cores,
                steps,
                j,
            ) && #[trigger] served(waiter, cores, steps, k) ==> j == k,
        steps.len() == 0 ==> wait.answer(cores.last()) is None,
{
    lemma_life(wait, waiter, before, cores, steps, steps.len() as int);
    assert forall|j: int, k: int|
        0 <= j < steps.len() && 0 <= k < steps.len() && #[trigger] served(waiter, cores, steps, j)
            && #[trigger] served(waiter, cores, steps, k) implies j == k by {
        let (first, later) = if j < k {
            (j, k)
        } else {
            (k, j)
        };
        if first < later {
            lemma_life(wait, waiter, before, cores, steps, later);
            let at = steps[later]->scan.index as int;
            assert(lived(cores[later], cores[later + 1], steps[later], wait.mailbox));
            assert(process_mailboxes(cores[later].process_waiters@)[at] == waiter.mailbox);
        }
    }
}

proof fn lemma_life<V: Copy>(
    wait: ProcessWait,
    waiter: ProcessWaiter<V>,
    before: SelectorCore<V>,
    cores: Seq<SelectorCore<V>>,
    steps: Seq<LifeStep<V>>,
    count: int,
)
    requires
        is_life(wait, waiter, before, cores, steps),
        0 <= count <= steps.len(),
    ensures
        wait.open_in(cores[count]),
        forall|k: int|
            0 <= k < count && #[trigger] served(waiter, cores, steps, k) ==> {
                &&& !process_mailboxes(cores[count].process_waiters@).contains(waiter.mailbox)
                &&& cores[count].process_results@[waiter.mailbox].value == steps[k]->status
            },
        (forall|k: int| 0 <= k < count ==> !#[trigger] served(waiter, cores, steps, k))
            ==> cores[count].process_results@[waiter.mailbox].value is None,
    decreases count,
{
    if count > 0 {
        let last = count - 1;
        lemma_life(wait, waiter, before, cores, steps, last);
        assert(cores[last].wf());
        assert(lived(cores[last], cores[last + 1], steps[last], wait.mailbox));
        lemma_lived(wait, cores[last], cores[count], steps[last]);
        if served(waiter, cores, steps, last) {
            let at = steps[last]->scan.index as int;
            assert(process_mailboxes(cores[last].process_waiters@)[at] == waiter.mailbox);
            assert(process_mailboxes(cores[last].process_waiters@).contains(waiter.mailbox));
        }
        if forall|k: int| 0 <= k < count ==> !#[trigger] served(waiter, cores, steps, k) {
            assert(!served(waiter, cores, steps, last));
        }
    }
}

/// What one step does to a call that waits: only an answer with a status to the
/// question for its process sends something to its mailbox, and once out of the
/// queue it stays out.
proof fn lemma_lived<V: Copy>(
    wait: ProcessWait,
    before: SelectorCore<V>,
    after: SelectorCore<V>,
    step: LifeStep<V>,
)
    requires
        before.wf(),
        wait.open_in(before),
        lived(before, after, step, wait.mailbox),
    ensures
        wait.open_in(after),
        process_mailboxes(after.process_waiters@).contains(wait.mailbox) ==> process_mailboxes(
            before.process_waiters@,
        ).contains(wait.mailbox),
        if step is Answered && step->status is Some
            && before.process_waiters@[step->scan.index as int].mailbox == wait.mailbox {
            &&& after.process_results@[wait.mailbox].value == step->status
            &&& !process_mailboxes(after.process_waiters@).contains(wait.mailbox)
        } else {
            after.process_results@[wait.mailbox].value
                == before.process_results@[wait.mailbox].value
        },
{
    let key = wait.mailbox;
    let waiters = before.process_waiters@;
    let later = after.process_waiters@;
    let mut removed: Option<int> = None;
    assert(before.process_results@.contains_key(key) && before.process_results@[key].receiver);
    match step {
        LifeStep::Started { other, fiber, pid, flags } => {
            law_start_disturbs_nobody(before, after, other, fiber, pid, flags);
            assert(after.process_results@.contains_key(key));
            assert(other.mailbox != key);
        },
        LifeStep::Ended { other } => {
            law_finish_disturbs_nobody(before, after, other);
            assert(after.process_results@.contains_key(key));
            lemma_first_index(process_tokens(waiters), other.token);
            removed = first_index(process_tokens(waiters), other.token);
        },
        LifeStep::Answered { scan, next, status } => {
            if status is Some {
                removed = Some(scan.index as int);
                assert(before.process_results@.contains_key(waiters[scan.index as int].mailbox));
            }
        },
        LifeStep::Closed => {
            law_close_disturbs_nobody(before, after);
            assert(after.process_results@.contains_key(key));
        },
        LifeStep::Elsewhere => {},
    }
    let keys = process_mailboxes(later);
    if keys.contains(key) {
        let i = choose|i: int| 0 <= i < keys.len() && keys[i] == key;
        assert(later[i].mailbox == key);
        let j = match removed {
            Some(at) => if i == at {
                waiters.len() - 1
            } else {
                i
            },
            None => i,
        };
        assert(waiters[j] == later[i]);
        assert(process_mailboxes(waiters)[j] == key);
        assert(process_mailboxes(waiters).contains(key));
        if step is Answered && step->status is Some {
            let at = step->scan.index as int;
            if waiters[at].mailbox == key {
                if j < at {
                    assert(waiters[j].mailbox != waiters[at].mailbox);
                } else {
                    assert(waiters[at].mailbox != waiters[j].mailbox);
                }
            }
        }
    }
}

/// As long as a wait for a process is in the queue, whatever else happens, its entry
/// holds just the process, the flags and the fiber that the call was given, and a
/// round that comes to it asks for just this process with just these flags.
pub proof fn law_round_asks_what_the_call_asked<V: Copy>(
    wait: ProcessWait,
    waiter: ProcessWaiter<V>,
    before: SelectorCore<V>,
    cores: Seq<SelectorCore<V>>,
    steps: Seq<LifeStep<V>>,
    count: int,
    scan: ProcessScan<V>,
    question: Option<(i64, i32)>,
)
    requires
        is_life(wait, waiter, before, cores, steps),
        0 <= count <= steps.len(),
        scan.index < cores[count].process_waiters@.len(),
        cores[count].process_waiters@[scan.index as int].mailbox == wait.mailbox,
        call_ensures(ProcessScan::<V>::question, (&scan, &cores[count]), question),
    ensures
        cores[count].process_waiters@[scan.index as int] == waiter,
        question == Some((waiter.pid, waiter.flags)),
{
    lemma_entry(wait, waiter, before, cores, steps, count);
}

proof fn lemma_entry<V: Copy>(
    wait: ProcessWait,
    waiter: ProcessWaiter<V>,
    before: SelectorCore<V>,
    cores: Seq<SelectorCore<V>>,
    steps: Seq<LifeStep<V>>,
    count: int,
)
    requires
        is_life(wait, waiter, before, cores, steps),
        0 <= count <= steps.len(),
    ensures
        forall|i: int|
            0 <= i < cores[count].process_waiters@.len() && (
            #[trigger] cores[count].process_waiters@[i]).mailbox == wait.mailbox
                ==> cores[count].process_waiters@[i] == waiter,
    decreases count,
{
    let now = cores[count].process_waiters@;
    if count == 0 {
        assert forall|i: int|
            0 <= i < now.len() && (#[trigger] now[i]).mailbox == wait.mailbox implies now[i]
            == waiter by {
            if i < before.process_waiters@.len() {
                assert(before.process_waiters@[i] == now[i]);
            }
        }
    } else {
        let last = count - 1;
        lemma_entry(wait, waiter, before, cores, steps, last);
        lemma_life(wait, waiter, before, cores, steps, last);
        assert(cores[last].wf());
        assert(lived(cores[last], cores[last + 1], steps[last], wait.mailbox));
        let waiters = cores[last].process_waiters@;
        let removed = match steps[last] {
            LifeStep::Ended { other } => first_index(process_tokens(waiters), other.token),
            LifeStep::Answered { scan, status, .. } => if status is Some {
                Some(scan.index as int)
            } else {
                None
            },
            _ => None,
        };
        if let LifeStep::Ended { other } = steps[last] {
            lemma_first_index(process_tokens(waiters), other.token);
        }
        assert forall|i: int|
            0 <= i < now.len() && (#[trigger] now[i]).mailbox == wait.mailbox implies now[i]
            == waiter by {
            let j = match removed {
                Some(at) => if i == at {
                    waiters.len() - 1
                } else {
                    i
                },
                None => i,
            };
            assert(waiters[j] == now[i]);
        }
    }
}

} // verus!
