//! The whole life of a wait for I/O, from its start to its end.

use vstd::prelude::*;

use crate::dispatch::{events_dispatched, merged, met, still_waiting};
use crate::event::Descriptor;
use crate::io_wait::IoWait;
use crate::laws::waiting::{
    law_close_disturbs_nobody, law_dispatch_delivers, law_finish_disturbs_nobody,
    law_start_disturbs_nobody, law_told_only_what_was_asked,
};
use crate::laws::waking::law_turn_disturbs_nobody;
use crate::selector::{
    first_index, io_mailboxes, io_tokens, lemma_first_index, shut_down, IoWaiter, SelectorCore,
};
use crate::wake::{wakeups_ok, wakeups_spent, Wakeup};

verus! {

/// What happens to a selector while a call waits for I/O.
pub enum LifeStep<V> {
    /// Another call starts to wait.
    Started { other: IoWait, fiber: V, io: V, events: i32, fd: Descriptor },
    /// Another call ends.
    Ended { other: IoWait },
    /// Events are handed to the waiters.
    Dispatched { reported: Seq<(Descriptor, i32)> },
    /// Wake-ups are used or dropped.
    Woken { spent: Seq<Wakeup<V>> },
    /// The selector is closed.
    Closed,
    /// Something that has nothing to do with waits for I/O.
    Elsewhere,
}

/// How a selector changes with a step, while the call with this mailbox waits.
pub open spec fn lived<V>(
    before: SelectorCore<V>,
    after: SelectorCore<V>,
    step: LifeStep<V>,
    mailbox: usize,
) -> bool {
    match step {
        LifeStep::Started { other, fiber, io, events, fd } => other.started(
            before,
            after,
            fiber,
            io,
            events,
            fd,
        ),
        LifeStep::Ended { other } => {
            &&& other.open_in(before)
            &&& other.mailbox != mailbox
            &&& other.finished(before, after)
        },
        LifeStep::Dispatched { reported } => events_dispatched(before, after, reported),
        LifeStep::Woken { spent } => {
            &&& wakeups_ok(spent, before)
            &&& wakeups_spent(before, after, spent)
        },
        LifeStep::Closed => shut_down(before, after),
        LifeStep::Elsewhere => {
            &&& after.io_waiters@ == before.io_waiters@
            &&& after.io_results@ == before.io_results@
        },
    }
}

/// The life of a wait up to now: the states that the selector goes through from
/// the start of the wait on, and the steps that lead from each to the next.
pub open spec fn is_life<V>(
    wait: IoWait,
    waiter: IoWaiter<V>,
    before: SelectorCore<V>,
    cores: Seq<SelectorCore<V>>,
    steps: Seq<LifeStep<V>>,
) -> bool {
    &&& before.wf()
    &&& waiter.mailbox == wait.mailbox
    &&& waiter.token == wait.token
    &&& cores.len() == steps.len() + 1
    &&& wait.started(before, cores[0], waiter.fiber, waiter.io, waiter.events, waiter.fd)
    &&& forall|k: int| 0 <= k < cores.len() ==> (#[trigger] cores[k]).wf()
    &&& forall|k: int|
        0 <= k < steps.len() ==> lived(cores[k], cores[k + 1], #[trigger] steps[k], wait.mailbox)
}

/// The step `k` is a dispatch that finds the waiter in the queue and reports
/// something that it waits for.
pub open spec fn matched<V>(
    waiter: IoWaiter<V>,
    cores: Seq<SelectorCore<V>>,
    steps: Seq<LifeStep<V>>,
    k: int,
) -> bool {
    &&& steps[k] is Dispatched
    &&& io_mailboxes(cores[k].io_waiters@).contains(waiter.mailbox)
    &&& met(waiter, steps[k]->reported) != 0
}

/// A call that waits for I/O finds nothing if and only if no dispatch during its
/// life matched its waiter, whatever else happened. Otherwise one dispatch did,
/// and it finds the conditions that this one reported of its descriptor and that
/// it asked for: at least one, and none that it did not ask for. In particular a
/// call that ends at once finds nothing.
pub proof fn law_wait_finds_what_one_dispatch_matched<V>(
    wait: IoWait,
    waiter: IoWaiter<V>,
    before: SelectorCore<V>,
    cores: Seq<SelectorCore<V>>,
    steps: Seq<LifeStep<V>>,
)
    requires
        is_life(wait, waiter, before, cores, steps),
    ensures
        wait.open_in(cores.last()),
        wait.answer(cores.last()) is None <==> forall|k: int|
            0 <= k < steps.len() ==> !#[trigger] matched(waiter, cores, steps, k),
        forall|k: int|
            0 <= k < steps.len() && #[trigger] matched(waiter, cores, steps, k) ==> {
                let found = merged(steps[k]->reported, waiter.fd) & waiter.events;
                &&& wait.answer(cores.last()) == Some(found)
                &&& found != 0
                &&& found & waiter.events == found
            },
        forall|j: int, k: int|
            0 <= j < steps.len() && 0 <= k < steps.len() && #[trigger] matched(
                waiter,
                cores,
                steps,
                j,
            ) && #[trigger] matched(waiter, cores, steps, k) ==> j == k,
        steps.len() == 0 ==> wait.answer(cores.last()) is None,
{
    lemma_life(wait, waiter, before, cores, steps, steps.len() as int);
    assert forall|k: int|
        0 <= k < steps.len() && #[trigger] matched(waiter, cores, steps, k) implies {
        let found = merged(steps[k]->reported, waiter.fd) & waiter.events;
        &&& wait.answer(cores.last()) == Some(found)
        &&& found & waiter.events == found
    } by {
        law_told_only_what_was_asked(waiter, steps[k]->reported);
    }
    assert forall|j: int, k: int|
        0 <= j < steps.len() && 0 <= k < steps.len() && #[trigger] matched(waiter, cores, steps, j)
            && #[trigger] matched(waiter, cores, steps, k) implies j == k by {
        if j < k {
            lemma_life(wait, waiter, before, cores, steps, k);
        } else if k < j {
            lemma_life(wait, waiter, before, cores, steps, j);
        }
    }
}

proof fn lemma_life<V>(
    wait: IoWait,
    waiter: IoWaiter<V>,
    before: SelectorCore<V>,
    cores: Seq<SelectorCore<V>>,
    steps: Seq<LifeStep<V>>,
    count: int,
)
    requires
        is_life(wait, waiter, before, cores, steps),
        0 <= count <= steps.len(),
    ensures
        wait.open_in(cores[count]),
        sole_entry(cores[count], waiter),
        forall|k: int|
            0 <= k < count && #[trigger] matched(waiter, cores, steps, k) ==> {
                &&& !io_mailboxes(cores[count].io_waiters@).contains(waiter.mailbox)
                &&& cores[count].io_results@[waiter.mailbox].value == met(
                    waiter,
                    steps[k]->reported,
                )
            },
        (forall|k: int| 0 <= k < count ==> !#[trigger] matched(waiter, cores, steps, k))
            ==> cores[count].io_results@[waiter.mailbox].value == 0,
    decreases count,
{
    if count == 0 {
        assert forall|i: int|
            0 <= i < cores[0].io_waiters@.len() && (#[trigger] cores[0].io_waiters@[i]).mailbox
                == waiter.mailbox implies cores[0].io_waiters@[i] == waiter by {
            if i < before.io_waiters@.len() {
                assert(before.io_waiters@[i] == cores[0].io_waiters@[i]);
            }
        }
    } else {
        let last = count - 1;
        lemma_life(wait, waiter, before, cores, steps, last);
        assert(cores[last].wf());
        assert(lived(cores[last], cores[last + 1], steps[last], wait.mailbox));
        lemma_lived(wait, waiter, cores[last], cores[count], steps[last]);
        if io_mailboxes(cores[last].io_waiters@).contains(waiter.mailbox) {
            let keys = io_mailboxes(cores[last].io_waiters@);
            let i = choose|i: int| 0 <= i < keys.len() && keys[i] == waiter.mailbox;
            assert(cores[last].io_waiters@[i].mailbox == waiter.mailbox);
            assert(cores[last].io_results@[waiter.mailbox].value == 0);
        }
        if forall|k: int| 0 <= k < count ==> !#[trigger] matched(waiter, cores, steps, k) {
            assert(!matched(waiter, cores, steps, last));
        }
    }
}

/// Every queued entry with the waiter's mailbox is the waiter itself.
pub open spec fn sole_entry<V>(core: SelectorCore<V>, waiter: IoWaiter<V>) -> bool {
    forall|i: int|
        0 <= i < core.io_waiters@.len() && (#[trigger] core.io_waiters@[i]).mailbox
            == waiter.mailbox ==> core.io_waiters@[i] == waiter
}

/// What one step does to a waiter: only a dispatch that finds it in the queue
/// sends something to its mailbox, and once out of the queue it stays out.
proof fn lemma_lived<V>(
    wait: IoWait,
    waiter: IoWaiter<V>,
    before: SelectorCore<V>,
    after: SelectorCore<V>,
    step: LifeStep<V>,
)
    requires
        before.wf(),
        waiter.mailbox == wait.mailbox,
        wait.open_in(before),
        sole_entry(before, waiter),
        lived(before, after, step, wait.mailbox),
    ensures
        wait.open_in(after),
        sole_entry(after, waiter),
        io_mailboxes(after.io_waiters@).contains(waiter.mailbox) ==> io_mailboxes(
            before.io_waiters@,
        ).contains(waiter.mailbox),
        if step is Dispatched && io_mailboxes(before.io_waiters@).contains(waiter.mailbox) {
            &&& after.io_results@[waiter.mailbox].value == met(waiter, step->reported)
            &&& met(waiter, step->reported) != 0 ==> !io_mailboxes(after.io_waiters@).contains(
                waiter.mailbox,
            )
        } else {
            after.io_results@[waiter.mailbox].value == before.io_results@[waiter.mailbox].value
        },
{
    let key = waiter.mailbox;
    let waiters = before.io_waiters@;
    let later = after.io_waiters@;
    assert(before.io_results@.contains_key(key) && before.io_results@[key].receiver);
    match step {
        LifeStep::Started { other, fiber, io, events, fd } => {
            law_start_disturbs_nobody(before, after, other, fiber, io, events, fd);
            assert(after.io_results@.contains_key(key));
            assert(other.mailbox != key);
            assert forall|i: int| 0 <= i < later.len() && later[i].mailbox == key implies i
                < waiters.len() && #[trigger] later[i] == waiters[i] by {}
        },
        LifeStep::Ended { other } => {
            law_finish_disturbs_nobody(before, after, other);
            assert(after.io_results@.contains_key(key));
            lemma_first_index(io_tokens(waiters), other.token);
            assert forall|i: int| 0 <= i < later.len() implies exists|j: int|
                0 <= j < waiters.len() && #[trigger] waiters[j] == #[trigger] later[i] by {
                match first_index(io_tokens(waiters), other.token) {
                    Some(at) => {
                        if i == at {
                            assert(waiters[waiters.len() - 1] == later[i]);
                        } else {
                            assert(waiters[i] == later[i]);
                        }
                    },
                    None => {
                        assert(waiters[i] == later[i]);
                    },
                }
            }
        },
        LifeStep::Dispatched { reported } => {
            law_dispatch_delivers(before, after, reported);
            assert(after.io_results@.contains_key(key));
            lemma_still_waiting(waiters, reported);
            let keys = io_mailboxes(waiters);
            if keys.contains(key) {
                let i = choose|i: int| 0 <= i < keys.len() && keys[i] == key;
                assert(waiters[i].mailbox == key);
                assert(waiters[i] == waiter);
            }
        },
        LifeStep::Woken { spent } => {
            assert(spent + Seq::<Wakeup<V>>::empty() =~= spent);
            law_turn_disturbs_nobody(before, after, spent, Seq::empty());
            assert(after.io_results@.contains_key(key));
        },
        LifeStep::Closed => {
            law_close_disturbs_nobody(before, after);
            assert(after.io_results@.contains_key(key));
        },
        LifeStep::Elsewhere => {},
    }
    assert(sole_entry(after, waiter)) by {
        assert forall|i: int|
            0 <= i < later.len() && (#[trigger] later[i]).mailbox == key implies later[i]
            == waiter by {
            if step is Dispatched || step is Ended {
                let j = choose|j: int| 0 <= j < waiters.len() && waiters[j] == later[i];
                assert(waiters[j].mailbox == key);
            } else {
                assert(waiters[i] == later[i]);
            }
        }
    }
    if io_mailboxes(later).contains(key) {
        let i = choose|i: int| 0 <= i < later.len() && io_mailboxes(later)[i] == key;
        assert(later[i].mailbox == key);
        let j = if step is Dispatched || step is Ended {
            choose|j: int| 0 <= j < waiters.len() && waiters[j] == later[i]
        } else {
            i
        };
        assert(waiters[j] == later[i]);
        assert(io_mailboxes(waiters)[j] == key);
        assert(io_mailboxes(waiters).contains(key));
    }
}

/// Who still waits after a dispatch waited before, and was not matched.
proof fn lemma_still_waiting<V>(waiters: Seq<IoWaiter<V>>, reported: Seq<(Descriptor, i32)>)
    ensures
        forall|i: int|
            0 <= i < still_waiting(waiters, reported).len() ==> {
                &&& met(#[trigger] still_waiting(waiters, reported)[i], reported) == 0
                &&& exists|j: int|
                    0 <= j < waiters.len() && waiters[j] == still_waiting(waiters, reported)[i]
            },
    decreases waiters.len(),
{
    if waiters.len() > 0 {
        let front = waiters.drop_last();
        lemma_still_waiting(front, reported);
        let rest = still_waiting(front, reported);
        let whole = still_waiting(waiters, reported);
        assert forall|i: int| 0 <= i < whole.len() implies {
            &&& met(#[trigger] whole[i], reported) == 0
            &&& exists|j: int| 0 <= j < waiters.len() && waiters[j] == whole[i]
        } by {
            if i < rest.len() {
                assert(rest[i] == whole[i]);
                let j = choose|j: int| 0 <= j < front.len() && front[j] == rest[i];
                assert(waiters[j] == whole[i]);
            } else {
                assert(waiters[waiters.len() - 1] == whole[i]);
            }
        }
    }
}

/// As long as a wait for I/O is in the queue, whatever else happens, its entry holds
/// just the fiber, the I/O object, the conditions and the descriptor that the call
/// was given.
pub proof fn law_queued_wait_stays_as_asked<V>(
    wait: IoWait,
    waiter: IoWaiter<V>,
    before: SelectorCore<V>,
    cores: Seq<SelectorCore<V>>,
    steps: Seq<LifeStep<V>>,
    count: int,
    i: int,
)
    requires
        is_life(wait, waiter, before, cores, steps),
        0 <= count <= steps.len(),
        0 <= i < cores[count].io_waiters@.len(),
        cores[count].io_waiters@[i].mailbox == wait.mailbox,
    ensures
        cores[count].io_waiters@[i] == waiter,
{
    lemma_life(wait, waiter, before, cores, steps, count);
}

} // verus!
