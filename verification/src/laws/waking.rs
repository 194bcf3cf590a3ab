//! Waking fibers: everybody has one turn, and nobody is disturbed.

use vstd::prelude::*;

use crate::dispatch::{concerned, events_dispatched, lemma_dispatched};
use crate::event::Descriptor;
use crate::laws::waiting::{answers_stay, law_dispatch_disturbs_nobody};
use crate::mailbox::{lemma_senders_left, senders_left, Slot};
use crate::selector::{io_mailboxes, SelectorCore};
use crate::wake::{
    lemma_wake_keys, next_current, wake_keys, wakeups_ok, wakeups_spent, WakeQueue,
    WakeStep, Wakeup,
};

verus! {

/// The call that a wake-up was meant for has ended: its mailbox has no receiving end
/// any more. A fiber that does not wait for I/O has no such call.
pub open spec fn call_ended<V>(wakeup: Wakeup<V>, boxes: Map<usize, Slot<i32>>) -> bool {
    wakeup.mailbox matches Some(key) && !boxes[key].receiver
}

/// Each step of a wake queue goes forward: the fiber that is looked at next
/// comes later than all that had their turn, its call has not gone, and those
/// passed over are the ones whose calls have.
pub proof fn law_each_fiber_has_one_turn<V, E>(
    before: WakeQueue<V>,
    core_before: SelectorCore<V>,
    after: WakeQueue<V>,
    core_after: SelectorCore<V>,
    step: WakeStep<V, E>,
)
    requires
        before.wf(core_before),
        WakeQueue::<V>::advanced(before, core_before, after, core_after, step),
    ensures
        match step {
            WakeStep::Probe(fiber) => {
                &&& before.next < after.next <= before.wakeups@.len()
                &&& fiber == before.wakeups@[after.next - 1].fiber
                &&& !call_ended(before.wakeups@[after.next - 1], core_before.io_results@)
                &&& forall|i: int|
                    before.next <= i < after.next - 1 ==> call_ended(
                        #[trigger] before.wakeups@[i],
                        core_before.io_results@,
                    )
            },
            WakeStep::Transfer(_) => false,
            WakeStep::Done(outcome) => {
                &&& outcome == Ok::<usize, E>(before.woken)
                &&& forall|i: int|
                    before.next <= i < before.wakeups@.len() ==> call_ended(
                        #[trigger] before.wakeups@[i],
                        core_before.io_results@,
                    )
            },
        },
{
    lemma_next_current(before.wakeups@, core_before, before.next as int);
}

proof fn lemma_next_current<V>(wakeups: Seq<Wakeup<V>>, core: SelectorCore<V>, from: int)
    requires
        0 <= from <= wakeups.len(),
    ensures
        ({
            let found = next_current(wakeups, core.io_results@, from);
            &&& from <= found <= wakeups.len()
            &&& found < wakeups.len() ==> !call_ended(wakeups[found], core.io_results@)
            &&& forall|i: int|
                from <= i < found ==> call_ended(#[trigger] wakeups[i], core.io_results@)
        }),
    decreases wakeups.len() - from,
{
    if from < wakeups.len() && call_ended(wakeups[from], core.io_results@) {
        lemma_next_current(wakeups, core, from + 1);
    }
}

/// One look at a wake queue for the next fiber: the queue and its selector before
/// and after.
pub struct Look<V> {
    pub before: WakeQueue<V>,
    pub core_before: SelectorCore<V>,
    pub after: WakeQueue<V>,
    pub core_after: SelectorCore<V>,
}

/// The look after the one at `k` finds the queue as that one left it, but for a
/// fiber more that counts as woken if control was passed on.
pub open spec fn goes_on<V>(looks: Seq<Look<V>>, k: int, transferred: bool) -> bool {
    looks[k + 1].before == if transferred {
        WakeQueue { woken: (looks[k].after.woken + 1) as usize, ..looks[k].after }
    } else {
        looks[k].after
    }
}

/// A whole or unfinished run of a wake queue: every look at it, what each found,
/// and for each fiber found but the last whether it was alive, so that control
/// was passed to it. The selector may have changed in any way meanwhile, as long
/// as the queue is still good.
pub open spec fn is_run<V, E>(
    looks: Seq<Look<V>>,
    steps: Seq<WakeStep<V, E>>,
    transfers: Seq<bool>,
) -> bool {
    &&& steps.len() == transfers.len() + 1
    &&& looks.len() == steps.len()
    &&& looks[0].before.next == 0
    &&& looks[0].before.woken == 0
    &&& forall|k: int|
        0 <= k < steps.len() ==> {
            &&& (#[trigger] looks[k]).before.wf(looks[k].core_before)
            &&& WakeQueue::<V>::advanced(
                looks[k].before,
                looks[k].core_before,
                looks[k].after,
                looks[k].core_after,
                steps[k],
            )
        }
    &&& forall|k: int|
        0 <= k < transfers.len() ==> {
            &&& steps[k] is Probe
            &&& #[trigger] goes_on(looks, k, transfers[k])
        }
}

/// How often control was passed on.
pub open spec fn transfer_count(transfers: Seq<bool>) -> nat
    decreases transfers.len(),
{
    if transfers.len() == 0 {
        0
    } else {
        transfer_count(transfers.drop_last()) + if transfers.last() {
            1nat
        } else {
            0
        }
    }
}

/// The wake-up that a look found.
pub open spec fn place<V>(look: Look<V>) -> int {
    look.after.next - 1
}

/// A look used the wake-up at `p`: it found it, or passed over it because its call
/// had gone.
pub open spec fn used<V, E>(look: Look<V>, step: WakeStep<V, E>, p: int) -> bool {
    &&& look.before.next <= p < look.after.next
    &&& if step is Probe && p == place(look) {
        !call_ended(look.before.wakeups@[p], look.core_before.io_results@)
    } else {
        call_ended(look.before.wakeups@[p], look.core_before.io_results@)
    }
}

/// One of the first `count` looks used the wake-up at `p`.
pub open spec fn used_by_then<V, E>(
    looks: Seq<Look<V>>,
    steps: Seq<WakeStep<V, E>>,
    count: int,
    p: int,
) -> bool {
    exists|k: int| 0 <= k < count && #[trigger] used(looks[k], steps[k], p)
}

/// A run of a wake queue finds its fibers in their order, each at most once, and
/// only those whose calls have not gone. When it is done, every wake-up has been
/// used by just one look, which found it or passed over it because its call had
/// gone; and the number it ends with is the number of times that control was
/// passed on.
pub proof fn law_run_wakes_everybody_once<V, E>(
    looks: Seq<Look<V>>,
    steps: Seq<WakeStep<V, E>>,
    transfers: Seq<bool>,
)
    requires
        is_run(looks, steps, transfers),
    ensures
        forall|k: int|
            0 <= k < transfers.len() ==> {
                let wakeups = looks[0].before.wakeups@;
                &&& 0 <= place(#[trigger] looks[k]) < wakeups.len()
                &&& steps[k] == WakeStep::<V, E>::Probe(wakeups[place(looks[k])].fiber)
            },
        forall|j: int, k: int|
            0 <= j < k < transfers.len() ==> place(#[trigger] looks[j]) < place(
                #[trigger] looks[k],
            ),
        forall|p: int, j: int, k: int|
            0 <= j < steps.len() && 0 <= k < steps.len() && #[trigger] used(looks[j], steps[j], p)
                && #[trigger] used(looks[k], steps[k], p) ==> j == k,
        steps.last() is Done ==> {
            &&& steps.last() == WakeStep::<V, E>::Done(Ok(transfer_count(transfers) as usize))
            &&& transfer_count(transfers) <= looks[0].before.wakeups@.len()
            &&& forall|p: int|
                0 <= p < looks[0].before.wakeups@.len() ==> #[trigger] used_by_then(
                    looks,
                    steps,
                    steps.len() as int,
                    p,
                )
        },
{
    let last = steps.len() - 1;
    let wakeups = looks[0].before.wakeups@;
    lemma_run(looks, steps, transfers, last);
    assert forall|k: int| 0 <= k < transfers.len() implies {
        &&& 0 <= place(#[trigger] looks[k]) < wakeups.len()
        &&& steps[k] == WakeStep::<V, E>::Probe(wakeups[place(looks[k])].fiber)
    } by {
        lemma_run(looks, steps, transfers, k);
        lemma_look(looks[k], steps[k]);
        assert(goes_on(looks, k, transfers[k]));
    }
    assert forall|j: int, k: int| 0 <= j < k < transfers.len() implies place(
        #[trigger] looks[j],
    ) < place(#[trigger] looks[k]) by {
        lemma_later(looks, steps, transfers, j, k);
        lemma_look(looks[k], steps[k]);
        assert(goes_on(looks, k, transfers[k]));
    }
    assert forall|p: int, j: int, k: int|
        0 <= j < steps.len() && 0 <= k < steps.len() && #[trigger] used(looks[j], steps[j], p)
            && #[trigger] used(looks[k], steps[k], p) implies j == k by {
        if j < k {
            lemma_later(looks, steps, transfers, j, k);
        } else if k < j {
            lemma_later(looks, steps, transfers, k, j);
        }
    }
    assert(transfers.take(last) =~= transfers);
    lemma_look(looks[last], steps[last]);
}

/// What one look does.
proof fn lemma_look<V, E>(look: Look<V>, step: WakeStep<V, E>)
    requires
        look.before.wf(look.core_before),
        WakeQueue::<V>::advanced(
            look.before,
            look.core_before,
            look.after,
            look.core_after,
            step,
        ),
    ensures
        look.after.wakeups == look.before.wakeups,
        look.after.woken == look.before.woken,
        look.before.next <= look.after.next <= look.before.wakeups@.len(),
        step is Probe ==> {
            &&& look.before.next < look.after.next
            &&& step == WakeStep::<V, E>::Probe(look.before.wakeups@[place(look)].fiber)
        },
        step is Done ==> {
            &&& step == WakeStep::<V, E>::Done(Ok(look.before.woken))
            &&& look.after.next == look.before.wakeups@.len()
        },
        forall|p: int|
            look.before.next <= p < look.after.next ==> #[trigger] used(look, step, p),
{
    law_each_fiber_has_one_turn(
        look.before,
        look.core_before,
        look.after,
        look.core_after,
        step,
    );
    lemma_next_current(look.before.wakeups@, look.core_before, look.before.next as int);
}

/// A later look starts where the earlier ones have come to.
proof fn lemma_later<V, E>(
    looks: Seq<Look<V>>,
    steps: Seq<WakeStep<V, E>>,
    transfers: Seq<bool>,
    j: int,
    k: int,
)
    requires
        is_run(looks, steps, transfers),
        0 <= j < k < steps.len(),
    ensures
        looks[j].after.next <= looks[k].before.next,
    decreases k - j,
{
    let last = k - 1;
    assert(goes_on(looks, last, transfers[last]));
    if j < last {
        lemma_later(looks, steps, transfers, j, last);
        lemma_look(looks[last], steps[last]);
    }
}

proof fn lemma_run<V, E>(
    looks: Seq<Look<V>>,
    steps: Seq<WakeStep<V, E>>,
    transfers: Seq<bool>,
    count: int,
)
    requires
        is_run(looks, steps, transfers),
        0 <= count < steps.len(),
    ensures
        looks[count].before.wakeups == looks[0].before.wakeups,
        looks[count].before.woken == transfer_count(transfers.take(count)),
        transfer_count(transfers.take(count)) <= looks[0].before.wakeups@.len(),
        forall|p: int|
            0 <= p < looks[count].after.next ==> #[trigger] used_by_then(
                looks,
                steps,
                count + 1,
                p,
            ),
    decreases count,
{
    if count == 0 {
        assert(transfers.take(0) =~= Seq::<bool>::empty());
        lemma_look(looks[0], steps[0]);
        assert forall|p: int| 0 <= p < looks[0].after.next implies #[trigger] used_by_then(
            looks,
            steps,
            1,
            p,
        ) by {
            assert(used(looks[0], steps[0], p));
        }
    } else {
        let last = count - 1;
        lemma_run(looks, steps, transfers, last);
        lemma_look(looks[last], steps[last]);
        lemma_look(looks[count], steps[count]);
        assert(transfers.take(count).drop_last() =~= transfers.take(last));
        assert(goes_on(looks, last, transfers[last]));
        assert(looks[last + 1] == looks[count]);
        assert forall|p: int| 0 <= p < looks[count].after.next implies #[trigger] used_by_then(
            looks,
            steps,
            count + 1,
            p,
        ) by {
            if p < looks[count].before.next {
                assert(used_by_then(looks, steps, count, p));
                let k = choose|k: int| 0 <= k < count && #[trigger] used(looks[k], steps[k], p);
                assert(used(looks[k], steps[k], p));
            } else {
                assert(used(looks[count], steps[count], p));
            }
        }
    }
}

/// A turn of one wake queue, or its end, disturbs nobody: every call still waits
/// for its answer or has it, and the wake-ups of other queues stay good.
pub proof fn law_turn_disturbs_nobody<V>(
    before: SelectorCore<V>,
    after: SelectorCore<V>,
    spent: Seq<Wakeup<V>>,
    others: Seq<Wakeup<V>>,
)
    requires
        wakeups_ok(spent + others, before),
        wakeups_spent(before, after, spent),
    ensures
        answers_stay(before, after, Set::empty()),
        wakeups_ok(others, after),
{
    let all = spent + others;
    let keys = wake_keys(spent);
    let boxes = before.io_results@;
    assert(forall|i: int| 0 <= i < spent.len() ==> spent[i] == all[i]);
    assert(forall|i: int| 0 <= i < others.len() ==> others[i] == all[spent.len() + i]);
    assert(wakeups_ok(spent, before));
    lemma_wake_keys(spent, before);
    lemma_senders_left(boxes, keys);
    assert forall|key: usize| boxes.contains_key(key) && boxes[key].receiver implies {
        &&& #[trigger] after.io_results@.contains_key(key)
        &&& after.io_results@[key].receiver
        &&& after.io_results@[key].value == boxes[key].value
    } by {
        assert(senders_left(boxes, keys).contains_key(key));
    }
    assert forall|i: int| 0 <= i < others.len() implies ((
    #[trigger] others[i]).mailbox matches Some(key) ==> {
        &&& after.io_results@.contains_key(key)
        &&& after.io_results@[key].sender
    }) by {
        if let Some(key) = others[i].mailbox {
            assert(all[spent.len() + i].mailbox == Some(key));
            if keys.contains(key) {
                let j = choose|j: int|
                    0 <= j < spent.len() && (#[trigger] spent[j]).mailbox == Some(key);
                assert(all[j].mailbox == Some(key));
            }
            assert(senders_left(boxes, keys).contains_key(key));
        }
    }
}

/// The wake-ups of a dispatch are apart from all those that have not had their
/// turn yet: a fiber that is woken may run a turn of the event loop itself, and
/// both queues stay good, side by side.
pub proof fn law_dispatch_makes_a_queue_apart<V>(
    before: SelectorCore<V>,
    after: SelectorCore<V>,
    events: Seq<(Descriptor, i32)>,
    others: Seq<Wakeup<V>>,
)
    requires
        before.wf(),
        wakeups_ok(others, before),
        events_dispatched(before, after, events),
    ensures
        wakeups_ok(concerned(before.io_waiters@, events) + others, after),
{
    let waiters = before.io_waiters@;
    let fresh = concerned(waiters, events);
    let all = fresh + others;
    law_dispatch_disturbs_nobody(before, after, events);
    assert(wakeups_ok(others, after));
    lemma_dispatched(before, events, waiters.len() as int);
    assert(waiters.take(waiters.len() as int) =~= waiters);
    assert forall|i: int| 0 <= i < all.len() implies ((#[trigger] all[i]).mailbox matches Some(
        key,
    ) ==> {
        &&& after.io_results@.contains_key(key)
        &&& after.io_results@[key].sender
        &&& !io_mailboxes(after.io_waiters@).contains(key)
    }) by {
        if i < fresh.len() {
            assert(all[i] == fresh[i]);
            let key = fresh[i].mailbox->0;
            let j = choose|j: int|
                0 <= j < waiters.len() && (#[trigger] waiters[j]).mailbox == fresh[i].mailbox->0;
            assert(waiters[j].mailbox == key);
            assert(before.io_results@.contains_key(key));
            assert(after.io_results@.dom().contains(key));
            assert(after.io_results@[key].sender == before.io_results@[key].sender);
            let keys = io_mailboxes(after.io_waiters@);
            if keys.contains(key) {
                let k = choose|k: int| 0 <= k < keys.len() && keys[k] == key;
                assert(after.io_waiters@[k].mailbox == key);
            }
        } else {
            assert(all[i] == others[i - fresh.len()]);
        }
    }
    assert forall|i: int, j: int|
        0 <= i < j < all.len() && (#[trigger] all[i]).mailbox is Some implies all[i].mailbox != (
    #[trigger] all[j]).mailbox by {
        if j < fresh.len() {
            assert(fresh[i].mailbox != fresh[j].mailbox);
        } else if i >= fresh.len() {
            assert(others[i - fresh.len()].mailbox is Some ==> others[i - fresh.len()].mailbox
                != others[j - fresh.len()].mailbox);
        } else {
            let other = others[j - fresh.len()];
            assert(all[j] == other);
            assert(all[i] == fresh[i]);
            let at = choose|at: int|
                0 <= at < waiters.len() && (#[trigger] waiters[at]).mailbox
                    == fresh[i].mailbox->0;
            assert(io_mailboxes(waiters)[at] == waiters[at].mailbox);
            assert(io_mailboxes(waiters).contains(waiters[at].mailbox));
        }
    }
}

/// A queue of fibers that wait for no I/O, because they are ready or their process
/// has changed state, is apart from all others.
pub proof fn law_queue_without_mailboxes_is_apart<V>(
    core: SelectorCore<V>,
    wakeups: Seq<Wakeup<V>>,
    others: Seq<Wakeup<V>>,
)
    requires
        forall|i: int| 0 <= i < wakeups.len() ==> (#[trigger] wakeups[i]).mailbox is None,
        wakeups_ok(others, core),
    ensures
        wakeups_ok(wakeups + others, core),
{
    let all = wakeups + others;
    assert forall|i: int| 0 <= i < all.len() implies #[trigger] all[i] == if i < wakeups.len() {
        wakeups[i]
    } else {
        others[i - wakeups.len()]
    } by {}
}

/// Queues that are apart are so in any order.
pub proof fn law_order_of_queues_does_not_matter<V>(
    core: SelectorCore<V>,
    one: Seq<Wakeup<V>>,
    other: Seq<Wakeup<V>>,
)
    requires
        wakeups_ok(one + other, core),
    ensures
        wakeups_ok(other + one, core),
{
    let given = one + other;
    let all = other + one;
    assert forall|i: int| 0 <= i < all.len() implies ((#[trigger] all[i]).mailbox matches Some(
        key,
    ) ==> {
        &&& core.io_results@.contains_key(key)
        &&& core.io_results@[key].sender
        &&& !io_mailboxes(core.io_waiters@).contains(key)
    }) by {
        let at = if i < other.len() {
            one.len() + i
        } else {
            i - other.len()
        };
        assert(given[at] == all[i]);
    }
    assert forall|i: int, j: int|
        0 <= i < j < all.len() && (#[trigger] all[i]).mailbox is Some implies all[i].mailbox != (
    #[trigger] all[j]).mailbox by {
        let at_i = if i < other.len() {
            one.len() + i
        } else {
            i - other.len()
        };
        let at_j = if j < other.len() {
            one.len() + j
        } else {
            j - other.len()
        };
        assert(given[at_i] == all[i] && given[at_j] == all[j]);
    }
}

} // verus!
