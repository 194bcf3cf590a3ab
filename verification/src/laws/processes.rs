//! Waiting for processes: everybody is asked once, and is told what was found.

use vstd::multiset::Multiset;
use vstd::prelude::*;

use crate::mailbox::{lemma_senders_left, senders_left};
use crate::process::{ProcessScan, ProcessWait};
use crate::selector::{
    first_index, lemma_first_index, process_mailboxes, process_tokens, shut_down, swap_removed,
    ProcessWaiter, SelectorCore,
};

verus! {

/// A whole or unfinished round of questions: the states that it goes through,
/// and the answers that lead from each to the next.
pub open spec fn is_round<V: Copy>(
    scans: Seq<ProcessScan<V>>,
    cores: Seq<SelectorCore<V>>,
    answers: Seq<Option<V>>,
) -> bool {
    &&& scans.len() == answers.len() + 1
    &&& cores.len() == answers.len() + 1
    &&& scans[0].index == 0
    &&& scans[0].ready@.len() == 0
    &&& forall|i: int| 0 <= i < answers.len() ==> #[trigger] goes_on(scans, cores, answers, i)
}

/// The question `i` of a round gets its answer.
pub open spec fn goes_on<V: Copy>(
    scans: Seq<ProcessScan<V>>,
    cores: Seq<SelectorCore<V>>,
    answers: Seq<Option<V>>,
    i: int,
) -> bool {
    &&& scans[i].index < cores[i].process_waiters@.len()
    &&& ProcessScan::stepped(scans[i], cores[i], scans[i + 1], cores[i + 1], answers[i])
}

/// The waiters that a round has asked about, in their order.
pub open spec fn asked<V: Copy>(
    scans: Seq<ProcessScan<V>>,
    cores: Seq<SelectorCore<V>>,
    count: int,
) -> Seq<ProcessWaiter<V>>
    decreases count,
{
    if count <= 0 {
        Seq::empty()
    } else {
        asked(scans, cores, count - 1).push(
            cores[count - 1].process_waiters@[scans[count - 1].index as int],
        )
    }
}

/// Of the waiters that a round has asked about, those that got a status.
pub open spec fn served<V: Copy>(
    scans: Seq<ProcessScan<V>>,
    cores: Seq<SelectorCore<V>>,
    answers: Seq<Option<V>>,
    count: int,
) -> Seq<ProcessWaiter<V>>
    decreases count,
{
    if count <= 0 {
        Seq::empty()
    } else {
        let earlier = served(scans, cores, answers, count - 1);
        if answers[count - 1] is Some {
            earlier.push(cores[count - 1].process_waiters@[scans[count - 1].index as int])
        } else {
            earlier
        }
    }
}

/// A round asks as many questions as there were waiters, and asks about each
/// waiter once, although those that get a status change places with others. At
/// any time those that got one, and no others, have left the queue, and their
/// fibers are to be woken in the order of the answers.
pub proof fn law_round_asks_everybody_once<V: Copy>(
    scans: Seq<ProcessScan<V>>,
    cores: Seq<SelectorCore<V>>,
    answers: Seq<Option<V>>,
)
    requires
        is_round(scans, cores, answers),
    ensures
        answers.len() <= cores[0].process_waiters@.len(),
        ({
            let served = served(scans, cores, answers, answers.len() as int);
            &&& scans.last().ready@ == served.map_values(|waiter: ProcessWaiter<V>| waiter.fiber)
            &&& cores.last().process_waiters@.to_multiset().add(served.to_multiset())
                == cores[0].process_waiters@.to_multiset()
        }),
        scans.last().index >= cores.last().process_waiters@.len() ==> {
            &&& answers.len() == cores[0].process_waiters@.len()
            &&& asked(scans, cores, answers.len() as int).to_multiset()
                == cores[0].process_waiters@.to_multiset()
        },
{
    let count = answers.len() as int;
    lemma_round(scans, cores, answers, count);
    let left = cores[count].process_waiters@.skip(scans[count].index as int);
    if scans[count].index >= cores[count].process_waiters@.len() {
        assert(left =~= Seq::<ProcessWaiter<V>>::empty());
        broadcast use vstd::seq_lib::group_to_multiset_ensures;

        assert(asked(scans, cores, count).to_multiset().add(left.to_multiset())
            =~= asked(scans, cores, count).to_multiset());
    }
}

proof fn lemma_round<V: Copy>(
    scans: Seq<ProcessScan<V>>,
    cores: Seq<SelectorCore<V>>,
    answers: Seq<Option<V>>,
    count: int,
)
    requires
        is_round(scans, cores, answers),
        0 <= count <= answers.len(),
    ensures
        ({
            let waiters = cores[0].process_waiters@;
            let now = cores[count].process_waiters@;
            let index = scans[count].index as int;
            &&& index <= now.len()
            &&& now.len() - index == waiters.len() - count
            &&& scans[count].ready@ == served(scans, cores, answers, count).map_values(
                |waiter: ProcessWaiter<V>| waiter.fiber,
            )
            &&& now.to_multiset().add(served(scans, cores, answers, count).to_multiset())
                == waiters.to_multiset()
            &&& asked(scans, cores, count).to_multiset().add(now.skip(index).to_multiset())
                == waiters.to_multiset()
        }),
    decreases count,
{
    let waiters = cores[0].process_waiters@;
    if count == 0 {
        assert(waiters.skip(0) =~= waiters);
        lemma_nothing_added(waiters);
        assert(scans[0].ready@ =~= served(scans, cores, answers, 0).map_values(
            |waiter: ProcessWaiter<V>| waiter.fiber,
        ));
    } else {
        let last = count - 1;
        lemma_round(scans, cores, answers, last);
        let now = cores[last].process_waiters@;
        let index = scans[last].index as int;
        let later = cores[count].process_waiters@;
        let later_index = scans[count].index as int;
        assert(goes_on(scans, cores, answers, last));
        let left = now.skip(index);
        lemma_swap_removed_rest(now, index);
        let before = asked(scans, cores, last);
        if answers[last] is None {
            assert(later.skip(later_index) =~= left.remove(0));
        }
        lemma_one_moves_over(before, now[index], left.to_multiset());
        let earlier = served(scans, cores, answers, last);
        let fiber_of = |waiter: ProcessWaiter<V>| waiter.fiber;
        if answers[last] is Some {
            assert(earlier.push(now[index]).map_values(fiber_of) =~= earlier.map_values(
                fiber_of,
            ).push(now[index].fiber));
            lemma_one_moves_over(earlier, now[index], now.to_multiset());
        }
    }
}

proof fn lemma_nothing_added<T>(s: Seq<T>)
    ensures
        Seq::<T>::empty().to_multiset().add(s.to_multiset()) == s.to_multiset(),
        s.to_multiset().add(Seq::<T>::empty().to_multiset()) == s.to_multiset(),
{
    broadcast use vstd::seq_lib::group_to_multiset_ensures;

    assert(Seq::<T>::empty().to_multiset().add(s.to_multiset()) =~= s.to_multiset());
    assert(s.to_multiset().add(Seq::<T>::empty().to_multiset()) =~= s.to_multiset());
}

/// What moves from one side to the other leaves the whole as it was.
proof fn lemma_one_moves_over<T>(s: Seq<T>, x: T, rest: Multiset<T>)
    requires
        rest.count(x) > 0,
    ensures
        s.push(x).to_multiset().add(rest.remove(x)) == s.to_multiset().add(rest),
        rest.remove(x).add(s.push(x).to_multiset()) == rest.add(s.to_multiset()),
{
    broadcast use vstd::seq_lib::group_to_multiset_ensures;

    assert(s.push(x).to_multiset() =~= s.to_multiset().insert(x));
    assert(s.push(x).to_multiset().add(rest.remove(x)) =~= s.to_multiset().add(rest));
    assert(rest.remove(x).add(s.push(x).to_multiset()) =~= rest.add(s.to_multiset()));
}

/// Swapping an element out takes just that element from those that follow.
proof fn lemma_swap_removed_rest<T>(s: Seq<T>, i: int)
    requires
        0 <= i < s.len(),
    ensures
        swap_removed(s, i).skip(i).to_multiset() == s.skip(i).to_multiset().remove(s[i]),
        s.skip(i).remove(0).to_multiset() == s.skip(i).to_multiset().remove(s[i]),
        s.skip(i).to_multiset().count(s[i]) > 0,
        s.to_multiset().count(s[i]) > 0,
        swap_removed(s, i).to_multiset() == s.to_multiset().remove(s[i]),
{
    broadcast use vstd::seq_lib::group_to_multiset_ensures;

    let left = s.skip(i);
    assert(left[0] == s[i]);
    assert(left.contains(s[i]));
    assert(left.remove(0).to_multiset() =~= left.to_multiset().remove(left[0]));
    if left.len() == 1 {
        assert(swap_removed(s, i).skip(i) =~= left.remove(0));
    } else {
        let middle = left.subrange(1, left.len() - 1);
        let last = seq![left.last()];
        assert(left.remove(0) =~= middle + last);
        assert(swap_removed(s, i).skip(i) =~= last + middle);
        vstd::seq_lib::lemma_multiset_commutative(middle, last);
        vstd::seq_lib::lemma_multiset_commutative(last, middle);
        assert((middle + last).to_multiset() =~= (last + middle).to_multiset());
    }
    let head = s.take(i);
    let rest = swap_removed(s, i).skip(i);
    assert(s =~= head + left);
    assert(swap_removed(s, i) =~= head + rest);
    vstd::seq_lib::lemma_multiset_commutative(head, left);
    vstd::seq_lib::lemma_multiset_commutative(head, rest);
    assert(s.contains(s[i]));
    assert((head + rest).to_multiset() =~= (head + left).to_multiset().remove(s[i]));
}

/// A call that waits for a process is told the status that a round finds; its
/// fiber is then the last of those to be woken, and it has left the queue.
pub proof fn law_wait_is_told_the_status<V: Copy>(
    scan_before: ProcessScan<V>,
    before: SelectorCore<V>,
    scan_after: ProcessScan<V>,
    after: SelectorCore<V>,
    wait: ProcessWait,
    status: V,
)
    requires
        before.wf(),
        scan_before.index < before.process_waiters@.len(),
        before.process_waiters@[scan_before.index as int].mailbox == wait.mailbox,
        wait.open_in(before),
        ProcessScan::stepped(scan_before, before, scan_after, after, Some(status)),
    ensures
        wait.open_in(after),
        wait.answer(after) == Some(status),
        scan_after.ready@.last() == before.process_waiters@[scan_before.index as int].fiber,
        !process_mailboxes(after.process_waiters@).contains(wait.mailbox),
{
    let waiters = before.process_waiters@;
    let at = scan_before.index as int;
    let keys = process_mailboxes(after.process_waiters@);
    if keys.contains(wait.mailbox) {
        let j = choose|j: int| 0 <= j < keys.len() && keys[j] == wait.mailbox;
        let k = if j == at {
            waiters.len() - 1
        } else {
            j
        };
        assert(waiters[k].mailbox == wait.mailbox);
        if k < at {
            assert(waiters[k].mailbox != waiters[at].mailbox);
        } else {
            assert(waiters[at].mailbox != waiters[k].mailbox);
        }
    }
}

/// A wait that ends before anything happened leaves the selector as it was, but
/// for the tokens, and is told of nothing. (Where the token is still in the
/// queue from an earlier round, that older waiter leaves instead.)
pub proof fn law_wait_for_nothing_leaves_no_trace<V>(
    before: SelectorCore<V>,
    queued: SelectorCore<V>,
    after: SelectorCore<V>,
    wait: ProcessWait,
    fiber: V,
    pid: i64,
    flags: i32,
)
    requires
        before.wf(),
        !process_tokens(before.process_waiters@).contains(wait.token),
        wait.started(before, queued, fiber, pid, flags),
        wait.finished(queued, after),
    ensures
        wait.answer(queued) is None,
        after.process_waiters@ == before.process_waiters@,
        after.process_results@ == before.process_results@,
        after.ready == before.ready,
        after.io_waiters == before.io_waiters,
        after.io_results == before.io_results,
{
    let tokens = process_tokens(queued.process_waiters@);
    let last = before.process_waiters@.len() as int;
    lemma_first_index(tokens, wait.token);
    assert(tokens[last] == wait.token);
    match first_index(tokens, wait.token) {
        Some(i) => {
            if i < last {
                assert(process_tokens(before.process_waiters@)[i] == wait.token);
            }
            assert(swap_removed(queued.process_waiters@, last) =~= before.process_waiters@);
            assert(queued.process_waiters@[last].mailbox == wait.mailbox);
        },
        None => {},
    }
    assert(after.process_results@ =~= before.process_results@);
}

/// Every call that waits for a process, but for those that `ended`, still waits
/// for its answer, and a status that has been sent to it is still there.
pub open spec fn waits_survive<V>(
    before: SelectorCore<V>,
    after: SelectorCore<V>,
    ended: Set<usize>,
) -> bool {
    forall|key: usize|
        !ended.contains(key) && before.process_results@.contains_key(key)
            && before.process_results@[key].receiver ==> {
            &&& #[trigger] after.process_results@.contains_key(key)
            &&& after.process_results@[key].receiver
            &&& before.process_results@[key].value is Some ==> after.process_results@[key].value
                == before.process_results@[key].value
        }
}

/// Every call that waits for a process, but for those that `ended`, still waits
/// for its answer, and finds just what it would have found before: nothing has
/// been sent to it, taken away or replaced.
pub open spec fn answers_stay<V>(
    before: SelectorCore<V>,
    after: SelectorCore<V>,
    ended: Set<usize>,
) -> bool {
    forall|key: usize|
        !ended.contains(key) && before.process_results@.contains_key(key)
            && before.process_results@[key].receiver ==> {
            &&& #[trigger] after.process_results@.contains_key(key)
            &&& after.process_results@[key].receiver
            &&& after.process_results@[key].value == before.process_results@[key].value
        }
}

/// A new wait disturbs no other.
pub proof fn law_start_disturbs_nobody<V>(
    before: SelectorCore<V>,
    after: SelectorCore<V>,
    wait: ProcessWait,
    fiber: V,
    pid: i64,
    flags: i32,
)
    requires
        wait.started(before, after, fiber, pid, flags),
    ensures
        answers_stay(before, after, Set::empty()),
{
}

/// A wait that ends disturbs no other.
pub proof fn law_finish_disturbs_nobody<V>(
    before: SelectorCore<V>,
    after: SelectorCore<V>,
    wait: ProcessWait,
)
    requires
        before.wf(),
        wait.open_in(before),
        wait.finished(before, after),
    ensures
        answers_stay(before, after, set![wait.mailbox]),
{
    lemma_first_index(process_tokens(before.process_waiters@), wait.token);
}

/// An answer disturbs nobody: no call stops waiting, and no status is lost or
/// replaced.
pub proof fn law_answer_disturbs_nobody<V: Copy>(
    scan_before: ProcessScan<V>,
    before: SelectorCore<V>,
    scan_after: ProcessScan<V>,
    after: SelectorCore<V>,
    status: Option<V>,
)
    requires
        before.wf(),
        scan_before.index < before.process_waiters@.len(),
        ProcessScan::stepped(scan_before, before, scan_after, after, status),
    ensures
        waits_survive(before, after, Set::empty()),
{
    let waiter = before.process_waiters@[scan_before.index as int];
    assert(before.process_results@.contains_key(waiter.mailbox));
}

/// Closing a selector ends no call by itself: each still finds the status that
/// has been sent to it, and nothing where nothing has.
pub proof fn law_close_disturbs_nobody<V>(before: SelectorCore<V>, after: SelectorCore<V>)
    requires
        before.wf(),
        shut_down(before, after),
    ensures
        answers_stay(before, after, Set::empty()),
        forall|wait: ProcessWait|
            wait.open_in(before) ==> #[trigger] wait.open_in(after) && wait.answer(after)
                == wait.answer(before),
{
    let waiters = before.process_waiters@;
    let keys = process_mailboxes(waiters);
    let boxes = before.process_results@;
    assert(keys.no_duplicates());
    assert forall|i: int| 0 <= i < keys.len() implies boxes.contains_key(#[trigger] keys[i])
        && boxes[keys[i]].sender by {
        assert(keys[i] == waiters[i].mailbox);
    }
    lemma_senders_left(boxes, keys);
    assert forall|key: usize| boxes.contains_key(key) && boxes[key].receiver implies {
        &&& #[trigger] after.process_results@.contains_key(key)
        &&& after.process_results@[key].receiver
        &&& after.process_results@[key].value == boxes[key].value
    } by {
        assert(senders_left(boxes, keys).contains_key(key));
    }
}

} // verus!
