//! The ready queue and its tokens.

use vstd::prelude::*;

use crate::selector::{
    first_index, io_roots, lemma_first_index, process_roots, ready_ids, ready_roots, token_after,
    without_ready, IoWaiter, ProcessWaiter, ReadyEntry, SelectorCore,
};
use crate::mailbox::Slot;
use crate::transfer::suspended;

verus! {

/// The token that comes `count` tokens after `token`.
pub open spec fn token_later(token: usize, count: nat) -> usize
    decreases count,
{
    if count == 0 {
        token
    } else {
        token_after(token_later(token, (count - 1) as nat))
    }
}

/// A token comes round again only after all the others: between two entries
/// with one token there have been as many as there are numbers but 0.
pub proof fn law_tokens_come_round_last(token: usize, count: nat)
    requires
        token >= 1,
        0 < count < usize::MAX,
    ensures
        token_later(token, count) >= 1,
        token_later(token, count) != token,
{
    lemma_token_later(token, count);
}

proof fn lemma_token_later(token: usize, count: nat)
    requires
        token >= 1,
        count < usize::MAX,
    ensures
        token_later(token, count) == if token + count <= usize::MAX {
            token + count
        } else {
            token + count - usize::MAX
        },
    decreases count,
{
    if count > 0 {
        lemma_token_later(token, (count - 1) as nat);
    }
}

/// A fiber that suspends itself and runs again leaves the ready queue as it was,
/// unless other fibers have changed it meanwhile. (Where its token is still in
/// the queue from an earlier round, that older entry leaves instead.)
pub proof fn law_suspension_leaves_no_trace<V>(
    before: SelectorCore<V>,
    during: SelectorCore<V>,
    after: SelectorCore<V>,
    current: V,
)
    requires
        !ready_ids(before.ready@).contains(before.next_token),
        suspended(before, during, current),
        after.ready@ == without_ready(during.ready@, before.next_token),
        after == (SelectorCore { ready: after.ready, ..during }),
    ensures
        after.ready@ == before.ready@,
        after == (SelectorCore {
            ready: after.ready,
            next_token: token_after(before.next_token),
            ..before
        }),
{
    let ids = ready_ids(during.ready@);
    let last = before.ready@.len() as int;
    lemma_first_index(ids, before.next_token);
    assert(ids[last] == before.next_token);
    match first_index(ids, before.next_token) {
        Some(i) => {
            if i < last {
                assert(ready_ids(before.ready@)[i] == before.next_token);
            }
            assert(during.ready@.remove(last) =~= before.ready@);
        },
        None => {},
    }
}

/// A fiber that the event loop has already taken out of the ready queue takes
/// nobody else out when it runs again.
pub proof fn law_suspension_ends_after_flush<V>(queue: Seq<ReadyEntry<V>>, id: usize)
    requires
        !ready_ids(queue).contains(id),
    ensures
        without_ready(queue, id) == queue,
{
    lemma_first_index(ready_ids(queue), id);
}

/// A collection of garbage spares everything that the selector holds: the loop
/// fiber, the fibers that are ready, and the fibers and I/O objects of those
/// that wait.
pub proof fn law_everything_held_is_marked<V>(core: SelectorCore<V>)
    ensures
        core.loop_fiber matches Some(fiber) ==> core.roots().contains(fiber),
        forall|i: int|
            0 <= i < core.ready@.len() ==> core.roots().contains((#[trigger] core.ready@[i]).fiber),
        forall|i: int|
            0 <= i < core.io_waiters@.len() ==> {
                &&& core.roots().contains((#[trigger] core.io_waiters@[i]).io)
                &&& core.roots().contains(core.io_waiters@[i].fiber)
            },
        forall|i: int|
            0 <= i < core.process_waiters@.len() ==> core.roots().contains(
                (#[trigger] core.process_waiters@[i]).fiber,
            ),
{
    let first = match core.loop_fiber {
        Some(fiber) => seq![fiber],
        None => Seq::empty(),
    };
    let second = ready_roots(core.ready@);
    let third = io_roots(core.io_waiters@);
    let fourth = process_roots(core.process_waiters@, core.process_results@);
    let roots = first + second + third + fourth;
    assert forall|v: V| first.contains(v) implies roots.contains(v) by {
        let i = choose|i: int| 0 <= i < first.len() && first[i] == v;
        assert(roots[i] == v);
    }
    assert forall|v: V| second.contains(v) implies roots.contains(v) by {
        let i = choose|i: int| 0 <= i < second.len() && second[i] == v;
        assert(roots[first.len() + i] == v);
    }
    assert forall|v: V| third.contains(v) implies roots.contains(v) by {
        let i = choose|i: int| 0 <= i < third.len() && third[i] == v;
        assert(roots[first.len() + second.len() + i] == v);
    }
    assert forall|v: V| fourth.contains(v) implies roots.contains(v) by {
        let i = choose|i: int| 0 <= i < fourth.len() && fourth[i] == v;
        assert(roots[first.len() + second.len() + third.len() + i] == v);
    }
    if let Some(fiber) = core.loop_fiber {
        assert(first[0] == fiber);
        assert(first.contains(fiber));
    }
    assert forall|i: int| 0 <= i < core.ready@.len() implies roots.contains(
        (#[trigger] core.ready@[i]).fiber,
    ) by {
        lemma_ready_root(core.ready@, i);
    }
    assert forall|i: int| 0 <= i < core.io_waiters@.len() implies {
        &&& roots.contains((#[trigger] core.io_waiters@[i]).io)
        &&& roots.contains(core.io_waiters@[i].fiber)
    } by {
        lemma_io_root(core.io_waiters@, i);
    }
    assert forall|i: int| 0 <= i < core.process_waiters@.len() implies roots.contains(
        (#[trigger] core.process_waiters@[i]).fiber,
    ) by {
        lemma_process_root(core.process_waiters@, core.process_results@, i);
    }
}

proof fn lemma_push_contains<V>(s: Seq<V>, last: V)
    ensures
        s.push(last).contains(last),
        forall|v: V| s.contains(v) ==> s.push(last).contains(v),
{
    assert(s.push(last)[s.len() as int] == last);
    assert forall|v: V| s.contains(v) implies s.push(last).contains(v) by {
        let i = choose|i: int| 0 <= i < s.len() && s[i] == v;
        assert(s.push(last)[i] == v);
    }
}

proof fn lemma_ready_root<V>(queue: Seq<ReadyEntry<V>>, i: int)
    requires
        0 <= i < queue.len(),
    ensures
        ready_roots(queue).contains(queue[i].fiber),
    decreases queue.len(),
{
    let front = queue.drop_last();
    lemma_push_contains(ready_roots(front), queue.last().fiber);
    if i < queue.len() - 1 {
        lemma_ready_root(front, i);
        assert(front[i] == queue[i]);
    }
}

proof fn lemma_io_root<V>(waiters: Seq<IoWaiter<V>>, i: int)
    requires
        0 <= i < waiters.len(),
    ensures
        io_roots(waiters).contains(waiters[i].io),
        io_roots(waiters).contains(waiters[i].fiber),
    decreases waiters.len(),
{
    let front = waiters.drop_last();
    let last = waiters.last();
    lemma_push_contains(io_roots(front), last.io);
    lemma_push_contains(io_roots(front).push(last.io), last.fiber);
    if i < waiters.len() - 1 {
        lemma_io_root(front, i);
        assert(front[i] == waiters[i]);
    }
}

proof fn lemma_process_root<V>(
    waiters: Seq<ProcessWaiter<V>>,
    boxes: Map<usize, Slot<Option<V>>>,
    i: int,
)
    requires
        0 <= i < waiters.len(),
    ensures
        process_roots(waiters, boxes).contains(waiters[i].fiber),
    decreases waiters.len(),
{
    let front = waiters.drop_last();
    let last = waiters.last();
    let roots = process_roots(front, boxes).push(last.fiber);
    lemma_push_contains(process_roots(front, boxes), last.fiber);
    if let Some(status) = boxes[last.mailbox].value {
        lemma_push_contains(roots, status);
    }
    if i < waiters.len() - 1 {
        lemma_process_root(front, boxes, i);
        assert(front[i] == waiters[i]);
    }
}

} // verus!
