//! What stays as it is when something else changes.

use vstd::prelude::*;

use crate::mailbox::Slot;
use crate::selector::SelectorCore;

verus! {

/// The waits for I/O and their mailboxes are as they were.
pub open spec fn same_io<V>(before: SelectorCore<V>, after: SelectorCore<V>) -> bool {
    after.io_waiters@ == before.io_waiters@ && after.io_results@ == before.io_results@
}

/// The waits for processes and their mailboxes are as they were.
pub open spec fn same_processes<V>(before: SelectorCore<V>, after: SelectorCore<V>) -> bool {
    after.process_waiters@ == before.process_waiters@ && after.process_results@
        == before.process_results@
}

/// The ready queue and the next token are as they were.
pub open spec fn same_ready<V>(before: SelectorCore<V>, after: SelectorCore<V>) -> bool {
    after.ready@ == before.ready@ && after.next_token == before.next_token
}

/// Everything but the queues, the mailboxes and the tokens is as it was.
pub open spec fn same_rest<V>(before: SelectorCore<V>, after: SelectorCore<V>) -> bool {
    &&& after.kind == before.kind
    &&& after.loop_fiber == before.loop_fiber
    &&& after.idle_duration == before.idle_duration
    &&& after.closed == before.closed
    &&& after.blocked == before.blocked
    &&& after.interrupt == before.interrupt
}

/// A mailbox is as it was.
pub open spec fn same_box<T>(
    before: Map<usize, Slot<T>>,
    after: Map<usize, Slot<T>>,
    key: usize,
) -> bool {
    &&& after.contains_key(key) == before.contains_key(key)
    &&& before.contains_key(key) ==> after[key] == before[key]
}

/// A mailbox has lost its sending end: it keeps its value for the receiving end,
/// and is gone if there is none.
pub open spec fn sender_gone<T>(
    before: Map<usize, Slot<T>>,
    after: Map<usize, Slot<T>>,
    key: usize,
) -> bool {
    &&& after.contains_key(key) == before[key].receiver
    &&& before[key].receiver ==> after[key].receiver && !after[key].sender && after[key].value
        == before[key].value
}

/// A mailbox has lost its receiving end: it keeps its value for the sending end,
/// and is gone if there is none.
pub open spec fn receiver_gone<T>(
    before: Map<usize, Slot<T>>,
    after: Map<usize, Slot<T>>,
    key: usize,
) -> bool {
    &&& after.contains_key(key) == before[key].sender
    &&& before[key].sender ==> after[key].sender && !after[key].receiver && after[key].value
        == before[key].value
}

/// The element at `i` has left the sequence, and the last one has taken its place.
pub open spec fn swapped_out<T>(before: Seq<T>, after: Seq<T>, i: int) -> bool {
    &&& after.len() == before.len() - 1
    &&& forall|j: int|
        0 <= j < after.len() ==> #[trigger] after[j] == if j == i {
            before[before.len() - 1]
        } else {
            before[j]
        }
}

} // verus!
