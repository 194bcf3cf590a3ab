//! The state of a selector: who is ready, who waits for what.

use std::collections::VecDeque;

use vstd::prelude::*;

use crate::event::{BackendKind, Descriptor};
use crate::interrupt::Interrupt;
use crate::mailbox::{lemma_senders_left, sender_left, senders_left, Mailboxes, Slot};
use crate::platform::Platform;

verus! {

/// A fiber that is to run at the next turn of the event loop.
pub struct ReadyEntry<V> {
    pub id: usize,
    pub fiber: V,
}

/// A fiber that waits for an I/O object to become ready.
pub struct IoWaiter<V> {
    pub token: usize,
    pub fd: Descriptor,
    pub io: V,
    pub fiber: V,
    pub events: i32,
    /// Where the waiting call looks for the conditions that came about.
    pub mailbox: usize,
}

/// A fiber that waits for a child process to change state.
pub struct ProcessWaiter<V> {
    pub token: usize,
    pub pid: i64,
    pub flags: i32,
    pub fiber: V,
    /// Where the waiting call looks for the status of the process.
    pub mailbox: usize,
}

/// A length of time, as whole seconds and nanoseconds.
#[derive(Clone, Copy, Debug, PartialEq, Eq, Structural)]
pub struct IdleDuration {
    pub seconds: u64,
    pub nanoseconds: u32,
}

/// The state of a selector. `V` stands for the handles of fibers, I/O objects
/// and process statuses, which are passed through and never looked into.
pub struct SelectorCore<V> {
    pub kind: BackendKind,
    /// The fiber that runs the event loop.
    pub loop_fiber: Option<V>,
    pub ready: VecDeque<ReadyEntry<V>>,
    pub io_waiters: Vec<IoWaiter<V>>,
    pub process_waiters: Vec<ProcessWaiter<V>>,
    /// The conditions delivered to calls that wait for I/O; 0 is none yet.
    pub io_results: Mailboxes<i32>,
    /// The statuses delivered to calls that wait for a process.
    pub process_results: Mailboxes<Option<V>>,
    pub next_token: usize,
    /// How long the last turn of the event loop waited.
    pub idle_duration: IdleDuration,
    pub closed: bool,
    /// Whether a turn of the event loop is waiting right now.
    pub blocked: bool,
    pub interrupt: Option<Interrupt>,
}

/// The identifiers of a ready queue.
pub open spec fn ready_ids<V>(queue: Seq<ReadyEntry<V>>) -> Seq<usize> {
    Seq::new(queue.len(), |i: int| queue[i].id)
}

/// The tokens of a queue of I/O waiters.
pub open spec fn io_tokens<V>(waiters: Seq<IoWaiter<V>>) -> Seq<usize> {
    Seq::new(waiters.len(), |i: int| waiters[i].token)
}

/// The mailboxes of a queue of I/O waiters.
pub open spec fn io_mailboxes<V>(waiters: Seq<IoWaiter<V>>) -> Seq<usize> {
    Seq::new(waiters.len(), |i: int| waiters[i].mailbox)
}

/// The tokens of a queue of process waiters.
pub open spec fn process_tokens<V>(waiters: Seq<ProcessWaiter<V>>) -> Seq<usize> {
    Seq::new(waiters.len(), |i: int| waiters[i].token)
}

/// The mailboxes of a queue of process waiters.
pub open spec fn process_mailboxes<V>(waiters: Seq<ProcessWaiter<V>>) -> Seq<usize> {
    Seq::new(waiters.len(), |i: int| waiters[i].mailbox)
}

/// Where `id` first occurs.
pub open spec fn first_index(ids: Seq<usize>, id: usize) -> Option<int>
    decreases ids.len(),
{
    if ids.len() == 0 {
        None
    } else if ids[0] == id {
        Some(0)
    } else {
        match first_index(ids.drop_first(), id) {
            Some(i) => Some(i + 1),
            None => None,
        }
    }
}

/// `first_index` finds the first occurrence, and finds one if there is any.
pub proof fn lemma_first_index(ids: Seq<usize>, id: usize)
    ensures
        match first_index(ids, id) {
            Some(i) => 0 <= i < ids.len() && ids[i] == id && forall|j: int|
                0 <= j < i ==> ids[j] != id,
            None => !ids.contains(id),
        },
    decreases ids.len(),
{
    if ids.len() > 0 && ids[0] != id {
        let rest = ids.drop_first();
        lemma_first_index(rest, id);
        match first_index(rest, id) {
            Some(i) => {
                assert forall|j: int| 0 <= j < i + 1 implies ids[j] != id by {
                    if j > 0 {
                        assert(ids[j] == rest[j - 1]);
                    }
                }
            },
            None => {
                assert forall|j: int| 0 <= j < ids.len() implies ids[j] != id by {
                    if j > 0 {
                        assert(ids[j] == rest[j - 1]);
                    }
                }
            },
        }
    }
}

/// A sequence without its element at `i`, whose place the last one takes.
pub open spec fn swap_removed<T>(s: Seq<T>, i: int) -> Seq<T> {
    s.update(i, s.last()).drop_last()
}

/// A ready queue without the first entry that has this identifier.
pub open spec fn without_ready<V>(queue: Seq<ReadyEntry<V>>, id: usize) -> Seq<ReadyEntry<V>> {
    match first_index(ready_ids(queue), id) {
        Some(i) => queue.remove(i),
        None => queue,
    }
}

/// The token that follows `token`. Tokens are never 0.
pub open spec fn token_after(token: usize) -> usize {
    if token == usize::MAX {
        1
    } else {
        (token + 1) as usize
    }
}

/// Every queued I/O waiter holds the sending end of a mailbox of its own, and
/// nothing has been delivered to it yet.
pub open spec fn io_queue_ok<V>(
    waiters: Seq<IoWaiter<V>>,
    boxes: Map<usize, Slot<i32>>,
) -> bool {
    &&& forall|i: int|
        0 <= i < waiters.len() ==> {
            &&& boxes.contains_key((#[trigger] waiters[i]).mailbox)
            &&& boxes[waiters[i].mailbox].sender
            &&& boxes[waiters[i].mailbox].value == 0
        }
    &&& forall|i: int, j: int|
        0 <= i < j < waiters.len() ==> (#[trigger] waiters[i]).mailbox != (
        #[trigger] waiters[j]).mailbox
}

/// Every queued process waiter holds the sending end of a mailbox of its own,
/// and nothing has been delivered to it yet.
pub open spec fn process_queue_ok<V>(
    waiters: Seq<ProcessWaiter<V>>,
    boxes: Map<usize, Slot<Option<V>>>,
) -> bool {
    &&& forall|i: int|
        0 <= i < waiters.len() ==> {
            &&& boxes.contains_key((#[trigger] waiters[i]).mailbox)
            &&& boxes[waiters[i].mailbox].sender
            &&& boxes[waiters[i].mailbox].value is None
        }
    &&& forall|i: int, j: int|
        0 <= i < j < waiters.len() ==> (#[trigger] waiters[i]).mailbox != (
        #[trigger] waiters[j]).mailbox
}

/// The queue of I/O waiters without the first that has this token, whose place
/// the last one takes.
pub open spec fn without_io_waiter<V>(waiters: Seq<IoWaiter<V>>, token: usize) -> Seq<
    IoWaiter<V>,
> {
    match first_index(io_tokens(waiters), token) {
        Some(i) => swap_removed(waiters, i),
        None => waiters,
    }
}

/// The mailboxes once the first I/O waiter with this token has left its queue.
pub open spec fn io_results_without<V>(
    waiters: Seq<IoWaiter<V>>,
    boxes: Map<usize, Slot<i32>>,
    token: usize,
) -> Map<usize, Slot<i32>> {
    match first_index(io_tokens(waiters), token) {
        Some(i) => sender_left(boxes, waiters[i].mailbox),
        None => boxes,
    }
}

/// The queue of process waiters without the first that has this token, whose
/// place the last one takes.
pub open spec fn without_process_waiter<V>(waiters: Seq<ProcessWaiter<V>>, token: usize) -> Seq<
    ProcessWaiter<V>,
> {
    match first_index(process_tokens(waiters), token) {
        Some(i) => swap_removed(waiters, i),
        None => waiters,
    }
}

/// The mailboxes once the first process waiter with this token has left its
/// queue.
pub open spec fn process_results_without<V>(
    waiters: Seq<ProcessWaiter<V>>,
    boxes: Map<usize, Slot<Option<V>>>,
    token: usize,
) -> Map<usize, Slot<Option<V>>> {
    match first_index(process_tokens(waiters), token) {
        Some(i) => sender_left(boxes, waiters[i].mailbox),
        None => boxes,
    }
}

/// The handles that the ready queue keeps alive.
pub open spec fn ready_roots<V>(queue: Seq<ReadyEntry<V>>) -> Seq<V>
    decreases queue.len(),
{
    if queue.len() == 0 {
        Seq::empty()
    } else {
        ready_roots(queue.drop_last()).push(queue.last().fiber)
    }
}

/// The handles that the queue of I/O waiters keeps alive.
pub open spec fn io_roots<V>(waiters: Seq<IoWaiter<V>>) -> Seq<V>
    decreases waiters.len(),
{
    if waiters.len() == 0 {
        Seq::empty()
    } else {
        io_roots(waiters.drop_last()).push(waiters.last().io).push(waiters.last().fiber)
    }
}

/// The handles that the queue of process waiters keeps alive.
pub open spec fn process_roots<V>(
    waiters: Seq<ProcessWaiter<V>>,
    boxes: Map<usize, Slot<Option<V>>>,
) -> Seq<V>
    decreases waiters.len(),
{
    if waiters.len() == 0 {
        Seq::empty()
    } else {
        let roots = process_roots(waiters.drop_last(), boxes).push(waiters.last().fiber);
        match boxes[waiters.last().mailbox].value {
            Some(status) => roots.push(status),
            None => roots,
        }
    }
}

/// How a selector changes when it is closed.
pub open spec fn shut_down<V>(before: SelectorCore<V>, after: SelectorCore<V>) -> bool {
    &&& after.closed
    &&& after.loop_fiber is None
    &&& after.ready@ == Seq::<ReadyEntry<V>>::empty()
    &&& after.io_waiters@ == Seq::<IoWaiter<V>>::empty()
    &&& after.process_waiters@ == Seq::<ProcessWaiter<V>>::empty()
    &&& after.io_results@ == senders_left(before.io_results@, io_mailboxes(before.io_waiters@))
    &&& after.process_results@ == senders_left(
        before.process_results@,
        process_mailboxes(before.process_waiters@),
    )
    &&& after.interrupt is None
    &&& after.kind == before.kind
    &&& after.next_token == before.next_token
    &&& after.idle_duration == before.idle_duration
    &&& after.blocked == before.blocked
}

impl<V> SelectorCore<V> {
    pub open spec fn wf(self) -> bool {
        &&& self.next_token >= 1
        &&& io_queue_ok(self.io_waiters@, self.io_results@)
        &&& process_queue_ok(self.process_waiters@, self.process_results@)
    }

    /// The handles that must outlive a collection of garbage.
    pub open spec fn roots(self) -> Seq<V> {
        (match self.loop_fiber {
            Some(fiber) => seq![fiber],
            None => Seq::empty(),
        }) + ready_roots(self.ready@) + io_roots(self.io_waiters@) + process_roots(
            self.process_waiters@,
            self.process_results@,
        )
    }
}

impl<V: Copy> SelectorCore<V> {
    /// A selector without a loop fiber, with nobody ready and nobody waiting.
    pub fn new(kind: BackendKind) -> (core: Self)
        ensures
            core.wf(),
            core.kind == kind,
            core.loop_fiber is None,
            core.ready@ == Seq::<ReadyEntry<V>>::empty(),
            core.io_waiters@ == Seq::<IoWaiter<V>>::empty(),
            core.process_waiters@ == Seq::<ProcessWaiter<V>>::empty(),
            core.io_results@ == Map::<usize, Slot<i32>>::empty(),
            core.process_results@ == Map::<usize, Slot<Option<V>>>::empty(),
            core.next_token == 1,
            core.idle_duration == (IdleDuration { seconds: 0, nanoseconds: 0 }),
            !core.closed,
            !core.blocked,
            core.interrupt is None,
    {
        SelectorCore {
            kind,
            loop_fiber: None,
            ready: VecDeque::new(),
            io_waiters: Vec::new(),
            process_waiters: Vec::new(),
            io_results: Mailboxes::new(),
            process_results: Mailboxes::new(),
            next_token: 1,
            idle_duration: IdleDuration { seconds: 0, nanoseconds: 0 },
            closed: false,
            blocked: false,
            interrupt: None,
        }
    }

    /// Names the fiber that runs the event loop and opens the selector for
    /// use. Tells whether an interrupt has yet to be opened and attached: on
    /// Unix a selector has one.
    pub fn initialize(&mut self, platform: &Platform, loop_fiber: V) -> (open_interrupt: bool)
        ensures
            *final(self) == (SelectorCore {
                loop_fiber: Some(loop_fiber),
                closed: false,
                ..*old(self)
            }),
            open_interrupt == (platform.unix && old(self).interrupt is None),
            old(self).wf() ==> final(self).wf(),
    {
        self.loop_fiber = Some(loop_fiber);
        self.closed = false;
        platform.unix && self.interrupt.is_none()
    }

    /// Takes over an interrupt that was opened for this selector.
    pub fn attach_interrupt(&mut self, interrupt: Interrupt)
        ensures
            *final(self) == (SelectorCore { interrupt: Some(interrupt), ..*old(self) }),
            old(self).wf() ==> final(self).wf(),
    {
        self.interrupt = Some(interrupt);
    }

    /// A token for a new entry: the tokens count up from 1 and start over at 1.
    pub fn next_token(&mut self) -> (token: usize)
        ensures
            token == old(self).next_token,
            *final(self) == (SelectorCore {
                next_token: token_after(old(self).next_token),
                ..*old(self)
            }),
            old(self).wf() ==> final(self).wf(),
    {
        let token = self.next_token;
        self.next_token = if token == usize::MAX {
            1
        } else {
            token + 1
        };
        token
    }

    /// The handles that must outlive a collection of garbage.
    pub fn mark(&self) -> (roots: Vec<V>)
        requires
            self.wf(),
        ensures
            roots@ == self.roots(),
    {
        let mut roots: Vec<V> = Vec::new();
        if let Some(fiber) = self.loop_fiber {
            roots.push(fiber);
        }
        let ghost start = roots@;
        let mut i: usize = 0;
        while i < self.ready.len()
            invariant
                i <= self.ready@.len(),
                roots@ == start + ready_roots(self.ready@.take(i as int)),
            decreases self.ready@.len() - i,
        {
            roots.push(self.ready[i].fiber);
            assert(self.ready@.take(i + 1).drop_last() =~= self.ready@.take(i as int));
            i += 1;
        }
        assert(self.ready@.take(i as int) =~= self.ready@);
        let ghost start = roots@;
        let mut i: usize = 0;
        while i < self.io_waiters.len()
            invariant
                i <= self.io_waiters@.len(),
                roots@ == start + io_roots(self.io_waiters@.take(i as int)),
            decreases self.io_waiters@.len() - i,
        {
            roots.push(self.io_waiters[i].io);
            roots.push(self.io_waiters[i].fiber);
            assert(self.io_waiters@.take(i + 1).drop_last() =~= self.io_waiters@.take(i as int));
            i += 1;
        }
        assert(self.io_waiters@.take(i as int) =~= self.io_waiters@);
        let ghost start = roots@;
        let mut i: usize = 0;
        while i < self.process_waiters.len()
            invariant
                self.wf(),
                i <= self.process_waiters@.len(),
                roots@ == start + process_roots(
                    self.process_waiters@.take(i as int),
                    self.process_results@,
                ),
            decreases self.process_waiters@.len() - i,
        {
            roots.push(self.process_waiters[i].fiber);
            if let Some(status) = self.process_results.peek(self.process_waiters[i].mailbox) {
                roots.push(status);
            }
            assert(self.process_waiters@.take(i + 1).drop_last() =~= self.process_waiters@.take(
                i as int,
            ));
            i += 1;
        }
        assert(self.process_waiters@.take(i as int) =~= self.process_waiters@);
        roots
    }

    /// The fiber that runs the event loop, if there is one.
    pub fn loop_value(&self) -> (fiber: Option<V>)
        ensures
            fiber == self.loop_fiber,
    {
        self.loop_fiber
    }

    /// Puts a fiber at the end of the ready queue.
    pub fn push_ready(&mut self, fiber: V) -> (id: usize)
        ensures
            id == old(self).next_token,
            final(self).ready@ == old(self).ready@.push(ReadyEntry { id, fiber }),
            *final(self) == (SelectorCore {
                ready: final(self).ready,
                next_token: token_after(old(self).next_token),
                ..*old(self)
            }),
            old(self).wf() ==> final(self).wf(),
    {
        let id = self.next_token();
        self.ready.push_back(ReadyEntry { id, fiber });
        id
    }

    /// Takes the first entry with this identifier out of the ready queue, if
    /// there is one.
    pub fn remove_ready(&mut self, id: usize)
        ensures
            final(self).ready@ == without_ready(old(self).ready@, id),
            *final(self) == (SelectorCore { ready: final(self).ready, ..*old(self) }),
            old(self).wf() ==> final(self).wf(),
    {
        let mut i: usize = 0;
        while i < self.ready.len()
            invariant
                *self == *old(self),
                i <= self.ready@.len(),
                forall|j: int| 0 <= j < i ==> (#[trigger] self.ready@[j]).id != id,
            decreases self.ready@.len() - i,
        {
            if self.ready[i].id == id {
                proof {
                    let ids = ready_ids(self.ready@);
                    lemma_first_index(ids, id);
                    assert(ids[i as int] == id);
                    assert(forall|j: int| 0 <= j < i ==> ids[j] == self.ready@[j].id);
                }
                self.ready.remove(i);
                return ;
            }
            i += 1;
        }
        proof {
            lemma_first_index(ready_ids(self.ready@), id);
        }
    }

    /// Takes the first I/O waiter with this token out of its queue, if there is
    /// one. The last waiter takes its place.
    pub fn remove_io_waiter(&mut self, token: usize)
        requires
            old(self).wf(),
        ensures
            final(self).wf(),
            final(self).io_waiters@ == without_io_waiter(old(self).io_waiters@, token),
            final(self).io_results@ == io_results_without(
                old(self).io_waiters@,
                old(self).io_results@,
                token,
            ),
            *final(self) == (SelectorCore {
                io_waiters: final(self).io_waiters,
                io_results: final(self).io_results,
                ..*old(self)
            }),
    {
        let mut i: usize = 0;
        while i < self.io_waiters.len()
            invariant
                *self == *old(self),
                self.wf(),
                i <= self.io_waiters@.len(),
                forall|j: int| 0 <= j < i ==> (#[trigger] self.io_waiters@[j]).token != token,
            decreases self.io_waiters@.len() - i,
        {
            if self.io_waiters[i].token == token {
                proof {
                    let tokens = io_tokens(self.io_waiters@);
                    lemma_first_index(tokens, token);
                    assert(tokens[i as int] == token);
                    assert(forall|j: int| 0 <= j < i ==> tokens[j] == self.io_waiters@[j].token);
                }
                let waiter = self.io_waiters.swap_remove(i);
                self.io_results.leave(waiter.mailbox);
                return ;
            }
            i += 1;
        }
        proof {
            lemma_first_index(io_tokens(self.io_waiters@), token);
        }
    }

    /// Takes the first process waiter with this token out of its queue, if
    /// there is one. The last waiter takes its place.
    pub fn remove_process_waiter(&mut self, token: usize)
        requires
            old(self).wf(),
        ensures
            final(self).wf(),
            final(self).process_waiters@ == without_process_waiter(
                old(self).process_waiters@,
                token,
            ),
            final(self).process_results@ == process_results_without(
                old(self).process_waiters@,
                old(self).process_results@,
                token,
            ),
            *final(self) == (SelectorCore {
                process_waiters: final(self).process_waiters,
                process_results: final(self).process_results,
                ..*old(self)
            }),
    {
        let mut i: usize = 0;
        while i < self.process_waiters.len()
            invariant
                *self == *old(self),
                self.wf(),
                i <= self.process_waiters@.len(),
                forall|j: int| 0 <= j < i ==> (#[trigger] self.process_waiters@[j]).token != token,
            decreases self.process_waiters@.len() - i,
        {
            if self.process_waiters[i].token == token {
                proof {
                    let tokens = process_tokens(self.process_waiters@);
                    lemma_first_index(tokens, token);
                    assert(tokens[i as int] == token);
                    assert(forall|j: int|
                        0 <= j < i ==> tokens[j] == self.process_waiters@[j].token);
                }
                let waiter = self.process_waiters.swap_remove(i);
                self.process_results.leave(waiter.mailbox);
                return ;
            }
            i += 1;
        }
        proof {
            lemma_first_index(process_tokens(self.process_waiters@), token);
        }
    }

    /// Forgets the loop fiber and everybody who is ready or waits. Hands out the
    /// interrupt, if there is one, to be closed.
    pub fn close(&mut self) -> (interrupt: Option<Interrupt>)
        requires
            old(self).wf(),
        ensures
            final(self).wf(),
            interrupt == old(self).interrupt,
            shut_down(*old(self), *final(self)),
    {
        self.closed = true;
        self.loop_fiber = None;
        self.ready.clear();
        let ghost keys = io_mailboxes(self.io_waiters@);
        let mut i: usize = 0;
        while i < self.io_waiters.len()
            invariant
                i <= self.io_waiters@.len(),
                io_queue_ok(self.io_waiters@, old(self).io_results@),
                keys == io_mailboxes(self.io_waiters@),
                self.io_results@ == senders_left(old(self).io_results@, keys.take(i as int)),
                *self == (SelectorCore {
                    closed: true,
                    loop_fiber: None,
                    ready: self.ready,
                    io_results: self.io_results,
                    ..*old(self)
                }),
                self.ready@ == Seq::<ReadyEntry<V>>::empty(),
            decreases self.io_waiters@.len() - i,
        {
            proof {
                lemma_senders_left(old(self).io_results@, keys.take(i as int));
                let key = self.io_waiters@[i as int].mailbox;
                assert(!keys.take(i as int).contains(key));
                assert(senders_left(old(self).io_results@, keys.take(i as int)).contains_key(key));
                assert(keys.take(i + 1).drop_last() =~= keys.take(i as int));
            }
            self.io_results.leave(self.io_waiters[i].mailbox);
            i += 1;
        }
        assert(keys.take(i as int) =~= keys);
        self.io_waiters.clear();
        let ghost keys = process_mailboxes(self.process_waiters@);
        let ghost middle = *self;
        let mut i: usize = 0;
        while i < self.process_waiters.len()
            invariant
                i <= self.process_waiters@.len(),
                process_queue_ok(self.process_waiters@, middle.process_results@),
                keys == process_mailboxes(self.process_waiters@),
                self.process_results@ == senders_left(
                    middle.process_results@,
                    keys.take(i as int),
                ),
                *self == (SelectorCore { process_results: self.process_results, ..middle }),
            decreases self.process_waiters@.len() - i,
        {
            proof {
                lemma_senders_left(middle.process_results@, keys.take(i as int));
                let key = self.process_waiters@[i as int].mailbox;
                assert(!keys.take(i as int).contains(key));
                assert(senders_left(middle.process_results@, keys.take(i as int)).contains_key(
                    key,
                ));
                assert(keys.take(i + 1).drop_last() =~= keys.take(i as int));
            }
            self.process_results.leave(self.process_waiters[i].mailbox);
            i += 1;
        }
        assert(keys.take(i as int) =~= keys);
        self.process_waiters.clear();
        let interrupt = self.interrupt;
        self.interrupt = None;
        interrupt
    }

    /// Whether any fiber is ready to run.
    pub fn ready_p(&self) -> (ready: bool)
        ensures
            ready == (self.ready@.len() > 0),
    {
        self.ready.len() > 0
    }
}

} // verus!
