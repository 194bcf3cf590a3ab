//! Waking fibers one after the other.

use vstd::prelude::*;

use crate::mailbox::{
    lemma_senders_left, lemma_senders_left_push, sender_left, senders_left, Slot,
};
use crate::process::ProcessScan;
use crate::selector::{io_mailboxes, io_queue_ok, ReadyEntry, SelectorCore};

verus! {

/// A fiber to wake. If it waits for I/O, this is the sending end of the mailbox
/// of its call.
pub struct Wakeup<V> {
    pub fiber: V,
    pub mailbox: Option<usize>,
}

/// Fibers to wake, how many of them have had their turn, and how many of those
/// control was passed to.
pub struct WakeQueue<V> {
    pub wakeups: Vec<Wakeup<V>>,
    pub next: usize,
    pub woken: usize,
}

/// What has to be asked or done next to wake the fibers of a queue. `E` is an
/// exception raised on the way.
pub enum WakeStep<V, E> {
    /// Is the fiber alive?
    Probe(V),
    /// Transfer control to the fiber.
    Transfer(V),
    /// Everybody had their turn, and this many fibers were woken; or an
    /// exception ended the matter.
    Done(Result<usize, E>),
}

/// The mailboxes of fibers to wake.
pub open spec fn wake_keys<V>(wakeups: Seq<Wakeup<V>>) -> Seq<usize>
    decreases wakeups.len(),
{
    if wakeups.len() == 0 {
        Seq::empty()
    } else {
        let keys = wake_keys(wakeups.drop_last());
        match wakeups.last().mailbox {
            Some(key) => keys.push(key),
            None => keys,
        }
    }
}

/// The call that a wake-up was meant for has gone.
pub open spec fn outdated<V>(wakeup: Wakeup<V>, boxes: Map<usize, Slot<i32>>) -> bool {
    wakeup.mailbox matches Some(key) && !boxes[key].receiver
}

/// The first wake-up from `from` on whose call has not gone.
pub open spec fn next_current<V>(
    wakeups: Seq<Wakeup<V>>,
    boxes: Map<usize, Slot<i32>>,
    from: int,
) -> int
    decreases wakeups.len() - from,
{
    if from >= wakeups.len() {
        wakeups.len() as int
    } else if outdated(wakeups[from], boxes) {
        next_current(wakeups, boxes, from + 1)
    } else {
        from
    }
}

/// Each of these fibers comes with the sending end of a mailbox of its own,
/// which no queued waiter has, or with none.
pub open spec fn wakeups_ok<V>(wakeups: Seq<Wakeup<V>>, core: SelectorCore<V>) -> bool {
    &&& forall|i: int|
        0 <= i < wakeups.len() ==> ((#[trigger] wakeups[i]).mailbox matches Some(key) ==> {
            &&& core.io_results@.contains_key(key)
            &&& core.io_results@[key].sender
            &&& !io_mailboxes(core.io_waiters@).contains(key)
        })
    &&& forall|i: int, j: int|
        0 <= i < j < wakeups.len() ==> ((#[trigger] wakeups[i]).mailbox is Some ==> wakeups[i].mailbox
            != (#[trigger] wakeups[j]).mailbox)
}

pub proof fn lemma_wake_keys<V>(wakeups: Seq<Wakeup<V>>, core: SelectorCore<V>)
    requires
        wakeups_ok(wakeups, core),
    ensures
        wake_keys(wakeups).no_duplicates(),
        forall|i: int|
            0 <= i < wake_keys(wakeups).len() ==> {
                &&& core.io_results@.contains_key(#[trigger] wake_keys(wakeups)[i])
                &&& core.io_results@[wake_keys(wakeups)[i]].sender
                &&& !io_mailboxes(core.io_waiters@).contains(wake_keys(wakeups)[i])
            },
        forall|key: usize|
            wake_keys(wakeups).contains(key) ==> exists|i: int|
                0 <= i < wakeups.len() && (#[trigger] wakeups[i]).mailbox == Some(key),
    decreases wakeups.len(),
{
    if wakeups.len() > 0 {
        let front = wakeups.drop_last();
        assert(wakeups_ok(front, core)) by {
            assert(forall|i: int| 0 <= i < front.len() ==> front[i] == wakeups[i]);
        }
        lemma_wake_keys(front, core);
        assert forall|key: usize| wake_keys(front).contains(key) implies exists|i: int|
            0 <= i < wakeups.len() - 1 && (#[trigger] wakeups[i]).mailbox == Some(key) by {
            let i = choose|i: int| 0 <= i < front.len() && (#[trigger] front[i]).mailbox == Some(key);
            assert(wakeups[i].mailbox == Some(key));
        }
        assert(wakeups[wakeups.len() - 1] == wakeups.last());
        match wakeups.last().mailbox {
            Some(last) => {
                assert(!wake_keys(front).contains(last));
                assert forall|key: usize| wake_keys(wakeups).contains(key) implies exists|i: int|
                    0 <= i < wakeups.len() && (#[trigger] wakeups[i]).mailbox == Some(key) by {
                    if key != last {
                        let i = choose|i: int|
                            0 <= i < wake_keys(wakeups).len() && wake_keys(wakeups)[i] == key;
                        assert(wake_keys(front)[i] == key);
                        assert(wake_keys(front).contains(key));
                    }
                }
            },
            None => {},
        }
    }
}

/// The state of a selector once these wake-ups have been used or dropped.
pub open spec fn wakeups_spent<V>(
    before: SelectorCore<V>,
    after: SelectorCore<V>,
    spent: Seq<Wakeup<V>>,
) -> bool {
    &&& after.io_results@ == senders_left(before.io_results@, wake_keys(spent))
    &&& after == SelectorCore { io_results: after.io_results, ..before }
}

/// Spending wake-ups keeps a selector well-formed, and keeps the wake-ups that
/// are left in order.
proof fn lemma_wakeups_spent<V>(
    before: SelectorCore<V>,
    after: SelectorCore<V>,
    wakeups: Seq<Wakeup<V>>,
    from: int,
    to: int,
)
    requires
        before.wf(),
        0 <= from <= to <= wakeups.len(),
        wakeups_ok(wakeups.skip(from), before),
        wakeups_spent(before, after, wakeups.subrange(from, to)),
    ensures
        after.wf(),
        wakeups_ok(wakeups.skip(to), after),
        forall|i: int|
            to <= i < wakeups.len() ==> outdated(#[trigger] wakeups[i], after.io_results@)
                == outdated(wakeups[i], before.io_results@),
{
    let all = wakeups.skip(from);
    let spent = wakeups.subrange(from, to);
    let rest = wakeups.skip(to);
    let boxes = before.io_results@;
    let left = after.io_results@;
    assert(forall|i: int| 0 <= i < spent.len() ==> spent[i] == all[i]);
    assert(forall|i: int| 0 <= i < rest.len() ==> rest[i] == all[i + (to - from)]);
    assert(wakeups_ok(spent, before));
    lemma_wake_keys(spent, before);
    let keys = wake_keys(spent);
    lemma_senders_left(boxes, keys);
    assert forall|i: int| 0 <= i < before.io_waiters@.len() implies !keys.contains(
        (#[trigger] before.io_waiters@[i]).mailbox,
    ) by {
        assert(io_mailboxes(before.io_waiters@)[i] == before.io_waiters@[i].mailbox);
        assert(io_mailboxes(before.io_waiters@).contains(before.io_waiters@[i].mailbox));
    }
    assert(io_queue_ok(after.io_waiters@, left)) by {
        assert forall|i: int| 0 <= i < before.io_waiters@.len() implies {
            &&& left.contains_key((#[trigger] before.io_waiters@[i]).mailbox)
            &&& left[before.io_waiters@[i].mailbox] == boxes[before.io_waiters@[i].mailbox]
        } by {
            let key = before.io_waiters@[i].mailbox;
            assert(!keys.contains(key));
            assert(senders_left(boxes, keys).contains_key(key));
        }
    }
    assert forall|i: int| 0 <= i < rest.len() implies ((#[trigger] rest[i]).mailbox matches Some(
        key,
    ) ==> left.contains_key(key) && left[key] == boxes[key]) by {
        if let Some(key) = rest[i].mailbox {
            if keys.contains(key) {
                let j = choose|j: int|
                    0 <= j < spent.len() && (#[trigger] spent[j]).mailbox == Some(key);
                assert(all[j].mailbox == Some(key));
                assert(all[i + (to - from)].mailbox == Some(key));
            }
            assert(all[i + (to - from)].mailbox == Some(key));
            assert(senders_left(boxes, keys).contains_key(key));
        }
    }
    assert forall|i: int| to <= i < wakeups.len() implies outdated(
        #[trigger] wakeups[i],
        after.io_results@,
    ) == outdated(wakeups[i], before.io_results@) by {
        assert(rest[i - to] == wakeups[i]);
    }
}

/// One more wake-up spent is one more sending end that leaves.
proof fn lemma_spend_next<V>(
    boxes: Map<usize, Slot<i32>>,
    wakeups: Seq<Wakeup<V>>,
    from: int,
    at: int,
)
    requires
        0 <= from <= at < wakeups.len(),
    ensures
        senders_left(boxes, wake_keys(wakeups.subrange(from, at + 1))) == (match wakeups[at].mailbox {
            Some(key) => sender_left(
                senders_left(boxes, wake_keys(wakeups.subrange(from, at))),
                key,
            ),
            None => senders_left(boxes, wake_keys(wakeups.subrange(from, at))),
        }),
{
    assert(wakeups.subrange(from, at + 1).drop_last() =~= wakeups.subrange(from, at));
    if let Some(key) = wakeups[at].mailbox {
        lemma_senders_left_push(boxes, wake_keys(wakeups.subrange(from, at)), key);
    }
}

impl<V> WakeQueue<V> {
    /// The queue belongs to this selector, and has counted no more fibers than
    /// have had their turn.
    pub open spec fn wf(self, core: SelectorCore<V>) -> bool {
        &&& self.woken <= self.next <= self.wakeups@.len()
        &&& wakeups_ok(self.wakeups@.skip(self.next as int), core)
    }

    /// What follows when a turn is over: the next fiber whose call has not gone
    /// is looked at, and the wake-ups up to it are used.
    pub open spec fn advanced<E>(
        before: Self,
        core_before: SelectorCore<V>,
        after: Self,
        core_after: SelectorCore<V>,
        step: WakeStep<V, E>,
    ) -> bool {
        let found = next_current(before.wakeups@, core_before.io_results@, before.next as int);
        &&& after.wakeups == before.wakeups
        &&& after.woken == before.woken
        &&& if found < before.wakeups@.len() {
            &&& after.next == found + 1
            &&& step == WakeStep::<V, E>::Probe(before.wakeups@[found].fiber)
        } else {
            &&& after.next == before.wakeups@.len()
            &&& step == WakeStep::<V, E>::Done(Ok(before.woken))
        }
        &&& wakeups_spent(
            core_before,
            core_after,
            before.wakeups@.subrange(before.next as int, after.next as int),
        )
    }

    /// What follows when an exception is raised: the rest of the fibers are not
    /// woken.
    pub open spec fn given_up(
        before: Self,
        core_before: SelectorCore<V>,
        after: Self,
        core_after: SelectorCore<V>,
    ) -> bool {
        &&& after == WakeQueue { next: after.next, ..before }
        &&& after.next == before.wakeups@.len()
        &&& wakeups_spent(core_before, core_after, before.wakeups@.skip(before.next as int))
    }
}

impl<V: Copy> WakeQueue<V> {
    /// Takes every fiber that is ready at this moment. Those that become ready
    /// while these are woken have to wait for the next turn.
    pub fn flush_ready(core: &mut SelectorCore<V>) -> (queue: Self)
        requires
            old(core).wf(),
        ensures
            final(core).wf(),
            queue.wf(*final(core)),
            queue.next == 0,
            queue.woken == 0,
            queue.wakeups@ == old(core).ready@.map_values(
                |entry: ReadyEntry<V>| Wakeup { fiber: entry.fiber, mailbox: None },
            ),
            final(core).ready@ == Seq::<ReadyEntry<V>>::empty(),
            *final(core) == (SelectorCore { ready: final(core).ready, ..*old(core) }),
    {
        let mut wakeups: Vec<Wakeup<V>> = Vec::new();
        let ghost whole = core.ready@;
        let count = core.ready.len();
        for taken in 0..count
            invariant
                count == whole.len(),
                whole == old(core).ready@,
                core.ready@ == whole.skip(taken as int),
                wakeups@.len() == taken,
                forall|i: int|
                    0 <= i < taken ==> #[trigger] wakeups@[i] == (Wakeup {
                        fiber: whole[i].fiber,
                        mailbox: None,
                    }),
                *core == (SelectorCore { ready: core.ready, ..*old(core) }),
        {
            if let Some(entry) = core.ready.pop_front() {
                wakeups.push(Wakeup { fiber: entry.fiber, mailbox: None });
            }
        }
        WakeQueue { wakeups, next: 0, woken: 0 }
    }

    /// The fibers of the process waiters that got an answer.
    pub fn process_waiters(scan: ProcessScan<V>) -> (queue: Self)
        ensures
            queue.next == 0,
            queue.woken == 0,
            queue.wakeups@ == scan.ready@.map_values(
                |fiber: V| Wakeup { fiber, mailbox: None },
            ),
            forall|core: SelectorCore<V>| queue.wf(core),
    {
        let mut wakeups: Vec<Wakeup<V>> = Vec::new();
        for i in 0..scan.ready.len()
            invariant
                wakeups@.len() == i,
                forall|j: int|
                    0 <= j < i ==> #[trigger] wakeups@[j] == (Wakeup {
                        fiber: scan.ready@[j],
                        mailbox: None,
                    }),
        {
            wakeups.push(Wakeup { fiber: scan.ready[i], mailbox: None });
        }
        WakeQueue { wakeups, next: 0, woken: 0 }
    }

    /// Finds the next fiber to wake; also how the queue is started.
    pub fn advance<E>(&mut self, core: &mut SelectorCore<V>) -> (step: WakeStep<V, E>)
        requires
            old(core).wf(),
            old(self).wf(*old(core)),
        ensures
            final(core).wf(),
            final(self).wf(*final(core)),
            Self::advanced(*old(self), *old(core), *final(self), *final(core), step),
    {
        let ghost start = *self;
        let ghost core_start = *core;
        assert(self.wakeups@.subrange(self.next as int, self.next as int) =~= Seq::empty());
        while self.next < self.wakeups.len()
            invariant
                core_start.wf(),
                start.wf(core_start),
                start.next <= self.next <= self.wakeups@.len(),
                *self == (WakeQueue { next: self.next, ..start }),
                wakeups_spent(
                    core_start,
                    *core,
                    start.wakeups@.subrange(start.next as int, self.next as int),
                ),
                next_current(start.wakeups@, core_start.io_results@, start.next as int)
                    == next_current(start.wakeups@, core_start.io_results@, self.next as int),
                core_start == *old(core),
                start == *old(self),
            decreases self.wakeups@.len() - self.next,
        {
            proof {
                lemma_wakeups_spent(
                    core_start,
                    *core,
                    start.wakeups@,
                    start.next as int,
                    self.next as int,
                );
                assert(start.wakeups@.skip(self.next as int)[0] == start.wakeups@[self.next as int]);
                lemma_spend_next(
                    core_start.io_results@,
                    start.wakeups@,
                    start.next as int,
                    self.next as int,
                );
            }
            let fiber = self.wakeups[self.next].fiber;
            let mailbox = self.wakeups[self.next].mailbox;
            self.next += 1;
            match mailbox {
                Some(key) => {
                    let gone = !core.io_results.has_receiver(key);
                    core.io_results.leave(key);
                    if !gone {
                        proof {
                            lemma_wakeups_spent(
                                core_start,
                                *core,
                                start.wakeups@,
                                start.next as int,
                                self.next as int,
                            );
                        }
                        return WakeStep::Probe(fiber);
                    }
                },
                None => {
                    proof {
                        lemma_wakeups_spent(
                            core_start,
                            *core,
                            start.wakeups@,
                            start.next as int,
                            self.next as int,
                        );
                    }
                    return WakeStep::Probe(fiber);
                },
            }
        }
        proof {
            lemma_wakeups_spent(
                core_start,
                *core,
                start.wakeups@,
                start.next as int,
                self.next as int,
            );
        }
        WakeStep::Done(Ok(self.woken))
    }

    /// Drops the rest of the queue.
    fn give_up(&mut self, core: &mut SelectorCore<V>)
        requires
            old(core).wf(),
            old(self).wf(*old(core)),
        ensures
            final(core).wf(),
            final(self).wf(*final(core)),
            Self::given_up(*old(self), *old(core), *final(self), *final(core)),
    {
        let ghost start = *self;
        let ghost core_start = *core;
        assert(self.wakeups@.subrange(self.next as int, self.next as int) =~= Seq::empty());
        while self.next < self.wakeups.len()
            invariant
                core_start.wf(),
                start.wf(core_start),
                start.next <= self.next <= self.wakeups@.len(),
                *self == (WakeQueue { next: self.next, ..start }),
                wakeups_spent(
                    core_start,
                    *core,
                    start.wakeups@.subrange(start.next as int, self.next as int),
                ),
                core_start == *old(core),
                start == *old(self),
            decreases self.wakeups@.len() - self.next,
        {
            proof {
                lemma_wakeups_spent(
                    core_start,
                    *core,
                    start.wakeups@,
                    start.next as int,
                    self.next as int,
                );
                assert(start.wakeups@.skip(self.next as int)[0] == start.wakeups@[self.next as int]);
                lemma_spend_next(
                    core_start.io_results@,
                    start.wakeups@,
                    start.next as int,
                    self.next as int,
                );
            }
            if let Some(key) = self.wakeups[self.next].mailbox {
                core.io_results.leave(key);
            }
            self.next += 1;
        }
        proof {
            assert(start.wakeups@.subrange(start.next as int, self.next as int)
                =~= start.wakeups@.skip(start.next as int));
            lemma_wakeups_spent(
                core_start,
                *core,
                start.wakeups@,
                start.next as int,
                self.next as int,
            );
        }
    }

    /// Goes on from the question whether `fiber` is alive. A fiber that has
    /// ended is passed over.
    pub fn probed<E>(
        &mut self,
        core: &mut SelectorCore<V>,
        fiber: V,
        alive: Result<bool, E>,
    ) -> (step: WakeStep<V, E>)
        requires
            old(core).wf(),
            old(self).wf(*old(core)),
        ensures
            final(core).wf(),
            final(self).wf(*final(core)),
            match alive {
                Ok(true) => {
                    &&& step == WakeStep::<V, E>::Transfer(fiber)
                    &&& *final(self) == *old(self)
                    &&& *final(core) == *old(core)
                },
                Ok(false) => Self::advanced(
                    *old(self),
                    *old(core),
                    *final(self),
                    *final(core),
                    step,
                ),
                Err(error) => {
                    &&& step == WakeStep::<V, E>::Done(Err(error))
                    &&& Self::given_up(*old(self), *old(core), *final(self), *final(core))
                },
            },
    {
        match alive {
            Ok(true) => WakeStep::Transfer(fiber),
            Ok(false) => self.advance(core),
            Err(error) => {
                self.give_up(core);
                WakeStep::Done(Err(error))
            },
        }
    }

    /// Goes on once control is back from a fiber, which counts as woken.
    pub fn transferred<E>(
        &mut self,
        core: &mut SelectorCore<V>,
        outcome: Result<Option<V>, E>,
    ) -> (step: WakeStep<V, E>)
        requires
            old(core).wf(),
            old(self).wf(*old(core)),
            old(self).woken < old(self).next,
        ensures
            final(core).wf(),
            final(self).wf(*final(core)),
            match outcome {
                Ok(_) => Self::advanced(
                    WakeQueue { woken: (old(self).woken + 1) as usize, ..*old(self) },
                    *old(core),
                    *final(self),
                    *final(core),
                    step,
                ),
                Err(error) => {
                    &&& step == WakeStep::<V, E>::Done(Err(error))
                    &&& Self::given_up(*old(self), *old(core), *final(self), *final(core))
                },
            },
    {
        match outcome {
            Ok(_) => {
                self.woken += 1;
                self.advance(core)
            },
            Err(error) => {
                self.give_up(core);
                WakeStep::Done(Err(error))
            },
        }
    }
}

} // verus!
