//! Waiting for child processes.

use vstd::prelude::*;

use crate::mailbox::{delivered, receiver_left, sender_left, Slot};
use crate::selector::{
    lemma_first_index, process_results_without, process_tokens, swap_removed, token_after,
    without_process_waiter, ProcessWaiter, SelectorCore,
};

verus! {

/// A question for the status of a process on its way: what has to be looked up
/// or called next. A status of `None` is nil: the process has not changed
/// state. `E` is an exception raised on the way.
pub enum StatusProbe<V, E> {
    /// Look up the flag that makes a wait return at once.
    LookUpFlag { pid: i64, flags: i32 },
    /// Look up the class of process statuses.
    LookUpClass { pid: i64, wait_flags: i32 },
    /// Ask whether that class can wait for a process itself.
    AskClass { pid: i64, wait_flags: i32 },
    /// Let the class wait; it hands out a status.
    WaitByClass { pid: i64, wait_flags: i32 },
    /// Wait through the process module; it hands out a list, or nil.
    WaitByModule { pid: i64, wait_flags: i32 },
    /// Take the status off the end of that list.
    TakeLast,
    /// The answer is in.
    Done(Result<Option<V>, E>),
}

impl<V: Copy, E> StatusProbe<V, E> {
    /// Starts to ask for the status of a process.
    pub fn process_status_wait(pid: i64, flags: i32) -> (probe: Self)
        ensures
            probe == (StatusProbe::<V, E>::LookUpFlag { pid, flags }),
    {
        StatusProbe::LookUpFlag { pid, flags }
    }

    /// Goes on with the flag that makes a wait return at once, which is added
    /// to the caller's flags.
    pub fn flag_found(self, flag: Result<i32, E>) -> (probe: Self)
        requires
            self is LookUpFlag,
        ensures
            probe == (match flag {
                Ok(flag) => StatusProbe::<V, E>::LookUpClass {
                    pid: self->LookUpFlag_pid,
                    wait_flags: self->flags | flag,
                },
                Err(error) => StatusProbe::<V, E>::Done(Err(error)),
            }),
    {
        match (self, flag) {
            (StatusProbe::LookUpFlag { pid, flags }, Ok(flag)) => StatusProbe::LookUpClass {
                pid,
                wait_flags: flags | flag,
            },
            (other, Ok(_)) => other,
            (_, Err(error)) => StatusProbe::Done(Err(error)),
        }
    }

    /// Goes on once the class of process statuses has been looked up.
    pub fn class_found(self, found: Result<(), E>) -> (probe: Self)
        requires
            self is LookUpClass,
        ensures
            probe == (match found {
                Ok(_) => StatusProbe::<V, E>::AskClass {
                    pid: self->LookUpClass_pid,
                    wait_flags: self->LookUpClass_wait_flags,
                },
                Err(error) => StatusProbe::<V, E>::Done(Err(error)),
            }),
    {
        match (self, found) {
            (StatusProbe::LookUpClass { pid, wait_flags }, Ok(_)) => StatusProbe::AskClass {
                pid,
                wait_flags,
            },
            (other, Ok(_)) => other,
            (_, Err(error)) => StatusProbe::Done(Err(error)),
        }
    }

    /// Chooses how to wait: through the class if it can, else through the
    /// process module.
    pub fn class_answered(self, responds: Result<bool, E>) -> (probe: Self)
        requires
            self is AskClass,
        ensures
            probe == (match responds {
                Ok(true) => StatusProbe::<V, E>::WaitByClass {
                    pid: self->AskClass_pid,
                    wait_flags: self->AskClass_wait_flags,
                },
                Ok(false) => StatusProbe::<V, E>::WaitByModule {
                    pid: self->AskClass_pid,
                    wait_flags: self->AskClass_wait_flags,
                },
                Err(error) => StatusProbe::<V, E>::Done(Err(error)),
            }),
    {
        match (self, responds) {
            (StatusProbe::AskClass { pid, wait_flags }, Ok(true)) => StatusProbe::WaitByClass {
                pid,
                wait_flags,
            },
            (StatusProbe::AskClass { pid, wait_flags }, Ok(false)) => StatusProbe::WaitByModule {
                pid,
                wait_flags,
            },
            (other, Ok(_)) => other,
            (_, Err(error)) => StatusProbe::Done(Err(error)),
        }
    }

    /// Ends with the status that the class, or the end of the list, gave.
    pub fn status_found(self, status: Result<Option<V>, E>) -> (probe: Self)
        requires
            self is WaitByClass || self is TakeLast,
        ensures
            probe == StatusProbe::<V, E>::Done(status),
    {
        StatusProbe::Done(status)
    }

    /// Goes on from a wait through the process module. Without a list there is
    /// no status.
    pub fn module_waited(self, has_list: Result<bool, E>) -> (probe: Self)
        requires
            self is WaitByModule,
        ensures
            probe == (match has_list {
                Ok(true) => StatusProbe::<V, E>::TakeLast,
                Ok(false) => StatusProbe::<V, E>::Done(Ok(None)),
                Err(error) => StatusProbe::<V, E>::Done(Err(error)),
            }),
    {
        match has_list {
            Ok(true) => StatusProbe::TakeLast,
            Ok(false) => StatusProbe::Done(Ok(None)),
            Err(error) => StatusProbe::Done(Err(error)),
        }
    }
}

/// A call that has put its fiber among the process waiters and given way to the
/// event loop.
pub struct ProcessWait {
    pub token: usize,
    pub mailbox: usize,
}

/// How a wait for a process begins.
pub enum ProcessWaitStart<V> {
    /// The process had already changed state; this is its status.
    Known(V),
    /// The fiber is queued.
    Queued(ProcessWait),
}

impl ProcessWait {
    /// The call's end of its mailbox is attached.
    pub open spec fn open_in<V>(self, core: SelectorCore<V>) -> bool {
        core.process_results@.contains_key(self.mailbox)
            && core.process_results@[self.mailbox].receiver
    }

    /// How a selector changes when this call puts `fiber` among the waiters.
    pub open spec fn started<V>(
        self,
        before: SelectorCore<V>,
        after: SelectorCore<V>,
        fiber: V,
        pid: i64,
        flags: i32,
    ) -> bool {
        &&& self.token == before.next_token
        &&& !before.process_results@.contains_key(self.mailbox)
        &&& after.process_waiters@ == before.process_waiters@.push(
            ProcessWaiter { token: self.token, pid, flags, fiber, mailbox: self.mailbox },
        )
        &&& after.process_results@ == before.process_results@.insert(
            self.mailbox,
            Slot { value: None, receiver: true, sender: true },
        )
        &&& after == SelectorCore {
            process_waiters: after.process_waiters,
            process_results: after.process_results,
            next_token: token_after(before.next_token),
            ..before
        }
    }

    /// How a selector changes when this call ends.
    pub open spec fn finished<V>(self, before: SelectorCore<V>, after: SelectorCore<V>) -> bool {
        &&& after.process_waiters@ == without_process_waiter(before.process_waiters@, self.token)
        &&& after.process_results@ == receiver_left(
            process_results_without(before.process_waiters@, before.process_results@, self.token),
            self.mailbox,
        )
        &&& after == SelectorCore {
            process_waiters: after.process_waiters,
            process_results: after.process_results,
            ..before
        }
    }

    /// What the call has to say if no exception was raised: the status in its
    /// mailbox, if there is one.
    pub open spec fn answer<V>(self, core: SelectorCore<V>) -> Option<V> {
        core.process_results@[self.mailbox].value
    }

    /// Queues `fiber` until the process `pid` changes state, unless the first
    /// question for its status has brought one, or an exception.
    pub fn selector_process_wait<V: Copy, E>(
        core: &mut SelectorCore<V>,
        fiber: V,
        pid: i64,
        flags: i32,
        status: Result<Option<V>, E>,
    ) -> (start: Result<ProcessWaitStart<V>, E>)
        requires
            old(core).wf(),
        ensures
            final(core).wf(),
            match (status, start) {
                (Err(error), Err(raised)) => raised == error && *final(core) == *old(core),
                (Ok(Some(known)), Ok(ProcessWaitStart::Known(status))) => status == known
                    && *final(core) == *old(core),
                (Ok(None), Ok(ProcessWaitStart::Queued(wait))) => {
                    &&& wait.open_in(*final(core))
                    &&& wait.started(*old(core), *final(core), fiber, pid, flags)
                },
                _ => false,
            },
    {
        match status {
            Err(error) => Err(error),
            Ok(Some(known)) => Ok(ProcessWaitStart::Known(known)),
            Ok(None) => {
                let mailbox = core.process_results.open(None);
                let token = core.next_token();
                core.process_waiters.push(ProcessWaiter { token, pid, flags, fiber, mailbox });
                Ok(ProcessWaitStart::Queued(ProcessWait { token, mailbox }))
            },
        }
    }

    /// Ends the wait once the event loop has given control back. The fiber
    /// leaves the queue if it is still in it. Without an exception the answer
    /// is the status of the process, or `None` where the fiber was woken for
    /// another reason.
    pub fn finish<V: Copy, E>(
        self,
        core: &mut SelectorCore<V>,
        transfer: Result<Option<V>, E>,
    ) -> (answer: Result<Option<V>, E>)
        requires
            old(core).wf(),
            self.open_in(*old(core)),
        ensures
            final(core).wf(),
            self.finished(*old(core), *final(core)),
            answer == (match transfer {
                Ok(_) => Ok::<Option<V>, E>(self.answer(*old(core))),
                Err(error) => Err::<Option<V>, E>(error),
            }),
    {
        proof {
            lemma_first_index(process_tokens(core.process_waiters@), self.token);
        }
        core.remove_process_waiter(self.token);
        let status = core.process_results.receive(self.mailbox);
        match transfer {
            Ok(_) => Ok(status),
            Err(error) => Err(error),
        }
    }
}

/// A round of questions to the process waiters: how far it has come, and the
/// fibers of those that got an answer.
pub struct ProcessScan<V> {
    pub index: usize,
    pub ready: Vec<V>,
}

impl<V: Copy> ProcessScan<V> {
    /// How a round and its selector change with the answer to a question.
    pub open spec fn stepped(
        before: Self,
        core_before: SelectorCore<V>,
        after: Self,
        core_after: SelectorCore<V>,
        status: Option<V>,
    ) -> bool {
        let waiters = core_before.process_waiters@;
        let waiter = waiters[before.index as int];
        match status {
            None => {
                &&& after.index == before.index + 1
                &&& after.ready@ == before.ready@
                &&& core_after == core_before
            },
            Some(_) => {
                &&& after.index == before.index
                &&& after.ready@ == before.ready@.push(waiter.fiber)
                &&& core_after.process_waiters@ == swap_removed(waiters, before.index as int)
                &&& core_after.process_results@ == sender_left(
                    delivered(core_before.process_results@, waiter.mailbox, status),
                    waiter.mailbox,
                )
                &&& core_after == SelectorCore {
                    process_waiters: core_after.process_waiters,
                    process_results: core_after.process_results,
                    ..core_before
                }
            },
        }
    }

    /// A round that has asked nobody yet.
    pub fn check_process_waiters() -> (scan: Self)
        ensures
            scan.index == 0,
            scan.ready@ == Seq::<V>::empty(),
    {
        ProcessScan { index: 0, ready: Vec::new() }
    }

    /// The process, and the flags, to ask about next; none if the round is over.
    pub fn question(&self, core: &SelectorCore<V>) -> (question: Option<(i64, i32)>)
        ensures
            question == (if self.index < core.process_waiters@.len() {
                let waiter = core.process_waiters@[self.index as int];
                Some((waiter.pid, waiter.flags))
            } else {
                None
            }),
    {
        if self.index < core.process_waiters.len() {
            let waiter = &core.process_waiters[self.index];
            Some((waiter.pid, waiter.flags))
        } else {
            None
        }
    }

    /// Takes the answer to the question. A waiter whose process has a status
    /// leaves the queue, with the status in its mailbox; the last waiter takes
    /// its place and is asked next. An exception ends the round.
    pub fn answered<E>(
        &mut self,
        core: &mut SelectorCore<V>,
        status: Result<Option<V>, E>,
    ) -> (outcome: Result<(), E>)
        requires
            old(core).wf(),
            old(self).index < old(core).process_waiters@.len(),
        ensures
            final(core).wf(),
            outcome == (match status {
                Ok(_) => Ok::<(), E>(()),
                Err(error) => Err::<(), E>(error),
            }),
            status is Err ==> *final(self) == *old(self) && *final(core) == *old(core),
            status matches Ok(status) ==> Self::stepped(
                *old(self),
                *old(core),
                *final(self),
                *final(core),
                status,
            ),
    {
        assert(self.index < core.process_waiters.len());
        match status {
            Ok(Some(value)) => {
                let waiter = core.process_waiters.swap_remove(self.index);
                core.process_results.deliver(waiter.mailbox, Some(value));
                core.process_results.leave(waiter.mailbox);
                self.ready.push(waiter.fiber);
                Ok(())
            },
            Ok(None) => {
                self.index += 1;
                Ok(())
            },
            Err(error) => Err(error),
        }
    }
}

} // verus!
