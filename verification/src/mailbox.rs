//! One-shot mailboxes between a suspended call and the queue that wakes it.
//!
//! A call that suspends its fiber opens a mailbox. It keeps the receiving end;
//! the sending end travels with its entry in a wait queue. Either end may leave
//! first, and a mailbox lives until both have left, so that a queue can always
//! tell whether the call it is about to wake is still there.

use vstd::prelude::*;

verus! {

/// A mailbox: what it holds, and which of its ends are still attached.
pub struct Slot<T> {
    pub value: T,
    pub receiver: bool,
    pub sender: bool,
}

impl<T> Slot<T> {
    /// At least one end is attached.
    pub open spec fn live(self) -> bool {
        self.receiver || self.sender
    }
}

/// A set of mailboxes, each known by its key. A key is used again only once
/// both ends of its mailbox have left.
pub struct Mailboxes<T> {
    slots: Vec<Slot<T>>,
}

/// The mailboxes once the receiving end of `key` has left.
pub open spec fn receiver_left<T>(boxes: Map<usize, Slot<T>>, key: usize) -> Map<usize, Slot<T>> {
    if boxes[key].sender {
        boxes.insert(key, Slot { receiver: false, ..boxes[key] })
    } else {
        boxes.remove(key)
    }
}

/// The mailboxes once the sending end of `key` has left.
pub open spec fn sender_left<T>(boxes: Map<usize, Slot<T>>, key: usize) -> Map<usize, Slot<T>> {
    if boxes[key].receiver {
        boxes.insert(key, Slot { sender: false, ..boxes[key] })
    } else {
        boxes.remove(key)
    }
}

/// The mailboxes once `value` has been put into `key`.
pub open spec fn delivered<T>(boxes: Map<usize, Slot<T>>, key: usize, value: T) -> Map<
    usize,
    Slot<T>,
> {
    boxes.insert(key, Slot { value, ..boxes[key] })
}

/// The mailboxes once the sending ends of all of `keys` have left.
pub open spec fn senders_left<T>(boxes: Map<usize, Slot<T>>, keys: Seq<usize>) -> Map<
    usize,
    Slot<T>,
>
    decreases keys.len(),
{
    if keys.len() == 0 {
        boxes
    } else {
        sender_left(senders_left(boxes, keys.drop_last()), keys.last())
    }
}

pub proof fn lemma_senders_left_push<T>(
    boxes: Map<usize, Slot<T>>,
    keys: Seq<usize>,
    key: usize,
)
    ensures
        senders_left(boxes, keys.push(key)) == sender_left(senders_left(boxes, keys), key),
{
    assert(keys.push(key).drop_last() =~= keys);
}

/// Of mailboxes whose sending ends leave, only the sending ends change: those
/// with a receiving end stay, with what they hold. The others are not touched.
pub proof fn lemma_senders_left<T>(boxes: Map<usize, Slot<T>>, keys: Seq<usize>)
    requires
        keys.no_duplicates(),
        forall|i: int|
            0 <= i < keys.len() ==> boxes.contains_key(#[trigger] keys[i]) && boxes[keys[i]].sender,
    ensures
        forall|key: usize|
            !keys.contains(key) ==> {
                &&& #[trigger] senders_left(boxes, keys).contains_key(key) == boxes.contains_key(key)
                &&& senders_left(boxes, keys)[key] == boxes[key]
            },
        forall|key: usize|
            keys.contains(key) ==> {
                &&& #[trigger] senders_left(boxes, keys).contains_key(key) == boxes[key].receiver
                &&& boxes[key].receiver ==> senders_left(boxes, keys)[key] == (Slot {
                    sender: false,
                    ..boxes[key]
                })
            },
    decreases keys.len(),
{
    if keys.len() > 0 {
        let front = keys.drop_last();
        let last = keys.last();
        assert(!front.contains(last)) by {
            assert(keys[keys.len() - 1] == last);
        }
        assert forall|i: int| 0 <= i < front.len() implies boxes.contains_key(#[trigger] front[i])
            && boxes[front[i]].sender by {
            assert(front[i] == keys[i]);
        }
        lemma_senders_left(boxes, front);
        assert forall|key: usize| keys.contains(key) implies front.contains(key) || key == last by {
            let i = choose|i: int| 0 <= i < keys.len() && keys[i] == key;
            if i < keys.len() - 1 {
                assert(front[i] == key);
            }
        }
        assert forall|key: usize| front.contains(key) implies keys.contains(key) by {
            let i = choose|i: int| 0 <= i < front.len() && front[i] == key;
            assert(keys[i] == key);
        }
        assert(keys.contains(last)) by {
            assert(keys[keys.len() - 1] == last);
        }
        assert(senders_left(boxes, front).contains_key(last));
    }
}

impl<T> View for Mailboxes<T> {
    type V = Map<usize, Slot<T>>;

    closed spec fn view(&self) -> Map<usize, Slot<T>> {
        Map::new(
            |key: usize| key < self.slots@.len() && self.slots@[key as int].live(),
            |key: usize| self.slots@[key as int],
        )
    }
}

impl<T: Copy> Mailboxes<T> {
    pub fn new() -> (boxes: Self)
        ensures
            boxes@ == Map::<usize, Slot<T>>::empty(),
    {
        let boxes = Mailboxes { slots: Vec::new() };
        assert(boxes@ =~= Map::<usize, Slot<T>>::empty());
        boxes
    }

    /// Opens a mailbox that holds `value`, with both ends attached.
    pub fn open(&mut self, value: T) -> (key: usize)
        ensures
            !old(self)@.contains_key(key),
            final(self)@ == old(self)@.insert(key, Slot { value, receiver: true, sender: true }),
    {
        let slot = Slot { value, receiver: true, sender: true };
        let mut key: usize = 0;
        while key < self.slots.len()
            invariant
                key <= self.slots@.len(),
                self.slots@ == old(self).slots@,
                slot == (Slot { value, receiver: true, sender: true }),
            decreases self.slots@.len() - key,
        {
            if !self.slots[key].receiver && !self.slots[key].sender {
                self.slots.set(key, slot);
                assert(self@ =~= old(self)@.insert(key, slot));
                return key;
            }
            key += 1;
        }
        self.slots.push(slot);
        assert(self@ =~= old(self)@.insert(key, slot));
        key
    }

    /// Whether the receiving end of a mailbox is attached.
    pub fn has_receiver(&self, key: usize) -> (attached: bool)
        ensures
            attached == (self@.contains_key(key) && self@[key].receiver),
    {
        key < self.slots.len() && self.slots[key].receiver
    }

    /// Whether the sending end of a mailbox is attached.
    pub fn has_sender(&self, key: usize) -> (attached: bool)
        ensures
            attached == (self@.contains_key(key) && self@[key].sender),
    {
        key < self.slots.len() && self.slots[key].sender
    }

    /// What a mailbox holds.
    pub fn peek(&self, key: usize) -> (value: T)
        requires
            self@.contains_key(key),
        ensures
            value == self@[key].value,
    {
        self.slots[key].value
    }

    /// Puts `value` into a mailbox, in place of what it held.
    pub fn deliver(&mut self, key: usize, value: T)
        requires
            old(self)@.contains_key(key),
        ensures
            final(self)@ == delivered(old(self)@, key, value),
    {
        let slot = Slot {
            value,
            receiver: self.slots[key].receiver,
            sender: self.slots[key].sender,
        };
        self.slots.set(key, slot);
        assert(self@ =~= delivered(old(self)@, key, value));
    }

    /// Takes what a mailbox holds and detaches its receiving end.
    pub fn receive(&mut self, key: usize) -> (value: T)
        requires
            old(self)@.contains_key(key),
            old(self)@[key].receiver,
        ensures
            value == old(self)@[key].value,
            final(self)@ == receiver_left(old(self)@, key),
    {
        let value = self.slots[key].value;
        let slot = Slot { value, receiver: false, sender: self.slots[key].sender };
        self.slots.set(key, slot);
        assert(self@ =~= receiver_left(old(self)@, key));
        value
    }

    /// Detaches the sending end of a mailbox.
    pub fn leave(&mut self, key: usize)
        requires
            old(self)@.contains_key(key),
            old(self)@[key].sender,
        ensures
            final(self)@ == sender_left(old(self)@, key),
    {
        let slot = Slot {
            value: self.slots[key].value,
            receiver: self.slots[key].receiver,
            sender: false,
        };
        self.slots.set(key, slot);
        assert(self@ =~= sender_left(old(self)@, key));
    }
}

} // verus!
