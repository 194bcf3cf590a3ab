//! Mailboxes: what is put in comes out, and nothing else is touched.

use vstd::prelude::*;

use crate::mailbox::Mailboxes;

verus! {

/// An empty set of mailboxes has none.
pub proof fn law_new_mailboxes_are_empty<T: Copy>(boxes: Mailboxes<T>, key: usize)
    requires
        call_ensures(Mailboxes::<T>::new, (), boxes),
    ensures
        !boxes@.contains_key(key),
{
}

/// A mailbox that is opened was not in use, has both ends, and holds what it was
/// opened with. The others are as they were.
pub proof fn law_opened_mailbox_is_fresh<T: Copy>(
    boxes: &mut Mailboxes<T>,
    value: T,
    key: usize,
    other: usize,
    attached: bool,
    sending: bool,
    held: T,
)
    requires
        call_ensures(Mailboxes::<T>::open, (boxes, value), key),
        call_ensures(Mailboxes::<T>::has_receiver, (&*final(boxes), key), attached),
        call_ensures(Mailboxes::<T>::has_sender, (&*final(boxes), key), sending),
        call_ensures(Mailboxes::<T>::peek, (&*final(boxes), key), held),
    ensures
        !old(boxes)@.contains_key(key),
        final(boxes)@.contains_key(key),
        attached,
        sending,
        held == value,
        other != key ==> final(boxes)@.contains_key(other) == old(boxes)@.contains_key(other)
            && (old(boxes)@.contains_key(other) ==> final(boxes)@[other] == old(boxes)@[other]),
{
}

/// What was delivered last is what is found, by whoever looks and by whoever
/// receives. A delivery attaches and detaches nobody and touches no other mailbox.
pub proof fn law_delivery_is_found<T: Copy>(
    boxes: &mut Mailboxes<T>,
    later: &mut Mailboxes<T>,
    key: usize,
    other: usize,
    value: T,
    held: T,
    received: T,
)
    requires
        old(boxes)@.contains_key(key),
        call_ensures(Mailboxes::<T>::deliver, (boxes, key, value), ()),
        *old(later) == *final(boxes),
        call_ensures(Mailboxes::<T>::peek, (&*old(later), key), held),
        call_ensures(Mailboxes::<T>::receive, (later, key), received),
    ensures
        held == value,
        received == value,
        final(boxes)@.contains_key(key),
        final(boxes)@[key].receiver == old(boxes)@[key].receiver,
        final(boxes)@[key].sender == old(boxes)@[key].sender,
        other != key ==> final(boxes)@.contains_key(other) == old(boxes)@.contains_key(other)
            && (old(boxes)@.contains_key(other) ==> final(boxes)@[other] == old(boxes)@[other]),
{
}

/// An end that has left is detached. The other end, if it was attached, still is,
/// and finds what there was; if it was not, the mailbox is free. No other mailbox is
/// touched.
pub proof fn law_either_end_may_leave_first<T: Copy>(
    boxes: &mut Mailboxes<T>,
    others: &mut Mailboxes<T>,
    key: usize,
    other: usize,
    received: T,
)
    requires
        old(boxes)@.contains_key(key),
        old(others)@.contains_key(key),
        call_ensures(Mailboxes::<T>::receive, (boxes, key), received),
        call_ensures(Mailboxes::<T>::leave, (others, key), ()),
    ensures
        received == old(boxes)@[key].value,
        final(boxes)@.contains_key(key) == old(boxes)@[key].sender,
        old(boxes)@[key].sender ==> {
            &&& !final(boxes)@[key].receiver
            &&& final(boxes)@[key].sender
            &&& final(boxes)@[key].value == old(boxes)@[key].value
        },
        final(others)@.contains_key(key) == old(others)@[key].receiver,
        old(others)@[key].receiver ==> {
            &&& final(others)@[key].receiver
            &&& !final(others)@[key].sender
            &&& final(others)@[key].value == old(others)@[key].value
        },
        other != key ==> final(boxes)@.contains_key(other) == old(boxes)@.contains_key(other)
            && (old(boxes)@.contains_key(other) ==> final(boxes)@[other] == old(boxes)@[other]),
        other != key ==> final(others)@.contains_key(other) == old(others)@.contains_key(other)
            && (old(others)@.contains_key(other) ==> final(others)@[other] == old(others)@[other]),
{
}

/// Whether an end is attached, and what a mailbox holds, is what is answered.
pub proof fn law_mailboxes_are_seen_as_they_are<T: Copy>(
    boxes: Mailboxes<T>,
    key: usize,
    receiver: bool,
    sender: bool,
    value: T,
)
    requires
        call_ensures(Mailboxes::<T>::has_receiver, (&boxes, key), receiver),
        call_ensures(Mailboxes::<T>::has_sender, (&boxes, key), sender),
        call_ensures(Mailboxes::<T>::peek, (&boxes, key), value),
    ensures
        receiver <==> boxes@.contains_key(key) && boxes@[key].receiver,
        sender <==> boxes@.contains_key(key) && boxes@[key].sender,
        boxes@.contains_key(key) ==> value == boxes@[key].value,
{
}

} // verus!
