//! Moving bytes: where they go, how many there are, and when it ends.

use vstd::prelude::*;

use crate::buffer::{BufferIoOperation, BufferOutcome, BufferStep, BufferTransfer};
use crate::event::{READABLE, WRITABLE};
use crate::platform::Platform;

verus! {

/// A call on a descriptor: the system answered `result`, with `errno` where that
/// is negative.
pub struct Answer {
    pub result: isize,
    pub errno: i32,
}

/// How many bytes an answer says were moved.
pub open spec fn moved_by(answer: Answer) -> int {
    if answer.result > 0 {
        answer.result as int
    } else {
        0
    }
}

/// How many bytes the answers say were moved.
pub open spec fn moved_in_all(answers: Seq<Answer>) -> int
    decreases answers.len(),
{
    if answers.len() == 0 {
        0
    } else {
        moved_in_all(answers.drop_last()) + moved_by(answers.last())
    }
}

/// The transfer goes on after this answer, with another call or a wait.
pub open spec fn goes_on(transfer: BufferTransfer, platform: Platform, answer: Answer) -> bool {
    !(transfer.step_after::<()>(platform, answer.result, answer.errno) is Done)
}

/// A transfer as the answers come in: the states that it goes through. After
/// each answer but the last it goes on, and no call moves more than it was given
/// room for.
pub open spec fn is_transfer(
    states: Seq<BufferTransfer>,
    platform: Platform,
    answers: Seq<Answer>,
) -> bool {
    &&& states.len() == answers.len() + 1
    &&& states[0].wf()
    &&& states[0].total == 0
    &&& forall|i: int|
        0 <= i < answers.len() ==> {
            &&& answers[i].result <= states[i].size - states[i].offset
            &&& states[i].operation.can_advance(moved_by(answers[i]))
            &&& #[trigger] states[i + 1] == states[i].after_call(answers[i].result)
            &&& i < answers.len() - 1 ==> goes_on(states[i], platform, answers[i])
        }
}

/// At every point of a transfer the bytes moved are those that the answers say,
/// they lie one after the other in the buffer from the given offset on, within
/// its bounds, and the position in the file has moved as far. While the transfer
/// goes on, the bytes that are missing are those asked for less those moved.
pub proof fn law_transfer_adds_up(
    states: Seq<BufferTransfer>,
    platform: Platform,
    answers: Seq<Answer>,
)
    requires
        is_transfer(states, platform, answers),
    ensures
        ({
            let start = states[0];
            let end = states.last();
            let moved = moved_in_all(answers);
            &&& 0 <= moved <= start.size - start.offset
            &&& end.total == moved
            &&& end.offset == start.offset + moved
            &&& end.size == start.size
            &&& end.operation == start.operation.advanced(moved)
            &&& end.wf()
            &&& answers.len() > 0 ==> states[answers.len() - 1].length == start.length
                - moved_in_all(answers.drop_last())
        }),
{
    lemma_transfer(states, platform, answers, answers.len() as int);
    assert(answers.take(answers.len() as int) =~= answers);
    if answers.len() > 0 {
        lemma_transfer(states, platform, answers, answers.len() - 1);
        assert(answers.take(answers.len() - 1) =~= answers.drop_last());
    }
}

proof fn lemma_transfer(
    states: Seq<BufferTransfer>,
    platform: Platform,
    answers: Seq<Answer>,
    count: int,
)
    requires
        is_transfer(states, platform, answers),
        0 <= count <= answers.len(),
    ensures
        ({
            let start = states[0];
            let now = states[count];
            let moved = moved_in_all(answers.take(count));
            &&& 0 <= moved <= start.size - start.offset
            &&& now.total == moved
            &&& now.offset == start.offset + moved
            &&& now.size == start.size
            &&& start.operation.can_advance(moved)
            &&& now.operation == start.operation.advanced(moved)
            &&& count < answers.len() || count == 0 ==> now.length == start.length - moved
        }),
    decreases count,
{
    if count > 0 {
        let last = count - 1;
        lemma_transfer(states, platform, answers, last);
        assert(answers.take(count).drop_last() =~= answers.take(last));
        assert(states[last + 1] == states[count]);
    }
}

/// A transfer that ends with a number of bytes has moved at least as many as
/// were asked for, or the system moved no more, or the buffer was used to its
/// end; and the number is that of the bytes moved.
pub proof fn law_transfer_ends_for_a_reason(
    states: Seq<BufferTransfer>,
    platform: Platform,
    answers: Seq<Answer>,
)
    requires
        is_transfer(states, platform, answers),
        answers.len() > 0,
        answers.last().result >= 0,
        !goes_on(states[answers.len() - 1], platform, answers.last()),
    ensures
        states[answers.len() - 1].step_after::<()>(
            platform,
            answers.last().result,
            answers.last().errno,
        ) == BufferStep::<()>::Done(Ok(BufferOutcome::Transferred(states.last().total))),
        states.last().total >= states[0].length || answers.last().result == 0
            || states.last().offset == states[0].size,
        states.last().total == moved_in_all(answers),
{
    law_transfer_adds_up(states, platform, answers);
    let last = answers.len() - 1;
    assert(states[last + 1] == states.last());
}

/// A transfer ends as soon as enough was moved: once the bytes that the answers say
/// were moved are as many as were asked for, there is no further call and no wait, and
/// the transfer ends with the number of the bytes moved.
pub proof fn law_transfer_ends_once_enough_was_moved(
    states: Seq<BufferTransfer>,
    platform: Platform,
    answers: Seq<Answer>,
)
    requires
        is_transfer(states, platform, answers),
        answers.len() > 0,
        answers.last().result > 0,
        moved_in_all(answers) >= states[0].length,
    ensures
        states[answers.len() - 1].step_after::<()>(
            platform,
            answers.last().result,
            answers.last().errno,
        ) == BufferStep::<()>::Done(
            Ok(BufferOutcome::Transferred(moved_in_all(answers) as usize)),
        ),
{
    law_transfer_adds_up(states, platform, answers);
    lemma_transfer(states, platform, answers, answers.len() - 1);
    assert(answers.take(answers.len() - 1) =~= answers.drop_last());
    assert(states[answers.len() - 1 + 1] == states.last());
}

/// A transfer that would have had to wait, with bytes missing, waits for the condition
/// of its direction: to read until its descriptor is readable, to write until it is
/// writable, with or without a position in the file.
pub proof fn law_transfer_waits_for_its_direction(
    transfer: BufferTransfer,
    platform: Platform,
    answer: Answer,
)
    requires
        transfer.length > 0,
        answer.result < 0,
        answer.errno == platform.eagain || answer.errno == platform.ewouldblock,
    ensures
        ({
            let step = transfer.step_after::<()>(platform, answer.result, answer.errno);
            match transfer.operation {
                BufferIoOperation::Read => step == (BufferStep::<()>::Wait { events: READABLE }),
                BufferIoOperation::PRead(_) => step == (BufferStep::<()>::Wait {
                    events: READABLE,
                }),
                BufferIoOperation::Write => step == (BufferStep::<()>::Wait { events: WRITABLE }),
                BufferIoOperation::PWrite(_) => step == (BufferStep::<()>::Wait {
                    events: WRITABLE,
                }),
            }
        }),
{
}

/// A transfer that the system refuses ends with the error code, unless bytes are
/// missing and the call can be made again.
pub proof fn law_refusal_is_reported(
    transfer: BufferTransfer,
    platform: Platform,
    answer: Answer,
)
    requires
        answer.result < 0,
    ensures
        goes_on(transfer, platform, answer) <==> transfer.length > 0 && (answer.errno
            == platform.eagain || answer.errno == platform.ewouldblock),
        !goes_on(transfer, platform, answer) ==> transfer.step_after::<()>(
            platform,
            answer.result,
            answer.errno,
        ) == BufferStep::<()>::Done(Ok(BufferOutcome::Refused((-answer.errno) as i64))),
{
}

/// A transfer that need not move any bytes makes a single call, and does not
/// wait for it.
pub proof fn law_transfer_of_nothing_makes_one_call(
    transfer: BufferTransfer,
    platform: Platform,
    answer: Answer,
)
    requires
        transfer.length == 0,
    ensures
        !goes_on(transfer, platform, answer),
{
}

/// Every call is made on bytes that lie within the buffer, from where the last
/// one left off to the end.
pub proof fn law_calls_stay_in_the_buffer<E>(transfer: BufferTransfer)
    requires
        transfer.wf(),
    ensures
        match transfer.next_call::<E>() {
            BufferStep::Call { offset, maximum } => {
                &&& offset == transfer.offset
                &&& maximum > 0
                &&& offset + maximum == transfer.size
            },
            BufferStep::Wait { .. } => false,
            BufferStep::Done(outcome) => {
                &&& outcome == Ok::<BufferOutcome, E>(BufferOutcome::Transferred(transfer.total))
                &&& transfer.offset == transfer.size
            },
        },
{
}

} // verus!
