//! The interrupt: signalling and clearing it, on a pipe that behaves as pipes do.

use vstd::prelude::*;

use crate::interrupt::Interrupt;
use crate::laws::transferring::Answer;
use crate::platform::Platform;

verus! {

/// A pipe whose ends do not block: how many bytes it holds, and how many it can
/// hold.
pub struct Pipe {
    pub held: nat,
    pub capacity: nat,
}

/// The call would have had to wait.
pub open spec fn would_wait(platform: Platform, answer: Answer) -> bool {
    answer.result == -1 && (answer.errno == platform.eagain || answer.errno
        == platform.ewouldblock)
}

/// How a pipe answers when a byte is written to it: it takes the byte if there
/// is room.
pub open spec fn written(platform: Platform, before: Pipe, answer: Answer, after: Pipe) -> bool {
    if before.held < before.capacity {
        answer.result == 1 && after == (Pipe { held: before.held + 1, ..before })
    } else {
        would_wait(platform, answer) && after == before
    }
}

/// How a pipe answers when it is read from: it hands out some of the bytes that
/// it holds if there are any.
pub open spec fn read(platform: Platform, before: Pipe, answer: Answer, after: Pipe) -> bool {
    if before.held > 0 {
        0 < answer.result <= before.held && after == (Pipe {
            held: (before.held - answer.result) as nat,
            ..before
        })
    } else {
        would_wait(platform, answer) && after == before
    }
}

/// An interrupt is signalled again and again: the states of its pipe, and the
/// answers to the writes.
pub open spec fn is_signalling(
    platform: Platform,
    pipes: Seq<Pipe>,
    answers: Seq<Answer>,
) -> bool {
    &&& pipes.len() == answers.len() + 1
    &&& forall|i: int|
        0 <= i < answers.len() ==> written(platform, pipes[i], #[trigger] answers[i], pipes[i + 1])
}

/// An interrupt is being cleared: the states of its pipe, and the answers to the
/// reads. After each but the last there may be more to read.
pub open spec fn is_clearing(platform: Platform, pipes: Seq<Pipe>, answers: Seq<Answer>) -> bool {
    &&& pipes.len() == answers.len() + 1
    &&& answers.len() > 0
    &&& forall|i: int|
        0 <= i < answers.len() ==> {
            &&& read(platform, pipes[i], #[trigger] answers[i], pipes[i + 1])
            &&& i < answers.len() - 1 ==> answers[i].result > 0
        }
}

/// However often an interrupt is signalled, each time succeeds, although the pipe
/// fills up; and once it has been signalled there is something to read.
pub proof fn law_every_signal_succeeds(platform: Platform, pipes: Seq<Pipe>, answers: Seq<Answer>)
    requires
        is_signalling(platform, pipes, answers),
        pipes[0].held <= pipes[0].capacity,
        pipes[0].capacity > 0,
    ensures
        forall|i: int|
            0 <= i < answers.len() ==> !Interrupt::call_failed(
                platform,
                (#[trigger] answers[i]).result,
                answers[i].errno,
            ),
        pipes.last().capacity == pipes[0].capacity,
        pipes.last().held == if pipes[0].held + answers.len() <= pipes[0].capacity {
            pipes[0].held + answers.len()
        } else {
            pipes[0].capacity
        },
        answers.len() > 0 ==> pipes.last().held > 0,
    decreases answers.len(),
{
    if answers.len() > 0 {
        let last = answers.len() - 1;
        let front = answers.drop_last();
        let earlier = pipes.drop_last();
        assert forall|i: int| 0 <= i < front.len() implies written(
            platform,
            earlier[i],
            #[trigger] front[i],
            earlier[i + 1],
        ) by {
            assert(front[i] == answers[i]);
        }
        law_every_signal_succeeds(platform, earlier, front);
        assert(written(platform, pipes[last], answers[last], pipes[last + 1]));
        assert forall|i: int| 0 <= i < answers.len() implies !Interrupt::call_failed(
            platform,
            (#[trigger] answers[i]).result,
            answers[i].errno,
        ) by {
            if i < last {
                assert(front[i] == answers[i]);
            }
        }
    }
}

/// Clearing an interrupt comes to an end, never fails, and leaves nothing to
/// read. An interrupt with nothing to read is clear after a single read, which
/// changes nothing.
pub proof fn law_clearing_leaves_nothing(
    platform: Platform,
    pipes: Seq<Pipe>,
    answers: Seq<Answer>,
)
    requires
        is_clearing(platform, pipes, answers),
    ensures
        answers.len() <= pipes[0].held + 1,
        forall|i: int|
            0 <= i < answers.len() ==> !Interrupt::call_failed(
                platform,
                (#[trigger] answers[i]).result,
                answers[i].errno,
            ),
        answers.last().result <= 0 ==> pipes.last() == (Pipe { held: 0, ..pipes[0] }),
        pipes[0].held == 0 ==> {
            &&& answers.len() == 1
            &&& answers.last().result <= 0
            &&& pipes.last() == pipes[0]
        },
{
    lemma_clearing(platform, pipes, answers, answers.len() - 1);
    let last = answers.len() - 1;
    assert(answers[last] == answers.last());
    assert(read(platform, pipes[last], answers[last], pipes[last + 1]));
    if pipes[0].held == 0 && answers.len() > 1 {
        assert(answers[0].result > 0);
        assert(read(platform, pipes[0], answers[0], pipes[0int + 1]));
    }
}

proof fn lemma_clearing(platform: Platform, pipes: Seq<Pipe>, answers: Seq<Answer>, count: int)
    requires
        is_clearing(platform, pipes, answers),
        0 <= count < answers.len(),
    ensures
        pipes[count].held + count <= pipes[0].held,
        pipes[count].capacity == pipes[0].capacity,
    decreases count,
{
    if count > 0 {
        let last = count - 1;
        lemma_clearing(platform, pipes, answers, last);
        assert(read(platform, pipes[last], answers[last], pipes[last + 1]));
    }
}

/// An interrupt that was signalled any number of times and then cleared has
/// nothing to read until it is signalled again: whoever clears it once more finds
/// it clear at once, and changes nothing.
pub proof fn law_cleared_until_signalled_again(
    platform: Platform,
    signalled: Seq<Pipe>,
    writes: Seq<Answer>,
    cleared: Seq<Pipe>,
    reads: Seq<Answer>,
    again: Seq<Pipe>,
    more: Seq<Answer>,
)
    requires
        is_signalling(platform, signalled, writes),
        signalled[0].held == 0,
        signalled[0].capacity > 0,
        is_clearing(platform, cleared, reads),
        cleared[0] == signalled.last(),
        reads.last().result <= 0,
        is_clearing(platform, again, more),
        again[0] == cleared.last(),
    ensures
        cleared.last() == signalled[0],
        more.len() == 1,
        more.last().result <= 0,
        again.last() == cleared.last(),
{
    law_every_signal_succeeds(platform, signalled, writes);
    law_clearing_leaves_nothing(platform, cleared, reads);
    law_clearing_leaves_nothing(platform, again, more);
}

} // verus!
