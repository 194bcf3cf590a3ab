//! The errors that the library itself raises.

use vstd::prelude::*;
use vstd::string::StringExecFns;

verus! {

/// The class of exception that a failure is raised as.
#[derive(Clone, Copy, Debug, PartialEq, Eq, Structural)]
pub enum ErrorKind {
    /// The caller passed arguments that the operation does not take.
    Argument,
    /// The operation cannot be carried out in the present state.
    Runtime,
    /// The operating system refused a call.
    SystemCall,
}

/// An exception to be raised: its class and its message.
#[derive(Debug)]
pub struct Failure {
    pub kind: ErrorKind,
    pub message: String,
}

impl Failure {
    /// This failure is of class `kind` and says `message`.
    pub open spec fn says(self, kind: ErrorKind, message: Seq<char>) -> bool {
        self.kind == kind && self.message@ == message
    }

    pub(crate) fn argument(message: &str) -> (failure: Failure)
        ensures
            failure.says(ErrorKind::Argument, message@),
    {
        Failure { kind: ErrorKind::Argument, message: message.to_owned() }
    }

    pub(crate) fn runtime(message: &str) -> (failure: Failure)
        ensures
            failure.says(ErrorKind::Runtime, message@),
    {
        Failure { kind: ErrorKind::Runtime, message: message.to_owned() }
    }

    /// The failure of a system call; `message` names the operation and the call.
    pub(crate) fn system_call(message: &str) -> (failure: Failure)
        ensures
            failure.says(ErrorKind::SystemCall, message@),
    {
        Failure { kind: ErrorKind::SystemCall, message: message.to_owned() }
    }
}

/// The character of a decimal digit.
pub open spec fn digit_char(digit: nat) -> char {
    if digit == 0 {
        '0'
    } else if digit == 1 {
        '1'
    } else if digit == 2 {
        '2'
    } else if digit == 3 {
        '3'
    } else if digit == 4 {
        '4'
    } else if digit == 5 {
        '5'
    } else if digit == 6 {
        '6'
    } else if digit == 7 {
        '7'
    } else if digit == 8 {
        '8'
    } else {
        '9'
    }
}

/// A number written in decimal, without leading zeros.
pub open spec fn decimal(n: nat) -> Seq<char>
    decreases n,
{
    if n < 10 {
        seq![digit_char(n)]
    } else {
        decimal(n / 10).push(digit_char(n % 10))
    }
}

fn digit_text(digit: usize) -> (text: &'static str)
    requires
        digit < 10,
    ensures
        text@ == seq![digit_char(digit as nat)],
{
    proof {
        reveal_strlit("0");
        reveal_strlit("1");
        reveal_strlit("2");
        reveal_strlit("3");
        reveal_strlit("4");
        reveal_strlit("5");
        reveal_strlit("6");
        reveal_strlit("7");
        reveal_strlit("8");
        reveal_strlit("9");
    }
    match digit {
        0 => "0",
        1 => "1",
        2 => "2",
        3 => "3",
        4 => "4",
        5 => "5",
        6 => "6",
        7 => "7",
        8 => "8",
        _ => "9",
    }
}

fn decimal_text(n: usize) -> (text: String)
    ensures
        text@ == decimal(n as nat),
    decreases n,
{
    if n < 10 {
        digit_text(n).to_owned()
    } else {
        let mut text = decimal_text(n / 10);
        text.append(digit_text(n % 10));
        text
    }
}

/// The message for a call with the wrong number of arguments.
pub open spec fn arity_message(given: nat, expected: Seq<char>) -> Seq<char> {
    "wrong number of arguments (given "@ + decimal(given) + ", expected "@ + expected + ")"@
}

/// A call was given `given` arguments where it takes `expected`.
pub(crate) fn wrong_arity(given: usize, expected: &str) -> (failure: Failure)
    ensures
        failure.says(ErrorKind::Argument, arity_message(given as nat, expected@)),
{
    let mut message = "wrong number of arguments (given ".to_owned();
    message.append(decimal_text(given).as_str());
    message.append(", expected ");
    message.append(expected);
    message.append(")");
    Failure { kind: ErrorKind::Argument, message }
}

} // verus!
