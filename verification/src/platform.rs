//! What differs from system to system: error codes, poll conditions, descriptor
//! flags.

use vstd::prelude::*;

verus! {

/// What the operating system calls the conditions that the selector asks
/// about. The numbers differ from system to system; everything in this crate
/// that depends on one of them takes it from a `Platform`.
#[derive(Clone, Copy, Debug)]
pub struct Platform {
    /// The error code of a call that would have had to wait.
    pub eagain: i32,
    /// The other name of that error code, with its own number on some systems.
    pub ewouldblock: i32,
    /// The error code of an argument out of range.
    pub einval: i32,
    /// The error code of a call that a signal cut short.
    pub eintr: i32,
    /// Whether descriptors can be waited for, made non-blocking and read and
    /// written directly. Where they cannot, the fields below are 0.
    pub unix: bool,
    /// Poll condition: there is data to read.
    pub pollin: i16,
    /// Poll condition: there is priority data to read.
    pub pollpri: i16,
    /// Poll condition: writing will not block.
    pub pollout: i16,
    /// Poll condition: the descriptor is in error.
    pub pollerr: i16,
    /// Poll condition: the other end hung up.
    pub pollhup: i16,
    /// The descriptor flag under which calls fail rather than wait.
    pub nonblock: i32,
}

/// The numbers that only a Unix system has.
#[derive(Clone, Copy, Debug)]
pub struct UnixNumbers {
    pub pollin: i16,
    pub pollpri: i16,
    pub pollout: i16,
    pub pollerr: i16,
    pub pollhup: i16,
    pub nonblock: i32,
}

/// Error codes of the operating system.
#[derive(Clone, Copy, Debug)]
pub struct ErrorCodes {
    pub eagain: i32,
    pub ewouldblock: i32,
    pub einval: i32,
    pub eintr: i32,
}

/// The constants `EAGAIN`, `EWOULDBLOCK`, `EINVAL` and `EINTR` of the crate
/// `libc`, for the system that the crate is built for.
///
/// What is claimed of them holds on Linux, on Apple's systems, on the BSDs and on
/// Windows: the retry code is 11 or 35; its other name is the same number, or 140;
/// the codes of a bad argument and of an interrupted call are 22 and 4. Which of
/// its numbers a system uses is left unsaid.
#[verifier::external_body]
fn libc_error_codes() -> (codes: ErrorCodes)
    ensures
        known_codes(codes),
{
    ErrorCodes {
        eagain: libc::EAGAIN,
        ewouldblock: libc::EWOULDBLOCK,
        einval: libc::EINVAL,
        eintr: libc::EINTR,
    }
}

/// The error codes of the systems that the selector runs on.
pub open spec fn known_codes(codes: ErrorCodes) -> bool {
    &&& codes.eagain == 11 || codes.eagain == 35
    &&& codes.ewouldblock == codes.eagain || codes.ewouldblock == 140
    &&& codes.einval == 22
    &&& codes.eintr == 4
}

impl Platform {
    /// The error codes of this platform.
    pub open spec fn codes(self) -> ErrorCodes {
        ErrorCodes {
            eagain: self.eagain,
            ewouldblock: self.ewouldblock,
            einval: self.einval,
            eintr: self.eintr,
        }
    }

    /// The poll conditions that can be asked for are different bits, and the
    /// non-blocking flag is not empty.
    pub open spec fn bits_apart(self) -> bool {
        &&& self.pollin != 0
        &&& self.pollpri != 0
        &&& self.pollout != 0
        &&& self.pollin & self.pollpri == 0
        &&& self.pollin & self.pollout == 0
        &&& self.pollpri & self.pollout == 0
        &&& self.nonblock != 0
    }

    /// The numbers of the system that the crate is built for. Those that only a
    /// Unix system has are handed in.
    pub fn host(unix: Option<UnixNumbers>) -> (platform: Platform)
        ensures
            known_codes(platform.codes()),
            platform.unix == (unix is Some),
            match unix {
                Some(numbers) => {
                    &&& platform.pollin == numbers.pollin
                    &&& platform.pollpri == numbers.pollpri
                    &&& platform.pollout == numbers.pollout
                    &&& platform.pollerr == numbers.pollerr
                    &&& platform.pollhup == numbers.pollhup
                    &&& platform.nonblock == numbers.nonblock
                },
                None => {
                    &&& platform.pollin == 0
                    &&& platform.pollpri == 0
                    &&& platform.pollout == 0
                    &&& platform.pollerr == 0
                    &&& platform.pollhup == 0
                    &&& platform.nonblock == 0
                },
            },
    {
        let codes = libc_error_codes();
        let numbers = match unix {
            Some(numbers) => numbers,
            None => UnixNumbers {
                pollin: 0,
                pollpri: 0,
                pollout: 0,
                pollerr: 0,
                pollhup: 0,
                nonblock: 0,
            },
        };
        Platform {
            eagain: codes.eagain,
            ewouldblock: codes.ewouldblock,
            einval: codes.einval,
            eintr: codes.eintr,
            unix: unix.is_some(),
            pollin: numbers.pollin,
            pollpri: numbers.pollpri,
            pollout: numbers.pollout,
            pollerr: numbers.pollerr,
            pollhup: numbers.pollhup,
            nonblock: numbers.nonblock,
        }
    }

    /// Whether a call that failed with `errno` is worth making again once the
    /// descriptor is ready.
    pub fn try_again(&self, errno: i32) -> (again: bool)
        ensures
            again == (errno == self.eagain || errno == self.ewouldblock),
    {
        errno == self.eagain || errno == self.ewouldblock
    }
}

} // verus!
