//! Readiness conditions and selector kinds.

use vstd::prelude::*;

verus! {

/// The number of a descriptor. Systems number them in 32 or in 64 bits.
pub type Descriptor = i64;

/// Readiness condition: there is something to read.
pub const READABLE: i32 = 1;

/// Readiness condition: there is priority data to read.
pub const PRIORITY: i32 = 2;

/// Readiness condition: writing will not block.
pub const WRITABLE: i32 = 4;

/// The kind of selector that a core was made for.
#[derive(Clone, Copy, Debug, PartialEq, Eq, Structural)]
pub enum BackendKind {
    EPoll,
    KQueue,
    IOCP,
    URing,
}

} // verus!
