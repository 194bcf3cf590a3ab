//! The event selector and worker pool behind a fiber scheduler.

pub mod buffer;
pub mod busy;
pub mod dispatch;
pub mod event;
pub mod failure;
pub mod interrupt;
pub mod io_call;
pub mod io_wait;
pub mod laws;
pub mod mailbox;
pub mod nonblock;
pub mod platform;
pub mod poll;
pub mod process;
pub mod select;
pub mod selector;
pub mod transfer;
pub mod wake;
pub mod worker_pool;
