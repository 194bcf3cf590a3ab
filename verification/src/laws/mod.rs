//! What holds of the library as a whole: laws that relate several operations.

pub mod descriptors;
pub mod frame;
pub mod interrupts;
pub mod io_lives;
pub mod mailboxes;
pub mod moving;
pub mod polling;
pub mod pool;
pub mod process_lives;
pub mod processes;
pub mod queueing;
pub mod queued_waits;
pub mod suspension;
pub mod switching;
pub mod transferring;
pub mod turns;
pub mod waiting;
pub mod waking;
pub mod watching;
pub mod whole_turn;
pub mod working;
