//! PTY sessions: event queue, workers, child process and cleanup.

pub mod cleanup;
pub mod event_queue;
pub mod io_workers;
pub mod process;
pub mod queue_laws;
pub mod session;
pub mod shell;
pub mod start;
pub mod worker;
