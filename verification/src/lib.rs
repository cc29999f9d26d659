//! Process bookkeeping for sandboxes that are paused and resumed.
//!
//! The crate keeps, for every sandbox, the list of processes it is known to
//! run, decides what happens to them when the sandbox is about to be paused,
//! and reverses that decision when the sandbox comes back.
//!
//! Nothing here touches the file system or waits: the functions take what was
//! read and say what is to be written, removed or waited for.

pub mod auto_pause;
pub mod paths;
pub mod persistence;
pub mod process;
pub mod signal;
pub mod state_snapshot;
pub mod text;
pub mod timestamp;
