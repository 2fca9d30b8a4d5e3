//! Task lifecycle and lease-based claim protocol for a small work orchestrator.
//!
//! Tasks move through a closed set of statuses under a fixed transition
//! relation; workers pull tasks from an insertion-ordered queue and hold them
//! under a time-bounded lease.
pub mod claims;
pub mod company;
mod clock;
pub mod order;
pub mod registry;
pub mod status;
pub mod store;
pub mod task;
pub mod text;
