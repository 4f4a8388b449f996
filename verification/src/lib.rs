//! Watch-and-rerun core: the decision logic of a tool that re-runs a user
//! command whenever a watched file changes.
//!
//! The library is pure: it plans what to do (kill, clear, spawn, report) and
//! tracks the managed-process slot, while an unverified shell around it
//! performs the actual file watching and process management.

pub mod command;
pub mod event;
pub mod supervisor;
pub mod trace;
pub mod watch;
