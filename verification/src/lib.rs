//! Launching a program with elevated privileges, as a verified core.
//!
//! The crate holds the decisions of three elevation strategies: how a
//! command line is built, which broker is chosen, how the answers of the
//! operating system are read, and who owns a resource that has to be
//! released exactly once. The calls into the operating system themselves are
//! made by the caller, which hands their answers back as plain values.

pub mod cmdline;
pub mod macos;
pub mod shared;
pub mod text;
pub mod unix;
pub mod windows;

pub use shared::{
    Child, Command, Error, ExitStatus, OsReply, Release, SpawnRequest, Strategy, WaitFailure,
    WaitStep,
};
