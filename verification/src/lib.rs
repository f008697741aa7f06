//! Decision logic of a cross-platform pseudo terminal (pty) interface.
//!
//! Everything in this crate computes: it decides what to ask of the operating
//! system, and what an answer means.  Whoever links the crate performs the
//! system calls and hands the answers back as plain values.
pub mod base_env;
pub mod base_laws;
pub mod cmdbuilder;
pub mod conpty;
pub mod env;
pub mod error;
pub mod exit_status;
pub mod foreign;
pub mod kill;
pub mod launch;
pub mod launch_laws;
pub mod laws;
pub mod lookup;
pub mod os_string;
pub mod path;
pub mod pty;
pub mod quoting;
pub mod search;
pub mod serial;
pub mod shell;
pub mod spawn;
pub mod step_laws;
pub mod text;
pub mod unix;
pub mod unix_laws;
pub mod value_laws;
pub mod wide;
pub mod win_child;
pub mod win_launch;
pub mod win_search;
pub mod windows_laws;
