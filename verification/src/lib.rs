//! Supervisory substrate for small privileged helpers that set up network
//! namespaces, wait for a shutdown trigger, and tear everything down again.
//!
//! The crate holds the decisions only: which operating-system work has to be
//! done next, and what follows from its outcome. Performing that work (reading
//! descriptors, starting processes, sending signals) is left to the program
//! that drives these state machines.
//!
//! - [`supervisor`] is the course of a whole run, with the cleanup stack;
//!   [`course`] states what holds of every run.
//! - [`netns`] is one namespace from creation to removal; [`protocol`]
//!   states what holds of its creation and teardown.
//! - [`idle_loop`] turns signals, the end of the controlling input and
//!   exited children into events, one at a time; [`delivery`] states what
//!   is delivered.
//! - [`signals`] is the set of signals that the supervisor blocks.
//! - [`subprocess`], [`environment`] and [`pids`] are what children are
//!   launched with and what is made of their end and their output.
//! - [`err`] is the error type, [`args`] the check of a request, and
//!   [`text`] the numerals and command lines that messages are made of.

pub mod args;
pub mod course;
pub mod delivery;
pub mod environment;
pub mod err;
pub mod idle_loop;
pub mod netns;
pub mod pids;
pub mod protocol;
pub mod signals;
pub mod subprocess;
pub mod supervisor;
pub mod text;

pub use libc::pid_t;

pub use err::{map_io_err, map_nix_err, map_pi_err, map_unsuc_child, map_utf8_err, HLError};
pub use idle_loop::{idtype_t, Event, IdleLoop};
pub use subprocess::{run, run_get_output, run_get_output_pids, spawn, ChildEnv};
