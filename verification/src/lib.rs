//! A supervisor for one external worker process, with the input and output
//! left to the caller.
//!
//! The worker speaks lines of UTF-8 text over its standard input and output
//! and writes diagnostics to its error stream. This crate holds every rule of
//! that arrangement: how a launch is prepared, how bytes become lines, how the
//! error stream is passed on to the caller's channel, in which order a broken
//! connection is diagnosed, and what the diagnosis says. Whoever embeds it
//! owns the operating-system handles, performs the [`child_process::Action`]s
//! that the supervisor asks for and reports each one's
//! [`child_process::Event`].
pub mod child_process;
pub mod config;
pub mod diagnosis;
pub mod errors;
pub mod lines;
pub mod sink;
pub mod text;
pub mod trace;
