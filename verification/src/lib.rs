//! Start an `ssh` session or tunnel, watch it, and restart it when it dies or
//! stops passing traffic.
//!
//! The library takes every decision: how the command line splits, what the
//! environment resolves to, what to do when ssh dies, how long to wait, whether a
//! probe came back. It touches nothing outside itself. Whoever drives it makes the
//! system calls and reports what came of them.

pub mod backoff;
pub mod cli;
pub mod config;
pub mod daemon;
pub mod double;
pub mod host;
pub mod layers;
pub mod log;
pub mod monitor;
pub mod pidfile;
pub mod plan;
pub mod settings;
pub mod start;
pub mod supervise;
pub mod text;
pub mod time;
