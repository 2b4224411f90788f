//! Supervision of development targets.

pub mod cli;
pub mod config;
pub mod debug_laws;
pub mod debug_update;
pub mod env;
pub mod ipc;
pub mod json;
pub mod logging;
pub mod names;
pub mod numbers;
pub mod parts;
pub mod paths;
pub mod pattern;
pub mod runner;
pub mod state;
pub mod text;
pub mod time;
pub mod views;
pub mod watch;
