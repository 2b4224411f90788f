//! Launching and supervising targets.

pub mod control;
pub mod resolve;
pub mod drivers;
pub mod generation;
pub mod environment;
pub mod ports;
pub mod supervisor;
pub mod supervisor_laws;
pub mod requests;
pub mod refresh;
pub mod process;
pub mod start;
pub mod start_laws;
pub mod restart;
