//! What the command line shows and decides.

pub mod args;
pub mod combined;
pub mod command_laws;
pub mod commands;
pub mod dispatch;
pub mod init;
pub mod log_io;
pub mod log_laws;
pub mod render;
pub mod render_laws;
pub mod session;
pub mod shown_laws;
pub mod streams;
