//! Commands between clients and the supervisor.

pub mod lock;
pub mod protocol;
pub mod info;
pub mod info_laws;
pub mod server;
pub mod server_laws;
