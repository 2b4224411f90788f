//! The configuration of targets.

pub mod error;
pub mod laws;
pub mod loader;
pub mod model;
pub mod raw;
pub mod schema;
pub mod value;
pub mod written;
