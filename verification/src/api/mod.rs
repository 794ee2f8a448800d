//! What the service around the engine decides, apart from its I/O.

pub mod handlers;
pub mod models;
