//! The configuration of inbound listeners.

pub mod code;
pub mod headers;
pub mod laws;
pub mod listener;
pub mod parts;
pub mod plan;
pub mod validate;
