//! Inbound listeners for a rule-based proxy: configuration checks, wire codecs
//! and connection state machines, verified with Verus.

pub mod buffer;
pub mod config;
pub mod digest;
pub mod error_laws;
pub mod hysteria2;
pub mod lookup_laws;
pub mod net;
pub mod num;
pub mod order;
pub mod pending;
pub mod snell;
pub mod text;
pub mod text_laws;
pub mod vless;
pub mod web;
