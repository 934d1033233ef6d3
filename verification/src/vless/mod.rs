//! VLESS over websockets.

pub mod error;
pub mod ids;
pub mod inbound;
pub mod inbound_laws;
pub mod request;
pub mod request_laws;
pub mod websocket;
