//! Hysteria2: the wire formats and the rules of its inbound.

pub mod acme;
pub mod acme_laws;
pub mod address;
pub mod answer_laws;
pub mod auth;
pub mod certs;
pub mod clock;
pub mod cloudflare;
pub mod codec;
pub mod defrag;
pub mod dns01;
pub mod dns01_laws;
pub mod error;
pub mod file_laws;
pub mod files;
pub mod inbound;
pub mod masquerade;
pub mod masquerade_laws;
pub mod packet_laws;
pub mod padding;
pub mod passing;
pub mod reassembly;
pub mod session_laws;
pub mod sessions;
pub mod sni;
pub mod sni_laws;
pub mod udp;
pub mod varint;
