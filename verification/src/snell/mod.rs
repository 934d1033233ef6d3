//! Snell v6: traffic shaping, record framing and request handling.

pub mod cipher;
pub mod clock;
pub mod error;
pub mod inbound;
pub mod mixing;
pub mod mixing_laws;
pub mod padding;
pub mod prf;
pub mod profile;
pub mod profile_laws;
pub mod reading_laws;
pub mod record;
pub mod record_laws;
pub mod request;
pub mod request_laws;
pub mod salt;
pub mod setup_laws;
pub mod shape;
pub mod shape_laws;
pub mod stream_laws;
pub mod users;
pub mod writer;
