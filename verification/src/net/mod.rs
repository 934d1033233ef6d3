//! Addresses and how they are written.

pub mod addr;
pub mod form_laws;
pub mod laws;
pub mod number;
pub mod packet;
pub mod parse;
pub mod print;
pub mod wire;
