//! Datagrams.

use vstd::prelude::*;

use crate::net::addr::SocksAddr;

verus! {

/// A datagram on its way through the inbound.
#[derive(Debug)]
pub struct UdpPacket {
    pub data: Vec<u8>,
    pub src_addr: SocksAddr,
    pub dst_addr: SocksAddr,
    pub inbound_user: Option<String>,
}

} // verus!
