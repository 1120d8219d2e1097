use crate::proto::{be16, PacketView};
use vstd::prelude::*;
use vstd::slice::slice_subrange;

verus! {

pub const ETH_P_IP: u16 = 0x0800;

pub const ETH_P_IPV6: u16 = 0x86DD;

pub const ETH_P_ARP: u16 = 0x0806;

/// An Ethernet II header, with the EtherType already in host order.
#[derive(Debug, Clone, Copy, PartialEq, Eq)]
pub struct EthHeader {
    pub dst: [u8; 6],
    pub src: [u8; 6],
    pub eth_type: u16,
}

impl EthHeader {
    /// The EtherType of the payload (`0x0800` for IPv4).
    pub fn eth_type(&self) -> (r: u16)
        ensures
            r == self.eth_type,
    {
        self.eth_type
    }
}

impl PacketView for EthHeader {
    fn len(&self) -> usize {
        14
    }
}

/// Decode an Ethernet II header: present exactly when 14 bytes are there.
/// On success the returned payload is everything after the header.
pub fn parse_eth(data: &[u8]) -> (r: Option<(EthHeader, &[u8])>)
    ensures
        r is Some <==> data@.len() >= 14,
        r matches Some((h, rest)) ==> {
            &&& h.dst@ == data@.subrange(0, 6)
            &&& h.src@ == data@.subrange(6, 12)
            &&& h.eth_type == be16(data@[12], data@[13])
            &&& rest@ == data@.skip(14)
        },
{
    if data.len() < 14 {
        return None;
    }
    let dst = [data[0], data[1], data[2], data[3], data[4], data[5]];
    let src = [data[6], data[7], data[8], data[9], data[10], data[11]];
    let eth_type = (data[12] as u16) * 0x100 + (data[13] as u16);
    let rest = slice_subrange(data, 14, data.len());
    proof {
        assert(dst@ =~= data@.subrange(0, 6));
        assert(src@ =~= data@.subrange(6, 12));
        assert(rest@ =~= data@.skip(14));
    }
    Some((EthHeader { dst, src, eth_type }, rest))
}

} // verus!
