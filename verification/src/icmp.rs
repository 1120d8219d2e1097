use crate::proto::{be16, PacketView};
use vstd::prelude::*;
use vstd::slice::slice_subrange;

verus! {

/// An ICMP header (type, code and checksum), checksum in host order.
#[derive(Debug, Clone, Copy, PartialEq, Eq, Structural)]
pub struct IcmpHeader {
    pub kind: u8,
    pub code: u8,
    pub check: u16,
}

impl IcmpHeader {
    /// The message checksum in host order.
    pub fn checksum(&self) -> (r: u16)
        ensures
            r == self.check,
    {
        self.check
    }
}

impl PacketView for IcmpHeader {
    fn len(&self) -> usize {
        4
    }
}

/// Decode an ICMP header: present exactly when 4 bytes are there. On
/// success the returned payload is the message body.
pub fn parse_icmp(data: &[u8]) -> (r: Option<(IcmpHeader, &[u8])>)
    ensures
        r is Some <==> data@.len() >= 4,
        r matches Some((h, rest)) ==> {
            &&& h == (IcmpHeader {
                kind: data@[0],
                code: data@[1],
                check: be16(data@[2], data@[3]) as u16,
            })
            &&& rest@ == data@.skip(4)
        },
{
    if data.len() < 4 {
        return None;
    }
    let h = IcmpHeader {
        kind: data[0],
        code: data[1],
        check: (data[2] as u16) * 0x100 + (data[3] as u16),
    };
    let rest = slice_subrange(data, 4, data.len());
    proof {
        assert(rest@ =~= data@.skip(4));
    }
    Some((h, rest))
}

} // verus!
