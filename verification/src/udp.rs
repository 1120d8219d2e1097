use crate::ipv4::Ipv4Header;
use crate::proto::{
    be16, checksum, checksum_of, hi8, lo8, pseudo_header_bytes, push_bytes, push_pseudo_header,
    push_u16_be, PacketView,
};
use vstd::prelude::*;
use vstd::slice::slice_subrange;

verus! {

/// A UDP header, with every field already in host order.
#[derive(Debug, Clone, Copy, PartialEq, Eq, Structural)]
pub struct UdpHeader {
    pub src_port: u16,
    pub dst_port: u16,
    pub len: u16,
    pub check: u16,
}

/// The eight wire bytes of a UDP header.
pub open spec fn udp_header_bytes(h: UdpHeader) -> Seq<u8> {
    seq![
        hi8(h.src_port),
        lo8(h.src_port),
        hi8(h.dst_port),
        lo8(h.dst_port),
        hi8(h.len),
        lo8(h.len),
        hi8(h.check),
        lo8(h.check),
    ]
}

impl UdpHeader {
    pub fn src_port(&self) -> (r: u16)
        ensures
            r == self.src_port,
    {
        self.src_port
    }

    pub fn dst_port(&self) -> (r: u16)
        ensures
            r == self.dst_port,
    {
        self.dst_port
    }

    /// The datagram length from the header (header plus payload).
    pub fn length(&self) -> (r: u16)
        ensures
            r == self.len,
    {
        self.len
    }

    /// Whether the datagram checksum is consistent. A zero stored checksum
    /// means "not computed", which IPv4 permits, and counts as valid.
    /// Otherwise the Internet checksum over the pseudo-header (using this
    /// header's length field), the header's wire bytes, and `payload` must
    /// come to zero.
    pub fn verify_checksum(&self, ip: &Ipv4Header, payload: &[u8]) -> (r: bool)
        requires
            payload@.len() <= 0x1_0000,
        ensures
            r == (self.check == 0 || checksum_of(
                pseudo_header_bytes(ip.src, ip.dst, ip.proto, self.len) + udp_header_bytes(*self)
                    + payload@,
            ) == 0),
    {
        if self.check == 0 {
            return true;
        }
        let mut v: Vec<u8> = Vec::new();
        push_pseudo_header(&mut v, ip.src, ip.dst, ip.proto, self.len);
        push_u16_be(&mut v, self.src_port);
        push_u16_be(&mut v, self.dst_port);
        push_u16_be(&mut v, self.len);
        push_u16_be(&mut v, self.check);
        push_bytes(&mut v, payload);
        proof {
            assert(v@ =~= pseudo_header_bytes(ip.src, ip.dst, ip.proto, self.len)
                + udp_header_bytes(*self) + payload@);
        }
        checksum(v.as_slice()) == 0
    }
}

impl PacketView for UdpHeader {
    fn len(&self) -> usize {
        8
    }
}

/// Decode a UDP header: present exactly when 8 bytes are there. On success
/// the returned payload is everything after the header.
pub fn parse_udp(data: &[u8]) -> (r: Option<(UdpHeader, &[u8])>)
    ensures
        r is Some <==> data@.len() >= 8,
        r matches Some((h, rest)) ==> {
            &&& h == (UdpHeader {
                src_port: be16(data@[0], data@[1]) as u16,
                dst_port: be16(data@[2], data@[3]) as u16,
                len: be16(data@[4], data@[5]) as u16,
                check: be16(data@[6], data@[7]) as u16,
            })
            &&& rest@ == data@.skip(8)
        },
{
    if data.len() < 8 {
        return None;
    }
    let h = UdpHeader {
        src_port: (data[0] as u16) * 0x100 + (data[1] as u16),
        dst_port: (data[2] as u16) * 0x100 + (data[3] as u16),
        len: (data[4] as u16) * 0x100 + (data[5] as u16),
        check: (data[6] as u16) * 0x100 + (data[7] as u16),
    };
    let rest = slice_subrange(data, 8, data.len());
    proof {
        assert(rest@ =~= data@.skip(8));
    }
    Some((h, rest))
}

} // verus!
