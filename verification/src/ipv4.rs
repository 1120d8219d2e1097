use crate::proto::{be16, be32, checksum, checksum_of, PacketView};
use vstd::prelude::*;
use vstd::slice::slice_subrange;

verus! {

/// An IPv4 header, with every multi-byte field already in host order.
#[derive(Debug, Clone, Copy, PartialEq, Eq, Structural)]
pub struct Ipv4Header {
    pub ver_ihl: u8,
    pub tos: u8,
    pub total_len: u16,
    pub id: u16,
    pub frag_off: u16,
    pub ttl: u8,
    pub proto: u8,
    pub check: u16,
    pub src: u32,
    pub dst: u32,
}

/// Header length in bytes encoded by a version/IHL byte: four times the
/// low nibble.
pub open spec fn ipv4_header_len_of(ver_ihl: u8) -> int {
    (ver_ihl % 16) * 4
}

impl Ipv4Header {
    /// The IP version (the high nibble; 4 for IPv4).
    pub fn version(&self) -> (r: u8)
        ensures
            r == self.ver_ihl / 16,
    {
        self.ver_ihl / 16
    }

    /// The header length in 32-bit words (the low nibble).
    pub fn ihl(&self) -> (r: u8)
        ensures
            r == self.ver_ihl % 16,
    {
        self.ver_ihl % 16
    }

    /// The header length in bytes.
    pub fn header_len(&self) -> (r: usize)
        ensures
            r == ipv4_header_len_of(self.ver_ihl),
    {
        (self.ver_ihl % 16) as usize * 4
    }

    /// Source address in host order.
    pub fn src(&self) -> (r: u32)
        ensures
            r == self.src,
    {
        self.src
    }

    /// Destination address in host order.
    pub fn dst(&self) -> (r: u32)
        ensures
            r == self.dst,
    {
        self.dst
    }

    /// Whether the header checksum over the wire bytes of this header is
    /// consistent: the Internet checksum of the first `header_len` bytes of
    /// `data` (the slice this header was decoded from) is zero. False when
    /// `data` is shorter than the advertised header.
    pub fn is_valid(&self, data: &[u8]) -> (r: bool)
        ensures
            r == (ipv4_header_len_of(self.ver_ihl) <= data@.len() && checksum_of(
                data@.take(ipv4_header_len_of(self.ver_ihl)),
            ) == 0),
    {
        let hlen = self.header_len();
        if data.len() < hlen {
            return false;
        }
        let head = slice_subrange(data, 0, hlen);
        proof {
            assert(head@ =~= data@.take(ipv4_header_len_of(self.ver_ihl)));
        }
        checksum(head) == 0
    }
}

impl PacketView for Ipv4Header {
    fn len(&self) -> usize {
        self.header_len()
    }
}

/// Decode an IPv4 header: present exactly when the fixed 20 bytes and the
/// advertised header length (IHL words, which may exceed 20 bytes with
/// options) are there. On success the returned payload starts after the
/// options.
pub fn parse_ipv4(data: &[u8]) -> (r: Option<(Ipv4Header, &[u8])>)
    ensures
        r is Some <==> data@.len() >= 20 && data@.len() >= ipv4_header_len_of(data@[0]),
        r matches Some((h, rest)) ==> {
            &&& h == (Ipv4Header {
                ver_ihl: data@[0],
                tos: data@[1],
                total_len: be16(data@[2], data@[3]) as u16,
                id: be16(data@[4], data@[5]) as u16,
                frag_off: be16(data@[6], data@[7]) as u16,
                ttl: data@[8],
                proto: data@[9],
                check: be16(data@[10], data@[11]) as u16,
                src: be32(data@[12], data@[13], data@[14], data@[15]) as u32,
                dst: be32(data@[16], data@[17], data@[18], data@[19]) as u32,
            })
            &&& rest@ == data@.skip(ipv4_header_len_of(data@[0]))
        },
{
    if data.len() < 20 {
        return None;
    }
    let ver_ihl = data[0];
    let header_len = (ver_ihl % 16) as usize * 4;
    if data.len() < header_len {
        return None;
    }
    let h = Ipv4Header {
        ver_ihl,
        tos: data[1],
        total_len: (data[2] as u16) * 0x100 + (data[3] as u16),
        id: (data[4] as u16) * 0x100 + (data[5] as u16),
        frag_off: (data[6] as u16) * 0x100 + (data[7] as u16),
        ttl: data[8],
        proto: data[9],
        check: (data[10] as u16) * 0x100 + (data[11] as u16),
        src: ((data[12] as u32) * 0x100_0000) + ((data[13] as u32) * 0x1_0000) + ((data[14] as u32)
            * 0x100) + (data[15] as u32),
        dst: ((data[16] as u32) * 0x100_0000) + ((data[17] as u32) * 0x1_0000) + ((data[18] as u32)
            * 0x100) + (data[19] as u32),
    };
    let rest = slice_subrange(data, header_len, data.len());
    proof {
        assert(rest@ =~= data@.skip(ipv4_header_len_of(data@[0])));
    }
    Some((h, rest))
}

} // verus!
