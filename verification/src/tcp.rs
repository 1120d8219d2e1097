use crate::ipv4::{ipv4_header_len_of, Ipv4Header};
use crate::proto::{
    be16, be32, checksum, checksum_of, hi8, lo8, pseudo_header_bytes, push_bytes,
    push_pseudo_header, push_u16_be, push_u32_be, u32_octets, PacketView,
};
use vstd::prelude::*;
use vstd::slice::slice_subrange;

verus! {

/// A TCP header (the fixed 20 bytes), with every field already in host
/// order. `data_off_res_flags` packs the data offset (top four bits),
/// the reserved bits, and the flags (low nine bits).
#[derive(Debug, Clone, Copy, PartialEq, Eq, Structural)]
pub struct TcpHeader {
    pub src_port: u16,
    pub dst_port: u16,
    pub seq: u32,
    pub ack: u32,
    pub data_off_res_flags: u16,
    pub window: u16,
    pub check: u16,
    pub urg_ptr: u16,
}

/// The twenty wire bytes of a fixed TCP header.
pub open spec fn tcp_header_bytes(h: TcpHeader) -> Seq<u8> {
    seq![hi8(h.src_port), lo8(h.src_port), hi8(h.dst_port), lo8(h.dst_port)] + u32_octets(h.seq)
        + u32_octets(h.ack) + seq![
        hi8(h.data_off_res_flags),
        lo8(h.data_off_res_flags),
        hi8(h.window),
        lo8(h.window),
        hi8(h.check),
        lo8(h.check),
        hi8(h.urg_ptr),
        lo8(h.urg_ptr),
    ]
}

/// Header length in bytes encoded by the data-offset nibble of the twelfth
/// wire byte: four times the high nibble.
pub open spec fn tcp_header_len_of(off_byte: u8) -> int {
    (off_byte / 16) * 4
}

impl TcpHeader {
    pub fn src_port(&self) -> (r: u16)
        ensures
            r == self.src_port,
    {
        self.src_port
    }

    pub fn dst_port(&self) -> (r: u16)
        ensures
            r == self.dst_port,
    {
        self.dst_port
    }

    pub fn sequence_number(&self) -> (r: u32)
        ensures
            r == self.seq,
    {
        self.seq
    }

    pub fn acknowledgment_number(&self) -> (r: u32)
        ensures
            r == self.ack,
    {
        self.ack
    }

    /// The data offset in 32-bit words (the top four bits).
    pub fn data_offset(&self) -> (r: u8)
        ensures
            r == self.data_off_res_flags / 0x1000,
    {
        (self.data_off_res_flags / 0x1000) as u8
    }

    /// The header length in bytes, options included.
    pub fn header_len(&self) -> (r: usize)
        ensures
            r == (self.data_off_res_flags / 0x1000) * 4,
    {
        (self.data_off_res_flags / 0x1000) as usize * 4
    }

    /// The nine flag bits.
    pub fn flags(&self) -> (r: u16)
        ensures
            r == self.data_off_res_flags % 0x200,
    {
        self.data_off_res_flags % 0x200
    }

    /// Whether the segment checksum is consistent. The segment length in
    /// the pseudo-header is the IP total length minus the IP header length
    /// (false at once when the total is shorter than the header). The bytes
    /// summed are this header's fixed twenty wire bytes followed by `rest`,
    /// the wire bytes after them (options and payload).
    pub fn verify_checksum(&self, ip: &Ipv4Header, rest: &[u8]) -> (r: bool)
        requires
            rest@.len() <= 0x1_0000,
        ensures
            r == (ip.total_len >= ipv4_header_len_of(ip.ver_ihl) && checksum_of(
                pseudo_header_bytes(
                    ip.src,
                    ip.dst,
                    ip.proto,
                    (ip.total_len - ipv4_header_len_of(ip.ver_ihl)) as u16,
                ) + tcp_header_bytes(*self) + rest@,
            ) == 0),
    {
        let ip_len = ip.total_len as usize;
        let ip_hdr_len = ip.header_len();
        if ip_len < ip_hdr_len {
            return false;
        }
        let seg_len = (ip_len - ip_hdr_len) as u16;
        let mut v: Vec<u8> = Vec::new();
        push_pseudo_header(&mut v, ip.src, ip.dst, ip.proto, seg_len);
        push_u16_be(&mut v, self.src_port);
        push_u16_be(&mut v, self.dst_port);
        push_u32_be(&mut v, self.seq);
        push_u32_be(&mut v, self.ack);
        push_u16_be(&mut v, self.data_off_res_flags);
        push_u16_be(&mut v, self.window);
        push_u16_be(&mut v, self.check);
        push_u16_be(&mut v, self.urg_ptr);
        push_bytes(&mut v, rest);
        proof {
            assert(v@ =~= pseudo_header_bytes(ip.src, ip.dst, ip.proto, seg_len)
                + tcp_header_bytes(*self) + rest@);
        }
        checksum(v.as_slice()) == 0
    }
}

impl PacketView for TcpHeader {
    fn len(&self) -> usize {
        self.header_len()
    }
}

/// Decode a TCP header: present exactly when the fixed 20 bytes are there,
/// the advertised data offset is at least five words, and the advertised
/// header (options included) fits the data. On success the returned payload
/// starts after the options.
pub fn parse_tcp(data: &[u8]) -> (r: Option<(TcpHeader, &[u8])>)
    ensures
        r is Some <==> data@.len() >= 20 && tcp_header_len_of(data@[12]) >= 20 && data@.len()
            >= tcp_header_len_of(data@[12]),
        r matches Some((h, rest)) ==> {
            &&& h == (TcpHeader {
                src_port: be16(data@[0], data@[1]) as u16,
                dst_port: be16(data@[2], data@[3]) as u16,
                seq: be32(data@[4], data@[5], data@[6], data@[7]) as u32,
                ack: be32(data@[8], data@[9], data@[10], data@[11]) as u32,
                data_off_res_flags: be16(data@[12], data@[13]) as u16,
                window: be16(data@[14], data@[15]) as u16,
                check: be16(data@[16], data@[17]) as u16,
                urg_ptr: be16(data@[18], data@[19]) as u16,
            })
            &&& rest@ == data@.skip(tcp_header_len_of(data@[12]))
        },
{
    if data.len() < 20 {
        return None;
    }
    let header_len = (data[12] / 16) as usize * 4;
    if header_len < 20 || data.len() < header_len {
        return None;
    }
    let h = TcpHeader {
        src_port: (data[0] as u16) * 0x100 + (data[1] as u16),
        dst_port: (data[2] as u16) * 0x100 + (data[3] as u16),
        seq: ((data[4] as u32) * 0x100_0000) + ((data[5] as u32) * 0x1_0000) + ((data[6] as u32)
            * 0x100) + (data[7] as u32),
        ack: ((data[8] as u32) * 0x100_0000) + ((data[9] as u32) * 0x1_0000) + ((data[10] as u32)
            * 0x100) + (data[11] as u32),
        data_off_res_flags: (data[12] as u16) * 0x100 + (data[13] as u16),
        window: (data[14] as u16) * 0x100 + (data[15] as u16),
        check: (data[16] as u16) * 0x100 + (data[17] as u16),
        urg_ptr: (data[18] as u16) * 0x100 + (data[19] as u16),
    };
    proof {
        assert(h.data_off_res_flags / 0x1000 == data@[12] / 16);
    }
    let rest = slice_subrange(data, header_len, data.len());
    proof {
        assert(rest@ =~= data@.skip(tcp_header_len_of(data@[12])));
    }
    Some((h, rest))
}

} // verus!
