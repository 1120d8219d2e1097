//! Packet views for the batch cycle.
//!
//! During a batch the engine copies each received frame out of the pool
//! into a [`PacketRef`], hands the batch to the callback, and afterwards
//! writes the (possibly mutated) frame bytes back and commits each packet's
//! [`Action`]. A packet is a window `head..head + len` into its frame; the
//! window may be moved (headers stripped or restored) without losing the
//! surrounding frame bytes.

use crate::ethernet::EthHeader;
use crate::icmp::IcmpHeader;
use crate::ipv4::{ipv4_header_len_of, Ipv4Header};
use crate::proto::{be16, be32};
use crate::tcp::{tcp_header_len_of, TcpHeader};
use crate::udp::UdpHeader;
use vstd::prelude::*;
use vstd::slice::slice_subrange;

verus! {

/// What the callback decided about a packet. The default is `Drop`: a
/// frame nobody claims goes back to the FILL ring.
#[derive(Debug, Clone, Copy, PartialEq, Eq, Structural)]
pub enum Action {
    /// Recycle the frame to the FILL ring.
    Drop,
    /// Hand the frame to the TX ring for transmission.
    Tx,
}

/// One packet of a batch: a copy of its whole frame, the window of the
/// packet's bytes within it, the frame's pool address, and the action the
/// callback chose.
pub struct PacketRef {
    frame: Vec<u8>,
    head: usize,
    len: usize,
    addr: u64,
    action: Action,
}

impl PacketRef {
    /// The window always lies within the frame.
    #[verifier::type_invariant]
    spec fn inv(self) -> bool {
        self.head + self.len <= self.frame@.len()
    }

    /// The whole frame's bytes.
    pub closed spec fn frame_bytes(self) -> Seq<u8> {
        self.frame@
    }

    /// Start of the packet window within the frame.
    pub closed spec fn spec_head(self) -> int {
        self.head as int
    }

    /// Length of the packet window.
    pub closed spec fn spec_len(self) -> int {
        self.len as int
    }

    /// The packet's bytes: the window into the frame.
    pub open spec fn bytes(self) -> Seq<u8> {
        self.frame_bytes().subrange(self.spec_head(), self.spec_head() + self.spec_len())
    }

    /// The frame's base address in the pool.
    pub closed spec fn spec_addr(self) -> u64 {
        self.addr
    }

    /// The action currently chosen for this packet.
    pub closed spec fn spec_action(self) -> Action {
        self.action
    }

    /// A packet over `frame`, with its bytes at `head..head + len` and the
    /// default action `Drop`.
    pub fn new(frame: Vec<u8>, head: usize, len: usize, addr: u64) -> (r: PacketRef)
        requires
            head + len <= frame@.len(),
        ensures
            r.frame_bytes() == frame@,
            r.spec_head() == head,
            r.spec_len() == len,
            r.spec_addr() == addr,
            r.spec_action() == Action::Drop,
    {
        PacketRef { frame, head, len, addr, action: Action::Drop }
    }

    /// The packet window as a borrowed slice.
    fn window(&self) -> (r: &[u8])
        ensures
            r@ == self.bytes(),
    {
        proof {
            use_type_invariant(self);
        }
        let n = self.frame.len();
        slice_subrange(self.frame.as_slice(), self.head, self.head + self.len)
    }

    /// The whole frame's bytes, borrowed.
    pub fn frame_data(&self) -> (r: &Vec<u8>)
        ensures
            r@ == self.frame_bytes(),
    {
        &self.frame
    }

    /// The packet's bytes, as a copy.
    pub fn data(&self) -> (r: Vec<u8>)
        ensures
            r@ == self.bytes(),
    {
        let s = self.window();
        let mut r: Vec<u8> = Vec::new();
        crate::proto::push_bytes(&mut r, s);
        r
    }

    /// Read one byte of the packet.
    pub fn byte_at(&self, i: usize) -> (r: u8)
        requires
            i < self.spec_len(),
        ensures
            r == self.bytes()[i as int],
    {
        proof {
            use_type_invariant(self);
        }
        let n = self.frame.len();
        self.frame[self.head + i]
    }

    /// Overwrite one byte of the packet in place.
    pub fn set_byte(&mut self, i: usize, b: u8)
        requires
            i < old(self).spec_len(),
        ensures
            final(self).bytes() == old(self).bytes().update(i as int, b),
            final(self).spec_head() == old(self).spec_head(),
            final(self).spec_len() == old(self).spec_len(),
            final(self).spec_addr() == old(self).spec_addr(),
            final(self).spec_action() == old(self).spec_action(),
            final(self).frame_bytes() == old(self).frame_bytes().update(
                old(self).spec_head() + i,
                b,
            ),
    {
        proof {
            use_type_invariant(&*self);
        }
        let n = self.frame.len();
        self.frame[self.head + i] = b;
        proof {
            assert(self.bytes() =~= old(self).bytes().update(i as int, b));
        }
    }

    /// Length of the packet's bytes.
    pub fn len(&self) -> (r: usize)
        ensures
            r == self.spec_len(),
    {
        self.len
    }

    /// Resize the packet window in place. The length is capped at the bytes
    /// the frame still has past `head`: a packet can never claim bytes
    /// outside its frame.
    pub fn set_len(&mut self, len: usize)
        ensures
            final(self).spec_len() == if len <= old(self).frame_bytes().len() - old(
                self,
            ).spec_head() {
                len as int
            } else {
                old(self).frame_bytes().len() - old(self).spec_head()
            },
            final(self).spec_head() == old(self).spec_head(),
            final(self).spec_addr() == old(self).spec_addr(),
            final(self).spec_action() == old(self).spec_action(),
            final(self).frame_bytes() == old(self).frame_bytes(),
    {
        proof {
            use_type_invariant(&*self);
        }
        let room = self.frame.len() - self.head;
        self.len = if len <= room {
            len
        } else {
            room
        };
    }

    /// Move the start of the packet window by `offset` bytes. A positive
    /// offset strips leading bytes (at most the packet's length; past that
    /// the packet becomes empty with its head unmoved). A negative offset
    /// grows the packet into the headroom before it, and is capped at the
    /// frame base: the window never leaves the frame.
    pub fn adjust_head(&mut self, offset: isize)
        ensures
            final(self).frame_bytes() == old(self).frame_bytes(),
            final(self).spec_addr() == old(self).spec_addr(),
            final(self).spec_action() == old(self).spec_action(),
            offset >= 0 && offset <= old(self).spec_len() ==> final(self).spec_head() == old(
                self,
            ).spec_head() + offset && final(self).spec_len() == old(self).spec_len() - offset,
            offset > old(self).spec_len() ==> final(self).spec_head() == old(self).spec_head()
                && final(self).spec_len() == 0,
            offset < 0 ==> {
                let back = if -offset <= old(self).spec_head() {
                    -offset
                } else {
                    old(self).spec_head()
                };
                final(self).spec_head() == old(self).spec_head() - back && final(self).spec_len()
                    == old(self).spec_len() + back
            },
    {
        proof {
            use_type_invariant(&*self);
        }
        let n = self.frame.len();
        if offset >= 0 {
            let off = offset as usize;
            if off <= self.len {
                self.len = self.len - off;
                self.head = self.head + off;
            } else {
                self.len = 0;
            }
        } else {
            let off: usize = if offset > isize::MIN {
                (-offset) as usize
            } else {
                (isize::MAX as usize) + 1
            };
            let back = if off <= self.head {
                off
            } else {
                self.head
            };
            self.head = self.head - back;
            self.len = self.len + back;
        }
    }

    /// Ask for this packet to be transmitted.
    pub fn send(&mut self)
        ensures
            final(self).spec_action() == Action::Tx,
            final(self).frame_bytes() == old(self).frame_bytes(),
            final(self).spec_head() == old(self).spec_head(),
            final(self).spec_len() == old(self).spec_len(),
            final(self).spec_addr() == old(self).spec_addr(),
    {
        proof {
            use_type_invariant(&*self);
        }
        self.action = Action::Tx;
    }

    /// Ask for this packet's frame to be recycled (the default).
    pub fn drop(&mut self)
        ensures
            final(self).spec_action() == Action::Drop,
            final(self).frame_bytes() == old(self).frame_bytes(),
            final(self).spec_head() == old(self).spec_head(),
            final(self).spec_len() == old(self).spec_len(),
            final(self).spec_addr() == old(self).spec_addr(),
    {
        proof {
            use_type_invariant(&*self);
        }
        self.action = Action::Drop;
    }

    /// The action currently chosen.
    pub fn action(&self) -> (r: Action)
        ensures
            r == self.spec_action(),
    {
        self.action
    }

    /// The frame's base address in the pool.
    pub fn addr(&self) -> (r: u64)
        ensures
            r == self.spec_addr(),
    {
        self.addr
    }

    /// The Ethernet header, when the packet holds one.
    pub fn ethernet(&self) -> (r: Option<EthHeader>)
        ensures
            r is Some <==> self.bytes().len() >= 14,
            r matches Some(h) ==> {
                &&& h.dst@ == self.bytes().subrange(0, 6)
                &&& h.src@ == self.bytes().subrange(6, 12)
                &&& h.eth_type == be16(self.bytes()[12], self.bytes()[13])
            },
    {
        let s = self.window();
        match crate::ethernet::parse_eth(s) {
            Some((h, _)) => Some(h),
            None => None,
        }
    }

    /// The IPv4 header, when an Ethernet frame carries one.
    pub fn ipv4(&self) -> (r: Option<Ipv4Header>)
        ensures
            r is Some <==> {
                let ip = self.bytes().skip(14);
                &&& self.bytes().len() >= 14
                &&& be16(self.bytes()[12], self.bytes()[13]) == 0x0800
                &&& ip.len() >= 20
                &&& ip.len() >= ipv4_header_len_of(ip[0])
            },
            r matches Some(h) ==> {
                let ip = self.bytes().skip(14);
                h == (Ipv4Header {
                    ver_ihl: ip[0],
                    tos: ip[1],
                    total_len: be16(ip[2], ip[3]) as u16,
                    id: be16(ip[4], ip[5]) as u16,
                    frag_off: be16(ip[6], ip[7]) as u16,
                    ttl: ip[8],
                    proto: ip[9],
                    check: be16(ip[10], ip[11]) as u16,
                    src: be32(ip[12], ip[13], ip[14], ip[15]) as u32,
                    dst: be32(ip[16], ip[17], ip[18], ip[19]) as u32,
                })
            },
    {
        let s = self.window();
        let (eth, ip_payload) = match crate::ethernet::parse_eth(s) {
            Some(p) => p,
            None => {
                return None;
            },
        };
        if eth.eth_type() != crate::ethernet::ETH_P_IP {
            return None;
        }
        match crate::ipv4::parse_ipv4(ip_payload) {
            Some((h, _)) => Some(h),
            None => None,
        }
    }

    /// The UDP header, when an IPv4 packet with protocol 17 carries one.
    pub fn udp(&self) -> (r: Option<UdpHeader>)
        ensures
            r is Some <==> {
                let ip = self.bytes().skip(14);
                let l4 = ip.skip(ipv4_header_len_of(ip[0]));
                &&& self.bytes().len() >= 14
                &&& be16(self.bytes()[12], self.bytes()[13]) == 0x0800
                &&& ip.len() >= 20
                &&& ip.len() >= ipv4_header_len_of(ip[0])
                &&& ip[9] == 17
                &&& l4.len() >= 8
            },
            r matches Some(h) ==> {
                let ip = self.bytes().skip(14);
                let l4 = ip.skip(ipv4_header_len_of(ip[0]));
                h == (UdpHeader {
                    src_port: be16(l4[0], l4[1]) as u16,
                    dst_port: be16(l4[2], l4[3]) as u16,
                    len: be16(l4[4], l4[5]) as u16,
                    check: be16(l4[6], l4[7]) as u16,
                })
            },
    {
        let s = self.window();
        let (eth, ip_payload) = match crate::ethernet::parse_eth(s) {
            Some(p) => p,
            None => {
                return None;
            },
        };
        if eth.eth_type() != crate::ethernet::ETH_P_IP {
            return None;
        }
        let (ip_header, l4_payload) = match crate::ipv4::parse_ipv4(ip_payload) {
            Some(p) => p,
            None => {
                return None;
            },
        };
        if ip_header.proto != 17 {
            return None;
        }
        match crate::udp::parse_udp(l4_payload) {
            Some((h, _)) => Some(h),
            None => None,
        }
    }

    /// The TCP header, when an IPv4 packet with protocol 6 carries one.
    pub fn tcp(&self) -> (r: Option<TcpHeader>)
        ensures
            r is Some <==> {
                let ip = self.bytes().skip(14);
                let l4 = ip.skip(ipv4_header_len_of(ip[0]));
                &&& self.bytes().len() >= 14
                &&& be16(self.bytes()[12], self.bytes()[13]) == 0x0800
                &&& ip.len() >= 20
                &&& ip.len() >= ipv4_header_len_of(ip[0])
                &&& ip[9] == 6
                &&& l4.len() >= 20
                &&& tcp_header_len_of(l4[12]) >= 20
                &&& l4.len() >= tcp_header_len_of(l4[12])
            },
            r matches Some(h) ==> {
                let ip = self.bytes().skip(14);
                let l4 = ip.skip(ipv4_header_len_of(ip[0]));
                h == (TcpHeader {
                    src_port: be16(l4[0], l4[1]) as u16,
                    dst_port: be16(l4[2], l4[3]) as u16,
                    seq: be32(l4[4], l4[5], l4[6], l4[7]) as u32,
                    ack: be32(l4[8], l4[9], l4[10], l4[11]) as u32,
                    data_off_res_flags: be16(l4[12], l4[13]) as u16,
                    window: be16(l4[14], l4[15]) as u16,
                    check: be16(l4[16], l4[17]) as u16,
                    urg_ptr: be16(l4[18], l4[19]) as u16,
                })
            },
    {
        let s = self.window();
        let (eth, ip_payload) = match crate::ethernet::parse_eth(s) {
            Some(p) => p,
            None => {
                return None;
            },
        };
        if eth.eth_type() != crate::ethernet::ETH_P_IP {
            return None;
        }
        let (ip_header, l4_payload) = match crate::ipv4::parse_ipv4(ip_payload) {
            Some(p) => p,
            None => {
                return None;
            },
        };
        if ip_header.proto != 6 {
            return None;
        }
        match crate::tcp::parse_tcp(l4_payload) {
            Some((h, _)) => Some(h),
            None => None,
        }
    }

    /// The ICMP header, when an IPv4 packet with protocol 1 carries one.
    pub fn icmp(&self) -> (r: Option<IcmpHeader>)
        ensures
            r is Some <==> {
                let ip = self.bytes().skip(14);
                let l4 = ip.skip(ipv4_header_len_of(ip[0]));
                &&& self.bytes().len() >= 14
                &&& be16(self.bytes()[12], self.bytes()[13]) == 0x0800
                &&& ip.len() >= 20
                &&& ip.len() >= ipv4_header_len_of(ip[0])
                &&& ip[9] == 1
                &&& l4.len() >= 4
            },
            r matches Some(h) ==> {
                let ip = self.bytes().skip(14);
                let l4 = ip.skip(ipv4_header_len_of(ip[0]));
                h == (IcmpHeader {
                    kind: l4[0],
                    code: l4[1],
                    check: be16(l4[2], l4[3]) as u16,
                })
            },
    {
        let s = self.window();
        let (eth, ip_payload) = match crate::ethernet::parse_eth(s) {
            Some(p) => p,
            None => {
                return None;
            },
        };
        if eth.eth_type() != crate::ethernet::ETH_P_IP {
            return None;
        }
        let (ip_header, l4_payload) = match crate::ipv4::parse_ipv4(ip_payload) {
            Some(p) => p,
            None => {
                return None;
            },
        };
        if ip_header.proto != 1 {
            return None;
        }
        match crate::icmp::parse_icmp(l4_payload) {
            Some((h, _)) => Some(h),
            None => None,
        }
    }
}

/// The packets of one batch cycle, in the order they were taken off RX.
pub struct PacketBatch {
    pkts: Vec<PacketRef>,
}

impl PacketBatch {
    /// The packets of the batch.
    pub closed spec fn packets(self) -> Seq<PacketRef> {
        self.pkts@
    }

    /// The actions of the batch, in packet order.
    pub open spec fn actions(self) -> Seq<Action> {
        Seq::new(self.packets().len(), |i: int| self.packets()[i].spec_action())
    }

    /// The frame addresses of the batch, in packet order.
    pub open spec fn addrs(self) -> Seq<u64> {
        Seq::new(self.packets().len(), |i: int| self.packets()[i].spec_addr())
    }

    /// A batch over the given packets, with every action reset to the
    /// default `Drop`: whatever a packet carried before, a batch starts
    /// with nothing claimed, so an untouched packet is recycled.
    pub fn new(pkts: Vec<PacketRef>) -> (r: PacketBatch)
        ensures
            r.packets().len() == pkts@.len(),
            forall|i: int|
                0 <= i < pkts@.len() ==> {
                    let p = #[trigger] r.packets()[i];
                    &&& p.spec_action() == Action::Drop
                    &&& p.frame_bytes() == pkts@[i].frame_bytes()
                    &&& p.spec_head() == pkts@[i].spec_head()
                    &&& p.spec_len() == pkts@[i].spec_len()
                    &&& p.spec_addr() == pkts@[i].spec_addr()
                },
    {
        let mut pkts = pkts;
        let ghost pkts0 = pkts@;
        let n = pkts.len();
        let mut i: usize = 0;
        while i < n
            invariant
                n == pkts@.len(),
                n == pkts0.len(),
                i <= n,
                forall|j: int| i <= j < n ==> #[trigger] pkts@[j] == pkts0[j],
                forall|j: int|
                    0 <= j < i ==> {
                        let p = #[trigger] pkts@[j];
                        &&& p.spec_action() == Action::Drop
                        &&& p.frame_bytes() == pkts0[j].frame_bytes()
                        &&& p.spec_head() == pkts0[j].spec_head()
                        &&& p.spec_len() == pkts0[j].spec_len()
                        &&& p.spec_addr() == pkts0[j].spec_addr()
                    },
            decreases n - i,
        {
            pkts[i].drop();
            i = i + 1;
        }
        PacketBatch { pkts }
    }

    /// Number of packets in the batch.
    pub fn len(&self) -> (r: usize)
        ensures
            r == self.packets().len(),
    {
        self.pkts.len()
    }

    /// Read access to the packet at `i`.
    pub fn packet(&self, i: usize) -> (r: &PacketRef)
        requires
            i < self.packets().len(),
        ensures
            *r == self.packets()[i as int],
    {
        &self.pkts[i]
    }

    /// Mutable access to the packet at `i`, to set its action, mutate its
    /// bytes, or move its window.
    pub fn packet_mut(&mut self, i: usize) -> (r: &mut PacketRef)
        requires
            i < old(self).packets().len(),
        ensures
            *r == old(self).packets()[i as int],
            final(self).packets() == old(self).packets().update(i as int, *final(r)),
    {
        &mut self.pkts[i]
    }
}

} // verus!
