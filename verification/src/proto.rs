//! Shared pieces of the byte-level protocol decoders: big-endian views and
//! the Internet ones'-complement checksum.

use vstd::prelude::*;

verus! {

/// The 16-bit big-endian value of two bytes.
pub open spec fn be16(hi: u8, lo: u8) -> int {
    hi * 0x100 + lo
}

/// The 32-bit big-endian value of four bytes.
pub open spec fn be32(b0: u8, b1: u8, b2: u8, b3: u8) -> int {
    ((b0 * 0x100 + b1) * 0x100 + b2) * 0x100 + b3
}

/// Sum of the big-endian 16-bit words of `data` from index `i` on; a final
/// odd byte counts as the high half of a zero-padded word.
pub open spec fn sum16_from(data: Seq<u8>, i: int) -> int
    decreases data.len() - i when 0 <= i <= data.len()
{
    if i + 1 < data.len() {
        be16(data[i], data[i + 1]) + sum16_from(data, i + 2)
    } else if i + 1 == data.len() {
        data[i] * 0x100
    } else {
        0
    }
}

/// Sum of the big-endian 16-bit words of `data`.
pub open spec fn sum16(data: Seq<u8>) -> int {
    sum16_from(data, 0)
}

/// End-around-carry folding of a ones'-complement sum into 16 bits.
pub open spec fn fold16(sum: int) -> int
    decreases sum when sum >= 0
{
    if 0 <= sum < 0x10000 {
        sum
    } else if sum >= 0x10000 {
        fold16(sum % 0x10000 + sum / 0x10000)
    } else {
        0
    }
}

/// The Internet checksum of `data`: the ones' complement of the folded
/// word sum.
pub open spec fn checksum_of(data: Seq<u8>) -> int {
    0xFFFF - fold16(sum16(data))
}

/// The word sum over at most `0x10000` words fits a `u32`.
proof fn lemma_sum16_bound(data: Seq<u8>, i: int)
    requires
        0 <= i <= data.len(),
    ensures
        0 <= sum16_from(data, i) <= 0xFFFF * ((data.len() - i + 1) / 2),
    decreases data.len() - i,
{
    if i + 1 < data.len() {
        lemma_sum16_bound(data, i + 2);
    }
}

/// The folded sum always lands in `0..0x10000`.
proof fn lemma_fold16_bounds(sum: int)
    requires
        sum >= 0,
    ensures
        0 <= fold16(sum) < 0x10000,
    decreases sum,
{
    if sum >= 0x10000 {
        lemma_fold16_bounds(sum % 0x10000 + sum / 0x10000);
    }
}

/// High byte of a 16-bit value.
pub open spec fn hi8(x: u16) -> u8 {
    (x / 0x100) as u8
}

/// Low byte of a 16-bit value.
pub open spec fn lo8(x: u16) -> u8 {
    (x % 0x100) as u8
}

/// The four bytes of a 32-bit value, most significant first.
pub open spec fn u32_octets(x: u32) -> Seq<u8> {
    seq![
        (x / 0x100_0000) as u8,
        ((x / 0x1_0000) % 0x100) as u8,
        ((x / 0x100) % 0x100) as u8,
        (x % 0x100) as u8,
    ]
}

/// The 12-byte IPv4 pseudo-header that prefixes TCP and UDP checksums:
/// source and destination address, a zero byte, the protocol number, and
/// the segment length.
pub open spec fn pseudo_header_bytes(src: u32, dst: u32, proto: u8, seg_len: u16) -> Seq<u8> {
    u32_octets(src) + u32_octets(dst) + seq![0u8, proto, hi8(seg_len), lo8(seg_len)]
}

/// Append a 16-bit value in big-endian order.
pub fn push_u16_be(v: &mut Vec<u8>, x: u16)
    ensures
        final(v)@ == old(v)@ + seq![hi8(x), lo8(x)],
{
    v.push((x / 0x100) as u8);
    v.push((x % 0x100) as u8);
}

/// Append a 32-bit value in big-endian order.
pub fn push_u32_be(v: &mut Vec<u8>, x: u32)
    ensures
        final(v)@ == old(v)@ + u32_octets(x),
{
    v.push((x / 0x100_0000) as u8);
    v.push(((x / 0x1_0000) % 0x100) as u8);
    v.push(((x / 0x100) % 0x100) as u8);
    v.push((x % 0x100) as u8);
    proof {
        assert(v@ =~= old(v)@ + u32_octets(x));
    }
}

/// Append the IPv4 pseudo-header for a TCP or UDP checksum.
pub fn push_pseudo_header(v: &mut Vec<u8>, src: u32, dst: u32, proto: u8, seg_len: u16)
    ensures
        final(v)@ == old(v)@ + pseudo_header_bytes(src, dst, proto, seg_len),
{
    push_u32_be(v, src);
    push_u32_be(v, dst);
    v.push(0u8);
    v.push(proto);
    push_u16_be(v, seg_len);
    proof {
        assert(v@ =~= old(v)@ + pseudo_header_bytes(src, dst, proto, seg_len));
    }
}

/// Append a byte slice.
pub fn push_bytes(v: &mut Vec<u8>, data: &[u8])
    ensures
        final(v)@ == old(v)@ + data@,
{
    let mut i: usize = 0;
    while i < data.len()
        invariant
            i <= data@.len(),
            v@ == old(v)@ + data@.take(i as int),
        decreases data@.len() - i,
    {
        v.push(data[i]);
        i = i + 1;
        proof {
            assert(v@ =~= old(v)@ + data@.take(i as int));
        }
    }
    proof {
        assert(v@ =~= old(v)@ + data@);
    }
}

/// A borrowed view of a parsed header, measured in bytes of wire format.
pub trait PacketView {
    /// The number of bytes this header occupies on the wire.
    fn len(&self) -> usize;
}

/// The Internet checksum of `data`: sum the big-endian 16-bit words (a
/// trailing odd byte is zero-padded), fold the carries into 16 bits, and
/// complement. A segment whose stored checksum field is correct sums to
/// zero under this function.
pub fn checksum(data: &[u8]) -> (r: u16)
    requires
        data@.len() <= 0x20000,
    ensures
        r == checksum_of(data@),
{
    proof {
        lemma_sum16_bound(data@, 0);
    }
    let n = data.len();
    let mut sum: u32 = 0;
    let mut i: usize = 0;
    while i + 1 < n
        invariant
            n == data@.len() <= 0x20000,
            i <= n,
            i % 2 == 0,
            0 <= sum,
            sum + sum16_from(data@, i as int) == sum16_from(data@, 0),
            sum16_from(data@, i as int) <= 0xFFFF * ((n - i + 1) / 2),
            sum <= 0xFFFF * ((i + 1) / 2),
        decreases n - i,
    {
        proof {
            lemma_sum16_bound(data@, i + 2);
        }
        let word: u32 = (data[i] as u32) * 0x100 + (data[i + 1] as u32);
        sum = sum + word;
        i = i + 2;
    }
    if i < n {
        sum = sum + (data[i] as u32) * 0x100;
    }
    proof {
        assert(sum == sum16(data@));
        lemma_fold16_bounds(sum as int);
    }
    let ghost total = sum as int;
    while sum >= 0x10000
        invariant
            0 <= sum,
            fold16(sum as int) == fold16(total),
            total >= 0,
        decreases sum,
    {
        sum = (sum % 0x10000) + (sum / 0x10000);
    }
    proof {
        assert(fold16(sum as int) == sum as int);
    }
    let low: u16 = sum as u16;
    let r: u16 = !low;
    proof {
        assert(r == 0xFFFF - low) by (bit_vector)
            requires
                r == !low,
        ;
    }
    r
}

} // verus!
