use vstd::prelude::*;

use crate::types::IPV4_BROADCAST;

verus! {

/// The transport protocols that the receive path dispatches to.
#[derive(Clone, Copy, Debug, PartialEq, Eq, Structural)]
pub enum IpProtocol {
    ICMPv4,
    TCP,
    UDP,
}

/// The protocol that an IPv4 protocol number names, if it is one of ours.
pub open spec fn protocol_of(n: u8) -> Option<IpProtocol> {
    if n == 1 {
        Some(IpProtocol::ICMPv4)
    } else if n == 6 {
        Some(IpProtocol::TCP)
    } else if n == 17 {
        Some(IpProtocol::UDP)
    } else {
        None
    }
}

/// A parsed IPv4 header. Addresses are in host order; `header_len` and
/// `total_len` are in bytes, so the payload is
/// `header_len..total_len` of the datagram.
#[derive(Clone, Copy, Debug, PartialEq, Eq, Structural)]
pub struct Ipv4Header {
    pub header_len: usize,
    pub dscp_ecn: u8,
    pub total_len: usize,
    pub identification: u16,
    /// The flags in the top three bits and the fragment offset in the rest.
    pub flags_fragment: u16,
    pub ttl: u8,
    pub protocol: IpProtocol,
    pub checksum: u16,
    pub src_addr: u32,
    pub dst_addr: u32,
}

/// The big-endian 16-bit word at `i`.
pub open spec fn be16(b: Seq<u8>, i: int) -> int {
    b[i] as int * 256 + b[i + 1] as int
}

/// The big-endian 32-bit word at `i`.
pub open spec fn be32(b: Seq<u8>, i: int) -> int {
    be16(b, i) * 65536 + be16(b, i + 2)
}

/// The sum of the first `n` big-endian 16-bit words.
pub open spec fn word_sum(b: Seq<u8>, n: nat) -> int
    decreases n,
{
    if n == 0 {
        0
    } else {
        word_sum(b, (n - 1) as nat) + be16(b, 2 * (n - 1))
    }
}

/// One carry fold of a ones'-complement sum.
pub open spec fn fold16(s: int) -> int {
    s % 65536 + s / 65536
}

/// The header length in bytes, from the first byte.
pub open spec fn ihl_bytes(b: Seq<u8>) -> int {
    (b[0] % 16) as int * 4
}

/// Whether `b` starts with a well-formed IPv4 header of a protocol that
/// is dispatched: version 4, a header of at least five words that fits,
/// a total length that covers the header and fits in `b`, a header
/// checksum whose ones'-complement sum is all ones, and a known protocol.
pub open spec fn header_valid(b: Seq<u8>) -> bool {
    &&& b.len() >= 20
    &&& b[0] / 16 == 4
    &&& b[0] % 16 >= 5
    &&& ihl_bytes(b) <= b.len()
    &&& ihl_bytes(b) <= be16(b, 2) <= b.len()
    &&& fold16(fold16(word_sum(b, (ihl_bytes(b) / 2) as nat))) == 65535
    &&& protocol_of(b[9]) is Some
}

/// The header that a valid `b` starts with.
pub open spec fn header_of(b: Seq<u8>) -> Ipv4Header {
    Ipv4Header {
        header_len: ihl_bytes(b) as usize,
        dscp_ecn: b[1],
        total_len: be16(b, 2) as usize,
        identification: be16(b, 4) as u16,
        flags_fragment: be16(b, 6) as u16,
        ttl: b[8],
        protocol: protocol_of(b[9])->Some_0,
        checksum: be16(b, 10) as u16,
        src_addr: be32(b, 12) as u32,
        dst_addr: be32(b, 16) as u32,
    }
}

proof fn lemma_word_sum_bound(b: Seq<u8>, n: nat)
    requires
        2 * n <= b.len(),
    ensures
        0 <= word_sum(b, n) <= n * 65535,
    decreases n,
{
    if n > 0 {
        lemma_word_sum_bound(b, (n - 1) as nat);
    }
}

fn read_be16(b: &[u8], i: usize) -> (r: u16)
    requires
        i <= 60,
        i + 1 < b@.len(),
    ensures
        r as int == be16(b@, i as int),
{
    (b[i] as u16) * 256 + (b[i + 1] as u16)
}

fn read_be32(b: &[u8], i: usize) -> (r: u32)
    requires
        i <= 16,
        i + 3 < b@.len(),
    ensures
        r as int == be32(b@, i as int),
{
    let hi = read_be16(b, i);
    let lo = read_be16(b, i + 2);
    (hi as u32) * 65536 + (lo as u32)
}

fn fold(s: u32) -> (r: u32)
    requires
        s < 0x1000_0000,
    ensures
        r as int == fold16(s as int),
{
    s % 65536 + s / 65536
}

/// Whether the first `len` bytes of `b`, an even number, sum to all ones
/// in ones'-complement arithmetic.
fn checksum_valid(b: &[u8], len: usize) -> (r: bool)
    requires
        len <= 60,
        len % 2 == 0,
        len <= b@.len(),
    ensures
        r == (fold16(fold16(word_sum(b@, (len / 2) as nat))) == 65535),
{
    let n: usize = len / 2;
    let mut sum: u32 = 0;
    let mut i: usize = 0;
    while i < n
        invariant
            n == len / 2,
            len <= 60,
            len <= b@.len(),
            i <= n,
            sum as int == word_sum(b@, i as nat),
            sum <= i * 65535,
        decreases n - i,
    {
        proof {
            lemma_word_sum_bound(b@, i as nat);
        }
        let w = read_be16(b, 2 * i);
        sum = sum + (w as u32);
        i = i + 1;
    }
    let once = fold(sum);
    let twice = fold(once);
    twice == 65535
}

/// Parses the IPv4 header at the start of `buf`; `None` where it is
/// malformed or carries a protocol that is not dispatched.
pub fn parse_header(buf: &[u8]) -> (r: Option<Ipv4Header>)
    ensures
        r == (if header_valid(buf@) {
            Some(header_of(buf@))
        } else {
            None
        }),
{
    if buf.len() < 20 {
        return None;
    }
    let version = buf[0] / 16;
    let ihl = buf[0] % 16;
    if version != 4 || ihl < 5 {
        return None;
    }
    let header_len: usize = (ihl as usize) * 4;
    if header_len > buf.len() {
        return None;
    }
    let total_len = read_be16(buf, 2) as usize;
    if total_len < header_len || total_len > buf.len() {
        return None;
    }
    if !checksum_valid(buf, header_len) {
        return None;
    }
    let protocol = if buf[9] == 1 {
        IpProtocol::ICMPv4
    } else if buf[9] == 6 {
        IpProtocol::TCP
    } else if buf[9] == 17 {
        IpProtocol::UDP
    } else {
        return None;
    };
    Some(
        Ipv4Header {
            header_len,
            dscp_ecn: buf[1],
            total_len,
            identification: read_be16(buf, 4),
            flags_fragment: read_be16(buf, 6),
            ttl: buf[8],
            protocol,
            checksum: read_be16(buf, 10),
            src_addr: read_be32(buf, 12),
            dst_addr: read_be32(buf, 16),
        },
    )
}

/// Where the receive path sends a datagram: to one protocol engine, with
/// its header, or nowhere.
#[derive(Clone, Copy, Debug, PartialEq, Eq, Structural)]
pub enum Delivery {
    Icmpv4(Ipv4Header),
    Tcp(Ipv4Header),
    Udp(Ipv4Header),
    Dropped,
}

/// Where a datagram `b` goes on a host whose address is `local`.
pub open spec fn delivery_of(local: u32, b: Seq<u8>) -> Delivery {
    if !header_valid(b) {
        Delivery::Dropped
    } else {
        let h = header_of(b);
        if h.dst_addr != local && h.dst_addr != IPV4_BROADCAST {
            Delivery::Dropped
        } else {
            match h.protocol {
                IpProtocol::ICMPv4 => Delivery::Icmpv4(h),
                IpProtocol::TCP => Delivery::Tcp(h),
                IpProtocol::UDP => Delivery::Udp(h),
            }
        }
    }
}

/// The IPv4 layer of a host: its address, in host order.
pub struct Peer {
    local_ipv4_addr: u32,
}

impl Peer {
    /// The local address.
    pub closed spec fn local(&self) -> u32 {
        self.local_ipv4_addr
    }

    /// The IPv4 layer of the host with address `local_ipv4_addr`.
    pub fn new(local_ipv4_addr: u32) -> (r: Peer)
        ensures
            r.local() == local_ipv4_addr,
    {
        Peer { local_ipv4_addr }
    }

    /// Classifies an inbound datagram: a malformed header, a destination
    /// that is neither this host nor broadcast, or an unknown protocol drops
    /// it; otherwise it goes to the engine of its protocol.
    pub fn receive(&self, buf: &[u8]) -> (r: Delivery)
        ensures
            r == delivery_of(self.local(), buf@),
    {
        let header = match parse_header(buf) {
            Some(h) => h,
            None => {
                return Delivery::Dropped;
            },
        };
        if header.dst_addr != self.local_ipv4_addr && header.dst_addr != IPV4_BROADCAST {
            return Delivery::Dropped;
        }
        match header.protocol {
            IpProtocol::ICMPv4 => Delivery::Icmpv4(header),
            IpProtocol::TCP => Delivery::Tcp(header),
            IpProtocol::UDP => Delivery::Udp(header),
        }
    }
}

} // verus!
