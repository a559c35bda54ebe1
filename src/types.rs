use vstd::prelude::*;

use crate::fail::Fail;

verus! {

/// A queue descriptor: a dense integer naming a live queue.
#[derive(Clone, Copy, Debug, PartialEq, Eq, Structural, Hash)]
pub struct QDesc(pub u32);

/// A queue token: names one scheduled operation until its result is harvested.
#[derive(Clone, Copy, Debug, PartialEq, Eq, Structural, Hash)]
pub struct QToken(pub u64);

/// An IPv4 endpoint: the address in host order and the port.
#[derive(Clone, Copy, Debug, PartialEq, Eq, Structural, Hash)]
pub struct SocketAddrV4 {
    pub ip: u32,
    pub port: u16,
}

/// An endpoint of either address family.
#[derive(Clone, Copy, Debug, PartialEq, Eq, Structural)]
pub enum SocketAddr {
    V4(SocketAddrV4),
    V6 { ip: u128, port: u16 },
}

/// The communication domain asked of `socket`, as its raw family code where
/// it is neither IPv4 nor IPv6.
#[derive(Clone, Copy, Debug, PartialEq, Eq, Structural)]
pub enum Domain {
    Ipv4,
    Ipv6,
    Other(i32),
}

/// The socket type asked of `socket`, as its raw code where it is neither a
/// stream nor a datagram socket.
#[derive(Clone, Copy, Debug, PartialEq, Eq, Structural)]
pub enum Type {
    Stream,
    Dgram,
    Other(i32),
}

/// The unspecified IPv4 address, 0.0.0.0.
pub const IPV4_UNSPECIFIED: u32 = 0;

/// The IPv4 broadcast address, 255.255.255.255.
pub const IPV4_BROADCAST: u32 = 0xffff_ffff;

/// The largest backlog that `listen` takes.
pub const SOMAXCONN: usize = 4096;

/// The largest size that `pop` takes.
pub const POP_SIZE_MAX: usize = 9216;

/// The outcome of an operation, handed back when its token is harvested.
#[derive(Clone, Debug)]
pub enum OperationResult {
    Accept(QDesc, SocketAddrV4),
    Connect,
    Push,
    Pop(Option<SocketAddrV4>, Vec<u8>),
    Close,
    Failed(Fail),
}

impl OperationResult {
    /// Whether this is a failure carrying the given error number.
    pub open spec fn is_failed_with(self, errno: i32) -> bool {
        match self {
            OperationResult::Failed(e) => e.errno == errno,
            _ => false,
        }
    }
}

} // verus!
