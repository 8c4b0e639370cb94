//! Socket address type covering IPv4, IPv6, and Unix domain sockets.

use vstd::prelude::*;

use crate::addr::pack;
use crate::addr::unix::UnixAddr;

verus! {

/// IPv4 socket address.
#[derive(Clone, Copy, PartialEq, Eq, Hash)]
pub struct SocketAddrV4 {
    /// Address octets, most significant first.
    pub ip: [u8; 4],
    /// Port number.
    pub port: u16,
}

impl SocketAddrV4 {
    /// Pairs an address with a port.
    pub fn new(ip: [u8; 4], port: u16) -> (addr: Self)
        ensures
            addr.ip == ip,
            addr.port == port,
    {
        SocketAddrV4 { ip, port }
    }
}

/// IPv6 socket address.
#[derive(Clone, Copy, PartialEq, Eq, Hash)]
pub struct SocketAddrV6 {
    /// Address octets, most significant first.
    pub ip: [u8; 16],
    /// Port number.
    pub port: u16,
    /// Flow label and traffic class.
    pub flowinfo: u32,
    /// Scope of a link-local address.
    pub scope_id: u32,
}

impl SocketAddrV6 {
    /// Pairs an address with a port, flow information, and scope.
    pub fn new(ip: [u8; 16], port: u16, flowinfo: u32, scope_id: u32) -> (addr: Self)
        ensures
            addr.ip == ip,
            addr.port == port,
            addr.flowinfo == flowinfo,
            addr.scope_id == scope_id,
    {
        SocketAddrV6 { ip, port, flowinfo, scope_id }
    }
}

/// Socket address for `connect`, `sendmsg`, and `recvmsg` operations.
///
/// Wraps IPv4, IPv6, and Unix domain addresses in a single type.
#[derive(Clone, PartialEq, Eq, Hash)]
#[non_exhaustive]
pub enum SockAddr {
    /// IPv4 socket address.
    V4(SocketAddrV4),
    /// IPv6 socket address.
    V6(SocketAddrV6),
    /// Unix domain socket address (filesystem path, abstract, or unnamed).
    Unix(UnixAddr),
}

/// Address family discriminant.
#[derive(Debug, Clone, Copy, PartialEq, Eq, Hash, Structural)]
#[non_exhaustive]
pub enum AddressFamily {
    /// `AF_INET` - IPv4.
    Inet,
    /// `AF_INET6` - IPv6.
    Inet6,
    /// `AF_UNIX` - Unix domain socket.
    Unix,
}

impl SockAddr {
    /// A Unix address is well formed.
    pub open spec fn wf(&self) -> bool {
        self matches SockAddr::Unix(unix) ==> unix.wf()
    }

    /// The family of each variant.
    pub open spec fn spec_family(&self) -> AddressFamily {
        match self {
            SockAddr::V4(_) => AddressFamily::Inet,
            SockAddr::V6(_) => AddressFamily::Inet6,
            SockAddr::Unix(_) => AddressFamily::Unix,
        }
    }

    /// Packs the address into a POSIX `sockaddr_storage`-compatible buffer.
    ///
    /// Returns the number of valid bytes written, which must be passed as
    /// `addr_len` to the `io_uring` SQE. The buffer is zeroed before writing.
    ///
    /// | Variant | Bytes written | Standard           |
    /// |---------|---------------|--------------------|
    /// | V4      | 16            | `sockaddr_in`      |
    /// | V6      | 28            | `sockaddr_in6`     |
    /// | Unix    | 2 + path + 1  | `sockaddr_un`      |
    pub fn pack_into(&self, buf: &mut [u8; 128]) -> (len: u32)
        requires
            self.wf(),
        ensures
            len == pack::packed_len(*self),
            final(buf)@ == pack::packed(*self),
    {
        match self {
            SockAddr::V4(addr) => pack::pack_v4(*addr, buf),
            SockAddr::V6(addr) => pack::pack_v6(*addr, buf),
            SockAddr::Unix(addr) => pack::pack_unix(addr, buf),
        }
    }

    /// Address family discriminant for this address.
    pub fn family(&self) -> (family: AddressFamily)
        ensures
            family == self.spec_family(),
    {
        match self {
            SockAddr::V4(_) => AddressFamily::Inet,
            SockAddr::V6(_) => AddressFamily::Inet6,
            SockAddr::Unix(_) => AddressFamily::Unix,
        }
    }
}

} // verus!
