//! Raw `sockaddr_storage` packing, used by SQE submission.
//!
//! The family is stored in host byte order, little-endian on every supported
//! target; ports and flow information in network order.

use vstd::prelude::*;

use crate::addr::socket::{SockAddr, SocketAddrV4, SocketAddrV6};
use crate::addr::unix::UnixAddr;
use crate::sys;

verus! {

/// Bytes in a `sockaddr_storage`.
pub const STORAGE_LEN: usize = 128;

/// `AF_UNIX`, as packed addresses carry it.
pub const AF_UNIX: u16 = 1;

/// `AF_INET`, as packed addresses carry it.
pub const AF_INET: u16 = 2;

/// `AF_INET6`, as packed addresses carry it.
pub const AF_INET6: u16 = 10;

/// `value` in two bytes, least significant first.
pub open spec fn host16(value: u16) -> Seq<u8> {
    seq![(value % 0x100) as u8, (value / 0x100) as u8]
}

/// `value` in two bytes, most significant first.
pub open spec fn net16(value: u16) -> Seq<u8> {
    seq![(value / 0x100) as u8, (value % 0x100) as u8]
}

/// `value` in four bytes, least significant first.
pub open spec fn host32(value: u32) -> Seq<u8> {
    host16((value % 0x1_0000) as u16) + host16((value / 0x1_0000) as u16)
}

/// `value` in four bytes, most significant first.
pub open spec fn net32(value: u32) -> Seq<u8> {
    net16((value / 0x1_0000) as u16) + net16((value % 0x1_0000) as u16)
}

/// A `sockaddr_storage` that holds `front` and zeros behind it.
pub open spec fn storage_of(front: Seq<u8>) -> Seq<u8> {
    Seq::new(
        STORAGE_LEN as nat,
        |at: int|
            if at < front.len() {
                front[at]
            } else {
                0u8
            },
    )
}

/// The fields of a `sockaddr_in`, in order.
pub open spec fn v4_fields(addr: SocketAddrV4) -> Seq<u8> {
    host16(AF_INET) + net16(addr.port) + addr.ip@
}

/// The fields of a `sockaddr_in6`, in order.
pub open spec fn v6_fields(addr: SocketAddrV6) -> Seq<u8> {
    host16(AF_INET6) + net16(addr.port) + net32(addr.flowinfo) + addr.ip@ + host32(addr.scope_id)
}

/// The fields of a `sockaddr_un`: the family, then the path, or a zero byte and
/// the abstract name, or nothing.
pub open spec fn unix_fields(addr: UnixAddr) -> Seq<u8> {
    match addr {
        UnixAddr::Path { buf, len } => host16(AF_UNIX) + buf@.take(len as int),
        UnixAddr::Abstract { buf, len } => host16(AF_UNIX) + seq![0u8] + buf@.take(len as int),
        UnixAddr::Unnamed => host16(AF_UNIX),
    }
}

/// Bytes of a packed Unix address that count: a path with its terminator, an
/// abstract name with the zero byte before it, or the family alone.
pub open spec fn unix_len(addr: UnixAddr) -> int {
    match addr {
        UnixAddr::Path { buf, len } => 2 + len + 1,
        UnixAddr::Abstract { buf, len } => 2 + 1 + len,
        UnixAddr::Unnamed => 2,
    }
}

/// The packed bytes of an address.
pub open spec fn packed(addr: SockAddr) -> Seq<u8> {
    match addr {
        SockAddr::V4(v4) => storage_of(v4_fields(v4)),
        SockAddr::V6(v6) => storage_of(v6_fields(v6)),
        SockAddr::Unix(unix) => storage_of(unix_fields(unix)),
    }
}

/// Bytes of a packed address that count.
pub open spec fn packed_len(addr: SockAddr) -> int {
    match addr {
        SockAddr::V4(_) => 16,
        SockAddr::V6(_) => 28,
        SockAddr::Unix(unix) => unix_len(unix),
    }
}

/// Writes `bytes` at `at` and on.
fn put(out: &mut [u8; 128], at: usize, bytes: &[u8])
    requires
        at + bytes@.len() <= 128,
    ensures
        forall|index: int|
            0 <= index < 128 ==> #[trigger] final(out)@[index] == (if at <= index < at
                + bytes@.len() {
                bytes@[index - at]
            } else {
                old(out)@[index]
            }),
{
    let mut done: usize = 0;
    while done < bytes.len()
        invariant
            done <= bytes@.len(),
            at + bytes@.len() <= 128,
            forall|index: int|
                0 <= index < 128 ==> #[trigger] out@[index] == (if at <= index < at + done {
                    bytes@[index - at]
                } else {
                    old(out)@[index]
                }),
        decreases bytes@.len() - done,
    {
        out[at + done] = bytes[done];
        done = done + 1;
    }
}

/// Writes `value` at `at` in two bytes, least significant first.
fn put_host16(out: &mut [u8; 128], at: usize, value: u16)
    requires
        at + 2 <= 128,
    ensures
        final(out)@ == old(out)@.update(at as int, host16(value)[0]).update(
            at + 1,
            host16(value)[1],
        ),
{
    out[at] = (value % 0x100) as u8;
    out[at + 1] = (value / 0x100) as u8;
}

/// Writes `value` at `at` in two bytes, most significant first.
fn put_net16(out: &mut [u8; 128], at: usize, value: u16)
    requires
        at + 2 <= 128,
    ensures
        final(out)@ == old(out)@.update(at as int, net16(value)[0]).update(
            at + 1,
            net16(value)[1],
        ),
{
    out[at] = (value / 0x100) as u8;
    out[at + 1] = (value % 0x100) as u8;
}

/// Packs an IPv4 address into a `sockaddr_storage`-compatible buffer.
///
/// Writes a `sockaddr_in` at `out[0..16]` and returns 16 (the `addr_len` for
/// the SQE).
pub fn pack_v4(addr: SocketAddrV4, out: &mut [u8; 128]) -> (len: u32)
    ensures
        len == 16,
        final(out)@ == storage_of(v4_fields(addr)),
{
    *out = [0u8; 128];
    put_host16(out, 0, sys::af_inet() as u16);
    put_net16(out, 2, addr.port);
    put(out, 4, addr.ip.as_slice());
    assert(out@ =~= storage_of(v4_fields(addr)));
    16
}

/// Packs an IPv6 address into a `sockaddr_storage`-compatible buffer.
///
/// Writes a `sockaddr_in6` at `out[0..28]` and returns 28.
pub fn pack_v6(addr: SocketAddrV6, out: &mut [u8; 128]) -> (len: u32)
    ensures
        len == 28,
        final(out)@ == storage_of(v6_fields(addr)),
{
    *out = [0u8; 128];
    put_host16(out, 0, sys::af_inet6() as u16);
    put_net16(out, 2, addr.port);
    put_net16(out, 4, (addr.flowinfo / 0x1_0000) as u16);
    put_net16(out, 6, (addr.flowinfo % 0x1_0000) as u16);
    put(out, 8, addr.ip.as_slice());
    put_host16(out, 24, (addr.scope_id % 0x1_0000) as u16);
    put_host16(out, 26, (addr.scope_id / 0x1_0000) as u16);
    assert(out@ =~= storage_of(v6_fields(addr)));
    28
}

/// Packs a Unix domain socket address into a `sockaddr_storage`-compatible
/// buffer.
///
/// Returns the number of bytes written as `addr_len` for the SQE.
///
/// | Variant  | Layout                               | `addr_len`     |
/// |----------|--------------------------------------|----------------|
/// | Path     | `sun_family` + path bytes + `\0`     | `2 + len + 1`  |
/// | Abstract | `sun_family` + `\0` + name bytes     | `2 + 1 + len`  |
/// | Unnamed  | `sun_family` only                    | `2`            |
pub fn pack_unix(addr: &UnixAddr, out: &mut [u8; 128]) -> (len: u32)
    requires
        addr.wf(),
    ensures
        len == unix_len(*addr),
        final(out)@ == storage_of(unix_fields(*addr)),
{
    *out = [0u8; 128];
    put_host16(out, 0, sys::af_unix() as u16);
    let len: u32 = match addr {
        UnixAddr::Path { buf, len } => {
            put(out, 2, vstd::slice::slice_subrange(buf.as_slice(), 0, *len as usize));
            2 + *len as u32 + 1
        },
        UnixAddr::Abstract { buf, len } => {
            put(out, 3, vstd::slice::slice_subrange(buf.as_slice(), 0, *len as usize));
            2 + 1 + *len as u32
        },
        UnixAddr::Unnamed => 2,
    };
    assert(out@ =~= storage_of(unix_fields(*addr)));
    len
}

/// Reads the family a packed buffer carries at `buf[0..2]`.
pub fn packed_family(buf: &[u8]) -> (family: u16)
    requires
        buf@.len() == STORAGE_LEN,
    ensures
        family == family_in(buf@),
{
    buf[0] as u16 + 0x100 * (buf[1] as u16)
}

/// Whether `family` is the `AF_INET` (IPv4) discriminant.
pub fn is_inet(family: u16) -> (flag: bool)
    ensures
        flag == (family == AF_INET),
{
    family == sys::af_inet() as u16
}

/// Whether `family` is the `AF_INET6` (IPv6) discriminant.
pub fn is_inet6(family: u16) -> (flag: bool)
    ensures
        flag == (family == AF_INET6),
{
    family == sys::af_inet6() as u16
}

/// Reconstructs an IPv4 address from a [`pack_v4`]-packed buffer.
pub fn unpack_v4(buf: &[u8]) -> (addr: SocketAddrV4)
    requires
        buf@.len() == STORAGE_LEN,
    ensures
        holds_v4(buf@, addr),
{
    let port: u16 = buf[2] as u16 * 0x100 + buf[3] as u16;
    let ip: [u8; 4] = [buf[4], buf[5], buf[6], buf[7]];
    assert(ip@ =~= buf@.subrange(4, 8));
    SocketAddrV4 { ip, port }
}

/// Reconstructs an IPv6 address from a [`pack_v6`]-packed buffer.
pub fn unpack_v6(buf: &[u8]) -> (addr: SocketAddrV6)
    requires
        buf@.len() == STORAGE_LEN,
    ensures
        holds_v6(buf@, addr),
{
    let port: u16 = buf[2] as u16 * 0x100 + buf[3] as u16;
    let flowinfo: u32 = ((buf[4] as u32 * 0x100 + buf[5] as u32) * 0x100 + buf[6] as u32) * 0x100
        + buf[7] as u32;
    let scope_id: u32 = buf[24] as u32 + 0x100 * (buf[25] as u32 + 0x100 * (buf[26] as u32 + 0x100
        * (buf[27] as u32)));
    let mut ip: [u8; 16] = [0u8; 16];
    let mut done: usize = 0;
    while done < 16
        invariant
            done <= 16,
            buf@.len() == STORAGE_LEN,
            forall|at: int| 0 <= at < done ==> ip@[at] == buf@[8 + at],
        decreases 16 - done,
    {
        ip[done] = buf[8 + done];
        done = done + 1;
    }
    assert(ip@ =~= buf@.subrange(8, 24));
    SocketAddrV6 { ip, port, flowinfo, scope_id }
}

/// Reads the IPv4 or IPv6 address a packed buffer holds, or `None` for any
/// other family.
pub fn unpack(buf: &[u8]) -> (addr: Option<SockAddr>)
    requires
        buf@.len() == STORAGE_LEN,
    ensures
        unpacks_to(buf@, addr),
{
    let family: u16 = packed_family(buf);
    if is_inet(family) {
        Some(SockAddr::V4(unpack_v4(buf)))
    } else if is_inet6(family) {
        Some(SockAddr::V6(unpack_v6(buf)))
    } else {
        None
    }
}

/// The family a packed buffer carries.
pub open spec fn family_in(buf: Seq<u8>) -> int {
    buf[0] + 0x100 * buf[1]
}

/// Whether the `sockaddr_in` fields of `buf` are those of `addr`.
pub open spec fn holds_v4(buf: Seq<u8>, addr: SocketAddrV4) -> bool {
    &&& addr.port == buf[2] * 0x100 + buf[3]
    &&& addr.ip@ == buf.subrange(4, 8)
}

/// Whether the `sockaddr_in6` fields of `buf` are those of `addr`.
pub open spec fn holds_v6(buf: Seq<u8>, addr: SocketAddrV6) -> bool {
    &&& addr.port == buf[2] * 0x100 + buf[3]
    &&& addr.flowinfo == ((buf[4] * 0x100 + buf[5]) * 0x100 + buf[6]) * 0x100 + buf[7]
    &&& addr.ip@ == buf.subrange(8, 24)
    &&& addr.scope_id == buf[24] + 0x100 * (buf[25] + 0x100 * (buf[26] + 0x100 * buf[27]))
}

/// Whether `addr` is what a packed buffer holds: the IPv4 or IPv6 address its
/// family announces, or `None` for any other family.
pub open spec fn unpacks_to(buf: Seq<u8>, addr: Option<SockAddr>) -> bool {
    if family_in(buf) == AF_INET {
        addr matches Some(SockAddr::V4(v4)) && holds_v4(buf, v4)
    } else if family_in(buf) == AF_INET6 {
        addr matches Some(SockAddr::V6(v6)) && holds_v6(buf, v6)
    } else {
        addr is None
    }
}

/// A packed IPv4 or IPv6 address unpacks to itself and to nothing else; a
/// packed Unix address does not unpack.
pub proof fn unpacking_undoes_packing(addr: SockAddr, other: Option<SockAddr>)
    ensures
        unpacks_to(packed(addr), other) <==> other == (match addr {
            SockAddr::Unix(_) => None::<SockAddr>,
            _ => Some(addr),
        }),
{
    let buf = packed(addr);
    match addr {
        SockAddr::V4(v4) => {
            assert(buf.subrange(4, 8) =~= v4.ip@);
            assert(holds_v4(buf, v4));
            if let Some(SockAddr::V4(read)) = other {
                if holds_v4(buf, read) {
                    assert(read.ip =~= v4.ip);
                }
            }
        },
        SockAddr::V6(v6) => {
            assert(buf.subrange(8, 24) =~= v6.ip@);
            assert(holds_v6(buf, v6));
            if let Some(SockAddr::V6(read)) = other {
                if holds_v6(buf, read) {
                    assert(read.ip =~= v6.ip);
                }
            }
        },
        SockAddr::Unix(unix) => {
            assert(family_in(buf) == AF_UNIX);
        },
    }
}

/// A packed address is a whole `sockaddr_storage`, zero past the bytes that
/// count.
pub proof fn packing_zeroes_the_rest(addr: SockAddr, at: int)
    requires
        addr matches SockAddr::Unix(unix) ==> unix.wf(),
        packed_len(addr) <= at < STORAGE_LEN,
    ensures
        packed(addr).len() == STORAGE_LEN,
        2 <= packed_len(addr) <= 110,
        packed(addr)[at] == 0,
{
}

} // verus!
