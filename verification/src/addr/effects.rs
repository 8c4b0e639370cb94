//! What each call on an address does, byte by byte.

use vstd::prelude::*;

use crate::addr::pack::{
    is_inet, is_inet6, pack_unix, pack_v4, pack_v6, packed_family, unpack, unpack_v4, unpack_v6,
};
use crate::addr::socket::{AddressFamily, SockAddr, SocketAddrV4, SocketAddrV6};
use crate::addr::unix::{AddrError, UnixAddr};

verus! {

/// `out` holds the IPv4 address: family 2 in the first two bytes, lowest first,
/// then the port and the address, highest first, then zeros.
pub open spec fn laid_out_v4(out: Seq<u8>, addr: SocketAddrV4) -> bool {
    &&& out.len() == 128
    &&& out[0] == 2 && out[1] == 0
    &&& out[2] * 0x100 + out[3] == addr.port
    &&& forall|at: int| 0 <= at < 4 ==> #[trigger] addr.ip@[at] == out[4 + at]
    &&& forall|at: int| 8 <= at < 128 ==> #[trigger] out[at] == 0
}

/// `out` holds the IPv6 address: family 10 in the first two bytes, lowest first,
/// then the port, the flow information and the address, highest first, then the
/// scope, lowest first, then zeros.
pub open spec fn laid_out_v6(out: Seq<u8>, addr: SocketAddrV6) -> bool {
    &&& out.len() == 128
    &&& out[0] == 10 && out[1] == 0
    &&& out[2] * 0x100 + out[3] == addr.port
    &&& ((out[4] * 0x100 + out[5]) * 0x100 + out[6]) * 0x100 + out[7] == addr.flowinfo
    &&& forall|at: int| 0 <= at < 16 ==> #[trigger] addr.ip@[at] == out[8 + at]
    &&& out[24] + 0x100 * (out[25] + 0x100 * (out[26] + 0x100 * out[27])) == addr.scope_id
    &&& forall|at: int| 28 <= at < 128 ==> #[trigger] out[at] == 0
}

/// `out` holds the Unix address: family 1 in the first two bytes, lowest first,
/// then a path from byte 2 or an abstract name from byte 3, then zeros.
pub open spec fn laid_out_unix(out: Seq<u8>, addr: UnixAddr) -> bool {
    &&& out.len() == 128
    &&& out[0] == 1 && out[1] == 0
    &&& match addr {
        UnixAddr::Path { buf, len } => forall|at: int|
            2 <= at < 128 ==> #[trigger] out[at] == (if at < 2 + len {
                buf@[at - 2]
            } else {
                0
            }),
        UnixAddr::Abstract { buf, len } => out[2] == 0 && forall|at: int|
            3 <= at < 128 ==> #[trigger] out[at] == (if at < 3 + len {
                buf@[at - 3]
            } else {
                0
            }),
        UnixAddr::Unnamed => forall|at: int| 2 <= at < 128 ==> #[trigger] out[at] == 0,
    }
}

/// The length the system is told of an address.
pub open spec fn told_len(addr: SockAddr) -> int {
    match addr {
        SockAddr::V4(_) => 16,
        SockAddr::V6(_) => 28,
        SockAddr::Unix(UnixAddr::Path { buf, len }) => len + 3,
        SockAddr::Unix(UnixAddr::Abstract { buf, len }) => len + 3,
        SockAddr::Unix(UnixAddr::Unnamed) => 2,
    }
}

/// An address is packed as the system reads it, whatever the buffer held before,
/// with the length of its family; all three families, by themselves and through
/// the address that holds them.
pub proof fn an_address_is_packed_as_the_system_reads_it(
    v4: SocketAddrV4,
    v4_out: &mut [u8; 128],
    v4_len: u32,
    v6: SocketAddrV6,
    v6_out: &mut [u8; 128],
    v6_len: u32,
    unix: &UnixAddr,
    unix_out: &mut [u8; 128],
    unix_len: u32,
    addr: &SockAddr,
    out: &mut [u8; 128],
    len: u32,
)
    requires
        unix.wf(),
        addr.wf(),
        call_ensures(pack_v4, (v4, v4_out), v4_len),
        call_ensures(pack_v6, (v6, v6_out), v6_len),
        call_ensures(pack_unix, (unix, unix_out), unix_len),
        call_ensures(SockAddr::pack_into, (addr, out), len),
    ensures
        laid_out_v4(final(v4_out)@, v4) && v4_len == 16,
        laid_out_v6(final(v6_out)@, v6) && v6_len == 28,
        laid_out_unix(final(unix_out)@, *unix) && unix_len == told_len(SockAddr::Unix(*unix)),
        len == told_len(*addr),
        match *addr {
            SockAddr::V4(held) => laid_out_v4(final(out)@, held),
            SockAddr::V6(held) => laid_out_v6(final(out)@, held),
            SockAddr::Unix(held) => laid_out_unix(final(out)@, held),
        },
{
}

/// An address is read as the system wrote it: by its family, an IPv4 or an IPv6
/// address, and nothing else.
pub proof fn an_address_is_read_as_the_system_wrote_it(
    buf: &[u8],
    family: u16,
    inet: bool,
    inet6: bool,
    v4: SocketAddrV4,
    v6: SocketAddrV6,
    addr: Option<SockAddr>,
)
    requires
        buf@.len() == 128,
        call_ensures(packed_family, (buf,), family),
        call_ensures(is_inet, (family,), inet),
        call_ensures(is_inet6, (family,), inet6),
        call_ensures(unpack_v4, (buf,), v4),
        call_ensures(unpack_v6, (buf,), v6),
        call_ensures(unpack, (buf,), addr),
    ensures
        family == buf@[0] + 0x100 * buf@[1],
        inet <==> family == 2,
        inet6 <==> family == 10,
        v4.port == buf@[2] * 0x100 + buf@[3],
        forall|at: int| 0 <= at < 4 ==> #[trigger] v4.ip@[at] == buf@[4 + at],
        v6.port == buf@[2] * 0x100 + buf@[3],
        v6.flowinfo == ((buf@[4] * 0x100 + buf@[5]) * 0x100 + buf@[6]) * 0x100 + buf@[7],
        forall|at: int| 0 <= at < 16 ==> #[trigger] v6.ip@[at] == buf@[8 + at],
        v6.scope_id == buf@[24] + 0x100 * (buf@[25] + 0x100 * (buf@[26] + 0x100 * buf@[27])),
        inet ==> addr == Some(SockAddr::V4(v4)),
        inet6 ==> addr == Some(SockAddr::V6(v6)),
        !inet && !inet6 ==> addr is None,
{
    if let Some(SockAddr::V4(read)) = addr {
        assert(read.ip@ =~= v4.ip@);
        assert(read.ip =~= v4.ip);
    }
    if let Some(SockAddr::V6(read)) = addr {
        assert(read.ip@ =~= v6.ip@);
        assert(read.ip =~= v6.ip);
    }
}

/// What is packed is read back: the same IPv4 or IPv6 address, and none for a
/// Unix one.
pub proof fn a_packed_address_is_read_back(
    addr: &SockAddr,
    out: &mut [u8; 128],
    len: u32,
    buf: &[u8],
    read: Option<SockAddr>,
)
    requires
        addr.wf(),
        call_ensures(SockAddr::pack_into, (addr, out), len),
        buf@ == final(out)@,
        call_ensures(unpack, (buf,), read),
    ensures
        *addr is Unix ==> read is None,
        !(*addr is Unix) ==> read == Some(*addr),
{
    crate::addr::pack::unpacking_undoes_packing(*addr, read);
}

/// An address is of the family of what it holds.
pub proof fn an_address_has_the_family_it_holds(addr: &SockAddr, family: AddressFamily)
    requires
        call_ensures(SockAddr::family, (addr,), family),
    ensures
        *addr is V4 <==> family == AddressFamily::Inet,
        *addr is V6 <==> family == AddressFamily::Inet6,
        *addr is Unix <==> family == AddressFamily::Unix,
{
}

/// An address holds what it is made from.
pub proof fn an_address_holds_what_it_is_made_from(
    ip: [u8; 4],
    ip6: [u8; 16],
    port: u16,
    flowinfo: u32,
    scope_id: u32,
    v4: SocketAddrV4,
    v6: SocketAddrV6,
)
    requires
        call_ensures(SocketAddrV4::new, (ip, port), v4),
        call_ensures(SocketAddrV6::new, (ip6, port, flowinfo, scope_id), v6),
    ensures
        v4.ip == ip && v4.port == port,
        v6.ip == ip6 && v6.port == port && v6.flowinfo == flowinfo && v6.scope_id == scope_id,
{
}

/// A path or an abstract name of at most 107 bytes is kept whole, padded with
/// zeros, and read back by its own getter alone; a longer one is refused.
pub proof fn a_unix_name_is_kept_whole(
    name: &[u8],
    path: Result<UnixAddr, AddrError>,
    abstracted: Result<UnixAddr, AddrError>,
    addr: &UnixAddr,
    path_bytes: Option<&[u8]>,
    abstract_name: Option<&[u8]>,
)
    requires
        call_ensures(UnixAddr::path, (name,), path),
        call_ensures(UnixAddr::abstract_, (name,), abstracted),
        addr.wf(),
        call_ensures(UnixAddr::path_bytes, (addr,), path_bytes),
        call_ensures(UnixAddr::abstract_name, (addr,), abstract_name),
    ensures
        name@.len() > 107 ==> path == Err::<UnixAddr, AddrError>(AddrError::PathTooLong)
            && abstracted == Err::<UnixAddr, AddrError>(AddrError::AbstractTooLong),
        name@.len() <= 107 ==> {
            &&& path matches Ok(UnixAddr::Path { buf, len }) && len == name@.len() && forall|at: int|
                0 <= at < 107 ==> #[trigger] buf@[at] == (if at < len {
                    name@[at]
                } else {
                    0
                })
            &&& abstracted matches Ok(UnixAddr::Abstract { buf, len }) && len == name@.len()
                && forall|at: int|
                0 <= at < 107 ==> #[trigger] buf@[at] == (if at < len {
                    name@[at]
                } else {
                    0
                })
        },
        path == Ok::<UnixAddr, AddrError>(*addr) ==> (path_bytes matches Some(bytes) && bytes@
            == name@) && abstract_name is None,
        abstracted == Ok::<UnixAddr, AddrError>(*addr) ==> (abstract_name matches Some(bytes)
            && bytes@ == name@) && path_bytes is None,
        *addr is Unnamed ==> path_bytes is None && abstract_name is None,
{
    if name@.len() <= 107 {
        if let Ok(UnixAddr::Path { buf, len }) = path {
            assert forall|at: int| 0 <= at < len implies buf@[at] == name@[at] by {
                assert(buf@.take(len as int)[at] == buf@[at]);
            }
        }
        if let Ok(UnixAddr::Abstract { buf, len }) = abstracted {
            assert forall|at: int| 0 <= at < len implies buf@[at] == name@[at] by {
                assert(buf@.take(len as int)[at] == buf@[at]);
            }
        }
    }
}

/// An address error says which name was too long.
pub proof fn an_address_error_says_what_was_too_long(error: AddrError, text: &'static str)
    requires
        call_ensures(AddrError::message, (&error,), text),
    ensures
        error is PathTooLong ==> text@ == "unix path exceeds 107-byte sun_path limit"@,
        error is AbstractTooLong ==> text@ == "abstract name exceeds 107-byte limit"@,
{
}

} // verus!
