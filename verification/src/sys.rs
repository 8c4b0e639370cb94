//! The platform constants the library takes from `libc`.
//!
//! Each is read where it is defined. Its value is stated for Linux on x86-64
//! and AArch64; none of it is proved here.

use vstd::prelude::*;

verus! {

/// Reads `libc::AF_UNIX`, the Unix domain address family: 1 on Linux.
#[verifier::external_body]
pub(crate) fn af_unix() -> (family: i32)
    ensures
        family == 1,
{
    libc::AF_UNIX
}

/// Reads `libc::AF_INET`, the IPv4 address family: 2 on Linux.
#[verifier::external_body]
pub(crate) fn af_inet() -> (family: i32)
    ensures
        family == 2,
{
    libc::AF_INET
}

/// Reads `libc::AF_INET6`, the IPv6 address family: 10 on Linux.
#[verifier::external_body]
pub(crate) fn af_inet6() -> (family: i32)
    ensures
        family == 10,
{
    libc::AF_INET6
}

/// Reads `libc::SOCK_STREAM`, the stream socket type: 1 on Linux.
#[verifier::external_body]
pub(crate) fn sock_stream() -> (socket_type: i32)
    ensures
        socket_type == 1,
{
    libc::SOCK_STREAM
}

/// Reads `libc::SOCK_DGRAM`, the datagram socket type: 2 on Linux.
#[verifier::external_body]
pub(crate) fn sock_dgram() -> (socket_type: i32)
    ensures
        socket_type == 2,
{
    libc::SOCK_DGRAM
}

/// Reads `libc::SOCK_CLOEXEC`, the close-on-exec flag of a socket type:
/// 0x80000 on Linux.
#[verifier::external_body]
pub(crate) fn sock_cloexec() -> (flag: i32)
    ensures
        flag == 0x80000,
{
    libc::SOCK_CLOEXEC
}

/// Reads `libc::EIO`, the I/O error: 5 on Linux.
#[verifier::external_body]
pub(crate) fn eio() -> (errno: i32)
    ensures
        errno == 5,
{
    libc::EIO
}

/// Reads `libc::EAGAIN`, the error of an operation that would block: 11 on
/// Linux.
#[verifier::external_body]
pub(crate) fn eagain() -> (errno: i32)
    ensures
        errno == 11,
{
    libc::EAGAIN
}

/// Reads `libc::EINVAL`, the error of an invalid argument: 22 on Linux.
#[verifier::external_body]
pub(crate) fn einval() -> (errno: i32)
    ensures
        errno == 22,
{
    libc::EINVAL
}

} // verus!
