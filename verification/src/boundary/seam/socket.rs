//! Creating and adopting the file descriptors the seam hands out.
//!
//! The syscalls run outside; here stands what is asked of them, and what their
//! results mean.

use vstd::prelude::*;

use crate::addr::AddressFamily;
use crate::error::IoError;
use crate::sys;

verus! {

/// Error number of an operation that would block.
pub const EAGAIN: i32 = 11;

/// Error number of an invalid argument.
pub const EINVAL: i32 = 22;

/// Error number of an I/O error, reported where the system gave none.
pub const EIO: i32 = 5;

/// Flags of a receive attempt: it does not wait.
pub const RECV_FLAGS: i32 = 0x40;

/// Flags of a send attempt: it does not wait, and a closed peer is an error
/// rather than a signal.
pub const SEND_FLAGS: i32 = 0x4040;

/// The result of one nonblocking readiness attempt.
#[derive(Debug, Clone, Copy, PartialEq, Eq, Structural)]
pub enum Attempt {
    /// The syscall transferred this many bytes; its duplicate is closed.
    Done(u32),
    /// The syscall failed with this negative errno; its duplicate is closed.
    Failed(i32),
    /// The operation must wait; this duplicate owns the retry descriptor.
    WouldBlock(i32),
}

/// The result of retrying a deferred readiness operation.
#[derive(Debug, Clone, Copy, PartialEq, Eq, Structural)]
pub enum Retry {
    /// The syscall transferred this many bytes.
    Done(u32),
    /// The syscall failed with this negative errno.
    Failed(i32),
    /// The operation must keep waiting on its retained descriptor.
    WouldBlock,
}

/// What a `recv` or `send` result means, with `errno` the error the system
/// reported for a negative one.
pub open spec fn retry_meaning(result: isize, errno: Option<i32>) -> Retry {
    if result > u32::MAX {
        Retry::Failed((-EINVAL) as i32)
    } else if result >= 0 {
        Retry::Done(result as u32)
    } else {
        match errno {
            Some(code) => if code == EAGAIN {
                Retry::WouldBlock
            } else {
                Retry::Failed((-code) as i32)
            },
            None => Retry::Failed((-EIO) as i32),
        }
    }
}

/// What the result of an attempt through the duplicate `descriptor` means.
pub open spec fn attempt_meaning(descriptor: i32, result: isize, errno: Option<i32>) -> Attempt {
    match retry_meaning(result, errno) {
        Retry::Done(count) => Attempt::Done(count),
        Retry::Failed(code) => Attempt::Failed(code),
        Retry::WouldBlock => Attempt::WouldBlock(descriptor),
    }
}

/// Reads the result of a nonblocking attempt through the duplicate
/// `descriptor`, which only an attempt that must wait keeps.
pub fn attempt_result(descriptor: i32, result: isize, errno: Option<i32>) -> (attempt: Attempt)
    requires
        errno matches Some(code) ==> code > i32::MIN,
    ensures
        attempt == attempt_meaning(descriptor, result, errno),
{
    match retry_result(result, errno) {
        Retry::Done(count) => Attempt::Done(count),
        Retry::Failed(code) => Attempt::Failed(code),
        Retry::WouldBlock => Attempt::WouldBlock(descriptor),
    }
}

/// Reads the result of retrying a deferred operation.
pub fn retry_result(result: isize, errno: Option<i32>) -> (retry: Retry)
    requires
        errno matches Some(code) ==> code > i32::MIN,
    ensures
        retry == retry_meaning(result, errno),
{
    if result >= 0 {
        if result as u64 > u32::MAX as u64 {
            return Retry::Failed(-sys::einval());
        }
        return Retry::Done(result as u32);
    }
    match errno {
        Some(code) => {
            if code == sys::eagain() {
                Retry::WouldBlock
            } else {
                Retry::Failed(-code)
            }
        },
        None => Retry::Failed(-sys::eio()),
    }
}

/// The descriptor an accept completion brought, or `None` for a negative
/// result -- an `-errno`, not a descriptor.
///
/// A nonnegative accept result names a descriptor the kernel just created for
/// this process, with no other owner; whoever adopts it closes it.
pub fn adopt_accepted_fd(result: i32) -> (fd: Option<i32>)
    ensures
        fd == accepted_fd(result),
{
    if result < 0 {
        return None;
    }
    Some(result)
}

/// The descriptor an accept completion brought.
pub open spec fn accepted_fd(result: i32) -> Option<i32> {
    if result < 0 {
        None
    } else {
        Some(result)
    }
}

/// What to ask the `socket` syscall for.
#[derive(Debug, Clone, Copy, PartialEq, Eq, Structural)]
pub struct SocketRequest {
    /// Address family.
    pub domain: i32,
    /// Socket type with its creation flags.
    pub socket_type: i32,
    /// Protocol; zero picks the default of the type.
    pub protocol: i32,
}

/// Flag that closes a socket on `exec`.
pub const SOCK_CLOEXEC: i32 = 0x80000;

/// Stream socket type.
pub const SOCK_STREAM: i32 = 1;

/// Datagram socket type.
pub const SOCK_DGRAM: i32 = 2;

/// The close-on-exec socket of `socket_type` for `family`, or why there is
/// none.
pub open spec fn socket_for(family: AddressFamily, socket_type: i32) -> Result<
    SocketRequest,
    IoError,
> {
    match family {
        AddressFamily::Inet => Ok(
            SocketRequest { domain: 2, socket_type: socket_type | SOCK_CLOEXEC, protocol: 0 },
        ),
        AddressFamily::Inet6 => Ok(
            SocketRequest { domain: 10, socket_type: socket_type | SOCK_CLOEXEC, protocol: 0 },
        ),
        AddressFamily::Unix => Err(IoError::UnsupportedFamily),
    }
}

/// Asks for an unconnected, close-on-exec socket of `socket_type` for `family`.
///
/// Shared by the stream and datagram constructors: a client-side op (connect,
/// sendmsg) needs an owned socket of the peer's address family before the
/// `io_uring` op runs. The descriptor is left blocking; the op is submitted as
/// a completion rather than a blocking syscall on this fd.
///
/// # Errors
///
/// Returns [`IoError::UnsupportedFamily`] for `AddressFamily::Unix` (only IPv4
/// and IPv6 are supported here).
pub fn create_socket(family: AddressFamily, socket_type: i32) -> (outcome: Result<
    SocketRequest,
    IoError,
>)
    ensures
        outcome == socket_for(family, socket_type),
{
    let domain: i32 = match family {
        AddressFamily::Inet => sys::af_inet(),
        AddressFamily::Inet6 => sys::af_inet6(),
        AddressFamily::Unix => {
            return Err(IoError::UnsupportedFamily);
        },
    };
    Ok(SocketRequest { domain, socket_type: socket_type | sys::sock_cloexec(), protocol: 0 })
}

/// Asks for an unconnected, close-on-exec stream socket for `family`.
///
/// The client counterpart of adopting an accepted descriptor: a connect needs
/// an owned socket of the peer's address family before the `io_uring` connect
/// op runs.
///
/// # Errors
///
/// Returns [`IoError::UnsupportedFamily`] for `AddressFamily::Unix` (only IPv4
/// and IPv6 stream sockets are created).
pub fn create_stream_socket(family: AddressFamily) -> (outcome: Result<SocketRequest, IoError>)
    ensures
        outcome == socket_for(family, SOCK_STREAM),
{
    create_socket(family, sys::sock_stream())
}

/// Asks for an unconnected, close-on-exec datagram socket for `family`.
///
/// The UDP counterpart of [`create_stream_socket`].
///
/// # Errors
///
/// Returns [`IoError::UnsupportedFamily`] for `AddressFamily::Unix` (only IPv4
/// and IPv6 datagram sockets are created).
pub fn create_datagram_socket(family: AddressFamily) -> (outcome: Result<SocketRequest, IoError>)
    ensures
        outcome == socket_for(family, SOCK_DGRAM),
{
    create_socket(family, sys::sock_dgram())
}

/// An attempt keeps its duplicate exactly when it must wait, and an attempt and
/// a retry read the same result alike.
pub proof fn attempt_keeps_its_descriptor_only_to_wait(
    descriptor: i32,
    result: isize,
    errno: Option<i32>,
)
    ensures
        attempt_meaning(descriptor, result, errno) is WouldBlock <==> result < 0 && errno == Some(
            EAGAIN,
        ),
        attempt_meaning(descriptor, result, errno) matches Attempt::WouldBlock(kept) ==> kept
            == descriptor,
        attempt_meaning(descriptor, result, errno) is WouldBlock <==> retry_meaning(
            result,
            errno,
        ) is WouldBlock,
        0 <= result <= u32::MAX ==> attempt_meaning(descriptor, result, errno) == Attempt::Done(
            result as u32,
        ),
{
}

} // verus!
