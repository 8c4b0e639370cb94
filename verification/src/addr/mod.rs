//! Socket address types for `io_uring` SQE submission.
//!
//! [`UnixAddr`] handles filesystem-path, abstract (Linux), and unnamed Unix
//! domain addresses. Pack helpers write POSIX `sockaddr_storage`-compatible
//! bytes into a caller-owned buffer.

pub mod effects;
pub mod pack;
mod socket;
mod unix;

pub use socket::{AddressFamily, SockAddr, SocketAddrV4, SocketAddrV6};
pub use unix::{AddrError, SUN_PATH_MAX, UnixAddr};
