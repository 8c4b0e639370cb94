//! `io_uring` buffer ring kernel ABI.
//!
//! A ring is an array of 16-byte `io_uring_buf` entries in host byte order,
//! little-endian on every supported target. The reserved field of entry 0
//! doubles as the shared tail counter via the `io_uring_buf_ring` union layout.

use vstd::prelude::*;

verus! {

/// `io_uring` buffer entry, as read out of a ring.
#[derive(Debug, Clone, Copy, PartialEq, Eq, Structural)]
pub struct BufRingEntry {
    /// Address of the buffer.
    pub addr: u64,
    /// Length of the buffer in bytes.
    pub len: u32,
    /// Buffer id the kernel reports when it picks the entry.
    pub bid: u16,
    /// Reserved; in entry 0, the shared tail counter.
    pub resv: u16,
}

/// Bytes per entry.
pub const ENTRY_LEN: usize = 16;

/// Byte offset of an entry's buffer length.
pub const LEN_OFFSET: usize = 8;

/// Byte offset of an entry's buffer id.
pub const BID_OFFSET: usize = 12;

/// Byte offset of the shared tail counter within entry 0 (its reserved field).
pub const TAIL_OFFSET: usize = 14;

} // verus!
