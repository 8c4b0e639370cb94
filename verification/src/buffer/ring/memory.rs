//! Provided buffer ring handle for `io_uring` 5.19+ multishot operations.
//!
//! [`BufRing`] lays the kernel's `io_uring_buf_ring` / `io_uring_buf` ABI over
//! a byte region and owns the tail-advance logic.

use vstd::prelude::*;

use crate::buffer::bytes;
use crate::buffer::bytes::{read_u16, read_u32, read_u64, write_u16, write_u32, write_u64};
use crate::buffer::mmap::MmapRegion;
use crate::buffer::ring::abi::{BID_OFFSET, BufRingEntry, LEN_OFFSET, TAIL_OFFSET};

verus! {

/// Whether `entries` is a power of two.
pub open spec fn power_of_two(entries: u16) -> bool {
    exists|shift: u16| shift < 16 && entries == #[trigger] (1u16 << shift)
}

/// A buffer a ring entry offers the kernel.
#[verifier::ext_equal]
pub struct OfferedBuf {
    /// Address of the buffer.
    pub addr: u64,
    /// Length of the buffer in bytes.
    pub len: u32,
    /// Buffer id the kernel reports when it picks the entry.
    pub bid: u16,
}

/// What a ring holds: its tail counter and the buffer of each entry.
#[verifier::ext_equal]
pub struct RingState {
    /// Number of buffers ever pushed, modulo the counter's width.
    pub tail: u16,
    /// The entries, in ring order.
    pub offered: Seq<OfferedBuf>,
}

impl RingState {
    /// Whether `bytes` holds the ring as the kernel lays it out: 16-byte entries
    /// from the front on, and the tail in the reserved field of entry 0.
    pub open spec fn encoded_in(self, bytes: Seq<u8>) -> bool {
        &&& self.offered.len() * 16 <= bytes.len()
        &&& self.tail == bytes::le16(bytes, TAIL_OFFSET as int)
        &&& forall|index: int|
            0 <= index < self.offered.len() ==> #[trigger] self.offered[index] == (OfferedBuf {
                addr: bytes::le64(bytes, index * 16) as u64,
                len: bytes::le32(bytes, index * 16 + 8) as u32,
                bid: bytes::le16(bytes, index * 16 + 12) as u16,
            })
    }

    /// The ring after a buffer is pushed: the entry at the tail, modulo the
    /// ring's size, names it, and the counter moves on.
    pub open spec fn pushed(self, addr: u64, len: u32, bid: u16) -> RingState {
        RingState {
            tail: if self.tail == u16::MAX {
                0
            } else {
                (self.tail + 1) as u16
            },
            offered: self.offered.update(
                self.tail as int % self.offered.len() as int,
                OfferedBuf { addr, len, bid },
            ),
        }
    }
}

/// Provided buffer ring handle for `io_uring` 5.19+.
///
/// The kernel picks buffers for multishot recv/accept out of the ring.
///
/// # Single-writer invariant
///
/// [`push`](BufRing::push) takes the ring exclusively: only the per-driver
/// owner adds buffers, while the kernel reads the ring through its own acquire
/// ordering on the tail counter.
pub struct BufRing {
    region: MmapRegion,
    entries: u16,
    mask: u16,
}

impl View for BufRing {
    type V = RingState;

    closed spec fn view(&self) -> RingState {
        RingState {
            tail: bytes::le16(self.region@, 14) as u16,
            offered: Seq::new(self.entries as nat, |index: int| self.offered_at(index)),
        }
    }
}

impl BufRing {
    spec fn offered_at(&self, index: int) -> OfferedBuf {
        OfferedBuf {
            addr: bytes::le64(self.region@, index * 16) as u64,
            len: bytes::le32(self.region@, index * 16 + 8) as u32,
            bid: bytes::le16(self.region@, index * 16 + 12) as u16,
        }
    }

    /// The entry count is a power of two, and the region holds that many
    /// entries.
    pub closed spec fn wf(&self) -> bool {
        &&& power_of_two(self.entries)
        &&& self.entries > 0
        &&& self.mask == self.entries - 1
        &&& self.region@.len() >= self.entries * 16
    }

    /// The raw bytes of the ring, as the kernel reads them.
    pub closed spec fn ring_bytes(&self) -> Seq<u8> {
        self.region@
    }

    /// A well-formed ring has at least one entry.
    pub proof fn ring_is_nonempty(&self)
        requires
            self.wf(),
        ensures
            power_of_two(self@.offered.len() as u16),
            0 < self@.offered.len() <= 0x8000,
            0x1_0000int % (self@.offered.len() as int) == 0,
    {
        lemma_power_of_two(self.entries);
    }

    /// Lays a ring of `entries` entries over `region`.
    ///
    /// `entries` must be a power of two, and `region` must hold that many
    /// 16-byte entries.
    pub fn from_raw(region: MmapRegion, entries: u16) -> (ring: Self)
        requires
            power_of_two(entries),
            region@.len() >= entries * 16,
        ensures
            ring.wf(),
            ring.ring_bytes() == region@,
            ring@.offered.len() == entries,
            ring@.encoded_in(region@),
    {
        proof {
            lemma_power_of_two(entries);
        }
        BufRing { region, entries, mask: entries - 1 }
    }

    /// Pushes a buffer entry and advances the tail.
    ///
    /// Writes `addr`, `len`, and `bid` to the next ring slot, then stores the
    /// incremented tail, so a reader that sees the new tail sees the entry.
    ///
    /// The reserved field is intentionally left untouched -- entry 0's is the
    /// shared tail counter per the kernel union layout.
    pub fn push(&mut self, addr: u64, len: u32, bid: u16)
        requires
            old(self).wf(),
        ensures
            final(self).wf(),
            final(self)@ == old(self)@.pushed(addr, len, bid),
            final(self).ring_bytes().len() == old(self).ring_bytes().len(),
            ({
                let entry = old(self)@.tail as int % old(self)@.offered.len() as int * 16;
                forall|at: int|
                    0 <= at < old(self).ring_bytes().len() && !(entry <= at < entry + 14) && !(
                    14 <= at < 16) ==> #[trigger] final(self).ring_bytes()[at]
                        == old(self).ring_bytes()[at]
            }),
    {
        let tail: u16 = self.tail();
        let index: u16 = tail & self.mask;
        proof {
            lemma_power_of_two(self.entries);
            lemma_mask_is_mod(tail, self.entries);
            lemma_mod_below(tail, self.entries);
        }
        let offset: usize = index as usize * 16;
        write_u64(&mut self.region, offset, addr);
        write_u32(&mut self.region, offset + LEN_OFFSET, len);
        write_u16(&mut self.region, offset + BID_OFFSET, bid);
        assert(bytes::le16(self.region@, 14) == tail);
        assert(self.offered_at(index as int) == OfferedBuf { addr, len, bid });
        proof {
            assert forall|other: int| 0 <= other < self.entries && other != index implies
                #[trigger] self.offered_at(other) == old(self).offered_at(other) by {}
            assert(self@.offered =~= old(self)@.pushed(addr, len, bid).offered);
        }
        self.set_tail(tail.wrapping_add(1));
    }

    /// Reads entry `index` of the ring.
    pub fn entry(&self, index: u16) -> (entry: BufRingEntry)
        requires
            self.wf(),
            index < self@.offered.len(),
        ensures
            entry.addr == self@.offered[index as int].addr,
            entry.len == self@.offered[index as int].len,
            entry.bid == self@.offered[index as int].bid,
            entry.resv == bytes::le16(self.ring_bytes(), index * 16 + TAIL_OFFSET),
            index == 0 ==> entry.resv == self@.tail,
    {
        let offset: usize = index as usize * 16;
        BufRingEntry {
            addr: read_u64(&self.region, offset),
            len: read_u32(&self.region, offset + LEN_OFFSET),
            bid: read_u16(&self.region, offset + BID_OFFSET),
            resv: read_u16(&self.region, offset + TAIL_OFFSET),
        }
    }

    /// Number of entries in this ring.
    pub fn entries(&self) -> (entries: u16)
        ensures
            entries == self@.offered.len(),
    {
        self.entries
    }

    /// Mask for tail wrap-around (`entries - 1`).
    pub fn mask(&self) -> (mask: u16)
        requires
            self.wf(),
        ensures
            mask == self@.offered.len() - 1,
    {
        self.mask
    }

    /// The in-ring tail counter.
    ///
    /// The tail lives at byte offset 14 of entry 0, which is the reserved field
    /// position in [`BufRingEntry`] -- matching the kernel's
    /// `io_uring_buf_ring` union layout.
    pub fn tail(&self) -> (tail: u16)
        requires
            self.wf(),
        ensures
            tail == self@.tail,
    {
        read_u16(&self.region, TAIL_OFFSET)
    }

    /// Stores `tail` in the in-ring counter, leaving every entry as it is.
    pub fn set_tail(&mut self, tail: u16)
        requires
            old(self).wf(),
        ensures
            final(self).wf(),
            final(self)@ == (RingState { tail, ..old(self)@ }),
            bytes::only_changed(
                old(self).ring_bytes(),
                final(self).ring_bytes(),
                TAIL_OFFSET as int,
                2,
            ),
    {
        write_u16(&mut self.region, TAIL_OFFSET, tail);
        proof {
            assert forall|index: int| 0 <= index < self.entries implies self.offered_at(index)
                == old(self).offered_at(index) by {}
            assert(self@.offered =~= old(self)@.offered);
        }
    }

    /// The ring's bytes, for the memory the kernel shares.
    pub fn as_bytes(&self) -> (slice: &[u8])
        requires
            self.wf(),
        ensures
            slice@ == self.ring_bytes(),
            self@.encoded_in(slice@),
    {
        self.region.as_slice()
    }
}

proof fn lemma_shift_is_positive(shift: u16)
    by (bit_vector)
    requires
        shift < 16,
    ensures
        0 < 1u16 << shift <= 0x8000,
        (1u16 << shift) & (((1u16 << shift) - 1) as u16) == 0,
{
}

/// A power of two is positive, is at most the largest one a `u16` holds, and
/// shares no bit with the number below it.
pub proof fn lemma_power_of_two(entries: u16)
    requires
        power_of_two(entries),
    ensures
        0 < entries <= 0x8000,
        entries & ((entries - 1) as u16) == 0,
        0x1_0000int % (entries as int) == 0,
{
    let shift = choose|shift: u16| shift < 16 && entries == #[trigger] (1u16 << shift);
    lemma_shift_is_positive(shift);
    assert(0x1_0000u32 % ((1u16 << shift) as u32) == 0) by (bit_vector)
        requires
            shift < 16,
    ;
}

proof fn lemma_bit_trick(entries: u16)
    by (bit_vector)
    requires
        entries != 0,
        entries & ((entries - 1) as u16) == 0,
    ensures
        entries == 1u16 << 0u16 || entries == 1u16 << 1u16 || entries == 1u16 << 2u16 || entries
            == 1u16 << 3u16 || entries == 1u16 << 4u16 || entries == 1u16 << 5u16 || entries
            == 1u16 << 6u16 || entries == 1u16 << 7u16 || entries == 1u16 << 8u16 || entries
            == 1u16 << 9u16 || entries == 1u16 << 10u16 || entries == 1u16 << 11u16 || entries
            == 1u16 << 12u16 || entries == 1u16 << 13u16 || entries == 1u16 << 14u16 || entries
            == 1u16 << 15u16,
{
}

/// A positive number that shares no bit with the number below it is a power of
/// two.
pub proof fn lemma_is_power_of_two(entries: u16)
    requires
        entries != 0,
        entries & ((entries - 1) as u16) == 0,
    ensures
        power_of_two(entries),
{
    lemma_bit_trick(entries);
}

proof fn lemma_mask_is_mod(value: u16, entries: u16)
    by (bit_vector)
    requires
        entries != 0,
        entries & ((entries - 1) as u16) == 0,
    ensures
        value & ((entries - 1) as u16) == value % entries,
{
}

proof fn lemma_mod_below(value: u16, entries: u16)
    by (nonlinear_arith)
    requires
        entries > 0,
    ensures
        value % entries < entries,
{
}

} // verus!
