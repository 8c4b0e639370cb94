//! Per-worker buffer ring pool for `io_uring` provided-buffer operations.
//!
//! [`BufRingPool`] pairs contiguous storage with a [`BufRing`] so the kernel
//! can pick buffers automatically for provided-buffer recv.

use vstd::prelude::*;

use crate::buffer::mmap;
use crate::buffer::mmap::MmapRegion;
use crate::buffer::ring::memory;
use crate::buffer::ring::memory::{BufRing, OfferedBuf, RingState};
use crate::buffer::slot::BufGroupId;
use crate::error::IoError;

verus! {

/// Most entries the kernel takes in one ring.
pub const MAX_RING_ENTRIES: u16 = 32768;

/// Where the pool's two regions are mapped for the kernel.
#[derive(Debug, Clone, Copy, PartialEq, Eq, Structural)]
pub struct PoolAddrs {
    /// Address of the ring's entries.
    pub ring: u64,
    /// Address of the first buffer.
    pub storage: u64,
}

/// What a pool holds.
#[verifier::ext_equal]
pub struct PoolState {
    /// The ring the kernel picks buffers through.
    pub ring: RingState,
    /// The bytes of every buffer, one after the other.
    pub storage: Seq<u8>,
    /// Where both are mapped.
    pub addrs: PoolAddrs,
    /// Bytes per buffer.
    pub buf_size: u32,
    /// Group the kernel knows the pool by.
    pub group_id: BufGroupId,
}

impl PoolState {
    /// Number of buffers.
    pub open spec fn entries(self) -> nat {
        self.ring.offered.len()
    }

    /// Address of the buffer `bid`.
    pub open spec fn addr_of(self, bid: int) -> int {
        self.addrs.storage + bid * self.buf_size
    }

    /// The ring entry that offers the buffer `bid`.
    pub open spec fn offer(self, bid: u16) -> OfferedBuf {
        OfferedBuf { addr: self.addr_of(bid as int) as u64, len: self.buf_size, bid }
    }

    /// The bytes of the buffer `bid`.
    pub open spec fn bytes_of(self, bid: int) -> Seq<u8> {
        self.storage.subrange(bid * self.buf_size, bid * self.buf_size + self.buf_size)
    }

    /// What every pool keeps: every ring entry names a buffer of the pool by
    /// the address of its own region, and the storage holds all buffers.
    pub open spec fn valid(self) -> bool {
        &&& 0 < self.entries() <= MAX_RING_ENTRIES
        &&& self.buf_size > 0
        &&& self.storage.len() == self.entries() * self.buf_size
        &&& self.addrs.storage + self.storage.len() <= u64::MAX
        &&& forall|index: int|
            0 <= index < self.entries() ==> {
                &&& (#[trigger] self.ring.offered[index]).bid < self.entries()
                &&& self.ring.offered[index] == self.offer(self.ring.offered[index].bid)
            }
    }

    /// The pool after the buffer `bid` is offered to the kernel again.
    pub open spec fn recycled(self, bid: u16) -> PoolState {
        PoolState {
            ring: self.ring.pushed(self.addr_of(bid as int) as u64, self.buf_size, bid),
            ..self
        }
    }

    /// The pool after the kernel wrote `payload` to the front of the buffer
    /// `bid`.
    pub open spec fn received(self, bid: u16, payload: Seq<u8>) -> PoolState {
        PoolState {
            storage: mmap::overwritten(self.storage, bid * self.buf_size, payload),
            ..self
        }
    }
}

/// A fresh pool: every buffer is offered once, in order, and holds zeros.
pub open spec fn fresh_pool(
    pool: PoolState,
    entries: u16,
    buf_size: u32,
    group_id: BufGroupId,
    addrs: PoolAddrs,
) -> bool {
    &&& pool.valid()
    &&& pool.buf_size == buf_size
    &&& pool.group_id == group_id
    &&& pool.addrs == addrs
    &&& pool.ring.tail == entries
    &&& pool.entries() == entries
    &&& forall|bid: u16| bid < entries ==> #[trigger] pool.ring.offered[bid as int] == pool.offer(bid)
    &&& pool.storage == Seq::new((entries * buf_size) as nat, |at: int| 0u8)
}

/// Why a pool of `entries` buffers of `buf_size` bytes is refused, or `None`
/// when it is not.
pub open spec fn params_error(entries: u16, buf_size: u32) -> Option<IoError> {
    if buf_size == 0 {
        Some(IoError::ZeroBufSize)
    } else if !memory::power_of_two(entries) {
        Some(IoError::EntriesNotPowerOfTwo)
    } else if entries > MAX_RING_ENTRIES {
        Some(IoError::EntriesOverMaximum)
    } else {
        None
    }
}

/// Per-listener buffer ring pool.
///
/// Holds `entries * buf_size` bytes of contiguous storage and offers every
/// buffer through the [`BufRing`]. On multishot recv the kernel picks a buffer
/// by `bid`; after processing the completion the driver calls
/// [`recycle`](BufRingPool::recycle) to return the buffer to the ring.
///
/// # Invariant
///
/// `bid` is in `[0, entries)` and maps to storage offset `bid * buf_size`. This
/// mapping is maintained across push and recycle operations.
pub struct BufRingPool {
    /// The kernel picks buffers through it.
    ring: BufRing,
    /// Buffer storage the kernel writes recv payloads into.
    storage: MmapRegion,
    addrs: PoolAddrs,
    buf_size: u32,
    entries: u16,
    group_id: BufGroupId,
}

impl View for BufRingPool {
    type V = PoolState;

    closed spec fn view(&self) -> PoolState {
        PoolState {
            ring: self.ring@,
            storage: self.storage@,
            addrs: self.addrs,
            buf_size: self.buf_size,
            group_id: self.group_id,
        }
    }
}

impl BufRingPool {
    /// The ring and the storage match the pool's sizes.
    pub closed spec fn wf(&self) -> bool {
        &&& self.ring.wf()
        &&& self@.valid()
        &&& self.entries == self@.entries()
    }

    /// Every well-formed pool is valid, and its tail counter wraps at a whole
    /// number of rounds of the ring.
    pub proof fn pool_is_valid(&self)
        requires
            self.wf(),
        ensures
            self@.valid(),
            0x1_0000int % (self@.entries() as int) == 0,
    {
        self.ring.ring_is_nonempty();
    }

    /// Allocates the ring and the buffer storage, which the system grants, then
    /// pushes all entries so the kernel can select them.
    ///
    /// `addrs` says where the two regions are mapped for the kernel; all of the
    /// storage of a pool that is not refused must fit below the end of the
    /// address space.
    ///
    /// # Errors
    ///
    /// Returns an [`IoError`] if `buf_size` is zero, or if `entries` is zero,
    /// not a power of two, or exceeds [`MAX_RING_ENTRIES`].
    pub fn new(entries: u16, buf_size: u32, group_id: BufGroupId, addrs: PoolAddrs) -> (outcome:
        Result<Self, IoError>)
        requires
            params_error(entries, buf_size) is None ==> entries * buf_size <= usize::MAX,
            params_error(entries, buf_size) is None ==> addrs.storage + entries * buf_size
                <= u64::MAX,
        ensures
            match outcome {
                Ok(pool) => {
                    &&& params_error(entries, buf_size) is None
                    &&& pool.wf()
                    &&& fresh_pool(pool@, entries, buf_size, group_id, addrs)
                },
                Err(error) => params_error(entries, buf_size) == Some(error),
            },
    {
        Self::mapped(entries, buf_size, group_id, addrs, None, None)
    }

    /// Allocates a pool as [`new`](Self::new) does, with the errno the system
    /// gave when it was asked to map each region, or `None` where it granted
    /// it. Nothing is asked for a pool that is refused for its sizes, and the
    /// ring is asked for before the storage.
    ///
    /// # Errors
    ///
    /// Returns the error of [`new`](Self::new), and otherwise the errno of the
    /// first refusal.
    pub fn mapped(
        entries: u16,
        buf_size: u32,
        group_id: BufGroupId,
        addrs: PoolAddrs,
        ring_refused: Option<i32>,
        storage_refused: Option<i32>,
    ) -> (outcome: Result<Self, IoError>)
        requires
            params_error(entries, buf_size) is None && ring_refused is None ==> entries * buf_size
                <= usize::MAX,
            params_error(entries, buf_size) is None && ring_refused is None && storage_refused is None
                ==> addrs.storage + entries * buf_size <= u64::MAX,
        ensures
            match outcome {
                Ok(pool) => {
                    &&& params_error(entries, buf_size) is None
                    &&& ring_refused is None && storage_refused is None
                    &&& pool.wf()
                    &&& fresh_pool(pool@, entries, buf_size, group_id, addrs)
                },
                Err(error) => Some(error) == (match params_error(entries, buf_size) {
                    Some(refusal) => Some(refusal),
                    None => mmap::first_refusal(ring_refused, storage_refused),
                }),
            },
    {
        if let Err(error) = check_params(entries, buf_size) {
            return Err(error);
        }
        proof {
            memory::lemma_power_of_two(entries);
            assert(entries * buf_size > 0) by (nonlinear_arith)
                requires
                    entries > 0,
                    buf_size > 0,
            ;
        }
        let ring_region = match MmapRegion::mapped(entries as usize * 16, ring_refused) {
            Ok(region) => region,
            Err(error) => return Err(error),
        };
        let mut ring = BufRing::from_raw(ring_region, entries);
        let storage = match MmapRegion::mapped(
            entries as usize * buf_size as usize,
            storage_refused,
        ) {
            Ok(region) => region,
            Err(error) => return Err(error),
        };
        let mut bid: u16 = 0;
        while bid < entries
            invariant
                bid <= entries <= MAX_RING_ENTRIES,
                buf_size > 0,
                addrs.storage + entries * buf_size <= u64::MAX,
                ring.wf(),
                ring@.tail == bid,
                ring@.offered.len() == entries,
                forall|index: u16|
                    index < bid ==> #[trigger] ring@.offered[index as int] == (OfferedBuf {
                        addr: (addrs.storage + index * buf_size) as u64,
                        len: buf_size,
                        bid: index,
                    }),
            decreases entries - bid,
        {
            proof {
                lemma_bid_offset(bid as int, entries as int, buf_size as int);
                vstd::arithmetic::div_mod::lemma_small_mod(bid as nat, entries as nat);
            }
            let addr: u64 = addrs.storage + bid as u64 * buf_size as u64;
            ring.push(addr, buf_size, bid);
            bid = bid + 1;
        }
        let pool = BufRingPool { ring, storage, addrs, buf_size, entries, group_id };
        proof {
            assert forall|index: int| 0 <= index < entries implies {
                &&& (#[trigger] pool@.ring.offered[index]).bid < entries
                &&& pool@.ring.offered[index] == pool@.offer(pool@.ring.offered[index].bid)
            } by {
                assert(pool@.ring.offered[(index as u16) as int].bid == index as u16);
            }
        }
        Ok(pool)
    }

    /// Kernel address of the ring's entries.
    ///
    /// Passed as `ring_addr` to `IORING_REGISTER_PBUF_RING`.
    pub fn ring_addr(&self) -> (addr: u64)
        ensures
            addr == self@.addrs.ring,
    {
        self.addrs.ring
    }

    /// Where the pool's two regions are mapped, which tells pools apart.
    pub fn addrs(&self) -> (addrs: PoolAddrs)
        ensures
            addrs == self@.addrs,
    {
        self.addrs
    }

    /// The ring's bytes, for the memory the kernel shares.
    pub fn ring_bytes(&self) -> (slice: &[u8])
        requires
            self.wf(),
        ensures
            self@.ring.encoded_in(slice@),
    {
        self.ring.as_bytes()
    }

    /// Borrows the first `len` bytes of the buffer `bid`.
    ///
    /// `len` is the byte count from the completion result -- the kernel may
    /// write fewer bytes than `buf_size`.
    pub fn get(&self, bid: u16, len: u32) -> (slice: &[u8])
        requires
            self.wf(),
            bid < self@.entries(),
            len <= self@.buf_size,
        ensures
            slice@ == self@.bytes_of(bid as int).take(len as int),
    {
        proof {
            lemma_bid_offset(bid as int, self.entries as int, self.buf_size as int);
        }
        assert(self.storage@.len() == self@.storage.len());
        let total: usize = self.storage.len();
        let offset: usize = bid as usize * self.buf_size as usize;
        let slice = self.storage.range(offset, len as usize);
        assert(slice@ =~= self@.bytes_of(bid as int).take(len as int));
        slice
    }

    /// Records that the kernel wrote `payload` to the front of the buffer
    /// `bid`.
    pub fn receive(&mut self, bid: u16, payload: &[u8])
        requires
            old(self).wf(),
            bid < old(self)@.entries(),
            payload@.len() <= old(self)@.buf_size,
        ensures
            final(self).wf(),
            final(self)@ == old(self)@.received(bid, payload@),
    {
        proof {
            lemma_bid_offset(bid as int, self.entries as int, self.buf_size as int);
        }
        let total: usize = self.storage.len();
        let offset: usize = bid as usize * self.buf_size as usize;
        self.storage.copy_in(offset, payload);
    }

    /// Recycles a buffer back to the ring after processing.
    pub fn recycle(&mut self, bid: u16)
        requires
            old(self).wf(),
            bid < old(self)@.entries(),
        ensures
            final(self).wf(),
            final(self)@ == old(self)@.recycled(bid),
    {
        proof {
            lemma_bid_offset(bid as int, self.entries as int, self.buf_size as int);
        }
        let addr: u64 = self.addrs.storage + bid as u64 * self.buf_size as u64;
        let ghost before = self@;
        self.ring.push(addr, self.buf_size, bid);
        proof {
            assert forall|index: int| 0 <= index < self@.entries() implies {
                &&& (#[trigger] self@.ring.offered[index]).bid < self@.entries()
                &&& self@.ring.offered[index] == self@.offer(self@.ring.offered[index].bid)
            } by {
                let at = before.ring.tail as int % before.ring.offered.len() as int;
                if index != at {
                    assert(self@.ring.offered[index] == before.ring.offered[index]);
                }
            }
        }
    }

    /// The in-ring tail counter.
    pub fn tail(&self) -> (tail: u16)
        requires
            self.wf(),
        ensures
            tail == self@.ring.tail,
    {
        self.ring.tail()
    }

    /// Buffer group ID for this pool.
    pub fn group_id(&self) -> (group: BufGroupId)
        ensures
            group == self@.group_id,
    {
        self.group_id
    }

    /// Number of buffer entries.
    pub fn entries(&self) -> (entries: u16)
        requires
            self.wf(),
        ensures
            entries == self@.entries(),
    {
        self.entries
    }

    /// Per-buffer size in bytes.
    pub fn buf_size(&self) -> (size: u32)
        ensures
            size == self@.buf_size,
    {
        self.buf_size
    }
}

/// Refuses a pool of zero-byte buffers, or of an entry count that is not a
/// power of two the kernel takes.
fn check_params(entries: u16, buf_size: u32) -> (outcome: Result<(), IoError>)
    ensures
        match outcome {
            Ok(()) => params_error(entries, buf_size) is None,
            Err(error) => params_error(entries, buf_size) == Some(error),
        },
{
    if buf_size == 0 {
        return Err(IoError::ZeroBufSize);
    }
    if entries == 0 || entries & (entries - 1) != 0 {
        proof {
            if memory::power_of_two(entries) {
                memory::lemma_power_of_two(entries);
            }
        }
        return Err(IoError::EntriesNotPowerOfTwo);
    }
    proof {
        memory::lemma_is_power_of_two(entries);
    }
    if entries > MAX_RING_ENTRIES {
        return Err(IoError::EntriesOverMaximum);
    }
    Ok(())
}

proof fn lemma_bid_offset(bid: int, entries: int, buf_size: int)
    by (nonlinear_arith)
    requires
        0 <= bid < entries,
        0 <= buf_size,
    ensures
        0 <= bid * buf_size,
        bid * buf_size + buf_size <= entries * buf_size,
{
}

/// Different buffers of a pool never share a byte.
pub proof fn buffers_are_disjoint(pool: PoolState, bid: int, other: int)
    requires
        pool.valid(),
        0 <= bid < other < pool.entries(),
    ensures
        bid * pool.buf_size + pool.buf_size <= other * pool.buf_size,
        other * pool.buf_size + pool.buf_size <= pool.storage.len(),
        pool.addr_of(bid) + pool.buf_size <= pool.addr_of(other),
{
    lemma_bid_offset(bid, other, pool.buf_size as int);
    lemma_bid_offset(other, pool.entries() as int, pool.buf_size as int);
}

/// What the kernel wrote to a buffer is what a read of it gives back, and every
/// other buffer keeps its bytes.
pub proof fn read_gives_back_what_was_received(
    pool: PoolState,
    bid: u16,
    payload: Seq<u8>,
    other: u16,
)
    requires
        pool.valid(),
        bid < pool.entries(),
        payload.len() <= pool.buf_size,
        other < pool.entries(),
    ensures
        pool.received(bid, payload).valid(),
        pool.received(bid, payload).bytes_of(bid as int).take(payload.len() as int) == payload,
        other != bid ==> pool.received(bid, payload).bytes_of(other as int) == pool.bytes_of(
            other as int,
        ),
{
    let after = pool.received(bid, payload);
    lemma_bid_offset(bid as int, pool.entries() as int, pool.buf_size as int);
    lemma_bid_offset(other as int, pool.entries() as int, pool.buf_size as int);
    assert(after.bytes_of(bid as int).take(payload.len() as int) =~= payload);
    if other < bid {
        lemma_bid_offset(other as int, bid as int, pool.buf_size as int);
        assert(after.bytes_of(other as int) =~= pool.bytes_of(other as int));
    } else if bid < other {
        lemma_bid_offset(bid as int, other as int, pool.buf_size as int);
        assert(after.bytes_of(other as int) =~= pool.bytes_of(other as int));
    }
}

/// Recycling a buffer offers exactly that buffer at the ring's tail, moves the
/// tail on by one, and keeps the bytes and the id-to-region mapping of all.
pub proof fn recycle_offers_the_buffer_again(pool: PoolState, bid: u16)
    requires
        pool.valid(),
        bid < pool.entries(),
    ensures
        pool.recycled(bid).valid(),
        pool.recycled(bid).storage == pool.storage,
        pool.recycled(bid).ring.offered[pool.ring.tail as int % pool.entries() as int]
            == pool.offer(bid),
        pool.recycled(bid).ring.tail as int == (pool.ring.tail + 1) % 0x1_0000,
        forall|index: int|
            0 <= index < pool.entries() && index != pool.ring.tail as int % pool.entries() as int
                ==> #[trigger] pool.recycled(bid).ring.offered[index] == pool.ring.offered[index],
{
    let after = pool.recycled(bid);
    let at = pool.ring.tail as int % pool.entries() as int;
    lemma_bid_offset(bid as int, pool.entries() as int, pool.buf_size as int);
    assert forall|index: int| 0 <= index < after.entries() implies {
        &&& (#[trigger] after.ring.offered[index]).bid < after.entries()
        &&& after.ring.offered[index] == after.offer(after.ring.offered[index].bid)
    } by {
        if index != at {
            assert(after.ring.offered[index] == pool.ring.offered[index]);
        }
    }
}

} // verus!
