//! What each call of the provided-buffer ring and its pool does, entry by entry
//! and byte by byte.

use vstd::prelude::*;

use crate::buffer::mmap::MmapRegion;
use crate::buffer::ring::abi::BufRingEntry;
use crate::buffer::ring::memory;
use crate::buffer::ring::memory::BufRing;
use crate::buffer::ring::pool::{BufRingPool, PoolAddrs, PoolState};
use crate::buffer::slot::BufGroupId;
use crate::error::IoError;

verus! {

/// A buffer is offered in the entry the tail points at, the tail moves on by
/// one, and no other entry changes.
pub proof fn a_push_offers_the_buffer_at_the_tail(
    ring: &mut BufRing,
    addr: u64,
    len: u32,
    bid: u16,
)
    requires
        old(ring).wf(),
        call_ensures(BufRing::push, (ring, addr, len, bid), ()),
    ensures
        final(ring).wf(),
        ({
            let before = old(ring)@;
            let after = final(ring)@;
            let at = before.tail as int % before.offered.len() as int;
            &&& after.offered.len() == before.offered.len()
            &&& after.offered[at].addr == addr
            &&& after.offered[at].len == len
            &&& after.offered[at].bid == bid
            &&& after.tail == (before.tail + 1) % 0x1_0000
            &&& forall|index: int|
                0 <= index < before.offered.len() && index != at
                    ==> #[trigger] after.offered[index] == before.offered[index]
        }),
{
    old(ring).ring_is_nonempty();
}

/// Moving the tail leaves every entry as it is.
pub proof fn the_tail_moves_alone(ring: &mut BufRing, tail: u16, read: u16)
    requires
        old(ring).wf(),
        call_ensures(BufRing::set_tail, (ring, tail), ()),
        call_ensures(BufRing::tail, (&*final(ring),), read),
    ensures
        final(ring).wf(),
        read == tail,
        final(ring)@.tail == tail,
        final(ring)@.offered == old(ring)@.offered,
{
}

/// A ring over a region takes its bytes as they are, and the mask is one below
/// the number of entries.
pub proof fn a_ring_takes_the_region_as_it_is(
    region: MmapRegion,
    count: u16,
    ring: BufRing,
    entries: u16,
    mask: u16,
)
    requires
        memory::power_of_two(count),
        region@.len() >= count * 16,
        call_ensures(BufRing::from_raw, (region, count), ring),
        call_ensures(BufRing::entries, (&ring,), entries),
        call_ensures(BufRing::mask, (&ring,), mask),
    ensures
        ring.wf(),
        entries == count,
        mask == count - 1,
        ring@.offered.len() == count,
        ring.ring_bytes() == region@,
{
}

/// A pool is refused for empty buffers, then for a number of buffers that is not
/// a power of two, then for the first memory the system did not grant; otherwise
/// it offers every buffer once, in order, at its own place, and holds zeros.
pub proof fn a_pool_offers_every_buffer_once(
    entries: u16,
    buf_size: u32,
    group_id: BufGroupId,
    addrs: PoolAddrs,
    ring_refused: Option<i32>,
    storage_refused: Option<i32>,
    outcome: Result<BufRingPool, IoError>,
)
    requires
        call_ensures(
            BufRingPool::mapped,
            (entries, buf_size, group_id, addrs, ring_refused, storage_refused),
            outcome,
        ) || (ring_refused is None && storage_refused is None && call_ensures(
            BufRingPool::new,
            (entries, buf_size, group_id, addrs),
            outcome,
        )),
    ensures
        ({
            let power = entries != 0 && entries & ((entries - 1) as u16) == 0;
            &&& buf_size == 0 ==> outcome == Err::<BufRingPool, IoError>(IoError::ZeroBufSize)
            &&& buf_size > 0 && !power ==> outcome == Err::<BufRingPool, IoError>(
                IoError::EntriesNotPowerOfTwo,
            )
            &&& buf_size > 0 && power ==> {
                &&& ring_refused matches Some(errno) ==> outcome == Err::<BufRingPool, IoError>(
                    IoError::Os(errno),
                )
                &&& ring_refused is None ==> (storage_refused matches Some(errno) ==> outcome
                    == Err::<BufRingPool, IoError>(IoError::Os(errno)))
                &&& ring_refused is None && storage_refused is None ==> outcome is Ok
            }
        }),
        outcome matches Ok(pool) ==> {
            &&& pool.wf()
            &&& pool@.ring.offered.len() == entries
            &&& pool@.ring.tail == entries
            &&& pool@.buf_size == buf_size
            &&& pool@.group_id == group_id
            &&& pool@.addrs == addrs
            &&& pool@.storage.len() == entries * buf_size
            &&& forall|at: int| 0 <= at < pool@.storage.len() ==> #[trigger] pool@.storage[at] == 0
            &&& forall|index: int|
                0 <= index < entries ==> {
                    &&& (#[trigger] pool@.ring.offered[index]).bid == index
                    &&& pool@.ring.offered[index].len == buf_size
                    &&& pool@.ring.offered[index].addr == addrs.storage + index * buf_size
                }
        },
{
    if memory::power_of_two(entries) {
        memory::lemma_power_of_two(entries);
    }
    if entries != 0 && entries & ((entries - 1) as u16) == 0 {
        memory::lemma_is_power_of_two(entries);
    }
    if let Ok(pool) = outcome {
        pool.pool_is_valid();
        assert forall|index: int| 0 <= index < entries implies {
            &&& (#[trigger] pool@.ring.offered[index]).bid == index
            &&& pool@.ring.offered[index].len == buf_size
            &&& pool@.ring.offered[index].addr == addrs.storage + index * buf_size
        } by {
            assert(pool@.ring.offered[(index as u16) as int] == pool@.offer(index as u16));
            lemma_place_fits(index, entries as int, buf_size as int);
        }
    }
}

proof fn lemma_place_fits(bid: int, entries: int, buf_size: int)
    by (nonlinear_arith)
    requires
        0 <= bid < entries,
        0 <= buf_size,
    ensures
        0 <= bid * buf_size,
        bid * buf_size + buf_size <= entries * buf_size,
{
}

/// Recycling a buffer offers exactly it, whole and at its own place, in the
/// entry the tail points at, and moves the tail on by one; no other entry and no
/// byte changes.
pub proof fn a_recycled_buffer_is_offered_at_the_tail(pool: &mut BufRingPool, bid: u16)
    requires
        old(pool).wf(),
        bid < old(pool)@.ring.offered.len(),
        call_ensures(BufRingPool::recycle, (pool, bid), ()),
    ensures
        final(pool).wf(),
        ({
            let before = old(pool)@;
            let after = final(pool)@;
            let at = before.ring.tail as int % before.ring.offered.len() as int;
            &&& after == (PoolState { ring: after.ring, ..before })
            &&& after.ring.offered.len() == before.ring.offered.len()
            &&& after.ring.offered[at].bid == bid
            &&& after.ring.offered[at].len == before.buf_size
            &&& after.ring.offered[at].addr == before.addrs.storage + bid * before.buf_size
            &&& after.ring.tail == (before.ring.tail + 1) % 0x1_0000
            &&& forall|index: int|
                0 <= index < before.ring.offered.len() && index != at
                    ==> #[trigger] after.ring.offered[index] == before.ring.offered[index]
        }),
{
    old(pool).pool_is_valid();
    lemma_place_fits(
        bid as int,
        old(pool)@.ring.offered.len() as int,
        old(pool)@.buf_size as int,
    );
}

/// What the kernel wrote to the front of a buffer is there and nowhere else, and
/// a read of the buffer gives it back.
pub proof fn received_bytes_are_read_back(
    pool: &mut BufRingPool,
    bid: u16,
    payload: &[u8],
    other: u16,
    len: u32,
    slice: &[u8],
)
    requires
        old(pool).wf(),
        bid < old(pool)@.ring.offered.len(),
        payload@.len() <= old(pool)@.buf_size,
        other < old(pool)@.ring.offered.len(),
        len <= old(pool)@.buf_size,
        call_ensures(BufRingPool::receive, (pool, bid, payload), ()),
        call_ensures(BufRingPool::get, (&*final(pool), other, len), slice),
    ensures
        final(pool).wf(),
        final(pool)@ == (PoolState { storage: final(pool)@.storage, ..old(pool)@ }),
        slice@.len() == len,
        forall|at: int|
            0 <= at < len ==> #[trigger] slice@[at] == (if other == bid && at < payload@.len() {
                payload@[at]
            } else {
                old(pool)@.storage[other * old(pool)@.buf_size + at]
            }),
{
    old(pool).pool_is_valid();
    final(pool).pool_is_valid();
    let entries = old(pool)@.ring.offered.len() as int;
    let size = old(pool)@.buf_size as int;
    lemma_place_fits(bid as int, entries, size);
    lemma_place_fits(other as int, entries, size);
    if other < bid {
        lemma_place_fits(other as int, bid as int, size);
    } else if bid < other {
        lemma_place_fits(bid as int, other as int, size);
    }
}

/// A pool reports what it was built with and where its ring stands.
pub proof fn a_pool_reports_what_it_is(
    pool: BufRingPool,
    ring_addr: u64,
    addrs: PoolAddrs,
    tail: u16,
    group: BufGroupId,
    entries: u16,
    size: u32,
)
    requires
        pool.wf(),
        call_ensures(BufRingPool::ring_addr, (&pool,), ring_addr),
        call_ensures(BufRingPool::addrs, (&pool,), addrs),
        call_ensures(BufRingPool::tail, (&pool,), tail),
        call_ensures(BufRingPool::group_id, (&pool,), group),
        call_ensures(BufRingPool::entries, (&pool,), entries),
        call_ensures(BufRingPool::buf_size, (&pool,), size),
    ensures
        addrs == pool@.addrs,
        ring_addr == pool@.addrs.ring,
        tail == pool@.ring.tail,
        group == pool@.group_id,
        entries == pool@.ring.offered.len(),
        size == pool@.buf_size,
{
}

/// What the kernel sees of a ring is its entries, sixteen bytes each: address,
/// length and id in little-endian order, with the tail in the last two bytes of
/// the first.
pub proof fn the_kernel_sees_the_offered_buffers(pool: BufRingPool, slice: &[u8], index: int)
    requires
        pool.wf(),
        call_ensures(BufRingPool::ring_bytes, (&pool,), slice),
        0 <= index < pool@.ring.offered.len(),
    ensures
        ({
            let entry = pool@.ring.offered[index];
            let at = index * 16;
            &&& at + 16 <= slice@.len()
            &&& entry.addr == slice@[at] + 0x100 * (slice@[at + 1] + 0x100 * (slice@[at + 2] + 0x100
                * (slice@[at + 3] + 0x100 * (slice@[at + 4] + 0x100 * (slice@[at + 5] + 0x100 * (
            slice@[at + 6] + 0x100 * slice@[at + 7]))))))
            &&& entry.len == slice@[at + 8] + 0x100 * (slice@[at + 9] + 0x100 * (slice@[at + 10]
                + 0x100 * slice@[at + 11]))
            &&& entry.bid == slice@[at + 12] + 0x100 * slice@[at + 13]
            &&& pool@.ring.tail == slice@[14] + 0x100 * slice@[15]
        }),
{
}

/// An entry is read from its own sixteen bytes, lowest byte first, as it was
/// offered; the last two hold the tail in the first entry.
pub proof fn an_entry_reads_back_what_was_offered(
    ring: BufRing,
    index: u16,
    entry: BufRingEntry,
    slice: &[u8],
)
    requires
        ring.wf(),
        index < ring@.offered.len(),
        call_ensures(BufRing::entry, (&ring, index), entry),
        call_ensures(BufRing::as_bytes, (&ring,), slice),
    ensures
        ({
            let at = index * 16;
            &&& at + 16 <= slice@.len()
            &&& entry.addr == ring@.offered[index as int].addr
            &&& entry.len == ring@.offered[index as int].len
            &&& entry.bid == ring@.offered[index as int].bid
            &&& entry.addr == slice@[at] + 0x100 * (slice@[at + 1] + 0x100 * (slice@[at + 2] + 0x100
                * (slice@[at + 3] + 0x100 * (slice@[at + 4] + 0x100 * (slice@[at + 5] + 0x100 * (
            slice@[at + 6] + 0x100 * slice@[at + 7]))))))
            &&& entry.len == slice@[at + 8] + 0x100 * (slice@[at + 9] + 0x100 * (slice@[at + 10]
                + 0x100 * slice@[at + 11]))
            &&& entry.bid == slice@[at + 12] + 0x100 * slice@[at + 13]
            &&& entry.resv == slice@[at + 14] + 0x100 * slice@[at + 15]
            &&& index == 0 ==> entry.resv == ring@.tail
        }),
{
}

} // verus!
