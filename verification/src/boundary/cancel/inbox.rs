//! Per-worker cancel rings for dropped in-flight operations.
//!
//! A future whose op is still in flight cannot reclaim its resources on drop --
//! the kernel still holds the buffer, the buffer choice, or the accepted
//! descriptor. It records the pending cancel here instead, and the owning
//! worker drains the record on its next tick.
//!
//! Every ring is single-writer: an in-flight op pins its task to the owning
//! worker, so the drop that pushes runs on the thread that drains. Overflow is
//! uniformly a bounded leak, never a free under a live kernel access.

use vstd::prelude::*;

use crate::buffer::bytes;
use crate::buffer::bytes::{read_u16, read_u64, write_u16, write_u64};
use crate::buffer::mmap::MmapRegion;
use crate::buffer::multishot::{
    DEFAULT_MULTISHOT_CAP, DEFAULT_RECV_MULTISHOT_CAP, RecvMultishotSlotKey,
};
use crate::buffer::oneshot::inflight::{DEFAULT_INFLIGHT_CAP, InflightSlotKey};
use crate::error::IoError;

verus! {

/// Per-worker cancel-inbox capacity.
///
/// Sized to hold one cancel per droppable op across the slab-backed per-worker
/// registries -- the buffered-op inflight slab and the multishot slab -- so a
/// worker can queue a cancel for every occupied slot in the same tick. Overflow
/// loses the cancel record, a bounded leak, never a free under a live kernel
/// access.
pub const CANCEL_INBOX_CAPACITY: usize = 264;

/// Per-worker capacity for pending multishot recv cancels, one per slot of the
/// multishot recv registry.
pub const RECV_CANCEL_INBOX_CAPACITY: usize = 256;

/// The place `steps` after `from` in a ring of `size` places.
pub open spec fn ring_place(from: int, steps: int, size: int) -> int {
    if from + steps < size {
        from + steps
    } else {
        from + steps - size
    }
}

/// The place `steps` after `from` in a ring of `size` places.
fn ring_step(from: usize, steps: usize, size: usize) -> (place: usize)
    requires
        from < size,
        steps <= size,
    ensures
        place == ring_place(from as int, steps as int, size as int),
        place < size,
{
    if steps < size - from {
        from + steps
    } else {
        steps - (size - from)
    }
}

/// `queue` with `item` behind it, unless it already holds `capacity` items.
pub open spec fn enqueued<A>(queue: Seq<A>, item: A, capacity: nat) -> Seq<A> {
    if queue.len() < capacity {
        queue.push(item)
    } else {
        queue
    }
}

/// The oldest item of `queue`.
pub open spec fn oldest<A>(queue: Seq<A>) -> Option<A> {
    if queue.len() > 0 {
        Some(queue[0])
    } else {
        None
    }
}

/// `queue` without its oldest item.
pub open spec fn dequeued<A>(queue: Seq<A>) -> Seq<A> {
    if queue.len() > 0 {
        queue.drop_first()
    } else {
        queue
    }
}

/// `queue` with each of `items` behind it in turn, as far as `capacity` goes.
pub open spec fn enqueued_all<A>(queue: Seq<A>, items: Seq<A>, capacity: nat) -> Seq<A>
    decreases items.len(),
{
    if items.len() == 0 {
        queue
    } else {
        enqueued(enqueued_all(queue, items.drop_last(), capacity), items.last(), capacity)
    }
}

/// Cancels leave an inbox in the order they were queued, and a full inbox keeps
/// what it holds: of the cancels queued, those that fit are behind what was
/// there, in order, and the rest are dropped.
pub proof fn cancels_leave_in_order<A>(queue: Seq<A>, items: Seq<A>, capacity: nat)
    requires
        queue.len() <= capacity,
    ensures
        queue.len() + items.len() <= capacity ==> enqueued_all(queue, items, capacity) == queue
            + items,
        queue.len() + items.len() > capacity ==> enqueued_all(queue, items, capacity) == queue
            + items.take(capacity - queue.len()),
        queue.len() > 0 ==> oldest(queue) == Some(queue[0]) && dequeued(queue)
            == queue.drop_first(),
        queue.len() == 0 ==> oldest(queue) is None,
    decreases items.len(),
{
    if items.len() == 0 {
        assert(queue + items =~= queue);
    } else {
        let rest = items.drop_last();
        cancels_leave_in_order(queue, rest, capacity);
        if queue.len() + items.len() <= capacity {
            assert(queue + items =~= (queue + rest).push(items.last()));
        } else {
            let room = capacity - queue.len();
            if queue.len() + rest.len() <= capacity {
                assert(rest =~= items.take(room));
            } else {
                assert(rest.take(room) =~= items.take(room));
            }
        }
    }
}

/// The inboxes hold a cancel for every op that can drop between two drains: one
/// per slot of the in-flight and the accept registry, and one per slot of the
/// recv registry, all queued in order and none dropped.
pub proof fn every_drop_between_drains_fits<A, B>(drops: Seq<A>, recv_drops: Seq<B>)
    requires
        drops.len() <= DEFAULT_INFLIGHT_CAP + DEFAULT_MULTISHOT_CAP,
        recv_drops.len() <= DEFAULT_RECV_MULTISHOT_CAP,
    ensures
        enqueued_all(Seq::empty(), drops, CANCEL_INBOX_CAPACITY as nat) == drops,
        enqueued_all(Seq::empty(), recv_drops, RECV_CANCEL_INBOX_CAPACITY as nat) == recv_drops,
{
    cancels_leave_in_order(Seq::empty(), drops, CANCEL_INBOX_CAPACITY as nat);
    cancels_leave_in_order(Seq::empty(), recv_drops, RECV_CANCEL_INBOX_CAPACITY as nat);
    assert(Seq::empty() + drops =~= drops);
    assert(Seq::empty() + recv_drops =~= recv_drops);
}

/// Fixed-capacity ring of pending cancels for dropped buffered futures.
///
/// A buffered future whose op is still in flight cannot free its bytes on drop.
/// It instead pushes its [`InflightSlotKey`] here; the owning worker drains the
/// ring each tick, submits a cancel, and marks the slot retire-pending, and the
/// completion drain frees the slot once the kernel signals the op is done.
///
/// A multishot cancel rides the same key with its `op_token` set to the
/// multishot sentinel, which the drain routes to the multishot registry.
///
/// Its view is the pending cancels, oldest first.
pub struct CancelInbox<const N: usize> {
    slots: [Option<InflightSlotKey>; N],
    /// Ring read cursor, always in `[0, N)`.
    head: usize,
    /// Count of queued cancels; the next write goes that many places past the
    /// cursor.
    len: usize,
}

impl<const N: usize> View for CancelInbox<N> {
    type V = Seq<InflightSlotKey>;

    closed spec fn view(&self) -> Seq<InflightSlotKey> {
        Seq::new(
            self.len as nat,
            |steps: int| self.slots[ring_place(self.head as int, steps, N as int)]->0,
        )
    }
}

impl<const N: usize> CancelInbox<N> {
    /// The cursor stays in the ring, and every queued place holds a cancel.
    pub closed spec fn wf(&self) -> bool {
        &&& self.head < N || N == 0
        &&& self.len <= N
        &&& forall|steps: int|
            0 <= steps < self.len ==> #[trigger] self.slots[ring_place(
                self.head as int,
                steps,
                N as int,
            )] is Some
    }

    /// Creates an empty cancel inbox.
    #[must_use]
    pub fn new() -> (inbox: Self)
        ensures
            inbox.wf(),
            inbox@ == Seq::<InflightSlotKey>::empty(),
    {
        let inbox = CancelInbox { slots: [None; N], head: 0, len: 0 };
        assert(inbox@ =~= Seq::<InflightSlotKey>::empty());
        inbox
    }

    /// Queues a cancel for a dropped buffered future's in-flight op.
    ///
    /// A full ring drops the cancel -- a bounded leak: the op's own completion
    /// still reclaims the slot, so no byte storage leaks. The caller does not
    /// retry.
    pub fn push_cancel(&mut self, key: InflightSlotKey)
        requires
            old(self).wf(),
        ensures
            final(self).wf(),
            final(self)@ == enqueued(old(self)@, key, N as nat),
    {
        if self.len >= N {
            return;
        }
        let place: usize = ring_step(self.head, self.len, N);
        self.slots[place] = Some(key);
        self.len = self.len + 1;
        proof {
            assert(self@ =~= old(self)@.push(key));
        }
    }

    /// Pops the oldest pending cancel, or `None` when the inbox is empty.
    pub fn pop(&mut self) -> (key: Option<InflightSlotKey>)
        requires
            old(self).wf(),
        ensures
            final(self).wf(),
            key == oldest(old(self)@),
            final(self)@ == dequeued(old(self)@),
    {
        if self.len == 0 {
            return None;
        }
        assert(self.slots[ring_place(self.head as int, 0, N as int)] is Some);
        let key = self.slots[self.head];
        self.slots[self.head] = None;
        self.head = ring_step(self.head, 1, N);
        self.len = self.len - 1;
        proof {
            assert forall|steps: int| 0 <= steps < self.len implies ring_place(
                self.head as int,
                steps,
                N as int,
            ) == #[trigger] ring_place(old(self).head as int, steps + 1, N as int) by {}
            assert forall|steps: int| 0 <= steps < self.len implies #[trigger] self.slots[ring_place(
                self.head as int,
                steps,
                N as int,
            )] is Some by {
                assert(old(self).slots[ring_place(
                    old(self).head as int,
                    steps + 1,
                    N as int,
                )] is Some);
            }
            assert(self@ =~= old(self)@.drop_first());
        }
        key
    }

    /// Number of pending cancels.
    pub fn len(&self) -> (len: usize)
        ensures
            len == self@.len(),
    {
        self.len
    }

    /// `true` when no cancels are pending.
    pub fn is_empty(&self) -> (flag: bool)
        ensures
            flag == (self@.len() == 0),
    {
        self.len == 0
    }
}

impl<const N: usize> Default for CancelInbox<N> {
    fn default() -> (inbox: Self)
        ensures
            inbox.wf(),
            inbox@ == Seq::<InflightSlotKey>::empty(),
    {
        Self::new()
    }
}

/// Fixed-capacity ring of pending cancels for dropped multishot recv streams.
///
/// A recv stream whose op is still in flight cannot recycle its provided
/// buffers on drop -- the kernel still owns the buffer choice. It instead
/// pushes its [`RecvMultishotSlotKey`] here; the owning worker drains the ring
/// each tick, recycles any queued buffers, marks the slot cancel-pending, and
/// submits a cancel, and the op's terminal completion frees the slot.
///
/// Unlike the inline [`CancelInbox`], the slot payload lives in a byte region:
/// per cancel a `u64` generation, a `u16` slot, and a `u8` worker id,
/// little-endian packed. Its view is the pending cancels, oldest first.
pub struct RecvCancelInbox<const N: usize> {
    storage: MmapRegion,
    /// Ring read cursor, always in `[0, N)`.
    head: usize,
    /// Count of queued cancels; the next write goes that many places past the
    /// cursor.
    len: usize,
}

/// The slot key packed at place `place` of a recv cancel ring.
spec fn packed_key(storage: Seq<u8>, place: int) -> RecvMultishotSlotKey {
    RecvMultishotSlotKey {
        slot: bytes::le16(storage, place * 11 + 8) as u16,
        generation: bytes::le64(storage, place * 11) as u64,
        worker_id: storage[place * 11 + 10],
    }
}

impl<const N: usize> View for RecvCancelInbox<N> {
    type V = Seq<RecvMultishotSlotKey>;

    closed spec fn view(&self) -> Seq<RecvMultishotSlotKey> {
        Seq::new(
            self.len as nat,
            |steps: int|
                packed_key(self.storage@, ring_place(self.head as int, steps, N as int)),
        )
    }
}

impl<const N: usize> RecvCancelInbox<N> {
    /// The cursor stays in the ring, and the region holds `N` packed keys.
    pub closed spec fn wf(&self) -> bool {
        &&& self.head < N
        &&& self.len <= N
        &&& self.storage@.len() == N * 11
        &&& N * 11 <= usize::MAX
    }

    /// Creates an empty recv cancel inbox over a region that the system
    /// grants. `N` must be positive, and `N` packed keys must fit in memory.
    pub fn new() -> (outcome: Result<Self, IoError>)
        requires
            N > 0,
            N * 11 <= usize::MAX,
        ensures
            outcome matches Ok(inbox) && inbox.wf() && inbox@
                == Seq::<RecvMultishotSlotKey>::empty(),
    {
        Self::mapped(None)
    }

    /// Creates an empty recv cancel inbox as [`new`](Self::new) does, with
    /// `refused` the errno the system gave when it was asked to map the region,
    /// or `None` where it granted it.
    ///
    /// # Errors
    ///
    /// Returns the errno of a refusal.
    pub fn mapped(refused: Option<i32>) -> (outcome: Result<Self, IoError>)
        requires
            N > 0,
            N * 11 <= usize::MAX,
        ensures
            match outcome {
                Ok(inbox) => {
                    &&& refused is None
                    &&& inbox.wf()
                    &&& inbox@ == Seq::<RecvMultishotSlotKey>::empty()
                },
                Err(error) => refused matches Some(errno) && error == IoError::Os(errno),
            },
    {
        let storage = match MmapRegion::mapped(N * 11, refused) {
            Ok(storage) => storage,
            Err(error) => return Err(error),
        };
        let inbox = RecvCancelInbox { storage, head: 0, len: 0 };
        assert(inbox@ =~= Seq::<RecvMultishotSlotKey>::empty());
        Ok(inbox)
    }

    /// Queues a cancel for a dropped recv stream's in-flight op.
    ///
    /// A full ring drops the cancel -- a bounded leak: the op's own terminal
    /// completion still recycles its buffers and frees its slot. The caller
    /// does not retry.
    pub fn push_cancel(&mut self, key: RecvMultishotSlotKey)
        requires
            old(self).wf(),
        ensures
            final(self).wf(),
            final(self)@ == enqueued(old(self)@, key, N as nat),
    {
        if self.len >= N {
            return;
        }
        let place: usize = ring_step(self.head, self.len, N);
        let offset: usize = place * 11;
        write_u64(&mut self.storage, offset, key.generation);
        write_u16(&mut self.storage, offset + 8, key.slot);
        self.storage.set(offset + 10, key.worker_id);
        proof {
            assert(packed_key(self.storage@, place as int) == key);
            assert forall|other: int| 0 <= other < N && other != place implies #[trigger] packed_key(
                self.storage@,
                other,
            ) == packed_key(old(self).storage@, other) by {}
        }
        self.len = self.len + 1;
        proof {
            assert forall|steps: int| 0 <= steps < old(self).len implies #[trigger] ring_place(
                self.head as int,
                steps,
                N as int,
            ) != place by {}
            assert(self@ =~= old(self)@.push(key));
        }
    }

    /// Pops the oldest pending cancel, or `None` when the inbox is empty.
    pub fn pop(&mut self) -> (key: Option<RecvMultishotSlotKey>)
        requires
            old(self).wf(),
        ensures
            final(self).wf(),
            key == oldest(old(self)@),
            final(self)@ == dequeued(old(self)@),
    {
        if self.len == 0 {
            return None;
        }
        let offset: usize = self.head * 11;
        let key = RecvMultishotSlotKey {
            slot: read_u16(&self.storage, offset + 8),
            generation: read_u64(&self.storage, offset),
            worker_id: self.storage.get(offset + 10),
        };
        self.head = ring_step(self.head, 1, N);
        self.len = self.len - 1;
        proof {
            assert forall|steps: int| 0 <= steps < self.len implies ring_place(
                self.head as int,
                steps,
                N as int,
            ) == #[trigger] ring_place(old(self).head as int, steps + 1, N as int) by {}
            assert(self@ =~= old(self)@.drop_first());
        }
        Some(key)
    }

    /// Number of pending cancels.
    pub fn len(&self) -> (len: usize)
        ensures
            len == self@.len(),
    {
        self.len
    }

    /// `true` when no cancels are pending.
    pub fn is_empty(&self) -> (flag: bool)
        ensures
            flag == (self@.len() == 0),
    {
        self.len == 0
    }
}

} // verus!
