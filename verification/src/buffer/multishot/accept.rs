//! Per-worker registry for in-flight multishot operations.
//!
//! A multishot op submits one SQE that posts many completions sharing one
//! `user_data`. The per-task wake slot holds a single result, so those
//! completions cannot route through the task header without dropping all but
//! the last one per drain batch. This registry owns a small FIFO per multishot
//! op instead: the completion drain pushes each result into the op's slot and
//! wakes the owning task, which drains the FIFO on its next poll.
//!
//! Generational: each slot carries a generation bumped on free, so a stale
//! sentinel naming a reused slot is rejected rather than routed to the new
//! occupant.

use vstd::prelude::*;

use crate::buffer::bitmap::Bitmap;
use crate::buffer::oneshot::inflight;
use crate::buffer::scan;

verus! {

broadcast use crate::buffer::bitmap::lemma_bitmap_len;

/// Multishot slots per worker, kept small.
///
/// A worker runs a handful of multishot registrations (one per listener), and
/// the whole registry is stored inline in the worker shard, so a low slot count
/// bounds the shard's stack frame.
pub const DEFAULT_MULTISHOT_CAP: u16 = 8;

/// Per-slot completion FIFO depth, sized to the runtime completion-drain batch
/// so one drain pass of same-op completions never overflows.
pub const MULTISHOT_FIFO_DEPTH: u16 = 64;

/// Slot-count ceiling that sizes the inline bitmaps and per-slot tables.
const MAX_MULTISHOT_SLOTS: usize = 8;

/// Bitmap words covering the slot-count ceiling.
const BITMAP_WORDS: usize = 1;

/// A Copy handle into the multishot registry.
///
/// Held by a multishot stream. The `generation` guards slot reuse: once the
/// slot is freed its generation is bumped, so a stale stream or a stale
/// sentinel that still names the old generation is rejected.
#[derive(Debug, Clone, Copy, PartialEq, Eq, Structural)]
pub struct MultishotSlotKey {
    /// Slot index in the owning worker's registry.
    pub slot: u16,
    /// Generation captured at allocation.
    pub generation: u64,
    /// Worker whose registry owns the slot.
    pub worker_id: u8,
}

/// Outcome of pushing a completion into a slot's FIFO.
#[derive(Debug, Clone, Copy, PartialEq, Eq, Structural)]
pub enum MultishotPush {
    /// The result was queued for the consumer.
    Queued,
    /// The FIFO was full; the caller owns disposing of the result (an accepted
    /// fd must be closed, since the kernel already created it).
    Overflowed,
    /// The sentinel named a freed or reused slot; not queued. Carries the same
    /// disposal contract as `Overflowed`.
    Stale,
}

/// What one slot of the registry holds.
#[verifier::ext_equal]
pub struct MultishotSlot {
    /// An op owns the slot.
    pub occupied: bool,
    /// The op posted its final completion; no more results will arrive.
    pub terminated: bool,
    /// A cancel was submitted for the op; its final completion frees the slot.
    pub cancel_pending: bool,
    /// Generation of the current or next occupant.
    pub generation: u64,
    /// Task woken when a result lands in the FIFO.
    pub owner_token: u64,
    /// The results not yet taken, oldest first.
    pub queue: Seq<i32>,
}

impl MultishotSlot {
    /// The slot after its occupant leaves.
    pub open spec fn freed(self) -> MultishotSlot {
        MultishotSlot {
            occupied: false,
            terminated: false,
            cancel_pending: false,
            generation: inflight::next_generation(self.generation),
            queue: Seq::empty(),
            ..self
        }
    }

    /// The slot once an op owned by `owner_token` took it.
    pub open spec fn occupied_by(self, owner_token: u64) -> MultishotSlot {
        MultishotSlot {
            occupied: true,
            terminated: false,
            cancel_pending: false,
            owner_token,
            queue: Seq::empty(),
            ..self
        }
    }

    /// The slot after a completion `result` arrived for its op.
    pub open spec fn pushed(self, result: i32, is_more: bool) -> MultishotSlot {
        MultishotSlot {
            terminated: self.terminated || !is_more,
            queue: if self.queue.len() < MULTISHOT_FIFO_DEPTH {
                self.queue.push(result)
            } else {
                self.queue
            },
            ..self
        }
    }
}

/// What a registry holds: its worker and its slots, in slot order.
#[verifier::ext_equal]
pub struct MultishotSlots {
    /// Worker whose registry this is.
    pub worker_id: u8,
    /// The slots.
    pub slots: Seq<MultishotSlot>,
}

impl MultishotSlots {
    /// What every registry keeps: at most [`DEFAULT_MULTISHOT_CAP`] slots, no
    /// FIFO past its depth, and nothing left in a slot that no op owns.
    pub open spec fn valid(self) -> bool {
        &&& self.slots.len() <= DEFAULT_MULTISHOT_CAP
        &&& forall|slot: int|
            0 <= slot < self.slots.len() ==> {
                &&& (#[trigger] self.slots[slot]).queue.len() <= MULTISHOT_FIFO_DEPTH
                &&& !self.slots[slot].occupied ==> {
                    &&& !self.slots[slot].terminated
                    &&& !self.slots[slot].cancel_pending
                    &&& self.slots[slot].queue.len() == 0
                }
            }
    }

    /// Whether `key` names an occupied slot of this worker at its generation.
    pub open spec fn live(self, key: MultishotSlotKey) -> bool {
        &&& key.worker_id == self.worker_id
        &&& key.slot < self.slots.len()
        &&& self.slots[key.slot as int].occupied
        &&& self.slots[key.slot as int].generation == key.generation
    }

    /// Whether `slot` is occupied at the truncated generation a sentinel
    /// carries.
    pub open spec fn slot_live(self, slot: u16, generation_low16: u16) -> bool {
        &&& slot < self.slots.len()
        &&& self.slots[slot as int].occupied
        &&& self.slots[slot as int].generation % 0x1_0000 == generation_low16
    }

    /// The registry with one slot replaced.
    pub open spec fn with_slot(self, index: int, slot: MultishotSlot) -> MultishotSlots {
        MultishotSlots { slots: self.slots.update(index, slot), ..self }
    }

    /// Whether `index` is the lowest slot no op owns.
    pub open spec fn lowest_free(self, index: int) -> bool {
        &&& 0 <= index < self.slots.len()
        &&& !self.slots[index].occupied
        &&& forall|lower: int| 0 <= lower < index ==> (#[trigger] self.slots[lower]).occupied
    }

    /// Whether an op owns every slot.
    pub open spec fn full(self) -> bool {
        forall|slot: int| 0 <= slot < self.slots.len() ==> (#[trigger] self.slots[slot]).occupied
    }

    /// The first slot no op owns.
    pub open spec fn first_free(self) -> Option<int> {
        scan::first_index(self.slots, |slot: MultishotSlot| !slot.occupied)
    }

    /// The registry after an op owned by `owner_token` takes the first free
    /// slot.
    pub open spec fn allocated(self, owner_token: u64) -> MultishotSlots {
        match self.first_free() {
            Some(index) => self.with_slot(index, self.slots[index].occupied_by(owner_token)),
            None => self,
        }
    }

    /// The handle an allocation hands out.
    pub open spec fn allocated_key(self) -> Option<MultishotSlotKey> {
        match self.first_free() {
            Some(index) => Some(
                MultishotSlotKey {
                    slot: index as u16,
                    generation: self.slots[index].generation,
                    worker_id: self.worker_id,
                },
            ),
            None => None,
        }
    }

    /// What becomes of a completion for `slot`.
    pub open spec fn push_outcome(self, slot: u16, generation_low16: u16) -> MultishotPush {
        if !self.slot_live(slot, generation_low16) {
            MultishotPush::Stale
        } else if self.slots[slot as int].queue.len() >= MULTISHOT_FIFO_DEPTH {
            MultishotPush::Overflowed
        } else {
            MultishotPush::Queued
        }
    }

    /// The registry after a completion `result` for `slot` arrived.
    pub open spec fn pushed(
        self,
        slot: u16,
        generation_low16: u16,
        result: i32,
        is_more: bool,
    ) -> MultishotSlots {
        if self.slot_live(slot, generation_low16) {
            self.with_slot(slot as int, self.slots[slot as int].pushed(result, is_more))
        } else {
            self
        }
    }

    /// The oldest result queued for `key`.
    pub open spec fn front(self, key: MultishotSlotKey) -> Option<i32> {
        if self.live(key) && self.slots[key.slot as int].queue.len() > 0 {
            Some(self.slots[key.slot as int].queue[0])
        } else {
            None
        }
    }

    /// The registry after the oldest result queued for `key` is taken.
    pub open spec fn popped(self, key: MultishotSlotKey) -> MultishotSlots {
        if self.front(key) is Some {
            let slot = self.slots[key.slot as int];
            self.with_slot(
                key.slot as int,
                MultishotSlot { queue: slot.queue.drop_first(), ..slot },
            )
        } else {
            self
        }
    }

    /// The registry after every result queued for `key` is taken.
    pub open spec fn drained(self, key: MultishotSlotKey) -> MultishotSlots {
        if self.live(key) {
            self.with_slot(
                key.slot as int,
                MultishotSlot { queue: Seq::empty(), ..self.slots[key.slot as int] },
            )
        } else {
            self
        }
    }

    /// The results queued for `key`, oldest first.
    pub open spec fn queued(self, key: MultishotSlotKey) -> Seq<i32> {
        if self.live(key) {
            self.slots[key.slot as int].queue
        } else {
            Seq::empty()
        }
    }

    /// The task that owns `slot` at the sentinel's generation.
    pub open spec fn owner(self, slot: u16, generation_low16: u16) -> Option<u64> {
        if self.slot_live(slot, generation_low16) {
            Some(self.slots[slot as int].owner_token)
        } else {
            None
        }
    }

    /// Whether `key`'s op posted its final completion.
    pub open spec fn terminated(self, key: MultishotSlotKey) -> bool {
        self.live(key) && self.slots[key.slot as int].terminated
    }

    /// Whether `slot` is cancel-pending at the sentinel's generation.
    pub open spec fn cancel_pending(self, slot: u16, generation_low16: u16) -> bool {
        self.slot_live(slot, generation_low16) && self.slots[slot as int].cancel_pending
    }

    /// The registry after `key`'s slot is marked cancel-pending.
    pub open spec fn cancelling(self, key: MultishotSlotKey) -> MultishotSlots {
        if self.live(key) {
            self.with_slot(
                key.slot as int,
                MultishotSlot { cancel_pending: true, ..self.slots[key.slot as int] },
            )
        } else {
            self
        }
    }

    /// The registry after `key`'s slot is freed.
    pub open spec fn freed(self, key: MultishotSlotKey) -> MultishotSlots {
        if self.live(key) {
            self.with_slot(key.slot as int, self.slots[key.slot as int].freed())
        } else {
            self
        }
    }

    /// The registry after `slot` is freed at the sentinel's generation.
    pub open spec fn freed_slot(self, slot: u16, generation_low16: u16) -> MultishotSlots {
        if self.slot_live(slot, generation_low16) {
            self.with_slot(slot as int, self.slots[slot as int].freed())
        } else {
            self
        }
    }
}

/// A fresh registry of `cap` slots.
pub open spec fn empty_slots(worker_id: u8, cap: u16) -> MultishotSlots {
    MultishotSlots {
        worker_id,
        slots: Seq::new(
            cap as nat,
            |slot: int|
                MultishotSlot {
                    occupied: false,
                    terminated: false,
                    cancel_pending: false,
                    generation: 0,
                    owner_token: 0,
                    queue: Seq::empty(),
                },
        ),
    }
}

/// `cap` clamped to [`DEFAULT_MULTISHOT_CAP`].
pub open spec fn clamped_cap(cap: u16) -> u16 {
    if cap <= DEFAULT_MULTISHOT_CAP {
        cap
    } else {
        DEFAULT_MULTISHOT_CAP
    }
}

/// Per-worker fixed-capacity multishot registry.
pub struct MultishotSlab {
    /// Per-slot ring of pending completion results.
    results: [[i32; 64]; MAX_MULTISHOT_SLOTS],
    /// Per-slot ring read cursor.
    head: [u16; MAX_MULTISHOT_SLOTS],
    /// Per-slot count of queued results.
    len: [u16; MAX_MULTISHOT_SLOTS],
    occupied: Bitmap<BITMAP_WORDS>,
    /// The op posted its final completion; no more results will arrive.
    terminated: Bitmap<BITMAP_WORDS>,
    /// A cancel was submitted for the op; its final completion frees the slot.
    cancel_pending: Bitmap<BITMAP_WORDS>,
    /// Per-slot generation, bumped on free. A `u64` makes the reuse window
    /// effectively unbounded.
    generation: [u64; MAX_MULTISHOT_SLOTS],
    /// Per-slot owning task token, woken when a result lands in the FIFO.
    owner_token: [u64; MAX_MULTISHOT_SLOTS],
    worker_id: u8,
    cap: u16,
}

impl View for MultishotSlab {
    type V = MultishotSlots;

    closed spec fn view(&self) -> MultishotSlots {
        MultishotSlots {
            worker_id: self.worker_id,
            slots: Seq::new(self.cap as nat, |slot: int| self.slot_at(slot)),
        }
    }
}

impl MultishotSlab {
    spec fn queue_at(&self, slot: int) -> Seq<i32> {
        Seq::new(
            self.len[slot] as nat,
            |place: int| self.results[slot][(self.head[slot] + place) % 64],
        )
    }

    spec fn slot_at(&self, slot: int) -> MultishotSlot {
        MultishotSlot {
            occupied: self.occupied@[slot],
            terminated: self.terminated@[slot],
            cancel_pending: self.cancel_pending@[slot],
            generation: self.generation[slot],
            owner_token: self.owner_token[slot],
            queue: self.queue_at(slot),
        }
    }

    /// The ring cursors stay in the ring, and nothing is left in a slot that
    /// no op owns.
    pub closed spec fn wf(&self) -> bool {
        &&& self.cap <= MAX_MULTISHOT_SLOTS
        &&& forall|slot: int|
            #![trigger self.head[slot]]
            0 <= slot < MAX_MULTISHOT_SLOTS ==> self.head[slot] < 64
        &&& forall|slot: int|
            #![trigger self.len[slot]]
            0 <= slot < MAX_MULTISHOT_SLOTS ==> self.len[slot] <= 64
        &&& forall|slot: int|
            #![trigger self.occupied@[slot]]
            0 <= slot < MAX_MULTISHOT_SLOTS && !self.occupied@[slot] ==> {
                &&& !self.terminated@[slot]
                &&& !self.cancel_pending@[slot]
                &&& self.len[slot] == 0
            }
    }

    /// Every well-formed registry is valid.
    pub proof fn slab_is_valid(&self)
        requires
            self.wf(),
        ensures
            self@.valid(),
    {
    }

    /// Every slot but `changed` is as it was in `before`.
    spec fn only_slot_changed(&self, before: MultishotSlab, changed: int) -> bool {
        &&& self.cap == before.cap
        &&& self.worker_id == before.worker_id
        &&& forall|other: int|
            #![trigger self.slot_at(other)]
            0 <= other < MAX_MULTISHOT_SLOTS && other != changed ==> {
                &&& self.occupied@[other] == before.occupied@[other]
                &&& self.terminated@[other] == before.terminated@[other]
                &&& self.cancel_pending@[other] == before.cancel_pending@[other]
                &&& self.generation[other] == before.generation[other]
                &&& self.owner_token[other] == before.owner_token[other]
                &&& self.head[other] == before.head[other]
                &&& self.len[other] == before.len[other]
                &&& self.results[other] == before.results[other]
            }
    }

    /// When only `changed` differs from `before`, the view differs only there.
    proof fn lemma_one_slot(&self, before: MultishotSlab, changed: int, slot: MultishotSlot)
        requires
            before.wf(),
            0 <= changed < before.cap,
            self.only_slot_changed(before, changed),
            self.slot_at(changed) == slot,
        ensures
            self@ == before@.with_slot(changed, slot),
    {
        assert forall|other: int| 0 <= other < self.cap && other != changed implies #[trigger]
            self.slot_at(other) == before.slot_at(other) by {
            assert(self.slot_at(other).queue =~= before.slot_at(other).queue);
        }
        assert(self@.slots =~= before@.slots.update(changed, slot));
    }

    /// Builds a registry of `cap` slots (clamped to [`DEFAULT_MULTISHOT_CAP`])
    /// for `worker_id`.
    #[must_use]
    pub fn new(worker_id: u8, cap: u16) -> (slab: Self)
        ensures
            slab.wf(),
            slab@ == empty_slots(worker_id, clamped_cap(cap)),
            cap > 0 ==> slab@.lowest_free(0),
    {
        let cap: u16 = if cap <= DEFAULT_MULTISHOT_CAP {
            cap
        } else {
            DEFAULT_MULTISHOT_CAP
        };
        let slab = MultishotSlab {
            results: [[0i32; 64]; MAX_MULTISHOT_SLOTS],
            head: [0u16; MAX_MULTISHOT_SLOTS],
            len: [0u16; MAX_MULTISHOT_SLOTS],
            occupied: Bitmap::new(),
            terminated: Bitmap::new(),
            cancel_pending: Bitmap::new(),
            generation: [0u64; MAX_MULTISHOT_SLOTS],
            owner_token: [0u64; MAX_MULTISHOT_SLOTS],
            worker_id,
            cap,
        };
        proof {
            assert(slab@ =~= empty_slots(worker_id, cap)) by {
                assert forall|slot: int| 0 <= slot < cap implies slab@.slots[slot]
                    == empty_slots(worker_id, cap).slots[slot] by {
                    assert(slab.queue_at(slot) =~= Seq::<i32>::empty());
                }
            }
        }
        slab
    }

    /// Whether `key` names a currently-occupied slot at its generation.
    pub fn is_live(&self, key: MultishotSlotKey) -> (flag: bool)
        requires
            self.wf(),
        ensures
            flag == self@.live(key),
    {
        if key.worker_id != self.worker_id {
            return false;
        }
        if key.slot >= self.cap {
            return false;
        }
        self.occupied.get(key.slot as usize) && self.generation[key.slot as usize]
            == key.generation
    }

    /// Whether `slot` is occupied at the low-16-bit `generation`.
    fn is_slot_live(&self, slot: u16, generation_low16: u16) -> (flag: bool)
        requires
            self.wf(),
        ensures
            flag == self@.slot_live(slot, generation_low16),
    {
        if slot >= self.cap {
            return false;
        }
        self.occupied.get(slot as usize) && self.generation[slot as usize] % 0x1_0000
            == generation_low16 as u64
    }

    /// First unoccupied slot below `cap`, or `None` when full.
    fn first_free(&self) -> (found: Option<usize>)
        requires
            self.wf(),
        ensures
            match found {
                Some(slot) => slot < self.cap && self@.first_free() == Some(slot as int),
                None => self@.first_free() is None,
            },
    {
        let found = self.occupied.first_clear(self.cap as usize);
        proof {
            let wanted = |slot: MultishotSlot| !slot.occupied;
            match found {
                Some(slot) => {
                    scan::lemma_first_index_is(self@.slots, wanted, slot as int);
                },
                None => {
                    scan::lemma_first_index_none(self@.slots, wanted);
                },
            }
        }
        found
    }

    /// Allocates the first free slot for a multishot op, returning its handle.
    ///
    /// `owner_token` is the task woken on each completion. The op's cancel
    /// target is the multishot sentinel derived from the returned key, so no
    /// token is passed in. Returns `None` when every slot is occupied.
    pub fn allocate(&mut self, owner_token: u64) -> (key: Option<MultishotSlotKey>)
        requires
            old(self).wf(),
        ensures
            final(self).wf(),
            key == old(self)@.allocated_key(),
            final(self)@ == old(self)@.allocated(owner_token),
            match key {
                Some(handle) => {
                    &&& old(self)@.lowest_free(handle.slot as int)
                    &&& final(self)@.live(handle)
                    &&& !old(self)@.live(handle)
                },
                None => old(self)@.full(),
            },
    {
        proof {
            scan::first_index_finds(self@.slots, |slot: MultishotSlot| !slot.occupied);
        }
        let slot: usize = match self.first_free() {
            Some(slot) => slot,
            None => return None,
        };
        proof {
            assert(!self@.slots[slot as int].occupied);
        }
        self.occupied.set(slot);
        self.terminated.clear(slot);
        self.cancel_pending.clear(slot);
        self.head[slot] = 0;
        self.len[slot] = 0;
        self.owner_token[slot] = owner_token;
        proof {
            let after = old(self)@.slots[slot as int].occupied_by(owner_token);
            assert(self.slot_at(slot as int) =~= after);
            self.lemma_one_slot(*old(self), slot as int, after);
        }
        Some(
            MultishotSlotKey {
                slot: slot as u16,
                generation: self.generation[slot],
                worker_id: self.worker_id,
            },
        )
    }

    /// Queues a completion `result` for `slot`, marking the slot terminated
    /// when `is_more` is clear. `generation_low16` rejects a stale sentinel.
    ///
    /// The drain matches this slot only while occupied at the sentinel's
    /// generation; a freed or reused slot yields [`MultishotPush::Stale`].
    pub fn push(&mut self, slot: u16, generation_low16: u16, result: i32, is_more: bool) -> (outcome:
        MultishotPush)
        requires
            old(self).wf(),
        ensures
            final(self).wf(),
            outcome == old(self)@.push_outcome(slot, generation_low16),
            final(self)@ == old(self)@.pushed(slot, generation_low16, result, is_more),
    {
        if !self.is_slot_live(slot, generation_low16) {
            return MultishotPush::Stale;
        }
        let index: usize = slot as usize;
        if !is_more {
            self.terminated.set(index);
        }
        let ghost after = old(self)@.slots[slot as int].pushed(result, is_more);
        if self.len[index] >= MULTISHOT_FIFO_DEPTH {
            proof {
                assert(self.slot_at(slot as int) =~= after);
                self.lemma_one_slot(*old(self), slot as int, after);
            }
            return MultishotPush::Overflowed;
        }
        let place: u16 = (self.head[index] + self.len[index]) % MULTISHOT_FIFO_DEPTH;
        self.results[index][place as usize] = result;
        self.len[index] = self.len[index] + 1;
        proof {
            assert(self.queue_at(slot as int) =~= old(self).queue_at(slot as int).push(result));
            assert(self.slot_at(slot as int) =~= after);
            self.lemma_one_slot(*old(self), slot as int, after);
        }
        MultishotPush::Queued
    }

    /// Pops the oldest queued result for `key`, or `None` when the FIFO is
    /// empty or `key` is stale.
    pub fn pop(&mut self, key: MultishotSlotKey) -> (result: Option<i32>)
        requires
            old(self).wf(),
        ensures
            final(self).wf(),
            result == old(self)@.front(key),
            final(self)@ == old(self)@.popped(key),
    {
        if !self.is_live(key) || self.len[key.slot as usize] == 0 {
            return None;
        }
        let index: usize = key.slot as usize;
        let head: u16 = self.head[index];
        let result: i32 = self.results[index][head as usize];
        self.head[index] = (head + 1) % MULTISHOT_FIFO_DEPTH;
        self.len[index] = self.len[index] - 1;
        proof {
            let before = old(self)@.slots[key.slot as int];
            let after = MultishotSlot { queue: before.queue.drop_first(), ..before };
            assert(self.queue_at(key.slot as int) =~= before.queue.drop_first());
            self.lemma_one_slot(*old(self), key.slot as int, after);
        }
        Some(result)
    }

    /// Returns the owning task token for `slot` at the sentinel's generation,
    /// or `None` when the slot is stale. The drain calls this to wake the
    /// owner.
    pub fn owner(&self, slot: u16, generation_low16: u16) -> (owner: Option<u64>)
        requires
            self.wf(),
        ensures
            owner == self@.owner(slot, generation_low16),
    {
        if !self.is_slot_live(slot, generation_low16) {
            return None;
        }
        Some(self.owner_token[slot as usize])
    }

    /// Returns whether `key`'s op has posted its final completion.
    pub fn is_terminated(&self, key: MultishotSlotKey) -> (flag: bool)
        requires
            self.wf(),
        ensures
            flag == self@.terminated(key),
    {
        if !self.is_live(key) {
            return false;
        }
        self.terminated.get(key.slot as usize)
    }

    /// Marks `key`'s slot cancel-pending. A stale handle is a no-op.
    pub fn mark_cancel_pending(&mut self, key: MultishotSlotKey)
        requires
            old(self).wf(),
        ensures
            final(self).wf(),
            final(self)@ == old(self)@.cancelling(key),
    {
        if !self.is_live(key) {
            return;
        }
        self.cancel_pending.set(key.slot as usize);
        proof {
            let before = old(self)@.slots[key.slot as int];
            let after = MultishotSlot { cancel_pending: true, ..before };
            assert(self.slot_at(key.slot as int) =~= after);
            self.lemma_one_slot(*old(self), key.slot as int, after);
        }
    }

    /// Empties a slot and bumps its generation.
    fn release(&mut self, slot: usize)
        requires
            old(self).wf(),
            slot < old(self).cap,
        ensures
            final(self).wf(),
            final(self)@ == old(self)@.with_slot(
                slot as int,
                old(self)@.slots[slot as int].freed(),
            ),
    {
        self.occupied.clear(slot);
        self.terminated.clear(slot);
        self.cancel_pending.clear(slot);
        self.len[slot] = 0;
        self.generation[slot] = self.generation[slot].wrapping_add(1);
        proof {
            let after = old(self)@.slots[slot as int].freed();
            assert(self.slot_at(slot as int) =~= after);
            self.lemma_one_slot(*old(self), slot as int, after);
        }
    }

    /// Frees `key`'s slot, bumping its generation. A stale handle is a no-op.
    pub fn free(&mut self, key: MultishotSlotKey)
        requires
            old(self).wf(),
        ensures
            final(self).wf(),
            final(self)@ == old(self)@.freed(key),
    {
        if !self.is_live(key) {
            return;
        }
        self.release(key.slot as usize);
    }

    /// Whether `slot` is cancel-pending at `generation_low16`.
    ///
    /// The completion drain reads this by the sentinel's slot and low-16
    /// generation to tell a dropped stream's op (cancel-pending) from a live
    /// one.
    pub fn is_cancel_pending(&self, slot: u16, generation_low16: u16) -> (flag: bool)
        requires
            self.wf(),
        ensures
            flag == self@.cancel_pending(slot, generation_low16),
    {
        if !self.is_slot_live(slot, generation_low16) {
            return false;
        }
        self.cancel_pending.get(slot as usize)
    }

    /// Frees `slot` when occupied at `generation_low16`, bumping its
    /// generation.
    ///
    /// The drain calls this on the terminal completion of a cancel-pending op,
    /// keyed by the sentinel's slot and low-16 generation; a stale slot is a
    /// no-op.
    pub fn free_by_slot(&mut self, slot: u16, generation_low16: u16)
        requires
            old(self).wf(),
        ensures
            final(self).wf(),
            final(self)@ == old(self)@.freed_slot(slot, generation_low16),
    {
        if !self.is_slot_live(slot, generation_low16) {
            return;
        }
        self.release(slot as usize);
    }
}

} // verus!
