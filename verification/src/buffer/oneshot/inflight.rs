//! Per-worker in-flight buffer registry for drop-safe completion futures.
//!
//! Completion-based I/O hands the kernel a buffer that must outlive the
//! submitting future. If the future is dropped before its completion arrives,
//! inline storage would free under an in-flight kernel write. This registry
//! owns the bytes instead: a future holds a Copy [`InflightSlotKey`], and the
//! bytes live in fixed-capacity storage freed only after the completion is
//! harvested, never on the drop.
//!
//! Generational: each slot carries a generation bumped on free, so a stale
//! handle for a reused slot is rejected. A retire-pending bit alone cannot
//! tell one occupant from the next.

use vstd::prelude::*;

use crate::buffer::bitmap::Bitmap;
use crate::buffer::mmap;
use crate::buffer::mmap::MmapRegion;
use crate::buffer::scan;
use crate::error::IoError;

verus! {

broadcast use crate::buffer::bitmap::lemma_bitmap_len;

/// Per-slot byte capacity; a buffered future's `CAP` must not exceed this.
pub const INFLIGHT_BUF_STRIDE: u32 = 4096;

/// Public capacity ceiling for a single buffered op's `CAP`.
///
/// Mirrors the per-slot in-flight stride as a `usize`: a buffer past this
/// stride cannot submit.
pub const MAX_INLINE_CAP: usize = 4096;

/// Default in-flight slots per worker.
pub const DEFAULT_INFLIGHT_CAP: u16 = 256;

/// Slot-count ceiling that sizes the inline bitmaps and per-slot tables.
const MAX_INFLIGHT_SLOTS: usize = 256;

/// Bitmap words covering the slot-count ceiling.
const BITMAP_WORDS: usize = 4;

/// A Copy handle into the in-flight buffer registry.
///
/// Held by a completion future in place of inline byte storage. The
/// `generation` guards slot reuse: once the slot is freed its generation is
/// bumped, so a stale future or a stale cancel that still names the old
/// generation is rejected rather than touching a reallocated slot.
#[derive(Debug, Clone, Copy, PartialEq, Eq, Structural)]
pub struct InflightSlotKey {
    /// Slot index in the owning worker's registry.
    pub slot: u16,
    /// Generation captured at allocation.
    pub generation: u64,
    /// Worker whose registry owns the slot.
    pub worker_id: u8,
    /// Submitted op `user_data`; the cancel target when the future drops.
    pub op_token: u64,
}

/// What one slot of the registry holds.
#[verifier::ext_equal]
pub struct InflightSlot {
    /// An op owns the slot.
    pub occupied: bool,
    /// The owning future dropped; the op's completion frees the slot.
    pub retire_pending: bool,
    /// A primary completion announced a notification still to come.
    pub notif_expected: bool,
    /// The notification arrived while the owning future was live.
    pub notif_ready: bool,
    /// Generation of the current or next occupant.
    pub generation: u64,
    /// The last occupant's op `user_data`.
    pub op_token: u64,
    /// The slot's bytes.
    pub bytes: Seq<u8>,
}

impl InflightSlot {
    /// The slot after its occupant leaves: no flag survives, the generation
    /// moves on, the bytes stay until the next occupant writes them.
    pub open spec fn freed(self) -> InflightSlot {
        InflightSlot {
            occupied: false,
            retire_pending: false,
            notif_expected: false,
            notif_ready: false,
            generation: next_generation(self.generation),
            ..self
        }
    }

    /// The slot once an op with `op_token` owns it.
    pub open spec fn occupied_by(self, op_token: u64) -> InflightSlot {
        InflightSlot { occupied: true, op_token, ..self }
    }
}

/// The generation after `generation`, wrapping at the top of `u64`.
pub open spec fn next_generation(generation: u64) -> u64 {
    if generation == u64::MAX {
        0
    } else {
        (generation + 1) as u64
    }
}

/// What a registry holds: its worker and its slots, in slot order.
#[verifier::ext_equal]
pub struct InflightSlots {
    /// Worker whose registry this is.
    pub worker_id: u8,
    /// The slots.
    pub slots: Seq<InflightSlot>,
}

impl InflightSlots {
    /// What every registry keeps: at most [`DEFAULT_INFLIGHT_CAP`] slots, each
    /// a stride wide, and no flag on a slot that no op owns.
    pub open spec fn valid(self) -> bool {
        &&& self.slots.len() <= DEFAULT_INFLIGHT_CAP
        &&& forall|slot: int|
            0 <= slot < self.slots.len() ==> {
                &&& (#[trigger] self.slots[slot]).bytes.len() == INFLIGHT_BUF_STRIDE
                &&& !self.slots[slot].occupied ==> {
                    &&& !self.slots[slot].retire_pending
                    &&& !self.slots[slot].notif_expected
                    &&& !self.slots[slot].notif_ready
                }
            }
    }

    /// Whether `key` names an occupied slot of this worker at its generation.
    pub open spec fn live(self, key: InflightSlotKey) -> bool {
        &&& key.worker_id == self.worker_id
        &&& key.slot < self.slots.len()
        &&& self.slots[key.slot as int].occupied
        &&& self.slots[key.slot as int].generation == key.generation
    }

    /// The registry with `slot` replaced.
    pub open spec fn with_slot(self, index: int, slot: InflightSlot) -> InflightSlots {
        InflightSlots { slots: self.slots.update(index, slot), ..self }
    }

    /// Whether `index` is the lowest slot no op owns.
    pub open spec fn lowest_free(self, index: int) -> bool {
        &&& 0 <= index < self.slots.len()
        &&& !self.slots[index].occupied
        &&& forall|lower: int| 0 <= lower < index ==> (#[trigger] self.slots[lower]).occupied
    }

    /// Whether an op owns every slot.
    pub open spec fn full(self) -> bool {
        forall|slot: int| 0 <= slot < self.slots.len() ==> (#[trigger] self.slots[slot]).occupied
    }

    /// The first slot no op owns.
    pub open spec fn first_free(self) -> Option<int> {
        scan::first_index(self.slots, |slot: InflightSlot| !slot.occupied)
    }

    /// Whether a dropped op with `op_token` left a slot behind.
    pub open spec fn has_retiring(self, op_token: u64) -> bool {
        exists|slot: int|
            0 <= slot < self.slots.len() && (#[trigger] self.slots[slot]).retire_pending
                && self.slots[slot].op_token == op_token
    }

    /// The first slot whose dropped op carries `op_token`.
    pub open spec fn first_retiring(self, op_token: u64) -> Option<int> {
        scan::first_index(
            self.slots,
            |slot: InflightSlot| slot.retire_pending && slot.op_token == op_token,
        )
    }

    /// The first slot an op with `op_token` owns.
    pub open spec fn first_owned(self, op_token: u64) -> Option<int> {
        scan::first_index(
            self.slots,
            |slot: InflightSlot| slot.occupied && slot.op_token == op_token,
        )
    }

    /// The registry after an op with `op_token` takes the first free slot.
    pub open spec fn allocated(self, op_token: u64) -> InflightSlots {
        match self.first_free() {
            Some(index) => self.with_slot(index, self.slots[index].occupied_by(op_token)),
            None => self,
        }
    }

    /// The handle an allocation for `op_token` hands out.
    pub open spec fn allocated_key(self, op_token: u64) -> Option<InflightSlotKey> {
        match self.first_free() {
            Some(index) => Some(
                InflightSlotKey {
                    slot: index as u16,
                    generation: self.slots[index].generation,
                    worker_id: self.worker_id,
                    op_token,
                },
            ),
            None => None,
        }
    }

    /// The registry after `key`'s slot is freed; a stale `key` changes nothing.
    pub open spec fn freed(self, key: InflightSlotKey) -> InflightSlots {
        if self.live(key) {
            self.with_slot(key.slot as int, self.slots[key.slot as int].freed())
        } else {
            self
        }
    }

    /// The registry after `key`'s slot is marked retire-pending; a stale `key`
    /// changes nothing.
    pub open spec fn retiring(self, key: InflightSlotKey) -> InflightSlots {
        if self.live(key) {
            self.with_slot(
                key.slot as int,
                InflightSlot { retire_pending: true, ..self.slots[key.slot as int] },
            )
        } else {
            self
        }
    }

    /// The registry after the completion of the op `op_token`: the first slot
    /// a dropped op with that token left behind is freed.
    pub open spec fn reclaimed(self, op_token: u64) -> InflightSlots {
        match self.first_retiring(op_token) {
            Some(index) => self.with_slot(index, self.slots[index].freed()),
            None => self,
        }
    }

    /// Whether a cancel that found its target gone may free `slot` at the
    /// truncated generation: its op was dropped, and the kernel is done with
    /// the bytes.
    pub open spec fn cancel_frees(self, slot: u16, generation_low16: u16) -> bool {
        &&& slot < self.slots.len()
        &&& self.slots[slot as int].occupied
        &&& self.slots[slot as int].retire_pending
        &&& self.slots[slot as int].generation % 0x1_0000 == generation_low16
        &&& self.slots[slot as int].notif_expected ==> self.slots[slot as int].notif_ready
    }

    /// The registry after a cancel found the target in `slot` gone.
    pub open spec fn cancelled(self, slot: u16, generation_low16: u16) -> InflightSlots {
        if self.cancel_frees(slot, generation_low16) {
            self.with_slot(slot as int, self.slots[slot as int].freed())
        } else {
            self
        }
    }

    /// The registry after the primary completion of `op_token` announced a
    /// notification.
    pub open spec fn notif_expected(self, op_token: u64) -> InflightSlots {
        match self.first_owned(op_token) {
            Some(index) => self.with_slot(
                index,
                InflightSlot { notif_expected: true, ..self.slots[index] },
            ),
            None => self,
        }
    }

    /// The registry after the notification for a live `op_token` arrived.
    pub open spec fn notif_ready(self, op_token: u64) -> InflightSlots {
        match self.first_owned(op_token) {
            Some(index) => self.with_slot(
                index,
                InflightSlot { notif_ready: true, ..self.slots[index] },
            ),
            None => self,
        }
    }

    /// The registry after `src` is copied into `key`'s slot from byte `at` on;
    /// a stale `key`, or a copy that would leave the slot, changes nothing.
    pub open spec fn written(self, key: InflightSlotKey, at: int, src: Seq<u8>) -> InflightSlots {
        if self.live(key) && at + src.len() <= INFLIGHT_BUF_STRIDE {
            let slot = self.slots[key.slot as int];
            self.with_slot(
                key.slot as int,
                InflightSlot { bytes: mmap::overwritten(slot.bytes, at, src), ..slot },
            )
        } else {
            self
        }
    }
}

/// Per-worker fixed-capacity in-flight buffer registry.
///
/// Owns the bytes for every buffered op in flight on its worker. A slot is
/// freed only by the completion drain after the kernel signals it is done,
/// never by the future's drop, so the kernel never writes freed memory.
pub struct InflightBufSlab {
    storage: MmapRegion,
    occupied: Bitmap<BITMAP_WORDS>,
    retire_pending: Bitmap<BITMAP_WORDS>,
    /// A `SEND_ZC` primary completion arrived with `IORING_CQE_F_MORE`, so a
    /// notification releasing the buffer is still expected. Gates the
    /// `-ENOENT` cancel free so a slot the kernel may still read is not freed
    /// before its notification lands.
    notif_expected: Bitmap<BITMAP_WORDS>,
    /// The notification arrived while the owning future was still live, so the
    /// kernel has released the buffer. The live future reads this by key on
    /// its next poll and frees its own slot.
    notif_ready: Bitmap<BITMAP_WORDS>,
    /// Bumped on free. A `u64` makes the reuse window effectively unbounded.
    generation: [u64; MAX_INFLIGHT_SLOTS],
    /// Submitted op `user_data`, matched when the op's own completion frees
    /// the slot. A task holds at most one outstanding buffered completion, so
    /// an `op_token` is unique across live slots.
    op_token: [u64; MAX_INFLIGHT_SLOTS],
    worker_id: u8,
    cap: u16,
}

impl View for InflightBufSlab {
    type V = InflightSlots;

    closed spec fn view(&self) -> InflightSlots {
        InflightSlots {
            worker_id: self.worker_id,
            slots: Seq::new(self.cap as nat, |slot: int| self.slot_at(slot)),
        }
    }
}

impl InflightBufSlab {
    spec fn slot_at(&self, slot: int) -> InflightSlot {
        InflightSlot {
            occupied: self.occupied@[slot],
            retire_pending: self.retire_pending@[slot],
            notif_expected: self.notif_expected@[slot],
            notif_ready: self.notif_ready@[slot],
            generation: self.generation[slot],
            op_token: self.op_token[slot],
            bytes: self.storage@.subrange(slot * 4096, slot * 4096 + 4096),
        }
    }

    /// The storage spans the slots, and a slot no op owns carries no flag.
    pub closed spec fn wf(&self) -> bool {
        &&& 0 < self.cap <= MAX_INFLIGHT_SLOTS
        &&& self.storage@.len() == self.cap * 4096
        &&& forall|slot: int|
            #![trigger self.occupied@[slot]]
            #![trigger self.retire_pending@[slot]]
            0 <= slot < MAX_INFLIGHT_SLOTS && (slot >= self.cap || !self.occupied@[slot]) ==> {
                &&& !self.occupied@[slot]
                &&& !self.retire_pending@[slot]
                &&& !self.notif_expected@[slot]
                &&& !self.notif_ready@[slot]
            }
    }

    /// Every well-formed registry is valid.
    pub proof fn slab_is_valid(&self)
        requires
            self.wf(),
        ensures
            self@.valid(),
            0 < self@.slots.len(),
    {
    }

    /// Builds a registry of `cap` slots (clamped to [`DEFAULT_INFLIGHT_CAP`])
    /// for `worker_id`, each [`INFLIGHT_BUF_STRIDE`] bytes wide, over storage
    /// that the system grants.
    ///
    /// # Errors
    ///
    /// Returns [`IoError::ZeroLengthRegion`] when `cap` is zero.
    pub fn new(worker_id: u8, cap: u16) -> (outcome: Result<Self, IoError>)
        ensures
            match outcome {
                Ok(slab) => {
                    &&& cap > 0
                    &&& slab.wf()
                    &&& slab@ == empty_slots(worker_id, clamped_cap(cap))
                    &&& slab@.lowest_free(0)
                },
                Err(error) => cap == 0 && error == IoError::ZeroLengthRegion,
            },
    {
        Self::mapped(worker_id, cap, None)
    }

    /// Builds a registry as [`new`](Self::new) does, with `refused` the errno
    /// the system gave when it was asked to map the slots' storage, or `None`
    /// where it granted it.
    ///
    /// # Errors
    ///
    /// Returns [`IoError::ZeroLengthRegion`] when `cap` is zero, and otherwise
    /// the errno of a refusal.
    pub fn mapped(worker_id: u8, cap: u16, refused: Option<i32>) -> (outcome: Result<
        Self,
        IoError,
    >)
        ensures
            match outcome {
                Ok(slab) => {
                    &&& mmap::region_error(cap as int, refused) is None
                    &&& slab.wf()
                    &&& slab@ == empty_slots(worker_id, clamped_cap(cap))
                    &&& slab@.lowest_free(0)
                },
                Err(error) => mmap::region_error(cap as int, refused) == Some(error),
            },
    {
        let cap: u16 = if cap <= DEFAULT_INFLIGHT_CAP {
            cap
        } else {
            DEFAULT_INFLIGHT_CAP
        };
        let storage = match MmapRegion::mapped(cap as usize * 4096, refused) {
            Ok(storage) => storage,
            Err(error) => return Err(error),
        };
        let slab = InflightBufSlab {
            storage,
            occupied: Bitmap::new(),
            retire_pending: Bitmap::new(),
            notif_expected: Bitmap::new(),
            notif_ready: Bitmap::new(),
            generation: [0u64; MAX_INFLIGHT_SLOTS],
            op_token: [0u64; MAX_INFLIGHT_SLOTS],
            worker_id,
            cap,
        };
        proof {
            assert forall|slot: int| 0 <= slot < cap implies slab.slot_at(slot)
                =~= empty_slot() by {}
            assert(slab@ =~= empty_slots(worker_id, cap));
        }
        Ok(slab)
    }

    /// Whether `key` names a live slot this registry owns at the matching
    /// generation.
    ///
    /// Checks worker ownership and slot occupancy alongside the generation, so
    /// a cross-worker handle or a fabricated key for an unallocated slot is
    /// rejected, not just a stale one.
    pub fn is_live(&self, key: InflightSlotKey) -> (flag: bool)
        requires
            self.wf(),
        ensures
            flag == self@.live(key),
    {
        if key.worker_id != self.worker_id {
            return false;
        }
        if key.slot >= self.cap {
            return false;
        }
        self.occupied.get(key.slot as usize) && self.generation[key.slot as usize]
            == key.generation
    }

    /// First free slot within `cap`.
    fn first_free(&self) -> (found: Option<usize>)
        requires
            self.wf(),
        ensures
            match found {
                Some(slot) => slot < self.cap && self@.first_free() == Some(slot as int),
                None => self@.first_free() is None,
            },
    {
        let found = self.occupied.first_clear(self.cap as usize);
        proof {
            let wanted = |slot: InflightSlot| !slot.occupied;
            match found {
                Some(slot) => {
                    scan::lemma_first_index_is(self@.slots, wanted, slot as int);
                },
                None => {
                    scan::lemma_first_index_none(self@.slots, wanted);
                },
            }
        }
        found
    }

    /// Allocates the first free slot for an op, returning its handle.
    ///
    /// Returns `None` when every slot is occupied; the caller surfaces that
    /// as an error rather than blocking.
    pub fn allocate(&mut self, op_token: u64) -> (key: Option<InflightSlotKey>)
        requires
            old(self).wf(),
        ensures
            final(self).wf(),
            key == old(self)@.allocated_key(op_token),
            final(self)@ == old(self)@.allocated(op_token),
            match key {
                Some(handle) => {
                    &&& old(self)@.lowest_free(handle.slot as int)
                    &&& final(self)@.live(handle)
                    &&& !old(self)@.live(handle)
                },
                None => old(self)@.full(),
            },
    {
        proof {
            scan::first_index_finds(self@.slots, |slot: InflightSlot| !slot.occupied);
        }
        let slot: usize = match self.first_free() {
            Some(slot) => slot,
            None => return None,
        };
        proof {
            assert(!self@.slots[slot as int].occupied);
        }
        self.occupied.set(slot);
        self.op_token[slot] = op_token;
        proof {
            self.lemma_one_slot(*old(self), slot as int, old(self)@.slots[slot as int].occupied_by(op_token));
        }
        Some(
            InflightSlotKey {
                slot: slot as u16,
                generation: self.generation[slot],
                worker_id: self.worker_id,
                op_token,
            },
        )
    }

    /// Empties an occupied slot and bumps its generation.
    fn release(&mut self, slot: usize)
        requires
            old(self).wf(),
            slot < old(self).cap,
        ensures
            final(self).wf(),
            final(self).cap == old(self).cap,
            final(self)@ == old(self)@.with_slot(
                slot as int,
                old(self)@.slots[slot as int].freed(),
            ),
    {
        self.occupied.clear(slot);
        self.retire_pending.clear(slot);
        self.notif_expected.clear(slot);
        self.notif_ready.clear(slot);
        self.generation[slot] = self.generation[slot].wrapping_add(1);
        proof {
            self.lemma_one_slot(*old(self), slot as int, old(self)@.slots[slot as int].freed());
        }
    }

    /// Frees `key`'s slot, bumping its generation so later stale handles are
    /// rejected. A stale handle (the slot was already freed and reused) is a
    /// no-op.
    pub fn free(&mut self, key: InflightSlotKey)
        requires
            old(self).wf(),
        ensures
            final(self).wf(),
            final(self)@ == old(self)@.freed(key),
    {
        if !self.is_live(key) {
            return;
        }
        self.release(key.slot as usize);
    }

    /// Marks `key`'s slot retire-pending. A stale handle is a no-op.
    pub fn mark_retire_pending(&mut self, key: InflightSlotKey)
        requires
            old(self).wf(),
        ensures
            final(self).wf(),
            final(self)@ == old(self)@.retiring(key),
    {
        if !self.is_live(key) {
            return;
        }
        self.retire_pending.set(key.slot as usize);
        proof {
            let slot = old(self)@.slots[key.slot as int];
            self.lemma_one_slot(
                *old(self),
                key.slot as int,
                InflightSlot { retire_pending: true, ..slot },
            );
        }
    }

    /// Returns whether `slot` is currently marked retire-pending.
    pub fn is_retire_pending(&self, slot: u16) -> (flag: bool)
        requires
            self.wf(),
        ensures
            flag == (slot < self@.slots.len() && self@.slots[slot as int].retire_pending),
    {
        if slot >= self.cap {
            return false;
        }
        self.retire_pending.get(slot as usize)
    }

    /// Frees the retire-pending slot whose op matches `op_token`, returning
    /// whether a slot was freed.
    ///
    /// Called from the completion drain on the original buffered op's own
    /// completion. That completion is the kernel's signal it is done with the
    /// slot's bytes, for every cancel outcome, so freeing here -- not on the
    /// cancel op's own completion -- keeps a still-in-flight write from landing
    /// in a reused slot.
    ///
    /// Only retire-pending slots are eligible: a slot still owned by a live
    /// future frees through its own harvest, never here.
    pub fn free_by_op_token(&mut self, op_token: u64) -> (freed: bool)
        requires
            old(self).wf(),
        ensures
            final(self).wf(),
            freed == (old(self)@.first_retiring(op_token) is Some),
            freed == old(self)@.has_retiring(op_token),
            final(self)@ == old(self)@.reclaimed(op_token),
    {
        proof {
            scan::first_index_finds(
                self@.slots,
                |slot: InflightSlot| slot.retire_pending && slot.op_token == op_token,
            );
        }
        let ghost wanted = |slot: InflightSlot| slot.retire_pending && slot.op_token == op_token;
        let mut from: usize = 0;
        while from < MAX_INFLIGHT_SLOTS
            invariant
                from <= MAX_INFLIGHT_SLOTS,
                self.wf(),
                *self == *old(self),
                wanted == (|slot: InflightSlot| slot.retire_pending && slot.op_token == op_token),
                forall|slot: int|
                    0 <= slot < from && slot < self.cap ==> !wanted(#[trigger] self@.slots[slot]),
            decreases MAX_INFLIGHT_SLOTS - from,
        {
            let slot: usize = match self.retire_pending.next_set(from) {
                Some(slot) => slot,
                None => {
                    proof {
                        scan::lemma_first_index_none(self@.slots, wanted);
                    }
                    return false;
                },
            };
            if self.op_token[slot] == op_token && self.occupied.get(slot) {
                proof {
                    scan::lemma_first_index_is(self@.slots, wanted, slot as int);
                }
                self.release(slot);
                return true;
            }
            from = slot + 1;
        }
        proof {
            scan::lemma_first_index_none(self@.slots, wanted);
        }
        false
    }

    /// Frees `slot` when it is retire-pending, occupied, at the matching
    /// truncated generation, and not awaiting a `SEND_ZC` notification.
    ///
    /// Called from the completion drain on a cancel completion that reported
    /// `-ENOENT`: the target op already completed before the cancel, so no
    /// op-token completion will arrive to free the slot. The cancel sentinel
    /// carries the slot's low 16 generation bits, matched here so a stale
    /// cancel completion cannot free a slot the same op token has since reused
    /// at a later generation.
    ///
    /// A `SEND_ZC` slot is the one exception: its primary completion does not
    /// mean the kernel is done with the buffer. A slot whose notification is
    /// expected but not yet seen therefore refuses the free.
    pub fn free_if_retire_pending(&mut self, slot: u16, generation_low16: u16)
        requires
            old(self).wf(),
        ensures
            final(self).wf(),
            final(self)@ == old(self)@.cancelled(slot, generation_low16),
    {
        if slot >= self.cap {
            return;
        }
        let index: usize = slot as usize;
        let is_occupied = self.occupied.get(index);
        let is_pending = self.retire_pending.get(index);
        let matches_generation = self.generation[index] % 0x1_0000 == generation_low16 as u64;
        let is_notif_expected = self.notif_expected.get(index);
        let is_notif_ready = self.notif_ready.get(index);
        if !is_occupied || !is_pending || !matches_generation || (is_notif_expected
            && !is_notif_ready) {
            return;
        }
        self.release(index);
    }

    /// First occupied slot whose op carries `op_token`.
    fn find_owned(&self, op_token: u64) -> (found: Option<usize>)
        requires
            self.wf(),
        ensures
            match found {
                Some(slot) => slot < self.cap && self@.first_owned(op_token) == Some(slot as int)
                    && self@.slots[slot as int].occupied,
                None => self@.first_owned(op_token) is None,
            },
    {
        let ghost wanted = |slot: InflightSlot| slot.occupied && slot.op_token == op_token;
        let mut from: usize = 0;
        while from < MAX_INFLIGHT_SLOTS
            invariant
                from <= MAX_INFLIGHT_SLOTS,
                self.wf(),
                wanted == (|slot: InflightSlot| slot.occupied && slot.op_token == op_token),
                forall|slot: int|
                    0 <= slot < from && slot < self.cap ==> !wanted(#[trigger] self@.slots[slot]),
            decreases MAX_INFLIGHT_SLOTS - from,
        {
            let slot: usize = match self.occupied.next_set(from) {
                Some(slot) => slot,
                None => {
                    proof {
                        scan::lemma_first_index_none(self@.slots, wanted);
                    }
                    return None;
                },
            };
            if self.op_token[slot] == op_token {
                proof {
                    scan::lemma_first_index_is(self@.slots, wanted, slot as int);
                }
                return Some(slot);
            }
            from = slot + 1;
        }
        proof {
            scan::lemma_first_index_none(self@.slots, wanted);
        }
        None
    }

    /// Marks the live slot for `op_token` as awaiting its `SEND_ZC`
    /// notification.
    ///
    /// Called from the completion drain when a primary completion carries
    /// `IORING_CQE_F_MORE`: a notification releasing the buffer is still
    /// coming, so the slot must not be freed by a racing `-ENOENT` cancel until
    /// then. A no-op when no occupied slot matches.
    pub fn mark_notif_expected_by_op_token(&mut self, op_token: u64)
        requires
            old(self).wf(),
        ensures
            final(self).wf(),
            final(self)@ == old(self)@.notif_expected(op_token),
    {
        if let Some(slot) = self.find_owned(op_token) {
            self.notif_expected.set(slot);
            proof {
                let before = old(self)@.slots[slot as int];
                self.lemma_one_slot(
                    *old(self),
                    slot as int,
                    InflightSlot { notif_expected: true, ..before },
                );
            }
        }
    }

    /// Marks the live slot for `op_token` as released by its `SEND_ZC`
    /// notification.
    ///
    /// Called from the completion drain on a notification only after
    /// [`free_by_op_token`](Self::free_by_op_token) reported no retire-pending
    /// match, which means the owning future is still live. The future reads the
    /// flag by key on its next poll and frees its own slot. A no-op when no
    /// occupied slot matches, e.g. the future already freed it.
    pub fn mark_notif_ready_by_op_token(&mut self, op_token: u64)
        requires
            old(self).wf(),
        ensures
            final(self).wf(),
            final(self)@ == old(self)@.notif_ready(op_token),
    {
        if let Some(slot) = self.find_owned(op_token) {
            self.notif_ready.set(slot);
            proof {
                let before = old(self)@.slots[slot as int];
                self.lemma_one_slot(
                    *old(self),
                    slot as int,
                    InflightSlot { notif_ready: true, ..before },
                );
            }
        }
    }

    /// Whether `key`'s live slot has seen its `SEND_ZC` notification.
    ///
    /// The owning future polls this by key; `true` means the kernel released
    /// the buffer, so the future may resolve and free the slot. A stale or
    /// cross-worker key reads `false`.
    pub fn is_notif_ready(&self, key: InflightSlotKey) -> (flag: bool)
        requires
            self.wf(),
        ensures
            flag == (self@.live(key) && self@.slots[key.slot as int].notif_ready),
    {
        if !self.is_live(key) {
            return false;
        }
        self.notif_ready.get(key.slot as usize)
    }

    /// Returns the byte offset of `key`'s slot in the registry's storage, or
    /// `None` if stale.
    ///
    /// [`INFLIGHT_BUF_STRIDE`] bytes from the offset on belong to the slot
    /// while it stays occupied at `key`'s generation.
    pub fn slot_ptr(&self, key: InflightSlotKey) -> (offset: Option<usize>)
        requires
            self.wf(),
        ensures
            offset == (if self@.live(key) {
                Some((key.slot * INFLIGHT_BUF_STRIDE) as usize)
            } else {
                None
            }),
    {
        if !self.is_live(key) {
            return None;
        }
        Some(key.slot as usize * 4096)
    }

    /// Returns `key`'s slot bytes truncated to `len`, or `None` if stale.
    ///
    /// `len` must not exceed the byte count the completion confirmed -- bytes
    /// beyond it are zero (the initial fill) or hold a prior op's data. The
    /// slice is clamped to the stride for safety.
    pub fn slot_slice(&self, key: InflightSlotKey, len: usize) -> (slice: Option<&[u8]>)
        requires
            self.wf(),
        ensures
            match slice {
                Some(bytes) => self@.live(key) && bytes@ == self@.slots[key.slot as int].bytes.take(
                    clamped_len(len as int, INFLIGHT_BUF_STRIDE as int),
                ),
                None => !self@.live(key),
            },
    {
        if !self.is_live(key) {
            return None;
        }
        let offset: usize = key.slot as usize * 4096;
        let count: usize = if len <= 4096 {
            len
        } else {
            4096
        };
        let slice = self.storage.range(offset, count);
        assert(slice@ =~= self@.slots[key.slot as int].bytes.take(count as int));
        Some(slice)
    }

    /// Returns all of `key`'s slot bytes, or `None` if stale.
    ///
    /// The `recvmsg` seam reads the kernel-written sender address out of the
    /// slot. Call only after the completion for this slot's op arrives.
    pub fn slot_array(&self, key: InflightSlotKey) -> (slice: Option<&[u8]>)
        requires
            self.wf(),
        ensures
            match slice {
                Some(bytes) => self@.live(key) && bytes@ == self@.slots[key.slot as int].bytes
                    && bytes@.len() == INFLIGHT_BUF_STRIDE,
                None => !self@.live(key),
            },
    {
        if !self.is_live(key) {
            return None;
        }
        Some(self.storage.range(key.slot as usize * 4096, 4096))
    }

    /// Copies `src` into `key`'s slot from byte `at` on, returning whether it
    /// did.
    ///
    /// Nothing is written when `key` is stale, or when `src` would run past the
    /// slot's end.
    pub fn write_slot(&mut self, key: InflightSlotKey, at: usize, src: &[u8]) -> (copied: bool)
        requires
            old(self).wf(),
        ensures
            final(self).wf(),
            copied == (old(self)@.live(key) && at + src@.len() <= INFLIGHT_BUF_STRIDE),
            final(self)@ == old(self)@.written(key, at as int, src@),
    {
        if !self.is_live(key) {
            return false;
        }
        if at > 4096 || src.len() > 4096 - at {
            return false;
        }
        let offset: usize = key.slot as usize * 4096;
        self.storage.copy_in(offset + at, src);
        proof {
            let before = old(self)@.slots[key.slot as int];
            let after = InflightSlot {
                bytes: mmap::overwritten(before.bytes, at as int, src@),
                ..before
            };
            assert(self.slot_at(key.slot as int) =~= after);
            assert forall|other: int| 0 <= other < self.cap && other != key.slot implies
                #[trigger] self.slot_at(other) == old(self).slot_at(other) by {
                assert(self.slot_at(other) =~= old(self).slot_at(other));
            }
            self.lemma_one_slot(*old(self), key.slot as int, after);
        }
        true
    }

    /// When only `changed` differs from `before`, the view differs only there.
    proof fn lemma_one_slot(&self, before: InflightBufSlab, changed: int, slot: InflightSlot)
        requires
            before.wf(),
            0 <= changed < before.cap,
            self.cap == before.cap,
            self.worker_id == before.worker_id,
            self.slot_at(changed) == slot,
            forall|other: int|
                0 <= other < before.cap && other != changed ==> #[trigger] self.slot_at(other)
                    == before.slot_at(other),
        ensures
            self@ == before@.with_slot(changed, slot),
    {
        assert(self@.slots =~= before@.slots.update(changed, slot));
    }
}

/// A slot no op ever owned.
pub open spec fn empty_slot() -> InflightSlot {
    InflightSlot {
        occupied: false,
        retire_pending: false,
        notif_expected: false,
        notif_ready: false,
        generation: 0,
        op_token: 0,
        bytes: Seq::new(INFLIGHT_BUF_STRIDE as nat, |at: int| 0u8),
    }
}

/// A fresh registry of `cap` slots.
pub open spec fn empty_slots(worker_id: u8, cap: u16) -> InflightSlots {
    InflightSlots { worker_id, slots: Seq::new(cap as nat, |slot: int| empty_slot()) }
}

/// `len` clamped to `limit`.
pub open spec fn clamped_len(len: int, limit: int) -> int {
    if len <= limit {
        len
    } else {
        limit
    }
}

/// `cap` clamped to [`DEFAULT_INFLIGHT_CAP`].
pub open spec fn clamped_cap(cap: u16) -> u16 {
    if cap <= DEFAULT_INFLIGHT_CAP {
        cap
    } else {
        DEFAULT_INFLIGHT_CAP
    }
}

} // verus!
