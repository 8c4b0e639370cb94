//! Per-worker registry for in-flight multishot recv operations.
//!
//! A multishot recv submits one SQE that posts many completions sharing one
//! `user_data`, each naming a kernel-selected provided buffer. Like the accept
//! registry, this owns a small FIFO per op that the completion drain pushes
//! into and the owning task drains on its next poll. Unlike accept, each queued
//! completion carries two values (the byte count and the provided-buffer id),
//! and the store is per-connection, so both the per-slot bookkeeping and the
//! FIFO payload live in byte regions rather than inline.
//!
//! Two regions, allocated at construction and never grown: `metadata` holds the
//! per-slot ring cursor, generation, owner token, and stashed terminal;
//! `storage` holds the FIFO payload. Every field is read and written as
//! little-endian bytes. Only the occupancy bitmaps stay inline.
//!
//! Generational: each slot carries a generation bumped on free, so a stale
//! sentinel naming a reused slot is rejected rather than routed to the new
//! occupant.

use vstd::prelude::*;

use crate::buffer::bitmap::Bitmap;
use crate::buffer::bytes;
use crate::buffer::bytes::{read_i32, read_u16, read_u64, write_i32, write_u16, write_u64};
use crate::buffer::mmap;
use crate::buffer::mmap::MmapRegion;
use crate::buffer::multishot::accept::MULTISHOT_FIFO_DEPTH;
use crate::buffer::oneshot::inflight;
use crate::buffer::scan;
use crate::error::IoError;

verus! {

broadcast use crate::buffer::bitmap::lemma_bitmap_len;

/// Default multishot recv slots per worker.
///
/// Recv is per-connection, so this is sized well above the accept path's
/// handful of listeners. It matches the provided-buffer ring depth that feeds
/// every stream on the worker: there is no reason to track more concurrent
/// streams than the shared buffer pool can serve.
pub const DEFAULT_RECV_MULTISHOT_CAP: u16 = 256;

/// Bytes per queued completion in the FIFO payload: an `i32` byte count (or a
/// negative errno) followed by a `u16` provided-buffer id.
const ENTRY_LEN: usize = 6;

/// Bytes per slot in the metadata region: a `u16` ring read cursor at offset 0,
/// a `u16` queued-result count at [`META_LEN_OFFSET`], a `u64` generation at
/// [`META_GENERATION_OFFSET`], a `u64` owner token at
/// [`META_OWNER_TOKEN_OFFSET`], an `i32` stashed terminal result at
/// [`META_TERMINAL_RESULT_OFFSET`], and a `u16` stashed terminal buffer id at
/// [`META_TERMINAL_BUF_ID_OFFSET`].
const META_ENTRY_LEN: usize = 26;

/// Byte offset of the queued-result count within a slot's metadata record.
const META_LEN_OFFSET: usize = 2;

/// Byte offset of the generation within a slot's metadata record.
const META_GENERATION_OFFSET: usize = 4;

/// Byte offset of the owner token within a slot's metadata record.
const META_OWNER_TOKEN_OFFSET: usize = 12;

/// Byte offset of the stashed terminal result within a slot's metadata record.
///
/// The terminal completion is recorded here rather than in the FIFO so a deep
/// consumer backlog that overflows the FIFO cannot discard the terminal's
/// clean-close-versus-error signal.
const META_TERMINAL_RESULT_OFFSET: usize = 20;

/// Byte offset of the stashed terminal buffer id within a slot's metadata
/// record.
const META_TERMINAL_BUF_ID_OFFSET: usize = 24;

/// Slot-count ceiling that sizes the inline bitmaps and both regions.
const MAX_RECV_MULTISHOT_SLOTS: usize = 256;

/// Bitmap words covering the slot-count ceiling.
const BITMAP_WORDS: usize = 4;

/// The `buf_id` value standing for "this completion consumed no buffer".
///
/// A real provided-buffer id never reaches `u16::MAX`: the buffer ring caps its
/// entry count at `1 << 15`. End of stream (a zero-length completion) and a
/// negative-result completion both queue this sentinel.
pub const NO_BUFFER: u16 = 0xFFFF;

/// A Copy handle into the multishot recv registry.
///
/// Held by a recv stream. The `generation` guards slot reuse: once the slot is
/// freed its generation is bumped, so a stale stream or a stale sentinel that
/// still names the old generation is rejected.
#[derive(Debug, Clone, Copy, PartialEq, Eq, Structural)]
pub struct RecvMultishotSlotKey {
    /// Slot index in the owning worker's registry.
    pub slot: u16,
    /// Generation captured at allocation.
    pub generation: u64,
    /// Worker whose registry owns the slot.
    pub worker_id: u8,
}

/// Outcome of pushing a completion into a slot's FIFO.
///
/// Unlike the accept registry, a dropped or overflowed recv completion owns a
/// provided-buffer id the caller must recycle to the buffer ring, never close:
/// recv completions carry no fd.
#[derive(Debug, Clone, Copy, PartialEq, Eq, Structural)]
pub enum RecvMultishotPush {
    /// The result was queued for the consumer.
    Queued,
    /// The terminal completion was stashed in the slot rather than the FIFO;
    /// the consumer takes it after draining the FIFO. Like `Queued`, the caller
    /// does not recycle the completion's buffer -- the consumer owns it.
    Terminal,
    /// The FIFO was full; the caller owns recycling the completion's buffer id.
    Overflowed,
    /// The sentinel named a freed or reused slot; not queued. Carries the same
    /// disposal contract as `Overflowed`: recycle the buffer id, or it leaks.
    Stale,
}

/// What one slot of the registry holds.
#[verifier::ext_equal]
pub struct RecvSlot {
    /// An op owns the slot.
    pub occupied: bool,
    /// The op posted its final completion; no more results will arrive.
    pub terminated: bool,
    /// A cancel was submitted for the op; its final completion frees the slot.
    pub cancel_pending: bool,
    /// Generation of the current or next occupant.
    pub generation: u64,
    /// Task woken when a result lands in the slot.
    pub owner_token: u64,
    /// The data completions not yet taken, oldest first.
    pub queue: Seq<(i32, u16)>,
    /// The final completion, until it is taken.
    pub terminal: Option<(i32, u16)>,
}

impl RecvSlot {
    /// The slot after its occupant leaves.
    pub open spec fn freed(self) -> RecvSlot {
        RecvSlot {
            occupied: false,
            terminated: false,
            cancel_pending: false,
            generation: inflight::next_generation(self.generation),
            queue: Seq::empty(),
            terminal: None,
            ..self
        }
    }

    /// The slot once an op owned by `owner_token` took it.
    pub open spec fn occupied_by(self, owner_token: u64) -> RecvSlot {
        RecvSlot {
            occupied: true,
            terminated: false,
            cancel_pending: false,
            owner_token,
            queue: Seq::empty(),
            terminal: None,
            ..self
        }
    }

    /// The slot after a completion arrived for its op.
    pub open spec fn pushed(self, result: i32, buf_id: u16, is_more: bool) -> RecvSlot {
        if !is_more {
            RecvSlot { terminated: true, terminal: Some((result, buf_id)), ..self }
        } else if self.queue.len() < MULTISHOT_FIFO_DEPTH {
            RecvSlot { queue: self.queue.push((result, buf_id)), ..self }
        } else {
            self
        }
    }
}

/// What a registry holds: its worker and its slots, in slot order.
#[verifier::ext_equal]
pub struct RecvSlots {
    /// Worker whose registry this is.
    pub worker_id: u8,
    /// The slots.
    pub slots: Seq<RecvSlot>,
}

impl RecvSlots {
    /// What every registry keeps: at most [`DEFAULT_RECV_MULTISHOT_CAP`] slots,
    /// no FIFO past its depth, a stashed terminal only on a terminated op, and
    /// nothing left in a slot that no op owns.
    pub open spec fn valid(self) -> bool {
        &&& self.slots.len() <= DEFAULT_RECV_MULTISHOT_CAP
        &&& forall|slot: int|
            0 <= slot < self.slots.len() ==> {
                &&& (#[trigger] self.slots[slot]).queue.len() <= MULTISHOT_FIFO_DEPTH
                &&& self.slots[slot].terminal is Some ==> self.slots[slot].terminated
                &&& !self.slots[slot].occupied ==> {
                    &&& !self.slots[slot].terminated
                    &&& !self.slots[slot].cancel_pending
                    &&& self.slots[slot].queue.len() == 0
                    &&& self.slots[slot].terminal is None
                }
            }
    }

    /// Whether `key` names an occupied slot of this worker at its generation.
    pub open spec fn live(self, key: RecvMultishotSlotKey) -> bool {
        &&& key.worker_id == self.worker_id
        &&& key.slot < self.slots.len()
        &&& self.slots[key.slot as int].occupied
        &&& self.slots[key.slot as int].generation == key.generation
    }

    /// Whether `slot` is occupied at the truncated generation a sentinel
    /// carries.
    pub open spec fn slot_live(self, slot: u16, generation_low16: u16) -> bool {
        &&& slot < self.slots.len()
        &&& self.slots[slot as int].occupied
        &&& self.slots[slot as int].generation % 0x1_0000 == generation_low16
    }

    /// The registry with one slot replaced.
    pub open spec fn with_slot(self, index: int, slot: RecvSlot) -> RecvSlots {
        RecvSlots { slots: self.slots.update(index, slot), ..self }
    }

    /// Whether `index` is the lowest slot no op owns.
    pub open spec fn lowest_free(self, index: int) -> bool {
        &&& 0 <= index < self.slots.len()
        &&& !self.slots[index].occupied
        &&& forall|lower: int| 0 <= lower < index ==> (#[trigger] self.slots[lower]).occupied
    }

    /// Whether an op owns every slot.
    pub open spec fn full(self) -> bool {
        forall|slot: int| 0 <= slot < self.slots.len() ==> (#[trigger] self.slots[slot]).occupied
    }

    /// The first slot no op owns.
    pub open spec fn first_free(self) -> Option<int> {
        scan::first_index(self.slots, |slot: RecvSlot| !slot.occupied)
    }

    /// The registry after an op owned by `owner_token` takes the first free
    /// slot.
    pub open spec fn allocated(self, owner_token: u64) -> RecvSlots {
        match self.first_free() {
            Some(index) => self.with_slot(index, self.slots[index].occupied_by(owner_token)),
            None => self,
        }
    }

    /// The handle an allocation hands out.
    pub open spec fn allocated_key(self) -> Option<RecvMultishotSlotKey> {
        match self.first_free() {
            Some(index) => Some(
                RecvMultishotSlotKey {
                    slot: index as u16,
                    generation: self.slots[index].generation,
                    worker_id: self.worker_id,
                },
            ),
            None => None,
        }
    }

    /// What becomes of a completion for `slot`.
    pub open spec fn push_outcome(self, slot: u16, generation_low16: u16, is_more: bool) -> RecvMultishotPush {
        if !self.slot_live(slot, generation_low16) {
            RecvMultishotPush::Stale
        } else if !is_more {
            RecvMultishotPush::Terminal
        } else if self.slots[slot as int].queue.len() >= MULTISHOT_FIFO_DEPTH {
            RecvMultishotPush::Overflowed
        } else {
            RecvMultishotPush::Queued
        }
    }

    /// The registry after a completion for `slot` arrived.
    pub open spec fn pushed(
        self,
        slot: u16,
        generation_low16: u16,
        result: i32,
        buf_id: u16,
        is_more: bool,
    ) -> RecvSlots {
        if self.slot_live(slot, generation_low16) {
            self.with_slot(slot as int, self.slots[slot as int].pushed(result, buf_id, is_more))
        } else {
            self
        }
    }

    /// The oldest data completion queued for `key`.
    pub open spec fn front(self, key: RecvMultishotSlotKey) -> Option<(i32, u16)> {
        if self.live(key) && self.slots[key.slot as int].queue.len() > 0 {
            Some(self.slots[key.slot as int].queue[0])
        } else {
            None
        }
    }

    /// The registry after the oldest data completion for `key` is taken.
    pub open spec fn popped(self, key: RecvMultishotSlotKey) -> RecvSlots {
        if self.front(key) is Some {
            let slot = self.slots[key.slot as int];
            self.with_slot(key.slot as int, RecvSlot { queue: slot.queue.drop_first(), ..slot })
        } else {
            self
        }
    }

    /// The registry after every data completion queued for `key` is taken.
    pub open spec fn drained(self, key: RecvMultishotSlotKey) -> RecvSlots {
        if self.live(key) {
            self.with_slot(
                key.slot as int,
                RecvSlot { queue: Seq::empty(), ..self.slots[key.slot as int] },
            )
        } else {
            self
        }
    }

    /// The data completions queued for `key`, oldest first.
    pub open spec fn queued(self, key: RecvMultishotSlotKey) -> Seq<(i32, u16)> {
        if self.live(key) {
            self.slots[key.slot as int].queue
        } else {
            Seq::empty()
        }
    }

    /// The terminal completion stashed for `key`.
    pub open spec fn terminal(self, key: RecvMultishotSlotKey) -> Option<(i32, u16)> {
        if self.live(key) {
            self.slots[key.slot as int].terminal
        } else {
            None
        }
    }

    /// Every buffer that `key`'s op holds has an id below `limit`.
    pub open spec fn holds_only_below(self, key: RecvMultishotSlotKey, limit: u16) -> bool {
        &&& forall|at: int|
            0 <= at < self.queued(key).len() ==> held_below(#[trigger] self.queued(key)[at], limit)
        &&& self.terminal(key) matches Some(entry) ==> held_below(entry, limit)
    }

    /// The registry after the terminal completion stashed for `key` is taken.
    pub open spec fn terminal_taken(self, key: RecvMultishotSlotKey) -> RecvSlots {
        if self.live(key) {
            self.with_slot(
                key.slot as int,
                RecvSlot { terminal: None, ..self.slots[key.slot as int] },
            )
        } else {
            self
        }
    }

    /// The task that owns `slot` at the sentinel's generation.
    pub open spec fn owner(self, slot: u16, generation_low16: u16) -> Option<u64> {
        if self.slot_live(slot, generation_low16) {
            Some(self.slots[slot as int].owner_token)
        } else {
            None
        }
    }

    /// Whether `key`'s op posted its final completion.
    pub open spec fn terminated(self, key: RecvMultishotSlotKey) -> bool {
        self.live(key) && self.slots[key.slot as int].terminated
    }

    /// Whether `slot` is cancel-pending at the sentinel's generation.
    pub open spec fn cancel_pending(self, slot: u16, generation_low16: u16) -> bool {
        self.slot_live(slot, generation_low16) && self.slots[slot as int].cancel_pending
    }

    /// The registry after `key`'s slot is marked cancel-pending.
    pub open spec fn cancelling(self, key: RecvMultishotSlotKey) -> RecvSlots {
        if self.live(key) {
            self.with_slot(
                key.slot as int,
                RecvSlot { cancel_pending: true, ..self.slots[key.slot as int] },
            )
        } else {
            self
        }
    }

    /// The registry after `key`'s slot is freed.
    pub open spec fn freed(self, key: RecvMultishotSlotKey) -> RecvSlots {
        if self.live(key) {
            self.with_slot(key.slot as int, self.slots[key.slot as int].freed())
        } else {
            self
        }
    }

    /// The registry after `slot` is freed at the sentinel's generation.
    pub open spec fn freed_slot(self, slot: u16, generation_low16: u16) -> RecvSlots {
        if self.slot_live(slot, generation_low16) {
            self.with_slot(slot as int, self.slots[slot as int].freed())
        } else {
            self
        }
    }
}

/// A fresh registry of `cap` slots.
pub open spec fn empty_slots(worker_id: u8, cap: u16) -> RecvSlots {
    RecvSlots {
        worker_id,
        slots: Seq::new(
            cap as nat,
            |slot: int|
                RecvSlot {
                    occupied: false,
                    terminated: false,
                    cancel_pending: false,
                    generation: 0,
                    owner_token: 0,
                    queue: Seq::empty(),
                    terminal: None,
                },
        ),
    }
}

/// A completion holds no buffer, or one whose id is below `limit`.
pub open spec fn held_below(entry: (i32, u16), limit: u16) -> bool {
    entry.1 == NO_BUFFER || entry.1 < limit
}

/// `cap` clamped to [`DEFAULT_RECV_MULTISHOT_CAP`].
pub open spec fn clamped_cap(cap: u16) -> u16 {
    if cap <= DEFAULT_RECV_MULTISHOT_CAP {
        cap
    } else {
        DEFAULT_RECV_MULTISHOT_CAP
    }
}

/// Per-worker fixed-capacity multishot recv registry.
///
/// Only the occupancy bitmaps live inline; the per-slot ring cursor,
/// generation, and owner token live in the `metadata` region, so this type
/// stays a small handle on the worker's stack frame.
pub struct RecvMultishotSlab {
    /// Per-slot ring of `(i32 count, u16 buf_id)` entries.
    storage: MmapRegion,
    /// Per-slot cursor, generation, owner token, and stashed terminal. See
    /// [`META_ENTRY_LEN`] for the byte map.
    metadata: MmapRegion,
    occupied: Bitmap<BITMAP_WORDS>,
    /// The op posted its final completion; no more results will arrive.
    terminated: Bitmap<BITMAP_WORDS>,
    /// A terminal completion is stashed in the slot's metadata and not yet
    /// taken by the consumer. Set together with the terminated bit on the final
    /// completion; cleared when the consumer takes the stashed result.
    terminal_stashed: Bitmap<BITMAP_WORDS>,
    /// A cancel was submitted for the op; its final completion frees the slot.
    cancel_pending: Bitmap<BITMAP_WORDS>,
    worker_id: u8,
    cap: u16,
}

impl View for RecvMultishotSlab {
    type V = RecvSlots;

    closed spec fn view(&self) -> RecvSlots {
        RecvSlots {
            worker_id: self.worker_id,
            slots: Seq::new(self.cap as nat, |slot: int| self.slot_at(slot)),
        }
    }
}

/// Byte offset of a slot's ring entry in the FIFO payload.
fn entry_offset(slot: u16, ring_index: u16) -> (offset: usize)
    requires
        slot < MAX_RECV_MULTISHOT_SLOTS,
        ring_index < 64,
    ensures
        offset == (slot * 64 + ring_index) * 6,
{
    (slot as usize * 64 + ring_index as usize) * 6
}

/// Byte offset of a slot's record in the metadata region.
fn meta_offset(slot: u16) -> (offset: usize)
    requires
        slot < MAX_RECV_MULTISHOT_SLOTS,
    ensures
        offset == slot * 26,
{
    slot as usize * 26
}

impl RecvMultishotSlab {
    spec fn head_at(&self, slot: int) -> int {
        bytes::le16(self.metadata@, slot * 26)
    }

    spec fn len_at(&self, slot: int) -> int {
        bytes::le16(self.metadata@, slot * 26 + 2)
    }

    spec fn entry_at(&self, slot: int, ring_index: int) -> (i32, u16) {
        let offset = (slot * 64 + ring_index) * 6;
        (bytes::le_i32(self.storage@, offset) as i32, bytes::le16(self.storage@, offset + 4) as u16)
    }

    spec fn queue_at(&self, slot: int) -> Seq<(i32, u16)> {
        Seq::new(
            self.len_at(slot) as nat,
            |place: int| self.entry_at(slot, (self.head_at(slot) + place) % 64),
        )
    }

    spec fn slot_at(&self, slot: int) -> RecvSlot {
        RecvSlot {
            occupied: self.occupied@[slot],
            terminated: self.terminated@[slot],
            cancel_pending: self.cancel_pending@[slot],
            generation: bytes::le64(self.metadata@, slot * 26 + 4) as u64,
            owner_token: bytes::le64(self.metadata@, slot * 26 + 12) as u64,
            queue: self.queue_at(slot),
            terminal: if self.terminal_stashed@[slot] {
                Some(
                    (
                        bytes::le_i32(self.metadata@, slot * 26 + 20) as i32,
                        bytes::le16(self.metadata@, slot * 26 + 24) as u16,
                    ),
                )
            } else {
                None
            },
        }
    }

    /// The regions span every slot, the ring cursors stay in the ring, and
    /// nothing is left in a slot that no op owns.
    pub closed spec fn wf(&self) -> bool {
        &&& self.cap <= MAX_RECV_MULTISHOT_SLOTS
        &&& self.storage@.len() == 98304
        &&& self.metadata@.len() == 6656
        &&& forall|slot: int|
            0 <= slot < MAX_RECV_MULTISHOT_SLOTS ==> #[trigger] self.head_at(slot) < 64
        &&& forall|slot: int|
            0 <= slot < MAX_RECV_MULTISHOT_SLOTS ==> #[trigger] self.len_at(slot) <= 64
        &&& forall|slot: int|
            0 <= slot < MAX_RECV_MULTISHOT_SLOTS ==> (#[trigger] self.terminal_stashed@[slot]
                ==> self.terminated@[slot])
        &&& forall|slot: int|
            #![trigger self.occupied@[slot]]
            0 <= slot < MAX_RECV_MULTISHOT_SLOTS && !self.occupied@[slot] ==> {
                &&& !self.terminated@[slot]
                &&& !self.cancel_pending@[slot]
                &&& !self.terminal_stashed@[slot]
                &&& self.len_at(slot) == 0
            }
    }

    /// Every well-formed registry is valid.
    pub proof fn slab_is_valid(&self)
        requires
            self.wf(),
        ensures
            self@.valid(),
    {
        assert forall|slot: int| 0 <= slot < self.cap implies {
            &&& (#[trigger] self@.slots[slot]).queue.len() <= 64
            &&& self@.slots[slot].terminal is Some ==> self@.slots[slot].terminated
        } by {
            assert(self.len_at(slot) <= 64);
        }
    }

    /// Builds a registry of `cap` slots (clamped to
    /// [`DEFAULT_RECV_MULTISHOT_CAP`]) for `worker_id`, over regions that the
    /// system grants.
    ///
    /// Both regions are sized for the slot-count ceiling, so neither is ever
    /// empty, and there is no error.
    pub fn new(worker_id: u8, cap: u16) -> (outcome: Result<Self, IoError>)
        ensures
            outcome matches Ok(slab) && slab.wf() && slab@ == empty_slots(
                worker_id,
                clamped_cap(cap),
            ) && (cap > 0 ==> slab@.lowest_free(0)),
    {
        Self::mapped(worker_id, cap, None, None)
    }

    /// Builds a registry as [`new`](Self::new) does, with the errno the system
    /// gave when it was asked to map each region, or `None` where it granted
    /// it. The storage is asked for first.
    ///
    /// # Errors
    ///
    /// Returns the errno of the first refusal.
    pub fn mapped(
        worker_id: u8,
        cap: u16,
        storage_refused: Option<i32>,
        metadata_refused: Option<i32>,
    ) -> (outcome: Result<Self, IoError>)
        ensures
            match outcome {
                Ok(slab) => {
                    &&& storage_refused is None && metadata_refused is None
                    &&& slab.wf()
                    &&& slab@ == empty_slots(worker_id, clamped_cap(cap))
                    &&& cap > 0 ==> slab@.lowest_free(0)
                },
                Err(error) => mmap::first_refusal(storage_refused, metadata_refused) == Some(
                    error,
                ),
            },
    {
        let cap: u16 = if cap <= DEFAULT_RECV_MULTISHOT_CAP {
            cap
        } else {
            DEFAULT_RECV_MULTISHOT_CAP
        };
        let storage = match MmapRegion::mapped(
            MAX_RECV_MULTISHOT_SLOTS * 64 * ENTRY_LEN,
            storage_refused,
        ) {
            Ok(storage) => storage,
            Err(error) => return Err(error),
        };
        let metadata = match MmapRegion::mapped(
            MAX_RECV_MULTISHOT_SLOTS * META_ENTRY_LEN,
            metadata_refused,
        ) {
            Ok(metadata) => metadata,
            Err(error) => return Err(error),
        };
        let slab = RecvMultishotSlab {
            storage,
            metadata,
            occupied: Bitmap::new(),
            terminated: Bitmap::new(),
            terminal_stashed: Bitmap::new(),
            cancel_pending: Bitmap::new(),
            worker_id,
            cap,
        };
        proof {
            assert forall|slot: int| 0 <= slot < cap implies slab@.slots[slot] == empty_slots(
                worker_id,
                cap,
            ).slots[slot] by {
                assert(slab.queue_at(slot) =~= Seq::<(i32, u16)>::empty());
            }
            assert(slab@ =~= empty_slots(worker_id, cap));
        }
        Ok(slab)
    }

    /// Whether `after` differs from `before` at most in the bytes and flags of
    /// the slot `changed`.
    spec fn only_slot_changed(before: RecvMultishotSlab, after: RecvMultishotSlab, changed: int) -> bool {
        &&& after.cap == before.cap
        &&& after.worker_id == before.worker_id
        &&& bytes::only_changed(before.metadata@, after.metadata@, changed * 26, 26)
        &&& bytes::only_changed(before.storage@, after.storage@, changed * 384, 384)
        &&& forall|other: int|
            0 <= other < MAX_RECV_MULTISHOT_SLOTS && other != changed ==> {
                &&& #[trigger] after.occupied@[other] == before.occupied@[other]
                &&& after.terminated@[other] == before.terminated@[other]
                &&& after.terminal_stashed@[other] == before.terminal_stashed@[other]
                &&& after.cancel_pending@[other] == before.cancel_pending@[other]
            }
    }

    proof fn lemma_other_slot(before: RecvMultishotSlab, after: RecvMultishotSlab, changed: int, other: int)
        requires
            before.wf(),
            Self::only_slot_changed(before, after, changed),
            0 <= changed < MAX_RECV_MULTISHOT_SLOTS,
            0 <= other < MAX_RECV_MULTISHOT_SLOTS,
            other != changed,
        ensures
            after.slot_at(other) == before.slot_at(other),
            after.head_at(other) == before.head_at(other),
            after.len_at(other) == before.len_at(other),
    {
        assert(after.occupied@[other] == before.occupied@[other]);
        assert(before.head_at(other) < 64);
        assert(before.len_at(other) <= 64);
        assert(after.queue_at(other) =~= before.queue_at(other)) by {
            assert forall|place: int| 0 <= place < before.len_at(other) implies after.queue_at(
                other,
            )[place] == before.queue_at(other)[place] by {
                let offset = (other * 64 + (before.head_at(other) + place) % 64) * 6;
                assert(other * 384 <= offset && offset + 6 <= other * 384 + 384);
            }
        }
    }

    /// When only the slot `changed` differs, the view differs only there, and
    /// the registry stays well formed if that slot does.
    proof fn lemma_one_slot(before: RecvMultishotSlab, after: RecvMultishotSlab, changed: int, slot: RecvSlot)
        requires
            before.wf(),
            Self::only_slot_changed(before, after, changed),
            0 <= changed < before.cap,
            after.slot_at(changed) == slot,
            after.head_at(changed) < 64,
            after.len_at(changed) <= 64,
            after.terminal_stashed@[changed] ==> after.terminated@[changed],
            !after.occupied@[changed] ==> {
                &&& !after.terminated@[changed]
                &&& !after.cancel_pending@[changed]
                &&& !after.terminal_stashed@[changed]
                &&& after.len_at(changed) == 0
            },
        ensures
            after.wf(),
            after@ == before@.with_slot(changed, slot),
    {
        assert forall|other: int|
            0 <= other < MAX_RECV_MULTISHOT_SLOTS && other != changed implies {
            &&& #[trigger] after.slot_at(other) == before.slot_at(other)
            &&& after.head_at(other) == before.head_at(other)
            &&& after.len_at(other) == before.len_at(other)
        } by {
            Self::lemma_other_slot(before, after, changed, other);
        }
        assert forall|other: int| 0 <= other < MAX_RECV_MULTISHOT_SLOTS implies {
            &&& #[trigger] after.head_at(other) < 64
        } by {
            if other != changed {
                assert(after.slot_at(other) == before.slot_at(other));
                assert(before.head_at(other) < 64);
            }
        }
        assert forall|other: int| 0 <= other < MAX_RECV_MULTISHOT_SLOTS implies {
            &&& #[trigger] after.len_at(other) <= 64
        } by {
            if other != changed {
                assert(after.slot_at(other) == before.slot_at(other));
                assert(before.len_at(other) <= 64);
            }
        }
        assert forall|other: int|
            0 <= other < MAX_RECV_MULTISHOT_SLOTS
                && #[trigger] after.terminal_stashed@[other] implies after.terminated@[other] by {
            if other != changed {
                assert(after.occupied@[other] == before.occupied@[other]);
                assert(before.terminal_stashed@[other] ==> before.terminated@[other]);
            }
        }
        assert forall|other: int|
            #![trigger after.occupied@[other]]
            0 <= other < MAX_RECV_MULTISHOT_SLOTS && !after.occupied@[other] implies {
            &&& !after.terminated@[other]
            &&& !after.cancel_pending@[other]
            &&& !after.terminal_stashed@[other]
            &&& after.len_at(other) == 0
        } by {
            if other != changed {
                assert(!before.occupied@[other]);
                assert(after.slot_at(other) == before.slot_at(other));
            }
        }
        assert(after@.slots =~= before@.slots.update(changed, slot));
    }

    /// Reads `slot`'s ring read cursor from the metadata region.
    fn slot_head(&self, slot: u16) -> (value: u16)
        requires
            self.wf(),
            slot < MAX_RECV_MULTISHOT_SLOTS,
        ensures
            value == self.head_at(slot as int),
            value < 64,
    {
        assert(self.head_at(slot as int) < 64);
        read_u16(&self.metadata, meta_offset(slot))
    }

    /// Writes `slot`'s ring read cursor into the metadata region.
    fn set_slot_head(&mut self, slot: u16, value: u16)
        requires
            slot < MAX_RECV_MULTISHOT_SLOTS,
            old(self).metadata@.len() == 6656,
        ensures
            *final(self) == (RecvMultishotSlab { metadata: final(self).metadata, ..*old(self) }),
            final(self).head_at(slot as int) == value,
            bytes::only_changed(old(self).metadata@, final(self).metadata@, slot * 26, 2),
    {
        write_u16(&mut self.metadata, meta_offset(slot), value);
    }

    /// Reads `slot`'s queued-result count from the metadata region.
    fn slot_len(&self, slot: u16) -> (value: u16)
        requires
            self.wf(),
            slot < MAX_RECV_MULTISHOT_SLOTS,
        ensures
            value == self.len_at(slot as int),
            value <= 64,
    {
        assert(self.len_at(slot as int) <= 64);
        read_u16(&self.metadata, meta_offset(slot) + META_LEN_OFFSET)
    }

    /// Writes `slot`'s queued-result count into the metadata region.
    fn set_slot_len(&mut self, slot: u16, value: u16)
        requires
            slot < MAX_RECV_MULTISHOT_SLOTS,
            old(self).metadata@.len() == 6656,
        ensures
            *final(self) == (RecvMultishotSlab { metadata: final(self).metadata, ..*old(self) }),
            final(self).len_at(slot as int) == value,
            bytes::only_changed(old(self).metadata@, final(self).metadata@, slot * 26 + 2, 2),
    {
        write_u16(&mut self.metadata, meta_offset(slot) + META_LEN_OFFSET, value);
    }

    /// Reads `slot`'s generation from the metadata region.
    fn slot_generation(&self, slot: u16) -> (value: u64)
        requires
            slot < MAX_RECV_MULTISHOT_SLOTS,
            self.metadata@.len() == 6656,
        ensures
            value == bytes::le64(self.metadata@, slot * 26 + 4),
    {
        read_u64(&self.metadata, meta_offset(slot) + META_GENERATION_OFFSET)
    }

    /// Writes `slot`'s generation into the metadata region.
    fn set_slot_generation(&mut self, slot: u16, value: u64)
        requires
            slot < MAX_RECV_MULTISHOT_SLOTS,
            old(self).metadata@.len() == 6656,
        ensures
            *final(self) == (RecvMultishotSlab { metadata: final(self).metadata, ..*old(self) }),
            bytes::le64(final(self).metadata@, slot * 26 + 4) == value,
            bytes::only_changed(old(self).metadata@, final(self).metadata@, slot * 26 + 4, 8),
    {
        write_u64(&mut self.metadata, meta_offset(slot) + META_GENERATION_OFFSET, value);
    }

    /// Reads `slot`'s owner token from the metadata region.
    fn slot_owner_token(&self, slot: u16) -> (value: u64)
        requires
            slot < MAX_RECV_MULTISHOT_SLOTS,
            self.metadata@.len() == 6656,
        ensures
            value == bytes::le64(self.metadata@, slot * 26 + 12),
    {
        read_u64(&self.metadata, meta_offset(slot) + META_OWNER_TOKEN_OFFSET)
    }

    /// Writes `slot`'s owner token into the metadata region.
    fn set_slot_owner_token(&mut self, slot: u16, value: u64)
        requires
            slot < MAX_RECV_MULTISHOT_SLOTS,
            old(self).metadata@.len() == 6656,
        ensures
            *final(self) == (RecvMultishotSlab { metadata: final(self).metadata, ..*old(self) }),
            bytes::le64(final(self).metadata@, slot * 26 + 12) == value,
            bytes::only_changed(old(self).metadata@, final(self).metadata@, slot * 26 + 12, 8),
    {
        write_u64(&mut self.metadata, meta_offset(slot) + META_OWNER_TOKEN_OFFSET, value);
    }

    /// Reads `slot`'s stashed terminal `(result, buf_id)` from the metadata
    /// region.
    fn slot_terminal(&self, slot: u16) -> (value: (i32, u16))
        requires
            slot < MAX_RECV_MULTISHOT_SLOTS,
            self.metadata@.len() == 6656,
        ensures
            value.0 == bytes::le_i32(self.metadata@, slot * 26 + 20),
            value.1 == bytes::le16(self.metadata@, slot * 26 + 24),
    {
        let base: usize = meta_offset(slot);
        (
            read_i32(&self.metadata, base + META_TERMINAL_RESULT_OFFSET),
            read_u16(&self.metadata, base + META_TERMINAL_BUF_ID_OFFSET),
        )
    }

    /// Writes `slot`'s stashed terminal `(result, buf_id)` into the metadata
    /// region.
    fn set_slot_terminal(&mut self, slot: u16, result: i32, buf_id: u16)
        requires
            slot < MAX_RECV_MULTISHOT_SLOTS,
            old(self).metadata@.len() == 6656,
        ensures
            *final(self) == (RecvMultishotSlab { metadata: final(self).metadata, ..*old(self) }),
            bytes::le_i32(final(self).metadata@, slot * 26 + 20) == result,
            bytes::le16(final(self).metadata@, slot * 26 + 24) == buf_id,
            bytes::only_changed(old(self).metadata@, final(self).metadata@, slot * 26 + 20, 6),
    {
        let base: usize = meta_offset(slot);
        write_i32(&mut self.metadata, base + META_TERMINAL_RESULT_OFFSET, result);
        write_u16(&mut self.metadata, base + META_TERMINAL_BUF_ID_OFFSET, buf_id);
    }

    /// Whether `key` names a currently-occupied slot at its generation.
    pub fn is_live(&self, key: RecvMultishotSlotKey) -> (flag: bool)
        requires
            self.wf(),
        ensures
            flag == self@.live(key),
    {
        if key.worker_id != self.worker_id {
            return false;
        }
        if key.slot >= self.cap {
            return false;
        }
        self.occupied.get(key.slot as usize) && self.slot_generation(key.slot) == key.generation
    }

    /// Whether `slot` is occupied at the low-16-bit `generation`.
    fn is_slot_live(&self, slot: u16, generation_low16: u16) -> (flag: bool)
        requires
            self.wf(),
        ensures
            flag == self@.slot_live(slot, generation_low16),
    {
        if slot >= self.cap {
            return false;
        }
        self.occupied.get(slot as usize) && self.slot_generation(slot) % 0x1_0000
            == generation_low16 as u64
    }

    /// First free slot within `cap`.
    fn first_free(&self) -> (found: Option<u16>)
        requires
            self.wf(),
        ensures
            match found {
                Some(slot) => slot < self.cap && self@.first_free() == Some(slot as int),
                None => self@.first_free() is None,
            },
    {
        let ghost wanted = |slot: RecvSlot| !slot.occupied;
        match self.occupied.first_clear(self.cap as usize) {
            Some(slot) => {
                proof {
                    scan::lemma_first_index_is(self@.slots, wanted, slot as int);
                }
                Some(slot as u16)
            },
            None => {
                proof {
                    scan::lemma_first_index_none(self@.slots, wanted);
                }
                None
            },
        }
    }

    /// Allocates the first free slot for a multishot recv op, returning its
    /// handle. `owner_token` is the task woken on each completion. Returns
    /// `None` when every slot is occupied.
    pub fn allocate(&mut self, owner_token: u64) -> (key: Option<RecvMultishotSlotKey>)
        requires
            old(self).wf(),
        ensures
            final(self).wf(),
            key == old(self)@.allocated_key(),
            final(self)@ == old(self)@.allocated(owner_token),
            match key {
                Some(handle) => {
                    &&& old(self)@.lowest_free(handle.slot as int)
                    &&& final(self)@.live(handle)
                    &&& !old(self)@.live(handle)
                },
                None => old(self)@.full(),
            },
    {
        proof {
            scan::first_index_finds(self@.slots, |slot: RecvSlot| !slot.occupied);
        }
        let slot: u16 = match self.first_free() {
            Some(slot) => slot,
            None => return None,
        };
        proof {
            assert(!self@.slots[slot as int].occupied);
        }
        let index: usize = slot as usize;
        self.occupied.set(index);
        self.terminated.clear(index);
        self.terminal_stashed.clear(index);
        self.cancel_pending.clear(index);
        self.set_slot_head(slot, 0);
        self.set_slot_len(slot, 0);
        self.set_slot_owner_token(slot, owner_token);
        proof {
            let after = old(self)@.slots[slot as int].occupied_by(owner_token);
            assert(self.queue_at(slot as int) =~= Seq::<(i32, u16)>::empty());
            assert(self.slot_at(slot as int) =~= after);
            Self::lemma_one_slot(*old(self), *self, slot as int, after);
        }
        Some(
            RecvMultishotSlotKey {
                slot,
                generation: self.slot_generation(slot),
                worker_id: self.worker_id,
            },
        )
    }

    /// What [`push`](Self::push) would do with a completion for the slot.
    pub fn push_outcome(&self, slot: u16, generation_low16: u16, is_more: bool) -> (outcome:
        RecvMultishotPush)
        requires
            self.wf(),
        ensures
            outcome == self@.push_outcome(slot, generation_low16, is_more),
    {
        if !self.is_slot_live(slot, generation_low16) {
            return RecvMultishotPush::Stale;
        }
        if !is_more {
            return RecvMultishotPush::Terminal;
        }
        assert(self.len_at(slot as int) <= 64);
        if self.slot_len(slot) >= MULTISHOT_FIFO_DEPTH {
            RecvMultishotPush::Overflowed
        } else {
            RecvMultishotPush::Queued
        }
    }

    /// Queues a data completion `(result, buf_id)` for `slot` in the FIFO, or,
    /// on the terminal completion (`is_more` clear), marks the slot terminated
    /// and stashes the terminal `(result, buf_id)` in the slot's dedicated
    /// fields rather than the FIFO. `generation_low16` rejects a stale
    /// sentinel; a freed or reused slot yields [`RecvMultishotPush::Stale`]. A
    /// full FIFO yields [`RecvMultishotPush::Overflowed`] for a data
    /// completion; the terminal completion never overflows because it does not
    /// use the FIFO.
    pub fn push(
        &mut self,
        slot: u16,
        generation_low16: u16,
        result: i32,
        buf_id: u16,
        is_more: bool,
    ) -> (outcome: RecvMultishotPush)
        requires
            old(self).wf(),
        ensures
            final(self).wf(),
            outcome == old(self)@.push_outcome(slot, generation_low16, is_more),
            final(self)@ == old(self)@.pushed(slot, generation_low16, result, buf_id, is_more),
    {
        if !self.is_slot_live(slot, generation_low16) {
            return RecvMultishotPush::Stale;
        }
        let ghost after = old(self)@.slots[slot as int].pushed(result, buf_id, is_more);
        let len: u16 = self.slot_len(slot);
        let head: u16 = self.slot_head(slot);
        if !is_more {
            // A deep consumer backlog can overflow the FIFO, and discarding the
            // terminal there would erase the clean-close-versus-error signal.
            self.terminated.set(slot as usize);
            self.set_slot_terminal(slot, result, buf_id);
            self.terminal_stashed.set(slot as usize);
            proof {
                assert(self.queue_at(slot as int) =~= old(self).queue_at(slot as int));
                assert(self.slot_at(slot as int) =~= after);
                Self::lemma_one_slot(*old(self), *self, slot as int, after);
            }
            return RecvMultishotPush::Terminal;
        }
        if len >= MULTISHOT_FIFO_DEPTH {
            assert(self@ =~= old(self)@.with_slot(slot as int, after));
            return RecvMultishotPush::Overflowed;
        }
        let ring_index: u16 = (head + len) % MULTISHOT_FIFO_DEPTH;
        let offset: usize = entry_offset(slot, ring_index);
        write_i32(&mut self.storage, offset, result);
        write_u16(&mut self.storage, offset + 4, buf_id);
        self.set_slot_len(slot, len + 1);
        proof {
            self.lemma_entry_written(*old(self), slot as int, head as int, len as int, ring_index as int, (result, buf_id));
            assert(self.slot_at(slot as int) =~= after);
            Self::lemma_one_slot(*old(self), *self, slot as int, after);
        }
        RecvMultishotPush::Queued
    }

    proof fn lemma_entry_written(
        &self,
        before: RecvMultishotSlab,
        slot: int,
        head: int,
        len: int,
        ring_index: int,
        entry: (i32, u16),
    )
        requires
            before.wf(),
            0 <= slot < MAX_RECV_MULTISHOT_SLOTS,
            head == before.head_at(slot),
            len == before.len_at(slot),
            0 <= head < 64,
            0 <= len < 64,
            ring_index == (head + len) % 64,
            self.head_at(slot) == head,
            self.len_at(slot) == len + 1,
            bytes::only_changed(before.storage@, self.storage@, (slot * 64 + ring_index) * 6, 6),
            self.entry_at(slot, ring_index) == entry,
        ensures
            self.queue_at(slot) == before.queue_at(slot).push(entry),
    {
        assert forall|place: int| 0 <= place < len + 1 implies self.queue_at(slot)[place]
            == before.queue_at(slot).push(entry)[place] by {
            let other = (head + place) % 64;
            if place < len {
                assert(other != ring_index);
                let offset = (slot * 64 + other) * 6;
                assert(offset + 6 <= (slot * 64 + ring_index) * 6 || (slot * 64 + ring_index) * 6
                    + 6 <= offset);
                assert(self.entry_at(slot, other) == before.entry_at(slot, other));
            }
        }
        assert(self.queue_at(slot) =~= before.queue_at(slot).push(entry));
    }

    /// Pops the oldest queued `(result, buf_id)` for `key`, or `None` when the
    /// FIFO is empty or `key` is stale. A `buf_id` of [`NO_BUFFER`] marks a
    /// completion that consumed no provided buffer.
    pub fn pop(&mut self, key: RecvMultishotSlotKey) -> (entry: Option<(i32, u16)>)
        requires
            old(self).wf(),
        ensures
            final(self).wf(),
            entry == old(self)@.front(key),
            final(self)@ == old(self)@.popped(key),
    {
        if !self.is_live(key) {
            return None;
        }
        let len: u16 = self.slot_len(key.slot);
        if len == 0 {
            return None;
        }
        let head: u16 = self.slot_head(key.slot);
        let offset: usize = entry_offset(key.slot, head);
        let result: i32 = read_i32(&self.storage, offset);
        let buf_id: u16 = read_u16(&self.storage, offset + 4);
        self.set_slot_head(key.slot, (head + 1) % MULTISHOT_FIFO_DEPTH);
        self.set_slot_len(key.slot, len - 1);
        proof {
            let slot = key.slot as int;
            let before = old(self)@.slots[slot];
            let after = RecvSlot { queue: before.queue.drop_first(), ..before };
            self.lemma_front_dropped(*old(self), slot);
            assert(self.slot_at(slot) =~= after);
            Self::lemma_one_slot(*old(self), *self, slot, after);
        }
        Some((result, buf_id))
    }

    proof fn lemma_front_dropped(&self, before: RecvMultishotSlab, slot: int)
        requires
            0 <= before.head_at(slot) < 64,
            0 < before.len_at(slot) <= 64,
            self.storage == before.storage,
            self.head_at(slot) == (before.head_at(slot) + 1) % 64,
            self.len_at(slot) == before.len_at(slot) - 1,
        ensures
            self.queue_at(slot) == before.queue_at(slot).drop_first(),
            before.queue_at(slot)[0] == before.entry_at(slot, before.head_at(slot)),
    {
        let head = before.head_at(slot);
        assert forall|place: int| 0 <= place < self.len_at(slot) implies self.queue_at(slot)[place]
            == before.queue_at(slot).drop_first()[place] by {
            assert((self.head_at(slot) + place) % 64 == (head + (place + 1)) % 64);
        }
        assert(self.queue_at(slot) =~= before.queue_at(slot).drop_first());
    }

    /// Takes `key`'s stashed terminal `(result, buf_id)` when one is pending,
    /// clearing the pending mark so the terminal is handed back exactly once.
    ///
    /// Returns `None` when `key` is stale or no terminal is stashed. The
    /// consumer calls this after draining the FIFO: a `Some` is the stream's
    /// final item (a clean close carries `result` 0, an error end a negative
    /// errno), after which [`is_terminated`](Self::is_terminated) still holds
    /// so the next poll ends the stream.
    pub fn take_terminal(&mut self, key: RecvMultishotSlotKey) -> (entry: Option<(i32, u16)>)
        requires
            old(self).wf(),
        ensures
            final(self).wf(),
            entry == old(self)@.terminal(key),
            final(self)@ == old(self)@.terminal_taken(key),
    {
        if !self.is_live(key) {
            return None;
        }
        let ghost slot = key.slot as int;
        let ghost after = RecvSlot { terminal: None, ..old(self)@.slots[slot] };
        proof {
            assert(self.head_at(slot) < 64);
            assert(self.len_at(slot) <= 64);
        }
        if !self.terminal_stashed.get(key.slot as usize) {
            assert(self@.slots =~= old(self)@.slots.update(slot, after));
            return None;
        }
        self.terminal_stashed.clear(key.slot as usize);
        let entry = self.slot_terminal(key.slot);
        proof {
            assert(self.queue_at(slot) =~= old(self).queue_at(slot));
            assert(self.slot_at(slot) =~= after);
            Self::lemma_one_slot(*old(self), *self, slot, after);
        }
        Some(entry)
    }

    /// Whether every buffer that `key`'s op holds, queued or stashed, has an id
    /// below `limit`.
    pub fn holds_only_below(&self, key: RecvMultishotSlotKey, limit: u16) -> (flag: bool)
        requires
            self.wf(),
        ensures
            flag == self@.holds_only_below(key, limit),
    {
        if !self.is_live(key) {
            return true;
        }
        let ghost slot = key.slot as int;
        assert(self.head_at(slot) < 64);
        assert(self.len_at(slot) <= 64);
        let head: u16 = self.slot_head(key.slot);
        let len: u16 = self.slot_len(key.slot);
        let mut place: u16 = 0;
        while place < len
            invariant
                self.wf(),
                self@.live(key),
                slot == key.slot,
                key.slot < MAX_RECV_MULTISHOT_SLOTS,
                head == self.head_at(slot),
                head < 64,
                len == self.len_at(slot),
                place <= len <= 64,
                forall|at: int| 0 <= at < place ==> held_below(#[trigger] self@.queued(key)[at], limit),
            decreases len - place,
        {
            let offset: usize = entry_offset(key.slot, (head + place) % MULTISHOT_FIFO_DEPTH);
            let buf_id: u16 = read_u16(&self.storage, offset + 4);
            assert(self@.queued(key)[place as int].1 == buf_id);
            if buf_id != NO_BUFFER && buf_id >= limit {
                return false;
            }
            place = place + 1;
        }
        if !self.terminal_stashed.get(key.slot as usize) {
            return true;
        }
        let buf_id: u16 = self.slot_terminal(key.slot).1;
        buf_id == NO_BUFFER || buf_id < limit
    }

    /// Returns the owning task token for `slot` at the sentinel's generation,
    /// or `None` when the slot is stale. The drain calls this to wake the
    /// owner.
    pub fn owner(&self, slot: u16, generation_low16: u16) -> (owner: Option<u64>)
        requires
            self.wf(),
        ensures
            owner == self@.owner(slot, generation_low16),
    {
        if !self.is_slot_live(slot, generation_low16) {
            return None;
        }
        Some(self.slot_owner_token(slot))
    }

    /// Returns whether `key`'s op has posted its final completion.
    pub fn is_terminated(&self, key: RecvMultishotSlotKey) -> (flag: bool)
        requires
            self.wf(),
        ensures
            flag == self@.terminated(key),
    {
        if !self.is_live(key) {
            return false;
        }
        self.terminated.get(key.slot as usize)
    }

    /// Marks `key`'s slot cancel-pending. A stale handle is a no-op.
    pub fn mark_cancel_pending(&mut self, key: RecvMultishotSlotKey)
        requires
            old(self).wf(),
        ensures
            final(self).wf(),
            final(self)@ == old(self)@.cancelling(key),
    {
        if !self.is_live(key) {
            return;
        }
        self.cancel_pending.set(key.slot as usize);
        proof {
            let slot = key.slot as int;
            let after = RecvSlot { cancel_pending: true, ..old(self)@.slots[slot] };
            assert(self.head_at(slot) == old(self).head_at(slot));
            assert(self.len_at(slot) == old(self).len_at(slot));
            assert(self.queue_at(slot) =~= old(self).queue_at(slot));
            assert(self.slot_at(slot) =~= after);
            Self::lemma_one_slot(*old(self), *self, slot, after);
        }
    }

    /// Empties a slot and bumps its generation.
    fn release(&mut self, slot: u16)
        requires
            old(self).wf(),
            slot < old(self).cap,
        ensures
            final(self).wf(),
            final(self)@ == old(self)@.with_slot(
                slot as int,
                old(self)@.slots[slot as int].freed(),
            ),
    {
        let index: usize = slot as usize;
        proof {
            assert(self.head_at(slot as int) < 64);
        }
        self.occupied.clear(index);
        self.terminated.clear(index);
        self.terminal_stashed.clear(index);
        self.cancel_pending.clear(index);
        self.set_slot_len(slot, 0);
        let generation: u64 = self.slot_generation(slot).wrapping_add(1);
        self.set_slot_generation(slot, generation);
        proof {
            let after = old(self)@.slots[slot as int].freed();
            assert(self.queue_at(slot as int) =~= Seq::<(i32, u16)>::empty());
            assert(self.slot_at(slot as int) =~= after);
            Self::lemma_one_slot(*old(self), *self, slot as int, after);
        }
    }

    /// Frees `key`'s slot, bumping its generation. A stale handle is a no-op.
    pub fn free(&mut self, key: RecvMultishotSlotKey)
        requires
            old(self).wf(),
        ensures
            final(self).wf(),
            final(self)@ == old(self)@.freed(key),
    {
        if !self.is_live(key) {
            return;
        }
        self.release(key.slot);
    }

    /// Whether `slot` is cancel-pending at `generation_low16`.
    pub fn is_cancel_pending(&self, slot: u16, generation_low16: u16) -> (flag: bool)
        requires
            self.wf(),
        ensures
            flag == self@.cancel_pending(slot, generation_low16),
    {
        if !self.is_slot_live(slot, generation_low16) {
            return false;
        }
        self.cancel_pending.get(slot as usize)
    }

    /// Frees `slot` when occupied at `generation_low16`, bumping its
    /// generation.
    ///
    /// The drain calls this on the terminal completion of a cancel-pending op,
    /// keyed by the sentinel's slot and low-16 generation; a stale slot is a
    /// no-op.
    pub fn free_by_slot(&mut self, slot: u16, generation_low16: u16)
        requires
            old(self).wf(),
        ensures
            final(self).wf(),
            final(self)@ == old(self)@.freed_slot(slot, generation_low16),
    {
        if !self.is_slot_live(slot, generation_low16) {
            return;
        }
        self.release(slot);
    }
}

} // verus!
