//! What holds across calls of the in-flight registry.

use vstd::prelude::*;

use crate::buffer::mmap;
use crate::buffer::oneshot::inflight;
use crate::buffer::oneshot::inflight::{InflightSlot, InflightSlotKey, InflightSlots};
use crate::buffer::scan;

verus! {

/// Whether `key`'s slot is the only occupied one whose op carries its token.
///
/// A task has at most one buffered completion outstanding, so every live key
/// of a running worker is.
pub open spec fn sole_owner(registry: InflightSlots, key: InflightSlotKey) -> bool {
    &&& registry.live(key)
    &&& registry.slots[key.slot as int].op_token == key.op_token
    &&& forall|slot: int|
        0 <= slot < registry.slots.len() && slot != key.slot && (
        #[trigger] registry.slots[slot]).occupied ==> registry.slots[slot].op_token != key.op_token
}

/// The handle an allocation hands out is live, carries the op's token, and
/// names a slot no live handle named before; every other live handle stays
/// live.
pub proof fn allocation_is_exclusive(registry: InflightSlots, op_token: u64, other: InflightSlotKey)
    requires
        registry.valid(),
    ensures
        registry.allocated_key(op_token) is None <==> forall|slot: int|
            0 <= slot < registry.slots.len() ==> (#[trigger] registry.slots[slot]).occupied,
        registry.allocated_key(op_token) is None ==> registry.allocated(op_token) == registry,
        registry.allocated_key(op_token) matches Some(key) ==> {
            &&& registry.allocated(op_token).live(key)
            &&& registry.allocated(op_token).slots[key.slot as int].op_token == op_token
            &&& !registry.allocated(op_token).slots[key.slot as int].retire_pending
            &&& !registry.live(key)
            &&& registry.live(other) ==> other.slot != key.slot
        },
        registry.live(other) ==> registry.allocated(op_token).live(other),
        registry.allocated(op_token).valid(),
{
    scan::first_index_finds(registry.slots, |slot: InflightSlot| !slot.occupied);
}

/// Freeing a slot makes its handle stale, and the handle stays stale when the
/// slot is allocated again: the new occupant has the next generation.
pub proof fn freed_handle_stays_stale(registry: InflightSlots, key: InflightSlotKey, op_token: u64)
    requires
        registry.valid(),
        registry.live(key),
    ensures
        !registry.freed(key).live(key),
        !registry.freed(key).allocated(op_token).live(key),
        registry.freed(key).allocated_key(op_token) matches Some(next) ==> (next.slot == key.slot
            ==> next.generation == inflight::next_generation(key.generation)),
        registry.freed(key).valid(),
{
    scan::first_index_finds(
        registry.freed(key).slots,
        |slot: InflightSlot| !slot.occupied,
    );
}

/// Whether `key`'s slot has moved on to a later generation.
pub open spec fn outdated(registry: InflightSlots, key: InflightSlotKey) -> bool {
    key.slot < registry.slots.len() && registry.slots[key.slot as int].generation > key.generation
}

/// A freed handle is outdated, an outdated handle is not live, and it stays
/// outdated whatever is done next, by whichever handle, token or cancel -- until
/// its slot's generation counter wraps.
pub proof fn outdated_handle_stays_outdated(
    registry: InflightSlots,
    key: InflightSlotKey,
    other: InflightSlotKey,
    op_token: u64,
    slot: u16,
    generation_low16: u16,
    at: int,
    src: Seq<u8>,
)
    requires
        key.slot < registry.slots.len(),
        registry.slots[key.slot as int].generation < u64::MAX,
    ensures
        registry.live(key) ==> outdated(registry.freed(key), key),
        outdated(registry, key) ==> {
            &&& !registry.live(key)
            &&& outdated(registry.allocated(op_token), key)
            &&& outdated(registry.freed(other), key)
            &&& outdated(registry.retiring(other), key)
            &&& outdated(registry.written(other, at, src), key)
            &&& outdated(registry.reclaimed(op_token), key)
            &&& outdated(registry.cancelled(slot, generation_low16), key)
            &&& outdated(registry.notif_expected(op_token), key)
            &&& outdated(registry.notif_ready(op_token), key)
        },
{
    scan::first_index_finds(registry.slots, |slot: InflightSlot| !slot.occupied);
    scan::first_index_finds(
        registry.slots,
        |slot: InflightSlot| slot.retire_pending && slot.op_token == op_token,
    );
    scan::first_index_finds(
        registry.slots,
        |slot: InflightSlot| slot.occupied && slot.op_token == op_token,
    );
}

/// A slot freed below every other free slot is the next one handed out.
pub proof fn freed_slot_is_reused(registry: InflightSlots, key: InflightSlotKey, op_token: u64)
    requires
        registry.valid(),
        registry.live(key),
        forall|lower: int| 0 <= lower < key.slot ==> (#[trigger] registry.slots[lower]).occupied,
    ensures
        registry.freed(key).allocated_key(op_token) == Some(
            InflightSlotKey {
                slot: key.slot,
                generation: inflight::next_generation(key.generation),
                worker_id: key.worker_id,
                op_token,
            },
        ),
{
    let slots = registry.freed(key).slots;
    let wanted = |slot: InflightSlot| !slot.occupied;
    assert forall|lower: int| 0 <= lower < key.slot implies !wanted(#[trigger] slots[lower]) by {
        assert(slots[lower] == registry.slots[lower]);
    }
    scan::lemma_first_index_is(slots, wanted, key.slot as int);
}

/// A stale handle touches nothing: not by a free, not by a retire mark, not by
/// a write.
pub proof fn stale_handle_is_inert(
    registry: InflightSlots,
    key: InflightSlotKey,
    at: int,
    src: Seq<u8>,
)
    requires
        !registry.live(key),
    ensures
        registry.freed(key) == registry,
        registry.retiring(key) == registry,
        registry.written(key, at, src) == registry,
{
}

/// What is done to one handle's slot leaves every other live handle live, with
/// its bytes as they were.
pub proof fn other_handles_are_untouched(
    registry: InflightSlots,
    key: InflightSlotKey,
    other: InflightSlotKey,
    at: int,
    src: Seq<u8>,
)
    requires
        registry.live(other),
        other.slot != key.slot,
    ensures
        ({
            let slot = other.slot as int;
            &&& registry.freed(key).live(other)
            &&& registry.freed(key).slots[slot] == registry.slots[slot]
            &&& registry.retiring(key).live(other)
            &&& registry.retiring(key).slots[slot] == registry.slots[slot]
            &&& registry.written(key, at, src).live(other)
            &&& registry.written(key, at, src).slots[slot] == registry.slots[slot]
        }),
{
}

/// What is written into a live slot is what a read of it gives back, and the
/// handle stays live.
pub proof fn read_gives_back_what_was_written(
    registry: InflightSlots,
    key: InflightSlotKey,
    src: Seq<u8>,
)
    requires
        registry.valid(),
        registry.live(key),
        src.len() <= inflight::INFLIGHT_BUF_STRIDE,
    ensures
        registry.written(key, 0, src).live(key),
        registry.written(key, 0, src).slots[key.slot as int].bytes.take(src.len() as int) == src,
        registry.written(key, 0, src).valid(),
{
    let slot = registry.slots[key.slot as int];
    assert(mmap::overwritten(slot.bytes, 0, src).take(src.len() as int) =~= src);
}

/// A drop frees nothing: marking a slot retire-pending, like announcing or
/// recording a notification, taking a slot for another op or writing bytes,
/// leaves every live handle live. Only a free, the op's own completion, or a
/// cancel that found its target gone ends one.
pub proof fn only_a_release_ends_a_handle(
    registry: InflightSlots,
    key: InflightSlotKey,
    dropped: InflightSlotKey,
    op_token: u64,
    at: int,
    src: Seq<u8>,
)
    requires
        registry.valid(),
        registry.live(key),
    ensures
        registry.retiring(dropped).live(key),
        registry.notif_expected(op_token).live(key),
        registry.notif_ready(op_token).live(key),
        registry.allocated(op_token).live(key),
        registry.written(dropped, at, src).live(key),
{
    scan::first_index_finds(registry.slots, |slot: InflightSlot| !slot.occupied);
    scan::first_index_finds(
        registry.slots,
        |slot: InflightSlot| slot.occupied && slot.op_token == op_token,
    );
}

/// A slot whose future is still live is freed by no completion and by no
/// cancel.
pub proof fn live_future_keeps_its_slot(
    registry: InflightSlots,
    key: InflightSlotKey,
    op_token: u64,
    slot: u16,
    generation_low16: u16,
)
    requires
        registry.live(key),
        !registry.slots[key.slot as int].retire_pending,
    ensures
        registry.reclaimed(op_token).live(key),
        registry.reclaimed(op_token).slots[key.slot as int] == registry.slots[key.slot as int],
        registry.cancelled(slot, generation_low16).live(key),
        registry.cancelled(slot, generation_low16).slots[key.slot as int]
            == registry.slots[key.slot as int],
{
    scan::first_index_finds(
        registry.slots,
        |slot: InflightSlot| slot.retire_pending && slot.op_token == op_token,
    );
}

/// Once its future dropped, an op's own completion frees its slot, and a second
/// one frees nothing.
pub proof fn completion_frees_a_dropped_slot(registry: InflightSlots, key: InflightSlotKey)
    requires
        registry.valid(),
        sole_owner(registry, key),
    ensures
        registry.retiring(key).first_retiring(key.op_token) == Some(key.slot as int),
        registry.retiring(key).reclaimed(key.op_token) == registry.freed(key),
        registry.freed(key).first_retiring(key.op_token) is None,
        registry.freed(key).reclaimed(key.op_token) == registry.freed(key),
{
    let wanted = |slot: InflightSlot| slot.retire_pending && slot.op_token == key.op_token;
    let dropped = registry.retiring(key);
    assert forall|lower: int| 0 <= lower < key.slot implies !wanted(
        #[trigger] dropped.slots[lower],
    ) by {
        assert(dropped.slots[lower] == registry.slots[lower]);
    }
    scan::lemma_first_index_is(dropped.slots, wanted, key.slot as int);
    assert(dropped.reclaimed(key.op_token).slots =~= registry.freed(key).slots);
    let gone = registry.freed(key);
    assert forall|slot: int| 0 <= slot < gone.slots.len() implies !wanted(
        #[trigger] gone.slots[slot],
    ) by {
        if slot != key.slot {
            assert(gone.slots[slot] == registry.slots[slot]);
        }
    }
    scan::lemma_first_index_none(gone.slots, wanted);
}

/// A cancel that found its target gone frees the dropped op's slot, unless a
/// notification is announced and has not arrived: then the slot stays.
pub proof fn cancel_waits_for_the_notification(registry: InflightSlots, key: InflightSlotKey)
    requires
        registry.live(key),
    ensures
        ({
            let slot = registry.slots[key.slot as int];
            let low16 = (key.generation % 0x1_0000) as u16;
            let after = registry.retiring(key).cancelled(key.slot, low16);
            if slot.notif_expected && !slot.notif_ready {
                &&& after == registry.retiring(key)
                &&& after.live(key)
            } else {
                &&& after == registry.freed(key)
                &&& !after.live(key)
            }
        }),
{
    let low16 = (key.generation % 0x1_0000) as u16;
    let after = registry.retiring(key).cancelled(key.slot, low16);
    let slot = registry.slots[key.slot as int];
    if !(slot.notif_expected && !slot.notif_ready) {
        assert(after.slots =~= registry.freed(key).slots);
    }
}

/// A cancel completion that names another generation of the slot frees nothing.
pub proof fn cancel_of_another_generation_is_inert(
    registry: InflightSlots,
    slot: u16,
    generation_low16: u16,
)
    requires
        slot < registry.slots.len(),
        registry.slots[slot as int].generation % 0x1_0000 != generation_low16,
    ensures
        registry.cancelled(slot, generation_low16) == registry,
{
}

/// The notification of a dropped op frees its slot even though it was
/// announced; that of a live op marks the slot, after which a drop is freed by
/// the cancel.
pub proof fn notification_releases_the_slot(registry: InflightSlots, key: InflightSlotKey)
    requires
        registry.valid(),
        sole_owner(registry, key),
        !registry.slots[key.slot as int].retire_pending,
    ensures
        ({
            let announced = registry.notif_expected(key.op_token);
            let ready = announced.notif_ready(key.op_token);
            let low16 = (key.generation % 0x1_0000) as u16;
            &&& announced.retiring(key).reclaimed(key.op_token) == registry.freed(key)
            &&& announced.first_retiring(key.op_token) is None
            &&& ready.live(key)
            &&& ready.slots[key.slot as int].notif_ready
            &&& ready.retiring(key).cancelled(key.slot, low16) == registry.freed(key)
        }),
{
    let owned = |slot: InflightSlot| slot.occupied && slot.op_token == key.op_token;
    let retiring = |slot: InflightSlot| slot.retire_pending && slot.op_token == key.op_token;
    let index = key.slot as int;
    assert(scan::is_first(registry.slots, owned, index));
    scan::lemma_first_index_is(registry.slots, owned, index);
    let announced = registry.notif_expected(key.op_token);
    assert forall|slot: int| 0 <= slot < announced.slots.len() && slot != index implies #[trigger]
        announced.slots[slot] == registry.slots[slot] by {}
    assert(scan::is_first(announced.slots, owned, index));
    scan::lemma_first_index_is(announced.slots, owned, index);
    assert(sole_owner(announced, key));
    completion_frees_a_dropped_slot(announced, key);
    assert(announced.freed(key).slots =~= registry.freed(key).slots);
    scan::lemma_first_index_none(announced.slots, retiring);
    let ready = announced.notif_ready(key.op_token);
    cancel_waits_for_the_notification(ready, key);
    assert(ready.freed(key).slots =~= registry.freed(key).slots);
}

} // verus!
