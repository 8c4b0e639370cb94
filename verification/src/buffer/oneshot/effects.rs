//! What each call of the in-flight registry does, slot by slot and field by
//! field.

use vstd::prelude::*;

use crate::buffer::oneshot::inflight::{
    InflightBufSlab, InflightSlot, InflightSlotKey, MAX_INLINE_CAP,
};
use crate::buffer::scan;
use crate::error::IoError;

verus! {

/// A registry is refused for having no slots, then for memory the system did
/// not grant; otherwise it starts with nothing in it, with as many slots as
/// asked for up to the ceiling, every byte zero.
pub proof fn registry_starts_empty(
    worker_id: u8,
    cap: u16,
    refused: Option<i32>,
    outcome: Result<InflightBufSlab, IoError>,
)
    requires
        call_ensures(InflightBufSlab::mapped, (worker_id, cap, refused), outcome) || (refused is None
            && call_ensures(InflightBufSlab::new, (worker_id, cap), outcome)),
    ensures
        cap == 0 ==> outcome == Err::<InflightBufSlab, IoError>(IoError::ZeroLengthRegion),
        cap > 0 ==> (refused matches Some(errno) ==> outcome == Err::<InflightBufSlab, IoError>(
            IoError::Os(errno),
        )),
        cap > 0 && refused is None ==> outcome is Ok,
        outcome matches Ok(slab) ==> {
            &&& slab.wf()
            &&& slab@.worker_id == worker_id
            &&& cap <= 256 ==> slab@.slots.len() == cap
            &&& cap > 256 ==> slab@.slots.len() == 256
            &&& forall|slot: int|
                0 <= slot < slab@.slots.len() ==> {
                    &&& !(#[trigger] slab@.slots[slot]).occupied
                    &&& !slab@.slots[slot].retire_pending
                    &&& !slab@.slots[slot].notif_expected
                    &&& !slab@.slots[slot].notif_ready
                    &&& slab@.slots[slot].generation == 0
                    &&& slab@.slots[slot].op_token == 0
                    &&& slab@.slots[slot].bytes.len() == 4096
                    &&& forall|at: int|
                        0 <= at < 4096 ==> #[trigger] slab@.slots[slot].bytes[at] == 0
                }
        },
{
}

/// A handle is live exactly while the slot it names is occupied at its
/// generation, on its worker.
pub proof fn handle_is_live_while_its_slot_keeps_its_generation(
    slab: InflightBufSlab,
    key: InflightSlotKey,
    flag: bool,
)
    requires
        slab.wf(),
        call_ensures(InflightBufSlab::is_live, (&slab, key), flag),
    ensures
        flag == slab@.live(key),
        flag <==> key.worker_id == slab@.worker_id && key.slot < slab@.slots.len()
            && slab@.slots[key.slot as int].occupied && slab@.slots[key.slot as int].generation
            == key.generation,
{
}

/// An op takes the lowest slot nobody owns, whose handle carries the slot's
/// generation and the op's token; a full registry hands out none and stays as
/// it is.
pub proof fn allocation_takes_the_lowest_free_slot(
    slab: &mut InflightBufSlab,
    op_token: u64,
    key: Option<InflightSlotKey>,
    index: int,
)
    requires
        old(slab).wf(),
        call_ensures(InflightBufSlab::allocate, (slab, op_token), key),
    ensures
        final(slab).wf(),
        (forall|slot: int|
            0 <= slot < old(slab)@.slots.len() ==> (#[trigger] old(slab)@.slots[slot]).occupied)
            ==> key is None && final(slab)@ == old(slab)@,
        0 <= index < old(slab)@.slots.len() && !old(slab)@.slots[index].occupied && (forall|
            lower: int,
        |
            0 <= lower < index ==> (#[trigger] old(slab)@.slots[lower]).occupied) ==> {
            let slot = final(slab)@.slots[index];
            &&& key matches Some(handle) && handle.slot == index && handle.op_token == op_token
                && handle.worker_id == old(slab)@.worker_id && handle.generation == old(
                slab,
            )@.slots[index].generation
            &&& slot.occupied
            &&& slot.op_token == op_token
            &&& slot.generation == old(slab)@.slots[index].generation
            &&& !slot.retire_pending && !slot.notif_expected && !slot.notif_ready
            &&& slot.bytes == old(slab)@.slots[index].bytes
            &&& final(slab)@.worker_id == old(slab)@.worker_id
            &&& final(slab)@.slots.len() == old(slab)@.slots.len()
            &&& forall|other: int|
                0 <= other < old(slab)@.slots.len() && other != index
                    ==> #[trigger] final(slab)@.slots[other] == old(slab)@.slots[other]
        },
{
    let wanted = |slot: InflightSlot| !slot.occupied;
    old(slab).slab_is_valid();
    scan::first_index_finds(old(slab)@.slots, wanted);
    if 0 <= index < old(slab)@.slots.len() && !old(slab)@.slots[index].occupied && (forall|
        lower: int,
    |
        0 <= lower < index ==> (#[trigger] old(slab)@.slots[lower]).occupied) {
        scan::lemma_first_index_is(old(slab)@.slots, wanted, index);
    }
}

/// Freeing a live handle's slot ends the handle for good: the slot is nobody's,
/// carries no mark, and moves on to the next generation. No other slot changes,
/// and a stale handle frees nothing.
pub proof fn free_ends_the_handle_and_nothing_else(slab: &mut InflightBufSlab, key: InflightSlotKey)
    requires
        old(slab).wf(),
        call_ensures(InflightBufSlab::free, (slab, key), ()),
    ensures
        final(slab).wf(),
        ({
            let before = old(slab)@;
            let after = final(slab)@;
            let at = key.slot as int;
            let named = key.worker_id == before.worker_id && key.slot < before.slots.len()
                && before.slots[at].occupied && before.slots[at].generation == key.generation;
            &&& !named ==> after == before
            &&& named ==> {
                &&& !after.slots[at].occupied
                &&& !after.slots[at].retire_pending
                &&& !after.slots[at].notif_expected
                &&& !after.slots[at].notif_ready
                &&& after.slots[at].generation == (before.slots[at].generation + 1)
                    % 0x1_0000_0000_0000_0000
                &&& after.worker_id == before.worker_id
                &&& after.slots.len() == before.slots.len()
                &&& forall|other: int|
                    0 <= other < before.slots.len() && other != at
                        ==> #[trigger] after.slots[other] == before.slots[other]
            }
        }),
{
}

/// Dropping a future marks its slot and changes nothing else: the slot stays
/// occupied, with its bytes, its token and its generation.
pub proof fn a_drop_only_marks_its_slot(
    slab: &mut InflightBufSlab,
    key: InflightSlotKey,
    slot: u16,
    marked: bool,
)
    requires
        old(slab).wf(),
        call_ensures(InflightBufSlab::mark_retire_pending, (slab, key), ()),
        call_ensures(InflightBufSlab::is_retire_pending, (&*final(slab), slot), marked),
    ensures
        final(slab).wf(),
        ({
            let before = old(slab)@;
            let after = final(slab)@;
            let at = key.slot as int;
            let named = key.worker_id == before.worker_id && key.slot < before.slots.len()
                && before.slots[at].occupied && before.slots[at].generation == key.generation;
            &&& !named ==> after == before
            &&& named ==> {
                &&& after.slots[at] == (InflightSlot { retire_pending: true, ..before.slots[at] })
                &&& after.worker_id == before.worker_id
                &&& after.slots.len() == before.slots.len()
                &&& forall|other: int|
                    0 <= other < before.slots.len() && other != at
                        ==> #[trigger] after.slots[other] == before.slots[other]
            }
            &&& named && slot == key.slot ==> marked
            &&& marked <==> slot < before.slots.len() && (before.slots[slot as int].retire_pending || (
            named && slot == key.slot))
        }),
{
}

/// An op's own completion frees the lowest slot that a dropped future with its
/// token left behind, and only that; without one it frees nothing. It says
/// whether it freed one.
pub proof fn completion_frees_what_its_dropped_future_left(
    slab: &mut InflightBufSlab,
    op_token: u64,
    freed: bool,
    index: int,
)
    requires
        old(slab).wf(),
        call_ensures(InflightBufSlab::free_by_op_token, (slab, op_token), freed),
    ensures
        final(slab).wf(),
        ({
            let before = old(slab)@;
            let after = final(slab)@;
            &&& (forall|slot: int|
                0 <= slot < before.slots.len() ==> !((#[trigger] before.slots[slot]).retire_pending
                    && before.slots[slot].op_token == op_token)) ==> !freed && after == before
            &&& 0 <= index < before.slots.len() && before.slots[index].retire_pending
                && before.slots[index].op_token == op_token && (forall|lower: int|
                0 <= lower < index ==> !((#[trigger] before.slots[lower]).retire_pending
                    && before.slots[lower].op_token == op_token)) ==> {
                &&& freed
                &&& !after.slots[index].occupied
                &&& !after.slots[index].retire_pending
                &&& !after.slots[index].notif_expected
                &&& !after.slots[index].notif_ready
                &&& after.slots[index].generation == (before.slots[index].generation + 1)
                    % 0x1_0000_0000_0000_0000
                &&& after.worker_id == before.worker_id
                &&& after.slots.len() == before.slots.len()
                &&& forall|other: int|
                    0 <= other < before.slots.len() && other != index
                        ==> #[trigger] after.slots[other] == before.slots[other]
            }
        }),
{
    let before = old(slab)@;
    let wanted = |slot: InflightSlot| slot.retire_pending && slot.op_token == op_token;
    scan::first_index_finds(before.slots, wanted);
    if 0 <= index < before.slots.len() && before.slots[index].retire_pending
        && before.slots[index].op_token == op_token && (forall|lower: int|
        0 <= lower < index ==> !((#[trigger] before.slots[lower]).retire_pending
            && before.slots[lower].op_token == op_token)) {
        scan::lemma_first_index_is(before.slots, wanted, index);
    }
}

/// A cancel that found its target gone frees the slot it names, if the op there
/// was dropped, is of the generation the cancel names, and owes no notification;
/// otherwise it frees nothing.
pub proof fn cancel_frees_a_dropped_slot_the_kernel_is_done_with(
    slab: &mut InflightBufSlab,
    slot: u16,
    generation_low16: u16,
)
    requires
        old(slab).wf(),
        call_ensures(InflightBufSlab::free_if_retire_pending, (slab, slot, generation_low16), ()),
    ensures
        final(slab).wf(),
        ({
            let before = old(slab)@;
            let after = final(slab)@;
            let at = slot as int;
            let done = slot < before.slots.len() && before.slots[at].occupied
                && before.slots[at].retire_pending && before.slots[at].generation % 0x1_0000
                == generation_low16 && !(before.slots[at].notif_expected
                && !before.slots[at].notif_ready);
            &&& !done ==> after == before
            &&& done ==> {
                &&& !after.slots[at].occupied
                &&& !after.slots[at].retire_pending
                &&& !after.slots[at].notif_expected
                &&& !after.slots[at].notif_ready
                &&& after.slots[at].generation == (before.slots[at].generation + 1)
                    % 0x1_0000_0000_0000_0000
                &&& after.worker_id == before.worker_id
                &&& after.slots.len() == before.slots.len()
                &&& forall|other: int|
                    0 <= other < before.slots.len() && other != at
                        ==> #[trigger] after.slots[other] == before.slots[other]
            }
        }),
{
}

/// Announcing a notification marks the lowest slot an op with the token owns,
/// dropped or not, and changes nothing else.
pub proof fn announcement_marks_the_owned_slot(
    slab: &mut InflightBufSlab,
    op_token: u64,
    index: int,
)
    requires
        old(slab).wf(),
        call_ensures(InflightBufSlab::mark_notif_expected_by_op_token, (slab, op_token), ()),
    ensures
        final(slab).wf(),
        ({
            let before = old(slab)@;
            let after = final(slab)@;
            &&& (forall|slot: int|
                0 <= slot < before.slots.len() ==> !((#[trigger] before.slots[slot]).occupied
                    && before.slots[slot].op_token == op_token)) ==> after == before
            &&& 0 <= index < before.slots.len() && before.slots[index].occupied
                && before.slots[index].op_token == op_token && (forall|lower: int|
                0 <= lower < index ==> !((#[trigger] before.slots[lower]).occupied
                    && before.slots[lower].op_token == op_token)) ==> {
                &&& after.slots[index] == (InflightSlot {
                    notif_expected: true,
                    ..before.slots[index]
                })
                &&& after.worker_id == before.worker_id
                &&& after.slots.len() == before.slots.len()
                &&& forall|other: int|
                    0 <= other < before.slots.len() && other != index
                        ==> #[trigger] after.slots[other] == before.slots[other]
            }
        }),
{
    let before = old(slab)@;
    let wanted = |slot: InflightSlot| slot.occupied && slot.op_token == op_token;
    scan::first_index_finds(before.slots, wanted);
    if 0 <= index < before.slots.len() && before.slots[index].occupied
        && before.slots[index].op_token == op_token && (forall|lower: int|
        0 <= lower < index ==> !((#[trigger] before.slots[lower]).occupied
            && before.slots[lower].op_token == op_token)) {
        scan::lemma_first_index_is(before.slots, wanted, index);
    }
}

/// A notification for a live op marks the lowest slot an op with the token owns
/// and changes nothing else; the owner then sees it by its handle.
pub proof fn arrival_marks_the_owned_slot(
    slab: &mut InflightBufSlab,
    op_token: u64,
    index: int,
    key: InflightSlotKey,
    ready: bool,
)
    requires
        old(slab).wf(),
        call_ensures(InflightBufSlab::mark_notif_ready_by_op_token, (slab, op_token), ()),
        call_ensures(InflightBufSlab::is_notif_ready, (&*final(slab), key), ready),
    ensures
        final(slab).wf(),
        ({
            let before = old(slab)@;
            let after = final(slab)@;
            &&& (forall|slot: int|
                0 <= slot < before.slots.len() ==> !((#[trigger] before.slots[slot]).occupied
                    && before.slots[slot].op_token == op_token)) ==> after == before
            &&& 0 <= index < before.slots.len() && before.slots[index].occupied
                && before.slots[index].op_token == op_token && (forall|lower: int|
                0 <= lower < index ==> !((#[trigger] before.slots[lower]).occupied
                    && before.slots[lower].op_token == op_token)) ==> {
                &&& after.slots[index] == (InflightSlot {
                    notif_ready: true,
                    ..before.slots[index]
                })
                &&& after.worker_id == before.worker_id
                &&& after.slots.len() == before.slots.len()
                &&& forall|other: int|
                    0 <= other < before.slots.len() && other != index
                        ==> #[trigger] after.slots[other] == before.slots[other]
                &&& key.slot == index && key.worker_id == before.worker_id && key.generation
                    == before.slots[index].generation ==> ready
            }
            &&& ready <==> key.worker_id == after.worker_id && key.slot < after.slots.len()
                && after.slots[key.slot as int].occupied && after.slots[key.slot as int].generation
                == key.generation && after.slots[key.slot as int].notif_ready
        }),
{
    let before = old(slab)@;
    let wanted = |slot: InflightSlot| slot.occupied && slot.op_token == op_token;
    scan::first_index_finds(before.slots, wanted);
    if 0 <= index < before.slots.len() && before.slots[index].occupied
        && before.slots[index].op_token == op_token && (forall|lower: int|
        0 <= lower < index ==> !((#[trigger] before.slots[lower]).occupied
            && before.slots[lower].op_token == op_token)) {
        scan::lemma_first_index_is(before.slots, wanted, index);
    }
}

/// A zero-copy send's slot outlives a racing cancel until its notification:
/// whether its future dropped before the announcement or after it, the slot is
/// live once a cancel found its target gone, and the notification frees it.
pub proof fn announced_slot_waits_for_its_notification(
    announced: &mut InflightBufSlab,
    dropped: &mut InflightBufSlab,
    cancelled: &mut InflightBufSlab,
    notified: &mut InflightBufSlab,
    key: InflightSlotKey,
    freed: bool,
)
    requires
        old(announced).wf(),
        old(announced)@.live(key),
        old(announced)@.slots[key.slot as int].op_token == key.op_token,
        forall|other: int|
            0 <= other < old(announced)@.slots.len() && other != key.slot && (#[trigger] old(
                announced,
            )@.slots[other]).occupied ==> old(announced)@.slots[other].op_token != key.op_token,
        !old(announced)@.slots[key.slot as int].notif_ready,
        call_ensures(
            InflightBufSlab::mark_notif_expected_by_op_token,
            (announced, key.op_token),
            (),
        ),
        *old(dropped) == *final(announced),
        call_ensures(InflightBufSlab::mark_retire_pending, (dropped, key), ()),
        *old(cancelled) == *final(dropped),
        call_ensures(
            InflightBufSlab::free_if_retire_pending,
            (cancelled, key.slot, (key.generation % 0x1_0000) as u16),
            (),
        ),
        *old(notified) == *final(cancelled),
        call_ensures(InflightBufSlab::free_by_op_token, (notified, key.op_token), freed),
    ensures
        final(announced)@.slots[key.slot as int].notif_expected,
        final(cancelled)@ == final(dropped)@,
        final(cancelled)@.live(key),
        final(cancelled)@.slots[key.slot as int].bytes == old(announced)@.slots[key.slot as int].bytes,
        freed,
        !final(notified)@.live(key),
{
    old(announced).slab_is_valid();
    announcement_marks_the_owned_slot(announced, key.op_token, key.slot as int);
    cancel_frees_a_dropped_slot_the_kernel_is_done_with(
        cancelled,
        key.slot,
        (key.generation % 0x1_0000) as u16,
    );
    completion_frees_what_its_dropped_future_left(notified, key.op_token, freed, key.slot as int);
}

/// A handle's bytes are its slot's own 4096, at its slot's place in the storage;
/// a read gives as many of them as it asks for, and a stale handle reads none.
pub proof fn reads_see_the_slots_own_bytes(
    slab: InflightBufSlab,
    key: InflightSlotKey,
    len: usize,
    offset: Option<usize>,
    slice: Option<&[u8]>,
    whole: Option<&[u8]>,
)
    requires
        slab.wf(),
        call_ensures(InflightBufSlab::slot_ptr, (&slab, key), offset),
        call_ensures(InflightBufSlab::slot_slice, (&slab, key, len), slice),
        call_ensures(InflightBufSlab::slot_array, (&slab, key), whole),
    ensures
        ({
            let at = key.slot as int;
            let named = key.worker_id == slab@.worker_id && key.slot < slab@.slots.len()
                && slab@.slots[at].occupied && slab@.slots[at].generation == key.generation;
            let bytes = slab@.slots[at].bytes;
            &&& !named ==> offset is None && slice is None && whole is None
            &&& named ==> {
                &&& bytes.len() == 4096
                &&& offset == Some((at * 4096) as usize)
                &&& whole matches Some(all) && all@ == bytes
                &&& slice matches Some(read) && read@.len() == (if len < 4096 {
                    len as int
                } else {
                    4096
                }) && forall|place: int|
                    0 <= place < read@.len() ==> #[trigger] read@[place] == bytes[place]
            }
        }),
{
    slab.slab_is_valid();
}

/// A write that fits a live handle's slot puts exactly its bytes there and keeps
/// every other byte and mark; one that does not fit, or through a stale handle,
/// changes nothing and says so.
pub proof fn write_changes_exactly_its_range(
    slab: &mut InflightBufSlab,
    key: InflightSlotKey,
    at: usize,
    src: &[u8],
    copied: bool,
)
    requires
        old(slab).wf(),
        call_ensures(InflightBufSlab::write_slot, (slab, key, at, src), copied),
    ensures
        final(slab).wf(),
        ({
            let before = old(slab)@;
            let after = final(slab)@;
            let place = key.slot as int;
            let fits = key.worker_id == before.worker_id && key.slot < before.slots.len()
                && before.slots[place].occupied && before.slots[place].generation == key.generation
                && at + src@.len() <= 4096;
            &&& copied == fits
            &&& !fits ==> after == before
            &&& fits ==> {
                &&& after.slots[place] == (InflightSlot {
                    bytes: after.slots[place].bytes,
                    ..before.slots[place]
                })
                &&& after.slots[place].bytes.len() == 4096
                &&& forall|byte: int|
                    0 <= byte < 4096 ==> #[trigger] after.slots[place].bytes[byte] == (if at <= byte
                        < at + src@.len() {
                        src@[byte - at]
                    } else {
                        before.slots[place].bytes[byte]
                    })
                &&& after.worker_id == before.worker_id
                &&& after.slots.len() == before.slots.len()
                &&& forall|other: int|
                    0 <= other < before.slots.len() && other != place
                        ==> #[trigger] after.slots[other] == before.slots[other]
            }
        }),
{
    old(slab).slab_is_valid();
    final(slab).slab_is_valid();
}

/// A slot holds as many bytes as the largest buffer kept inline, no more and no
/// fewer.
pub proof fn the_largest_inline_buffer_fills_a_slot(slab: InflightBufSlab, slot: int)
    requires
        slab.wf(),
        0 <= slot < slab@.slots.len(),
    ensures
        slab@.slots[slot].bytes.len() == MAX_INLINE_CAP,
{
    slab.slab_is_valid();
}

} // verus!
