//! What each call of the accept registry does, slot by slot and field by field.

use vstd::prelude::*;

use crate::buffer::multishot::accept::{
    MultishotPush, MultishotSlab, MultishotSlot, MultishotSlotKey,
};
use crate::buffer::scan;

verus! {

/// A registry starts with nothing in it, with as many slots as asked for up to
/// the ceiling.
pub proof fn registry_starts_empty(worker_id: u8, cap: u16, slab: MultishotSlab)
    requires
        call_ensures(MultishotSlab::new, (worker_id, cap), slab),
    ensures
        slab.wf(),
        slab@.worker_id == worker_id,
        cap <= 8 ==> slab@.slots.len() == cap,
        cap > 8 ==> slab@.slots.len() == 8,
        forall|slot: int|
            0 <= slot < slab@.slots.len() ==> {
                &&& !(#[trigger] slab@.slots[slot]).occupied
                &&& !slab@.slots[slot].terminated
                &&& !slab@.slots[slot].cancel_pending
                &&& slab@.slots[slot].generation == 0
                &&& slab@.slots[slot].owner_token == 0
                &&& slab@.slots[slot].queue.len() == 0
            },
{
}

/// A handle is live exactly while the slot it names is occupied at its
/// generation, on its worker; what it says of its op is what the slot holds.
pub proof fn handle_is_live_while_its_slot_keeps_its_generation(
    slab: MultishotSlab,
    key: MultishotSlotKey,
    live: bool,
    terminated: bool,
)
    requires
        slab.wf(),
        call_ensures(MultishotSlab::is_live, (&slab, key), live),
        call_ensures(MultishotSlab::is_terminated, (&slab, key), terminated),
    ensures
        live == slab@.live(key),
        live <==> key.worker_id == slab@.worker_id && key.slot < slab@.slots.len()
            && slab@.slots[key.slot as int].occupied && slab@.slots[key.slot as int].generation
            == key.generation,
        terminated <==> live && slab@.slots[key.slot as int].terminated,
{
}

/// A sentinel reaches its slot exactly while the slot is occupied and the low
/// bits of the generations agree; it then names the slot's owner.
pub proof fn sentinel_reaches_the_occupant_of_its_generation(
    slab: MultishotSlab,
    slot: u16,
    generation_low16: u16,
    owner: Option<u64>,
    cancel_pending: bool,
)
    requires
        slab.wf(),
        call_ensures(MultishotSlab::owner, (&slab, slot, generation_low16), owner),
        call_ensures(MultishotSlab::is_cancel_pending, (&slab, slot, generation_low16), cancel_pending),
    ensures
        ({
            let at = slot as int;
            let reached = slot < slab@.slots.len() && slab@.slots[at].occupied
                && slab@.slots[at].generation % 0x1_0000 == generation_low16;
            &&& reached ==> owner == Some(slab@.slots[at].owner_token) && cancel_pending
                == slab@.slots[at].cancel_pending
            &&& !reached ==> owner is None && !cancel_pending
        }),
{
}

/// A stream takes the lowest slot nobody owns, empty and unmarked, for the task
/// that asks; a full registry hands out none and stays as it is.
pub proof fn allocation_takes_the_lowest_free_slot(
    slab: &mut MultishotSlab,
    owner_token: u64,
    key: Option<MultishotSlotKey>,
    index: int,
)
    requires
        old(slab).wf(),
        call_ensures(MultishotSlab::allocate, (slab, owner_token), key),
    ensures
        final(slab).wf(),
        (forall|slot: int|
            0 <= slot < old(slab)@.slots.len() ==> (#[trigger] old(slab)@.slots[slot]).occupied)
            ==> key is None && final(slab)@ == old(slab)@,
        0 <= index < old(slab)@.slots.len() && !old(slab)@.slots[index].occupied && (forall|
            lower: int,
        |
            0 <= lower < index ==> (#[trigger] old(slab)@.slots[lower]).occupied) ==> {
            let slot = final(slab)@.slots[index];
            &&& key matches Some(handle) && handle.slot == index && handle.worker_id == old(
                slab,
            )@.worker_id && handle.generation == old(slab)@.slots[index].generation
            &&& slot.occupied
            &&& slot.owner_token == owner_token
            &&& slot.generation == old(slab)@.slots[index].generation
            &&& !slot.terminated && !slot.cancel_pending && slot.queue.len() == 0
            &&& final(slab)@.worker_id == old(slab)@.worker_id
            &&& final(slab)@.slots.len() == old(slab)@.slots.len()
            &&& forall|other: int|
                0 <= other < old(slab)@.slots.len() && other != index
                    ==> #[trigger] final(slab)@.slots[other] == old(slab)@.slots[other]
        },
{
    let wanted = |slot: MultishotSlot| !slot.occupied;
    old(slab).slab_is_valid();
    scan::first_index_finds(old(slab)@.slots, wanted);
    if 0 <= index < old(slab)@.slots.len() && !old(slab)@.slots[index].occupied && (forall|
        lower: int,
    |
        0 <= lower < index ==> (#[trigger] old(slab)@.slots[lower]).occupied) {
        scan::lemma_first_index_is(old(slab)@.slots, wanted, index);
    }
}

/// Marking a dropped stream's slot changes the mark and nothing else.
pub proof fn a_cancel_only_marks_its_slot(slab: &mut MultishotSlab, key: MultishotSlotKey)
    requires
        old(slab).wf(),
        call_ensures(MultishotSlab::mark_cancel_pending, (slab, key), ()),
    ensures
        final(slab).wf(),
        ({
            let before = old(slab)@;
            let after = final(slab)@;
            let at = key.slot as int;
            let named = key.worker_id == before.worker_id && key.slot < before.slots.len()
                && before.slots[at].occupied && before.slots[at].generation == key.generation;
            &&& !named ==> after == before
            &&& named ==> {
                &&& after.slots[at] == (MultishotSlot { cancel_pending: true, ..before.slots[at] })
                &&& after.worker_id == before.worker_id
                &&& after.slots.len() == before.slots.len()
                &&& forall|other: int|
                    0 <= other < before.slots.len() && other != at
                        ==> #[trigger] after.slots[other] == before.slots[other]
            }
        }),
{
}

/// Freeing a live handle's slot ends the handle for good: the slot is nobody's,
/// holds nothing, and moves on to the next generation. No other slot changes,
/// and a stale handle frees nothing.
pub proof fn free_ends_the_handle_and_nothing_else(slab: &mut MultishotSlab, key: MultishotSlotKey)
    requires
        old(slab).wf(),
        call_ensures(MultishotSlab::free, (slab, key), ()),
    ensures
        final(slab).wf(),
        ({
            let before = old(slab)@;
            let after = final(slab)@;
            let at = key.slot as int;
            let named = key.worker_id == before.worker_id && key.slot < before.slots.len()
                && before.slots[at].occupied && before.slots[at].generation == key.generation;
            &&& !named ==> after == before
            &&& named ==> {
                &&& !after.slots[at].occupied
                &&& !after.slots[at].terminated
                &&& !after.slots[at].cancel_pending
                &&& after.slots[at].queue.len() == 0
                &&& after.slots[at].generation == (before.slots[at].generation + 1)
                    % 0x1_0000_0000_0000_0000
                &&& after.worker_id == before.worker_id
                &&& after.slots.len() == before.slots.len()
                &&& forall|other: int|
                    0 <= other < before.slots.len() && other != at
                        ==> #[trigger] after.slots[other] == before.slots[other]
            }
        }),
{
}

/// Freeing by a sentinel frees the slot it reaches as its handle would, and
/// nothing when it reaches none.
pub proof fn sentinel_frees_the_slot_it_reaches(
    slab: &mut MultishotSlab,
    slot: u16,
    generation_low16: u16,
)
    requires
        old(slab).wf(),
        call_ensures(MultishotSlab::free_by_slot, (slab, slot, generation_low16), ()),
    ensures
        final(slab).wf(),
        ({
            let before = old(slab)@;
            let after = final(slab)@;
            let at = slot as int;
            let reached = slot < before.slots.len() && before.slots[at].occupied
                && before.slots[at].generation % 0x1_0000 == generation_low16;
            &&& !reached ==> after == before
            &&& reached ==> {
                &&& !after.slots[at].occupied
                &&& !after.slots[at].terminated
                &&& !after.slots[at].cancel_pending
                &&& after.slots[at].queue.len() == 0
                &&& after.slots[at].generation == (before.slots[at].generation + 1)
                    % 0x1_0000_0000_0000_0000
                &&& after.worker_id == before.worker_id
                &&& after.slots.len() == before.slots.len()
                &&& forall|other: int|
                    0 <= other < before.slots.len() && other != at
                        ==> #[trigger] after.slots[other] == before.slots[other]
            }
        }),
{
}

/// A poll takes the oldest queued completion of a live handle and leaves the
/// rest in order; with nothing queued, or through a stale handle, it takes
/// nothing.
pub proof fn a_pop_takes_the_oldest(
    slab: &mut MultishotSlab,
    key: MultishotSlotKey,
    taken: Option<i32>,
)
    requires
        old(slab).wf(),
        call_ensures(MultishotSlab::pop, (slab, key), taken),
    ensures
        final(slab).wf(),
        ({
            let before = old(slab)@;
            let after = final(slab)@;
            let at = key.slot as int;
            let named = key.worker_id == before.worker_id && key.slot < before.slots.len()
                && before.slots[at].occupied && before.slots[at].generation == key.generation;
            let queued = named && before.slots[at].queue.len() > 0;
            &&& !queued ==> taken is None && after == before
            &&& queued ==> {
                &&& taken == Some(before.slots[at].queue[0])
                &&& before.slots[at].queue == seq![before.slots[at].queue[0]] + after.slots[at].queue
                &&& after.slots[at] == (MultishotSlot { queue: after.slots[at].queue, ..before.slots[at] })
                &&& after.worker_id == before.worker_id
                &&& after.slots.len() == before.slots.len()
                &&& forall|other: int|
                    0 <= other < before.slots.len() && other != at
                        ==> #[trigger] after.slots[other] == before.slots[other]
            }
        }),
{
    let before = old(slab)@;
    let at = key.slot as int;
    if before.live(key) && before.slots[at].queue.len() > 0 {
        let queue = before.slots[at].queue;
        assert(seq![queue[0]] + queue.drop_first() =~= queue);
    }
}

/// A completion is queued behind what its slot holds while there is room for it,
/// and dropped when there is none; the final one marks the slot either way. One
/// whose sentinel reaches no slot changes nothing.
pub proof fn a_completion_is_queued_last(
    slab: &mut MultishotSlab,
    slot: u16,
    generation_low16: u16,
    result: i32,
    is_more: bool,
    outcome: MultishotPush,
)
    requires
        old(slab).wf(),
        call_ensures(MultishotSlab::push, (slab, slot, generation_low16, result, is_more), outcome),
    ensures
        final(slab).wf(),
        ({
            let before = old(slab)@;
            let after = final(slab)@;
            let at = slot as int;
            let reached = slot < before.slots.len() && before.slots[at].occupied
                && before.slots[at].generation % 0x1_0000 == generation_low16;
            &&& !reached ==> outcome is Stale && after == before
            &&& reached ==> {
                let queue = before.slots[at].queue;
                &&& after.slots[at].terminated == (before.slots[at].terminated || !is_more)
                &&& queue.len() < 64 ==> outcome is Queued && after.slots[at].queue == queue
                    + seq![result]
                &&& queue.len() >= 64 ==> outcome is Overflowed && after.slots[at].queue == queue
                &&& after.slots[at] == (MultishotSlot {
                    terminated: after.slots[at].terminated,
                    queue: after.slots[at].queue,
                    ..before.slots[at]
                })
                &&& after.worker_id == before.worker_id
                &&& after.slots.len() == before.slots.len()
                &&& forall|other: int|
                    0 <= other < before.slots.len() && other != at
                        ==> #[trigger] after.slots[other] == before.slots[other]
            }
        }),
{
    let queue = old(slab)@.slots[slot as int].queue;
    assert(queue.push(result) =~= queue + seq![result]);
}

} // verus!
