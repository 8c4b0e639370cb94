//! What holds across calls of the multishot registries.

use vstd::prelude::*;

use crate::buffer::multishot::accept::{
    MULTISHOT_FIFO_DEPTH, MultishotPush, MultishotSlot, MultishotSlotKey, MultishotSlots,
};
use crate::buffer::multishot::recv::{
    RecvMultishotPush, RecvMultishotSlotKey, RecvSlot, RecvSlots,
};
use crate::buffer::oneshot::inflight;
use crate::buffer::scan;

verus! {

/// The part of a generation that a sentinel carries.
pub open spec fn low16(generation: u64) -> u16 {
    (generation % 0x1_0000) as u16
}

proof fn lemma_next_low16(generation: u64)
    ensures
        low16(inflight::next_generation(generation)) != low16(generation),
{
}

/// The handle an allocation hands out is live and owned by the task that asked,
/// its FIFO is empty, and every other live handle names another slot and stays
/// live.
pub proof fn allocation_is_exclusive(registry: MultishotSlots, owner_token: u64, other: MultishotSlotKey)
    requires
        registry.valid(),
    ensures
        registry.allocated_key() is None <==> forall|slot: int|
            0 <= slot < registry.slots.len() ==> (#[trigger] registry.slots[slot]).occupied,
        registry.allocated_key() is None ==> registry.allocated(owner_token) == registry,
        registry.allocated_key() matches Some(key) ==> {
            let after = registry.allocated(owner_token);
            &&& after.live(key)
            &&& after.queued(key).len() == 0
            &&& !after.terminated(key)
            &&& after.owner(key.slot, low16(key.generation)) == Some(owner_token)
            &&& !after.cancel_pending(key.slot, low16(key.generation))
            &&& !registry.live(key)
            &&& registry.live(other) ==> other.slot != key.slot
        },
        registry.live(other) ==> registry.allocated(owner_token).live(other)
            && registry.allocated(owner_token).queued(other) == registry.queued(other),
        registry.allocated(owner_token).valid(),
{
    scan::first_index_finds(registry.slots, |slot: MultishotSlot| !slot.occupied);
}

/// Freeing a slot makes its handle and its sentinel stale, and both stay stale
/// when the slot is allocated again: the new occupant has the next generation.
pub proof fn freed_handle_stays_stale(registry: MultishotSlots, key: MultishotSlotKey, owner_token: u64)
    requires
        registry.valid(),
        registry.live(key),
    ensures
        registry.slot_live(key.slot, low16(key.generation)),
        !registry.freed(key).live(key),
        !registry.freed(key).slot_live(key.slot, low16(key.generation)),
        !registry.freed(key).allocated(owner_token).live(key),
        !registry.freed(key).allocated(owner_token).slot_live(key.slot, low16(key.generation)),
        registry.freed_slot(key.slot, low16(key.generation)) == registry.freed(key),
        registry.freed(key).allocated_key() matches Some(next) ==> (next.slot == key.slot
            ==> next.generation == inflight::next_generation(key.generation)),
        registry.freed(key).valid(),
{
    scan::first_index_finds(registry.freed(key).slots, |slot: MultishotSlot| !slot.occupied);
    lemma_next_low16(key.generation);
}

/// A slot freed below every other free slot is the next one handed out, at the
/// next generation.
pub proof fn freed_slot_is_reused(registry: MultishotSlots, key: MultishotSlotKey)
    requires
        registry.valid(),
        registry.live(key),
        forall|lower: int| 0 <= lower < key.slot ==> (#[trigger] registry.slots[lower]).occupied,
    ensures
        registry.freed(key).allocated_key() == Some(
            MultishotSlotKey {
                slot: key.slot,
                generation: inflight::next_generation(key.generation),
                worker_id: key.worker_id,
            },
        ),
{
    let slots = registry.freed(key).slots;
    let wanted = |slot: MultishotSlot| !slot.occupied;
    assert forall|lower: int| 0 <= lower < key.slot implies !wanted(#[trigger] slots[lower]) by {
        assert(slots[lower] == registry.slots[lower]);
    }
    scan::lemma_first_index_is(slots, wanted, key.slot as int);
}

/// A stale handle touches nothing and reads nothing.
pub proof fn stale_handle_is_inert(registry: MultishotSlots, key: MultishotSlotKey)
    requires
        !registry.live(key),
    ensures
        registry.front(key) is None,
        registry.popped(key) == registry,
        !registry.terminated(key),
        registry.cancelling(key) == registry,
        registry.freed(key) == registry,
{
}

/// A completion for one op reaches no other op's slot.
pub proof fn other_slots_are_untouched(
    registry: MultishotSlots,
    slot: u16,
    generation_low16: u16,
    result: i32,
    is_more: bool,
    key: MultishotSlotKey,
)
    requires
        registry.live(key),
        key.slot != slot,
    ensures
        registry.pushed(slot, generation_low16, result, is_more).live(key),
        registry.pushed(slot, generation_low16, result, is_more).slots[key.slot as int]
            == registry.slots[key.slot as int],
{
}

/// The registry after data completions for `slot` arrived in the order given.
pub open spec fn pushed_all(
    registry: MultishotSlots,
    slot: u16,
    generation_low16: u16,
    results: Seq<i32>,
) -> MultishotSlots
    decreases results.len(),
{
    if results.len() == 0 {
        registry
    } else {
        pushed_all(registry, slot, generation_low16, results.drop_last()).pushed(
            slot,
            generation_low16,
            results.last(),
            true,
        )
    }
}

/// Completions leave a stream's FIFO in the order they arrived: as long as they
/// fit, all of them are queued behind what was there, and a pop takes the
/// oldest.
pub proof fn completions_leave_in_arrival_order(
    registry: MultishotSlots,
    key: MultishotSlotKey,
    results: Seq<i32>,
)
    requires
        registry.valid(),
        registry.live(key),
        registry.queued(key).len() + results.len() <= MULTISHOT_FIFO_DEPTH,
    ensures
        ({
            let after = pushed_all(registry, key.slot, low16(key.generation), results);
            &&& after.valid()
            &&& after.live(key)
            &&& after.queued(key) == registry.queued(key) + results
            &&& after.queued(key).len() > 0 ==> {
                &&& after.front(key) == Some(after.queued(key)[0])
                &&& after.popped(key).live(key)
                &&& after.popped(key).queued(key) == after.queued(key).drop_first()
            }
        }),
    decreases results.len(),
{
    if results.len() == 0 {
        assert(registry.queued(key) + results =~= registry.queued(key));
    } else {
        completions_leave_in_arrival_order(registry, key, results.drop_last());
        let before = pushed_all(
            registry,
            key.slot,
            low16(key.generation),
            results.drop_last(),
        );
        assert(registry.queued(key) + results =~= (registry.queued(key)
            + results.drop_last()).push(results.last()));
        assert(before.queued(key).len() < MULTISHOT_FIFO_DEPTH);
    }
}

/// A full FIFO keeps what it holds: one more data completion is reported as
/// overflowed and changes nothing.
pub proof fn full_queue_refuses_more(
    registry: MultishotSlots,
    key: MultishotSlotKey,
    result: i32,
)
    requires
        registry.live(key),
        registry.queued(key).len() >= MULTISHOT_FIFO_DEPTH,
    ensures
        registry.push_outcome(key.slot, low16(key.generation)) == MultishotPush::Overflowed,
        registry.pushed(key.slot, low16(key.generation), result, true) == registry,
{
    let slot = registry.slots[key.slot as int];
    assert(registry.pushed(key.slot, low16(key.generation), result, true).slots
        =~= registry.slots);
}

/// The handle an allocation hands out is live and owned by the task that asked,
/// its FIFO is empty, and every other live handle names another slot and stays
/// live.
pub proof fn recv_allocation_is_exclusive(registry: RecvSlots, owner_token: u64, other: RecvMultishotSlotKey)
    requires
        registry.valid(),
    ensures
        registry.allocated_key() is None <==> forall|slot: int|
            0 <= slot < registry.slots.len() ==> (#[trigger] registry.slots[slot]).occupied,
        registry.allocated_key() is None ==> registry.allocated(owner_token) == registry,
        registry.allocated_key() matches Some(key) ==> {
            let after = registry.allocated(owner_token);
            &&& after.live(key)
            &&& after.queued(key).len() == 0
            &&& !after.terminated(key)
            &&& after.owner(key.slot, low16(key.generation)) == Some(owner_token)
            &&& !after.cancel_pending(key.slot, low16(key.generation))
            &&& !registry.live(key)
            &&& registry.live(other) ==> other.slot != key.slot
        },
        registry.live(other) ==> registry.allocated(owner_token).live(other)
            && registry.allocated(owner_token).queued(other) == registry.queued(other),
        registry.allocated(owner_token).valid(),
{
    scan::first_index_finds(registry.slots, |slot: RecvSlot| !slot.occupied);
}

/// Freeing a slot makes its handle and its sentinel stale, and both stay stale
/// when the slot is allocated again: the new occupant has the next generation.
pub proof fn recv_freed_handle_stays_stale(registry: RecvSlots, key: RecvMultishotSlotKey, owner_token: u64)
    requires
        registry.valid(),
        registry.live(key),
    ensures
        registry.slot_live(key.slot, low16(key.generation)),
        !registry.freed(key).live(key),
        !registry.freed(key).slot_live(key.slot, low16(key.generation)),
        !registry.freed(key).allocated(owner_token).live(key),
        !registry.freed(key).allocated(owner_token).slot_live(key.slot, low16(key.generation)),
        registry.freed_slot(key.slot, low16(key.generation)) == registry.freed(key),
        registry.freed(key).allocated_key() matches Some(next) ==> (next.slot == key.slot
            ==> next.generation == inflight::next_generation(key.generation)),
        registry.freed(key).valid(),
{
    scan::first_index_finds(registry.freed(key).slots, |slot: RecvSlot| !slot.occupied);
    lemma_next_low16(key.generation);
}

/// A slot freed below every other free slot is the next one handed out, at the
/// next generation.
pub proof fn recv_freed_slot_is_reused(registry: RecvSlots, key: RecvMultishotSlotKey)
    requires
        registry.valid(),
        registry.live(key),
        forall|lower: int| 0 <= lower < key.slot ==> (#[trigger] registry.slots[lower]).occupied,
    ensures
        registry.freed(key).allocated_key() == Some(
            RecvMultishotSlotKey {
                slot: key.slot,
                generation: inflight::next_generation(key.generation),
                worker_id: key.worker_id,
            },
        ),
{
    let slots = registry.freed(key).slots;
    let wanted = |slot: RecvSlot| !slot.occupied;
    assert forall|lower: int| 0 <= lower < key.slot implies !wanted(#[trigger] slots[lower]) by {
        assert(slots[lower] == registry.slots[lower]);
    }
    scan::lemma_first_index_is(slots, wanted, key.slot as int);
}

/// A stale handle touches nothing and reads nothing.
pub proof fn recv_stale_handle_is_inert(registry: RecvSlots, key: RecvMultishotSlotKey)
    requires
        !registry.live(key),
    ensures
        registry.front(key) is None,
        registry.popped(key) == registry,
        !registry.terminated(key),
        registry.cancelling(key) == registry,
        registry.freed(key) == registry,
{
}

/// A completion for one op reaches no other op's slot.
pub proof fn recv_other_slots_are_untouched(
    registry: RecvSlots,
    slot: u16,
    generation_low16: u16,
    result: i32,
    buf_id: u16,
    is_more: bool,
    key: RecvMultishotSlotKey,
)
    requires
        registry.live(key),
        key.slot != slot,
    ensures
        registry.pushed(slot, generation_low16, result, buf_id, is_more).live(key),
        registry.pushed(slot, generation_low16, result, buf_id, is_more).slots[key.slot as int]
            == registry.slots[key.slot as int],
{
}

/// The registry after data completions for `slot` arrived in the order given.
pub open spec fn recv_pushed_all(
    registry: RecvSlots,
    slot: u16,
    generation_low16: u16,
    results: Seq<(i32, u16)>,
) -> RecvSlots
    decreases results.len(),
{
    if results.len() == 0 {
        registry
    } else {
        recv_pushed_all(registry, slot, generation_low16, results.drop_last()).pushed(
            slot,
            generation_low16,
            results.last().0,
            results.last().1,
            true,
        )
    }
}

/// Completions leave a stream's FIFO in the order they arrived: as long as they
/// fit, all of them are queued behind what was there, and a pop takes the
/// oldest.
pub proof fn recv_completions_leave_in_arrival_order(
    registry: RecvSlots,
    key: RecvMultishotSlotKey,
    results: Seq<(i32, u16)>,
)
    requires
        registry.valid(),
        registry.live(key),
        registry.queued(key).len() + results.len() <= MULTISHOT_FIFO_DEPTH,
    ensures
        ({
            let after = recv_pushed_all(registry, key.slot, low16(key.generation), results);
            &&& after.valid()
            &&& after.live(key)
            &&& after.queued(key) == registry.queued(key) + results
            &&& after.queued(key).len() > 0 ==> {
                &&& after.front(key) == Some(after.queued(key)[0])
                &&& after.popped(key).live(key)
                &&& after.popped(key).queued(key) == after.queued(key).drop_first()
            }
        }),
    decreases results.len(),
{
    if results.len() == 0 {
        assert(registry.queued(key) + results =~= registry.queued(key));
    } else {
        recv_completions_leave_in_arrival_order(registry, key, results.drop_last());
        let before = recv_pushed_all(
            registry,
            key.slot,
            low16(key.generation),
            results.drop_last(),
        );
        assert(registry.queued(key) + results =~= (registry.queued(key)
            + results.drop_last()).push(results.last()));
        assert(before.queued(key).len() < MULTISHOT_FIFO_DEPTH);
    }
}

/// A full FIFO keeps what it holds: one more data completion is reported as
/// overflowed and changes nothing.
pub proof fn recv_full_queue_refuses_more(
    registry: RecvSlots,
    key: RecvMultishotSlotKey,
    result: i32,
    buf_id: u16,
)
    requires
        registry.live(key),
        registry.queued(key).len() >= MULTISHOT_FIFO_DEPTH,
    ensures
        registry.push_outcome(key.slot, low16(key.generation), true) == RecvMultishotPush::Overflowed,
        registry.pushed(key.slot, low16(key.generation), result, buf_id, true) == registry,
{
    let slot = registry.slots[key.slot as int];
    assert(registry.pushed(key.slot, low16(key.generation), result, buf_id, true).slots
        =~= registry.slots);
}

/// The terminal completion survives a full FIFO: it is stashed beside the queue,
/// which keeps every data completion, and it is handed back exactly once.
pub proof fn terminal_survives_a_full_queue(
    registry: RecvSlots,
    key: RecvMultishotSlotKey,
    result: i32,
    buf_id: u16,
)
    requires
        registry.live(key),
    ensures
        ({
            let after = registry.pushed(key.slot, low16(key.generation), result, buf_id, false);
            &&& registry.push_outcome(key.slot, low16(key.generation), false)
                == RecvMultishotPush::Terminal
            &&& after.live(key)
            &&& after.queued(key) == registry.queued(key)
            &&& after.terminal(key) == Some((result, buf_id))
            &&& after.terminated(key)
            &&& after.terminal_taken(key).terminal(key) is None
            &&& after.terminal_taken(key).terminated(key)
            &&& after.terminal_taken(key).queued(key) == registry.queued(key)
        }),
{
}

/// Whether `key`'s slot has moved on to a later generation.
pub open spec fn outdated(registry: MultishotSlots, key: MultishotSlotKey) -> bool {
    key.slot < registry.slots.len() && registry.slots[key.slot as int].generation > key.generation
}

/// A freed handle is outdated, an outdated handle is not live, and it stays
/// outdated whatever is done next, by whichever handle or sentinel -- until its
/// slot's generation counter wraps.
pub proof fn outdated_handle_stays_outdated(
    registry: MultishotSlots,
    key: MultishotSlotKey,
    other: MultishotSlotKey,
    owner_token: u64,
    slot: u16,
    generation_low16: u16,
    result: i32,
    is_more: bool,
)
    requires
        key.slot < registry.slots.len(),
        registry.slots[key.slot as int].generation < u64::MAX,
    ensures
        registry.live(key) ==> outdated(registry.freed(key), key),
        outdated(registry, key) ==> {
            &&& !registry.live(key)
            &&& outdated(registry.allocated(owner_token), key)
            &&& outdated(registry.pushed(slot, generation_low16, result, is_more), key)
            &&& outdated(registry.popped(other), key)
            &&& outdated(registry.cancelling(other), key)
            &&& outdated(registry.freed(other), key)
            &&& outdated(registry.freed_slot(slot, generation_low16), key)
        },
{
    scan::first_index_finds(registry.slots, |slot: MultishotSlot| !slot.occupied);
}

/// Whether `key`'s slot has moved on to a later generation.
pub open spec fn recv_outdated(registry: RecvSlots, key: RecvMultishotSlotKey) -> bool {
    key.slot < registry.slots.len() && registry.slots[key.slot as int].generation > key.generation
}

/// A freed handle is outdated, an outdated handle is not live, and it stays
/// outdated whatever is done next, by whichever handle or sentinel -- until its
/// slot's generation counter wraps.
pub proof fn recv_outdated_handle_stays_outdated(
    registry: RecvSlots,
    key: RecvMultishotSlotKey,
    other: RecvMultishotSlotKey,
    owner_token: u64,
    slot: u16,
    generation_low16: u16,
    result: i32,
    buf_id: u16,
    is_more: bool,
)
    requires
        key.slot < registry.slots.len(),
        registry.slots[key.slot as int].generation < u64::MAX,
    ensures
        registry.live(key) ==> recv_outdated(registry.freed(key), key),
        recv_outdated(registry, key) ==> {
            &&& !registry.live(key)
            &&& recv_outdated(registry.allocated(owner_token), key)
            &&& recv_outdated(registry.pushed(slot, generation_low16, result, buf_id, is_more), key)
            &&& recv_outdated(registry.popped(other), key)
            &&& recv_outdated(registry.terminal_taken(other), key)
            &&& recv_outdated(registry.cancelling(other), key)
            &&& recv_outdated(registry.freed(other), key)
            &&& recv_outdated(registry.freed_slot(slot, generation_low16), key)
        },
{
    scan::first_index_finds(registry.slots, |slot: RecvSlot| !slot.occupied);
}

} // verus!
