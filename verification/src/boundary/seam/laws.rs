//! What the seam and the completion drain promise across calls.

use vstd::multiset::Multiset;
use vstd::prelude::*;

use crate::addr::SockAddr;
use crate::addr::pack;
use crate::boundary::cancel::token;
use crate::boundary::cancel::token_set;
use crate::boundary::cancel::token_set::{
    ACCEPT_CANCEL_SLOT, CONNECT_CANCEL_SLOT, PROVIDED_RECV_CANCEL_SLOT,
};
use crate::boundary::seam::cancel;
use crate::boundary::seam::drain;
use crate::boundary::seam::drain::{CancelRoute, DroppedOp, MultishotCompletion};
use crate::boundary::seam::state;
use crate::boundary::seam::state::{IoSeam, MultishotNext, RecvMultishotNext, SeamState};
use crate::buffer::multishot::accept::{MultishotSlot, MultishotSlots};
use crate::buffer::multishot::recv::{RecvSlot, RecvSlots};
use crate::buffer::multishot::{
    MULTISHOT_FIFO_DEPTH, MultishotSlotKey, NO_BUFFER, RecvMultishotSlotKey,
};
use crate::buffer::oneshot::inflight::{INFLIGHT_BUF_STRIDE, InflightSlotKey, InflightSlots};
use crate::buffer::oneshot::laws as oneshot;
use crate::driver::DriverState;
use crate::operation::{
    IoRequest, MAX_MSG_INLINE_CAP, MSG_ADDR_OFFSET, MSG_PAYLOAD_OFFSET, SubmitResult,
};

verus! {

/// Every queued cancel reaches the mechanism that owns its op: a slotless
/// accept, provided recv or connect by its marker, a multishot stream by its
/// sentinel and under its own handle, and a buffered op's slot by elimination.
pub proof fn cancels_route_to_their_owner(
    worker_id: u8,
    op_token: u64,
    stream: MultishotSlotKey,
    buffered: InflightSlotKey,
)
    requires
        !token::names_multishot(op_token),
        !token::names_multishot(buffered.op_token),
        buffered.slot < CONNECT_CANCEL_SLOT,
    ensures
        drain::cancel_route(cancel::slotless_key(ACCEPT_CANCEL_SLOT, worker_id, op_token))
            == CancelRoute::Accept,
        drain::cancel_route(cancel::slotless_key(PROVIDED_RECV_CANCEL_SLOT, worker_id, op_token))
            == CancelRoute::ProvidedRecv,
        drain::cancel_route(cancel::slotless_key(CONNECT_CANCEL_SLOT, worker_id, op_token))
            == CancelRoute::Connect,
        drain::cancel_route(cancel::multishot_cancel_key(stream)) == CancelRoute::Multishot,
        drain::multishot_key(cancel::multishot_cancel_key(stream)) == stream,
        drain::cancel_route(buffered) == CancelRoute::Inflight,
{
    token::sentinels_round_trip(stream.slot, stream.generation);
}

/// The completion of a slotless op's cancel is recognized as a cancel's and
/// frees nothing: its marker names a slot no registry has.
pub proof fn slotless_cancel_completion_is_inert(
    registry: InflightSlots,
    marker: u16,
    worker_id: u8,
    op_token: u64,
)
    requires
        registry.valid(),
        marker == ACCEPT_CANCEL_SLOT || marker == PROVIDED_RECV_CANCEL_SLOT || marker
            == CONNECT_CANCEL_SLOT,
    ensures
        ({
            let request = drain::slotted_cancel(cancel::slotless_key(marker, worker_id, op_token));
            let tag = request.user_data;
            &&& token::names_cancel(tag)
            &&& registry.cancelled(token::sentinel_slot(tag), token::sentinel_generation(tag))
                == registry
        }),
{
    token::sentinels_round_trip(marker, 0);
}

/// A cancel the backend refuses leaves the dropped op's slot in place, marked,
/// until the op's own completion frees it: no slot is freed under a kernel that
/// may still write to it.
pub proof fn refused_cancel_keeps_the_slot(
    driver: DriverState,
    registry: InflightSlots,
    key: InflightSlotKey,
)
    requires
        registry.valid(),
        oneshot::sole_owner(registry, key),
        !(driver.submit_outcome(drain::slotted_cancel(key)) is Submitted),
    ensures
        driver.submitted(drain::slotted_cancel(key)) == driver,
        registry.retiring(key).live(key),
        registry.retiring(key).slots[key.slot as int].bytes == registry.slots[key.slot as int].bytes,
        registry.retiring(key).reclaimed(key.op_token) == registry.freed(key),
{
    oneshot::completion_frees_a_dropped_slot(registry, key);
}

/// A completion tagged with a live stream's sentinel is queued for that stream
/// and wakes its owner, while the stream is not dropped and its FIFO not full.
pub proof fn accept_completion_reaches_its_stream(
    slots: MultishotSlots,
    key: MultishotSlotKey,
    result: i32,
    is_more: bool,
)
    requires
        slots.live(key),
        !slots.slots[key.slot as int].cancel_pending,
        slots.queued(key).len() < MULTISHOT_FIFO_DEPTH,
    ensures
        ({
            let tag = token::sentinel(token::MULTISHOT_TOKEN_BASE, key.slot, key.generation);
            let route = drain::accept_route(slots, tag, result, is_more);
            &&& route.slots.queued(key) == slots.queued(key).push(result)
            &&& route.slots.terminated(key) == (slots.terminated(key) || !is_more)
            &&& route.targets.wake == Some(slots.slots[key.slot as int].owner_token)
            &&& route.closing.len() == 0
        }),
{
    token::sentinels_round_trip(key.slot, key.generation);
}

/// A data completion tagged with a live recv stream's sentinel is queued for
/// that stream, its final one stashed; either wakes the owner and keeps its
/// buffer.
pub proof fn recv_completion_reaches_its_stream(
    slots: RecvSlots,
    key: RecvMultishotSlotKey,
    result: i32,
    is_more: bool,
    buf_id: Option<u16>,
)
    requires
        slots.live(key),
        !slots.slots[key.slot as int].cancel_pending,
        is_more ==> slots.queued(key).len() < MULTISHOT_FIFO_DEPTH,
    ensures
        ({
            let tag = token::sentinel(token::RECV_MULTISHOT_TOKEN_BASE, key.slot, key.generation);
            let route = drain::recv_route(slots, tag, result, is_more, buf_id);
            let entry = (
                result,
                match buf_id {
                    Some(id) => id,
                    None => NO_BUFFER,
                },
            );
            &&& is_more ==> route.slots.queued(key) == slots.queued(key).push(entry)
            &&& !is_more ==> {
                &&& route.slots.queued(key) == slots.queued(key)
                &&& route.slots.terminal(key) == Some(entry)
                &&& route.slots.terminated(key)
            }
            &&& route.targets.wake == Some(slots.slots[key.slot as int].owner_token)
            &&& route.recycled is None
        }),
{
    token::sentinels_round_trip(key.slot, key.generation);
}

/// The final completion of a live op retires its owner exactly then: an
/// intermediate completion retires nobody, dropped stream or not, and a stale
/// one neither wakes nor retires anybody and changes no slot.
pub proof fn final_completion_retires_the_owner(
    accepts: MultishotSlots,
    recvs: RecvSlots,
    user_data: u64,
    result: i32,
    is_more: bool,
    buf_id: Option<u16>,
)
    ensures
        ({
            let slot = token::sentinel_slot(user_data);
            let generation = token::sentinel_generation(user_data);
            let accept = drain::accept_route(accepts, user_data, result, is_more);
            let recv = drain::recv_route(recvs, user_data, result, is_more, buf_id);
            let nobody = MultishotCompletion { wake: None, retire: None };
            &&& is_more ==> accept.targets.retire is None && recv.targets.retire is None
            &&& !is_more ==> accept.targets.retire == accepts.owner(slot, generation)
            &&& !is_more ==> recv.targets.retire == recvs.owner(slot, generation)
            &&& !accepts.slot_live(slot, generation) ==> accept.targets == nobody && accept.slots
                == accepts
            &&& !recvs.slot_live(slot, generation) ==> recv.targets == nobody && recv.slots == recvs
        }),
{
}

/// No accepted descriptor is lost or closed under its owner: the descriptor of
/// an intermediate accept completion is either queued for the stream or listed
/// for closing, never both; every other slot keeps its own.
pub proof fn accepted_descriptor_is_kept_or_closed(
    slots: MultishotSlots,
    user_data: u64,
    result: i32,
    other: int,
)
    requires
        slots.valid(),
        result >= 0,
        0 <= other < slots.slots.len(),
    ensures
        ({
            let slot = token::sentinel_slot(user_data) as int;
            let route = drain::accept_route(slots, user_data, result, true);
            let queued = slot < slots.slots.len() && route.slots.slots[slot].queue
                == slots.slots[slot].queue.push(result);
            &&& queued ==> route.closing == Seq::<i32>::empty()
            &&& !queued ==> route.closing == seq![result] && route.slots == slots
            &&& other != slot ==> route.slots.slots[other] == slots.slots[other]
        }),
{
    let slot = token::sentinel_slot(user_data) as int;
    if 0 <= slot < slots.slots.len() {
        let before = slots.slots[slot].queue;
        let route = drain::accept_route(slots, user_data, result, true);
        assert(before.push(result).len() == before.len() + 1);
        assert(slots.slots.update(slot, slots.slots[slot]) =~= slots.slots);
    }
}

/// The buffers a recv slot holds: those of its queued completions, then that of
/// its stashed final one.
pub open spec fn slot_buffers(slot: RecvSlot) -> Seq<u16> {
    drain::held_buffers(slot.queue) + (match slot.terminal {
        Some((_, buf_id)) => if buf_id == NO_BUFFER {
            Seq::empty()
        } else {
            seq![buf_id]
        },
        None => Seq::empty(),
    })
}

/// Every dropped stream's slot is empty: no completion waits in it.
pub open spec fn dropped_streams_are_empty(slots: RecvSlots) -> bool {
    forall|slot: int|
        0 <= slot < slots.slots.len() && (#[trigger] slots.slots[slot]).cancel_pending ==> {
            &&& slots.slots[slot].queue.len() == 0
            &&& slots.slots[slot].terminal is None
        }
}

/// A completion's provided buffer goes back to the ring exactly once: either
/// the slot holds it for the stream to read, or it is recycled at once, never
/// both and never neither; every other slot keeps its buffers.
///
/// The op posts its final completion once, so none is stashed yet.
pub proof fn provided_buffer_is_kept_or_recycled(
    slots: RecvSlots,
    user_data: u64,
    result: i32,
    is_more: bool,
    id: u16,
    other: int,
)
    requires
        slots.valid(),
        dropped_streams_are_empty(slots),
        id != NO_BUFFER,
        0 <= other < slots.slots.len(),
        slots.slot_live(token::sentinel_slot(user_data), token::sentinel_generation(user_data))
            ==> slots.slots[token::sentinel_slot(user_data) as int].terminal is None,
    ensures
        ({
            let slot = token::sentinel_slot(user_data) as int;
            let route = drain::recv_route(slots, user_data, result, is_more, Some(id));
            &&& route.recycled is None ==> slot < slots.slots.len() && slot_buffers(
                route.slots.slots[slot],
            ) == slot_buffers(slots.slots[slot]).push(id)
            &&& route.recycled is Some ==> {
                &&& route.recycled == Some(id)
                &&& slot < slots.slots.len() ==> slot_buffers(route.slots.slots[slot])
                    == slot_buffers(slots.slots[slot])
            }
            &&& other != slot ==> route.slots.slots[other] == slots.slots[other]
        }),
{
    let slot = token::sentinel_slot(user_data) as int;
    let route = drain::recv_route(slots, user_data, result, is_more, Some(id));
    if 0 <= slot < slots.slots.len() {
        let before = slots.slots[slot];
        let after = route.slots.slots[slot];
        if route.recycled is None {
            if is_more {
                assert(after.queue.drop_last() =~= before.queue);
            }
            assert(slot_buffers(after) =~= slot_buffers(before).push(id));
        } else {
            assert(slot_buffers(after) =~= slot_buffers(before));
        }
    }
}

/// Routing a completion, cancelling a stream, starting one and polling one all
/// leave every dropped stream's slot empty.
pub proof fn dropped_streams_stay_empty(
    slots: RecvSlots,
    user_data: u64,
    result: i32,
    is_more: bool,
    buf_id: Option<u16>,
    key: RecvMultishotSlotKey,
    owner_token: u64,
)
    requires
        slots.valid(),
        dropped_streams_are_empty(slots),
    ensures
        dropped_streams_are_empty(
            drain::recv_route(slots, user_data, result, is_more, buf_id).slots,
        ),
        dropped_streams_are_empty(slots.drained(key).terminal_taken(key).cancelling(key)),
        dropped_streams_are_empty(slots.allocated(owner_token)),
        dropped_streams_are_empty(slots.popped(key)),
        dropped_streams_are_empty(slots.terminal_taken(key)),
        dropped_streams_are_empty(slots.freed(key)),
{
    crate::buffer::scan::first_index_finds(slots.slots, |slot: RecvSlot| !slot.occupied);
}

/// Cancelling a dropped recv stream whose op is still running leaves its slot
/// waiting, empty; a completion that arrives then gives its buffer back and
/// wakes nobody, and the final one frees the slot.
pub proof fn cancelled_recv_stream_keeps_nothing(
    slots: RecvSlots,
    key: RecvMultishotSlotKey,
    result: i32,
    is_more: bool,
    buf_id: Option<u16>,
)
    requires
        slots.live(key),
        !slots.terminated(key),
    ensures
        ({
            let tag = token::sentinel(token::RECV_MULTISHOT_TOKEN_BASE, key.slot, key.generation);
            let waiting = slots.drained(key).terminal_taken(key).cancelling(key);
            let route = drain::recv_route(waiting, tag, result, is_more, buf_id);
            &&& waiting.live(key)
            &&& waiting.queued(key).len() == 0
            &&& waiting.terminal(key) is None
            &&& route.recycled == buf_id
            &&& route.targets.wake is None
            &&& is_more ==> route.slots == waiting
            &&& !is_more ==> route.slots == waiting.freed(key) && !route.slots.live(key)
        }),
{
    token::sentinels_round_trip(key.slot, key.generation);
}

/// Cancelling a dropped accept stream leaves its slot waiting, empty; a
/// completion that arrives then has its descriptor closed and wakes nobody,
/// and the final one frees the slot.
pub proof fn cancelled_accept_stream_keeps_nothing(
    slots: MultishotSlots,
    key: MultishotSlotKey,
    result: i32,
    is_more: bool,
)
    requires
        slots.live(key),
    ensures
        ({
            let tag = token::sentinel(token::MULTISHOT_TOKEN_BASE, key.slot, key.generation);
            let waiting = slots.drained(key).cancelling(key);
            let route = drain::accept_route(waiting, tag, result, is_more);
            &&& waiting.live(key)
            &&& waiting.queued(key).len() == 0
            &&& route.targets.wake is None
            &&& is_more ==> route.slots == waiting && route.closing == drain::disposed_fd(result)
            &&& !is_more ==> route.slots == waiting.freed(key) && !route.slots.live(key)
        }),
{
    token::sentinels_round_trip(key.slot, key.generation);
}

/// Every buffer a recv registry holds is one the backend can take back.
pub open spec fn held_buffers_fit(slots: RecvSlots, driver: DriverState) -> bool {
    forall|slot: int, at: int|
        0 <= slot < slots.slots.len() && 0 <= at < slot_buffers(slots.slots[slot]).len()
            ==> driver.takes_back(#[trigger] slot_buffers(slots.slots[slot])[at])
}

proof fn lemma_held_drop_first(entries: Seq<(i32, u16)>)
    requires
        entries.len() > 0,
    ensures
        entries[0].1 == NO_BUFFER ==> drain::held_buffers(entries.drop_first())
            == drain::held_buffers(entries),
        entries[0].1 != NO_BUFFER ==> drain::held_buffers(entries).len() > 0
            && drain::held_buffers(entries)[0] == entries[0].1 && drain::held_buffers(
            entries.drop_first(),
        ) == drain::held_buffers(entries).drop_first(),
    decreases entries.len(),
{
    let rest = entries.drop_first();
    if entries.len() == 1 {
        assert(entries.drop_last() =~= Seq::<(i32, u16)>::empty());
        assert(rest =~= Seq::<(i32, u16)>::empty());
        assert(drain::held_buffers(entries.drop_last()).len() == 0);
        if entries[0].1 != NO_BUFFER {
            assert(drain::held_buffers(entries).drop_first() =~= Seq::<u16>::empty());
        }
    } else {
        let front = entries.drop_last();
        lemma_held_drop_first(front);
        assert(rest.drop_last() =~= front.drop_first());
        assert(rest.last() == entries.last());
        assert(front[0] == entries[0]);
        if entries[0].1 != NO_BUFFER && entries.last().1 != NO_BUFFER {
            assert(drain::held_buffers(front).push(entries.last().1).drop_first()
                =~= drain::held_buffers(front).drop_first().push(entries.last().1));
        }
    }
}

proof fn lemma_same_slots_fit(before: RecvSlots, after: RecvSlots, driver: DriverState, at: int)
    requires
        held_buffers_fit(before, driver),
        after.slots.len() == before.slots.len(),
        forall|slot: int|
            0 <= slot < before.slots.len() && slot != at ==> #[trigger] after.slots[slot]
                == before.slots[slot],
        0 <= at < before.slots.len() ==> forall|index: int|
            0 <= index < slot_buffers(after.slots[at]).len() ==> driver.takes_back(
                #[trigger] slot_buffers(after.slots[at])[index],
            ),
    ensures
        held_buffers_fit(after, driver),
{
    assert forall|slot: int, index: int|
        0 <= slot < after.slots.len() && 0 <= index < slot_buffers(
            after.slots[slot],
        ).len() implies driver.takes_back(#[trigger] slot_buffers(after.slots[slot])[index]) by {
        if slot != at {
            assert(after.slots[slot] == before.slots[slot]);
            assert(driver.takes_back(slot_buffers(before.slots[slot])[index]));
        }
    }
}

/// A recv registry only ever holds buffers of the pool: routing a completion
/// whose buffer is the pool's, starting, polling, cancelling and ending a
/// stream all keep it so. Every buffer a cancel gives back is then one the
/// backend takes.
pub proof fn held_buffers_stay_the_pools(
    slots: RecvSlots,
    driver: DriverState,
    user_data: u64,
    result: i32,
    is_more: bool,
    buf_id: Option<u16>,
    key: RecvMultishotSlotKey,
    owner_token: u64,
)
    requires
        slots.valid(),
        held_buffers_fit(slots, driver),
        buf_id matches Some(id) ==> driver.takes_back(id),
    ensures
        held_buffers_fit(
            drain::recv_route(slots, user_data, result, is_more, buf_id).slots,
            driver,
        ),
        held_buffers_fit(slots.allocated(owner_token), driver),
        held_buffers_fit(slots.popped(key), driver),
        held_buffers_fit(slots.terminal_taken(key), driver),
        held_buffers_fit(slots.drained(key).terminal_taken(key).cancelling(key), driver),
        held_buffers_fit(slots.freed(key), driver),
        forall|at: int|
            0 <= at < drain::cancelled_buffers(slots, key).len() ==> driver.takes_back(
                #[trigger] drain::cancelled_buffers(slots, key)[at],
            ),
{
    let routed = drain::recv_route(slots, user_data, result, is_more, buf_id).slots;
    let target = token::sentinel_slot(user_data) as int;
    let place = key.slot as int;
    if 0 <= target < slots.slots.len() {
        let before = slots.slots[target];
        let after = routed.slots[target];
        assert forall|index: int| 0 <= index < slot_buffers(after).len() implies driver.takes_back(
            #[trigger] slot_buffers(after)[index],
        ) by {
            let queued = drain::held_buffers(after.queue);
            if after.queue.len() > before.queue.len() {
                assert(after.queue.drop_last() =~= before.queue);
            }
            if index < drain::held_buffers(before.queue).len() && index < queued.len() {
                assert(slot_buffers(before)[index] == slot_buffers(after)[index]);
                assert(driver.takes_back(slot_buffers(slots.slots[target])[index]));
            } else if index < slot_buffers(before).len() && after.terminal == before.terminal
                && after.queue == before.queue {
                assert(driver.takes_back(slot_buffers(slots.slots[target])[index]));
            } else if after.terminal == before.terminal && after.terminal is Some && index
                >= queued.len() {
                let held = drain::held_buffers(before.queue).len() as int;
                assert(slot_buffers(before)[held] == slot_buffers(after)[index]);
                assert(driver.takes_back(slot_buffers(slots.slots[target])[held]));
            }
        }
    }
    lemma_same_slots_fit(slots, routed, driver, target);
    crate::buffer::scan::first_index_finds(slots.slots, |slot: RecvSlot| !slot.occupied);
    if let Some(index) = slots.first_free() {
        lemma_same_slots_fit(slots, slots.allocated(owner_token), driver, index);
    }
    if slots.live(key) {
        let slot = slots.slots[place];
        assert forall|at: int| 0 <= at < slot_buffers(slot).len() implies driver.takes_back(
            #[trigger] slot_buffers(slot)[at],
        ) by {
            assert(driver.takes_back(slot_buffers(slots.slots[place])[at]));
        }
        if slots.front(key) is Some {
            lemma_held_drop_first(slot.queue);
            let after = slots.popped(key).slots[place];
            let gone: int = if slot.queue[0].1 == NO_BUFFER {
                0
            } else {
                1
            };
            assert forall|index: int|
                0 <= index < slot_buffers(after).len() implies driver.takes_back(
                #[trigger] slot_buffers(after)[index],
            ) by {
                assert(slot_buffers(after)[index] == slot_buffers(slot)[index + gone]);
            }
            lemma_same_slots_fit(slots, slots.popped(key), driver, place);
        }
        let taken = slots.terminal_taken(key).slots[place];
        assert forall|index: int| 0 <= index < slot_buffers(taken).len() implies driver.takes_back(
            #[trigger] slot_buffers(taken)[index],
        ) by {
            assert(slot_buffers(taken)[index] == slot_buffers(slot)[index]);
        }
        lemma_same_slots_fit(slots, slots.terminal_taken(key), driver, place);
        lemma_same_slots_fit(
            slots,
            slots.drained(key).terminal_taken(key).cancelling(key),
            driver,
            place,
        );
        lemma_same_slots_fit(slots, slots.freed(key), driver, place);
        assert(drain::cancelled_buffers(slots, key) == slot_buffers(slot));
    }
}

/// Cancelling a dropped recv stream gives back every buffer its slot holds,
/// each once: those queued in arrival order, then that of a stashed final
/// completion.
pub proof fn cancel_gives_back_every_held_buffer(slots: RecvSlots, key: RecvMultishotSlotKey)
    requires
        slots.live(key),
    ensures
        drain::cancelled_buffers(slots, key) == slot_buffers(slots.slots[key.slot as int]),
        slot_buffers(
            slots.drained(key).terminal_taken(key).cancelling(key).slots[key.slot as int],
        ).len() == 0,
        slot_buffers(slots.freed(key).slots[key.slot as int]).len() == 0,
{
}

/// Of the results queued for a dropped accept stream, exactly the nonnegative
/// ones -- the descriptors -- are closed, in arrival order.
pub proof fn cancel_closes_every_queued_descriptor(results: Seq<i32>)
    ensures
        drain::disposed_fds(results) == results.filter(|result: i32| result >= 0),
    decreases results.len(),
{
    reveal(Seq::filter);
    if results.len() > 0 {
        cancel_closes_every_queued_descriptor(results.drop_last());
        let kept = results.drop_last().filter(|result: i32| result >= 0);
        if results.last() >= 0 {
            assert(kept + seq![results.last()] =~= kept.push(results.last()));
        } else {
            assert(kept + Seq::<i32>::empty() =~= kept);
        }
    }
}

/// Only a completion that can be an accept's closes a descriptor: one that
/// carries a buffer, one of a dropped connect, and the end of a dropped
/// provided recv never do, so descriptor zero is not closed for them.
pub proof fn only_accept_results_are_closed(
    accepts: Multiset<u64>,
    provided_recvs: Multiset<u64>,
    connects: Multiset<u64>,
    op_token: u64,
    result: i32,
    buf_id: Option<u16>,
)
    ensures
        ({
            let op = drain::dropped_op(
                accepts,
                provided_recvs,
                connects,
                op_token,
                result,
                buf_id,
            );
            &&& buf_id is Some ==> !(op is Accept)
            &&& connects.contains(op_token) ==> !(op is Accept)
            &&& result == 0 && provided_recvs.contains(op_token) ==> !(op is Accept)
            &&& !accepts.contains(op_token) ==> !(op is Accept)
        }),
{
}

/// A token no dropped op carries is left to its live future; one that was
/// recorded is consumed, and the record is used up.
pub proof fn recorded_cancel_consumes_one_completion(
    accepts: Multiset<u64>,
    provided_recvs: Multiset<u64>,
    connects: Multiset<u64>,
    op_token: u64,
    result: i32,
    buf_id: Option<u16>,
    capacity: nat,
)
    requires
        !accepts.contains(op_token),
        !provided_recvs.contains(op_token),
        !connects.contains(op_token),
    ensures
        drain::dropped_op(accepts, provided_recvs, connects, op_token, result, buf_id)
            == DroppedOp::Live,
        accepts.len() < capacity && buf_id is None ==> ({
            let dropped = token_set::recorded(accepts, op_token, capacity);
            &&& drain::dropped_op(dropped, provided_recvs, connects, op_token, result, buf_id)
                == DroppedOp::Accept
            &&& dropped.remove(op_token) == accepts
        }),
        provided_recvs.len() < capacity ==> ({
            let dropped = token_set::recorded(provided_recvs, op_token, capacity);
            &&& drain::dropped_op(accepts, dropped, connects, op_token, result, buf_id)
                == DroppedOp::ProvidedRecv
            &&& dropped.remove(op_token) == provided_recvs
        }),
        connects.len() < capacity && buf_id is None ==> ({
            let dropped = token_set::recorded(connects, op_token, capacity);
            &&& drain::dropped_op(accepts, provided_recvs, dropped, op_token, result, buf_id)
                == DroppedOp::Connect
            &&& dropped.remove(op_token) == connects
        }),
{
    broadcast use vstd::multiset::group_multiset_axioms;

    assert(accepts.insert(op_token).remove(op_token) =~= accepts);
    assert(provided_recvs.insert(op_token).remove(op_token) =~= provided_recvs);
    assert(connects.insert(op_token).remove(op_token) =~= connects);
}

/// The per-poll count rises by one exactly when a request was submitted, and a
/// refused request leaves the seam as it was.
pub proof fn count_follows_submissions(seam: SeamState, request: IoRequest)
    requires
        seam.submitted < u16::MAX,
    ensures
        seam.submit_outcome(request) matches Some(SubmitResult::Submitted(_))
            ==> seam.after_submit(request).submitted == seam.submitted + 1,
        !(seam.submit_outcome(request) matches Some(SubmitResult::Submitted(_)))
            ==> seam.after_submit(request) == seam,
{
}

/// What a backend cannot do is refused before anything is queued: without a
/// provided-buffer group both provided recvs are, and without the capability
/// the multishot one is.
pub proof fn missing_capability_is_refused_up_front(seam: SeamState, fd: i32, op_token: u64)
    requires
        seam.driver is Some,
    ensures
        ({
            let driver = seam.driver->0;
            let single = seam.provided_recv_request(fd, op_token);
            let multishot = seam.recv_multishot_request(fd, op_token);
            &&& driver.group() is None ==> {
                &&& seam.gated_outcome(single) == Some(SubmitResult::Unsupported)
                &&& seam.after_gated(single) == seam
            }
            &&& driver.group() is None || !driver.capabilities.multishot_recv ==> {
                &&& seam.gated_outcome(multishot) == Some(SubmitResult::Unsupported)
                &&& seam.after_gated(multishot) == seam
            }
        }),
{
}

/// Bytes copied into a slot are harvested back, up to what the destination
/// holds; the handle is stale afterwards.
pub proof fn harvest_gives_back_what_was_copied(
    seam: SeamState,
    key: InflightSlotKey,
    src: Seq<u8>,
    room: nat,
)
    requires
        seam.live(key),
        seam.inflight->0.valid(),
        src.len() <= INFLIGHT_BUF_STRIDE,
    ensures
        ({
            let filled = seam.written(key, 0, src);
            &&& filled.live(key)
            &&& room >= src.len() ==> state::taken(
                filled.slot_bytes(key),
                src.len() as int,
                INFLIGHT_BUF_STRIDE as int,
                room as int,
            ) == src
            &&& room < src.len() ==> state::taken(
                filled.slot_bytes(key),
                src.len() as int,
                INFLIGHT_BUF_STRIDE as int,
                room as int,
            ) == src.take(room as int)
            &&& !filled.freed(key).live(key)
        }),
{
    let filled = seam.written(key, 0, src);
    let bytes = filled.slot_bytes(key);
    assert(bytes.take(src.len() as int) =~= src);
    if room < src.len() {
        assert(bytes.take(room as int) =~= src.take(room as int));
    }
}

/// A message laid out for sending reads back whole: its address region unpacks
/// to the address, where the family is one that unpacks, and its payload
/// region holds the bytes.
pub proof fn message_reads_back(
    seam: SeamState,
    key: InflightSlotKey,
    src: Seq<u8>,
    addr: SockAddr,
    sender: Option<SockAddr>,
)
    requires
        seam.live(key),
        seam.inflight->0.valid(),
        src.len() <= MAX_MSG_INLINE_CAP,
    ensures
        ({
            let built = seam.written(key, MSG_PAYLOAD_OFFSET as int, src).written(
                key,
                MSG_ADDR_OFFSET as int,
                pack::packed(addr),
            );
            &&& state::msg_payload(built.slot_bytes(key)).take(src.len() as int) == src
            &&& state::msg_addr(built.slot_bytes(key)) == pack::packed(addr)
            &&& pack::unpacks_to(state::msg_addr(built.slot_bytes(key)), sender) <==> sender == (
            match addr {
                SockAddr::Unix(_) => None::<SockAddr>,
                _ => Some(addr),
            })
        }),
{
    let with_payload = seam.written(key, MSG_PAYLOAD_OFFSET as int, src);
    let built = with_payload.written(key, MSG_ADDR_OFFSET as int, pack::packed(addr));
    assert(pack::packed(addr).len() == 128);
    assert(state::msg_payload(built.slot_bytes(key)).take(src.len() as int) =~= src);
    assert(state::msg_addr(built.slot_bytes(key)) =~= pack::packed(addr));
    pack::unpacking_undoes_packing(addr, sender);
}

/// A message laid out for receiving holds no sender until one is written.
pub proof fn fresh_receive_has_no_sender(seam: SeamState, key: InflightSlotKey)
    requires
        seam.live(key),
        seam.inflight->0.valid(),
    ensures
        ({
            let built = seam.written(
                key,
                MSG_ADDR_OFFSET as int,
                Seq::new(pack::STORAGE_LEN as nat, |at: int| 0u8),
            );
            pack::unpacks_to(state::msg_addr(built.slot_bytes(key)), None)
        }),
{
    let built = seam.written(
        key,
        MSG_ADDR_OFFSET as int,
        Seq::new(pack::STORAGE_LEN as nat, |at: int| 0u8),
    );
    let region = state::msg_addr(built.slot_bytes(key));
    assert(region[0] == 0 && region[1] == 0);
}

/// The seam after `polls` polls of `key`'s recv stream.
pub open spec fn recv_polled(seam: SeamState, key: RecvMultishotSlotKey, polls: nat) -> SeamState
    decreases polls,
{
    if polls == 0 {
        seam
    } else {
        recv_polled(seam, key, (polls - 1) as nat).after_recv_next(key)
    }
}

proof fn lemma_recv_polled(seam: SeamState, key: RecvMultishotSlotKey, polls: nat)
    requires
        seam.recv matches Some(slots) && slots.live(key),
        polls <= seam.recv->0.queued(key).len(),
    ensures
        ({
            let slots = seam.recv->0;
            let slot = slots.slots[key.slot as int];
            recv_polled(seam, key, polls) == (SeamState {
                recv: Some(
                    slots.with_slot(
                        key.slot as int,
                        RecvSlot { queue: slot.queue.skip(polls as int), ..slot },
                    ),
                ),
                ..seam
            })
        }),
    decreases polls,
{
    let slots = seam.recv->0;
    let slot = slots.slots[key.slot as int];
    if polls == 0 {
        assert(slot.queue.skip(0) =~= slot.queue);
        assert(slots.slots.update(key.slot as int, slot) =~= slots.slots);
    } else {
        lemma_recv_polled(seam, key, (polls - 1) as nat);
        assert(slot.queue.skip(polls - 1).drop_first() =~= slot.queue.skip(polls as int));
        let before = recv_polled(seam, key, (polls - 1) as nat);
        assert(before.recv->0.popped(key).slots =~= slots.slots.update(
            key.slot as int,
            RecvSlot { queue: slot.queue.skip(polls as int), ..slot },
        ));
    }
}

/// A recv stream yields every queued completion in arrival order, then a stashed
/// final one; then a terminated one ends, which frees the slot, and a running
/// one is pending and stays as it is. Nothing is skipped or repeated.
pub proof fn recv_stream_drains_then_ends(seam: SeamState, key: RecvMultishotSlotKey)
    requires
        seam.recv matches Some(slots) && slots.live(key),
    ensures
        ({
            let slots = seam.recv->0;
            let queue = slots.queued(key);
            let drained = queue.len();
            let emptied = if slots.terminal(key) is Some {
                drained + 1
            } else {
                drained
            };
            &&& forall|at: int|
                0 <= at < drained ==> (#[trigger] recv_polled(seam, key, at as nat)).recv_item(key)
                    == (RecvMultishotNext::Item {
                    result: queue[at].0,
                    buf_id: state::reported_buffer(queue[at].1),
                })
            &&& slots.terminal(key) matches Some((result, stored)) ==> recv_polled(
                seam,
                key,
                drained,
            ).recv_item(key) == (RecvMultishotNext::Item {
                result,
                buf_id: state::reported_buffer(stored),
            })
            &&& if slots.terminated(key) {
                &&& recv_polled(seam, key, emptied).recv_item(key) == RecvMultishotNext::Ended
                &&& recv_polled(seam, key, emptied + 1).recv == Some(slots.freed(key))
            } else {
                &&& recv_polled(seam, key, emptied).recv_item(key) == RecvMultishotNext::Pending
                &&& recv_polled(seam, key, emptied + 1) == recv_polled(seam, key, emptied)
            }
        }),
{
    let slots = seam.recv->0;
    let queue = slots.queued(key);
    assert forall|at: int| 0 <= at < queue.len() implies (#[trigger] recv_polled(
        seam,
        key,
        at as nat,
    )).recv_item(key) == (RecvMultishotNext::Item {
        result: queue[at].0,
        buf_id: state::reported_buffer(queue[at].1),
    }) by {
        lemma_recv_polled(seam, key, at as nat);
    }
    lemma_recv_polled(seam, key, queue.len());
    let last = recv_polled(seam, key, queue.len());
    let next = recv_polled(seam, key, queue.len() + 1);
    assert(next == last.after_recv_next(key));
    if slots.terminal(key) is Some {
        assert(recv_polled(seam, key, queue.len() + 2) == next.after_recv_next(key));
        if slots.terminated(key) {
            assert(next.after_recv_next(key).recv->0.slots =~= slots.freed(key).slots);
        }
    } else if slots.terminated(key) {
        assert(next.recv->0.slots =~= slots.freed(key).slots);
    }
}

/// A provided buffer leaves its slot when a poll yields it, and only then: the
/// buffer of the item is the first the slot held and is held no longer, and a
/// poll that yields none takes none. No other slot is touched, and a stale
/// handle touches nothing.
pub proof fn polled_buffer_leaves_its_slot(seam: SeamState, key: RecvMultishotSlotKey, other: int)
    requires
        seam.recv matches Some(slots) && 0 <= other < slots.slots.len(),
    ensures
        ({
            let before = seam.recv->0;
            let after = seam.after_recv_next(key).recv->0;
            let held = slot_buffers(before.slots[key.slot as int]);
            let left = slot_buffers(after.slots[key.slot as int]);
            &&& seam.after_recv_next(key).recv is Some
            &&& before.live(key) ==> (match seam.recv_item(key) {
                RecvMultishotNext::Item { buf_id: Some(id), .. } => held == seq![id] + left,
                RecvMultishotNext::Item { buf_id: None, .. } => held == left,
                RecvMultishotNext::Pending | RecvMultishotNext::Ended => held == left && held.len()
                    == 0,
            })
            &&& !before.live(key) ==> seam.after_recv_next(key) == seam && !(seam.recv_item(
                key,
            ) is Item)
            &&& other != key.slot ==> after.slots[other] == before.slots[other]
        }),
{
    let before = seam.recv->0;
    if before.live(key) {
        let slot = before.slots[key.slot as int];
        let after = seam.after_recv_next(key).recv->0.slots[key.slot as int];
        if before.front(key) is Some {
            lemma_held_drop_first(slot.queue);
        }
        match seam.recv_item(key) {
            RecvMultishotNext::Item { buf_id: Some(id), .. } => {
                assert(slot_buffers(slot) =~= seq![id] + slot_buffers(after));
            },
            _ => {
                assert(slot_buffers(slot) =~= slot_buffers(after));
            },
        }
    }
}

/// A running recv stream with nothing queued is pending and stays as it is.
pub proof fn idle_recv_stream_is_pending(seam: SeamState, key: RecvMultishotSlotKey)
    requires
        seam.recv matches Some(slots) && slots.live(key) && slots.queued(key).len() == 0
            && slots.terminal(key) is None && !slots.terminated(key),
    ensures
        seam.recv_item(key) == RecvMultishotNext::Pending,
        seam.after_recv_next(key) == seam,
{
}

/// The seam after `polls` polls of `key`'s accept stream.
pub open spec fn accept_polled(seam: SeamState, key: MultishotSlotKey, polls: nat) -> SeamState
    decreases polls,
{
    if polls == 0 {
        seam
    } else {
        accept_polled(seam, key, (polls - 1) as nat).after_multishot_next(key)
    }
}

proof fn lemma_accept_polled(seam: SeamState, key: MultishotSlotKey, polls: nat)
    requires
        seam.multishot matches Some(slots) && slots.live(key),
        polls <= seam.multishot->0.queued(key).len(),
    ensures
        ({
            let slots = seam.multishot->0;
            let slot = slots.slots[key.slot as int];
            accept_polled(seam, key, polls) == (SeamState {
                multishot: Some(
                    slots.with_slot(
                        key.slot as int,
                        MultishotSlot { queue: slot.queue.skip(polls as int), ..slot },
                    ),
                ),
                ..seam
            })
        }),
    decreases polls,
{
    let slots = seam.multishot->0;
    let slot = slots.slots[key.slot as int];
    if polls == 0 {
        assert(slot.queue.skip(0) =~= slot.queue);
        assert(slots.slots.update(key.slot as int, slot) =~= slots.slots);
    } else {
        lemma_accept_polled(seam, key, (polls - 1) as nat);
        assert(slot.queue.skip(polls - 1).drop_first() =~= slot.queue.skip(polls as int));
        let before = accept_polled(seam, key, (polls - 1) as nat);
        assert(before.multishot->0.popped(key).slots =~= slots.slots.update(
            key.slot as int,
            MultishotSlot { queue: slot.queue.skip(polls as int), ..slot },
        ));
    }
}

/// An accept stream yields every queued result in arrival order; then a
/// terminated one ends, which frees the slot, and a running one is pending.
pub proof fn accept_stream_drains_then_ends(seam: SeamState, key: MultishotSlotKey)
    requires
        seam.multishot matches Some(slots) && slots.live(key),
    ensures
        ({
            let queue = seam.multishot->0.queued(key);
            let drained = queue.len();
            &&& forall|at: int|
                0 <= at < drained ==> (#[trigger] accept_polled(
                    seam,
                    key,
                    at as nat,
                )).multishot_item(key) == MultishotNext::Item(queue[at])
            &&& if seam.multishot->0.terminated(key) {
                &&& accept_polled(seam, key, drained).multishot_item(key) == MultishotNext::Ended
                &&& accept_polled(seam, key, drained + 1).multishot == Some(
                    seam.multishot->0.freed(key),
                )
            } else {
                &&& accept_polled(seam, key, drained).multishot_item(key) == MultishotNext::Pending
                &&& accept_polled(seam, key, drained + 1) == accept_polled(seam, key, drained)
            }
        }),
{
    let slots = seam.multishot->0;
    let queue = slots.queued(key);
    assert forall|at: int| 0 <= at < queue.len() implies (#[trigger] accept_polled(
        seam,
        key,
        at as nat,
    )).multishot_item(key) == MultishotNext::Item(queue[at]) by {
        lemma_accept_polled(seam, key, at as nat);
    }
    lemma_accept_polled(seam, key, queue.len());
    reveal_with_fuel(accept_polled, 2);
    let last = accept_polled(seam, key, queue.len());
    assert(accept_polled(seam, key, queue.len() + 1) == last.after_multishot_next(key));
    if slots.terminated(key) {
        assert(last.after_multishot_next(key).multishot->0.slots =~= slots.freed(key).slots);
    }
}

/// A poll window leaves no seam behind: a worker that had none before its
/// window has none after it, and no other worker's seam is touched.
pub proof fn poll_window_leaves_nothing_behind(seams: Seq<Option<IoSeam>>, seam: IoSeam)
    requires
        seams.len() == 256,
        seams[seam.worker_id as int] is None,
    ensures
        seams.update(seam.worker_id as int, Some(seam)).update(seam.worker_id as int, None)
            == seams,
{
    assert(seams.update(seam.worker_id as int, Some(seam)).update(seam.worker_id as int, None)
        =~= seams);
}

} // verus!
