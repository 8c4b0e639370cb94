//! What the worker's completion drain calls: routing a completion to its owner,
//! submitting cancels, disposing cancelled ops, and reclaiming slots.
//!
//! Descriptors nobody will take are collected in a `closing` list, which the
//! run-loop closes; requests are queued in the driver, which the run-loop hands
//! to the kernel.

use vstd::multiset::Multiset;
use vstd::prelude::*;

use crate::boundary::cancel::token_set;
use crate::boundary::cancel::token_set::{
    ACCEPT_CANCEL_SLOT, AcceptCancelSet, CONNECT_CANCEL_SLOT, ConnectCancelSet,
    PROVIDED_RECV_CANCEL_SLOT, ProvidedRecvCancelSet,
};
use crate::boundary::cancel::token;
use crate::boundary::cancel::token::{
    encode_cancel_sentinel, encode_recv_multishot_sentinel, is_multishot_sentinel,
    multishot_sentinel_generation, multishot_sentinel_slot,
};
use crate::boundary::seam::socket;
use crate::boundary::seam::socket::adopt_accepted_fd;
use crate::buffer::multishot::accept::MultishotSlots;
use crate::buffer::multishot::recv;
use crate::buffer::multishot::recv::RecvSlots;
use crate::buffer::multishot::{
    MultishotPush, MultishotSlab, MultishotSlotKey, NO_BUFFER, RecvMultishotPush,
    RecvMultishotSlab, RecvMultishotSlotKey,
};
use crate::buffer::oneshot::inflight::{InflightBufSlab, InflightSlotKey};
use crate::driver::{DriverState, DriverType};
use crate::operation;
use crate::operation::{CqeFlags, IoRequest, SubmitToken};

verus! {

/// The wake and retire targets a multishot completion resolves to.
#[derive(Debug, Clone, Copy, PartialEq, Eq, Structural)]
pub struct MultishotCompletion {
    /// The owner task to wake, set when the result was queued for it.
    pub wake: Option<u64>,
    /// The owner task whose one counted SQE retires, set on the terminal
    /// (no-`MORE`) completion regardless of wake, so the worker's in-flight
    /// accounting pairs with the submit even when the owning stream already
    /// dropped.
    pub retire: Option<u64>,
}

/// The descriptors to close for an accept result that nobody will observe.
pub open spec fn disposed_fd(result: i32) -> Seq<i32> {
    match socket::accepted_fd(result) {
        Some(fd) => seq![fd],
        None => Seq::empty(),
    }
}

/// The descriptors among accept results, in order.
pub open spec fn disposed_fds(results: Seq<i32>) -> Seq<i32>
    decreases results.len(),
{
    if results.len() == 0 {
        Seq::empty()
    } else {
        disposed_fds(results.drop_last()) + disposed_fd(results.last())
    }
}

/// The buffer ids among recv completions, in order.
pub open spec fn held_buffers(entries: Seq<(i32, u16)>) -> Seq<u16>
    decreases entries.len(),
{
    if entries.len() == 0 {
        Seq::empty()
    } else if entries.last().1 == NO_BUFFER {
        held_buffers(entries.drop_last())
    } else {
        held_buffers(entries.drop_last()).push(entries.last().1)
    }
}

/// Where a multishot completion goes: the registry after it, the targets, and
/// the descriptors to close.
pub struct AcceptRoute {
    /// The registry after the completion.
    pub slots: MultishotSlots,
    /// Whom to wake and to retire.
    pub targets: MultishotCompletion,
    /// Descriptors nobody will take.
    pub closing: Seq<i32>,
}

/// Routes an accept completion.
///
/// A dropped stream's intermediate results are disposed and its final one frees
/// the slot. Otherwise the result is queued and its owner woken, or disposed
/// when the slot is stale or its FIFO full. The final completion retires the
/// owner in every case.
pub open spec fn accept_route(
    slots: MultishotSlots,
    user_data: u64,
    result: i32,
    is_more: bool,
) -> AcceptRoute {
    let slot = token::sentinel_slot(user_data);
    let generation = token::sentinel_generation(user_data);
    let owner = slots.owner(slot, generation);
    let retire = if is_more {
        None
    } else {
        owner
    };
    if slots.cancel_pending(slot, generation) {
        AcceptRoute {
            slots: if is_more {
                slots
            } else {
                slots.freed_slot(slot, generation)
            },
            targets: MultishotCompletion { wake: None, retire },
            closing: if is_more {
                disposed_fd(result)
            } else {
                Seq::empty()
            },
        }
    } else if slots.push_outcome(slot, generation) == MultishotPush::Queued {
        AcceptRoute {
            slots: slots.pushed(slot, generation, result, is_more),
            targets: MultishotCompletion { wake: owner, retire },
            closing: Seq::empty(),
        }
    } else {
        AcceptRoute {
            slots: slots.pushed(slot, generation, result, is_more),
            targets: MultishotCompletion { wake: None, retire },
            closing: if is_more {
                disposed_fd(result)
            } else {
                Seq::empty()
            },
        }
    }
}

/// Routes a multishot op's completion into the worker's registry.
///
/// The completion drain calls this on a completion whose `user_data` is a
/// multishot sentinel. It queues the result for the owning stream and returns
/// the [`MultishotCompletion`] targets. Nothing is queued when the slot is
/// stale, the FIFO overflowed, or the stream dropped -- a cancel-pending slot,
/// whose intermediate results are discarded and whose terminal completion frees
/// the slot here.
///
/// A discarded nonnegative accept result is a kernel-created fd; it is added to
/// `closing` so a dropped or overflowed stream does not leak the descriptor.
pub fn push_multishot_completion(
    slab: &mut MultishotSlab,
    closing: &mut Vec<i32>,
    user_data: u64,
    result: i32,
    flags: u32,
) -> (targets: MultishotCompletion)
    requires
        old(slab).wf(),
    ensures
        final(slab).wf(),
        ({
            let route = accept_route(old(slab)@, user_data, result, CqeFlags::more(flags));
            &&& final(slab)@ == route.slots
            &&& targets == route.targets
            &&& final(closing)@ == old(closing)@ + route.closing
        }),
{
    let slot: u16 = multishot_sentinel_slot(user_data);
    let generation: u16 = multishot_sentinel_generation(user_data);
    let is_more = CqeFlags::has_more(flags);
    let owner = slab.owner(slot, generation);
    let retire = if is_more {
        None
    } else {
        owner
    };
    assert(closing@ + Seq::<i32>::empty() =~= closing@);
    if slab.is_cancel_pending(slot, generation) {
        if is_more {
            dispose_accept_result(closing, result);
        } else {
            slab.free_by_slot(slot, generation);
        }
        return MultishotCompletion { wake: None, retire };
    }
    let wake = match slab.push(slot, generation, result, is_more) {
        MultishotPush::Queued => owner,
        MultishotPush::Overflowed | MultishotPush::Stale => {
            if is_more {
                dispose_accept_result(closing, result);
            }
            None
        },
    };
    MultishotCompletion { wake, retire }
}

/// Lists a nonnegative accept result the owning stream will never observe for
/// closing.
///
/// A negative result is an `-errno`, not a descriptor, and lists nothing.
fn dispose_accept_result(closing: &mut Vec<i32>, result: i32)
    ensures
        final(closing)@ == old(closing)@ + disposed_fd(result),
{
    if let Some(fd) = adopt_accepted_fd(result) {
        closing.push(fd);
    }
    assert(closing@ =~= old(closing)@ + disposed_fd(result));
}

/// Recycles a completion's kernel-selected buffer id to the driver's pool.
///
/// A dropped or overflowed multishot recv completion still consumed a provided
/// buffer the caller will never take; this returns it to the ring exactly once
/// so the ring does not silently shrink. A `None` id (end of stream or error)
/// or a backend with no pool is a no-op.
fn recycle_provided(driver: &mut DriverType, buf_id: Option<u16>)
    requires
        old(driver).wf(),
        buf_id matches Some(id) ==> old(driver)@.takes_back(id),
    ensures
        final(driver).wf(),
        final(driver)@ == (match buf_id {
            Some(id) => old(driver)@.recycled(id),
            None => old(driver)@,
        }),
{
    if let Some(id) = buf_id {
        driver.recycle(id);
    }
}

/// Where a multishot recv completion goes: the registry after it, the targets,
/// and the buffer to give back.
pub struct RecvRoute {
    /// The registry after the completion.
    pub slots: RecvSlots,
    /// Whom to wake and to retire.
    pub targets: MultishotCompletion,
    /// Buffer nobody will take.
    pub recycled: Option<u16>,
}

/// Routes a recv completion.
///
/// A dropped stream's buffers are given back and its final completion frees the
/// slot. Otherwise the completion is queued, or stashed when it is the final
/// one, and its owner woken; its buffer is given back when the slot is stale or
/// its FIFO full. The final completion retires the owner in every case.
pub open spec fn recv_route(
    slots: RecvSlots,
    user_data: u64,
    result: i32,
    is_more: bool,
    buf_id: Option<u16>,
) -> RecvRoute {
    let slot = token::sentinel_slot(user_data);
    let generation = token::sentinel_generation(user_data);
    let owner = slots.owner(slot, generation);
    let retire = if is_more {
        None
    } else {
        owner
    };
    let stored = match buf_id {
        Some(id) => id,
        None => NO_BUFFER,
    };
    if slots.cancel_pending(slot, generation) {
        RecvRoute {
            slots: if is_more {
                slots
            } else {
                slots.freed_slot(slot, generation)
            },
            targets: MultishotCompletion { wake: None, retire },
            recycled: buf_id,
        }
    } else {
        let outcome = slots.push_outcome(slot, generation, is_more);
        let kept = outcome == RecvMultishotPush::Queued || outcome == RecvMultishotPush::Terminal;
        RecvRoute {
            slots: slots.pushed(slot, generation, result, stored, is_more),
            targets: MultishotCompletion {
                wake: if kept {
                    owner
                } else {
                    None
                },
                retire,
            },
            recycled: if kept {
                None
            } else {
                buf_id
            },
        }
    }
}

/// Routes a multishot recv op's completion into the worker's registry.
///
/// The completion drain calls this on a completion whose `user_data` is a
/// multishot-recv sentinel. It queues a data completion's `(result, buf_id)` in
/// the owning stream's FIFO, or stashes the terminal completion in the slot;
/// either way it wakes the owning task and leaves the buffer for the consumer
/// to recycle. Nothing is kept when the slot is stale, the FIFO overflowed (a
/// data completion only -- the terminal is stashed, never overflowed), or the
/// stream dropped; in each of those cases the completion's provided buffer is
/// recycled here so it returns to the ring exactly once.
///
/// Unlike the accept path, the buffer id is read and recycled on every
/// completion regardless of the `MORE` flag: the recv-multishot ABI reports a
/// selected buffer on intermediate and terminal completions alike. A buffer
/// that is recycled must be one of the pool's.
pub fn push_recv_multishot_completion(
    slab: &mut RecvMultishotSlab,
    driver: &mut DriverType,
    user_data: u64,
    result: i32,
    flags: u32,
    buf_id: Option<u16>,
) -> (targets: MultishotCompletion)
    requires
        old(slab).wf(),
        old(driver).wf(),
        recv_route(old(slab)@, user_data, result, CqeFlags::more(flags), buf_id).recycled matches Some(
            id,
        ) ==> old(driver)@.takes_back(id),
    ensures
        final(slab).wf(),
        final(driver).wf(),
        ({
            let route = recv_route(old(slab)@, user_data, result, CqeFlags::more(flags), buf_id);
            &&& final(slab)@ == route.slots
            &&& targets == route.targets
            &&& final(driver)@ == (match route.recycled {
                Some(id) => old(driver)@.recycled(id),
                None => old(driver)@,
            })
        }),
{
    let slot: u16 = multishot_sentinel_slot(user_data);
    let generation: u16 = multishot_sentinel_generation(user_data);
    let is_more = CqeFlags::has_more(flags);
    let owner = slab.owner(slot, generation);
    let retire = if is_more {
        None
    } else {
        owner
    };
    if slab.is_cancel_pending(slot, generation) {
        recycle_provided(driver, buf_id);
        if !is_more {
            slab.free_by_slot(slot, generation);
        }
        return MultishotCompletion { wake: None, retire };
    }
    let stored: u16 = match buf_id {
        Some(id) => id,
        None => NO_BUFFER,
    };
    let wake = match slab.push(slot, generation, result, stored, is_more) {
        RecvMultishotPush::Queued | RecvMultishotPush::Terminal => owner,
        RecvMultishotPush::Overflowed | RecvMultishotPush::Stale => {
            recycle_provided(driver, buf_id);
            None
        },
    };
    MultishotCompletion { wake, retire }
}

/// Routes a multishot recv op's completion as
/// [`push_recv_multishot_completion`] does, or refuses it.
///
/// A completion whose buffer would be recycled but is not one of the pool's is
/// refused with `None`, and nothing changes.
pub fn try_push_recv_multishot_completion(
    slab: &mut RecvMultishotSlab,
    driver: &mut DriverType,
    user_data: u64,
    result: i32,
    flags: u32,
    buf_id: Option<u16>,
) -> (routed: Option<MultishotCompletion>)
    requires
        old(slab).wf(),
        old(driver).wf(),
    ensures
        final(slab).wf(),
        final(driver).wf(),
        ({
            let route = recv_route(old(slab)@, user_data, result, CqeFlags::more(flags), buf_id);
            let unknown = route.recycled matches Some(id) && !old(driver)@.takes_back(id);
            if unknown {
                &&& routed is None
                &&& final(slab)@ == old(slab)@
                &&& final(driver)@ == old(driver)@
            } else {
                &&& routed == Some(route.targets)
                &&& final(slab)@ == route.slots
                &&& final(driver)@ == (match route.recycled {
                    Some(id) => old(driver)@.recycled(id),
                    None => old(driver)@,
                })
            }
        }),
{
    if let Some(id) = buf_id {
        if !driver.can_recycle(id) {
            let slot: u16 = multishot_sentinel_slot(user_data);
            let generation: u16 = multishot_sentinel_generation(user_data);
            if slab.is_cancel_pending(slot, generation) {
                return None;
            }
            match slab.push_outcome(slot, generation, CqeFlags::has_more(flags)) {
                RecvMultishotPush::Queued | RecvMultishotPush::Terminal => {},
                RecvMultishotPush::Overflowed | RecvMultishotPush::Stale => return None,
            }
        }
    }
    Some(push_recv_multishot_completion(slab, driver, user_data, result, flags, buf_id))
}

/// Disposes the descriptor from a cancelled single-shot accept's completion.
///
/// The completion drain calls this on every task-token completion. When `token`
/// names a dropped accept recorded by [`submit_accept_cancel`], the op still
/// produced a descriptor the caller will never take, so it is added to
/// `closing` (a negative result is an `-errno`, not an fd) and the completion
/// is consumed. Returns whether it handled the completion.
pub fn dispose_cancelled_accept<const N: usize>(
    accepts: &mut AcceptCancelSet<N>,
    closing: &mut Vec<i32>,
    token: u64,
    result: i32,
) -> (handled: bool)
    requires
        old(accepts).wf(),
    ensures
        final(accepts).wf(),
        handled == old(accepts)@.contains(token),
        final(accepts)@ == (if handled {
            old(accepts)@.remove(token)
        } else {
            old(accepts)@
        }),
        final(closing)@ == (if handled {
            old(closing)@ + disposed_fd(result)
        } else {
            old(closing)@
        }),
{
    if accepts.is_empty() || !accepts.take(token) {
        proof {
            lemma_empty_set_has_nothing(old(accepts)@, token);
        }
        return false;
    }
    dispose_accept_result(closing, result);
    true
}

/// Consumes a cancelled single-shot connect's completion, disposing nothing.
///
/// The completion drain calls this before the generic task-token path. When
/// `token` names a dropped connect recorded by [`submit_connect_cancel`], the
/// belated completion is taken here so its result never reaches a live task's
/// wake slot. Unlike accept, a connect produces no descriptor -- success is
/// result `0`, not an fd -- so there is nothing to close. Returns whether it
/// consumed the completion.
pub fn dispose_cancelled_connect<const N: usize>(
    connects: &mut ConnectCancelSet<N>,
    token: u64,
) -> (handled: bool)
    requires
        old(connects).wf(),
    ensures
        final(connects).wf(),
        handled == old(connects)@.contains(token),
        final(connects)@ == (if handled {
            old(connects)@.remove(token)
        } else {
            old(connects)@
        }),
{
    proof {
        lemma_empty_set_has_nothing(old(connects)@, token);
    }
    !connects.is_empty() && connects.take(token)
}

proof fn lemma_empty_set_has_nothing(tokens: Multiset<u64>, token: u64)
    ensures
        tokens.len() == 0 ==> !tokens.contains(token),
{
    broadcast use vstd::multiset::group_multiset_axioms;

    if tokens.len() == 0 && tokens.contains(token) {
        assert(tokens.remove(token).insert(token) =~= tokens);
    }
}

/// Submits a cancel for a dropped buffered future's in-flight op and marks its
/// slot retire-pending.
///
/// The worker's cancel-drain calls this for each [`InflightSlotKey`] popped
/// from the cancel inbox. The slot is freed when the original op posts its
/// completion (see [`reclaim_dropped_slot`]), or, if that op already completed
/// before the cancel, on the cancel's own `-ENOENT` completion (see
/// [`reclaim_cancel_completion`]).
///
/// A refused submit (a full ring, a backend without cancel) leaves the slot
/// retire-pending. If the original op completes, its completion reclaims the
/// slot; otherwise this is a bounded leak until worker teardown, never a slot
/// freed under an in-flight kernel write.
pub fn submit_cancel(driver: &mut DriverType, slab: &mut InflightBufSlab, key: InflightSlotKey)
    requires
        old(driver).wf(),
        old(slab).wf(),
    ensures
        final(driver).wf(),
        final(slab).wf(),
        final(slab)@ == old(slab)@.retiring(key),
        final(driver)@ == old(driver)@.submitted(slotted_cancel(key)),
{
    slab.mark_retire_pending(key);
    submit_tagged_cancel(driver, key);
}

/// The request that cancels `key`'s op, tagged with its cancel sentinel.
pub open spec fn slotted_cancel(key: InflightSlotKey) -> IoRequest {
    operation::cancel_request(
        key.op_token,
        token::sentinel(token::CANCEL_TOKEN_BASE, key.slot, key.generation),
    )
}

/// Hands the driver a cancel of `key`'s op, tagged with its cancel sentinel.
fn submit_tagged_cancel(driver: &mut DriverType, key: InflightSlotKey)
    requires
        old(driver).wf(),
    ensures
        final(driver).wf(),
        final(driver)@ == old(driver)@.submitted(slotted_cancel(key)),
{
    let request = IoRequest::cancel(SubmitToken::new(key.op_token)).with_user_data(
        encode_cancel_sentinel(key),
    );
    let _ = driver.submit_internal(request);
}

/// The multishot handle a queued cancel names.
pub open spec fn multishot_key(key: InflightSlotKey) -> MultishotSlotKey {
    MultishotSlotKey { slot: key.slot, generation: key.generation, worker_id: key.worker_id }
}

/// Submits a cancel for a dropped multishot stream's op and marks its slot
/// cancel-pending.
///
/// Called by the cancel drain for a queued cancel whose `op_token` is a
/// multishot sentinel. It lists any accepts already queued for the gone stream
/// for closing, marks the registry slot cancel-pending, then submits a cancel
/// targeting the multishot op by its sentinel `user_data`. The op's terminal
/// completion frees the slot through [`push_multishot_completion`];
/// intermediate accepts arriving after the mark are closed there, so no
/// descriptor leaks either way.
pub fn submit_multishot_cancel(
    driver: &mut DriverType,
    slab: &mut MultishotSlab,
    closing: &mut Vec<i32>,
    key: InflightSlotKey,
)
    requires
        old(driver).wf(),
        old(slab).wf(),
    ensures
        final(driver).wf(),
        final(slab).wf(),
        final(slab)@ == old(slab)@.drained(multishot_key(key)).cancelling(multishot_key(key)),
        final(closing)@ == old(closing)@ + disposed_fds(old(slab)@.queued(multishot_key(key))),
        final(driver)@ == old(driver)@.submitted(
            operation::cancel_request(key.op_token, key.op_token),
        ),
{
    let slot = MultishotSlotKey {
        slot: key.slot,
        generation: key.generation,
        worker_id: key.worker_id,
    };
    drain_accepts(slab, closing, slot);
    slab.mark_cancel_pending(slot);
    let request = IoRequest::cancel(SubmitToken::new(key.op_token)).with_user_data(key.op_token);
    let _ = driver.submit_internal(request);
}

/// Empties a gone stream's FIFO, listing the descriptors in it for closing.
fn drain_accepts(slab: &mut MultishotSlab, closing: &mut Vec<i32>, key: MultishotSlotKey)
    requires
        old(slab).wf(),
    ensures
        final(slab).wf(),
        final(slab)@ == old(slab)@.drained(key),
        final(closing)@ == old(closing)@ + disposed_fds(old(slab)@.queued(key)),
{
    let ghost mut taken: Seq<i32> = Seq::empty();
    let ghost all = slab@.queued(key);
    proof {
        assert(closing@ + disposed_fds(taken) =~= closing@);
        assert(taken + all =~= all);
        assert(slab@.live(key) ==> slab@.drained(key).slots =~= old(slab)@.drained(key).slots);
    }
    loop
        invariant
            slab.wf(),
            slab@.live(key) == old(slab)@.live(key),
            slab@.drained(key) == old(slab)@.drained(key),
            !slab@.live(key) ==> slab@ == old(slab)@,
            all == taken + slab@.queued(key),
            closing@ == old(closing)@ + disposed_fds(taken),
        ensures
            slab@.queued(key).len() == 0,
            slab.wf(),
            slab@.live(key) == old(slab)@.live(key),
            slab@.drained(key) == old(slab)@.drained(key),
            !slab@.live(key) ==> slab@ == old(slab)@,
            all == taken + slab@.queued(key),
            closing@ == old(closing)@ + disposed_fds(taken),
        decreases slab@.queued(key).len(),
    {
        let ghost before = slab@;
        match slab.pop(key) {
            Some(result) => {
                dispose_accept_result(closing, result);
                proof {
                    assert(before.queued(key)[0] == result);
                    assert(slab@.queued(key) =~= before.queued(key).drop_first());
                    assert(slab@.drained(key).slots =~= before.drained(key).slots);
                    let next = taken.push(result);
                    assert(next.drop_last() =~= taken);
                    assert(old(closing)@ + disposed_fds(next) =~= old(closing)@ + disposed_fds(
                        taken,
                    ) + disposed_fd(result));
                    assert(taken + before.queued(key) =~= next + slab@.queued(key));
                    taken = next;
                }
            },
            None => {
                break;
            },
        }
    }
    proof {
        assert(all =~= taken);
        if slab@.live(key) {
            assert(slab@.slots[key.slot as int].queue =~= Seq::<i32>::empty());
            assert(slab@.slots =~= slab@.drained(key).slots);
        }
    }
}

/// The buffers a cancel of `key`'s stream gives back: those queued, then that
/// of a stashed final completion.
pub open spec fn cancelled_buffers(slots: RecvSlots, key: RecvMultishotSlotKey) -> Seq<u16> {
    held_buffers(slots.queued(key)) + (match slots.terminal(key) {
        Some((_, buf_id)) => if buf_id == NO_BUFFER {
            Seq::empty()
        } else {
            seq![buf_id]
        },
        None => Seq::empty(),
    })
}

/// The request that cancels a multishot recv op by its sentinel.
pub open spec fn recv_cancel(key: RecvMultishotSlotKey) -> IoRequest {
    let tag = token::sentinel(token::RECV_MULTISHOT_TOKEN_BASE, key.slot, key.generation);
    operation::cancel_request(tag, tag)
}

/// The backend and the registry after a cancel of `key`'s stream: the buffers
/// the stream held are given back, and the slot is freed when its op has
/// terminated, or waits for the op that the submitted request cancels.
pub open spec fn recv_cancelled(driver: DriverState, slots: RecvSlots, key: RecvMultishotSlotKey) -> (
    DriverState,
    RecvSlots,
) {
    let given_back = driver.recycled_all(cancelled_buffers(slots, key));
    if slots.terminated(key) {
        (given_back, slots.freed(key))
    } else {
        (
            given_back.submitted(recv_cancel(key)),
            slots.drained(key).terminal_taken(key).cancelling(key),
        )
    }
}

/// Submits a cancel for a dropped multishot recv stream's op and marks its slot
/// cancel-pending.
///
/// Mirrors [`submit_multishot_cancel`] for the recv registry: it recycles any
/// buffers already queued for the gone stream (a dropped recv never takes them,
/// and each is a provided buffer that must return to the ring) -- both the FIFO
/// data completions and a terminal completion already stashed in the slot. If
/// the op has already terminated, no further completion will arrive to free the
/// slot, so this frees it at once; otherwise it marks the slot cancel-pending
/// and submits a cancel targeting the op by its sentinel `user_data`, and the
/// op's terminal completion frees the slot through
/// [`push_recv_multishot_completion`], recycling any buffers arriving after the
/// mark. Every buffer given back must be one of the pool's.
pub fn submit_recv_multishot_cancel(
    driver: &mut DriverType,
    slab: &mut RecvMultishotSlab,
    key: RecvMultishotSlotKey,
)
    requires
        old(driver).wf(),
        old(slab).wf(),
        old(driver)@.takes_all_back(cancelled_buffers(old(slab)@, key)),
    ensures
        final(driver).wf(),
        final(slab).wf(),
        (final(driver)@, final(slab)@) == recv_cancelled(old(driver)@, old(slab)@, key),
{
    let ghost before = slab@;
    let ghost queued = held_buffers(before.queued(key));
    let ghost all = cancelled_buffers(before, key);
    proof {
        assert forall|at: int| 0 <= at < queued.len() implies old(driver)@.takes_back(
            #[trigger] queued[at],
        ) by {
            assert(all[at] == queued[at]);
        }
    }
    drain_recvs(driver, slab, key);
    let ghost drained_slots = slab@;
    proof {
        old(driver).pool_is_valid();
        lemma_recycling_keeps_the_pool(old(driver)@, queued);
    }
    if let Some((_, buf_id)) = slab.take_terminal(key) {
        if buf_id != NO_BUFFER {
            proof {
                assert(before.terminal(key) == drained_slots.terminal(key));
                assert(all =~= queued.push(buf_id));
                assert(all.drop_last() =~= queued);
                assert(all[queued.len() as int] == buf_id);
                assert(old(driver)@.takes_back(buf_id));
            }
            recycle_provided(driver, Some(buf_id));
        }
    }
    proof {
        match before.terminal(key) {
            Some((_, buf_id)) => {
                if buf_id == NO_BUFFER {
                    assert(all =~= queued);
                }
            },
            None => {
                assert(all =~= queued);
            },
        }
        assert(driver@ == old(driver)@.recycled_all(all));
    }
    if slab.is_terminated(key) {
        slab.free(key);
        assert(slab@.slots =~= before.freed(key).slots);
        return;
    }
    slab.mark_cancel_pending(key);
    let sentinel: u64 = encode_recv_multishot_sentinel(key);
    let request = IoRequest::cancel(SubmitToken::new(sentinel)).with_user_data(sentinel);
    let _ = driver.submit_internal(request);
}

/// Submits a cancel for a dropped multishot recv stream's op as
/// [`submit_recv_multishot_cancel`] does, or refuses.
///
/// A stream that holds a buffer which is not one of the pool's is refused with
/// `false`, and nothing changes.
pub fn try_submit_recv_multishot_cancel(
    driver: &mut DriverType,
    slab: &mut RecvMultishotSlab,
    key: RecvMultishotSlotKey,
) -> (submitted: bool)
    requires
        old(driver).wf(),
        old(slab).wf(),
    ensures
        final(driver).wf(),
        final(slab).wf(),
        submitted == old(driver)@.takes_all_back(cancelled_buffers(old(slab)@, key)),
        (final(driver)@, final(slab)@) == (if submitted {
            recv_cancelled(old(driver)@, old(slab)@, key)
        } else {
            (old(driver)@, old(slab)@)
        }),
{
    if let Some(pool) = driver.provided_recv_pool() {
        let entries: u16 = pool.entries();
        proof {
            lemma_cancelled_below(slab@, key, entries);
        }
        if !slab.holds_only_below(key, entries) {
            return false;
        }
    }
    submit_recv_multishot_cancel(driver, slab, key);
    true
}

/// A cancel gives back ids below `limit` only, exactly when the stream holds
/// only such ids.
proof fn lemma_cancelled_below(slots: RecvSlots, key: RecvMultishotSlotKey, limit: u16)
    ensures
        slots.holds_only_below(key, limit) <==> forall|at: int|
            0 <= at < cancelled_buffers(slots, key).len() ==> #[trigger] cancelled_buffers(
                slots,
                key,
            )[at] < limit,
{
    let held = held_buffers(slots.queued(key));
    let all = cancelled_buffers(slots, key);
    lemma_held_below(slots.queued(key), limit);
    assert forall|at: int| 0 <= at < held.len() implies #[trigger] held[at] == all[at] by {}
    if let Some(entry) = slots.terminal(key) {
        if entry.1 != NO_BUFFER {
            assert(all[held.len() as int] == entry.1);
        }
    }
}

/// The buffers among completions have ids below `limit`, exactly when each
/// completion holds no buffer or such a one.
proof fn lemma_held_below(entries: Seq<(i32, u16)>, limit: u16)
    ensures
        (forall|at: int|
            0 <= at < entries.len() ==> recv::held_below(#[trigger] entries[at], limit)) <==> (
        forall|at: int|
            0 <= at < held_buffers(entries).len() ==> #[trigger] held_buffers(entries)[at] < limit),
    decreases entries.len(),
{
    if entries.len() > 0 {
        let front = entries.drop_last();
        let ids = held_buffers(front);
        lemma_held_below(front, limit);
        let all = held_buffers(entries);
        assert forall|at: int|
            #![trigger front[at]]
            #![trigger entries[at]]
            0 <= at < front.len() implies front[at] == entries[at] by {}
        assert forall|at: int|
            #![trigger ids[at]]
            #![trigger all[at]]
            0 <= at < ids.len() implies ids[at] == all[at] by {}
        assert(entries[entries.len() - 1] == entries.last());
        if entries.last().1 != NO_BUFFER {
            assert(all[ids.len() as int] == entries.last().1);
        }
    }
}

/// Giving buffers back changes neither the number of buffers nor whether there
/// is a pool.
proof fn lemma_recycling_keeps_the_pool(driver: DriverState, ids: Seq<u16>)
    requires
        driver.pool matches Some(pool) ==> pool.entries() > 0,
    ensures
        driver.recycled_all(ids).pool is Some <==> driver.pool is Some,
        driver.pool matches Some(pool) ==> driver.recycled_all(ids).pool->0.entries()
            == pool.entries(),
        forall|id: u16| #[trigger]
            driver.recycled_all(ids).takes_back(id) == driver.takes_back(id),
    decreases ids.len(),
{
    if ids.len() > 0 {
        lemma_recycling_keeps_the_pool(driver, ids.drop_last());
        if let Some(pool) = driver.recycled_all(ids.drop_last()).pool {
            vstd::arithmetic::div_mod::lemma_mod_bound(
                pool.ring.tail as int,
                pool.entries() as int,
            );
        }
    }
}

/// Empties a gone recv stream's FIFO, giving the buffers in it back.
fn drain_recvs(driver: &mut DriverType, slab: &mut RecvMultishotSlab, key: RecvMultishotSlotKey)
    requires
        old(driver).wf(),
        old(slab).wf(),
        forall|at: int|
            0 <= at < held_buffers(old(slab)@.queued(key)).len() ==> old(driver)@.takes_back(
                #[trigger] held_buffers(old(slab)@.queued(key))[at],
            ),
    ensures
        final(driver).wf(),
        final(slab).wf(),
        final(slab)@ == old(slab)@.drained(key),
        final(driver)@ == old(driver)@.recycled_all(held_buffers(old(slab)@.queued(key))),
{
    let ghost mut taken: Seq<(i32, u16)> = Seq::empty();
    let ghost all = slab@.queued(key);
    proof {
        assert(taken + all =~= all);
        old(driver).pool_is_valid();
    }
    loop
        invariant
            old(driver)@.pool matches Some(pool) ==> pool.entries() > 0,
            driver.wf(),
            slab.wf(),
            slab@.live(key) == old(slab)@.live(key),
            slab@.drained(key) == old(slab)@.drained(key),
            !slab@.live(key) ==> slab@ == old(slab)@,
            all == old(slab)@.queued(key),
            all == taken + slab@.queued(key),
            driver@ == old(driver)@.recycled_all(held_buffers(taken)),
            forall|at: int|
                0 <= at < held_buffers(all).len() ==> old(driver)@.takes_back(
                    #[trigger] held_buffers(all)[at],
                ),
        ensures
            slab@.queued(key).len() == 0,
            driver.wf(),
            slab.wf(),
            slab@.live(key) == old(slab)@.live(key),
            slab@.drained(key) == old(slab)@.drained(key),
            !slab@.live(key) ==> slab@ == old(slab)@,
            all == taken + slab@.queued(key),
            driver@ == old(driver)@.recycled_all(held_buffers(taken)),
        decreases slab@.queued(key).len(),
    {
        let ghost before = slab@;
        match slab.pop(key) {
            Some((result, buf_id)) => {
                let ghost next = taken.push((result, buf_id));
                proof {
                    assert(before.queued(key)[0] == (result, buf_id));
                    assert(slab@.queued(key) =~= before.queued(key).drop_first());
                    assert(slab@.drained(key).slots =~= before.drained(key).slots);
                    assert(next.drop_last() =~= taken);
                    assert(taken + before.queued(key) =~= next + slab@.queued(key));
                    lemma_recycling_keeps_the_pool(old(driver)@, held_buffers(taken));
                    lemma_held_prefix(next, slab@.queued(key));
                }
                if buf_id != NO_BUFFER {
                    proof {
                        let ids = held_buffers(next);
                        assert(ids.last() == buf_id);
                        assert(held_buffers(all)[ids.len() - 1] == buf_id);
                        assert(ids.drop_last() =~= held_buffers(taken));
                    }
                    recycle_provided(driver, Some(buf_id));
                }
                proof {
                    taken = next;
                }
            },
            None => {
                break;
            },
        }
    }
    proof {
        assert(all =~= taken);
        if slab@.live(key) {
            assert(slab@.slots[key.slot as int].queue =~= Seq::<(i32, u16)>::empty());
            assert(slab@.slots =~= slab@.drained(key).slots);
        }
    }
}

/// The buffers of a prefix are a prefix of the buffers.
proof fn lemma_held_prefix(front: Seq<(i32, u16)>, back: Seq<(i32, u16)>)
    ensures
        held_buffers(front).len() <= held_buffers(front + back).len(),
        forall|at: int|
            0 <= at < held_buffers(front).len() ==> held_buffers(front + back)[at]
                == #[trigger] held_buffers(front)[at],
    decreases back.len(),
{
    if back.len() == 0 {
        assert(front + back =~= front);
    } else {
        lemma_held_prefix(front, back.drop_last());
        assert((front + back).drop_last() =~= front + back.drop_last());
        assert((front + back).last() == back.last());
    }
}

/// Submits a cancel for a dropped single-shot accept.
///
/// The accept op holds no slab slot, so this only submits a cancel targeting
/// the op by its `user_data` token and records the token in `accepts`. A
/// completion arriving after the cancel disposes the accepted fd through
/// [`dispose_cancelled_accept`] rather than orphaning it in the wake slot; the
/// cancel's own completion decodes to a slot no registry owns, so
/// [`reclaim_cancel_completion`] treats it as a no-op.
pub fn submit_accept_cancel<const N: usize>(
    driver: &mut DriverType,
    accepts: &mut AcceptCancelSet<N>,
    key: InflightSlotKey,
)
    requires
        old(driver).wf(),
        old(accepts).wf(),
    ensures
        final(driver).wf(),
        final(accepts).wf(),
        final(accepts)@ == token_set::recorded(old(accepts)@, key.op_token, N as nat),
        final(driver)@ == old(driver)@.submitted(slotted_cancel(key)),
{
    accepts.insert(key.op_token);
    submit_tagged_cancel(driver, key);
}

/// Submits a cancel for a dropped provided-buffer recv.
///
/// The recv holds no slab slot, so this only records the token in `cancels` and
/// submits a cancel targeting the op by its `user_data` token. A completion
/// arriving after the cancel routes through [`dispose_cancelled_op`], which
/// recycles the kernel-selected buffer the dropped future will never take.
pub fn submit_provided_recv_cancel<const N: usize>(
    driver: &mut DriverType,
    cancels: &mut ProvidedRecvCancelSet<N>,
    key: InflightSlotKey,
)
    requires
        old(driver).wf(),
        old(cancels).wf(),
    ensures
        final(driver).wf(),
        final(cancels).wf(),
        final(cancels)@ == token_set::recorded(old(cancels)@, key.op_token, N as nat),
        final(driver)@ == old(driver)@.submitted(slotted_cancel(key)),
{
    cancels.insert(key.op_token);
    submit_tagged_cancel(driver, key);
}

/// Submits a cancel for a dropped single-shot connect.
///
/// The connect holds no slab slot, so this only records the token in `connects`
/// and submits a cancel targeting the op by its `user_data` token. A completion
/// arriving after the cancel routes through [`dispose_cancelled_op`], which
/// disposes nothing -- a connect owns no descriptor -- but diverts the
/// completion off the task-token path.
pub fn submit_connect_cancel<const N: usize>(
    driver: &mut DriverType,
    connects: &mut ConnectCancelSet<N>,
    key: InflightSlotKey,
)
    requires
        old(driver).wf(),
        old(connects).wf(),
    ensures
        final(driver).wf(),
        final(connects).wf(),
        final(connects)@ == token_set::recorded(old(connects)@, key.op_token, N as nat),
        final(driver)@ == old(driver)@.submitted(slotted_cancel(key)),
{
    connects.insert(key.op_token);
    submit_tagged_cancel(driver, key);
}

/// The mechanism that owns a queued cancel's op.
pub enum CancelRoute {
    /// The multishot registry.
    Multishot,
    /// The slotless single-shot accepts.
    Accept,
    /// The slotless provided-buffer recvs.
    ProvidedRecv,
    /// The slotless single-shot connects.
    Connect,
    /// The in-flight buffer registry.
    Inflight,
}

/// The mechanism that owns the op `key` names: a multishot sentinel in the
/// token, else a class marker in the slot, else the slot itself.
pub open spec fn cancel_route(key: InflightSlotKey) -> CancelRoute {
    if token::names_multishot(key.op_token) {
        CancelRoute::Multishot
    } else if key.slot == ACCEPT_CANCEL_SLOT {
        CancelRoute::Accept
    } else if key.slot == PROVIDED_RECV_CANCEL_SLOT {
        CancelRoute::ProvidedRecv
    } else if key.slot == CONNECT_CANCEL_SLOT {
        CancelRoute::Connect
    } else {
        CancelRoute::Inflight
    }
}

/// Routes a queued cancel to the mechanism that owns its op.
///
/// A cancel whose `op_token` is a multishot sentinel targets the multishot
/// registry; the accept marker targets a slotless single-shot accept; the
/// provided-recv marker targets a slotless provided-buffer recv; the connect
/// marker targets a slotless single-shot connect; every other cancel is a
/// buffered op's in-flight slot.
pub fn submit_cancel_for<const A: usize, const P: usize, const C: usize>(
    driver: &mut DriverType,
    inflight: &mut InflightBufSlab,
    multishot: &mut MultishotSlab,
    accepts: &mut AcceptCancelSet<A>,
    provided_recvs: &mut ProvidedRecvCancelSet<P>,
    connects: &mut ConnectCancelSet<C>,
    closing: &mut Vec<i32>,
    key: InflightSlotKey,
)
    requires
        old(driver).wf(),
        old(inflight).wf(),
        old(multishot).wf(),
        old(accepts).wf(),
        old(provided_recvs).wf(),
        old(connects).wf(),
    ensures
        final(driver).wf(),
        final(inflight).wf(),
        final(multishot).wf(),
        final(accepts).wf(),
        final(provided_recvs).wf(),
        final(connects).wf(),
        final(driver)@ == old(driver)@.submitted(
            if cancel_route(key) is Multishot {
                operation::cancel_request(key.op_token, key.op_token)
            } else {
                slotted_cancel(key)
            },
        ),
        final(inflight)@ == (if cancel_route(key) is Inflight {
            old(inflight)@.retiring(key)
        } else {
            old(inflight)@
        }),
        final(multishot)@ == (if cancel_route(key) is Multishot {
            old(multishot)@.drained(multishot_key(key)).cancelling(multishot_key(key))
        } else {
            old(multishot)@
        }),
        final(closing)@ == (if cancel_route(key) is Multishot {
            old(closing)@ + disposed_fds(old(multishot)@.queued(multishot_key(key)))
        } else {
            old(closing)@
        }),
        final(accepts)@ == (if cancel_route(key) is Accept {
            token_set::recorded(old(accepts)@, key.op_token, A as nat)
        } else {
            old(accepts)@
        }),
        final(provided_recvs)@ == (if cancel_route(key) is ProvidedRecv {
            token_set::recorded(old(provided_recvs)@, key.op_token, P as nat)
        } else {
            old(provided_recvs)@
        }),
        final(connects)@ == (if cancel_route(key) is Connect {
            token_set::recorded(old(connects)@, key.op_token, C as nat)
        } else {
            old(connects)@
        }),
{
    if is_multishot_sentinel(key.op_token) {
        submit_multishot_cancel(driver, multishot, closing, key);
    } else if key.slot == ACCEPT_CANCEL_SLOT {
        submit_accept_cancel(driver, accepts, key);
    } else if key.slot == PROVIDED_RECV_CANCEL_SLOT {
        submit_provided_recv_cancel(driver, provided_recvs, key);
    } else if key.slot == CONNECT_CANCEL_SLOT {
        submit_connect_cancel(driver, connects, key);
    } else {
        submit_cancel(driver, inflight, key);
    }
}

/// The dropped op a task-token completion belongs to.
pub enum DroppedOp {
    /// None: the completion is a live future's.
    Live,
    /// A dropped single-shot accept.
    Accept,
    /// A dropped provided-buffer recv.
    ProvidedRecv,
    /// A dropped single-shot connect.
    Connect,
}

/// The dropped op a task-token completion belongs to.
///
/// A completion with a buffer is a provided recv's. One without is checked
/// against the connects, which own nothing; then, for an end-of-stream `0`,
/// against the provided recvs, since adopted as an accept result it would close
/// descriptor zero; then against the accepts; and last against the provided
/// recvs.
pub open spec fn dropped_op(
    accepts: Multiset<u64>,
    provided_recvs: Multiset<u64>,
    connects: Multiset<u64>,
    token: u64,
    result: i32,
    buf_id: Option<u16>,
) -> DroppedOp {
    if buf_id is Some {
        if provided_recvs.contains(token) {
            DroppedOp::ProvidedRecv
        } else {
            DroppedOp::Live
        }
    } else if connects.contains(token) {
        DroppedOp::Connect
    } else if result == 0 && provided_recvs.contains(token) {
        DroppedOp::ProvidedRecv
    } else if accepts.contains(token) {
        DroppedOp::Accept
    } else if provided_recvs.contains(token) {
        DroppedOp::ProvidedRecv
    } else {
        DroppedOp::Live
    }
}

/// What becomes of a task-token completion: whether it is consumed, the dropped
/// ops still awaited, the descriptors to close, and the buffer to give back.
pub struct Disposal {
    /// A dropped op took the completion.
    pub consumed: bool,
    /// Dropped accepts still awaited.
    pub accepts: Multiset<u64>,
    /// Dropped provided recvs still awaited.
    pub provided_recvs: Multiset<u64>,
    /// Dropped connects still awaited.
    pub connects: Multiset<u64>,
    /// Descriptors nobody will take.
    pub closing: Seq<i32>,
    /// Buffer nobody will take.
    pub recycled: Option<u16>,
}

/// Disposes a task-token completion: the dropped op it belongs to is no longer
/// awaited, and what that op owned is given up.
pub open spec fn disposal(
    accepts: Multiset<u64>,
    provided_recvs: Multiset<u64>,
    connects: Multiset<u64>,
    token: u64,
    result: i32,
    buf_id: Option<u16>,
) -> Disposal {
    let op = dropped_op(accepts, provided_recvs, connects, token, result, buf_id);
    Disposal {
        consumed: !(op is Live),
        accepts: if op is Accept {
            accepts.remove(token)
        } else {
            accepts
        },
        provided_recvs: if op is ProvidedRecv {
            provided_recvs.remove(token)
        } else {
            provided_recvs
        },
        connects: if op is Connect {
            connects.remove(token)
        } else {
            connects
        },
        closing: if op is Accept {
            disposed_fd(result)
        } else {
            Seq::empty()
        },
        recycled: if op is ProvidedRecv {
            buf_id
        } else {
            None
        },
    }
}

/// Disposes a task-token completion that a dropped accept, connect or provided
/// recv will never take.
///
/// The completion drain calls this on every task-token completion, before the
/// result is stored and the task woken. A completion carrying a kernel-selected
/// buffer id is definitively a provided recv's, so when its token names a
/// dropped recv, the buffer recycles into the driver's pool. A bufferless
/// completion checks the dropped connects, then the dropped accepts (a
/// nonnegative accept result is a descriptor to close), then the dropped
/// provided recvs (an end-of-stream or error completion, nothing to recycle).
/// Returns whether it consumed the completion.
///
/// One task dropping an in-flight accept AND an in-flight provided recv shares
/// one token across both sets, and a bufferless completion then cannot name its
/// op. An end-of-stream `0` is taken by the provided set first, so the residue
/// is a misrouted disposal, never an unrelated close. A buffer that is recycled
/// must be one of the pool's.
pub fn dispose_cancelled_op<const A: usize, const P: usize, const C: usize>(
    driver: &mut DriverType,
    accepts: &mut AcceptCancelSet<A>,
    provided_recvs: &mut ProvidedRecvCancelSet<P>,
    connects: &mut ConnectCancelSet<C>,
    closing: &mut Vec<i32>,
    token: u64,
    result: i32,
    buf_id: Option<u16>,
) -> (consumed: bool)
    requires
        old(driver).wf(),
        old(accepts).wf(),
        old(provided_recvs).wf(),
        old(connects).wf(),
        disposal(
            old(accepts)@,
            old(provided_recvs)@,
            old(connects)@,
            token,
            result,
            buf_id,
        ).recycled matches Some(id) ==> old(driver)@.takes_back(id),
    ensures
        final(driver).wf(),
        final(accepts).wf(),
        final(provided_recvs).wf(),
        final(connects).wf(),
        ({
            let disposal = disposal(
                old(accepts)@,
                old(provided_recvs)@,
                old(connects)@,
                token,
                result,
                buf_id,
            );
            &&& consumed == disposal.consumed
            &&& final(accepts)@ == disposal.accepts
            &&& final(provided_recvs)@ == disposal.provided_recvs
            &&& final(connects)@ == disposal.connects
            &&& final(closing)@ == old(closing)@ + disposal.closing
            &&& final(driver)@ == (match disposal.recycled {
                Some(id) => old(driver)@.recycled(id),
                None => old(driver)@,
            })
        }),
{
    proof {
        lemma_empty_set_has_nothing(old(provided_recvs)@, token);
    }
    assert(closing@ + Seq::<i32>::empty() =~= closing@);
    if let Some(id) = buf_id {
        if provided_recvs.is_empty() || !provided_recvs.take(token) {
            return false;
        }
        driver.recycle(id);
        return true;
    }
    if dispose_cancelled_connect(connects, token) {
        return true;
    }
    if result == 0 && !provided_recvs.is_empty() && provided_recvs.take(token) {
        return true;
    }
    if dispose_cancelled_accept(accepts, closing, token, result) {
        return true;
    }
    !provided_recvs.is_empty() && provided_recvs.take(token)
}

/// Disposes a task-token completion as [`dispose_cancelled_op`] does, or refuses
/// it.
///
/// A completion whose buffer would be recycled but is not one of the pool's is
/// refused with `None`, and nothing changes.
pub fn try_dispose_cancelled_op<const A: usize, const P: usize, const C: usize>(
    driver: &mut DriverType,
    accepts: &mut AcceptCancelSet<A>,
    provided_recvs: &mut ProvidedRecvCancelSet<P>,
    connects: &mut ConnectCancelSet<C>,
    closing: &mut Vec<i32>,
    token: u64,
    result: i32,
    buf_id: Option<u16>,
) -> (consumed: Option<bool>)
    requires
        old(driver).wf(),
        old(accepts).wf(),
        old(provided_recvs).wf(),
        old(connects).wf(),
    ensures
        final(driver).wf(),
        final(accepts).wf(),
        final(provided_recvs).wf(),
        final(connects).wf(),
        ({
            let disposal = disposal(
                old(accepts)@,
                old(provided_recvs)@,
                old(connects)@,
                token,
                result,
                buf_id,
            );
            let unknown = disposal.recycled matches Some(id) && !old(driver)@.takes_back(id);
            if unknown {
                &&& consumed is None
                &&& final(accepts)@ == old(accepts)@
                &&& final(provided_recvs)@ == old(provided_recvs)@
                &&& final(connects)@ == old(connects)@
                &&& final(closing)@ == old(closing)@
                &&& final(driver)@ == old(driver)@
            } else {
                &&& consumed == Some(disposal.consumed)
                &&& final(accepts)@ == disposal.accepts
                &&& final(provided_recvs)@ == disposal.provided_recvs
                &&& final(connects)@ == disposal.connects
                &&& final(closing)@ == old(closing)@ + disposal.closing
                &&& final(driver)@ == (match disposal.recycled {
                    Some(id) => old(driver)@.recycled(id),
                    None => old(driver)@,
                })
            }
        }),
{
    if let Some(id) = buf_id {
        if !driver.can_recycle(id) && provided_recvs.contains(token) {
            return None;
        }
    }
    Some(
        dispose_cancelled_op(
            driver,
            accepts,
            provided_recvs,
            connects,
            closing,
            token,
            result,
            buf_id,
        ),
    )
}

/// Reclaims the retire-pending slot whose op matches `op_token`, if any.
///
/// The completion drain calls this on every task-token completion. When the
/// owning future has dropped, the slot is retire-pending and its op's
/// completion frees it here -- that completion is the kernel's
/// done-with-the-bytes signal, for every cancel outcome. When the future is
/// still live no slot is retire-pending for that op, so this is a no-op and the
/// future frees through its own harvest path instead.
pub fn reclaim_dropped_slot(slab: &mut InflightBufSlab, op_token: u64)
    requires
        old(slab).wf(),
    ensures
        final(slab).wf(),
        final(slab)@ == old(slab)@.reclaimed(op_token),
{
    slab.free_by_op_token(op_token);
}

/// The result of a cancel whose target op is already gone (`-ENOENT`).
pub const CANCEL_TARGET_GONE: i32 = -2;

/// Reclaims a slot on a cancel completion whose target op is already gone.
///
/// The cancel op's own completion is normally not a free trigger: the original
/// op's completion frees the slot by `op_token` through
/// [`reclaim_dropped_slot`]. The one exception is `-ENOENT`, which means the
/// target op completed before the cancel was issued, so no op-token completion
/// is coming for this slot. Only then is the slot freed here, decoded from the
/// sentinel `user_data` and matched on its low 16 generation bits. Every other
/// result is a no-op, so a slot the kernel may still be writing is never freed
/// early.
pub fn reclaim_cancel_completion(slab: &mut InflightBufSlab, sentinel_user_data: u64, result: i32)
    requires
        old(slab).wf(),
    ensures
        final(slab).wf(),
        final(slab)@ == (if result == CANCEL_TARGET_GONE {
            old(slab)@.cancelled(
                token::sentinel_slot(sentinel_user_data),
                token::sentinel_generation(sentinel_user_data),
            )
        } else {
            old(slab)@
        }),
{
    if result != CANCEL_TARGET_GONE {
        return;
    }
    let slot: u16 = (sentinel_user_data % 0x1_0000) as u16;
    let generation_low16: u16 = (sentinel_user_data / 0x1_0000 % 0x1_0000) as u16;
    slab.free_if_retire_pending(slot, generation_low16);
}

/// Marks the slot for `op_token` as awaiting its `SEND_ZC` notification.
///
/// The completion drain calls this on a primary completion that carried
/// `IORING_CQE_F_MORE`, which means a notification releasing the buffer is
/// still coming. Until it lands the kernel may still read the buffer, so a
/// racing `-ENOENT` cancel must not free the slot. A no-op when the op's slot
/// is not tracked here.
pub fn mark_notif_expected(slab: &mut InflightBufSlab, op_token: u64)
    requires
        old(slab).wf(),
    ensures
        final(slab).wf(),
        final(slab)@ == old(slab)@.notif_expected(op_token),
{
    slab.mark_notif_expected_by_op_token(op_token);
}

/// Reclaims or arms a `SEND_ZC` slot on its notification.
///
/// The completion drain calls this on a notification: the kernel has released
/// the buffer. A dropped future left its slot retire-pending, so the slot is
/// freed now -- the notification is the last signal for that slot. A still-live
/// future has no retire-pending slot for the op, so the slot is marked
/// notif-ready instead, and the future frees it on its next poll.
pub fn reclaim_notif(slab: &mut InflightBufSlab, op_token: u64)
    requires
        old(slab).wf(),
    ensures
        final(slab).wf(),
        final(slab)@ == (if old(slab)@.has_retiring(op_token) {
            old(slab)@.reclaimed(op_token)
        } else {
            old(slab)@.notif_ready(op_token)
        }),
{
    if !slab.free_by_op_token(op_token) {
        slab.mark_notif_ready_by_op_token(op_token);
    }
}

} // verus!
