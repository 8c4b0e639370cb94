//! What each call of the completion drain does, in terms of what goes in and
//! what comes out.

use vstd::prelude::*;

use crate::boundary::cancel::token_set::{AcceptCancelSet, ConnectCancelSet, ProvidedRecvCancelSet};
use crate::boundary::seam::drain;
use crate::boundary::seam::drain::{
    MultishotCompletion, dispose_cancelled_accept, dispose_cancelled_connect, dispose_cancelled_op,
    mark_notif_expected, push_multishot_completion, push_recv_multishot_completion,
    reclaim_cancel_completion, reclaim_dropped_slot, reclaim_notif, submit_accept_cancel,
    submit_cancel, submit_cancel_for, submit_connect_cancel, submit_multishot_cancel,
    submit_provided_recv_cancel, submit_recv_multishot_cancel, try_dispose_cancelled_op,
    try_push_recv_multishot_completion, try_submit_recv_multishot_cancel,
};
use crate::boundary::seam::state::{IoSeam, RecvMultishotAlloc};
use crate::buffer::multishot::accept::{MultishotSlab, MultishotSlot, MultishotSlots};
use crate::buffer::multishot::recv::{
    RecvMultishotSlab, RecvMultishotSlotKey, RecvSlot, RecvSlots,
};
use crate::buffer::oneshot::inflight::{
    InflightBufSlab, InflightSlot, InflightSlotKey, InflightSlots,
};
use crate::buffer::ring::pool::PoolState;
use crate::buffer::scan;
use crate::driver;
use crate::driver::{DriverState, DriverType};
use crate::operation::{IoOp, IoRequest, SubmitToken};

verus! {

/// The backend went from `before` to `after` by being asked to cancel the op
/// `target`: with room the request is queued last, without it nothing happens.
pub open spec fn asked_to_cancel(
    before: DriverState,
    after: DriverState,
    target: u64,
    user_data: u64,
) -> bool {
    let room = before.ring && before.queue.len() < before.capacity;
    &&& room ==> after == (DriverState {
        queue: before.queue + seq![
            IoRequest { op: IoOp::Cancel { target: SubmitToken(target) }, user_data },
        ],
        ..before
    })
    &&& !room ==> after == before
}

/// The backend went from `before` to `after` by being given the buffer `given`
/// back, which its pool then offers at the tail of its ring; without a buffer,
/// or without a pool, nothing happens.
pub open spec fn given_back(before: DriverState, after: DriverState, given: Option<u16>) -> bool {
    &&& given is None ==> after == before
    &&& before.pool is None ==> after == before
    &&& given matches Some(id) ==> (before.pool matches Some(pool) ==> {
        let at = pool.ring.tail as int % pool.ring.offered.len() as int;
        &&& after == (DriverState { pool: after.pool, ..before })
        &&& after.pool matches Some(offering) && offering == (PoolState {
            ring: offering.ring,
            ..pool
        }) && offering.ring.offered.len() == pool.ring.offered.len()
            && offering.ring.offered[at].bid == id && offering.ring.tail == (pool.ring.tail + 1)
            % 0x1_0000 && forall|index: int|
            0 <= index < pool.ring.offered.len() && index != at
                ==> #[trigger] offering.ring.offered[index] == pool.ring.offered[index]
    })
}

/// Every slot but `at` of an accept registry is as it was.
pub open spec fn others_kept(before: MultishotSlots, after: MultishotSlots, at: int) -> bool {
    &&& after.worker_id == before.worker_id
    &&& after.slots.len() == before.slots.len()
    &&& forall|other: int|
        0 <= other < before.slots.len() && other != at ==> #[trigger] after.slots[other]
            == before.slots[other]
}

/// Every slot but `at` of a recv registry is as it was.
pub open spec fn recv_others_kept(before: RecvSlots, after: RecvSlots, at: int) -> bool {
    &&& after.worker_id == before.worker_id
    &&& after.slots.len() == before.slots.len()
    &&& forall|other: int|
        0 <= other < before.slots.len() && other != at ==> #[trigger] after.slots[other]
            == before.slots[other]
}

/// Every slot but `at` of an in-flight registry is as it was.
pub open spec fn inflight_others_kept(before: InflightSlots, after: InflightSlots, at: int) -> bool {
    &&& after.worker_id == before.worker_id
    &&& after.slots.len() == before.slots.len()
    &&& forall|other: int|
        0 <= other < before.slots.len() && other != at ==> #[trigger] after.slots[other]
            == before.slots[other]
}

/// An accept completion reaches the slot its `user_data` names, if that slot is
/// occupied at the generation named. A live stream's result is queued last and
/// wakes the owner; one that finds no room, no stream or a dropped stream has
/// its descriptor closed, unless it is the final one, which carries none. The
/// final one ends the op: it retires the owner, marks a live stream's slot, and
/// frees a dropped one's.
pub proof fn an_accept_completion_is_queued_or_closed(
    slab: &mut MultishotSlab,
    closing: &mut Vec<i32>,
    user_data: u64,
    result: i32,
    flags: u32,
    targets: MultishotCompletion,
)
    requires
        old(slab).wf(),
        call_ensures(
            push_multishot_completion,
            (slab, closing, user_data, result, flags),
            targets,
        ),
    ensures
        final(slab).wf(),
        ({
            let before = old(slab)@;
            let after = final(slab)@;
            let at = user_data as int % 0x1_0000;
            let reached = at < before.slots.len() && before.slots[at].occupied
                && before.slots[at].generation % 0x1_0000 == user_data / 0x1_0000 % 0x1_0000;
            let dropped = reached && before.slots[at].cancel_pending;
            let is_more = flags / 2 % 2 == 1;
            let queue = before.slots[at].queue;
            let queued = reached && !dropped && queue.len() < 64;
            &&& targets.retire == (if reached && !is_more {
                Some(before.slots[at].owner_token)
            } else {
                None
            })
            &&& targets.wake == (if queued {
                Some(before.slots[at].owner_token)
            } else {
                None
            })
            &&& final(closing)@ == (if !queued && is_more && result >= 0 {
                old(closing)@ + seq![result]
            } else {
                old(closing)@
            })
            &&& !reached ==> after == before
            &&& dropped && is_more ==> after == before
            &&& dropped && !is_more ==> {
                &&& others_kept(before, after, at)
                &&& !after.slots[at].occupied
                &&& !after.slots[at].cancel_pending
                &&& !after.slots[at].terminated
                &&& after.slots[at].queue.len() == 0
                &&& after.slots[at].generation == (before.slots[at].generation + 1)
                    % 0x1_0000_0000_0000_0000
            }
            &&& reached && !dropped ==> {
                &&& others_kept(before, after, at)
                &&& after.slots[at] == (MultishotSlot {
                    terminated: before.slots[at].terminated || !is_more,
                    queue: if queue.len() < 64 {
                        queue + seq![result]
                    } else {
                        queue
                    },
                    ..before.slots[at]
                })
            }
        }),
{
    let queue = old(slab)@.slots[user_data as int % 0x1_0000].queue;
    assert(queue.push(result) =~= queue + seq![result]);
    assert(old(closing)@ + Seq::<i32>::empty() =~= old(closing)@);
}

/// A recv completion reaches the slot its `user_data` names, if that slot is
/// occupied at the generation named. A live stream's data is queued last, its
/// final completion kept beside the queue; either wakes the owner and leaves the
/// buffer to it. Data that finds no room, and whatever finds no stream or a
/// dropped one, gives its buffer back at once. The final completion ends the op:
/// it retires the owner, and frees a dropped stream's slot.
pub proof fn a_recv_completion_is_kept_or_given_back(
    slab: &mut RecvMultishotSlab,
    driver: &mut DriverType,
    user_data: u64,
    result: i32,
    flags: u32,
    buf_id: Option<u16>,
    targets: MultishotCompletion,
)
    requires
        old(slab).wf(),
        old(driver).wf(),
        call_ensures(
            push_recv_multishot_completion,
            (slab, driver, user_data, result, flags, buf_id),
            targets,
        ),
    ensures
        final(slab).wf(),
        final(driver).wf(),
        ({
            let before = old(slab)@;
            let after = final(slab)@;
            let at = user_data as int % 0x1_0000;
            let reached = at < before.slots.len() && before.slots[at].occupied
                && before.slots[at].generation % 0x1_0000 == user_data / 0x1_0000 % 0x1_0000;
            let dropped = reached && before.slots[at].cancel_pending;
            let is_more = flags / 2 % 2 == 1;
            let queue = before.slots[at].queue;
            let kept = reached && !dropped && (!is_more || queue.len() < 64);
            let stored: u16 = match buf_id {
                Some(id) => id,
                None => 0xFFFF,
            };
            &&& targets.retire == (if reached && !is_more {
                Some(before.slots[at].owner_token)
            } else {
                None
            })
            &&& targets.wake == (if kept {
                Some(before.slots[at].owner_token)
            } else {
                None
            })
            &&& given_back(
                old(driver)@,
                final(driver)@,
                if kept {
                    None
                } else {
                    buf_id
                },
            )
            &&& !reached || (dropped && is_more) ==> after == before
            &&& dropped && !is_more ==> {
                &&& recv_others_kept(before, after, at)
                &&& !after.slots[at].occupied
                &&& !after.slots[at].cancel_pending
                &&& !after.slots[at].terminated
                &&& after.slots[at].queue.len() == 0
                &&& after.slots[at].terminal is None
                &&& after.slots[at].generation == (before.slots[at].generation + 1)
                    % 0x1_0000_0000_0000_0000
            }
            &&& reached && !dropped ==> {
                &&& recv_others_kept(before, after, at)
                &&& !is_more ==> after.slots[at] == (RecvSlot {
                    terminated: true,
                    terminal: Some((result, stored)),
                    ..before.slots[at]
                })
                &&& is_more && queue.len() < 64 ==> after.slots[at] == (RecvSlot {
                    queue: queue + seq![(result, stored)],
                    ..before.slots[at]
                })
                &&& is_more && queue.len() >= 64 ==> after.slots[at] == before.slots[at]
            }
        }),
{
    let queue = old(slab)@.slots[user_data as int % 0x1_0000].queue;
    let stored: u16 = match buf_id {
        Some(id) => id,
        None => 0xFFFF,
    };
    assert(queue.push((result, stored)) =~= queue + seq![(result, stored)]);
    old(driver).pool_is_valid();
}

/// A completion that is refused changes nothing, and is refused only when its
/// buffer would have to be given back to a pool that does not have it; one that
/// is not refused is routed like any other.
pub proof fn a_recv_completion_is_refused_for_an_unknown_buffer_only(
    slab: &mut RecvMultishotSlab,
    driver: &mut DriverType,
    routed_slab: &mut RecvMultishotSlab,
    routed_driver: &mut DriverType,
    user_data: u64,
    result: i32,
    flags: u32,
    buf_id: Option<u16>,
    routed: Option<MultishotCompletion>,
    targets: MultishotCompletion,
)
    requires
        old(slab).wf(),
        old(driver).wf(),
        *old(routed_slab) == *old(slab),
        *old(routed_driver) == *old(driver),
        call_ensures(
            try_push_recv_multishot_completion,
            (slab, driver, user_data, result, flags, buf_id),
            routed,
        ),
        call_ensures(
            push_recv_multishot_completion,
            (routed_slab, routed_driver, user_data, result, flags, buf_id),
            targets,
        ),
    ensures
        ({
            let before = old(slab)@;
            let at = user_data as int % 0x1_0000;
            let reached = at < before.slots.len() && before.slots[at].occupied
                && before.slots[at].generation % 0x1_0000 == user_data / 0x1_0000 % 0x1_0000;
            let kept = reached && !before.slots[at].cancel_pending && (flags / 2 % 2 != 1
                || before.slots[at].queue.len() < 64);
            let unknown = old(driver)@.pool matches Some(pool) && (buf_id matches Some(id)
                && pool.ring.offered.len() <= id);
            &&& routed is None <==> !kept && unknown
            &&& routed is None ==> final(slab)@ == before && final(driver)@ == old(driver)@
            &&& routed matches Some(said) ==> said == targets
                && final(slab)@ == final(routed_slab)@
                && final(driver)@ == final(routed_driver)@
        }),
{
}

/// The late completion of a dropped accept takes its token out of the record and
/// has its descriptor closed, if it brought one; any other completion is left
/// alone.
pub proof fn a_dropped_accepts_descriptor_is_closed<const N: usize>(
    accepts: &mut AcceptCancelSet<N>,
    closing: &mut Vec<i32>,
    token: u64,
    result: i32,
    handled: bool,
)
    requires
        old(accepts).wf(),
        call_ensures(dispose_cancelled_accept::<N>, (accepts, closing, token, result), handled),
    ensures
        final(accepts).wf(),
        handled <==> old(accepts)@.count(token) > 0,
        !handled ==> final(accepts)@ == old(accepts)@ && final(closing)@ == old(closing)@,
        handled ==> {
            &&& final(accepts)@ == old(accepts)@.remove(token)
            &&& result >= 0 ==> final(closing)@ == old(closing)@ + seq![result]
            &&& result < 0 ==> final(closing)@ == old(closing)@
        },
{
    assert(old(closing)@ + Seq::<i32>::empty() =~= old(closing)@);
}

/// The late completion of a dropped connect takes its token out of the record,
/// and nothing else.
pub proof fn a_dropped_connect_is_only_forgotten<const N: usize>(
    connects: &mut ConnectCancelSet<N>,
    token: u64,
    handled: bool,
)
    requires
        old(connects).wf(),
        call_ensures(dispose_cancelled_connect::<N>, (connects, token), handled),
    ensures
        final(connects).wf(),
        handled <==> old(connects)@.count(token) > 0,
        !handled ==> final(connects)@ == old(connects)@,
        handled ==> final(connects)@ == old(connects)@.remove(token),
{
}

/// A task-token completion no future will take is consumed by one dropped op,
/// which is forgotten, and what it brought is given up there: a buffer goes back
/// to the pool for a dropped provided recv, and a descriptor is closed for a
/// dropped accept. A completion with a buffer is a provided recv's; one without
/// is a connect's before a provided recv's end, an accept's, and a provided
/// recv's. A completion no dropped op awaits changes nothing.
pub proof fn a_late_completion_is_given_up<const A: usize, const P: usize, const C: usize>(
    driver: &mut DriverType,
    accepts: &mut AcceptCancelSet<A>,
    provided_recvs: &mut ProvidedRecvCancelSet<P>,
    connects: &mut ConnectCancelSet<C>,
    closing: &mut Vec<i32>,
    token: u64,
    result: i32,
    buf_id: Option<u16>,
    consumed: bool,
)
    requires
        old(driver).wf(),
        old(accepts).wf(),
        old(provided_recvs).wf(),
        old(connects).wf(),
        call_ensures(
            dispose_cancelled_op::<A, P, C>,
            (driver, accepts, provided_recvs, connects, closing, token, result, buf_id),
            consumed,
        ),
    ensures
        ({
            let accept = old(accepts)@.count(token) > 0;
            let recv = old(provided_recvs)@.count(token) > 0;
            let connect = old(connects)@.count(token) > 0;
            let as_connect = buf_id is None && connect;
            let as_recv = recv && (buf_id is Some || (!connect && (result == 0 || !accept)));
            let as_accept = buf_id is None && accept && !connect && !(result == 0 && recv);
            &&& consumed == (as_connect || as_recv || as_accept)
            &&& final(accepts)@ == (if as_accept {
                old(accepts)@.remove(token)
            } else {
                old(accepts)@
            })
            &&& final(provided_recvs)@ == (if as_recv {
                old(provided_recvs)@.remove(token)
            } else {
                old(provided_recvs)@
            })
            &&& final(connects)@ == (if as_connect {
                old(connects)@.remove(token)
            } else {
                old(connects)@
            })
            &&& final(closing)@ == (if as_accept && result >= 0 {
                old(closing)@ + seq![result]
            } else {
                old(closing)@
            })
            &&& given_back(
                old(driver)@,
                final(driver)@,
                if as_recv {
                    buf_id
                } else {
                    None
                },
            )
        }),
{
    assert(old(closing)@ + Seq::<i32>::empty() =~= old(closing)@);
    old(driver).pool_is_valid();
}

/// A late completion that is refused changes nothing, and is refused only when
/// it is a dropped provided recv's and the pool does not have its buffer; one
/// that is not refused is disposed of like any other.
pub proof fn a_late_completion_is_refused_for_an_unknown_buffer_only<
    const A: usize,
    const P: usize,
    const C: usize,
>(
    driver: &mut DriverType,
    accepts: &mut AcceptCancelSet<A>,
    provided_recvs: &mut ProvidedRecvCancelSet<P>,
    connects: &mut ConnectCancelSet<C>,
    closing: &mut Vec<i32>,
    token: u64,
    result: i32,
    buf_id: Option<u16>,
    consumed: Option<bool>,
)
    requires
        old(driver).wf(),
        old(accepts).wf(),
        old(provided_recvs).wf(),
        old(connects).wf(),
        call_ensures(
            try_dispose_cancelled_op::<A, P, C>,
            (driver, accepts, provided_recvs, connects, closing, token, result, buf_id),
            consumed,
        ),
    ensures
        ({
            let accept = old(accepts)@.count(token) > 0;
            let recv = old(provided_recvs)@.count(token) > 0;
            let connect = old(connects)@.count(token) > 0;
            let unknown = recv && (old(driver)@.pool matches Some(pool) && (buf_id matches Some(id)
                && pool.ring.offered.len() <= id));
            let as_connect = buf_id is None && connect;
            let as_recv = recv && !unknown && (buf_id is Some || (!connect && (result == 0
                || !accept)));
            let as_accept = buf_id is None && accept && !connect && !(result == 0 && recv);
            &&& consumed == (if unknown {
                None
            } else {
                Some(as_connect || as_recv || as_accept)
            })
            &&& final(accepts)@ == (if as_accept {
                old(accepts)@.remove(token)
            } else {
                old(accepts)@
            })
            &&& final(provided_recvs)@ == (if as_recv {
                old(provided_recvs)@.remove(token)
            } else {
                old(provided_recvs)@
            })
            &&& final(connects)@ == (if as_connect {
                old(connects)@.remove(token)
            } else {
                old(connects)@
            })
            &&& final(closing)@ == (if as_accept && result >= 0 {
                old(closing)@ + seq![result]
            } else {
                old(closing)@
            })
            &&& given_back(
                old(driver)@,
                final(driver)@,
                if as_recv {
                    buf_id
                } else {
                    None
                },
            )
        }),
{
    assert(old(closing)@ + Seq::<i32>::empty() =~= old(closing)@);
    old(driver).pool_is_valid();
}

/// A dropped buffered op's slot is marked and kept, and the kernel is asked to
/// cancel the very op its token names: the whole token, under a tag that leads
/// the cancel's own completion back to the slot.
pub proof fn a_dropped_op_is_cancelled_by_its_whole_token(
    driver: &mut DriverType,
    slab: &mut InflightBufSlab,
    key: InflightSlotKey,
)
    requires
        old(driver).wf(),
        old(slab).wf(),
        call_ensures(submit_cancel, (driver, slab, key), ()),
    ensures
        final(driver).wf(),
        final(slab).wf(),
        asked_to_cancel(
            old(driver)@,
            final(driver)@,
            key.op_token,
            (0xFFFF_FFFF_0000_0000 + key.generation % 0x1_0000 * 0x1_0000 + key.slot) as u64,
        ),
        ({
            let before = old(slab)@;
            let after = final(slab)@;
            let at = key.slot as int;
            let named = key.worker_id == before.worker_id && key.slot < before.slots.len()
                && before.slots[at].occupied && before.slots[at].generation == key.generation;
            &&& !named ==> after == before
            &&& named ==> inflight_others_kept(before, after, at) && after.slots[at] == (
            InflightSlot { retire_pending: true, ..before.slots[at] })
        }),
{
    let request = drain::slotted_cancel(key);
    assert(old(driver)@.queue.push(request) =~= old(driver)@.queue + seq![request]);
}

/// A dropped op without a slot is recorded by its token, while there is room for
/// the record, and the kernel is asked to cancel the very op the token names.
pub proof fn a_slotless_op_is_recorded_and_cancelled<
    const A: usize,
    const P: usize,
    const C: usize,
>(
    accept_driver: &mut DriverType,
    accepts: &mut AcceptCancelSet<A>,
    recv_driver: &mut DriverType,
    provided_recvs: &mut ProvidedRecvCancelSet<P>,
    connect_driver: &mut DriverType,
    connects: &mut ConnectCancelSet<C>,
    key: InflightSlotKey,
)
    requires
        old(accept_driver).wf(),
        old(accepts).wf(),
        old(recv_driver).wf(),
        old(provided_recvs).wf(),
        old(connect_driver).wf(),
        old(connects).wf(),
        call_ensures(submit_accept_cancel::<A>, (accept_driver, accepts, key), ()),
        call_ensures(submit_provided_recv_cancel::<P>, (recv_driver, provided_recvs, key), ()),
        call_ensures(submit_connect_cancel::<C>, (connect_driver, connects, key), ()),
    ensures
        ({
            let tag = (0xFFFF_FFFF_0000_0000 + key.generation % 0x1_0000 * 0x1_0000
                + key.slot) as u64;
            &&& asked_to_cancel(old(accept_driver)@, final(accept_driver)@, key.op_token, tag)
            &&& asked_to_cancel(old(recv_driver)@, final(recv_driver)@, key.op_token, tag)
            &&& asked_to_cancel(old(connect_driver)@, final(connect_driver)@, key.op_token, tag)
        }),
        final(accepts)@ == (if old(accepts)@.len() < A {
            old(accepts)@.insert(key.op_token)
        } else {
            old(accepts)@
        }),
        final(provided_recvs)@ == (if old(provided_recvs)@.len() < P {
            old(provided_recvs)@.insert(key.op_token)
        } else {
            old(provided_recvs)@
        }),
        final(connects)@ == (if old(connects)@.len() < C {
            old(connects)@.insert(key.op_token)
        } else {
            old(connects)@
        }),
{
    let request = drain::slotted_cancel(key);
    assert(old(accept_driver)@.queue.push(request) =~= old(accept_driver)@.queue + seq![request]);
    assert(old(recv_driver)@.queue.push(request) =~= old(recv_driver)@.queue + seq![request]);
    assert(old(connect_driver)@.queue.push(request) =~= old(connect_driver)@.queue + seq![request]);
}

/// A dropped accept stream's slot is marked and emptied, every descriptor that
/// waited in it is closed, in order, and the kernel is asked to cancel the very
/// op the token names.
pub proof fn a_dropped_accept_stream_is_emptied_and_cancelled(
    driver: &mut DriverType,
    slab: &mut MultishotSlab,
    closing: &mut Vec<i32>,
    key: InflightSlotKey,
)
    requires
        old(driver).wf(),
        old(slab).wf(),
        call_ensures(submit_multishot_cancel, (driver, slab, closing, key), ()),
    ensures
        final(driver).wf(),
        final(slab).wf(),
        asked_to_cancel(old(driver)@, final(driver)@, key.op_token, key.op_token),
        ({
            let before = old(slab)@;
            let after = final(slab)@;
            let at = key.slot as int;
            let named = key.worker_id == before.worker_id && key.slot < before.slots.len()
                && before.slots[at].occupied && before.slots[at].generation == key.generation;
            &&& !named ==> after == before && final(closing)@ == old(closing)@
            &&& named ==> {
                &&& others_kept(before, after, at)
                &&& after.slots[at] == (MultishotSlot {
                    cancel_pending: true,
                    queue: Seq::empty(),
                    ..before.slots[at]
                })
                &&& final(closing)@ == old(closing)@ + before.slots[at].queue.filter(
                    |result: i32| result >= 0,
                )
            }
        }),
{
    let request = IoRequest {
        op: IoOp::Cancel { target: SubmitToken(key.op_token) },
        user_data: key.op_token,
    };
    assert(old(driver)@.queue.push(request) =~= old(driver)@.queue + seq![request]);
    let handle = drain::multishot_key(key);
    crate::boundary::seam::laws::cancel_closes_every_queued_descriptor(old(slab)@.queued(handle));
    assert(old(closing)@ + Seq::<i32>::empty() =~= old(closing)@);
    if !old(slab)@.live(handle) {
        assert(drain::disposed_fds(old(slab)@.queued(handle)) =~= Seq::<i32>::empty());
    } else {
        assert(final(slab)@.slots[key.slot as int] =~= (MultishotSlot {
            cancel_pending: true,
            queue: Seq::empty(),
            ..old(slab)@.slots[key.slot as int]
        }));
    }
}

/// The ids among a stream's completions, in order, are those of the completions
/// that hold a buffer.
proof fn lemma_held_ids(entries: Seq<(i32, u16)>)
    ensures
        drain::held_buffers(entries) == entries.filter(
            |entry: (i32, u16)| entry.1 != 0xFFFF,
        ).map_values(|entry: (i32, u16)| entry.1),
    decreases entries.len(),
{
    reveal(Seq::filter);
    let holds = |entry: (i32, u16)| entry.1 != 0xFFFF;
    let id = |entry: (i32, u16)| entry.1;
    if entries.len() > 0 {
        lemma_held_ids(entries.drop_last());
        let kept = entries.drop_last().filter(holds);
        if holds(entries.last()) {
            assert(kept.push(entries.last()).map_values(id) =~= kept.map_values(id).push(
                entries.last().1,
            ));
        }
    }
    assert(drain::held_buffers(entries) =~= entries.filter(holds).map_values(id));
}

/// The ids of the buffers a stream's slot holds: those of its queued
/// completions, then that of its final one.
pub open spec fn held_ids(slot: RecvSlot) -> Seq<u16> {
    let entries = match slot.terminal {
        Some(last) => slot.queue + seq![last],
        None => slot.queue,
    };
    entries.filter(|entry: (i32, u16)| entry.1 != 0xFFFF).map_values(|entry: (i32, u16)| entry.1)
}

proof fn lemma_cancelled_ids(slots: RecvSlots, key: RecvMultishotSlotKey)
    ensures
        slots.live(key) ==> drain::cancelled_buffers(slots, key) == held_ids(
            slots.slots[key.slot as int],
        ),
        !slots.live(key) ==> drain::cancelled_buffers(slots, key).len() == 0,
{
    if slots.live(key) {
        let slot = slots.slots[key.slot as int];
        match slot.terminal {
            Some(last) => {
                let all = slot.queue + seq![last];
                lemma_held_ids(all);
                assert(all.drop_last() =~= slot.queue);
                assert(all.last() == last);
                if last.1 == 0xFFFF {
                    assert(drain::cancelled_buffers(slots, key) =~= drain::held_buffers(all));
                } else {
                    assert(drain::cancelled_buffers(slots, key) =~= drain::held_buffers(all));
                }
            },
            None => {
                lemma_held_ids(slot.queue);
                assert(drain::cancelled_buffers(slots, key) =~= drain::held_buffers(slot.queue));
            },
        }
    }
}

/// A dropped recv stream's slot is emptied and every buffer it held is given
/// back, in order. A stream whose op has ended frees its slot at once; any other
/// marks it, and the kernel is asked to cancel the very op: the one whose
/// `user_data` is the recv sentinel of the handle's slot and generation.
pub proof fn a_dropped_recv_stream_is_emptied_and_cancelled(
    driver: &mut DriverType,
    slab: &mut RecvMultishotSlab,
    key: RecvMultishotSlotKey,
)
    requires
        old(driver).wf(),
        old(slab).wf(),
        call_ensures(submit_recv_multishot_cancel, (driver, slab, key), ()),
    ensures
        final(driver).wf(),
        final(slab).wf(),
        ({
            let before = old(slab)@;
            let after = final(slab)@;
            let at = key.slot as int;
            let named = key.worker_id == before.worker_id && key.slot < before.slots.len()
                && before.slots[at].occupied && before.slots[at].generation == key.generation;
            let ended = named && before.slots[at].terminated;
            let ids = if named {
                held_ids(before.slots[at])
            } else {
                Seq::empty()
            };
            let emptied = old(driver)@.recycled_all(ids);
            let sentinel = (0xFFFF_FFFD_0000_0000 + key.generation % 0x1_0000 * 0x1_0000
                + key.slot) as u64;
            &&& !named ==> after == before
            &&& ended ==> {
                &&& recv_others_kept(before, after, at)
                &&& !after.slots[at].occupied
                &&& !after.slots[at].terminated
                &&& !after.slots[at].cancel_pending
                &&& after.slots[at].queue.len() == 0
                &&& after.slots[at].terminal is None
                &&& after.slots[at].generation == (before.slots[at].generation + 1)
                    % 0x1_0000_0000_0000_0000
                &&& final(driver)@ == emptied
            }
            &&& named && !ended ==> {
                &&& recv_others_kept(before, after, at)
                &&& after.slots[at] == (RecvSlot {
                    cancel_pending: true,
                    queue: Seq::empty(),
                    terminal: None,
                    ..before.slots[at]
                })
            }
            &&& !ended ==> asked_to_cancel(emptied, final(driver)@, sentinel, sentinel)
        }),
{
    lemma_cancelled_ids(old(slab)@, key);
    let before = old(slab)@;
    let ids = drain::cancelled_buffers(before, key);
    if !before.live(key) {
        assert(ids =~= Seq::<u16>::empty());
    }
    let emptied = old(driver)@.recycled_all(ids);
    let request = drain::recv_cancel(key);
    assert(emptied.queue.push(request) =~= emptied.queue + seq![request]);
    if before.live(key) && !before.terminated(key) {
        assert(final(slab)@.slots[key.slot as int] =~= (RecvSlot {
            cancel_pending: true,
            queue: Seq::empty(),
            terminal: None,
            ..before.slots[key.slot as int]
        }));
    }
}

/// The cancel of a running recv stream targets the very `user_data` its op was
/// submitted with: the sentinel handed out with the handle.
pub proof fn a_recv_cancel_targets_the_sentinel_handed_out(
    seam: &mut IoSeam,
    owner_token: u64,
    key: RecvMultishotSlotKey,
    sentinel: u64,
    driver: &mut DriverType,
    slab: &mut RecvMultishotSlab,
)
    requires
        old(seam).wf(),
        call_ensures(
            IoSeam::allocate_recv_multishot_slot,
            (seam, owner_token),
            RecvMultishotAlloc::Allocated { key, sentinel },
        ),
        old(driver).wf(),
        old(slab).wf(),
        old(slab)@.live(key),
        !old(slab)@.slots[key.slot as int].terminated,
        old(driver)@.ring,
        old(driver)@.queue.len() < old(driver)@.capacity,
        call_ensures(submit_recv_multishot_cancel, (driver, slab, key), ()),
    ensures
        final(driver)@.queue.len() == old(driver)@.queue.len() + 1,
        final(driver)@.queue.last().op == (IoOp::Cancel { target: SubmitToken(sentinel) }),
        final(driver)@.queue.drop_last() == old(driver)@.queue,
        sentinel / 0x1_0000_0000 == 0xFFFF_FFFD,
        sentinel % 0x1_0000 == key.slot,
        sentinel / 0x1_0000 % 0x1_0000 == key.generation % 0x1_0000,
{
    a_dropped_recv_stream_is_emptied_and_cancelled(driver, slab, key);
    old(driver).pool_is_valid();
    let ids = held_ids(old(slab)@.slots[key.slot as int]);
    driver::buffers_given_back_are_offered_in_turn(old(driver)@, ids, 0);
    assert(final(driver)@.queue.drop_last() =~= old(driver)@.queue);
}

/// A recv stream's cancel is refused, with nothing changed, only when the stream
/// holds a buffer the pool does not have; otherwise it is done.
pub proof fn a_recv_cancel_is_refused_for_an_unknown_buffer_only(
    driver: &mut DriverType,
    slab: &mut RecvMultishotSlab,
    done_driver: &mut DriverType,
    done_slab: &mut RecvMultishotSlab,
    key: RecvMultishotSlotKey,
    submitted: bool,
)
    requires
        old(driver).wf(),
        old(slab).wf(),
        *old(done_driver) == *old(driver),
        *old(done_slab) == *old(slab),
        call_ensures(try_submit_recv_multishot_cancel, (driver, slab, key), submitted),
        call_ensures(submit_recv_multishot_cancel, (done_driver, done_slab, key), ()),
    ensures
        submitted ==> final(driver)@ == final(done_driver)@ && final(slab)@ == final(done_slab)@,
        !submitted ==> final(driver)@ == old(driver)@ && final(slab)@ == old(slab)@,
        !submitted <==> (old(slab)@.live(key) && (old(driver)@.pool matches Some(pool) && exists|
            at: int,
        |
            0 <= at < held_ids(old(slab)@.slots[key.slot as int]).len() && pool.ring.offered.len()
                <= #[trigger] held_ids(old(slab)@.slots[key.slot as int])[at])),
{
    lemma_cancelled_ids(old(slab)@, key);
}

/// A queued cancel goes to the one owner of its op -- by the multishot sentinel
/// in its token, else by the class marker in its slot, else to the in-flight
/// slot -- and to no other; in every case the kernel is asked to cancel the very
/// op the token names.
pub proof fn a_queued_cancel_reaches_its_owner_alone<
    const A: usize,
    const P: usize,
    const C: usize,
>(
    driver: &mut DriverType,
    inflight: &mut InflightBufSlab,
    multishot: &mut MultishotSlab,
    accepts: &mut AcceptCancelSet<A>,
    provided_recvs: &mut ProvidedRecvCancelSet<P>,
    connects: &mut ConnectCancelSet<C>,
    closing: &mut Vec<i32>,
    key: InflightSlotKey,
)
    requires
        old(driver).wf(),
        old(inflight).wf(),
        old(multishot).wf(),
        old(accepts).wf(),
        old(provided_recvs).wf(),
        old(connects).wf(),
        call_ensures(
            submit_cancel_for::<A, P, C>,
            (driver, inflight, multishot, accepts, provided_recvs, connects, closing, key),
            (),
        ),
    ensures
        ({
            let stream = key.op_token / 0x1_0000_0000 == 0xFFFF_FFFE;
            let accept = !stream && key.slot == 0xFFFF;
            let recv = !stream && key.slot == 0xFFFE;
            let connect = !stream && key.slot == 0xFFFD;
            let buffered = !stream && key.slot < 0xFFFD;
            let at = key.slot as int;
            let op = old(inflight)@;
            let op_named = key.worker_id == op.worker_id && key.slot < op.slots.len()
                && op.slots[at].occupied && op.slots[at].generation == key.generation;
            let streams = old(multishot)@;
            let stream_named = key.worker_id == streams.worker_id && key.slot < streams.slots.len()
                && streams.slots[at].occupied && streams.slots[at].generation == key.generation;
            &&& asked_to_cancel(
                old(driver)@,
                final(driver)@,
                key.op_token,
                if stream {
                    key.op_token
                } else {
                    (0xFFFF_FFFF_0000_0000 + key.generation % 0x1_0000 * 0x1_0000 + key.slot) as u64
                },
            )
            &&& if buffered && op_named {
                inflight_others_kept(op, final(inflight)@, at) && final(inflight)@.slots[at] == (
                InflightSlot { retire_pending: true, ..op.slots[at] })
            } else {
                final(inflight)@ == op
            }
            &&& if stream && stream_named {
                &&& others_kept(streams, final(multishot)@, at)
                &&& final(multishot)@.slots[at] == (MultishotSlot {
                    cancel_pending: true,
                    queue: Seq::empty(),
                    ..streams.slots[at]
                })
                &&& final(closing)@ == old(closing)@ + streams.slots[at].queue.filter(
                    |result: i32| result >= 0,
                )
            } else {
                final(multishot)@ == streams && final(closing)@ == old(closing)@
            }
            &&& final(accepts)@ == (if accept && old(accepts)@.len() < A {
                old(accepts)@.insert(key.op_token)
            } else {
                old(accepts)@
            })
            &&& final(provided_recvs)@ == (if recv && old(provided_recvs)@.len() < P {
                old(provided_recvs)@.insert(key.op_token)
            } else {
                old(provided_recvs)@
            })
            &&& final(connects)@ == (if connect && old(connects)@.len() < C {
                old(connects)@.insert(key.op_token)
            } else {
                old(connects)@
            })
        }),
{
    let stream = IoRequest {
        op: IoOp::Cancel { target: SubmitToken(key.op_token) },
        user_data: key.op_token,
    };
    let slotted = drain::slotted_cancel(key);
    assert(old(driver)@.queue.push(stream) =~= old(driver)@.queue + seq![stream]);
    assert(old(driver)@.queue.push(slotted) =~= old(driver)@.queue + seq![slotted]);
    old(inflight).slab_is_valid();
    let handle = drain::multishot_key(key);
    crate::boundary::seam::laws::cancel_closes_every_queued_descriptor(
        old(multishot)@.queued(handle),
    );
    assert(old(closing)@ + Seq::<i32>::empty() =~= old(closing)@);
    if old(multishot)@.live(handle) {
        if drain::cancel_route(key) is Multishot {
            assert(final(multishot)@.slots[key.slot as int] =~= (MultishotSlot {
                cancel_pending: true,
                queue: Seq::empty(),
                ..old(multishot)@.slots[key.slot as int]
            }));
        }
    } else {
        assert(drain::disposed_fds(old(multishot)@.queued(handle)) =~= Seq::<i32>::empty());
    }
}

/// An op's own completion frees the lowest slot a dropped future with its token
/// left behind, and nothing otherwise.
pub proof fn a_completion_reclaims_the_slot_left_behind(
    slab: &mut InflightBufSlab,
    op_token: u64,
    index: int,
)
    requires
        old(slab).wf(),
        call_ensures(reclaim_dropped_slot, (slab, op_token), ()),
    ensures
        final(slab).wf(),
        ({
            let before = old(slab)@;
            let after = final(slab)@;
            &&& (forall|slot: int|
                0 <= slot < before.slots.len() ==> !((#[trigger] before.slots[slot]).retire_pending
                    && before.slots[slot].op_token == op_token)) ==> after == before
            &&& 0 <= index < before.slots.len() && before.slots[index].retire_pending
                && before.slots[index].op_token == op_token && (forall|lower: int|
                0 <= lower < index ==> !((#[trigger] before.slots[lower]).retire_pending
                    && before.slots[lower].op_token == op_token)) ==> {
                &&& inflight_others_kept(before, after, index)
                &&& !after.slots[index].occupied
                &&& !after.slots[index].retire_pending
                &&& !after.slots[index].notif_expected
                &&& !after.slots[index].notif_ready
                &&& after.slots[index].generation == (before.slots[index].generation + 1)
                    % 0x1_0000_0000_0000_0000
            }
        }),
{
    lemma_retiring(old(slab)@, op_token, index);
}

proof fn lemma_retiring(before: InflightSlots, op_token: u64, index: int)
    ensures
        before.first_retiring(op_token) is None <==> forall|slot: int|
            0 <= slot < before.slots.len() ==> !((#[trigger] before.slots[slot]).retire_pending
                && before.slots[slot].op_token == op_token),
        0 <= index < before.slots.len() && before.slots[index].retire_pending
            && before.slots[index].op_token == op_token && (forall|lower: int|
            0 <= lower < index ==> !((#[trigger] before.slots[lower]).retire_pending
                && before.slots[lower].op_token == op_token)) ==> before.first_retiring(op_token)
            == Some(index),
{
    let wanted = |slot: InflightSlot| slot.retire_pending && slot.op_token == op_token;
    scan::first_index_finds(before.slots, wanted);
    if 0 <= index < before.slots.len() && before.slots[index].retire_pending
        && before.slots[index].op_token == op_token && (forall|lower: int|
        0 <= lower < index ==> !((#[trigger] before.slots[lower]).retire_pending
            && before.slots[lower].op_token == op_token)) {
        scan::lemma_first_index_is(before.slots, wanted, index);
    }
}

proof fn lemma_owned(before: InflightSlots, op_token: u64, index: int)
    ensures
        before.first_owned(op_token) is None <==> forall|slot: int|
            0 <= slot < before.slots.len() ==> !((#[trigger] before.slots[slot]).occupied
                && before.slots[slot].op_token == op_token),
        0 <= index < before.slots.len() && before.slots[index].occupied
            && before.slots[index].op_token == op_token && (forall|lower: int|
            0 <= lower < index ==> !((#[trigger] before.slots[lower]).occupied
                && before.slots[lower].op_token == op_token)) ==> before.first_owned(op_token)
            == Some(index),
{
    let wanted = |slot: InflightSlot| slot.occupied && slot.op_token == op_token;
    scan::first_index_finds(before.slots, wanted);
    if 0 <= index < before.slots.len() && before.slots[index].occupied
        && before.slots[index].op_token == op_token && (forall|lower: int|
        0 <= lower < index ==> !((#[trigger] before.slots[lower]).occupied
            && before.slots[lower].op_token == op_token)) {
        scan::lemma_first_index_is(before.slots, wanted, index);
    }
}

/// A cancel's completion frees the slot its tag names only when it found its
/// target gone, the op there was dropped at the generation named, and no
/// notification is owed; in every other case it frees nothing.
pub proof fn a_cancel_completion_frees_only_what_is_gone(
    slab: &mut InflightBufSlab,
    user_data: u64,
    result: i32,
)
    requires
        old(slab).wf(),
        call_ensures(reclaim_cancel_completion, (slab, user_data, result), ()),
    ensures
        final(slab).wf(),
        ({
            let before = old(slab)@;
            let after = final(slab)@;
            let at = user_data as int % 0x1_0000;
            let gone = result == -2 && at < before.slots.len() && before.slots[at].occupied
                && before.slots[at].retire_pending && before.slots[at].generation % 0x1_0000
                == user_data / 0x1_0000 % 0x1_0000 && !(before.slots[at].notif_expected
                && !before.slots[at].notif_ready);
            &&& !gone ==> after == before
            &&& gone ==> {
                &&& inflight_others_kept(before, after, at)
                &&& !after.slots[at].occupied
                &&& !after.slots[at].retire_pending
                &&& !after.slots[at].notif_expected
                &&& !after.slots[at].notif_ready
                &&& after.slots[at].generation == (before.slots[at].generation + 1)
                    % 0x1_0000_0000_0000_0000
            }
        }),
{
}

/// Announcing a notification marks the lowest slot an op with the token owns,
/// dropped or not, and changes nothing else.
pub proof fn an_announcement_marks_the_owned_slot(
    slab: &mut InflightBufSlab,
    op_token: u64,
    index: int,
)
    requires
        old(slab).wf(),
        call_ensures(mark_notif_expected, (slab, op_token), ()),
    ensures
        final(slab).wf(),
        ({
            let before = old(slab)@;
            let after = final(slab)@;
            &&& (forall|slot: int|
                0 <= slot < before.slots.len() ==> !((#[trigger] before.slots[slot]).occupied
                    && before.slots[slot].op_token == op_token)) ==> after == before
            &&& 0 <= index < before.slots.len() && before.slots[index].occupied
                && before.slots[index].op_token == op_token && (forall|lower: int|
                0 <= lower < index ==> !((#[trigger] before.slots[lower]).occupied
                    && before.slots[lower].op_token == op_token)) ==> {
                &&& inflight_others_kept(before, after, index)
                &&& after.slots[index] == (InflightSlot {
                    notif_expected: true,
                    ..before.slots[index]
                })
            }
        }),
{
    lemma_owned(old(slab)@, op_token, index);
}

/// A notification frees the lowest slot a dropped future with its token left
/// behind; without one it marks the lowest slot an op with the token owns, for
/// its owner to free.
pub proof fn a_notification_frees_or_marks(
    slab: &mut InflightBufSlab,
    op_token: u64,
    dropped: int,
    owned: int,
)
    requires
        old(slab).wf(),
        call_ensures(reclaim_notif, (slab, op_token), ()),
    ensures
        final(slab).wf(),
        ({
            let before = old(slab)@;
            let after = final(slab)@;
            let none_dropped = forall|slot: int|
                0 <= slot < before.slots.len() ==> !((#[trigger] before.slots[slot]).retire_pending
                    && before.slots[slot].op_token == op_token);
            &&& 0 <= dropped < before.slots.len() && before.slots[dropped].retire_pending
                && before.slots[dropped].op_token == op_token && (forall|lower: int|
                0 <= lower < dropped ==> !((#[trigger] before.slots[lower]).retire_pending
                    && before.slots[lower].op_token == op_token)) ==> {
                &&& inflight_others_kept(before, after, dropped)
                &&& !after.slots[dropped].occupied
                &&& !after.slots[dropped].retire_pending
                &&& !after.slots[dropped].notif_expected
                &&& !after.slots[dropped].notif_ready
                &&& after.slots[dropped].generation == (before.slots[dropped].generation + 1)
                    % 0x1_0000_0000_0000_0000
            }
            &&& none_dropped && (forall|slot: int|
                0 <= slot < before.slots.len() ==> !((#[trigger] before.slots[slot]).occupied
                    && before.slots[slot].op_token == op_token)) ==> after == before
            &&& none_dropped && 0 <= owned < before.slots.len() && before.slots[owned].occupied
                && before.slots[owned].op_token == op_token && (forall|lower: int|
                0 <= lower < owned ==> !((#[trigger] before.slots[lower]).occupied
                    && before.slots[lower].op_token == op_token)) ==> {
                &&& inflight_others_kept(before, after, owned)
                &&& after.slots[owned] == (InflightSlot { notif_ready: true, ..before.slots[owned] })
            }
        }),
{
    lemma_retiring(old(slab)@, op_token, dropped);
    lemma_owned(old(slab)@, op_token, owned);
}

} // verus!
