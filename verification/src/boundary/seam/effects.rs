//! What each call around the seam does -- queueing cancels, registering pools,
//! reading received buffers, asking for sockets, decoding wakers -- in terms of
//! what goes in and what comes out.

use vstd::prelude::*;

use crate::addr::AddressFamily;
use crate::boundary::cancel::guard;
use crate::boundary::cancel::guard::{CancelInboxes, RecvCancelInboxes};
use crate::boundary::seam::cancel::{
    push_accept_cancel_for_worker, push_cancel_for_worker, push_connect_cancel_for_worker,
    push_multishot_cancel_for_worker, push_provided_recv_cancel_for_worker,
    push_recv_multishot_cancel_for_worker,
};
use crate::boundary::seam::pool::{
    ProvidedPoolGuard, ProvidedPools, provided_pool, provided_pool_epoch, resolve_provided_recv,
};
use crate::boundary::seam::socket::{
    Attempt, Retry, SocketRequest, adopt_accepted_fd, attempt_result, create_datagram_socket,
    create_socket, create_stream_socket, retry_result,
};
use crate::boundary::seam::waker::{DecoderSlot, WakerBinding, decode_waker, register_decoder};
use crate::buffer::multishot::{MultishotSlotKey, RecvMultishotSlotKey};
use crate::buffer::oneshot::inflight::InflightSlotKey;
use crate::buffer::ring::pool::{BufRingPool, PoolState};
use crate::buffer::ring::provided::ProvidedBuf;
use crate::driver::{DriverState, DriverType};
use crate::error::IoError;

verus! {

/// The inboxes went from `before` to `after` by queueing `key` last in its own
/// worker's, while there is room; without an inbox, or without room, the cancel
/// is lost, and no other inbox changes either way.
pub open spec fn queued_for_its_worker(
    before: CancelInboxes,
    after: CancelInboxes,
    key: InflightSlotKey,
) -> bool {
    forall|worker: int|
        0 <= worker < 256 ==> {
            &&& (#[trigger] after@[worker]) is Some <==> before@[worker] is Some
            &&& before@[worker] is Some ==> after@[worker]->0@ == (if worker == key.worker_id
                && before@[worker]->0@.len() < 264 {
                before@[worker]->0@ + seq![key]
            } else {
                before@[worker]->0@
            })
        }
}

proof fn lemma_queued(before: CancelInboxes, after: CancelInboxes, key: InflightSlotKey)
    requires
        before.wf(),
        after.wf(),
        guard::pending_cancels(after) == crate::boundary::seam::cancel::queued_for_worker(
            guard::pending_cancels(before),
            key,
        ),
    ensures
        queued_for_its_worker(before, after, key),
{
    before.lemma_every_worker_has_a_slot();
    after.lemma_every_worker_has_a_slot();
    let was = guard::pending_cancels(before);
    let is = guard::pending_cancels(after);
    assert forall|worker: int| 0 <= worker < 256 implies {
        &&& (#[trigger] after@[worker]) is Some <==> before@[worker] is Some
        &&& before@[worker] is Some ==> after@[worker]->0@ == (if worker == key.worker_id
            && before@[worker]->0@.len() < 264 {
            before@[worker]->0@ + seq![key]
        } else {
            before@[worker]->0@
        })
    } by {
        assert(is[worker] is Some <==> after@[worker] is Some);
        assert(was[worker] is Some <==> before@[worker] is Some);
        if before@[worker] is Some {
            let queue = before@[worker]->0@;
            assert(queue.push(key) =~= queue + seq![key]);
        }
    }
}

/// A dropped future's cancel is queued for the worker that owns its op, under
/// the handle of its slot; one without a slot under the marker of its class and
/// its whole token, and a stream's under the sentinel its op carries.
pub proof fn a_drop_is_queued_for_its_worker(
    inboxes: &mut CancelInboxes,
    key: InflightSlotKey,
    stream: MultishotSlotKey,
    worker_id: u8,
    token: u64,
)
    requires
        guard::inboxes_wf(*old(inboxes)),
    ensures
        call_ensures(push_cancel_for_worker, (inboxes, key), ()) ==> guard::inboxes_wf(
            *final(inboxes),
        ) && queued_for_its_worker(*old(inboxes), *final(inboxes), key),
        call_ensures(push_accept_cancel_for_worker, (inboxes, worker_id, token), ())
            ==> guard::inboxes_wf(*final(inboxes)) && queued_for_its_worker(
            *old(inboxes),
            *final(inboxes),
            InflightSlotKey { slot: 0xFFFF, generation: 0, worker_id, op_token: token },
        ),
        call_ensures(push_provided_recv_cancel_for_worker, (inboxes, worker_id, token), ())
            ==> guard::inboxes_wf(*final(inboxes)) && queued_for_its_worker(
            *old(inboxes),
            *final(inboxes),
            InflightSlotKey { slot: 0xFFFE, generation: 0, worker_id, op_token: token },
        ),
        call_ensures(push_connect_cancel_for_worker, (inboxes, worker_id, token), ())
            ==> guard::inboxes_wf(*final(inboxes)) && queued_for_its_worker(
            *old(inboxes),
            *final(inboxes),
            InflightSlotKey { slot: 0xFFFD, generation: 0, worker_id, op_token: token },
        ),
        call_ensures(push_multishot_cancel_for_worker, (inboxes, stream), ())
            ==> guard::inboxes_wf(*final(inboxes)) && queued_for_its_worker(
            *old(inboxes),
            *final(inboxes),
            InflightSlotKey {
                slot: stream.slot,
                generation: stream.generation,
                worker_id: stream.worker_id,
                op_token: (0xFFFF_FFFE_0000_0000 + stream.generation % 0x1_0000 * 0x1_0000
                    + stream.slot) as u64,
            },
        ),
{
    if call_ensures(push_cancel_for_worker, (inboxes, key), ()) {
        lemma_queued(*old(inboxes), *final(inboxes), key);
    }
    if call_ensures(push_accept_cancel_for_worker, (inboxes, worker_id, token), ()) {
        lemma_queued(
            *old(inboxes),
            *final(inboxes),
            InflightSlotKey { slot: 0xFFFF, generation: 0, worker_id, op_token: token },
        );
    }
    if call_ensures(push_provided_recv_cancel_for_worker, (inboxes, worker_id, token), ()) {
        lemma_queued(
            *old(inboxes),
            *final(inboxes),
            InflightSlotKey { slot: 0xFFFE, generation: 0, worker_id, op_token: token },
        );
    }
    if call_ensures(push_connect_cancel_for_worker, (inboxes, worker_id, token), ()) {
        lemma_queued(
            *old(inboxes),
            *final(inboxes),
            InflightSlotKey { slot: 0xFFFD, generation: 0, worker_id, op_token: token },
        );
    }
    if call_ensures(push_multishot_cancel_for_worker, (inboxes, stream), ()) {
        lemma_queued(
            *old(inboxes),
            *final(inboxes),
            InflightSlotKey {
                slot: stream.slot,
                generation: stream.generation,
                worker_id: stream.worker_id,
                op_token: (0xFFFF_FFFE_0000_0000 + stream.generation % 0x1_0000 * 0x1_0000
                    + stream.slot) as u64,
            },
        );
    }
}

/// A dropped recv stream's cancel is queued last for the worker that owns its
/// op, while there is room, and no other inbox changes.
pub proof fn a_recv_drop_is_queued_for_its_worker(
    inboxes: &mut RecvCancelInboxes,
    key: RecvMultishotSlotKey,
    worker: int,
)
    requires
        guard::recv_inboxes_wf(*old(inboxes)),
        call_ensures(push_recv_multishot_cancel_for_worker, (inboxes, key), ()),
        0 <= worker < 256,
    ensures
        guard::recv_inboxes_wf(*final(inboxes)),
        final(inboxes)@[worker] is Some <==> old(inboxes)@[worker] is Some,
        old(inboxes)@[worker] is Some ==> final(inboxes)@[worker]->0@ == (if worker == key.worker_id
            && old(inboxes)@[worker]->0@.len() < 256 {
            old(inboxes)@[worker]->0@ + seq![key]
        } else {
            old(inboxes)@[worker]->0@
        }),
{
    old(inboxes).lemma_every_worker_has_a_slot();
    final(inboxes).lemma_every_worker_has_a_slot();
    let was = guard::pending_recv_cancels(*old(inboxes));
    let is = guard::pending_recv_cancels(*final(inboxes));
    assert(is[worker] is Some <==> final(inboxes)@[worker] is Some);
    assert(was[worker] is Some <==> old(inboxes)@[worker] is Some);
    if old(inboxes)@[worker] is Some {
        let queue = old(inboxes)@[worker]->0@;
        assert(queue.push(key) =~= queue + seq![key]);
    }
}

/// Registering a backend's pool records where that pool is and moves the
/// worker's epoch on by one; a backend without a pool registers nothing. Ending
/// the registration leaves no pool and keeps the epoch. No other worker's
/// registration changes.
pub proof fn a_registration_lasts_until_it_is_cleared(
    fresh: ProvidedPools,
    installing: &mut ProvidedPools,
    worker_id: u8,
    driver: &DriverType,
    guard: ProvidedPoolGuard,
    clearing: &mut ProvidedPools,
    other: int,
)
    requires
        call_ensures(ProvidedPools::new, (), fresh),
        old(installing).wf(),
        driver.wf(),
        call_ensures(ProvidedPoolGuard::install, (installing, worker_id, driver), guard),
        old(clearing).wf(),
        call_ensures(ProvidedPoolGuard::clear, (guard, clearing), ()),
        0 <= other < 256,
    ensures
        ({
            let at = worker_id as int;
            &&& fresh.wf() && fresh@.len() == 256 && fresh@[other].pool is None
                && fresh@[other].epoch == 0
            &&& final(installing).wf() && final(clearing).wf()
            &&& driver@.pool matches Some(pool) ==> final(installing)@[at].pool == Some(pool.addrs)
                && final(installing)@[at].epoch == (old(installing)@[at].epoch + 1)
                % 0x1_0000_0000_0000_0000
            &&& driver@.pool is None ==> final(installing)@ == old(installing)@
            &&& other != at ==> final(installing)@[other] == old(installing)@[other]
            &&& final(clearing)@[at].pool is None
            &&& final(clearing)@[at].epoch == old(clearing)@[at].epoch
            &&& other != at ==> final(clearing)@[other] == old(clearing)@[other]
        }),
{
    old(installing).lemma_every_worker_has_a_slot();
    old(clearing).lemma_every_worker_has_a_slot();
}

/// Registering a pool by hand does what registering the backend that holds it
/// does.
pub proof fn a_pool_is_registered_by_hand(
    pools: &mut ProvidedPools,
    worker_id: u8,
    pool: Option<&BufRingPool>,
    guard: ProvidedPoolGuard,
    other: int,
)
    requires
        old(pools).wf(),
        call_ensures(ProvidedPoolGuard::install_pool, (pools, worker_id, pool), guard),
        0 <= other < 256,
    ensures
        ({
            let at = worker_id as int;
            &&& final(pools).wf()
            &&& guard.worker() == worker_id
            &&& pool matches Some(installed) ==> final(pools)@[at].pool == Some(installed@.addrs)
                && final(pools)@[at].epoch == (old(pools)@[at].epoch + 1)
                % 0x1_0000_0000_0000_0000
            &&& pool is None ==> final(pools)@ == old(pools)@
            &&& other != at ==> final(pools)@[other] == old(pools)@[other]
        }),
{
    old(pools).lemma_every_worker_has_a_slot();
}

/// A worker's pool is reached exactly while the registration is the one the
/// epoch names and the backend still holds the pool that was registered.
pub proof fn a_pool_is_reached_by_its_own_epoch(
    pools: &ProvidedPools,
    driver: &DriverType,
    worker_id: u8,
    epoch: u64,
    pool: Option<&BufRingPool>,
    current: u64,
)
    requires
        pools.wf(),
        driver.wf(),
        call_ensures(provided_pool, (pools, driver, worker_id, epoch), pool),
        call_ensures(provided_pool_epoch, (pools, worker_id), current),
    ensures
        current == pools@[worker_id as int].epoch,
        pool is Some <==> pools@[worker_id as int].epoch == epoch && (
        pools@[worker_id as int].pool matches Some(addrs) && (driver@.pool matches Some(held)
            && held.addrs == addrs)),
        pool matches Some(reached) ==> driver@.pool == Some(reached@),
{
}

/// Whether a handle on the buffer `id`, made for `worker_id` at `epoch`, reaches
/// the pool that `driver` holds.
pub open spec fn handle_reaches(
    pools: ProvidedPools,
    driver: DriverState,
    worker_id: u8,
    epoch: u64,
) -> bool {
    pools@[worker_id as int].epoch == epoch && (pools@[worker_id as int].pool matches Some(addrs) && (
    driver.pool matches Some(held) && held.addrs == addrs))
}

/// A received buffer reads as the bytes the kernel confirmed, at the front of
/// its own place in the pool, exactly while it reaches its pool and the
/// completion named a buffer and a length within it.
pub proof fn a_received_buffer_reads_its_own_bytes(
    pools: &ProvidedPools,
    driver: &DriverType,
    worker_id: u8,
    epoch: u64,
    id: u16,
    len: u32,
    buf: &ProvidedBuf,
    slice: Option<&[u8]>,
    length: usize,
    empty: bool,
)
    requires
        pools.wf(),
        driver.wf(),
        call_ensures(ProvidedBuf::new, (worker_id, epoch, id, len), *buf),
        call_ensures(ProvidedBuf::try_as_slice, (buf, pools, driver), slice),
        call_ensures(ProvidedBuf::len, (buf,), length),
        call_ensures(ProvidedBuf::is_empty, (buf,), empty),
    ensures
        length == len,
        empty <==> len == 0,
        slice is Some <==> handle_reaches(*pools, driver@, worker_id, epoch) && id
            < driver@.pool->0.ring.offered.len() && len <= driver@.pool->0.buf_size,
        slice matches Some(bytes) ==> {
            let pool = driver@.pool->0;
            &&& bytes@.len() == len
            &&& forall|at: int|
                0 <= at < len ==> #[trigger] bytes@[at] == pool.storage[id * pool.buf_size + at]
        },
{
    ProvidedBuf::handle_claims(worker_id, epoch, id, len, pools@, driver@);
    if slice is Some {
        driver.pool_is_valid();
        let pool = driver@.pool->0;
        assert(id * pool.buf_size + pool.buf_size <= pool.entries() * pool.buf_size)
            by (nonlinear_arith)
            requires
                id < pool.entries(),
        ;
        assert(0 <= id * pool.buf_size) by (nonlinear_arith);
    }
}

/// A readable buffer reads the same whether or not the reader asks first.
pub proof fn reading_does_not_depend_on_asking(
    pools: &ProvidedPools,
    driver: &DriverType,
    buf: &ProvidedBuf,
    asked: Option<&[u8]>,
    slice: &[u8],
)
    requires
        pools.wf(),
        driver.wf(),
        call_ensures(ProvidedBuf::try_as_slice, (buf, pools, driver), asked),
        call_ensures(ProvidedBuf::as_slice, (buf, pools, driver), slice),
        asked is Some,
    ensures
        asked->0@ == slice@,
{
}

/// The empty view holds nothing, reads as nothing, and gives nothing back.
pub proof fn the_empty_view_is_inert(
    pools: &ProvidedPools,
    reading: &DriverType,
    releasing: &mut DriverType,
    buf: ProvidedBuf,
    slice: Option<&[u8]>,
    length: usize,
    released: bool,
)
    requires
        pools.wf(),
        reading.wf(),
        old(releasing).wf(),
        call_ensures(ProvidedBuf::empty, (), buf),
        call_ensures(ProvidedBuf::try_as_slice, (&buf, pools, reading), slice),
        call_ensures(ProvidedBuf::len, (&buf,), length),
        call_ensures(ProvidedBuf::try_release, (buf, pools, releasing), released),
    ensures
        length == 0,
        slice matches Some(bytes) && bytes@.len() == 0,
        released,
        final(releasing)@ == old(releasing)@,
{
    ProvidedBuf::handle_claims(0, 0, 0, 0, pools@, reading@);
}

/// Releasing a received buffer offers it to the kernel again, once, at the tail
/// of its pool's ring, if the handle still reaches the pool; otherwise nothing
/// is given back. A buffer its pool does not have is refused, with nothing
/// changed.
pub proof fn a_released_buffer_is_offered_again(
    pools: &ProvidedPools,
    driver: &mut DriverType,
    worker_id: u8,
    epoch: u64,
    id: u16,
    len: u32,
    buf: ProvidedBuf,
    released: bool,
)
    requires
        pools.wf(),
        old(driver).wf(),
        call_ensures(ProvidedBuf::new, (worker_id, epoch, id, len), buf),
        call_ensures(ProvidedBuf::try_release, (buf, pools, driver), released) || (released
            && call_ensures(ProvidedBuf::release, (buf, pools, driver), ()) && (old(
            driver,
        )@.pool matches Some(pool) ==> id < pool.ring.offered.len())),
    ensures
        final(driver).wf(),
        ({
            let before = old(driver)@;
            let after = final(driver)@;
            let reached = handle_reaches(*pools, before, worker_id, epoch);
            &&& !released <==> reached && before.pool->0.ring.offered.len() <= id
            &&& !reached || !released ==> after == before
            &&& reached && released ==> {
                let pool = before.pool->0;
                let at = pool.ring.tail as int % pool.ring.offered.len() as int;
                &&& after == (DriverState { pool: after.pool, ..before })
                &&& after.pool matches Some(offering) && offering == (PoolState {
                    ring: offering.ring,
                    ..pool
                }) && offering.ring.offered.len() == pool.ring.offered.len()
                    && offering.ring.offered[at].bid == id && offering.ring.tail == (pool.ring.tail
                    + 1) % 0x1_0000 && forall|index: int|
                    0 <= index < pool.ring.offered.len() && index != at
                        ==> #[trigger] offering.ring.offered[index] == pool.ring.offered[index]
            }
        }),
{
    ProvidedBuf::handle_claims(worker_id, epoch, id, len, pools@, old(driver)@);
    old(driver).pool_is_valid();
}

/// A completed provided recv is an error for a negative result and for data
/// without a buffer, the empty view at the end of the stream, and otherwise a
/// handle on exactly the buffer and the length the completion named, at the
/// worker's current registration.
pub proof fn a_recv_resolves_into_the_buffer_it_names(
    pools: &ProvidedPools,
    worker_id: u8,
    result: i32,
    buf_id: Option<u16>,
    outcome: Result<ProvidedBuf, IoError>,
    id: u16,
    handle: ProvidedBuf,
    nothing: ProvidedBuf,
)
    requires
        pools.wf(),
        result > i32::MIN,
        call_ensures(resolve_provided_recv, (pools, worker_id, result, buf_id), outcome),
        call_ensures(
            ProvidedBuf::new,
            (worker_id, pools@[worker_id as int].epoch, id, result as u32),
            handle,
        ),
        call_ensures(ProvidedBuf::empty, (), nothing),
    ensures
        result < 0 ==> (outcome matches Err(IoError::Os(errno)) && errno == -result),
        result >= 0 && buf_id == Some(id) ==> outcome == Ok::<ProvidedBuf, IoError>(handle),
        result == 0 && buf_id is None ==> outcome == Ok::<ProvidedBuf, IoError>(nothing),
        result > 0 && buf_id is None ==> outcome == Err::<ProvidedBuf, IoError>(
            IoError::BufferlessData,
        ),
{
}

/// A nonblocking attempt is done when it moved bytes, waits when the system says
/// it would block, and otherwise failed with the system's error, negated; a
/// count no result can hold and an error the system did not name are failures of
/// their own. The descriptor is kept only to wait.
pub proof fn an_attempt_means_what_the_system_said(
    descriptor: i32,
    result: isize,
    errno: Option<i32>,
    attempt: Attempt,
    retry: Retry,
)
    requires
        errno matches Some(code) ==> code > i32::MIN,
        call_ensures(attempt_result, (descriptor, result, errno), attempt),
        call_ensures(retry_result, (result, errno), retry),
    ensures
        0 <= result <= 0xFFFF_FFFF ==> (attempt matches Attempt::Done(count) && count == result) && (
        retry matches Retry::Done(again) && again == result),
        result > 0xFFFF_FFFF ==> attempt == Attempt::Failed((-22) as i32) && retry == Retry::Failed(
            (-22) as i32,
        ),
        result < 0 && errno == Some(11i32) ==> attempt == Attempt::WouldBlock(descriptor) && retry
            == Retry::WouldBlock,
        result < 0 && errno is None ==> attempt == Attempt::Failed((-5) as i32) && retry
            == Retry::Failed((-5) as i32),
        result < 0 ==> (errno matches Some(code) ==> (code != 11 ==> (attempt matches Attempt::Failed(
            said,
        ) && said == -code) && (retry matches Retry::Failed(again) && again == -code))),
{
}

/// An accept brought a descriptor exactly when its result is not negative, and
/// then that result is it.
pub proof fn an_accept_result_is_its_descriptor(result: i32, fd: Option<i32>)
    requires
        call_ensures(adopt_accepted_fd, (result,), fd),
    ensures
        result >= 0 ==> fd == Some(result),
        result < 0 ==> fd is None,
{
}

/// A socket is asked for in the family of its peer, closed on `exec`, with the
/// default protocol: IPv4 and IPv6 only.
pub proof fn a_socket_is_asked_for_in_its_family(
    family: AddressFamily,
    socket_type: i32,
    any: Result<SocketRequest, IoError>,
    stream: Result<SocketRequest, IoError>,
    datagram: Result<SocketRequest, IoError>,
)
    requires
        call_ensures(create_socket, (family, socket_type), any),
        call_ensures(create_stream_socket, (family,), stream),
        call_ensures(create_datagram_socket, (family,), datagram),
    ensures
        family == AddressFamily::Unix ==> any == Err::<SocketRequest, IoError>(
            IoError::UnsupportedFamily,
        ) && stream == any && datagram == any,
        family != AddressFamily::Unix ==> {
            &&& any matches Ok(request) && request.domain == (if family == AddressFamily::Inet {
                2int
            } else {
                10int
            }) && request.socket_type == socket_type | 0x80000 && request.protocol == 0
            &&& stream matches Ok(request) && request == (SocketRequest {
                socket_type: 0x80001,
                ..any->Ok_0
            })
            &&& datagram matches Ok(request) && request == (SocketRequest {
                socket_type: 0x80002,
                ..any->Ok_0
            })
        },
{
    assert(1i32 | 0x80000i32 == 0x80001i32) by (bit_vector);
    assert(2i32 | 0x80000i32 == 0x80002i32) by (bit_vector);
}

/// The first decoder registered stays, and a waker is decoded by it; without one
/// no waker is.
pub proof fn the_first_decoder_decodes<W, D: Fn(&W) -> Option<WakerBinding>>(
    fresh: DecoderSlot<D>,
    slot: &mut DecoderSlot<D>,
    decoder: D,
    waker: &W,
    binding: Option<WakerBinding>,
)
    requires
        call_ensures(DecoderSlot::<D>::new, (), fresh),
        call_ensures(register_decoder::<D>, (slot, decoder), ()),
        call_ensures(decode_waker::<W, D>, (&*final(slot), waker), binding),
    ensures
        fresh@ is None,
        old(slot)@ is None ==> final(slot)@ == Some(decoder) && call_ensures(
            decoder,
            (waker,),
            binding,
        ),
        old(slot)@ matches Some(first) ==> final(slot)@ == Some(first) && call_ensures(
            first,
            (waker,),
            binding,
        ),
{
}

} // verus!
