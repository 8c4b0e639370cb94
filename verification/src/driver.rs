//! The worker's I/O backend, as the seam sees it.
//!
//! The seam reads what the backend can do and hands it requests. The backend
//! queues what it accepts; the run-loop moves the queue onto the kernel's ring
//! and brings the completions back.

use vstd::prelude::*;

use crate::boundary::cancel::token::LINK_TIMEOUT_DISCARD_USER_DATA;
use crate::buffer::ring::pool::{BufRingPool, PoolState};
use crate::buffer::slot::BufGroupId;
use crate::operation::{IoOp, IoRequest, SubmitResult, SubmitToken};

verus! {

/// What the kernel behind a backend supports.
#[derive(Debug, Clone, Copy, PartialEq, Eq, Structural)]
pub struct Capabilities {
    /// One recv request may post many completions.
    pub multishot_recv: bool,
    /// A send may hand the kernel the buffer in place.
    pub send_zc: bool,
    /// A request may be bounded by a linked timeout.
    pub link_timeout: bool,
}

/// What a backend holds.
#[verifier::ext_equal]
pub struct DriverState {
    /// The backend submits through a ring at all.
    pub ring: bool,
    /// What the kernel supports.
    pub capabilities: Capabilities,
    /// The provided-buffer pool, if one is registered.
    pub pool: Option<PoolState>,
    /// Requests accepted and not yet handed to the kernel, oldest first.
    pub queue: Seq<IoRequest>,
    /// Most requests the queue holds.
    pub capacity: nat,
}

impl DriverState {
    /// What becomes of `request`.
    pub open spec fn submit_outcome(self, request: IoRequest) -> SubmitResult {
        if !self.ring {
            SubmitResult::Unsupported
        } else if self.queue.len() < self.capacity {
            SubmitResult::Submitted(SubmitToken(request.user_data))
        } else {
            SubmitResult::QueueFull
        }
    }

    /// The backend after `request` was handed to it.
    pub open spec fn submitted(self, request: IoRequest) -> DriverState {
        if self.submit_outcome(request) is Submitted {
            DriverState { queue: self.queue.push(request), ..self }
        } else {
            self
        }
    }

    /// The request that bounds the one before it by `deadline_ns`.
    pub open spec fn link_timeout_request(deadline_ns: u64) -> IoRequest {
        IoRequest {
            op: IoOp::LinkTimeout { deadline_ns },
            user_data: LINK_TIMEOUT_DISCARD_USER_DATA,
        }
    }

    /// What becomes of `request` bounded by a linked timeout.
    pub open spec fn linked_outcome(self, request: IoRequest) -> SubmitResult {
        if !self.ring || !self.capabilities.link_timeout {
            SubmitResult::Unsupported
        } else if self.queue.len() + 2 <= self.capacity {
            SubmitResult::Submitted(SubmitToken(request.user_data))
        } else {
            SubmitResult::QueueFull
        }
    }

    /// The backend after `request`, bounded by `deadline_ns`, was handed to it:
    /// either both halves of the pair are queued, or neither.
    pub open spec fn linked(self, request: IoRequest, deadline_ns: u64) -> DriverState {
        if self.linked_outcome(request) is Submitted {
            DriverState {
                queue: self.queue.push(request).push(Self::link_timeout_request(deadline_ns)),
                ..self
            }
        } else {
            self
        }
    }

    /// The group the kernel picks provided buffers from.
    pub open spec fn group(self) -> Option<BufGroupId> {
        match self.pool {
            Some(pool) => Some(pool.group_id),
            None => None,
        }
    }

    /// Whether the buffer id `id` can be given back: there is no pool to give
    /// it to, or it is one of the pool's.
    pub open spec fn takes_back(self, id: u16) -> bool {
        self.pool matches Some(pool) ==> id < pool.entries()
    }

    /// Whether each of `ids` can be given back.
    pub open spec fn takes_all_back(self, ids: Seq<u16>) -> bool {
        forall|at: int| 0 <= at < ids.len() ==> self.takes_back(#[trigger] ids[at])
    }

    /// The backend after the buffer `id` is given back to its pool.
    pub open spec fn recycled(self, id: u16) -> DriverState {
        match self.pool {
            Some(pool) => DriverState { pool: Some(pool.recycled(id)), ..self },
            None => self,
        }
    }

    /// The backend after each of `ids` is given back in turn.
    pub open spec fn recycled_all(self, ids: Seq<u16>) -> DriverState
        decreases ids.len(),
    {
        if ids.len() == 0 {
            self
        } else {
            self.recycled_all(ids.drop_last()).recycled(ids.last())
        }
    }
}

/// Ring-backed driver: the submission queue and the provided-buffer pool.
pub struct UringDriver {
    capabilities: Capabilities,
    pool: Option<BufRingPool>,
    queue: Vec<IoRequest>,
    capacity: usize,
}

impl UringDriver {
    /// Creates a driver whose submission queue holds `capacity` requests.
    pub fn new(capacity: usize, capabilities: Capabilities, pool: Option<BufRingPool>) -> (driver:
        Self)
        requires
            pool matches Some(registered) ==> registered.wf(),
        ensures
            driver.wf(),
            driver@ == (DriverState {
                ring: true,
                capabilities,
                pool: match pool {
                    Some(registered) => Some(registered@),
                    None => None,
                },
                queue: Seq::empty(),
                capacity: capacity as nat,
            }),
    {
        let driver = UringDriver { capabilities, pool, queue: Vec::new(), capacity };
        assert(driver@.queue =~= Seq::<IoRequest>::empty());
        driver
    }

    /// The queue stays within its capacity, and the pool is well formed.
    pub closed spec fn wf(&self) -> bool {
        &&& self.queue@.len() <= self.capacity
        &&& self.pool matches Some(pool) ==> pool.wf()
    }
}

impl View for UringDriver {
    type V = DriverState;

    closed spec fn view(&self) -> DriverState {
        DriverState {
            ring: true,
            capabilities: self.capabilities,
            pool: match self.pool {
                Some(pool) => Some(pool@),
                None => None,
            },
            queue: self.queue@,
            capacity: self.capacity as nat,
        }
    }
}

/// The I/O backend a worker runs on.
pub enum DriverType {
    /// Readiness fallback: refuses every ring request.
    Epoll(()),
    /// Ring-backed driver.
    Uring(UringDriver),
}

impl View for DriverType {
    type V = DriverState;

    open spec fn view(&self) -> DriverState {
        match self {
            DriverType::Epoll(_) => DriverState {
                ring: false,
                capabilities: Capabilities {
                    multishot_recv: false,
                    send_zc: false,
                    link_timeout: false,
                },
                pool: None,
                queue: Seq::empty(),
                capacity: 0,
            },
            DriverType::Uring(driver) => driver@,
        }
    }
}

impl DriverType {
    /// The queue stays within its capacity, and the pool is well formed.
    pub open spec fn wf(&self) -> bool {
        match self {
            DriverType::Epoll(_) => true,
            DriverType::Uring(driver) => driver.wf(),
        }
    }

    /// The registered pool of a well-formed backend is valid.
    pub proof fn pool_is_valid(&self)
        requires
            self.wf(),
        ensures
            self@.pool matches Some(pool) ==> pool.valid() && 0x1_0000int % (
            pool.entries() as int) == 0,
            self@.queue.len() <= self@.capacity,
    {
        if let DriverType::Uring(driver) = self {
            if let Some(pool) = driver.pool {
                pool.pool_is_valid();
            }
        }
    }

    /// What the kernel behind the backend supports.
    pub fn capabilities(&self) -> (capabilities: Capabilities)
        ensures
            capabilities == self@.capabilities,
    {
        match self {
            DriverType::Epoll(_) => Capabilities {
                multishot_recv: false,
                send_zc: false,
                link_timeout: false,
            },
            DriverType::Uring(driver) => driver.capabilities,
        }
    }

    /// The registered provided-buffer pool, if any.
    pub fn provided_recv_pool(&self) -> (pool: Option<&BufRingPool>)
        requires
            self.wf(),
        ensures
            match pool {
                Some(registered) => registered.wf() && self@.pool == Some(registered@),
                None => self@.pool is None,
            },
    {
        match self {
            DriverType::Epoll(_) => None,
            DriverType::Uring(driver) => match &driver.pool {
                Some(pool) => Some(pool),
                None => None,
            },
        }
    }

    /// The group the kernel picks provided buffers from, if one is registered.
    pub fn provided_recv_group(&self) -> (group: Option<BufGroupId>)
        requires
            self.wf(),
        ensures
            group == self@.group(),
    {
        match self.provided_recv_pool() {
            Some(pool) => Some(pool.group_id()),
            None => None,
        }
    }

    /// Whether the buffer `id` can be given back: there is no pool to give it
    /// to, or it is one of the pool's.
    pub fn can_recycle(&self, id: u16) -> (flag: bool)
        requires
            self.wf(),
        ensures
            flag == self@.takes_back(id),
    {
        match self.provided_recv_pool() {
            Some(pool) => id < pool.entries(),
            None => true,
        }
    }

    /// Gives the buffer `id` back to the provided-buffer pool; a backend with
    /// no pool drops it.
    pub fn recycle(&mut self, id: u16)
        requires
            old(self).wf(),
            old(self)@.takes_back(id),
        ensures
            final(self).wf(),
            final(self)@ == old(self)@.recycled(id),
    {
        if let DriverType::Uring(driver) = self {
            if let Some(pool) = &mut driver.pool {
                pool.recycle(id);
            }
        }
    }

    /// Records that the kernel wrote `payload` to the front of the provided
    /// buffer `id`; a backend with no pool drops it.
    pub fn receive(&mut self, id: u16, payload: &[u8])
        requires
            old(self).wf(),
            old(self)@.pool matches Some(pool) ==> id < pool.entries() && payload@.len()
                <= pool.buf_size,
        ensures
            final(self).wf(),
            final(self)@ == (DriverState {
                pool: match old(self)@.pool {
                    Some(pool) => Some(pool.received(id, payload@)),
                    None => None,
                },
                ..old(self)@
            }),
    {
        if let DriverType::Uring(driver) = self {
            if let Some(pool) = &mut driver.pool {
                pool.receive(id, payload);
            }
        }
    }

    /// Hands a request to the backend.
    ///
    /// The readiness fallback refuses it as unsupported; a ring queues it, or
    /// refuses it when its queue is full.
    pub fn submit_internal(&mut self, request: IoRequest) -> (outcome: SubmitResult)
        requires
            old(self).wf(),
        ensures
            final(self).wf(),
            outcome == old(self)@.submit_outcome(request),
            final(self)@ == old(self)@.submitted(request),
    {
        match self {
            DriverType::Epoll(_) => SubmitResult::Unsupported,
            DriverType::Uring(driver) => {
                if driver.queue.len() >= driver.capacity {
                    return SubmitResult::QueueFull;
                }
                driver.queue.push(request);
                SubmitResult::Submitted(SubmitToken::new(request.user_data))
            },
        }
    }

    /// Hands a request to the backend, bounded by a linked timeout.
    ///
    /// A kernel without linked timeouts refuses the pair as unsupported; both
    /// halves are queued together or not at all. The timeout's own completion
    /// carries the discard marker, so the drain drops it.
    pub fn submit_linked_timeout_internal(&mut self, request: IoRequest, deadline_ns: u64) -> (
        outcome: SubmitResult)
        requires
            old(self).wf(),
        ensures
            final(self).wf(),
            outcome == old(self)@.linked_outcome(request),
            final(self)@ == old(self)@.linked(request, deadline_ns),
    {
        match self {
            DriverType::Epoll(_) => SubmitResult::Unsupported,
            DriverType::Uring(driver) => {
                if !driver.capabilities.link_timeout {
                    return SubmitResult::Unsupported;
                }
                if driver.capacity - driver.queue.len() < 2 {
                    return SubmitResult::QueueFull;
                }
                driver.queue.push(request);
                driver.queue.push(
                    IoRequest {
                        op: IoOp::LinkTimeout { deadline_ns },
                        user_data: LINK_TIMEOUT_DISCARD_USER_DATA,
                    },
                );
                SubmitResult::Submitted(SubmitToken::new(request.user_data))
            },
        }
    }

    /// Takes every queued request, oldest first, for the run-loop to hand to
    /// the kernel.
    pub fn take_queue(&mut self) -> (requests: Vec<IoRequest>)
        requires
            old(self).wf(),
        ensures
            final(self).wf(),
            requests@ == old(self)@.queue,
            final(self)@ == (DriverState { queue: Seq::empty(), ..old(self)@ }),
    {
        let mut requests: Vec<IoRequest> = Vec::new();
        if let DriverType::Uring(driver) = self {
            std::mem::swap(&mut requests, &mut driver.queue);
        }
        requests
    }
}

/// A request is queued exactly when it is reported as submitted, behind every
/// request queued before it.
pub proof fn accepted_requests_are_queued_in_order(
    driver: DriverState,
    request: IoRequest,
    deadline_ns: u64,
)
    ensures
        driver.submit_outcome(request) is Submitted ==> driver.submitted(request).queue
            == driver.queue.push(request),
        !(driver.submit_outcome(request) is Submitted) ==> driver.submitted(request) == driver,
        driver.linked_outcome(request) is Submitted ==> driver.linked(request, deadline_ns).queue
            == driver.queue + seq![request, DriverState::link_timeout_request(deadline_ns)],
        !(driver.linked_outcome(request) is Submitted) ==> driver.linked(request, deadline_ns)
            == driver,
{
    assert(driver.queue.push(request).push(DriverState::link_timeout_request(deadline_ns))
        =~= driver.queue + seq![request, DriverState::link_timeout_request(deadline_ns)]);
}

/// A ring backend with room queues a request last and acknowledges it by its
/// `user_data`; a full one and one without a ring queue nothing and say why.
pub proof fn a_request_is_queued_last_while_there_is_room(
    driver: &mut DriverType,
    request: IoRequest,
    outcome: SubmitResult,
)
    requires
        old(driver).wf(),
        call_ensures(DriverType::submit_internal, (driver, request), outcome),
    ensures
        final(driver).wf(),
        ({
            let before = old(driver)@;
            let after = final(driver)@;
            let room = before.ring && before.queue.len() < before.capacity;
            &&& room ==> outcome == SubmitResult::Submitted(SubmitToken(request.user_data))
                && after == (DriverState { queue: before.queue + seq![request], ..before })
            &&& !room ==> after == before
            &&& !before.ring ==> outcome == SubmitResult::Unsupported
            &&& before.ring && !room ==> outcome == SubmitResult::QueueFull
        }),
{
    assert(old(driver)@.queue.push(request) =~= old(driver)@.queue + seq![request]);
}

/// A request with a deadline is queued together with the timeout it is linked
/// to, right behind it, or not at all: a ring that can link and has room for
/// both queues both, and any other backend queues neither.
pub proof fn a_linked_pair_is_queued_whole(
    driver: &mut DriverType,
    request: IoRequest,
    deadline_ns: u64,
    outcome: SubmitResult,
)
    requires
        old(driver).wf(),
        call_ensures(
            DriverType::submit_linked_timeout_internal,
            (driver, request, deadline_ns),
            outcome,
        ),
    ensures
        final(driver).wf(),
        ({
            let before = old(driver)@;
            let after = final(driver)@;
            let able = before.ring && before.capabilities.link_timeout;
            let room = before.queue.len() + 2 <= before.capacity;
            &&& able && room ==> {
                let timeout = after.queue[before.queue.len() as int + 1];
                &&& outcome == SubmitResult::Submitted(SubmitToken(request.user_data))
                &&& after == (DriverState {
                    queue: before.queue + seq![request, timeout],
                    ..before
                })
                &&& timeout.op == (IoOp::LinkTimeout { deadline_ns })
                &&& timeout.user_data == 0xFFFF_FFFB_0000_0000
            }
            &&& !(able && room) ==> after == before
            &&& !able ==> outcome == SubmitResult::Unsupported
            &&& able && !room ==> outcome == SubmitResult::QueueFull
        }),
{
    let before = old(driver)@;
    let after = final(driver)@;
    if before.ring && before.capabilities.link_timeout && before.queue.len() + 2
        <= before.capacity {
        let timeout = after.queue[before.queue.len() as int + 1];
        assert(after.queue =~= before.queue + seq![request, timeout]);
    }
}

/// The run-loop takes every queued request, in order, and leaves none.
pub proof fn the_queue_is_taken_whole(driver: &mut DriverType, requests: Vec<IoRequest>)
    requires
        old(driver).wf(),
        call_ensures(DriverType::take_queue, (driver,), requests),
    ensures
        final(driver).wf(),
        requests@ == old(driver)@.queue,
        final(driver)@.queue.len() == 0,
        final(driver)@ == (DriverState { queue: final(driver)@.queue, ..old(driver)@ }),
{
}

/// A buffer given back is offered to the kernel at the tail of the pool's ring,
/// and nothing else about the backend changes; without a pool nothing does.
pub proof fn a_buffer_given_back_is_offered_again(driver: &mut DriverType, id: u16)
    requires
        old(driver).wf(),
        old(driver)@.pool matches Some(pool) ==> id < pool.ring.offered.len(),
        call_ensures(DriverType::recycle, (driver, id), ()),
    ensures
        final(driver).wf(),
        ({
            let before = old(driver)@;
            let after = final(driver)@;
            &&& after == (DriverState { pool: after.pool, ..before })
            &&& before.pool is None ==> after == before
            &&& before.pool matches Some(pool) ==> {
                let at = pool.ring.tail as int % pool.ring.offered.len() as int;
                &&& after.pool matches Some(offering) && offering == (PoolState {
                    ring: offering.ring,
                    ..pool
                }) && offering.ring.offered.len() == pool.ring.offered.len()
                    && offering.ring.offered[at].bid == id && offering.ring.tail == (pool.ring.tail
                    + 1) % 0x1_0000 && forall|index: int|
                    0 <= index < pool.ring.offered.len() && index != at
                        ==> #[trigger] offering.ring.offered[index] == pool.ring.offered[index]
            }
        }),
{
    old(driver).pool_is_valid();
}

/// A buffer can be given back exactly when there is no pool, or the pool has it.
pub proof fn only_the_pools_buffers_can_be_given_back(driver: DriverType, id: u16, flag: bool)
    requires
        driver.wf(),
        call_ensures(DriverType::can_recycle, (&driver, id), flag),
    ensures
        flag == driver@.takes_back(id),
        !flag <==> (driver@.pool matches Some(pool) && pool.ring.offered.len() <= id),
{
}

/// What the kernel wrote to a buffer is at the front of that buffer and nowhere
/// else; without a pool nothing is kept.
pub proof fn received_bytes_are_kept_in_their_buffer(
    driver: &mut DriverType,
    id: u16,
    payload: &[u8],
)
    requires
        old(driver).wf(),
        old(driver)@.pool matches Some(pool) ==> id < pool.ring.offered.len() && payload@.len()
            <= pool.buf_size,
        call_ensures(DriverType::receive, (driver, id, payload), ()),
    ensures
        final(driver).wf(),
        ({
            let before = old(driver)@;
            let after = final(driver)@;
            &&& after == (DriverState { pool: after.pool, ..before })
            &&& before.pool is None ==> after == before
            &&& before.pool matches Some(pool) ==> {
                let start = id * pool.buf_size;
                &&& after.pool matches Some(holding) && holding == (PoolState {
                    storage: holding.storage,
                    ..pool
                }) && holding.storage.len() == pool.storage.len() && forall|at: int|
                    0 <= at < pool.storage.len() ==> #[trigger] holding.storage[at] == (if start
                        <= at < start + payload@.len() {
                        payload@[at - start]
                    } else {
                        pool.storage[at]
                    })
            }
        }),
{
    final(driver).pool_is_valid();
    old(driver).pool_is_valid();
}

/// A backend without a ring can do nothing and has no pool; a ring reports what
/// it was built with.
pub proof fn a_backend_reports_what_it_can_do(
    driver: DriverType,
    capabilities: Capabilities,
    group: Option<BufGroupId>,
    pool: Option<&BufRingPool>,
)
    requires
        driver.wf(),
        call_ensures(DriverType::capabilities, (&driver,), capabilities),
        call_ensures(DriverType::provided_recv_group, (&driver,), group),
        call_ensures(DriverType::provided_recv_pool, (&driver,), pool),
    ensures
        capabilities == driver@.capabilities,
        driver is Epoll ==> !capabilities.multishot_recv && !capabilities.send_zc
            && !capabilities.link_timeout && group is None && pool is None,
        match pool {
            Some(registered) => driver@.pool == Some(registered@) && group == Some(
                registered@.group_id,
            ),
            None => driver@.pool is None && group is None,
        },
{
}

/// A ring backend starts with an empty queue of the capacity asked for, over the
/// pool and the capabilities it is given.
pub proof fn a_ring_starts_with_an_empty_queue(
    capacity: usize,
    capabilities: Capabilities,
    pool: Option<BufRingPool>,
    driver: UringDriver,
)
    requires
        pool matches Some(registered) ==> registered.wf(),
        call_ensures(UringDriver::new, (capacity, capabilities, pool), driver),
    ensures
        driver.wf(),
        driver@.ring,
        driver@.capabilities == capabilities,
        driver@.queue.len() == 0,
        driver@.capacity == capacity,
        pool is None ==> driver@.pool is None,
        pool matches Some(registered) ==> driver@.pool == Some(registered@),
{
}

/// Buffers given back one after the other are offered one after the other: the
/// tail moves on by as many, and each is in the entry the tail pointed at when
/// its turn came, unless a later one has come round to that entry. Nothing else
/// about the backend changes.
pub proof fn buffers_given_back_are_offered_in_turn(driver: DriverState, ids: Seq<u16>, turn: int)
    requires
        driver.pool matches Some(pool) ==> pool.ring.offered.len() > 0 && 0x1_0000int
            % (pool.ring.offered.len() as int) == 0,
    ensures
        ({
            let after = driver.recycled_all(ids);
            &&& after == (DriverState { pool: after.pool, ..driver })
            &&& driver.pool is None ==> after == driver
            &&& driver.pool matches Some(pool) ==> {
                let count = pool.ring.offered.len() as int;
                &&& after.pool matches Some(offering) && offering == (PoolState {
                    ring: offering.ring,
                    ..pool
                }) && offering.ring.offered.len() == count && offering.ring.tail as int == (
                pool.ring.tail + ids.len()) % 0x1_0000 && (0 <= turn < ids.len() && ids.len() - turn
                    <= count ==> offering.ring.offered[(pool.ring.tail + turn) % count].bid
                    == ids[turn]) && (ids.len() <= turn < count
                    ==> offering.ring.offered[(pool.ring.tail + turn) % count]
                    == pool.ring.offered[(pool.ring.tail + turn) % count])
            }
        }),
    decreases ids.len(),
{
    if let Some(pool) = driver.pool {
        let count = pool.ring.offered.len() as int;
        if ids.len() == 0 {
            vstd::arithmetic::div_mod::lemma_small_mod(pool.ring.tail as nat, 0x1_0000nat);
        } else {
            let front = ids.drop_last();
            buffers_given_back_are_offered_in_turn(driver, front, turn);
            let middle = driver.recycled_all(front).pool->0;
            let place = pool.ring.tail + front.len();
            lemma_rounds_agree(place, count);
            assert(middle.ring.tail as int % count == place % count);
            vstd::arithmetic::div_mod::lemma_mod_bound(place, count);
            vstd::arithmetic::div_mod::lemma_mod_bound(pool.ring.tail + turn, count);
            assert((place % 0x1_0000 + 1) % 0x1_0000 == (place + 1) % 0x1_0000);
            if (0 <= turn < front.len() && ids.len() - turn <= count) || (ids.len() <= turn
                < count) {
                lemma_turns_differ(pool.ring.tail + turn, place, count);
            }
        }
    } else if ids.len() > 0 {
        buffers_given_back_are_offered_in_turn(driver, ids.drop_last(), turn);
    }
}

proof fn lemma_rounds_agree(place: int, count: int)
    requires
        count > 0,
        place >= 0,
        0x1_0000int % count == 0,
    ensures
        place % 0x1_0000 % count == place % count,
{
    vstd::arithmetic::div_mod::lemma_fundamental_div_mod(0x1_0000, count);
    let rounds = 0x1_0000int / count;
    assert(rounds > 0 && count * rounds == 0x1_0000) by (nonlinear_arith)
        requires
            count > 0,
            0x1_0000 == count * rounds,
    ;
    vstd::arithmetic::div_mod::lemma_mod_mod(place, count, rounds);
}

proof fn lemma_turns_differ(one: int, other: int, count: int)
    requires
        count > 0,
        0 <= one,
        0 <= other,
        one != other,
        -count < one - other < count,
    ensures
        one % count != other % count,
{
    if one % count == other % count {
        vstd::arithmetic::div_mod::lemma_fundamental_div_mod(one, count);
        vstd::arithmetic::div_mod::lemma_fundamental_div_mod(other, count);
        let steps = one / count - other / count;
        assert(one - other == count * steps) by (nonlinear_arith)
            requires
                one == count * (one / count) + one % count,
                other == count * (other / count) + other % count,
                one % count == other % count,
                steps == one / count - other / count,
        ;
        assert(false) by (nonlinear_arith)
            requires
                one - other == count * steps,
                one != other,
                -count < one - other < count,
                count > 0,
        ;
    }
}

} // verus!
