//! The seam itself: the installed `IoSeam`, its poll-window guard, and the
//! result shapes a submitted op resolves into.

use vstd::prelude::*;

use crate::addr::SockAddr;
use crate::addr::pack;
use crate::boundary::cancel::guard::WorkerSlots;
use crate::boundary::cancel::token;
use crate::boundary::cancel::token::{encode_multishot_sentinel, encode_recv_multishot_sentinel};
use crate::buffer::multishot::accept::MultishotSlots;
use crate::buffer::multishot::recv::RecvSlots;
use crate::buffer::multishot::{
    MultishotSlab, MultishotSlotKey, NO_BUFFER, RecvMultishotSlab, RecvMultishotSlotKey,
};
use crate::buffer::oneshot::inflight;
use crate::buffer::oneshot::inflight::{
    INFLIGHT_BUF_STRIDE, InflightBufSlab, InflightSlotKey, InflightSlots,
};
use crate::driver::{DriverState, DriverType};
use crate::operation::{
    IoBuf, IoOp, IoRequest, MAX_MSG_INLINE_CAP, MSG_ADDR_OFFSET, MSG_PAYLOAD_OFFSET, MsgLayout,
    SubmitResult,
};

verus! {

/// A completion result captured for the polling task.
#[derive(Debug, Clone, Copy, PartialEq, Eq, Structural)]
pub struct WakeSlot {
    /// Raw completion result; negative values are `-errno`.
    pub result: i32,
    /// Raw completion flags.
    pub flags: u32,
    /// Kernel-selected buffer id, when the op consumed a provided buffer.
    pub buf_id: Option<u16>,
}

/// The outcome of advancing a multishot stream by one completion.
#[derive(Debug, Clone, Copy, PartialEq, Eq, Structural)]
pub enum MultishotNext {
    /// A completion result: a nonnegative accept fd or a negative `-errno`.
    Item(i32),
    /// The op is in flight with an empty FIFO; poll again on wake.
    Pending,
    /// The op posted its terminal completion and its FIFO is drained; the slot
    /// is freed.
    Ended,
}

/// The outcome of reserving a multishot slot for a stream.
#[derive(Debug, Clone, Copy, PartialEq, Eq, Structural)]
pub enum MultishotAlloc {
    /// A slot was reserved; the stream tags its SQE with `sentinel` and drains
    /// and cancels through `key`.
    Allocated {
        /// Handle that drains the slot's FIFO and cancels its op.
        key: MultishotSlotKey,
        /// `user_data` sentinel the multishot SQE carries.
        sentinel: u64,
    },
    /// Every slot is occupied; the stream degrades to a single-shot accept.
    Full,
    /// The seam carries no multishot registry (a test seam).
    Unsupported,
}

/// The outcome of advancing a multishot recv stream by one completion.
#[derive(Debug, Clone, Copy, PartialEq, Eq, Structural)]
pub enum RecvMultishotNext {
    /// A completion: a nonnegative byte count paired with the kernel-selected
    /// buffer id it consumed (`None` at end of stream), or a negative `-errno`.
    Item {
        /// Byte count, or a negative `-errno`.
        result: i32,
        /// Kernel-selected provided buffer id, `None` when none was consumed.
        buf_id: Option<u16>,
    },
    /// The op is in flight with an empty FIFO; poll again on wake.
    Pending,
    /// The op posted its terminal completion and its FIFO is drained; the slot
    /// is freed.
    Ended,
}

/// The outcome of reserving a multishot recv slot for a stream.
#[derive(Debug, Clone, Copy, PartialEq, Eq, Structural)]
pub enum RecvMultishotAlloc {
    /// A slot was reserved; the stream tags its SQE with `sentinel` and drains
    /// and cancels through `key`.
    Allocated {
        /// Handle that drains the slot's FIFO and cancels its op.
        key: RecvMultishotSlotKey,
        /// `user_data` sentinel the multishot recv SQE carries.
        sentinel: u64,
    },
    /// Every slot is occupied; the stream degrades to a single-shot provided
    /// recv.
    Full,
    /// The seam carries no multishot recv registry (a test seam).
    Unsupported,
}

/// What a seam holds.
#[verifier::ext_equal]
pub struct SeamState {
    /// Worker the seam is for.
    pub worker_id: u8,
    /// The worker's I/O driver.
    pub driver: Option<DriverState>,
    /// The worker's in-flight buffer registry.
    pub inflight: Option<InflightSlots>,
    /// The worker's multishot registry.
    pub multishot: Option<MultishotSlots>,
    /// The worker's multishot recv registry.
    pub recv: Option<RecvSlots>,
    /// The polling task's captured completion result.
    pub wake_slot: Option<WakeSlot>,
    /// Ops submitted through the seam this poll.
    pub submitted: u16,
}

/// `count` after an outcome: only a submitted op raises it, wrapping at the top
/// of `u16`.
pub open spec fn counted(count: u16, outcome: SubmitResult) -> u16 {
    if !(outcome is Submitted) {
        count
    } else if count == u16::MAX {
        0
    } else {
        (count + 1) as u16
    }
}

/// The buffer id a queued recv completion reports.
pub open spec fn reported_buffer(stored: u16) -> Option<u16> {
    if stored == NO_BUFFER {
        None
    } else {
        Some(stored)
    }
}

impl SeamState {
    /// What becomes of `request`; `None` without a driver.
    pub open spec fn submit_outcome(self, request: IoRequest) -> Option<SubmitResult> {
        match self.driver {
            Some(driver) => Some(driver.submit_outcome(request)),
            None => None,
        }
    }

    /// The seam after `request` was submitted through it.
    pub open spec fn after_submit(self, request: IoRequest) -> SeamState {
        match self.driver {
            Some(driver) => SeamState {
                driver: Some(driver.submitted(request)),
                submitted: counted(self.submitted, driver.submit_outcome(request)),
                ..self
            },
            None => self,
        }
    }

    /// The request a provided recv on `fd` submits: none where the backend
    /// registered no group.
    pub open spec fn provided_recv_request(self, fd: i32, token: u64) -> Option<IoRequest> {
        match self.driver {
            Some(driver) => match driver.group() {
                Some(group) => Some(
                    IoRequest { op: IoOp::RecvProvided { fd, group }, user_data: token },
                ),
                None => None,
            },
            None => None,
        }
    }

    /// The request a multishot provided recv on `fd` submits: none where the
    /// backend lacks the operation or registered no group.
    pub open spec fn recv_multishot_request(self, fd: i32, token: u64) -> Option<IoRequest> {
        match self.driver {
            Some(driver) => match driver.group() {
                Some(group) => if driver.capabilities.multishot_recv {
                    Some(
                        IoRequest {
                            op: IoOp::RecvMultishotProvided { fd, group },
                            user_data: token,
                        },
                    )
                } else {
                    None
                },
                None => None,
            },
            None => None,
        }
    }

    /// What becomes of a request that may not come about: without a driver
    /// there is no outcome, and a driver that lacks it reports so.
    pub open spec fn gated_outcome(self, request: Option<IoRequest>) -> Option<SubmitResult> {
        match request {
            Some(request) => self.submit_outcome(request),
            None => if self.driver is Some {
                Some(SubmitResult::Unsupported)
            } else {
                None
            },
        }
    }

    /// The seam after a request that may not come about.
    pub open spec fn after_gated(self, request: Option<IoRequest>) -> SeamState {
        match request {
            Some(request) => self.after_submit(request),
            None => self,
        }
    }

    /// Whether `key` names a live slot of the in-flight registry.
    pub open spec fn live(self, key: InflightSlotKey) -> bool {
        self.inflight matches Some(slots) && slots.live(key)
    }

    /// The bytes of `key`'s in-flight slot.
    pub open spec fn slot_bytes(self, key: InflightSlotKey) -> Seq<u8> {
        self.inflight->0.slots[key.slot as int].bytes
    }

    /// The seam after `key`'s in-flight slot is freed.
    pub open spec fn freed(self, key: InflightSlotKey) -> SeamState {
        SeamState {
            inflight: match self.inflight {
                Some(slots) => Some(slots.freed(key)),
                None => None,
            },
            ..self
        }
    }

    /// The seam after `src` is copied into `key`'s in-flight slot.
    pub open spec fn written(self, key: InflightSlotKey, at: int, src: Seq<u8>) -> SeamState {
        SeamState {
            inflight: match self.inflight {
                Some(slots) => Some(slots.written(key, at, src)),
                None => None,
            },
            ..self
        }
    }

    /// What the next poll of `key`'s multishot stream yields.
    pub open spec fn multishot_item(self, key: MultishotSlotKey) -> MultishotNext {
        match self.multishot {
            Some(slots) => match slots.front(key) {
                Some(result) => MultishotNext::Item(result),
                None => if slots.terminated(key) {
                    MultishotNext::Ended
                } else {
                    MultishotNext::Pending
                },
            },
            None => MultishotNext::Ended,
        }
    }

    /// The seam after the next poll of `key`'s multishot stream.
    pub open spec fn after_multishot_next(self, key: MultishotSlotKey) -> SeamState {
        match self.multishot {
            Some(slots) => SeamState {
                multishot: Some(
                    if slots.front(key) is None && slots.terminated(key) {
                        slots.freed(key)
                    } else {
                        slots.popped(key)
                    },
                ),
                ..self
            },
            None => self,
        }
    }

    /// What the next poll of `key`'s recv stream yields: a queued completion,
    /// then the final one, then the end.
    pub open spec fn recv_item(self, key: RecvMultishotSlotKey) -> RecvMultishotNext {
        match self.recv {
            Some(slots) => match slots.front(key) {
                Some((result, stored)) => RecvMultishotNext::Item {
                    result,
                    buf_id: reported_buffer(stored),
                },
                None => match slots.terminal(key) {
                    Some((result, stored)) => RecvMultishotNext::Item {
                        result,
                        buf_id: reported_buffer(stored),
                    },
                    None => if slots.terminated(key) {
                        RecvMultishotNext::Ended
                    } else {
                        RecvMultishotNext::Pending
                    },
                },
            },
            None => RecvMultishotNext::Ended,
        }
    }

    /// The seam after the next poll of `key`'s recv stream.
    pub open spec fn after_recv_next(self, key: RecvMultishotSlotKey) -> SeamState {
        match self.recv {
            Some(slots) => SeamState {
                recv: Some(
                    if slots.front(key) is Some {
                        slots.popped(key)
                    } else if slots.terminal(key) is Some {
                        slots.terminal_taken(key)
                    } else if slots.terminated(key) {
                        slots.freed(key)
                    } else {
                        slots
                    },
                ),
                ..self
            },
            None => self,
        }
    }
}

/// The per-worker submit/complete surface an I/O future polls through.
///
/// Lives for exactly one poll window, installed and cleared by [`SeamGuard`].
/// Futures reach it with [`IoSeam::with_current`] inside their own `poll` and
/// never hold it across an `.await`. It holds the worker's driver and
/// registries for the window, and hands them back when it is taken apart.
pub struct IoSeam {
    /// Worker id the seam is installed for.
    pub worker_id: u8,
    /// The worker's I/O driver, or `None` for a test seam with no backend.
    pub driver: Option<DriverType>,
    /// The worker's in-flight buffer registry, or `None` for a test seam.
    pub inflight_slab: Option<InflightBufSlab>,
    /// The worker's multishot registry, or `None` for a test seam.
    pub multishot_slab: Option<MultishotSlab>,
    /// The worker's multishot recv registry, or `None` for a test seam.
    pub recv_multishot_slab: Option<RecvMultishotSlab>,
    /// The polling task's captured completion result, when one has arrived.
    pub wake_slot: Option<WakeSlot>,
    /// Ops submitted through the seam this poll. The runtime folds the count
    /// onto the polling task's header after the poll returns, so in-flight
    /// accounting holds.
    pub submitted: u16,
}

impl View for IoSeam {
    type V = SeamState;

    open spec fn view(&self) -> SeamState {
        SeamState {
            worker_id: self.worker_id,
            driver: match self.driver {
                Some(driver) => Some(driver@),
                None => None,
            },
            inflight: match self.inflight_slab {
                Some(slab) => Some(slab@),
                None => None,
            },
            multishot: match self.multishot_slab {
                Some(slab) => Some(slab@),
                None => None,
            },
            recv: match self.recv_multishot_slab {
                Some(slab) => Some(slab@),
                None => None,
            },
            wake_slot: self.wake_slot,
            submitted: self.submitted,
        }
    }
}

impl IoSeam {
    /// The driver and every registry the seam holds are well formed.
    pub open spec fn wf(&self) -> bool {
        &&& self.driver matches Some(driver) ==> driver.wf()
        &&& self.inflight_slab matches Some(slab) ==> slab.wf()
        &&& self.multishot_slab matches Some(slab) ==> slab.wf()
        &&& self.recv_multishot_slab matches Some(slab) ==> slab.wf()
    }

    /// Builds a seam for one poll window.
    #[must_use]
    pub fn new(
        worker_id: u8,
        driver: Option<DriverType>,
        inflight_slab: Option<InflightBufSlab>,
        wake_slot: Option<WakeSlot>,
    ) -> (seam: Self)
        requires
            driver matches Some(backend) ==> backend.wf(),
            inflight_slab matches Some(slab) ==> slab.wf(),
        ensures
            seam.wf(),
            seam.worker_id == worker_id,
            seam.driver == driver,
            seam.inflight_slab == inflight_slab,
            seam.multishot_slab is None,
            seam.recv_multishot_slab is None,
            seam.wake_slot == wake_slot,
            seam.submitted == 0,
    {
        IoSeam {
            worker_id,
            driver,
            inflight_slab,
            multishot_slab: None,
            recv_multishot_slab: None,
            wake_slot,
            submitted: 0,
        }
    }

    /// Attaches the worker's multishot registry to the seam.
    ///
    /// The run-loop calls this only on the production path; a test seam keeps
    /// `None` and a multishot stream resolves as unsupported.
    #[must_use]
    pub fn with_multishot_slab(self, slab: Option<MultishotSlab>) -> (seam: Self)
        requires
            self.wf(),
            slab matches Some(registry) ==> registry.wf(),
        ensures
            seam.wf(),
            seam == (IoSeam { multishot_slab: slab, ..self }),
    {
        let mut seam = self;
        seam.multishot_slab = slab;
        seam
    }

    /// Attaches the worker's multishot recv registry to the seam.
    ///
    /// The run-loop calls this only on the production path; a test seam keeps
    /// `None` and a recv stream resolves as unsupported.
    #[must_use]
    pub fn with_recv_multishot_slab(self, slab: Option<RecvMultishotSlab>) -> (seam: Self)
        requires
            self.wf(),
            slab matches Some(registry) ==> registry.wf(),
        ensures
            seam.wf(),
            seam == (IoSeam { recv_multishot_slab: slab, ..self }),
    {
        let mut seam = self;
        seam.recv_multishot_slab = slab;
        seam
    }

    /// Borrows the seam installed for `worker_id`, or returns `None` when no
    /// seam is installed.
    pub fn with_current(seams: &mut WorkerSlots<IoSeam>, worker_id: u8) -> (seam: Option<
        &mut IoSeam,
    >)
        requires
            old(seams).wf(),
        ensures
            final(seams).wf(),
            match seam {
                Some(current) => {
                    &&& old(seams)@[worker_id as int] == Some(*current)
                    &&& final(seams)@ == old(seams)@.update(
                        worker_id as int,
                        Some(*final(current)),
                    )
                },
                None => {
                    &&& old(seams)@[worker_id as int] is None
                    &&& final(seams)@ == old(seams)@
                },
            },
    {
        seams.get_mut(worker_id)
    }

    /// Returns the worker id the seam is installed for.
    #[must_use]
    pub fn worker_id(&self) -> (worker_id: u8)
        ensures
            worker_id == self@.worker_id,
    {
        self.worker_id
    }

    /// Returns the completion result captured for the polling task, or `None`
    /// while the op is still in flight.
    #[must_use]
    pub fn completion_result(&self) -> (result: Option<WakeSlot>)
        ensures
            result == self@.wake_slot,
    {
        self.wake_slot
    }

    /// Returns how many ops this poll submitted through the seam.
    ///
    /// The runtime reads the count after the poll and lands it on the polling
    /// task's header, pairing every increment with a completion-harvest
    /// decrement.
    #[must_use]
    pub fn submitted(&self) -> (count: u16)
        ensures
            count == self@.submitted,
    {
        self.submitted
    }

    /// Raises the per-poll count when the op was submitted.
    fn count(&mut self, outcome: SubmitResult)
        ensures
            *final(self) == (IoSeam {
                submitted: counted(old(self).submitted, outcome),
                ..*old(self)
            }),
    {
        if let SubmitResult::Submitted(_) = outcome {
            self.submitted = self.submitted.wrapping_add(1);
        }
    }

    /// Submits a no-buffer op (accept, connect, timeout, cancel) for the
    /// polling task.
    ///
    /// Returns `None` when the seam carries no driver -- a test seam with no
    /// I/O backend. A successful submit raises the per-poll count the runtime
    /// folds onto the task's in-flight accounting.
    pub fn submit_internal(&mut self, request: IoRequest) -> (outcome: Option<SubmitResult>)
        requires
            old(self).wf(),
        ensures
            final(self).wf(),
            outcome == old(self)@.submit_outcome(request),
            final(self)@ == old(self)@.after_submit(request),
    {
        let outcome = match &mut self.driver {
            Some(driver) => driver.submit_internal(request),
            None => return None,
        };
        self.count(outcome);
        Some(outcome)
    }

    /// Submits a no-buffer op bounded by a native `link_timeout` deadline for
    /// the polling task.
    ///
    /// Returns `None` when the seam carries no driver. A successful submit
    /// raises the per-poll count the runtime folds onto the task's in-flight
    /// accounting; the paired discard completion is never task-attributed, so
    /// only the primary op counts. [`SubmitResult::Unsupported`] surfaces when
    /// the kernel lacks `link_timeout`, leaving the caller to fall back to the
    /// timer-wheel deadline (fallback parity).
    pub fn submit_linked_timeout_internal(&mut self, request: &IoRequest, deadline_ns: u64) -> (
        outcome: Option<SubmitResult>)
        requires
            old(self).wf(),
        ensures
            final(self).wf(),
            match old(self)@.driver {
                Some(driver) => {
                    &&& outcome == Some(driver.linked_outcome(*request))
                    &&& final(self)@ == (SeamState {
                        driver: Some(driver.linked(*request, deadline_ns)),
                        submitted: counted(
                            old(self)@.submitted,
                            driver.linked_outcome(*request),
                        ),
                        ..old(self)@
                    })
                },
                None => outcome is None && final(self)@ == old(self)@,
            },
    {
        let outcome = match &mut self.driver {
            Some(driver) => driver.submit_linked_timeout_internal(*request, deadline_ns),
            None => return None,
        };
        self.count(outcome);
        Some(outcome)
    }

    /// Submits a read-class op (the kernel writes into `request`'s slot) for
    /// the polling task.
    ///
    /// Returns `None` when the seam carries no driver. A successful submit
    /// raises the per-poll count the runtime folds onto the task's in-flight
    /// accounting.
    pub fn submit_read(&mut self, request: IoRequest) -> (outcome: Option<SubmitResult>)
        requires
            old(self).wf(),
        ensures
            final(self).wf(),
            outcome == old(self)@.submit_outcome(request),
            final(self)@ == old(self)@.after_submit(request),
    {
        self.submit_internal(request)
    }

    /// Submits a write-class op (the kernel reads from `request`'s slot) for
    /// the polling task.
    ///
    /// Returns `None` when the seam carries no driver. A successful submit
    /// raises the per-poll count the runtime folds onto the task's in-flight
    /// accounting.
    pub fn submit(&mut self, request: IoRequest) -> (outcome: Option<SubmitResult>)
        requires
            old(self).wf(),
        ensures
            final(self).wf(),
            outcome == old(self)@.submit_outcome(request),
            final(self)@ == old(self)@.after_submit(request),
    {
        self.submit_internal(request)
    }

    /// Submits a single-shot provided-buffer recv on `fd` for the polling task,
    /// addressed by `token` for the `user_data` round trip.
    ///
    /// The kernel selects a buffer from the driver's registered `buf_ring`
    /// group; the completion carries the chosen buffer id, read later via
    /// [`completion_result`](Self::completion_result). Returns `None` when the
    /// seam carries no driver, and `Some(SubmitResult::Unsupported)` when the
    /// backend registered no provided-buffer group -- the caller then takes the
    /// inline-buffer recv path (fallback parity). A successful submit raises
    /// the per-poll count the runtime folds onto the task's in-flight
    /// accounting.
    pub fn submit_provided_recv(&mut self, fd: i32, token: u64) -> (outcome: Option<SubmitResult>)
        requires
            old(self).wf(),
        ensures
            final(self).wf(),
            outcome == old(self)@.gated_outcome(old(self)@.provided_recv_request(fd, token)),
            final(self)@ == old(self)@.after_gated(old(self)@.provided_recv_request(fd, token)),
    {
        let group = match &self.driver {
            Some(driver) => driver.provided_recv_group(),
            None => return None,
        };
        match group {
            Some(group) => self.submit_internal(
                IoRequest::recv_provided(fd, group).with_user_data(token),
            ),
            None => Some(SubmitResult::Unsupported),
        }
    }

    /// Submits a multishot provided-buffer recv on `fd` for the polling task.
    ///
    /// `token` must be the recv-multishot sentinel the registry issues for this
    /// stream, not a bare task token: the completion drain routes a completion
    /// into the recv-multishot slab only when its `user_data` is a
    /// recv-multishot sentinel.
    ///
    /// One SQE streams a completion per received buffer until cancelled. The
    /// capability is probed up front: a backend without multishot recv resolves
    /// `Some(SubmitResult::Unsupported)` synchronously rather than depending on
    /// the kernel to reject the SQE, and a backend with no registered
    /// provided-buffer group resolves the same. Either signals the caller to
    /// degrade to the single-shot provided recv (fallback parity). Returns
    /// `None` when the seam carries no driver. A successful submit raises the
    /// per-poll count the runtime folds onto the task's in-flight accounting.
    pub fn submit_recv_multishot_provided(&mut self, fd: i32, token: u64) -> (outcome: Option<
        SubmitResult,
    >)
        requires
            old(self).wf(),
        ensures
            final(self).wf(),
            outcome == old(self)@.gated_outcome(old(self)@.recv_multishot_request(fd, token)),
            final(self)@ == old(self)@.after_gated(old(self)@.recv_multishot_request(fd, token)),
    {
        let group = match &self.driver {
            Some(driver) => {
                if !driver.capabilities().multishot_recv {
                    return Some(SubmitResult::Unsupported);
                }
                driver.provided_recv_group()
            },
            None => return None,
        };
        match group {
            Some(group) => self.submit_internal(
                IoRequest::recv_multishot_provided(fd, group).with_user_data(token),
            ),
            None => Some(SubmitResult::Unsupported),
        }
    }

    /// Whether the backend supports zero-copy send (`SEND_ZC`, kernel 6.0+).
    ///
    /// A send future probes this up front: a backend that reports support lets
    /// the kernel read the buffer in place, otherwise the future falls back to
    /// a plain copying send (fallback parity). A seam with no driver (a test
    /// seam) reports `false`.
    #[must_use]
    pub fn is_send_zc_supported(&self) -> (flag: bool)
        ensures
            flag == (self@.driver matches Some(driver) && driver.capabilities.send_zc),
    {
        match &self.driver {
            Some(driver) => driver.capabilities().send_zc,
            None => false,
        }
    }

    /// Allocates an in-flight buffer slot for a buffered op on the polling
    /// task.
    ///
    /// Returns the slot handle paired with the byte offset of its
    /// [`INFLIGHT_BUF_STRIDE`] bytes in the registry's storage. Returns `None`
    /// when the seam carries no slab (a test seam with no backend) or the
    /// registry is full.
    pub fn allocate_slot(&mut self, op_token: u64) -> (slot: Option<(InflightSlotKey, usize)>)
        requires
            old(self).wf(),
        ensures
            final(self).wf(),
            match old(self)@.inflight {
                Some(slots) => {
                    &&& final(self)@ == (SeamState {
                        inflight: Some(slots.allocated(op_token)),
                        ..old(self)@
                    })
                    &&& slot == (match slots.allocated_key(op_token) {
                        Some(key) => Some((key, (key.slot * INFLIGHT_BUF_STRIDE) as usize)),
                        None => None,
                    })
                    &&& match slot {
                        Some((key, _)) => slots.lowest_free(key.slot as int) && final(self)@.live(
                            key,
                        ),
                        None => slots.full(),
                    }
                },
                None => slot is None && final(self)@ == old(self)@,
            },
    {
        match &mut self.inflight_slab {
            Some(slab) => {
                let key = match slab.allocate(op_token) {
                    Some(key) => key,
                    None => return None,
                };
                match slab.slot_ptr(key) {
                    Some(offset) => Some((key, offset)),
                    None => None,
                }
            },
            None => None,
        }
    }

    /// Copies `src`'s initialized bytes into `key`'s slot.
    ///
    /// Returns `false` without copying when `key` is stale, or when `src`'s
    /// initialized length exceeds the slot stride -- the caller then frees the
    /// slot and fails the submit rather than copy out of bounds. A seam with no
    /// slab reports `false`.
    #[must_use]
    pub fn copy_into_slot(&mut self, key: InflightSlotKey, src: &IoBuf) -> (copied: bool)
        requires
            old(self).wf(),
            src.wf(),
        ensures
            final(self).wf(),
            copied == (old(self)@.live(key) && src@.len() <= INFLIGHT_BUF_STRIDE),
            final(self)@ == (if copied {
                old(self)@.written(key, 0, src@)
            } else {
                old(self)@
            }),
    {
        match &mut self.inflight_slab {
            Some(slab) => slab.write_slot(key, 0, src.as_slice()),
            None => false,
        }
    }

    /// Copies `key`'s completed slot bytes into `dst` and frees the slot.
    ///
    /// Called on the completion poll of a read-class buffered future, once its
    /// completion has arrived: `len` is the kernel-confirmed byte count, and
    /// the copy is clamped to both the slot stride and `dst`. Freeing the slot
    /// returns it to the registry with a bumped generation, so the future's
    /// later drop -- which still holds the now-stale key -- pushes a cancel
    /// that the slab rejects as stale. A no-op when the seam carries no slab.
    pub fn harvest_into(&mut self, key: InflightSlotKey, len: usize, dst: &mut [u8])
        requires
            old(self).wf(),
        ensures
            final(self).wf(),
            final(self)@ == old(self)@.freed(key),
            final(dst)@ == (if old(self)@.live(key) {
                harvested(old(self)@.slot_bytes(key), len as int, old(dst)@)
            } else {
                old(dst)@
            }),
    {
        match &mut self.inflight_slab {
            Some(slab) => {
                if let Some(src) = slab.slot_slice(key, len) {
                    proof {
                        slab.slab_is_valid();
                    }
                    let count: usize = if src.len() <= dst.len() {
                        src.len()
                    } else {
                        dst.len()
                    };
                    let mut done: usize = 0;
                    while done < count
                        invariant
                            done <= count <= src@.len(),
                            count <= old(dst)@.len(),
                            dst@.len() == old(dst)@.len(),
                            forall|at: int|
                                0 <= at < dst@.len() ==> dst@[at] == (if at < done {
                                    src@[at]
                                } else {
                                    old(dst)@[at]
                                }),
                        decreases count - done,
                    {
                        dst[done] = src[done];
                        done = done + 1;
                    }
                    assert(dst@ =~= harvested(old(self)@.slot_bytes(key), len as int, old(dst)@));
                }
                slab.free(key);
            },
            None => {},
        }
    }

    /// Copies `key`'s completed slot bytes into `dst` and frees the slot.
    ///
    /// Same calling contract as [`harvest_into`](Self::harvest_into): called on
    /// the completion poll of a read-class buffered future once its completion
    /// has arrived, with `len` the kernel-confirmed byte count. The copy clamps
    /// to both the slot stride and `dst`'s capacity, and `dst` records the
    /// copied length. A no-op when the seam carries no slab.
    pub fn harvest_into_buf(&mut self, key: InflightSlotKey, len: usize, dst: &mut IoBuf)
        requires
            old(self).wf(),
            old(dst).wf(),
        ensures
            final(self).wf(),
            final(dst).wf(),
            final(dst).room() == old(dst).room(),
            final(self)@ == old(self)@.freed(key),
            final(dst)@ == (if old(self)@.inflight is None {
                old(dst)@
            } else if old(self)@.live(key) {
                taken(
                    old(self)@.slot_bytes(key),
                    len as int,
                    INFLIGHT_BUF_STRIDE as int,
                    old(dst).room() as int,
                )
            } else {
                Seq::empty()
            }),
    {
        match &mut self.inflight_slab {
            Some(slab) => {
                match slab.slot_slice(key, len) {
                    Some(src) => {
                        proof {
                            slab.slab_is_valid();
                        }
                        let count: usize = dst.fill(src);
                        assert(dst@ =~= taken(
                            old(self)@.slot_bytes(key),
                            len as int,
                            INFLIGHT_BUF_STRIDE as int,
                            old(dst).room() as int,
                        ));
                    },
                    None => {
                        let nothing: &[u8] = &[];
                        let count: usize = dst.fill(nothing);
                        assert(dst@ =~= Seq::<u8>::empty());
                    },
                }
                slab.free(key);
            },
            None => {},
        }
    }

    /// Frees `key`'s slot without reading it.
    ///
    /// Called on the completion poll of a write-class buffered future (the
    /// kernel read the slot, nothing to copy back) and on the submit-failure
    /// path of any buffered future. A stale key is a no-op in the slab; a seam
    /// with no slab is a no-op here.
    pub fn free_slot(&mut self, key: InflightSlotKey)
        requires
            old(self).wf(),
        ensures
            final(self).wf(),
            final(self)@ == old(self)@.freed(key),
    {
        match &mut self.inflight_slab {
            Some(slab) => slab.free(key),
            None => {},
        }
    }

    /// Lays out a `sendmsg` in `key`'s slot and returns where its parts lie.
    ///
    /// Copies `src`'s initialized bytes into the slot payload region and packs
    /// `addr` into its address region. Returns `None` when the seam carries no
    /// slab, `key` is stale, or `src`'s initialized length exceeds the payload
    /// capacity -- the caller then frees the slot and fails the submit rather
    /// than truncate the datagram.
    pub fn build_send_msg(&mut self, key: InflightSlotKey, src: &IoBuf, addr: &SockAddr) -> (layout:
        Option<MsgLayout>)
        requires
            old(self).wf(),
            src.wf(),
            addr.wf(),
        ensures
            final(self).wf(),
            if old(self)@.live(key) && src@.len() <= MAX_MSG_INLINE_CAP {
                &&& layout == Some(
                    MsgLayout::at(
                        key.slot * INFLIGHT_BUF_STRIDE,
                        pack::packed_len(*addr),
                        src@.len() as int,
                    ),
                )
                &&& final(self)@ == old(self)@.written(
                    key,
                    MSG_PAYLOAD_OFFSET as int,
                    src@,
                ).written(key, MSG_ADDR_OFFSET as int, pack::packed(*addr))
            } else {
                &&& layout is None
                &&& final(self)@ == old(self)@
            },
    {
        match &mut self.inflight_slab {
            Some(slab) => {
                let offset: usize = match slab.slot_ptr(key) {
                    Some(offset) => offset,
                    None => return None,
                };
                let len: usize = src.bytes_init();
                if len > MAX_MSG_INLINE_CAP {
                    return None;
                }
                let _ = slab.write_slot(key, MSG_PAYLOAD_OFFSET, src.as_slice());
                let mut packed: [u8; 128] = [0u8; 128];
                let addr_len: u32 = addr.pack_into(&mut packed);
                let _ = slab.write_slot(key, MSG_ADDR_OFFSET, packed.as_slice());
                proof {
                    assert(pack::packed(*addr).len() == 128);
                }
                Some(
                    MsgLayout {
                        header: offset,
                        addr: offset + MSG_ADDR_OFFSET,
                        addr_len,
                        payload: offset + MSG_PAYLOAD_OFFSET,
                        payload_len: len,
                    },
                )
            },
            None => None,
        }
    }

    /// Lays out a `recvmsg` in `key`'s slot and returns where its parts lie.
    ///
    /// Offers the kernel `cap` payload bytes (clamped to the slot's payload
    /// capacity) and the full address region, emptied, as an out-parameter.
    /// Returns `None` when the seam carries no slab or `key` is stale.
    pub fn build_recv_msg(&mut self, key: InflightSlotKey, cap: usize) -> (layout: Option<
        MsgLayout,
    >)
        requires
            old(self).wf(),
        ensures
            final(self).wf(),
            if old(self)@.live(key) {
                &&& layout == Some(
                    MsgLayout::at(
                        key.slot * INFLIGHT_BUF_STRIDE,
                        pack::STORAGE_LEN as int,
                        inflight::clamped_len(cap as int, MAX_MSG_INLINE_CAP as int),
                    ),
                )
                &&& final(self)@ == old(self)@.written(
                    key,
                    MSG_ADDR_OFFSET as int,
                    Seq::new(pack::STORAGE_LEN as nat, |at: int| 0u8),
                )
            } else {
                &&& layout is None
                &&& final(self)@ == old(self)@
            },
    {
        match &mut self.inflight_slab {
            Some(slab) => {
                let offset: usize = match slab.slot_ptr(key) {
                    Some(offset) => offset,
                    None => return None,
                };
                let empty: [u8; 128] = [0u8; 128];
                assert(empty@ =~= Seq::new(pack::STORAGE_LEN as nat, |at: int| 0u8));
                let _ = slab.write_slot(key, MSG_ADDR_OFFSET, empty.as_slice());
                let payload_len: usize = if cap <= MAX_MSG_INLINE_CAP {
                    cap
                } else {
                    MAX_MSG_INLINE_CAP
                };
                Some(
                    MsgLayout {
                        header: offset,
                        addr: offset + MSG_ADDR_OFFSET,
                        addr_len: 128,
                        payload: offset + MSG_PAYLOAD_OFFSET,
                        payload_len,
                    },
                )
            },
            None => None,
        }
    }

    /// Reads the sender address the kernel wrote into `key`'s slot after a
    /// `recvmsg`, or `None` for a slab-less seam, a stale key, or a family the
    /// parse does not handle.
    ///
    /// Call on the completion poll once the completion has arrived and BEFORE
    /// [`harvest_msg_payload`](Self::harvest_msg_payload) frees the slot.
    pub fn read_msg_sender(&self, key: InflightSlotKey) -> (sender: Option<SockAddr>)
        requires
            self.wf(),
        ensures
            if self@.live(key) {
                pack::unpacks_to(msg_addr(self@.slot_bytes(key)), sender)
            } else {
                sender is None
            },
    {
        match &self.inflight_slab {
            Some(slab) => match slab.slot_array(key) {
                Some(slot) => pack::unpack(
                    vstd::slice::slice_subrange(slot, MSG_ADDR_OFFSET, MSG_PAYLOAD_OFFSET),
                ),
                None => None,
            },
            None => None,
        }
    }

    /// Copies `key`'s received datagram payload into `dst` and frees the slot.
    ///
    /// Called on the completion poll of a `recvmsg` future once its completion
    /// has arrived, with `len` the kernel-confirmed byte count. The copy clamps
    /// to both the slot payload capacity and `dst`'s capacity, and `dst`
    /// records the copied length. A no-op when the seam carries no slab. Call
    /// AFTER [`read_msg_sender`](Self::read_msg_sender), which this frees out
    /// from under.
    pub fn harvest_msg_payload(&mut self, key: InflightSlotKey, len: usize, dst: &mut IoBuf)
        requires
            old(self).wf(),
            old(dst).wf(),
        ensures
            final(self).wf(),
            final(dst).wf(),
            final(dst).room() == old(dst).room(),
            final(self)@ == old(self)@.freed(key),
            final(dst)@ == (if old(self)@.inflight is None {
                old(dst)@
            } else if old(self)@.live(key) {
                taken(
                    msg_payload(old(self)@.slot_bytes(key)),
                    len as int,
                    MAX_MSG_INLINE_CAP as int,
                    old(dst).room() as int,
                )
            } else {
                Seq::empty()
            }),
    {
        match &mut self.inflight_slab {
            Some(slab) => {
                match slab.slot_array(key) {
                    Some(slot) => {
                        let limit: usize = if len <= MAX_MSG_INLINE_CAP {
                            len
                        } else {
                            MAX_MSG_INLINE_CAP
                        };
                        let count: usize = dst.fill(
                            vstd::slice::slice_subrange(
                                slot,
                                MSG_PAYLOAD_OFFSET,
                                MSG_PAYLOAD_OFFSET + limit,
                            ),
                        );
                        assert(dst@ =~= taken(
                            msg_payload(old(self)@.slot_bytes(key)),
                            len as int,
                            MAX_MSG_INLINE_CAP as int,
                            old(dst).room() as int,
                        ));
                    },
                    None => {
                        let nothing: &[u8] = &[];
                        let count: usize = dst.fill(nothing);
                        assert(dst@ =~= Seq::<u8>::empty());
                    },
                }
                slab.free(key);
            },
            None => {},
        }
    }

    /// Whether `key`'s in-flight slot has seen its `SEND_ZC` notification.
    ///
    /// A resolve-on-notification send future polls this by key during its own
    /// poll: `true` means the kernel released the buffer, so the future may
    /// resolve and free its slot. A seam with no slab, or a stale key, reads
    /// `false`.
    #[must_use]
    pub fn slot_notif_ready(&self, key: InflightSlotKey) -> (flag: bool)
        requires
            self.wf(),
        ensures
            flag == (self@.live(key) && self@.inflight->0.slots[key.slot as int].notif_ready),
    {
        match &self.inflight_slab {
            Some(slab) => slab.is_notif_ready(key),
            None => false,
        }
    }

    /// Reserves a multishot slot for the polling task.
    ///
    /// `owner_token` is the polling task, woken on each completion. On
    /// [`MultishotAlloc::Allocated`] the stream tags its multishot SQE with the
    /// returned sentinel and drains the slot's FIFO on later polls via
    /// [`IoSeam::multishot_next`]. Returns [`MultishotAlloc::Full`] when every
    /// slot is occupied, so the stream can degrade to single-shot, and
    /// [`MultishotAlloc::Unsupported`] when the seam carries no multishot
    /// registry (a test seam).
    pub fn allocate_multishot_slot(&mut self, owner_token: u64) -> (outcome: MultishotAlloc)
        requires
            old(self).wf(),
        ensures
            final(self).wf(),
            match old(self)@.multishot {
                Some(slots) => {
                    &&& final(self)@ == (SeamState {
                        multishot: Some(slots.allocated(owner_token)),
                        ..old(self)@
                    })
                    &&& outcome == (match slots.allocated_key() {
                        Some(key) => MultishotAlloc::Allocated {
                            key,
                            sentinel: token::sentinel(
                                token::MULTISHOT_TOKEN_BASE,
                                key.slot,
                                key.generation,
                            ),
                        },
                        None => MultishotAlloc::Full,
                    })
                    &&& match outcome {
                        MultishotAlloc::Allocated { key, .. } => slots.lowest_free(key.slot as int),
                        _ => slots.full(),
                    }
                },
                None => outcome == MultishotAlloc::Unsupported && final(self)@ == old(self)@,
            },
    {
        match &mut self.multishot_slab {
            Some(slab) => match slab.allocate(owner_token) {
                Some(key) => MultishotAlloc::Allocated {
                    key,
                    sentinel: encode_multishot_sentinel(key),
                },
                None => MultishotAlloc::Full,
            },
            None => MultishotAlloc::Unsupported,
        }
    }

    /// Advances `key`'s multishot stream by one completion.
    ///
    /// Returns the next queued result, `Pending` while the op is in flight with
    /// an empty FIFO, or `Ended` once the op posted its terminal completion and
    /// the FIFO is drained -- freeing the slot. A seam with no multishot slab
    /// yields `Ended`.
    pub fn multishot_next(&mut self, key: MultishotSlotKey) -> (next: MultishotNext)
        requires
            old(self).wf(),
        ensures
            final(self).wf(),
            next == old(self)@.multishot_item(key),
            final(self)@ == old(self)@.after_multishot_next(key),
    {
        match &mut self.multishot_slab {
            Some(slab) => {
                if let Some(result) = slab.pop(key) {
                    return MultishotNext::Item(result);
                }
                if slab.is_terminated(key) {
                    slab.free(key);
                    return MultishotNext::Ended;
                }
                MultishotNext::Pending
            },
            None => MultishotNext::Ended,
        }
    }

    /// Frees `key`'s multishot slot without draining it.
    ///
    /// The stream calls this only when a submit fails right after an allocate,
    /// so the slot carries no in-flight op. A stale key is a no-op; a seam with
    /// no multishot slab is a no-op.
    pub fn multishot_free(&mut self, key: MultishotSlotKey)
        requires
            old(self).wf(),
        ensures
            final(self).wf(),
            final(self)@ == (SeamState {
                multishot: match old(self)@.multishot {
                    Some(slots) => Some(slots.freed(key)),
                    None => None,
                },
                ..old(self)@
            }),
    {
        match &mut self.multishot_slab {
            Some(slab) => slab.free(key),
            None => {},
        }
    }

    /// Reserves a multishot recv slot for the polling task.
    ///
    /// `owner_token` is the polling task, woken on each completion. On
    /// [`RecvMultishotAlloc::Allocated`] the stream tags its multishot recv SQE
    /// with the returned sentinel and drains the slot's FIFO on later polls via
    /// [`IoSeam::recv_multishot_next`]. Returns [`RecvMultishotAlloc::Full`]
    /// when every slot is occupied, so the stream can degrade to a single-shot
    /// provided recv, and [`RecvMultishotAlloc::Unsupported`] when the seam
    /// carries no recv registry (a test seam).
    pub fn allocate_recv_multishot_slot(&mut self, owner_token: u64) -> (outcome:
        RecvMultishotAlloc)
        requires
            old(self).wf(),
        ensures
            final(self).wf(),
            match old(self)@.recv {
                Some(slots) => {
                    &&& final(self)@ == (SeamState {
                        recv: Some(slots.allocated(owner_token)),
                        ..old(self)@
                    })
                    &&& outcome == (match slots.allocated_key() {
                        Some(key) => RecvMultishotAlloc::Allocated {
                            key,
                            sentinel: token::sentinel(
                                token::RECV_MULTISHOT_TOKEN_BASE,
                                key.slot,
                                key.generation,
                            ),
                        },
                        None => RecvMultishotAlloc::Full,
                    })
                    &&& match outcome {
                        RecvMultishotAlloc::Allocated { key, .. } => slots.lowest_free(key.slot as int),
                        _ => slots.full(),
                    }
                },
                None => outcome == RecvMultishotAlloc::Unsupported && final(self)@ == old(self)@,
            },
    {
        match &mut self.recv_multishot_slab {
            Some(slab) => match slab.allocate(owner_token) {
                Some(key) => RecvMultishotAlloc::Allocated {
                    key,
                    sentinel: encode_recv_multishot_sentinel(key),
                },
                None => RecvMultishotAlloc::Full,
            },
            None => RecvMultishotAlloc::Unsupported,
        }
    }

    /// Advances `key`'s multishot recv stream by one completion.
    ///
    /// Returns the next queued data `(result, buf_id)`; then, once the FIFO is
    /// drained, the stashed terminal completion as the stream's final item;
    /// `Pending` while the op is in flight with an empty FIFO; or `Ended` once
    /// the terminal has been handed back and the slot freed. A seam with no
    /// recv slab yields `Ended`. A [`NO_BUFFER`] entry (end of stream or a
    /// negative result) reports `buf_id: None`.
    ///
    /// The terminal completion lives in the slot rather than the FIFO, so it is
    /// delivered intact even when a deep consumer backlog overflowed the FIFO,
    /// keeping a clean close distinct from an error end.
    ///
    /// Buffer-recycle contract: a `Some(buf_id)` handed back in an
    /// [`RecvMultishotNext::Item`] names a kernel-selected provided buffer the
    /// caller now owns. The caller must read it and return it to the driver's
    /// pool, or the pool entry leaks until teardown.
    pub fn recv_multishot_next(&mut self, key: RecvMultishotSlotKey) -> (next: RecvMultishotNext)
        requires
            old(self).wf(),
        ensures
            final(self).wf(),
            next == old(self)@.recv_item(key),
            final(self)@ == old(self)@.after_recv_next(key),
    {
        match &mut self.recv_multishot_slab {
            Some(slab) => {
                if let Some((result, stored)) = slab.pop(key) {
                    let buf_id = if stored == NO_BUFFER {
                        None
                    } else {
                        Some(stored)
                    };
                    return RecvMultishotNext::Item { result, buf_id };
                }
                let ghost undrained = slab@;
                if let Some((result, stored)) = slab.take_terminal(key) {
                    let buf_id = if stored == NO_BUFFER {
                        None
                    } else {
                        Some(stored)
                    };
                    return RecvMultishotNext::Item { result, buf_id };
                }
                proof {
                    if undrained.live(key) {
                        assert(undrained.terminal_taken(key).slots =~= undrained.slots);
                    }
                }
                if slab.is_terminated(key) {
                    slab.free(key);
                    return RecvMultishotNext::Ended;
                }
                RecvMultishotNext::Pending
            },
            None => RecvMultishotNext::Ended,
        }
    }

    /// Frees `key`'s multishot recv slot without draining it.
    ///
    /// The stream calls this only when a submit fails right after an allocate,
    /// so the slot carries no in-flight op. A stale key is a no-op; a seam with
    /// no recv slab is a no-op.
    pub fn recv_multishot_free(&mut self, key: RecvMultishotSlotKey)
        requires
            old(self).wf(),
        ensures
            final(self).wf(),
            final(self)@ == (SeamState {
                recv: match old(self)@.recv {
                    Some(slots) => Some(slots.freed(key)),
                    None => None,
                },
                ..old(self)@
            }),
    {
        match &mut self.recv_multishot_slab {
            Some(slab) => slab.free(key),
            None => {},
        }
    }
}

/// `dst` after the first `len` bytes of `src` are copied to its front, as far
/// as both reach.
pub open spec fn harvested(src: Seq<u8>, len: int, dst: Seq<u8>) -> Seq<u8> {
    Seq::new(
        dst.len(),
        |at: int|
            if at < len && at < src.len() {
                src[at]
            } else {
                dst[at]
            },
    )
}

/// The first `len` bytes of `src`, as far as `limit` and `room` allow.
pub open spec fn taken(src: Seq<u8>, len: int, limit: int, room: int) -> Seq<u8> {
    src.take(inflight::clamped_len(inflight::clamped_len(len, limit), room))
}

/// The address region of a message slot.
pub open spec fn msg_addr(slot: Seq<u8>) -> Seq<u8> {
    slot.subrange(MSG_ADDR_OFFSET as int, MSG_PAYLOAD_OFFSET as int)
}

/// The payload region of a message slot.
pub open spec fn msg_payload(slot: Seq<u8>) -> Seq<u8> {
    slot.subrange(MSG_PAYLOAD_OFFSET as int, INFLIGHT_BUF_STRIDE as int)
}

/// Bracket that installs a seam for one poll window and clears it at the end.
///
/// Not re-entrant: a second install for the same worker while a guard is live
/// replaces the seam, and clearing the inner guard clears the seam the outer
/// poll still expects. The runtime polls one task at a time per worker, so no
/// nested install occurs.
pub struct SeamGuard {
    worker_id: u8,
}

impl SeamGuard {
    /// The worker whose seam the guard clears.
    pub closed spec fn worker(&self) -> u8 {
        self.worker_id
    }

    /// Installs `seam` for its worker, returning the guard that clears it.
    #[must_use]
    pub fn install(seams: &mut WorkerSlots<IoSeam>, seam: IoSeam) -> (guard: Self)
        requires
            old(seams).wf(),
        ensures
            final(seams).wf(),
            guard.worker() == seam.worker_id,
            final(seams)@ == old(seams)@.update(seam.worker_id as int, Some(seam)),
    {
        let worker_id: u8 = seam.worker_id;
        seams.install(worker_id, seam);
        SeamGuard { worker_id }
    }

    /// Ends the poll window: the worker's place is empty again, and its seam is
    /// handed back.
    pub fn clear(self, seams: &mut WorkerSlots<IoSeam>) -> (seam: Option<IoSeam>)
        requires
            old(seams).wf(),
        ensures
            final(seams).wf(),
            seam == old(seams)@[self.worker() as int],
            final(seams)@ == old(seams)@.update(self.worker() as int, None),
    {
        seams.clear(self.worker_id)
    }
}

} // verus!
