//! Per-worker registrations of the cancel inboxes.
//!
//! A dropped future reaches its worker's inbox by worker id alone. Each table
//! holds one place per possible worker id byte, so every decoded id is in
//! bounds.

use vstd::prelude::*;

use crate::boundary::cancel::inbox::{
    CANCEL_INBOX_CAPACITY, CancelInbox, RECV_CANCEL_INBOX_CAPACITY, RecvCancelInbox,
};
use crate::buffer::multishot::RecvMultishotSlotKey;
use crate::buffer::oneshot::inflight::InflightSlotKey;

verus! {

/// One place per possible worker id byte, each empty or holding what that
/// worker installed.
///
/// Its view is the places, indexed by worker id.
pub struct WorkerSlots<T> {
    slots: Vec<Option<T>>,
}

impl<T> View for WorkerSlots<T> {
    type V = Seq<Option<T>>;

    closed spec fn view(&self) -> Seq<Option<T>> {
        self.slots@
    }
}

impl<T> WorkerSlots<T> {
    /// There is a place for every worker id.
    pub closed spec fn wf(&self) -> bool {
        self.slots@.len() == 256
    }

    /// A well-formed table has a place for every worker id.
    pub broadcast proof fn lemma_every_worker_has_a_slot(&self)
        requires
            #[trigger] self.wf(),
        ensures
            self@.len() == 256,
    {
    }

    /// Creates a table with nothing installed.
    pub fn new() -> (table: Self)
        ensures
            table.wf(),
            table@ == Seq::new(256, |worker_id: int| None::<T>),
    {
        let mut slots: Vec<Option<T>> = Vec::new();
        let mut filled: usize = 0;
        while filled < 256
            invariant
                filled <= 256,
                slots@ == Seq::new(filled as nat, |worker_id: int| None::<T>),
            decreases 256 - filled,
        {
            slots.push(None);
            filled = filled + 1;
            assert(slots@ =~= Seq::new(filled as nat, |worker_id: int| None::<T>));
        }
        WorkerSlots { slots }
    }

    /// Installs `value` for `worker_id`, replacing what was there.
    pub fn install(&mut self, worker_id: u8, value: T)
        requires
            old(self).wf(),
        ensures
            final(self).wf(),
            final(self)@ == old(self)@.update(worker_id as int, Some(value)),
    {
        self.slots[worker_id as usize] = Some(value);
    }

    /// Takes out what is installed for `worker_id`, leaving its place empty.
    pub fn clear(&mut self, worker_id: u8) -> (value: Option<T>)
        requires
            old(self).wf(),
        ensures
            final(self).wf(),
            value == old(self)@[worker_id as int],
            final(self)@ == old(self)@.update(worker_id as int, None),
    {
        let value = self.slots[worker_id as usize].take();
        value
    }

    /// Whether anything is installed for `worker_id`.
    pub fn is_installed(&self, worker_id: u8) -> (flag: bool)
        requires
            self.wf(),
        ensures
            flag == (self@[worker_id as int] is Some),
    {
        self.slots[worker_id as usize].is_some()
    }

    /// Borrows what is installed for `worker_id`.
    pub fn get_mut(&mut self, worker_id: u8) -> (value: Option<&mut T>)
        requires
            old(self).wf(),
        ensures
            final(self).wf(),
            match value {
                Some(installed) => {
                    &&& old(self)@[worker_id as int] == Some(*installed)
                    &&& final(self)@ == old(self)@.update(
                        worker_id as int,
                        Some(*final(installed)),
                    )
                },
                None => {
                    &&& old(self)@[worker_id as int] is None
                    &&& final(self)@ == old(self)@
                },
            },
    {
        match &mut self.slots[worker_id as usize] {
            Some(value) => Some(value),
            None => None,
        }
    }
}

/// The cancel inbox of every worker that runs.
pub type CancelInboxes = WorkerSlots<CancelInbox<CANCEL_INBOX_CAPACITY>>;

/// The recv cancel inbox of every worker that runs.
pub type RecvCancelInboxes = WorkerSlots<RecvCancelInbox<RECV_CANCEL_INBOX_CAPACITY>>;

/// The cancels pending for each worker, oldest first; `None` where no inbox is
/// installed.
pub open spec fn pending_cancels(inboxes: CancelInboxes) -> Seq<Option<Seq<InflightSlotKey>>> {
    inboxes@.map_values(
        |slot: Option<CancelInbox<CANCEL_INBOX_CAPACITY>>|
            match slot {
                Some(inbox) => Some(inbox@),
                None => None,
            },
    )
}

/// The table and every inbox in it are well formed.
pub open spec fn inboxes_wf(inboxes: CancelInboxes) -> bool {
    &&& inboxes.wf()
    &&& forall|worker_id: int|
        0 <= worker_id < 256 ==> (#[trigger] inboxes@[worker_id] matches Some(inbox)
            ==> inbox.wf())
}

/// The recv cancels pending for each worker, oldest first; `None` where no
/// inbox is installed.
pub open spec fn pending_recv_cancels(inboxes: RecvCancelInboxes) -> Seq<
    Option<Seq<RecvMultishotSlotKey>>,
> {
    inboxes@.map_values(
        |slot: Option<RecvCancelInbox<RECV_CANCEL_INBOX_CAPACITY>>|
            match slot {
                Some(inbox) => Some(inbox@),
                None => None,
            },
    )
}

/// The table and every inbox in it are well formed.
pub open spec fn recv_inboxes_wf(inboxes: RecvCancelInboxes) -> bool {
    &&& inboxes.wf()
    &&& forall|worker_id: int|
        0 <= worker_id < 256 ==> (#[trigger] inboxes@[worker_id] matches Some(inbox)
            ==> inbox.wf())
}

/// Bracket that installs a worker's cancel inbox for its whole run-loop and
/// clears it at the end.
///
/// Not re-entrant: one run-loop per worker installs one guard; a second install
/// replaces the inbox the first one brought.
pub struct CancelInboxGuard {
    worker_id: u8,
}

impl CancelInboxGuard {
    /// The worker whose inbox the guard clears.
    pub closed spec fn worker(&self) -> u8 {
        self.worker_id
    }

    /// Installs `inbox` for `worker_id` for the run-loop, returning the guard
    /// that clears it.
    #[must_use]
    pub fn install(
        inboxes: &mut CancelInboxes,
        worker_id: u8,
        inbox: CancelInbox<CANCEL_INBOX_CAPACITY>,
    ) -> (guard: Self)
        requires
            inboxes_wf(*old(inboxes)),
            inbox.wf(),
        ensures
            inboxes_wf(*final(inboxes)),
            guard.worker() == worker_id,
            pending_cancels(*final(inboxes)) == pending_cancels(*old(inboxes)).update(
                worker_id as int,
                Some(inbox@),
            ),
    {
        inboxes.install(worker_id, inbox);
        assert(pending_cancels(*inboxes) =~= pending_cancels(*old(inboxes)).update(
            worker_id as int,
            Some(inbox@),
        ));
        CancelInboxGuard { worker_id }
    }

    /// Ends the bracket: the worker's place is empty again, and its inbox is
    /// handed back.
    pub fn clear(self, inboxes: &mut CancelInboxes) -> (inbox: Option<
        CancelInbox<CANCEL_INBOX_CAPACITY>,
    >)
        requires
            inboxes_wf(*old(inboxes)),
        ensures
            inboxes_wf(*final(inboxes)),
            match inbox {
                Some(taken) => {
                    &&& taken.wf()
                    &&& pending_cancels(*old(inboxes))[self.worker() as int] == Some(taken@)
                },
                None => pending_cancels(*old(inboxes))[self.worker() as int] is None,
            },
            pending_cancels(*final(inboxes)) == pending_cancels(*old(inboxes)).update(
                self.worker() as int,
                None,
            ),
    {
        let inbox = inboxes.clear(self.worker_id);
        assert(pending_cancels(*inboxes) =~= pending_cancels(*old(inboxes)).update(
            self.worker_id as int,
            None,
        ));
        inbox
    }
}

/// Bracket that installs a worker's recv cancel inbox for its whole run-loop
/// and clears it at the end.
///
/// Not re-entrant: one run-loop per worker installs one guard; a second install
/// replaces the inbox the first one brought.
pub struct RecvCancelInboxGuard {
    worker_id: u8,
}

impl RecvCancelInboxGuard {
    /// The worker whose inbox the guard clears.
    pub closed spec fn worker(&self) -> u8 {
        self.worker_id
    }

    /// Installs `inbox` for `worker_id` for the run-loop, returning the guard
    /// that clears it.
    #[must_use]
    pub fn install(
        inboxes: &mut RecvCancelInboxes,
        worker_id: u8,
        inbox: RecvCancelInbox<RECV_CANCEL_INBOX_CAPACITY>,
    ) -> (guard: Self)
        requires
            recv_inboxes_wf(*old(inboxes)),
            inbox.wf(),
        ensures
            recv_inboxes_wf(*final(inboxes)),
            guard.worker() == worker_id,
            pending_recv_cancels(*final(inboxes)) == pending_recv_cancels(*old(inboxes)).update(
                worker_id as int,
                Some(inbox@),
            ),
    {
        inboxes.install(worker_id, inbox);
        assert(pending_recv_cancels(*inboxes) =~= pending_recv_cancels(*old(inboxes)).update(
            worker_id as int,
            Some(inbox@),
        ));
        RecvCancelInboxGuard { worker_id }
    }

    /// Ends the bracket: the worker's place is empty again, and its inbox is
    /// handed back.
    pub fn clear(self, inboxes: &mut RecvCancelInboxes) -> (inbox: Option<
        RecvCancelInbox<RECV_CANCEL_INBOX_CAPACITY>,
    >)
        requires
            recv_inboxes_wf(*old(inboxes)),
        ensures
            recv_inboxes_wf(*final(inboxes)),
            match inbox {
                Some(taken) => {
                    &&& taken.wf()
                    &&& pending_recv_cancels(*old(inboxes))[self.worker() as int] == Some(taken@)
                },
                None => pending_recv_cancels(*old(inboxes))[self.worker() as int] is None,
            },
            pending_recv_cancels(*final(inboxes)) == pending_recv_cancels(*old(inboxes)).update(
                self.worker() as int,
                None,
            ),
    {
        let inbox = inboxes.clear(self.worker_id);
        assert(pending_recv_cancels(*inboxes) =~= pending_recv_cancels(*old(inboxes)).update(
            self.worker_id as int,
            None,
        ));
        inbox
    }
}

} // verus!
