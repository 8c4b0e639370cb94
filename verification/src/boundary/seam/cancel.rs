//! Queues a cancel from a dropped future onto its owning worker.

use vstd::prelude::*;

use crate::boundary::cancel::guard;
use crate::boundary::cancel::guard::{CancelInboxes, RecvCancelInboxes};
use crate::boundary::cancel::inbox;
use crate::boundary::cancel::inbox::{CANCEL_INBOX_CAPACITY, RECV_CANCEL_INBOX_CAPACITY};
use crate::boundary::cancel::token_set::{
    ACCEPT_CANCEL_SLOT, CONNECT_CANCEL_SLOT, PROVIDED_RECV_CANCEL_SLOT,
};
use crate::boundary::cancel::token;
use crate::boundary::cancel::token::encode_multishot_sentinel;
use crate::buffer::multishot::{MultishotSlotKey, RecvMultishotSlotKey};
use crate::buffer::oneshot::inflight::InflightSlotKey;

verus! {

/// The pending cancels of every worker after `key` is queued for its own: a
/// worker without an inbox loses it, a full inbox drops it.
pub open spec fn queued_for_worker(
    pending: Seq<Option<Seq<InflightSlotKey>>>,
    key: InflightSlotKey,
) -> Seq<Option<Seq<InflightSlotKey>>> {
    match pending[key.worker_id as int] {
        Some(queue) => pending.update(
            key.worker_id as int,
            Some(inbox::enqueued(queue, key, CANCEL_INBOX_CAPACITY as nat)),
        ),
        None => pending,
    }
}

/// The pending recv cancels of every worker after `key` is queued for its own.
pub open spec fn recv_queued_for_worker(
    pending: Seq<Option<Seq<RecvMultishotSlotKey>>>,
    key: RecvMultishotSlotKey,
) -> Seq<Option<Seq<RecvMultishotSlotKey>>> {
    match pending[key.worker_id as int] {
        Some(queue) => pending.update(
            key.worker_id as int,
            Some(inbox::enqueued(queue, key, RECV_CANCEL_INBOX_CAPACITY as nat)),
        ),
        None => pending,
    }
}

/// The key a slotless op's cancel rides on: its class marker in place of a slot.
pub open spec fn slotless_key(marker: u16, worker_id: u8, op_token: u64) -> InflightSlotKey {
    InflightSlotKey { slot: marker, generation: 0, worker_id, op_token }
}

/// The key a multishot stream's cancel rides on: its sentinel in place of a
/// task token.
pub open spec fn multishot_cancel_key(key: MultishotSlotKey) -> InflightSlotKey {
    InflightSlotKey {
        slot: key.slot,
        generation: key.generation,
        worker_id: key.worker_id,
        op_token: token::sentinel(token::MULTISHOT_TOKEN_BASE, key.slot, key.generation),
    }
}

/// Queues a cancel for a dropped buffered future's in-flight op on its worker.
///
/// A no-op when no inbox is installed for `key.worker_id`: the worker's
/// run-loop already tore down, so the op's own completion frees the slot during
/// shutdown, a bounded leak like an overflowed ring.
pub fn push_cancel_for_worker(inboxes: &mut CancelInboxes, key: InflightSlotKey)
    requires
        guard::inboxes_wf(*old(inboxes)),
    ensures
        guard::inboxes_wf(*final(inboxes)),
        guard::pending_cancels(*final(inboxes)) == queued_for_worker(
            guard::pending_cancels(*old(inboxes)),
            key,
        ),
{
    proof {
        inboxes.lemma_every_worker_has_a_slot();
    }
    if let Some(mine) = inboxes.get_mut(key.worker_id) {
        mine.push_cancel(key);
    }
    assert(guard::pending_cancels(*inboxes) =~= queued_for_worker(
        guard::pending_cancels(*old(inboxes)),
        key,
    ));
}

/// Queues a cancel for a dropped single-shot accept on its worker.
///
/// The accept op carries the polling task's `token` as its `user_data` and
/// holds no inflight slab slot, so the queued key uses the accept marker in
/// place of a slot.
pub fn push_accept_cancel_for_worker(inboxes: &mut CancelInboxes, worker_id: u8, token: u64)
    requires
        guard::inboxes_wf(*old(inboxes)),
    ensures
        guard::inboxes_wf(*final(inboxes)),
        guard::pending_cancels(*final(inboxes)) == queued_for_worker(
            guard::pending_cancels(*old(inboxes)),
            slotless_key(ACCEPT_CANCEL_SLOT, worker_id, token),
        ),
{
    push_cancel_for_worker(
        inboxes,
        InflightSlotKey { slot: ACCEPT_CANCEL_SLOT, generation: 0, worker_id, op_token: token },
    );
}

/// Queues a cancel for a dropped provided-buffer recv on its worker.
///
/// The recv op carries the polling task's `token` as its `user_data` and holds
/// no inflight slab slot, so the queued key uses the provided-recv marker in
/// place of a slot.
pub fn push_provided_recv_cancel_for_worker(inboxes: &mut CancelInboxes, worker_id: u8, token: u64)
    requires
        guard::inboxes_wf(*old(inboxes)),
    ensures
        guard::inboxes_wf(*final(inboxes)),
        guard::pending_cancels(*final(inboxes)) == queued_for_worker(
            guard::pending_cancels(*old(inboxes)),
            slotless_key(PROVIDED_RECV_CANCEL_SLOT, worker_id, token),
        ),
{
    push_cancel_for_worker(
        inboxes,
        InflightSlotKey {
            slot: PROVIDED_RECV_CANCEL_SLOT,
            generation: 0,
            worker_id,
            op_token: token,
        },
    );
}

/// Queues a cancel for a dropped single-shot connect on its worker.
///
/// The connect op carries the polling task's `token` as its `user_data` and
/// holds no inflight slab slot, so the queued key uses the connect marker in
/// place of a slot.
pub fn push_connect_cancel_for_worker(inboxes: &mut CancelInboxes, worker_id: u8, token: u64)
    requires
        guard::inboxes_wf(*old(inboxes)),
    ensures
        guard::inboxes_wf(*final(inboxes)),
        guard::pending_cancels(*final(inboxes)) == queued_for_worker(
            guard::pending_cancels(*old(inboxes)),
            slotless_key(CONNECT_CANCEL_SLOT, worker_id, token),
        ),
{
    push_cancel_for_worker(
        inboxes,
        InflightSlotKey { slot: CONNECT_CANCEL_SLOT, generation: 0, worker_id, op_token: token },
    );
}

/// Queues a cancel for a dropped multishot stream's op on its worker.
///
/// The multishot slot rides an [`InflightSlotKey`] whose `op_token` is the
/// multishot sentinel; the worker's cancel drain routes it to the multishot
/// registry. A no-op when no inbox is installed (a bounded leak at worker
/// teardown, reclaimed by the op's terminal completion).
pub fn push_multishot_cancel_for_worker(inboxes: &mut CancelInboxes, key: MultishotSlotKey)
    requires
        guard::inboxes_wf(*old(inboxes)),
    ensures
        guard::inboxes_wf(*final(inboxes)),
        guard::pending_cancels(*final(inboxes)) == queued_for_worker(
            guard::pending_cancels(*old(inboxes)),
            multishot_cancel_key(key),
        ),
{
    push_cancel_for_worker(
        inboxes,
        InflightSlotKey {
            slot: key.slot,
            generation: key.generation,
            worker_id: key.worker_id,
            op_token: encode_multishot_sentinel(key),
        },
    );
}

/// Queues a cancel for a dropped multishot recv stream on its owning worker.
///
/// Unlike a buffered-op cancel, this pushes into the dedicated recv inbox
/// rather than the shared one: a recv slot is per-connection, so the worker
/// drains it separately. A no-op when no inbox is installed for
/// `key.worker_id`.
pub fn push_recv_multishot_cancel_for_worker(
    inboxes: &mut RecvCancelInboxes,
    key: RecvMultishotSlotKey,
)
    requires
        guard::recv_inboxes_wf(*old(inboxes)),
    ensures
        guard::recv_inboxes_wf(*final(inboxes)),
        guard::pending_recv_cancels(*final(inboxes)) == recv_queued_for_worker(
            guard::pending_recv_cancels(*old(inboxes)),
            key,
        ),
{
    proof {
        inboxes.lemma_every_worker_has_a_slot();
    }
    if let Some(mine) = inboxes.get_mut(key.worker_id) {
        mine.push_cancel(key);
    }
    assert(guard::pending_recv_cancels(*inboxes) =~= recv_queued_for_worker(
        guard::pending_recv_cancels(*old(inboxes)),
        key,
    ));
}

/// A cancel reaches its own worker's inbox only: every other worker's pending
/// cancels stay as they are, and nothing is queued where no inbox is
/// installed.
pub proof fn cancels_reach_only_their_worker(
    pending: Seq<Option<Seq<InflightSlotKey>>>,
    key: InflightSlotKey,
    other: int,
)
    requires
        pending.len() == 256,
        0 <= other < 256,
    ensures
        other != key.worker_id ==> queued_for_worker(pending, key)[other] == pending[other],
        pending[key.worker_id as int] is None ==> queued_for_worker(pending, key) == pending,
        pending[key.worker_id as int] matches Some(queue) ==> (queue.len() < CANCEL_INBOX_CAPACITY
            ==> queued_for_worker(pending, key)[key.worker_id as int] == Some(queue.push(key))),
{
}

} // verus!
