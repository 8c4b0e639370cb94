use std::sync::atomic::{AtomicU8, Ordering};

use kwokka_io::boundary::cancel::token::{MULTISHOT_TOKEN_BASE, RECV_MULTISHOT_TOKEN_BASE};
use kwokka_io::boundary::cancel::{
    ACCEPT_CANCEL_SLOT, CONNECT_CANCEL_SLOT, PROVIDED_RECV_CANCEL_SLOT,
};
use kwokka_io::boundary::seam::waker::DecoderSlot;
use kwokka_io::boundary::{
    CANCEL_INBOX_CAPACITY, CancelInbox, CancelInboxGuard, RECV_CANCEL_INBOX_CAPACITY,
    RecvCancelInbox, RecvCancelInboxGuard, WakerBinding, WorkerSlots, decode_waker,
    push_accept_cancel_for_worker, push_cancel_for_worker, push_connect_cancel_for_worker,
    push_multishot_cancel_for_worker, push_provided_recv_cancel_for_worker,
    push_recv_multishot_cancel_for_worker, register_decoder,
};
use kwokka_io::buffer::multishot::{MultishotSlotKey, RecvMultishotSlotKey};
use kwokka_io::buffer::oneshot::inflight::InflightSlotKey;

static NEXT_WORKER_ID: AtomicU8 = AtomicU8::new(0);

fn reserve_worker_id() -> u8 {
    let Ok(id) = NEXT_WORKER_ID.fetch_update(Ordering::Relaxed, Ordering::Relaxed, |id| {
        id.checked_add(1)
    }) else {
        panic!("this test process used every worker id");
    };
    id
}

#[test]
fn guard_cancel_guard_routes_then_clears() {
    let worker_id = reserve_worker_id();
    let mut inboxes = WorkerSlots::new();
    let guard = CancelInboxGuard::install(
        &mut inboxes,
        worker_id,
        CancelInbox::<CANCEL_INBOX_CAPACITY>::new(),
    );
    push_cancel_for_worker(
        &mut inboxes,
        InflightSlotKey { slot: 1, generation: 0, worker_id, op_token: 0xBEEF },
    );
    let Some(mut inbox) = guard.clear(&mut inboxes) else {
        panic!("the guard hands the inbox back");
    };
    // The guard cleared the worker's place, so this push is a no-op.
    push_cancel_for_worker(
        &mut inboxes,
        InflightSlotKey { slot: 2, generation: 0, worker_id, op_token: 0 },
    );
    let Some(key) = inbox.pop() else {
        panic!("the in-guard push reached the inbox");
    };
    assert_eq!(key.slot, 1);
    assert_eq!(key.op_token, 0xBEEF);
    assert!(inbox.pop().is_none(), "the post-guard push was a no-op");
}

#[test]
fn boundary_cancel_guard_routes_then_clears() {
    let mut inboxes = WorkerSlots::new();
    let guard =
        CancelInboxGuard::install(&mut inboxes, 7, CancelInbox::<CANCEL_INBOX_CAPACITY>::new());
    push_cancel_for_worker(
        &mut inboxes,
        InflightSlotKey { slot: 1, generation: 0, worker_id: 7, op_token: 0xBEEF },
    );
    let Some(mut inbox) = guard.clear(&mut inboxes) else {
        panic!("the guard hands the inbox back");
    };
    // The guard cleared the worker's place, so this push is a no-op.
    push_cancel_for_worker(
        &mut inboxes,
        InflightSlotKey { slot: 2, generation: 0, worker_id: 7, op_token: 0 },
    );
    let Some(key) = inbox.pop() else {
        panic!("the in-guard push reached the inbox");
    };
    assert_eq!(key.slot, 1);
    assert_eq!(key.op_token, 0xBEEF);
    assert!(inbox.pop().is_none(), "the post-guard push was a no-op");
}

#[test]
fn guard_recv_cancel_inbox_guard_routes_push() {
    let Ok(inbox) = RecvCancelInbox::<RECV_CANCEL_INBOX_CAPACITY>::new() else {
        panic!("the inbox must be created");
    };
    let worker_id = reserve_worker_id();
    let key = RecvMultishotSlotKey { slot: 5, generation: 9, worker_id };
    let mut inboxes = WorkerSlots::new();
    // With no guard installed, the push finds an empty place and is a no-op.
    push_recv_multishot_cancel_for_worker(&mut inboxes, key);
    let guard = RecvCancelInboxGuard::install(&mut inboxes, worker_id, inbox);
    push_recv_multishot_cancel_for_worker(&mut inboxes, key);
    let Some(mut inbox) = guard.clear(&mut inboxes) else {
        panic!("the guard hands the inbox back");
    };
    // The one routed push is still queued.
    assert_eq!(inbox.pop(), Some(key), "the guard routed the push into the worker's inbox");
    assert_eq!(inbox.pop(), None, "the no-guard push was a no-op");
}

#[test]
fn boundary_recv_cancel_inbox_guard_routes_push() {
    let Ok(inbox) = RecvCancelInbox::<RECV_CANCEL_INBOX_CAPACITY>::new() else {
        panic!("the inbox must be created");
    };
    let key = RecvMultishotSlotKey { slot: 5, generation: 9, worker_id: 60 };
    let mut inboxes = WorkerSlots::new();
    // With no guard installed, the push finds an empty place and is a no-op.
    push_recv_multishot_cancel_for_worker(&mut inboxes, key);
    let guard = RecvCancelInboxGuard::install(&mut inboxes, 60, inbox);
    push_recv_multishot_cancel_for_worker(&mut inboxes, key);
    let Some(mut inbox) = guard.clear(&mut inboxes) else {
        panic!("the guard hands the inbox back");
    };
    // The one routed push is still queued.
    assert_eq!(inbox.pop(), Some(key), "the guard routed the push into the worker's inbox");
    assert_eq!(inbox.pop(), None, "the no-guard push was a no-op");
}

#[test]
fn cancel_push_accept_cancel_carries_the_slotless_marker() {
    let worker_id = reserve_worker_id();
    let mut inboxes = WorkerSlots::new();
    let guard = CancelInboxGuard::install(
        &mut inboxes,
        worker_id,
        CancelInbox::<CANCEL_INBOX_CAPACITY>::new(),
    );
    push_accept_cancel_for_worker(&mut inboxes, worker_id, 0xABCD);
    let Some(mut inbox) = guard.clear(&mut inboxes) else {
        panic!("the guard hands the inbox back");
    };
    let Some(key) = inbox.pop() else {
        panic!("the accept cancel reached the inbox");
    };
    assert_eq!(key.slot, ACCEPT_CANCEL_SLOT, "the slotless marker rides along");
    assert_eq!(key.op_token, 0xABCD);
    assert_eq!(key.worker_id, worker_id);
}

#[test]
fn boundary_push_accept_cancel_carries_the_slotless_marker() {
    let mut inboxes = WorkerSlots::new();
    let guard =
        CancelInboxGuard::install(&mut inboxes, 9, CancelInbox::<CANCEL_INBOX_CAPACITY>::new());
    push_accept_cancel_for_worker(&mut inboxes, 9, 0xABCD);
    let Some(mut inbox) = guard.clear(&mut inboxes) else {
        panic!("the guard hands the inbox back");
    };
    let Some(key) = inbox.pop() else {
        panic!("the accept cancel reached the inbox");
    };
    assert_eq!(key.slot, ACCEPT_CANCEL_SLOT, "the slotless marker rides along");
    assert_eq!(key.op_token, 0xABCD);
    assert_eq!(key.worker_id, 9);
}

#[test]
fn push_connect_cancel_carries_the_slotless_marker() {
    let worker_id = reserve_worker_id();
    let mut inboxes = WorkerSlots::new();
    let guard = CancelInboxGuard::install(
        &mut inboxes,
        worker_id,
        CancelInbox::<CANCEL_INBOX_CAPACITY>::new(),
    );
    push_connect_cancel_for_worker(&mut inboxes, worker_id, 0xC0DE);
    let Some(mut inbox) = guard.clear(&mut inboxes) else {
        panic!("the guard hands the inbox back");
    };
    let Some(key) = inbox.pop() else {
        panic!("the connect cancel reached the inbox");
    };
    assert_eq!(key.slot, CONNECT_CANCEL_SLOT, "the slotless connect marker rides along");
    assert_ne!(key.slot, ACCEPT_CANCEL_SLOT);
    assert_ne!(key.slot, PROVIDED_RECV_CANCEL_SLOT);
    assert_eq!(key.op_token, 0xC0DE);
    assert_eq!(key.worker_id, worker_id);
}

#[test]
fn push_provided_recv_cancel_carries_its_own_marker() {
    let mut inboxes = WorkerSlots::new();
    let guard =
        CancelInboxGuard::install(&mut inboxes, 11, CancelInbox::<CANCEL_INBOX_CAPACITY>::new());
    push_provided_recv_cancel_for_worker(&mut inboxes, 11, 0xFACE);
    let Some(mut inbox) = guard.clear(&mut inboxes) else {
        panic!("the guard hands the inbox back");
    };
    assert_eq!(
        inbox.pop(),
        Some(InflightSlotKey {
            slot: PROVIDED_RECV_CANCEL_SLOT,
            generation: 0,
            worker_id: 11,
            op_token: 0xFACE,
        }),
    );
}

#[test]
fn push_multishot_cancel_carries_the_sentinel() {
    let mut inboxes = WorkerSlots::new();
    let guard =
        CancelInboxGuard::install(&mut inboxes, 12, CancelInbox::<CANCEL_INBOX_CAPACITY>::new());
    push_multishot_cancel_for_worker(
        &mut inboxes,
        MultishotSlotKey { slot: 3, generation: 0x1_0004, worker_id: 12 },
    );
    let Some(mut inbox) = guard.clear(&mut inboxes) else {
        panic!("the guard hands the inbox back");
    };
    assert_eq!(
        inbox.pop(),
        Some(InflightSlotKey {
            slot: 3,
            generation: 0x1_0004,
            worker_id: 12,
            op_token: MULTISHOT_TOKEN_BASE + 0x4_0003,
        }),
    );
    assert_ne!(MULTISHOT_TOKEN_BASE, RECV_MULTISHOT_TOKEN_BASE);
}

#[test]
fn a_cancel_reaches_only_its_own_worker() {
    let mut inboxes = WorkerSlots::new();
    let one =
        CancelInboxGuard::install(&mut inboxes, 1, CancelInbox::<CANCEL_INBOX_CAPACITY>::new());
    let two =
        CancelInboxGuard::install(&mut inboxes, 2, CancelInbox::<CANCEL_INBOX_CAPACITY>::new());
    push_accept_cancel_for_worker(&mut inboxes, 2, 5);
    let Some(first) = one.clear(&mut inboxes) else {
        panic!("the guard hands the inbox back");
    };
    let Some(second) = two.clear(&mut inboxes) else {
        panic!("the guard hands the inbox back");
    };
    assert!(first.is_empty());
    assert_eq!(second.len(), 1);
    assert!(!inboxes.is_installed(1) && !inboxes.is_installed(2));
}

/// A task handle standing in for a waker: `Some` names the worker it runs on.
type TestWaker = Option<u8>;

const TEST_TOKEN: u64 = 7;

fn test_decoder(waker: &TestWaker) -> Option<WakerBinding> {
    waker.map(|worker_id| WakerBinding { token: TEST_TOKEN, worker_id })
}

fn other_decoder(_waker: &TestWaker) -> Option<WakerBinding> {
    Some(WakerBinding { token: 9, worker_id: 5 })
}

#[test]
fn a_foreign_waker_is_not_routable() {
    let mut slot: DecoderSlot<fn(&TestWaker) -> Option<WakerBinding>> = DecoderSlot::new();
    register_decoder(&mut slot, test_decoder);
    assert_eq!(
        decode_waker(&slot, &None),
        None,
        "a waker the runtime did not build carries no binding",
    );
}

#[test]
fn waker_decoder_registration_is_first_wins() {
    let worker_id = reserve_worker_id();
    let mut slot: DecoderSlot<fn(&TestWaker) -> Option<WakerBinding>> = DecoderSlot::new();
    register_decoder(&mut slot, test_decoder);
    let waker = Some(worker_id);
    let expected = WakerBinding { token: TEST_TOKEN, worker_id };
    assert_eq!(decode_waker(&slot, &waker), Some(expected));
    register_decoder(&mut slot, other_decoder);
    assert_eq!(
        decode_waker(&slot, &waker),
        Some(expected),
        "a second registration loses to the first",
    );
}

#[test]
fn boundary_decoder_registration_is_first_wins() {
    let mut slot: DecoderSlot<fn(&TestWaker) -> Option<WakerBinding>> = DecoderSlot::new();
    let waker = Some(3);
    assert_eq!(
        decode_waker(&slot, &waker),
        None,
        "no decoder is registered before the runtime starts",
    );
    register_decoder(&mut slot, test_decoder);
    let expected = WakerBinding { token: 7, worker_id: 3 };
    assert_eq!(decode_waker(&slot, &waker), Some(expected));
    register_decoder(&mut slot, other_decoder);
    assert_eq!(
        decode_waker(&slot, &waker),
        Some(expected),
        "a second registration loses to the first",
    );
}

#[test]
fn a_reserved_worker_id_is_handed_out_once() {
    let first = reserve_worker_id();
    let second = reserve_worker_id();
    assert_ne!(first, second, "two reservations never share an id");
}
