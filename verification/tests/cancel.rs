use kwokka_io::boundary::cancel::token::{
    CANCEL_TOKEN_BASE, LINK_TIMEOUT_DISCARD_USER_DATA, MULTISHOT_TOKEN_BASE,
    RECV_MULTISHOT_TOKEN_BASE, WAKE_FD_USER_DATA,
};
use kwokka_io::boundary::cancel::{
    CANCEL_INBOX_CAPACITY, encode_cancel_sentinel, encode_multishot_sentinel,
    multishot_sentinel_generation, multishot_sentinel_slot,
};
use kwokka_io::boundary::{
    AcceptCancelSet, CancelInbox, ConnectCancelSet, MSG_RING_WAKE_USER_DATA, ProvidedRecvCancelSet,
    RecvCancelInbox, is_cancel_sentinel, is_link_timeout_discard, is_msg_ring_wake,
    is_multishot_sentinel, is_recv_multishot_sentinel,
};
use kwokka_io::buffer::multishot::{
    DEFAULT_MULTISHOT_CAP, MultishotSlotKey, RecvMultishotSlotKey,
};
use kwokka_io::buffer::oneshot::inflight::{DEFAULT_INFLIGHT_CAP, InflightSlotKey};

fn cancel_key(slot: u16) -> InflightSlotKey {
    InflightSlotKey {
        slot,
        generation: 0,
        worker_id: 3,
        op_token: u64::from(slot),
    }
}

#[test]
fn inbox_cancel_push_pop_fifo() {
    let mut inbox = CancelInbox::<4>::new();
    inbox.push_cancel(cancel_key(0));
    inbox.push_cancel(cancel_key(1));
    let Some(first) = inbox.pop() else {
        panic!("pop must yield the first cancel");
    };
    assert_eq!(first.slot, 0);
    let Some(second) = inbox.pop() else {
        panic!("pop must yield the second cancel");
    };
    assert_eq!(second.slot, 1);
    assert!(inbox.pop().is_none());
}

#[test]
fn inbox_cancel_full_inbox_leaks() {
    let mut inbox = CancelInbox::<2>::new();
    inbox.push_cancel(cancel_key(0));
    inbox.push_cancel(cancel_key(1));
    inbox.push_cancel(cancel_key(2));
    assert_eq!(
        inbox.len(),
        2,
        "a full inbox drops the overflow cancel as a bounded leak"
    );
    let Some(first) = inbox.pop() else {
        panic!("the queued cancels survive the overflow");
    };
    assert_eq!(
        first.slot, 0,
        "the overflow did not displace a queued cancel"
    );
}

#[test]
fn inbox_cancel_inbox_capacity_covers_both_slabs() {
    let droppable = DEFAULT_INFLIGHT_CAP as usize
        + DEFAULT_MULTISHOT_CAP as usize;
    assert!(
        CANCEL_INBOX_CAPACITY >= droppable,
        "the inbox holds a cancel for every op that can drop between drains, \
         so no worker cancel is silently dropped in production",
    );
}

#[test]
fn inbox_cancel_inbox_wraps_across_capacity() {
    // Fill, drain half, refill: exercises the modulo write past the array end
    // so the ring stays correct without a power-of-two capacity.
    let mut inbox = CancelInbox::<3>::new();
    inbox.push_cancel(cancel_key(0));
    inbox.push_cancel(cancel_key(1));
    assert_eq!(inbox.pop().map(|k| k.slot), Some(0));
    inbox.push_cancel(cancel_key(2));
    inbox.push_cancel(cancel_key(3));
    assert_eq!(inbox.len(), 3, "the ring refilled to capacity after wrap");
    assert_eq!(inbox.pop().map(|k| k.slot), Some(1));
    assert_eq!(inbox.pop().map(|k| k.slot), Some(2));
    assert_eq!(inbox.pop().map(|k| k.slot), Some(3));
    assert!(inbox.pop().is_none());
}

#[test]
fn inbox_cancel_pop_empty_returns_none() {
    let mut inbox = CancelInbox::<2>::new();
    assert!(inbox.pop().is_none());
}

#[test]
fn inbox_cancel_len_empty_occupancy() {
    let mut inbox = CancelInbox::<4>::new();
    assert!(inbox.is_empty());
    assert_eq!(inbox.len(), 0);
    inbox.push_cancel(cancel_key(0));
    assert_eq!(inbox.len(), 1);
    assert!(!inbox.is_empty());
    assert!(inbox.pop().is_some());
    assert!(inbox.is_empty());
}

#[test]
fn inbox_cancel_wrap_around_reuses_slots() {
    let mut inbox = CancelInbox::<2>::new();
    inbox.push_cancel(cancel_key(0));
    assert!(inbox.pop().is_some());
    inbox.push_cancel(cancel_key(1));
    inbox.push_cancel(cancel_key(2));
    let Some(second) = inbox.pop() else {
        panic!("pop must yield after wrap");
    };
    assert_eq!(second.slot, 1);
}

#[test]
fn inbox_cancel_default_is_empty() {
    let inbox = CancelInbox::<4>::default();
    assert!(inbox.is_empty());
}

#[test]
fn inbox_recv_cancel_inbox_push_pop_is_fifo() {
    let Ok(mut inbox) = RecvCancelInbox::<4>::new() else {
        panic!("the inbox must be created");
    };
    assert!(inbox.is_empty());
    let key = |slot, generation| RecvMultishotSlotKey {
        slot,
        generation,
        worker_id: 7,
    };
    inbox.push_cancel(key(1, 100));
    inbox.push_cancel(key(2, 200));
    assert_eq!(inbox.len(), 2);
    assert_eq!(inbox.pop(), Some(key(1, 100)), "oldest pops first");
    assert_eq!(inbox.pop(), Some(key(2, 200)));
    assert_eq!(inbox.pop(), None);
    assert!(inbox.is_empty());
}

#[test]
fn inbox_recv_cancel_inbox_drops_on_overflow() {
    let Ok(mut inbox) = RecvCancelInbox::<2>::new() else {
        panic!("the inbox must be created");
    };
    let key = |slot| RecvMultishotSlotKey {
        slot,
        generation: 0,
        worker_id: 3,
    };
    inbox.push_cancel(key(0));
    inbox.push_cancel(key(1));
    inbox.push_cancel(key(2));
    assert_eq!(inbox.len(), 2, "a full ring drops the newest push");
    assert_eq!(inbox.pop(), Some(key(0)));
    assert_eq!(inbox.pop(), Some(key(1)));
    assert_eq!(inbox.pop(), None, "the overflowing push was dropped");
}

#[test]
fn inbox_accept_cancel_set_tracks_tokens() {
    let mut set = AcceptCancelSet::<4>::new();
    assert!(set.is_empty());
    set.insert(0xAA);
    set.insert(0xBB);
    assert!(!set.is_empty());
    assert!(set.take(0xAA), "a recorded token is pending");
    assert!(!set.take(0xAA), "a taken token is no longer pending");
    assert!(set.take(0xBB));
    assert!(set.is_empty());
}

#[test]
fn inbox_accept_cancel_set_full_drops_the_record() {
    let mut set = AcceptCancelSet::<2>::new();
    set.insert(1);
    set.insert(2);
    set.insert(3);
    assert!(set.take(1));
    assert!(set.take(2));
    assert!(!set.take(3), "a full set drops the overflow record");
}

#[test]
fn inbox_provided_recv_cancel_set_inserts_and_takes() {
    let mut cancels = ProvidedRecvCancelSet::<2>::new();
    assert!(cancels.is_empty());
    cancels.insert(0xA);
    cancels.insert(0xB);
    // A full set drops the record rather than growing.
    cancels.insert(0xC);
    assert!(!cancels.take(0xC), "the overflowed record was dropped");
    assert!(cancels.take(0xB));
    assert!(cancels.take(0xA));
    assert!(cancels.is_empty());
    assert!(!cancels.take(0xA), "a taken token does not linger");
}

#[test]
fn connect_cancel_set_inserts_and_takes() {
    let mut cancels = ConnectCancelSet::<2>::new();
    assert!(cancels.is_empty());
    cancels.insert(0xA);
    cancels.insert(0xB);
    // A full set drops the record rather than growing.
    cancels.insert(0xC);
    assert!(!cancels.take(0xC), "the overflowed record was dropped");
    assert!(cancels.take(0xB));
    assert!(cancels.take(0xA));
    assert!(cancels.is_empty());
    assert!(!cancels.take(0xA), "a taken token does not linger");
}

#[test]
fn token_cancel_sentinel_excludes_other_tokens() {
    assert!(
        !is_cancel_sentinel(WAKE_FD_USER_DATA),
        "the wake fd marker is not a cancel sentinel",
    );
    assert!(
        !is_cancel_sentinel(0x7FFF_FFFF_FFFF_FFFF),
        "a slab-path task token keeps its top bit clear",
    );
    assert!(
        !is_cancel_sentinel(0x8000_0000_0000_0005),
        "the previous marker corner (arena worker 0, generation 0) no longer aliases",
    );
    let sentinel = CANCEL_TOKEN_BASE | (0xAB << 16) | 0x05;
    assert!(is_cancel_sentinel(sentinel), "the marker is recognized");
}

#[test]
fn token_multishot_sentinel_round_trips() {
    let key = MultishotSlotKey {
        slot: 0x2A,
        generation: 0xABCD,
        worker_id: 3,
    };
    let sentinel = encode_multishot_sentinel(key);
    assert!(is_multishot_sentinel(sentinel));
    assert_eq!(multishot_sentinel_slot(sentinel), 0x2A);
    assert_eq!(multishot_sentinel_generation(sentinel), 0xABCD);
}

#[test]
fn token_multishot_sentinel_excludes_other_markers() {
    assert!(
        !is_multishot_sentinel(CANCEL_TOKEN_BASE),
        "the cancel corner reads upper-32 0xFFFF_FFFF, not 0xFFFF_FFFE",
    );
    assert!(
        !is_multishot_sentinel(WAKE_FD_USER_DATA),
        "the wake fd reads upper-32 0xFFFF_FFFF",
    );
    assert!(
        !is_cancel_sentinel(MULTISHOT_TOKEN_BASE),
        "the multishot corner is not a cancel sentinel",
    );
    assert!(
        !is_multishot_sentinel(0x7FFF_FFFF_FFFF_FFFF),
        "a slab-path task token keeps its top bit clear",
    );
}

#[test]
fn token_sentinel_carries_slot_and_generation() {
    let key = InflightSlotKey {
        slot: 0x2A,
        generation: 0x1_0007,
        worker_id: 3,
        op_token: 0,
    };
    let sentinel = encode_cancel_sentinel(key);
    assert_eq!(
        sentinel & 0xFFFF,
        u64::from(key.slot),
        "the slot sits at bits 0..16"
    );
    assert_eq!(
        (sentinel >> 16) & 0xFFFF,
        0x0007,
        "the generation low 16 bits sit at bits 16..32",
    );
    assert!(is_cancel_sentinel(sentinel), "the marker is set");
}

#[test]
fn token_msg_ring_wake_sentinel_is_recognized_and_disjoint() {
    assert!(
        is_msg_ring_wake(MSG_RING_WAKE_USER_DATA),
        "the marker recognizes itself",
    );
    // Disjoint from every other completion sentinel and the wake fd.
    assert!(!is_msg_ring_wake(WAKE_FD_USER_DATA));
    assert!(!is_msg_ring_wake(CANCEL_TOKEN_BASE));
    assert!(!is_msg_ring_wake(MULTISHOT_TOKEN_BASE));
    assert!(!is_msg_ring_wake(RECV_MULTISHOT_TOKEN_BASE));
    // The other predicates reject the msg_ring marker.
    assert!(!is_cancel_sentinel(MSG_RING_WAKE_USER_DATA));
    assert!(!is_multishot_sentinel(MSG_RING_WAKE_USER_DATA));
    assert!(!is_recv_multishot_sentinel(MSG_RING_WAKE_USER_DATA));
    // One corner below the multishot-recv base.
    assert_eq!(
        MSG_RING_WAKE_USER_DATA >> 32,
        (RECV_MULTISHOT_TOKEN_BASE >> 32) - 1,
    );
}

#[test]
fn token_link_timeout_discard_sentinel_is_recognized_and_disjoint() {
    assert!(
        is_link_timeout_discard(LINK_TIMEOUT_DISCARD_USER_DATA),
        "the marker recognizes itself",
    );
    // Disjoint from every other completion sentinel and the wake fd.
    assert!(!is_link_timeout_discard(WAKE_FD_USER_DATA));
    assert!(!is_link_timeout_discard(CANCEL_TOKEN_BASE));
    assert!(!is_link_timeout_discard(MULTISHOT_TOKEN_BASE));
    assert!(!is_link_timeout_discard(RECV_MULTISHOT_TOKEN_BASE));
    assert!(!is_link_timeout_discard(MSG_RING_WAKE_USER_DATA));
    // The other predicates reject the link-timeout marker.
    assert!(!is_cancel_sentinel(LINK_TIMEOUT_DISCARD_USER_DATA));
    assert!(!is_multishot_sentinel(LINK_TIMEOUT_DISCARD_USER_DATA));
    assert!(!is_recv_multishot_sentinel(LINK_TIMEOUT_DISCARD_USER_DATA));
    assert!(!is_msg_ring_wake(LINK_TIMEOUT_DISCARD_USER_DATA));
    // One corner below the msg_ring wake base.
    assert_eq!(
        LINK_TIMEOUT_DISCARD_USER_DATA >> 32,
        (MSG_RING_WAKE_USER_DATA >> 32) - 1,
    );
}

#[test]
fn every_sentinel_reads_back_its_slot_and_generation() {
    let cancel = encode_cancel_sentinel(InflightSlotKey {
        slot: 0x1234,
        generation: 0xAB_CDEF,
        worker_id: 0,
        op_token: 9,
    });
    assert_eq!(cancel, 0xFFFF_FFFF_CDEF_1234);
    let multishot = encode_multishot_sentinel(MultishotSlotKey {
        slot: 0x1234,
        generation: 0xAB_CDEF,
        worker_id: 0,
    });
    assert_eq!(multishot, 0xFFFF_FFFE_CDEF_1234);
    assert_eq!(multishot_sentinel_slot(multishot), 0x1234);
    assert_eq!(multishot_sentinel_generation(multishot), 0xCDEF);
}

#[test]
fn the_wake_marker_is_the_one_cancel_sentinel_left_out() {
    let last = encode_cancel_sentinel(InflightSlotKey {
        slot: 0xFFFF,
        generation: 0xFFFF,
        worker_id: 0,
        op_token: 0,
    });
    assert_eq!(last, WAKE_FD_USER_DATA);
    assert!(!is_cancel_sentinel(last));
    assert!(is_cancel_sentinel(last - 1));
}

#[test]
fn every_cancel_set_starts_empty_by_default() {
    assert!(AcceptCancelSet::<2>::default().is_empty());
    assert!(ProvidedRecvCancelSet::<2>::default().is_empty());
    assert!(ConnectCancelSet::<2>::default().is_empty());
}

#[test]
fn a_token_recorded_twice_is_taken_twice() {
    let mut set = ConnectCancelSet::<4>::new();
    set.insert(5);
    set.insert(5);
    assert!(set.take(5));
    assert!(set.take(5));
    assert!(!set.take(5));
}
