use kwokka_io::boundary::cancel::token::CANCEL_TOKEN_BASE;
use kwokka_io::boundary::cancel::{
    ACCEPT_CANCEL_SLOT, PROVIDED_RECV_CANCEL_SLOT, encode_cancel_sentinel,
    encode_multishot_sentinel, encode_recv_multishot_sentinel,
};
use kwokka_io::boundary::{
    AcceptCancelSet, ConnectCancelSet, MultishotCompletion, ProvidedRecvCancelSet,
    dispose_cancelled_accept, dispose_cancelled_op, is_cancel_sentinel, mark_notif_expected,
    push_multishot_completion, push_recv_multishot_completion, reclaim_cancel_completion,
    reclaim_dropped_slot, reclaim_notif, submit_cancel, submit_cancel_for, submit_multishot_cancel,
    submit_recv_multishot_cancel,
};
use kwokka_io::buffer::multishot::{MULTISHOT_FIFO_DEPTH, MultishotSlab, RecvMultishotSlab};
use kwokka_io::buffer::oneshot::inflight::{InflightBufSlab, InflightSlotKey};
use kwokka_io::driver::DriverType;
use kwokka_io::operation::CqeFlags;

#[test]
fn boundary_reclaim_frees_dropped_slot() {
    let Ok(mut slab) = InflightBufSlab::new(4, 8) else {
        panic!("the test slab must be created");
    };
    let Some(key) = slab.allocate(0xAA) else {
        panic!("allocate must succeed");
    };
    slab.mark_retire_pending(key);
    // The original op's completion, keyed by op_token, frees the slot.
    reclaim_dropped_slot(&mut slab, 0xAA);
    let Some(next) = slab.allocate(0) else {
        panic!("the freed slot reallocates");
    };
    assert_eq!(
        next.slot, key.slot,
        "the slot is reused after its op completion reclaims it",
    );
}

#[test]
fn boundary_reclaim_notif_frees_dropped_slot() {
    let Ok(mut slab) = InflightBufSlab::new(4, 8) else {
        panic!("the test slab must be created");
    };
    let Some(key) = slab.allocate(0xAA) else {
        panic!("allocate must succeed");
    };
    // Primary carried F_MORE, then the future dropped (retire-pending).
    mark_notif_expected(&mut slab, 0xAA);
    slab.mark_retire_pending(key);
    // The NOTIF is the last signal for a dropped future: free the slot.
    reclaim_notif(&mut slab, 0xAA);
    let Some(next) = slab.allocate(0) else {
        panic!("the freed slot reallocates");
    };
    assert_eq!(
        next.slot, key.slot,
        "the NOTIF frees a dropped future's slot",
    );
}

#[test]
fn boundary_reclaim_notif_arms_live_slot() {
    let Ok(mut slab) = InflightBufSlab::new(4, 8) else {
        panic!("the test slab must be created");
    };
    let Some(key) = slab.allocate(0xAA) else {
        panic!("allocate must succeed");
    };
    // Primary carried F_MORE; the future is still live (not retire-pending).
    mark_notif_expected(&mut slab, 0xAA);
    reclaim_notif(&mut slab, 0xAA);
    assert!(
        slab.is_notif_ready(key),
        "a live future's slot is armed notif-ready, not freed",
    );
    assert!(
        slab.slot_ptr(key).is_some(),
        "the live slot survives its NOTIF",
    );
}

#[test]
fn boundary_cancel_enoent_frees_slot() {
    let Ok(mut slab) = InflightBufSlab::new(4, 8) else {
        panic!("the test slab must be created");
    };
    let Some(key) = slab.allocate(0xAA) else {
        panic!("allocate must succeed");
    };
    slab.mark_retire_pending(key);
    let sentinel = encode_cancel_sentinel(key);
    // -ENOENT means the target op already completed, so this cancel reclaims.
    reclaim_cancel_completion(&mut slab, sentinel, -2);
    let Some(next) = slab.allocate(0) else {
        panic!("the freed slot reallocates");
    };
    assert_eq!(
        next.slot, key.slot,
        "a -ENOENT cancel frees the slot for reuse"
    );
}

#[test]
fn boundary_cancel_success_leaves_slot() {
    let Ok(mut slab) = InflightBufSlab::new(4, 8) else {
        panic!("the test slab must be created");
    };
    let Some(key) = slab.allocate(0xAA) else {
        panic!("allocate must succeed");
    };
    slab.mark_retire_pending(key);
    let sentinel = encode_cancel_sentinel(key);
    // 0 and -EALREADY mean the target still has a completion coming, so the
    // slot must not be freed here.
    reclaim_cancel_completion(&mut slab, sentinel, 0);
    reclaim_cancel_completion(&mut slab, sentinel, -114);
    assert!(
        slab.slot_ptr(key).is_some(),
        "a still-completing cancel leaves the slot live",
    );
}

#[test]
fn boundary_cancel_generation_mismatch_leaves_slot() {
    let Ok(mut slab) = InflightBufSlab::new(4, 8) else {
        panic!("the test slab must be created");
    };
    let Some(key) = slab.allocate(0xAA) else {
        panic!("allocate must succeed");
    };
    slab.mark_retire_pending(key);
    // A stale sentinel carrying a different generation must not free the slot.
    let stale =
        CANCEL_TOKEN_BASE | (((key.generation + 1) & 0xFFFF) << 16) | u64::from(key.slot);
    reclaim_cancel_completion(&mut slab, stale, -2);
    assert!(
        slab.slot_ptr(key).is_some(),
        "a mismatched generation leaves the slot live",
    );
}

#[test]
fn boundary_cancel_enoent_ignores_live_slot() {
    let Ok(mut slab) = InflightBufSlab::new(4, 8) else {
        panic!("the test slab must be created");
    };
    let Some(key) = slab.allocate(0xAA) else {
        panic!("allocate must succeed");
    };
    // Not retire-pending: a live future still owns the slot.
    let sentinel = encode_cancel_sentinel(key);
    reclaim_cancel_completion(&mut slab, sentinel, -2);
    assert!(
        slab.slot_ptr(key).is_some(),
        "a live slot is never freed by a cancel completion",
    );
}

#[test]
fn boundary_non_sentinel_routes_to_task() {
    assert!(
        !is_cancel_sentinel(0x1234_5678),
        "a slab-path task token routes to the task path, not slot reclaim",
    );
}

#[test]
fn boundary_submit_cancel_marks_retire_pending() {
    let mut driver = DriverType::Epoll(());
    let Ok(mut slab) = InflightBufSlab::new(4, 8) else {
        panic!("the test slab must be created");
    };
    let Some(key) = slab.allocate(0xBEEF) else {
        panic!("allocate must succeed");
    };
    submit_cancel(&mut driver, &mut slab, key);
    assert!(
        slab.is_retire_pending(key.slot),
        "the slot is marked retire-pending even when the backend refuses the cancel",
    );
}

#[test]
fn boundary_multishot_completion_queues_and_wakes_owner() {
    let mut closing: Vec<i32> = Vec::new();
    let mut slab = MultishotSlab::new(15, 4);
    let Some(key) = slab.allocate(0xF00D) else {
        panic!("the empty registry allocates a slot");
    };
    let sentinel = encode_multishot_sentinel(key);
    assert_eq!(
        push_multishot_completion(&mut slab, &mut closing, sentinel, 9, CqeFlags::MORE),
        MultishotCompletion {
            wake: Some(0xF00D),
            retire: None,
        },
        "an intermediate completion wakes the owner without retiring the op",
    );
    assert_eq!(slab.pop(key), Some(9), "the result reached the FIFO");
}

#[test]
fn boundary_multishot_completion_terminal_retires_live_owner() {
    let mut closing: Vec<i32> = Vec::new();
    let mut slab = MultishotSlab::new(23, 4);
    let Some(key) = slab.allocate(0xBEEF) else {
        panic!("the empty registry allocates a slot");
    };
    let sentinel = encode_multishot_sentinel(key);
    // A live terminal CQE queues its result (wake) and retires the one SQE.
    assert_eq!(
        push_multishot_completion(&mut slab, &mut closing, sentinel, -104, CqeFlags::EMPTY),
        MultishotCompletion {
            wake: Some(0xBEEF),
            retire: Some(0xBEEF),
        },
        "a live terminal CQE both wakes and retires the owner",
    );
}

#[test]
fn boundary_multishot_completion_cancel_pending_frees_on_terminal() {
    let mut closing: Vec<i32> = Vec::new();
    let mut slab = MultishotSlab::new(16, 4);
    let Some(key) = slab.allocate(0x1) else {
        panic!("the empty registry allocates a slot");
    };
    slab.mark_cancel_pending(key);
    let sentinel = encode_multishot_sentinel(key);
    // An intermediate CQE for a dropped stream wakes nothing; a negative
    // result carries no fd, so the dispose path closes nothing.
    assert_eq!(
        push_multishot_completion(&mut slab, &mut closing, sentinel, -22, CqeFlags::MORE),
        MultishotCompletion {
            wake: None,
            retire: None,
        },
        "a cancel-pending intermediate wakes and retires nothing",
    );
    assert!(
        slab.is_live(key),
        "the slot survives until its terminal CQE"
    );
    assert_eq!(
        push_multishot_completion(&mut slab, &mut closing, sentinel, -125, CqeFlags::EMPTY),
        MultishotCompletion {
            wake: None,
            retire: Some(0x1),
        },
        "the terminal CQE retires the owner without waking",
    );
    assert!(
        !slab.is_live(key),
        "the terminal CQE frees the cancel-pending slot",
    );
}

#[test]
fn boundary_multishot_completion_stale_sentinel_wakes_nothing() {
    let mut closing: Vec<i32> = Vec::new();
    let mut slab = MultishotSlab::new(17, 4);
    let Some(key) = slab.allocate(0x1) else {
        panic!("the empty registry allocates a slot");
    };
    let sentinel = encode_multishot_sentinel(key);
    slab.free(key);
    assert_eq!(
        push_multishot_completion(&mut slab, &mut closing, sentinel, -22, CqeFlags::MORE),
        MultishotCompletion {
            wake: None,
            retire: None,
        },
        "a sentinel naming a freed slot routes to nothing",
    );
}

#[test]
fn boundary_multishot_completion_overflow_wakes_nothing() {
    let mut closing: Vec<i32> = Vec::new();
    let mut slab = MultishotSlab::new(18, 4);
    let Some(key) = slab.allocate(0x1) else {
        panic!("the empty registry allocates a slot");
    };
    let sentinel = encode_multishot_sentinel(key);
    let gen_low16 = (key.generation & 0xFFFF) as u16;
    for value in 0..i32::from(MULTISHOT_FIFO_DEPTH) {
        slab.push(key.slot, gen_low16, value, true);
    }
    assert_eq!(
        push_multishot_completion(&mut slab, &mut closing, sentinel, -22, CqeFlags::MORE),
        MultishotCompletion {
            wake: None,
            retire: None,
        },
        "an overflowing completion routes to nothing",
    );
    // The terminal CQE retires the owner even when the full FIFO drops it.
    assert_eq!(
        push_multishot_completion(&mut slab, &mut closing, sentinel, -104, CqeFlags::EMPTY),
        MultishotCompletion {
            wake: None,
            retire: Some(0x1),
        },
        "a terminal CQE still retires the owner when the FIFO is full",
    );
}

#[test]
fn boundary_multishot_cancel_drains_queued_results() {
    let mut closing: Vec<i32> = Vec::new();
    let mut driver = DriverType::Epoll(());
    let mut slab = MultishotSlab::new(19, 4);
    let Some(key) = slab.allocate(0x1) else {
        panic!("the empty registry allocates a slot");
    };
    let gen_low16 = (key.generation & 0xFFFF) as u16;
    // Two accepts sit unconsumed in the FIFO when the stream drops.
    slab.push(key.slot, gen_low16, -7, true);
    slab.push(key.slot, gen_low16, -9, true);
    let cancel = InflightSlotKey {
        slot: key.slot,
        generation: key.generation,
        worker_id: key.worker_id,
        op_token: encode_multishot_sentinel(key),
    };
    submit_multishot_cancel(&mut driver, &mut slab, &mut closing, cancel);
    assert_eq!(slab.pop(key), None, "the cancel drained the queued results");
    assert!(
        slab.is_cancel_pending(key.slot, gen_low16),
        "the slot is marked cancel-pending",
    );
}

#[test]
fn boundary_recv_completion_wakes_owner() {
    let mut driver = DriverType::Epoll(());
    let Ok(mut slab) = RecvMultishotSlab::new(30, 4) else {
        panic!("the registry must be created");
    };
    let Some(key) = slab.allocate(0xF00D) else {
        panic!("the empty registry allocates a slot");
    };
    let sentinel = encode_recv_multishot_sentinel(key);
    assert_eq!(
        push_recv_multishot_completion(
            &mut slab,
            &mut driver,
            sentinel,
            9,
            CqeFlags::MORE,
            Some(3)
        ),
        MultishotCompletion {
            wake: Some(0xF00D),
            retire: None,
        },
        "an intermediate completion wakes the owner without retiring the op",
    );
    assert_eq!(
        slab.pop(key),
        Some((9, 3)),
        "the byte count and buffer id both reached the FIFO",
    );
}

#[test]
fn boundary_recv_cancel_frees_on_terminal() {
    let mut driver = DriverType::Epoll(());
    let Ok(mut slab) = RecvMultishotSlab::new(32, 4) else {
        panic!("the registry must be created");
    };
    let Some(key) = slab.allocate(0x1) else {
        panic!("the empty registry allocates a slot");
    };
    slab.mark_cancel_pending(key);
    let sentinel = encode_recv_multishot_sentinel(key);
    // An intermediate CQE for a dropped stream wakes nothing; its buffer is
    // recycled (a no-op against the poolless Epoll seam) rather than queued.
    assert_eq!(
        push_recv_multishot_completion(
            &mut slab,
            &mut driver,
            sentinel,
            4,
            CqeFlags::MORE,
            Some(2)
        ),
        MultishotCompletion {
            wake: None,
            retire: None,
        },
        "a cancel-pending intermediate wakes and retires nothing",
    );
    assert!(
        slab.is_live(key),
        "the slot survives until its terminal CQE"
    );
    assert_eq!(
        push_recv_multishot_completion(
            &mut slab,
            &mut driver,
            sentinel,
            -125,
            CqeFlags::EMPTY,
            None
        ),
        MultishotCompletion {
            wake: None,
            retire: Some(0x1),
        },
        "the terminal CQE retires the owner without waking",
    );
    assert!(
        !slab.is_live(key),
        "the terminal CQE frees the cancel-pending slot",
    );
}

#[test]
fn boundary_recv_stale_sentinel_wakes_nothing() {
    let mut driver = DriverType::Epoll(());
    let Ok(mut slab) = RecvMultishotSlab::new(33, 4) else {
        panic!("the registry must be created");
    };
    let Some(key) = slab.allocate(0x1) else {
        panic!("the empty registry allocates a slot");
    };
    let sentinel = encode_recv_multishot_sentinel(key);
    slab.free(key);
    assert_eq!(
        push_recv_multishot_completion(
            &mut slab,
            &mut driver,
            sentinel,
            4,
            CqeFlags::MORE,
            Some(1)
        ),
        MultishotCompletion {
            wake: None,
            retire: None,
        },
        "a sentinel naming a freed slot routes to nothing",
    );
}

#[test]
fn boundary_recv_cancel_drains_buffers() {
    let mut driver = DriverType::Epoll(());
    let Ok(mut slab) = RecvMultishotSlab::new(35, 4) else {
        panic!("the registry must be created");
    };
    let Some(key) = slab.allocate(0x1) else {
        panic!("the empty registry allocates a slot");
    };
    let gen_low16 = (key.generation & 0xFFFF) as u16;
    // Two provided-buffer recvs sit unconsumed in the FIFO when the stream
    // drops; the cancel must drain (and recycle) every one before marking.
    slab.push(key.slot, gen_low16, 8, 2, true);
    slab.push(key.slot, gen_low16, 8, 3, true);
    submit_recv_multishot_cancel(&mut driver, &mut slab, key);
    assert_eq!(slab.pop(key), None, "the cancel drained the queued buffers");
    assert!(
        slab.is_cancel_pending(key.slot, gen_low16),
        "the slot is marked cancel-pending",
    );
}

#[test]
fn boundary_submit_cancel_for_routes_the_accept_marker() {
    let mut closing: Vec<i32> = Vec::new();
    let mut driver = DriverType::Epoll(());
    let Ok(mut inflight) = InflightBufSlab::new(7, 8) else {
        panic!("the test slab must be created");
    };
    let mut multishot = MultishotSlab::new(7, 4);
    let mut accepts = AcceptCancelSet::<4>::new();
    let mut provided_recvs = ProvidedRecvCancelSet::<4>::new();
    let mut connects = ConnectCancelSet::<4>::new();
    let key = InflightSlotKey {
        slot: ACCEPT_CANCEL_SLOT,
        generation: 0,
        worker_id: 7,
        op_token: 0xF00D,
    };
    submit_cancel_for(
        &mut driver,
        &mut inflight,
        &mut multishot,
        &mut accepts,
        &mut provided_recvs,
        &mut connects,
        &mut closing,
        key,
    );
    assert!(
        accepts.take(0xF00D),
        "the accept marker routes the token into the accept set",
    );
}

#[test]
fn boundary_dispose_cancelled_accept_consumes_recorded_tokens() {
    let mut closing: Vec<i32> = Vec::new();
    let mut accepts = AcceptCancelSet::<4>::new();
    assert!(
        !dispose_cancelled_accept(&mut accepts, &mut closing, 0x1, -22),
        "an empty set disposes nothing",
    );
    accepts.insert(0x1);
    assert!(
        dispose_cancelled_accept(&mut accepts, &mut closing, 0x1, -22),
        "a recorded token is consumed (a negative result closes no fd)",
    );
    assert!(
        !dispose_cancelled_accept(&mut accepts, &mut closing, 0x1, -22),
        "the token is gone after disposal",
    );
}

#[test]
fn boundary_submit_cancel_for_routes_the_provided_recv_marker() {
    let mut closing: Vec<i32> = Vec::new();
    let mut driver = DriverType::Epoll(());
    let Ok(mut inflight) = InflightBufSlab::new(8, 8) else {
        panic!("the test slab must be created");
    };
    let mut multishot = MultishotSlab::new(8, 4);
    let mut accepts = AcceptCancelSet::<4>::new();
    let mut provided_recvs = ProvidedRecvCancelSet::<4>::new();
    let mut connects = ConnectCancelSet::<4>::new();
    let key = InflightSlotKey {
        slot: PROVIDED_RECV_CANCEL_SLOT,
        generation: 0,
        worker_id: 8,
        op_token: 0xBEEF,
    };
    submit_cancel_for(
        &mut driver,
        &mut inflight,
        &mut multishot,
        &mut accepts,
        &mut provided_recvs,
        &mut connects,
        &mut closing,
        key,
    );
    assert!(
        provided_recvs.take(0xBEEF),
        "the provided-recv marker routes the token into its set",
    );
    assert!(accepts.is_empty(), "the accept set is untouched");
}

#[test]
fn boundary_dispose_cancelled_op_routes_by_buffer_and_set() {
    let mut closing: Vec<i32> = Vec::new();
    let mut driver = DriverType::Epoll(());
    let mut accepts = AcceptCancelSet::<4>::new();
    let mut provided_recvs = ProvidedRecvCancelSet::<4>::new();
    let mut connects = ConnectCancelSet::<4>::new();
    assert!(
        !dispose_cancelled_op(
            &mut driver,
            &mut accepts,
            &mut provided_recvs,
            &mut connects,
            &mut closing,
            0x1,
            4,
            Some(2),
        ),
        "empty sets dispose nothing",
    );
    // A buffer-carrying CQE is definitively a provided recv's; a live
    // recv (token not recorded) falls through to the task path.
    provided_recvs.insert(0x1);
    assert!(
        !dispose_cancelled_op(
            &mut driver,
            &mut accepts,
            &mut provided_recvs,
            &mut connects,
            &mut closing,
            0x2,
            4,
            Some(2),
        ),
        "an unrecorded token is a live future's completion",
    );
    assert!(
        dispose_cancelled_op(
            &mut driver,
            &mut accepts,
            &mut provided_recvs,
            &mut connects,
            &mut closing,
            0x1,
            4,
            Some(2),
        ),
        "a recorded token consumes its buffer-carrying completion",
    );
    // A bufferless CQE checks the accepts first, then the provided recvs.
    accepts.insert(0x3);
    provided_recvs.insert(0x4);
    assert!(
        dispose_cancelled_op(
            &mut driver,
            &mut accepts,
            &mut provided_recvs,
            &mut connects,
            &mut closing,
            0x3,
            -125,
            None,
        ),
        "a bufferless completion matches the accept set first",
    );
    assert!(
        dispose_cancelled_op(
            &mut driver,
            &mut accepts,
            &mut provided_recvs,
            &mut connects,
            &mut closing,
            0x4,
            -125,
            None,
        ),
        "a cancelled provided recv disposes with nothing to recycle",
    );
    assert!(provided_recvs.is_empty());
    // An end-of-stream `0` with the token in both sets prefers the
    // provided set: adopted as an accept result it would close
    // descriptor zero, so the accept entry stays as a bounded leak.
    accepts.insert(0x5);
    provided_recvs.insert(0x5);
    assert!(
        dispose_cancelled_op(
            &mut driver,
            &mut accepts,
            &mut provided_recvs,
            &mut connects,
            &mut closing,
            0x5,
            0,
            None,
        ),
        "the ambiguous end-of-stream completion is consumed",
    );
    assert!(provided_recvs.is_empty(), "the provided set took it");
    assert!(
        accepts.take(0x5),
        "the accept entry survives instead of adopting descriptor zero",
    );
}

#[test]
fn boundary_multishot_cancel_closes_queued_accept_fds() {
    let mut closing: Vec<i32> = Vec::new();
    let mut driver = DriverType::Epoll(());
    let mut slab = MultishotSlab::new(20, 4);
    let Some(key) = slab.allocate(0x1) else {
        panic!("the empty registry allocates a slot");
    };
    let gen_low16 = (key.generation & 0xFFFF) as u16;
    // A descriptor number stands in for a queued accepted connection.
    let fd = 77;
    slab.push(key.slot, gen_low16, fd, true);
    let cancel = InflightSlotKey {
        slot: key.slot,
        generation: key.generation,
        worker_id: key.worker_id,
        op_token: encode_multishot_sentinel(key),
    };
    submit_multishot_cancel(&mut driver, &mut slab, &mut closing, cancel);
    assert_eq!(closing, vec![fd], "the cancel lists the queued accepted fd for closing");
}

#[test]
fn boundary_dispose_cancelled_accept_closes_a_real_fd() {
    let mut closing: Vec<i32> = Vec::new();
    let mut accepts = AcceptCancelSet::<4>::new();
    let fd = 78;
    accepts.insert(0x7);
    assert!(dispose_cancelled_accept(&mut accepts, &mut closing, 0x7, fd));
    assert_eq!(closing, vec![fd], "the disposal lists the accepted fd for closing");
}
