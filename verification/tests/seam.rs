use kwokka_io::addr::{SockAddr, SocketAddrV4, SocketAddrV6, UnixAddr};
use kwokka_io::boundary::cancel::{
    multishot_sentinel_generation, multishot_sentinel_slot, is_multishot_sentinel,
    is_recv_multishot_sentinel,
};
use kwokka_io::boundary::{
    IoSeam, MultishotAlloc, MultishotNext, RecvMultishotAlloc, RecvMultishotNext, SeamGuard,
    WakeSlot, WorkerSlots,
};
use kwokka_io::buffer::multishot::{
    MULTISHOT_FIFO_DEPTH, MultishotSlab, MultishotSlotKey, NO_BUFFER, RecvMultishotSlab,
    RecvMultishotSlotKey,
};
use kwokka_io::buffer::oneshot::inflight::{INFLIGHT_BUF_STRIDE, InflightBufSlab, InflightSlotKey};
use kwokka_io::buffer::ring::BufRingPool;
use kwokka_io::buffer::ring::pool::PoolAddrs;
use kwokka_io::buffer::slot::BufGroupId;
use kwokka_io::driver::{Capabilities, DriverType, UringDriver};
use kwokka_io::operation::{IoBuf, IoOp, IoRequest, MAX_MSG_INLINE_CAP, SubmitResult, SubmitToken};

fn ring_driver(capacity: usize) -> DriverType {
    let capabilities = Capabilities { multishot_recv: true, send_zc: true, link_timeout: true };
    let addrs = PoolAddrs { ring: 0x1000, storage: 0x2000 };
    let Ok(pool) = BufRingPool::new(4, 64, BufGroupId::new(7), addrs) else {
        panic!("pool creation must succeed");
    };
    DriverType::Uring(UringDriver::new(capacity, capabilities, Some(pool)))
}

#[test]
fn state_with_current_is_none_when_uninstalled() {
    let mut seams: WorkerSlots<IoSeam> = WorkerSlots::new();
    assert_eq!(IoSeam::with_current(&mut seams, 200).map(|seam| seam.worker_id()), None);
}

#[test]
fn state_guard_brackets_install_and_clear() {
    let mut seams: WorkerSlots<IoSeam> = WorkerSlots::new();
    let seam = IoSeam::new(201, None, None, None);
    {
        let guard = SeamGuard::install(&mut seams, seam);
        assert_eq!(IoSeam::with_current(&mut seams, 201).map(|seam| seam.worker_id()), Some(201));
        assert_eq!(
            IoSeam::with_current(&mut seams, 201).map(|seam| seam.completion_result()),
            Some(None),
            "no captured result means the op is still in flight",
        );
        let submitted = IoSeam::with_current(&mut seams, 201)
            .map(|current| current.submit_internal(IoRequest::timeout(1)));
        assert_eq!(
            submitted,
            Some(None),
            "a driverless seam refuses the submit instead of counting it",
        );
        assert_eq!(IoSeam::with_current(&mut seams, 201).map(|seam| seam.submitted()), Some(0));
        assert!(guard.clear(&mut seams).is_some());
    }
    assert_eq!(
        IoSeam::with_current(&mut seams, 201).map(|seam| seam.worker_id()),
        None,
        "the guard clears the slot",
    );
}

#[test]
fn state_submitted_op_raises_the_count() {
    let driver = ring_driver(8);
    let mut seam = IoSeam::new(203, Some(driver), None, None);
    let request = IoRequest::timeout(1_000_000).with_user_data(0);
    let Some(result) = seam.submit_internal(request) else {
        panic!("a seam with a driver must reach the submit path");
    };
    assert!(matches!(result, SubmitResult::Submitted(_)), "the ring accepts a timeout op");
    assert_eq!(seam.submitted(), 1, "a submitted op raises the count");
}

#[test]
fn state_recv_multishot_submit_reaches_ring() {
    let driver = ring_driver(8);
    let mut seam = IoSeam::new(205, Some(driver), None, None);
    // With the capability and a registered group the submit reaches the ring;
    // a kernel missing either degrades to Unsupported (fallback parity).
    let Some(outcome) = seam.submit_recv_multishot_provided(5, 0x1) else {
        panic!("a seam with a driver must reach the submit path");
    };
    assert!(
        matches!(outcome, SubmitResult::Submitted(_) | SubmitResult::Unsupported),
        "the submit either reaches the ring or degrades cleanly",
    );
}

#[test]
fn state_slot_notif_ready_reads_the_flag_through_the_seam() {
    let Ok(mut slab) = InflightBufSlab::new(12, 8) else {
        panic!("the test slab must be created");
    };
    let Some(key) = slab.allocate(0xABCD) else {
        panic!("allocate must succeed");
    };
    let mut seam = IoSeam::new(12, None, Some(slab), None);
    assert!(
        !seam.slot_notif_ready(key),
        "a fresh slot is not notif-ready through the seam",
    );
    // Arm the flag on the slab, then observe it through the seam.
    if let Some(slab) = &mut seam.inflight_slab {
        slab.mark_notif_ready_by_op_token(0xABCD);
    }
    assert!(
        seam.slot_notif_ready(key),
        "the seam observes the notif-ready flag by key",
    );
}

#[test]
fn state_allocate_slot_returns_a_key() {
    let Ok(slab) = InflightBufSlab::new(5, 8) else {
        panic!("the test slab must be created");
    };
    let mut seam = IoSeam::new(5, None, Some(slab), None);
    let Some((key, offset)) = seam.allocate_slot(0xABCD) else {
        panic!("a seam carrying a slab allocates a slot");
    };
    assert_eq!(key.op_token, 0xABCD);
    assert_eq!(key.worker_id, 5);
    assert_eq!(offset, 0, "the first live slot lies at the front of the storage");
    let Some((_, next)) = seam.allocate_slot(0xABCE) else {
        panic!("a seam carrying a slab allocates a slot");
    };
    assert_eq!(next, INFLIGHT_BUF_STRIDE as usize);
}

#[test]
fn state_rejected_submit_leaves_the_count_untouched() {
    let driver = DriverType::Epoll(());
    let mut seam = IoSeam::new(202, Some(driver), None, None);
    let result = seam.submit_internal(IoRequest::timeout(1));
    assert!(
        matches!(result, Some(SubmitResult::Unsupported)),
        "the epoll stub refuses the op",
    );
    assert_eq!(seam.submitted(), 0, "only Submitted raises the count");
}

#[test]
fn state_recv_multishot_submit_gated() {
    let driver = DriverType::Epoll(());
    let mut seam = IoSeam::new(204, Some(driver), None, None);
    // Epoll reports no multishot-recv capability, so the submit resolves
    // Unsupported up front without touching the ring.
    assert_eq!(
        seam.submit_recv_multishot_provided(5, 0x1),
        Some(SubmitResult::Unsupported),
        "a backend without multishot recv degrades synchronously",
    );
    assert_eq!(seam.submitted(), 0, "a gated submit raises no count");
}

#[test]
fn state_send_zc_unsupported_without_a_driver() {
    let seam = IoSeam::new(206, None, None, None);
    assert!(
        !seam.is_send_zc_supported(),
        "a seam with no driver reports no zero-copy send",
    );
}

#[test]
fn state_send_zc_unsupported_on_epoll() {
    let driver = DriverType::Epoll(());
    let seam = IoSeam::new(207, Some(driver), None, None);
    // Epoll reports no io_uring capabilities, so send_zc reads
    // as false and the future takes the plain-send fallback.
    assert!(
        !seam.is_send_zc_supported(),
        "the epoll stub reports no zero-copy send capability",
    );
}

#[test]
fn state_allocate_slot_needs_a_slab() {
    let mut seam = IoSeam::new(6, None, None, None);
    assert!(
        seam.allocate_slot(0).is_none(),
        "a seam with no slab cannot allocate",
    );
}

#[test]
fn state_slot_notif_ready_needs_a_slab() {
    let seam = IoSeam::new(13, None, None, None);
    let key = InflightSlotKey {
        slot: 0,
        generation: 0,
        worker_id: 13,
        op_token: 0,
    };
    assert!(
        !seam.slot_notif_ready(key),
        "a seam with no slab reports not-ready",
    );
}

#[test]
fn state_harvest_into_copies_then_frees() {
    let Ok(slab) = InflightBufSlab::new(9, 8) else {
        panic!("the test slab must be created");
    };
    let mut seam = IoSeam::new(9, None, Some(slab), None);
    let Some((key, _)) = seam.allocate_slot(0x1234) else {
        panic!("a seam carrying a slab allocates a slot");
    };
    assert!(seam.copy_into_slot(key, &IoBuf::from_bytes(b"ping".to_vec())));
    let mut out = [0u8; 8];
    seam.harvest_into(key, 4, &mut out);
    assert_eq!(&out[..4], b"ping");
    assert!(
        seam.allocate_slot(0)
            .is_some_and(|(reused, _)| reused.slot == key.slot
                && reused.generation == key.generation + 1),
        "harvest frees the slot so it is reused with a bumped generation",
    );
}

#[test]
fn state_harvest_into_clamps_to_dst() {
    let Ok(slab) = InflightBufSlab::new(10, 8) else {
        panic!("the test slab must be created");
    };
    let mut seam = IoSeam::new(10, None, Some(slab), None);
    let Some((key, _)) = seam.allocate_slot(0) else {
        panic!("a seam carrying a slab allocates a slot");
    };
    assert!(seam.copy_into_slot(key, &IoBuf::from_bytes(b"overflow".to_vec())));
    let mut out = [0u8; 4];
    seam.harvest_into(key, 8, &mut out);
    assert_eq!(&out, b"over", "the copy clamps to the destination length");
}

#[test]
fn state_free_slot_returns_the_slot() {
    let Ok(slab) = InflightBufSlab::new(11, 8) else {
        panic!("the test slab must be created");
    };
    let mut seam = IoSeam::new(11, None, Some(slab), None);
    let Some((key, _)) = seam.allocate_slot(0) else {
        panic!("a seam carrying a slab allocates a slot");
    };
    seam.free_slot(key);
    assert!(
        seam.allocate_slot(0)
            .is_some_and(|(reused, _)| reused.slot == key.slot
                && reused.generation == key.generation + 1),
        "free returns the slot for reuse with a bumped generation",
    );
}

#[test]
fn state_harvest_and_free_need_no_slab() {
    let mut seam = IoSeam::new(12, None, None, None);
    let key = InflightSlotKey {
        slot: 0,
        generation: 0,
        worker_id: 12,
        op_token: 0,
    };
    // A seam with no slab is a no-op for both, never a panic.
    seam.harvest_into(key, 4, &mut [0u8; 4]);
    seam.free_slot(key);
}

#[test]
fn copy_into_slot_writes_the_source_bytes() {
    let Ok(slab) = InflightBufSlab::new(20, 8) else {
        panic!("the test slab must be created");
    };
    let mut seam = IoSeam::new(20, None, Some(slab), None);
    let Some((key, _)) = seam.allocate_slot(0x1234) else {
        panic!("a seam carrying a slab allocates a slot");
    };
    let src = IoBuf::from_bytes(b"ping".to_vec());
    assert!(
        seam.copy_into_slot(key, &src),
        "the source copies into the live slot",
    );
    let mut out = [0u8; 8];
    seam.harvest_into(key, 4, &mut out);
    assert_eq!(&out[..4], b"ping", "the slot carries the copied bytes");
}

#[test]
fn copy_into_slot_needs_a_slab() {
    let mut seam = IoSeam::new(21, None, None, None);
    let key = InflightSlotKey {
        slot: 0,
        generation: 0,
        worker_id: 21,
        op_token: 0,
    };
    let src = IoBuf::from_bytes(b"x".to_vec());
    assert!(
        !seam.copy_into_slot(key, &src),
        "a seam with no slab cannot copy",
    );
}

#[test]
fn copy_into_slot_rejects_a_stale_key() {
    let Ok(slab) = InflightBufSlab::new(22, 8) else {
        panic!("the test slab must be created");
    };
    let mut seam = IoSeam::new(22, None, Some(slab), None);
    // A key the slab never issued: the slot is unoccupied, so no copy runs.
    let stale = InflightSlotKey {
        slot: 0,
        generation: 7,
        worker_id: 22,
        op_token: 0,
    };
    let src = IoBuf::from_bytes(b"ping".to_vec());
    assert!(
        !seam.copy_into_slot(stale, &src),
        "a stale key copies nothing",
    );
}

#[test]
fn copy_into_slot_rejects_oversized_source() {
    let Ok(slab) = InflightBufSlab::new(23, 8) else {
        panic!("the test slab must be created");
    };
    let mut seam = IoSeam::new(23, None, Some(slab), None);
    let Some((key, _)) = seam.allocate_slot(0) else {
        panic!("a seam carrying a slab allocates a slot");
    };
    let src = IoBuf::from_bytes(vec![0u8; INFLIGHT_BUF_STRIDE as usize + 1]);
    assert!(
        !seam.copy_into_slot(key, &src),
        "a source past the slot stride copies nothing",
    );
}

#[test]
fn harvest_into_buf_copies_then_frees() {
    let Ok(slab) = InflightBufSlab::new(24, 8) else {
        panic!("the test slab must be created");
    };
    let mut seam = IoSeam::new(24, None, Some(slab), None);
    let Some((key, _)) = seam.allocate_slot(0x5678) else {
        panic!("a seam carrying a slab allocates a slot");
    };
    assert!(seam.copy_into_slot(key, &IoBuf::from_bytes(b"pong".to_vec())));
    let mut dst = IoBuf::with_capacity(8);
    seam.harvest_into_buf(key, 4, &mut dst);
    assert_eq!(dst.bytes_init(), 4, "the sink records the copied length");
    assert_eq!(&dst.as_slice()[..4], b"pong", "the slot bytes land in the sink");
    assert!(
        seam.allocate_slot(0)
            .is_some_and(|(reused, _)| reused.slot == key.slot
                && reused.generation == key.generation + 1),
        "the harvest freed the slot for reuse with a bumped generation",
    );
}

#[test]
fn build_send_msg_round_trips_sender_and_payload() {
    let Ok(slab) = InflightBufSlab::new(30, 8) else {
        panic!("the test slab must be created");
    };
    let mut seam = IoSeam::new(30, None, Some(slab), None);
    let Some((key, _)) = seam.allocate_slot(0x9abc) else {
        panic!("a seam carrying a slab allocates a slot");
    };
    let addr = SockAddr::V4(SocketAddrV4::new([203, 0, 113, 7], 9000));
    let src = IoBuf::from_bytes(b"ping".to_vec());
    assert!(
        seam.build_send_msg(key, &src, &addr).is_some(),
        "a live slot lays out the send header",
    );
    assert!(
        seam.read_msg_sender(key) == Some(addr),
        "the send packed the peer address into the slot",
    );
    let mut dst = IoBuf::with_capacity(8);
    seam.harvest_msg_payload(key, 4, &mut dst);
    assert_eq!(
        &dst.as_slice()[..4],
        b"ping",
        "the payload copies out of the slot"
    );
    assert_eq!(dst.bytes_init(), 4);
}

#[test]
fn build_recv_msg_lays_out_the_header() {
    let Ok(slab) = InflightBufSlab::new(31, 8) else {
        panic!("the test slab must be created");
    };
    let mut seam = IoSeam::new(31, None, Some(slab), None);
    let Some((key, _)) = seam.allocate_slot(0xdef0) else {
        panic!("a seam carrying a slab allocates a slot");
    };
    assert!(
        seam.build_recv_msg(key, 512).is_some(),
        "a live slot lays out the recv header",
    );
    assert!(
        seam.read_msg_sender(key).is_none(),
        "no sender is present before the kernel writes one",
    );
}

#[test]
fn build_send_msg_rejects_an_oversized_payload() {
    let Ok(slab) = InflightBufSlab::new(32, 8) else {
        panic!("the test slab must be created");
    };
    let mut seam = IoSeam::new(32, None, Some(slab), None);
    let Some((key, _)) = seam.allocate_slot(0x1357) else {
        panic!("a seam carrying a slab allocates a slot");
    };
    let addr = SockAddr::V4(SocketAddrV4::new([127, 0, 0, 1], 80));
    assert!(
        seam.build_send_msg(key, &IoBuf::from_bytes(vec![0u8; INFLIGHT_BUF_STRIDE as usize + 1]), &addr)
            .is_none(),
        "a payload past the slot capacity is refused, not truncated",
    );
}

#[test]
fn msg_seam_needs_a_slab() {
    let mut seam = IoSeam::new(33, None, None, None);
    let key = InflightSlotKey {
        slot: 0,
        generation: 0,
        worker_id: 33,
        op_token: 0,
    };
    let addr = SockAddr::V4(SocketAddrV4::new([127, 0, 0, 1], 80));
    assert!(
        seam.build_send_msg(key, &IoBuf::from_bytes(b"x".to_vec()), &addr)
            .is_none(),
    );
    assert!(seam.build_recv_msg(key, 128).is_none());
    assert!(seam.read_msg_sender(key).is_none());
    let mut dst = IoBuf::from_bytes(b"stale".to_vec());
    seam.harvest_msg_payload(key, 4, &mut dst);
    assert_eq!(dst.bytes_init(), 5, "no slab leaves the sink untouched");
}

#[test]
fn harvest_into_buf_clamps_to_dst_capacity() {
    let Ok(slab) = InflightBufSlab::new(25, 8) else {
        panic!("the test slab must be created");
    };
    let mut seam = IoSeam::new(25, None, Some(slab), None);
    let Some((key, _)) = seam.allocate_slot(0) else {
        panic!("a seam carrying a slab allocates a slot");
    };
    assert!(seam.copy_into_slot(key, &IoBuf::from_bytes(b"overflow".to_vec())));
    let mut dst = IoBuf::with_capacity(4);
    seam.harvest_into_buf(key, 8, &mut dst);
    assert_eq!(dst.bytes_init(), 4, "the copy clamps to dst capacity");
    assert_eq!(&dst.as_slice()[..4], b"over", "only the clamped prefix lands");
}

#[test]
fn harvest_into_buf_needs_no_slab() {
    let mut seam = IoSeam::new(26, None, None, None);
    let key = InflightSlotKey {
        slot: 0,
        generation: 0,
        worker_id: 26,
        op_token: 0,
    };
    // Seed a non-zero init to prove a true no-op: with no slab the method
    // returns before touching the buffer, so `bytes_init` stays untouched.
    let mut dst = IoBuf::from_bytes(b"stale".to_vec());
    seam.harvest_into_buf(key, 4, &mut dst);
    assert_eq!(
        dst.bytes_init(),
        5,
        "a seam with no slab leaves the sink untouched",
    );
}

#[test]
fn state_multishot_seam_allocates_and_decodes_sentinel() {
    let slab = MultishotSlab::new(21, 4);
    let mut seam =
        IoSeam::new(21, None, None, None).with_multishot_slab(Some(slab));
    let MultishotAlloc::Allocated { key, sentinel } = seam.allocate_multishot_slot(0xABCD)
    else {
        panic!("a seam carrying a multishot slab allocates a slot");
    };
    assert_eq!(key.worker_id, 21);
    assert!(
        is_multishot_sentinel(sentinel),
        "the SQE user_data is a multishot sentinel",
    );
    assert_eq!(
        multishot_sentinel_slot(sentinel),
        key.slot,
        "the sentinel names the allocated slot",
    );
    assert_eq!(
        multishot_sentinel_generation(sentinel),
        (key.generation & 0xFFFF) as u16,
        "the sentinel carries the slot generation",
    );
}

#[test]
fn state_multishot_seam_next_is_pending_while_armed() {
    let slab = MultishotSlab::new(22, 4);
    let mut seam =
        IoSeam::new(22, None, None, None).with_multishot_slab(Some(slab));
    let MultishotAlloc::Allocated { key, .. } = seam.allocate_multishot_slot(0x9) else {
        panic!("a seam carrying a multishot slab allocates a slot");
    };
    assert_eq!(
        seam.multishot_next(key),
        MultishotNext::Pending,
        "a freshly armed slot with an empty FIFO polls Pending",
    );
}

#[test]
fn state_multishot_seam_drains_then_ends_and_frees() {
    // Queue a terminal completion before the seam takes the registry.
    let mut slab = MultishotSlab::new(24, 4);
    let Some(key) = slab.allocate(0x5) else {
        panic!("the empty registry allocates a slot");
    };
    let gen_low16 = (key.generation & 0xFFFF) as u16;
    slab.push(key.slot, gen_low16, 7, false);
    let mut seam =
        IoSeam::new(24, None, None, None).with_multishot_slab(Some(slab));
    assert_eq!(
        seam.multishot_next(key),
        MultishotNext::Item(7),
        "the queued result drains first",
    );
    assert_eq!(
        seam.multishot_next(key),
        MultishotNext::Ended,
        "an empty terminated FIFO ends the stream",
    );
    let MultishotAlloc::Allocated { key: reused, .. } = seam.allocate_multishot_slot(0x5)
    else {
        panic!("ending the stream freed the slot for reuse");
    };
    assert_eq!(reused.slot, key.slot);
    assert_eq!(
        reused.generation,
        key.generation + 1,
        "the freed slot is reused with a bumped generation",
    );
}

#[test]
fn state_multishot_seam_free_returns_the_slot() {
    let slab = MultishotSlab::new(25, 4);
    let mut seam =
        IoSeam::new(25, None, None, None).with_multishot_slab(Some(slab));
    let MultishotAlloc::Allocated { key, .. } = seam.allocate_multishot_slot(0) else {
        panic!("a seam carrying a multishot slab allocates a slot");
    };
    seam.multishot_free(key);
    let MultishotAlloc::Allocated { key: reused, .. } = seam.allocate_multishot_slot(0) else {
        panic!("freeing the slot returns it for reuse");
    };
    assert_eq!(reused.slot, key.slot);
    assert_eq!(
        reused.generation,
        key.generation + 1,
        "free bumps the generation so a stale handle is rejected",
    );
}

#[test]
fn state_multishot_seam_reports_full_when_saturated() {
    let slab = MultishotSlab::new(26, 2);
    let mut seam =
        IoSeam::new(26, None, None, None).with_multishot_slab(Some(slab));
    assert!(matches!(
        seam.allocate_multishot_slot(0x1),
        MultishotAlloc::Allocated { .. }
    ));
    assert!(matches!(
        seam.allocate_multishot_slot(0x2),
        MultishotAlloc::Allocated { .. }
    ));
    assert_eq!(
        seam.allocate_multishot_slot(0x3),
        MultishotAlloc::Full,
        "a saturated registry reports Full so the stream degrades to single-shot",
    );
}

#[test]
fn state_multishot_seam_needs_a_slab() {
    let mut seam = IoSeam::new(31, None, None, None);
    assert_eq!(
        seam.allocate_multishot_slot(0),
        MultishotAlloc::Unsupported,
        "a seam with no multishot slab reports Unsupported",
    );
    let key = MultishotSlotKey {
        slot: 0,
        generation: 0,
        worker_id: 31,
    };
    assert_eq!(
        seam.multishot_next(key),
        MultishotNext::Ended,
        "a seam with no multishot slab resolves the stream as ended",
    );
    // free with no slab is a no-op, never a panic.
    seam.multishot_free(key);
}

#[test]
fn state_recv_multishot_seam_allocates_and_decodes_sentinel() {
    let Ok(slab) = RecvMultishotSlab::new(41, 4) else {
        panic!("the registry must be created");
    };
    let mut seam = IoSeam::new(41, None, None, None)
        .with_recv_multishot_slab(Some(slab));
    let RecvMultishotAlloc::Allocated { key, sentinel } =
        seam.allocate_recv_multishot_slot(0xABCD)
    else {
        panic!("a seam carrying a recv slab allocates a slot");
    };
    assert_eq!(key.worker_id, 41);
    assert!(
        is_recv_multishot_sentinel(sentinel),
        "the SQE user_data is a recv-multishot sentinel",
    );
    assert_eq!(
        multishot_sentinel_slot(sentinel),
        key.slot,
        "the sentinel names the allocated slot",
    );
    assert_eq!(
        multishot_sentinel_generation(sentinel),
        (key.generation & 0xFFFF) as u16,
        "the sentinel carries the slot generation",
    );
}

#[test]
fn state_recv_multishot_seam_next_is_pending_while_armed() {
    let Ok(slab) = RecvMultishotSlab::new(42, 4) else {
        panic!("the registry must be created");
    };
    let mut seam = IoSeam::new(42, None, None, None)
        .with_recv_multishot_slab(Some(slab));
    let RecvMultishotAlloc::Allocated { key, .. } = seam.allocate_recv_multishot_slot(0x9)
    else {
        panic!("a seam carrying a recv slab allocates a slot");
    };
    assert_eq!(
        seam.recv_multishot_next(key),
        RecvMultishotNext::Pending,
        "a freshly armed slot with an empty FIFO polls Pending",
    );
}

#[test]
fn state_recv_multishot_seam_drains_then_ends_and_frees() {
    // Queue a terminal completion before the seam takes the registry.
    let Ok(mut slab) = RecvMultishotSlab::new(44, 4) else {
        panic!("the registry must be created");
    };
    let Some(key) = slab.allocate(0x5) else {
        panic!("the empty registry allocates a slot");
    };
    let gen_low16 = (key.generation & 0xFFFF) as u16;
    slab.push(key.slot, gen_low16, 7, 3, false);
    let mut seam = IoSeam::new(44, None, None, None)
        .with_recv_multishot_slab(Some(slab));
    assert_eq!(
        seam.recv_multishot_next(key),
        RecvMultishotNext::Item {
            result: 7,
            buf_id: Some(3),
        },
        "the queued result drains first, carrying its buffer id",
    );
    assert_eq!(
        seam.recv_multishot_next(key),
        RecvMultishotNext::Ended,
        "an empty terminated FIFO ends the stream",
    );
    let RecvMultishotAlloc::Allocated { key: reused, .. } =
        seam.allocate_recv_multishot_slot(0x5)
    else {
        panic!("ending the stream freed the slot for reuse");
    };
    assert_eq!(reused.slot, key.slot);
    assert_eq!(
        reused.generation,
        key.generation + 1,
        "the freed slot is reused with a bumped generation",
    );
}

#[test]
fn state_recv_multishot_seam_item_without_buffer_reports_none() {
    let Ok(mut slab) = RecvMultishotSlab::new(45, 4) else {
        panic!("the registry must be created");
    };
    let Some(key) = slab.allocate(0x5) else {
        panic!("the empty registry allocates a slot");
    };
    let gen_low16 = (key.generation & 0xFFFF) as u16;
    // An end-of-stream (zero-length) completion carries no provided buffer.
    slab.push(key.slot, gen_low16, 0, NO_BUFFER, false);
    let mut seam = IoSeam::new(45, None, None, None)
        .with_recv_multishot_slab(Some(slab));
    assert_eq!(
        seam.recv_multishot_next(key),
        RecvMultishotNext::Item {
            result: 0,
            buf_id: None,
        },
        "a NO_BUFFER entry reports buf_id None",
    );
}

#[test]
fn recv_multishot_seam_surfaces_error_end_behind_a_full_fifo() {
    // A consumer far enough behind to fill the FIFO must still see the
    // terminal error, not a bare `Ended` that reads like a clean close.
    let Ok(mut slab) = RecvMultishotSlab::new(48, 4) else {
        panic!("the registry must be created");
    };
    let Some(key) = slab.allocate(0x5) else {
        panic!("the empty registry allocates a slot");
    };
    let gen_low16 = (key.generation & 0xFFFF) as u16;
    for value in 0..i32::from(MULTISHOT_FIFO_DEPTH) {
        slab.push(key.slot, gen_low16, value, 0, true);
    }
    // The terminal error arrives on a saturated FIFO.
    slab.push(key.slot, gen_low16, -104, NO_BUFFER, false);
    let mut seam = IoSeam::new(48, None, None, None)
        .with_recv_multishot_slab(Some(slab));
    for value in 0..i32::from(MULTISHOT_FIFO_DEPTH) {
        assert_eq!(
            seam.recv_multishot_next(key),
            RecvMultishotNext::Item {
                result: value,
                buf_id: Some(0),
            },
        );
    }
    assert_eq!(
        seam.recv_multishot_next(key),
        RecvMultishotNext::Item {
            result: -104,
            buf_id: None,
        },
        "the terminal error is delivered as the final item, not swallowed",
    );
    assert_eq!(
        seam.recv_multishot_next(key),
        RecvMultishotNext::Ended,
        "the stream ends only after the terminal error is handed back",
    );
}

#[test]
fn state_recv_multishot_seam_free_returns_the_slot() {
    let Ok(slab) = RecvMultishotSlab::new(46, 4) else {
        panic!("the registry must be created");
    };
    let mut seam = IoSeam::new(46, None, None, None)
        .with_recv_multishot_slab(Some(slab));
    let RecvMultishotAlloc::Allocated { key, .. } = seam.allocate_recv_multishot_slot(0) else {
        panic!("a seam carrying a recv slab allocates a slot");
    };
    seam.recv_multishot_free(key);
    let RecvMultishotAlloc::Allocated { key: reused, .. } =
        seam.allocate_recv_multishot_slot(0)
    else {
        panic!("freeing the slot returns it for reuse");
    };
    assert_eq!(reused.slot, key.slot);
    assert_eq!(
        reused.generation,
        key.generation + 1,
        "free bumps the generation so a stale handle is rejected",
    );
}

#[test]
fn state_recv_multishot_seam_reports_full_when_saturated() {
    let Ok(slab) = RecvMultishotSlab::new(47, 2) else {
        panic!("the registry must be created");
    };
    let mut seam = IoSeam::new(47, None, None, None)
        .with_recv_multishot_slab(Some(slab));
    assert!(matches!(
        seam.allocate_recv_multishot_slot(0x1),
        RecvMultishotAlloc::Allocated { .. }
    ));
    assert!(matches!(
        seam.allocate_recv_multishot_slot(0x2),
        RecvMultishotAlloc::Allocated { .. }
    ));
    assert_eq!(
        seam.allocate_recv_multishot_slot(0x3),
        RecvMultishotAlloc::Full,
        "a saturated registry reports Full so the stream degrades to single-shot",
    );
}

#[test]
fn state_recv_multishot_seam_needs_a_slab() {
    let mut seam = IoSeam::new(51, None, None, None);
    assert_eq!(
        seam.allocate_recv_multishot_slot(0),
        RecvMultishotAlloc::Unsupported,
        "a seam with no recv slab reports Unsupported",
    );
    let key = RecvMultishotSlotKey {
        slot: 0,
        generation: 0,
        worker_id: 51,
    };
    assert_eq!(
        seam.recv_multishot_next(key),
        RecvMultishotNext::Ended,
        "a seam with no recv slab resolves the stream as ended",
    );
    // free with no slab is a no-op, never a panic.
    seam.recv_multishot_free(key);
}

#[test]
fn a_full_queue_leaves_the_count_untouched() {
    let mut seam = IoSeam::new(1, Some(ring_driver(2)), None, None);
    let request = IoRequest::timeout(5).with_user_data(9);
    assert_eq!(
        seam.submit(request),
        Some(SubmitResult::Submitted(SubmitToken::new(9))),
    );
    assert!(matches!(seam.submit_read(request), Some(SubmitResult::Submitted(_))));
    assert_eq!(seam.submit_internal(request), Some(SubmitResult::QueueFull));
    assert_eq!(seam.submitted(), 2);
}

#[test]
fn a_linked_timeout_queues_both_halves_or_neither() {
    let mut seam = IoSeam::new(1, Some(ring_driver(3)), None, None);
    let request = IoRequest::timeout(5).with_user_data(9);
    assert!(matches!(
        seam.submit_linked_timeout_internal(&request, 77),
        Some(SubmitResult::Submitted(_))
    ));
    assert_eq!(
        seam.submit_linked_timeout_internal(&request, 77),
        Some(SubmitResult::QueueFull),
        "one place is left, and the pair takes two",
    );
    assert_eq!(seam.submitted(), 1, "only the primary op counts");
    let Some(driver) = &mut seam.driver else {
        panic!("the seam holds its driver");
    };
    let queue = driver.take_queue();
    assert_eq!(queue.len(), 2);
    assert_eq!(queue[0], request);
    assert!(matches!(queue[1].op, IoOp::LinkTimeout { deadline_ns: 77 }));
    assert_eq!(queue[1].user_data, 0xFFFF_FFFB_0000_0000);
}

#[test]
fn a_linked_timeout_needs_a_driver_that_has_it() {
    let request = IoRequest::timeout(5);
    let mut bare = IoSeam::new(1, None, None, None);
    assert_eq!(bare.submit_linked_timeout_internal(&request, 1), None);
    let mut epoll = IoSeam::new(1, Some(DriverType::Epoll(())), None, None);
    assert_eq!(
        epoll.submit_linked_timeout_internal(&request, 1),
        Some(SubmitResult::Unsupported),
    );
    assert_eq!(epoll.submitted(), 0);
}

#[test]
fn a_provided_recv_names_the_registered_group() {
    let mut seam = IoSeam::new(1, Some(ring_driver(8)), None, None);
    assert!(matches!(seam.submit_provided_recv(5, 0x1), Some(SubmitResult::Submitted(_))));
    assert!(matches!(
        seam.submit_recv_multishot_provided(6, 0x2),
        Some(SubmitResult::Submitted(_))
    ));
    assert_eq!(seam.submitted(), 2);
    let Some(driver) = &mut seam.driver else {
        panic!("the seam holds its driver");
    };
    let queue = driver.take_queue();
    assert_eq!(queue[0].op, IoOp::RecvProvided { fd: 5, group: BufGroupId::new(7) });
    assert_eq!(queue[0].user_data, 0x1);
    assert_eq!(queue[1].op, IoOp::RecvMultishotProvided { fd: 6, group: BufGroupId::new(7) });
}

#[test]
fn a_provided_recv_without_a_group_is_unsupported() {
    let mut epoll = IoSeam::new(1, Some(DriverType::Epoll(())), None, None);
    assert_eq!(epoll.submit_provided_recv(5, 0x1), Some(SubmitResult::Unsupported));
    let mut bare = IoSeam::new(1, None, None, None);
    assert_eq!(bare.submit_provided_recv(5, 0x1), None);
    assert_eq!(bare.submit_recv_multishot_provided(5, 0x1), None);
}

#[test]
fn a_captured_result_is_read_back() {
    let slot = WakeSlot { result: -11, flags: 2, buf_id: Some(3) };
    let seam = IoSeam::new(4, Some(ring_driver(1)), None, Some(slot));
    assert_eq!(seam.completion_result(), Some(slot));
    assert!(seam.is_send_zc_supported());
}

#[test]
fn message_parts_lie_apart_in_the_slot() {
    let Ok(slab) = InflightBufSlab::new(1, 2) else {
        panic!("the test slab must be created");
    };
    let mut seam = IoSeam::new(1, None, Some(slab), None);
    let Some(_first) = seam.allocate_slot(1) else {
        panic!("a seam carrying a slab allocates a slot");
    };
    let Some((key, offset)) = seam.allocate_slot(2) else {
        panic!("a seam carrying a slab allocates a slot");
    };
    assert_eq!(offset, 4096);
    let addr = SockAddr::V6(SocketAddrV6::new([9; 16], 53, 0, 1));
    let Some(layout) = seam.build_send_msg(key, &IoBuf::from_bytes(vec![7; 10]), &addr) else {
        panic!("a live slot lays out the send");
    };
    assert_eq!(layout.header, 4096);
    assert_eq!(layout.addr, 4096 + 128);
    assert_eq!(layout.addr_len, 28);
    assert_eq!(layout.payload, 4096 + 256);
    assert_eq!(layout.payload_len, 10);
    assert!(seam.read_msg_sender(key) == Some(addr));
    let Some(layout) = seam.build_recv_msg(key, usize::MAX) else {
        panic!("a live slot lays out the recv");
    };
    assert_eq!(layout.payload_len, MAX_MSG_INLINE_CAP);
    assert_eq!(layout.addr_len, 128);
    assert!(seam.read_msg_sender(key).is_none(), "an earlier address is gone");
}

#[test]
fn a_unix_peer_is_packed_but_not_read_back() {
    let Ok(slab) = InflightBufSlab::new(1, 2) else {
        panic!("the test slab must be created");
    };
    let mut seam = IoSeam::new(1, None, Some(slab), None);
    let Some((key, _)) = seam.allocate_slot(1) else {
        panic!("a seam carrying a slab allocates a slot");
    };
    let Ok(unix) = UnixAddr::path(b"/run/peer") else {
        panic!("the path fits");
    };
    let Some(layout) = seam.build_send_msg(key, &IoBuf::from_bytes(vec![]), &SockAddr::Unix(unix))
    else {
        panic!("a live slot lays out the send");
    };
    assert_eq!(layout.addr_len, 12);
    assert!(seam.read_msg_sender(key).is_none());
}

#[test]
fn a_stale_harvest_empties_the_sink() {
    let Ok(slab) = InflightBufSlab::new(1, 2) else {
        panic!("the test slab must be created");
    };
    let mut seam = IoSeam::new(1, None, Some(slab), None);
    let Some((key, _)) = seam.allocate_slot(1) else {
        panic!("a seam carrying a slab allocates a slot");
    };
    seam.free_slot(key);
    let mut dst = IoBuf::from_bytes(b"stale".to_vec());
    seam.harvest_into_buf(key, 4, &mut dst);
    assert_eq!(dst.bytes_init(), 0);
    let mut dst = IoBuf::from_bytes(b"stale".to_vec());
    seam.harvest_msg_payload(key, 4, &mut dst);
    assert_eq!(dst.bytes_init(), 0);
    let mut out = [5u8; 2];
    seam.harvest_into(key, 2, &mut out);
    assert_eq!(out, [5, 5], "a stale key copies nothing");
}

#[test]
fn a_running_recv_stream_drains_then_is_pending() {
    let Ok(mut slab) = RecvMultishotSlab::new(49, 4) else {
        panic!("the registry must be created");
    };
    let Some(key) = slab.allocate(0x5) else {
        panic!("the empty registry allocates a slot");
    };
    slab.push(key.slot, 0, 7, 3, true);
    slab.push(key.slot, 0, 9, 1, true);
    let mut seam = IoSeam::new(49, None, None, None).with_recv_multishot_slab(Some(slab));
    let first = RecvMultishotNext::Item { result: 7, buf_id: Some(3) };
    let second = RecvMultishotNext::Item { result: 9, buf_id: Some(1) };
    assert_eq!(seam.recv_multishot_next(key), first);
    assert_eq!(seam.recv_multishot_next(key), second);
    assert_eq!(seam.recv_multishot_next(key), RecvMultishotNext::Pending);
    assert_eq!(seam.recv_multishot_next(key), RecvMultishotNext::Pending, "nothing repeats");
    let RecvMultishotAlloc::Allocated { key: next, .. } = seam.allocate_recv_multishot_slot(0x6)
    else {
        panic!("a free slot is left");
    };
    assert_ne!(next.slot, key.slot, "the running stream keeps its slot");
}

#[test]
fn a_polled_buffer_is_held_no_longer() {
    let Ok(mut slab) = RecvMultishotSlab::new(50, 4) else {
        panic!("the registry must be created");
    };
    let (Some(key), Some(other)) = (slab.allocate(0x5), slab.allocate(0x6)) else {
        panic!("the empty registry allocates two slots");
    };
    slab.push(key.slot, 0, 4, 3, true);
    slab.push(key.slot, 0, 0, NO_BUFFER, true);
    slab.push(key.slot, 0, 4, 2, false);
    slab.push(other.slot, 0, 4, 1, true);
    let mut seam = IoSeam::new(50, None, None, None).with_recv_multishot_slab(Some(slab));
    let mut yielded = Vec::new();
    while let RecvMultishotNext::Item { buf_id, .. } = seam.recv_multishot_next(key) {
        yielded.push(buf_id);
    }
    assert_eq!(yielded, [Some(3), None, Some(2)], "each buffer is yielded once, in order");
    let kept = RecvMultishotNext::Item { result: 4, buf_id: Some(1) };
    assert_eq!(seam.recv_multishot_next(other), kept, "another stream keeps its own");
}
