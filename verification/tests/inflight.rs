use kwokka_io::IoError;
use kwokka_io::buffer::MAX_INLINE_CAP;
use kwokka_io::buffer::oneshot::inflight::{
    INFLIGHT_BUF_STRIDE, InflightBufSlab, InflightSlotKey,
};

fn slab(cap: u16) -> InflightBufSlab {
    let Ok(slab) = InflightBufSlab::new(3, cap) else {
        panic!("the test registry must be created");
    };
    slab
}

#[test]
fn inflight_allocate_is_sequential() {
    let mut registry = slab(8);
    assert_eq!(registry.allocate(0).map(|key| key.slot), Some(0));
    assert_eq!(registry.allocate(0).map(|key| key.slot), Some(1));
}

#[test]
fn inflight_allocate_carries_worker_token_and_generation() {
    let mut registry = slab(8);
    let Some(key) = registry.allocate(0xABCD) else {
        panic!("allocate must succeed");
    };
    assert_eq!(key.worker_id, 3);
    assert_eq!(key.op_token, 0xABCD);
    assert_eq!(key.generation, 0);
}

#[test]
fn inflight_exhaustion_returns_none() {
    let mut registry = slab(2);
    assert!(registry.allocate(0).is_some());
    assert!(registry.allocate(0).is_some());
    assert!(registry.allocate(0).is_none());
}

#[test]
fn inflight_free_reuses_slot_and_bumps_generation() {
    let mut registry = slab(8);
    let Some(first) = registry.allocate(0) else {
        panic!("allocate must succeed");
    };
    registry.free(first);
    let Some(second) = registry.allocate(0) else {
        panic!("allocate must succeed");
    };
    assert_eq!(second.slot, 0, "the freed slot is reused");
    assert_eq!(second.generation, 1, "the generation bumped on free");
}

#[test]
fn inflight_stale_handle_is_rejected_everywhere() {
    let mut registry = slab(8);
    let Some(stale) = registry.allocate(0) else {
        panic!("allocate must succeed");
    };
    registry.free(stale);
    let Some(fresh) = registry.allocate(0) else {
        panic!("allocate must succeed");
    };
    assert_eq!(fresh.slot, stale.slot, "the slot is reused");
    assert!(registry.slot_ptr(stale).is_none(), "stale ptr is rejected");
    assert!(
        registry.slot_slice(stale, 4).is_none(),
        "stale slice is rejected"
    );
    registry.free(stale);
    registry.mark_retire_pending(stale);
    assert!(
        !registry.is_retire_pending(fresh.slot),
        "the stale mark did not apply to the fresh occupant",
    );
    assert!(
        registry.slot_ptr(fresh).is_some(),
        "the fresh slot survives a stale free",
    );
}

#[test]
fn inflight_retire_pending_marks_and_clears_on_free() {
    let mut registry = slab(8);
    let Some(key) = registry.allocate(0) else {
        panic!("allocate must succeed");
    };
    assert!(!registry.is_retire_pending(key.slot));
    registry.mark_retire_pending(key);
    assert!(registry.is_retire_pending(key.slot));
    registry.free(key);
    assert!(!registry.is_retire_pending(key.slot), "free clears the bit");
}

#[test]
fn inflight_slot_ptr_is_distinct_and_stride_apart() {
    let mut registry = slab(8);
    let Some(first) = registry.allocate(0) else {
        panic!("allocate must succeed");
    };
    let Some(second) = registry.allocate(0) else {
        panic!("allocate must succeed");
    };
    let (Some(first_ptr), Some(second_ptr)) =
        (registry.slot_ptr(first), registry.slot_ptr(second))
    else {
        panic!("a live handle yields an offset");
    };
    let gap = second_ptr - first_ptr;
    assert_eq!(gap, INFLIGHT_BUF_STRIDE as usize);
}

#[test]
fn inflight_slot_slice_clamps_to_len() {
    let mut registry = slab(8);
    let Some(key) = registry.allocate(0) else {
        panic!("allocate must succeed");
    };
    let Some(bytes) = registry.slot_slice(key, 4) else {
        panic!("a live handle yields a slice");
    };
    assert_eq!(bytes.len(), 4);
    assert!(bytes.iter().all(|&byte| byte == 0), "storage is zero-filled");
}

#[test]
fn slot_array_spans_the_stride_and_round_trips() {
    let mut registry = slab(8);
    let Some(key) = registry.allocate(0) else {
        panic!("allocate must succeed");
    };
    assert!(registry.write_slot(key, 0, &[0xAB]));
    assert!(registry.write_slot(key, INFLIGHT_BUF_STRIDE as usize - 1, &[0xCD]));
    let Some(read) = registry.slot_array(key) else {
        panic!("a live handle yields the shared slot array");
    };
    assert_eq!(read.len(), INFLIGHT_BUF_STRIDE as usize);
    assert_eq!(read[0], 0xAB);
    assert_eq!(read[INFLIGHT_BUF_STRIDE as usize - 1], 0xCD);
}

#[test]
fn slot_array_rejects_a_stale_key() {
    let registry = slab(8);
    let stale = InflightSlotKey {
        slot: 0,
        generation: 0,
        worker_id: 0,
        op_token: 0,
    };
    assert!(
        registry.slot_array(stale).is_none(),
        "a fabricated generation-0 key is not live",
    );
}

#[test]
fn inflight_slot_slice_len_is_capped_at_stride() {
    let mut registry = slab(8);
    let Some(key) = registry.allocate(0) else {
        panic!("allocate must succeed");
    };
    let Some(bytes) = registry.slot_slice(key, usize::MAX) else {
        panic!("a live handle yields a slice");
    };
    assert_eq!(bytes.len(), INFLIGHT_BUF_STRIDE as usize);
}

#[test]
fn inflight_unallocated_slot_is_not_live() {
    let registry = slab(8);
    let fabricated = InflightSlotKey {
        slot: 0,
        generation: 0,
        worker_id: 3,
        op_token: 0,
    };
    assert!(
        registry.slot_ptr(fabricated).is_none(),
        "a fabricated key for an unallocated slot is rejected",
    );
}

#[test]
fn inflight_foreign_worker_key_is_rejected() {
    let mut registry = slab(8);
    let Some(key) = registry.allocate(0) else {
        panic!("allocate must succeed");
    };
    let foreign = InflightSlotKey {
        worker_id: key.worker_id + 1,
        ..key
    };
    assert!(
        registry.slot_ptr(foreign).is_none(),
        "a key from another worker is rejected",
    );
}

#[test]
fn op_token_frees_marked_slot() {
    let mut registry = slab(8);
    let Some(key) = registry.allocate(0xABCD) else {
        panic!("allocate must succeed");
    };
    registry.mark_retire_pending(key);
    registry.free_by_op_token(0xABCD);
    let Some(next) = registry.allocate(0) else {
        panic!("the freed slot reallocates");
    };
    assert_eq!(next.slot, key.slot, "the slot is reused");
    assert_eq!(
        next.generation,
        key.generation + 1,
        "the op-token free bumped the generation",
    );
}

#[test]
fn op_token_skips_live_slot() {
    let mut registry = slab(8);
    let Some(key) = registry.allocate(0xABCD) else {
        panic!("allocate must succeed");
    };
    // Not retire-pending: a live future still owns the slot, so its op
    // completion must not free it here -- only its own harvest/free may.
    registry.free_by_op_token(0xABCD);
    assert!(
        registry.slot_ptr(key).is_some(),
        "a slot not yet retire-pending survives its op completion",
    );
}

#[test]
fn op_token_ignores_mismatch() {
    let mut registry = slab(8);
    let Some(key) = registry.allocate(0xABCD) else {
        panic!("allocate must succeed");
    };
    registry.mark_retire_pending(key);
    registry.free_by_op_token(0x1234);
    assert!(
        registry.is_retire_pending(key.slot),
        "a foreign op token leaves the slot marked, not freed",
    );
    assert!(registry.slot_ptr(key).is_some(), "the marked slot survives");
}

#[test]
fn op_token_free_is_idempotent() {
    let mut registry = slab(8);
    let Some(key) = registry.allocate(0xABCD) else {
        panic!("allocate must succeed");
    };
    registry.mark_retire_pending(key);
    registry.free_by_op_token(0xABCD);
    // The op's CQE cannot arrive twice, but a defensive second call finds
    // the slot cleared (bit gone), so it is a no-op.
    registry.free_by_op_token(0xABCD);
    let Some(next) = registry.allocate(0) else {
        panic!("the freed slot reallocates");
    };
    assert_eq!(
        next.generation,
        key.generation + 1,
        "the slot was freed once, not twice",
    );
}

#[test]
fn free_by_op_token_reports_whether_it_freed() {
    let mut registry = slab(8);
    let Some(key) = registry.allocate(0xABCD) else {
        panic!("allocate must succeed");
    };
    // Live (not retire-pending): nothing to free, so it reports false.
    assert!(
        !registry.free_by_op_token(0xABCD),
        "a live slot is not freed",
    );
    registry.mark_retire_pending(key);
    assert!(
        registry.free_by_op_token(0xABCD),
        "a retire-pending slot is freed and reported",
    );
}

#[test]
fn notif_ready_roundtrips_by_key_and_clears_on_free() {
    let mut registry = slab(8);
    let Some(key) = registry.allocate(0xABCD) else {
        panic!("allocate must succeed");
    };
    assert!(
        !registry.is_notif_ready(key),
        "a fresh slot is not notif-ready",
    );
    registry.mark_notif_ready_by_op_token(0xABCD);
    assert!(
        registry.is_notif_ready(key),
        "the notif mark is visible by key",
    );
    registry.free(key);
    assert!(
        !registry.is_notif_ready(key),
        "free clears the notif flag and the stale key reads false",
    );
}

#[test]
fn notif_after_drop_frees_via_op_token() {
    let mut registry = slab(8);
    let Some(key) = registry.allocate(0xABCD) else {
        panic!("allocate must succeed");
    };
    // Primary CQE carried F_MORE.
    registry.mark_notif_expected_by_op_token(0xABCD);
    // Future drops -> its cancel marks the slot retire-pending.
    registry.mark_retire_pending(key);
    // NOTIF arrives: the dropped future's slot frees by op token.
    assert!(
        registry.free_by_op_token(0xABCD),
        "the NOTIF frees the slot"
    );
    let Some(next) = registry.allocate(0) else {
        panic!("the freed slot reallocates");
    };
    assert_eq!(next.slot, key.slot, "the slot is reused after the NOTIF");
}

#[test]
fn enoent_refuses_free_before_notif() {
    let mut registry = slab(8);
    let Some(key) = registry.allocate(0xABCD) else {
        panic!("allocate must succeed");
    };
    registry.mark_notif_expected_by_op_token(0xABCD);
    registry.mark_retire_pending(key);
    let generation_low16 = (key.generation & 0xFFFF) as u16;
    registry.free_if_retire_pending(key.slot, generation_low16);
    assert!(
        registry.slot_ptr(key).is_some(),
        "the slot survives an -ENOENT before its NOTIF",
    );
}

#[test]
fn enoent_frees_after_notif_ready_then_drop() {
    let mut registry = slab(8);
    let Some(key) = registry.allocate(0xABCD) else {
        panic!("allocate must succeed");
    };
    registry.mark_notif_expected_by_op_token(0xABCD);
    // NOTIF on a live future: not retire-pending, so it marks ready.
    assert!(
        !registry.free_by_op_token(0xABCD),
        "a live future frees nothing here",
    );
    registry.mark_notif_ready_by_op_token(0xABCD);
    // Future drops now; the cancel marks retire-pending and returns -ENOENT.
    registry.mark_retire_pending(key);
    let generation_low16 = (key.generation & 0xFFFF) as u16;
    registry.free_if_retire_pending(key.slot, generation_low16);
    let Some(next) = registry.allocate(0) else {
        panic!("the freed slot reallocates once notif-ready");
    };
    assert_eq!(
        next.slot, key.slot,
        "notif_ready lets the -ENOENT free proceed",
    );
}

#[test]
fn a_copy_past_the_slot_is_refused_whole() {
    let mut registry = slab(2);
    let Some(key) = registry.allocate(1) else {
        panic!("allocate must succeed");
    };
    assert_eq!(MAX_INLINE_CAP, 4096);
    assert!(!registry.write_slot(key, 4095, &[1, 2]));
    assert!(!registry.write_slot(key, usize::MAX, &[1]));
    assert!(registry.write_slot(key, 4094, &[1, 2]));
    let Some(bytes) = registry.slot_array(key) else {
        panic!("a live handle yields the slot");
    };
    assert_eq!(&bytes[4092..], &[0, 0, 1, 2]);
}

#[test]
fn neighbouring_slots_do_not_share_bytes() {
    let mut registry = slab(2);
    let (Some(first), Some(second)) = (registry.allocate(1), registry.allocate(2)) else {
        panic!("allocate must succeed");
    };
    assert!(registry.write_slot(first, 0, &[7; 4096]));
    assert_eq!(registry.slot_slice(second, 4096), Some(&[0u8; 4096][..]));
    assert!(registry.write_slot(second, 0, &[9; 4096]));
    assert_eq!(registry.slot_slice(first, 4096), Some(&[7u8; 4096][..]));
}

#[test]
fn an_oversized_capacity_is_clamped() {
    let mut registry = slab(u16::MAX);
    let mut count: u32 = 0;
    while registry.allocate(0).is_some() {
        count += 1;
    }
    assert_eq!(count, 256);
}

#[test]
fn a_cancel_of_another_generation_frees_nothing() {
    let mut registry = slab(2);
    let Some(key) = registry.allocate(1) else {
        panic!("allocate must succeed");
    };
    registry.mark_retire_pending(key);
    registry.free_if_retire_pending(key.slot, 1);
    assert!(registry.is_live(key));
    registry.free_if_retire_pending(key.slot, 0);
    assert!(!registry.is_live(key));
}

#[test]
fn a_refused_mapping_leaves_no_inflight_registry() {
    let Err(error) = InflightBufSlab::mapped(3, 8, Some(12)) else {
        panic!("a refused mapping must be reported");
    };
    assert_eq!(error, IoError::Os(12));
    let Err(error) = InflightBufSlab::mapped(3, 0, Some(12)) else {
        panic!("a registry of no slots must be refused");
    };
    assert_eq!(error, IoError::ZeroLengthRegion);
    assert!(InflightBufSlab::mapped(3, 8, None).is_ok());
}
