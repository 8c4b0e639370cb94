use kwokka_io::buffer::multishot::{
    DEFAULT_MULTISHOT_CAP, MULTISHOT_FIFO_DEPTH, MultishotPush, MultishotSlab, MultishotSlotKey,
};

fn slab() -> MultishotSlab {
    MultishotSlab::new(3, DEFAULT_MULTISHOT_CAP)
}

fn allocate(registry: &mut MultishotSlab, owner: u64) -> MultishotSlotKey {
    let Some(key) = registry.allocate(owner) else {
        panic!("a free slot was expected");
    };
    key
}

#[test]
fn accept_allocate_then_free_bumps_generation() {
    let mut registry = slab();
    let key = allocate(&mut registry, 0xAA);
    assert!(registry.is_live(key));
    assert_eq!(key.generation, 0);
    registry.free(key);
    assert!(!registry.is_live(key));
    let next = allocate(&mut registry, 0xAA);
    assert_eq!(next.slot, key.slot);
    assert_eq!(next.generation, 1);
}

#[test]
fn push_pop_is_fifo() {
    let mut registry = slab();
    let key = allocate(&mut registry, 0x1);
    let gen_low16 = (key.generation & 0xFFFF) as u16;
    assert_eq!(
        registry.push(key.slot, gen_low16, 10, true),
        MultishotPush::Queued
    );
    assert_eq!(
        registry.push(key.slot, gen_low16, 11, true),
        MultishotPush::Queued
    );
    assert_eq!(registry.pop(key), Some(10));
    assert_eq!(registry.pop(key), Some(11));
    assert_eq!(registry.pop(key), None);
}

#[test]
fn accept_push_marks_terminated() {
    let mut registry = slab();
    let key = allocate(&mut registry, 0x1);
    let gen_low16 = (key.generation & 0xFFFF) as u16;
    assert!(!registry.is_terminated(key));
    registry.push(key.slot, gen_low16, 7, false);
    assert!(registry.is_terminated(key));
}

#[test]
fn accept_push_overflows_when_full() {
    let mut registry = slab();
    let key = allocate(&mut registry, 0x1);
    let gen_low16 = (key.generation & 0xFFFF) as u16;
    for value in 0..i32::from(MULTISHOT_FIFO_DEPTH) {
        assert_eq!(
            registry.push(key.slot, gen_low16, value, true),
            MultishotPush::Queued
        );
    }
    assert_eq!(
        registry.push(key.slot, gen_low16, 999, true),
        MultishotPush::Overflowed
    );
}

#[test]
fn accept_push_rejects_stale_generation() {
    let mut registry = slab();
    let key = allocate(&mut registry, 0x1);
    registry.free(key);
    let stale = (key.generation & 0xFFFF) as u16;
    assert_eq!(
        registry.push(key.slot, stale, 5, true),
        MultishotPush::Stale
    );
}

#[test]
fn accept_ring_wraps_around() {
    let mut registry = slab();
    let key = allocate(&mut registry, 0x1);
    let gen_low16 = (key.generation & 0xFFFF) as u16;
    for value in 0..40 {
        registry.push(key.slot, gen_low16, value, true);
        assert_eq!(registry.pop(key), Some(value));
    }
    for value in 0..i32::from(MULTISHOT_FIFO_DEPTH) {
        assert_eq!(
            registry.push(key.slot, gen_low16, value, true),
            MultishotPush::Queued
        );
    }
    for value in 0..i32::from(MULTISHOT_FIFO_DEPTH) {
        assert_eq!(registry.pop(key), Some(value));
    }
}

#[test]
fn accept_owner_resolves_live_slot() {
    let mut registry = slab();
    let key = allocate(&mut registry, 0xDEAD);
    let gen_low16 = (key.generation & 0xFFFF) as u16;
    assert_eq!(registry.owner(key.slot, gen_low16), Some(0xDEAD));
    registry.free(key);
    assert_eq!(registry.owner(key.slot, gen_low16), None);
}

#[test]
fn accept_allocate_returns_none_when_full() {
    let mut registry = MultishotSlab::new(0, 2);
    assert!(registry.allocate(0x1).is_some());
    assert!(registry.allocate(0x2).is_some());
    assert!(registry.allocate(0x3).is_none());
}

#[test]
fn accept_stale_key_reads_are_inert() {
    let mut registry = slab();
    let key = allocate(&mut registry, 0x1);
    registry.free(key);
    assert!(!registry.is_live(key));
    assert!(!registry.is_terminated(key));
    assert_eq!(registry.pop(key), None);
    registry.free(key);
    registry.mark_cancel_pending(key);
}

#[test]
fn accept_is_live_rejects_other_worker() {
    let mut registry = MultishotSlab::new(3, DEFAULT_MULTISHOT_CAP);
    let key = allocate(&mut registry, 0x1);
    let mut foreign = key;
    foreign.worker_id = 4;
    assert!(!registry.is_live(foreign));
}

#[test]
fn is_cancel_pending_tracks_the_flag() {
    let mut registry = slab();
    let key = allocate(&mut registry, 0x1);
    let gen_low16 = (key.generation & 0xFFFF) as u16;
    assert!(
        !registry.is_cancel_pending(key.slot, gen_low16),
        "a fresh slot is not cancel-pending",
    );
    registry.mark_cancel_pending(key);
    assert!(
        registry.is_cancel_pending(key.slot, gen_low16),
        "marking sets the cancel-pending flag",
    );
}

#[test]
fn is_cancel_pending_rejects_stale_generation() {
    let mut registry = slab();
    let key = allocate(&mut registry, 0x1);
    let gen_low16 = (key.generation & 0xFFFF) as u16;
    registry.mark_cancel_pending(key);
    registry.free(key);
    assert!(
        !registry.is_cancel_pending(key.slot, gen_low16),
        "a freed slot reads not cancel-pending at the old generation",
    );
}

#[test]
fn free_by_slot_frees_and_bumps_generation() {
    let mut registry = slab();
    let key = allocate(&mut registry, 0x1);
    let gen_low16 = (key.generation & 0xFFFF) as u16;
    registry.mark_cancel_pending(key);
    registry.free_by_slot(key.slot, gen_low16);
    assert!(!registry.is_live(key), "free_by_slot clears the occupancy");
    let next = allocate(&mut registry, 0x1);
    assert_eq!(next.slot, key.slot);
    assert_eq!(
        next.generation,
        key.generation + 1,
        "the generation bumped so the stale key is rejected",
    );
    assert!(
        !registry.is_cancel_pending(next.slot, (next.generation & 0xFFFF) as u16),
        "the reused slot starts without the cancel-pending flag",
    );
}

#[test]
fn free_by_slot_ignores_stale_generation() {
    let mut registry = slab();
    let key = allocate(&mut registry, 0x1);
    let gen_low16 = (key.generation & 0xFFFF) as u16;
    registry.free_by_slot(key.slot, gen_low16.wrapping_add(1));
    assert!(
        registry.is_live(key),
        "a mismatched generation leaves the slot live",
    );
}

#[test]
fn each_slot_keeps_its_own_queue() {
    let mut registry = slab();
    let first = allocate(&mut registry, 0x1);
    let second = allocate(&mut registry, 0x2);
    registry.push(first.slot, 0, 10, true);
    registry.push(second.slot, 0, 20, true);
    registry.push(first.slot, 0, 11, true);
    registry.free(second);
    assert_eq!(registry.pop(first), Some(10));
    assert_eq!(registry.pop(first), Some(11));
    assert_eq!(registry.pop(second), None);
}
