use kwokka_io::IoError;
use kwokka_io::buffer::multishot::{
    DEFAULT_RECV_MULTISHOT_CAP, MULTISHOT_FIFO_DEPTH, NO_BUFFER, RecvMultishotPush,
    RecvMultishotSlab, RecvMultishotSlotKey,
};

fn slab() -> RecvMultishotSlab {
    let Ok(slab) = RecvMultishotSlab::new(3, DEFAULT_RECV_MULTISHOT_CAP) else {
        panic!("the test registry must be created");
    };
    slab
}

fn allocate(registry: &mut RecvMultishotSlab, owner: u64) -> RecvMultishotSlotKey {
    let Some(key) = registry.allocate(owner) else {
        panic!("a free slot was expected");
    };
    key
}

#[test]
fn recv_allocate_then_free_bumps_generation() {
    let mut registry = slab();
    let key = allocate(&mut registry, 0xAA);
    assert!(registry.is_live(key));
    assert_eq!(key.generation, 0);
    registry.free(key);
    assert!(!registry.is_live(key));
    let next = allocate(&mut registry, 0xAA);
    assert_eq!(next.slot, key.slot);
    assert_eq!(next.generation, 1);
}

#[test]
fn push_pop_carries_payload() {
    let mut registry = slab();
    let key = allocate(&mut registry, 0x1);
    let gen_low16 = (key.generation & 0xFFFF) as u16;
    assert_eq!(
        registry.push(key.slot, gen_low16, 128, 7, true),
        RecvMultishotPush::Queued
    );
    assert_eq!(
        registry.push(key.slot, gen_low16, 64, 9, true),
        RecvMultishotPush::Queued
    );
    assert_eq!(registry.pop(key), Some((128, 7)));
    assert_eq!(registry.pop(key), Some((64, 9)));
    assert_eq!(registry.pop(key), None);
}

#[test]
fn pop_round_trips_payload() {
    let mut registry = slab();
    let key = allocate(&mut registry, 0x1);
    let gen_low16 = (key.generation & 0xFFFF) as u16;
    registry.push(key.slot, gen_low16, 12, 3, true);
    registry.push(key.slot, gen_low16, -105, NO_BUFFER, false);
    assert_eq!(registry.pop(key), Some((12, 3)));
    assert_eq!(
        registry.pop(key),
        None,
        "the terminal is stashed in the slot, not queued in the FIFO",
    );
    assert_eq!(
        registry.take_terminal(key),
        Some((-105, NO_BUFFER)),
        "a negative errno round-trips through the little-endian terminal stash",
    );
}

#[test]
fn recv_push_marks_terminated() {
    let mut registry = slab();
    let key = allocate(&mut registry, 0x1);
    let gen_low16 = (key.generation & 0xFFFF) as u16;
    assert!(!registry.is_terminated(key));
    assert_eq!(
        registry.push(key.slot, gen_low16, 7, 1, false),
        RecvMultishotPush::Terminal,
        "the terminal completion stashes rather than queuing",
    );
    assert!(registry.is_terminated(key));
}

#[test]
fn recv_push_overflows_when_full() {
    let mut registry = slab();
    let key = allocate(&mut registry, 0x1);
    let gen_low16 = (key.generation & 0xFFFF) as u16;
    for value in 0..i32::from(MULTISHOT_FIFO_DEPTH) {
        assert_eq!(
            registry.push(key.slot, gen_low16, value, 0, true),
            RecvMultishotPush::Queued
        );
    }
    assert_eq!(
        registry.push(key.slot, gen_low16, 999, 0, true),
        RecvMultishotPush::Overflowed
    );
}

#[test]
fn terminal_survives_full_fifo() {
    // A terminal completion arriving while the FIFO is full must not
    // be discarded -- its result distinguishes a clean close from an error
    // end. The terminal stashes in the slot, so a full FIFO cannot lose it.
    let mut registry = slab();
    let key = allocate(&mut registry, 0x1);
    let gen_low16 = (key.generation & 0xFFFF) as u16;
    for value in 0..i32::from(MULTISHOT_FIFO_DEPTH) {
        assert_eq!(
            registry.push(key.slot, gen_low16, value, 0, true),
            RecvMultishotPush::Queued,
        );
    }
    assert_eq!(
        registry.push(key.slot, gen_low16, -104, NO_BUFFER, false),
        RecvMultishotPush::Terminal,
        "the terminal stashes even when the FIFO is full",
    );
    assert!(registry.is_terminated(key));
    for value in 0..i32::from(MULTISHOT_FIFO_DEPTH) {
        assert_eq!(registry.pop(key), Some((value, 0)));
    }
    assert_eq!(registry.pop(key), None);
    assert_eq!(
        registry.take_terminal(key),
        Some((-104, NO_BUFFER)),
        "the error end survives the full-FIFO overflow",
    );
}

#[test]
fn take_terminal_yields_once() {
    let mut registry = slab();
    let key = allocate(&mut registry, 0x1);
    let gen_low16 = (key.generation & 0xFFFF) as u16;
    assert_eq!(
        registry.take_terminal(key),
        None,
        "no terminal is stashed before the final CQE",
    );
    registry.push(key.slot, gen_low16, 0, NO_BUFFER, false);
    assert_eq!(registry.take_terminal(key), Some((0, NO_BUFFER)));
    assert_eq!(
        registry.take_terminal(key),
        None,
        "the terminal is handed back exactly once",
    );
    assert!(
        registry.is_terminated(key),
        "termination outlives the taken terminal so the stream still ends",
    );
}

#[test]
fn take_terminal_ignores_stale() {
    let mut registry = slab();
    let key = allocate(&mut registry, 0x1);
    let gen_low16 = (key.generation & 0xFFFF) as u16;
    registry.push(key.slot, gen_low16, 0, NO_BUFFER, false);
    registry.free(key);
    assert_eq!(
        registry.take_terminal(key),
        None,
        "a freed slot yields no stashed terminal",
    );
}

#[test]
fn recv_push_rejects_stale_generation() {
    let mut registry = slab();
    let key = allocate(&mut registry, 0x1);
    registry.free(key);
    let stale = (key.generation & 0xFFFF) as u16;
    assert_eq!(
        registry.push(key.slot, stale, 5, 0, true),
        RecvMultishotPush::Stale
    );
}

#[test]
fn recv_ring_wraps_around() {
    let mut registry = slab();
    let key = allocate(&mut registry, 0x1);
    let gen_low16 = (key.generation & 0xFFFF) as u16;
    for value in 0..40u16 {
        registry.push(key.slot, gen_low16, i32::from(value), value, true);
        assert_eq!(registry.pop(key), Some((i32::from(value), value)));
    }
    for value in 0..i32::from(MULTISHOT_FIFO_DEPTH) {
        assert_eq!(
            registry.push(key.slot, gen_low16, value, 0, true),
            RecvMultishotPush::Queued
        );
    }
    for value in 0..i32::from(MULTISHOT_FIFO_DEPTH) {
        assert_eq!(registry.pop(key), Some((value, 0)));
    }
}

#[test]
fn recv_owner_resolves_live_slot() {
    let mut registry = slab();
    let key = allocate(&mut registry, 0xDEAD);
    let gen_low16 = (key.generation & 0xFFFF) as u16;
    assert_eq!(registry.owner(key.slot, gen_low16), Some(0xDEAD));
    registry.free(key);
    assert_eq!(registry.owner(key.slot, gen_low16), None);
}

#[test]
fn recv_allocate_returns_none_when_full() {
    let Ok(mut registry) = RecvMultishotSlab::new(0, 2) else {
        panic!("the registry must be created");
    };
    assert!(registry.allocate(0x1).is_some());
    assert!(registry.allocate(0x2).is_some());
    assert!(registry.allocate(0x3).is_none());
}

#[test]
fn slots_are_stride_independent() {
    let mut registry = slab();
    let first = allocate(&mut registry, 0x1);
    let second = allocate(&mut registry, 0x2);
    let first_gen = (first.generation & 0xFFFF) as u16;
    let second_gen = (second.generation & 0xFFFF) as u16;
    registry.push(first.slot, first_gen, 11, 1, true);
    registry.push(second.slot, second_gen, 22, 2, true);
    assert_eq!(registry.pop(first), Some((11, 1)));
    assert_eq!(
        registry.pop(second),
        Some((22, 2)),
        "each slot's FIFO payload is independent in the shared region",
    );
}

#[test]
fn recv_is_live_rejects_other_worker() {
    let mut registry = slab();
    let key = allocate(&mut registry, 0x1);
    let mut foreign = key;
    foreign.worker_id = 4;
    assert!(!registry.is_live(foreign));
}

#[test]
fn cancel_pending_tracks_flag() {
    let mut registry = slab();
    let key = allocate(&mut registry, 0x1);
    let gen_low16 = (key.generation & 0xFFFF) as u16;
    assert!(!registry.is_cancel_pending(key.slot, gen_low16));
    registry.mark_cancel_pending(key);
    assert!(registry.is_cancel_pending(key.slot, gen_low16));
}

#[test]
fn free_by_slot_bumps_generation() {
    let mut registry = slab();
    let key = allocate(&mut registry, 0x1);
    let gen_low16 = (key.generation & 0xFFFF) as u16;
    registry.mark_cancel_pending(key);
    registry.free_by_slot(key.slot, gen_low16);
    assert!(!registry.is_live(key));
    let next = allocate(&mut registry, 0x1);
    assert_eq!(next.slot, key.slot);
    assert_eq!(next.generation, key.generation + 1);
}

#[test]
fn free_by_slot_ignores_stale() {
    let mut registry = slab();
    let key = allocate(&mut registry, 0x1);
    let gen_low16 = (key.generation & 0xFFFF) as u16;
    registry.free_by_slot(key.slot, gen_low16.wrapping_add(1));
    assert!(registry.is_live(key), "a mismatched generation is a no-op");
}

#[test]
fn recv_stale_key_reads_are_inert() {
    let mut registry = slab();
    let key = allocate(&mut registry, 0x1);
    registry.free(key);
    assert!(!registry.is_live(key));
    assert!(!registry.is_terminated(key));
    assert_eq!(registry.pop(key), None);
    assert_eq!(registry.take_terminal(key), None);
}

#[test]
fn slab_fits_stack_budget() {
    assert!(std::mem::size_of::<RecvMultishotSlab>() < 512);
}

#[test]
fn extreme_payloads_round_trip() {
    let mut registry = slab();
    let key = allocate(&mut registry, u64::MAX);
    for (result, buf_id) in [(i32::MIN, 0), (i32::MAX, 0xFFFE), (-1, NO_BUFFER), (0, 1)] {
        registry.push(key.slot, 0, result, buf_id, true);
        assert_eq!(registry.pop(key), Some((result, buf_id)));
    }
    assert_eq!(registry.owner(key.slot, 0), Some(u64::MAX));
}

#[test]
fn a_refused_mapping_leaves_no_recv_registry() {
    let refusals = |storage, metadata| match RecvMultishotSlab::mapped(3, 4, storage, metadata) {
        Ok(_) => None,
        Err(error) => Some(error),
    };
    assert_eq!(refusals(None, None), None);
    assert_eq!(refusals(Some(12), Some(1)), Some(IoError::Os(12)), "the storage comes first");
    assert_eq!(refusals(None, Some(1)), Some(IoError::Os(1)));
}

#[test]
fn the_outcome_of_a_push_is_known_beforehand() {
    let mut registry = slab();
    let key = allocate(&mut registry, 0x1);
    assert_eq!(registry.push_outcome(key.slot, 0, true), RecvMultishotPush::Queued);
    assert_eq!(registry.push_outcome(key.slot, 0, false), RecvMultishotPush::Terminal);
    assert_eq!(registry.push_outcome(key.slot, 1, true), RecvMultishotPush::Stale);
    for _ in 0..MULTISHOT_FIFO_DEPTH {
        registry.push(key.slot, 0, 1, NO_BUFFER, true);
    }
    assert_eq!(registry.push_outcome(key.slot, 0, true), RecvMultishotPush::Overflowed);
    assert_eq!(registry.push_outcome(key.slot, 0, false), RecvMultishotPush::Terminal);
}

#[test]
fn held_buffers_are_compared_with_a_limit() {
    let mut registry = slab();
    let key = allocate(&mut registry, 0x1);
    assert!(registry.holds_only_below(key, 0), "nothing is held yet");
    registry.push(key.slot, 0, 1, NO_BUFFER, true);
    assert!(registry.holds_only_below(key, 0), "no buffer is no id");
    registry.push(key.slot, 0, 1, 7, true);
    assert!(registry.holds_only_below(key, 8));
    assert!(!registry.holds_only_below(key, 7));
    registry.push(key.slot, 0, 1, 9, false);
    assert!(registry.holds_only_below(key, 10), "the final completion counts too");
    assert!(!registry.holds_only_below(key, 9));
    let stale = RecvMultishotSlotKey { generation: key.generation + 1, ..key };
    assert!(registry.holds_only_below(stale, 0));
}
