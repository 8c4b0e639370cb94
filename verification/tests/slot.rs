use std::collections::hash_map::DefaultHasher;
use std::hash::{Hash, Hasher};

use kwokka_io::buffer::slot::{BufGroupId, FdSlot};

fn hash_of<T: Hash>(value: T) -> u64 {
    let mut hasher = DefaultHasher::new();
    value.hash(&mut hasher);
    hasher.finish()
}

#[test]
fn buf_group_id_round_trip() {
    assert_eq!(BufGroupId::new(0).raw(), 0);
    assert_eq!(BufGroupId::new(u16::MAX).raw(), u16::MAX);
}

#[test]
fn buf_group_id_partial_eq() {
    assert_eq!(BufGroupId::new(7), BufGroupId::new(7));
    assert_ne!(BufGroupId::new(7), BufGroupId::new(8));
}

#[test]
fn buf_group_id_hash_eq() {
    assert_eq!(hash_of(BufGroupId::new(7)), hash_of(BufGroupId::new(7)));
}

#[test]
fn fd_slot_round_trip() {
    assert_eq!(FdSlot::new(0).raw(), 0);
    assert_eq!(FdSlot::new(u32::MAX).raw(), u32::MAX);
}

#[test]
fn fd_slot_partial_eq() {
    assert_eq!(FdSlot::new(42), FdSlot::new(42));
    assert_ne!(FdSlot::new(42), FdSlot::new(43));
}

#[test]
fn fd_slot_hash_eq() {
    assert_eq!(hash_of(FdSlot::new(42)), hash_of(FdSlot::new(42)));
}
