use kwokka_io::RegisterError;
use kwokka_io::buffer::bitmap::Bitmap;
use kwokka_io::buffer::registration::{RegisteredBuffers, RegisteredFds};
use kwokka_io::buffer::slot::{BufGroupId, FdSlot};

#[test]
fn buffer_allocate_sequential() {
    let mut reg = RegisteredBuffers::new(4);
    let s0 = reg.allocate().map(|g| g.0);
    let s1 = reg.allocate().map(|g| g.0);
    let s2 = reg.allocate().map(|g| g.0);
    assert_eq!(s0, Ok(0));
    assert_eq!(s1, Ok(1));
    assert_eq!(s2, Ok(2));
}

#[test]
fn buffer_exhausted() {
    let mut reg = RegisteredBuffers::new(2);
    assert!(reg.allocate().is_ok());
    assert!(reg.allocate().is_ok());
    assert_eq!(reg.allocate(), Err(RegisterError::SlotExhausted));
}

#[test]
fn buffer_release_and_reallocate() {
    let mut reg = RegisteredBuffers::new(2);
    let s0 = reg.allocate().map(|g| g.0);
    let s1 = reg.allocate().map(|g| g.0);
    assert_eq!(s0, Ok(0));
    assert_eq!(s1, Ok(1));
    let _ = reg.release(BufGroupId(0));
    let s2 = reg.allocate().map(|g| g.0);
    assert_eq!(s2, Ok(0));
}

#[test]
fn buffer_is_allocated() {
    let mut reg = RegisteredBuffers::new(4);
    let Ok(group) = reg.allocate() else {
        panic!("allocate must succeed");
    };
    assert!(reg.is_allocated(group));
    let _ = reg.release(group);
    assert!(!reg.is_allocated(group));
}

#[test]
fn buffer_is_allocated_out_of_range() {
    let reg = RegisteredBuffers::new(2);
    assert!(!reg.is_allocated(BufGroupId(99)));
}

#[test]
fn buffer_double_release_errors() {
    let mut reg = RegisteredBuffers::new(2);
    let Ok(group) = reg.allocate() else {
        panic!("allocate must succeed");
    };
    assert!(reg.release(group).is_ok());
    assert_eq!(reg.release(group), Err(RegisterError::InvalidArgument));
}

#[test]
fn buffer_release_out_of_bounds_errors() {
    let mut reg = RegisteredBuffers::new(2);
    assert_eq!(reg.release(BufGroupId(10)), Err(RegisterError::InvalidArgument));
}

#[test]
fn buffer_capacity_boundary_partial_word() {
    let mut reg = RegisteredBuffers::new(100);
    for _ in 0..100 {
        assert!(reg.allocate().is_ok());
    }
    assert_eq!(reg.allocate(), Err(RegisterError::SlotExhausted));
}

#[test]
fn buffers_zero_capacity_immediately_exhausted() {
    let mut reg = RegisteredBuffers::new(0);
    assert_eq!(reg.allocate(), Err(RegisterError::SlotExhausted));
}

#[test]
fn fd_allocate_sequential() {
    let mut reg = RegisteredFds::new(4);
    let s0 = reg.allocate().map(|f| f.0);
    let s1 = reg.allocate().map(|f| f.0);
    assert_eq!(s0, Ok(0));
    assert_eq!(s1, Ok(1));
}

#[test]
fn fd_exhausted() {
    let mut reg = RegisteredFds::new(2);
    assert!(reg.allocate().is_ok());
    assert!(reg.allocate().is_ok());
    assert_eq!(reg.allocate(), Err(RegisterError::SlotExhausted));
}

#[test]
fn fd_release_and_reallocate() {
    let mut reg = RegisteredFds::new(2);
    assert!(reg.allocate().is_ok());
    let Ok(fd_slot) = reg.allocate() else {
        panic!("allocate must succeed");
    };
    let _ = reg.release(fd_slot);
    let s2 = reg.allocate().map(|f| f.0);
    assert_eq!(s2, Ok(1));
}

#[test]
fn fd_is_allocated() {
    let mut reg = RegisteredFds::new(4);
    let Ok(fd_slot) = reg.allocate() else {
        panic!("allocate must succeed");
    };
    assert!(reg.is_allocated(fd_slot));
    let _ = reg.release(fd_slot);
    assert!(!reg.is_allocated(fd_slot));
}

#[test]
fn fd_double_release_errors() {
    let mut reg = RegisteredFds::new(2);
    let Ok(fd_slot) = reg.allocate() else {
        panic!("allocate must succeed");
    };
    assert!(reg.release(fd_slot).is_ok());
    assert_eq!(reg.release(fd_slot), Err(RegisterError::InvalidArgument));
}

#[test]
fn fd_release_out_of_bounds_errors() {
    let mut reg = RegisteredFds::new(2);
    assert_eq!(reg.release(FdSlot(10)), Err(RegisterError::InvalidArgument));
}

#[test]
fn fds_zero_capacity_immediately_exhausted() {
    let mut fd_reg = RegisteredFds::new(0);
    assert_eq!(fd_reg.allocate(), Err(RegisterError::SlotExhausted));
}

#[test]
fn a_released_slot_below_the_others_is_taken_first() {
    let mut reg = RegisteredFds::new(8);
    for _ in 0..5 {
        assert!(reg.allocate().is_ok());
    }
    assert_eq!(reg.release(FdSlot(3)), Ok(()));
    assert_eq!(reg.release(FdSlot(1)), Ok(()));
    assert_eq!(reg.allocate(), Ok(FdSlot(1)));
    assert_eq!(reg.allocate(), Ok(FdSlot(3)));
    assert_eq!(reg.allocate(), Ok(FdSlot(5)));
}

#[test]
fn bitmap_bits_are_independent_across_words() {
    let mut map: Bitmap<2> = Bitmap::new();
    map.set(0);
    map.set(63);
    map.set(64);
    assert!(map.get(0) && map.get(63) && map.get(64));
    assert!(!map.get(1) && !map.get(62) && !map.get(65));
    map.clear(63);
    assert!(map.get(0) && !map.get(63) && map.get(64));
    assert_eq!(map.first_clear(128), Some(1));
    assert_eq!(map.next_set(1), Some(64));
    assert_eq!(map.next_set(65), None);
}
