use kwokka_io::IoError;
use kwokka_io::buffer::bytes::{
    read_i32, read_u16, read_u32, read_u64, write_i32, write_u16, write_u32, write_u64,
};
use kwokka_io::buffer::mmap::MmapRegion;

#[test]
fn new_allocates_region() {
    let Ok(region) = MmapRegion::new(4096) else {
        panic!("region must be created for 4096 bytes");
    };
    assert_eq!(region.len(), 4096);
    assert!(!region.as_slice().as_ptr().is_null());
}

#[test]
fn new_zero_length_returns_error() {
    let result = MmapRegion::new(0);
    assert!(result.is_err());
    assert!(matches!(result, Err(IoError::ZeroLengthRegion)));
}

#[test]
fn region_is_zero_filled() {
    let Ok(region) = MmapRegion::new(4096) else {
        panic!("region must be created");
    };
    let slice = region.as_slice();
    assert_eq!(slice.len(), 4096);
    assert!(slice.iter().all(|&byte| byte == 0));
}

#[test]
fn drop_does_not_panic() {
    let Ok(region) = MmapRegion::new(4096) else {
        panic!("region must be created");
    };
    drop(region);
}

#[test]
fn mmap_region_is_send_and_sync() {
    fn require_send<T: Send>() {}
    fn require_sync<T: Sync>() {}
    require_send::<MmapRegion>();
    require_sync::<MmapRegion>();
}

#[test]
fn a_copy_touches_only_its_range() {
    let Ok(mut region) = MmapRegion::new(8) else {
        panic!("region must be created");
    };
    region.copy_in(2, &[1, 2, 3]);
    assert_eq!(region.as_slice(), &[0, 0, 1, 2, 3, 0, 0, 0]);
    assert_eq!(region.range(3, 2), &[2, 3]);
    region.set(7, 9);
    assert_eq!(region.get(7), 9);
    assert_eq!(region.as_slice(), &[0, 0, 1, 2, 3, 0, 0, 9]);
}

#[test]
fn integers_are_stored_little_endian_and_read_back() {
    let Ok(mut region) = MmapRegion::new(32) else {
        panic!("region must be created");
    };
    write_u16(&mut region, 1, 0x1234);
    write_u32(&mut region, 4, 0x89AB_CDEF);
    write_u64(&mut region, 8, 0x0123_4567_89AB_CDEF);
    write_i32(&mut region, 20, -2);
    assert_eq!(region.range(0, 8), &[0, 0x34, 0x12, 0, 0xEF, 0xCD, 0xAB, 0x89]);
    assert_eq!(region.range(20, 4), &[0xFE, 0xFF, 0xFF, 0xFF]);
    assert_eq!(read_u16(&region, 1), 0x1234);
    assert_eq!(read_u32(&region, 4), 0x89AB_CDEF);
    assert_eq!(read_u64(&region, 8), 0x0123_4567_89AB_CDEF);
    assert_eq!(read_i32(&region, 20), -2);
}

#[test]
fn a_refused_mapping_is_reported_with_its_errno() {
    let refused = MmapRegion::mapped(4096, Some(libc::ENOMEM));
    assert!(matches!(refused, Err(IoError::Os(code)) if code == libc::ENOMEM));
    let granted = MmapRegion::mapped(4096, None);
    assert!(granted.is_ok_and(|region| region.len() == 4096));
}

#[test]
fn an_empty_region_is_refused_before_the_system_is_asked() {
    let refused = MmapRegion::mapped(0, Some(libc::ENOMEM));
    assert!(matches!(refused, Err(IoError::ZeroLengthRegion)));
}
