use kwokka_io::IoError;
use kwokka_io::boundary::ProvidedPoolGuard;
use kwokka_io::boundary::resolve_provided_recv;
use kwokka_io::boundary::seam::pool::{ProvidedPools, provided_pool, provided_pool_epoch};
use kwokka_io::buffer::ring::BufRingPool;
use kwokka_io::buffer::ring::pool::PoolAddrs;
use kwokka_io::buffer::slot::BufGroupId;
use kwokka_io::driver::{Capabilities, DriverType, UringDriver};

fn pooled_driver() -> DriverType {
    let addrs = PoolAddrs { ring: 0x1000, storage: 0x2000 };
    let Ok(pool) = BufRingPool::new(4, 64, BufGroupId::new(0), addrs) else {
        panic!("pool creation must succeed");
    };
    let none = Capabilities { multishot_recv: false, send_zc: false, link_timeout: false };
    DriverType::Uring(UringDriver::new(8, none, Some(pool)))
}

#[test]
fn pool_provided_pool_guard_brackets_install_and_clear() {
    let driver = pooled_driver();
    let mut pools = ProvidedPools::new();
    let before = provided_pool_epoch(&pools, 210);
    {
        let guard = ProvidedPoolGuard::install_pool(&mut pools, 210, driver.provided_recv_pool());
        let epoch = provided_pool_epoch(&pools, 210);
        assert_eq!(epoch, before.wrapping_add(1), "an install bumps the epoch");
        assert!(
            provided_pool(&pools, &driver, 210, epoch).is_some(),
            "the current epoch resolves the installed pool",
        );
        assert!(
            provided_pool(&pools, &driver, 210, epoch.wrapping_sub(1)).is_none(),
            "a stale epoch is refused",
        );
        guard.clear(&mut pools);
    }
    assert!(
        provided_pool(&pools, &driver, 210, provided_pool_epoch(&pools, 210)).is_none(),
        "the guard clears the slot",
    );
}

#[test]
fn boundary_provided_pool_guard_brackets_install_and_clear() {
    let driver = pooled_driver();
    let mut pools = ProvidedPools::new();
    let before = provided_pool_epoch(&pools, 210);
    {
        let guard = ProvidedPoolGuard::install_pool(&mut pools, 210, driver.provided_recv_pool());
        let epoch = provided_pool_epoch(&pools, 210);
        assert_eq!(epoch, before.wrapping_add(1), "an install bumps the epoch");
        assert!(
            provided_pool(&pools, &driver, 210, epoch).is_some(),
            "the current epoch resolves the installed pool",
        );
        assert!(
            provided_pool(&pools, &driver, 210, epoch.wrapping_sub(1)).is_none(),
            "a stale epoch is refused",
        );
        guard.clear(&mut pools);
    }
    assert!(
        provided_pool(&pools, &driver, 210, provided_pool_epoch(&pools, 210)).is_none(),
        "the guard clears the slot",
    );
}

#[test]
fn pool_provided_pool_guard_without_pool_installs_nothing() {
    let driver = DriverType::Epoll(());
    let mut pools = ProvidedPools::new();
    let before = provided_pool_epoch(&pools, 211);
    let _guard = ProvidedPoolGuard::install_pool(&mut pools, 211, None);
    assert_eq!(
        provided_pool_epoch(&pools, 211),
        before,
        "a poolless install does not bump the epoch",
    );
    assert!(provided_pool(&pools, &driver, 211, before).is_none());
}

#[test]
fn boundary_provided_pool_guard_without_pool_installs_nothing() {
    let driver = DriverType::Epoll(());
    let mut pools = ProvidedPools::new();
    let before = provided_pool_epoch(&pools, 211);
    let _guard = ProvidedPoolGuard::install_pool(&mut pools, 211, None);
    assert_eq!(
        provided_pool_epoch(&pools, 211),
        before,
        "a poolless install does not bump the epoch",
    );
    assert!(provided_pool(&pools, &driver, 211, before).is_none());
}

#[test]
fn a_second_install_shuts_out_handles_of_the_first() {
    let driver = pooled_driver();
    let mut pools = ProvidedPools::new();
    let first = ProvidedPoolGuard::install(&mut pools, 7, &driver);
    let old = provided_pool_epoch(&pools, 7);
    first.clear(&mut pools);
    let _second = ProvidedPoolGuard::install(&mut pools, 7, &driver);
    let new = provided_pool_epoch(&pools, 7);
    assert!(provided_pool(&pools, &driver, 7, old).is_none());
    assert!(provided_pool(&pools, &driver, 7, new).is_some());
    assert_eq!(provided_pool_epoch(&pools, 8), 0, "another worker's slot is untouched");
}

#[test]
fn a_received_buffer_resolves_into_its_bytes() {
    let mut driver = pooled_driver();
    let mut pools = ProvidedPools::new();
    let _guard = ProvidedPoolGuard::install(&mut pools, 9, &driver);
    driver.receive(3, b"abc");
    let Ok(view) = resolve_provided_recv(&pools, 9, 3, Some(3)) else {
        panic!("a nonnegative result with a buffer resolves");
    };
    assert_eq!(view.try_as_slice(&pools, &driver), Some(&b"abc"[..]));
}

#[test]
fn end_of_stream_resolves_into_the_empty_view() {
    let pools = ProvidedPools::new();
    let Ok(view) = resolve_provided_recv(&pools, 9, 0, None) else {
        panic!("end of stream resolves");
    };
    assert!(view.is_empty());
    assert_eq!(view.len(), 0);
}

#[test]
fn a_negative_result_resolves_into_its_errno() {
    let pools = ProvidedPools::new();
    let Err(error) = resolve_provided_recv(&pools, 9, -104, Some(1)) else {
        panic!("a negative result is an error");
    };
    assert_eq!(error, IoError::Os(104));
}

#[test]
fn data_without_a_buffer_is_an_error() {
    let pools = ProvidedPools::new();
    let Err(error) = resolve_provided_recv(&pools, 9, 5, None) else {
        panic!("data without a buffer cannot be read");
    };
    assert_eq!(error, IoError::BufferlessData);
}

fn driver_at(addrs: PoolAddrs) -> DriverType {
    let Ok(pool) = BufRingPool::new(4, 64, BufGroupId::new(0), addrs) else {
        panic!("pool creation must succeed");
    };
    let none = Capabilities { multishot_recv: false, send_zc: false, link_timeout: false };
    DriverType::Uring(UringDriver::new(8, none, Some(pool)))
}

fn tail_of(driver: &DriverType) -> u16 {
    let Some(pool) = driver.provided_recv_pool() else {
        panic!("a pool is registered");
    };
    pool.tail()
}

#[test]
fn a_registration_reaches_only_the_pool_it_was_made_for() {
    let mut own = pooled_driver();
    let mut other = driver_at(PoolAddrs { ring: 0x1000, storage: 0x9000 });
    let mut pools = ProvidedPools::new();
    let _guard = ProvidedPoolGuard::install(&mut pools, 5, &own);
    let epoch = provided_pool_epoch(&pools, 5);
    own.receive(1, b"own");
    other.receive(1, b"oth");
    assert!(provided_pool(&pools, &own, 5, epoch).is_some());
    assert!(provided_pool(&pools, &other, 5, epoch).is_none(), "another pool is refused");
    assert!(provided_pool(&pools, &DriverType::Epoll(()), 5, epoch).is_none());
    let Ok(view) = resolve_provided_recv(&pools, 5, 3, Some(1)) else {
        panic!("a nonnegative result with a buffer resolves");
    };
    assert_eq!(view.try_as_slice(&pools, &own), Some(&b"own"[..]));
    assert_eq!(view.try_as_slice(&pools, &other), None, "nor are its bytes read");
    let before = tail_of(&other);
    assert!(view.try_release(&pools, &mut other));
    assert_eq!(tail_of(&other), before, "nor is the buffer given to it");
}

#[test]
fn a_pool_reports_the_addresses_it_was_built_at() {
    let addrs = PoolAddrs { ring: 0x4000, storage: 0x8000 };
    let driver = driver_at(addrs);
    let Some(pool) = driver.provided_recv_pool() else {
        panic!("a pool is registered");
    };
    assert!(pool.addrs() == addrs);
}

#[test]
fn every_worker_has_its_own_registration() {
    let driver = pooled_driver();
    let mut pools = ProvidedPools::new();
    let _first = ProvidedPoolGuard::install(&mut pools, 0, &driver);
    let _last = ProvidedPoolGuard::install(&mut pools, 255, &driver);
    assert_eq!(provided_pool_epoch(&pools, 0), 1);
    assert_eq!(provided_pool_epoch(&pools, 255), 1);
    assert_eq!(provided_pool_epoch(&pools, 254), 0);
}
