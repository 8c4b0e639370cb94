//! The per-worker provided-buffer pool registry, and reading a completed
//! provided recv back through it.

use vstd::prelude::*;

use crate::buffer::ring::pool::{BufRingPool, PoolAddrs, PoolState};
use crate::buffer::ring::provided::ProvidedBuf;
use crate::driver::DriverType;
use crate::error::IoError;

verus! {

/// One worker's registration.
#[verifier::ext_equal]
pub struct PoolSlot {
    /// Where the installed pool is mapped, which names it; `None` where no pool
    /// is installed.
    pub pool: Option<PoolAddrs>,
    /// Counts the registrations the slot has seen.
    pub epoch: u64,
}

/// The epoch after `epoch`, wrapping at the top of `u64`.
pub open spec fn next_epoch(epoch: u64) -> u64 {
    if epoch == u64::MAX {
        0
    } else {
        (epoch + 1) as u64
    }
}

/// The provided-buffer pool each worker has installed, and the registration
/// epoch of each worker's slot.
///
/// Run-loop scoped: a [`ProvidedBuf`] reads its bytes and recycles its buffer
/// id from arbitrary task code, yet always on the owning worker. Every access
/// re-checks the epoch captured at construction, so a handle outliving its
/// run-loop session can never read through -- or recycle into -- a pool a later
/// registration installed in the same slot. The pool lives in the worker's
/// driver, and a driver with another pool than the installed one is refused.
///
/// Its view is the registrations, indexed by worker id.
pub struct ProvidedPools {
    installed: Vec<Option<PoolAddrs>>,
    epochs: Vec<u64>,
}

impl View for ProvidedPools {
    type V = Seq<PoolSlot>;

    closed spec fn view(&self) -> Seq<PoolSlot> {
        Seq::new(
            256,
            |worker_id: int|
                PoolSlot {
                    pool: self.installed@[worker_id],
                    epoch: self.epochs@[worker_id],
                },
        )
    }
}

impl ProvidedPools {
    /// There is a slot for every worker id.
    pub closed spec fn wf(&self) -> bool {
        self.installed@.len() == 256 && self.epochs@.len() == 256
    }

    /// A registry has a slot for every worker id.
    pub broadcast proof fn lemma_every_worker_has_a_slot(&self)
        requires
            #[trigger] self.wf(),
        ensures
            self@.len() == 256,
    {
    }

    /// Creates a registry with no pool installed.
    pub fn new() -> (pools: Self)
        ensures
            pools.wf(),
            pools@ == Seq::new(256, |worker_id: int| PoolSlot { pool: None, epoch: 0 }),
    {
        let pools = ProvidedPools { installed: vec![None; 256], epochs: vec![0u64; 256] };
        assert(pools@ =~= Seq::new(256, |worker_id: int| PoolSlot { pool: None, epoch: 0 }));
        pools
    }
}

/// Whether a handle that captured `epoch` for `worker_id` may still reach the
/// worker's pool.
pub open spec fn registered(pools: Seq<PoolSlot>, worker_id: u8, epoch: u64) -> bool {
    pools[worker_id as int].pool is Some && pools[worker_id as int].epoch == epoch
}

/// Whether a handle that captured `epoch` for `worker_id` reaches `pool`: it is
/// the pool that worker has installed, and the registration is still the one
/// the handle was made for.
pub open spec fn reaches(
    pools: Seq<PoolSlot>,
    worker_id: u8,
    epoch: u64,
    pool: Option<PoolState>,
) -> bool {
    &&& registered(pools, worker_id, epoch)
    &&& pool matches Some(reached) && pools[worker_id as int].pool == Some(reached.addrs)
}

/// The registrations after `worker_id` installs the pool mapped at `addrs`.
pub open spec fn installed_for(
    pools: Seq<PoolSlot>,
    worker_id: u8,
    addrs: PoolAddrs,
) -> Seq<PoolSlot> {
    pools.update(
        worker_id as int,
        PoolSlot { pool: Some(addrs), epoch: next_epoch(pools[worker_id as int].epoch) },
    )
}

/// The registrations after `worker_id`'s slot is cleared; its epoch stays.
pub open spec fn cleared_for(pools: Seq<PoolSlot>, worker_id: u8) -> Seq<PoolSlot> {
    pools.update(
        worker_id as int,
        PoolSlot { pool: None, epoch: pools[worker_id as int].epoch },
    )
}

/// Bracket that installs a worker's provided-buffer pool for its whole run-loop
/// and clears it at the end.
///
/// Not re-entrant: one run-loop per worker installs one guard.
pub struct ProvidedPoolGuard {
    worker_id: u8,
}

impl ProvidedPoolGuard {
    /// The worker whose slot the guard clears.
    pub closed spec fn worker(&self) -> u8 {
        self.worker_id
    }

    /// Installs the driver's provided-buffer pool for `worker_id` for the
    /// run-loop, returning the guard that clears it.
    ///
    /// A backend without a pool (a fallback driver, or a ring driver whose
    /// registration failed or whose kernel lacks `buf_ring`) installs nothing;
    /// clearing the slot is then a no-op.
    #[must_use]
    pub fn install(pools: &mut ProvidedPools, worker_id: u8, driver: &DriverType) -> (guard: Self)
        requires
            old(pools).wf(),
            driver.wf(),
        ensures
            final(pools).wf(),
            guard.worker() == worker_id,
            final(pools)@.len() == 256,
            final(pools)@ == (match driver@.pool {
                Some(pool) => installed_for(old(pools)@, worker_id, pool.addrs),
                None => old(pools)@,
            }),
    {
        Self::install_pool(pools, worker_id, driver.provided_recv_pool())
    }

    /// Installs `pool` for `worker_id`, bumping the slot's epoch first so a
    /// handle from an earlier session can never match this registration.
    #[must_use]
    pub fn install_pool(
        pools: &mut ProvidedPools,
        worker_id: u8,
        pool: Option<&BufRingPool>,
    ) -> (guard: Self)
        requires
            old(pools).wf(),
        ensures
            final(pools).wf(),
            guard.worker() == worker_id,
            final(pools)@.len() == 256,
            final(pools)@ == (match pool {
                Some(installed) => installed_for(old(pools)@, worker_id, installed@.addrs),
                None => old(pools)@,
            }),
    {
        if let Some(installed) = pool {
            let slot: usize = worker_id as usize;
            pools.epochs[slot] = pools.epochs[slot].wrapping_add(1);
            pools.installed[slot] = Some(installed.addrs());
            assert(pools@ =~= installed_for(old(pools)@, worker_id, installed@.addrs));
        }
        ProvidedPoolGuard { worker_id }
    }

    /// Ends the bracket: the worker's pool can no longer be reached.
    pub fn clear(self, pools: &mut ProvidedPools)
        requires
            old(pools).wf(),
        ensures
            final(pools).wf(),
            final(pools)@.len() == 256,
            final(pools)@ == cleared_for(old(pools)@, self.worker()),
    {
        pools.installed[self.worker_id as usize] = None;
        assert(pools@ =~= cleared_for(old(pools)@, self.worker_id));
    }
}

/// The provided-buffer pool `worker_id` has installed, when `epoch` still names
/// its current registration; `driver` is the worker's, which holds the pool.
///
/// Returns `None` outside a run-loop and on an epoch mismatch (a later
/// registration re-claimed the slot), so a stale handle is refused rather than
/// read through the wrong pool. A driver whose pool is not the installed one is
/// refused likewise.
pub fn provided_pool<'a>(
    pools: &ProvidedPools,
    driver: &'a DriverType,
    worker_id: u8,
    epoch: u64,
) -> (pool: Option<&'a BufRingPool>)
    requires
        pools.wf(),
        driver.wf(),
    ensures
        match pool {
            Some(reached) => {
                &&& registered(pools@, worker_id, epoch)
                &&& reached.wf()
                &&& pools@[worker_id as int].pool == Some(reached@.addrs)
                &&& driver@.pool == Some(reached@)
            },
            None => !reaches(pools@, worker_id, epoch, driver@.pool),
        },
{
    let slot: usize = worker_id as usize;
    let installed: PoolAddrs = match pools.installed[slot] {
        Some(addrs) => addrs,
        None => return None,
    };
    if pools.epochs[slot] != epoch {
        return None;
    }
    match driver.provided_recv_pool() {
        Some(pool) => if pool.addrs() == installed {
            Some(pool)
        } else {
            None
        },
        None => None,
    }
}

/// The current pool-registration epoch for `worker_id`.
///
/// Captured into each [`ProvidedBuf`] at construction; every access re-checks
/// it.
pub fn provided_pool_epoch(pools: &ProvidedPools, worker_id: u8) -> (epoch: u64)
    requires
        pools.wf(),
    ensures
        epoch == pools@[worker_id as int].epoch,
{
    pools.epochs[worker_id as usize]
}

/// What a provided-buffer recv completion resolves into.
pub open spec fn resolved(
    pools: Seq<PoolSlot>,
    worker_id: u8,
    result: i32,
    buf_id: Option<u16>,
) -> Result<ProvidedBuf, IoError> {
    if result < 0 {
        Err(IoError::Os((-result) as i32))
    } else {
        match buf_id {
            Some(id) => Ok(
                ProvidedBuf::spec_new(
                    worker_id,
                    pools[worker_id as int].epoch,
                    id,
                    result as u32,
                ),
            ),
            None => if result == 0 {
                Ok(ProvidedBuf::spec_empty())
            } else {
                Err(IoError::BufferlessData)
            },
        }
    }
}

/// Resolves a provided-buffer recv completion into the buffer view it names.
///
/// `result` is the completion result and `buf_id` the kernel-selected provided
/// buffer. A negative result maps to the corresponding [`IoError`]. A
/// nonnegative result with a buffer resolves into a [`ProvidedBuf`] over the
/// worker pool's bytes. End of stream completes with a zero result and no
/// buffer, resolving into the empty view; data without a buffer id cannot name
/// its bytes and surfaces as [`IoError::BufferlessData`] rather than a panic.
///
/// The single-shot provided recv and the multishot recv stream both resolve
/// their completions through this one path.
///
/// # Errors
///
/// Returns the mapped `-errno` for a negative completion, or
/// [`IoError::BufferlessData`] when a positive result carries no buffer id.
pub fn resolve_provided_recv(
    pools: &ProvidedPools,
    worker_id: u8,
    result: i32,
    buf_id: Option<u16>,
) -> (outcome: Result<ProvidedBuf, IoError>)
    requires
        pools.wf(),
        result > i32::MIN,
    ensures
        outcome == resolved(pools@, worker_id, result, buf_id),
{
    if result < 0 {
        return Err(IoError::Os(-result));
    }
    match buf_id {
        Some(id) => Ok(
            ProvidedBuf::new(worker_id, provided_pool_epoch(pools, worker_id), id, result as u32),
        ),
        None => {
            if result == 0 {
                Ok(ProvidedBuf::empty())
            } else {
                Err(IoError::BufferlessData)
            }
        },
    }
}

/// A later registration, or none, shuts out every handle of an earlier one; a
/// handle made now reaches the pool until the slot is cleared. Other workers'
/// registrations are not touched.
pub proof fn stale_handles_are_shut_out(
    pools: Seq<PoolSlot>,
    worker_id: u8,
    epoch: u64,
    addrs: PoolAddrs,
    other: u8,
)
    requires
        pools.len() == 256,
        registered(pools, worker_id, epoch),
    ensures
        registered(pools, worker_id, pools[worker_id as int].epoch),
        !registered(installed_for(pools, worker_id, addrs), worker_id, epoch),
        registered(installed_for(pools, worker_id, addrs), worker_id, next_epoch(epoch)),
        forall|any: u64| !registered(#[trigger] cleared_for(pools, worker_id), worker_id, any),
        !registered(
            installed_for(cleared_for(pools, worker_id), worker_id, addrs),
            worker_id,
            epoch,
        ),
        other != worker_id ==> installed_for(pools, worker_id, addrs)[other as int]
            == pools[other as int] && cleared_for(pools, worker_id)[other as int]
            == pools[other as int],
{
}

/// A handle reaches the pool its worker installed and no other: right after an
/// install the pool is reached under the new epoch, and whatever a handle ever
/// reaches is mapped where the installed pool is.
pub proof fn handles_reach_only_the_installed_pool(
    pools: Seq<PoolSlot>,
    worker_id: u8,
    epoch: u64,
    installed: PoolState,
    other: PoolState,
)
    requires
        pools.len() == 256,
    ensures
        ({
            let after = installed_for(pools, worker_id, installed.addrs);
            let current = next_epoch(pools[worker_id as int].epoch);
            &&& reaches(after, worker_id, current, Some(installed))
            &&& reaches(after, worker_id, epoch, Some(other)) ==> epoch == current && other.addrs
                == installed.addrs
            &&& !reaches(cleared_for(after, worker_id), worker_id, epoch, Some(other))
        }),
{
}

} // verus!
