//! View over one kernel-selected provided buffer.
//!
//! A completed provided-buffer recv resolves into a [`ProvidedBuf`]: the pool
//! owns the bytes, the handle owns the buffer id, and releasing the handle
//! recycles the id back to the ring.

use vstd::prelude::*;

use crate::boundary::seam::pool;
use crate::boundary::seam::pool::{PoolSlot, ProvidedPools, provided_pool};
use crate::driver::{DriverState, DriverType};

verus! {

/// A claim on one kernel-selected provided buffer.
///
/// The worker's provided-buffer pool owns the bytes, and the handle is the
/// exclusive claim on the buffer id the kernel picked, so nothing writes the
/// region while the handle is alive. Releasing it recycles the id back to the
/// ring, making the buffer kernel-selectable again -- consume the bytes first.
///
/// A handle carried outside its originating runtime run is refused: it cannot
/// read through a pool that is no longer registered, and releasing it skips the
/// recycle -- a bounded loss of one pool entry.
#[derive(Debug)]
pub struct ProvidedBuf {
    /// Kernel-selected buffer id, or `None` for the empty end-of-stream view.
    buf_id: Option<u16>,
    /// Kernel-confirmed byte count, at most the pool's per-buffer size.
    len: u32,
    /// Worker whose pool owns the bytes -- the run-loop registry key.
    worker_id: u8,
    /// Pool-registration epoch captured at construction; access through a slot
    /// a later registration re-claimed is refused on mismatch.
    epoch: u64,
}

impl ProvidedBuf {
    /// The handle on the buffer `buf_id` holding `len` received bytes.
    pub closed spec fn spec_new(worker_id: u8, epoch: u64, buf_id: u16, len: u32) -> ProvidedBuf {
        ProvidedBuf { buf_id: Some(buf_id), len, worker_id, epoch }
    }

    /// The empty view.
    pub closed spec fn spec_empty() -> ProvidedBuf {
        ProvidedBuf { buf_id: None, len: 0, worker_id: 0, epoch: 0 }
    }

    /// The buffer the handle claims.
    pub closed spec fn claimed(&self) -> Option<u16> {
        self.buf_id
    }

    /// How many bytes the kernel confirmed.
    pub closed spec fn spec_len(&self) -> u32 {
        self.len
    }

    /// Whether the pool of `driver` is the one the handle was made for, and is
    /// still registered.
    pub closed spec fn reaches(&self, pools: Seq<PoolSlot>, driver: DriverState) -> bool {
        pool::reaches(pools, self.worker_id, self.epoch, driver.pool)
    }

    /// What the two kinds of handle claim, and what a handle reaches.
    pub proof fn handle_claims(
        worker_id: u8,
        epoch: u64,
        buf_id: u16,
        len: u32,
        pools: Seq<PoolSlot>,
        driver: DriverState,
    )
        ensures
            Self::spec_new(worker_id, epoch, buf_id, len).claimed() == Some(buf_id),
            Self::spec_new(worker_id, epoch, buf_id, len).spec_len() == len,
            Self::spec_new(worker_id, epoch, buf_id, len).reaches(pools, driver) == pool::reaches(
                pools,
                worker_id,
                epoch,
                driver.pool,
            ),
            Self::spec_empty().claimed() is None,
            Self::spec_empty().spec_len() == 0,
    {
    }

    /// Whether the bytes can be read: the handle is empty, or it reaches its pool
    /// and the completion named a buffer and a length within it.
    pub open spec fn readable(&self, pools: Seq<PoolSlot>, driver: DriverState) -> bool {
        self.claimed() matches Some(id) ==> {
            &&& self.reaches(pools, driver)
            &&& driver.pool matches Some(pool) && id < pool.entries() && self.spec_len()
                <= pool.buf_size
        }
    }

    /// The bytes the handle gives access to.
    pub open spec fn contents(&self, driver: DriverState) -> Seq<u8> {
        match self.claimed() {
            Some(id) => driver.pool->0.bytes_of(id as int).take(self.spec_len() as int),
            None => Seq::empty(),
        }
    }

    /// The backend after the handle is released: its buffer is given back,
    /// unless it claims none or does not reach its pool.
    pub open spec fn released(&self, pools: Seq<PoolSlot>, driver: DriverState) -> DriverState {
        match self.claimed() {
            Some(id) => if self.reaches(pools, driver) {
                driver.recycled(id)
            } else {
                driver
            },
            None => driver,
        }
    }

    /// Wraps the kernel-selected buffer `buf_id` holding `len` received bytes.
    pub fn new(worker_id: u8, epoch: u64, buf_id: u16, len: u32) -> (buf: Self)
        ensures
            buf == Self::spec_new(worker_id, epoch, buf_id, len),
    {
        ProvidedBuf { buf_id: Some(buf_id), len, worker_id, epoch }
    }

    /// The empty view an end-of-stream completion resolves into when the kernel
    /// consumed no buffer.
    pub fn empty() -> (buf: Self)
        ensures
            buf == Self::spec_empty(),
    {
        ProvidedBuf { buf_id: None, len: 0, worker_id: 0, epoch: 0 }
    }

    /// How many bytes the kernel confirmed.
    pub fn len(&self) -> (len: usize)
        ensures
            len == self.spec_len(),
    {
        self.len as usize
    }

    /// Whether the kernel confirmed no bytes.
    pub fn is_empty(&self) -> (flag: bool)
        ensures
            flag == (self.spec_len() == 0),
    {
        self.len == 0
    }

    /// Borrows the received bytes.
    ///
    /// The handle must be readable: its pool is still registered for its
    /// worker, and the completion named a buffer id and a length within the
    /// pool.
    pub fn as_slice<'a>(&self, pools: &ProvidedPools, driver: &'a DriverType) -> (slice: &'a [u8])
        requires
            pools.wf(),
            driver.wf(),
            self.readable(pools@, driver@),
        ensures
            slice@ == self.contents(driver@),
    {
        let id: u16 = match self.buf_id {
            Some(id) => id,
            None => {
                let slice: &[u8] = &[];
                assert(slice@ =~= Seq::<u8>::empty());
                return slice;
            },
        };
        match provided_pool(pools, driver, self.worker_id, self.epoch) {
            Some(pool) => pool.get(id, self.len),
            None => {
                let slice: &[u8] = &[];
                slice
            },
        }
    }

    /// Borrows the received bytes, or `None` where they cannot be read: the
    /// handle outlived its run, or the completion named a buffer id or a length
    /// outside the pool.
    pub fn try_as_slice<'a>(&self, pools: &ProvidedPools, driver: &'a DriverType) -> (slice: Option<
        &'a [u8],
    >)
        requires
            pools.wf(),
            driver.wf(),
        ensures
            match slice {
                Some(bytes) => self.readable(pools@, driver@) && bytes@ == self.contents(driver@),
                None => !self.readable(pools@, driver@),
            },
    {
        if let Some(id) = self.buf_id {
            match provided_pool(pools, driver, self.worker_id, self.epoch) {
                Some(pool) => {
                    if id >= pool.entries() || self.len > pool.buf_size() {
                        return None;
                    }
                },
                None => return None,
            }
        }
        Some(self.as_slice(pools, driver))
    }

    /// Ends the claim, recycling the buffer id back to the ring.
    ///
    /// The run-loop exited or a later registration owns the slot: the pool
    /// unmaps with the id checked out -- a bounded loss of one entry, never a
    /// push into a reclaimed ring. An id the pool does not have must not be
    /// recycled.
    pub fn release(self, pools: &ProvidedPools, driver: &mut DriverType)
        requires
            pools.wf(),
            old(driver).wf(),
            self.claimed() matches Some(id) ==> (self.reaches(pools@, old(driver)@) ==> old(
                driver,
            )@.takes_back(id)),
        ensures
            final(driver).wf(),
            final(driver)@ == self.released(pools@, old(driver)@),
    {
        let id: u16 = match self.buf_id {
            Some(id) => id,
            None => return,
        };
        if provided_pool(pools, driver, self.worker_id, self.epoch).is_none() {
            return;
        }
        driver.recycle(id);
    }

    /// Ends the claim as [`release`](Self::release) does, reporting whether the
    /// buffer id could be recycled.
    ///
    /// A handle that reaches its pool with an id the pool does not have is
    /// refused with `false`, and the pool is left as it is.
    pub fn try_release(self, pools: &ProvidedPools, driver: &mut DriverType) -> (released: bool)
        requires
            pools.wf(),
            old(driver).wf(),
        ensures
            final(driver).wf(),
            released == (self.claimed() matches Some(id) ==> (self.reaches(pools@, old(driver)@)
                ==> old(driver)@.takes_back(id))),
            final(driver)@ == (if released {
                self.released(pools@, old(driver)@)
            } else {
                old(driver)@
            }),
    {
        if let Some(id) = self.buf_id {
            if provided_pool(pools, driver, self.worker_id, self.epoch).is_some()
                && !driver.can_recycle(id) {
                return false;
            }
        }
        self.release(pools, driver);
        true
    }
}

} // verus!
