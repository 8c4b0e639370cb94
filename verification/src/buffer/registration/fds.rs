//! Userspace registry for `IORING_REGISTER_FILES` descriptor slots.
//!
//! Tracks allocation state per slot via an inline bitmap. The registration
//! syscall belongs to the driver; this registry manages only the userspace
//! bookkeeping.

use vstd::prelude::*;

use crate::buffer::bitmap::Bitmap;
use crate::buffer::registration;
use crate::buffer::scan;
use crate::buffer::slot::FdSlot;
use crate::error::RegisterError;

verus! {

broadcast use crate::buffer::bitmap::lemma_bitmap_len;

/// Maximum registered fd slots.
pub const MAX_REGISTERED_FDS: usize = 65536;

const FD_BITMAP_WORDS: usize = 1024;

/// Userspace registry for registered file-descriptor slots.
///
/// Its view is the allocation flag of each slot, in slot order.
pub struct RegisteredFds {
    used: Bitmap<FD_BITMAP_WORDS>,
    capacity: u32,
}

impl View for RegisteredFds {
    type V = Seq<bool>;

    closed spec fn view(&self) -> Seq<bool> {
        self.used@.subrange(0, self.capacity as int)
    }
}

impl RegisteredFds {
    /// The capacity stays within the bitmap.
    pub closed spec fn wf(&self) -> bool {
        self.capacity <= MAX_REGISTERED_FDS
    }

    /// Creates a registry with `capacity` slots, clamped to
    /// [`MAX_REGISTERED_FDS`], all initially free.
    pub fn new(capacity: u32) -> (registry: Self)
        ensures
            registry.wf(),
            registry@ == Seq::new(
                if capacity as int <= MAX_REGISTERED_FDS {
                    capacity as nat
                } else {
                    MAX_REGISTERED_FDS as nat
                },
                |slot: int| false,
            ),
            !registration::allocated(registry@, 0),
    {
        let cap: u32 = if capacity as usize <= MAX_REGISTERED_FDS {
            capacity
        } else {
            MAX_REGISTERED_FDS as u32
        };
        let registry = RegisteredFds { used: Bitmap::new(), capacity: cap };
        assert(registry@ =~= Seq::new(cap as nat, |slot: int| false));
        registry
    }

    /// Allocates the first free slot.
    ///
    /// # Errors
    ///
    /// Returns [`RegisterError::SlotExhausted`] when all slots are in use.
    pub fn allocate(&mut self) -> (outcome: Result<FdSlot, RegisterError>)
        requires
            old(self).wf(),
        ensures
            final(self).wf(),
            match registration::first_free(old(self)@) {
                Some(slot) => {
                    &&& outcome == Ok::<FdSlot, RegisterError>(FdSlot(slot as u32))
                    &&& slot as u32 == slot
                    &&& !registration::allocated(old(self)@, slot)
                    &&& forall|lower: int|
                        #![trigger registration::allocated(old(self)@, lower)]
                        0 <= lower < slot ==> registration::allocated(old(self)@, lower)
                    &&& final(self)@ == old(self)@.update(slot, true)
                },
                None => {
                    &&& outcome == Err::<FdSlot, RegisterError>(RegisterError::SlotExhausted)
                    &&& final(self)@ == old(self)@
                    &&& forall|slot: int|
                        #![trigger registration::allocated(old(self)@, slot)]
                        0 <= slot < old(self)@.len() ==> registration::allocated(old(self)@, slot)
                },
            },
    {
        match self.used.first_clear(self.capacity as usize) {
            Some(slot) => {
                proof {
                    scan::lemma_first_index_is(self@, |used: bool| !used, slot as int);
                }
                self.used.set(slot);
                assert(self@ =~= old(self)@.update(slot as int, true));
                Ok(FdSlot(slot as u32))
            },
            None => {
                proof {
                    scan::lemma_first_index_none(self@, |used: bool| !used);
                }
                Err(RegisterError::SlotExhausted)
            },
        }
    }

    /// Releases a previously allocated slot.
    ///
    /// # Errors
    ///
    /// Returns [`RegisterError::InvalidArgument`] if `fd_slot` is out of bounds
    /// or was not currently allocated (a logic bug at the call site).
    pub fn release(&mut self, fd_slot: FdSlot) -> (outcome: Result<(), RegisterError>)
        requires
            old(self).wf(),
        ensures
            final(self).wf(),
            if registration::allocated(old(self)@, fd_slot.0 as int) {
                &&& outcome == Ok::<(), RegisterError>(())
                &&& final(self)@ == old(self)@.update(fd_slot.0 as int, false)
            } else {
                &&& outcome == Err::<(), RegisterError>(RegisterError::InvalidArgument)
                &&& final(self)@ == old(self)@
            },
    {
        if fd_slot.0 >= self.capacity {
            return Err(RegisterError::InvalidArgument);
        }
        if !self.used.get(fd_slot.0 as usize) {
            return Err(RegisterError::InvalidArgument);
        }
        self.used.clear(fd_slot.0 as usize);
        assert(self@ =~= old(self)@.update(fd_slot.0 as int, false));
        Ok(())
    }

    /// Returns `true` if the slot is currently allocated.
    pub fn is_allocated(&self, fd_slot: FdSlot) -> (flag: bool)
        requires
            self.wf(),
        ensures
            flag == registration::allocated(self@, fd_slot.0 as int),
    {
        if fd_slot.0 >= self.capacity {
            return false;
        }
        self.used.get(fd_slot.0 as usize)
    }
}

} // verus!
