//! Userspace registry for `IORING_REGISTER_BUFFERS` pool slots.
//!
//! Tracks allocation state per slot via an inline bitmap. The registration
//! syscall belongs to the driver; this registry manages only the userspace
//! bookkeeping.

use vstd::prelude::*;

use crate::buffer::bitmap::Bitmap;
use crate::buffer::registration;
use crate::buffer::scan;
use crate::buffer::slot::BufGroupId;
use crate::error::RegisterError;

verus! {

broadcast use crate::buffer::bitmap::lemma_bitmap_len;

/// Maximum registered buffer slots. Covers the `io_uring` kernel limit.
pub const MAX_REGISTERED_BUFFERS: usize = 32768;

const BUFFER_BITMAP_WORDS: usize = 512;

/// Userspace registry for registered buffer pool slots.
///
/// Its view is the allocation flag of each slot, in slot order.
pub struct RegisteredBuffers {
    used: Bitmap<BUFFER_BITMAP_WORDS>,
    capacity: u16,
}

impl View for RegisteredBuffers {
    type V = Seq<bool>;

    closed spec fn view(&self) -> Seq<bool> {
        self.used@.subrange(0, self.capacity as int)
    }
}

impl RegisteredBuffers {
    /// The capacity stays within the bitmap.
    pub closed spec fn wf(&self) -> bool {
        self.capacity <= MAX_REGISTERED_BUFFERS
    }

    /// Creates a registry with `capacity` slots, clamped to
    /// [`MAX_REGISTERED_BUFFERS`], all initially free.
    pub fn new(capacity: u16) -> (registry: Self)
        ensures
            registry.wf(),
            registry@ == Seq::new(
                if capacity as int <= MAX_REGISTERED_BUFFERS {
                    capacity as nat
                } else {
                    MAX_REGISTERED_BUFFERS as nat
                },
                |slot: int| false,
            ),
            !registration::allocated(registry@, 0),
    {
        let cap: u16 = if capacity as usize <= MAX_REGISTERED_BUFFERS {
            capacity
        } else {
            MAX_REGISTERED_BUFFERS as u16
        };
        let registry = RegisteredBuffers { used: Bitmap::new(), capacity: cap };
        assert(registry@ =~= Seq::new(cap as nat, |slot: int| false));
        registry
    }

    /// Allocates the first free slot.
    ///
    /// # Errors
    ///
    /// Returns [`RegisterError::SlotExhausted`] when all slots are in use.
    pub fn allocate(&mut self) -> (outcome: Result<BufGroupId, RegisterError>)
        requires
            old(self).wf(),
        ensures
            final(self).wf(),
            match registration::first_free(old(self)@) {
                Some(slot) => {
                    &&& outcome == Ok::<BufGroupId, RegisterError>(BufGroupId(slot as u16))
                    &&& slot as u16 == slot
                    &&& !registration::allocated(old(self)@, slot)
                    &&& forall|lower: int|
                        #![trigger registration::allocated(old(self)@, lower)]
                        0 <= lower < slot ==> registration::allocated(old(self)@, lower)
                    &&& final(self)@ == old(self)@.update(slot, true)
                },
                None => {
                    &&& outcome == Err::<BufGroupId, RegisterError>(RegisterError::SlotExhausted)
                    &&& final(self)@ == old(self)@
                    &&& forall|slot: int|
                        #![trigger registration::allocated(old(self)@, slot)]
                        0 <= slot < old(self)@.len() ==> registration::allocated(old(self)@, slot)
                },
            },
    {
        match self.used.first_clear(self.capacity as usize) {
            Some(slot) => {
                proof {
                    scan::lemma_first_index_is(self@, |used: bool| !used, slot as int);
                }
                self.used.set(slot);
                assert(self@ =~= old(self)@.update(slot as int, true));
                Ok(BufGroupId(slot as u16))
            },
            None => {
                proof {
                    scan::lemma_first_index_none(self@, |used: bool| !used);
                }
                Err(RegisterError::SlotExhausted)
            },
        }
    }

    /// Releases a previously allocated slot.
    ///
    /// # Errors
    ///
    /// Returns [`RegisterError::InvalidArgument`] if `group` is out of bounds
    /// or was not currently allocated (a logic bug at the call site).
    pub fn release(&mut self, group: BufGroupId) -> (outcome: Result<(), RegisterError>)
        requires
            old(self).wf(),
        ensures
            final(self).wf(),
            if registration::allocated(old(self)@, group.0 as int) {
                &&& outcome == Ok::<(), RegisterError>(())
                &&& final(self)@ == old(self)@.update(group.0 as int, false)
            } else {
                &&& outcome == Err::<(), RegisterError>(RegisterError::InvalidArgument)
                &&& final(self)@ == old(self)@
            },
    {
        if group.0 >= self.capacity {
            return Err(RegisterError::InvalidArgument);
        }
        if !self.used.get(group.0 as usize) {
            return Err(RegisterError::InvalidArgument);
        }
        self.used.clear(group.0 as usize);
        assert(self@ =~= old(self)@.update(group.0 as int, false));
        Ok(())
    }

    /// Returns `true` if the slot is currently allocated.
    pub fn is_allocated(&self, group: BufGroupId) -> (flag: bool)
        requires
            self.wf(),
        ensures
            flag == registration::allocated(self@, group.0 as int),
    {
        if group.0 >= self.capacity {
            return false;
        }
        self.used.get(group.0 as usize)
    }
}

} // verus!
