//! Buffer group and fd slot identifier types.

use vstd::prelude::*;

verus! {

/// Group ID for a registered buffer pool.
///
/// Placed in the SQE `buf_group` field for provided-buffer ops. Valid until the
/// group is unregistered.
#[derive(Debug, Clone, Copy, PartialEq, Eq, Hash, Structural)]
pub struct BufGroupId(pub u16);

/// Slot index in the registered file-descriptor table.
///
/// Used with `IOSQE_FIXED_FILE` to reference a pre-registered fd without a
/// per-submission table lookup. Valid until the slot is unregistered.
#[derive(Debug, Clone, Copy, PartialEq, Eq, Hash, Structural)]
pub struct FdSlot(pub u32);

impl BufGroupId {
    /// Names the group `slot`.
    pub fn new(slot: u16) -> (group: Self)
        ensures
            group == BufGroupId(slot),
    {
        BufGroupId(slot)
    }

    /// The raw group number.
    pub fn raw(self) -> (slot: u16)
        ensures
            slot == self.0,
    {
        self.0
    }
}

impl FdSlot {
    /// Names the table entry `slot`.
    pub fn new(slot: u32) -> (fd_slot: Self)
        ensures
            fd_slot == FdSlot(slot),
    {
        FdSlot(slot)
    }

    /// The raw table index.
    pub fn raw(self) -> (slot: u32)
        ensures
            slot == self.0,
    {
        self.0
    }
}

} // verus!
