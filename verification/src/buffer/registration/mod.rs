//! Userspace slot registries for buffers and file descriptors.

use vstd::prelude::*;

use crate::buffer::scan;

pub mod buffers;
pub mod fds;

pub use buffers::RegisteredBuffers;
pub use fds::RegisteredFds;

verus! {

/// The first free slot of a registry, or `None` when every slot is in use.
pub open spec fn first_free(used: Seq<bool>) -> Option<int> {
    scan::first_index(used, |flag: bool| !flag)
}

/// Whether `slot` is in bounds and in use.
pub open spec fn allocated(used: Seq<bool>, slot: int) -> bool {
    0 <= slot < used.len() && used[slot]
}

/// A registry refuses an allocation exactly when every slot is in use, and an
/// allocation claims a slot nobody held, leaving every other slot as it was.
pub proof fn allocation_claims_the_lowest_free_slot(used: Seq<bool>)
    ensures
        first_free(used) is None <==> forall|slot: int|
            0 <= slot < used.len() ==> allocated(used, slot),
        first_free(used) matches Some(slot) ==> {
            &&& 0 <= slot < used.len()
            &&& !allocated(used, slot)
            &&& allocated(used.update(slot, true), slot)
            &&& forall|lower: int| 0 <= lower < slot ==> allocated(used, lower)
            &&& forall|other: int|
                other != slot ==> allocated(used.update(slot, true), other) == allocated(
                    used,
                    other,
                )
        },
{
    scan::first_index_finds(used, |flag: bool| !flag);
    if first_free(used) is None {
        assert forall|slot: int| 0 <= slot < used.len() implies allocated(used, slot) by {
            let flag = used[slot];
        }
    }
    if forall|slot: int| 0 <= slot < used.len() ==> allocated(used, slot) {
        assert forall|slot: int| 0 <= slot < used.len() implies used[slot] by {
            assert(allocated(used, slot));
        }
    }
}

/// Releasing the slot an allocation returned restores the registry, so the slot
/// is handed out again and a second release is refused.
pub proof fn release_undoes_allocation(used: Seq<bool>, slot: int)
    requires
        first_free(used) == Some(slot),
    ensures
        allocated(used.update(slot, true), slot),
        used.update(slot, true).update(slot, false) == used,
        first_free(used.update(slot, true).update(slot, false)) == Some(slot),
        !allocated(used.update(slot, true).update(slot, false), slot),
{
    scan::first_index_finds(used, |flag: bool| !flag);
    assert(used.update(slot, true).update(slot, false) =~= used);
}

} // verus!
