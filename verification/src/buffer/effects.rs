//! What each call on the byte regions, the bitmaps and the registration tables
//! does, byte by byte and slot by slot.

use vstd::prelude::*;

use crate::buffer::bitmap::Bitmap;
use crate::buffer::bytes::{
    read_i32, read_u16, read_u32, read_u64, write_i32, write_u16, write_u32, write_u64,
};
use crate::buffer::mmap::MmapRegion;
use crate::buffer::registration;
use crate::buffer::registration::{RegisteredBuffers, RegisteredFds};
use crate::buffer::slot::{BufGroupId, FdSlot};
use crate::error::{IoError, RegisterError};

verus! {

/// A region is refused for having no bytes, then for memory the system did not
/// grant; otherwise it is as long as asked for and holds zeros.
pub proof fn a_region_starts_zeroed(
    len: usize,
    refused: Option<i32>,
    outcome: Result<MmapRegion, IoError>,
)
    requires
        call_ensures(MmapRegion::mapped, (len, refused), outcome) || (refused is None
            && call_ensures(MmapRegion::new, (len,), outcome)),
    ensures
        len == 0 ==> outcome == Err::<MmapRegion, IoError>(IoError::ZeroLengthRegion),
        len > 0 ==> (refused matches Some(errno) ==> outcome == Err::<MmapRegion, IoError>(
            IoError::Os(errno),
        )),
        len > 0 && refused is None ==> (outcome matches Ok(region) && region@.len() == len
            && forall|at: int| 0 <= at < len ==> #[trigger] region@[at] == 0),
{
}

/// A region reads back the bytes it holds, wherever and however much is read.
pub proof fn a_region_reads_its_own_bytes(
    region: MmapRegion,
    at: usize,
    len: usize,
    total: usize,
    whole: &[u8],
    slice: &[u8],
    byte: u8,
)
    requires
        at + len <= region@.len(),
        at < region@.len(),
        call_ensures(MmapRegion::len, (&region,), total),
        call_ensures(MmapRegion::as_slice, (&region,), whole),
        call_ensures(MmapRegion::range, (&region, at, len), slice),
        call_ensures(MmapRegion::get, (&region, at), byte),
    ensures
        total == region@.len(),
        whole@ == region@,
        slice@.len() == len,
        forall|place: int| 0 <= place < len ==> #[trigger] slice@[place] == region@[at + place],
        byte == region@[at as int],
{
}

/// A write changes exactly the bytes it covers.
pub proof fn a_region_changes_only_where_written(
    setting: &mut MmapRegion,
    copying: &mut MmapRegion,
    at: usize,
    byte: u8,
    src: &[u8],
)
    requires
        at < old(setting)@.len(),
        at + src@.len() <= old(copying)@.len(),
        call_ensures(MmapRegion::set, (setting, at, byte), ()),
        call_ensures(MmapRegion::copy_in, (copying, at, src), ()),
    ensures
        final(setting)@.len() == old(setting)@.len(),
        forall|place: int|
            0 <= place < old(setting)@.len() ==> #[trigger] final(setting)@[place] == (if place
                == at {
                byte
            } else {
                old(setting)@[place]
            }),
        final(copying)@.len() == old(copying)@.len(),
        forall|place: int|
            0 <= place < old(copying)@.len() ==> #[trigger] final(copying)@[place] == (if at
                <= place < at + src@.len() {
                src@[place - at]
            } else {
                old(copying)@[place]
            }),
{
}

/// Writing a `u16` that fits puts its 2 bytes there, lowest first, and changes
/// no other; one that does not fit changes nothing. Reading it gives it back, and
/// gives zero where it does not fit.
pub proof fn a_u16_is_stored_lowest_byte_first(
    region: &mut MmapRegion,
    offset: usize,
    value: u16,
    read: u16,
    reread: u16,
)
    requires
        call_ensures(write_u16, (region, offset, value), ()),
        call_ensures(read_u16, (&*old(region), offset), read),
        call_ensures(read_u16, (&*final(region), offset), reread),
    ensures
        ({
            let at = offset as int;
            let before = old(region)@;
            let after = final(region)@;
            let fits = offset + 2 <= before.len();
            &&& !fits ==> after == before && read == 0 && reread == 0
            &&& fits ==> {
                &&& value == after[at] + 0x100 * (after[at + 1])
                &&& read == before[at] + 0x100 * (before[at + 1])
                &&& reread == value
                &&& after.len() == before.len()
                &&& forall|place: int|
                    0 <= place < before.len() && !(at <= place < at + 2)
                        ==> #[trigger] after[place] == before[place]
            }
        }),
{
}

/// Writing a `u32` that fits puts its 4 bytes there, lowest first, and changes
/// no other; one that does not fit changes nothing. Reading it gives it back, and
/// gives zero where it does not fit.
pub proof fn a_u32_is_stored_lowest_byte_first(
    region: &mut MmapRegion,
    offset: usize,
    value: u32,
    read: u32,
    reread: u32,
)
    requires
        call_ensures(write_u32, (region, offset, value), ()),
        call_ensures(read_u32, (&*old(region), offset), read),
        call_ensures(read_u32, (&*final(region), offset), reread),
    ensures
        ({
            let at = offset as int;
            let before = old(region)@;
            let after = final(region)@;
            let fits = offset + 4 <= before.len();
            &&& !fits ==> after == before && read == 0 && reread == 0
            &&& fits ==> {
                &&& value == after[at] + 0x100 * (after[at + 1] + 0x100 * (after[at + 2] + 0x100 * (after[at + 3])))
                &&& read == before[at] + 0x100 * (before[at + 1] + 0x100 * (before[at + 2] + 0x100 * (before[at + 3])))
                &&& reread == value
                &&& after.len() == before.len()
                &&& forall|place: int|
                    0 <= place < before.len() && !(at <= place < at + 4)
                        ==> #[trigger] after[place] == before[place]
            }
        }),
{
}

/// Writing a `u64` that fits puts its 8 bytes there, lowest first, and changes
/// no other; one that does not fit changes nothing. Reading it gives it back, and
/// gives zero where it does not fit.
pub proof fn a_u64_is_stored_lowest_byte_first(
    region: &mut MmapRegion,
    offset: usize,
    value: u64,
    read: u64,
    reread: u64,
)
    requires
        call_ensures(write_u64, (region, offset, value), ()),
        call_ensures(read_u64, (&*old(region), offset), read),
        call_ensures(read_u64, (&*final(region), offset), reread),
    ensures
        ({
            let at = offset as int;
            let before = old(region)@;
            let after = final(region)@;
            let fits = offset + 8 <= before.len();
            &&& !fits ==> after == before && read == 0 && reread == 0
            &&& fits ==> {
                &&& value == after[at] + 0x100 * (after[at + 1] + 0x100 * (after[at + 2] + 0x100 * (after[at + 3] + 0x100 * (after[at + 4] + 0x100 * (after[at + 5] + 0x100 * (after[at + 6] + 0x100 * (after[at + 7])))))))
                &&& read == before[at] + 0x100 * (before[at + 1] + 0x100 * (before[at + 2] + 0x100 * (before[at + 3] + 0x100 * (before[at + 4] + 0x100 * (before[at + 5] + 0x100 * (before[at + 6] + 0x100 * (before[at + 7])))))))
                &&& reread == value
                &&& after.len() == before.len()
                &&& forall|place: int|
                    0 <= place < before.len() && !(at <= place < at + 8)
                        ==> #[trigger] after[place] == before[place]
            }
        }),
{
}

/// Writing a `i32` that fits puts its 4 bytes there, lowest first, and changes
/// no other; one that does not fit changes nothing. Reading it gives it back, and
/// gives zero where it does not fit.
pub proof fn a_i32_is_stored_lowest_byte_first(
    region: &mut MmapRegion,
    offset: usize,
    value: i32,
    read: i32,
    reread: i32,
)
    requires
        call_ensures(write_i32, (region, offset, value), ()),
        call_ensures(read_i32, (&*old(region), offset), read),
        call_ensures(read_i32, (&*final(region), offset), reread),
    ensures
        ({
            let at = offset as int;
            let before = old(region)@;
            let after = final(region)@;
            let fits = offset + 4 <= before.len();
            &&& !fits ==> after == before && read == 0 && reread == 0
            &&& fits ==> {
                &&& (if value >= 0 {
                value as int
            } else {
                value + 0x1_0000_0000
            }) == after[at] + 0x100 * (after[at + 1] + 0x100 * (after[at + 2] + 0x100 * (after[at + 3])))
                &&& (if read >= 0 {
                read as int
            } else {
                read + 0x1_0000_0000
            }) == before[at] + 0x100 * (before[at + 1] + 0x100 * (before[at + 2] + 0x100 * (before[at + 3])))
                &&& reread == value
                &&& after.len() == before.len()
                &&& forall|place: int|
                    0 <= place < before.len() && !(at <= place < at + 4)
                        ==> #[trigger] after[place] == before[place]
            }
        }),
{
}

/// A bitmap starts clear, and setting or clearing a flag changes that flag alone.
pub proof fn a_flag_changes_alone<const W: usize>(
    fresh: Bitmap<W>,
    setting: &mut Bitmap<W>,
    clearing: &mut Bitmap<W>,
    slot: usize,
    read: bool,
    other: int,
)
    requires
        call_ensures(Bitmap::<W>::new, (), fresh),
        slot < old(setting)@.len(),
        call_ensures(Bitmap::<W>::set, (setting, slot), ()),
        slot < old(clearing)@.len(),
        call_ensures(Bitmap::<W>::clear, (clearing, slot), ()),
        call_ensures(Bitmap::<W>::get, (&*old(setting), slot), read),
        0 <= other < W * 64,
    ensures
        fresh@.len() == W * 64 && !fresh@[other],
        read == old(setting)@[slot as int],
        final(setting)@[slot as int],
        other != slot ==> final(setting)@[other] == old(setting)@[other],
        !final(clearing)@[slot as int],
        other != slot ==> final(clearing)@[other] == old(clearing)@[other],
{
    broadcast use crate::buffer::bitmap::lemma_bitmap_len;

}

/// A search finds the lowest flag of its kind in its range, or none when there
/// is none.
pub proof fn a_search_finds_the_lowest<const W: usize>(
    bitmap: Bitmap<W>,
    limit: usize,
    clear: Option<usize>,
    from: usize,
    set: Option<usize>,
    at: int,
)
    requires
        limit <= bitmap@.len(),
        call_ensures(Bitmap::<W>::first_clear, (&bitmap, limit), clear),
        from <= bitmap@.len() <= usize::MAX,
        call_ensures(Bitmap::<W>::next_set, (&bitmap, from), set),
    ensures
        clear matches Some(slot) ==> slot < limit && !bitmap@[slot as int],
        0 <= at < limit && !bitmap@[at] ==> (clear matches Some(slot) && slot <= at),
        set matches Some(slot) ==> from <= slot < bitmap@.len() && bitmap@[slot as int],
        from <= at < bitmap@.len() && bitmap@[at] ==> (set matches Some(slot) && slot <= at),
{
}

/// A buffer registration takes the lowest slot that is free, until its release
/// frees that slot again; a full table and a slot that is not taken are refused
/// with nothing changed.
pub proof fn a_buffer_registration_takes_the_lowest_free_slot(
    capacity: u16,
    fresh: RegisteredBuffers,
    taking: &mut RegisteredBuffers,
    taken: Result<BufGroupId, RegisterError>,
    freeing: &mut RegisteredBuffers,
    id: BufGroupId,
    freed: Result<(), RegisterError>,
    flag: bool,
    index: int,
    other: int,
)
    requires
        call_ensures(RegisteredBuffers::new, (capacity,), fresh),
        old(taking).wf(),
        call_ensures(RegisteredBuffers::allocate, (taking,), taken),
        old(freeing).wf(),
        call_ensures(RegisteredBuffers::release, (freeing, id), freed),
        call_ensures(RegisteredBuffers::is_allocated, (&*old(freeing), id), flag),
    ensures
        fresh.wf(),
        capacity <= 32768 ==> fresh@.len() == capacity,
        capacity > 32768 ==> fresh@.len() == 32768,
        0 <= other < fresh@.len() ==> !fresh@[other],
        final(taking).wf() && final(freeing).wf(),
        (forall|slot: int| 0 <= slot < old(taking)@.len() ==> #[trigger] old(taking)@[slot])
            ==> taken == Err::<BufGroupId, RegisterError>(RegisterError::SlotExhausted)
            && final(taking)@ == old(taking)@,
        0 <= index < old(taking)@.len() && !old(taking)@[index] && (forall|lower: int|
            0 <= lower < index ==> #[trigger] old(taking)@[lower]) ==> {
            &&& taken matches Ok(claimed) && claimed.0 == index
            &&& final(taking)@.len() == old(taking)@.len()
            &&& final(taking)@[index]
            &&& 0 <= other < old(taking)@.len() && other != index ==> final(taking)@[other] == old(
                taking,
            )@[other]
        },
        flag <==> id.0 < old(freeing)@.len() && old(freeing)@[id.0 as int],
        !flag ==> freed == Err::<(), RegisterError>(RegisterError::InvalidArgument)
            && final(freeing)@ == old(freeing)@,
        flag ==> {
            &&& freed == Ok::<(), RegisterError>(())
            &&& final(freeing)@.len() == old(freeing)@.len()
            &&& !final(freeing)@[id.0 as int]
            &&& 0 <= other < old(freeing)@.len() && other != id.0 ==> final(freeing)@[other] == old(
                freeing,
            )@[other]
        },
{
    let used = old(taking)@;
    registration::allocation_claims_the_lowest_free_slot(used);
    assert forall|slot: int| 0 <= slot < used.len() implies registration::allocated(used, slot)
        == #[trigger] used[slot] by {}
    if let Some(slot) = registration::first_free(used) {
        assert(!registration::allocated(used, slot));
        if 0 <= index < used.len() && !used[index] && (forall|lower: int|
            0 <= lower < index ==> #[trigger] used[lower]) {
            assert(!registration::allocated(used, index));
            if slot < index {
                assert(used[slot]);
            }
            if index < slot {
                assert(registration::allocated(used, index));
            }
        }
    } else if 0 <= index < used.len() {
        assert(registration::allocated(used, index));
    }
}

/// A descriptor registration takes the lowest slot that is free, until its release
/// frees that slot again; a full table and a slot that is not taken are refused
/// with nothing changed.
pub proof fn a_descriptor_registration_takes_the_lowest_free_slot(
    capacity: u32,
    fresh: RegisteredFds,
    taking: &mut RegisteredFds,
    taken: Result<FdSlot, RegisterError>,
    freeing: &mut RegisteredFds,
    id: FdSlot,
    freed: Result<(), RegisterError>,
    flag: bool,
    index: int,
    other: int,
)
    requires
        call_ensures(RegisteredFds::new, (capacity,), fresh),
        old(taking).wf(),
        call_ensures(RegisteredFds::allocate, (taking,), taken),
        old(freeing).wf(),
        call_ensures(RegisteredFds::release, (freeing, id), freed),
        call_ensures(RegisteredFds::is_allocated, (&*old(freeing), id), flag),
    ensures
        fresh.wf(),
        capacity <= 65536 ==> fresh@.len() == capacity,
        capacity > 65536 ==> fresh@.len() == 65536,
        0 <= other < fresh@.len() ==> !fresh@[other],
        final(taking).wf() && final(freeing).wf(),
        (forall|slot: int| 0 <= slot < old(taking)@.len() ==> #[trigger] old(taking)@[slot])
            ==> taken == Err::<FdSlot, RegisterError>(RegisterError::SlotExhausted)
            && final(taking)@ == old(taking)@,
        0 <= index < old(taking)@.len() && !old(taking)@[index] && (forall|lower: int|
            0 <= lower < index ==> #[trigger] old(taking)@[lower]) ==> {
            &&& taken matches Ok(claimed) && claimed.0 == index
            &&& final(taking)@.len() == old(taking)@.len()
            &&& final(taking)@[index]
            &&& 0 <= other < old(taking)@.len() && other != index ==> final(taking)@[other] == old(
                taking,
            )@[other]
        },
        flag <==> id.0 < old(freeing)@.len() && old(freeing)@[id.0 as int],
        !flag ==> freed == Err::<(), RegisterError>(RegisterError::InvalidArgument)
            && final(freeing)@ == old(freeing)@,
        flag ==> {
            &&& freed == Ok::<(), RegisterError>(())
            &&& final(freeing)@.len() == old(freeing)@.len()
            &&& !final(freeing)@[id.0 as int]
            &&& 0 <= other < old(freeing)@.len() && other != id.0 ==> final(freeing)@[other] == old(
                freeing,
            )@[other]
        },
{
    let used = old(taking)@;
    registration::allocation_claims_the_lowest_free_slot(used);
    assert forall|slot: int| 0 <= slot < used.len() implies registration::allocated(used, slot)
        == #[trigger] used[slot] by {}
    if let Some(slot) = registration::first_free(used) {
        assert(!registration::allocated(used, slot));
        if 0 <= index < used.len() && !used[index] && (forall|lower: int|
            0 <= lower < index ==> #[trigger] used[lower]) {
            assert(!registration::allocated(used, index));
            if slot < index {
                assert(used[slot]);
            }
            if index < slot {
                assert(registration::allocated(used, index));
            }
        }
    } else if 0 <= index < used.len() {
        assert(registration::allocated(used, index));
    }
}

/// A buffer group and a descriptor slot read back the number they were made
/// from.
pub proof fn an_identifier_reads_back_its_number(
    group_number: u16,
    group: BufGroupId,
    group_raw: u16,
    fd_number: u32,
    fd_slot: FdSlot,
    fd_raw: u32,
)
    requires
        call_ensures(BufGroupId::new, (group_number,), group),
        call_ensures(BufGroupId::raw, (group,), group_raw),
        call_ensures(FdSlot::new, (fd_number,), fd_slot),
        call_ensures(FdSlot::raw, (fd_slot,), fd_raw),
    ensures
        group_raw == group_number && group.0 == group_number,
        fd_raw == fd_number && fd_slot.0 == fd_number,
{
}

} // verus!
