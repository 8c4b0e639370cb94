//! What each call of the seam does, in terms of what goes in and what comes
//! out.

use vstd::prelude::*;

use crate::addr::{SockAddr, UnixAddr};
use crate::addr::pack;
use crate::boundary::cancel::guard::WorkerSlots;
use crate::boundary::seam::state::{
    IoSeam, MultishotAlloc, MultishotNext, RecvMultishotAlloc, RecvMultishotNext, SeamGuard,
    SeamState, WakeSlot,
};
use crate::buffer::multishot::accept::{MultishotSlab, MultishotSlot, MultishotSlotKey};
use crate::buffer::multishot::recv::{RecvMultishotSlab, RecvMultishotSlotKey, RecvSlot};
use crate::buffer::oneshot::inflight::{InflightBufSlab, InflightSlot, InflightSlotKey};
use crate::buffer::scan;
use crate::driver::{DriverState, DriverType};
use crate::operation::{IoBuf, IoOp, IoRequest, MsgLayout, SubmitResult, SubmitToken};

verus! {

/// Whether `key` names an occupied slot of the seam's in-flight registry, on its
/// worker and at its generation.
pub open spec fn names_slot(seam: SeamState, key: InflightSlotKey) -> bool {
    seam.inflight matches Some(slots) && key.worker_id == slots.worker_id && key.slot
        < slots.slots.len() && slots.slots[key.slot as int].occupied
        && slots.slots[key.slot as int].generation == key.generation
}

/// The seam went from `before` to `after` by changing at most the slot `at` of
/// its in-flight registry.
pub open spec fn only_slot_changed(before: SeamState, after: SeamState, at: int) -> bool {
    &&& after == (SeamState { inflight: after.inflight, ..before })
    &&& before.inflight matches Some(slots) && (after.inflight matches Some(changed)
        && changed.worker_id == slots.worker_id && changed.slots.len() == slots.slots.len()
        && forall|other: int|
        0 <= other < slots.slots.len() && other != at ==> #[trigger] changed.slots[other]
            == slots.slots[other])
}

/// The seam went from `before` to `after` by freeing the slot `key` names: the
/// slot is nobody's, carries no mark, and is at its next generation. A handle
/// that names none frees nothing.
pub open spec fn slot_freed(before: SeamState, after: SeamState, key: InflightSlotKey) -> bool {
    let at = key.slot as int;
    &&& !names_slot(before, key) ==> after == before
    &&& names_slot(before, key) ==> {
        let slot = after.inflight->0.slots[at];
        &&& only_slot_changed(before, after, at)
        &&& !slot.occupied
        &&& !slot.retire_pending
        &&& !slot.notif_expected
        &&& !slot.notif_ready
        &&& slot.generation == (before.inflight->0.slots[at].generation + 1)
            % 0x1_0000_0000_0000_0000
    }
}

/// A seam starts with what it is given, without streams, and with nothing
/// submitted; attaching a registry changes that registry alone.
pub proof fn a_seam_starts_with_what_it_is_given(
    worker_id: u8,
    driver: Option<DriverType>,
    inflight: Option<InflightBufSlab>,
    wake_slot: Option<WakeSlot>,
    seam: IoSeam,
    accepts: Option<MultishotSlab>,
    accepting: IoSeam,
    recvs: Option<RecvMultishotSlab>,
    receiving: IoSeam,
)
    requires
        call_ensures(IoSeam::new, (worker_id, driver, inflight, wake_slot), seam),
        call_ensures(IoSeam::with_multishot_slab, (seam, accepts), accepting),
        call_ensures(IoSeam::with_recv_multishot_slab, (seam, recvs), receiving),
    ensures
        seam.worker_id == worker_id,
        seam.driver == driver,
        seam.inflight_slab == inflight,
        seam.wake_slot == wake_slot,
        seam.submitted == 0,
        seam.multishot_slab is None,
        seam.recv_multishot_slab is None,
        accepting == (IoSeam { multishot_slab: accepts, ..seam }),
        receiving == (IoSeam { recv_multishot_slab: recvs, ..seam }),
{
}

/// A seam reports its worker, the captured completion, and how many ops went
/// through it; it can send without copying exactly when its backend can.
pub proof fn a_seam_reports_what_it_holds(
    seam: IoSeam,
    worker_id: u8,
    result: Option<WakeSlot>,
    count: u16,
    send_zc: bool,
)
    requires
        call_ensures(IoSeam::worker_id, (&seam,), worker_id),
        call_ensures(IoSeam::completion_result, (&seam,), result),
        call_ensures(IoSeam::submitted, (&seam,), count),
        call_ensures(IoSeam::is_send_zc_supported, (&seam,), send_zc),
    ensures
        worker_id == seam.worker_id,
        result == seam.wake_slot,
        count == seam.submitted,
        send_zc <==> (seam@.driver matches Some(driver) && driver.capabilities.send_zc),
{
}

/// The seam went from `before` to `after` by handing `request` to its backend,
/// with `outcome`: a ring with room queues it last and the count rises by one;
/// otherwise nothing changes.
pub open spec fn handed_on(
    before: SeamState,
    after: SeamState,
    request: IoRequest,
    outcome: Option<SubmitResult>,
) -> bool {
    &&& before.driver is None ==> outcome is None && after == before
    &&& before.driver matches Some(driver) ==> {
        let room = driver.ring && driver.queue.len() < driver.capacity;
        &&& room ==> {
            &&& outcome == Some(SubmitResult::Submitted(SubmitToken(request.user_data)))
            &&& after == (SeamState {
                driver: Some(DriverState { queue: driver.queue + seq![request], ..driver }),
                submitted: after.submitted,
                ..before
            })
            &&& after.submitted == (before.submitted + 1) % 0x1_0000
        }
        &&& !room ==> after == before
        &&& !driver.ring ==> outcome == Some(SubmitResult::Unsupported)
        &&& driver.ring && !room ==> outcome == Some(SubmitResult::QueueFull)
    }
}

/// A request submitted through the seam is queued last and counted, while there
/// is room for it.
pub proof fn a_submitted_request_is_queued_and_counted(
    seam: &mut IoSeam,
    request: IoRequest,
    outcome: Option<SubmitResult>,
)
    requires
        old(seam).wf(),
        call_ensures(IoSeam::submit_internal, (seam, request), outcome) || call_ensures(
            IoSeam::submit,
            (seam, request),
            outcome,
        ) || call_ensures(IoSeam::submit_read, (seam, request), outcome),
    ensures
        final(seam).wf(),
        handed_on(old(seam)@, final(seam)@, request, outcome),
{
    if let Some(driver) = old(seam)@.driver {
        assert(driver.queue.push(request) =~= driver.queue + seq![request]);
    }
}

/// A request with a deadline is queued with its linked timeout right behind it
/// and counted once, or not at all.
pub proof fn a_linked_request_is_queued_whole_and_counted_once(
    seam: &mut IoSeam,
    request: &IoRequest,
    deadline_ns: u64,
    outcome: Option<SubmitResult>,
)
    requires
        old(seam).wf(),
        call_ensures(
            IoSeam::submit_linked_timeout_internal,
            (seam, request, deadline_ns),
            outcome,
        ),
    ensures
        final(seam).wf(),
        ({
            let before = old(seam)@;
            let after = final(seam)@;
            &&& before.driver is None ==> outcome is None && after == before
            &&& before.driver matches Some(driver) ==> {
                let able = driver.ring && driver.capabilities.link_timeout;
                let room = driver.queue.len() + 2 <= driver.capacity;
                let timeout = IoRequest {
                    op: IoOp::LinkTimeout { deadline_ns },
                    user_data: 0xFFFF_FFFB_0000_0000,
                };
                &&& able && room ==> {
                    &&& outcome == Some(SubmitResult::Submitted(SubmitToken(request.user_data)))
                    &&& after == (SeamState {
                        driver: Some(
                            DriverState {
                                queue: driver.queue + seq![*request, timeout],
                                ..driver
                            },
                        ),
                        submitted: after.submitted,
                        ..before
                    })
                    &&& after.submitted == (before.submitted + 1) % 0x1_0000
                }
                &&& !(able && room) ==> after == before
                &&& !able ==> outcome == Some(SubmitResult::Unsupported)
                &&& able && !room ==> outcome == Some(SubmitResult::QueueFull)
            }
        }),
{
    if let Some(driver) = old(seam)@.driver {
        let timeout = IoRequest {
            op: IoOp::LinkTimeout { deadline_ns },
            user_data: 0xFFFF_FFFB_0000_0000,
        };
        assert(driver.queue.push(*request).push(timeout) =~= driver.queue + seq![
            *request,
            timeout,
        ]);
    }
}

/// A provided recv asks for a buffer of the group the backend's pool has, on the
/// descriptor and under the token it is given; a backend without a pool refuses
/// it, and so does one that cannot keep a recv running refuse a multishot one.
pub proof fn a_provided_recv_draws_on_the_pools_group(
    single: &mut IoSeam,
    multishot: &mut IoSeam,
    fd: i32,
    token: u64,
    outcome: Option<SubmitResult>,
    multishot_outcome: Option<SubmitResult>,
)
    requires
        old(single).wf(),
        old(multishot).wf(),
        call_ensures(IoSeam::submit_provided_recv, (single, fd, token), outcome),
        call_ensures(
            IoSeam::submit_recv_multishot_provided,
            (multishot, fd, token),
            multishot_outcome,
        ),
    ensures
        ({
            let before = old(single)@;
            let after = final(single)@;
            &&& before.driver is None ==> outcome is None && after == before
            &&& before.driver matches Some(driver) ==> match driver.pool {
                Some(pool) => handed_on(
                    before,
                    after,
                    IoRequest {
                        op: IoOp::RecvProvided { fd, group: pool.group_id },
                        user_data: token,
                    },
                    outcome,
                ),
                None => outcome == Some(SubmitResult::Unsupported) && after == before,
            }
        }),
        ({
            let before = old(multishot)@;
            let after = final(multishot)@;
            &&& before.driver is None ==> multishot_outcome is None && after == before
            &&& before.driver matches Some(driver) ==> if driver.pool is Some
                && driver.capabilities.multishot_recv {
                handed_on(
                    before,
                    after,
                    IoRequest {
                        op: IoOp::RecvMultishotProvided { fd, group: driver.pool->0.group_id },
                        user_data: token,
                    },
                    multishot_outcome,
                )
            } else {
                multishot_outcome == Some(SubmitResult::Unsupported) && after == before
            }
        }),
{
    if let Some(driver) = old(single)@.driver {
        if let Some(pool) = driver.pool {
            let request = IoRequest {
                op: IoOp::RecvProvided { fd, group: pool.group_id },
                user_data: token,
            };
            assert(driver.queue.push(request) =~= driver.queue + seq![request]);
        }
    }
    if let Some(driver) = old(multishot)@.driver {
        if let Some(pool) = driver.pool {
            let request = IoRequest {
                op: IoOp::RecvMultishotProvided { fd, group: pool.group_id },
                user_data: token,
            };
            assert(driver.queue.push(request) =~= driver.queue + seq![request]);
        }
    }
}

/// An op takes the lowest in-flight slot nobody owns, and is told where the
/// slot's bytes start; a full registry, or none, hands out nothing.
pub proof fn a_slot_is_taken_for_an_op(
    seam: &mut IoSeam,
    op_token: u64,
    slot: Option<(InflightSlotKey, usize)>,
    index: int,
)
    requires
        old(seam).wf(),
        call_ensures(IoSeam::allocate_slot, (seam, op_token), slot),
    ensures
        final(seam).wf(),
        ({
            let before = old(seam)@;
            let after = final(seam)@;
            &&& before.inflight is None ==> slot is None && after == before
            &&& before.inflight matches Some(slots) ==> {
                &&& (forall|each: int|
                    0 <= each < slots.slots.len() ==> (#[trigger] slots.slots[each]).occupied)
                    ==> slot is None && after == before
                &&& 0 <= index < slots.slots.len() && !slots.slots[index].occupied && (forall|
                    lower: int,
                |
                    0 <= lower < index ==> (#[trigger] slots.slots[lower]).occupied) ==> {
                    &&& slot matches Some((key, offset)) && key.slot == index && key.op_token
                        == op_token && key.worker_id == slots.worker_id && key.generation
                        == slots.slots[index].generation && offset == index * 4096
                    &&& only_slot_changed(before, after, index)
                    &&& after.inflight->0.slots[index] == (InflightSlot {
                        occupied: true,
                        op_token,
                        ..slots.slots[index]
                    })
                }
            }
        }),
{
    if let Some(slots) = old(seam)@.inflight {
        let wanted = |slot: InflightSlot| !slot.occupied;
        old(seam).inflight_slab->0.slab_is_valid();
        scan::first_index_finds(slots.slots, wanted);
        if 0 <= index < slots.slots.len() && !slots.slots[index].occupied && (forall|lower: int|
            0 <= lower < index ==> (#[trigger] slots.slots[lower]).occupied) {
            scan::lemma_first_index_is(slots.slots, wanted, index);
        } else if forall|each: int|
            0 <= each < slots.slots.len() ==> (#[trigger] slots.slots[each]).occupied {
            assert(slots.first_free() is None);
        }
    }
}

/// Bytes that fit are copied to the front of the slot the handle names, and
/// nothing else changes; bytes that do not fit, or a handle that names no slot,
/// change nothing.
pub proof fn a_copy_fills_the_front_of_the_slot(
    seam: &mut IoSeam,
    key: InflightSlotKey,
    src: &IoBuf,
    copied: bool,
)
    requires
        old(seam).wf(),
        src.wf(),
        call_ensures(IoSeam::copy_into_slot, (seam, key, src), copied),
    ensures
        final(seam).wf(),
        ({
            let before = old(seam)@;
            let after = final(seam)@;
            let at = key.slot as int;
            &&& copied <==> names_slot(before, key) && src@.len() <= 4096
            &&& !copied ==> after == before
            &&& copied ==> {
                let slot = before.inflight->0.slots[at];
                let filled = after.inflight->0.slots[at];
                &&& only_slot_changed(before, after, at)
                &&& filled == (InflightSlot { bytes: filled.bytes, ..slot })
                &&& filled.bytes.len() == 4096
                &&& forall|byte: int|
                    0 <= byte < 4096 ==> #[trigger] filled.bytes[byte] == (if byte < src@.len() {
                        src@[byte]
                    } else {
                        slot.bytes[byte]
                    })
            }
        }),
{
    if old(seam)@.inflight is Some {
        old(seam).inflight_slab->0.slab_is_valid();
        final(seam).inflight_slab->0.slab_is_valid();
    }
}

/// A harvest hands the slot's first `len` bytes to the destination, as far as
/// both reach, keeps the rest of the destination, and frees the slot. Through a
/// handle that names no slot it does nothing.
pub proof fn a_harvest_hands_over_the_received_bytes(
    seam: &mut IoSeam,
    key: InflightSlotKey,
    len: usize,
    dst: &mut [u8],
)
    requires
        old(seam).wf(),
        call_ensures(IoSeam::harvest_into, (seam, key, len, dst), ()),
    ensures
        final(seam).wf(),
        slot_freed(old(seam)@, final(seam)@, key),
        final(dst)@.len() == old(dst)@.len(),
        forall|at: int|
            0 <= at < old(dst)@.len() ==> #[trigger] final(dst)@[at] == (if names_slot(
                old(seam)@,
                key,
            ) && at < len && at < 4096 {
                old(seam)@.inflight->0.slots[key.slot as int].bytes[at]
            } else {
                old(dst)@[at]
            }),
{
    if old(seam)@.inflight is Some {
        old(seam).inflight_slab->0.slab_is_valid();
    }
}

/// Bytes copied into a slot are harvested back into a slice: as many as fit in
/// it, in order, and the rest of the slice is kept.
pub proof fn copied_bytes_are_harvested_into_a_slice(
    copying: &mut IoSeam,
    harvesting: &mut IoSeam,
    key: InflightSlotKey,
    src: &IoBuf,
    copied: bool,
    len: usize,
    dst: &mut [u8],
)
    requires
        old(copying).wf(),
        src.wf(),
        call_ensures(IoSeam::copy_into_slot, (copying, key, src), copied),
        copied,
        *old(harvesting) == *final(copying),
        len == src@.len(),
        call_ensures(IoSeam::harvest_into, (harvesting, key, len, dst), ()),
    ensures
        final(dst)@.len() == old(dst)@.len(),
        forall|at: int|
            0 <= at < old(dst)@.len() ==> #[trigger] final(dst)@[at] == (if at < src@.len() {
                src@[at]
            } else {
                old(dst)@[at]
            }),
{
    a_copy_fills_the_front_of_the_slot(copying, key, src, copied);
    a_harvest_hands_over_the_received_bytes(harvesting, key, len, dst);
}

/// A harvest into a buffer leaves exactly the slot's first `len` bytes in it, as
/// far as it has room for them, and frees the slot. Through a handle that names
/// no slot it leaves none, and without a registry it does nothing.
pub proof fn a_harvest_fills_a_buffer(
    seam: &mut IoSeam,
    key: InflightSlotKey,
    len: usize,
    dst: &mut IoBuf,
)
    requires
        old(seam).wf(),
        old(dst).wf(),
        call_ensures(IoSeam::harvest_into_buf, (seam, key, len, dst), ()),
    ensures
        final(seam).wf(),
        final(dst).wf(),
        final(dst).room() == old(dst).room(),
        slot_freed(old(seam)@, final(seam)@, key),
        old(seam)@.inflight is None ==> final(dst)@ == old(dst)@,
        old(seam)@.inflight is Some && !names_slot(old(seam)@, key) ==> final(dst)@.len() == 0,
        names_slot(old(seam)@, key) ==> {
            let bytes = old(seam)@.inflight->0.slots[key.slot as int].bytes;
            let whole: int = if len < 4096 {
                len as int
            } else {
                4096
            };
            &&& final(dst)@.len() == (if whole < old(dst).room() {
                whole
            } else {
                old(dst).room() as int
            })
            &&& forall|at: int|
                0 <= at < final(dst)@.len() ==> #[trigger] final(dst)@[at] == bytes[at]
        },
{
    if old(seam)@.inflight is Some {
        old(seam).inflight_slab->0.slab_is_valid();
    }
}

/// Freeing a slot through the seam frees the one its handle names, and nothing
/// else.
pub proof fn a_slot_is_freed_through_the_seam(seam: &mut IoSeam, key: InflightSlotKey)
    requires
        old(seam).wf(),
        call_ensures(IoSeam::free_slot, (seam, key), ()),
    ensures
        final(seam).wf(),
        slot_freed(old(seam)@, final(seam)@, key),
{
}

/// A live handle sees its slot's notification, and no other does.
pub proof fn a_handle_sees_its_own_notification(seam: IoSeam, key: InflightSlotKey, flag: bool)
    requires
        seam.wf(),
        call_ensures(IoSeam::slot_notif_ready, (&seam, key), flag),
    ensures
        flag <==> names_slot(seam@, key) && seam@.inflight->0.slots[key.slot as int].notif_ready,
{
}

/// A message that fits is laid out in the slot its handle names: the address at
/// byte 128, the payload at byte 256, and no other byte touched; the layout says
/// where each is and how long. One that does not fit, or a handle that names no
/// slot, changes nothing.
pub proof fn a_message_is_laid_out_in_its_slot(
    seam: &mut IoSeam,
    key: InflightSlotKey,
    src: &IoBuf,
    addr: &SockAddr,
    layout: Option<MsgLayout>,
)
    requires
        old(seam).wf(),
        src.wf(),
        addr.wf(),
        call_ensures(IoSeam::build_send_msg, (seam, key, src, addr), layout),
    ensures
        final(seam).wf(),
        ({
            let before = old(seam)@;
            let after = final(seam)@;
            let at = key.slot as int;
            let fits = names_slot(before, key) && src@.len() <= 3840;
            &&& !fits ==> layout is None && after == before
            &&& fits ==> {
                let slot = before.inflight->0.slots[at];
                let built = after.inflight->0.slots[at];
                let packed = pack::packed(*addr);
                &&& layout matches Some(place) && place.header == at * 4096 && place.addr == at
                    * 4096 + 128 && place.payload == at * 4096 + 256 && place.payload_len
                    == src@.len() && place.addr_len == (match *addr {
                    SockAddr::V4(_) => 16,
                    SockAddr::V6(_) => 28,
                    SockAddr::Unix(UnixAddr::Path { buf, len }) => len + 3,
                    SockAddr::Unix(UnixAddr::Abstract { buf, len }) => len + 3,
                    SockAddr::Unix(UnixAddr::Unnamed) => 2,
                })
                &&& only_slot_changed(before, after, at)
                &&& built == (InflightSlot { bytes: built.bytes, ..slot })
                &&& built.bytes.len() == 4096
                &&& packed.len() == 128
                &&& forall|byte: int|
                    0 <= byte < 4096 ==> #[trigger] built.bytes[byte] == (if 128 <= byte < 256 {
                        packed[byte - 128]
                    } else if 256 <= byte < 256 + src@.len() {
                        src@[byte - 256]
                    } else {
                        slot.bytes[byte]
                    })
            }
        }),
{
    if old(seam)@.inflight is Some {
        old(seam).inflight_slab->0.slab_is_valid();
        final(seam).inflight_slab->0.slab_is_valid();
    }
}

/// Room for a message is laid out in the slot its handle names: the address
/// region, at byte 128, is cleared for the kernel to fill, no other byte is
/// touched, and the payload takes what was asked for up to the slot's end. A
/// handle that names no slot changes nothing.
pub proof fn room_for_a_message_is_laid_out(
    seam: &mut IoSeam,
    key: InflightSlotKey,
    cap: usize,
    layout: Option<MsgLayout>,
)
    requires
        old(seam).wf(),
        call_ensures(IoSeam::build_recv_msg, (seam, key, cap), layout),
    ensures
        final(seam).wf(),
        ({
            let before = old(seam)@;
            let after = final(seam)@;
            let at = key.slot as int;
            &&& !names_slot(before, key) ==> layout is None && after == before
            &&& names_slot(before, key) ==> {
                let slot = before.inflight->0.slots[at];
                let built = after.inflight->0.slots[at];
                &&& layout matches Some(place) && place.header == at * 4096 && place.addr == at
                    * 4096 + 128 && place.payload == at * 4096 + 256 && place.addr_len == 128
                    && place.payload_len == (if cap < 3840 {
                    cap
                } else {
                    3840
                })
                &&& only_slot_changed(before, after, at)
                &&& built == (InflightSlot { bytes: built.bytes, ..slot })
                &&& built.bytes.len() == 4096
                &&& forall|byte: int|
                    0 <= byte < 4096 ==> #[trigger] built.bytes[byte] == (if 128 <= byte < 256 {
                        0
                    } else {
                        slot.bytes[byte]
                    })
            }
        }),
{
    if old(seam)@.inflight is Some {
        old(seam).inflight_slab->0.slab_is_valid();
        final(seam).inflight_slab->0.slab_is_valid();
    }
}

/// The sender of a message is read from byte 128 of the slot its handle names:
/// an IPv4 or an IPv6 address by its family, and none for any other.
pub proof fn a_sender_is_read_from_its_slot(
    seam: IoSeam,
    key: InflightSlotKey,
    sender: Option<SockAddr>,
)
    requires
        seam.wf(),
        call_ensures(IoSeam::read_msg_sender, (&seam, key), sender),
    ensures
        !names_slot(seam@, key) ==> sender is None,
        names_slot(seam@, key) ==> {
            let bytes = seam@.inflight->0.slots[key.slot as int].bytes;
            let family = bytes[128] + 0x100 * bytes[129];
            &&& family == 2 ==> (sender matches Some(SockAddr::V4(v4)) && v4.port == bytes[130]
                * 0x100 + bytes[131] && forall|at: int|
                0 <= at < 4 ==> #[trigger] v4.ip@[at] == bytes[132 + at])
            &&& family == 10 ==> (sender matches Some(SockAddr::V6(v6)) && v6.port == bytes[130]
                * 0x100 + bytes[131] && v6.flowinfo == ((bytes[132] * 0x100 + bytes[133]) * 0x100
                + bytes[134]) * 0x100 + bytes[135] && v6.scope_id == bytes[152] + 0x100 * (
            bytes[153] + 0x100 * (bytes[154] + 0x100 * bytes[155])) && forall|at: int|
                0 <= at < 16 ==> #[trigger] v6.ip@[at] == bytes[136 + at])
            &&& family != 2 && family != 10 ==> sender is None
        },
{
    if seam@.inflight is Some {
        seam.inflight_slab->0.slab_is_valid();
    }
}

/// A message's payload is handed over from byte 256 of the slot its handle
/// names, as much of it as arrived and the buffer has room for, and the slot is
/// freed. Through a handle that names no slot nothing is left in the buffer, and
/// without a registry nothing happens.
pub proof fn a_payload_is_handed_over_from_its_slot(
    seam: &mut IoSeam,
    key: InflightSlotKey,
    len: usize,
    dst: &mut IoBuf,
)
    requires
        old(seam).wf(),
        old(dst).wf(),
        call_ensures(IoSeam::harvest_msg_payload, (seam, key, len, dst), ()),
    ensures
        final(seam).wf(),
        final(dst).wf(),
        final(dst).room() == old(dst).room(),
        slot_freed(old(seam)@, final(seam)@, key),
        old(seam)@.inflight is None ==> final(dst)@ == old(dst)@,
        old(seam)@.inflight is Some && !names_slot(old(seam)@, key) ==> final(dst)@.len() == 0,
        names_slot(old(seam)@, key) ==> {
            let bytes = old(seam)@.inflight->0.slots[key.slot as int].bytes;
            let whole: int = if len < 3840 {
                len as int
            } else {
                3840
            };
            &&& final(dst)@.len() == (if whole < old(dst).room() {
                whole
            } else {
                old(dst).room() as int
            })
            &&& forall|at: int|
                0 <= at < final(dst)@.len() ==> #[trigger] final(dst)@[at] == bytes[256 + at]
        },
{
    if old(seam)@.inflight is Some {
        old(seam).inflight_slab->0.slab_is_valid();
    }
}

/// The seam went from `before` to `after` by changing at most the slot `at` of
/// its accept registry.
pub open spec fn only_stream_changed(before: SeamState, after: SeamState, at: int) -> bool {
    &&& after == (SeamState { multishot: after.multishot, ..before })
    &&& before.multishot matches Some(slots) && (after.multishot matches Some(changed)
        && changed.worker_id == slots.worker_id && changed.slots.len() == slots.slots.len()
        && forall|other: int|
        0 <= other < slots.slots.len() && other != at ==> #[trigger] changed.slots[other]
            == slots.slots[other])
}

/// The seam went from `before` to `after` by changing at most the slot `at` of
/// its recv registry.
pub open spec fn only_recv_changed(before: SeamState, after: SeamState, at: int) -> bool {
    &&& after == (SeamState { recv: after.recv, ..before })
    &&& before.recv matches Some(slots) && (after.recv matches Some(changed) && changed.worker_id
        == slots.worker_id && changed.slots.len() == slots.slots.len() && forall|other: int|
        0 <= other < slots.slots.len() && other != at ==> #[trigger] changed.slots[other]
            == slots.slots[other])
}

/// An accept stream takes the lowest slot nobody owns, empty and unmarked, and
/// is told the sentinel that leads completions back to it; a full registry and
/// none say so.
pub proof fn an_accept_stream_takes_a_slot(
    seam: &mut IoSeam,
    owner_token: u64,
    outcome: MultishotAlloc,
    index: int,
)
    requires
        old(seam).wf(),
        call_ensures(IoSeam::allocate_multishot_slot, (seam, owner_token), outcome),
    ensures
        final(seam).wf(),
        ({
            let before = old(seam)@;
            let after = final(seam)@;
            &&& before.multishot is None ==> outcome is Unsupported && after == before
            &&& before.multishot matches Some(slots) ==> {
                &&& (forall|each: int|
                    0 <= each < slots.slots.len() ==> (#[trigger] slots.slots[each]).occupied)
                    ==> outcome is Full && after == before
                &&& 0 <= index < slots.slots.len() && !slots.slots[index].occupied && (forall|
                    lower: int,
                |
                    0 <= lower < index ==> (#[trigger] slots.slots[lower]).occupied) ==> {
                    &&& outcome matches MultishotAlloc::Allocated { key, sentinel } && key.slot
                        == index && key.worker_id == slots.worker_id && key.generation
                        == slots.slots[index].generation && sentinel == 0xFFFF_FFFE_0000_0000
                        + key.generation % 0x1_0000 * 0x1_0000 + index
                    &&& only_stream_changed(before, after, index)
                    &&& after.multishot->0.slots[index] == (MultishotSlot {
                        occupied: true,
                        terminated: false,
                        cancel_pending: false,
                        owner_token,
                        queue: Seq::empty(),
                        ..slots.slots[index]
                    })
                }
            }
        }),
{
    if let Some(slots) = old(seam)@.multishot {
        let wanted = |slot: MultishotSlot| !slot.occupied;
        old(seam).multishot_slab->0.slab_is_valid();
        scan::first_index_finds(slots.slots, wanted);
        if 0 <= index < slots.slots.len() && !slots.slots[index].occupied && (forall|lower: int|
            0 <= lower < index ==> (#[trigger] slots.slots[lower]).occupied) {
            scan::lemma_first_index_is(slots.slots, wanted, index);
        }
    }
}

/// A poll of an accept stream yields the oldest result queued in the slot its
/// handle names and leaves the rest in order; with none left, an ended stream
/// ends and frees its slot, and any other is pending and untouched.
pub proof fn an_accept_poll_yields_the_oldest(
    seam: &mut IoSeam,
    key: MultishotSlotKey,
    next: MultishotNext,
)
    requires
        old(seam).wf(),
        call_ensures(IoSeam::multishot_next, (seam, key), next),
    ensures
        final(seam).wf(),
        ({
            let before = old(seam)@;
            let after = final(seam)@;
            let at = key.slot as int;
            &&& before.multishot is None ==> next is Ended && after == before
            &&& before.multishot matches Some(slots) ==> {
                let slot = slots.slots[at];
                let named = key.worker_id == slots.worker_id && key.slot < slots.slots.len()
                    && slot.occupied && slot.generation == key.generation;
                let left = after.multishot->0.slots[at];
                &&& named && slot.queue.len() > 0 ==> {
                    &&& next == MultishotNext::Item(slot.queue[0])
                    &&& only_stream_changed(before, after, at)
                    &&& left == (MultishotSlot { queue: left.queue, ..slot })
                    &&& slot.queue == seq![slot.queue[0]] + left.queue
                }
                &&& named && slot.queue.len() == 0 && slot.terminated ==> {
                    &&& next is Ended
                    &&& only_stream_changed(before, after, at)
                    &&& !left.occupied
                    &&& !left.terminated
                    &&& !left.cancel_pending
                    &&& left.queue.len() == 0
                    &&& left.generation == (slot.generation + 1) % 0x1_0000_0000_0000_0000
                }
                &&& !named || (slot.queue.len() == 0 && !slot.terminated) ==> next is Pending
                    && after == before
            }
        }),
{
    if let Some(slots) = old(seam)@.multishot {
        if slots.live(key) && slots.slots[key.slot as int].queue.len() > 0 {
            let queue = slots.slots[key.slot as int].queue;
            assert(seq![queue[0]] + queue.drop_first() =~= queue);
        }
    }
}

/// Freeing an accept stream frees the slot its handle names, and nothing else.
pub proof fn an_accept_stream_is_freed(seam: &mut IoSeam, key: MultishotSlotKey)
    requires
        old(seam).wf(),
        call_ensures(IoSeam::multishot_free, (seam, key), ()),
    ensures
        final(seam).wf(),
        ({
            let before = old(seam)@;
            let after = final(seam)@;
            let at = key.slot as int;
            let named = before.multishot matches Some(slots) && key.worker_id == slots.worker_id
                && key.slot < slots.slots.len() && slots.slots[at].occupied
                && slots.slots[at].generation == key.generation;
            &&& !named ==> after == before
            &&& named ==> {
                let left = after.multishot->0.slots[at];
                &&& only_stream_changed(before, after, at)
                &&& !left.occupied
                &&& !left.terminated
                &&& !left.cancel_pending
                &&& left.queue.len() == 0
                &&& left.generation == (before.multishot->0.slots[at].generation + 1)
                    % 0x1_0000_0000_0000_0000
            }
        }),
{
}

/// A recv stream takes the lowest slot nobody owns, empty and unmarked, and is
/// told the sentinel that leads completions back to it; a full registry and none
/// say so.
pub proof fn a_recv_stream_takes_a_slot(
    seam: &mut IoSeam,
    owner_token: u64,
    outcome: RecvMultishotAlloc,
    index: int,
)
    requires
        old(seam).wf(),
        call_ensures(IoSeam::allocate_recv_multishot_slot, (seam, owner_token), outcome),
    ensures
        final(seam).wf(),
        ({
            let before = old(seam)@;
            let after = final(seam)@;
            &&& before.recv is None ==> outcome is Unsupported && after == before
            &&& before.recv matches Some(slots) ==> {
                &&& (forall|each: int|
                    0 <= each < slots.slots.len() ==> (#[trigger] slots.slots[each]).occupied)
                    ==> outcome is Full && after == before
                &&& 0 <= index < slots.slots.len() && !slots.slots[index].occupied && (forall|
                    lower: int,
                |
                    0 <= lower < index ==> (#[trigger] slots.slots[lower]).occupied) ==> {
                    &&& outcome matches RecvMultishotAlloc::Allocated { key, sentinel } && key.slot
                        == index && key.worker_id == slots.worker_id && key.generation
                        == slots.slots[index].generation && sentinel == 0xFFFF_FFFD_0000_0000
                        + key.generation % 0x1_0000 * 0x1_0000 + index
                    &&& only_recv_changed(before, after, index)
                    &&& after.recv->0.slots[index] == (RecvSlot {
                        occupied: true,
                        terminated: false,
                        cancel_pending: false,
                        owner_token,
                        queue: Seq::empty(),
                        terminal: None,
                        ..slots.slots[index]
                    })
                }
            }
        }),
{
    if let Some(slots) = old(seam)@.recv {
        let wanted = |slot: RecvSlot| !slot.occupied;
        old(seam).recv_multishot_slab->0.slab_is_valid();
        scan::first_index_finds(slots.slots, wanted);
        if 0 <= index < slots.slots.len() && !slots.slots[index].occupied && (forall|lower: int|
            0 <= lower < index ==> (#[trigger] slots.slots[lower]).occupied) {
            scan::lemma_first_index_is(slots.slots, wanted, index);
        }
    }
}

/// A poll of a recv stream yields the oldest completion queued in the slot its
/// handle names and leaves the rest in order; with none left it yields the final
/// one, once; after that an ended stream ends and frees its slot, and any other
/// is pending and untouched. A completion without a buffer reports none.
pub proof fn a_recv_poll_yields_the_oldest(
    seam: &mut IoSeam,
    key: RecvMultishotSlotKey,
    next: RecvMultishotNext,
)
    requires
        old(seam).wf(),
        call_ensures(IoSeam::recv_multishot_next, (seam, key), next),
    ensures
        final(seam).wf(),
        ({
            let before = old(seam)@;
            let after = final(seam)@;
            let at = key.slot as int;
            &&& before.recv is None ==> next is Ended && after == before
            &&& before.recv matches Some(slots) ==> {
                let slot = slots.slots[at];
                let named = key.worker_id == slots.worker_id && key.slot < slots.slots.len()
                    && slot.occupied && slot.generation == key.generation;
                let left = after.recv->0.slots[at];
                let oldest = if slot.queue.len() > 0 {
                    Some(slot.queue[0])
                } else {
                    slot.terminal
                };
                &&& named ==> (oldest matches Some((count, stored)) ==> {
                    &&& next matches RecvMultishotNext::Item { result, buf_id } && result == count
                        && (stored == 0xFFFF ==> buf_id is None) && (stored != 0xFFFF ==> buf_id
                        == Some(stored))
                    &&& only_recv_changed(before, after, at)
                    &&& slot.queue.len() > 0 ==> left == (RecvSlot { queue: left.queue, ..slot })
                        && slot.queue == seq![slot.queue[0]] + left.queue
                    &&& slot.queue.len() == 0 ==> left == (RecvSlot { terminal: None, ..slot })
                })
                &&& named && oldest is None && slot.terminated ==> {
                    &&& next is Ended
                    &&& only_recv_changed(before, after, at)
                    &&& !left.occupied
                    &&& !left.terminated
                    &&& !left.cancel_pending
                    &&& left.queue.len() == 0
                    &&& left.terminal is None
                    &&& left.generation == (slot.generation + 1) % 0x1_0000_0000_0000_0000
                }
                &&& !named || (oldest is None && !slot.terminated) ==> next is Pending && after
                    == before
            }
        }),
{
    if let Some(slots) = old(seam)@.recv {
        if slots.live(key) && slots.slots[key.slot as int].queue.len() > 0 {
            let queue = slots.slots[key.slot as int].queue;
            assert(seq![queue[0]] + queue.drop_first() =~= queue);
        }
    }
}

/// Freeing a recv stream frees the slot its handle names, and nothing else.
pub proof fn a_recv_stream_is_freed(seam: &mut IoSeam, key: RecvMultishotSlotKey)
    requires
        old(seam).wf(),
        call_ensures(IoSeam::recv_multishot_free, (seam, key), ()),
    ensures
        final(seam).wf(),
        ({
            let before = old(seam)@;
            let after = final(seam)@;
            let at = key.slot as int;
            let named = before.recv matches Some(slots) && key.worker_id == slots.worker_id
                && key.slot < slots.slots.len() && slots.slots[at].occupied
                && slots.slots[at].generation == key.generation;
            &&& !named ==> after == before
            &&& named ==> {
                let left = after.recv->0.slots[at];
                &&& only_recv_changed(before, after, at)
                &&& !left.occupied
                &&& !left.terminated
                &&& !left.cancel_pending
                &&& left.queue.len() == 0
                &&& left.terminal is None
                &&& left.generation == (before.recv->0.slots[at].generation + 1)
                    % 0x1_0000_0000_0000_0000
            }
        }),
{
}

/// A poll window installs its seam for its own worker and takes it, and only it,
/// away again: between the two the worker reaches it, and afterwards no worker's
/// seam differs from what it was, but for the window's own worker, who has none.
pub proof fn a_window_takes_away_what_it_installed(
    opening: &mut WorkerSlots<IoSeam>,
    seam: IoSeam,
    guard: SeamGuard,
    closing: &mut WorkerSlots<IoSeam>,
    taken: Option<IoSeam>,
    other: int,
)
    requires
        old(opening).wf(),
        call_ensures(SeamGuard::install, (opening, seam), guard),
        *old(closing) == *final(opening),
        call_ensures(SeamGuard::clear, (guard, closing), taken),
        0 <= other < 256,
    ensures
        final(opening).wf(),
        final(opening)@[seam.worker_id as int] == Some(seam),
        taken == Some(seam),
        final(closing)@[seam.worker_id as int] is None,
        other != seam.worker_id ==> final(opening)@[other] == old(opening)@[other]
            && final(closing)@[other] == old(opening)@[other],
{
    old(opening).lemma_every_worker_has_a_slot();
}

/// A worker reaches the seam installed for it, and no other.
pub proof fn a_worker_reaches_its_own_seam(
    seams: &mut WorkerSlots<IoSeam>,
    worker_id: u8,
    seam: Option<&mut IoSeam>,
    other: int,
)
    requires
        old(seams).wf(),
        call_ensures(IoSeam::with_current, (seams, worker_id), seam),
        0 <= other < 256,
    ensures
        final(seams).wf(),
        seam is Some <==> old(seams)@[worker_id as int] is Some,
        seam matches Some(current) ==> old(seams)@[worker_id as int] == Some(*current)
            && final(seams)@[worker_id as int] == Some(*final(current)),
        other != worker_id ==> final(seams)@[other] == old(seams)@[other],
{
    old(seams).lemma_every_worker_has_a_slot();
}

} // verus!
