//! The `user_data` markers that name a completion's route.
//!
//! A completion whose `user_data` is none of these belongs to the task whose
//! token it carries. The upper 32 bits tell the markers apart; where a marker
//! names a slot, the slot sits at bits 0..16 and the low 16 bits of its
//! generation at bits 16..32.

use vstd::prelude::*;

use crate::buffer::multishot::{MultishotSlotKey, RecvMultishotSlotKey};
use crate::buffer::oneshot::inflight::InflightSlotKey;

verus! {

/// `user_data` of the wake fd's own completion.
pub const WAKE_FD_USER_DATA: u64 = 0xFFFF_FFFF_FFFF_FFFF;

/// `user_data` marker for a buffered-op cancel completion.
///
/// Tags every cancel SQE the worker's cancel-drain submits so the completion
/// drain recognizes the cancel op's own completion. The upper 32 bits are all
/// set: the arena tag bit, a worker id of 127, and a maximal generation, a
/// corner a real task token never reaches in practice.
pub const CANCEL_TOKEN_BASE: u64 = 0xFFFF_FFFF_0000_0000;

/// `user_data` marker base for a multishot completion, one corner below the
/// cancel base.
pub const MULTISHOT_TOKEN_BASE: u64 = 0xFFFF_FFFE_0000_0000;

/// `user_data` marker base for a multishot recv completion, one corner below
/// the multishot base.
pub const RECV_MULTISHOT_TOKEN_BASE: u64 = 0xFFFF_FFFD_0000_0000;

/// The `user_data` a cross-ring `msg_ring` wake carries.
///
/// A peer worker posts this purely to break the target's park; the completion
/// drain recognizes it and unparks without a task route or a stored result. It
/// names no suboperation, so the whole value is the fixed marker.
pub const MSG_RING_WAKE_USER_DATA: u64 = 0xFFFF_FFFC_0000_0000;

/// The `user_data` the link-timeout half of a linked pair carries.
///
/// The completion drain recognizes it and drops the completion without a task
/// route or a slot free -- the primary op's own completion is the caller's
/// result.
pub const LINK_TIMEOUT_DISCARD_USER_DATA: u64 = 0xFFFF_FFFB_0000_0000;

/// The upper half of `user_data`, which tells the markers apart.
pub open spec fn upper32(user_data: u64) -> int {
    user_data as int / 0x1_0000_0000
}

/// The marker `base` with a slot and the low 16 bits of its generation.
pub open spec fn sentinel(base: u64, slot: u16, generation: u64) -> u64 {
    (base + (generation % 0x1_0000) * 0x1_0000 + slot) as u64
}

/// The slot a sentinel names.
pub open spec fn sentinel_slot(user_data: u64) -> u16 {
    (user_data % 0x1_0000) as u16
}

/// The low 16 generation bits a sentinel carries.
pub open spec fn sentinel_generation(user_data: u64) -> u16 {
    (user_data / 0x1_0000 % 0x1_0000) as u16
}

/// What makes a completion a buffered-op cancel's.
pub open spec fn names_cancel(user_data: u64) -> bool {
    upper32(user_data) == 0xFFFF_FFFF && user_data != WAKE_FD_USER_DATA
}

/// What makes a completion a multishot op's.
pub open spec fn names_multishot(user_data: u64) -> bool {
    upper32(user_data) == 0xFFFF_FFFE
}

/// What makes a completion a multishot recv op's.
pub open spec fn names_recv_multishot(user_data: u64) -> bool {
    upper32(user_data) == 0xFFFF_FFFD
}

/// Encodes the cancel-completion `user_data` for `key`: the marker, the slot at
/// bits 0..16, and the low 16 bits of the slot's generation at bits 16..32.
///
/// The slot and generation are read back only on a cancel completion that
/// reports `-ENOENT`: the target op already completed, so no op-token
/// completion will free the slot, and the generation guards a stale cancel from
/// freeing a slot the same op token has since reused.
pub fn encode_cancel_sentinel(key: InflightSlotKey) -> (user_data: u64)
    ensures
        user_data == sentinel(CANCEL_TOKEN_BASE, key.slot, key.generation),
{
    CANCEL_TOKEN_BASE + (key.generation % 0x1_0000) * 0x1_0000 + key.slot as u64
}

/// Whether `user_data` is a cancel-completion sentinel.
///
/// The marker fills the upper 32 bits, which the wake fd's value also does, so
/// the wake value is excluded here to keep the two predicates disjoint on their
/// own.
pub fn is_cancel_sentinel(user_data: u64) -> (flag: bool)
    ensures
        flag == names_cancel(user_data),
{
    user_data / 0x1_0000_0000 == 0xFFFF_FFFF && user_data != WAKE_FD_USER_DATA
}

/// Encodes the multishot-completion `user_data` for `key`.
pub fn encode_multishot_sentinel(key: MultishotSlotKey) -> (user_data: u64)
    ensures
        user_data == sentinel(MULTISHOT_TOKEN_BASE, key.slot, key.generation),
{
    MULTISHOT_TOKEN_BASE + (key.generation % 0x1_0000) * 0x1_0000 + key.slot as u64
}

/// Whether `user_data` is a multishot-completion sentinel.
pub fn is_multishot_sentinel(user_data: u64) -> (flag: bool)
    ensures
        flag == names_multishot(user_data),
{
    user_data / 0x1_0000_0000 == 0xFFFF_FFFE
}

/// The slot index a multishot sentinel names.
pub fn multishot_sentinel_slot(user_data: u64) -> (slot: u16)
    ensures
        slot == sentinel_slot(user_data),
{
    (user_data % 0x1_0000) as u16
}

/// The low 16 generation bits a multishot sentinel carries.
pub fn multishot_sentinel_generation(user_data: u64) -> (generation: u16)
    ensures
        generation == sentinel_generation(user_data),
{
    (user_data / 0x1_0000 % 0x1_0000) as u16
}

/// Encodes the multishot-recv-completion `user_data` for `key`.
pub fn encode_recv_multishot_sentinel(key: RecvMultishotSlotKey) -> (user_data: u64)
    ensures
        user_data == sentinel(RECV_MULTISHOT_TOKEN_BASE, key.slot, key.generation),
{
    RECV_MULTISHOT_TOKEN_BASE + (key.generation % 0x1_0000) * 0x1_0000 + key.slot as u64
}

/// Whether `user_data` is a multishot-recv-completion sentinel.
pub fn is_recv_multishot_sentinel(user_data: u64) -> (flag: bool)
    ensures
        flag == names_recv_multishot(user_data),
{
    user_data / 0x1_0000_0000 == 0xFFFF_FFFD
}

/// Whether `user_data` marks a cross-ring `msg_ring` wake.
pub fn is_msg_ring_wake(user_data: u64) -> (flag: bool)
    ensures
        flag == (user_data == MSG_RING_WAKE_USER_DATA),
{
    user_data == MSG_RING_WAKE_USER_DATA
}

/// Whether `user_data` marks the discarded half of a linked-timeout pair.
pub fn is_link_timeout_discard(user_data: u64) -> (flag: bool)
    ensures
        flag == (user_data == LINK_TIMEOUT_DISCARD_USER_DATA),
{
    user_data == LINK_TIMEOUT_DISCARD_USER_DATA
}

/// A completion takes at most one route: no two of the wake fd, the cancel
/// marker, the two multishot markers, the `msg_ring` wake, and the link-timeout
/// discard claim the same `user_data`.
pub proof fn routes_are_disjoint(user_data: u64)
    ensures
        ({
            let wake = user_data == WAKE_FD_USER_DATA;
            let cancel = names_cancel(user_data);
            let multishot = names_multishot(user_data);
            let recv = names_recv_multishot(user_data);
            let msg_ring = user_data == MSG_RING_WAKE_USER_DATA;
            let discard = user_data == LINK_TIMEOUT_DISCARD_USER_DATA;
            &&& !(wake && (cancel || multishot || recv || msg_ring || discard))
            &&& !(cancel && (multishot || recv || msg_ring || discard))
            &&& !(multishot && (recv || msg_ring || discard))
            &&& !(recv && (msg_ring || discard))
            &&& !(msg_ring && discard)
        }),
{
}

/// A sentinel leads back to its marker, its slot, and its generation's low 16
/// bits. A cancel sentinel with both halves all ones is the wake fd's own
/// value, and is the one that is not recognized.
pub proof fn sentinels_round_trip(slot: u16, generation: u64)
    ensures
        ({
            let cancel = sentinel(CANCEL_TOKEN_BASE, slot, generation);
            let multishot = sentinel(MULTISHOT_TOKEN_BASE, slot, generation);
            let recv = sentinel(RECV_MULTISHOT_TOKEN_BASE, slot, generation);
            &&& names_cancel(cancel) <==> !(slot == 0xFFFF && generation % 0x1_0000 == 0xFFFF)
            &&& names_multishot(multishot)
            &&& names_recv_multishot(recv)
            &&& sentinel_slot(cancel) == slot
            &&& sentinel_slot(multishot) == slot
            &&& sentinel_slot(recv) == slot
            &&& sentinel_generation(cancel) == generation % 0x1_0000
            &&& sentinel_generation(multishot) == generation % 0x1_0000
            &&& sentinel_generation(recv) == generation % 0x1_0000
        }),
{
}

/// A task token with its top bit clear is no marker.
pub proof fn slab_tokens_are_no_markers(user_data: u64)
    requires
        user_data < 0x8000_0000_0000_0000,
    ensures
        !names_cancel(user_data),
        !names_multishot(user_data),
        !names_recv_multishot(user_data),
        user_data != MSG_RING_WAKE_USER_DATA,
        user_data != LINK_TIMEOUT_DISCARD_USER_DATA,
        user_data != WAKE_FD_USER_DATA,
{
}

} // verus!
