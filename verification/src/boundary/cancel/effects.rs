//! What each call on the cancel records and the completion tags does, in terms
//! of what goes in and what comes out.

use vstd::prelude::*;

use crate::boundary::cancel::guard;
use crate::boundary::cancel::guard::{
    CancelInboxGuard, CancelInboxes, RecvCancelInboxGuard, RecvCancelInboxes, WorkerSlots,
};
use crate::boundary::cancel::inbox::{
    CANCEL_INBOX_CAPACITY, CancelInbox, RECV_CANCEL_INBOX_CAPACITY, RecvCancelInbox,
};
use crate::boundary::cancel::token::{
    encode_cancel_sentinel, encode_multishot_sentinel, encode_recv_multishot_sentinel,
    is_cancel_sentinel, is_link_timeout_discard, is_msg_ring_wake, is_multishot_sentinel,
    is_recv_multishot_sentinel, multishot_sentinel_generation, multishot_sentinel_slot,
};
use crate::boundary::cancel::token_set::{AcceptCancelSet, ConnectCancelSet, ProvidedRecvCancelSet};
use crate::buffer::multishot::{MultishotSlotKey, RecvMultishotSlotKey};
use crate::buffer::oneshot::inflight::InflightSlotKey;
use crate::error::IoError;

verus! {

/// A tag carries its class above bit 32, the low sixteen bits of the generation
/// below that, and the slot lowest; each part reads back.
pub proof fn a_tag_carries_class_generation_and_slot(
    op: InflightSlotKey,
    stream: MultishotSlotKey,
    recv: RecvMultishotSlotKey,
    cancel_tag: u64,
    stream_tag: u64,
    recv_tag: u64,
    user_data: u64,
    slot: u16,
    generation: u16,
)
    requires
        call_ensures(encode_cancel_sentinel, (op,), cancel_tag),
        call_ensures(encode_multishot_sentinel, (stream,), stream_tag),
        call_ensures(encode_recv_multishot_sentinel, (recv,), recv_tag),
        call_ensures(multishot_sentinel_slot, (user_data,), slot),
        call_ensures(multishot_sentinel_generation, (user_data,), generation),
    ensures
        cancel_tag == 0xFFFF_FFFF_0000_0000 + op.generation % 0x1_0000 * 0x1_0000 + op.slot,
        stream_tag == 0xFFFF_FFFE_0000_0000 + stream.generation % 0x1_0000 * 0x1_0000 + stream.slot,
        recv_tag == 0xFFFF_FFFD_0000_0000 + recv.generation % 0x1_0000 * 0x1_0000 + recv.slot,
        slot == user_data % 0x1_0000,
        generation == user_data / 0x1_0000 % 0x1_0000,
        user_data == stream_tag ==> slot == stream.slot && generation == stream.generation
            % 0x1_0000,
        user_data == recv_tag ==> slot == recv.slot && generation == recv.generation % 0x1_0000,
        user_data == cancel_tag ==> slot == op.slot && generation == op.generation % 0x1_0000,
{
}

/// A completion's class is told by the upper half of its `user_data`; the
/// wake-up descriptor's tag is no cancel's, and the two single tags are told
/// whole.
pub proof fn a_tag_tells_its_class(
    user_data: u64,
    cancel: bool,
    stream: bool,
    recv: bool,
    wake: bool,
    discard: bool,
)
    requires
        call_ensures(is_cancel_sentinel, (user_data,), cancel),
        call_ensures(is_multishot_sentinel, (user_data,), stream),
        call_ensures(is_recv_multishot_sentinel, (user_data,), recv),
        call_ensures(is_msg_ring_wake, (user_data,), wake),
        call_ensures(is_link_timeout_discard, (user_data,), discard),
    ensures
        cancel <==> user_data >= 0xFFFF_FFFF_0000_0000 && user_data != 0xFFFF_FFFF_FFFF_FFFF,
        stream <==> 0xFFFF_FFFE_0000_0000 <= user_data < 0xFFFF_FFFF_0000_0000,
        recv <==> 0xFFFF_FFFD_0000_0000 <= user_data < 0xFFFF_FFFE_0000_0000,
        wake <==> user_data == 0xFFFF_FFFC_0000_0000,
        discard <==> user_data == 0xFFFF_FFFB_0000_0000,
{
}

/// A dropped accept's token is recorded while there is room and found once for
/// every time it was recorded; no other token's record changes.
pub proof fn a_dropped_accept_is_recorded_and_found<const N: usize>(
    fresh: AcceptCancelSet<N>,
    recording: &mut AcceptCancelSet<N>,
    taking: &mut AcceptCancelSet<N>,
    token: u64,
    taken: bool,
    empty: bool,
    other: u64,
)
    requires
        call_ensures(AcceptCancelSet::<N>::new, (), fresh),
        old(recording).wf(),
        call_ensures(AcceptCancelSet::<N>::insert, (recording, token), ()),
        old(taking).wf(),
        call_ensures(AcceptCancelSet::<N>::take, (taking, token), taken),
        call_ensures(AcceptCancelSet::<N>::is_empty, (&*old(taking),), empty),
    ensures
        fresh.wf() && fresh@.len() == 0,
        final(recording).wf() && final(taking).wf(),
        old(recording)@.len() < N ==> final(recording)@.count(token) == old(recording)@.count(token)
            + 1,
        old(recording)@.len() >= N ==> final(recording)@ == old(recording)@,
        other != token ==> final(recording)@.count(other) == old(recording)@.count(other),
        taken <==> old(taking)@.count(token) > 0,
        taken ==> final(taking)@.count(token) == old(taking)@.count(token) - 1,
        !taken ==> final(taking)@ == old(taking)@,
        other != token ==> final(taking)@.count(other) == old(taking)@.count(other),
        empty <==> old(taking)@.len() == 0,
{
    broadcast use vstd::multiset::group_multiset_axioms;

}

/// A dropped provided recv's token is recorded while there is room and found
/// once for every time it was recorded; no other token's record changes, and
/// looking changes nothing.
pub proof fn a_dropped_provided_recv_is_recorded_and_found<const N: usize>(
    fresh: ProvidedRecvCancelSet<N>,
    recording: &mut ProvidedRecvCancelSet<N>,
    taking: &mut ProvidedRecvCancelSet<N>,
    token: u64,
    taken: bool,
    empty: bool,
    seen: bool,
    other: u64,
)
    requires
        call_ensures(ProvidedRecvCancelSet::<N>::new, (), fresh),
        old(recording).wf(),
        call_ensures(ProvidedRecvCancelSet::<N>::insert, (recording, token), ()),
        old(taking).wf(),
        call_ensures(ProvidedRecvCancelSet::<N>::take, (taking, token), taken),
        call_ensures(ProvidedRecvCancelSet::<N>::is_empty, (&*old(taking),), empty),
        call_ensures(ProvidedRecvCancelSet::<N>::contains, (&*old(taking), token), seen),
    ensures
        fresh.wf() && fresh@.len() == 0,
        final(recording).wf() && final(taking).wf(),
        old(recording)@.len() < N ==> final(recording)@.count(token) == old(recording)@.count(token)
            + 1,
        old(recording)@.len() >= N ==> final(recording)@ == old(recording)@,
        other != token ==> final(recording)@.count(other) == old(recording)@.count(other),
        taken <==> old(taking)@.count(token) > 0,
        seen == taken,
        taken ==> final(taking)@.count(token) == old(taking)@.count(token) - 1,
        !taken ==> final(taking)@ == old(taking)@,
        other != token ==> final(taking)@.count(other) == old(taking)@.count(other),
        empty <==> old(taking)@.len() == 0,
{
    broadcast use vstd::multiset::group_multiset_axioms;

}

/// A dropped connect's token is recorded while there is room and found once for
/// every time it was recorded; no other token's record changes.
pub proof fn a_dropped_connect_is_recorded_and_found<const N: usize>(
    fresh: ConnectCancelSet<N>,
    recording: &mut ConnectCancelSet<N>,
    taking: &mut ConnectCancelSet<N>,
    token: u64,
    taken: bool,
    empty: bool,
    other: u64,
)
    requires
        call_ensures(ConnectCancelSet::<N>::new, (), fresh),
        old(recording).wf(),
        call_ensures(ConnectCancelSet::<N>::insert, (recording, token), ()),
        old(taking).wf(),
        call_ensures(ConnectCancelSet::<N>::take, (taking, token), taken),
        call_ensures(ConnectCancelSet::<N>::is_empty, (&*old(taking),), empty),
    ensures
        fresh.wf() && fresh@.len() == 0,
        final(recording).wf() && final(taking).wf(),
        old(recording)@.len() < N ==> final(recording)@.count(token) == old(recording)@.count(token)
            + 1,
        old(recording)@.len() >= N ==> final(recording)@ == old(recording)@,
        other != token ==> final(recording)@.count(other) == old(recording)@.count(other),
        taken <==> old(taking)@.count(token) > 0,
        taken ==> final(taking)@.count(token) == old(taking)@.count(token) - 1,
        !taken ==> final(taking)@ == old(taking)@,
        other != token ==> final(taking)@.count(other) == old(taking)@.count(other),
        empty <==> old(taking)@.len() == 0,
{
    broadcast use vstd::multiset::group_multiset_axioms;

}

/// A cancel waits behind those queued before it while there is room, and is
/// dropped when there is none; the oldest leaves first.
pub proof fn a_cancel_waits_its_turn<const N: usize>(
    fresh: CancelInbox<N>,
    pushing: &mut CancelInbox<N>,
    popping: &mut CancelInbox<N>,
    key: InflightSlotKey,
    popped: Option<InflightSlotKey>,
    len: usize,
    empty: bool,
)
    requires
        call_ensures(CancelInbox::<N>::new, (), fresh),
        old(pushing).wf(),
        call_ensures(CancelInbox::<N>::push_cancel, (pushing, key), ()),
        old(popping).wf(),
        call_ensures(CancelInbox::<N>::pop, (popping,), popped),
        call_ensures(CancelInbox::<N>::len, (&*old(popping),), len),
        call_ensures(CancelInbox::<N>::is_empty, (&*old(popping),), empty),
    ensures
        fresh.wf() && fresh@.len() == 0,
        final(pushing).wf() && final(popping).wf(),
        old(pushing)@.len() < N ==> final(pushing)@ == old(pushing)@ + seq![key],
        old(pushing)@.len() >= N ==> final(pushing)@ == old(pushing)@,
        len == old(popping)@.len(),
        empty <==> len == 0,
        empty ==> popped is None && final(popping)@ == old(popping)@,
        !empty ==> (popped matches Some(oldest) && old(popping)@ == seq![oldest]
            + final(popping)@),
{
    assert(old(pushing)@.push(key) =~= old(pushing)@ + seq![key]);
    if old(popping)@.len() > 0 {
        assert(seq![old(popping)@[0]] + old(popping)@.drop_first() =~= old(popping)@);
    }
}

/// A recv cancel waits behind those queued before it while there is room, and is
/// dropped when there is none; the oldest leaves first. The inbox is refused
/// only where its memory was.
pub proof fn a_recv_cancel_waits_its_turn<const N: usize>(
    refused: Option<i32>,
    fresh: Result<RecvCancelInbox<N>, IoError>,
    pushing: &mut RecvCancelInbox<N>,
    popping: &mut RecvCancelInbox<N>,
    key: RecvMultishotSlotKey,
    popped: Option<RecvMultishotSlotKey>,
    len: usize,
    empty: bool,
)
    requires
        call_ensures(RecvCancelInbox::<N>::mapped, (refused,), fresh) || (refused is None
            && call_ensures(RecvCancelInbox::<N>::new, (), fresh)),
        old(pushing).wf(),
        call_ensures(RecvCancelInbox::<N>::push_cancel, (pushing, key), ()),
        old(popping).wf(),
        call_ensures(RecvCancelInbox::<N>::pop, (popping,), popped),
        call_ensures(RecvCancelInbox::<N>::len, (&*old(popping),), len),
        call_ensures(RecvCancelInbox::<N>::is_empty, (&*old(popping),), empty),
    ensures
        refused matches Some(errno) ==> fresh == Err::<RecvCancelInbox<N>, IoError>(
            IoError::Os(errno),
        ),
        refused is None ==> (fresh matches Ok(inbox) && inbox.wf() && inbox@.len() == 0),
        final(pushing).wf() && final(popping).wf(),
        old(pushing)@.len() < N ==> final(pushing)@ == old(pushing)@ + seq![key],
        old(pushing)@.len() >= N ==> final(pushing)@ == old(pushing)@,
        len == old(popping)@.len(),
        empty <==> len == 0,
        empty ==> popped is None && final(popping)@ == old(popping)@,
        !empty ==> (popped matches Some(oldest) && old(popping)@ == seq![oldest]
            + final(popping)@),
{
    assert(old(pushing)@.push(key) =~= old(pushing)@ + seq![key]);
    if old(popping)@.len() > 0 {
        assert(seq![old(popping)@[0]] + old(popping)@.drop_first() =~= old(popping)@);
    }
}

/// A worker's place holds what was last installed in it until it is cleared,
/// which hands it back; no other worker's place changes.
pub proof fn a_place_holds_what_was_installed<T>(
    fresh: WorkerSlots<T>,
    installing: &mut WorkerSlots<T>,
    clearing: &mut WorkerSlots<T>,
    worker_id: u8,
    value: T,
    installed: bool,
    cleared: Option<T>,
    other: int,
)
    requires
        call_ensures(WorkerSlots::<T>::new, (), fresh),
        old(installing).wf(),
        call_ensures(WorkerSlots::<T>::install, (installing, worker_id, value), ()),
        old(clearing).wf(),
        call_ensures(WorkerSlots::<T>::is_installed, (&*old(clearing), worker_id), installed),
        call_ensures(WorkerSlots::<T>::clear, (clearing, worker_id), cleared),
        0 <= other < 256,
    ensures
        fresh.wf() && fresh@.len() == 256 && fresh@[other] is None,
        final(installing).wf() && final(clearing).wf(),
        final(installing)@[worker_id as int] == Some(value),
        other != worker_id ==> final(installing)@[other] == old(installing)@[other],
        installed <==> old(clearing)@[worker_id as int] is Some,
        cleared == old(clearing)@[worker_id as int],
        final(clearing)@[worker_id as int] is None,
        other != worker_id ==> final(clearing)@[other] == old(clearing)@[other],
{
    old(installing).lemma_every_worker_has_a_slot();
    old(clearing).lemma_every_worker_has_a_slot();
}

/// A worker's place lends what is installed in it, and no other place changes.
pub proof fn a_place_lends_what_is_installed<T>(
    table: &mut WorkerSlots<T>,
    worker_id: u8,
    value: Option<&mut T>,
    other: int,
)
    requires
        old(table).wf(),
        call_ensures(WorkerSlots::<T>::get_mut, (table, worker_id), value),
        0 <= other < 256,
    ensures
        final(table).wf(),
        value is Some <==> old(table)@[worker_id as int] is Some,
        value matches Some(lent) ==> old(table)@[worker_id as int] == Some(*lent)
            && final(table)@[worker_id as int] == Some(*final(lent)),
        value is None ==> final(table)@ == old(table)@,
        other != worker_id ==> final(table)@[other] == old(table)@[other],
{
    old(table).lemma_every_worker_has_a_slot();
}

/// A run-loop's inbox is installed for its own worker and handed back, with the
/// cancels that wait in it, when the run-loop ends; no other worker's changes.
pub proof fn an_inbox_is_handed_back(
    opening: &mut CancelInboxes,
    worker_id: u8,
    inbox: CancelInbox<CANCEL_INBOX_CAPACITY>,
    guarding: CancelInboxGuard,
    ending: &mut CancelInboxes,
    taken: Option<CancelInbox<CANCEL_INBOX_CAPACITY>>,
    other: int,
)
    requires
        guard::inboxes_wf(*old(opening)),
        inbox.wf(),
        call_ensures(CancelInboxGuard::install, (opening, worker_id, inbox), guarding),
        *old(ending) == *final(opening),
        call_ensures(CancelInboxGuard::clear, (guarding, ending), taken),
        0 <= other < 256,
    ensures
        guard::inboxes_wf(*final(opening)),
        guard::inboxes_wf(*final(ending)),
        final(opening)@[worker_id as int] matches Some(open) && open@ == inbox@,
        taken matches Some(back) && back@ == inbox@,
        final(ending)@[worker_id as int] is None,
        other != worker_id ==> {
            &&& final(opening)@[other] is Some <==> old(opening)@[other] is Some
            &&& final(ending)@[other] is Some <==> old(opening)@[other] is Some
            &&& old(opening)@[other] is Some ==> final(opening)@[other]->0@ == old(
                opening,
            )@[other]->0@ && final(ending)@[other]->0@ == old(opening)@[other]->0@
        },
{
    old(opening).lemma_every_worker_has_a_slot();
    final(opening).lemma_every_worker_has_a_slot();
    final(ending).lemma_every_worker_has_a_slot();
    let before = guard::pending_cancels(*old(opening));
    let open = guard::pending_cancels(*final(opening));
    let after = guard::pending_cancels(*final(ending));
    assert(open[worker_id as int] == Some(inbox@));
    assert(after[worker_id as int] is None);
    if other != worker_id {
        assert(open[other] == before[other]);
        assert(after[other] == before[other]);
    }
}

/// A run-loop's recv inbox is installed for its own worker and handed back, with
/// the cancels that wait in it, when the run-loop ends; no other worker's
/// changes.
pub proof fn a_recv_inbox_is_handed_back(
    opening: &mut RecvCancelInboxes,
    worker_id: u8,
    inbox: RecvCancelInbox<RECV_CANCEL_INBOX_CAPACITY>,
    guarding: RecvCancelInboxGuard,
    ending: &mut RecvCancelInboxes,
    taken: Option<RecvCancelInbox<RECV_CANCEL_INBOX_CAPACITY>>,
    other: int,
)
    requires
        guard::recv_inboxes_wf(*old(opening)),
        inbox.wf(),
        call_ensures(RecvCancelInboxGuard::install, (opening, worker_id, inbox), guarding),
        *old(ending) == *final(opening),
        call_ensures(RecvCancelInboxGuard::clear, (guarding, ending), taken),
        0 <= other < 256,
    ensures
        guard::recv_inboxes_wf(*final(opening)),
        guard::recv_inboxes_wf(*final(ending)),
        final(opening)@[worker_id as int] matches Some(open) && open@ == inbox@,
        taken matches Some(back) && back@ == inbox@,
        final(ending)@[worker_id as int] is None,
        other != worker_id ==> {
            &&& final(opening)@[other] is Some <==> old(opening)@[other] is Some
            &&& final(ending)@[other] is Some <==> old(opening)@[other] is Some
            &&& old(opening)@[other] is Some ==> final(opening)@[other]->0@ == old(
                opening,
            )@[other]->0@ && final(ending)@[other]->0@ == old(opening)@[other]->0@
        },
{
    old(opening).lemma_every_worker_has_a_slot();
    final(opening).lemma_every_worker_has_a_slot();
    final(ending).lemma_every_worker_has_a_slot();
    let before = guard::pending_recv_cancels(*old(opening));
    let open = guard::pending_recv_cancels(*final(opening));
    let after = guard::pending_recv_cancels(*final(ending));
    assert(open[worker_id as int] == Some(inbox@));
    assert(after[worker_id as int] is None);
    if other != worker_id {
        assert(open[other] == before[other]);
        assert(after[other] == before[other]);
    }
}

/// What is made by default holds nothing.
pub proof fn a_default_record_is_empty<const N: usize>(
    accepts: AcceptCancelSet<N>,
    provided_recvs: ProvidedRecvCancelSet<N>,
    connects: ConnectCancelSet<N>,
    inbox: CancelInbox<N>,
)
    requires
        call_ensures(AcceptCancelSet::<N>::default, (), accepts),
        call_ensures(ProvidedRecvCancelSet::<N>::default, (), provided_recvs),
        call_ensures(ConnectCancelSet::<N>::default, (), connects),
        call_ensures(CancelInbox::<N>::default, (), inbox),
    ensures
        accepts.wf() && accepts@.len() == 0,
        provided_recvs.wf() && provided_recvs@.len() == 0,
        connects.wf() && connects@.len() == 0,
        inbox.wf() && inbox@.len() == 0,
{
}

} // verus!
