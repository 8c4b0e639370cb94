//! Decoding the polling task's binding out of its waker.

use vstd::prelude::*;

verus! {

/// The task-side binding an I/O future needs from its waker.
#[derive(Debug, Clone, Copy, PartialEq, Eq, Structural)]
pub struct WakerBinding {
    /// Raw task identity token, embedded as the request's `user_data` so the
    /// completion drain routes the completion back to the submitting task.
    pub token: u64,
    /// Worker id the task is resident on -- the key of the worker's seam.
    pub worker_id: u8,
}

/// The place a runtime registers its waker decoder in.
///
/// A decoder translates a task's waker into its binding, and returns `None` for
/// a waker the runtime did not build (a combinator wrapper, a noop waker), in
/// which case the future must not submit.
///
/// Its view is the registered decoder, if any.
pub struct DecoderSlot<D> {
    decoder: Option<D>,
}

impl<D> View for DecoderSlot<D> {
    type V = Option<D>;

    closed spec fn view(&self) -> Option<D> {
        self.decoder
    }
}

impl<D> DecoderSlot<D> {
    /// Creates a place with no decoder registered.
    pub fn new() -> (slot: Self)
        ensures
            slot@ is None,
    {
        DecoderSlot { decoder: None }
    }
}

/// What a place holds once `decoder` is registered in it: the first
/// registration stays.
pub open spec fn registered<D>(slot: Option<D>, decoder: D) -> Option<D> {
    match slot {
        Some(first) => Some(first),
        None => Some(decoder),
    }
}

/// The first registration wins: a later one changes nothing, so registering the
/// same decoder again is harmless.
pub proof fn first_registration_wins<D>(slot: Option<D>, first: D, later: D)
    ensures
        registered(None, first) == Some(first),
        registered(registered(slot, first), later) == registered(slot, first),
{
}

/// Registers the runtime's waker decoder, keeping the first registration.
///
/// Called by the runtime before any task polls. Idempotent: a runtime rebuilt
/// in the same process re-registers the same decoding, so first-wins is the
/// correct merge.
pub fn register_decoder<D>(slot: &mut DecoderSlot<D>, decoder: D)
    ensures
        final(slot)@ == registered(old(slot)@, decoder),
{
    if slot.decoder.is_none() {
        slot.decoder = Some(decoder);
    }
}

/// Decodes the polling task's seam binding from its waker.
///
/// Returns `None` before the runtime registered a decoder, or when the decoder
/// does not know the waker -- a future must treat both as "do not submit".
pub fn decode_waker<W, D: Fn(&W) -> Option<WakerBinding>>(slot: &DecoderSlot<D>, waker: &W) -> (
    binding: Option<WakerBinding>)
    requires
        slot@ matches Some(decoder) ==> call_requires(decoder, (waker,)),
    ensures
        match slot@ {
            Some(decoder) => call_ensures(decoder, (waker,), binding),
            None => binding is None,
        },
{
    match &slot.decoder {
        Some(decoder) => decoder(waker),
        None => None,
    }
}

} // verus!
