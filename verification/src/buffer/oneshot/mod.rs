//! The per-worker registry for single-shot ops that carry a caller buffer.
//!
//! Where a multishot registry tracks streams the kernel keeps feeding, this one
//! owns the bytes of one op at a time, from submit until the completion drain
//! reclaims them.

pub mod effects;
pub mod inflight;
pub mod laws;

pub use inflight::MAX_INLINE_CAP;
