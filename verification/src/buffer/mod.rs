//! Buffer storage, and the per-op-category registries built over it.

pub mod bitmap;
pub mod bytes;
pub mod effects;
pub mod mmap;
pub mod multishot;
pub mod oneshot;
pub mod registration;
pub mod ring;
pub mod scan;
pub mod slot;

pub use oneshot::MAX_INLINE_CAP;
