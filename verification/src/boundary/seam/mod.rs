//! The per-worker surface an I/O future polls through, and what the worker's
//! completion drain does with what comes back.

pub mod cancel;
pub mod drain;
pub mod drain_effects;
pub mod effects;
pub mod laws;
pub mod pool;
pub mod socket;
pub mod state;
pub mod state_effects;
pub mod waker;
