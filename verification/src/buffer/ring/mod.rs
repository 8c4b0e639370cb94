//! Provided buffer ring types: kernel ABI entry, ring handle, and pool.

pub mod abi;
pub mod effects;
pub mod memory;
pub mod pool;
pub mod provided;

pub use abi::BufRingEntry;
pub use memory::BufRing;
pub use pool::BufRingPool;
pub use provided::ProvidedBuf;
