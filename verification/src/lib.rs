//! Completion-side bookkeeping for an `io_uring` worker.

pub mod addr;
pub mod boundary;
pub mod buffer;
pub mod driver;
pub mod error;
pub mod operation;
mod sys;

pub use error::{ErrorKind, IoError, RegisterError};
