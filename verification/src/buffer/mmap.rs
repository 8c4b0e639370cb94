//! Fixed-length zero-filled byte region for address-stable buffer storage.
//!
//! A region is allocated once and never grown, so its bytes keep their address
//! for as long as it lives -- the stability the `io_uring` kernel ABI asks of
//! registered and provided buffers.

use vstd::prelude::*;

use crate::error::IoError;

verus! {

/// A fixed number of bytes, all zero when the region is created.
pub struct MmapRegion {
    bytes: Vec<u8>,
}

impl View for MmapRegion {
    type V = Seq<u8>;

    closed spec fn view(&self) -> Seq<u8> {
        self.bytes@
    }
}

/// Why a region of `len` bytes cannot be had, with `refused` the system's
/// answer, or `None` when it can.
pub open spec fn region_error(len: int, refused: Option<i32>) -> Option<IoError> {
    if len == 0 {
        Some(IoError::ZeroLengthRegion)
    } else {
        match refused {
            Some(errno) => Some(IoError::Os(errno)),
            None => None,
        }
    }
}

/// The error of the first of two regions that the system refused, asked for in
/// this order.
pub open spec fn first_refusal(first: Option<i32>, second: Option<i32>) -> Option<IoError> {
    match (first, second) {
        (Some(errno), _) => Some(IoError::Os(errno)),
        (None, Some(errno)) => Some(IoError::Os(errno)),
        (None, None) => None,
    }
}

impl MmapRegion {
    /// Allocates a region of `len` zero bytes that the system grants.
    ///
    /// # Errors
    ///
    /// Returns [`IoError::ZeroLengthRegion`] if `len` is zero.
    pub fn new(len: usize) -> (outcome: Result<Self, IoError>)
        ensures
            match outcome {
                Ok(region) => len > 0 && region@ == Seq::new(len as nat, |at: int| 0u8),
                Err(error) => len == 0 && error == IoError::ZeroLengthRegion,
            },
    {
        Self::mapped(len, None)
    }

    /// Allocates a region of `len` zero bytes, with `refused` the errno the
    /// system gave when it was asked to map them, or `None` where it granted
    /// them.
    ///
    /// # Errors
    ///
    /// Returns [`IoError::ZeroLengthRegion`] if `len` is zero, which the system
    /// is not asked for, and otherwise the errno of a refusal.
    pub fn mapped(len: usize, refused: Option<i32>) -> (outcome: Result<Self, IoError>)
        ensures
            match outcome {
                Ok(region) => {
                    &&& region_error(len as int, refused) is None
                    &&& region@ == Seq::new(len as nat, |at: int| 0u8)
                },
                Err(error) => region_error(len as int, refused) == Some(error),
            },
    {
        if len == 0 {
            return Err(IoError::ZeroLengthRegion);
        }
        if let Some(errno) = refused {
            return Err(IoError::Os(errno));
        }
        let region = MmapRegion { bytes: vec![0u8; len] };
        assert(region@ =~= Seq::new(len as nat, |at: int| 0u8));
        Ok(region)
    }

    /// Length in bytes.
    pub fn len(&self) -> (len: usize)
        ensures
            len == self@.len(),
    {
        self.bytes.len()
    }

    /// Views the region as a byte slice.
    pub fn as_slice(&self) -> (slice: &[u8])
        ensures
            slice@ == self@,
    {
        self.bytes.as_slice()
    }

    /// Views `len` bytes of the region, starting at `at`.
    pub fn range(&self, at: usize, len: usize) -> (slice: &[u8])
        requires
            at + len <= self@.len(),
        ensures
            slice@ == self@.subrange(at as int, at + len),
    {
        let slice = self.bytes.as_slice();
        assert(slice.len() == slice@.len());
        vstd::slice::slice_subrange(slice, at, at + len)
    }

    /// Reads the byte at `at`.
    pub fn get(&self, at: usize) -> (byte: u8)
        requires
            at < self@.len(),
        ensures
            byte == self@[at as int],
    {
        self.bytes[at]
    }

    /// Writes `byte` at `at`.
    pub fn set(&mut self, at: usize, byte: u8)
        requires
            at < old(self)@.len(),
        ensures
            final(self)@ == old(self)@.update(at as int, byte),
    {
        self.bytes[at] = byte;
    }

    /// Copies `src` into the region, starting at `at`.
    pub fn copy_in(&mut self, at: usize, src: &[u8])
        requires
            at + src@.len() <= old(self)@.len(),
        ensures
            final(self)@ == overwritten(old(self)@, at as int, src@),
    {
        let total: usize = self.bytes.len();
        let mut done: usize = 0;
        while done < src.len()
            invariant
                done <= src@.len(),
                total == self@.len(),
                self@.len() == old(self)@.len(),
                at + src@.len() <= self@.len(),
                forall|index: int|
                    0 <= index < self@.len() ==> self@[index] == (if at <= index < at + done {
                        src@[index - at]
                    } else {
                        old(self)@[index]
                    }),
            decreases src@.len() - done,
        {
            self.bytes[at + done] = src[done];
            done = done + 1;
        }
        assert(self@ =~= overwritten(old(self)@, at as int, src@));
    }
}

/// `bytes` with `src` in place of the bytes from `at` on, as far as `src`
/// reaches.
pub open spec fn overwritten(bytes: Seq<u8>, at: int, src: Seq<u8>) -> Seq<u8> {
    Seq::new(
        bytes.len(),
        |index: int|
            if at <= index < at + src.len() {
                src[index - at]
            } else {
                bytes[index]
            },
    )
}

} // verus!
