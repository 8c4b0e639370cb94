//! Errors the library reports.

use vstd::prelude::*;

verus! {

/// Error registering a buffer group or a descriptor slot.
#[derive(Debug, Clone, Copy, PartialEq, Eq, Structural)]
#[non_exhaustive]
pub enum RegisterError {
    /// Every slot is in use.
    SlotExhausted,
    /// The slot is out of bounds or was not allocated.
    InvalidArgument,
}

/// The broad class an [`IoError`] falls into.
#[derive(Debug, Clone, Copy, PartialEq, Eq, Structural)]
#[non_exhaustive]
pub enum ErrorKind {
    /// A parameter was rejected before any I/O ran.
    InvalidInput,
    /// A completion carried data that cannot be interpreted.
    InvalidData,
    /// The operation is not available for the arguments given.
    Unsupported,
    /// The kernel reported the error.
    Os,
}

/// Error from an I/O completion, or from building the storage one needs.
#[derive(Debug, Clone, Copy, PartialEq, Eq, Structural)]
#[non_exhaustive]
pub enum IoError {
    /// The kernel reported this errno.
    Os(i32),
    /// A storage region of zero bytes was asked for.
    ZeroLengthRegion,
    /// A buffer pool of zero-byte buffers was asked for.
    ZeroBufSize,
    /// A buffer ring whose entry count is zero or not a power of two.
    EntriesNotPowerOfTwo,
    /// A buffer ring with more entries than the kernel takes.
    EntriesOverMaximum,
    /// A provided recv reported bytes but no buffer that holds them.
    BufferlessData,
    /// A socket of an address family other than IPv4 and IPv6 was asked for.
    UnsupportedFamily,
}

impl IoError {
    /// The class each error falls into.
    pub open spec fn spec_kind(self) -> ErrorKind {
        match self {
            IoError::Os(_) => ErrorKind::Os,
            IoError::ZeroLengthRegion => ErrorKind::InvalidInput,
            IoError::ZeroBufSize => ErrorKind::InvalidInput,
            IoError::EntriesNotPowerOfTwo => ErrorKind::InvalidInput,
            IoError::EntriesOverMaximum => ErrorKind::InvalidInput,
            IoError::BufferlessData => ErrorKind::InvalidData,
            IoError::UnsupportedFamily => ErrorKind::Unsupported,
        }
    }

    /// The class this error falls into.
    pub fn kind(&self) -> (kind: ErrorKind)
        ensures
            kind == self.spec_kind(),
    {
        match self {
            IoError::Os(_) => ErrorKind::Os,
            IoError::ZeroLengthRegion => ErrorKind::InvalidInput,
            IoError::ZeroBufSize => ErrorKind::InvalidInput,
            IoError::EntriesNotPowerOfTwo => ErrorKind::InvalidInput,
            IoError::EntriesOverMaximum => ErrorKind::InvalidInput,
            IoError::BufferlessData => ErrorKind::InvalidData,
            IoError::UnsupportedFamily => ErrorKind::Unsupported,
        }
    }

    /// What each error says; an error of the kernel speaks for itself.
    pub open spec fn text(self) -> Option<Seq<char>> {
        match self {
            IoError::Os(_) => None,
            IoError::ZeroLengthRegion => Some("mmap length must be non-zero"@),
            IoError::ZeroBufSize => Some("buf_size must be non-zero"@),
            IoError::EntriesNotPowerOfTwo => Some("entries must be a non-zero power of two"@),
            IoError::EntriesOverMaximum => Some("entries exceeds kernel maximum 32768"@),
            IoError::BufferlessData => Some(
                "provided recv completed with data but no kernel-selected buffer"@,
            ),
            IoError::UnsupportedFamily => Some("only IPv4 and IPv6 sockets are supported"@),
        }
    }

    /// Says what went wrong, or `None` for an error of the kernel.
    pub fn message(&self) -> (text: Option<&'static str>)
        ensures
            match text {
                Some(said) => self.text() == Some(said@),
                None => self.text() is None,
            },
    {
        match self {
            IoError::Os(_) => None,
            IoError::ZeroLengthRegion => Some("mmap length must be non-zero"),
            IoError::ZeroBufSize => Some("buf_size must be non-zero"),
            IoError::EntriesNotPowerOfTwo => Some("entries must be a non-zero power of two"),
            IoError::EntriesOverMaximum => Some("entries exceeds kernel maximum 32768"),
            IoError::BufferlessData => Some(
                "provided recv completed with data but no kernel-selected buffer",
            ),
            IoError::UnsupportedFamily => Some("only IPv4 and IPv6 sockets are supported"),
        }
    }
}

/// Bad sizes are invalid input, data without a buffer is invalid data, a family
/// without sockets is unsupported, and only a system error is one; every other
/// error says what went wrong.
pub proof fn an_error_is_of_its_kind(error: IoError, kind: ErrorKind, text: Option<&'static str>)
    requires
        call_ensures(IoError::kind, (&error,), kind),
        call_ensures(IoError::message, (&error,), text),
    ensures
        error is Os <==> kind == ErrorKind::Os,
        error is Os <==> text is None,
        error is BufferlessData <==> kind == ErrorKind::InvalidData,
        error is UnsupportedFamily <==> kind == ErrorKind::Unsupported,
        error is ZeroLengthRegion || error is ZeroBufSize || error is EntriesNotPowerOfTwo
            || error is EntriesOverMaximum <==> kind == ErrorKind::InvalidInput,
        text matches Some(said) ==> {
            &&& error is ZeroLengthRegion ==> said@ == "mmap length must be non-zero"@
            &&& error is ZeroBufSize ==> said@ == "buf_size must be non-zero"@
            &&& error is EntriesNotPowerOfTwo ==> said@
                == "entries must be a non-zero power of two"@
            &&& error is EntriesOverMaximum ==> said@ == "entries exceeds kernel maximum 32768"@
            &&& error is BufferlessData ==> said@
                == "provided recv completed with data but no kernel-selected buffer"@
            &&& error is UnsupportedFamily ==> said@ == "only IPv4 and IPv6 sockets are supported"@
        },
{
}

} // verus!
