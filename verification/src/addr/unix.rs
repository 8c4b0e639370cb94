//! Unix domain socket address types.

use vstd::prelude::*;

verus! {

/// Maximum byte length of a `sun_path` field (108-byte buffer minus null
/// terminator).
pub const SUN_PATH_MAX: usize = 107;

/// Unix domain socket address.
///
/// Used with `SockAddr` for `connect`, `sendmsg`, and `recvmsg` operations on
/// Unix domain sockets. All variants store path bytes inline to avoid heap
/// allocation.
#[derive(Clone, PartialEq, Eq, Hash)]
#[non_exhaustive]
pub enum UnixAddr {
    /// Filesystem-bound path. Maximum 107 bytes (108-byte `sun_path` minus null
    /// terminator).
    Path {
        /// Path bytes (zero-padded beyond `len`).
        buf: [u8; SUN_PATH_MAX],
        /// Actual length of the path.
        len: u8,
    },
    /// Linux abstract namespace address (`sun_path[0] == 0`). Maximum 107
    /// bytes.
    ///
    /// Abstract sockets are not bound to the filesystem and disappear when the
    /// last file descriptor referring to them is closed.
    Abstract {
        /// Name bytes (zero-padded beyond `len`).
        buf: [u8; SUN_PATH_MAX],
        /// Actual length of the name.
        len: u8,
    },
    /// Unnamed (autobind or anonymous) socket.
    Unnamed,
}

/// Error constructing a [`UnixAddr`].
#[derive(Debug, Clone, Copy, PartialEq, Eq, Structural)]
#[non_exhaustive]
pub enum AddrError {
    /// Path exceeds the 107-byte `sun_path` limit.
    PathTooLong,
    /// Abstract name exceeds the 107-byte limit.
    AbstractTooLong,
}

impl AddrError {
    /// What the error says.
    pub open spec fn text(self) -> Seq<char> {
        match self {
            AddrError::PathTooLong => "unix path exceeds 107-byte sun_path limit"@,
            AddrError::AbstractTooLong => "abstract name exceeds 107-byte limit"@,
        }
    }

    /// Says what went wrong.
    pub fn message(&self) -> (text: &'static str)
        ensures
            text@ == self.text(),
    {
        match self {
            AddrError::PathTooLong => "unix path exceeds 107-byte sun_path limit",
            AddrError::AbstractTooLong => "abstract name exceeds 107-byte limit",
        }
    }
}

/// The bytes of `name` in a zero-padded `sun_path` buffer.
fn padded(name: &[u8]) -> (buf: [u8; SUN_PATH_MAX])
    requires
        name@.len() <= SUN_PATH_MAX,
    ensures
        buf@.take(name@.len() as int) == name@,
        forall|at: int| name@.len() <= at < SUN_PATH_MAX ==> buf@[at] == 0,
{
    let mut buf: [u8; SUN_PATH_MAX] = [0u8; SUN_PATH_MAX];
    let mut done: usize = 0;
    while done < name.len()
        invariant
            done <= name@.len() <= SUN_PATH_MAX,
            forall|at: int| 0 <= at < done ==> buf@[at] == name@[at],
            forall|at: int| done <= at < SUN_PATH_MAX ==> buf@[at] == 0,
        decreases name@.len() - done,
    {
        buf[done] = name[done];
        done = done + 1;
    }
    assert(buf@.take(name@.len() as int) =~= name@);
    buf
}

impl UnixAddr {
    /// The stored length lies within the buffer.
    pub open spec fn wf(&self) -> bool {
        match self {
            UnixAddr::Path { buf, len } => *len <= SUN_PATH_MAX,
            UnixAddr::Abstract { buf, len } => *len <= SUN_PATH_MAX,
            UnixAddr::Unnamed => true,
        }
    }

    /// Whether the buffer is zero past the stored length.
    pub open spec fn zero_padded(&self) -> bool {
        match self {
            UnixAddr::Path { buf, len } => forall|at: int|
                *len <= at < SUN_PATH_MAX ==> buf@[at] == 0,
            UnixAddr::Abstract { buf, len } => forall|at: int|
                *len <= at < SUN_PATH_MAX ==> buf@[at] == 0,
            UnixAddr::Unnamed => true,
        }
    }

    /// The bytes of a filesystem path.
    pub open spec fn path_view(&self) -> Option<Seq<u8>> {
        match self {
            UnixAddr::Path { buf, len } => Some(buf@.take(*len as int)),
            _ => None,
        }
    }

    /// The bytes of an abstract name.
    pub open spec fn abstract_view(&self) -> Option<Seq<u8>> {
        match self {
            UnixAddr::Abstract { buf, len } => Some(buf@.take(*len as int)),
            _ => None,
        }
    }

    /// Creates a filesystem-path Unix address from the path's bytes.
    ///
    /// # Errors
    ///
    /// Returns [`AddrError::PathTooLong`] if the path exceeds 107 bytes.
    pub fn path(path: &[u8]) -> (outcome: Result<Self, AddrError>)
        ensures
            match outcome {
                Ok(addr) => {
                    &&& path@.len() <= SUN_PATH_MAX
                    &&& addr.wf()
                    &&& addr.zero_padded()
                    &&& addr.path_view() == Some(path@)
                },
                Err(error) => path@.len() > SUN_PATH_MAX && error == AddrError::PathTooLong,
            },
    {
        if path.len() > SUN_PATH_MAX {
            return Err(AddrError::PathTooLong);
        }
        Ok(UnixAddr::Path { buf: padded(path), len: path.len() as u8 })
    }

    /// Returns the path bytes, if this is a `Path` variant.
    pub fn path_bytes(&self) -> (bytes: Option<&[u8]>)
        requires
            self.wf(),
        ensures
            match bytes {
                Some(slice) => self.path_view() == Some(slice@),
                None => self.path_view() is None,
            },
    {
        match self {
            UnixAddr::Path { buf, len } => Some(
                vstd::slice::slice_subrange(buf.as_slice(), 0, *len as usize),
            ),
            _ => None,
        }
    }

    /// Creates a Linux abstract-namespace Unix address.
    ///
    /// # Errors
    ///
    /// Returns [`AddrError::AbstractTooLong`] if `name` exceeds 107 bytes.
    pub fn abstract_(name: &[u8]) -> (outcome: Result<Self, AddrError>)
        ensures
            match outcome {
                Ok(addr) => {
                    &&& name@.len() <= SUN_PATH_MAX
                    &&& addr.wf()
                    &&& addr.zero_padded()
                    &&& addr.abstract_view() == Some(name@)
                },
                Err(error) => name@.len() > SUN_PATH_MAX && error == AddrError::AbstractTooLong,
            },
    {
        if name.len() > SUN_PATH_MAX {
            return Err(AddrError::AbstractTooLong);
        }
        Ok(UnixAddr::Abstract { buf: padded(name), len: name.len() as u8 })
    }

    /// Byte slice of the abstract name, if this is an `Abstract` variant.
    pub fn abstract_name(&self) -> (bytes: Option<&[u8]>)
        requires
            self.wf(),
        ensures
            match bytes {
                Some(slice) => self.abstract_view() == Some(slice@),
                None => self.abstract_view() is None,
            },
    {
        match self {
            UnixAddr::Abstract { buf, len } => Some(
                vstd::slice::slice_subrange(buf.as_slice(), 0, *len as usize),
            ),
            _ => None,
        }
    }
}

} // verus!
