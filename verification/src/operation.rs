//! What a worker asks of its I/O backend, and what it hears back.

use vstd::prelude::*;

use crate::buffer::slot::BufGroupId;

verus! {

/// Names a submitted operation by its `user_data`.
#[derive(Debug, Clone, Copy, PartialEq, Eq, Structural)]
pub struct SubmitToken(pub u64);

impl SubmitToken {
    /// Names the operation submitted with `user_data`.
    pub fn new(user_data: u64) -> (token: Self)
        ensures
            token == SubmitToken(user_data),
    {
        SubmitToken(user_data)
    }

    /// The `user_data` the operation was submitted with.
    pub fn raw(self) -> (user_data: u64)
        ensures
            user_data == self.0,
    {
        self.0
    }
}

/// Outcome of handing a request to the backend.
#[derive(Debug, Clone, Copy, PartialEq, Eq, Structural)]
pub enum SubmitResult {
    /// The request is queued for the kernel under this token.
    Submitted(SubmitToken),
    /// The submission queue is full; nothing was queued.
    QueueFull,
    /// The backend or the kernel lacks the operation; nothing was queued.
    Unsupported,
}

/// Names of the bits in a completion's flag word.
pub struct CqeFlags {}

impl CqeFlags {
    /// No flag.
    pub const EMPTY: u32 = 0;

    /// More completions follow for the same operation (`IORING_CQE_F_MORE`).
    pub const MORE: u32 = 2;

    /// Whether the flag word announces more completions for the operation.
    pub open spec fn more(flags: u32) -> bool {
        flags / 2 % 2 == 1
    }

    /// Whether the flag word announces more completions for the operation.
    pub fn has_more(flags: u32) -> (flag: bool)
        ensures
            flag == Self::more(flags),
    {
        proof {
            lemma_more_bit(flags);
        }
        flags & Self::MORE == Self::MORE
    }
}

proof fn lemma_more_bit(flags: u32)
    by (bit_vector)
    ensures
        (flags & 2 == 2) == (flags / 2 % 2 == 1),
{
}

/// The operation a request asks for.
#[derive(Debug, Clone, Copy, PartialEq, Eq, Structural)]
pub enum IoOp {
    /// Accept one connection on a listening socket.
    Accept {
        /// Listening socket.
        fd: i32,
    },
    /// Complete after a delay.
    Timeout {
        /// Delay in nanoseconds.
        deadline_ns: u64,
    },
    /// Bound the operation queued just before by a delay.
    LinkTimeout {
        /// Delay in nanoseconds.
        deadline_ns: u64,
    },
    /// Cancel a submitted operation.
    Cancel {
        /// Operation to cancel.
        target: SubmitToken,
    },
    /// Receive into an in-flight slot.
    Recv {
        /// Socket to read.
        fd: i32,
        /// Byte offset of the slot in the registry's storage.
        offset: usize,
        /// Most bytes to receive.
        len: u32,
    },
    /// Send from an in-flight slot.
    Send {
        /// Socket to write.
        fd: i32,
        /// Byte offset of the slot in the registry's storage.
        offset: usize,
        /// Bytes to send.
        len: u32,
    },
    /// Receive once into a buffer the kernel picks.
    RecvProvided {
        /// Socket to read.
        fd: i32,
        /// Group the kernel picks a buffer from.
        group: BufGroupId,
    },
    /// Receive until cancelled, each time into a buffer the kernel picks.
    RecvMultishotProvided {
        /// Socket to read.
        fd: i32,
        /// Group the kernel picks buffers from.
        group: BufGroupId,
    },
}

/// One request to the backend.
#[derive(Debug, Clone, Copy, PartialEq, Eq, Structural)]
pub struct IoRequest {
    /// The operation asked for.
    pub op: IoOp,
    /// Value the completion carries back.
    pub user_data: u64,
}

impl IoRequest {
    /// A request that completes after `deadline_ns` nanoseconds.
    pub fn timeout(deadline_ns: u64) -> (request: Self)
        ensures
            request == (IoRequest { op: IoOp::Timeout { deadline_ns }, user_data: 0 }),
    {
        IoRequest { op: IoOp::Timeout { deadline_ns }, user_data: 0 }
    }

    /// A request that cancels `target`.
    pub fn cancel(target: SubmitToken) -> (request: Self)
        ensures
            request == (IoRequest { op: IoOp::Cancel { target }, user_data: 0 }),
    {
        IoRequest { op: IoOp::Cancel { target }, user_data: 0 }
    }

    /// A request that receives once on `fd` into a buffer of `group`.
    pub fn recv_provided(fd: i32, group: BufGroupId) -> (request: Self)
        ensures
            request == (IoRequest { op: IoOp::RecvProvided { fd, group }, user_data: 0 }),
    {
        IoRequest { op: IoOp::RecvProvided { fd, group }, user_data: 0 }
    }

    /// A request that receives on `fd` until cancelled, each time into a buffer
    /// of `group`.
    pub fn recv_multishot_provided(fd: i32, group: BufGroupId) -> (request: Self)
        ensures
            request == (IoRequest { op: IoOp::RecvMultishotProvided { fd, group }, user_data: 0 }),
    {
        IoRequest { op: IoOp::RecvMultishotProvided { fd, group }, user_data: 0 }
    }

    /// The same request, carrying `user_data` back in its completion.
    pub fn with_user_data(self, user_data: u64) -> (request: Self)
        ensures
            request == (IoRequest { user_data, ..self }),
    {
        IoRequest { op: self.op, user_data }
    }
}

/// The request a worker submits to cancel the operation `target`.
pub open spec fn cancel_request(target: u64, user_data: u64) -> IoRequest {
    IoRequest { op: IoOp::Cancel { target: SubmitToken(target) }, user_data }
}

/// A caller's buffer: room for a fixed number of bytes, the first of which are
/// initialized.
///
/// Its view is the initialized bytes.
pub struct IoBuf {
    data: Vec<u8>,
    init: usize,
}

impl View for IoBuf {
    type V = Seq<u8>;

    closed spec fn view(&self) -> Seq<u8> {
        self.data@.take(self.init as int)
    }
}

impl IoBuf {
    /// The initialized bytes lie within the buffer.
    pub closed spec fn wf(&self) -> bool {
        self.init <= self.data@.len()
    }

    /// Most bytes the buffer can hold.
    pub closed spec fn room(&self) -> nat {
        self.data@.len()
    }

    /// An empty buffer with room for `capacity` bytes.
    pub fn with_capacity(capacity: usize) -> (buf: Self)
        ensures
            buf.wf(),
            buf@ == Seq::<u8>::empty(),
            buf.room() == capacity,
    {
        let buf = IoBuf { data: vec![0u8; capacity], init: 0 };
        assert(buf@ =~= Seq::<u8>::empty());
        buf
    }

    /// A full buffer that holds `bytes`.
    pub fn from_bytes(bytes: Vec<u8>) -> (buf: Self)
        ensures
            buf.wf(),
            buf@ == bytes@,
            buf.room() == bytes@.len(),
    {
        let init: usize = bytes.len();
        let buf = IoBuf { data: bytes, init };
        assert(buf@ =~= bytes@);
        buf
    }

    /// Number of initialized bytes.
    pub fn bytes_init(&self) -> (init: usize)
        requires
            self.wf(),
        ensures
            init == self@.len(),
    {
        self.init
    }

    /// Most bytes the buffer can hold.
    pub fn capacity(&self) -> (capacity: usize)
        ensures
            capacity == self.room(),
    {
        self.data.len()
    }

    /// Borrows the initialized bytes.
    pub fn as_slice(&self) -> (slice: &[u8])
        requires
            self.wf(),
        ensures
            slice@ == self@,
    {
        vstd::slice::slice_subrange(self.data.as_slice(), 0, self.init)
    }

    /// Replaces the initialized bytes by the front of `src`, as far as there is
    /// room, returning how many were copied.
    pub fn fill(&mut self, src: &[u8]) -> (copied: usize)
        requires
            old(self).wf(),
        ensures
            final(self).wf(),
            final(self).room() == old(self).room(),
            copied == (if src@.len() <= old(self).room() {
                src@.len()
            } else {
                old(self).room()
            }),
            final(self)@ == src@.take(copied as int),
    {
        let count: usize = if src.len() <= self.data.len() {
            src.len()
        } else {
            self.data.len()
        };
        let mut done: usize = 0;
        while done < count
            invariant
                done <= count <= src@.len(),
                count <= self.data@.len(),
                self.data@.len() == old(self).data@.len(),
                forall|at: int| 0 <= at < done ==> self.data@[at] == src@[at],
            decreases count - done,
        {
            self.data[done] = src[done];
            done = done + 1;
        }
        self.init = count;
        assert(self@ =~= src@.take(count as int));
        count
    }
}

/// Byte offset, within a slot, of a message's peer address; the bytes before it
/// hold the header structures.
pub const MSG_ADDR_OFFSET: usize = 128;

/// Byte offset, within a slot, of a message's payload.
pub const MSG_PAYLOAD_OFFSET: usize = 256;

/// Most payload bytes a message slot holds: the stride without the header and
/// the address.
pub const MAX_MSG_INLINE_CAP: usize = 3840;

/// Where the parts of a message lie in the in-flight registry's storage.
///
/// The run-loop builds the kernel's `msghdr` and `iovec` from it, in the header
/// bytes of the slot.
#[derive(Debug, Clone, Copy, PartialEq, Eq, Structural)]
pub struct MsgLayout {
    /// Byte offset of the header structures.
    pub header: usize,
    /// Byte offset of the peer address.
    pub addr: usize,
    /// Bytes of the peer address that count.
    pub addr_len: u32,
    /// Byte offset of the payload.
    pub payload: usize,
    /// Bytes of the payload.
    pub payload_len: usize,
}

impl MsgLayout {
    /// The layout of a message in the slot at `offset`.
    pub open spec fn at(offset: int, addr_len: int, payload_len: int) -> MsgLayout {
        MsgLayout {
            header: offset as usize,
            addr: (offset + MSG_ADDR_OFFSET) as usize,
            addr_len: addr_len as u32,
            payload: (offset + MSG_PAYLOAD_OFFSET) as usize,
            payload_len: payload_len as usize,
        }
    }
}

/// More completions follow exactly when bit 1 of the flags is set.
pub proof fn more_is_bit_one(flags: u32, flag: bool)
    requires
        call_ensures(CqeFlags::has_more, (flags,), flag),
    ensures
        flag <==> flags & 2 == 2,
{
    lemma_more_bit(flags);
}

/// A request asks for what it was built for, under the tag it was last given.
pub proof fn a_request_asks_for_what_it_was_built_for(
    deadline_ns: u64,
    target: SubmitToken,
    fd: i32,
    group: BufGroupId,
    user_data: u64,
    timeout: IoRequest,
    cancel: IoRequest,
    recv: IoRequest,
    multishot: IoRequest,
    any: IoRequest,
    tagged: IoRequest,
    token: SubmitToken,
    raw: u64,
)
    requires
        call_ensures(IoRequest::timeout, (deadline_ns,), timeout),
        call_ensures(IoRequest::cancel, (target,), cancel),
        call_ensures(IoRequest::recv_provided, (fd, group), recv),
        call_ensures(IoRequest::recv_multishot_provided, (fd, group), multishot),
        call_ensures(IoRequest::with_user_data, (any, user_data), tagged),
        call_ensures(SubmitToken::new, (user_data,), token),
        call_ensures(SubmitToken::raw, (target,), raw),
    ensures
        timeout.op == (IoOp::Timeout { deadline_ns }) && timeout.user_data == 0,
        cancel.op == (IoOp::Cancel { target }) && cancel.user_data == 0,
        recv.op == (IoOp::RecvProvided { fd, group }) && recv.user_data == 0,
        multishot.op == (IoOp::RecvMultishotProvided { fd, group }) && multishot.user_data == 0,
        tagged.op == any.op && tagged.user_data == user_data,
        token.0 == user_data,
        raw == target.0,
{
}

/// A buffer holds what it is made from or filled with, as far as it has room,
/// and nothing before that; it says how much, and reads it back.
pub proof fn a_buffer_holds_what_it_is_filled_with(
    capacity: usize,
    fresh: IoBuf,
    bytes: Vec<u8>,
    made: IoBuf,
    buf: &mut IoBuf,
    src: &[u8],
    copied: usize,
    init: usize,
    room: usize,
    slice: &[u8],
)
    requires
        call_ensures(IoBuf::with_capacity, (capacity,), fresh),
        call_ensures(IoBuf::from_bytes, (bytes,), made),
        old(buf).wf(),
        call_ensures(IoBuf::fill, (buf, src), copied),
        call_ensures(IoBuf::bytes_init, (&*final(buf),), init),
        call_ensures(IoBuf::capacity, (&*final(buf),), room),
        call_ensures(IoBuf::as_slice, (&*final(buf),), slice),
    ensures
        fresh.wf() && fresh@.len() == 0 && fresh.room() == capacity,
        made.wf() && made@ == bytes@ && made.room() == bytes@.len(),
        final(buf).wf() && final(buf).room() == old(buf).room() && room == old(buf).room(),
        src@.len() <= room ==> copied == src@.len(),
        src@.len() > room ==> copied == room,
        init == copied && slice@.len() == copied && slice@ == final(buf)@,
        forall|at: int| 0 <= at < copied ==> #[trigger] slice@[at] == src@[at],
{
}

} // verus!
