//! Per-worker sets of dropped single-shot ops awaiting their completion.
//!
//! A single-shot accept, connect, or provided-buffer recv holds no registry
//! slot: it submits under the polling task's token. When its future drops, the
//! token is recorded in the set of its op class, and the completion drain takes
//! it out when the op's completion arrives.

use vstd::multiset::Multiset;
use vstd::prelude::*;

verus! {

/// Pending tokens, in no particular order; a token may be pending more than
/// once.
struct TokenSet<const N: usize> {
    /// Pending tokens packed in `[0, len)`.
    tokens: [u64; N],
    /// Count of pending tokens.
    len: usize,
}

/// `tokens` with one more `token`, unless it already holds `capacity` of them.
pub open spec fn recorded(tokens: Multiset<u64>, token: u64, capacity: nat) -> Multiset<u64> {
    if tokens.len() < capacity {
        tokens.insert(token)
    } else {
        tokens
    }
}

/// A token recorded in a set with room is found there once more than before,
/// and taking it out restores the set.
pub proof fn taking_undoes_recording(tokens: Multiset<u64>, token: u64, capacity: nat)
    requires
        tokens.len() < capacity,
    ensures
        recorded(tokens, token, capacity).contains(token),
        recorded(tokens, token, capacity).remove(token) == tokens,
        recorded(tokens, token, capacity).len() == tokens.len() + 1,
{
    broadcast use vstd::multiset::group_multiset_axioms;

    assert(recorded(tokens, token, capacity).remove(token) =~= tokens);
}

impl<const N: usize> TokenSet<N> {
    spec fn pending(&self) -> Multiset<u64> {
        self.tokens@.take(self.len as int).to_multiset()
    }

    spec fn wf(&self) -> bool {
        self.len <= N
    }

    fn new() -> (set: Self)
        ensures
            set.wf(),
            set.pending() == Multiset::<u64>::empty(),
    {
        let set = TokenSet { tokens: [0u64; N], len: 0 };
        proof {
            broadcast use vstd::seq_lib::group_to_multiset_ensures;
            broadcast use vstd::multiset::group_multiset_axioms;

            assert(set.tokens@.take(0).len() == 0);
            assert(set.pending() =~= Multiset::<u64>::empty());
        }
        set
    }

    fn insert(&mut self, token: u64)
        requires
            old(self).wf(),
        ensures
            final(self).wf(),
            final(self).pending() == recorded(old(self).pending(), token, N as nat),
    {
        proof {
            vstd::seq_lib::to_multiset_len(self.tokens@.take(self.len as int));
        }
        if self.len < N {
            self.tokens[self.len] = token;
            self.len = self.len + 1;
            proof {
                let before = old(self).tokens@.take(old(self).len as int);
                assert(self.tokens@.take(self.len as int) =~= before.push(token));
                vstd::seq_lib::to_multiset_build(before, token);
            }
        }
    }

    fn take(&mut self, token: u64) -> (taken: bool)
        requires
            old(self).wf(),
        ensures
            final(self).wf(),
            taken == old(self).pending().contains(token),
            final(self).pending() == (if taken {
                old(self).pending().remove(token)
            } else {
                old(self).pending()
            }),
    {
        let ghost before = self.tokens@.take(self.len as int);
        let index: usize = match self.find(token) {
            Some(index) => index,
            None => return false,
        };
        let last: u64 = self.tokens[self.len - 1];
        self.tokens[index] = last;
        self.len = self.len - 1;
        proof {
            broadcast use vstd::multiset::group_multiset_axioms;

            let moved = before.update(index as int, last);
            vstd::seq_lib::to_multiset_update(before, index as int, last);
            vstd::seq_lib::to_multiset_remove(moved, moved.len() - 1);
            assert(moved.remove(moved.len() - 1) =~= self.tokens@.take(self.len as int));
            vstd::seq_lib::to_multiset_contains(before, last);
            assert(before[before.len() - 1] == last);
            assert(self.pending() =~= before.to_multiset().remove(token));
        }
        true
    }

    /// A place that holds `token`.
    fn find(&self, token: u64) -> (place: Option<usize>)
        requires
            self.wf(),
        ensures
            match place {
                Some(index) => index < self.len && self.tokens@[index as int] == token
                    && self.pending().contains(token),
                None => !self.pending().contains(token),
            },
    {
        let ghost pending = self.tokens@.take(self.len as int);
        proof {
            vstd::seq_lib::to_multiset_contains(pending, token);
        }
        let mut index: usize = 0;
        while index < self.len
            invariant
                index <= self.len,
                self.wf(),
                pending == self.tokens@.take(self.len as int),
                pending.contains(token) <==> self.pending().contains(token),
                forall|earlier: int| 0 <= earlier < index ==> pending[earlier] != token,
            decreases self.len - index,
        {
            if self.tokens[index] == token {
                assert(pending[index as int] == token);
                return Some(index);
            }
            index = index + 1;
        }
        None
    }

    fn is_empty(&self) -> (flag: bool)
        requires
            self.wf(),
        ensures
            flag == (self.pending().len() == 0),
    {
        proof {
            vstd::seq_lib::to_multiset_len(self.tokens@.take(self.len as int));
        }
        self.len == 0
    }
}

/// Per-worker capacity for pending single-shot accept cancels.
///
/// Holds a token from a dropped `accept()` between its cancel submission and
/// the op's completion. The window is short (usually one drain), so a small set
/// suffices; a full set drops the record, a bounded leak of one descriptor.
pub const ACCEPT_CANCEL_CAPACITY: usize = 32;

/// In-flight key `slot` marker for a slotless single-shot accept cancel.
///
/// Routes the cancel to the accept path rather than the buffered-op path; no
/// real slab slot reaches it.
pub const ACCEPT_CANCEL_SLOT: u16 = 0xFFFF;

/// Per-worker capacity for pending provided-recv cancels.
///
/// A provided-buffer recv holds no registry slot, so nothing structural bounds
/// how many can be dropped between drains. Sized to the provided-buffer ring
/// itself -- at most every pool entry can be awaiting disposal at once.
pub const PROVIDED_RECV_CANCEL_CAPACITY: usize = 256;

/// In-flight key `slot` marker for a slotless provided-recv cancel.
///
/// Routes the cancel to the provided-recv path rather than the buffered-op
/// path; no real slab slot reaches it.
pub const PROVIDED_RECV_CANCEL_SLOT: u16 = 0xFFFE;

/// Per-worker capacity for pending single-shot connect cancels.
///
/// A connect submits at most once per worker, so the window holds few tokens; a
/// full set drops the record, at worst re-exposing the stray-wake window for
/// that one token.
pub const CONNECT_CANCEL_CAPACITY: usize = 8;

/// In-flight key `slot` marker for a slotless single-shot connect cancel.
///
/// Routes the cancel to the connect path rather than the buffered-op path; no
/// real slab slot reaches it.
pub const CONNECT_CANCEL_SLOT: u16 = 0xFFFD;

/// Per-worker set of dropped single-shot accepts awaiting their completion.
///
/// A dropped `accept()` cancels its op and records the op's token here; the
/// completion drain closes the accepted fd if the op still produced one, rather
/// than orphaning it in the task wake slot.
///
/// Its view is the multiset of pending tokens.
pub struct AcceptCancelSet<const N: usize> {
    pending: TokenSet<N>,
}

impl<const N: usize> View for AcceptCancelSet<N> {
    type V = Multiset<u64>;

    closed spec fn view(&self) -> Multiset<u64> {
        self.pending.pending()
    }
}

impl<const N: usize> AcceptCancelSet<N> {
    /// No more than `N` tokens are pending.
    pub closed spec fn wf(&self) -> bool {
        self.pending.wf()
    }

    /// Creates an empty set.
    #[must_use]
    pub fn new() -> (set: Self)
        ensures
            set.wf(),
            set@ == Multiset::<u64>::empty(),
    {
        AcceptCancelSet { pending: TokenSet::new() }
    }

    /// Records `token` as a cancelled accept awaiting disposal.
    ///
    /// A full set drops the record, and the caller does not retry.
    pub fn insert(&mut self, token: u64)
        requires
            old(self).wf(),
        ensures
            final(self).wf(),
            final(self)@ == recorded(old(self)@, token, N as nat),
    {
        self.pending.insert(token);
    }

    /// Removes `token` if pending, reporting whether it was.
    pub fn take(&mut self, token: u64) -> (taken: bool)
        requires
            old(self).wf(),
        ensures
            final(self).wf(),
            taken == old(self)@.contains(token),
            final(self)@ == (if taken {
                old(self)@.remove(token)
            } else {
                old(self)@
            }),
    {
        self.pending.take(token)
    }

    /// `true` when no cancelled accept is pending.
    pub fn is_empty(&self) -> (flag: bool)
        requires
            self.wf(),
        ensures
            flag == (self@.len() == 0),
    {
        self.pending.is_empty()
    }
}

impl<const N: usize> Default for AcceptCancelSet<N> {
    fn default() -> (set: Self)
        ensures
            set.wf(),
            set@ == Multiset::<u64>::empty(),
    {
        Self::new()
    }
}

/// Per-worker set of dropped provided-buffer recvs awaiting their completion.
///
/// A dropped provided recv cancels its op and records the op's token here; the
/// completion drain recycles the kernel-selected buffer if the op still
/// consumed one, rather than orphaning the buffer id in the task wake slot.
///
/// Its view is the multiset of pending tokens.
pub struct ProvidedRecvCancelSet<const N: usize> {
    pending: TokenSet<N>,
}

impl<const N: usize> View for ProvidedRecvCancelSet<N> {
    type V = Multiset<u64>;

    closed spec fn view(&self) -> Multiset<u64> {
        self.pending.pending()
    }
}

impl<const N: usize> ProvidedRecvCancelSet<N> {
    /// No more than `N` tokens are pending.
    pub closed spec fn wf(&self) -> bool {
        self.pending.wf()
    }

    /// Creates an empty set.
    #[must_use]
    pub fn new() -> (set: Self)
        ensures
            set.wf(),
            set@ == Multiset::<u64>::empty(),
    {
        ProvidedRecvCancelSet { pending: TokenSet::new() }
    }

    /// Records `token` as a cancelled provided recv awaiting disposal.
    ///
    /// A full set drops the record, and the caller does not retry.
    pub fn insert(&mut self, token: u64)
        requires
            old(self).wf(),
        ensures
            final(self).wf(),
            final(self)@ == recorded(old(self)@, token, N as nat),
    {
        self.pending.insert(token);
    }

    /// Removes `token` if pending, reporting whether it was.
    pub fn take(&mut self, token: u64) -> (taken: bool)
        requires
            old(self).wf(),
        ensures
            final(self).wf(),
            taken == old(self)@.contains(token),
            final(self)@ == (if taken {
                old(self)@.remove(token)
            } else {
                old(self)@
            }),
    {
        self.pending.take(token)
    }

    /// Whether `token` is pending.
    pub fn contains(&self, token: u64) -> (flag: bool)
        requires
            self.wf(),
        ensures
            flag == self@.contains(token),
    {
        self.pending.find(token).is_some()
    }

    /// `true` when no cancelled provided recv is pending.
    pub fn is_empty(&self) -> (flag: bool)
        requires
            self.wf(),
        ensures
            flag == (self@.len() == 0),
    {
        self.pending.is_empty()
    }
}

impl<const N: usize> Default for ProvidedRecvCancelSet<N> {
    fn default() -> (set: Self)
        ensures
            set.wf(),
            set@ == Multiset::<u64>::empty(),
    {
        Self::new()
    }
}

/// Per-worker set of dropped single-shot connects awaiting their completion.
///
/// A dropped `connect()` cancels its op and records the op's token here. Unlike
/// accept, a connect produces no descriptor (success is result `0`, not an fd),
/// so the completion drain disposes nothing -- the set exists to divert the
/// belated completion out of the generic task-token path, so a stray result
/// never overwrites a live task's wake slot.
///
/// Its view is the multiset of pending tokens.
pub struct ConnectCancelSet<const N: usize> {
    pending: TokenSet<N>,
}

impl<const N: usize> View for ConnectCancelSet<N> {
    type V = Multiset<u64>;

    closed spec fn view(&self) -> Multiset<u64> {
        self.pending.pending()
    }
}

impl<const N: usize> ConnectCancelSet<N> {
    /// No more than `N` tokens are pending.
    pub closed spec fn wf(&self) -> bool {
        self.pending.wf()
    }

    /// Creates an empty set.
    #[must_use]
    pub fn new() -> (set: Self)
        ensures
            set.wf(),
            set@ == Multiset::<u64>::empty(),
    {
        ConnectCancelSet { pending: TokenSet::new() }
    }

    /// Records `token` as a cancelled connect awaiting disposal.
    ///
    /// A full set drops the record, and the caller does not retry.
    pub fn insert(&mut self, token: u64)
        requires
            old(self).wf(),
        ensures
            final(self).wf(),
            final(self)@ == recorded(old(self)@, token, N as nat),
    {
        self.pending.insert(token);
    }

    /// Removes `token` if pending, reporting whether it was.
    pub fn take(&mut self, token: u64) -> (taken: bool)
        requires
            old(self).wf(),
        ensures
            final(self).wf(),
            taken == old(self)@.contains(token),
            final(self)@ == (if taken {
                old(self)@.remove(token)
            } else {
                old(self)@
            }),
    {
        self.pending.take(token)
    }

    /// `true` when no cancelled connect is pending.
    pub fn is_empty(&self) -> (flag: bool)
        requires
            self.wf(),
        ensures
            flag == (self@.len() == 0),
    {
        self.pending.is_empty()
    }
}

impl<const N: usize> Default for ConnectCancelSet<N> {
    fn default() -> (set: Self)
        ensures
            set.wf(),
            set@ == Multiset::<u64>::empty(),
    {
        Self::new()
    }
}

} // verus!
