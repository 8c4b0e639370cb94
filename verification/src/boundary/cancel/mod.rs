//! Cancel records for dropped in-flight operations, and the tokens that name
//! their completions.

pub mod effects;
pub mod guard;
pub mod inbox;
pub mod token;
pub mod token_set;

pub use guard::{CancelInboxGuard, RecvCancelInboxGuard, WorkerSlots};
pub use inbox::{
    CANCEL_INBOX_CAPACITY, CancelInbox, RECV_CANCEL_INBOX_CAPACITY, RecvCancelInbox,
};
pub use token_set::{
    ACCEPT_CANCEL_CAPACITY, ACCEPT_CANCEL_SLOT, AcceptCancelSet, CONNECT_CANCEL_CAPACITY,
    CONNECT_CANCEL_SLOT, ConnectCancelSet, PROVIDED_RECV_CANCEL_CAPACITY,
    PROVIDED_RECV_CANCEL_SLOT, ProvidedRecvCancelSet,
};
pub use token::{
    MSG_RING_WAKE_USER_DATA, encode_cancel_sentinel, encode_multishot_sentinel,
    encode_recv_multishot_sentinel, is_cancel_sentinel, is_link_timeout_discard, is_msg_ring_wake,
    is_multishot_sentinel, is_recv_multishot_sentinel, multishot_sentinel_generation,
    multishot_sentinel_slot,
};
