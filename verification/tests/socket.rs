use kwokka_io::addr::AddressFamily;
use kwokka_io::boundary::seam::socket::{
    Attempt, RECV_FLAGS, Retry, SEND_FLAGS, attempt_result, retry_result,
};
use kwokka_io::boundary::{adopt_accepted_fd, create_datagram_socket, create_stream_socket};
use kwokka_io::{ErrorKind, IoError};

#[test]
fn create_stream_socket_makes_an_ipv6_socket() {
    let Ok(socket) = create_stream_socket(AddressFamily::Inet6) else {
        panic!("an IPv6 stream socket must be created");
    };
    assert_eq!(socket.domain, libc::AF_INET6);
    assert_eq!(socket.socket_type & !libc::SOCK_CLOEXEC, libc::SOCK_STREAM);
    assert_eq!(socket.protocol, 0);
}

#[test]
fn create_stream_socket_sets_close_on_exec() {
    let Ok(socket) = create_stream_socket(AddressFamily::Inet6) else {
        panic!("an IPv6 stream socket must be created");
    };
    assert_ne!(socket.socket_type & libc::SOCK_CLOEXEC, 0, "the socket is close-on-exec");
}

#[test]
fn create_stream_socket_rejects_unix() {
    let Err(error) = create_stream_socket(AddressFamily::Unix) else {
        panic!("a Unix family is rejected for a TCP stream socket");
    };
    assert_eq!(error.kind(), ErrorKind::Unsupported);
}

#[test]
fn create_datagram_socket_makes_an_ipv4_socket() {
    let Ok(socket) = create_datagram_socket(AddressFamily::Inet) else {
        panic!("an IPv4 datagram socket must be created");
    };
    assert_eq!(socket.domain, libc::AF_INET);
    assert_eq!(socket.socket_type, libc::SOCK_DGRAM | libc::SOCK_CLOEXEC);
}

#[test]
fn create_datagram_socket_rejects_unix() {
    let Err(error) = create_datagram_socket(AddressFamily::Unix) else {
        panic!("a Unix family is rejected for a UDP datagram socket");
    };
    assert_eq!(error.kind(), ErrorKind::Unsupported);
    assert_eq!(error, IoError::UnsupportedFamily);
}

#[test]
fn each_stream_and_datagram_family_has_its_domain() {
    let Ok(stream) = create_stream_socket(AddressFamily::Inet) else {
        panic!("an IPv4 stream socket must be created");
    };
    let Ok(datagram) = create_datagram_socket(AddressFamily::Inet6) else {
        panic!("an IPv6 datagram socket must be created");
    };
    assert_eq!(stream.domain, libc::AF_INET);
    assert_eq!(stream.socket_type, libc::SOCK_STREAM | libc::SOCK_CLOEXEC);
    assert_eq!(datagram.domain, libc::AF_INET6);
    assert_eq!(datagram.socket_type, libc::SOCK_DGRAM | libc::SOCK_CLOEXEC);
}

#[test]
fn only_an_attempt_that_must_wait_keeps_its_descriptor() {
    assert_eq!(attempt_result(9, 4, None), Attempt::Done(4));
    assert_eq!(attempt_result(9, 0, None), Attempt::Done(0));
    assert_eq!(attempt_result(9, -1, Some(libc::EAGAIN)), Attempt::WouldBlock(9));
    assert_eq!(attempt_result(9, -1, Some(libc::EPIPE)), Attempt::Failed(-libc::EPIPE));
}

#[test]
fn a_retry_reports_what_the_syscall_did() {
    assert_eq!(retry_result(4, None), Retry::Done(4));
    assert_eq!(retry_result(-1, Some(libc::EAGAIN)), Retry::WouldBlock);
    assert_eq!(retry_result(-1, Some(libc::ECONNRESET)), Retry::Failed(-libc::ECONNRESET));
}

#[test]
fn a_failure_without_an_error_number_is_an_io_error() {
    assert_eq!(retry_result(-1, None), Retry::Failed(-libc::EIO));
    assert_eq!(attempt_result(3, -1, None), Attempt::Failed(-libc::EIO));
}

#[test]
fn a_count_past_the_completion_width_is_an_invalid_argument() {
    let top = u32::MAX as isize;
    assert_eq!(retry_result(top, None), Retry::Done(u32::MAX));
    assert_eq!(retry_result(top + 1, None), Retry::Failed(-libc::EINVAL));
}

#[test]
fn a_nonnegative_accept_result_is_a_descriptor() {
    assert_eq!(adopt_accepted_fd(0), Some(0));
    assert_eq!(adopt_accepted_fd(17), Some(17));
    assert_eq!(adopt_accepted_fd(-1), None);
    assert_eq!(adopt_accepted_fd(i32::MIN), None);
}

#[test]
fn attempts_neither_wait_nor_signal() {
    assert_eq!(RECV_FLAGS, libc::MSG_DONTWAIT);
    assert_eq!(SEND_FLAGS, libc::MSG_DONTWAIT | libc::MSG_NOSIGNAL);
}

#[test]
fn every_error_says_what_went_wrong() {
    assert_eq!(IoError::Os(5).message(), None);
    assert_eq!(IoError::ZeroLengthRegion.message(), Some("mmap length must be non-zero"));
    assert_eq!(IoError::ZeroBufSize.message(), Some("buf_size must be non-zero"));
    assert_eq!(
        IoError::EntriesNotPowerOfTwo.message(),
        Some("entries must be a non-zero power of two"),
    );
    assert_eq!(
        IoError::EntriesOverMaximum.message(),
        Some("entries exceeds kernel maximum 32768"),
    );
    assert_eq!(
        IoError::BufferlessData.message(),
        Some("provided recv completed with data but no kernel-selected buffer"),
    );
    assert_eq!(
        IoError::UnsupportedFamily.message(),
        Some("only IPv4 and IPv6 sockets are supported"),
    );
}

#[test]
fn every_error_has_its_kind() {
    assert_eq!(IoError::Os(5).kind(), ErrorKind::Os);
    assert_eq!(IoError::ZeroLengthRegion.kind(), ErrorKind::InvalidInput);
    assert_eq!(IoError::EntriesNotPowerOfTwo.kind(), ErrorKind::InvalidInput);
    assert_eq!(IoError::EntriesOverMaximum.kind(), ErrorKind::InvalidInput);
    assert_eq!(IoError::BufferlessData.kind(), ErrorKind::InvalidData);
    assert_eq!(IoError::UnsupportedFamily.kind(), ErrorKind::Unsupported);
}
