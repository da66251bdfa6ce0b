use std::io::{Error, ErrorKind};
use udp_mangler::listener::{on_receive, on_receive_failure, packet_from_datagram, reset_buffer, ListenerAction};
use udp_mangler::packet::Packet;
use udp_mangler::worker::FailureKind;

#[test]
fn reset_buffer_fills_with_zeros() {
    let mut buffer = vec![1, 2, 3];
    reset_buffer(&mut buffer, 5);
    assert_eq!(buffer, vec![0; 5]);
    reset_buffer(&mut buffer, 2);
    assert_eq!(buffer, vec![0; 2]);
    reset_buffer(&mut buffer, 0);
    assert!(buffer.is_empty());
}

#[test]
fn datagram_becomes_a_packet_of_exactly_its_bytes() {
    let buffer = [9, 8, 7, 6, 0, 0, 0, 0];
    let packet = packet_from_datagram(&buffer, 4, 1234);
    assert_eq!(packet, Some(Packet { release_time: 1234, content: vec![9, 8, 7, 6] }));
}

#[test]
fn empty_datagram_becomes_an_empty_packet() {
    let buffer = [0u8; 8];
    let packet = packet_from_datagram(&buffer, 0, 1);
    assert_eq!(packet, Some(Packet { release_time: 1, content: vec![] }));
}

#[test]
fn datagram_that_fills_the_buffer_is_discarded() {
    let buffer = [1u8; 8];
    assert_eq!(packet_from_datagram(&buffer, 8, 0), None);
    assert_eq!(packet_from_datagram(&buffer, 9, 0), None);
    assert!(packet_from_datagram(&buffer, 7, 0).is_some());
}

#[test]
fn nothing_fits_an_empty_buffer() {
    assert_eq!(packet_from_datagram(&[], 0, 0), None);
}

#[test]
fn transient_receive_failure_is_passed_over() {
    let would_block = on_receive_failure(FailureKind::WouldBlock, Error::from(ErrorKind::WouldBlock));
    assert!(matches!(would_block, ListenerAction::Retry));
    let timed_out = on_receive_failure(FailureKind::TimedOut, Error::from(ErrorKind::TimedOut));
    assert!(matches!(timed_out, ListenerAction::Retry));
}

#[test]
fn other_receive_failure_is_reported() {
    let action = on_receive_failure(FailureKind::Other, Error::new(ErrorKind::PermissionDenied, "denied"));
    match action {
        ListenerAction::Fail(err) => {
            assert_eq!(err.kind(), ErrorKind::PermissionDenied);
            assert_eq!(err.to_string(), "denied");
        }
        other => panic!("expected a failure, got {:?}", other),
    }
}

#[test]
fn on_receive_delivers_a_datagram() {
    let buffer = [5, 4, 3, 2, 1];
    match on_receive(Ok(2), &buffer, 77) {
        ListenerAction::Deliver(p) => {
            assert_eq!(p, Packet { release_time: 77, content: vec![5, 4] });
        }
        other => panic!("expected a packet, got {:?}", other),
    }
}

#[test]
fn on_receive_discards_a_datagram_that_fills_the_buffer() {
    let buffer = [5, 4, 3, 2, 1];
    assert!(matches!(on_receive(Ok(5), &buffer, 77), ListenerAction::Retry));
}

#[test]
fn on_receive_retries_after_would_block_and_timeout() {
    let buffer = [0u8; 4];
    assert!(matches!(
        on_receive(Err(Error::from(ErrorKind::WouldBlock)), &buffer, 0),
        ListenerAction::Retry
    ));
    assert!(matches!(
        on_receive(Err(Error::from(ErrorKind::TimedOut)), &buffer, 0),
        ListenerAction::Retry
    ));
}

#[test]
fn on_receive_reports_any_other_failure() {
    let buffer = [0u8; 4];
    for kind in [ErrorKind::ConnectionReset, ErrorKind::Interrupted, ErrorKind::Other] {
        match on_receive(Err(Error::from(kind)), &buffer, 0) {
            ListenerAction::Fail(err) => assert_eq!(err.kind(), kind),
            other => panic!("expected a failure, got {:?}", other),
        }
    }
}

#[test]
fn on_receive_treats_an_error_by_its_own_kind() {
    let buffer = [0u8; 4];
    let interrupted = Error::new(ErrorKind::Interrupted, "signal");
    match on_receive(Err(interrupted), &buffer, 0) {
        ListenerAction::Fail(err) => assert_eq!(err.to_string(), "signal"),
        other => panic!("expected a failure, got {:?}", other),
    }
    let would_block = Error::new(ErrorKind::WouldBlock, "later");
    assert!(matches!(on_receive(Err(would_block), &buffer, 0), ListenerAction::Retry));
}
