use rs_taps::attempt::{
    bind_address_for_quic, source_connection_id, Attempt, AttemptAction, AttemptEvent,
    AttemptState, QUIC_MAX_CONN_ID_LEN, QUIC_MAX_DATAGRAM_SIZE, QUIC_RECEIVE_BUFFER_SIZE,
};
use rs_taps::candidates::Candidate;
use rs_taps::endpoint::{IpAddress, SocketAddress};
use rs_taps::error::TapsError;
use rs_taps::transport::TransportKind;

fn remote_v4() -> SocketAddress {
    SocketAddress::new(IpAddress::V4(0x7f00_0001), 13370)
}

fn remote_v6() -> SocketAddress {
    SocketAddress::new(IpAddress::V6(1), 13370)
}

fn local() -> SocketAddress {
    SocketAddress::new(IpAddress::V4(0x7f00_0001), 12000)
}

fn started(protocol: &'static str, remote: SocketAddress, local: Option<SocketAddress>) -> Attempt {
    let (mut attempt, action) = Attempt::start(Candidate { remote, local, protocol }, 0);
    assert!(matches!(action, AttemptAction::Sleep { millis: 0 }));
    assert_eq!(attempt.state, AttemptState::Sleeping);
    let _ = &mut attempt;
    attempt
}

fn quic_up_to_polling(attempt: &mut Attempt) {
    assert!(matches!(attempt.on_event(AttemptEvent::Done), AttemptAction::BindDatagram { .. }));
    assert!(matches!(attempt.on_event(AttemptEvent::Done), AttemptAction::ConnectDatagram { .. }));
    assert!(matches!(
        attempt.on_event(AttemptEvent::Done),
        AttemptAction::OpenHandshake { connection_id_length: 20 }
    ));
    assert!(matches!(
        attempt.on_event(AttemptEvent::Done),
        AttemptAction::GeneratePacket { capacity: 1350 }
    ));
    assert!(matches!(
        attempt.on_event(AttemptEvent::Size(1200)),
        AttemptAction::SendPacket { length: 1200 }
    ));
    assert!(matches!(attempt.on_event(AttemptEvent::Done), AttemptAction::Poll));
    assert_eq!(attempt.state, AttemptState::Polling);
}

#[test]
fn quic_constants() {
    assert_eq!(QUIC_MAX_DATAGRAM_SIZE, 1350);
    assert_eq!(QUIC_RECEIVE_BUFFER_SIZE, 65535);
    assert_eq!(QUIC_MAX_CONN_ID_LEN, 20);
}

#[test]
fn attempt_k_sleeps_k_times_250_ms() {
    let candidate = Candidate { remote: remote_v4(), local: None, protocol: "tcp" };
    let (_, action) = Attempt::start(candidate, 3);
    assert!(matches!(action, AttemptAction::Sleep { millis: 750 }));
}

#[test]
fn tcp_attempt_connects_a_stream() {
    let mut attempt = started("tcp", remote_v4(), None);
    match attempt.on_event(AttemptEvent::Done) {
        AttemptAction::ConnectStream { remote } => assert_eq!(remote, remote_v4()),
        other => panic!("unexpected action {:?}", other),
    }
    assert!(!attempt.is_finished());
    assert!(matches!(
        attempt.on_event(AttemptEvent::Done),
        AttemptAction::Succeed(TransportKind::Tcp)
    ));
    assert!(attempt.is_finished());
}

#[test]
fn tcp_attempt_fails_when_the_connect_fails() {
    let mut attempt = started("tcp", remote_v4(), None);
    attempt.on_event(AttemptEvent::Done);
    assert!(matches!(
        attempt.on_event(AttemptEvent::Failed),
        AttemptAction::Fail(TapsError::ConnectionAttemptFailed)
    ));
    assert!(attempt.is_finished());
}

#[test]
fn udp_attempt_needs_a_local_address() {
    let mut attempt = started("udp", remote_v4(), None);
    assert!(matches!(
        attempt.on_event(AttemptEvent::Done),
        AttemptAction::Fail(TapsError::ConnectionAttemptFailed)
    ));
    assert!(attempt.is_finished());
}

#[test]
fn udp_attempt_binds_then_connects() {
    let mut attempt = started("udp", remote_v4(), Some(local()));
    match attempt.on_event(AttemptEvent::Done) {
        AttemptAction::BindDatagram { local: bound } => assert_eq!(bound, local()),
        other => panic!("unexpected action {:?}", other),
    }
    match attempt.on_event(AttemptEvent::Done) {
        AttemptAction::ConnectDatagram { remote } => assert_eq!(remote, remote_v4()),
        other => panic!("unexpected action {:?}", other),
    }
    assert!(matches!(
        attempt.on_event(AttemptEvent::Done),
        AttemptAction::Succeed(TransportKind::Udp)
    ));
}

#[test]
fn udp_attempt_fails_when_bind_or_connect_fails() {
    let mut attempt = started("udp", remote_v4(), Some(local()));
    attempt.on_event(AttemptEvent::Done);
    assert!(matches!(
        attempt.on_event(AttemptEvent::Failed),
        AttemptAction::Fail(TapsError::ConnectionAttemptFailed)
    ));
    let mut attempt = started("udp", remote_v4(), Some(local()));
    attempt.on_event(AttemptEvent::Done);
    attempt.on_event(AttemptEvent::Done);
    assert!(matches!(
        attempt.on_event(AttemptEvent::Failed),
        AttemptAction::Fail(TapsError::ConnectionAttemptFailed)
    ));
}

#[test]
fn unknown_protocol_is_not_supported() {
    let mut attempt = started("sctp", remote_v4(), None);
    assert!(matches!(
        attempt.on_event(AttemptEvent::Done),
        AttemptAction::Fail(TapsError::ProtocolNotSupported)
    ));
    assert!(attempt.is_finished());
}

#[test]
fn quic_binds_the_wildcard_of_the_remote_family() {
    let unspecified_v4 = SocketAddress::new(IpAddress::V4(0), 0);
    let unspecified_v6 = SocketAddress::new(IpAddress::V6(0), 0);
    let to_v4 = Candidate { remote: remote_v4(), local: None, protocol: "quic" };
    let to_v6 = Candidate { remote: remote_v6(), local: None, protocol: "quic" };
    let with_local = Candidate { remote: remote_v6(), local: Some(local()), protocol: "quic" };
    assert_eq!(bind_address_for_quic(&to_v4), unspecified_v4);
    assert_eq!(bind_address_for_quic(&to_v6), unspecified_v6);
    assert_eq!(bind_address_for_quic(&with_local), local());
    let mut attempt = started("quic", remote_v6(), None);
    match attempt.on_event(AttemptEvent::Done) {
        AttemptAction::BindDatagram { local } => assert_eq!(local, unspecified_v6),
        other => panic!("unexpected action {:?}", other),
    }
}

#[test]
fn quic_handshake_runs_until_established() {
    let mut attempt = started("quic", remote_v4(), None);
    quic_up_to_polling(&mut attempt);
    assert!(matches!(
        attempt.on_event(AttemptEvent::Done),
        AttemptAction::ReceivePacket { capacity: 65535 }
    ));
    assert!(matches!(
        attempt.on_event(AttemptEvent::Size(1100)),
        AttemptAction::FeedPacket { length: 1100 }
    ));
    assert!(matches!(
        attempt.on_event(AttemptEvent::Done),
        AttemptAction::ReceivePacket { capacity: 65535 }
    ));
    assert!(matches!(
        attempt.on_event(AttemptEvent::WouldBlock),
        AttemptAction::CheckEstablished
    ));
    assert!(matches!(
        attempt.on_event(AttemptEvent::Established(false)),
        AttemptAction::GeneratePacket { capacity: 1350 }
    ));
    assert!(matches!(
        attempt.on_event(AttemptEvent::Size(80)),
        AttemptAction::SendPacket { length: 80 }
    ));
    assert!(matches!(
        attempt.on_event(AttemptEvent::Done),
        AttemptAction::GeneratePacket { capacity: 1350 }
    ));
    assert!(matches!(attempt.on_event(AttemptEvent::Nothing), AttemptAction::Poll));
    assert!(matches!(
        attempt.on_event(AttemptEvent::Done),
        AttemptAction::ReceivePacket { capacity: 65535 }
    ));
    assert!(matches!(
        attempt.on_event(AttemptEvent::WouldBlock),
        AttemptAction::CheckEstablished
    ));
    assert!(matches!(
        attempt.on_event(AttemptEvent::Established(true)),
        AttemptAction::Succeed(TransportKind::Quic)
    ));
    assert!(attempt.is_finished());
}

#[test]
fn quic_initial_send_is_retried_when_it_would_block() {
    let mut attempt = started("quic", remote_v4(), None);
    attempt.on_event(AttemptEvent::Done);
    attempt.on_event(AttemptEvent::Done);
    attempt.on_event(AttemptEvent::Done);
    attempt.on_event(AttemptEvent::Done);
    assert!(matches!(
        attempt.on_event(AttemptEvent::Size(1200)),
        AttemptAction::SendPacket { length: 1200 }
    ));
    assert!(matches!(
        attempt.on_event(AttemptEvent::WouldBlock),
        AttemptAction::SendPacket { length: 1200 }
    ));
    assert!(matches!(
        attempt.on_event(AttemptEvent::WouldBlock),
        AttemptAction::SendPacket { length: 1200 }
    ));
    assert!(matches!(attempt.on_event(AttemptEvent::Done), AttemptAction::Poll));
}

#[test]
fn quic_send_errors_fail_the_attempt() {
    let mut attempt = started("quic", remote_v4(), None);
    attempt.on_event(AttemptEvent::Done);
    attempt.on_event(AttemptEvent::Done);
    attempt.on_event(AttemptEvent::Done);
    attempt.on_event(AttemptEvent::Done);
    attempt.on_event(AttemptEvent::Size(1200));
    assert!(matches!(
        attempt.on_event(AttemptEvent::Failed),
        AttemptAction::Fail(TapsError::ConnectionAttemptFailed)
    ));
}

#[test]
fn quic_timeout_is_handed_to_the_handshake() {
    let mut attempt = started("quic", remote_v4(), None);
    quic_up_to_polling(&mut attempt);
    assert!(matches!(attempt.on_event(AttemptEvent::Nothing), AttemptAction::HandleTimeout));
    assert!(matches!(attempt.on_event(AttemptEvent::Done), AttemptAction::CheckEstablished));
}

#[test]
fn quic_receive_error_fails_the_attempt() {
    let mut attempt = started("quic", remote_v4(), None);
    quic_up_to_polling(&mut attempt);
    attempt.on_event(AttemptEvent::Done);
    assert!(matches!(
        attempt.on_event(AttemptEvent::Failed),
        AttemptAction::Fail(TapsError::ConnectionAttemptFailed)
    ));
}

#[test]
fn quic_feed_error_goes_on_reading() {
    let mut attempt = started("quic", remote_v4(), None);
    quic_up_to_polling(&mut attempt);
    attempt.on_event(AttemptEvent::Done);
    attempt.on_event(AttemptEvent::Size(10));
    assert!(matches!(
        attempt.on_event(AttemptEvent::Failed),
        AttemptAction::ReceivePacket { capacity: 65535 }
    ));
}

#[test]
fn quic_packet_error_closes_the_handshake_and_polls_again() {
    let mut attempt = started("quic", remote_v4(), None);
    quic_up_to_polling(&mut attempt);
    attempt.on_event(AttemptEvent::Nothing);
    attempt.on_event(AttemptEvent::Done);
    attempt.on_event(AttemptEvent::Established(false));
    assert!(matches!(attempt.on_event(AttemptEvent::Failed), AttemptAction::CloseHandshake));
    assert!(matches!(attempt.on_event(AttemptEvent::Done), AttemptAction::Poll));
}

#[test]
fn quic_send_that_would_block_goes_back_to_polling() {
    let mut attempt = started("quic", remote_v4(), None);
    quic_up_to_polling(&mut attempt);
    attempt.on_event(AttemptEvent::Nothing);
    attempt.on_event(AttemptEvent::Done);
    attempt.on_event(AttemptEvent::Established(false));
    attempt.on_event(AttemptEvent::Size(100));
    assert!(matches!(attempt.on_event(AttemptEvent::WouldBlock), AttemptAction::Poll));
}

#[test]
fn oversized_packets_fail_the_attempt() {
    let mut attempt = started("quic", remote_v4(), None);
    attempt.on_event(AttemptEvent::Done);
    attempt.on_event(AttemptEvent::Done);
    attempt.on_event(AttemptEvent::Done);
    attempt.on_event(AttemptEvent::Done);
    assert!(matches!(
        attempt.on_event(AttemptEvent::Size(1351)),
        AttemptAction::Fail(TapsError::ConnectionAttemptFailed)
    ));
}

#[test]
fn a_finished_attempt_stays_finished() {
    let mut attempt = started("tcp", remote_v4(), None);
    attempt.on_event(AttemptEvent::Done);
    attempt.on_event(AttemptEvent::Done);
    assert!(attempt.is_finished());
    assert!(matches!(
        attempt.on_event(AttemptEvent::Done),
        AttemptAction::Fail(TapsError::ConnectionAttemptFailed)
    ));
    assert!(attempt.is_finished());
}

#[test]
fn source_connection_ids_are_random_and_of_the_maximum_length() {
    let first = source_connection_id().unwrap();
    let second = source_connection_id().unwrap();
    assert_eq!(first.len(), 20);
    assert_eq!(second.len(), 20);
    assert_ne!(first, second);
    assert_ne!(first, vec![0u8; 20]);
}
