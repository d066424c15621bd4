use rs_taps::endpoint::{IpAddress, LocalEndpoint, RemoteEndpoint, SocketAddress};
use rs_taps::error::TapsError;
use rs_taps::text::{append_decimal, same_bytes, same_text, socket_text};

#[test]
fn local_endpoint_builders() {
    let mut local = LocalEndpoint::new();
    assert!(local.port.is_none() && local.address.is_none() && local.interface.is_none());
    assert!(!local.has_socket());
    local.with_port(12000);
    assert_eq!(local.port, Some(12000));
    assert!(!local.has_socket());
    local.with_address("127.0.0.1");
    assert_eq!(local.address, Some("127.0.0.1"));
    assert!(local.has_socket());
    local.with_interface("eth0");
    assert_eq!(local.interface, Some("eth0"));
    assert_eq!(local.port, Some(12000));
    let copy = local;
    assert_eq!(copy.address, local.address);
}

#[test]
fn remote_endpoint_builders() {
    let mut remote = RemoteEndpoint::new();
    assert!(remote.port.is_none() && remote.address.is_none());
    assert!(remote.host_name.is_none() && remote.service.is_none());
    remote.with_port(443);
    remote.with_address("192.0.2.1");
    remote.with_host_name("example.com");
    remote.with_service("https");
    assert_eq!(remote.port, Some(443));
    assert_eq!(remote.address, Some("192.0.2.1"));
    assert_eq!(remote.host_name, Some("example.com"));
    assert_eq!(remote.service, Some("https"));
    remote.with_port(0);
    assert_eq!(remote.port, Some(0));
    remote.with_port(65535);
    assert_eq!(remote.port, Some(65535));
}

#[test]
fn socket_addresses_compare_by_ip_and_port() {
    let a = SocketAddress::new(IpAddress::V4(1), 80);
    assert_eq!(a, SocketAddress { ip: IpAddress::V4(1), port: 80 });
    assert_ne!(a, SocketAddress::new(IpAddress::V4(1), 81));
    assert_ne!(a, SocketAddress::new(IpAddress::V6(1), 80));
}

#[test]
fn host_and_port_as_text() {
    assert_eq!(socket_text("example.com", 443), "example.com:443");
    assert_eq!(socket_text("127.0.0.1", 0), "127.0.0.1:0");
    assert_eq!(socket_text("::1", 65535), "::1:65535");
    assert_eq!(socket_text("", 10), ":10");
    assert_eq!(socket_text("h", 1009), "h:1009");
}

#[test]
fn decimal_has_no_leading_zeros() {
    for n in [0u16, 7, 10, 99, 100, 101, 9999, 10000, 12345, 60006, 65535] {
        let mut text = String::from("n=");
        append_decimal(&mut text, n);
        assert_eq!(text, format!("n={}", n));
    }
}

#[test]
fn texts_and_bytes_compare_by_content() {
    assert!(same_text("tcp", "tcp"));
    assert!(!same_text("tcp", "udp"));
    assert!(!same_text("tcp", "tcpx"));
    assert!(same_text("", ""));
    assert!(same_text("gr\u{fc}n", "gr\u{fc}n"));
    assert!(same_bytes(b"ab", b"ab"));
    assert!(!same_bytes(b"ab", b"ac"));
    assert!(!same_bytes(b"ab", b"a"));
}

#[test]
fn every_error_has_its_description() {
    let cases = [
        (TapsError::RemoteEndpointNotProvided, "No remote endpoint was provided. A remote endpoint must be provided in a preconnection for Connection initiation to take place."),
        (TapsError::LocalEndpointNotProvided, "No local endpoint was provided. A local endpoint must be supplied to listen for incoming Connections."),
        (TapsError::RemoteEndpointPortNotProvided, "No port was provided in the remote endpoint. A port must be provided in the remote endpoint for Connection initiation to take place."),
        (TapsError::RemoteEndpointAddressAndHostNameBothNotProvided, "Both address and host name were not provided in the remote endpoint. At least one of the address and host name must be provided in the remote endpoint for Connection initiation to take place."),
        (TapsError::NoCompatibleProtocolStacks, "After performing candidate gathering, no protocol stacks were found that satisfy the provided Transport Properties. Therefore, Connection initiation cannot take place."),
        (TapsError::ProtocolNotSupported, "Attempt was made to connect using a protocol stack which is not supported by rs_taps."),
        (TapsError::ConnectionAttemptFailed, "Establishing a particular candidate connection during connection racing failed. Other candidate connections will be attempted if available."),
        (TapsError::NoCandidateSucceeded, "No candidate connection handshake completed successfully. Therefore, Connection ititiation was unsuccessful"),
        (TapsError::MessageSendFailed, "Error sending message"),
        (TapsError::MessageReceiveFailed, "Error receiving message"),
    ];
    for (error, text) in cases {
        assert_eq!(error.description(), text);
    }
}

#[test]
fn io_errors_are_wrapped_and_described_by_their_own_text() {
    let cause = std::io::Error::new(std::io::ErrorKind::ConnectionRefused, "refused by peer");
    let error = TapsError::from(cause);
    assert!(matches!(error, TapsError::Io(_)));
    assert_eq!(error.description(), "refused by peer");
    match error {
        TapsError::Io(cause) => assert_eq!(cause.kind(), std::io::ErrorKind::ConnectionRefused),
        other => panic!("unexpected error {:?}", other),
    }
}
