use rs_taps::connection::Connection;
use rs_taps::endpoint::{IpAddress, LocalEndpoint, RemoteEndpoint, SocketAddress};
use rs_taps::error::TapsError;
use rs_taps::framer::HttpClientFramer;
use rs_taps::http_codec::{HttpRequest, HttpResponse};
use rs_taps::listener::{ListenAction, Listener};
use rs_taps::preconnection::{Preconnection, Resolution};
use rs_taps::selection_properties::SelectionProperty;
use rs_taps::transport::{TransportInstance, TransportKind};
use rs_taps::transport_properties::TransportProperties;

type Pre<'a> = Preconnection<'a, HttpRequest, HttpResponse, HttpClientFramer>;
type Conn<'a> = Connection<'a, HttpRequest, HttpResponse, HttpClientFramer, &'static str, (), ()>;

static FRAMER: HttpClientFramer = HttpClientFramer;

fn v4(a: u8, b: u8, c: u8, d: u8, port: u16) -> SocketAddress {
    SocketAddress::new(IpAddress::V4(u32::from_be_bytes([a, b, c, d])), port)
}

fn local_endpoint() -> LocalEndpoint<'static> {
    let mut local = LocalEndpoint::new();
    local.with_address("127.0.0.1");
    local.with_port(12000);
    local
}

fn local_resolved() -> Resolution {
    Resolution {
        remote_address: Ok(vec![]),
        remote_host_name: Ok(vec![]),
        local: Ok(vec![v4(127, 0, 0, 1, 12000)]),
    }
}

type Lis<'a> = Listener<'a, HttpRequest, HttpResponse, HttpClientFramer, u32>;

fn listener_for(remote: Option<RemoteEndpoint<'static>>) -> Lis<'static> {
    let preconnection: Pre =
        Preconnection::new(Some(local_endpoint()), remote, Some(TransportProperties::default()), &FRAMER);
    preconnection.listen().unwrap()
}

#[test]
fn listen_test() {
    let mut local = LocalEndpoint::new();
    local.with_address("127.0.0.1");
    local.with_port(12000);

    let tp = TransportProperties::default();

    let preconnection =
        Preconnection::<HttpRequest, HttpResponse, HttpClientFramer>::new(Some(local), None, Some(tp), &HttpClientFramer {});

    let mut listener = preconnection.listen::<u32>().unwrap();
    assert!(!listener.is_listening());
    let resolution = local_resolved();
    assert!(listener.can_start(&resolution));
    let actions = listener.start(resolution).unwrap();
    assert_eq!(actions, vec![ListenAction::BindStream { local: v4(127, 0, 0, 1, 12000) }]);
    listener.bound(7);
    assert!(listener.is_listening());
    assert_eq!(listener.tcp_listener, Some(7));

    let peer = v4(198, 51, 100, 7, 40000);
    let connection: Option<Conn> = listener.accept(peer, "new Connection");
    let connection = connection.unwrap();
    assert_eq!(connection.transport_instance.kind(), TransportKind::Tcp);
    assert!(matches!(connection.transport_instance, TransportInstance::Tcp("new Connection")));
    assert_eq!(connection.preconnection.local_endpoint.unwrap().port, Some(12000));
}

#[test]
fn start_takes_the_resolved_remote_as_allowed_peers() {
    let mut remote = RemoteEndpoint::new();
    remote.with_address("192.0.2.1");
    remote.with_host_name("example.com");
    remote.with_port(5000);
    let mut listener = listener_for(Some(remote));
    let resolution = Resolution {
        remote_address: Ok(vec![v4(192, 0, 2, 1, 5000)]),
        remote_host_name: Ok(vec![v4(192, 0, 2, 2, 5000), v4(192, 0, 2, 1, 5000)]),
        local: Ok(vec![v4(127, 0, 0, 1, 12000)]),
    };
    listener.start(resolution).unwrap();
    assert_eq!(
        listener.allowed_remote_addrs,
        vec![v4(192, 0, 2, 1, 5000), v4(192, 0, 2, 2, 5000), v4(192, 0, 2, 1, 5000)]
    );
}

#[test]
fn allowed_peer_filter() {
    let mut remote = RemoteEndpoint::new();
    remote.with_address("192.0.2.1");
    remote.with_port(5000);
    let mut listener = listener_for(Some(remote));
    let resolution = Resolution {
        remote_address: Ok(vec![v4(192, 0, 2, 1, 5000)]),
        remote_host_name: Ok(vec![]),
        local: Ok(vec![v4(127, 0, 0, 1, 12000)]),
    };
    listener.start(resolution).unwrap();
    assert!(listener.admits(v4(192, 0, 2, 1, 5000)));
    assert!(!listener.admits(v4(192, 0, 2, 1, 5001)));
    assert!(!listener.admits(v4(192, 0, 2, 9, 5000)));
    let accepted: Option<Conn> = listener.accept(v4(192, 0, 2, 1, 5000), "allowed");
    assert!(accepted.is_some());
    let rejected: Option<Conn> = listener.accept(v4(203, 0, 113, 1, 5000), "stranger");
    assert!(rejected.is_none());
}

#[test]
fn without_allowed_peers_everyone_is_admitted() {
    let mut listener = listener_for(None);
    listener.start(local_resolved()).unwrap();
    assert!(listener.allowed_remote_addrs.is_empty());
    assert!(listener.admits(v4(203, 0, 113, 1, 1)));
    let accepted: Option<Conn> = listener.accept(v4(203, 0, 113, 1, 1), "anyone");
    assert!(accepted.is_some());
}

#[test]
fn start_binds_nothing_when_tcp_is_filtered_out() {
    let mut properties = TransportProperties::default();
    for property in [
        SelectionProperty::Reliability,
        SelectionProperty::PreserveOrder,
        SelectionProperty::CongestionControl,
    ] {
        properties.ignore(property);
    }
    properties.require(SelectionProperty::PreserveMsgBoundaries);
    let preconnection: Pre = Preconnection::new(Some(local_endpoint()), None, Some(properties), &FRAMER);
    let mut listener: Lis = preconnection.listen().unwrap();
    assert_eq!(listener.start(local_resolved()).unwrap(), Vec::new());
}

#[test]
fn start_fails_without_a_compatible_stack() {
    let mut properties = TransportProperties::default();
    properties.require(SelectionProperty::PreserveMsgBoundaries);
    let preconnection: Pre = Preconnection::new(Some(local_endpoint()), None, Some(properties), &FRAMER);
    let mut listener: Lis = preconnection.listen().unwrap();
    assert!(matches!(
        listener.start(local_resolved()),
        Err(TapsError::NoCompatibleProtocolStacks)
    ));
}

#[test]
fn start_fails_with_the_io_error_of_a_failed_lookup() {
    let mut listener = listener_for(None);
    let resolution = Resolution {
        remote_address: Ok(vec![]),
        remote_host_name: Ok(vec![]),
        local: Err(std::io::Error::new(std::io::ErrorKind::Other, "no such address")),
    };
    assert!(listener.can_start(&resolution));
    assert!(matches!(listener.start(resolution), Err(TapsError::Io(_))));
}

#[test]
fn a_listener_cannot_start_without_a_local_address() {
    let listener = listener_for(None);
    let unresolved =
        Resolution { remote_address: Ok(vec![]), remote_host_name: Ok(vec![]), local: Ok(vec![]) };
    assert!(!listener.can_start(&unresolved));
    let mut local = LocalEndpoint::new();
    local.with_port(12000);
    let preconnection: Pre = Preconnection::new(Some(local), None, None, &FRAMER);
    let listener: Lis = preconnection.listen().unwrap();
    assert!(!listener.can_start(&local_resolved()));
    let mut remote = RemoteEndpoint::new();
    remote.with_address("192.0.2.1");
    let listener = listener_for(Some(remote));
    assert!(!listener.can_start(&local_resolved()));
}
