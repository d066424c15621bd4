//! Local and remote endpoints, and the socket addresses they resolve to.

use vstd::prelude::*;

verus! {

/// Where a connection starts or a listener waits. With every field absent it
/// stands for "any".
#[derive(Debug, Clone, Copy)]
pub struct LocalEndpoint<'a> {
    pub port: Option<u16>,
    pub address: Option<&'a str>,
    pub interface: Option<&'a str>,
}

impl<'a> LocalEndpoint<'a> {
    /// An endpoint with nothing set.
    pub fn new() -> (endpoint: LocalEndpoint<'a>)
        ensures
            endpoint.port is None,
            endpoint.address is None,
            endpoint.interface is None,
    {
        LocalEndpoint { port: None, address: None, interface: None }
    }

    /// Whether the endpoint names a socket address: a literal address with a port.
    pub open spec fn names_socket(&self) -> bool {
        self.address is Some && self.port is Some
    }

    /// Whether the endpoint names a socket address: a literal address with a port.
    pub fn has_socket(&self) -> (b: bool)
        ensures
            b == self.names_socket(),
    {
        self.address.is_some() && self.port.is_some()
    }

    pub fn with_port(&mut self, port: u16)
        ensures
            final(self).port == Some(port),
            final(self).address == old(self).address,
            final(self).interface == old(self).interface,
    {
        self.port = Some(port);
    }

    pub fn with_address(&mut self, address: &'a str)
        ensures
            final(self).address == Some(address),
            final(self).port == old(self).port,
            final(self).interface == old(self).interface,
    {
        self.address = Some(address);
    }

    pub fn with_interface(&mut self, interface: &'a str)
        ensures
            final(self).interface == Some(interface),
            final(self).port == old(self).port,
            final(self).address == old(self).address,
    {
        self.interface = Some(interface);
    }
}

/// The peer of a connection, or the peers that a listener admits.
#[derive(Debug, Clone, Copy)]
pub struct RemoteEndpoint<'a> {
    pub port: Option<u16>,
    pub address: Option<&'a str>,
    pub host_name: Option<&'a str>,
    pub service: Option<&'a str>,
}

impl<'a> RemoteEndpoint<'a> {
    /// An endpoint with nothing set.
    pub fn new() -> (endpoint: RemoteEndpoint<'a>)
        ensures
            endpoint.port is None,
            endpoint.address is None,
            endpoint.host_name is None,
            endpoint.service is None,
    {
        RemoteEndpoint { port: None, address: None, host_name: None, service: None }
    }

    pub fn with_port(&mut self, port: u16)
        ensures
            final(self).port == Some(port),
            final(self).address == old(self).address,
            final(self).host_name == old(self).host_name,
            final(self).service == old(self).service,
    {
        self.port = Some(port);
    }

    pub fn with_address(&mut self, address: &'a str)
        ensures
            final(self).address == Some(address),
            final(self).port == old(self).port,
            final(self).host_name == old(self).host_name,
            final(self).service == old(self).service,
    {
        self.address = Some(address);
    }

    pub fn with_host_name(&mut self, host_name: &'a str)
        ensures
            final(self).host_name == Some(host_name),
            final(self).port == old(self).port,
            final(self).address == old(self).address,
            final(self).service == old(self).service,
    {
        self.host_name = Some(host_name);
    }

    pub fn with_service(&mut self, service: &'a str)
        ensures
            final(self).service == Some(service),
            final(self).port == old(self).port,
            final(self).address == old(self).address,
            final(self).host_name == old(self).host_name,
    {
        self.service = Some(service);
    }
}

/// An IP address of either family, as the number that its octets spell in
/// network order.
#[derive(Debug, Clone, Copy, PartialEq, Eq, Hash, Structural)]
pub enum IpAddress {
    V4(u32),
    V6(u128),
}

/// An IP address with a port.
#[derive(Debug, Clone, Copy, PartialEq, Eq, Hash, Structural)]
pub struct SocketAddress {
    pub ip: IpAddress,
    pub port: u16,
}

impl SocketAddress {
    pub fn new(ip: IpAddress, port: u16) -> (address: SocketAddress)
        ensures
            address == (SocketAddress { ip, port }),
    {
        SocketAddress { ip, port }
    }

    /// Whether the address belongs to the IPv6 family.
    pub open spec fn ipv6(&self) -> bool {
        self.ip is V6
    }

    /// Whether the address belongs to the IPv6 family.
    pub fn is_ipv6(&self) -> (b: bool)
        ensures
            b == self.ipv6(),
    {
        match self.ip {
            IpAddress::V6(_) => true,
            IpAddress::V4(_) => false,
        }
    }

    /// The wildcard address of a family with port 0, which lets the system
    /// choose both when a socket is bound to it.
    pub open spec fn unspecified(ipv6: bool) -> SocketAddress {
        if ipv6 {
            SocketAddress { ip: IpAddress::V6(0), port: 0 }
        } else {
            SocketAddress { ip: IpAddress::V4(0), port: 0 }
        }
    }
}

} // verus!
