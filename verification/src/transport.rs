//! Established transports.

use vstd::prelude::*;

verus! {

/// The kinds of transport that the library runs.
#[derive(Debug, Clone, Copy, PartialEq, Eq, Structural)]
pub enum TransportKind {
    Tcp,
    Udp,
    Quic,
}

/// An established transport, which owns whatever the host opened for it: a
/// stream of type `S`, a datagram socket of type `D`, or a QUIC connection
/// of type `Q` with the datagram socket under it. Dropping the instance
/// releases them.
#[derive(Debug)]
pub enum TransportInstance<S, D, Q> {
    Tcp(S),
    Udp(D),
    Quic(Q, D),
}

impl<S, D, Q> TransportInstance<S, D, Q> {
    /// The kind of the transport.
    pub open spec fn transport_kind(&self) -> TransportKind {
        match self {
            TransportInstance::Tcp(_) => TransportKind::Tcp,
            TransportInstance::Udp(_) => TransportKind::Udp,
            TransportInstance::Quic(_, _) => TransportKind::Quic,
        }
    }

    /// The kind of the transport.
    pub fn kind(&self) -> (kind: TransportKind)
        ensures
            kind == self.transport_kind(),
    {
        match self {
            TransportInstance::Tcp(_) => TransportKind::Tcp,
            TransportInstance::Udp(_) => TransportKind::Udp,
            TransportInstance::Quic(_, _) => TransportKind::Quic,
        }
    }
}

} // verus!
