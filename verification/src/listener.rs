//! Listeners: the passive side, which binds the selected protocol stacks on
//! a local endpoint and turns admitted peers into connections.

use vstd::prelude::*;
use crate::candidates::contains_address;
use crate::connection::Connection;
use crate::endpoint::SocketAddress;
use crate::error::TapsError;
use crate::framer::Framer;
use crate::preconnection::addresses_of;
use crate::preconnection::Preconnection;
use crate::preconnection::Resolution;
use crate::text::same_text;
use crate::transport::TransportInstance;

verus! {

/// What the host opens for a listener.
#[derive(Debug, Clone, Copy, PartialEq, Eq, Structural)]
pub enum ListenAction {
    /// Bind a stream listener to the local address and listen on it.
    BindStream { local: SocketAddress },
}

/// The actions for a sequence of ranked protocol stacks: TCP gets a stream
/// listener; the other stacks get nothing yet.
pub open spec fn listen_actions(ranks: Seq<(&'static str, u8)>, local: SocketAddress) -> Seq<
    ListenAction,
>
    decreases ranks.len(),
{
    if ranks.len() == 0 {
        Seq::empty()
    } else {
        let before = listen_actions(ranks.drop_last(), local);
        if ranks.last().0@ == "tcp"@ {
            before.push(ListenAction::BindStream { local })
        } else {
            before
        }
    }
}

/// A listener on a local endpoint. It owns what the host has bound for
/// it: a stream listener of type `L`.
pub struct Listener<'a, T, U, F: Framer<T, U>, L> {
    pub preconnection: Preconnection<'a, T, U, F>,
    /// The peers that are admitted; when empty, every peer is.
    pub allowed_remote_addrs: Vec<SocketAddress>,
    /// The stream listener, once it is bound.
    pub tcp_listener: Option<L>,
}

/// Whether a peer is admitted by a list of allowed addresses: the list is
/// empty, or the peer is on it.
pub open spec fn admitted(allowed: Seq<SocketAddress>, peer: SocketAddress) -> bool {
    allowed.len() == 0 || allowed.contains(peer)
}

impl<'a, T, U, F: Framer<T, U>, L> Listener<'a, T, U, F, L> {
    pub fn new(preconnection: Preconnection<'a, T, U, F>) -> (listener: Listener<'a, T, U, F, L>)
        ensures
            listener.preconnection == preconnection,
            listener.allowed_remote_addrs@.len() == 0,
            listener.tcp_listener is None,
    {
        Listener {
            preconnection: preconnection,
            allowed_remote_addrs: Vec::new(),
            tcp_listener: None,
        }
    }

    /// Whether the listener can start on what the resolver found: a remote
    /// endpoint, if there is one, has a port, and the local endpoint has
    /// resolved to an address, unless its lookup failed.
    pub open spec fn startable(&self, resolution: Resolution) -> bool {
        &&& self.preconnection.remote_endpoint matches Some(remote) ==> remote.port is Some
        &&& self.preconnection.looks_up_local()
        &&& resolution.local matches Ok(addresses) ==> addresses@.len() > 0
    }

    /// Tells whether the listener can start on what the resolver found.
    pub fn can_start(&self, resolution: &Resolution) -> (ok: bool)
        ensures
            ok == self.startable(*resolution),
    {
        let remote_ok = match self.preconnection.remote_endpoint {
            Some(remote) => remote.port.is_some(),
            None => true,
        };
        let local_ok = match self.preconnection.local_endpoint {
            Some(local) => local.has_socket(),
            None => false,
        };
        let found = match &resolution.local {
            Ok(addresses) => addresses.len() > 0,
            Err(_) => true,
        };
        remote_ok && local_ok && found
    }

    /// The error that starting ends in, if any: a failed lookup of the local
    /// address, the lack of a compatible protocol stack, or a failed lookup
    /// of the remote endpoint, in this order.
    pub open spec fn start_error(&self, resolution: Resolution) -> Option<TapsError> {
        if resolution.local is Err {
            Some(TapsError::Io(resolution.local->Err_0))
        } else if self.preconnection.protocol_ranks().len() == 0 {
            Some(TapsError::NoCompatibleProtocolStacks)
        } else if self.preconnection.looks_up_remote_address() && resolution.remote_address
            is Err {
            Some(TapsError::Io(resolution.remote_address->Err_0))
        } else if self.preconnection.looks_up_remote_host_name() && resolution.remote_host_name
            is Err {
            Some(TapsError::Io(resolution.remote_host_name->Err_0))
        } else {
            None
        }
    }

    /// Starts the listener: selects the protocol stacks as initiation
    /// does, takes the addresses that the remote endpoint resolved to as
    /// the peers to admit, and says what the host has to open on the local
    /// address.
    pub fn start(&mut self, resolution: Resolution) -> (outcome: Result<
        Vec<ListenAction>,
        TapsError,
    >)
        requires
            old(self).startable(resolution),
        ensures
            final(self).preconnection == old(self).preconnection,
            final(self).tcp_listener == old(self).tcp_listener,
            match outcome {
                Ok(actions) => {
                    &&& old(self).start_error(resolution) is None
                    &&& actions@ == listen_actions(
                        old(self).preconnection.protocol_ranks(),
                        addresses_of(resolution.local)[0],
                    )
                    &&& final(self).allowed_remote_addrs@ == old(self).allowed_remote_addrs@
                        + old(self).preconnection.remote_addresses(resolution)
                },
                Err(error) => old(self).start_error(resolution) == Some(error),
            },
    {
        let Resolution { remote_address, remote_host_name, local } = resolution;
        let local_address = match local {
            Ok(addresses) => addresses[0],
            Err(cause) => {
                return Err(TapsError::from(cause));
            },
        };
        let ranks = self.preconnection.calculate_candidate_protocol_ranks()?;
        let mut with_address = false;
        let mut with_host_name = false;
        if let Some(remote) = self.preconnection.remote_endpoint {
            with_address = remote.address.is_some();
            with_host_name = remote.host_name.is_some();
        }
        let mut found: Vec<SocketAddress> = Vec::new();
        match remote_address {
            Ok(mut addresses) => {
                if with_address {
                    found.append(&mut addresses);
                }
            },
            Err(cause) => {
                if with_address {
                    return Err(TapsError::from(cause));
                }
            },
        }
        match remote_host_name {
            Ok(mut addresses) => {
                if with_host_name {
                    found.append(&mut addresses);
                }
            },
            Err(cause) => {
                if with_host_name {
                    return Err(TapsError::from(cause));
                }
            },
        }
        self.allowed_remote_addrs.append(&mut found);
        let mut actions: Vec<ListenAction> = Vec::new();
        let mut i: usize = 0;
        while i < ranks.len()
            invariant
                i <= ranks@.len(),
                actions@ == listen_actions(ranks@.take(i as int), local_address),
            decreases ranks@.len() - i,
        {
            proof {
                assert(ranks@.take(i + 1).drop_last() =~= ranks@.take(i as int));
            }
            if same_text(ranks[i].0, "tcp") {
                actions.push(ListenAction::BindStream { local: local_address });
            }
            i += 1;
        }
        proof {
            assert(ranks@.take(i as int) =~= ranks@);
        }
        Ok(actions)
    }

    /// Takes over the stream listener that the host has bound.
    pub fn bound(&mut self, tcp_listener: L)
        ensures
            final(self).tcp_listener == Some(tcp_listener),
            final(self).preconnection == old(self).preconnection,
            final(self).allowed_remote_addrs == old(self).allowed_remote_addrs,
    {
        self.tcp_listener = Some(tcp_listener);
    }

    /// Whether polling the listener can yield a connection at all: without
    /// anything bound it stays pending.
    pub fn is_listening(&self) -> (listening: bool)
        ensures
            listening == self.tcp_listener is Some,
    {
        self.tcp_listener.is_some()
    }

    /// Whether a peer is admitted.
    pub fn admits(&self, peer: SocketAddress) -> (ok: bool)
        ensures
            ok == admitted(self.allowed_remote_addrs@, peer),
    {
        self.allowed_remote_addrs.len() == 0 || contains_address(&self.allowed_remote_addrs, peer)
    }

    /// Takes a stream that the host has accepted from `peer`. An admitted
    /// peer gets a connection, which carries a copy of the listener's
    /// preconnection and owns the stream. The stream of any other peer is
    /// dropped, which closes it.
    pub fn accept<S, D, Q>(&self, peer: SocketAddress, stream: S) -> (connection: Option<
        Connection<'a, T, U, F, S, D, Q>,
    >)
        ensures
            connection is Some <==> admitted(self.allowed_remote_addrs@, peer),
            connection matches Some(c) ==> c.preconnection == self.preconnection
                && c.transport_instance == TransportInstance::<S, D, Q>::Tcp(stream),
    {
        if self.admits(peer) {
            Some(Connection::new(self.preconnection.clone(), TransportInstance::Tcp(stream)))
        } else {
            None
        }
    }
}

} // verus!
