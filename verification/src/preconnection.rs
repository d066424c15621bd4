//! Preconnections: what the caller has said of the transport it wants,
//! before anything is connected.

use vstd::prelude::*;
use crate::candidates::build_candidates;
use crate::candidates::gathered;
use crate::candidates::lemma_gathered_is_a_product;
use crate::candidates::lemma_higher_rank_first;
use crate::candidates::Candidate;
use crate::endpoint::LocalEndpoint;
use crate::endpoint::RemoteEndpoint;
use crate::endpoint::SocketAddress;
use crate::error::TapsError;
use crate::framer::Framer;
use crate::listener::Listener;
use crate::race::Race;
use crate::race::RaceModel;
use crate::ranking::rank_protocols;
use crate::ranking::excludes;
use crate::ranking::lemma_ranked_are_survivors;
use crate::ranking::lemma_ranked_names_distinct;
use crate::ranking::rank;
use crate::ranking::ranked;
use crate::ranking::survives;
use crate::selection_properties::get_supported_protocols;
use crate::selection_properties::lemma_supported_protocols_distinct;
use crate::selection_properties::supported_protocols;
use crate::selection_properties::PreferenceLevel;
use crate::selection_properties::SelectionProperty;
use crate::text::host_and_port;
use crate::text::socket_text;
use crate::transport_properties::default_preferences;
use crate::transport_properties::TransportProperties;

verus! {

/// The names that the host has to resolve on behalf of a preconnection, each
/// as a host and a port in one text.
#[derive(Debug)]
pub struct Lookups {
    /// The literal address of the remote endpoint.
    pub remote_address: Option<String>,
    /// The host name of the remote endpoint.
    pub remote_host_name: Option<String>,
    /// The literal address of the local endpoint.
    pub local: Option<String>,
}

/// What the resolver has made of the lookups: the socket addresses of each
/// name in the resolver's order, or the error that it ran into. Where
/// nothing was to look up the list is empty.
#[derive(Debug)]
pub struct Resolution {
    pub remote_address: Result<Vec<SocketAddress>, std::io::Error>,
    pub remote_host_name: Result<Vec<SocketAddress>, std::io::Error>,
    pub local: Result<Vec<SocketAddress>, std::io::Error>,
}

/// A description of a transport that may come to be: the endpoints, the
/// transport properties and the framer.
/// The framer, of type `F`, sends messages of type `T` and receives
/// messages of type `U`.
pub struct Preconnection<'a, T, U, F: Framer<T, U>> {
    pub local_endpoint: Option<LocalEndpoint<'a>>,
    pub remote_endpoint: Option<RemoteEndpoint<'a>>,
    pub transport_properties: Option<TransportProperties>,
    pub framer: &'a F,
    pub message_types: core::marker::PhantomData<(T, U)>,
}

impl<'a, T, U, F: Framer<T, U>> Copy for Preconnection<'a, T, U, F> {

}

impl<'a, T, U, F: Framer<T, U>> Clone for Preconnection<'a, T, U, F> {
    fn clone(&self) -> (copy: Self)
        ensures
            copy == *self,
    {
        Preconnection {
            local_endpoint: self.local_endpoint,
            remote_endpoint: self.remote_endpoint,
            transport_properties: self.transport_properties,
            framer: self.framer,
            message_types: self.message_types,
        }
    }
}

/// The addresses that a result of the resolver holds; none where it failed.
pub open spec fn addresses_of(found: Result<Vec<SocketAddress>, std::io::Error>) -> Seq<
    SocketAddress,
> {
    match found {
        Ok(addresses) => addresses@,
        Err(_) => Seq::empty(),
    }
}

impl<'a, T, U, F: Framer<T, U>> Preconnection<'a, T, U, F> {
    pub fn new(
        local_endpoint: Option<LocalEndpoint<'a>>,
        remote_endpoint: Option<RemoteEndpoint<'a>>,
        transport_properties: Option<TransportProperties>,
        framer: &'a F,
    ) -> (preconnection: Preconnection<'a, T, U, F>)
        ensures
            preconnection.local_endpoint == local_endpoint,
            preconnection.remote_endpoint == remote_endpoint,
            preconnection.transport_properties == transport_properties,
            preconnection.framer == framer,
    {
        Preconnection {
            local_endpoint: local_endpoint,
            remote_endpoint: remote_endpoint,
            transport_properties: transport_properties,
            framer: framer,
            message_types: core::marker::PhantomData,
        }
    }

    /// The preferences that selection goes by: the caller's, or the default
    /// profile where the caller gave none.
    pub open spec fn preferences(&self) -> Map<SelectionProperty, PreferenceLevel> {
        match self.transport_properties {
            Some(properties) => properties@,
            None => default_preferences(),
        }
    }

    /// The compatible protocol stacks with their ranks.
    pub open spec fn protocol_ranks(&self) -> Seq<(&'static str, u8)> {
        ranked(self.preferences(), supported_protocols())
    }

    /// Why initiation cannot start, if it cannot: no remote endpoint, no
    /// port in it, or neither an address nor a host name.
    pub open spec fn initiation_error(&self) -> Option<TapsError> {
        match self.remote_endpoint {
            None => Some(TapsError::RemoteEndpointNotProvided),
            Some(remote) => if remote.port is None {
                Some(TapsError::RemoteEndpointPortNotProvided)
            } else if remote.address is None && remote.host_name is None {
                Some(TapsError::RemoteEndpointAddressAndHostNameBothNotProvided)
            } else {
                None
            },
        }
    }

    /// Whether the remote endpoint has a literal address and a port.
    pub open spec fn looks_up_remote_address(&self) -> bool {
        self.remote_endpoint matches Some(remote) && remote.address is Some && remote.port is Some
    }

    /// Whether the remote endpoint has a host name and a port.
    pub open spec fn looks_up_remote_host_name(&self) -> bool {
        self.remote_endpoint matches Some(remote) && remote.host_name is Some && remote.port
            is Some
    }

    /// Whether the local endpoint has a literal address and a port.
    pub open spec fn looks_up_local(&self) -> bool {
        self.local_endpoint matches Some(local) && local.names_socket()
    }

    /// The error of the first lookup that was made and failed, in the order
    /// remote address, remote host name, local address.
    pub open spec fn resolution_error(&self, resolution: Resolution) -> Option<std::io::Error> {
        if self.looks_up_remote_address() && resolution.remote_address is Err {
            Some(resolution.remote_address->Err_0)
        } else if self.looks_up_remote_host_name() && resolution.remote_host_name is Err {
            Some(resolution.remote_host_name->Err_0)
        } else if self.looks_up_local() && resolution.local is Err {
            Some(resolution.local->Err_0)
        } else {
            None
        }
    }

    /// The remote addresses to try: what the literal address resolved to,
    /// then what the host name resolved to.
    pub open spec fn remote_addresses(&self, resolution: Resolution) -> Seq<SocketAddress> {
        (if self.looks_up_remote_address() {
            addresses_of(resolution.remote_address)
        } else {
            Seq::empty()
        }) + (if self.looks_up_remote_host_name() {
            addresses_of(resolution.remote_host_name)
        } else {
            Seq::empty()
        })
    }

    /// The local address to bind: the first that the local endpoint's
    /// literal address with its port resolved to, if there is one.
    pub open spec fn local_address(&self, resolution: Resolution) -> Option<SocketAddress> {
        if self.looks_up_local() && addresses_of(resolution.local).len() > 0 {
            Some(addresses_of(resolution.local)[0])
        } else {
            None
        }
    }

    /// The transport properties that selection goes by.
    pub fn effective_properties(&self) -> (properties: TransportProperties)
        ensures
            properties@ == self.preferences(),
    {
        match self.transport_properties {
            Some(properties) => properties,
            None => TransportProperties::default(),
        }
    }

    /// Says what the host has to resolve before initiating or listening.
    pub fn lookups(&self) -> (lookups: Lookups)
        ensures
            lookups.remote_address is Some <==> self.looks_up_remote_address(),
            lookups.remote_address matches Some(text) ==> text@ == host_and_port(
                self.remote_endpoint->0.address->0@,
                self.remote_endpoint->0.port->0,
            ),
            lookups.remote_host_name is Some <==> self.looks_up_remote_host_name(),
            lookups.remote_host_name matches Some(text) ==> text@ == host_and_port(
                self.remote_endpoint->0.host_name->0@,
                self.remote_endpoint->0.port->0,
            ),
            lookups.local is Some <==> self.looks_up_local(),
            lookups.local matches Some(text) ==> text@ == host_and_port(
                self.local_endpoint->0.address->0@,
                self.local_endpoint->0.port->0,
            ),
    {
        let mut lookups = Lookups { remote_address: None, remote_host_name: None, local: None };
        if let Some(remote) = self.remote_endpoint {
            if let Some(port) = remote.port {
                if let Some(address) = remote.address {
                    lookups.remote_address = Some(socket_text(address, port));
                }
                if let Some(host_name) = remote.host_name {
                    lookups.remote_host_name = Some(socket_text(host_name, port));
                }
            }
        }
        if let Some(local) = self.local_endpoint {
            if let Some(port) = local.port {
                if let Some(address) = local.address {
                    lookups.local = Some(socket_text(address, port));
                }
            }
        }
        lookups
    }

    /// Ranks the supported protocol stacks against the transport
    /// properties. Fails when no stack is compatible with them.
    pub fn calculate_candidate_protocol_ranks(&self) -> (outcome: Result<
        Vec<(&'static str, u8)>,
        TapsError,
    >)
        ensures
            match outcome {
                Ok(ranks) => ranks@ == self.protocol_ranks() && ranks@.len() > 0,
                Err(error) => error == TapsError::NoCompatibleProtocolStacks
                    && self.protocol_ranks().len() == 0,
            },
    {
        let registry = get_supported_protocols();
        let properties = self.effective_properties();
        let ranks = rank_protocols(&properties, &registry);
        if ranks.len() == 0 {
            return Err(TapsError::NoCompatibleProtocolStacks);
        }
        Ok(ranks)
    }

    /// Gathers the candidates for initiation from what the resolver found:
    /// the first failed lookup fails the gathering, and so does the lack of
    /// a compatible protocol stack.
    pub fn gather_candidates(&self, resolution: Resolution) -> (outcome: Result<
        Vec<Candidate>,
        TapsError,
    >)
        ensures
            match outcome {
                Ok(candidates) => {
                    &&& self.resolution_error(resolution) is None
                    &&& self.protocol_ranks().len() > 0
                    &&& candidates@ == gathered(
                        self.remote_addresses(resolution),
                        self.local_address(resolution),
                        self.protocol_ranks(),
                    )
                },
                Err(error) => match self.resolution_error(resolution) {
                    Some(cause) => error == TapsError::Io(cause),
                    None => error == TapsError::NoCompatibleProtocolStacks
                        && self.protocol_ranks().len() == 0,
                },
            },
    {
        let Resolution { remote_address, remote_host_name, local } = resolution;
        let mut with_address = false;
        let mut with_host_name = false;
        if let Some(remote) = self.remote_endpoint {
            if remote.port.is_some() {
                with_address = remote.address.is_some();
                with_host_name = remote.host_name.is_some();
            }
        }
        let with_local = match self.local_endpoint {
            Some(local_endpoint) => local_endpoint.has_socket(),
            None => false,
        };
        let mut remotes: Vec<SocketAddress> = Vec::new();
        match remote_address {
            Ok(mut addresses) => {
                if with_address {
                    remotes.append(&mut addresses);
                }
            },
            Err(cause) => {
                if with_address {
                    return Err(TapsError::from(cause));
                }
            },
        }
        match remote_host_name {
            Ok(mut addresses) => {
                if with_host_name {
                    remotes.append(&mut addresses);
                }
            },
            Err(cause) => {
                if with_host_name {
                    return Err(TapsError::from(cause));
                }
            },
        }
        let mut local_address: Option<SocketAddress> = None;
        match local {
            Ok(addresses) => {
                if with_local && addresses.len() > 0 {
                    local_address = Some(addresses[0]);
                }
            },
            Err(cause) => {
                if with_local {
                    return Err(TapsError::from(cause));
                }
            },
        }
        assert(remotes@ =~= self.remote_addresses(resolution));
        let ranks = self.calculate_candidate_protocol_ranks()?;
        Ok(build_candidates(&remotes, local_address, &ranks))
    }

    /// Starts initiation: checks the remote endpoint, gathers the
    /// candidates and sets up the race between them. The host then runs the
    /// attempts and reports their results to the race.
    pub fn initiate(self, resolution: Resolution) -> (outcome: Result<Race, TapsError>)
        ensures
            match outcome {
                Ok(race) => {
                    &&& self.initiation_error() is None
                    &&& self.resolution_error(resolution) is None
                    &&& self.protocol_ranks().len() > 0
                    &&& race.wf()
                    &&& race.candidates@ == gathered(
                        self.remote_addresses(resolution),
                        self.local_address(resolution),
                        self.protocol_ranks(),
                    )
                    &&& race@ == RaceModel::fresh(race.candidates@.len())
                },
                Err(error) => match self.initiation_error() {
                    Some(invalid) => error == invalid,
                    None => match self.resolution_error(resolution) {
                        Some(cause) => error == TapsError::Io(cause),
                        None => error == TapsError::NoCompatibleProtocolStacks
                            && self.protocol_ranks().len() == 0,
                    },
                },
            },
    {
        match self.remote_endpoint {
            None => {
                return Err(TapsError::RemoteEndpointNotProvided);
            },
            Some(remote) => {
                if remote.port.is_none() {
                    return Err(TapsError::RemoteEndpointPortNotProvided);
                }
                if remote.address.is_none() && remote.host_name.is_none() {
                    return Err(TapsError::RemoteEndpointAddressAndHostNameBothNotProvided);
                }
            },
        }
        match self.gather_candidates(resolution) {
            Ok(candidates) => Ok(Race::new(candidates)),
            Err(error) => Err(error),
        }
    }

    /// Turns the preconnection into a listener. Listening needs a local
    /// endpoint.
    pub fn listen<L>(self) -> (outcome: Result<Listener<'a, T, U, F, L>, TapsError>)
        ensures
            match outcome {
                Ok(listener) => {
                    &&& self.local_endpoint is Some
                    &&& listener.preconnection == self
                    &&& listener.allowed_remote_addrs@.len() == 0
                    &&& listener.tcp_listener is None
                },
                Err(error) => self.local_endpoint is None && error
                    == TapsError::LocalEndpointNotProvided,
            },
    {
        if self.local_endpoint.is_none() {
            return Err(TapsError::LocalEndpointNotProvided);
        }
        Ok(Listener::new(self))
    }
}

/// Candidate ordering. In the candidate list for any preferences, remote
/// addresses and local address, every candidate of a protocol stack of
/// higher rank stands before every candidate of a stack of lower rank.
pub proof fn lemma_candidate_ordering(
    preferences: Map<SelectionProperty, PreferenceLevel>,
    remotes: Seq<SocketAddress>,
    local: Option<SocketAddress>,
    a: int,
    b: int,
    i: int,
    j: int,
)
    requires
        0 <= a < ranked(preferences, supported_protocols()).len(),
        0 <= b < ranked(preferences, supported_protocols()).len(),
        ranked(preferences, supported_protocols())[a].1 > ranked(
            preferences,
            supported_protocols(),
        )[b].1,
        0 <= i < gathered(remotes, local, ranked(preferences, supported_protocols())).len(),
        0 <= j < gathered(remotes, local, ranked(preferences, supported_protocols())).len(),
        gathered(remotes, local, ranked(preferences, supported_protocols()))[i].protocol == ranked(
            preferences,
            supported_protocols(),
        )[a].0,
        gathered(remotes, local, ranked(preferences, supported_protocols()))[j].protocol == ranked(
            preferences,
            supported_protocols(),
        )[b].0,
    ensures
        i < j,
{
    lemma_supported_protocols_distinct();
    lemma_ranked_names_distinct(preferences, supported_protocols());
    lemma_higher_rank_first(
        remotes,
        local,
        ranked(preferences, supported_protocols()),
        a,
        b,
        i,
        j,
    );
}

/// Where reliability is required, UDP is filtered out: no candidate is
/// for UDP, whatever the addresses.
pub proof fn lemma_required_reliability_excludes_udp(
    preferences: Map<SelectionProperty, PreferenceLevel>,
    remotes: Seq<SocketAddress>,
    local: Option<SocketAddress>,
    i: int,
)
    requires
        preferences[SelectionProperty::Reliability] == PreferenceLevel::Require,
        0 <= i < gathered(remotes, local, ranked(preferences, supported_protocols())).len(),
    ensures
        gathered(remotes, local, ranked(preferences, supported_protocols()))[i].protocol@
            != "udp"@,
{
    let ranks = ranked(preferences, supported_protocols());
    let candidate = gathered(remotes, local, ranks)[i];
    lemma_gathered_is_a_product(remotes, local, ranks);
    let a = choose|a: int| 0 <= a < ranks.len() && #[trigger] ranks[a].0 == candidate.protocol;
    lemma_ranked_are_survivors(preferences, supported_protocols());
    let j = choose|j: int|
        0 <= j < supported_protocols().len() && survives(preferences, supported_protocols()[j].1)
            && ranks[a] == (
            supported_protocols()[j].0,
            rank(preferences, supported_protocols()[j].1) as u8,
        );
    assert(excludes(
        preferences[SelectionProperty::Reliability],
        supported_protocols()[1].1[SelectionProperty::Reliability],
    ));
    assert(j != 1);
    reveal_strlit("tcp");
    reveal_strlit("udp");
    reveal_strlit("quic");
    assert("tcp"@[0] != "udp"@[0]);
    assert("quic"@.len() != "udp"@.len());
}

} // verus!
