//! One connection attempt, as a state machine.
//!
//! The attempt tells the host what to do next and the host reports what came
//! of it. A TCP attempt connects a stream. A UDP attempt binds the local
//! address and connects the socket to the peer. A QUIC attempt binds a
//! datagram socket, connects it, and runs the handshake over it: it polls the
//! socket, reads what has arrived, feeds it to the handshake and sends what
//! the handshake produces, until the handshake is established.

use vstd::prelude::*;
use ring::rand::SecureRandom;
use crate::candidates::Candidate;
use crate::endpoint::SocketAddress;
use crate::error::TapsError;
use crate::race::start_delay_ms;
use crate::race::ATTEMPT_DELAY_MS;
use crate::text::same_text;
use crate::transport::TransportKind;

verus! {

/// The largest QUIC packet that an attempt sends, in bytes.
pub const QUIC_MAX_DATAGRAM_SIZE: usize = 1350;

/// The room for one received datagram, in bytes.
pub const QUIC_RECEIVE_BUFFER_SIZE: usize = 65535;

/// The length of a QUIC connection ID, in bytes: the largest that QUIC allows.
pub const QUIC_MAX_CONN_ID_LEN: usize = 20;

/// What the host is asked to do.
#[derive(Debug)]
pub enum AttemptAction {
    /// Wait for the given number of milliseconds.
    Sleep { millis: u128 },
    /// Connect a stream to the remote address.
    ConnectStream { remote: SocketAddress },
    /// Bind a datagram socket to the local address.
    BindDatagram { local: SocketAddress },
    /// Connect the datagram socket to the remote address.
    ConnectDatagram { remote: SocketAddress },
    /// Set up a QUIC handshake as a client, under a random source connection
    /// ID of the given length.
    OpenHandshake { connection_id_length: usize },
    /// Let the handshake produce its next packet, of at most `capacity` bytes.
    GeneratePacket { capacity: usize },
    /// Send the first `length` bytes of the packet produced last.
    SendPacket { length: usize },
    /// Wait until the socket is readable or the handshake's timer runs out.
    Poll,
    /// Tell the handshake that its timer has run out.
    HandleTimeout,
    /// Read one datagram from the socket, of at most `capacity` bytes.
    ReceivePacket { capacity: usize },
    /// Feed the first `length` bytes of the datagram read last to the handshake.
    FeedPacket { length: usize },
    /// Ask the handshake whether it is established.
    CheckEstablished,
    /// Close the handshake with an application error.
    CloseHandshake,
    /// The attempt has succeeded: what was opened is a transport of this kind.
    Succeed(TransportKind),
    /// The attempt has failed: release what was opened.
    Fail(TapsError),
}

/// What the host reports of the action it was asked for.
#[derive(Debug, Clone, Copy, PartialEq, Eq, Structural)]
pub enum AttemptEvent {
    /// The action is done.
    Done,
    /// The action is done and has yielded this many bytes.
    Size(usize),
    /// There was nothing to do: no datagram before the timer ran out, or no
    /// packet to send.
    Nothing,
    /// The socket was not ready.
    WouldBlock,
    /// The handshake is established, or it is not.
    Established(bool),
    /// The action has failed.
    Failed,
}

/// Where an attempt stands: the action that it waits for.
#[derive(Debug, Clone, Copy, PartialEq, Eq, Structural)]
pub enum AttemptState {
    Sleeping,
    ConnectingStream,
    BindingDatagram,
    ConnectingDatagram,
    OpeningHandshake,
    GeneratingFirstPacket,
    SendingFirstPacket { length: usize },
    Polling,
    HandlingTimeout,
    Receiving,
    Feeding,
    Checking,
    Generating,
    Sending,
    Closing,
    Finished,
}

/// Whether a candidate is for TCP.
pub open spec fn is_tcp(candidate: Candidate) -> bool {
    candidate.protocol@ == "tcp"@
}

/// Whether a candidate is for UDP.
pub open spec fn is_udp(candidate: Candidate) -> bool {
    candidate.protocol@ == "udp"@
}

/// Whether a candidate is for QUIC.
pub open spec fn is_quic(candidate: Candidate) -> bool {
    candidate.protocol@ == "quic"@
}

/// The address that a QUIC attempt binds: the local address if one is given,
/// else the wildcard address of the remote address's family.
pub open spec fn quic_bind_address(candidate: Candidate) -> SocketAddress {
    match candidate.local {
        Some(local) => local,
        None => SocketAddress::unspecified(candidate.remote.ipv6()),
    }
}

/// The failure of one attempt.
pub open spec fn failed() -> (AttemptState, AttemptAction) {
    (AttemptState::Finished, AttemptAction::Fail(TapsError::ConnectionAttemptFailed))
}

/// What an attempt does once its start delay is over.
pub open spec fn begin(candidate: Candidate) -> (AttemptState, AttemptAction) {
    if is_tcp(candidate) {
        (AttemptState::ConnectingStream, AttemptAction::ConnectStream { remote: candidate.remote })
    } else if is_quic(candidate) {
        (
            AttemptState::BindingDatagram,
            AttemptAction::BindDatagram { local: quic_bind_address(candidate) },
        )
    } else if is_udp(candidate) {
        match candidate.local {
            Some(local) => (AttemptState::BindingDatagram, AttemptAction::BindDatagram { local }),
            None => failed(),
        }
    } else {
        (AttemptState::Finished, AttemptAction::Fail(TapsError::ProtocolNotSupported))
    }
}

/// The state that follows a state on an event, with the action to take.
pub open spec fn next(candidate: Candidate, state: AttemptState, event: AttemptEvent) -> (
    AttemptState,
    AttemptAction,
) {
    match state {
        AttemptState::Sleeping => begin(candidate),
        AttemptState::ConnectingStream => match event {
            AttemptEvent::Done => (
                AttemptState::Finished,
                AttemptAction::Succeed(TransportKind::Tcp),
            ),
            _ => failed(),
        },
        AttemptState::BindingDatagram => match event {
            AttemptEvent::Done => (
                AttemptState::ConnectingDatagram,
                AttemptAction::ConnectDatagram { remote: candidate.remote },
            ),
            _ => failed(),
        },
        AttemptState::ConnectingDatagram => match event {
            AttemptEvent::Done => if is_quic(candidate) {
                (
                    AttemptState::OpeningHandshake,
                    AttemptAction::OpenHandshake { connection_id_length: QUIC_MAX_CONN_ID_LEN },
                )
            } else {
                (AttemptState::Finished, AttemptAction::Succeed(TransportKind::Udp))
            },
            _ => failed(),
        },
        AttemptState::OpeningHandshake => match event {
            AttemptEvent::Done => (
                AttemptState::GeneratingFirstPacket,
                AttemptAction::GeneratePacket { capacity: QUIC_MAX_DATAGRAM_SIZE },
            ),
            _ => failed(),
        },
        AttemptState::GeneratingFirstPacket => match event {
            AttemptEvent::Size(length) => if length <= QUIC_MAX_DATAGRAM_SIZE {
                (
                    AttemptState::SendingFirstPacket { length },
                    AttemptAction::SendPacket { length },
                )
            } else {
                failed()
            },
            _ => failed(),
        },
        AttemptState::SendingFirstPacket { length } => match event {
            AttemptEvent::Done => (AttemptState::Polling, AttemptAction::Poll),
            AttemptEvent::WouldBlock => (
                AttemptState::SendingFirstPacket { length },
                AttemptAction::SendPacket { length },
            ),
            _ => failed(),
        },
        AttemptState::Polling => match event {
            AttemptEvent::Done => (
                AttemptState::Receiving,
                AttemptAction::ReceivePacket { capacity: QUIC_RECEIVE_BUFFER_SIZE },
            ),
            AttemptEvent::Nothing => (AttemptState::HandlingTimeout, AttemptAction::HandleTimeout),
            _ => failed(),
        },
        AttemptState::HandlingTimeout => (AttemptState::Checking, AttemptAction::CheckEstablished),
        AttemptState::Receiving => match event {
            AttemptEvent::Size(length) => if length <= QUIC_RECEIVE_BUFFER_SIZE {
                (AttemptState::Feeding, AttemptAction::FeedPacket { length })
            } else {
                failed()
            },
            AttemptEvent::WouldBlock => (AttemptState::Checking, AttemptAction::CheckEstablished),
            _ => failed(),
        },
        AttemptState::Feeding => (
            AttemptState::Receiving,
            AttemptAction::ReceivePacket { capacity: QUIC_RECEIVE_BUFFER_SIZE },
        ),
        AttemptState::Checking => match event {
            AttemptEvent::Established(true) => (
                AttemptState::Finished,
                AttemptAction::Succeed(TransportKind::Quic),
            ),
            AttemptEvent::Established(false) => (
                AttemptState::Generating,
                AttemptAction::GeneratePacket { capacity: QUIC_MAX_DATAGRAM_SIZE },
            ),
            _ => failed(),
        },
        AttemptState::Generating => match event {
            AttemptEvent::Size(length) => if length <= QUIC_MAX_DATAGRAM_SIZE {
                (AttemptState::Sending, AttemptAction::SendPacket { length })
            } else {
                failed()
            },
            AttemptEvent::Nothing => (AttemptState::Polling, AttemptAction::Poll),
            _ => (AttemptState::Closing, AttemptAction::CloseHandshake),
        },
        AttemptState::Sending => match event {
            AttemptEvent::Done => (
                AttemptState::Generating,
                AttemptAction::GeneratePacket { capacity: QUIC_MAX_DATAGRAM_SIZE },
            ),
            AttemptEvent::WouldBlock => (AttemptState::Polling, AttemptAction::Poll),
            _ => failed(),
        },
        AttemptState::Closing => (AttemptState::Polling, AttemptAction::Poll),
        AttemptState::Finished => failed(),
    }
}

/// One attempt to connect to a candidate.
#[derive(Debug)]
pub struct Attempt {
    pub candidate: Candidate,
    pub state: AttemptState,
}

/// Draws `length` random bytes with `ring::rand::SystemRandom`, through
/// `SecureRandom::fill`, which fills the whole of a buffer or fails. What
/// comes back has the length asked for; nothing is said of the bytes.
#[verifier::external_body]
fn random_bytes(length: usize) -> (bytes: Option<Vec<u8>>)
    ensures
        bytes matches Some(b) ==> b@.len() == length,
{
    let mut bytes = vec![0u8; length];
    match ring::rand::SystemRandom::new().fill(&mut bytes) {
        Ok(()) => Some(bytes),
        Err(_) => None,
    }
}

/// A random source connection ID for a QUIC handshake, of the largest length
/// that QUIC allows; `None` when the system has no randomness to give.
pub fn source_connection_id() -> (id: Option<Vec<u8>>)
    ensures
        id matches Some(bytes) ==> bytes@.len() == QUIC_MAX_CONN_ID_LEN,
{
    random_bytes(QUIC_MAX_CONN_ID_LEN)
}

/// The address that a QUIC attempt binds.
pub fn bind_address_for_quic(candidate: &Candidate) -> (address: SocketAddress)
    ensures
        address == quic_bind_address(*candidate),
{
    match candidate.local {
        Some(local) => local,
        None => {
            if candidate.remote.is_ipv6() {
                SocketAddress { ip: crate::endpoint::IpAddress::V6(0), port: 0 }
            } else {
                SocketAddress { ip: crate::endpoint::IpAddress::V4(0), port: 0 }
            }
        },
    }
}

impl Attempt {
    /// The attempt for candidate `k` of a race: it starts by waiting out its
    /// delay, `k` times 250 ms.
    pub fn start(candidate: Candidate, k: usize) -> (started: (Attempt, AttemptAction))
        ensures
            started.0.candidate == candidate,
            started.0.state == AttemptState::Sleeping,
            started.1 == (AttemptAction::Sleep { millis: (k * ATTEMPT_DELAY_MS) as u128 }),
    {
        (
            Attempt { candidate, state: AttemptState::Sleeping },
            AttemptAction::Sleep { millis: start_delay_ms(k) },
        )
    }

    /// Whether the attempt has come to its end.
    pub fn is_finished(&self) -> (finished: bool)
        ensures
            finished == (self.state == AttemptState::Finished),
    {
        self.state == AttemptState::Finished
    }

    fn fail(&mut self) -> (action: AttemptAction)
        ensures
            final(self).candidate == old(self).candidate,
            (final(self).state, action) == failed(),
    {
        self.state = AttemptState::Finished;
        AttemptAction::Fail(TapsError::ConnectionAttemptFailed)
    }

    fn go(&mut self, state: AttemptState, action: AttemptAction) -> (out: AttemptAction)
        ensures
            final(self).candidate == old(self).candidate,
            final(self).state == state,
            out == action,
    {
        self.state = state;
        action
    }

    fn begin(&mut self) -> (action: AttemptAction)
        ensures
            final(self).candidate == old(self).candidate,
            (final(self).state, action) == begin(old(self).candidate),
    {
        let candidate = self.candidate;
        if same_text(candidate.protocol, "tcp") {
            self.go(
                AttemptState::ConnectingStream,
                AttemptAction::ConnectStream { remote: candidate.remote },
            )
        } else if same_text(candidate.protocol, "quic") {
            let local = bind_address_for_quic(&candidate);
            self.go(AttemptState::BindingDatagram, AttemptAction::BindDatagram { local })
        } else if same_text(candidate.protocol, "udp") {
            match candidate.local {
                Some(local) => self.go(
                    AttemptState::BindingDatagram,
                    AttemptAction::BindDatagram { local },
                ),
                None => self.fail(),
            }
        } else {
            self.go(AttemptState::Finished, AttemptAction::Fail(TapsError::ProtocolNotSupported))
        }
    }

    /// Takes the host's report of the action asked for last and says what to
    /// do next.
    pub fn on_event(&mut self, event: AttemptEvent) -> (action: AttemptAction)
        ensures
            final(self).candidate == old(self).candidate,
            (final(self).state, action) == next(old(self).candidate, old(self).state, event),
            action is Succeed || action is Fail <==> final(self).state == AttemptState::Finished,
    {
        let candidate = self.candidate;
        match self.state {
            AttemptState::Sleeping => self.begin(),
            AttemptState::ConnectingStream => match event {
                AttemptEvent::Done => self.go(
                    AttemptState::Finished,
                    AttemptAction::Succeed(TransportKind::Tcp),
                ),
                _ => self.fail(),
            },
            AttemptState::BindingDatagram => match event {
                AttemptEvent::Done => self.go(
                    AttemptState::ConnectingDatagram,
                    AttemptAction::ConnectDatagram { remote: candidate.remote },
                ),
                _ => self.fail(),
            },
            AttemptState::ConnectingDatagram => match event {
                AttemptEvent::Done => if same_text(candidate.protocol, "quic") {
                    self.go(
                        AttemptState::OpeningHandshake,
                        AttemptAction::OpenHandshake { connection_id_length: QUIC_MAX_CONN_ID_LEN },
                    )
                } else {
                    self.go(AttemptState::Finished, AttemptAction::Succeed(TransportKind::Udp))
                },
                _ => self.fail(),
            },
            AttemptState::OpeningHandshake => match event {
                AttemptEvent::Done => self.go(
                    AttemptState::GeneratingFirstPacket,
                    AttemptAction::GeneratePacket { capacity: QUIC_MAX_DATAGRAM_SIZE },
                ),
                _ => self.fail(),
            },
            AttemptState::GeneratingFirstPacket => match event {
                AttemptEvent::Size(length) => if length <= QUIC_MAX_DATAGRAM_SIZE {
                    self.go(
                        AttemptState::SendingFirstPacket { length },
                        AttemptAction::SendPacket { length },
                    )
                } else {
                    self.fail()
                },
                _ => self.fail(),
            },
            AttemptState::SendingFirstPacket { length } => match event {
                AttemptEvent::Done => self.go(AttemptState::Polling, AttemptAction::Poll),
                AttemptEvent::WouldBlock => self.go(
                    AttemptState::SendingFirstPacket { length },
                    AttemptAction::SendPacket { length },
                ),
                _ => self.fail(),
            },
            AttemptState::Polling => match event {
                AttemptEvent::Done => self.go(
                    AttemptState::Receiving,
                    AttemptAction::ReceivePacket { capacity: QUIC_RECEIVE_BUFFER_SIZE },
                ),
                AttemptEvent::Nothing => self.go(
                    AttemptState::HandlingTimeout,
                    AttemptAction::HandleTimeout,
                ),
                _ => self.fail(),
            },
            AttemptState::HandlingTimeout => self.go(
                AttemptState::Checking,
                AttemptAction::CheckEstablished,
            ),
            AttemptState::Receiving => match event {
                AttemptEvent::Size(length) => if length <= QUIC_RECEIVE_BUFFER_SIZE {
                    self.go(AttemptState::Feeding, AttemptAction::FeedPacket { length })
                } else {
                    self.fail()
                },
                AttemptEvent::WouldBlock => self.go(
                    AttemptState::Checking,
                    AttemptAction::CheckEstablished,
                ),
                _ => self.fail(),
            },
            AttemptState::Feeding => self.go(
                AttemptState::Receiving,
                AttemptAction::ReceivePacket { capacity: QUIC_RECEIVE_BUFFER_SIZE },
            ),
            AttemptState::Checking => match event {
                AttemptEvent::Established(true) => self.go(
                    AttemptState::Finished,
                    AttemptAction::Succeed(TransportKind::Quic),
                ),
                AttemptEvent::Established(false) => self.go(
                    AttemptState::Generating,
                    AttemptAction::GeneratePacket { capacity: QUIC_MAX_DATAGRAM_SIZE },
                ),
                _ => self.fail(),
            },
            AttemptState::Generating => match event {
                AttemptEvent::Size(length) => if length <= QUIC_MAX_DATAGRAM_SIZE {
                    self.go(AttemptState::Sending, AttemptAction::SendPacket { length })
                } else {
                    self.fail()
                },
                AttemptEvent::Nothing => self.go(AttemptState::Polling, AttemptAction::Poll),
                _ => self.go(AttemptState::Closing, AttemptAction::CloseHandshake),
            },
            AttemptState::Sending => match event {
                AttemptEvent::Done => self.go(
                    AttemptState::Generating,
                    AttemptAction::GeneratePacket { capacity: QUIC_MAX_DATAGRAM_SIZE },
                ),
                AttemptEvent::WouldBlock => self.go(AttemptState::Polling, AttemptAction::Poll),
                _ => self.fail(),
            },
            AttemptState::Closing => self.go(AttemptState::Polling, AttemptAction::Poll),
            AttemptState::Finished => self.fail(),
        }
    }
}

/// The kind of transport that a candidate's protocol stands for.
pub open spec fn protocol_kind(candidate: Candidate) -> Option<TransportKind> {
    if is_tcp(candidate) {
        Some(TransportKind::Tcp)
    } else if is_quic(candidate) {
        Some(TransportKind::Quic)
    } else if is_udp(candidate) {
        Some(TransportKind::Udp)
    } else {
        None
    }
}

/// The state of an attempt after a sequence of events.
pub open spec fn state_after(candidate: Candidate, events: Seq<AttemptEvent>) -> AttemptState
    decreases events.len(),
{
    if events.len() == 0 {
        AttemptState::Sleeping
    } else {
        next(candidate, state_after(candidate, events.drop_last()), events.last()).0
    }
}

/// Whether a state is one that an attempt for the candidate passes through.
pub open spec fn fits(candidate: Candidate, state: AttemptState) -> bool {
    match state {
        AttemptState::Sleeping | AttemptState::Finished => true,
        AttemptState::ConnectingStream => protocol_kind(candidate) == Some(TransportKind::Tcp),
        AttemptState::BindingDatagram | AttemptState::ConnectingDatagram => {
            ||| protocol_kind(candidate) == Some(TransportKind::Quic)
            ||| protocol_kind(candidate) == Some(TransportKind::Udp) && candidate.local is Some
        },
        _ => protocol_kind(candidate) == Some(TransportKind::Quic),
    }
}

/// Whatever the host reports, an attempt stays within the states of its
/// candidate's protocol.
pub proof fn lemma_states_fit(candidate: Candidate, events: Seq<AttemptEvent>)
    ensures
        fits(candidate, state_after(candidate, events)),
    decreases events.len(),
{
    if events.len() > 0 {
        lemma_states_fit(candidate, events.drop_last());
    }
}

/// An attempt succeeds only with the kind of transport that its candidate's
/// protocol stands for, and an attempt for an unknown protocol does nothing
/// but fail as not supported.
pub proof fn lemma_success_is_of_the_protocol(
    candidate: Candidate,
    events: Seq<AttemptEvent>,
    event: AttemptEvent,
)
    ensures
        next(candidate, state_after(candidate, events), event).1 matches AttemptAction::Succeed(
            kind,
        ) ==> protocol_kind(candidate) == Some(kind),
        protocol_kind(candidate) is None ==> next(candidate, AttemptState::Sleeping, event)
            == (AttemptState::Finished, AttemptAction::Fail(TapsError::ProtocolNotSupported)),
        protocol_kind(candidate) == Some(TransportKind::Udp) && candidate.local is None ==> next(
            candidate,
            AttemptState::Sleeping,
            event,
        ) == failed(),
{
    lemma_states_fit(candidate, events);
}

} // verus!
