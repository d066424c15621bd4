//! Connections: established transports with a uniform surface for sending,
//! receiving and closing, whatever the protocol stack under them.

use vstd::prelude::*;
use crate::error::TapsError;
use crate::framer::Framer;
use crate::message::Message;
use crate::preconnection::Preconnection;
use crate::transport::TransportInstance;
use crate::transport::TransportKind;

verus! {

/// The room for one received message, in bytes.
pub const RECEIVE_BUFFER_SIZE: usize = 1024;

/// The QUIC stream that messages are sent on.
pub const QUIC_SEND_STREAM_ID: u64 = 0;

/// What the host does to send.
#[derive(Debug, Clone, Copy, PartialEq, Eq, Structural)]
pub enum SendAction {
    /// Write the bytes from `from` on to the stream.
    WriteStream { from: usize },
    /// Send all the bytes as one datagram.
    SendDatagram,
    /// If the handshake is established, send all the bytes on the stream,
    /// with or without the mark that ends it.
    SendOnStream { stream_id: u64, fin: bool },
}

/// What the host reports of a send action.
#[derive(Debug, Clone, Copy, PartialEq, Eq, Structural)]
pub enum SendEvent {
    /// The transport has taken this many bytes.
    Accepted(usize),
    /// The handshake is not established.
    NotEstablished,
    /// The transport has failed.
    Failed,
}

/// What follows from a report on a send action.
#[derive(Debug)]
pub enum SendStep {
    /// More is to be done.
    Continue(SendAction),
    /// The send has come to its end.
    Finished(Result<(), TapsError>),
}

/// A message on its way out: the bytes, and how many of them the transport
/// has taken.
#[derive(Debug)]
pub struct Transmission {
    pub kind: TransportKind,
    pub data: Vec<u8>,
    pub accepted: usize,
}

/// The first action of a transmission over a transport of the given kind.
pub open spec fn first_send_action(kind: TransportKind) -> SendAction {
    match kind {
        TransportKind::Tcp => SendAction::WriteStream { from: 0 },
        TransportKind::Udp => SendAction::SendDatagram,
        TransportKind::Quic => SendAction::SendOnStream {
            stream_id: QUIC_SEND_STREAM_ID,
            fin: true,
        },
    }
}

impl Transmission {
    /// No more bytes are counted as taken than there are.
    pub open spec fn wf(&self) -> bool {
        self.accepted <= self.data@.len()
    }

    /// The number of bytes taken after a report, and what follows from the
    /// report. A stream has sent a message when it has taken every byte; a
    /// write that takes nothing while bytes are left has failed. A datagram
    /// or a QUIC stream send is one operation.
    pub open spec fn next(self, event: SendEvent) -> (int, SendStep) {
        match event {
            SendEvent::Accepted(n) => if self.kind == TransportKind::Tcp {
                if self.accepted + n >= self.data@.len() {
                    (self.data@.len() as int, SendStep::Finished(Ok(())))
                } else if n == 0 {
                    (self.accepted as int, SendStep::Finished(Err(TapsError::MessageSendFailed)))
                } else {
                    (
                        self.accepted + n,
                        SendStep::Continue(
                            SendAction::WriteStream { from: (self.accepted + n) as usize },
                        ),
                    )
                }
            } else {
                (self.data@.len() as int, SendStep::Finished(Ok(())))
            },
            _ => (self.accepted as int, SendStep::Finished(Err(TapsError::MessageSendFailed))),
        }
    }

    /// The action to begin with.
    pub fn first_action(&self) -> (action: SendAction)
        ensures
            action == first_send_action(self.kind),
    {
        match self.kind {
            TransportKind::Tcp => SendAction::WriteStream { from: 0 },
            TransportKind::Udp => SendAction::SendDatagram,
            TransportKind::Quic => SendAction::SendOnStream {
                stream_id: QUIC_SEND_STREAM_ID,
                fin: true,
            },
        }
    }

    /// Takes the host's report on the action asked for last and says what
    /// follows.
    pub fn on_event(&mut self, event: SendEvent) -> (step: SendStep)
        requires
            old(self).wf(),
        ensures
            final(self).wf(),
            final(self).kind == old(self).kind,
            final(self).data == old(self).data,
            (final(self).accepted as int, step) == old(self).next(event),
            step matches SendStep::Finished(Ok(_)) ==> final(self).accepted
                == old(self).data@.len(),
    {
        match event {
            SendEvent::Accepted(n) => {
                let left = self.data.len() - self.accepted;
                match self.kind {
                    TransportKind::Tcp => {
                        if n >= left {
                            self.accepted = self.data.len();
                            SendStep::Finished(Ok(()))
                        } else if n == 0 {
                            SendStep::Finished(Err(TapsError::MessageSendFailed))
                        } else {
                            self.accepted = self.accepted + n;
                            SendStep::Continue(SendAction::WriteStream { from: self.accepted })
                        }
                    },
                    _ => {
                        self.accepted = self.data.len();
                        SendStep::Finished(Ok(()))
                    },
                }
            },
            _ => SendStep::Finished(Err(TapsError::MessageSendFailed)),
        }
    }
}

/// What the host does to receive: one read of at most `capacity` bytes.
#[derive(Debug, Clone, Copy, PartialEq, Eq, Structural)]
pub enum ReceiveAction {
    /// Read from the stream.
    ReadStream { capacity: usize },
    /// Receive one datagram.
    ReceiveDatagram { capacity: usize },
    /// Read from the readable QUIC streams in turn until one gives bytes.
    ReadReadableStream { capacity: usize },
}

/// What the host does to close a connection gracefully.
#[derive(Debug, Clone, Copy, PartialEq, Eq, Structural)]
pub enum CloseAction {
    /// Let what was written drain, then shut the stream down.
    ShutdownStream,
    /// Release the datagram socket.
    ReleaseDatagram,
    /// Close the QUIC connection, then release the datagram socket.
    CloseQuic,
}

/// An established transport together with the preconnection it came from.
pub struct Connection<'a, T, U, F: Framer<T, U>, S, D, Q> {
    pub preconnection: Preconnection<'a, T, U, F>,
    pub transport_instance: TransportInstance<S, D, Q>,
}

impl<'a, T, U, F: Framer<T, U>, S, D, Q> Connection<'a, T, U, F, S, D, Q> {
    pub fn new(
        preconnection: Preconnection<'a, T, U, F>,
        transport_instance: TransportInstance<S, D, Q>,
    ) -> (connection: Connection<'a, T, U, F, S, D, Q>)
        ensures
            connection.preconnection == preconnection,
            connection.transport_instance == transport_instance,
    {
        Connection { preconnection: preconnection, transport_instance: transport_instance }
    }

    /// Starts sending a message: the framer turns it into bytes, and the
    /// kind of transport decides how they go out.
    pub fn send(&self, message: Message<T>) -> (transmission: Transmission)
        ensures
            transmission.wf(),
            transmission.kind == self.transport_instance.transport_kind(),
            self.preconnection.framer.encodes(message.data, transmission.data@),
            transmission.accepted == 0,
    {
        let data = self.preconnection.framer.new_sent_message(message);
        Transmission { kind: self.transport_instance.kind(), data, accepted: 0 }
    }

    /// Says how the host reads the next message.
    pub fn receive_action(&self) -> (action: ReceiveAction)
        ensures
            action == match self.transport_instance.transport_kind() {
                TransportKind::Tcp => ReceiveAction::ReadStream { capacity: RECEIVE_BUFFER_SIZE },
                TransportKind::Udp => ReceiveAction::ReceiveDatagram {
                    capacity: RECEIVE_BUFFER_SIZE,
                },
                TransportKind::Quic => ReceiveAction::ReadReadableStream {
                    capacity: RECEIVE_BUFFER_SIZE,
                },
            },
    {
        match self.transport_instance.kind() {
            TransportKind::Tcp => ReceiveAction::ReadStream { capacity: RECEIVE_BUFFER_SIZE },
            TransportKind::Udp => ReceiveAction::ReceiveDatagram { capacity: RECEIVE_BUFFER_SIZE },
            TransportKind::Quic => ReceiveAction::ReadReadableStream {
                capacity: RECEIVE_BUFFER_SIZE,
            },
        }
    }

    /// Takes what the host has read, or `None` where the read failed, and
    /// lets the framer make a message of it. Receiving fails where the read
    /// failed and where the bytes hold no message.
    pub fn receive(&self, received: Option<Vec<u8>>) -> (outcome: Result<Message<U>, TapsError>)
        ensures
            match outcome {
                Ok(message) => {
                    &&& received matches Some(bytes)
                    &&& self.preconnection.framer.decodable(bytes@)
                    &&& self.preconnection.framer.decodes(bytes@, message.data)
                    &&& message.message_context is None
                },
                Err(error) => {
                    &&& error == TapsError::MessageReceiveFailed
                    &&& received matches Some(bytes) ==> !self.preconnection.framer.decodable(
                        bytes@,
                    )
                },
            },
    {
        match received {
            Some(bytes) => {
                if self.preconnection.framer.accepts(&bytes) {
                    let data = self.preconnection.framer.handle_received_data(bytes);
                    Ok(Message::new(data, None))
                } else {
                    Err(TapsError::MessageReceiveFailed)
                }
            },
            None => Err(TapsError::MessageReceiveFailed),
        }
    }

    /// Ends the connection gracefully: hands the transport back with what
    /// the host has to do to it.
    pub fn close(self) -> (closing: (TransportInstance<S, D, Q>, CloseAction))
        ensures
            closing.0 == self.transport_instance,
            closing.1 == match self.transport_instance.transport_kind() {
                TransportKind::Tcp => CloseAction::ShutdownStream,
                TransportKind::Udp => CloseAction::ReleaseDatagram,
                TransportKind::Quic => CloseAction::CloseQuic,
            },
    {
        let action = match self.transport_instance.kind() {
            TransportKind::Tcp => CloseAction::ShutdownStream,
            TransportKind::Udp => CloseAction::ReleaseDatagram,
            TransportKind::Quic => CloseAction::CloseQuic,
        };
        (self.transport_instance, action)
    }

    /// Ends the connection at once: the connection and the transport it
    /// owns are dropped.
    pub fn abort(self) {
    }
}

} // verus!
