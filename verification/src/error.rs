//! The failures that the library reports.

use vstd::prelude::*;

verus! {

/// `std::io::Error`, which the library carries from the host to the caller
/// without looking inside.
#[verifier::external_type_specification]
#[verifier::external_body]
pub struct ExIoError(std::io::Error);

/// Everything that can go wrong between describing a transport and using it.
#[derive(Debug)]
pub enum TapsError {
    /// A lower-level I/O error.
    Io(std::io::Error),
    /// Initiation needs a remote endpoint.
    RemoteEndpointNotProvided,
    /// Listening needs a local endpoint.
    LocalEndpointNotProvided,
    /// Initiation needs a port in the remote endpoint.
    RemoteEndpointPortNotProvided,
    /// Initiation needs an address or a host name in the remote endpoint.
    RemoteEndpointAddressAndHostNameBothNotProvided,
    /// No protocol stack satisfies the transport properties.
    NoCompatibleProtocolStacks,
    /// A candidate names a protocol stack that is not supported.
    ProtocolNotSupported,
    /// One candidate failed to connect; the race goes on.
    ConnectionAttemptFailed,
    /// Every candidate failed to connect.
    NoCandidateSucceeded,
    /// A message could not be sent.
    MessageSendFailed,
    /// A message could not be received.
    MessageReceiveFailed,
}

impl TapsError {
    /// The text that describes an error; the text of an I/O error is the
    /// platform's and is left open here.
    pub open spec fn message(&self) -> Seq<char> {
        match self {
            TapsError::Io(_) => Seq::empty(),
            TapsError::RemoteEndpointNotProvided => "No remote endpoint was provided. A remote endpoint must be provided in a preconnection for Connection initiation to take place."@,
            TapsError::LocalEndpointNotProvided => "No local endpoint was provided. A local endpoint must be supplied to listen for incoming Connections."@,
            TapsError::RemoteEndpointPortNotProvided => "No port was provided in the remote endpoint. A port must be provided in the remote endpoint for Connection initiation to take place."@,
            TapsError::RemoteEndpointAddressAndHostNameBothNotProvided => "Both address and host name were not provided in the remote endpoint. At least one of the address and host name must be provided in the remote endpoint for Connection initiation to take place."@,
            TapsError::NoCompatibleProtocolStacks => "After performing candidate gathering, no protocol stacks were found that satisfy the provided Transport Properties. Therefore, Connection initiation cannot take place."@,
            TapsError::ProtocolNotSupported => "Attempt was made to connect using a protocol stack which is not supported by rs_taps."@,
            TapsError::ConnectionAttemptFailed => "Establishing a particular candidate connection during connection racing failed. Other candidate connections will be attempted if available."@,
            TapsError::NoCandidateSucceeded => "No candidate connection handshake completed successfully. Therefore, Connection ititiation was unsuccessful"@,
            TapsError::MessageSendFailed => "Error sending message"@,
            TapsError::MessageReceiveFailed => "Error receiving message"@,
        }
    }

    /// Describes the error in words.
    pub fn description(&self) -> (text: String)
        ensures
            !(self is Io) ==> text@ == self.message(),
    {
        match self {
            TapsError::Io(err) => err.to_string(),
            TapsError::RemoteEndpointNotProvided => String::from_str("No remote endpoint was provided. A remote endpoint must be provided in a preconnection for Connection initiation to take place."),
            TapsError::LocalEndpointNotProvided => String::from_str("No local endpoint was provided. A local endpoint must be supplied to listen for incoming Connections."),
            TapsError::RemoteEndpointPortNotProvided => String::from_str("No port was provided in the remote endpoint. A port must be provided in the remote endpoint for Connection initiation to take place."),
            TapsError::RemoteEndpointAddressAndHostNameBothNotProvided => String::from_str("Both address and host name were not provided in the remote endpoint. At least one of the address and host name must be provided in the remote endpoint for Connection initiation to take place."),
            TapsError::NoCompatibleProtocolStacks => String::from_str("After performing candidate gathering, no protocol stacks were found that satisfy the provided Transport Properties. Therefore, Connection initiation cannot take place."),
            TapsError::ProtocolNotSupported => String::from_str("Attempt was made to connect using a protocol stack which is not supported by rs_taps."),
            TapsError::ConnectionAttemptFailed => String::from_str("Establishing a particular candidate connection during connection racing failed. Other candidate connections will be attempted if available."),
            TapsError::NoCandidateSucceeded => String::from_str("No candidate connection handshake completed successfully. Therefore, Connection ititiation was unsuccessful"),
            TapsError::MessageSendFailed => String::from_str("Error sending message"),
            TapsError::MessageReceiveFailed => String::from_str("Error receiving message"),
        }
    }
}

impl From<std::io::Error> for TapsError {
    fn from(err: std::io::Error) -> (error: TapsError) {
        TapsError::Io(err)
    }
}

impl vstd::std_specs::convert::FromSpecImpl<std::io::Error> for TapsError {
    open spec fn obeys_from_spec() -> bool {
        true
    }

    open spec fn from_spec(err: std::io::Error) -> TapsError {
        TapsError::Io(err)
    }
}

} // verus!
