//! Transport Services: property-driven selection of a transport protocol,
//! candidate gathering and connection racing, as a verified sans-I/O core.
//!
//! The library decides; the host performs the I/O. Every operation that
//! touches the network is expressed as an action handed to the host, and the
//! host reports back what happened as an event.

pub mod attempt;
pub mod candidates;
pub mod connection;
pub mod endpoint;
pub mod error;
pub mod framer;
pub mod http_codec;
pub mod listener;
pub mod message;
pub mod preconnection;
pub mod race;
pub mod ranking;
pub mod selection_properties;
pub mod text;
pub mod transport;
pub mod transport_properties;
