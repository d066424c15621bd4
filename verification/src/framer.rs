//! Framers: the codecs between application messages and the bytes that a
//! transport carries.

use vstd::prelude::*;
use crate::message::Message;

verus! {

/// A codec between messages of type `T` that are sent, messages of type `U`
/// that are received, and bytes. A framer keeps no state between messages.
pub trait Framer<T, U> {
    /// Whether `bytes` is what `data` is sent as.
    spec fn encodes(&self, data: T, bytes: Seq<u8>) -> bool;

    /// Whether received bytes hold a message.
    spec fn decodable(&self, bytes: Seq<u8>) -> bool;

    /// Whether `data` is the message that the received `bytes` hold.
    spec fn decodes(&self, bytes: Seq<u8>, data: U) -> bool;

    /// Turns a message into the bytes to send.
    fn new_sent_message(&self, message: Message<T>) -> (bytes: Vec<u8>)
        ensures
            self.encodes(message.data, bytes@),
    ;

    /// Tells whether received bytes hold a message.
    fn accepts(&self, received_data: &Vec<u8>) -> (ok: bool)
        ensures
            ok == self.decodable(received_data@),
    ;

    /// Turns received bytes into the message they hold.
    fn handle_received_data(&self, received_data: Vec<u8>) -> (data: U)
        requires
            self.decodable(received_data@),
        ensures
            self.decodes(received_data@, data),
    ;
}

/// A type that knows how it is sent.
pub trait Encode: Sized {
    /// The bytes that the value is sent as.
    spec fn encoding(self) -> Seq<u8>;

    /// Turns the value into the bytes to send.
    fn encode(self) -> (bytes: Vec<u8>)
        ensures
            bytes@ == self.encoding(),
    ;
}

/// A type that knows how it is read from received bytes.
pub trait Decode: Sized {
    /// Whether the bytes hold a value.
    spec fn decodable(bytes: Seq<u8>) -> bool;

    /// Whether `value` is the value that `bytes` hold.
    spec fn decodes(bytes: Seq<u8>, value: Self) -> bool;

    /// Tells whether the bytes hold a value.
    fn can_decode(data: &Vec<u8>) -> (ok: bool)
        ensures
            ok == Self::decodable(data@),
    ;

    /// Reads the value that the bytes hold.
    fn decode(data: Vec<u8>) -> (value: Self)
        requires
            Self::decodable(data@),
        ensures
            Self::decodes(data@, value),
    ;
}

/// The framer of an HTTP client: requests go out, responses come in.
pub struct HttpClientFramer;

impl<T: Encode, U: Decode> Framer<T, U> for HttpClientFramer {
    open spec fn encodes(&self, data: T, bytes: Seq<u8>) -> bool {
        bytes == data.encoding()
    }

    open spec fn decodable(&self, bytes: Seq<u8>) -> bool {
        U::decodable(bytes)
    }

    open spec fn decodes(&self, bytes: Seq<u8>, data: U) -> bool {
        U::decodes(bytes, data)
    }

    fn new_sent_message(&self, message: Message<T>) -> (bytes: Vec<u8>) {
        message.data.encode()
    }

    fn accepts(&self, received_data: &Vec<u8>) -> (ok: bool) {
        U::can_decode(received_data)
    }

    fn handle_received_data(&self, received_data: Vec<u8>) -> (data: U) {
        U::decode(received_data)
    }
}

} // verus!
