//! The envelope in which application data travels.

use vstd::prelude::*;

verus! {

/// Per-message metadata: opaque key-value pairs.
#[derive(Debug, Clone)]
pub struct MessageContext {
    pub entries: Vec<(String, String)>,
}

impl MessageContext {
    /// A context without entries.
    pub fn new() -> (context: MessageContext)
        ensures
            context.entries@.len() == 0,
    {
        MessageContext { entries: Vec::new() }
    }
}

/// Application data with an optional context.
#[derive(Debug, Clone)]
pub struct Message<T> {
    pub data: T,
    pub message_context: Option<MessageContext>,
}

impl<T> Message<T> {
    pub fn new(data: T, message_context: Option<MessageContext>) -> (message: Message<T>)
        ensures
            message.data == data,
            message.message_context == message_context,
    {
        Message { data: data, message_context: message_context }
    }
}

} // verus!
