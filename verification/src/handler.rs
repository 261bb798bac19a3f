//! Message handler trait

use vstd::prelude::*;

use crate::traits::{MessageSource, Payload};

verus! {

/// Message handler capability, implemented by application code.
///
/// A handler is the callback attached to an endpoint: it is invoked with the
/// message's optional source tag and the concrete payload, and returns one
/// value. The two spec functions describe, per handler value, what a call
/// returns and what state the handler is left in; an implementation's
/// `on_message` must behave as they say.
pub trait MessageHandler: Sized {
    /// Payload type this handler is receiving
    type Message: Payload;

    /// Source tag type of the messages this handler is receiving
    type Source: MessageSource;

    /// The return type of the message handler
    type Return;

    /// What a call on this handler value returns.
    spec fn response(&self, source: Option<Self::Source>, message: Self::Message) -> Self::Return;

    /// The handler state left behind by a call.
    spec fn after(&self, source: Option<Self::Source>, message: Self::Message) -> Self;

    /// Called when a message is received
    fn on_message(&mut self, source: Option<Self::Source>, message: Self::Message) -> (r:
        Self::Return)
        ensures
            r == old(self).response(source, message),
            *final(self) == old(self).after(source, message),
    ;
}

} // verus!
