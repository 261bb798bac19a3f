//! Message container for wrapping any [`Payload`]

use vstd::prelude::*;
use vstd::pervasive::unreached;

use crate::policy::Policy;
use crate::traits::{MessageSource, Payload};

verus! {

/// Erased payload container: one payload value, tagged with its delivery
/// flavor. A `Unicast` payload travels to exactly one recipient and is
/// never duplicated; a `Broadcast` payload may be duplicated for fan-out.
#[derive(Debug)]
pub enum MessagePayload<M> {
    /// A payload meant for exactly one recipient
    Unicast(M),
    /// A payload that may be duplicated to every interested recipient
    Broadcast(M),
}

impl<M: Payload> MessagePayload<M> {
    /// The wrapped payload value.
    pub open spec fn value(&self) -> M {
        match self {
            MessagePayload::Unicast(p) => *p,
            MessagePayload::Broadcast(p) => *p,
        }
    }

    /// Whether the container is broadcast-flavored.
    pub open spec fn is_broadcast(&self) -> bool {
        self is Broadcast
    }

    /// Well-formed: a broadcast-flavored payload must be duplicable.
    pub open spec fn wf(&self) -> bool {
        self.is_broadcast() ==> self.value().cloneable()
    }

    /// The type token of the wrapped payload.
    pub open spec fn token(&self) -> u64 {
        self.value().token()
    }

    /// The runtime type identity of the wrapped payload.
    pub fn type_token(&self) -> (t: u64)
        ensures
            t == self.token(),
    {
        match self {
            MessagePayload::Unicast(p) => p.type_token(),
            MessagePayload::Broadcast(p) => p.type_token(),
        }
    }

    /// Take the wrapped payload value out of the container.
    pub fn into_value(self) -> (p: M)
        ensures
            p == self.value(),
    {
        match self {
            MessagePayload::Unicast(p) => p,
            MessagePayload::Broadcast(p) => p,
        }
    }

    /// Duplicate the container. Duplicating a unicast payload is a
    /// programmer error (the payload is meant for exactly one recipient),
    /// so the precondition restricts duplication to broadcast payloads.
    pub fn duplicate(&self) -> (c: Self)
        requires
            self.is_broadcast(),
            self.wf(),
        ensures
            c == *self,
    {
        match self {
            MessagePayload::Broadcast(p) => {
                match p.clone_payload() {
                    Some(q) => MessagePayload::Broadcast(q),
                    None => unreached(),
                }
            },
            MessagePayload::Unicast(_) => unreached(),
        }
    }
}

/// Routing mode of a message.
#[derive(Clone, Copy, Debug)]
pub enum Destination<Addr> {
    /// Message destined to any endpoint listening to a message type.
    /// It will be delivered to a single endpoint only, selected per
    /// [`Policy`]. Use broadcast to send clones to all endpoints listening
    /// to a message type.
    Any(Policy),
    /// Broadcast clones of the message to all endpoints registered for the
    /// payload type token of the message
    Broadcast(Policy),
    /// Message destined to a specific endpoint
    Endpoint(Addr),
}

impl<Addr> Destination<Addr> {
    /// An any-endpoint destination under the default policy.
    pub fn any() -> (d: Self)
        ensures
            d == Destination::<Addr>::Any(Policy::RoundRobin),
    {
        Destination::Any(Policy::default())
    }

    /// A specific-endpoint destination.
    pub fn endpoint(addr: Addr) -> (d: Self)
        ensures
            d == Destination::<Addr>::Endpoint(addr),
    {
        Destination::Endpoint(addr)
    }
}

/// Message container which wraps anything implementing [`Payload`],
/// together with a destination and an optional source tag.
#[derive(Debug)]
pub struct Message<M, S> {
    source: Option<S>,
    dest: Destination<u64>,
    payload: MessagePayload<M>,
    is_clone: bool,
}

impl<M: Payload, S: MessageSource> Message<M, S> {
    /// The wrapped payload value.
    pub open spec fn payload_value(&self) -> M {
        self.payload_view().value()
    }

    /// The payload container.
    pub closed spec fn payload_view(&self) -> MessagePayload<M> {
        self.payload
    }

    /// Whether the payload is broadcast-flavored (duplicable).
    pub open spec fn is_broadcast_payload(&self) -> bool {
        self.payload_view().is_broadcast()
    }

    /// The type token of the payload.
    pub open spec fn token(&self) -> u64 {
        self.payload_view().token()
    }

    /// The source tag, if any.
    pub closed spec fn src(&self) -> Option<S> {
        self.source
    }

    /// The hash of the source tag, if any.
    pub open spec fn src_hash(&self) -> Option<u64> {
        match self.src() {
            Some(s) => Some(s.hash_spec()),
            None => None,
        }
    }

    /// The destination of the message.
    pub closed spec fn dest_spec(&self) -> Destination<u64> {
        self.dest
    }

    /// Whether this message was produced by duplicating another.
    pub closed spec fn is_duplicate(&self) -> bool {
        self.is_clone
    }

    /// Well-formed: the payload container is well-formed.
    pub open spec fn wf(&self) -> bool {
        self.payload_view().wf()
    }

    /// Create a new message with destination set to [`Destination::Any`].
    /// This will route the message to any registered receiver for this
    /// message type
    pub fn unicast(payload: M) -> (m: Self)
        ensures
            m.payload_view() == MessagePayload::Unicast(payload),
            m.dest_spec() == Destination::<u64>::Any(Policy::RoundRobin),
            m.src() is None,
            !m.is_duplicate(),
            m.wf(),
    {
        Self::new_to(Destination::Any(Policy::default()), MessagePayload::Unicast(payload))
    }

    /// Create a new message with destination set to
    /// [`Destination::Broadcast`]. The payload must be duplicable.
    pub fn broadcast(payload: M) -> (m: Self)
        requires
            payload.cloneable(),
        ensures
            m.payload_view() == MessagePayload::Broadcast(payload),
            m.dest_spec() == Destination::<u64>::Broadcast(Policy::RoundRobin),
            m.src() is None,
            !m.is_duplicate(),
            m.wf(),
    {
        Self::new_to(Destination::Broadcast(Policy::default()), MessagePayload::Broadcast(payload))
    }

    /// Create a new message with destination specified by `dest`
    pub fn new_to(dest: Destination<u64>, payload: MessagePayload<M>) -> (m: Self)
        requires
            payload.wf(),
        ensures
            m.payload_view() == payload,
            m.dest_spec() == dest,
            m.src() is None,
            !m.is_duplicate(),
            m.wf(),
    {
        Message { source: None, dest, payload, is_clone: false }
    }

    /// Set the source address of this [`Message`]
    pub fn with_source(self, source: S) -> (m: Self)
        ensures
            m.payload_view() == self.payload_view(),
            m.dest_spec() == self.dest_spec(),
            m.src() == Some(source),
            m.is_duplicate() == self.is_duplicate(),
    {
        let mut m = self;
        m.source = Some(source);
        m
    }

    /// Set the destination address of this [`Message`]
    pub fn with_dest(self, dest: Destination<u64>) -> (m: Self)
        ensures
            m.payload_view() == self.payload_view(),
            m.dest_spec() == dest,
            m.src() == self.src(),
            m.is_duplicate() == self.is_duplicate(),
    {
        let mut m = self;
        m.dest = dest;
        m
    }

    /// Check if the payload has the given type token
    pub fn is_type(&self, token: u64) -> (r: bool)
        ensures
            r == (self.token() == token),
    {
        self.payload.type_token() == token
    }

    /// Get the type token of the message payload
    pub fn payload_type(&self) -> (t: u64)
        ensures
            t == self.token(),
    {
        self.payload.type_token()
    }

    /// Get the hash of the source tag, if a source is set
    pub fn source_hash(&self) -> (h: Option<u64>)
        ensures
            h == self.src_hash(),
    {
        match &self.source {
            Some(s) => Some(s.hash64()),
            None => None,
        }
    }

    /// Get the source of this message
    pub fn source(&self) -> (s: Option<S>)
        ensures
            s == self.src(),
    {
        self.source
    }

    /// Get the destination of this message
    pub fn dest(&self) -> (d: Destination<u64>)
        ensures
            d == self.dest_spec(),
    {
        self.dest
    }

    /// Return a reference to the payload container
    pub fn payload(&self) -> (p: &MessagePayload<M>)
        ensures
            *p == self.payload_view(),
    {
        &self.payload
    }

    /// Consume the message, yielding the payload container
    pub fn to_payload(self) -> (p: MessagePayload<M>)
        ensures
            p == self.payload_view(),
    {
        self.payload
    }

    /// Borrow the payload value carried by this message
    pub fn inner(&self) -> (p: Option<&M>)
        ensures
            p matches Some(q) && *q == self.payload_value(),
    {
        match &self.payload {
            MessagePayload::Unicast(p) => Some(p),
            MessagePayload::Broadcast(p) => Some(p),
        }
    }

    /// Consume the message, yielding the owned payload value
    pub fn into_inner(self) -> (p: Option<M>)
        ensures
            p == Some(self.payload_value()),
    {
        Some(self.payload.into_value())
    }

    /// Duplicate this message for broadcast fan-out. Duplicating a message
    /// whose payload is unicast-only is a programmer error, excluded by the
    /// precondition; the duplicate is marked as such.
    pub fn duplicate(&self) -> (m: Self)
        requires
            self.is_broadcast_payload(),
            self.wf(),
        ensures
            m.payload_view() == self.payload_view(),
            m.dest_spec() == self.dest_spec(),
            m.src() == self.src(),
            m.is_duplicate(),
            m.wf(),
    {
        Message {
            source: self.source,
            dest: self.dest,
            payload: self.payload.duplicate(),
            is_clone: true,
        }
    }
}

} // verus!
