//! Message Endpoint
//!
//! An endpoint is split into an owner-facing [`Endpoint`] receipt and the
//! router-held [`EndpointInner`] state (callback and filters). The router
//! stores the inner state next to a type-erased [`EndpointHandle`], which
//! carries only the endpoint's identity and the payload type token it is
//! registered for; looking payloads up by token is what lets unrelated
//! payload kinds share one registry.

use vstd::prelude::*;
use vstd::pervasive::unreached;

use crate::filter::{Filter, SourceFilter};
use crate::handler::MessageHandler;
use crate::traits::EndpointAddress;

verus! {

/// Endpoint identity: allocated by the owning router, monotonically
/// increasing, never reused, stable for the endpoint's lifetime.
pub type EndpointId = u64;

/// Type erased endpoint handle: the router-held snapshot of an endpoint's
/// identity and the payload type token it receives.
#[derive(Clone, Copy, Debug, PartialEq, Eq, Structural)]
pub struct EndpointHandle {
    /// The identity of the endpoint this handle stands for
    pub endpoint_id: EndpointId,
    /// The payload type token the endpoint is registered for
    pub message_type: u64,
}

impl EndpointHandle {
    /// Create a new [`EndpointHandle`] for an endpoint identity and payload
    /// type token.
    pub fn new(endpoint_id: EndpointId, message_type: u64) -> (h: Self)
        ensures
            h == (EndpointHandle { endpoint_id, message_type }),
    {
        EndpointHandle { endpoint_id, message_type }
    }
}

/// Owner-facing endpoint: the receipt for one consumer's registration of
/// interest in a payload type. The router owns the registration itself;
/// the receipt carries the stable identity used to address the endpoint
/// and to deregister it with [`crate::router::MessageRouter::remove_endpoint`].
#[derive(Clone, Copy, Debug)]
pub struct Endpoint {
    id: EndpointId,
    message_type: u64,
}

impl Endpoint {
    /// The endpoint identity.
    pub closed spec fn id_spec(&self) -> EndpointId {
        self.id
    }

    /// The payload type token the endpoint is registered for.
    pub closed spec fn message_type_spec(&self) -> u64 {
        self.message_type
    }

    /// Create a receipt for an endpoint identity and payload type token.
    pub fn new(id: EndpointId, message_type: u64) -> (e: Self)
        ensures
            e.id_spec() == id,
            e.message_type_spec() == message_type,
    {
        Endpoint { id, message_type }
    }

    /// Get the payload type token of the messages this endpoint receives.
    pub fn message_type(&self) -> (t: u64)
        ensures
            t == self.message_type_spec(),
    {
        self.message_type
    }

    /// Get a new [`EndpointHandle`] for this endpoint.
    pub fn handle(&self) -> (h: EndpointHandle)
        ensures
            h == (EndpointHandle {
                endpoint_id: self.id_spec(),
                message_type: self.message_type_spec(),
            }),
    {
        EndpointHandle::new(self.id, self.message_type)
    }
}

impl EndpointAddress for Endpoint {
    type Addr = EndpointId;

    open spec fn addr_spec(&self) -> EndpointId {
        self.id_spec()
    }

    fn addr(&self) -> EndpointId {
        self.id
    }
}

/// Inner endpoint state: the registered callback and the filters. The
/// router holds this next to the endpoint's handle and keeps serving it
/// until the endpoint is deregistered.
pub struct EndpointInner<H: MessageHandler> {
    filters: Vec<SourceFilter>,
    callback: Option<H>,
}

impl<H: MessageHandler> EndpointInner<H> {
    /// The filters assigned to this endpoint.
    pub closed spec fn filters_seq(&self) -> Seq<SourceFilter> {
        self.filters@
    }

    /// The registered callback, if any.
    pub closed spec fn callback_spec(&self) -> Option<H> {
        self.callback
    }

    /// Whether a callback has been registered.
    pub open spec fn configured(&self) -> bool {
        self.callback_spec() is Some
    }

    /// Whether any of this endpoint's filters matches the given source hash.
    pub open spec fn matches_source(&self, source_hash: Option<u64>) -> bool {
        exists|i: int|
            0 <= i < self.filters_seq().len() && self.filters_seq()[i].matches(source_hash)
    }

    /// A fresh inner endpoint: no callback, no filters.
    pub fn new() -> (inner: Self)
        ensures
            inner.filters_seq() == Seq::<SourceFilter>::empty(),
            inner.callback_spec() is None,
    {
        EndpointInner { filters: Vec::new(), callback: None }
    }

    /// Append a filter.
    pub fn add_filter(&mut self, filter: SourceFilter)
        ensures
            final(self).filters_seq() == old(self).filters_seq().push(filter),
            final(self).callback_spec() == old(self).callback_spec(),
    {
        self.filters.push(filter)
    }

    /// Get the filters assigned to this inner endpoint
    pub fn filters(&self) -> (fs: &Vec<SourceFilter>)
        ensures
            fs@ == self.filters_seq(),
    {
        &self.filters
    }

    /// Register the message callback, replacing any previous one.
    pub fn register(&mut self, handler: H)
        ensures
            final(self).callback_spec() == Some(handler),
            final(self).filters_seq() == old(self).filters_seq(),
    {
        self.callback = Some(handler);
    }

    /// Evaluate this endpoint's filters against a message's source hash:
    /// true if any filter matches.
    pub fn filter(&self, source_hash: Option<u64>) -> (b: bool)
        ensures
            b == self.matches_source(source_hash),
    {
        let mut i: usize = 0;
        while i < self.filters.len()
            invariant
                i <= self.filters_seq().len(),
                forall|j: int| 0 <= j < i ==> !self.filters_seq()[j].matches(source_hash),
            decreases self.filters_seq().len() - i,
        {
            if self.filters[i].filter(source_hash) {
                return true;
            }
            i = i + 1;
        }
        false
    }

    /// Invoke the registered callback. Invoking an endpoint that never had
    /// a callback registered is a programmer error ("handler not
    /// configured"), excluded by the precondition.
    pub fn on_message(&mut self, source: Option<H::Source>, message: H::Message) -> (r: H::Return)
        requires
            old(self).configured(),
        ensures
            r == old(self).callback_spec()->0.response(source, message),
            final(self).callback_spec() == Some(
                old(self).callback_spec()->0.after(source, message),
            ),
            final(self).filters_seq() == old(self).filters_seq(),
    {
        match &mut self.callback {
            Some(handler) => handler.on_message(source, message),
            None => unreached(),
        }
    }
}

} // verus!
