//! The message registry and endpoint lifecycle
//!
//! The [`MessageRouter`] holds the registry: it maps payload type tokens to
//! the list of interested endpoints and endpoint identities to their
//! registered state (callback and filters), keeps the two maps consistent,
//! and allocates stable endpoint identities.

use vstd::prelude::*;

use crate::endpoint::{Endpoint, EndpointHandle, EndpointId, EndpointInner};
use crate::filter::SourceFilter;
use crate::handler::MessageHandler;
use crate::message::{Destination, Message};
use crate::policy::Policy;

verus! {

/// Per-payload-type registry entry: the handles registered for one type
/// token, in registration order, plus the rotating cursor used by the
/// round-robin policy.
struct TypeHandler {
    message_type: u64,
    handlers: Vec<EndpointHandle>,
    // Next index for round robin policy
    next_index: usize,
}

/// One registration held by the router: the type-erased handle and the
/// endpoint's inner state (callback and filters).
struct RouterEntry<H: MessageHandler> {
    handle: EndpointHandle,
    inner: EndpointInner<H>,
}

/// The identities of all handles in a sequence of type-handler entries, in
/// registry order.
spec fn flat_ids(ths: Seq<TypeHandler>) -> Seq<EndpointId>
    decreases ths.len(),
{
    if ths.len() == 0 {
        Seq::empty()
    } else {
        flat_ids(ths.drop_last()) + ths.last().handlers@.map_values(
            |h: EndpointHandle| h.endpoint_id,
        )
    }
}

/// Appending a type-handler entry appends its identities to the registry
/// order.
proof fn lemma_flat_ids_push(ths: Seq<TypeHandler>, th: TypeHandler)
    ensures
        flat_ids(ths.push(th)) == flat_ids(ths) + th.handlers@.map_values(
            |h: EndpointHandle| h.endpoint_id,
        ),
{
    assert(ths.push(th).drop_last() =~= ths);
    assert(ths.push(th).last() == th);
}

/// Replacing one type-handler entry replaces exactly its identities'
/// contribution to the total count.
proof fn lemma_flat_ids_update_len(ths: Seq<TypeHandler>, j: int, th2: TypeHandler)
    requires
        0 <= j < ths.len(),
    ensures
        flat_ids(ths.update(j, th2)).len() == flat_ids(ths).len() - ths[j].handlers@.len()
            + th2.handlers@.len(),
    decreases ths.len(),
{
    let upd = ths.update(j, th2);
    if j == ths.len() - 1 {
        assert(upd.drop_last() =~= ths.drop_last());
        assert(upd.last() == th2);
    } else {
        assert(upd.drop_last() =~= ths.drop_last().update(j, th2));
        assert(upd.last() == ths.last());
        lemma_flat_ids_update_len(ths.drop_last(), j, th2);
    }
}

/// Removing one type-handler entry removes exactly its identities'
/// contribution to the total count.
proof fn lemma_flat_ids_remove_len(ths: Seq<TypeHandler>, j: int)
    requires
        0 <= j < ths.len(),
    ensures
        flat_ids(ths.remove(j)).len() == flat_ids(ths).len() - ths[j].handlers@.len(),
    decreases ths.len(),
{
    let rem = ths.remove(j);
    if j == ths.len() - 1 {
        assert(rem =~= ths.drop_last());
    } else {
        assert(rem.drop_last() =~= ths.drop_last().remove(j));
        assert(rem.last() == ths.last());
        lemma_flat_ids_remove_len(ths.drop_last(), j);
    }
}

/// A prefix of the type map contributes no more identities than the whole.
proof fn lemma_flat_ids_take_le(ths: Seq<TypeHandler>, j: int)
    requires
        0 <= j <= ths.len(),
    ensures
        flat_ids(ths.take(j)).len() <= flat_ids(ths).len(),
    decreases ths.len(),
{
    if j == ths.len() {
        assert(ths.take(j) =~= ths);
    } else {
        assert(ths.take(j) =~= ths.drop_last().take(j));
        lemma_flat_ids_take_le(ths.drop_last(), j);
    }
}

/// Membership in the registry order is membership in some type list.
proof fn lemma_flat_ids_contains(ths: Seq<TypeHandler>, id: EndpointId)
    ensures
        flat_ids(ths).contains(id) <==> exists|j: int, k: int|
            0 <= j < ths.len() && 0 <= k < ths[j].handlers@.len()
                && (#[trigger] ths[j].handlers@[k]).endpoint_id == id,
    decreases ths.len(),
{
    if ths.len() == 0 {
    } else {
        let prefix = ths.drop_last();
        let last_ids = ths.last().handlers@.map_values(|h: EndpointHandle| h.endpoint_id);
        lemma_flat_ids_contains(prefix, id);
        if flat_ids(ths).contains(id) {
            let n = choose|n: int| 0 <= n < flat_ids(ths).len() && flat_ids(ths)[n] == id;
            if n < flat_ids(prefix).len() {
                assert(flat_ids(prefix).contains(id));
            } else {
                let k = n - flat_ids(prefix).len();
                assert(ths[ths.len() - 1].handlers@[k].endpoint_id == id);
            }
        }
        if exists|j: int, k: int|
            0 <= j < ths.len() && 0 <= k < ths[j].handlers@.len()
                && (#[trigger] ths[j].handlers@[k]).endpoint_id == id {
            let (j, k) = choose|j: int, k: int|
                0 <= j < ths.len() && 0 <= k < ths[j].handlers@.len()
                    && (#[trigger] ths[j].handlers@[k]).endpoint_id == id;
            if j < ths.len() - 1 {
                assert(prefix[j].handlers@[k].endpoint_id == id);
                assert(flat_ids(prefix).contains(id));
                let m = choose|m: int|
                    0 <= m < flat_ids(prefix).len() && flat_ids(prefix)[m] == id;
                assert(flat_ids(ths)[m] == id);
            } else {
                assert(last_ids[k] == id);
                assert(flat_ids(ths)[flat_ids(prefix).len() + k] == id);
            }
        }
    }
}

/// With distinct identities inside each list and disjoint lists, the
/// registry order has no duplicates.
proof fn lemma_flat_ids_no_dup(ths: Seq<TypeHandler>)
    requires
        forall|j: int, k1: int, k2: int|
            0 <= j < ths.len() && 0 <= k1 < k2 < ths[j].handlers@.len()
                ==> (#[trigger] ths[j].handlers@[k1]).endpoint_id
                != (#[trigger] ths[j].handlers@[k2]).endpoint_id,
        forall|j1: int, j2: int, k1: int, k2: int|
            0 <= j1 < j2 < ths.len() && 0 <= k1 < ths[j1].handlers@.len() && 0 <= k2
                < ths[j2].handlers@.len() ==> (#[trigger] ths[j1].handlers@[k1]).endpoint_id != (
            #[trigger] ths[j2].handlers@[k2]).endpoint_id,
    ensures
        flat_ids(ths).no_duplicates(),
    decreases ths.len(),
{
    if ths.len() == 0 {
    } else {
        let prefix = ths.drop_last();
        let last_ids = ths.last().handlers@.map_values(|h: EndpointHandle| h.endpoint_id);
        lemma_flat_ids_no_dup(prefix);
        assert(last_ids.no_duplicates());
        assert forall|m: int, n: int|
            0 <= m < flat_ids(prefix).len() && 0 <= n < last_ids.len() implies flat_ids(prefix)[m]
            != last_ids[n] by {
            assert(flat_ids(prefix).contains(flat_ids(prefix)[m]));
            lemma_flat_ids_contains(prefix, flat_ids(prefix)[m]);
        }
        vstd::seq_lib::lemma_no_dup_in_concat(flat_ids(prefix), last_ids);
    }
}

/// Message Router
pub struct MessageRouter<H: MessageHandler> {
    /// Registered endpoints by [`EndpointId`], in registration order
    endpoints: Vec<RouterEntry<H>>,
    /// Per payload type token: the endpoints registered to receive that
    /// type, in registration order
    type_handlers: Vec<TypeHandler>,
    /// The next endpoint identity to allocate
    next_endpoint_id: EndpointId,
}

impl<H: MessageHandler> MessageRouter<H> {
    // ------------------------------------------------------------------
    // Spec view of the registry
    // ------------------------------------------------------------------

    /// The identities of the registered endpoints, in registration order.
    pub closed spec fn endpoint_ids(&self) -> Seq<EndpointId> {
        self.endpoints@.map_values(|e: RouterEntry<H>| e.handle.endpoint_id)
    }

    /// The number of registered endpoints.
    pub open spec fn num_endpoints_spec(&self) -> nat {
        self.endpoint_ids().len()
    }

    /// Whether an endpoint with the given identity is registered.
    pub closed spec fn has_endpoint(&self, id: EndpointId) -> bool {
        exists|i: int|
            0 <= i < self.endpoints@.len() && self.endpoints@[i].handle.endpoint_id == id
    }

    /// The registry index of the endpoint with the given identity.
    spec fn ep_index(&self, id: EndpointId) -> int {
        choose|i: int|
            0 <= i < self.endpoints@.len() && self.endpoints@[i].handle.endpoint_id == id
    }

    /// The payload type token a registered endpoint receives.
    pub closed spec fn token_of(&self, id: EndpointId) -> u64 {
        self.endpoints@[self.ep_index(id)].handle.message_type
    }

    /// The inner state (callback and filters) of a registered endpoint.
    pub closed spec fn inner_of(&self, id: EndpointId) -> EndpointInner<H> {
        self.endpoints@[self.ep_index(id)].inner
    }

    /// The registered callback of an endpoint.
    pub open spec fn callback_of(&self, id: EndpointId) -> Option<H> {
        self.inner_of(id).callback_spec()
    }

    /// Whether an endpoint's filters match a source hash.
    pub open spec fn endpoint_matches(&self, id: EndpointId, source_hash: Option<u64>) -> bool {
        self.inner_of(id).matches_source(source_hash)
    }

    /// The payload type tokens with at least one interested endpoint.
    pub closed spec fn tokens(&self) -> Seq<u64> {
        self.type_handlers@.map_values(|t: TypeHandler| t.message_type)
    }

    /// Whether any endpoint is registered for the given type token.
    pub closed spec fn has_type(&self, token: u64) -> bool {
        exists|j: int|
            0 <= j < self.type_handlers@.len() && self.type_handlers@[j].message_type == token
    }

    /// The type-map index of the entry for the given type token.
    spec fn th_index(&self, token: u64) -> int {
        choose|j: int|
            0 <= j < self.type_handlers@.len() && self.type_handlers@[j].message_type == token
    }

    /// The identities of the endpoints interested in a type token, in
    /// registration order; empty if none is.
    pub closed spec fn handler_ids(&self, token: u64) -> Seq<EndpointId> {
        if self.has_type(token) {
            self.type_handlers@[self.th_index(token)].handlers@.map_values(
                |h: EndpointHandle| h.endpoint_id,
            )
        } else {
            Seq::empty()
        }
    }

    /// The round-robin cursor of a type token's registry entry.
    pub closed spec fn cursor_of(&self, token: u64) -> usize {
        self.type_handlers@[self.th_index(token)].next_index
    }

    /// The next endpoint identity the router will allocate.
    pub closed spec fn next_id_spec(&self) -> EndpointId {
        self.next_endpoint_id
    }

    /// The total number of handler registrations over all type tokens.
    pub closed spec fn total_handlers(&self) -> nat {
        flat_ids(self.type_handlers@).len()
    }

    // ------------------------------------------------------------------
    // Well-formedness
    // ------------------------------------------------------------------

    /// Endpoint identities are distinct.
    spec fn ids_distinct(&self) -> bool {
        forall|i: int, j: int|
            0 <= i < j < self.endpoints@.len() ==> self.endpoints@[i].handle.endpoint_id
                != self.endpoints@[j].handle.endpoint_id
    }

    /// Endpoint identities lie below the allocator's cursor.
    spec fn ids_bounded(&self) -> bool {
        forall|i: int|
            0 <= i < self.endpoints@.len() ==> self.endpoints@[i].handle.endpoint_id
                < self.next_endpoint_id
    }

    /// Type tokens are distinct.
    spec fn tokens_distinct(&self) -> bool {
        forall|j1: int, j2: int|
            0 <= j1 < j2 < self.type_handlers@.len() ==> self.type_handlers@[j1].message_type
                != self.type_handlers@[j2].message_type
    }

    /// Every type list holds at least one handle.
    spec fn lists_nonempty(&self) -> bool {
        forall|j: int|
            0 <= j < self.type_handlers@.len() ==> self.type_handlers@[j].handlers@.len() > 0
    }

    /// Every handle in a type list carries that list's token and is the
    /// handle of a registered endpoint.
    spec fn lists_wf(&self) -> bool {
        &&& forall|j: int, k: int|
            0 <= j < self.type_handlers@.len() && 0 <= k
                < self.type_handlers@[j].handlers@.len() ==> (#[trigger] self.type_handlers@[j].handlers@[k]).message_type
                == self.type_handlers@[j].message_type && exists|i: int|
                0 <= i < self.endpoints@.len() && self.endpoints@[i].handle
                    == self.type_handlers@[j].handlers@[k]
        &&& forall|j: int, k1: int, k2: int|
            0 <= j < self.type_handlers@.len() && 0 <= k1 < k2
                < self.type_handlers@[j].handlers@.len() ==> (#[trigger] self.type_handlers@[j].handlers@[k1]).endpoint_id
                != (#[trigger] self.type_handlers@[j].handlers@[k2]).endpoint_id
    }

    /// Every registered endpoint stands in the type list of its token.
    spec fn endpoints_listed(&self) -> bool {
        forall|i: int|
            0 <= i < self.endpoints@.len() ==> exists|j: int, k: int|
                0 <= j < self.type_handlers@.len() && 0 <= k
                    < self.type_handlers@[j].handlers@.len()
                    && #[trigger] self.type_handlers@[j].handlers@[k] == (
                #[trigger] self.endpoints@[i]).handle
    }

    /// Registry invariant: both maps are consistent with one another.
    pub closed spec fn wf(&self) -> bool {
        &&& self.ids_distinct()
        &&& self.ids_bounded()
        &&& self.tokens_distinct()
        &&& self.lists_nonempty()
        &&& self.lists_wf()
        &&& self.endpoints_listed()
    }

    // ------------------------------------------------------------------
    // Relations between registry states, used by the dispatch contracts
    // ------------------------------------------------------------------

    /// Both states register the same endpoints for the same type tokens in
    /// the same order, with the same filters still to be read via
    /// [`MessageRouter::inner_of`]; only cursors and endpoint inner states
    /// may differ.
    pub open spec fn same_registration(pre: &Self, post: &Self) -> bool {
        &&& post.endpoint_ids() == pre.endpoint_ids()
        &&& post.tokens() == pre.tokens()
        &&& post.next_id_spec() == pre.next_id_spec()
        &&& forall|id: EndpointId| post.has_endpoint(id) == pre.has_endpoint(id)
        &&& forall|id: EndpointId|
            pre.has_endpoint(id) ==> #[trigger] post.token_of(id) == pre.token_of(id)
        &&& forall|t: u64| post.has_type(t) == pre.has_type(t)
        &&& forall|t: u64| #[trigger] post.handler_ids(t) == pre.handler_ids(t)
    }

    /// Every type token keeps its round-robin cursor.
    pub open spec fn cursors_unchanged(pre: &Self, post: &Self) -> bool {
        forall|t: u64| pre.has_type(t) ==> #[trigger] post.cursor_of(t) == pre.cursor_of(t)
    }

    /// Every endpoint outside `touched` keeps its inner state (callback and
    /// filters).
    pub open spec fn inners_unchanged_except(
        pre: &Self,
        post: &Self,
        touched: Set<EndpointId>,
    ) -> bool {
        forall|id: EndpointId|
            pre.has_endpoint(id) && !touched.contains(id) ==> #[trigger] post.inner_of(id)
                == pre.inner_of(id)
    }

    // ------------------------------------------------------------------
    // Construction and introspection
    // ------------------------------------------------------------------

    /// A fresh router: no endpoints, no type registrations.
    pub fn new() -> (r: Self)
        ensures
            r.wf(),
            r.endpoint_ids() == Seq::<EndpointId>::empty(),
            r.tokens() == Seq::<u64>::empty(),
            r.next_id_spec() == 0,
            r.total_handlers() == 0,
            forall|t: u64| !r.has_type(t),
            forall|id: EndpointId| !r.has_endpoint(id),
    {
        let r = MessageRouter {
            endpoints: Vec::new(),
            type_handlers: Vec::new(),
            next_endpoint_id: 0,
        };
        proof {
            assert(r.endpoint_ids() =~= Seq::<EndpointId>::empty());
            assert(r.tokens() =~= Seq::<u64>::empty());
        }
        r
    }

    /// Get the number of endpoints registered with the router
    pub fn num_endpoints(&self) -> (n: usize)
        ensures
            n == self.num_endpoints_spec(),
    {
        self.endpoints.len()
    }

    // ------------------------------------------------------------------
    // Internal lookups
    // ------------------------------------------------------------------

    /// Find the registry index of an endpoint identity.
    fn find_endpoint(&self, id: EndpointId) -> (r: Option<usize>)
        requires
            self.wf(),
        ensures
            match r {
                Some(i) => self.has_endpoint(id) && i == self.ep_index(id) && i
                    < self.endpoints@.len() && self.endpoints@[i as int].handle.endpoint_id == id,
                None => !self.has_endpoint(id),
            },
    {
        let mut i: usize = 0;
        while i < self.endpoints.len()
            invariant
                self.wf(),
                i <= self.endpoints@.len(),
                forall|k: int| 0 <= k < i ==> self.endpoints@[k].handle.endpoint_id != id,
            decreases self.endpoints@.len() - i,
        {
            if self.endpoints[i].handle.endpoint_id == id {
                proof {
                    self.lemma_ep_index_agrees(id, i as int);
                }
                return Some(i);
            }
            i = i + 1;
        }
        None
    }

    /// Any registry position holding `id` is the unique one.
    proof fn lemma_ep_index_agrees(&self, id: EndpointId, i: int)
        requires
            self.ids_distinct(),
            0 <= i < self.endpoints@.len(),
            self.endpoints@[i].handle.endpoint_id == id,
        ensures
            self.has_endpoint(id),
            self.ep_index(id) == i,
    {
        assert(self.has_endpoint(id));
        let w = self.ep_index(id);
        assert(0 <= w < self.endpoints@.len() && self.endpoints@[w].handle.endpoint_id == id);
    }

    /// Find the type-map index of a type token.
    fn find_type(&self, token: u64) -> (r: Option<usize>)
        requires
            self.wf(),
        ensures
            match r {
                Some(j) => self.has_type(token) && j == self.th_index(token) && j
                    < self.type_handlers@.len() && self.type_handlers@[j as int].message_type
                    == token,
                None => !self.has_type(token),
            },
    {
        let mut j: usize = 0;
        while j < self.type_handlers.len()
            invariant
                self.wf(),
                j <= self.type_handlers@.len(),
                forall|k: int| 0 <= k < j ==> self.type_handlers@[k].message_type != token,
            decreases self.type_handlers@.len() - j,
        {
            if self.type_handlers[j].message_type == token {
                proof {
                    self.lemma_th_index_agrees(token, j as int);
                }
                return Some(j);
            }
            j = j + 1;
        }
        None
    }

    /// Registry bookkeeping law: under the registry invariant every
    /// endpoint stands in exactly one type-handler list, so the total
    /// handler count equals the endpoint count.
    #[verifier::rlimit(100)]
    pub proof fn lemma_handler_count(&self)
        requires
            self.wf(),
        ensures
            self.total_handlers() == self.num_endpoints_spec(),
    {
        let ths = self.type_handlers@;
        let flat = flat_ids(ths);
        let ids = self.endpoint_ids();

        // Lists of different tokens hold different identities.
        assert forall|j1: int, j2: int, k1: int, k2: int|
            0 <= j1 < j2 < ths.len() && 0 <= k1 < ths[j1].handlers@.len() && 0 <= k2
                < ths[j2].handlers@.len() implies (#[trigger] ths[j1].handlers@[k1]).endpoint_id
            != (#[trigger] ths[j2].handlers@[k2]).endpoint_id by {
            let h1 = ths[j1].handlers@[k1];
            let h2 = ths[j2].handlers@[k2];
            if h1.endpoint_id == h2.endpoint_id {
                let i1 = choose|i: int|
                    0 <= i < self.endpoints@.len() && self.endpoints@[i].handle == h1;
                let i2 = choose|i: int|
                    0 <= i < self.endpoints@.len() && self.endpoints@[i].handle == h2;
                assert(self.endpoints@[i1].handle == h1);
                assert(self.endpoints@[i2].handle == h2);
                assert(i1 == i2);
                assert(h1.message_type != h2.message_type);
            }
        }
        lemma_flat_ids_no_dup(ths);

        // The registry order and the identity map hold the same identities.
        assert forall|id: EndpointId| flat.contains(id) implies ids.contains(id) by {
            lemma_flat_ids_contains(ths, id);
            let (j, k) = choose|j: int, k: int|
                0 <= j < ths.len() && 0 <= k < ths[j].handlers@.len()
                    && (#[trigger] ths[j].handlers@[k]).endpoint_id == id;
            let h = ths[j].handlers@[k];
            let i = choose|i: int| 0 <= i < self.endpoints@.len() && self.endpoints@[i].handle == h;
            assert(ids[i] == id);
        }
        assert forall|id: EndpointId| ids.contains(id) implies flat.contains(id) by {
            let i = choose|i: int| 0 <= i < ids.len() && ids[i] == id;
            assert(self.endpoints@[i].handle.endpoint_id == id);
            let (j, k) = choose|j: int, k: int|
                0 <= j < ths.len() && 0 <= k < ths[j].handlers@.len()
                    && #[trigger] ths[j].handlers@[k] == (#[trigger] self.endpoints@[i]).handle;
            assert(ths[j].handlers@[k].endpoint_id == id);
            lemma_flat_ids_contains(ths, id);
        }
        assert(flat.to_set() =~= ids.to_set());

        // Both orders are duplicate-free, so the counts agree.
        assert(ids.no_duplicates());
        flat.unique_seq_to_set();
        ids.unique_seq_to_set();
    }

    /// Get the number of handlers registered with the router
    pub fn num_handlers(&self) -> (n: usize)
        requires
            self.wf(),
        ensures
            n == self.total_handlers(),
            n == self.num_endpoints_spec(),
    {
        proof {
            self.lemma_handler_count();
        }
        // Sum the inner vec lengths for all type tokens
        let ghost ths = self.type_handlers@;
        let ne = self.endpoints.len();
        let mut n: usize = 0;
        let mut j: usize = 0;
        while j < self.type_handlers.len()
            invariant
                self.wf(),
                ths == self.type_handlers@,
                j <= ths.len(),
                n == flat_ids(ths.take(j as int)).len(),
                flat_ids(ths).len() == ne,
                ne == self.num_endpoints_spec(),
            decreases ths.len() - j,
        {
            proof {
                assert(ths.take(j + 1) =~= ths.take(j as int).push(ths[j as int]));
                lemma_flat_ids_push(ths.take(j as int), ths[j as int]);
                lemma_flat_ids_take_le(ths, j + 1);
            }
            n = n + self.type_handlers[j].handlers.len();
            j = j + 1;
        }
        proof {
            assert(ths.take(ths.len() as int) =~= ths);
        }
        n
    }

    /// Routers holding pointwise-equal handles, the same type map and the
    /// same allocator cursor present the same registration view; only the
    /// endpoints' inner states may differ.
    proof fn lemma_same_handles_same_shape(pre: &Self, post: &Self)
        requires
            pre.ids_distinct(),
            post.endpoints@.len() == pre.endpoints@.len(),
            forall|i: int|
                0 <= i < pre.endpoints@.len() ==> #[trigger] post.endpoints@[i].handle
                    == pre.endpoints@[i].handle,
            post.type_handlers@ == pre.type_handlers@,
            post.next_endpoint_id == pre.next_endpoint_id,
        ensures
            post.endpoint_ids() == pre.endpoint_ids(),
            post.tokens() == pre.tokens(),
            forall|id: EndpointId| post.has_endpoint(id) == pre.has_endpoint(id),
            forall|id: EndpointId|
                pre.has_endpoint(id) ==> post.ep_index(id) == pre.ep_index(id)
                    && #[trigger] post.token_of(id) == pre.token_of(id),
            forall|t: u64| post.has_type(t) == pre.has_type(t),
            forall|t: u64| #[trigger] post.handler_ids(t) == pre.handler_ids(t),
            forall|t: u64| pre.has_type(t) ==> #[trigger] post.cursor_of(t) == pre.cursor_of(t),
            post.wf() == pre.wf(),
            post.total_handlers() == pre.total_handlers(),
            post.next_id_spec() == pre.next_id_spec(),
            Self::same_registration(pre, post),
            Self::cursors_unchanged(pre, post),
    {
        assert(post.endpoint_ids() =~= pre.endpoint_ids());
        assert forall|id: EndpointId| post.has_endpoint(id) == pre.has_endpoint(id) by {
            if pre.has_endpoint(id) {
                let i = pre.ep_index(id);
                assert(post.endpoints@[i].handle.endpoint_id == id);
            }
            if post.has_endpoint(id) {
                let i = choose|i: int|
                    0 <= i < post.endpoints@.len() && post.endpoints@[i].handle.endpoint_id == id;
                assert(pre.endpoints@[i].handle.endpoint_id == id);
            }
        }
        assert forall|id: EndpointId| pre.has_endpoint(id) implies post.ep_index(id)
            == pre.ep_index(id) && #[trigger] post.token_of(id) == pre.token_of(id) by {
            let i = pre.ep_index(id);
            assert(post.endpoints@[i].handle.endpoint_id == id);
            let w = post.ep_index(id);
            assert(0 <= w < post.endpoints@.len() && post.endpoints@[w].handle.endpoint_id == id);
            assert(pre.endpoints@[w].handle.endpoint_id == id);
        }
        assert(post.ids_distinct() == pre.ids_distinct());
        assert(post.ids_bounded() == pre.ids_bounded()) by {
            if pre.ids_bounded() {
                assert forall|i: int| 0 <= i < post.endpoints@.len() implies (
                #[trigger] post.endpoints@[i]).handle.endpoint_id < post.next_endpoint_id by {
                    assert(post.endpoints@[i].handle == pre.endpoints@[i].handle);
                    assert(pre.endpoints@[i].handle.endpoint_id < pre.next_endpoint_id);
                }
            }
            if post.ids_bounded() {
                assert forall|i: int| 0 <= i < pre.endpoints@.len() implies (
                #[trigger] pre.endpoints@[i]).handle.endpoint_id < pre.next_endpoint_id by {
                    assert(post.endpoints@[i].handle == pre.endpoints@[i].handle);
                    assert(post.endpoints@[i].handle.endpoint_id < post.next_endpoint_id);
                }
            }
        }
        assert(post.lists_wf() == pre.lists_wf()) by {
            if pre.lists_wf() {
                assert forall|j: int, k: int|
                    0 <= j < post.type_handlers@.len() && 0 <= k
                        < post.type_handlers@[j].handlers@.len() implies (
                #[trigger] post.type_handlers@[j].handlers@[k]).message_type
                    == post.type_handlers@[j].message_type && exists|i: int|
                    0 <= i < post.endpoints@.len() && post.endpoints@[i].handle
                        == post.type_handlers@[j].handlers@[k] by {
                    let h = post.type_handlers@[j].handlers@[k];
                    let i = choose|i: int|
                        0 <= i < pre.endpoints@.len() && pre.endpoints@[i].handle == h;
                    assert(post.endpoints@[i].handle == h);
                }
            }
            if post.lists_wf() {
                assert forall|j: int, k: int|
                    0 <= j < pre.type_handlers@.len() && 0 <= k
                        < pre.type_handlers@[j].handlers@.len() implies (
                #[trigger] pre.type_handlers@[j].handlers@[k]).message_type
                    == pre.type_handlers@[j].message_type && exists|i: int|
                    0 <= i < pre.endpoints@.len() && pre.endpoints@[i].handle
                        == pre.type_handlers@[j].handlers@[k] by {
                    let h = pre.type_handlers@[j].handlers@[k];
                    let i = choose|i: int|
                        0 <= i < post.endpoints@.len() && post.endpoints@[i].handle == h;
                    assert(pre.endpoints@[i].handle == h);
                }
            }
        }
        assert(post.endpoints_listed() == pre.endpoints_listed()) by {
            if pre.endpoints_listed() {
                assert forall|i: int| 0 <= i < post.endpoints@.len() implies exists|j: int, k: int|
                    0 <= j < post.type_handlers@.len() && 0 <= k
                        < post.type_handlers@[j].handlers@.len()
                        && #[trigger] post.type_handlers@[j].handlers@[k] == (
                #[trigger] post.endpoints@[i]).handle by {
                    assert(post.endpoints@[i].handle == pre.endpoints@[i].handle);
                    let (j, k) = choose|j: int, k: int|
                        0 <= j < pre.type_handlers@.len() && 0 <= k
                            < pre.type_handlers@[j].handlers@.len()
                            && #[trigger] pre.type_handlers@[j].handlers@[k] == (
                        #[trigger] pre.endpoints@[i]).handle;
                    assert(post.type_handlers@[j].handlers@[k] == post.endpoints@[i].handle);
                }
            }
            if post.endpoints_listed() {
                assert forall|i: int| 0 <= i < pre.endpoints@.len() implies exists|j: int, k: int|
                    0 <= j < pre.type_handlers@.len() && 0 <= k
                        < pre.type_handlers@[j].handlers@.len()
                        && #[trigger] pre.type_handlers@[j].handlers@[k] == (
                #[trigger] pre.endpoints@[i]).handle by {
                    assert(pre.endpoints@[i].handle == post.endpoints@[i].handle);
                    let (j, k) = choose|j: int, k: int|
                        0 <= j < post.type_handlers@.len() && 0 <= k
                            < post.type_handlers@[j].handlers@.len()
                            && #[trigger] post.type_handlers@[j].handlers@[k] == (
                        #[trigger] post.endpoints@[i]).handle;
                    assert(pre.type_handlers@[j].handlers@[k] == pre.endpoints@[i].handle);
                }
            }
        }
    }

    /// One endpoint's inner state was replaced in place: the registration
    /// view is unchanged.
    proof fn lemma_inner_update(pre: &Self, post: &Self, i: int)
        requires
            pre.wf(),
            0 <= i < pre.endpoints@.len(),
            post.endpoints@.len() == pre.endpoints@.len(),
            forall|x: int|
                0 <= x < pre.endpoints@.len() && x != i ==> #[trigger] post.endpoints@[x]
                    == pre.endpoints@[x],
            post.endpoints@[i].handle == pre.endpoints@[i].handle,
            post.type_handlers@ == pre.type_handlers@,
            post.next_endpoint_id == pre.next_endpoint_id,
        ensures
            post.wf(),
            Self::same_registration(pre, post),
            Self::cursors_unchanged(pre, post),
            pre.has_endpoint(pre.endpoints@[i].handle.endpoint_id),
    {
        assert forall|x: int| 0 <= x < pre.endpoints@.len() implies (
        #[trigger] post.endpoints@[x]).handle == pre.endpoints@[x].handle by {
            if x != i {
                assert(post.endpoints@[x] == pre.endpoints@[x]);
            }
        }
        Self::lemma_same_handles_same_shape(pre, post);
        pre.lemma_ep_index_agrees(pre.endpoints@[i].handle.endpoint_id, i);
    }

    /// Under the same premises: only the replaced endpoint's inner state
    /// may differ between the two registries.
    proof fn lemma_inner_update_inners(pre: &Self, post: &Self, i: int)
        requires
            pre.wf(),
            0 <= i < pre.endpoints@.len(),
            post.endpoints@.len() == pre.endpoints@.len(),
            forall|x: int|
                0 <= x < pre.endpoints@.len() && x != i ==> #[trigger] post.endpoints@[x]
                    == pre.endpoints@[x],
            post.endpoints@[i].handle == pre.endpoints@[i].handle,
            post.type_handlers@ == pre.type_handlers@,
            post.next_endpoint_id == pre.next_endpoint_id,
        ensures
            Self::inners_unchanged_except(
                pre,
                post,
                set![pre.endpoints@[i].handle.endpoint_id],
            ),
            post.inner_of(pre.endpoints@[i].handle.endpoint_id) == post.endpoints@[i].inner,
            pre.inner_of(pre.endpoints@[i].handle.endpoint_id) == pre.endpoints@[i].inner,
    {
        let id0 = pre.endpoints@[i].handle.endpoint_id;
        assert forall|x: int| 0 <= x < pre.endpoints@.len() implies (
        #[trigger] post.endpoints@[x]).handle == pre.endpoints@[x].handle by {
            if x != i {
                assert(post.endpoints@[x] == pre.endpoints@[x]);
            }
        }
        assert forall|a: int, b: int| 0 <= a < b < post.endpoints@.len() implies (
        #[trigger] post.endpoints@[a]).handle.endpoint_id != (
        #[trigger] post.endpoints@[b]).handle.endpoint_id by {
            assert(post.endpoints@[a].handle == pre.endpoints@[a].handle);
            assert(post.endpoints@[b].handle == pre.endpoints@[b].handle);
        }
        pre.lemma_ep_index_agrees(id0, i);
        post.lemma_ep_index_agrees(id0, i);
        assert forall|id: EndpointId|
            pre.has_endpoint(id) && !set![id0].contains(id) implies #[trigger] post.inner_of(id)
            == pre.inner_of(id) by {
            let w = pre.ep_index(id);
            assert(pre.endpoints@[w].handle.endpoint_id == id);
            assert(w != i);
            assert(post.endpoints@[w] == pre.endpoints@[w]);
            post.lemma_ep_index_agrees(id, w);
        }
    }

    /// Create a new [`Endpoint`] registered with this router: the endpoint
    /// is assigned the next identity and inserted into both the identity
    /// map and the type map before this returns. The callback is attached
    /// afterwards with [`MessageRouter::register_callback`].
    pub fn create_endpoint(&mut self, message_type: u64) -> (ep: Endpoint)
        requires
            old(self).wf(),
            old(self).next_id_spec() < u64::MAX,
        ensures
            final(self).wf(),
            ep.id_spec() == old(self).next_id_spec(),
            ep.message_type_spec() == message_type,
            final(self).next_id_spec() == old(self).next_id_spec() + 1,
            final(self).endpoint_ids() == old(self).endpoint_ids().push(ep.id_spec()),
            final(self).num_endpoints_spec() == old(self).num_endpoints_spec() + 1,
            final(self).total_handlers() == old(self).total_handlers() + 1,
            !old(self).has_endpoint(ep.id_spec()),
            final(self).has_endpoint(ep.id_spec()),
            final(self).token_of(ep.id_spec()) == message_type,
            final(self).inner_of(ep.id_spec()).callback_spec() is None,
            final(self).inner_of(ep.id_spec()).filters_seq() == Seq::<SourceFilter>::empty(),
            forall|id: EndpointId|
                id != ep.id_spec() ==> final(self).has_endpoint(id) == old(self).has_endpoint(id),
            forall|id: EndpointId|
                old(self).has_endpoint(id) ==> #[trigger] final(self).token_of(id) == old(self).token_of(id),
            forall|id: EndpointId|
                old(self).has_endpoint(id) ==> #[trigger] final(self).inner_of(id) == old(self).inner_of(id),
            final(self).has_type(message_type),
            final(self).handler_ids(message_type) == old(self).handler_ids(message_type).push(
                ep.id_spec(),
            ),
            final(self).cursor_of(message_type) == (if old(self).has_type(message_type) {
                old(self).cursor_of(message_type)
            } else {
                0usize
            }),
            forall|t: u64|
                t != message_type ==> final(self).has_type(t) == old(self).has_type(t),
            forall|t: u64|
                t != message_type ==> #[trigger] final(self).handler_ids(t) == old(self).handler_ids(t),
            forall|t: u64|
                t != message_type && old(self).has_type(t) ==> #[trigger] final(self).cursor_of(t)
                    == old(self).cursor_of(t),
    {
        let id = self.next_endpoint_id;
        let handle = EndpointHandle::new(id, message_type);
        let ty_idx = self.find_type(message_type);
        self.next_endpoint_id = id + 1;
        self.endpoints.push(RouterEntry { handle, inner: EndpointInner::new() });

        proof {
            // The new identity is fresh, so the identity map stays distinct.
            assert forall|a: int, b: int| 0 <= a < b < self.endpoints@.len() implies (
            #[trigger] self.endpoints@[a]).handle.endpoint_id != (
            #[trigger] self.endpoints@[b]).handle.endpoint_id by {
                if b == self.endpoints@.len() - 1 {
                    assert(old(self).endpoints@[a].handle.endpoint_id < id);
                }
            }
            assert(self.endpoints@.len() == old(self).endpoints@.len() + 1);
            assert(self.endpoint_ids() =~= old(self).endpoint_ids().push(id));
        }

        match ty_idx {
            Some(j) => {
                self.type_handlers[j].handlers.push(handle);
                proof {
                    self.lemma_create_post_existing(old(self), j as int, handle);
                }
            },
            None => {
                let mut hs: Vec<EndpointHandle> = Vec::new();
                hs.push(handle);
                self.type_handlers.push(
                    TypeHandler { message_type, handlers: hs, next_index: 0 },
                );
                proof {
                    self.lemma_create_post_new(old(self), handle);
                }
            },
        }
        Endpoint::new(id, message_type)
    }

    /// Register a message callback with an endpoint, replacing any previous
    /// one; the endpoint starts receiving messages once this returns.
    /// Returns whether the endpoint is registered.
    pub fn register_callback(&mut self, endpoint_id: EndpointId, handler: H) -> (b: bool)
        requires
            old(self).wf(),
        ensures
            final(self).wf(),
            b == old(self).has_endpoint(endpoint_id),
            Self::same_registration(old(self), final(self)),
            Self::cursors_unchanged(old(self), final(self)),
            Self::inners_unchanged_except(old(self), final(self), set![endpoint_id]),
            final(self).num_endpoints_spec() == old(self).num_endpoints_spec(),
            final(self).total_handlers() == old(self).total_handlers(),
            final(self).next_id_spec() == old(self).next_id_spec(),
            b ==> final(self).callback_of(endpoint_id) == Some(handler),
            b ==> final(self).inner_of(endpoint_id).filters_seq() == old(self).inner_of(
                endpoint_id,
            ).filters_seq(),
    {
        match self.find_endpoint(endpoint_id) {
            Some(i) => {
                let ghost pre_index = old(self).ep_index(endpoint_id);
                self.endpoints[i].inner.register(handler);
                proof {
                    Self::lemma_inner_update(old(self), self, pre_index);
                    Self::lemma_inner_update_inners(old(self), self, pre_index);
                }
                true
            },
            None => {
                false
            },
        }
    }

    /// Append a filter to a registered endpoint. Returns whether the
    /// endpoint is registered.
    pub fn add_filter(&mut self, endpoint_id: EndpointId, filter: SourceFilter) -> (b: bool)
        requires
            old(self).wf(),
        ensures
            final(self).wf(),
            b == old(self).has_endpoint(endpoint_id),
            Self::same_registration(old(self), final(self)),
            Self::cursors_unchanged(old(self), final(self)),
            Self::inners_unchanged_except(old(self), final(self), set![endpoint_id]),
            final(self).num_endpoints_spec() == old(self).num_endpoints_spec(),
            final(self).total_handlers() == old(self).total_handlers(),
            final(self).next_id_spec() == old(self).next_id_spec(),
            b ==> final(self).inner_of(endpoint_id).filters_seq() == old(self).inner_of(
                endpoint_id,
            ).filters_seq().push(filter),
            b ==> final(self).callback_of(endpoint_id) == old(self).callback_of(endpoint_id),
    {
        match self.find_endpoint(endpoint_id) {
            Some(i) => {
                let ghost pre_index = old(self).ep_index(endpoint_id);
                self.endpoints[i].inner.add_filter(filter);
                proof {
                    Self::lemma_inner_update(old(self), self, pre_index);
                    Self::lemma_inner_update_inners(old(self), self, pre_index);
                }
                true
            },
            None => {
                false
            },
        }
    }

    /// Add an [`Endpoint`] to the router with its callback attached: the
    /// endpoint is created, registered in both maps, and configured.
    #[verifier::rlimit(100)]
    pub fn add_endpoint(&mut self, message_type: u64, handler: H) -> (ep: Endpoint)
        requires
            old(self).wf(),
            old(self).next_id_spec() < u64::MAX,
        ensures
            final(self).wf(),
            ep.id_spec() == old(self).next_id_spec(),
            ep.message_type_spec() == message_type,
            final(self).next_id_spec() == old(self).next_id_spec() + 1,
            final(self).endpoint_ids() == old(self).endpoint_ids().push(ep.id_spec()),
            final(self).num_endpoints_spec() == old(self).num_endpoints_spec() + 1,
            final(self).total_handlers() == old(self).total_handlers() + 1,
            !old(self).has_endpoint(ep.id_spec()),
            final(self).has_endpoint(ep.id_spec()),
            final(self).token_of(ep.id_spec()) == message_type,
            final(self).callback_of(ep.id_spec()) == Some(handler),
            final(self).inner_of(ep.id_spec()).filters_seq() == Seq::<SourceFilter>::empty(),
            forall|id: EndpointId|
                id != ep.id_spec() ==> final(self).has_endpoint(id) == old(self).has_endpoint(id),
            forall|id: EndpointId|
                old(self).has_endpoint(id) ==> #[trigger] final(self).token_of(id) == old(
                    self,
                ).token_of(id),
            forall|id: EndpointId|
                old(self).has_endpoint(id) ==> #[trigger] final(self).inner_of(id) == old(
                    self,
                ).inner_of(id),
            final(self).has_type(message_type),
            final(self).handler_ids(message_type) == old(self).handler_ids(message_type).push(
                ep.id_spec(),
            ),
            forall|t: u64| t != message_type ==> final(self).has_type(t) == old(self).has_type(t),
            forall|t: u64|
                t != message_type ==> #[trigger] final(self).handler_ids(t) == old(
                    self,
                ).handler_ids(t),
            forall|t: u64|
                old(self).has_type(t) ==> #[trigger] final(self).cursor_of(t) == old(
                    self,
                ).cursor_of(t),
            !old(self).has_type(message_type) ==> final(self).cursor_of(message_type) == 0,
    {
        let ep = self.create_endpoint(message_type);
        let h = ep.handle();
        let ghost mid = *self;
        let registered = self.register_callback(h.endpoint_id, handler);
        proof {
            assert(registered);
            assert forall|id: EndpointId|
                old(self).has_endpoint(id) implies #[trigger] self.inner_of(id) == old(
                self,
            ).inner_of(id) by {
                assert(id != ep.id_spec());
                assert(mid.inner_of(id) == old(self).inner_of(id));
                assert(!set![ep.id_spec()].contains(id));
            }
            assert forall|t: u64|
                old(self).has_type(t) implies #[trigger] self.cursor_of(t) == old(
                self,
            ).cursor_of(t) by {
                assert(mid.has_type(t));
                assert(mid.cursor_of(t) == old(self).cursor_of(t));
            }
        }
        ep
    }

    /// Create a static endpoint: it is registered and configured like any
    /// other, but no receipt is handed out, so no owner can deregister it;
    /// it serves for the router's lifetime.
    pub fn static_endpoint(&mut self, message_type: u64, handler: H)
        requires
            old(self).wf(),
            old(self).next_id_spec() < u64::MAX,
        ensures
            final(self).wf(),
            final(self).next_id_spec() == old(self).next_id_spec() + 1,
            final(self).num_endpoints_spec() == old(self).num_endpoints_spec() + 1,
            final(self).total_handlers() == old(self).total_handlers() + 1,
            final(self).has_endpoint(old(self).next_id_spec()),
            final(self).token_of(old(self).next_id_spec()) == message_type,
            final(self).callback_of(old(self).next_id_spec()) == Some(handler),
            final(self).has_type(message_type),
            final(self).handler_ids(message_type) == old(self).handler_ids(message_type).push(
                old(self).next_id_spec(),
            ),
            forall|id: EndpointId|
                id != old(self).next_id_spec() ==> final(self).has_endpoint(id) == old(
                    self,
                ).has_endpoint(id),
            forall|id: EndpointId|
                old(self).has_endpoint(id) ==> #[trigger] final(self).inner_of(id) == old(
                    self,
                ).inner_of(id),
            forall|t: u64|
                t != message_type ==> #[trigger] final(self).handler_ids(t) == old(
                    self,
                ).handler_ids(t),
    {
        let _ = self.add_endpoint(message_type, handler);
    }

    /// Find the position of an endpoint identity inside type list `j`.
    fn position_in_list(&self, j: usize, endpoint_id: EndpointId) -> (k: usize)
        requires
            self.wf(),
            j < self.type_handlers@.len(),
            exists|x: int|
                0 <= x < self.type_handlers@[j as int].handlers@.len() && (
                #[trigger] self.type_handlers@[j as int].handlers@[x]).endpoint_id == endpoint_id,
        ensures
            k < self.type_handlers@[j as int].handlers@.len(),
            self.type_handlers@[j as int].handlers@[k as int].endpoint_id == endpoint_id,
    {
        let len = self.type_handlers[j].handlers.len();
        let mut k: usize = 0;
        while k < len
            invariant
                k <= len,
                j < self.type_handlers@.len(),
                len == self.type_handlers@[j as int].handlers@.len(),
                exists|x: int|
                    0 <= x < self.type_handlers@[j as int].handlers@.len() && (
                    #[trigger] self.type_handlers@[j as int].handlers@[x]).endpoint_id
                        == endpoint_id,
                forall|x: int|
                    0 <= x < k ==> (#[trigger] self.type_handlers@[j as int].handlers@[x]).endpoint_id
                        != endpoint_id,
            decreases len - k,
        {
            if self.type_handlers[j].handlers[k].endpoint_id == endpoint_id {
                return k;
            }
            k = k + 1;
        }
        proof {
            assert(false);
        }
        vstd::pervasive::unreached()
    }

    /// Identity-map facts after removing one entry.
    proof fn lemma_remove_ids(&self, pre: &Self, i: int)
        requires
            pre.ids_distinct(),
            pre.ids_bounded(),
            0 <= i < pre.endpoints@.len(),
            self.next_endpoint_id == pre.next_endpoint_id,
            self.endpoints@ == pre.endpoints@.remove(i),
        ensures
            self.ids_distinct(),
            self.ids_bounded(),
            self.endpoints@.len() == pre.endpoints@.len() - 1,
            !self.has_endpoint(pre.endpoints@[i].handle.endpoint_id),
            forall|id: EndpointId|
                id != pre.endpoints@[i].handle.endpoint_id ==> self.has_endpoint(id)
                    == pre.has_endpoint(id),
            forall|id: EndpointId|
                id != pre.endpoints@[i].handle.endpoint_id && pre.has_endpoint(id)
                    ==> #[trigger] self.token_of(id) == pre.token_of(id),
            forall|id: EndpointId|
                id != pre.endpoints@[i].handle.endpoint_id && pre.has_endpoint(id)
                    ==> #[trigger] self.inner_of(id) == pre.inner_of(id),
    {
        let removed = pre.endpoints@[i].handle.endpoint_id;
        assert forall|x: int| 0 <= x < self.endpoints@.len() implies #[trigger] self.endpoints@[x]
            == (if x < i {
            pre.endpoints@[x]
        } else {
            pre.endpoints@[x + 1]
        }) by {}
        assert forall|a: int, b: int| 0 <= a < b < self.endpoints@.len() implies (
        #[trigger] self.endpoints@[a]).handle.endpoint_id != (
        #[trigger] self.endpoints@[b]).handle.endpoint_id by {}
        assert(!self.has_endpoint(removed)) by {
            if self.has_endpoint(removed) {
                let x = choose|x: int|
                    0 <= x < self.endpoints@.len() && self.endpoints@[x].handle.endpoint_id
                        == removed;
                if x < i {
                    assert(pre.endpoints@[x].handle.endpoint_id == removed);
                } else {
                    assert(pre.endpoints@[x + 1].handle.endpoint_id == removed);
                }
            }
        }
        assert forall|id: EndpointId| id != removed implies self.has_endpoint(id)
            == pre.has_endpoint(id) by {
            if pre.has_endpoint(id) {
                let w = pre.ep_index(id);
                assert(pre.endpoints@[w].handle.endpoint_id == id);
                assert(w != i);
                if w < i {
                    assert(self.endpoints@[w].handle.endpoint_id == id);
                } else {
                    assert(self.endpoints@[w - 1].handle.endpoint_id == id);
                }
            }
            if self.has_endpoint(id) {
                let x = choose|x: int|
                    0 <= x < self.endpoints@.len() && self.endpoints@[x].handle.endpoint_id == id;
                if x < i {
                    assert(pre.endpoints@[x].handle.endpoint_id == id);
                } else {
                    assert(pre.endpoints@[x + 1].handle.endpoint_id == id);
                }
            }
        }
        assert forall|id: EndpointId| id != removed && pre.has_endpoint(id) implies #[trigger] self.token_of(
            id,
        ) == pre.token_of(id) && self.inner_of(id) == pre.inner_of(id) by {
            let w = pre.ep_index(id);
            assert(pre.endpoints@[w].handle.endpoint_id == id);
            assert(w != i);
            let w2: int = if w < i { w } else { w - 1 };
            assert(self.endpoints@[w2] == pre.endpoints@[w]);
            self.lemma_ep_index_agrees(id, w2);
        }
    }

    /// Remove a registered [`Endpoint`] from the [`MessageRouter`],
    /// specified by [`EndpointId`]: the identity-keyed entry is removed and
    /// the endpoint is purged from its type list; a type list left empty is
    /// removed entirely. Removing an unknown identity changes nothing.
    #[verifier::rlimit(100)]
    pub fn remove_endpoint(&mut self, endpoint_id: EndpointId)
        requires
            old(self).wf(),
        ensures
            final(self).next_id_spec() == old(self).next_id_spec(),
            !final(self).has_endpoint(endpoint_id),
            forall|id: EndpointId|
                id != endpoint_id ==> final(self).has_endpoint(id) == old(self).has_endpoint(id),
            forall|id: EndpointId|
                id != endpoint_id && old(self).has_endpoint(id) ==> #[trigger] final(self).token_of(id) == old(self).token_of(id),
            forall|id: EndpointId|
                id != endpoint_id && old(self).has_endpoint(id) ==> #[trigger] final(self).inner_of(id) == old(self).inner_of(id),
            !old(self).has_endpoint(endpoint_id) ==> *final(self) == *old(self),
            old(self).has_endpoint(endpoint_id) ==> final(self).num_endpoints_spec() == old(self).num_endpoints_spec() - 1,
    {
        let ep_idx = match self.find_endpoint(endpoint_id) {
            Some(i) => i,
            None => {
                return ;
            },
        };
        let token = self.endpoints[ep_idx].handle.message_type;
        proof {
            // A registered endpoint is listed under its token.
            let (j2, k2) = choose|j2: int, k2: int|
                0 <= j2 < self.type_handlers@.len() && 0 <= k2
                    < self.type_handlers@[j2].handlers@.len()
                    && #[trigger] self.type_handlers@[j2].handlers@[k2] == (
                #[trigger] self.endpoints@[ep_idx as int]).handle;
            assert(self.type_handlers@[j2].message_type == token);
            self.lemma_th_index_agrees(token, j2);
        }
        let j = match self.find_type(token) {
            Some(j) => j,
            None => {
                vstd::pervasive::unreached()
            },
        };
        proof {
            let (j2, k2) = choose|j2: int, k2: int|
                0 <= j2 < self.type_handlers@.len() && 0 <= k2
                    < self.type_handlers@[j2].handlers@.len()
                    && #[trigger] self.type_handlers@[j2].handlers@[k2] == (
                #[trigger] self.endpoints@[ep_idx as int]).handle;
            self.lemma_th_index_agrees(token, j2);
            assert(j2 == j as int);
            assert((self.type_handlers@[j as int].handlers@[k2]).endpoint_id == endpoint_id);
        }
        let k = self.position_in_list(j, endpoint_id);
        let list_len = self.type_handlers[j].handlers.len();
        let ghost pre = *self;
        self.endpoints.remove(ep_idx);
        if list_len == 1 {
            self.type_handlers.remove(j);
        } else {
            self.type_handlers[j].handlers.remove(k);
        }
        proof {
            self.lemma_remove_ids(&pre, ep_idx as int);
        }
    }

    /// The facts a fresh registration shares between the two type-map
    /// cases, stated over the identity map alone.
    proof fn lemma_register_ids(&self, pre: &Self, handle: EndpointHandle)
        requires
            pre.wf(),
            pre.next_id_spec() < u64::MAX,
            handle.endpoint_id == pre.next_id_spec(),
            self.next_endpoint_id == pre.next_endpoint_id + 1,
            self.endpoints@.len() == pre.endpoints@.len() + 1,
            forall|i: int|
                0 <= i < pre.endpoints@.len() ==> #[trigger] self.endpoints@[i]
                    == pre.endpoints@[i],
            self.endpoints@.last().handle == handle,
        ensures
            self.ids_distinct(),
            self.ids_bounded(),
            self.endpoint_ids() == pre.endpoint_ids().push(handle.endpoint_id),
            self.has_endpoint(handle.endpoint_id),
            self.ep_index(handle.endpoint_id) == pre.endpoints@.len(),
            self.token_of(handle.endpoint_id) == handle.message_type,
            self.inner_of(handle.endpoint_id) == self.endpoints@.last().inner,
            forall|id: EndpointId|
                id != handle.endpoint_id ==> self.has_endpoint(id) == pre.has_endpoint(id),
            forall|id: EndpointId|
                pre.has_endpoint(id) ==> #[trigger] self.ep_index(id) == pre.ep_index(id),
            forall|id: EndpointId|
                pre.has_endpoint(id) ==> #[trigger] self.token_of(id) == pre.token_of(id),
            forall|id: EndpointId|
                pre.has_endpoint(id) ==> #[trigger] self.inner_of(id) == pre.inner_of(id),
            forall|id: EndpointId| pre.has_endpoint(id) ==> id != handle.endpoint_id,
    {
        let n = pre.endpoints@.len() as int;
        assert forall|a: int, b: int| 0 <= a < b < self.endpoints@.len() implies (
        #[trigger] self.endpoints@[a]).handle.endpoint_id != (
        #[trigger] self.endpoints@[b]).handle.endpoint_id by {
            if b == n {
                assert(self.endpoints@[a] == pre.endpoints@[a]);
                assert(pre.endpoints@[a].handle.endpoint_id < pre.next_endpoint_id);
            }
        }
        assert(self.endpoint_ids() =~= pre.endpoint_ids().push(handle.endpoint_id));
        self.lemma_ep_index_agrees(handle.endpoint_id, n);
        assert forall|id: EndpointId| pre.has_endpoint(id) implies #[trigger] self.ep_index(id)
            == pre.ep_index(id) && self.token_of(id) == pre.token_of(id) && self.inner_of(id)
            == pre.inner_of(id) && id != handle.endpoint_id by {
            let i = pre.ep_index(id);
            assert(pre.endpoints@[i].handle.endpoint_id == id);
            assert(pre.endpoints@[i].handle.endpoint_id < pre.next_endpoint_id);
            assert(self.endpoints@[i] == pre.endpoints@[i]);
            self.lemma_ep_index_agrees(id, i);
        }
        assert forall|id: EndpointId| id != handle.endpoint_id implies self.has_endpoint(id)
            == pre.has_endpoint(id) by {
            if self.has_endpoint(id) {
                let i = choose|i: int|
                    0 <= i < self.endpoints@.len() && self.endpoints@[i].handle.endpoint_id == id;
                assert(i != n);
                assert(pre.endpoints@[i].handle.endpoint_id == id);
            }
            if pre.has_endpoint(id) {
                let i = choose|i: int|
                    0 <= i < pre.endpoints@.len() && pre.endpoints@[i].handle.endpoint_id == id;
                assert(self.endpoints@[i].handle.endpoint_id == id);
            }
        }
    }

    /// Post-state reasoning for a registration into an existing type list:
    /// `handle` was appended to list `j`, everything else is unchanged.
    proof fn lemma_create_post_existing(&self, pre: &Self, j: int, handle: EndpointHandle)
        requires
            pre.wf(),
            pre.next_id_spec() < u64::MAX,
            handle.endpoint_id == pre.next_id_spec(),
            0 <= j < pre.type_handlers@.len(),
            pre.type_handlers@[j].message_type == handle.message_type,
            self.next_endpoint_id == pre.next_endpoint_id + 1,
            self.endpoints@.len() == pre.endpoints@.len() + 1,
            forall|i: int|
                0 <= i < pre.endpoints@.len() ==> #[trigger] self.endpoints@[i]
                    == pre.endpoints@[i],
            self.endpoints@.last().handle == handle,
            self.type_handlers@.len() == pre.type_handlers@.len(),
            forall|j2: int|
                0 <= j2 < pre.type_handlers@.len() && j2 != j ==> #[trigger] self.type_handlers@[j2]
                    == pre.type_handlers@[j2],
            self.type_handlers@[j].message_type == pre.type_handlers@[j].message_type,
            self.type_handlers@[j].next_index == pre.type_handlers@[j].next_index,
            self.type_handlers@[j].handlers@ == pre.type_handlers@[j].handlers@.push(handle),
        ensures
            self.wf(),
            self.endpoint_ids() == pre.endpoint_ids().push(handle.endpoint_id),
            self.total_handlers() == pre.total_handlers() + 1,
            self.has_endpoint(handle.endpoint_id),
            self.token_of(handle.endpoint_id) == handle.message_type,
            self.inner_of(handle.endpoint_id) == self.endpoints@.last().inner,
            forall|id: EndpointId|
                id != handle.endpoint_id ==> self.has_endpoint(id) == pre.has_endpoint(id),
            forall|id: EndpointId|
                pre.has_endpoint(id) ==> #[trigger] self.token_of(id) == pre.token_of(id),
            forall|id: EndpointId|
                pre.has_endpoint(id) ==> #[trigger] self.inner_of(id) == pre.inner_of(id),
            self.has_type(handle.message_type),
            self.handler_ids(handle.message_type) == pre.handler_ids(
                handle.message_type,
            ).push(handle.endpoint_id),
            self.cursor_of(handle.message_type) == pre.cursor_of(handle.message_type),
            pre.has_type(handle.message_type),
            forall|t: u64| self.has_type(t) == pre.has_type(t),
            forall|t: u64|
                t != handle.message_type ==> #[trigger] self.handler_ids(t) == pre.handler_ids(t),
            forall|t: u64|
                t != handle.message_type && pre.has_type(t) ==> #[trigger] self.cursor_of(t)
                    == pre.cursor_of(t),
    {
        let n = pre.endpoints@.len() as int;
        let token = handle.message_type;
        self.lemma_register_ids(pre, handle);
        pre.lemma_th_index_agrees(token, j);

        // The type tokens are unchanged.
        assert forall|j2: int| 0 <= j2 < self.type_handlers@.len() implies (
        #[trigger] self.type_handlers@[j2]).message_type
            == pre.type_handlers@[j2].message_type by {}
        assert forall|t: u64| self.has_type(t) == pre.has_type(t) by {
            if pre.has_type(t) {
                let w = pre.th_index(t);
                assert(self.type_handlers@[w].message_type == t);
            }
            if self.has_type(t) {
                let w = choose|w: int|
                    0 <= w < self.type_handlers@.len() && self.type_handlers@[w].message_type == t;
                assert(pre.type_handlers@[w].message_type == t);
            }
        }
        assert(self.tokens_distinct());
        assert(self.lists_nonempty());
        self.lemma_th_index_agrees(token, j);
        assert forall|t: u64| t != token && pre.has_type(t) implies #[trigger] self.handler_ids(t)
            == pre.handler_ids(t) && self.cursor_of(t) == pre.cursor_of(t) by {
            let w = pre.th_index(t);
            assert(w != j);
            assert(self.type_handlers@[w] == pre.type_handlers@[w]);
            self.lemma_th_index_agrees(t, w);
        }
        assert(self.handler_ids(token) =~= pre.handler_ids(token).push(handle.endpoint_id));

        // The new handle is distinct from every handle already in list `j`.
        assert forall|k: int| 0 <= k < pre.type_handlers@[j].handlers@.len() implies (
        #[trigger] pre.type_handlers@[j].handlers@[k]).endpoint_id != handle.endpoint_id by {
            let h = pre.type_handlers@[j].handlers@[k];
            let i = choose|i: int| 0 <= i < pre.endpoints@.len() && pre.endpoints@[i].handle == h;
            assert(pre.endpoints@[i].handle.endpoint_id < pre.next_endpoint_id);
        }
        assert(self.lists_wf()) by {
            assert forall|j2: int, k: int|
                0 <= j2 < self.type_handlers@.len() && 0 <= k
                    < self.type_handlers@[j2].handlers@.len() implies (
            #[trigger] self.type_handlers@[j2].handlers@[k]).message_type
                == self.type_handlers@[j2].message_type && exists|i: int|
                0 <= i < self.endpoints@.len() && self.endpoints@[i].handle
                    == self.type_handlers@[j2].handlers@[k] by {
                let h = self.type_handlers@[j2].handlers@[k];
                if j2 == j && k == pre.type_handlers@[j].handlers@.len() {
                    assert(self.endpoints@[n as int].handle == h);
                } else {
                    assert(h == pre.type_handlers@[j2].handlers@[k]);
                    let i = choose|i: int|
                        0 <= i < pre.endpoints@.len() && pre.endpoints@[i].handle == h;
                    assert(self.endpoints@[i].handle == h);
                }
            }
        }
        assert(self.endpoints_listed()) by {
            assert forall|i: int| 0 <= i < self.endpoints@.len() implies exists|j2: int, k: int|
                0 <= j2 < self.type_handlers@.len() && 0 <= k
                    < self.type_handlers@[j2].handlers@.len()
                    && #[trigger] self.type_handlers@[j2].handlers@[k] == (
            #[trigger] self.endpoints@[i]).handle by {
                if i == n {
                    let k = pre.type_handlers@[j].handlers@.len();
                    assert(self.type_handlers@[j].handlers@[k as int]
                        == self.endpoints@[i].handle);
                } else {
                    let (j2, k) = choose|j2: int, k: int|
                        0 <= j2 < pre.type_handlers@.len() && 0 <= k
                            < pre.type_handlers@[j2].handlers@.len()
                            && #[trigger] pre.type_handlers@[j2].handlers@[k] == (
                        #[trigger] pre.endpoints@[i]).handle;
                    assert(self.type_handlers@[j2].handlers@[k] == self.endpoints@[i].handle);
                }
            }
        }
        assert(self.total_handlers() == pre.total_handlers() + 1) by {
            assert(self.type_handlers@ =~= pre.type_handlers@.update(
                j,
                self.type_handlers@[j],
            ));
            lemma_flat_ids_update_len(pre.type_handlers@, j, self.type_handlers@[j]);
        }
    }

    /// Post-state reasoning for a registration opening a new type list:
    /// a singleton entry for `handle` was appended to the type map.
    proof fn lemma_create_post_new(&self, pre: &Self, handle: EndpointHandle)
        requires
            pre.wf(),
            pre.next_id_spec() < u64::MAX,
            handle.endpoint_id == pre.next_id_spec(),
            !pre.has_type(handle.message_type),
            self.next_endpoint_id == pre.next_endpoint_id + 1,
            self.endpoints@.len() == pre.endpoints@.len() + 1,
            forall|i: int|
                0 <= i < pre.endpoints@.len() ==> #[trigger] self.endpoints@[i]
                    == pre.endpoints@[i],
            self.endpoints@.last().handle == handle,
            self.type_handlers@.len() == pre.type_handlers@.len() + 1,
            forall|j2: int|
                0 <= j2 < pre.type_handlers@.len() ==> #[trigger] self.type_handlers@[j2]
                    == pre.type_handlers@[j2],
            self.type_handlers@.last().message_type == handle.message_type,
            self.type_handlers@.last().next_index == 0,
            self.type_handlers@.last().handlers@ == seq![handle],
        ensures
            self.wf(),
            self.endpoint_ids() == pre.endpoint_ids().push(handle.endpoint_id),
            self.total_handlers() == pre.total_handlers() + 1,
            self.has_endpoint(handle.endpoint_id),
            self.token_of(handle.endpoint_id) == handle.message_type,
            self.inner_of(handle.endpoint_id) == self.endpoints@.last().inner,
            forall|id: EndpointId|
                id != handle.endpoint_id ==> self.has_endpoint(id) == pre.has_endpoint(id),
            forall|id: EndpointId|
                pre.has_endpoint(id) ==> #[trigger] self.token_of(id) == pre.token_of(id),
            forall|id: EndpointId|
                pre.has_endpoint(id) ==> #[trigger] self.inner_of(id) == pre.inner_of(id),
            self.has_type(handle.message_type),
            self.handler_ids(handle.message_type) == pre.handler_ids(
                handle.message_type,
            ).push(handle.endpoint_id),
            self.cursor_of(handle.message_type) == 0,
            forall|t: u64|
                t != handle.message_type ==> self.has_type(t) == pre.has_type(t),
            forall|t: u64|
                t != handle.message_type ==> #[trigger] self.handler_ids(t) == pre.handler_ids(t),
            forall|t: u64|
                t != handle.message_type && pre.has_type(t) ==> #[trigger] self.cursor_of(t)
                    == pre.cursor_of(t),
    {
        let n = pre.endpoints@.len() as int;
        let m = pre.type_handlers@.len() as int;
        let token = handle.message_type;
        self.lemma_register_ids(pre, handle);

        assert forall|t: u64| t != token implies self.has_type(t) == pre.has_type(t) by {
            if pre.has_type(t) {
                let w = pre.th_index(t);
                assert(self.type_handlers@[w].message_type == t);
            }
            if self.has_type(t) {
                let w = choose|w: int|
                    0 <= w < self.type_handlers@.len() && self.type_handlers@[w].message_type == t;
                assert(w != m);
                assert(pre.type_handlers@[w].message_type == t);
            }
        }
        assert(self.tokens_distinct()) by {
            assert forall|j1: int, j2: int| 0 <= j1 < j2 < self.type_handlers@.len() implies (
            #[trigger] self.type_handlers@[j1]).message_type != (
            #[trigger] self.type_handlers@[j2]).message_type by {
                if j2 == m {
                    if self.type_handlers@[j1].message_type == token {
                        assert(pre.type_handlers@[j1].message_type == token);
                        assert(pre.has_type(token));
                    }
                }
            }
        }
        assert(self.lists_nonempty());
        self.lemma_th_index_agrees(token, m);
        assert(self.handler_ids(token) =~= pre.handler_ids(token).push(handle.endpoint_id));
        assert forall|t: u64| t != token && pre.has_type(t) implies #[trigger] self.handler_ids(t)
            == pre.handler_ids(t) && self.cursor_of(t) == pre.cursor_of(t) by {
            let w = pre.th_index(t);
            assert(self.type_handlers@[w] == pre.type_handlers@[w]);
            self.lemma_th_index_agrees(t, w);
        }
        assert(self.lists_wf()) by {
            assert forall|j2: int, k: int|
                0 <= j2 < self.type_handlers@.len() && 0 <= k
                    < self.type_handlers@[j2].handlers@.len() implies (
            #[trigger] self.type_handlers@[j2].handlers@[k]).message_type
                == self.type_handlers@[j2].message_type && exists|i: int|
                0 <= i < self.endpoints@.len() && self.endpoints@[i].handle
                    == self.type_handlers@[j2].handlers@[k] by {
                let h = self.type_handlers@[j2].handlers@[k];
                if j2 == m {
                    assert(h == handle);
                    assert(self.endpoints@[n as int].handle == h);
                } else {
                    assert(h == pre.type_handlers@[j2].handlers@[k]);
                    let i = choose|i: int|
                        0 <= i < pre.endpoints@.len() && pre.endpoints@[i].handle == h;
                    assert(self.endpoints@[i].handle == h);
                }
            }
        }
        assert(self.endpoints_listed()) by {
            assert forall|i: int| 0 <= i < self.endpoints@.len() implies exists|j2: int, k: int|
                0 <= j2 < self.type_handlers@.len() && 0 <= k
                    < self.type_handlers@[j2].handlers@.len()
                    && #[trigger] self.type_handlers@[j2].handlers@[k] == (
            #[trigger] self.endpoints@[i]).handle by {
                if i == n {
                    assert(self.type_handlers@[m].handlers@[0] == self.endpoints@[i].handle);
                } else {
                    let (j2, k) = choose|j2: int, k: int|
                        0 <= j2 < pre.type_handlers@.len() && 0 <= k
                            < pre.type_handlers@[j2].handlers@.len()
                            && #[trigger] pre.type_handlers@[j2].handlers@[k] == (
                        #[trigger] pre.endpoints@[i]).handle;
                    assert(self.type_handlers@[j2].handlers@[k] == self.endpoints@[i].handle);
                }
            }
        }
        assert(self.total_handlers() == pre.total_handlers() + 1) by {
            assert(self.type_handlers@ =~= pre.type_handlers@.push(self.type_handlers@.last()));
            lemma_flat_ids_push(pre.type_handlers@, self.type_handlers@.last());
        }
    }

    /// Any type-map position holding `token` is the unique one.
    proof fn lemma_th_index_agrees(&self, token: u64, j: int)
        requires
            self.tokens_distinct(),
            0 <= j < self.type_handlers@.len(),
            self.type_handlers@[j].message_type == token,
        ensures
            self.has_type(token),
            self.th_index(token) == j,
    {
        assert(self.has_type(token));
        let w = self.th_index(token);
        assert(0 <= w < self.type_handlers@.len() && self.type_handlers@[w].message_type == token);
    }
}

} // verus!
