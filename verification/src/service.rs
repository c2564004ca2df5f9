//! The service and layer abstraction: a pipeline stage exposes readiness
//! negotiation and dispatch, and the connection layer wraps an inner stage
//! to inject the shared resource's entry into each request's extension
//! context.
//!
//! The readiness protocol is the two-state machine of one service slot:
//! `poll_ready` establishes readiness, and exactly one `call` consumes it.
//! The protocol is enforced by contract: `call` may only be verified on a
//! service whose readiness was confirmed and not yet consumed.

use vstd::prelude::*;

use crate::extensions::RESOURCE_KEY;
use crate::handle::{store_wf, ResourceHandle};
use crate::router::{
    dispatch_post, routes_wf, ReqView, Request, RespView, Response, Router,
};

verus! {

/// A pipeline stage: readiness negotiation plus one-call dispatch.
pub trait Service: Sized {
    /// Structural well-formedness, preserved across the protocol.
    spec fn wf(self) -> bool;

    /// A readiness confirmation is outstanding and not yet consumed.
    spec fn ready(self) -> bool;

    /// What polling may do to the state.
    spec fn poll_rel(self, post: Self) -> bool;

    /// What one dispatched call does: relates the state before the call,
    /// the request, the state after, and the response.
    spec fn call_rel(self, req: ReqView, post: Self, resp: RespView) -> bool;

    /// Negotiates readiness: reports whether the service can accept one
    /// call now.
    fn poll_ready(&mut self) -> (r: bool)
        requires
            old(self).wf(),
        ensures
            final(self).wf(),
            r == final(self).ready(),
            old(self).poll_rel(*final(self)),
    ;

    /// Processes one request. Requires a readiness confirmation, which this
    /// call consumes: calling twice without polling in between cannot be
    /// verified.
    fn call(&mut self, req: Request) -> (resp: Response)
        requires
            old(self).wf(),
            old(self).ready(),
        ensures
            final(self).wf(),
            !final(self).ready(),
            old(self).call_rel(req.deep_view(), *final(self), resp.deep_view()),
    ;
}

/// The terminal stage: the router with the shared resource handle it
/// dispatches against.
pub struct RouterService {
    pub router: Router,
    pub handle: ResourceHandle,
    pub ready_flag: bool,
}

impl RouterService {
    /// Builds the terminal stage over a route table and an established
    /// handle; no readiness is confirmed yet.
    pub fn new(router: Router, handle: ResourceHandle) -> (s: RouterService)
        requires
            routes_wf(router@),
            store_wf(handle@),
        ensures
            s.wf(),
            !s.ready(),
            s.router@ == router@,
            s.handle@ == handle@,
    {
        RouterService { router, handle, ready_flag: false }
    }
}

impl Service for RouterService {
    open spec fn wf(self) -> bool {
        &&& routes_wf(self.router@)
        &&& store_wf(self.handle@)
        &&& (self.ready_flag ==> self.handle@.is_open && !self.handle@.locked)
    }

    open spec fn ready(self) -> bool {
        self.ready_flag
    }

    /// Polling leaves the route table and the store untouched and confirms
    /// readiness exactly when the handle can admit a request.
    open spec fn poll_rel(self, post: Self) -> bool {
        &&& post.router@ == self.router@
        &&& post.handle@ == self.handle@
        &&& post.ready() == (self.handle@.is_open && !self.handle@.locked)
    }

    /// One call is one dispatch against the route table and the store.
    open spec fn call_rel(self, req: ReqView, post: Self, resp: RespView) -> bool {
        &&& post.router@ == self.router@
        &&& dispatch_post(self.router@, req, self.handle@, post.handle@, resp)
    }

    fn poll_ready(&mut self) -> (r: bool) {
        self.ready_flag = self.handle.is_available();
        self.ready_flag
    }

    fn call(&mut self, req: Request) -> (resp: Response) {
        self.ready_flag = false;
        self.router.dispatch(&mut self.handle, req)
    }
}

/// The connection layer: a factory wrapping an inner service with the
/// resource-injecting stage. Construction is pure; the layer holds the tag
/// under which the shared handle is referenced.
pub struct ConnectionLayer {
    pub handle_tag: u64,
}

impl ConnectionLayer {
    /// A layer referencing the shared resource by `handle_tag`.
    pub fn new(handle_tag: u64) -> (l: ConnectionLayer)
        ensures
            l == (ConnectionLayer { handle_tag }),
    {
        ConnectionLayer { handle_tag }
    }

    /// Wraps an inner service: pure construction, no side effects, and the
    /// inner service's interface is unchanged.
    pub fn layer<S: Service>(&self, inner: S) -> (s: ConnectionService<S>)
        ensures
            s == (ConnectionService { inner, handle_tag: self.handle_tag }),
    {
        ConnectionService { inner, handle_tag: self.handle_tag }
    }
}

/// The injection stage produced by the connection layer.
pub struct ConnectionService<S> {
    pub inner: S,
    pub handle_tag: u64,
}

/// The request as the inner service sees it: the same request with the
/// resource entry written into its extension context. When the layer is
/// applied twice, both stages write the same key; the stage nearest the
/// router runs last, so its write wins (see `lemma_rewrap_single_entry`).
pub open spec fn inject(req: ReqView, tag: u64) -> ReqView {
    ReqView { ext: req.ext.insert(RESOURCE_KEY, tag), ..req }
}

impl<S: Service> Service for ConnectionService<S> {
    open spec fn wf(self) -> bool {
        self.inner.wf()
    }

    /// The layer adds no readiness condition of its own: the wrapped
    /// service is ready exactly when the inner one is.
    open spec fn ready(self) -> bool {
        self.inner.ready()
    }

    open spec fn poll_rel(self, post: Self) -> bool {
        &&& self.inner.poll_rel(post.inner)
        &&& post.handle_tag == self.handle_tag
    }

    /// One call forwards the request, with the resource entry injected, to
    /// the inner service, and returns its response unchanged: errors pass
    /// through without being wrapped or reinterpreted.
    open spec fn call_rel(self, req: ReqView, post: Self, resp: RespView) -> bool {
        &&& self.inner.call_rel(inject(req, self.handle_tag), post.inner, resp)
        &&& post.handle_tag == self.handle_tag
    }

    fn poll_ready(&mut self) -> (r: bool) {
        self.inner.poll_ready()
    }

    fn call(&mut self, req: Request) -> (resp: Response) {
        let ghost rv = req.deep_view();
        let mut req2 = req;
        req2.extensions.insert(RESOURCE_KEY, self.handle_tag);
        proof {
            assert(req2.deep_view() == inject(rv, self.handle_tag));
        }
        self.inner.call(req2)
    }
}

/// Law: a request forwarded by the injection layer reaches the inner
/// service with an entry for the resource handle in its context, holding
/// the layer's tag, and with no other part of the request changed.
pub proof fn lemma_injected_context_has_resource(req: ReqView, tag: u64)
    ensures
        inject(req, tag).ext.contains_key(RESOURCE_KEY),
        inject(req, tag).ext[RESOURCE_KEY] == tag,
        inject(req, tag).method == req.method,
        inject(req, tag).path == req.path,
        inject(req, tag).payload == req.payload,
{
}

/// Law: applying the layer twice still hands the handler a context with
/// exactly one resource entry: the write of the stage nearest the router,
/// which runs last before dispatch, wins.
pub proof fn lemma_rewrap_single_entry(req: ReqView, outer_tag: u64, inner_tag: u64)
    ensures
        inject(inject(req, outer_tag), inner_tag).ext == req.ext.insert(RESOURCE_KEY, inner_tag),
{
    assert(inject(inject(req, outer_tag), inner_tag).ext =~= req.ext.insert(
        RESOURCE_KEY,
        inner_tag,
    ));
}

/// Law: the injection layer is transparent to readiness: the wrapped
/// service is ready exactly when the inner service is, so a confirmation
/// obtained by polling is never invalidated by the layer itself.
pub proof fn lemma_layer_readiness_transparent<S: Service>(s: ConnectionService<S>)
    ensures
        s.ready() == s.inner.ready(),
{
}

/// Law: request isolation: injection writes only into the context of the
/// request it forwards. A marker stored under any other key keeps its
/// value, and two requests carrying distinct markers still carry distinct
/// markers after each is injected.
pub proof fn lemma_context_isolation(r1: ReqView, r2: ReqView, tag1: u64, tag2: u64, k: u64)
    requires
        k != RESOURCE_KEY,
        r1.ext.contains_key(k),
        r2.ext.contains_key(k),
        r1.ext[k] != r2.ext[k],
    ensures
        inject(r1, tag1).ext[k] == r1.ext[k],
        inject(r2, tag2).ext[k] == r2.ext[k],
        inject(r1, tag1).ext[k] != inject(r2, tag2).ext[k],
{
}

} // verus!
