//! The router: a route table built once at startup, matched against each
//! request's method and path, with the fixed error-to-status translation at
//! dispatch.

use vstd::prelude::*;

use crate::errors::{error_status, spec_error_status, DomainError};
use crate::handle::{store_wf, ResourceHandle, StoreView};
use crate::handlers::{
    create_post, delete_post, get_post, list_post, list_res_view, task_res_view, create_task,
    delete_task, get_task, list_tasks, update_post, update_task,
};
use crate::ids::{parse_task_id, spec_uuid_of};
use crate::task::{PayloadView, Task, TaskPayload, TaskView};
use crate::extensions::Extensions;

verus! {

/// The request methods the pipeline routes.
#[derive(PartialEq, Eq, Structural, Clone, Copy, Debug)]
pub enum Method {
    Get,
    Post,
    Patch,
    Delete,
}

/// The handlers a route can name.
#[derive(PartialEq, Eq, Structural, Clone, Copy, Debug)]
pub enum HandlerKind {
    ListTasks,
    CreateTask,
    GetTask,
    UpdateTask,
    DeleteTask,
}

/// One segment of a path pattern: a literal, or the one parameterized
/// segment (an `:id`-like placeholder).
pub enum Segment {
    Lit(String),
    Param,
}

/// The mathematical value of a pattern segment.
pub ghost enum SegView {
    Lit(Seq<char>),
    Param,
}

impl View for Segment {
    type V = SegView;

    open spec fn view(&self) -> SegView {
        match self {
            Segment::Lit(s) => SegView::Lit(s@),
            Segment::Param => SegView::Param,
        }
    }
}

impl DeepView for Segment {
    type V = SegView;

    open spec fn deep_view(&self) -> SegView {
        self.view()
    }
}

/// A pattern matches a path when they have the same length and every literal
/// segment equals the path segment at its position.
pub open spec fn pattern_matches(pat: Seq<SegView>, path: Seq<Seq<char>>) -> bool {
    &&& pat.len() == path.len()
    &&& forall|i: int|
        0 <= i < pat.len() ==> (#[trigger] pat[i] matches SegView::Lit(s) ==> path[i] == s)
}

/// The pattern has a parameterized segment.
pub open spec fn has_param(pat: Seq<SegView>) -> bool {
    exists|i: int| 0 <= i < pat.len() && pat[i] is Param
}

/// The index of the pattern's parameterized segment.
pub open spec fn param_idx(pat: Seq<SegView>) -> int {
    choose|i: int| 0 <= i < pat.len() && pat[i] is Param
}

/// The pattern has at most one parameterized segment.
pub open spec fn at_most_one_param(pat: Seq<SegView>) -> bool {
    forall|i: int, j: int| 0 <= i < j < pat.len() ==> !(pat[i] is Param && pat[j] is Param)
}

/// The path segment the pattern's parameterized segment captured, if any.
pub open spec fn param_of(pat: Seq<SegView>, path: Seq<Seq<char>>) -> Option<Seq<char>> {
    if has_param(pat) {
        Some(path[param_idx(pat)])
    } else {
        None
    }
}

/// Under at most one parameterized segment, `param_idx` names exactly the
/// position where one stands.
pub proof fn lemma_param_idx(pat: Seq<SegView>, i: int)
    requires
        at_most_one_param(pat),
        0 <= i < pat.len(),
        pat[i] is Param,
    ensures
        has_param(pat),
        param_idx(pat) == i,
{
    assert(has_param(pat));
    let j = param_idx(pat);
    if j != i {
        if j < i {
            assert(!(pat[j] is Param && pat[i] is Param));
        } else {
            assert(!(pat[i] is Param && pat[j] is Param));
        }
    }
}

/// One registered route.
pub struct Route {
    pub method: Method,
    pub pattern: Vec<Segment>,
    pub handler: HandlerKind,
}

/// The mathematical value of a route.
pub ghost struct RouteView {
    pub method: Method,
    pub pattern: Seq<SegView>,
    pub handler: HandlerKind,
}

impl View for Route {
    type V = RouteView;

    open spec fn view(&self) -> RouteView {
        RouteView { method: self.method, pattern: self.pattern.deep_view(), handler: self.handler }
    }
}

impl DeepView for Route {
    type V = RouteView;

    open spec fn deep_view(&self) -> RouteView {
        self.view()
    }
}

/// A route under `(method, pattern)` is already registered.
pub open spec fn spec_has_route(routes: Seq<RouteView>, method: Method, pat: Seq<SegView>) -> bool {
    exists|i: int| 0 <= i < routes.len() && routes[i].method == method && routes[i].pattern == pat
}

/// Every registered pattern has at most one parameterized segment, and no
/// two routes share a `(method, pattern)` pair.
pub open spec fn routes_wf(routes: Seq<RouteView>) -> bool {
    &&& forall|i: int| 0 <= i < routes.len() ==> at_most_one_param(#[trigger] routes[i].pattern)
    &&& forall|i: int, j: int|
        0 <= i < j < routes.len() ==> !(routes[i].method == routes[j].method && routes[i].pattern
            == routes[j].pattern)
}

/// The first route whose method and pattern both match, in registration
/// order.
pub open spec fn find_match(routes: Seq<RouteView>, method: Method, path: Seq<Seq<char>>) -> Option<
    RouteView,
>
    decreases routes.len(),
{
    if routes.len() == 0 {
        None
    } else if routes.first().method == method && pattern_matches(routes.first().pattern, path) {
        Some(routes.first())
    } else {
        find_match(routes.drop_first(), method, path)
    }
}

/// Some registered pattern matches the path, whatever its method.
pub open spec fn some_pattern_matches(routes: Seq<RouteView>, path: Seq<Seq<char>>) -> bool {
    exists|i: int| 0 <= i < routes.len() && pattern_matches(#[trigger] routes[i].pattern, path)
}

/// If no route before `i` matches and route `i` matches, the scan finds
/// route `i`.
pub proof fn lemma_find_match_at(
    routes: Seq<RouteView>,
    method: Method,
    path: Seq<Seq<char>>,
    i: int,
)
    requires
        0 <= i < routes.len(),
        forall|j: int|
            0 <= j < i ==> !(routes[j].method == method && pattern_matches(
                #[trigger] routes[j].pattern,
                path,
            )),
        routes[i].method == method,
        pattern_matches(routes[i].pattern, path),
    ensures
        find_match(routes, method, path) == Some(routes[i]),
    decreases i,
{
    if i == 0 {
    } else {
        assert(!(routes.first().method == method && pattern_matches(routes.first().pattern, path)));
        lemma_find_match_at(routes.drop_first(), method, path, i - 1);
        assert(routes.drop_first()[i - 1] == routes[i]);
    }
}

/// If no route matches both method and pattern, the scan finds none.
pub proof fn lemma_find_match_none(routes: Seq<RouteView>, method: Method, path: Seq<Seq<char>>)
    requires
        forall|j: int|
            0 <= j < routes.len() ==> !(routes[j].method == method && pattern_matches(
                #[trigger] routes[j].pattern,
                path,
            )),
    ensures
        find_match(routes, method, path) is None,
    decreases routes.len(),
{
    if routes.len() > 0 {
        assert(routes[0] == routes.first());
        assert forall|j: int| 0 <= j < routes.len() - 1 implies !(routes.drop_first()[j].method
            == method && pattern_matches(#[trigger] routes.drop_first()[j].pattern, path)) by {
            assert(routes.drop_first()[j] == routes[j + 1]);
        }
        lemma_find_match_none(routes.drop_first(), method, path);
    }
}

/// Compares two pattern segments.
fn seg_eq(a: &Segment, b: &Segment) -> (r: bool)
    ensures
        r == (a@ == b@),
{
    match (a, b) {
        (Segment::Lit(x), Segment::Lit(y)) => *x == *y,
        (Segment::Param, Segment::Param) => true,
        (Segment::Lit(_), Segment::Param) => false,
        (Segment::Param, Segment::Lit(_)) => false,
    }
}

/// Compares two patterns, segment by segment.
fn pattern_eq(a: &Vec<Segment>, b: &Vec<Segment>) -> (r: bool)
    ensures
        r == (a.deep_view() == b.deep_view()),
{
    if a.len() != b.len() {
        proof {
            assert(a.deep_view().len() != b.deep_view().len());
        }
        return false;
    }
    let mut i: usize = 0;
    while i < a.len()
        invariant
            i <= a.len(),
            a.len() == b.len(),
            forall|j: int| 0 <= j < i ==> a.deep_view()[j] == b.deep_view()[j],
        decreases a.len() - i,
    {
        if !seg_eq(&a[i], &b[i]) {
            proof {
                assert(a.deep_view()[i as int] != b.deep_view()[i as int]);
            }
            return false;
        }
        i += 1;
    }
    proof {
        assert(a.deep_view() =~= b.deep_view());
    }
    true
}

/// Does the pattern match the path?
fn matches_path(pat: &Vec<Segment>, path: &Vec<String>) -> (r: bool)
    ensures
        r == pattern_matches(pat.deep_view(), path.deep_view()),
{
    if pat.len() != path.len() {
        proof {
            assert(pat.deep_view().len() != path.deep_view().len());
        }
        return false;
    }
    let mut i: usize = 0;
    while i < pat.len()
        invariant
            i <= pat.len(),
            pat.len() == path.len(),
            forall|j: int|
                0 <= j < i ==> (#[trigger] pat.deep_view()[j] matches SegView::Lit(s)
                    ==> path.deep_view()[j] == s),
        decreases pat.len() - i,
    {
        match &pat[i] {
            Segment::Lit(s) => {
                if !(*s == path[i]) {
                    proof {
                        assert(pat.deep_view()[i as int] == pat@[i as int]@);
                        assert(path.deep_view()[i as int] == path@[i as int]@);
                        assert(!pattern_matches(pat.deep_view(), path.deep_view()));
                    }
                    return false;
                }
            },
            Segment::Param => {},
        }
        i += 1;
    }
    true
}

/// The position of the pattern's parameterized segment, if any.
fn find_param(pat: &Vec<Segment>) -> (r: Option<usize>)
    requires
        at_most_one_param(pat.deep_view()),
    ensures
        match r {
            Some(i) => i < pat.deep_view().len() && pat.deep_view()[i as int] is Param && param_idx(
                pat.deep_view(),
            ) == i && has_param(pat.deep_view()),
            None => !has_param(pat.deep_view()),
        },
{
    let mut i: usize = 0;
    while i < pat.len()
        invariant
            i <= pat.len(),
            at_most_one_param(pat.deep_view()),
            forall|j: int| 0 <= j < i ==> !(pat.deep_view()[j] is Param),
        decreases pat.len() - i,
    {
        match &pat[i] {
            Segment::Param => {
                proof {
                    lemma_param_idx(pat.deep_view(), i as int);
                }
                return Some(i);
            },
            Segment::Lit(_) => {},
        }
        i += 1;
    }
    None
}

/// The route table: built at startup, immutable during dispatch.
pub struct Router {
    routes: Vec<Route>,
}

impl View for Router {
    type V = Seq<RouteView>;

    closed spec fn view(&self) -> Seq<RouteView> {
        self.routes.deep_view()
    }
}

impl Router {
    /// An empty route table.
    pub fn new() -> (r: Router)
        ensures
            r@ =~= Seq::<RouteView>::empty(),
            routes_wf(r@),
    {
        let r = Router { routes: Vec::new() };
        proof {
            assert(r@ =~= Seq::<RouteView>::empty());
        }
        r
    }

    /// Registers a handler under `(method, pattern)`. Registering a second
    /// handler for the same pair, or a pattern with more than one
    /// parameterized segment, is a configuration error and leaves the table
    /// unchanged.
    pub fn register(&mut self, method: Method, pattern: Vec<Segment>, handler: HandlerKind) -> (r:
        Result<(), DomainError>)
        requires
            routes_wf(old(self)@),
        ensures
            routes_wf(final(self)@),
            r is Ok <==> at_most_one_param(pattern.deep_view()) && !spec_has_route(
                old(self)@,
                method,
                pattern.deep_view(),
            ),
            r is Ok ==> final(self)@ == old(self)@.push(
                RouteView { method, pattern: pattern.deep_view(), handler },
            ),
            r is Err ==> final(self)@ == old(self)@ && r->Err_0 == DomainError::Configuration,
    {
        let mut params: usize = 0;
        let mut i: usize = 0;
        while i < pattern.len()
            invariant
                i <= pattern.len(),
                params <= i,
                params == 0 ==> forall|j: int| 0 <= j < i ==> !(#[trigger] pattern.deep_view()[j] is Param),
                params == 1 ==> exists|j: int| 0 <= j < i && #[trigger] pattern.deep_view()[j] is Param,
                params <= 1 ==> forall|a: int, b: int|
                    0 <= a < b < i ==> !(pattern.deep_view()[a] is Param
                        && pattern.deep_view()[b] is Param),
                params >= 2 ==> !at_most_one_param(pattern.deep_view()),
            decreases pattern.len() - i,
        {
            match &pattern[i] {
                Segment::Param => {
                    proof {
                        assert(pattern.deep_view()[i as int] is Param);
                    }
                    params += 1;
                },
                Segment::Lit(_) => {
                    proof {
                        assert(!(pattern.deep_view()[i as int] is Param));
                    }
                },
            }
            i += 1;
        }
        if params >= 2 {
            return Err(DomainError::Configuration);
        }
        proof {
            assert(at_most_one_param(pattern.deep_view()));
        }
        let mut k: usize = 0;
        while k < self.routes.len()
            invariant
                k <= self.routes.len(),
                self@ == old(self)@,
                routes_wf(old(self)@),
                forall|j: int|
                    0 <= j < k ==> !(old(self)@[j].method == method && old(self)@[j].pattern
                        == pattern.deep_view()),
            decreases self.routes.len() - k,
        {
            let same_method = self.routes[k].method == method;
            if same_method && pattern_eq(&self.routes[k].pattern, &pattern) {
                proof {
                    assert(self@[k as int] == self.routes@[k as int]@);
                    assert(spec_has_route(old(self)@, method, pattern.deep_view()));
                }
                return Err(DomainError::Configuration);
            }
            proof {
                assert(self@[k as int] == self.routes@[k as int]@);
            }
            k += 1;
        }
        let ghost pre = self@;
        self.routes.push(Route { method, pattern, handler });
        proof {
            assert forall|j: int| 0 <= j < self@.len() implies self@[j] == pre.push(
                (RouteView { method, pattern: pattern.deep_view(), handler }),
            )[j] by {
                if j < pre.len() {
                    assert(self.routes@[j] == old(self).routes@[j]);
                }
            }
            assert(self@ =~= pre.push(
                (RouteView { method, pattern: pattern.deep_view(), handler }),
            ));
            assert forall|a: int, b: int|
                0 <= a < b < self@.len() implies !(self@[a].method == self@[b].method
                && self@[a].pattern == self@[b].pattern) by {
                if b < pre.len() {
                    assert(!(pre[a].method == pre[b].method && pre[a].pattern == pre[b].pattern));
                } else {
                    assert(self@[b] == (RouteView { method, pattern: pattern.deep_view(), handler }));
                    assert(!(pre[a].method == method && pre[a].pattern == pattern.deep_view()));
                }
            }
        }
        Ok(())
    }
}

/// An incoming request: method, path split into segments, the decoded
/// payload if the body carried one, and the extension context.
pub struct Request {
    pub method: Method,
    pub path: Vec<String>,
    pub payload: Option<TaskPayload>,
    pub extensions: Extensions,
}

/// The mathematical value of a request.
pub ghost struct ReqView {
    pub method: Method,
    pub path: Seq<Seq<char>>,
    pub payload: Option<PayloadView>,
    pub ext: Map<u64, u64>,
}

impl Request {
    /// The mathematical value of the request.
    pub open spec fn deep_view(&self) -> ReqView {
        ReqView {
            method: self.method,
            path: self.path.deep_view(),
            payload: match self.payload {
                Some(p) => Some(p@),
                None => None,
            },
            ext: self.extensions.as_map(),
        }
    }
}

/// A response body.
pub enum Body {
    One(Task),
    Many(Vec<Task>),
    Empty,
    Problem(DomainError),
}

/// The mathematical value of a response body.
pub ghost enum BodyView {
    One(TaskView),
    Many(Seq<TaskView>),
    Empty,
    Problem(DomainError),
}

impl DeepView for Body {
    type V = BodyView;

    open spec fn deep_view(&self) -> BodyView {
        match self {
            Body::One(t) => BodyView::One(t@),
            Body::Many(ts) => BodyView::Many(ts.deep_view()),
            Body::Empty => BodyView::Empty,
            Body::Problem(e) => BodyView::Problem(*e),
        }
    }
}

/// A response: a status code and a body.
pub struct Response {
    pub status: u16,
    pub body: Body,
}

/// The mathematical value of a response.
pub ghost struct RespView {
    pub status: u16,
    pub body: BodyView,
}

impl Response {
    /// The mathematical value of the response.
    pub open spec fn deep_view(&self) -> RespView {
        RespView { status: self.status, body: self.body.deep_view() }
    }
}

/// A handler result carrying a task becomes `ok_status` with the task, or
/// the error's status with the error kind as body.
pub open spec fn task_response(r: Result<TaskView, DomainError>, ok_status: u16, resp: RespView) -> bool {
    match r {
        Ok(t) => resp.status == ok_status && resp.body == BodyView::One(t),
        Err(e) => resp.status == spec_error_status(e) && resp.body == BodyView::Problem(e),
    }
}

/// A listing result becomes 200 with the tasks, or the error's status.
pub open spec fn list_response(r: Result<Seq<TaskView>, DomainError>, resp: RespView) -> bool {
    match r {
        Ok(ts) => resp.status == 200 && resp.body == BodyView::Many(ts),
        Err(e) => resp.status == spec_error_status(e) && resp.body == BodyView::Problem(e),
    }
}

/// A deletion result becomes 204 with no body, or the error's status.
pub open spec fn empty_response(r: Result<(), DomainError>, resp: RespView) -> bool {
    match r {
        Ok(_) => resp.status == 204 && resp.body == BodyView::Empty,
        Err(e) => resp.status == spec_error_status(e) && resp.body == BodyView::Problem(e),
    }
}

/// The whole outcome of dispatching one request against a route table and a
/// store: no matching pattern is 404; a matching pattern under another
/// method is 405; a matched handler behaves as its postcondition relation
/// says, with a missing or unparsable identifier segment, or a missing
/// payload, rejected as a validation error. Created identifiers are drawn at
/// random, so the create case holds for some candidate identifier.
pub open spec fn dispatch_post(
    routes: Seq<RouteView>,
    req: ReqView,
    pre: StoreView,
    post: StoreView,
    resp: RespView,
) -> bool {
    match find_match(routes, req.method, req.path) {
        Option::None => {
            &&& post == pre
            &&& if some_pattern_matches(routes, req.path) {
                resp == (RespView { status: 405, body: BodyView::Empty })
            } else {
                resp == (RespView { status: 404, body: BodyView::Empty })
            }
        },
        Option::Some(route) => match route.handler {
            HandlerKind::ListTasks => exists|lr: Result<Seq<TaskView>, DomainError>|
                #[trigger] list_post(req.ext, pre, post, lr) && list_response(lr, resp),
            HandlerKind::CreateTask => match req.payload {
                Option::None => post == pre && resp == (RespView {
                    status: 400,
                    body: BodyView::Problem(DomainError::Validation),
                }),
                Option::Some(p) => exists|id: u128, cr: Result<TaskView, DomainError>|
                    #[trigger] create_post(req.ext, pre, p, id, post, cr) && task_response(
                        cr,
                        201,
                        resp,
                    ),
            },
            HandlerKind::GetTask => match id_of_param(route.pattern, req.path) {
                Option::None => post == pre && resp == (RespView {
                    status: 400,
                    body: BodyView::Problem(DomainError::Validation),
                }),
                Option::Some(id) => exists|gr: Result<TaskView, DomainError>|
                    #[trigger] get_post(req.ext, pre, id, post, gr) && task_response(gr, 200, resp),
            },
            HandlerKind::UpdateTask => match (id_of_param(route.pattern, req.path), req.payload) {
                (Option::Some(id), Option::Some(p)) => exists|ur: Result<TaskView, DomainError>|
                    #[trigger] update_post(req.ext, pre, id, p, post, ur) && task_response(
                        ur,
                        200,
                        resp,
                    ),
                _ => post == pre && resp == (RespView {
                    status: 400,
                    body: BodyView::Problem(DomainError::Validation),
                }),
            },
            HandlerKind::DeleteTask => match id_of_param(route.pattern, req.path) {
                Option::None => post == pre && resp == (RespView {
                    status: 400,
                    body: BodyView::Problem(DomainError::Validation),
                }),
                Option::Some(id) => exists|dr: Result<(), DomainError>|
                    #[trigger] delete_post(req.ext, pre, id, post, dr) && empty_response(dr, resp),
            },
        },
    }
}

/// The identifier captured by the matched pattern's parameterized segment,
/// if one is there and parses as a UUID.
pub open spec fn id_of_param(pat: Seq<SegView>, path: Seq<Seq<char>>) -> Option<u128> {
    match param_of(pat, path) {
        Option::None => None,
        Option::Some(ptxt) => spec_uuid_of(ptxt),
    }
}

impl Router {
    /// The first route matching the request's method and path, by index.
    fn first_match(&self, method: Method, path: &Vec<String>) -> (r: Option<usize>)
        ensures
            match r {
                Some(i) => i < self@.len() && self@[i as int].method == method && pattern_matches(
                    self@[i as int].pattern,
                    path.deep_view(),
                ) && find_match(self@, method, path.deep_view()) == Some(self@[i as int]),
                None => find_match(self@, method, path.deep_view()) is None,
            },
    {
        let mut i: usize = 0;
        while i < self.routes.len()
            invariant
                i <= self.routes.len(),
                forall|j: int|
                    0 <= j < i ==> !(self@[j].method == method && pattern_matches(
                        #[trigger] self@[j].pattern,
                        path.deep_view(),
                    )),
            decreases self.routes.len() - i,
        {
            proof {
                assert(self@[i as int] == self.routes@[i as int]@);
            }
            let same_method = self.routes[i].method == method;
            if same_method && matches_path(&self.routes[i].pattern, path) {
                proof {
                    lemma_find_match_at(self@, method, path.deep_view(), i as int);
                }
                return Some(i);
            }
            i += 1;
        }
        proof {
            lemma_find_match_none(self@, method, path.deep_view());
        }
        None
    }

    /// Does any registered pattern match the path, whatever its method?
    fn any_pattern_match(&self, path: &Vec<String>) -> (r: bool)
        ensures
            r == some_pattern_matches(self@, path.deep_view()),
    {
        let mut i: usize = 0;
        while i < self.routes.len()
            invariant
                i <= self.routes.len(),
                forall|j: int|
                    0 <= j < i ==> !pattern_matches(#[trigger] self@[j].pattern, path.deep_view()),
            decreases self.routes.len() - i,
        {
            proof {
                assert(self@[i as int] == self.routes@[i as int]@);
            }
            if matches_path(&self.routes[i].pattern, path) {
                proof {
                    assert(pattern_matches(self@[i as int].pattern, path.deep_view()));
                    assert(some_pattern_matches(self@, path.deep_view()));
                }
                return true;
            }
            i += 1;
        }
        false
    }

    /// Dispatches one request: resolves the route, extracts and parses the
    /// identifier segment where the handler needs one, runs the handler, and
    /// translates its outcome into a response.
    pub fn dispatch(&self, handle: &mut ResourceHandle, req: Request) -> (resp: Response)
        requires
            routes_wf(self@),
            store_wf(old(handle)@),
        ensures
            store_wf(final(handle)@),
            dispatch_post(self@, req.deep_view(), old(handle)@, final(handle)@, resp.deep_view()),
    {
        let ghost reqv = req.deep_view();
        let Request { method, path, payload, extensions } = req;
        let matched = self.first_match(method, &path);
        match matched {
            None => {
                if self.any_pattern_match(&path) {
                    Response { status: 405, body: Body::Empty }
                } else {
                    Response { status: 404, body: Body::Empty }
                }
            },
            Some(i) => {
                proof {
                    assert(self@[i as int] == self.routes@[i as int]@);
                }
                let handler = self.routes[i].handler;
                match handler {
                    HandlerKind::ListTasks => {
                        let lr = list_tasks(&extensions, handle);
                        let ghost lrv = list_res_view(lr);
                        let resp = match lr {
                            Ok(ts) => Response { status: 200, body: Body::Many(ts) },
                            Err(e) => Response {
                                status: error_status(&e),
                                body: Body::Problem(e),
                            },
                        };
                        proof {
                            assert(list_post(reqv.ext, old(handle)@, handle@, lrv));
                            assert(list_response(lrv, resp.deep_view()));
                        }
                        resp
                    },
                    HandlerKind::CreateTask => {
                        match payload {
                            None => Response {
                                status: 400,
                                body: Body::Problem(DomainError::Validation),
                            },
                            Some(p) => {
                                let ghost pv = p@;
                                let cr = create_task(&extensions, handle, p);
                                let ghost crv = task_res_view(cr);
                                let resp = match cr {
                                    Ok(t) => Response { status: 201, body: Body::One(t) },
                                    Err(e) => Response {
                                        status: error_status(&e),
                                        body: Body::Problem(e),
                                    },
                                };
                                proof {
                                    let id0 = choose|id: u128|
                                        create_post(reqv.ext, old(handle)@, pv, id, handle@, crv);
                                    assert(create_post(reqv.ext, old(handle)@, pv, id0, handle@, crv));
                                    assert(task_response(crv, 201, resp.deep_view()));
                                }
                                resp
                            },
                        }
                    },
                    HandlerKind::GetTask => {
                        match self.parse_id_segment(i, &path) {
                            None => Response {
                                status: 400,
                                body: Body::Problem(DomainError::Validation),
                            },
                            Some(id) => {
                                let gr = get_task(&extensions, handle, id);
                                let ghost grv = task_res_view(gr);
                                let resp = match gr {
                                    Ok(t) => Response { status: 200, body: Body::One(t) },
                                    Err(e) => Response {
                                        status: error_status(&e),
                                        body: Body::Problem(e),
                                    },
                                };
                                proof {
                                    assert(get_post(reqv.ext, old(handle)@, id, handle@, grv));
                                    assert(task_response(grv, 200, resp.deep_view()));
                                }
                                resp
                            },
                        }
                    },
                    HandlerKind::UpdateTask => {
                        match (self.parse_id_segment(i, &path), payload) {
                            (Some(id), Some(p)) => {
                                let ghost pv = p@;
                                let ur = update_task(&extensions, handle, id, p);
                                let ghost urv = task_res_view(ur);
                                let resp = match ur {
                                    Ok(t) => Response { status: 200, body: Body::One(t) },
                                    Err(e) => Response {
                                        status: error_status(&e),
                                        body: Body::Problem(e),
                                    },
                                };
                                proof {
                                    assert(update_post(reqv.ext, old(handle)@, id, pv, handle@, urv));
                                    assert(task_response(urv, 200, resp.deep_view()));
                                }
                                resp
                            },
                            _ => Response {
                                status: 400,
                                body: Body::Problem(DomainError::Validation),
                            },
                        }
                    },
                    HandlerKind::DeleteTask => {
                        match self.parse_id_segment(i, &path) {
                            None => Response {
                                status: 400,
                                body: Body::Problem(DomainError::Validation),
                            },
                            Some(id) => {
                                let dr = delete_task(&extensions, handle, id);
                                let resp = match dr {
                                    Ok(_) => Response { status: 204, body: Body::Empty },
                                    Err(e) => Response {
                                        status: error_status(&e),
                                        body: Body::Problem(e),
                                    },
                                };
                                proof {
                                    assert(delete_post(reqv.ext, old(handle)@, id, handle@, dr));
                                    assert(empty_response(dr, resp.deep_view()));
                                }
                                resp
                            },
                        }
                    },
                }
            },
        }
    }

    /// Extracts the matched route's parameterized segment from the path and
    /// parses it as a task identifier.
    fn parse_id_segment(&self, i: usize, path: &Vec<String>) -> (r: Option<u128>)
        requires
            routes_wf(self@),
            i < self@.len(),
            pattern_matches(self@[i as int].pattern, path.deep_view()),
        ensures
            r == id_of_param(self@[i as int].pattern, path.deep_view()),
    {
        proof {
            assert(self@[i as int] == self.routes@[i as int]@);
        }
        match find_param(&self.routes[i].pattern) {
            None => None,
            Some(pi) => {
                proof {
                    assert(pi < path.deep_view().len());
                    assert(path.deep_view()[pi as int] == path@[pi as int]@);
                }
                parse_task_id(path[pi].as_str())
            },
        }
    }
}

} // verus!
