//! The wrappers that turn a plugin's decision into a layer around an inner
//! service, and the pickers a steering layer uses.
use vstd::prelude::*;

use crate::match_request::{rule_accepts, SgHttpRouteMatch};
use crate::picker::{pick_by_matches, total_weight, weight_total};
use crate::reflect::Reflect;
use crate::request::{SgRequest, SgUri};
use crate::response::{SgResponse, FORBIDDEN};
use crate::text::{opt_view, str_eq};
use vstd::string::*;
use vstd::utf8::encode_utf8;

verus! {

/// A layer that runs a request filter before the inner service.
pub struct FilterRequestLayer<F> {
    pub filter: F,
}

impl<F> FilterRequestLayer<F> {
    pub fn new(filter: F) -> (r: Self)
        ensures
            r.filter == filter,
    {
        FilterRequestLayer { filter }
    }
}

/// A filter and the service it guards.
pub struct FilterRequest<F, S> {
    pub filter: F,
    pub inner: S,
}

/// A layer that runs an asynchronous request filter before the inner
/// service.
pub struct AsyncFilterRequestLayer<F> {
    pub filter: F,
}

impl<F> AsyncFilterRequestLayer<F> {
    pub fn new(filter: F) -> (r: Self)
        ensures
            r.filter == filter,
    {
        AsyncFilterRequestLayer { filter }
    }
}

pub struct AsyncFilterRequest<F, S> {
    pub filter: F,
    pub inner: S,
}

/// A layer with a filter on both the request and the response.
pub struct BdfLayer<F> {
    pub filter: F,
}

impl<F> BdfLayer<F> {
    pub fn new(filter: F) -> (r: Self)
        ensures
            r.filter == filter,
    {
        BdfLayer { filter }
    }
}

pub struct BdfService<F, S> {
    pub filter: F,
    pub service: S,
}

/// A layer around a plugin filter.
pub struct FilterLayer<F> {
    pub filter: F,
}

impl<F> FilterLayer<F> {
    pub fn new(filter: F) -> (r: Self)
        ensures
            r.filter == filter,
    {
        FilterLayer { filter }
    }
}

/// A layer that reports each request and response to a status policy.
pub struct StatusLayer<P> {
    pub policy: P,
}

impl<P> StatusLayer<P> {
    pub fn new(policy: P) -> (r: Self)
        ensures
            r.policy == policy,
    {
        StatusLayer { policy }
    }
}

pub struct Status<P, S> {
    pub policy: P,
    pub inner: S,
}

impl<P, S> Status<P, S> {
    pub fn new(policy: P, inner: S) -> (r: Self)
        ensures
            r.policy == policy,
            r.inner == inner,
    {
        Status { policy, inner }
    }
}

/// The pending response of a status-reporting service.
pub struct ResponseFuture<F, P> {
    pub inner: F,
    pub policy: P,
}

impl<F, P> ResponseFuture<F, P> {
    pub fn new(inner: F, policy: P) -> (r: Self)
        ensures
            r.inner == inner,
            r.policy == policy,
    {
        ResponseFuture { inner, policy }
    }
}

/// A layer that answers with a response a filter produced.
pub struct ImmediatelyResponseLayer;

/// A layer given as a value.
pub struct SgLayer<L>(pub L);

/// A plugin that changes nothing.
pub struct Transparent;

/// Picks a backend by weight.
pub struct RouteByWeight;

/// Relies on `rand::distributions::WeightedIndex`: with a positive total
/// weight it draws an index of `weights`, and a zero weight has no chance
/// of being drawn. The sums are taken in `u32`, which holds them for up to
/// 65536 weights.
#[verifier::external_body]
fn sample_weighted(weights: &Vec<u16>) -> (r: usize)
    requires
        total_weight(weights@) > 0,
        weights@.len() <= 65536,
    ensures
        r < weights@.len(),
        weights@[r as int] > 0,
{
    match rand::distributions::WeightedIndex::new(weights.iter().map(|w| *w as u32)) {
        Ok(d) => rand::distributions::Distribution::sample(&d, &mut rand::thread_rng()),
        Err(_) => 0,
    }
}

impl RouteByWeight {
    /// A backend drawn by weight; with no weight at all, index 0.
    pub fn pick(&self, weights: &Vec<u16>) -> (r: usize)
        requires
            weights@.len() <= 65536,
        ensures
            total_weight(weights@) == 0 ==> r == 0,
            total_weight(weights@) > 0 ==> r < weights@.len() && weights@[r as int] > 0,
    {
        if weight_total(weights) == 0 {
            0
        } else {
            sample_weighted(weights)
        }
    }
}

/// Picks the first rule whose matches accept the request.
pub struct RouteByMatches;

impl RouteByMatches {
    pub fn pick(&self, rules: &Vec<Option<Vec<SgHttpRouteMatch>>>, req: &SgRequest) -> (r: usize)
        ensures
            (exists|j: int| 0 <= j < rules@.len() && rule_accepts(#[trigger] rules@[j], *req)) ==> {
                &&& r < rules@.len()
                &&& rule_accepts(rules@[r as int], *req)
                &&& forall|j: int| 0 <= j < r ==> !rule_accepts(#[trigger] rules@[j], *req)
            },
            (forall|j: int| 0 <= j < rules@.len() ==> !rule_accepts(#[trigger] rules@[j], *req)) ==> r == 0,
    {
        pick_by_matches(rules, req)
    }
}

/// A backend's weight and its service.
pub struct SgHttpBackend<S> {
    pub weight: u16,
    pub inner_service: S,
}

/// Admits a request only when its host is one of the route's hostnames
/// (any host when there are none).
pub struct FilterByHostnames {
    pub hostnames: Vec<String>,
}

pub open spec fn host_listed(hs: Seq<String>, h: Seq<char>) -> bool {
    exists|i: int| 0 <= i < hs.len() && (#[trigger] hs[i])@ == h
}

impl FilterByHostnames {
    pub fn check(&self, uri: &SgUri, reflect: Reflect) -> (r: Result<(), SgResponse>)
        requires
            reflect.wf(),
        ensures
            self.hostnames@.len() == 0 ==> r.is_ok(),
            self.hostnames@.len() > 0 ==> match opt_view(uri.host) {
                Some(h) => if host_listed(self.hostnames@, h) {
                    r.is_ok()
                } else {
                    r matches Err(resp) && resp.wf() && resp.status == FORBIDDEN && resp.body@.content == encode_utf8(
                        "hostname not allowed"@,
                    )
                },
                None => r matches Err(resp) && resp.wf() && resp.status == FORBIDDEN && resp.body@.content
                    == encode_utf8("missing hostname"@),
            },
    {
        let n = self.hostnames.len();
        if n == 0 {
            return Ok(());
        }
        let host = match &uri.host {
            Some(h) => h,
            None => return Err(SgResponse::with_code_message(FORBIDDEN, "missing hostname", reflect)),
        };
        let mut i: usize = 0;
        while i < n
            invariant
                uri.host == Some(*host),
                n == self.hostnames@.len(),
                n > 0,
                i <= n,
                forall|j: int| 0 <= j < i ==> (#[trigger] self.hostnames@[j])@ != host@,
            decreases n - i,
        {
            if str_eq(self.hostnames[i].as_str(), host.as_str()) {
                assert(self.hostnames@[i as int]@ == host@);
                return Ok(());
            }
            i += 1;
        }
        Err(SgResponse::with_code_message(FORBIDDEN, "hostname not allowed", reflect))
    }
}

} // verus!

verus! {

/// A request filter: it passes the request on, possibly changed, or
/// answers it.
pub trait Filter: Sized {
    /// What `filter` may return for `req`.
    spec fn filter_ensures(&self, req: SgRequest, r: Result<SgRequest, SgResponse>) -> bool;

    fn filter(&self, req: SgRequest) -> (r: Result<SgRequest, SgResponse>)
        ensures
            self.filter_ensures(req, r),
    ;
}

/// A service that answers requests.
pub trait SgService: Sized {
    /// What `call` may answer to `req`.
    spec fn call_ensures(&self, req: SgRequest, r: SgResponse) -> bool;

    fn call(&self, req: SgRequest) -> (r: SgResponse)
        ensures
            self.call_ensures(req, r),
    ;
}

/// What a status layer reports to.
pub trait Policy: Sized {
    fn on_request(&self, req: &SgRequest);

    fn on_response(&self, resp: &SgResponse);
}

/// The filter runs first; what it passes goes to the inner service, what
/// it answers is the answer.
pub open spec fn filtered_call<F: Filter, S: SgService>(filter: F, inner: S, req: SgRequest, r: SgResponse) -> bool {
    exists|out: Result<SgRequest, SgResponse>|
        filter.filter_ensures(req, out) && match out {
            Ok(passed) => inner.call_ensures(passed, r),
            Err(answer) => r == answer,
        }
}

impl<F> FilterRequestLayer<F> {
    /// Wraps `inner` in this layer's filter.
    pub fn layer<S>(self, inner: S) -> (r: FilterRequest<F, S>)
        ensures
            r.filter == self.filter,
            r.inner == inner,
    {
        FilterRequest { filter: self.filter, inner }
    }
}

impl<F: Filter, S: SgService> SgService for FilterRequest<F, S> {
    open spec fn call_ensures(&self, req: SgRequest, r: SgResponse) -> bool {
        filtered_call(self.filter, self.inner, req, r)
    }

    fn call(&self, req: SgRequest) -> (r: SgResponse) {
        let out = self.filter.filter(req);
        match out {
            Ok(passed) => self.inner.call(passed),
            Err(answer) => answer,
        }
    }
}

impl<F> AsyncFilterRequestLayer<F> {
    /// Wraps `inner` in this layer's filter.
    pub fn layer<S>(self, inner: S) -> (r: AsyncFilterRequest<F, S>)
        ensures
            r.filter == self.filter,
            r.inner == inner,
    {
        AsyncFilterRequest { filter: self.filter, inner }
    }
}

impl<F: Filter, S: SgService> SgService for AsyncFilterRequest<F, S> {
    open spec fn call_ensures(&self, req: SgRequest, r: SgResponse) -> bool {
        filtered_call(self.filter, self.inner, req, r)
    }

    fn call(&self, req: SgRequest) -> (r: SgResponse) {
        let out = self.filter.filter(req);
        match out {
            Ok(passed) => self.inner.call(passed),
            Err(answer) => answer,
        }
    }
}

impl<P: Policy, S: SgService> SgService for Status<P, S> {
    /// The inner service's answer, reported to the policy and returned as
    /// it is.
    open spec fn call_ensures(&self, req: SgRequest, r: SgResponse) -> bool {
        self.inner.call_ensures(req, r)
    }

    fn call(&self, req: SgRequest) -> (r: SgResponse) {
        self.policy.on_request(&req);
        let resp = self.inner.call(req);
        self.policy.on_response(&resp);
        resp
    }
}

impl<F, P: Policy> ResponseFuture<F, P> {
    /// Completes with `resp`: the policy sees it, then it is returned
    /// unchanged.
    pub fn complete(self, resp: SgResponse) -> (r: SgResponse)
        ensures
            r == resp,
    {
        self.policy.on_response(&resp);
        resp
    }
}

impl Filter for Transparent {
    open spec fn filter_ensures(&self, req: SgRequest, r: Result<SgRequest, SgResponse>) -> bool {
        r == Ok::<SgRequest, SgResponse>(req)
    }

    fn filter(&self, req: SgRequest) -> (r: Result<SgRequest, SgResponse>) {
        Ok(req)
    }
}

/// A filter that answers every request with a fixed status and message.
pub struct ResponseAnyway {
    pub status: u16,
    pub message: String,
}

impl Filter for ResponseAnyway {
    open spec fn filter_ensures(&self, req: SgRequest, r: Result<SgRequest, SgResponse>) -> bool {
        r matches Err(resp) && resp.wf() && resp.status == self.status && resp.body@.content == encode_utf8(
            self.message@,
        )
    }

    fn filter(&self, req: SgRequest) -> (r: Result<SgRequest, SgResponse>) {
        Err(SgResponse::with_code_message(self.status, self.message.as_str(), Reflect::new()))
    }
}

impl SgService for ResponseAnyway {
    open spec fn call_ensures(&self, req: SgRequest, r: SgResponse) -> bool {
        r.wf() && r.status == self.status && r.body@.content == encode_utf8(self.message@)
    }

    fn call(&self, req: SgRequest) -> (r: SgResponse) {
        SgResponse::with_code_message(self.status, self.message.as_str(), Reflect::new())
    }
}

impl Filter for FilterByHostnames {
    /// The request goes on when its host is admitted; otherwise the `403`
    /// answer of `check`.
    open spec fn filter_ensures(&self, req: SgRequest, r: Result<SgRequest, SgResponse>) -> bool {
        &&& (self.hostnames@.len() == 0 ==> r == Ok::<SgRequest, SgResponse>(req))
        &&& (self.hostnames@.len() > 0 ==> match opt_view(req.uri.host) {
            Some(h) => if host_listed(self.hostnames@, h) {
                r == Ok::<SgRequest, SgResponse>(req)
            } else {
                r matches Err(resp) && resp.status == FORBIDDEN && resp.body@.content == encode_utf8(
                    "hostname not allowed"@,
                )
            },
            None => r matches Err(resp) && resp.status == FORBIDDEN && resp.body@.content == encode_utf8(
                "missing hostname"@,
            ),
        })
    }

    fn filter(&self, req: SgRequest) -> (r: Result<SgRequest, SgResponse>) {
        match self.check(&req.uri, Reflect::new()) {
            Ok(()) => Ok(req),
            Err(resp) => Err(resp),
        }
    }
}

} // verus!
