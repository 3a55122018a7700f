//! The gateway router: hostname lookup, then the first rule of the chosen
//! route that accepts the request, then the service registered for it.
use vstd::prelude::*;

use crate::hostname::{
    covers, host_path, hostname_lookup, is_best_wildcard, lemma_best_wildcard_unique, lemma_lookup_cases, pattern_key,
    HostnameTree,
};
use crate::match_request::{rule_accepts, rule_match_request, SgHttpRouteMatch};
use crate::request::{header_value, SgRequest};
use crate::text::{before_char, host_of};

verus! {

/// What the router keeps of a route: its hostnames and its rules' matches,
/// in declaration order.
pub struct SgHttpRouter {
    pub hostnames: Vec<String>,
    pub rules: Vec<Option<Vec<SgHttpRouteMatch>>>,
}

/// The hostname patterns a route registers: `*` when it names none.
pub open spec fn route_patterns(r: SgHttpRouter) -> Seq<Seq<char>> {
    if r.hostnames@.len() == 0 {
        seq![seq!['*']]
    } else {
        r.hostnames@.map_values(|h: String| h@)
    }
}

/// `m` with every pattern of `pats` registered to `idx`, in order.
pub open spec fn register_all(
    m: Map<(bool, Seq<Seq<char>>), usize>,
    pats: Seq<Seq<char>>,
    idx: usize,
) -> Map<(bool, Seq<Seq<char>>), usize>
    decreases pats.len(),
{
    if pats.len() == 0 {
        m
    } else {
        register_all(m, pats.drop_last(), idx).insert(pattern_key(pats.last()), idx)
    }
}

/// The hostname table built from `routes`: later routes win on a shared
/// pattern.
pub open spec fn hostname_table(routes: Seq<SgHttpRouter>) -> Map<(bool, Seq<Seq<char>>), usize>
    decreases routes.len(),
{
    if routes.len() == 0 {
        Map::empty()
    } else {
        register_all(
            hostname_table(routes.drop_last()),
            route_patterns(routes.last()),
            (routes.len() - 1) as usize,
        )
    }
}

/// The index of the first rule at or after `i` that accepts `req`.
pub open spec fn first_match_from(rules: Seq<Option<Vec<SgHttpRouteMatch>>>, req: SgRequest, i: int) -> Option<int>
    decreases rules.len() - i,
{
    if i < 0 || i >= rules.len() {
        None
    } else if rule_accepts(rules[i], req) {
        Some(i)
    } else {
        first_match_from(rules, req, i + 1)
    }
}

pub open spec fn host_header() -> Seq<char> {
    seq!['h', 'o', 's', 't']
}

/// The host a request names: its `Host` header without the port.
pub open spec fn request_host(req: SgRequest) -> Option<Seq<char>> {
    match header_value(req.headers@, host_header()) {
        Some(v) => Some(before_char(v, ':')),
        None => None,
    }
}

pub struct SgGatewayRouter {
    pub routers: Vec<SgHttpRouter>,
    pub hostname_index: HostnameTree<usize>,
}

impl SgGatewayRouter {
    pub open spec fn wf(&self) -> bool {
        self.hostname_index.wf()
    }

    /// Where `req` goes: the route its host selects and the first rule of
    /// that route that accepts it; `None` sends it to the fallback.
    pub open spec fn routed(&self, req: SgRequest) -> Option<(usize, usize)> {
        match request_host(req) {
            None => None,
            Some(h) => match hostname_lookup(self.hostname_index@, host_path(h)) {
                None => None,
                Some(a) => if a < self.routers@.len() {
                    match first_match_from(self.routers@[a as int].rules@, req, 0) {
                        Some(b) => Some((a, b as usize)),
                        None => None,
                    }
                } else {
                    None
                },
            },
        }
    }

    /// Builds the router for `routers`, registering each route's hostnames
    /// (or `*`) under its index.
    pub fn new(routers: Vec<SgHttpRouter>) -> (r: Self)
        ensures
            r.wf(),
            r.routers@ == routers@,
            r.hostname_index@ == hostname_table(routers@),
    {
        let mut tree = HostnameTree::new();
        let n = routers.len();
        let mut i: usize = 0;
        while i < n
            invariant
                n == routers@.len(),
                i <= n,
                tree.wf(),
                tree@ == hostname_table(routers@.subrange(0, i as int)),
            decreases n - i,
        {
            let ghost before = tree@;
            let r = &routers[i];
            let ghost pats = route_patterns(*r);
            if r.hostnames.len() == 0 {
                tree.set("*", i);
                proof {
                    reveal_strlit("*");
                    assert("*"@ =~= seq!['*']);
                    assert(pats.drop_last() =~= Seq::<Seq<char>>::empty());
                    assert(pats.last() == seq!['*']);
                    assert(register_all(before, pats.drop_last(), i) == before);
                    assert(register_all(before, pats, i) == tree@);
                }
            } else {
                let m = r.hostnames.len();
                let mut j: usize = 0;
                while j < m
                    invariant
                        m == r.hostnames@.len(),
                        m > 0,
                        pats == r.hostnames@.map_values(|h: String| h@),
                        j <= m,
                        tree.wf(),
                        tree@ == register_all(before, pats.subrange(0, j as int), i),
                    decreases m - j,
                {
                    tree.set(r.hostnames[j].as_str(), i);
                    proof {
                        assert(pats.subrange(0, j + 1).drop_last() =~= pats.subrange(0, j as int));
                    }
                    j += 1;
                }
                assert(pats.subrange(0, m as int) =~= pats);
            }
            proof {
                assert(routers@.subrange(0, i + 1).drop_last() =~= routers@.subrange(0, i as int));
            }
            i += 1;
        }
        assert(routers@.subrange(0, n as int) =~= routers@);
        SgGatewayRouter { routers, hostname_index: tree }
    }

    /// The route and rule for `req`, or `None` for the fallback.
    pub fn route(&self, req: &SgRequest) -> (r: Option<(usize, usize)>)
        requires
            self.wf(),
        ensures
            r == self.routed(*req),
    {
        let host = match req.header("host") {
            Some(v) => host_of(v.as_str()),
            None => {
                proof {
                    reveal_strlit("host");
                    assert("host"@ =~= host_header());
                }
                return None;
            },
        };
        proof {
            reveal_strlit("host");
            assert("host"@ =~= host_header());
        }
        let a = match self.hostname_index.get(host.as_str()) {
            Some(a) => a,
            None => return None,
        };
        if a >= self.routers.len() {
            return None;
        }
        let rules = &self.routers[a].rules;
        let n = rules.len();
        let mut b: usize = 0;
        assert(request_host(*req) == Some(host@));
        while b < n
            invariant
                self.routed(*req) == match first_match_from(rules@, *req, 0) {
                    Some(k) => Some((a, k as usize)),
                    None => None,
                },
                n == rules@.len(),
                b <= n,
                first_match_from(rules@, *req, 0) == first_match_from(rules@, *req, b as int),
            decreases n - b,
        {
            if rule_match_request(&rules[b], req) {
                return Some((a, b));
            }
            b += 1;
        }
        None
    }

    /// Every (route, rule) pair, route by route, rules in order.
    pub fn all_indexes(&self) -> (r: Vec<(usize, usize)>)
        ensures
            forall|a: usize, b: usize|
                a < self.routers@.len() && b < self.routers@[a as int].rules@.len()
                    ==> #[trigger] r@.contains((a, b)),
            forall|k: int|
                0 <= k < r@.len() ==> {
                    &&& (#[trigger] r@[k]).0 < self.routers@.len()
                    &&& r@[k].1 < self.routers@[r@[k].0 as int].rules@.len()
                },
    {
        let mut out: Vec<(usize, usize)> = Vec::new();
        let n = self.routers.len();
        let mut a: usize = 0;
        while a < n
            invariant
                n == self.routers@.len(),
                a <= n,
                forall|x: usize, y: usize|
                    x < a && y < self.routers@[x as int].rules@.len()
                        ==> #[trigger] out@.contains((x, y)),
                forall|k: int|
                    0 <= k < out@.len() ==> {
                        &&& (#[trigger] out@[k]).0 < self.routers@.len()
                        &&& out@[k].1 < self.routers@[out@[k].0 as int].rules@.len()
                    },
            decreases n - a,
        {
            let m = self.routers[a].rules.len();
            let mut b: usize = 0;
            while b < m
                invariant
                    n == self.routers@.len(),
                    a < n,
                    m == self.routers@[a as int].rules@.len(),
                    b <= m,
                    forall|x: usize, y: usize|
                        x < a && y < self.routers@[x as int].rules@.len()
                            ==> #[trigger] out@.contains((x, y)),
                    forall|y: usize| y < b ==> #[trigger] out@.contains((a, y)),
                    forall|k: int|
                        0 <= k < out@.len() ==> {
                            &&& (#[trigger] out@[k]).0 < self.routers@.len()
                            &&& out@[k].1 < self.routers@[out@[k].0 as int].rules@.len()
                        },
                decreases m - b,
            {
                let ghost prev = out@;
                out.push((a, b));
                proof {
                    assert(out@ == prev.push((a, b)));
                    assert(out@[prev.len() as int] == (a, b));
                    assert forall|p: (usize, usize)| prev.contains(p) implies #[trigger] out@.contains(p) by {
                        let k = choose|k: int| 0 <= k < prev.len() && prev[k] == p;
                        assert(out@[k] == prev[k]);
                    }
                }
                b += 1;
            }
            a += 1;
        }
        out
    }
}

/// A routed pair names an existing route and rule.
pub proof fn lemma_routed_in_range(r: &SgGatewayRouter, req: SgRequest)
    ensures
        r.routed(req) matches Some((a, b)) ==> a < r.routers@.len() && b < r.routers@[a as int].rules@.len(),
{
    if let Some((a, b)) = r.routed(req) {
        let rules = r.routers@[a as int].rules@;
        lemma_first_match_range(rules, req, 0);
    }
}

proof fn lemma_first_match_range(rules: Seq<Option<Vec<SgHttpRouteMatch>>>, req: SgRequest, s: int)
    requires
        0 <= s,
    ensures
        first_match_from(rules, req, s) matches Some(k) ==> s <= k < rules.len(),
    decreases rules.len() - s,
{
    if s < rules.len() && !rule_accepts(rules[s], req) {
        lemma_first_match_range(rules, req, s + 1);
    }
}

/// Registering patterns keeps every key that none of them names.
proof fn lemma_register_keeps(m: Map<(bool, Seq<Seq<char>>), usize>, pats: Seq<Seq<char>>, idx: usize, k: (bool, Seq<Seq<char>>))
    requires
        forall|q: int| 0 <= q < pats.len() ==> pattern_key(#[trigger] pats[q]) != k,
    ensures
        register_all(m, pats, idx).contains_key(k) == m.contains_key(k),
        m.contains_key(k) ==> register_all(m, pats, idx)[k] == m[k],
    decreases pats.len(),
{
    if pats.len() > 0 {
        lemma_register_keeps(m, pats.drop_last(), idx, k);
        assert(pattern_key(pats[pats.len() - 1]) != k);
    }
}

/// Registering patterns, one of which names `k`, maps `k` to `idx`.
proof fn lemma_register_sets(m: Map<(bool, Seq<Seq<char>>), usize>, pats: Seq<Seq<char>>, idx: usize, k: (bool, Seq<Seq<char>>), q: int)
    requires
        0 <= q < pats.len(),
        pattern_key(pats[q]) == k,
    ensures
        register_all(m, pats, idx).contains_key(k),
        register_all(m, pats, idx)[k] == idx,
    decreases pats.len(),
{
    if q < pats.len() - 1 {
        lemma_register_sets(m, pats.drop_last(), idx, k, q);
    }
}

/// The hostname table maps a key to the last route with a pattern for it.
pub proof fn lemma_table_last_route(routes: Seq<SgHttpRouter>, k: (bool, Seq<Seq<char>>), i: int, q: int)
    requires
        0 <= i < routes.len(),
        routes.len() <= usize::MAX,
        0 <= q < route_patterns(routes[i]).len(),
        pattern_key(route_patterns(routes[i])[q]) == k,
        forall|j: int, p: int|
            i < j < routes.len() && 0 <= p < route_patterns(routes[j]).len() ==> pattern_key(
                #[trigger] route_patterns(routes[j])[p],
            ) != k,
    ensures
        hostname_table(routes).contains_key(k),
        hostname_table(routes)[k] == i,
    decreases routes.len(),
{
    let last = (routes.len() - 1) as int;
    if i == last {
        lemma_register_sets(hostname_table(routes.drop_last()), route_patterns(routes.last()), last as usize, k, q);
    } else {
        let pats = route_patterns(routes.last());
        assert forall|p: int| 0 <= p < pats.len() implies pattern_key(#[trigger] pats[p]) != k by {
            assert(pattern_key(route_patterns(routes[last])[p]) != k);
        }
        let prefix = routes.drop_last();
        assert forall|j: int, p: int|
            i < j < prefix.len() && 0 <= p < route_patterns(prefix[j]).len() implies pattern_key(
                #[trigger] route_patterns(prefix[j])[p],
            ) != k by {
            assert(prefix[j] == routes[j]);
        }
        assert(prefix[i] == routes[i]);
        lemma_table_last_route(prefix, k, i, q);
        lemma_register_keeps(hostname_table(prefix), pats, last as usize, k);
    }
}

/// A route is reached through the registration of key `k`: route `i` is the
/// last route with a pattern for `k`.
pub open spec fn last_route_for(routes: Seq<SgHttpRouter>, k: (bool, Seq<Seq<char>>), i: int) -> bool {
    &&& 0 <= i < routes.len()
    &&& exists|q: int|
        0 <= q < route_patterns(routes[i]).len() && pattern_key(#[trigger] route_patterns(routes[i])[q]) == k
    &&& forall|j: int, p: int|
        i < j < routes.len() && 0 <= p < route_patterns(routes[j]).len() ==> pattern_key(
            #[trigger] route_patterns(routes[j])[p],
        ) != k
}

/// The route a request goes to, from its rules: the first that accepts it.
pub open spec fn routed_within(r: SgGatewayRouter, req: SgRequest, i: int) -> Option<(usize, usize)> {
    match first_match_from(r.routers@[i].rules@, req, 0) {
        Some(b) => Some((i as usize, b as usize)),
        None => None,
    }
}

/// A host that some route names exactly goes to the last route naming it,
/// and there to its first accepting rule.
pub proof fn lemma_exact_host_routes(r: SgGatewayRouter, req: SgRequest, h: Seq<char>, i: int)
    requires
        r.hostname_index@ == hostname_table(r.routers@),
        r.routers@.len() <= usize::MAX,
        request_host(req) == Some(h),
        last_route_for(r.routers@, (false, host_path(h)), i),
    ensures
        r.routed(req) == routed_within(r, req, i),
{
    let k = (false, host_path(h));
    let q = choose|q: int|
        0 <= q < route_patterns(r.routers@[i]).len() && pattern_key(#[trigger] route_patterns(r.routers@[i])[q]) == k;
    lemma_table_last_route(r.routers@, k, i, q);
}

/// A host with no exact entry goes to the last route registering the
/// longest wildcard that covers it, and there to its first accepting rule.
pub proof fn lemma_wildcard_host_routes(r: SgGatewayRouter, req: SgRequest, h: Seq<char>, s: Seq<Seq<char>>, i: int)
    requires
        r.hostname_index@ == hostname_table(r.routers@),
        r.routers@.len() <= usize::MAX,
        request_host(req) == Some(h),
        !r.hostname_index@.contains_key((false, host_path(h))),
        is_best_wildcard(r.hostname_index@, host_path(h), s),
        last_route_for(r.routers@, (true, s), i),
    ensures
        r.routed(req) == routed_within(r, req, i),
{
    let k = (true, s);
    let q = choose|q: int|
        0 <= q < route_patterns(r.routers@[i]).len() && pattern_key(#[trigger] route_patterns(r.routers@[i])[q]) == k;
    lemma_table_last_route(r.routers@, k, i, q);
    let c = choose|c: Seq<Seq<char>>| is_best_wildcard(r.hostname_index@, host_path(h), c);
    lemma_best_wildcard_unique(r.hostname_index@, host_path(h), s, c);
}

/// A request without a host, or whose host has neither an entry nor a
/// covering wildcard, goes to the fallback.
pub proof fn lemma_unknown_host_falls_back(r: SgGatewayRouter, req: SgRequest)
    requires
        match request_host(req) {
            None => true,
            Some(h) => {
                &&& !r.hostname_index@.contains_key((false, host_path(h)))
                &&& forall|t: Seq<Seq<char>>|
                    #[trigger] r.hostname_index@.contains_key((true, t)) ==> !covers(t, host_path(h))
            },
        },
    ensures
        r.routed(req).is_none(),
{
    if let Some(h) = request_host(req) {
        lemma_lookup_cases(r.hostname_index@, host_path(h));
    }
}

/// When two rules of a route accept a request, the earlier one is chosen.
pub proof fn lemma_rule_precedence(
    rules: Seq<Option<Vec<SgHttpRouteMatch>>>,
    req: SgRequest,
    i: int,
    j: int,
)
    requires
        0 <= i < j < rules.len(),
        rule_accepts(rules[i], req),
        rule_accepts(rules[j], req),
    ensures
        first_match_from(rules, req, 0) matches Some(k) && k <= i,
        first_match_from(rules, req, 0) != Some(j),
{
    lemma_first_match_bound(rules, req, 0, i);
}

proof fn lemma_first_match_bound(rules: Seq<Option<Vec<SgHttpRouteMatch>>>, req: SgRequest, s: int, i: int)
    requires
        0 <= s <= i < rules.len(),
        rule_accepts(rules[i], req),
    ensures
        first_match_from(rules, req, s) matches Some(k) && s <= k <= i,
    decreases i - s,
{
    if !rule_accepts(rules[s], req) {
        lemma_first_match_bound(rules, req, s + 1, i);
    }
}

} // verus!
