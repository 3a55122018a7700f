//! Routes and rules as configured, and their assembly into the routed
//! gateway: the router plus, for each rule, the plugins, limit and backends
//! a matching request goes through.
use vstd::prelude::*;

use crate::backend::SgHttpBackendLayer;
use crate::match_request::SgHttpRouteMatch;
use crate::chain::{all_build, all_built, build_plugins, SgPlugin, SgPluginBuildError};
use crate::plugin::{SgPluginConfig, SgPluginKind, SgPluginRepository};
use crate::request::SgRequest;
use crate::router::{hostname_table, SgGatewayRouter, SgHttpRouter};

verus! {

/// A rule: its matches (absent: every request), plugins, optional time
/// limit and weighted backends.
pub struct SgHttpRouteRuleLayer {
    pub matches: Option<Vec<SgHttpRouteMatch>>,
    pub plugins: Vec<SgPluginConfig>,
    pub timeout_ms: Option<u64>,
    pub backends: Vec<SgHttpBackendLayer>,
}

/// A route: hostnames (none means every host), rules in order, plugins.
pub struct SgHttpRoute {
    pub hostnames: Vec<String>,
    pub rules: Vec<SgHttpRouteRuleLayer>,
    pub plugins: Vec<SgPluginConfig>,
}

/// What a request that a rule accepted goes through inside its route's
/// plugins: the rule's time limit around the rule's plugins, then a
/// backend and that backend's plugins. Backends keep their targets; their
/// plugins are built into `backend_plugins`.
pub struct SgRouteRule {
    pub plugins: Vec<SgPlugin>,
    pub timeout_ms: Option<u64>,
    pub backends: Vec<SgHttpBackendLayer>,
    pub backend_plugins: Vec<Vec<SgPlugin>>,
}

/// The routed gateway: the router, each route's built plugins, and the rule
/// plans, `services[i][j]` for rule `j` of route `i`.
pub struct SgGatewayRoute {
    pub router: SgGatewayRouter,
    pub route_plugins: Vec<Vec<SgPlugin>>,
    pub services: Vec<Vec<SgRouteRule>>,
}

pub open spec fn backends_build(m: Map<Seq<char>, SgPluginKind>, bs: Seq<SgHttpBackendLayer>) -> bool {
    forall|k: int| 0 <= k < bs.len() ==> all_build(m, (#[trigger] bs[k]).plugins@)
}

pub open spec fn rule_builds(m: Map<Seq<char>, SgPluginKind>, r: SgHttpRouteRuleLayer) -> bool {
    all_build(m, r.plugins@) && backends_build(m, r.backends@)
}

pub open spec fn route_builds(m: Map<Seq<char>, SgPluginKind>, r: SgHttpRoute) -> bool {
    &&& all_build(m, r.plugins@)
    &&& forall|j: int| 0 <= j < r.rules@.len() ==> rule_builds(m, #[trigger] r.rules@[j])
}

/// Every plugin of every route, rule and backend can be built.
pub open spec fn routes_build(m: Map<Seq<char>, SgPluginKind>, rs: Seq<SgHttpRoute>) -> bool {
    forall|i: int| 0 <= i < rs.len() ==> route_builds(m, #[trigger] rs[i])
}

/// `b` is backend `o` with its plugins taken out.
pub open spec fn same_target(b: SgHttpBackendLayer, o: SgHttpBackendLayer) -> bool {
    &&& b.host == o.host
    &&& b.port == o.port
    &&& b.scheme == o.scheme
    &&& b.weight == o.weight
    &&& b.timeout_ms == o.timeout_ms
    &&& b.plugins@.len() == 0
}

pub open spec fn backends_plan(bs: Seq<SgHttpBackendLayer>, out: Seq<SgHttpBackendLayer>, ps: Seq<Vec<SgPlugin>>) -> bool {
    &&& out.len() == bs.len()
    &&& ps.len() == bs.len()
    &&& forall|k: int|
        0 <= k < bs.len() ==> same_target(#[trigger] out[k], bs[k]) && all_built(bs[k].plugins@, ps[k]@)
}

/// `plan` is the plan of rule `r`.
pub open spec fn rule_plan(plan: SgRouteRule, r: SgHttpRouteRuleLayer) -> bool {
    &&& all_built(r.plugins@, plan.plugins@)
    &&& plan.timeout_ms == r.timeout_ms
    &&& backends_plan(r.backends@, plan.backends@, plan.backend_plugins@)
}

fn build_backends(repo: &SgPluginRepository, bs: Vec<SgHttpBackendLayer>) -> (r: Result<
    (Vec<SgHttpBackendLayer>, Vec<Vec<SgPlugin>>),
    SgPluginBuildError,
>)
    requires
        repo.wf(),
    ensures
        r.is_ok() == backends_build(repo@, bs@),
        r matches Ok((out, ps)) ==> backends_plan(bs@, out@, ps@),
{
    let ghost orig = bs@;
    let mut rest = bs;
    let n = rest.len();
    let mut out: Vec<SgHttpBackendLayer> = Vec::new();
    let mut ps: Vec<Vec<SgPlugin>> = Vec::new();
    let mut i: usize = 0;
    while i < n
        invariant
            repo.wf(),
            orig == bs@,
            n == orig.len(),
            i <= n,
            rest@ == orig.subrange(i as int, n as int),
            out@.len() == i,
            ps@.len() == i,
            forall|k: int| 0 <= k < i ==> all_build(repo@, (#[trigger] orig[k]).plugins@),
            forall|k: int|
                0 <= k < i ==> same_target(#[trigger] out@[k], orig[k]) && all_built(orig[k].plugins@, ps@[k]@),
        decreases n - i,
    {
        let b = rest.remove(0);
        assert(b == orig[i as int]);
        let SgHttpBackendLayer { plugins, host, port, scheme, weight, timeout_ms } = b;
        match build_plugins(repo, plugins) {
            Ok(built) => {
                out.push(SgHttpBackendLayer { plugins: Vec::new(), host, port, scheme, weight, timeout_ms });
                ps.push(built);
            },
            Err(e) => {
                assert(!all_build(repo@, orig[i as int].plugins@));
                return Err(e);
            },
        }
        i += 1;
        assert(rest@ =~= orig.subrange(i as int, n as int));
    }
    Ok((out, ps))
}

fn build_rule(repo: &SgPluginRepository, rule: SgHttpRouteRuleLayer) -> (r: Result<
    (Option<Vec<SgHttpRouteMatch>>, SgRouteRule),
    SgPluginBuildError,
>)
    requires
        repo.wf(),
    ensures
        r.is_ok() == rule_builds(repo@, rule),
        r matches Ok((m, plan)) ==> m == rule.matches && rule_plan(plan, rule),
{
    let ghost orig = rule;
    let SgHttpRouteRuleLayer { matches, plugins, timeout_ms, backends } = rule;
    let built = match build_plugins(repo, plugins) {
        Ok(b) => b,
        Err(e) => return Err(e),
    };
    match build_backends(repo, backends) {
        Ok((bs, bps)) => Ok((matches, SgRouteRule { plugins: built, timeout_ms, backends: bs, backend_plugins: bps })),
        Err(e) => Err(e),
    }
}

impl SgGatewayRoute {
    pub open spec fn wf(&self) -> bool {
        &&& self.router.wf()
        &&& self.services@.len() == self.router.routers@.len()
        &&& forall|i: int|
            0 <= i < self.services@.len() ==> (#[trigger] self.services@[i])@.len()
                == self.router.routers@[i].rules@.len()
    }

    /// The rule plan that serves `req`, or `None` for the fallback.
    pub fn dispatch(&self, req: &SgRequest) -> (r: Option<&SgRouteRule>)
        requires
            self.wf(),
        ensures
            match self.router.routed(*req) {
                Some((a, b)) => r == Some(&self.services@[a as int]@[b as int]),
                None => r.is_none(),
            },
    {
        match self.router.route(req) {
            Some((a, b)) => {
                proof {
                    crate::router::lemma_routed_in_range(&self.router, *req);
                }
                Some(&self.services[a][b])
            },
            None => None,
        }
    }
}

/// Assembles routes into the routed gateway, building every plugin through
/// `repo`; fails exactly when some route, rule or backend plugin cannot be
/// built. Each route registers its hostnames (or `*`) under its index.
pub fn create_http_router(routes: Vec<SgHttpRoute>, repo: &SgPluginRepository) -> (r: Result<
    SgGatewayRoute,
    SgPluginBuildError,
>)
    requires
        repo.wf(),
    ensures
        r.is_ok() == routes_build(repo@, routes@),
        r matches Ok(g) ==> {
            &&& g.wf()
            &&& g.router.routers@.len() == routes@.len()
            &&& g.route_plugins@.len() == routes@.len()
            &&& g.router.hostname_index@ == hostname_table(g.router.routers@)
            &&& forall|i: int|
                0 <= i < routes@.len() ==> {
                    &&& (#[trigger] g.router.routers@[i]).hostnames == routes@[i].hostnames
                    &&& all_built(routes@[i].plugins@, g.route_plugins@[i]@)
                    &&& g.router.routers@[i].rules@.len() == routes@[i].rules@.len()
                    &&& forall|j: int|
                        0 <= j < routes@[i].rules@.len() ==> {
                            &&& g.router.routers@[i].rules@[j] == (#[trigger] routes@[i].rules@[j]).matches
                            &&& rule_plan(g.services@[i]@[j], routes@[i].rules@[j])
                        }
                }
        },
{
    let ghost orig = routes@;
    let mut rest = routes;
    let n = rest.len();
    let mut routers: Vec<SgHttpRouter> = Vec::new();
    let mut route_plugins: Vec<Vec<SgPlugin>> = Vec::new();
    let mut services: Vec<Vec<SgRouteRule>> = Vec::new();
    let mut i: usize = 0;
    while i < n
        invariant
            repo.wf(),
            orig == routes@,
            n == orig.len(),
            i <= n,
            rest@ == orig.subrange(i as int, n as int),
            routers@.len() == i,
            route_plugins@.len() == i,
            services@.len() == i,
            forall|k: int| 0 <= k < i ==> route_builds(repo@, #[trigger] orig[k]),
            forall|k: int|
                0 <= k < i ==> {
                    &&& (#[trigger] routers@[k]).hostnames == orig[k].hostnames
                    &&& all_built(orig[k].plugins@, route_plugins@[k]@)
                    &&& routers@[k].rules@.len() == orig[k].rules@.len()
                    &&& services@[k]@.len() == orig[k].rules@.len()
                    &&& forall|j: int|
                        0 <= j < orig[k].rules@.len() ==> {
                            &&& routers@[k].rules@[j] == (#[trigger] orig[k].rules@[j]).matches
                            &&& rule_plan(services@[k]@[j], orig[k].rules@[j])
                        }
                },
        decreases n - i,
    {
        let route = rest.remove(0);
        assert(route == orig[i as int]);
        let ghost rules0 = route.rules@;
        let SgHttpRoute { hostnames, rules, plugins } = route;
        let built = match build_plugins(repo, plugins) {
            Ok(b) => b,
            Err(e) => {
                assert(!all_build(repo@, orig[i as int].plugins@));
                assert(!route_builds(repo@, orig[i as int]));
                return Err(e);
            },
        };
        let mut rules_left = rules;
        let m = rules_left.len();
        let mut matches: Vec<Option<Vec<SgHttpRouteMatch>>> = Vec::new();
        let mut row: Vec<SgRouteRule> = Vec::new();
        let mut j: usize = 0;
        while j < m
            invariant
                repo.wf(),
                i < n,
                n == orig.len(),
                orig == routes@,
                rules0 == orig[i as int].rules@,
                m == rules0.len(),
                j <= m,
                rules_left@ == rules0.subrange(j as int, m as int),
                matches@.len() == j,
                row@.len() == j,
                forall|q: int| 0 <= q < j ==> rule_builds(repo@, #[trigger] rules0[q]),
                forall|q: int|
                    0 <= q < j ==> {
                        &&& (#[trigger] matches@[q]) == rules0[q].matches
                        &&& rule_plan(row@[q], rules0[q])
                    },
            decreases m - j,
        {
            let rule = rules_left.remove(0);
            assert(rule == rules0[j as int]);
            match build_rule(repo, rule) {
                Ok((rm, plan)) => {
                    matches.push(rm);
                    row.push(plan);
                },
                Err(e) => {
                    assert(!rule_builds(repo@, rules0[j as int]));
                    assert(!rule_builds(repo@, orig[i as int].rules@[j as int]));
                    assert(!route_builds(repo@, orig[i as int]));
                    return Err(e);
                },
            }
            j += 1;
            assert(rules_left@ =~= rules0.subrange(j as int, m as int));
        }
        let ghost mv = matches@;
        let ghost rv = row@;
        let ghost bv = built@;
        routers.push(SgHttpRouter { hostnames, rules: matches });
        route_plugins.push(built);
        services.push(row);
        proof {
            assert(rules0 == orig[i as int].rules@);
            assert(routers@[i as int].rules@ == mv);
            assert(services@[i as int]@ == rv);
            assert(route_plugins@[i as int]@ == bv);
            assert(route_builds(repo@, orig[i as int]));
            assert forall|j: int| 0 <= j < orig[i as int].rules@.len() implies {
                &&& routers@[i as int].rules@[j] == (#[trigger] orig[i as int].rules@[j]).matches
                &&& rule_plan(services@[i as int]@[j], orig[i as int].rules@[j])
            } by {
                assert(mv[j] == rules0[j].matches);
            }
        }
        i += 1;
        assert(rest@ =~= orig.subrange(i as int, n as int));
    }
    let router = SgGatewayRouter::new(routers);
    Ok(SgGatewayRoute { router, route_plugins, services })
}

/// Builder of a rule; without matches it accepts every request.
pub struct SgHttpRouteRuleLayerBuilder {
    pub matches: Option<Vec<SgHttpRouteMatch>>,
    pub plugins: Vec<SgPluginConfig>,
    pub timeout_ms: Option<u64>,
    pub backends: Vec<SgHttpBackendLayer>,
}

impl SgHttpRouteRuleLayerBuilder {
    pub fn new() -> (r: Self)
        ensures
            r.matches.is_none(),
            r.plugins@.len() == 0,
            r.timeout_ms.is_none(),
            r.backends@.len() == 0,
    {
        SgHttpRouteRuleLayerBuilder { matches: None, plugins: Vec::new(), timeout_ms: None, backends: Vec::new() }
    }

    pub fn matches(self, matches: Vec<SgHttpRouteMatch>) -> (r: Self)
        ensures
            r.matches == Some(matches),
            r.plugins == self.plugins,
            r.timeout_ms == self.timeout_ms,
            r.backends == self.backends,
    {
        SgHttpRouteRuleLayerBuilder { matches: Some(matches), ..self }
    }

    pub fn match_all(self) -> (r: Self)
        ensures
            r.matches.is_none(),
            r.plugins == self.plugins,
            r.timeout_ms == self.timeout_ms,
            r.backends == self.backends,
    {
        SgHttpRouteRuleLayerBuilder { matches: None, ..self }
    }

    pub fn plugin(self, plugin: SgPluginConfig) -> (r: Self)
        ensures
            r.plugins@ == self.plugins@.push(plugin),
            r.matches == self.matches,
            r.timeout_ms == self.timeout_ms,
            r.backends == self.backends,
    {
        let mut this = self;
        this.plugins.push(plugin);
        this
    }

    pub fn timeout(self, timeout_ms: u64) -> (r: Self)
        ensures
            r.timeout_ms == Some(timeout_ms),
            r.matches == self.matches,
            r.plugins == self.plugins,
            r.backends == self.backends,
    {
        SgHttpRouteRuleLayerBuilder { timeout_ms: Some(timeout_ms), ..self }
    }

    pub fn backend(self, backend: SgHttpBackendLayer) -> (r: Self)
        ensures
            r.backends@ == self.backends@.push(backend),
            r.matches == self.matches,
            r.plugins == self.plugins,
            r.timeout_ms == self.timeout_ms,
    {
        let mut this = self;
        this.backends.push(backend);
        this
    }

    pub fn build(self) -> (r: SgHttpRouteRuleLayer)
        ensures
            r.matches == self.matches,
            r.plugins == self.plugins,
            r.timeout_ms == self.timeout_ms,
            r.backends == self.backends,
    {
        SgHttpRouteRuleLayer {
            matches: self.matches,
            plugins: self.plugins,
            timeout_ms: self.timeout_ms,
            backends: self.backends,
        }
    }
}

/// Builder of a route.
pub struct SgHttpRouteLayerBuilder {
    pub hostnames: Vec<String>,
    pub rules: Vec<SgHttpRouteRuleLayer>,
    pub plugins: Vec<SgPluginConfig>,
}

impl SgHttpRouteLayerBuilder {
    pub fn new() -> (r: Self)
        ensures
            r.hostnames@.len() == 0,
            r.rules@.len() == 0,
            r.plugins@.len() == 0,
    {
        SgHttpRouteLayerBuilder { hostnames: Vec::new(), rules: Vec::new(), plugins: Vec::new() }
    }

    pub fn hostnames(self, hostnames: Vec<String>) -> (r: Self)
        ensures
            r.hostnames == hostnames,
            r.rules == self.rules,
            r.plugins == self.plugins,
    {
        SgHttpRouteLayerBuilder { hostnames, ..self }
    }

    pub fn rule(self, rule: SgHttpRouteRuleLayer) -> (r: Self)
        ensures
            r.rules@ == self.rules@.push(rule),
            r.hostnames == self.hostnames,
            r.plugins == self.plugins,
    {
        let mut this = self;
        this.rules.push(rule);
        this
    }

    pub fn plugin(self, plugin: SgPluginConfig) -> (r: Self)
        ensures
            r.plugins@ == self.plugins@.push(plugin),
            r.hostnames == self.hostnames,
            r.rules == self.rules,
    {
        let mut this = self;
        this.plugins.push(plugin);
        this
    }

    pub fn build(self) -> (r: SgHttpRoute)
        ensures
            r.hostnames == self.hostnames,
            r.rules == self.rules,
            r.plugins == self.plugins,
    {
        SgHttpRoute { hostnames: self.hostnames, rules: self.rules, plugins: self.plugins }
    }
}

} // verus!

verus! {

pub const NO_RULE_MATCHED: &'static str = "[Sg.HttpRouteRule] no rule matched";

/// A gateway's routes, its own plugins and the answer when nothing matches.
pub struct SgGatewayLayer {
    pub http_routes: Vec<SgHttpRoute>,
    pub http_plugins: Vec<SgPluginConfig>,
    pub fallback_status: u16,
    pub fallback_message: String,
}

pub struct SgGatewayLayerBuilder {
    pub http_routers: Vec<SgHttpRoute>,
    pub http_plugins: Vec<SgPluginConfig>,
    pub fallback_status: u16,
    pub fallback_message: String,
}

impl SgGatewayLayerBuilder {
    /// No routes, no plugins, and `404 [Sg.HttpRouteRule] no rule matched`
    /// when nothing matches.
    pub fn new() -> (r: Self)
        ensures
            r.http_routers@.len() == 0,
            r.http_plugins@.len() == 0,
            r.fallback_status == crate::response::NOT_FOUND,
            r.fallback_message@ == NO_RULE_MATCHED@,
    {
        SgGatewayLayerBuilder {
            http_routers: Vec::new(),
            http_plugins: Vec::new(),
            fallback_status: crate::response::NOT_FOUND,
            fallback_message: String::from_str(NO_RULE_MATCHED),
        }
    }

    pub fn http_router(self, route: SgHttpRoute) -> (r: Self)
        ensures
            r.http_routers@ == self.http_routers@.push(route),
            r.http_plugins == self.http_plugins,
            r.fallback_status == self.fallback_status,
            r.fallback_message == self.fallback_message,
    {
        let mut this = self;
        this.http_routers.push(route);
        this
    }

    pub fn http_routers(self, routes: Vec<SgHttpRoute>) -> (r: Self)
        ensures
            r.http_routers@ == self.http_routers@ + routes@,
            r.http_plugins == self.http_plugins,
            r.fallback_status == self.fallback_status,
            r.fallback_message == self.fallback_message,
    {
        let mut this = self;
        let mut more = routes;
        this.http_routers.append(&mut more);
        this
    }

    pub fn http_plugin(self, plugin: SgPluginConfig) -> (r: Self)
        ensures
            r.http_plugins@ == self.http_plugins@.push(plugin),
            r.http_routers == self.http_routers,
            r.fallback_status == self.fallback_status,
            r.fallback_message == self.fallback_message,
    {
        let mut this = self;
        this.http_plugins.push(plugin);
        this
    }

    pub fn http_fallback(self, status: u16, message: String) -> (r: Self)
        ensures
            r.fallback_status == status,
            r.fallback_message == message,
            r.http_routers == self.http_routers,
            r.http_plugins == self.http_plugins,
    {
        SgGatewayLayerBuilder { fallback_status: status, fallback_message: message, ..self }
    }

    pub fn build(self) -> (r: SgGatewayLayer)
        ensures
            r.http_routes == self.http_routers,
            r.http_plugins == self.http_plugins,
            r.fallback_status == self.fallback_status,
            r.fallback_message == self.fallback_message,
    {
        SgGatewayLayer {
            http_routes: self.http_routers,
            http_plugins: self.http_plugins,
            fallback_status: self.fallback_status,
            fallback_message: self.fallback_message,
        }
    }
}

impl SgGatewayLayer {
    /// The answer when no route or rule takes a request.
    pub fn fallback_response(&self, reflect: crate::reflect::Reflect) -> (r: crate::response::SgResponse)
        requires
            reflect.wf(),
        ensures
            r.wf(),
            r.status == self.fallback_status,
            r.body@.content == vstd::utf8::encode_utf8(self.fallback_message@),
            r.body@.extensions == reflect@,
    {
        crate::response::SgResponse::with_code_message(self.fallback_status, self.fallback_message.as_str(), reflect)
    }
}

} // verus!
