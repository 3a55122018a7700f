use spacegate::backend::SgHttpBackendLayerBuilder;
use spacegate::hostname::HostnameTree;
use spacegate::match_request::{
    SgHttpHeaderMatch, SgHttpHeaderMatchPolicy, SgHttpMethodMatch, SgHttpPathMatch, SgHttpQueryMatch,
    SgHttpQueryMatchPolicy, SgHttpRouteMatch,
};
use spacegate::pattern::SgRegex;
use spacegate::chain::SgPlugin;
use spacegate::plugin::{SgPluginConfig, SgPluginRepository, SgPluginSpec};
use spacegate::rate_limit::RateLimitConfig;
use spacegate::reflect::Reflect;
use spacegate::request::{SgHeader, SgRequest, SgUri};
use spacegate::response::SgResponse;
use spacegate::route::{create_http_router, SgHttpRouteLayerBuilder, SgHttpRouteRuleLayerBuilder};
use spacegate::router::{SgGatewayRouter, SgHttpRouter};

fn request(method: &str, host: &str, path: &str, query: Option<&str>, headers: Vec<(&str, &str)>) -> SgRequest {
    let mut hs = vec![SgHeader { name: "host".to_string(), value: host.to_string() }];
    for (k, v) in headers {
        hs.push(SgHeader { name: k.to_string(), value: v.to_string() });
    }
    SgRequest {
        method: method.to_string(),
        uri: SgUri {
            scheme: Some("http".to_string()),
            host: Some(host.to_string()),
            port: None,
            path: path.to_string(),
            query: query.map(|q| q.to_string()),
        },
        headers: hs,
    }
}

fn path_match(p: SgHttpPathMatch) -> SgHttpRouteMatch {
    SgHttpRouteMatch { path: Some(p), header: None, query: None, method: None }
}

#[test]
fn hostname_exact_wildcard_and_catch_all() {
    let mut t = HostnameTree::new();
    t.set("example.com", 1usize);
    t.set("*.example.com", 2);
    t.set("*.api.example.com", 3);
    assert_eq!(t.get("example.com"), Some(1));
    assert_eq!(t.get("www.example.com"), Some(2));
    assert_eq!(t.get("a.b.example.com"), Some(2));
    assert_eq!(t.get("v1.api.example.com"), Some(3));
    assert_eq!(t.get("other.org"), None);
    t.set("*", 9);
    assert_eq!(t.get("other.org"), Some(9));
    t.set("example.com", 4);
    assert_eq!(t.get("example.com"), Some(4));
}

#[test]
fn path_matchers() {
    let exact = SgHttpPathMatch::Exact("/hello".to_string());
    assert!(exact.match_path("/hello"));
    assert!(!exact.match_path("/hello/"));
    let prefix = SgHttpPathMatch::Prefix("/foo/".to_string());
    assert!(prefix.match_path("/foo"));
    assert!(prefix.match_path("/foo/bar"));
    assert!(!prefix.match_path("/foobar"));
    let root = SgHttpPathMatch::Prefix("/".to_string());
    assert!(root.match_path("/anything"));
    let re = SgHttpPathMatch::Regular(SgRegex::new("^/v[0-9]+/").ok().unwrap());
    assert!(re.match_path("/v2/users"));
    assert!(!re.match_path("/users"));
    assert!(SgRegex::new("(unclosed").is_err());
}

#[test]
fn header_query_and_method_matchers() {
    let req = request("get", "example.com", "/", Some("a=1&b=two&flag"), vec![("X-Env", "prod"), ("x-env", "dev")]);
    let h = SgHttpHeaderMatch { name: "x-env".to_string(), policy: SgHttpHeaderMatchPolicy::Exact("prod".to_string()) };
    assert!(h.match_request(&req));
    let h2 = SgHttpHeaderMatch { name: "X-ENV".to_string(), policy: SgHttpHeaderMatchPolicy::Exact("dev".to_string()) };
    assert!(!h2.match_request(&req));
    let h3 = SgHttpHeaderMatch {
        name: "x-env".to_string(),
        policy: SgHttpHeaderMatchPolicy::Regular(SgRegex::new("^de").ok().unwrap()),
    };
    assert!(h3.match_request(&req));
    let q = SgHttpQueryMatch { name: "b".to_string(), policy: SgHttpQueryMatchPolicy::Exact("two".to_string()) };
    assert!(q.match_request(&req));
    let q2 = SgHttpQueryMatch { name: "flag".to_string(), policy: SgHttpQueryMatchPolicy::Exact("".to_string()) };
    assert!(!q2.match_request(&req));
    let q3 = SgHttpQueryMatch {
        name: "a".to_string(),
        policy: SgHttpQueryMatchPolicy::Regular(SgRegex::new("^[0-9]$").ok().unwrap()),
    };
    assert!(q3.match_request(&req));
    assert!(SgHttpMethodMatch("GET".to_string()).match_request(&req));
    assert!(!SgHttpMethodMatch("POST".to_string()).match_request(&req));
}

#[test]
fn rule_match_is_a_conjunction() {
    let req = request("POST", "example.com", "/api/x", None, vec![]);
    let m = SgHttpRouteMatch {
        path: Some(SgHttpPathMatch::Prefix("/api".to_string())),
        header: None,
        query: None,
        method: Some(vec![SgHttpMethodMatch("post".to_string())]),
    };
    assert!(m.match_request(&req));
    let m2 = SgHttpRouteMatch {
        path: Some(SgHttpPathMatch::Prefix("/api".to_string())),
        header: None,
        query: None,
        method: Some(vec![SgHttpMethodMatch("get".to_string())]),
    };
    assert!(!m2.match_request(&req));
    assert!(SgHttpRouteMatch::match_all().match_request(&req));
}

#[test]
fn test() {
    let rule = SgHttpRouteRuleLayerBuilder::new()
        .matches(vec![path_match(SgHttpPathMatch::Exact("/hello".to_string()))])
        .timeout(5000)
        .backend(SgHttpBackendLayerBuilder::new().build())
        .build();
    let route = SgHttpRouteLayerBuilder::new().hostnames(vec!["example.com".to_string()]).rule(rule).build();
    let gw = create_http_router(vec![route], &SgPluginRepository::register_prelude()).ok().unwrap();
    let hello = request("GET", "example.com", "/hello", None, vec![]);
    assert_eq!(gw.router.route(&hello), Some((0, 0)));
    assert!(gw.dispatch(&hello).is_some());
    let world = request("GET", "example.com", "/world", None, vec![]);
    assert_eq!(gw.router.route(&world), None);
    assert!(gw.dispatch(&world).is_none());
    let fallback = SgResponse::with_code_message(404, "[Sg.HttpRouteRule] no rule matched", Reflect::new());
    assert_eq!(fallback.status, 404);
    assert_eq!(fallback.body.dumped_bytes().unwrap(), b"[Sg.HttpRouteRule] no rule matched".to_vec());
}

#[test]
fn exact_path_route_and_echo_body() {
    let rule = SgHttpRouteRuleLayerBuilder::new()
        .matches(vec![path_match(SgHttpPathMatch::Exact("/hello".to_string()))])
        .build();
    let route = SgHttpRouteLayerBuilder::new().hostnames(vec!["example.com".to_string()]).rule(rule).build();
    let gw = create_http_router(vec![route], &SgPluginRepository::register_prelude()).ok().unwrap();
    let hello = request("GET", "example.com:80", "/hello", None, vec![]);
    assert_eq!(gw.router.route(&hello), Some((0, 0)));
    let body = spacegate::body::SgBody::full(b"hello spacegate".to_vec());
    let echoed = body.dump().ok().unwrap();
    assert_eq!(echoed.dumped_bytes().unwrap(), b"hello spacegate".to_vec());
}

#[test]
fn unknown_host_goes_to_fallback() {
    let route = SgHttpRouteLayerBuilder::new()
        .hostnames(vec!["api.example.com".to_string()])
        .rule(SgHttpRouteRuleLayerBuilder::new().build())
        .build();
    let gw = create_http_router(vec![route], &SgPluginRepository::register_prelude()).ok().unwrap();
    let req = request("GET", "other.example.com", "/", None, vec![]);
    assert_eq!(gw.router.route(&req), None);
    let ok = request("GET", "api.example.com", "/", None, vec![]);
    assert_eq!(gw.router.route(&ok), Some((0, 0)));
}

#[test]
fn first_matching_rule_wins() {
    let r0 = SgHttpRouteRuleLayerBuilder::new()
        .matches(vec![path_match(SgHttpPathMatch::Prefix("/a".to_string()))])
        .build();
    let r1 = SgHttpRouteRuleLayerBuilder::new()
        .matches(vec![path_match(SgHttpPathMatch::Prefix("/a/b".to_string()))])
        .build();
    let r2 = SgHttpRouteRuleLayerBuilder::new().build();
    let route = SgHttpRouteLayerBuilder::new().rule(r0).rule(r1).rule(r2).build();
    let gw = create_http_router(vec![route], &SgPluginRepository::register_prelude()).ok().unwrap();
    assert_eq!(gw.router.route(&request("GET", "any.host", "/a/b/c", None, vec![])), Some((0, 0)));
    assert_eq!(gw.router.route(&request("GET", "any.host", "/z", None, vec![])), Some((0, 2)));
}

#[test]
fn route_plans_keep_route_and_rule_plugins_apart() {
    let limit = || SgPluginConfig {
        code: "limit".to_string(),
        spec: SgPluginSpec::Limit(RateLimitConfig { max_request_number: Some(1), time_window_ms: None }),
    };
    let rule = SgHttpRouteRuleLayerBuilder::new().plugin(limit()).timeout(10).build();
    let route = SgHttpRouteLayerBuilder::new()
        .plugin(SgPluginConfig { code: "inject".to_string(), spec: SgPluginSpec::Plain })
        .rule(rule)
        .build();
    let gw = create_http_router(vec![route], &SgPluginRepository::register_prelude()).ok().unwrap();
    assert_eq!(gw.route_plugins[0].len(), 1);
    assert!(matches!(gw.route_plugins[0][0], SgPlugin::Passive));
    let plan = &gw.services[0][0];
    assert_eq!(plan.plugins.len(), 1);
    assert!(matches!(plan.plugins[0], SgPlugin::Limit(_)));
    assert_eq!(plan.timeout_ms, Some(10));
}

#[test]
fn unbuildable_plugins_fail_route_assembly() {
    let repo = SgPluginRepository::register_prelude();
    let unknown = SgHttpRouteLayerBuilder::new()
        .rule(
            SgHttpRouteRuleLayerBuilder::new()
                .plugin(SgPluginConfig { code: "nope".to_string(), spec: SgPluginSpec::Plain })
                .build(),
        )
        .build();
    assert!(create_http_router(vec![unknown], &repo).is_err());
    let unreadable = SgHttpRouteLayerBuilder::new()
        .plugin(SgPluginConfig { code: "limit".to_string(), spec: SgPluginSpec::Unreadable })
        .build();
    assert!(create_http_router(vec![unreadable], &repo).is_err());
    let backend = SgHttpBackendLayerBuilder::new()
        .plugin(SgPluginConfig { code: "redirect".to_string(), spec: SgPluginSpec::Plain })
        .build();
    let mismatched = SgHttpRouteLayerBuilder::new().rule(SgHttpRouteRuleLayerBuilder::new().backend(backend).build()).build();
    assert!(create_http_router(vec![mismatched], &repo).is_err());
}

#[test]
fn router_lists_all_indexes() {
    let routers = vec![
        SgHttpRouter { hostnames: vec![], rules: vec![None, None] },
        SgHttpRouter { hostnames: vec!["x.com".to_string()], rules: vec![None] },
    ];
    let r = SgGatewayRouter::new(routers);
    let all = r.all_indexes();
    assert_eq!(all, vec![(0, 0), (0, 1), (1, 0)]);
}
