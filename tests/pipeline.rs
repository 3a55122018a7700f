use spacegate::backend::{effective_timeout, SgHttpBackendLayer, SgHttpBackendLayerBuilder};
use spacegate::body::{install_peer, SgBody};
use spacegate::client::{timed_response, unsupported_upgrade, upstream_kind, upstream_response, UpstreamKind};
use spacegate::layers::{FilterByHostnames, FilterRequestLayer, ResponseAnyway, SgService, Transparent};
use spacegate::picker::{pick_by_weight, weight_total};
use spacegate::reflect::Reflect;
use spacegate::reload::Reloader;
use spacegate::request::{SgHeader, SgRequest, SgUri};
use spacegate::response::{header_present, with_length_or_chunked, SgResponse};
use spacegate::route::SgGatewayLayerBuilder;
use spacegate::text::decimal_string;

fn uri(host: Option<&str>, port: Option<u16>, path: &str, query: Option<&str>) -> SgUri {
    SgUri {
        scheme: Some("http".to_string()),
        host: host.map(|h| h.to_string()),
        port,
        path: path.to_string(),
        query: query.map(|q| q.to_string()),
    }
}

fn reflect_with(k: &str, v: &str) -> Reflect {
    let mut r = Reflect::new();
    r.insert(k.to_string(), v.to_string());
    r
}

#[test]
fn weighted_split_over_all_draws() {
    let weights = vec![1u16, 3];
    assert_eq!(weight_total(&weights), 4);
    let mut counts = [0usize; 2];
    for i in 0..10_000u128 {
        counts[pick_by_weight(&weights, i % 4)] += 1;
    }
    assert_eq!(counts[0], 2_500);
    assert_eq!(counts[1], 7_500);
    assert_eq!(pick_by_weight(&weights, 0), 0);
    assert_eq!(pick_by_weight(&weights, 1), 1);
    assert_eq!(pick_by_weight(&weights, 3), 1);
}

#[test]
fn zero_or_no_weights_pick_index_zero() {
    assert_eq!(pick_by_weight(&vec![0u16, 0, 0], 12345), 0);
    assert_eq!(pick_by_weight(&vec![], 7), 0);
    assert_eq!(pick_by_weight(&vec![0u16, 5], 4), 1);
}

#[test]
fn backend_overrides_keep_path_and_query() {
    let b = SgHttpBackendLayerBuilder::new().host("backend.local".to_string()).port(8080).protocol("https".to_string()).build();
    let u = b.map_uri(&uri(Some("example.com"), None, "/a/b", Some("x=1")));
    assert_eq!(u.scheme.as_deref(), Some("https"));
    assert_eq!(u.host.as_deref(), Some("backend.local"));
    assert_eq!(u.port, Some(8080));
    assert_eq!(u.path, "/a/b");
    assert_eq!(u.query.as_deref(), Some("x=1"));
    let keep = SgHttpBackendLayerBuilder::new().build();
    assert!(!keep.overrides_target());
    let same = keep.map_uri(&uri(Some("example.com"), Some(81), "/", None));
    assert_eq!(same.host.as_deref(), Some("example.com"));
    assert_eq!(same.port, Some(81));
    assert_eq!(keep.weight, 1);
    let only_port = SgHttpBackendLayer { plugins: vec![], host: None, port: Some(9), scheme: None, weight: 2, timeout_ms: None };
    assert_eq!(only_port.backend_host(&uri(Some("h"), None, "/", None)).as_deref(), Some("h"));
}

#[test]
fn shorter_timeout_wins() {
    assert_eq!(effective_timeout(Some(5000), Some(2000)), Some(2000));
    assert_eq!(effective_timeout(None, Some(2000)), Some(2000));
    assert_eq!(effective_timeout(Some(10), None), Some(10));
    assert_eq!(effective_timeout(None, None), None);
}

#[test]
fn body_dump_is_idempotent_and_clonable() {
    let body = SgBody::new(vec![b"hello ".to_vec(), b"space".to_vec(), b"gate".to_vec()], false);
    assert!(!body.is_dumped());
    assert!(body.dump_clone().is_none());
    let once = body.dump().ok().unwrap();
    assert!(once.is_dumped());
    let bytes = once.dumped_bytes().unwrap();
    assert_eq!(bytes, b"hello spacegate".to_vec());
    let copy = once.clone_dumped();
    assert_eq!(copy.dumped_bytes().unwrap(), bytes);
    let twice = once.dump().ok().unwrap();
    assert_eq!(twice.dumped_bytes().unwrap(), bytes);
    let failing = SgBody::new(vec![b"x".to_vec()], true);
    assert!(failing.dump().is_err());
    assert_eq!(SgBody::empty().dump().ok().unwrap().dumped_bytes().unwrap(), Vec::<u8>::new());
}

#[test]
fn extensions_survive_dump_and_the_upstream_round_trip() {
    let mut body = install_peer(SgBody::full(b"q".to_vec()), "10.0.0.1:5000".to_string());
    body.insert_extension("reflect".to_string(), "id-7".to_string());
    assert_eq!(body.extension("peer_addr").as_deref(), Some("10.0.0.1:5000"));
    let dumped = body.dump().ok().unwrap();
    assert_eq!(dumped.extension("reflect").as_deref(), Some("id-7"));
    let upstream = SgResponse { status: 200, headers: vec![], body: SgBody::full(b"ok".to_vec()) };
    let resp = upstream_response(Ok(upstream), dumped.reflect());
    assert_eq!(resp.status, 200);
    assert_eq!(resp.body.extension("reflect").as_deref(), Some("id-7"));
    assert_eq!(resp.body.dumped_bytes().unwrap(), b"ok".to_vec());
    let failed = upstream_response(Err("connection refused".to_string()), dumped.reflect());
    assert_eq!(failed.status, 500);
    assert_eq!(failed.body.dumped_bytes().unwrap(), b"connection refused".to_vec());
    assert_eq!(failed.body.extension("reflect").as_deref(), Some("id-7"));
    let timeout = timed_response(None, dumped.reflect());
    assert_eq!(timeout.status, 504);
    assert_eq!(timeout.body.dumped_bytes().unwrap(), b"request timeout".to_vec());
    assert_eq!(timeout.body.extension("reflect").as_deref(), Some("id-7"));
}

#[test]
fn upgrade_requests_are_classified() {
    let mk = |hs: Vec<(&str, &str)>| SgRequest {
        method: "GET".to_string(),
        uri: uri(Some("gw"), None, "/echo", None),
        headers: hs.into_iter().map(|(k, v)| SgHeader { name: k.to_string(), value: v.to_string() }).collect(),
    };
    assert!(matches!(upstream_kind(&mk(vec![])), UpstreamKind::Forward));
    assert!(matches!(upstream_kind(&mk(vec![("Upgrade", "WebSocket")])), UpstreamKind::WebSocket));
    assert!(matches!(upstream_kind(&mk(vec![("upgrade", "h2c")])), UpstreamKind::Unsupported));
    let r = unsupported_upgrade(Reflect::new());
    assert_eq!(r.status, 501);
    assert_eq!(r.body.dumped_bytes().unwrap(), b"[Sg.Websocket] unsupported upgrade protocol".to_vec());
}

#[test]
fn hot_reload_keeps_in_flight_generation() {
    let mut reloader = Reloader::new('X');
    let in_flight = reloader.lease();
    reloader.reload('Y');
    assert_eq!(in_flight.service, 'X');
    let fresh = reloader.lease();
    assert_eq!(fresh.service, 'Y');
    assert!(fresh.generation > in_flight.generation);
}

#[test]
fn responses_state_length_or_chunked() {
    let mut dumped = SgResponse::with_code_message(200, "hello", Reflect::new());
    with_length_or_chunked(&mut dumped);
    assert!(header_present(&dumped.headers, "Content-Length"));
    assert_eq!(dumped.headers[0].value, "5");
    let mut streaming = SgResponse { status: 200, headers: vec![], body: SgBody::new(vec![b"a".to_vec()], false) };
    with_length_or_chunked(&mut streaming);
    assert_eq!(streaming.headers[0].name, "transfer-encoding");
    assert_eq!(streaming.headers[0].value, "chunked");
    let mut given = SgResponse {
        status: 200,
        headers: vec![SgHeader { name: "Content-Length".to_string(), value: "1".to_string() }],
        body: SgBody::full(b"a".to_vec()),
    };
    with_length_or_chunked(&mut given);
    assert_eq!(given.headers.len(), 1);
    assert_eq!(decimal_string(0), "0");
    assert_eq!(decimal_string(1234567890), "1234567890");
}

#[test]
fn hostname_filter_answers_forbidden() {
    let f = FilterByHostnames { hostnames: vec!["api.example.com".to_string()] };
    assert!(f.check(&uri(Some("api.example.com"), None, "/", None), Reflect::new()).is_ok());
    let denied = f.check(&uri(Some("other.example.com"), None, "/", None), reflect_with("k", "v")).err().unwrap();
    assert_eq!(denied.status, 403);
    assert_eq!(denied.body.dumped_bytes().unwrap(), b"hostname not allowed".to_vec());
    assert_eq!(denied.body.extension("k").as_deref(), Some("v"));
    let missing = f.check(&uri(None, None, "/", None), Reflect::new()).err().unwrap();
    assert_eq!(missing.body.dumped_bytes().unwrap(), b"missing hostname".to_vec());
    let open = FilterByHostnames { hostnames: vec![] };
    assert!(open.check(&uri(None, None, "/", None), Reflect::new()).is_ok());
}

#[test]
fn gateway_fallback_is_not_found() {
    let gw = SgGatewayLayerBuilder::new().build();
    let r = gw.fallback_response(reflect_with("reflect", "1"));
    assert_eq!(r.status, 404);
    assert_eq!(r.body.dumped_bytes().unwrap(), b"[Sg.HttpRouteRule] no rule matched".to_vec());
    assert_eq!(r.body.extension("reflect").as_deref(), Some("1"));
}

#[test]
fn reflect_replaces_values() {
    let mut r = Reflect::new();
    r.insert("a".to_string(), "1".to_string());
    r.insert("a".to_string(), "2".to_string());
    assert_eq!(r.get("a").as_deref(), Some("2"));
    assert_eq!(r.get("b"), None);
    assert_eq!(r.duplicate().get("a").as_deref(), Some("2"));
}

#[test]
fn chosen_backend_host_is_recorded() {
    let b = SgHttpBackendLayerBuilder::new().host("upstream.local".to_string()).build();
    let mut body = SgBody::full(b"x".to_vec());
    b.mark_request(&uri(Some("example.com"), None, "/", None), &mut body);
    assert_eq!(body.extension("backend_host").as_deref(), Some("upstream.local"));
    let plain = SgHttpBackendLayerBuilder::new().build();
    let mut other = SgBody::empty();
    plain.mark_request(&uri(None, None, "/", None), &mut other);
    assert_eq!(other.extension("backend_host"), None);
}

#[test]
fn filter_layers_run_the_filter_first() {
    let req = || SgRequest { method: "GET".to_string(), uri: uri(Some("h"), None, "/", None), headers: vec![] };
    let passing = FilterRequestLayer::new(Transparent).layer(ResponseAnyway { status: 200, message: "inner".to_string() });
    let r = passing.call(req());
    assert_eq!(r.status, 200);
    assert_eq!(r.body.dumped_bytes().unwrap(), b"inner".to_vec());
    let answering = FilterRequestLayer::new(ResponseAnyway { status: 404, message: "no".to_string() })
        .layer(ResponseAnyway { status: 200, message: "inner".to_string() });
    let r2 = answering.call(req());
    assert_eq!(r2.status, 404);
    assert_eq!(r2.body.dumped_bytes().unwrap(), b"no".to_vec());
    let hosts = FilterRequestLayer::new(FilterByHostnames { hostnames: vec!["x".to_string()] })
        .layer(ResponseAnyway { status: 200, message: "inner".to_string() });
    assert_eq!(hosts.call(req()).status, 403);
}

#[test]
fn weighted_draws_only_pick_weighted_backends() {
    use_route_by_weight();
}

fn use_route_by_weight() {
    let picker = spacegate::layers::RouteByWeight;
    assert_eq!(picker.pick(&vec![0u16, 0]), 0);
    assert_eq!(picker.pick(&vec![]), 0);
    for _ in 0..200 {
        assert_eq!(picker.pick(&vec![0u16, 5, 0]), 1);
        assert!(picker.pick(&vec![1u16, 3]) < 2);
    }
}
