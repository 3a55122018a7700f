use spacegate::chain::{build_plugin, run_request_plugins, run_response_plugins, SgPlugin};
use spacegate::header_modifier::{HeaderEdit, SgFilterHeaderModifier, SgFilterHeaderModifierKind};
use spacegate::maintenance::{maintenance_response, MaintenanceReply, SgFilterMaintenance, SgTimeOfDay, SgTimeRange};
use spacegate::modify_uri::{replace_prefix_match, uri_to_string, Mapper, ReplaceFullPath, Then, When};
use spacegate::plugin::{SgPluginConfig, SgPluginKind, SgPluginRepository, SgPluginSpec};
use spacegate::rate_limit::{initial_limit_state, limit_counter_key, limit_timestamp_key, too_many_requests, RateLimitConfig};
use spacegate::redirect::{RedirectFilter, SgHttpPathModifier, SgHttpPathModifierType};
use spacegate::reflect::Reflect;
use spacegate::request::{SgHeader, SgRequest, SgUri};
use spacegate::retry::{BackOff, RetryConfig, RetryPolicy};
use spacegate::status::{status_after_response, BackendStatus, SgFilterStatusConfig};
use spacegate::websocket::{after_send, on_received, WsMessage, WsReceived, WsStep};

fn header(k: &str, v: &str) -> SgHeader {
    SgHeader { name: k.to_string(), value: v.to_string() }
}

fn req_with(headers: Vec<SgHeader>) -> SgRequest {
    SgRequest {
        method: "GET".to_string(),
        uri: SgUri { scheme: None, host: None, port: None, path: "/".to_string(), query: None },
        headers,
    }
}

#[test]
fn rate_limit_window() {
    let cfg = RateLimitConfig { max_request_number: Some(2), time_window_ms: Some(1000) };
    let s0 = initial_limit_state();
    let (a, s1) = cfg.check(s0, 0);
    let (b, s2) = cfg.check(s1, 300);
    let (c, s3) = cfg.check(s2, 900);
    let (d, s4) = cfg.check(s3, 1200);
    assert!(a && b);
    assert!(!c);
    assert!(d);
    assert_eq!(s4.count, 1);
    assert_eq!(s4.last_reset_ms, 1200);
    let reject = too_many_requests(Reflect::new());
    assert_eq!(reject.status, 429);
    assert_eq!(reject.body.dumped_bytes().unwrap(), b"[SG.Filter.Limit] too many requests".to_vec());
    let open = RateLimitConfig { max_request_number: None, time_window_ms: None };
    assert_eq!(open.check(s3, 5), (true, s3));
    assert_eq!(limit_counter_key("svc"), "sg:plugin:filter:limit:svc");
    assert_eq!(limit_timestamp_key("svc"), "sg:plugin:filter:limit:svc_ts");
}

#[test]
fn retry_backoff_delays() {
    let mut cfg = RetryConfig::new();
    let p0 = RetryPolicy::new();
    let (d0, p1) = p0.retry(&cfg, true, 0).unwrap();
    let (d1, p2) = p1.retry(&cfg, true, 0).unwrap();
    let (d2, p3) = p2.retry(&cfg, true, 0).unwrap();
    assert_eq!((d0, d1, d2), (100, 200, 400));
    assert!(p3.retry(&cfg, true, 0).is_none());
    assert!(p0.retry(&cfg, false, 0).is_none());
    cfg.backoff = BackOff::Fixed;
    assert_eq!(p2.retry(&cfg, true, 0).unwrap().0, 100);
    cfg.backoff = BackOff::Random;
    assert_eq!(p0.retry(&cfg, true, 4321).unwrap().0, 4321);
    cfg.backoff = BackOff::Exponential;
    cfg.base_interval = u64::MAX / 2 + 1;
    assert_eq!(p1.retry(&cfg, true, 0).unwrap().0, u64::MAX);
}

#[test]
fn maintenance_replies_by_media_type() {
    let m = SgFilterMaintenance { enabled_time_range: None, title: "Down".to_string(), msg: "back/nsoon".to_string() };
    match m.req_filter(&req_with(vec![header("Accept", "text/plain,text/html")]), SgTimeOfDay { ms: 0 }) {
        MaintenanceReply::Html(page) => {
            assert!(page.contains("<title>Down</title>"));
            assert!(page.contains("back<br>soon"));
        }
        _ => panic!("expected an html page"),
    }
    match m.req_filter(&req_with(vec![header("content-type", "application/json")]), SgTimeOfDay { ms: 0 }) {
        MaintenanceReply::Forbidden(msg) => assert_eq!(msg, "back/nsoon"),
        _ => panic!("expected forbidden"),
    }
    let plain = m.req_filter(&req_with(vec![]), SgTimeOfDay { ms: 0 });
    match &plain {
        MaintenanceReply::Plain(p) => assert_eq!(p, "<h1>Down</h1>"),
        _ => panic!("expected plain"),
    }
    let resp = maintenance_response(&plain, Reflect::new()).unwrap();
    assert_eq!(resp.status, 200);
    let night = SgTimeRange { start: SgTimeOfDay { ms: 22 * 3_600_000 }, end: SgTimeOfDay { ms: 2 * 3_600_000 } };
    let timed = SgFilterMaintenance { enabled_time_range: Some(vec![night]), title: "t".to_string(), msg: "m".to_string() };
    assert!(timed.check_by_time(SgTimeOfDay { ms: 23 * 3_600_000 }));
    assert!(timed.check_by_time(SgTimeOfDay { ms: 3_600_000 }));
    assert!(!timed.check_by_time(SgTimeOfDay { ms: 12 * 3_600_000 }));
    assert!(matches!(timed.req_filter(&req_with(vec![]), SgTimeOfDay { ms: 12 * 3_600_000 }), MaintenanceReply::Pass));
    let d = SgFilterMaintenance::new();
    assert_eq!(d.title, "System Maintenance");
}

#[test]
fn header_modifier_appends_then_removes() {
    let m = SgFilterHeaderModifier {
        kind: SgFilterHeaderModifierKind::Request,
        sets: Some(vec![("x-added".to_string(), "1".to_string())]),
        remove: Some(vec!["X-Secret".to_string()]),
    };
    let layer = m.make_layer().ok().unwrap();
    let out = layer.request.apply(&vec![header("x-secret", "s"), header("accept", "*/*")]);
    assert_eq!(out.len(), 2);
    assert_eq!(out[0].name, "accept");
    assert_eq!(out[1].name, "x-added");
    assert_eq!(layer.response.apply(&vec![header("a", "b")]).len(), 1);
    let bad = SgFilterHeaderModifier {
        kind: SgFilterHeaderModifierKind::Response,
        sets: Some(vec![("bad name".to_string(), "1".to_string())]),
        remove: None,
    };
    assert!(bad.make_layer().is_err());
    assert_eq!(HeaderEdit::none().apply(&vec![header("a", "b")]).len(), 1);
}

#[test]
fn redirect_location() {
    let f = RedirectFilter {
        scheme: Some("https".to_string()),
        hostname: Some("new.example.com".to_string()),
        path: Some(SgHttpPathModifier { kind: SgHttpPathModifierType::ReplacePrefixMatch, value: "/bar".to_string() }),
        port: Some(8443),
        status_code: None,
    };
    let u = SgUri {
        scheme: Some("http".to_string()),
        host: Some("old.example.com".to_string()),
        port: None,
        path: "/foo/x".to_string(),
        query: Some("q=1".to_string()),
    };
    let r = f.on_req(&u, &Some("/foo".to_string()), Reflect::new());
    assert_eq!(r.status, 302);
    assert_eq!(r.headers[0].name, "location");
    assert_eq!(r.headers[0].value, "https://new.example.com:8443/bar/x?q=1");
    assert_eq!(replace_prefix_match("/foobar", "/foo", "/bar"), "/foobar");
    let full = ReplaceFullPath { replace: "/new".to_string() }.map(u);
    assert_eq!(uri_to_string(&full), "http://old.example.com/new?q=1");
    let target = |path: &str| SgUri { scheme: None, host: None, port: None, path: path.to_string(), query: None };
    let when = When::new(|u: &SgUri| u.path.starts_with("/old"), ReplaceFullPath { replace: "/moved".to_string() });
    assert_eq!(when.map(target("/old/x")).path, "/moved");
    assert_eq!(when.map(target("/keep")).path, "/keep");
    let both = Then::new(ReplaceFullPath { replace: "/a".to_string() }, ReplaceFullPath { replace: "/b".to_string() });
    assert_eq!(both.map(target("/x")).path, "/b");
}

#[test]
fn websocket_direction_forwards_until_close() {
    match on_received(WsReceived::Message(WsMessage::Text("ping".to_string()))) {
        WsStep::Send(WsMessage::Text(t)) => assert_eq!(t, "ping"),
        _ => panic!("expected the frame to be forwarded"),
    }
    assert!(after_send(&WsMessage::Text("ping".to_string()), true));
    assert!(!after_send(&WsMessage::Text("ping".to_string()), false));
    assert!(!after_send(&WsMessage::Close, true));
    assert!(matches!(on_received(WsReceived::ReadError), WsStep::Stop));
    assert!(matches!(on_received(WsReceived::End), WsStep::Stop));
}

#[test]
fn status_follows_server_errors() {
    assert_eq!(status_after_response(502, 3, 3, None), Some(BackendStatus::Major));
    assert_eq!(status_after_response(500, 1, 3, Some(BackendStatus::Good)), Some(BackendStatus::Minor));
    assert_eq!(status_after_response(200, 9, 3, Some(BackendStatus::Major)), Some(BackendStatus::Good));
    assert_eq!(status_after_response(200, 0, 3, Some(BackendStatus::Good)), None);
    let c = SgFilterStatusConfig::new();
    assert_eq!(c.port, 8110);
}

#[test]
fn plugin_registry() {
    let repo = SgPluginRepository::register_prelude();
    let cfg = SgPluginConfig {
        code: "limit".to_string(),
        spec: SgPluginSpec::Limit(RateLimitConfig { max_request_number: None, time_window_ms: None }),
    };
    assert!(matches!(repo.create(cfg), Ok(SgPlugin::Limit(_))));
    assert!(repo.create(SgPluginConfig { code: "limit".to_string(), spec: SgPluginSpec::Plain }).is_err());
    assert_eq!(repo.get("maintenance"), Some(SgPluginKind::Maintenance));
    assert!(repo.get("nope").is_none());
    let mut custom = SgPluginRepository::new();
    custom.register("mine", SgPluginKind::Custom(1));
    assert_eq!(custom.get("mine"), Some(SgPluginKind::Custom(1)));
}

#[test]
fn plugin_chain_stops_at_the_first_answer() {
    let edit = SgFilterHeaderModifier {
        kind: SgFilterHeaderModifierKind::Request,
        sets: Some(vec![("x-seen".to_string(), "1".to_string())]),
        remove: None,
    }
    .make_layer()
    .ok()
    .unwrap();
    let plugins = vec![
        SgPlugin::HeaderModifier(edit),
        SgPlugin::Limit(RateLimitConfig { max_request_number: Some(1), time_window_ms: Some(1000) }),
        SgPlugin::Passive,
    ];
    let mut limit = initial_limit_state();
    let mut req = req_with(vec![]);
    let first = run_request_plugins(&plugins, &mut req, &mut limit, 0, SgTimeOfDay { ms: 0 }, &Reflect::new());
    assert!(first.is_none());
    assert_eq!(req.headers.len(), 1);
    assert_eq!(req.headers[0].name, "x-seen");
    let mut again = req_with(vec![]);
    let second = run_request_plugins(&plugins, &mut again, &mut limit, 10, SgTimeOfDay { ms: 0 }, &Reflect::new());
    let (k, resp) = second.unwrap();
    assert_eq!(k, 1);
    assert_eq!(resp.status, 429);
    let maintenance = vec![SgPlugin::Maintenance(SgFilterMaintenance::new()), SgPlugin::Passive];
    let mut r3 = req_with(vec![]);
    let (k3, resp3) = run_request_plugins(&maintenance, &mut r3, &mut limit, 20, SgTimeOfDay { ms: 0 }, &Reflect::new()).unwrap();
    assert_eq!(k3, 0);
    assert_eq!(resp3.status, 200);
}

#[test]
fn response_side_runs_in_reverse() {
    let add = |name: &str| {
        SgPlugin::HeaderModifier(
            SgFilterHeaderModifier {
                kind: SgFilterHeaderModifierKind::Response,
                sets: Some(vec![(name.to_string(), "1".to_string())]),
                remove: None,
            }
            .make_layer()
            .ok()
            .unwrap(),
        )
    };
    let plugins = vec![add("outer"), add("inner")];
    let mut resp = too_many_requests(Reflect::new());
    run_response_plugins(&plugins, 2, &mut resp);
    assert_eq!(resp.headers.len(), 2);
    assert_eq!(resp.headers[0].name, "inner");
    assert_eq!(resp.headers[1].name, "outer");
    let mut partial = too_many_requests(Reflect::new());
    run_response_plugins(&plugins, 1, &mut partial);
    assert_eq!(partial.headers.len(), 1);
    assert_eq!(partial.headers[0].name, "outer");
}

#[test]
fn plugins_are_built_through_the_registry() {
    let repo = SgPluginRepository::register_prelude();
    let limit = SgPluginConfig {
        code: "limit".to_string(),
        spec: SgPluginSpec::Limit(RateLimitConfig { max_request_number: Some(3), time_window_ms: None }),
    };
    assert!(matches!(build_plugin(&repo, limit), Ok(SgPlugin::Limit(_))));
    let bad_header = SgPluginConfig {
        code: "header_modifier".to_string(),
        spec: SgPluginSpec::HeaderModifier(SgFilterHeaderModifier {
            kind: SgFilterHeaderModifierKind::Request,
            sets: Some(vec![("bad name".to_string(), "v".to_string())]),
            remove: None,
        }),
    };
    assert!(build_plugin(&repo, bad_header).is_err());
    assert!(build_plugin(&repo, SgPluginConfig { code: "unknown".to_string(), spec: SgPluginSpec::Plain }).is_err());
    assert!(build_plugin(&repo, SgPluginConfig { code: "retry".to_string(), spec: SgPluginSpec::Unreadable }).is_err());
    assert!(matches!(
        build_plugin(&repo, SgPluginConfig { code: "retry".to_string(), spec: SgPluginSpec::Plain }),
        Ok(SgPlugin::Passive)
    ));
}

#[test]
fn redirect_plugin_answers_in_the_chain() {
    let f = RedirectFilter { scheme: None, hostname: Some("b.example".to_string()), path: None, port: None, status_code: Some(301) };
    let plugins = vec![SgPlugin::Passive, SgPlugin::Redirect(f)];
    let mut limit = initial_limit_state();
    let mut req = SgRequest {
        method: "GET".to_string(),
        uri: SgUri { scheme: Some("http".to_string()), host: Some("a.example".to_string()), port: None, path: "/x".to_string(), query: None },
        headers: vec![],
    };
    let (k, resp) = run_request_plugins(&plugins, &mut req, &mut limit, 0, SgTimeOfDay { ms: 0 }, &Reflect::new()).unwrap();
    assert_eq!(k, 1);
    assert_eq!(resp.status, 301);
    assert_eq!(resp.headers[0].value, "http://b.example/x");
}

#[test]
fn rate_limit_filter_answers_429() {
    use_rate_limit_filter();
}

fn use_rate_limit_filter() {
    let f = spacegate::rate_limit::RateLimitFilter {
        config: RateLimitConfig { max_request_number: Some(2), time_window_ms: Some(1000) },
        service_id: "svc".to_string(),
    };
    let s0 = initial_limit_state();
    let (a, s1) = f.filter(s0, 0, Reflect::new());
    let (b, s2) = f.filter(s1, 100, Reflect::new());
    let (c, s3) = f.filter(s2, 200, Reflect::new());
    assert!(a.is_ok() && b.is_ok());
    let resp = c.err().unwrap();
    assert_eq!(resp.status, 429);
    assert_eq!(resp.body.dumped_bytes().unwrap(), b"[SG.Filter.Limit] too many requests".to_vec());
    let (d, _) = f.filter(s3, 1200, Reflect::new());
    assert!(d.is_ok());
    assert_eq!(f.counter_key(), "sg:plugin:filter:limit:svc");
}
