//! Gateway configuration and lifecycle decisions: which configurations are
//! accepted, how each listener is planned, and what the accept loop, a
//! connection and a shutdown do on each event.
use vstd::prelude::*;

use crate::plugin::SgPluginConfig;
use crate::text::{clone_string, has_prefix, is_prefix};
use crate::chain::{all_build, all_built, build_plugins, SgPlugin, SgPluginBuildError};
use crate::plugin::SgPluginRepository;
use crate::route::{create_http_router, routes_build, SgGatewayRoute, SgHttpRoute};
use crate::tls::{certificates_of, first_key_from, material_of, pem_sections, tls_material, PemKind, SgTlsMaterial};
use vstd::utf8::encode_utf8;

verus! {

#[derive(Clone, Copy, PartialEq, Eq, Structural, Debug)]
pub enum SgProtocol {
    Http,
    Https,
    Ws,
    Tcp,
    Udp,
}

#[derive(Clone, Copy, PartialEq, Eq, Structural, Debug)]
pub enum SgTlsMode {
    Terminate,
    Passthrough,
}

pub struct SgTlsConfig {
    pub mode: SgTlsMode,
    pub cert: String,
    pub key: String,
}

pub struct SgListener {
    pub name: Option<String>,
    pub ip: Option<String>,
    pub port: u16,
    pub protocol: SgProtocol,
    pub tls: Option<SgTlsConfig>,
}

pub struct SgParameters {
    pub log_level: Option<String>,
    pub redis_url: Option<String>,
    pub lang: Option<String>,
    pub ignore_tls_verification: Option<bool>,
}

pub struct SgGateway {
    pub name: String,
    pub parameters: SgParameters,
    pub listeners: Vec<SgListener>,
    pub filters: Vec<SgPluginConfig>,
}

pub enum SgGatewayError {
    /// The gateway declares no listener.
    MissingListeners,
    /// A listener speaks a protocol other than HTTP, HTTPS or WebSocket.
    UnsupportedProtocol,
    /// The listener at this index terminates TLS without a usable
    /// certificate or private key.
    InvalidTls(usize),
    /// A gateway, route, rule or backend plugin cannot be built.
    InvalidPlugin(SgPluginBuildError),
}

pub open spec fn is_http_family(p: SgProtocol) -> bool {
    p == SgProtocol::Http || p == SgProtocol::Https || p == SgProtocol::Ws
}

pub open spec fn protocol_name(p: SgProtocol) -> Seq<char> {
    match p {
        SgProtocol::Http => "http"@,
        SgProtocol::Https => "https"@,
        SgProtocol::Ws => "ws"@,
        SgProtocol::Tcp => "tcp"@,
        SgProtocol::Udp => "udp"@,
    }
}

pub fn protocol_str(p: SgProtocol) -> (r: &'static str)
    ensures
        r@ == protocol_name(p),
{
    match p {
        SgProtocol::Http => "http",
        SgProtocol::Https => "https",
        SgProtocol::Ws => "ws",
        SgProtocol::Tcp => "tcp",
        SgProtocol::Udp => "udp",
    }
}

/// The address a listener binds when it names none.
pub const IP_UNSPECIFIED: &'static str = "0.0.0.0";

/// The identifier of a listener: `{gateway}-{listener name or ?}-{protocol}`.
pub open spec fn listen_id_of(gateway: Seq<char>, l: SgListener) -> Seq<char> {
    gateway + "-"@ + match l.name {
        Some(n) => n@,
        None => "?"@,
    } + "-"@ + protocol_name(l.protocol)
}

pub fn listen_id(gateway: &str, l: &SgListener) -> (r: String)
    ensures
        r@ == listen_id_of(gateway@, *l),
{
    let mut id = String::from_str(gateway);
    id.append("-");
    match &l.name {
        Some(n) => id.append(n.as_str()),
        None => id.append("?"),
    }
    id.append("-");
    id.append(protocol_str(l.protocol));
    id
}

/// What a listener task is started with.
pub struct SgListenPlan {
    pub id: String,
    pub ip: String,
    pub port: u16,
    pub tls: Option<SgTlsMaterial>,
}

pub open spec fn terminates_tls(l: SgListener) -> bool {
    l.tls matches Some(t) && t.mode == SgTlsMode::Terminate
}

/// The PEM sections of a text.
pub open spec fn sections_of(text: Seq<char>) -> Seq<(PemKind, Seq<u8>)> {
    pem_sections(encode_utf8(text))
}

/// A terminating listener's material is usable: a private key and at least
/// one certificate.
pub open spec fn tls_usable(t: SgTlsConfig) -> bool {
    &&& first_key_from(sections_of(t.key@), 0).is_some()
    &&& certificates_of(sections_of(t.cert@)).len() > 0
}

pub open spec fn listener_tls_ok(l: SgListener) -> bool {
    match l.tls {
        Some(t) => t.mode == SgTlsMode::Terminate ==> tls_usable(t),
        None => true,
    }
}

/// The first listener at or after `i` whose TLS material is unusable, or
/// the number of listeners.
pub open spec fn first_bad_tls(ls: Seq<SgListener>, i: int) -> int
    decreases ls.len() - i,
{
    if i < 0 || i >= ls.len() {
        ls.len() as int
    } else if !listener_tls_ok(ls[i]) {
        i
    } else {
        first_bad_tls(ls, i + 1)
    }
}

pub open spec fn all_http(ls: Seq<SgListener>) -> bool {
    forall|i: int| 0 <= i < ls.len() ==> is_http_family(#[trigger] ls[i].protocol)
}

/// Why the listeners of `c` are refused, if they are: none at all; one of
/// another protocol; else the first terminating listener whose material
/// lacks a key or a certificate.
pub open spec fn listen_error(c: SgGateway) -> Option<SgGatewayError> {
    let ls = c.listeners@;
    if ls.len() == 0 {
        Some(SgGatewayError::MissingListeners)
    } else if !all_http(ls) {
        Some(SgGatewayError::UnsupportedProtocol)
    } else if first_bad_tls(ls, 0) < ls.len() {
        Some(SgGatewayError::InvalidTls(first_bad_tls(ls, 0) as usize))
    } else {
        None
    }
}

/// `p` is the plan of listener `l` of gateway `gateway`.
pub open spec fn listen_plan(gateway: Seq<char>, l: SgListener, p: SgListenPlan) -> bool {
    &&& p.id@ == listen_id_of(gateway, l)
    &&& p.port == l.port
    &&& p.ip@ == match l.ip {
        Some(ip) => ip@,
        None => IP_UNSPECIFIED@,
    }
    &&& match l.tls {
        Some(t) => if t.mode == SgTlsMode::Terminate {
            p.tls matches Some(m) && material_of(m, sections_of(t.cert@), sections_of(t.key@))
        } else {
            p.tls.is_none()
        },
        None => p.tls.is_none(),
    }
}

fn check_listeners(listeners: &Vec<SgListener>) -> (r: bool)
    ensures
        r == all_http(listeners@),
{
    let n = listeners.len();
    let mut i: usize = 0;
    while i < n
        invariant
            n == listeners@.len(),
            i <= n,
            forall|j: int| 0 <= j < i ==> is_http_family(#[trigger] listeners@[j].protocol),
        decreases n - i,
    {
        let p = listeners[i].protocol;
        if !(p == SgProtocol::Http || p == SgProtocol::Https || p == SgProtocol::Ws) {
            return false;
        }
        i += 1;
    }
    true
}

/// Plans the listeners of a gateway, or says why they are refused.
pub fn plan_listeners(config: &SgGateway) -> (r: Result<Vec<SgListenPlan>, SgGatewayError>)
    ensures
        match listen_error(*config) {
            Some(e) => r == Err::<Vec<SgListenPlan>, SgGatewayError>(e),
            None => r matches Ok(plans) && plans@.len() == config.listeners@.len() && forall|i: int|
                0 <= i < plans@.len() ==> listen_plan(config.name@, config.listeners@[i], #[trigger] plans@[i]),
        },
{
    let listeners = &config.listeners;
    if listeners.len() == 0 {
        return Err(SgGatewayError::MissingListeners);
    }
    if !check_listeners(listeners) {
        return Err(SgGatewayError::UnsupportedProtocol);
    }
    let n = listeners.len();
    let mut plans: Vec<SgListenPlan> = Vec::new();
    let mut i: usize = 0;
    while i < n
        invariant
            n == listeners@.len(),
            n > 0,
            listeners == config.listeners,
            all_http(listeners@),
            i <= n,
            plans@.len() == i,
            first_bad_tls(listeners@, 0) == first_bad_tls(listeners@, i as int),
            forall|j: int| 0 <= j < i ==> listen_plan(config.name@, config.listeners@[j], #[trigger] plans@[j]),
        decreases n - i,
    {
        let l = &listeners[i];
        let id = listen_id(config.name.as_str(), l);
        let ip = match &l.ip {
            Some(ip) => clone_string(ip),
            None => String::from_str(IP_UNSPECIFIED),
        };
        let tls = match &l.tls {
            Some(t) => match t.mode {
                SgTlsMode::Terminate => {
                    match tls_material(t.cert.as_str().as_bytes(), t.key.as_str().as_bytes()) {
                        Ok(m) => {
                            if m.certs.len() == 0 {
                                proof {
                                    assert(m.certs@.map_values(|c: Vec<u8>| c@).len() == 0);
                                }
                                return Err(SgGatewayError::InvalidTls(i));
                            }
                            proof {
                                assert(m.certs@.map_values(|c: Vec<u8>| c@).len() > 0);
                            }
                            Some(m)
                        },
                        Err(_) => return Err(SgGatewayError::InvalidTls(i)),
                    }
                },
                SgTlsMode::Passthrough => None,
            },
            None => None,
        };
        plans.push(SgListenPlan { id, ip, port: l.port, tls });
        i += 1;
    }
    Ok(plans)
}

/// What a started gateway runs: its listeners, its own plugins, and its
/// routes with their plugins, all built.
pub struct SgGatewayStart {
    pub listeners: Vec<SgListenPlan>,
    pub plugins: Vec<SgPlugin>,
    pub routed: SgGatewayRoute,
}

/// Starts a gateway: plans its listeners, then builds its own plugins and
/// its routes with every route, rule and backend plugin through `repo`.
/// Refused listeners come first; then a plugin that cannot be built.
pub fn start_gateway(config: SgGateway, routes: Vec<SgHttpRoute>, repo: &SgPluginRepository) -> (r: Result<
    SgGatewayStart,
    SgGatewayError,
>)
    requires
        repo.wf(),
    ensures
        listen_error(config) matches Some(e) ==> r == Err::<SgGatewayStart, SgGatewayError>(e),
        listen_error(config).is_none() ==> (r matches Err(SgGatewayError::InvalidPlugin(_)) <==> !(all_build(
            repo@,
            config.filters@,
        ) && routes_build(repo@, routes@))),
        r is Ok <==> listen_error(config).is_none() && all_build(repo@, config.filters@) && routes_build(repo@, routes@),
        r matches Ok(g) ==> {
            &&& g.listeners@.len() == config.listeners@.len()
            &&& forall|i: int|
                0 <= i < g.listeners@.len() ==> listen_plan(config.name@, config.listeners@[i], #[trigger] g.listeners@[i])
            &&& all_built(config.filters@, g.plugins@)
            &&& g.routed.wf()
            &&& g.routed.router.routers@.len() == routes@.len()
        },
{
    let listeners = match plan_listeners(&config) {
        Ok(p) => p,
        Err(e) => return Err(e),
    };
    let SgGateway { name: _, parameters: _, listeners: _, filters } = config;
    let plugins = match build_plugins(repo, filters) {
        Ok(p) => p,
        Err(e) => return Err(SgGatewayError::InvalidPlugin(e)),
    };
    match create_http_router(routes, repo) {
        Ok(routed) => Ok(SgGatewayStart { listeners, plugins, routed }),
        Err(e) => Err(SgGatewayError::InvalidPlugin(e)),
    }
}

/// The log directive for the gateway's domain: `{domain}={level}`.
pub open spec fn directive_of(domain: Seq<char>, level: Seq<char>) -> Seq<char> {
    domain + "="@ + level
}

/// Index of the first directive that starts with `domain`, or the length.
pub open spec fn first_directive_for(ds: Seq<String>, domain: Seq<char>, i: int) -> int
    decreases ds.len() - i,
{
    if i < 0 || i >= ds.len() {
        ds.len() as int
    } else if is_prefix(domain, ds[i]@) {
        i
    } else {
        first_directive_for(ds, domain, i + 1)
    }
}

/// Replaces the first directive for `domain` (if any) by `{domain}={level}`,
/// which goes last.
pub fn update_directives(directives: Vec<String>, domain: &str, level: &str) -> (r: Vec<String>)
    ensures
        ({
            let k = first_directive_for(directives@, domain@, 0);
            let kept = if k < directives@.len() { directives@.remove(k) } else { directives@ };
            r@.len() == kept.len() + 1 && r@.subrange(0, kept.len() as int) == kept && r@.last()@ == directive_of(
                domain@,
                level@,
            )
        }),
{
    let mut ds = directives;
    let n = ds.len();
    let mut i: usize = 0;
    let mut found = false;
    while i < n && !found
        invariant
            n == ds@.len(),
            ds == directives,
            i <= n,
            found ==> i < n && first_directive_for(ds@, domain@, 0) == i,
            !found ==> first_directive_for(ds@, domain@, 0) == first_directive_for(ds@, domain@, i as int),
        decreases n - i + (if found { 0int } else { 1int }),
    {
        if has_prefix(ds[i].as_str(), domain) {
            found = true;
        } else {
            i += 1;
        }
    }
    if found {
        ds.remove(i);
    }
    let ghost kept = ds@;
    let mut d = String::from_str(domain);
    d.append("=");
    d.append(level);
    ds.push(d);
    assert(ds@.subrange(0, kept.len() as int) =~= kept);
    ds
}

/// What the accept loop sees.
pub enum AcceptEvent {
    /// The gateway's cancel token fired.
    Cancelled,
    /// A connection came in.
    Accepted,
    /// Accepting failed (too many files, a transient error).
    AcceptFailed,
}

/// What the accept loop does next.
#[derive(PartialEq, Eq, Structural, Debug, Clone, Copy)]
pub enum AcceptAction {
    /// Leave the loop.
    Stop,
    /// Spawn a task for the connection and keep accepting.
    Serve,
    /// Log and keep accepting.
    Continue,
}

/// The accept loop stops exactly when the cancel token fires; a failed
/// accept is not fatal to the listener.
pub fn on_accept_event(e: &AcceptEvent) -> (r: AcceptAction)
    ensures
        (r == AcceptAction::Stop) <==> (*e matches AcceptEvent::Cancelled),
        (*e matches AcceptEvent::Accepted) ==> r == AcceptAction::Serve,
        (*e matches AcceptEvent::AcceptFailed) ==> r == AcceptAction::Continue,
{
    match e {
        AcceptEvent::Cancelled => AcceptAction::Stop,
        AcceptEvent::Accepted => AcceptAction::Serve,
        AcceptEvent::AcceptFailed => AcceptAction::Continue,
    }
}

/// Whether a connection is served after its TLS handshake (if any): a
/// failed handshake drops the connection and nothing else.
pub fn serve_after_handshake(tls: bool, handshake_ok: bool) -> (r: bool)
    ensures
        r == (!tls || handshake_ok),
{
    !tls || handshake_ok
}

/// How waiting for the listener tasks ended.
pub enum ShutdownOutcome {
    Completed,
    JoinFailed,
    TimedOut,
}

pub const DEFAULT_SHUTDOWN_TIMEOUT_MS: u64 = 10000;

/// A running gateway as the lifecycle sees it.
pub struct RunningSgGateway {
    pub name: String,
    pub cancelled: bool,
    pub shutdown_timeout_ms: u64,
}

impl RunningSgGateway {
    pub fn new(name: String) -> (r: Self)
        ensures
            r.name == name,
            !r.cancelled,
            r.shutdown_timeout_ms == DEFAULT_SHUTDOWN_TIMEOUT_MS,
    {
        RunningSgGateway { name, cancelled: false, shutdown_timeout_ms: DEFAULT_SHUTDOWN_TIMEOUT_MS }
    }

    /// Shutting down first cancels the token; the wait that follows is
    /// bounded by the timeout.
    pub fn begin_shutdown(&mut self) -> (r: u64)
        ensures
            final(self).cancelled,
            final(self).name == old(self).name,
            final(self).shutdown_timeout_ms == old(self).shutdown_timeout_ms,
            r == old(self).shutdown_timeout_ms,
    {
        self.cancelled = true;
        self.shutdown_timeout_ms
    }

    /// After the wait, whatever its outcome, the gateway is down: neither a
    /// failed join nor a timeout is an error.
    pub fn finish_shutdown(&self, outcome: &ShutdownOutcome) -> (r: Result<(), ()>)
        ensures
            r.is_ok(),
    {
        match outcome {
            ShutdownOutcome::Completed => Ok(()),
            ShutdownOutcome::JoinFailed => Ok(()),
            ShutdownOutcome::TimedOut => Ok(()),
        }
    }
}

} // verus!
