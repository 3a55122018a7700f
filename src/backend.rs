//! Backends: where a rule sends a request, with optional overrides of the
//! target's scheme, host and port.
use vstd::prelude::*;

use crate::plugin::SgPluginConfig;
use crate::request::SgUri;
use crate::text::{clone_opt, clone_string};

verus! {

/// A backend of a rule.
pub struct SgHttpBackendLayer {
    pub plugins: Vec<SgPluginConfig>,
    pub host: Option<String>,
    pub port: Option<u16>,
    pub scheme: Option<String>,
    pub weight: u16,
    pub timeout_ms: Option<u64>,
}

/// `o` if present, else `fallback`.
pub open spec fn or_else<T>(o: Option<T>, fallback: Option<T>) -> Option<T> {
    match o {
        Some(x) => Some(x),
        None => fallback,
    }
}

/// The target after the backend's overrides: each override that is set
/// replaces that part; path and query are kept.
pub open spec fn overridden_uri(b: SgHttpBackendLayer, uri: SgUri) -> SgUri {
    SgUri {
        scheme: or_else(b.scheme, uri.scheme),
        host: or_else(b.host, uri.host),
        port: or_else(b.port, uri.port),
        path: uri.path,
        query: uri.query,
    }
}

fn pick_text(o: &Option<String>, fallback: &Option<String>) -> (r: Option<String>)
    ensures
        r == or_else(*o, *fallback),
{
    match o {
        Some(s) => Some(s.clone()),
        None => clone_opt(fallback),
    }
}

impl SgHttpBackendLayer {
    /// Rewrites the request target for this backend.
    pub fn map_uri(&self, uri: &SgUri) -> (r: SgUri)
        ensures
            r == overridden_uri(*self, *uri),
    {
        SgUri {
            scheme: pick_text(&self.scheme, &uri.scheme),
            host: pick_text(&self.host, &uri.host),
            port: match self.port {
                Some(p) => Some(p),
                None => uri.port,
            },
            path: uri.path.clone(),
            query: clone_opt(&uri.query),
        }
    }

    /// Whether this backend rewrites targets at all.
    pub fn overrides_target(&self) -> (r: bool)
        ensures
            r == (self.host.is_some() || self.port.is_some() || self.scheme.is_some()),
    {
        self.host.is_some() || self.port.is_some() || self.scheme.is_some()
    }

    /// The host recorded for observability: the backend's own host if set,
    /// else the request's.
    pub fn backend_host(&self, uri: &SgUri) -> (r: Option<String>)
        ensures
            r == or_else(self.host, uri.host),
    {
        pick_text(&self.host, &uri.host)
    }
}

/// The time limit that applies to a request that passes a rule and then a
/// backend: the shorter of the two when both are set.
pub fn effective_timeout(rule: Option<u64>, backend: Option<u64>) -> (r: Option<u64>)
    ensures
        r == match (rule, backend) {
            (Some(a), Some(b)) => Some(if a <= b { a } else { b }),
            (Some(a), None) => Some(a),
            (None, b) => b,
        },
{
    match (rule, backend) {
        (Some(a), Some(b)) => Some(if a <= b { a } else { b }),
        (Some(a), None) => Some(a),
        (None, b) => b,
    }
}

/// Builder for a backend; the weight starts at 1.
pub struct SgHttpBackendLayerBuilder {
    pub host: Option<String>,
    pub port: Option<u16>,
    pub protocol: Option<String>,
    pub plugins: Vec<SgPluginConfig>,
    pub timeout_ms: Option<u64>,
    pub weight: u16,
}

impl SgHttpBackendLayerBuilder {
    pub fn new() -> (r: Self)
        ensures
            r.host.is_none(),
            r.port.is_none(),
            r.protocol.is_none(),
            r.plugins@.len() == 0,
            r.timeout_ms.is_none(),
            r.weight == 1,
    {
        SgHttpBackendLayerBuilder {
            host: None,
            port: None,
            protocol: None,
            plugins: Vec::new(),
            timeout_ms: None,
            weight: 1,
        }
    }

    pub fn plugin(self, plugin: SgPluginConfig) -> (r: Self)
        ensures
            r.plugins@ == self.plugins@.push(plugin),
            r.host == self.host,
            r.port == self.port,
            r.protocol == self.protocol,
            r.timeout_ms == self.timeout_ms,
            r.weight == self.weight,
    {
        let mut this = self;
        this.plugins.push(plugin);
        this
    }

    pub fn timeout(self, timeout_ms: u64) -> (r: Self)
        ensures
            r.timeout_ms == Some(timeout_ms),
            r.host == self.host,
            r.port == self.port,
            r.protocol == self.protocol,
            r.plugins == self.plugins,
            r.weight == self.weight,
    {
        SgHttpBackendLayerBuilder { timeout_ms: Some(timeout_ms), ..self }
    }

    pub fn weight(self, weight: u16) -> (r: Self)
        ensures
            r.weight == weight,
            r.host == self.host,
            r.port == self.port,
            r.protocol == self.protocol,
            r.plugins == self.plugins,
            r.timeout_ms == self.timeout_ms,
    {
        SgHttpBackendLayerBuilder { weight, ..self }
    }

    pub fn host(self, host: String) -> (r: Self)
        ensures
            r.host == Some(host),
            r.port == self.port,
            r.protocol == self.protocol,
            r.plugins == self.plugins,
            r.timeout_ms == self.timeout_ms,
            r.weight == self.weight,
    {
        SgHttpBackendLayerBuilder { host: Some(host), ..self }
    }

    pub fn port(self, port: u16) -> (r: Self)
        ensures
            r.port == Some(port),
            r.host == self.host,
            r.protocol == self.protocol,
            r.plugins == self.plugins,
            r.timeout_ms == self.timeout_ms,
            r.weight == self.weight,
    {
        SgHttpBackendLayerBuilder { port: Some(port), ..self }
    }

    pub fn protocol(self, protocol: String) -> (r: Self)
        ensures
            r.protocol == Some(protocol),
            r.host == self.host,
            r.port == self.port,
            r.plugins == self.plugins,
            r.timeout_ms == self.timeout_ms,
            r.weight == self.weight,
    {
        SgHttpBackendLayerBuilder { protocol: Some(protocol), ..self }
    }

    /// The backend: the protocol, when set, becomes the scheme override.
    pub fn build(self) -> (r: SgHttpBackendLayer)
        ensures
            r.host == self.host,
            r.port == self.port,
            r.scheme == self.protocol,
            r.plugins == self.plugins,
            r.timeout_ms == self.timeout_ms,
            r.weight == self.weight,
    {
        SgHttpBackendLayer {
            plugins: self.plugins,
            host: self.host,
            port: self.port,
            scheme: self.protocol,
            weight: self.weight,
            timeout_ms: self.timeout_ms,
        }
    }
}

} // verus!

verus! {

pub open spec fn backend_host_key() -> Seq<char> {
    "backend_host"@
}

impl SgHttpBackendLayer {
    /// Records on the request body which host this backend sends it to,
    /// for the plugins that report on backends.
    pub fn mark_request(&self, uri: &SgUri, body: &mut crate::body::SgBody)
        requires
            old(body).wf(),
        ensures
            final(body).wf(),
            match or_else(self.host, uri.host) {
                Some(h) => final(body)@ == (crate::body::BodyView {
                    extensions: old(body)@.extensions.insert(backend_host_key(), h@),
                    ..old(body)@
                }),
                None => final(body)@ == old(body)@,
            },
    {
        if let Some(h) = self.backend_host(uri) {
            body.insert_extension(String::from_str("backend_host"), h);
        }
    }
}

} // verus!
