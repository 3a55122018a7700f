//! Configuration records and request-context descriptors.
use vstd::prelude::*;

verus! {

/// How a configured path is compared.
#[derive(Clone, Copy, PartialEq, Eq, Structural, Debug)]
pub enum SgHttpPathMatchType {
    Exact,
    Prefix,
    Regular,
}

impl SgHttpPathMatchType {
    /// A path match is a prefix match unless said otherwise.
    pub fn default_kind() -> (r: Self)
        ensures
            r == SgHttpPathMatchType::Prefix,
    {
        SgHttpPathMatchType::Prefix
    }
}

#[derive(Clone, Copy, PartialEq, Eq, Structural, Debug)]
pub enum SgHttpHeaderMatchType {
    Exact,
    Regular,
}

#[derive(Clone, Copy, PartialEq, Eq, Structural, Debug)]
pub enum SgHttpQueryParamMatchType {
    Exact,
    Regular,
}

/// A configured query-parameter match.
pub struct SgHttpQueryParamMatch {
    pub kind: SgHttpQueryParamMatchType,
    pub name: String,
    pub value: String,
}

/// Where a backend reference points: a service inside the cluster, or an
/// external host.
pub enum SgBackendTarget {
    Service { name: String, namespace: Option<String> },
    External { host: String },
}

/// A configured backend reference.
pub struct SgHttpBackendRef {
    pub target: SgBackendTarget,
    pub port: u16,
    pub weight: Option<i32>,
}

/// The weight a backend reference gets: unset means 1; negative weights
/// count as 0; larger ones are capped at `u16::MAX`.
pub open spec fn backend_weight(w: Option<i32>) -> u16 {
    match w {
        None => 1,
        Some(x) => if x < 0 {
            0
        } else if x > u16::MAX {
            u16::MAX
        } else {
            x as u16
        },
    }
}

impl SgHttpBackendRef {
    pub fn weight_u16(&self) -> (r: u16)
        ensures
            r == backend_weight(self.weight),
    {
        match self.weight {
            None => 1,
            Some(x) => if x < 0 {
                0
            } else if x > 65535 {
                65535
            } else {
                x as u16
            },
        }
    }
}

/// The kind of traffic a plugin handles.
#[derive(Clone, Copy, PartialEq, Eq, Structural, Debug)]
pub enum SgPluginFilterKind {
    Http,
    Grpc,
    Ws,
}

/// The level a plugin is attached at.
#[derive(Clone, Copy, PartialEq, Eq, Structural, Debug)]
pub enum SgAttachedLevel {
    Gateway,
    HttpRoute,
    Rule,
    Backend,
}

impl SgAttachedLevel {
    pub fn name(&self) -> (r: &'static str)
        ensures
            r@ == match *self {
                SgAttachedLevel::Gateway => "GateWay"@,
                SgAttachedLevel::HttpRoute => "HttpRoute"@,
                SgAttachedLevel::Rule => "Rule"@,
                SgAttachedLevel::Backend => "Backend"@,
            },
    {
        match self {
            SgAttachedLevel::Gateway => "GateWay",
            SgAttachedLevel::HttpRoute => "HttpRoute",
            SgAttachedLevel::Rule => "Rule",
            SgAttachedLevel::Backend => "Backend",
        }
    }
}

/// Who made a request.
pub struct SGIdentInfo {
    pub id: String,
    pub name: Option<String>,
    pub roles: Vec<SGRoleInfo>,
}

pub struct SGRoleInfo {
    pub id: String,
    pub name: Option<String>,
}

/// The inject plugin: where requests and responses are sent for rewriting.
pub struct SgFilterInject {
    pub req_inject_url: Option<String>,
    pub req_timeout_ms: Option<u64>,
    pub resp_inject_url: Option<String>,
    pub resp_timeout_ms: Option<u64>,
}

/// The decompression plugin.
pub struct DecompressionLayer;

/// The compression plugin.
pub struct ComdeLayer;

/// The definition of the maintenance plugin.
pub struct SgFilterMaintenanceDef;

} // verus!
