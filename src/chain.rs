//! Running the request side of a plugin chain: plugins act in order, each
//! may edit the request, and the first one that answers ends the chain.
use vstd::prelude::*;

use crate::header_modifier::{
    all_names_valid, all_sets_valid, edited, removes_of, sets_of, HeaderModifierLayer, SgFilterHeaderModifier,
    SgFilterHeaderModifierKind,
};
use crate::plugin::{SgPluginConfig, SgPluginKind, SgPluginRepository, SgPluginSpec};
use crate::modify_uri::target_text;
use crate::redirect::{pick, RedirectFilter, FOUND};
use crate::request::SgUri;
use crate::text::opt_view;
use vstd::utf8::encode_utf8;
use crate::maintenance::{maintenance_answer, maintenance_response, SgFilterMaintenance, SgTimeOfDay};
use crate::rate_limit::{limit_step, too_many_requests, LimitState, RateLimitConfig};
use crate::reflect::Reflect;
use crate::request::{SgHeader, SgRequest};
use crate::response::{SgResponse, TOO_MANY_REQUESTS};

verus! {

/// A plugin whose request side the chain runs.
pub enum SgPlugin {
    Limit(RateLimitConfig),
    Maintenance(SgFilterMaintenance),
    HeaderModifier(HeaderModifierLayer),
    Redirect(RedirectFilter),
    /// A plugin with no request-side decision here.
    Passive,
}

/// Why a plugin could not be built.
pub enum SgPluginBuildError {
    /// No plugin is registered under this code.
    NotFound(String),
    /// The spec could not be read, or is not of the kind the code names.
    InvalidSpec(String),
    /// The header modifier names a header or value that `http` refuses.
    InvalidHeader(String),
}

/// The spec that the plugin kind `k` takes.
pub open spec fn kind_takes(k: SgPluginKind, s: SgPluginSpec) -> bool {
    match k {
        SgPluginKind::Limit => s is Limit,
        SgPluginKind::Maintenance => s is Maintenance,
        SgPluginKind::HeaderModifier => s is HeaderModifier,
        SgPluginKind::Redirect => s is Redirect,
        _ => s is Plain,
    }
}

/// Whether a header modifier's edits are all accepted by `http`.
pub open spec fn header_spec_ok(h: SgFilterHeaderModifier) -> bool {
    all_sets_valid(sets_of(h)) && all_names_valid(removes_of(h))
}

/// Whether `c` can be built with the plugins of registry `m`: its code is
/// registered, its spec is of that plugin's kind, and the plugin's own
/// check passes.
pub open spec fn plugin_builds(m: Map<Seq<char>, SgPluginKind>, c: SgPluginConfig) -> bool {
    &&& m.contains_key(c.code@)
    &&& kind_takes(m[c.code@], c.spec)
    &&& (c.spec matches SgPluginSpec::HeaderModifier(h) ==> header_spec_ok(h))
}

/// The edits of a header-modifier layer are those its spec names.
pub open spec fn layer_of(h: SgFilterHeaderModifier, l: HeaderModifierLayer) -> bool {
    let (e, other) = match h.kind {
        SgFilterHeaderModifierKind::Request => (l.request, l.response),
        SgFilterHeaderModifierKind::Response => (l.response, l.request),
    };
    &&& e.sets@ == sets_of(h)
    &&& e.remove@ == removes_of(h)
    &&& other.sets@.len() == 0
    &&& other.remove@.len() == 0
}

/// `p` is the plugin built from spec `s`.
pub open spec fn built_from(s: SgPluginSpec, p: SgPlugin) -> bool {
    match s {
        SgPluginSpec::Limit(c) => p == SgPlugin::Limit(c),
        SgPluginSpec::Maintenance(x) => p == SgPlugin::Maintenance(x),
        SgPluginSpec::HeaderModifier(h) => p matches SgPlugin::HeaderModifier(l) && layer_of(h, l),
        SgPluginSpec::Redirect(f) => p == SgPlugin::Redirect(f),
        _ => p is Passive,
    }
}

pub open spec fn all_build(m: Map<Seq<char>, SgPluginKind>, cs: Seq<SgPluginConfig>) -> bool {
    forall|i: int| 0 <= i < cs.len() ==> plugin_builds(m, #[trigger] cs[i])
}

pub open spec fn all_built(cs: Seq<SgPluginConfig>, ps: Seq<SgPlugin>) -> bool {
    &&& ps.len() == cs.len()
    &&& forall|i: int| 0 <= i < cs.len() ==> built_from(#[trigger] cs[i].spec, ps[i])
}

/// Builds a plugin through the registry: fails exactly when its code is
/// not registered, its spec is unreadable or of another kind, or the
/// plugin's own check refuses it.
pub fn build_plugin(repo: &SgPluginRepository, c: SgPluginConfig) -> (r: Result<SgPlugin, SgPluginBuildError>)
    requires
        repo.wf(),
    ensures
        r.is_ok() == plugin_builds(repo@, c),
        r matches Ok(p) ==> built_from(c.spec, p),
        !repo@.contains_key(c.code@) ==> (r matches Err(SgPluginBuildError::NotFound(code)) && code@ == c.code@),
{
    let kind = match repo.get(c.code.as_str()) {
        Some(k) => k,
        None => return Err(SgPluginBuildError::NotFound(c.code)),
    };
    let SgPluginConfig { code, spec } = c;
    match spec {
        SgPluginSpec::Limit(x) => if kind == SgPluginKind::Limit {
            Ok(SgPlugin::Limit(x))
        } else {
            Err(SgPluginBuildError::InvalidSpec(code))
        },
        SgPluginSpec::Maintenance(x) => if kind == SgPluginKind::Maintenance {
            Ok(SgPlugin::Maintenance(x))
        } else {
            Err(SgPluginBuildError::InvalidSpec(code))
        },
        SgPluginSpec::Redirect(x) => if kind == SgPluginKind::Redirect {
            Ok(SgPlugin::Redirect(x))
        } else {
            Err(SgPluginBuildError::InvalidSpec(code))
        },
        SgPluginSpec::HeaderModifier(h) => if kind == SgPluginKind::HeaderModifier {
            match h.make_layer() {
                Ok(l) => Ok(SgPlugin::HeaderModifier(l)),
                Err(_) => Err(SgPluginBuildError::InvalidHeader(code)),
            }
        } else {
            Err(SgPluginBuildError::InvalidSpec(code))
        },
        SgPluginSpec::Plain => match kind {
            SgPluginKind::Limit | SgPluginKind::Maintenance | SgPluginKind::HeaderModifier | SgPluginKind::Redirect => Err(
                SgPluginBuildError::InvalidSpec(code),
            ),
            _ => Ok(SgPlugin::Passive),
        },
        SgPluginSpec::Unreadable => Err(SgPluginBuildError::InvalidSpec(code)),
    }
}

/// Builds every plugin of `cs`, in order; fails when one cannot be built.
pub fn build_plugins(repo: &SgPluginRepository, cs: Vec<SgPluginConfig>) -> (r: Result<Vec<SgPlugin>, SgPluginBuildError>)
    requires
        repo.wf(),
    ensures
        r.is_ok() == all_build(repo@, cs@),
        r matches Ok(ps) ==> all_built(cs@, ps@),
{
    let ghost orig = cs@;
    let mut rest = cs;
    let n = rest.len();
    let mut out: Vec<SgPlugin> = Vec::new();
    let mut i: usize = 0;
    while i < n
        invariant
            repo.wf(),
            orig == cs@,
            n == orig.len(),
            i <= n,
            rest@ == orig.subrange(i as int, n as int),
            out@.len() == i,
            forall|j: int| 0 <= j < i ==> plugin_builds(repo@, #[trigger] orig[j]),
            forall|j: int| 0 <= j < i ==> built_from(#[trigger] orig[j].spec, out@[j]),
        decreases n - i,
    {
        let c = rest.remove(0);
        assert(c == orig[i as int]);
        match build_plugin(repo, c) {
            Ok(p) => out.push(p),
            Err(e) => {
                assert(!plugin_builds(repo@, orig[i as int]));
                return Err(e);
            },
        }
        i += 1;
        assert(rest@ =~= orig.subrange(i as int, n as int));
    }
    Ok(out)
}

/// What the rate limit decides at `now`: whether the request passes, and
/// the state after it.
pub open spec fn limit_result(c: RateLimitConfig, s: LimitState, now: u64) -> (bool, LimitState) {
    match c.max_request_number {
        None => (true, s),
        Some(max) => limit_step(max, c.window(), s, now),
    }
}

/// Whether plugin `p` answers the request itself.
pub open spec fn plugin_stops(p: SgPlugin, limit: LimitState, now: u64, time: SgTimeOfDay) -> bool {
    match p {
        SgPlugin::Limit(c) => !limit_result(c, limit, now).0,
        SgPlugin::Maintenance(m) => m.on_at(time),
        SgPlugin::Redirect(_) => true,
        _ => false,
    }
}

/// The headers after plugin `p`.
pub open spec fn plugin_headers(p: SgPlugin, hs: Seq<SgHeader>) -> Seq<SgHeader> {
    match p {
        SgPlugin::HeaderModifier(l) => edited(hs, l.request),
        _ => hs,
    }
}

/// The response headers after plugin `p`.
pub open spec fn plugin_response_headers(p: SgPlugin, hs: Seq<SgHeader>) -> Seq<SgHeader> {
    match p {
        SgPlugin::HeaderModifier(l) => edited(hs, l.response),
        _ => hs,
    }
}

/// The response headers once plugins `i`, ..., `upto - 1` have seen the
/// response, the last of them first.
pub open spec fn unwind_headers(ps: Seq<SgPlugin>, i: int, upto: int, hs: Seq<SgHeader>) -> Seq<SgHeader>
    decreases upto - i,
{
    if i < 0 || i >= upto {
        hs
    } else {
        plugin_response_headers(ps[i], unwind_headers(ps, i + 1, upto, hs))
    }
}

/// The rate-limit state after plugin `p`.
pub open spec fn plugin_limit(p: SgPlugin, limit: LimitState, now: u64) -> LimitState {
    match p {
        SgPlugin::Limit(c) => limit_result(c, limit, now).1,
        _ => limit,
    }
}

/// Headers and rate-limit state after the first `k` plugins.
pub open spec fn chain_state(
    ps: Seq<SgPlugin>,
    k: int,
    hs: Seq<SgHeader>,
    limit: LimitState,
    now: u64,
) -> (Seq<SgHeader>, LimitState)
    decreases k,
{
    if k <= 0 {
        (hs, limit)
    } else {
        let prev = chain_state(ps, k - 1, hs, limit, now);
        (plugin_headers(ps[k - 1], prev.0), plugin_limit(ps[k - 1], prev.1, now))
    }
}

/// `resp` is the redirect that `f` answers a request for `uri` with.
pub open spec fn redirect_answer(f: RedirectFilter, uri: SgUri, resp: SgResponse) -> bool {
    &&& resp.status == match f.status_code {
        Some(c) => c,
        None => FOUND,
    }
    &&& resp.headers@.len() == 1
    &&& resp.headers@[0].name@ == "location"@
    &&& resp.headers@[0].value@ == target_text(
        opt_view(pick(f.scheme, uri.scheme)),
        opt_view(pick(f.hostname, uri.host)),
        pick(f.port, uri.port),
        f.new_path(uri.path@, None),
        opt_view(uri.query),
    )
}

/// `resp` is the answer of plugin `p`, which stopped a request for `uri`
/// whose headers were then `hs`.
pub open spec fn stop_answer(p: SgPlugin, uri: SgUri, hs: Seq<SgHeader>, resp: SgResponse) -> bool {
    match p {
        SgPlugin::Limit(_) => resp.status == TOO_MANY_REQUESTS && resp.body@.content == encode_utf8(
            "[SG.Filter.Limit] too many requests"@,
        ),
        SgPlugin::Maintenance(m) => maintenance_answer(m, hs, resp),
        SgPlugin::Redirect(f) => redirect_answer(f, uri, resp),
        _ => false,
    }
}

/// The request side of a chain at time `now` (`time` of day). Returns the
/// index of the plugin that answered and its answer, or `None` when every
/// plugin let the request through; the request's headers and `limit` end
/// as the plugins left them.
pub fn run_request_plugins(
    plugins: &Vec<SgPlugin>,
    req: &mut SgRequest,
    limit: &mut LimitState,
    now: u64,
    time: SgTimeOfDay,
    reflect: &Reflect,
) -> (r: Option<(usize, SgResponse)>)
    requires
        reflect.wf(),
    ensures
        final(req).method == old(req).method,
        final(req).uri == old(req).uri,
        match r {
            Some((k, resp)) => {
                &&& k < plugins@.len()
                &&& resp.wf()
                &&& resp.body@.extensions == reflect@
                &&& forall|j: int|
                    0 <= j < k ==> !plugin_stops(
                        #[trigger] plugins@[j],
                        chain_state(plugins@, j, old(req).headers@, *old(limit), now).1,
                        now,
                        time,
                    )
                &&& plugin_stops(
                    plugins@[k as int],
                    chain_state(plugins@, k as int, old(req).headers@, *old(limit), now).1,
                    now,
                    time,
                )
                &&& stop_answer(
                    plugins@[k as int],
                    old(req).uri,
                    chain_state(plugins@, k as int, old(req).headers@, *old(limit), now).0,
                    resp,
                )
                &&& (final(req).headers@, *final(limit)) == chain_state(
                    plugins@,
                    k + 1,
                    old(req).headers@,
                    *old(limit),
                    now,
                )
            },
            None => {
                &&& forall|j: int|
                    0 <= j < plugins@.len() ==> !plugin_stops(
                        #[trigger] plugins@[j],
                        chain_state(plugins@, j, old(req).headers@, *old(limit), now).1,
                        now,
                        time,
                    )
                &&& (final(req).headers@, *final(limit)) == chain_state(
                    plugins@,
                    plugins@.len() as int,
                    old(req).headers@,
                    *old(limit),
                    now,
                )
            },
        },
{
    let ghost hs0 = req.headers@;
    let ghost l0 = *limit;
    let n = plugins.len();
    let mut i: usize = 0;
    while i < n
        invariant
            n == plugins@.len(),
            i <= n,
            reflect.wf(),
            req.method == old(req).method,
            req.uri == old(req).uri,
            hs0 == old(req).headers@,
            l0 == *old(limit),
            (req.headers@, *limit) == chain_state(plugins@, i as int, hs0, l0, now),
            forall|j: int|
                0 <= j < i ==> !plugin_stops(
                    #[trigger] plugins@[j],
                    chain_state(plugins@, j, hs0, l0, now).1,
                    now,
                    time,
                ),
        decreases n - i,
    {
        match &plugins[i] {
            SgPlugin::Limit(c) => {
                let (pass, next) = c.check(*limit, now);
                *limit = next;
                if !pass {
                    return Some((i, too_many_requests(reflect.duplicate())));
                }
            },
            SgPlugin::Maintenance(m) => {
                let reply = m.req_filter(req, time);
                match maintenance_response(&reply, reflect.duplicate()) {
                    Some(resp) => {
                        assert(!(reply is Pass));
                        assert(m.on_at(time));
                        assert(chain_state(plugins@, i + 1, hs0, l0, now) == chain_state(plugins@, i as int, hs0, l0, now));
                        return Some((i, resp));
                    },
                    None => {},
                }
            },
            SgPlugin::HeaderModifier(l) => {
                let hs = l.request.apply(&req.headers);
                req.headers = hs;
            },
            SgPlugin::Redirect(f) => {
                let resp = f.on_req(&req.uri, &None, reflect.duplicate());
                assert(chain_state(plugins@, i + 1, hs0, l0, now) == chain_state(plugins@, i as int, hs0, l0, now));
                return Some((i, resp));
            },
            SgPlugin::Passive => {},
        }
        i += 1;
    }
    None
}

/// The response side of the first `upto` plugins: they see the response in
/// the reverse of the order in which they saw the request.
pub fn run_response_plugins(plugins: &Vec<SgPlugin>, upto: usize, resp: &mut SgResponse)
    requires
        upto <= plugins@.len(),
    ensures
        final(resp).status == old(resp).status,
        final(resp).body == old(resp).body,
        final(resp).headers@ == unwind_headers(plugins@, 0, upto as int, old(resp).headers@),
{
    let ghost hs0 = resp.headers@;
    let mut i: usize = upto;
    while i > 0
        invariant
            i <= upto <= plugins@.len(),
            resp.status == old(resp).status,
            resp.body == old(resp).body,
            hs0 == old(resp).headers@,
            resp.headers@ == unwind_headers(plugins@, i as int, upto as int, hs0),
        decreases i,
    {
        i -= 1;
        match &plugins[i] {
            SgPlugin::HeaderModifier(l) => {
                let hs = l.response.apply(&resp.headers);
                resp.headers = hs;
            },
            _ => {},
        }
    }
}

} // verus!
