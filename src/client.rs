//! What the upstream side decides: whether a request is a WebSocket upgrade,
//! and which response comes back for each outcome of the upstream call.
use vstd::prelude::*;
use vstd::string::*;
use vstd::utf8::encode_utf8;

use crate::body::{BodyView, SgBody};
use crate::reflect::Reflect;
use crate::request::{header_value, SgRequest};
use crate::response::{SgResponse, GATEWAY_TIMEOUT, INTERNAL_SERVER_ERROR, NOT_IMPLEMENTED};
use crate::text::{eq_ignore_case, str_eq_ignore_ascii_case};

verus! {

pub open spec fn upgrade_header() -> Seq<char> {
    seq!['u', 'p', 'g', 'r', 'a', 'd', 'e']
}

pub open spec fn websocket_word() -> Seq<char> {
    seq!['w', 'e', 'b', 's', 'o', 'c', 'k', 'e', 't']
}

/// How the upstream side handles a request.
pub enum UpstreamKind {
    /// A plain request, forwarded as it is.
    Forward,
    /// A WebSocket upgrade: both bodies are dumped and the bridge starts
    /// after the upstream's `101`.
    WebSocket,
    /// An upgrade to another protocol, answered with `501`.
    Unsupported,
}

pub open spec fn upstream_kind_of(req: SgRequest) -> UpstreamKind {
    match header_value(req.headers@, upgrade_header()) {
        None => UpstreamKind::Forward,
        Some(v) => if eq_ignore_case(v, websocket_word()) {
            UpstreamKind::WebSocket
        } else {
            UpstreamKind::Unsupported
        },
    }
}

/// Classifies a request by its `Upgrade` header.
pub fn upstream_kind(req: &SgRequest) -> (r: UpstreamKind)
    ensures
        r == upstream_kind_of(*req),
{
    proof {
        reveal_strlit("upgrade");
        reveal_strlit("websocket");
        assert("upgrade"@ =~= upgrade_header());
        assert("websocket"@ =~= websocket_word());
    }
    match req.header("upgrade") {
        None => UpstreamKind::Forward,
        Some(v) => if str_eq_ignore_ascii_case(v.as_str(), "websocket") {
            UpstreamKind::WebSocket
        } else {
            UpstreamKind::Unsupported
        },
    }
}

/// The `501` for an upgrade to something other than WebSocket.
pub fn unsupported_upgrade(reflect: Reflect) -> (r: SgResponse)
    requires
        reflect.wf(),
    ensures
        r.wf(),
        r.status == NOT_IMPLEMENTED,
        r.body@.content == encode_utf8("[Sg.Websocket] unsupported upgrade protocol"@),
        r.body@.extensions == reflect@,
{
    SgResponse::with_code_message(NOT_IMPLEMENTED, "[Sg.Websocket] unsupported upgrade protocol", reflect)
}

/// The response to hand back once the upstream call ended: the upstream's
/// own response carrying the request's extensions, or a `500` whose body is
/// the error's text.
pub fn upstream_response(outcome: Result<SgResponse, String>, reflect: Reflect) -> (r: SgResponse)
    requires
        reflect.wf(),
        outcome matches Ok(resp) ==> resp.wf(),
    ensures
        r.wf(),
        r.body@.extensions == reflect@,
        match outcome {
            Ok(resp) => r.status == resp.status && r.headers == resp.headers && r.body@ == (BodyView {
                extensions: reflect@,
                ..resp.body@
            }),
            Err(e) => r.status == INTERNAL_SERVER_ERROR && r.body@.content == encode_utf8(e@),
        },
{
    match outcome {
        Ok(resp) => SgResponse { status: resp.status, headers: resp.headers, body: resp.body.with_reflect(reflect) },
        Err(e) => SgResponse::with_code_message(INTERNAL_SERVER_ERROR, e.as_str(), reflect),
    }
}

/// The response when a time limit applies: `None` means the limit expired
/// first, which gives `504 request timeout`.
pub fn timed_response(outcome: Option<SgResponse>, reflect: Reflect) -> (r: SgResponse)
    requires
        reflect.wf(),
        outcome matches Some(resp) ==> resp.wf(),
    ensures
        r.wf(),
        match outcome {
            Some(resp) => r == resp,
            None => r.status == GATEWAY_TIMEOUT && r.body@.content == encode_utf8("request timeout"@)
                && r.body@.extensions == reflect@,
        },
{
    match outcome {
        Some(resp) => resp,
        None => SgResponse::with_code_message(GATEWAY_TIMEOUT, "request timeout", reflect),
    }
}

} // verus!
