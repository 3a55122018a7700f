//! The redirect plugin: answers with the request's target rewritten as
//! configured, in a `Location` header.
use vstd::prelude::*;

use crate::modify_uri::{replace_prefix, replace_prefix_match, target_text, uri_to_string};
use crate::reflect::Reflect;
use crate::request::{SgHeader, SgUri};
use crate::response::SgResponse;
use crate::text::{clone_opt, opt_view};

verus! {

#[derive(Clone, Copy, PartialEq, Eq, Structural, Debug)]
pub enum SgHttpPathModifierType {
    /// The whole path becomes the value.
    ReplaceFullPath,
    /// The matched prefix of the path becomes the value.
    ReplacePrefixMatch,
}

pub struct SgHttpPathModifier {
    pub kind: SgHttpPathModifierType,
    pub value: String,
}

pub struct RedirectFilter {
    /// Scheme of the location; the request's when unset.
    pub scheme: Option<String>,
    /// Host of the location; the request's when unset.
    pub hostname: Option<String>,
    /// How the path changes; kept when unset.
    pub path: Option<SgHttpPathModifier>,
    /// Port of the location; the request's when unset.
    pub port: Option<u16>,
    /// Status of the response; 302 when unset.
    pub status_code: Option<u16>,
}

pub const FOUND: u16 = 302;

pub open spec fn pick<T>(o: Option<T>, d: Option<T>) -> Option<T> {
    match o {
        Some(x) => Some(x),
        None => d,
    }
}

impl RedirectFilter {
    /// The path of the location, given the prefix the rule matched.
    pub open spec fn new_path(&self, path: Seq<char>, matched: Option<Seq<char>>) -> Seq<char> {
        match self.path {
            None => path,
            Some(m) => match m.kind {
                SgHttpPathModifierType::ReplaceFullPath => m.value@,
                SgHttpPathModifierType::ReplacePrefixMatch => match matched {
                    Some(p) => replace_prefix(path, p, m.value@),
                    None => path,
                },
            },
        }
    }

    /// Where the request is sent.
    pub fn location(&self, uri: &SgUri, matched: &Option<String>) -> (r: SgUri)
        ensures
            r.scheme == pick(self.scheme, uri.scheme),
            r.host == pick(self.hostname, uri.host),
            r.port == pick(self.port, uri.port),
            r.path@ == self.new_path(
                uri.path@,
                opt_view(*matched),
            ),
            r.query == uri.query,
    {
        let scheme = match &self.scheme {
            Some(s) => Some(s.clone()),
            None => clone_opt(&uri.scheme),
        };
        let host = match &self.hostname {
            Some(h) => Some(h.clone()),
            None => clone_opt(&uri.host),
        };
        let port = match self.port {
            Some(p) => Some(p),
            None => uri.port,
        };
        let path = match &self.path {
            None => uri.path.clone(),
            Some(m) => match m.kind {
                SgHttpPathModifierType::ReplaceFullPath => m.value.clone(),
                SgHttpPathModifierType::ReplacePrefixMatch => match matched {
                    Some(p) => replace_prefix_match(uri.path.as_str(), p.as_str(), m.value.as_str()),
                    None => uri.path.clone(),
                },
            },
        };
        SgUri { scheme, host, port, path, query: clone_opt(&uri.query) }
    }

    /// The redirect response: the configured status (302 by default) and
    /// the location as its `Location` header.
    pub fn on_req(&self, uri: &SgUri, matched: &Option<String>, reflect: Reflect) -> (r: SgResponse)
        requires
            reflect.wf(),
        ensures
            r.wf(),
            r.status == match self.status_code {
                Some(c) => c,
                None => FOUND,
            },
            r.headers@.len() == 1,
            r.headers@[0].name@ == "location"@,
            r.headers@[0].value@ == target_text(
                opt_view(pick(self.scheme, uri.scheme)),
                opt_view(pick(self.hostname, uri.host)),
                pick(self.port, uri.port),
                self.new_path(uri.path@, opt_view(*matched)),
                opt_view(uri.query),
            ),
            r.body@.extensions == reflect@,
    {
        let loc = self.location(uri, matched);
        let text = uri_to_string(&loc);
        let status = match self.status_code {
            Some(c) => c,
            None => FOUND,
        };
        let mut resp = SgResponse::with_code_message(status, "", reflect);
        resp.headers.push(SgHeader { name: String::from_str("location"), value: text });
        resp
    }
}

} // verus!
