//! Rewriting request targets: replacing the path, composing rewrites, and
//! writing a target out as text.
use vstd::prelude::*;

use crate::match_request::{path_has_prefix, trim_trailing_slash};
use crate::request::SgUri;
use crate::text::{clone_opt, decimal, decimal_string, opt_view};

verus! {

/// Replaces the whole path and keeps the query.
pub struct ReplaceFullPath {
    pub replace: String,
}

/// A rewrite of values of type `T`.
pub trait Mapper<T>: Sized {
    /// The rewritten value.
    spec fn spec_map(&self, value: T) -> T;

    fn map(&self, value: T) -> (r: T)
        ensures
            r == self.spec_map(value),
    ;
}

impl Mapper<SgUri> for ReplaceFullPath {
    /// The target with the whole path replaced; the query and the origin
    /// are kept.
    open spec fn spec_map(&self, uri: SgUri) -> SgUri {
        SgUri { path: self.replace, ..uri }
    }

    fn map(&self, uri: SgUri) -> (r: SgUri) {
        SgUri { path: self.replace.clone(), ..uri }
    }
}

/// A rewrite applied only where a predicate holds.
pub struct When<P, M> {
    pub map: M,
    pub predicate: P,
}

impl<P, M> When<P, M> {
    pub fn new(predicate: P, map: M) -> (r: Self)
        ensures
            r.predicate == predicate,
            r.map == map,
    {
        When { map, predicate }
    }

    /// Rewrites `value` where the predicate holds of it, and keeps it
    /// elsewhere.
    pub fn map<T>(&self, value: T) -> (r: T) where P: Fn(&T) -> bool, M: Mapper<T>
        requires
            self.predicate.requires((&value,)),
        ensures
            exists|b: bool|
                self.predicate.ensures((&value,), b) && r == (if b {
                    self.map.spec_map(value)
                } else {
                    value
                }),
    {
        let b = (self.predicate)(&value);
        if b {
            self.map.map(value)
        } else {
            value
        }
    }
}

/// One rewrite followed by another.
pub struct Then<M, T> {
    pub first: M,
    pub second: T,
}

impl<T, M: Mapper<T>, N: Mapper<T>> Mapper<T> for Then<M, N> {
    /// The first rewrite, then the second.
    open spec fn spec_map(&self, value: T) -> T {
        self.second.spec_map(self.first.spec_map(value))
    }

    fn map(&self, value: T) -> (r: T) {
        let v = self.first.map(value);
        self.second.map(v)
    }
}

impl<M, T> Then<M, T> {
    pub fn new(first: M, second: T) -> (r: Self)
        ensures
            r.first == first,
            r.second == second,
    {
        Then { first, second }
    }
}

/// A rewrite given by a function.
pub struct MapFn<F> {
    pub f: F,
}

/// The path after replacing the matched prefix `matched` by `replace`: the
/// rest of the path follows the replacement; a path without that prefix is
/// kept.
pub open spec fn replace_prefix(path: Seq<char>, matched: Seq<char>, replace: Seq<char>) -> Seq<char> {
    if path_has_prefix(matched, path) {
        replace + path.subrange(trim_trailing_slash(matched).len() as int, path.len() as int)
    } else {
        path
    }
}

pub fn replace_prefix_match(path: &str, matched: &str, replace: &str) -> (r: String)
    ensures
        r@ == replace_prefix(path@, matched@, replace@),
{
    let p = crate::match_request::SgHttpPathMatch::Prefix(String::from_str(matched));
    if p.match_path(path) {
        let n = matched.unicode_len();
        let m = if n > 0 && matched.get_char(n - 1) == '/' {
            n - 1
        } else {
            n
        };
        let mut out = String::from_str(replace);
        let len = path.unicode_len();
        out.append(path.substring_char(m, len));
        out
    } else {
        String::from_str(path)
    }
}

/// The text of a target: `scheme://host:port` when it has a host, then the
/// path, then `?query` when it has one.
pub open spec fn scheme_part(scheme: Option<Seq<char>>) -> Seq<char> {
    match scheme {
        Some(s) => s + "://"@,
        None => Seq::<char>::empty(),
    }
}

pub open spec fn port_part(port: Option<u16>) -> Seq<char> {
    match port {
        Some(p) => ":"@ + decimal(p as nat),
        None => Seq::<char>::empty(),
    }
}

pub open spec fn query_part(query: Option<Seq<char>>) -> Seq<char> {
    match query {
        Some(q) => "?"@ + q,
        None => Seq::<char>::empty(),
    }
}

/// The text of a target given by its parts: `scheme://host:port` when it
/// has a host, then the path, then `?query` when it has one.
pub open spec fn target_text(
    scheme: Option<Seq<char>>,
    host: Option<Seq<char>>,
    port: Option<u16>,
    path: Seq<char>,
    query: Option<Seq<char>>,
) -> Seq<char> {
    let origin = match host {
        Some(h) => scheme_part(scheme) + h + port_part(port),
        None => Seq::<char>::empty(),
    };
    origin + path + query_part(query)
}

pub open spec fn uri_text(u: SgUri) -> Seq<char> {
    target_text(opt_view(u.scheme), opt_view(u.host), u.port, u.path@, opt_view(u.query))
}

pub fn uri_to_string(u: &SgUri) -> (r: String)
    ensures
        r@ == uri_text(*u),
{
    let mut out = String::new();
    if let Some(h) = &u.host {
        if let Some(s) = &u.scheme {
            out.append(s.as_str());
            out.append("://");
        }
        out.append(h.as_str());
        if let Some(p) = u.port {
            out.append(":");
            let d = decimal_string(p as u64);
            out.append(d.as_str());
        }
    }
    out.append(u.path.as_str());
    if let Some(q) = &u.query {
        out.append("?");
        out.append(q.as_str());
    }
    proof {
        reveal_strlit("://");
        reveal_strlit(":");
        reveal_strlit("?");
    }
    assert(out@ =~= uri_text(*u));
    out
}

} // verus!
