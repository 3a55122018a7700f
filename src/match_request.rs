//! Request predicates: path, header, query and method matchers, and the
//! rule match that ANDs them.
use vstd::prelude::*;
use vstd::string::*;

use crate::pattern::{regex_is_match, SgRegex};
use crate::request::{header_value, SgRequest};
use crate::text::{
    before_char, eq_ignore_case, find_char, first_index_of, has_prefix, is_prefix,
    lemma_first_index_of, str_eq, str_eq_ignore_ascii_case,
};

verus! {

/// How a request path is compared.
pub enum SgHttpPathMatch {
    /// The path equals the value, case included.
    Exact(String),
    /// The path starts with the value, element by element on `/`; one
    /// trailing `/` of the value is ignored.
    Prefix(String),
    /// The regular expression matches the path.
    Regular(SgRegex),
}

pub enum SgHttpHeaderMatchPolicy {
    Exact(String),
    Regular(SgRegex),
}

/// A header matcher; the name compares without regard to ASCII case.
pub struct SgHttpHeaderMatch {
    pub name: String,
    pub policy: SgHttpHeaderMatchPolicy,
}

pub enum SgHttpQueryMatchPolicy {
    Exact(String),
    Regular(SgRegex),
}

/// A query parameter matcher; the name compares exactly.
pub struct SgHttpQueryMatch {
    pub name: String,
    pub policy: SgHttpQueryMatchPolicy,
}

/// A method matcher, compared without regard to ASCII case.
pub struct SgHttpMethodMatch(pub String);

/// A rule match: every present criterion must accept; within a list, one
/// entry accepting is enough; an absent criterion accepts everything.
pub struct SgHttpRouteMatch {
    pub path: Option<SgHttpPathMatch>,
    pub header: Option<Vec<SgHttpHeaderMatch>>,
    pub query: Option<Vec<SgHttpQueryMatch>>,
    pub method: Option<Vec<SgHttpMethodMatch>>,
}

/// The prefix with one trailing `/` removed.
pub open spec fn trim_trailing_slash(p: Seq<char>) -> Seq<char> {
    if p.len() > 0 && p.last() == '/' {
        p.drop_last()
    } else {
        p
    }
}

/// Element-wise prefix match on `/`-separated paths.
pub open spec fn path_has_prefix(prefix: Seq<char>, path: Seq<char>) -> bool {
    let m = trim_trailing_slash(prefix);
    is_prefix(m, path) && (path.len() == m.len() || path[m.len() as int] == '/')
}

pub open spec fn path_matches(m: SgHttpPathMatch, path: Seq<char>) -> bool {
    match m {
        SgHttpPathMatch::Exact(v) => path == v@,
        SgHttpPathMatch::Prefix(v) => path_has_prefix(v@, path),
        SgHttpPathMatch::Regular(re) => regex_is_match(re@, path),
    }
}

pub open spec fn header_matches(m: SgHttpHeaderMatch, hs: Seq<crate::request::SgHeader>) -> bool {
    match m.policy {
        SgHttpHeaderMatchPolicy::Exact(v) => header_value(hs, m.name@) == Some(v@),
        SgHttpHeaderMatchPolicy::Regular(re) => exists|i: int|
            0 <= i < hs.len() && eq_ignore_case(#[trigger] hs[i].name@, m.name@) && regex_is_match(
                re@,
                hs[i].value@,
            ),
    }
}

/// `i` is where a `&`-separated segment of the query starts.
pub open spec fn is_segment_start(q: Seq<char>, i: int) -> bool {
    0 <= i <= q.len() && (i == 0 || q[i - 1] == '&')
}

/// The segment of the query that starts at `i`.
pub open spec fn segment_at(q: Seq<char>, i: int) -> Seq<char> {
    before_char(q.subrange(i, q.len() as int), '&')
}

/// The key of a segment: what comes before its first `=`.
pub open spec fn segment_key(seg: Seq<char>) -> Seq<char> {
    before_char(seg, '=')
}

/// The value of a segment: what follows its first `=`, if it has one.
pub open spec fn segment_value(seg: Seq<char>) -> Option<Seq<char>> {
    let k = first_index_of(seg, '=');
    if k < seg.len() {
        Some(seg.subrange(k + 1, seg.len() as int))
    } else {
        None
    }
}

/// Whether matcher `m` takes the query segment `seg`.
pub open spec fn segment_accepted(m: SgHttpQueryMatch, seg: Seq<char>) -> bool {
    segment_key(seg) == m.name@ && match segment_value(seg) {
        Some(v) => match m.policy {
            SgHttpQueryMatchPolicy::Exact(x) => v == x@,
            SgHttpQueryMatchPolicy::Regular(re) => regex_is_match(re@, v),
        },
        None => false,
    }
}

/// Some `&`-separated segment of the query has the matcher's name as its key
/// and a value that the policy accepts.
pub open spec fn query_matches(m: SgHttpQueryMatch, query: Option<Seq<char>>) -> bool {
    match query {
        None => false,
        Some(q) => query_text_matches(m, q),
    }
}

pub open spec fn query_text_matches(m: SgHttpQueryMatch, q: Seq<char>) -> bool {
    exists|i: int| is_segment_start(q, i) && segment_accepted(m, #[trigger] segment_at(q, i))
}

pub open spec fn method_matches(m: SgHttpMethodMatch, method: Seq<char>) -> bool {
    eq_ignore_case(method, m.0@)
}

pub open spec fn opt_query(q: Option<String>) -> Option<Seq<char>> {
    match q {
        Some(s) => Some(s@),
        None => None,
    }
}

pub open spec fn any_header_matches(v: Seq<SgHttpHeaderMatch>, req: SgRequest) -> bool {
    exists|i: int| 0 <= i < v.len() && header_matches(#[trigger] v[i], req.headers@)
}

pub open spec fn any_query_matches(v: Seq<SgHttpQueryMatch>, req: SgRequest) -> bool {
    exists|i: int| 0 <= i < v.len() && query_matches(#[trigger] v[i], opt_query(req.uri.query))
}

pub open spec fn any_method_matches(v: Seq<SgHttpMethodMatch>, req: SgRequest) -> bool {
    exists|i: int| 0 <= i < v.len() && method_matches(#[trigger] v[i], req.method@)
}

/// Whether the path criterion accepts (an absent one always does).
pub open spec fn path_ok(m: Option<SgHttpPathMatch>, req: SgRequest) -> bool {
    match m {
        None => true,
        Some(p) => path_matches(p, req.uri.path@),
    }
}

pub open spec fn header_ok(m: Option<Vec<SgHttpHeaderMatch>>, req: SgRequest) -> bool {
    match m {
        None => true,
        Some(v) => any_header_matches(v@, req),
    }
}

pub open spec fn query_ok(m: Option<Vec<SgHttpQueryMatch>>, req: SgRequest) -> bool {
    match m {
        None => true,
        Some(v) => any_query_matches(v@, req),
    }
}

pub open spec fn method_ok(m: Option<Vec<SgHttpMethodMatch>>, req: SgRequest) -> bool {
    match m {
        None => true,
        Some(v) => any_method_matches(v@, req),
    }
}

/// The rule match accepts `req`: the AND of the four criteria.
pub open spec fn route_match_accepts(m: SgHttpRouteMatch, req: SgRequest) -> bool {
    &&& path_ok(m.path, req)
    &&& header_ok(m.header, req)
    &&& query_ok(m.query, req)
    &&& method_ok(m.method, req)
}

pub open spec fn any_route_match(v: Seq<SgHttpRouteMatch>, req: SgRequest) -> bool {
    exists|i: int| 0 <= i < v.len() && route_match_accepts(#[trigger] v[i], req)
}

/// The matches of a rule: absent, they accept every request; present, one
/// of them must accept.
pub open spec fn rule_accepts(m: Option<Vec<SgHttpRouteMatch>>, req: SgRequest) -> bool {
    match m {
        None => true,
        Some(v) => any_route_match(v@, req),
    }
}

impl SgHttpPathMatch {
    pub fn match_path(&self, path: &str) -> (r: bool)
        ensures
            r == path_matches(*self, path@),
    {
        match self {
            SgHttpPathMatch::Exact(v) => str_eq(path, v.as_str()),
            SgHttpPathMatch::Prefix(v) => prefix_match(v.as_str(), path),
            SgHttpPathMatch::Regular(re) => re.is_match(path),
        }
    }

    pub fn match_request(&self, req: &SgRequest) -> (r: bool)
        ensures
            r == path_matches(*self, req.uri.path@),
    {
        self.match_path(req.uri.path.as_str())
    }
}

fn prefix_match(prefix: &str, path: &str) -> (r: bool)
    ensures
        r == path_has_prefix(prefix@, path@),
{
    let n = prefix.unicode_len();
    let m = if n > 0 && prefix.get_char(n - 1) == '/' {
        n - 1
    } else {
        n
    };
    let trimmed = prefix.substring_char(0, m);
    assert(trimmed@ =~= trim_trailing_slash(prefix@));
    if !has_prefix(path, trimmed) {
        return false;
    }
    let len = path.unicode_len();
    len == m || path.get_char(m) == '/'
}

impl SgHttpHeaderMatch {
    pub fn match_request(&self, req: &SgRequest) -> (r: bool)
        ensures
            r == header_matches(*self, req.headers@),
    {
        match &self.policy {
            SgHttpHeaderMatchPolicy::Exact(v) => match req.header(self.name.as_str()) {
                Some(h) => str_eq(h.as_str(), v.as_str()),
                None => false,
            },
            SgHttpHeaderMatchPolicy::Regular(re) => {
                let n = req.headers.len();
                let mut i: usize = 0;
                while i < n
                    invariant
                        self.policy == SgHttpHeaderMatchPolicy::Regular(*re),
                        n == req.headers@.len(),
                        i <= n,
                        forall|j: int|
                            0 <= j < i ==> !(eq_ignore_case(#[trigger] req.headers@[j].name@, self.name@)
                                && regex_is_match(re@, req.headers@[j].value@)),
                    decreases n - i,
                {
                    let h = &req.headers[i];
                    if str_eq_ignore_ascii_case(h.name.as_str(), self.name.as_str())
                        && re.is_match(h.value.as_str()) {
                        assert(eq_ignore_case(req.headers@[i as int].name@, self.name@));
                        assert(regex_is_match(re@, req.headers@[i as int].value@));
                        assert(exists|k: int| 0 <= k < req.headers@.len() && eq_ignore_case(#[trigger] req.headers@[k].name@, self.name@) && regex_is_match(
                re@,
                req.headers@[k].value@,
            ));
                        assert(header_matches(*self, req.headers@));
                        return true;
                    }
                    i += 1;
                }
                false
            },
        }
    }
}

/// The key and value of the segment of `q` that starts at `i`.
fn segment_parts(q: &str, i: usize) -> (r: (String, Option<String>))
    requires
        i <= q@.len(),
    ensures
        r.0@ == segment_key(segment_at(q@, i as int)),
        match r.1 {
            Some(v) => segment_value(segment_at(q@, i as int)) == Some(v@),
            None => segment_value(segment_at(q@, i as int)).is_none(),
        },
{
    let n = q.unicode_len();
    let rest = q.substring_char(i, n);
    let e = find_char(rest, '&');
    proof {
        lemma_first_index_of(rest@, '&');
    }
    let seg = rest.substring_char(0, e);
    assert(seg@ =~= segment_at(q@, i as int));
    let k = find_char(seg, '=');
    proof {
        lemma_first_index_of(seg@, '=');
    }
    let key = seg.substring_char(0, k).to_owned();
    let slen = seg.unicode_len();
    if k < slen {
        (key, Some(seg.substring_char(k + 1, slen).to_owned()))
    } else {
        (key, None)
    }
}

impl SgHttpQueryMatch {
    /// Whether a segment starts at `i` and this matcher takes it.
    fn accepts_at(&self, q: &str, i: usize) -> (r: bool)
        requires
            i <= q@.len(),
        ensures
            r == (is_segment_start(q@, i as int) && segment_accepted(*self, segment_at(q@, i as int))),
    {
        if i != 0 && q.get_char(i - 1) != '&' {
            return false;
        }
        let (key, value) = segment_parts(q, i);
        if !str_eq(key.as_str(), self.name.as_str()) {
            return false;
        }
        match value {
            Some(v) => match &self.policy {
                SgHttpQueryMatchPolicy::Exact(x) => str_eq(v.as_str(), x.as_str()),
                SgHttpQueryMatchPolicy::Regular(re) => re.is_match(v.as_str()),
            },
            None => false,
        }
    }

    pub fn match_query(&self, query: &Option<String>) -> (r: bool)
        ensures
            r == query_matches(*self, opt_query(*query)),
    {
        let q = match query {
            Some(q) => q.as_str(),
            None => return false,
        };
        let n = q.unicode_len();
        let mut i: usize = 0;
        while i < n
            invariant
                n == q@.len(),
                opt_query(*query) == Some(q@),
                i <= n,
                forall|j: int|
                    0 <= j < i && is_segment_start(q@, j) ==> !segment_accepted(
                        *self,
                        #[trigger] segment_at(q@, j),
                    ),
            decreases n - i,
        {
            if self.accepts_at(q, i) {
                assert(query_text_matches(*self, q@));
                return true;
            }
            i += 1;
        }
        if self.accepts_at(q, n) {
            assert(query_text_matches(*self, q@));
            return true;
        }
        false
    }

    pub fn match_request(&self, req: &SgRequest) -> (r: bool)
        ensures
            r == query_matches(*self, opt_query(req.uri.query)),
    {
        self.match_query(&req.uri.query)
    }
}

impl SgHttpMethodMatch {
    pub fn match_request(&self, req: &SgRequest) -> (r: bool)
        ensures
            r == method_matches(*self, req.method@),
    {
        str_eq_ignore_ascii_case(req.method.as_str(), self.0.as_str())
    }
}

} // verus!

verus! {

fn headers_ok(ms: &Vec<SgHttpHeaderMatch>, req: &SgRequest) -> (r: bool)
    ensures
        r == header_ok(Some(*ms), *req),
{
    let n = ms.len();
    let mut i: usize = 0;
    while i < n
        invariant
            n == ms@.len(),
            i <= n,
            forall|j: int| 0 <= j < i ==> !header_matches(#[trigger] ms@[j], req.headers@),
        decreases n - i,
    {
        if ms[i].match_request(req) {
            assert(ms@[i as int] == ms[i as int]);
            return true;
        }
        i += 1;
    }
    false
}

fn queries_ok(ms: &Vec<SgHttpQueryMatch>, req: &SgRequest) -> (r: bool)
    ensures
        r == query_ok(Some(*ms), *req),
{
    let n = ms.len();
    let mut i: usize = 0;
    while i < n
        invariant
            n == ms@.len(),
            i <= n,
            forall|j: int| 0 <= j < i ==> !query_matches(#[trigger] ms@[j], opt_query(req.uri.query)),
        decreases n - i,
    {
        if ms[i].match_request(req) {
            assert(ms@[i as int] == ms[i as int]);
            return true;
        }
        i += 1;
    }
    false
}

fn methods_ok(ms: &Vec<SgHttpMethodMatch>, req: &SgRequest) -> (r: bool)
    ensures
        r == method_ok(Some(*ms), *req),
{
    let n = ms.len();
    let mut i: usize = 0;
    while i < n
        invariant
            n == ms@.len(),
            i <= n,
            forall|j: int| 0 <= j < i ==> !method_matches(#[trigger] ms@[j], req.method@),
        decreases n - i,
    {
        if ms[i].match_request(req) {
            assert(ms@[i as int] == ms[i as int]);
            return true;
        }
        i += 1;
    }
    false
}

impl SgHttpRouteMatch {
    /// A rule match that accepts every request.
    pub fn match_all() -> (r: Self)
        ensures
            r.path.is_none(),
            r.header.is_none(),
            r.query.is_none(),
            r.method.is_none(),
    {
        SgHttpRouteMatch { path: None, header: None, query: None, method: None }
    }

    pub fn match_request(&self, req: &SgRequest) -> (r: bool)
        ensures
            r == route_match_accepts(*self, *req),
    {
        let p = match &self.path {
            Some(p) => p.match_request(req),
            None => true,
        };
        if !p {
            return false;
        }
        let h = match &self.header {
            Some(v) => headers_ok(v, req),
            None => true,
        };
        if !h {
            return false;
        }
        let q = match &self.query {
            Some(v) => queries_ok(v, req),
            None => true,
        };
        if !q {
            return false;
        }
        match &self.method {
            Some(v) => methods_ok(v, req),
            None => true,
        }
    }
}

/// Whether the matches of a rule accept `req`.
pub fn rule_match_request(m: &Option<Vec<SgHttpRouteMatch>>, req: &SgRequest) -> (r: bool)
    ensures
        r == rule_accepts(*m, *req),
{
    let v = match m {
        Some(v) => v,
        None => return true,
    };
    let n = v.len();
    let mut i: usize = 0;
    while i < n
        invariant
            *m == Some(*v),
            n == v@.len(),
            i <= n,
            forall|j: int| 0 <= j < i ==> !route_match_accepts(#[trigger] v@[j], *req),
        decreases n - i,
    {
        if v[i].match_request(req) {
            assert(v@[i as int] == v[i as int]);
            return true;
        }
        i += 1;
    }
    false
}

/// A rule match accepts a request exactly when each present criterion does;
/// an absent criterion accepts every request.
pub proof fn lemma_match_and(m: SgHttpRouteMatch, req: SgRequest)
    ensures
        route_match_accepts(m, req) <==> {
            &&& (m.path matches Some(p) ==> path_matches(p, req.uri.path@))
            &&& (m.header matches Some(v) ==> exists|i: int|
                0 <= i < v@.len() && header_matches(#[trigger] v@[i], req.headers@))
            &&& (m.query matches Some(v) ==> exists|i: int|
                0 <= i < v@.len() && query_matches(#[trigger] v@[i], opt_query(req.uri.query)))
            &&& (m.method matches Some(v) ==> exists|i: int|
                0 <= i < v@.len() && method_matches(#[trigger] v@[i], req.method@))
        },
{
}

} // verus!
