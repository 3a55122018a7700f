//! The header-modifier plugin: headers appended and removed on the request
//! or on the response.
use vstd::prelude::*;
use vstd::utf8::encode_utf8;

use crate::request::SgHeader;
use crate::text::{eq_ignore_case, str_eq_ignore_ascii_case};

verus! {

/// Whether `http::HeaderName::from_bytes` accepts `b`.
pub uninterp spec fn http_header_name_valid(b: Seq<u8>) -> bool;

/// A header value byte: a tab, or a byte of at least 32 other than 127.
pub open spec fn header_value_byte(b: u8) -> bool {
    b == 9 || (b >= 32 && b != 127)
}

/// Whether `http::HeaderValue::from_bytes` accepts `b`: every byte is a
/// header value byte.
pub open spec fn http_header_value_valid(b: Seq<u8>) -> bool {
    forall|i: int| 0 <= i < b.len() ==> header_value_byte(#[trigger] b[i])
}

/// Relies on `http::HeaderName::from_bytes`: whether the bytes form a valid
/// header name.
#[verifier::external_body]
fn header_name_ok(b: &[u8]) -> (r: bool)
    ensures
        r == http_header_name_valid(b@),
        b@.len() == 0 ==> !r,
{
    http::HeaderName::from_bytes(b).is_ok()
}

/// Relies on `http::HeaderValue::from_bytes`: it accepts exactly the byte
/// strings whose every byte is a tab or at least 32 and not 127.
#[verifier::external_body]
fn header_value_ok(b: &[u8]) -> (r: bool)
    ensures
        r == http_header_value_valid(b@),
{
    http::HeaderValue::from_bytes(b).is_ok()
}

#[derive(Clone, Copy, PartialEq, Eq, Structural, Debug)]
pub enum SgFilterHeaderModifierKind {
    Request,
    Response,
}

pub struct SgFilterHeaderModifier {
    pub kind: SgFilterHeaderModifierKind,
    pub sets: Option<Vec<(String, String)>>,
    pub remove: Option<Vec<String>>,
}

/// Headers to append, then names to remove.
pub struct HeaderEdit {
    pub sets: Vec<(String, String)>,
    pub remove: Vec<String>,
}

/// The edits for each side.
pub struct HeaderModifierLayer {
    pub request: HeaderEdit,
    pub response: HeaderEdit,
}

/// A header or value that `http` refuses.
pub enum SgHeaderModifierError {
    InvalidHeader,
}

pub open spec fn as_headers(sets: Seq<(String, String)>) -> Seq<SgHeader> {
    sets.map_values(|p: (String, String)| SgHeader { name: p.0, value: p.1 })
}

pub open spec fn is_removed(h: SgHeader, names: Seq<String>) -> bool {
    exists|j: int| 0 <= j < names.len() && eq_ignore_case(h.name@, #[trigger] names[j]@)
}

/// The headers of `hs` whose name is not among `names`, in order.
pub open spec fn kept_headers(hs: Seq<SgHeader>, names: Seq<String>) -> Seq<SgHeader>
    decreases hs.len(),
{
    if hs.len() == 0 {
        Seq::empty()
    } else if is_removed(hs.last(), names) {
        kept_headers(hs.drop_last(), names)
    } else {
        kept_headers(hs.drop_last(), names).push(hs.last())
    }
}

/// The headers after an edit: the sets appended, then every header with a
/// removed name dropped.
pub open spec fn edited(hs: Seq<SgHeader>, e: HeaderEdit) -> Seq<SgHeader> {
    kept_headers(hs + as_headers(e.sets@), e.remove@)
}

fn removed(h: &SgHeader, names: &Vec<String>) -> (r: bool)
    ensures
        r == is_removed(*h, names@),
{
    let n = names.len();
    let mut j: usize = 0;
    while j < n
        invariant
            n == names@.len(),
            j <= n,
            forall|k: int| 0 <= k < j ==> !eq_ignore_case(h.name@, #[trigger] names@[k]@),
        decreases n - j,
    {
        if str_eq_ignore_ascii_case(h.name.as_str(), names[j].as_str()) {
            return true;
        }
        j += 1;
    }
    false
}

fn clone_header(h: &SgHeader) -> (r: SgHeader)
    ensures
        r == *h,
{
    SgHeader { name: h.name.clone(), value: h.value.clone() }
}

impl HeaderEdit {
    /// An edit that changes nothing.
    pub fn none() -> (r: Self)
        ensures
            r.sets@.len() == 0,
            r.remove@.len() == 0,
    {
        HeaderEdit { sets: Vec::new(), remove: Vec::new() }
    }

    pub fn apply(&self, headers: &Vec<SgHeader>) -> (r: Vec<SgHeader>)
        ensures
            r@ == edited(headers@, *self),
    {
        let mut all: Vec<SgHeader> = Vec::new();
        let n = headers.len();
        let mut i: usize = 0;
        while i < n
            invariant
                n == headers@.len(),
                i <= n,
                all@ == headers@.subrange(0, i as int),
            decreases n - i,
        {
            all.push(clone_header(&headers[i]));
            i += 1;
            assert(all@ =~= headers@.subrange(0, i as int));
        }
        let m = self.sets.len();
        let mut j: usize = 0;
        let ghost sets_h = as_headers(self.sets@);
        assert(headers@.subrange(0, n as int) =~= headers@);
        while j < m
            invariant
                m == self.sets@.len(),
                sets_h == as_headers(self.sets@),
                j <= m,
                all@ == headers@ + sets_h.subrange(0, j as int),
            decreases m - j,
        {
            let p = &self.sets[j];
            all.push(SgHeader { name: p.0.clone(), value: p.1.clone() });
            j += 1;
            assert(all@ =~= headers@ + sets_h.subrange(0, j as int));
        }
        assert(sets_h.subrange(0, m as int) =~= sets_h);
        let ghost full = all@;
        let mut out: Vec<SgHeader> = Vec::new();
        let k = all.len();
        let mut i: usize = 0;
        while i < k
            invariant
                k == all@.len(),
                full == all@,
                i <= k,
                out@ == kept_headers(full.subrange(0, i as int), self.remove@),
            decreases k - i,
        {
            proof {
                assert(full.subrange(0, i + 1).drop_last() =~= full.subrange(0, i as int));
                assert(full.subrange(0, i + 1).last() == full[i as int]);
            }
            if !removed(&all[i], &self.remove) {
                out.push(clone_header(&all[i]));
            }
            i += 1;
        }
        assert(full.subrange(0, k as int) =~= full);
        out
    }
}

pub open spec fn set_valid(p: (String, String)) -> bool {
    http_header_name_valid(encode_utf8(p.0@)) && http_header_value_valid(encode_utf8(p.1@))
}

pub open spec fn name_valid(n: String) -> bool {
    http_header_name_valid(encode_utf8(n@))
}

pub open spec fn all_sets_valid(sets: Seq<(String, String)>) -> bool {
    forall|i: int| 0 <= i < sets.len() ==> set_valid(#[trigger] sets[i])
}

pub open spec fn all_names_valid(names: Seq<String>) -> bool {
    forall|i: int| 0 <= i < names.len() ==> name_valid(#[trigger] names[i])
}

fn valid_sets(sets: &Vec<(String, String)>) -> (r: bool)
    ensures
        r == all_sets_valid(sets@),
{
    let n = sets.len();
    let mut i: usize = 0;
    while i < n
        invariant
            n == sets@.len(),
            i <= n,
            forall|j: int| 0 <= j < i ==> set_valid(#[trigger] sets@[j]),
        decreases n - i,
    {
        let p = &sets[i];
        if !header_name_ok(p.0.as_str().as_bytes()) || !header_value_ok(p.1.as_str().as_bytes()) {
            return false;
        }
        i += 1;
    }
    true
}

fn valid_names(names: &Vec<String>) -> (r: bool)
    ensures
        r == all_names_valid(names@),
{
    let n = names.len();
    let mut i: usize = 0;
    while i < n
        invariant
            n == names@.len(),
            i <= n,
            forall|j: int| 0 <= j < i ==> name_valid(#[trigger] names@[j]),
        decreases n - i,
    {
        if !header_name_ok(names[i].as_str().as_bytes()) {
            return false;
        }
        i += 1;
    }
    true
}

pub fn copy_sets(v: &Vec<(String, String)>) -> (r: Vec<(String, String)>)
    ensures
        r@ == v@,
{
    let mut out: Vec<(String, String)> = Vec::new();
    let n = v.len();
    let mut i: usize = 0;
    while i < n
        invariant
            n == v@.len(),
            i <= n,
            out@ == v@.subrange(0, i as int),
        decreases n - i,
    {
        out.push((v[i].0.clone(), v[i].1.clone()));
        i += 1;
        assert(out@ =~= v@.subrange(0, i as int));
    }
    assert(v@.subrange(0, n as int) =~= v@);
    out
}

pub fn copy_names(v: &Vec<String>) -> (r: Vec<String>)
    ensures
        r@ == v@,
{
    let mut out: Vec<String> = Vec::new();
    let n = v.len();
    let mut i: usize = 0;
    while i < n
        invariant
            n == v@.len(),
            i <= n,
            out@ == v@.subrange(0, i as int),
        decreases n - i,
    {
        out.push(v[i].clone());
        i += 1;
        assert(out@ =~= v@.subrange(0, i as int));
    }
    assert(v@.subrange(0, n as int) =~= v@);
    out
}

pub open spec fn sets_of(m: SgFilterHeaderModifier) -> Seq<(String, String)> {
    match m.sets {
        Some(v) => v@,
        None => Seq::empty(),
    }
}

pub open spec fn removes_of(m: SgFilterHeaderModifier) -> Seq<String> {
    match m.remove {
        Some(v) => v@,
        None => Seq::empty(),
    }
}

impl SgFilterHeaderModifier {
    /// The edits of this plugin, on the side its kind names; the other side
    /// is left alone. Fails when `http` refuses a name or a value.
    pub fn make_layer(&self) -> (r: Result<HeaderModifierLayer, SgHeaderModifierError>)
        ensures
            r.is_ok() == (all_sets_valid(sets_of(*self)) && all_names_valid(removes_of(*self))),
            r matches Ok(l) ==> {
                let e = match self.kind {
                    SgFilterHeaderModifierKind::Request => l.request,
                    SgFilterHeaderModifierKind::Response => l.response,
                };
                let other = match self.kind {
                    SgFilterHeaderModifierKind::Request => l.response,
                    SgFilterHeaderModifierKind::Response => l.request,
                };
                &&& e.sets@ == sets_of(*self)
                &&& e.remove@ == removes_of(*self)
                &&& other.sets@.len() == 0
                &&& other.remove@.len() == 0
            },
    {
        let sets = match &self.sets {
            Some(v) => {
                if !valid_sets(v) {
                    return Err(SgHeaderModifierError::InvalidHeader);
                }
                copy_sets(v)
            },
            None => Vec::new(),
        };
        let remove = match &self.remove {
            Some(v) => {
                if !valid_names(v) {
                    return Err(SgHeaderModifierError::InvalidHeader);
                }
                copy_names(v)
            },
            None => Vec::new(),
        };
        let edit = HeaderEdit { sets, remove };
        match self.kind {
            SgFilterHeaderModifierKind::Request => Ok(HeaderModifierLayer { request: edit, response: HeaderEdit::none() }),
            SgFilterHeaderModifierKind::Response => Ok(HeaderModifierLayer { request: HeaderEdit::none(), response: edit }),
        }
    }
}

} // verus!
