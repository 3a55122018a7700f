//! Plain-value model of what the gateway reads from an HTTP request.
use vstd::prelude::*;

use crate::text::{eq_ignore_case, str_eq_ignore_ascii_case};

verus! {

/// A request target, split into its parts.
pub struct SgUri {
    pub scheme: Option<String>,
    pub host: Option<String>,
    pub port: Option<u16>,
    pub path: String,
    pub query: Option<String>,
}

/// One header line; names compare without regard to ASCII case.
pub struct SgHeader {
    pub name: String,
    pub value: String,
}

/// The head of a request: method, target and headers in arrival order.
pub struct SgRequest {
    pub method: String,
    pub uri: SgUri,
    pub headers: Vec<SgHeader>,
}

/// Index of the first header named `name`, or the number of headers.
pub open spec fn first_header_index(hs: Seq<SgHeader>, name: Seq<char>) -> int
    decreases hs.len(),
{
    if hs.len() == 0 {
        0
    } else if eq_ignore_case(hs[0].name@, name) {
        0
    } else {
        1 + first_header_index(hs.drop_first(), name)
    }
}

pub proof fn lemma_first_header_index(hs: Seq<SgHeader>, name: Seq<char>)
    ensures
        0 <= first_header_index(hs, name) <= hs.len(),
        forall|j: int|
            0 <= j < first_header_index(hs, name) ==> !eq_ignore_case(#[trigger] hs[j].name@, name),
        first_header_index(hs, name) < hs.len() ==> eq_ignore_case(
            hs[first_header_index(hs, name)].name@,
            name,
        ),
    decreases hs.len(),
{
    if hs.len() > 0 && !eq_ignore_case(hs[0].name@, name) {
        lemma_first_header_index(hs.drop_first(), name);
        assert forall|j: int|
            0 <= j < first_header_index(hs, name) implies !eq_ignore_case(
            #[trigger] hs[j].name@,
            name,
        ) by {
            if j > 0 {
                assert(hs[j] == hs.drop_first()[j - 1]);
            }
        }
    }
}

/// The value of the first header named `name`, if any.
pub open spec fn header_value(hs: Seq<SgHeader>, name: Seq<char>) -> Option<Seq<char>> {
    let i = first_header_index(hs, name);
    if i < hs.len() {
        Some(hs[i].value@)
    } else {
        None
    }
}

impl SgRequest {
    /// The first header named `name`, if any.
    pub fn header(&self, name: &str) -> (r: Option<&String>)
        ensures
            match r {
                Some(v) => header_value(self.headers@, name@) == Some(v@),
                None => header_value(self.headers@, name@).is_none(),
            },
    {
        let n = self.headers.len();
        let mut i: usize = 0;
        proof {
            lemma_first_header_index(self.headers@, name@);
        }
        while i < n
            invariant
                n == self.headers@.len(),
                i <= n,
                forall|j: int|
                    0 <= j < i ==> !eq_ignore_case(#[trigger] self.headers@[j].name@, name@),
                0 <= first_header_index(self.headers@, name@) <= n,
                forall|j: int|
                    0 <= j < first_header_index(self.headers@, name@) ==> !eq_ignore_case(
                        #[trigger] self.headers@[j].name@,
                        name@,
                    ),
                first_header_index(self.headers@, name@) < n ==> eq_ignore_case(
                    self.headers@[first_header_index(self.headers@, name@)].name@,
                    name@,
                ),
            decreases n - i,
        {
            if str_eq_ignore_ascii_case(self.headers[i].name.as_str(), name) {
                return Some(&self.headers[i].value);
            }
            i += 1;
        }
        None
    }
}

} // verus!
