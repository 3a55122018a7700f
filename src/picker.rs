//! Choosing among alternatives: by weight for backends, by first match for
//! rules.
use vstd::prelude::*;
use vstd::set_lib::{lemma_int_range, set_int_range};

use crate::match_request::{rule_accepts, rule_match_request, SgHttpRouteMatch};
use crate::request::SgRequest;

verus! {

/// The sum of the first `k` weights.
pub open spec fn prefix_sum(w: Seq<u16>, k: int) -> int
    decreases k,
{
    if k <= 0 {
        0
    } else {
        prefix_sum(w, k - 1) + w[k - 1]
    }
}

pub open spec fn total_weight(w: Seq<u16>) -> int {
    prefix_sum(w, w.len() as int)
}

/// Draw `d` falls in the slot of backend `k`: `[prefix(k), prefix(k+1))`.
pub open spec fn in_slot(w: Seq<u16>, k: int, d: int) -> bool {
    prefix_sum(w, k) <= d < prefix_sum(w, k + 1)
}

pub proof fn lemma_prefix_monotone(w: Seq<u16>, i: int, j: int)
    requires
        0 <= i <= j <= w.len(),
    ensures
        prefix_sum(w, i) <= prefix_sum(w, j),
    decreases j - i,
{
    if i < j {
        lemma_prefix_monotone(w, i, j - 1);
    }
}

/// Each draw falls in at most one slot.
pub proof fn lemma_slots_disjoint(w: Seq<u16>, r: int, k: int, d: int)
    requires
        0 <= r < w.len(),
        0 <= k < w.len(),
        in_slot(w, r, d),
        in_slot(w, k, d),
    ensures
        r == k,
{
    if r < k {
        lemma_prefix_monotone(w, r + 1, k);
    } else if k < r {
        lemma_prefix_monotone(w, k + 1, r);
    }
}

/// Over the draws `0 <= d < total`, exactly `w[k]` fall in the slot of
/// backend `k`, and no draw falls in two slots: a uniform draw selects `k`
/// with probability `w[k] / total`.
pub proof fn lemma_weighted_share(w: Seq<u16>, k: int)
    requires
        0 <= k < w.len(),
    ensures
        Set::new(|d: int| in_slot(w, k, d)).finite(),
        Set::new(|d: int| in_slot(w, k, d)).len() == w[k],
        forall|d: int| #[trigger] in_slot(w, k, d) ==> 0 <= d < total_weight(w),
        forall|r: int, d: int|
            0 <= r < w.len() && #[trigger] in_slot(w, r, d) && in_slot(w, k, d) ==> r == k,
{
    assert(Set::new(|d: int| in_slot(w, k, d)) =~= set_int_range(
        prefix_sum(w, k),
        prefix_sum(w, k + 1),
    ));
    lemma_int_range(prefix_sum(w, k), prefix_sum(w, k + 1));
    lemma_prefix_monotone(w, 0, k);
    lemma_prefix_monotone(w, k + 1, w.len() as int);
    assert forall|r: int, d: int|
        0 <= r < w.len() && #[trigger] in_slot(w, r, d) && in_slot(w, k, d) implies r == k by {
        lemma_slots_disjoint(w, r, k, d);
    }
}

/// The sum of all weights.
pub fn weight_total(weights: &Vec<u16>) -> (t: u128)
    requires
        weights@.len() <= u64::MAX,
    ensures
        t == total_weight(weights@),
{
    let n = weights.len();
    let mut acc: u128 = 0;
    let mut i: usize = 0;
    while i < n
        invariant
            n == weights@.len(),
            n <= u64::MAX,
            i <= n,
            acc == prefix_sum(weights@, i as int),
            acc <= i * 65535,
        decreases n - i,
    {
        acc = acc + weights[i] as u128;
        i += 1;
    }
    acc
}

/// Picks a backend for the uniform draw `draw` in `[0, total)`: the one in
/// whose slot it falls. With no weight at all, index 0.
pub fn pick_by_weight(weights: &Vec<u16>, draw: u128) -> (r: usize)
    requires
        weights@.len() <= u64::MAX,
        total_weight(weights@) > 0 ==> draw < total_weight(weights@),
    ensures
        total_weight(weights@) == 0 ==> r == 0,
        total_weight(weights@) > 0 ==> r < weights@.len() && in_slot(weights@, r as int, draw as int),
{
    let total = weight_total(weights);
    if total == 0 {
        return 0;
    }
    let n = weights.len();
    let mut acc: u128 = 0;
    let mut i: usize = 0;
    while i < n
        invariant
            n == weights@.len(),
            n <= u64::MAX,
            i <= n,
            acc == prefix_sum(weights@, i as int),
            acc <= i * 65535,
            acc <= draw,
            draw < total_weight(weights@),
        decreases n - i,
    {
        let next = acc + weights[i] as u128;
        if draw < next {
            return i;
        }
        acc = next;
        i += 1;
    }
    i
}

/// The first rule that accepts `req`; index 0 when none does.
pub fn pick_by_matches(rules: &Vec<Option<Vec<SgHttpRouteMatch>>>, req: &SgRequest) -> (r: usize)
    ensures
        (exists|j: int| 0 <= j < rules@.len() && rule_accepts(#[trigger] rules@[j], *req)) ==> {
            &&& r < rules@.len()
            &&& rule_accepts(rules@[r as int], *req)
            &&& forall|j: int| 0 <= j < r ==> !rule_accepts(#[trigger] rules@[j], *req)
        },
        (forall|j: int| 0 <= j < rules@.len() ==> !rule_accepts(#[trigger] rules@[j], *req)) ==> r == 0,
{
    let n = rules.len();
    let mut i: usize = 0;
    while i < n
        invariant
            n == rules@.len(),
            i <= n,
            forall|j: int| 0 <= j < i ==> !rule_accepts(#[trigger] rules@[j], *req),
        decreases n - i,
    {
        if rule_match_request(&rules[i], req) {
            return i;
        }
        i += 1;
    }
    0
}

} // verus!
