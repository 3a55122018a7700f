//! Hostname lookup in a tree of reversed DNS labels.
//!
//! A wildcard stands for one or more labels: `*.example.com` covers both
//! `a.example.com` and `a.b.example.com`, and `*` alone is a catch-all, so
//! that every wildcard ancestor of a host takes part in the lookup and the
//! deepest one wins.
//!
//! A pattern `example.com` registers an exact entry at the node reached by
//! the labels `com`, `example`; `*.example.com` registers a wildcard at
//! that node, which covers every host with at least one more label in
//! front; `*` registers a wildcard at the root. A lookup walks the host's
//! labels from the right, one node per label: it returns the exact entry
//! of the host if there is one, else the deepest wildcard passed on the
//! way, else nothing.
use vstd::prelude::*;
use vstd::string::*;

use crate::text::{has_prefix, is_prefix, split_dots, split_labels, str_eq};

verus! {

/// The labels of a hostname from the right: `a.example.com` gives `com`,
/// `example`, `a`.
pub open spec fn host_path(h: Seq<char>) -> Seq<Seq<char>> {
    split_dots(h).reverse()
}

/// What a pattern registers: whether it is a wildcard, and the label path
/// of its name (for a wildcard, of the suffix after `*.`; empty for `*`).
pub open spec fn pattern_key(p: Seq<char>) -> (bool, Seq<Seq<char>>) {
    if p == seq!['*'] {
        (true, Seq::<Seq<char>>::empty())
    } else if is_prefix(seq!['*', '.'], p) {
        (true, host_path(p.subrange(2, p.len() as int)))
    } else {
        (false, host_path(p))
    }
}

/// A wildcard registered at label path `key` covers a host with label path
/// `path` when `key` is a proper prefix of it.
pub open spec fn covers(key: Seq<Seq<char>>, path: Seq<Seq<char>>) -> bool {
    key.len() < path.len() && path.subrange(0, key.len() as int) == key
}

/// `s` is the longest registered wildcard that covers `path`.
pub open spec fn is_best_wildcard<V>(m: Map<(bool, Seq<Seq<char>>), V>, path: Seq<Seq<char>>, s: Seq<Seq<char>>) -> bool {
    &&& m.contains_key((true, s))
    &&& covers(s, path)
    &&& forall|t: Seq<Seq<char>>| #[trigger] m.contains_key((true, t)) && covers(t, path) ==> t.len() <= s.len()
}

/// What a lookup of the label path `path` returns: the exact entry, else
/// the longest covering wildcard, else nothing.
pub open spec fn hostname_lookup<V>(m: Map<(bool, Seq<Seq<char>>), V>, path: Seq<Seq<char>>) -> Option<V> {
    if m.contains_key((false, path)) {
        Some(m[(false, path)])
    } else if exists|s: Seq<Seq<char>>| is_best_wildcard(m, path, s) {
        Some(m[(true, choose|s: Seq<Seq<char>>| is_best_wildcard(m, path, s))])
    } else {
        None
    }
}

/// Two longest covering wildcards are the same path.
pub proof fn lemma_best_wildcard_unique<V>(
    m: Map<(bool, Seq<Seq<char>>), V>,
    path: Seq<Seq<char>>,
    s1: Seq<Seq<char>>,
    s2: Seq<Seq<char>>,
)
    requires
        is_best_wildcard(m, path, s1),
        is_best_wildcard(m, path, s2),
    ensures
        s1 == s2,
{
    assert(s1.len() == s2.len());
}

proof fn lemma_best_exists<V>(m: Map<(bool, Seq<Seq<char>>), V>, path: Seq<Seq<char>>, t: Seq<Seq<char>>)
    requires
        m.contains_key((true, t)),
        covers(t, path),
    ensures
        exists|s: Seq<Seq<char>>| is_best_wildcard(m, path, s),
    decreases path.len() - t.len(),
{
    if !is_best_wildcard(m, path, t) {
        let t2 = choose|t2: Seq<Seq<char>>| #[trigger] m.contains_key((true, t2)) && covers(t2, path) && t2.len() > t.len();
        lemma_best_exists(m, path, t2);
    }
}

/// A lookup returns the host's own entry if there is one; otherwise, if
/// some wildcard covers the host, the one with the longest suffix;
/// otherwise nothing.
pub proof fn lemma_lookup_cases<V>(m: Map<(bool, Seq<Seq<char>>), V>, path: Seq<Seq<char>>)
    ensures
        m.contains_key((false, path)) ==> hostname_lookup(m, path) == Some(m[(false, path)]),
        !m.contains_key((false, path)) && (exists|t: Seq<Seq<char>>| #[trigger] m.contains_key((true, t)) && covers(t, path))
            ==> exists|s: Seq<Seq<char>>|
            is_best_wildcard(m, path, s) && hostname_lookup(m, path) == Some(m[(true, s)]),
        !m.contains_key((false, path)) && !(exists|t: Seq<Seq<char>>| #[trigger] m.contains_key((true, t)) && covers(t, path))
            ==> hostname_lookup(m, path).is_none(),
{
    if !m.contains_key((false, path)) {
        if exists|t: Seq<Seq<char>>| #[trigger] m.contains_key((true, t)) && covers(t, path) {
            let t = choose|t: Seq<Seq<char>>| #[trigger] m.contains_key((true, t)) && covers(t, path);
            lemma_best_exists(m, path, t);
            let s = choose|s: Seq<Seq<char>>| is_best_wildcard(m, path, s);
            assert(is_best_wildcard(m, path, s) && hostname_lookup(m, path) == Some(m[(true, s)]));
        }
    }
}

fn copy_children(ch: &Vec<(String, usize)>) -> (r: Vec<(String, usize)>)
    ensures
        r@ == ch@,
{
    let mut out: Vec<(String, usize)> = Vec::new();
    let n = ch.len();
    let mut i: usize = 0;
    while i < n
        invariant
            n == ch@.len(),
            i <= n,
            out@ == ch@.subrange(0, i as int),
        decreases n - i,
    {
        out.push((ch[i].0.clone(), ch[i].1));
        i += 1;
        assert(out@ =~= ch@.subrange(0, i as int));
    }
    assert(ch@.subrange(0, n as int) =~= ch@);
    out
}

/// Whether a pattern is a wildcard, and the labels of its name, left to
/// right.
fn pattern_labels(pattern: &str) -> (r: (bool, Vec<String>))
    ensures
        (r.0, r.1@.map_values(|x: String| x@).reverse()) == pattern_key(pattern@),
{
    proof {
        reveal_strlit("*.");
        assert("*."@ =~= seq!['*', '.']);
    }
    let n = pattern.unicode_len();
    if n == 1 && pattern.get_char(0) == '*' {
        assert(pattern@ =~= seq!['*']);
        let v: Vec<String> = Vec::new();
        assert(v@.map_values(|x: String| x@).reverse() =~= Seq::<Seq<char>>::empty());
        (true, v)
    } else if has_prefix(pattern, "*.") {
        assert(pattern@ != seq!['*']);
        (true, split_labels(pattern.substring_char(2, n)))
    } else {
        assert(pattern@ != seq!['*']) by {
            if pattern@ =~= seq!['*'] {
                assert(pattern@[0] == '*');
            }
        }
        (false, split_labels(pattern))
    }
}

/// A node: edges to its children by label, and the values registered here.
pub struct HostnameNode<V> {
    pub children: Vec<(String, usize)>,
    pub exact: Option<V>,
    pub wildcard: Option<V>,
}

/// The tree; node 0 is the root.
pub struct HostnameTree<V> {
    nodes: Vec<HostnameNode<V>>,
    paths: Ghost<Seq<Seq<Seq<char>>>>,
    model: Ghost<Map<(bool, Seq<Seq<char>>), V>>,
}

impl<V: Copy> HostnameTree<V> {
    /// The registered keys and their values.
    pub closed spec fn view(&self) -> Map<(bool, Seq<Seq<char>>), V> {
        self.model@
    }

    closed spec fn path(&self, i: int) -> Seq<Seq<char>> {
        self.paths@[i]
    }

    closed spec fn label(&self, i: int, c: int) -> Seq<char> {
        self.nodes@[i].children@[c].0@
    }

    closed spec fn target(&self, i: int, c: int) -> usize {
        self.nodes@[i].children@[c].1
    }

    closed spec fn has_edge(&self, i: int, c: int) -> bool {
        0 <= i < self.nodes@.len() && 0 <= c < self.nodes@[i].children@.len()
    }

    closed spec fn has_parent(&self, j: int) -> bool {
        exists|i: int, c: int| #[trigger] self.has_edge(i, c) && self.target(i, c) == j
    }

    pub closed spec fn wf(&self) -> bool {
        &&& self.nodes@.len() == self.paths@.len()
        &&& self.nodes@.len() >= 1
        &&& self.path(0) == Seq::<Seq<char>>::empty()
        &&& forall|i: int, c: int|
            #[trigger] self.has_edge(i, c) ==> {
                &&& self.target(i, c) < self.nodes@.len()
                &&& self.path(self.target(i, c) as int) == self.path(i).push(self.label(i, c))
            }
        &&& forall|i: int, c1: int, c2: int|
            self.has_edge(i, c1) && self.has_edge(i, c2) && #[trigger] self.label(i, c1) == #[trigger] self.label(
                i,
                c2,
            ) ==> c1 == c2
        &&& forall|i: int, j: int|
            0 <= i < self.nodes@.len() && 0 <= j < self.nodes@.len() && #[trigger] self.path(i) == #[trigger] self.path(
                j,
            ) ==> i == j
        &&& forall|j: int| 0 < j < self.nodes@.len() ==> #[trigger] self.has_parent(j)
        &&& forall|i: int|
            0 <= i < self.nodes@.len() ==> {
                &&& (#[trigger] self.nodes@[i]).exact matches Some(v) ==> self.model@.contains_key(
                    (false, self.path(i)),
                ) && self.model@[(false, self.path(i))] == v
                &&& self.nodes@[i].wildcard matches Some(v) ==> self.model@.contains_key((true, self.path(i)))
                    && self.model@[(true, self.path(i))] == v
            }
        &&& forall|k: (bool, Seq<Seq<char>>)|
            #[trigger] self.model@.contains_key(k) ==> exists|i: int|
                0 <= i < self.nodes@.len() && self.path(i) == k.1 && if k.0 {
                    self.nodes@[i].wildcard is Some
                } else {
                    self.nodes@[i].exact is Some
                }
    }

    pub fn new() -> (r: Self)
        ensures
            r.wf(),
            r@ == Map::<(bool, Seq<Seq<char>>), V>::empty(),
    {
        let mut nodes: Vec<HostnameNode<V>> = Vec::new();
        nodes.push(HostnameNode { children: Vec::new(), exact: None, wildcard: None });
        let ghost root_paths = seq![Seq::<Seq<char>>::empty()];
        let r = HostnameTree { nodes, paths: Ghost(root_paths), model: Ghost(Map::empty()) };
        assert(r.path(0) == Seq::<Seq<char>>::empty());
        r
    }

    /// Every prefix of a node's path is the path of a node.
    proof fn lemma_prefix_node(&self, j: int, m: int)
        requires
            self.wf(),
            0 <= j < self.nodes@.len(),
            0 <= m <= self.path(j).len(),
        ensures
            exists|i: int| 0 <= i < self.nodes@.len() && self.path(i) == self.path(j).subrange(0, m),
        decreases self.path(j).len(),
    {
        if m == self.path(j).len() {
            assert(self.path(j).subrange(0, m) =~= self.path(j));
        } else {
            assert(j != 0);
            assert(self.has_parent(j));
            let (i, c) = choose|i: int, c: int| #[trigger] self.has_edge(i, c) && self.target(i, c) == j;
            assert(self.path(j) == self.path(i).push(self.label(i, c)));
            self.lemma_prefix_node(i, m);
            let k = choose|k: int| 0 <= k < self.nodes@.len() && self.path(k) == self.path(i).subrange(0, m);
            assert(self.path(i).subrange(0, m) =~= self.path(j).subrange(0, m));
        }
    }

    /// When node `cur` has no child labelled `l`, no node has the path of
    /// `cur` followed by `l`, nor any path that extends it.
    proof fn lemma_no_child(&self, cur: int, l: Seq<char>)
        requires
            self.wf(),
            0 <= cur < self.nodes@.len(),
            forall|c: int| #[trigger] self.has_edge(cur, c) ==> self.label(cur, c) != l,
        ensures
            forall|j: int|
                0 <= j < self.nodes@.len() ==> !(self.path(j).len() > self.path(cur).len() && self.path(j).subrange(
                    0,
                    self.path(cur).len() + 1int,
                ) == self.path(cur).push(l)),
    {
        assert forall|j: int|
            0 <= j < self.nodes@.len() implies !(self.path(j).len() > self.path(cur).len() && self.path(j).subrange(
                0,
                self.path(cur).len() + 1int,
            ) == self.path(cur).push(l)) by {
            if self.path(j).len() > self.path(cur).len() && self.path(j).subrange(0, self.path(cur).len() + 1int)
                == self.path(cur).push(l) {
                let m: int = self.path(cur).len() + 1int;
                self.lemma_prefix_node(j, m);
                let q = choose|q: int| 0 <= q < self.nodes@.len() && self.path(q) == self.path(j).subrange(0, m);
                assert(self.path(q).len() == m);
                assert(q != 0);
                assert(self.has_parent(q));
                let (i, c) = choose|i: int, c: int| #[trigger] self.has_edge(i, c) && self.target(i, c) == q;
                assert(self.path(q) == self.path(i).push(self.label(i, c)));
                assert(self.path(i) =~= self.path(q).drop_last());
                assert(self.path(cur) =~= self.path(cur).push(l).drop_last());
                assert(i == cur);
                assert(self.label(i, c) == self.path(q).last());
            }
        }
    }

    fn find_child(&self, cur: usize, l: &str) -> (r: Option<usize>)
        requires
            self.wf(),
            cur < self.nodes@.len(),
        ensures
            match r {
                Some(j) => j < self.nodes@.len() && self.path(j as int) == self.path(cur as int).push(l@),
                None => forall|c: int| #[trigger] self.has_edge(cur as int, c) ==> self.label(cur as int, c) != l@,
            },
    {
        let ch = &self.nodes[cur].children;
        let n = ch.len();
        let mut c: usize = 0;
        while c < n
            invariant
                self.wf(),
                cur < self.nodes@.len(),
                ch == self.nodes@[cur as int].children,
                n == ch@.len(),
                c <= n,
                forall|d: int| 0 <= d < c ==> #[trigger] self.label(cur as int, d) != l@,
            decreases n - c,
        {
            if str_eq(ch[c].0.as_str(), l) {
                assert(self.has_edge(cur as int, c as int));
                return Some(ch[c].1);
            }
            c += 1;
        }
        None
    }

    /// Looks `host` up: its exact entry, else the longest wildcard that
    /// covers it.
    pub fn get(&self, host: &str) -> (r: Option<V>)
        requires
            self.wf(),
        ensures
            r == hostname_lookup(self@, host_path(host@)),
    {
        let labels = split_labels(host);
        let ghost lv = labels@.map_values(|x: String| x@);
        let ghost h = host_path(host@);
        assert(lv.reverse() == h);
        let n = labels.len();
        assert(h.len() == n);
        let mut cur: usize = 0;
        let mut k: usize = 0;
        let mut best: Option<V> = None;
        let ghost mut best_len: int = 0;
        let mut stopped = false;
        while k < n && !stopped
            invariant
                self.wf(),
                n == lv.len(),
                lv == labels@.map_values(|x: String| x@),
                h == lv.reverse(),
                k <= n,
                cur < self.nodes@.len(),
                self.path(cur as int) == h.subrange(0, k as int),
                !stopped ==> forall|t: Seq<Seq<char>>|
                    #[trigger] self@.contains_key((true, t)) && covers(t, h) && t.len() < k ==> match best {
                        Some(_) => t.len() <= best_len,
                        None => false,
                    },
                stopped ==> k < n && forall|t: Seq<Seq<char>>|
                    #[trigger] self@.contains_key((true, t)) && covers(t, h) ==> match best {
                        Some(_) => t.len() <= best_len,
                        None => false,
                    },
                stopped ==> !self@.contains_key((false, h)),
                0 <= best_len,
                h.len() == n,
                best matches Some(b) ==> best_len <= k && self@.contains_key((true, h.subrange(0, best_len)))
                    && self@[(true, h.subrange(0, best_len))] == b && best_len < n,
            decreases n - k + (if stopped { 0int } else { 1int }),
        {
            let node = &self.nodes[cur];
            if let Some(w) = node.wildcard {
                best = Some(w);
                proof {
                    best_len = k as int;
                }
            }
            proof {
                assert forall|t: Seq<Seq<char>>|
                    #[trigger] self@.contains_key((true, t)) && covers(t, h) && t.len() < k + 1 implies match best {
                        Some(_) => t.len() <= best_len,
                        None => false,
                    } by {
                    if t.len() == k {
                        let i = choose|i: int|
                            0 <= i < self.nodes@.len() && self.path(i) == t && self.nodes@[i].wildcard is Some;
                        assert(t =~= h.subrange(0, k as int));
                        assert(i == cur);
                    }
                }
            }
            let idx = n - 1 - k;
            match self.find_child(cur, labels[idx].as_str()) {
                Some(j) => {
                    proof {
                        assert(labels@[idx as int]@ == lv[idx as int]);
                        assert(h[k as int] == lv[idx as int]);
                        assert(h.subrange(0, k + 1) =~= h.subrange(0, k as int).push(h[k as int]));
                    }
                    cur = j;
                    k += 1;
                },
                None => {
                    proof {
                        assert(labels@[idx as int]@ == lv[idx as int]);
                        assert(h[k as int] == lv[idx as int]);
                        self.lemma_no_child(cur as int, h[k as int]);
                        assert(h.subrange(0, k + 1) =~= h.subrange(0, k as int).push(h[k as int]));
                        assert forall|t: Seq<Seq<char>>|
                            #[trigger] self@.contains_key((true, t)) && covers(t, h) implies match best {
                                Some(_) => t.len() <= best_len,
                                None => false,
                            } by {
                            if t.len() > k {
                                let i = choose|i: int|
                                    0 <= i < self.nodes@.len() && self.path(i) == t && self.nodes@[i].wildcard is Some;
                                assert(self.path(i).subrange(0, k + 1) =~= h.subrange(0, k + 1));
                            }
                        }
                        if self@.contains_key((false, h)) {
                            let i = choose|i: int|
                                0 <= i < self.nodes@.len() && self.path(i) == h && self.nodes@[i].exact is Some;
                            assert(self.path(i).subrange(0, k + 1) =~= h.subrange(0, k + 1));
                        }
                    }
                    stopped = true;
                },
            }
        }
        if !stopped {
            assert(h.subrange(0, n as int) =~= h);
            let node = &self.nodes[cur];
            if let Some(v) = node.exact {
                return Some(v);
            }
            proof {
                if self@.contains_key((false, h)) {
                    let i = choose|i: int|
                        0 <= i < self.nodes@.len() && self.path(i) == h && self.nodes@[i].exact is Some;
                    assert(i == cur);
                }
            }
        }
        proof {
            match best {
                Some(b) => {
                    let s = h.subrange(0, best_len);
                    assert(covers(s, h));
                    assert(is_best_wildcard(self@, h, s));
                    let c = choose|c: Seq<Seq<char>>| is_best_wildcard(self@, h, c);
                    lemma_best_wildcard_unique(self@, h, s, c);
                },
                None => {
                    assert(!exists|s: Seq<Seq<char>>| is_best_wildcard(self@, h, s));
                },
            }
        }
        best
    }

    /// Adds a child of `cur` labelled `l`; `cur` has no such child yet.
    fn add_child(&mut self, cur: usize, l: String) -> (j: usize)
        requires
            old(self).wf(),
            cur < old(self).nodes@.len(),
            forall|c: int| #[trigger] old(self).has_edge(cur as int, c) ==> old(self).label(cur as int, c) != l@,
        ensures
            final(self).wf(),
            final(self)@ == old(self)@,
            j < final(self).nodes@.len(),
            final(self).path(j as int) == old(self).path(cur as int).push(l@),
    {
        let ghost lv = l@;
        let ghost old_self = *self;
        proof {
            self.lemma_no_child(cur as int, lv);
        }
        let n = self.nodes.len();
        let mut ch = copy_children(&self.nodes[cur].children);
        let ex = self.nodes[cur].exact;
        let wc = self.nodes[cur].wildcard;
        let ghost old_count = ch@.len();
        ch.push((l, n));
        let ghost newpath = self.paths@[cur as int].push(lv);
        self.nodes.set(cur, HostnameNode { children: ch, exact: ex, wildcard: wc });
        self.nodes.push(HostnameNode { children: Vec::new(), exact: None, wildcard: None });
        self.paths = Ghost(self.paths@.push(newpath));
        proof {
            assert forall|i: int| 0 <= i < n implies #[trigger] self.path(i) == old_self.path(i) by {}
            assert(self.path(n as int) == newpath);
            assert forall|i: int, c: int| #[trigger] self.has_edge(i, c) implies {
                &&& self.target(i, c) < self.nodes@.len()
                &&& self.path(self.target(i, c) as int) == self.path(i).push(self.label(i, c))
            } by {
                if i == cur && c == old_count {
                    assert(self.target(i, c) == n);
                } else {
                    assert(old_self.has_edge(i, c));
                }
            }
            assert forall|i: int, c1: int, c2: int|
                self.has_edge(i, c1) && self.has_edge(i, c2) && #[trigger] self.label(i, c1) == #[trigger] self.label(i, c2)
                    implies c1 == c2 by {
                if i == cur {
                    if c1 == old_count && c2 != old_count {
                        assert(old_self.has_edge(i, c2));
                    } else if c2 == old_count && c1 != old_count {
                        assert(old_self.has_edge(i, c1));
                    } else if c1 != old_count && c2 != old_count {
                        assert(old_self.has_edge(i, c1) && old_self.has_edge(i, c2));
                    }
                } else if i < n {
                    assert(old_self.has_edge(i, c1) && old_self.has_edge(i, c2));
                }
            }
            assert forall|i: int, j: int|
                0 <= i < self.nodes@.len() && 0 <= j < self.nodes@.len() && #[trigger] self.path(i) == #[trigger] self.path(j)
                    implies i == j by {
                if i == n && j < n {
                    assert(newpath.subrange(0, old_self.path(cur as int).len() + 1int) =~= newpath);
                    assert(!(old_self.path(j).len() > old_self.path(cur as int).len() && old_self.path(j).subrange(
                        0,
                        old_self.path(cur as int).len() + 1int,
                    ) == old_self.path(cur as int).push(lv)));
                    assert(old_self.path(j).subrange(0, old_self.path(cur as int).len() + 1int) =~= old_self.path(j));
                } else if j == n && i < n {
                    assert(newpath.subrange(0, old_self.path(cur as int).len() + 1int) =~= newpath);
                    assert(!(old_self.path(i).len() > old_self.path(cur as int).len() && old_self.path(i).subrange(
                        0,
                        old_self.path(cur as int).len() + 1int,
                    ) == old_self.path(cur as int).push(lv)));
                    assert(old_self.path(i).subrange(0, old_self.path(cur as int).len() + 1int) =~= old_self.path(i));
                }
            }
            assert forall|j: int| 0 < j < self.nodes@.len() implies #[trigger] self.has_parent(j) by {
                if j == n {
                    assert(self.has_edge(cur as int, old_count as int));
                    assert(self.target(cur as int, old_count as int) == j);
                } else {
                    assert(old_self.has_parent(j));
                    let (i, c) = choose|i: int, c: int| #[trigger] old_self.has_edge(i, c) && old_self.target(i, c) == j;
                    assert(self.has_edge(i, c) && self.target(i, c) == j);
                }
            }
            assert forall|k: (bool, Seq<Seq<char>>)| #[trigger] self.model@.contains_key(k) implies exists|i: int|
                0 <= i < self.nodes@.len() && self.path(i) == k.1 && if k.0 {
                    self.nodes@[i].wildcard is Some
                } else {
                    self.nodes@[i].exact is Some
                } by {
                let i = choose|i: int|
                    0 <= i < old_self.nodes@.len() && old_self.path(i) == k.1 && if k.0 {
                        old_self.nodes@[i].wildcard is Some
                    } else {
                        old_self.nodes@[i].exact is Some
                    };
                assert(self.path(i) == k.1);
            }
        }
        n
    }

    /// Records `value` at node `t`, as its wildcard or its exact entry.
    fn set_value(&mut self, t: usize, wildcard: bool, value: V)
        requires
            old(self).wf(),
            t < old(self).nodes@.len(),
        ensures
            final(self).wf(),
            final(self)@ == old(self)@.insert((wildcard, old(self).path(t as int)), value),
    {
        let ghost old_self = *self;
        let ghost key = (wildcard, self.path(t as int));
        let ch = copy_children(&self.nodes[t].children);
        let ex = self.nodes[t].exact;
        let wc = self.nodes[t].wildcard;
        let node = if wildcard {
            HostnameNode { children: ch, exact: ex, wildcard: Some(value) }
        } else {
            HostnameNode { children: ch, exact: Some(value), wildcard: wc }
        };
        self.nodes.set(t, node);
        self.model = Ghost(self.model@.insert(key, value));
        proof {
            assert(self.nodes@.len() == old_self.nodes@.len());
            assert(self.paths == old_self.paths);
            assert forall|i: int, c: int| #[trigger] self.has_edge(i, c) implies {
                &&& self.target(i, c) < self.nodes@.len()
                &&& self.path(self.target(i, c) as int) == self.path(i).push(self.label(i, c))
            } by {
                assert(old_self.has_edge(i, c));
            }
            assert forall|i: int, c1: int, c2: int|
                self.has_edge(i, c1) && self.has_edge(i, c2) && #[trigger] self.label(i, c1) == #[trigger] self.label(i, c2)
                    implies c1 == c2 by {
                assert(old_self.has_edge(i, c1) && old_self.has_edge(i, c2));
            }
            assert forall|j: int| 0 < j < self.nodes@.len() implies #[trigger] self.has_parent(j) by {
                assert(old_self.has_parent(j));
                let (i, c) = choose|i: int, c: int| #[trigger] old_self.has_edge(i, c) && old_self.target(i, c) == j;
                assert(self.has_edge(i, c) && self.target(i, c) == j);
            }
            assert forall|i: int| 0 <= i < self.nodes@.len() implies {
                &&& (#[trigger] self.nodes@[i]).exact matches Some(v) ==> self.model@.contains_key((false, self.path(i)))
                    && self.model@[(false, self.path(i))] == v
                &&& self.nodes@[i].wildcard matches Some(v) ==> self.model@.contains_key((true, self.path(i)))
                    && self.model@[(true, self.path(i))] == v
            } by {
                if i != t {
                    assert(old_self.nodes@[i] == self.nodes@[i]);
                    assert(self.path(i) != self.path(t as int));
                } else if wildcard {
                    assert(self.nodes@[i].exact == old_self.nodes@[i].exact);
                    assert(self.nodes@[i].wildcard == Some(value));
                } else {
                    assert(self.nodes@[i].wildcard == old_self.nodes@[i].wildcard);
                    assert(self.nodes@[i].exact == Some(value));
                }
            }
            assert(self.path(0) == Seq::<Seq<char>>::empty());
            assert forall|i: int, j: int|
                0 <= i < self.nodes@.len() && 0 <= j < self.nodes@.len() && #[trigger] self.path(i) == #[trigger] self.path(
                    j,
                ) implies i == j by {
                assert(old_self.path(i) == self.path(i));
                assert(old_self.path(j) == self.path(j));
            }
            assert forall|k: (bool, Seq<Seq<char>>)| #[trigger] self.model@.contains_key(k) implies exists|i: int|
                0 <= i < self.nodes@.len() && self.path(i) == k.1 && if k.0 {
                    self.nodes@[i].wildcard is Some
                } else {
                    self.nodes@[i].exact is Some
                } by {
                if k == key {
                    assert(self.path(t as int) == k.1);
                } else {
                    let i = choose|i: int|
                        0 <= i < old_self.nodes@.len() && old_self.path(i) == k.1 && if k.0 {
                            old_self.nodes@[i].wildcard is Some
                        } else {
                            old_self.nodes@[i].exact is Some
                        };
                    assert(self.path(i) == k.1);
                }
            }
        }
    }

    /// Registers `value` under `pattern`, replacing what was there.
    pub fn set(&mut self, pattern: &str, value: V)
        requires
            old(self).wf(),
        ensures
            final(self).wf(),
            final(self)@ == old(self)@.insert(pattern_key(pattern@), value),
    {
        let (wildcard, labels) = pattern_labels(pattern);
        let ghost kp = labels@.map_values(|x: String| x@).reverse();
        let n = labels.len();
        let mut cur: usize = 0;
        let mut k: usize = 0;
        while k < n
            invariant
                self.wf(),
                self@ == old(self)@,
                n == labels@.len(),
                kp == labels@.map_values(|x: String| x@).reverse(),
                kp.len() == n,
                k <= n,
                cur < self.nodes@.len(),
                self.path(cur as int) == kp.subrange(0, k as int),
            decreases n - k,
        {
            let idx = n - 1 - k;
            proof {
                assert(labels@[idx as int]@ == kp[k as int]);
                assert(kp.subrange(0, k + 1) =~= kp.subrange(0, k as int).push(kp[k as int]));
            }
            match self.find_child(cur, labels[idx].as_str()) {
                Some(j) => {
                    cur = j;
                },
                None => {
                    cur = self.add_child(cur, labels[idx].clone());
                },
            }
            k += 1;
        }
        assert(kp.subrange(0, n as int) =~= kp);
        self.set_value(cur, wildcard, value);
    }
}

} // verus!
