//! Plugin configurations and the registry of plugin codes.
use vstd::prelude::*;

verus! {

/// A plugin as configured: its code and its spec, read from JSON.
pub struct SgPluginConfig {
    pub code: String,
    pub spec: SgPluginSpec,
}

/// A plugin's spec as read from its JSON. `Plain` is the spec of a plugin
/// that has no settings the gateway checks; `Unreadable` is a spec whose
/// JSON did not parse into the plugin's settings.
pub enum SgPluginSpec {
    Limit(crate::rate_limit::RateLimitConfig),
    Maintenance(crate::maintenance::SgFilterMaintenance),
    HeaderModifier(crate::header_modifier::SgFilterHeaderModifier),
    Redirect(crate::redirect::RedirectFilter),
    Plain,
    Unreadable,
}

} // verus!

verus! {

/// The plugins the gateway knows how to make.
#[derive(Clone, Copy, PartialEq, Eq, Structural, Debug)]
pub enum SgPluginKind {
    HeaderModifier,
    Redirect,
    Rewrite,
    Retry,
    Limit,
    Inject,
    Maintenance,
    Decompression,
    Status,
    /// A plugin registered at run time, by its slot.
    Custom(u32),
}

/// Plugin code → plugin kind.
pub struct SgPluginRepository {
    entries: Vec<(String, SgPluginKind)>,
    model: Ghost<Map<Seq<char>, SgPluginKind>>,
}

impl SgPluginRepository {
    pub closed spec fn view(&self) -> Map<Seq<char>, SgPluginKind> {
        self.model@
    }

    pub closed spec fn wf(&self) -> bool {
        &&& forall|i: int|
            0 <= i < self.entries@.len() ==> {
                &&& #[trigger] self.model@.contains_key(self.entries@[i].0@)
                &&& self.model@[self.entries@[i].0@] == self.entries@[i].1
            }
        &&& forall|k: Seq<char>|
            #[trigger] self.model@.contains_key(k) ==> exists|i: int|
                0 <= i < self.entries@.len() && self.entries@[i].0@ == k
        &&& forall|i: int, j: int|
            0 <= i < self.entries@.len() && 0 <= j < self.entries@.len() && (#[trigger] self.entries@[i]).0@
                == (#[trigger] self.entries@[j]).0@ ==> i == j
    }

    pub fn new() -> (r: Self)
        ensures
            r.wf(),
            r@ == Map::<Seq<char>, SgPluginKind>::empty(),
    {
        SgPluginRepository { entries: Vec::new(), model: Ghost(Map::empty()) }
    }

    fn find(&self, code: &str) -> (r: Option<usize>)
        ensures
            match r {
                Some(i) => i < self.entries@.len() && self.entries@[i as int].0@ == code@,
                None => forall|j: int| 0 <= j < self.entries@.len() ==> (#[trigger] self.entries@[j]).0@ != code@,
            },
    {
        let n = self.entries.len();
        let mut i: usize = 0;
        while i < n
            invariant
                n == self.entries@.len(),
                i <= n,
                forall|j: int| 0 <= j < i ==> (#[trigger] self.entries@[j]).0@ != code@,
            decreases n - i,
        {
            if crate::text::str_eq(self.entries[i].0.as_str(), code) {
                return Some(i);
            }
            i += 1;
        }
        None
    }

    /// Registers `kind` under `code`, replacing what was there.
    pub fn register(&mut self, code: &str, kind: SgPluginKind)
        requires
            old(self).wf(),
        ensures
            final(self).wf(),
            final(self)@ == old(self)@.insert(code@, kind),
    {
        let ghost before = self.entries@;
        let ghost k = code@;
        match self.find(code) {
            Some(i) => {
                self.entries.set(i, (code.to_owned(), kind));
                self.model = Ghost(self.model@.insert(k, kind));
                proof {
                    assert forall|a: int| 0 <= a < self.entries@.len() implies (#[trigger] self.entries@[a]).0@
                        == before[a].0@ by {}
                    assert forall|a: int| 0 <= a < self.entries@.len() implies {
                        &&& #[trigger] self.model@.contains_key(self.entries@[a].0@)
                        &&& self.model@[self.entries@[a].0@] == self.entries@[a].1
                    } by {
                        if a != i {
                            assert(before[a].0@ != before[i as int].0@);
                        }
                    }
                    assert forall|q: Seq<char>| #[trigger] self.model@.contains_key(q) implies exists|a: int|
                        0 <= a < self.entries@.len() && self.entries@[a].0@ == q by {
                        if q != k {
                            let a = choose|a: int| 0 <= a < before.len() && before[a].0@ == q;
                            assert(self.entries@[a].0@ == q);
                        } else {
                            assert(self.entries@[i as int].0@ == q);
                        }
                    }
                }
            },
            None => {
                let n = self.entries.len();
                self.entries.push((code.to_owned(), kind));
                self.model = Ghost(self.model@.insert(k, kind));
                proof {
                    assert forall|q: Seq<char>| #[trigger] self.model@.contains_key(q) implies exists|a: int|
                        0 <= a < self.entries@.len() && self.entries@[a].0@ == q by {
                        if q != k {
                            let a = choose|a: int| 0 <= a < before.len() && before[a].0@ == q;
                            assert(self.entries@[a].0@ == q);
                        } else {
                            assert(self.entries@[n as int].0@ == q);
                        }
                    }
                }
            },
        }
    }

    /// The kind registered under `code`.
    pub fn get(&self, code: &str) -> (r: Option<SgPluginKind>)
        requires
            self.wf(),
        ensures
            match r {
                Some(k) => self@.contains_key(code@) && self@[code@] == k,
                None => !self@.contains_key(code@),
            },
    {
        match self.find(code) {
            Some(i) => {
                assert(self.model@.contains_key(self.entries@[i as int].0@));
                Some(self.entries[i].1)
            },
            None => {
                proof {
                    if self@.contains_key(code@) {
                        let a = choose|a: int| 0 <= a < self.entries@.len() && self.entries@[a].0@ == code@;
                        assert(self.entries@[a].0@ == code@);
                    }
                }
                None
            },
        }
    }

    /// Builds the plugin a configuration asks for, through the entry
    /// registered under its code.
    pub fn create(&self, config: SgPluginConfig) -> (r: Result<crate::chain::SgPlugin, crate::chain::SgPluginBuildError>)
        requires
            self.wf(),
        ensures
            r.is_ok() == crate::chain::plugin_builds(self@, config),
            r matches Ok(p) ==> crate::chain::built_from(config.spec, p),
            !self@.contains_key(config.code@) ==> (r matches Err(crate::chain::SgPluginBuildError::NotFound(c)) && c@
                == config.code@),
    {
        crate::chain::build_plugin(self, config)
    }

    /// The repository with the built-in plugins.
    pub fn register_prelude() -> (r: Self)
        ensures
            r.wf(),
            r@ == prelude_plugins(),
    {
        let mut r = SgPluginRepository::new();
        r.register("header_modifier", SgPluginKind::HeaderModifier);
        r.register("redirect", SgPluginKind::Redirect);
        r.register("rewrite", SgPluginKind::Rewrite);
        r.register("retry", SgPluginKind::Retry);
        r.register("limit", SgPluginKind::Limit);
        r.register("inject", SgPluginKind::Inject);
        r.register("maintenance", SgPluginKind::Maintenance);
        r.register("decompression", SgPluginKind::Decompression);
        r.register("status", SgPluginKind::Status);
        r
    }
}

/// The built-in plugins by code.
pub open spec fn prelude_plugins() -> Map<Seq<char>, SgPluginKind> {
    Map::empty().insert("header_modifier"@, SgPluginKind::HeaderModifier).insert(
        "redirect"@,
        SgPluginKind::Redirect,
    ).insert("rewrite"@, SgPluginKind::Rewrite).insert("retry"@, SgPluginKind::Retry).insert(
        "limit"@,
        SgPluginKind::Limit,
    ).insert("inject"@, SgPluginKind::Inject).insert("maintenance"@, SgPluginKind::Maintenance).insert(
        "decompression"@,
        SgPluginKind::Decompression,
    ).insert("status"@, SgPluginKind::Status)
}

} // verus!
