//! The configuration file's contents: connection profiles, and the edits
//! and views of them that the `config` commands make.
use vstd::prelude::*;

use crate::sources::{copy_opt, SourceConfig, SourceV};
use crate::text::{chars_of, str_concat3, owned, pad_right, pad_str, views};

verus! {

/// One connection profile.
#[derive(Debug, PartialEq, Eq)]
pub struct ConnectionConfig {
    pub url: Option<String>,
    pub ext_url: Option<String>,
    pub db: Option<String>,
    pub username: Option<String>,
    pub password: Option<String>,
    pub cert: Option<String>,
    pub key: Option<String>,
    /// Whether `execute_kw` is blocked; absent means blocked.
    pub safe_mode: Option<bool>,
    pub sources: Vec<SourceConfig>,
}

/// The model of a profile.
pub struct ConnV {
    pub url: Option<Seq<char>>,
    pub ext_url: Option<Seq<char>>,
    pub db: Option<Seq<char>>,
    pub username: Option<Seq<char>>,
    pub password: Option<Seq<char>>,
    pub cert: Option<Seq<char>>,
    pub key: Option<Seq<char>>,
    pub safe_mode: Option<bool>,
    pub sources: Seq<SourceV>,
}

pub open spec fn sources_view(s: Seq<SourceConfig>) -> Seq<SourceV> {
    s.map_values(|x: SourceConfig| x@)
}

impl View for ConnectionConfig {
    type V = ConnV;

    open spec fn view(&self) -> ConnV {
        ConnV {
            url: self.url.deep_view(),
            ext_url: self.ext_url.deep_view(),
            db: self.db.deep_view(),
            username: self.username.deep_view(),
            password: self.password.deep_view(),
            cert: self.cert.deep_view(),
            key: self.key.deep_view(),
            safe_mode: self.safe_mode,
            sources: sources_view(self.sources@),
        }
    }
}

/// Whether a profile blocks `execute_kw`: it does unless it sets
/// `safe_mode: false`.
pub open spec fn safe_mode_on(c: ConnV) -> bool {
    c.safe_mode != Some(false)
}

impl ConnectionConfig {
    /// Whether this profile blocks `execute_kw` (safe mode is on unless the
    /// profile sets `safe_mode: false`).
    pub fn safe_mode(&self) -> (r: bool)
        ensures
            r == safe_mode_on(self@),
    {
        match self.safe_mode {
            Some(b) => b,
            None => true,
        }
    }
}

/// The empty profile.
pub open spec fn empty_conn() -> ConnV {
    ConnV {
        url: None,
        ext_url: None,
        db: None,
        username: None,
        password: None,
        cert: None,
        key: None,
        safe_mode: None,
        sources: Seq::empty(),
    }
}

fn push_source(v: &mut Vec<SourceConfig>, s: SourceConfig)
    ensures
        sources_view(final(v)@) == sources_view(old(v)@).push(s@),
{
    let ghost sv = s@;
    v.push(s);
    proof {
        assert(sources_view(v@) =~= sources_view(old(v)@).push(sv));
    }
}

fn copy_sources(v: &Vec<SourceConfig>) -> (r: Vec<SourceConfig>)
    ensures
        sources_view(r@) == sources_view(v@),
{
    let mut out: Vec<SourceConfig> = Vec::new();
    let mut i: usize = 0;
    while i < v.len()
        invariant
            i <= v@.len(),
            sources_view(out@) =~= sources_view(v@).take(i as int),
        decreases v@.len() - i,
    {
        let c = v[i].clone();
        push_source(&mut out, c);
        proof {
            assert(sources_view(out@) =~= sources_view(v@).take(i + 1));
        }
        i += 1;
    }
    proof {
        assert(sources_view(v@).take(v@.len() as int) =~= sources_view(v@));
    }
    out
}

impl Clone for ConnectionConfig {
    fn clone(&self) -> (r: Self)
        ensures
            r@ == self@,
    {
        ConnectionConfig {
            url: copy_opt(&self.url),
            ext_url: copy_opt(&self.ext_url),
            db: copy_opt(&self.db),
            username: copy_opt(&self.username),
            password: copy_opt(&self.password),
            cert: copy_opt(&self.cert),
            key: copy_opt(&self.key),
            safe_mode: self.safe_mode,
            sources: copy_sources(&self.sources),
        }
    }
}

impl Default for ConnectionConfig {
    fn default() -> (r: Self)
        ensures
            r@ == empty_conn(),
    {
        let r = ConnectionConfig {
            url: None,
            ext_url: None,
            db: None,
            username: None,
            password: None,
            cert: None,
            key: None,
            safe_mode: None,
            sources: Vec::new(),
        };
        proof {
            assert(sources_view(r.sources@) =~= Seq::<SourceV>::empty());
        }
        r
    }
}

/// Errors of the configuration commands.
#[derive(Debug, PartialEq, Eq)]
pub enum ConfigError {
    ProfileNotFound { profile: String },
}

impl ConfigError {
    pub open spec fn spec_message(&self) -> Seq<char> {
        match self {
            ConfigError::ProfileNotFound { profile } => "Profile '"@ + profile@ + "' not found"@,
        }
    }

    /// The error as a line of text.
    pub fn message(&self) -> (r: String)
        ensures
            r@ == self.spec_message(),
    {
        match self {
            ConfigError::ProfileNotFound { profile } => str_concat3(
                "Profile '",
                profile.as_str(),
                "' not found",
            ),
        }
    }
}

// ── the profile table ────────────────────────────────────────────────────────

/// No two entries share a name.
pub open spec fn names_unique(e: Seq<(String, ConnectionConfig)>) -> bool {
    forall|i: int, j: int| 0 <= i < j < e.len() ==> e[i].0@ != e[j].0@
}

/// Some entry is named `k`.
pub open spec fn has_name(e: Seq<(String, ConnectionConfig)>, k: Seq<char>) -> bool {
    exists|i: int| 0 <= i < e.len() && e[i].0@ == k
}

/// The profiles of a list of entries, by name.
pub open spec fn entry_map(e: Seq<(String, ConnectionConfig)>) -> Map<Seq<char>, ConnV> {
    Map::new(
        |k: Seq<char>| has_name(e, k),
        |k: Seq<char>| e[choose|i: int| 0 <= i < e.len() && e[i].0@ == k].1@,
    )
}

proof fn lemma_entry_at(e: Seq<(String, ConnectionConfig)>, i: int)
    requires
        names_unique(e),
        0 <= i < e.len(),
    ensures
        entry_map(e).dom().contains(e[i].0@),
        entry_map(e)[e[i].0@] == e[i].1@,
{
    let k = e[i].0@;
    assert(has_name(e, k));
    let j = choose|j: int| 0 <= j < e.len() && e[j].0@ == k;
    if j != i {
        if j < i {
            assert(e[j].0@ != e[i].0@);
        } else {
            assert(e[i].0@ != e[j].0@);
        }
    }
}

proof fn lemma_entry_update(e: Seq<(String, ConnectionConfig)>, i: int, v: ConnectionConfig)
    requires
        names_unique(e),
        0 <= i < e.len(),
    ensures
        names_unique(e.update(i, (e[i].0, v))),
        entry_map(e.update(i, (e[i].0, v))) == entry_map(e).insert(e[i].0@, v@),
{
    let e2 = e.update(i, (e[i].0, v));
    assert forall|k: Seq<char>| #[trigger] has_name(e2, k) == has_name(e, k) by {
        if has_name(e, k) {
            let j = choose|j: int| 0 <= j < e.len() && e[j].0@ == k;
            assert(e2[j].0@ == k);
        }
        if has_name(e2, k) {
            let j = choose|j: int| 0 <= j < e2.len() && e2[j].0@ == k;
            assert(e[j].0@ == k);
        }
    }
    assert forall|k: Seq<char>| #[trigger] entry_map(e2).dom().contains(k) implies entry_map(
        e2,
    )[k] == entry_map(e).insert(e[i].0@, v@)[k] by {
        let j = choose|j: int| 0 <= j < e2.len() && e2[j].0@ == k;
        lemma_entry_at(e2, j);
        if j != i {
            lemma_entry_at(e, j);
        }
    }
    assert(entry_map(e2) =~= entry_map(e).insert(e[i].0@, v@));
}

proof fn lemma_entry_push(e: Seq<(String, ConnectionConfig)>, name: String, v: ConnectionConfig)
    requires
        names_unique(e),
        !has_name(e, name@),
    ensures
        names_unique(e.push((name, v))),
        entry_map(e.push((name, v))) == entry_map(e).insert(name@, v@),
{
    let e2 = e.push((name, v));
    assert forall|k: Seq<char>| #[trigger] entry_map(e2).dom().contains(k) implies entry_map(
        e2,
    )[k] == entry_map(e).insert(name@, v@)[k] by {
        let j = choose|j: int| 0 <= j < e2.len() && e2[j].0@ == k;
        lemma_entry_at(e2, j);
        if j < e.len() {
            lemma_entry_at(e, j);
        }
    }
    assert forall|k: Seq<char>| #[trigger] has_name(e, k) implies has_name(e2, k) by {
        let j = choose|j: int| 0 <= j < e.len() && e[j].0@ == k;
        assert(e2[j].0@ == k);
    }
    assert(has_name(e2, name@)) by {
        assert(e2[e.len() as int].0@ == name@);
    }
    assert(entry_map(e2) =~= entry_map(e).insert(name@, v@));
}

proof fn lemma_entry_remove(e: Seq<(String, ConnectionConfig)>, i: int)
    requires
        names_unique(e),
        0 <= i < e.len(),
    ensures
        names_unique(e.remove(i)),
        entry_map(e.remove(i)) == entry_map(e).remove(e[i].0@),
{
    let e2 = e.remove(i);
    let name = e[i].0@;
    assert forall|a: int, b: int| 0 <= a < b < e2.len() implies e2[a].0@ != e2[b].0@ by {
        let a0 = if a < i {
            a
        } else {
            a + 1
        };
        let b0 = if b < i {
            b
        } else {
            b + 1
        };
        assert(e2[a] == e[a0]);
        assert(e2[b] == e[b0]);
    }
    assert forall|k: Seq<char>| #[trigger] has_name(e2, k) == (has_name(e, k) && k != name) by {
        if has_name(e2, k) {
            let j = choose|j: int| 0 <= j < e2.len() && e2[j].0@ == k;
            let j0 = if j < i {
                j
            } else {
                j + 1
            };
            assert(e[j0].0@ == k);
            assert(j0 != i);
            if j0 < i {
                assert(e[j0].0@ != e[i].0@);
            } else {
                assert(e[i].0@ != e[j0].0@);
            }
        }
        if has_name(e, k) && k != name {
            let j = choose|j: int| 0 <= j < e.len() && e[j].0@ == k;
            assert(j != i);
            if j < i {
                assert(e2[j].0@ == k);
            } else {
                assert(e2[j - 1].0@ == k);
            }
        }
    }
    assert forall|k: Seq<char>| #[trigger] entry_map(e2).dom().contains(k) implies entry_map(
        e2,
    )[k] == entry_map(e).remove(name)[k] by {
        let j = choose|j: int| 0 <= j < e2.len() && e2[j].0@ == k;
        lemma_entry_at(e2, j);
        let j0 = if j < i {
            j
        } else {
            j + 1
        };
        assert(e2[j] == e[j0]);
        lemma_entry_at(e, j0);
    }
    assert(entry_map(e2) =~= entry_map(e).remove(name));
}

/// The whole configuration: an optional default profile name and the
/// profiles by name.
pub struct Config {
    pub default: Option<String>,
    entries: Vec<(String, ConnectionConfig)>,
}

impl Config {
    /// Entries are kept with pairwise distinct names.
    pub closed spec fn wf(&self) -> bool {
        names_unique(self.entries@)
    }

    /// The profiles by name.
    pub closed spec fn profiles(&self) -> Map<Seq<char>, ConnV> {
        entry_map(self.entries@)
    }

    /// The default profile name.
    pub closed spec fn default_name(&self) -> Option<Seq<char>> {
        self.default.deep_view()
    }

    /// An empty configuration (also what a missing file reads as).
    pub fn new() -> (r: Config)
        ensures
            r.wf(),
            r.profiles() == Map::<Seq<char>, ConnV>::empty(),
            r.default_name() is None,
    {
        let r = Config { default: None, entries: Vec::new() };
        proof {
            assert(r.profiles() =~= Map::<Seq<char>, ConnV>::empty());
        }
        r
    }

    fn position(&self, name: &str) -> (r: Option<usize>)
        requires
            self.wf(),
        ensures
            match r {
                Some(i) => i < self.entries@.len() && self.entries@[i as int].0@ == name@,
                None => !has_name(self.entries@, name@),
            },
    {
        let wanted = owned(name);
        let mut i: usize = 0;
        while i < self.entries.len()
            invariant
                i <= self.entries@.len(),
                wanted@ == name@,
                forall|k: int| 0 <= k < i ==> self.entries@[k].0@ != name@,
            decreases self.entries@.len() - i,
        {
            if self.entries[i].0 == wanted {
                return Some(i);
            }
            i += 1;
        }
        None
    }

    /// Whether a profile of that name exists.
    pub fn contains(&self, name: &str) -> (r: bool)
        requires
            self.wf(),
        ensures
            r == self.profiles().dom().contains(name@),
    {
        self.position(name).is_some()
    }

    /// The entries, in storage order (names pairwise distinct).
    pub fn entries(&self) -> (r: &Vec<(String, ConnectionConfig)>)
        requires
            self.wf(),
        ensures
            names_unique(r@),
            entry_map(r@) == self.profiles(),
    {
        &self.entries
    }

    /// A copy of the profile `name`, or an empty profile where there is none.
    pub fn connection(&self, name: &str) -> (r: ConnectionConfig)
        requires
            self.wf(),
        ensures
            r@ == (if self.profiles().dom().contains(name@) {
                self.profiles()[name@]
            } else {
                empty_conn()
            }),
    {
        match self.position(name) {
            Some(i) => {
                proof {
                    lemma_entry_at(self.entries@, i as int);
                }
                self.entries[i].1.clone()
            },
            None => ConnectionConfig::default(),
        }
    }

    /// Stores `conn` as the profile `name`, replacing any profile of that name.
    pub fn insert(&mut self, name: &str, conn: ConnectionConfig)
        requires
            old(self).wf(),
        ensures
            final(self).wf(),
            final(self).profiles() == old(self).profiles().insert(name@, conn@),
            final(self).default_name() == old(self).default_name(),
    {
        match self.position(name) {
            Some(i) => {
                proof {
                    lemma_entry_update(self.entries@, i as int, conn);
                }
                let key = self.entries[i].0.clone();
                self.entries.set(i, (key, conn));
            },
            None => {
                let key = owned(name);
                proof {
                    lemma_entry_push(self.entries@, key, conn);
                }
                self.entries.push((key, conn));
            },
        }
    }

    /// `config remove`: deletes a profile; the default is cleared when it
    /// named that profile. An unknown profile is an error and changes nothing.
    pub fn remove_profile(&mut self, profile: &str) -> (r: Result<(), ConfigError>)
        requires
            old(self).wf(),
        ensures
            final(self).wf(),
            old(self).profiles().dom().contains(profile@) ==> r is Ok && final(self).profiles()
                == old(self).profiles().remove(profile@) && final(self).default_name() == (if old(
                self,
            ).default_name() == Some(profile@) {
                None
            } else {
                old(self).default_name()
            }),
            !old(self).profiles().dom().contains(profile@) ==> (r matches Err(
                ConfigError::ProfileNotFound { profile: p },
            ) && p@ == profile@ && final(self).profiles() == old(self).profiles()
                && final(self).default_name() == old(self).default_name()),
    {
        match self.position(profile) {
            None => Err(ConfigError::ProfileNotFound { profile: owned(profile) }),
            Some(i) => {
                proof {
                    lemma_entry_remove(self.entries@, i as int);
                }
                self.entries.remove(i);
                let clear = match &self.default {
                    Some(d) => *d == owned(profile),
                    None => false,
                };
                if clear {
                    self.default = None;
                }
                Ok(())
            },
        }
    }

    /// `config default`: makes an existing profile the default.
    pub fn set_default(&mut self, profile: &str) -> (r: Result<(), ConfigError>)
        requires
            old(self).wf(),
        ensures
            final(self).wf(),
            final(self).profiles() == old(self).profiles(),
            old(self).profiles().dom().contains(profile@) ==> r is Ok && final(self).default_name()
                == Some(profile@),
            !old(self).profiles().dom().contains(profile@) ==> (r matches Err(
                ConfigError::ProfileNotFound { profile: p },
            ) && p@ == profile@ && final(self).default_name() == old(self).default_name()),
    {
        if self.contains(profile) {
            self.default = Some(owned(profile));
            Ok(())
        } else {
            Err(ConfigError::ProfileNotFound { profile: owned(profile) })
        }
    }

    /// `config set`: creates or updates a profile with the given values and,
    /// if asked, makes it the default.
    pub fn set_profile(&mut self, profile: &str, update: &ProfileUpdate, make_default: bool)
        requires
            old(self).wf(),
        ensures
            final(self).wf(),
            final(self).profiles() == old(self).profiles().insert(
                profile@,
                apply_update(
                    if old(self).profiles().dom().contains(profile@) {
                        old(self).profiles()[profile@]
                    } else {
                        empty_conn()
                    },
                    update@,
                ),
            ),
            final(self).default_name() == (if make_default {
                Some(profile@)
            } else {
                old(self).default_name()
            }),
    {
        let current = self.connection(profile);
        let updated = update.apply(current);
        self.insert(profile, updated);
        if make_default {
            self.default = Some(owned(profile));
        }
    }

    /// The configuration with secrets masked (`config show`).
    pub fn masked(&self) -> (r: Config)
        requires
            self.wf(),
        ensures
            r.wf(),
            r.default_name() == self.default_name(),
            r.profiles().dom() == self.profiles().dom(),
            forall|k: Seq<char>| #[trigger]
                r.profiles().dom().contains(k) ==> r.profiles()[k] == mask_conn(self.profiles()[k]),
    {
        let mut entries: Vec<(String, ConnectionConfig)> = Vec::new();
        let mut i: usize = 0;
        while i < self.entries.len()
            invariant
                i <= self.entries@.len(),
                names_unique(self.entries@),
                entries@.len() == i,
                forall|k: int|
                    0 <= k < i ==> #[trigger] entries@[k].0@ == self.entries@[k].0@
                        && entries@[k].1@ == mask_conn(self.entries@[k].1@),
            decreases self.entries@.len() - i,
        {
            let name = self.entries[i].0.clone();
            let conn = mask_connection(&self.entries[i].1);
            entries.push((name, conn));
            i += 1;
        }
        let r = Config { default: copy_opt(&self.default), entries };
        proof {
            let e = self.entries@;
            let e2 = r.entries@;
            assert forall|k: Seq<char>| #[trigger] has_name(e2, k) == has_name(e, k) by {
                if has_name(e, k) {
                    let j = choose|j: int| 0 <= j < e.len() && e[j].0@ == k;
                    assert(e2[j].0@ == k);
                }
                if has_name(e2, k) {
                    let j = choose|j: int| 0 <= j < e2.len() && e2[j].0@ == k;
                    assert(e[j].0@ == k);
                }
            }
            assert(r.profiles().dom() =~= self.profiles().dom());
            assert forall|k: Seq<char>| #[trigger]
                r.profiles().dom().contains(k) implies r.profiles()[k] == mask_conn(
                self.profiles()[k],
            ) by {
                let j = choose|j: int| 0 <= j < e2.len() && e2[j].0@ == k;
                lemma_entry_at(e2, j);
                lemma_entry_at(e, j);
            }
        }
        r
    }

    /// The lines of `config list`: each profile, in name order, with its URL
    /// and a mark on the default one.
    pub fn profile_lines(&self) -> (r: Vec<String>)
        requires
            self.wf(),
        ensures
            self.profiles().dom().len() == 0 ==> views(r@) == seq![
                "No profiles configured. Run: odoo-mcp init"@,
            ],
            self.profiles().dom().len() > 0 ==> exists|names: Seq<Seq<char>>|
                {
                    &&& strictly_sorted(names)
                    &&& names.to_set() == self.profiles().dom()
                    &&& views(r@) == names.map_values(
                        |n: Seq<char>|
                            profile_line(
                                n,
                                self.profiles()[n].url,
                                match self.default_name() {
                                    Some(d) => d,
                                    None => ""@,
                                },
                            ),
                    )
                },
    {
        proof {
            lemma_dom_finite(self.entries@);
        }
        if self.entries.len() == 0 {
            let mut out: Vec<String> = Vec::new();
            crate::text::push_string(&mut out, owned("No profiles configured. Run: odoo-mcp init"));
            proof {
                assert(self.profiles().dom() =~= Set::<Seq<char>>::empty());
                assert(views(out@) =~= seq!["No profiles configured. Run: odoo-mcp init"@]);
            }
            return out;
        }
        let default = match &self.default {
            Some(d) => d.clone(),
            None => owned(""),
        };
        let names = self.sorted_names();
        let ghost nv = views(names@);
        let ghost mark_of = match self.default_name() {
            Some(d) => d,
            None => ""@,
        };
        let ghost line_of = |n: Seq<char>|
            profile_line(n, self.profiles()[n].url, mark_of);
        let mut out: Vec<String> = Vec::new();
        let mut i: usize = 0;
        while i < names.len()
            invariant
                self.wf(),
                i <= names@.len(),
                nv == views(names@),
                default@ == mark_of,
                line_of == (|n: Seq<char>| profile_line(n, self.profiles()[n].url, mark_of)),
                forall|k: int| 0 <= k < nv.len() ==> self.profiles().dom().contains(#[trigger] nv[k]),
                views(out@) =~= nv.take(i as int).map_values(line_of),
            decreases names@.len() - i,
        {
            assert(self.profiles().dom().contains(nv[i as int]));
            let conn = self.connection(names[i].as_str());
            let line = profile_line_text(names[i].as_str(), &conn.url, default.as_str());
            crate::text::push_string(&mut out, line);
            proof {
                assert(views(out@) =~= nv.take(i + 1).map_values(line_of));
            }
            i += 1;
        }
        proof {
            assert(nv.take(nv.len() as int) =~= nv);
            assert(self.profiles().dom().len() > 0) by {
                lemma_entry_at(self.entries@, 0);
                assert(self.profiles().dom().contains(self.entries@[0].0@));
            }
        }
        out
    }

    /// The profile names in lexicographic order.
    pub fn sorted_names(&self) -> (r: Vec<String>)
        requires
            self.wf(),
        ensures
            strictly_sorted(views(r@)),
            views(r@).to_set() == self.profiles().dom(),
            forall|k: int| 0 <= k < r@.len() ==> self.profiles().dom().contains(#[trigger] views(r@)[k]),
    {
        let mut sorted: Vec<String> = Vec::new();
        let mut keys: Vec<Vec<char>> = Vec::new();
        let mut i: usize = 0;
        while i < self.entries.len()
            invariant
                i <= self.entries@.len(),
                names_unique(self.entries@),
                keys@.len() == sorted@.len(),
                forall|k: int| 0 <= k < keys@.len() ==> #[trigger] keys@[k]@ == sorted@[k]@,
                strictly_sorted(views(sorted@)),
                views(sorted@).to_set() =~= self.entries@.take(i as int).map_values(
                    |e: (String, ConnectionConfig)| e.0@,
                ).to_set(),
            decreases self.entries@.len() - i,
        {
            let name = self.entries[i].0.clone();
            let key = chars_of(name.as_str());
            proof {
                assert forall|k: int| 0 <= k < sorted@.len() implies views(sorted@)[k] != name@ by {
                    let s = self.entries@.take(i as int).map_values(
                        |e: (String, ConnectionConfig)| e.0@,
                    );
                    assert(views(sorted@).to_set().contains(views(sorted@)[k]));
                    assert(s.to_set().contains(views(sorted@)[k]));
                    let j = choose|j: int| 0 <= j < s.len() && s[j] == views(sorted@)[k];
                    assert(self.entries@[j].0@ != self.entries@[i as int].0@);
                }
            }
            let mut p: usize = 0;
            while p < keys.len() && lex_less_chars(&keys[p], &key)
                invariant
                    p <= keys@.len(),
                    keys@.len() == sorted@.len(),
                    forall|k: int| 0 <= k < keys@.len() ==> #[trigger] keys@[k]@ == sorted@[k]@,
                    key@ == name@,
                    forall|k: int| 0 <= k < p ==> lex_less(#[trigger] views(sorted@)[k], name@),
                decreases keys@.len() - p,
            {
                p += 1;
            }
            let ghost before = views(sorted@);
            proof {
                lemma_insert_sorted(before, name@, p as int);
            }
            sorted.insert(p, name);
            keys.insert(p, key);
            proof {
                assert(views(sorted@) =~= before.insert(p as int, name@));
                let all = self.entries@.map_values(|e: (String, ConnectionConfig)| e.0@);
                assert(self.entries@.take(i + 1).map_values(|e: (String, ConnectionConfig)| e.0@)
                    =~= self.entries@.take(i as int).map_values(
                    |e: (String, ConnectionConfig)| e.0@,
                ).push(name@));
                lemma_insert_to_set(before, name@, p as int);
                self.entries@.take(i as int).map_values(|e: (String, ConnectionConfig)| e.0@).lemma_push_to_set_commute(name@);
                assert(views(sorted@).to_set() =~= self.entries@.take(i + 1).map_values(
                    |e: (String, ConnectionConfig)| e.0@,
                ).to_set());
                assert forall|k: int| 0 <= k < keys@.len() implies #[trigger] keys@[k]@
                    == sorted@[k]@ by {}
            }
            i += 1;
        }
        proof {
            let s = self.entries@.map_values(|e: (String, ConnectionConfig)| e.0@);
            assert(self.entries@.take(self.entries@.len() as int) =~= self.entries@);
            assert forall|k: Seq<char>| #[trigger] s.to_set().contains(k) == self.profiles().dom().contains(k) by {
                if s.to_set().contains(k) {
                    let j = choose|j: int| 0 <= j < s.len() && s[j] == k;
                    assert(self.entries@[j].0@ == k);
                }
                if self.profiles().dom().contains(k) {
                    let j = choose|j: int| 0 <= j < self.entries@.len() && self.entries@[j].0@ == k;
                    assert(s[j] == k);
                    assert(s.contains(k));
                }
            }
            assert(views(sorted@).to_set() =~= self.profiles().dom());
            assert forall|k: int| 0 <= k < sorted@.len() implies self.profiles().dom().contains(
                #[trigger] views(sorted@)[k],
            ) by {
                assert(views(sorted@).to_set().contains(views(sorted@)[k]));
            }
        }
        sorted
    }
}

proof fn lemma_dom_finite(e: Seq<(String, ConnectionConfig)>)
    ensures
        entry_map(e).dom().finite(),
        e.len() == 0 ==> entry_map(e).dom().len() == 0,
{
    let s = e.map_values(|x: (String, ConnectionConfig)| x.0@);
    assert forall|k: Seq<char>| #[trigger] entry_map(e).dom().contains(k) == s.to_set().contains(k) by {
        if entry_map(e).dom().contains(k) {
            let j = choose|j: int| 0 <= j < e.len() && e[j].0@ == k;
            assert(s[j] == k);
            assert(s.contains(k));
        }
        if s.to_set().contains(k) {
            let j = choose|j: int| 0 <= j < s.len() && s[j] == k;
            assert(e[j].0@ == k);
        }
    }
    assert(entry_map(e).dom() =~= s.to_set());
    vstd::seq_lib::seq_to_set_is_finite(s);
    if e.len() == 0 {
        assert(entry_map(e).dom() =~= Set::<Seq<char>>::empty());
    }
}

// ── masking ──────────────────────────────────────────────────────────────────

/// `***` in place of a present secret.
pub open spec fn mask(v: Option<Seq<char>>) -> Option<Seq<char>> {
    match v {
        Some(_) => Some("***"@),
        None => None,
    }
}

/// A source with its token masked.
pub open spec fn mask_source(s: SourceV) -> SourceV {
    SourceV { token: mask(s.token), ..s }
}

/// A profile with password, key and source tokens masked.
pub open spec fn mask_conn(c: ConnV) -> ConnV {
    ConnV {
        password: mask(c.password),
        key: mask(c.key),
        sources: c.sources.map_values(|s: SourceV| mask_source(s)),
        ..c
    }
}

fn mask_opt(v: &Option<String>) -> (r: Option<String>)
    ensures
        r.deep_view() == mask(v.deep_view()),
{
    match v {
        Some(_) => Some(owned("***")),
        None => None,
    }
}

fn mask_connection(c: &ConnectionConfig) -> (r: ConnectionConfig)
    ensures
        r@ == mask_conn(c@),
{
    let mut sources: Vec<SourceConfig> = Vec::new();
    let mut i: usize = 0;
    while i < c.sources.len()
        invariant
            i <= c.sources@.len(),
            sources_view(sources@) =~= sources_view(c.sources@).take(i as int).map_values(
                |s: SourceV| mask_source(s),
            ),
        decreases c.sources@.len() - i,
    {
        let src = &c.sources[i];
        let ghost before = sources@;
        let masked = SourceConfig {
            path: src.path.clone(),
            origin: copy_opt(&src.origin),
            branch: copy_opt(&src.branch),
            ssh_key: copy_opt(&src.ssh_key),
            token: mask_opt(&src.token),
            update_on_serve: src.update_on_serve,
        };
        push_source(&mut sources, masked);
        proof {
            assert(sources_view(sources@) =~= sources_view(c.sources@).take(i + 1).map_values(
                |s: SourceV| mask_source(s),
            ));
        }
        i += 1;
    }
    proof {
        assert(sources_view(c.sources@).take(c.sources@.len() as int) =~= sources_view(
            c.sources@,
        ));
    }
    let r = ConnectionConfig {
        url: copy_opt(&c.url),
        ext_url: copy_opt(&c.ext_url),
        db: copy_opt(&c.db),
        username: copy_opt(&c.username),
        password: mask_opt(&c.password),
        cert: copy_opt(&c.cert),
        key: mask_opt(&c.key),
        safe_mode: c.safe_mode,
        sources,
    };
    r
}

// ── updates ──────────────────────────────────────────────────────────────────

/// The values `config set` may change; absent ones are left as they are.
pub struct ProfileUpdate {
    pub url: Option<String>,
    pub db: Option<String>,
    pub username: Option<String>,
    pub password: Option<String>,
    pub ext_url: Option<String>,
    pub cert: Option<String>,
    pub key: Option<String>,
    pub safe_mode: Option<bool>,
}

pub struct UpdateV {
    pub url: Option<Seq<char>>,
    pub db: Option<Seq<char>>,
    pub username: Option<Seq<char>>,
    pub password: Option<Seq<char>>,
    pub ext_url: Option<Seq<char>>,
    pub cert: Option<Seq<char>>,
    pub key: Option<Seq<char>>,
    pub safe_mode: Option<bool>,
}

impl View for ProfileUpdate {
    type V = UpdateV;

    open spec fn view(&self) -> UpdateV {
        UpdateV {
            url: self.url.deep_view(),
            db: self.db.deep_view(),
            username: self.username.deep_view(),
            password: self.password.deep_view(),
            ext_url: self.ext_url.deep_view(),
            cert: self.cert.deep_view(),
            key: self.key.deep_view(),
            safe_mode: self.safe_mode,
        }
    }
}

/// A given value, else the current one.
pub open spec fn overwrite(given: Option<Seq<char>>, current: Option<Seq<char>>) -> Option<Seq<char>> {
    match given {
        Some(v) => Some(v),
        None => current,
    }
}

/// A profile with the given values written over it.
pub open spec fn apply_update(c: ConnV, u: UpdateV) -> ConnV {
    ConnV {
        url: overwrite(u.url, c.url),
        ext_url: overwrite(u.ext_url, c.ext_url),
        db: overwrite(u.db, c.db),
        username: overwrite(u.username, c.username),
        password: overwrite(u.password, c.password),
        cert: overwrite(u.cert, c.cert),
        key: overwrite(u.key, c.key),
        safe_mode: match u.safe_mode {
            Some(b) => Some(b),
            None => c.safe_mode,
        },
        sources: c.sources,
    }
}

fn overwrite_opt(given: &Option<String>, current: Option<String>) -> (r: Option<String>)
    ensures
        r.deep_view() == overwrite(given.deep_view(), current.deep_view()),
{
    match given {
        Some(v) => Some(v.clone()),
        None => current,
    }
}

impl ProfileUpdate {
    /// Writes the given values over `conn`.
    pub fn apply(&self, conn: ConnectionConfig) -> (r: ConnectionConfig)
        ensures
            r@ == apply_update(conn@, self@),
    {
        ConnectionConfig {
            url: overwrite_opt(&self.url, conn.url),
            ext_url: overwrite_opt(&self.ext_url, conn.ext_url),
            db: overwrite_opt(&self.db, conn.db),
            username: overwrite_opt(&self.username, conn.username),
            password: overwrite_opt(&self.password, conn.password),
            cert: overwrite_opt(&self.cert, conn.cert),
            key: overwrite_opt(&self.key, conn.key),
            safe_mode: match self.safe_mode {
                Some(b) => Some(b),
                None => conn.safe_mode,
            },
            sources: conn.sources,
        }
    }
}

// ── listing ──────────────────────────────────────────────────────────────────

/// `a` comes before `b` in lexicographic order of characters (the order of
/// `String`'s `Ord`).
pub open spec fn lex_less(a: Seq<char>, b: Seq<char>) -> bool
    decreases a.len(),
{
    if b.len() == 0 {
        false
    } else if a.len() == 0 {
        true
    } else if a[0] < b[0] {
        true
    } else if a[0] == b[0] {
        lex_less(a.drop_first(), b.drop_first())
    } else {
        false
    }
}

/// Each element comes strictly before the next ones.
pub open spec fn strictly_sorted(s: Seq<Seq<char>>) -> bool {
    forall|i: int, j: int| 0 <= i < j < s.len() ==> lex_less(s[i], s[j])
}

proof fn lemma_lex_total(a: Seq<char>, b: Seq<char>)
    ensures
        a != b ==> lex_less(a, b) || lex_less(b, a),
        !(lex_less(a, b) && lex_less(b, a)),
        !lex_less(a, a),
    decreases a.len(),
{
    if a.len() > 0 && b.len() > 0 {
        lemma_lex_total(a.drop_first(), b.drop_first());
        if a[0] == b[0] && a != b {
            assert(a =~= seq![a[0]] + a.drop_first());
            assert(b =~= seq![b[0]] + b.drop_first());
        }
    } else if a.len() == 0 && b.len() == 0 {
        assert(a =~= b);
    }
    if a.len() > 0 {
        lemma_lex_total(a.drop_first(), a.drop_first());
    }
}

proof fn lemma_lex_trans(a: Seq<char>, b: Seq<char>, c: Seq<char>)
    requires
        lex_less(a, b),
        lex_less(b, c),
    ensures
        lex_less(a, c),
    decreases a.len(),
{
    if a.len() > 0 && b.len() > 0 && c.len() > 0 {
        if a[0] == b[0] && b[0] == c[0] {
            lemma_lex_trans(a.drop_first(), b.drop_first(), c.drop_first());
        }
    }
}

proof fn lemma_insert_sorted(s: Seq<Seq<char>>, x: Seq<char>, p: int)
    requires
        strictly_sorted(s),
        0 <= p <= s.len(),
        forall|k: int| 0 <= k < p ==> lex_less(#[trigger] s[k], x),
        p < s.len() ==> !lex_less(s[p], x),
        forall|k: int| 0 <= k < s.len() ==> #[trigger] s[k] != x,
    ensures
        strictly_sorted(s.insert(p, x)),
{
    let t = s.insert(p, x);
    if p < s.len() {
        lemma_lex_total(s[p], x);
    }
    assert forall|i: int, j: int| 0 <= i < j < t.len() implies lex_less(t[i], t[j]) by {
        if j < p {
        } else if j == p {
            assert(t[i] == s[i]);
        } else if i < p {
            assert(t[i] == s[i]);
            assert(t[j] == s[j - 1]);
            lemma_lex_trans(s[i], x, s[p]);
            if j - 1 > p {
                lemma_lex_trans(s[i], s[p], s[j - 1]);
            }
        } else if i == p {
            assert(t[j] == s[j - 1]);
            if j - 1 > p {
                lemma_lex_trans(x, s[p], s[j - 1]);
            }
        } else {
            assert(t[i] == s[i - 1]);
            assert(t[j] == s[j - 1]);
        }
    }
}

proof fn lemma_insert_to_set(s: Seq<Seq<char>>, x: Seq<char>, p: int)
    requires
        0 <= p <= s.len(),
    ensures
        s.insert(p, x).to_set() == s.to_set().insert(x),
{
    let t = s.insert(p, x);
    assert forall|y: Seq<char>| #[trigger] t.to_set().contains(y) == s.to_set().insert(x).contains(y) by {
        if t.contains(y) {
            let j = choose|j: int| 0 <= j < t.len() && t[j] == y;
            if j < p {
                assert(s[j] == y);
            } else if j > p {
                assert(s[j - 1] == y);
            }
        }
        if s.contains(y) {
            let j = choose|j: int| 0 <= j < s.len() && s[j] == y;
            if j < p {
                assert(t[j] == y);
            } else {
                assert(t[j + 1] == y);
            }
        }
        if y == x {
            assert(t[p] == x);
        }
    }
    assert(t.to_set() =~= s.to_set().insert(x));
}

/// Compares two strings lexicographically by characters.
fn lex_less_chars(a: &Vec<char>, b: &Vec<char>) -> (r: bool)
    ensures
        r == lex_less(a@, b@),
{
    let mut i: usize = 0;
    proof {
        assert(a@.skip(0) =~= a@);
        assert(b@.skip(0) =~= b@);
    }
    while i < a.len() && i < b.len() && a[i] == b[i]
        invariant
            i <= a@.len(),
            i <= b@.len(),
            lex_less(a@, b@) == lex_less(a@.skip(i as int), b@.skip(i as int)),
        decreases a@.len() - i,
    {
        proof {
            assert(a@.skip(i as int).drop_first() =~= a@.skip(i + 1));
            assert(b@.skip(i as int).drop_first() =~= b@.skip(i + 1));
        }
        i += 1;
    }
    if i == b.len() {
        false
    } else if i == a.len() {
        true
    } else {
        a[i] < b[i]
    }
}

/// A line of `config list`: the name padded to 20 characters, the URL (or
/// `(no url)`), and a mark on the default profile.
pub open spec fn profile_line(name: Seq<char>, url: Option<Seq<char>>, default: Seq<char>) -> Seq<char> {
    "  "@ + pad_right(name, 20) + " "@ + match url {
        Some(u) => u,
        None => "(no url)"@,
    } + if name == default {
        "  ← default"@
    } else {
        ""@
    }
}

fn profile_line_text(name: &str, url: &Option<String>, default: &str) -> (r: String)
    ensures
        r@ == profile_line(name@, url.deep_view(), default@),
{
    let padded = pad_str(name, 20);
    let mut out = str_concat3("  ", padded.as_str(), " ");
    match url {
        Some(u) => out.append(u.as_str()),
        None => out.append("(no url)"),
    }
    if owned(name) == owned(default) {
        out.append("  ← default");
    } else {
        out.append("");
    }
    out
}

/// The profile to use: the one named on the command line, else the
/// configured default, else `default`.
pub fn profile_name(cli: Option<&str>, configured: Option<&str>) -> (r: String)
    ensures
        r@ == match cli {
            Some(p) => p@,
            None => match configured {
                Some(d) => d@,
                None => "default"@,
            },
        },
{
    match cli {
        Some(p) => owned(p),
        None => match configured {
            Some(d) => owned(d),
            None => owned("default"),
        },
    }
}

/// Setting a value and reading it back: after `config set`, the profile
/// exists, holds every value given and keeps every value not given (and its
/// sources); the other profiles are untouched.
pub proof fn law_set_then_get(
    old_profiles: Map<Seq<char>, ConnV>,
    profile: Seq<char>,
    update: UpdateV,
    other: Seq<char>,
)
    requires
        other != profile,
    ensures
        ({
            let current = if old_profiles.dom().contains(profile) {
                old_profiles[profile]
            } else {
                empty_conn()
            };
            let new_profiles = old_profiles.insert(profile, apply_update(current, update));
            let got = new_profiles[profile];
            &&& new_profiles.dom().contains(profile)
            &&& got.url == (if update.url is Some { update.url } else { current.url })
            &&& got.ext_url == (if update.ext_url is Some { update.ext_url } else { current.ext_url })
            &&& got.db == (if update.db is Some { update.db } else { current.db })
            &&& got.username == (if update.username is Some { update.username } else { current.username })
            &&& got.password == (if update.password is Some { update.password } else { current.password })
            &&& got.cert == (if update.cert is Some { update.cert } else { current.cert })
            &&& got.key == (if update.key is Some { update.key } else { current.key })
            &&& got.safe_mode == (if update.safe_mode is Some { update.safe_mode } else { current.safe_mode })
            &&& got.sources == current.sources
            &&& new_profiles.dom().contains(other) == old_profiles.dom().contains(other)
            &&& (old_profiles.dom().contains(other) ==> new_profiles[other] == old_profiles[other])
        }),
{
}

/// Masking hides every secret and nothing else, and masking twice is the
/// same as masking once.
pub proof fn law_mask_hides_secrets(c: ConnV)
    ensures
        mask_conn(c).password is Some ==> mask_conn(c).password == Some("***"@),
        mask_conn(c).key is Some ==> mask_conn(c).key == Some("***"@),
        mask_conn(c).password is Some == c.password is Some,
        forall|i: int|
            0 <= i < c.sources.len() ==> (#[trigger] mask_conn(c).sources[i]).token == mask(
                c.sources[i].token,
            ),
        mask_conn(c).url == c.url && mask_conn(c).db == c.db && mask_conn(c).username
            == c.username && mask_conn(c).cert == c.cert && mask_conn(c).ext_url == c.ext_url
            && mask_conn(c).safe_mode == c.safe_mode,
        mask_conn(mask_conn(c)) == mask_conn(c),
{
    let m = mask_conn(c);
    let mm = mask_conn(m);
    assert(mm.sources =~= m.sources);
}

} // verus!
