//! Translation providers as the configuration names them.

use crate::text;
use crate::text::{clone_opt, same_text};
use vstd::prelude::*;

verus! {

/// Which service a provider is.
#[derive(Debug, Clone, Copy, PartialEq, Eq, Structural)]
pub enum ProviderKind {
    /// A server with an OpenAI style chat completions endpoint.
    OpenAiCompatible,
    GoogleTranslate,
    BingTranslate,
    DeepLTranslate,
}

/// How a translation service is reached.
#[derive(Debug, Clone, Copy, PartialEq, Eq, Structural)]
pub enum ProviderMode {
    /// The free endpoint that the service's own web page uses, without a key.
    Public,
    /// The official interface, with a key.
    Private,
}

/// One provider's settings.
#[derive(Debug)]
pub struct ProviderConfig {
    pub kind: ProviderKind,
    pub mode: ProviderMode,
    pub base_url: Option<String>,
    /// The key itself.
    pub api_key: Option<String>,
    /// The environment variable that holds the key.
    pub api_key_env: Option<String>,
    pub model: Option<String>,
    /// The Azure region.
    pub region: Option<String>,
    pub timeout_secs: u64,
}

#[verifier::ext_equal]
pub struct ProviderView {
    pub kind: ProviderKind,
    pub mode: ProviderMode,
    pub base_url: Option<Seq<char>>,
    pub api_key: Option<Seq<char>>,
    pub api_key_env: Option<Seq<char>>,
    pub model: Option<Seq<char>>,
    pub region: Option<Seq<char>>,
    pub timeout_secs: u64,
}

impl View for ProviderConfig {
    type V = ProviderView;

    open spec fn view(&self) -> ProviderView {
        ProviderView {
            kind: self.kind,
            mode: self.mode,
            base_url: text::opt_text(self.base_url),
            api_key: text::opt_text(self.api_key),
            api_key_env: text::opt_text(self.api_key_env),
            model: text::opt_text(self.model),
            region: text::opt_text(self.region),
            timeout_secs: self.timeout_secs,
        }
    }
}

pub open spec fn provider_default() -> ProviderView {
    ProviderView {
        kind: ProviderKind::OpenAiCompatible,
        mode: ProviderMode::Private,
        base_url: None,
        api_key: None,
        api_key_env: None,
        model: None,
        region: None,
        timeout_secs: 60,
    }
}

impl Default for ProviderConfig {
    fn default() -> (r: Self)
        ensures
            r@ == provider_default(),
    {
        ProviderConfig {
            kind: ProviderKind::OpenAiCompatible,
            mode: ProviderMode::Private,
            base_url: None,
            api_key: None,
            api_key_env: None,
            model: None,
            region: None,
            timeout_secs: 60,
        }
    }
}

impl Clone for ProviderConfig {
    fn clone(&self) -> (r: Self)
        ensures
            r@ == self@,
    {
        ProviderConfig {
            kind: self.kind,
            mode: self.mode,
            base_url: clone_opt(&self.base_url),
            api_key: clone_opt(&self.api_key),
            api_key_env: clone_opt(&self.api_key_env),
            model: clone_opt(&self.model),
            region: clone_opt(&self.region),
            timeout_secs: self.timeout_secs,
        }
    }
}

/// The text, if there is one and it is not empty.
pub open spec fn filled(o: Option<Seq<char>>) -> Option<Seq<char>> {
    match o {
        Some(s) => if s.len() > 0 {
            Some(s)
        } else {
            None
        },
        None => None,
    }
}

/// The key in force: the environment variable's value where one is named
/// and holds something, else the key in the configuration. An empty key
/// counts as none.
pub open spec fn key_in_force(p: ProviderView, env_value: Option<Seq<char>>) -> Option<Seq<char>> {
    if p.api_key_env is Some && filled(env_value) is Some {
        filled(env_value)
    } else {
        filled(p.api_key)
    }
}

impl ProviderConfig {
    /// The key to send, if any. `env_value` is what the environment holds
    /// under the name `api_key_env`.
    pub fn resolve_api_key(&self, env_value: Option<&str>) -> (r: Option<String>)
        ensures
            text::opt_text(r) == key_in_force(
                self@,
                match env_value {
                    Some(s) => Some(s@),
                    None => None,
                },
            ),
    {
        if self.api_key_env.is_some() {
            if let Some(v) = env_value {
                if !v.is_empty() {
                    return Some(v.to_owned());
                }
            }
        }
        match &self.api_key {
            Some(key) => {
                if key.as_str().is_empty() {
                    None
                } else {
                    Some(key.clone())
                }
            },
            None => None,
        }
    }
}

/// A key in force is never blank: a blank one counts as none.
pub proof fn law_blank_key_is_none(p: ProviderView, env_value: Option<Seq<char>>)
    ensures
        key_in_force(p, env_value) matches Some(k) ==> k.len() > 0,
        p.api_key == Some(Seq::<char>::empty()) && filled(env_value) is None ==> key_in_force(
            p,
            env_value,
        ) is None,
{
}

// ---------------------------------------------------------------------
// The table of providers
// ---------------------------------------------------------------------

/// A provider and the name it goes by.
#[derive(Debug)]
pub struct ProviderEntry {
    pub name: String,
    pub config: ProviderConfig,
}

impl Clone for ProviderEntry {
    fn clone(&self) -> (r: Self)
        ensures
            r.name@ == self.name@,
            r.config@ == self.config@,
    {
        ProviderEntry { name: self.name.clone(), config: self.config.clone() }
    }
}

/// The providers by name. No name occurs twice.
#[derive(Debug)]
pub struct ProviderTable {
    pub entries: Vec<ProviderEntry>,
}

/// What a list of entries maps each name to; of two entries with one name
/// the later counts.
pub open spec fn table_of(entries: Seq<ProviderEntry>) -> Map<Seq<char>, ProviderView>
    decreases entries.len(),
{
    if entries.len() == 0 {
        Map::<Seq<char>, ProviderView>::empty()
    } else {
        table_of(entries.drop_last()).insert(entries.last().name@, entries.last().config@)
    }
}

/// No name occurs twice.
pub open spec fn names_distinct(entries: Seq<ProviderEntry>) -> bool {
    forall|i: int, j: int|
        0 <= i < j < entries.len() ==> (#[trigger] entries[i]).name@ != (
        #[trigger] entries[j]).name@
}

impl View for ProviderTable {
    type V = Map<Seq<char>, ProviderView>;

    open spec fn view(&self) -> Map<Seq<char>, ProviderView> {
        table_of(self.entries@)
    }
}

/// A name is in the table exactly if an entry has it.
pub proof fn lemma_table_names(entries: Seq<ProviderEntry>)
    ensures
        forall|k: Seq<char>| #[trigger]
            table_of(entries).contains_key(k) <==> exists|i: int|
                0 <= i < entries.len() && (#[trigger] entries[i]).name@ == k,
    decreases entries.len(),
{
    if entries.len() > 0 {
        let rest = entries.drop_last();
        lemma_table_names(rest);
        assert forall|k: Seq<char>| #[trigger]
            table_of(entries).contains_key(k) <==> exists|i: int|
                0 <= i < entries.len() && (#[trigger] entries[i]).name@ == k by {
            if table_of(entries).contains_key(k) {
                if entries.last().name@ == k {
                    assert(entries[entries.len() - 1].name@ == k);
                } else {
                    assert(table_of(rest).contains_key(k));
                    let i = choose|i: int|
                        0 <= i < rest.len() && (#[trigger] rest[i]).name@ == k;
                    assert(entries[i].name@ == k);
                }
            }
            if exists|i: int| 0 <= i < entries.len() && (#[trigger] entries[i]).name@ == k {
                let i = choose|i: int|
                    0 <= i < entries.len() && (#[trigger] entries[i]).name@ == k;
                if i < rest.len() {
                    assert(rest[i].name@ == k);
                    assert(table_of(rest).contains_key(k));
                }
            }
        }
    }
}

/// With distinct names, each entry's settings stand under its name.
pub proof fn lemma_table_entry(entries: Seq<ProviderEntry>, i: int)
    requires
        names_distinct(entries),
        0 <= i < entries.len(),
    ensures
        table_of(entries).contains_key(entries[i].name@),
        table_of(entries)[entries[i].name@] == entries[i].config@,
    decreases entries.len(),
{
    if i < entries.len() - 1 {
        let rest = entries.drop_last();
        assert(rest[i] == entries[i]);
        lemma_table_entry(rest, i);
        assert(entries[i].name@ != entries[entries.len() - 1].name@);
    }
}

impl ProviderTable {
    /// No name occurs twice.
    pub open spec fn wf(&self) -> bool {
        names_distinct(self.entries@)
    }

    /// The table without providers.
    pub fn new() -> (r: Self)
        ensures
            r.wf(),
            r@ == Map::<Seq<char>, ProviderView>::empty(),
    {
        ProviderTable { entries: Vec::new() }
    }

    /// Where a name stands.
    fn position(&self, name: &str) -> (r: Option<usize>)
        ensures
            (match r {
                Some(i) => i < self.entries@.len() && self.entries@[i as int].name@ == name@,
                None => !self@.contains_key(name@),
            }),
    {
        let mut i: usize = 0;
        while i < self.entries.len()
            invariant
                i <= self.entries@.len(),
                forall|k: int| 0 <= k < i ==> (#[trigger] self.entries@[k]).name@ != name@,
            decreases self.entries@.len() - i,
        {
            if same_text(self.entries[i].name.as_str(), name) {
                return Some(i);
            }
            i += 1;
        }
        proof {
            lemma_table_names(self.entries@);
        }
        None
    }

    /// The settings under a name.
    pub fn get(&self, name: &str) -> (r: Option<&ProviderConfig>)
        requires
            self.wf(),
        ensures
            (match r {
                Some(p) => self@.contains_key(name@) && p@ == self@[name@],
                None => !self@.contains_key(name@),
            }),
    {
        match self.position(name) {
            Some(i) => {
                proof {
                    lemma_table_entry(self.entries@, i as int);
                }
                Some(&self.entries[i].config)
            },
            None => None,
        }
    }

    /// Whether there is a provider of that name.
    pub fn contains_key(&self, name: &str) -> (b: bool)
        requires
            self.wf(),
        ensures
            b == self@.contains_key(name@),
    {
        self.get(name).is_some()
    }

    /// Whether there is no provider.
    pub fn is_empty(&self) -> (b: bool)
        ensures
            b == (self@ == Map::<Seq<char>, ProviderView>::empty()),
    {
        let b = self.entries.len() == 0;
        proof {
            lemma_table_names(self.entries@);
            if !b {
                assert(self.entries@[0].name@ == self.entries@[0].name@);
                assert(self@.contains_key(self.entries@[0].name@));
            }
        }
        b
    }

    /// Puts a provider under a name, in place of the one that was there.
    pub fn insert(&mut self, name: String, config: ProviderConfig)
        requires
            old(self).wf(),
        ensures
            final(self).wf(),
            final(self)@ == old(self)@.insert(name@, config@),
    {
        let ghost before = self.entries@;
        match self.position(name.as_str()) {
            Some(i) => {
                let entry = ProviderEntry { name, config };
                self.entries.set(i, entry);
                proof {
                    let after = self.entries@;
                    assert(names_distinct(after)) by {
                        assert forall|a: int, b: int| 0 <= a < b < after.len() implies (
                        #[trigger] after[a]).name@ != (#[trigger] after[b]).name@ by {
                            assert(before[a].name@ != before[b].name@);
                        }
                    }
                    lemma_table_names(before);
                    lemma_table_names(after);
                    assert forall|k: Seq<char>|
                        table_of(after).contains_key(k) <==> table_of(before).insert(
                            name@,
                            config@,
                        ).contains_key(k) by {
                        if table_of(after).contains_key(k) {
                            let j = choose|j: int|
                                0 <= j < after.len() && (#[trigger] after[j]).name@ == k;
                            assert(before[j].name@ == k);
                        }
                        if table_of(before).contains_key(k) {
                            let j = choose|j: int|
                                0 <= j < before.len() && (#[trigger] before[j]).name@ == k;
                            assert(after[j].name@ == k);
                        }
                        if k == name@ {
                            assert(after[i as int].name@ == k);
                        }
                    }
                    assert forall|k: Seq<char>| #[trigger]
                        table_of(after).contains_key(k) implies table_of(after)[k] == table_of(
                        before,
                    ).insert(name@, config@)[k] by {
                        let j = choose|j: int|
                            0 <= j < after.len() && (#[trigger] after[j]).name@ == k;
                        lemma_table_entry(after, j);
                        lemma_table_entry(before, j);
                        if j != i {
                            if j < i {
                                assert(before[j].name@ != before[i as int].name@);
                            } else {
                                assert(before[i as int].name@ != before[j].name@);
                            }
                        }
                    }
                    assert(table_of(after) =~= table_of(before).insert(name@, config@));
                }
            },
            None => {
                proof {
                    lemma_table_names(before);
                }
                let entry = ProviderEntry { name, config };
                self.entries.push(entry);
                proof {
                    let after = self.entries@;
                    assert(after.drop_last() == before);
                    assert forall|a: int, b: int| 0 <= a < b < after.len() implies (
                    #[trigger] after[a]).name@ != (#[trigger] after[b]).name@ by {
                        if b < before.len() {
                            assert(before[a].name@ != before[b].name@);
                        } else {
                            assert(before[a] == after[a]);
                            assert(before[a].name@ != name@);
                        }
                    }
                }
            },
        }
    }
}

/// Copies of a list of entries.
pub fn clone_entries(v: &Vec<ProviderEntry>) -> (r: Vec<ProviderEntry>)
    ensures
        r@.len() == v@.len(),
        forall|k: int|
            0 <= k < v@.len() ==> (#[trigger] r@[k]).name@ == v@[k].name@ && r@[k].config@
                == v@[k].config@,
{
    let mut r: Vec<ProviderEntry> = Vec::new();
    let mut i: usize = 0;
    while i < v.len()
        invariant
            i <= v@.len(),
            r@.len() == i,
            forall|k: int|
                0 <= k < i ==> (#[trigger] r@[k]).name@ == v@[k].name@ && r@[k].config@
                    == v@[k].config@,
        decreases v@.len() - i,
    {
        r.push(v[i].clone());
        i += 1;
    }
    r
}

/// Lists that agree entry by entry make the same table.
pub proof fn lemma_same_table(a: Seq<ProviderEntry>, b: Seq<ProviderEntry>)
    requires
        a.len() == b.len(),
        forall|k: int|
            0 <= k < a.len() ==> (#[trigger] a[k]).name@ == b[k].name@ && a[k].config@
                == b[k].config@,
    ensures
        table_of(a) == table_of(b),
        names_distinct(a) == names_distinct(b),
    decreases a.len(),
{
    if a.len() > 0 {
        assert forall|k: int| 0 <= k < a.len() - 1 implies (#[trigger] a.drop_last()[k]).name@
            == b.drop_last()[k].name@ && a.drop_last()[k].config@ == b.drop_last()[k].config@ by {
            assert(a[k] == a.drop_last()[k]);
        }
        lemma_same_table(a.drop_last(), b.drop_last());
        assert(a[a.len() - 1].name@ == b[a.len() - 1].name@);
    }
    assert(names_distinct(a) == names_distinct(b)) by {
        if names_distinct(a) {
            assert forall|i: int, j: int| 0 <= i < j < b.len() implies (#[trigger] b[i]).name@ != (
            #[trigger] b[j]).name@ by {
                assert(a[i].name@ != a[j].name@);
            }
        }
        if names_distinct(b) {
            assert forall|i: int, j: int| 0 <= i < j < a.len() implies (#[trigger] a[i]).name@ != (
            #[trigger] a[j]).name@ by {
                assert(b[i].name@ != b[j].name@);
            }
        }
    }
}

impl Clone for ProviderTable {
    fn clone(&self) -> (r: Self)
        ensures
            r@ == self@,
            r.wf() == self.wf(),
    {
        let entries = clone_entries(&self.entries);
        proof {
            lemma_same_table(entries@, self.entries@);
        }
        ProviderTable { entries }
    }
}

// ---------------------------------------------------------------------
// What the settings and the table give
// ---------------------------------------------------------------------

/// The key in force is what the environment holds, where a variable is named
/// for it and holds something; else the configured key; an empty one counts
/// as none.
pub proof fn law_key_in_force(p: &ProviderConfig, env_value: Option<&str>, r: Option<String>)
    requires
        call_ensures(ProviderConfig::resolve_api_key, (p, env_value), r),
    ensures
        p.api_key_env is Some && env_value is Some && env_value->0@.len() > 0 ==> (r matches Some(k)
            && k@ == env_value->0@),
        p.api_key_env is None || env_value is None || env_value->0@.len() == 0 ==> {
            &&& p.api_key is Some && p.api_key->0@.len() > 0 ==> (r matches Some(k) && k@
                == p.api_key->0@)
            &&& p.api_key is None || p.api_key->0@.len() == 0 ==> r is None
        },
{
}

/// A provider is found under its name, and nothing under a name that no
/// provider has.
pub proof fn law_provider_is_found_by_name(
    t: &ProviderTable,
    name: &str,
    r: Option<&ProviderConfig>,
    there: bool,
    i: int,
)
    requires
        t.wf(),
        call_ensures(ProviderTable::get, (t, name), r),
        call_ensures(ProviderTable::contains_key, (t, name), there),
    ensures
        there == (r is Some),
        0 <= i < t.entries@.len() && t.entries@[i].name@ == name@ ==> (r matches Some(p) && p@
            == t.entries@[i].config@),
        (forall|k: int| 0 <= k < t.entries@.len() ==> (#[trigger] t.entries@[k]).name@ != name@)
            ==> r is None,
{
    lemma_table_names(t.entries@);
    if 0 <= i < t.entries@.len() && t.entries@[i].name@ == name@ {
        lemma_table_entry(t.entries@, i);
    }
}

/// A provider that was put under a name is found there; all others are found
/// as before.
pub proof fn law_put_provider_is_found(
    t: &mut ProviderTable,
    name: String,
    config: ProviderConfig,
    other: &str,
    before: Option<&ProviderConfig>,
    after: Option<&ProviderConfig>,
)
    requires
        old(t).wf(),
        call_ensures(ProviderTable::insert, (t, name, config), ()),
        call_ensures(ProviderTable::get, (old(t), other), before),
        call_ensures(ProviderTable::get, (final(t), other), after),
    ensures
        other@ == name@ ==> (after matches Some(p) && p@ == config@),
        other@ != name@ ==> (match before {
            Some(p) => after matches Some(q) && q@ == p@,
            None => after is None,
        }),
{
}

/// A new table has no entries.
pub proof fn law_new_table_is_empty(t: ProviderTable)
    requires
        call_ensures(ProviderTable::new, (), t),
    ensures
        t.entries@.len() == 0,
{
    lemma_table_names(t.entries@);
    if t.entries@.len() > 0 {
        assert(t.entries@[0].name@ == t.entries@[0].name@);
        assert(t@.contains_key(t.entries@[0].name@));
    }
}

/// A table is empty if it has no entries.
pub proof fn law_empty_table(t: &ProviderTable, b: bool)
    requires
        call_ensures(ProviderTable::is_empty, (t,), b),
    ensures
        b <==> t.entries@.len() == 0,
{
    lemma_table_names(t.entries@);
    if t.entries@.len() > 0 {
        assert(t.entries@[0].name@ == t.entries@[0].name@);
        assert(t@.contains_key(t.entries@[0].name@));
    } else {
        assert(t@ =~= Map::<Seq<char>, ProviderView>::empty());
    }
}

/// Copies of entries say the same, in the same order.
pub proof fn law_copied_entries(v: &Vec<ProviderEntry>, w: Vec<ProviderEntry>, i: int)
    requires
        call_ensures(clone_entries, (v,), w),
    ensures
        w@.len() == v@.len(),
        0 <= i < v@.len() ==> w@[i].name@ == v@[i].name@ && w@[i].config@ == v@[i].config@,
{
}

/// A copy of a provider's settings says the same.
pub proof fn law_copied_settings(p: &ProviderConfig, q: ProviderConfig)
    requires
        call_ensures(ProviderConfig::clone, (p,), q),
    ensures
        q.kind == p.kind,
        q.mode == p.mode,
        text::opt_text(q.base_url) == text::opt_text(p.base_url),
        text::opt_text(q.api_key) == text::opt_text(p.api_key),
        text::opt_text(q.api_key_env) == text::opt_text(p.api_key_env),
        text::opt_text(q.model) == text::opt_text(p.model),
        text::opt_text(q.region) == text::opt_text(p.region),
        q.timeout_secs == p.timeout_secs,
{
}

} // verus!
