//! The settings form: what it shows of a configuration, and what
//! configuration comes of it.

use crate::config;
use crate::config::{
    AppConfig, CaptureConfig, GeneralConfig, HistoryConfig, HotkeyConfig, LiveTranslateConfig,
    OcrConfig, PopupConfig, PromptConfig, RegionTranslateConfig,
};
use crate::number;
use crate::number::render_usize;
use crate::providers;
use crate::providers::{ProviderConfig, ProviderEntry, ProviderKind, ProviderTable};
use crate::text;
use crate::text::{join, split_lines, split_list, trim};
use crate::text_laws;
use crate::text_order;
use crate::text_order::stands_before;
use vstd::prelude::*;

verus! {

// ---------------------------------------------------------------------
// Fields
// ---------------------------------------------------------------------

/// What a text field says: nothing if only white space is in it, else the
/// text without the white space around it.
pub open spec fn field(s: Seq<char>) -> Option<Seq<char>> {
    if text::trimmed(s).len() > 0 {
        Some(text::trimmed(s))
    } else {
        None
    }
}

/// What a text field says.
pub fn non_empty(s: &str) -> (r: Option<String>)
    ensures
        text::opt_text(r) == field(s@),
{
    let t = trim(s);
    if t.as_str().is_empty() {
        None
    } else {
        Some(t)
    }
}

/// What a field shows of a text that may be missing.
pub open spec fn shown(o: Option<Seq<char>>) -> Seq<char> {
    match o {
        Some(s) => s,
        None => Seq::<char>::empty(),
    }
}

/// What a field shows of a text that may be missing.
pub fn shown_text(o: &Option<String>) -> (r: String)
    ensures
        r@ == shown(text::opt_text(*o)),
{
    match o {
        Some(s) => s.clone(),
        None => {
            let r = String::new();
            assert(r@ =~= Seq::<char>::empty());
            r
        },
    }
}

/// How many rows a box for a longer text has: one more than the text has
/// lines, but from 3 to 12.
pub open spec fn box_rows(s: Seq<char>) -> int {
    let n = text::text_lines(s).len() + 1;
    if n < 3 {
        3
    } else if n > 12 {
        12
    } else {
        n as int
    }
}

/// How many rows a box for a longer text has.
pub fn auto_rows(s: &str) -> (r: usize)
    ensures
        r == box_rows(s@),
{
    let lines = split_lines(s);
    assert(text::texts(lines@).len() == lines@.len());
    let n: usize = lines.len();
    if n < 2 {
        3
    } else if n > 11 {
        12
    } else {
        n + 1
    }
}

/// How a kind of provider is written.
pub open spec fn kind_label(kind: ProviderKind) -> Seq<char> {
    match kind {
        ProviderKind::OpenAiCompatible => "openai_compatible"@,
        ProviderKind::GoogleTranslate => "google_translate"@,
        ProviderKind::BingTranslate => "bing_translate"@,
        ProviderKind::DeepLTranslate => "deepl_translate"@,
    }
}

/// How a kind of provider is written.
pub fn provider_kind_label(kind: ProviderKind) -> (r: &'static str)
    ensures
        r@ == kind_label(kind),
{
    match kind {
        ProviderKind::OpenAiCompatible => "openai_compatible",
        ProviderKind::GoogleTranslate => "google_translate",
        ProviderKind::BingTranslate => "bing_translate",
        ProviderKind::DeepLTranslate => "deepl_translate",
    }
}

// ---------------------------------------------------------------------
// Provider rows
// ---------------------------------------------------------------------

/// Rows that stand in the order of their names.
pub open spec fn in_order(rows: Seq<ProviderEntry>) -> bool {
    forall|i: int, j: int|
        0 <= i < j < rows.len() ==> text_order::before(
            (#[trigger] rows[i]).name@,
            (#[trigger] rows[j]).name@,
        )
}

proof fn lemma_in_order_is_distinct(rows: Seq<ProviderEntry>)
    requires
        in_order(rows),
    ensures
        providers::names_distinct(rows),
{
    assert forall|i: int, j: int| 0 <= i < j < rows.len() implies (#[trigger] rows[i]).name@ != (
    #[trigger] rows[j]).name@ by {
        text_order::law_before_irreflexive(rows[i].name@);
        assert(text_order::before(rows[i].name@, rows[j].name@));
    }
}

/// Where an entry is put makes no difference to the table, as long as no
/// name occurs twice.
proof fn lemma_table_of_inserted(rows: Seq<ProviderEntry>, at: int, e: ProviderEntry)
    requires
        0 <= at <= rows.len(),
        providers::names_distinct(rows.insert(at, e)),
    ensures
        providers::table_of(rows.insert(at, e)) == providers::table_of(rows).insert(
            e.name@,
            e.config@,
        ),
    decreases rows.len(),
{
    let all = rows.insert(at, e);
    if at == rows.len() {
        assert(all.drop_last() =~= rows);
    } else {
        let rest = rows.drop_last();
        assert(all.drop_last() =~= rest.insert(at, e));
        assert(all.last() == rows.last());
        assert forall|i: int, j: int| 0 <= i < j < rest.insert(at, e).len() implies (
        #[trigger] rest.insert(at, e)[i]).name@ != (#[trigger] rest.insert(at, e)[j]).name@ by {
            assert(all[i].name@ != all[j].name@);
        }
        lemma_table_of_inserted(rest, at, e);
        assert(all[at].name@ != all[all.len() - 1].name@);
        assert(providers::table_of(all) =~= providers::table_of(rows).insert(e.name@, e.config@));
    }
}

/// Puts an entry where its name belongs.
fn insert_in_order(rows: &mut Vec<ProviderEntry>, e: ProviderEntry)
    requires
        in_order(old(rows)@),
        !providers::table_of(old(rows)@).contains_key(e.name@),
    ensures
        in_order(final(rows)@),
        providers::table_of(final(rows)@) == providers::table_of(old(rows)@).insert(
            e.name@,
            e.config@,
        ),
{
    let ghost start = rows@;
    proof {
        providers::lemma_table_names(start);
    }
    let mut i: usize = 0;
    while i < rows.len() && stands_before(rows[i].name.as_str(), e.name.as_str())
        invariant
            i <= rows@.len(),
            rows@ == start,
            forall|k: int|
                0 <= k < i ==> text_order::before((#[trigger] rows@[k]).name@, e.name@),
        decreases rows@.len() - i,
    {
        i += 1;
    }
    proof {
        if i < start.len() {
            assert(start[i as int].name@ != e.name@);
            text_order::law_before_total(start[i as int].name@, e.name@);
            assert(text_order::before(e.name@, start[i as int].name@));
        }
        let all = start.insert(i as int, e);
        assert forall|a: int, b: int| 0 <= a < b < all.len() implies text_order::before(
            (#[trigger] all[a]).name@,
            (#[trigger] all[b]).name@,
        ) by {
            if a < i && b == i {
                assert(text_order::before(start[a].name@, e.name@));
            } else if a < i && b < i {
                assert(text_order::before(start[a].name@, start[b].name@));
            } else if a < i && b > i {
                assert(text_order::before(start[a].name@, start[b - 1].name@));
            } else if a == i {
                if b - 1 > i {
                    assert(text_order::before(start[i as int].name@, start[b - 1].name@));
                    text_order::law_before_transitive(
                        e.name@,
                        start[i as int].name@,
                        start[b - 1].name@,
                    );
                }
            } else {
                assert(text_order::before(start[a - 1].name@, start[b - 1].name@));
            }
        }
        lemma_in_order_is_distinct(all);
        lemma_table_of_inserted(start, i as int, e);
    }
    rows.insert(i, e);
}

/// The providers of a table in the order of their names.
pub fn rows_of(table: &ProviderTable) -> (r: Vec<ProviderEntry>)
    requires
        table.wf(),
    ensures
        in_order(r@),
        providers::table_of(r@) == table@,
{
    let mut r: Vec<ProviderEntry> = Vec::new();
    let mut i: usize = 0;
    assert(table.entries@.take(0) =~= Seq::<ProviderEntry>::empty());
    while i < table.entries.len()
        invariant
            i <= table.entries@.len(),
            table.wf(),
            in_order(r@),
            providers::table_of(r@) == providers::table_of(table.entries@.take(i as int)),
        decreases table.entries@.len() - i,
    {
        proof {
            let done = table.entries@.take(i as int);
            assert(table.entries@.take(i + 1).drop_last() =~= done);
            providers::lemma_table_names(done);
            if providers::table_of(done).contains_key(table.entries@[i as int].name@) {
                let k = choose|k: int|
                    0 <= k < done.len() && (#[trigger] done[k]).name@
                        == table.entries@[i as int].name@;
                assert(table.entries@[k].name@ != table.entries@[i as int].name@);
            }
        }
        let e = table.entries[i].clone();
        insert_in_order(&mut r, e);
        i += 1;
    }
    assert(table.entries@.take(table.entries@.len() as int) =~= table.entries@);
    r
}

/// Two lists of rows in order that make the same table agree row by row: a
/// configuration can be shown in one way only.
pub proof fn law_rows_are_determined(a: Seq<ProviderEntry>, b: Seq<ProviderEntry>)
    requires
        in_order(a),
        in_order(b),
        providers::table_of(a) == providers::table_of(b),
    ensures
        a.len() == b.len(),
        forall|i: int|
            0 <= i < a.len() ==> (#[trigger] a[i]).name@ == b[i].name@ && a[i].config@
                == b[i].config@,
    decreases a.len(),
{
    lemma_in_order_is_distinct(a);
    lemma_in_order_is_distinct(b);
    providers::lemma_table_names(a);
    providers::lemma_table_names(b);
    if a.len() == 0 {
        if b.len() > 0 {
            assert(b[0].name@ == b[0].name@);
            assert(providers::table_of(b).contains_key(b[0].name@));
        }
    } else if b.len() == 0 {
        assert(a[0].name@ == a[0].name@);
        assert(providers::table_of(a).contains_key(a[0].name@));
    } else {
        let x = a.last().name@;
        let y = b.last().name@;
        providers::lemma_table_entry(a, a.len() - 1);
        providers::lemma_table_entry(b, b.len() - 1);
        let i = choose|i: int| 0 <= i < a.len() && (#[trigger] a[i]).name@ == y;
        let j = choose|j: int| 0 <= j < b.len() && (#[trigger] b[j]).name@ == x;
        if x != y {
            assert(text_order::before(a[i].name@, a[a.len() - 1].name@));
            assert(text_order::before(b[j].name@, b[b.len() - 1].name@));
            text_order::law_before_transitive(x, y, x);
            text_order::law_before_irreflexive(x);
        }
        let p = a.drop_last();
        let q = b.drop_last();
        assert forall|s: int, t: int| 0 <= s < t < p.len() implies text_order::before(
            (#[trigger] p[s]).name@,
            (#[trigger] p[t]).name@,
        ) by {
            assert(text_order::before(a[s].name@, a[t].name@));
        }
        assert forall|s: int, t: int| 0 <= s < t < q.len() implies text_order::before(
            (#[trigger] q[s]).name@,
            (#[trigger] q[t]).name@,
        ) by {
            assert(text_order::before(b[s].name@, b[t].name@));
        }
        providers::lemma_table_names(p);
        providers::lemma_table_names(q);
        assert(!providers::table_of(p).contains_key(x)) by {
            if providers::table_of(p).contains_key(x) {
                let k = choose|k: int| 0 <= k < p.len() && (#[trigger] p[k]).name@ == x;
                assert(a[k].name@ != a[a.len() - 1].name@);
            }
        }
        assert(!providers::table_of(q).contains_key(x)) by {
            if providers::table_of(q).contains_key(x) {
                let k = choose|k: int| 0 <= k < q.len() && (#[trigger] q[k]).name@ == x;
                assert(b[k].name@ != b[b.len() - 1].name@);
            }
        }
        assert(providers::table_of(p) =~= providers::table_of(a).remove(x));
        assert(providers::table_of(q) =~= providers::table_of(b).remove(x));
        law_rows_are_determined(p, q);
        assert forall|k: int| 0 <= k < a.len() implies (#[trigger] a[k]).name@ == b[k].name@
            && a[k].config@ == b[k].config@ by {
            if k < p.len() {
                assert(p[k].name@ == q[k].name@);
            }
        }
    }
}

/// The table that rows make: rows whose name is blank do not count, and of
/// rows with the same name the last one counts.
pub open spec fn table_from_rows(rows: Seq<ProviderEntry>) -> Map<
    Seq<char>,
    providers::ProviderView,
>
    decreases rows.len(),
{
    if rows.len() == 0 {
        Map::<Seq<char>, providers::ProviderView>::empty()
    } else {
        let rest = table_from_rows(rows.drop_last());
        match field(rows.last().name@) {
            Some(name) => rest.insert(name, rows.last().config@),
            None => rest,
        }
    }
}

/// The table that rows make.
pub fn table_of_rows(rows: &Vec<ProviderEntry>) -> (r: ProviderTable)
    ensures
        r.wf(),
        r@ == table_from_rows(rows@),
{
    let mut r = ProviderTable::new();
    let mut i: usize = 0;
    assert(rows@.take(0) =~= Seq::<ProviderEntry>::empty());
    while i < rows.len()
        invariant
            i <= rows@.len(),
            r.wf(),
            r@ == table_from_rows(rows@.take(i as int)),
        decreases rows@.len() - i,
    {
        assert(rows@.take(i + 1).drop_last() =~= rows@.take(i as int));
        if let Some(name) = non_empty(rows[i].name.as_str()) {
            r.insert(name, rows[i].config.clone());
        }
        i += 1;
    }
    assert(rows@.take(rows@.len() as int) =~= rows@);
    r
}

/// Rows whose names are not blank and have no white space around them make
/// the table that they list.
proof fn lemma_clean_rows(rows: Seq<ProviderEntry>)
    requires
        forall|i: int|
            0 <= i < rows.len() ==> field((#[trigger] rows[i]).name@) == Some(rows[i].name@),
    ensures
        table_from_rows(rows) == providers::table_of(rows),
    decreases rows.len(),
{
    if rows.len() > 0 {
        assert forall|i: int| 0 <= i < rows.len() - 1 implies field(
            (#[trigger] rows.drop_last()[i]).name@,
        ) == Some(rows.drop_last()[i].name@) by {
            assert(rows.drop_last()[i] == rows[i]);
        }
        lemma_clean_rows(rows.drop_last());
        assert(rows.last() == rows[rows.len() - 1]);
    }
}

// ---------------------------------------------------------------------
// The form
// ---------------------------------------------------------------------

/// What the settings window edits.
#[derive(Debug)]
pub struct SettingsForm {
    pub general: GeneralConfig,
    pub active_provider: String,
    /// The names, with commas between them.
    pub fallback_providers: String,
    pub providers: Vec<ProviderEntry>,
    pub ocr_languages: String,
    pub ocr_tessdata_dir: String,
    pub ocr_psm_enabled: bool,
    pub ocr_psm: i32,
    pub ocr_preprocess: bool,
    pub capture: CaptureConfig,
    pub prompt: PromptConfig,
    pub popup: PopupConfig,
    pub translate: PopupConfig,
    pub history_popup: PopupConfig,
    pub history: HistoryConfig,
    pub live_translate: LiveTranslateConfig,
    pub region_translate: RegionTranslateConfig,
    /// Kept as it was; the window does not show it.
    pub hotkey: HotkeyConfig,
}

/// Whether a form shows a configuration.
pub open spec fn shows(f: SettingsForm, c: config::AppConfigView) -> bool {
    &&& f.general@ == c.general
    &&& f.active_provider@ == c.active_provider
    &&& f.fallback_providers@ == text::joined(c.fallback_providers, ", "@)
    &&& in_order(f.providers@)
    &&& providers::table_of(f.providers@) == c.providers
    &&& f.ocr_languages@ == c.ocr.languages
    &&& f.ocr_tessdata_dir@ == shown(c.ocr.tessdata_dir)
    &&& f.ocr_psm_enabled == c.ocr.psm is Some
    &&& f.ocr_psm == (match c.ocr.psm {
        Some(n) => n,
        None => 6,
    })
    &&& f.ocr_preprocess == c.ocr.preprocess
    &&& f.capture@ == c.capture
    &&& f.prompt@ == c.prompt
    &&& f.popup@ == c.popup
    &&& f.translate@ == c.translate
    &&& f.history_popup@ == c.history_popup
    &&& f.history == c.history
    &&& f.live_translate@ == c.live_translate
    &&& f.region_translate == c.region_translate
    &&& f.hotkey@ == c.hotkey
}

/// The configuration that a form describes.
pub open spec fn described(f: SettingsForm) -> config::AppConfigView {
    config::AppConfigView {
        general: config::GeneralView {
            target_lang: text::trimmed(f.general.target_lang@),
            source_lang: text::trimmed(f.general.source_lang@),
            log_level: text::trimmed(f.general.log_level@),
        },
        ocr: config::OcrView {
            languages: text::trimmed(f.ocr_languages@),
            tessdata_dir: field(f.ocr_tessdata_dir@),
            psm: if f.ocr_psm_enabled {
                Some(f.ocr_psm)
            } else {
                None
            },
            preprocess: f.ocr_preprocess,
        },
        capture: f.capture@,
        popup: f.popup@,
        translate: f.translate@,
        history_popup: f.history_popup@,
        history: f.history,
        live_translate: f.live_translate@,
        region_translate: f.region_translate,
        hotkey: f.hotkey@,
        prompt: f.prompt@,
        active_provider: text::trimmed(f.active_provider@),
        fallback_providers: text::list_entries(f.fallback_providers@),
        providers: table_from_rows(f.providers@),
    }
}

/// The name that the next new provider gets.
pub open spec fn new_name(rows: nat) -> Seq<char> {
    "provider"@ + number::decimal(rows + 1)
}

impl SettingsForm {
    /// The form that shows a configuration.
    pub fn new(cfg: &AppConfig) -> (r: Self)
        requires
            cfg.wf(),
        ensures
            shows(r, cfg@),
    {
        SettingsForm {
            general: cfg.general.clone(),
            active_provider: cfg.active_provider.clone(),
            fallback_providers: join(&cfg.fallback_providers, ", "),
            providers: rows_of(&cfg.providers),
            ocr_languages: cfg.ocr.languages.clone(),
            ocr_tessdata_dir: shown_text(&cfg.ocr.tessdata_dir),
            ocr_psm_enabled: cfg.ocr.psm.is_some(),
            ocr_psm: match cfg.ocr.psm {
                Some(n) => n,
                None => 6,
            },
            ocr_preprocess: cfg.ocr.preprocess,
            capture: cfg.capture.clone(),
            prompt: cfg.prompt.clone(),
            popup: cfg.popup.clone(),
            translate: cfg.translate.clone(),
            history_popup: cfg.history_popup.clone(),
            history: cfg.history,
            live_translate: cfg.live_translate.clone(),
            region_translate: cfg.region_translate,
            hotkey: cfg.hotkey.clone(),
        }
    }

    /// The configuration to save.
    pub fn to_config(&self) -> (r: AppConfig)
        ensures
            r.wf(),
            r@ == described(*self),
    {
        AppConfig {
            general: GeneralConfig {
                target_lang: trim(self.general.target_lang.as_str()),
                source_lang: trim(self.general.source_lang.as_str()),
                log_level: trim(self.general.log_level.as_str()),
            },
            ocr: OcrConfig {
                languages: trim(self.ocr_languages.as_str()),
                tessdata_dir: non_empty(self.ocr_tessdata_dir.as_str()),
                psm: if self.ocr_psm_enabled {
                    Some(self.ocr_psm)
                } else {
                    None
                },
                preprocess: self.ocr_preprocess,
            },
            capture: self.capture.clone(),
            popup: self.popup.clone(),
            translate: self.translate.clone(),
            history_popup: self.history_popup.clone(),
            history: self.history,
            live_translate: self.live_translate.clone(),
            region_translate: self.region_translate,
            hotkey: self.hotkey.clone(),
            prompt: self.prompt.clone(),
            active_provider: trim(self.active_provider.as_str()),
            fallback_providers: split_list(self.fallback_providers.as_str()),
            providers: table_of_rows(&self.providers),
        }
    }

    /// Adds a provider with a new name.
    pub fn add_provider(&mut self)
        requires
            old(self).providers.len() < usize::MAX,
        ensures
            final(self).providers@.len() == old(self).providers@.len() + 1,
            final(self).providers@.drop_last() == old(self).providers@,
            final(self).providers@.last().name@ == new_name(old(self).providers@.len()),
            final(self).providers@.last().config@ == providers::provider_default(),
            (SettingsForm { providers: old(self).providers, ..*final(self) }) == *old(self),
    {
        let mut name = "provider".to_owned();
        let digits = render_usize(self.providers.len() + 1);
        name.append(digits.as_str());
        self.providers.push(ProviderEntry { name, config: ProviderConfig::default() });
        assert(self.providers@.drop_last() =~= old(self).providers@);
    }

    /// Takes a provider away.
    pub fn remove_provider(&mut self, index: usize)
        requires
            index < old(self).providers@.len(),
        ensures
            final(self).providers@ == old(self).providers@.remove(index as int),
            (SettingsForm { providers: old(self).providers, ..*final(self) }) == *old(self),
    {
        self.providers.remove(index);
    }
}

/// Whether a configuration has no white space around its texts, no empty
/// text in place of a missing one and no blank name: what the window can
/// write.
pub open spec fn is_clean(c: config::AppConfigView) -> bool {
    &&& text::trimmed(c.general.target_lang) == c.general.target_lang
    &&& text::trimmed(c.general.source_lang) == c.general.source_lang
    &&& text::trimmed(c.general.log_level) == c.general.log_level
    &&& text::trimmed(c.ocr.languages) == c.ocr.languages
    &&& c.ocr.tessdata_dir matches Some(d) ==> d.len() > 0 && text::trimmed(d) == d
    &&& text::trimmed(c.active_provider) == c.active_provider
    &&& forall|i: int|
        0 <= i < c.fallback_providers.len() ==> text_laws::is_list_entry(
            #[trigger] c.fallback_providers[i],
        )
    &&& forall|k: Seq<char>| #[trigger]
        c.providers.contains_key(k) ==> k.len() > 0 && text::trimmed(k) == k
}

/// Saving a form that was opened and not changed leaves the configuration
/// as it was.
pub proof fn law_unchanged_form_keeps_configuration(f: SettingsForm, c: config::AppConfigView)
    requires
        shows(f, c),
        is_clean(c),
    ensures
        described(f) == c,
{
    text_laws::law_list_roundtrip(c.fallback_providers);
    let rows = f.providers@;
    lemma_in_order_is_distinct(rows);
    assert forall|i: int| 0 <= i < rows.len() implies field((#[trigger] rows[i]).name@) == Some(
        rows[i].name@,
    ) by {
        providers::lemma_table_entry(rows, i);
        assert(c.providers.contains_key(rows[i].name@));
    }
    lemma_clean_rows(rows);
    let e = Seq::<char>::empty();
    text_laws::law_trimmed_fixed(e);
    assert(described(f).ocr =~= c.ocr);
    assert(described(f) =~= c);
}

/// Whatever is typed into the form, what is saved is clean, up to the texts
/// that are saved as they are.
pub proof fn law_saved_configuration_is_clean(f: SettingsForm)
    ensures
        is_clean(described(f)),
{
    text_laws::law_trim_idempotent(f.general.target_lang@);
    text_laws::law_trim_idempotent(f.general.source_lang@);
    text_laws::law_trim_idempotent(f.general.log_level@);
    text_laws::law_trim_idempotent(f.ocr_languages@);
    text_laws::law_trim_idempotent(f.ocr_tessdata_dir@);
    text_laws::law_trim_idempotent(f.active_provider@);
    text_laws::law_list_entries_are_clean(f.fallback_providers@);
    lemma_row_names(f.providers@);
}

proof fn lemma_row_names(rows: Seq<ProviderEntry>)
    ensures
        forall|k: Seq<char>| #[trigger]
            table_from_rows(rows).contains_key(k) ==> k.len() > 0 && text::trimmed(k) == k,
    decreases rows.len(),
{
    if rows.len() > 0 {
        let rest = table_from_rows(rows.drop_last());
        lemma_row_names(rows.drop_last());
        text_laws::law_trim_idempotent(rows.last().name@);
        assert forall|k: Seq<char>| #[trigger] table_from_rows(rows).contains_key(k) implies k.len()
            > 0 && text::trimmed(k) == k by {
            if field(rows.last().name@) != Some(k) {
                assert(rest.contains_key(k));
            }
        }
    }
}

// ---------------------------------------------------------------------
// What the form shows and saves
// ---------------------------------------------------------------------

/// A field that is blank says nothing; any other says its text without the
/// white space around it.
pub proof fn law_field(s: &str, r: Option<String>, trimmed: String)
    requires
        call_ensures(non_empty, (s,), r),
        call_ensures(trim, (s,), trimmed),
    ensures
        trimmed@.len() == 0 ==> r is None,
        trimmed@.len() > 0 ==> (r matches Some(x) && x@ == trimmed@),
{
}

/// A text is shown as it is, and one that is missing as nothing.
pub proof fn law_shown_text(o: &Option<String>, r: String)
    requires
        call_ensures(shown_text, (o,), r),
    ensures
        *o matches Some(x) ==> r@ == x@,
        *o is None ==> r@.len() == 0,
{
}

/// A box has one row more than the text has lines, but at least 3 and at
/// most 12.
pub proof fn law_box_rows(s: &str, r: usize, lines: Vec<String>)
    requires
        call_ensures(auto_rows, (s,), r),
        call_ensures(split_lines, (s,), lines),
    ensures
        3 <= r <= 12,
        2 <= lines@.len() <= 11 ==> r == lines@.len() + 1,
        lines@.len() < 2 ==> r == 3,
        lines@.len() > 11 ==> r == 12,
{
    assert(text::texts(lines@).len() == lines@.len());
}

/// Each kind of provider is written in its own way.
pub proof fn law_kind_labels(kind: ProviderKind, r: &'static str)
    requires
        call_ensures(provider_kind_label, (kind,), r),
    ensures
        kind == ProviderKind::OpenAiCompatible ==> r@ == "openai_compatible"@,
        kind == ProviderKind::GoogleTranslate ==> r@ == "google_translate"@,
        kind == ProviderKind::BingTranslate ==> r@ == "bing_translate"@,
        kind == ProviderKind::DeepLTranslate ==> r@ == "deepl_translate"@,
{
}

/// The rows of a table list each of its providers once, with its settings,
/// in the order of their names.
pub proof fn law_rows_list_the_table(table: &ProviderTable, r: Vec<ProviderEntry>, i: int, k: int)
    requires
        table.wf(),
        call_ensures(rows_of, (table,), r),
    ensures
        0 <= i < k < r@.len() ==> text_order::before(r@[i].name@, r@[k].name@),
        0 <= i < r@.len() ==> exists|j: int|
            0 <= j < table.entries@.len() && (#[trigger] table.entries@[j]).name@ == r@[i].name@
                && table.entries@[j].config@ == r@[i].config@,
        0 <= k < table.entries@.len() ==> exists|j: int|
            0 <= j < r@.len() && (#[trigger] r@[j]).name@ == table.entries@[k].name@
                && r@[j].config@ == table.entries@[k].config@,
{
    lemma_in_order_is_distinct(r@);
    providers::lemma_table_names(r@);
    providers::lemma_table_names(table.entries@);
    assert(table@ == providers::table_of(table.entries@));
    if 0 <= i < r@.len() {
        providers::lemma_table_entry(r@, i);
        assert(providers::table_of(table.entries@).contains_key(r@[i].name@));
        let j = choose|j: int|
            0 <= j < table.entries@.len() && (#[trigger] table.entries@[j]).name@ == r@[i].name@;
        providers::lemma_table_entry(table.entries@, j);
        assert(table.entries@[j].config@ == r@[i].config@);
    }
    if 0 <= k < table.entries@.len() {
        providers::lemma_table_entry(table.entries@, k);
        assert(providers::table_of(r@).contains_key(table.entries@[k].name@));
        let j = choose|j: int|
            0 <= j < r@.len() && (#[trigger] r@[j]).name@ == table.entries@[k].name@;
        providers::lemma_table_entry(r@, j);
        assert(r@[j].config@ == table.entries@[k].config@);
    }
}

proof fn lemma_last_row_counts(rows: Seq<ProviderEntry>, i: int)
    requires
        0 <= i < rows.len(),
        text::trimmed(rows[i].name@).len() > 0,
        forall|k: int|
            i < k < rows.len() ==> text::trimmed((#[trigger] rows[k]).name@) != text::trimmed(
                rows[i].name@,
            ),
    ensures
        table_from_rows(rows).contains_key(text::trimmed(rows[i].name@)),
        table_from_rows(rows)[text::trimmed(rows[i].name@)] == rows[i].config@,
    decreases rows.len(),
{
    let rest = rows.drop_last();
    assert(rows.last() == rows[rows.len() - 1]);
    if i < rows.len() - 1 {
        assert(rest[i] == rows[i]);
        assert forall|k: int| i < k < rest.len() implies text::trimmed((#[trigger] rest[k]).name@)
            != text::trimmed(rest[i].name@) by {
            assert(rest[k] == rows[k]);
        }
        lemma_last_row_counts(rest, i);
    }
}

proof fn lemma_row_of_name(rows: Seq<ProviderEntry>, name: Seq<char>)
    requires
        table_from_rows(rows).contains_key(name),
    ensures
        name.len() > 0,
        exists|i: int| 0 <= i < rows.len() && text::trimmed((#[trigger] rows[i]).name@) == name,
    decreases rows.len(),
{
    if rows.len() > 0 {
        let rest = rows.drop_last();
        if field(rows.last().name@) == Some(name) {
            assert(text::trimmed(rows[rows.len() - 1].name@) == name);
        } else {
            lemma_row_of_name(rest, name);
            let i = choose|i: int|
                0 <= i < rest.len() && text::trimmed((#[trigger] rest[i]).name@) == name;
            assert(rows[i] == rest[i]);
        }
    }
}

/// The table that rows make holds each row's settings under its trimmed name;
/// of rows with one name the last counts, a row without a name does not, and
/// there is nothing else in it.
pub proof fn law_table_of_rows(rows: &Vec<ProviderEntry>, r: ProviderTable, i: int, j: int)
    requires
        call_ensures(table_of_rows, (rows,), r),
    ensures
        0 <= i < rows@.len() && text::trimmed(rows@[i].name@).len() > 0 && (forall|k: int|
            i < k < rows@.len() ==> text::trimmed((#[trigger] rows@[k]).name@) != text::trimmed(
                rows@[i].name@,
            )) ==> exists|e: int|
            0 <= e < r.entries@.len() && (#[trigger] r.entries@[e]).name@ == text::trimmed(
                rows@[i].name@,
            ) && r.entries@[e].config@ == rows@[i].config@,
        0 <= j < r.entries@.len() ==> r.entries@[j].name@.len() > 0 && exists|k: int|
            0 <= k < rows@.len() && text::trimmed((#[trigger] rows@[k]).name@)
                == r.entries@[j].name@,
{
    providers::lemma_table_names(r.entries@);
    assert(r@ == providers::table_of(r.entries@));
    if 0 <= i < rows@.len() && text::trimmed(rows@[i].name@).len() > 0 && (forall|k: int|
        i < k < rows@.len() ==> text::trimmed((#[trigger] rows@[k]).name@) != text::trimmed(
            rows@[i].name@,
        )) {
        lemma_last_row_counts(rows@, i);
        let name = text::trimmed(rows@[i].name@);
        assert(providers::table_of(r.entries@).contains_key(name));
        let e = choose|e: int|
            0 <= e < r.entries@.len() && (#[trigger] r.entries@[e]).name@ == name;
        providers::lemma_table_entry(r.entries@, e);
        assert(r.entries@[e].config@ == rows@[i].config@);
    }
    if 0 <= j < r.entries@.len() {
        providers::lemma_table_entry(r.entries@, j);
        lemma_row_of_name(rows@, r.entries@[j].name@);
    }
}

/// A form shows what the configuration says, field by field; the fallbacks
/// stand in one line, and the providers in the order of their names.
pub proof fn law_form_shows_the_configuration(
    cfg: &AppConfig,
    f: SettingsForm,
    separator: &str,
    line: String,
)
    requires
        cfg.wf(),
        call_ensures(SettingsForm::new, (cfg,), f),
        separator@ == ", "@,
        call_ensures(join, (&cfg.fallback_providers, separator), line),
    ensures
        f.general.target_lang@ == cfg.general.target_lang@,
        f.general.source_lang@ == cfg.general.source_lang@,
        f.general.log_level@ == cfg.general.log_level@,
        f.active_provider@ == cfg.active_provider@,
        f.fallback_providers@ == line@,
        in_order(f.providers@),
        providers::table_of(f.providers@) == cfg.providers@,
        f.ocr_languages@ == cfg.ocr.languages@,
        cfg.ocr.tessdata_dir matches Some(d) ==> f.ocr_tessdata_dir@ == d@,
        cfg.ocr.tessdata_dir is None ==> f.ocr_tessdata_dir@.len() == 0,
        f.ocr_psm_enabled == (cfg.ocr.psm is Some),
        cfg.ocr.psm matches Some(n) ==> f.ocr_psm == n,
        cfg.ocr.psm is None ==> f.ocr_psm == 6,
        f.ocr_preprocess == cfg.ocr.preprocess,
        f.capture@ == cfg.capture@,
        f.prompt@ == cfg.prompt@,
        f.popup@ == cfg.popup@,
        f.translate@ == cfg.translate@,
        f.history_popup@ == cfg.history_popup@,
        f.history == cfg.history,
        f.live_translate@ == cfg.live_translate@,
        f.region_translate == cfg.region_translate,
        f.hotkey@ == cfg.hotkey@,
{
}

/// What is saved is what the form says, field by field: names and languages
/// without the white space around them, nothing for a blank data directory,
/// and everything else as it stands.
pub proof fn law_form_is_saved(
    f: &SettingsForm,
    cfg: AppConfig,
    list: &str,
    fallbacks: Vec<String>,
    table: ProviderTable,
)
    requires
        call_ensures(SettingsForm::to_config, (f,), cfg),
        list@ == f.fallback_providers@,
        call_ensures(split_list, (list,), fallbacks),
        call_ensures(table_of_rows, (&f.providers,), table),
    ensures
        cfg.general.target_lang@ == text::trimmed(f.general.target_lang@),
        cfg.general.source_lang@ == text::trimmed(f.general.source_lang@),
        cfg.general.log_level@ == text::trimmed(f.general.log_level@),
        cfg.active_provider@ == text::trimmed(f.active_provider@),
        text::texts(cfg.fallback_providers@) == text::texts(fallbacks@),
        cfg.providers@ == table@,
        cfg.ocr.languages@ == text::trimmed(f.ocr_languages@),
        text::trimmed(f.ocr_tessdata_dir@).len() == 0 ==> cfg.ocr.tessdata_dir is None,
        text::trimmed(f.ocr_tessdata_dir@).len() > 0 ==> text::opt_text(cfg.ocr.tessdata_dir)
            == Some(text::trimmed(f.ocr_tessdata_dir@)),
        f.ocr_psm_enabled ==> cfg.ocr.psm == Some(f.ocr_psm),
        !f.ocr_psm_enabled ==> cfg.ocr.psm is None,
        cfg.ocr.preprocess == f.ocr_preprocess,
        cfg.capture@ == f.capture@,
        cfg.prompt@ == f.prompt@,
        cfg.popup@ == f.popup@,
        cfg.translate@ == f.translate@,
        cfg.history_popup@ == f.history_popup@,
        cfg.history == f.history,
        cfg.live_translate@ == f.live_translate@,
        cfg.region_translate == f.region_translate,
        cfg.hotkey@ == f.hotkey@,
{
    let d = described(*f);
    assert(cfg@ == d);
}

/// A new provider stands behind the others, with a name that counts them and
/// default settings. Nothing else changes.
pub proof fn law_provider_is_added(f: &mut SettingsForm, d: ProviderConfig, k: int)
    requires
        old(f).providers@.len() < usize::MAX,
        call_ensures(SettingsForm::add_provider, (f,), ()),
        call_ensures(ProviderConfig::default, (), d),
    ensures
        final(f).providers@.len() == old(f).providers@.len() + 1,
        final(f).providers@.last().name@ == "provider"@ + number::decimal(
            old(f).providers@.len() + 1,
        ),
        final(f).providers@.last().config@ == d@,
        0 <= k < old(f).providers@.len() ==> final(f).providers@[k] == old(f).providers@[k],
        (SettingsForm { providers: old(f).providers, ..*final(f) }) == *old(f),
{
    if 0 <= k < old(f).providers@.len() {
        assert(final(f).providers@.drop_last()[k] == final(f).providers@[k]);
    }
}

/// A provider that is taken away leaves the others in their order. Nothing
/// else changes.
pub proof fn law_provider_is_removed(f: &mut SettingsForm, index: usize, k: int)
    requires
        index < old(f).providers@.len(),
        call_ensures(SettingsForm::remove_provider, (f, index), ()),
    ensures
        final(f).providers@.len() == old(f).providers@.len() - 1,
        0 <= k < index ==> final(f).providers@[k] == old(f).providers@[k],
        index <= k < final(f).providers@.len() ==> final(f).providers@[k]
            == old(f).providers@[k + 1],
        (SettingsForm { providers: old(f).providers, ..*final(f) }) == *old(f),
{
}

} // verus!
