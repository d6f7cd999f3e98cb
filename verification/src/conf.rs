//! The configuration in INI syntax.
//!
//! The sections `[general]`, `[ocr]`, `[capture]`, `[popup]`,
//! `[history_popup]`, `[history]`, `[live_translate]` and `[prompt]` set the
//! fields of the same name; each `[provider.<name>]` section is a provider.
//! Keys before the first section choose the active provider and its
//! fallbacks.

use crate::config;
use crate::config::{AppConfig, CaptureBackend, Measure};
use crate::number;
use crate::number::{parse_bool, parse_i32, parse_u64, parse_usize};
use crate::providers;
use crate::providers::{ProviderConfig, ProviderKind, ProviderMode, ProviderTable};
use crate::text;
use crate::text::{chars_of, replace, same_text, split_list, string_of, strip_prefix};
use vstd::prelude::*;

verus! {

/// One section of an INI document. What stands before the first section
/// header is the section without a name.
#[derive(Debug)]
pub struct IniSection {
    pub name: Option<String>,
    /// The keys and their values, in the order of the document.
    pub properties: Vec<(String, String)>,
}

/// A section's name, with its keys and values.
pub open spec fn section_text(s: IniSection) -> (Option<Seq<char>>, Seq<(Seq<char>, Seq<char>)>) {
    (text::opt_text(s.name), text::pairs(s.properties@))
}

/// The sections of a document.
pub open spec fn document_text(v: Seq<IniSection>) -> Seq<
    (Option<Seq<char>>, Seq<(Seq<char>, Seq<char>)>),
> {
    v.map_values(|s: IniSection| section_text(s))
}

/// What an attempt to read an INI document gave.
pub open spec fn reading_text(r: Result<Vec<IniSection>, String>) -> Result<
    Seq<(Option<Seq<char>>, Seq<(Seq<char>, Seq<char>)>)>,
    Seq<char>,
> {
    match r {
        Ok(v) => Ok(document_text(v@)),
        Err(e) => Err(e@),
    }
}

/// What `ini::Ini::load_from_str` makes of a text: its sections in their
/// order, each with its keys and values in their order, or its complaint.
pub uninterp spec fn ini_reading(source: Seq<char>) -> Result<
    Seq<(Option<Seq<char>>, Seq<(Seq<char>, Seq<char>)>)>,
    Seq<char>,
>;

/// `ini::Ini::load_from_str`, with the document it returns taken apart into
/// sections and the error it returns as its text. Only that the outcome
/// depends on the text alone is claimed.
#[verifier::external_body]
fn read_ini(source: &str) -> (r: Result<Vec<IniSection>, String>)
    ensures
        reading_text(r) == ini_reading(source@),
{
    match ini::Ini::load_from_str(source) {
        Ok(document) => Ok(document.iter().map(|(name, properties)| IniSection {
            name: name.map(|n| n.to_string()),
            properties: properties.iter().map(|(k, v)| (k.to_string(), v.to_string())).collect(),
        }).collect()),
        Err(e) => Err(e.to_string()),
    }
}

// ---------------------------------------------------------------------
// Looking up
// ---------------------------------------------------------------------

/// The first value of a key.
pub open spec fn value_of(props: Seq<(Seq<char>, Seq<char>)>, key: Seq<char>) -> Option<Seq<char>>
    decreases props.len(),
{
    if props.len() == 0 {
        None
    } else if props[0].0 == key {
        Some(props[0].1)
    } else {
        value_of(props.skip(1), key)
    }
}

/// The text given, or `old` where none is.
pub open spec fn text_or(given: Option<Seq<char>>, old: Seq<char>) -> Seq<char> {
    match given {
        Some(s) => s,
        None => old,
    }
}

/// The truth value given, or `old` where none is or the text is not one.
pub open spec fn bool_or(given: Option<Seq<char>>, old: bool) -> bool {
    match given {
        Some(s) => match number::bool_in(s) {
            Some(b) => b,
            None => old,
        },
        None => old,
    }
}

/// The number given, or `old` where none is or the text is not one.
pub open spec fn u64_or(given: Option<Seq<char>>, old: u64) -> u64 {
    match given {
        Some(s) => match number::unsigned_in(s, u64::MAX as nat) {
            Some(n) => n as u64,
            None => old,
        },
        None => old,
    }
}

/// The number given, or `old` where none is or the text is not one.
pub open spec fn usize_or(given: Option<Seq<char>>, old: usize) -> usize {
    match given {
        Some(s) => match number::unsigned_in(s, usize::MAX as nat) {
            Some(n) => n as usize,
            None => old,
        },
        None => old,
    }
}

/// The texts of a measure after one more may have been given.
pub open spec fn measure_or(given: Option<Seq<char>>, old: Seq<Seq<char>>) -> Seq<Seq<char>> {
    match given {
        Some(s) => old.push(s),
        None => old,
    }
}

/// The number given, if one is and the text is one.
pub open spec fn i32_given(given: Option<Seq<char>>) -> Option<i32> {
    match given {
        Some(s) => match number::signed_in(s, i32::MIN as int, i32::MAX as nat) {
            Some(n) => Some(n as i32),
            None => None,
        },
        None => None,
    }
}

// ---------------------------------------------------------------------
// The sections
// ---------------------------------------------------------------------

pub open spec fn general_read(
    old: config::GeneralView,
    props: Seq<(Seq<char>, Seq<char>)>,
) -> config::GeneralView {
    config::GeneralView {
        target_lang: text_or(value_of(props, "target_lang"@), old.target_lang),
        source_lang: text_or(value_of(props, "source_lang"@), old.source_lang),
        log_level: text_or(value_of(props, "log_level"@), old.log_level),
    }
}

/// An `[ocr]` section that does not mention `tessdata_dir` or `psm` unsets
/// them.
pub open spec fn ocr_read(
    old: config::OcrView,
    props: Seq<(Seq<char>, Seq<char>)>,
) -> config::OcrView {
    config::OcrView {
        languages: text_or(value_of(props, "languages"@), old.languages),
        tessdata_dir: value_of(props, "tessdata_dir"@),
        psm: i32_given(value_of(props, "psm"@)),
        preprocess: bool_or(value_of(props, "preprocess"@), old.preprocess),
    }
}

/// Any backend but `external` is the built-in one.
pub open spec fn backend_read(old: CaptureBackend, given: Option<Seq<char>>) -> CaptureBackend {
    match given {
        Some(s) => if s == "external"@ {
            CaptureBackend::External
        } else {
            CaptureBackend::BuiltIn
        },
        None => old,
    }
}

pub open spec fn capture_read(
    old: config::CaptureView,
    props: Seq<(Seq<char>, Seq<char>)>,
) -> config::CaptureView {
    config::CaptureView {
        backend: backend_read(old.backend, value_of(props, "backend"@)),
        external_command: text_or(value_of(props, "external_command"@), old.external_command),
        external_timeout_secs: u64_or(
            value_of(props, "external_timeout_secs"@),
            old.external_timeout_secs,
        ),
    }
}

pub open spec fn popup_read(
    old: config::PopupView,
    props: Seq<(Seq<char>, Seq<char>)>,
) -> config::PopupView {
    config::PopupView {
        width: measure_or(value_of(props, "width"@), old.width),
        height: measure_or(value_of(props, "height"@), old.height),
        font_size: measure_or(value_of(props, "font_size"@), old.font_size),
        always_on_top: bool_or(value_of(props, "always_on_top"@), old.always_on_top),
        auto_close_secs: u64_or(value_of(props, "auto_close_secs"@), old.auto_close_secs),
    }
}

pub open spec fn history_read(
    old: config::HistoryConfig,
    props: Seq<(Seq<char>, Seq<char>)>,
) -> config::HistoryConfig {
    config::HistoryConfig {
        enabled: bool_or(value_of(props, "enabled"@), old.enabled),
        max_entries: usize_or(value_of(props, "max_entries"@), old.max_entries),
        tray_menu_entries: usize_or(value_of(props, "tray_menu_entries"@), old.tray_menu_entries),
    }
}

pub open spec fn live_translate_read(
    old: config::LiveTranslateView,
    props: Seq<(Seq<char>, Seq<char>)>,
) -> config::LiveTranslateView {
    config::LiveTranslateView {
        width: measure_or(value_of(props, "width"@), old.width),
        height: measure_or(value_of(props, "height"@), old.height),
        font_size: measure_or(value_of(props, "font_size"@), old.font_size),
        always_on_top: bool_or(value_of(props, "always_on_top"@), old.always_on_top),
        show_source_by_default: bool_or(
            value_of(props, "show_source_by_default"@),
            old.show_source_by_default,
        ),
        poll_interval_ms: u64_or(value_of(props, "poll_interval_ms"@), old.poll_interval_ms),
    }
}

/// In a template, a backslash followed by `n` stands for a line feed.
pub open spec fn prompt_read(
    old: config::PromptView,
    props: Seq<(Seq<char>, Seq<char>)>,
) -> config::PromptView {
    config::PromptView {
        system: text_or(value_of(props, "system"@), old.system),
        template: match value_of(props, "template"@) {
            Some(s) => text::replaced(s, "\\n"@, "\n"@),
            None => old.template,
        },
    }
}

/// Any kind that is not known is an OpenAI compatible server.
pub open spec fn kind_read(given: Option<Seq<char>>) -> ProviderKind {
    if given == Some("google_translate"@) {
        ProviderKind::GoogleTranslate
    } else if given == Some("bing_translate"@) {
        ProviderKind::BingTranslate
    } else {
        ProviderKind::OpenAiCompatible
    }
}

/// Any mode but `public` is private.
pub open spec fn mode_read(given: Option<Seq<char>>) -> ProviderMode {
    if given == Some("public"@) {
        ProviderMode::Public
    } else {
        ProviderMode::Private
    }
}

pub open spec fn provider_read(props: Seq<(Seq<char>, Seq<char>)>) -> providers::ProviderView {
    providers::ProviderView {
        kind: kind_read(value_of(props, "kind"@)),
        mode: mode_read(value_of(props, "mode"@)),
        base_url: value_of(props, "base_url"@),
        api_key: value_of(props, "api_key"@),
        api_key_env: value_of(props, "api_key_env"@),
        model: value_of(props, "model"@),
        region: value_of(props, "region"@),
        timeout_secs: u64_or(value_of(props, "timeout_secs"@), 60),
    }
}

/// The configuration after one more section has been read.
pub open spec fn section_read(
    old: config::AppConfigView,
    section: (Option<Seq<char>>, Seq<(Seq<char>, Seq<char>)>),
) -> config::AppConfigView {
    match section.0 {
        None => old,
        Some(name) => {
            let props = section.1;
            if name == "general"@ {
                config::AppConfigView { general: general_read(old.general, props), ..old }
            } else if name == "ocr"@ {
                config::AppConfigView { ocr: ocr_read(old.ocr, props), ..old }
            } else if name == "capture"@ {
                config::AppConfigView { capture: capture_read(old.capture, props), ..old }
            } else if name == "popup"@ {
                config::AppConfigView { popup: popup_read(old.popup, props), ..old }
            } else if name == "history_popup"@ {
                config::AppConfigView {
                    history_popup: popup_read(old.history_popup, props),
                    ..old
                }
            } else if name == "history"@ {
                config::AppConfigView { history: history_read(old.history, props), ..old }
            } else if name == "live_translate"@ {
                config::AppConfigView {
                    live_translate: live_translate_read(old.live_translate, props),
                    ..old
                }
            } else if name == "prompt"@ {
                config::AppConfigView { prompt: prompt_read(old.prompt, props), ..old }
            } else if text::has_prefix(name, "provider."@) {
                config::AppConfigView {
                    providers: old.providers.insert(
                        name.skip("provider."@.len() as int),
                        provider_read(props),
                    ),
                    ..old
                }
            } else {
                old
            }
        },
    }
}

/// The configuration after all sections, read in their order.
pub open spec fn sections_read(
    old: config::AppConfigView,
    sections: Seq<(Option<Seq<char>>, Seq<(Seq<char>, Seq<char>)>)>,
) -> config::AppConfigView
    decreases sections.len(),
{
    if sections.len() == 0 {
        old
    } else {
        section_read(sections_read(old, sections.drop_last()), sections.last())
    }
}

/// The keys before the first section: those of the first section without a
/// name.
pub open spec fn root_properties(
    sections: Seq<(Option<Seq<char>>, Seq<(Seq<char>, Seq<char>)>)>,
) -> Seq<(Seq<char>, Seq<char>)>
    decreases sections.len(),
{
    if sections.len() == 0 {
        Seq::<(Seq<char>, Seq<char>)>::empty()
    } else if sections[0].0 is None {
        sections[0].1
    } else {
        root_properties(sections.skip(1))
    }
}

/// Where reading starts: the defaults without a provider, with what the
/// document says before its first section.
pub open spec fn root_read(
    sections: Seq<(Option<Seq<char>>, Seq<(Seq<char>, Seq<char>)>)>,
) -> config::AppConfigView {
    let root = root_properties(sections);
    config::AppConfigView {
        providers: Map::<Seq<char>, providers::ProviderView>::empty(),
        active_provider: text_or(
            value_of(root, "active_provider"@),
            config::config_default().active_provider,
        ),
        fallback_providers: match value_of(root, "fallback_providers"@) {
            Some(s) => text::list_entries(s),
            None => config::config_default().fallback_providers,
        },
        ..config::config_default()
    }
}

/// Why a document is not a configuration.
#[derive(Debug)]
pub enum IniError {
    /// The text is not INI; what the parser said.
    Syntax(String),
    /// There is no `[provider.<name>]` section.
    NoProviders,
    /// The active provider has no section; its name.
    UnknownActiveProvider(String),
}

pub enum IniErrorView {
    Syntax(Seq<char>),
    NoProviders,
    UnknownActiveProvider(Seq<char>),
}

impl View for IniError {
    type V = IniErrorView;

    open spec fn view(&self) -> IniErrorView {
        match *self {
            IniError::Syntax(s) => IniErrorView::Syntax(s@),
            IniError::NoProviders => IniErrorView::NoProviders,
            IniError::UnknownActiveProvider(s) => IniErrorView::UnknownActiveProvider(s@),
        }
    }
}

/// What a document's sections amount to.
pub open spec fn sections_config(
    sections: Seq<(Option<Seq<char>>, Seq<(Seq<char>, Seq<char>)>)>,
) -> Result<config::AppConfigView, IniErrorView> {
    let cfg = sections_read(root_read(sections), sections);
    if cfg.providers == Map::<Seq<char>, providers::ProviderView>::empty() {
        Err(IniErrorView::NoProviders)
    } else if !cfg.providers.contains_key(cfg.active_provider) {
        Err(IniErrorView::UnknownActiveProvider(cfg.active_provider))
    } else {
        Ok(cfg)
    }
}

/// A text without the byte order mark at its start.
pub open spec fn without_bom(s: Seq<char>) -> Seq<char> {
    if s.len() > 0 && s[0] == '\u{feff}' {
        s.skip(1)
    } else {
        s
    }
}

/// What an INI text amounts to.
pub open spec fn ini_config(source: Seq<char>) -> Result<config::AppConfigView, IniErrorView> {
    match ini_reading(without_bom(source)) {
        Ok(sections) => sections_config(sections),
        Err(e) => Err(IniErrorView::Syntax(e)),
    }
}

/// A configuration or an error, by their views.
pub open spec fn outcome(r: Result<AppConfig, IniError>) -> Result<
    config::AppConfigView,
    IniErrorView,
> {
    match r {
        Ok(cfg) => Ok(cfg@),
        Err(e) => Err(e@),
    }
}

// ---------------------------------------------------------------------
// Reading
// ---------------------------------------------------------------------

impl IniError {
    /// The error in words.
    pub fn message(&self) -> (r: String)
        ensures
            r@ == (match self@ {
                IniErrorView::Syntax(s) => "invalid INI syntax: "@ + s,
                IniErrorView::NoProviders =>
                    "config has no [provider.<name>] sections defined"@,
                IniErrorView::UnknownActiveProvider(s) => "active_provider '"@ + s
                    + "' has no matching [provider."@ + s + "] section"@,
            }),
    {
        match self {
            IniError::Syntax(s) => {
                let mut r = "invalid INI syntax: ".to_owned();
                r.append(s.as_str());
                r
            },
            IniError::NoProviders => {
                "config has no [provider.<name>] sections defined".to_owned()
            },
            IniError::UnknownActiveProvider(s) => {
                let mut r = "active_provider '".to_owned();
                r.append(s.as_str());
                r.append("' has no matching [provider.");
                r.append(s.as_str());
                r.append("] section");
                r
            },
        }
    }
}

/// The first value of a key.
pub fn get<'a>(props: &'a Vec<(String, String)>, key: &str) -> (r: Option<&'a str>)
    ensures
        (match r {
            Some(s) => value_of(text::pairs(props@), key@) == Some(s@),
            None => value_of(text::pairs(props@), key@) is None,
        }),
{
    let ghost all = text::pairs(props@);
    let mut i: usize = 0;
    assert(all.skip(0) == all);
    while i < props.len()
        invariant
            i <= props@.len(),
            all == text::pairs(props@),
            value_of(all, key@) == value_of(all.skip(i as int), key@),
        decreases props@.len() - i,
    {
        let ghost rest = all.skip(i as int);
        assert(rest[0] == (props@[i as int].0@, props@[i as int].1@));
        assert(rest.skip(1) == all.skip(i + 1));
        if same_text(props[i].0.as_str(), key) {
            return Some(props[i].1.as_str());
        }
        i += 1;
    }
    None
}

/// The value of a key as a string of its own.
fn get_text(props: &Vec<(String, String)>, key: &str) -> (r: Option<String>)
    ensures
        text::opt_text(r) == value_of(text::pairs(props@), key@),
{
    match get(props, key) {
        Some(s) => Some(s.to_owned()),
        None => None,
    }
}

fn set_text(field: &mut String, props: &Vec<(String, String)>, key: &str)
    ensures
        final(field)@ == text_or(value_of(text::pairs(props@), key@), old(field)@),
{
    if let Some(s) = get(props, key) {
        *field = s.to_owned();
    }
}

fn set_bool(field: &mut bool, props: &Vec<(String, String)>, key: &str)
    ensures
        *final(field) == bool_or(value_of(text::pairs(props@), key@), *old(field)),
{
    if let Some(s) = get(props, key) {
        if let Some(b) = parse_bool(s) {
            *field = b;
        }
    }
}

fn set_u64(field: &mut u64, props: &Vec<(String, String)>, key: &str)
    ensures
        *final(field) == u64_or(value_of(text::pairs(props@), key@), *old(field)),
{
    if let Some(s) = get(props, key) {
        if let Some(n) = parse_u64(s) {
            *field = n;
        }
    }
}

fn set_usize(field: &mut usize, props: &Vec<(String, String)>, key: &str)
    ensures
        *final(field) == usize_or(value_of(text::pairs(props@), key@), *old(field)),
{
    if let Some(s) = get(props, key) {
        if let Some(n) = parse_usize(s) {
            *field = n;
        }
    }
}

fn set_measure(field: &mut Measure, props: &Vec<(String, String)>, key: &str)
    ensures
        final(field)@ == measure_or(value_of(text::pairs(props@), key@), old(field)@),
{
    if let Some(s) = get(props, key) {
        field.give(s);
    }
}

fn read_popup(popup: &mut config::PopupConfig, props: &Vec<(String, String)>)
    ensures
        final(popup)@ == popup_read(old(popup)@, text::pairs(props@)),
{
    set_measure(&mut popup.width, props, "width");
    set_measure(&mut popup.height, props, "height");
    set_measure(&mut popup.font_size, props, "font_size");
    set_bool(&mut popup.always_on_top, props, "always_on_top");
    set_u64(&mut popup.auto_close_secs, props, "auto_close_secs");
}

fn read_live_translate(live: &mut config::LiveTranslateConfig, props: &Vec<(String, String)>)
    ensures
        final(live)@ == live_translate_read(old(live)@, text::pairs(props@)),
{
    set_measure(&mut live.width, props, "width");
    set_measure(&mut live.height, props, "height");
    set_measure(&mut live.font_size, props, "font_size");
    set_bool(&mut live.always_on_top, props, "always_on_top");
    set_bool(&mut live.show_source_by_default, props, "show_source_by_default");
    set_u64(&mut live.poll_interval_ms, props, "poll_interval_ms");
}

fn read_ocr(ocr: &mut config::OcrConfig, props: &Vec<(String, String)>)
    ensures
        final(ocr)@ == ocr_read(old(ocr)@, text::pairs(props@)),
{
    set_text(&mut ocr.languages, props, "languages");
    ocr.tessdata_dir = get_text(props, "tessdata_dir");
    ocr.psm = match get(props, "psm") {
        Some(s) => parse_i32(s),
        None => None,
    };
    set_bool(&mut ocr.preprocess, props, "preprocess");
}

fn read_capture(capture: &mut config::CaptureConfig, props: &Vec<(String, String)>)
    ensures
        final(capture)@ == capture_read(old(capture)@, text::pairs(props@)),
{
    if let Some(s) = get(props, "backend") {
        capture.backend = if same_text(s, "external") {
            CaptureBackend::External
        } else {
            CaptureBackend::BuiltIn
        };
    }
    set_text(&mut capture.external_command, props, "external_command");
    set_u64(&mut capture.external_timeout_secs, props, "external_timeout_secs");
}

fn read_prompt(prompt: &mut config::PromptConfig, props: &Vec<(String, String)>)
    ensures
        final(prompt)@ == prompt_read(old(prompt)@, text::pairs(props@)),
{
    set_text(&mut prompt.system, props, "system");
    if let Some(s) = get(props, "template") {
        prompt.template = replace(s, "\\n", "\n");
    }
}

/// The provider that a section describes.
fn read_provider(props: &Vec<(String, String)>) -> (r: ProviderConfig)
    ensures
        r@ == provider_read(text::pairs(props@)),
{
    let kind = match get(props, "kind") {
        Some(s) => {
            if same_text(s, "google_translate") {
                ProviderKind::GoogleTranslate
            } else if same_text(s, "bing_translate") {
                ProviderKind::BingTranslate
            } else {
                ProviderKind::OpenAiCompatible
            }
        },
        None => ProviderKind::OpenAiCompatible,
    };
    let mode = match get(props, "mode") {
        Some(s) => {
            if same_text(s, "public") {
                ProviderMode::Public
            } else {
                ProviderMode::Private
            }
        },
        None => ProviderMode::Private,
    };
    let mut timeout_secs: u64 = 60;
    set_u64(&mut timeout_secs, props, "timeout_secs");
    ProviderConfig {
        kind,
        mode,
        base_url: get_text(props, "base_url"),
        api_key: get_text(props, "api_key"),
        api_key_env: get_text(props, "api_key_env"),
        model: get_text(props, "model"),
        region: get_text(props, "region"),
        timeout_secs,
    }
}

/// Reads one section into the configuration.
fn read_section(cfg: &mut AppConfig, section: &IniSection)
    requires
        old(cfg).wf(),
    ensures
        final(cfg).wf(),
        final(cfg)@ == section_read(old(cfg)@, section_text(*section)),
{
    let props = &section.properties;
    if let Some(name) = &section.name {
        let name = name.as_str();
        if same_text(name, "general") {
            set_text(&mut cfg.general.target_lang, props, "target_lang");
            set_text(&mut cfg.general.source_lang, props, "source_lang");
            set_text(&mut cfg.general.log_level, props, "log_level");
        } else if same_text(name, "ocr") {
            read_ocr(&mut cfg.ocr, props);
        } else if same_text(name, "capture") {
            read_capture(&mut cfg.capture, props);
        } else if same_text(name, "popup") {
            read_popup(&mut cfg.popup, props);
        } else if same_text(name, "history_popup") {
            read_popup(&mut cfg.history_popup, props);
        } else if same_text(name, "history") {
            set_bool(&mut cfg.history.enabled, props, "enabled");
            set_usize(&mut cfg.history.max_entries, props, "max_entries");
            set_usize(&mut cfg.history.tray_menu_entries, props, "tray_menu_entries");
        } else if same_text(name, "live_translate") {
            read_live_translate(&mut cfg.live_translate, props);
        } else if same_text(name, "prompt") {
            read_prompt(&mut cfg.prompt, props);
        } else if let Some(provider_name) = strip_prefix(name, "provider.") {
            let provider = read_provider(props);
            cfg.providers.insert(provider_name, provider);
        }
    }
}

/// The configuration that a document's sections describe.
pub fn config_from_sections(sections: &Vec<IniSection>) -> (r: Result<AppConfig, IniError>)
    ensures
        outcome(r) == sections_config(document_text(sections@)),
        r matches Ok(cfg) ==> cfg.wf(),
{
    let ghost all = document_text(sections@);
    let mut cfg = AppConfig::default();
    cfg.providers = ProviderTable::new();

    let mut i: usize = 0;
    let mut found = false;
    assert(all.skip(0) == all);
    while i < sections.len() && !found
        invariant
            i <= sections@.len(),
            all == document_text(sections@),
            cfg.wf(),
            !found ==> root_properties(all) == root_properties(all.skip(i as int)),
            !found ==> cfg@ == (config::AppConfigView {
                providers: Map::<Seq<char>, providers::ProviderView>::empty(),
                ..config::config_default()
            }),
            found ==> cfg@ == root_read(all),
        decreases sections@.len() - i, (if found { 0int } else { 1int }),
    {
        let ghost rest = all.skip(i as int);
        assert(rest[0] == section_text(sections@[i as int]));
        assert(rest.skip(1) == all.skip(i + 1));
        if sections[i].name.is_none() {
            let props = &sections[i].properties;
            set_text(&mut cfg.active_provider, props, "active_provider");
            if let Some(s) = get(props, "fallback_providers") {
                cfg.fallback_providers = split_list(s);
            }
            found = true;
            assert(cfg@ =~= root_read(all));
        } else {
            i += 1;
        }
    }
    proof {
        if !found {
            assert(all.skip(i as int).len() == 0);
            assert(cfg@ =~= root_read(all));
        }
    }

    let mut k: usize = 0;
    assert(all.take(0) == Seq::<(Option<Seq<char>>, Seq<(Seq<char>, Seq<char>)>)>::empty());
    while k < sections.len()
        invariant
            k <= sections@.len(),
            all == document_text(sections@),
            cfg.wf(),
            cfg@ == sections_read(root_read(all), all.take(k as int)),
        decreases sections@.len() - k,
    {
        assert(all.take(k + 1).drop_last() == all.take(k as int));
        assert(all.take(k + 1).last() == section_text(sections@[k as int]));
        read_section(&mut cfg, &sections[k]);
        k += 1;
    }
    assert(all.take(sections@.len() as int) == all);

    if cfg.providers.is_empty() {
        return Err(IniError::NoProviders);
    }
    if !cfg.providers.contains_key(cfg.active_provider.as_str()) {
        return Err(IniError::UnknownActiveProvider(cfg.active_provider.clone()));
    }
    Ok(cfg)
}

/// The text without the byte order mark at its start.
pub fn strip_bom(source: &str) -> (r: String)
    ensures
        r@ == without_bom(source@),
{
    let v = chars_of(source);
    let mut from: usize = 0;
    if v.len() > 0 && v[0] == '\u{feff}' {
        from = 1;
    }
    let r = string_of(&v, from, v.len());
    assert(r@ == without_bom(source@));
    r
}

// ---------------------------------------------------------------------
// Laws
// ---------------------------------------------------------------------

/// A configuration that was read has settings for its active provider.
pub proof fn law_active_provider_is_configured(source: Seq<char>)
    ensures
        ini_config(source) matches Ok(cfg) ==> cfg.providers.contains_key(cfg.active_provider),
{
}

/// A section that is not one of those known changes nothing, wherever in
/// the document it stands.
pub proof fn law_unknown_section_is_ignored(
    old: config::AppConfigView,
    before: Seq<(Option<Seq<char>>, Seq<(Seq<char>, Seq<char>)>)>,
    section: (Option<Seq<char>>, Seq<(Seq<char>, Seq<char>)>),
    after: Seq<(Option<Seq<char>>, Seq<(Seq<char>, Seq<char>)>)>,
)
    requires
        section.0 matches Some(name) && name != "general"@ && name != "ocr"@ && name != "capture"@
            && name != "popup"@ && name != "history_popup"@ && name != "history"@ && name
            != "live_translate"@ && name != "prompt"@ && !text::has_prefix(name, "provider."@),
    ensures
        sections_read(old, before.push(section) + after) == sections_read(old, before + after),
    decreases after.len(),
{
    if after.len() == 0 {
        assert((before.push(section) + after).drop_last() == before);
        assert(before + after == before);
    } else {
        law_unknown_section_is_ignored(old, before, section, after.drop_last());
        assert((before.push(section) + after).drop_last() == before.push(section)
            + after.drop_last());
        assert((before + after).drop_last() == before + after.drop_last());
    }
}

/// Of two sections for one provider the later one counts, whole.
pub proof fn law_later_provider_section_wins(
    old: config::AppConfigView,
    name: Seq<char>,
    first: Seq<(Seq<char>, Seq<char>)>,
    second: Seq<(Seq<char>, Seq<char>)>,
)
    requires
        text::has_prefix(name, "provider."@),
        name != "general"@ && name != "ocr"@ && name != "capture"@ && name != "popup"@ && name
            != "history_popup"@ && name != "history"@ && name != "live_translate"@ && name
            != "prompt"@,
    ensures
        section_read(section_read(old, (Some(name), first)), (Some(name), second))
            == section_read(old, (Some(name), second)),
{
    let once = section_read(old, (Some(name), second));
    let twice = section_read(section_read(old, (Some(name), first)), (Some(name), second));
    assert(twice.providers =~= once.providers);
}

/// The configuration in an INI text.
pub fn load_ini(source: &str) -> (r: Result<AppConfig, IniError>)
    ensures
        outcome(r) == ini_config(source@),
        r matches Ok(cfg) ==> cfg.wf(),
{
    let source = strip_bom(source);
    match read_ini(source.as_str()) {
        Ok(sections) => config_from_sections(&sections),
        Err(e) => Err(IniError::Syntax(e)),
    }
}

} // verus!
