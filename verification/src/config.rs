//! The configuration: its sections, their defaults, and where it is kept.

use crate::providers;
use crate::providers::{ProviderConfig, ProviderKind, ProviderMode, ProviderTable};
use crate::text;
use crate::text::{clone_opt, clone_texts};
use vstd::prelude::*;

verus! {

// ---------------------------------------------------------------------
// Measures
// ---------------------------------------------------------------------

/// A size that may have a fraction (a window's width, a font's size), as
/// the texts that were given for it, oldest first. The value in force is
/// that of the last text that reads as a number. No arithmetic is done on
/// sizes here, so they stay texts.
#[derive(Debug)]
pub struct Measure {
    /// The texts, oldest first.
    pub given: Vec<String>,
}

impl View for Measure {
    type V = Seq<Seq<char>>;

    open spec fn view(&self) -> Seq<Seq<char>> {
        text::texts(self.given@)
    }
}

impl Measure {
    /// The measure that one text gives.
    pub fn of(text: &str) -> (m: Self)
        ensures
            m@ == seq![text@],
    {
        let mut given: Vec<String> = Vec::new();
        given.push(text.to_owned());
        assert(text::texts(given@) == seq![text@]);
        Measure { given }
    }

    /// Adds a later text.
    pub fn give(&mut self, text: &str)
        ensures
            final(self)@ == old(self)@.push(text@),
    {
        let ghost before = self.given@;
        let t = text.to_owned();
        self.given.push(t);
        assert(text::texts(self.given@) == text::texts(before).push(t@));
    }
}

impl Clone for Measure {
    fn clone(&self) -> (r: Self)
        ensures
            r@ == self@,
    {
        Measure { given: clone_texts(&self.given) }
    }
}

// ---------------------------------------------------------------------
// General
// ---------------------------------------------------------------------

/// Languages and logging.
#[derive(Debug)]
pub struct GeneralConfig {
    pub target_lang: String,
    pub source_lang: String,
    pub log_level: String,
}

#[verifier::ext_equal]
pub struct GeneralView {
    pub target_lang: Seq<char>,
    pub source_lang: Seq<char>,
    pub log_level: Seq<char>,
}

impl View for GeneralConfig {
    type V = GeneralView;

    open spec fn view(&self) -> GeneralView {
        GeneralView {
            target_lang: self.target_lang@,
            source_lang: self.source_lang@,
            log_level: self.log_level@,
        }
    }
}

pub open spec fn general_default() -> GeneralView {
    GeneralView { target_lang: "en"@, source_lang: "auto"@, log_level: "info"@ }
}

impl Default for GeneralConfig {
    fn default() -> (r: Self)
        ensures
            r@ == general_default(),
    {
        GeneralConfig {
            target_lang: "en".to_owned(),
            source_lang: "auto".to_owned(),
            log_level: "info".to_owned(),
        }
    }
}

impl Clone for GeneralConfig {
    fn clone(&self) -> (r: Self)
        ensures
            r@ == self@,
    {
        GeneralConfig {
            target_lang: self.target_lang.clone(),
            source_lang: self.source_lang.clone(),
            log_level: self.log_level.clone(),
        }
    }
}

// ---------------------------------------------------------------------
// OCR
// ---------------------------------------------------------------------

/// What Tesseract is told.
#[derive(Debug)]
pub struct OcrConfig {
    /// Tesseract language codes, such as `eng` or `eng+jpn`.
    pub languages: String,
    pub tessdata_dir: Option<String>,
    /// Tesseract's page segmentation mode.
    pub psm: Option<i32>,
    /// Gray out and stretch the contrast of the crop before OCR.
    pub preprocess: bool,
}

#[verifier::ext_equal]
pub struct OcrView {
    pub languages: Seq<char>,
    pub tessdata_dir: Option<Seq<char>>,
    pub psm: Option<i32>,
    pub preprocess: bool,
}

impl View for OcrConfig {
    type V = OcrView;

    open spec fn view(&self) -> OcrView {
        OcrView {
            languages: self.languages@,
            tessdata_dir: text::opt_text(self.tessdata_dir),
            psm: self.psm,
            preprocess: self.preprocess,
        }
    }
}

pub open spec fn ocr_default() -> OcrView {
    OcrView { languages: "eng"@, tessdata_dir: None, psm: Some(6i32), preprocess: true }
}

impl Default for OcrConfig {
    fn default() -> (r: Self)
        ensures
            r@ == ocr_default(),
    {
        OcrConfig {
            languages: "eng".to_owned(),
            tessdata_dir: None,
            psm: Some(6),
            preprocess: true,
        }
    }
}

impl Clone for OcrConfig {
    fn clone(&self) -> (r: Self)
        ensures
            r@ == self@,
    {
        OcrConfig {
            languages: self.languages.clone(),
            tessdata_dir: clone_opt(&self.tessdata_dir),
            psm: self.psm,
            preprocess: self.preprocess,
        }
    }
}

// ---------------------------------------------------------------------
// Capture
// ---------------------------------------------------------------------

/// How a screen region is obtained.
#[derive(Debug, Clone, Copy, PartialEq, Eq, Structural)]
pub enum CaptureBackend {
    /// Grab the active monitor and crop it in our own selection window.
    BuiltIn,
    /// Run a screenshot tool that leaves an image on the clipboard.
    External,
}

/// How screen regions are captured.
#[derive(Debug)]
pub struct CaptureConfig {
    pub backend: CaptureBackend,
    /// The shell command of the external backend.
    pub external_command: String,
    /// How long the clipboard is polled after the command has ended.
    pub external_timeout_secs: u64,
}

#[verifier::ext_equal]
pub struct CaptureView {
    pub backend: CaptureBackend,
    pub external_command: Seq<char>,
    pub external_timeout_secs: u64,
}

impl View for CaptureConfig {
    type V = CaptureView;

    open spec fn view(&self) -> CaptureView {
        CaptureView {
            backend: self.backend,
            external_command: self.external_command@,
            external_timeout_secs: self.external_timeout_secs,
        }
    }
}

pub open spec fn capture_default() -> CaptureView {
    CaptureView {
        backend: CaptureBackend::BuiltIn,
        external_command: "spectacle -r -b -c"@,
        external_timeout_secs: 10,
    }
}

impl Default for CaptureConfig {
    fn default() -> (r: Self)
        ensures
            r@ == capture_default(),
    {
        CaptureConfig {
            backend: CaptureBackend::BuiltIn,
            external_command: "spectacle -r -b -c".to_owned(),
            external_timeout_secs: 10,
        }
    }
}

impl Clone for CaptureConfig {
    fn clone(&self) -> (r: Self)
        ensures
            r@ == self@,
    {
        CaptureConfig {
            backend: self.backend,
            external_command: self.external_command.clone(),
            external_timeout_secs: self.external_timeout_secs,
        }
    }
}

// ---------------------------------------------------------------------
// Popup windows
// ---------------------------------------------------------------------

/// Size and behaviour of a popup window.
#[derive(Debug)]
pub struct PopupConfig {
    pub width: Measure,
    pub height: Measure,
    pub font_size: Measure,
    pub always_on_top: bool,
    /// Seconds after which the popup closes by itself; 0 means never.
    pub auto_close_secs: u64,
}

#[verifier::ext_equal]
pub struct PopupView {
    pub width: Seq<Seq<char>>,
    pub height: Seq<Seq<char>>,
    pub font_size: Seq<Seq<char>>,
    pub always_on_top: bool,
    pub auto_close_secs: u64,
}

impl View for PopupConfig {
    type V = PopupView;

    open spec fn view(&self) -> PopupView {
        PopupView {
            width: self.width@,
            height: self.height@,
            font_size: self.font_size@,
            always_on_top: self.always_on_top,
            auto_close_secs: self.auto_close_secs,
        }
    }
}

pub open spec fn popup_default() -> PopupView {
    PopupView {
        width: seq!["520.0"@],
        height: seq!["380.0"@],
        font_size: seq!["16.0"@],
        always_on_top: true,
        auto_close_secs: 0,
    }
}

impl Default for PopupConfig {
    fn default() -> (r: Self)
        ensures
            r@ == popup_default(),
    {
        PopupConfig {
            width: Measure::of("520.0"),
            height: Measure::of("380.0"),
            font_size: Measure::of("16.0"),
            always_on_top: true,
            auto_close_secs: 0,
        }
    }
}

impl Clone for PopupConfig {
    fn clone(&self) -> (r: Self)
        ensures
            r@ == self@,
    {
        PopupConfig {
            width: self.width.clone(),
            height: self.height.clone(),
            font_size: self.font_size.clone(),
            always_on_top: self.always_on_top,
            auto_close_secs: self.auto_close_secs,
        }
    }
}

// ---------------------------------------------------------------------
// History
// ---------------------------------------------------------------------

/// What is kept of past translations.
#[derive(Debug, Clone, Copy, PartialEq, Eq, Structural)]
pub struct HistoryConfig {
    /// Record each successful translation.
    pub enabled: bool,
    /// Older entries than this many are dropped.
    pub max_entries: usize,
    /// How many entries the tray's History submenu lists.
    pub tray_menu_entries: usize,
}

pub open spec fn history_default() -> HistoryConfig {
    HistoryConfig { enabled: true, max_entries: 50, tray_menu_entries: 5 }
}

impl Default for HistoryConfig {
    fn default() -> (r: Self)
        ensures
            r == history_default(),
    {
        HistoryConfig { enabled: true, max_entries: 50, tray_menu_entries: 5 }
    }
}

// ---------------------------------------------------------------------
// Live translation
// ---------------------------------------------------------------------

/// The window that follows the clipboard.
#[derive(Debug)]
pub struct LiveTranslateConfig {
    pub width: Measure,
    pub height: Measure,
    pub font_size: Measure,
    pub always_on_top: bool,
    /// Whether the source text is shown when the window opens.
    pub show_source_by_default: bool,
    /// How often the clipboard is looked at.
    pub poll_interval_ms: u64,
}

#[verifier::ext_equal]
pub struct LiveTranslateView {
    pub width: Seq<Seq<char>>,
    pub height: Seq<Seq<char>>,
    pub font_size: Seq<Seq<char>>,
    pub always_on_top: bool,
    pub show_source_by_default: bool,
    pub poll_interval_ms: u64,
}

impl View for LiveTranslateConfig {
    type V = LiveTranslateView;

    open spec fn view(&self) -> LiveTranslateView {
        LiveTranslateView {
            width: self.width@,
            height: self.height@,
            font_size: self.font_size@,
            always_on_top: self.always_on_top,
            show_source_by_default: self.show_source_by_default,
            poll_interval_ms: self.poll_interval_ms,
        }
    }
}

pub open spec fn live_translate_default() -> LiveTranslateView {
    LiveTranslateView {
        width: seq!["480.0"@],
        height: seq!["360.0"@],
        font_size: seq!["16.0"@],
        always_on_top: true,
        show_source_by_default: true,
        poll_interval_ms: 500,
    }
}

impl Default for LiveTranslateConfig {
    fn default() -> (r: Self)
        ensures
            r@ == live_translate_default(),
    {
        LiveTranslateConfig {
            width: Measure::of("480.0"),
            height: Measure::of("360.0"),
            font_size: Measure::of("16.0"),
            always_on_top: true,
            show_source_by_default: true,
            poll_interval_ms: 500,
        }
    }
}

impl Clone for LiveTranslateConfig {
    fn clone(&self) -> (r: Self)
        ensures
            r@ == self@,
    {
        LiveTranslateConfig {
            width: self.width.clone(),
            height: self.height.clone(),
            font_size: self.font_size.clone(),
            always_on_top: self.always_on_top,
            show_source_by_default: self.show_source_by_default,
            poll_interval_ms: self.poll_interval_ms,
        }
    }
}

/// The window that follows regions of the screen.
#[derive(Debug, Clone, Copy, PartialEq, Eq, Structural)]
pub struct RegionTranslateConfig {
    /// Whether the source text is shown when the window opens.
    pub show_source_by_default: bool,
    /// How often the regions are looked at.
    pub poll_interval_ms: u64,
    /// How long to wait before the first frame is taken.
    pub capture_delay_secs: u64,
}

pub open spec fn region_translate_default() -> RegionTranslateConfig {
    RegionTranslateConfig {
        show_source_by_default: true,
        poll_interval_ms: 500,
        capture_delay_secs: 0,
    }
}

impl Default for RegionTranslateConfig {
    fn default() -> (r: Self)
        ensures
            r == region_translate_default(),
    {
        RegionTranslateConfig {
            show_source_by_default: true,
            poll_interval_ms: 500,
            capture_delay_secs: 0,
        }
    }
}

// ---------------------------------------------------------------------
// Hotkey
// ---------------------------------------------------------------------

/// The global shortcut that starts a capture.
#[derive(Debug)]
pub struct HotkeyConfig {
    /// The accelerator, such as `CTRL+ALT+O`.
    pub capture_region: String,
    /// Ask the desktop portal for the shortcut on Wayland.
    pub enable_portal: bool,
    /// Grab the shortcut directly on X11.
    pub enable_x11: bool,
}

#[verifier::ext_equal]
pub struct HotkeyView {
    pub capture_region: Seq<char>,
    pub enable_portal: bool,
    pub enable_x11: bool,
}

impl View for HotkeyConfig {
    type V = HotkeyView;

    open spec fn view(&self) -> HotkeyView {
        HotkeyView {
            capture_region: self.capture_region@,
            enable_portal: self.enable_portal,
            enable_x11: self.enable_x11,
        }
    }
}

pub open spec fn hotkey_default() -> HotkeyView {
    HotkeyView { capture_region: "CTRL+ALT+O"@, enable_portal: true, enable_x11: true }
}

impl Default for HotkeyConfig {
    fn default() -> (r: Self)
        ensures
            r@ == hotkey_default(),
    {
        HotkeyConfig {
            capture_region: "CTRL+ALT+O".to_owned(),
            enable_portal: true,
            enable_x11: true,
        }
    }
}

impl Clone for HotkeyConfig {
    fn clone(&self) -> (r: Self)
        ensures
            r@ == self@,
    {
        HotkeyConfig {
            capture_region: self.capture_region.clone(),
            enable_portal: self.enable_portal,
            enable_x11: self.enable_x11,
        }
    }
}

// ---------------------------------------------------------------------
// Prompt
// ---------------------------------------------------------------------

/// The prompt for providers that are language models.
#[derive(Debug)]
pub struct PromptConfig {
    pub system: String,
    /// Placeholders: `{source_lang}`, `{target_lang}`, `{text}`.
    pub template: String,
}

#[verifier::ext_equal]
pub struct PromptView {
    pub system: Seq<char>,
    pub template: Seq<char>,
}

impl View for PromptConfig {
    type V = PromptView;

    open spec fn view(&self) -> PromptView {
        PromptView { system: self.system@, template: self.template@ }
    }
}

pub open spec fn prompt_default() -> PromptView {
    PromptView {
        system: "You are a precise translation engine. Translate the user's text and reply with ONLY the translation, no notes or quotes."@,
        template: "Translate the following text from {source_lang} to {target_lang}:\n\n{text}"@,
    }
}

impl Default for PromptConfig {
    fn default() -> (r: Self)
        ensures
            r@ == prompt_default(),
    {
        PromptConfig {
            system: "You are a precise translation engine. Translate the user's text and reply with ONLY the translation, no notes or quotes.".to_owned(),
            template: "Translate the following text from {source_lang} to {target_lang}:\n\n{text}".to_owned(),
        }
    }
}

impl Clone for PromptConfig {
    fn clone(&self) -> (r: Self)
        ensures
            r@ == self@,
    {
        PromptConfig { system: self.system.clone(), template: self.template.clone() }
    }
}

// ---------------------------------------------------------------------
// The whole configuration
// ---------------------------------------------------------------------

/// Everything that can be configured.
#[derive(Debug)]
pub struct AppConfig {
    pub general: GeneralConfig,
    pub ocr: OcrConfig,
    pub capture: CaptureConfig,
    /// The window that shows a fresh translation.
    pub popup: PopupConfig,
    /// The window of Live Region Translate.
    pub translate: PopupConfig,
    /// The window that shows an entry of the history again.
    pub history_popup: PopupConfig,
    pub history: HistoryConfig,
    pub live_translate: LiveTranslateConfig,
    pub region_translate: RegionTranslateConfig,
    pub hotkey: HotkeyConfig,
    pub prompt: PromptConfig,
    pub active_provider: String,
    /// Tried in this order when the active provider fails.
    pub fallback_providers: Vec<String>,
    pub providers: ProviderTable,
}

#[verifier::ext_equal]
pub struct AppConfigView {
    pub general: GeneralView,
    pub ocr: OcrView,
    pub capture: CaptureView,
    pub popup: PopupView,
    pub translate: PopupView,
    pub history_popup: PopupView,
    pub history: HistoryConfig,
    pub live_translate: LiveTranslateView,
    pub region_translate: RegionTranslateConfig,
    pub hotkey: HotkeyView,
    pub prompt: PromptView,
    pub active_provider: Seq<char>,
    pub fallback_providers: Seq<Seq<char>>,
    pub providers: Map<Seq<char>, providers::ProviderView>,
}

impl View for AppConfig {
    type V = AppConfigView;

    open spec fn view(&self) -> AppConfigView {
        AppConfigView {
            general: self.general@,
            ocr: self.ocr@,
            capture: self.capture@,
            popup: self.popup@,
            translate: self.translate@,
            history_popup: self.history_popup@,
            history: self.history,
            live_translate: self.live_translate@,
            region_translate: self.region_translate,
            hotkey: self.hotkey@,
            prompt: self.prompt@,
            active_provider: self.active_provider@,
            fallback_providers: text::texts(self.fallback_providers@),
            providers: self.providers@,
        }
    }
}

/// A language model server on this machine.
pub open spec fn local_provider() -> providers::ProviderView {
    providers::ProviderView {
        kind: ProviderKind::OpenAiCompatible,
        mode: ProviderMode::Private,
        base_url: Some("http://localhost:1234/v1"@),
        api_key: None,
        api_key_env: None,
        model: Some("local-model"@),
        region: None,
        timeout_secs: 60,
    }
}

/// The configuration when nothing is said.
pub open spec fn config_default() -> AppConfigView {
    AppConfigView {
        general: general_default(),
        ocr: ocr_default(),
        capture: capture_default(),
        popup: popup_default(),
        translate: popup_default(),
        history_popup: popup_default(),
        history: history_default(),
        live_translate: live_translate_default(),
        region_translate: region_translate_default(),
        hotkey: hotkey_default(),
        prompt: prompt_default(),
        active_provider: "lmstudio"@,
        fallback_providers: Seq::<Seq<char>>::empty(),
        providers: Map::<Seq<char>, providers::ProviderView>::empty().insert(
            "lmstudio"@,
            local_provider(),
        ),
    }
}

impl AppConfig {
    /// No provider name occurs twice.
    pub open spec fn wf(&self) -> bool {
        self.providers.wf()
    }
}

impl Default for AppConfig {
    fn default() -> (r: Self)
        ensures
            r.wf(),
            r@ == config_default(),
    {
        let mut providers = ProviderTable::new();
        providers.insert(
            "lmstudio".to_owned(),
            ProviderConfig {
                kind: ProviderKind::OpenAiCompatible,
                mode: ProviderMode::Private,
                base_url: Some("http://localhost:1234/v1".to_owned()),
                api_key: None,
                api_key_env: None,
                model: Some("local-model".to_owned()),
                region: None,
                timeout_secs: 60,
            },
        );
        let r = AppConfig {
            general: GeneralConfig::default(),
            ocr: OcrConfig::default(),
            capture: CaptureConfig::default(),
            popup: PopupConfig::default(),
            translate: PopupConfig::default(),
            history_popup: PopupConfig::default(),
            history: HistoryConfig::default(),
            live_translate: LiveTranslateConfig::default(),
            region_translate: RegionTranslateConfig::default(),
            hotkey: HotkeyConfig::default(),
            prompt: PromptConfig::default(),
            active_provider: "lmstudio".to_owned(),
            fallback_providers: Vec::new(),
            providers,
        };
        assert(r@ =~= config_default());
        r
    }
}

impl Clone for AppConfig {
    fn clone(&self) -> (r: Self)
        ensures
            r@ == self@,
            r.wf() == self.wf(),
    {
        AppConfig {
            general: self.general.clone(),
            ocr: self.ocr.clone(),
            capture: self.capture.clone(),
            popup: self.popup.clone(),
            translate: self.translate.clone(),
            history_popup: self.history_popup.clone(),
            history: self.history,
            live_translate: self.live_translate.clone(),
            region_translate: self.region_translate,
            hotkey: self.hotkey.clone(),
            prompt: self.prompt.clone(),
            active_provider: self.active_provider.clone(),
            fallback_providers: clone_texts(&self.fallback_providers),
            providers: self.providers.clone(),
        }
    }
}

// ---------------------------------------------------------------------
// Laws
// ---------------------------------------------------------------------

/// A measure of one text holds it.
pub proof fn law_new_measure(t: &str, m: Measure)
    requires
        call_ensures(Measure::of, (t,), m),
    ensures
        m.given@.len() == 1,
        m.given@[0]@ == t@,
{
    assert(text::texts(m.given@).len() == m.given@.len());
    assert(text::texts(m.given@)[0] == m.given@[0]@);
}

/// A text that is given to a measure stands behind those given before.
pub proof fn law_given_measure(m: &mut Measure, t: &str, k: int)
    requires
        call_ensures(Measure::give, (m, t), ()),
    ensures
        final(m).given@.len() == old(m).given@.len() + 1,
        final(m).given@.last()@ == t@,
        0 <= k < old(m).given@.len() ==> final(m).given@[k]@ == old(m).given@[k]@,
{
    let a = text::texts(old(m).given@);
    let b = text::texts(final(m).given@);
    assert(b.len() == final(m).given@.len());
    assert(b[a.len() as int] == final(m).given@.last()@);
    if 0 <= k < old(m).given@.len() {
        assert(b[k] == final(m).given@[k]@);
        assert(a[k] == old(m).given@[k]@);
    }
}

/// What the configuration is when nothing is said.
pub proof fn law_default_configuration(d: AppConfig)
    requires
        call_ensures(AppConfig::default, (), d),
    ensures
        d.general.target_lang@ == "en"@,
        d.general.source_lang@ == "auto"@,
        d.general.log_level@ == "info"@,
        d.ocr.languages@ == "eng"@,
        d.ocr.tessdata_dir is None,
        d.ocr.psm == Some(6i32),
        d.ocr.preprocess,
        d.capture.backend == CaptureBackend::BuiltIn,
        d.capture.external_command@ == "spectacle -r -b -c"@,
        d.capture.external_timeout_secs == 10,
        d.popup.width@ == seq!["520.0"@] && d.popup.height@ == seq!["380.0"@]
            && d.popup.font_size@ == seq!["16.0"@],
        d.popup.always_on_top && d.popup.auto_close_secs == 0,
        d.translate@ == d.popup@,
        d.history_popup@ == d.popup@,
        d.history.enabled && d.history.max_entries == 50 && d.history.tray_menu_entries == 5,
        d.live_translate.width@ == seq!["480.0"@] && d.live_translate.height@ == seq!["360.0"@]
            && d.live_translate.font_size@ == seq!["16.0"@],
        d.live_translate.always_on_top && d.live_translate.show_source_by_default
            && d.live_translate.poll_interval_ms == 500,
        d.region_translate.show_source_by_default && d.region_translate.poll_interval_ms == 500
            && d.region_translate.capture_delay_secs == 0,
        d.hotkey.capture_region@ == "CTRL+ALT+O"@,
        d.hotkey.enable_portal && d.hotkey.enable_x11,
        d.prompt.system@
            == "You are a precise translation engine. Translate the user's text and reply with ONLY the translation, no notes or quotes."@,
        d.prompt.template@
            == "Translate the following text from {source_lang} to {target_lang}:\n\n{text}"@,
        d.active_provider@ == "lmstudio"@,
        d.fallback_providers@.len() == 0,
        d.providers.entries@.len() == 1,
        d.providers.entries@[0].name@ == "lmstudio"@,
        d.providers.entries@[0].config.kind == ProviderKind::OpenAiCompatible,
        text::opt_text(d.providers.entries@[0].config.base_url) == Some(
            "http://localhost:1234/v1"@,
        ),
        text::opt_text(d.providers.entries@[0].config.model) == Some("local-model"@),
        d.providers.entries@[0].config.api_key is None,
        d.providers.entries@[0].config.timeout_secs == 60,
{
    assert(text::texts(d.fallback_providers@).len() == d.fallback_providers@.len());
    let entries = d.providers.entries@;
    providers::lemma_table_names(entries);
    assert(d.providers@.contains_key("lmstudio"@));
    let i = choose|i: int| 0 <= i < entries.len() && (#[trigger] entries[i]).name@ == "lmstudio"@;
    providers::lemma_table_entry(entries, 0);
    assert(d.providers@.contains_key(entries[0].name@));
    if entries.len() > 1 {
        providers::lemma_table_entry(entries, 1);
        assert(d.providers@.contains_key(entries[1].name@));
        assert(entries[0].name@ != entries[1].name@);
    }
}

/// A copy of a configuration says the same.
pub proof fn law_copy(c: &AppConfig, d: AppConfig)
    requires
        call_ensures(AppConfig::clone, (c,), d),
    ensures
        d.general.target_lang@ == c.general.target_lang@,
        d.general.source_lang@ == c.general.source_lang@,
        d.general.log_level@ == c.general.log_level@,
        d.ocr.languages@ == c.ocr.languages@,
        text::opt_text(d.ocr.tessdata_dir) == text::opt_text(c.ocr.tessdata_dir),
        d.ocr.psm == c.ocr.psm,
        d.ocr.preprocess == c.ocr.preprocess,
        d.capture.backend == c.capture.backend,
        d.capture.external_command@ == c.capture.external_command@,
        d.capture.external_timeout_secs == c.capture.external_timeout_secs,
        d.popup@ == c.popup@,
        d.translate@ == c.translate@,
        d.history_popup@ == c.history_popup@,
        d.history == c.history,
        d.live_translate@ == c.live_translate@,
        d.region_translate == c.region_translate,
        d.hotkey.capture_region@ == c.hotkey.capture_region@,
        d.hotkey.enable_portal == c.hotkey.enable_portal,
        d.hotkey.enable_x11 == c.hotkey.enable_x11,
        d.prompt.system@ == c.prompt.system@,
        d.prompt.template@ == c.prompt.template@,
        d.active_provider@ == c.active_provider@,
        text::texts(d.fallback_providers@) == text::texts(c.fallback_providers@),
        d.providers@ == c.providers@,
{
    assert(d@ == c@);
    assert(d@.general == d.general@ && d@.ocr == d.ocr@ && d@.capture == d.capture@);
    assert(d@.hotkey == d.hotkey@ && d@.prompt == d.prompt@);
}

} // verus!
