use ocr_translate::config::AppConfig;
use ocr_translate::providers::{ProviderConfig, ProviderEntry, ProviderKind};
use ocr_translate::settings::{
    auto_rows, non_empty, provider_kind_label, rows_of, shown_text, table_of_rows, SettingsForm,
};

fn provider(timeout_secs: u64) -> ProviderConfig {
    let mut p = ProviderConfig::default();
    p.timeout_secs = timeout_secs;
    p
}

fn row(name: &str, timeout_secs: u64) -> ProviderEntry {
    ProviderEntry { name: name.to_string(), config: provider(timeout_secs) }
}

#[test]
fn fields() {
    assert_eq!(non_empty("  "), None);
    assert_eq!(non_empty(" a b ").as_deref(), Some("a b"));
    assert_eq!(shown_text(&None), "");
    assert_eq!(shown_text(&Some("x".to_string())), "x");
}

#[test]
fn boxes_grow_with_their_text() {
    assert_eq!(auto_rows(""), 3);
    assert_eq!(auto_rows("a\nb\nc"), 4);
    assert_eq!(auto_rows(&"x\n".repeat(11)), 12);
    assert_eq!(auto_rows(&"x\n".repeat(50)), 12);
}

#[test]
fn kinds_are_written_as_in_the_file() {
    assert_eq!(provider_kind_label(ProviderKind::OpenAiCompatible), "openai_compatible");
    assert_eq!(provider_kind_label(ProviderKind::GoogleTranslate), "google_translate");
    assert_eq!(provider_kind_label(ProviderKind::BingTranslate), "bing_translate");
    assert_eq!(provider_kind_label(ProviderKind::DeepLTranslate), "deepl_translate");
}

#[test]
fn rows_are_sorted_by_name() {
    let mut cfg = AppConfig::default();
    for (i, name) in ["b", "é", "a", "Z", "ab"].iter().enumerate() {
        cfg.providers.insert(name.to_string(), provider(i as u64));
    }
    let names: Vec<String> = rows_of(&cfg.providers).into_iter().map(|r| r.name).collect();
    assert_eq!(names, ["Z", "a", "ab", "b", "lmstudio", "é"]);
}

#[test]
fn later_rows_win_and_blank_names_do_not_count() {
    let t = table_of_rows(&vec![row(" a ", 1), row("  ", 2), row("a", 3)]);
    assert_eq!(t.entries.len(), 1);
    assert_eq!(t.get("a").unwrap().timeout_secs, 3);
}

#[test]
fn unchanged_form_keeps_the_configuration() {
    let mut cfg = AppConfig::default();
    cfg.fallback_providers = vec!["x".to_string(), "y z".to_string()];
    cfg.providers.insert("x".to_string(), provider(9));
    cfg.ocr.psm = Some(11);
    let c = SettingsForm::new(&cfg).to_config();
    assert_eq!(c.fallback_providers, cfg.fallback_providers);
    assert_eq!(c.active_provider, cfg.active_provider);
    assert_eq!(c.ocr.psm, Some(11));
    assert_eq!(c.ocr.tessdata_dir, cfg.ocr.tessdata_dir);
    assert_eq!(c.general.log_level, cfg.general.log_level);
    assert_eq!(c.hotkey.capture_region, cfg.hotkey.capture_region);
    assert_eq!(c.popup.width.given, cfg.popup.width.given);
    assert_eq!(c.providers.entries.len(), 2);
    assert_eq!(c.providers.get("x").unwrap().timeout_secs, 9);
    assert_eq!(c.history, cfg.history);
}

#[test]
fn form_shows_missing_values() {
    let mut cfg = AppConfig::default();
    cfg.ocr.psm = None;
    let f = SettingsForm::new(&cfg);
    assert!(!f.ocr_psm_enabled);
    assert_eq!(f.ocr_psm, 6);
    assert_eq!(f.ocr_tessdata_dir, "");
    assert_eq!(f.fallback_providers, "");
}

#[test]
fn typed_texts_are_cleaned() {
    let mut f = SettingsForm::new(&AppConfig::default());
    f.general.target_lang = " de ".to_string();
    f.fallback_providers = "a, ,b ,".to_string();
    f.ocr_tessdata_dir = " ".to_string();
    f.ocr_psm_enabled = true;
    f.ocr_psm = 3;
    f.active_provider = "a\n".to_string();
    let c = f.to_config();
    assert_eq!(c.general.target_lang, "de");
    assert_eq!(c.fallback_providers, ["a", "b"]);
    assert_eq!(c.ocr.tessdata_dir, None);
    assert_eq!(c.ocr.psm, Some(3));
    assert_eq!(c.active_provider, "a");
    let again = SettingsForm::new(&c).to_config();
    assert_eq!(again.fallback_providers, c.fallback_providers);
}

#[test]
fn providers_are_added_and_removed() {
    let mut f = SettingsForm::new(&AppConfig::default());
    f.add_provider();
    assert_eq!(f.providers[1].name, "provider2");
    assert_eq!(f.providers[1].config.timeout_secs, 60);
    f.remove_provider(0);
    assert_eq!(f.providers.len(), 1);
    assert_eq!(f.providers[0].name, "provider2");
}
