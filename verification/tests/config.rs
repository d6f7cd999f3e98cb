use ocr_translate::conf::{config_from_sections, get, load_ini, strip_bom, IniError, IniSection};
use ocr_translate::config::{AppConfig, CaptureBackend, Measure};
use ocr_translate::locate::{
    config_file_name, default_writes, format_of_extension, format_of_name, plan_load,
    reset_default_config, resolve_path, ConfigFormat, ConfigSource, LoadPlan, LocateError,
};
use ocr_translate::providers::{ProviderConfig, ProviderKind, ProviderMode, ProviderTable};

fn names(v: &[&str]) -> Vec<String> {
    v.iter().map(|s| s.to_string()).collect()
}

fn last(m: &Measure) -> &str {
    m.given.last().unwrap()
}

#[test]
fn default_configuration() {
    let c = AppConfig::default();
    assert_eq!(c.general.target_lang, "en");
    assert_eq!(c.general.source_lang, "auto");
    assert_eq!(c.general.log_level, "info");
    assert_eq!(c.active_provider, "lmstudio");
    assert!(c.fallback_providers.is_empty());
    let p = c.providers.get("lmstudio").unwrap();
    assert_eq!(p.kind, ProviderKind::OpenAiCompatible);
    assert_eq!(p.base_url.as_deref(), Some("http://localhost:1234/v1"));
    assert_eq!(p.model.as_deref(), Some("local-model"));
    assert_eq!(c.history.max_entries, 50);
    assert_eq!(c.history.tray_menu_entries, 5);
    assert_eq!(c.hotkey.capture_region, "CTRL+ALT+O");
    assert_eq!(c.capture.backend, CaptureBackend::BuiltIn);
    assert_eq!(c.live_translate.poll_interval_ms, 500);
}

#[test]
fn ini_document_is_read() {
    let source = "active_provider = google\n\
                  fallback_providers = lm, other\n\
                  [general]\n\
                  target_lang = de\n\
                  [capture]\n\
                  backend = external\n\
                  [popup]\n\
                  width = 640\n\
                  [history]\n\
                  max_entries = 7\n\
                  [provider.google]\n\
                  kind = google_translate\n\
                  mode = public\n\
                  [provider.lm]\n\
                  base_url = http://localhost:1/v1\n\
                  timeout_secs = 5\n";
    let c = load_ini(source).unwrap();
    assert_eq!(c.active_provider, "google");
    assert_eq!(c.fallback_providers, names(&["lm", "other"]));
    assert_eq!(c.general.target_lang, "de");
    assert_eq!(c.general.source_lang, "auto");
    assert_eq!(c.capture.backend, CaptureBackend::External);
    assert_eq!(last(&c.popup.width), "640");
    assert_eq!(c.history.max_entries, 7);
    let google = c.providers.get("google").unwrap();
    assert_eq!(google.kind, ProviderKind::GoogleTranslate);
    assert_eq!(google.mode, ProviderMode::Public);
    let lm = c.providers.get("lm").unwrap();
    assert_eq!(lm.base_url.as_deref(), Some("http://localhost:1/v1"));
    assert_eq!(lm.timeout_secs, 5);
    assert!(!c.providers.contains_key("lmstudio"));
}

#[test]
fn byte_order_mark_is_ignored() {
    assert_eq!(strip_bom("\u{feff}a"), "a");
    assert_eq!(strip_bom("a"), "a");
    let c = load_ini("\u{feff}active_provider = a\n[provider.a]\nbase_url = u\n").unwrap();
    assert_eq!(c.active_provider, "a");
}

#[test]
fn provider_prefix_is_taken_off_once() {
    let c =
        load_ini("active_provider = provider.x\n[provider.provider.x]\nmodel = m\n").unwrap();
    assert_eq!(c.active_provider, "provider.x");
    assert_eq!(c.providers.entries.len(), 1);
    assert_eq!(c.providers.get("provider.x").unwrap().model.as_deref(), Some("m"));
    assert!(c.providers.get("x").is_none());
}

#[test]
fn ini_errors() {
    match load_ini("[general\n") {
        Err(e) => {
            assert!(matches!(e, IniError::Syntax(_)));
            assert!(e.message().starts_with("invalid INI syntax: "));
        }
        Ok(_) => panic!("accepted"),
    }
    let e = load_ini("active_provider = x\n").unwrap_err();
    assert_eq!(e.message(), "config has no [provider.<name>] sections defined");
    let e = load_ini("active_provider = x\n[provider.y]\nbase_url = u\n").unwrap_err();
    assert!(matches!(e, IniError::UnknownActiveProvider(_)));
    assert_eq!(e.message(), "active_provider 'x' has no matching [provider.x] section");
}

#[test]
fn later_provider_section_wins() {
    let section = |url: &str| IniSection {
        name: Some("provider.a".to_string()),
        properties: vec![("base_url".to_string(), url.to_string())],
    };
    let root = IniSection {
        name: None,
        properties: vec![("active_provider".to_string(), "a".to_string())],
    };
    let c = config_from_sections(&vec![root, section("one"), section("two")]).unwrap();
    assert_eq!(c.providers.get("a").unwrap().base_url.as_deref(), Some("two"));
}

#[test]
fn unknown_section_is_ignored() {
    let with = load_ini("active_provider = a\n[odd]\nx = y\n[provider.a]\nmodel = m\n").unwrap();
    let without = load_ini("active_provider = a\n[provider.a]\nmodel = m\n").unwrap();
    assert_eq!(with.general.target_lang, without.general.target_lang);
    assert_eq!(
        with.providers.get("a").unwrap().model,
        without.providers.get("a").unwrap().model
    );
}

#[test]
fn properties_are_found_by_key() {
    let props = vec![("a".to_string(), "1".to_string()), ("b".to_string(), "2".to_string())];
    assert_eq!(get(&props, "b"), Some("2"));
    assert_eq!(get(&props, "c"), None);
}

#[test]
fn measures_keep_what_was_given() {
    let mut m = Measure::of("520.0");
    m.give("abc");
    assert_eq!(m.given, names(&["520.0", "abc"]));
}

#[test]
fn key_from_the_environment_goes_first() {
    let mut p = ProviderConfig::default();
    p.api_key = Some("file".to_string());
    assert_eq!(p.resolve_api_key(Some("env")).as_deref(), Some("file"));
    p.api_key_env = Some("KEY".to_string());
    assert_eq!(p.resolve_api_key(Some("env")).as_deref(), Some("env"));
    assert_eq!(p.resolve_api_key(Some("")).as_deref(), Some("file"));
    assert_eq!(p.resolve_api_key(None).as_deref(), Some("file"));
    p.api_key = Some(String::new());
    assert_eq!(p.resolve_api_key(None), None);
    assert_eq!(p.resolve_api_key(Some("")), None);
}

#[test]
fn provider_table_keeps_one_entry_per_name() {
    let mut t = ProviderTable::new();
    assert!(t.is_empty());
    let mut p = ProviderConfig::default();
    p.timeout_secs = 1;
    t.insert("a".to_string(), p);
    let mut q = ProviderConfig::default();
    q.timeout_secs = 2;
    t.insert("a".to_string(), q);
    assert_eq!(t.entries.len(), 1);
    assert_eq!(t.get("a").unwrap().timeout_secs, 2);
    assert!(t.contains_key("a"));
    assert!(t.get("b").is_none());
    assert!(!t.is_empty());
}

#[test]
fn explicit_path_goes_first() {
    let files = names(&["config.conf", "config.yml"]);
    match resolve_path(Some("/x.yaml"), Some(&files)) {
        Some(ConfigSource::Explicit(p)) => assert_eq!(p, "/x.yaml"),
        other => panic!("{other:?}"),
    }
    match resolve_path(None, Some(&files)) {
        Some(ConfigSource::InConfigDir(p)) => assert_eq!(p, "config.yml"),
        other => panic!("{other:?}"),
    }
    assert!(resolve_path(None, Some(&names(&["other"]))).is_none());
    assert!(resolve_path(None, None).is_none());
}

#[test]
fn load_plan_follows_resolved_path() {
    let files = names(&["config.yaml"]);
    match plan_load(None, Some(&files)) {
        Ok(LoadPlan::Read(ConfigSource::InConfigDir(p))) => assert_eq!(p, "config.yaml"),
        other => panic!("{other:?}"),
    }
    assert!(matches!(plan_load(None, Some(&Vec::new())), Ok(LoadPlan::CreateDefault)));
    let e = plan_load(None, None).unwrap_err();
    assert!(matches!(e, LocateError::NoConfigDir));
    assert_eq!(e.message(), "could not determine a config directory for this platform");
}

#[test]
fn default_files_are_found_again() {
    let written: Vec<String> =
        default_writes(ConfigFormat::Yaml).into_iter().map(|f| f.name).collect();
    assert_eq!(written, names(&["config.yaml", "config.example.yaml", "config.example.conf"]));
    match resolve_path(None, Some(&written)) {
        Some(ConfigSource::InConfigDir(p)) => assert_eq!(p, "config.yaml"),
        other => panic!("{other:?}"),
    }
}

#[test]
fn extensions_tell_the_syntax() {
    assert_eq!(format_of_extension("YAML").unwrap(), ConfigFormat::Yaml);
    assert_eq!(format_of_extension("yml").unwrap(), ConfigFormat::Yaml);
    assert_eq!(format_of_extension("Conf").unwrap(), ConfigFormat::Conf);
    assert_eq!(format_of_extension("ini").unwrap(), ConfigFormat::Conf);
    let e = format_of_extension("TOML").unwrap_err();
    assert!(matches!(e, LocateError::UnsupportedExtension(_)));
    assert_eq!(e.message(), "unsupported config extension 'toml' (use .yaml or .conf)");
}

#[test]
fn restoring_the_default_configuration() {
    assert_eq!(config_file_name(ConfigFormat::Conf), "config.conf");
    assert_eq!(format_of_name("ini").unwrap(), ConfigFormat::Conf);
    let e = reset_default_config("toml", true, Some(&Vec::new())).unwrap_err();
    assert!(matches!(e, LocateError::UnknownFormat(_)));
    assert_eq!(e.message(), "unknown format 'toml', expected 'yaml' or 'conf'");
    let there = names(&["config.conf"]);
    let e = reset_default_config("conf", false, Some(&there)).unwrap_err();
    assert!(matches!(e, LocateError::AlreadyExists(_)));
    assert_eq!(e.message(), "config.conf already exists (use --force to overwrite)");
    assert_eq!(reset_default_config("conf", true, Some(&there)).unwrap().len(), 3);
    assert!(reset_default_config("yaml", false, Some(&there)).is_ok());
    assert!(reset_default_config("yaml", false, None).is_err());
}
