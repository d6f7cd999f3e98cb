use ocr_translate::config::{AppConfig, HotkeyConfig};
use ocr_translate::cycle::{
    after_acquire, after_locks, after_ocr, after_record, after_translation, entry_to_record,
    provider_to_test, show_history, Step,
};
use ocr_translate::daemon::{
    after_change, hotkey_backend, on_event, startup_notice, Argument, ConfigWatch, DaemonAction,
    DaemonEvent, HotkeyBackend, HotkeyChange,
};
use ocr_translate::fonts::find_cjk_font_path;
use ocr_translate::history::{
    append, file_text, get, history_lines, keep_readable, load_recent, HistoryEntry,
};
use ocr_translate::hotkey::{
    code_from_str, hotkey_of_parts, is_wayland, parse_accelerator, rebinding, Hotkey, Key,
    Modifiers,
};
use ocr_translate::http::Failure;
use ocr_translate::popup::{closes_by_itself, provider_line, result_window};
use ocr_translate::tray::{build_menu, fingerprint, menu_event, snippet, MenuLine};

fn entry(n: usize) -> HistoryEntry {
    HistoryEntry {
        timestamp: format!("t{n}"),
        provider: "p".to_string(),
        source_lang: "auto".to_string(),
        target_lang: "en".to_string(),
        original: format!("line {n}\nmore"),
        translated: format!("x{n}"),
    }
}

fn entries(n: usize) -> Vec<HistoryEntry> {
    (0..n).map(entry).collect()
}

fn stamps(v: &[HistoryEntry]) -> Vec<String> {
    v.iter().map(|e| e.timestamp.clone()).collect()
}

#[test]
fn history_keeps_the_newest() {
    let v = append(&entries(3), &entry(9), 3);
    assert_eq!(stamps(&v), ["t1", "t2", "t9"]);
    assert_eq!(get(&v, 0).unwrap().timestamp, "t9");
    assert_eq!(get(&v, 1).unwrap().timestamp, "t2");
    assert!(get(&v, 3).is_none());
    assert!(append(&entries(3), &entry(9), 0).is_empty());
    assert_eq!(append(&vec![], &entry(1), 5).len(), 1);
}

#[test]
fn recent_entries_come_newest_first() {
    assert_eq!(stamps(&load_recent(&entries(3), 2)), ["t2", "t1"]);
    assert_eq!(load_recent(&entries(3), 9).len(), 3);
    assert!(load_recent(&entries(3), 0).is_empty());
}

#[test]
fn history_file_survives_writing_and_reading() {
    let lines = vec!["{\"a\":1}".to_string(), "{}".to_string()];
    let raw = file_text(&lines);
    assert_eq!(raw, "{\"a\":1}\n{}\n");
    assert_eq!(history_lines(&raw), lines);
    assert_eq!(history_lines("a\n \n\nb"), ["a", "b"]);
    let kept = keep_readable(&vec![Some(entry(1)), None, Some(entry(2))]);
    assert_eq!(stamps(&kept), ["t1", "t2"]);
}

#[test]
fn other_lines_in_the_history_change_nothing() {
    let line_of = |e: &HistoryEntry| format!("entry {}", e.timestamp);
    let reading = |l: &String| {
        (1..4).map(entry).find(|e| line_of(e) == *l)
    };
    let written: Vec<String> = (1..4).map(|i| line_of(&entry(i))).collect();
    let others = ["", "  ", "broken", "\r", "{\"half\":", "entry"];
    for at in 0..4 {
        for other in others {
            let mut lines = written.clone();
            lines.insert(at, other.to_string());
            lines.insert(0, other.to_string());
            let read = history_lines(&file_text(&lines)).iter().map(reading).collect();
            assert_eq!(stamps(&keep_readable(&read)), ["t1", "t2", "t3"]);
        }
    }
    let read = history_lines(&file_text(&written)).iter().map(reading).collect();
    assert_eq!(stamps(&keep_readable(&read)), ["t1", "t2", "t3"]);
    assert!(history_lines("").is_empty());
    assert!(keep_readable(&vec![]).is_empty());
}

#[test]
fn captured_entry_is_recorded_as_configured() {
    let mut cfg = AppConfig::default();
    let e = entry_to_record(&cfg, "o", "p", "t", "now").unwrap();
    assert_eq!((e.original.as_str(), e.provider.as_str()), ("o", "p"));
    assert_eq!((e.translated.as_str(), e.timestamp.as_str()), ("t", "now"));
    assert_eq!((e.source_lang.as_str(), e.target_lang.as_str()), ("auto", "en"));
    let all = append(&entries(2), &e, 2);
    assert_eq!(show_history(&all, 0).unwrap().original, "o");
    cfg.history.enabled = false;
    assert!(entry_to_record(&cfg, "o", "p", "t", "now").is_none());
}

#[test]
fn missing_history_entry_is_reported() {
    let e = show_history(&entries(1), 4).unwrap_err();
    assert_eq!(e.one_line(), "no history entry at index 4");
}

#[test]
fn blank_text_is_not_translated() {
    match after_ocr(Ok(" a ".to_string())) {
        Step::Translate { original } => assert_eq!(original, " a "),
        other => panic!("{other:?}"),
    }
    match after_ocr(Ok(" \n".to_string())) {
        Step::Failed(f) => assert_eq!(f.message, "no text detected in the selected region"),
        other => panic!("{other:?}"),
    }
    match after_ocr(Err(Failure::because("m", "c"))) {
        Step::Failed(f) => assert_eq!(f.one_line(), "m: c"),
        other => panic!("{other:?}"),
    }
}

#[test]
fn cancelled_captures_stop() {
    assert!(matches!(after_locks(Ok(true)), Step::Acquire));
    assert!(matches!(after_locks(Ok(false)), Step::Cancelled));
    assert!(matches!(after_locks(Err(Failure::new("x"))), Step::Failed(_)));
    assert!(matches!(after_acquire(Ok(true)), Step::Recognize));
    assert!(matches!(after_acquire(Ok(false)), Step::Cancelled));
    assert!(matches!(after_acquire(Err(Failure::new("x"))), Step::Failed(_)));
}

#[test]
fn only_translations_are_recorded() {
    let mut cfg = AppConfig::default();
    let done = || Ok(("p".to_string(), "t".to_string()));
    match after_translation(&cfg, "o".to_string(), done(), "now") {
        Step::Record { entry, outcome } => {
            assert_eq!(entry.timestamp, "now");
            assert_eq!(entry.translated, outcome.translated);
            match after_record(outcome) {
                Step::Show { outcome } => {
                    assert_eq!(outcome.original, "o");
                    assert_eq!(outcome.provider, "p");
                    assert_eq!(outcome.translated, "t");
                }
                other => panic!("{other:?}"),
            }
        }
        other => panic!("{other:?}"),
    }
    assert!(matches!(
        after_translation(&cfg, "o".to_string(), Err(Failure::new("x")), "now"),
        Step::Failed(_)
    ));
    cfg.history.enabled = false;
    assert!(matches!(
        after_translation(&cfg, "o".to_string(), done(), "now"),
        Step::Show { .. }
    ));
}

#[test]
fn tested_provider_is_the_named_one() {
    let cfg = AppConfig::default();
    assert_eq!(provider_to_test(&cfg, Some("x")), "x");
    assert_eq!(provider_to_test(&cfg, None), "lmstudio");
}

const NONE: Modifiers = Modifiers { control: false, alt: false, shift: false, meta: false };

#[test]
fn hotkeys_are_read() {
    let h = parse_accelerator("CTRL+ALT+O").unwrap();
    assert_eq!(h.modifiers, Modifiers { control: true, alt: true, ..NONE });
    assert_eq!(h.key, Key::Letter(14));
    let h = parse_accelerator(" win - shift -f12").unwrap();
    assert_eq!(h.modifiers, Modifiers { meta: true, shift: true, ..NONE });
    assert_eq!(h.key, Key::Function(12));
    for name in ["super", "META", "Cmd", "win"] {
        let h = parse_accelerator(&format!("{name}+7")).unwrap();
        assert_eq!(h, Hotkey { modifiers: Modifiers { meta: true, ..NONE }, key: Key::Digit(7) });
    }
    assert!(parse_accelerator("control+space").unwrap().modifiers.control);
}

#[test]
fn keys_by_name() {
    assert_eq!(code_from_str("A").unwrap(), Key::Letter(0));
    assert_eq!(code_from_str("z").unwrap(), Key::Letter(25));
    assert_eq!(code_from_str("0").unwrap(), Key::Digit(0));
    assert_eq!(code_from_str("SPACE").unwrap(), Key::Space);
    assert_eq!(code_from_str("ENTER").unwrap(), Key::Enter);
    assert_eq!(code_from_str("RETURN").unwrap(), Key::Enter);
    assert_eq!(code_from_str("TAB").unwrap(), Key::Tab);
    assert_eq!(code_from_str("ESC").unwrap(), Key::Escape);
    assert_eq!(code_from_str("ESCAPE").unwrap(), Key::Escape);
    for n in 1u8..=12 {
        assert_eq!(code_from_str(&format!("F{n}")).unwrap(), Key::Function(n));
    }
    for bad in ["", "F13", "F0", "é", "UP"] {
        let e = code_from_str(bad).unwrap_err();
        assert_eq!(e.one_line(), format!("unrecognized key '{bad}' in hotkey accelerator"));
    }
}

#[test]
fn unusable_hotkeys() {
    let e = parse_accelerator("ctrl+alt").unwrap_err();
    assert_eq!(e.one_line(), "hotkey 'ctrl+alt' has no non-modifier key");
    let e = parse_accelerator("ctrl+up").unwrap_err();
    assert_eq!(e.one_line(), "unrecognized key 'UP' in hotkey accelerator");
    let e = parse_accelerator("ctrl++o").unwrap_err();
    assert_eq!(e.one_line(), "unrecognized key '' in hotkey accelerator");
}

#[test]
fn modifier_order_is_free_and_the_last_key_counts() {
    let parts = |v: &[&str]| v.iter().map(|s| s.to_string()).collect::<Vec<_>>();
    let a = hotkey_of_parts("", &parts(&["ALT", "O", "CTRL"])).unwrap();
    let b = hotkey_of_parts("", &parts(&["CTRL", "ALT", "O"])).unwrap();
    assert_eq!(a, b);
    assert_eq!(hotkey_of_parts("", &parts(&["A", "B"])).unwrap().key, Key::Letter(1));
}

#[test]
fn hotkey_is_rebound_only_if_it_changed() {
    let current = parse_accelerator("CTRL+O").unwrap();
    assert_eq!(rebinding(current, "control-o").unwrap(), None);
    assert_eq!(rebinding(current, "ALT+O").unwrap().unwrap().key, Key::Letter(14));
    assert!(rebinding(current, "ALT").is_err());
}

#[test]
fn wayland_is_recognized() {
    assert!(is_wayland(true, None));
    assert!(is_wayland(false, Some("wayland")));
    assert!(!is_wayland(false, Some("x11")));
    assert!(!is_wayland(false, None));
}

fn arguments(a: DaemonAction) -> (Vec<String>, String) {
    match a {
        DaemonAction::Launch { arguments, complaint } => (
            arguments
                .into_iter()
                .map(|x| match x {
                    Argument::Text(s) => s,
                    Argument::ConfigPath => "<path>".to_string(),
                })
                .collect(),
            complaint,
        ),
        other => panic!("{other:?}"),
    }
}

#[test]
fn daemon_events() {
    let (args, complaint) = arguments(on_event(DaemonEvent::Capture, false));
    assert_eq!(args, ["capture"]);
    assert_eq!(complaint, "failed to launch capture");
    let (args, complaint) = arguments(on_event(DaemonEvent::ShowHistory(12), true));
    assert_eq!(args, ["show-history", "12", "--config", "<path>"]);
    assert_eq!(complaint, "failed to show history entry");
    let (args, complaint) = arguments(on_event(DaemonEvent::WatchClipboard, true));
    assert_eq!(args, ["watch-clipboard", "--config", "<path>"]);
    assert_eq!(complaint, "failed to launch clipboard watcher");
    assert!(matches!(
        on_event(DaemonEvent::ClearHistory, true),
        DaemonAction::ClearHistory { .. }
    ));
    assert!(matches!(on_event(DaemonEvent::Quit, false), DaemonAction::Stop));
}

#[test]
fn hotkey_backends() {
    let mut cfg = HotkeyConfig::default();
    assert_eq!(hotkey_backend(true, &cfg), HotkeyBackend::Portal);
    assert_eq!(hotkey_backend(false, &cfg), HotkeyBackend::X11);
    cfg.enable_portal = false;
    assert_eq!(hotkey_backend(true, &cfg), HotkeyBackend::Off);
    cfg.enable_x11 = false;
    assert_eq!(hotkey_backend(false, &cfg), HotkeyBackend::Off);
    assert_eq!(
        startup_notice(true, "CTRL+O"),
        "running in the system tray — press CTRL+O or use the tray menu to capture"
    );
    assert!(startup_notice(false, "CTRL+O").starts_with("no in-process hotkey backend active"));
}

#[test]
fn configuration_file_is_watched() {
    let mut w = ConfigWatch { seen: None };
    assert!(!w.look(None));
    assert!(w.look(Some((5, 1))));
    assert!(!w.look(Some((5, 1))));
    assert!(w.look(Some((5, 2))));
    assert!(w.look(None));
}

#[test]
fn changed_configuration() {
    let new = |region: &str| {
        let mut c = AppConfig::default();
        c.hotkey.capture_region = region.to_string();
        c
    };
    let (c, h) = after_change(new("A"), Ok(new("A")), true, false);
    assert_eq!((c.hotkey.capture_region.as_str(), h), ("A", HotkeyChange::Nothing));
    let (c, h) = after_change(new("A"), Ok(new("B")), true, true);
    assert_eq!((c.hotkey.capture_region.as_str(), h), ("B", HotkeyChange::Rebind));
    let (_, h) = after_change(new("A"), Ok(new("B")), false, true);
    assert_eq!(h, HotkeyChange::NeedsRestart);
    let (_, h) = after_change(new("A"), Ok(new("B")), false, false);
    assert_eq!(h, HotkeyChange::Nothing);
    let (c, h) = after_change(new("A"), Err(Failure::new("bad")), true, true);
    assert_eq!((c.hotkey.capture_region.as_str(), h), ("A", HotkeyChange::Nothing));
}

fn line(l: &MenuLine) -> String {
    match l {
        MenuLine::Item { id, label } => format!("{id}={label}"),
        MenuLine::Note { label } => format!("({label})"),
        MenuLine::Separator => "-".to_string(),
    }
}

fn lines(v: &[MenuLine]) -> Vec<String> {
    v.iter().map(line).collect()
}

#[test]
fn tray_menu() {
    let m = build_menu(&load_recent(&entries(2), 5));
    assert_eq!(
        lines(&m.top),
        ["capture=Capture region", "watch-clipboard=Live Clipboard Translate"]
    );
    assert_eq!(m.history_title, "History");
    assert_eq!(
        lines(&m.history),
        ["history:0=line 1 more", "history:1=line 0 more", "-", "history:clear=Clear History"]
    );
    assert_eq!(lines(&m.bottom), ["-", "quit=Quit"]);
    assert_eq!(lines(&build_menu(&vec![]).history), ["(No history yet)"]);
}

#[test]
fn chosen_lines() {
    assert_eq!(menu_event("capture"), Some(DaemonEvent::Capture));
    assert_eq!(menu_event("watch-clipboard"), Some(DaemonEvent::WatchClipboard));
    assert_eq!(menu_event("quit"), Some(DaemonEvent::Quit));
    assert_eq!(menu_event("history:clear"), Some(DaemonEvent::ClearHistory));
    assert_eq!(menu_event("history:17"), Some(DaemonEvent::ShowHistory(17)));
    assert_eq!(menu_event("history:x"), None);
    assert_eq!(menu_event("other"), None);
}

#[test]
fn menu_labels_fit() {
    assert_eq!(snippet("a\n\n b"), "a b");
    assert_eq!(snippet(" \n"), "(no text)");
    assert_eq!(snippet(&"x".repeat(40)), "x".repeat(40));
    let long = snippet(&"日".repeat(41));
    assert_eq!(long, format!("{}...", "日".repeat(37)));
    assert_eq!(long.chars().count(), 40);
}

#[test]
fn a_label_is_its_own_label() {
    let cut = format!("{} {}", "x".repeat(36), "y".repeat(20));
    for text in ["", "  a \t\n b  ", "one", &cut, "\u{3000}日 本\u{a0}", &"ab ".repeat(30)] {
        let once = snippet(text);
        assert_eq!(snippet(&once), once);
        assert!(!once.contains("  ") && !once.starts_with(' ') && !once.ends_with(' '));
    }
    assert_eq!(snippet(&cut), format!("{} ...", "x".repeat(36)));
}

#[test]
fn menu_is_marked_by_its_newest_entry() {
    assert_eq!(fingerprint(&vec![]), "0");
    assert_eq!(fingerprint(&load_recent(&entries(12), 12)), "12|t11");
}

#[test]
fn font_is_picked() {
    let list = "/a/Serif.ttf: \n/a/NotoSans-Bold.ttf:\n\n /a/NotoSans-Regular.ttf: \n";
    assert_eq!(find_cjk_font_path(list).as_deref(), Some("/a/NotoSans-Regular.ttf"));
    assert_eq!(find_cjk_font_path("/a:\n/Sans-B:\n").as_deref(), Some("/Sans-B"));
    assert_eq!(find_cjk_font_path("/Regular:\n/b\n").as_deref(), Some("/Regular"));
    assert_eq!(find_cjk_font_path(" :\n"), None);
}

#[test]
fn popup_window() {
    assert!(!closes_by_itself(0, 1000));
    assert!(!closes_by_itself(5, 4));
    assert!(closes_by_itself(5, 5));
    assert_eq!(provider_line("lm"), "via lm");
    let mut cfg = AppConfig::default();
    cfg.history_popup.auto_close_secs = 9;
    assert_eq!(result_window(&cfg, true).auto_close_secs, 9);
    assert_eq!(result_window(&cfg, false).auto_close_secs, 0);
}
