use ocr_translate::http::Failure;
use ocr_translate::live::{poll_interval, LiveState};
use ocr_translate::region_ipc::{drain, pending_lines, send, RegionCommand};
use ocr_translate::regions::{RegionAction, Regions};
use ocr_translate::session_lock::{
    after_choice, after_last_attempt, after_look, after_pause, after_terminate, holder_pid,
    kill_arguments, lock_file_name, lock_steps, resolve_conflict, terminate_process,
    ConflictChoice, ConflictStep, LockName, Session, Termination, LOOKS,
};

const ALL: [Session; 3] = [Session::Capture, Session::WatchClipboard, Session::WatchRegion];

fn held(s: Session) -> Vec<LockName> {
    lock_steps(s).into_iter().filter(|x| x.keep).map(|x| x.lock).collect()
}

fn blocks(running: Session, starting: Session) -> bool {
    lock_steps(starting).iter().any(|x| held(running).contains(&x.lock))
}

#[test]
fn only_clipboard_and_capture_run_together() {
    for a in ALL {
        for b in ALL {
            let together = !blocks(a, b) && !blocks(b, a);
            let allowed = match (a, b) {
                (Session::Capture, Session::WatchClipboard) => true,
                (Session::WatchClipboard, Session::Capture) => true,
                (Session::Capture, Session::Capture) => true,
                _ => false,
            };
            assert_eq!(together, allowed, "{a:?} {b:?}");
        }
    }
}

#[test]
fn locks_are_taken_in_order() {
    let steps = lock_steps(Session::WatchRegion);
    assert_eq!(steps[0].lock, LockName::Clipboard);
    assert!(!steps[0].keep);
    assert_eq!(steps[0].blocking_name, "Live Clipboard Translate");
    assert_eq!(steps[1].starting_what, "another Live Region Translate session");
    assert!(steps[1].keep);
    assert_eq!(lock_file_name(LockName::Region), "region.lock");
    assert_eq!(lock_file_name(LockName::Clipboard), "clipboard.lock");
}

#[test]
fn lock_holder_is_read() {
    assert_eq!(holder_pid(" 123\n"), Some(123));
    assert_eq!(holder_pid(""), None);
    assert_eq!(holder_pid("4294967296"), None);
}

#[test]
fn free_lock_is_taken() {
    assert!(matches!(resolve_conflict(false, Some(1), "capture", "X"), ConflictStep::Acquire));
}

#[test]
fn held_lock_raises_a_question() {
    match resolve_conflict(true, Some(7), "capture", "Live Region Translate") {
        ConflictStep::Ask { title, message, can_stop } => {
            assert_eq!(title, "Live Region Translate is active");
            assert_eq!(
                message,
                "Live Region Translate is currently running, which can't run at the same time as capture."
            );
            assert!(can_stop);
        }
        other => panic!("{other:?}"),
    }
    assert!(matches!(
        resolve_conflict(true, None, "a", "b"),
        ConflictStep::Ask { can_stop: false, .. }
    ));
}

#[test]
fn answers_to_the_question() {
    assert!(matches!(
        after_choice(ConflictChoice::Cancel, Some(1)),
        ConflictStep::Cancelled
    ));
    assert!(matches!(
        after_choice(ConflictChoice::StopAndContinue, Some(1)),
        ConflictStep::Terminate(1)
    ));
    assert!(matches!(
        after_choice(ConflictChoice::StopAndContinue, None),
        ConflictStep::Look { left: LOOKS }
    ));
    assert!(matches!(after_terminate(), ConflictStep::Look { left: LOOKS }));
}

fn waits(free_after: u32) -> u32 {
    let mut pauses = 0;
    let mut step = after_terminate();
    loop {
        step = match step {
            ConflictStep::Look { left } => after_look(left, pauses < free_after),
            ConflictStep::Pause { left } => {
                pauses += 1;
                after_pause(left)
            }
            ConflictStep::AcquireOrGiveUp => return pauses,
            other => panic!("{other:?}"),
        };
    }
}

#[test]
fn waiting_is_bounded() {
    assert_eq!(waits(0), 0);
    assert_eq!(waits(3), 3);
    assert_eq!(waits(u32::MAX), 20);
    assert!(after_last_attempt(true, "X").is_ok());
    let e = after_last_attempt(false, "X").unwrap_err();
    assert_eq!(e.one_line(), "X didn't stop in time");
}

#[test]
fn stopping_a_process() {
    assert_eq!(kill_arguments(42), ["-TERM", "42"]);
    let done = Termination::Exited { success: true, status: "exit status: 0".to_string() };
    assert!(terminate_process(42, &done).is_ok());
    let failed = Termination::Exited { success: false, status: "exit status: 1".to_string() };
    assert_eq!(
        terminate_process(42, &failed).unwrap_err().one_line(),
        "`kill -TERM 42` exited with exit status: 1"
    );
    assert_eq!(
        terminate_process(42, &Termination::NotRun("gone".to_string())).unwrap_err().one_line(),
        "failed to run `kill`: gone"
    );
    assert_eq!(
        terminate_process(42, &Termination::Unsupported).unwrap_err().one_line(),
        "stopping another session isn't implemented on this OS yet"
    );
    assert!(terminate_process(42, &Termination::Stopped).is_ok());
    assert_eq!(
        terminate_process(42, &Termination::NotOpened("gone".to_string())).unwrap_err().one_line(),
        "failed to open process 42: gone"
    );
    assert_eq!(
        terminate_process(42, &Termination::NotStopped("busy".to_string())).unwrap_err().one_line(),
        "failed to terminate process 42: busy"
    );
}

fn ok(provider: &str, translated: &str) -> Result<(String, String), Failure> {
    Ok((provider.to_string(), translated.to_string()))
}

#[test]
fn clipboard_text_is_translated_once() {
    let mut s = LiveState::new();
    assert_eq!(s.label("Waiting for clipboard text..."), "Waiting for clipboard text...");
    assert!(!s.see_clipboard("  \n"));
    assert!(s.see_clipboard(" hi "));
    assert_eq!(s.source, " hi ");
    assert_eq!(s.label("idle"), "Translating...");
    s.store(&ok("lm", "hallo"));
    assert_eq!(s.translated, "hallo");
    assert_eq!(s.label("idle"), "Up to date (via lm)");
    assert!(!s.see_clipboard(" hi "));
    assert!(s.see_clipboard("hi"));
}

#[test]
fn failure_keeps_what_is_shown() {
    let mut s = LiveState::new();
    assert!(s.see_recognized("a"));
    s.store(&ok("lm", "b"));
    assert!(s.see_recognized("c"));
    s.store(&Err(Failure::because("no", "net")));
    assert_eq!(s.translated, "b");
    assert_eq!(s.label(""), "Error: no: net");
    assert!(!s.see_recognized("c"));
    assert!(!s.see_recognized(""));
    assert!(s.see_recognized(" "));
    s.fail("failed to open the clipboard", &Failure::new("busy"));
    assert_eq!(s.label(""), "Error: failed to open the clipboard: busy");
}

#[test]
fn polling_is_not_too_fast() {
    assert_eq!(poll_interval(10, 50), 50);
    assert_eq!(poll_interval(500, 100), 500);
}

const RECT: (u32, u32, u32, u32) = (1, 2, 3, 4);

fn titles(r: &Regions) -> Vec<String> {
    r.list.iter().map(|x| x.title()).collect()
}

#[test]
fn region_numbers_are_not_used_again() {
    let mut r = Regions::start(RECT);
    r.add(RECT);
    r.add((9, 9, 9, 9));
    assert_eq!(titles(&r), ["Region 1", "Region 2", "Region 3"]);
    assert!(r.delete(3));
    assert!(!r.delete(3));
    r.add(RECT);
    assert_eq!(titles(&r), ["Region 1", "Region 2", "Region 4"]);
}

#[test]
fn regions_do_not_affect_each_other() {
    let mut r = Regions::start(RECT);
    r.add(RECT);
    assert!(r.rename(2, "chat"));
    assert!(!r.rename(5, "x"));
    assert_eq!(titles(&r), ["Region 1", "chat"]);
    assert_eq!(r.see(2, &Ok("hi".to_string())).as_deref(), Some("hi"));
    assert_eq!(r.see(2, &Ok("hi".to_string())), None);
    assert_eq!(r.see(2, &Ok(String::new())), None);
    assert_eq!(r.see(7, &Ok("hi".to_string())), None);
    r.store(2, &ok("lm", "hallo"));
    r.store(7, &ok("lm", "lost"));
    assert_eq!(r.list[1].live.translated, "hallo");
    assert_eq!(r.list[0].live.translated, "");
    assert_eq!(r.see(1, &Err(Failure::because("a", "b"))), None);
    assert_eq!(r.list[0].live.label(""), "Error: OCR failed: a: b");
    assert_eq!(r.list[1].live.label(""), "Up to date (via lm)");
    assert!(r.delete(1));
    assert_eq!(titles(&r), ["chat"]);
}

#[test]
fn region_commands_are_carried_out() {
    let mut r = Regions::start(RECT);
    assert_eq!(r.apply(&RegionCommand::QuickCapture), RegionAction::QuickCapture);
    assert_eq!(r.apply(&RegionCommand::ShowRegions), RegionAction::ShowRegions);
    let rename = RegionCommand::Rename { id: 1, name: "n".to_string() };
    assert_eq!(r.apply(&rename), RegionAction::Done { found: true });
    assert_eq!(titles(&r), ["n"]);
    assert_eq!(r.apply(&RegionCommand::Delete { id: 2 }), RegionAction::Done { found: false });
    assert_eq!(r.apply(&RegionCommand::Delete { id: 1 }), RegionAction::Done { found: true });
    assert!(r.list.is_empty());
}

#[test]
fn commands_need_a_session() {
    assert_eq!(send(true, "{}").unwrap(), "{}\n");
    assert_eq!(
        send(false, "{}").unwrap_err().message,
        "Live Region Translate isn't running — start it from the tray or `ocr-translate watch-region` first"
    );
}

#[test]
fn sent_lines_are_pending() {
    let mut file = String::new();
    for line in ["{\"a\":1}", "\"ShowRegions\""] {
        file.push_str(&send(true, line).unwrap());
    }
    assert_eq!(pending_lines(&file), ["{\"a\":1}", "\"ShowRegions\""]);
}

#[test]
fn sent_commands_are_drained_among_other_lines() {
    let reading = |l: &String| match l.as_str() {
        "show" => Some(RegionCommand::ShowRegions),
        "quick" => Some(RegionCommand::QuickCapture),
        _ => None,
    };
    for others in [["", "", ""], ["odd\n", "", ""], ["", "\n{]\n", "odd\n"], ["\n", "\r\n", "\n\n"]] {
        let mut file = String::new();
        file.push_str(others[0]);
        file.push_str(&send(true, "show").unwrap());
        file.push_str(others[1]);
        file.push_str(&send(true, "quick").unwrap());
        file.push_str(others[2]);
        let read = pending_lines(&file).iter().map(reading).collect();
        let got = drain(&read);
        assert_eq!(got.len(), 2);
        assert!(matches!(got[0], RegionCommand::ShowRegions));
        assert!(matches!(got[1], RegionCommand::QuickCapture));
    }
    assert!(pending_lines("").is_empty());
    assert!(drain(&vec![]).is_empty());
}

#[test]
fn unreadable_commands_are_skipped() {
    assert_eq!(pending_lines("a\nb\n"), ["a", "b"]);
    let kept = drain(&vec![
        Some(RegionCommand::ShowRegions),
        None,
        Some(RegionCommand::Delete { id: 3 }),
    ]);
    assert_eq!(kept.len(), 2);
    assert!(matches!(kept[0], RegionCommand::ShowRegions));
    assert!(matches!(kept[1], RegionCommand::Delete { id: 3 }));
}
