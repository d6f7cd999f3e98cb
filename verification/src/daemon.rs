//! The daemon behind the tray icon and the hotkey.

use crate::config::{AppConfig, HotkeyConfig};
use crate::http::Failure;
use crate::number;
use crate::number::render_usize;
use crate::text::same_text;
use vstd::prelude::*;

verus! {

/// What the tray or the hotkey asks for.
#[derive(Debug, Clone, Copy, PartialEq, Eq, Structural)]
pub enum DaemonEvent {
    Capture,
    /// Shows an entry of the history, the newest being 0.
    ShowHistory(usize),
    ClearHistory,
    WatchClipboard,
    Quit,
}

/// One argument of a command line.
#[derive(Debug)]
pub enum Argument {
    Text(String),
    /// The path of the configuration that the daemon was started with.
    ConfigPath,
}

#[verifier::ext_equal]
pub enum ArgumentView {
    Text(Seq<char>),
    ConfigPath,
}

impl View for Argument {
    type V = ArgumentView;

    open spec fn view(&self) -> ArgumentView {
        match *self {
            Argument::Text(s) => ArgumentView::Text(s@),
            Argument::ConfigPath => ArgumentView::ConfigPath,
        }
    }
}

/// What the daemon does.
#[derive(Debug)]
pub enum DaemonAction {
    /// Runs this program anew, in a process of its own. `complaint` says
    /// what could not be done if that fails.
    Launch { arguments: Vec<Argument>, complaint: String },
    ClearHistory { complaint: String },
    Stop,
}

#[verifier::ext_equal]
pub enum ActionView {
    Launch { arguments: Seq<ArgumentView>, complaint: Seq<char> },
    ClearHistory { complaint: Seq<char> },
    Stop,
}

/// What arguments say.
pub open spec fn arguments_view(v: Seq<Argument>) -> Seq<ArgumentView> {
    v.map_values(|a: Argument| a@)
}

impl View for DaemonAction {
    type V = ActionView;

    open spec fn view(&self) -> ActionView {
        match *self {
            DaemonAction::Launch { arguments, complaint } => ActionView::Launch {
                arguments: arguments_view(arguments@),
                complaint: complaint@,
            },
            DaemonAction::ClearHistory { complaint } => ActionView::ClearHistory {
                complaint: complaint@,
            },
            DaemonAction::Stop => ActionView::Stop,
        }
    }
}

/// The arguments of a subcommand: its name, its own argument, and the
/// configuration that the daemon was started with.
pub open spec fn command_line(
    subcommand: Seq<char>,
    argument: Option<Seq<char>>,
    has_config_path: bool,
) -> Seq<ArgumentView> {
    let named = seq![ArgumentView::Text(subcommand)];
    let with_own = match argument {
        Some(a) => named.push(ArgumentView::Text(a)),
        None => named,
    };
    if has_config_path {
        with_own.push(ArgumentView::Text("--config"@)).push(ArgumentView::ConfigPath)
    } else {
        with_own
    }
}

/// What the daemon does on an event.
pub open spec fn action_on(event: DaemonEvent, has_config_path: bool) -> ActionView {
    match event {
        DaemonEvent::Capture => ActionView::Launch {
            arguments: command_line("capture"@, None, has_config_path),
            complaint: "failed to launch capture"@,
        },
        DaemonEvent::ShowHistory(index) => ActionView::Launch {
            arguments: command_line(
                "show-history"@,
                Some(number::decimal(index as nat)),
                has_config_path,
            ),
            complaint: "failed to show history entry"@,
        },
        DaemonEvent::ClearHistory => ActionView::ClearHistory {
            complaint: "failed to clear history"@,
        },
        DaemonEvent::WatchClipboard => ActionView::Launch {
            arguments: command_line("watch-clipboard"@, None, has_config_path),
            complaint: "failed to launch clipboard watcher"@,
        },
        DaemonEvent::Quit => ActionView::Stop,
    }
}

fn push_text(arguments: &mut Vec<Argument>, s: String)
    ensures
        arguments_view(final(arguments)@) == arguments_view(old(arguments)@).push(
            ArgumentView::Text(s@),
        ),
{
    arguments.push(Argument::Text(s));
    assert(arguments_view(arguments@) =~= arguments_view(old(arguments)@).push(
        ArgumentView::Text(s@),
    ));
}

/// The arguments of a subcommand.
pub fn subcommand_line(subcommand: &str, argument: Option<String>, has_config_path: bool) -> (r: Vec<
    Argument,
>)
    ensures
        arguments_view(r@) == command_line(
            subcommand@,
            crate::text::opt_text(argument),
            has_config_path,
        ),
{
    let mut r: Vec<Argument> = Vec::new();
    assert(arguments_view(r@) =~= Seq::<ArgumentView>::empty());
    push_text(&mut r, subcommand.to_owned());
    assert(arguments_view(r@) =~= seq![ArgumentView::Text(subcommand@)]);
    if let Some(a) = argument {
        push_text(&mut r, a);
    }
    if has_config_path {
        push_text(&mut r, "--config".to_owned());
        let ghost before = r@;
        r.push(Argument::ConfigPath);
        assert(arguments_view(r@) =~= arguments_view(before).push(ArgumentView::ConfigPath));
    }
    r
}

/// What the daemon does on an event. `has_config_path` tells whether it was
/// started with a configuration file of its own.
pub fn on_event(event: DaemonEvent, has_config_path: bool) -> (r: DaemonAction)
    ensures
        r@ == action_on(event, has_config_path),
{
    match event {
        DaemonEvent::Capture => DaemonAction::Launch {
            arguments: subcommand_line("capture", None, has_config_path),
            complaint: "failed to launch capture".to_owned(),
        },
        DaemonEvent::ShowHistory(index) => DaemonAction::Launch {
            arguments: subcommand_line(
                "show-history",
                Some(render_usize(index)),
                has_config_path,
            ),
            complaint: "failed to show history entry".to_owned(),
        },
        DaemonEvent::ClearHistory => DaemonAction::ClearHistory {
            complaint: "failed to clear history".to_owned(),
        },
        DaemonEvent::WatchClipboard => DaemonAction::Launch {
            arguments: subcommand_line("watch-clipboard", None, has_config_path),
            complaint: "failed to launch clipboard watcher".to_owned(),
        },
        DaemonEvent::Quit => DaemonAction::Stop,
    }
}

// ---------------------------------------------------------------------
// The hotkey
// ---------------------------------------------------------------------

/// How the hotkey is listened for.
#[derive(Debug, Clone, Copy, PartialEq, Eq, Structural)]
pub enum HotkeyBackend {
    /// Through the desktop portal, on Wayland.
    Portal,
    X11,
    /// Not at all.
    Off,
}

/// How the hotkey is listened for: on Wayland through the portal, else on
/// X11, where it is enabled.
pub fn hotkey_backend(wayland: bool, cfg: &HotkeyConfig) -> (r: HotkeyBackend)
    ensures
        r == (if wayland && cfg.enable_portal {
            HotkeyBackend::Portal
        } else if !wayland && cfg.enable_x11 {
            HotkeyBackend::X11
        } else {
            HotkeyBackend::Off
        }),
{
    if wayland {
        if cfg.enable_portal {
            HotkeyBackend::Portal
        } else {
            HotkeyBackend::Off
        }
    } else if cfg.enable_x11 {
        HotkeyBackend::X11
    } else {
        HotkeyBackend::Off
    }
}

/// What is logged once the daemon runs.
pub open spec fn startup_line(listening: bool, accelerator: Seq<char>) -> Seq<char> {
    if listening {
        "running in the system tray — press "@ + accelerator
            + " or use the tray menu to capture"@
    } else {
        "no in-process hotkey backend active; use the tray menu, or bind `ocr-translate capture` to a key in your window manager"@
    }
}

/// What is logged once the daemon runs. `listening` tells whether the hotkey
/// is listened for.
pub fn startup_notice(listening: bool, accelerator: &str) -> (r: String)
    ensures
        r@ == startup_line(listening, accelerator@),
{
    if listening {
        let mut r = "running in the system tray — press ".to_owned();
        r.append(accelerator);
        r.append(" or use the tray menu to capture");
        r
    } else {
        "no in-process hotkey backend active; use the tray menu, or bind `ocr-translate capture` to a key in your window manager".to_owned()
    }
}

// ---------------------------------------------------------------------
// Changes of the configuration
// ---------------------------------------------------------------------

/// When the configuration file was last seen to change: seconds and
/// nanoseconds, or nothing if there is no file.
#[derive(Debug)]
pub struct ConfigWatch {
    pub seen: Option<(i64, u32)>,
}

impl ConfigWatch {
    /// Takes note of the file's time. Tells whether it changed.
    pub fn look(&mut self, now: Option<(i64, u32)>) -> (changed: bool)
        ensures
            changed == (now != old(self).seen),
            final(self).seen == now,
    {
        let changed = match (self.seen, now) {
            (None, None) => false,
            (Some(a), Some(b)) => a.0 != b.0 || a.1 != b.1,
            _ => true,
        };
        self.seen = now;
        changed
    }
}

/// What a changed configuration means for the hotkey.
#[derive(Debug, Clone, Copy, PartialEq, Eq, Structural)]
pub enum HotkeyChange {
    Nothing,
    /// The hotkey is bound anew.
    Rebind,
    /// The portal's hotkey cannot be bound anew; a restart is needed.
    NeedsRestart,
}

/// What a changed hotkey setting means. `bound` tells whether a hotkey is
/// bound on X11.
pub open spec fn hotkey_change(
    old_region: Seq<char>,
    new_region: Seq<char>,
    bound: bool,
    wayland: bool,
) -> HotkeyChange {
    if old_region == new_region {
        HotkeyChange::Nothing
    } else if bound {
        HotkeyChange::Rebind
    } else if wayland {
        HotkeyChange::NeedsRestart
    } else {
        HotkeyChange::Nothing
    }
}

/// The configuration in force after the file changed, and what that means
/// for the hotkey. A file that cannot be read leaves everything as it was.
pub fn after_change(
    current: AppConfig,
    loaded: Result<AppConfig, Failure>,
    bound: bool,
    wayland: bool,
) -> (r: (AppConfig, HotkeyChange))
    ensures
        (match loaded {
            Ok(new) => {
                &&& r.0 == new
                &&& r.1 == hotkey_change(
                    current.hotkey.capture_region@,
                    new.hotkey.capture_region@,
                    bound,
                    wayland,
                )
            },
            Err(_) => r.0 == current && r.1 == HotkeyChange::Nothing,
        }),
{
    match loaded {
        Err(_) => (current, HotkeyChange::Nothing),
        Ok(new) => {
            let change = if same_text(
                current.hotkey.capture_region.as_str(),
                new.hotkey.capture_region.as_str(),
            ) {
                HotkeyChange::Nothing
            } else if bound {
                HotkeyChange::Rebind
            } else if wayland {
                HotkeyChange::NeedsRestart
            } else {
                HotkeyChange::Nothing
            };
            (new, change)
        },
    }
}

// ---------------------------------------------------------------------
// Laws
// ---------------------------------------------------------------------

/// Whether an argument is this text.
pub open spec fn is_text(a: Argument, s: Seq<char>) -> bool {
    a matches Argument::Text(t) && t@ == s
}

/// A subcommand is called by its name, its own argument where it has one, and
/// the daemon's configuration where it has one, in this order.
pub proof fn law_command_line(
    subcommand: &str,
    argument: Option<String>,
    has_config_path: bool,
    r: Vec<Argument>,
)
    requires
        call_ensures(subcommand_line, (subcommand, argument, has_config_path), r),
    ensures
        ({
            let own: int = if argument is Some { 1 } else { 0 };
            &&& r@.len() == 1 + own + (if has_config_path { 2int } else { 0 })
            &&& is_text(r@[0], subcommand@)
            &&& argument matches Some(a) ==> is_text(r@[1], a@)
            &&& has_config_path ==> is_text(r@[1 + own], "--config"@) && r@[2 + own] is ConfigPath
        }),
{
    let v = arguments_view(r@);
    let own: int = if argument is Some { 1 } else { 0 };
    assert(v.len() == r@.len());
    assert(v[0] == r@[0]@);
    if argument is Some {
        assert(v[1] == r@[1]@);
    }
    if has_config_path {
        assert(v[1 + own] == r@[1 + own]@);
        assert(v[2 + own] == r@[2 + own]@);
    }
}

/// Each event runs the subcommand that does what it asks for, with the entry
/// that was chosen; clearing and quitting are the daemon's own.
pub proof fn law_events(
    event: DaemonEvent,
    has_config_path: bool,
    r: DaemonAction,
    name: &str,
    argument: Option<String>,
    line: Vec<Argument>,
)
    requires
        call_ensures(on_event, (event, has_config_path), r),
        call_ensures(subcommand_line, (name, argument, has_config_path), line),
    ensures
        event == DaemonEvent::Capture ==> (r matches DaemonAction::Launch { arguments, complaint }
            && complaint@ == "failed to launch capture"@ && (name@ == "capture"@ && argument is None
            ==> arguments_view(arguments@) == arguments_view(line@))),
        event matches DaemonEvent::ShowHistory(index) ==> (r matches DaemonAction::Launch {
            arguments,
            complaint,
        } && complaint@ == "failed to show history entry"@ && (name@ == "show-history"@
            && argument is Some && argument->0@ == number::decimal(index as nat) ==> arguments_view(
            arguments@,
        ) == arguments_view(line@))),
        event == DaemonEvent::WatchClipboard ==> (r matches DaemonAction::Launch {
            arguments,
            complaint,
        } && complaint@ == "failed to launch clipboard watcher"@ && (name@ == "watch-clipboard"@
            && argument is None ==> arguments_view(arguments@) == arguments_view(line@))),
        event == DaemonEvent::ClearHistory ==> (r matches DaemonAction::ClearHistory { complaint }
            && complaint@ == "failed to clear history"@),
        event == DaemonEvent::Quit ==> r is Stop,
{
}

/// On Wayland the hotkey is listened for through the portal, elsewhere on
/// X11, each where it is enabled.
pub proof fn law_hotkey_backend(wayland: bool, cfg: &HotkeyConfig, r: HotkeyBackend)
    requires
        call_ensures(hotkey_backend, (wayland, cfg), r),
    ensures
        wayland ==> r == (if cfg.enable_portal { HotkeyBackend::Portal } else {
            HotkeyBackend::Off
        }),
        !wayland ==> r == (if cfg.enable_x11 { HotkeyBackend::X11 } else { HotkeyBackend::Off }),
{
}

/// The notice names the hotkey where it is listened for.
pub proof fn law_startup_notice(listening: bool, accelerator: &str, r: String)
    requires
        call_ensures(startup_notice, (listening, accelerator), r),
    ensures
        listening ==> r@ == "running in the system tray — press "@ + accelerator@
            + " or use the tray menu to capture"@,
        !listening ==> r@
            == "no in-process hotkey backend active; use the tray menu, or bind `ocr-translate capture` to a key in your window manager"@,
{
}

/// A file counts as changed if its time is not the one seen last, and the
/// time is then the one seen last.
pub proof fn law_watch(w: &mut ConfigWatch, now: Option<(i64, u32)>, changed: bool)
    requires
        call_ensures(ConfigWatch::look, (w, now), changed),
    ensures
        changed <==> now != old(w).seen,
        final(w).seen == now,
{
}

/// A configuration that could be read takes the place of the one in force,
/// and one that could not changes nothing. A hotkey that changed is bound
/// anew on X11 and needs a restart on Wayland.
pub proof fn law_changed_configuration(
    current: AppConfig,
    loaded: Result<AppConfig, Failure>,
    bound: bool,
    wayland: bool,
    r: (AppConfig, HotkeyChange),
)
    requires
        call_ensures(after_change, (current, loaded, bound, wayland), r),
    ensures
        loaded is Err ==> r.0 == current && r.1 == HotkeyChange::Nothing,
        loaded matches Ok(new) ==> {
            let same = current.hotkey.capture_region@ == new.hotkey.capture_region@;
            &&& r.0 == new
            &&& same ==> r.1 == HotkeyChange::Nothing
            &&& !same && bound ==> r.1 == HotkeyChange::Rebind
            &&& !same && !bound && wayland ==> r.1 == HotkeyChange::NeedsRestart
            &&& !same && !bound && !wayland ==> r.1 == HotkeyChange::Nothing
        },
{
}

} // verus!
