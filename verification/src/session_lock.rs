//! Which sessions may run at the same time, and what happens when one is in
//! the way of another.
//!
//! Sessions are processes of their own, so they find each other through two
//! lock files, which the system releases when a process ends.

use crate::http;
use crate::http::Failure;
use crate::number;
use crate::number::{parse_u32, render_u32};
use crate::text;
use crate::text::trim;
use vstd::prelude::*;

verus! {

// ---------------------------------------------------------------------
// Who locks what
// ---------------------------------------------------------------------

#[derive(Debug, Clone, Copy, PartialEq, Eq, Structural)]
pub enum LockName {
    Region,
    Clipboard,
}

#[derive(Debug, Clone, Copy, PartialEq, Eq, Structural)]
pub enum Session {
    /// One capture.
    Capture,
    /// Live Clipboard Translate.
    WatchClipboard,
    /// Live Region Translate.
    WatchRegion,
}

/// One lock that a session takes before it starts.
#[derive(Debug)]
pub struct LockStep {
    pub lock: LockName,
    /// Whether the lock is held while the session runs, and not just looked
    /// at.
    pub keep: bool,
    /// What is being started.
    pub starting_what: String,
    /// What holds the lock otherwise.
    pub blocking_name: String,
}

#[verifier::ext_equal]
pub struct LockStepView {
    pub lock: LockName,
    pub keep: bool,
    pub starting_what: Seq<char>,
    pub blocking_name: Seq<char>,
}

impl View for LockStep {
    type V = LockStepView;

    open spec fn view(&self) -> LockStepView {
        LockStepView {
            lock: self.lock,
            keep: self.keep,
            starting_what: self.starting_what@,
            blocking_name: self.blocking_name@,
        }
    }
}

/// The locks that a session takes before it starts, in their order.
pub open spec fn steps_of(s: Session) -> Seq<LockStepView> {
    match s {
        Session::Capture => seq![
            LockStepView {
                lock: LockName::Region,
                keep: false,
                starting_what: "capture"@,
                blocking_name: "Live Region Translate"@,
            },
        ],
        Session::WatchClipboard => seq![
            LockStepView {
                lock: LockName::Region,
                keep: false,
                starting_what: "Live Clipboard Translate"@,
                blocking_name: "Live Region Translate"@,
            },
            LockStepView {
                lock: LockName::Clipboard,
                keep: true,
                starting_what: "another Live Clipboard Translate session"@,
                blocking_name: "Live Clipboard Translate"@,
            },
        ],
        Session::WatchRegion => seq![
            LockStepView {
                lock: LockName::Clipboard,
                keep: false,
                starting_what: "Live Region Translate"@,
                blocking_name: "Live Clipboard Translate"@,
            },
            LockStepView {
                lock: LockName::Region,
                keep: true,
                starting_what: "another Live Region Translate session"@,
                blocking_name: "Live Region Translate"@,
            },
        ],
    }
}

/// What steps say.
pub open spec fn steps_view(v: Seq<LockStep>) -> Seq<LockStepView> {
    v.map_values(|s: LockStep| s@)
}

fn step(lock: LockName, keep: bool, starting_what: &str, blocking_name: &str) -> (r: LockStep)
    ensures
        r@ == (LockStepView {
            lock,
            keep,
            starting_what: starting_what@,
            blocking_name: blocking_name@,
        }),
{
    LockStep {
        lock,
        keep,
        starting_what: starting_what.to_owned(),
        blocking_name: blocking_name.to_owned(),
    }
}

/// The locks that a session takes before it starts, in their order.
pub fn lock_steps(s: Session) -> (r: Vec<LockStep>)
    ensures
        steps_view(r@) == steps_of(s),
{
    let mut r: Vec<LockStep> = Vec::new();
    match s {
        Session::Capture => {
            r.push(step(LockName::Region, false, "capture", "Live Region Translate"));
        },
        Session::WatchClipboard => {
            r.push(
                step(
                    LockName::Region,
                    false,
                    "Live Clipboard Translate",
                    "Live Region Translate",
                ),
            );
            r.push(
                step(
                    LockName::Clipboard,
                    true,
                    "another Live Clipboard Translate session",
                    "Live Clipboard Translate",
                ),
            );
        },
        Session::WatchRegion => {
            r.push(
                step(
                    LockName::Clipboard,
                    false,
                    "Live Region Translate",
                    "Live Clipboard Translate",
                ),
            );
            r.push(
                step(
                    LockName::Region,
                    true,
                    "another Live Region Translate session",
                    "Live Region Translate",
                ),
            );
        },
    }
    assert(steps_view(r@) =~= steps_of(s));
    r
}

/// Whether a running session holds a lock that another takes before it
/// starts.
pub open spec fn blocks(running: Session, starting: Session) -> bool {
    exists|i: int, j: int|
        #![trigger steps_of(running)[i], steps_of(starting)[j]]
        0 <= i < steps_of(running).len() && 0 <= j < steps_of(starting).len() && steps_of(
            running,
        )[i].keep && steps_of(running)[i].lock == steps_of(starting)[j].lock
}

/// Of two different sessions only Live Clipboard Translate and a capture can
/// run at the same time, whichever starts first.
pub proof fn law_only_clipboard_and_capture_run_together(a: Session, b: Session)
    requires
        a != b,
    ensures
        (!blocks(a, b) && !blocks(b, a)) <==> (a == Session::WatchClipboard && b
            == Session::Capture) || (a == Session::Capture && b == Session::WatchClipboard),
{
    let w = Session::WatchRegion;
    let c = Session::WatchClipboard;
    let p = Session::Capture;
    assert(blocks(w, p)) by {
        assert(steps_of(w)[1].lock == steps_of(p)[0].lock);
    }
    assert(blocks(w, c)) by {
        assert(steps_of(w)[1].lock == steps_of(c)[0].lock);
    }
    assert(blocks(c, w)) by {
        assert(steps_of(c)[1].lock == steps_of(w)[0].lock);
    }
}

/// No two sessions of the same live kind run at the same time.
pub proof fn law_no_live_session_twice(s: Session)
    requires
        s != Session::Capture,
    ensures
        blocks(s, s),
{
    assert(steps_of(s)[1].lock == steps_of(s)[1].lock);
}

/// The name of a lock's file.
pub open spec fn file_of(lock: LockName) -> Seq<char> {
    match lock {
        LockName::Region => "region.lock"@,
        LockName::Clipboard => "clipboard.lock"@,
    }
}

/// The name of a lock's file.
pub fn lock_file_name(lock: LockName) -> (r: &'static str)
    ensures
        r@ == file_of(lock),
{
    match lock {
        LockName::Region => "region.lock",
        LockName::Clipboard => "clipboard.lock",
    }
}

/// The process that a lock's file names, if it names one. The file is read
/// without the lock, so the answer only serves to offer to stop the process.
pub fn holder_pid(contents: &str) -> (r: Option<u32>)
    ensures
        (match r {
            Some(n) => number::unsigned_in(text::trimmed(contents@), u32::MAX as nat) == Some(
                n as nat,
            ),
            None => number::unsigned_in(text::trimmed(contents@), u32::MAX as nat) is None,
        }),
{
    let t = trim(contents);
    parse_u32(t.as_str())
}

// ---------------------------------------------------------------------
// Conflicts
// ---------------------------------------------------------------------

/// What is done about a lock next.
#[derive(Debug)]
pub enum ConflictStep {
    /// Take the lock; what comes of it is the outcome.
    Acquire,
    /// Ask the user.
    Ask { title: String, message: String, can_stop: bool },
    /// Stop the process that holds the lock, then look.
    Terminate(u32),
    /// Look whether the lock is still held; `left` looks are left.
    Look { left: u32 },
    /// Wait a moment, then look; `left` looks are left.
    Pause { left: u32 },
    /// Take the lock; if that fails, it was not released in time.
    AcquireOrGiveUp,
    /// The user does not want to go on.
    Cancelled,
}

#[verifier::ext_equal]
pub enum ConflictStepView {
    Acquire,
    Ask { title: Seq<char>, message: Seq<char>, can_stop: bool },
    Terminate(u32),
    Look { left: u32 },
    Pause { left: u32 },
    AcquireOrGiveUp,
    Cancelled,
}

impl View for ConflictStep {
    type V = ConflictStepView;

    open spec fn view(&self) -> ConflictStepView {
        match *self {
            ConflictStep::Acquire => ConflictStepView::Acquire,
            ConflictStep::Ask { title, message, can_stop } => ConflictStepView::Ask {
                title: title@,
                message: message@,
                can_stop,
            },
            ConflictStep::Terminate(pid) => ConflictStepView::Terminate(pid),
            ConflictStep::Look { left } => ConflictStepView::Look { left },
            ConflictStep::Pause { left } => ConflictStepView::Pause { left },
            ConflictStep::AcquireOrGiveUp => ConflictStepView::AcquireOrGiveUp,
            ConflictStep::Cancelled => ConflictStepView::Cancelled,
        }
    }
}

/// What the user is asked.
pub open spec fn question(
    starting_what: Seq<char>,
    blocking_name: Seq<char>,
    pid: Option<u32>,
) -> ConflictStepView {
    ConflictStepView::Ask {
        title: blocking_name + " is active"@,
        message: blocking_name + " is currently running, which can't run at the same time as "@
            + starting_what + "."@,
        can_stop: pid is Some,
    }
}

/// What is done about a lock first: if it is held, the user is asked, and
/// offered to stop the holder if that is known.
pub fn resolve_conflict(
    active: bool,
    pid: Option<u32>,
    starting_what: &str,
    blocking_name: &str,
) -> (r: ConflictStep)
    ensures
        r@ == (if active {
            question(starting_what@, blocking_name@, pid)
        } else {
            ConflictStepView::Acquire
        }),
{
    if !active {
        return ConflictStep::Acquire;
    }
    let mut title = blocking_name.to_owned();
    title.append(" is active");
    let mut message = blocking_name.to_owned();
    message.append(" is currently running, which can't run at the same time as ");
    message.append(starting_what);
    message.append(".");
    ConflictStep::Ask { title, message, can_stop: pid.is_some() }
}

/// What the user chose.
#[derive(Debug, Clone, Copy, PartialEq, Eq, Structural)]
pub enum ConflictChoice {
    Cancel,
    StopAndContinue,
}

/// How often a lock is looked at before it is taken.
pub const LOOKS: u32 = 20;

/// What is done once the user chose.
pub fn after_choice(choice: ConflictChoice, pid: Option<u32>) -> (r: ConflictStep)
    ensures
        r@ == (match choice {
            ConflictChoice::Cancel => ConflictStepView::Cancelled,
            ConflictChoice::StopAndContinue => match pid {
                Some(n) => ConflictStepView::Terminate(n),
                None => ConflictStepView::Look { left: LOOKS },
            },
        }),
{
    match choice {
        ConflictChoice::Cancel => ConflictStep::Cancelled,
        ConflictChoice::StopAndContinue => match pid {
            Some(n) => ConflictStep::Terminate(n),
            None => ConflictStep::Look { left: LOOKS },
        },
    }
}

/// What is done once the holder was told to stop. That this may have failed
/// makes no difference: the process may be gone already, and what is still
/// wrong shows when the lock is taken.
pub fn after_terminate() -> (r: ConflictStep)
    ensures
        r@ == (ConflictStepView::Look { left: LOOKS }),
{
    ConflictStep::Look { left: LOOKS }
}

/// What is done after a look: a lock that is still held is looked at again
/// after a pause, as long as looks are left.
pub open spec fn step_after_look(left: u32, active: bool) -> ConflictStepView {
    if active && left > 0 {
        ConflictStepView::Pause { left: (left - 1) as u32 }
    } else {
        ConflictStepView::AcquireOrGiveUp
    }
}

/// What is done after a pause.
pub open spec fn step_after_pause(left: u32) -> ConflictStepView {
    if left > 0 {
        ConflictStepView::Look { left }
    } else {
        ConflictStepView::AcquireOrGiveUp
    }
}

/// What is done after a look.
pub fn after_look(left: u32, active: bool) -> (r: ConflictStep)
    ensures
        r@ == step_after_look(left, active),
{
    if active && left > 0 {
        ConflictStep::Pause { left: left - 1 }
    } else {
        ConflictStep::AcquireOrGiveUp
    }
}

/// What is done after a pause.
pub fn after_pause(left: u32) -> (r: ConflictStep)
    ensures
        r@ == step_after_pause(left),
{
    if left > 0 {
        ConflictStep::Look { left }
    } else {
        ConflictStep::AcquireOrGiveUp
    }
}

/// The outcome of the last attempt to take a lock.
pub fn after_last_attempt(got: bool, blocking_name: &str) -> (r: Result<(), Failure>)
    ensures
        got ==> r is Ok,
        !got ==> (r matches Err(f) && f@ == http::plain(blocking_name@ + " didn't stop in time"@)),
{
    if got {
        Ok(())
    } else {
        let mut m = blocking_name.to_owned();
        m.append(" didn't stop in time");
        Err(Failure::new(m.as_str()))
    }
}

/// How many pauses are made from a look on, where each further look finds
/// the lock held exactly if the next of `held` says so.
pub open spec fn pauses(left: u32, held: Seq<bool>) -> nat
    decreases left,
{
    if held.len() == 0 {
        0
    } else {
        match step_after_look(left, held[0]) {
            ConflictStepView::Pause { left: l } => if l < left {
                1 + match step_after_pause(l) {
                    ConflictStepView::Look { left: m } => if m <= l {
                        pauses(m, held.skip(1))
                    } else {
                        0
                    },
                    _ => 0,
                }
            } else {
                0
            },
            _ => 0,
        }
    }
}

/// A lock is waited for a bounded time only: there are at most as many
/// pauses as looks, and none after a look that finds the lock free.
pub proof fn law_waiting_is_bounded(left: u32, held: Seq<bool>)
    ensures
        pauses(left, held) <= left,
        pauses(left, held) <= held.len(),
        forall|i: int| 0 <= i < pauses(left, held) ==> #[trigger] held[i],
    decreases left,
{
    if left > 0 && held.len() > 0 && held[0] {
        let m: u32 = (left - 1) as u32;
        let rest = held.skip(1);
        law_waiting_is_bounded(m, rest);
        if m > 0 {
            assert(pauses(left, held) == 1 + pauses(m, rest));
            assert forall|i: int| 0 <= i < pauses(left, held) implies #[trigger] held[i] by {
                if i > 0 {
                    assert(rest[i - 1] == held[i]);
                }
            }
        } else {
            assert(pauses(left, held) == 1);
        }
    } else {
        assert(pauses(left, held) == 0);
    }
}

// ---------------------------------------------------------------------
// Stopping a process
// ---------------------------------------------------------------------

/// What came of telling a process to stop.
#[derive(Debug)]
pub enum Termination {
    /// There is no way to do that on this system.
    Unsupported,
    /// `kill` could not be run.
    NotRun(String),
    /// `kill` ended, with the given status.
    Exited { success: bool, status: String },
    /// The process was stopped without `kill`.
    Stopped,
    /// The process could not be opened.
    NotOpened(String),
    /// The process was opened, but not stopped.
    NotStopped(String),
}

/// The arguments for `kill`.
pub fn kill_arguments(pid: u32) -> (r: Vec<String>)
    ensures
        text::texts(r@) == seq!["-TERM"@, number::decimal(pid as nat)],
{
    let mut r: Vec<String> = Vec::new();
    r.push("-TERM".to_owned());
    r.push(render_u32(pid));
    assert(text::texts(r@) =~= seq!["-TERM"@, number::decimal(pid as nat)]);
    r
}

/// Whether a process was told to stop.
pub open spec fn terminated(pid: u32, t: Termination) -> Result<(), http::FailureView> {
    match t {
        Termination::Unsupported => Err(
            http::plain("stopping another session isn't implemented on this OS yet"@),
        ),
        Termination::NotRun(e) => Err(http::caused("failed to run `kill`"@, e@)),
        Termination::Exited { success, status } => if success {
            Ok(())
        } else {
            Err(
                http::plain(
                    "`kill -TERM "@ + number::decimal(pid as nat) + "` exited with "@ + status@,
                ),
            )
        },
        Termination::Stopped => Ok(()),
        Termination::NotOpened(e) => Err(
            http::plain("failed to open process "@ + number::decimal(pid as nat) + ": "@ + e@),
        ),
        Termination::NotStopped(e) => Err(
            http::plain(
                "failed to terminate process "@ + number::decimal(pid as nat) + ": "@ + e@,
            ),
        ),
    }
}

fn process_failure(what: &str, pid: u32, e: &str) -> (f: Failure)
    ensures
        f@ == http::plain(what@ + number::decimal(pid as nat) + ": "@ + e@),
{
    let mut m = what.to_owned();
    let digits = render_u32(pid);
    m.append(digits.as_str());
    m.append(": ");
    m.append(e);
    Failure::new(m.as_str())
}

/// Whether a process was told to stop, or why not.
pub fn terminate_process(pid: u32, outcome: &Termination) -> (r: Result<(), Failure>)
    ensures
        (match r {
            Ok(_) => terminated(pid, *outcome) is Ok,
            Err(f) => terminated(pid, *outcome) == Err::<(), http::FailureView>(f@),
        }),
{
    match outcome {
        Termination::Unsupported => Err(
            Failure::new("stopping another session isn't implemented on this OS yet"),
        ),
        Termination::NotRun(e) => Err(Failure::because("failed to run `kill`", e.as_str())),
        Termination::Exited { success, status } => {
            if *success {
                Ok(())
            } else {
                let mut m = "`kill -TERM ".to_owned();
                let digits = render_u32(pid);
                m.append(digits.as_str());
                m.append("` exited with ");
                m.append(status.as_str());
                Err(Failure::new(m.as_str()))
            }
        },
        Termination::Stopped => Ok(()),
        Termination::NotOpened(e) => Err(
            process_failure("failed to open process ", pid, e.as_str()),
        ),
        Termination::NotStopped(e) => Err(
            process_failure("failed to terminate process ", pid, e.as_str()),
        ),
    }
}

// ---------------------------------------------------------------------
// What each step leads to
// ---------------------------------------------------------------------

/// Which locks a session takes. A capture and the clipboard's session look
/// whether a region session runs; the region's session looks whether one of
/// the clipboard runs; and each live session keeps its own lock.
pub proof fn law_locks(s: Session, r: Vec<LockStep>)
    requires
        call_ensures(lock_steps, (s,), r),
    ensures
        s == Session::Capture ==> r@.len() == 1 && r@[0].lock == LockName::Region && !r@[0].keep
            && r@[0].starting_what@ == "capture"@ && r@[0].blocking_name@
            == "Live Region Translate"@,
        s == Session::WatchClipboard ==> {
            &&& r@.len() == 2
            &&& r@[0].lock == LockName::Region && !r@[0].keep && r@[0].starting_what@
                == "Live Clipboard Translate"@ && r@[0].blocking_name@ == "Live Region Translate"@
            &&& r@[1].lock == LockName::Clipboard && r@[1].keep && r@[1].starting_what@
                == "another Live Clipboard Translate session"@ && r@[1].blocking_name@
                == "Live Clipboard Translate"@
        },
        s == Session::WatchRegion ==> {
            &&& r@.len() == 2
            &&& r@[0].lock == LockName::Clipboard && !r@[0].keep && r@[0].starting_what@
                == "Live Region Translate"@ && r@[0].blocking_name@ == "Live Clipboard Translate"@
            &&& r@[1].lock == LockName::Region && r@[1].keep && r@[1].starting_what@
                == "another Live Region Translate session"@ && r@[1].blocking_name@
                == "Live Region Translate"@
        },
{
    assert(steps_view(r@).len() == r@.len());
    assert(steps_view(r@)[0] == r@[0]@);
    if s != Session::Capture {
        assert(steps_view(r@)[1] == r@[1]@);
    }
}

/// Each lock has a file of its own.
pub proof fn law_lock_files(region: &'static str, clipboard: &'static str)
    requires
        call_ensures(lock_file_name, (LockName::Region,), region),
        call_ensures(lock_file_name, (LockName::Clipboard,), clipboard),
    ensures
        region@ == "region.lock"@,
        clipboard@ == "clipboard.lock"@,
        region@ != clipboard@,
{
    reveal_strlit("region.lock");
    reveal_strlit("clipboard.lock");
    assert("region.lock"@.len() == 11 && "clipboard.lock"@.len() == 14);
}

/// The process that a lock's file names is the number in it, white space
/// around it aside.
pub proof fn law_holder(
    contents: &str,
    r: Option<u32>,
    trimmed: String,
    inner: &str,
    read: Option<u32>,
    n: u32,
)
    requires
        call_ensures(holder_pid, (contents,), r),
        call_ensures(trim, (contents,), trimmed),
        inner@ == trimmed@,
        call_ensures(parse_u32, (inner,), read),
    ensures
        r == read,
        contents@ == number::decimal(n as nat) ==> r == Some(n),
{
    if contents@ == number::decimal(n as nat) {
        number::lemma_decimal_digits(n as nat);
        number::law_unsigned_roundtrip(n as nat, u32::MAX as nat);
        let d = number::decimal(n as nat);
        assert(number::is_digit(d[0]) && number::is_digit(d[d.len() - 1]));
        crate::text_laws::law_trimmed_fixed(d);
    }
}

/// A lock that is free is taken; one that is held is asked about, by the
/// names of both sessions, and stopping is offered if the holder is known.
pub proof fn law_conflict(
    active: bool,
    pid: Option<u32>,
    starting_what: &str,
    blocking_name: &str,
    r: ConflictStep,
)
    requires
        call_ensures(resolve_conflict, (active, pid, starting_what, blocking_name), r),
    ensures
        !active ==> r is Acquire,
        active ==> (r matches ConflictStep::Ask { title, message, can_stop } && {
            &&& title@ == blocking_name@ + " is active"@
            &&& message@ == blocking_name@
                + " is currently running, which can't run at the same time as "@ + starting_what@
                + "."@
            &&& can_stop == (pid is Some)
        }),
{
}

/// What follows the user's choice: nothing more if they do not want to go on;
/// else the holder is stopped, where it is known, and the lock looked at up to
/// twenty times.
pub proof fn law_choice(choice: ConflictChoice, pid: Option<u32>, r: ConflictStep)
    requires
        call_ensures(after_choice, (choice, pid), r),
    ensures
        choice == ConflictChoice::Cancel ==> r is Cancelled,
        choice == ConflictChoice::StopAndContinue ==> (match pid {
            Some(n) => r == ConflictStep::Terminate(n),
            None => r == (ConflictStep::Look { left: 20 }),
        }),
{
}

/// A lock that is still held is looked at once less after a pause; one that
/// was let go, or has no looks left, is taken or given up.
pub proof fn law_look(left: u32, active: bool, r: ConflictStep)
    requires
        call_ensures(after_look, (left, active), r),
    ensures
        active && left > 0 ==> r == (ConflictStep::Pause { left: (left - 1) as u32 }),
        !active || left == 0 ==> r is AcquireOrGiveUp,
{
}

/// After a pause the lock is looked at again, if looks are left.
pub proof fn law_pause(left: u32, r: ConflictStep)
    requires
        call_ensures(after_pause, (left,), r),
    ensures
        left > 0 ==> r == (ConflictStep::Look { left }),
        left == 0 ==> r is AcquireOrGiveUp,
{
}

/// Once the holder was told to stop, the lock is looked at up to twenty
/// times.
pub proof fn law_looks_after_stopping(r: ConflictStep)
    requires
        call_ensures(after_terminate, (), r),
    ensures
        r == (ConflictStep::Look { left: 20 }),
{
}

/// A lock that stays held is waited for as long as looks are left.
pub proof fn law_waiting_uses_its_looks(left: u32, held: Seq<bool>)
    requires
        forall|i: int| 0 <= i < held.len() ==> #[trigger] held[i],
    ensures
        pauses(left, held) == (if held.len() < left { held.len() } else { left as nat }),
    decreases left,
{
    if left > 0 && held.len() > 0 {
        assert(held[0]);
        let m: u32 = (left - 1) as u32;
        let rest = held.skip(1);
        assert forall|i: int| 0 <= i < rest.len() implies #[trigger] rest[i] by {
            assert(held[i + 1]);
        }
        law_waiting_uses_its_looks(m, rest);
        if m > 0 {
            assert(pauses(left, held) == 1 + pauses(m, rest));
        } else {
            assert(pauses(left, held) == 1);
        }
    } else {
        assert(pauses(left, held) == 0);
    }
}

/// A lock that could not be taken in the end is reported with its holder.
pub proof fn law_last_attempt(got: bool, blocking_name: &str, r: Result<(), Failure>)
    requires
        call_ensures(after_last_attempt, (got, blocking_name), r),
    ensures
        got ==> r is Ok,
        !got ==> (r matches Err(f) && f.cause is None && f.message@ == blocking_name@
            + " didn't stop in time"@),
{
}

/// A process is asked to stop by its number.
pub proof fn law_kill_arguments(pid: u32, r: Vec<String>)
    requires
        call_ensures(kill_arguments, (pid,), r),
    ensures
        r@.len() == 2,
        r@[0]@ == "-TERM"@,
        r@[1]@ == number::decimal(pid as nat),
{
    assert(text::texts(r@).len() == r@.len());
    assert(text::texts(r@)[0] == r@[0]@);
    assert(text::texts(r@)[1] == r@[1]@);
}

/// A process was told to stop if `kill` succeeded or it was stopped without
/// it; anything else is reported with the process and the reason.
pub proof fn law_termination(pid: u32, outcome: &Termination, r: Result<(), Failure>)
    requires
        call_ensures(terminate_process, (pid, outcome), r),
    ensures
        r is Ok <==> *outcome is Stopped || (*outcome matches Termination::Exited {
            success,
            status,
        } && success),
        *outcome matches Termination::Exited { success, status } ==> (!success ==> (r matches Err(f)
            && f.cause is None && f.message@ == "`kill -TERM "@ + number::decimal(pid as nat)
            + "` exited with "@ + status@)),
        *outcome matches Termination::NotRun(e) ==> (r matches Err(f) && f.message@
            == "failed to run `kill`"@ && text::opt_text(f.cause) == Some(e@)),
        *outcome matches Termination::NotOpened(e) ==> (r matches Err(f) && f.cause is None
            && f.message@ == "failed to open process "@ + number::decimal(pid as nat) + ": "@ + e@),
        *outcome matches Termination::NotStopped(e) ==> (r matches Err(f) && f.cause is None
            && f.message@ == "failed to terminate process "@ + number::decimal(pid as nat) + ": "@
            + e@),
{
}

} // verus!
