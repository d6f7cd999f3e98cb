//! How a screen region is got.

use crate::config::{CaptureBackend, CaptureConfig};
use crate::frame::Frame;
use crate::http;
use crate::http::Failure;
use crate::text;
use crate::text::strip_prefix;
use vstd::prelude::*;

verus! {

/// How a screen region is got.
#[derive(Debug)]
pub enum CapturePlan {
    /// Grab the monitor under the cursor, and let the user crop it.
    GrabAndSelect,
    /// Run a command through the shell and wait for a picture on the
    /// clipboard.
    Run { command: String, timeout_secs: u64 },
}

/// How a screen region is got.
pub fn acquire(cfg: &CaptureConfig) -> (r: CapturePlan)
    ensures
        (match r {
            CapturePlan::GrabAndSelect => cfg.backend == CaptureBackend::BuiltIn,
            CapturePlan::Run { command, timeout_secs } => cfg.backend == CaptureBackend::External
                && command@ == cfg.external_command@ && timeout_secs
                == cfg.external_timeout_secs,
        }),
{
    match cfg.backend {
        CaptureBackend::BuiltIn => CapturePlan::GrabAndSelect,
        CaptureBackend::External => CapturePlan::Run {
            command: cfg.external_command.clone(),
            timeout_secs: cfg.external_timeout_secs,
        },
    }
}

/// The path of a screenshot that the desktop portal left, from its address.
pub open spec fn path_of(uri: Seq<char>) -> Result<Seq<char>, http::FailureView> {
    if text::has_prefix(uri, "file://"@) {
        Ok(uri.skip("file://"@.len() as int))
    } else {
        Err(http::plain("portal returned a non-local URI: "@ + uri))
    }
}

/// The path of a screenshot that the desktop portal left, from its address.
pub fn screenshot_path(uri: &str) -> (r: Result<String, Failure>)
    ensures
        http::said(r) == path_of(uri@),
{
    match strip_prefix(uri, "file://") {
        Some(path) => Ok(path),
        None => {
            let mut m = "portal returned a non-local URI: ".to_owned();
            m.append(uri);
            Err(Failure::new(m.as_str()))
        },
    }
}

/// What a look for a frame amounts to.
#[derive(Debug)]
pub enum FrameLook {
    Got(Frame),
    TimedOut(Failure),
    /// Look again a little later.
    Wait,
}

/// What a look for the first frame of a capture session amounts to.
pub fn wait_for_frame(frame: Option<Frame>, timed_out: bool) -> (r: FrameLook)
    ensures
        (match r {
            FrameLook::Got(f) => frame == Some(f),
            FrameLook::TimedOut(e) => frame is None && timed_out && e@ == http::plain(
                "timed out waiting for the first frame from the screen capture session"@,
            ),
            FrameLook::Wait => frame is None && !timed_out,
        }),
{
    match frame {
        Some(f) => FrameLook::Got(f),
        None => {
            if timed_out {
                FrameLook::TimedOut(
                    Failure::new(
                        "timed out waiting for the first frame from the screen capture session",
                    ),
                )
            } else {
                FrameLook::Wait
            }
        },
    }
}

// ---------------------------------------------------------------------
// Laws
// ---------------------------------------------------------------------

/// The backend decides how a region is got; the external one runs the
/// configured command and waits as long as configured.
pub proof fn law_backend_decides(cfg: &CaptureConfig, r: CapturePlan)
    requires
        call_ensures(acquire, (cfg,), r),
    ensures
        cfg.backend == CaptureBackend::BuiltIn ==> r is GrabAndSelect,
        cfg.backend == CaptureBackend::External ==> (r matches CapturePlan::Run {
            command,
            timeout_secs,
        } && command@ == cfg.external_command@ && timeout_secs == cfg.external_timeout_secs),
{
}

/// A local address is the path behind its scheme; any other is reported.
pub proof fn law_screenshot_path(uri: &str, r: Result<String, Failure>, path: Seq<char>)
    requires
        call_ensures(screenshot_path, (uri,), r),
    ensures
        uri@ == "file://"@ + path ==> (r matches Ok(p) && p@ == path),
        r matches Ok(p) ==> uri@ == "file://"@ + p@,
        r matches Err(f) ==> f.cause is None && f.message@ == "portal returned a non-local URI: "@
            + uri@,
{
    if uri@ == "file://"@ + path {
        assert(uri@.take("file://"@.len() as int) == "file://"@);
        assert(uri@.skip("file://"@.len() as int) == path);
    }
    if r is Ok {
        assert(uri@ == uri@.take("file://"@.len() as int) + uri@.skip("file://"@.len() as int));
    }
}

/// A frame that came is taken, even if the time is over; without one the wait
/// goes on until then.
pub proof fn law_wait_for_frame(frame: Option<Frame>, timed_out: bool, r: FrameLook)
    requires
        call_ensures(wait_for_frame, (frame, timed_out), r),
    ensures
        frame matches Some(f) ==> r == FrameLook::Got(f),
        frame is None && timed_out ==> r is TimedOut,
        frame is None && !timed_out ==> r is Wait,
{
}

} // verus!
