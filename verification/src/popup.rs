//! The window that shows a translation.

use crate::config::{AppConfig, PopupConfig};
use vstd::prelude::*;

verus! {

/// The settings of the window that shows a translation: an entry of the
/// history that is shown again has its own.
pub fn result_window(cfg: &AppConfig, from_history: bool) -> (r: &PopupConfig)
    ensures
        r@ == (if from_history {
            cfg.history_popup@
        } else {
            cfg.popup@
        }),
{
    if from_history {
        &cfg.history_popup
    } else {
        &cfg.popup
    }
}

/// Whether the window closes by itself: after the configured time, unless
/// that is 0.
pub fn closes_by_itself(auto_close_secs: u64, open_secs: u64) -> (b: bool)
    ensures
        b == (auto_close_secs > 0 && open_secs >= auto_close_secs),
{
    auto_close_secs > 0 && open_secs >= auto_close_secs
}

/// The line that names the provider.
pub fn provider_line(provider: &str) -> (r: String)
    ensures
        r@ == "via "@ + provider@,
{
    let mut r = "via ".to_owned();
    r.append(provider);
    r
}

/// The window of an entry of the history has settings of its own.
pub proof fn law_window(cfg: &AppConfig, from_history: bool, r: &PopupConfig)
    requires
        call_ensures(result_window, (cfg, from_history), r),
    ensures
        from_history ==> r@ == cfg.history_popup@,
        !from_history ==> r@ == cfg.popup@,
{
}

/// The window closes by itself once it was open as long as configured, and
/// never if that is 0.
pub proof fn law_closing(auto_close_secs: u64, open_secs: u64, b: bool)
    requires
        call_ensures(closes_by_itself, (auto_close_secs, open_secs), b),
    ensures
        auto_close_secs == 0 ==> !b,
        auto_close_secs > 0 ==> b == (open_secs >= auto_close_secs),
{
}

/// The line below a translation names its provider.
pub proof fn law_provider_line(provider: &str, r: String)
    requires
        call_ensures(provider_line, (provider,), r),
    ensures
        r@ == "via "@ + provider@,
{
}

} // verus!
