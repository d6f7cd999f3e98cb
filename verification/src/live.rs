//! Live translation: what a window shows of a text that keeps changing.

use crate::http;
use crate::http::Failure;
use crate::text;
use crate::text::{is_blank, same_text};
use vstd::prelude::*;

verus! {

/// How far the translation of the latest text is.
#[derive(Debug)]
pub enum Status {
    Translating,
    Done { provider: String },
    Error(String),
}

#[verifier::ext_equal]
pub enum StatusView {
    Translating,
    Done { provider: Seq<char> },
    Error(Seq<char>),
}

impl View for Status {
    type V = StatusView;

    open spec fn view(&self) -> StatusView {
        match *self {
            Status::Translating => StatusView::Translating,
            Status::Done { provider } => StatusView::Done { provider: provider@ },
            Status::Error(e) => StatusView::Error(e@),
        }
    }
}

/// The line that shows the status; `idle` is shown before there is any.
pub open spec fn status_line(status: Option<StatusView>, idle: Seq<char>) -> Seq<char> {
    match status {
        None => idle,
        Some(StatusView::Translating) => "Translating..."@,
        Some(StatusView::Done { provider }) => "Up to date (via "@ + provider + ")"@,
        Some(StatusView::Error(e)) => "Error: "@ + e,
    }
}

/// What is shown, and which text it is shown for.
#[derive(Debug)]
pub struct LiveState {
    pub source: String,
    pub translated: String,
    pub status: Option<Status>,
    /// The text that was translated last, or is being translated.
    pub last_text: Option<String>,
}

#[verifier::ext_equal]
pub struct LiveView {
    pub source: Seq<char>,
    pub translated: Seq<char>,
    pub status: Option<StatusView>,
    pub last_text: Option<Seq<char>>,
}

/// What a status says, if there is one.
pub open spec fn status_view(s: Option<Status>) -> Option<StatusView> {
    match s {
        Some(x) => Some(x@),
        None => None,
    }
}

impl View for LiveState {
    type V = LiveView;

    open spec fn view(&self) -> LiveView {
        LiveView {
            source: self.source@,
            translated: self.translated@,
            status: status_view(self.status),
            last_text: text::opt_text(self.last_text),
        }
    }
}

/// Nothing is shown yet.
pub open spec fn fresh() -> LiveView {
    LiveView {
        source: Seq::<char>::empty(),
        translated: Seq::<char>::empty(),
        status: None,
        last_text: None,
    }
}

/// A new text is being translated; the translation of the one before stays
/// until then.
pub open spec fn translating(s: LiveView, t: Seq<char>) -> LiveView {
    LiveView {
        source: t,
        translated: s.translated,
        status: Some(StatusView::Translating),
        last_text: Some(t),
    }
}

/// A translation has come, or a failure; after a failure the translation
/// before it stays.
pub open spec fn stored(
    s: LiveView,
    result: Result<(Seq<char>, Seq<char>), http::FailureView>,
) -> LiveView {
    match result {
        Ok((provider, translated)) => LiveView {
            translated,
            status: Some(StatusView::Done { provider }),
            ..s
        },
        Err(f) => LiveView { status: Some(StatusView::Error(http::one_line(f))), ..s },
    }
}

/// What a translation or a failure says.
pub open spec fn outcome_view(r: Result<(String, String), Failure>) -> Result<
    (Seq<char>, Seq<char>),
    http::FailureView,
> {
    match r {
        Ok(p) => Ok((p.0@, p.1@)),
        Err(f) => Err(f@),
    }
}

impl LiveState {
    /// Nothing is shown yet.
    pub fn new() -> (r: Self)
        ensures
            r@ == fresh(),
    {
        let r = LiveState {
            source: String::new(),
            translated: String::new(),
            status: None,
            last_text: None,
        };
        assert(r@ =~= fresh());
        r
    }

    /// The line that shows the status.
    pub fn label(&self, idle: &str) -> (r: String)
        ensures
            r@ == status_line(self@.status, idle@),
    {
        match &self.status {
            None => idle.to_owned(),
            Some(Status::Translating) => "Translating...".to_owned(),
            Some(Status::Done { provider }) => {
                let mut r = "Up to date (via ".to_owned();
                r.append(provider.as_str());
                r.append(")");
                r
            },
            Some(Status::Error(e)) => {
                let mut r = "Error: ".to_owned();
                r.append(e.as_str());
                r
            },
        }
    }

    /// Takes note of a text. Tells whether it is to be translated: it is
    /// unless it is the same as the last one.
    fn note(&mut self, t: &str) -> (changed: bool)
        ensures
            changed == (old(self)@.last_text != Some(t@)),
            final(self)@ == (if changed {
                translating(old(self)@, t@)
            } else {
                old(self)@
            }),
    {
        let same = match &self.last_text {
            Some(last) => same_text(last.as_str(), t),
            None => false,
        };
        if same {
            return false;
        }
        self.last_text = Some(t.to_owned());
        self.source = t.to_owned();
        self.status = Some(Status::Translating);
        true
    }

    /// Takes note of the text on the clipboard. Tells whether it is to be
    /// translated: it is unless it is blank or the same as the last one.
    pub fn see_clipboard(&mut self, t: &str) -> (translate: bool)
        ensures
            translate == (text::trimmed(t@).len() > 0 && old(self)@.last_text != Some(t@)),
            final(self)@ == (if translate {
                translating(old(self)@, t@)
            } else {
                old(self)@
            }),
    {
        if is_blank(t) {
            return false;
        }
        self.note(t)
    }

    /// Takes note of the text that was recognized in a region. Tells whether
    /// it is to be translated: it is unless it is empty or the same as the
    /// last one.
    pub fn see_recognized(&mut self, t: &str) -> (translate: bool)
        ensures
            translate == (t@.len() > 0 && old(self)@.last_text != Some(t@)),
            final(self)@ == (if translate {
                translating(old(self)@, t@)
            } else {
                old(self)@
            }),
    {
        if t.is_empty() {
            return false;
        }
        self.note(t)
    }

    /// Takes note that something failed before a translation.
    pub fn fail(&mut self, what: &str, f: &Failure)
        ensures
            final(self)@ == (LiveView {
                status: Some(StatusView::Error(what@ + ": "@ + http::one_line(f@))),
                ..old(self)@
            }),
    {
        let mut m = what.to_owned();
        m.append(": ");
        let line = f.one_line();
        m.append(line.as_str());
        self.status = Some(Status::Error(m));
    }

    /// Takes note of a translation.
    pub fn store(&mut self, result: &Result<(String, String), Failure>)
        ensures
            final(self)@ == stored(old(self)@, outcome_view(*result)),
    {
        match result {
            Ok(p) => {
                self.translated = p.1.clone();
                self.status = Some(Status::Done { provider: p.0.clone() });
            },
            Err(f) => {
                self.status = Some(Status::Error(f.one_line()));
            },
        }
    }
}

/// The time between two looks, which is never shorter than `least`.
pub fn poll_interval(wanted_ms: u64, least_ms: u64) -> (r: u64)
    ensures
        r == (if wanted_ms < least_ms {
            least_ms
        } else {
            wanted_ms
        }),
{
    if wanted_ms < least_ms {
        least_ms
    } else {
        wanted_ms
    }
}

/// What is shown after a text was seen and its translation came.
pub open spec fn after_translation(
    s: LiveView,
    t: Seq<char>,
    result: Result<(Seq<char>, Seq<char>), http::FailureView>,
) -> LiveView {
    stored(translating(s, t), result)
}

/// Once a text was translated, seeing it again asks for nothing, whether the
/// translation succeeded or failed; seeing any other text does.
pub proof fn law_same_text_is_not_translated_twice(
    s: LiveView,
    t: Seq<char>,
    result: Result<(Seq<char>, Seq<char>), http::FailureView>,
    u: Seq<char>,
)
    ensures
        after_translation(s, t, result).last_text != Some(u) <==> t != u,
        after_translation(s, t, result).source == t,
{
}

/// A failure never takes a translation away that is shown.
pub proof fn law_failure_keeps_translation(s: LiveView, f: http::FailureView)
    ensures
        stored(s, Err(f)).translated == s.translated,
        stored(s, Err(f)).source == s.source,
{
}

// ---------------------------------------------------------------------
// What is shown after each call
// ---------------------------------------------------------------------

/// Before anything was seen, nothing is shown.
pub proof fn law_nothing_is_shown_at_first(s: LiveState)
    requires
        call_ensures(LiveState::new, (), s),
    ensures
        s.source@.len() == 0,
        s.translated@.len() == 0,
        s.status is None,
        s.last_text is None,
{
    assert(s@ == fresh());
}

/// A translation that came is shown whatever was shown before, as done by
/// its provider; a failure is shown in one line and takes nothing away.
/// Neither changes which text is shown.
pub proof fn law_stored_translation_is_shown(
    s: &mut LiveState,
    result: &Result<(String, String), Failure>,
)
    requires
        call_ensures(LiveState::store, (s, result), ()),
    ensures
        *result matches Ok(pair) ==> {
            &&& final(s).translated@ == pair.1@
            &&& final(s).status matches Some(Status::Done { provider }) && provider@ == pair.0@
        },
        *result matches Err(f) ==> {
            &&& final(s).translated@ == old(s).translated@
            &&& final(s).status matches Some(Status::Error(e)) && e@ == (match f.cause {
                Some(c) => f.message@ + ": "@ + c@,
                None => f.message@,
            })
        },
        final(s).source@ == old(s).source@,
        text::opt_text(final(s).last_text) == text::opt_text(old(s).last_text),
{
    assert(final(s)@ == stored(old(s)@, outcome_view(*result)));
    assert(final(s)@.translated == final(s).translated@);
    assert(status_view(final(s).status) == final(s)@.status);
}

/// The same of what is modelled: whatever was shown, a translation that
/// came takes its place.
pub proof fn law_translation_replaces_what_was_shown(
    s: LiveView,
    provider: Seq<char>,
    translated: Seq<char>,
)
    ensures
        stored(s, Ok((provider, translated))).translated == translated,
        stored(s, Ok((provider, translated))).status == Some(StatusView::Done { provider }),
        stored(s, Ok((provider, translated))).source == s.source,
        stored(s, Ok((provider, translated))).last_text == s.last_text,
{
}

/// A text on the clipboard that is not all white space and not the one seen
/// last is shown and translated; any other changes nothing. The translation
/// before it stays until its own comes.
pub proof fn law_new_clipboard_text_is_translated(s: &mut LiveState, t: &str, translate: bool)
    requires
        call_ensures(LiveState::see_clipboard, (s, t), translate),
    ensures
        translate <==> (exists|i: int| 0 <= i < t@.len() && !text::is_white(#[trigger] t@[i]))
            && text::opt_text(old(s).last_text) != Some(t@),
        translate ==> {
            &&& final(s).source@ == t@
            &&& text::opt_text(final(s).last_text) == Some(t@)
            &&& final(s).status == Some(Status::Translating)
            &&& final(s).translated@ == old(s).translated@
        },
        !translate ==> final(s)@ == old(s)@,
{
    crate::text_laws::lemma_blank(t@);
    assert(status_view(final(s).status) == final(s)@.status);
}

/// A text recognized in a region that is not empty and not the one seen last
/// is shown and translated; any other changes nothing.
pub proof fn law_new_recognized_text_is_translated(s: &mut LiveState, t: &str, translate: bool)
    requires
        call_ensures(LiveState::see_recognized, (s, t), translate),
    ensures
        translate <==> t@.len() > 0 && text::opt_text(old(s).last_text) != Some(t@),
        translate ==> {
            &&& final(s).source@ == t@
            &&& text::opt_text(final(s).last_text) == Some(t@)
            &&& final(s).status == Some(Status::Translating)
            &&& final(s).translated@ == old(s).translated@
        },
        !translate ==> final(s)@ == old(s)@,
{
    assert(status_view(final(s).status) == final(s)@.status);
}

/// A failure before a translation is shown behind what failed, and changes
/// nothing else.
pub proof fn law_failure_is_shown(s: &mut LiveState, what: &str, f: &Failure)
    requires
        call_ensures(LiveState::fail, (s, what, f), ()),
    ensures
        final(s).status matches Some(Status::Error(e)) && e@ == what@ + ": "@ + (match f.cause {
            Some(c) => f.message@ + ": "@ + c@,
            None => f.message@,
        }),
        final(s).source@ == old(s).source@,
        final(s).translated@ == old(s).translated@,
        text::opt_text(final(s).last_text) == text::opt_text(old(s).last_text),
{
    assert(status_view(final(s).status) == final(s)@.status);
}

/// The line that shows the status names the provider or the failure.
pub proof fn law_status_line(s: &LiveState, idle: &str, r: String)
    requires
        call_ensures(LiveState::label, (s, idle), r),
    ensures
        s.status is None ==> r@ == idle@,
        s.status matches Some(Status::Translating) ==> r@ == "Translating..."@,
        s.status matches Some(Status::Done { provider }) ==> r@ == "Up to date (via "@ + provider@
            + ")"@,
        s.status matches Some(Status::Error(e)) ==> r@ == "Error: "@ + e@,
{
}

/// The time between two looks is the one wanted, unless that is too short.
pub proof fn law_poll_interval(wanted_ms: u64, least_ms: u64, r: u64)
    requires
        call_ensures(poll_interval, (wanted_ms, least_ms), r),
    ensures
        wanted_ms >= least_ms ==> r == wanted_ms,
        wanted_ms < least_ms ==> r == least_ms,
{
}

} // verus!
