//! A capture from the selected region to the translation.

use crate::config;
use crate::config::AppConfig;
use crate::history;
use crate::history::HistoryEntry;
use crate::http;
use crate::http::Failure;
use crate::live;
use crate::number;
use crate::number::render_usize;
use crate::text::is_blank;
use crate::text;
use vstd::prelude::*;

verus! {

/// What the history keeps of a translation.
pub open spec fn entry_for(
    cfg: config::AppConfigView,
    original: Seq<char>,
    provider: Seq<char>,
    translated: Seq<char>,
    timestamp: Seq<char>,
) -> history::HistoryView {
    history::HistoryView {
        timestamp,
        provider,
        source_lang: cfg.general.source_lang,
        target_lang: cfg.general.target_lang,
        original,
        translated,
    }
}

/// What the history keeps of a translation, if it keeps any.
pub fn entry_to_record(
    cfg: &AppConfig,
    original: &str,
    provider: &str,
    translated: &str,
    timestamp: &str,
) -> (r: Option<HistoryEntry>)
    ensures
        (match r {
            Some(e) => cfg.history.enabled && e@ == entry_for(
                cfg@,
                original@,
                provider@,
                translated@,
                timestamp@,
            ),
            None => !cfg.history.enabled,
        }),
{
    if !cfg.history.enabled {
        return None;
    }
    Some(
        HistoryEntry {
            timestamp: timestamp.to_owned(),
            provider: provider.to_owned(),
            source_lang: cfg.general.source_lang.clone(),
            target_lang: cfg.general.target_lang.clone(),
            original: original.to_owned(),
            translated: translated.to_owned(),
        },
    )
}

// ---------------------------------------------------------------------
// The steps of a capture
// ---------------------------------------------------------------------

/// A translation to be shown.
#[derive(Debug)]
pub struct Outcome {
    pub original: String,
    pub provider: String,
    pub translated: String,
}

#[verifier::ext_equal]
pub struct OutcomeView {
    pub original: Seq<char>,
    pub provider: Seq<char>,
    pub translated: Seq<char>,
}

impl View for Outcome {
    type V = OutcomeView;

    open spec fn view(&self) -> OutcomeView {
        OutcomeView {
            original: self.original@,
            provider: self.provider@,
            translated: self.translated@,
        }
    }
}

/// What is done next.
#[derive(Debug)]
pub enum Step {
    /// Get the region from the screen.
    Acquire,
    /// Recognize the text in it.
    Recognize,
    Translate { original: String },
    /// Add the entry to the history, and go on.
    Record { entry: HistoryEntry, outcome: Outcome },
    Show { outcome: Outcome },
    /// Nothing more: the user does not want to go on.
    Cancelled,
    /// Nothing more: the failure is reported.
    Failed(Failure),
}

#[verifier::ext_equal]
pub enum StepView {
    Acquire,
    Recognize,
    Translate { original: Seq<char> },
    Record { entry: history::HistoryView, outcome: OutcomeView },
    Show { outcome: OutcomeView },
    Cancelled,
    Failed(http::FailureView),
}

impl View for Step {
    type V = StepView;

    open spec fn view(&self) -> StepView {
        match *self {
            Step::Acquire => StepView::Acquire,
            Step::Recognize => StepView::Recognize,
            Step::Translate { original } => StepView::Translate { original: original@ },
            Step::Record { entry, outcome } => StepView::Record {
                entry: entry@,
                outcome: outcome@,
            },
            Step::Show { outcome } => StepView::Show { outcome: outcome@ },
            Step::Cancelled => StepView::Cancelled,
            Step::Failed(f) => StepView::Failed(f@),
        }
    }
}

/// What is done once the locks were asked for.
pub open spec fn step_after_locks(entered: Result<bool, http::FailureView>) -> StepView {
    match entered {
        Ok(true) => StepView::Acquire,
        Ok(false) => StepView::Cancelled,
        Err(f) => StepView::Failed(f),
    }
}

/// What is done once the region was asked for.
pub open spec fn step_after_acquire(got: Result<bool, http::FailureView>) -> StepView {
    match got {
        Ok(true) => StepView::Recognize,
        Ok(false) => StepView::Cancelled,
        Err(f) => StepView::Failed(f),
    }
}

/// What is done once the text was recognized: blank text is a failure.
pub open spec fn step_after_ocr(read: Result<Seq<char>, http::FailureView>) -> StepView {
    match read {
        Ok(t) => if text::trimmed(t).len() > 0 {
            StepView::Translate { original: t }
        } else {
            StepView::Failed(http::plain("no text detected in the selected region"@))
        },
        Err(f) => StepView::Failed(f),
    }
}

/// What is done once the text was translated, at the given time.
pub open spec fn step_after_translation(
    cfg: config::AppConfigView,
    original: Seq<char>,
    result: Result<(Seq<char>, Seq<char>), http::FailureView>,
    timestamp: Seq<char>,
) -> StepView {
    match result {
        Ok((provider, translated)) => {
            let outcome = OutcomeView { original, provider, translated };
            if cfg.history.enabled {
                StepView::Record {
                    entry: entry_for(cfg, original, provider, translated, timestamp),
                    outcome,
                }
            } else {
                StepView::Show { outcome }
            }
        },
        Err(f) => StepView::Failed(f),
    }
}

/// What a yes, a no or a failure says.
pub open spec fn answer(r: Result<bool, Failure>) -> Result<bool, http::FailureView> {
    match r {
        Ok(b) => Ok(b),
        Err(f) => Err(f@),
    }
}

/// What is done once the locks were asked for; they are refused if the user
/// leaves another session alone.
pub fn after_locks(entered: Result<bool, Failure>) -> (r: Step)
    ensures
        r@ == step_after_locks(answer(entered)),
{
    match entered {
        Ok(true) => Step::Acquire,
        Ok(false) => Step::Cancelled,
        Err(f) => Step::Failed(f),
    }
}

/// What is done once the region was asked for; the user may pick none.
pub fn after_acquire(got: Result<bool, Failure>) -> (r: Step)
    ensures
        r@ == step_after_acquire(answer(got)),
{
    match got {
        Ok(true) => Step::Recognize,
        Ok(false) => Step::Cancelled,
        Err(f) => Step::Failed(f),
    }
}

/// What is done once the text was recognized.
pub fn after_ocr(read: Result<String, Failure>) -> (r: Step)
    ensures
        r@ == step_after_ocr(http::said(read)),
{
    match read {
        Ok(t) => {
            if is_blank(t.as_str()) {
                Step::Failed(Failure::new("no text detected in the selected region"))
            } else {
                Step::Translate { original: t }
            }
        },
        Err(f) => Step::Failed(f),
    }
}

/// What is done once the text was translated.
pub fn after_translation(
    cfg: &AppConfig,
    original: String,
    result: Result<(String, String), Failure>,
    timestamp: &str,
) -> (r: Step)
    ensures
        r@ == step_after_translation(
            cfg@,
            original@,
            live::outcome_view(result),
            timestamp@,
        ),
{
    match result {
        Ok((provider, translated)) => {
            let recorded = entry_to_record(
                cfg,
                original.as_str(),
                provider.as_str(),
                translated.as_str(),
                timestamp,
            );
            let outcome = Outcome { original, provider, translated };
            match recorded {
                Some(entry) => Step::Record { entry, outcome },
                None => Step::Show { outcome },
            }
        },
        Err(f) => Step::Failed(f),
    }
}

/// What is done once the entry was added. That this may have failed makes no
/// difference.
pub fn after_record(outcome: Outcome) -> (r: Step)
    ensures
        r@ == (StepView::Show { outcome: outcome@ }),
{
    Step::Show { outcome }
}

/// Only a translation that succeeded is recorded, and only if the history is
/// enabled; what is recorded is what is shown.
pub proof fn law_only_translations_are_recorded(
    cfg: config::AppConfigView,
    original: Seq<char>,
    result: Result<(Seq<char>, Seq<char>), http::FailureView>,
    timestamp: Seq<char>,
)
    ensures
        step_after_translation(cfg, original, result, timestamp) is Record <==> result is Ok
            && cfg.history.enabled,
        step_after_translation(cfg, original, result, timestamp) matches StepView::Record {
            entry,
            outcome,
        } ==> entry.original == outcome.original && entry.translated == outcome.translated
            && entry.provider == outcome.provider,
{
}

/// Text that is sent to be translated is never blank.
pub proof fn law_blank_text_is_not_translated(read: Result<Seq<char>, http::FailureView>)
    ensures
        step_after_ocr(read) matches StepView::Translate { original } ==> text::trimmed(
            original,
        ).len() > 0,
{
}

// ---------------------------------------------------------------------
// Other commands
// ---------------------------------------------------------------------

/// The entry of the history to show, the newest being 0.
pub fn show_history(entries: &Vec<HistoryEntry>, index: usize) -> (r: Result<HistoryEntry, Failure>)
    ensures
        (match r {
            Ok(e) => history::entry_at(history::entries_of(entries@), index as nat) == Some(e@),
            Err(f) => {
                &&& history::entry_at(history::entries_of(entries@), index as nat) is None
                &&& f@ == http::plain(
                    "no history entry at index "@ + number::decimal(index as nat),
                )
            },
        }),
{
    match history::get(entries, index) {
        Some(e) => Ok(e),
        None => {
            let mut m = "no history entry at index ".to_owned();
            let digits = render_usize(index);
            m.append(digits.as_str());
            Err(Failure::new(m.as_str()))
        },
    }
}

/// The provider to test: the one that was named, else the active one.
pub fn provider_to_test(cfg: &AppConfig, named: Option<&str>) -> (r: String)
    ensures
        r@ == (match named {
            Some(n) => n@,
            None => cfg.active_provider@,
        }),
{
    match named {
        Some(n) => n.to_owned(),
        None => cfg.active_provider.clone(),
    }
}

/// What a capture records is the entry that is shown as the newest.
pub proof fn law_captured_entry_is_shown_first(
    old_entries: Seq<history::HistoryView>,
    cfg: config::AppConfigView,
    original: Seq<char>,
    provider: Seq<char>,
    translated: Seq<char>,
    timestamp: Seq<char>,
    max: nat,
)
    requires
        max > 0,
    ensures
        ({
            let e = entry_for(cfg, original, provider, translated, timestamp);
            history::entry_at(history::appended(old_entries, e, max), 0) == Some(e)
        }),
{
    history::law_append_then_get(
        old_entries,
        entry_for(cfg, original, provider, translated, timestamp),
        max,
    );
}

// ---------------------------------------------------------------------
// What each step hands on
// ---------------------------------------------------------------------

/// Recognized text that is not all white space is translated as it is,
/// character for character; text that is all white space is reported as
/// missing, and a failure is reported as it is.
pub proof fn law_whole_text_is_translated(read: Result<String, Failure>, step: Step)
    requires
        call_ensures(after_ocr, (read,), step),
    ensures
        read matches Ok(t) ==> {
            &&& (exists|i: int| 0 <= i < t@.len() && !text::is_white(#[trigger] t@[i])) ==> (
            step matches Step::Translate { original } && original@ == t@)
            &&& (forall|i: int| 0 <= i < t@.len() ==> text::is_white(#[trigger] t@[i])) ==> (
            step matches Step::Failed(f) && f.cause is None && f.message@
                == "no text detected in the selected region"@)
        },
        read matches Err(e) ==> (step matches Step::Failed(f) && f@ == e@),
{
    if let Ok(t) = read {
        crate::text_laws::lemma_blank(t@);
        assert(http::said(read) == Ok::<Seq<char>, http::FailureView>(t@));
    }
}

/// A capture goes on where the locks were got, stops where they were
/// refused, and reports a failure as it is.
pub proof fn law_locks_decide(entered: Result<bool, Failure>, step: Step)
    requires
        call_ensures(after_locks, (entered,), step),
    ensures
        entered matches Ok(b) ==> (if b { step is Acquire } else { step is Cancelled }),
        entered matches Err(e) ==> (step matches Step::Failed(f) && f@ == e@),
{
}

/// A capture goes on where a region was got, stops where none was picked,
/// and reports a failure as it is.
pub proof fn law_region_decides(got: Result<bool, Failure>, step: Step)
    requires
        call_ensures(after_acquire, (got,), step),
    ensures
        got matches Ok(b) ==> (if b { step is Recognize } else { step is Cancelled }),
        got matches Err(e) ==> (step matches Step::Failed(f) && f@ == e@),
{
}

/// The same of what is modelled: whatever text is not blank is handed on as
/// it is.
pub proof fn law_text_is_handed_on(t: Seq<char>)
    ensures
        (exists|i: int| 0 <= i < t.len() && !text::is_white(#[trigger] t[i])) ==> step_after_ocr(
            Ok(t),
        ) == (StepView::Translate { original: t }),
{
    crate::text_laws::lemma_blank(t);
}

/// A translation is shown with the text it is of and the provider it came
/// from. Where the history is enabled, the entry says the same, with the time
/// and the configured languages. A failure is reported as it is.
pub proof fn law_translation_is_shown_and_recorded(
    cfg: &AppConfig,
    original: String,
    result: Result<(String, String), Failure>,
    timestamp: &str,
    step: Step,
)
    requires
        call_ensures(after_translation, (cfg, original, result, timestamp), step),
    ensures
        result matches Ok(pair) ==> {
            &&& cfg.history.enabled ==> (step matches Step::Record { entry, outcome } && {
                &&& outcome.original@ == original@
                &&& outcome.provider@ == pair.0@
                &&& outcome.translated@ == pair.1@
                &&& entry.original@ == original@
                &&& entry.provider@ == pair.0@
                &&& entry.translated@ == pair.1@
                &&& entry.timestamp@ == timestamp@
                &&& entry.source_lang@ == cfg.general.source_lang@
                &&& entry.target_lang@ == cfg.general.target_lang@
            })
            &&& !cfg.history.enabled ==> (step matches Step::Show { outcome } && {
                &&& outcome.original@ == original@
                &&& outcome.provider@ == pair.0@
                &&& outcome.translated@ == pair.1@
            })
        },
        result matches Err(e) ==> (step matches Step::Failed(f) && f@ == e@),
{
}

/// What was recorded is shown.
pub proof fn law_recorded_outcome_is_shown(outcome: Outcome, step: Step)
    requires
        call_ensures(after_record, (outcome,), step),
    ensures
        step matches Step::Show { outcome: shown } && shown.original@ == outcome.original@
            && shown.provider@ == outcome.provider@ && shown.translated@ == outcome.translated@,
{
}

/// An entry is recorded if and only if the history is enabled, and says what
/// it was made of.
pub proof fn law_entry_says_what_was_translated(
    cfg: &AppConfig,
    original: &str,
    provider: &str,
    translated: &str,
    timestamp: &str,
    r: Option<HistoryEntry>,
)
    requires
        call_ensures(entry_to_record, (cfg, original, provider, translated, timestamp), r),
    ensures
        r is Some <==> cfg.history.enabled,
        r matches Some(e) ==> {
            &&& e.original@ == original@
            &&& e.provider@ == provider@
            &&& e.translated@ == translated@
            &&& e.timestamp@ == timestamp@
            &&& e.source_lang@ == cfg.general.source_lang@
            &&& e.target_lang@ == cfg.general.target_lang@
        },
{
}

/// The entry that is shown is counted from the newest, which stands last; an
/// index past the oldest is reported.
pub proof fn law_shown_entry_is_counted_from_the_newest(
    entries: &Vec<HistoryEntry>,
    index: usize,
    r: Result<HistoryEntry, Failure>,
)
    requires
        call_ensures(show_history, (entries, index), r),
    ensures
        r is Ok <==> index < entries@.len(),
        r matches Ok(e) ==> e@ == entries@[entries@.len() - 1 - index]@,
        r matches Err(f) ==> f.cause is None && f.message@ == "no history entry at index "@
            + number::decimal(index as nat),
{
}

/// The provider that was named is tested, and the active one where none was.
pub proof fn law_named_provider_is_tested(cfg: &AppConfig, named: Option<&str>, r: String)
    requires
        call_ensures(provider_to_test, (cfg, named), r),
    ensures
        named matches Some(n) ==> r@ == n@,
        named is None ==> r@ == cfg.active_provider@,
{
}

} // verus!
