//! Which providers are tried, and when to stop.

use crate::config::AppConfig;
use crate::http;
use crate::http::Failure;
use vstd::prelude::*;

verus! {

/// The providers to try: the active one, then its fallbacks in their order.
pub open spec fn names_to_try(cfg: crate::config::AppConfigView) -> Seq<Seq<char>> {
    seq![cfg.active_provider] + cfg.fallback_providers
}

/// What follows the attempts made so far.
#[derive(Debug)]
pub enum Next {
    /// The provider of this name is tried.
    Try(String),
    /// It is over: the provider that translated with its translation, or a
    /// failure.
    Over(Result<(String, String), Failure>),
}

#[verifier::ext_equal]
pub enum NextView {
    Try(Seq<char>),
    Over(Result<(Seq<char>, Seq<char>), http::FailureView>),
}

impl View for Next {
    type V = NextView;

    open spec fn view(&self) -> NextView {
        match *self {
            Next::Try(name) => NextView::Try(name@),
            Next::Over(Ok(p)) => NextView::Over(Ok((p.0@, p.1@))),
            Next::Over(Err(f)) => NextView::Over(Err(f@)),
        }
    }
}

/// What the outcomes of attempts say.
pub open spec fn outcomes_view(outcomes: Seq<Result<String, Failure>>) -> Seq<
    Result<Seq<char>, http::FailureView>,
> {
    outcomes.map_values(|r: Result<String, Failure>| http::said(r))
}

/// What follows the attempts made so far, the first `from` of which failed:
/// the first translation counts; a failure counts only once every provider
/// has failed.
pub open spec fn tried(
    names: Seq<Seq<char>>,
    outcomes: Seq<Result<Seq<char>, http::FailureView>>,
    from: int,
) -> NextView
    decreases outcomes.len() - from,
{
    if from < outcomes.len() {
        match outcomes[from] {
            Ok(t) => NextView::Over(Ok((names[from], t))),
            Err(_) => tried(names, outcomes, from + 1),
        }
    } else if from < names.len() {
        NextView::Try(names[from])
    } else {
        NextView::Over(Err(outcomes[from - 1]->Err_0))
    }
}

/// What follows the attempts made so far: the next provider to try, the
/// first translation that was got, or the last failure.
pub fn translate_with_fallback(cfg: &AppConfig, outcomes: &Vec<Result<String, Failure>>) -> (r:
    Next)
    requires
        outcomes@.len() <= names_to_try(cfg@).len(),
    ensures
        r@ == tried(names_to_try(cfg@), outcomes_view(outcomes@), 0),
{
    let ghost names = names_to_try(cfg@);
    let ghost all = outcomes_view(outcomes@);
    let mut i: usize = 0;
    while i < outcomes.len()
        invariant
            i <= outcomes@.len() <= names.len(),
            names == names_to_try(cfg@),
            all == outcomes_view(outcomes@),
            tried(names, all, 0) == tried(names, all, i as int),
            i > 0 ==> outcomes@[i - 1] is Err,
        decreases outcomes@.len() - i,
    {
        assert(all[i as int] == http::said(outcomes@[i as int]));
        if let Ok(t) = &outcomes[i] {
            let name: String = if i == 0 {
                cfg.active_provider.clone()
            } else {
                cfg.fallback_providers[i - 1].clone()
            };
            return Next::Over(Ok((name, t.clone())));
        }
        i += 1;
    }
    if i == 0 {
        return Next::Try(cfg.active_provider.clone());
    }
    if i - 1 < cfg.fallback_providers.len() {
        return Next::Try(cfg.fallback_providers[i - 1].clone());
    }
    assert(all[i - 1] == http::said(outcomes@[i - 1]));
    match &outcomes[i - 1] {
        Err(f) => Next::Over(Err(f.clone())),
        Ok(t) => Next::Over(Ok((cfg.active_provider.clone(), t.clone()))),
    }
}

/// The translation of the first provider that translates counts.
pub proof fn law_first_success_wins(
    names: Seq<Seq<char>>,
    outcomes: Seq<Result<Seq<char>, http::FailureView>>,
    from: int,
    k: int,
)
    requires
        outcomes.len() <= names.len(),
        0 <= from <= k < outcomes.len(),
        outcomes[k] is Ok,
        forall|i: int| from <= i < k ==> outcomes[i] is Err,
    ensures
        tried(names, outcomes, from) == NextView::Over(Ok((names[k], outcomes[k]->Ok_0))),
    decreases k - from,
{
    if from < k {
        law_first_success_wins(names, outcomes, from + 1, k);
    }
}

/// While all have failed and a provider is left, the next one is tried; once
/// none is left, the last failure is reported.
pub proof fn law_failures_move_on(
    names: Seq<Seq<char>>,
    outcomes: Seq<Result<Seq<char>, http::FailureView>>,
    from: int,
)
    requires
        0 <= from <= outcomes.len() <= names.len(),
        forall|i: int| 0 <= i < outcomes.len() ==> outcomes[i] is Err,
    ensures
        outcomes.len() < names.len() ==> tried(names, outcomes, from) == NextView::Try(
            names[outcomes.len() as int],
        ),
        outcomes.len() == names.len() ==> tried(names, outcomes, from) == NextView::Over(
            Err(outcomes.last()->Err_0),
        ),
    decreases outcomes.len() - from,
{
    if from < outcomes.len() {
        law_failures_move_on(names, outcomes, from + 1);
    }
}

/// There is always a provider to try, and the active one is the first.
pub proof fn law_active_provider_is_tried_first(cfg: crate::config::AppConfigView)
    ensures
        tried(
            names_to_try(cfg),
            Seq::<Result<Seq<char>, http::FailureView>>::empty(),
            0,
        ) == NextView::Try(cfg.active_provider),
{
}

/// The providers are tried in their order, the active one first and then the
/// fallbacks as they are listed: the first translation counts, with the name
/// of its provider; as long as all have failed the next one is tried; and when
/// none is left the last failure is reported.
pub proof fn law_providers_are_tried_in_order(
    cfg: &AppConfig,
    outcomes: &Vec<Result<String, Failure>>,
    r: Next,
    k: int,
)
    requires
        call_ensures(translate_with_fallback, (cfg, outcomes), r),
        outcomes@.len() <= 1 + cfg.fallback_providers@.len(),
    ensures
        0 <= k < outcomes@.len() && outcomes@[k] is Ok && (forall|i: int|
            0 <= i < k ==> (#[trigger] outcomes@[i]) is Err) ==> (r matches Next::Over(Ok(p))
            && p.1@ == outcomes@[k]->Ok_0@ && p.0@ == (if k == 0 {
            cfg.active_provider@
        } else {
            cfg.fallback_providers@[k - 1]@
        })),
        (forall|i: int| 0 <= i < outcomes@.len() ==> (#[trigger] outcomes@[i]) is Err) ==> {
            let n = outcomes@.len() as int;
            &&& n == 0 ==> (r matches Next::Try(name) && name@ == cfg.active_provider@)
            &&& 0 < n <= cfg.fallback_providers@.len() ==> (r matches Next::Try(name) && name@
                == cfg.fallback_providers@[n - 1]@)
            &&& n == 1 + cfg.fallback_providers@.len() ==> (r matches Next::Over(Err(f)) && f@
                == outcomes@[n - 1]->Err_0@)
        },
{
    let names = names_to_try(cfg@);
    let all = outcomes_view(outcomes@);
    assert forall|i: int| 0 <= i < outcomes@.len() implies all[i] == http::said(
        #[trigger] outcomes@[i],
    ) by {}
    assert(names.len() == 1 + cfg.fallback_providers@.len());
    assert forall|i: int| 0 < i < names.len() implies #[trigger] names[i]
        == cfg.fallback_providers@[i - 1]@ by {}
    if 0 <= k < outcomes@.len() && outcomes@[k] is Ok && (forall|i: int|
        0 <= i < k ==> (#[trigger] outcomes@[i]) is Err) {
        assert forall|i: int| 0 <= i < k implies all[i] is Err by {
            assert(outcomes@[i] is Err);
        }
        law_first_success_wins(names, all, 0, k);
    }
    if forall|i: int| 0 <= i < outcomes@.len() ==> (#[trigger] outcomes@[i]) is Err {
        assert forall|i: int| 0 <= i < all.len() implies all[i] is Err by {
            assert(outcomes@[i] is Err);
        }
        law_failures_move_on(names, all, 0);
        if all.len() > 0 {
            assert(all.last() == http::said(outcomes@[outcomes@.len() - 1]));
        }
    }
}

} // verus!
