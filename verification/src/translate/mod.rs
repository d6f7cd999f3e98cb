//! Translation: what is asked of each service, and what its answer means.

pub mod bing;
pub mod deepl;
pub mod fallback;
pub mod google;
pub mod openai_compat;
pub mod session;

use crate::config::AppConfig;
use crate::http;
use crate::http::{Exchange, Failure, HttpRequest};
use crate::providers;
use crate::providers::{ProviderConfig, ProviderKind};
use crate::text;
use crate::text::{clone_opt, replace};
use bing::BingTranslate;
use deepl::DeepLTranslate;
use google::GoogleTranslate;
use openai_compat::OpenAiCompatible;
use vstd::prelude::*;

verus! {

/// A text to translate. The source language `auto` leaves it to the service
/// to find out.
#[derive(Debug)]
pub struct TranslateRequest<'a> {
    pub text: &'a str,
    pub source_lang: &'a str,
    pub target_lang: &'a str,
}

#[verifier::ext_equal]
pub struct RequestView {
    pub text: Seq<char>,
    pub source_lang: Seq<char>,
    pub target_lang: Seq<char>,
}

impl<'a> View for TranslateRequest<'a> {
    type V = RequestView;

    open spec fn view(&self) -> RequestView {
        RequestView {
            text: self.text@,
            source_lang: self.source_lang@,
            target_lang: self.target_lang@,
        }
    }
}

/// What a service is asked first.
#[derive(Debug)]
pub enum Plan {
    /// Nothing: the settings do not allow it.
    Refuse(Failure),
    Send(HttpRequest),
    /// The request goes through the session that is kept for the provider of
    /// this name.
    UseSession(String),
}

#[verifier::ext_equal]
pub enum PlanView {
    Refuse(http::FailureView),
    Send(http::HttpView),
    UseSession(Seq<char>),
}

impl View for Plan {
    type V = PlanView;

    open spec fn view(&self) -> PlanView {
        match *self {
            Plan::Refuse(f) => PlanView::Refuse(f@),
            Plan::Send(r) => PlanView::Send(r@),
            Plan::UseSession(s) => PlanView::UseSession(s@),
        }
    }
}

/// A translation service with its settings.
pub trait Translator {
    /// What the service is asked.
    spec fn planned(&self, req: RequestView) -> PlanView;

    /// What the service's answer means.
    spec fn translation(&self, x: http::ExchangeView) -> Result<Seq<char>, http::FailureView>;

    /// What to ask the service.
    fn plan(&self, req: &TranslateRequest) -> (r: Plan)
        ensures
            r@ == self.planned(req@),
    ;

    /// What the service's answer means: the translation, or why there is
    /// none.
    fn translate(&self, x: &Exchange) -> (r: Result<String, Failure>)
        ensures
            http::said(r) == self.translation(x@),
    ;
}

/// Any of the translation services.
#[derive(Debug)]
pub enum Provider {
    OpenAiCompatible(OpenAiCompatible),
    GoogleTranslate(GoogleTranslate),
    BingTranslate(BingTranslate),
    DeepLTranslate(DeepLTranslate),
}

impl Translator for Provider {
    open spec fn planned(&self, req: RequestView) -> PlanView {
        match *self {
            Provider::OpenAiCompatible(t) => t.planned(req),
            Provider::GoogleTranslate(t) => t.planned(req),
            Provider::BingTranslate(t) => t.planned(req),
            Provider::DeepLTranslate(t) => t.planned(req),
        }
    }

    open spec fn translation(&self, x: http::ExchangeView) -> Result<
        Seq<char>,
        http::FailureView,
    > {
        match *self {
            Provider::OpenAiCompatible(t) => t.translation(x),
            Provider::GoogleTranslate(t) => t.translation(x),
            Provider::BingTranslate(t) => t.translation(x),
            Provider::DeepLTranslate(t) => t.translation(x),
        }
    }

    fn plan(&self, req: &TranslateRequest) -> (r: Plan) {
        match self {
            Provider::OpenAiCompatible(t) => t.plan(req),
            Provider::GoogleTranslate(t) => t.plan(req),
            Provider::BingTranslate(t) => t.plan(req),
            Provider::DeepLTranslate(t) => t.plan(req),
        }
    }

    fn translate(&self, x: &Exchange) -> (r: Result<String, Failure>) {
        match self {
            Provider::OpenAiCompatible(t) => t.translate(x),
            Provider::GoogleTranslate(t) => t.translate(x),
            Provider::BingTranslate(t) => t.translate(x),
            Provider::DeepLTranslate(t) => t.translate(x),
        }
    }
}

// ---------------------------------------------------------------------
// Setting a service up
// ---------------------------------------------------------------------

/// Whether a service is set up as a provider's settings have it. `key` is
/// the key in force.
pub open spec fn set_up(
    t: Provider,
    name: Seq<char>,
    p: providers::ProviderView,
    prompt: crate::config::PromptView,
    key: Option<Seq<char>>,
) -> bool {
    match t {
        Provider::OpenAiCompatible(t) => {
            &&& p.kind == ProviderKind::OpenAiCompatible
            &&& Some(t.base_url@) == p.base_url
            &&& text::opt_text(t.api_key) == key
            &&& t.model@ == (match p.model {
                Some(m) => m,
                None => "gpt-4o-mini"@,
            })
            &&& t.system_prompt@ == prompt.system
            &&& t.user_prompt_template@ == prompt.template
            &&& t.timeout_secs == p.timeout_secs
        },
        Provider::GoogleTranslate(t) => {
            &&& p.kind == ProviderKind::GoogleTranslate
            &&& t.mode == p.mode
            &&& text::opt_text(t.api_key) == key
            &&& t.timeout_secs == p.timeout_secs
        },
        Provider::BingTranslate(t) => {
            &&& p.kind == ProviderKind::BingTranslate
            &&& t.mode == p.mode
            &&& text::opt_text(t.api_key) == key
            &&& text::opt_text(t.region) == p.region
            &&& t.timeout_secs == p.timeout_secs
        },
        Provider::DeepLTranslate(t) => {
            &&& p.kind == ProviderKind::DeepLTranslate
            &&& t.name@ == name
            &&& t.mode == p.mode
            &&& text::opt_text(t.api_key) == key
            &&& t.timeout_secs == p.timeout_secs
        },
    }
}

/// What an environment variable's value says.
pub open spec fn env_text(value: Option<&str>) -> Option<Seq<char>> {
    match value {
        Some(s) => Some(s@),
        None => None,
    }
}

/// The service that a provider's settings describe. Only a server with an
/// OpenAI style endpoint needs an address. `env_value` is what the
/// environment holds under the name `api_key_env`.
pub fn build_for(
    name: &str,
    provider: &ProviderConfig,
    cfg: &AppConfig,
    env_value: Option<&str>,
) -> (r: Result<Provider, Failure>)
    ensures
        (match r {
            Ok(t) => set_up(
                t,
                name@,
                provider@,
                cfg.prompt@,
                providers::key_in_force(provider@, env_text(env_value)),
            ),
            Err(f) => {
                &&& provider.kind == ProviderKind::OpenAiCompatible
                &&& provider.base_url is None
                &&& f@ == http::plain("provider is missing base_url"@)
            },
        }),
{
    let api_key = provider.resolve_api_key(env_value);
    match provider.kind {
        ProviderKind::OpenAiCompatible => match &provider.base_url {
            Some(base_url) => Ok(
                Provider::OpenAiCompatible(
                    OpenAiCompatible {
                        base_url: base_url.clone(),
                        api_key,
                        model: match &provider.model {
                            Some(m) => m.clone(),
                            None => "gpt-4o-mini".to_owned(),
                        },
                        system_prompt: cfg.prompt.system.clone(),
                        user_prompt_template: cfg.prompt.template.clone(),
                        timeout_secs: provider.timeout_secs,
                    },
                ),
            ),
            None => Err(Failure::new("provider is missing base_url")),
        },
        ProviderKind::GoogleTranslate => Ok(
            Provider::GoogleTranslate(
                GoogleTranslate {
                    mode: provider.mode,
                    api_key,
                    timeout_secs: provider.timeout_secs,
                },
            ),
        ),
        ProviderKind::BingTranslate => Ok(
            Provider::BingTranslate(
                BingTranslate {
                    mode: provider.mode,
                    api_key,
                    region: clone_opt(&provider.region),
                    timeout_secs: provider.timeout_secs,
                },
            ),
        ),
        ProviderKind::DeepLTranslate => Ok(
            Provider::DeepLTranslate(
                DeepLTranslate {
                    name: name.to_owned(),
                    mode: provider.mode,
                    api_key,
                    timeout_secs: provider.timeout_secs,
                },
            ),
        ),
    }
}

/// What is reported of a provider that is not configured.
pub open spec fn not_found(name: Seq<char>) -> Seq<char> {
    "provider '"@ + name + "' not found in config"@
}

/// Whether a service, or a failure to set one up, is what the configuration
/// gives for a provider's name.
pub open spec fn built(
    r: Result<Provider, Failure>,
    name: Seq<char>,
    cfg: crate::config::AppConfigView,
    env_value: Option<Seq<char>>,
) -> bool {
    match r {
        Ok(t) => {
            &&& cfg.providers.contains_key(name)
            &&& set_up(
                t,
                name,
                cfg.providers[name],
                cfg.prompt,
                providers::key_in_force(cfg.providers[name], env_value),
            )
        },
        Err(f) => if cfg.providers.contains_key(name) {
            &&& cfg.providers[name].kind == ProviderKind::OpenAiCompatible
            &&& cfg.providers[name].base_url is None
            &&& f@ == http::plain("provider is missing base_url"@)
        } else {
            f@ == http::plain(not_found(name))
        },
    }
}

/// The service of the provider with that name.
pub fn build_named(name: &str, cfg: &AppConfig, env_value: Option<&str>) -> (r: Result<
    Provider,
    Failure,
>)
    requires
        cfg.wf(),
    ensures
        built(r, name@, cfg@, env_text(env_value)),
{
    match cfg.providers.get(name) {
        Some(provider) => build_for(name, provider, cfg, env_value),
        None => {
            let mut m = "provider '".to_owned();
            m.append(name);
            m.append("' not found in config");
            Err(Failure::new(m.as_str()))
        },
    }
}

/// The service of the active provider.
pub fn build(cfg: &AppConfig, env_value: Option<&str>) -> (r: Result<Provider, Failure>)
    requires
        cfg.wf(),
    ensures
        built(r, cfg@.active_provider, cfg@, env_text(env_value)),
{
    build_named(cfg.active_provider.as_str(), cfg, env_value)
}

/// A dedicated translation service is never sent the prompt: what it is asked
/// does not depend on it.
pub proof fn law_prompt_goes_to_language_models_only(
    t: Provider,
    u: Provider,
    name: Seq<char>,
    p: providers::ProviderView,
    prompt: crate::config::PromptView,
    other_prompt: crate::config::PromptView,
    key: Option<Seq<char>>,
    req: RequestView,
)
    requires
        p.kind != ProviderKind::OpenAiCompatible,
        set_up(t, name, p, prompt, key),
        set_up(u, name, p, other_prompt, key),
    ensures
        t.planned(req) == u.planned(req),
{
    match t {
        Provider::BingTranslate(b) => {
            match u {
                Provider::BingTranslate(c) => {
                    assert(text::opt_text(b.region) == text::opt_text(c.region));
                },
                _ => {},
            }
        },
        _ => {},
    }
    assert(t.planned(req) =~= u.planned(req));
}

/// The official interfaces are not asked without a key, and Bing's web page
/// is not asked at all.
pub proof fn law_unusable_settings_send_nothing(
    t: Provider,
    name: Seq<char>,
    p: providers::ProviderView,
    prompt: crate::config::PromptView,
    key: Option<Seq<char>>,
    req: RequestView,
)
    requires
        p.kind != ProviderKind::OpenAiCompatible,
        set_up(t, name, p, prompt, key),
        (p.mode == providers::ProviderMode::Private && key is None) || (p.kind
            == ProviderKind::BingTranslate && p.mode == providers::ProviderMode::Public),
    ensures
        t.planned(req) is Refuse,
{
}

// ---------------------------------------------------------------------
// Prompts
// ---------------------------------------------------------------------

/// A prompt with its placeholders filled: first the languages, then the
/// text, so that a placeholder in the text stays as it is.
pub open spec fn prompt_for(template: Seq<char>, req: RequestView) -> Seq<char> {
    text::replaced(
        text::replaced(
            text::replaced(template, "{source_lang}"@, req.source_lang),
            "{target_lang}"@,
            req.target_lang,
        ),
        "{text}"@,
        req.text,
    )
}

/// Fills a prompt's placeholders.
pub fn render_prompt(template: &str, req: &TranslateRequest) -> (r: String)
    ensures
        r@ == prompt_for(template@, req@),
{
    proof {
        reveal_strlit("{source_lang}");
        reveal_strlit("{target_lang}");
        reveal_strlit("{text}");
    }
    let with_source = replace(template, "{source_lang}", req.source_lang);
    let with_target = replace(with_source.as_str(), "{target_lang}", req.target_lang);
    replace(with_target.as_str(), "{text}", req.text)
}

impl<'a> TranslateRequest<'a> {
    /// The same request once more.
    pub fn reborrow(&self) -> (r: TranslateRequest<'_>)
        ensures
            r@ == self@,
    {
        TranslateRequest {
            text: self.text,
            source_lang: self.source_lang,
            target_lang: self.target_lang,
        }
    }
}

// ---------------------------------------------------------------------
// What services are made of
// ---------------------------------------------------------------------

/// A service is set up with exactly what the settings say: the kind decides
/// which service it is, the key is the one in force, and only a language
/// model gets the prompt and the model's name.
pub proof fn law_service_is_set_up(
    name: &str,
    provider: &ProviderConfig,
    cfg: &AppConfig,
    env_value: Option<&str>,
    key: Option<String>,
    r: Result<Provider, Failure>,
)
    requires
        call_ensures(build_for, (name, provider, cfg, env_value), r),
        call_ensures(ProviderConfig::resolve_api_key, (provider, env_value), key),
    ensures
        provider.kind == ProviderKind::OpenAiCompatible ==> (match provider.base_url {
            Some(url) => r matches Ok(Provider::OpenAiCompatible(t)) && {
                &&& t.base_url@ == url@
                &&& text::opt_text(t.api_key) == text::opt_text(key)
                &&& provider.model matches Some(m) ==> t.model@ == m@
                &&& provider.model is None ==> t.model@ == "gpt-4o-mini"@
                &&& t.system_prompt@ == cfg.prompt.system@
                &&& t.user_prompt_template@ == cfg.prompt.template@
                &&& t.timeout_secs == provider.timeout_secs
            },
            None => r matches Err(f) && f.cause is None && f.message@
                == "provider is missing base_url"@,
        }),
        provider.kind == ProviderKind::GoogleTranslate ==> (r matches Ok(
            Provider::GoogleTranslate(t),
        ) && {
            &&& t.mode == provider.mode
            &&& text::opt_text(t.api_key) == text::opt_text(key)
            &&& t.timeout_secs == provider.timeout_secs
        }),
        provider.kind == ProviderKind::BingTranslate ==> (r matches Ok(Provider::BingTranslate(t))
            && {
            &&& t.mode == provider.mode
            &&& text::opt_text(t.api_key) == text::opt_text(key)
            &&& text::opt_text(t.region) == text::opt_text(provider.region)
            &&& t.timeout_secs == provider.timeout_secs
        }),
        provider.kind == ProviderKind::DeepLTranslate ==> (r matches Ok(Provider::DeepLTranslate(t))
            && {
            &&& t.name@ == name@
            &&& t.mode == provider.mode
            &&& text::opt_text(t.api_key) == text::opt_text(key)
            &&& t.timeout_secs == provider.timeout_secs
        }),
{
}

/// The service of a name is the one that the settings of that name give; a
/// name without settings is reported. The service of a configuration is that
/// of its active provider.
pub proof fn law_service_is_found_by_name(
    name: &str,
    cfg: &AppConfig,
    env_value: Option<&str>,
    r: Result<Provider, Failure>,
    active: Result<Provider, Failure>,
    i: int,
    req: RequestView,
    x: http::ExchangeView,
    q: Result<Provider, Failure>,
)
    requires
        cfg.wf(),
        call_ensures(build_named, (name, cfg, env_value), r),
        call_ensures(build, (cfg, env_value), active),
        0 <= i < cfg.providers.entries@.len(),
        call_ensures(build_for, (name, &cfg.providers.entries@[i].config, cfg, env_value), q),
    ensures
        cfg.providers.entries@[i].name@ == name@ ==> (match q {
            Ok(t) => r matches Ok(u) && u.planned(req) == t.planned(req) && u.translation(x)
                == t.translation(x),
            Err(f) => r matches Err(g) && g@ == f@,
        }),
        (forall|k: int|
            0 <= k < cfg.providers.entries@.len() ==> (
            #[trigger] cfg.providers.entries@[k]).name@ != name@) ==> (r matches Err(f)
            && f.cause is None && f.message@ == "provider '"@ + name@ + "' not found in config"@),
        cfg.active_provider@ == name@ ==> (match r {
            Ok(t) => active matches Ok(u) && u.planned(req) == t.planned(req) && u.translation(x)
                == t.translation(x),
            Err(f) => active matches Err(g) && g@ == f@,
        }),
{
    let entries = cfg.providers.entries@;
    providers::lemma_table_names(entries);
    assert(cfg@.providers == cfg.providers@);
    if entries[i].name@ == name@ {
        providers::lemma_table_entry(entries, i);
        let key = providers::key_in_force(entries[i].config@, env_text(env_value));
        if let Ok(t) = q {
            if let Ok(u) = r {
                lemma_same_settings(t, u, name@, entries[i].config@, cfg.prompt@, key, req, x);
            }
        }
    }
    if cfg.active_provider@ == name@ {
        if let Ok(t) = r {
            if let Ok(u) = active {
                let p = cfg@.providers[name@];
                let key = providers::key_in_force(p, env_text(env_value));
                lemma_same_settings(t, u, name@, p, cfg.prompt@, key, req, x);
            }
        }
    }
}

/// Services with the same settings ask the same and read the same.
proof fn lemma_same_settings(
    t: Provider,
    u: Provider,
    name: Seq<char>,
    p: providers::ProviderView,
    prompt: crate::config::PromptView,
    key: Option<Seq<char>>,
    req: RequestView,
    x: http::ExchangeView,
)
    requires
        set_up(t, name, p, prompt, key),
        set_up(u, name, p, prompt, key),
    ensures
        t.planned(req) == u.planned(req),
        t.translation(x) == u.translation(x),
{
    match t {
        Provider::BingTranslate(b) => {
            match u {
                Provider::BingTranslate(c) => {
                    assert(text::opt_text(b.region) == text::opt_text(c.region));
                },
                _ => {},
            }
        },
        _ => {},
    }
    assert(t.planned(req) =~= u.planned(req));
}

/// A service of any kind asks and reads as that kind does.
pub proof fn law_provider_acts_as_its_kind(
    t: &Provider,
    req: &TranslateRequest,
    plan: Plan,
    x: &Exchange,
    r: Result<String, Failure>,
)
    requires
        call_ensures(Provider::plan, (t, req), plan),
        call_ensures(Provider::translate, (t, x), r),
    ensures
        *t matches Provider::OpenAiCompatible(s) ==> plan@ == s.planned(req@) && http::said(r)
            == s.translation(x@),
        *t matches Provider::GoogleTranslate(s) ==> plan@ == s.planned(req@) && http::said(r)
            == s.translation(x@),
        *t matches Provider::BingTranslate(s) ==> plan@ == s.planned(req@) && http::said(r)
            == s.translation(x@),
        *t matches Provider::DeepLTranslate(s) ==> plan@ == s.planned(req@) && http::said(r)
            == s.translation(x@),
{
}

/// The placeholders are filled one kind after the other: the source
/// language, the target language, and last the text.
pub proof fn law_prompt_is_filled_in_order(
    template: &str,
    req: &TranslateRequest,
    r: String,
    source_mark: &str,
    target_mark: &str,
    text_mark: &str,
    with_source: String,
    second: &str,
    with_target: String,
    third: &str,
    with_text: String,
)
    requires
        call_ensures(render_prompt, (template, req), r),
        source_mark@ == "{source_lang}"@,
        target_mark@ == "{target_lang}"@,
        text_mark@ == "{text}"@,
        call_ensures(crate::text::replace, (template, source_mark, req.source_lang), with_source),
        second@ == with_source@,
        call_ensures(crate::text::replace, (second, target_mark, req.target_lang), with_target),
        third@ == with_target@,
        call_ensures(crate::text::replace, (third, text_mark, req.text), with_text),
    ensures
        r@ == with_text@,
{
}

/// Where a template marks the place of the text once, the text stands there
/// as it is, whatever it holds, and the rest of the template around it.
pub proof fn law_prompt_holds_the_text(
    template: &str,
    req: &TranslateRequest,
    r: String,
    front: Seq<char>,
    back: Seq<char>,
)
    requires
        call_ensures(render_prompt, (template, req), r),
        template@ == front + "{text}"@ + back,
        crate::text_laws::occurs_first_after(front, "{text}"@),
        !text::has_part(back, "{text}"@),
        !text::has_part(template@, "{source_lang}"@),
        !text::has_part(template@, "{target_lang}"@),
    ensures
        r@ == front + req.text@ + back,
{
    reveal_strlit("{text}");
    crate::text_laws::law_replace_absent(template@, "{source_lang}"@, req.source_lang@);
    crate::text_laws::law_replace_absent(template@, "{target_lang}"@, req.target_lang@);
    crate::text_laws::lemma_replace_first(front, "{text}"@, back, req.text@);
    crate::text_laws::law_replace_absent(back, "{text}"@, req.text@);
}

/// A request that is handed on once more asks the same.
pub proof fn law_reborrow(req: &TranslateRequest, r: TranslateRequest)
    requires
        call_ensures(TranslateRequest::reborrow, (req,), r),
    ensures
        r.text@ == req.text@,
        r.source_lang@ == req.source_lang@,
        r.target_lang@ == req.target_lang@,
{
}

} // verus!
