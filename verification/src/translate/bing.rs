//! Microsoft's Azure Translator, also known as Bing Translator.

use crate::http;
use crate::http::{
    accept, add_pair, listed_translation, no_pairs, Body, Exchange, Failure, HttpRequest, Method,
};
use crate::json;
use crate::json::{array_of, object_of, put, text_value, Json};
use crate::providers::ProviderMode;
use crate::text;
use crate::text::same_text;
use crate::translate;
use crate::translate::{Plan, TranslateRequest, Translator};
use vstd::prelude::*;

verus! {

#[derive(Debug)]
pub struct BingTranslate {
    pub mode: ProviderMode,
    pub api_key: Option<String>,
    /// Needed where the key belongs to an Azure resource of several
    /// services.
    pub region: Option<String>,
    pub timeout_secs: u64,
}

/// The languages asked for.
pub open spec fn languages(req: translate::RequestView) -> Seq<(Seq<char>, Seq<char>)> {
    let always = seq![("api-version"@, "3.0"@), ("to"@, req.target_lang)];
    if req.source_lang != "auto"@ {
        always.push(("from"@, req.source_lang))
    } else {
        always
    }
}

/// The headers that tell who asks.
pub open spec fn credentials(key: Seq<char>, region: Option<Seq<char>>) -> Seq<
    (Seq<char>, Seq<char>),
> {
    let always = seq![("Ocp-Apim-Subscription-Key"@, key)];
    match region {
        Some(r) => always.push(("Ocp-Apim-Subscription-Region"@, r)),
        None => always,
    }
}

/// The text to translate, as it is sent.
pub open spec fn body(s: Seq<char>) -> json::JsonView {
    json::JsonView::Array(
        seq![json::JsonView::Object(seq![("Text"@, json::JsonView::Text(s))])],
    )
}

fn body_of(s: &str) -> (r: Json)
    ensures
        r@ == body(s@),
{
    let mut members: Vec<(String, Json)> = Vec::new();
    put(&mut members, "Text", text_value(s));
    assert(json::members_view(members@) =~= seq![("Text"@, json::JsonView::Text(s@))]);
    let mut items: Vec<Json> = Vec::new();
    items.push(object_of(members));
    assert(items@.map_values(|j: Json| j@) =~= body(s@)->Array_0);
    array_of(items)
}

impl BingTranslate {
    fn request(&self, req: &TranslateRequest, api_key: &str) -> (r: HttpRequest)
        ensures
            r@ == (http::HttpView {
                method: Method::Post,
                url: "https://api.cognitive.microsofttranslator.com/translate"@,
                query: languages(req@),
                headers: credentials(api_key@, text::opt_text(self.region)),
                bearer: None,
                body: http::BodyView::Json(body(req.text@)),
                timeout_secs: self.timeout_secs,
            }),
    {
        let mut query = no_pairs();
        add_pair(&mut query, "api-version", "3.0");
        add_pair(&mut query, "to", req.target_lang);
        if !same_text(req.source_lang, "auto") {
            add_pair(&mut query, "from", req.source_lang);
        }
        let mut headers = no_pairs();
        add_pair(&mut headers, "Ocp-Apim-Subscription-Key", api_key);
        if let Some(region) = &self.region {
            add_pair(&mut headers, "Ocp-Apim-Subscription-Region", region.as_str());
        }
        assert(text::pairs(query@) =~= languages(req@));
        assert(text::pairs(headers@) =~= credentials(api_key@, text::opt_text(self.region)));
        HttpRequest {
            method: Method::Post,
            url: "https://api.cognitive.microsofttranslator.com/translate".to_owned(),
            query,
            headers,
            bearer: None,
            body: Body::Json(body_of(req.text)),
            timeout_secs: self.timeout_secs,
        }
    }
}

impl Translator for BingTranslate {
    open spec fn planned(&self, req: translate::RequestView) -> translate::PlanView {
        match self.mode {
            ProviderMode::Public => translate::PlanView::Refuse(
                http::plain(
                    "Bing/Azure Translator has no reliable free public endpoint (unlike Google); set mode: private with api_key/api_key_env (and region, if needed) instead"@,
                ),
            ),
            ProviderMode::Private => match self.api_key {
                Some(key) => translate::PlanView::Send(
                    http::HttpView {
                        method: Method::Post,
                        url: "https://api.cognitive.microsofttranslator.com/translate"@,
                        query: languages(req),
                        headers: credentials(key@, text::opt_text(self.region)),
                        bearer: None,
                        body: http::BodyView::Json(body(req.text)),
                        timeout_secs: self.timeout_secs,
                    },
                ),
                None => translate::PlanView::Refuse(
                    http::plain(
                        "Bing/Azure Translator in private mode requires api_key or api_key_env (or set mode: public to use the free endpoint instead)"@,
                    ),
                ),
            },
        }
    }

    open spec fn translation(&self, x: http::ExchangeView) -> Result<
        Seq<char>,
        http::FailureView,
    > {
        match http::accepted(
            x,
            "request to Bing/Azure Translator failed"@,
            "Bing/Azure Translator"@,
        ) {
            Ok(reply) => http::listed(reply, "unexpected response shape from Bing Translator"@),
            Err(f) => Err(f),
        }
    }

    fn plan(&self, req: &TranslateRequest) -> (r: Plan) {
        match self.mode {
            ProviderMode::Public => Plan::Refuse(
                Failure::new(
                    "Bing/Azure Translator has no reliable free public endpoint (unlike Google); set mode: private with api_key/api_key_env (and region, if needed) instead",
                ),
            ),
            ProviderMode::Private => match &self.api_key {
                Some(key) => Plan::Send(self.request(req, key.as_str())),
                None => Plan::Refuse(
                    Failure::new(
                        "Bing/Azure Translator in private mode requires api_key or api_key_env (or set mode: public to use the free endpoint instead)",
                    ),
                ),
            },
        }
    }

    fn translate(&self, x: &Exchange) -> (r: Result<String, Failure>) {
        match accept(x, "request to Bing/Azure Translator failed", "Bing/Azure Translator") {
            Ok(reply) => listed_translation(
                reply,
                "unexpected response shape from Bing Translator",
            ),
            Err(f) => Err(f),
        }
    }
}

/// What is sent to the service. The source language goes along once, and
/// not at all where the service is to find it out; the target language and
/// the version go along once, and nothing else does. The text, the key and
/// the region are those given.
pub proof fn law_request(t: &BingTranslate, req: &TranslateRequest, plan: Plan)
    requires
        call_ensures(BingTranslate::plan, (t, req), plan),
    ensures
        plan is Send <==> t.mode == ProviderMode::Private && t.api_key is Some,
        plan matches Plan::Send(q) ==> {
            &&& q.method == Method::Post
            &&& q.url@ == "https://api.cognitive.microsofttranslator.com/translate"@
            &&& q.timeout_secs == t.timeout_secs
            &&& q.bearer is None
            &&& q.query@.len() == (if req.source_lang@ == "auto"@ { 2int } else { 3int })
            &&& req.source_lang@ == "auto"@ ==> forall|i: int|
                0 <= i < q.query@.len() ==> (#[trigger] q.query@[i]).0@ != "from"@
            &&& req.source_lang@ != "auto"@ ==> exists|k: int|
                0 <= k < q.query@.len() && (#[trigger] q.query@[k]).0@ == "from"@
                    && q.query@[k].1@ == req.source_lang@ && forall|i: int|
                    0 <= i < q.query@.len() && i != k ==> (#[trigger] q.query@[i]).0@ != "from"@
            &&& exists|k: int|
                0 <= k < q.query@.len() && (#[trigger] q.query@[k]).0@ == "to"@ && q.query@[k].1@
                    == req.target_lang@ && forall|i: int|
                    0 <= i < q.query@.len() && i != k ==> (#[trigger] q.query@[i]).0@ != "to"@
            &&& exists|k: int|
                0 <= k < q.query@.len() && (#[trigger] q.query@[k]).0@ == "api-version"@
                    && q.query@[k].1@ == "3.0"@
            &&& q.headers@.len() == (if t.region is Some { 2int } else { 1int })
            &&& q.headers@[0].0@ == "Ocp-Apim-Subscription-Key"@
            &&& text::opt_text(t.api_key) == Some(q.headers@[0].1@)
            &&& t.region matches Some(r) ==> q.headers@[1].0@ == "Ocp-Apim-Subscription-Region"@
                && q.headers@[1].1@ == r@
            &&& q.body@ == http::BodyView::Json(
                json::JsonView::Array(
                    seq![json::JsonView::Object(seq![("Text"@, json::JsonView::Text(req.text@))])],
                ),
            )
        },
{
    reveal_strlit("from");
    reveal_strlit("to");
    reveal_strlit("api-version");
    if let Plan::Send(q) = plan {
        assert(text::pairs(q.query@) == languages(req@));
        assert(text::pairs(q.headers@) == q@.headers);
        assert(q.query@.len() == languages(req@).len());
        assert(q.headers@.len() == q@.headers.len());
        assert forall|i: int| 0 <= i < q.query@.len() implies (
        #[trigger] q.query@[i].0@) == languages(req@)[i].0 && q.query@[i].1@ == languages(
            req@,
        )[i].1 by {
            assert(text::pairs(q.query@)[i] == (q.query@[i].0@, q.query@[i].1@));
        }
        assert forall|i: int| 0 <= i < q.headers@.len() implies (
        #[trigger] q.headers@[i].0@) == q@.headers[i].0 && q.headers@[i].1@ == q@.headers[i].1 by {
            assert(text::pairs(q.headers@)[i] == (q.headers@[i].0@, q.headers@[i].1@));
        }
        assert(q.query@[0].0@ == "api-version"@ && q.query@[0].1@ == "3.0"@);
        assert(q.query@[1].0@ == "to"@ && q.query@[1].1@ == req.target_lang@);
        if req.source_lang@ != "auto"@ {
            assert(req@.source_lang == req.source_lang@);
            assert(languages(req@)[2] == ("from"@, req.source_lang@));
            assert(q.query@[2].0@ == "from"@ && q.query@[2].1@ == req.source_lang@);
        }
        assert(q.headers@[0].0@ == "Ocp-Apim-Subscription-Key"@);
    }
}

/// What an answer means: the first text of the first list of an answer that
/// succeeded. A server's refusal is reported with its status and body, and
/// what did not get that far with its reason.
pub proof fn law_answer(t: &BingTranslate, x: &Exchange, r: Result<String, Failure>)
    requires
        call_ensures(BingTranslate::translate, (t, x), r),
    ensures
        *x matches Exchange::Answered(a) ==> {
            &&& 200 <= a.status < 300 ==> (match a.lists {
                Ok(l) => r is Ok && (if l@.len() > 0 && l@[0]@.len() > 0 {
                    r->Ok_0@ == l@[0]@[0]@
                } else {
                    r->Ok_0@.len() == 0
                }),
                Err(e) => r matches Err(f) && f@ == http::caused(
                    "unexpected response shape from Bing Translator"@,
                    e@,
                ),
            })
            &&& !(200 <= a.status < 300) ==> (r matches Err(f) && f.cause is None && f.message@
                == "Bing/Azure Translator"@ + " returned HTTP "@ + a.status_line@ + ": "@ + a.body@)
        },
        *x matches Exchange::NotSent(e) ==> (r matches Err(f) && f@ == http::caused(
            "request to Bing/Azure Translator failed"@,
            e@,
        )),
        *x matches Exchange::NoClient(e) ==> (r matches Err(f) && f@ == http::plain(e@)),
{
    if let Exchange::Answered(a) = *x {
        http::lemma_first_text(a);
    }
}

} // verus!
