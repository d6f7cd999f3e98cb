//! Google Translate.

use crate::http;
use crate::http::{
    accept, add_pair, listed_translation, no_pairs, Body, Exchange, Failure, HttpRequest, Method,
};
use crate::json;
use crate::json::{element, read_json};
use crate::providers::ProviderMode;
use crate::text;
use crate::text::same_text;
use crate::translate;
use crate::translate::{Plan, TranslateRequest, Translator};
use vstd::prelude::*;

verus! {

#[derive(Debug)]
pub struct GoogleTranslate {
    pub mode: ProviderMode,
    pub api_key: Option<String>,
    pub timeout_secs: u64,
}

// ---------------------------------------------------------------------
// The endpoint of the web page
// ---------------------------------------------------------------------

/// What the endpoint of the web page is asked.
pub open spec fn public_query(req: translate::RequestView) -> Seq<(Seq<char>, Seq<char>)> {
    seq![
        ("client"@, "gtx"@),
        ("sl"@, req.source_lang),
        ("tl"@, req.target_lang),
        ("dt"@, "t"@),
        ("q"@, req.text),
    ]
}

/// The segments of a reply: the first element of the array that it is.
pub open spec fn segments(d: json::Document) -> Option<Seq<json::Document>> {
    match d {
        json::Document::Array(items) => if items.len() > 0 {
            match items[0] {
                json::Document::Array(s) => Some(s),
                _ => None,
            }
        } else {
            None
        },
        _ => None,
    }
}

/// The translation in a segment: its first element, where that is a text.
pub open spec fn segment_text(d: json::Document) -> Seq<char> {
    match d {
        json::Document::Array(items) => if items.len() > 0 {
            match items[0] {
                json::Document::Text(s) => s,
                _ => Seq::<char>::empty(),
            }
        } else {
            Seq::<char>::empty()
        },
        _ => Seq::<char>::empty(),
    }
}

/// The translations in the segments, one after the other.
pub open spec fn segments_text(s: Seq<json::Document>) -> Seq<char>
    decreases s.len(),
{
    if s.len() == 0 {
        Seq::<char>::empty()
    } else {
        segments_text(s.drop_last()) + segment_text(s.last())
    }
}

/// The translation in a reply that was read.
pub open spec fn public_text(d: json::Document) -> Result<Seq<char>, http::FailureView> {
    match segments(d) {
        Some(s) => Ok(segments_text(s)),
        None => Err(
            http::plain("unexpected response shape from the public Google Translate endpoint"@),
        ),
    }
}

/// The translation in a reply.
pub open spec fn public_reply(
    reading: Result<json::Document, Seq<char>>,
) -> Result<Seq<char>, http::FailureView> {
    match reading {
        Ok(d) => public_text(d),
        Err(e) => Err(
            http::caused("unexpected response from the public Google Translate endpoint"@, e),
        ),
    }
}

/// The translation in a reply that was read: the first texts of the segments,
/// one after the other.
pub fn translation_in(value: &serde_json::Value) -> (r: Result<String, Failure>)
    ensures
        http::said(r) == public_text(json::document(*value)),
{
    let list: Option<&Vec<serde_json::Value>> = match element(value, 0) {
        Some(first) => first.as_array(),
        None => None,
    };
    match list {
        None => Err(
            Failure::new(
                "unexpected response shape from the public Google Translate endpoint",
            ),
        ),
        Some(list) => {
            let mut out = String::new();
            let mut i: usize = 0;
            let ghost docs = json::documents(list@);
            assert(docs.take(0) =~= Seq::<json::Document>::empty());
            assert(out@ =~= Seq::<char>::empty());
            while i < list.len()
                invariant
                    i <= list@.len(),
                    docs == json::documents(list@),
                    out@ == segments_text(docs.take(i as int)),
                decreases list@.len() - i,
            {
                proof {
                    assert(docs.take(i + 1).drop_last() =~= docs.take(i as int));
                    assert(docs.take(i + 1).last() == json::document(list@[i as int]));
                    assert(out@ + Seq::<char>::empty() =~= out@);
                }
                if let Some(first) = element(&list[i], 0) {
                    if let Some(s) = first.as_str() {
                        out.append(s);
                    }
                }
                i += 1;
            }
            assert(docs.take(docs.len() as int) =~= docs);
            Ok(out)
        },
    }
}

/// The translation in a reply of the endpoint of the web page, a nested JSON
/// array like `[[["translated", "original"], ..], ..]`.
pub fn parse_public_response(body: &str) -> (r: Result<String, Failure>)
    ensures
        http::said(r) == public_reply(json::json_reading(body@)),
{
    match read_json(body) {
        Ok(value) => translation_in(&value),
        Err(e) => Err(
            Failure::because(
                "unexpected response from the public Google Translate endpoint",
                e.as_str(),
            ),
        ),
    }
}

// ---------------------------------------------------------------------
// The official interface
// ---------------------------------------------------------------------

/// What the official interface is asked.
pub open spec fn private_form(req: translate::RequestView) -> Seq<(Seq<char>, Seq<char>)> {
    let always = seq![("q"@, req.text), ("target"@, req.target_lang), ("format"@, "text"@)];
    if req.source_lang != "auto"@ {
        always.push(("source"@, req.source_lang))
    } else {
        always
    }
}

impl GoogleTranslate {
    fn public_request(&self, req: &TranslateRequest) -> (r: HttpRequest)
        ensures
            r@ == (http::HttpView {
                method: Method::Get,
                url: "https://translate.googleapis.com/translate_a/single"@,
                query: public_query(req@),
                headers: Seq::<(Seq<char>, Seq<char>)>::empty(),
                bearer: None,
                body: http::BodyView::Empty,
                timeout_secs: self.timeout_secs,
            }),
    {
        let mut query = no_pairs();
        add_pair(&mut query, "client", "gtx");
        add_pair(&mut query, "sl", req.source_lang);
        add_pair(&mut query, "tl", req.target_lang);
        add_pair(&mut query, "dt", "t");
        add_pair(&mut query, "q", req.text);
        assert(text::pairs(query@) =~= public_query(req@));
        HttpRequest {
            method: Method::Get,
            url: "https://translate.googleapis.com/translate_a/single".to_owned(),
            query,
            headers: no_pairs(),
            bearer: None,
            body: Body::Empty,
            timeout_secs: self.timeout_secs,
        }
    }

    fn private_request(&self, req: &TranslateRequest, api_key: &str) -> (r: HttpRequest)
        ensures
            r@ == (http::HttpView {
                method: Method::Post,
                url: "https://translation.googleapis.com/language/translate/v2"@,
                query: seq![("key"@, api_key@)],
                headers: Seq::<(Seq<char>, Seq<char>)>::empty(),
                bearer: None,
                body: http::BodyView::Form(private_form(req@)),
                timeout_secs: self.timeout_secs,
            }),
    {
        let mut query = no_pairs();
        add_pair(&mut query, "key", api_key);
        let mut form = no_pairs();
        add_pair(&mut form, "q", req.text);
        add_pair(&mut form, "target", req.target_lang);
        add_pair(&mut form, "format", "text");
        if !same_text(req.source_lang, "auto") {
            add_pair(&mut form, "source", req.source_lang);
        }
        assert(text::pairs(query@) =~= seq![("key"@, api_key@)]);
        assert(text::pairs(form@) =~= private_form(req@));
        HttpRequest {
            method: Method::Post,
            url: "https://translation.googleapis.com/language/translate/v2".to_owned(),
            query,
            headers: no_pairs(),
            bearer: None,
            body: Body::Form(form),
            timeout_secs: self.timeout_secs,
        }
    }
}

impl Translator for GoogleTranslate {
    open spec fn planned(&self, req: translate::RequestView) -> translate::PlanView {
        match self.mode {
            ProviderMode::Public => translate::PlanView::Send(
                http::HttpView {
                    method: Method::Get,
                    url: "https://translate.googleapis.com/translate_a/single"@,
                    query: public_query(req),
                    headers: Seq::<(Seq<char>, Seq<char>)>::empty(),
                    bearer: None,
                    body: http::BodyView::Empty,
                    timeout_secs: self.timeout_secs,
                },
            ),
            ProviderMode::Private => match self.api_key {
                Some(key) => translate::PlanView::Send(
                    http::HttpView {
                        method: Method::Post,
                        url: "https://translation.googleapis.com/language/translate/v2"@,
                        query: seq![("key"@, key@)],
                        headers: Seq::<(Seq<char>, Seq<char>)>::empty(),
                        bearer: None,
                        body: http::BodyView::Form(private_form(req)),
                        timeout_secs: self.timeout_secs,
                    },
                ),
                None => translate::PlanView::Refuse(
                    http::plain(
                        "Google Translate in private mode requires api_key or api_key_env (or set mode: public to use the free endpoint instead)"@,
                    ),
                ),
            },
        }
    }

    open spec fn translation(&self, x: http::ExchangeView) -> Result<
        Seq<char>,
        http::FailureView,
    > {
        match self.mode {
            ProviderMode::Public => match http::accepted(
                x,
                "request to the public Google Translate endpoint failed"@,
                "public Google Translate endpoint"@,
            ) {
                Ok(reply) => public_reply(json::json_reading(reply.body)),
                Err(f) => Err(f),
            },
            ProviderMode::Private => match http::accepted(
                x,
                "request to Google Translate failed"@,
                "Google Translate"@,
            ) {
                Ok(reply) => http::listed(
                    reply,
                    "unexpected response shape from Google Translate"@,
                ),
                Err(f) => Err(f),
            },
        }
    }

    fn plan(&self, req: &TranslateRequest) -> (r: Plan) {
        match self.mode {
            ProviderMode::Public => Plan::Send(self.public_request(req)),
            ProviderMode::Private => match &self.api_key {
                Some(key) => Plan::Send(self.private_request(req, key.as_str())),
                None => Plan::Refuse(
                    Failure::new(
                        "Google Translate in private mode requires api_key or api_key_env (or set mode: public to use the free endpoint instead)",
                    ),
                ),
            },
        }
    }

    fn translate(&self, x: &Exchange) -> (r: Result<String, Failure>) {
        match self.mode {
            ProviderMode::Public => match accept(
                x,
                "request to the public Google Translate endpoint failed",
                "public Google Translate endpoint",
            ) {
                Ok(reply) => parse_public_response(reply.body.as_str()),
                Err(f) => Err(f),
            },
            ProviderMode::Private => match accept(
                x,
                "request to Google Translate failed",
                "Google Translate",
            ) {
                Ok(reply) => listed_translation(
                    reply,
                    "unexpected response shape from Google Translate",
                ),
                Err(f) => Err(f),
            },
        }
    }
}

/// What is sent. The web page's endpoint is asked with the languages and the
/// text, without a key. The official interface is asked with the key, the
/// text and the target language; the source language goes along once, and not
/// at all where the service is to find it out.
pub proof fn law_request(t: &GoogleTranslate, req: &TranslateRequest, plan: Plan)
    requires
        call_ensures(GoogleTranslate::plan, (t, req), plan),
    ensures
        plan is Send <==> t.mode == ProviderMode::Public || t.api_key is Some,
        plan matches Plan::Send(q) ==> {
            &&& q.timeout_secs == t.timeout_secs
            &&& q.bearer is None
            &&& q.headers@.len() == 0
            &&& t.mode == ProviderMode::Public ==> {
                &&& q.method == Method::Get
                &&& q.url@ == "https://translate.googleapis.com/translate_a/single"@
                &&& text::pairs(q.query@) == seq![
                    ("client"@, "gtx"@),
                    ("sl"@, req.source_lang@),
                    ("tl"@, req.target_lang@),
                    ("dt"@, "t"@),
                    ("q"@, req.text@),
                ]
                &&& q.body is Empty
            }
            &&& t.mode == ProviderMode::Private ==> {
                &&& q.method == Method::Post
                &&& q.url@ == "https://translation.googleapis.com/language/translate/v2"@
                &&& q.query@.len() == 1
                &&& q.query@[0].0@ == "key"@
                &&& text::opt_text(t.api_key) == Some(q.query@[0].1@)
                &&& q.body matches Body::Form(form) && (if req.source_lang@ == "auto"@ {
                    text::pairs(form@) == seq![
                        ("q"@, req.text@),
                        ("target"@, req.target_lang@),
                        ("format"@, "text"@),
                    ]
                } else {
                    text::pairs(form@) == seq![
                        ("q"@, req.text@),
                        ("target"@, req.target_lang@),
                        ("format"@, "text"@),
                        ("source"@, req.source_lang@),
                    ]
                })
            }
        },
{
    if let Plan::Send(q) = plan {
        assert(text::pairs(q.headers@).len() == q.headers@.len());
        assert(text::pairs(q.query@).len() == q.query@.len());
        if t.mode == ProviderMode::Private {
            assert(text::pairs(q.query@)[0] == (q.query@[0].0@, q.query@[0].1@));
            assert(q.body@ == http::BodyView::Form(private_form(req@)));
            assert(req@.source_lang == req.source_lang@);
            if req.source_lang@ != "auto"@ {
                assert(private_form(req@) =~= seq![
                    ("q"@, req.text@),
                    ("target"@, req.target_lang@),
                    ("format"@, "text"@),
                    ("source"@, req.source_lang@),
                ]);
            }
        }
    }
}

proof fn lemma_segments_flatten(s: Seq<json::Document>)
    ensures
        segments_text(s) == s.map_values(|d: json::Document| segment_text(d)).flatten_alt(),
    decreases s.len(),
{
    let f = |d: json::Document| segment_text(d);
    if s.len() > 0 {
        lemma_segments_flatten(s.drop_last());
        assert(s.map_values(f).drop_last() == s.drop_last().map_values(f));
        assert(s.map_values(f).last() == segment_text(s.last()));
    } else {
        assert(s.map_values(f).flatten_alt() == Seq::<char>::empty());
    }
}

/// The translation in a reply is made of the first texts of all its
/// segments, one after the other, in their order; a segment without one adds
/// nothing. A reply whose first element is not a list is reported.
pub proof fn law_segments_are_put_together(value: &serde_json::Value, r: Result<String, Failure>)
    requires
        call_ensures(translation_in, (value,), r),
    ensures
        json::document(*value) matches json::Document::Array(items) ==> (items.len() > 0 ==> (
        items[0] matches json::Document::Array(segments) ==> (r matches Ok(s) && s@ == Seq::new(
            segments.len(),
            |i: int|
                match segments[i] {
                    json::Document::Array(parts) => if parts.len() > 0 && parts[0] is Text {
                        parts[0]->Text_0
                    } else {
                        Seq::<char>::empty()
                    },
                    _ => Seq::<char>::empty(),
                },
        ).flatten()))),
        !(json::document(*value) is Array) || json::document(*value)->Array_0.len() == 0 || !(
        json::document(*value)->Array_0[0] is Array) ==> (r matches Err(f) && f.cause is None
            && f.message@
            == "unexpected response shape from the public Google Translate endpoint"@),
{
    if let json::Document::Array(items) = json::document(*value) {
        if items.len() > 0 && items[0] is Array {
            let list = items[0]->Array_0;
            let texts = list.map_values(|d: json::Document| segment_text(d));
            let wanted = Seq::new(
                list.len(),
                |i: int|
                    match list[i] {
                        json::Document::Array(parts) => if parts.len() > 0 && parts[0] is Text {
                            parts[0]->Text_0
                        } else {
                            Seq::<char>::empty()
                        },
                        _ => Seq::<char>::empty(),
                    },
            );
            lemma_segments_flatten(list);
            assert(texts =~= wanted);
            texts.lemma_flatten_and_flatten_alt_are_equivalent();
        }
    }
}

/// A reply's body is read as JSON, and the translation taken from what was
/// read; what the reader complains of is reported.
pub proof fn law_body_is_read_as_json(
    body: &str,
    r: Result<String, Failure>,
    value: &serde_json::Value,
    q: Result<String, Failure>,
)
    requires
        call_ensures(parse_public_response, (body,), r),
        call_ensures(translation_in, (value,), q),
    ensures
        json::json_reading(body@) == Ok::<json::Document, Seq<char>>(json::document(*value))
            ==> http::said(r) == http::said(q),
        json::json_reading(body@) matches Err(e) ==> (r matches Err(f) && f.message@
            == "unexpected response from the public Google Translate endpoint"@ && text::opt_text(
            f.cause,
        ) == Some(e)),
{
}

/// What an answer means: of the web page's endpoint the translation in the
/// body, of the official interface the first text of the first list. A
/// refusal is reported with its status and body, and what did not get that
/// far with its reason.
pub proof fn law_answer(
    t: &GoogleTranslate,
    x: &Exchange,
    r: Result<String, Failure>,
    body: &str,
    parsed: Result<String, Failure>,
)
    requires
        call_ensures(GoogleTranslate::translate, (t, x), r),
        call_ensures(parse_public_response, (body,), parsed),
    ensures
        *x matches Exchange::Answered(a) ==> {
            &&& 200 <= a.status < 300 && t.mode == ProviderMode::Public && body@ == a.body@
                ==> http::said(r) == http::said(parsed)
            &&& 200 <= a.status < 300 && t.mode == ProviderMode::Private ==> (match a.lists {
                Ok(l) => r is Ok && (if l@.len() > 0 && l@[0]@.len() > 0 {
                    r->Ok_0@ == l@[0]@[0]@
                } else {
                    r->Ok_0@.len() == 0
                }),
                Err(e) => r matches Err(f) && f@ == http::caused(
                    "unexpected response shape from Google Translate"@,
                    e@,
                ),
            })
            &&& !(200 <= a.status < 300) ==> (r matches Err(f) && f.cause is None && f.message@ == (
            if t.mode == ProviderMode::Public {
                "public Google Translate endpoint"@
            } else {
                "Google Translate"@
            }) + " returned HTTP "@ + a.status_line@ + ": "@ + a.body@)
        },
        *x matches Exchange::NotSent(e) ==> (r matches Err(f) && text::opt_text(f.cause) == Some(
            e@,
        )),
        *x matches Exchange::NoClient(e) ==> (r matches Err(f) && f@ == http::plain(e@)),
{
    if let Exchange::Answered(a) = *x {
        http::lemma_first_text(a);
    }
}

} // verus!
