//! DeepL.

use crate::http;
use crate::http::{
    accept, add_pair, listed_translation, no_pairs, refusal_text, Body, Exchange, Failure,
    HttpRequest, Method, Reply,
};
use crate::json;
use crate::json::{array_of, object_of, put, read_json, text_value, Json};
use crate::letter_case;
use crate::letter_case::to_uppercase;
use crate::providers::ProviderMode;
use crate::text;
use crate::text::{chars_of, ends_with, same_text};
use crate::translate;
use crate::translate::session;
use crate::translate::session::SessionCounter;
use crate::translate::{Plan, TranslateRequest, Translator};
use vstd::prelude::*;

verus! {

#[derive(Debug)]
pub struct DeepLTranslate {
    /// The provider's name; a session is kept for each.
    pub name: String,
    pub mode: ProviderMode,
    pub api_key: Option<String>,
    pub timeout_secs: u64,
}

// ---------------------------------------------------------------------
// Languages and time
// ---------------------------------------------------------------------

/// A language as the web page's endpoint names it: in capitals, without a
/// distinction between written forms of Chinese; `auto` stays as it is.
pub open spec fn language_code(lang: Seq<char>) -> Seq<char> {
    if lang == "auto"@ {
        "auto"@
    } else if lang == "zh-Hans"@ || lang == "zh-CN"@ {
        "ZH"@
    } else {
        letter_case::uppercase(lang)
    }
}

/// A language as the web page's endpoint names it.
pub fn fix_language(lang: &str) -> (r: String)
    ensures
        r@ == language_code(lang@),
        letter_case::is_ascii_text(lang@) && lang@ != "auto"@ && lang@ != "zh-Hans"@ && lang@
            != "zh-CN"@ ==> r@ == lang@.map_values(|c: char| letter_case::ascii_upper(c)),
{
    if same_text(lang, "auto") {
        "auto".to_owned()
    } else if same_text(lang, "zh-Hans") || same_text(lang, "zh-CN") {
        "ZH".to_owned()
    } else {
        to_uppercase(lang)
    }
}

/// How often the letter `i` occurs in a text.
pub open spec fn count_i(s: Seq<char>) -> nat
    decreases s.len(),
{
    if s.len() == 0 {
        0
    } else {
        count_i(s.drop_last()) + if s.last() == 'i' {
            1nat
        } else {
            0nat
        }
    }
}

proof fn lemma_count_i(s: Seq<char>)
    ensures
        count_i(s) <= s.len(),
    decreases s.len(),
{
    if s.len() > 0 {
        lemma_count_i(s.drop_last());
    }
}

/// The remainder that is cut off when `a` is divided by `n`, with the sign
/// of `a`.
pub open spec fn remainder(a: int, n: int) -> int {
    if a >= 0 {
        a % n
    } else {
        -((-a) % n)
    }
}

/// The steps in which the time that goes with a text is counted: as many
/// milliseconds as the text has letters `i`, and one where it has none.
pub open spec fn time_step(s: Seq<char>) -> int {
    if count_i(s) > 0 {
        count_i(s) as int
    } else {
        1
    }
}

/// The time that goes with a text: the next multiple of the text's step.
pub open spec fn stamped(now_millis: int, s: Seq<char>) -> int {
    let n = time_step(s);
    now_millis + (n - remainder(now_millis, n))
}

/// How often the letter `i` occurs in a text.
fn letters_i(s: &str) -> (r: u64)
    ensures
        r == count_i(s@),
        r <= s@.len(),
{
    let v = chars_of(s);
    let mut n: u64 = 0;
    let mut i: usize = 0;
    assert(s@.take(0) =~= Seq::<char>::empty());
    while i < v.len()
        invariant
            i <= v.len(),
            v@ == s@,
            n == count_i(s@.take(i as int)),
            n <= i,
        decreases v.len() - i,
    {
        proof {
            assert(s@.take(i + 1).drop_last() =~= s@.take(i as int));
        }
        if v[i] == 'i' {
            n += 1;
        }
        i += 1;
    }
    assert(s@.take(s@.len() as int) =~= s@);
    n
}

/// The time to send with a text: the current time, in milliseconds since the
/// epoch, moved on to the next multiple of the number of letters `i` in the
/// text.
pub fn massaged_timestamp(now_millis: i64, text: &str) -> (r: i64)
    requires
        stamped(now_millis as int, text@) <= i64::MAX,
    ensures
        r == stamped(now_millis as int, text@),
{
    let n: u64 = letters_i(text);
    let wide: i128 = now_millis as i128;
    let m: i128 = if n > 0 {
        n as i128
    } else {
        1
    };
    if wide >= 0 {
        proof {
            assert(0 <= wide % m <= wide && wide % m < m) by (nonlinear_arith)
                requires
                    wide >= 0,
                    m > 0,
            ;
        }
        (wide + (m - wide % m)) as i64
    } else {
        let back: i128 = 0 - wide;
        proof {
            assert(0 <= back % m <= back && back % m < m) by (nonlinear_arith)
                requires
                    back >= 0,
                    m > 0,
            ;
        }
        (wide + (m + back % m)) as i64
    }
}

/// The time that is sent with a text is a multiple of the number of letters
/// `i` in it, where it has one; it lies after the current time, and is the
/// first such multiple.
pub proof fn law_timestamp_is_next_multiple(now_millis: int, s: Seq<char>)
    requires
        0 <= now_millis,
    ensures
        ({
            let n = time_step(s);
            &&& count_i(s) > 0 ==> n == count_i(s)
            &&& stamped(now_millis, s) % n == 0
            &&& now_millis < stamped(now_millis, s) <= now_millis + n
        }),
{
    let n: int = time_step(s);
    let a = now_millis;
    vstd::arithmetic::div_mod::lemma_fundamental_div_mod(a, n);
    assert(0 <= a % n < n) by (nonlinear_arith)
        requires
            n > 0,
    ;
    assert(a + (n - a % n) == n * (a / n + 1)) by (nonlinear_arith)
        requires
            a == n * (a / n) + a % n,
    ;
    vstd::arithmetic::div_mod::lemma_mod_multiples_basic(a / n + 1, n);
    assert(n * (a / n + 1) == (a / n + 1) * n) by (nonlinear_arith);
}

// ---------------------------------------------------------------------
// Requests to the web page's endpoint
// ---------------------------------------------------------------------

/// The browser that the session claims to be.
pub open spec fn user_agent() -> Seq<char> {
    "Mozilla/5.0 (Windows NT 10.0; Win64; x64) AppleWebKit/537.36 (KHTML, like Gecko) Chrome/120.0.0.0 Safari/537.36"@
}

/// The request that loads the web page.
pub open spec fn page_request(timeout_secs: u64) -> http::HttpView {
    http::HttpView {
        method: Method::Get,
        url: "https://www.deepl.com/translator"@,
        query: Seq::<(Seq<char>, Seq<char>)>::empty(),
        headers: seq![("User-Agent"@, user_agent())],
        bearer: None,
        body: http::BodyView::Empty,
        timeout_secs,
    }
}

/// What asks for the client's state.
pub open spec fn client_state_body(id: int) -> json::JsonView {
    json::JsonView::Object(
        seq![
            ("jsonrpc"@, json::JsonView::Text("2.0"@)),
            ("method"@, json::JsonView::Text("getClientState"@)),
            (
                "params"@,
                json::JsonView::Object(seq![("v"@, json::JsonView::Text("20180814"@))]),
            ),
            ("id"@, json::JsonView::Int(id)),
        ],
    )
}

/// The request that asks for the client's state.
pub open spec fn client_state_request(id: int, timeout_secs: u64) -> http::HttpView {
    http::HttpView {
        method: Method::Post,
        url: "https://w.deepl.com/web?request_type=jsonrpc&il=en&method=getClientState"@,
        query: Seq::<(Seq<char>, Seq<char>)>::empty(),
        headers: seq![
            ("User-Agent"@, user_agent()),
            ("Content-Type"@, "application/json"@),
        ],
        bearer: None,
        body: http::BodyView::Json(client_state_body(id)),
        timeout_secs,
    }
}

/// The languages that the user is taken to prefer.
pub open spec fn preferred(source: Seq<char>, target: Seq<char>) -> Seq<json::JsonView> {
    if source == "auto"@ {
        seq![json::JsonView::Text(target)]
    } else {
        seq![json::JsonView::Text(target), json::JsonView::Text(source)]
    }
}

/// One sentence to translate.
pub open spec fn job(s: Seq<char>) -> json::JsonView {
    json::JsonView::Object(
        seq![
            ("kind"@, json::JsonView::Text("default"@)),
            ("preferred_num_beams"@, json::JsonView::Int(1)),
            ("raw_en_sentence"@, json::JsonView::Text(s)),
            ("raw_en_context_before"@, json::JsonView::Array(Seq::<json::JsonView>::empty())),
            ("raw_en_context_after"@, json::JsonView::Array(Seq::<json::JsonView>::empty())),
        ],
    )
}

/// The languages of a translation.
pub open spec fn lang(source: Seq<char>, target: Seq<char>) -> json::JsonView {
    json::JsonView::Object(
        seq![
            ("user_preferred_langs"@, json::JsonView::Array(preferred(source, target))),
            ("source_lang_user_selected"@, json::JsonView::Text(source)),
            ("target_lang"@, json::JsonView::Text(target)),
        ],
    )
}

/// What is to be translated, and when it was asked.
pub open spec fn params(req: translate::RequestView, timestamp: int) -> json::JsonView {
    json::JsonView::Object(
        seq![
            ("jobs"@, json::JsonView::Array(seq![job(req.text)])),
            ("lang"@, lang(language_code(req.source_lang), language_code(req.target_lang))),
            ("priority"@, json::JsonView::Int(-1)),
            ("timestamp"@, json::JsonView::Int(timestamp)),
        ],
    )
}

/// What asks for a translation.
pub open spec fn jobs_body(
    req: translate::RequestView,
    timestamp: int,
    id: int,
) -> json::JsonView {
    json::JsonView::Object(
        seq![
            ("jsonrpc"@, json::JsonView::Text("2.0"@)),
            ("method"@, json::JsonView::Text("LMT_handle_jobs"@)),
            ("params"@, params(req, timestamp)),
            ("id"@, json::JsonView::Int(id)),
        ],
    )
}

/// The request that asks for a translation.
pub open spec fn jobs_request(
    req: translate::RequestView,
    timestamp: int,
    id: int,
    timeout_secs: u64,
) -> http::HttpView {
    http::HttpView {
        method: Method::Post,
        url: "https://www2.deepl.com/jsonrpc"@,
        query: Seq::<(Seq<char>, Seq<char>)>::empty(),
        headers: seq![
            ("User-Agent"@, user_agent()),
            ("Content-Type"@, "application/json"@),
            ("Referer"@, "https://www.deepl.com/translator"@),
            ("Origin"@, "https://www.deepl.com"@),
        ],
        bearer: None,
        body: http::BodyView::Json(jobs_body(req, timestamp, id)),
        timeout_secs,
    }
}

fn client_state_json(id: i64) -> (r: Json)
    ensures
        r@ == client_state_body(id as int),
{
    let mut inner: Vec<(String, Json)> = Vec::new();
    put(&mut inner, "v", text_value("20180814"));
    assert(json::members_view(inner@) =~= seq![("v"@, json::JsonView::Text("20180814"@))]);
    let mut members: Vec<(String, Json)> = Vec::new();
    put(&mut members, "jsonrpc", text_value("2.0"));
    put(&mut members, "method", text_value("getClientState"));
    put(&mut members, "params", object_of(inner));
    put(&mut members, "id", Json::Int(id));
    assert(json::members_view(members@) =~= client_state_body(id as int)->Object_0);
    object_of(members)
}

fn empty_array() -> (r: Json)
    ensures
        r@ == json::JsonView::Array(Seq::<json::JsonView>::empty()),
{
    let items: Vec<Json> = Vec::new();
    assert(items@.map_values(|j: Json| j@) =~= Seq::<json::JsonView>::empty());
    array_of(items)
}

fn job_json(s: &str) -> (r: Json)
    ensures
        r@ == job(s@),
{
    let mut members: Vec<(String, Json)> = Vec::new();
    put(&mut members, "kind", text_value("default"));
    put(&mut members, "preferred_num_beams", Json::Int(1));
    put(&mut members, "raw_en_sentence", text_value(s));
    put(&mut members, "raw_en_context_before", empty_array());
    put(&mut members, "raw_en_context_after", empty_array());
    assert(json::members_view(members@) =~= job(s@)->Object_0);
    object_of(members)
}

fn lang_json(source: &str, target: &str) -> (r: Json)
    ensures
        r@ == lang(source@, target@),
{
    let mut langs: Vec<Json> = Vec::new();
    langs.push(text_value(target));
    if !same_text(source, "auto") {
        langs.push(text_value(source));
    }
    assert(langs@.map_values(|j: Json| j@) =~= preferred(source@, target@));
    let mut members: Vec<(String, Json)> = Vec::new();
    put(&mut members, "user_preferred_langs", array_of(langs));
    put(&mut members, "source_lang_user_selected", text_value(source));
    put(&mut members, "target_lang", text_value(target));
    assert(json::members_view(members@) =~= lang(source@, target@)->Object_0);
    object_of(members)
}

fn params_json(req: &TranslateRequest, timestamp: i64) -> (r: Json)
    ensures
        r@ == params(req@, timestamp as int),
{
    let source = fix_language(req.source_lang);
    let target = fix_language(req.target_lang);
    let mut jobs: Vec<Json> = Vec::new();
    jobs.push(job_json(req.text));
    assert(jobs@.map_values(|j: Json| j@) =~= seq![job(req.text@)]);
    let mut members: Vec<(String, Json)> = Vec::new();
    put(&mut members, "jobs", array_of(jobs));
    put(&mut members, "lang", lang_json(source.as_str(), target.as_str()));
    put(&mut members, "priority", Json::Int(-1));
    put(&mut members, "timestamp", Json::Int(timestamp));
    assert(json::members_view(members@) =~= params(req@, timestamp as int)->Object_0);
    object_of(members)
}

fn jobs_json(req: &TranslateRequest, timestamp: i64, id: i64) -> (r: Json)
    ensures
        r@ == jobs_body(req@, timestamp as int, id as int),
{
    let mut members: Vec<(String, Json)> = Vec::new();
    put(&mut members, "jsonrpc", text_value("2.0"));
    put(&mut members, "method", text_value("LMT_handle_jobs"));
    put(&mut members, "params", params_json(req, timestamp));
    put(&mut members, "id", Json::Int(id));
    assert(json::members_view(members@) =~= jobs_body(
        req@,
        timestamp as int,
        id as int,
    )->Object_0);
    object_of(members)
}

fn browser_headers() -> (r: Vec<(String, String)>)
    ensures
        text::pairs(r@) == seq![("User-Agent"@, user_agent())],
{
    let mut headers = no_pairs();
    add_pair(
        &mut headers,
        "User-Agent",
        "Mozilla/5.0 (Windows NT 10.0; Win64; x64) AppleWebKit/537.36 (KHTML, like Gecko) Chrome/120.0.0.0 Safari/537.36",
    );
    assert(text::pairs(headers@) =~= seq![("User-Agent"@, user_agent())]);
    headers
}

// ---------------------------------------------------------------------
// Replies of the web page's endpoint
// ---------------------------------------------------------------------

/// Where a reply holds the translation.
pub open spec fn translation_pointer() -> Seq<char> {
    "/result/translations/0/beams/0/postprocessed_sentence"@
}

/// The translation in a reply that was read.
pub open spec fn sentence(d: json::Document) -> Result<Seq<char>, http::FailureView> {
    match json::pointed(d, translation_pointer()) {
        Some(json::Document::Text(s)) => Ok(s),
        _ => Err(
            http::plain("unexpected response shape from the public DeepL Translator endpoint"@),
        ),
    }
}

/// The translation in a reply's body.
pub open spec fn sentence_in(
    reading: Result<json::Document, Seq<char>>,
) -> Result<Seq<char>, http::FailureView> {
    match reading {
        Ok(d) => sentence(d),
        Err(e) => Err(
            http::caused("unexpected response from the public DeepL Translator endpoint"@, e),
        ),
    }
}

/// The translation in a reply that was read.
pub fn sentence_of(value: &serde_json::Value) -> (r: Result<String, Failure>)
    ensures
        http::said(r) == sentence(json::document(*value)),
{
    let found: Option<&str> = match value.pointer(
        "/result/translations/0/beams/0/postprocessed_sentence",
    ) {
        Some(v) => v.as_str(),
        None => None,
    };
    match found {
        Some(s) => Ok(s.to_owned()),
        None => Err(
            Failure::new("unexpected response shape from the public DeepL Translator endpoint"),
        ),
    }
}

/// The translation in the body of a reply, which has the form
/// `{"result":{"translations":[{"beams":[{"postprocessed_sentence":".."}]}]}}`.
pub fn parse_response(body: &str) -> (r: Result<String, Failure>)
    ensures
        http::said(r) == sentence_in(json::json_reading(body@)),
{
    match read_json(body) {
        Ok(value) => sentence_of(&value),
        Err(e) => Err(
            Failure::because(
                "unexpected response from the public DeepL Translator endpoint",
                e.as_str(),
            ),
        ),
    }
}

/// What a reply of the web page's endpoint means.
pub open spec fn public_reply(r: http::ReplyView) -> Result<Seq<char>, http::FailureView> {
    if r.status == 429 {
        Err(
            http::plain(
                "public DeepL Translator endpoint returned HTTP 429 (rate-limited); session reset for next attempt: "@
                    + r.body,
            ),
        )
    } else if !http::is_success(r.status) {
        Err(http::plain(http::refusal("public DeepL Translator endpoint"@, r)))
    } else {
        sentence_in(json::json_reading(r.body))
    }
}

/// What became of a request to the web page's endpoint.
pub open spec fn public_outcome(x: http::ExchangeView) -> Result<Seq<char>, http::FailureView> {
    match x {
        http::ExchangeView::NoClient(e) => Err(
            http::caused("failed to build an HTTP client for DeepL Translator"@, e),
        ),
        http::ExchangeView::NotSent(e) => Err(
            http::caused("request to the public DeepL Translator endpoint failed"@, e),
        ),
        http::ExchangeView::Answered(r) => public_reply(r),
    }
}

fn read_public_reply(reply: &Reply) -> (r: Result<String, Failure>)
    ensures
        http::said(r) == public_reply(reply@),
{
    if reply.status == 429 {
        let mut m =
            "public DeepL Translator endpoint returned HTTP 429 (rate-limited); session reset for next attempt: ".to_owned();
        m.append(reply.body.as_str());
        Err(Failure::new(m.as_str()))
    } else if !(200 <= reply.status && reply.status < 300) {
        let m = refusal_text("public DeepL Translator endpoint", reply);
        Err(Failure::new(m.as_str()))
    } else {
        parse_response(reply.body.as_str())
    }
}

fn read_public(x: &Exchange) -> (r: Result<String, Failure>)
    ensures
        http::said(r) == public_outcome(x@),
{
    match x {
        Exchange::NoClient(e) => Err(
            Failure::because("failed to build an HTTP client for DeepL Translator", e.as_str()),
        ),
        Exchange::NotSent(e) => Err(
            Failure::because(
                "request to the public DeepL Translator endpoint failed",
                e.as_str(),
            ),
        ),
        Exchange::Answered(reply) => read_public_reply(reply),
    }
}

// ---------------------------------------------------------------------
// Sessions
// ---------------------------------------------------------------------

/// A session with the web page: the number of the last request, which only
/// has to grow, and how long the session still serves.
#[derive(Debug)]
pub struct DeepLSession {
    pub id: i64,
    pub counter: SessionCounter,
    pub timeout_secs: u64,
}

/// What a session does next for a translation.
#[derive(Debug, Clone, Copy, PartialEq, Eq, Structural)]
pub enum SessionStep {
    /// Load the web page, then ask for the client's state.
    SetUp,
    /// Ask for the translation.
    Translate,
}

impl DeepLSession {
    pub open spec fn wf(self) -> bool {
        self.counter.wf()
    }

    /// A session that is not set up yet. Its first number is some number of
    /// eight digits.
    pub fn new(timeout_secs: u64, id_nanos: u32, counter_nanos: u32) -> (r: Self)
        ensures
            r.wf(),
            r.id == 10_000_000 + id_nanos as int % 10_000_000,
            r.counter == session::fresh_counter(counter_nanos),
            r.timeout_secs == timeout_secs,
    {
        DeepLSession {
            id: 10_000_000 + (id_nanos % 10_000_000) as i64,
            counter: SessionCounter::new(counter_nanos),
            timeout_secs,
        }
    }

    /// Starts a translation.
    pub fn begin(&mut self, nanos: u32) -> (r: SessionStep)
        requires
            old(self).wf(),
        ensures
            final(self).wf(),
            final(self).id == old(self).id,
            final(self).timeout_secs == old(self).timeout_secs,
            final(self).counter == old(self).counter.ticked(nanos),
            r == (if old(self).counter.is_due() {
                SessionStep::SetUp
            } else {
                SessionStep::Translate
            }),
    {
        if self.counter.tick(nanos) {
            SessionStep::SetUp
        } else {
            SessionStep::Translate
        }
    }

    /// The request that loads the web page.
    pub fn load_page(&self) -> (r: HttpRequest)
        ensures
            r@ == page_request(self.timeout_secs),
    {
        HttpRequest {
            method: Method::Get,
            url: "https://www.deepl.com/translator".to_owned(),
            query: no_pairs(),
            headers: browser_headers(),
            bearer: None,
            body: Body::Empty,
            timeout_secs: self.timeout_secs,
        }
    }

    /// Goes on after the web page was asked for: without the page there is
    /// no session, and the next translation sets it up again.
    pub fn page_loaded(&mut self, outcome: &Result<(), String>, nanos: u32) -> (r: Result<
        HttpRequest,
        Failure,
    >)
        requires
            old(self).wf(),
            *outcome is Ok ==> old(self).id < i64::MAX,
        ensures
            final(self).wf(),
            final(self).timeout_secs == old(self).timeout_secs,
            (match *outcome {
                Ok(_) => {
                    &&& final(self).counter == old(self).counter
                    &&& final(self).id == old(self).id + 1
                    &&& r matches Ok(q) && q@ == client_state_request(
                        final(self).id as int,
                        old(self).timeout_secs,
                    )
                },
                Err(e) => {
                    &&& final(self).counter == session::fresh_counter(nanos)
                    &&& final(self).id == old(self).id
                    &&& r matches Err(f) && f@ == http::caused(
                        "failed to load deepl.com/translator to prime a session"@,
                        e@,
                    )
                },
            }),
    {
        match outcome {
            Err(e) => {
                self.counter = SessionCounter::new(nanos);
                Err(
                    Failure::because(
                        "failed to load deepl.com/translator to prime a session",
                        e.as_str(),
                    ),
                )
            },
            Ok(_) => {
                self.id = self.id + 1;
                let mut headers = browser_headers();
                add_pair(&mut headers, "Content-Type", "application/json");
                assert(text::pairs(headers@) =~= client_state_request(
                    self.id as int,
                    self.timeout_secs,
                ).headers);
                Ok(
                    HttpRequest {
                        method: Method::Post,
                        url:
                            "https://w.deepl.com/web?request_type=jsonrpc&il=en&method=getClientState".to_owned(),
                        query: no_pairs(),
                        headers,
                        bearer: None,
                        body: Body::Json(client_state_json(self.id)),
                        timeout_secs: self.timeout_secs,
                    },
                )
            },
        }
    }

    /// Whether the session is ready once the client's state was asked for.
    /// Where it is not, the next translation sets it up again.
    pub fn client_state_known(&mut self, outcome: &Result<(), String>, nanos: u32) -> (r: Result<
        (),
        Failure,
    >)
        requires
            old(self).wf(),
        ensures
            final(self).wf(),
            final(self).id == old(self).id,
            final(self).timeout_secs == old(self).timeout_secs,
            (match *outcome {
                Ok(_) => r is Ok && final(self).counter == old(self).counter,
                Err(e) => {
                    &&& final(self).counter == session::fresh_counter(nanos)
                    &&& r matches Err(f) && f@ == http::caused(
                        "DeepL getClientState setup call failed"@,
                        e@,
                    )
                },
            }),
    {
        match outcome {
            Ok(_) => Ok(()),
            Err(e) => {
                self.counter = SessionCounter::new(nanos);
                Err(Failure::because("DeepL getClientState setup call failed", e.as_str()))
            },
        }
    }

    /// The request that asks for a translation.
    pub fn ask(&mut self, now_millis: i64, req: &TranslateRequest) -> (r: HttpRequest)
        requires
            old(self).id < i64::MAX,
            stamped(now_millis as int, req.text@) <= i64::MAX,
        ensures
            final(self).counter == old(self).counter,
            final(self).timeout_secs == old(self).timeout_secs,
            final(self).id == old(self).id + 1,
            r@ == jobs_request(
                req@,
                stamped(now_millis as int, req.text@),
                final(self).id as int,
                old(self).timeout_secs,
            ),
    {
        self.id = self.id + 1;
        let timestamp = massaged_timestamp(now_millis, req.text);
        let mut headers = browser_headers();
        add_pair(&mut headers, "Content-Type", "application/json");
        add_pair(&mut headers, "Referer", "https://www.deepl.com/translator");
        add_pair(&mut headers, "Origin", "https://www.deepl.com");
        assert(text::pairs(headers@) =~= jobs_request(
            req@,
            timestamp as int,
            self.id as int,
            self.timeout_secs,
        ).headers);
        HttpRequest {
            method: Method::Post,
            url: "https://www2.deepl.com/jsonrpc".to_owned(),
            query: no_pairs(),
            headers,
            bearer: None,
            body: Body::Json(jobs_json(req, timestamp, self.id)),
            timeout_secs: self.timeout_secs,
        }
    }

    /// Ends a translation. A session that was turned away for asking too
    /// often starts over at the next one.
    pub fn finish(&mut self, x: &Exchange, nanos: u32) -> (r: Result<String, Failure>)
        requires
            old(self).wf(),
        ensures
            final(self).wf(),
            final(self).id == old(self).id,
            final(self).timeout_secs == old(self).timeout_secs,
            final(self).counter == (if x@ is Answered && x@->Answered_0.status == 429 {
                session::fresh_counter(nanos)
            } else {
                old(self).counter
            }),
            http::said(r) == public_outcome(x@),
    {
        if let Exchange::Answered(reply) = x {
            if reply.status == 429 {
                self.counter = SessionCounter::new(nanos);
            }
        }
        read_public(x)
    }
}

/// What happened last in a translation through a session.
#[derive(Debug)]
pub enum SessionEvent {
    /// The translation was asked for.
    Begun,
    /// The web page was loaded, or why not.
    PageLoaded(Result<(), String>),
    /// The client's state was asked for, or why not.
    StateKnown(Result<(), String>),
    /// What became of the request for the translation.
    Answered(Exchange),
}

/// What is done next in a translation through a session.
#[derive(Debug)]
pub enum SessionAction {
    /// Load the web page.
    LoadPage(HttpRequest),
    /// Ask for the client's state.
    AskState(HttpRequest),
    /// Ask for the translation.
    AskTranslation(HttpRequest),
    /// It is over.
    Over(Result<String, Failure>),
}

#[verifier::ext_equal]
pub enum ActionView {
    LoadPage(http::HttpView),
    AskState(http::HttpView),
    AskTranslation(http::HttpView),
    Over(Result<Seq<char>, http::FailureView>),
}

impl View for SessionAction {
    type V = ActionView;

    open spec fn view(&self) -> ActionView {
        match *self {
            SessionAction::LoadPage(q) => ActionView::LoadPage(q@),
            SessionAction::AskState(q) => ActionView::AskState(q@),
            SessionAction::AskTranslation(q) => ActionView::AskTranslation(q@),
            SessionAction::Over(r) => ActionView::Over(http::said(r)),
        }
    }
}

/// What is done next.
pub open spec fn next_action(
    s: DeepLSession,
    event: SessionEvent,
    req: translate::RequestView,
    now_millis: int,
) -> ActionView {
    let translation = ActionView::AskTranslation(
        jobs_request(req, stamped(now_millis, req.text), s.id + 1, s.timeout_secs),
    );
    match event {
        SessionEvent::Begun => if s.counter.is_due() {
            ActionView::LoadPage(page_request(s.timeout_secs))
        } else {
            translation
        },
        SessionEvent::PageLoaded(Ok(_)) => ActionView::AskState(
            client_state_request(s.id + 1, s.timeout_secs),
        ),
        SessionEvent::PageLoaded(Err(e)) => ActionView::Over(
            Err(http::caused("failed to load deepl.com/translator to prime a session"@, e@)),
        ),
        SessionEvent::StateKnown(Ok(_)) => translation,
        SessionEvent::StateKnown(Err(e)) => ActionView::Over(
            Err(http::caused("DeepL getClientState setup call failed"@, e@)),
        ),
        SessionEvent::Answered(x) => ActionView::Over(public_outcome(x@)),
    }
}

/// The session after it decided what is done next.
pub open spec fn after_event(
    s: DeepLSession,
    event: SessionEvent,
    req: translate::RequestView,
    now_millis: int,
    nanos: u32,
) -> DeepLSession {
    DeepLSession {
        id: match next_action(s, event, req, now_millis) {
            ActionView::AskState(_) => (s.id + 1) as i64,
            ActionView::AskTranslation(_) => (s.id + 1) as i64,
            _ => s.id,
        },
        counter: match event {
            SessionEvent::Begun => s.counter.ticked(nanos),
            SessionEvent::PageLoaded(Err(_)) => session::fresh_counter(nanos),
            SessionEvent::StateKnown(Err(_)) => session::fresh_counter(nanos),
            SessionEvent::Answered(x) => if x@ is Answered && x@->Answered_0.status == 429 {
                session::fresh_counter(nanos)
            } else {
                s.counter
            },
            _ => s.counter,
        },
        timeout_secs: s.timeout_secs,
    }
}

impl DeepLSession {
    /// Goes on with a translation: where the session is due, the web page is
    /// loaded and the client's state asked for before the translation is.
    /// Where either fails, the session stays due.
    pub fn advance(
        &mut self,
        event: &SessionEvent,
        req: &TranslateRequest,
        now_millis: i64,
        nanos: u32,
    ) -> (r: SessionAction)
        requires
            old(self).wf(),
            next_action(*old(self), *event, req@, now_millis as int) is AskState ==> old(self).id
                < i64::MAX,
            next_action(*old(self), *event, req@, now_millis as int) is AskTranslation ==> old(
                self,
            ).id < i64::MAX && stamped(now_millis as int, req.text@) <= i64::MAX,
        ensures
            final(self).wf(),
            *final(self) == after_event(*old(self), *event, req@, now_millis as int, nanos),
            r@ == next_action(*old(self), *event, req@, now_millis as int),
    {
        match event {
            SessionEvent::Begun => match self.begin(nanos) {
                SessionStep::SetUp => SessionAction::LoadPage(self.load_page()),
                SessionStep::Translate => SessionAction::AskTranslation(self.ask(now_millis, req)),
            },
            SessionEvent::PageLoaded(outcome) => match self.page_loaded(outcome, nanos) {
                Ok(q) => SessionAction::AskState(q),
                Err(f) => SessionAction::Over(Err(f)),
            },
            SessionEvent::StateKnown(outcome) => match self.client_state_known(outcome, nanos) {
                Ok(_) => SessionAction::AskTranslation(self.ask(now_millis, req)),
                Err(f) => SessionAction::Over(Err(f)),
            },
            SessionEvent::Answered(x) => SessionAction::Over(self.finish(x, nanos)),
        }
    }
}

/// The numbers of a session's requests grow: each request carries the number
/// that the session has afterwards, which is larger than the one before; and
/// nothing else changes the number.
pub proof fn law_request_numbers_grow(
    s: DeepLSession,
    event: SessionEvent,
    req: translate::RequestView,
    now_millis: int,
    nanos: u32,
)
    requires
        s.id < i64::MAX,
    ensures
        ({
            let t = after_event(s, event, req, now_millis, nanos);
            match next_action(s, event, req, now_millis) {
                ActionView::AskState(q) => t.id > s.id && q.body == http::BodyView::Json(
                    client_state_body(t.id as int),
                ),
                ActionView::AskTranslation(q) => t.id > s.id && q.body == http::BodyView::Json(
                    jobs_body(req, stamped(now_millis, req.text), t.id as int),
                ),
                _ => t.id == s.id,
            }
        }),
{
}

/// A session that is due asks for no translation before the web page was
/// loaded and the client's state is known.
pub proof fn law_due_session_is_set_up_first(
    s: DeepLSession,
    event: SessionEvent,
    req: translate::RequestView,
    now_millis: int,
)
    requires
        next_action(s, event, req, now_millis) is AskTranslation,
    ensures
        (event is Begun && !s.counter.is_due()) || (event matches SessionEvent::StateKnown(r) && r
            is Ok),
{
}

/// Something that happened in a session's life: the event, the translation
/// that it belongs to, and the clock.
pub struct Moment {
    pub event: SessionEvent,
    pub req: translate::RequestView,
    pub now_millis: int,
    pub nanos: u32,
}

/// The session after all that happened to it.
pub open spec fn after_moments(s: DeepLSession, moments: Seq<Moment>) -> DeepLSession
    decreases moments.len(),
{
    if moments.len() == 0 {
        s
    } else {
        let m = moments.last();
        after_event(
            after_moments(s, moments.drop_last()),
            m.event,
            m.req,
            m.now_millis,
            m.nanos,
        )
    }
}

/// What the session does after the last thing that happened to it.
pub open spec fn last_action(s: DeepLSession, moments: Seq<Moment>) -> ActionView {
    let m = moments.last();
    next_action(after_moments(s, moments.drop_last()), m.event, m.req, m.now_millis)
}

/// Whether an event is what can come of an action.
pub open spec fn comes_of(event: SessionEvent, action: ActionView) -> bool {
    match event {
        SessionEvent::Begun => action is Over,
        SessionEvent::PageLoaded(_) => action is LoadPage,
        SessionEvent::StateKnown(_) => action is AskState,
        SessionEvent::Answered(_) => action is AskTranslation,
    }
}

/// Whether each event comes of the action before it, and the first one
/// begins a translation.
pub open spec fn in_order(s: DeepLSession, moments: Seq<Moment>) -> bool {
    forall|k: int|
        0 <= k < moments.len() ==> if k == 0 {
            (#[trigger] moments[k]).event is Begun
        } else {
            comes_of(moments[k].event, last_action(s, moments.take(k)))
        }
}

/// Whether an event ends what was set up: the session is due when a
/// translation begins, it could not be set up, or it was turned away for
/// asking too often.
pub open spec fn resets(s: DeepLSession, event: SessionEvent) -> bool {
    match event {
        SessionEvent::Begun => s.counter.is_due(),
        SessionEvent::PageLoaded(outcome) => outcome is Err,
        SessionEvent::StateKnown(outcome) => outcome is Err,
        SessionEvent::Answered(x) => x@ is Answered && x@->Answered_0.status == 429,
    }
}

/// Whether the session was set up at the moment `j`: the web page had been
/// loaded, and the client's state became known.
pub open spec fn set_up_at(moments: Seq<Moment>, j: int) -> bool {
    &&& 1 <= j < moments.len()
    &&& moments[j - 1].event matches SessionEvent::PageLoaded(page) && page is Ok
    &&& moments[j].event matches SessionEvent::StateKnown(state) && state is Ok
}

/// Whether the session was set up at some moment and nothing has reset it
/// since.
pub open spec fn ready(s: DeepLSession, moments: Seq<Moment>) -> bool {
    exists|j: int| #[trigger]
        set_up_at(moments, j) && forall|k: int|
            j < k < moments.len() ==> !resets(
                after_moments(s, moments.take(k)),
                (#[trigger] moments[k]).event,
            )
}

proof fn lemma_in_order_before(s: DeepLSession, moments: Seq<Moment>)
    requires
        moments.len() > 0,
        in_order(s, moments),
    ensures
        in_order(s, moments.drop_last()),
        moments.len() == 1 ==> moments.last().event is Begun,
        moments.len() > 1 ==> comes_of(
            moments.last().event,
            last_action(s, moments.drop_last()),
        ),
{
    let before = moments.drop_last();
    let n = before.len() as int;
    assert(moments.take(n) =~= before);
    assert(moments[n] == moments.last());
    assert forall|k: int| 0 <= k < before.len() implies if k == 0 {
        (#[trigger] before[k]).event is Begun
    } else {
        comes_of(before[k].event, last_action(s, before.take(k)))
    } by {
        assert(before[k] == moments[k]);
        assert(before.take(k) =~= moments.take(k));
    }
}

proof fn lemma_stays_ready(s: DeepLSession, moments: Seq<Moment>)
    requires
        moments.len() > 0,
        ready(s, moments.drop_last()),
        !resets(after_moments(s, moments.drop_last()), moments.last().event),
    ensures
        ready(s, moments),
{
    let before = moments.drop_last();
    let n = before.len() as int;
    let j = choose|j: int| #[trigger]
        set_up_at(before, j) && forall|k: int|
            j < k < before.len() ==> !resets(
                after_moments(s, before.take(k)),
                (#[trigger] before[k]).event,
            );
    assert(moments.take(n) =~= before);
    assert(before[j - 1] == moments[j - 1]);
    assert(before[j] == moments[j]);
    assert(set_up_at(moments, j));
    assert forall|k: int| j < k < moments.len() implies !resets(
        after_moments(s, moments.take(k)),
        (#[trigger] moments[k]).event,
    ) by {
        if k < n {
            assert(before[k] == moments[k]);
            assert(before.take(k) =~= moments.take(k));
        }
    }
}

/// What one event means for the session, whatever it is.
proof fn lemma_one_moment(t: DeepLSession, m: Moment)
    ensures
        ({
            let action = next_action(t, m.event, m.req, m.now_millis);
            let after = after_event(t, m.event, m.req, m.now_millis, m.nanos);
            match m.event {
                SessionEvent::Begun => if t.counter.is_due() {
                    action is LoadPage
                } else {
                    action is AskTranslation
                },
                SessionEvent::PageLoaded(outcome) => if outcome is Ok {
                    action is AskState
                } else {
                    action is Over && after.counter.is_due()
                },
                SessionEvent::StateKnown(outcome) => if outcome is Ok {
                    action is AskTranslation
                } else {
                    action is Over && after.counter.is_due()
                },
                SessionEvent::Answered(_) => action is Over && (resets(t, m.event)
                    ==> after.counter.is_due()),
            }
        }),
{
}

proof fn lemma_set_up_now(s: DeepLSession, moments: Seq<Moment>)
    requires
        moments.len() > 1,
        moments.last().event matches SessionEvent::StateKnown(state) && state is Ok,
        last_action(s, moments.drop_last()) is AskState,
    ensures
        ready(s, moments),
{
    let before = moments.drop_last();
    let n = before.len() as int;
    lemma_one_moment(after_moments(s, before.drop_last()), before.last());
    assert(before.last() == moments[n - 1]);
    assert(moments.last() == moments[n]);
    assert(set_up_at(moments, n));
}

proof fn lemma_ready(s: DeepLSession, moments: Seq<Moment>)
    requires
        s.counter.is_due(),
        in_order(s, moments),
    ensures
        moments.len() > 0 && last_action(s, moments) is AskTranslation ==> ready(s, moments),
        moments.len() == 0 || last_action(s, moments) is Over ==> ready(s, moments)
            || after_moments(s, moments).counter.is_due(),
    decreases moments.len(),
{
    if moments.len() > 0 {
        let before = moments.drop_last();
        let m = moments.last();
        let t = after_moments(s, before);
        lemma_in_order_before(s, moments);
        lemma_ready(s, before);
        lemma_one_moment(t, m);
        if ready(s, before) && !resets(t, m.event) {
            lemma_stays_ready(s, moments);
        }
        if m.event matches SessionEvent::StateKnown(state) && state is Ok {
            lemma_set_up_now(s, moments);
        }
    }
}

/// No translation is asked for on a session that is not set up: whenever one
/// is, the web page had been loaded and the client's state had become known,
/// and since then the session did not fall due, was not turned away, and no
/// attempt to set it up failed. This holds from the first use of a session
/// on, whatever comes of its requests.
pub proof fn law_no_translation_before_set_up(s: DeepLSession, moments: Seq<Moment>)
    requires
        s.counter.is_due(),
        in_order(s, moments),
        moments.len() > 0,
        last_action(s, moments) is AskTranslation,
    ensures
        ready(s, moments),
{
    lemma_ready(s, moments);
}

/// After an attempt to set it up failed, a session is set up again for the
/// next translation.
pub proof fn law_failed_set_up_is_repeated(
    s: DeepLSession,
    event: SessionEvent,
    req: translate::RequestView,
    now_millis: int,
    nanos: u32,
    next: translate::RequestView,
    later_millis: int,
)
    requires
        event matches SessionEvent::PageLoaded(Err(_)) || event matches SessionEvent::StateKnown(
            Err(_),
        ),
    ensures
        next_action(s, event, req, now_millis) matches ActionView::Over(r) && r is Err,
        next_action(
            after_event(s, event, req, now_millis, nanos),
            SessionEvent::Begun,
            next,
            later_millis,
        ) is LoadPage,
{
}

/// What is done at the moment `k`.
pub open spec fn action_at(s: DeepLSession, moments: Seq<Moment>, k: int) -> ActionView {
    last_action(s, moments.take(k + 1))
}

/// The session's number after the moment `k`.
pub open spec fn number_at(s: DeepLSession, moments: Seq<Moment>, k: int) -> int {
    after_moments(s, moments.take(k + 1)).id as int
}

/// Whether an action is a request with the given number.
pub open spec fn is_numbered(action: ActionView, m: Moment, number: int) -> bool {
    match action {
        ActionView::AskState(q) => q.body == http::BodyView::Json(client_state_body(number)),
        ActionView::AskTranslation(q) => q.body == http::BodyView::Json(
            jobs_body(m.req, stamped(m.now_millis, m.req.text), number),
        ),
        _ => false,
    }
}

proof fn lemma_number_step(s: DeepLSession, moments: Seq<Moment>, k: int)
    requires
        0 <= k < moments.len(),
        after_moments(s, moments.take(k)).id < i64::MAX,
    ensures
        number_at(s, moments, k) >= after_moments(s, moments.take(k)).id,
        action_at(s, moments, k) is AskState || action_at(s, moments, k) is AskTranslation
            ==> number_at(s, moments, k) > after_moments(s, moments.take(k)).id && is_numbered(
            action_at(s, moments, k),
            moments[k],
            number_at(s, moments, k),
        ),
{
    let m = moments[k];
    let t = after_moments(s, moments.take(k));
    assert(moments.take(k + 1).drop_last() == moments.take(k));
    assert(moments.take(k + 1).last() == m);
    law_request_numbers_grow(t, m.event, m.req, m.now_millis, m.nanos);
}

proof fn lemma_numbers_never_fall(s: DeepLSession, moments: Seq<Moment>, i: int, j: int)
    requires
        0 <= i < j <= moments.len(),
        forall|k: int|
            0 <= k < moments.len() ==> after_moments(s, #[trigger] moments.take(k)).id < i64::MAX,
    ensures
        number_at(s, moments, i) <= after_moments(s, moments.take(j)).id,
    decreases j,
{
    if i + 1 < j {
        lemma_numbers_never_fall(s, moments, i, j - 1);
        assert(after_moments(s, moments.take(j - 1)).id < i64::MAX);
        lemma_number_step(s, moments, j - 1);
    }
}

/// Each request of a session carries a number that is larger than those of
/// all its requests before, in whatever order things happen, until the
/// numbers are used up.
pub proof fn law_each_number_is_new(s: DeepLSession, moments: Seq<Moment>, i: int, j: int)
    requires
        0 <= i < j < moments.len(),
        forall|k: int|
            0 <= k < moments.len() ==> after_moments(s, #[trigger] moments.take(k)).id < i64::MAX,
        action_at(s, moments, i) is AskState || action_at(s, moments, i) is AskTranslation,
        action_at(s, moments, j) is AskState || action_at(s, moments, j) is AskTranslation,
    ensures
        is_numbered(action_at(s, moments, i), moments[i], number_at(s, moments, i)),
        is_numbered(action_at(s, moments, j), moments[j], number_at(s, moments, j)),
        number_at(s, moments, i) < number_at(s, moments, j),
{
    assert(after_moments(s, moments.take(i)).id < i64::MAX);
    assert(after_moments(s, moments.take(j)).id < i64::MAX);
    lemma_number_step(s, moments, i);
    lemma_number_step(s, moments, j);
    lemma_numbers_never_fall(s, moments, i, j);
}

/// What a reply does. If the session asked too often, the translation fails
/// and the session is set up anew for the next one. Any other refusal fails
/// too, but leaves the session as it is. Else the translation is the one in
/// the reply's body, and the session stays as it is.
pub proof fn law_reply_decides(
    s: DeepLSession,
    x: Exchange,
    req: translate::RequestView,
    now_millis: int,
    nanos: u32,
    next: translate::RequestView,
    later_millis: int,
)
    requires
        x@ is Answered,
    ensures
        ({
            let reply = x@->Answered_0;
            let answered = SessionEvent::Answered(x);
            let action = next_action(s, answered, req, now_millis);
            let after = after_event(s, answered, req, now_millis, nanos);
            if reply.status == 429 {
                &&& action matches ActionView::Over(r) && r is Err
                &&& next_action(after, SessionEvent::Begun, next, later_millis) is LoadPage
            } else if !http::is_success(reply.status) {
                &&& action matches ActionView::Over(r) && r is Err
                &&& after == s
            } else {
                &&& action == ActionView::Over(sentence_in(json::json_reading(reply.body)))
                &&& after == s
            }
        }),
{
}

// ---------------------------------------------------------------------
// The official interface
// ---------------------------------------------------------------------

/// The address of the official interface. A key that ends in `:fx` belongs
/// to the free tier, which has a host of its own.
pub open spec fn private_url(api_key: Seq<char>) -> Seq<char> {
    (if text::has_suffix(api_key, ":fx"@) {
        "https://api-free.deepl.com"@
    } else {
        "https://api.deepl.com"@
    }) + "/v2/translate"@
}

/// What the official interface is asked.
pub open spec fn private_form(req: translate::RequestView) -> Seq<(Seq<char>, Seq<char>)> {
    let always = seq![("text"@, req.text), ("target_lang"@, req.target_lang)];
    if req.source_lang != "auto"@ {
        always.push(("source_lang"@, req.source_lang))
    } else {
        always
    }
}

impl DeepLTranslate {
    fn private_request(&self, req: &TranslateRequest, api_key: &str) -> (r: HttpRequest)
        ensures
            r@ == (http::HttpView {
                method: Method::Post,
                url: private_url(api_key@),
                query: Seq::<(Seq<char>, Seq<char>)>::empty(),
                headers: seq![("Authorization"@, "DeepL-Auth-Key "@ + api_key@)],
                bearer: None,
                body: http::BodyView::Form(private_form(req@)),
                timeout_secs: self.timeout_secs,
            }),
    {
        let mut url = if ends_with(api_key, ":fx") {
            "https://api-free.deepl.com".to_owned()
        } else {
            "https://api.deepl.com".to_owned()
        };
        url.append("/v2/translate");
        let mut form = no_pairs();
        add_pair(&mut form, "text", req.text);
        add_pair(&mut form, "target_lang", req.target_lang);
        if !same_text(req.source_lang, "auto") {
            add_pair(&mut form, "source_lang", req.source_lang);
        }
        let mut authorization = "DeepL-Auth-Key ".to_owned();
        authorization.append(api_key);
        let mut headers = no_pairs();
        add_pair(&mut headers, "Authorization", authorization.as_str());
        assert(text::pairs(form@) =~= private_form(req@));
        assert(text::pairs(headers@) =~= seq![
            ("Authorization"@, "DeepL-Auth-Key "@ + api_key@),
        ]);
        HttpRequest {
            method: Method::Post,
            url,
            query: no_pairs(),
            headers,
            bearer: None,
            body: Body::Form(form),
            timeout_secs: self.timeout_secs,
        }
    }
}

impl Translator for DeepLTranslate {
    open spec fn planned(&self, req: translate::RequestView) -> translate::PlanView {
        match self.mode {
            ProviderMode::Public => translate::PlanView::UseSession(self.name@),
            ProviderMode::Private => match self.api_key {
                Some(key) => translate::PlanView::Send(
                    http::HttpView {
                        method: Method::Post,
                        url: private_url(key@),
                        query: Seq::<(Seq<char>, Seq<char>)>::empty(),
                        headers: seq![("Authorization"@, "DeepL-Auth-Key "@ + key@)],
                        bearer: None,
                        body: http::BodyView::Form(private_form(req)),
                        timeout_secs: self.timeout_secs,
                    },
                ),
                None => translate::PlanView::Refuse(
                    http::plain(
                        "DeepL Translator in private mode requires api_key or api_key_env (or set mode: public to use the free endpoint instead)"@,
                    ),
                ),
            },
        }
    }

    open spec fn translation(&self, x: http::ExchangeView) -> Result<
        Seq<char>,
        http::FailureView,
    > {
        match self.mode {
            ProviderMode::Public => public_outcome(x),
            ProviderMode::Private => match http::accepted(
                x,
                "request to DeepL Translator failed"@,
                "DeepL Translator"@,
            ) {
                Ok(reply) => http::listed(
                    reply,
                    "unexpected response shape from DeepL Translator"@,
                ),
                Err(f) => Err(f),
            },
        }
    }

    fn plan(&self, req: &TranslateRequest) -> (r: Plan) {
        match self.mode {
            ProviderMode::Public => Plan::UseSession(self.name.clone()),
            ProviderMode::Private => match &self.api_key {
                Some(key) => Plan::Send(self.private_request(req, key.as_str())),
                None => Plan::Refuse(
                    Failure::new(
                        "DeepL Translator in private mode requires api_key or api_key_env (or set mode: public to use the free endpoint instead)",
                    ),
                ),
            },
        }
    }

    fn translate(&self, x: &Exchange) -> (r: Result<String, Failure>) {
        match self.mode {
            ProviderMode::Public => read_public(x),
            ProviderMode::Private => match accept(
                x,
                "request to DeepL Translator failed",
                "DeepL Translator",
            ) {
                Ok(reply) => listed_translation(
                    reply,
                    "unexpected response shape from DeepL Translator",
                ),
                Err(f) => Err(f),
            },
        }
    }
}

// ---------------------------------------------------------------------
// What is sent, and what the answers mean
// ---------------------------------------------------------------------

/// Languages are named in capitals; `auto` stays as it is, and simplified
/// Chinese is plain Chinese.
pub proof fn law_language_names(lang: &str, r: String)
    requires
        call_ensures(fix_language, (lang,), r),
    ensures
        lang@ == "auto"@ ==> r@ == "auto"@,
        lang@ == "zh-Hans"@ || lang@ == "zh-CN"@ ==> r@ == "ZH"@,
        lang@ != "auto"@ && lang@ != "zh-Hans"@ && lang@ != "zh-CN"@ ==> {
            &&& r@ == letter_case::uppercase(lang@)
            &&& (forall|i: int| 0 <= i < lang@.len() ==> #[trigger] lang@[i] <= '\u{7f}') ==> {
                &&& r@.len() == lang@.len()
                &&& forall|i: int|
                    0 <= i < lang@.len() ==> #[trigger] r@[i] == (if 'a' <= lang@[i] <= 'z' {
                        (lang@[i] as int - 32) as char
                    } else {
                        lang@[i]
                    })
            }
        },
{
    reveal_strlit("auto");
    reveal_strlit("zh-Hans");
    reveal_strlit("zh-CN");
    assert("auto"@.len() == 4 && "zh-Hans"@.len() == 7 && "zh-CN"@.len() == 5);
}

proof fn lemma_count_by_filter(s: Seq<char>)
    ensures
        count_i(s) == s.filter(|c: char| c == 'i').len(),
    decreases s.len(),
{
    reveal(Seq::filter);
    if s.len() > 0 {
        lemma_count_by_filter(s.drop_last());
    }
}

/// The time that is sent with a text lies after the current one, is a
/// multiple of the number of letters `i` in the text, or of one where it has
/// none, and is the first such time.
pub proof fn law_sent_time(now_millis: i64, text: &str, r: i64)
    requires
        0 <= now_millis,
        call_ensures(massaged_timestamp, (now_millis, text), r),
    ensures
        ({
            let letters = text@.filter(|c: char| c == 'i').len() as int;
            let step = if letters > 0 { letters } else { 1 };
            &&& r as int % step == 0
            &&& now_millis < r <= now_millis + step
        }),
{
    lemma_count_by_filter(text@);
    law_timestamp_is_next_multiple(now_millis as int, text@);
}

/// What a translation is asked with: the text as one sentence, the languages
/// as the page names them, the time, and the session's next number. The
/// source language is not among the preferred ones where the page is to find
/// it out.
pub proof fn law_translation_request(
    s: &mut DeepLSession,
    now_millis: i64,
    req: &TranslateRequest,
    q: HttpRequest,
    source: String,
    target: String,
    time: i64,
)
    requires
        old(s).id < i64::MAX,
        call_ensures(DeepLSession::ask, (s, now_millis, req), q),
        call_ensures(fix_language, (req.source_lang,), source),
        call_ensures(fix_language, (req.target_lang,), target),
        call_ensures(massaged_timestamp, (now_millis, req.text), time),
    ensures
        final(s).id == old(s).id + 1,
        final(s).counter == old(s).counter,
        final(s).timeout_secs == old(s).timeout_secs,
        q.method == Method::Post,
        q.url@ == "https://www2.deepl.com/jsonrpc"@,
        q.timeout_secs == old(s).timeout_secs,
        q.body@ == http::BodyView::Json(
            json::JsonView::Object(
                seq![
                    ("jsonrpc"@, json::JsonView::Text("2.0"@)),
                    ("method"@, json::JsonView::Text("LMT_handle_jobs"@)),
                    (
                        "params"@,
                        json::JsonView::Object(
                            seq![
                                (
                                    "jobs"@,
                                    json::JsonView::Array(
                                        seq![
                                            json::JsonView::Object(
                                                seq![
                                                    ("kind"@, json::JsonView::Text("default"@)),
                                                    (
                                                        "preferred_num_beams"@,
                                                        json::JsonView::Int(1),
                                                    ),
                                                    (
                                                        "raw_en_sentence"@,
                                                        json::JsonView::Text(req.text@),
                                                    ),
                                                    (
                                                        "raw_en_context_before"@,
                                                        json::JsonView::Array(
                                                            Seq::<json::JsonView>::empty(),
                                                        ),
                                                    ),
                                                    (
                                                        "raw_en_context_after"@,
                                                        json::JsonView::Array(
                                                            Seq::<json::JsonView>::empty(),
                                                        ),
                                                    ),
                                                ],
                                            ),
                                        ],
                                    ),
                                ),
                                (
                                    "lang"@,
                                    json::JsonView::Object(
                                        seq![
                                            (
                                                "user_preferred_langs"@,
                                                json::JsonView::Array(
                                                    if source@ == "auto"@ {
                                                        seq![json::JsonView::Text(target@)]
                                                    } else {
                                                        seq![
                                                            json::JsonView::Text(target@),
                                                            json::JsonView::Text(source@),
                                                        ]
                                                    },
                                                ),
                                            ),
                                            (
                                                "source_lang_user_selected"@,
                                                json::JsonView::Text(source@),
                                            ),
                                            ("target_lang"@, json::JsonView::Text(target@)),
                                        ],
                                    ),
                                ),
                                ("priority"@, json::JsonView::Int(-1)),
                                ("timestamp"@, json::JsonView::Int(time as int)),
                            ],
                        ),
                    ),
                    ("id"@, json::JsonView::Int(old(s).id + 1)),
                ],
            ),
        ),
{
}

/// The text at the place where the page's endpoint puts translations is the
/// translation, as it stands there; a reply without one is reported.
pub proof fn law_sentence(value: &serde_json::Value, r: Result<String, Failure>)
    requires
        call_ensures(sentence_of, (value,), r),
    ensures
        ({
            let found = json::pointed(
                json::document(*value),
                "/result/translations/0/beams/0/postprocessed_sentence"@,
            );
            &&& found matches Some(json::Document::Text(s)) ==> (r matches Ok(t) && t@ == s)
            &&& !(found is Some && found->0 is Text) ==> (r matches Err(f) && f.cause is None
                && f.message@
                == "unexpected response shape from the public DeepL Translator endpoint"@)
        }),
{
}

/// A reply's body is read as JSON, and the translation taken from what was
/// read; what the reader complains of is reported.
pub proof fn law_body_is_read_as_json(
    body: &str,
    r: Result<String, Failure>,
    value: &serde_json::Value,
    q: Result<String, Failure>,
)
    requires
        call_ensures(parse_response, (body,), r),
        call_ensures(sentence_of, (value,), q),
    ensures
        json::json_reading(body@) == Ok::<json::Document, Seq<char>>(json::document(*value))
            ==> http::said(r) == http::said(q),
        json::json_reading(body@) matches Err(e) ==> (r matches Err(f) && f.message@
            == "unexpected response from the public DeepL Translator endpoint"@ && text::opt_text(
            f.cause,
        ) == Some(e)),
{
}

/// How a session ends a translation: with the translation in the body of a
/// reply that succeeded, and with a report of any other. Only a session that
/// asked too often is due again.
pub proof fn law_session_ends(
    s: &mut DeepLSession,
    x: &Exchange,
    nanos: u32,
    r: Result<String, Failure>,
    body: &str,
    parsed: Result<String, Failure>,
)
    requires
        old(s).wf(),
        call_ensures(DeepLSession::finish, (s, x, nanos), r),
        call_ensures(parse_response, (body,), parsed),
    ensures
        final(s).id == old(s).id,
        final(s).timeout_secs == old(s).timeout_secs,
        *x matches Exchange::Answered(a) ==> {
            &&& 200 <= a.status < 300 && body@ == a.body@ ==> http::said(r) == http::said(parsed)
            &&& !(200 <= a.status < 300) ==> r is Err
            &&& a.status != 429 && !(200 <= a.status < 300) ==> r->Err_0.message@
                == "public DeepL Translator endpoint"@ + " returned HTTP "@ + a.status_line@ + ": "@
                + a.body@
            &&& a.status == 429 ==> r->Err_0.message@
                == "public DeepL Translator endpoint returned HTTP 429 (rate-limited); session reset for next attempt: "@
                + a.body@
            &&& a.status == 429 ==> final(s).counter.count == 0
            &&& a.status != 429 ==> final(s).counter == old(s).counter
        },
        !(*x is Answered) ==> final(s).counter == old(s).counter,
        *x matches Exchange::NotSent(e) ==> (r matches Err(f) && f.message@
            == "request to the public DeepL Translator endpoint failed"@ && text::opt_text(f.cause)
            == Some(e@)),
        *x matches Exchange::NoClient(e) ==> (r matches Err(f) && f.message@
            == "failed to build an HTTP client for DeepL Translator"@ && text::opt_text(f.cause)
            == Some(e@)),
{
}

/// What a session does on each event. A translation begins with the web page
/// where the session is due, and is asked for at once where it is not; the
/// page is followed by the client's state, and that by the translation. A
/// step that failed is reported, and the session is due again.
pub proof fn law_session_steps(
    s: &mut DeepLSession,
    event: &SessionEvent,
    req: &TranslateRequest,
    now_millis: i64,
    nanos: u32,
    action: SessionAction,
)
    requires
        old(s).wf(),
        old(s).id < i64::MAX,
        call_ensures(DeepLSession::advance, (s, event, req, now_millis, nanos), action),
    ensures
        final(s).timeout_secs == old(s).timeout_secs,
        *event is Begun && (old(s).counter.count == 0 || old(s).counter.count
            >= old(s).counter.reset_after) ==> {
            &&& action matches SessionAction::LoadPage(q) && q.method == Method::Get && q.url@
                == "https://www.deepl.com/translator"@ && q.body is Empty
            &&& final(s).counter.count == 1
            &&& final(s).id == old(s).id
        },
        *event is Begun && !(old(s).counter.count == 0 || old(s).counter.count
            >= old(s).counter.reset_after) ==> {
            &&& action is AskTranslation
            &&& final(s).counter.count == old(s).counter.count + 1
            &&& final(s).counter.reset_after == old(s).counter.reset_after
            &&& final(s).id == old(s).id + 1
        },
        *event matches SessionEvent::PageLoaded(page) ==> (match page {
            Ok(_) => {
                &&& action matches SessionAction::AskState(q) && q.method == Method::Post && q.url@
                    == "https://w.deepl.com/web?request_type=jsonrpc&il=en&method=getClientState"@
                &&& final(s).id == old(s).id + 1
                &&& final(s).counter == old(s).counter
            },
            Err(e) => {
                &&& action matches SessionAction::Over(Err(f)) && f.message@
                    == "failed to load deepl.com/translator to prime a session"@ && text::opt_text(
                    f.cause,
                ) == Some(e@)
                &&& final(s).id == old(s).id
                &&& final(s).counter.count == 0
            },
        }),
        *event matches SessionEvent::StateKnown(state) ==> (match state {
            Ok(_) => {
                &&& action is AskTranslation
                &&& final(s).id == old(s).id + 1
                &&& final(s).counter == old(s).counter
            },
            Err(e) => {
                &&& action matches SessionAction::Over(Err(f)) && f.message@
                    == "DeepL getClientState setup call failed"@ && text::opt_text(f.cause) == Some(
                    e@,
                )
                &&& final(s).id == old(s).id
                &&& final(s).counter.count == 0
            },
        }),
        *event is Answered ==> {
            &&& action is Over
            &&& final(s).id == old(s).id
        },
{
}

/// What is asked for and how an event ends are the same whether a session is
/// taken step by step or as a whole.
pub proof fn law_session_asks_and_ends(
    s: &mut DeepLSession,
    event: &SessionEvent,
    req: &TranslateRequest,
    now_millis: i64,
    nanos: u32,
    action: SessionAction,
    t: &mut DeepLSession,
    q: HttpRequest,
    x: &Exchange,
    ended: Result<String, Failure>,
    u: &mut DeepLSession,
)
    requires
        old(s).wf(),
        call_ensures(DeepLSession::advance, (s, event, req, now_millis, nanos), action),
        old(t).id == old(s).id,
        old(t).timeout_secs == old(s).timeout_secs,
        call_ensures(DeepLSession::ask, (t, now_millis, req), q),
        call_ensures(DeepLSession::finish, (u, x, nanos), ended),
    ensures
        action matches SessionAction::AskTranslation(a) ==> a@ == q@,
        *event matches SessionEvent::Answered(y) ==> (y@ == x@ ==> (action matches
            SessionAction::Over(r) && http::said(r) == http::said(ended))),
{
}

/// What the official interface is sent, and that the web page is asked
/// through the provider's own session. A key that ends in `:fx` goes to the
/// free host. The source language goes along once, and not at all where the
/// service is to find it out.
pub proof fn law_request(t: &DeepLTranslate, req: &TranslateRequest, plan: Plan, front: Seq<char>)
    requires
        call_ensures(DeepLTranslate::plan, (t, req), plan),
    ensures
        t.mode == ProviderMode::Public ==> (plan matches Plan::UseSession(name) && name@ == t.name@),
        t.mode == ProviderMode::Private && t.api_key is None ==> plan is Refuse,
        t.mode == ProviderMode::Private ==> (t.api_key matches Some(key) ==> (plan matches
            Plan::Send(q) && {
            &&& q.method == Method::Post
            &&& key@ == front + ":fx"@ ==> q.url@ == "https://api-free.deepl.com"@
                + "/v2/translate"@
            &&& (forall|f: Seq<char>| key@ != #[trigger] (f + ":fx"@)) ==> q.url@
                == "https://api.deepl.com"@ + "/v2/translate"@
            &&& q.query@.len() == 0
            &&& q.headers@.len() == 1
            &&& q.headers@[0].0@ == "Authorization"@
            &&& q.headers@[0].1@ == "DeepL-Auth-Key "@ + key@
            &&& q.timeout_secs == t.timeout_secs
            &&& q.body matches Body::Form(form) && text::pairs(form@) == (if req.source_lang@
                == "auto"@ {
                seq![("text"@, req.text@), ("target_lang"@, req.target_lang@)]
            } else {
                seq![
                    ("text"@, req.text@),
                    ("target_lang"@, req.target_lang@),
                    ("source_lang"@, req.source_lang@),
                ]
            })
        })),
{
    if let Plan::Send(q) = plan {
        if let Some(key) = t.api_key {
            assert(text::pairs(q.query@).len() == q.query@.len());
            assert(text::pairs(q.headers@).len() == q.headers@.len());
            assert(text::pairs(q.headers@)[0] == (q.headers@[0].0@, q.headers@[0].1@));
            assert(q.body@ == http::BodyView::Form(private_form(req@)));
            if req.source_lang@ != "auto"@ {
                assert(private_form(req@) =~= seq![
                    ("text"@, req.text@),
                    ("target_lang"@, req.target_lang@),
                    ("source_lang"@, req.source_lang@),
                ]);
            }
            if key@ == front + ":fx"@ {
                assert(key@.skip(key@.len() - ":fx"@.len()) == ":fx"@);
            }
            if text::has_suffix(key@, ":fx"@) {
                assert(key@ == key@.take(key@.len() - ":fx"@.len()) + ":fx"@);
            }
        }
    }
}

/// What an answer of the official interface means: the first text of the
/// first list. A refusal is reported with its status and body, and what did
/// not get that far with its reason.
pub proof fn law_answer(t: &DeepLTranslate, x: &Exchange, r: Result<String, Failure>)
    requires
        call_ensures(DeepLTranslate::translate, (t, x), r),
        t.mode == ProviderMode::Private,
    ensures
        *x matches Exchange::Answered(a) ==> {
            &&& 200 <= a.status < 300 ==> (match a.lists {
                Ok(l) => r is Ok && (if l@.len() > 0 && l@[0]@.len() > 0 {
                    r->Ok_0@ == l@[0]@[0]@
                } else {
                    r->Ok_0@.len() == 0
                }),
                Err(e) => r matches Err(f) && f@ == http::caused(
                    "unexpected response shape from DeepL Translator"@,
                    e@,
                ),
            })
            &&& !(200 <= a.status < 300) ==> (r matches Err(f) && f.cause is None && f.message@
                == "DeepL Translator"@ + " returned HTTP "@ + a.status_line@ + ": "@ + a.body@)
        },
        *x matches Exchange::NotSent(e) ==> (r matches Err(f) && text::opt_text(f.cause) == Some(
            e@,
        )),
        *x matches Exchange::NoClient(e) ==> (r matches Err(f) && f@ == http::plain(e@)),
{
    if let Exchange::Answered(a) = *x {
        http::lemma_first_text(a);
    }
}

/// The time that is sent with a text before the epoch is a multiple of the
/// step too.
pub proof fn law_sent_time_before_the_epoch(now_millis: i64, text: &str, r: i64)
    requires
        now_millis < 0,
        call_ensures(massaged_timestamp, (now_millis, text), r),
    ensures
        ({
            let letters = text@.filter(|c: char| c == 'i').len() as int;
            let step = if letters > 0 { letters } else { 1 };
            &&& r as int % step == 0
            &&& step <= r - now_millis < 2 * step
        }),
{
    lemma_count_by_filter(text@);
    let n: int = time_step(text@);
    let a: int = -(now_millis as int);
    vstd::arithmetic::div_mod::lemma_fundamental_div_mod(a, n);
    assert(0 <= a % n < n) by (nonlinear_arith)
        requires
            n > 0,
    ;
    assert(-a + n + a % n == (1 - a / n) * n) by (nonlinear_arith)
        requires
            a == n * (a / n) + a % n,
    ;
    vstd::arithmetic::div_mod::lemma_mod_multiples_basic(1 - a / n, n);
}

/// A new session is due at once, has a number of eight digits, and waits for
/// answers as long as it is told to.
pub proof fn law_new_session(
    timeout_secs: u64,
    id_nanos: u32,
    counter_nanos: u32,
    s: DeepLSession,
)
    requires
        call_ensures(DeepLSession::new, (timeout_secs, id_nanos, counter_nanos), s),
    ensures
        10_000_000 <= s.id <= 19_999_999,
        id_nanos < 10_000_000 ==> s.id == 10_000_000 + id_nanos,
        s.counter.count == 0,
        75 <= s.counter.reset_after <= 125,
        s.timeout_secs == timeout_secs,
{
}

/// The request that loads the web page.
pub proof fn law_page_request(s: &DeepLSession, q: HttpRequest, agent: Seq<char>)
    requires
        agent
            == "Mozilla/5.0 (Windows NT 10.0; Win64; x64) AppleWebKit/537.36 (KHTML, like Gecko) Chrome/120.0.0.0 Safari/537.36"@,
        call_ensures(DeepLSession::load_page, (s,), q),
    ensures
        q.method == Method::Get,
        q.url@ == "https://www.deepl.com/translator"@,
        text::pairs(q.headers@) == seq![("User-Agent"@, agent)],
        q.query@.len() == 0,
        q.body is Empty,
        q.timeout_secs == s.timeout_secs,
{
    assert(text::pairs(q.query@).len() == q.query@.len());
}

/// The request that asks for the client's state, with the session's next
/// number.
pub proof fn law_state_request(
    s: &mut DeepLSession,
    page: &Result<(), String>,
    nanos: u32,
    q: HttpRequest,
    agent: Seq<char>,
)
    requires
        agent
            == "Mozilla/5.0 (Windows NT 10.0; Win64; x64) AppleWebKit/537.36 (KHTML, like Gecko) Chrome/120.0.0.0 Safari/537.36"@,
        old(s).id < i64::MAX,
        call_ensures(
            DeepLSession::page_loaded,
            (s, page, nanos),
            Ok::<HttpRequest, Failure>(q),
        ),
    ensures
        q.method == Method::Post,
        q.url@ == "https://w.deepl.com/web?request_type=jsonrpc&il=en&method=getClientState"@,
        text::pairs(q.headers@) == seq![
            ("User-Agent"@, agent),
            ("Content-Type"@, "application/json"@),
        ],
        q.query@.len() == 0,
        q.timeout_secs == old(s).timeout_secs,
        q.body@ == http::BodyView::Json(
            json::JsonView::Object(
                seq![
                    ("jsonrpc"@, json::JsonView::Text("2.0"@)),
                    ("method"@, json::JsonView::Text("getClientState"@)),
                    (
                        "params"@,
                        json::JsonView::Object(seq![("v"@, json::JsonView::Text("20180814"@))]),
                    ),
                    ("id"@, json::JsonView::Int(old(s).id + 1)),
                ],
            ),
        ),
{
    assert(text::pairs(q.query@).len() == q.query@.len());
}

/// The headers that go with the request for a translation.
pub proof fn law_translation_headers(
    s: &mut DeepLSession,
    now_millis: i64,
    req: &TranslateRequest,
    q: HttpRequest,
    agent: Seq<char>,
)
    requires
        agent
            == "Mozilla/5.0 (Windows NT 10.0; Win64; x64) AppleWebKit/537.36 (KHTML, like Gecko) Chrome/120.0.0.0 Safari/537.36"@,
        call_ensures(DeepLSession::ask, (s, now_millis, req), q),
    ensures
        text::pairs(q.headers@) == seq![
            ("User-Agent"@, agent),
            ("Content-Type"@, "application/json"@),
            ("Referer"@, "https://www.deepl.com/translator"@),
            ("Origin"@, "https://www.deepl.com"@),
        ],
        q.query@.len() == 0,
{
    assert(text::pairs(q.query@).len() == q.query@.len());
}

/// A translation that begins is counted; a session that is due is set up
/// first.
pub proof fn law_beginning(s: &mut DeepLSession, nanos: u32, step: SessionStep)
    requires
        old(s).wf(),
        call_ensures(DeepLSession::begin, (s, nanos), step),
    ensures
        step == SessionStep::SetUp <==> old(s).counter.count == 0 || old(s).counter.count
            >= old(s).counter.reset_after,
        step == SessionStep::SetUp ==> final(s).counter.count == 1,
        step == SessionStep::Translate ==> final(s).counter.count == old(s).counter.count + 1
            && final(s).counter.reset_after == old(s).counter.reset_after,
        final(s).id == old(s).id,
        final(s).timeout_secs == old(s).timeout_secs,
{
}

/// A page that could not be got is reported, and the session is then due;
/// else the session goes on with its next number.
pub proof fn law_page_loaded(
    s: &mut DeepLSession,
    page: &Result<(), String>,
    nanos: u32,
    r: Result<HttpRequest, Failure>,
)
    requires
        old(s).wf(),
        *page is Ok ==> old(s).id < i64::MAX,
        call_ensures(DeepLSession::page_loaded, (s, page, nanos), r),
    ensures
        *page is Ok ==> r is Ok && final(s).id == old(s).id + 1 && final(s).counter
            == old(s).counter,
        *page matches Err(e) ==> final(s).counter.count == 0 && final(s).id == old(s).id && (
        r matches Err(f) && f.message@ == "failed to load deepl.com/translator to prime a session"@
            && text::opt_text(f.cause) == Some(e@)),
{
}

/// A client state that could not be got is reported, and the session is then
/// due; else the session stays as it is.
pub proof fn law_client_state(
    s: &mut DeepLSession,
    state: &Result<(), String>,
    nanos: u32,
    r: Result<(), Failure>,
)
    requires
        old(s).wf(),
        call_ensures(DeepLSession::client_state_known, (s, state, nanos), r),
    ensures
        *state is Ok ==> r is Ok && final(s).counter == old(s).counter,
        *state matches Err(e) ==> final(s).counter.count == 0 && (r matches Err(f) && f.message@
            == "DeepL getClientState setup call failed"@ && text::opt_text(f.cause) == Some(e@)),
        final(s).id == old(s).id,
{
}

} // verus!
