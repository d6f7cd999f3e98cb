//! Servers with an OpenAI style chat completions endpoint: LM Studio,
//! Ollama, OpenAI itself, DeepSeek and most other language model servers.

use crate::http;
use crate::http::{accept, listed_translation, no_pairs, Body, Exchange, Failure, HttpRequest, Method};
use crate::json;
use crate::json::{array_of, object_of, put, text_value, Json};
use crate::text;
use crate::text::{clone_opt, trim, trim_trailing};
use crate::translate;
use crate::translate::{render_prompt, Plan, TranslateRequest, Translator};
use vstd::prelude::*;

verus! {

#[derive(Debug)]
pub struct OpenAiCompatible {
    pub base_url: String,
    pub api_key: Option<String>,
    pub model: String,
    pub system_prompt: String,
    pub user_prompt_template: String,
    pub timeout_secs: u64,
}

/// The address of the chat completions endpoint.
pub open spec fn chat_url(base_url: Seq<char>) -> Seq<char> {
    text::without_trailing(base_url, '/') + "/chat/completions"@
}

/// One message of a chat.
pub open spec fn message(role: Seq<char>, content: Seq<char>) -> json::JsonView {
    json::JsonView::Object(
        seq![
            ("role"@, json::JsonView::Text(role)),
            ("content"@, json::JsonView::Text(content)),
        ],
    )
}

/// A chat of a system and a user message.
pub open spec fn chat(model: Seq<char>, system: Seq<char>, user: Seq<char>) -> json::JsonView {
    json::JsonView::Object(
        seq![
            ("model"@, json::JsonView::Text(model)),
            (
                "messages"@,
                json::JsonView::Array(seq![message("system"@, system), message("user"@, user)]),
            ),
            ("temperature"@, json::JsonView::Decimal("0.2"@)),
        ],
    )
}

fn chat_message(role: &str, content: &str) -> (r: Json)
    ensures
        r@ == message(role@, content@),
{
    let mut members: Vec<(String, Json)> = Vec::new();
    put(&mut members, "role", text_value(role));
    put(&mut members, "content", text_value(content));
    assert(json::members_view(members@) =~= message(role@, content@)->Object_0);
    object_of(members)
}

fn chat_body(model: &str, system: &str, user: &str) -> (r: Json)
    ensures
        r@ == chat(model@, system@, user@),
{
    let mut messages: Vec<Json> = Vec::new();
    messages.push(chat_message("system", system));
    messages.push(chat_message("user", user));
    let mut members: Vec<(String, Json)> = Vec::new();
    assert(messages@.map_values(|j: Json| j@) =~= seq![
        message("system"@, system@),
        message("user"@, user@),
    ]);
    put(&mut members, "model", text_value(model));
    put(&mut members, "messages", array_of(messages));
    put(&mut members, "temperature", Json::Decimal("0.2".to_owned()));
    assert(json::members_view(members@) =~= chat(model@, system@, user@)->Object_0);
    object_of(members)
}

/// What is reported of a server that did not answer.
pub open spec fn no_answer(base_url: Seq<char>) -> Seq<char> {
    "request to "@ + chat_url(base_url) + " failed (is the server running?)"@
}

impl OpenAiCompatible {
    fn url(&self) -> (r: String)
        ensures
            r@ == chat_url(self.base_url@),
    {
        let mut r = trim_trailing(self.base_url.as_str(), '/');
        r.append("/chat/completions");
        r
    }
}

impl Translator for OpenAiCompatible {
    open spec fn planned(&self, req: translate::RequestView) -> translate::PlanView {
        translate::PlanView::Send(
            http::HttpView {
                method: Method::Post,
                url: chat_url(self.base_url@),
                query: Seq::<(Seq<char>, Seq<char>)>::empty(),
                headers: Seq::<(Seq<char>, Seq<char>)>::empty(),
                bearer: text::opt_text(self.api_key),
                body: http::BodyView::Json(
                    chat(
                        self.model@,
                        self.system_prompt@,
                        translate::prompt_for(self.user_prompt_template@, req),
                    ),
                ),
                timeout_secs: self.timeout_secs,
            },
        )
    }

    open spec fn translation(&self, x: http::ExchangeView) -> Result<
        Seq<char>,
        http::FailureView,
    > {
        match http::accepted(x, no_answer(self.base_url@), "LLM provider"@) {
            Ok(reply) => match http::listed(
                reply,
                "unexpected response shape from LLM provider"@,
            ) {
                Ok(content) => Ok(text::trimmed(content)),
                Err(f) => Err(f),
            },
            Err(f) => Err(f),
        }
    }

    fn plan(&self, req: &TranslateRequest) -> (r: Plan) {
        let user_content = render_prompt(self.user_prompt_template.as_str(), req);
        Plan::Send(
            HttpRequest {
                method: Method::Post,
                url: self.url(),
                query: no_pairs(),
                headers: no_pairs(),
                bearer: clone_opt(&self.api_key),
                body: Body::Json(
                    chat_body(
                        self.model.as_str(),
                        self.system_prompt.as_str(),
                        user_content.as_str(),
                    ),
                ),
                timeout_secs: self.timeout_secs,
            },
        )
    }

    fn translate(&self, x: &Exchange) -> (r: Result<String, Failure>) {
        let url = self.url();
        let mut not_sent = "request to ".to_owned();
        not_sent.append(url.as_str());
        not_sent.append(" failed (is the server running?)");
        match accept(x, not_sent.as_str(), "LLM provider") {
            Ok(reply) => match listed_translation(
                reply,
                "unexpected response shape from LLM provider",
            ) {
                Ok(content) => Ok(trim(content.as_str())),
                Err(f) => Err(f),
            },
            Err(f) => Err(f),
        }
    }
}

/// What is sent: a chat of the system prompt and the filled template, to the
/// model and the server of the settings. Slashes at the end of the address
/// make no difference.
pub proof fn law_request(
    t: &OpenAiCompatible,
    req: &TranslateRequest,
    plan: Plan,
    base: Seq<char>,
    template: &str,
    filled: String,
)
    requires
        call_ensures(OpenAiCompatible::plan, (t, req), plan),
        base.len() <= t.base_url@.len(),
        base == t.base_url@.take(base.len() as int),
        forall|i: int| base.len() <= i < t.base_url@.len() ==> #[trigger] t.base_url@[i] == '/',
        base.len() > 0 ==> base.last() != '/',
        template@ == t.user_prompt_template@,
        call_ensures(render_prompt, (template, req), filled),
    ensures
        plan matches Plan::Send(q) && {
            &&& q.method == Method::Post
            &&& q.url@ == base + "/chat/completions"@
            &&& q.query@.len() == 0
            &&& q.headers@.len() == 0
            &&& text::opt_text(q.bearer) == text::opt_text(t.api_key)
            &&& q.timeout_secs == t.timeout_secs
            &&& q.body@ == http::BodyView::Json(
                json::JsonView::Object(
                    seq![
                        ("model"@, json::JsonView::Text(t.model@)),
                        (
                            "messages"@,
                            json::JsonView::Array(
                                seq![
                                    json::JsonView::Object(
                                        seq![
                                            ("role"@, json::JsonView::Text("system"@)),
                                            ("content"@, json::JsonView::Text(t.system_prompt@)),
                                        ],
                                    ),
                                    json::JsonView::Object(
                                        seq![
                                            ("role"@, json::JsonView::Text("user"@)),
                                            ("content"@, json::JsonView::Text(filled@)),
                                        ],
                                    ),
                                ],
                            ),
                        ),
                        ("temperature"@, json::JsonView::Decimal("0.2"@)),
                    ],
                ),
            )
        },
{
    lemma_base(t.base_url@, base);
    if let Plan::Send(q) = plan {
        assert(text::pairs(q.query@).len() == q.query@.len());
        assert(text::pairs(q.headers@).len() == q.headers@.len());
    }
}

proof fn lemma_base(url: Seq<char>, base: Seq<char>)
    requires
        base.len() <= url.len(),
        base == url.take(base.len() as int),
        forall|i: int| base.len() <= i < url.len() ==> #[trigger] url[i] == '/',
        base.len() > 0 ==> base.last() != '/',
    ensures
        text::without_trailing(url, '/') == base,
    decreases url.len(),
{
    if base.len() < url.len() {
        let shorter = url.drop_last();
        assert(url.last() == url[url.len() - 1]);
        assert(shorter.take(base.len() as int) == url.take(base.len() as int));
        assert forall|i: int| base.len() <= i < shorter.len() implies #[trigger] shorter[i]
            == '/' by {
            assert(shorter[i] == url[i]);
        }
        lemma_base(shorter, base);
    } else {
        assert(url.take(url.len() as int) == url);
    }
}

/// What an answer means: the first text of the first list, without the white
/// space around it. A refusal is reported with its status and body, and a
/// server that did not answer with its address.
pub proof fn law_answer(
    t: &OpenAiCompatible,
    x: &Exchange,
    r: Result<String, Failure>,
    content: &str,
    trimmed: String,
    req: &TranslateRequest,
    q: HttpRequest,
)
    requires
        call_ensures(OpenAiCompatible::translate, (t, x), r),
        call_ensures(trim, (content,), trimmed),
        call_ensures(OpenAiCompatible::plan, (t, req), Plan::Send(q)),
    ensures
        *x matches Exchange::Answered(a) ==> {
            &&& 200 <= a.status < 300 ==> (match a.lists {
                Ok(l) => r is Ok && (if l@.len() > 0 && l@[0]@.len() > 0 {
                    content@ == l@[0]@[0]@ ==> r->Ok_0@ == trimmed@
                } else {
                    r->Ok_0@.len() == 0
                }),
                Err(e) => r matches Err(f) && f@ == http::caused(
                    "unexpected response shape from LLM provider"@,
                    e@,
                ),
            })
            &&& !(200 <= a.status < 300) ==> (r matches Err(f) && f.cause is None && f.message@
                == "LLM provider"@ + " returned HTTP "@ + a.status_line@ + ": "@ + a.body@)
        },
        *x matches Exchange::NotSent(e) ==> (r matches Err(f) && f.message@ == "request to "@
            + q.url@ + " failed (is the server running?)"@ && text::opt_text(f.cause) == Some(e@)),
        *x matches Exchange::NoClient(e) ==> (r matches Err(f) && f@ == http::plain(e@)),
{
    if let Exchange::Answered(a) = *x {
        http::lemma_first_text(a);
    }
}

} // verus!
