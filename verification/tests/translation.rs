use ocr_translate::config::AppConfig;
use ocr_translate::http::{Body, Exchange, Failure, HttpRequest, Method, Reply};
use ocr_translate::json::Json;
use ocr_translate::providers::{ProviderConfig, ProviderKind, ProviderMode};
use ocr_translate::translate::deepl::{
    fix_language, massaged_timestamp, parse_response, sentence_of, DeepLSession, DeepLTranslate,
    SessionAction, SessionEvent, SessionStep,
};
use ocr_translate::translate::fallback::{translate_with_fallback, Next};
use ocr_translate::translate::google::{parse_public_response, translation_in, GoogleTranslate};
use ocr_translate::translate::session::{random_between, SessionCounter};
use ocr_translate::translate::{
    build, build_for, build_named, render_prompt, Plan, Provider, TranslateRequest, Translator,
};

fn request<'a>() -> TranslateRequest<'a> {
    TranslateRequest { text: "hi {text}", source_lang: "auto", target_lang: "de" }
}

fn from_english<'a>() -> TranslateRequest<'a> {
    TranslateRequest { text: "hi", source_lang: "en", target_lang: "de" }
}

fn answered(status: u16, status_line: &str, body: &str, lists: &[&[&str]]) -> Exchange {
    Exchange::Answered(Reply {
        status,
        status_line: status_line.to_string(),
        body: body.to_string(),
        lists: Ok(lists
            .iter()
            .map(|l| l.iter().map(|s| s.to_string()).collect())
            .collect()),
    })
}

fn malformed() -> Exchange {
    Exchange::Answered(Reply {
        status: 200,
        status_line: "200 OK".to_string(),
        body: "x".to_string(),
        lists: Err("expected value".to_string()),
    })
}

fn sent(p: Plan) -> HttpRequest {
    match p {
        Plan::Send(r) => r,
        other => panic!("{other:?}"),
    }
}

fn refused(p: Plan) -> String {
    match p {
        Plan::Refuse(f) => f.one_line(),
        other => panic!("{other:?}"),
    }
}

fn pairs(v: &[(String, String)]) -> Vec<String> {
    v.iter().map(|(a, b)| format!("{a}={b}")).collect()
}

fn value(j: &Json) -> serde_json::Value {
    match j {
        Json::Int(n) => serde_json::Value::from(*n),
        Json::Decimal(s) => serde_json::Value::from(s.parse::<f64>().unwrap()),
        Json::Text(s) => serde_json::Value::from(s.as_str()),
        Json::Array(v) => serde_json::Value::Array(v.iter().map(value).collect()),
        Json::Object(v) => {
            serde_json::Value::Object(v.iter().map(|(k, x)| (k.clone(), value(x))).collect())
        }
    }
}

fn json_body(r: &HttpRequest) -> serde_json::Value {
    match &r.body {
        Body::Json(j) => value(j),
        other => panic!("{other:?}"),
    }
}

fn parsed(s: &str) -> serde_json::Value {
    serde_json::from_str(s).unwrap()
}

fn provider(kind: ProviderKind, mode: ProviderMode, key: Option<&str>) -> ProviderConfig {
    let mut p = ProviderConfig::default();
    p.kind = kind;
    p.mode = mode;
    p.api_key = key.map(|s| s.to_string());
    p.timeout_secs = 7;
    p
}

fn service(kind: ProviderKind, mode: ProviderMode, key: Option<&str>) -> Provider {
    build_for("n", &provider(kind, mode, key), &AppConfig::default(), None).unwrap()
}

#[test]
fn prompt_placeholders_are_filled() {
    assert_eq!(
        render_prompt("{source_lang}>{target_lang}: {text}{text}", &request()),
        "auto>de: hi {text}hi {text}"
    );
    assert_eq!(render_prompt("none", &request()), "none");
    assert_eq!(request().reborrow().text, "hi {text}");
}

#[test]
fn language_model_is_asked() {
    let mut p = provider(ProviderKind::OpenAiCompatible, ProviderMode::Private, Some("k"));
    p.base_url = Some("http://h/v1//".to_string());
    let mut cfg = AppConfig::default();
    cfg.prompt.system = "sys".to_string();
    cfg.prompt.template = "<{text}>".to_string();
    let t = build_for("n", &p, &cfg, None).unwrap();
    let r = sent(t.plan(&request()));
    assert_eq!(r.method, Method::Post);
    assert_eq!(r.url, "http://h/v1/chat/completions");
    assert_eq!(r.bearer.as_deref(), Some("k"));
    assert_eq!(r.timeout_secs, 7);
    assert_eq!(
        json_body(&r),
        parsed(
            "{\"model\":\"gpt-4o-mini\",\"messages\":[{\"role\":\"system\",\"content\":\"sys\"},\
             {\"role\":\"user\",\"content\":\"<hi {text}>\"}],\"temperature\":0.2}"
        )
    );
}

#[test]
fn language_model_answers() {
    let mut p = provider(ProviderKind::OpenAiCompatible, ProviderMode::Private, None);
    p.base_url = Some("http://h".to_string());
    let t = build_for("n", &p, &AppConfig::default(), None).unwrap();
    assert_eq!(t.translate(&answered(200, "200 OK", "", &[&[" hallo\n", "x"]])).unwrap(), "hallo");
    assert_eq!(t.translate(&answered(200, "200 OK", "", &[&[]])).unwrap(), "");
    assert_eq!(t.translate(&answered(299, "299", "", &[])).unwrap(), "");
    let e = t.translate(&answered(404, "404 Not Found", "gone", &[])).unwrap_err();
    assert_eq!(e.one_line(), "LLM provider returned HTTP 404 Not Found: gone");
    let e = t.translate(&Exchange::NotSent("refused".to_string())).unwrap_err();
    assert_eq!(
        e.one_line(),
        "request to http://h/chat/completions failed (is the server running?): refused"
    );
    let e = t.translate(&Exchange::NoClient("tls".to_string())).unwrap_err();
    assert_eq!(e.one_line(), "tls");
    let e = t.translate(&malformed()).unwrap_err();
    assert_eq!(e.one_line(), "unexpected response shape from LLM provider: expected value");
}

#[test]
fn google_without_a_key() {
    let t = service(ProviderKind::GoogleTranslate, ProviderMode::Public, None);
    let r = sent(t.plan(&request()));
    assert_eq!(r.method, Method::Get);
    assert_eq!(r.url, "https://translate.googleapis.com/translate_a/single");
    assert_eq!(pairs(&r.query), ["client=gtx", "sl=auto", "tl=de", "dt=t", "q=hi {text}"]);
    let body = "[[[\"ha\",\"hi\"],[1],[\"llo\"],[],\"x\"],null]";
    assert_eq!(t.translate(&answered(200, "200 OK", body, &[])).unwrap(), "hallo");
    let e = t.translate(&answered(429, "429 Too Many Requests", "slow", &[])).unwrap_err();
    assert_eq!(
        e.one_line(),
        "public Google Translate endpoint returned HTTP 429 Too Many Requests: slow"
    );
    let e = t.translate(&Exchange::NotSent("x".to_string())).unwrap_err();
    assert_eq!(e.one_line(), "request to the public Google Translate endpoint failed: x");
}

#[test]
fn google_reply_shapes() {
    let shape = "unexpected response shape from the public Google Translate endpoint";
    for bad in ["{}", "[]", "[1]", "{\"0\":[[\"a\"]]}", "null"] {
        assert_eq!(parse_public_response(bad).unwrap_err().one_line(), shape, "{bad}");
    }
    assert_eq!(parse_public_response("[[]]").unwrap(), "");
    assert_eq!(parse_public_response("[[{\"0\":\"a\"}]]").unwrap(), "");
    let e = parse_public_response("[").unwrap_err();
    assert_eq!(e.message, "unexpected response from the public Google Translate endpoint");
    assert!(e.cause.is_some());
    assert_eq!(translation_in(&parsed("[[[\"a\"],[\"b\"]]]")).unwrap(), "ab");
}

#[test]
fn google_with_a_key() {
    let t = service(ProviderKind::GoogleTranslate, ProviderMode::Private, Some("k"));
    let r = sent(t.plan(&from_english()));
    assert_eq!(r.url, "https://translation.googleapis.com/language/translate/v2");
    assert_eq!(pairs(&r.query), ["key=k"]);
    match &r.body {
        Body::Form(f) => {
            assert_eq!(pairs(f), ["q=hi", "target=de", "format=text", "source=en"])
        }
        other => panic!("{other:?}"),
    }
    match &sent(t.plan(&request())).body {
        Body::Form(f) => assert_eq!(pairs(f).len(), 3),
        other => panic!("{other:?}"),
    }
    assert_eq!(t.translate(&answered(200, "200 OK", "", &[&["a", "b"]])).unwrap(), "a");
    assert_eq!(
        t.translate(&malformed()).unwrap_err().one_line(),
        "unexpected response shape from Google Translate: expected value"
    );
    assert_eq!(
        t.translate(&answered(500, "500 X", "b", &[])).unwrap_err().one_line(),
        "Google Translate returned HTTP 500 X: b"
    );
    let bare = service(ProviderKind::GoogleTranslate, ProviderMode::Private, None);
    assert_eq!(
        refused(bare.plan(&request())),
        "Google Translate in private mode requires api_key or api_key_env (or set mode: public to use the free endpoint instead)"
    );
}

#[test]
fn bing_is_asked() {
    let mut p = provider(ProviderKind::BingTranslate, ProviderMode::Private, Some("k"));
    p.region = Some("west".to_string());
    let t = build_for("n", &p, &AppConfig::default(), None).unwrap();
    let r = sent(t.plan(&from_english()));
    assert_eq!(r.url, "https://api.cognitive.microsofttranslator.com/translate");
    assert_eq!(pairs(&r.query), ["api-version=3.0", "to=de", "from=en"]);
    assert_eq!(
        pairs(&r.headers),
        ["Ocp-Apim-Subscription-Key=k", "Ocp-Apim-Subscription-Region=west"]
    );
    assert_eq!(json_body(&r), parsed("[{\"Text\":\"hi\"}]"));
    assert_eq!(
        t.translate(&answered(200, "200 OK", "", &[&["a"], &["b"]])).unwrap(),
        "a"
    );
    assert_eq!(
        t.translate(&malformed()).unwrap_err().one_line(),
        "unexpected response shape from Bing Translator: expected value"
    );
    assert_eq!(
        t.translate(&Exchange::NotSent("x".to_string())).unwrap_err().one_line(),
        "request to Bing/Azure Translator failed: x"
    );
}

#[test]
fn bing_cannot_be_asked() {
    let public = service(ProviderKind::BingTranslate, ProviderMode::Public, Some("k"));
    assert_eq!(
        refused(public.plan(&request())),
        "Bing/Azure Translator has no reliable free public endpoint (unlike Google); set mode: private with api_key/api_key_env (and region, if needed) instead"
    );
    let bare = service(ProviderKind::BingTranslate, ProviderMode::Private, None);
    assert_eq!(
        refused(bare.plan(&request())),
        "Bing/Azure Translator in private mode requires api_key or api_key_env (or set mode: public to use the free endpoint instead)"
    );
}

#[test]
fn deepl_with_a_key() {
    for (key, host) in [("k:fx", "https://api-free.deepl.com"), ("k", "https://api.deepl.com")] {
        let t = service(ProviderKind::DeepLTranslate, ProviderMode::Private, Some(key));
        let r = sent(t.plan(&from_english()));
        assert_eq!(r.url, format!("{host}/v2/translate"));
        assert_eq!(pairs(&r.headers), [format!("Authorization=DeepL-Auth-Key {key}")]);
        match &r.body {
            Body::Form(f) => {
                assert_eq!(pairs(f), ["text=hi", "target_lang=de", "source_lang=en"])
            }
            other => panic!("{other:?}"),
        }
    }
    let t = service(ProviderKind::DeepLTranslate, ProviderMode::Private, Some("k"));
    assert_eq!(t.translate(&answered(200, "200 OK", "", &[&["a"]])).unwrap(), "a");
    assert_eq!(
        t.translate(&malformed()).unwrap_err().one_line(),
        "unexpected response shape from DeepL Translator: expected value"
    );
    let bare = service(ProviderKind::DeepLTranslate, ProviderMode::Private, None);
    assert_eq!(
        refused(bare.plan(&request())),
        "DeepL Translator in private mode requires api_key or api_key_env (or set mode: public to use the free endpoint instead)"
    );
}

#[test]
fn deepl_languages() {
    assert_eq!(fix_language("auto"), "auto");
    assert_eq!(fix_language("zh-Hans"), "ZH");
    assert_eq!(fix_language("zh-CN"), "ZH");
    assert_eq!(fix_language("pt-br"), "PT-BR");
    assert_eq!(fix_language("ß"), "SS");
}

#[test]
fn deepl_time_is_a_multiple() {
    assert_eq!(massaged_timestamp(1000, ""), 1001);
    assert_eq!(massaged_timestamp(1000, "i"), 1001);
    assert_eq!(massaged_timestamp(1001, "iI"), 1002);
    assert_eq!(massaged_timestamp(1000, "iii"), 1002);
    assert_eq!(massaged_timestamp(1001, "iii"), 1002);
    assert_eq!(massaged_timestamp(1002, "iii"), 1005);
    assert_eq!(massaged_timestamp(-7, "iii"), -3);
    for now in 0..50 {
        for n in 0..6 {
            let text = "i".repeat(n);
            let t = massaged_timestamp(now, &text);
            let step = (n as i64).max(1);
            assert_eq!(t % step, 0);
            assert!(now < t && t <= now + step);
        }
    }
}

#[test]
fn deepl_session() {
    let t = DeepLTranslate {
        name: "d".to_string(),
        mode: ProviderMode::Public,
        api_key: None,
        timeout_secs: 3,
    };
    assert!(matches!(t.plan(&request()), Plan::UseSession(n) if n == "d"));
    let mut s = DeepLSession::new(3, 12_345_678, 0);
    assert_eq!(s.id, 12_345_678);
    assert_eq!(s.begin(0), SessionStep::SetUp);
    let page = s.load_page();
    assert_eq!(page.url, "https://www.deepl.com/translator");
    assert!(page.headers[0].1.starts_with("Mozilla/5.0"));
    let r = s.page_loaded(&Ok(()), 0).unwrap();
    assert_eq!(
        json_body(&r),
        parsed(
            "{\"jsonrpc\":\"2.0\",\"method\":\"getClientState\",\
             \"params\":{\"v\":\"20180814\"},\"id\":12345679}"
        )
    );
    assert!(s.client_state_known(&Ok(()), 0).is_ok());
    let r = s.ask(1000, &from_english());
    assert_eq!(r.url, "https://www2.deepl.com/jsonrpc");
    assert_eq!(
        json_body(&r),
        parsed(
            "{\"jsonrpc\":\"2.0\",\"method\":\"LMT_handle_jobs\",\"params\":{\"jobs\":[{\
             \"kind\":\"default\",\"preferred_num_beams\":1,\"raw_en_sentence\":\"hi\",\
             \"raw_en_context_before\":[],\"raw_en_context_after\":[]}],\"lang\":{\
             \"user_preferred_langs\":[\"DE\",\"EN\"],\"source_lang_user_selected\":\"EN\",\
             \"target_lang\":\"DE\"},\"priority\":-1,\"timestamp\":1001},\"id\":12345680}"
        )
    );
    let r = s.ask(1000, &request());
    assert_eq!(
        json_body(&r).pointer("/params/lang/user_preferred_langs").unwrap(),
        &parsed("[\"DE\"]")
    );
    assert_eq!(s.begin(0), SessionStep::Translate);
}

#[test]
fn deepl_session_failures() {
    let mut s = DeepLSession::new(3, 0, 0);
    s.begin(0);
    assert_eq!(
        s.page_loaded(&Err("404".to_string()), 7).unwrap_err().one_line(),
        "failed to load deepl.com/translator to prime a session: 404"
    );
    assert_eq!((s.counter.count, s.counter.reset_after), (0, 82));
    assert_eq!(s.begin(0), SessionStep::SetUp);
    assert_eq!(
        s.client_state_known(&Err("500".to_string()), 8).unwrap_err().one_line(),
        "DeepL getClientState setup call failed: 500"
    );
    assert_eq!((s.counter.count, s.counter.reset_after), (0, 83));
    assert_eq!(s.begin(0), SessionStep::SetUp);
    let limited = answered(429, "429 Too Many Requests", "slow", &[]);
    assert_eq!(
        s.finish(&limited, 3).unwrap_err().one_line(),
        "public DeepL Translator endpoint returned HTTP 429 (rate-limited); session reset for next attempt: slow"
    );
    assert_eq!(s.begin(0), SessionStep::SetUp);
    assert_eq!(
        s.finish(&answered(500, "500 X", "b", &[]), 0).unwrap_err().one_line(),
        "public DeepL Translator endpoint returned HTTP 500 X: b"
    );
    assert_eq!(s.begin(0), SessionStep::Translate);
    assert_eq!(
        s.finish(&Exchange::NotSent("x".to_string()), 0).unwrap_err().one_line(),
        "request to the public DeepL Translator endpoint failed: x"
    );
    assert_eq!(
        s.finish(&Exchange::NoClient("x".to_string()), 0).unwrap_err().one_line(),
        "failed to build an HTTP client for DeepL Translator: x"
    );
}

#[test]
fn deepl_session_as_a_whole() {
    let mut s = DeepLSession::new(3, 0, 0);
    let req = from_english();
    let page = match s.advance(&SessionEvent::Begun, &req, 1000, 0) {
        SessionAction::LoadPage(q) => q,
        other => panic!("{other:?}"),
    };
    assert_eq!(page.method, Method::Get);
    let state = match s.advance(&SessionEvent::PageLoaded(Ok(())), &req, 1000, 0) {
        SessionAction::AskState(q) => q,
        other => panic!("{other:?}"),
    };
    assert_eq!(json_body(&state).pointer("/id").unwrap(), &parsed("10000001"));
    let ask = match s.advance(&SessionEvent::StateKnown(Ok(())), &req, 1000, 0) {
        SessionAction::AskTranslation(q) => q,
        other => panic!("{other:?}"),
    };
    assert_eq!(json_body(&ask).pointer("/id").unwrap(), &parsed("10000002"));
    let limited = answered(429, "429 Too Many Requests", "", &[]);
    match s.advance(&SessionEvent::Answered(limited), &req, 1000, 0) {
        SessionAction::Over(r) => assert!(r.is_err()),
        other => panic!("{other:?}"),
    }
    assert!(matches!(
        s.advance(&SessionEvent::Begun, &req, 1000, 0),
        SessionAction::LoadPage(_)
    ));
    match s.advance(&SessionEvent::PageLoaded(Err("x".to_string())), &req, 1000, 0) {
        SessionAction::Over(Err(f)) => assert_eq!(
            f.one_line(),
            "failed to load deepl.com/translator to prime a session: x"
        ),
        other => panic!("{other:?}"),
    }
    assert!(matches!(
        s.advance(&SessionEvent::Begun, &req, 1000, 0),
        SessionAction::LoadPage(_)
    ));
    assert!(matches!(
        s.advance(&SessionEvent::PageLoaded(Ok(())), &req, 1000, 0),
        SessionAction::AskState(_)
    ));
    match s.advance(&SessionEvent::StateKnown(Err("x".to_string())), &req, 1000, 0) {
        SessionAction::Over(Err(f)) => {
            assert_eq!(f.one_line(), "DeepL getClientState setup call failed: x")
        }
        other => panic!("{other:?}"),
    }
    assert!(matches!(
        s.advance(&SessionEvent::Begun, &req, 1000, 0),
        SessionAction::LoadPage(_)
    ));
}

#[test]
fn deepl_replies_decide() {
    let good =
        "{\"result\":{\"translations\":[{\"beams\":[{\"postprocessed_sentence\":\"hallo\"}]}]}}";
    let req = from_english();
    let mut s = DeepLSession::new(3, 0, 0);
    let mut last = 0;
    for (status, ready_after) in [(200, true), (500, true), (299, true), (429, false), (200, true)] {
        let mut event = SessionEvent::Begun;
        let result = loop {
            let (q, next) = match s.advance(&event, &req, 1000, 0) {
                SessionAction::LoadPage(_) => {
                    event = SessionEvent::PageLoaded(Ok(()));
                    continue;
                }
                SessionAction::AskState(q) => (q, SessionEvent::StateKnown(Ok(()))),
                SessionAction::AskTranslation(q) => {
                    (q, SessionEvent::Answered(answered(status, "S", good, &[])))
                }
                SessionAction::Over(r) => break r,
            };
            let number = json_body(&q).pointer("/id").unwrap().as_i64().unwrap();
            assert!(number > last);
            last = number;
            event = next;
        };
        match result {
            Ok(t) => assert!((200..300).contains(&status) && t == "hallo"),
            Err(_) => assert!(!(200..300).contains(&status)),
        }
        assert_eq!(s.counter.count > 0, ready_after);
    }
}

#[test]
fn deepl_needs_a_number_only_for_requests() {
    let mut s = DeepLSession::new(3, 0, 0);
    s.id = i64::MAX;
    let req = from_english();
    assert!(matches!(
        s.advance(&SessionEvent::Begun, &req, i64::MAX, 0),
        SessionAction::LoadPage(_)
    ));
    assert!(matches!(
        s.advance(&SessionEvent::PageLoaded(Err("x".to_string())), &req, i64::MAX, 0),
        SessionAction::Over(Err(_))
    ));
}

#[test]
fn deepl_asks_for_nothing_before_it_is_set_up() {
    // The page loads on every third attempt, the state becomes known on every
    // second one of those, and each seventh translation is turned away.
    let mut s = DeepLSession::new(3, 0, 0);
    let req = from_english();
    let (mut pages, mut states, mut asked) = (0, 0, 0);
    let mut ready = false;
    for _ in 0..2000 {
        let mut event = SessionEvent::Begun;
        loop {
            event = match s.advance(&event, &req, 1000, 0) {
                SessionAction::LoadPage(_) => {
                    ready = false;
                    pages += 1;
                    SessionEvent::PageLoaded(if pages % 3 == 0 {
                        Ok(())
                    } else {
                        Err("x".to_string())
                    })
                }
                SessionAction::AskState(_) => {
                    states += 1;
                    ready = states % 2 == 0;
                    SessionEvent::StateKnown(if ready { Ok(()) } else { Err("x".to_string()) })
                }
                SessionAction::AskTranslation(_) => {
                    assert!(ready);
                    asked += 1;
                    if asked % 7 == 0 {
                        ready = false;
                        SessionEvent::Answered(answered(429, "429 X", "", &[]))
                    } else {
                        SessionEvent::Answered(answered(500, "500 X", "", &[]))
                    }
                }
                SessionAction::Over(r) => {
                    assert!(r.is_err());
                    break;
                }
            };
        }
    }
    assert!(asked > 0 && states > asked / 7);
}

#[test]
fn deepl_reply_shapes() {
    let good = "{\"result\":{\"translations\":[{\"beams\":[{\"postprocessed_sentence\":\"hallo\"}]}]}}";
    assert_eq!(parse_response(good).unwrap(), "hallo");
    let mut s = DeepLSession::new(3, 0, 0);
    assert_eq!(s.finish(&answered(200, "200 OK", good, &[]), 0).unwrap(), "hallo");
    let keyed =
        "{\"result\":{\"translations\":{\"0\":{\"beams\":[{\"postprocessed_sentence\":\"x\"}]}}}}";
    assert_eq!(parse_response(keyed).unwrap(), "x");
    for bad in [
        "{}",
        "[]",
        "{\"result\":{\"translations\":[]}}",
        "{\"result\":{\"translations\":[{\"beams\":[{\"postprocessed_sentence\":1}]}]}}",
    ] {
        assert_eq!(
            parse_response(bad).unwrap_err().one_line(),
            "unexpected response shape from the public DeepL Translator endpoint"
        );
    }
    let e = parse_response("").unwrap_err();
    assert_eq!(e.message, "unexpected response from the public DeepL Translator endpoint");
    assert!(sentence_of(&parsed("null")).is_err());
}

#[test]
fn sessions_are_renewed_in_time() {
    assert_eq!(random_between(0, 75, 125), 75);
    assert_eq!(random_between(50, 75, 125), 125);
    assert_eq!(random_between(51, 75, 125), 75);
    let mut c = SessionCounter::new(0);
    assert!(c.tick(5));
    assert_eq!(c.reset_after, 80);
    for _ in 0..79 {
        assert!(!c.tick(50));
    }
    assert!(c.tick(50));
    assert_eq!((c.count, c.reset_after), (1, 125));
}

#[test]
fn services_are_set_up_from_the_configuration() {
    let mut cfg = AppConfig::default();
    match build(&cfg, Some("ignored")).unwrap() {
        Provider::OpenAiCompatible(t) => {
            assert_eq!(t.base_url, "http://localhost:1234/v1");
            assert_eq!(t.model, "local-model");
            assert_eq!(t.api_key, None);
        }
        other => panic!("{other:?}"),
    }
    assert_eq!(
        build_named("x", &cfg, None).unwrap_err().one_line(),
        "provider 'x' not found in config"
    );
    cfg.providers.insert("x".to_string(), ProviderConfig::default());
    assert_eq!(
        build_named("x", &cfg, None).unwrap_err().one_line(),
        "provider is missing base_url"
    );
    let mut p = provider(ProviderKind::DeepLTranslate, ProviderMode::Public, None);
    p.api_key_env = Some("K".to_string());
    cfg.providers.insert("d".to_string(), p);
    match build_named("d", &cfg, Some("secret")).unwrap() {
        Provider::DeepLTranslate(t) => {
            assert_eq!(t.name, "d");
            assert_eq!(t.api_key.as_deref(), Some("secret"));
        }
        other => panic!("{other:?}"),
    }
}

#[test]
fn prompt_goes_to_language_models_only() {
    let p = provider(ProviderKind::GoogleTranslate, ProviderMode::Public, None);
    let mut cfg = AppConfig::default();
    let a = sent(build_for("n", &p, &cfg, None).unwrap().plan(&from_english()));
    cfg.prompt.system = "other".to_string();
    cfg.prompt.template = "other".to_string();
    let b = sent(build_for("n", &p, &cfg, None).unwrap().plan(&from_english()));
    assert_eq!((a.url, a.query), (b.url, b.query));
}

#[test]
fn fallbacks_are_tried_in_order() {
    let mut cfg = AppConfig::default();
    cfg.fallback_providers = vec!["b".to_string(), "c".to_string()];
    let failed = |m: &str| Err(Failure::new(m));
    match translate_with_fallback(&cfg, &vec![]) {
        Next::Try(n) => assert_eq!(n, "lmstudio"),
        other => panic!("{other:?}"),
    }
    match translate_with_fallback(&cfg, &vec![failed("1"), failed("2")]) {
        Next::Try(n) => assert_eq!(n, "c"),
        other => panic!("{other:?}"),
    }
    match translate_with_fallback(&cfg, &vec![failed("1"), Ok("t".to_string())]) {
        Next::Over(Ok(p)) => assert_eq!(p, ("b".to_string(), "t".to_string())),
        other => panic!("{other:?}"),
    }
    match translate_with_fallback(&cfg, &vec![failed("1"), failed("2"), failed("3")]) {
        Next::Over(Err(f)) => assert_eq!(f.one_line(), "3"),
        other => panic!("{other:?}"),
    }
}

#[test]
fn services_by_themselves() {
    let g = GoogleTranslate { mode: ProviderMode::Public, api_key: None, timeout_secs: 1 };
    assert_eq!(sent(g.plan(&request())).timeout_secs, 1);
}
