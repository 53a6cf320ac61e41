use ltengine::api::{
    bad_request, check_detection, check_format, check_params, check_translation, count_answer, count_request, detect, engine_error,
    finish_translation, frontend_settings, list_languages, not_implemented, parse_payload,
    peer_closed, prepare, ready_status, resolve_language, resolve_source, run_translation,
    translate_response, Payload, PeerSocket, Step, TranslateRequest,
};
use ltengine::cache::TranslationCache;
use ltengine::config::Args;
use ltengine::engine::EngineError;
use ltengine::languages::{get_language_from_code, languages, match_detection};
use ltengine::metrics::Metrics;
use ltengine::prompt::{PromptFormat, TranslateGemma};

fn args(char_limit: usize) -> Args {
    let mut args = Args::default();
    args.char_limit = char_limit;
    args
}

fn request(q: Option<&str>) -> TranslateRequest {
    TranslateRequest {
        q: q.map(str::to_owned),
        source: None,
        target: None,
        format: None,
        api_key: None,
        alternatives: None,
    }
}

fn native() -> PromptFormat {
    PromptFormat::TranslateGemma(Box::new(TranslateGemma::builtin()))
}

fn chat() -> PromptFormat {
    PromptFormat::Chat { gemma_fallback: false }
}

#[test]
fn missing_q_is_a_400_not_a_panic() {
    let body = request(None);
    assert_eq!(check_params(&body, &args(2), &[]).unwrap_err().status, 400);
}

#[test]
fn request_limit_counts_characters_not_bytes() {
    let body = request(Some("你好"));
    assert!(check_params(&body, &args(2), &[("q", &body.q)]).is_ok());
    let body = request(Some("你好!"));
    assert!(check_params(&body, &args(2), &[("q", &body.q)]).is_err());
}

#[test]
fn api_key_is_enforced() {
    let mut args = args(100);
    args.api_key = "secret".into();
    let mut body = request(Some("hi"));
    assert_eq!(check_params(&body, &args, &[]).unwrap_err().status, 403);
    body.api_key = Some("secret".into());
    assert!(check_params(&body, &args, &[]).is_ok());
}

#[test]
fn refusals_say_why() {
    let body = request(Some("你好!"));
    assert_eq!(
        check_params(&body, &args(2), &[]).unwrap_err().error,
        "Invalid request: request (3) exceeds text limit (2)"
    );
    assert_eq!(
        check_params(&body, &args(5), &[("q", &body.q), ("source", &body.source)])
            .unwrap_err()
            .error,
        "Invalid request: missing source parameter"
    );
    let body = request(Some(" \n"));
    assert_eq!(
        check_params(&body, &args(5), &[("q", &body.q)]).unwrap_err().error,
        "Invalid request: missing q parameter"
    );
    let mut locked = args(5);
    locked.api_key = "secret".into();
    assert_eq!(
        check_params(&request(None), &locked, &[]).unwrap_err().error,
        "Invalid API key"
    );
    assert_eq!(
        check_params(&request(None), &args(5), &[]).unwrap_err().error,
        "Invalid request: missing q parameter"
    );
    let refused = bad_request("no".to_owned());
    assert_eq!((refused.status, refused.retry_after), (400, None));
    assert_eq!(not_implemented().status, 501);
    assert_eq!(not_implemented().error, "Not implemented");
}

#[test]
fn translations_need_text_source_and_target() {
    let mut body = request(Some("hi"));
    let refused = |body: &TranslateRequest| check_translation(body, &args(5)).unwrap_err().error;
    assert_eq!(check_detection(&body, &args(5)).unwrap(), "hi");
    assert_eq!(
        check_detection(&request(None), &args(5)).unwrap_err().error,
        "Invalid request: missing q parameter"
    );
    assert_eq!(refused(&request(None)), "Invalid request: missing q parameter");
    assert_eq!(refused(&body), "Invalid request: missing source parameter");
    body.source = Some("auto".to_owned());
    assert_eq!(refused(&body), "Invalid request: missing target parameter");
    body.target = Some(" ".to_owned());
    assert_eq!(refused(&body), "Invalid request: missing target parameter");
    body.target = Some("en".to_owned());
    let asked = check_translation(&body, &args(5)).unwrap();
    assert_eq!(
        (asked.q, asked.source, asked.target, asked.format),
        ("hi", "auto", "en", "text")
    );
    body.format = Some("xml".to_owned());
    assert_eq!(refused(&body), "Invalid format. Supported formats: text, html");
    body.format = Some("html".to_owned());
    assert_eq!(check_translation(&body, &args(5)).unwrap().format, "html");
    body.q = Some("too long".to_owned());
    assert_eq!(refused(&body), "Invalid request: request (8) exceeds text limit (5)");
}

#[test]
fn content_type_tells_the_payload() {
    assert_eq!(parse_payload(Some("application/json; charset=utf-8")).unwrap(), Payload::Json);
    assert_eq!(
        parse_payload(Some("application/x-www-form-urlencoded")).unwrap(),
        Payload::Form
    );
    assert_eq!(
        parse_payload(Some("multipart/form-data; boundary=x")).unwrap(),
        Payload::Multipart
    );
    assert_eq!(
        parse_payload(Some("text/plain")).unwrap_err().error,
        "Unsupported content-type"
    );
    assert_eq!(parse_payload(None).unwrap_err().status, 400);
}

#[test]
fn only_text_and_html_are_formats() {
    assert_eq!(check_format(None).unwrap(), "text");
    assert_eq!(check_format(Some("html")).unwrap(), "html");
    assert_eq!(
        check_format(Some("xml")).unwrap_err().error,
        "Invalid format. Supported formats: text, html"
    );
}

#[test]
fn engine_errors_are_answered() {
    let answer = engine_error(&EngineError::QueueFull, Some(5));
    assert_eq!(answer.error, "Server busy, please try again later");
    assert_eq!(answer.status, 503);
    assert_eq!(answer.retry_after, Some(5));
}

#[test]
fn languages_are_resolved_for_the_model() {
    assert_eq!(resolve_language(&chat(), "pb").unwrap().code, "pt-BR");
    let refused = resolve_language(&chat(), "xx").unwrap_err();
    assert_eq!(refused.error, "xx is not supported");
    assert_eq!(refused.status, 400);
    let narrow = PromptFormat::TranslateGemma(Box::new(
        TranslateGemma::from_template(
            "{% set languages = {\n\"de\": \"German\",\n\"en\": \"English\"\n} %}{{ messages[0].role }}",
        )
        .unwrap(),
    ));
    assert_eq!(
        resolve_language(&narrow, "fr").unwrap_err().error,
        "fr is not supported by the loaded model"
    );
    assert!(resolve_source(&narrow, "auto", None).unwrap().is_none());
    let all = languages();
    let german = match_detection(&all, Some(("deu", 0)));
    assert_eq!(resolve_source(&narrow, "auto", german).unwrap().unwrap().code, "de");
    let french = match_detection(&all, Some(("fra", 0)));
    assert_eq!(
        resolve_source(&narrow, "auto", french).unwrap_err().error,
        "fr is not supported by the loaded model"
    );
    assert_eq!(
        resolve_source(&narrow, "yy", french).unwrap_err().error,
        "yy is not supported"
    );
    let listed = list_languages(Some(&narrow));
    assert_eq!(listed.targets, vec!["en", "de"]);
}

#[test]
fn repeated_requests_are_answered_from_the_cache() {
    let mut cache = TranslationCache::new(4);
    let mut metrics = Metrics::default();
    let prompt = chat();
    let (step, detection) =
        run_translation(&prompt, &mut cache, &mut metrics, "Hallo!", "de", "en", "text").unwrap();
    assert!(detection.is_none());
    let (key, as_markdown, request) = match step {
        Step::Translate { key, as_markdown, request } => (key, as_markdown, request),
        other => panic!("{other:?}"),
    };
    assert!(!as_markdown);
    assert_eq!(request.text, "Hallo!");
    assert_eq!(request.source.unwrap().code, "de");
    assert_eq!(request.target.code, "en");
    let answer = finish_translation(&mut cache, key, as_markdown, "hello".to_owned());
    assert_eq!(answer, "Hello!");
    assert_eq!(metrics.cache_hits, 0);
    let (step, _) =
        run_translation(&prompt, &mut cache, &mut metrics, "Hallo!", "de", "en", "text").unwrap();
    assert!(matches!(step, Step::Done(text) if text == "Hello!"));
    assert_eq!(metrics.cache_hits, 1);
}

#[test]
fn same_language_is_not_translated() {
    let mut cache = TranslationCache::new(4);
    let mut metrics = Metrics::default();
    let (step, _) =
        run_translation(&native(), &mut cache, &mut metrics, "olá", "pb", "pt-BR", "text").unwrap();
    assert!(matches!(step, Step::Done(text) if text == "olá"));
    assert_eq!(metrics.cache_hits, 0);
}

#[test]
fn automatic_source_is_detected() {
    let mut cache = TranslationCache::new(0);
    let mut metrics = Metrics::default();
    let text = "Das ist ein ganz normaler deutscher Satz über das Wetter.";
    let (step, detection) =
        run_translation(&native(), &mut cache, &mut metrics, text, "auto", "en", "text").unwrap();
    assert_eq!(detection.unwrap().language.code, "de");
    match step {
        Step::Translate { key, request, .. } => {
            assert_eq!(key.source, "de");
            assert_eq!(request.source.unwrap().code, "de");
        }
        other => panic!("{other:?}"),
    }
    let answer = translate_response("x".to_owned(), Some(2), "auto", detection);
    assert_eq!(answer.translated_text, "x");
    assert!(answer.alternatives);
    assert_eq!(answer.detected_language.unwrap().language, "de");
    assert_eq!(detect(text).language, "de");
}

#[test]
fn unknown_source_is_kept_as_auto() {
    let mut cache = TranslationCache::new(0);
    let mut metrics = Metrics::default();
    let (step, detection) =
        run_translation(&chat(), &mut cache, &mut metrics, "123", "auto", "en", "text").unwrap();
    assert!(detection.is_none());
    match step {
        Step::Translate { key, request, .. } => {
            assert_eq!(key.source, "auto");
            assert!(request.source.is_none());
        }
        other => panic!("{other:?}"),
    }
    let answer = translate_response("x".to_owned(), None, "auto", detection);
    assert!(!answer.alternatives);
    let told = answer.detected_language.unwrap();
    assert_eq!(told.language, languages()[0].code);
    assert_eq!(told.confidence_bits, None);
    assert!(translate_response("x".to_owned(), Some(0), "de", None).detected_language.is_none());
    assert_eq!(detect("123").confidence_bits, None);
}

#[test]
fn html_goes_through_markdown_for_native_prompts() {
    let mut cache = TranslationCache::new(0);
    let mut metrics = Metrics::default();
    let german = get_language_from_code("de");
    let english = get_language_from_code("en").unwrap();
    let html = "<strong>wichtig</strong>";
    match prepare(&native(), &mut cache, &mut metrics, german, english, html, "html") {
        Step::Translate { key, as_markdown, request } => {
            assert!(as_markdown);
            assert_eq!(request.text, "**wichtig**");
            assert_eq!(key.text, html);
            assert_eq!(
                finish_translation(&mut cache, key, as_markdown, "**important**".to_owned()),
                "<strong>important</strong>"
            );
        }
        other => panic!("{other:?}"),
    }
    match prepare(&chat(), &mut cache, &mut metrics, german, english, html, "html") {
        Step::Translate { key, as_markdown, request } => {
            assert!(!as_markdown);
            assert_eq!(request.text, html);
            assert_eq!(
                finish_translation(&mut cache, key, as_markdown, " <b>x</b>".to_owned()),
                " <b>x</b>"
            );
        }
        other => panic!("{other:?}"),
    }
}

#[test]
fn all_languages_are_listed_without_a_model() {
    let listed = list_languages(None);
    assert_eq!(listed.languages.len(), 49);
    assert_eq!(listed.targets, listed.languages[0].targets.to_vec());
    assert_eq!(list_languages(Some(&native())).languages.len(), 49);
}

#[test]
fn answers_are_counted() {
    let mut metrics = Metrics::default();
    count_request(&mut metrics);
    count_answer(&mut metrics, None, 1000);
    count_answer(&mut metrics, Some(499), 1000);
    assert_eq!((metrics.rejected_busy, metrics.errors), (0, 0));
    count_answer(&mut metrics, Some(503), 1000);
    assert_eq!((metrics.rejected_busy, metrics.errors), (1, 0));
    count_answer(&mut metrics, Some(400), 1000);
    count_answer(&mut metrics, Some(422), 1000);
    assert_eq!((metrics.rejected_busy, metrics.errors), (1, 2));
    assert_eq!(metrics.requests, 1);
    assert_eq!(metrics.request_duration.count, 5);
}

#[test]
fn interface_and_health_are_told() {
    let mut locked = args(77);
    assert!(!frontend_settings(&locked).key_required);
    locked.api_key = "k".into();
    let settings = frontend_settings(&locked);
    assert_eq!((settings.char_limit, settings.key_required), (77, true));
    assert_eq!(ready_status("ready"), 200);
    assert_eq!(ready_status("loading"), 503);
    assert_eq!(ready_status("failed"), 503);
}

#[test]
fn closed_connections_are_noticed() {
    assert!(peer_closed(0, false));
    assert!(peer_closed(-1, false));
    assert!(!peer_closed(-1, true));
    assert!(!peer_closed(1, false));
    assert_eq!(PeerSocket(3), PeerSocket(3));
}
