//! LibreTranslate-compatible API: what requests are refused, what is translated, and what is
//! answered.

use vstd::prelude::*;
use vstd::string::*;

use crate::cache::{
    law_lookup_keeps_cache_valid, law_lookup_keeps_translations, law_stored_translation_is_found,
    law_storing_adds_only_its_key, law_storing_keeps_cache_valid, lookup, stored, used, valid,
    CacheKey, CacheKeyView, Entries, TranslationCache,
};
use crate::config::Args;
use crate::engine::{
    available_model, engine_error_status, engine_error_text, law_errors_tell_their_reason,
    state_name, EngineError, EngineErrorView, Request, RequestView, StatusView,
};
use crate::formatting;
use crate::formatting::style_matched;
use crate::generation::{prompt_step, PromptStepView};
use crate::languages;
use crate::languages::{
    all_languages, codes_view, detected, language, language_of_code, language_position, languages_view,
    law_every_code_finds_its_language, law_found_language_has_the_code, opt_detect_view, opt_language_view, public_code, LangDetect,
    LangDetectView, Language, LanguageView,
};
use crate::markup;
use crate::markup::{as_html, as_markdown};
use crate::metrics;
use crate::metrics::{added, observed, Metrics, MetricsView};
use crate::prompt::{accepts_language, opt_str_view, PromptFormat, PromptFormatView};
use crate::text;
use crate::text::{decimal, opt_view, trimmed};

verus! {

/// A request as it comes in.
#[derive(Debug)]
pub struct TranslateRequest {
    pub q: Option<String>,
    pub source: Option<String>,
    pub target: Option<String>,
    pub format: Option<String>,
    pub api_key: Option<String>,
    pub alternatives: Option<u32>,
}

/// Socket of an HTTP connection.
#[derive(Debug, Clone, Copy, PartialEq, Eq, Structural)]
pub struct PeerSocket(pub i32);

/// An answer that reports an error.
#[derive(Debug)]
pub struct ErrorResponse {
    pub error: String,
    pub status: u16,
    /// Seconds after which to try again.
    pub retry_after: Option<u64>,
}

/// An answer that reports an error, with its text.
pub struct ErrorResponseView {
    pub error: Seq<char>,
    pub status: u16,
    pub retry_after: Option<u64>,
}

impl View for ErrorResponse {
    type V = ErrorResponseView;

    open spec fn view(&self) -> ErrorResponseView {
        ErrorResponseView {
            error: self.error@,
            status: self.status,
            retry_after: self.retry_after,
        }
    }
}

/// The answer to a request that is at fault.
pub open spec fn refusal(error: Seq<char>) -> ErrorResponseView {
    ErrorResponseView { error, status: 400, retry_after: None }
}

/// The answer to a request that is at fault.
pub fn bad_request(error: String) -> (r: ErrorResponse)
    ensures
        r@ == refusal(error@),
{
    ErrorResponse { error, status: 400, retry_after: None }
}

/// The answer to a request for something that is not there yet.
pub fn not_implemented() -> (r: ErrorResponse)
    ensures
        r@ == (ErrorResponseView { error: "Not implemented"@, status: 501, retry_after: None }),
{
    ErrorResponse { error: "Not implemented".to_owned(), status: 501, retry_after: None }
}

/// The answer for an error of the engine.
pub open spec fn engine_answer(e: EngineErrorView, retry_after: Option<u64>) -> ErrorResponseView {
    ErrorResponseView {
        error: engine_error_text(e),
        status: engine_error_status(e),
        retry_after,
    }
}

/// Law: an error of the engine is answered with what is told of it, with its status, and with the
/// time after which to try again, if there is one; what failed inside is not answered.
pub proof fn law_engine_error_is_answered(
    reason: Seq<char>,
    other: Seq<char>,
    tokens: usize,
    n_ctx: u32,
    retry_after: Option<u64>,
    e: EngineErrorView,
)
    ensures
        engine_answer(e, retry_after).retry_after == retry_after,
        engine_answer(EngineErrorView::UnsupportedLanguage(reason), retry_after).error == reason,
        engine_answer(EngineErrorView::UnsupportedLanguage(reason), retry_after).status == 400,
        reason.is_suffix_of(engine_answer(EngineErrorView::Unavailable(reason), retry_after).error),
        ("context size is "@ + decimal(n_ctx as nat)).is_suffix_of(
            engine_answer(EngineErrorView::InputTooLong { tokens, n_ctx }, retry_after).error,
        ),
        engine_answer(EngineErrorView::InputTooLong { tokens, n_ctx }, retry_after).status == 400,
        (decimal(tokens as nat) + " tokens"@).is_suffix_of(
            engine_answer(EngineErrorView::OutputLimit(tokens), retry_after).error,
        ),
        engine_answer(EngineErrorView::QueueFull, retry_after).status == 503,
        engine_answer(EngineErrorView::QueueTimeout, retry_after).status == 503,
        engine_answer(EngineErrorView::Internal(reason), retry_after) == engine_answer(
            EngineErrorView::Internal(other),
            retry_after,
        ),
        engine_answer(EngineErrorView::Internal(reason), retry_after).status == 500,
{
    law_errors_tell_their_reason(reason, other, tokens, n_ctx);
}

/// The answer for an error of the engine. `retry_after` is in how many seconds the caller may try
/// again, where that is told.
pub fn engine_error(err: &EngineError, retry_after: Option<u64>) -> (r: ErrorResponse)
    ensures
        r@ == engine_answer(err@, retry_after),
{
    ErrorResponse { error: err.message(), status: err.status(), retry_after }
}

/// How the parameters of a request are written down.
#[derive(Debug, Clone, Copy, PartialEq, Eq, Structural)]
pub enum Payload {
    Json,
    Form,
    Multipart,
}

/// How the parameters are written down by this content type.
pub open spec fn payload_kind(content_type: Seq<char>) -> Option<Payload> {
    if "application/json"@.is_prefix_of(content_type) {
        Some(Payload::Json)
    } else if "application/x-www-form-urlencoded"@.is_prefix_of(content_type) {
        Some(Payload::Form)
    } else if "multipart/form-data"@.is_prefix_of(content_type) {
        Some(Payload::Multipart)
    } else {
        None
    }
}

/// Law: a content type is told by what it begins with, whatever parameters follow; any other is
/// not understood.
pub proof fn law_content_type_is_told_by_its_beginning(c: Seq<char>)
    ensures
        payload_kind(c) == Some(Payload::Json) <==> "application/json"@.is_prefix_of(c),
        payload_kind(c) == Some(Payload::Form) <==> "application/x-www-form-urlencoded"@.is_prefix_of(
            c,
        ),
        payload_kind(c) == Some(Payload::Multipart) <==> "multipart/form-data"@.is_prefix_of(c),
{
    reveal_strlit("application/json");
    reveal_strlit("application/x-www-form-urlencoded");
    reveal_strlit("multipart/form-data");
    if "application/json"@.is_prefix_of(c) {
        assert(c[0] == "application/json"@[0] && c[12] == "application/json"@[12]);
    }
    if "application/x-www-form-urlencoded"@.is_prefix_of(c) {
        assert(c[0] == "application/x-www-form-urlencoded"@[0] && c[12]
            == "application/x-www-form-urlencoded"@[12]);
    }
    if "multipart/form-data"@.is_prefix_of(c) {
        assert(c[0] == "multipart/form-data"@[0]);
    }
}

/// Tell from the content type how the parameters are written down.
pub fn parse_payload(content_type: Option<&str>) -> (r: Result<Payload, ErrorResponse>)
    ensures
        match r {
            Ok(kind) => content_type matches Some(c) && payload_kind(c@) == Some(kind),
            Err(e) => (content_type matches Some(c) ==> payload_kind(c@) is None) && e@ == refusal(
                "Unsupported content-type"@,
            ),
        },
{
    if let Some(content_type) = content_type {
        if text::starts_with(content_type, "application/json") {
            return Ok(Payload::Json);
        }
        if text::starts_with(content_type, "application/x-www-form-urlencoded") {
            return Ok(Payload::Form);
        }
        if text::starts_with(content_type, "multipart/form-data") {
            return Ok(Payload::Multipart);
        }
    }
    Err(bad_request("Unsupported content-type".to_owned()))
}

/// A parameter is not there, or there is nothing but white space in it.
pub open spec fn is_missing(value: Option<Seq<char>>) -> bool {
    match value {
        Some(v) => trimmed(v).len() == 0,
        None => true,
    }
}

/// The texts of required parameters with their names.
pub open spec fn required_view(required: Seq<(&str, &Option<String>)>) -> Seq<
    (Seq<char>, Option<Seq<char>>),
> {
    required.map_values(|p: (&str, &Option<String>)| (p.0@, opt_view(*p.1)))
}

/// The name of the first required parameter from `from` on that is missing.
pub open spec fn first_missing(
    required: Seq<(Seq<char>, Option<Seq<char>>)>,
    from: int,
) -> Option<Seq<char>>
    decreases required.len() - from,
{
    if from < 0 || from >= required.len() {
        None
    } else if is_missing(required[from].1) {
        Some(required[from].0)
    } else {
        first_missing(required, from + 1)
    }
}

/// The answer to a request without a parameter that it needs.
pub open spec fn missing_answer(key: Seq<char>) -> ErrorResponseView {
    refusal("Invalid request: missing "@ + key + " parameter"@)
}

/// The text to work on, or the answer to a request that is refused: required parameters come
/// first, then the API key, then the text and its length in characters.
pub open spec fn checked(
    q: Option<Seq<char>>,
    given_key: Option<Seq<char>>,
    api_key: Seq<char>,
    char_limit: int,
    required: Seq<(Seq<char>, Option<Seq<char>>)>,
) -> Result<Seq<char>, ErrorResponseView> {
    match first_missing(required, 0) {
        Some(key) => Err(missing_answer(key)),
        None => if api_key.len() > 0 && given_key != Some(api_key) {
            Err(
                ErrorResponseView { error: "Invalid API key"@, status: 403, retry_after: None },
            )
        } else {
            match q {
                None => Err(missing_answer("q"@)),
                Some(q) => if q.len() > char_limit {
                    Err(
                        refusal(
                            "Invalid request: request ("@ + decimal(q.len())
                                + ") exceeds text limit ("@ + decimal(char_limit as nat) + ")"@,
                        ),
                    )
                } else {
                    Ok(q)
                },
            }
        },
    }
}

fn missing_parameter(key: &str) -> (r: ErrorResponse)
    ensures
        r@ == missing_answer(key@),
{
    let mut error = "Invalid request: missing ".to_owned();
    error.append(key);
    error.append(" parameter");
    bad_request(error)
}

/// Validate the required parameters and the API key; returns `q`.
pub fn check_params<'a>(
    body: &'a TranslateRequest,
    args: &Args,
    required: &[(&str, &Option<String>)],
) -> (r: Result<&'a str, ErrorResponse>)
    ensures
        match r {
            Ok(q) => checked(
                opt_view(body.q),
                opt_view(body.api_key),
                args.api_key@,
                args.char_limit as int,
                required_view(required@),
            ) == Ok::<Seq<char>, ErrorResponseView>(q@),
            Err(e) => checked(
                opt_view(body.q),
                opt_view(body.api_key),
                args.api_key@,
                args.char_limit as int,
                required_view(required@),
            ) == Err::<Seq<char>, ErrorResponseView>(e@),
        },
{
    let ghost wanted = required_view(required@);
    let mut i: usize = 0;
    while i < required.len()
        invariant
            i <= required.len(),
            wanted == required_view(required@),
            first_missing(wanted, 0) == first_missing(wanted, i as int),
        decreases required.len() - i,
    {
        let missing = match required[i].1 {
            Some(v) => text::trim(v.as_str()).unicode_len() == 0,
            None => true,
        };
        if missing {
            return Err(missing_parameter(required[i].0));
        }
        i = i + 1;
    }

    if args.api_key.as_str().unicode_len() != 0 {
        let valid = match &body.api_key {
            Some(key) => text::same(key.as_str(), args.api_key.as_str()),
            None => false,
        };
        if !valid {
            return Err(
                ErrorResponse {
                    error: "Invalid API key".to_owned(),
                    status: 403,
                    retry_after: None,
                },
            );
        }
    }

    let q = match &body.q {
        Some(q) => q.as_str(),
        None => return Err(missing_parameter("q")),
    };
    let char_count = q.unicode_len();
    if char_count > args.char_limit {
        let count = text::to_decimal(char_count as u64);
        let limit = text::to_decimal(args.char_limit as u64);
        let mut error = "Invalid request: request (".to_owned();
        error.append(count.as_str());
        error.append(") exceeds text limit (");
        error.append(limit.as_str());
        error.append(")");
        return Err(bad_request(error));
    }
    Ok(q)
}

/// Law: a text is worked on only if no required parameter is missing, the API key is right where
/// one is required, and the text has no more characters than allowed; then it is worked on as it
/// is. A request without a text is refused in any case.
pub proof fn law_only_checked_texts_are_worked_on(
    q: Option<Seq<char>>,
    given_key: Option<Seq<char>>,
    api_key: Seq<char>,
    char_limit: int,
    required: Seq<(Seq<char>, Option<Seq<char>>)>,
)
    ensures
        checked(q, given_key, api_key, char_limit, required) matches Ok(text) ==> q == Some(text)
            && text.len() <= char_limit && (api_key.len() > 0 ==> given_key == Some(api_key))
            && forall|i: int|
            0 <= i < required.len() ==> !is_missing((#[trigger] required[i]).1),
        checked(q, given_key, api_key, char_limit, required) matches Err(e) ==> e.status == 400
            || e.status == 403,
        q is None ==> checked(q, given_key, api_key, char_limit, required) is Err,
{
    lemma_first_missing(required, 0);
}

/// Law: a text is worked on wherever nothing speaks against it: every required parameter holds
/// more than white space, the API key is the required one or none is required, and the text has at
/// most as many characters as are allowed.
pub proof fn law_faultless_request_is_worked_on(
    q: Seq<char>,
    given_key: Option<Seq<char>>,
    api_key: Seq<char>,
    char_limit: int,
    required: Seq<(Seq<char>, Option<Seq<char>>)>,
)
    requires
        q.len() <= char_limit,
        api_key.len() == 0 || given_key == Some(api_key),
        forall|i: int|
            0 <= i < required.len() ==> ((#[trigger] required[i]).1 matches Some(v)
                && !text::all_white(v)),
    ensures
        checked(Some(q), given_key, api_key, char_limit, required) == Ok::<
            Seq<char>,
            ErrorResponseView,
        >(q),
{
    lemma_missing_is_white(required);
    lemma_nothing_missing(required, 0);
}

/// Law: a request without a required parameter, or with nothing but white space in it, is refused
/// with status 400 and the name of the first such parameter, whatever else is wrong with it. Where
/// none is missing, a wrong API key is refused with status 403, and a text that is too long with
/// status 400, its length and the limit.
pub proof fn law_refusal_tells_what_is_wrong(
    q: Option<Seq<char>>,
    given_key: Option<Seq<char>>,
    api_key: Seq<char>,
    char_limit: int,
    required: Seq<(Seq<char>, Option<Seq<char>>)>,
    at: int,
)
    requires
        0 <= at <= required.len(),
        char_limit >= 0,
        forall|i: int|
            0 <= i < at ==> ((#[trigger] required[i]).1 matches Some(v) && !text::all_white(v)),
    ensures
        at < required.len() && !(required[at].1 matches Some(v) && !text::all_white(v)) ==> checked(
            q,
            given_key,
            api_key,
            char_limit,
            required,
        ) == Err::<Seq<char>, ErrorResponseView>(
            ErrorResponseView {
                error: "Invalid request: missing "@ + required[at].0 + " parameter"@,
                status: 400,
                retry_after: None,
            },
        ),
        at == required.len() && api_key.len() > 0 && given_key != Some(api_key) ==> (checked(
            q,
            given_key,
            api_key,
            char_limit,
            required,
        ) matches Err(e) && e.status == 403),
        at == required.len() && !(api_key.len() > 0 && given_key != Some(api_key)) && (q matches
            Some(text) && text.len() > char_limit) ==> (checked(
            q,
            given_key,
            api_key,
            char_limit,
            required,
        ) matches Err(e) && e.status == 400 && text::has_part(e.error, decimal(q->0.len()))
            && text::has_part(e.error, decimal(char_limit as nat))),
{
    lemma_missing_is_white(required);
    lemma_first_missing_is(required, 0, at);
    if let Some(t) = q {
        let a = "Invalid request: request ("@;
        let n = decimal(t.len());
        let b = ") exceeds text limit ("@;
        let m = decimal(char_limit as nat);
        let c = ")"@;
        let error = a + n + b + m + c;
        let i = a.len() as int;
        assert(error.subrange(i, i + n.len()) =~= n);
        assert(text::occurs_at(error, n, i));
        let j = (a + n + b).len() as int;
        assert(error.subrange(j, j + m.len()) =~= m);
        assert(text::occurs_at(error, m, j));
    }
}

/// A parameter is missing exactly where there is none or it is all white space.
proof fn lemma_missing_is_white(required: Seq<(Seq<char>, Option<Seq<char>>)>)
    ensures
        forall|i: int|
            0 <= i < required.len() ==> (is_missing((#[trigger] required[i]).1) <==> !(
            required[i].1 matches Some(v) && !text::all_white(v))),
{
    assert forall|i: int| 0 <= i < required.len() implies (is_missing(
        (#[trigger] required[i]).1,
    ) <==> !(required[i].1 matches Some(v) && !text::all_white(v))) by {
        if let Some(v) = required[i].1 {
            let cut = text::law_trimming_takes_off_white_space_only(v);
            if trimmed(v).len() == 0 {
                assert forall|k: int| 0 <= k < v.len() implies text::white_space(
                    #[trigger] v[k],
                ) by {
                    if k < cut.0 {
                        assert(v.subrange(0, cut.0)[k] == v[k]);
                    } else {
                        assert(v.subrange(cut.1, v.len() as int)[k - cut.1] == v[k]);
                    }
                }
            } else {
                assert(trimmed(v)[0] == v[cut.0]);
            }
        }
    }
}

/// Where no parameter is missing, none is found to be.
proof fn lemma_nothing_missing(required: Seq<(Seq<char>, Option<Seq<char>>)>, from: int)
    requires
        0 <= from,
        forall|i: int| from <= i < required.len() ==> !is_missing((#[trigger] required[i]).1),
    ensures
        first_missing(required, from) is None,
    decreases required.len() - from,
{
    if from < required.len() {
        lemma_nothing_missing(required, from + 1);
    }
}

/// Where the parameters before `at` are there, the first that is missing is that at `at` or comes
/// later.
proof fn lemma_first_missing_is(
    required: Seq<(Seq<char>, Option<Seq<char>>)>,
    from: int,
    at: int,
)
    requires
        0 <= from <= at <= required.len(),
        forall|i: int| from <= i < at ==> !is_missing((#[trigger] required[i]).1),
    ensures
        first_missing(required, from) == first_missing(required, at),
    decreases at - from,
{
    if from < at {
        lemma_first_missing_is(required, from + 1, at);
    }
}

/// Where nothing is missing, every required parameter is there.
proof fn lemma_first_missing(required: Seq<(Seq<char>, Option<Seq<char>>)>, from: int)
    requires
        0 <= from,
    ensures
        first_missing(required, from) is None ==> forall|i: int|
            from <= i < required.len() ==> !is_missing((#[trigger] required[i]).1),
    decreases required.len() - from,
{
    if from < required.len() && !is_missing(required[from].1) {
        lemma_first_missing(required, from + 1);
    }
}

/// The format that is asked for, "text" where none is, or the answer that there is no such format.
pub open spec fn format_asked(format: Option<Seq<char>>) -> Result<Seq<char>, ErrorResponseView> {
    let format = match format {
        Some(format) => format,
        None => "text"@,
    };
    if format == "text"@ || format == "html"@ {
        Ok(format)
    } else {
        Err(refusal("Invalid format. Supported formats: text, html"@))
    }
}

/// The format of a request, "text" where none is given.
pub fn check_format(format: Option<&str>) -> (r: Result<&str, ErrorResponse>)
    ensures
        match r {
            Ok(f) => format_asked(opt_str_view(format)) == Ok::<Seq<char>, ErrorResponseView>(f@),
            Err(e) => format_asked(opt_str_view(format)) == Err::<Seq<char>, ErrorResponseView>(
                e@,
            ),
        },
{
    let format = match format {
        Some(format) => format,
        None => "text",
    };
    if text::same(format, "text") || text::same(format, "html") {
        Ok(format)
    } else {
        Err(bad_request("Invalid format. Supported formats: text, html".to_owned()))
    }
}

/// Law: texts and HTML are translated, texts where no format is given; any other format is refused
/// with status 400.
pub proof fn law_formats_are_text_and_html(format: Seq<char>)
    ensures
        format_asked(None) == Ok::<Seq<char>, ErrorResponseView>("text"@),
        format_asked(Some(format)) == Ok::<Seq<char>, ErrorResponseView>(format) <==> format
            == "text"@ || format == "html"@,
        format_asked(Some(format)) matches Ok(asked) ==> asked == format,
        format_asked(Some(format)) matches Err(e) ==> e.status == 400,
{
}

/// The parameters that a request to detect a language needs.
pub open spec fn detection_parameters(body: TranslateRequest) -> Seq<
    (Seq<char>, Option<Seq<char>>),
> {
    seq![("q"@, opt_view(body.q))]
}

/// The parameters that a request to translate needs.
pub open spec fn translation_parameters(body: TranslateRequest) -> Seq<
    (Seq<char>, Option<Seq<char>>),
> {
    seq![
        ("q"@, opt_view(body.q)),
        ("source"@, opt_view(body.source)),
        ("target"@, opt_view(body.target)),
    ]
}

/// A request checked for the parameters that it needs.
pub open spec fn checked_request(
    body: TranslateRequest,
    args: Args,
    required: Seq<(Seq<char>, Option<Seq<char>>)>,
) -> Result<Seq<char>, ErrorResponseView> {
    checked(
        opt_view(body.q),
        opt_view(body.api_key),
        args.api_key@,
        args.char_limit as int,
        required,
    )
}

/// Validate a request to detect a language; returns its text.
pub fn check_detection<'a>(body: &'a TranslateRequest, args: &Args) -> (r: Result<
    &'a str,
    ErrorResponse,
>)
    ensures
        match r {
            Ok(q) => checked_request(*body, *args, detection_parameters(*body)) == Ok::<
                Seq<char>,
                ErrorResponseView,
            >(q@),
            Err(e) => checked_request(*body, *args, detection_parameters(*body)) == Err::<
                Seq<char>,
                ErrorResponseView,
            >(e@),
        },
{
    let required: [(&str, &Option<String>); 1] = [("q", &body.q)];
    assert(required_view(required@) =~= detection_parameters(*body));
    check_params(body, args, &required)
}

/// What a request to translate asks for: text, source, target and format.
#[derive(Debug, Clone, Copy)]
pub struct Asked<'a> {
    pub q: &'a str,
    pub source: &'a str,
    pub target: &'a str,
    pub format: &'a str,
}

/// What a request to translate asks for, with its texts.
pub struct AskedView {
    pub q: Seq<char>,
    pub source: Seq<char>,
    pub target: Seq<char>,
    pub format: Seq<char>,
}

impl<'a> View for Asked<'a> {
    type V = AskedView;

    open spec fn view(&self) -> AskedView {
        AskedView {
            q: self.q@,
            source: self.source@,
            target: self.target@,
            format: self.format@,
        }
    }
}

/// What a request to translate asks for, or the answer to a request that is refused.
pub open spec fn translation_asked(body: TranslateRequest, args: Args) -> Result<
    AskedView,
    ErrorResponseView,
> {
    match checked_request(body, args, translation_parameters(body)) {
        Err(e) => Err(e),
        Ok(q) => match format_asked(opt_view(body.format)) {
            Err(e) => Err(e),
            Ok(format) => Ok(
                AskedView {
                    q,
                    source: opt_view(body.source)->0,
                    target: opt_view(body.target)->0,
                    format,
                },
            ),
        },
    }
}

/// Law: a request to translate that is not refused asks for its own text, source and target, and
/// for its own format or that of texts; source and target hold more than white space, the text is
/// no longer than allowed, and the API key is the required one. A request of which all this holds
/// is not refused.
pub proof fn law_translation_asks_for_what_the_request_holds(body: TranslateRequest, args: Args)
    ensures
        ({
            let fine = {
                &&& opt_view(body.q) matches Some(q) && !text::all_white(q) && q.len()
                    <= args.char_limit
                &&& opt_view(body.source) matches Some(s) && !text::all_white(s)
                &&& opt_view(body.target) matches Some(t) && !text::all_white(t)
                &&& args.api_key@.len() == 0 || opt_view(body.api_key) == Some(args.api_key@)
                &&& opt_view(body.format) matches Some(f) ==> f == "text"@ || f == "html"@
            };
            &&& translation_asked(body, args) is Ok <==> fine
            &&& translation_asked(body, args) matches Ok(asked) ==> {
                &&& opt_view(body.q) == Some(asked.q)
                &&& opt_view(body.source) == Some(asked.source)
                &&& opt_view(body.target) == Some(asked.target)
                &&& match opt_view(body.format) {
                    Some(f) => asked.format == f,
                    None => asked.format == "text"@,
                }
            }
        }),
{
    let wanted = translation_parameters(body);
    assert(wanted[0] == ("q"@, opt_view(body.q)));
    assert(wanted[1] == ("source"@, opt_view(body.source)));
    assert(wanted[2] == ("target"@, opt_view(body.target)));
    lemma_missing_is_white(wanted);
    lemma_first_missing(wanted, 0);
    if !is_missing(wanted[0].1) && !is_missing(wanted[1].1) && !is_missing(wanted[2].1) {
        lemma_nothing_missing(wanted, 0);
    }
}

/// Law: a request to detect a language is worked on exactly where its text holds more than white
/// space and is no longer than allowed, and the API key is the required one.
pub proof fn law_detection_takes_the_text(body: TranslateRequest, args: Args)
    ensures
        ({
            let checked = checked_request(body, args, detection_parameters(body));
            &&& checked is Ok <==> (opt_view(body.q) matches Some(q) && !text::all_white(q) && q.len()
                <= args.char_limit && (args.api_key@.len() == 0 || opt_view(body.api_key) == Some(
                args.api_key@,
            )))
            &&& checked matches Ok(q) ==> opt_view(body.q) == Some(q)
        }),
{
    let wanted = detection_parameters(body);
    assert(wanted[0] == ("q"@, opt_view(body.q)));
    lemma_missing_is_white(wanted);
    lemma_first_missing(wanted, 0);
    if !is_missing(wanted[0].1) {
        lemma_nothing_missing(wanted, 0);
    }
}

/// Validate a request to translate: its parameters, then its format.
pub fn check_translation<'a>(body: &'a TranslateRequest, args: &Args) -> (r: Result<
    Asked<'a>,
    ErrorResponse,
>)
    ensures
        match r {
            Ok(asked) => translation_asked(*body, *args) == Ok::<AskedView, ErrorResponseView>(
                asked@,
            ),
            Err(e) => translation_asked(*body, *args) == Err::<AskedView, ErrorResponseView>(e@),
        },
        match r {
            Ok(asked) => {
                &&& checked_request(*body, *args, translation_parameters(*body)) == Ok::<
                    Seq<char>,
                    ErrorResponseView,
                >(asked.q@)
                &&& opt_view(body.source) == Some(asked.source@)
                &&& opt_view(body.target) == Some(asked.target@)
                &&& format_asked(opt_view(body.format)) == Ok::<Seq<char>, ErrorResponseView>(
                    asked.format@,
                )
            },
            Err(e) => match checked_request(*body, *args, translation_parameters(*body)) {
                Err(refused) => e@ == refused,
                Ok(_) => format_asked(opt_view(body.format)) == Err::<
                    Seq<char>,
                    ErrorResponseView,
                >(e@),
            },
        },
{
    let required: [(&str, &Option<String>); 3] = [
        ("q", &body.q),
        ("source", &body.source),
        ("target", &body.target),
    ];
    let ghost wanted = translation_parameters(*body);
    assert(required_view(required@) =~= wanted);
    let q = match check_params(body, args, &required) {
        Ok(q) => q,
        Err(e) => return Err(e),
    };
    proof {
        lemma_first_missing(wanted, 0);
        assert(!is_missing(wanted[1].1) && !is_missing(wanted[2].1));
    }
    let source = match &body.source {
        Some(source) => source.as_str(),
        None => "",
    };
    let target = match &body.target {
        Some(target) => target.as_str(),
        None => "",
    };
    let format = match &body.format {
        Some(format) => Some(format.as_str()),
        None => None,
    };
    match check_format(format) {
        Ok(format) => Ok(Asked { q, source, target, format }),
        Err(e) => Err(e),
    }
}

/// A language for the loaded model, or the answer that the model does not have it.
pub open spec fn supported(format: PromptFormatView, l: LanguageView) -> Result<
    LanguageView,
    ErrorResponseView,
> {
    if accepts_language(format, l.code) {
        Ok(l)
    } else {
        Err(refusal(l.code + " is not supported by the loaded model"@))
    }
}

/// The language that a code stands for, for the loaded model, or the answer that there is none.
pub open spec fn resolved(format: PromptFormatView, code: Seq<char>) -> Result<
    LanguageView,
    ErrorResponseView,
> {
    match language_position(code) {
        Some(i) => supported(format, language(i)),
        None => Err(refusal(code + " is not supported"@)),
    }
}

/// The source language, if it is known: given by its code, or the detected one for "auto".
pub open spec fn resolved_source(
    format: PromptFormatView,
    source: Seq<char>,
    detection: Option<LangDetectView>,
) -> Result<Option<LanguageView>, ErrorResponseView> {
    let language = if source == "auto"@ {
        match detection {
            Some(d) => Some(supported(format, d.language)),
            None => None,
        }
    } else {
        Some(resolved(format, source))
    };
    match language {
        Some(Ok(l)) => Ok(Some(l)),
        Some(Err(e)) => Err(e),
        None => Ok(None),
    }
}

fn check_supported(prompt: &PromptFormat, language: Language) -> (r: Result<
    Language,
    ErrorResponse,
>)
    ensures
        match r {
            Ok(l) => l == language && supported(prompt@, language@) == Ok::<
                LanguageView,
                ErrorResponseView,
            >(l@),
            Err(e) => supported(prompt@, language@) == Err::<LanguageView, ErrorResponseView>(e@),
        },
{
    if prompt.supports_language(language.code) {
        Ok(language)
    } else {
        let mut error = language.code.to_owned();
        error.append(" is not supported by the loaded model");
        Err(bad_request(error))
    }
}

/// Find the language that a code stands for, for the loaded model.
pub fn resolve_language(prompt: &PromptFormat, code: &str) -> (r: Result<Language, ErrorResponse>)
    ensures
        match r {
            Ok(l) => resolved(prompt@, code@) == Ok::<LanguageView, ErrorResponseView>(l@),
            Err(e) => resolved(prompt@, code@) == Err::<LanguageView, ErrorResponseView>(e@),
        },
{
    match languages::get_language_from_code(code) {
        Some(language) => check_supported(prompt, language),
        None => {
            let mut error = code.to_owned();
            error.append(" is not supported");
            Err(bad_request(error))
        },
    }
}

/// Find the source language: by its code, or the one that was detected for "auto".
pub fn resolve_source(prompt: &PromptFormat, source: &str, detection: Option<LangDetect>) -> (r:
    Result<Option<Language>, ErrorResponse>)
    ensures
        match r {
            Ok(l) => resolved_source(prompt@, source@, opt_detect_view(detection)) == Ok::<
                Option<LanguageView>,
                ErrorResponseView,
            >(opt_language_view(l)),
            Err(e) => resolved_source(prompt@, source@, opt_detect_view(detection)) == Err::<
                Option<LanguageView>,
                ErrorResponseView,
            >(e@),
        },
{
    if text::same(source, "auto") {
        match detection {
            Some(d) => match check_supported(prompt, d.language) {
                Ok(l) => Ok(Some(l)),
                Err(e) => Err(e),
            },
            None => Ok(None),
        }
    } else {
        match resolve_language(prompt, source) {
            Ok(l) => Ok(Some(l)),
            Err(e) => Err(e),
        }
    }
}

/// What is done for a request whose languages are known.
#[derive(Debug)]
pub enum Step {
    /// The translation is there.
    Done(String),
    /// The engine has to translate; `key` and `as_markdown` are for what comes after.
    Translate { key: CacheKey, as_markdown: bool, request: Request },
}

/// What is done for a request whose languages are known, with its texts.
pub enum StepView {
    Done(Seq<char>),
    Translate { key: CacheKeyView, as_markdown: bool, request: RequestView },
}

impl View for Step {
    type V = StepView;

    open spec fn view(&self) -> StepView {
        match self {
            Step::Done(text) => StepView::Done(text@),
            Step::Translate { key, as_markdown, request } => StepView::Translate {
                key: key@,
                as_markdown: *as_markdown,
                request: request@,
            },
        }
    }
}

/// Source and target are the same language.
pub open spec fn same_language(source: Option<LanguageView>, target: LanguageView) -> bool {
    source matches Some(s) && s.code == target.code
}

/// Under what a translation is kept.
pub open spec fn translation_key(
    source: Option<LanguageView>,
    target: LanguageView,
    q: Seq<char>,
    format: Seq<char>,
) -> CacheKeyView {
    CacheKeyView {
        source: match source {
            Some(l) => l.code,
            None => "auto"@,
        },
        target: target.code,
        format,
        text: q,
    }
}

/// A text of this format is translated as Markdown.
pub open spec fn by_markdown(prompt: PromptFormatView, format: Seq<char>) -> bool {
    format == "html"@ && prompt is TranslateGemma
}

/// What is done for a text: nothing where it is in the target language already or its translation
/// is kept.
pub open spec fn next_step(
    prompt: PromptFormatView,
    entries: Entries,
    source: Option<LanguageView>,
    target: LanguageView,
    q: Seq<char>,
    format: Seq<char>,
) -> StepView {
    let key = translation_key(source, target, q, format);
    if same_language(source, target) {
        StepView::Done(q)
    } else {
        match lookup(entries, key) {
            Some(hit) => StepView::Done(hit),
            None => StepView::Translate {
                key,
                as_markdown: by_markdown(prompt, format),
                request: RequestView {
                    source,
                    target,
                    format,
                    text: if by_markdown(prompt, format) {
                        as_markdown(q)
                    } else {
                        q
                    },
                },
            },
        }
    }
}

/// The cache after it was asked for a translation, if it was.
pub open spec fn asked(
    entries: Entries,
    source: Option<LanguageView>,
    target: LanguageView,
    q: Seq<char>,
    format: Seq<char>,
) -> Entries {
    if same_language(source, target) {
        entries
    } else {
        used(entries, translation_key(source, target, q, format))
    }
}

/// The metrics after the cache was asked for a translation, if it was.
pub open spec fn hits_counted(
    m: MetricsView,
    entries: Entries,
    source: Option<LanguageView>,
    target: LanguageView,
    q: Seq<char>,
    format: Seq<char>,
) -> MetricsView {
    if !same_language(source, target) && lookup(
        entries,
        translation_key(source, target, q, format),
    ) is Some {
        MetricsView { cache_hits: added(m.cache_hits, 1), ..m }
    } else {
        m
    }
}

/// Decide what is done for a text whose languages are known.
pub fn prepare(
    prompt: &PromptFormat,
    cache: &mut TranslationCache,
    metrics: &mut Metrics,
    source: Option<Language>,
    target: Language,
    q: &str,
    format: &str,
) -> (r: Step)
    ensures
        r@ == next_step(
            prompt@,
            old(cache)@,
            opt_language_view(source),
            target@,
            q@,
            format@,
        ),
        final(cache)@ == asked(old(cache)@, opt_language_view(source), target@, q@, format@),
        final(cache).capacity() == old(cache).capacity(),
        final(metrics)@ == hits_counted(
            old(metrics)@,
            old(cache)@,
            opt_language_view(source),
            target@,
            q@,
            format@,
        ),
{
    if let Some(s) = source {
        if text::same(s.code, target.code) {
            return Step::Done(q.to_owned());
        }
    }
    let key = CacheKey {
        source: match source {
            Some(l) => l.code.to_owned(),
            None => "auto".to_owned(),
        },
        target: target.code.to_owned(),
        format: format.to_owned(),
        text: q.to_owned(),
    };
    if let Some(hit) = cache.get(&key) {
        metrics::count(&mut metrics.cache_hits, 1);
        return Step::Done(hit);
    }
    let as_markdown = text::same(format, "html") && prompt.translates_html_as_markdown();
    let text = if as_markdown {
        markup::html_to_markdown(q)
    } else {
        q.to_owned()
    };
    Step::Translate {
        key,
        as_markdown,
        request: Request { source, target, format: format.to_owned(), text },
    }
}

/// What is done for a request, given what was detected for its text, or the answer to a request
/// for a language that there is not.
pub open spec fn started(
    prompt: PromptFormatView,
    entries: Entries,
    q: Seq<char>,
    source: Seq<char>,
    target: Seq<char>,
    format: Seq<char>,
    detection: Option<LangDetectView>,
) -> Result<StepView, ErrorResponseView> {
    match resolved(prompt, target) {
        Err(e) => Err(e),
        Ok(target) => match resolved_source(prompt, source, detection) {
            Err(e) => Err(e),
            Ok(source) => Ok(next_step(prompt, entries, source, target, q, format)),
        },
    }
}

/// Law: a target that is refused is the answer whatever the source is, and a source that is refused
/// is the answer where the target is not. Where neither is, work goes on.
pub proof fn law_refused_target_is_told_first(
    prompt: PromptFormatView,
    entries: Entries,
    q: Seq<char>,
    source: Seq<char>,
    target: Seq<char>,
    format: Seq<char>,
    detection: Option<LangDetectView>,
)
    ensures
        resolved(prompt, target) matches Err(e) ==> started(
            prompt,
            entries,
            q,
            source,
            target,
            format,
            detection,
        ) == Err::<StepView, ErrorResponseView>(e),
        resolved(prompt, target) is Ok ==> (resolved_source(prompt, source, detection) matches Err(e)
            ==> started(prompt, entries, q, source, target, format, detection) == Err::<
            StepView,
            ErrorResponseView,
        >(e)),
        resolved(prompt, target) is Ok && resolved_source(prompt, source, detection) is Ok
            ==> started(prompt, entries, q, source, target, format, detection) is Ok,
{
}

/// The language that is detected for a request: none where its source is given.
pub open spec fn detection_for(source: Seq<char>, q: Seq<char>) -> Option<LangDetectView> {
    if source == "auto"@ {
        detected(q)
    } else {
        None
    }
}

/// Decide what is done for a request: find its languages, detecting the source for "auto", and
/// look whether the translation is there already. Also tells what was detected.
pub fn run_translation(
    prompt: &PromptFormat,
    cache: &mut TranslationCache,
    metrics: &mut Metrics,
    q: &str,
    source: &str,
    target: &str,
    format: &str,
) -> (r: Result<(Step, Option<LangDetect>), ErrorResponse>)
    ensures
        match r {
            Ok((step, detection)) => opt_detect_view(detection) == detection_for(source@, q@)
                && started(
                prompt@,
                old(cache)@,
                q@,
                source@,
                target@,
                format@,
                detection_for(source@, q@),
            ) == Ok::<StepView, ErrorResponseView>(step@),
            Err(e) => started(
                prompt@,
                old(cache)@,
                q@,
                source@,
                target@,
                format@,
                detection_for(source@, q@),
            ) == Err::<StepView, ErrorResponseView>(e@),
        },
        match (
            resolved(prompt@, target@),
            resolved_source(prompt@, source@, detection_for(source@, q@)),
        ) {
            (Ok(t), Ok(s)) => final(cache)@ == asked(old(cache)@, s, t, q@, format@)
                && final(metrics)@ == hits_counted(
                old(metrics)@,
                old(cache)@,
                s,
                t,
                q@,
                format@,
            ),
            _ => final(cache)@ == old(cache)@ && final(metrics)@ == old(metrics)@,
        },
        final(cache).capacity() == old(cache).capacity(),
{
    let target_lang = match resolve_language(prompt, target) {
        Ok(l) => l,
        Err(e) => return Err(e),
    };
    let detection = if text::same(source, "auto") {
        languages::detect_lang(q)
    } else {
        None
    };
    let source_lang = match resolve_source(prompt, source, detection) {
        Ok(l) => l,
        Err(e) => return Err(e),
    };
    Ok((prepare(prompt, cache, metrics, source_lang, target_lang, q, format), detection))
}

/// The translation to answer with, from what the model said.
pub open spec fn finished(
    format: Seq<char>,
    as_markdown: bool,
    q: Seq<char>,
    output: Seq<char>,
) -> Seq<char> {
    if format == "text"@ {
        style_matched(q, output)
    } else if as_markdown {
        as_html(output, q)
    } else {
        output
    }
}

/// The cache after a translation was answered.
pub open spec fn kept_after(
    capacity: nat,
    entries: Entries,
    key: CacheKeyView,
    as_markdown: bool,
    output: Seq<char>,
) -> Entries {
    stored(capacity, entries, key, finished(key.format, as_markdown, key.text, output))
}

/// Make the translation to answer with from what the model said, and keep it.
pub fn finish_translation(
    cache: &mut TranslationCache,
    key: CacheKey,
    as_markdown: bool,
    output: String,
) -> (r: String)
    ensures
        r@ == finished(key.format@, as_markdown, key.text@, output@),
        final(cache)@ == stored(old(cache).capacity(), old(cache)@, key@, r@),
        final(cache)@ == kept_after(
            old(cache).capacity(),
            old(cache)@,
            key@,
            as_markdown,
            output@,
        ),
        final(cache).capacity() == old(cache).capacity(),
{
    let text = if text::same(key.format.as_str(), "text") {
        formatting::match_source_style(key.text.as_str(), output.as_str())
    } else if as_markdown {
        markup::markdown_to_html(output.as_str(), key.text.as_str())
    } else {
        output
    };
    cache.insert(key, text.clone());
    text
}

/// Law: a text that is in the target language already is its own translation.
pub proof fn law_same_language_is_its_own_translation(
    prompt: PromptFormatView,
    entries: Entries,
    l: LanguageView,
    q: Seq<char>,
    format: Seq<char>,
)
    ensures
        next_step(prompt, entries, Some(l), l, q, format) == StepView::Done(q),
{
}

/// Law: two requests are kept under the same key exactly where they have the same source or both
/// none that is known, the same target, the same format and the same text.
pub proof fn law_different_requests_have_different_keys(
    source: Option<LanguageView>,
    target: LanguageView,
    q: Seq<char>,
    format: Seq<char>,
    other_source: Option<LanguageView>,
    other_target: LanguageView,
    other_q: Seq<char>,
    other_format: Seq<char>,
)
    requires
        source matches Some(s) ==> s.code != "auto"@,
        other_source matches Some(s) ==> s.code != "auto"@,
    ensures
        translation_key(source, target, q, format) == translation_key(
            other_source,
            other_target,
            other_q,
            other_format,
        ) <==> (match (source, other_source) {
            (Some(a), Some(b)) => a.code == b.code,
            (None, None) => true,
            _ => false,
        }) && target.code == other_target.code && q == other_q && format == other_format,
{
}

/// Law: a translation that is stored for one request never answers another: a request with another
/// source, target, format or text goes to the engine after it as it did before.
pub proof fn law_translation_answers_no_other_request(
    prompt: PromptFormatView,
    capacity: nat,
    entries: Entries,
    source: Option<LanguageView>,
    target: LanguageView,
    q: Seq<char>,
    format: Seq<char>,
    translation: Seq<char>,
    other_source: Option<LanguageView>,
    other_target: LanguageView,
    other_q: Seq<char>,
    other_format: Seq<char>,
)
    requires
        valid(capacity, entries),
        source matches Some(s) ==> s.code != "auto"@,
        other_source matches Some(s) ==> s.code != "auto"@,
        target.code != other_target.code || q != other_q || format != other_format || (match (
            source,
            other_source,
        ) {
            (Some(a), Some(b)) => a.code != b.code,
            (None, None) => false,
            _ => true,
        }),
    ensures
        next_step(
            prompt,
            entries,
            other_source,
            other_target,
            other_q,
            other_format,
        ) is Translate ==> next_step(
            prompt,
            stored(capacity, entries, translation_key(source, target, q, format), translation),
            other_source,
            other_target,
            other_q,
            other_format,
        ) is Translate,
{
    let key = translation_key(source, target, q, format);
    let other = translation_key(other_source, other_target, other_q, other_format);
    assert(key.target == target.code && key.text == q && key.format == format);
    assert(key != other);
    law_storing_adds_only_its_key(capacity, entries, key, translation, other);
}

/// Law: what the engine is asked for is what the request asks for: the same source, the same
/// target, the same format and the same text; only HTML for a TranslateGemma is made Markdown, as
/// far as it can be converted. The engine is asked exactly where the languages differ and no
/// translation is kept for the request.
pub proof fn law_engine_is_asked_for_the_request(
    prompt: PromptFormatView,
    entries: Entries,
    source: Option<LanguageView>,
    target: LanguageView,
    q: Seq<char>,
    format: Seq<char>,
)
    ensures
        match next_step(prompt, entries, source, target, q, format) {
            StepView::Translate { key, as_markdown: by_way_of_markdown, request } => {
                &&& request.source == source
                &&& request.target == target
                &&& request.format == format
                &&& key == translation_key(source, target, q, format)
                &&& by_way_of_markdown <==> format == "html"@ && prompt is TranslateGemma
                &&& !by_way_of_markdown ==> request.text == q
                &&& by_way_of_markdown ==> match markup::htmd_conversion(q) {
                    Some(markdown) => request.text == markdown,
                    None => request.text == q,
                }
                &&& source matches Some(s) ==> s.code != target.code
                &&& lookup(entries, key) is None
            },
            StepView::Done(text) => {
                ||| source matches Some(s) && s.code == target.code && text == q
                ||| lookup(entries, translation_key(source, target, q, format)) == Some(text)
            },
        },
{
}

/// Law: a request takes the languages that its codes stand for: its target by its code, and its
/// source by its code, or the detected one for "auto", or none where nothing is detected.
pub proof fn law_request_takes_the_languages_it_names(
    prompt: PromptFormatView,
    entries: Entries,
    q: Seq<char>,
    source: Seq<char>,
    target: Seq<char>,
    format: Seq<char>,
    detection: Option<LangDetectView>,
)
    ensures
        started(prompt, entries, q, source, target, format, detection) matches Ok(
            StepView::Translate { key, as_markdown: by_way_of_markdown, request },
        ) ==> {
            &&& request.target.code == target || request.target.internal_code == target
            &&& accepts_language(prompt, request.target.code)
            &&& source == "auto"@ ==> request.source == (match detection {
                Some(d) => Some(d.language),
                None => None,
            })
            &&& source != "auto"@ ==> (request.source matches Some(s) && (s.code == source
                || s.internal_code == source))
            &&& request.source matches Some(s) ==> accepts_language(prompt, s.code)
            &&& request.format == format
            &&& key.text == q
        },
{
    law_found_language_has_the_code(target);
    law_found_language_has_the_code(source);
}

/// Law: a source is detected for "auto" only, from the text of the request.
pub proof fn law_only_auto_is_detected(source: Seq<char>, q: Seq<char>)
    ensures
        source == "auto"@ ==> detection_for(source, q) == detected(q),
        source != "auto"@ ==> detection_for(source, q) is None,
{
}

/// Law: a look into the cache changes no translation that it holds, and is counted exactly where
/// the answer comes from it.
pub proof fn law_cache_hits_are_counted(
    prompt: PromptFormatView,
    capacity: nat,
    m: MetricsView,
    entries: Entries,
    source: Option<LanguageView>,
    target: LanguageView,
    q: Seq<char>,
    format: Seq<char>,
    other: CacheKeyView,
)
    requires
        valid(capacity, entries),
        m.cache_hits < u64::MAX,
    ensures
        lookup(asked(entries, source, target, q, format), other) == lookup(entries, other),
        ({
            let after = hits_counted(m, entries, source, target, q, format);
            let hit = next_step(prompt, entries, source, target, q, format) is Done && !(
            source matches Some(s) && s.code == target.code);
            &&& after.cache_hits == m.cache_hits + (if hit {
                1int
            } else {
                0
            })
            &&& (MetricsView { cache_hits: m.cache_hits, ..after }) == m
        }),
{
    law_lookup_keeps_translations(
        capacity,
        entries,
        translation_key(source, target, q, format),
        other,
    );
}

/// Law: what is answered is made from what the model said: a text in the style of the request,
/// HTML that went by way of Markdown converted back for the HTML of the request, and any other
/// output as it is. The answer is what is kept for the same request.
pub proof fn law_answer_is_what_is_kept(
    capacity: nat,
    entries: Entries,
    key: CacheKeyView,
    by_way_of_markdown: bool,
    output: Seq<char>,
)
    requires
        valid(capacity, entries),
    ensures
        key.format == "text"@ ==> finished(key.format, by_way_of_markdown, key.text, output)
            == style_matched(key.text, output),
        key.format != "text"@ && by_way_of_markdown ==> finished(
            key.format,
            by_way_of_markdown,
            key.text,
            output,
        ) == as_html(output, key.text),
        key.format != "text"@ && !by_way_of_markdown ==> finished(
            key.format,
            by_way_of_markdown,
            key.text,
            output,
        ) == output,
        capacity > 0 ==> lookup(
            kept_after(capacity, entries, key, by_way_of_markdown, output),
            key,
        ) == Some(finished(key.format, by_way_of_markdown, key.text, output)),
        valid(capacity, kept_after(capacity, entries, key, by_way_of_markdown, output)),
{
    let answer = finished(key.format, by_way_of_markdown, key.text, output);
    law_storing_keeps_cache_valid(capacity, entries, key, answer);
    if capacity > 0 {
        law_stored_translation_is_found(capacity, entries, key, answer);
    }
}

/// Law: once a translation is made, the same request is answered with it and the engine is not
/// asked again, unless the cache is switched off.
pub proof fn law_repeated_request_is_answered_from_the_cache(
    prompt: PromptFormatView,
    capacity: nat,
    entries: Entries,
    source: Option<LanguageView>,
    target: LanguageView,
    q: Seq<char>,
    format: Seq<char>,
    translation: Seq<char>,
)
    requires
        capacity > 0,
        valid(capacity, entries),
        !same_language(source, target),
    ensures
        ({
            let key = translation_key(source, target, q, format);
            let kept = stored(
                capacity,
                asked(entries, source, target, q, format),
                key,
                translation,
            );
            next_step(prompt, kept, source, target, q, format) == StepView::Done(translation)
        }),
{
    let key = translation_key(source, target, q, format);
    law_lookup_keeps_cache_valid(capacity, entries, key);
    law_stored_translation_is_found(capacity, used(entries, key), key, translation);
}

/// Law: a language that the loaded model does not have is refused with status 400, as source and
/// as target, and so is a code that stands for no language.
pub proof fn law_unsupported_languages_are_refused(
    prompt: PromptFormatView,
    entries: Entries,
    q: Seq<char>,
    source: Seq<char>,
    target: Seq<char>,
    format: Seq<char>,
    detection: Option<LangDetectView>,
)
    requires
        source != "auto"@,
    ensures
        started(prompt, entries, q, source, target, format, detection) is Err <==> !(
        language_position(target) matches Some(t) && accepts_language(prompt, language(t).code)) || !(
        language_position(source) matches Some(s) && accepts_language(prompt, language(s).code)),
        started(prompt, entries, q, source, target, format, detection) matches Err(e) ==> e.status
            == 400,
{
}

/// Law: a request for a language that there is not, or that the loaded model does not have, is
/// told which it is.
pub proof fn law_refused_language_is_named(prompt: PromptFormatView, code: Seq<char>)
    ensures
        resolved(prompt, code) matches Err(e) ==> e.status == 400 && match language_of_code(code) {
            Some(l) => l.code.is_prefix_of(e.error) && !accepts_language(prompt, l.code),
            None => code.is_prefix_of(e.error),
        },
        resolved(prompt, code) matches Ok(l) ==> language_of_code(code) == Some(l)
            && accepts_language(prompt, l.code),
{
    if let Some(l) = language_of_code(code) {
        let error = l.code + " is not supported by the loaded model"@;
        assert(l.code =~= error.subrange(0, l.code.len() as int));
    }
    let error = code + " is not supported"@;
    assert(code =~= error.subrange(0, code.len() as int));
}

/// Law: "auto" is never refused for want of a detected language, but a detected language has to
/// be one that the loaded model has.
pub proof fn law_auto_is_refused_only_for_an_unsupported_detection(
    prompt: PromptFormatView,
    detection: Option<LangDetectView>,
)
    ensures
        resolved_source(prompt, "auto"@, detection) is Err <==> (detection matches Some(d)
            && !accepts_language(prompt, d.language.code)),
{
}

/// Law: where a chat model is asked, or a model with the built-in prompt is asked with a known
/// source, a request whose languages were found can be made into a prompt.
pub proof fn law_resolved_request_has_a_prompt(
    prompt: PromptFormatView,
    request: RequestView,
)
    requires
        accepts_language(prompt, request.target.code),
        request.source matches Some(s) ==> accepts_language(prompt, s.code),
        match prompt {
            PromptFormatView::TranslateGemma(tg) => tg.template is None && request.source is Some,
            PromptFormatView::Chat { .. } => true,
        },
    ensures
        prompt_step(prompt, request) is Ok,
        prompt is TranslateGemma <==> prompt_step(prompt, request) matches Ok(
            PromptStepView::Ready(_),
        ),
{
}

/// The languages that are served with the loaded model, or all of them where there is none.
pub open spec fn served(prompt: Option<PromptFormatView>) -> Seq<LanguageView> {
    match prompt {
        Some(format) => all_languages().filter(
            |l: LanguageView| accepts_language(format, l.code),
        ),
        None => all_languages(),
    }
}

/// The codes of a list of languages.
pub open spec fn codes_of(languages: Seq<LanguageView>) -> Seq<Seq<char>> {
    languages.map_values(|l: LanguageView| l.code)
}

/// The languages that are served; each of them can be translated to each of the targets.
#[derive(Debug)]
pub struct Listing {
    pub languages: Vec<Language>,
    pub targets: Vec<&'static str>,
}

/// List the languages that are served with the loaded model, if one is loaded.
pub fn list_languages(prompt: Option<&PromptFormat>) -> (r: Listing)
    ensures
        languages_view(r.languages@) == served(
            match prompt {
                Some(p) => Some(p@),
                None => None,
            },
        ),
        codes_view(r.targets@) == codes_of(languages_view(r.languages@)),
{
    let all = languages::languages();
    let ghost every = languages_view(all@);
    let mut listed: Vec<Language> = Vec::new();
    let mut targets: Vec<&'static str> = Vec::new();
    let mut i: usize = 0;
    let ghost format = match prompt {
        Some(p) => Some(p@),
        None => None,
    };
    let ghost wanted = |l: LanguageView| match format {
        Some(f) => accepts_language(f, l.code),
        None => true,
    };
    proof {
        reveal(Seq::filter);
        assert(languages_view(listed@) =~= every.take(0).filter(wanted));
        assert(codes_view(targets@) =~= codes_of(languages_view(listed@)));
    }
    while i < all.len()
        invariant
            i <= all.len(),
            every == languages_view(all@),
            format == (match prompt {
                Some(p) => Some(p@),
                None => None,
            }),
            wanted == (|l: LanguageView|
                match format {
                    Some(f) => accepts_language(f, l.code),
                    None => true,
                }),
            languages_view(listed@) == every.take(i as int).filter(wanted),
            codes_view(targets@) == codes_of(languages_view(listed@)),
        decreases all.len() - i,
    {
        let language = all[i];
        let ghost before = languages_view(listed@);
        let ghost codes = codes_view(targets@);
        proof {
            reveal(Seq::filter);
            assert(every.take(i + 1).drop_last() =~= every.take(i as int));
            assert(every.take(i + 1).last() == language@);
        }
        let serve = match prompt {
            Some(p) => p.supports_language(language.code),
            None => true,
        };
        assert(serve == wanted(language@));
        if serve {
            listed.push(language);
            targets.push(language.code);
            assert(languages_view(listed@) =~= before.push(language@));
            assert(codes_view(targets@) =~= codes.push(language@.code));
            assert(codes_of(before.push(language@)) =~= codes_of(before).push(language@.code));
        }
        i = i + 1;
    }
    proof {
        assert(every.take(i as int) =~= every);
        match format {
            Some(f) => {
                assert(wanted =~= (|l: LanguageView| accepts_language(f, l.code)));
            },
            None => {
                lemma_filter_all(every, wanted);
            },
        }
    }
    Listing { languages: listed, targets }
}

/// Law: of all languages, those that the loaded model accepts are served, and no others; without a
/// model all are. Each is listed with its own code.
pub proof fn law_accepted_languages_are_served(prompt: PromptFormatView, l: LanguageView)
    ensures
        served(None) == all_languages(),
        served(Some(prompt)).contains(l) <==> all_languages().contains(l) && accepts_language(
            prompt,
            l.code,
        ),
        codes_of(served(Some(prompt))).len() == served(Some(prompt)).len(),
        forall|i: int|
            0 <= i < served(Some(prompt)).len() ==> #[trigger] codes_of(served(Some(prompt)))[i]
                == served(Some(prompt))[i].code,
{
    let wanted = |l: LanguageView| accepts_language(prompt, l.code);
    broadcast use vstd::seq_lib::group_filter_ensures;

    let listed = all_languages().filter(wanted);
    if listed.contains(l) {
        let k = listed.index_of(l);
        assert(wanted(listed[k]));
        lemma_filter_adds_nothing(all_languages(), wanted, l);
    }
    if all_languages().contains(l) && accepts_language(prompt, l.code) {
        let k = all_languages().index_of(l);
        assert(wanted(all_languages()[k]));
    }
}

/// What comes through a filter was there before.
proof fn lemma_filter_adds_nothing(
    s: Seq<LanguageView>,
    wanted: spec_fn(LanguageView) -> bool,
    l: LanguageView,
)
    requires
        s.filter(wanted).contains(l),
    ensures
        s.contains(l),
    decreases s.len(),
{
    reveal(Seq::filter);
    if s.len() > 0 {
        let rest = s.drop_last();
        let k = s.filter(wanted).index_of(l);
        if k < rest.filter(wanted).len() {
            assert(rest.filter(wanted)[k] == l);
            lemma_filter_adds_nothing(rest, wanted, l);
            let i = rest.index_of(l);
            assert(s[i] == l);
        } else {
            assert(s[s.len() - 1] == l);
        }
    }
}

/// A filter that lets everything through changes nothing.
proof fn lemma_filter_all(s: Seq<LanguageView>, wanted: spec_fn(LanguageView) -> bool)
    requires
        forall|l: LanguageView| #[trigger] wanted(l),
    ensures
        s.filter(wanted) == s,
    decreases s.len(),
{
    reveal(Seq::filter);
    if s.len() > 0 {
        lemma_filter_all(s.drop_last(), wanted);
        assert(s.drop_last().push(s.last()) =~= s);
    }
}

/// Law: the languages that are listed are those that a request may ask for: a language is listed
/// exactly if its code is accepted as a target.
pub proof fn law_listed_languages_are_accepted(prompt: PromptFormatView, i: int)
    requires
        0 <= i < 49,
    ensures
        served(Some(prompt)).contains(language(i)) <==> resolved(prompt, public_code(i)) is Ok,
        resolved(prompt, public_code(i)) matches Ok(l) ==> l == language(i),
{
    law_every_code_finds_its_language(i);
    let wanted = |l: LanguageView| accepts_language(prompt, l.code);
    broadcast use vstd::seq_lib::group_filter_ensures;

    assert(all_languages()[i] == language(i));
    let listed = all_languages().filter(wanted);
    if accepts_language(prompt, language(i).code) {
        assert(wanted(all_languages()[i]));
    }
    if listed.contains(language(i)) {
        let k = listed.index_of(language(i));
        assert(wanted(listed[k]));
    }
}

/// The metrics after a request to translate came in.
pub open spec fn request_counted(m: MetricsView) -> MetricsView {
    MetricsView { requests: added(m.requests, 1), ..m }
}

/// Law: every request to translate is counted once, as a request and as nothing else; and an
/// answer is timed, whether it failed or not, while a success counts as no failure.
pub proof fn law_requests_are_counted(m: MetricsView, failure: Option<u16>, duration: u128)
    requires
        m.requests < u64::MAX,
    ensures
        request_counted(m).requests == m.requests + 1,
        (MetricsView { requests: m.requests, ..request_counted(m) }) == m,
        answered(m, failure, duration).request_duration == observed(m.request_duration, duration),
        (MetricsView {
            request_duration: m.request_duration,
            errors: m.errors,
            rejected_busy: m.rejected_busy,
            ..answered(m, failure, duration)
        }) == m,
        failure is None ==> answered(m, failure, duration).errors == m.errors && answered(
            m,
            failure,
            duration,
        ).rejected_busy == m.rejected_busy,
{
}

/// A request to translate is counted.
pub fn count_request(metrics: &mut Metrics)
    ensures
        final(metrics)@ == request_counted(old(metrics)@),
{
    metrics::count(&mut metrics.requests, 1);
}

/// The metrics after a request was answered, with the status of its error if it failed.
pub open spec fn answered(m: MetricsView, failure: Option<u16>, duration: u128) -> MetricsView {
    MetricsView {
        rejected_busy: if failure == Some(503u16) {
            added(m.rejected_busy, 1)
        } else {
            m.rejected_busy
        },
        errors: match failure {
            Some(status) if status != 499 && status != 503 => added(m.errors, 1),
            _ => m.errors,
        },
        request_duration: observed(m.request_duration, duration),
        ..m
    }
}

/// A request was answered after so many nanoseconds: count its failure, if it failed. Callers
/// that went away are counted elsewhere.
pub fn count_answer(metrics: &mut Metrics, failure: Option<u16>, duration: u128)
    ensures
        final(metrics)@ == answered(old(metrics)@, failure, duration),
{
    match failure {
        Some(499) | None => {},
        Some(503) => metrics::count(&mut metrics.rejected_busy, 1),
        Some(_) => metrics::count(&mut metrics.errors, 1),
    }
    metrics.request_duration.observe(duration);
}

/// Law: every failure is counted once, as busy or as an error, but for callers that went away.
pub proof fn law_failures_are_counted_once(m: MetricsView, status: u16, duration: u128)
    ensures
        ({
            let after = answered(m, Some(status), duration);
            &&& after.rejected_busy == (if status == 503 {
                added(m.rejected_busy, 1)
            } else {
                m.rejected_busy
            })
            &&& after.errors == (if status == 499 || status == 503 {
                m.errors
            } else {
                added(m.errors, 1)
            })
        }),
{
}

/// A detected language as it is told; without a confidence nothing was detected.
#[derive(Debug, Clone, Copy)]
pub struct DetectedLanguage {
    pub language: &'static str,
    pub confidence_bits: Option<u64>,
}

/// A detected language as it is told, with its text.
pub struct DetectedLanguageView {
    pub language: Seq<char>,
    pub confidence_bits: Option<u64>,
}

impl View for DetectedLanguage {
    type V = DetectedLanguageView;

    open spec fn view(&self) -> DetectedLanguageView {
        DetectedLanguageView {
            language: self.language@,
            confidence_bits: self.confidence_bits,
        }
    }
}

/// What is told of a detection: the first language where there is none.
pub open spec fn detection_told(detection: Option<LangDetectView>) -> DetectedLanguageView {
    match detection {
        Some(d) => DetectedLanguageView {
            language: d.language.code,
            confidence_bits: Some(d.confidence_bits),
        },
        None => DetectedLanguageView { language: public_code(0), confidence_bits: None },
    }
}

/// Law: what is told of a detection is the public code of the detected language with its
/// confidence; English without any confidence where nothing was detected.
pub proof fn law_detected_language_is_told(detection: Option<LangDetectView>)
    ensures
        detection matches Some(d) ==> detection_told(detection).language == d.language.code
            && detection_told(detection).confidence_bits == Some(d.confidence_bits),
        detection is None ==> detection_told(detection).language == "en"@ && detection_told(
            detection,
        ).confidence_bits is None,
{
    reveal_strlit("");
}

/// Tell of a detection.
pub fn tell_detection(detection: Option<LangDetect>) -> (r: DetectedLanguage)
    ensures
        r@ == detection_told(opt_detect_view(detection)),
{
    match detection {
        Some(d) => DetectedLanguage {
            language: d.language.code,
            confidence_bits: Some(d.confidence_bits),
        },
        None => {
            let languages = languages::languages();
            assert(languages_view(languages@).len() == languages.len());
            assert(languages_view(languages@)[0] == languages[0]@);
            assert(all_languages()[0] == language(0));
            DetectedLanguage { language: languages[0].code, confidence_bits: None }
        },
    }
}

/// The answer to a request to detect the language of a text.
pub fn detect(q: &str) -> (r: DetectedLanguage)
    ensures
        r@ == detection_told(detected(q@)),
{
    tell_detection(languages::detect_lang(q))
}

/// The answer to a request to translate.
#[derive(Debug)]
pub struct TranslateResponse {
    pub translated_text: String,
    /// There is a list of alternatives, which is empty: none are generated.
    pub alternatives: bool,
    pub detected_language: Option<DetectedLanguage>,
}

/// The answer to a request to translate, with its texts.
pub struct TranslateResponseView {
    pub translated_text: Seq<char>,
    pub alternatives: bool,
    pub detected_language: Option<DetectedLanguageView>,
}

impl View for TranslateResponse {
    type V = TranslateResponseView;

    open spec fn view(&self) -> TranslateResponseView {
        TranslateResponseView {
            translated_text: self.translated_text@,
            alternatives: self.alternatives,
            detected_language: match self.detected_language {
                Some(d) => Some(d@),
                None => None,
            },
        }
    }
}

/// The answer to a request to translate.
pub open spec fn response_to(
    translated_text: Seq<char>,
    alternatives: Option<u32>,
    source: Seq<char>,
    detection: Option<LangDetectView>,
) -> TranslateResponseView {
    TranslateResponseView {
        translated_text,
        alternatives: alternatives matches Some(n) && n > 0,
        detected_language: if source == "auto"@ {
            Some(detection_told(detection))
        } else {
            None
        },
    }
}

/// Law: the answer to a request holds the translation as it is; a list of alternatives where some
/// were asked for; and, exactly where the source was to be detected, the language that was.
pub proof fn law_response_holds_the_translation(
    translated_text: Seq<char>,
    alternatives: Option<u32>,
    source: Seq<char>,
    detection: Option<LangDetectView>,
)
    ensures
        ({
            let r = response_to(translated_text, alternatives, source, detection);
            &&& r.translated_text == translated_text
            &&& r.alternatives <==> alternatives is Some && alternatives->0 != 0
            &&& r.detected_language is Some <==> source == "auto"@
            &&& source == "auto"@ ==> (detection matches Some(d) ==> r.detected_language->0.language
                == d.language.code && r.detected_language->0.confidence_bits == Some(
                d.confidence_bits,
            ))
        }),
{
}

/// Make the answer to a request to translate: the detected language is told where the source was
/// "auto".
pub fn translate_response(
    translated_text: String,
    alternatives: Option<u32>,
    source: &str,
    detection: Option<LangDetect>,
) -> (r: TranslateResponse)
    ensures
        r@ == response_to(translated_text@, alternatives, source@, opt_detect_view(detection)),
        r.translated_text@ == translated_text@,
        r.alternatives == (alternatives matches Some(n) && n > 0),
        match r.detected_language {
            Some(d) => source@ == "auto"@ && d@ == detection_told(opt_detect_view(detection)),
            None => source@ != "auto"@,
        },
{
    let alternatives = match alternatives {
        Some(n) => n > 0,
        None => false,
    };
    let detected_language = if text::same(source, "auto") {
        Some(tell_detection(detection))
    } else {
        None
    };
    TranslateResponse { translated_text, alternatives, detected_language }
}

/// What the web interface is told: the character limit, and whether an API key is required.
#[derive(Debug, Clone, Copy, PartialEq, Eq, Structural)]
pub struct FrontendSettings {
    pub char_limit: usize,
    pub key_required: bool,
}

/// What the web interface is told of the settings.
pub open spec fn settings_told(args: Args) -> FrontendSettings {
    FrontendSettings { char_limit: args.char_limit, key_required: args.api_key@.len() > 0 }
}

/// Law: the web interface is told the limit by which texts are refused, and that a key is required
/// exactly where a request without one is refused for it.
pub proof fn law_web_interface_knows_the_limits(args: Args, q: Seq<char>)
    ensures
        settings_told(args).key_required <==> q.len() <= args.char_limit && checked(
            Some(q),
            None,
            args.api_key@,
            args.char_limit as int,
            Seq::empty(),
        ) is Err || (q.len() > args.char_limit && args.api_key@.len() > 0),
        !settings_told(args).key_required ==> (q.len() <= settings_told(args).char_limit <==> checked(
            Some(q),
            None,
            args.api_key@,
            args.char_limit as int,
            Seq::empty(),
        ) is Ok),
{
}

/// Tell the web interface its settings.
pub fn frontend_settings(args: &Args) -> (r: FrontendSettings)
    ensures
        r == settings_told(*args),
        r.char_limit == args.char_limit,
        r.key_required == (args.api_key@.len() > 0),
{
    FrontendSettings {
        char_limit: args.char_limit,
        key_required: args.api_key.as_str().unicode_len() != 0,
    }
}

/// The status that tells whether translations can be served, from the state of the engine.
pub open spec fn readiness(state: Seq<char>) -> u16 {
    if state == "ready"@ {
        200
    } else {
        503
    }
}

/// The status that tells whether translations can be served, from the state of the engine.
pub fn ready_status(state: &str) -> (r: u16)
    ensures
        r == readiness(state@),
{
    if text::same(state, "ready") {
        200
    } else {
        503
    }
}

/// Law: the engine is reported ready exactly while its model can be asked for.
pub proof fn law_ready_exactly_when_loaded(status: StatusView)
    ensures
        readiness(state_name(status)) == 200 <==> available_model(status) is Ok,
        readiness(state_name(status)) == 200 || readiness(state_name(status)) == 503,
{
    reveal_strlit("loading");
    reveal_strlit("ready");
    reveal_strlit("failed");
    assert("loading"@.len() != "ready"@.len());
    assert("failed"@.len() != "ready"@.len());
}

/// A client has closed its connection, from what a look at the next byte gave.
pub open spec fn connection_closed(received: int, passing_error: bool) -> bool {
    received == 0 || (received < 0 && !passing_error)
}

/// Law: a connection is closed where nothing more will come or it is broken; it is not where
/// something came, nor where the look failed for the moment only.
pub proof fn law_closed_connection_is_noticed(received: int, passing_error: bool)
    ensures
        received > 0 ==> !connection_closed(received, passing_error),
        connection_closed(0, passing_error),
        received < 0 ==> (connection_closed(received, passing_error) <==> !passing_error),
{
}

/// Whether a client has closed its connection, from what a look at the next byte gave: how many
/// bytes there are, negative for an error, and whether such an error is one that passes. The
/// request has been read by then, so there is a byte only where the client sent another request.
pub fn peer_closed(received: i64, passing_error: bool) -> (r: bool)
    ensures
        r == connection_closed(received as int, passing_error),
{
    received == 0 || (received < 0 && !passing_error)
}

} // verus!
