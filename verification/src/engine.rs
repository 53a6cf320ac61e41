//! Inference engine: its state, its queue and how a model is brought up.
//!
//! A single dedicated thread owns the model and one persistent context. Requests reach it
//! through a bounded queue:
//!
//! * the context is allocated and warmed up once at startup, so a request can never trigger a
//!   fresh GPU allocation;
//! * inference is serialized, which is what a single small GPU wants anyway;
//! * when the queue is full, requests are rejected immediately with "Server busy" instead of
//!   piling up;
//! * callers that go away flag their job as cancelled, and the worker stops generating at the
//!   next token.

use vstd::prelude::*;
use vstd::string::*;

use crate::languages::{opt_language_view, Language, LanguageView};
use crate::loader;
use crate::loader::{GpuLayers, LoadConfig, Offload, Plan};
use crate::metrics;
use crate::metrics::{added, moved, observed, Metrics, MetricsView};
use crate::prompt::{detected_format, opt_str_view, PromptFormat, PromptFormatView};
use crate::text;
use crate::text::decimal;

verus! {

/// Give up on GPU fallback after this many load attempts.
pub const MAX_LOAD_ATTEMPTS: usize = 24;

/// Engine configuration.
#[derive(Debug)]
pub struct EngineConfig {
    /// Name of the model to download, unless `model_file` is set.
    pub model: String,
    /// Local GGUF path.
    pub model_file: String,
    pub load: LoadConfig,
    /// Absolute cap on generated tokens per request.
    pub max_new_tokens: u32,
    /// Requests that may wait for the worker while it is busy.
    pub queue_size: usize,
    /// Requests that waited longer than this many seconds are rejected as busy.
    pub queue_timeout: u64,
}

/// Errors surfaced to API callers.
#[derive(Debug)]
pub enum EngineError {
    Loading,
    Unavailable(String),
    QueueFull,
    QueueTimeout,
    Cancelled,
    UnsupportedLanguage(String),
    InputTooLong { tokens: usize, n_ctx: u32 },
    OutputLimit(usize),
    EmptyOutput,
    /// Something failed that callers are not told about.
    Internal(String),
}

/// An engine error with its texts.
pub enum EngineErrorView {
    Loading,
    Unavailable(Seq<char>),
    QueueFull,
    QueueTimeout,
    Cancelled,
    UnsupportedLanguage(Seq<char>),
    InputTooLong { tokens: usize, n_ctx: u32 },
    OutputLimit(usize),
    EmptyOutput,
    Internal(Seq<char>),
}

impl View for EngineError {
    type V = EngineErrorView;

    open spec fn view(&self) -> EngineErrorView {
        match self {
            EngineError::Loading => EngineErrorView::Loading,
            EngineError::Unavailable(e) => EngineErrorView::Unavailable(e@),
            EngineError::QueueFull => EngineErrorView::QueueFull,
            EngineError::QueueTimeout => EngineErrorView::QueueTimeout,
            EngineError::Cancelled => EngineErrorView::Cancelled,
            EngineError::UnsupportedLanguage(e) => EngineErrorView::UnsupportedLanguage(e@),
            EngineError::InputTooLong { tokens, n_ctx } => EngineErrorView::InputTooLong {
                tokens: *tokens,
                n_ctx: *n_ctx,
            },
            EngineError::OutputLimit(n) => EngineErrorView::OutputLimit(*n),
            EngineError::EmptyOutput => EngineErrorView::EmptyOutput,
            EngineError::Internal(e) => EngineErrorView::Internal(e@),
        }
    }
}

/// What callers are told about an error.
pub open spec fn engine_error_text(e: EngineErrorView) -> Seq<char> {
    match e {
        EngineErrorView::Loading => "Model is loading, please try again later"@,
        EngineErrorView::Unavailable(reason) => "Translation engine unavailable: "@ + reason,
        EngineErrorView::QueueFull => "Server busy, please try again later"@,
        EngineErrorView::QueueTimeout => "Server busy, please try again later (queue timeout)"@,
        EngineErrorView::Cancelled => "Request cancelled"@,
        EngineErrorView::UnsupportedLanguage(reason) => reason,
        EngineErrorView::InputTooLong { tokens, n_ctx } => "Input too long: "@ + decimal(
            tokens as nat,
        ) + " prompt tokens, context size is "@ + decimal(n_ctx as nat),
        EngineErrorView::OutputLimit(n) => "Translation exceeded the output limit of "@ + decimal(
            n as nat,
        ) + " tokens"@,
        EngineErrorView::EmptyOutput => "Model produced an empty translation"@,
        EngineErrorView::Internal(_) => "Translation failed"@,
    }
}

/// HTTP status for an error.
pub open spec fn engine_error_status(e: EngineErrorView) -> u16 {
    match e {
        EngineErrorView::Loading => 503,
        EngineErrorView::Unavailable(_) => 503,
        EngineErrorView::QueueFull => 503,
        EngineErrorView::QueueTimeout => 503,
        EngineErrorView::Cancelled => 499,
        EngineErrorView::UnsupportedLanguage(_) => 400,
        EngineErrorView::InputTooLong { .. } => 400,
        EngineErrorView::OutputLimit(_) => 422,
        EngineErrorView::EmptyOutput => 422,
        EngineErrorView::Internal(_) => 500,
    }
}

impl EngineError {
    /// HTTP status for this error. 4xx errors are deterministic (greedy decoding gives the same
    /// result on retry); 503 means "retry later".
    pub fn status(&self) -> (r: u16)
        ensures
            r == engine_error_status(self@),
    {
        match self {
            EngineError::Loading
            | EngineError::Unavailable(_)
            | EngineError::QueueFull
            | EngineError::QueueTimeout => 503,
            EngineError::Cancelled => 499,
            EngineError::UnsupportedLanguage(_) | EngineError::InputTooLong { .. } => 400,
            EngineError::OutputLimit(_) | EngineError::EmptyOutput => 422,
            EngineError::Internal(_) => 500,
        }
    }

    /// What callers are told about this error.
    pub fn message(&self) -> (r: String)
        ensures
            r@ == engine_error_text(self@),
    {
        match self {
            EngineError::Loading => "Model is loading, please try again later".to_owned(),
            EngineError::Unavailable(reason) => {
                let mut r = "Translation engine unavailable: ".to_owned();
                r.append(reason.as_str());
                r
            },
            EngineError::QueueFull => "Server busy, please try again later".to_owned(),
            EngineError::QueueTimeout => {
                "Server busy, please try again later (queue timeout)".to_owned()
            },
            EngineError::Cancelled => "Request cancelled".to_owned(),
            EngineError::UnsupportedLanguage(reason) => reason.clone(),
            EngineError::InputTooLong { tokens, n_ctx } => {
                let tokens = text::to_decimal(*tokens as u64);
                let n_ctx = text::to_decimal(*n_ctx as u64);
                let mut r = "Input too long: ".to_owned();
                r.append(tokens.as_str());
                r.append(" prompt tokens, context size is ");
                r.append(n_ctx.as_str());
                r
            },
            EngineError::OutputLimit(n) => {
                let n = text::to_decimal(*n as u64);
                let mut r = "Translation exceeded the output limit of ".to_owned();
                r.append(n.as_str());
                r.append(" tokens");
                r
            },
            EngineError::EmptyOutput => "Model produced an empty translation".to_owned(),
            EngineError::Internal(_) => "Translation failed".to_owned(),
        }
    }
}

/// Law: both errors of a busy server say so in the same words, by which clients recognise them.
pub proof fn law_busy_errors_mention_server_busy()
    ensures
        "Server busy"@.is_prefix_of(engine_error_text(EngineErrorView::QueueFull)),
        "Server busy"@.is_prefix_of(engine_error_text(EngineErrorView::QueueTimeout)),
{
    reveal_strlit("Server busy");
    reveal_strlit("Server busy, please try again later");
    reveal_strlit("Server busy, please try again later (queue timeout)");
}

/// Law: callers are told why the engine is unavailable and what language is not supported, how many
/// tokens their input has and how large the context is, and what the output limit is; but never
/// what failed inside.
pub proof fn law_errors_tell_their_reason(
    reason: Seq<char>,
    other: Seq<char>,
    tokens: usize,
    n_ctx: u32,
)
    ensures
        reason.is_suffix_of(engine_error_text(EngineErrorView::Unavailable(reason))),
        engine_error_text(EngineErrorView::UnsupportedLanguage(reason)) == reason,
        text::has_part(
            engine_error_text(EngineErrorView::InputTooLong { tokens, n_ctx }),
            decimal(tokens as nat) + " prompt tokens"@,
        ),
        ("context size is "@ + decimal(n_ctx as nat)).is_suffix_of(
            engine_error_text(EngineErrorView::InputTooLong { tokens, n_ctx }),
        ),
        (decimal(tokens as nat) + " tokens"@).is_suffix_of(
            engine_error_text(EngineErrorView::OutputLimit(tokens)),
        ),
        engine_error_text(EngineErrorView::Internal(reason)) == engine_error_text(
            EngineErrorView::Internal(other),
        ),
{
    reveal_strlit(" prompt tokens, context size is ");
    reveal_strlit(" prompt tokens");
    reveal_strlit("context size is ");
    let unavailable = "Translation engine unavailable: "@ + reason;
    assert(reason =~= unavailable.subrange(
        unavailable.len() - reason.len(),
        unavailable.len() as int,
    ));
    let n = decimal(tokens as nat);
    let m = decimal(n_ctx as nat);
    let long = "Input too long: "@ + n + " prompt tokens, context size is "@ + m;
    let told = n + " prompt tokens"@;
    let at = "Input too long: "@.len() as int;
    assert(long.subrange(at, at + told.len()) =~= told);
    assert(text::occurs_at(long, told, at));
    let size = "context size is "@ + m;
    assert(size =~= long.subrange(long.len() - size.len(), long.len() as int));
    let limit = "Translation exceeded the output limit of "@ + n + " tokens"@;
    let end = n + " tokens"@;
    assert(end =~= limit.subrange(limit.len() - end.len(), limit.len() as int));
}

/// Law: who can try again later is told so, and who gave up is told that the request is cancelled.
pub proof fn law_errors_tell_what_happened()
    ensures
        text::has_part(engine_error_text(EngineErrorView::Loading), "loading"@),
        text::has_part(engine_error_text(EngineErrorView::Loading), "try again later"@),
        text::has_part(engine_error_text(EngineErrorView::QueueFull), "busy"@),
        text::has_part(engine_error_text(EngineErrorView::QueueFull), "try again later"@),
        text::has_part(engine_error_text(EngineErrorView::QueueTimeout), "busy"@),
        text::has_part(engine_error_text(EngineErrorView::QueueTimeout), "queue timeout"@),
        text::has_part(engine_error_text(EngineErrorView::Cancelled), "cancelled"@),
        text::has_part(engine_error_text(EngineErrorView::EmptyOutput), "empty"@),
{
    reveal_strlit("Model is loading, please try again later");
    reveal_strlit("Server busy, please try again later");
    reveal_strlit("Server busy, please try again later (queue timeout)");
    reveal_strlit("Request cancelled");
    reveal_strlit("Model produced an empty translation");
    reveal_strlit("loading");
    reveal_strlit("try again later");
    reveal_strlit("busy");
    reveal_strlit("queue timeout");
    reveal_strlit("cancelled");
    reveal_strlit("empty");
    let loading = engine_error_text(EngineErrorView::Loading);
    assert(loading.subrange(9, 16) =~= "loading"@);
    assert(text::occurs_at(loading, "loading"@, 9));
    assert(loading.subrange(25, 40) =~= "try again later"@);
    assert(text::occurs_at(loading, "try again later"@, 25));
    let full = engine_error_text(EngineErrorView::QueueFull);
    assert(full.subrange(7, 11) =~= "busy"@);
    assert(text::occurs_at(full, "busy"@, 7));
    assert(full.subrange(20, 35) =~= "try again later"@);
    assert(text::occurs_at(full, "try again later"@, 20));
    let timeout = engine_error_text(EngineErrorView::QueueTimeout);
    assert(timeout.subrange(7, 11) =~= "busy"@);
    assert(text::occurs_at(timeout, "busy"@, 7));
    assert(timeout.subrange(37, 50) =~= "queue timeout"@);
    assert(text::occurs_at(timeout, "queue timeout"@, 37));
    let cancelled = engine_error_text(EngineErrorView::Cancelled);
    assert(cancelled.subrange(8, 17) =~= "cancelled"@);
    assert(text::occurs_at(cancelled, "cancelled"@, 8));
    let empty = engine_error_text(EngineErrorView::EmptyOutput);
    assert(empty.subrange(18, 23) =~= "empty"@);
    assert(text::occurs_at(empty, "empty"@, 18));
}

/// Law: the status of an error tells what to do about it: try again later exactly where the engine
/// is the cause, and not again where the request is at fault or the model cannot translate it.
pub proof fn law_status_tells_what_to_do(e: EngineErrorView)
    ensures
        engine_error_status(e) == 503 <==> (e is Loading || e is Unavailable || e is QueueFull
            || e is QueueTimeout),
        engine_error_status(e) == 400 <==> (e is UnsupportedLanguage || e is InputTooLong),
        engine_error_status(e) == 422 <==> (e is OutputLimit || e is EmptyOutput),
        engine_error_status(e) == 499 <==> e is Cancelled,
        engine_error_status(e) == 500 <==> e is Internal,
{
}

/// A translation request with resolved languages.
#[derive(Debug)]
pub struct Request {
    /// `None` only for generic chat models when detection failed.
    pub source: Option<Language>,
    pub target: Language,
    pub format: String,
    pub text: String,
}

/// A request with its texts.
pub struct RequestView {
    pub source: Option<LanguageView>,
    pub target: LanguageView,
    pub format: Seq<char>,
    pub text: Seq<char>,
}

impl View for Request {
    type V = RequestView;

    open spec fn view(&self) -> RequestView {
        RequestView {
            source: opt_language_view(self.source),
            target: self.target@,
            format: self.format@,
            text: self.text@,
        }
    }
}

/// What generation gave: the translation, and how many tokens went in and came out.
#[derive(Debug)]
pub struct Generated {
    pub text: String,
    pub input_tokens: usize,
    pub output_tokens: usize,
}

/// A completed translation, with its times in nanoseconds.
#[derive(Debug)]
pub struct Output {
    pub text: String,
    pub input_tokens: usize,
    pub output_tokens: usize,
    pub queue_time: u128,
    pub inference_time: u128,
}

/// What generation gave, with its text.
pub struct GeneratedView {
    pub text: Seq<char>,
    pub input_tokens: usize,
    pub output_tokens: usize,
}

impl View for Generated {
    type V = GeneratedView;

    open spec fn view(&self) -> GeneratedView {
        GeneratedView {
            text: self.text@,
            input_tokens: self.input_tokens,
            output_tokens: self.output_tokens,
        }
    }
}

/// A completed translation with its text.
pub struct OutputView {
    pub text: Seq<char>,
    pub input_tokens: usize,
    pub output_tokens: usize,
    pub queue_time: u128,
    pub inference_time: u128,
}

impl View for Output {
    type V = OutputView;

    open spec fn view(&self) -> OutputView {
        OutputView {
            text: self.text@,
            input_tokens: self.input_tokens,
            output_tokens: self.output_tokens,
            queue_time: self.queue_time,
            inference_time: self.inference_time,
        }
    }
}

/// What generation gave or failed with, with its texts.
pub open spec fn generated_view(r: Result<Generated, EngineError>) -> Result<
    GeneratedView,
    EngineErrorView,
> {
    match r {
        Ok(g) => Ok(g@),
        Err(e) => Err(e@),
    }
}

/// The answer to a job, with its texts.
pub open spec fn output_view(r: Result<Output, EngineError>) -> Result<OutputView, EngineErrorView> {
    match r {
        Ok(output) => Ok(output@),
        Err(e) => Err(e@),
    }
}

/// Read-only facts about the loaded model.
#[derive(Debug)]
pub struct ModelInfo {
    pub prompt: PromptFormat,
    pub n_ctx: u32,
}

/// Facts about the loaded model with their texts.
pub struct ModelInfoView {
    pub prompt: PromptFormatView,
    pub n_ctx: u32,
}

impl View for ModelInfo {
    type V = ModelInfoView;

    open spec fn view(&self) -> ModelInfoView {
        ModelInfoView { prompt: self.prompt@, n_ctx: self.n_ctx }
    }
}

impl ModelInfo {
    /// The facts about a model, from its architecture, its chat template and the context size.
    pub fn describe(architecture: Option<&str>, chat_template: Option<&str>, n_ctx: u32) -> (r:
        ModelInfo)
        ensures
            r@ == (ModelInfoView {
                prompt: detected_format(opt_str_view(architecture), opt_str_view(chat_template)),
                n_ctx,
            }),
    {
        ModelInfo { prompt: PromptFormat::detect(architecture, chat_template), n_ctx }
    }
}

/// State of the engine.
#[derive(Debug)]
pub enum Status {
    Loading,
    Ready(ModelInfo),
    Failed(String),
}

/// State of the engine with its texts.
pub enum StatusView {
    Loading,
    Ready(ModelInfoView),
    Failed(Seq<char>),
}

/// The engine as its callers see it.
#[derive(Debug)]
pub struct Engine {
    status: Status,
}

impl View for Engine {
    type V = StatusView;

    closed spec fn view(&self) -> StatusView {
        match self.status {
            Status::Loading => StatusView::Loading,
            Status::Ready(info) => StatusView::Ready(info@),
            Status::Failed(reason) => StatusView::Failed(reason@),
        }
    }
}

/// Loaded model details, or why they are not available.
pub open spec fn available_model(status: StatusView) -> Result<ModelInfoView, EngineErrorView> {
    match status {
        StatusView::Loading => Err(EngineErrorView::Loading),
        StatusView::Ready(info) => Ok(info),
        StatusView::Failed(reason) => Err(EngineErrorView::Unavailable(reason)),
    }
}

/// The name of a state of the engine.
pub open spec fn state_name(status: StatusView) -> Seq<char> {
    match status {
        StatusView::Loading => "loading"@,
        StatusView::Ready(_) => "ready"@,
        StatusView::Failed(_) => "failed"@,
    }
}

/// Why a job could not be put into the queue.
#[derive(Debug, Clone, Copy, PartialEq, Eq, Structural)]
pub enum SendFailure {
    /// As many jobs wait as may wait.
    Full,
    /// The worker is gone.
    Disconnected,
}

/// What is told when the worker is gone.
pub const WORKER_STOPPED: &'static str = "inference worker stopped";

/// The metrics after a model was loaded, or the engine failed.
pub open spec fn with_model(m: MetricsView, loaded: bool) -> MetricsView {
    MetricsView { model_loaded: loaded, ..m }
}

/// The metrics after a translation was admitted to the queue.
pub open spec fn admitted(m: MetricsView) -> MetricsView {
    MetricsView { queued: moved(m.queued, 1), ..m }
}

/// The metrics after an admitted translation was taken back.
pub open spec fn taken_back(m: MetricsView) -> MetricsView {
    MetricsView { queued: moved(m.queued, -1), ..m }
}

/// The error of a translation that could not be put into the queue.
pub open spec fn turned_away(failure: SendFailure) -> EngineErrorView {
    match failure {
        SendFailure::Full => EngineErrorView::QueueFull,
        SendFailure::Disconnected => EngineErrorView::Unavailable(WORKER_STOPPED@),
    }
}

impl Engine {
    /// An engine that begins to load its model.
    pub fn start() -> (r: Engine)
        ensures
            r@ == StatusView::Loading,
    {
        Engine { status: Status::Loading }
    }

    /// The model is loaded.
    pub fn ready(&mut self, info: ModelInfo, metrics: &mut Metrics)
        ensures
            final(self)@ == StatusView::Ready(info@),
            final(metrics)@ == with_model(old(metrics)@, true),
    {
        metrics.model_loaded = true;
        self.status = Status::Ready(info);
    }

    /// The engine failed for good.
    pub fn failed(&mut self, reason: String, metrics: &mut Metrics)
        ensures
            final(self)@ == StatusView::Failed(reason@),
            final(metrics)@ == with_model(old(metrics)@, false),
    {
        self.status = Status::Failed(reason);
        metrics.model_loaded = false;
    }

    /// Loaded model details, or why they are not available.
    pub fn model(&self) -> (r: Result<&ModelInfo, EngineError>)
        ensures
            match r {
                Ok(info) => available_model(self@) == Ok::<ModelInfoView, EngineErrorView>(info@),
                Err(e) => available_model(self@) == Err::<ModelInfoView, EngineErrorView>(e@),
            },
    {
        match &self.status {
            Status::Loading => Err(EngineError::Loading),
            Status::Ready(info) => Ok(info),
            Status::Failed(reason) => Err(EngineError::Unavailable(reason.clone())),
        }
    }

    /// `"loading"`, `"ready"` or `"failed"`.
    pub fn state(&self) -> (r: &'static str)
        ensures
            r@ == state_name(self@),
    {
        match &self.status {
            Status::Loading => "loading",
            Status::Ready(_) => "ready",
            Status::Failed(_) => "failed",
        }
    }

    /// Admit a translation to the queue, as far as the engine is ready.
    pub fn enter(&self, metrics: &mut Metrics) -> (r: Result<(), EngineError>)
        ensures
            match r {
                Ok(_) => self@ is Ready && final(metrics)@ == admitted(old(metrics)@),
                Err(e) => available_model(self@) == Err::<ModelInfoView, EngineErrorView>(e@)
                    && final(metrics)@ == old(metrics)@,
            },
    {
        match self.model() {
            Ok(_) => {
                metrics::raise(&mut metrics.queued);
                Ok(())
            },
            Err(e) => Err(e),
        }
    }

    /// Take an admitted translation back that could not be put into the queue.
    pub fn turn_away(metrics: &mut Metrics, failure: SendFailure) -> (r: EngineError)
        ensures
            r@ == turned_away(failure),
            final(metrics)@ == taken_back(old(metrics)@),
    {
        metrics::lower(&mut metrics.queued);
        match failure {
            SendFailure::Full => EngineError::QueueFull,
            SendFailure::Disconnected => EngineError::Unavailable(WORKER_STOPPED.to_owned()),
        }
    }

    /// The error for a job whose answer never came.
    pub fn unanswered() -> (r: EngineError)
        ensures
            r@ == EngineErrorView::Unavailable(WORKER_STOPPED@),
    {
        EngineError::Unavailable(WORKER_STOPPED.to_owned())
    }
}

/// Law: an engine without a loaded model asks callers to try again later, and only such an engine
/// keeps its model back.
pub proof fn law_engine_without_model_asks_to_retry(status: StatusView)
    ensures
        available_model(status) is Ok <==> status is Ready,
        available_model(status) matches Err(e) ==> engine_error_status(e) == 503,
{
}

/// Law: a translation that finds the queue full is told that the server is busy, and one that finds
/// no worker that the engine is unavailable; both may be tried again.
pub proof fn law_turned_away_is_told_why(failure: SendFailure)
    ensures
        engine_error_status(turned_away(failure)) == 503,
        failure is Full <==> turned_away(failure) == EngineErrorView::QueueFull,
        failure is Disconnected <==> turned_away(failure) is Unavailable,
{
}

/// Law: the metrics tell of a loaded model what was last said of it, and nothing else changes.
pub proof fn law_loaded_model_is_told(m: MetricsView, loaded: bool)
    ensures
        with_model(m, loaded).model_loaded == loaded,
        with_model(with_model(m, loaded), m.model_loaded) == m,
{
}

/// Law: a model that is ready is handed out as it is, and a failed engine tells its reason.
pub proof fn law_model_is_handed_out(info: ModelInfoView, reason: Seq<char>)
    ensures
        available_model(StatusView::Ready(info)) == Ok::<ModelInfoView, EngineErrorView>(info),
        available_model(StatusView::Failed(reason)) matches Err(e) && reason.is_suffix_of(
            engine_error_text(e),
        ),
        available_model(StatusView::Loading) == Err::<ModelInfoView, EngineErrorView>(
            EngineErrorView::Loading,
        ),
        state_name(StatusView::Ready(info)) == "ready"@,
        state_name(StatusView::Failed(reason)) == "failed"@,
        state_name(StatusView::Loading) == "loading"@,
{
    law_errors_tell_their_reason(reason, reason, 0, 0);
}

/// Law: a translation that was admitted and turned away again leaves no trace in the metrics,
/// which are those from before it came.
pub proof fn law_turned_away_leaves_no_trace(before: MetricsView)
    ensures
        taken_back(admitted(before)) == before,
        before.queued < i64::MAX ==> admitted(before).queued == before.queued + 1,
        (MetricsView { queued: before.queued, ..admitted(before) }) == before,
{
}

/// Whether the flag of a job is set when the caller that waits for it goes away, e.g. when the
/// awaiting handler is dropped because the client disconnected.
#[derive(Debug)]
pub struct CancelOnDrop {
    armed: bool,
}

impl CancelOnDrop {
    /// The guard will cancel the job.
    pub closed spec fn is_armed(&self) -> bool {
        self.armed
    }

    /// A guard that will cancel its job.
    pub fn new() -> (r: Self)
        ensures
            r.is_armed(),
    {
        CancelOnDrop { armed: true }
    }

    /// The job is done; nothing is to be cancelled.
    pub fn disarm(&mut self)
        ensures
            !final(self).is_armed(),
    {
        self.armed = false;
    }

    /// What becomes of the flag of the job when the guard goes: it is set where the guard is
    /// still armed, and stays as it is where not.
    pub fn on_drop(&self, flag: bool) -> (r: bool)
        ensures
            r == (flag || self.is_armed()),
    {
        flag || self.armed
    }
}

/// What is done with a job that comes out of the queue.
#[derive(Debug)]
pub enum Intake {
    /// The job is answered with an error.
    Reject(EngineError),
    /// The job is run.
    Run,
}

/// Why a job is rejected when it comes out of the queue, if it is.
pub open spec fn intake(
    cancelled: bool,
    abandoned: bool,
    queue_time: u128,
    timeout: u64,
) -> Option<EngineErrorView> {
    if cancelled || abandoned {
        Some(EngineErrorView::Cancelled)
    } else if queue_time > timeout * 1_000_000_000 {
        Some(EngineErrorView::QueueTimeout)
    } else {
        None
    }
}

/// The metrics after a job came out of the queue.
pub open spec fn taken(
    m: MetricsView,
    rejected: Option<EngineErrorView>,
    queue_time: u128,
) -> MetricsView {
    MetricsView {
        queued: moved(m.queued, -1),
        queue_duration: observed(m.queue_duration, queue_time),
        cancelled: if rejected == Some(EngineErrorView::Cancelled) {
            added(m.cancelled, 1)
        } else {
            m.cancelled
        },
        active: if rejected is None {
            moved(m.active, 1)
        } else {
            m.active
        },
        ..m
    }
}

/// Take a job out of the queue. `cancelled` tells whether its flag was set, `abandoned` whether
/// nobody waits for its answer any more, `queue_time` how many nanoseconds it waited, and
/// `timeout` how many seconds it may wait.
pub fn take_job(
    metrics: &mut Metrics,
    cancelled: bool,
    abandoned: bool,
    queue_time: u128,
    timeout: u64,
) -> (r: Intake)
    ensures
        match r {
            Intake::Reject(e) => intake(cancelled, abandoned, queue_time, timeout) == Some(e@),
            Intake::Run => intake(cancelled, abandoned, queue_time, timeout) is None,
        },
        final(metrics)@ == taken(
            old(metrics)@,
            intake(cancelled, abandoned, queue_time, timeout),
            queue_time,
        ),
{
    metrics::lower(&mut metrics.queued);
    metrics.queue_duration.observe(queue_time);
    if cancelled || abandoned {
        metrics::count(&mut metrics.cancelled, 1);
        Intake::Reject(EngineError::Cancelled)
    } else if queue_time > timeout as u128 * 1_000_000_000 {
        Intake::Reject(EngineError::QueueTimeout)
    } else {
        metrics::raise(&mut metrics.active);
        Intake::Run
    }
}

/// The metrics after a job was run.
pub open spec fn settled(m: MetricsView, cancelled: bool, inference_time: u128) -> MetricsView {
    MetricsView {
        active: moved(m.active, -1),
        inference_duration: observed(m.inference_duration, inference_time),
        cancelled: if cancelled {
            added(m.cancelled, 1)
        } else {
            m.cancelled
        },
        ..m
    }
}

/// The answer to a job that was run: what generation gave with the job's times, or its error.
pub open spec fn run_answer(
    generated: Result<GeneratedView, EngineErrorView>,
    queue_time: u128,
    inference_time: u128,
) -> Result<OutputView, EngineErrorView> {
    match generated {
        Ok(g) => Ok(
            OutputView {
                text: g.text,
                input_tokens: g.input_tokens,
                output_tokens: g.output_tokens,
                queue_time,
                inference_time,
            },
        ),
        Err(e) => Err(e),
    }
}

/// Settle a job that was run, and make the answer to it.
pub fn settle_job(
    metrics: &mut Metrics,
    generated: Result<Generated, EngineError>,
    queue_time: u128,
    inference_time: u128,
) -> (r: Result<Output, EngineError>)
    ensures
        output_view(r) == run_answer(generated_view(generated), queue_time, inference_time),
        final(metrics)@ == settled(
            old(metrics)@,
            generated_view(generated) == Err::<GeneratedView, EngineErrorView>(
                EngineErrorView::Cancelled,
            ),
            inference_time,
        ),
{
    metrics::lower(&mut metrics.active);
    metrics.inference_duration.observe(inference_time);
    match generated {
        Ok(g) => Ok(
            Output {
                text: g.text,
                input_tokens: g.input_tokens,
                output_tokens: g.output_tokens,
                queue_time,
                inference_time,
            },
        ),
        Err(e) => {
            if let EngineError::Cancelled = e {
                metrics::count(&mut metrics.cancelled, 1);
            }
            Err(e)
        },
    }
}

/// What is noted when generation broke down.
pub const PANICKED: &'static str = "inference panicked";

/// The error for a job whose generation broke down.
pub fn inference_panicked() -> (r: EngineError)
    ensures
        r@ == EngineErrorView::Internal(PANICKED@),
{
    EngineError::Internal(PANICKED.to_owned())
}

/// Law: the answer to a job that was run is what generation gave: its text, its tokens or its
/// error, with the time that the job waited and the time that it ran.
pub proof fn law_answer_is_what_was_generated(
    generated: Result<GeneratedView, EngineErrorView>,
    queue_time: u128,
    inference_time: u128,
)
    ensures
        match (generated, run_answer(generated, queue_time, inference_time)) {
            (Ok(g), Ok(output)) => {
                &&& output.text == g.text
                &&& output.input_tokens == g.input_tokens
                &&& output.output_tokens == g.output_tokens
                &&& output.queue_time == queue_time
                &&& output.inference_time == inference_time
            },
            (Err(e), Err(told)) => told == e,
            _ => false,
        },
{
}

/// Law: a job that is rejected because its caller is gone is told so, and one that waited too long
/// that the server is busy.
pub proof fn law_rejection_tells_the_reason(
    cancelled: bool,
    abandoned: bool,
    queue_time: u128,
    timeout: u64,
)
    ensures
        cancelled || abandoned <==> intake(cancelled, abandoned, queue_time, timeout) == Some(
            EngineErrorView::Cancelled,
        ),
        !cancelled && !abandoned && queue_time > timeout * 1_000_000_000 <==> intake(
            cancelled,
            abandoned,
            queue_time,
            timeout,
        ) == Some(EngineErrorView::QueueTimeout),
{
}

/// Law: a job that comes out of the queue changes no metric but the waiting jobs, the time they
/// wait, and either the running jobs or, where its caller is gone, the cancelled ones.
pub proof fn law_taking_a_job_counts_it_once(
    before: MetricsView,
    rejected: Option<EngineErrorView>,
    queue_time: u128,
)
    requires
        i64::MIN < before.queued,
        before.active < i64::MAX,
        before.cancelled < u64::MAX,
    ensures
        ({
            let after = taken(before, rejected, queue_time);
            &&& after.queued == before.queued - 1
            &&& after.queue_duration == observed(before.queue_duration, queue_time)
            &&& after.active == before.active + (if rejected is None {
                1int
            } else {
                0
            })
            &&& after.cancelled == before.cancelled + (if rejected == Some(
                EngineErrorView::Cancelled,
            ) {
                1int
            } else {
                0
            })
            &&& (MetricsView {
                queued: before.queued,
                queue_duration: before.queue_duration,
                active: before.active,
                cancelled: before.cancelled,
                ..after
            }) == before
        }),
{
}

/// Law: a job that was run changes no metric but the running jobs, the time they run, and the
/// cancelled ones where it was cancelled.
pub proof fn law_settling_a_job_counts_it_once(
    before: MetricsView,
    cancelled: bool,
    inference_time: u128,
)
    requires
        i64::MIN < before.active,
        before.cancelled < u64::MAX,
    ensures
        ({
            let after = settled(before, cancelled, inference_time);
            &&& after.active == before.active - 1
            &&& after.inference_duration == observed(before.inference_duration, inference_time)
            &&& after.cancelled == before.cancelled + (if cancelled {
                1int
            } else {
                0
            })
            &&& (MetricsView {
                active: before.active,
                inference_duration: before.inference_duration,
                cancelled: before.cancelled,
                ..after
            }) == before
        }),
{
}

/// Law: a job that came out of the queue and was run leaves the number of running jobs as it
/// was, and one waiting job less; each of its two times was observed once.
pub proof fn law_run_job_is_balanced(
    before: MetricsView,
    queue_time: u128,
    inference_time: u128,
    cancelled: bool,
)
    ensures
        ({
            let after = settled(taken(before, None, queue_time), cancelled, inference_time);
            &&& after.active == before.active
            &&& after.queued == moved(before.queued, -1)
            &&& after.queue_duration == observed(before.queue_duration, queue_time)
            &&& after.inference_duration == observed(before.inference_duration, inference_time)
        }),
{
}

/// Law: a job that was admitted and then came out of the queue leaves the number of waiting jobs
/// as it was.
pub proof fn law_queued_job_is_balanced(
    before: MetricsView,
    rejected: Option<EngineErrorView>,
    queue_time: u128,
)
    ensures
        ({
            taken(admitted(before), rejected, queue_time).queued == before.queued
        }),
{
}

/// Law: a job that waited longer than it may, or whose caller is gone, is never run; any other
/// is.
pub proof fn law_only_timely_jobs_run(
    cancelled: bool,
    abandoned: bool,
    queue_time: u128,
    timeout: u64,
)
    ensures
        intake(cancelled, abandoned, queue_time, timeout) is None <==> (!cancelled && !abandoned
            && queue_time <= timeout * 1_000_000_000),
{
}

/// A job as the worker meets it: what is known when it comes out of the queue, and what generation
/// would give in how much time; `None` where generation would break down.
pub struct JobView {
    pub cancelled: bool,
    pub abandoned: bool,
    pub queue_time: u128,
    pub generated: Option<Result<GeneratedView, EngineErrorView>>,
    pub inference_time: u128,
}

/// Why a job is not run, if it is not.
pub open spec fn job_intake(job: JobView, timeout: u64) -> Option<EngineErrorView> {
    intake(job.cancelled, job.abandoned, job.queue_time, timeout)
}

/// What running a job gives.
pub open spec fn job_outcome(job: JobView) -> Result<GeneratedView, EngineErrorView> {
    match job.generated {
        Some(generated) => generated,
        None => Err(EngineErrorView::Internal(PANICKED@)),
    }
}

/// What the worker has done: the metrics, the answers it gave, and the jobs it ran, in order.
pub struct ServedView {
    pub metrics: MetricsView,
    pub answers: Seq<Result<OutputView, EngineErrorView>>,
    pub run: Seq<JobView>,
}

/// One more job served: taken out of the queue, and run and settled unless it is rejected.
pub open spec fn served_one(before: ServedView, job: JobView, timeout: u64) -> ServedView {
    let rejected = job_intake(job, timeout);
    let metrics = taken(before.metrics, rejected, job.queue_time);
    match rejected {
        Some(e) => ServedView {
            metrics,
            answers: before.answers.push(Err(e)),
            run: before.run,
        },
        None => ServedView {
            metrics: settled(
                metrics,
                job_outcome(job) == Err::<GeneratedView, EngineErrorView>(
                    EngineErrorView::Cancelled,
                ),
                job.inference_time,
            ),
            answers: before.answers.push(
                run_answer(job_outcome(job), job.queue_time, job.inference_time),
            ),
            run: before.run.push(job),
        },
    }
}

/// All jobs served, one after the other.
pub open spec fn served(metrics: MetricsView, jobs: Seq<JobView>, timeout: u64) -> ServedView
    decreases jobs.len(),
{
    if jobs.len() == 0 {
        ServedView { metrics, answers: Seq::empty(), run: Seq::empty() }
    } else {
        served_one(served(metrics, jobs.drop_last(), timeout), jobs.last(), timeout)
    }
}

/// The answer that is owed to a job.
pub open spec fn answer_owed(job: JobView, timeout: u64) -> Result<OutputView, EngineErrorView> {
    if job.cancelled || job.abandoned {
        Err(EngineErrorView::Cancelled)
    } else if job.queue_time > timeout * 1_000_000_000 {
        Err(EngineErrorView::QueueTimeout)
    } else {
        match job.generated {
            Some(generated) => run_answer(generated, job.queue_time, job.inference_time),
            None => Err(EngineErrorView::Internal(PANICKED@)),
        }
    }
}

/// Law: over any sequence of jobs, every job gets exactly one answer, in the order of the queue and
/// the one it is owed, also after a job whose generation broke down. Only jobs that are neither
/// cancelled nor late are run, all of them, and in order. In the end as many jobs are running as in
/// the beginning, and those served are waiting no more.
pub proof fn law_every_job_is_answered_once(
    metrics: MetricsView,
    jobs: Seq<JobView>,
    timeout: u64,
)
    ensures
        ({
            let done = served(metrics, jobs, timeout);
            &&& done.answers.len() == jobs.len()
            &&& forall|i: int|
                0 <= i < jobs.len() ==> #[trigger] done.answers[i] == answer_owed(jobs[i], timeout)
            &&& done.run == jobs.filter(
                |job: JobView|
                    !job.cancelled && !job.abandoned && job.queue_time <= timeout * 1_000_000_000,
            )
            &&& done.metrics.active == metrics.active
            &&& metrics.queued - jobs.len() >= i64::MIN ==> done.metrics.queued == metrics.queued
                - jobs.len()
        }),
    decreases jobs.len(),
{
    reveal(Seq::filter);
    if jobs.len() > 0 {
        law_every_job_is_answered_once(metrics, jobs.drop_last(), timeout);
        let before = served(metrics, jobs.drop_last(), timeout);
        let done = served(metrics, jobs, timeout);
        assert forall|i: int| 0 <= i < jobs.len() implies #[trigger] done.answers[i]
            == answer_owed(jobs[i], timeout) by {
            if i < jobs.len() - 1 {
                assert(done.answers[i] == before.answers[i]);
                assert(jobs.drop_last()[i] == jobs[i]);
            }
        }
    }
}

/// The number of GPU layers to try first; `None` lets them be fitted.
pub open spec fn initial_layers(use_gpu: bool, gpu_layers: GpuLayers) -> Option<u32> {
    if !use_gpu {
        Some(0)
    } else {
        match gpu_layers {
            GpuLayers::Auto => None,
            GpuLayers::Count(n) => Some(n),
        }
    }
}

/// The number of GPU layers to try first; `None` lets them be fitted.
pub fn first_layers(use_gpu: bool, gpu_layers: GpuLayers) -> (r: Option<u32>)
    ensures
        r == initial_layers(use_gpu, gpu_layers),
{
    if !use_gpu {
        return Some(0);
    }
    match gpu_layers {
        GpuLayers::Auto => None,
        GpuLayers::Count(n) => Some(n),
    }
}

/// Law: the first attempt puts the configured number of layers on the GPU, fits them where none is
/// configured, and puts none there where the CPU is used.
pub proof fn law_first_attempt_is_as_configured(n: u32, gpu_layers: GpuLayers)
    ensures
        initial_layers(false, gpu_layers) == Some(0u32),
        initial_layers(true, GpuLayers::Count(n)) == Some(n),
        initial_layers(true, GpuLayers::Auto) is None,
{
}

/// How far an attempt to bring the model up came before it failed.
#[derive(Debug, Clone, Copy)]
pub enum LoadFailure {
    /// The model could not be loaded.
    Model,
    /// The model was loaded as the offload says, but its context could not be created.
    Context(Offload),
}

/// What follows a failed attempt to bring the model up.
#[derive(Debug, Clone, Copy, PartialEq, Eq, Structural)]
pub enum AfterFailure {
    /// Try again with this many layers on the GPU.
    Retry(u32),
    /// Fail as the attempt did.
    Fail,
    /// Fail: fewer layers would not help.
    DoesNotFit,
    /// Fail: there were enough attempts.
    GiveUp,
}

/// The layers that an attempt actually put on the GPU.
pub open spec fn attempted(layers: Option<u32>, failure: LoadFailure, n_layer: u32) -> Option<u32> {
    match failure {
        LoadFailure::Model => layers,
        LoadFailure::Context(offload) => Some(loader::on_gpu(offload, n_layer) as u32),
    }
}

/// What follows the failure of the attempt with this number (from 1) and these layers.
pub open spec fn after(
    plan: Plan,
    allow_cpu_fallback: bool,
    n_layer: u32,
    attempt: int,
    layers: Option<u32>,
    failure: LoadFailure,
) -> AfterFailure {
    if !plan.use_gpu {
        AfterFailure::Fail
    } else {
        match loader::reduced(attempted(layers, failure, n_layer), n_layer) {
            Some(next) => if next == 0 && !allow_cpu_fallback {
                AfterFailure::DoesNotFit
            } else if attempt >= MAX_LOAD_ATTEMPTS {
                AfterFailure::GiveUp
            } else {
                AfterFailure::Retry(next)
            },
            None => AfterFailure::DoesNotFit,
        }
    }
}

/// Decide what follows the failure of an attempt to bring the model up. `attempt` counts from 1,
/// `layers` is what was tried and `n_layer` how many layers the model has, not counting the
/// output layer.
pub fn after_failure(
    plan: &Plan,
    allow_cpu_fallback: bool,
    n_layer: u32,
    attempt: usize,
    layers: Option<u32>,
    failure: LoadFailure,
) -> (r: AfterFailure)
    requires
        n_layer < u32::MAX,
    ensures
        r == after(*plan, allow_cpu_fallback, n_layer, attempt as int, layers, failure),
{
    if !plan.use_gpu {
        return AfterFailure::Fail;
    }
    let layers = match failure {
        LoadFailure::Model => layers,
        LoadFailure::Context(offload) => Some(loader::layers_on_gpu(&offload, n_layer)),
    };
    match loader::reduce_layers(layers, n_layer) {
        Some(next) => if next == 0 && !allow_cpu_fallback {
            AfterFailure::DoesNotFit
        } else if attempt >= MAX_LOAD_ATTEMPTS {
            AfterFailure::GiveUp
        } else {
            AfterFailure::Retry(next)
        },
        None => AfterFailure::DoesNotFit,
    }
}

/// What is told when the model could not be brought up.
pub open spec fn failure_text(outcome: AfterFailure, failure: Seq<char>) -> Seq<char> {
    match outcome {
        AfterFailure::Retry(n) => "GPU allocation failed ("@ + failure + "); retrying with "@
            + decimal(n as nat) + " GPU layers"@,
        AfterFailure::Fail => failure,
        AfterFailure::DoesNotFit => "model does not fit on the GPU even with minimal offload: "@
            + failure,
        AfterFailure::GiveUp => "giving up after "@ + decimal(MAX_LOAD_ATTEMPTS as nat)
            + " attempts to load the model"@,
    }
}

/// What is told when the model could not be brought up, given what the attempt failed with.
pub fn failure_message(outcome: AfterFailure, failure: &str) -> (r: String)
    ensures
        r@ == failure_text(outcome, failure@),
{
    match outcome {
        AfterFailure::Retry(n) => {
            let n = text::to_decimal(n as u64);
            let mut r = "GPU allocation failed (".to_owned();
            r.append(failure);
            r.append("); retrying with ");
            r.append(n.as_str());
            r.append(" GPU layers");
            r
        },
        AfterFailure::Fail => failure.to_owned(),
        AfterFailure::DoesNotFit => {
            let mut r = "model does not fit on the GPU even with minimal offload: ".to_owned();
            r.append(failure);
            r
        },
        AfterFailure::GiveUp => {
            let n = text::to_decimal(MAX_LOAD_ATTEMPTS as u64);
            let mut r = "giving up after ".to_owned();
            r.append(n.as_str());
            r.append(" attempts to load the model");
            r
        },
    }
}

/// Law: every retry puts fewer layers on the GPU than the attempt before it, whatever failed.
pub proof fn law_retries_reduce_layers(
    plan: Plan,
    allow_cpu_fallback: bool,
    n_layer: u32,
    attempt: int,
    layers: Option<u32>,
    failure: LoadFailure,
)
    requires
        n_layer < u32::MAX,
    ensures
        after(plan, allow_cpu_fallback, n_layer, attempt, layers, failure) matches
            AfterFailure::Retry(next) ==> next <= n_layer && match attempted(
            layers,
            failure,
            n_layer,
        ) {
            Some(tried) => next < tried,
            None => true,
        },
{
}

/// Law: without CPU fallback the model is never brought up with no layer on the GPU, and a model
/// on the CPU is tried once only.
pub proof fn law_retries_stay_on_the_gpu(
    plan: Plan,
    n_layer: u32,
    attempt: int,
    layers: Option<u32>,
    failure: LoadFailure,
)
    ensures
        after(plan, false, n_layer, attempt, layers, failure) matches AfterFailure::Retry(next)
            ==> next > 0,
        !plan.use_gpu ==> after(plan, false, n_layer, attempt, layers, failure)
            == AfterFailure::Fail,
{
}

/// Law: an attempt on the GPU that failed is followed by another with fewer layers wherever there
/// are fewer to try and attempts are left: 24 are made. No layer at all is tried only where CPU
/// fallback is allowed. Fewer layers are fewer than were really on the GPU, where the model was
/// loaded and only its context failed.
pub proof fn law_failed_attempt_is_retried(
    plan: Plan,
    allow_cpu_fallback: bool,
    n_layer: u32,
    attempt: int,
    layers: Option<u32>,
    failure: LoadFailure,
)
    requires
        plan.use_gpu,
        n_layer < u32::MAX,
    ensures
        ({
            let tried: int = match failure {
                LoadFailure::Context(offload) => loader::on_gpu(offload, n_layer),
                LoadFailure::Model => match layers {
                    Some(n) => if n <= n_layer {
                        n as int
                    } else {
                        n_layer + 1
                    },
                    None => n_layer + 1,
                },
            };
            let next = after(plan, allow_cpu_fallback, n_layer, attempt, layers, failure);
            &&& next is Retry <==> attempt < 24 && (tried > 1 || (tried == 1
                && allow_cpu_fallback))
            &&& next matches AfterFailure::Retry(n) ==> n < tried && (8 * (tried - n) <= tried
                || tried - n == 1)
            &&& tried > 1 && attempt >= 24 ==> next == AfterFailure::GiveUp
            &&& tried == 0 || (tried == 1 && !allow_cpu_fallback) ==> next
                == AfterFailure::DoesNotFit
        }),
{
    loader::law_reduction_gives_up_an_eighth(attempted(layers, failure, n_layer), n_layer);
    if let LoadFailure::Context(offload) = failure {
        loader::law_layers_on_the_gpu(offload, n_layer);
    }
}

/// Law: what the attempt failed with is told wherever it is the reason that the model could not be
/// brought up, and a retry tells with how many layers.
pub proof fn law_failure_is_told(n: u32, failure: Seq<char>)
    ensures
        failure_text(AfterFailure::Fail, failure) == failure,
        failure.is_suffix_of(failure_text(AfterFailure::DoesNotFit, failure)),
        text::has_part(failure_text(AfterFailure::Retry(n), failure), "("@ + failure + ")"@),
        (decimal(n as nat) + " GPU layers"@).is_suffix_of(
            failure_text(AfterFailure::Retry(n), failure),
        ),
        failure_text(AfterFailure::GiveUp, failure) == "giving up after "@ + decimal(24)
            + " attempts to load the model"@,
{
    reveal_strlit("GPU allocation failed (");
    reveal_strlit("); retrying with ");
    reveal_strlit("(");
    reveal_strlit(")");
    let small = "model does not fit on the GPU even with minimal offload: "@ + failure;
    assert(failure =~= small.subrange(small.len() - failure.len(), small.len() as int));
    let d = decimal(n as nat);
    let retry = "GPU allocation failed ("@ + failure + "); retrying with "@ + d + " GPU layers"@;
    let told = "("@ + failure + ")"@;
    let at = "GPU allocation failed ("@.len() - 1;
    assert(retry.subrange(at, at + told.len()) =~= told);
    assert(text::occurs_at(retry, told, at));
    let end = d + " GPU layers"@;
    assert(end =~= retry.subrange(retry.len() - end.len(), retry.len() as int));
}

/// Law: there are never more attempts than the limit.
pub proof fn law_attempts_are_limited(
    plan: Plan,
    allow_cpu_fallback: bool,
    n_layer: u32,
    attempt: int,
    layers: Option<u32>,
    failure: LoadFailure,
)
    requires
        attempt >= MAX_LOAD_ATTEMPTS,
    ensures
        !(after(plan, allow_cpu_fallback, n_layer, attempt, layers, failure) is Retry),
{
}

/// A line for the log.
#[derive(Debug)]
pub struct LogLine {
    pub warning: bool,
    pub text: String,
}

/// Where the layers of the model are.
pub open spec fn offload_text(n_layer: u32, on_gpu: u32, cpu_overrides: usize) -> Seq<char> {
    if on_gpu >= n_layer + 1 && cpu_overrides == 0 {
        "GPU offload: all "@ + decimal((n_layer + 1) as nat) + " layers on the GPU"@
    } else {
        "GPU offload: "@ + decimal(on_gpu as nat) + "/"@ + decimal((n_layer + 1) as nat)
            + " layers on the GPU ("@ + decimal(cpu_overrides as nat)
            + " tensor groups kept in RAM); translations will be slower. Free VRAM or use a smaller quantization for full offload"@
    }
}

/// Where the layers are is a warning.
pub open spec fn offload_warns(n_layer: u32, on_gpu: u32, cpu_overrides: usize) -> bool {
    !(on_gpu >= n_layer + 1 && cpu_overrides == 0)
}

/// Law: where the layers are is a warning unless all are on the GPU, the output layer among them,
/// and nothing was kept in RAM.
pub proof fn law_slow_placement_is_a_warning(n_layer: u32, on_gpu: u32, cpu_overrides: usize)
    requires
        on_gpu <= n_layer + 1,
    ensures
        !offload_warns(n_layer, on_gpu, cpu_overrides) <==> on_gpu == n_layer + 1 && cpu_overrides
            == 0,
{
}

/// Law: it is told that all layers are on the GPU exactly where they are and nothing was kept in
/// RAM; else how many are, of how many, and how much was kept.
pub proof fn law_offload_is_told(n_layer: u32, on_gpu: u32, cpu_overrides: usize)
    requires
        n_layer < u32::MAX,
        on_gpu <= n_layer + 1,
    ensures
        ({
            let told = offload_text(n_layer, on_gpu, cpu_overrides);
            let all = decimal((n_layer + 1) as nat);
            &&& on_gpu == n_layer + 1 && cpu_overrides == 0 ==> told == "GPU offload: all "@ + all
                + " layers on the GPU"@
            &&& !(on_gpu == n_layer + 1 && cpu_overrides == 0) ==> ("GPU offload: "@ + decimal(
                on_gpu as nat,
            ) + "/"@ + all + " layers on the GPU ("@ + decimal(
                cpu_overrides as nat,
            )).is_prefix_of(told)
        }),
{
    let told = offload_text(n_layer, on_gpu, cpu_overrides);
    let head = "GPU offload: "@ + decimal(on_gpu as nat) + "/"@ + decimal((n_layer + 1) as nat)
        + " layers on the GPU ("@ + decimal(cpu_overrides as nat);
    if !(on_gpu == n_layer + 1 && cpu_overrides == 0) {
        assert(head =~= told.subrange(0, head.len() as int));
    }
}

/// How much VRAM is used, from what was free before and is free now.
pub open spec fn vram_text(free_before: usize, free_after: usize, total: usize) -> Seq<char> {
    "VRAM: "@ + decimal(
        if free_before > free_after {
            (free_before - free_after) as nat
        } else {
            0
        },
    ) + " MiB used by LTEngine, "@ + decimal(free_after as nat) + " MiB of "@ + decimal(
        total as nat,
    ) + " MiB free"@
}

/// Law: the VRAM that is told to be used is what was free before and is not any more, beside what
/// is free now and what there is.
pub proof fn law_used_vram_is_told(used: usize, free_after: usize, total: usize)
    requires
        used + free_after <= usize::MAX,
    ensures
        ({
            let told = vram_text((used + free_after) as usize, free_after, total);
            &&& ("VRAM: "@ + decimal(used as nat) + " MiB used"@).is_prefix_of(told)
            &&& (decimal(free_after as nat) + " MiB of "@ + decimal(total as nat)
                + " MiB free"@).is_suffix_of(told)
        }),
        free_after > used ==> ("VRAM: "@ + decimal(0) + " MiB used"@).is_prefix_of(
            vram_text(used, free_after, total),
        ),
{
    reveal_strlit(" MiB used");
    reveal_strlit(" MiB used by LTEngine, ");
    let told = vram_text((used + free_after) as usize, free_after, total);
    let head = "VRAM: "@ + decimal(used as nat) + " MiB used"@;
    let end = decimal(free_after as nat) + " MiB of "@ + decimal(total as nat) + " MiB free"@;
    assert(head =~= told.subrange(0, head.len() as int));
    assert(end =~= told.subrange(told.len() - end.len(), told.len() as int));
    if free_after > used {
        let less = vram_text(used, free_after, total);
        let none = "VRAM: "@ + decimal(0) + " MiB used"@;
        assert(none =~= less.subrange(0, none.len() as int));
    }
}

/// Tell where the layers of the model are; a warning where not all of them are on the GPU.
pub fn offload_line(n_layer: u32, on_gpu: u32, cpu_overrides: usize) -> (r: LogLine)
    requires
        n_layer < u32::MAX,
    ensures
        r.text@ == offload_text(n_layer, on_gpu, cpu_overrides),
        r.warning == offload_warns(n_layer, on_gpu, cpu_overrides),
{
    let total_layers = n_layer + 1;
    let total = text::to_decimal(total_layers as u64);
    if on_gpu >= total_layers && cpu_overrides == 0 {
        let mut line = "GPU offload: all ".to_owned();
        line.append(total.as_str());
        line.append(" layers on the GPU");
        LogLine { warning: false, text: line }
    } else {
        let on_gpu = text::to_decimal(on_gpu as u64);
        let overrides = text::to_decimal(cpu_overrides as u64);
        let mut line = "GPU offload: ".to_owned();
        line.append(on_gpu.as_str());
        line.append("/");
        line.append(total.as_str());
        line.append(" layers on the GPU (");
        line.append(overrides.as_str());
        line.append(
            " tensor groups kept in RAM); translations will be slower. Free VRAM or use a smaller quantization for full offload",
        );
        LogLine { warning: true, text: line }
    }
}

/// Tell how much VRAM is used, from what was free before and is free now.
pub fn vram_line(free_before: usize, free_after: usize, total: usize) -> (r: LogLine)
    ensures
        r.text@ == vram_text(free_before, free_after, total),
        !r.warning,
{
    let used = text::to_decimal(free_before.saturating_sub(free_after) as u64);
    let free = text::to_decimal(free_after as u64);
    let total = text::to_decimal(total as u64);
    let mut line = "VRAM: ".to_owned();
    line.append(used.as_str());
    line.append(" MiB used by LTEngine, ");
    line.append(free.as_str());
    line.append(" MiB of ");
    line.append(total.as_str());
    line.append(" MiB free");
    LogLine { warning: false, text: line }
}

/// What is logged when the engine is ready: warnings and texts.
pub open spec fn ready_log(
    use_gpu: bool,
    n_layer: u32,
    on_gpu: u32,
    cpu_overrides: usize,
    vram_before: Option<(usize, usize)>,
    vram_after: Option<(usize, usize)>,
) -> Seq<(bool, Seq<char>)> {
    if !use_gpu {
        seq![(false, "running on the CPU"@)]
    } else {
        let placed = (
            offload_warns(n_layer, on_gpu, cpu_overrides),
            offload_text(n_layer, on_gpu, cpu_overrides),
        );
        match (vram_before, vram_after) {
            (Some((free_before, _)), Some((free_after, total))) => seq![
                placed,
                (false, vram_text(free_before, free_after, total)),
            ],
            _ => seq![placed],
        }
    }
}

/// Law: on the CPU nothing is logged of a GPU, and on the GPU where the layers are comes first, then
/// the VRAM from what was free before and what is free now, where both are known.
pub proof fn law_readiness_is_logged(
    n_layer: u32,
    on_gpu: u32,
    cpu_overrides: usize,
    used: usize,
    free: usize,
    total: usize,
    total_before: usize,
)
    requires
        n_layer < u32::MAX,
        on_gpu <= n_layer + 1,
        used + free <= usize::MAX,
    ensures
        ready_log(
            false,
            n_layer,
            on_gpu,
            cpu_overrides,
            Some(((used + free) as usize, total_before)),
            Some((free, total)),
        ) == seq![(false, "running on the CPU"@)],
        ({
            let log = ready_log(
                true,
                n_layer,
                on_gpu,
                cpu_overrides,
                Some(((used + free) as usize, total_before)),
                Some((free, total)),
            );
            &&& log.len() == 2
            &&& log[0].0 <==> on_gpu <= n_layer || cpu_overrides > 0
            &&& !log[0].0 ==> log[0].1 == "GPU offload: all "@ + decimal((n_layer + 1) as nat)
                + " layers on the GPU"@
            &&& !log[1].0
            &&& ("VRAM: "@ + decimal(used as nat) + " MiB used"@).is_prefix_of(log[1].1)
            &&& (decimal(free as nat) + " MiB of "@ + decimal(total as nat)
                + " MiB free"@).is_suffix_of(log[1].1)
            &&& ready_log(true, n_layer, on_gpu, cpu_overrides, None, Some((free, total)))
                == seq![log[0]]
            &&& ready_log(true, n_layer, on_gpu, cpu_overrides, Some((free, total)), None)
                == seq![log[0]]
        }),
{
    law_used_vram_is_told(used, free, total);
    law_offload_is_told(n_layer, on_gpu, cpu_overrides);
}

/// What is logged when the engine is ready: where the layers are and how much VRAM is used, or
/// that the CPU is used. `vram_before` and `vram_after` are free and total VRAM in MiB before
/// the model was loaded and now.
pub fn log_ready(
    plan: &Plan,
    n_layer: u32,
    on_gpu: u32,
    cpu_overrides: usize,
    vram_before: Option<(usize, usize)>,
    vram_after: Option<(usize, usize)>,
) -> (r: Vec<LogLine>)
    requires
        n_layer < u32::MAX,
    ensures
        !plan.use_gpu ==> r.len() == 1 && !r[0].warning && r[0].text@ == "running on the CPU"@,
        plan.use_gpu ==> r.len() == (if vram_before is Some && vram_after is Some {
            2int
        } else {
            1
        }),
        plan.use_gpu ==> r[0].text@ == offload_text(n_layer, on_gpu, cpu_overrides) && r[0].warning
            == !(on_gpu >= n_layer + 1 && cpu_overrides == 0),
        plan.use_gpu ==> (match (vram_before, vram_after) {
            (Some((free_before, _)), Some((free_after, total))) => r[1].text@ == vram_text(
                free_before,
                free_after,
                total,
            ) && !r[1].warning,
            _ => true,
        }),
        r@.map_values(|line: LogLine| (line.warning, line.text@)) == ready_log(
            plan.use_gpu,
            n_layer,
            on_gpu,
            cpu_overrides,
            vram_before,
            vram_after,
        ),
{
    let mut lines: Vec<LogLine> = Vec::new();
    if plan.use_gpu {
        lines.push(offload_line(n_layer, on_gpu, cpu_overrides));
        if let (Some((free_before, _)), Some((free_after, total))) = (vram_before, vram_after) {
            lines.push(vram_line(free_before, free_after, total));
        }
    } else {
        lines.push(LogLine { warning: false, text: "running on the CPU".to_owned() });
    }
    assert(lines@.map_values(|line: LogLine| (line.warning, line.text@)) =~= ready_log(
        plan.use_gpu,
        n_layer,
        on_gpu,
        cpu_overrides,
        vram_before,
        vram_after,
    ));
    lines
}

} // verus!
