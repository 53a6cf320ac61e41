//! One translation: from the request to the prompt, and from token to token to the answer.
//!
//! The inference library tokenizes, decodes and samples; what is decided between its calls is
//! decided here.

use vstd::prelude::*;
use vstd::string::*;

use crate::batch;
use crate::batch::{batch_of, entry_at, fits, BatchEntry, POSITION_OVERFLOW};
use crate::engine::{
    engine_error_status, generated_view, EngineError, EngineErrorView, Generated, GeneratedView,
    ModelInfo, Request, RequestView,
};
use crate::formatting;
use crate::formatting::cleaned;
use crate::languages::LanguageView;
use crate::loader::smaller;
use crate::metrics;
use crate::metrics::{added, Metrics, MetricsView};
use crate::prompt;
use crate::prompt::{
    gemma_turn, prompt_error_text, rendered_prompt, system_text, user_text, ChatPrompt,
    PromptFormat, PromptFormatView, TranslateGemmaView,
};
use crate::text::text_result;

verus! {

/// A prompt, as far as it can be made without the model.
#[derive(Debug)]
pub enum PromptStep {
    /// The prompt itself.
    Ready(String),
    /// The chat template of the model is to be applied to `message`.
    Apply { chat: ChatPrompt, message: String, gemma_fallback: bool },
}

/// A prompt with its texts, as far as it can be made without the model.
pub enum PromptStepView {
    Ready(Seq<char>),
    Apply { system: Seq<char>, user: Seq<char>, message: Seq<char>, gemma_fallback: bool },
}

impl View for PromptStep {
    type V = PromptStepView;

    open spec fn view(&self) -> PromptStepView {
        match self {
            PromptStep::Ready(prompt) => PromptStepView::Ready(prompt@),
            PromptStep::Apply { chat, message, gemma_fallback } => PromptStepView::Apply {
                system: chat.system@,
                user: chat.user@,
                message: message@,
                gemma_fallback: *gemma_fallback,
            },
        }
    }
}

/// The name of a language, if there is one.
pub open spec fn opt_name(language: Option<LanguageView>) -> Option<Seq<char>> {
    match language {
        Some(l) => Some(l.name),
        None => None,
    }
}

/// What is told when a native translation prompt lacks its source.
pub const SOURCE_REQUIRED: &'static str = "source language is required";

/// The prompt for a request, as far as it can be made without the model.
pub open spec fn prompt_step(format: PromptFormatView, request: RequestView) -> Result<
    PromptStepView,
    EngineErrorView,
> {
    match format {
        PromptFormatView::TranslateGemma(tg) => match request.source {
            None => Err(EngineErrorView::UnsupportedLanguage(SOURCE_REQUIRED@)),
            Some(source) => match rendered_prompt(
                tg,
                source.code,
                request.target.code,
                request.text,
            ) {
                Ok(prompt) => Ok(PromptStepView::Ready(prompt)),
                Err(e) => Err(EngineErrorView::UnsupportedLanguage(prompt_error_text(e))),
            },
        },
        PromptFormatView::Chat { gemma_fallback } => {
            let system = system_text(request.format);
            let user = user_text(opt_name(request.source), request.target.name, request.text);
            Ok(
                PromptStepView::Apply {
                    system,
                    user,
                    message: system + "\n\n"@ + user,
                    gemma_fallback,
                },
            )
        },
    }
}

/// Make the prompt for a request, as far as it can be made without the model.
pub fn render_prompt(format: &PromptFormat, request: &Request) -> (r: Result<
    PromptStep,
    EngineError,
>)
    ensures
        match r {
            Ok(step) => prompt_step(format@, request@) == Ok::<PromptStepView, EngineErrorView>(
                step@,
            ),
            Err(e) => prompt_step(format@, request@) == Err::<PromptStepView, EngineErrorView>(
                e@,
            ),
        },
{
    match format {
        PromptFormat::TranslateGemma(tg) => {
            let source = match request.source {
                Some(source) => source,
                None => return Err(EngineError::UnsupportedLanguage(SOURCE_REQUIRED.to_owned())),
            };
            match tg.render(source.code, request.target.code, request.text.as_str()) {
                Ok(prompt) => Ok(PromptStep::Ready(prompt)),
                Err(e) => Err(EngineError::UnsupportedLanguage(e.message())),
            }
        },
        PromptFormat::Chat { gemma_fallback } => {
            let source = match request.source {
                Some(source) => Some(source.name),
                None => None,
            };
            let chat = prompt::chat_prompt(
                request.format.as_str(),
                source,
                request.target.name,
                request.text.as_str(),
            );
            let mut message = chat.system.to_owned();
            message.append("\n\n");
            message.append(chat.user.as_str());
            Ok(PromptStep::Apply { chat, message, gemma_fallback: *gemma_fallback })
        },
    }
}

/// The prompt of a chat model, from what became of its chat template.
pub open spec fn applied_prompt(
    system: Seq<char>,
    user: Seq<char>,
    gemma_fallback: bool,
    applied: Result<Seq<char>, Seq<char>>,
) -> Result<Seq<char>, EngineErrorView> {
    match applied {
        Ok(prompt) => Ok(prompt),
        Err(e) => if gemma_fallback {
            Ok(gemma_turn(system, user))
        } else {
            Err(EngineErrorView::Internal("unable to apply the chat template: "@ + e))
        },
    }
}

/// Finish the prompt of a chat model. `applied` is what applying the chat template gave, or why
/// it could not be applied.
pub fn finish_prompt(
    chat: &ChatPrompt,
    gemma_fallback: bool,
    applied: Result<String, String>,
) -> (r: Result<String, EngineError>)
    ensures
        match r {
            Ok(prompt) => applied_prompt(
                chat.system@,
                chat.user@,
                gemma_fallback,
                text_result(applied),
            ) == Ok::<Seq<char>, EngineErrorView>(prompt@),
            Err(e) => applied_prompt(
                chat.system@,
                chat.user@,
                gemma_fallback,
                text_result(applied),
            ) == Err::<Seq<char>, EngineErrorView>(e@),
        },
{
    match applied {
        Ok(prompt) => Ok(prompt),
        Err(e) => if gemma_fallback {
            Ok(prompt::gemma_fallback(chat))
        } else {
            let mut reason = "unable to apply the chat template: ".to_owned();
            reason.append(e.as_str());
            Err(EngineError::Internal(reason))
        },
    }
}

/// Law: a Gemma chat model gets a prompt whatever its chat template is, and a source language is
/// needed by the native translation prompt only.
pub proof fn law_gemma_chat_always_gets_a_prompt(
    request: RequestView,
    applied: Result<Seq<char>, Seq<char>>,
)
    ensures
        prompt_step(PromptFormatView::Chat { gemma_fallback: true }, request) matches Ok(
            PromptStepView::Apply { system, user, message, gemma_fallback },
        ) && applied_prompt(system, user, gemma_fallback, applied) is Ok,
{
}

/// Law: a chat model is asked for the target language of the request: the user
/// turn names source and target in that order, carries the text of the request whole behind the name of its
/// source, and ends with the name of the target, behind which the translation is to stand. Where
/// the source is not known, only the target is named. The message that the chat template is
/// applied to holds the instructions and the user turn, and nothing else. What falls back is told
/// by the model alone.
pub proof fn law_chat_prompt_asks_for_the_target(request: RequestView, gemma_fallback: bool)
    ensures
        prompt_step(PromptFormatView::Chat { gemma_fallback }, request) matches Ok(
            PromptStepView::Apply { system, user, message, gemma_fallback: fallback },
        ) && {
            let target = request.target.name;
            &&& fallback == gemma_fallback
            &&& message == system + "\n\n"@ + user
            &&& (target + ":\n"@).is_suffix_of(user)
            &&& match request.source {
                Some(source) => {
                    &&& ("Translate the text below from "@ + source.name + " to "@ + target
                        + ".\n\n"@).is_prefix_of(user)
                    &&& (source.name + ": "@ + request.text + "\n\n"@ + target
                        + ":\n"@).is_suffix_of(user)
                    &&& user.len() == ("Translate the text below from "@ + source.name + " to "@
                        + target + ".\n\n"@).len() + (source.name + ": "@ + request.text + "\n\n"@
                        + target + ":\n"@).len()
                },
                None => {
                    &&& ("Translate the text below to "@ + target + ".\n\n"@).is_prefix_of(user)
                    &&& ("Text: "@ + request.text + "\n\n"@ + target + ":\n"@).is_suffix_of(user)
                    &&& user.len() == ("Translate the text below to "@ + target + ".\n\n"@).len()
                        + ("Text: "@ + request.text + "\n\n"@ + target + ":\n"@).len()
                },
            }
        },
{
    reveal_strlit("Translate the text below from ");
    reveal_strlit("Translate the text below to ");
    reveal_strlit(" to ");
    reveal_strlit(".\n\n");
    reveal_strlit(": ");
    reveal_strlit("\n\n");
    reveal_strlit(":\n");
    reveal_strlit("Text: ");
    reveal_strlit(".\n\nText: ");
    let target = request.target.name;
    let user = user_text(opt_name(request.source), target, request.text);
    let tail = target + ":\n"@;
    match request.source {
        Some(source) => {
            let head = "Translate the text below from "@ + source.name + " to "@ + target
                + ".\n\n"@;
            let rest = source.name + ": "@ + request.text + "\n\n"@ + target + ":\n"@;
            lemma_joined(head, rest, user);
            lemma_joined(source.name + ": "@ + request.text + "\n\n"@, tail, rest);
            assert(tail =~= user.subrange(user.len() - tail.len(), user.len() as int));
        },
        None => {
            let head = "Translate the text below to "@ + target + ".\n\n"@;
            let rest = "Text: "@ + request.text + "\n\n"@ + target + ":\n"@;
            lemma_joined(head, rest, user);
            lemma_joined("Text: "@ + request.text + "\n\n"@, tail, rest);
            assert(tail =~= user.subrange(user.len() - tail.len(), user.len() as int));
        },
    }
}

/// A text that is two texts joined begins with the one and ends with the other.
proof fn lemma_joined(head: Seq<char>, rest: Seq<char>, whole: Seq<char>)
    requires
        whole =~= head + rest,
    ensures
        head.is_prefix_of(whole),
        rest.is_suffix_of(whole),
        whole.len() == head.len() + rest.len(),
{
    assert(head =~= whole.subrange(0, head.len() as int));
    assert(rest =~= whole.subrange(whole.len() - rest.len(), whole.len() as int));
}

/// Law: the native translation prompt is rendered for the code of the source, the code of the
/// target and the text of the request, and is the prompt as it was rendered.
pub proof fn law_native_prompt_is_rendered_for_the_request(
    tg: TranslateGemmaView,
    request: RequestView,
)
    requires
        request.source is Some,
    ensures
        match rendered_prompt(
            tg,
            request.source->0.code,
            request.target.code,
            request.text,
        ) {
            Ok(prompt) => prompt_step(PromptFormatView::TranslateGemma(tg), request) == Ok::<
                PromptStepView,
                EngineErrorView,
            >(PromptStepView::Ready(prompt)),
            Err(_) => prompt_step(PromptFormatView::TranslateGemma(tg), request) matches Err(e)
                && engine_error_status(e) == 400,
        },
{
}

/// Law: what the chat template gives is the prompt as it is. Where it cannot be applied, a Gemma
/// model gets the same instructions and the same user turn in its own turns, and any other model
/// gets no prompt at all, which is no fault of the request.
pub proof fn law_applied_template_is_the_prompt(
    system: Seq<char>,
    user: Seq<char>,
    gemma_fallback: bool,
    applied: Result<Seq<char>, Seq<char>>,
)
    ensures
        match (applied, applied_prompt(system, user, gemma_fallback, applied)) {
            (Ok(given), Ok(prompt)) => prompt == given,
            (Ok(_), Err(_)) => false,
            (Err(_), Ok(prompt)) => gemma_fallback && ("<start_of_turn>user\n"@
                + system).is_prefix_of(prompt) && ("\n\n"@ + user
                + "<end_of_turn>\n<start_of_turn>model\n"@).is_suffix_of(prompt),
            (Err(_), Err(e)) => !gemma_fallback && engine_error_status(e) == 500,
        },
{
    prompt::law_gemma_turn_holds_the_prompt(system, user);
}

/// Law: the native translation prompt cannot do without a source language; a request without one
/// is at fault.
pub proof fn law_native_prompt_needs_a_source(format: PromptFormatView, request: RequestView)
    requires
        format is TranslateGemma,
        request.source is None,
    ensures
        prompt_step(format, request) matches Err(e) && engine_error_status(e) == 400,
{
}

/// Output token budget: proportional to the input so a short message cannot generate thousands
/// of tokens, but generous enough for language pairs that need more tokens than the source.
pub open spec fn budget(text_tokens: int, max_new_tokens: int) -> int {
    if 3 * text_tokens + 32 < max_new_tokens {
        3 * text_tokens + 32
    } else {
        max_new_tokens
    }
}

/// The output token budget for a text of so many tokens: 32 more than three times as many, but
/// at most `max_new_tokens`.
pub fn output_budget(text_tokens: usize, max_new_tokens: u32) -> (r: usize)
    ensures
        r == budget(text_tokens as int, max_new_tokens as int),
{
    let text_tokens = text_tokens as u64;
    if text_tokens > u32::MAX as u64 {
        return max_new_tokens as usize;
    }
    let proportional: u64 = 3 * text_tokens + 32;
    if proportional < max_new_tokens as u64 {
        proportional as usize
    } else {
        max_new_tokens as usize
    }
}

/// A translation whose prompt fits into the context: how many tokens the prompt has, how many
/// may be generated and were, and their text.
#[derive(Debug)]
pub struct Generation {
    tokens: usize,
    max_new: usize,
    n_out: usize,
    output: String,
}

/// A translation on its way, with its text.
pub struct GenerationView {
    pub tokens: int,
    pub max_new: int,
    pub n_out: int,
    pub output: Seq<char>,
}

impl View for Generation {
    type V = GenerationView;

    closed spec fn view(&self) -> GenerationView {
        GenerationView {
            tokens: self.tokens as int,
            max_new: self.max_new as int,
            n_out: self.n_out as int,
            output: self.output@,
        }
    }
}

/// There is a prompt, no more was generated than may be, and all of it fits into a context.
pub open spec fn sound(g: GenerationView) -> bool {
    &&& g.tokens > 0
    &&& 0 <= g.n_out <= g.max_new
    &&& g.tokens + g.max_new <= u32::MAX
}

/// How many tokens fit into the context behind the prompt.
pub open spec fn room(n_ctx: int, tokens: int) -> int {
    if n_ctx > tokens {
        n_ctx - tokens
    } else {
        0
    }
}

/// How a translation begins, or why it does not: there has to be room for an output about as
/// long as the input.
pub open spec fn begun(
    tokens: usize,
    text_tokens: Option<usize>,
    n_ctx: u32,
    model_n_ctx: u32,
    max_new_tokens: u32,
) -> Result<GenerationView, EngineErrorView> {
    let text: int = match text_tokens {
        Some(n) => n as int,
        None => tokens as int,
    };
    if room(n_ctx as int, tokens as int) < text + 8 {
        Err(EngineErrorView::InputTooLong { tokens, n_ctx: model_n_ctx })
    } else {
        Ok(
            GenerationView {
                tokens: tokens as int,
                max_new: smaller(
                    budget(text, max_new_tokens as int),
                    room(n_ctx as int, tokens as int),
                ),
                n_out: 0,
                output: Seq::empty(),
            },
        )
    }
}

/// A translation with one more token.
pub open spec fn extended(g: GenerationView, piece: Seq<char>) -> GenerationView {
    GenerationView { n_out: g.n_out + 1, output: g.output + piece, ..g }
}

/// What is to be done with a token that was sampled.
#[derive(Debug, Clone, Copy, PartialEq, Eq, Structural)]
pub enum Sampled {
    /// The text ends here.
    End,
    /// The token belongs to the text.
    Accept,
}

/// What is decided on a sampled token, by whether it ends the text.
pub open spec fn decided(g: GenerationView, end: bool) -> Result<Sampled, EngineErrorView> {
    if end {
        Ok(Sampled::End)
    } else if g.n_out == g.max_new {
        Err(EngineErrorView::OutputLimit(g.max_new as usize))
    } else {
        Ok(Sampled::Accept)
    }
}

/// What a translation comes to when its text has ended.
pub open spec fn finished(g: GenerationView) -> Result<GeneratedView, EngineErrorView> {
    if cleaned(g.output).len() == 0 {
        Err(EngineErrorView::EmptyOutput)
    } else {
        Ok(
            GeneratedView {
                text: cleaned(g.output),
                input_tokens: g.tokens as usize,
                output_tokens: g.n_out as usize,
            },
        )
    }
}

/// The entry by which the next token of a translation is decoded.
pub open spec fn next_entry(g: GenerationView, token: i32) -> BatchEntry {
    entry_at(token, g.tokens + g.n_out, true)
}

/// The metrics after a translation was finished.
pub open spec fn tokens_counted(m: MetricsView, g: GenerationView) -> MetricsView {
    MetricsView {
        input_tokens: added(m.input_tokens, g.tokens as u64),
        output_tokens: added(m.output_tokens, g.n_out as u64),
        ..m
    }
}

impl Generation {
    #[verifier::type_invariant]
    closed spec fn well_formed(self) -> bool {
        sound(self@)
    }

    /// Begin a translation whose prompt has `tokens` tokens, at least one where there is room for
    /// an output. `text_tokens` is how many of them the text alone has, if that is known, `n_ctx`
    /// the size of the context in use.
    pub fn begin(
        tokens: usize,
        text_tokens: Option<usize>,
        n_ctx: u32,
        info: &ModelInfo,
        max_new_tokens: u32,
    ) -> (r: Result<Generation, EngineError>)
        requires
            begun(tokens, text_tokens, n_ctx, info.n_ctx, max_new_tokens) is Ok ==> tokens > 0,
        ensures
            match r {
                Ok(g) => sound(g@) && begun(
                    tokens,
                    text_tokens,
                    n_ctx,
                    info.n_ctx,
                    max_new_tokens,
                ) == Ok::<GenerationView, EngineErrorView>(g@),
                Err(e) => begun(tokens, text_tokens, n_ctx, info.n_ctx, max_new_tokens) == Err::<
                    GenerationView,
                    EngineErrorView,
                >(e@),
            },
    {
        let text_tokens: usize = match text_tokens {
            Some(n) => n,
            None => tokens,
        };
        let room: usize = (n_ctx as usize).saturating_sub(tokens);
        if room < 8 || room - 8 < text_tokens {
            return Err(EngineError::InputTooLong { tokens, n_ctx: info.n_ctx });
        }
        let budget = output_budget(text_tokens, max_new_tokens);
        let max_new: usize = if budget < room {
            budget
        } else {
            room
        };
        let output = String::new();
        assert(output@ =~= Seq::<char>::empty());
        Ok(Generation { tokens, max_new, n_out: 0, output })
    }

    /// How many tokens may be generated.
    pub fn max_new(&self) -> (r: usize)
        ensures
            r == self@.max_new,
    {
        self.max_new
    }

    /// Decide on a sampled token, which ends the text where the model says so.
    pub fn sampled(&self, end: bool) -> (r: Result<Sampled, EngineError>)
        ensures
            sound(self@),
            match r {
                Ok(sampled) => decided(self@, end) == Ok::<Sampled, EngineErrorView>(sampled),
                Err(e) => decided(self@, end) == Err::<Sampled, EngineErrorView>(e@),
            },
    {
        proof {
            use_type_invariant(self);
        }
        if end {
            Ok(Sampled::End)
        } else if self.n_out == self.max_new {
            Err(EngineError::OutputLimit(self.max_new))
        } else {
            Ok(Sampled::Accept)
        }
    }

    /// Add an accepted token with its text, and make the entry by which it is decoded. Where no
    /// token may be added any more, nothing changes.
    pub fn push(&mut self, token: i32, piece: &str) -> (r: Result<BatchEntry, EngineError>)
        ensures
            sound(old(self)@),
            sound(final(self)@),
            old(self)@.n_out == old(self)@.max_new ==> final(self)@ == old(self)@ && (r matches Err(
                e,
            ) && e@ == EngineErrorView::OutputLimit(old(self)@.max_new as usize)),
            old(self)@.n_out < old(self)@.max_new ==> final(self)@ == extended(
                old(self)@,
                piece@,
            ) && match r {
                Ok(entry) => fits(old(self)@.tokens + old(self)@.n_out) && entry == next_entry(
                    old(self)@,
                    token,
                ),
                Err(e) => !fits(old(self)@.tokens + old(self)@.n_out) && e@
                    == EngineErrorView::Internal(POSITION_OVERFLOW@),
            },
    {
        proof {
            use_type_invariant(&*self);
        }
        if self.n_out == self.max_new {
            return Err(EngineError::OutputLimit(self.max_new));
        }
        let pos: usize = self.tokens + self.n_out;
        let mut output = String::new();
        std::mem::swap(&mut output, &mut self.output);
        output.append(piece);
        self.output = output;
        self.n_out = self.n_out + 1;
        match batch::entry(token, pos, true) {
            Ok(entry) => Ok(entry),
            Err(_) => Err(EngineError::Internal(POSITION_OVERFLOW.to_owned())),
        }
    }

    /// Finish the translation: count its tokens and clean its text.
    pub fn finish(self, metrics: &mut Metrics) -> (r: Result<Generated, EngineError>)
        ensures
            sound(self@),
            generated_view(r) == finished(self@),
            final(metrics)@ == tokens_counted(old(metrics)@, self@),
    {
        proof {
            use_type_invariant(&self);
        }
        metrics::count(&mut metrics.input_tokens, self.tokens as u64);
        metrics::count(&mut metrics.output_tokens, self.n_out as u64);
        let text = formatting::clean_model_output(self.output.as_str());
        if text.unicode_len() == 0 {
            return Err(EngineError::EmptyOutput);
        }
        Ok(
            Generated {
                text: text.to_owned(),
                input_tokens: self.tokens,
                output_tokens: self.n_out,
            },
        )
    }
}

/// The error of a translation that was cancelled, if it was. Asked before each batch and before
/// each token.
pub fn check_cancelled(cancelled: bool) -> (r: Result<(), EngineError>)
    ensures
        match r {
            Ok(_) => !cancelled,
            Err(e) => cancelled && e@ == EngineErrorView::Cancelled,
        },
{
    if cancelled {
        Err(EngineError::Cancelled)
    } else {
        Ok(())
    }
}

/// Where the batch ends that begins at `from`.
pub open spec fn chunk_end(len: int, n_batch: int, from: int) -> int {
    smaller(from + n_batch, len)
}

/// The prompt from `from` on, batch by batch.
pub open spec fn batches(tokens: Seq<i32>, n_batch: int, from: int) -> Seq<Seq<BatchEntry>>
    decreases tokens.len() - from,
{
    if n_batch <= 0 || from >= tokens.len() {
        Seq::empty()
    } else {
        let to = chunk_end(tokens.len() as int, n_batch, from);
        seq![batch_of(tokens, from, to)] + batches(tokens, n_batch, to)
    }
}

/// Make the batch of the prompt that begins at `from`, and tell where the next one begins.
pub fn prompt_batch(tokens: &Vec<i32>, n_batch: usize, from: usize) -> (r: Result<
    (Vec<BatchEntry>, usize),
    EngineError,
>)
    requires
        n_batch > 0,
        from < tokens.len(),
    ensures
        match r {
            Ok((entries, next)) => {
                &&& next == chunk_end(tokens.len() as int, n_batch as int, from as int)
                &&& fits(next - 1)
                &&& entries@ == batch_of(tokens@, from as int, next as int)
                &&& batches(tokens@, n_batch as int, from as int) == seq![entries@] + batches(
                    tokens@,
                    n_batch as int,
                    next as int,
                )
            },
            Err(e) => !fits(chunk_end(tokens.len() as int, n_batch as int, from as int) - 1) && e@
                == EngineErrorView::Internal(POSITION_OVERFLOW@),
        },
{
    let to: usize = if tokens.len() - from > n_batch {
        from + n_batch
    } else {
        tokens.len()
    };
    match batch::tokens_batch(tokens, from, to) {
        Ok(entries) => Ok((entries, to)),
        Err(_) => Err(EngineError::Internal(POSITION_OVERFLOW.to_owned())),
    }
}

/// Law: the batches of a prompt hold all its tokens, each once, in order and at its position,
/// and scores are wanted for the last of them only. No batch is larger than a batch may be.
pub proof fn law_batches_cover_the_prompt(tokens: Seq<i32>, n_batch: int, from: int)
    requires
        n_batch > 0,
        0 <= from <= tokens.len(),
    ensures
        batches(tokens, n_batch, from).flatten() == batch_of(tokens, from, tokens.len() as int),
        forall|i: int|
            0 <= i < batches(tokens, n_batch, from).len() ==> 0 < (
            #[trigger] batches(tokens, n_batch, from)[i]).len() <= n_batch,
    decreases tokens.len() - from,
{
    let all = batches(tokens, n_batch, from);
    if from >= tokens.len() {
        assert(all.flatten() =~= batch_of(tokens, from, tokens.len() as int));
    } else {
        let to = chunk_end(tokens.len() as int, n_batch, from);
        let first = batch_of(tokens, from, to);
        let rest = batches(tokens, n_batch, to);
        law_batches_cover_the_prompt(tokens, n_batch, to);
        assert(all =~= seq![first] + rest);
        assert(all.drop_first() =~= rest);
        assert(all.first() == first);
        assert(all.flatten() == first + rest.flatten());
        assert(first + batch_of(tokens, to, tokens.len() as int) =~= batch_of(
            tokens,
            from,
            tokens.len() as int,
        ));
        assert forall|i: int| 0 <= i < all.len() implies 0 < (#[trigger] all[i]).len()
            <= n_batch by {
            if i > 0 {
                assert(all[i] == rest[i - 1]);
            }
        }
    }
}

/// Law: every batch but the last is as large as a batch may be, so that there are no more of them
/// than needed.
pub proof fn law_batches_are_full(tokens: Seq<i32>, n_batch: int, from: int)
    requires
        n_batch > 0,
        0 <= from <= tokens.len(),
    ensures
        forall|i: int|
            0 <= i < batches(tokens, n_batch, from).len() - 1 ==> (
            #[trigger] batches(tokens, n_batch, from)[i]).len() == n_batch,
        tokens.len() - from <= n_batch ==> batches(tokens, n_batch, from).len() <= 1,
    decreases tokens.len() - from,
{
    let all = batches(tokens, n_batch, from);
    if from < tokens.len() {
        let to = chunk_end(tokens.len() as int, n_batch, from);
        let rest = batches(tokens, n_batch, to);
        law_batches_are_full(tokens, n_batch, to);
        assert(all =~= seq![batch_of(tokens, from, to)] + rest);
        assert(to == tokens.len() ==> rest.len() == 0);
        assert forall|i: int| 0 <= i < all.len() - 1 implies (#[trigger] all[i]).len()
            == n_batch by {
            if i > 0 {
                assert(all[i] == rest[i - 1]);
            }
        }
    }
}

/// Law: a token that ends the turn ends the translation, even at the limit; any other is accepted as
/// long as fewer than the limit were, and is one too many then, which is told with the limit.
pub proof fn law_tokens_are_accepted_up_to_the_limit(g: GenerationView)
    requires
        sound(g),
    ensures
        decided(g, true) == Ok::<Sampled, EngineErrorView>(Sampled::End),
        decided(g, false) == Ok::<Sampled, EngineErrorView>(Sampled::Accept) <==> g.n_out
            < g.max_new,
        g.n_out == g.max_new ==> (decided(g, false) matches Err(EngineErrorView::OutputLimit(n))
            && n == g.max_new),
{
}

/// A translation after all these tokens were accepted.
pub open spec fn with_pieces(g: GenerationView, pieces: Seq<Seq<char>>) -> GenerationView
    decreases pieces.len(),
{
    if pieces.len() == 0 {
        g
    } else {
        extended(with_pieces(g, pieces.drop_last()), pieces.last())
    }
}

/// Law: a translation never generates more than 32 tokens over three times those of its text,
/// nor more than the configured limit, and prompt and output together fit into the context.
pub proof fn law_output_is_bounded(
    tokens: usize,
    text_tokens: usize,
    n_ctx: u32,
    model_n_ctx: u32,
    max_new_tokens: u32,
)
    requires
        begun(tokens, Some(text_tokens), n_ctx, model_n_ctx, max_new_tokens) is Ok,
    ensures
        begun(tokens, Some(text_tokens), n_ctx, model_n_ctx, max_new_tokens) matches Ok(g)
            && g.max_new <= 3 * text_tokens + 32 && g.max_new <= max_new_tokens && g.tokens
            + g.max_new <= n_ctx,
{
}

/// Law: a translation that begins may generate as much as can be allowed: its limit is one of the
/// three that bound it. It begins with its whole prompt and without output; the whole prompt counts
/// as text where it is not known how much of it is. A prompt that is too long is told with its
/// tokens and the context size of the model.
pub proof fn law_output_limit_is_reached(
    tokens: usize,
    text_tokens: Option<usize>,
    n_ctx: u32,
    model_n_ctx: u32,
    max_new_tokens: u32,
)
    ensures
        match begun(tokens, text_tokens, n_ctx, model_n_ctx, max_new_tokens) {
            Ok(g) => {
                let text = if text_tokens is Some {
                    text_tokens->0
                } else {
                    tokens
                };
                &&& g.max_new == 3 * text + 32 || g.max_new == max_new_tokens || g.max_new == n_ctx
                    - tokens
                &&& g.max_new <= 3 * text + 32
                &&& g.max_new <= max_new_tokens
                &&& g.max_new <= n_ctx - tokens
                &&& tokens + text + 8 <= n_ctx
                &&& g.tokens == tokens
                &&& g.n_out == 0
                &&& g.output == Seq::<char>::empty()
            },
            Err(e) => e == (EngineErrorView::InputTooLong { tokens, n_ctx: model_n_ctx }),
        },
{
}

/// Law: a generated token stands right behind the prompt and the tokens generated before it, and
/// scores are wanted for it, by which the next one is sampled.
pub proof fn law_generated_tokens_follow_the_prompt(
    g: GenerationView,
    token: i32,
    piece: Seq<char>,
    next: i32,
)
    requires
        sound(g),
        fits(g.tokens + g.n_out + 1),
    ensures
        next_entry(g, token).token == token,
        next_entry(g, token).logits,
        g.n_out == 0 ==> next_entry(g, token).pos == g.tokens,
        next_entry(extended(g, piece), next).pos == next_entry(g, token).pos + 1,
{
}

/// Law: finishing counts the tokens of the prompt as input and the generated ones as output, and
/// touches no other metric.
pub proof fn law_finishing_counts_tokens(m: MetricsView, g: GenerationView)
    requires
        sound(g),
        m.input_tokens + g.tokens <= u64::MAX,
        m.output_tokens + g.n_out <= u64::MAX,
    ensures
        tokens_counted(m, g).input_tokens == m.input_tokens + g.tokens,
        tokens_counted(m, g).output_tokens == m.output_tokens + g.n_out,
        (MetricsView {
            input_tokens: m.input_tokens,
            output_tokens: m.output_tokens,
            ..tokens_counted(m, g)
        }) == m,
{
}

/// Law: a prompt is refused as too long exactly where the context leaves no room for an output
/// about as long as the text, whatever the limit on output.
pub proof fn law_too_long_depends_on_room_only(
    tokens: usize,
    text_tokens: usize,
    n_ctx: u32,
    model_n_ctx: u32,
    max_new_tokens: u32,
)
    ensures
        begun(tokens, Some(text_tokens), n_ctx, model_n_ctx, max_new_tokens) is Err <==> tokens
            + text_tokens + 8 > n_ctx,
{
}

/// Law: the output is the pieces of the accepted tokens in order, and they are counted.
pub proof fn law_output_is_the_pieces(g: GenerationView, pieces: Seq<Seq<char>>)
    ensures
        with_pieces(g, pieces).n_out == g.n_out + pieces.len(),
        with_pieces(g, pieces).output == g.output + pieces.flatten(),
        with_pieces(g, pieces).tokens == g.tokens,
        with_pieces(g, pieces).max_new == g.max_new,
    decreases pieces.len(),
{
    if pieces.len() == 0 {
        assert(g.output + pieces.flatten() =~= g.output);
    } else {
        law_output_is_the_pieces(g, pieces.drop_last());
        pieces.lemma_flatten_and_flatten_alt_are_equivalent();
        pieces.drop_last().lemma_flatten_and_flatten_alt_are_equivalent();
        assert(g.output + pieces.flatten() =~= g.output + pieces.drop_last().flatten()
            + pieces.last());
    }
}

/// What comes when a token is asked for.
pub enum NextView {
    /// The translation was cancelled before.
    Cancelled,
    /// A token that ends the text.
    End,
    /// A token of the text, with its piece.
    Piece(Seq<char>),
}

/// What a translation comes to with these tokens, one after the other; `None` where it goes on
/// after the last of them.
pub open spec fn run(g: GenerationView, nexts: Seq<NextView>) -> Option<
    Result<GeneratedView, EngineErrorView>,
>
    decreases nexts.len(),
{
    if nexts.len() == 0 {
        None
    } else if nexts[0] is Cancelled {
        Some(Err(EngineErrorView::Cancelled))
    } else {
        match (decided(g, nexts[0] is End), nexts[0]) {
            (Err(e), _) => Some(Err(e)),
            (Ok(Sampled::Accept), NextView::Piece(piece)) => if fits(g.tokens + g.n_out) {
                run(extended(g, piece), nexts.drop_first())
            } else {
                Some(Err(EngineErrorView::Internal(POSITION_OVERFLOW@)))
            },
            _ => Some(finished(g)),
        }
    }
}

/// The first `n` tokens all belong to the text.
pub open spec fn all_pieces(nexts: Seq<NextView>, n: int) -> bool {
    0 <= n <= nexts.len() && forall|i: int| 0 <= i < n ==> #[trigger] nexts[i] is Piece
}

/// The pieces of the first `n` tokens, which all belong to the text.
pub open spec fn pieces_of(nexts: Seq<NextView>, n: int) -> Seq<Seq<char>> {
    Seq::new(n as nat, |i: int| nexts[i]->Piece_0)
}

/// The first `n` tokens behind the prompt have a position that the inference library can take.
pub open spec fn placed(g: GenerationView, n: int) -> bool {
    n == 0 || fits(g.tokens + n - 1)
}

/// A translation runs through the tokens of its text as long as it may take them.
proof fn lemma_run_takes_pieces(g: GenerationView, nexts: Seq<NextView>, n: int)
    requires
        sound(g),
        g.n_out == 0,
        all_pieces(nexts, n),
        n <= g.max_new,
        placed(g, n),
    ensures
        run(g, nexts) == run(with_pieces(g, pieces_of(nexts, n)), nexts.skip(n)),
        with_pieces(g, pieces_of(nexts, n)).n_out == n,
        with_pieces(g, pieces_of(nexts, n)).tokens == g.tokens,
        with_pieces(g, pieces_of(nexts, n)).max_new == g.max_new,
    decreases n,
{
    let pieces = pieces_of(nexts, n);
    if n == 0 {
        assert(nexts.skip(0) =~= nexts);
    } else {
        lemma_run_takes_pieces(g, nexts, n - 1);
        assert(pieces.drop_last() =~= pieces_of(nexts, n - 1));
        let rest = nexts.skip(n - 1);
        assert(rest[0] == nexts[n - 1]);
        assert(rest.drop_first() =~= nexts.skip(n));
    }
}

/// What a translation comes to that took `n` tokens of its text, by what comes next.
proof fn lemma_run_after_pieces(g: GenerationView, nexts: Seq<NextView>, n: int)
    requires
        sound(g),
        g.n_out == 0,
        g.output == Seq::<char>::empty(),
        all_pieces(nexts, n),
        n <= g.max_new,
        placed(g, n),
    ensures
        n == nexts.len() ==> run(g, nexts) is None,
        n < nexts.len() ==> match nexts[n] {
            NextView::Cancelled => run(g, nexts) == Some(
                Err::<GeneratedView, EngineErrorView>(EngineErrorView::Cancelled),
            ),
            NextView::End => run(g, nexts) == Some(
                finished(
                    GenerationView { n_out: n, output: pieces_of(nexts, n).flatten(), ..g },
                ),
            ),
            NextView::Piece(_) => {
                &&& n == g.max_new ==> run(g, nexts) == Some(
                    Err::<GeneratedView, EngineErrorView>(
                        EngineErrorView::OutputLimit(g.max_new as usize),
                    ),
                )
                &&& n < g.max_new && !fits(g.tokens + n) ==> run(g, nexts) == Some(
                    Err::<GeneratedView, EngineErrorView>(
                        EngineErrorView::Internal(POSITION_OVERFLOW@),
                    ),
                )
            },
        },
{
    lemma_run_takes_pieces(g, nexts, n);
    law_output_is_the_pieces(g, pieces_of(nexts, n));
    assert(g.output + pieces_of(nexts, n).flatten() =~= pieces_of(nexts, n).flatten());
    if n < nexts.len() {
        assert(nexts.skip(n)[0] == nexts[n]);
    }
}

/// Law: a translation that was begun ends in the output limit exactly where none of the tokens up
/// to the one behind the limit ends the text and it was not cancelled before one of them. Where
/// one of them ends the text, what comes out is the cleaned text of the tokens before, or an error
/// where that is empty, and so many tokens are counted. Where it is cancelled before one of them,
/// it ends in that. It goes on exactly while only tokens of the text have come, and no more than it
/// may generate. All this holds as far as the tokens have positions that the inference library can
/// take, and a token behind the last of them is an internal error.
pub proof fn law_run_ends_with_the_text_or_at_the_limit(g: GenerationView, nexts: Seq<NextView>)
    requires
        sound(g),
        g.n_out == 0,
        g.output == Seq::<char>::empty(),
    ensures
        run(g, nexts) == Some(
            Err::<GeneratedView, EngineErrorView>(
                EngineErrorView::OutputLimit(g.max_new as usize),
            ),
        ) <==> all_pieces(nexts, g.max_new + 1) && placed(g, g.max_new),
        run(g, nexts) is None <==> nexts.len() <= g.max_new && all_pieces(
            nexts,
            nexts.len() as int,
        ) && placed(g, nexts.len() as int),
        forall|n: int|
            #![trigger all_pieces(nexts, n)]
            0 <= n <= g.max_new && n < nexts.len() && all_pieces(nexts, n) && placed(g, n) ==> {
                &&& nexts[n] is Cancelled ==> run(g, nexts) == Some(
                    Err::<GeneratedView, EngineErrorView>(EngineErrorView::Cancelled),
                )
                &&& nexts[n] is End ==> run(g, nexts) == Some(
                    ({
                        let text = cleaned(pieces_of(nexts, n).flatten());
                        if text.len() == 0 {
                            Err(EngineErrorView::EmptyOutput)
                        } else {
                            Ok(
                                GeneratedView {
                                    text,
                                    input_tokens: g.tokens as usize,
                                    output_tokens: n as usize,
                                },
                            )
                        }
                    }),
                )
                &&& nexts[n] is Piece && n < g.max_new && !fits(g.tokens + n) ==> run(g, nexts)
                    == Some(
                    Err::<GeneratedView, EngineErrorView>(
                        EngineErrorView::Internal(POSITION_OVERFLOW@),
                    ),
                )
            },
{
    assert forall|n: int|
        #![trigger all_pieces(nexts, n)]
        0 <= n <= g.max_new && n < nexts.len() && all_pieces(nexts, n) && placed(g, n) implies {
        &&& nexts[n] is Cancelled ==> run(g, nexts) == Some(
            Err::<GeneratedView, EngineErrorView>(EngineErrorView::Cancelled),
        )
        &&& nexts[n] is End ==> run(g, nexts) == Some(
            finished(GenerationView { n_out: n, output: pieces_of(nexts, n).flatten(), ..g }),
        )
        &&& nexts[n] is Piece && n < g.max_new && !fits(g.tokens + n) ==> run(g, nexts) == Some(
            Err::<GeneratedView, EngineErrorView>(EngineErrorView::Internal(POSITION_OVERFLOW@)),
        )
    } by {
        lemma_run_after_pieces(g, nexts, n);
    }
    let n = lemma_last_taken(g, nexts, g.max_new);
    lemma_run_after_pieces(g, nexts, n);
}

/// How many tokens of its text a translation takes, of the first `limit`: those before the first
/// token that is not of the text or has no position.
proof fn lemma_last_taken(g: GenerationView, nexts: Seq<NextView>, limit: int) -> (n: int)
    requires
        limit >= 0,
        sound(g),
    ensures
        0 <= n <= limit,
        all_pieces(nexts, n),
        placed(g, n),
        n == limit || n == nexts.len() || !(nexts[n] is Piece) || !fits(g.tokens + n),
    decreases limit,
{
    if limit == 0 || (all_pieces(nexts, limit) && placed(g, limit)) {
        limit
    } else {
        lemma_last_taken(g, nexts, limit - 1)
    }
}

} // verus!
