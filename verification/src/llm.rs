//! A model without a queue: one context per prompt, made for the prompt's length.
//!
//! Loads a model with as many layers on the GPU as it bears, found by trying, and answers one
//! prompt at a time.

use vstd::prelude::*;
use vstd::string::*;

use crate::batch;
use crate::batch::{batch_of, fits, BatchEntry, POSITION_OVERFLOW};
use crate::formatting::lemma_leading_space;
use crate::prompt::gemma_turn;
use crate::text;
use crate::text::{
    decimal, first_match, is_trimmed, lemma_first_match, lemma_trimmed, trimmed, without_leading,
    without_part,
};

verus! {

/// Why a prompt is not answered now.
#[derive(Debug, Clone, Copy, PartialEq, Eq, Structural)]
pub enum LLMError {
    /// Another prompt is being answered.
    Busy,
}

impl LLMError {
    /// What is told about the error.
    pub fn message(&self) -> (r: &'static str)
        ensures
            r@ == "Server busy, please try again later"@,
    {
        match self {
            LLMError::Busy => "Server busy, please try again later",
        }
    }
}

/// Layers to put on the GPU at first: more than any model has.
pub const ALL_LAYERS: u32 = 9999;

/// Layers to put on the GPU after the first failure: as many as most models have.
pub const MOST_LAYERS: u32 = 64;

/// Below so many MiB of VRAM the physical batch is kept small.
pub const SMALL_VRAM_MIB: u64 = 6144;

/// The physical batch size where VRAM is scarce.
pub const SMALL_UBATCH: u32 = 128;

/// What is told when the model cannot be loaded.
pub const LOAD_FAILED: &'static str = "Unable to load model even with 0 GPU layers";

/// What is told when the model cannot be run.
pub const PROBE_FAILED: &'static str = "GPU inference failed even with 0 layers";

/// What is told when the model has nothing to say.
pub const EMPTY_OUTPUT: &'static str = "Model produced empty output";

/// The physical batch size for so much VRAM in MiB, if it is known.
pub open spec fn ubatch(use_gpu: bool, total_mib: Option<u64>, default: u32) -> u32 {
    match total_mib {
        Some(total) if use_gpu && total < SMALL_VRAM_MIB => SMALL_UBATCH,
        _ => default,
    }
}

/// Pick the physical batch size from the total VRAM of the primary GPU in MiB.
///
/// On cards with limited VRAM the default can exhaust memory when combined with KV cache and GPU
/// compute buffers. Cards with less than 6 GB of VRAM get a small one.
pub fn pick_n_ubatch(use_gpu: bool, total_mib: Option<u64>, default: u32) -> (r: u32)
    ensures
        r == ubatch(use_gpu, total_mib, default),
{
    if use_gpu {
        if let Some(total) = total_mib {
            return if total >= SMALL_VRAM_MIB {
                default
            } else {
                SMALL_UBATCH
            };
        }
    }
    default
}

/// Law: a GPU with less than 6 GiB of VRAM gets batches of 128, and nothing else changes the default.
pub proof fn law_small_cards_get_small_batches(use_gpu: bool, total: u64, default: u32)
    ensures
        use_gpu && total < 6 * 1024 ==> ubatch(use_gpu, Some(total), default) == 128,
        !use_gpu || total >= 6 * 1024 ==> ubatch(use_gpu, Some(total), default) == default,
        ubatch(use_gpu, None, default) == default,
{
}

/// The layers to try after the model could not be loaded with `n_gpu`, if any.
pub open spec fn layers_after_load_failure(n_gpu: u32) -> Option<u32> {
    if n_gpu >= ALL_LAYERS {
        Some(MOST_LAYERS)
    } else if n_gpu / 2 == 0 {
        None
    } else {
        Some((n_gpu / 2) as u32)
    }
}

/// Decide how many layers to try after the model could not be loaded with `n_gpu`: the first
/// time as many as most models have, then half as many each time.
pub fn after_load_failure(n_gpu: u32) -> (r: Result<u32, &'static str>)
    ensures
        match r {
            Ok(next) => layers_after_load_failure(n_gpu) == Some(next),
            Err(e) => layers_after_load_failure(n_gpu) is None && e@ == LOAD_FAILED@,
        },
{
    let next: u32 = if n_gpu >= ALL_LAYERS {
        MOST_LAYERS
    } else {
        n_gpu / 2
    };
    if next == 0 {
        Err(LOAD_FAILED)
    } else {
        Ok(next)
    }
}

/// How many of `n_layer` layers are on the GPU where `n_gpu` are wanted there.
pub open spec fn on_gpu(n_gpu: u32, n_layer: u32) -> u32 {
    if n_gpu < n_layer {
        n_gpu
    } else {
        n_layer
    }
}

/// The layers to try after a model of `n_layer` layers could not be run with `n_gpu`, if any: a
/// tenth less, at least one less.
pub open spec fn layers_after_probe_failure(n_gpu: u32, n_layer: u32) -> Option<u32> {
    let current = on_gpu(n_gpu, n_layer);
    let step: u32 = if current / 10 > 1 {
        (current / 10) as u32
    } else {
        1
    };
    if current <= step {
        None
    } else {
        Some((current - step) as u32)
    }
}

/// Decide how many layers to try after a model of `n_layer` layers could not be run with
/// `n_gpu`.
pub fn after_probe_failure(n_gpu: u32, n_layer: u32) -> (r: Result<u32, &'static str>)
    ensures
        match r {
            Ok(next) => layers_after_probe_failure(n_gpu, n_layer) == Some(next),
            Err(e) => layers_after_probe_failure(n_gpu, n_layer) is None && e@ == PROBE_FAILED@,
        },
{
    let current: u32 = n_gpu.min(n_layer);
    let next: u32 = current.saturating_sub((current / 10).max(1));
    if next == 0 {
        Err(PROBE_FAILED)
    } else {
        Ok(next)
    }
}

/// Layers of a loaded model that are on the GPU; `None` where all are, or none is meant to be.
pub open spec fn some_layers(use_gpu: bool, n_gpu: u32, n_layer: u32) -> Option<u32> {
    if use_gpu && n_gpu < n_layer {
        Some(n_gpu)
    } else {
        None
    }
}

/// Layers of a loaded model that are on the GPU; `None` where all are, or none is meant to be.
pub fn gpu_layers(use_gpu: bool, n_gpu: u32, n_layer: u32) -> (r: Option<u32>)
    ensures
        r == some_layers(use_gpu, n_gpu, n_layer),
{
    if use_gpu && n_gpu < n_layer {
        Some(n_gpu)
    } else {
        None
    }
}

/// Where the layers of a model are.
pub open spec fn placement_text(use_gpu: bool, gpu_layers: Option<u32>, n_layer: u32) -> Seq<
    char,
> {
    if !use_gpu {
        "ltengine: "@ + decimal(n_layer as nat) + " model layers, CPU only"@
    } else {
        match gpu_layers {
            None => "ltengine: "@ + decimal(n_layer as nat)
                + " model layers, all offloaded to GPU"@,
            Some(n) => "ltengine: "@ + decimal(n as nat) + "/"@ + decimal(n_layer as nat)
                + " model layers on GPU, rest on CPU"@,
        }
    }
}

/// Tell where the layers of a model are.
pub fn placement_line(use_gpu: bool, gpu_layers: Option<u32>, n_layer: u32) -> (r: String)
    ensures
        r@ == placement_text(use_gpu, gpu_layers, n_layer),
{
    let all = text::to_decimal(n_layer as u64);
    let mut line = "ltengine: ".to_owned();
    if !use_gpu {
        line.append(all.as_str());
        line.append(" model layers, CPU only");
        return line;
    }
    match gpu_layers {
        None => {
            line.append(all.as_str());
            line.append(" model layers, all offloaded to GPU");
        },
        Some(n) => {
            let n = text::to_decimal(n as u64);
            line.append(n.as_str());
            line.append("/");
            line.append(all.as_str());
            line.append(" model layers on GPU, rest on CPU");
        },
    }
    line
}

/// Law: after a model could not be loaded with all its layers, 64 are tried, and then half as many
/// each time, until only one was tried.
pub proof fn law_load_failure_halves_the_layers(n_gpu: u32)
    ensures
        n_gpu >= 9999 ==> layers_after_load_failure(n_gpu) == Some(64u32),
        n_gpu < 2 ==> layers_after_load_failure(n_gpu) is None,
        2 <= n_gpu < 9999 ==> (layers_after_load_failure(n_gpu) matches Some(next) && (2 * next
            == n_gpu || 2 * next + 1 == n_gpu)),
{
}

/// Law: after a model could not be run, a tenth of the layers that were on the GPU is taken off, and
/// at least one, as long as one is left.
pub proof fn law_probe_failure_takes_off_a_tenth(n_gpu: u32, n_layer: u32)
    ensures
        ({
            let current: int = if n_gpu < n_layer {
                n_gpu as int
            } else {
                n_layer as int
            };
            match layers_after_probe_failure(n_gpu, n_layer) {
                Some(next) => {
                    &&& 0 < next < current
                    &&& 10 * (current - next) <= current || current - next == 1
                    &&& 10 * (current - next + 1) > current
                },
                None => current <= 1,
            }
        }),
{
}

/// Law: it is told how many of the layers are on the GPU, that all are, or that none is used.
pub proof fn law_placement_is_told(use_gpu: bool, n_gpu: u32, n_layer: u32)
    ensures
        ({
            let told = placement_text(use_gpu, some_layers(use_gpu, n_gpu, n_layer), n_layer);
            let all = decimal(n_layer as nat);
            &&& !use_gpu ==> told == "ltengine: "@ + all + " model layers, CPU only"@
            &&& use_gpu && n_gpu >= n_layer ==> told == "ltengine: "@ + all
                + " model layers, all offloaded to GPU"@
            &&& use_gpu && n_gpu < n_layer ==> ("ltengine: "@ + decimal(n_gpu as nat) + "/"@
                + all).is_prefix_of(told)
        }),
{
    if use_gpu && n_gpu < n_layer {
        let told = placement_text(use_gpu, some_layers(use_gpu, n_gpu, n_layer), n_layer);
        let head = "ltengine: "@ + decimal(n_gpu as nat) + "/"@ + decimal(n_layer as nat);
        assert(head =~= told.subrange(0, head.len() as int));
    }
}

/// Law: whatever fails, the next attempt puts fewer layers on the GPU and still at least one, so
/// that there is an end to the attempts.
pub proof fn law_attempts_shrink(n_gpu: u32, n_layer: u32)
    ensures
        layers_after_load_failure(n_gpu) matches Some(next) ==> 0 < next < n_gpu,
        layers_after_probe_failure(n_gpu, n_layer) matches Some(next) ==> 0 < next < n_gpu && next
            < n_layer,
{
}

/// Settings of a loaded model.
#[derive(Debug)]
pub struct LLM {
    n_ubatch: u32,
}

/// What one prompt and its answer need: a context of a size, how much of it is used, and the
/// answer so far.
#[derive(Debug)]
pub struct LLMContext {
    ctx_size: i32,
    n_cur: i32,
    output: String,
}

/// A context with its text.
pub struct LLMContextView {
    pub ctx_size: int,
    pub n_cur: int,
    pub output: Seq<char>,
}

impl View for LLMContext {
    type V = LLMContextView;

    closed spec fn view(&self) -> LLMContextView {
        LLMContextView {
            ctx_size: self.ctx_size as int,
            n_cur: self.n_cur as int,
            output: self.output@,
        }
    }
}

/// The size of a context for a prompt of so many tokens.
pub open spec fn context_for_prompt(tokens: int) -> int {
    3 * tokens
}

/// The message that the chat template is applied to.
pub open spec fn message_text(system: Seq<char>, user: Seq<char>) -> Seq<char> {
    system + "\n\n"@ + user
}

/// The prompt, from what the chat template gave.
pub open spec fn prompt_to_run(
    applied: Option<Seq<char>>,
    system: Seq<char>,
    user: Seq<char>,
) -> Seq<char> {
    match applied {
        Some(prompt) => prompt,
        None => gemma_turn(system, user),
    }
}

/// A context after one more token, with its text.
pub open spec fn with_token(context: LLMContextView, piece: Seq<char>) -> LLMContextView {
    LLMContextView { n_cur: context.n_cur + 1, output: context.output + piece, ..context }
}

/// A context after a prompt of so many tokens.
pub open spec fn with_prompt(context: LLMContextView, tokens: int) -> LLMContextView {
    LLMContextView { n_cur: tokens, ..context }
}

/// Law: the first token of an answer comes right behind the prompt.
pub proof fn law_answer_follows_the_prompt(context: LLMContextView, tokens: Seq<i32>, token: i32)
    requires
        0 < tokens.len() <= i32::MAX,
    ensures
        next_entry(with_prompt(context, tokens.len() as int), token).pos == batch_of(
            tokens,
            0,
            tokens.len() as int,
        ).last().pos + 1,
        with_prompt(context, tokens.len() as int).output == context.output,
        with_prompt(context, tokens.len() as int).ctx_size == context.ctx_size,
{
}

/// The entry by which the next token is decoded.
pub open spec fn next_entry(context: LLMContextView, token: i32) -> BatchEntry {
    BatchEntry { token, pos: context.n_cur as i32, logits: true }
}

/// Law: a context has room for an answer of twice the length of the prompt.
pub proof fn law_context_leaves_room_for_the_answer(tokens: nat)
    ensures
        context_for_prompt(tokens as int) - tokens == 2 * tokens,
{
}

/// Law: the message begins with the instructions and ends with what the user asks, with an empty
/// line between them and nothing else.
pub proof fn law_message_holds_both_parts(system: Seq<char>, user: Seq<char>)
    ensures
        system.is_prefix_of(message_text(system, user)),
        ("\n\n"@ + user).is_suffix_of(message_text(system, user)),
        message_text(system, user).len() == system.len() + user.len() + 2,
{
    reveal_strlit("\n\n");
    let all = message_text(system, user);
    let end = "\n\n"@ + user;
    assert(system =~= all.subrange(0, system.len() as int));
    assert(end =~= all.subrange(all.len() - end.len(), all.len() as int));
}

/// Law: what the chat template gave is the prompt as it is, and only where it gave nothing the turn
/// format of Gemma takes its place.
pub proof fn law_applied_prompt_is_run(applied: Seq<char>, system: Seq<char>, user: Seq<char>)
    ensures
        prompt_to_run(Some(applied), system, user) == applied,
        ("<start_of_turn>user\n"@ + message_text(system, user)).is_prefix_of(
            prompt_to_run(None, system, user),
        ),
        "<start_of_turn>model\n"@.is_suffix_of(prompt_to_run(None, system, user)),
{
    reveal_strlit("<start_of_turn>model\n");
    reveal_strlit("<end_of_turn>\n<start_of_turn>model\n");
    let all = prompt_to_run(None, system, user);
    let head = "<start_of_turn>user\n"@ + message_text(system, user);
    let end = "<start_of_turn>model\n"@;
    assert(head =~= all.subrange(0, head.len() as int));
    assert(end =~= all.subrange(all.len() - end.len(), all.len() as int));
}

/// Law: tokens are decoded at positions one behind the other, with their scores wanted, and their
/// texts make up the output in that order.
pub proof fn law_tokens_follow_each_other(
    context: LLMContextView,
    first: i32,
    second: i32,
    piece: Seq<char>,
    other: Seq<char>,
)
    requires
        0 <= context.n_cur < i32::MAX,
    ensures
        ({
            let after = with_token(context, piece);
            &&& next_entry(context, first).token == first
            &&& next_entry(context, first).pos == context.n_cur
            &&& next_entry(after, second).pos == next_entry(context, first).pos + 1
            &&& next_entry(context, first).logits
            &&& with_token(after, other).output == context.output + piece + other
            &&& after.ctx_size == context.ctx_size
        }),
{
}

impl LLM {
    /// The physical batch size of its contexts.
    pub closed spec fn ubatch_size(&self) -> u32 {
        self.n_ubatch
    }

    /// Settings for a model, from the total VRAM of the primary GPU in MiB and the default
    /// physical batch size.
    pub fn new(use_gpu: bool, total_mib: Option<u64>, default_ubatch: u32) -> (r: Self)
        ensures
            r.ubatch_size() == ubatch(use_gpu, total_mib, default_ubatch),
    {
        LLM { n_ubatch: pick_n_ubatch(use_gpu, total_mib, default_ubatch) }
    }

    /// The physical batch size of its contexts.
    pub fn n_ubatch(&self) -> (r: u32)
        ensures
            r == self.ubatch_size(),
    {
        self.n_ubatch
    }

    /// A context of a size.
    pub fn create_context(&self, ctx_size: i32) -> (r: LLMContext)
        requires
            ctx_size != 0,
        ensures
            r@ == (LLMContextView {
                ctx_size: ctx_size as int,
                n_cur: 0,
                output: Seq::<char>::empty(),
            }),
    {
        let output = String::new();
        assert(output@ =~= Seq::<char>::empty());
        LLMContext { ctx_size, n_cur: 0, output }
    }

    /// The context size for a prompt of so many tokens.
    pub fn context_size(tokens: usize) -> (r: i32)
        requires
            3 * tokens <= i32::MAX,
        ensures
            r == context_for_prompt(tokens as int),
    {
        tokens as i32 * 3
    }

    /// The message that the chat template is applied to.
    pub fn message(system: &str, user: &str) -> (r: String)
        ensures
            r@ == message_text(system@, user@),
    {
        let mut r = system.to_owned();
        r.append("\n\n");
        r.append(user);
        r
    }

    /// The prompt: what the chat template gave, or else a prompt in the turn format of Gemma.
    pub fn run_prompt(applied: Option<String>, system: &str, user: &str) -> (r: String)
        ensures
            r@ == prompt_to_run(text::opt_view(applied), system@, user@),
    {
        match applied {
            Some(prompt) => prompt,
            None => {
                let mut r = "<start_of_turn>user\n".to_owned();
                r.append(system);
                r.append("\n\n");
                r.append(user);
                r.append("<end_of_turn>\n<start_of_turn>model\n");
                r
            },
        }
    }
}

/// The answer in an output that may begin with what the model thought, in one of two forms: as a
/// block with its end marked, or after a word that says so.
pub open spec fn without_thought(output: Seq<char>) -> Seq<char> {
    match first_match(output, "<channel|>"@) {
        Some(at) => output.skip(at + "<channel|>"@.len()),
        None => if "<|channel>thought"@.is_prefix_of(output) {
            without_leading(output.skip("<|channel>thought"@.len() as int), seq!['\n', ' '])
        } else {
            output
        },
    }
}

/// The answer in an output: without thought, end markers and surrounding white space.
pub open spec fn answered(output: Seq<char>) -> Seq<char> {
    trimmed(without_part(without_thought(output), "<end_of_turn>"@))
}

/// Extract the answer from an output that may begin with what the model thought.
fn strip_thought(output: &str) -> (r: &str)
    ensures
        r@ == without_thought(output@),
{
    proof {
        lemma_first_match(output@, "<channel|>"@);
    }
    match text::find(output, "<channel|>") {
        Some(at) => {
            let marker = "<channel|>".unicode_len();
            let end = output.unicode_len();
            let r = output.substring_char(at + marker, end);
            assert(r@ =~= output@.skip(at + marker));
            r
        },
        None => match text::strip_prefix(output, "<|channel>thought") {
            Some(rest) => {
                let set: [char; 2] = ['\n', ' '];
                assert(set@ =~= seq!['\n', ' ']);
                text::trim_leading(rest, &set)
            },
            None => output,
        },
    }
}

impl LLMContext {
    /// Begin with a prompt: make its batch, with scores wanted for the last token only. There is
    /// none where a size or a position is out of range.
    pub fn process(&mut self, tokens: &Vec<i32>) -> (r: Result<Vec<BatchEntry>, &'static str>)
        requires
            tokens.len() > 0,
        ensures
            match r {
                Ok(entries) => old(self)@.ctx_size >= 0 && fits(tokens.len() - 1) && fits(
                    tokens.len() as int,
                ) && entries@ == batch_of(tokens@, 0, tokens.len() as int) && final(self)@ == with_prompt(
                    old(self)@,
                    tokens.len() as int,
                ),
                Err(e) => (old(self)@.ctx_size < 0 || !fits(tokens.len() as int)) && e@
                    == POSITION_OVERFLOW@ && final(self)@ == old(self)@,
            },
    {
        if self.ctx_size < 0 || tokens.len() > i32::MAX as usize {
            return Err(POSITION_OVERFLOW);
        }
        match batch::tokens_batch(tokens, 0, tokens.len()) {
            Ok(entries) => {
                self.n_cur = tokens.len() as i32;
                Ok(entries)
            },
            Err(_) => Err(POSITION_OVERFLOW),
        }
    }

    /// Whether there is room for another token.
    pub fn has_room(&self) -> (r: bool)
        ensures
            r == (self@.n_cur <= self@.ctx_size),
    {
        self.n_cur <= self.ctx_size
    }

    /// Add a token with its text, and make the entry by which it is decoded.
    pub fn push(&mut self, token: i32, piece: &str) -> (r: BatchEntry)
        requires
            old(self)@.n_cur < i32::MAX,
        ensures
            r == next_entry(old(self)@, token),
            final(self)@ == with_token(old(self)@, piece@),
    {
        let entry = BatchEntry { token, pos: self.n_cur, logits: true };
        self.output.append(piece);
        self.n_cur = self.n_cur + 1;
        entry
    }

    /// The answer, unless the model had nothing to say.
    pub fn finish(&self) -> (r: Result<String, &'static str>)
        ensures
            match r {
                Ok(answer) => answer@ == answered(self@.output) && answer@.len() > 0,
                Err(e) => answered(self@.output).len() == 0 && e@ == EMPTY_OUTPUT@,
            },
    {
        let output = strip_thought(self.output.as_str());
        let output = text::remove_part(output, "<end_of_turn>");
        let output = text::trim(output.as_str());
        if output.unicode_len() == 0 {
            Err(EMPTY_OUTPUT)
        } else {
            Ok(output.to_owned())
        }
    }
}

/// Law: what stands behind the first marker that closes the thoughts is the answer; where nothing
/// closes them, what follows the marker that opens them, behind line feeds and spaces; and without
/// markers all of it.
pub proof fn law_thought_is_left_out(thought: Seq<char>, answer: Seq<char>, space: Seq<char>)
    ensures
        first_match(thought + "<channel|>"@ + answer, "<channel|>"@) == Some(thought.len() as int)
            ==> without_thought(thought + "<channel|>"@ + answer) == answer,
        first_match("<|channel>thought"@ + space + answer, "<channel|>"@) is None && (forall|i: int|
            0 <= i < space.len() ==> (#[trigger] space[i] == '\n' || space[i] == ' '))
            && answer.len() > 0 && answer[0] != '\n' && answer[0] != ' ' ==> without_thought(
            "<|channel>thought"@ + space + answer,
        ) == answer,
        first_match(answer, "<channel|>"@) is None && !"<|channel>thought"@.is_prefix_of(answer)
            ==> without_thought(answer) == answer,
{
    let closed = thought + "<channel|>"@ + answer;
    assert(closed.skip(thought.len() as int + "<channel|>"@.len()) =~= answer);
    let open = "<|channel>thought"@;
    let all = open + space + answer;
    assert(open =~= all.subrange(0, open.len() as int));
    assert(all.skip(open.len() as int) =~= space + answer);
    if (forall|i: int| 0 <= i < space.len() ==> (#[trigger] space[i] == '\n' || space[i] == ' '))
        && answer.len() > 0 && answer[0] != '\n' && answer[0] != ' ' {
        lemma_leading_space(space, answer);
        let set = seq!['\n', ' '];
        assert(!set.contains(answer[0]));
    }
}

/// Law: an answer without markers is told as it is, but for white space around it; and the marker
/// that ends a turn goes wherever it stands.
pub proof fn law_answer_is_what_the_model_said(before: Seq<char>, after: Seq<char>)
    requires
        first_match(before + "<end_of_turn>"@ + after, "<channel|>"@) is None,
        !"<|channel>thought"@.is_prefix_of(before + "<end_of_turn>"@ + after),
        first_match(before + "<end_of_turn>"@ + after, "<end_of_turn>"@) == Some(
            before.len() as int,
        ),
    ensures
        answered(before + "<end_of_turn>"@ + after) == trimmed(
            before + text::without_part(after, "<end_of_turn>"@),
        ),
        !text::has_part(after, "<end_of_turn>"@) ==> answered(before + "<end_of_turn>"@ + after)
            == trimmed(before + after),
{
    reveal_strlit("<end_of_turn>");
    let whole = before + "<end_of_turn>"@ + after;
    text::law_removing_takes_out_each_occurrence(whole, "<end_of_turn>"@);
    text::law_removing_takes_out_each_occurrence(after, "<end_of_turn>"@);
    lemma_first_match(after, "<end_of_turn>"@);
    assert(whole.take(before.len() as int) =~= before);
    assert(whole.skip(before.len() as int + "<end_of_turn>"@.len()) =~= after);
}

/// Law: an answer has no white space around it.
pub proof fn law_answer_is_trimmed(output: Seq<char>)
    ensures
        is_trimmed(answered(output)),
{
    lemma_trimmed(without_part(without_thought(output), "<end_of_turn>"@));
}

} // verus!
