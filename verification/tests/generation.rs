use ltengine::batch::BatchEntry;
use ltengine::engine::{EngineError, ModelInfo, Request};
use ltengine::generation::{
    check_cancelled, finish_prompt, output_budget, prompt_batch, render_prompt, Generation,
    PromptStep, Sampled,
};
use ltengine::languages::get_language_from_code;
use ltengine::metrics::Metrics;
use ltengine::prompt::{PromptFormat, TranslateGemma};

fn info() -> ModelInfo {
    ModelInfo { prompt: PromptFormat::Chat { gemma_fallback: false }, n_ctx: 4096 }
}

fn request(source: Option<&str>) -> Request {
    Request {
        source: source.map(|code| get_language_from_code(code).unwrap()),
        target: get_language_from_code("en").unwrap(),
        format: "text".to_owned(),
        text: "Hallo".to_owned(),
    }
}

#[test]
fn output_budget_scales_with_input_and_is_capped() {
    assert_eq!(output_budget(1, 2048), 35);
    assert_eq!(output_budget(100, 2048), 332);
    assert_eq!(output_budget(5000, 2048), 2048);
}

#[test]
fn output_budget_bears_any_input() {
    assert_eq!(output_budget(0, 2048), 32);
    assert_eq!(output_budget(0, 0), 0);
    assert_eq!(output_budget(usize::MAX, 7), 7);
    assert_eq!(output_budget(u32::MAX as usize, u32::MAX), u32::MAX as usize);
}

#[test]
fn prompt_has_to_leave_room() {
    let info = info();
    let g = Generation::begin(4000, Some(88), 4096, &info, 2048).unwrap();
    assert_eq!(g.max_new(), 96);
    match Generation::begin(4000, Some(89), 4096, &info, 2048) {
        Err(EngineError::InputTooLong { tokens, n_ctx }) => {
            assert_eq!((tokens, n_ctx), (4000, 4096));
        }
        other => panic!("{other:?}"),
    }
    assert!(Generation::begin(5000, Some(0), 4096, &info, 2048).is_err());
    assert!(Generation::begin(10, Some(usize::MAX), 4096, &info, 2048).is_err());
    let g = Generation::begin(100, None, 4096, &info, 2048).unwrap();
    assert_eq!(g.max_new(), 332);
    assert!(matches!(
        Generation::begin(0, Some(5), 12, &info, 2048),
        Err(EngineError::InputTooLong { tokens: 0, n_ctx: 4096 })
    ));
}

#[test]
fn tokens_are_generated_up_to_the_limit() {
    let mut metrics = Metrics::default();
    let mut g = Generation::begin(10, Some(5), 4096, &info(), 2).unwrap();
    assert!(matches!(g.sampled(false), Ok(Sampled::Accept)));
    assert_eq!(
        g.push(7, " Hel").unwrap(),
        BatchEntry { token: 7, pos: 10, logits: true }
    );
    assert_eq!(
        g.push(8, "lo<end_of_turn>").unwrap(),
        BatchEntry { token: 8, pos: 11, logits: true }
    );
    assert!(matches!(g.sampled(false), Err(EngineError::OutputLimit(2))));
    assert!(matches!(g.push(9, "x"), Err(EngineError::OutputLimit(2))));
    assert!(matches!(g.sampled(true), Ok(Sampled::End)));
    let generated = g.finish(&mut metrics).unwrap();
    assert_eq!(generated.text, "Hello");
    assert_eq!((generated.input_tokens, generated.output_tokens), (10, 2));
    assert_eq!((metrics.input_tokens, metrics.output_tokens), (10, 2));
}

#[test]
fn nothing_is_an_error() {
    let mut metrics = Metrics::default();
    let g = Generation::begin(10, Some(5), 4096, &info(), 2).unwrap();
    assert!(matches!(g.finish(&mut metrics), Err(EngineError::EmptyOutput)));
    assert_eq!(metrics.input_tokens, 10);
}

#[test]
fn cancelled_generation_stops() {
    assert!(check_cancelled(false).is_ok());
    assert!(matches!(check_cancelled(true), Err(EngineError::Cancelled)));
}

#[test]
fn prompt_is_submitted_batch_by_batch() {
    let tokens = vec![1, 2, 3, 4, 5];
    let mut from = 0;
    let mut all = Vec::new();
    let mut sizes = Vec::new();
    while from < tokens.len() {
        let (batch, next) = prompt_batch(&tokens, 2, from).unwrap();
        sizes.push(batch.len());
        all.extend(batch);
        from = next;
    }
    assert_eq!(sizes, vec![2, 2, 1]);
    for (pos, entry) in all.iter().enumerate() {
        assert_eq!(entry.token, tokens[pos]);
        assert_eq!(entry.pos, pos as i32);
        assert_eq!(entry.logits, pos == 4);
    }
}

#[test]
fn native_prompt_needs_a_source() {
    let format = PromptFormat::TranslateGemma(Box::new(TranslateGemma::builtin()));
    match render_prompt(&format, &request(Some("de"))) {
        Ok(PromptStep::Ready(prompt)) => {
            assert!(prompt.contains("professional German (de) to English (en) translator"));
        }
        other => panic!("{other:?}"),
    }
    match render_prompt(&format, &request(None)) {
        Err(EngineError::UnsupportedLanguage(reason)) => {
            assert_eq!(reason, "source language is required");
        }
        other => panic!("{other:?}"),
    }
}

#[test]
fn chat_prompt_is_put_through_the_template() {
    let format = PromptFormat::Chat { gemma_fallback: true };
    let (chat, message, gemma) = match render_prompt(&format, &request(None)) {
        Ok(PromptStep::Apply { chat, message, gemma_fallback }) => (chat, message, gemma_fallback),
        other => panic!("{other:?}"),
    };
    assert!(gemma);
    assert_eq!(message, format!("{}\n\n{}", chat.system, chat.user));
    assert_eq!(finish_prompt(&chat, true, Ok("done".to_owned())).unwrap(), "done");
    assert!(finish_prompt(&chat, true, Err("bad".to_owned()))
        .unwrap()
        .starts_with("<start_of_turn>user\n"));
    match finish_prompt(&chat, false, Err("bad".to_owned())) {
        Err(EngineError::Internal(reason)) => {
            assert_eq!(reason, "unable to apply the chat template: bad");
        }
        other => panic!("{other:?}"),
    }
}

/// Run a translation over tokens: `None` ends the text, `Some` belongs to it.
fn run(max_new: u32, tokens: &[Option<&str>]) -> Option<Result<(String, usize), EngineError>> {
    let mut metrics = Metrics::default();
    let mut g = Generation::begin(10, Some(5), 4096, &info(), max_new).unwrap();
    for token in tokens {
        match g.sampled(token.is_none()) {
            Err(e) => return Some(Err(e)),
            Ok(Sampled::End) => {
                let generated = g.finish(&mut metrics);
                return Some(generated.map(|g| (g.text, g.output_tokens)));
            }
            Ok(Sampled::Accept) => {
                g.push(1, token.unwrap()).unwrap();
            }
        }
    }
    None
}

#[test]
fn run_ends_with_the_text_or_at_the_limit() {
    let hello = [Some(" Hel"), Some("lo"), None];
    assert!(matches!(run(2, &hello), Some(Ok((text, 2))) if text == "Hello"));
    assert!(matches!(run(3, &hello), Some(Ok((text, 2))) if text == "Hello"));
    assert!(matches!(run(1, &hello), Some(Err(EngineError::OutputLimit(1)))));
    assert!(matches!(run(0, &hello), Some(Err(EngineError::OutputLimit(0)))));
    assert!(matches!(run(0, &[None]), Some(Err(EngineError::EmptyOutput))));
    assert!(matches!(
        run(2, &[Some(" "), Some("<end_of_turn>"), None]),
        Some(Err(EngineError::EmptyOutput))
    ));
    assert!(run(2, &hello[..2]).is_none());
    assert!(run(2, &[]).is_none());
}
