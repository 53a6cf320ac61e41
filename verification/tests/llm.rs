use ltengine::llm::{
    after_load_failure, after_probe_failure, gpu_layers, pick_n_ubatch, placement_line, LLMError,
    ALL_LAYERS, LLM,
};

#[test]
fn small_cards_get_a_small_batch() {
    assert_eq!(pick_n_ubatch(true, Some(4000), 512), 128);
    assert_eq!(pick_n_ubatch(true, Some(6143), 512), 128);
    assert_eq!(pick_n_ubatch(true, Some(6144), 512), 512);
    assert_eq!(pick_n_ubatch(true, None, 512), 512);
    assert_eq!(pick_n_ubatch(false, Some(4000), 512), 512);
    assert_eq!(LLM::new(true, Some(4000), 512).n_ubatch(), 128);
}

#[test]
fn failed_loads_are_halved() {
    let mut tried = Vec::new();
    let mut layers = ALL_LAYERS;
    let error = loop {
        match after_load_failure(layers) {
            Ok(next) => {
                tried.push(next);
                layers = next;
            }
            Err(error) => break error,
        }
    };
    assert_eq!(tried, vec![64, 32, 16, 8, 4, 2, 1]);
    assert_eq!(error, "Unable to load model even with 0 GPU layers");
}

#[test]
fn failed_probes_shrink_by_a_tenth() {
    assert_eq!(after_probe_failure(9999, 34), Ok(31));
    assert_eq!(after_probe_failure(31, 34), Ok(28));
    assert_eq!(after_probe_failure(5, 34), Ok(4));
    assert_eq!(after_probe_failure(1, 34), Err("GPU inference failed even with 0 layers"));
    assert_eq!(after_probe_failure(0, 34), Err("GPU inference failed even with 0 layers"));
}

#[test]
fn placement_is_told() {
    assert_eq!(gpu_layers(true, 9999, 34), None);
    assert_eq!(gpu_layers(true, 20, 34), Some(20));
    assert_eq!(gpu_layers(false, 0, 34), None);
    assert_eq!(placement_line(false, None, 34), "ltengine: 34 model layers, CPU only");
    assert_eq!(
        placement_line(true, None, 34),
        "ltengine: 34 model layers, all offloaded to GPU"
    );
    assert_eq!(
        placement_line(true, Some(20), 34),
        "ltengine: 20/34 model layers on GPU, rest on CPU"
    );
    assert_eq!(LLMError::Busy.message(), "Server busy, please try again later");
}

#[test]
fn prompt_falls_back_to_gemma_turns() {
    assert_eq!(LLM::message("sys", "usr"), "sys\n\nusr");
    assert_eq!(LLM::run_prompt(Some("done".to_owned()), "sys", "usr"), "done");
    assert_eq!(
        LLM::run_prompt(None, "sys", "usr"),
        "<start_of_turn>user\nsys\n\nusr<end_of_turn>\n<start_of_turn>model\n"
    );
    assert_eq!(LLM::context_size(5), 15);
}

fn answer(pieces: &[&str]) -> Result<String, &'static str> {
    let llm = LLM::new(false, None, 512);
    let mut context = llm.create_context(6);
    let batch = context.process(&vec![4, 5]).unwrap();
    assert_eq!(batch.len(), 2);
    assert!(!batch[0].logits && batch[1].logits);
    for piece in pieces {
        assert!(context.has_room());
        let entry = context.push(9, piece);
        assert_eq!(entry.token, 9);
    }
    context.finish()
}

#[test]
fn answers_are_freed_of_thought_and_markers() {
    assert_eq!(answer(&[" Hal", "lo "]), Ok("Hallo".to_owned()));
    assert_eq!(answer(&["thinking<channel|> answer"]), Ok("answer".to_owned()));
    assert_eq!(answer(&["<|channel>thought\n", " answer"]), Ok("answer".to_owned()));
    assert_eq!(answer(&["a<end_of_turn>b", "<end_of_turn>"]), Ok("ab".to_owned()));
    assert_eq!(answer(&["<end_of_turn>\n"]), Err("Model produced empty output"));
}

#[test]
fn context_is_filled_one_token_past_its_size() {
    let llm = LLM::new(false, None, 512);
    let mut context = llm.create_context(3);
    context.process(&vec![4]).unwrap();
    let mut positions = Vec::new();
    while context.has_room() {
        positions.push(context.push(9, "x").pos);
    }
    assert_eq!(positions, vec![1, 2, 3]);
    assert!(llm.create_context(-1).process(&vec![4]).is_err());
}
