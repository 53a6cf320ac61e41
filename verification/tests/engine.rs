use ltengine::engine::{
    after_failure, failure_message, first_layers, inference_panicked, log_ready, settle_job,
    take_job, AfterFailure, CancelOnDrop, Engine, EngineError, Generated, Intake, LoadFailure,
    ModelInfo, SendFailure,
};
use ltengine::loader::{fixed_offload, GpuLayers, Plan};
use ltengine::metrics::Metrics;
use ltengine::prompt::PromptFormat;

fn gpu_plan() -> Plan {
    Plan {
        use_gpu: true,
        n_ctx: 4096,
        n_batch: 512,
        n_ubatch: 128,
        threads: 4,
        gpu_total_mib: 4000,
    }
}

#[test]
fn dropping_cancel_guard_sets_flag() {
    let guard = CancelOnDrop::new();
    let flag = guard.on_drop(false);
    assert!(flag);

    let mut guard = CancelOnDrop::new();
    guard.disarm();
    let flag = guard.on_drop(false);
    assert!(!flag);
}

#[test]
fn busy_errors_mention_server_busy() {
    // The Matrix bot keys its retry classification on this phrase.
    assert!(EngineError::QueueFull.message().contains("Server busy"));
    assert!(
        EngineError::QueueTimeout
            .message()
            .contains("Server busy")
    );
}

#[test]
fn errors_have_status_and_message() {
    let cases = [
        (EngineError::Loading, 503, "Model is loading, please try again later"),
        (
            EngineError::Unavailable("gone".to_owned()),
            503,
            "Translation engine unavailable: gone",
        ),
        (EngineError::QueueFull, 503, "Server busy, please try again later"),
        (
            EngineError::QueueTimeout,
            503,
            "Server busy, please try again later (queue timeout)",
        ),
        (EngineError::Cancelled, 499, "Request cancelled"),
        (EngineError::UnsupportedLanguage("no xx".to_owned()), 400, "no xx"),
        (
            EngineError::InputTooLong { tokens: 5000, n_ctx: 4096 },
            400,
            "Input too long: 5000 prompt tokens, context size is 4096",
        ),
        (
            EngineError::OutputLimit(35),
            422,
            "Translation exceeded the output limit of 35 tokens",
        ),
        (EngineError::EmptyOutput, 422, "Model produced an empty translation"),
        (EngineError::Internal("secret".to_owned()), 500, "Translation failed"),
    ];
    for (error, status, message) in cases {
        assert_eq!(error.status(), status);
        assert_eq!(error.message(), message);
    }
}

#[test]
fn engine_tells_its_state() {
    let mut metrics = Metrics::default();
    let mut engine = Engine::start();
    assert_eq!(engine.state(), "loading");
    assert!(matches!(engine.model(), Err(EngineError::Loading)));
    assert!(matches!(engine.enter(&mut metrics), Err(EngineError::Loading)));
    assert_eq!(metrics.queued, 0);

    engine.ready(ModelInfo::describe(Some("gemma4"), None, 4096), &mut metrics);
    assert_eq!(engine.state(), "ready");
    assert!(metrics.model_loaded);
    assert_eq!(engine.model().unwrap().n_ctx, 4096);
    assert!(matches!(
        engine.model().unwrap().prompt,
        PromptFormat::Chat { gemma_fallback: true }
    ));
    assert!(engine.enter(&mut metrics).is_ok());
    assert_eq!(metrics.queued, 1);

    engine.failed("broken".to_owned(), &mut metrics);
    assert_eq!(engine.state(), "failed");
    assert!(!metrics.model_loaded);
    match engine.model() {
        Err(EngineError::Unavailable(reason)) => assert_eq!(reason, "broken"),
        other => panic!("{other:?}"),
    }
}

#[test]
fn full_queue_turns_away() {
    let mut metrics = Metrics::default();
    metrics.queued = 3;
    assert!(matches!(
        Engine::turn_away(&mut metrics, SendFailure::Full),
        EngineError::QueueFull
    ));
    assert_eq!(metrics.queued, 2);
    assert_eq!(
        Engine::turn_away(&mut metrics, SendFailure::Disconnected).message(),
        "Translation engine unavailable: inference worker stopped"
    );
    assert_eq!(metrics.queued, 1);
    assert_eq!(
        Engine::unanswered().message(),
        "Translation engine unavailable: inference worker stopped"
    );
}

#[test]
fn stale_and_abandoned_jobs_are_not_run() {
    let mut metrics = Metrics::default();
    metrics.queued = 4;
    let second: u128 = 1_000_000_000;
    assert!(matches!(
        take_job(&mut metrics, true, false, 0, 60),
        Intake::Reject(EngineError::Cancelled)
    ));
    assert!(matches!(
        take_job(&mut metrics, false, true, 100 * second, 60),
        Intake::Reject(EngineError::Cancelled)
    ));
    assert_eq!(metrics.cancelled, 2);
    assert!(matches!(
        take_job(&mut metrics, false, false, 60 * second + 1, 60),
        Intake::Reject(EngineError::QueueTimeout)
    ));
    assert_eq!(metrics.active, 0);
    assert!(matches!(take_job(&mut metrics, false, false, 60 * second, 60), Intake::Run));
    assert_eq!(metrics.active, 1);
    assert_eq!(metrics.queued, 0);
    assert_eq!(metrics.queue_duration.count, 4);
}

#[test]
fn settled_jobs_are_answered() {
    let mut metrics = Metrics::default();
    metrics.active = 2;
    let generated = Generated { text: "Hallo".to_owned(), input_tokens: 9, output_tokens: 2 };
    let output = settle_job(&mut metrics, Ok(generated), 5, 7).unwrap();
    assert_eq!(output.text, "Hallo");
    assert_eq!((output.input_tokens, output.output_tokens), (9, 2));
    assert_eq!((output.queue_time, output.inference_time), (5, 7));
    assert_eq!(metrics.active, 1);
    assert!(settle_job(&mut metrics, Err(EngineError::Cancelled), 5, 7).is_err());
    assert_eq!(metrics.active, 0);
    assert_eq!(metrics.cancelled, 1);
    assert_eq!(metrics.inference_duration.count, 2);
    assert_eq!(inference_panicked().status(), 500);
}

#[test]
fn loading_is_retried_with_fewer_layers() {
    let plan = gpu_plan();
    assert_eq!(first_layers(true, GpuLayers::Auto), None);
    assert_eq!(first_layers(true, GpuLayers::Count(7)), Some(7));
    assert_eq!(first_layers(false, GpuLayers::Count(7)), Some(0));
    assert_eq!(
        after_failure(&plan, false, 34, 1, None, LoadFailure::Model),
        AfterFailure::Retry(31)
    );
    assert_eq!(
        after_failure(&plan, false, 34, 1, None, LoadFailure::Context(fixed_offload(20))),
        AfterFailure::Retry(18)
    );
    assert_eq!(
        after_failure(&plan, false, 34, 5, Some(1), LoadFailure::Model),
        AfterFailure::DoesNotFit
    );
    assert_eq!(
        after_failure(&plan, true, 34, 5, Some(1), LoadFailure::Model),
        AfterFailure::Retry(0)
    );
    assert_eq!(
        after_failure(&plan, true, 34, 5, Some(0), LoadFailure::Model),
        AfterFailure::DoesNotFit
    );
    assert_eq!(
        after_failure(&plan, false, 34, 24, None, LoadFailure::Model),
        AfterFailure::GiveUp
    );
    let mut cpu = gpu_plan();
    cpu.use_gpu = false;
    assert_eq!(
        after_failure(&cpu, true, 34, 1, Some(0), LoadFailure::Model),
        AfterFailure::Fail
    );
}

#[test]
fn load_failures_are_told() {
    assert_eq!(failure_message(AfterFailure::Fail, "oom"), "oom");
    assert_eq!(
        failure_message(AfterFailure::DoesNotFit, "oom"),
        "model does not fit on the GPU even with minimal offload: oom"
    );
    assert_eq!(
        failure_message(AfterFailure::GiveUp, "oom"),
        "giving up after 24 attempts to load the model"
    );
    assert_eq!(
        failure_message(AfterFailure::Retry(31), "oom"),
        "GPU allocation failed (oom); retrying with 31 GPU layers"
    );
}

#[test]
fn readiness_is_logged() {
    let plan = gpu_plan();
    let lines = log_ready(&plan, 34, 35, 0, Some((3800, 3903)), Some((600, 3903)));
    assert_eq!(lines.len(), 2);
    assert_eq!(lines[0].text, "GPU offload: all 35 layers on the GPU");
    assert!(!lines[0].warning);
    assert_eq!(lines[1].text, "VRAM: 3200 MiB used by LTEngine, 600 MiB of 3903 MiB free");
    let lines = log_ready(&plan, 34, 20, 3, None, Some((600, 3903)));
    assert_eq!(lines.len(), 1);
    assert!(lines[0].warning);
    assert!(lines[0].text.starts_with(
        "GPU offload: 20/35 layers on the GPU (3 tensor groups kept in RAM); translations will be slower."
    ));
    let mut cpu = gpu_plan();
    cpu.use_gpu = false;
    let lines = log_ready(&cpu, 34, 0, 0, None, None);
    assert_eq!(lines[0].text, "running on the CPU");
}

#[test]
fn every_job_is_answered_in_turn() {
    let mut metrics = Metrics::default();
    metrics.queued = 5;
    let second: u128 = 1_000_000_000;
    // Cancelled, waited for so many seconds, and what running it gives.
    let jobs = [
        (false, 1, Ok("one")),
        (true, 1, Ok("never run")),
        (false, 61, Ok("never run")),
        (false, 2, Err(inference_panicked())),
        (false, 3, Ok("last")),
    ];
    let mut run = 0;
    let mut answers = Vec::new();
    for (cancelled, waited, generated) in jobs {
        let answer = match take_job(&mut metrics, cancelled, false, waited * second, 60) {
            Intake::Reject(e) => Err(e),
            Intake::Run => {
                run += 1;
                let generated = generated.map(|text: &str| Generated {
                    text: text.to_owned(),
                    input_tokens: 1,
                    output_tokens: 1,
                });
                settle_job(&mut metrics, generated, waited * second, second)
            }
        };
        answers.push(answer.map(|output| output.text).map_err(|e| e.message()));
    }
    assert_eq!(run, 3);
    assert_eq!(
        answers,
        vec![
            Ok("one".to_owned()),
            Err("Request cancelled".to_owned()),
            Err("Server busy, please try again later (queue timeout)".to_owned()),
            Err("Translation failed".to_owned()),
            Ok("last".to_owned()),
        ]
    );
    assert_eq!((metrics.active, metrics.queued), (0, 0));
}
