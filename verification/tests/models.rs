use std::path::Path;

use ltengine::models::{
    find_model, is_stale_download, model_names, ModelError, ModelSource, DEFAULT_MODEL,
};

fn load_model(model_id: &str, model_file: &str) -> Result<ModelSource, ModelError> {
    let path = Path::new(model_file);
    let extension = path.extension().and_then(|ext| ext.to_str());
    ltengine::models::load_model(model_id, model_file, path.is_file(), extension)
}

#[test]
fn unknown_remote_model_is_an_error_instead_of_a_panic() {
    assert!(load_model("missing", "").is_err());
}

#[test]
fn local_model_must_be_a_gguf_file() {
    assert!(load_model(DEFAULT_MODEL, "/nonexistent/model.gguf").is_err());
    assert!(load_model(DEFAULT_MODEL, "/").is_err());
}

#[test]
fn default_model_exists() {
    assert!(find_model(DEFAULT_MODEL).is_some());
}

#[test]
fn models_are_found_by_name() {
    let names = model_names();
    assert_eq!(names.len(), 8);
    assert!(names.windows(2).all(|w| w[0] < w[1]));
    for name in names {
        assert!(find_model(name).is_some());
    }
    let hf = find_model("gemma4-e4b").unwrap();
    assert_eq!(hf.repo, "bartowski/google_gemma-4-E4B-it-GGUF");
    assert_eq!(hf.model, "google_gemma-4-E4B-it-Q4_0.gguf");
    assert_eq!(
        find_model(DEFAULT_MODEL).unwrap().model,
        "translategemma-4b-it.Q5_K_M.gguf"
    );
}

#[test]
fn model_errors_name_the_model() {
    assert_eq!(load_model("missing", "").unwrap_err().message(), "unknown model: missing");
    assert_eq!(
        load_model("missing", "/").unwrap_err().message(),
        "invalid path or not a .gguf file: /"
    );
    let local = ltengine::models::load_model("missing", "m.gguf", true, Some("gguf"));
    assert!(matches!(local, Ok(ModelSource::Local(path)) if path == "m.gguf"));
    assert!(ltengine::models::load_model("missing", "m.bin", true, Some("bin")).is_err());
    assert!(ltengine::models::load_model("missing", "m", true, None).is_err());
    assert!(matches!(load_model("gemma3-1b", ""), Ok(ModelSource::Download(_))));
}

#[test]
fn old_leftovers_are_stale() {
    assert!(is_stale_download(Some(600_000_000_001)));
    assert!(!is_stale_download(Some(600_000_000_000)));
    assert!(!is_stale_download(None));
}
