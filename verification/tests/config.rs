use ltengine::config::{healthcheck, log_filter, worker_count, Args, READY_REQUEST};
use ltengine::loader::{GpuLayers, KvCacheType};

#[test]
fn defaults_are_documented_ones() {
    let config = Args::default().engine_config();
    assert_eq!(config.model, "translategemma-4b");
    assert_eq!(config.model_file, "");
    assert_eq!(config.load.gpu_layers, GpuLayers::Auto);
    assert_eq!(config.load.ctx_size, 4096);
    assert_eq!(config.load.batch_size, 512);
    assert_eq!(config.load.kv_cache_type, KvCacheType::F16);
    assert_eq!(config.load.flash_attn, None);
    assert_eq!(config.max_new_tokens, 2048);
    assert_eq!(config.queue_size, 16);
    assert_eq!(config.queue_timeout, 60);
}

#[test]
fn settings_reach_the_engine() {
    let mut args = Args::default();
    args.kv_cache_type = "q8_0".to_owned();
    args.flash_attn = "on".to_owned();
    args.max_new_tokens = 0;
    args.vram_margin = Some(300);
    let config = args.engine_config();
    assert_eq!(config.load.kv_cache_type, KvCacheType::Q8_0);
    assert_eq!(config.load.flash_attn, Some(true));
    assert_eq!(config.load.vram_margin_mib, Some(300));
    assert_eq!(config.max_new_tokens, 1);
    args.flash_attn = "off".to_owned();
    assert_eq!(args.engine_config().load.flash_attn, Some(false));
}

#[test]
fn a_few_workers_serve() {
    assert_eq!(worker_count(None), 2);
    assert_eq!(worker_count(Some(1)), 2);
    assert_eq!(worker_count(Some(3)), 3);
    assert_eq!(worker_count(Some(64)), 4);
}

#[test]
fn healthcheck_wants_success() {
    assert_eq!(healthcheck(Some("HTTP/1.1 200 OK\r\n")), 0);
    assert_eq!(healthcheck(Some("HTTP/1.0 200 OK\r\n")), 0);
    assert_eq!(healthcheck(Some("HTTP/1.1 503 Service Unavailable\r\n")), 1);
    assert_eq!(healthcheck(None), 1);
    assert!(READY_REQUEST.starts_with("GET /health/ready HTTP/1.0\r\n"));
}

#[test]
fn verbosity_sets_the_log_filter() {
    assert_eq!(log_filter(false), "info,llama_cpp_2=warn");
    assert_eq!(log_filter(true), "debug,llama_cpp_2=info");
}
