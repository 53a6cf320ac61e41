use ltengine::batch::{entry, tokens_batch, BatchEntry};
use ltengine::loader::{
    context_params, file_type_name, fitted_offload, fixed_offload, gpu_devices, layers_on_gpu,
    placement, plan, reduce_layers, vram_mib, warmup_prompt, warmup_step, Device, DeviceKind,
    GpuLayers, KvCacheType, LoadConfig, Placement, Plan, PlanError, MIB,
};

fn config() -> LoadConfig {
    LoadConfig {
        cpu: false,
        allow_cpu_fallback: false,
        gpu_layers: GpuLayers::Auto,
        vram_margin_mib: None,
        ctx_size: 4096,
        batch_size: 512,
        ubatch_size: None,
        threads: None,
        kv_cache_type: KvCacheType::F16,
        flash_attn: None,
    }
}

fn gpu(total_mib: usize) -> Device {
    Device {
        kind: DeviceKind::Gpu,
        memory_free: (total_mib - 100) * MIB,
        memory_total: total_mib * MIB,
    }
}

#[test]
fn gpu_layers_parse() {
    assert_eq!("auto".parse::<GpuLayers>().unwrap(), GpuLayers::Auto);
    assert_eq!(
        "all".parse::<GpuLayers>().unwrap(),
        GpuLayers::Count(u32::MAX)
    );
    assert_eq!("20".parse::<GpuLayers>().unwrap(), GpuLayers::Count(20));
    assert!("many".parse::<GpuLayers>().is_err());
}

#[test]
fn gpu_layers_ignore_case_and_white_space() {
    assert_eq!(GpuLayers::parse(" AUTO\n"), Ok(GpuLayers::Auto));
    assert_eq!(GpuLayers::parse(""), Ok(GpuLayers::Auto));
    assert_eq!(
        GpuLayers::parse("-1"),
        Err("expected 'auto', 'all' or a number, got '-1'".to_owned())
    );
}

#[test]
fn layer_reduction_converges_to_zero() {
    let mut layers = None;
    let mut steps = 0;
    while let Some(next) = reduce_layers(layers, 34) {
        assert!(layers.is_none_or(|l| next < l));
        layers = Some(next);
        steps += 1;
    }
    assert_eq!(layers, Some(0));
    assert!(steps < 40);
}

#[test]
fn small_gpus_get_small_batches() {
    let p = plan(&config(), true, &vec![gpu(3903)], true, Some(12)).unwrap();
    assert!(p.use_gpu);
    assert_eq!(p.n_ctx, 4096);
    assert_eq!(p.n_batch, 512);
    assert_eq!(p.n_ubatch, 128);
    assert_eq!(p.threads, 8);
    assert_eq!(p.gpu_total_mib, 3903);
    let p = plan(&config(), true, &vec![gpu(24000), gpu(8000)], true, None).unwrap();
    assert_eq!(p.n_ubatch, 512);
    assert_eq!(p.threads, 4);
    assert_eq!(p.gpu_total_mib, 8000);
}

#[test]
fn there_is_no_silent_cpu_fallback() {
    let mut cfg = config();
    assert_eq!(
        plan(&cfg, true, &vec![], true, None).unwrap_err(),
        PlanError::NoUsableGpu
    );
    assert!(plan(&cfg, true, &vec![gpu(4000)], false, None).is_err());
    assert!(PlanError::NoUsableGpu.message().starts_with("no usable GPU found"));
    cfg.allow_cpu_fallback = true;
    assert!(!plan(&cfg, true, &vec![], true, None).unwrap().use_gpu);
    cfg.allow_cpu_fallback = false;
    cfg.cpu = true;
    assert!(!plan(&cfg, true, &vec![gpu(4000)], true, None).unwrap().use_gpu);
    cfg.cpu = false;
    assert!(!plan(&cfg, false, &vec![gpu(4000)], true, None).unwrap().use_gpu);
}

#[test]
fn planned_sizes_nest() {
    let mut cfg = config();
    cfg.ctx_size = 10;
    cfg.batch_size = 1_000_000;
    cfg.ubatch_size = Some(5000);
    cfg.threads = Some(3);
    let p = plan(&cfg, false, &vec![], false, None).unwrap();
    assert_eq!((p.n_ctx, p.n_batch, p.n_ubatch, p.threads), (64, 64, 64, 3));
}

#[test]
fn only_gpus_count_as_vram() {
    let cpu = Device { kind: DeviceKind::Cpu, memory_free: MIB, memory_total: MIB };
    let shared = Device { kind: DeviceKind::IntegratedGpu, ..gpu(300) };
    let gpus = gpu_devices(&vec![cpu, gpu(1000), shared]);
    assert_eq!(gpus, vec![gpu(1000), shared]);
    assert_eq!(vram_mib(&gpus), Some((1100, 1300)));
    assert_eq!(vram_mib(&vec![]), None);
}

#[test]
fn placement_leaves_a_margin() {
    let mut p = Plan {
        use_gpu: true,
        n_ctx: 4096,
        n_batch: 512,
        n_ubatch: 128,
        threads: 4,
        gpu_total_mib: 3903,
    };
    match placement(&config(), &p, None, 2) {
        Placement::Fit(margins) => assert_eq!(margins, vec![512 * MIB, 512 * MIB]),
        other => panic!("{other:?}"),
    }
    p.gpu_total_mib = 8192;
    match placement(&config(), &p, None, 0) {
        Placement::Fit(margins) => assert_eq!(margins, vec![1024 * MIB]),
        other => panic!("{other:?}"),
    }
    assert!(matches!(placement(&config(), &p, Some(7), 1), Placement::Layers(7)));
    p.use_gpu = false;
    assert!(matches!(placement(&config(), &p, None, 1), Placement::Layers(0)));
}

#[test]
fn context_params_follow_the_plan() {
    let mut cfg = config();
    cfg.kv_cache_type = KvCacheType::Q8_0;
    cfg.flash_attn = Some(true);
    let mut p = plan(&cfg, false, &vec![], false, Some(2)).unwrap();
    let params = context_params(&cfg, &p);
    assert_eq!(params.n_ctx, 4096);
    assert_eq!(params.n_seq_max, 1);
    assert_eq!(params.n_threads, 2);
    assert_eq!(params.n_threads_batch, 2);
    assert_eq!(params.type_k, KvCacheType::Q8_0);
    assert_eq!(params.flash_attn, Some(true));
    assert!(!params.swa_full);
    assert!(params.no_perf);
    p.threads = u32::MAX;
    assert_eq!(context_params(&cfg, &p).n_threads, 4);
}

#[test]
fn offload_counts_the_output_layer() {
    assert_eq!(layers_on_gpu(&fixed_offload(10), 34), 10);
    assert_eq!(layers_on_gpu(&fixed_offload(99), 34), 35);
    assert_eq!(layers_on_gpu(&fitted_offload(-1, 0), 34), 35);
    assert_eq!(layers_on_gpu(&fitted_offload(3, 2), 34), 3);
    assert_eq!(fitted_offload(3, 2).cpu_overrides, 2);
}

#[test]
fn warmup_runs_a_full_batch() {
    let p = Plan {
        use_gpu: true,
        n_ctx: 64,
        n_batch: 64,
        n_ubatch: 3,
        threads: 1,
        gpu_total_mib: 0,
    };
    let prompt = warmup_prompt(&p, 2).unwrap();
    assert_eq!(
        prompt,
        vec![
            BatchEntry { token: 2, pos: 0, logits: false },
            BatchEntry { token: 2, pos: 1, logits: false },
            BatchEntry { token: 2, pos: 2, logits: true },
        ]
    );
    assert_eq!(
        warmup_step(&p, 2).unwrap(),
        BatchEntry { token: 2, pos: 3, logits: true }
    );
}

#[test]
fn batches_hold_tokens_at_their_positions() {
    let tokens = vec![7, 8, 9];
    assert_eq!(
        tokens_batch(&tokens, 1, 3).unwrap(),
        vec![
            BatchEntry { token: 8, pos: 1, logits: false },
            BatchEntry { token: 9, pos: 2, logits: true },
        ]
    );
    assert_eq!(entry(5, 4, false).unwrap(), BatchEntry { token: 5, pos: 4, logits: false });
    assert!(entry(5, 1 << 31, false).is_err());
}

#[test]
fn file_types_have_names() {
    assert_eq!(file_type_name("17"), "Q5_K_M");
    assert_eq!(file_type_name(" 2 "), "Q4_0");
    assert_eq!(file_type_name("32"), "BF16");
    assert_eq!(file_type_name("99"), "type 99");
}
