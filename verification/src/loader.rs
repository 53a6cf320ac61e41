//! Model loading: GPU offload planning and context creation.
//!
//! Strategy for small GPUs (e.g. a 4 GB GTX 1650):
//! 1. The inference library runs a dry-run allocation of model, KV cache and compute buffers with
//!    the exact context parameters and picks the largest offload that leaves a margin free.
//! 2. The persistent inference context is created and warmed up with a worst-case batch at
//!    startup, so every GPU allocation happens before the engine reports ready.
//! 3. If any of that still fails, retry with fewer GPU layers.

use std::str::FromStr;

use vstd::prelude::*;
use vstd::string::*;

use crate::batch;
use crate::batch::{BatchEntry, PositionOverflow};
use crate::text;
use crate::text::{ascii_lowered, parsed_u32, trimmed};

verus! {

/// Bytes of a mebibyte.
pub const MIB: usize = 1048576;

/// How many layers to offload.
#[derive(Debug, Clone, Copy, PartialEq, Eq, Structural)]
pub enum GpuLayers {
    /// Fit as many layers as free VRAM allows.
    Auto,
    /// Offload exactly this many (a value above the layer count means all).
    Count(u32),
}

/// What a setting of GPU layers means, if it means anything.
pub open spec fn gpu_layers_setting(s: Seq<char>) -> Option<GpuLayers> {
    let setting = ascii_lowered(trimmed(s));
    if setting == "auto"@ || setting == ""@ {
        Some(GpuLayers::Auto)
    } else if setting == "all"@ {
        Some(GpuLayers::Count(u32::MAX))
    } else {
        match parsed_u32(setting) {
            Some(n) => Some(GpuLayers::Count(n)),
            None => None,
        }
    }
}

/// What is told about a setting of GPU layers that means nothing.
pub open spec fn gpu_layers_complaint(s: Seq<char>) -> Seq<char> {
    "expected 'auto', 'all' or a number, got '"@ + s + "'"@
}

impl GpuLayers {
    /// Read a setting: "auto", "all" or a number.
    pub fn parse(s: &str) -> (r: Result<GpuLayers, String>)
        ensures
            match r {
                Ok(layers) => gpu_layers_setting(s@) == Some(layers),
                Err(e) => gpu_layers_setting(s@) is None && e@ == gpu_layers_complaint(s@),
            },
    {
        let setting = text::ascii_lowercase(text::trim(s));
        if text::same(setting.as_str(), "auto") || text::same(setting.as_str(), "") {
            Ok(GpuLayers::Auto)
        } else if text::same(setting.as_str(), "all") {
            Ok(GpuLayers::Count(u32::MAX))
        } else {
            match text::parse_u32(setting.as_str()) {
                Some(n) => Ok(GpuLayers::Count(n)),
                None => {
                    let mut e = "expected 'auto', 'all' or a number, got '".to_owned();
                    e.append(s);
                    e.append("'");
                    Err(e)
                },
            }
        }
    }
}

impl FromStr for GpuLayers {
    type Err = String;

    /// Read a setting: "auto", "all" or a number.
    fn from_str(s: &str) -> (r: Result<Self, String>)
        ensures
            match r {
                Ok(layers) => gpu_layers_setting(s@) == Some(layers),
                Err(e) => gpu_layers_setting(s@) is None && e@ == gpu_layers_complaint(s@),
            },
    {
        GpuLayers::parse(s)
    }
}

/// Type of the values in the KV cache.
#[derive(Debug, Clone, Copy, PartialEq, Eq, Structural)]
pub enum KvCacheType {
    F16,
    Q8_0,
}

/// Settings that affect model placement and context allocation.
#[derive(Debug, Clone, Copy)]
pub struct LoadConfig {
    pub cpu: bool,
    pub allow_cpu_fallback: bool,
    pub gpu_layers: GpuLayers,
    pub vram_margin_mib: Option<usize>,
    pub ctx_size: u32,
    pub batch_size: u32,
    pub ubatch_size: Option<u32>,
    pub threads: Option<u32>,
    pub kv_cache_type: KvCacheType,
    pub flash_attn: Option<bool>,
}

/// Decisions made before loading the model.
#[derive(Debug, Clone, Copy)]
pub struct Plan {
    pub use_gpu: bool,
    pub n_ctx: u32,
    pub n_batch: u32,
    pub n_ubatch: u32,
    pub threads: u32,
    pub gpu_total_mib: usize,
}

/// Placement of the loaded model.
#[derive(Debug, Clone, Copy, PartialEq, Eq, Structural)]
pub struct Offload {
    /// Layers on the GPU; `None` means all of them.
    pub gpu_layers: Option<u32>,
    /// Number of tensor groups that were kept in system RAM.
    pub cpu_overrides: usize,
}

/// Kind of a device that the inference library can use.
#[derive(Debug, Clone, Copy, PartialEq, Eq, Structural)]
pub enum DeviceKind {
    Cpu,
    Accelerator,
    Gpu,
    IntegratedGpu,
    Unknown,
}

/// A device that the inference library can use, with its memory in bytes.
#[derive(Debug, Clone, Copy, PartialEq, Eq, Structural)]
pub struct Device {
    pub kind: DeviceKind,
    pub memory_free: usize,
    pub memory_total: usize,
}

/// `d` is a GPU of its own or one that shares the system memory.
pub open spec fn is_gpu(d: Device) -> bool {
    d.kind == DeviceKind::Gpu || d.kind == DeviceKind::IntegratedGpu
}

/// The GPUs among `devices`.
pub fn gpu_devices(devices: &Vec<Device>) -> (r: Vec<Device>)
    ensures
        r@ == devices@.filter(|d: Device| is_gpu(d)),
{
    let mut r: Vec<Device> = Vec::new();
    let mut i: usize = 0;
    assert(devices@.take(0).filter(|d: Device| is_gpu(d)) =~= Seq::<Device>::empty()) by {
        reveal(Seq::filter);
    }
    while i < devices.len()
        invariant
            i <= devices.len(),
            r@ == devices@.take(i as int).filter(|d: Device| is_gpu(d)),
        decreases devices.len() - i,
    {
        let d = devices[i];
        proof {
            reveal(Seq::filter);
            assert(devices@.take(i + 1).drop_last() == devices@.take(i as int));
            assert(devices@.take(i + 1).last() == d);
        }
        let gpu = match d.kind {
            DeviceKind::Gpu | DeviceKind::IntegratedGpu => true,
            _ => false,
        };
        if gpu {
            r.push(d);
        }
        i = i + 1;
    }
    assert(devices@.take(i as int) == devices@);
    r
}

/// Sum of the free memory of `devices`, each in whole mebibytes.
pub open spec fn free_mib(devices: Seq<Device>) -> nat
    decreases devices.len(),
{
    if devices.len() == 0 {
        0
    } else {
        free_mib(devices.drop_last()) + devices.last().memory_free as nat / MIB as nat
    }
}

/// Sum of the memory of `devices`, each in whole mebibytes.
pub open spec fn total_mib(devices: Seq<Device>) -> nat
    decreases devices.len(),
{
    if devices.len() == 0 {
        0
    } else {
        total_mib(devices.drop_last()) + devices.last().memory_total as nat / MIB as nat
    }
}

/// The sums over the first devices are no larger than those over all.
proof fn lemma_sums_grow(devices: Seq<Device>, n: int)
    requires
        0 <= n <= devices.len(),
    ensures
        free_mib(devices.take(n)) <= free_mib(devices),
        total_mib(devices.take(n)) <= total_mib(devices),
    decreases devices.len() - n,
{
    if n < devices.len() {
        assert(devices.take(n + 1).drop_last() == devices.take(n));
        lemma_sums_grow(devices, n + 1);
    } else {
        assert(devices.take(n) == devices);
    }
}

/// Free and total VRAM in MiB summed over all GPUs, if there is any.
pub open spec fn vram_of(gpus: Seq<Device>) -> Option<(nat, nat)> {
    if gpus.len() == 0 {
        None
    } else {
        Some((free_mib(gpus), total_mib(gpus)))
    }
}

/// Law: every GPU adds its free memory to the first number and all its memory to the second, in
/// whole MiB; without a GPU there is no VRAM to tell of.
pub proof fn law_every_gpu_adds_its_memory(gpus: Seq<Device>, device: Device)
    ensures
        vram_of(gpus) is None <==> gpus.len() == 0,
        ({
            let before: (nat, nat) = match vram_of(gpus) {
                Some(sums) => sums,
                None => (0, 0),
            };
            vram_of(gpus.push(device)) == Some(
                (
                    before.0 + device.memory_free as nat / (1024 * 1024),
                    before.1 + device.memory_total as nat / (1024 * 1024),
                ),
            )
        }),
{
    let more = gpus.push(device);
    assert(more.drop_last() =~= gpus);
    if gpus.len() == 0 {
        assert(free_mib(gpus) == 0 && total_mib(gpus) == 0);
    }
}

/// Free and total VRAM in MiB summed over all GPUs.
pub fn vram_mib(gpus: &Vec<Device>) -> (r: Option<(usize, usize)>)
    requires
        free_mib(gpus@) <= usize::MAX,
        total_mib(gpus@) <= usize::MAX,
    ensures
        match r {
            Some((free, total)) => gpus.len() > 0 && free == free_mib(gpus@) && total == total_mib(
                gpus@,
            ),
            None => gpus.len() == 0,
        },
        (match r {
            Some((free, total)) => Some((free as nat, total as nat)),
            None => None,
        }) == vram_of(gpus@),
{
    if gpus.len() == 0 {
        return None;
    }
    let mut free: usize = 0;
    let mut total: usize = 0;
    let mut i: usize = 0;
    while i < gpus.len()
        invariant
            i <= gpus.len(),
            free_mib(gpus@) <= usize::MAX,
            total_mib(gpus@) <= usize::MAX,
            free == free_mib(gpus@.take(i as int)),
            total == total_mib(gpus@.take(i as int)),
        decreases gpus.len() - i,
    {
        proof {
            assert(gpus@.take(i + 1).drop_last() == gpus@.take(i as int));
            lemma_sums_grow(gpus@, i + 1);
        }
        free = free + gpus[i].memory_free / MIB;
        total = total + gpus[i].memory_total / MIB;
        i = i + 1;
    }
    assert(gpus@.take(i as int) == gpus@);
    Some((free, total))
}

/// Why nothing could be planned.
#[derive(Debug, Clone, Copy, PartialEq, Eq, Structural)]
pub enum PlanError {
    /// A GPU was expected but none is usable.
    NoUsableGpu,
}

/// What is told when no GPU is usable.
pub const NO_USABLE_GPU: &'static str = "no usable GPU found. For Docker, run the container with the NVIDIA runtime (`--gpus all` or a compose GPU reservation) and check `nvidia-smi` inside the container. Set LTENGINE_CPU=true or LTENGINE_ALLOW_CPU_FALLBACK=true to run on the CPU instead";

impl PlanError {
    /// What is told about the error.
    pub fn message(&self) -> (r: &'static str)
        ensures
            r@ == NO_USABLE_GPU@,
    {
        NO_USABLE_GPU
    }
}

/// The least memory of `devices` in MiB, 0 where there is none.
pub open spec fn least_total_mib(devices: Seq<Device>) -> nat
    decreases devices.len(),
{
    if devices.len() == 0 {
        0
    } else {
        let last = devices.last().memory_total as nat / MIB as nat;
        if devices.len() == 1 || last < least_total_mib(devices.drop_last()) {
            last
        } else {
            least_total_mib(devices.drop_last())
        }
    }
}

/// `n` brought into the range from `low` to `high`.
pub open spec fn clamped(n: int, low: int, high: int) -> int {
    if n < low {
        low
    } else if n > high {
        high
    } else {
        n
    }
}

/// The smaller of two numbers.
pub open spec fn smaller(a: int, b: int) -> int {
    if a < b {
        a
    } else {
        b
    }
}

/// Whether the GPU is used; an error where one was expected but none is usable.
pub open spec fn gpu_choice(
    cfg: LoadConfig,
    gpu_build: bool,
    gpus: Seq<Device>,
    supports_offload: bool,
) -> Result<bool, PlanError> {
    if cfg.cpu || !gpu_build {
        Ok(false)
    } else if gpus.len() == 0 || !supports_offload {
        if cfg.allow_cpu_fallback {
            Ok(false)
        } else {
            Err(PlanError::NoUsableGpu)
        }
    } else {
        Ok(true)
    }
}

/// The physical batch size that is asked for, or the default for the GPU.
pub open spec fn wanted_ubatch(cfg: LoadConfig, use_gpu: bool, gpu_total_mib: nat) -> u32 {
    match cfg.ubatch_size {
        Some(n) => n,
        None => if use_gpu && gpu_total_mib < 6 * 1024 {
            128
        } else {
            512
        },
    }
}

/// The number of threads that is asked for, or the default for the machine.
pub open spec fn wanted_threads(cfg: LoadConfig, cores: Option<usize>) -> u32 {
    match cfg.threads {
        Some(n) => n,
        None => clamped(
            match cores {
                Some(n) => if n <= u32::MAX {
                    n as int
                } else {
                    4
                },
                None => 4,
            },
            1,
            8,
        ) as u32,
    }
}

/// The plan for a choice of CPU or GPU.
pub open spec fn planned(
    cfg: LoadConfig,
    use_gpu: bool,
    gpus: Seq<Device>,
    cores: Option<usize>,
) -> Plan {
    let gpu_total_mib = if use_gpu {
        least_total_mib(gpus)
    } else {
        0
    };
    let wanted = wanted_ubatch(cfg, use_gpu, gpu_total_mib) as int;
    let n_ctx = if cfg.ctx_size < 64 {
        64
    } else {
        cfg.ctx_size as int
    };
    let n_batch = clamped(cfg.batch_size as int, smaller(wanted, n_ctx), n_ctx);
    Plan {
        use_gpu,
        n_ctx: n_ctx as u32,
        n_batch: n_batch as u32,
        n_ubatch: clamped(wanted, 1, n_batch) as u32,
        threads: wanted_threads(cfg, cores),
        gpu_total_mib: gpu_total_mib as usize,
    }
}

/// `n` brought into the range from `low` to `high`.
pub fn clamp(n: u32, low: u32, high: u32) -> (r: u32)
    requires
        low <= high,
    ensures
        r == clamped(n as int, low as int, high as int),
{
    if n < low {
        low
    } else if n > high {
        high
    } else {
        n
    }
}

/// The least memory of `gpus` in MiB, 0 where there is none.
fn least_memory(gpus: &Vec<Device>) -> (r: usize)
    ensures
        r == least_total_mib(gpus@),
{
    let mut least: usize = 0;
    let mut i: usize = 0;
    while i < gpus.len()
        invariant
            i <= gpus.len(),
            least == least_total_mib(gpus@.take(i as int)),
        decreases gpus.len() - i,
    {
        assert(gpus@.take(i + 1).drop_last() == gpus@.take(i as int));
        let total = gpus[i].memory_total / MIB;
        if i == 0 || total < least {
            least = total;
        }
        i = i + 1;
    }
    assert(gpus@.take(i as int) == gpus@);
    least
}

/// Decide CPU vs GPU and batch sizes. Fails if a GPU was expected but none is usable, unless CPU
/// fallback was explicitly allowed.
///
/// `gpu_build` tells whether the program was built with GPU support, `gpus` which GPUs there
/// are, `supports_offload` whether layers can be put on them, and `cores` how many cores there
/// are. A batch size and a physical batch size of 0 together leave no batch to make.
pub fn plan(
    cfg: &LoadConfig,
    gpu_build: bool,
    gpus: &Vec<Device>,
    supports_offload: bool,
    cores: Option<usize>,
) -> (r: Result<Plan, PlanError>)
    requires
        cfg.batch_size > 0 || cfg.ubatch_size != Some(0u32),
    ensures
        match r {
            Ok(p) => gpu_choice(*cfg, gpu_build, gpus@, supports_offload) == Ok::<bool, PlanError>(
                p.use_gpu,
            ) && p == planned(*cfg, p.use_gpu, gpus@, cores),
            Err(e) => gpu_choice(*cfg, gpu_build, gpus@, supports_offload) == Err::<
                bool,
                PlanError,
            >(e),
        },
{
    let use_gpu = if cfg.cpu || !gpu_build {
        false
    } else if gpus.len() == 0 || !supports_offload {
        if cfg.allow_cpu_fallback {
            false
        } else {
            return Err(PlanError::NoUsableGpu);
        }
    } else {
        true
    };
    let gpu_total_mib = if use_gpu {
        least_memory(gpus)
    } else {
        0
    };
    // The logits scratch buffer alone is n_ubatch * n_vocab * 4 bytes; with Gemma's 262k
    // vocabulary that is 128 MiB at 128 and 512 MiB at 512.
    let wanted = match cfg.ubatch_size {
        Some(n) => n,
        None => if use_gpu && gpu_total_mib < 6 * 1024 {
            128
        } else {
            512
        },
    };
    let n_ctx = cfg.ctx_size.max(64);
    let n_batch = clamp(cfg.batch_size, wanted.min(n_ctx), n_ctx);
    let n_ubatch = clamp(wanted, 1, n_batch);
    let threads = match cfg.threads {
        Some(n) => n,
        None => {
            let n: u32 = match cores {
                Some(n) => if n as u64 <= u32::MAX as u64 {
                    n as u32
                } else {
                    4
                },
                None => 4,
            };
            clamp(n, 1, 8)
        },
    };
    Ok(Plan { use_gpu, n_ctx, n_batch, n_ubatch, threads, gpu_total_mib })
}

/// Parameters of the persistent inference context.
#[derive(Debug, Clone, Copy)]
pub struct ContextParams {
    pub n_ctx: u32,
    pub n_batch: u32,
    pub n_ubatch: u32,
    pub n_seq_max: u32,
    pub n_threads: i32,
    pub n_threads_batch: i32,
    pub type_k: KvCacheType,
    pub type_v: KvCacheType,
    pub flash_attn: Option<bool>,
    pub swa_full: bool,
    pub no_perf: bool,
}

/// The context parameters for a plan.
pub open spec fn context_for(cfg: LoadConfig, plan: Plan) -> ContextParams {
    let threads = if plan.threads <= i32::MAX {
        plan.threads as i32
    } else {
        4
    };
    ContextParams {
        n_ctx: plan.n_ctx,
        n_batch: plan.n_batch,
        n_ubatch: plan.n_ubatch,
        n_seq_max: 1,
        n_threads: threads,
        n_threads_batch: threads,
        type_k: cfg.kv_cache_type,
        type_v: cfg.kv_cache_type,
        flash_attn: cfg.flash_attn,
        swa_full: false,
        no_perf: true,
    }
}

/// Context parameters for the persistent inference context.
pub fn context_params(cfg: &LoadConfig, plan: &Plan) -> (r: ContextParams)
    ensures
        r == context_for(*cfg, *plan),
{
    let threads: i32 = if plan.threads <= i32::MAX as u32 {
        plan.threads as i32
    } else {
        4
    };
    ContextParams {
        n_ctx: plan.n_ctx,
        n_batch: plan.n_batch,
        n_ubatch: plan.n_ubatch,
        n_seq_max: 1,
        n_threads: threads,
        n_threads_batch: threads,
        type_k: cfg.kv_cache_type,
        type_v: cfg.kv_cache_type,
        flash_attn: cfg.flash_attn,
        // Sliding-window layers (5 of every 6 in Gemma 3) only need a window sized KV cache. A
        // full-size cache for them is only useful for prompt caching; it is reset per request.
        swa_full: false,
        no_perf: true,
    }
}

/// How the model is put on the devices.
#[derive(Debug)]
pub enum Placement {
    /// This many layers on the GPU.
    Layers(u32),
    /// As many layers as fit, with these many bytes left free on each device.
    Fit(Vec<usize>),
}

/// How the model is put on the devices, with the bytes that are left free.
pub enum PlacementView {
    Layers(u32),
    Fit(Seq<usize>),
}

impl View for Placement {
    type V = PlacementView;

    open spec fn view(&self) -> PlacementView {
        match self {
            Placement::Layers(n) => PlacementView::Layers(*n),
            Placement::Fit(margins) => PlacementView::Fit(margins@),
        }
    }
}

/// How a model is put on the devices.
pub open spec fn placement_for(
    cfg: LoadConfig,
    plan: Plan,
    layers: Option<u32>,
    max_devices: usize,
) -> PlacementView {
    if !plan.use_gpu {
        PlacementView::Layers(0)
    } else {
        match layers {
            Some(n) => PlacementView::Layers(n),
            None => PlacementView::Fit(
                Seq::new(
                    if max_devices == 0 {
                        1
                    } else {
                        max_devices as nat
                    },
                    |i: int| (margin_mib(cfg, plan) * MIB) as usize,
                ),
            ),
        }
    }
}

/// The VRAM in MiB that is left free when the model is fitted.
pub open spec fn margin_mib(cfg: LoadConfig, plan: Plan) -> usize {
    match cfg.vram_margin_mib {
        Some(n) => n,
        None => if plan.gpu_total_mib < 8 * 1024 {
            512
        } else {
            1024
        },
    }
}

/// Decide how the model is put on the devices. `layers == None` fits the offload to free VRAM.
/// `max_devices` is how many devices the inference library may use.
pub fn placement(cfg: &LoadConfig, plan: &Plan, layers: Option<u32>, max_devices: usize) -> (r:
    Placement)
    requires
        plan.use_gpu && layers is None ==> margin_mib(*cfg, *plan) * MIB <= usize::MAX,
    ensures
        r@ == placement_for(*cfg, *plan, layers, max_devices),
        !plan.use_gpu ==> r == Placement::Layers(0),
        plan.use_gpu && layers is Some ==> r == Placement::Layers(layers->0),
        plan.use_gpu && layers is None ==> (r matches Placement::Fit(margins) && margins.len() == (
        if max_devices == 0 {
            1
        } else {
            max_devices as nat
        }) && forall|i: int|
            0 <= i < margins.len() ==> margins[i] == margin_mib(*cfg, *plan) * MIB),
{
    if !plan.use_gpu {
        return Placement::Layers(0);
    }
    match layers {
        Some(n) => Placement::Layers(n),
        None => {
            let margin = match cfg.vram_margin_mib {
                Some(n) => n,
                None => if plan.gpu_total_mib < 8 * 1024 {
                    512
                } else {
                    1024
                },
            };
            let bytes = margin * MIB;
            let devices = max_devices.max(1);
            let mut margins: Vec<usize> = Vec::new();
            let mut i: usize = 0;
            while i < devices
                invariant
                    i <= devices,
                    margins.len() == i,
                    forall|k: int| 0 <= k < i ==> margins@[k] == bytes,
                decreases devices - i,
            {
                margins.push(bytes);
                i = i + 1;
            }
            assert(margins@ =~= Seq::new(devices as nat, |i: int| bytes));
            Placement::Fit(margins)
        },
    }
}

/// The placement of a model with a fixed number of layers on the GPU.
pub open spec fn offload_of_layers(layers: u32) -> Offload {
    Offload { gpu_layers: Some(layers), cpu_overrides: 0 }
}

/// The placement of a model that was fitted.
pub open spec fn offload_of_fit(n_gpu_layers: i32, cpu_overrides: usize) -> Offload {
    Offload {
        gpu_layers: if n_gpu_layers < 0 {
            None
        } else {
            Some(n_gpu_layers as u32)
        },
        cpu_overrides,
    }
}

/// How many layers are on the GPU, of `n_layer` layers and the output layer.
pub open spec fn on_gpu(offload: Offload, n_layer: u32) -> int {
    match offload.gpu_layers {
        Some(n) => smaller(n as int, n_layer + 1),
        None => n_layer + 1,
    }
}

/// The placement of a model that was loaded with a fixed number of layers on the GPU.
pub fn fixed_offload(layers: u32) -> (r: Offload)
    ensures
        r == offload_of_layers(layers),
{
    Offload { gpu_layers: Some(layers), cpu_overrides: 0 }
}

/// The placement of a model that was fitted: a negative number of layers means all of them.
pub fn fitted_offload(n_gpu_layers: i32, cpu_overrides: usize) -> (r: Offload)
    ensures
        r == offload_of_fit(n_gpu_layers, cpu_overrides),
{
    Offload {
        gpu_layers: if n_gpu_layers < 0 {
            None
        } else {
            Some(n_gpu_layers as u32)
        },
        cpu_overrides,
    }
}

/// How many layers are on the GPU, of `n_layer` layers and the output layer.
pub fn layers_on_gpu(offload: &Offload, n_layer: u32) -> (r: u32)
    requires
        n_layer < u32::MAX,
    ensures
        r == on_gpu(*offload, n_layer),
{
    match offload.gpu_layers {
        Some(n) => n.min(n_layer + 1),
        None => n_layer + 1,
    }
}

/// Number of tokens of the warmup prompt.
pub open spec fn warmup_length(plan: Plan) -> int {
    let n = smaller(plan.n_ubatch as int, plan.n_ctx as int / 2);
    if n < 1 {
        1
    } else {
        n
    }
}

/// The batch of the warmup prompt.
pub open spec fn warmup_entries(plan: Plan, token: i32) -> Seq<BatchEntry> {
    Seq::new(
        warmup_length(plan) as nat,
        |pos: int| batch::entry_at(token, pos, pos + 1 == warmup_length(plan)),
    )
}

/// Number of tokens of the warmup prompt.
fn warmup_len(plan: &Plan) -> (r: usize)
    ensures
        r == warmup_length(*plan),
{
    plan.n_ubatch.min(plan.n_ctx / 2).max(1) as usize
}

/// The worst-case prompt batch that is run before the engine reports ready, so that all lazily
/// allocated GPU memory is claimed then rather than on the first real request.
pub fn warmup_prompt(plan: &Plan, token: i32) -> (r: Result<Vec<BatchEntry>, PositionOverflow>)
    ensures
        match r {
            Ok(entries) => batch::fits(warmup_length(*plan) - 1) && entries@ == warmup_entries(
                *plan,
                token,
            ),
            Err(_) => !batch::fits(warmup_length(*plan) - 1),
        },
{
    let n = warmup_len(plan);
    let mut entries: Vec<BatchEntry> = Vec::new();
    let mut pos: usize = 0;
    while pos < n
        invariant
            n == warmup_length(*plan),
            1 <= n,
            pos <= n,
            entries.len() == pos,
            pos > 0 ==> batch::fits(pos - 1),
            forall|k: int|
                0 <= k < pos ==> entries@[k] == batch::entry_at(token, k, k + 1 == n),
        decreases n - pos,
    {
        match batch::entry(token, pos, pos + 1 == n) {
            Ok(e) => entries.push(e),
            Err(e) => return Err(e),
        }
        pos = pos + 1;
    }
    assert(entries@ =~= warmup_entries(*plan, token));
    Ok(entries)
}

/// The generation step that follows the warmup prompt.
pub open spec fn warmup_next(plan: Plan, token: i32) -> BatchEntry {
    batch::entry_at(token, warmup_length(plan), true)
}

/// Law: the warmup generates one token right behind its prompt.
pub proof fn law_warmup_generates_a_token(plan: Plan, token: i32)
    requires
        warmup_length(plan) <= i32::MAX,
    ensures
        warmup_next(plan, token).pos == warmup_entries(plan, token).last().pos + 1,
        warmup_next(plan, token).token == token,
        warmup_next(plan, token).logits,
{
}

/// The generation step that follows the warmup prompt.
pub fn warmup_step(plan: &Plan, token: i32) -> (r: Result<BatchEntry, PositionOverflow>)
    ensures
        match r {
            Ok(e) => batch::fits(warmup_length(*plan)) && e == warmup_next(*plan, token),
            Err(_) => !batch::fits(warmup_length(*plan)),
        },
{
    batch::entry(token, warmup_len(plan), true)
}

/// The GPU layer count to try after one that failed.
pub open spec fn reduced(current: Option<u32>, n_layer: u32) -> Option<u32> {
    let layers = match current {
        Some(n) => smaller(n as int, n_layer + 1),
        None => n_layer + 1,
    };
    if layers == 0 {
        None
    } else if layers < 8 {
        Some((layers - 1) as u32)
    } else {
        Some((layers - layers / 8) as u32)
    }
}

/// Next GPU layer count to try after an allocation failure, or `None` if there is nothing left
/// to reduce.
pub fn reduce_layers(current: Option<u32>, n_layer: u32) -> (r: Option<u32>)
    requires
        n_layer < u32::MAX,
    ensures
        r == reduced(current, n_layer),
{
    let layers = match current {
        Some(n) => n.min(n_layer + 1),
        None => n_layer + 1,
    };
    if layers > 0 {
        Some(layers - (layers / 8).max(1))
    } else {
        None
    }
}

/// The layer count after `steps` reductions, or `None` if it was already 0 before the last.
pub open spec fn reduced_times(n_layer: u32, steps: nat) -> Option<Option<u32>>
    decreases steps,
{
    if steps == 0 {
        Some(None)
    } else {
        match reduced_times(n_layer, (steps - 1) as nat) {
            Some(layers) => match reduced(layers, n_layer) {
                Some(next) => Some(Some(next)),
                None => None,
            },
            None => None,
        }
    }
}

/// Law: every reduction gives fewer layers than were tried, and it stops only at 0.
pub proof fn law_reduction_decreases(current: Option<u32>, n_layer: u32)
    requires
        n_layer < u32::MAX,
    ensures
        match (current, reduced(current, n_layer)) {
            (Some(n), Some(next)) => next < n && next <= n_layer,
            (None, Some(next)) => next <= n_layer,
            (Some(n), None) => n == 0,
            (None, None) => false,
        },
{
}

/// Law: reducing again and again reaches 0 layers, after at most one step for each layer.
pub proof fn law_reduction_reaches_zero(n_layer: u32) -> (steps: nat)
    requires
        n_layer < u32::MAX,
    ensures
        1 <= steps <= n_layer + 1,
        reduced_times(n_layer, steps) == Some(Some(0u32)),
{
    assert(reduced_times(n_layer, 0) == Some(None::<u32>));
    let first = reduced(None, n_layer)->0;
    assert(reduced_times(n_layer, 1) == Some(Some(first)));
    lemma_reduction_from(n_layer, 1, first)
}

/// From `layers` after `done` steps, 0 is reached in at most as many steps more.
proof fn lemma_reduction_from(n_layer: u32, done: nat, layers: u32) -> (steps: nat)
    requires
        n_layer < u32::MAX,
        layers <= n_layer,
        reduced_times(n_layer, done) == Some(Some(layers)),
    ensures
        done <= steps <= done + layers,
        reduced_times(n_layer, steps) == Some(Some(0u32)),
    decreases layers,
{
    if layers == 0 {
        done
    } else {
        let next = reduced(Some(layers), n_layer)->0;
        assert(reduced_times(n_layer, done + 1) == Some(Some(next)));
        lemma_reduction_from(n_layer, done + 1, next)
    }
}

/// Law: the context has exactly as many tokens as are configured, but never fewer than 64.
pub proof fn law_context_has_the_configured_size(
    cfg: LoadConfig,
    use_gpu: bool,
    gpus: Seq<Device>,
    cores: Option<usize>,
)
    ensures
        cfg.ctx_size >= 64 ==> planned(cfg, use_gpu, gpus, cores).n_ctx == cfg.ctx_size,
        cfg.ctx_size < 64 ==> planned(cfg, use_gpu, gpus, cores).n_ctx == 64,
        planned(cfg, use_gpu, gpus, cores).use_gpu == use_gpu,
{
}

/// Law: batches have the configured sizes as far as they fit. A physical batch that is not
/// configured has 128 tokens on a GPU with less than 6 GiB and 512 otherwise. The logical batch is
/// enlarged to hold a physical one and cut to the context; the physical batch is cut to the logical
/// one.
pub proof fn law_batches_have_the_configured_sizes(
    cfg: LoadConfig,
    use_gpu: bool,
    gpus: Seq<Device>,
    cores: Option<usize>,
)
    requires
        cfg.batch_size > 0 || cfg.ubatch_size != Some(0u32),
    ensures
        ({
            let p = planned(cfg, use_gpu, gpus, cores);
            let wanted: u32 = match cfg.ubatch_size {
                Some(n) => n,
                None => if use_gpu && p.gpu_total_mib < 6144 {
                    128
                } else {
                    512
                },
            };
            &&& wanted <= cfg.batch_size <= p.n_ctx ==> p.n_batch == cfg.batch_size
            &&& cfg.batch_size < wanted <= p.n_ctx ==> p.n_batch == wanted
            &&& cfg.batch_size > p.n_ctx || wanted > p.n_ctx ==> p.n_batch == p.n_ctx
            &&& 1 <= wanted <= p.n_batch ==> p.n_ubatch == wanted
            &&& wanted > p.n_batch ==> p.n_ubatch == p.n_batch
            &&& wanted == 0 ==> p.n_ubatch == 1
        }),
{
}

/// Law: as many threads are used as are configured; where none are, one for each core, but at
/// least one and at most 8, and 4 where the cores cannot be counted.
pub proof fn law_threads_are_as_configured(
    cfg: LoadConfig,
    use_gpu: bool,
    gpus: Seq<Device>,
    cores: Option<usize>,
)
    ensures
        ({
            let p = planned(cfg, use_gpu, gpus, cores);
            &&& cfg.threads matches Some(n) ==> p.threads == n
            &&& cfg.threads is None && (cores matches Some(n) && 1 <= n <= 8) ==> p.threads
                == cores->0
            &&& cfg.threads is None && (cores matches Some(n) && 8 < n <= u32::MAX) ==> p.threads
                == 8
            &&& cfg.threads is None && cores == Some(0usize) ==> p.threads == 1
            &&& cfg.threads is None && cores is None ==> p.threads == 4
        }),
{
}

/// Law: what is known of the memory of the GPUs is that of the smallest, in whole mebibytes, and
/// nothing where they are not used.
pub proof fn law_smallest_gpu_counts(
    cfg: LoadConfig,
    gpus: Seq<Device>,
    cores: Option<usize>,
)
    ensures
        ({
            let mib = planned(cfg, true, gpus, cores).gpu_total_mib;
            &&& forall|i: int|
                0 <= i < gpus.len() ==> mib <= (#[trigger] gpus[i]).memory_total / 1048576
            &&& gpus.len() > 0 ==> exists|i: int|
                0 <= i < gpus.len() && mib == (#[trigger] gpus[i]).memory_total / 1048576
        }),
        planned(cfg, false, gpus, cores).gpu_total_mib == 0,
{
    lemma_least(gpus);
}

/// The least memory is that of one of the devices, and no device has less.
proof fn lemma_least(devices: Seq<Device>)
    ensures
        least_total_mib(devices) <= usize::MAX,
        forall|i: int|
            0 <= i < devices.len() ==> least_total_mib(devices) <= (
            #[trigger] devices[i]).memory_total / 1048576,
        devices.len() > 0 ==> exists|i: int|
            0 <= i < devices.len() && least_total_mib(devices) == (
            #[trigger] devices[i]).memory_total / 1048576,
    decreases devices.len(),
{
    if devices.len() > 0 {
        let before = devices.drop_last();
        let last = devices.len() - 1;
        lemma_least(before);
        assert(devices[last] == devices.last());
        assert forall|i: int| 0 <= i < devices.len() implies least_total_mib(devices) <= (
        #[trigger] devices[i]).memory_total / 1048576 by {
            if i < last {
                assert(before[i] == devices[i]);
            }
        }
        if before.len() > 0 {
            let i = choose|i: int|
                0 <= i < before.len() && least_total_mib(before) == (
                #[trigger] before[i]).memory_total / 1048576;
            assert(before[i] == devices[i]);
        }
    }
}

/// Law: the GPU is used exactly where the program was built for one, the CPU was not asked for,
/// and there is a GPU that layers can be put on. Where there is none, the CPU is used if that was
/// allowed, and else nothing is planned.
pub proof fn law_gpu_is_used_where_it_can_be(
    cfg: LoadConfig,
    gpu_build: bool,
    gpus: Seq<Device>,
    supports_offload: bool,
)
    ensures
        ({
            let choice = gpu_choice(cfg, gpu_build, gpus, supports_offload);
            let usable = gpus.len() > 0 && supports_offload;
            &&& choice == Ok::<bool, PlanError>(true) <==> gpu_build && !cfg.cpu && usable
            &&& choice is Err <==> gpu_build && !cfg.cpu && !usable && !cfg.allow_cpu_fallback
        }),
{
}

/// Law: the context is made with the sizes of the plan, for one sequence, with the threads of the
/// plan for prompts and for generation alike, and with the configured types; its cache holds no
/// more than the sliding window.
pub proof fn law_context_follows_the_plan(cfg: LoadConfig, plan: Plan)
    ensures
        ({
            let c = context_for(cfg, plan);
            &&& c.n_ctx == plan.n_ctx
            &&& c.n_batch == plan.n_batch
            &&& c.n_ubatch == plan.n_ubatch
            &&& c.n_seq_max == 1
            &&& plan.threads <= i32::MAX ==> c.n_threads == plan.threads
            &&& c.n_threads_batch == c.n_threads
            &&& c.n_threads > 0 || plan.threads == 0
            &&& c.type_k == cfg.kv_cache_type
            &&& c.type_v == cfg.kv_cache_type
            &&& c.flash_attn == cfg.flash_attn
            &&& !c.swa_full
        }),
{
}

/// Law: a model is put on the devices as the plan and the layers say: on the CPU no layer goes to
/// the GPU, a number of layers is taken as it is, and else the layers are fitted. As much is left
/// free on every device as is configured; where nothing is, half a gibibyte on GPUs below 8 GiB,
/// and one on others.
pub proof fn law_placement_leaves_the_margin(
    cfg: LoadConfig,
    plan: Plan,
    layers: Option<u32>,
    max_devices: usize,
)
    requires
        plan.use_gpu && layers is None ==> margin_mib(cfg, plan) * MIB <= usize::MAX,
    ensures
        ({
            let placed = placement_for(cfg, plan, layers, max_devices);
            &&& !plan.use_gpu ==> placed == PlacementView::Layers(0)
            &&& plan.use_gpu ==> (layers matches Some(n) ==> placed == PlacementView::Layers(n))
            &&& plan.use_gpu && layers is None ==> (placed matches PlacementView::Fit(margins)
                && margins.len() >= 1 && margins.len() >= max_devices && forall|i: int|
                0 <= i < margins.len() ==> (#[trigger] margins[i]) == 1048576 * (
                match cfg.vram_margin_mib {
                    Some(n) => n as int,
                    None => if plan.gpu_total_mib < 8192 {
                        512
                    } else {
                        1024
                    },
                }))
        }),
{
}

/// Law: of all layers of a model, the output layer included, as many are on the GPU as were put
/// there.
pub proof fn law_layers_on_the_gpu(offload: Offload, n_layer: u32)
    requires
        n_layer < u32::MAX,
    ensures
        on_gpu(offload, n_layer) <= n_layer + 1,
        offload.gpu_layers is None ==> on_gpu(offload, n_layer) == n_layer + 1,
        offload.gpu_layers matches Some(n) && n <= n_layer ==> on_gpu(offload, n_layer)
            == offload.gpu_layers->0,
        offload.gpu_layers matches Some(n) && n > n_layer ==> on_gpu(offload, n_layer) == n_layer
            + 1,
{
}

/// Law: a model that was loaded with a number of layers has these on the GPU; one that was fitted
/// has the layers that fitted, all of them where the number is negative.
pub proof fn law_offload_is_what_was_loaded(layers: u32, fitted: i32, cpu_overrides: usize)
    ensures
        offload_of_layers(layers).gpu_layers == Some(layers),
        offload_of_layers(layers).cpu_overrides == 0,
        offload_of_fit(fitted, cpu_overrides).gpu_layers is None <==> fitted < 0,
        fitted >= 0 ==> (offload_of_fit(fitted, cpu_overrides).gpu_layers matches Some(n) && n
            == fitted),
        offload_of_fit(fitted, cpu_overrides).cpu_overrides == cpu_overrides,
{
}

/// Law: each retry gives up one layer in eight, and at least one, of those that are on the GPU.
pub proof fn law_reduction_gives_up_an_eighth(current: Option<u32>, n_layer: u32)
    requires
        n_layer < u32::MAX,
    ensures
        ({
            let tried: int = match current {
                Some(n) => if n <= n_layer {
                    n as int
                } else {
                    n_layer + 1
                },
                None => n_layer + 1,
            };
            &&& reduced(current, n_layer) is None <==> tried == 0
            &&& reduced(current, n_layer) matches Some(next) ==> {
                let given_up = tried - next;
                &&& 8 * given_up <= tried || given_up == 1
                &&& 8 * given_up > tried - 8
                &&& given_up >= 1
            }
        }),
{
}

/// Law: the warmup runs as large a batch as any request will: a whole physical batch, or half the
/// context where that is less. Its tokens stand at their positions from 0 on, scores are wanted for
/// the last of them only, and the step after it stands right behind.
pub proof fn law_warmup_is_the_worst_case(plan: Plan, token: i32)
    requires
        plan.n_ubatch >= 1,
        plan.n_ctx >= 2,
    ensures
        plan.n_ubatch <= plan.n_ctx / 2 ==> warmup_length(plan) == plan.n_ubatch,
        plan.n_ubatch > plan.n_ctx / 2 ==> warmup_length(plan) == plan.n_ctx / 2,
        warmup_entries(plan, token).len() == warmup_length(plan),
        batch::fits(warmup_length(plan)) ==> forall|k: int|
            0 <= k < warmup_length(plan) ==> (#[trigger] warmup_entries(plan, token)[k]).token
                == token && warmup_entries(plan, token)[k].pos == k && (warmup_entries(
                plan,
                token,
            )[k].logits <==> k == warmup_length(plan) - 1),
{
}

/// Law: GPUs of their own and those that share the system memory are GPUs, and nothing else is.
pub proof fn law_gpus_are_told_by_their_kind(d: Device)
    ensures
        is_gpu(d) <==> d.kind is Gpu || d.kind is IntegratedGpu,
{
}

/// Law: the memory of all GPUs is the sum of what each has, in whole mebibytes.
pub proof fn law_memory_adds_up(some: Seq<Device>, device: Device, others: Seq<Device>)
    ensures
        free_mib(some + others) == free_mib(some) + free_mib(others),
        total_mib(some + others) == total_mib(some) + total_mib(others),
        free_mib(seq![device]) == device.memory_free / 1048576,
        total_mib(seq![device]) == device.memory_total / 1048576,
    decreases others.len(),
{
    let all = some + others;
    if others.len() == 0 {
        assert(all =~= some);
    } else {
        assert(all.drop_last() =~= some + others.drop_last());
        assert(all.last() == others.last());
        law_memory_adds_up(some, device, others.drop_last());
    }
    let one = seq![device];
    assert(one.drop_last() =~= Seq::<Device>::empty());
    assert(free_mib(one.drop_last()) == 0 && total_mib(one.drop_last()) == 0);
}

/// Law: a setting that is refused is told as it was given.
pub proof fn law_refused_layers_are_told(s: Seq<char>)
    ensures
        ("got '"@ + s + "'"@).is_suffix_of(gpu_layers_complaint(s)),
{
    reveal_strlit("got '");
    reveal_strlit("expected 'auto', 'all' or a number, got '");
    let told = gpu_layers_complaint(s);
    let end = "got '"@ + s + "'"@;
    assert(end =~= told.subrange(told.len() - end.len(), told.len() as int));
}

/// Law: a number of layers is read as it is written, white space around a setting and the case of
/// its letters make no difference, and a setting means the same as one that reads the same so.
pub proof fn law_layers_are_read_as_written(
    n: u32,
    s: Seq<char>,
    before: Seq<char>,
    after: Seq<char>,
)
    requires
        text::all_white(before),
        text::all_white(after),
    ensures
        gpu_layers_setting(before + text::decimal(n as nat) + after) == Some(GpuLayers::Count(n)),
        gpu_layers_setting(before + s + after) == gpu_layers_setting(s),
        gpu_layers_setting(ascii_lowered(s)) == gpu_layers_setting(s),
        gpu_layers_setting("auto"@) == Some(GpuLayers::Auto),
        gpu_layers_setting(""@) == Some(GpuLayers::Auto),
        gpu_layers_setting("all"@) == Some(GpuLayers::Count(u32::MAX)),
{
    reveal_strlit("auto");
    reveal_strlit("all");
    reveal_strlit("");
    let d = text::decimal(n as nat);
    text::law_decimal_stands_for_its_number(n as nat);
    text::law_written_number_is_read_back(n as nat, d);
    text::lemma_padding_is_trimmed(before, d, after);
    text::lemma_padding_is_trimmed(before, s, after);
    assert forall|i: int| 0 <= i < d.len() implies ascii_lowered(d)[i] == d[i] by {
        assert('0' <= d[i] <= '9');
    }
    assert(ascii_lowered(d) =~= d);
    assert('0' <= d[0] <= '9' && '0' <= d.last() <= '9');
    assert(trimmed(d) == d);
    assert("auto"@[0] == 'a' && "all"@[0] == 'a');
    lemma_lowered_and_trimmed(s);
    assert(ascii_lowered("auto"@) =~= "auto"@);
    assert(ascii_lowered("all"@) =~= "all"@);
    assert(ascii_lowered(""@) =~= ""@);
    assert(trimmed("auto"@) == "auto"@);
    assert(trimmed("all"@) == "all"@);
    assert("all"@ != "auto"@) by {
        assert("all"@.len() != "auto"@.len());
    }
}

/// A text can be put into lower case before or after it is trimmed, and once is enough.
proof fn lemma_lowered_and_trimmed(s: Seq<char>)
    ensures
        ascii_lowered(trimmed(ascii_lowered(s))) == ascii_lowered(trimmed(s)),
{
    let low = ascii_lowered(s);
    lemma_lowered_left(s);
    lemma_lowered_right(text::left_trimmed(s));
    assert(trimmed(low) == ascii_lowered(trimmed(s)));
    assert(ascii_lowered(ascii_lowered(trimmed(s))) =~= ascii_lowered(trimmed(s)));
}

/// Lower case makes no difference to trimming on the left.
proof fn lemma_lowered_left(s: Seq<char>)
    ensures
        text::left_trimmed(ascii_lowered(s)) == ascii_lowered(text::left_trimmed(s)),
    decreases s.len(),
{
    let low = ascii_lowered(s);
    if s.len() > 0 {
        assert(low.drop_first() =~= ascii_lowered(s.drop_first()));
        assert(text::white_space(low[0]) == text::white_space(s[0]));
        lemma_lowered_left(s.drop_first());
    }
}

/// Lower case makes no difference to trimming on the right.
proof fn lemma_lowered_right(s: Seq<char>)
    ensures
        text::right_trimmed(ascii_lowered(s)) == ascii_lowered(text::right_trimmed(s)),
    decreases s.len(),
{
    let low = ascii_lowered(s);
    if s.len() > 0 {
        assert(low.drop_last() =~= ascii_lowered(s.drop_last()));
        assert(text::white_space(low.last()) == text::white_space(s.last()));
        lemma_lowered_right(s.drop_last());
    }
}

/// Law: the sizes of a plan fit into each other: the physical batch into the logical one, and
/// that into the context, which has at least 64 tokens.
pub proof fn law_planned_sizes_nest(
    cfg: LoadConfig,
    use_gpu: bool,
    gpus: Seq<Device>,
    cores: Option<usize>,
)
    requires
        cfg.batch_size > 0 || cfg.ubatch_size != Some(0u32),
    ensures
        ({
            let p = planned(cfg, use_gpu, gpus, cores);
            1 <= p.n_ubatch <= p.n_batch && p.n_batch <= p.n_ctx && 64 <= p.n_ctx
        }),
{
}

/// Law: the CPU is never used in silence: without a usable GPU, a program that was built for one
/// runs only if the CPU was asked for or fallback was allowed.
pub proof fn law_no_silent_cpu_fallback(
    cfg: LoadConfig,
    gpus: Seq<Device>,
    supports_offload: bool,
)
    requires
        !cfg.cpu,
        !cfg.allow_cpu_fallback,
    ensures
        match gpu_choice(cfg, true, gpus, supports_offload) {
            Ok(use_gpu) => use_gpu && gpus.len() > 0 && supports_offload,
            Err(_) => gpus.len() == 0 || !supports_offload,
        },
{
}

/// Law: the warmup prompt and the step after it fit into the context.
pub proof fn law_warmup_fits_the_context(plan: Plan)
    requires
        plan.n_ctx >= 2,
    ensures
        1 <= warmup_length(plan) < plan.n_ctx,
{
}

/// File types of GGUF models (quantizations) and their names.
pub const FILE_TYPES: [(&'static str, &'static str); 30] = [
    ("0", "F32"),
    ("1", "F16"),
    ("2", "Q4_0"),
    ("3", "Q4_1"),
    ("7", "Q8_0"),
    ("8", "Q5_0"),
    ("9", "Q5_1"),
    ("10", "Q2_K"),
    ("11", "Q3_K_S"),
    ("12", "Q3_K_M"),
    ("13", "Q3_K_L"),
    ("14", "Q4_K_S"),
    ("15", "Q4_K_M"),
    ("16", "Q5_K_S"),
    ("17", "Q5_K_M"),
    ("18", "Q6_K"),
    ("19", "IQ2_XXS"),
    ("20", "IQ2_XS"),
    ("21", "Q2_K_S"),
    ("22", "IQ3_XS"),
    ("23", "IQ3_XXS"),
    ("24", "IQ1_S"),
    ("25", "IQ4_NL"),
    ("26", "IQ3_S"),
    ("27", "IQ3_M"),
    ("28", "IQ2_S"),
    ("29", "IQ2_M"),
    ("30", "IQ4_XS"),
    ("31", "IQ1_M"),
    ("32", "BF16"),
];

/// The name of a file type, looking from entry `from` of the list on.
pub open spec fn type_name_from(file_type: Seq<char>, from: int) -> Seq<char>
    decreases 30 - from,
{
    if from < 0 || from >= 30 {
        "type "@ + file_type
    } else if FILE_TYPES@[from].0@ == file_type {
        FILE_TYPES@[from].1@
    } else {
        type_name_from(file_type, from + 1)
    }
}

/// Law: a file type that is listed goes by its name in the list, and any other by its number.
pub proof fn law_file_types_go_by_their_names(file_type: Seq<char>)
    ensures
        (exists|i: int|
            0 <= i < 30 && (#[trigger] FILE_TYPES@[i]).0@ == file_type && type_name_from(
                file_type,
                0,
            ) == FILE_TYPES@[i].1@) || ((forall|i: int|
            0 <= i < 30 ==> (#[trigger] FILE_TYPES@[i]).0@ != file_type) && type_name_from(
            file_type,
            0,
        ) == "type "@ + file_type),
{
    lemma_type_name(file_type, 0);
}

/// From `from` on, a file type goes by its name in the list, or by its number.
proof fn lemma_type_name(file_type: Seq<char>, from: int)
    requires
        0 <= from <= 30,
    ensures
        (exists|i: int|
            from <= i < 30 && (#[trigger] FILE_TYPES@[i]).0@ == file_type && type_name_from(
                file_type,
                from,
            ) == FILE_TYPES@[i].1@) || ((forall|i: int|
            from <= i < 30 ==> (#[trigger] FILE_TYPES@[i]).0@ != file_type) && type_name_from(
            file_type,
            from,
        ) == "type "@ + file_type),
    decreases 30 - from,
{
    if from < 30 && FILE_TYPES@[from].0@ != file_type {
        lemma_type_name(file_type, from + 1);
    }
}

/// Human-readable GGUF file type (quantization).
pub fn file_type_name(file_type: &str) -> (r: String)
    ensures
        r@ == type_name_from(trimmed(file_type@), 0),
{
    let wanted = text::trim(file_type);
    let mut i: usize = 0;
    while i < 30
        invariant
            i <= 30,
            wanted@ == trimmed(file_type@),
            type_name_from(wanted@, 0) == type_name_from(wanted@, i as int),
        decreases 30 - i,
    {
        if text::same(FILE_TYPES[i].0, wanted) {
            return FILE_TYPES[i].1.to_owned();
        }
        i = i + 1;
    }
    let mut r = "type ".to_owned();
    r.append(wanted);
    r
}

} // verus!
