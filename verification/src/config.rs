//! Settings of the server and what follows from them.

use vstd::prelude::*;
use vstd::string::*;

use crate::engine::EngineConfig;
use crate::loader::{clamped, GpuLayers, KvCacheType, LoadConfig};
use crate::models::DEFAULT_MODEL;
use crate::text;

verus! {

/// Settings of the server.
#[derive(Debug)]
pub struct Args {
    /// Hostname to bind to.
    pub host: String,
    /// Port to bind to.
    pub port: u16,
    /// Character limit for translation requests.
    pub char_limit: usize,
    /// Model to download and use (ignored when `model_file` is set).
    pub model: String,
    /// Path to a local .gguf model file.
    pub model_file: String,
    /// Require this API key for requests.
    pub api_key: String,
    /// Use the CPU only.
    pub cpu: bool,
    /// Run on the CPU if no GPU is usable instead of refusing to start.
    pub allow_cpu_fallback: bool,
    /// GPU layers to offload.
    pub gpu_layers: GpuLayers,
    /// VRAM in MiB to leave free when fitting the model.
    pub vram_margin: Option<usize>,
    /// Context size in tokens (prompt and translation).
    pub ctx_size: u32,
    /// Maximum tokens submitted per decode call.
    pub batch_size: u32,
    /// Physical micro-batch size.
    pub ubatch_size: Option<u32>,
    /// CPU threads.
    pub threads: Option<u32>,
    /// KV cache type: "f16" or "q8_0".
    pub kv_cache_type: String,
    /// Flash attention: "auto", "on" or "off".
    pub flash_attn: String,
    /// Hard cap on generated tokens per translation.
    pub max_new_tokens: u32,
    /// Requests that may wait while a translation is running.
    pub queue_size: usize,
    /// Seconds a request may wait in the queue.
    pub queue_timeout: u64,
    /// Cache up to this many translations in memory.
    pub cache_size: usize,
    /// Enable verbose logging.
    pub verbose: bool,
    /// Check whether a local instance is ready and exit.
    pub healthcheck: bool,
}

impl Default for Args {
    /// The settings where none is given.
    fn default() -> (r: Self)
        ensures
            r.host@ == "0.0.0.0"@,
            r.port == 5050,
            r.char_limit == 5000,
            r.model@ == DEFAULT_MODEL@,
            r.model_file@ == ""@,
            r.api_key@ == ""@,
            !r.cpu,
            !r.allow_cpu_fallback,
            r.gpu_layers == GpuLayers::Auto,
            r.vram_margin is None,
            r.ctx_size == 4096,
            r.batch_size == 512,
            r.ubatch_size is None,
            r.threads is None,
            r.kv_cache_type@ == "f16"@,
            r.flash_attn@ == "auto"@,
            r.max_new_tokens == 2048,
            r.queue_size == 16,
            r.queue_timeout == 60,
            r.cache_size == 0,
            !r.verbose,
            !r.healthcheck,
    {
        Args {
            host: "0.0.0.0".to_owned(),
            port: 5050,
            char_limit: 5000,
            model: DEFAULT_MODEL.to_owned(),
            model_file: "".to_owned(),
            api_key: "".to_owned(),
            cpu: false,
            allow_cpu_fallback: false,
            gpu_layers: GpuLayers::Auto,
            vram_margin: None,
            ctx_size: 4096,
            batch_size: 512,
            ubatch_size: None,
            threads: None,
            kv_cache_type: "f16".to_owned(),
            flash_attn: "auto".to_owned(),
            max_new_tokens: 2048,
            queue_size: 16,
            queue_timeout: 60,
            cache_size: 0,
            verbose: false,
            healthcheck: false,
        }
    }
}

/// The KV cache type of a setting.
pub open spec fn kv_cache_setting(s: Seq<char>) -> KvCacheType {
    if s == "q8_0"@ {
        KvCacheType::Q8_0
    } else {
        KvCacheType::F16
    }
}

/// Whether flash attention is used by a setting; `None` leaves it to the inference library.
pub open spec fn flash_attn_setting(s: Seq<char>) -> Option<bool> {
    if s == "on"@ {
        Some(true)
    } else if s == "off"@ {
        Some(false)
    } else {
        None
    }
}

/// How many tokens may be generated: at least one.
pub open spec fn tokens_allowed(setting: u32) -> u32 {
    if setting > 1 {
        setting
    } else {
        1
    }
}

/// How many threads serve HTTP.
pub open spec fn workers(available: Option<usize>) -> int {
    match available {
        Some(n) => clamped(n as int, 2, 4),
        None => 2,
    }
}

/// What is logged where nothing else is asked for.
pub open spec fn filter_text(verbose: bool) -> Seq<char> {
    if verbose {
        "debug,llama_cpp_2=info"@
    } else {
        "info,llama_cpp_2=warn"@
    }
}

/// Law: every setting of how the model is loaded is the one that was given.
pub proof fn law_settings_are_handed_on(args: Args)
    ensures
        args.load().cpu == args.cpu,
        args.load().allow_cpu_fallback == args.allow_cpu_fallback,
        args.load().gpu_layers == args.gpu_layers,
        args.load().vram_margin_mib == args.vram_margin,
        args.load().ctx_size == args.ctx_size,
        args.load().batch_size == args.batch_size,
        args.load().ubatch_size == args.ubatch_size,
        args.load().threads == args.threads,
        args.kv_cache_type@ == "q8_0"@ <==> args.load().kv_cache_type == KvCacheType::Q8_0,
        args.kv_cache_type@ == "f16"@ ==> args.load().kv_cache_type == KvCacheType::F16,
        args.flash_attn@ == "on"@ <==> args.load().flash_attn == Some(true),
        args.flash_attn@ == "off"@ <==> args.load().flash_attn == Some(false),
        args.flash_attn@ == "auto"@ ==> args.load().flash_attn is None,
{
    reveal_strlit("on");
    reveal_strlit("off");
    reveal_strlit("auto");
    reveal_strlit("q8_0");
    reveal_strlit("f16");
    assert("on"@.len() == 2 && "off"@.len() == 3 && "auto"@.len() == 4);
    assert("q8_0"@.len() == 4 && "f16"@.len() == 3);
}

/// Law: the cap on generated tokens is the one that was given, unless it allows none.
pub proof fn law_at_least_one_token_is_allowed(setting: u32)
    ensures
        setting > 0 ==> tokens_allowed(setting) == setting,
        tokens_allowed(0) == 1,
{
}

/// Law: two to four threads serve HTTP, as many as the machine can run within that, and two where
/// that is not known.
pub proof fn law_a_few_threads_serve_http(n: usize)
    ensures
        2 <= workers(Some(n)) <= 4,
        2 <= n <= 4 ==> workers(Some(n)) == n,
        n < 2 ==> workers(Some(n)) == 2,
        n > 4 ==> workers(Some(n)) == 4,
        workers(None) == 2,
{
}

/// Law: more is logged where that is asked for: of the server from the debug level on, of the
/// inference library from the info level on, each one level further than else.
pub proof fn law_verbose_logs_more(verbose: bool)
    ensures
        verbose <==> "debug,"@.is_prefix_of(filter_text(verbose)),
        verbose <==> "=info"@.is_suffix_of(filter_text(verbose)),
        !verbose <==> "info,"@.is_prefix_of(filter_text(verbose)),
        !verbose <==> "=warn"@.is_suffix_of(filter_text(verbose)),
{
    reveal_strlit("debug,");
    reveal_strlit("=info");
    reveal_strlit("info,");
    reveal_strlit("=warn");
    reveal_strlit("debug,llama_cpp_2=info");
    reveal_strlit("info,llama_cpp_2=warn");
    let r = filter_text(verbose);
    if verbose {
        assert("debug,"@ =~= r.subrange(0, 6));
        assert("=info"@ =~= r.subrange(r.len() - 5, r.len() as int));
        assert("info,"@[0] != r.subrange(0, 5)[0]);
        assert("=warn"@[1] != r.subrange(r.len() - 5, r.len() as int)[1]);
    } else {
        assert("info,"@ =~= r.subrange(0, 5));
        assert("=warn"@ =~= r.subrange(r.len() - 5, r.len() as int));
        assert("debug,"@[0] != r.subrange(0, 6)[0]);
        assert("=info"@[1] != r.subrange(r.len() - 5, r.len() as int)[1]);
    }
}

impl Args {
    /// The settings that affect model placement and context allocation.
    pub open spec fn load(&self) -> LoadConfig {
        LoadConfig {
            cpu: self.cpu,
            allow_cpu_fallback: self.allow_cpu_fallback,
            gpu_layers: self.gpu_layers,
            vram_margin_mib: self.vram_margin,
            ctx_size: self.ctx_size,
            batch_size: self.batch_size,
            ubatch_size: self.ubatch_size,
            threads: self.threads,
            kv_cache_type: kv_cache_setting(self.kv_cache_type@),
            flash_attn: flash_attn_setting(self.flash_attn@),
        }
    }

    /// The settings of the engine. At least one token may be generated.
    pub fn engine_config(&self) -> (r: EngineConfig)
        ensures
            r.model@ == self.model@,
            r.model_file@ == self.model_file@,
            r.load == self.load(),
            r.max_new_tokens == tokens_allowed(self.max_new_tokens),
            r.queue_size == self.queue_size,
            r.queue_timeout == self.queue_timeout,
    {
        let kv_cache_type = if text::same(self.kv_cache_type.as_str(), "q8_0") {
            KvCacheType::Q8_0
        } else {
            KvCacheType::F16
        };
        let flash_attn = if text::same(self.flash_attn.as_str(), "on") {
            Some(true)
        } else if text::same(self.flash_attn.as_str(), "off") {
            Some(false)
        } else {
            None
        };
        EngineConfig {
            model: self.model.clone(),
            model_file: self.model_file.clone(),
            load: LoadConfig {
                cpu: self.cpu,
                allow_cpu_fallback: self.allow_cpu_fallback,
                gpu_layers: self.gpu_layers,
                vram_margin_mib: self.vram_margin,
                ctx_size: self.ctx_size,
                batch_size: self.batch_size,
                ubatch_size: self.ubatch_size,
                threads: self.threads,
                kv_cache_type,
                flash_attn,
            },
            max_new_tokens: self.max_new_tokens.max(1),
            queue_size: self.queue_size,
            queue_timeout: self.queue_timeout,
        }
    }
}

/// What is logged where nothing else is asked for.
pub fn log_filter(verbose: bool) -> (r: &'static str)
    ensures
        r@ == filter_text(verbose),
{
    if verbose {
        "debug,llama_cpp_2=info"
    } else {
        "info,llama_cpp_2=warn"
    }
}

/// How many threads serve HTTP, from how many the machine can run at once, where that is known.
pub fn worker_count(available: Option<usize>) -> (r: usize)
    ensures
        r == workers(available),
{
    match available {
        Some(n) => if n < 2 {
            2
        } else if n > 4 {
            4
        } else {
            n
        },
        None => 2,
    }
}

/// What is asked of a local instance to learn whether it is ready.
pub const READY_REQUEST: &'static str = "GET /health/ready HTTP/1.0\r\nHost: localhost\r\n\r\n";

/// An HTTP response reports success.
pub open spec fn reports_success(response: Seq<char>) -> bool {
    "HTTP/1.1 200"@.is_prefix_of(response) || "HTTP/1.0 200"@.is_prefix_of(response)
}

/// The exit code of a health check.
pub open spec fn exit_code(response: Option<Seq<char>>) -> i32 {
    match response {
        Some(s) if reports_success(s) => 0,
        _ => 1,
    }
}

/// Law: a health check succeeds exactly where a response came that begins with the status 200 of
/// HTTP 1.0 or 1.1, whatever follows it.
pub proof fn law_health_goes_by_the_status(response: Seq<char>)
    ensures
        exit_code(None) == 1,
        exit_code(Some(response)) == 0 || exit_code(Some(response)) == 1,
        exit_code(Some("HTTP/1.1 200"@ + response)) == 0,
        exit_code(Some("HTTP/1.0 200"@ + response)) == 0,
        exit_code(Some(response)) == 0 ==> response.len() >= 12 && (response.take(12)
            == "HTTP/1.1 200"@ || response.take(12) == "HTTP/1.0 200"@),
{
    reveal_strlit("HTTP/1.1 200");
    reveal_strlit("HTTP/1.0 200");
    assert("HTTP/1.1 200"@ =~= ("HTTP/1.1 200"@ + response).subrange(0, 12));
    assert("HTTP/1.0 200"@ =~= ("HTTP/1.0 200"@ + response).subrange(0, 12));
}

/// The exit code of a health check, from the response of the local instance, if there was one:
/// 0 where it reports ready.
pub fn healthcheck(response: Option<&str>) -> (r: i32)
    ensures
        r == exit_code(
            match response {
                Some(s) => Some(s@),
                None => None,
            },
        ),
{
    let ready = match response {
        Some(s) => text::starts_with(s, "HTTP/1.1 200") || text::starts_with(s, "HTTP/1.0 200"),
        None => false,
    };
    if ready {
        0
    } else {
        1
    }
}

} // verus!
