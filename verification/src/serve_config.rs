//! The settings of `rmlx serve`: how flags, a profile and the defaults make
//! them, and which of them are refused.

use vstd::prelude::*;
use vstd::string::*;

use crate::keep_alive::{duration_spec, parse_duration_spec, DurationSpecError, KeepAlivePolicy};
use crate::ssd_tier::NamespaceMap;
use crate::state::opt_text;
use crate::text::{
    chars_of, decimal, decimal_text, is_number, join3, lemma_decimal_number, number_of, str_eq,
};

verus! {

pub const DEFAULT_SERVE_PORT: u16 = 8080;

pub const DEFAULT_PROMPT_CACHE_SLOTS: usize = 4;

/// The most tokens that a request may ask for, whatever the operator allows.
pub const MAX_COMPLETION_TOKENS: u32 = 1_048_576;

pub const DEFAULT_MAX_TIMEOUT_SECS: u64 = 600;

pub const DEFAULT_MAX_LOADED_MODELS: usize = 1;

pub const DEFAULT_MAX_QUEUE_DEPTH: usize = 64;

/// What was passed on the command line. `F` is the type of temperatures.
#[derive(Debug)]
pub struct ServeFlags<F> {
    pub model: Option<String>,
    pub registry: Option<String>,
    pub port: Option<u16>,
    pub host: Option<String>,
    pub device: Option<String>,
    pub kv_quant: Option<String>,
    pub max_ctx: Option<u32>,
    pub idle_timeout: Option<String>,
    pub prompt_cache_slots: Option<usize>,
    pub draft_model: Option<String>,
    pub max_tokens_cap: Option<u32>,
    pub max_timeout_secs: Option<u64>,
    pub max_loaded_models: Option<usize>,
    pub max_queue_depth: Option<usize>,
    pub default_temperature: Option<F>,
}

/// What a named profile sets. Its idle timeout is a number of seconds.
#[derive(Debug)]
pub struct ServeProfile<F> {
    pub model: Option<String>,
    pub registry: Option<String>,
    pub port: Option<u16>,
    pub host: Option<String>,
    pub device: Option<String>,
    pub kv_quant: Option<String>,
    pub max_ctx: Option<u32>,
    pub idle_timeout_secs: Option<u64>,
    pub prompt_cache_slots: Option<usize>,
    pub draft_model: Option<String>,
    pub max_tokens_cap: Option<u32>,
    pub max_timeout_secs: Option<u64>,
    pub max_loaded_models: Option<usize>,
    pub max_queue_depth: Option<usize>,
    pub default_temperature: Option<F>,
}

/// The settings that are in force.
#[derive(Debug)]
pub struct ServeConfig<F> {
    pub model: Option<String>,
    pub registry: Option<String>,
    pub port: u16,
    pub host: String,
    pub device: String,
    pub kv_quant: String,
    pub max_ctx: Option<u32>,
    pub idle_timeout: Option<String>,
    pub prompt_cache_slots: usize,
    pub draft_model: Option<String>,
    pub max_tokens_cap: u32,
    pub max_timeout_secs: u64,
    pub max_loaded_models: usize,
    pub max_queue_depth: usize,
    pub default_temperature: Option<F>,
}

/// The first of two values that is there.
pub open spec fn first_of<T>(a: Option<T>, b: Option<T>) -> Option<T> {
    if a is Some {
        a
    } else {
        b
    }
}

/// The first of two values that is there, else the last one.
pub open spec fn first_or<T>(a: Option<T>, b: Option<T>, c: T) -> T {
    match first_of(a, b) {
        Some(v) => v,
        None => c,
    }
}

fn pick<T>(a: Option<T>, b: Option<T>) -> (r: Option<T>)
    ensures
        r == first_of(a, b),
{
    match a {
        Some(v) => Some(v),
        None => b,
    }
}

fn pick_text(a: Option<String>, b: Option<String>) -> (r: Option<String>)
    ensures
        opt_text(r) == first_of(opt_text(a), opt_text(b)),
{
    match a {
        Some(v) => Some(v),
        None => b,
    }
}

fn text_or(a: Option<String>, fallback: &str) -> (r: String)
    ensures
        r@ == (match opt_text(a) {
            Some(s) => s,
            None => fallback@,
        }),
{
    match a {
        Some(v) => v,
        None => fallback.to_owned(),
    }
}

fn value_or<T>(a: Option<T>, fallback: T) -> (r: T)
    ensures
        r == (match a {
            Some(v) => v,
            None => fallback,
        }),
{
    match a {
        Some(v) => v,
        None => fallback,
    }
}

/// A profile that sets nothing.
pub fn no_profile<F>() -> (r: ServeProfile<F>)
    ensures
        r.model is None && r.registry is None && r.port is None && r.host is None,
        r.device is None && r.kv_quant is None && r.max_ctx is None,
        r.idle_timeout_secs is None && r.prompt_cache_slots is None && r.draft_model is None,
        r.max_tokens_cap is None && r.max_timeout_secs is None && r.max_loaded_models is None,
        r.max_queue_depth is None && r.default_temperature is None,
{
    ServeProfile {
        model: None,
        registry: None,
        port: None,
        host: None,
        device: None,
        kv_quant: None,
        max_ctx: None,
        idle_timeout_secs: None,
        prompt_cache_slots: None,
        draft_model: None,
        max_tokens_cap: None,
        max_timeout_secs: None,
        max_loaded_models: None,
        max_queue_depth: None,
        default_temperature: None,
    }
}

/// Whether the settings are what the flags make of the profile: a flag wins over
/// the profile, and the profile over the default.
pub open spec fn merged<F>(flags: ServeFlags<F>, profile: ServeProfile<F>, r: ServeConfig<F>) -> bool {
    &&& opt_text(r.model) == first_of(opt_text(flags.model), opt_text(profile.model))
    &&& opt_text(r.registry) == first_of(opt_text(flags.registry), opt_text(profile.registry))
    &&& r.port == first_or(flags.port, profile.port, DEFAULT_SERVE_PORT)
    &&& r.host@ == first_or(opt_text(flags.host), opt_text(profile.host), "127.0.0.1"@)
    &&& r.device@ == first_or(opt_text(flags.device), opt_text(profile.device), "gpu"@)
    &&& r.kv_quant@ == first_or(opt_text(flags.kv_quant), opt_text(profile.kv_quant), "auto"@)
    &&& r.max_ctx == first_of(flags.max_ctx, profile.max_ctx)
    &&& opt_text(r.idle_timeout) == first_of(
        opt_text(flags.idle_timeout),
        match profile.idle_timeout_secs {
            Some(n) => Some(decimal_text(n as nat)),
            None => None,
        },
    )
    &&& r.prompt_cache_slots == first_or(
        flags.prompt_cache_slots,
        profile.prompt_cache_slots,
        DEFAULT_PROMPT_CACHE_SLOTS,
    )
    &&& opt_text(r.draft_model) == first_of(
        opt_text(flags.draft_model),
        opt_text(profile.draft_model),
    )
    &&& r.max_tokens_cap == first_or(
        flags.max_tokens_cap,
        profile.max_tokens_cap,
        MAX_COMPLETION_TOKENS,
    )
    &&& r.max_timeout_secs == first_or(
        flags.max_timeout_secs,
        profile.max_timeout_secs,
        DEFAULT_MAX_TIMEOUT_SECS,
    )
    &&& r.max_loaded_models == first_or(
        flags.max_loaded_models,
        profile.max_loaded_models,
        DEFAULT_MAX_LOADED_MODELS,
    )
    &&& r.max_queue_depth == first_or(
        flags.max_queue_depth,
        profile.max_queue_depth,
        DEFAULT_MAX_QUEUE_DEPTH,
    )
    &&& r.default_temperature == first_of(flags.default_temperature, profile.default_temperature)
}

/// Merges the flags into a profile and the defaults.
pub fn merge_serve_settings<F>(flags: ServeFlags<F>, profile: ServeProfile<F>) -> (r: ServeConfig<
    F,
>)
    ensures
        merged(flags, profile, r),
{
    let profile_idle: Option<String> = match profile.idle_timeout_secs {
        Some(n) => Some(decimal(n)),
        None => None,
    };
    ServeConfig {
        model: pick_text(flags.model, profile.model),
        registry: pick_text(flags.registry, profile.registry),
        port: value_or(pick(flags.port, profile.port), DEFAULT_SERVE_PORT),
        host: text_or(pick_text(flags.host, profile.host), "127.0.0.1"),
        device: text_or(pick_text(flags.device, profile.device), "gpu"),
        kv_quant: text_or(pick_text(flags.kv_quant, profile.kv_quant), "auto"),
        max_ctx: pick(flags.max_ctx, profile.max_ctx),
        idle_timeout: pick_text(flags.idle_timeout, profile_idle),
        prompt_cache_slots: value_or(
            pick(flags.prompt_cache_slots, profile.prompt_cache_slots),
            DEFAULT_PROMPT_CACHE_SLOTS,
        ),
        draft_model: pick_text(flags.draft_model, profile.draft_model),
        max_tokens_cap: value_or(
            pick(flags.max_tokens_cap, profile.max_tokens_cap),
            MAX_COMPLETION_TOKENS,
        ),
        max_timeout_secs: value_or(
            pick(flags.max_timeout_secs, profile.max_timeout_secs),
            DEFAULT_MAX_TIMEOUT_SECS,
        ),
        max_loaded_models: value_or(
            pick(flags.max_loaded_models, profile.max_loaded_models),
            DEFAULT_MAX_LOADED_MODELS,
        ),
        max_queue_depth: value_or(
            pick(flags.max_queue_depth, profile.max_queue_depth),
            DEFAULT_MAX_QUEUE_DEPTH,
        ),
        default_temperature: pick(flags.default_temperature, profile.default_temperature),
    }
}

/// The sign of a number that need not be one.
#[derive(Debug, Clone, Copy, PartialEq, Eq, Structural)]
pub enum Sign {
    Negative,
    Zero,
    Positive,
    NotANumber,
}

/// What is checked of the settings before the server starts.
#[derive(Debug)]
pub struct ServeChecks {
    pub model_given: bool,
    pub registry_given: bool,
    /// Whether the default temperature, if there is one, is between 0 and 2.
    pub temperature_in_range: bool,
    pub kv_ssd_cache: Sign,
    pub project_given: bool,
    pub kv_ssd_global: Sign,
    /// Whether the RAM cap, if there is one, is a finite number of at least 0.
    pub prompt_cache_ram_valid: bool,
    pub paged_kv: bool,
    pub cache_type_k: Option<String>,
    pub paged_kv_page_tokens: Option<i32>,
    pub image_max_tokens: Option<usize>,
}

/// Why the settings are refused.
#[derive(Debug, Clone, Copy, PartialEq, Eq, Structural)]
pub enum ServeRefusal {
    ModelAndRegistry,
    TemperatureOutOfRange,
    NegativeSsdCache,
    ProjectWithoutSsdCache,
    NegativeSsdGlobal,
    InvalidPromptCacheRam,
    PagedRotK,
    PagedPageTokens,
    ZeroImageTokens,
}

pub open spec fn ascii_lower(c: char) -> char {
    if 'A' <= c <= 'Z' {
        (c as u32 + 32) as char
    } else {
        c
    }
}

/// Whether a K codec rotates: its tag begins with `rot_k`, in either case.
pub open spec fn is_rot_k(tag: Seq<char>) -> bool {
    &&& tag.len() >= 5
    &&& ascii_lower(tag[0]) == 'r'
    &&& ascii_lower(tag[1]) == 'o'
    &&& ascii_lower(tag[2]) == 't'
    &&& tag[3] == '_'
    &&& ascii_lower(tag[4]) == 'k'
}

/// Whether a K codec rotates: its tag begins with `rot_k`, in either case.
pub fn rotates_k(tag: &str) -> (r: bool)
    ensures
        r == is_rot_k(tag@),
{
    let cs: Vec<char> = chars_of(tag);
    cs.len() >= 5 && (cs[0] == 'r' || cs[0] == 'R') && (cs[1] == 'o' || cs[1] == 'O') && (cs[2]
        == 't' || cs[2] == 'T') && cs[3] == '_' && (cs[4] == 'k' || cs[4] == 'K')
}

impl ServeChecks {
    /// The first check that the settings fail, in the order in which they are
    /// made.
    pub open spec fn refusal(self) -> Option<ServeRefusal> {
        if self.model_given && self.registry_given {
            Some(ServeRefusal::ModelAndRegistry)
        } else if !self.temperature_in_range {
            Some(ServeRefusal::TemperatureOutOfRange)
        } else if self.kv_ssd_cache == Sign::Negative {
            Some(ServeRefusal::NegativeSsdCache)
        } else if self.project_given && self.kv_ssd_cache == Sign::Zero {
            Some(ServeRefusal::ProjectWithoutSsdCache)
        } else if self.kv_ssd_global == Sign::Negative {
            Some(ServeRefusal::NegativeSsdGlobal)
        } else if !self.prompt_cache_ram_valid {
            Some(ServeRefusal::InvalidPromptCacheRam)
        } else if self.paged_kv && self.cache_type_k is Some && is_rot_k(self.cache_type_k->0@) {
            Some(ServeRefusal::PagedRotK)
        } else if self.paged_kv && self.paged_kv_page_tokens is Some && self.paged_kv_page_tokens->0
            <= 0 {
            Some(ServeRefusal::PagedPageTokens)
        } else if self.image_max_tokens == Some(0usize) {
            Some(ServeRefusal::ZeroImageTokens)
        } else {
            None
        }
    }

    /// Whether the settings may be served with.
    pub fn check(&self) -> (r: Result<(), ServeRefusal>)
        ensures
            match self.refusal() {
                Some(e) => r == Err::<(), ServeRefusal>(e),
                None => r is Ok,
            },
    {
        if self.model_given && self.registry_given {
            return Err(ServeRefusal::ModelAndRegistry);
        }
        if !self.temperature_in_range {
            return Err(ServeRefusal::TemperatureOutOfRange);
        }
        if self.kv_ssd_cache == Sign::Negative {
            return Err(ServeRefusal::NegativeSsdCache);
        }
        if self.project_given && self.kv_ssd_cache == Sign::Zero {
            return Err(ServeRefusal::ProjectWithoutSsdCache);
        }
        if self.kv_ssd_global == Sign::Negative {
            return Err(ServeRefusal::NegativeSsdGlobal);
        }
        if !self.prompt_cache_ram_valid {
            return Err(ServeRefusal::InvalidPromptCacheRam);
        }
        if self.paged_kv {
            if let Some(tag) = &self.cache_type_k {
                if rotates_k(tag.as_str()) {
                    return Err(ServeRefusal::PagedRotK);
                }
            }
            if let Some(n) = self.paged_kv_page_tokens {
                if n <= 0 {
                    return Err(ServeRefusal::PagedPageTokens);
                }
            }
        }
        if let Some(n) = self.image_max_tokens {
            if n == 0 {
                return Err(ServeRefusal::ZeroImageTokens);
            }
        }
        Ok(())
    }
}

impl ServeRefusal {
    pub open spec fn text(self, shown: Seq<char>) -> Seq<char> {
        match self {
            ServeRefusal::ModelAndRegistry => "--model and --registry are mutually exclusive"@,
            ServeRefusal::TemperatureOutOfRange =>
                "--default-temperature must be in [0.0, 2.0], got "@ + shown,
            ServeRefusal::NegativeSsdCache =>
                "--kv-ssd-cache-gb must be >= 0 (0 = tier off), got "@ + shown,
            ServeRefusal::ProjectWithoutSsdCache =>
                "--project requires --kv-ssd-cache-gb > 0 (the SSD tier must be enabled)"@,
            ServeRefusal::NegativeSsdGlobal =>
                "--kv-ssd-global-gb must be >= 0 (0 = no global ceiling), got "@ + shown,
            ServeRefusal::InvalidPromptCacheRam =>
                "--prompt-cache-ram-gb must be a finite non-negative number, got "@ + shown,
            ServeRefusal::PagedRotK => "--paged-kv is incompatible with --cache-type-k "@ + shown
                + " (rot_k* not paged-compatible)"@,
            ServeRefusal::PagedPageTokens =>
                "--paged-kv-page-tokens must be a positive integer, got "@ + shown,
            ServeRefusal::ZeroImageTokens => "--image-max-tokens must be > 0"@,
        }
    }

    /// The message of a refusal. `shown` is the refused value as it was given.
    pub fn message(self, shown: &str) -> (r: String)
        ensures
            r@ == self.text(shown@),
    {
        match self {
            ServeRefusal::ModelAndRegistry => "--model and --registry are mutually exclusive".to_owned(),
            ServeRefusal::TemperatureOutOfRange => {
                let mut m: String = "--default-temperature must be in [0.0, 2.0], got ".to_owned();
                m.append(shown);
                m
            },
            ServeRefusal::NegativeSsdCache => {
                let mut m: String = "--kv-ssd-cache-gb must be >= 0 (0 = tier off), got ".to_owned();
                m.append(shown);
                m
            },
            ServeRefusal::ProjectWithoutSsdCache => "--project requires --kv-ssd-cache-gb > 0 (the SSD tier must be enabled)".to_owned(),
            ServeRefusal::NegativeSsdGlobal => {
                let mut m: String = "--kv-ssd-global-gb must be >= 0 (0 = no global ceiling), got ".to_owned();
                m.append(shown);
                m
            },
            ServeRefusal::InvalidPromptCacheRam => {
                let mut m: String = "--prompt-cache-ram-gb must be a finite non-negative number, got ".to_owned();
                m.append(shown);
                m
            },
            ServeRefusal::PagedRotK => join3(
                "--paged-kv is incompatible with --cache-type-k ",
                shown,
                " (rot_k* not paged-compatible)",
            ),
            ServeRefusal::PagedPageTokens => {
                let mut m: String = "--paged-kv-page-tokens must be a positive integer, got ".to_owned();
                m.append(shown);
                m
            },
            ServeRefusal::ZeroImageTokens => "--image-max-tokens must be > 0".to_owned(),
        }
    }
}

/// Where the KV codec of a server comes from.
#[derive(Debug, Clone, Copy, PartialEq, Eq, Structural)]
pub enum KvSource {
    /// The named preset.
    Preset,
    /// The bit width, in groups of this size.
    Bits { group_size: usize },
    /// The codec's name, or the codecs of the two sides.
    Named,
    /// The codecs of the two sides without a model to hold them against.
    /// Refused with exit code 78.
    SidesWithoutModel,
}

/// The exit code of a server that is configured in a way it cannot run.
pub const EXIT_CONFIG: i32 = 78;

/// Where the KV codec comes from: a preset wins over a bit width, and a bit width
/// over a name. The codecs of the two sides are only looked at behind both, and
/// need a model.
pub fn kv_source(
    model_given: bool,
    preset_given: bool,
    bits_given: bool,
    group_size: Option<usize>,
    sides_given: bool,
) -> (r: KvSource)
    ensures
        r == (if preset_given {
            KvSource::Preset
        } else if bits_given {
            KvSource::Bits {
                group_size: match group_size {
                    Some(g) => g,
                    None => 64,
                },
            }
        } else if sides_given && !model_given {
            KvSource::SidesWithoutModel
        } else {
            KvSource::Named
        }),
{
    if preset_given {
        KvSource::Preset
    } else if bits_given {
        KvSource::Bits { group_size: value_or(group_size, 64) }
    } else if sides_given && !model_given {
        KvSource::SidesWithoutModel
    } else {
        KvSource::Named
    }
}

/// The device that inference runs on.
#[derive(Debug, Clone, Copy, PartialEq, Eq, Structural)]
pub enum Device {
    Cpu,
    Gpu,
}

/// Reads `--device`.
pub fn parse_device(s: &str) -> (r: Result<Device, String>)
    ensures
        match r {
            Ok(Device::Cpu) => s@ == "cpu"@,
            Ok(Device::Gpu) => s@ == "gpu"@,
            Err(m) => {
                &&& s@ != "cpu"@
                &&& s@ != "gpu"@
                &&& m@ == "--device must be 'cpu' or 'gpu', got '"@ + s@ + "'"@
            },
        },
        s@ == "cpu"@ ==> r == Ok::<Device, String>(Device::Cpu),
        s@ == "gpu"@ ==> r == Ok::<Device, String>(Device::Gpu),
{
    proof {
        reveal_strlit("cpu");
        reveal_strlit("gpu");
        assert("cpu"@[0] != "gpu"@[0]);
    }
    if str_eq(s, "cpu") {
        Ok(Device::Cpu)
    } else if str_eq(s, "gpu") {
        Ok(Device::Gpu)
    } else {
        Err(join3("--device must be 'cpu' or 'gpu', got '", s, "'"))
    }
}

/// Where the models of a server come from.
#[derive(Debug, Clone, Copy, PartialEq, Eq, Structural)]
pub enum RegistrySource {
    File,
    Model,
    Empty,
}

/// Where the models come from: a registry file wins over a single model.
pub fn registry_source(file_given: bool, model_given: bool) -> (r: RegistrySource)
    ensures
        r == (if file_given {
            RegistrySource::File
        } else if model_given {
            RegistrySource::Model
        } else {
            RegistrySource::Empty
        }),
{
    if file_given {
        RegistrySource::File
    } else if model_given {
        RegistrySource::Model
    } else {
        RegistrySource::Empty
    }
}

/// The architecture that a checkpoint is loaded as: the first that its
/// configuration names.
pub fn architecture_name(architectures: &Vec<String>) -> (r: String)
    ensures
        r@ == (if architectures@.len() > 0 {
            architectures@[0]@
        } else {
            "(empty)"@
        }),
{
    if architectures.len() > 0 {
        architectures[0].clone()
    } else {
        "(empty)".to_owned()
    }
}

/// The message for an architecture that cannot be loaded.
pub fn unsupported_architecture(name: &str) -> (r: String)
    ensures
        r@ == "error: architecture '"@ + name@ + "' not yet supported in v0.0.1"@,
{
    join3("error: architecture '", name, "' not yet supported in v0.0.1")
}

/// The policy of freshly loaded models: the one that the flag names, else the
/// default.
pub fn idle_policy(spec: Option<&str>) -> (r: Result<KeepAlivePolicy, DurationSpecError>)
    ensures
        r == (match spec {
            Some(s) => duration_spec(s@),
            None => Ok(KeepAlivePolicy::Idle(900_000)),
        }),
{
    match spec {
        Some(s) => match parse_duration_spec(s) {
            Ok(p) => Ok(KeepAlivePolicy::resolve(None, Some(p))),
            Err(e) => Err(e),
        },
        None => Ok(KeepAlivePolicy::resolve(None, None)),
    }
}

/// What is done about the KV calibration next to a snapshot.
#[derive(Debug, Clone, Copy, PartialEq, Eq, Structural)]
pub enum CalibrationStep {
    /// There is no calibration file.
    Absent,
    /// The calibration is read for heads of this size.
    Discover(u32),
    /// The checkpoint does not say how large its heads are. Worth a warning.
    NoHeadDim,
    /// The checkpoint's configuration cannot be read. Worth a warning.
    NoConfig,
}

/// What is done about a calibration file: it is only read where the checkpoint's
/// configuration is readable (`config` is `Some`) and gives a head size.
pub fn calibration_step(file_present: bool, config: Option<Option<u32>>) -> (r: CalibrationStep)
    ensures
        r == (if !file_present {
            CalibrationStep::Absent
        } else {
            match config {
                Some(Some(head_dim)) => CalibrationStep::Discover(head_dim),
                Some(None) => CalibrationStep::NoHeadDim,
                None => CalibrationStep::NoConfig,
            }
        }),
{
    if !file_present {
        return CalibrationStep::Absent;
    }
    match config {
        Some(Some(head_dim)) => CalibrationStep::Discover(head_dim),
        Some(None) => CalibrationStep::NoHeadDim,
        None => CalibrationStep::NoConfig,
    }
}

/// What is done about the head budgets next to a snapshot.
#[derive(Debug, Clone, Copy, PartialEq, Eq, Structural)]
pub enum HeadBudgetStep {
    /// There are none.
    Absent,
    /// They become part of the calibration.
    Attach,
    /// There is no calibration that they could become part of. Worth a warning.
    WithoutCalibration,
    /// They cannot be read. Worth a warning; the model is loaded without them.
    Malformed,
}

/// What is done about head budgets: `loaded` is `None` where the file cannot be
/// read, else whether there is one.
pub fn head_budget_step(loaded: Option<bool>, calibrated: bool) -> (r: HeadBudgetStep)
    ensures
        r == (match loaded {
            None => HeadBudgetStep::Malformed,
            Some(false) => HeadBudgetStep::Absent,
            Some(true) => if calibrated {
                HeadBudgetStep::Attach
            } else {
                HeadBudgetStep::WithoutCalibration
            },
        }),
{
    match loaded {
        None => HeadBudgetStep::Malformed,
        Some(present) => {
            if !present {
                HeadBudgetStep::Absent
            } else if calibrated {
                HeadBudgetStep::Attach
            } else {
                HeadBudgetStep::WithoutCalibration
            }
        },
    }
}

/// The SSD budgets of the projects: what each section sets, in turn.
pub open spec fn section_budgets(sections: Seq<(String, Option<u64>)>) -> Map<Seq<char>, u64>
    decreases sections.len(),
{
    if sections.len() == 0 {
        Map::empty()
    } else {
        let before = section_budgets(sections.drop_last());
        match sections.last().1 {
            Some(bytes) => before.insert(sections.last().0@, bytes),
            None => before,
        }
    }
}

/// The SSD budgets of the projects. The active project has the budget that the
/// flags and its section resolved to, not the one in its section.
pub fn project_budgets(
    sections: &Vec<(String, Option<u64>)>,
    project: Option<&str>,
    per_namespace_bytes: u64,
) -> (r: NamespaceMap)
    ensures
        r.wf(),
        r@ == (match project {
            Some(name) => section_budgets(sections@).insert(name@, per_namespace_bytes),
            None => section_budgets(sections@),
        }),
{
    let mut m: NamespaceMap = NamespaceMap::new();
    let mut i: usize = 0;
    assert(sections@.take(0) =~= Seq::<(String, Option<u64>)>::empty());
    while i < sections.len()
        invariant
            i <= sections.len(),
            m.wf(),
            m@ == section_budgets(sections@.take(i as int)),
        decreases sections.len() - i,
    {
        assert(sections@.take(i + 1).drop_last() =~= sections@.take(i as int));
        if let Some(bytes) = sections[i].1 {
            m.insert(sections[i].0.as_str(), bytes);
        }
        i += 1;
    }
    assert(sections@.take(i as int) =~= sections@);
    if let Some(name) = project {
        m.insert(name, per_namespace_bytes);
    }
    m
}

/// What a snapshot is loaded as.
#[derive(Debug, Clone, Copy, PartialEq, Eq, Structural)]
pub enum GeneratorKind {
    /// The model by itself.
    Single,
    /// The model as the verifier of a drafter.
    Speculative,
}

/// What snapshots are loaded as: with a drafter where one is given.
pub fn generator_kind(draft_given: bool) -> (r: GeneratorKind)
    ensures
        r == (if draft_given {
            GeneratorKind::Speculative
        } else {
            GeneratorKind::Single
        }),
{
    if draft_given {
        GeneratorKind::Speculative
    } else {
        GeneratorKind::Single
    }
}

/// Whether one more request is admitted beside those that are under way. A depth of
/// zero sets no bound. A request that is not admitted is answered with status 429.
pub fn admits(pending: usize, max_queue_depth: usize) -> (r: bool)
    ensures
        r == (max_queue_depth == 0 || pending < max_queue_depth),
{
    max_queue_depth == 0 || pending < max_queue_depth
}

/// The prompt-cache slots of a request in a session: the configured ones, and one for
/// every session. A cache that is switched off stays so.
pub fn effective_prompt_cache_slots(base: usize, active_sessions: usize) -> (r: usize)
    requires
        base + active_sessions <= usize::MAX,
    ensures
        r == (if base == 0 {
            0
        } else {
            base + active_sessions
        }),
{
    if base == 0 {
        0
    } else {
        base + active_sessions
    }
}

/// Whether the model may think: as the request says, else as the operator says, else
/// it may.
pub fn thinking_enabled(request: Option<bool>, server: Option<bool>) -> (r: bool)
    ensures
        r == first_or(request, server, true),
{
    value_or(pick(request, server), true)
}

/// The token budget of an image: the request's, else the operator's; `None` leaves it
/// to the snapshot.
pub fn image_token_budget(request: Option<usize>, server: Option<usize>) -> (r: Option<usize>)
    ensures
        r == first_of(request, server),
{
    pick(request, server)
}

/// The queue depth that the admission controller starts from.
pub fn controller_depth(max_queue_depth: usize) -> (r: usize)
    ensures
        r == (if max_queue_depth == 0 {
            1
        } else {
            max_queue_depth
        }),
{
    if max_queue_depth == 0 {
        1
    } else {
        max_queue_depth
    }
}

/// The address that a server is asked to listen on.
pub fn listen_address(host: &str, port: u16) -> (r: String)
    ensures
        r@ == host@ + ":"@ + decimal_text(port as nat),
{
    join3(host, ":", decimal(port as u64).as_str())
}

/// Whether a text is the flag's where there is one, else the profile's, else the given one.
pub open spec fn nearest_text(
    r: Seq<char>,
    flag: Option<String>,
    profile: Option<String>,
    otherwise: Seq<char>,
) -> bool {
    &&& flag is Some ==> r == flag->0@
    &&& flag is None && profile is Some ==> r == profile->0@
    &&& flag is None && profile is None ==> r == otherwise
}

/// Whether a text is the flag's where there is one, else the profile's, and is missing where
/// both are.
pub open spec fn nearest_text_if_any(
    r: Option<String>,
    flag: Option<String>,
    profile: Option<String>,
) -> bool {
    &&& r is Some <==> flag is Some || profile is Some
    &&& flag is Some ==> r is Some && r->0@ == flag->0@
    &&& flag is None && profile is Some ==> r is Some && r->0@ == profile->0@
}

/// Whether a value is the flag's where there is one, else the profile's, else the given one.
pub open spec fn nearest<T>(r: T, flag: Option<T>, profile: Option<T>, otherwise: T) -> bool {
    &&& flag is Some ==> r == flag->0
    &&& flag is None && profile is Some ==> r == profile->0
    &&& flag is None && profile is None ==> r == otherwise
}

/// Whether a value is the flag's where there is one, else the profile's, and is missing where
/// both are.
pub open spec fn nearest_if_any<T>(r: Option<T>, flag: Option<T>, profile: Option<T>) -> bool {
    &&& flag is Some ==> r == flag
    &&& flag is None ==> r == profile
}

/// Every setting is the flag's where there is one, else the profile's, else the default, and
/// no setting depends on another.
pub proof fn the_nearest_setting_decides<F>(
    flags: ServeFlags<F>,
    profile: ServeProfile<F>,
    r: ServeConfig<F>,
)
    requires
        call_ensures(merge_serve_settings::<F>, (flags, profile), r),
    ensures
        nearest_text_if_any(r.model, flags.model, profile.model),
        nearest_text_if_any(r.registry, flags.registry, profile.registry),
        nearest_text_if_any(r.draft_model, flags.draft_model, profile.draft_model),
        nearest(r.port, flags.port, profile.port, 8080),
        nearest_text(r.host@, flags.host, profile.host, "127.0.0.1"@),
        nearest_text(r.device@, flags.device, profile.device, "gpu"@),
        nearest_text(r.kv_quant@, flags.kv_quant, profile.kv_quant, "auto"@),
        nearest_if_any(r.max_ctx, flags.max_ctx, profile.max_ctx),
        nearest(r.prompt_cache_slots, flags.prompt_cache_slots, profile.prompt_cache_slots, 4),
        nearest(r.max_tokens_cap, flags.max_tokens_cap, profile.max_tokens_cap, 1_048_576),
        nearest(r.max_timeout_secs, flags.max_timeout_secs, profile.max_timeout_secs, 600),
        nearest(r.max_loaded_models, flags.max_loaded_models, profile.max_loaded_models, 1),
        nearest(r.max_queue_depth, flags.max_queue_depth, profile.max_queue_depth, 64),
        nearest_if_any(
            r.default_temperature,
            flags.default_temperature,
            profile.default_temperature,
        ),
        r.idle_timeout is Some <==> flags.idle_timeout is Some || profile.idle_timeout_secs is Some,
        flags.idle_timeout is Some ==> r.idle_timeout is Some && r.idle_timeout->0@
            == flags.idle_timeout->0@,
        flags.idle_timeout is None && profile.idle_timeout_secs is Some ==> r.idle_timeout is Some
            && is_number(r.idle_timeout->0@) && number_of(r.idle_timeout->0@)
            == profile.idle_timeout_secs->0,
{
    if profile.idle_timeout_secs is Some {
        lemma_decimal_number(profile.idle_timeout_secs->0);
    }
}

/// Whether a codec's tag begins with `rot_k`, in whichever case.
pub open spec fn begins_rot_k(tag: Seq<char>) -> bool {
    &&& tag.len() >= 5
    &&& tag[0] == 'r' || tag[0] == 'R'
    &&& tag[1] == 'o' || tag[1] == 'O'
    &&& tag[2] == 't' || tag[2] == 'T'
    &&& tag[3] == '_'
    &&& tag[4] == 'k' || tag[4] == 'K'
}

/// Whether the settings fail the check that a refusal stands for.
pub open spec fn fails(c: ServeChecks, e: ServeRefusal) -> bool {
    match e {
        ServeRefusal::ModelAndRegistry => c.model_given && c.registry_given,
        ServeRefusal::TemperatureOutOfRange => !c.temperature_in_range,
        ServeRefusal::NegativeSsdCache => c.kv_ssd_cache is Negative,
        ServeRefusal::ProjectWithoutSsdCache => c.project_given && c.kv_ssd_cache is Zero,
        ServeRefusal::NegativeSsdGlobal => c.kv_ssd_global is Negative,
        ServeRefusal::InvalidPromptCacheRam => !c.prompt_cache_ram_valid,
        ServeRefusal::PagedRotK => c.paged_kv && c.cache_type_k is Some && begins_rot_k(
            c.cache_type_k->0@,
        ),
        ServeRefusal::PagedPageTokens => c.paged_kv && c.paged_kv_page_tokens is Some
            && c.paged_kv_page_tokens->0 <= 0,
        ServeRefusal::ZeroImageTokens => c.image_max_tokens == Some(0usize),
    }
}

/// The place of a check in the order in which they are made.
pub open spec fn place(e: ServeRefusal) -> int {
    match e {
        ServeRefusal::ModelAndRegistry => 0,
        ServeRefusal::TemperatureOutOfRange => 1,
        ServeRefusal::NegativeSsdCache => 2,
        ServeRefusal::ProjectWithoutSsdCache => 3,
        ServeRefusal::NegativeSsdGlobal => 4,
        ServeRefusal::InvalidPromptCacheRam => 5,
        ServeRefusal::PagedRotK => 6,
        ServeRefusal::PagedPageTokens => 7,
        ServeRefusal::ZeroImageTokens => 8,
    }
}

/// Settings are refused for a check that they fail, the first of them, and accepted where
/// they fail none.
pub proof fn settings_are_refused_for_their_first_failure(
    c: ServeChecks,
    r: Result<(), ServeRefusal>,
    e: ServeRefusal,
)
    requires
        call_ensures(ServeChecks::check, (&c,), r),
    ensures
        r is Ok ==> !fails(c, e),
        r is Err ==> fails(c, r->Err_0),
        r is Err && fails(c, e) ==> place(r->Err_0) <= place(e),
{
    if c.cache_type_k is Some {
        lemma_rot_k(c.cache_type_k->0@);
    }
}

proof fn lemma_rot_k(tag: Seq<char>)
    ensures
        is_rot_k(tag) == begins_rot_k(tag),
{
    if tag.len() >= 5 {
        lemma_lower(tag[0], 'r', 'R');
        lemma_lower(tag[1], 'o', 'O');
        lemma_lower(tag[2], 't', 'T');
        lemma_lower(tag[4], 'k', 'K');
    }
}

proof fn lemma_lower(c: char, small: char, large: char)
    requires
        'a' <= small <= 'z',
        'A' <= large <= 'Z',
        small as u32 == large as u32 + 32,
    ensures
        ascii_lower(c) == small <==> c == small || c == large,
{
}

/// A codec rotates where its tag begins with `rot_k`, in whichever case.
pub proof fn a_codec_rotates_by_its_tag(tag: &str, r: bool)
    requires
        call_ensures(rotates_k, (tag,), r),
    ensures
        r == begins_rot_k(tag@),
{
    lemma_rot_k(tag@);
}

/// A refusal of a value shows the value as it was given, at its end or before a remark.
pub proof fn a_refusal_shows_the_value(e: ServeRefusal, shown: &str, r: String)
    requires
        call_ensures(ServeRefusal::message, (e, shown), r),
        e is TemperatureOutOfRange || e is NegativeSsdCache || e is NegativeSsdGlobal
            || e is InvalidPromptCacheRam || e is PagedPageTokens,
    ensures
        r@.len() >= shown@.len(),
        r@.skip(r@.len() - shown@.len()) == shown@,
{
    assert(r@.skip(r@.len() - shown@.len()) =~= shown@);
}

/// A preset wins over a bit width and a bit width over the rest. Codecs for the two sides
/// need a model.
pub proof fn the_nearest_codec_decides(
    model: bool,
    preset: bool,
    bits: bool,
    group_size: Option<usize>,
    sides: bool,
    r: KvSource,
)
    requires
        call_ensures(kv_source, (model, preset, bits, group_size, sides), r),
    ensures
        preset <==> r is Preset,
        !preset && bits <==> r is Bits,
        r is Bits && group_size is Some ==> r->group_size == group_size->0,
        r is Bits && group_size is None ==> r->group_size == 64,
        !preset && !bits && sides && !model <==> r is SidesWithoutModel,
        !preset && !bits && (!sides || model) <==> r is Named,
{
}

/// A device is one of two, by its name; any other text is refused and shown.
pub proof fn a_device_has_a_name(s: &str, r: Result<Device, String>)
    requires
        call_ensures(parse_device, (s,), r),
    ensures
        s@ == "cpu"@ <==> r == Ok::<Device, String>(Device::Cpu),
        s@ == "gpu"@ <==> r == Ok::<Device, String>(Device::Gpu),
        r is Err ==> r->Err_0@ == "--device must be 'cpu' or 'gpu', got '"@ + s@ + "'"@,
{
    reveal_strlit("cpu");
    reveal_strlit("gpu");
    assert("cpu"@[0] != "gpu"@[0]);
}

/// A registry file wins over a single model.
pub proof fn a_registry_file_comes_first(file: bool, model: bool, r: RegistrySource)
    requires
        call_ensures(registry_source, (file, model), r),
    ensures
        file <==> r is File,
        !file && model <==> r is Model,
        !file && !model <==> r is Empty,
{
}

/// The first architecture that is named counts.
pub proof fn the_first_architecture_counts(names: &Vec<String>, r: String)
    requires
        call_ensures(architecture_name, (names,), r),
    ensures
        names@.len() > 0 ==> r@ == names@[0]@,
        names@.len() == 0 ==> r@ == "(empty)"@,
{
}

/// The policy of fresh models is what the flag says, read like any duration, and fifteen
/// minutes without a flag.
pub proof fn the_flag_sets_the_idle_policy(
    spec: Option<&str>,
    r: Result<KeepAlivePolicy, DurationSpecError>,
    q: Result<KeepAlivePolicy, DurationSpecError>,
)
    requires
        call_ensures(idle_policy, (spec,), r),
        spec is Some ==> call_ensures(parse_duration_spec, (spec->0,), q),
    ensures
        spec is Some ==> r == q,
        spec is None ==> r == Ok::<KeepAlivePolicy, DurationSpecError>(
            KeepAlivePolicy::Idle(900_000),
        ),
{
}

/// A calibration is read only where there is a file and a head size, and then for that size.
pub proof fn a_calibration_needs_a_head_size(
    file: bool,
    config: Option<Option<u32>>,
    r: CalibrationStep,
)
    requires
        call_ensures(calibration_step, (file, config), r),
    ensures
        !file <==> r is Absent,
        file && config is Some && config->0 is Some <==> r is Discover,
        r is Discover ==> r->Discover_0 == config->0->0,
        file && config is Some && config->0 is None <==> r is NoHeadDim,
        file && config is None <==> r is NoConfig,
{
}

/// Head budgets become part of a calibration that there is, and of none otherwise.
pub proof fn head_budgets_need_a_calibration(
    loaded: Option<bool>,
    calibrated: bool,
    r: HeadBudgetStep,
)
    requires
        call_ensures(head_budget_step, (loaded, calibrated), r),
    ensures
        loaded is None <==> r is Malformed,
        loaded == Some(false) <==> r is Absent,
        loaded == Some(true) && calibrated <==> r is Attach,
        loaded == Some(true) && !calibrated <==> r is WithoutCalibration,
{
}

/// Whether a section sets the budget of a project, and none behind it does.
pub open spec fn sets_last(
    sections: Seq<(String, Option<u64>)>,
    name: Seq<char>,
    i: int,
) -> bool {
    &&& 0 <= i < sections.len()
    &&& sections[i].0@ == name
    &&& sections[i].1 is Some
    &&& forall|j: int|
        i < j < sections.len() ==> !((#[trigger] sections[j]).0@ == name && sections[j].1 is Some)
}

proof fn lemma_budgets(sections: Seq<(String, Option<u64>)>, name: Seq<char>)
    ensures
        section_budgets(sections).contains_key(name) <==> exists|i: int| #[trigger]
            sets_last(sections, name, i),
        forall|i: int| #[trigger]
            sets_last(sections, name, i) ==> section_budgets(sections)[name] == sections[i].1->0,
    decreases sections.len(),
{
    if sections.len() > 0 {
        let d = sections.drop_last();
        let last = sections.len() - 1;
        lemma_budgets(d, name);
        if sections.last().0@ == name && sections.last().1 is Some {
            assert(sets_last(sections, name, last));
            assert forall|i: int| #[trigger] sets_last(sections, name, i) implies i == last by {
                if i < last {
                    assert(!(sections[last].0@ == name && sections[last].1 is Some));
                }
            }
        } else {
            assert forall|i: int| #[trigger]
                sets_last(sections, name, i) <==> #[trigger] sets_last(d, name, i) by {
                if sets_last(d, name, i) {
                    assert forall|j: int| i < j < sections.len() implies !((
                    #[trigger] sections[j]).0@ == name && sections[j].1 is Some) by {
                        if j < d.len() {
                            assert(!(d[j].0@ == name && d[j].1 is Some));
                        }
                    }
                }
                if sets_last(sections, name, i) {
                    assert forall|j: int| i < j < d.len() implies !((#[trigger] d[j]).0@ == name
                        && d[j].1 is Some) by {
                        assert(!(sections[j].0@ == name && sections[j].1 is Some));
                    }
                }
            }
            if exists|i: int| #[trigger] sets_last(d, name, i) {
                let i = choose|i: int| #[trigger] sets_last(d, name, i);
                assert(sets_last(sections, name, i));
            }
            if exists|i: int| #[trigger] sets_last(sections, name, i) {
                let i = choose|i: int| #[trigger] sets_last(sections, name, i);
                assert(sets_last(d, name, i));
            }
        }
    }
}

/// The active project has the budget that was resolved for it. Any other has what the last
/// section that sets its budget says, and none where no section does.
pub proof fn a_project_has_its_own_budget(
    sections: &Vec<(String, Option<u64>)>,
    project: Option<&str>,
    bytes: u64,
    r: NamespaceMap,
    name: Seq<char>,
    i: int,
)
    requires
        call_ensures(project_budgets, (sections, project, bytes), r),
    ensures
        project is Some ==> r@.contains_key(project->0@) && r@[project->0@] == bytes,
        (project is None || project->0@ != name) && sets_last(sections@, name, i)
            ==> r@.contains_key(name) && r@[name] == sections@[i].1->0,
        (project is None || project->0@ != name) && r@.contains_key(name) ==> exists|k: int|
            #[trigger] sets_last(sections@, name, k),
{
    lemma_budgets(sections@, name);
}

/// A drafter makes the difference.
pub proof fn a_drafter_makes_it_speculative(draft: bool, r: GeneratorKind)
    requires
        call_ensures(generator_kind, (draft,), r),
    ensures
        draft <==> r is Speculative,
{
}

/// A queue with a bound admits no request beyond it, and every one below it; one without a
/// bound admits all.
pub proof fn a_queue_is_filled_up_to_its_bound(pending: usize, depth: usize, r: bool)
    requires
        call_ensures(admits, (pending, depth), r),
    ensures
        depth == 0 ==> r,
        depth > 0 && pending < depth ==> r,
        depth > 0 && pending >= depth ==> !r,
{
}

/// Each session adds a slot to a prompt cache that is on, and none to one that is off.
pub proof fn each_session_adds_a_slot(
    base: usize,
    sessions: usize,
    r: usize,
    q: usize,
)
    requires
        sessions < usize::MAX,
        base + sessions + 1 <= usize::MAX,
        call_ensures(effective_prompt_cache_slots, (base, sessions), r),
        call_ensures(
            effective_prompt_cache_slots,
            (base, (sessions + 1) as usize),
            q,
        ),
    ensures
        base > 0 ==> q == r + 1,
        base > 0 && sessions == 0 ==> r == base,
        base == 0 ==> r == 0 && q == 0,
{
}

/// The request decides before the operator. Where neither does, the model may think, and the
/// snapshot sets the token budget of an image.
pub proof fn the_request_decides_before_the_operator(
    think: Option<bool>,
    server_think: Option<bool>,
    r: bool,
    budget: Option<usize>,
    server_budget: Option<usize>,
    q: Option<usize>,
)
    requires
        call_ensures(thinking_enabled, (think, server_think), r),
        call_ensures(image_token_budget, (budget, server_budget), q),
    ensures
        think is Some ==> r == think->0,
        think is None && server_think is Some ==> r == server_think->0,
        think is None && server_think is None ==> r,
        budget is Some ==> q == budget,
        budget is None ==> q == server_budget,
{
}

/// The admission controller starts from the queue's depth, and from one where it has none.
pub proof fn the_controller_starts_from_the_depth(depth: usize, r: usize)
    requires
        call_ensures(controller_depth, (depth,), r),
    ensures
        depth > 0 ==> r == depth,
        depth == 0 ==> r == 1,
{
}

/// An address is the host, a colon and the port in decimal digits.
pub proof fn an_address_names_host_and_port(host: &str, port: u16, r: String)
    requires
        call_ensures(listen_address, (host, port), r),
    ensures
        r@.len() > host@.len() + 1,
        r@.take(host@.len() as int) == host@,
        r@[host@.len() as int] == ':',
        is_number(r@.skip(host@.len() + 1int)),
        number_of(r@.skip(host@.len() + 1int)) == port,
{
    reveal_strlit(":");
    lemma_decimal_number(port as u64);
    let digits = decimal_text(port as nat);
    assert(r@.take(host@.len() as int) =~= host@);
    assert(r@.skip(host@.len() + 1int) =~= digits);
}

/// A refusal names the flag that is at fault; where a codec is, it is shown too.
pub proof fn a_refusal_names_its_flag(e: ServeRefusal, shown: &str, r: String)
    requires
        call_ensures(ServeRefusal::message, (e, shown), r),
    ensures
        e is ModelAndRegistry ==> r@ == "--model and --registry are mutually exclusive"@,
        e is ProjectWithoutSsdCache ==> r@
            == "--project requires --kv-ssd-cache-gb > 0 (the SSD tier must be enabled)"@,
        e is ZeroImageTokens ==> r@ == "--image-max-tokens must be > 0"@,
        e is PagedRotK ==> r@ == "--paged-kv is incompatible with --cache-type-k "@ + shown@
            + " (rot_k* not paged-compatible)"@,
        e is TemperatureOutOfRange ==> r@ == "--default-temperature must be in [0.0, 2.0], got "@
            + shown@,
        e is NegativeSsdCache ==> r@ == "--kv-ssd-cache-gb must be >= 0 (0 = tier off), got "@
            + shown@,
        e is NegativeSsdGlobal ==> r@
            == "--kv-ssd-global-gb must be >= 0 (0 = no global ceiling), got "@ + shown@,
        e is InvalidPromptCacheRam ==> r@
            == "--prompt-cache-ram-gb must be a finite non-negative number, got "@ + shown@,
        e is PagedPageTokens ==> r@ == "--paged-kv-page-tokens must be a positive integer, got "@
            + shown@,
{
}

/// An architecture that cannot be loaded is named.
pub proof fn an_unsupported_architecture_is_named(name: &str, r: String)
    requires
        call_ensures(unsupported_architecture, (name,), r),
    ensures
        r@ == "error: architecture '"@ + name@ + "' not yet supported in v0.0.1"@,
{
}

/// A profile that sets nothing leaves every setting to the flags and the defaults.
pub proof fn no_profile_sets_nothing<F>(
    flags: ServeFlags<F>,
    none: ServeProfile<F>,
    r: ServeConfig<F>,
)
    requires
        call_ensures(no_profile::<F>, (), none),
        call_ensures(merge_serve_settings::<F>, (flags, none), r),
    ensures
        flags.port is None ==> r.port == 8080,
        flags.host is None ==> r.host@ == "127.0.0.1"@,
        flags.model is None ==> r.model is None,
        flags.max_loaded_models is None ==> r.max_loaded_models == 1,
        flags.max_queue_depth is None ==> r.max_queue_depth == 64,
        flags.idle_timeout is None ==> r.idle_timeout is None,
        flags.default_temperature is None ==> r.default_temperature is None,
{
}

} // verus!
