//! Flags, gates, settings and the books of the SSD tier.

use axum::http::{HeaderMap, HeaderValue};
use rmlx_server::cli::{
    baseline_label, info_claims_device, metrics_db, metrics_mode, parse_draft_block_size,
    ppl_uses_cache, prompt_dirs, refuse_to_measure_off_the_pin, resolve_prompts_root, DraftKind,
    MetricsMode, PinCheck, PplKvFlags, PrefixIndexKind,
};
use rmlx_server::gates::{
    log_gate, resolve_dispatch_policy, resolve_turbo_flash, DispatchPolicy, FusedQkMode,
    PlanarFlashDecodeMode, PlanarFusedQkArg, RotKFusedMode, RotorQjlArg, SparseAttnMode,
    TurboFlashMode,
};
use rmlx_server::http::{authorize, resolve_request_id, MAX_BODY_BYTES};
use rmlx_server::keep_alive::{parse_duration_spec, DurationSpecError, KeepAlivePolicy};
use rmlx_server::metrics::{TtftSample, TtftStore, TTFT_RING_CAPACITY};
use rmlx_server::serve_config::{
    admits, architecture_name, calibration_step, controller_depth, effective_prompt_cache_slots,
    generator_kind, head_budget_step, idle_policy, image_token_budget, kv_source, listen_address,
    merge_serve_settings, no_profile, parse_device, project_budgets, registry_source,
    thinking_enabled, unsupported_architecture, CalibrationStep, Device, GeneratorKind,
    HeadBudgetStep, KvSource, RegistrySource, ServeChecks, ServeFlags, ServeProfile, ServeRefusal,
    Sign,
};
use rmlx_server::ssd_tier::{
    increment_ssd_evict_total, record_ssd_hydrate_obs, record_ssd_spill_obs, snapshot_ssd_tier,
    update_ssd_bytes_used, SsdTierAccum,
};
use rmlx_server::text::{decimal, parse_unsigned, IntParseError};
use rmlx_server::tools::bare_json_to_tool_call;

// ── Numbers and durations ────────────────────────────────────────────────────

#[test]
fn whole_numbers_are_read_as_std_reads_them() {
    for s in ["", "+", "-", "0", "+7", "++7", "-1", "12", "012", "1 ", " 1", "1x", "18446744073709551615",
        "18446744073709551616", "99999999999999999999x", "x99999999999999999999", "é"]
    {
        let ours = parse_unsigned(s, u64::MAX).map_err(|e| e.message().to_owned());
        let theirs = s.parse::<u64>().map_err(|e| e.to_string());
        assert_eq!(ours, theirs, "{s:?}");
    }
    assert_eq!(parse_unsigned("256", 255), Err(IntParseError::PosOverflow));
}

#[test]
fn numbers_are_written_as_std_writes_them() {
    for n in [0, 9, 10, 907, u64::MAX] {
        assert_eq!(decimal(n), n.to_string());
    }
}

#[test]
fn durations_have_units() {
    assert_eq!(parse_duration_spec("30"), Ok(KeepAlivePolicy::Idle(30_000)));
    assert_eq!(parse_duration_spec("30s"), Ok(KeepAlivePolicy::Idle(30_000)));
    assert_eq!(parse_duration_spec("15m"), Ok(KeepAlivePolicy::Idle(900_000)));
    assert_eq!(parse_duration_spec("2h"), Ok(KeepAlivePolicy::Idle(7_200_000)));
    assert_eq!(parse_duration_spec("0"), Ok(KeepAlivePolicy::Idle(0)));
    assert_eq!(parse_duration_spec("-1"), Ok(KeepAlivePolicy::Pin));
    assert_eq!(parse_duration_spec(""), Err(DurationSpecError::NoNumber));
    assert_eq!(parse_duration_spec("s"), Err(DurationSpecError::NoNumber));
    assert_eq!(parse_duration_spec("3d"), Err(DurationSpecError::BadUnit));
    assert_eq!(parse_duration_spec("3mm"), Err(DurationSpecError::BadUnit));
    assert_eq!(parse_duration_spec("99999999999999999999h"), Err(DurationSpecError::TooLong));
}

#[test]
fn the_idle_policy_defaults_to_fifteen_minutes() {
    assert_eq!(idle_policy(None), Ok(KeepAlivePolicy::Idle(15 * 60 * 1000)));
    assert_eq!(idle_policy(Some("24h")), Ok(KeepAlivePolicy::Idle(86_400_000)));
    assert!(idle_policy(Some("x")).is_err());
    assert_eq!(KeepAlivePolicy::Idle(86_400_000).ttl_secs_for_log(), 86_400);
    assert_eq!(
        KeepAlivePolicy::resolve(Some(KeepAlivePolicy::Pin), Some(KeepAlivePolicy::Idle(1))),
        KeepAlivePolicy::Pin
    );
}

// ── Command line ─────────────────────────────────────────────────────────────

#[test]
fn draft_blocks_have_a_floor_and_a_ceiling() {
    assert_eq!(parse_draft_block_size("2"), Ok(2));
    assert_eq!(parse_draft_block_size("1024"), Ok(1024));
    assert_eq!(
        parse_draft_block_size("1"),
        Err("a block of 1 leaves no room for a draft token; it must be at least 2".to_owned())
    );
    assert_eq!(
        parse_draft_block_size("1025"),
        Err("a block of 1025 is more positions than one verify forward can score; \
             the round scores the whole block in a single un-chunked pass that \
             materialises one full-vocabulary logit row per position, and above about \
             a thousand of them that pass times the GPU out rather than running \
             slowly (max 1024)"
            .to_owned())
    );
    assert_eq!(
        parse_draft_block_size("4.5"),
        Err("not a whole number of tokens: invalid digit found in string".to_owned())
    );
    assert_eq!(
        parse_draft_block_size(""),
        Err("not a whole number of tokens: cannot parse integer from empty string".to_owned())
    );
}

#[test]
fn draft_kinds_have_their_names() {
    let names: Vec<&str> = [
        DraftKind::Mtp,
        DraftKind::DFlash,
        DraftKind::DFlash2,
        DraftKind::Eagle3,
        DraftKind::TwoModel,
    ]
    .iter()
    .map(|k| k.as_str())
    .collect();
    assert_eq!(names, vec!["mtp", "dflash", "dflash2", "eagle3", "two_model"]);
    assert_eq!(PrefixIndexKind::default(), PrefixIndexKind::Linear);
}

#[test]
fn measuring_needs_the_validated_library() {
    let check = |matches, binding| PinCheck { matches, binding, detail: "0.1 loaded".to_owned() };
    assert!(refuse_to_measure_off_the_pin("rmlx bench", &check(true, true)).is_ok());
    assert!(refuse_to_measure_off_the_pin("rmlx bench", &check(false, false)).is_ok());
    assert_eq!(
        refuse_to_measure_off_the_pin("rmlx bench", &check(false, true)),
        Err("rmlx bench refuses to measure: 0.1 loaded. Prefill and TTFT measured against an \
             unvalidated MLX are not comparable to any recorded number. Restore the pair \
             with `make mlx-restore-pin`, or see docs/FFI.md."
            .to_owned())
    );
}

#[test]
fn prompts_are_looked_for_upwards() {
    let dirs = vec!["/a/b/prompts".to_owned(), "/a/prompts".to_owned(), "/prompts".to_owned()];
    let named = resolve_prompts_root(Some("here".to_owned()), &dirs, |_| panic!("not asked"));
    assert_eq!(named, "here");
    assert_eq!(resolve_prompts_root(None, &dirs, |d| d.len() < 12), "/a/prompts");
    assert_eq!(resolve_prompts_root(None, &dirs, |_| false), "prompts");
}

#[test]
fn prompts_are_looked_for_in_every_directory_above() {
    assert_eq!(prompt_dirs("/a/b"), vec!["/a/b/prompts", "/a/prompts", "/prompts"]);
    for cwd in ["/", "", "a", "/a", "a/b", "/a//b/", "//a", "/a/./b/.", "./a", ".", "/.", "/..", "/.a", "/a./b", "é/ü"] {
        let expected: Vec<String> = std::path::Path::new(cwd)
            .ancestors()
            .map(|d| d.join("prompts").to_str().unwrap().to_owned())
            .collect();
        assert_eq!(prompt_dirs(cwd), expected, "{cwd:?}");
    }
    let found = resolve_prompts_root(None, &prompt_dirs("/a/b"), |d| d == "/prompts");
    assert_eq!(found, "/prompts");
}

#[test]
fn baseline_runs_are_labelled() {
    let s = |t: &str| Some(t.to_owned());
    assert_eq!(baseline_label("x".to_owned(), s("id"), s("f.json")), "x");
    assert_eq!(baseline_label(String::new(), s("id"), s("f.json")), "id");
    assert_eq!(baseline_label(String::new(), None, s("f.json")), "f.json");
    assert_eq!(baseline_label(String::new(), None, None), "unknown");
}

#[test]
fn boundary_layers_need_a_codec() {
    let none = PplKvFlags {
        kv_quant: false,
        kv_preset: false,
        kv_bits: false,
        cache_type_k: false,
        cache_type_v: false,
        kv_boundary_layers: false,
    };
    assert_eq!(ppl_uses_cache(none), Ok(false));
    assert_eq!(ppl_uses_cache(PplKvFlags { cache_type_v: true, ..none }), Ok(true));
    let boundary = PplKvFlags { kv_boundary_layers: true, ..none };
    assert!(ppl_uses_cache(boundary).unwrap_err().starts_with("--kv-boundary-layers needs"));
    assert_eq!(ppl_uses_cache(PplKvFlags { kv_bits: true, ..boundary }), Ok(true));
    assert!(info_claims_device(false, true) && !info_claims_device(false, false));
}

// ── Kernel flags ─────────────────────────────────────────────────────────────

fn policy(on: bool) -> DispatchPolicy {
    DispatchPolicy {
        fused_qk: on,
        fused_qk_min: 17,
        sparse_attn: on,
        turbo_flash: on,
        turbo_flash_lock: on,
        turbo_flash_min: 4096,
        planar_flash_decode: on,
        rot_k_fused: on,
    }
}

#[test]
fn an_explicit_flag_overrides_the_shell() {
    for env in [false, true] {
        let on = resolve_dispatch_policy(
            FusedQkMode::On,
            SparseAttnMode::On,
            TurboFlashMode::On,
            true,
            PlanarFlashDecodeMode::On,
            RotKFusedMode::On,
            policy(env),
        );
        assert_eq!(on, policy(true));
        let off = resolve_dispatch_policy(
            FusedQkMode::Off,
            SparseAttnMode::Off,
            TurboFlashMode::Off,
            false,
            PlanarFlashDecodeMode::Off,
            RotKFusedMode::Off,
            policy(env),
        );
        assert_eq!(off, DispatchPolicy { turbo_flash_lock: env, ..policy(false) });
        let auto = resolve_dispatch_policy(
            FusedQkMode::default(),
            SparseAttnMode::default(),
            TurboFlashMode::default(),
            false,
            PlanarFlashDecodeMode::default(),
            RotKFusedMode::default(),
            policy(env),
        );
        assert_eq!(auto, policy(env));
    }
}

#[test]
fn turbo_flash_says_when_the_shell_decides() {
    let (on, _, notes) = resolve_turbo_flash(TurboFlashMode::Auto, false, &policy(true));
    assert!(on && notes.env_costly && !notes.env_ignored && !notes.lock_flag);
    let (on, lock, notes) = resolve_turbo_flash(TurboFlashMode::Off, true, &policy(true));
    assert!(!on && lock && notes.env_ignored && !notes.env_costly && notes.lock_flag);
    assert_eq!(log_gate(true), "kernel gate resolved ON");
    assert_eq!(log_gate(false), "kernel gate resolved OFF");
    assert_eq!(TurboFlashMode::Auto.mode().as_str(), "auto");
    assert_eq!(RotKFusedMode::On.mode().as_str(), "on");
    assert_eq!(SparseAttnMode::Off.mode().as_str(), "off");
    assert!(RotorQjlArg::On.enabled() && !RotorQjlArg::Off.enabled());
    assert!(PlanarFusedQkArg::On.enabled() && !PlanarFusedQkArg::Off.enabled());
}

// ── Settings of the server ───────────────────────────────────────────────────

fn no_flags() -> ServeFlags<f32> {
    ServeFlags {
        model: None,
        registry: None,
        port: None,
        host: None,
        device: None,
        kv_quant: None,
        max_ctx: None,
        idle_timeout: None,
        prompt_cache_slots: None,
        draft_model: None,
        max_tokens_cap: None,
        max_timeout_secs: None,
        max_loaded_models: None,
        max_queue_depth: None,
        default_temperature: None,
    }
}

#[test]
fn the_defaults_are_in_force_without_flags() {
    let c = merge_serve_settings(no_flags(), no_profile());
    assert_eq!((c.port, c.host.as_str(), c.device.as_str()), (8080, "127.0.0.1", "gpu"));
    assert_eq!((c.kv_quant.as_str(), c.prompt_cache_slots), ("auto", 4));
    assert_eq!((c.max_tokens_cap, c.max_timeout_secs), (1_048_576, 600));
    assert_eq!((c.max_loaded_models, c.max_queue_depth), (1, 64));
    assert!(c.model.is_none() && c.registry.is_none() && c.draft_model.is_none());
    assert!(c.max_ctx.is_none() && c.idle_timeout.is_none() && c.default_temperature.is_none());
}

#[test]
fn flags_win_over_the_profile() {
    let profile = ServeProfile {
        port: Some(1),
        host: Some("p".to_owned()),
        idle_timeout_secs: Some(90),
        max_loaded_models: Some(3),
        default_temperature: Some(0.25),
        ..no_profile()
    };
    let flags = ServeFlags { port: Some(2), default_temperature: Some(0.5), ..no_flags() };
    let c = merge_serve_settings(flags, profile);
    assert_eq!((c.port, c.host.as_str(), c.max_loaded_models), (2, "p", 3));
    assert_eq!(c.idle_timeout.as_deref(), Some("90"));
    assert_eq!(c.default_temperature, Some(0.5));
}

fn fine() -> ServeChecks {
    ServeChecks {
        model_given: true,
        registry_given: false,
        temperature_in_range: true,
        kv_ssd_cache: Sign::Zero,
        project_given: false,
        kv_ssd_global: Sign::Zero,
        prompt_cache_ram_valid: true,
        paged_kv: false,
        cache_type_k: None,
        paged_kv_page_tokens: None,
        image_max_tokens: None,
    }
}

#[test]
fn refused_settings_are_named() {
    assert_eq!(fine().check(), Ok(()));
    let refused = |c: ServeChecks| c.check().unwrap_err();
    let e = refused(ServeChecks { registry_given: true, temperature_in_range: false, ..fine() });
    assert_eq!(e, ServeRefusal::ModelAndRegistry);
    assert_eq!(e.message(""), "--model and --registry are mutually exclusive");
    let e = refused(ServeChecks { temperature_in_range: false, ..fine() });
    assert_eq!(e.message("2.5"), "--default-temperature must be in [0.0, 2.0], got 2.5");
    let e = refused(ServeChecks { kv_ssd_cache: Sign::Negative, project_given: true, ..fine() });
    assert_eq!(e.message("-1"), "--kv-ssd-cache-gb must be >= 0 (0 = tier off), got -1");
    let e = refused(ServeChecks { project_given: true, ..fine() });
    assert_eq!(
        e.message(""),
        "--project requires --kv-ssd-cache-gb > 0 (the SSD tier must be enabled)"
    );
    let on = ServeChecks { project_given: true, kv_ssd_cache: Sign::Positive, ..fine() };
    assert_eq!(on.check(), Ok(()));
    let e = refused(ServeChecks { kv_ssd_global: Sign::Negative, ..fine() });
    assert_eq!(e.message("-2"), "--kv-ssd-global-gb must be >= 0 (0 = no global ceiling), got -2");
    let e = refused(ServeChecks { prompt_cache_ram_valid: false, ..fine() });
    assert_eq!(
        e.message("inf"),
        "--prompt-cache-ram-gb must be a finite non-negative number, got inf"
    );
    let e = refused(ServeChecks { image_max_tokens: Some(0), ..fine() });
    assert_eq!(e.message(""), "--image-max-tokens must be > 0");
}

#[test]
fn paged_kv_refuses_what_it_cannot_page() {
    let paged = |tag: &str, n: Option<i32>| {
        ServeChecks {
            paged_kv: true,
            cache_type_k: Some(tag.to_owned()),
            paged_kv_page_tokens: n,
            ..fine()
        }
        .check()
    };
    assert_eq!(paged("Rot_K_v4g64", None), Err(ServeRefusal::PagedRotK));
    assert_eq!(
        ServeRefusal::PagedRotK.message("rot_k"),
        "--paged-kv is incompatible with --cache-type-k rot_k (rot_k* not paged-compatible)"
    );
    assert_eq!(paged("rot-k", None), Ok(()));
    assert_eq!(paged("rot_", None), Ok(()));
    assert_eq!(paged("q8_g128", Some(0)), Err(ServeRefusal::PagedPageTokens));
    assert_eq!(
        ServeRefusal::PagedPageTokens.message("-3"),
        "--paged-kv-page-tokens must be a positive integer, got -3"
    );
    assert_eq!(paged("q8_g128", Some(32)), Ok(()));
    let unpaged = ServeChecks { cache_type_k: Some("rot_k".to_owned()), ..fine() };
    assert_eq!(unpaged.check(), Ok(()));
}

#[test]
fn the_kv_codec_has_one_source() {
    assert_eq!(kv_source(true, true, true, None, true), KvSource::Preset);
    assert_eq!(kv_source(false, false, true, None, false), KvSource::Bits { group_size: 64 });
    assert_eq!(kv_source(false, false, true, Some(32), false), KvSource::Bits { group_size: 32 });
    assert_eq!(kv_source(true, false, false, None, true), KvSource::Named);
    assert_eq!(kv_source(false, false, false, None, true), KvSource::SidesWithoutModel);
    assert_eq!(kv_source(false, false, false, None, false), KvSource::Named);
}

#[test]
fn devices_have_names() {
    assert_eq!(parse_device("cpu"), Ok(Device::Cpu));
    assert_eq!(parse_device("gpu"), Ok(Device::Gpu));
    assert_eq!(
        parse_device("tpu"),
        Err("--device must be 'cpu' or 'gpu', got 'tpu'".to_owned())
    );
}

#[test]
fn models_come_from_one_place() {
    assert_eq!(registry_source(true, true), RegistrySource::File);
    assert_eq!(registry_source(false, true), RegistrySource::Model);
    assert_eq!(registry_source(false, false), RegistrySource::Empty);
    assert_eq!(architecture_name(&vec!["A".to_owned(), "B".to_owned()]), "A");
    assert_eq!(architecture_name(&Vec::new()), "(empty)");
    assert_eq!(
        unsupported_architecture("X"),
        "error: architecture 'X' not yet supported in v0.0.1"
    );
    assert_eq!(listen_address("::1", 80), "::1:80");
    assert_eq!((controller_depth(0), controller_depth(64)), (1, 64));
}

#[test]
fn the_queue_has_a_bound_unless_it_is_zero() {
    assert!(admits(63, 64) && !admits(64, 64) && !admits(65, 64));
    assert!(admits(usize::MAX, 0));
}

#[test]
fn sessions_widen_the_prompt_cache_but_do_not_switch_it_on() {
    assert_eq!(effective_prompt_cache_slots(8, 3), 11);
    assert_eq!(effective_prompt_cache_slots(0, 3), 0);
}

#[test]
fn the_request_wins_over_the_operator() {
    assert!(thinking_enabled(None, None));
    assert!(!thinking_enabled(None, Some(false)));
    assert!(thinking_enabled(Some(true), Some(false)));
    assert_eq!(image_token_budget(Some(9), Some(5)), Some(9));
    assert_eq!(image_token_budget(None, Some(5)), Some(5));
    assert_eq!(image_token_budget(None, None), None);
}

#[test]
fn a_drafter_makes_a_speculative_generator() {
    assert_eq!(generator_kind(true), GeneratorKind::Speculative);
    assert_eq!(generator_kind(false), GeneratorKind::Single);
}

#[test]
fn a_captured_run_records_nothing() {
    for mode in [MetricsMode::Off, MetricsMode::Events, MetricsMode::Full] {
        assert_eq!(metrics_mode(true, mode), MetricsMode::Off);
        assert_eq!(metrics_mode(false, mode), mode);
    }
    let s = |t: &str| Some(t.to_owned());
    assert_eq!(metrics_db(s("f"), s("e"), "d".to_owned()), "f");
    assert_eq!(metrics_db(None, s("e"), "d".to_owned()), "e");
    assert_eq!(metrics_db(None, None, "d".to_owned()), "d");
}

#[test]
fn calibration_is_only_used_where_it_fits() {
    assert_eq!(calibration_step(false, Some(Some(128))), CalibrationStep::Absent);
    assert_eq!(calibration_step(true, Some(Some(128))), CalibrationStep::Discover(128));
    assert_eq!(calibration_step(true, Some(None)), CalibrationStep::NoHeadDim);
    assert_eq!(calibration_step(true, None), CalibrationStep::NoConfig);
    assert_eq!(head_budget_step(None, true), HeadBudgetStep::Malformed);
    assert_eq!(head_budget_step(Some(false), true), HeadBudgetStep::Absent);
    assert_eq!(head_budget_step(Some(true), true), HeadBudgetStep::Attach);
    assert_eq!(head_budget_step(Some(true), false), HeadBudgetStep::WithoutCalibration);
}

#[test]
fn the_active_project_has_the_resolved_budget() {
    let sections =
        vec![("a".to_owned(), Some(10)), ("b".to_owned(), None), ("c".to_owned(), Some(30))];
    let m = project_budgets(&sections, Some("a"), 99);
    assert_eq!((m.get("a"), m.get("b"), m.get("c")), (Some(99), None, Some(30)));
    let m = project_budgets(&sections, None, 99);
    assert_eq!((m.get("a"), m.get("b"), m.get("c")), (Some(10), None, Some(30)));
    assert_eq!(project_budgets(&sections, Some("d"), 7).get("d"), Some(7));
}

// ── Bearer tokens ────────────────────────────────────────────────────────────

#[test]
fn a_token_is_asked_for_everywhere_but_at_health() {
    let mut h = HeaderMap::new();
    assert!(authorize(None, "/v1/models", &h));
    assert!(authorize(Some("t"), "/health", &h));
    assert!(!authorize(Some("t"), "/v1/models", &h));
    assert!(!authorize(Some("t"), "/health/", &h));
    h.insert("authorization", HeaderValue::from_static("Bearer t"));
    assert!(authorize(Some("t"), "/v1/models", &h));
    assert!(!authorize(Some("tt"), "/v1/models", &h));
    h.insert("authorization", HeaderValue::from_static("bearer t"));
    assert!(!authorize(Some("t"), "/v1/models", &h));
    h.insert("authorization", HeaderValue::from_bytes(b"Bearer \xff").unwrap());
    assert!(!authorize(Some("t"), "/v1/models", &h));
    assert_eq!(MAX_BODY_BYTES, 26 * 1024 * 1024);
}

// ── Fresh ids ────────────────────────────────────────────────────────────────

fn is_random_uuid(text: &str) -> bool {
    text.len() == 36
        && text.chars().enumerate().all(|(i, c)| match i {
            8 | 13 | 18 | 23 => c == '-',
            14 => c == '4',
            19 => matches!(c, '8' | '9' | 'a' | 'b'),
            _ => matches!(c, '0'..='9' | 'a'..='f'),
        })
}

#[test]
fn fresh_ids_are_random_uuids() {
    for _ in 0..32 {
        let request = resolve_request_id(&HeaderMap::new());
        assert!(is_random_uuid(request.strip_prefix("req-").unwrap()), "{request}");
        let call = bare_json_to_tool_call("{\"name\":\"f\",\"arguments\":{}}").unwrap();
        assert!(is_random_uuid(call.id.strip_prefix("call_").unwrap()), "{}", call.id);
    }
    assert_ne!(resolve_request_id(&HeaderMap::new()), resolve_request_id(&HeaderMap::new()));
}

// ── Samples and the SSD tier ─────────────────────────────────────────────────

#[test]
fn the_sample_ring_keeps_the_latest() {
    let mut store = TtftStore::new();
    for i in 0..25 {
        store.record(TtftSample { model_id: "m".to_owned(), ttft_ms: i });
    }
    assert_eq!(store.len(), TTFT_RING_CAPACITY);
    assert_eq!(store.at(0).ttft_ms, 5);
    assert_eq!(store.at(19).ttft_ms, 24);
}

#[test]
fn the_ssd_tier_keeps_its_books() {
    let mut accum = SsdTierAccum::default();
    record_ssd_spill_obs(&mut accum, 100);
    record_ssd_spill_obs(&mut accum, 101);
    record_ssd_spill_obs(&mut accum, 3_000_000);
    record_ssd_hydrate_obs(&mut accum, 7);
    update_ssd_bytes_used(&mut accum, "a", 5);
    update_ssd_bytes_used(&mut accum, "b", 6);
    update_ssd_bytes_used(&mut accum, "a", 4);
    increment_ssd_evict_total(&mut accum, "a", 2);
    increment_ssd_evict_total(&mut accum, "a", 3);
    let snap = snapshot_ssd_tier(&accum);
    record_ssd_spill_obs(&mut accum, 1);
    increment_ssd_evict_total(&mut accum, "b", 1);
    assert_eq!(snap.spill.count, 3, "a snapshot does not change any more");
    assert_eq!(snap.spill.sum_us, 3_000_201);
    assert_eq!(snap.spill.buckets, [1, 2, 2, 2, 2, 2, 2, 2, 2]);
    assert_eq!(snap.spill.count_inf_overflow, 1);
    assert_eq!((snap.hydrate.count, snap.hydrate.buckets[0]), (1, 1));
    assert_eq!((snap.bytes_used.get("a"), snap.bytes_used.get("b")), (Some(4), Some(6)));
    assert_eq!((snap.evict_total.get("a"), snap.evict_total.get("b")), (Some(5), None));
    assert_eq!(accum.evict_total.get("b"), Some(1));
}
