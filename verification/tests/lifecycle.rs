//! The model lifecycle: loading, evicting, keeping alive and unloading.

use rmlx_server::errors::Error;
use rmlx_server::keep_alive::KeepAlivePolicy;
use rmlx_server::load::{preload, probe_gate, Ready};
use rmlx_server::registry::{text_order, ModelEntry, ModelRegistry, TextOrder};
use rmlx_server::session_cache::SessionCache;
use rmlx_server::state::{
    loaded_model_text, AppState, ContextLimits, FireOutcome, LoadEnd, LoadStep, LoadedGenerator,
    SmokeVerdict, UnloadReason, Unloaded,
};
use rmlx_server::timers::{TimerCommand, TimerStart};
use std::cell::{Cell, RefCell};

fn entry(id: &str) -> ModelEntry {
    ModelEntry {
        id: id.to_owned(),
        abs_path: format!("/models/{id}"),
        arch: "LlamaForCausalLM".to_owned(),
    }
}

fn n_model_registry(n: usize) -> ModelRegistry {
    ModelRegistry::from_entries((0..n).map(|i| entry(&format!("m{i}"))).collect())
}

fn named_registry(id: &str) -> ModelRegistry {
    ModelRegistry::from_entries(vec![entry(id)])
}

fn slot_test_state(registry: ModelRegistry, max_loaded_models: usize) -> AppState {
    state_with_policy(registry, max_loaded_models, KeepAlivePolicy::Pin)
}

fn state_with_policy(
    registry: ModelRegistry,
    max_loaded_models: usize,
    idle_policy: KeepAlivePolicy,
) -> AppState {
    AppState::new(
        registry,
        max_loaded_models,
        idle_policy,
        false,
        SessionCache::new(4),
        None,
        None,
        None,
    )
}

fn stub(key: u64) -> LoadedGenerator {
    LoadedGenerator { model: key, effective_max_ctx: usize::MAX, context_limits: None }
}

fn unused_probe(_: &ModelEntry) -> Result<SmokeVerdict, String> {
    panic!("no probe was asked for")
}

fn ensure_at(state: &mut AppState, id: &str, now: u64) -> Result<Ready, Error> {
    state.ensure_loaded(id, true, || now, drop, unused_probe, |_| Ok(stub(now)))
}

fn resident_ids(state: &AppState) -> Vec<String> {
    state.slots.iter().map(|m| m.id.clone()).collect()
}

#[test]
fn slots_insert_n_all_resident_and_findable() {
    let mut state = slot_test_state(n_model_registry(3), 3);
    for (t, id) in ["m0", "m1", "m2"].iter().enumerate() {
        ensure_at(&mut state, id, t as u64).expect("load must succeed");
    }
    let ids = resident_ids(&state);
    assert_eq!(ids.len(), 3, "all 3 models must be resident at cap 3");
    for id in ["m0", "m1", "m2"] {
        assert!(ids.contains(&id.to_owned()), "{id} must be findable");
    }
    ensure_at(&mut state, "m1", 9).unwrap();
    assert_eq!(
        state.slots.len(),
        3,
        "re-loading a resident model must not add a duplicate slot"
    );
}

#[test]
fn slots_lru_eviction_at_cap() {
    let mut state = slot_test_state(n_model_registry(3), 2);
    ensure_at(&mut state, "m0", 0).unwrap();
    ensure_at(&mut state, "m1", 5).unwrap();
    ensure_at(&mut state, "m0", 10).unwrap();
    ensure_at(&mut state, "m2", 15).unwrap();

    let ids = resident_ids(&state);
    assert_eq!(ids.len(), 2, "cap 2 must hold exactly 2 models");
    assert!(ids.contains(&"m0".to_owned()), "m0 (recently used) kept");
    assert!(ids.contains(&"m2".to_owned()), "m2 (just loaded) kept");
    assert!(!ids.contains(&"m1".to_owned()), "m1 (LRU) must be evicted");
}

#[test]
fn slots_unload_removes_one() {
    let mut state = slot_test_state(n_model_registry(3), 3);
    for id in ["m0", "m1", "m2"] {
        ensure_at(&mut state, id, 1).unwrap();
    }
    assert!(state.unload("m1").is_some(), "unloading a resident model finds it");
    let ids = resident_ids(&state);
    assert_eq!(ids.len(), 2, "exactly one entry removed");
    assert!(!ids.contains(&"m1".to_owned()), "m1 must be gone");
    assert!(ids.contains(&"m0".to_owned()) && ids.contains(&"m2".to_owned()));
    assert!(state.unload("m1").is_none(), "second unload of the same id finds nothing");
}

#[test]
fn ensure_loaded_cold_flag() {
    let mut state = slot_test_state(n_model_registry(1), 1);
    let first = ensure_at(&mut state, "m0", 0).expect("first load must succeed");
    assert!(first.cold, "first load must report cold=true");
    let second = ensure_at(&mut state, "m0", 1).expect("second request must succeed");
    assert!(
        !second.cold,
        "re-request of resident model must report cold=false (warm)"
    );
    assert_eq!(first.model, second.model, "the same generator serves both");
}

#[test]
fn slots_max_one_evicts_single_entry_parity() {
    let mut state = slot_test_state(n_model_registry(2), 1);
    ensure_at(&mut state, "m0", 0).unwrap();
    assert_eq!(resident_ids(&state), vec!["m0".to_owned()]);
    ensure_at(&mut state, "m1", 1).unwrap();
    assert_eq!(
        resident_ids(&state),
        vec!["m1".to_owned()],
        "cap 1: the single existing entry is the LRU and is swapped out"
    );
    ensure_at(&mut state, "m1", 2).unwrap();
    assert_eq!(resident_ids(&state), vec!["m1".to_owned()]);
}

#[test]
fn effective_max_ctx_for_resident_and_absent() {
    let mut state = slot_test_state(n_model_registry(1), 1);
    assert_eq!(
        state.effective_max_ctx_for("m0"),
        usize::MAX,
        "absent model sets no bound"
    );
    ensure_at(&mut state, "m0", 0).unwrap();
    assert_eq!(state.effective_max_ctx_for("m0"), usize::MAX);
    assert_eq!(state.effective_max_ctx_for("nope"), usize::MAX, "unknown id sets no bound");
}

#[test]
fn context_bounds_are_those_of_the_generator() {
    let mut state = slot_test_state(n_model_registry(1), 1);
    let limits = ContextLimits::trained_only(40_960);
    state
        .ensure_loaded("m0", true, || 0, drop, unused_probe, |_| {
            Ok(LoadedGenerator { model: 3, effective_max_ctx: 4096, context_limits: Some(limits) })
        })
        .unwrap();
    assert_eq!(state.effective_max_ctx_for("m0"), 4096);
    assert_eq!(state.context_limits_for("m0"), Some(limits));
    assert_eq!(limits.positional_max, 40_960);
    assert_eq!(state.context_limits_for("m1"), None);
    state.unload("m0");
    assert_eq!(state.effective_max_ctx_for("m0"), usize::MAX);
    assert_eq!(state.context_limits_for("m0"), None);
}

#[test]
fn a_limit_of_zero_still_holds_one_model() {
    let mut state = slot_test_state(n_model_registry(2), 0);
    ensure_at(&mut state, "m0", 0).unwrap();
    ensure_at(&mut state, "m1", 1).unwrap();
    assert_eq!(resident_ids(&state), vec!["m1".to_owned()]);
}

#[test]
fn of_equally_old_models_the_first_leaves_and_the_last_takes_its_place() {
    let mut state = slot_test_state(n_model_registry(4), 3);
    for id in ["m0", "m1", "m2"] {
        ensure_at(&mut state, id, 7).unwrap();
    }
    ensure_at(&mut state, "m3", 7).unwrap();
    assert_eq!(resident_ids(&state), vec!["m2", "m1", "m3"]);
}

#[test]
fn an_unknown_model_is_an_error_and_changes_nothing() {
    let mut state = slot_test_state(n_model_registry(1), 1);
    ensure_at(&mut state, "m0", 0).unwrap();
    match ensure_at(&mut state, "x", 1) {
        Err(Error::Model(text)) => assert_eq!(text, "model 'x' not found in registry"),
        other => panic!("expected a missing model, got {other:?}"),
    }
    assert_eq!(resident_ids(&state), vec!["m0".to_owned()]);
}

#[test]
fn ensure_loaded_preserves_the_context_refusal_variant() {
    let mut state = slot_test_state(named_registry("refusing-model"), 1);
    let err = state
        .ensure_loaded("refusing-model", true, || 0, drop, unused_probe, |_| {
            Err(Error::ContextCeilingExceeded {
                requested: 131_072,
                positional_max: 40_960,
                trained_max: 40_960,
                lift: "raise --yarn-factor".to_owned(),
            })
        })
        .err()
        .expect("the loader refuses");
    assert!(
        matches!(err, Error::ContextCeilingExceeded { .. }),
        "the variant must survive ensure_loaded, got: {err:?}"
    );
    assert!(state.slots.is_empty());
}

#[test]
fn the_loader_is_handed_the_entry_and_runs_after_the_eviction() {
    let mut state = slot_test_state(n_model_registry(2), 1);
    ensure_at(&mut state, "m0", 5).unwrap();
    let log: RefCell<Vec<String>> = RefCell::new(Vec::new());
    state
        .ensure_loaded(
            "m1",
            true,
            || 6,
            |u: Unloaded| {
                assert_eq!(u.reason, UnloadReason::CooperativeEvict);
                assert_eq!(u.loaded.model, 5);
                log.borrow_mut().push(format!("evict {}", u.loaded.id));
            },
            unused_probe,
            |e| {
                log.borrow_mut().push(format!("load {}", e.abs_path));
                Ok(stub(6))
            },
        )
        .unwrap();
    assert_eq!(log.into_inner(), vec!["evict m0", "load /models/m1"]);
}

#[test]
fn a_failed_load_leaves_the_evicted_model_evicted() {
    let mut state = slot_test_state(n_model_registry(2), 1);
    ensure_at(&mut state, "m0", 0).unwrap();
    let r = state.ensure_loaded("m1", true, || 1, drop, unused_probe, |_| {
        Err(Error::Other("disk".to_owned()))
    });
    assert!(matches!(r, Err(Error::Other(_))));
    assert!(state.slots.is_empty());
}

fn probed_state() -> AppState {
    AppState::new(
        n_model_registry(2),
        1,
        KeepAlivePolicy::Pin,
        true,
        SessionCache::new(4),
        None,
        None,
        None,
    )
}

fn probe_outcome(verdict: Result<SmokeVerdict, String>) -> Result<Ready, Error> {
    let mut state = probed_state();
    let r = state.ensure_loaded("m0", true, || 1, drop, |_| verdict, |_| Ok(stub(1)));
    assert_eq!(state.slots.len(), usize::from(r.is_ok()));
    r
}

#[test]
fn a_broken_snapshot_is_not_served() {
    assert!(probe_outcome(Ok(SmokeVerdict::Passed)).is_ok());
    assert!(probe_outcome(Ok(SmokeVerdict::Inconclusive)).is_ok());
    let text = |r: Result<Ready, Error>| match r {
        Err(Error::SmokeProbe(s)) => s,
        other => panic!("expected a refusal, got {other:?}"),
    };
    assert_eq!(
        text(probe_outcome(Ok(SmokeVerdict::BrokenPunctLoop {
            dominant_piece: "!".to_owned(),
            distinct_ids: 2,
        }))),
        "smoke probe failed for 'm0': broken_punct_loop (dominant='!', distinct_ids=2)"
    );
    assert_eq!(
        text(probe_outcome(Ok(SmokeVerdict::BrokenNan { at_step: 12 }))),
        "smoke probe failed for 'm0': broken_nan at step 12"
    );
    assert_eq!(text(probe_outcome(Err("no config".to_owned()))), "m0: no config");
    assert!(probe_gate("m0", &Ok(SmokeVerdict::Passed)).is_ok());
}

// ── Keep-alive timers ────────────────────────────────────────────────────────

fn started(r: &Ready) -> TimerStart {
    r.timer.start.expect("a timer must be armed")
}

#[test]
fn idle_ttl_unloads_after_timeout() {
    let mut state = state_with_policy(n_model_registry(1), 1, KeepAlivePolicy::Idle(150));
    let ready = ensure_at(&mut state, "m0", 0).expect("load must succeed");
    let timer = started(&ready);
    assert_eq!(timer.ttl_ms, 150);
    match state.timer_fired("m0", timer.lease, timer.ttl_secs, true) {
        FireOutcome::Unloaded(u) => {
            assert_eq!(u.reason, UnloadReason::IdleTtl(0));
            assert_eq!(u.abort, Some(timer.token));
        }
        _ => panic!("expected an unload"),
    }
    assert_eq!(state.slots.len(), 0, "model should have been unloaded by its timer");
}

#[test]
fn decode_lease_suppresses_unload() {
    let mut state = state_with_policy(n_model_registry(1), 1, KeepAlivePolicy::Idle(120));
    let ready = ensure_at(&mut state, "m0", 0).expect("load must succeed");
    let timer = started(&ready);
    let guard = state.decode_lease_guard("m0").expect("model resident");
    match state.timer_fired("m0", timer.lease, timer.ttl_secs, true) {
        FireOutcome::Deferred(c) => {
            assert_eq!(c.abort, Some(timer.token));
            assert_eq!(c.start.unwrap().lease, timer.lease, "the re-armed timer keeps the lease");
        }
        _ => panic!("expected a deferral"),
    }
    assert_eq!(state.slots.len(), 1, "held decode lease must suppress unload");
    state.end_decode(guard);
    assert!(matches!(
        state.timer_fired("m0", timer.lease, 0, true),
        FireOutcome::Unloaded(_)
    ));
}

#[test]
fn a_busy_timer_of_an_unloaded_model_does_nothing() {
    let mut state = state_with_policy(n_model_registry(1), 1, KeepAlivePolicy::Idle(120));
    let timer = started(&ensure_at(&mut state, "m0", 0).unwrap());
    let _guard = state.decode_lease_guard("m0").unwrap();
    state.unload("m0");
    assert!(matches!(state.timer_fired("m0", timer.lease, 0, true), FireOutcome::Gone));
}

#[test]
fn pin_policy_no_unload() {
    let mut state = slot_test_state(n_model_registry(1), 1);
    let ready = ensure_at(&mut state, "m0", 0).expect("load must succeed");
    assert!(ready.timer.start.is_none(), "pin: no timer");
    assert_eq!(state.slots.len(), 1, "pin: never unload");
}

#[test]
fn no_timer_is_armed_without_a_runtime() {
    let mut state = state_with_policy(n_model_registry(1), 1, KeepAlivePolicy::Idle(5));
    let ready = state
        .ensure_loaded("m0", false, || 0, drop, unused_probe, |_| Ok(stub(0)))
        .unwrap();
    assert_eq!(ready.timer, TimerCommand { abort: None, start: None });
}

#[test]
fn arming_without_a_runtime_leaves_an_armed_timer() {
    let mut state = state_with_policy(n_model_registry(1), 1, KeepAlivePolicy::Idle(5));
    let armed = started(&ensure_at(&mut state, "m0", 0).unwrap());
    let (lease, handle) = (state.slots[0].decode_lease, state.slots[0].unload_handle);
    let nothing = state.arm_or_reset_timer(KeepAlivePolicy::Idle(9), lease, handle, false);
    assert_eq!(nothing, TimerCommand { abort: None, start: None });
    let pinned = state.arm_or_reset_timer(KeepAlivePolicy::Pin, lease, handle, false);
    assert_eq!(pinned, TimerCommand { abort: Some(armed.token), start: None });
}

#[test]
fn request_field_promotes_to_pin() {
    let mut state = state_with_policy(named_registry("kp-promote"), 1, KeepAlivePolicy::Idle(120));
    let timer = started(&ensure_at(&mut state, "kp-promote", 0).expect("load must succeed"));
    let command = state.reset_keep_alive("kp-promote", Some(KeepAlivePolicy::Pin), true).unwrap();
    assert_eq!(command.abort, Some(timer.token));
    assert!(command.start.is_none());
    assert_eq!(state.slots[0].keep_alive, KeepAlivePolicy::Pin);
    assert!(matches!(state.timer_fired("kp-promote", timer.lease, 0, true), FireOutcome::Stale));
    assert_eq!(state.slots.len(), 1, "Pin override must prevent unload");
}

#[test]
fn a_reset_without_a_policy_keeps_the_slots_own() {
    let mut state = state_with_policy(n_model_registry(1), 1, KeepAlivePolicy::Idle(2500));
    ensure_at(&mut state, "m0", 3).unwrap();
    let command = state.reset_keep_alive("m0", None, true).unwrap();
    let start = command.start.unwrap();
    assert_eq!((start.ttl_ms, start.ttl_secs), (2500, 2));
    assert_eq!(state.slots[0].last_used, 3, "a reset is not a use");
    assert!(state.reset_keep_alive("m1", None, true).is_none());
}

#[test]
fn cooperative_evict_on_conflicting_load() {
    let mut state = slot_test_state(n_model_registry(2), 1);
    ensure_at(&mut state, "m0", 0).expect("A loads");
    assert_eq!(state.slots[0].id, "m0");
    ensure_at(&mut state, "m1", 1).expect("B loads + evicts A");
    assert_eq!(state.slots.len(), 1, "single-slot post-evict");
    assert_eq!(state.slots[0].id, "m1", "B is now resident");
}

#[test]
fn stale_ttl_fire_after_reset_does_not_unload() {
    let mut state = state_with_policy(n_model_registry(1), 1, KeepAlivePolicy::Idle(80));
    let timer = started(&ensure_at(&mut state, "m0", 0).expect("initial load"));
    state.unload("m0");
    ensure_at(&mut state, "m0", 1).expect("reload after explicit unload");
    let lease = state.slots[0].decode_lease;
    assert!(matches!(state.timer_fired("m0", timer.lease, 0, true), FireOutcome::Stale));
    assert_eq!(state.slots.len(), 1, "freshly reloaded slot must survive a stale fire");
    assert_eq!(state.slots[0].decode_lease, lease);
}

#[test]
fn stale_ttl_fire_after_warm_reset_does_not_unload() {
    let mut state = state_with_policy(n_model_registry(1), 1, KeepAlivePolicy::Idle(200));
    let first = started(&ensure_at(&mut state, "m0", 0).expect("initial load"));
    let before = state.slots[0].decode_lease;
    let again = ensure_at(&mut state, "m0", 150).expect("warm-reset hit must succeed");
    let after = state.slots[0].decode_lease;
    assert_ne!(before, after, "warm-reset must swap the lease");
    assert_eq!(again.timer.abort, Some(first.token), "the first timer is cancelled");
    assert!(matches!(state.timer_fired("m0", first.lease, 0, true), FireOutcome::Stale));
    assert_eq!(state.slots.len(), 1);
    assert_eq!(state.slots[0].decode_lease, after);
    assert!(matches!(
        state.timer_fired("m0", started(&again).lease, 0, true),
        FireOutcome::Unloaded(_)
    ));
}

#[test]
fn idle_eviction_clears_session_cache() {
    let mut state = slot_test_state(n_model_registry(2), 2);
    ensure_at(&mut state, "m0", 0).unwrap();
    state.session_cache.touch("m0".to_owned(), "sess-1".to_owned(), 10);
    state.session_cache.touch("m1".to_owned(), "sess-1".to_owned(), 10);
    assert_eq!(state.session_cache.active_count(), 2);
    let lease = state.slots[0].decode_lease;
    state.timer_fired("m0", lease, 60, true);
    assert_eq!(state.slots.len(), 0, "slot must be empty after eviction");
    assert_eq!(
        state.session_cache.active_count(),
        1,
        "the sessions of the model must be gone, and no others"
    );
}

#[test]
fn sessions_leave_in_the_order_of_their_last_use() {
    let mut cache = SessionCache::new(2);
    cache.touch("m".to_owned(), "a".to_owned(), 1);
    cache.touch("m".to_owned(), "b".to_owned(), 1);
    cache.touch("m".to_owned(), "a".to_owned(), 2);
    assert_eq!(cache.active_count(), 2);
    cache.touch("n".to_owned(), "c".to_owned(), 1);
    assert_eq!(cache.active_count(), 2);
    cache.remove_model("m");
    assert_eq!(cache.active_count(), 1, "the older session of m had left already");
}

#[test]
fn the_phases_of_a_load_can_be_taken_one_by_one() {
    let mut state = slot_test_state(n_model_registry(2), 1);
    match state.begin_load("m0", 1, true) {
        LoadStep::Cold { entry, evicted, probe } => {
            assert_eq!(entry.abs_path, "/models/m0");
            assert!(evicted.is_none());
            assert!(!probe);
        }
        _ => panic!("expected a cold load"),
    }
    assert!(state.slots.is_empty());
    assert!(state.ids_left());
    state.finish_load("m0", 2, stub(4), true);
    assert_eq!(state.slots[0].loaded_at, 2);
    match state.begin_load("m0", 9, true) {
        LoadStep::Warm { model, .. } => assert_eq!(model, 4),
        _ => panic!("expected a warm model"),
    }
    assert_eq!(state.slots[0].last_used, 9);
    assert_eq!(state.slots[0].loaded_at, 2);
}

#[test]
fn loads_that_overlap_keep_the_bound() {
    let mut state = slot_test_state(n_model_registry(3), 1);
    for id in ["m0", "m1"] {
        assert!(matches!(state.begin_load(id, 0, true), LoadStep::Cold { evicted: None, .. }));
    }
    assert!(matches!(
        state.finish_load("m0", 1, stub(10), true),
        LoadEnd::Settled { evicted: None, .. }
    ));
    match state.finish_load("m1", 2, stub(11), true) {
        LoadEnd::Settled { evicted: Some(u), .. } => {
            assert_eq!((u.loaded.id.as_str(), u.loaded.model), ("m0", 10));
            assert_eq!(u.reason, UnloadReason::CooperativeEvict);
        }
        _ => panic!("expected an eviction"),
    }
    assert_eq!(resident_ids(&state), vec!["m1"]);
}

#[test]
fn a_model_that_became_resident_is_not_put_into_a_second_slot() {
    let mut state = slot_test_state(n_model_registry(1), 3);
    for _ in 0..2 {
        assert!(matches!(state.begin_load("m0", 0, true), LoadStep::Cold { .. }));
    }
    state.finish_load("m0", 1, stub(10), true);
    match state.finish_load("m0", 2, stub(11), true) {
        LoadEnd::AlreadyResident { model, .. } => assert_eq!(model, 10),
        _ => panic!("expected the resident model"),
    }
    assert_eq!(resident_ids(&state), vec!["m0"]);
    assert_eq!((state.slots[0].loaded_at, state.slots[0].last_used), (1, 2));
}

#[test]
fn a_loaded_model_shows_its_id_and_load_time() {
    let mut state = slot_test_state(named_registry("a\"b\n"), 1);
    ensure_at(&mut state, "a\"b\n", 31).unwrap();
    assert_eq!(
        state.slots[0].debug_text(),
        "LoadedModel { id: \"a\\\"b\\n\", loaded_at: 31 }"
    );
    assert_eq!(
        loaded_model_text("\"m0\"", 0),
        "LoadedModel { id: \"m0\", loaded_at: 0 }"
    );
}

#[test]
fn the_state_has_a_line_for_the_log() {
    assert_eq!(
        slot_test_state(n_model_registry(2), 1).debug_text(3, 0, 14),
        "AppState { registry_len: 2, ttft_samples: 3, itl_samples: 0, metrics_drainer_dropped: 14 }"
    );
}

#[test]
fn unload_reasons_have_their_events() {
    assert_eq!(UnloadReason::Explicit.event(), "slots: unloading model");
    assert_eq!(UnloadReason::IdleTtl(3).event(), "model_unload_idle");
    assert_eq!(UnloadReason::CooperativeEvict.event(), "model_unload_evict");
}

#[test]
fn audio_needs_both_paths() {
    let mut state = slot_test_state(n_model_registry(0), 1);
    assert_eq!(state.audio_paths(), None);
    state.whisper_model_path = Some("/w".to_owned());
    assert_eq!(state.audio_paths(), None);
    state.whisper_tokenizer_path = Some("/t".to_owned());
    assert_eq!(state.audio_paths(), Some(("/w".to_owned(), "/t".to_owned())));
}

// ── Registry and preload ─────────────────────────────────────────────────────

#[test]
fn the_registry_is_ordered_by_id() {
    let registry = ModelRegistry::from_entries(vec![
        entry("beta"),
        entry("alpha"),
        entry("b"),
        ModelEntry { arch: "later".to_owned(), ..entry("beta") },
    ]);
    assert_eq!(registry.len(), 3);
    let ids: Vec<&str> = (0..3).map(|i| registry.at(i).id.as_str()).collect();
    assert_eq!(ids, vec!["alpha", "b", "beta"]);
    assert_eq!(registry.get("beta").unwrap().arch, "later");
    assert!(registry.get("gamma").is_none());
    assert_eq!(registry.first_architecture(), "LlamaForCausalLM");
    assert_eq!(ModelRegistry::empty().first_architecture(), "");
    assert_eq!(text_order("a", "ab"), TextOrder::Before);
    assert_eq!(text_order("b", "ab"), TextOrder::After);
    assert_eq!(text_order("", ""), TextOrder::Same);
}

#[test]
fn the_preload_takes_every_model_of_the_registry() {
    let registry =
        || ModelRegistry::from_entries(vec![entry("c"), entry("a"), entry("b")]);
    for max in [0, 1, 2, 9] {
        assert_eq!(slot_test_state(registry(), max).preload_ids(), vec!["a", "b", "c"]);
    }
    assert!(slot_test_state(n_model_registry(0), 1).preload_ids().is_empty());
}

#[test]
fn only_a_context_ceiling_ends_the_preload() {
    let ids = vec!["a".to_owned(), "b".to_owned(), "c".to_owned()];
    let tried: Cell<usize> = Cell::new(0);
    let passing = preload(&ids, |_| {
        tried.set(tried.get() + 1);
        Err(Error::Other("not now".to_owned()))
    });
    assert_eq!(passing, None);
    assert_eq!(tried.get(), 3);

    tried.set(0);
    let fatal = preload(&ids, |id| {
        tried.set(tried.get() + 1);
        if id == "b" {
            Err(Error::ContextCeilingExceeded {
                requested: 10,
                positional_max: 5,
                trained_max: 5,
                lift: "lower --max-ctx".to_owned(),
            })
        } else {
            Ok(())
        }
    });
    let text = fatal.expect("a context ceiling is fatal");
    assert!(text.starts_with("model 'b': ") && text.ends_with("lower --max-ctx"));
    assert_eq!(tried.get(), 2, "the run ends with the fatal model");
}
