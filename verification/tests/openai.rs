//! The chat surface: sampling, tool calls, streaming, headers and counters.

use axum::http::{HeaderMap, HeaderName, HeaderValue};
use rmlx_server::content::{extract_audio_parts, extract_image_parts, MessageContent};
use rmlx_server::counters::{ApiErrorCategory, ApiErrorCounters};
use rmlx_server::errors::{
    engine_error_body, engine_error_response, engine_error_type, Error, OomPhase, ProcMem,
};
use rmlx_server::http::{compute_effective_timeout, resolve_request_id, TimeoutError};
use rmlx_server::messages::{
    ChatMessage, OwnedTplMessage, RequestToolCall, RequestToolCallFunction,
};
use rmlx_server::metrics::{enforce_max_tokens_cap, percentile_u64};
use rmlx_server::sampling::{
    parse_logit_bias, resolve_sampling_params, GenerationConfig, Neutral, SamplingParams,
    SamplingRequest, SamplingSource,
};
use rmlx_server::serve_config::MAX_COMPLETION_TOKENS;
use rmlx_server::ssd_tier::{SsdHistogram, HIST_BUCKETS_US};
use rmlx_server::stream::{handle_streaming_token, GenerationToken, StreamEvent, StreamState, Usage};
use rmlx_server::tool_parser::{Segment, ToolCallFormat, ToolCallStreamParser};
use rmlx_server::tools::{
    bare_json_to_tool_call, select_finish_reason, tool_choice_to_schema, NormalizedTool,
    NormalizedToolChoice,
};
use serde_json::Value;

fn json(text: &str) -> Value {
    serde_json::from_str(text).unwrap()
}

// ── Sampling ─────────────────────────────────────────────────────────────────

const NEUTRAL: Neutral<f32> = Neutral { zero: 0.0, one: 1.0 };

fn no_request() -> SamplingRequest<f32> {
    SamplingRequest {
        temperature: None,
        top_p: None,
        top_k: None,
        min_p: None,
        repetition_penalty: None,
        frequency_penalty: None,
        presence_penalty: None,
        logit_bias: Vec::new(),
        seed: None,
    }
}

fn no_defaults() -> GenerationConfig<f32> {
    GenerationConfig { temperature: None, top_p: None, top_k: None, repetition_penalty: None }
}

fn rsp(
    temperature: Option<f32>,
    top_p: Option<f32>,
    defaults: Option<&GenerationConfig<f32>>,
) -> (SamplingParams<f32>, SamplingSource, SamplingSource) {
    let request = SamplingRequest { temperature, top_p, ..no_request() };
    resolve_sampling_params(request, defaults, None, NEUTRAL)
}

#[test]
fn resolve_uses_request_value_when_present() {
    let defaults = GenerationConfig { temperature: Some(0.5), top_p: Some(0.8), ..no_defaults() };
    let (r, t_src, p_src) = rsp(Some(0.3), Some(0.6), Some(&defaults));
    assert_eq!(r.temperature, 0.3);
    assert_eq!(r.top_p, 0.6);
    assert_eq!(t_src, SamplingSource::Request);
    assert_eq!(p_src, SamplingSource::Request);
}

#[test]
fn resolve_falls_back_to_model_defaults() {
    let defaults = GenerationConfig { temperature: Some(0.7), top_p: Some(0.95), ..no_defaults() };
    let (r, t_src, p_src) = rsp(None, None, Some(&defaults));
    assert_eq!(r.temperature, 0.7);
    assert_eq!(r.top_p, 0.95);
    assert_eq!(t_src, SamplingSource::ModelDefaults);
    assert_eq!(p_src, SamplingSource::ModelDefaults);
}

#[test]
fn resolve_falls_back_to_hard_coded_when_no_defaults() {
    let (r, t_src, p_src) = rsp(None, None, None);
    assert_eq!(r.temperature, 1.0);
    assert_eq!(r.top_p, 1.0);
    assert_eq!(t_src, SamplingSource::HardCoded);
    assert_eq!(p_src, SamplingSource::HardCoded);
}

#[test]
fn resolve_mixes_sources_independently() {
    let defaults = GenerationConfig { temperature: Some(0.5), top_p: Some(0.9), ..no_defaults() };
    let (r, t_src, p_src) = rsp(Some(0.1), None, Some(&defaults));
    assert_eq!(r.temperature, 0.1);
    assert_eq!(r.top_p, 0.9);
    assert_eq!(t_src, SamplingSource::Request);
    assert_eq!(p_src, SamplingSource::ModelDefaults);
}

#[test]
fn absent_fields_give_neutral_parameters() {
    let (sp, _, _) = rsp(None, None, None);
    assert_eq!(sp.top_k, 0);
    assert_eq!(sp.min_p, 0.0);
    assert_eq!(sp.repetition_penalty, 1.0);
    assert_eq!(sp.frequency_penalty, 0.0);
    assert_eq!(sp.presence_penalty, 0.0);
    assert!(sp.logit_bias.is_empty());
    assert!(sp.seed.is_none());
}

#[test]
fn request_fields_are_taken_over() {
    let request = SamplingRequest {
        min_p: Some(0.05),
        frequency_penalty: Some(0.5),
        presence_penalty: Some(0.3),
        logit_bias: vec![(7, 2.0)],
        seed: Some(9),
        ..no_request()
    };
    let (sp, _, _) = resolve_sampling_params(request, None, None, NEUTRAL);
    assert_eq!(sp.min_p, 0.05);
    assert_eq!(sp.frequency_penalty, 0.5);
    assert_eq!(sp.presence_penalty, 0.3);
    assert_eq!(sp.logit_bias, vec![(7, 2.0)]);
    assert_eq!(sp.seed, Some(9));
}

#[test]
fn a7_logit_bias_parses_to_u32_pairs() {
    let map = vec![("42".to_owned(), 3.0_f32), ("9999".to_owned(), -1.5_f32)];
    let mut parsed = parse_logit_bias(&map).expect("parse must succeed");
    assert_eq!(parsed.len(), 2);
    parsed.sort_by_key(|(id, _)| *id);
    assert_eq!(parsed[0], (42, 3.0));
    assert_eq!(parsed[1], (9999, -1.5));
}

#[test]
fn a7_logit_bias_non_integer_key_returns_err() {
    let map = vec![("not_an_id".to_owned(), 1.0_f32)];
    let result = parse_logit_bias(&map);
    assert!(result.is_err(), "non-integer key must produce Err");
}

#[test]
fn logit_bias_names_the_first_bad_key() {
    let map = vec![
        ("1".to_owned(), 1.0_f32),
        ("4294967296".to_owned(), 1.0_f32),
        ("x".to_owned(), 1.0_f32),
    ];
    assert_eq!(parse_logit_bias(&map), Err("4294967296".to_owned()));
}

#[test]
fn a7_top_k_falls_back_to_model_defaults() {
    let defaults = GenerationConfig { top_k: Some(20), ..no_defaults() };
    let (sp, _, _) = resolve_sampling_params(no_request(), Some(&defaults), None, NEUTRAL);
    assert_eq!(sp.top_k, 20, "top_k must come from model defaults");
}

#[test]
fn a7_top_k_request_overrides_model_defaults() {
    let defaults = GenerationConfig { top_k: Some(20), ..no_defaults() };
    let request = SamplingRequest { top_k: Some(5), ..no_request() };
    let (sp, _, _) = resolve_sampling_params(request, Some(&defaults), None, NEUTRAL);
    assert_eq!(sp.top_k, 5, "request top_k must override model defaults");
}

#[test]
fn a7_repetition_penalty_falls_back_to_model_defaults() {
    let defaults = GenerationConfig { repetition_penalty: Some(1.1), ..no_defaults() };
    let (sp, _, _) = resolve_sampling_params(no_request(), Some(&defaults), None, NEUTRAL);
    assert!(
        (sp.repetition_penalty - 1.1).abs() < 1e-6,
        "repetition_penalty must come from model defaults"
    );
}

#[test]
fn g4_server_default_beats_model_defaults() {
    let defaults = GenerationConfig { temperature: Some(0.7), ..no_defaults() };
    let (sp, src, _) = resolve_sampling_params(no_request(), Some(&defaults), Some(0.0), NEUTRAL);
    assert_eq!(sp.temperature, 0.0, "server_default must beat model_defaults");
    assert_eq!(src, SamplingSource::ServerDefault);
}

#[test]
fn g4_request_beats_server_default() {
    let request = SamplingRequest { temperature: Some(0.9), ..no_request() };
    let (sp, src, _) = resolve_sampling_params(request, None, Some(0.0), NEUTRAL);
    assert_eq!(sp.temperature, 0.9, "request must beat server_default");
    assert_eq!(src, SamplingSource::Request);
}

#[test]
fn g4_absent_server_default_falls_through_to_model_defaults() {
    let defaults = GenerationConfig { temperature: Some(0.5), ..no_defaults() };
    let (sp, src, _) = resolve_sampling_params(no_request(), Some(&defaults), None, NEUTRAL);
    assert_eq!(sp.temperature, 0.5);
    assert_eq!(src, SamplingSource::ModelDefaults);
}

// ── Tool calls ───────────────────────────────────────────────────────────────

#[test]
fn finish_reason_upgrades_to_tool_calls() {
    assert_eq!(
        select_finish_reason(true, Some("stop".to_owned())),
        Some("tool_calls".to_owned())
    );
    assert_eq!(
        select_finish_reason(true, Some("length".to_owned())),
        Some("tool_calls".to_owned())
    );
    assert_eq!(select_finish_reason(true, None), Some("tool_calls".to_owned()));
    assert_eq!(
        select_finish_reason(false, Some("stop".to_owned())),
        Some("stop".to_owned())
    );
    assert_eq!(
        select_finish_reason(false, Some("length".to_owned())),
        Some("length".to_owned())
    );
    assert_eq!(select_finish_reason(false, None), None);
}

fn make_tool(name: &str, schema: Value) -> NormalizedTool {
    NormalizedTool { name: name.to_owned(), description: None, schema }
}

#[test]
fn tool_choice_to_schema_named_single_tool() {
    let tools = vec![make_tool(
        "search",
        json(r#"{"type":"object","properties":{"q":{"type":"string"}},"required":["q"]}"#),
    )];
    let schema =
        tool_choice_to_schema(&NormalizedToolChoice::Named("search".to_owned()), &tools).unwrap();
    assert_eq!(schema["properties"]["name"]["const"], "search");
    assert!(schema["properties"]["arguments"].is_object());
    assert_eq!(schema["required"].as_array().unwrap().len(), 2);
    assert_eq!(schema["additionalProperties"], false);
    assert_eq!(schema["properties"]["arguments"]["required"][0], "q");
    assert_eq!(schema["type"], "object");
}

#[test]
fn tool_choice_to_schema_named_unknown_tool_returns_none() {
    let tools = vec![make_tool("search", json(r#"{"type":"object"}"#))];
    let result =
        tool_choice_to_schema(&NormalizedToolChoice::Named("nonexistent".to_owned()), &tools);
    assert!(result.is_none(), "unknown tool name must return None");
}

#[test]
fn tool_choice_to_schema_required_single_tool_no_oneof() {
    let tools = vec![make_tool("fn_a", json(r#"{"type":"object"}"#))];
    let schema = tool_choice_to_schema(&NormalizedToolChoice::Required, &tools).unwrap();
    assert!(
        schema.get("oneOf").is_none(),
        "single-tool required must not produce oneOf: {schema}"
    );
    assert_eq!(schema["properties"]["name"]["const"], "fn_a");
}

#[test]
fn tool_choice_to_schema_required_multi_tool_produces_oneof() {
    let tools = vec![
        make_tool("alpha", json(r#"{"type":"object"}"#)),
        make_tool("beta", json(r#"{"type":"object"}"#)),
    ];
    let schema = tool_choice_to_schema(&NormalizedToolChoice::Required, &tools).unwrap();
    let branches = schema["oneOf"].as_array().unwrap();
    assert_eq!(branches.len(), 2, "two tools make two oneOf branches");
    assert_eq!(branches[0]["properties"]["name"]["const"], "alpha");
    assert_eq!(branches[1]["properties"]["name"]["const"], "beta");
}

#[test]
fn tool_choice_to_schema_required_empty_tools_returns_none() {
    let result = tool_choice_to_schema(&NormalizedToolChoice::Required, &[]);
    assert!(result.is_none(), "empty tools list must return None");
}

#[test]
fn tool_choice_to_schema_auto_returns_none() {
    let tools = vec![make_tool("fn", json(r#"{"type":"object"}"#))];
    assert!(tool_choice_to_schema(&NormalizedToolChoice::Auto, &tools).is_none());
}

#[test]
fn tool_choice_to_schema_none_returns_none() {
    let tools = vec![make_tool("fn", json(r#"{"type":"object"}"#))];
    assert!(tool_choice_to_schema(&NormalizedToolChoice::Disabled, &tools).is_none());
}

#[test]
fn bare_json_to_tool_call_basic() {
    let json = r#"{"name":"search","arguments":{"q":"rust lang"}}"#;
    let tc = bare_json_to_tool_call(json).unwrap();
    assert_eq!(tc.name, "search");
    assert_eq!(tc.arguments.get("q"), Some(&Value::String("rust lang".to_owned())));
    assert!(tc.id.starts_with("call_"));
}

#[test]
fn bare_json_to_tool_call_empty_arguments() {
    let json = r#"{"name":"ping","arguments":{}}"#;
    let tc = bare_json_to_tool_call(json).unwrap();
    assert_eq!(tc.name, "ping");
    assert!(tc.arguments.is_empty());
}

#[test]
fn bare_json_to_tool_call_stringified_arguments() {
    let json = r#"{"name":"fn","arguments":"{\"x\":42}"}"#;
    let tc = bare_json_to_tool_call(json).unwrap();
    assert_eq!(tc.name, "fn");
    assert_eq!(tc.arguments.get("x"), Some(&Value::Number(42.into())));
}

#[test]
fn bare_json_to_tool_call_missing_name_returns_none() {
    let json = r#"{"arguments":{"x":1}}"#;
    assert!(bare_json_to_tool_call(json).is_none());
}

#[test]
fn bare_json_to_tool_call_invalid_json_returns_none() {
    assert!(bare_json_to_tool_call("not json").is_none());
}

#[test]
fn bare_json_to_tool_call_empty_name_returns_none() {
    let json = r#"{"name":"","arguments":{}}"#;
    assert!(bare_json_to_tool_call(json).is_none());
}

#[test]
fn bare_json_ids_are_new_each_time() {
    let json = r#"{"name":"ping","arguments":{}}"#;
    let a = bare_json_to_tool_call(json).unwrap();
    let b = bare_json_to_tool_call(json).unwrap();
    assert_ne!(a.id, b.id);
    assert_eq!(a.id.len(), 41);
}

#[test]
fn bare_json_arguments_must_be_an_object() {
    assert!(bare_json_to_tool_call(r#"{"name":"f","arguments":[1]}"#).is_none());
    assert!(bare_json_to_tool_call(r#"{"name":"f","arguments":"[1]"}"#).is_none());
    assert!(bare_json_to_tool_call(r#"{"name":"f","arguments":"{"}"#).is_none());
    assert!(bare_json_to_tool_call(r#"{"name":7,"arguments":{}}"#).is_none());
    assert!(bare_json_to_tool_call(r#"["name"]"#).is_none());
}

// ── Message content ──────────────────────────────────────────────────────────

fn parts(text: &str) -> Vec<Value> {
    serde_json::from_str(text).unwrap()
}

#[test]
fn extract_image_and_audio_parts() {
    let parts = parts(
        r#"[
        {"type": "text", "text": "describe this"},
        {"type": "image_url", "image_url": {"url": "https://example.com/img.png"}},
        {"type": "input_image", "image_url": "data:image/png;base64,abc123"},
        {"type": "input_audio", "input_audio": {"data": "AAEC"}}
    ]"#,
    );
    let imgs = extract_image_parts(&parts);
    assert_eq!(
        imgs,
        vec!["https://example.com/img.png", "data:image/png;base64,abc123"],
        "image_url and input_image shapes both extracted"
    );
    let audio = extract_audio_parts(&parts);
    assert_eq!(audio, vec!["AAEC"], "input_audio data extracted");
}

#[test]
fn text_only_parts_produce_empty_vecs() {
    let parts = parts(r#"[{"type": "text", "text": "hello world"}]"#);
    assert!(extract_image_parts(&parts).is_empty());
    assert!(extract_audio_parts(&parts).is_empty());
}

#[test]
fn text_content_as_text_unchanged() {
    let content = MessageContent::Text("hello".to_owned());
    assert_eq!(content.as_text(), "hello");
}

#[test]
fn parts_text_join_unchanged() {
    let parts = parts(r#"[{"type": "text", "text": "foo "}, {"type": "text", "text": "bar"}]"#);
    let content = MessageContent::Parts(parts);
    assert_eq!(content.as_text(), "foo bar");
}

#[test]
fn mixed_parts_as_text_returns_text_only() {
    let parts = parts(
        r#"[
        {"type": "text", "text": "what is this?"},
        {"type": "image_url", "image_url": {"url": "https://example.com/x.jpg"}}
    ]"#,
    );
    let content = MessageContent::Parts(parts.clone());
    assert_eq!(content.as_text(), "what is this?", "as_text must ignore non-text parts");
    let imgs = extract_image_parts(&parts);
    assert_eq!(imgs, vec!["https://example.com/x.jpg"]);
}

// ── Time limits ──────────────────────────────────────────────────────────────

fn headers_with(key: &str, val: &str) -> HeaderMap {
    let mut h = HeaderMap::new();
    h.insert(
        HeaderName::from_bytes(key.as_bytes()).unwrap(),
        HeaderValue::from_str(val).unwrap(),
    );
    h
}

#[test]
fn timeout_no_header_returns_cap() {
    let h = HeaderMap::new();
    let result = compute_effective_timeout(&h, 600).unwrap();
    assert_eq!(
        result.map(std::time::Duration::from_secs),
        Some(std::time::Duration::from_secs(600))
    );
}

#[test]
fn timeout_header_below_cap_uses_header() {
    let h = headers_with("x-request-timeout-seconds", "30");
    assert_eq!(compute_effective_timeout(&h, 600), Ok(Some(30)));
}

#[test]
fn timeout_header_above_cap_clamps_to_cap() {
    let h = headers_with("x-request-timeout-seconds", "9999");
    assert_eq!(compute_effective_timeout(&h, 600), Ok(Some(600)));
}

#[test]
fn timeout_header_non_numeric_returns_400() {
    let h = headers_with("x-request-timeout-seconds", "abc");
    let err = compute_effective_timeout(&h, 600).unwrap_err();
    assert_eq!(err.category().status(), 400);
    assert_eq!(err, TimeoutError::NotANumber);
    assert_eq!(err.message(), "X-Request-Timeout-Seconds must be a whole number");
}

#[test]
fn timeout_header_zero_returns_400() {
    let h = headers_with("x-request-timeout-seconds", "0");
    let err = compute_effective_timeout(&h, 600).unwrap_err();
    assert_eq!(err.category().status(), 400);
    assert_eq!(err.category().error_type(), "invalid_request_error");
    assert_eq!(err, TimeoutError::Zero);
    assert_eq!(err.message(), "X-Request-Timeout-Seconds must be > 0");
}

#[test]
fn timeout_header_negative_returns_400() {
    let h = headers_with("x-request-timeout-seconds", "-5");
    let err = compute_effective_timeout(&h, 600).unwrap_err();
    assert_eq!(err.category().status(), 400);
    assert_eq!(err, TimeoutError::NotANumber);
}

#[test]
fn timeout_max_zero_disables_timeout() {
    let h = HeaderMap::new();
    assert_eq!(compute_effective_timeout(&h, 0), Ok(None));
    let h2 = headers_with("x-request-timeout-seconds", "30");
    assert_eq!(compute_effective_timeout(&h2, 0), Ok(None));
}

#[test]
fn timeout_header_that_is_not_text_is_refused() {
    let mut h = HeaderMap::new();
    h.insert(
        HeaderName::from_static("x-request-timeout-seconds"),
        HeaderValue::from_bytes(b"3\x80").unwrap(),
    );
    assert_eq!(compute_effective_timeout(&h, 600), Err(TimeoutError::NotANumber));
    assert_eq!(compute_effective_timeout(&h, 0), Ok(None));
}

#[test]
fn the_first_of_two_timeout_headers_counts() {
    let mut h = HeaderMap::new();
    h.append("x-request-timeout-seconds", HeaderValue::from_static("7"));
    h.append("x-request-timeout-seconds", HeaderValue::from_static("9"));
    assert_eq!(compute_effective_timeout(&h, 600), Ok(Some(7)));
}

// ── Request ids ──────────────────────────────────────────────────────────────

#[test]
fn f10_absent_header_generates_id() {
    let h = HeaderMap::new();
    let rid = resolve_request_id(&h);
    assert!(!rid.is_empty(), "generated id must not be empty when header absent");
    assert!(
        rid.starts_with("req-"),
        "generated id must start with 'req-', got: {rid}"
    );
}

#[test]
fn f10_absent_header_generates_unique_ids() {
    let h = HeaderMap::new();
    let a = resolve_request_id(&h);
    let b = resolve_request_id(&h);
    assert_ne!(a, b, "two generated ids must be distinct");
}

#[test]
fn f10_inbound_header_is_echoed() {
    let h = headers_with("x-request-id", "test-corr-123");
    assert_eq!(resolve_request_id(&h), "test-corr-123");
}

#[test]
fn f10_header_capped_at_128_chars() {
    let long: String = "a".repeat(200);
    let h = headers_with("x-request-id", &long);
    let rid = resolve_request_id(&h);
    assert_eq!(rid.len(), 128, "must be capped at 128 chars");
    assert!(rid.chars().all(|c| c == 'a'));
}

#[test]
fn f10_non_utf8_header_falls_back_to_generated() {
    let raw = b"abc\x80def";
    let mut h = HeaderMap::new();
    h.insert(
        HeaderName::from_static("x-request-id"),
        HeaderValue::from_bytes(raw).unwrap(),
    );
    let rid = resolve_request_id(&h);
    assert!(
        rid.starts_with("req-"),
        "non-UTF-8 header must fall back to generated id, got: {rid}"
    );
}

#[test]
fn f10_whitespace_only_falls_back_to_generated() {
    let h = headers_with("x-request-id", "   ");
    let rid = resolve_request_id(&h);
    assert!(
        rid.starts_with("req-"),
        "whitespace-only header must fall back to generated id"
    );
}

#[test]
fn request_id_drops_tabs_and_keeps_its_spaces() {
    let h = headers_with("x-request-id", "a\tb c");
    assert_eq!(resolve_request_id(&h), "ab c");
    let h2 = headers_with("x-request-id", &"b".repeat(128));
    assert_eq!(resolve_request_id(&h2).len(), 128);
}

// ── Streaming ────────────────────────────────────────────────────────────────

fn token(id: u32, piece: &str) -> GenerationToken {
    GenerationToken {
        token_id: id,
        piece: piece.to_owned(),
        done: false,
        finish_reason: None,
        is_thinking: false,
    }
}

fn done_token(id: u32, reason: &str) -> GenerationToken {
    GenerationToken {
        token_id: id,
        piece: String::new(),
        done: true,
        finish_reason: Some(reason.to_owned()),
        is_thinking: false,
    }
}

#[test]
fn streaming_without_parser_passes_through_unchanged() {
    let mut state = StreamState::new(0, false);
    let events = handle_streaming_token(Ok(token(0, "hello world")), &mut state);
    assert_eq!(events.len(), 1, "one content event expected");
    assert!(matches!(&events[0], StreamEvent::Content(s) if s == "hello world"));
    assert!(!state.any_tool_calls);

    let events = handle_streaming_token(Ok(done_token(1, "stop")), &mut state);
    assert_eq!(events.len(), 1, "one terminal event expected");
    let debug = format!("{:?}", events[0]);
    assert!(
        debug.contains("stop"),
        "terminal finish_reason must remain 'stop' when no tool_calls, got: {debug}"
    );
    assert!(
        !debug.contains("tool_calls"),
        "terminal must NOT mention tool_calls, got: {debug}"
    );
}

#[test]
fn a_stream_with_tool_calls_ends_for_them() {
    let mut state = StreamState { any_tool_calls: true, ..StreamState::new(0, false) };
    let events = handle_streaming_token(Ok(done_token(1, "stop")), &mut state);
    assert!(matches!(&events[0], StreamEvent::Finish(Some(r)) if r == "tool_calls"));
}

#[test]
fn reasoning_is_kept_apart_from_the_answer() {
    let mut state = StreamState::new(0, false);
    let tok = GenerationToken { is_thinking: true, ..token(0, "hm") };
    let events = handle_streaming_token(Ok(tok), &mut state);
    assert!(matches!(&events[0], StreamEvent::Reasoning(s) if s == "hm"));
}

#[test]
fn h3_completion_tokens_counter_exact() {
    let mut state = StreamState::new(10, false);
    for i in 0..3u32 {
        handle_streaming_token(Ok(token(i, &format!("tok{i}"))), &mut state);
    }
    assert_eq!(
        state.completion_tokens, 3,
        "completion_tokens must equal number of non-done tokens fed"
    );
    handle_streaming_token(Ok(done_token(3, "stop")), &mut state);
    assert_eq!(
        state.completion_tokens, 4,
        "done token must also increment the counter"
    );
}

#[test]
fn h3_completion_tokens_two_tokens() {
    let mut state = StreamState::new(7, false);
    for i in 0..2u32 {
        handle_streaming_token(Ok(token(i, &format!("x{i}"))), &mut state);
    }
    handle_streaming_token(Ok(done_token(2, "length")), &mut state);
    assert_eq!(state.completion_tokens, 3);
}

#[test]
fn h4_usage_chunk_emitted_when_include_usage_true() {
    let mut state = StreamState::new(10, true);
    for i in 0..2u32 {
        handle_streaming_token(Ok(token(i, &format!("w{i}"))), &mut state);
    }
    let events = handle_streaming_token(Ok(done_token(2, "stop")), &mut state);
    assert_eq!(
        events.len(),
        2,
        "done token with include_usage=true must emit 2 events (finish + usage)"
    );
    assert!(matches!(&events[0], StreamEvent::Finish(Some(r)) if r == "stop"));
    match &events[1] {
        StreamEvent::Usage(u) => assert_eq!(
            *u,
            Usage { prompt_tokens: 10, completion_tokens: 3, total_tokens: 13 }
        ),
        other => panic!("expected the usage, got {other:?}"),
    }
}

#[test]
fn h4_no_usage_chunk_when_include_usage_false() {
    let mut state = StreamState::new(5, false);
    handle_streaming_token(Ok(token(0, "hi")), &mut state);
    let events = handle_streaming_token(Ok(done_token(1, "stop")), &mut state);
    assert_eq!(
        events.len(),
        1,
        "done token with include_usage=false must emit exactly 1 event"
    );
    let dbg = format!("{:?}", events[0]).to_lowercase();
    assert!(
        !dbg.contains("usage"),
        "event must NOT contain 'usage' when include_usage=false, got: {dbg}"
    );
}

#[test]
fn f14_lifetime_counters_incremented_at_done_boundary() {
    let mut state = StreamState::new(7, false);
    for i in 0..3u32 {
        handle_streaming_token(Ok(token(i, &format!("x{i}"))), &mut state);
    }
    assert_eq!(state.lifetime_tokens_in, 0, "tokens_in before done");
    assert_eq!(state.lifetime_tokens_out, 0, "tokens_out before done");
    handle_streaming_token(Ok(done_token(3, "stop")), &mut state);
    assert_eq!(state.lifetime_tokens_in, 7, "tokens_in after done");
    assert_eq!(state.lifetime_tokens_out, 4, "tokens_out after done");
    assert_eq!(state.lifetime_requests_completed, 1);
}

// ── Error counters ───────────────────────────────────────────────────────────

const KEYS: [&str; 11] = [
    "bad_request",
    "context_overflow",
    "not_found",
    "oom_load",
    "oom_kv_cache",
    "oom_mid_stream",
    "timeout",
    "upstream",
    "internal",
    "rate_limit",
    "admission_sla_503",
];

const CATEGORIES: [ApiErrorCategory; 11] = [
    ApiErrorCategory::BadRequest,
    ApiErrorCategory::ContextOverflow,
    ApiErrorCategory::NotFound,
    ApiErrorCategory::OomLoad,
    ApiErrorCategory::OomKvCache,
    ApiErrorCategory::OomMidStream,
    ApiErrorCategory::Timeout,
    ApiErrorCategory::Upstream,
    ApiErrorCategory::Internal,
    ApiErrorCategory::RateLimit,
    ApiErrorCategory::AdmissionSla503,
];

#[test]
fn f8_each_category_increments_only_its_counter() {
    let mut c = ApiErrorCounters::new();
    let snap_zero = c.to_json();
    for cat_key in KEYS {
        assert_eq!(snap_zero[cat_key], 0, "counter {cat_key} must start at 0");
    }
    for cat in CATEGORIES {
        c.increment(cat);
    }
    for cat in CATEGORIES {
        assert_eq!(
            snap_zero[cat.as_str()].as_u64().unwrap_or(999),
            0,
            "the earlier snapshot must be untouched (snapshot isolation)"
        );
        let direct = match cat {
            ApiErrorCategory::BadRequest => c.bad_request,
            ApiErrorCategory::ContextOverflow => c.context_overflow,
            ApiErrorCategory::NotFound => c.not_found,
            ApiErrorCategory::OomLoad => c.oom_load,
            ApiErrorCategory::OomKvCache => c.oom_kv_cache,
            ApiErrorCategory::OomMidStream => c.oom_mid_stream,
            ApiErrorCategory::Timeout => c.timeout,
            ApiErrorCategory::Upstream => c.upstream,
            ApiErrorCategory::Internal => c.internal,
            ApiErrorCategory::RateLimit => c.rate_limit,
            ApiErrorCategory::AdmissionSla503 => c.admission_sla_503,
        };
        assert_eq!(direct, 1, "category {} must be exactly 1", cat.as_str());
    }
    let snap_after = c.to_json();
    for cat in CATEGORIES {
        assert_eq!(snap_after[cat.as_str()], 1u64, "to_json {} must be 1", cat.as_str());
    }
}

#[test]
fn one_increment_leaves_the_other_counters() {
    for (i, cat) in CATEGORIES.iter().enumerate() {
        let mut c = ApiErrorCounters::new();
        c.increment(*cat);
        let snap = c.to_json();
        for (k, key) in KEYS.iter().enumerate() {
            assert_eq!(snap[*key], u64::from(i == k));
        }
        assert_eq!(snap.as_object().unwrap().len(), 11);
    }
}

#[test]
fn a_counter_wraps_around() {
    let mut c = ApiErrorCounters { timeout: u64::MAX, ..ApiErrorCounters::default() };
    c.increment(ApiErrorCategory::Timeout);
    assert_eq!(c, ApiErrorCounters::new());
}

#[test]
fn f8_successful_streaming_path_increments_no_error_counter() {
    let mut state = StreamState::new(3, false);
    for i in 0..3u32 {
        handle_streaming_token(Ok(token(i, &format!("t{i}"))), &mut state);
    }
    handle_streaming_token(Ok(done_token(3, "stop")), &mut state);
    let snap = state.error_counts.to_json();
    for cat_key in KEYS {
        assert_eq!(
            snap[cat_key], 0,
            "error counter {cat_key} must be 0 after a successful stream"
        );
    }
    assert_eq!(state.lifetime_requests_failed, 0);
}

#[test]
fn f8_engine_error_in_streaming_increments_counter() {
    let mut state = StreamState::new(1, false);
    let events = handle_streaming_token(Err(Error::Mlx("device error".to_owned())), &mut state);
    assert_eq!(
        events.len(),
        1,
        "error token must emit exactly the error event"
    );
    let err_debug = format!("{:?}", events[0]);
    assert!(
        matches!(&events[0], StreamEvent::Error { .. }) && err_debug.contains("device error"),
        "error event must name the cause, got: {err_debug}"
    );
    assert!(
        err_debug.contains("service_unavailable"),
        "error event must carry the stable type key, got: {err_debug}"
    );
    assert!(!err_debug.contains("[DONE]"));
    assert_eq!(state.error_counts.upstream, 1, "upstream counter must be 1 after engine error");
    let snap = state.error_counts.to_json();
    for key in KEYS {
        if key != "upstream" {
            assert_eq!(snap[key], 0, "counter {key} must be 0, not bumped by engine error");
        }
    }
    assert_eq!(state.lifetime_requests_failed, 1);
}

#[test]
fn f8_successful_request_increments_no_counter() {
    let mut state = StreamState::new(1, false);
    let snap = state.error_counts.to_json();
    for key in KEYS {
        assert_eq!(snap[key], 0, "counter {key} must start at 0");
    }
    handle_streaming_token(Ok(done_token(0, "stop")), &mut state);
    let snap = state.error_counts.to_json();
    for key in KEYS {
        assert_eq!(snap[key], 0, "counter {key} must start at 0");
    }
}

fn oom(phase: OomPhase, requested_bytes: Option<u64>, msg: &str) -> Error {
    Error::Oom { phase, requested_bytes, peak_alloc_mb: None, msg: msg.to_owned() }
}

const UNREAD: ProcMem =
    ProcMem { process_rss_mb: None, phys_footprint_mb: None, compressed_mb: None };

#[test]
fn engine_error_type_matches_response() {
    let cases = vec![
        Error::SmokeProbe("nan".to_owned()),
        oom(OomPhase::LoadWeights, None, "oom"),
        oom(OomPhase::LoadKvCache, None, "oom"),
        oom(OomPhase::Generation, None, "oom"),
        Error::Mlx("device error".to_owned()),
        Error::Other("engine panic".to_owned()),
    ];
    for e in &cases {
        let body = engine_error_body(e, UNREAD);
        assert_eq!(body["error"]["type"], engine_error_type(e), "{e:?}");
        assert_eq!(engine_error_response(e).kind, engine_error_type(e), "{e:?}");
        assert_eq!(body["error"]["message"], e.message(), "{e:?}");
    }
}

fn assert_mem_fields(err: &Value) {
    for k in ["process_rss_mb", "phys_footprint_mb", "compressed_mb"] {
        assert!(err.get(k).is_some(), "missing mem field {k}: {err}");
    }
    assert!(err.get("peak_alloc_mb").is_some(), "missing peak_alloc_mb");
    assert_eq!(err["peak_alloc_mb"], Value::Null);
    assert!(err.get("requested_bytes").is_some(), "missing requested_bytes");
}

#[test]
fn j3_oom_load_weights_507_retry() {
    let e = oom(OomPhase::LoadWeights, Some(42), "unable to allocate");
    let r = engine_error_response(&e);
    let body = engine_error_body(&e, UNREAD);
    assert_eq!(r.status, 507);
    assert_eq!(body["error"]["type"], "oom_during_load");
    assert_eq!(r.retry_after, Some(5));
    assert_eq!(body["error"]["requested_bytes"], 42);
    assert_mem_fields(&body["error"]);
}

#[test]
fn j3_oom_kv_cache_507_retry() {
    let e = oom(OomPhase::LoadKvCache, None, "kv growth failed");
    let r = engine_error_response(&e);
    let body = engine_error_body(&e, UNREAD);
    assert_eq!(r.status, 507);
    assert_eq!(body["error"]["type"], "oom_kv_cache");
    assert_eq!(r.retry_after, Some(5));
    assert_mem_fields(&body["error"]);
}

#[test]
fn j3_oom_generation_503_no_retry() {
    let e = oom(OomPhase::Generation, None, "decode step alloc failed");
    let r = engine_error_response(&e);
    let body = engine_error_body(&e, UNREAD);
    assert_eq!(r.status, 503);
    assert_eq!(body["error"]["type"], "oom_mid_stream");
    assert!(r.retry_after.is_none(), "mid-stream OOM must NOT set Retry-After");
    assert_mem_fields(&body["error"]);
}

#[test]
fn memory_is_reported_where_it_ran_out_and_nowhere_else() {
    let mem =
        ProcMem { process_rss_mb: Some(7), phys_footprint_mb: Some(8), compressed_mb: None };
    let e = Error::Oom {
        phase: OomPhase::Generation,
        requested_bytes: Some(1),
        peak_alloc_mb: Some(2),
        msg: "m".to_owned(),
    };
    assert_eq!(
        engine_error_body(&e, mem),
        json(
            r#"{"error":{"type":"oom_mid_stream","message":"m","requested_bytes":1,
            "peak_alloc_mb":2,"process_rss_mb":7,"phys_footprint_mb":8,"compressed_mb":null}}"#
        )
    );
    assert_eq!(
        engine_error_body(&Error::Other("x".to_owned()), mem),
        json(r#"{"error":{"type":"service_unavailable","message":"x"}}"#)
    );
}

// ── Tool calls in a stream ───────────────────────────────────────────────────

fn tool_stream() -> StreamState {
    StreamState {
        parser: Some(ToolCallStreamParser::new(ToolCallFormat::Qwen3XmlFunction)),
        ..StreamState::new(0, false)
    }
}

const WEATHER: &str = "<tool_call>\n<function=get_weather>\n<parameter=location>\nParis\n</parameter>\n</function>\n</tool_call>";

#[test]
fn streaming_emits_tool_calls_delta_and_upgrades_finish() {
    let mut state = tool_stream();
    let pieces = ["Let me check.\n", WEATHER];
    let mut events = Vec::new();
    for (i, piece) in pieces.iter().enumerate() {
        events.extend(handle_streaming_token(Ok(token(i as u32, piece)), &mut state));
    }
    assert!(state.any_tool_calls, "expected at least one tool_call to be emitted");
    assert_eq!(state.next_tool_index, 1);
    assert_eq!(events.len(), 2, "passthrough chunk, then the tool_calls delta");
    assert!(matches!(&events[0], StreamEvent::Content(s) if s == "Let me check.\n"));
    match &events[1] {
        StreamEvent::ToolCall { index, call } => {
            assert_eq!(*index, 0);
            assert_eq!(call.name, "get_weather");
            assert_eq!(call.arguments["location"], "Paris");
            assert!(call.id.starts_with("call_"));
        }
        other => panic!("expected a tool call, got {other:?}"),
    }
    let final_events = handle_streaming_token(Ok(done_token(99, "stop")), &mut state);
    assert!(!final_events.is_empty(), "must emit at least the finish chunk");
    let debug = format!("{:?}", final_events.last().unwrap());
    assert!(
        debug.contains("tool_calls"),
        "final event must carry finish_reason=tool_calls, got debug: {debug}"
    );
}

/// What a client gets: text, and the names of calls in angle brackets.
fn shown(segments: &[Segment]) -> String {
    segments
        .iter()
        .map(|s| match s {
            Segment::Text(t) => t.clone(),
            Segment::Call(c) => format!("[{}:{}]", c.name, Value::Object(c.arguments.clone())),
        })
        .collect()
}

#[test]
fn the_pieces_of_a_stream_do_not_matter() {
    let text = format!("a <b> <tool_{WEATHER} mid {WEATHER}<tool_call>x</tool_call> <tool_ca");
    let mut whole = ToolCallStreamParser::new(ToolCallFormat::Qwen3XmlFunction);
    let mut expected = shown(&whole.feed(&text));
    expected.push_str(&shown(&whole.drain()));
    assert_eq!(
        expected,
        "a <b> <tool_[get_weather:{\"location\":\"Paris\"}] mid \
         [get_weather:{\"location\":\"Paris\"}]<tool_call>x</tool_call> <tool_ca"
    );
    for cut in 0..=text.len() {
        let mut parser = ToolCallStreamParser::new(ToolCallFormat::Qwen3XmlFunction);
        let mut got = shown(&parser.feed(&text[..cut]));
        got.push_str(&shown(&parser.feed(&text[cut..])));
        got.push_str(&shown(&parser.drain()));
        assert_eq!(got, expected, "cut at {cut}");
    }
}

#[test]
fn text_that_may_become_a_call_is_held_back() {
    let mut parser = ToolCallStreamParser::new(ToolCallFormat::Qwen3XmlFunction);
    assert_eq!(shown(&parser.feed("hi <tool")), "hi ");
    assert_eq!(shown(&parser.feed("box>")), "<toolbox>");
    assert_eq!(shown(&parser.feed("<tool_call><function=f>")), "");
    assert_eq!(shown(&parser.drain()), "<tool_call><function=f>");
    assert_eq!(shown(&parser.drain()), "");
}

#[test]
fn blocks_without_a_whole_call_pass_through() {
    for block in [
        "<tool_call></tool_call>",
        "<tool_call><function=f></tool_call>",
        "<tool_call><function=></function></tool_call>",
        "<tool_call><function=f><parameter=k>v</function></tool_call>",
    ] {
        let mut parser = ToolCallStreamParser::new(ToolCallFormat::Qwen3XmlFunction);
        assert_eq!(shown(&parser.feed(block)), block);
    }
    let mut parser = ToolCallStreamParser::new(ToolCallFormat::Qwen3XmlFunction);
    let two = "<tool_call><function=f><parameter=a>\n1\n\n</parameter><parameter=b></parameter></function></tool_call>";
    assert_eq!(shown(&parser.feed(two)), "[f:{\"a\":\"1\\n\",\"b\":\"\"}]");
}

#[test]
fn reasoning_is_not_searched_for_calls_and_the_end_releases_what_is_held() {
    let mut state = tool_stream();
    let thinking = GenerationToken { is_thinking: true, ..token(0, WEATHER) };
    let events = handle_streaming_token(Ok(thinking), &mut state);
    assert!(matches!(&events[..], [StreamEvent::Reasoning(s)] if s == WEATHER));
    assert!(!state.any_tool_calls);
    assert!(handle_streaming_token(Ok(token(1, "<tool_call>")), &mut state).is_empty());
    let end = handle_streaming_token(Ok(done_token(2, "stop")), &mut state);
    assert!(matches!(&end[0], StreamEvent::Content(s) if s == "<tool_call>"));
    assert!(matches!(&end[1], StreamEvent::Finish(Some(r)) if r == "stop"));
}

// ── Messages for a template ──────────────────────────────────────────────────

fn message(arguments: &str) -> ChatMessage {
    ChatMessage {
        role: "assistant".to_owned(),
        content: None,
        tool_calls: Some(vec![RequestToolCall {
            id: Some("call_1".to_owned()),
            kind: Some("function".to_owned()),
            function: RequestToolCallFunction {
                name: "write".to_owned(),
                arguments: arguments.to_owned(),
            },
        }]),
        tool_call_id: None,
        name: None,
    }
}

#[test]
fn owned_tpl_message_parses_arguments_string_to_object() {
    let owned = OwnedTplMessage::from_request(&message(r#"{"path":"a.py","content":"x"}"#));
    let tc = owned.tool_calls_json.expect("tool_calls json built");
    let args = &tc[0]["function"]["arguments"];
    assert!(args.is_object(), "arguments must be a parsed object: {args}");
    assert_eq!(args["path"], "a.py");
    assert_eq!(tc[0]["function"]["name"], "write");
}

#[test]
fn template_messages_keep_the_rest() {
    let owned = OwnedTplMessage::from_request(&message("not json"));
    let tc = owned.tool_calls_json.unwrap();
    assert_eq!(
        tc,
        json(r#"[{"id":"call_1","type":"function","function":{"name":"write","arguments":"not json"}}]"#)
    );
    assert_eq!((owned.role.as_str(), owned.content.as_str()), ("assistant", ""));
    let tool = ChatMessage {
        role: "tool".to_owned(),
        content: Some(MessageContent::Text("ok".to_owned())),
        tool_calls: None,
        tool_call_id: Some("call_1".to_owned()),
        name: Some("write".to_owned()),
    };
    let owned = OwnedTplMessage::from_request(&tool);
    assert_eq!(owned.content, "ok");
    assert!(owned.tool_calls_json.is_none());
    assert_eq!(owned.tool_call_id.as_deref(), Some("call_1"));
    assert_eq!(owned.name.as_deref(), Some("write"));
}

#[test]
fn other_engine_errors_are_answered_by_their_category() {
    let probe = engine_error_response(&Error::SmokeProbe("x".to_owned()));
    assert_eq!((probe.status, probe.kind), (500, "internal_error"));
    let ceiling = Error::ContextCeilingExceeded {
        requested: 131_072,
        positional_max: 40_960,
        trained_max: 40_960,
        lift: "raise --yarn-factor".to_owned(),
    };
    let r = engine_error_response(&ceiling);
    assert_eq!((r.status, r.kind), (503, "service_unavailable"));
    let text = ceiling.message();
    assert!(text.contains("131072") && text.contains("40960"));
    assert!(text.contains("max_position_embeddings") && text.ends_with("raise --yarn-factor"));
}

#[test]
fn categories_have_the_documented_statuses() {
    let expected: [(u16, &str); 11] = [
        (400, "invalid_request_error"),
        (400, "context_length_exceeded"),
        (404, "not_found_error"),
        (507, "oom_during_load"),
        (507, "oom_kv_cache"),
        (503, "oom_mid_stream"),
        (408, "timeout"),
        (503, "service_unavailable"),
        (500, "internal_error"),
        (429, "rate_limit_error"),
        (503, "admission_sla_exceeded"),
    ];
    for (cat, (status, kind)) in CATEGORIES.iter().zip(expected) {
        assert_eq!((cat.status(), cat.error_type()), (status, kind));
    }
}

// ── Metrics ──────────────────────────────────────────────────────────────────

#[test]
fn f5_percentile_u64_edge_cases() {
    assert_eq!(percentile_u64(&[], 50), 0, "empty slice must return 0");
    assert_eq!(percentile_u64(&[5], 50), 5, "single element");
    assert_eq!(percentile_u64(&[1, 2, 3, 4, 5], 50), 3, "p50 of 5");
    assert_eq!(percentile_u64(&[1, 2, 3, 4, 5], 100), 5, "p100 must be max");
    assert_eq!(percentile_u64(&[1, 2, 3, 4, 5], 0), 1, "p0 must be min");
}

#[test]
fn percentile_takes_the_nearest_rank() {
    let v: Vec<u64> = (1..=200).collect();
    assert_eq!(percentile_u64(&v, 95), 190);
    assert_eq!(percentile_u64(&v, 99), 198);
    assert_eq!(percentile_u64(&[10, 20, 30], 34), 20);
    assert_eq!(percentile_u64(&[10, 20, 30], 33), 10);
    assert_eq!(percentile_u64(&[10, 20, 30], 1000), 30);
}

#[test]
fn ssd_histogram_overflow_no_double_count() {
    let mut h = SsdHistogram::default();
    h.observe(2_000_000);
    assert_eq!(h.count, 1, "_count should be 1 after one observation");
    assert_eq!(h.count_inf_overflow, 1, "overflow sentinel should be 1");
    assert!(
        h.buckets.iter().all(|&b| b == 0),
        "no finite bucket should be incremented for an overflow observation"
    );
}

#[test]
fn ssd_histogram_in_range_increments_correct_buckets() {
    let mut h = SsdHistogram::default();
    h.observe(5_000);
    assert_eq!(h.count, 1);
    assert_eq!(h.count_inf_overflow, 0);
    assert_eq!(h.buckets[0], 0);
    assert_eq!(h.buckets[1], 0);
    assert_eq!(h.buckets[2], 0);
    for i in 3..HIST_BUCKETS_US.len() {
        assert_eq!(h.buckets[i], 1, "bucket[{i}] should be 1");
    }
}

#[test]
fn max_tokens_past_structural_ceiling_is_refused_without_an_operator_cap() {
    assert!(enforce_max_tokens_cap(MAX_COMPLETION_TOKENS, u32::MAX).is_ok());
    assert!(enforce_max_tokens_cap(MAX_COMPLETION_TOKENS + 1, u32::MAX).is_err());
    assert!(enforce_max_tokens_cap(u32::MAX, u32::MAX).is_err());
}

#[test]
fn an_operator_cap_lowers_the_ceiling() {
    assert!(enforce_max_tokens_cap(100, 100).is_ok());
    let refusal = enforce_max_tokens_cap(101, 100).unwrap_err();
    assert_eq!((refusal.requested, refusal.ceiling), (101, 100));
}
