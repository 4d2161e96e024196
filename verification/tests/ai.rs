//! Trust blocks, requests, keys and providers.
use agent_m::ai::anthropic;
use agent_m::ai::cache::CacheStats;
use agent_m::ai::keys::{key_warning, resolve_api_key};
use agent_m::ai::models::ModelSpec;
use agent_m::ai::openai::{self, apply_effort, prepare_chat};
use agent_m::ai::provider::{AiError, Provider, ProviderRegistry};
use agent_m::ai::providers::{
    config_models, known_models, load_provider_configs, provider_entries, provider_from_config,
    save_provider_configs, ProviderConfig,
};
use agent_m::ai::trust::{extract_trust_block, TrustData, TRUST_BLOCK_DOC};
use agent_m::ai::types::{ChatRequest, ContentPart, LlmMessage, StopReason, ToolSpec, Usage};
use agent_m::ai::wire::{build_chat_request_body, serialize_messages};
use agent_m::json::{self, Json, Number};

/// What a path of keys and indices leads to.
fn at<'a>(j: &'a Json, path: &[&str]) -> &'a Json {
    let mut here = j;
    for step in path {
        here = match (here, step.parse::<usize>()) {
            (Json::Array(items), Ok(i)) => &items[i],
            _ => match here.get(step) {
                Some(v) => v,
                None => &Json::Null,
            },
        };
    }
    here
}

fn text_at<'a>(j: &'a Json, path: &[&str]) -> &'a str {
    at(j, path).as_str().unwrap_or("<no text>")
}

fn doc(text: &str) -> Json {
    match json::parse(text) {
        Ok(j) => j,
        Err(e) => panic!("{e}"),
    }
}

fn user(content: &str) -> LlmMessage {
    LlmMessage::User { content: content.to_string(), images: Vec::new() }
}

// ------------------------------------------------------------------------- trust
#[test]
fn parses_a_complete_trust_block() {
    let (trust, cleaned) =
        extract_trust_block(&format!("Let me fix that.\n\n{}\n", TRUST_BLOCK_DOC));
    assert_eq!(trust.confidence, Some(85));
    assert_eq!(trust.reason.as_deref(), Some("Expired JWT tokens are not validated."));
    assert_eq!(trust.evidence.len(), 2);
    assert_eq!(trust.evidence[0].file, "auth.ts");
    assert_eq!(trust.evidence[0].line, Some(83));
    assert_eq!(trust.evidence[1].file, "login.test.ts");
    assert!(trust.plan.contains(&"Run tests".to_string()));
    assert_eq!(trust.estimated_time.as_deref(), Some("45 seconds"));
    assert!(!cleaned.contains("<trust>"), "block stripped");
    assert_eq!(cleaned, "Let me fix that.");
    assert_eq!(trust.evidence[0].note.as_deref(), Some("no expiry check"));
    assert_eq!(trust.plan, vec!["Inspect logs", "Update middleware", "Run tests"]);
}

#[test]
fn missing_block_yields_empty_trust_and_unchanged_text() {
    let (trust, cleaned) = extract_trust_block("Plain reply, no block.");
    assert!(trust.is_empty());
    assert_eq!(cleaned, "Plain reply, no block.");
}

#[test]
fn malformed_block_is_stripped_not_fatal() {
    let (trust, cleaned) =
        extract_trust_block("ok\n\n<trust><confidence>abc</confidence></trust>");
    assert!(trust.confidence.is_none());
    assert!(trust.is_empty());
    assert!(!cleaned.contains("<trust>"), "raw markup stripped");
}

#[test]
fn live_deepseek_loose_block_parses_and_strips() {
    let raw = "Hello, human! I'm agent-m, a coding agent running in a terminal, \
ready to help you work with code and files. <confidence 100 Simple informational \
response.<expected_outcome>User receives a greeting and \
identification.</expected_outcome><evidence plan>Greet the user and identify \
myself.<estimated_time>2 minutes</estimated_time>";
    let (trust, cleaned) = extract_trust_block(raw);
    assert_eq!(trust.confidence, Some(100), "fused number extracted");
    assert_eq!(
        trust.expected_outcome.as_deref(),
        Some("User receives a greeting and identification.")
    );
    assert_eq!(trust.estimated_time.as_deref(), Some("2 minutes"));
    assert!(!cleaned.contains('<'), "no raw markup leaks to the transcript: {cleaned:?}");
    assert!(cleaned.contains("Hello, human!"), "prose kept");
}

#[test]
fn mid_reply_confidence_mention_is_not_a_block() {
    let raw = "My confidence in that approach is high, but let me check the code first.";
    let (trust, cleaned) = extract_trust_block(raw);
    assert!(trust.is_empty());
    assert_eq!(cleaned, raw);
}

#[test]
fn duplicate_blocks_last_wins_and_both_are_stripped() {
    let (trust, cleaned) = extract_trust_block(
        "<trust><confidence>40</confidence></trust> then <trust><confidence>90</confidence><reason>revised</reason></trust>",
    );
    assert_eq!(trust.confidence, Some(90));
    assert_eq!(trust.reason.as_deref(), Some("revised"));
    assert!(!cleaned.contains("<trust>"));
}

#[test]
fn only_a_tag_made_of_two_halves_survives() {
    let raw = "a <trust>one</trust> b <trust>two</trust> c <trust>never closed";
    let (_, cleaned) = extract_trust_block(raw);
    assert_eq!(cleaned, "a  b  c <trust>never closed");
    let (_, cleaned) = extract_trust_block("<tr<trust></trust>ust>x</trust>");
    assert_eq!(cleaned, "<trust>x</trust>");
}

#[test]
fn confidence_tiers() {
    let trust = TrustData { confidence: Some(30), ..Default::default() };
    assert_eq!(trust.confidence_tier(), Some(("low", 30)));
    let trust = TrustData { confidence: Some(80), ..Default::default() };
    assert_eq!(trust.confidence_tier(), Some(("high", 80)));
    let trust = TrustData { confidence: Some(50), ..Default::default() };
    assert_eq!(trust.confidence_tier(), Some(("medium", 50)));
    assert_eq!(TrustData::default().confidence_tier(), None);
}

#[test]
fn trust_block_is_stripped_and_wire_stays_byte_stable() {
    let raw = "Fixed it.\n\n<trust><confidence>88</confidence><reason>r</reason></trust>";
    let (trust, cleaned) = extract_trust_block(raw);
    assert_eq!(trust.confidence, Some(88));
    let messages = vec![
        user("hi"),
        LlmMessage::Assistant {
            content: vec![ContentPart::Text { text: cleaned.clone() }],
            usage: None,
            stop_reason: Some(StopReason::Stop),
        },
    ];
    let first = json::render(&serialize_messages(&messages));
    let second = json::render(&serialize_messages(&messages));
    assert!(!first.contains("<trust>"), "no raw block on the wire");
    assert_eq!(first, second, "byte-stable across turns");
}

#[test]
fn user_images_serialize_as_image_url_parts() {
    let messages = vec![LlmMessage::User {
        content: "what is this?".to_string(),
        images: vec!["data:image/png;base64,AAAA".to_string()],
    }];
    let body = serialize_messages(&messages);
    let text = json::render(&body);
    assert!(text.contains("image_url"), "image part emitted: {text}");
    assert!(text.contains("data:image/png;base64,AAAA"));
    assert!(text.contains("\"type\":\"text\""), "text part kept: {text}");
    assert_eq!(json::render(&body), text);
}

#[test]
fn no_images_keeps_plain_string_content() {
    let messages = vec![user("hi")];
    let body = json::render(&serialize_messages(&messages));
    assert!(!body.contains("image_url"));
    assert!(body.contains("\"content\":\"hi\""), "plain content: {body}");
}

#[test]
fn modelspec_defaults_to_no_vision() {
    let spec = ModelSpec::new("deepseek-chat");
    assert!(!spec.supports_images);
}

// ----------------------------------------------------------------------- requests
#[test]
fn builds_request_with_system_and_tools() {
    let request = ChatRequest {
        model: "model-with-cache".into(),
        system: "be helpful".into(),
        messages: vec![user("hi")],
        tools: vec![ToolSpec {
            name: "bash".into(),
            description: "run a command".into(),
            parameters: doc("{\"type\":\"object\"}"),
        }],
        temperature: None,
        variant: None,
    };
    let body = anthropic::build_request_body(&request);
    assert_eq!(text_at(&body, &["model"]), "model-with-cache");
    assert_eq!(text_at(&body, &["system", "0", "text"]), "be helpful");
    assert_eq!(text_at(&body, &["system", "0", "cache_control", "type"]), "ephemeral");
    assert_eq!(text_at(&body, &["tools", "0", "name"]), "bash");
    assert_eq!(text_at(&body, &["tools", "0", "input_schema", "type"]), "object");
    assert_eq!(text_at(&body, &["messages", "0", "role"]), "user");
}

#[test]
fn marks_last_user_messages_for_cache() {
    let mut messages = Vec::new();
    for i in 0..5 {
        messages.push(user(&format!("msg {i}")));
    }
    let body = anthropic::serialize_messages(&messages);
    let arr = body.as_array().unwrap();
    let marked: Vec<usize> = arr
        .iter()
        .enumerate()
        .filter(|(_, m)| at(m, &["content", "0"]).get("cache_control").is_some())
        .map(|(i, _)| i)
        .collect();
    assert_eq!(marked, vec![2, 3, 4], "last 3 user messages marked");
}

#[test]
fn parses_data_uri() {
    let (media, data) = anthropic::parse_data_uri("data:image/png;base64,AAAA").expect("parses");
    assert_eq!(media, "image/png");
    assert_eq!(data, "AAAA");
    assert!(anthropic::parse_data_uri("not-a-uri").is_none());
}

#[test]
fn maps_stop_reasons() {
    assert_eq!(anthropic::stop_reason_from_wire("end_turn", false), StopReason::Stop);
    assert_eq!(anthropic::stop_reason_from_wire("max_tokens", false), StopReason::Length);
    assert_eq!(anthropic::stop_reason_from_wire("tool_use", false), StopReason::ToolUse);
    assert_eq!(anthropic::stop_reason_from_wire("other", true), StopReason::ToolUse);
    assert_eq!(openai::stop_reason_from_wire("length", false), StopReason::Length);
}

#[test]
fn records_and_reports_hit_ratio() {
    let mut stats = CacheStats::default();
    assert_eq!(stats.hit_fraction(), None);
    let usage = Usage {
        input_tokens: 1000,
        output_tokens: 50,
        cache_read_tokens: 900,
        cache_creation_tokens: 100,
        total_tokens: 1050,
    };
    assert!(stats.can_record(&usage));
    stats.record(&usage);
    assert_eq!(stats.requests, 1);
    assert_eq!(stats.hit_tokens, 900);
    let (hits, all) = stats.hit_fraction().unwrap();
    let ratio = hits as f64 / all as f64;
    assert!((ratio - 0.9).abs() < f64::EPSILON);
    let full = CacheStats { hit_tokens: u64::MAX, miss_tokens: 0, requests: 1 };
    assert!(!full.can_record(&usage));
}

#[test]
fn cost_uses_cache_hit_pricing() {
    let usage = Usage {
        input_tokens: 1000,
        output_tokens: 1000,
        cache_read_tokens: 800,
        cache_creation_tokens: 100,
        total_tokens: 2000,
    };
    // 800 cached-read @ $0.07 + 200 cache-miss @ $0.27 + 1000 out @ $1.10.
    let (hit, stored, fresh, out) = ModelSpec::billed_tokens(&usage);
    let miss = stored + fresh;
    let cost = (hit as f64 * 0.07 + miss as f64 * 0.27 + out as f64 * 1.10) / 1_000_000.0;
    let expected = (800.0 * 0.07 + 200.0 * 0.27 + 1000.0 * 1.10) / 1_000_000.0;
    assert!((cost - expected).abs() < 1e-12);
}

#[test]
fn effort_maps_variants_to_reasoning_effort() {
    let body = doc("{\"model\":\"gpt-5\"}");
    let body = apply_effort(body, true, Some("low"));
    assert_eq!(text_at(&body, &["reasoning_effort"]), "low");
    let body = apply_effort(body, true, Some("high"));
    assert_eq!(text_at(&body, &["reasoning_effort"]), "high");
    let body = apply_effort(body, true, Some("max"));
    assert_eq!(text_at(&body, &["reasoning_effort"]), "high");
}

#[test]
fn effort_default_and_unsupported_omit_the_field() {
    let body = doc("{\"model\":\"gpt-5\"}");
    let body = apply_effort(body, true, None);
    assert!(body.get("reasoning_effort").is_none());
    let body = apply_effort(body, true, Some("default"));
    assert!(body.get("reasoning_effort").is_none());
    let body = apply_effort(body, true, Some("high"));
    let body = apply_effort(body, true, Some("default"));
    assert!(body.get("reasoning_effort").is_none());
    let body = doc("{\"model\":\"deepseek-reasoner\"}");
    let body = apply_effort(body, false, Some("high"));
    assert!(body.get("reasoning_effort").is_none());
}

fn sample_messages() -> Vec<LlmMessage> {
    vec![
        LlmMessage::System { content: "You are a coding agent.".to_string() },
        user("Read the file"),
        LlmMessage::Assistant {
            content: vec![
                ContentPart::Text { text: "Let me look.".to_string() },
                ContentPart::ToolCall {
                    id: "call_1".to_string(),
                    name: "read".to_string(),
                    arguments: doc("{\"path\":\"src/main.rs\"}"),
                },
            ],
            usage: Some(Usage {
                input_tokens: 10,
                output_tokens: 5,
                cache_read_tokens: 0,
                cache_creation_tokens: 10,
                total_tokens: 15,
            }),
            stop_reason: Some(StopReason::ToolUse),
        },
        LlmMessage::Tool {
            tool_call_id: "call_1".to_string(),
            name: "read".to_string(),
            content: "fn main() {}".to_string(),
        },
    ]
}

fn plain_request(system: &str, messages: Vec<LlmMessage>) -> ChatRequest {
    ChatRequest {
        model: "deepseek-chat".to_string(),
        system: system.to_string(),
        messages,
        tools: vec![],
        temperature: None,
        variant: None,
    }
}

#[test]
fn serialization_is_deterministic() {
    let a = json::render(&serialize_messages(&sample_messages()));
    let b = json::render(&serialize_messages(&sample_messages()));
    assert_eq!(a, b);
}

#[test]
fn shared_prefix_is_byte_identical() {
    let mut first = sample_messages();
    first.push(user("First follow-up"));
    let mut second = sample_messages();
    second.push(user("First follow-up"));
    second.push(user("Second follow-up"));

    let messages_first = json::render(&serialize_messages(&first)).into_bytes();
    let messages_second = json::render(&serialize_messages(&second)).into_bytes();
    assert!(messages_second.starts_with(&messages_first[..messages_first.len() - 1]));

    let body_first = json::render(&build_chat_request_body(&plain_request("", first))).into_bytes();
    let body_second =
        json::render(&build_chat_request_body(&plain_request("", second))).into_bytes();
    let shared_prefix_len =
        body_first.iter().position(|byte| *byte == b']').expect("messages array close") + 1;
    assert_eq!(body_first[..shared_prefix_len], body_second[..shared_prefix_len]);
}

#[test]
fn system_prompt_is_prepended_as_first_message() {
    let body =
        build_chat_request_body(&plain_request("You are a coding agent.", vec![user("hi")]));
    assert_eq!(text_at(&body, &["messages", "0", "role"]), "system");
    assert_eq!(text_at(&body, &["messages", "0", "content"]), "You are a coding agent.");
    assert_eq!(text_at(&body, &["messages", "1", "role"]), "user");
    let no_system = build_chat_request_body(&plain_request("", vec![user("hi")]));
    assert_eq!(text_at(&no_system, &["messages", "0", "role"]), "user");
}

#[test]
fn tool_call_wire_shape() {
    let wire = serialize_messages(&sample_messages());
    let assistant = at(&wire, &["2"]);
    assert_eq!(text_at(assistant, &["role"]), "assistant");
    assert_eq!(text_at(assistant, &["tool_calls", "0", "id"]), "call_1");
    assert_eq!(text_at(assistant, &["tool_calls", "0", "function", "name"]), "read");
    assert_eq!(
        text_at(assistant, &["tool_calls", "0", "function", "arguments"]),
        "{\"path\":\"src/main.rs\"}"
    );
    let tool_result = at(&wire, &["3"]);
    assert_eq!(text_at(tool_result, &["role"]), "tool");
    assert_eq!(text_at(tool_result, &["tool_call_id"]), "call_1");
}

fn read_request(messages: Vec<LlmMessage>) -> ChatRequest {
    let mut request = plain_request("", messages);
    request.tools = vec![ToolSpec {
        name: "read".to_string(),
        description: "Read a file".to_string(),
        parameters: doc("{\"type\":\"object\",\"properties\":{\"path\":{\"type\":\"string\"}}}"),
    }];
    request
}

fn assert_keys_sorted(value: &serde_json::Value) {
    match value {
        serde_json::Value::Object(map) => {
            let keys: Vec<&String> = map.keys().collect();
            let mut sorted = keys.clone();
            sorted.sort();
            assert_eq!(keys, sorted, "object keys are sorted (deterministic)");
            for value in map.values() {
                assert_keys_sorted(value);
            }
        }
        serde_json::Value::Array(items) => {
            for item in items {
                assert_keys_sorted(item);
            }
        }
        _ => {}
    }
}

#[test]
fn request_body_has_expected_shape_and_deterministic_order() {
    let models = vec![ModelSpec::new("deepseek-chat"), ModelSpec::new("deepseek-reasoner")];
    let body = match prepare_chat("deepseek", true, &models, &read_request(vec![user("hi")])) {
        Ok(body) => body,
        Err(e) => panic!("{}", e.message()),
    };
    assert_eq!(text_at(&body, &["model"]), "deepseek-chat");
    assert_eq!(at(&body, &["stream"]).as_bool(), Some(true));
    assert_eq!(text_at(&body, &["messages", "0", "role"]), "user");
    assert_eq!(text_at(&body, &["messages", "0", "content"]), "hi");
    assert_eq!(text_at(&body, &["tools", "0", "function", "name"]), "read");
    let sent: serde_json::Value = serde_json::from_str(&json::render(&body)).unwrap();
    assert_keys_sorted(&sent);
}

#[test]
fn provider_errors_surface_as_api_error() {
    let error = AiError::Api(openai::http_error(
        "401 Unauthorized",
        "DeepSeek",
        "{\"error\":{\"message\":\"bad key\"}}",
    ));
    assert!(error.message().contains("HTTP 401"), "got: {}", error.message());
    assert_eq!(
        error.message(),
        "provider returned an error: HTTP 401 Unauthorized from DeepSeek: {\"error\":{\"message\":\"bad key\"}}"
    );
}

#[test]
fn http_error_returns_ai_error() {
    let msg = AiError::Api(openai::http_error(
        "429 Too Many Requests",
        "Anthropic",
        "{\"type\":\"error\",\"error\":{\"type\":\"rate_limit_error\",\"message\":\"Rate limited\"}}",
    ))
    .message();
    assert!(
        msg.contains("429") || msg.contains("rate") || msg.contains("Rate") || msg.contains("API"),
        "unexpected error: {msg}"
    );
}

#[test]
fn missing_key_is_reported() {
    let models = vec![ModelSpec::new("deepseek-chat")];
    let error = match prepare_chat("deepseek", false, &models, &read_request(vec![user("hi")])) {
        Ok(_) => panic!("missing key should fail"),
        Err(error) => error,
    };
    assert!(error.message().contains("DEEPSEEK_API_KEY"), "got: {}", error.message());
}

#[test]
fn vision_gate_rejects_images_on_text_only_models() {
    let models = vec![ModelSpec::new("deepseek-chat")];
    let request = plain_request(
        "you",
        vec![LlmMessage::User {
            content: "what is this?".to_string(),
            images: vec!["data:image/png;base64,AAAA".to_string()],
        }],
    );
    let error = match prepare_chat("deepseek", true, &models, &request) {
        Ok(_) => panic!("must reject images"),
        Err(error) => error,
    };
    assert!(
        error.message().contains("does not support image input"),
        "got: {}",
        error.message()
    );
    let seeing = vec![ModelSpec::new("deepseek-chat").supports_images(true)];
    assert!(prepare_chat("deepseek", true, &seeing, &request).is_ok());
}

#[test]
fn errors_are_told_in_words() {
    assert_eq!(
        AiError::ProviderNotFound("x".to_string()).message(),
        "provider `x` is not registered"
    );
    assert_eq!(AiError::Http("gone".to_string()).message(), "HTTP request to provider failed: gone");
    assert_eq!(AiError::Sse("bad".to_string()).message(), "malformed streaming response: bad");
    assert_eq!(
        AiError::MissingApiKey { provider: "a".to_string(), env_var: "A_API_KEY".to_string() }
            .message(),
        "no API key for provider `a`; set A_API_KEY or add it to auth.json"
    );
}

#[test]
fn temperature_is_sent_where_it_is_given() {
    let mut request = plain_request("", vec![user("hi")]);
    request.temperature = Some(Number::Unsigned(1));
    let body = build_chat_request_body(&request);
    assert_eq!(at(&body, &["temperature"]).as_u64(), Some(1));
    request.temperature = None;
    assert!(build_chat_request_body(&request).get("temperature").is_none());
}

// --------------------------------------------------------------------------- keys
#[test]
fn reads_nested_auth_shape() {
    let auth = "{\"providers\": {\"deepseek\": {\"apiKey\": \"nested-key\"}}}";
    assert_eq!(
        resolve_api_key("UNSET_VAR_XYZ", "deepseek", Some(auth), None),
        Some("nested-key".to_string())
    );
}

#[test]
fn reads_flat_auth_shape() {
    let auth = "{\"deepseek\": \"flat-key\"}";
    assert_eq!(
        resolve_api_key("UNSET_VAR_XYZ", "deepseek", Some(auth), None),
        Some("flat-key".to_string())
    );
}

#[test]
fn auth_json_wins_over_env_var() {
    let auth = "{\"providers\": {\"deepseek\": {\"apiKey\": \"file-key\"}}}";
    assert_eq!(
        resolve_api_key("AGENT_M_TEST_ENV_KEY", "deepseek", Some(auth), None),
        Some("file-key".to_string())
    );
    let settings = "{\"deepseek\": \"settings-key\"}";
    assert_eq!(
        resolve_api_key("AGENT_M_TEST_ENV_KEY", "deepseek", Some(auth), Some(settings)),
        Some("file-key".to_string())
    );
    assert_eq!(
        resolve_api_key("AGENT_M_TEST_ENV_KEY", "deepseek", None, Some(settings)),
        Some("settings-key".to_string())
    );
}

#[test]
fn missing_key_returns_none() {
    assert_eq!(resolve_api_key("UNSET_VAR_XYZ", "deepseek", None, None), None);
}

#[test]
fn reads_dotenv_style_auth_line() {
    let auth = "DEEPSEEK_API_KEY=sk-dotenv-line\n";
    assert_eq!(
        resolve_api_key("UNSET_VAR_XYZ", "deepseek", Some(auth), None),
        Some("sk-dotenv-line".to_string())
    );
}

#[test]
fn reads_bare_provider_line_and_export_prefix() {
    let auth = "export deepseek = sk-bare-key\n";
    assert_eq!(
        resolve_api_key("UNSET_VAR_XYZ", "deepseek", Some(auth), None),
        Some("sk-bare-key".to_string())
    );
}

#[test]
fn mixed_file_is_not_valid_json_and_falls_back_to_dotenv() {
    let auth = "{\"deepseek\": \"json-key\"}\nDEEPSEEK_API_KEY=sk-dotenv\n";
    assert_eq!(
        resolve_api_key("UNSET_VAR_XYZ", "deepseek", Some(auth), None),
        Some("sk-dotenv".to_string())
    );
}

#[test]
fn empty_and_unrelated_lines_are_ignored() {
    let auth = "# comment\n\nOPENAI_API_KEY=sk-other\nDEEPSEEK_API_KEY=\n";
    assert_eq!(resolve_api_key("UNSET_VAR_XYZ", "deepseek", Some(auth), None), None);
}

// ---------------------------------------------------------------------- providers
fn config(id: &str, model: &str, models: Option<Vec<String>>) -> ProviderConfig {
    ProviderConfig {
        id: id.to_string(),
        name: None,
        base_url: "https://api.example.com/v1".to_string(),
        model: model.to_string(),
        reasoning: true,
        supports_images: false,
        context_window: 300_000,
        api_key_env: None,
        protocol: None,
        models,
    }
}

#[test]
fn config_models_primary_first_then_extra_ids() {
    let mut c = config(
        "openai",
        "gpt-4o-mini",
        Some(vec!["gpt-5".to_string(), "o3-mini".to_string()]),
    );
    c.base_url = "https://api.openai.com/v1".to_string();
    c.supports_images = true;
    c.context_window = 128_000;
    let specs = config_models(&c, &[]);
    let ids: Vec<&str> = specs.iter().map(|s| s.id.as_str()).collect();
    assert_eq!(ids, vec!["gpt-4o-mini", "gpt-5", "o3-mini"]);
    let first = &specs[0];
    assert!(first.supports_effort);
    assert_eq!(first.variants, vec!["default", "low", "high", "max"]);
    assert!(first.supports_images);
}

#[test]
fn config_models_falls_back_to_known_suggestions() {
    let mut c = config("openai", "gpt-4o", None);
    c.base_url = "https://api.openai.com/v1".to_string();
    c.reasoning = false;
    c.context_window = 128_000;
    let specs = config_models(&c, &[]);
    let ids: Vec<&str> = specs.iter().map(|s| s.id.as_str()).collect();
    assert_eq!(ids[0], "gpt-4o");
    assert!(ids.len() > 1, "known suggestions should fill the list");
    assert!(ids.contains(&"gpt-4o-mini"));
}

#[test]
fn well_known_providers_have_their_models() {
    let given = vec!["first-model".to_string(), "second-model".to_string()];
    assert_eq!(
        known_models("openai", &given),
        vec!["gpt-4o", "gpt-4o-mini", "gpt-4.1", "gpt-4.1-mini", "o3-mini", "gpt-5"]
    );
    assert_eq!(known_models("anthropic", &given), given);
    assert_eq!(
        known_models("groq", &given),
        vec!["llama-3.3-70b-versatile", "llama-3.1-8b-instant"]
    );
    assert_eq!(known_models("openrouter", &given), vec!["anthropic/first-model", "openai/gpt-5"]);
    assert_eq!(known_models("openrouter", &[]), vec!["openai/gpt-5"]);
    assert!(known_models("local", &given).is_empty());
}

#[test]
fn a_key_in_the_settings_is_warned_of() {
    let held = "{\"acme\": \"k\"}";
    let warning = key_warning("acme", None, Some(held)).expect("a warning");
    assert_eq!(
        warning,
        "API key for acme found in settings.json! This file is world-readable (0644). Please move it to auth.json immediately."
    );
    assert_eq!(key_warning("acme", Some(held), Some(held)), None);
    assert_eq!(key_warning("acme", None, None), None);
}

#[test]
fn config_models_deepseek_gets_no_effort_variants() {
    let mut c = config("deepseek", "deepseek-reasoner", None);
    c.base_url = "https://api.deepseek.com".to_string();
    c.context_window = 1_000_000;
    let specs = config_models(&c, &[]);
    let first = &specs[0];
    assert!(first.reasoning);
    assert!(!first.supports_effort, "DeepSeek has no reasoning_effort");
}

/// An entry as the settings give it, with what it leaves out.
fn read_entry(text: &str) -> Option<ProviderConfig> {
    let j = json::parse(text).ok()?;
    Some(ProviderConfig {
        id: j.get_str("id")?.to_string(),
        name: j.get_str("name").map(|s| s.to_string()),
        base_url: j.get_str("baseUrl")?.to_string(),
        model: j.get_str("model")?.to_string(),
        reasoning: j.get("reasoning").and_then(|v| v.as_bool()).unwrap_or(false),
        supports_images: j.get("supportsImages").and_then(|v| v.as_bool()).unwrap_or(false),
        context_window: j
            .get("contextWindow")
            .and_then(|v| v.as_u64())
            .unwrap_or(agent_m::ai::providers::default_context_window()),
        api_key_env: None,
        protocol: None,
        models: None,
    })
}

fn load(settings: &str) -> Vec<ProviderConfig> {
    load_provider_configs(provider_entries(settings).iter().map(|e| read_entry(e)).collect())
}

#[test]
fn loads_valid_providers_with_defaults() {
    let providers = load(
        "{
            \"theme\": \"dark\",
            \"providers\": [
                {\"id\": \"openai\", \"baseUrl\": \"https://api.openai.com/v1\", \"model\": \"gpt-4o-mini\"},
                {\"id\": \"local\", \"name\": \"Ollama\", \"baseUrl\": \"http://localhost:11434/v1\",
                 \"model\": \"llama3.2\", \"contextWindow\": 131072, \"reasoning\": false}
            ]
        }",
    );
    assert_eq!(providers.len(), 2);
    assert_eq!(providers[0].id, "openai");
    assert_eq!(providers[0].context_window, 128_000, "default window");
    assert_eq!(providers[0].key_env(), "OPENAI_API_KEY", "derived env name");
    assert_eq!(providers[1].name.as_deref(), Some("Ollama"));
    assert_eq!(providers[1].context_window, 131_072);
    assert!(!providers[1].reasoning);
}

#[test]
fn invalid_entries_are_skipped_not_fatal() {
    let providers = load(
        "{\"providers\": [
            {\"id\": \"ok\", \"baseUrl\": \"https://x.example/v1\", \"model\": \"m\"},
            {\"id\": \"Bad ID!\", \"baseUrl\": \"https://x.example/v1\", \"model\": \"m\"},
            {\"id\": \"nourl\", \"baseUrl\": \"\", \"model\": \"m\"},
            {\"id\": \"nomodel\", \"baseUrl\": \"https://x.example/v1\", \"model\": \"\"},
            \"not an object\"
        ]}",
    );
    assert_eq!(providers.len(), 1, "only the valid entry survives");
    assert_eq!(providers[0].id, "ok");
}

#[test]
fn save_merges_and_preserves_other_keys() {
    let existing = "{\"theme\": \"light\", \"allowedPaths\": [\"/tmp\"]}";
    let providers = doc(
        "[{\"id\": \"openai\", \"baseUrl\": \"https://api.openai.com/v1\", \"model\": \"gpt-4o-mini\", \"supportsImages\": true}]",
    );
    let written = save_provider_configs(Some(existing), providers).unwrap();
    assert!(written.ends_with("}\n"));
    let saved = doc(&written);
    assert_eq!(text_at(&saved, &["theme"]), "light", "unrelated key preserved");
    assert_eq!(text_at(&saved, &["allowedPaths", "0"]), "/tmp");
    assert_eq!(text_at(&saved, &["providers", "0", "id"]), "openai");
    assert_eq!(
        at(&saved, &["providers", "0", "supportsImages"]).as_bool(),
        Some(true),
        "camelCase on the wire"
    );
}

#[test]
fn providers_missing_config_yields_empty() {
    assert!(load("").is_empty());
    assert!(load("{}").is_empty());
}

#[test]
fn factory_builds_spec_from_config() {
    let c = config("acme", "model-x", None);
    let provider = provider_from_config(&c, None, None, None, &[]);
    let models = provider.models();
    assert_eq!(models.len(), 1);
    let spec = &models[0];
    assert_eq!(spec.id, "model-x");
    assert_eq!(spec.context_window, Some(300_000), "window from config");
    assert!(spec.reasoning, "reasoning from config");
    assert_eq!(provider.id(), "acme");
    assert_eq!(provider.display_name(), "acme");
    assert_eq!(c.key_env(), "ACME_API_KEY");
}

#[test]
fn factory_resolves_key_from_agent_dir_auth() {
    let c = config("acme", "model-x", None);
    let auth = "{\"acme\": \"sk-acme-key\"}";
    let provider = provider_from_config(&c, None, Some(auth), None, &[]);
    assert_eq!(provider.api_key(), Some("sk-acme-key"));
    let provider = provider_from_config(&c, Some("sk-override".into()), Some(auth), None, &[]);
    assert_eq!(provider.api_key(), Some("sk-override"));
}

#[test]
fn registry_lists_providers_in_order() {
    let mut registry = ProviderRegistry::new();
    for id in ["zeta", "alpha", "mid"] {
        registry.register(provider_from_config(&config(id, "m", None), None, None, None, &[]));
    }
    assert_eq!(registry.ids(), vec!["alpha", "mid", "zeta"]);
    let mut again = provider_from_config(&config("mid", "other", None), None, None, None, &[]);
    again.set_api_key("k".to_string());
    registry.register(again);
    assert_eq!(registry.ids().len(), 3);
    assert_eq!(registry.get("mid").unwrap().models()[0].id, "other");
    let all: Vec<&str> = registry.iter().into_iter().map(|p| p.id()).collect();
    assert_eq!(all, vec!["alpha", "mid", "zeta"]);
    assert_eq!(registry.get("mid").unwrap().api_key(), Some("k"));
    assert!(registry.get("none").is_none());
}

#[test]
fn deepseek_offers_its_models() {
    let plan = openai::deepseek(Some("k".to_string()));
    assert_eq!(plan.id(), "deepseek");
    assert_eq!(plan.base_url, "https://api.deepseek.com");
    let ids: Vec<&str> = plan.models().iter().map(|m| m.id.as_str()).collect();
    assert_eq!(
        ids,
        vec!["deepseek-chat", "deepseek-reasoner", "deepseek-v4-flash", "deepseek-v4-pro"]
    );
    assert!(!plan.models()[0].reasoning);
    assert_eq!(plan.models()[3].context_window, Some(1_000_000));
}
