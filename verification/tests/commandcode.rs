use one_router::adapter::commandcode::{
    answer_from_body, build_request, choose_transport, current_transport, falls_back, is_upgrade_required,
    provider_answer, remember_transport, reset_transport, url_for, Transport, TransportCache,
};
use one_router::codex::sse_bridge::ClaudeSse;
use one_router::commandcode::api_key::{first_key, key_from_auth_json, key_from_setting};
use one_router::commandcode::browser_login::{
    answer_callback, auth_timeout_ms, authorize_url_for, callback_port, far_future_expiry,
    login_outcome, parse_head, sanitize_api_key, ten_years_after, validate_state, AuthCallback, Connection,
    LoginError, Progress, RequestOutcome,
};
use one_router::commandcode::slug::project_slug_from_path;
use one_router::commandcode::stream::{
    aggregate_ndjson, chat_chunk_for_event, chat_chunk_with, ChunkState, NdjsonStream, Stamp,
};
use one_router::commandcode::transform::{
    envelope_of, ndjson_embedded_error, parse_event_line, transform_request,
};
use one_router::error::AppError;
use one_router::json::Json;
use one_router::model::{Credentials, Provider, ProviderKind, WireFormat};
use serde_json::Value;

fn j(text: &str) -> Json {
    Json::from_value(serde_json::from_str(text).unwrap())
}

fn val(text: &str) -> Value {
    serde_json::from_str(text).unwrap()
}

fn transformed(text: &str, thread: &str, dir: &str) -> Value {
    transform_request(&j(text), thread, dir, "linux-x86_64, 1router/0.1.0").to_value()
}

fn chunk(state: &mut ChunkState, event: &str) -> Option<Value> {
    chat_chunk_for_event(state, &j(event), "m").map(|c| c.to_value())
}

#[test]
fn transform_request_builds_the_command_code_envelope() {
    let out = transformed(
        r#"{"model":"pool-x","messages":[{"role":"user","content":"hi"}],"max_tokens":100,"stream":true}"#,
        "thread-1",
        "/tmp/project",
    );
    for key in ["config", "memory", "taste", "skills", "params", "threadId"] {
        assert!(out.get(key).is_some(), "missing {key}");
    }
    assert_eq!(out["params"]["stream"], true);
    assert_eq!(out["params"]["messages"][0], val(r#"{"role":"user","content":"hi"}"#));
    assert_eq!(out["params"]["temperature"], 0.3);
    assert_eq!(out["params"]["max_tokens"], 100);
    assert!(out["memory"].is_null());
    assert!(out["taste"].is_null());
    assert!(out["skills"].is_null());
    assert_eq!(out["threadId"], "thread-1");
    assert_eq!(out["config"]["workingDir"], "/tmp/project");
    assert_eq!(out["config"]["date"].as_str().unwrap().len(), 10);
}

#[test]
fn transform_request_lifts_system_messages_into_params_system() {
    let out = transformed(
        r#"{"model":"m","messages":[{"role":"system","content":"be terse"},{"role":"user","content":"hi"}]}"#,
        "t",
        "/p",
    );
    assert_eq!(out["params"]["system"], "be terse");
    assert_eq!(out["params"]["messages"], val(r#"[{"role":"user","content":"hi"}]"#));
}

#[test]
fn transform_request_converts_tools_and_tool_calls() {
    let out = transformed(
        r#"{"model":"m","messages":[
            {"role":"assistant","tool_calls":[{"id":"t1","type":"function","function":{"name":"lookup","arguments":"{\"q\":\"x\"}"}}]},
            {"role":"tool","tool_call_id":"t1","content":"ok"},
            {"role":"assistant","tool_calls":[{"id":"orphan","type":"function","function":{"name":"nope","arguments":"{}"}}]},
            {"role":"tool","tool_call_id":"missing","content":"drop"}],
            "tools":[{"type":"function","function":{"name":"lookup","description":"Find","parameters":{"type":"object"}}}]}"#,
        "t",
        "/p",
    );
    assert_eq!(
        out["params"]["tools"],
        val(r#"[{"type":"function","name":"lookup","description":"Find","input_schema":{"type":"object"}}]"#)
    );
    assert_eq!(
        out["params"]["messages"][0]["content"][0],
        val(r#"{"type":"tool-call","toolCallId":"t1","toolName":"lookup","input":{"q":"x"}}"#)
    );
    assert_eq!(
        out["params"]["messages"][1]["content"][0],
        val(r#"{"type":"tool-result","toolCallId":"t1","output":{"type":"text","value":"ok"}}"#)
    );
    assert_eq!(out["params"]["messages"].as_array().unwrap().len(), 2);
}

#[test]
fn calls_without_answers_stay_behind() {
    let out = transformed(
        r#"{"messages":[
            {"role":"assistant","content":"thinking","tool_calls":[{"id":"x","function":{"name":"f","arguments":"{}"}}]},
            {"role":"tool","tool_call_id":"y","content":"late"},
            {"role":"user","content":"go on"}]}"#,
        "t",
        "/p",
    );
    let printed = out["params"]["messages"].to_string();
    assert!(!printed.contains("tool-call") && !printed.contains("tool-result"));
    assert_eq!(out["params"]["messages"].as_array().unwrap().len(), 2);
}

#[test]
fn streamed_and_whole_answers_say_the_same() {
    let body = "{\"type\":\"text-delta\",\"text\":\"hello \"}\n{\"type\":\"reasoning-delta\",\"text\":\"hm\"}\n{\"type\":\"text-delta\",\"text\":\"world\"}\n{\"type\":\"finish\",\"finishReason\":\"stop\"}\n";
    let whole = aggregate_ndjson(body, "m").to_value();
    let mut said = String::new();
    let mut thought = String::new();
    for block in streamed(&[body.as_bytes()]).split("\n\n") {
        if let Some(payload) = block.strip_prefix("data: {") {
            let delta = val(&format!("{{{payload}"))["choices"][0]["delta"].clone();
            said.push_str(delta["content"].as_str().unwrap_or(""));
            thought.push_str(delta["reasoning_content"].as_str().unwrap_or(""));
        }
    }
    assert_eq!(whole["choices"][0]["message"]["content"], said.as_str());
    assert_eq!(whole["choices"][0]["message"]["reasoning_content"], thought.as_str());
    assert_eq!(said, "hello world");
}

#[test]
fn token_limit_stays_in_bounds() {
    let limit = |m: &str| {
        envelope_of(&j(&format!("{{\"max_tokens\":{m}}}")), "t", "/", "2026-01-01", "e").to_value()
            ["params"]["max_tokens"]
            .clone()
    };
    assert_eq!(limit("0"), 1);
    assert_eq!(limit("-5"), 1);
    assert_eq!(limit("70000"), 64000);
    assert_eq!(limit("null"), 64000);
    assert_eq!(limit("12"), 12);
}

#[test]
fn arguments_that_are_no_object_become_an_empty_one() {
    let out = transformed(
        r#"{"messages":[
            {"role":"assistant","content":"so","tool_calls":[{"id":"a","function":{"name":"f","arguments":"[1]"}}]},
            {"role":"tool","tool_call_id":"a","content":[{"text":"x"},{"text":"y"}]}]}"#,
        "t",
        "/p",
    );
    assert_eq!(out["params"]["messages"][0]["content"][0]["text"], "so");
    assert_eq!(out["params"]["messages"][0]["content"][1]["input"], val("{}"));
    assert_eq!(out["params"]["messages"][1]["content"][0]["output"]["value"], "xy");
    assert!(out["params"]["system"].is_null());
}

#[test]
fn parse_event_line_is_tolerant() {
    let event = val(r#"{"type":"text-delta","text":"a"}"#);
    assert_eq!(
        parse_event_line(r#"{"type":"text-delta","text":"a"}"#).unwrap().to_value(),
        event
    );
    assert_eq!(
        parse_event_line(r#"data: {"type":"text-delta","text":"a"}"#).unwrap().to_value(),
        event
    );
    for line in ["", ":comment", "event: foo", "data: [DONE]"] {
        assert!(parse_event_line(line).is_none(), "{line:?}");
    }
}

#[test]
fn chat_chunk_for_event_maps_text_and_reasoning() {
    let mut state = ChunkState::default();
    let text = chunk(&mut state, r#"{"type":"text-delta","text":"a"}"#).unwrap();
    assert_eq!(text["choices"][0]["delta"]["content"], "a");
    assert!(text["id"].as_str().unwrap().starts_with("chatcmpl-"));
    let reasoning = chunk(&mut state, r#"{"type":"reasoning-delta","text":"think"}"#).unwrap();
    assert_eq!(reasoning["choices"][0]["delta"]["reasoning_content"], "think");
    assert_eq!(reasoning["id"], text["id"]);
    assert!(chunk(&mut state, r#"{"type":"reasoning-start"}"#).is_none());
    assert!(chunk(&mut state, r#"{"type":"reasoning-end"}"#).is_none());
}

#[test]
fn chat_chunk_for_event_maps_tool_calls() {
    let mut state = ChunkState::default();
    let c = chunk(
        &mut state,
        r#"{"type":"tool-call","toolCallId":"t1","toolName":"lookup","input":{"q":"x"}}"#,
    )
    .unwrap();
    let call = &c["choices"][0]["delta"]["tool_calls"][0];
    assert_eq!(call["index"], 0);
    assert_eq!(call["id"], "t1");
    assert_eq!(call["type"], "function");
    assert_eq!(call["function"]["name"], "lookup");
    assert_eq!(call["function"]["arguments"], r#"{"q":"x"}"#);
}

#[test]
fn finish_event_maps_usage_and_finish_reason() {
    let mut state = ChunkState::default();
    let c = chunk(
        &mut state,
        r#"{"type":"finish","finishReason":"tool-calls","totalUsage":{"inputTokens":100,"outputTokens":20,"inputTokenDetails":{"noCacheTokens":40,"cacheReadTokens":50,"cacheWriteTokens":10}}}"#,
    )
    .unwrap();
    assert_eq!(c["choices"][0]["finish_reason"], "tool_calls");
    assert_eq!(
        c["usage"],
        val(r#"{"prompt_tokens":100,"completion_tokens":20,"total_tokens":120,"prompt_tokens_details":{"cached_tokens":50}}"#)
    );
    for reason in ["length", "max_tokens", "max-tokens", "max_output_tokens"] {
        let c = chunk(&mut state, &format!("{{\"type\":\"finish\",\"finishReason\":\"{reason}\"}}")).unwrap();
        assert_eq!(c["choices"][0]["finish_reason"], "length");
    }
    let c = chunk(&mut state, r#"{"type":"finish","finishReason":"other"}"#).unwrap();
    assert_eq!(c["choices"][0]["finish_reason"], "stop");
}

#[test]
fn an_unnamed_finish_after_a_tool_call_is_one_for_tools() {
    let mut state = ChunkState::default();
    let stamp = Stamp { id: "chatcmpl-x".into(), created: 7 };
    let early = chat_chunk_with(&mut state, &j(r#"{"type":"finish"}"#), "m", &stamp)
        .unwrap()
        .to_value();
    assert_eq!(early["choices"][0]["finish_reason"], "stop");
    assert_eq!(early["id"], "chatcmpl-x");
    assert_eq!(early["created"], 7);
    chat_chunk_with(&mut state, &j(r#"{"type":"tool-call"}"#), "m", &stamp).unwrap();
    let late = chat_chunk_with(&mut state, &j(r#"{"type":"finish"}"#), "m", &stamp)
        .unwrap()
        .to_value();
    assert_eq!(late["choices"][0]["finish_reason"], "tool_calls");
}

fn streamed(chunks: &[&[u8]]) -> String {
    let mut s = NdjsonStream::new("m".into());
    let mut out = String::new();
    for c in chunks {
        s.push_bytes(c);
        while let Some(text) = s.next() {
            out.push_str(&text);
        }
    }
    while let Some(text) = s.end() {
        out.push_str(&text);
    }
    out
}

#[test]
fn convert_ndjson_stream_emits_framed_sse_terminated_by_done() {
    let body = "{\"type\":\"text-delta\",\"text\":\"a\"}\n{\"type\":\"finish\",\"finishReason\":\"stop\",\"totalUsage\":{\"inputTokens\":1,\"outputTokens\":1}}\n".as_bytes();
    let text = streamed(&[&body[..7], &body[7..19], &body[19..]]);
    let items: Vec<&str> = text.split_inclusive("\n\n").collect();
    assert!(items.len() >= 3);
    for item in &items {
        assert!(item.starts_with("data: "));
        assert!(item.ends_with("\n\n"));
        if *item != "data: [DONE]\n\n" {
            let payload = item.strip_prefix("data: ").unwrap().trim();
            assert_eq!(val(payload)["object"], "chat.completion.chunk");
        }
    }
    assert_eq!(items.last().copied(), Some("data: [DONE]\n\n"));
}

#[test]
fn lines_cut_inside_a_character_come_out_whole() {
    let body = "{\"type\":\"text-delta\",\"text\":\"\u{20ac}\u{1f980}\"}".as_bytes();
    for i in 0..=body.len() {
        let text = streamed(&[&body[..i], &body[i..]]);
        assert!(text.contains("\"content\":\"\u{20ac}\u{1f980}\""));
        assert!(text.ends_with("data: [DONE]\n\n"));
    }
    let mut s = NdjsonStream::new("m".into());
    s.push_bytes(&[b'x', 0xe2, 0x82]);
    assert_eq!((s.buffer.as_str(), s.tail.len()), ("x", 2));
    assert_eq!(s.end().as_deref(), Some("data: [DONE]\n\n"));
    assert_eq!((s.buffer.as_str(), s.tail.len()), ("x\u{fffd}", 0));
}

#[test]
fn slugs_are_their_own_slugs() {
    for path in ["C:\\A\\b c", "/x/Y--z/", "caf\u{c9}/\u{1f980}9", "", "q:", "--a--"] {
        let slug = project_slug_from_path(path);
        assert_eq!(project_slug_from_path(&slug), slug);
    }
    assert_eq!(project_slug_from_path("q:"), "project");
    assert_eq!(project_slug_from_path("\u{1f980}/\u{e9}"), "project");
    assert_eq!(project_slug_from_path("/x/Y--z/"), "x-y-z");
}

#[test]
fn a_last_line_without_a_line_feed_still_counts() {
    let text = streamed(&[b"{\"type\":\"text-delta\",\"text\":\"z\"}"]);
    assert!(text.contains("\"content\":\"z\""));
    assert!(text.ends_with("data: [DONE]\n\n"));
    let mut s = NdjsonStream::new("m".into());
    s.stop();
    assert_eq!(s.end(), None);
}

#[test]
fn aggregate_ndjson_builds_a_chat_completion() {
    let body = "{\"type\":\"text-delta\",\"text\":\"hello \"}\n{\"type\":\"text-delta\",\"text\":\"world\"}\n{\"type\":\"finish\",\"finishReason\":\"stop\",\"totalUsage\":{\"inputTokens\":2,\"outputTokens\":3}}\n";
    let out = aggregate_ndjson(body, "m").to_value();
    assert_eq!(out["object"], "chat.completion");
    assert_eq!(out["choices"][0]["message"]["content"], "hello world");
    assert_eq!(out["usage"]["total_tokens"], 5);
}

#[test]
fn ndjson_embedded_error_detects_the_error_event() {
    assert_eq!(
        ndjson_embedded_error(r#"{"type":"error","error":{"message":"boom"}}"#),
        Some("boom".into())
    );
    assert_eq!(
        ndjson_embedded_error(r#"{"type":"error","error":"boom"}"#),
        Some("boom".into())
    );
    assert_eq!(
        ndjson_embedded_error("{\"type\":\"x\"}\r\n{\"type\":\"error\"}"),
        Some("upstream error".into())
    );
    assert_eq!(ndjson_embedded_error("{\"type\":\"x\"}"), None);
}

#[test]
fn project_slug_from_path_matches_reference_rules() {
    assert_eq!(project_slug_from_path(r#"C:\Work\My Project"#), "work-my-project");
    assert_eq!(project_slug_from_path("/tmp/My_Project"), "tmp-my-project");
    assert_eq!(project_slug_from_path("!!!"), "project");
    assert_eq!(project_slug_from_path("\u{212a}elvin"), "kelvin");
}

// ---- requests ------------------------------------------------------------

fn provider(id: &str) -> Provider {
    Provider {
        id: id.into(),
        name: "Command Code".into(),
        wire_format: WireFormat::OpenAi,
        kind: ProviderKind::OauthCommandCode,
        base_url: None,
        api_key: None,
        upstream_model: "cc-model".into(),
        dataset_logging: false,
        created_at: 0,
        updated_at: 0,
    }
}

fn creds() -> Credentials {
    Credentials { access_token: Some("cc-key-123".into()), ..Default::default() }
}

fn built(
    cache: &TransportCache,
    wire: WireFormat,
    body: &[u8],
    creds: &Credentials,
) -> (String, Vec<(String, String)>, Option<String>, Value) {
    let (req, _) = build_request(&provider("cc"), wire, body, creds, cache, "/tmp/My", "env", None);
    let req = req.unwrap().unwrap();
    (req.url, req.headers, req.bearer, req.body.to_value())
}

#[test]
fn build_request_defaults_to_provider_transport() {
    let cache = TransportCache::new();
    let (url, headers, bearer, sent) =
        built(&cache, WireFormat::OpenAi, br#"{"model":"pool","messages":[],"stream":true}"#, &creds());
    assert_eq!(url, "https://api.commandcode.ai/provider/v1/chat/completions");
    assert_eq!(bearer.as_deref(), Some("cc-key-123"));
    let header = |n: &str| headers.iter().find(|h| h.0 == n).map(|h| h.1.clone());
    assert_eq!(header("x-command-code-version").as_deref(), Some("0.29.0"));
    assert_eq!(header("x-cli-environment").as_deref(), Some("production"));
    assert_eq!(header("x-project-slug").as_deref(), Some("tmp-my"));
    assert_eq!(header("x-taste-learning").as_deref(), Some("true"));
    assert_eq!(header("x-co-flag").as_deref(), Some("false"));
    assert_eq!(sent["model"], "cc-model");
    assert!(sent.get("params").is_none());
}

#[test]
fn build_request_targets_generate_when_remembered() {
    let mut cache = TransportCache::new();
    remember_transport(&mut cache, "cc", Transport::Generate);
    let (url, _, _, sent) =
        built(&cache, WireFormat::OpenAi, br#"{"model":"pool","messages":[]}"#, &creds());
    assert_eq!(url, "https://api.commandcode.ai/alpha/generate");
    assert_eq!(sent["params"]["model"], "cc-model");
    assert_eq!(sent["threadId"].as_str().unwrap().len(), 36);
    let date = sent["config"]["date"].as_str().unwrap();
    assert!(date.len() >= 10 && date.chars().all(|c| c.is_ascii_digit() || "+-".contains(c)));
    assert_eq!(current_transport(&cache, "other"), Transport::Provider);
    reset_transport(&mut cache, "cc");
    assert_eq!(current_transport(&cache, "cc"), Transport::Provider);
}

#[test]
fn build_request_generate_only_provider_data_pins_generate_transport() {
    let cache = TransportCache::new();
    let pinned = Credentials {
        access_token: Some("k".into()),
        provider_data: j(r#"{"generate_only":true}"#),
        ..Default::default()
    };
    assert_eq!(choose_transport(&cache, "cc", &pinned), Transport::Generate);
    let (url, _, _, _) = built(&cache, WireFormat::OpenAi, br#"{"messages":[]}"#, &pinned);
    assert_eq!(url, "https://api.commandcode.ai/alpha/generate");
    assert_eq!(
        url_for(Transport::Generate, Some("http://x//")),
        "http://x/alpha/generate"
    );
}

#[test]
fn build_request_bridges_an_anthropic_client_body() {
    let mut cache = TransportCache::new();
    remember_transport(&mut cache, "cc", Transport::Generate);
    let (_, _, _, sent) = built(
        &cache,
        WireFormat::Anthropic,
        br#"{"model":"pool","system":"be terse","messages":[{"role":"user","content":"hi"}],"max_tokens":64}"#,
        &creds(),
    );
    assert_eq!(sent["params"]["system"], "be terse");
    assert_eq!(sent["params"]["messages"][0]["content"], "hi");
}

#[test]
fn provider_body_is_openai_shaped_with_rewritten_model() {
    let (_, _, _, sent) =
        built(&TransportCache::new(), WireFormat::OpenAi, br#"{"model":"pool","messages":[]}"#, &creds());
    assert_eq!(sent["model"], "cc-model");
    assert!(sent.get("params").is_none(), "provider body is not enveloped");
}

#[test]
fn build_request_rewrites_model_to_the_upstream_model() {
    let mut cache = TransportCache::new();
    remember_transport(&mut cache, "cc", Transport::Generate);
    let (_, _, _, sent) =
        built(&cache, WireFormat::OpenAi, br#"{"model":"pool","messages":[]}"#, &creds());
    assert_eq!(sent["params"]["model"], "cc-model");
}

#[test]
fn build_request_uses_access_token_not_api_key() {
    let mut p = provider("cc");
    p.api_key = Some("WRONG".into());
    let cache = TransportCache::new();
    let body = br#"{"messages":[]}"#;
    let (req, _) =
        build_request(&p, WireFormat::OpenAi, body, &creds(), &cache, "/", "e", None);
    assert_eq!(req.unwrap().unwrap().bearer.as_deref(), Some("cc-key-123"));
    let (req, _) = build_request(
        &p,
        WireFormat::OpenAi,
        body,
        &Credentials::default(),
        &cache,
        "/",
        "e",
        None,
    );
    assert!(matches!(req, Some(Err(AppError::Internal(_)))));
}

const GENERATED: &[u8] =
    b"{\"type\":\"text-delta\",\"text\":\"hi\"}\n{\"type\":\"finish\",\"finishReason\":\"stop\"}\n";

#[test]
fn transform_response_streaming_openai_wire_emits_framed_sse() {
    let text = streamed(&[GENERATED]);
    assert!(text.contains("data: "));
    assert!(text.ends_with("data: [DONE]\n\n"));
}

#[test]
fn transform_response_streaming_anthropic_wire_emits_claude_events() {
    let mut sse = ClaudeSse::new();
    let mut text = String::new();
    for block in streamed(&[GENERATED]).split_inclusive("\n\n") {
        for out in sse.push(block) {
            text.push_str(&out);
        }
    }
    assert!(text.contains("event: message_start"));
    assert!(text.contains("event: content_block_delta"));
    assert!(text.contains("event: message_stop"));
}

#[test]
fn provider_transport_passthroughs_openai_json() {
    let openai = br#"{"id":"chatcmpl-1","object":"chat.completion","model":"cc-model","choices":[{"message":{"role":"assistant","content":"hi"},"finish_reason":"stop"}]}"#;
    let json = provider_answer(openai, WireFormat::OpenAi).unwrap().to_value();
    assert_eq!(json["model"], "cc-model");
    assert_eq!(json["choices"][0]["message"]["content"], "hi");
}

#[test]
fn build_request_needs_an_access_token_and_an_object() {
    let cache = TransportCache::new();
    let (no_token, _) = build_request(
        &provider("cc"),
        WireFormat::OpenAi,
        b"{}",
        &Credentials::default(),
        &cache,
        "/",
        "e",
        None,
    );
    assert!(matches!(no_token, Some(Err(AppError::Internal(_)))));
    let (neither, _) = build_request(
        &provider("cc"),
        WireFormat::OpenAi,
        b"[]",
        &Credentials::default(),
        &cache,
        "/",
        "e",
        None,
    );
    assert!(matches!(
        neither,
        Some(Err(AppError::Internal(m))) if m == "commandcode provider missing access_token"
    ));
    let (array, _) =
        build_request(&provider("cc"), WireFormat::OpenAi, b"[]", &creds(), &cache, "/", "e", None);
    assert!(array.is_none());
    let (garbage, _) =
        build_request(&provider("cc"), WireFormat::OpenAi, b"no", &creds(), &cache, "/", "e", None);
    assert!(matches!(garbage, Some(Err(AppError::BadRequest(_)))));
}

#[test]
fn upgrade_required_detection() {
    assert!(is_upgrade_required(
        403,
        r#"{"error":{"code":"upgrade_required","message":"Provider API requires an upgrade"}}"#
    ));
    assert!(!is_upgrade_required(403, r#"{"error":"forbidden"}"#));
    assert!(!is_upgrade_required(401, "upgrade_required"));
    let kind = ProviderKind::OauthCommandCode;
    assert!(falls_back(kind, Transport::Provider, 403, "upgrade_required"));
    assert!(!falls_back(kind, Transport::Generate, 403, "upgrade_required"));
    assert!(!falls_back(ProviderKind::Passthrough, Transport::Provider, 403, "upgrade_required"));
}

#[test]
fn whole_answers_aggregate_or_fail() {
    let body = "{\"type\":\"text-delta\",\"text\":\"hi\"}\n{\"type\":\"finish\",\"finishReason\":\"stop\"}\n";
    let chat = answer_from_body(body, "m", WireFormat::OpenAi).unwrap().to_value();
    assert_eq!(chat["object"], "chat.completion");
    let claude = answer_from_body(body, "m", WireFormat::Anthropic).unwrap().to_value();
    assert_eq!(claude["content"][0]["text"], "hi");
    assert!(matches!(
        answer_from_body("{\"type\":\"error\",\"error\":\"boom\"}\n", "m", WireFormat::OpenAi),
        Err(AppError::Upstream(_))
    ));
}

#[test]
fn provider_transport_translates_openai_json_to_claude_for_anthropic_clients() {
    let openai = br#"{"id":"chatcmpl-1","object":"chat.completion","model":"cc-model","choices":[{"message":{"role":"assistant","content":"hi"},"finish_reason":"stop"}]}"#;
    let claude = provider_answer(openai, WireFormat::Anthropic).unwrap().to_value();
    assert_eq!(claude["type"], "message");
    assert_eq!(claude["content"][0]["text"], "hi");
    let chat = provider_answer(openai, WireFormat::OpenAi).unwrap().to_value();
    assert_eq!(chat["model"], "cc-model");
    assert!(matches!(provider_answer(b"x", WireFormat::OpenAi), Err(AppError::Upstream(_))));
}

// ---- keys on disk --------------------------------------------------------

#[test]
fn reads_plain_api_key_shape() {
    assert_eq!(
        key_from_auth_json(r#"{"apiKey":"user_plain","userId":"u1","userName":"n","keyName":"k"}"#)
            .as_deref(),
        Some("user_plain")
    );
}

#[test]
fn reads_nested_api_type_shape() {
    assert_eq!(
        key_from_auth_json(r#"{"apiKey":{"type":"api","key":"user_nested"}}"#).as_deref(),
        Some("user_nested")
    );
}

#[test]
fn reads_nested_oauth_access_shape() {
    assert_eq!(
        key_from_auth_json(r#"{"apiKey":{"type":"oauth","access":"user_oauth"}}"#).as_deref(),
        Some("user_oauth")
    );
}

#[test]
fn falls_back_to_commandcode_and_command_dash_code_keys() {
    assert_eq!(key_from_auth_json(r#"{"commandcode":"user_cc"}"#).as_deref(), Some("user_cc"));
    assert_eq!(
        key_from_auth_json(r#"{"command-code":{"type":"api","key":"user_ccdash"}}"#).as_deref(),
        Some("user_ccdash")
    );
}

#[test]
fn prefers_api_key_over_commandcode_when_both_present() {
    assert_eq!(
        key_from_auth_json(r#"{"apiKey":"user_first","commandcode":"user_second"}"#).as_deref(),
        Some("user_first")
    );
}

#[test]
fn returns_none_for_missing_or_garbage_files() {
    assert_eq!(key_from_auth_json("not json"), None);
    assert_eq!(key_from_auth_json("{}"), None);
    assert_eq!(key_from_auth_json(r#"{"apiKey":3}"#), None);
    assert_eq!(key_from_setting(None), None);
    assert_eq!(key_from_setting(Some("  ")), None);
    assert_eq!(key_from_setting(Some(" k\n")).as_deref(), Some("k"));
}

#[test]
fn the_first_key_there_is_counts() {
    let files = vec!["{}".to_string(), r#"{"apiKey":"f1"}"#.to_string(), r#"{"apiKey":"f2"}"#.to_string()];
    assert_eq!(first_key(Some(" own "), Some("shared"), &files).as_deref(), Some("own"));
    assert_eq!(first_key(Some(" "), Some("shared"), &files).as_deref(), Some("shared"));
    assert_eq!(first_key(None, None, &files).as_deref(), Some("f1"));
    assert_eq!(first_key(None, None, &vec![]), None);
}

// ---- browser login -------------------------------------------------------

fn callback_json(state: &str) -> String {
    format!(
        "{{\"apiKey\":\"cc-key\",\"state\":\"{state}\",\"userId\":\"u1\",\"userName\":\"User\",\"keyName\":\"cli\"}}"
    )
}

fn send(raw: &str) -> (String, RequestOutcome) {
    match Connection::new().receive(raw.as_bytes()) {
        (_, Progress::Finish(reply, outcome)) => (reply.to_text(), outcome),
        (connection, _) => {
            let (reply, outcome) = connection.closed().unwrap();
            (reply.to_text(), outcome)
        }
    }
}

fn post(body: &str) -> (String, RequestOutcome) {
    send(&format!(
        "POST /callback HTTP/1.1\r\nHost: localhost\r\nContent-Type: application/json\r\nContent-Length: {}\r\n\r\n{}",
        body.len(),
        body
    ))
}

#[test]
fn options_preflight_returns_204_with_cors_headers() {
    let (response, outcome) = send(
        "OPTIONS /callback HTTP/1.1\r\nHost: localhost\r\nOrigin: https://commandcode.ai\r\n\r\n",
    );
    assert!(response.starts_with("HTTP/1.1 204 No Content\r\n"));
    assert!(response.contains("access-control-allow-origin: https://commandcode.ai"));
    assert!(response.contains("access-control-allow-methods: POST, OPTIONS"));
    assert!(response.contains("access-control-allow-private-network: true"));
    assert!(response.contains("access-control-allow-headers: Content-Type\r\n"));
    assert!(matches!(outcome, RequestOutcome::Continue));
}

#[test]
fn preflight_origin_falls_back_for_an_unknown_origin() {
    let (response, _) = send(
        "OPTIONS /callback HTTP/1.1\r\nHost: localhost\r\nOrigin: https://evil.example\r\n\r\n",
    );
    assert!(response.contains("access-control-allow-origin: http://localhost:3000"));
}

#[test]
fn post_callback_resolves_with_all_five_fields() {
    let (response, outcome) = post(&callback_json("state-1"));
    assert!(response.starts_with("HTTP/1.1 200 OK"));
    assert!(response.contains("{\"success\":true}"));
    assert!(response.contains("content-length: 16\r\nconnection: close\r\n\r\n"));
    match outcome {
        RequestOutcome::Complete(Ok(c)) => assert_eq!(c.api_key, "cc-key"),
        _ => panic!("expected a callback"),
    }
}

#[test]
fn post_callback_rejects_an_incomplete_body() {
    for field in ["apiKey", "state", "userId", "userName", "keyName"] {
        let mut value = val(&callback_json("state-1"));
        value[field] = Value::String(String::new());
        let (response, outcome) = post(&value.to_string());
        assert!(response.starts_with("HTTP/1.1 400"));
        assert!(matches!(outcome, RequestOutcome::Continue));
    }
}

#[test]
fn post_callback_rejects_malformed_json() {
    let (response, outcome) = post("{");
    assert!(response.starts_with("HTTP/1.1 400 Bad Request"));
    assert!(response.contains("malformed JSON"));
    assert!(matches!(outcome, RequestOutcome::Continue));
}

#[test]
fn wrong_path_and_wrong_method_are_rejected() {
    assert!(send("GET /callback HTTP/1.1\r\n\r\n").0.starts_with("HTTP/1.1 405 Method Not Allowed"));
    assert!(send("POST /nope HTTP/1.1\r\n\r\n").0.starts_with("HTTP/1.1 404 Not Found"));
}

#[test]
fn denied_logins_say_why() {
    let denied = |body: &str| match post(body).1 {
        RequestOutcome::Complete(Err(LoginError::Denied(m))) => m,
        _ => panic!("expected a denial"),
    };
    assert_eq!(denied(r#"{"error":"no"}"#), "no");
    assert_eq!(denied(r#"{"error":{"message":"never"}}"#), "never");
    assert_eq!(denied(r#"{"error":null}"#), "authentication denied");
    assert!(matches!(answer_callback(None).2, RequestOutcome::Continue));
}

#[test]
fn requests_that_are_too_large_are_refused() {
    let (response, _) = send("POST /callback HTTP/1.1\r\nContent-Length: 10241\r\n\r\n");
    assert!(response.starts_with("HTTP/1.1 413 Payload Too Large"));
    assert!(response.contains("connection: keep-alive"));
    let (_, progress) = Connection::new().receive(&vec![b'a'; 18433]);
    match progress {
        Progress::Finish(reply, RequestOutcome::Continue) => assert_eq!(reply.status, 413),
        _ => panic!("expected a refusal"),
    }
}

#[test]
fn requests_may_come_in_pieces() {
    let (connection, progress) = Connection::new().receive(b"POST /callback HTTP/1.1\r\ncontent-LENGTH: 3\r");
    assert!(matches!(progress, Progress::ReadHead));
    assert!(connection.closed().is_none());
    let (connection, progress) = connection.receive(b"\n\r\n{");
    assert!(matches!(progress, Progress::ReadBody(2)));
    match connection.receive(b"}x").1 {
        Progress::Finish(reply, _) => assert_eq!(reply.status, 400),
        _ => panic!("expected an answer"),
    }
}

#[test]
fn heads_are_read_by_their_last_headers() {
    let head = parse_head("  GET   /a  b\r\nOrigin: x\r\nORIGIN : y \r\nnonsense\r\nContent-Length: +7\r\nAccess-Control-Request-Headers: h");
    assert_eq!(head.method, "GET");
    assert_eq!(head.path, "/a");
    assert_eq!(head.origin, "y");
    assert_eq!(head.requested_headers, "h");
    assert_eq!(head.content_length, 7);
    assert_eq!(parse_head("").method, "");
    assert_eq!(parse_head("X\nContent-Length: 99999999999999999999").content_length, 0);
}

#[test]
fn state_mismatch_is_rejected_by_the_caller() {
    let result = validate_state(
        "expected",
        AuthCallback {
            api_key: "k".into(),
            state: "wrong".into(),
            user_id: "u".into(),
            user_name: "n".into(),
            key_name: "k".into(),
        },
    );
    assert!(matches!(result, Err(LoginError::StateMismatch)));
}

#[test]
fn logins_end_with_a_key_or_in_words() {
    let callback = |state: &str| AuthCallback {
        api_key: "k".into(),
        state: state.into(),
        user_id: "u".into(),
        user_name: "n".into(),
        key_name: "c".into(),
    };
    assert_eq!(login_outcome("s", Ok(callback("s"))), Ok("k".to_string()));
    assert_eq!(login_outcome("s", Ok(callback("t"))), Err("StateMismatch".to_string()));
    assert_eq!(
        login_outcome("s", Err(LoginError::Denied("no".into()))),
        Err("login denied: no".to_string())
    );
    assert_eq!(
        login_outcome("s", Err(LoginError::Timeout)),
        Err("login timed out".to_string())
    );
    assert_eq!(
        login_outcome("s", Err(LoginError::Io("Kind(NotFound)".into()))),
        Err("Io(Kind(NotFound))".to_string())
    );
}

#[test]
fn authorize_url_is_correctly_encoded() {
    let port = 5959;
    let token = "tok/+";
    let callback = format!("http://localhost:{port}/callback");
    let expected = format!(
        "https://commandcode.ai/studio/auth/cli?callback={}&state={}",
        urlencoding::encode(&callback),
        urlencoding::encode(token)
    );
    assert_eq!(authorize_url_for(port, token), expected);
    assert!(expected.ends_with("state=tok%2F%2B"));
}

#[test]
fn sanitize_api_key_strips_bracketed_paste_markers() {
    assert_eq!(sanitize_api_key("\x1b[200~  cc-key\x1b[201~\n"), "cc-key");
    assert_eq!(sanitize_api_key("[200~cc-key[201~"), "cc-key");
}

#[test]
fn waiting_and_ports_have_defaults() {
    assert_eq!(auth_timeout_ms(None), 15_000);
    assert_eq!(auth_timeout_ms(Some("100")), 100);
    assert_eq!(auth_timeout_ms(Some("x")), 15_000);
    assert_eq!(callback_port(0), 5959);
    assert_eq!(callback_port(9), 5968);
    assert_eq!(callback_port(10), 0);
    assert_eq!(ten_years_after(1), 315_360_000_000_001);
    let now = chrono::Utc::now().timestamp_micros();
    let day: i64 = 86_400_000_000;
    assert!(far_future_expiry() > now + 3000 * day);
}
