use base64::Engine;
use one_router::adapter::codex::{answer_from_body, build_request, session_id_for, RESPONSES_URL};
use one_router::codex::oauth::{
    build_authorize_url, decode_account_claims, exchange_form, generate_pkce, provider_data_from_token,
    refresh_body, token_failure, token_set, tokens_from,
};
use one_router::codex::refresh::{
    already_refreshed, expiry, is_countable, login_verifier, needs_refresh, refresh_due,
    refreshed_credentials,
};
use one_router::codex::transform::{
    aggregate_sse, chat_chunk_for_event, has_object_reasoning, sse_embedded_error, strip_ids,
    transform_request, CodexSse, SseChunkState,
};
use one_router::error::{AppError, RefreshError};
use one_router::json::Json;
use one_router::model::{Credentials, OAuthState, Provider, ProviderKind, WireFormat};
use one_router::sse::render_chunk;
use serde_json::Value;
use sha2::{Digest, Sha256};

fn j(text: &str) -> Json {
    Json::from_value(serde_json::from_str(text).unwrap())
}

fn transformed(text: &str, session: &str) -> Value {
    transform_request(&j(text), session).to_value()
}

fn chunk(state: &mut SseChunkState, event: &str, data: &str, model: &str) -> Option<Value> {
    chat_chunk_for_event(state, event, &j(data), model).map(|c| c.to_value())
}

#[test]
fn allowlist_deletes_disallowed_fields() {
    let out = transformed(
        r#"{"model":"gpt-4o","messages":[{"role":"system","content":"be nice"}],
            "temperature":0.7,"top_p":0.9,"max_tokens":100,"max_output_tokens":50,"user":"u1"}"#,
        "sess-1",
    );
    assert!(out.get("temperature").is_none());
    assert!(out.get("top_p").is_none());
    assert!(out.get("max_tokens").is_none());
    assert!(out.get("max_output_tokens").is_none());
    assert!(out.get("user").is_none());
}

#[test]
fn allowlist_deletes_common_openai_sdk_fields() {
    let out = transformed(
        r#"{"model":"gpt-4o","messages":[],
            "n":1,"presence_penalty":0.1,"frequency_penalty":0.1,
            "logprobs":true,"top_logprobs":3,"logit_bias":{"50256":-100},
            "seed":42,"stop":["\n"],"response_format":{"type":"json_object"},
            "stream_options":{"include_usage":true},"parallel_tool_calls":false,
            "service_tier":"default"}"#,
        "sess-2",
    );
    for field in [
        "n",
        "presence_penalty",
        "frequency_penalty",
        "logprobs",
        "top_logprobs",
        "logit_bias",
        "seed",
        "stop",
        "response_format",
        "stream_options",
        "parallel_tool_calls",
        "service_tier",
    ] {
        assert!(out.get(field).is_none(), "{field} should have been stripped");
    }
}

#[test]
fn system_role_becomes_developer() {
    let out = transformed(r#"{"messages":[{"role":"system","content":"x"}]}"#, "s");
    assert!(out.get("messages").is_none());
    assert_eq!(out["input"][0]["role"], "developer");
}

#[test]
fn messages_convert_to_responses_input() {
    let out = transformed(
        r#"{"messages":[{"role":"user","content":"hi"},{"role":"assistant","content":"hello there"}]}"#,
        "s",
    );
    assert!(out.get("messages").is_none(), "messages should be removed");
    let items = out["input"].as_array().unwrap();
    assert_eq!(items[0]["role"], "user");
    assert_eq!(items[0]["content"][0]["type"], "input_text");
    assert_eq!(items[0]["content"][0]["text"], "hi");
    assert_eq!(items[1]["role"], "assistant");
    assert_eq!(items[1]["content"][0]["type"], "output_text");
    assert_eq!(items[1]["content"][0]["text"], "hello there");
}

#[test]
fn existing_input_field_is_not_overwritten_by_messages_conversion() {
    let out = transformed(
        r#"{"messages":[],"input":[{"id":"msg_abc","type":"message"}]}"#,
        "s",
    );
    assert!(out.get("messages").is_none());
    assert!(out["input"][0].get("id").is_none());
}

#[test]
fn forces_store_false_stream_true_and_cache_key() {
    let out = transformed(r#"{"messages":[],"stream":false,"store":true}"#, "sess-9");
    assert_eq!(out["store"], false);
    assert_eq!(out["stream"], true);
    assert_eq!(out["prompt_cache_key"], "sess-9");
    assert_eq!(out["include"][0], "reasoning.encrypted_content");
}

#[test]
fn tools_flatten_from_chat_completions_to_responses_shape() {
    let out = transformed(
        r#"{"messages":[],"tools":[{"type":"function","function":{
            "name":"get_weather","description":"Get the weather",
            "parameters":{"type":"object","properties":{}}}}]}"#,
        "s",
    );
    let tool = &out["tools"][0];
    assert_eq!(tool["type"], "function");
    assert_eq!(tool["name"], "get_weather");
    assert_eq!(tool["description"], "Get the weather");
    assert_eq!(tool["parameters"]["type"], "object");
    assert!(tool.get("function").is_none());
}

#[test]
fn tool_choice_function_variant_flattens_too() {
    let out = transformed(
        r#"{"messages":[],"tool_choice":{"type":"function","function":{"name":"get_weather"}}}"#,
        "s",
    );
    assert_eq!(out["tool_choice"]["type"], "function");
    assert_eq!(out["tool_choice"]["name"], "get_weather");
    assert!(out["tool_choice"].get("function").is_none());
}

#[test]
fn tool_choice_string_variant_is_untouched() {
    let out = transformed(r#"{"messages":[],"tool_choice":"auto"}"#, "s");
    assert_eq!(out["tool_choice"], "auto");
}

#[test]
fn strips_item_ids() {
    let out = transformed(
        r#"{"messages":[],"input":[{"id":"msg_abc","type":"message"}]}"#,
        "s",
    );
    assert!(out["input"][0].get("id").is_none());
}

#[test]
fn ids_are_stripped_at_any_depth() {
    let out = strip_ids(&j(r#"{"id":1,"a":[{"id":2,"b":{"id":3,"c":null}}],"d":1.5}"#)).to_value();
    let expected: Value = serde_json::from_str(r#"{"a":[{"b":{"c":null}}],"d":1.5}"#).unwrap();
    assert_eq!(out, expected);
}

#[test]
fn reasoning_gets_a_medium_effort_unless_it_has_one() {
    assert_eq!(transformed("{}", "s")["reasoning"]["effort"], "medium");
    assert_eq!(
        transformed(r#"{"reasoning":{"effort":"high"}}"#, "s")["reasoning"]["effort"],
        "high"
    );
    assert_eq!(
        transformed(r#"{"reasoning":null}"#, "s")["reasoning"]["effort"],
        "medium"
    );
    assert!(!has_object_reasoning(&j(r#"{"reasoning":"high"}"#)));
    assert_eq!(transformed("[1]", "s"), serde_json::from_str::<Value>("[1]").unwrap());
}

#[test]
fn chat_chunk_for_created_event_carries_id_and_role() {
    let mut state = SseChunkState::new();
    let c = chunk(
        &mut state,
        "response.created",
        r#"{"response":{"id":"resp_1","created_at":1785055543}}"#,
        "gpt-5.4",
    )
    .unwrap();
    assert_eq!(c["id"], "resp_1");
    assert_eq!(c["created"], 1785055543);
    assert_eq!(c["object"], "chat.completion.chunk");
    assert_eq!(c["choices"][0]["delta"]["role"], "assistant");
    assert!(c["choices"][0]["finish_reason"].is_null());
}

#[test]
fn chat_chunk_for_text_delta_carries_content() {
    let mut state = SseChunkState::new();
    let c = chunk(&mut state, "response.output_text.delta", r#"{"delta":"Hello"}"#, "m").unwrap();
    assert_eq!(c["choices"][0]["delta"]["content"], "Hello");
}

#[test]
fn chat_chunk_for_function_call_added_emits_tool_call_header() {
    let mut state = SseChunkState::new();
    let c = chunk(
        &mut state,
        "response.output_item.added",
        r#"{"output_index":0,"item":{"type":"function_call","call_id":"call_1","name":"get_weather"}}"#,
        "m",
    )
    .unwrap();
    let tc = &c["choices"][0]["delta"]["tool_calls"][0];
    assert_eq!(tc["index"], 0);
    assert_eq!(tc["id"], "call_1");
    assert_eq!(tc["type"], "function");
    assert_eq!(tc["function"]["name"], "get_weather");
    assert_eq!(tc["function"]["arguments"], "");
    assert!(state.saw_tool_call);
}

#[test]
fn chat_chunk_for_message_item_added_is_ignored() {
    let mut state = SseChunkState::new();
    assert!(chunk(
        &mut state,
        "response.output_item.added",
        r#"{"output_index":0,"item":{"type":"message"}}"#,
        "m"
    )
    .is_none());
    assert!(!state.saw_tool_call);
}

#[test]
fn chat_chunk_for_function_call_arguments_delta_carries_index_and_partial_args() {
    let mut state = SseChunkState::new();
    let c = chunk(
        &mut state,
        "response.function_call_arguments.delta",
        r#"{"output_index":2,"delta":"{\"loc"}"#,
        "m",
    )
    .unwrap();
    let tc = &c["choices"][0]["delta"]["tool_calls"][0];
    assert_eq!(tc["index"], 2);
    assert_eq!(tc["function"]["arguments"], "{\"loc");
    assert!(tc.get("id").is_none());
}

#[test]
fn chat_chunk_for_completed_sets_finish_reason_stop_without_tool_calls() {
    let mut state = SseChunkState::new();
    let c = chunk(&mut state, "response.completed", "{}", "m").unwrap();
    assert_eq!(c["choices"][0]["finish_reason"], "stop");
}

#[test]
fn chat_chunk_for_completed_sets_finish_reason_tool_calls_when_tool_call_seen() {
    let mut state = SseChunkState::new();
    state.saw_tool_call = true;
    let c = chunk(&mut state, "response.completed", "{}", "m").unwrap();
    assert_eq!(c["choices"][0]["finish_reason"], "tool_calls");
}

#[test]
fn chat_chunk_for_completed_carries_cached_token_count() {
    let mut state = SseChunkState::new();
    let c = chunk(
        &mut state,
        "response.completed",
        r#"{"response":{"usage":{"input_tokens":100,"output_tokens":10,"input_tokens_details":{"cached_tokens":80}}}}"#,
        "m",
    )
    .unwrap();
    assert_eq!(c["usage"]["prompt_tokens"], 100);
    assert_eq!(c["usage"]["prompt_tokens_details"]["cached_tokens"], 80);
}

#[test]
fn aggregate_sse_carries_cached_token_count() {
    let sse = "event: response.completed\n\
               data: {\"response\":{\"id\":\"r\",\"usage\":{\"input_tokens\":50,\"output_tokens\":5,\
               \"input_tokens_details\":{\"cached_tokens\":40}}}}\n\n";
    let out = aggregate_sse(sse, "m").to_value();
    assert_eq!(out["usage"]["prompt_tokens_details"]["cached_tokens"], 40);
}

#[test]
fn chat_chunk_ignores_unmapped_events() {
    let mut state = SseChunkState::new();
    assert!(chunk(&mut state, "response.in_progress", "{}", "m").is_none());
}

fn converted(chunks: &[&str], model: &str) -> String {
    let mut sse = CodexSse::new(model.to_string());
    let mut out = String::new();
    for c in chunks {
        sse.push_bytes(c.as_bytes());
        while let Some(text) = sse.next() {
            out.push_str(&text);
        }
    }
    while let Some(text) = sse.end() {
        out.push_str(&text);
    }
    out
}

#[test]
fn convert_sse_stream_translates_events_and_appends_done() {
    let sse = "event: response.created\n\
               data: {\"response\":{\"id\":\"resp_1\",\"created_at\":1}}\n\n\
               event: response.output_text.delta\n\
               data: {\"delta\":\"Hi\"}\n\n\
               event: response.completed\n\
               data: {}\n\n";
    let rendered = converted(&[sse], "gpt-5.4");
    assert!(rendered.contains("\"object\":\"chat.completion.chunk\""));
    assert!(rendered.contains("\"role\":\"assistant\""));
    assert!(rendered.contains("\"content\":\"Hi\""));
    assert!(rendered.contains("\"finish_reason\":\"stop\""));
    assert!(rendered.ends_with("data: [DONE]\n\n"));
}

#[test]
fn convert_sse_stream_handles_events_split_across_network_chunks() {
    let full = "event: response.output_text.delta\ndata: {\"delta\":\"Hi\"}\n\n";
    let (first, second) = full.split_at(20);
    let rendered = converted(&[first, second], "m");
    assert!(rendered.contains("\"content\":\"Hi\""));
    assert!(rendered.ends_with("data: [DONE]\n\n"));
}

#[test]
fn codex_events_cut_inside_a_character_come_out_whole() {
    let full = "event: response.output_text.delta\ndata: {\"delta\":\"\u{20ac}\u{1f980}\"}\n\n";
    let bytes = full.as_bytes();
    for i in 0..=bytes.len() {
        let mut sse = CodexSse::new("m".to_string());
        let mut out = String::new();
        for part in [&bytes[..i], &bytes[i..]] {
            sse.push_bytes(part);
            while let Some(text) = sse.next() {
                out.push_str(&text);
            }
        }
        assert!(out.contains("\"content\":\"\u{20ac}\u{1f980}\""));
        assert!(sse.tail.is_empty());
    }
    let mut sse = CodexSse::new("m".to_string());
    sse.push_bytes(&[0xc3]);
    assert_eq!((sse.buf.as_str(), sse.tail.len()), ("", 1));
    assert_eq!(sse.end().as_deref(), Some("data: [DONE]\n\n"));
    assert_eq!((sse.buf.as_str(), sse.tail.len()), ("\u{fffd}", 0));
}

#[test]
fn a_broken_codex_stream_gets_no_done_marker() {
    let mut sse = CodexSse::new("m".to_string());
    sse.push_bytes(b"event: response.output_text.delta\ndata: {\"delta\":\"Hi\"}\n\n");
    sse.stop();
    assert_eq!(sse.next(), None);
    assert_eq!(sse.end(), None);
}

#[test]
fn aggregate_sse_concatenates_output_text_deltas() {
    let sse = "event: response.output_text.delta\ndata: {\"delta\":\"Hello \"}\n\n\
               event: response.output_text.delta\ndata: {\"delta\":\"world\"}\n\n\
               event: response.completed\ndata: {\"response\":{\"id\":\"resp_1\"}}\n\n";
    let out = aggregate_sse(sse, "gpt-5.4").to_value();
    let text = out["choices"][0]["message"]["content"].as_str().unwrap();
    assert_eq!(text, "Hello world");
    assert_eq!(out["model"], "gpt-5.4");
    assert_eq!(out["id"], "resp_1");
    assert!(out.get("usage").is_none());
}

#[test]
fn a_codex_answer_says_the_same_streamed_and_whole() {
    let sse = concat_blocks(&[
        "event: response.created\ndata: {\"response\":{\"id\":\"r\"}}\n\n",
        "event: response.output_text.delta\ndata: {\"delta\":\"a\"}\n\n",
        "event: response.output_text.delta\ndata: {\"delta\":7}\n\n",
        "event: response.output_text.delta\ndata: {\"delta\":\"b\"}\n\n",
        "event: response.completed\ndata: {}\n\n",
    ]);
    let mut said = String::new();
    for block in converted(&[&sse], "m").split("\n\n") {
        if let Some(payload) = block.strip_prefix("data: {") {
            let chunk: Value = serde_json::from_str(&format!("{{{payload}")).unwrap();
            said.push_str(chunk["choices"][0]["delta"]["content"].as_str().unwrap_or(""));
        }
    }
    assert_eq!(aggregate_sse(&sse, "m").to_value()["choices"][0]["message"]["content"], said.as_str());
    assert_eq!(said, "ab");
}

#[test]
fn sse_embedded_error_detects_usage_limit() {
    let sse = "event: response.failed\ndata: {\"error\":{\"type\":\"usage_limit_reached\"}}\n\n";
    assert!(sse_embedded_error(sse).is_some());
    assert_eq!(sse_embedded_error(sse).as_deref(), Some("usage_limit_reached"));
    let clean = "event: response.output_text.delta\ndata: {\"delta\":\"hi\"}\n\n";
    assert!(sse_embedded_error(clean).is_none());
}

#[test]
fn rendered_chunk_is_one_block() {
    assert_eq!(
        String::from_utf8(render_chunk(&j(r#"{"a":"\u00e9"}"#))).unwrap(),
        "data: {\"a\":\"\u{e9}\"}\n\n"
    );
}

fn provider() -> Provider {
    Provider {
        id: "cx".into(),
        name: "Codex".into(),
        wire_format: WireFormat::OpenAi,
        kind: ProviderKind::OauthCodex,
        base_url: None,
        api_key: None,
        upstream_model: "gpt-5-codex".into(),
        dataset_logging: false,
        created_at: 0,
        updated_at: 0,
    }
}

fn creds() -> Credentials {
    Credentials {
        access_token: Some("at-123".into()),
        provider_data: j(r#"{"chatgpt_account_id":"acct_9"}"#),
        ..Default::default()
    }
}

#[test]
fn build_request_targets_responses_api_with_headers() {
    let body = br#"{"model":"gpt-4o","messages":[],"temperature":0.5}"#;
    let req = build_request(&provider(), WireFormat::OpenAi, body, &creds(), "1.0.0")
        .unwrap()
        .unwrap();
    assert_eq!(req.url, "https://chatgpt.com/backend-api/codex/responses");
    assert_eq!(req.url, RESPONSES_URL);
    assert_eq!(req.bearer.as_deref(), Some("at-123"));
    assert!(req.headers.contains(&("ChatGPT-Account-ID".to_string(), "acct_9".to_string())));
    assert!(req.headers.contains(&("originator".to_string(), "codex_cli_rs".to_string())));
    assert!(req.headers.contains(&("User-Agent".to_string(), "codex_cli_rs/1.0.0".to_string())));
    let sent = req.body.to_value();
    assert!(sent.get("temperature").is_none());
    assert_eq!(sent["stream"], true);
    assert_eq!(sent["model"], "gpt-5-codex");
}

#[test]
fn prompt_cache_key_is_scoped_by_pool_alias_and_client_wire() {
    let mut p = provider();
    p.upstream_model = "gpt-5.6-sol".into();
    assert_eq!(session_id_for(&p, WireFormat::OpenAi), "1router-cx-gpt-5.6-sol-openai");
    assert_eq!(session_id_for(&p, WireFormat::Anthropic), "1router-cx-gpt-5.6-sol-anthropic");
    let sent = build_request(&p, WireFormat::Anthropic, br#"{"messages":[]}"#, &creds(), "1")
        .unwrap()
        .unwrap()
        .body
        .to_value();
    assert_eq!(sent["prompt_cache_key"], "1router-cx-gpt-5.6-sol-anthropic");
}

#[test]
fn build_request_bridges_anthropic_wire_format_to_responses_api() {
    let body = br#"{"model":"gpt-4o","system":"be concise","messages":[{"role":"user","content":"hi"}]}"#;
    let sent = build_request(&provider(), WireFormat::Anthropic, body, &creds(), "1")
        .unwrap()
        .unwrap()
        .body
        .to_value();
    assert!(sent.get("messages").is_none());
    assert_eq!(sent["input"][0]["role"], "developer");
    assert_eq!(sent["input"][0]["content"][0]["text"], "be concise");
    assert_eq!(sent["input"][1]["role"], "user");
    assert_eq!(sent["input"][1]["content"][0]["text"], "hi");
    assert_eq!(sent["model"], "gpt-5-codex");
}

#[test]
fn codex_request_errors() {
    let no_token = Credentials::default();
    assert!(matches!(
        build_request(&provider(), WireFormat::OpenAi, b"{}", &no_token, "1"),
        Some(Err(AppError::Internal(_)))
    ));
    match build_request(&provider(), WireFormat::OpenAi, b"{", &creds(), "1") {
        Some(Err(AppError::BadRequest(m))) => {
            assert!(m.starts_with("invalid JSON body: "));
            assert!(m.len() > "invalid JSON body: ".len());
        }
        _ => panic!("expected a bad request"),
    }
    assert!(build_request(&provider(), WireFormat::OpenAi, br#"{"reasoning":1}"#, &creds(), "1").is_none());
}

#[test]
fn transform_response_bridges_to_anthropic_wire_format_independent_of_provider_wire() {
    let sse = concat_blocks(&[
        "event: response.output_text.delta\ndata: {\"delta\":\"hello\"}\n\n",
        "event: response.completed\ndata: {\"response\":{\"id\":\"resp_1\",\"usage\":{\"input_tokens\":2,\"output_tokens\":1}}}\n\n",
    ]);
    let json = answer_from_body(&sse, "gpt-5-codex", WireFormat::Anthropic).unwrap().to_value();
    assert_eq!(json["type"], "message");
    assert_eq!(json["content"][0]["text"], "hello");
    assert_eq!(json["stop_reason"], "end_turn");
    assert_eq!(json["usage"]["input_tokens"], 2);
    assert_eq!(json["usage"]["output_tokens"], 1);
    assert_eq!(json["model"], "gpt-5-codex");
}

fn concat_blocks(blocks: &[&str]) -> String {
    blocks.iter().map(|b| b.to_string()).collect()
}

#[test]
fn embedded_errors_fail_a_whole_answer() {
    let sse = "event: error\ndata: {\"x\":1}\n\n";
    match answer_from_body(sse, "m", WireFormat::OpenAi) {
        Err(AppError::Upstream(m)) => assert_eq!(m, "codex embedded error: upstream_error"),
        _ => panic!("expected an upstream error"),
    }
}

#[test]
fn pkce_challenge_is_s256_of_verifier() {
    let p = generate_pkce();
    assert!(p.verifier.len() >= 43);
    let drawn = base64::engine::general_purpose::URL_SAFE_NO_PAD.decode(&p.verifier).unwrap();
    assert_eq!(drawn.len(), 32);
    let digest = Sha256::digest(p.verifier.as_bytes());
    let expected = base64::engine::general_purpose::URL_SAFE_NO_PAD.encode(digest);
    assert_eq!(p.challenge, expected);
    assert_ne!(generate_pkce().verifier, p.verifier);
}

#[test]
fn authorize_url_contains_required_params() {
    let url = build_authorize_url("state123", "challenge456");
    assert!(url.starts_with("https://auth.openai.com/oauth/authorize"));
    assert!(url.contains("client_id=app_EMoamEEZ73f0CkXaXp7hrann"));
    assert!(url.contains("code_challenge=challenge456"));
    assert!(url.contains("code_challenge_method=S256"));
    assert!(url.contains("state=state123"));
    assert!(url.contains(&urlencoding::encode("http://localhost:1455/auth/callback").into_owned()));
    assert!(url.contains("scope=openid%20profile%20email%20offline_access"));
}

fn jwt(payload: &str) -> String {
    let b64 = |b: &[u8]| base64::engine::general_purpose::URL_SAFE_NO_PAD.encode(b);
    format!("{}.{}.{}", b64(b"{\"alg\":\"none\"}"), b64(payload.as_bytes()), "sig")
}

#[test]
fn decode_account_claims_reads_openai_auth_claim() {
    let token = jwt(r#"{"https://api.openai.com/auth":{"chatgpt_account_id":"acct_123","workspace_id":"ws_456"}}"#);
    let claims = decode_account_claims(&token);
    assert_eq!(claims.chatgpt_account_id.as_deref(), Some("acct_123"));
    assert_eq!(claims.workspace_id.as_deref(), Some("ws_456"));
}

#[test]
fn codes_are_traded_by_form() {
    let form = exchange_form("c1", "v1");
    let get = |name: &str| form.iter().find(|f| f.0 == name).map(|f| f.1.as_str());
    assert_eq!(form.len(), 5);
    assert_eq!(get("grant_type"), Some("authorization_code"));
    assert_eq!(get("code"), Some("c1"));
    assert_eq!(get("code_verifier"), Some("v1"));
    assert_eq!(get("client_id"), Some("app_EMoamEEZ73f0CkXaXp7hrann"));
    assert_eq!(get("redirect_uri"), Some("http://localhost:1455/auth/callback"));
}

#[test]
fn unreadable_id_tokens_have_no_claims() {
    for token in ["", "one", "a.!!!.c", "a.AAAA.c"] {
        let claims = decode_account_claims(token);
        assert_eq!(claims.chatgpt_account_id, None);
        assert_eq!(claims.workspace_id, None);
    }
    let token = jwt(r#"{"https://api.openai.com/auth":{"workspace_id":"w"}}"#);
    assert_eq!(
        provider_data_from_token(Some(&token)).to_value(),
        serde_json::from_str::<Value>(r#"{"workspace_id":"w"}"#).unwrap()
    );
    assert!(provider_data_from_token(None).to_value().as_object().unwrap().is_empty());
}

const MINUTE: i64 = 60_000_000;

fn expiring_in_minutes(minutes: i64) -> Credentials {
    Credentials {
        access_expires_at: Some(1_000_000 * MINUTE + minutes * MINUTE),
        refresh_token: Some("rt".into()),
        ..Default::default()
    }
}

#[test]
fn needs_refresh_true_when_within_5_minutes() {
    let now = 1_000_000 * MINUTE;
    assert!(needs_refresh(&expiring_in_minutes(3), now));
    assert!(needs_refresh(&expiring_in_minutes(5), now));
    assert!(!needs_refresh(&expiring_in_minutes(30), now));
}

#[test]
fn needs_refresh_true_when_already_expired() {
    assert!(needs_refresh(&expiring_in_minutes(-10), 1_000_000 * MINUTE));
}

#[test]
fn needs_refresh_true_when_no_expiry_known() {
    let c = Credentials { access_expires_at: None, ..Default::default() };
    assert!(needs_refresh(&c, 0));
    assert!(refresh_due(ProviderKind::OauthCodex, &c, 0));
    assert!(!refresh_due(ProviderKind::OauthCommandCode, &c, 0));
}

#[test]
fn refreshed_credentials_keep_what_the_reply_leaves_out() {
    let old = Credentials {
        api_key: Some("k".into()),
        refresh_token: Some("rt".into()),
        id_token: Some("it".into()),
        provider_data: j(r#"{"a":1}"#),
        ..Default::default()
    };
    let tokens = token_set(&j(r#"{"access_token":"new","id_token":"it2","expires_in":60}"#));
    let c = refreshed_credentials(&old, tokens, 5);
    assert_eq!(c.api_key, None);
    assert_eq!(c.access_token.as_deref(), Some("new"));
    assert_eq!(c.refresh_token.as_deref(), Some("rt"));
    assert_eq!(c.id_token.as_deref(), Some("it2"));
    assert_eq!(c.access_expires_at, Some(60_000_005));
    assert_eq!(c.provider_data.to_value()["a"], 1);
    assert!(already_refreshed(&c.access_token, &old.access_token));
    assert!(!already_refreshed(&c.access_token, &Some("new".into())));
    assert!(!already_refreshed(&None, &Some("x".into())));
    assert_eq!(expiry(None, 5), None);
    assert!(!is_countable(Some(i64::MAX)));
}

#[test]
fn tokens_are_read_from_bytes() {
    let t = tokens_from(br#"{"access_token":"a","expires_in":60}"#, "token parse").unwrap();
    assert_eq!(t.access_token, "a");
    assert_eq!(t.refresh_token, None);
    assert_eq!(t.expires_in, Some(60));
    match tokens_from(b"<html>", "token parse") {
        Err(RefreshError::Transient(m)) => assert!(m.starts_with("token parse: expected value")),
        _ => panic!("expected a passing fault"),
    }
}

#[test]
fn token_failures_tell_a_dead_login_from_a_passing_fault() {
    assert!(matches!(
        token_failure("refresh failed: ", "{\"error\":\"invalid_grant\"}"),
        RefreshError::InvalidGrant
    ));
    match token_failure("refresh failed: ", "busy") {
        RefreshError::Transient(m) => assert_eq!(m, "refresh failed: busy"),
        _ => panic!("expected a passing fault"),
    }
    assert_eq!(RefreshError::InvalidGrant.describe(), "invalid_grant");
    assert_eq!(
        RefreshError::Transient("x".into()).describe(),
        "transient refresh error: x"
    );
    assert_eq!(refresh_body("r").to_value()["grant_type"], "refresh_token");
    assert_eq!(refresh_body("r").to_value()["refresh_token"], "r");
}

fn stored(verifier: Option<&str>, state: Option<&str>) -> Option<OAuthState> {
    Some(OAuthState {
        provider_id: "p".into(),
        access_token: None,
        refresh_token: None,
        id_token: None,
        access_expires_at: None,
        provider_data: Json::Null,
        pkce_verifier: verifier.map(|s| s.to_string()),
        oauth_state: state.map(|s| s.to_string()),
        updated_at: 0,
    })
}

#[test]
fn a_login_completes_only_with_its_own_state() {
    let message = |r: Result<String, AppError>| match r {
        Err(AppError::BadRequest(m)) => m,
        _ => panic!("expected a bad request"),
    };
    assert_eq!(login_verifier(stored(Some("v"), Some("s")), "s").unwrap(), "v");
    assert_eq!(message(login_verifier(stored(Some("v"), Some("s")), "t")), "state mismatch");
    assert_eq!(
        message(login_verifier(None, "s")),
        "no oauth flow in progress; call start first"
    );
    assert_eq!(message(login_verifier(stored(None, Some("s")), "s")), "missing pkce verifier");
    assert_eq!(
        message(login_verifier(stored(Some("v"), None), "s")),
        "missing oauth state; call start first"
    );
}
