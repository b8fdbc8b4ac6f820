use one_router::codex::claude_message::{
    claude_json_to_openai_message, finish_to_stop_reason, openai_json_to_claude_message,
    openai_usage_from_claude, stop_reason_to_finish, usage_from,
};
use one_router::codex::claude_request::{
    claude_to_openai_request, names_function, openai_to_claude_request,
};
use one_router::codex::claude_stream::{
    claude_event_to_openai_chunk, openai_chunk_to_claude_events, ClaudeStreamState,
    OpenAiStreamState,
};
use one_router::codex::sse_bridge::{render_claude_event, ClaudeSse, OpenAiSse};
use one_router::json::Json;
use one_router::sse::{Frame, SseBuffer};
use serde_json::Value;

fn j(text: &str) -> Json {
    Json::from_value(serde_json::from_str(text).unwrap())
}

fn events(chunk: &str, state: &mut ClaudeStreamState) -> Vec<(String, Value)> {
    openai_chunk_to_claude_events(&j(chunk), state)
        .into_iter()
        .map(|(name, data)| (name, data.to_value()))
        .collect()
}

fn chunk(event: &str, data: &str, state: &mut OpenAiStreamState) -> Option<Value> {
    claude_event_to_openai_chunk(event, &j(data), state).map(|c| c.to_value())
}

#[test]
fn claude_request_converts_system_and_text_message() {
    let out = claude_to_openai_request(&j(
        r#"{"model":"gpt-5-codex","system":"be nice","messages":[{"role":"user","content":"hi"}],"stream":true}"#,
    ))
    .to_value();
    assert_eq!(out["messages"][0]["role"], "system");
    assert_eq!(out["messages"][0]["content"], "be nice");
    assert_eq!(out["messages"][1]["role"], "user");
    assert_eq!(out["messages"][1]["content"], "hi");
    assert_eq!(out["stream"], true);
}

#[test]
fn claude_request_converts_tool_use_and_tool_result() {
    let out = claude_to_openai_request(&j(
        r#"{"messages":[
            {"role":"assistant","content":[
                {"type":"tool_use","id":"call_1","name":"get_weather","input":{"city":"sf"}}]},
            {"role":"user","content":[
                {"type":"tool_result","tool_use_id":"call_1","content":"sunny"}]}]}"#,
    ))
    .to_value();
    let msgs = out["messages"].as_array().unwrap();
    assert_eq!(msgs[0]["role"], "assistant");
    assert_eq!(msgs[0]["tool_calls"][0]["id"], "call_1");
    assert_eq!(msgs[0]["tool_calls"][0]["function"]["name"], "get_weather");
    assert_eq!(msgs[0]["tool_calls"][0]["function"]["arguments"], "{\"city\":\"sf\"}");
    assert_eq!(msgs[1]["role"], "tool");
    assert_eq!(msgs[1]["tool_call_id"], "call_1");
    assert_eq!(msgs[1]["content"], "sunny");
}

#[test]
fn claude_request_converts_tools_and_tool_choice() {
    let out = claude_to_openai_request(&j(
        r#"{"messages":[],
            "tools":[{"name":"get_weather","description":"d","input_schema":{"type":"object"}}],
            "tool_choice":{"type":"tool","name":"get_weather"}}"#,
    ))
    .to_value();
    assert_eq!(out["tools"][0]["type"], "function");
    assert_eq!(out["tools"][0]["function"]["name"], "get_weather");
    assert_eq!(out["tool_choice"]["type"], "function");
    assert_eq!(out["tool_choice"]["function"]["name"], "get_weather");
}

#[test]
fn claude_request_joins_system_parts_and_keeps_images_behind_texts() {
    let out = claude_to_openai_request(&j(
        r#"{"system":[{"type":"text","text":"a"},{"type":"x"},{"type":"text","text":"b"}],
            "messages":[{"role":"user","content":[
                {"type":"image","source":{"type":"base64","media_type":"image/jpeg","data":"QQ=="}},
                {"type":"text","text":"look"}]},
                {"role":"user","content":7},
                {"role":"user","content":[{"type":"tool_result","tool_use_id":"t","content":[{"type":"image"}]}]}]}"#,
    ))
    .to_value();
    assert_eq!(out["messages"][0]["content"], "a\nb");
    assert_eq!(out["messages"][1]["content"][0]["text"], "look");
    assert_eq!(
        out["messages"][1]["content"][1]["image_url"]["url"],
        "data:image/jpeg;base64,QQ=="
    );
    assert_eq!(out["messages"][2]["content"], "");
    assert_eq!(out["messages"][3]["content"], "[{\"type\":\"image\"}]");
}

#[test]
fn claude_tool_choices_have_openai_names() {
    let choice = |c: &str| {
        claude_to_openai_request(&j(&format!("{{\"messages\":[],\"tool_choice\":{c}}}")))
            .to_value()["tool_choice"]
            .clone()
    };
    assert_eq!(choice("{\"type\":\"any\"}"), "required");
    assert_eq!(choice("{\"type\":\"auto\"}"), "auto");
    assert_eq!(choice("{\"type\":\"odd\"}"), "auto");
    assert_eq!(choice("\"none\""), "none");
    assert_eq!(choice("3"), "auto");
}

#[test]
fn stream_events_emit_message_start_then_text_delta() {
    let mut state = ClaudeStreamState::new();
    let first = events(
        r#"{"id":"resp_1","model":"gpt-5-codex","choices":[{"delta":{"role":"assistant","content":""},"finish_reason":null}]}"#,
        &mut state,
    );
    assert_eq!(first[0].0, "message_start");
    assert_eq!(first[0].1["message"]["id"], "resp_1");
    assert_eq!(first[0].1["type"], "message_start");

    let second = events(
        r#"{"choices":[{"delta":{"content":"hi"},"finish_reason":null}]}"#,
        &mut state,
    );
    assert_eq!(second[0].0, "content_block_start");
    assert_eq!(second[0].1["type"], "content_block_start");
    assert_eq!(second[1].0, "content_block_delta");
    assert_eq!(second[1].1["type"], "content_block_delta");
    assert_eq!(second[1].1["delta"]["text"], "hi");
}

#[test]
fn stream_events_emit_tool_use_block() {
    let mut state = ClaudeStreamState::new();
    state.message_start_sent = true;
    let first = events(
        r#"{"choices":[{"delta":{"tool_calls":[{"index":0,"id":"call_1","function":{"name":"get_weather","arguments":""}}]},"finish_reason":null}]}"#,
        &mut state,
    );
    assert_eq!(first[0].0, "content_block_start");
    assert_eq!(first[0].1["type"], "content_block_start");
    assert_eq!(first[0].1["content_block"]["type"], "tool_use");
    assert_eq!(first[0].1["content_block"]["id"], "call_1");

    let second = events(
        r#"{"choices":[{"delta":{"tool_calls":[{"index":0,"function":{"arguments":"{\"city\""}}]},"finish_reason":null}]}"#,
        &mut state,
    );
    assert_eq!(second[0].0, "content_block_delta");
    assert_eq!(second[0].1["type"], "content_block_delta");
    assert_eq!(second[0].1["delta"]["partial_json"], "{\"city\"");
}

#[test]
fn stream_events_finish_closes_blocks_and_emits_stop() {
    let mut state = ClaudeStreamState::new();
    state.message_start_sent = true;
    state.text_block_started = true;
    state.text_block_index = 0;
    state.next_block_index = 1;
    let out = events(r#"{"choices":[{"delta":{},"finish_reason":"stop"}]}"#, &mut state);
    assert_eq!(out[0].0, "content_block_stop");
    assert_eq!(out[0].1["type"], "content_block_stop");
    assert_eq!(out[0].1["index"], 0);
    assert_eq!(out[1].0, "message_delta");
    assert_eq!(out[1].1["type"], "message_delta");
    assert_eq!(out[1].1["delta"]["stop_reason"], "end_turn");
    assert_eq!(out[2].0, "message_stop");
    assert_eq!(out[2].1["type"], "message_stop");
}

#[test]
fn stream_finish_reports_cache_read_tokens_and_deducts_them_from_input() {
    let mut state = ClaudeStreamState::new();
    state.message_start_sent = true;
    let out = events(
        r#"{"choices":[{"delta":{},"finish_reason":"stop"}],
            "usage":{"prompt_tokens":100,"completion_tokens":10,"prompt_tokens_details":{"cached_tokens":80}}}"#,
        &mut state,
    );
    let usage = &out[0].1["usage"];
    assert_eq!(usage["input_tokens"], 20);
    assert_eq!(usage["output_tokens"], 10);
    assert_eq!(usage["cache_read_input_tokens"], 80);
}

#[test]
fn tool_calls_finish_reason_maps_to_tool_use_stop_reason() {
    let mut state = ClaudeStreamState::new();
    state.message_start_sent = true;
    let out = events(r#"{"choices":[{"delta":{},"finish_reason":"tool_calls"}]}"#, &mut state);
    assert_eq!(out[0].1["delta"]["stop_reason"], "tool_use");
}

#[test]
fn stream_blocks_get_distinct_indices_and_close_in_order() {
    let mut state = ClaudeStreamState::new();
    let out = events(
        r#"{"id":"","choices":[{"delta":{"content":"x","tool_calls":[
            {"index":5,"id":"b","function":{"name":"f","arguments":"1"}},
            {"index":2,"id":"a","function":{"name":"g","arguments":"2"}},
            {"index":9,"function":{"arguments":"lost"}}]},"finish_reason":"length"}]}"#,
        &mut state,
    );
    let names: Vec<&str> = out.iter().map(|e| e.0.as_str()).collect();
    assert_eq!(
        names,
        vec![
            "message_start",
            "content_block_start",
            "content_block_delta",
            "content_block_start",
            "content_block_delta",
            "content_block_start",
            "content_block_delta",
            "content_block_stop",
            "content_block_stop",
            "content_block_stop",
            "message_delta",
            "message_stop",
        ]
    );
    assert_eq!(out[0].1["message"]["id"], "msg_unknown");
    assert_eq!(out[3].1["index"], 1);
    assert_eq!(out[5].1["index"], 2);
    assert_eq!(out[7].1["index"], 0);
    assert_eq!(out[8].1["index"], 2);
    assert_eq!(out[9].1["index"], 1);
    assert_eq!(out[10].1["delta"]["stop_reason"], "max_tokens");
}

#[test]
fn chunk_without_choices_says_nothing() {
    let mut state = ClaudeStreamState::new();
    assert!(events(r#"{"choices":[]}"#, &mut state).is_empty());
    assert!(!state.message_start_sent);
}

#[test]
fn non_streaming_json_converts_to_claude_message() {
    let out = openai_json_to_claude_message(&j(
        r#"{"id":"resp_1","model":"gpt-5-codex","choices":[{"message":{"role":"assistant","content":"hello"},"finish_reason":"stop"}]}"#,
    ))
    .to_value();
    assert_eq!(out["type"], "message");
    assert_eq!(out["role"], "assistant");
    assert_eq!(out["content"][0]["text"], "hello");
    assert_eq!(out["stop_reason"], "end_turn");
}

#[test]
fn non_streaming_json_reports_cache_read_tokens() {
    let out = openai_json_to_claude_message(&j(
        r#"{"id":"resp_1","model":"gpt-5-codex",
            "choices":[{"message":{"role":"assistant","content":"hi"},"finish_reason":"stop"}],
            "usage":{"prompt_tokens":50,"completion_tokens":5,"prompt_tokens_details":{"cached_tokens":40}}}"#,
    ))
    .to_value();
    assert_eq!(out["usage"]["input_tokens"], 10);
    assert_eq!(out["usage"]["output_tokens"], 5);
    assert_eq!(out["usage"]["cache_read_input_tokens"], 40);
}

fn rendered_claude(blocks: &[&str]) -> String {
    let mut sse = ClaudeSse::new();
    let mut out = String::new();
    for block in blocks {
        for text in sse.push(block) {
            out.push_str(&text);
        }
    }
    out
}

#[test]
fn convert_openai_sse_to_claude_sse_translates_and_drops_done_marker() {
    let rendered = rendered_claude(&[
        "data: {\"id\":\"resp_1\",\"model\":\"m\",\"choices\":[{\"delta\":{\"role\":\"assistant\",\"content\":\"\"},\"finish_reason\":null}]}\n\n",
        "data: {\"choices\":[{\"delta\":{\"content\":\"Hi\"},\"finish_reason\":null}]}\n\n",
        "data: {\"choices\":[{\"delta\":{},\"finish_reason\":\"stop\"}]}\n\n",
        "data: [DONE]\n\n",
    ]);
    assert!(rendered.contains("event: message_start"));
    assert!(rendered.contains("event: content_block_start"));
    assert!(rendered.contains("\"text\":\"Hi\""));
    assert!(rendered.contains("event: message_stop"));
    assert!(!rendered.contains("[DONE]"));
}

#[test]
fn nothing_follows_the_done_marker() {
    let rendered = rendered_claude(&[
        "data: [DONE]\n\n",
        "data: {\"choices\":[{\"delta\":{\"content\":\"Hi\"},\"finish_reason\":null}]}\n\n",
    ]);
    assert_eq!(rendered, "");
}

#[test]
fn blocks_without_json_are_passed_over() {
    let mut sse = ClaudeSse::new();
    assert!(sse.push(": ping\n\n").is_empty());
    assert!(sse.push("data: {broken\n\n").is_empty());
    assert!(!sse.stopped);
    sse.stop();
    assert!(sse.stopped);
}

#[test]
fn openai_request_extracts_system_message() {
    let out = openai_to_claude_request(&j(
        r#"{"model":"anthropic-x","messages":[{"role":"system","content":"be nice"},{"role":"user","content":"hi"}]}"#,
    ))
    .to_value();
    assert_eq!(out["system"], "be nice");
    assert_eq!(out["messages"][0]["role"], "user");
    assert_eq!(out["messages"][0]["content"], "hi");
    assert_eq!(out["max_tokens"], 4096, "defaults when the OpenAI body omits it");
}

#[test]
fn openai_request_converts_tool_call_and_tool_result() {
    let out = openai_to_claude_request(&j(
        r#"{"messages":[
            {"role":"assistant","content":null,"tool_calls":[
                {"id":"call_1","type":"function","function":{"name":"get_weather","arguments":"{\"city\":\"sf\"}"}}]},
            {"role":"tool","tool_call_id":"call_1","content":"sunny"}]}"#,
    ))
    .to_value();
    let msgs = out["messages"].as_array().unwrap();
    assert_eq!(msgs[0]["role"], "assistant");
    assert_eq!(msgs[0]["content"][0]["type"], "tool_use");
    assert_eq!(msgs[0]["content"][0]["id"], "call_1");
    assert_eq!(msgs[0]["content"][0]["input"]["city"], "sf");
    assert_eq!(msgs[1]["role"], "user");
    assert_eq!(msgs[1]["content"][0]["type"], "tool_result");
    assert_eq!(msgs[1]["content"][0]["tool_use_id"], "call_1");
    assert_eq!(msgs[1]["content"][0]["content"], "sunny");
}

#[test]
fn openai_request_converts_tools_and_tool_choice() {
    let body = j(
        r#"{"messages":[],
            "tools":[{"type":"function","function":{"name":"get_weather","description":"d","parameters":{"type":"object"}}}],
            "tool_choice":{"type":"function","function":{"name":"get_weather"}}}"#,
    );
    assert!(names_function(&body));
    let out = openai_to_claude_request(&body).to_value();
    assert_eq!(out["tools"][0]["name"], "get_weather");
    assert_eq!(out["tools"][0]["input_schema"]["type"], "object");
    assert_eq!(out["tool_choice"]["type"], "tool");
    assert_eq!(out["tool_choice"]["name"], "get_weather");
}

#[test]
fn a_tool_choice_must_name_its_function() {
    assert!(!names_function(&j(r#"{"tool_choice":{"type":"function"}}"#)));
    assert!(names_function(&j(r#"{"tool_choice":"auto"}"#)));
    assert!(names_function(&j(r#"{}"#)));
}

#[test]
fn openai_images_become_claude_sources() {
    let out = openai_to_claude_request(&j(
        r#"{"messages":[{"role":"user","content":[
            {"type":"image_url","image_url":{"url":"data:image/gif;base64,AAA"}},
            {"type":"image_url","image_url":{"url":"https://x/y.png"}},
            {"type":"input_audio"},
            {"type":"text","text":"see"}]}]}"#,
    ))
    .to_value();
    let blocks = &out["messages"][0]["content"];
    assert_eq!(blocks[0]["source"]["media_type"], "image/gif");
    assert_eq!(blocks[0]["source"]["data"], "AAA");
    assert_eq!(blocks[1]["source"]["type"], "url");
    assert_eq!(blocks[1]["source"]["url"], "https://x/y.png");
    assert_eq!(blocks[2]["text"], "see");
    assert_eq!(blocks.as_array().unwrap().len(), 3);
}

#[test]
fn text_messages_survive_the_way_there_and_back() {
    let body = j(r#"{"model":"m","max_tokens":7,"system":"s","messages":[{"role":"user","content":"hi"},{"role":"assistant","content":"yo"}]}"#);
    let back = openai_to_claude_request(&claude_to_openai_request(&body)).to_value();
    assert_eq!(back, body.to_value());
}

#[test]
fn tools_and_results_survive_the_way_there_and_back() {
    let body = j(
        r#"{"model":"m","max_tokens":7,"stream":true,"temperature":1,"system":"s",
            "tools":[{"name":"f","description":"d","input_schema":{"type":"object"}}],
            "tool_choice":{"type":"tool","name":"f"},
            "messages":[
                {"role":"user","content":"hi"},
                {"role":"assistant","content":[
                    {"type":"text","text":"let me see"},
                    {"type":"tool_use","id":"c1","name":"f","input":{"q":["x",{"n":-3}]}},
                    {"type":"tool_use","id":"c2","name":"f","input":{}}]},
                {"role":"user","content":[{"type":"tool_result","tool_use_id":"c1","content":"r1"}]},
                {"role":"user","content":[{"type":"tool_result","tool_use_id":"c2","content":""}]},
                {"role":"assistant","content":"done"}]}"#,
    );
    let there = claude_to_openai_request(&body);
    assert_eq!(openai_to_claude_request(&there).to_value(), body.to_value());
    let back = openai_to_claude_request(&there);
    assert_eq!(claude_to_openai_request(&back).to_value(), there.to_value());
}

#[test]
fn spoken_answers_survive_the_way_there_and_back() {
    let chat = j(
        r#"{"id":"r","object":"chat.completion","model":"m",
            "choices":[{"index":0,"message":{"role":"assistant","content":"hello"},"finish_reason":"length"}],
            "usage":{"prompt_tokens":9,"completion_tokens":4,"total_tokens":13,"prompt_tokens_details":{"cached_tokens":2}}}"#,
    );
    let there = openai_json_to_claude_message(&chat);
    assert_eq!(there.to_value()["stop_reason"], "max_tokens");
    assert_eq!(claude_json_to_openai_message(&there).to_value(), chat.to_value());
}

#[test]
fn claude_json_converts_to_openai_message() {
    let out = claude_json_to_openai_message(&j(
        r#"{"id":"msg_1","model":"anthropic-x","stop_reason":"end_turn",
            "content":[{"type":"text","text":"hello"}],
            "usage":{"input_tokens":10,"output_tokens":5,"cache_read_input_tokens":4}}"#,
    ))
    .to_value();
    assert_eq!(out["object"], "chat.completion");
    assert_eq!(out["choices"][0]["message"]["content"], "hello");
    assert_eq!(out["choices"][0]["finish_reason"], "stop");
    assert_eq!(out["usage"]["prompt_tokens"], 14);
    assert_eq!(out["usage"]["completion_tokens"], 5);
    assert_eq!(out["usage"]["prompt_tokens_details"]["cached_tokens"], 4);
}

#[test]
fn claude_json_converts_tool_use_to_tool_calls() {
    let out = claude_json_to_openai_message(&j(
        r#"{"id":"msg_1","model":"anthropic-x","stop_reason":"tool_use",
            "content":[{"type":"tool_use","id":"call_1","name":"get_weather","input":{"city":"sf"}}]}"#,
    ))
    .to_value();
    assert_eq!(out["choices"][0]["finish_reason"], "tool_calls");
    assert_eq!(out["choices"][0]["message"]["tool_calls"][0]["id"], "call_1");
    assert_eq!(
        out["choices"][0]["message"]["tool_calls"][0]["function"]["name"],
        "get_weather"
    );
}

#[test]
fn usage_round_trip_keeps_counts() {
    let value = j(r#"{"usage":{"prompt_tokens":100,"completion_tokens":7,"prompt_tokens_details":{"cached_tokens":30}}}"#);
    let claude = usage_from(&value);
    assert_eq!(claude.to_value()["input_tokens"], 70);
    let back = openai_usage_from_claude(&Json::object().with("usage", claude)).to_value();
    assert_eq!(back["prompt_tokens"], 100);
    assert_eq!(back["completion_tokens"], 7);
    assert_eq!(back["total_tokens"], 107);
    assert_eq!(back["prompt_tokens_details"]["cached_tokens"], 30);
}

#[test]
fn usage_without_counts_is_zero() {
    let none = usage_from(&j("{}")).to_value();
    assert_eq!(none["input_tokens"], 0);
    assert_eq!(none["output_tokens"], 0);
    let more_cached = usage_from(&j(
        r#"{"usage":{"prompt_tokens":1,"prompt_tokens_details":{"cached_tokens":5}}}"#,
    ))
    .to_value();
    assert_eq!(more_cached["input_tokens"], 0);
    assert_eq!(more_cached["cache_read_input_tokens"], 5);
}

#[test]
fn finish_reasons_round_trip() {
    for reason in ["stop", "length", "tool_calls"] {
        assert_eq!(stop_reason_to_finish(finish_to_stop_reason(reason)), reason);
    }
    assert_eq!(finish_to_stop_reason("content_filter"), "end_turn");
}

#[test]
fn claude_stream_events_emit_role_then_text_delta() {
    let mut state = OpenAiStreamState::new();
    let first = chunk(
        "message_start",
        r#"{"message":{"id":"msg_1","model":"anthropic-x"}}"#,
        &mut state,
    )
    .unwrap();
    assert_eq!(first["id"], "msg_1");
    assert_eq!(first["choices"][0]["delta"]["role"], "assistant");

    assert!(chunk(
        "content_block_start",
        r#"{"index":0,"content_block":{"type":"text"}}"#,
        &mut state
    )
    .is_none());
    let delta = chunk(
        "content_block_delta",
        r#"{"index":0,"delta":{"type":"text_delta","text":"hi"}}"#,
        &mut state,
    )
    .unwrap();
    assert_eq!(delta["choices"][0]["delta"]["content"], "hi");
}

#[test]
fn claude_stream_events_emit_tool_use_block() {
    let mut state = OpenAiStreamState::new();
    let start = chunk(
        "content_block_start",
        r#"{"index":0,"content_block":{"type":"tool_use","id":"call_1","name":"get_weather"}}"#,
        &mut state,
    )
    .unwrap();
    assert_eq!(start["choices"][0]["delta"]["tool_calls"][0]["id"], "call_1");
    assert_eq!(
        start["choices"][0]["delta"]["tool_calls"][0]["function"]["name"],
        "get_weather"
    );

    let delta = chunk(
        "content_block_delta",
        r#"{"index":0,"delta":{"type":"input_json_delta","partial_json":"{\"city\""}}"#,
        &mut state,
    )
    .unwrap();
    assert_eq!(
        delta["choices"][0]["delta"]["tool_calls"][0]["function"]["arguments"],
        "{\"city\""
    );
}

#[test]
fn claude_stream_message_delta_emits_finish_and_usage() {
    let mut state = OpenAiStreamState::new();
    let out = chunk(
        "message_delta",
        r#"{"delta":{"stop_reason":"max_tokens"},"usage":{"input_tokens":20,"output_tokens":3}}"#,
        &mut state,
    )
    .unwrap();
    assert_eq!(out["choices"][0]["finish_reason"], "length");
    assert_eq!(out["usage"]["prompt_tokens"], 20);
    assert_eq!(out["usage"]["completion_tokens"], 3);
}

#[test]
fn second_tool_gets_the_next_number_and_decides_the_finish() {
    let mut state = OpenAiStreamState::new();
    for index in [1, 4] {
        chunk(
            "content_block_start",
            &format!("{{\"index\":{index},\"content_block\":{{\"type\":\"tool_use\",\"id\":\"c\",\"name\":\"f\"}}}}"),
            &mut state,
        )
        .unwrap();
    }
    let args = chunk(
        "content_block_delta",
        r#"{"index":4,"delta":{"partial_json":"{}"}}"#,
        &mut state,
    )
    .unwrap();
    assert_eq!(args["choices"][0]["delta"]["tool_calls"][0]["index"], 1);
    let end = chunk("message_delta", r#"{"delta":{"stop_reason":"end_turn"}}"#, &mut state).unwrap();
    assert_eq!(end["choices"][0]["finish_reason"], "tool_calls");
    assert!(end.get("usage").is_none());
    assert!(chunk("ping", "{}", &mut state).is_none());
}

fn reframed(chunks: &[&str]) -> Vec<String> {
    let bytes: Vec<&[u8]> = chunks.iter().map(|c| c.as_bytes()).collect();
    reframed_bytes(&bytes)
}

fn reframed_bytes(chunks: &[&[u8]]) -> Vec<String> {
    let mut buffer = SseBuffer::new();
    let mut out = Vec::new();
    for c in chunks {
        buffer.push_bytes(c);
        while let Frame::Block(b) = buffer.next() {
            out.push(b);
        }
    }
    buffer.end();
    while let Frame::Block(b) = buffer.next() {
        out.push(b);
    }
    assert!(matches!(buffer.next(), Frame::End));
    out
}

#[test]
fn reframe_sse_blocks_reassembles_block_split_across_chunks() {
    let out = reframed(&["event: message_start\ndata: {\"a\":", "1}\n\n"]);
    assert_eq!(out.len(), 1);
    assert!(out[0].contains("event: message_start"));
    assert!(out[0].contains("{\"a\":1}"));
}

#[test]
fn reframe_sse_blocks_splits_multiple_blocks_in_one_chunk() {
    assert_eq!(reframed(&["data: {\"a\":1}\n\ndata: {\"b\":2}\n\n"]).len(), 2);
}

#[test]
fn reframing_does_not_depend_on_chunk_boundaries() {
    let text = "data: 1\n\n\n\ndata: \u{e9}2\n\ntail";
    let whole = reframed(&[text]);
    assert_eq!(whole, vec!["data: 1\n\n", "data: \u{e9}2\n\n", "tail"]);
    for (at, _) in text.char_indices() {
        let (a, b) = text.split_at(at);
        assert_eq!(reframed(&[a, b]), whole);
    }
}

#[test]
fn reframing_does_not_depend_on_where_bytes_are_cut() {
    let text = "data: \u{e9}\u{20ac}\u{1f980}\n\n\n\ndata: \u{1f980}2\n\nta\u{20ac}il";
    let expected =
        vec!["data: \u{e9}\u{20ac}\u{1f980}\n\n", "data: \u{1f980}2\n\n", "ta\u{20ac}il"];
    let bytes = text.as_bytes();
    for i in 0..=bytes.len() {
        for k in i..=bytes.len() {
            assert_eq!(reframed_bytes(&[&bytes[..i], &bytes[i..k], &bytes[k..]]), expected);
        }
    }
    let single: Vec<&[u8]> = bytes.chunks(1).collect();
    assert_eq!(reframed_bytes(&single), expected);
}

#[test]
fn a_character_that_never_comes_whole_is_replaced_at_the_end() {
    let mut buffer = SseBuffer::new();
    buffer.push_bytes(&[b'a', 0xf0, 0x9f, 0xa6]);
    assert_eq!((buffer.buf.as_str(), buffer.tail.len()), ("a", 3));
    buffer.end();
    assert_eq!((buffer.buf.as_str(), buffer.tail.len()), ("a\u{fffd}", 0));
}

#[test]
fn a_whole_stream_opens_and_closes_each_block_once() {
    let mut state = ClaudeStreamState::new();
    let mut all = Vec::new();
    for c in [
        r#"{"id":"c","model":"m","choices":[{"delta":{"tool_calls":[{"index":1,"id":"t1","function":{"name":"f","arguments":"{"}}]}}]}"#,
        r#"{"choices":[{"delta":{"content":"hi"}}]}"#,
        r#"{"choices":[{"delta":{"tool_calls":[{"index":0,"id":"t0","function":{"name":"g","arguments":""}},{"index":1,"function":{"arguments":"}"}}]}}]}"#,
        r#"{"choices":[{"delta":{"content":"!"},"finish_reason":"tool_calls"}]}"#,
    ] {
        all.extend(events(c, &mut state));
    }
    let of = |name: &str| -> Vec<u64> {
        all.iter().filter(|e| e.0 == name).map(|e| e.1["index"].as_u64().unwrap()).collect()
    };
    assert_eq!(of("content_block_start"), vec![0, 1, 2]);
    assert_eq!(of("content_block_delta"), vec![0, 1, 2, 0, 1]);
    assert_eq!(of("content_block_stop"), vec![1, 2, 0]);
    assert_eq!(all[0].0, "message_start");
    assert_eq!(all.iter().filter(|e| e.0 == "message_start").count(), 1);
    assert_eq!(all[all.len() - 2].0, "message_delta");
    assert_eq!(all[all.len() - 1].0, "message_stop");
    assert!(all.iter().all(|e| e.1["type"] == e.0.as_str()));
}

#[test]
fn bytes_that_are_no_text_are_replaced() {
    let mut buffer = SseBuffer::new();
    buffer.push_bytes(&[100, 0xff, 10, 10]);
    match buffer.next() {
        Frame::Block(b) => assert_eq!(b, "d\u{fffd}\n\n"),
        _ => panic!("no block"),
    }
    assert!(matches!(buffer.next(), Frame::NeedMore));
}

#[test]
fn convert_claude_sse_to_openai_sse_translates_and_appends_done() {
    let mut sse = OpenAiSse::new();
    let mut rendered = String::new();
    for block in [
        "event: message_start\ndata: {\"message\":{\"id\":\"msg_1\",\"model\":\"anthropic-x\"}}\n\n",
        "event: content_block_start\ndata: {\"index\":0,\"content_block\":{\"type\":\"text\"}}\n\n",
        "event: content_block_delta\ndata: {\"index\":0,\"delta\":{\"type\":\"text_delta\",\"text\":\"Hi\"}}\n\n",
        "event: message_delta\ndata: {\"delta\":{\"stop_reason\":\"end_turn\"}}\n\n",
        "event: message_stop\ndata: {}\n\n",
    ] {
        if let Some(text) = sse.push(block) {
            rendered.push_str(&text);
        }
    }
    if let Some(text) = sse.end() {
        rendered.push_str(&text);
    }
    assert!(rendered.contains("\"role\":\"assistant\""));
    assert!(rendered.contains("\"content\":\"Hi\""));
    assert!(rendered.contains("\"finish_reason\":\"stop\""));
    assert!(rendered.contains("[DONE]"));
    assert_eq!(rendered.matches("[DONE]").count(), 1);
}

#[test]
fn a_stream_says_the_same_after_the_way_there_and_back() {
    let mut there = ClaudeSse::new();
    let mut back = OpenAiSse::new();
    let mut said = String::new();
    for block in [
        "data: {\"id\":\"r\",\"model\":\"m\",\"choices\":[{\"delta\":{\"content\":\"a \"},\"finish_reason\":null}]}\n\n",
        "data: {\"choices\":[{\"delta\":{\"content\":\"b\",\"tool_calls\":[{\"index\":0,\"id\":\"c\",\"function\":{\"name\":\"f\",\"arguments\":\"{}\"}}]},\"finish_reason\":null}]}\n\n",
        "data: {\"choices\":[{\"delta\":{\"content\":\" c\"},\"finish_reason\":\"stop\"}]}\n\n",
    ] {
        for event in there.push(block) {
            if let Some(chunk) = back.push(&event) {
                let payload = chunk.strip_prefix("data: ").unwrap().trim().to_string();
                if payload != "[DONE]" {
                    let value: Value = serde_json::from_str(&payload).unwrap();
                    said.push_str(value["choices"][0]["delta"]["content"].as_str().unwrap_or(""));
                }
            }
        }
    }
    assert_eq!(said, "a b c");
}

#[test]
fn an_ended_stream_gets_one_done_marker() {
    let mut sse = OpenAiSse::new();
    assert_eq!(sse.end().as_deref(), Some("data: [DONE]\n\n"));
    assert_eq!(sse.end(), None);
    assert_eq!(sse.push("event: message_stop\ndata: {}\n\n"), None);
    let mut broken = OpenAiSse::new();
    broken.stop();
    assert_eq!(broken.end(), None);
}

#[test]
fn rendered_event_has_name_and_data() {
    let bytes = render_claude_event("ping", &j(r#"{"b":1,"a":"x"}"#));
    assert_eq!(
        String::from_utf8(bytes).unwrap(),
        "event: ping\ndata: {\"a\":\"x\",\"b\":1}\n\n"
    );
}
