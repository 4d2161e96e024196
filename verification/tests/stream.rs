//! Replies, read from the bytes that a provider sends.
use agent_m::ai::anthropic::{self, WireContentBlock, WireError, WireEvent, WireMessage};
use agent_m::ai::openai::{self, WireChoice, WireChunk, WireFunctionDelta, WireToolCallDelta};
use agent_m::ai::sse::{find_newline, read_line, Line, Next, SseParser};
use agent_m::ai::types::{AssistantMessage, ContentPart, StopReason, StreamEvent};
use agent_m::json::{self, Json};
use serde_json::Value;

fn string(value: &Value, key: &str) -> Option<String> {
    value.get(key).and_then(|v| v.as_str()).map(|s| s.to_string())
}

fn count(value: &Value, key: &str) -> u64 {
    value.get(key).and_then(|v| v.as_u64()).unwrap_or(0)
}

fn kind(value: &Value) -> Result<String, String> {
    string(value, "type").ok_or_else(|| "missing field `type`".to_string())
}

fn read_event(data: &str) -> Result<WireEvent, String> {
    let value: Value = serde_json::from_str(data).map_err(|e| e.to_string())?;
    let content_block = match value.get("content_block") {
        Some(b) => Some(WireContentBlock {
            block_type: kind(b)?,
            id: string(b, "id"),
            name: string(b, "name"),
            input: b.get("input").map(|i| match json::parse(&i.to_string()) {
                Ok(j) => j,
                Err(e) => panic!("{e}"),
            }),
        }),
        None => None,
    };
    let delta = match value.get("delta") {
        Some(d) => Some(anthropic::WireDelta {
            delta_type: string(d, "type").unwrap_or_default(),
            text: string(d, "text"),
            thinking: string(d, "thinking"),
            partial_json: string(d, "partial_json"),
            stop_reason: string(d, "stop_reason"),
        }),
        None => None,
    };
    Ok(WireEvent {
        event_type: kind(&value)?,
        index: value.get("index").and_then(|v| v.as_u64()).map(|i| i as usize),
        content_block,
        delta,
        message: value.get("message").map(|m| WireMessage {
            usage: m.get("usage").map(|u| anthropic::WireUsage {
                input_tokens: count(u, "input_tokens"),
                output_tokens: count(u, "output_tokens"),
                cache_read_input_tokens: count(u, "cache_read_input_tokens"),
                cache_creation_input_tokens: count(u, "cache_creation_input_tokens"),
            }),
        }),
        error: value.get("error").map(|e| WireError {
            message: string(e, "message").unwrap_or_default(),
        }),
    })
}

fn read_chunk(data: &str) -> Result<WireChunk, String> {
    let value: Value = serde_json::from_str(data).map_err(|e| e.to_string())?;
    let mut choices = Vec::new();
    for choice in value.get("choices").and_then(|c| c.as_array()).into_iter().flatten() {
        let delta = choice.get("delta").cloned().unwrap_or_default();
        let calls = delta.get("tool_calls").and_then(|c| c.as_array()).cloned().unwrap_or_default();
        choices.push(WireChoice {
            delta: openai::WireDelta {
                content: string(&delta, "content"),
                reasoning_content: string(&delta, "reasoning_content"),
                tool_calls: calls
                    .iter()
                    .map(|c| WireToolCallDelta {
                        index: c.get("index").and_then(|v| v.as_u64()).map(|i| i as usize),
                        id: string(c, "id"),
                        function: c.get("function").map(|f| WireFunctionDelta {
                            name: string(f, "name"),
                            arguments: string(f, "arguments"),
                        }),
                    })
                    .collect(),
            },
            finish_reason: string(choice, "finish_reason"),
        });
    }
    Ok(WireChunk {
        choices,
        usage: value.get("usage").filter(|u| !u.is_null()).map(|u| openai::WireUsage {
            prompt_tokens: count(u, "prompt_tokens"),
            completion_tokens: count(u, "completion_tokens"),
            prompt_cache_hit_tokens: count(u, "prompt_cache_hit_tokens"),
            prompt_cache_miss_tokens: count(u, "prompt_cache_miss_tokens"),
            total_tokens: count(u, "total_tokens"),
            cached_tokens: u.get("prompt_tokens_details").map_or(0, |d| count(d, "cached_tokens")),
        }),
    })
}

/// All events of a reply whose bytes come in pieces of `size`.
fn collect(body: &str, size: usize, anthropic: bool) -> Vec<StreamEvent> {
    let mut parser = SseParser::new("test-model");
    let mut pieces = body.as_bytes().chunks(size);
    let mut events = Vec::new();
    loop {
        match parser.next() {
            Next::Event(event) => events.push(event),
            Next::Parse(data) => handle(&mut parser, &data, anthropic),
            Next::Read => match pieces.next() {
                Some(bytes) => parser.feed(bytes),
                None => {
                    if let Some(data) = parser.end() {
                        handle(&mut parser, &data, anthropic);
                    }
                }
            },
            Next::End => return events,
        }
    }
}

fn handle(parser: &mut SseParser, data: &str, anthropic: bool) {
    if anthropic {
        let event = read_event(data);
        if let Ok(e) = &event {
            assert!(parser.can_take_event(e));
        }
        parser.handle_event(data, event);
    } else {
        parser.handle_chunk(data, read_chunk(data));
    }
}

fn done(events: &[StreamEvent]) -> &AssistantMessage {
    events
        .iter()
        .find_map(|e| match e {
            StreamEvent::Done { message } => Some(message),
            _ => None,
        })
        .expect("Done event must be present")
}

fn texts(events: &[StreamEvent]) -> Vec<&str> {
    events
        .iter()
        .filter_map(|e| match e {
            StreamEvent::TextDelta { delta } => Some(delta.as_str()),
            _ => None,
        })
        .collect()
}

fn thoughts(events: &[StreamEvent]) -> Vec<&str> {
    events
        .iter()
        .filter_map(|e| match e {
            StreamEvent::ThinkingDelta { delta } => Some(delta.as_str()),
            _ => None,
        })
        .collect()
}

#[test]
fn streams_text_delta_and_done() {
    let body = "data: {\"type\":\"message_start\",\"message\":{\"usage\":{\"input_tokens\":10,\"cache_read_input_tokens\":4,\"cache_creation_input_tokens\":0,\"output_tokens\":0}}}\n\n\
        data: {\"type\":\"content_block_start\",\"index\":0,\"content_block\":{\"type\":\"text\"}}\n\n\
        data: {\"type\":\"content_block_delta\",\"index\":0,\"delta\":{\"type\":\"text_delta\",\"text\":\"Hello\"}}\n\n\
        data: {\"type\":\"content_block_delta\",\"index\":0,\"delta\":{\"type\":\"text_delta\",\"text\":\" world\"}}\n\n\
        data: {\"type\":\"content_block_stop\",\"index\":0}\n\n\
        data: {\"type\":\"message_delta\",\"delta\":{\"stop_reason\":\"end_turn\"},\"message\":{\"usage\":{\"output_tokens\":2}}}\n\n\
        data: {\"type\":\"message_stop\"}\n\n";
    for size in [1, 7, 4096] {
        let events = collect(body, size, true);
        assert_eq!(texts(&events), vec!["Hello", " world"]);
        let done = done(&events);
        assert_eq!(done.stop_reason, StopReason::Stop);
        let usage = done.usage.as_ref().expect("usage in Done");
        assert_eq!(usage.input_tokens, 10);
        assert_eq!(usage.cache_read_tokens, 4);
    }
}

#[test]
fn replies_are_told_in_order() {
    let spoken = "data: {\"choices\":[{\"delta\":{\"content\":\"Hel\"}}]}\n\
         data: {\"choices\":[{\"delta\":{\"content\":\"lo\",\"reasoning_content\":\"hm\"}}]}\n\
         data: [DONE]\n\
         data: {\"choices\":[{\"delta\":{\"content\":\"late\"}}]}\n\
         data: [DONE]\n";
    for size in [1, 9, 4096] {
        let events = collect(spoken, size, false);
        assert!(matches!(events[0], StreamEvent::Start));
        assert!(matches!(events[events.len() - 1], StreamEvent::Done { .. }));
        let starts = events.iter().filter(|e| matches!(e, StreamEvent::Start)).count();
        let ends = events
            .iter()
            .filter(|e| matches!(e, StreamEvent::Done { .. } | StreamEvent::Error { .. }))
            .count();
        assert_eq!((starts, ends), (1, 1));
        assert_eq!(texts(&events).concat(), "Hello");
        assert!(matches!(
            done(&events).content.as_slice(),
            [ContentPart::Text { text }, ContentPart::Thinking { thinking }]
                if *text == texts(&events).concat() && *thinking == thoughts(&events).concat()
        ));
    }
    let silent = collect("", 1, false);
    assert!(matches!(silent.as_slice(), [StreamEvent::Done { .. }]));
    let broken = "data: {\"choices\":[{\"delta\":{\"content\":\"Hel\"}}]}\ndata: not json\ndata: [DONE]\n";
    for size in [1, 9, 4096] {
        let events = collect(broken, size, false);
        assert!(matches!(
            events.as_slice(),
            [StreamEvent::Start, StreamEvent::TextDelta { .. }, StreamEvent::Error { .. }]
        ));
    }
}

#[test]
fn streams_thinking_delta() {
    let body = "data: {\"type\":\"message_start\",\"message\":{\"usage\":{\"input_tokens\":5,\"cache_read_input_tokens\":0,\"cache_creation_input_tokens\":0,\"output_tokens\":0}}}\n\n\
        data: {\"type\":\"content_block_start\",\"index\":0,\"content_block\":{\"type\":\"thinking\"}}\n\n\
        data: {\"type\":\"content_block_delta\",\"index\":0,\"delta\":{\"type\":\"thinking_delta\",\"thinking\":\"Let me think...\"}}\n\n\
        data: {\"type\":\"content_block_stop\",\"index\":0}\n\n\
        data: {\"type\":\"content_block_start\",\"index\":1,\"content_block\":{\"type\":\"text\"}}\n\n\
        data: {\"type\":\"content_block_delta\",\"index\":1,\"delta\":{\"type\":\"text_delta\",\"text\":\"Answer\"}}\n\n\
        data: {\"type\":\"content_block_stop\",\"index\":1}\n\n\
        data: {\"type\":\"message_delta\",\"delta\":{\"stop_reason\":\"end_turn\"},\"message\":{\"usage\":{\"output_tokens\":3}}}\n\n\
        data: {\"type\":\"message_stop\"}\n\n";
    let events = collect(body, 4096, true);
    assert_eq!(thoughts(&events), vec!["Let me think..."]);
    let content = &done(&events).content;
    assert!(
        content.iter().any(|p| matches!(p, ContentPart::Thinking { .. })),
        "thinking should be in Done content"
    );
}

#[test]
fn assembles_tool_call_from_chunks() {
    let body = "data: {\"type\":\"message_start\",\"message\":{\"usage\":{\"input_tokens\":20,\"cache_read_input_tokens\":0,\"cache_creation_input_tokens\":0,\"output_tokens\":0}}}\n\n\
        data: {\"type\":\"content_block_start\",\"index\":0,\"content_block\":{\"type\":\"tool_use\",\"id\":\"call_1\",\"name\":\"read\"}}\n\n\
        data: {\"type\":\"content_block_delta\",\"index\":0,\"delta\":{\"type\":\"input_json_delta\",\"partial_json\":\"{\\\"path\\\":\"}}\n\n\
        data: {\"type\":\"content_block_delta\",\"index\":0,\"delta\":{\"type\":\"input_json_delta\",\"partial_json\":\"\\\"src/main.rs\\\"\"}}\n\n\
        data: {\"type\":\"content_block_delta\",\"index\":0,\"delta\":{\"type\":\"input_json_delta\",\"partial_json\":\"}\"}}\n\n\
        data: {\"type\":\"content_block_stop\",\"index\":0}\n\n\
        data: {\"type\":\"message_delta\",\"delta\":{\"stop_reason\":\"tool_use\"},\"message\":{\"usage\":{\"output_tokens\":10}}}\n\n\
        data: {\"type\":\"message_stop\"}\n\n";
    let events = collect(body, 16, true);
    let content = &done(&events).content;
    let call = content.iter().find_map(|p| match p {
        ContentPart::ToolCall { id, name, arguments } => Some((id, name, arguments)),
        _ => None,
    });
    let (id, name, args) = call.expect("tool call in Done content");
    assert_eq!(id, "call_1");
    assert_eq!(name, "read");
    assert_eq!(args.get("path").and_then(|v| v.as_str()), Some("src/main.rs"));
}

#[test]
fn streams_text_and_parses_cache_usage() {
    let body = "data: {\"choices\":[{\"delta\":{\"content\":\"Hello\"},\"finish_reason\":null}]}\n\n\
         data: {\"choices\":[{\"delta\":{\"content\":\" world\"},\"finish_reason\":null}]}\n\n\
         data: {\"choices\":[{\"delta\":{},\"finish_reason\":\"stop\"}]}\n\n\
         data: {\"choices\":[],\"usage\":{\"prompt_tokens\":10,\"completion_tokens\":2,\"prompt_cache_hit_tokens\":8,\"prompt_cache_miss_tokens\":2,\"total_tokens\":12}}\n\n\
         data: [DONE]\n\n";
    for size in [1, 5, 4096] {
        let events = collect(body, size, false);
        assert!(matches!(events[0], StreamEvent::Start));
        assert_eq!(texts(&events).concat(), "Hello world");
        assert_eq!(events.len(), 4, "start, two deltas, done");
        let message = done(&events);
        assert!(matches!(
            message.content.as_slice(),
            [ContentPart::Text { text }] if text == "Hello world"
        ));
        assert_eq!(message.stop_reason, StopReason::Stop);
        let usage = message.usage.expect("usage present");
        assert_eq!(usage.input_tokens, 10);
        assert_eq!(usage.output_tokens, 2);
        assert_eq!(usage.cache_read_tokens, 8);
        assert_eq!(usage.cache_creation_tokens, 2);
    }
}

#[test]
fn streams_thinking_and_assembles_tool_calls() {
    let body = "data: {\"choices\":[{\"delta\":{\"reasoning_content\":\"let me think\"},\"finish_reason\":null}]}\n\n\
         data: {\"choices\":[{\"delta\":{\"tool_calls\":[{\"index\":0,\"id\":\"call_1\",\"type\":\"function\",\"function\":{\"name\":\"read\",\"arguments\":\"{\\\"pa\"}}]},\"finish_reason\":null}]}\n\n\
         data: {\"choices\":[{\"delta\":{\"tool_calls\":[{\"index\":0,\"function\":{\"arguments\":\"th\\\":\\\"x\\\"}\"}}]},\"finish_reason\":null}]}\n\n\
         data: {\"choices\":[{\"delta\":{},\"finish_reason\":\"tool_calls\"}]}\n\n\
         data: [DONE]\n\n";
    let events = collect(body, 4096, false);
    assert_eq!(thoughts(&events).concat(), "let me think");
    assert!(!events.iter().any(|e| matches!(e, StreamEvent::Error { .. })));
    let deltas =
        events.iter().filter(|e| matches!(e, StreamEvent::ToolCallDelta { .. })).count();
    assert_eq!(deltas, 2);
    let message = done(&events);
    assert_eq!(message.stop_reason, StopReason::ToolUse);
    match message.content.as_slice() {
        [ContentPart::Thinking { .. }, ContentPart::ToolCall { id, name, arguments }] => {
            assert_eq!(id, "call_1");
            assert_eq!(name, "read");
            assert_eq!(json::render(arguments), "{\"path\":\"x\"}");
        }
        _ => panic!("thinking, then the call"),
    }
}

#[test]
fn a_reply_is_done_once() {
    for body in [
        "data: [DONE]\n\ndata: [DONE]\n\n",
        "data: {\"choices\":[{\"delta\":{\"content\":\"x\"},\"finish_reason\":\"stop\"}]}\n",
        "",
    ] {
        let events = collect(body, 4096, false);
        let ends = events.iter().filter(|e| matches!(e, StreamEvent::Done { .. })).count();
        assert_eq!(ends, 1);
        assert!(matches!(events.last(), Some(StreamEvent::Done { .. })));
    }
}

#[test]
fn a_line_without_its_newline_is_read_at_the_end() {
    let body = "data: {\"choices\":[{\"delta\":{\"content\":\"tail\"}}]}";
    assert_eq!(texts(&collect(body, 4096, false)), vec!["tail"]);
}

#[test]
fn malformed_data_ends_the_reply() {
    let body = "data: {oops\n\ndata: {\"choices\":[{\"delta\":{\"content\":\"x\"}}]}\n\ndata: [DONE]\n\n";
    let events = collect(body, 4096, false);
    match events.as_slice() {
        [StreamEvent::Error { message }] => {
            assert!(message.starts_with("malformed chunk: "), "{message}");
            assert!(message.ends_with(": {oops"), "{message}");
        }
        _ => panic!("the error is all there is"),
    }
    let events = collect("data: {oops\n\n", 4096, true);
    assert!(matches!(
        events.as_slice(),
        [StreamEvent::Error { message }] if message.starts_with("malformed event: ")
    ));
}

#[test]
fn an_error_event_ends_the_reply() {
    let body = "data: {\"type\":\"error\",\"error\":{\"message\":\"overloaded\"}}\n\ndata: {\"type\":\"message_stop\"}\n\n";
    let events = collect(body, 20, true);
    assert!(matches!(events.last(), Some(StreamEvent::Error { message }) if message == "overloaded"));
    assert!(!events.iter().any(|e| matches!(e, StreamEvent::Done { .. })));
    let events = collect("data: {\"type\":\"error\"}\n\n", 20, true);
    assert!(matches!(
        events.last(),
        Some(StreamEvent::Error { message }) if message == "unknown Anthropic error"
    ));
}

#[test]
fn a_broken_stream_ends_with_its_error() {
    let mut parser = SseParser::new("m");
    parser.feed(b"data: {\"choices\"");
    parser.fail("connection reset");
    assert!(matches!(
        parser.next(),
        Next::Event(StreamEvent::Error { message }) if message == "connection reset"
    ));
    assert!(matches!(parser.next(), Next::End));
}

#[test]
fn stop_reasons_are_told_apart() {
    assert_eq!(openai::stop_reason_from_wire("stop", false), StopReason::Stop);
    assert_eq!(openai::stop_reason_from_wire("length", false), StopReason::Length);
    assert_eq!(openai::stop_reason_from_wire("tool_calls", true), StopReason::ToolUse);
    assert_eq!(anthropic::stop_reason_from_wire("end_turn", true), StopReason::Stop);
    assert_eq!(anthropic::stop_reason_from_wire("max_tokens", false), StopReason::Length);
    assert_eq!(anthropic::stop_reason_from_wire("tool_use", false), StopReason::ToolUse);
    assert_eq!(anthropic::stop_reason_from_wire("stop_sequence", true), StopReason::Stop);
    assert_eq!(anthropic::stop_reason_from_wire("?", true), StopReason::ToolUse);
}

#[test]
fn cached_tokens_count_where_they_are_nested() {
    let usage = openai::WireUsage {
        prompt_tokens: 100,
        completion_tokens: 7,
        prompt_cache_hit_tokens: 0,
        prompt_cache_miss_tokens: 0,
        total_tokens: 107,
        cached_tokens: 64,
    };
    let usage = usage.into_usage();
    assert_eq!(usage.cache_read_tokens, 64);
    assert_eq!(usage.total_tokens, 107);
}

#[test]
fn lines_that_are_no_utf8_are_read_with_replacements() {
    assert!(matches!(read_line(b"data: [DONE]"), Line::Done));
    assert!(matches!(read_line(b": comment"), Line::Skip));
    match read_line(b"data: a\xffb") {
        Line::Data(data) => assert_eq!(data, "a\u{fffd}b"),
        _ => panic!("data"),
    }
    assert_eq!(find_newline(b"ab\nc"), Some(2));
    assert_eq!(find_newline(b"abc"), None);
}

#[test]
fn an_input_that_comes_whole_is_kept() {
    let body = "data: {\"type\":\"content_block_start\",\"content_block\":{\"type\":\"tool_use\",\"id\":\"c\",\"name\":\"ls\",\"input\":{\"dir\":\".\"}}}\n\ndata: {\"type\":\"message_stop\"}\n\n";
    let events = collect(body, 4096, true);
    match done(&events).content.as_slice() {
        [ContentPart::ToolCall { arguments, .. }] => {
            assert!(matches!(arguments, Json::Object(_)));
            assert_eq!(arguments.get_str("dir"), Some("."));
        }
        _ => panic!("one call"),
    }
}
