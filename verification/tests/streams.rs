use mygate::json_codec::{json_to_value, parse_json, render_json};
use mygate::router::anthropic_stream::{
    events_in_text, pass_chunk, AnthropicEvent, AnthropicStream, BlockDelta, NamedEvent,
    PassedStream, StreamBlock,
};
use mygate::router::openai_stream::{map_finish_reason, ClientEvent, OpenAIStream, StreamEnd};
use mygate::router::sse::{ByteLineBuffer, LineBuffer};

fn value(text: &str) -> serde_json::Value {
    serde_json::from_str(text).unwrap()
}

fn body(events: &[(Option<&str>, &str)]) -> String {
    let mut out = String::new();
    for (event, data) in events {
        if let Some(name) = event {
            out.push_str(&format!("event: {}\n", name));
        }
        out.push_str(&format!("data: {}\n\n", data));
    }
    out
}

fn data_of(events: &[ClientEvent]) -> Vec<String> {
    events.iter().map(|e| e.data().to_string()).collect()
}

fn names_of(events: &[NamedEvent]) -> Vec<&str> {
    events.iter().map(|e| e.name.as_deref().unwrap()).collect()
}

const START: (Option<&str>, &str) = (
    Some("message_start"),
    r#"{"type":"message_start","message":{"id":"msg_x","type":"message","role":"assistant","model":"c","content":[],"stop_reason":null,"stop_sequence":null,"usage":{"input_tokens":5,"output_tokens":0}}}"#,
);
const TEXT_START: (Option<&str>, &str) = (
    Some("content_block_start"),
    r#"{"type":"content_block_start","index":0,"content_block":{"type":"text","text":""}}"#,
);
const STOP_0: (Option<&str>, &str) = (
    Some("content_block_stop"),
    r#"{"type":"content_block_stop","index":0}"#,
);
const STOP_1: (Option<&str>, &str) = (
    Some("content_block_stop"),
    r#"{"type":"content_block_stop","index":1}"#,
);
const END_TURN: (Option<&str>, &str) = (
    Some("message_delta"),
    r#"{"type":"message_delta","delta":{"stop_reason":"end_turn","stop_sequence":null},"usage":{"output_tokens":3}}"#,
);
const TOOL_USE: (Option<&str>, &str) = (
    Some("message_delta"),
    r#"{"type":"message_delta","delta":{"stop_reason":"tool_use","stop_sequence":null},"usage":{"output_tokens":15}}"#,
);
const MESSAGE_STOP: (Option<&str>, &str) = (Some("message_stop"), r#"{"type":"message_stop"}"#);

fn hello_world() -> Vec<(Option<&'static str>, &'static str)> {
    vec![
        START,
        TEXT_START,
        (
            Some("content_block_delta"),
            r#"{"type":"content_block_delta","index":0,"delta":{"type":"text_delta","text":"Hello"}}"#,
        ),
        (
            Some("content_block_delta"),
            r#"{"type":"content_block_delta","index":0,"delta":{"type":"text_delta","text":", "}}"#,
        ),
        (
            Some("content_block_delta"),
            r#"{"type":"content_block_delta","index":0,"delta":{"type":"text_delta","text":"World"}}"#,
        ),
        STOP_0,
        END_TURN,
        MESSAGE_STOP,
    ]
}

#[test]
fn openai_streaming_model_field_replaced() {
    let text = body(&[
        (None, r#"{"id":"x","object":"chat.completion.chunk","created":1,"model":"glm-4-flash","choices":[{"index":0,"delta":{"role":"assistant","content":"Hello"},"finish_reason":null}]}"#),
        (None, r#"{"id":"x","object":"chat.completion.chunk","created":1,"model":"glm-4-flash","choices":[{"index":0,"delta":{"content":" world"},"finish_reason":null}]}"#),
        (None, r#"{"id":"x","object":"chat.completion.chunk","created":1,"model":"glm-4-flash","choices":[{"index":0,"delta":{},"finish_reason":"stop"}]}"#),
        (None, "[DONE]"),
    ]);
    let mut stream = OpenAIStream::new("T", 1);
    let events = data_of(&stream.take_bytes(text.as_bytes()));
    assert_eq!(events.len(), 4);
    assert_eq!(events[3], "[DONE]");
    let mut combined = String::new();
    for e in events.iter().take(3) {
        let v = value(e);
        assert_eq!(v["model"], "T");
        if let Some(s) = v["choices"][0]["delta"]["content"].as_str() {
            combined.push_str(s);
        }
    }
    assert_eq!(combined, "Hello world");
    assert!(stream.done);
    assert!(stream.finish(StreamEnd::Closed).is_empty());
}

#[test]
fn openai_streaming_emits_done_marker() {
    let text = body(&[
        (None, r#"{"id":"x","model":"glm-4-flash","choices":[{"index":0,"delta":{"content":"hi"},"finish_reason":"stop"}]}"#),
        (None, "[DONE]"),
    ]);
    let mut stream = OpenAIStream::new("T", 1);
    let events = data_of(&stream.take_bytes(text.as_bytes()));
    assert!(events.contains(&"[DONE]".to_string()));
}

#[test]
fn openai_to_anthropic_stream_conversion() {
    let text = body(&hello_world());
    let mut stream = OpenAIStream::new("XA", 77);
    let events = stream.take_bytes(text.as_bytes());
    let chunks = data_of(&events);
    assert!(chunks.iter().any(|c| c.contains("chat.completion.chunk")));
    assert!(!chunks
        .iter()
        .any(|c| c.contains("\"type\":\"message_start\"")));
    assert_eq!(events.last(), Some(&ClientEvent::Done));
    assert_eq!(chunks.len(), 5);
    assert_eq!(
        value(&chunks[0]),
        value(
            r#"{"id":"msg_x","object":"chat.completion.chunk","created":77,"model":"XA",
                "choices":[{"index":0,"delta":{"content":"Hello"},"finish_reason":null}]}"#
        )
    );
    assert_eq!(
        value(&chunks[3])["choices"][0],
        value(r#"{"index":0,"delta":{},"finish_reason":"stop"}"#)
    );
}

#[test]
fn tool_calls_are_converted_by_block() {
    let text = body(&[
        START,
        TEXT_START,
        (None, r#"{"type":"content_block_start","index":1,"content_block":{"type":"tool_use","id":"a","name":"one","input":{}}}"#),
        (None, r#"{"type":"content_block_start","index":2,"content_block":{"type":"tool_use","id":"b","name":"two","input":{}}}"#),
        (None, r#"{"type":"content_block_delta","index":1,"delta":{"type":"input_json_delta","partial_json":"{\"x\":"}}"#),
        (None, r#"{"type":"content_block_delta","index":2,"delta":{"type":"input_json_delta","partial_json":"{}"}}"#),
        (None, r#"{"type":"content_block_delta","index":1,"delta":{"type":"input_json_delta","partial_json":"1}"}}"#),
        (None, r#"{"type":"content_block_delta","index":9,"delta":{"type":"input_json_delta","partial_json":"lost"}}"#),
        (None, r#"{"type":"content_block_delta","index":0,"delta":{"type":"thinking_delta","thinking":"hm"}}"#),
        (None, r#"{"type":"ping"}"#),
        TOOL_USE,
    ]);
    let mut stream = OpenAIStream::new("T", 0);
    let chunks = data_of(&stream.take_bytes(text.as_bytes()));
    assert_eq!(chunks.len(), 7);
    let call = |i: usize| value(&chunks[i])["choices"][0]["delta"]["tool_calls"][0].clone();
    assert_eq!(
        call(0),
        value(r#"{"index":0,"id":"a","type":"function","function":{"name":"one","arguments":""}}"#)
    );
    assert_eq!(call(1)["index"], 1);
    assert_eq!(
        call(2),
        value(r#"{"index":0,"function":{"arguments":"{\"x\":"}}"#)
    );
    assert_eq!(call(3)["index"], 1);
    assert_eq!(call(4)["index"], 0);
    assert_eq!(
        value(&chunks[5])["choices"][0]["delta"],
        value(r#"{"reasoning_content":"hm"}"#)
    );
    assert_eq!(
        value(&chunks[6])["choices"][0]["finish_reason"],
        "tool_calls"
    );
    assert_eq!(
        stream.finish(StreamEnd::Closed),
        vec![ClientEvent::Done]
    );
}

#[test]
fn reasoning_is_kept_in_order() {
    let text = body(&[
        START,
        (None, r#"{"type":"content_block_delta","index":0,"delta":{"type":"thinking_delta","thinking":"one "}}"#),
        (None, r#"{"type":"content_block_delta","index":1,"delta":{"type":"text_delta","text":"say"}}"#),
        (None, r#"{"type":"content_block_delta","index":0,"delta":{"type":"thinking_delta","thinking":"two"}}"#),
        (None, r#"{"type":"content_block_delta","index":0,"delta":{"type":"signature_delta","signature":"x"}}"#),
    ]);
    let mut stream = OpenAIStream::new("T", 0);
    let deltas: Vec<serde_json::Value> = data_of(&stream.take_bytes(text.as_bytes()))
        .iter()
        .map(|chunk| value(chunk)["choices"][0]["delta"].clone())
        .collect();
    assert_eq!(
        deltas,
        vec![
            value(r#"{"reasoning_content":"one "}"#),
            value(r#"{"content":"say"}"#),
            value(r#"{"reasoning_content":"two"}"#),
        ]
    );
}

#[test]
fn error_of_the_backend_reaches_the_client() {
    let error = r#"{"type":"error","error":{"type":"overloaded_error","message":"Overloaded"}}"#;
    let mut stream = OpenAIStream::new("T", 0);
    let before = stream.take_bytes(body(&[(Some("error"), error)]).as_bytes());
    assert_eq!(before, vec![ClientEvent::Data(error.to_string())]);
    stream.take_bytes(body(&[START, TEXT_START]).as_bytes());
    let within = stream.take_bytes(body(&[(Some("error"), error), MESSAGE_STOP]).as_bytes());
    assert_eq!(
        within,
        vec![ClientEvent::Data(error.to_string()), ClientEvent::Done]
    );
}

#[test]
fn lines_that_are_no_data_are_skipped() {
    let mut stream = OpenAIStream::new("T", 0);
    assert!(stream.take_line("").is_empty());
    assert!(stream.take_line(": keep-alive").is_empty());
    assert!(stream.take_line("event: x").is_empty());
    assert_eq!(
        stream.take_line("  data: not json  "),
        vec![ClientEvent::Data("not json".to_string())]
    );
    assert_eq!(
        stream.take_data("{\"type\":\"x\"}", parse_json("{\"type\":\"x\"}")),
        vec![ClientEvent::Data("{\"type\":\"x\"}".to_string())]
    );
    assert_eq!(stream.take_line("data: [DONE]"), vec![ClientEvent::Done]);
    assert!(stream.take_line("data: late").is_empty());
}

#[test]
fn chunks_make_no_difference() {
    let text = body(&hello_world());
    let mut whole = OpenAIStream::new("T", 0);
    let expected = whole.take_bytes(text.as_bytes());
    for cut in [1, 7, 40, text.len() - 3] {
        let mut pieces = OpenAIStream::new("T", 0);
        let mut events = pieces.take_bytes(&text.as_bytes()[..cut]);
        events.extend(pieces.take_bytes(&text.as_bytes()[cut..]));
        assert_eq!(events, expected);
        assert_eq!(pieces, whole);
    }
}

#[test]
fn chunk_that_is_not_utf8_is_skipped() {
    let mut stream = OpenAIStream::new("T", 0);
    assert!(stream.take_bytes(b"data: a").is_empty());
    assert!(stream.take_bytes(&[0xff, 0xfe, b'\n']).is_empty());
    assert_eq!(
        stream.take_bytes(b"b\n"),
        vec![ClientEvent::Data("ab".to_string())]
    );
}

#[test]
fn stream_that_stops_is_ended() {
    let end = |end: StreamEnd| data_of(&OpenAIStream::new("T", 0).finish(end));
    assert_eq!(end(StreamEnd::Closed), vec!["[DONE]"]);
    let broken = end(StreamEnd::Interrupted("reset".to_string()));
    assert_eq!(
        value(&broken[0]),
        value(r#"{"error":"stream interrupted","detail":"reset"}"#)
    );
    assert_eq!(broken[1], "[DONE]");
    let late = end(StreamEnd::TimedOut);
    assert_eq!(
        value(&late[0]),
        value(r#"{"error":"stream timeout","detail":"backend stopped sending data"}"#)
    );
    assert_eq!(late.len(), 2);
}

#[test]
fn finish_reasons_are_mapped() {
    assert_eq!(map_finish_reason("end_turn"), "stop");
    assert_eq!(map_finish_reason("max_tokens"), "length");
    assert_eq!(map_finish_reason("tool_use"), "tool_calls");
    assert_eq!(map_finish_reason("refusal"), "refusal");
}

#[test]
fn lines_are_put_together() {
    let mut buffer = LineBuffer::new();
    assert!(buffer.feed("ab").is_empty());
    assert_eq!(buffer.feed("c\nd\n\ne"), vec!["abc", "d", ""]);
    assert_eq!(buffer.rest, "e");
    assert_eq!(buffer.feed_bytes("é\n".as_bytes()), vec!["eé"]);
    assert_eq!(buffer.rest, "");
}

#[test]
fn anthropic_sse_event_sequence() {
    let events = pass_chunk(body(&hello_world()).as_bytes());
    let names = names_of(&events);
    assert_eq!(names.len(), 8);
    assert_eq!(names[0], "message_start");
    assert_eq!(names[1], "content_block_start");
    assert_eq!(names[2], "content_block_delta");
    assert_eq!(names[3], "content_block_delta");
    assert_eq!(names[4], "content_block_delta");
    assert_eq!(names[5], "content_block_stop");
    assert_eq!(names[6], "message_delta");
    assert_eq!(names[7], "message_stop");
}

#[test]
fn anthropic_sse_event_count() {
    let events = pass_chunk(body(&hello_world()).as_bytes());
    let names = names_of(&events);
    let required = [
        "message_start",
        "content_block_start",
        "content_block_delta",
        "content_block_stop",
        "message_delta",
        "message_stop",
    ];
    for name in required {
        assert!(names.contains(&name));
    }
    assert_eq!(names.last(), Some(&"message_stop"));
}

#[test]
fn anthropic_sse_tool_use_lifecycle() {
    let events = events_in_text(&body(&[
        START,
        (Some("content_block_start"), r#"{"type":"content_block_start","index":0,"content_block":{"type":"tool_use","id":"toolu_001","name":"read_file","input":{}}}"#),
        (Some("content_block_delta"), r#"{"type":"content_block_delta","index":0,"delta":{"type":"input_json_delta","partial_json":"{\"file"}}"#),
        (Some("content_block_delta"), r#"{"type":"content_block_delta","index":0,"delta":{"type":"input_json_delta","partial_json":"_path\":\"/etc/hosts\"}"}}"#),
        STOP_0,
        TOOL_USE,
        MESSAGE_STOP,
    ]));
    assert_eq!(
        names_of(&events),
        vec![
            "message_start",
            "content_block_start",
            "content_block_delta",
            "content_block_delta",
            "content_block_stop",
            "message_delta",
            "message_stop"
        ]
    );
    let start = value(&events[1].data);
    assert_eq!(start["content_block"]["type"], "tool_use");
    assert_eq!(start["content_block"]["name"], "read_file");
    let json1 = value(&events[2].data);
    let json2 = value(&events[3].data);
    let combined = format!(
        "{}{}",
        json1["delta"]["partial_json"].as_str().unwrap(),
        json2["delta"]["partial_json"].as_str().unwrap()
    );
    assert_eq!(value(&combined)["file_path"], "/etc/hosts");
    let delta = value(&events[5].data);
    assert_eq!(delta["delta"]["stop_reason"], "tool_use");
}

#[test]
fn anthropic_sse_thinking_lifecycle() {
    let delta = Some("content_block_delta");
    let events = events_in_text(&body(&[
        START,
        (Some("content_block_start"), r#"{"type":"content_block_start","index":0,"content_block":{"type":"thinking","thinking":"","signature":""}}"#),
        (delta, r#"{"type":"content_block_delta","index":0,"delta":{"type":"thinking_delta","thinking":"Let me think about this"}}"#),
        (delta, r#"{"type":"content_block_delta","index":0,"delta":{"type":"thinking_delta","thinking":" step by step."}}"#),
        (delta, r#"{"type":"content_block_delta","index":0,"delta":{"type":"signature_delta","signature":"sig_abc123"}}"#),
        STOP_0,
        (Some("content_block_start"), r#"{"type":"content_block_start","index":1,"content_block":{"type":"text","text":""}}"#),
        (delta, r#"{"type":"content_block_delta","index":1,"delta":{"type":"text_delta","text":"The answer is 42."}}"#),
        STOP_1,
        END_TURN,
        MESSAGE_STOP,
    ]));
    let names = names_of(&events);
    assert_eq!(names.len(), 11);
    assert_eq!(names[0], "message_start");
    assert_eq!(names[1], "content_block_start");
    assert_eq!(names[5], "content_block_stop");
    assert_eq!(names[6], "content_block_start");
    assert_eq!(names[8], "content_block_stop");
    assert_eq!(names[9], "message_delta");
    assert_eq!(names[10], "message_stop");
}

#[test]
fn anthropic_sse_multiple_blocks_parallel() {
    let delta = Some("content_block_delta");
    let events = events_in_text(&body(&[
        START,
        TEXT_START,
        (delta, r#"{"type":"content_block_delta","index":0,"delta":{"type":"text_delta","text":"I will"}}"#),
        (Some("content_block_start"), r#"{"type":"content_block_start","index":1,"content_block":{"type":"tool_use","id":"toolu_002","name":"search","input":{}}}"#),
        (delta, r#"{"type":"content_block_delta","index":0,"delta":{"type":"text_delta","text":" search for that."}}"#),
        (delta, r#"{"type":"content_block_delta","index":1,"delta":{"type":"input_json_delta","partial_json":"{\"query\":\"rust\"}"}}"#),
        STOP_0,
        STOP_1,
        TOOL_USE,
        MESSAGE_STOP,
    ]));
    let of_block = |index: u64| -> Vec<&NamedEvent> {
        events
            .iter()
            .filter(|e| value(&e.data)["index"].as_u64() == Some(index))
            .collect()
    };
    let block0 = of_block(0);
    let block1 = of_block(1);
    assert_eq!(block0[0].name.as_deref(), Some("content_block_start"));
    assert_eq!(block0[1].name.as_deref(), delta);
    assert_eq!(block0[2].name.as_deref(), delta);
    assert_eq!(block0[3].name.as_deref(), Some("content_block_stop"));
    assert_eq!(block1[0].name.as_deref(), Some("content_block_start"));
    assert_eq!(block1[1].name.as_deref(), delta);
    assert_eq!(block1[2].name.as_deref(), Some("content_block_stop"));
    let tool_delta = value(&block1[1].data);
    assert_eq!(tool_delta["delta"]["type"], "input_json_delta");
    assert!(tool_delta["delta"]["partial_json"]
        .as_str()
        .unwrap()
        .contains("rust"));
    assert_eq!(names_of(&events).last(), Some(&"message_stop"));
}

#[test]
fn anthropic_sse_truncated_no_message_stop() {
    let mut sent = hello_world();
    sent.pop();
    let events = pass_chunk(body(&sent).as_bytes());
    let names = names_of(&events);
    assert_eq!(names.len(), 7);
    assert_eq!(names[0], "message_start");
    assert_eq!(names[6], "message_delta");
    assert!(!names.contains(&"message_stop"));
}

#[test]
fn passed_events_without_names_and_with_bad_bytes() {
    let events = events_in_text("data: a\nevent: n\n: c\ndata: b\ndata: c");
    assert_eq!(
        events,
        vec![
            NamedEvent {
                name: None,
                data: "a".to_string()
            },
            NamedEvent {
                name: Some("n".to_string()),
                data: "b".to_string()
            },
            NamedEvent {
                name: None,
                data: "c".to_string()
            },
        ]
    );
    let lossy = pass_chunk(&[b'd', b'a', b't', b'a', b':', b' ', 0xff]);
    assert_eq!(lossy[0].data, "\u{fffd}");
}

#[test]
fn passed_chunks_make_no_difference() {
    let text = format!(
        "{}event: last\r\ndata: h\u{e9}llo \u{1f30d}\r\n\ndata: open\r",
        body(&hello_world())
    );
    let bytes = text.as_bytes();
    let expected = pass_chunk(bytes);
    assert_eq!(expected[expected.len() - 2].name.as_deref(), Some("last"));
    assert_eq!(expected[expected.len() - 2].data, "h\u{e9}llo \u{1f30d}");
    assert_eq!(expected[expected.len() - 1].data, "open\r");
    for cut in 0..=bytes.len() {
        let mut stream = PassedStream::new();
        let mut events = stream.take_bytes(&bytes[..cut]);
        events.extend(stream.take_bytes(&bytes[cut..]));
        events.extend(stream.finish());
        assert_eq!(events, expected);
        assert!(stream.finish().is_empty());
    }
    let mut stream = PassedStream::new();
    let mut events = Vec::new();
    for byte in bytes {
        events.extend(stream.take_bytes(&[*byte]));
    }
    assert_eq!(events.len(), expected.len() - 1);
    events.extend(stream.finish());
    assert_eq!(events, expected);
}

#[test]
fn passed_name_waits_for_its_data() {
    let mut stream = PassedStream::new();
    assert!(stream.take_bytes(b"event: ping\nda").is_empty());
    assert_eq!(stream.waiting.as_deref(), Some("ping"));
    assert_eq!(
        stream.take_bytes(b"ta: {}\n\ndata: \xff\n"),
        vec![
            NamedEvent {
                name: Some("ping".to_string()),
                data: "{}".to_string()
            },
            NamedEvent {
                name: None,
                data: "\u{fffd}".to_string()
            },
        ]
    );
    assert_eq!(stream, PassedStream::new());
}

#[test]
fn byte_lines_are_put_together() {
    let mut buffer = ByteLineBuffer::new();
    assert!(buffer.feed(&[b'a', 0xc3]).is_empty());
    assert_eq!(buffer.feed(&[0xa9, b'\r', b'\n', b'\n', b'b']), vec!["a\u{e9}", ""]);
    assert_eq!(buffer.rest, vec![b'b']);
    assert_eq!(buffer.finish(), vec!["b"]);
    assert!(buffer.finish().is_empty());
}

fn convert(chunks: &[&str]) -> Vec<AnthropicEvent> {
    let mut stream = AnthropicStream::with_id("msg_1".to_string(), "Plan");
    let mut events = vec![stream.start()];
    for chunk in chunks {
        events.extend(stream.take_bytes(format!("data: {}\n\n", chunk).as_bytes()));
    }
    events.extend(stream.finish());
    assert!(stream.finish().is_empty());
    events
}

fn start(index: usize, block: StreamBlock) -> AnthropicEvent {
    AnthropicEvent::BlockStart { index, block }
}

fn delta(index: usize, delta: BlockDelta) -> AnthropicEvent {
    AnthropicEvent::BlockDelta { index, delta }
}

fn stop(index: usize) -> AnthropicEvent {
    AnthropicEvent::BlockStop { index }
}

fn tool(id: &str, name: &str) -> StreamBlock {
    StreamBlock::ToolUse {
        id: id.to_string(),
        name: name.to_string(),
    }
}

fn tail(stop_reason: &str, output_tokens: u64) -> Vec<AnthropicEvent> {
    vec![
        AnthropicEvent::MessageDelta {
            stop_reason: stop_reason.to_string(),
            output_tokens,
        },
        AnthropicEvent::MessageStop,
    ]
}

#[test]
fn reasoning_and_text_are_converted() {
    let events = convert(&[
        r#"{"choices":[{"delta":{"reasoning_content":"Let me analyze..."}}]}"#,
        r#"{"choices":[{"delta":{"reasoning_content":" the code"}}]}"#,
        r#"{"choices":[{"delta":{"content":"I found"}}]}"#,
        r#"{"choices":[{"delta":{"content":" it."}}]}"#,
        r#"{"choices":[{"delta":{},"finish_reason":"stop"}],"usage":{"completion_tokens":150}}"#,
        "[DONE]",
    ]);
    let mut expected = vec![
        AnthropicEvent::MessageStart {
            id: "msg_1".to_string(),
            model: "Plan".to_string(),
        },
        start(0, StreamBlock::Thinking),
        delta(0, BlockDelta::Thinking("Let me analyze...".to_string())),
        delta(0, BlockDelta::Thinking(" the code".to_string())),
        stop(0),
        start(1, StreamBlock::Text),
        delta(1, BlockDelta::Text("I found".to_string())),
        delta(1, BlockDelta::Text(" it.".to_string())),
        stop(1),
    ];
    expected.extend(tail("end_turn", 150));
    assert_eq!(events, expected);
}

#[test]
fn streamed_tool_calls_are_converted() {
    let events = convert(&[
        r#"{"choices":[{"delta":{"content":"I'll read."}}]}"#,
        r#"{"choices":[{"delta":{"tool_calls":[{"index":0,"id":"call_abc","function":{"name":"Read","arguments":""}}]}}]}"#,
        r#"{"choices":[{"delta":{"tool_calls":[{"index":0,"function":{"arguments":"{\"file"}}]}}]}"#,
        r#"{"choices":[{"delta":{"tool_calls":[{"index":0,"function":{"arguments":"_path\":\"main.rs\"}"}}]}}]}"#,
        r#"{"choices":[{"delta":{"tool_calls":[{"index":1,"id":"call_def","function":{"name":"Bash","arguments":"{}"}}]}}]}"#,
        r#"{"choices":[{"delta":{},"finish_reason":"tool_calls"}]}"#,
    ]);
    let mut expected = vec![
        start(0, StreamBlock::Text),
        delta(0, BlockDelta::Text("I'll read.".to_string())),
        stop(0),
        start(1, tool("call_abc", "Read")),
        delta(1, BlockDelta::InputJson("{\"file".to_string())),
        delta(
            1,
            BlockDelta::InputJson("_path\":\"main.rs\"}".to_string()),
        ),
        stop(1),
        start(2, tool("call_def", "Bash")),
        delta(2, BlockDelta::InputJson("{}".to_string())),
        stop(2),
    ];
    expected.extend(tail("tool_use", 0));
    assert_eq!(events[1..].to_vec(), expected);
}

#[test]
fn text_after_a_tool_call_ends_the_turn() {
    let events = convert(&[
        r#"{"choices":[{"delta":{"tool_calls":[{"id":"c","function":{"name":"Read","arguments":"{"}}]}}]}"#,
        r#"{"choices":[{"delta":{"content":"never mind"}}]}"#,
        r#"{"choices":[{"delta":{"tool_calls":[{"function":{"arguments":"}"}}]}}]}"#,
    ]);
    let mut expected = vec![
        start(0, tool("c", "Read")),
        delta(0, BlockDelta::InputJson("{".to_string())),
        stop(0),
        start(1, StreamBlock::Text),
        delta(1, BlockDelta::Text("never mind".to_string())),
        stop(1),
    ];
    expected.extend(tail("end_turn", 0));
    assert_eq!(events[1..].to_vec(), expected);
}

#[test]
fn empty_answer_gets_a_block() {
    let events = convert(&["[DONE]"]);
    let mut expected = vec![start(0, StreamBlock::Text), stop(0)];
    expected.extend(tail("end_turn", 0));
    assert_eq!(events[1..].to_vec(), expected);
    let thought = convert(&[r#"{"choices":[{"delta":{"reasoning_content":"x"}}]}"#]);
    assert_eq!(thought[1], start(0, StreamBlock::Thinking));
    assert_eq!(thought.len(), 6);
}

#[test]
fn limit_of_tokens_is_told() {
    let events = convert(&[
        r#"{"choices":[{"delta":{"content":"a"},"finish_reason":"length"}]}"#,
        "not json",
        r#"{"choices":[]}"#,
        r#"{"usage":{"completion_tokens":9}}"#,
    ]);
    let n = events.len();
    assert_eq!(events[n - 2..].to_vec(), tail("max_tokens", 9));
}

#[test]
fn converted_chunks_make_no_difference() {
    let text = body(&[
        (None, r#"{"choices":[{"delta":{"reasoning_content":"é"}}]}"#),
        (None, r#"{"choices":[{"delta":{"content":"b"}}]}"#),
        (None, "[DONE]"),
    ]);
    let mut whole = AnthropicStream::with_id("m".to_string(), "A");
    let expected = whole.take_bytes(text.as_bytes());
    for cut in 0..=text.len() {
        let mut pieces = AnthropicStream::with_id("m".to_string(), "A");
        let mut events = pieces.take_bytes(&text.as_bytes()[..cut]);
        events.extend(pieces.take_bytes(&text.as_bytes()[cut..]));
        assert_eq!(events, expected);
        assert_eq!(pieces, whole);
    }
    assert!(whole.take_line("data: {\"choices\":[{\"delta\":{\"content\":\"late\"}}]}").is_empty());
}

#[test]
fn events_have_names_and_json() {
    let json = |e: &AnthropicEvent| json_to_value(&e.to_json());
    let random = AnthropicStream::new("Plan").start();
    assert_eq!(random.name(), "message_start");
    let message = json(&random)["message"].clone();
    let id = message["id"].as_str().unwrap().to_string();
    assert!(id.starts_with("msg_") && id.len() == 40);
    let fixed = AnthropicStream::with_id("msg_01XYZ".to_string(), "Plan").start();
    assert_eq!(
        json(&fixed),
        value(
            r#"{"type":"message_start","message":{"id":"msg_01XYZ","type":"message",
                "role":"assistant","content":[],"model":"Plan","stop_reason":null,
                "stop_sequence":null,"usage":{"input_tokens":0,"output_tokens":0}}}"#
        )
    );
    let cases = [
        (
            start(0, StreamBlock::Thinking),
            "content_block_start",
            r#"{"type":"content_block_start","index":0,"content_block":{"type":"thinking","thinking":""}}"#,
        ),
        (
            start(1, StreamBlock::Text),
            "content_block_start",
            r#"{"type":"content_block_start","index":1,"content_block":{"type":"text","text":""}}"#,
        ),
        (
            start(2, tool("toolu_01ABC123", "Read")),
            "content_block_start",
            r#"{"type":"content_block_start","index":2,"content_block":{"type":"tool_use","id":"toolu_01ABC123","name":"Read","input":{}}}"#,
        ),
        (
            delta(0, BlockDelta::Thinking("t".to_string())),
            "content_block_delta",
            r#"{"type":"content_block_delta","index":0,"delta":{"type":"thinking_delta","thinking":"t"}}"#,
        ),
        (
            delta(1, BlockDelta::Text("t".to_string())),
            "content_block_delta",
            r#"{"type":"content_block_delta","index":1,"delta":{"type":"text_delta","text":"t"}}"#,
        ),
        (
            delta(2, BlockDelta::InputJson("{".to_string())),
            "content_block_delta",
            r#"{"type":"content_block_delta","index":2,"delta":{"type":"input_json_delta","partial_json":"{"}}"#,
        ),
        (
            stop(2),
            "content_block_stop",
            r#"{"type":"content_block_stop","index":2}"#,
        ),
        (
            tail("end_turn", 42)[0].clone(),
            "message_delta",
            r#"{"type":"message_delta","delta":{"stop_reason":"end_turn","stop_sequence":null},"usage":{"output_tokens":42}}"#,
        ),
        (
            AnthropicEvent::MessageStop,
            "message_stop",
            r#"{"type":"message_stop"}"#,
        ),
    ];
    for (event, name, text) in cases {
        assert_eq!(event.name(), name);
        assert_eq!(json(&event), value(text));
        assert_eq!(value(&render_json(&event.to_json())), value(text));
    }
}
