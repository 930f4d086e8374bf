use mygate::backend::openai_compat::{
    chat_outcome, chunks_of_event, from_openai_response, parse_error_body, parse_sse_line,
    response_with_id, stream_outcome, to_openai_request, ChatReply, OpenAIChoice, OpenAIResponse,
    OpenAIResponseMessage, OpenAIToolCallResponse, OpenAIToolFunctionCallResponse, OpenAIUsage,
};
use mygate::backend::{adapter_for, is_success, BackendAdapter, StreamReply};
use mygate::config::ProviderConfig;
use mygate::error::GatewayError;
use mygate::gateway::types::{
    ContentBlock, DocumentSource, FunctionCall, ImageUrlContent, InternalMessage, InternalRequest,
    InternalTool, ResponseFormat, Role, StreamOptions, ToolChoice,
};
use mygate::json::{Json, JsonNumber};
use mygate::json_codec::{json_to_value, parse_json};

fn value(text: &str) -> serde_json::Value {
    serde_json::from_str(text).unwrap()
}

fn json(text: &str) -> Json {
    parse_json(text).unwrap()
}

fn number(x: f64) -> JsonNumber {
    JsonNumber {
        value: serde_json::Number::from_f64(x).unwrap(),
    }
}

fn opt_value(j: &Option<Json>) -> Option<serde_json::Value> {
    j.as_ref().map(json_to_value)
}

fn text_block(text: &str) -> ContentBlock {
    ContentBlock::Text {
        text: text.to_string(),
    }
}

fn request(alias: &str) -> InternalRequest {
    InternalRequest {
        model_alias: alias.to_string(),
        system: None,
        messages: vec![],
        stream: false,
        temperature: None,
        max_tokens: None,
        tools: None,
        tool_choice: None,
        response_format: None,
        top_p: None,
        top_k: None,
        frequency_penalty: None,
        presence_penalty: None,
        stop: None,
        seed: None,
        n: None,
        stream_options: None,
        user: None,
        metadata: None,
    }
}

fn provider(base_url: &str, auth_style: &str) -> ProviderConfig {
    ProviderConfig {
        base_url: base_url.to_string(),
        api_key: "secret".to_string(),
        provider_type: "openai".to_string(),
        auth_style: auth_style.to_string(),
    }
}

#[test]
fn test_to_openai_request_basic() {
    let mut req = request("Simple");
    req.system = Some("You are helpful".to_string());
    req.messages = vec![InternalMessage {
        role: Role::User,
        content: vec![text_block("Hello")],
    }];
    req.temperature = Some(number(0.7));
    req.max_tokens = Some(100);
    let openai = to_openai_request(&req, "glm-4-flash");
    assert_eq!(openai.model, "glm-4-flash");
    assert_eq!(openai.messages.len(), 2);
    assert_eq!(openai.messages[0].role, "system");
    assert_eq!(
        json_to_value(&openai.messages[0].content),
        value("\"You are helpful\"")
    );
    assert_eq!(openai.messages[1].role, "user");
    assert!(openai.stream.is_none());
    assert_eq!(openai.temperature, Some(number(0.7)));
    assert_eq!(openai.max_tokens, Some(100));
}

#[test]
fn test_to_openai_request_system_from_top_level() {
    let mut req = request("Plan");
    req.system = Some("Top-level system".to_string());
    let openai = to_openai_request(&req, "glm-5.1");
    assert_eq!(openai.messages.len(), 1);
    assert_eq!(openai.messages[0].role, "system");
    assert_eq!(
        json_to_value(&openai.messages[0].content),
        value("\"Top-level system\"")
    );
}

#[test]
fn test_to_openai_request_streaming() {
    let mut req = request("Simple");
    req.stream = true;
    let openai = to_openai_request(&req, "test-model");
    assert_eq!(openai.stream, Some(true));
}

#[test]
fn test_from_openai_response() {
    let resp = OpenAIResponse {
        id: Some("chatcmpl-123".to_string()),
        model: Some("glm-4-flash".to_string()),
        choices: vec![OpenAIChoice {
            message: Some(OpenAIResponseMessage {
                content: Some(Json::Str("Hello!".to_string())),
                tool_calls: None,
            }),
            finish_reason: Some("stop".to_string()),
        }],
        usage: Some(OpenAIUsage {
            prompt_tokens: Some(10),
            completion_tokens: Some(5),
            total_tokens: Some(15),
        }),
    };
    let internal = from_openai_response(resp, "Simple");
    assert_eq!(internal.alias, "Simple");
    assert_eq!(internal.model, "glm-4-flash");
    assert_eq!(internal.content.len(), 1);
    assert!(matches!(&internal.content[0], ContentBlock::Text { text } if text == "Hello!"));
    assert_eq!(internal.id, "chatcmpl-123");
    assert_eq!(internal.usage.total_tokens, Some(15));
    assert_eq!(internal.finish_reason.as_deref(), Some("stop"));
}

#[test]
fn test_parse_sse_line_text_delta() {
    let line = r#"data: {"id":"chatcmpl-1","model":"glm-4","choices":[{"index":0,"delta":{"content":"Hi"},"finish_reason":null}]}"#;
    let chunks = parse_sse_line(line, "Simple").unwrap();
    assert_eq!(chunks.len(), 1);
    assert!(matches!(&chunks[0].delta, Some(ContentBlock::Text { text }) if text == "Hi"));
}

#[test]
fn test_parse_sse_line_done() {
    assert!(parse_sse_line("data: [DONE]", "Simple").is_none());
}

#[test]
fn test_parse_sse_line_empty() {
    assert!(parse_sse_line("data: ", "Simple").is_none());
}

fn req_with_tool_choice(tc: Option<ToolChoice>) -> InternalRequest {
    let mut req = request("P");
    req.tool_choice = tc;
    req
}

#[test]
fn test_tool_choice_auto() {
    let req = req_with_tool_choice(Some(ToolChoice::Auto));
    let openai = to_openai_request(&req, "x");
    assert_eq!(opt_value(&openai.tool_choice), Some(value("\"auto\"")));
}

#[test]
fn test_tool_choice_none() {
    let req = req_with_tool_choice(Some(ToolChoice::NoTool));
    let openai = to_openai_request(&req, "x");
    assert_eq!(opt_value(&openai.tool_choice), Some(value("\"none\"")));
}

#[test]
fn test_tool_choice_any_to_required() {
    let req = req_with_tool_choice(Some(ToolChoice::Any));
    let openai = to_openai_request(&req, "x");
    assert_eq!(opt_value(&openai.tool_choice), Some(value("\"required\"")));
}

#[test]
fn test_tool_choice_specific() {
    let req = req_with_tool_choice(Some(ToolChoice::Specific("Read".to_string())));
    let openai = to_openai_request(&req, "x");
    assert_eq!(
        opt_value(&openai.tool_choice),
        Some(value(r#"{"type":"function","function":{"name":"Read"}}"#))
    );
}

#[test]
fn test_tool_choice_absent() {
    let req = req_with_tool_choice(None);
    let openai = to_openai_request(&req, "x");
    assert_eq!(openai.tool_choice, None);
    assert!(openai.to_json().get("tool_choice").is_none());
}

fn req_with_response_format(rf: Option<ResponseFormat>) -> InternalRequest {
    let mut req = request("P");
    req.response_format = rf;
    req
}

#[test]
fn test_response_format_text() {
    let req = req_with_response_format(Some(ResponseFormat::Text));
    let openai = to_openai_request(&req, "x");
    assert_eq!(
        opt_value(&openai.response_format),
        Some(value(r#"{"type":"text"}"#))
    );
}

#[test]
fn test_response_format_json_object() {
    let req = req_with_response_format(Some(ResponseFormat::JsonObject));
    let openai = to_openai_request(&req, "x");
    assert_eq!(
        opt_value(&openai.response_format),
        Some(value(r#"{"type":"json_object"}"#))
    );
}

#[test]
fn test_response_format_absent() {
    let req = req_with_response_format(None);
    let openai = to_openai_request(&req, "x");
    assert_eq!(openai.response_format, None);
}

fn req_with_sampling(
    top_p: Option<f64>,
    freq: Option<f64>,
    pres: Option<f64>,
    stop: Option<Vec<String>>,
) -> InternalRequest {
    let mut req = request("P");
    req.top_p = top_p.map(number);
    req.frequency_penalty = freq.map(number);
    req.presence_penalty = pres.map(number);
    req.stop = stop;
    req
}

#[test]
fn test_top_p_pass_through() {
    let req = req_with_sampling(Some(0.9), None, None, None);
    let openai = to_openai_request(&req, "x");
    assert_eq!(openai.top_p, Some(number(0.9)));
}

#[test]
fn test_penalties_pass_through() {
    let req = req_with_sampling(None, Some(0.5), Some(-0.5), None);
    let openai = to_openai_request(&req, "x");
    assert_eq!(openai.frequency_penalty, Some(number(0.5)));
    assert_eq!(openai.presence_penalty, Some(number(-0.5)));
}

#[test]
fn test_stop_pass_through() {
    let req = req_with_sampling(
        None,
        None,
        None,
        Some(vec!["END".to_string(), "STOP".to_string()]),
    );
    let openai = to_openai_request(&req, "x");
    assert_eq!(
        openai.stop,
        Some(vec!["END".to_string(), "STOP".to_string()])
    );
}

#[test]
fn test_sampling_absent() {
    let req = req_with_sampling(None, None, None, None);
    let openai = to_openai_request(&req, "x");
    assert_eq!(openai.top_p, None);
    assert_eq!(openai.frequency_penalty, None);
    assert_eq!(openai.presence_penalty, None);
    assert_eq!(openai.stop, None);
}

#[test]
fn test_stream_options_include_usage_true() {
    let mut req = request("P");
    req.stream_options = Some(StreamOptions {
        include_usage: true,
    });
    let openai = to_openai_request(&req, "x");
    assert_eq!(
        opt_value(&openai.stream_options),
        Some(value(r#"{"include_usage": true}"#))
    );
}

#[test]
fn test_stream_options_absent() {
    let req = req_with_sampling(None, None, None, None);
    let openai = to_openai_request(&req, "x");
    assert_eq!(openai.stream_options, None);
}

#[test]
fn test_user_pass_through() {
    let mut req = request("P");
    req.user = Some("user-12345".to_string());
    let openai = to_openai_request(&req, "x");
    assert_eq!(openai.user, Some("user-12345".to_string()));
}

#[test]
fn test_user_absent() {
    let req = req_with_sampling(None, None, None, None);
    let openai = to_openai_request(&req, "x");
    assert_eq!(openai.user, None);
}

#[test]
fn tool_results_become_messages_of_their_own() {
    let mut req = request("P");
    req.messages = vec![InternalMessage {
        role: Role::User,
        content: vec![
            ContentBlock::ToolResult {
                tool_use_id: "toolu_01A".to_string(),
                content: "result 1".to_string(),
            },
            ContentBlock::ToolResult {
                tool_use_id: "toolu_01B".to_string(),
                content: "result 2".to_string(),
            },
        ],
    }];
    let body = to_openai_request(&req, "m").to_json();
    assert_eq!(
        json_to_value(&body),
        value(
            r#"{"model":"m","messages":[
                {"role":"tool","content":"result 1","tool_call_id":"toolu_01A"},
                {"role":"tool","content":"result 2","tool_call_id":"toolu_01B"}]}"#
        )
    );
}

#[test]
fn text_beside_tool_results_comes_first() {
    let mut req = request("P");
    req.messages = vec![InternalMessage {
        role: Role::User,
        content: vec![
            ContentBlock::ToolResult {
                tool_use_id: "a".to_string(),
                content: "r".to_string(),
            },
            text_block("and more"),
        ],
    }];
    let body = to_openai_request(&req, "m").to_json();
    assert_eq!(
        json_to_value(&body),
        value(
            r#"{"model":"m","messages":[
                {"role":"user","content":"and more"},
                {"role":"tool","content":"r","tool_call_id":"a"}]}"#
        )
    );
}

#[test]
fn whole_conversation_is_sent() {
    let mut req = request("P");
    req.system = Some("Be helpful".to_string());
    req.messages = vec![
        InternalMessage {
            role: Role::User,
            content: vec![text_block("Read foo.rs")],
        },
        InternalMessage {
            role: Role::Assistant,
            content: vec![ContentBlock::ToolCall {
                id: "toolu_01A".to_string(),
                function: FunctionCall {
                    name: "Read".to_string(),
                    arguments: "{\"file_path\":\"foo.rs\"}".to_string(),
                },
            }],
        },
        InternalMessage {
            role: Role::User,
            content: vec![ContentBlock::ToolResult {
                tool_use_id: "toolu_01A".to_string(),
                content: "fn main() {}".to_string(),
            }],
        },
    ];
    let body = to_openai_request(&req, "m").to_json();
    assert_eq!(
        json_to_value(&body),
        value(
            r#"{"model":"m","messages":[
                {"role":"system","content":"Be helpful"},
                {"role":"user","content":"Read foo.rs"},
                {"role":"assistant","content":null,"tool_calls":[
                    {"id":"toolu_01A","type":"function",
                     "function":{"name":"Read","arguments":"{\"file_path\":\"foo.rs\"}"}}]},
                {"role":"tool","content":"fn main() {}","tool_call_id":"toolu_01A"}]}"#
        )
    );
}

#[test]
fn images_and_documents_are_sent_as_content() {
    let mut req = request("P");
    req.messages = vec![
        InternalMessage {
            role: Role::User,
            content: vec![
                text_block("look"),
                ContentBlock::ImageUrl {
                    image_url: ImageUrlContent {
                        url: "http://x/y.png".to_string(),
                        detail: None,
                    },
                },
            ],
        },
        InternalMessage {
            role: Role::Tool,
            content: vec![ContentBlock::Document {
                source: DocumentSource::Url {
                    url: "http://x/z.pdf".to_string(),
                },
            }],
        },
    ];
    let openai = to_openai_request(&req, "m");
    assert_eq!(
        json_to_value(&openai.messages[0].content),
        value(r#"[{"type":"image_url","image_url":{"url":"http://x/y.png"}}]"#)
    );
    assert_eq!(openai.messages[1].role, "tool");
    assert_eq!(
        openai.messages[1].content,
        Json::Str("[document: OpenAI protocol does not support document blocks]".to_string())
    );
}

#[test]
fn every_field_of_a_request_is_sent() {
    let mut req = request("P");
    req.stream = true;
    req.temperature = Some(number(0.5));
    req.max_tokens = Some(7);
    req.tools = Some(vec![
        InternalTool {
            name: "Read".to_string(),
            description: Some("Read file".to_string()),
            parameters: Some(json(r#"{"type":"object"}"#)),
        },
        InternalTool {
            name: "Bare".to_string(),
            description: None,
            parameters: None,
        },
    ]);
    req.tool_choice = Some(ToolChoice::Auto);
    req.response_format = Some(ResponseFormat::Text);
    req.top_p = Some(number(0.25));
    req.frequency_penalty = Some(number(1.5));
    req.presence_penalty = Some(number(-1.5));
    req.stop = Some(vec!["END".to_string()]);
    req.seed = Some(11);
    req.n = Some(1);
    req.stream_options = Some(StreamOptions {
        include_usage: false,
    });
    req.user = Some("u".to_string());
    let body = to_openai_request(&req, "m").to_json();
    assert_eq!(
        json_to_value(&body),
        value(
            r#"{"model":"m","messages":[],"stream":true,"temperature":0.5,"max_tokens":7,
                "tools":[{"type":"function","function":{"name":"Read","description":"Read file",
                    "parameters":{"type":"object"}}},
                    {"type":"function","function":{"name":"Bare"}}],
                "tool_choice":"auto","response_format":{"type":"text"},"top_p":0.25,
                "frequency_penalty":1.5,"presence_penalty":-1.5,"stop":["END"],"seed":11,"n":1,
                "stream_options":{"include_usage":false},"user":"u"}"#
        )
    );
}

#[test]
fn response_without_identifier_gets_one() {
    let empty = OpenAIResponse {
        id: None,
        model: None,
        choices: vec![],
        usage: None,
    };
    let internal = response_with_id(empty, "A", "fresh".to_string());
    assert_eq!(internal.id, "fresh");
    assert_eq!(internal.model, "");
    assert!(internal.content.is_empty());
    assert_eq!(internal.usage.prompt_tokens, None);
    let again = OpenAIResponse {
        id: None,
        model: None,
        choices: vec![],
        usage: None,
    };
    let random = from_openai_response(again, "A");
    assert_eq!(random.id.len(), 36);
    assert_eq!(random.id.matches('-').count(), 4);
}

#[test]
fn tool_calls_of_a_response_follow_its_text() {
    let resp = OpenAIResponse {
        id: Some("x".to_string()),
        model: None,
        choices: vec![OpenAIChoice {
            message: Some(OpenAIResponseMessage {
                content: Some(Json::Str("calling".to_string())),
                tool_calls: Some(vec![OpenAIToolCallResponse {
                    id: "call_1".to_string(),
                    function: OpenAIToolFunctionCallResponse {
                        name: "Read".to_string(),
                        arguments: "{}".to_string(),
                    },
                }]),
            }),
            finish_reason: Some("tool_calls".to_string()),
        }],
        usage: None,
    };
    let internal = from_openai_response(resp, "A");
    assert_eq!(internal.content.len(), 2);
    assert_eq!(internal.content[0], text_block("calling"));
    assert!(
        matches!(&internal.content[1], ContentBlock::ToolCall { id, function }
            if id == "call_1" && function.name == "Read" && function.arguments == "{}")
    );
}

#[test]
fn lines_with_tool_calls_and_without_choices() {
    let line = r#"data: {"id":"c","choices":[{"delta":{"content":"a","tool_calls":[{"id":"t","function":{"name":"Read","arguments":"{}"}}]},"finish_reason":"tool_calls"}]}"#;
    let chunks = parse_sse_line(line, "A").unwrap();
    assert!(
        matches!(&chunks[0].delta, Some(ContentBlock::ToolCall { id, function })
            if id == "t" && function.name == "Read" && function.arguments == "{}")
    );
    assert_eq!(chunks[0].finish_reason.as_deref(), Some("tool_calls"));
    assert_eq!(chunks[0].alias, "A");
    assert!(parse_sse_line("data: {\"id\":\"c\"}", "A").is_none());
    assert!(parse_sse_line("data: not json", "A").is_none());
    assert!(chunks_of_event(&json(r#"{"choices":[{"index":0}]}"#), "A").is_none());
    assert!(chunks_of_event(
        &json(r#"{"choices":[{"delta":{"tool_calls":[{"id":"t"}]}}]}"#),
        "A"
    )
    .is_none());
    assert!(chunks_of_event(&json(r#"{"choices":[]}"#), "A")
        .unwrap()
        .is_empty());
}

#[test]
fn error_without_type_or_code() {
    assert_eq!(
        parse_error_body(r#"{"error":{"message":"m"}}"#),
        Some(("".to_string(), "m".to_string()))
    );
    assert_eq!(parse_error_body(r#"{"error":"some weird response"}"#), None);
}

#[test]
fn replies_come_to_responses_and_errors() {
    assert_eq!(
        chat_outcome(ChatReply::NotSent("refused".to_string()), "A"),
        Err(GatewayError::BackendRequestFailed("refused".to_string()))
    );
    assert_eq!(
        chat_outcome(
            ChatReply::Refused {
                status: 401,
                body: None
            },
            "A"
        ),
        Err(GatewayError::BackendError {
            status: 401,
            body: "<unreadable>".to_string()
        })
    );
    assert_eq!(
        chat_outcome(ChatReply::Unreadable("bad".to_string()), "A"),
        Err(GatewayError::Internal(
            "Failed to parse backend response: bad".to_string()
        ))
    );
    let resp = OpenAIResponse {
        id: Some("i".to_string()),
        model: None,
        choices: vec![],
        usage: None,
    };
    assert_eq!(
        chat_outcome(ChatReply::Answered(resp), "A").unwrap().id,
        "i"
    );
    assert!(is_success(200) && is_success(299));
    assert!(!is_success(199) && !is_success(300));
}

#[test]
fn streams_open_only_as_event_streams() {
    let opened = |t: Option<&str>| {
        stream_outcome(StreamReply::Opened {
            content_type: t.map(|s| s.to_string()),
        })
    };
    assert_eq!(opened(Some("text/event-stream; charset=utf-8")), Ok(()));
    assert_eq!(
        opened(Some("application/json")),
        Err(GatewayError::Internal(
            "unexpected content-type: application/json".to_string()
        ))
    );
    assert_eq!(
        opened(None),
        Err(GatewayError::Internal(
            "unexpected content-type: unknown".to_string()
        ))
    );
    assert_eq!(
        stream_outcome(StreamReply::Refused {
            status: 429,
            body: Some("slow down".to_string())
        }),
        Err(GatewayError::BackendError {
            status: 429,
            body: "slow down".to_string()
        })
    );
    assert_eq!(
        stream_outcome(StreamReply::NotSent("no route".to_string())),
        Err(GatewayError::BackendRequestFailed("no route".to_string()))
    );
}

#[test]
fn adapter_addresses_an_openai_backend() {
    let adapter = adapter_for("openai");
    let p = provider("http://host/v1//", "anthropic");
    assert_eq!(adapter.url(&p), "http://host/v1/chat/completions");
    assert_eq!(
        adapter.headers(&p, true),
        vec![
            ("Authorization".to_string(), "Bearer secret".to_string()),
            ("Content-Type".to_string(), "application/json".to_string()),
        ]
    );
    let req = request("P");
    assert_eq!(
        json_to_value(&adapter.body(&req, "m", false)),
        value(r#"{"model":"m","messages":[]}"#)
    );
    assert_eq!(
        json_to_value(&adapter.body(&req, "m", true)),
        value(r#"{"model":"m","messages":[],"stream":true}"#)
    );
}
