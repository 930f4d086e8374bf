use mygate::backend::anthropic_passthrough::{
    build_anthropic_body, from_anthropic_response, messages_outcome, stream_outcome,
    tool_input_value, MessagesReply,
};
use mygate::backend::{adapter_for, BackendAdapter, StreamReply};
use mygate::config::ProviderConfig;
use mygate::error::GatewayError;
use mygate::gateway::types::{
    ContentBlock, FunctionCall, ImageUrlContent, InternalMessage, InternalRequest, InternalTool,
    Role, ToolChoice,
};
use mygate::json::{Json, JsonNumber};
use mygate::json_codec::{json_to_value, parse_json};

fn value(text: &str) -> serde_json::Value {
    serde_json::from_str(text).unwrap()
}

fn json(text: &str) -> Json {
    parse_json(text).unwrap()
}

fn number(x: f64) -> JsonNumber {
    JsonNumber {
        value: serde_json::Number::from_f64(x).unwrap(),
    }
}

fn text_block(text: &str) -> ContentBlock {
    ContentBlock::Text {
        text: text.to_string(),
    }
}

fn request(alias: &str) -> InternalRequest {
    InternalRequest {
        model_alias: alias.to_string(),
        system: None,
        messages: vec![],
        stream: false,
        temperature: None,
        max_tokens: None,
        tools: None,
        tool_choice: None,
        response_format: None,
        top_p: None,
        top_k: None,
        frequency_penalty: None,
        presence_penalty: None,
        stop: None,
        seed: None,
        n: None,
        stream_options: None,
        user: None,
        metadata: None,
    }
}

fn req_with_system_and_tool() -> InternalRequest {
    let mut req = request("Plan");
    req.system = Some("You are helpful".to_string());
    req.messages = vec![InternalMessage {
        role: Role::User,
        content: vec![text_block("hi")],
    }];
    req.temperature = Some(number(0.5));
    req.max_tokens = Some(1024);
    req.tools = Some(vec![InternalTool {
        name: "Read".to_string(),
        description: Some("Read file".to_string()),
        parameters: Some(json(r#"{"type": "object"}"#)),
    }]);
    req.tool_choice = Some(ToolChoice::Specific("Read".to_string()));
    req
}

#[test]
fn test_build_anthropic_body_has_all_fields() {
    let body = json_to_value(&build_anthropic_body(
        &req_with_system_and_tool(),
        "sonnet-4-5",
    ));
    assert_eq!(body["model"], "sonnet-4-5");
    assert_eq!(body["max_tokens"], 1024);
    assert_eq!(body["temperature"], 0.5);
    assert_eq!(body["system"], "You are helpful");
    assert!(body["messages"].is_array());
    assert_eq!(body["messages"][0]["role"], "user");
    assert!(body["tools"].is_array());
    assert_eq!(body["tools"][0]["name"], "Read");
    assert_eq!(body["tool_choice"]["type"], "tool");
    assert_eq!(body["tool_choice"]["name"], "Read");
}

#[test]
fn test_build_anthropic_body_minimal() {
    let mut req = request("P");
    req.max_tokens = Some(100);
    let body = json_to_value(&build_anthropic_body(&req, "m"));
    assert_eq!(body["model"], "m");
    assert_eq!(body["max_tokens"], 100);
    assert!(body.get("system").is_none());
    assert!(body.get("tools").is_none());
    assert!(body.get("tool_choice").is_none());
}

#[test]
fn body_of_every_kind_of_block() {
    let mut req = request("P");
    req.messages = vec![
        InternalMessage {
            role: Role::System,
            content: vec![text_block("left out")],
        },
        InternalMessage {
            role: Role::Assistant,
            content: vec![
                ContentBlock::ToolCall {
                    id: "t1".to_string(),
                    function: FunctionCall {
                        name: "Read".to_string(),
                        arguments: r#"{"file_path":"a"}"#.to_string(),
                    },
                },
                ContentBlock::ToolCall {
                    id: "t2".to_string(),
                    function: FunctionCall {
                        name: "Read".to_string(),
                        arguments: "no json".to_string(),
                    },
                },
            ],
        },
        InternalMessage {
            role: Role::Tool,
            content: vec![
                ContentBlock::ToolResult {
                    tool_use_id: "t1".to_string(),
                    content: "done".to_string(),
                },
                ContentBlock::ImageUrl {
                    image_url: ImageUrlContent {
                        url: "u".to_string(),
                        detail: None,
                    },
                },
            ],
        },
    ];
    req.top_p = Some(number(0.5));
    req.top_k = Some(40);
    req.stop = Some(vec!["END".to_string()]);
    req.tools = Some(vec![InternalTool {
        name: "Bare".to_string(),
        description: None,
        parameters: None,
    }]);
    req.tool_choice = Some(ToolChoice::Any);
    assert_eq!(
        json_to_value(&build_anthropic_body(&req, "m")),
        value(
            r#"{"model":"m","max_tokens":4096,"messages":[
                {"role":"assistant","content":[
                    {"type":"tool_use","id":"t1","name":"Read","input":{"file_path":"a"}},
                    {"type":"tool_use","id":"t2","name":"Read","input":null}]},
                {"role":"user","content":[
                    {"type":"tool_result","tool_use_id":"t1","content":"done"},
                    {"type":"text","text":"[unsupported]"}]}],
                "top_p":0.5,"top_k":40,"stop_sequences":["END"],
                "tools":[{"name":"Bare","description":null,"input_schema":null}],
                "tool_choice":{"type":"any"}}"#
        )
    );
    req.tool_choice = Some(ToolChoice::Auto);
    let auto = json_to_value(&build_anthropic_body(&req, "m"));
    assert_eq!(auto["tool_choice"], value(r#"{"type":"auto"}"#));
    req.tool_choice = Some(ToolChoice::NoTool);
    let none = json_to_value(&build_anthropic_body(&req, "m"));
    assert_eq!(none["tool_choice"], value(r#"{"type":"none"}"#));
}

#[test]
fn empty_prompt_and_stop_are_left_out() {
    let mut req = request("P");
    req.system = Some("".to_string());
    req.stop = Some(vec![]);
    let body = build_anthropic_body(&req, "m");
    assert!(body.get("system").is_none());
    assert!(body.get("stop_sequences").is_none());
    assert_eq!(tool_input_value(None), Json::Null);
}

#[test]
fn adapter_addresses_an_anthropic_backend() {
    let adapter = adapter_for("anthropic");
    let mut p = ProviderConfig {
        base_url: "https://api.anthropic.com/".to_string(),
        api_key: "sk-ant-test".to_string(),
        provider_type: "anthropic".to_string(),
        auth_style: "anthropic".to_string(),
    };
    assert_eq!(adapter.url(&p), "https://api.anthropic.com/v1/messages");
    assert_eq!(
        adapter.headers(&p, false),
        vec![
            ("Content-Type".to_string(), "application/json".to_string()),
            ("x-api-key".to_string(), "sk-ant-test".to_string()),
            ("anthropic-version".to_string(), "2023-06-01".to_string()),
        ]
    );
    p.auth_style = "bearer".to_string();
    assert_eq!(
        adapter.headers(&p, true),
        vec![
            ("Content-Type".to_string(), "application/json".to_string()),
            ("Accept".to_string(), "text/event-stream".to_string()),
            ("Authorization".to_string(), "Bearer sk-ant-test".to_string()),
        ]
    );
    let body = json_to_value(&adapter.body(&request("P"), "m", true));
    assert_eq!(body["stream"], true);
    assert!(adapter.body(&request("P"), "m", false).get("stream").is_none());
}

#[test]
fn answers_are_read() {
    let body = json(
        r#"{"id":"msg_tool","type":"message","content":[
            {"type":"text","text":"I'll read the file"},
            {"type":"tool_use","id":"toolu_01A","name":"Read","input":{"file_path":"main.rs"}},
            {"type":"thinking","thinking":"hm"}],
            "stop_reason":"end_turn","usage":{"input_tokens":20,"output_tokens":25}}"#,
    );
    let r = from_anthropic_response(&body, "sonnet", "Plan");
    assert_eq!(r.id, "msg_tool");
    assert_eq!(r.model, "sonnet");
    assert_eq!(r.alias, "Plan");
    assert_eq!(r.content[0], text_block("I'll read the file"));
    assert!(
        matches!(&r.content[1], ContentBlock::ToolCall { id, function }
            if id == "toolu_01A" && function.arguments == r#"{"file_path":"main.rs"}"#)
    );
    assert_eq!(r.content[2], text_block(""));
    assert_eq!(r.finish_reason.as_deref(), Some("tool_use"));
    assert_eq!(r.usage.prompt_tokens, Some(20));
    assert_eq!(r.usage.completion_tokens, Some(25));
    assert_eq!(r.usage.total_tokens, None);
    let bare = from_anthropic_response(&json(r#"{"stop_reason":"max_tokens"}"#), "m", "A");
    assert_eq!(bare.id, "?");
    assert!(bare.content.is_empty());
    assert_eq!(bare.finish_reason.as_deref(), Some("max_tokens"));
    assert_eq!(bare.usage.prompt_tokens, None);
}

#[test]
fn anthropic_replies_come_to_responses_and_errors() {
    let bad = |body: &str| {
        Err(GatewayError::BackendError {
            status: 502,
            body: body.to_string(),
        })
    };
    assert_eq!(
        messages_outcome(MessagesReply::NotSent("x".to_string()), "m", "A"),
        bad("request failed: x")
    );
    assert_eq!(
        messages_outcome(MessagesReply::NotJson("x".to_string()), "m", "A"),
        bad("parse: x")
    );
    assert_eq!(
        messages_outcome(
            MessagesReply::Answered {
                status: 401,
                status_line: "401 Unauthorized".to_string(),
                body: json(r#"{"error": 1}"#)
            },
            "m",
            "A"
        ),
        bad(r#"401 Unauthorized: {"error":1}"#)
    );
    let ok = messages_outcome(
        MessagesReply::Answered {
            status: 200,
            status_line: "200 OK".to_string(),
            body: json(r#"{"id":"i"}"#),
        },
        "m",
        "A",
    );
    assert_eq!(ok.unwrap().id, "i");
    assert_eq!(
        stream_outcome(StreamReply::NotSent("x".to_string())),
        Err(GatewayError::BackendError {
            status: 502,
            body: "request failed: x".to_string()
        })
    );
    assert_eq!(
        stream_outcome(StreamReply::Refused {
            status: 529,
            body: None
        }),
        Err(GatewayError::BackendError {
            status: 529,
            body: "<unreadable>".to_string()
        })
    );
    assert_eq!(
        stream_outcome(StreamReply::Opened { content_type: None }),
        Ok(())
    );
}
