use mygate::backend::anthropic_passthrough::{messages_outcome, MessagesReply};
use mygate::backend::openai_compat::{
    chat_outcome, stream_outcome, ChatReply, OpenAIChoice, OpenAIResponse, OpenAIResponseMessage,
    OpenAIToolCallResponse, OpenAIToolFunctionCallResponse, OpenAIUsage,
};
use mygate::backend::{adapter_for, BackendAdapter, StreamReply};
use mygate::config::{AliasConfig, AppConfig, ChainEntry, ProviderConfig, ServerConfig};
use mygate::gateway::fallback::{FallbackRun, Verdict};
use mygate::json::Json;
use mygate::json_codec::{json_to_value, parse_json};
use mygate::names::NameMap;
use mygate::router::anthropic::{
    to_anthropic_response, AnthropicMessage, AnthropicMessagesRequest, AnthropicToolDef,
};
use mygate::router::openai::{
    to_openai_response, OpenAIChatMessage, OpenAIChatRequest, OpenAIToolDef, OpenAIToolFnDef,
};

fn json(text: &str) -> Json {
    parse_json(text).unwrap()
}

fn openai_message(role: &str, content: &str) -> OpenAIChatMessage {
    OpenAIChatMessage {
        role: role.to_string(),
        content: Json::Str(content.to_string()),
        tool_call_id: None,
        tool_calls: None,
    }
}

fn chat_request(model: &str, messages: Vec<OpenAIChatMessage>) -> OpenAIChatRequest {
    OpenAIChatRequest {
        model: model.to_string(),
        messages,
        stream: false,
        temperature: None,
        max_tokens: None,
        tools: None,
        tool_choice: None,
        response_format: None,
        top_p: None,
        frequency_penalty: None,
        presence_penalty: None,
        seed: None,
        n: None,
        stop: None,
        stream_options: None,
        user: None,
    }
}

fn messages_request(model: &str, max_tokens: u64) -> AnthropicMessagesRequest {
    AnthropicMessagesRequest {
        model: model.to_string(),
        messages: vec![AnthropicMessage {
            role: "user".to_string(),
            content: Json::Str("hi".to_string()),
        }],
        stream: false,
        max_tokens: Some(max_tokens),
        temperature: None,
        system: None,
        tools: None,
        tool_choice: None,
        metadata: None,
        top_p: None,
        top_k: None,
        stop_sequences: None,
    }
}

fn provider(base_url: &str, api_key: &str, style: &str) -> ProviderConfig {
    ProviderConfig {
        base_url: base_url.to_string(),
        api_key: api_key.to_string(),
        provider_type: "anthropic".to_string(),
        auth_style: style.to_string(),
    }
}

fn completion(content: &str, calls: Option<Vec<OpenAIToolCallResponse>>, reason: &str) -> ChatReply {
    ChatReply::Answered(OpenAIResponse {
        id: Some("x".to_string()),
        model: Some("m".to_string()),
        choices: vec![OpenAIChoice {
            message: Some(OpenAIResponseMessage {
                content: Some(Json::Str(content.to_string())),
                tool_calls: calls,
            }),
            finish_reason: Some(reason.to_string()),
        }],
        usage: Some(OpenAIUsage {
            prompt_tokens: Some(1),
            completion_tokens: Some(1),
            total_tokens: Some(2),
        }),
    })
}

#[test]
fn openai_simple_text_e2e() {
    let internal = mygate::router::openai::internal_request(chat_request(
        "Test",
        vec![openai_message("user", "hi")],
    ));
    let adapter = adapter_for("openai");
    let sent = json_to_value(&adapter.body(&internal, "glm-4-flash", false));
    assert!(adapter
        .url(&provider("http://mock/v1", "test", "bearer"))
        .ends_with("/v1/chat/completions"));
    assert_eq!(sent["model"], "glm-4-flash");
    assert_eq!(sent["messages"][0]["role"], "user");
    assert_eq!(sent["messages"][0]["content"], "hi");

    let response = chat_outcome(completion("Hello from mock", None, "stop"), "Test").unwrap();
    let body = json_to_value(&to_openai_response(response, 1720000000).to_json());
    assert_eq!(body["model"], "Test");
    assert_eq!(body["choices"][0]["message"]["content"], "Hello from mock");
    assert_eq!(body["choices"][0]["finish_reason"], "stop");
}

#[test]
fn openai_tool_choice_specific_e2e() {
    let mut request = chat_request("T", vec![openai_message("user", "use Read")]);
    request.tools = Some(vec![OpenAIToolDef {
        kind: Some("function".to_string()),
        function: OpenAIToolFnDef {
            name: "Read".to_string(),
            description: None,
            parameters: None,
        },
    }]);
    request.tool_choice = Some(json(r#"{"type":"function","function":{"name":"Read"}}"#));
    let internal = mygate::router::openai::internal_request(request);
    let sent = json_to_value(&adapter_for("openai").body(&internal, "m", false));
    assert_eq!(sent["tool_choice"]["type"], "function");
    assert_eq!(sent["tool_choice"]["function"]["name"], "Read");

    let call = OpenAIToolCallResponse {
        id: "call_1".to_string(),
        function: OpenAIToolFunctionCallResponse {
            name: "Read".to_string(),
            arguments: "{}".to_string(),
        },
    };
    let reply = completion("calling Read", Some(vec![call]), "tool_calls");
    let response = chat_outcome(reply, "T").unwrap();
    let body = json_to_value(&to_openai_response(response, 1).to_json());
    assert_eq!(
        body["choices"][0]["message"]["tool_calls"][0]["function"]["name"],
        "Read"
    );
}

#[test]
fn streaming_4xx_error_returned_as_error() {
    let mut config = AppConfig {
        server: ServerConfig {
            host: "127.0.0.1".to_string(),
            port: 8080,
            timeout_seconds: 30,
            admin_token: Some(String::new()),
        },
        providers: NameMap::new(),
        aliases: NameMap::new(),
    };
    config
        .providers
        .insert("mock".to_string(), provider("http://mock/v1", "test", "bearer"));
    config.aliases.insert(
        "T".to_string(),
        AliasConfig {
            description: None,
            chain: vec![ChainEntry {
                provider: "mock".to_string(),
                model: "m".to_string(),
                priority: 1,
            }],
        },
    );
    let mut run = FallbackRun::start(&config, "T", true).unwrap();
    assert!(run.next_attempt().is_ok());
    let error = match run.record(stream_outcome(StreamReply::Refused {
        status: 401,
        body: Some(r#"{"error":{"code":"401","message":"invalid api key"}}"#.to_string()),
    })) {
        Verdict::Failed(error) => error,
        other => panic!("{:?}", other),
    };
    assert_eq!(error.status_code(), 502);
    assert_eq!(
        json_to_value(&error.to_json())["error"]["type"],
        "gateway_error"
    );
    assert!(error.message().contains("invalid api key"));
}

#[test]
fn streaming_wrong_content_type_rejected() {
    let error = stream_outcome(StreamReply::Opened {
        content_type: Some("application/json".to_string()),
    })
    .unwrap_err();
    assert_eq!(error.status_code(), 500);
    assert!(error.message().contains("unexpected content-type"));
    let opened = StreamReply::Opened {
        content_type: Some("text/event-stream; charset=utf-8".to_string()),
    };
    assert!(stream_outcome(opened).is_ok());
}

#[test]
fn anthropic_simple_text_e2e() {
    let internal = mygate::router::anthropic::internal_request(messages_request("Plan", 1024));
    let adapter = adapter_for("anthropic");
    let provider = provider("http://mock", "sk-ant-test", "anthropic");
    assert!(adapter.url(&provider).ends_with("/v1/messages"));
    let sent = json_to_value(&adapter.body(&internal, "sonnet-4-5", false));
    assert_eq!(sent["model"], "sonnet-4-5");
    assert_eq!(sent["max_tokens"], 1024);
    assert_eq!(sent["messages"][0]["role"], "user");
    let headers = adapter.headers(&provider, false);
    assert!(headers.contains(&("x-api-key".to_string(), "sk-ant-test".to_string())));
    assert!(headers.contains(&("anthropic-version".to_string(), "2023-06-01".to_string())));

    let reply = MessagesReply::Answered {
        status: 200,
        status_line: "200 OK".to_string(),
        body: json(
            r#"{"id":"msg_test","type":"message","role":"assistant","model":"sonnet-4-5",
                "content":[{"type":"text","text":"Hello from Anthropic mock"}],
                "stop_reason":"end_turn","stop_sequence":null,"container":null,
                "usage":{"input_tokens":10,"output_tokens":5}}"#,
        ),
    };
    let response = messages_outcome(reply, "sonnet-4-5", "Plan").unwrap();
    let body = json_to_value(&to_anthropic_response(response).to_json());
    assert_eq!(body["model"], "Plan");
    assert_eq!(body["content"][0]["type"], "text");
    assert_eq!(body["content"][0]["text"], "Hello from Anthropic mock");
    assert_eq!(body["stop_reason"], "end_turn");
    assert_eq!(body["stop_sequence"], serde_json::Value::Null);
    assert_eq!(body["usage"]["input_tokens"], 10);
    assert_eq!(body["usage"]["output_tokens"], 5);
}

#[test]
fn north_openai_south_anthropic_dispatch() {
    let req = OpenAIChatRequest {
        model: "T".to_string(),
        messages: vec![
            openai_message("system", "你简洁。"),
            openai_message("user", "hi"),
        ],
        stream: false,
        temperature: None,
        max_tokens: None,
        tools: Some(vec![OpenAIToolDef {
            kind: Some("function".to_string()),
            function: OpenAIToolFnDef {
                name: "get_weather".to_string(),
                description: None,
                parameters: Some(json(r#"{"type":"object"}"#)),
            },
        }]),
        tool_choice: Some(json("\"auto\"")),
        response_format: None,
        top_p: None,
        frequency_penalty: None,
        presence_penalty: None,
        seed: None,
        n: None,
        stop: None,
        stream_options: None,
        user: None,
    };
    let internal = mygate::router::openai::internal_request(req);
    let body = json_to_value(&adapter_for("anthropic").body(&internal, "m", false));
    assert_eq!(body["system"], "你简洁。");
    assert_eq!(body["tool_choice"]["type"], "auto");
    for m in body["messages"].as_array().unwrap() {
        assert_ne!(m["role"], "system");
    }
    let reply = MessagesReply::Answered {
        status: 200,
        status_line: "200 OK".to_string(),
        body: json(
            r#"{"id":"msg_x","type":"message","role":"assistant","model":"test",
                "content":[{"type":"text","text":"Hi"}],"stop_reason":"end_turn",
                "stop_sequence":null,"container":null,
                "usage":{"input_tokens":5,"output_tokens":2}}"#,
        ),
    };
    let response = messages_outcome(reply, "m", "T").unwrap();
    let answer = json_to_value(&to_openai_response(response, 1).to_json());
    assert_eq!(answer["model"], "T");
    assert_eq!(answer["choices"][0]["message"]["content"], "Hi");
}

#[test]
fn north_anthropic_south_openai_dispatch() {
    let req = AnthropicMessagesRequest {
        model: "T".to_string(),
        messages: vec![AnthropicMessage {
            role: "user".to_string(),
            content: Json::Str("北京天气？".to_string()),
        }],
        stream: false,
        max_tokens: Some(100),
        temperature: None,
        system: Some(Json::Str("你简洁。".to_string())),
        tools: Some(vec![AnthropicToolDef {
            name: "get_weather".to_string(),
            description: Some("查天气".to_string()),
            input_schema: Some(json(
                r#"{"type":"object","properties":{"city":{"type":"string"}},"required":["city"]}"#,
            )),
        }]),
        tool_choice: None,
        metadata: None,
        top_p: None,
        top_k: None,
        stop_sequences: None,
    };
    let internal = mygate::router::anthropic::internal_request(req);
    let body = json_to_value(&adapter_for("openai").body(&internal, "m", false));
    assert_eq!(body["messages"][0]["role"], "system");
    assert_eq!(body["messages"][0]["content"], "你简洁。");
    assert_eq!(body["tools"][0]["function"]["name"], "get_weather");
    assert!(body["tools"][0]["function"]["parameters"].is_object());
    let reply = ChatReply::Answered(OpenAIResponse {
        id: Some("x".to_string()),
        model: Some("gpt-test".to_string()),
        choices: vec![OpenAIChoice {
            message: Some(OpenAIResponseMessage {
                content: None,
                tool_calls: Some(vec![OpenAIToolCallResponse {
                    id: "call_1".to_string(),
                    function: OpenAIToolFunctionCallResponse {
                        name: "get_weather".to_string(),
                        arguments: "{\"city\":\"北京\"}".to_string(),
                    },
                }]),
            }),
            finish_reason: Some("tool_calls".to_string()),
        }],
        usage: Some(OpenAIUsage {
            prompt_tokens: Some(5),
            completion_tokens: Some(3),
            total_tokens: Some(8),
        }),
    });
    let response = chat_outcome(reply, "T").unwrap();
    let answer = json_to_value(&to_anthropic_response(response).to_json());
    assert_eq!(answer["type"], "message");
    assert_eq!(answer["role"], "assistant");
    assert_eq!(answer["model"], "T");
    assert_eq!(answer["stop_reason"], "tool_use");
    let content = answer["content"].as_array().unwrap();
    let tool_use = content.iter().find(|b| b["type"] == "tool_use").unwrap();
    assert_eq!(tool_use["name"], "get_weather");
    assert_eq!(tool_use["input"]["city"], "北京");
}

#[test]
fn anthropic_tool_use_e2e() {
    let reply = MessagesReply::Answered {
        status: 200,
        status_line: "200 OK".to_string(),
        body: json(
            r#"{"id":"msg_tool","type":"message","role":"assistant","content":[
                {"type":"text","text":"I'll read the file"},
                {"type":"tool_use","id":"toolu_01A","name":"Read","input":{"file_path":"main.rs"}}],
                "stop_reason":"tool_use","usage":{"input_tokens":20,"output_tokens":25}}"#,
        ),
    };
    let response = messages_outcome(reply, "m", "Plan").unwrap();
    let body = json_to_value(&to_anthropic_response(response).to_json());
    assert_eq!(body["content"].as_array().unwrap().len(), 2);
    assert_eq!(body["content"][0]["type"], "text");
    assert_eq!(body["content"][1]["type"], "tool_use");
    assert_eq!(body["content"][1]["id"], "toolu_01A");
    assert_eq!(body["content"][1]["name"], "Read");
    assert_eq!(body["content"][1]["input"]["file_path"], "main.rs");
    assert_eq!(body["stop_reason"], "tool_use");
    assert_eq!(body["usage"]["input_tokens"], 20);
}

#[test]
fn tool_choices_mean_the_same_in_both_protocols() {
    let pairs = [
        (r#""auto""#, r#"{"type":"auto"}"#),
        (r#""none""#, r#"{"type":"none"}"#),
        (r#""required""#, r#"{"type":"any"}"#),
        (
            r#"{"type":"function","function":{"name":"Read"}}"#,
            r#"{"type":"tool","name":"Read"}"#,
        ),
    ];
    for (openai, anthropic) in pairs {
        let mut request = chat_request("T", vec![]);
        request.tool_choice = Some(json(openai));
        let internal = mygate::router::openai::internal_request(request);
        for (kind, expected) in [("openai", openai), ("anthropic", anthropic)] {
            let sent = json_to_value(&adapter_for(kind).body(&internal, "m", false));
            assert_eq!(sent["tool_choice"], json_to_value(&json(expected)));
        }
        let mut request = messages_request("T", 1);
        request.tool_choice = Some(json(anthropic));
        let internal = mygate::router::anthropic::internal_request(request);
        for (kind, expected) in [("openai", openai), ("anthropic", anthropic)] {
            let sent = json_to_value(&adapter_for(kind).body(&internal, "m", false));
            assert_eq!(sent["tool_choice"], json_to_value(&json(expected)));
        }
    }
}

#[test]
fn response_formats_are_passed_on() {
    for format in [r#"{"type":"text"}"#, r#"{"type":"json_object"}"#] {
        let mut request = chat_request("T", vec![]);
        request.response_format = Some(json(format));
        let internal = mygate::router::openai::internal_request(request);
        let sent = json_to_value(&adapter_for("openai").body(&internal, "m", false));
        assert_eq!(sent["response_format"], json_to_value(&json(format)));
    }
    let mut request = chat_request("T", vec![]);
    request.response_format = Some(json(r#"{"type":"json_schema"}"#));
    let internal = mygate::router::openai::internal_request(request);
    let sent = json_to_value(&adapter_for("openai").body(&internal, "m", false));
    assert!(sent.get("response_format").is_none());
}

#[test]
fn later_system_messages_reach_an_anthropic_backend() {
    let request = chat_request(
        "T",
        vec![
            openai_message("system", "first"),
            openai_message("system", "second"),
            openai_message("user", "hi"),
        ],
    );
    let internal = mygate::router::openai::internal_request(request);
    let sent = json_to_value(&adapter_for("anthropic").body(&internal, "m", false));
    assert_eq!(sent["system"], "first");
    assert_eq!(sent["messages"][0]["role"], "user");
    assert_eq!(sent["messages"][0]["content"][0]["text"], "second");
    assert_eq!(sent["messages"][1]["content"][0]["text"], "hi");
}
