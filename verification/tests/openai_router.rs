use mygate::config::{AliasConfig, AppConfig, ServerConfig};
use mygate::gateway::types::{
    ContentBlock, FunctionCall, InternalResponse, ResponseFormat, Role, ToolChoice, Usage,
};
use mygate::json::Json;
use mygate::json_codec::{json_to_value, parse_json};
use mygate::names::NameMap;
use mygate::router::openai::{
    internal_request, list_models, parse_openai_messages, parse_openai_response_format,
    parse_openai_tool_choice, reload_access, reload_failure, reload_refusal, reload_success,
    replace_model, to_openai_response, transform_model_in_chunk, OpenAIChatMessage,
    OpenAIChatRequest, OpenAIStreamOptions, OpenAIToolDef, OpenAIToolFnDef, ReloadAccess,
    StopField,
};

fn value(text: &str) -> serde_json::Value {
    serde_json::from_str(text).unwrap()
}

fn json(text: &str) -> Json {
    parse_json(text).unwrap()
}

fn message(role: &str, content: &str) -> OpenAIChatMessage {
    OpenAIChatMessage {
        role: role.to_string(),
        content: json(content),
        tool_call_id: None,
        tool_calls: None,
    }
}

fn request(messages: Vec<OpenAIChatMessage>) -> OpenAIChatRequest {
    OpenAIChatRequest {
        model: "T".to_string(),
        messages,
        stream: false,
        temperature: None,
        max_tokens: None,
        tools: None,
        tool_choice: None,
        response_format: None,
        top_p: None,
        frequency_penalty: None,
        presence_penalty: None,
        seed: None,
        n: None,
        stop: None,
        stream_options: None,
        user: None,
    }
}

#[test]
fn test_transform_model_basic() {
    let data = r#"{"id":"x","model":"glm-5.1","choices":[]}"#;
    let out = transform_model_in_chunk(data, "glm-5.1", "Plan").unwrap();
    let parsed: serde_json::Value = serde_json::from_str(&out).unwrap();
    assert_eq!(parsed["model"], "Plan");
}

#[test]
fn test_transform_model_does_not_touch_nested() {
    let data = r#"{"id":"x","model":"glm-5.1","choices":[{"message":{"reasoning":"based on glm-5.1"}}]}"#;
    let out = transform_model_in_chunk(data, "glm-5.1", "Plan").unwrap();
    let parsed: serde_json::Value = serde_json::from_str(&out).unwrap();
    assert_eq!(parsed["model"], "Plan");
    assert_eq!(
        parsed["choices"][0]["message"]["reasoning"],
        "based on glm-5.1"
    );
}

#[test]
fn test_transform_model_replaces_even_when_backend_normalizes() {
    let data = r#"{"id":"x","model":"deepseek-v4-flash","choices":[]}"#;
    let out = transform_model_in_chunk(data, "deepseek-chat", "Simple").unwrap();
    let parsed: serde_json::Value = serde_json::from_str(&out).unwrap();
    assert_eq!(parsed["model"], "Simple");
}

#[test]
fn test_transform_model_non_string_model() {
    let data = r#"{"model":123,"choices":[]}"#;
    let out = transform_model_in_chunk(data, "glm-5.1", "Plan").unwrap();
    let parsed: serde_json::Value = serde_json::from_str(&out).unwrap();
    assert_eq!(parsed["model"], 123);
}

#[test]
fn test_transform_model_invalid_json() {
    let data = "not json";
    assert_eq!(transform_model_in_chunk(data, "glm-5.1", "Plan"), None);
}

#[test]
fn test_transform_model_array_top_level() {
    let data = r#"[1,2,3]"#;
    assert_eq!(transform_model_in_chunk(data, "glm-5.1", "Plan"), None);
}

#[test]
fn test_transform_model_no_model_field() {
    let data = r#"{"id":"x","choices":[]}"#;
    assert_eq!(transform_model_in_chunk(data, "glm-5.1", "Plan"), None);
}

#[test]
fn second_pass_changes_nothing() {
    let nested = format!("{}1{}", "[".repeat(126), "]".repeat(126));
    for data in [
        r#"{"model":"a","temperature":0.5,"n":-3}"#.to_string(),
        r#"{"model":{"b":1.25e-3},"x":null}"#.to_string(),
        format!(r#"{{"model":"a","deep":{}}}"#, nested),
    ] {
        let once = transform_model_in_chunk(&data, "a", "T").unwrap();
        let mut expected = value(&data);
        if expected["model"].is_string() {
            expected["model"] = serde_json::Value::String("T".to_string());
        }
        assert_eq!(value(&once), expected);
        assert_eq!(transform_model_in_chunk(&once, "b", "T"), Some(once.clone()));
    }
}

#[test]
fn model_is_replaced_in_a_value() {
    let chunk = json(r#"{"model":"a","nested":{"model":"a"},"x":0.5}"#);
    let replaced = replace_model(chunk, "T").unwrap();
    assert_eq!(
        json_to_value(&replaced),
        value(r#"{"model":"T","nested":{"model":"a"},"x":0.5}"#)
    );
    assert_eq!(replace_model(json("1"), "T"), None);
}

#[test]
fn first_system_message_is_the_prompt() {
    let (system, ms) = parse_openai_messages(vec![
        message("system", "\"\""),
        message("system", "[]"),
        message("user", "\"hi\""),
        message("system", "\"first\""),
        message("system", "\"second\""),
    ]);
    assert_eq!(system.as_deref(), Some("first"));
    assert_eq!(ms.len(), 4);
    assert!(ms.iter().all(|m| m.role == Role::User));
    assert!(ms[0].content.is_empty());
    assert!(matches!(&ms[3].content[0], ContentBlock::Text { text } if text == "second"));
}

#[test]
fn every_kind_of_content_is_parsed() {
    let mut call = message("assistant", "\"text\"");
    call.tool_calls = Some(vec![
        json(r#"{"id":"c1","function":{"name":"Read","arguments":"{}"}}"#),
        json(r#"{"id":"c2"}"#),
        json(r#"{"function":{}}"#),
    ]);
    let mut result = message("tool", "{\"a\":1}");
    result.tool_call_id = Some("c1".to_string());
    let mut plain = message("tool", "\"ok\"");
    plain.tool_call_id = Some("c2".to_string());
    let items = message(
        "developer",
        r#"[{"type":"text","text":"t"},{"type":"text"},{"text":"x"},
            {"type":"image_url","image_url":{"url":"http://i"}},{"type":"image_url"},
            {"type":"audio"}]"#,
    );
    let (system, ms) =
        parse_openai_messages(vec![call, result, plain, items, message("user", "null")]);
    assert_eq!(system, None);
    assert_eq!(ms[0].role, Role::Assistant);
    assert_eq!(
        ms[0].content,
        vec![
            ContentBlock::ToolCall {
                id: "c1".to_string(),
                function: FunctionCall {
                    name: "Read".to_string(),
                    arguments: "{}".to_string()
                }
            },
            ContentBlock::ToolCall {
                id: "".to_string(),
                function: FunctionCall {
                    name: "".to_string(),
                    arguments: "".to_string()
                }
            },
            ContentBlock::Text {
                text: "text".to_string()
            },
        ]
    );
    assert_eq!(ms[1].role, Role::Tool);
    assert!(
        matches!(&ms[1].content[0], ContentBlock::ToolResult { tool_use_id, content }
            if tool_use_id == "c1" && content == "{\"a\":1}")
    );
    assert!(
        matches!(&ms[2].content[0], ContentBlock::ToolResult { content, .. } if content == "ok")
    );
    assert_eq!(ms[3].role, Role::User);
    assert_eq!(ms[3].content.len(), 2);
    assert!(
        matches!(&ms[3].content[1], ContentBlock::ImageUrl { image_url } if image_url.url == "http://i")
    );
    assert!(ms[4].content.is_empty());
}

#[test]
fn openai_tool_choices_are_parsed() {
    let parse = |text: &str| parse_openai_tool_choice(&json(text));
    assert_eq!(parse("\"auto\""), Some(ToolChoice::Auto));
    assert_eq!(parse("\"none\""), Some(ToolChoice::NoTool));
    assert_eq!(parse("\"required\""), Some(ToolChoice::Any));
    assert_eq!(parse("\"x\""), None);
    assert_eq!(
        parse(r#"{"type":"function","function":{"name":"Read"}}"#),
        Some(ToolChoice::Specific("Read".to_string()))
    );
    assert_eq!(parse(r#"{"type":"x","function":{"name":"Read"}}"#), None);
    assert_eq!(parse(r#"{"type":"function","function":{}}"#), None);
    assert_eq!(parse("1"), None);
}

#[test]
fn response_formats_are_parsed() {
    let parse = |text: &str| parse_openai_response_format(&json(text));
    assert_eq!(parse(r#"{"type":"text"}"#), Some(ResponseFormat::Text));
    assert_eq!(
        parse(r#"{"type":"json_object"}"#),
        Some(ResponseFormat::JsonObject)
    );
    assert_eq!(parse(r#"{"type":"json_schema"}"#), None);
    assert_eq!(parse("\"text\""), None);
}

#[test]
fn stop_fields_become_lists() {
    assert_eq!(
        StopField::Single("a".to_string()).into_vec(),
        vec!["a".to_string()]
    );
    let both = vec!["a".to_string(), "b".to_string()];
    assert_eq!(StopField::Array(both.clone()).into_vec(), both);
}

#[test]
fn chat_request_is_taken_over() {
    let mut req = request(vec![message("user", "\"hi\"")]);
    req.stop = Some(StopField::Single("END".to_string()));
    req.stream_options = Some(OpenAIStreamOptions {
        include_usage: None,
    });
    req.user = Some("u".to_string());
    req.seed = Some(3);
    req.n = Some(1);
    req.tool_choice = Some(json("\"required\""));
    req.response_format = Some(json(r#"{"type":"json_object"}"#));
    req.tools = Some(vec![OpenAIToolDef {
        kind: Some("function".to_string()),
        function: OpenAIToolFnDef {
            name: "Read".to_string(),
            description: None,
            parameters: Some(json("{}")),
        },
    }]);
    let internal = internal_request(req);
    assert_eq!(internal.model_alias, "T");
    assert_eq!(internal.stop, Some(vec!["END".to_string()]));
    assert!(!internal.stream_options.unwrap().include_usage);
    assert_eq!(internal.user.as_deref(), Some("u"));
    assert_eq!(internal.seed, Some(3));
    assert_eq!(internal.n, Some(1));
    assert_eq!(internal.tool_choice, Some(ToolChoice::Any));
    assert_eq!(internal.response_format, Some(ResponseFormat::JsonObject));
    assert_eq!(internal.tools.unwrap()[0].name, "Read");
    assert_eq!(internal.top_k, None);
    assert!(internal.metadata.is_none());
}

#[test]
fn answer_in_the_openai_form() {
    let internal = InternalResponse {
        id: "x".to_string(),
        model: "m".to_string(),
        alias: "T".to_string(),
        content: vec![
            ContentBlock::Text {
                text: "first".to_string(),
            },
            ContentBlock::Text {
                text: "last".to_string(),
            },
            ContentBlock::ToolCall {
                id: "call_1".to_string(),
                function: FunctionCall {
                    name: "Read".to_string(),
                    arguments: "{}".to_string(),
                },
            },
        ],
        usage: Usage {
            prompt_tokens: Some(1),
            completion_tokens: Some(2),
            total_tokens: None,
        },
        finish_reason: Some("tool_calls".to_string()),
    };
    let answer = to_openai_response(internal, 1720000000);
    assert_eq!(
        json_to_value(&answer.to_json()),
        value(
            r#"{"id":"x","object":"chat.completion","created":1720000000,"model":"T","choices":[
                {"index":0,"message":{"role":"assistant","content":"last","tool_calls":[
                    {"id":"call_1","type":"function","function":{"name":"Read","arguments":"{}"}}]},
                 "finish_reason":"tool_calls"}],
                "usage":{"prompt_tokens":1,"completion_tokens":2,"total_tokens":0}}"#
        )
    );
    let empty = InternalResponse {
        id: "x".to_string(),
        model: "m".to_string(),
        alias: "T".to_string(),
        content: vec![],
        usage: Usage::default(),
        finish_reason: None,
    };
    assert_eq!(
        json_to_value(&to_openai_response(empty, 0).choices[0].to_json()),
        value(
            r#"{"index":0,"message":{"role":"assistant","content":null},"finish_reason":null}"#
        )
    );
}

#[test]
fn models_are_the_aliases() {
    let mut aliases = NameMap::new();
    for name in ["Simple", "Plan"] {
        aliases.insert(
            name.to_string(),
            AliasConfig {
                description: None,
                chain: vec![],
            },
        );
    }
    let config = AppConfig {
        server: ServerConfig {
            host: "127.0.0.1".to_string(),
            port: 8080,
            timeout_seconds: 30,
            admin_token: None,
        },
        providers: NameMap::new(),
        aliases,
    };
    assert_eq!(
        json_to_value(&list_models(&config, 7).to_json()),
        value(
            r#"{"object":"list","data":[
                {"id":"Simple","object":"model","created":7,"owned_by":"mygate"},
                {"id":"Plan","object":"model","created":7,"owned_by":"mygate"}]}"#
        )
    );
}

#[test]
fn admin_endpoint_disabled_when_no_token() {
    assert_eq!(reload_access(&None, None), ReloadAccess::Disabled);
    assert_eq!(
        reload_access(&Some("".to_string()), Some("")),
        ReloadAccess::Disabled
    );
    assert_eq!(
        reload_refusal(ReloadAccess::Disabled),
        Some((404, "admin endpoint disabled".to_string()))
    );
}

#[test]
fn admin_endpoint_rejects_missing_header() {
    let access = reload_access(&Some("secret".to_string()), None);
    assert_eq!(access, ReloadAccess::Denied);
    assert_eq!(
        reload_refusal(access),
        Some((401, "missing or invalid X-Admin-Token".to_string()))
    );
}

#[test]
fn admin_endpoint_rejects_wrong_token() {
    let access = reload_access(&Some("secret".to_string()), Some("wrong"));
    assert_eq!(access, ReloadAccess::Denied);
}

#[test]
fn admin_endpoint_accepts_correct_token() {
    let access = reload_access(&Some("secret".to_string()), Some("secret"));
    assert_eq!(access, ReloadAccess::Granted);
    assert_eq!(reload_refusal(access), None);
    assert_eq!(
        json_to_value(&reload_success(2, 3)),
        value(r#"{"status":"ok","aliases":2,"providers":3}"#)
    );
    assert_eq!(
        reload_failure("no such file"),
        (500, "reload error: no such file".to_string())
    );
}
