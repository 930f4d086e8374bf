use mygate::gateway::types::{
    ContentBlock, DocumentSource, FunctionCall, InternalResponse, Role, ToolChoice, Usage,
};
use mygate::json::Json;
use mygate::json_codec::{json_to_value, parse_json};
use mygate::names::NameMap;
use mygate::router::anthropic::{
    internal_request, map_stop_reason, parse_anthropic_messages, parse_anthropic_tool_choice,
    to_anthropic_response, tool_use_input, AnthropicMessage, AnthropicMessagesRequest,
    AnthropicToolDef,
};

fn value(text: &str) -> serde_json::Value {
    serde_json::from_str(text).unwrap()
}

fn json(text: &str) -> Json {
    parse_json(text).unwrap()
}

fn message(role: &str, content: &str) -> AnthropicMessage {
    AnthropicMessage {
        role: role.to_string(),
        content: json(content),
    }
}

fn request(system: Option<&str>, messages: Vec<AnthropicMessage>) -> AnthropicMessagesRequest {
    AnthropicMessagesRequest {
        model: "Plan".to_string(),
        max_tokens: Some(100),
        messages,
        system: system.map(json),
        stream: false,
        temperature: None,
        tools: None,
        tool_choice: None,
        top_p: None,
        top_k: None,
        stop_sequences: None,
        metadata: None,
    }
}

fn response(content: Vec<ContentBlock>, finish_reason: Option<&str>) -> InternalResponse {
    InternalResponse {
        id: "msg_1".to_string(),
        model: "glm".to_string(),
        alias: "Plan".to_string(),
        content,
        usage: Usage {
            prompt_tokens: Some(10),
            completion_tokens: None,
            total_tokens: None,
        },
        finish_reason: finish_reason.map(|s| s.to_string()),
    }
}

#[test]
fn parse_anthropic_messages_extracts_system_to_top_level() {
    let req = request(
        Some("\"You are helpful\""),
        vec![message("user", "\"hi\"")],
    );
    let (system, messages) = parse_anthropic_messages(&req);
    assert_eq!(system, Some("You are helpful".to_string()));
    assert_eq!(messages.len(), 1);
    assert!(matches!(messages[0].role, Role::User));
    assert!(!messages.iter().any(|m| matches!(m.role, Role::System)));
}

#[test]
fn parse_anthropic_messages_system_array_concatenates() {
    let req = request(
        Some(r#"[{"type": "text", "text": "Part 1"}, {"type": "text", "text": "Part 2"}]"#),
        vec![message("user", "\"hi\"")],
    );
    let (system, messages) = parse_anthropic_messages(&req);
    assert_eq!(system, Some("Part 1\nPart 2".to_string()));
    assert!(!messages.iter().any(|m| matches!(m.role, Role::System)));
}

#[test]
fn parse_anthropic_messages_no_system_returns_none() {
    let req = request(None, vec![message("user", "\"hi\"")]);
    let (system, messages) = parse_anthropic_messages(&req);
    assert_eq!(system, None);
    assert_eq!(messages.len(), 1);
    assert!(matches!(messages[0].role, Role::User));
}

#[test]
fn parse_anthropic_system_array_with_cache_control_drops_cache() {
    let req = request(
        Some(
            r#"[{"type": "text", "text": "Part 1", "cache_control": {"type": "ephemeral"}},
                {"type": "text", "text": "Part 2"}]"#,
        ),
        vec![message("user", "\"hi\"")],
    );
    let (system, _) = parse_anthropic_messages(&req);
    assert_eq!(system, Some("Part 1\nPart 2".to_string()));
}

#[test]
fn other_systems() {
    let empty = request(Some("\"\""), vec![]);
    assert_eq!(parse_anthropic_messages(&empty).0, None);
    let none = request(Some(r#"[{"type":"image"}]"#), vec![]);
    assert_eq!(parse_anthropic_messages(&none).0, None);
    let other = request(Some("42"), vec![]);
    assert_eq!(parse_anthropic_messages(&other).0, Some("42".to_string()));
}

#[test]
fn every_kind_of_block_is_parsed() {
    let req = request(
        None,
        vec![
            message(
                "assistant",
                r#"[{"type":"text","text":"a"},{"text":"typeless"},{"type":"text"},
                    {"type":"tool_use","id":"t1","name":"Read","input":{"b":1,"a":[true,null]}},
                    {"type":"tool_use"},{"type":"mystery"}]"#,
            ),
            message(
                "developer",
                r#"[{"type":"image","source":{"type":"base64","media_type":"image/jpeg","data":"AA"}},
                    {"type":"image","source":{"data":"BB"}},
                    {"type":"image","source":{"url":"http://u"}},{"type":"image"},
                    {"type":"tool_result","tool_use_id":"t1","content":"plain"},
                    {"type":"tool_result","tool_use_id":"t2","content":[{"type":"text"}]},
                    {"type":"tool_result"}]"#,
            ),
            message(
                "user",
                r#"[{"type":"document","source":{"type":"base64","data":"AA"}},
                    {"type":"document","source":{"type":"text","data":"t"}},
                    {"type":"document","source":{"type":"url","url":"http://d"}},
                    {"type":"document","source":{"type":"url"}},
                    {"type":"document","source":{"type":"x"}},{"type":"document"}]"#,
            ),
            message("user", "42"),
        ],
    );
    let (_, ms) = parse_anthropic_messages(&req);
    assert_eq!(ms[0].role, Role::Assistant);
    assert_eq!(ms[0].content.len(), 4);
    assert!(matches!(&ms[0].content[1], ContentBlock::Text { text } if text == "typeless"));
    assert!(
        matches!(&ms[0].content[2], ContentBlock::ToolCall { id, function }
            if id == "t1" && function.name == "Read"
                && function.arguments == r#"{"a":[true,null],"b":1}"#)
    );
    assert!(
        matches!(&ms[0].content[3], ContentBlock::ToolCall { id, function }
            if id.is_empty() && function.name.is_empty() && function.arguments == "{}")
    );
    assert_eq!(ms[1].role, Role::User);
    let urls: Vec<&str> = ms[1]
        .content
        .iter()
        .filter_map(|b| match b {
            ContentBlock::ImageUrl { image_url } => Some(image_url.url.as_str()),
            _ => None,
        })
        .collect();
    assert_eq!(
        urls,
        vec![
            "data:image/jpeg;base64,AA",
            "data:image/png;base64,BB",
            "http://u"
        ]
    );
    let results: Vec<(&str, &str)> = ms[1]
        .content
        .iter()
        .filter_map(|b| match b {
            ContentBlock::ToolResult {
                tool_use_id,
                content,
            } => Some((tool_use_id.as_str(), content.as_str())),
            _ => None,
        })
        .collect();
    assert_eq!(
        results,
        vec![("t1", "plain"), ("t2", r#"[{"type":"text"}]"#), ("", "")]
    );
    let document = |source: DocumentSource| ContentBlock::Document { source };
    assert_eq!(
        ms[2].content,
        vec![
            document(DocumentSource::Base64 {
                media_type: "application/pdf".to_string(),
                data: "AA".to_string()
            }),
            document(DocumentSource::Text {
                media_type: "text/plain".to_string(),
                data: "t".to_string()
            }),
            document(DocumentSource::Url {
                url: "http://d".to_string()
            }),
        ]
    );
    assert!(matches!(&ms[3].content[0], ContentBlock::Text { text } if text == "42"));
}

#[test]
fn tool_choices_are_parsed() {
    let parse = |text: &str| parse_anthropic_tool_choice(&json(text));
    assert_eq!(parse(r#"{"type":"auto"}"#), Some(ToolChoice::Auto));
    assert_eq!(parse(r#"{"type":"none"}"#), Some(ToolChoice::NoTool));
    assert_eq!(parse(r#"{"type":"any"}"#), Some(ToolChoice::Any));
    assert_eq!(
        parse(r#"{"type":"tool","name":"Read"}"#),
        Some(ToolChoice::Specific("Read".to_string()))
    );
    assert_eq!(parse(r#"{"type":"tool"}"#), None);
    assert_eq!(parse(r#"{"type":"x"}"#), None);
    assert_eq!(parse("\"auto\""), None);
}

#[test]
fn request_is_taken_over() {
    let mut req = request(Some("\"s\""), vec![message("user", "\"hi\"")]);
    req.stream = true;
    req.top_k = Some(5);
    req.stop_sequences = Some(vec!["X".to_string()]);
    req.tool_choice = Some(json(r#"{"type":"any"}"#));
    req.tools = Some(vec![AnthropicToolDef {
        name: "Read".to_string(),
        description: Some("d".to_string()),
        input_schema: Some(json(r#"{"type":"object"}"#)),
    }]);
    let mut metadata = NameMap::new();
    metadata.insert("user_id".to_string(), "u1".to_string());
    req.metadata = Some(metadata);
    let internal = internal_request(req);
    assert_eq!(internal.model_alias, "Plan");
    assert_eq!(internal.system.as_deref(), Some("s"));
    assert!(internal.stream);
    assert_eq!(internal.max_tokens, Some(100));
    assert_eq!(internal.top_k, Some(5));
    assert_eq!(internal.stop, Some(vec!["X".to_string()]));
    assert_eq!(internal.tool_choice, Some(ToolChoice::Any));
    let tools = internal.tools.unwrap();
    assert_eq!(tools[0].name, "Read");
    assert_eq!(tools[0].description.as_deref(), Some("d"));
    assert!(tools[0].parameters.is_some());
    assert_eq!(
        internal.metadata.unwrap().get("user_id"),
        Some(&"u1".to_string())
    );
    assert!(internal.response_format.is_none());
    assert!(internal.user.is_none());
}

#[test]
fn answer_in_the_anthropic_form() {
    let r = to_anthropic_response(response(
        vec![
            ContentBlock::Text {
                text: "Hello!".to_string(),
            },
            ContentBlock::ToolCall {
                id: "call_abc".to_string(),
                function: FunctionCall {
                    name: "Read".to_string(),
                    arguments: r#"{"file_path":"main.rs"}"#.to_string(),
                },
            },
            ContentBlock::ToolResult {
                tool_use_id: "x".to_string(),
                content: "y".to_string(),
            },
        ],
        Some("stop"),
    ));
    assert_eq!(
        json_to_value(&r.to_json()),
        value(
            r#"{"id":"msg_1","type":"message","role":"assistant","model":"Plan","content":[
                {"type":"text","text":"Hello!"},
                {"type":"tool_use","id":"call_abc","name":"Read","input":{"file_path":"main.rs"}},
                {"type":"text","text":"[unsupported content type]"}],
                "usage":{"input_tokens":10,"output_tokens":0},"stop_reason":"tool_use"}"#
        )
    );
}

#[test]
fn stop_reasons_of_answers() {
    let reason = |f: Option<&str>| to_anthropic_response(response(vec![], f)).stop_reason;
    assert_eq!(reason(Some("stop")).as_deref(), Some("end_turn"));
    assert_eq!(reason(Some("length")).as_deref(), Some("max_tokens"));
    assert_eq!(reason(Some("tool_calls")).as_deref(), Some("tool_use"));
    assert_eq!(reason(Some("end_turn")).as_deref(), Some("end_turn"));
    assert_eq!(reason(None), None);
    assert_eq!(map_stop_reason("other"), "other");
    let r = to_anthropic_response(response(vec![], None));
    assert!(r.to_json().get("stop_reason").is_none());
}

#[test]
fn bad_arguments_become_an_empty_input() {
    let r = to_anthropic_response(response(
        vec![ContentBlock::ToolCall {
            id: "c".to_string(),
            function: FunctionCall {
                name: "Read".to_string(),
                arguments: "{\"cut".to_string(),
            },
        }],
        None,
    ));
    assert_eq!(
        json_to_value(&r.content[0].to_json())["input"],
        value("{}")
    );
    assert_eq!(json_to_value(&tool_use_input(None)), value("{}"));
}

#[test]
fn tool_input_comes_back() {
    let input = r#"{"path":"/a b/\"c\"\n","deep":[[{"n":-5,"m":18446744073709551615}],false],"é":null}"#;
    let block = format!(r#"[{{"type":"tool_use","id":"t","name":"N","input":{}}}]"#, input);
    let req = request(None, vec![message("assistant", &block)]);
    let (_, ms) = parse_anthropic_messages(&req);
    let content = ms.into_iter().next().unwrap().content;
    let r = to_anthropic_response(response(content, None));
    assert_eq!(json_to_value(&r.content[0].to_json())["input"], value(input));
}
