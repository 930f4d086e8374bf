use mygate::backend::openai_compat::parse_error_body;
use mygate::backend::BackendAdapter;
use mygate::config::{AliasConfig, AppConfig, ChainEntry, ProviderConfig, ServerConfig};
use mygate::gateway::alias::resolve_alias;
use mygate::gateway::extract_thinking;
use mygate::gateway::fallback::pick_adapter;
use mygate::names::NameMap;

fn entry(provider: &str, model: &str, priority: u32) -> ChainEntry {
    ChainEntry {
        provider: provider.to_string(),
        model: model.to_string(),
        priority,
    }
}

fn provider(base_url: &str, api_key: &str) -> ProviderConfig {
    ProviderConfig {
        base_url: base_url.to_string(),
        api_key: api_key.to_string(),
        provider_type: "openai".to_string(),
        auth_style: "bearer".to_string(),
    }
}

fn make_test_config() -> AppConfig {
    let mut providers = NameMap::new();
    providers.insert(
        "glm".to_string(),
        provider("https://glm.example.com/v1", "glm-key"),
    );
    providers.insert(
        "deepseek".to_string(),
        provider("https://ds.example.com/v1", "ds-key"),
    );
    let mut aliases = NameMap::new();
    aliases.insert(
        "Simple".to_string(),
        AliasConfig {
            description: Some("test".to_string()),
            chain: vec![
                entry("glm", "glm-4-flash", 2),
                entry("deepseek", "ds-chat", 1),
            ],
        },
    );
    AppConfig {
        server: ServerConfig {
            host: "127.0.0.1".to_string(),
            port: 8080,
            timeout_seconds: 30,
            admin_token: None,
        },
        providers,
        aliases,
    }
}

#[test]
fn test_resolve_existing_alias() {
    let config = make_test_config();
    let chain = resolve_alias(&config, "Simple").unwrap();
    assert_eq!(chain.len(), 2);
    assert_eq!(chain[0].provider_name, "deepseek");
    assert_eq!(chain[0].model, "ds-chat");
    assert_eq!(chain[1].provider_name, "glm");
    assert_eq!(chain[1].model, "glm-4-flash");
}

#[test]
fn test_resolve_unknown_alias() {
    let config = make_test_config();
    let result = resolve_alias(&config, "NonExistent");
    assert!(result.is_err());
}

#[test]
fn test_pick_adapter_dispatch() {
    let a = pick_adapter("anthropic");
    assert_eq!(a.name(), "anthropic_passthrough");
    let o = pick_adapter("openai");
    assert_eq!(o.name(), "openai_compat");
    let u = pick_adapter("unknown-type");
    assert_eq!(u.name(), "openai_compat");
}

#[test]
fn test_parse_error_body_glm_style() {
    let body = r#"{"error":{"code":"401","message":"令牌已过期"}}"#;
    let parsed = parse_error_body(body);
    assert!(parsed.is_some());
    let (typ, msg) = parsed.unwrap();
    assert_eq!(typ, "401");
    assert!(msg.contains("令牌"));
}

#[test]
fn test_parse_error_body_openai_standard() {
    let body =
        r#"{"error":{"message":"Invalid API key","type":"invalid_request_error","code":"401"}}"#;
    let parsed = parse_error_body(body);
    assert!(parsed.is_some());
    let (typ, msg) = parsed.unwrap();
    assert_eq!(typ, "invalid_request_error");
    assert!(msg.contains("Invalid"));
}

#[test]
fn test_parse_error_body_success_response() {
    let body = r#"{"id":"x","choices":[{"message":{"content":"hi"}}]}"#;
    let parsed = parse_error_body(body);
    assert!(parsed.is_none());
}

#[test]
fn test_parse_error_body_non_json() {
    let body = "Authentication Fails (governor)";
    let parsed = parse_error_body(body);
    assert!(parsed.is_none());
}

#[test]
fn test_extract_thinking_mixed_content() {
    let text = "<think>The user said hi</think>\n\nHello!";
    let (visible, reasoning) = extract_thinking(text);
    assert_eq!(visible, "Hello!");
    assert_eq!(reasoning.as_deref(), Some("The user said hi"));

    let (v, r) = extract_thinking("Hello world");
    assert_eq!(v, "Hello world");
    assert!(r.is_none());

    let (v, r) = extract_thinking("<think>just thinking</think>");
    assert_eq!(v, "");
    assert_eq!(r.as_deref(), Some("just thinking"));

    let (v, r) = extract_thinking("<think>reasoning</think>\n\nactual");
    assert_eq!(v, "actual");
    assert_eq!(r.as_deref(), Some("reasoning"));
}
