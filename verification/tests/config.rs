use mygate::config::{
    default_auth_style, default_provider_type, default_timeout, AliasConfig, AppConfig, ChainEntry,
    ProviderConfig, ServerConfig,
};
use mygate::names::NameMap;

fn text(table: &toml::Table, key: &str) -> Option<String> {
    table.get(key).and_then(|v| v.as_str()).map(|s| s.to_string())
}

fn tables(table: &toml::Table, key: &str) -> Vec<(String, toml::Table)> {
    match table.get(key).and_then(|v| v.as_table()) {
        Some(t) => t
            .iter()
            .map(|(name, v)| (name.clone(), v.as_table().unwrap().clone()))
            .collect(),
        None => vec![],
    }
}

fn parse(toml_str: &str) -> AppConfig {
    let table: toml::Table = toml::from_str(toml_str).unwrap();
    let server = table.get("server").unwrap().as_table().unwrap();
    let mut providers = NameMap::new();
    for (name, p) in tables(&table, "providers") {
        providers.insert(
            name,
            ProviderConfig {
                base_url: text(&p, "base_url").unwrap(),
                api_key: text(&p, "api_key").unwrap(),
                provider_type: text(&p, "provider_type").unwrap_or_else(default_provider_type),
                auth_style: text(&p, "auth_style").unwrap_or_else(default_auth_style),
            },
        );
    }
    let mut aliases = NameMap::new();
    for (name, a) in tables(&table, "aliases") {
        let chain = match a.get("chain").and_then(|v| v.as_array()) {
            Some(entries) => entries
                .iter()
                .map(|v| {
                    let e = v.as_table().unwrap();
                    ChainEntry {
                        provider: text(e, "provider").unwrap(),
                        model: text(e, "model").unwrap(),
                        priority: e.get("priority").unwrap().as_integer().unwrap() as u32,
                    }
                })
                .collect(),
            None => vec![],
        };
        aliases.insert(
            name,
            AliasConfig {
                description: text(&a, "description"),
                chain,
            },
        );
    }
    AppConfig {
        server: ServerConfig {
            host: text(server, "host").unwrap(),
            port: server.get("port").unwrap().as_integer().unwrap() as u16,
            timeout_seconds: match server.get("timeout_seconds") {
                Some(v) => v.as_integer().unwrap() as u64,
                None => default_timeout(),
            },
            admin_token: text(server, "admin_token"),
        },
        providers,
        aliases,
    }
}

const VALID: &str = r#"
[server]
host = "127.0.0.1"
port = 8080

[providers.glm]
base_url = "https://open.bigmodel.cn/api/paas/v4"
api_key = "test-key"

[aliases.Simple]
description = "test"
[[aliases.Simple.chain]]
provider = "glm"
model = "glm-4-flash"
priority = 1
"#;

#[test]
fn test_parse_valid_config() {
    let config = parse(VALID);
    assert_eq!(config.server.host, "127.0.0.1");
    assert_eq!(config.server.port, 8080);
    assert_eq!(config.server.timeout_seconds, 30);
    assert!(config.providers.contains_key("glm"));
    assert!(config.aliases.contains_key("Simple"));
    let chain = config.aliases.get("Simple").unwrap().sorted_chain();
    assert_eq!(chain.len(), 1);
    assert_eq!(chain[0].model, "glm-4-flash");
    assert!(config.validate().is_ok());
}

#[test]
fn test_sorted_chain_orders_by_priority() {
    let config = parse(
        r#"
[server]
host = "127.0.0.1"
port = 8080

[providers.glm]
base_url = "https://example.com"
api_key = "key"

[providers.ds]
base_url = "https://example.com"
api_key = "key"

[aliases.Test]
[[aliases.Test.chain]]
provider = "ds"
model = "model-b"
priority = 2
[[aliases.Test.chain]]
provider = "glm"
model = "model-a"
priority = 1
"#,
    );
    let chain = config.aliases.get("Test").unwrap().sorted_chain();
    assert_eq!(chain[0].model, "model-a");
    assert_eq!(chain[1].model, "model-b");
}

#[test]
fn test_validate_unknown_provider() {
    let parsed = parse(
        r#"
[server]
host = "127.0.0.1"
port = 8080

[aliases.Test]
[[aliases.Test.chain]]
provider = "nonexistent"
model = "model"
priority = 1
"#,
    );
    assert!(parsed.validate().is_err());
    assert_eq!(
        parsed.validate().unwrap_err(),
        "alias 'Test' references unknown provider 'nonexistent'"
    );
}

#[test]
fn test_auth_style_default_is_bearer() {
    let config = parse(
        r#"
[server]
host = "127.0.0.1"
port = 8080

[providers.real-anthropic]
base_url = "https://api.anthropic.com"
api_key = "sk-ant-test"
provider_type = "anthropic"
"#,
    );
    assert_eq!(
        config.providers.get("real-anthropic").unwrap().auth_style,
        "bearer"
    );
}

#[test]
fn test_auth_style_explicit_anthropic() {
    let config = parse(
        r#"
[server]
host = "127.0.0.1"
port = 8080

[providers.real-anthropic]
base_url = "https://api.anthropic.com"
api_key = "sk-ant-test"
provider_type = "anthropic"
auth_style = "anthropic"
"#,
    );
    assert_eq!(
        config.providers.get("real-anthropic").unwrap().auth_style,
        "anthropic"
    );
}

#[test]
fn defaults() {
    assert_eq!(default_timeout(), 30);
    assert_eq!(default_provider_type(), "openai");
    assert_eq!(default_auth_style(), "bearer");
}

#[test]
fn empty_chain_is_invalid() {
    let config = parse(
        r#"
[server]
host = "h"
port = 1

[aliases.Empty]
"#,
    );
    assert_eq!(
        config.validate(),
        Err("alias 'Empty' has empty chain".to_string())
    );
    assert!(config.checked().is_err());
}

#[test]
fn equal_priorities_keep_their_order() {
    let entry = |model: &str, priority: u32| ChainEntry {
        provider: "p".to_string(),
        model: model.to_string(),
        priority,
    };
    let alias = AliasConfig {
        description: None,
        chain: vec![
            entry("c", 2),
            entry("a", 1),
            entry("d", 2),
            entry("b", 1),
            entry("z", 0),
        ],
    };
    let models: Vec<&str> = alias
        .sorted_chain()
        .iter()
        .map(|e| e.model.as_str())
        .collect();
    assert_eq!(models, vec!["z", "a", "b", "c", "d"]);
}

#[test]
fn bad_reload_keeps_the_running_configuration() {
    let (kept, outcome) = parse(VALID).reload(Err("unreadable".to_string()));
    assert_eq!(kept, parse(VALID));
    assert_eq!(outcome, Err("unreadable".to_string()));

    let mut broken = parse(VALID);
    broken.aliases.insert(
        "Bad".to_string(),
        AliasConfig {
            description: None,
            chain: vec![],
        },
    );
    let (kept, outcome) = parse(VALID).reload(Ok(broken));
    assert_eq!(kept, parse(VALID));
    assert_eq!(outcome, Err("alias 'Bad' has empty chain".to_string()));

    let mut other = parse(VALID);
    other.server.port = 9090;
    let (kept, outcome) = parse(VALID).reload(Ok(other));
    assert_eq!(kept.server.port, 9090);
    assert_eq!(outcome, Ok((1, 1)));
}
