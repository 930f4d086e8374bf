use mygate::config::{AliasConfig, AppConfig, ChainEntry, ProviderConfig, ServerConfig};
use mygate::error::{should_fallback, GatewayError};
use mygate::gateway::fallback::{attempt_label, request_label, FallbackRun, Verdict};
use mygate::json_codec::json_to_value;
use mygate::names::NameMap;
use mygate::state::{record_tokens, ActiveStreamsGuard};

fn entry(provider: &str, model: &str, priority: u32) -> ChainEntry {
    ChainEntry {
        provider: provider.to_string(),
        model: model.to_string(),
        priority,
    }
}

fn config(known: &[&str], chain: Vec<ChainEntry>) -> AppConfig {
    let mut providers = NameMap::new();
    for name in known {
        providers.insert(
            name.to_string(),
            ProviderConfig {
                base_url: "http://127.0.0.1:19999/v1".to_string(),
                api_key: "key".to_string(),
                provider_type: "openai".to_string(),
                auth_style: "bearer".to_string(),
            },
        );
    }
    let mut aliases = NameMap::new();
    aliases.insert(
        "Test".to_string(),
        AliasConfig {
            description: None,
            chain,
        },
    );
    AppConfig {
        server: ServerConfig {
            host: "127.0.0.1".to_string(),
            port: 8080,
            timeout_seconds: 1,
            admin_token: None,
        },
        providers,
        aliases,
    }
}

fn refused(status: u16, body: &str) -> GatewayError {
    GatewayError::BackendError {
        status,
        body: body.to_string(),
    }
}

/// Runs along a chain with the replies that each model gives. Returns the models that were tried,
/// and the one that answered or the error.
fn run(
    config: &AppConfig,
    streaming: bool,
    replies: &[(&str, Result<(), GatewayError>)],
) -> (Vec<String>, Result<String, GatewayError>) {
    let mut run = FallbackRun::start(config, "Test", streaming).unwrap();
    let mut tried = vec![];
    loop {
        let (target, _) = match run.next_attempt() {
            Ok(attempt) => attempt,
            Err(e) => return (tried, Err(e)),
        };
        assert!(run.pending());
        tried.push(target.model.clone());
        let reply = replies
            .iter()
            .find(|(model, _)| *model == target.model)
            .map(|(_, r)| r.clone())
            .unwrap_or(Ok(()));
        match run.record(reply) {
            Verdict::Answered => return (tried, Ok(target.model)),
            Verdict::TryNext => {}
            Verdict::Failed(e) => return (tried, Err(e)),
        }
    }
}

#[test]
fn test_fallback_unknown_alias() {
    let config = config(&["p1"], vec![entry("p1", "m1", 1)]);
    let result = FallbackRun::start(&config, "NonExistent", false);
    assert!(result.is_err());
    assert!(result
        .unwrap_err()
        .message()
        .contains("Unknown model alias"));
}

#[test]
fn test_fallback_all_exhausted() {
    let config = config(&["p1"], vec![entry("p1", "m1", 1)]);
    let down = Err(GatewayError::BackendRequestFailed(
        "connection refused".to_string(),
    ));
    let (tried, result) = run(&config, false, &[("m1", down)]);
    assert_eq!(tried, vec!["m1"]);
    let e = result.unwrap_err();
    assert!(e.message().contains("All fallback attempts exhausted"));
    assert_eq!(
        e,
        GatewayError::AllFallbacksExhausted(
            "Test — last error: Backend request failed: connection refused".to_string()
        )
    );
    assert_eq!(e.status_code(), 503);
}

#[test]
fn first_answer_by_priority_wins() {
    let config = config(
        &["a", "b", "c"],
        vec![
            entry("c", "m3", 3),
            entry("a", "m1", 1),
            entry("b", "m2", 2),
        ],
    );
    let replies = [
        ("m1", Err(refused(429, "busy"))),
        ("m2", Err(refused(503, "down"))),
    ];
    let (tried, result) = run(&config, false, &replies);
    assert_eq!(tried, vec!["m1", "m2", "m3"]);
    assert_eq!(result, Ok("m3".to_string()));
    let (tried, result) = run(&config, true, &[]);
    assert_eq!(tried, vec!["m1"]);
    assert_eq!(result, Ok("m1".to_string()));
}

#[test]
fn refusal_of_the_request_ends_the_run() {
    let config = config(&["a", "b"], vec![entry("a", "m1", 1), entry("b", "m2", 2)]);
    for streaming in [false, true] {
        let (tried, result) = run(
            &config,
            streaming,
            &[("m1", Err(refused(401, "invalid api key")))],
        );
        assert_eq!(tried, vec!["m1"]);
        let e = result.unwrap_err();
        assert_eq!(e.status_code(), 502);
        assert!(e.message().contains("invalid api key"));
    }
}

#[test]
fn internal_error_ends_only_a_streaming_run() {
    let config = config(&["a", "b"], vec![entry("a", "m1", 1), entry("b", "m2", 2)]);
    let broken = || {
        [(
            "m1",
            Err(GatewayError::Internal("unexpected content-type".to_string())),
        )]
    };
    let (_, result) = run(&config, true, &broken());
    assert_eq!(result.unwrap_err().status_code(), 500);
    let (tried, result) = run(&config, false, &broken());
    assert_eq!(tried, vec!["m1", "m2"]);
    assert_eq!(result, Ok("m2".to_string()));
}

#[test]
fn missing_provider_is_passed_over() {
    let config = config(&["b"], vec![entry("gone", "m1", 1), entry("b", "m2", 2)]);
    let (tried, result) = run(&config, false, &[]);
    assert_eq!(tried, vec!["m2"]);
    assert!(result.is_ok());
    let (_, result) = run(&config, false, &[("m2", Err(refused(500, "boom")))]);
    assert_eq!(
        result.unwrap_err().message(),
        "All fallback attempts exhausted for alias: Test — last error: \
         Backend returned error 500: provider=b, model=m2: boom"
    );
    let none = self::config(&[], vec![entry("gone", "m1", 1)]);
    let (tried, result) = run(&none, false, &[]);
    assert!(tried.is_empty());
    assert_eq!(
        result.unwrap_err().message(),
        "All fallback attempts exhausted for alias: Test — last error: \
         Internal error: Provider 'gone' not found"
    );
    let empty = self::config(&[], vec![]);
    let (_, result) = run(&empty, false, &[]);
    assert!(result
        .unwrap_err()
        .message()
        .ends_with("last error: unknown"));
}

#[test]
fn statuses_that_trigger_fallback() {
    for status in [429, 500, 503, 599] {
        assert!(should_fallback(status));
    }
    for status in [200, 400, 401, 404, 428, 430, 499, 600] {
        assert!(!should_fallback(status));
    }
}

#[test]
fn attempts_and_requests_are_counted_by_label() {
    assert_eq!(attempt_label(&Ok(())), "success");
    assert_eq!(attempt_label(&Err(refused(500, ""))), "fallback");
    assert_eq!(attempt_label(&Err(refused(400, ""))), "error");
    let internal = GatewayError::Internal("x".to_string());
    assert_eq!(attempt_label(&Err(internal.clone())), "error");
    assert_eq!(request_label(&None), "success");
    let exhausted = GatewayError::AllFallbacksExhausted("x".to_string());
    assert_eq!(request_label(&Some(exhausted)), "fallback_exhausted");
    assert_eq!(request_label(&Some(internal)), "error");
}

#[test]
fn errors_are_answered() {
    let all = [
        (
            GatewayError::UnknownAlias("X".to_string()),
            404,
            "Unknown model alias: X",
        ),
        (
            GatewayError::AllFallbacksExhausted("X".to_string()),
            503,
            "All fallback attempts exhausted for alias: X",
        ),
        (
            GatewayError::BackendRequestFailed("X".to_string()),
            502,
            "Backend request failed: X",
        ),
        (refused(418, "X"), 502, "Backend returned error 418: X"),
        (
            GatewayError::ConfigError("X".to_string()),
            500,
            "Config error: X",
        ),
        (
            GatewayError::Internal("X".to_string()),
            500,
            "Internal error: X",
        ),
    ];
    for (e, status, message) in all {
        assert_eq!(e.status_code(), status);
        assert_eq!(e.message(), message);
        let body = json_to_value(&e.to_json());
        assert_eq!(body["error"]["message"], message);
        assert_eq!(body["error"]["type"], "gateway_error");
    }
}

#[test]
fn tokens_are_counted_where_known() {
    let counts = record_tokens("Plan", Some(100), Some(50));
    assert_eq!(counts.len(), 2);
    assert_eq!(counts[0].alias, "Plan");
    assert_eq!(counts[0].kind, "prompt");
    assert_eq!(counts[0].tokens, 100);
    assert_eq!(counts[1].kind, "completion");
    assert_eq!(counts[1].tokens, 50);
    assert!(record_tokens("Plan", None, None).is_empty());
    let guard = ActiveStreamsGuard::new(7);
    assert_eq!(guard.inner, 7);
    assert!(guard.dec_on_drop);
}
