use ccs_proxy::error::ProxyError;
use ccs_proxy::json::{parse_text, Json};
use ccs_proxy::provider::{
    AppType, LocalProxyRetryErrorType, LocalProxyRetryPolicy, Provider, ProviderMeta,
};
use ccs_proxy::provider_retry::{
    error_text_from_body, is_network_forward_failure, resolve_retry_policy,
    resolve_retry_policy_with_global, ErrorFacts,
};

const RETRY_MESSAGE: &str = "The server is overloaded, please retry later";

fn json(text: &str) -> Json {
    parse_text(text).expect("valid JSON")
}

fn provider(policy: LocalProxyRetryPolicy) -> Provider {
    Provider {
        id: "provider-1".to_string(),
        name: "Provider".to_string(),
        settings_config: json("{}"),
        sort_index: None,
        meta: Some(ProviderMeta {
            local_proxy_retry_policy: Some(policy),
            ..ProviderMeta::default()
        }),
        in_failover_queue: false,
        codex_official: false,
        codex_upstream_model: None,
    }
}

fn upstream(status: u16, body: &str) -> ProxyError {
    ProxyError::UpstreamError {
        status,
        body: Some(body.to_string()),
    }
}

#[test]
fn resolves_normal_request_policy_and_excludes_approval_model() {
    let provider = provider(LocalProxyRetryPolicy {
        enabled: None,
        max_retries: 101,
        retry_delay_ms: 99_999,
        custom_messages: vec!["  Busy  ".to_string(), "busy".to_string(), "".to_string()],
        error_types: vec![],
    });

    let policy = resolve_retry_policy(
        AppType::Codex,
        &json(r#"{"model":"gpt-5.6-sol"}"#),
        &provider,
    )
    .expect("normal Codex request should use provider policy");
    assert_eq!(policy.max_retries(), 100);
    assert!(policy.allows_retry(99));
    assert!(!policy.allows_retry(100));
    assert_eq!(policy.retry_limit_label(), "100");
    assert!(policy.should_log_attempt(100));
    assert_eq!(policy.retry_delay_ms(), 60_000);
    assert_eq!(policy.custom_messages(), &["busy"]);

    assert!(resolve_retry_policy(
        AppType::Codex,
        &json(r#"{"model":"codex-auto-review"}"#),
        &provider,
    )
    .is_none());
    assert!(resolve_retry_policy(
        AppType::OpenCode,
        &json(r#"{"model":"gpt-5.6-sol"}"#),
        &provider,
    )
    .is_none());
}

#[test]
fn custom_message_matching_reads_error_fields_only() {
    let provider = provider(LocalProxyRetryPolicy {
        enabled: None,
        max_retries: 1,
        retry_delay_ms: 1_000,
        custom_messages: vec![RETRY_MESSAGE.to_string()],
        error_types: vec![],
    });
    let policy = resolve_retry_policy(
        AppType::Claude,
        &json(r#"{"model":"sonnet"}"#),
        &provider,
    )
    .expect("policy");

    let matching = upstream(400, &format!(r#"{{"error":{{"message":"{RETRY_MESSAGE}"}}}}"#));
    assert_eq!(
        policy.match_error(&matching).as_deref(),
        Some("custom_message")
    );

    let output_only = upstream(
        400,
        &format!(r#"{{"status":"completed","error":null,"output_text":"{RETRY_MESSAGE}"}}"#),
    );
    assert!(policy.match_error(&output_only).is_none());

    let root_message = upstream(
        503,
        &format!(r#"{{"message":"{RETRY_MESSAGE}","code":"service_unavailable"}}"#),
    );
    assert_eq!(
        policy.match_error(&root_message).as_deref(),
        Some("custom_message")
    );
}

#[test]
fn bounded_retry_matches_real_upstream_truncation_marker_literal() {
    let provider = provider(LocalProxyRetryPolicy {
        enabled: Some(true),
        max_retries: 1,
        retry_delay_ms: 1_000,
        custom_messages: vec!["upstream error body truncated".to_string()],
        error_types: vec![],
    });
    let policy = resolve_retry_policy(
        AppType::Codex,
        &json(r#"{"model":"gpt-5.6-sol"}"#),
        &provider,
    )
    .expect("bounded retry policy");
    let error = upstream(
        503,
        "upstream payload\n[cc-switch: upstream error body truncated at 262144 bytes]",
    );
    assert_eq!(
        policy.match_error(&error).as_deref(),
        Some("custom_message")
    );
}

#[test]
fn unlimited_retry_matches_real_upstream_truncation_marker_literal() {
    let provider = provider(LocalProxyRetryPolicy {
        enabled: Some(true),
        max_retries: 0,
        retry_delay_ms: 1_000,
        custom_messages: vec!["upstream error body truncated".to_string()],
        error_types: vec![],
    });
    let policy = resolve_retry_policy(
        AppType::Codex,
        &json(r#"{"model":"gpt-5.6-sol"}"#),
        &provider,
    )
    .expect("unlimited retry policy");
    let error = upstream(
        503,
        "upstream payload\n[cc-switch: upstream error body truncated at 262144 bytes]",
    );
    assert!(policy.is_unlimited());
    assert_eq!(
        policy.match_error(&error).as_deref(),
        Some("custom_message")
    );
}

#[test]
fn matches_each_configured_error_type() {
    let provider = provider(LocalProxyRetryPolicy {
        enabled: None,
        max_retries: 1,
        retry_delay_ms: 1_000,
        custom_messages: vec![],
        error_types: vec![
            LocalProxyRetryErrorType::RateLimit,
            LocalProxyRetryErrorType::Overloaded,
            LocalProxyRetryErrorType::ServerError,
            LocalProxyRetryErrorType::Network,
        ],
    });
    let policy = resolve_retry_policy(
        AppType::Gemini,
        &json(r#"{"model":"gemini-2.5-pro"}"#),
        &provider,
    )
    .expect("policy");

    let cases = [
        (upstream(429, "rate limited"), "rate_limit"),
        (upstream(503, "unavailable"), "overloaded"),
        (upstream(502, "bad gateway"), "server_error"),
        (
            ProxyError::Timeout("request timed out".to_string()),
            "network",
        ),
    ];
    for (error, expected) in cases {
        assert_eq!(policy.match_error(&error).as_deref(), Some(expected));
    }
}

#[test]
fn upstream_body_timeout_exposes_status_and_network_facts() {
    let provider = provider(LocalProxyRetryPolicy {
        enabled: None,
        max_retries: 1,
        retry_delay_ms: 1_000,
        custom_messages: vec![],
        error_types: vec![
            LocalProxyRetryErrorType::Overloaded,
            LocalProxyRetryErrorType::ServerError,
            LocalProxyRetryErrorType::Network,
        ],
    });
    let policy = resolve_retry_policy(
        AppType::Claude,
        &json(r#"{"model":"sonnet"}"#),
        &provider,
    )
    .expect("policy");

    for (status, expected) in [(503, "overloaded"), (502, "server_error"), (400, "network")] {
        assert_eq!(
            policy
                .match_error(&ProxyError::UpstreamBodyTimeout {
                    status,
                    timeout_seconds: 1,
                })
                .as_deref(),
            Some(expected)
        );
    }
}

#[test]
fn disabled_or_triggerless_policies_do_not_resolve() {
    let disabled = provider(LocalProxyRetryPolicy {
        enabled: None,
        max_retries: 0,
        retry_delay_ms: 1_000,
        custom_messages: vec![RETRY_MESSAGE.to_string()],
        error_types: vec![],
    });
    assert!(resolve_retry_policy(
        AppType::Codex,
        &json(r#"{"model":"gpt-5.6-sol"}"#),
        &disabled,
    )
    .is_none());

    let triggerless = provider(LocalProxyRetryPolicy {
        enabled: None,
        max_retries: 1,
        retry_delay_ms: 0,
        custom_messages: vec!["  ".to_string()],
        error_types: vec![],
    });
    assert!(resolve_retry_policy(
        AppType::Claude,
        &json(r#"{"model":"sonnet"}"#),
        &triggerless,
    )
    .is_none());

    let triggerless_unlimited = provider(LocalProxyRetryPolicy {
        enabled: Some(true),
        max_retries: 0,
        retry_delay_ms: 1_000,
        custom_messages: vec!["  ".to_string()],
        error_types: vec![],
    });
    assert!(resolve_retry_policy(
        AppType::Codex,
        &json(r#"{"model":"gpt-5.6-sol"}"#),
        &triggerless_unlimited,
    )
    .is_none());

    let bounded = provider(LocalProxyRetryPolicy {
        enabled: None,
        max_retries: 1,
        retry_delay_ms: 0,
        custom_messages: vec![],
        error_types: vec![LocalProxyRetryErrorType::Network],
    });
    let policy = resolve_retry_policy(
        AppType::GrokBuild,
        &json(r#"{"model":"grok-4.5"}"#),
        &bounded,
    )
    .expect("Grok Build should use the provider policy");
    assert_eq!(policy.retry_delay_ms(), 1);
}

#[test]
fn global_and_provider_switches_gate_retry_with_legacy_compatibility() {
    let make = |enabled: Option<bool>, max_retries: u32| {
        provider(LocalProxyRetryPolicy {
            enabled,
            max_retries,
            retry_delay_ms: 1_000,
            custom_messages: vec![RETRY_MESSAGE.to_string()],
            error_types: vec![],
        })
    };
    let explicit_enabled = make(Some(true), 2);
    assert!(resolve_retry_policy_with_global(
        AppType::Codex,
        &json(r#"{"model":"gpt-5.6-sol"}"#),
        &explicit_enabled,
        false,
    )
    .is_none());
    assert!(resolve_retry_policy_with_global(
        AppType::Codex,
        &json(r#"{"model":"gpt-5.6-sol"}"#),
        &explicit_enabled,
        true,
    )
    .is_some());

    let explicit_disabled = make(Some(false), 2);
    assert!(resolve_retry_policy_with_global(
        AppType::Claude,
        &json(r#"{"model":"sonnet"}"#),
        &explicit_disabled,
        true,
    )
    .is_none());

    let legacy_enabled = make(None, 2);
    assert!(resolve_retry_policy_with_global(
        AppType::Gemini,
        &json(r#"{"model":"gemini-3.6-flash"}"#),
        &legacy_enabled,
        true,
    )
    .is_some());

    let explicit_zero = make(Some(true), 0);
    let explicit_unlimited = resolve_retry_policy_with_global(
        AppType::GrokBuild,
        &json(r#"{"model":"grok-4.5"}"#),
        &explicit_zero,
        true,
    )
    .expect("an explicitly enabled zero budget should mean unlimited retries");
    assert!(explicit_unlimited.is_unlimited());
    assert!(explicit_unlimited.should_log_attempt(1));
    assert!(explicit_unlimited.should_log_attempt(3));
    assert!(!explicit_unlimited.should_log_attempt(4));
    assert!(explicit_unlimited.should_log_attempt(100));
}

#[test]
fn approval_model_is_excluded_even_when_both_switches_are_enabled() {
    let provider = provider(LocalProxyRetryPolicy {
        enabled: Some(true),
        max_retries: 0,
        retry_delay_ms: 1,
        custom_messages: vec![RETRY_MESSAGE.to_string()],
        error_types: vec![LocalProxyRetryErrorType::Network],
    });
    assert!(resolve_retry_policy_with_global(
        AppType::Codex,
        &json(r#"{"model":"codex-auto-review"}"#),
        &provider,
        true,
    )
    .is_none());
}

#[test]
fn classifies_structured_responses_anthropic_and_gemini_errors() {
    let provider = provider(LocalProxyRetryPolicy {
        enabled: None,
        max_retries: 1,
        retry_delay_ms: 1_000,
        custom_messages: vec![],
        error_types: vec![
            LocalProxyRetryErrorType::RateLimit,
            LocalProxyRetryErrorType::Overloaded,
            LocalProxyRetryErrorType::ServerError,
        ],
    });
    let policy = resolve_retry_policy(
        AppType::Gemini,
        &json(r#"{"model":"gemini-2.5-pro"}"#),
        &provider,
    )
    .expect("policy");

    let cases = [
        (
            r#"{"type":"response.failed","response":{"status":"failed","error":{"code":"too_many_requests","message":"quota exhausted"}}}"#,
            "rate_limit",
        ),
        (
            r#"{"type":"error","error":{"type":"overloaded_error","message":"capacity unavailable"}}"#,
            "overloaded",
        ),
        (
            r#"{"error":{"code":500,"status":"INTERNAL_ERROR","message":"generation failed"}}"#,
            "server_error",
        ),
        (
            r#"{"error":{"code":429,"status":"RESOURCE_EXHAUSTED","message":"quota exhausted"}}"#,
            "rate_limit",
        ),
    ];
    for (body, expected) in cases {
        assert_eq!(
            policy.match_error(&upstream(200, body)).as_deref(),
            Some(expected)
        );
    }
}

#[test]
fn network_type_excludes_deterministic_local_request_errors() {
    let provider = provider(LocalProxyRetryPolicy {
        enabled: None,
        max_retries: 1,
        retry_delay_ms: 1_000,
        custom_messages: vec![],
        error_types: vec![LocalProxyRetryErrorType::Network],
    });
    let policy = resolve_retry_policy(
        AppType::Claude,
        &json(r#"{"model":"sonnet"}"#),
        &provider,
    )
    .expect("policy");

    for message in [
        "connection reset by peer",
        "流式响应在首包到达前结束",
        "Response parse failed: incomplete message",
    ] {
        assert_eq!(
            policy
                .match_error(&ProxyError::ForwardFailed(message.to_string()))
                .as_deref(),
            Some("network")
        );
    }
    for message in [
        "Invalid URL 'not a url'",
        "Failed to build request: invalid header",
    ] {
        assert!(policy
            .match_error(&ProxyError::ForwardFailed(message.to_string()))
            .is_none());
    }
}

#[test]
fn a_policy_stops_at_its_limit() {
    let provider = provider(LocalProxyRetryPolicy {
        enabled: Some(true),
        max_retries: 3,
        retry_delay_ms: 250,
        custom_messages: vec!["BUSY".to_string(), " busy ".to_string()],
        error_types: vec![
            LocalProxyRetryErrorType::Network,
            LocalProxyRetryErrorType::Network,
        ],
    });
    let policy = resolve_retry_policy(AppType::Claude, &json("{}"), &provider).expect("policy");
    assert_eq!(policy.max_retries(), 3);
    assert!(policy.allows_retry(2));
    assert!(!policy.allows_retry(3));
    assert!(!policy.is_unlimited());
    assert_eq!(policy.retry_delay_ms(), 250);
    assert_eq!(policy.custom_messages(), &["busy"]);
    assert_eq!(policy.retry_limit_label(), "3");
}

#[test]
fn unicode_messages_are_matched_without_regard_to_case() {
    let provider = provider(LocalProxyRetryPolicy {
        enabled: Some(true),
        max_retries: 1,
        retry_delay_ms: 1,
        custom_messages: vec!["ÜBERLASTET".to_string()],
        error_types: vec![],
    });
    let policy = resolve_retry_policy(AppType::Claude, &json("{}"), &provider).expect("policy");
    assert_eq!(
        policy.match_error(&upstream(500, "der Server ist überlastet")).as_deref(),
        Some("custom_message")
    );
}

#[test]
fn error_texts_come_from_the_error_part_of_a_body() {
    let (message, classes) =
        error_text_from_body(r#"{"error":{"message":"slow down","code":429}}"#);
    assert!(message.contains("slow down"));
    assert!(classes.contains("429"));
    let (plain, _) = error_text_from_body("not json");
    assert!(plain.contains("not json"));
}

#[test]
fn network_failures_are_told_from_requests_that_could_not_be_built() {
    assert!(is_network_forward_failure("connection refused"));
    assert!(!is_network_forward_failure("no such thing"));
    let facts = ErrorFacts::from_proxy_error(&ProxyError::UpstreamBodyTimeout {
        status: 500,
        timeout_seconds: 3,
    });
    assert_eq!(facts.status, Some(500));
    assert!(facts.network);
}
