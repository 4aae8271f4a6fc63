use ccs_proxy::config::{
    AppProxyConfig, CopilotOptimizerConfig, OptimizerConfig, RectifierConfig,
};
use ccs_proxy::error::{AppError, ProxyError};
use ccs_proxy::handler_context::{
    codex_role_route_for_request, extract_gemini_model_from_path, map_provider_selection_error,
    parse_codex_role_route_headers, CodexRoleRoute, RequestContext, RequestSetup,
};
use ccs_proxy::headers::Headers;
use ccs_proxy::json::{parse_text, Json};
use ccs_proxy::provider::{AppType, Provider};
use ccs_proxy::provider_router::{ProviderRouteAttempt, ProviderRoutePlan};

fn json(text: &str) -> Json {
    parse_text(text).expect("valid JSON")
}

fn headers(entries: &[(&str, &[u8])]) -> Headers {
    let mut headers = Headers::new();
    for (name, value) in entries {
        headers.append(name, value);
    }
    headers
}

fn role_headers() -> Headers {
    headers(&[
        ("x-cc-switch-role-route", b"frontend"),
        ("x-cc-switch-role-owner", b"provider-a"),
        ("x-cc-switch-role-token", b"signed-token"),
    ])
}

#[test]
fn codex_role_headers_require_a_complete_unique_triple() {
    let route = parse_codex_role_route_headers(&role_headers())
        .expect("valid role route headers")
        .expect("role route");
    assert_eq!(route.route, CodexRoleRoute::Frontend);
    assert_eq!(route.owner_provider_id, "provider-a");
    assert_eq!(route.token, "signed-token");

    let missing_owner = headers(&[("x-cc-switch-role-route", b"frontend")]);
    assert!(matches!(
        parse_codex_role_route_headers(&missing_owner),
        Err(ProxyError::InvalidRequest(_))
    ));

    let missing_token = headers(&[
        ("x-cc-switch-role-route", b"frontend"),
        ("x-cc-switch-role-owner", b"provider-a"),
    ]);
    assert!(matches!(
        parse_codex_role_route_headers(&missing_token),
        Err(ProxyError::InvalidRequest(_))
    ));

    let mut duplicate_route = role_headers();
    duplicate_route.append("x-cc-switch-role-route", b"frontend");
    assert!(matches!(
        parse_codex_role_route_headers(&duplicate_route),
        Err(ProxyError::InvalidRequest(_))
    ));

    let mut duplicate_token = role_headers();
    duplicate_token.append("x-cc-switch-role-token", b"second-token");
    assert!(matches!(
        parse_codex_role_route_headers(&duplicate_token),
        Err(ProxyError::InvalidRequest(_))
    ));

    let mut combined_owner = role_headers();
    combined_owner.insert("x-cc-switch-role-owner", b"provider-a,provider-b");
    assert!(matches!(
        parse_codex_role_route_headers(&combined_owner),
        Err(ProxyError::InvalidRequest(_))
    ));
}

#[test]
fn codex_role_headers_reject_unknown_empty_and_non_utf8_values() {
    let cases: [(&[u8], &[u8], &[u8]); 4] = [
        (b"backend", b"provider-a", b"signed-token"),
        (b"frontend", b"   ", b"signed-token"),
        (&[0xff], b"provider-a", b"signed-token"),
        (b"frontend", b"provider-a", b"   "),
    ];
    for (route, owner, token) in cases {
        let headers = headers(&[
            ("x-cc-switch-role-route", route),
            ("x-cc-switch-role-owner", owner),
            ("x-cc-switch-role-token", token),
        ]);
        assert!(matches!(
            parse_codex_role_route_headers(&headers),
            Err(ProxyError::InvalidRequest(_))
        ));
    }
}

#[test]
fn invalid_role_selection_maps_to_invalid_request() {
    assert!(matches!(
        map_provider_selection_error(AppError::InvalidInput("stale token".to_string())),
        ProxyError::InvalidRequest(message) if message == "stale token"
    ));
}

#[test]
fn auto_review_rejects_malformed_role_headers() {
    let malformed = headers(&[("x-cc-switch-role-route", b"unknown")]);
    assert!(matches!(
        codex_role_route_for_request(
            AppType::Codex,
            &json(r#"{"model":"codex-auto-review"}"#),
            &malformed,
            false,
        ),
        Err(ProxyError::InvalidRequest(_))
    ));
    assert_eq!(
        codex_role_route_for_request(
            AppType::Codex,
            &json(r#"{"model":"codex-auto-review"}"#),
            &Headers::new(),
            false,
        )
        .expect("header-free auto review keeps its dedicated route"),
        None
    );
    assert!(matches!(
        codex_role_route_for_request(
            AppType::Codex,
            &json(r#"{"model":"gpt-5.6-sol"}"#),
            &malformed,
            true,
        ),
        Err(ProxyError::InvalidRequest(_))
    ));
}

#[test]
fn codex_role_routing_requires_a_loopback_peer() {
    let headers_given = role_headers();
    let body = json(r#"{"model":"gpt-5.6-sol"}"#);
    assert!(
        codex_role_route_for_request(AppType::Codex, &body, &headers_given, true)
            .expect("loopback role request")
            .is_some()
    );
    assert!(matches!(
        codex_role_route_for_request(AppType::Codex, &body, &headers_given, false),
        Err(ProxyError::InvalidRequest(message)) if message.contains("loopback")
    ));
    let token_only = headers(&[("x-cc-switch-role-token", b"signed-token")]);
    assert!(matches!(
        codex_role_route_for_request(AppType::Codex, &body, &token_only, false),
        Err(ProxyError::InvalidRequest(message)) if message.contains("loopback")
    ));
}

#[test]
fn extract_model_with_action() {
    assert_eq!(
        extract_gemini_model_from_path("/v1beta/models/gemini-pro:generateContent").as_deref(),
        Some("gemini-pro"),
    );
}

#[test]
fn extract_model_with_dotted_version() {
    assert_eq!(
        extract_gemini_model_from_path("/v1beta/models/gemini-1.5-flash:streamGenerateContent")
            .as_deref(),
        Some("gemini-1.5-flash"),
    );
}

#[test]
fn extract_model_without_action() {
    assert_eq!(
        extract_gemini_model_from_path("/v1/models/gemini-1.5-pro").as_deref(),
        Some("gemini-1.5-pro"),
    );
}

#[test]
fn extract_model_with_proxy_prefix() {
    assert_eq!(
        extract_gemini_model_from_path("/gemini/v1beta/models/gemini-2.0-flash:countTokens")
            .as_deref(),
        Some("gemini-2.0-flash"),
    );
}

#[test]
fn extract_model_with_query_string() {
    assert_eq!(
        extract_gemini_model_from_path("/v1beta/models/gemini-pro:generateContent?key=abc")
            .as_deref(),
        Some("gemini-pro"),
    );
}

#[test]
fn extract_model_missing_segment() {
    assert_eq!(extract_gemini_model_from_path("/v1beta/operations"), None);
}

#[test]
fn extract_model_trailing_models_segment() {
    assert_eq!(extract_gemini_model_from_path("/v1beta/models"), None);
}

#[test]
fn extract_model_get_with_query_only() {
    assert_eq!(
        extract_gemini_model_from_path("/v1beta/models/gemini-pro?key=abc").as_deref(),
        Some("gemini-pro"),
    );
}

#[test]
fn extract_model_get_with_proxy_prefix_and_query() {
    assert_eq!(
        extract_gemini_model_from_path("/gemini/v1beta/models/gemini-2.0-flash?key=abc")
            .as_deref(),
        Some("gemini-2.0-flash"),
    );
}

fn provider(id: &str) -> Provider {
    Provider {
        id: id.to_string(),
        name: format!("Provider {id}"),
        settings_config: json("{}"),
        sort_index: None,
        meta: None,
        in_failover_queue: false,
        codex_official: false,
        codex_upstream_model: None,
    }
}

fn setup(auto_failover_enabled: bool) -> RequestSetup {
    RequestSetup {
        start_ms: 1_000,
        app_config: AppProxyConfig {
            enabled: true,
            auto_failover_enabled,
            max_retries: 3,
            streaming_first_byte_timeout: 20,
            streaming_idle_timeout: 40,
            non_streaming_timeout: 60,
        },
        current_provider_id: "a".to_string(),
        tag: "Codex".to_string(),
        app_type_str: "codex".to_string(),
        app_type: AppType::Codex,
        session_id: "session".to_string(),
        session_client_provided: true,
        rectifier_config: RectifierConfig::default(),
        optimizer_config: OptimizerConfig::default(),
        copilot_optimizer_config: CopilotOptimizerConfig {
            enabled: true,
            request_classification: true,
            tool_result_merging: true,
            strip_thinking: true,
            warmup_downgrade: false,
            deterministic_request_id: true,
        },
    }
}

#[test]
fn a_context_keeps_the_plan_and_its_first_provider() {
    let plan = ProviderRoutePlan::standard(vec![provider("a"), provider("b")], true);
    let context = RequestContext::new(
        setup(true),
        &json(r#"{"model":"gpt-5"}"#),
        &Headers::new(),
        Ok(plan),
    )
    .expect("context");
    assert_eq!(context.provider.id, "a");
    assert_eq!(context.get_providers().len(), 2);
    assert_eq!(context.request_model, "gpt-5");
    assert_eq!(context.latency_ms(1_250), 250);
    let timeouts = context.streaming_timeout_config();
    assert_eq!(timeouts.first_byte_timeout, 20);
    assert_eq!(timeouts.idle_timeout, 40);

    let forwarder = context.create_forwarder(true);
    assert_eq!(forwarder.max_attempts, 4);
    assert_eq!(forwarder.non_streaming_timeout, 60);
    assert_eq!(forwarder.streaming_first_byte_timeout, 20);
    assert!(forwarder.sync_logical_target);
    assert_eq!(forwarder.role_route_owner_id, None);
    assert_eq!(forwarder.role_capability_model, None);
}

#[test]
fn without_failover_one_provider_is_tried_without_timeouts() {
    let plan = ProviderRoutePlan::standard(vec![provider("a")], false);
    let context = RequestContext::new(
        setup(false),
        &json("{}"),
        &Headers::new(),
        Ok(plan),
    )
    .expect("context");
    assert_eq!(context.request_model, "unknown");
    let forwarder = context.create_forwarder(false);
    assert_eq!(forwarder.max_attempts, 1);
    assert_eq!(forwarder.non_streaming_timeout, 0);
    assert_eq!(forwarder.streaming_first_byte_timeout, 0);
    assert!(!forwarder.provider_retry_enabled);
    assert_eq!(context.streaming_timeout_config().first_byte_timeout, 0);
}

#[test]
fn a_role_route_names_its_owner_and_fixes_its_models() {
    let plan = ProviderRoutePlan {
        attempts: vec![
            ProviderRouteAttempt {
                provider: provider("b"),
                outbound_model_override: Some("fast".to_string()),
            },
            ProviderRouteAttempt {
                provider: provider("provider-a"),
                outbound_model_override: None,
            },
        ],
        use_failover_timeouts: true,
        sync_logical_target: false,
        bypass_single_provider_circuit_breaker: false,
        key_pool_retries: vec![],
    };
    let context = RequestContext::new_with_peer_addr(
        setup(false),
        &json(r#"{"model":"gpt-5"}"#),
        &role_headers(),
        true,
        Ok(plan),
    )
    .expect("context");
    assert_eq!(context.role_route_owner_id.as_deref(), Some("provider-a"));
    let forwarder = context.create_forwarder(true);
    assert_eq!(forwarder.max_attempts, 2);
    assert!(!forwarder.sync_logical_target);
    assert_eq!(forwarder.role_route_owner_id.as_deref(), Some("provider-a"));
    assert_eq!(forwarder.role_capability_model.as_deref(), Some("gpt-5"));
    assert_eq!(
        forwarder.outbound_model_overrides.get("b").map(String::as_str),
        Some("fast")
    );
    assert!(forwarder.outbound_model_overrides.get("provider-a").is_none());
}

#[test]
fn selection_errors_keep_their_kind() {
    let failed = RequestContext::new(
        setup(true),
        &json("{}"),
        &Headers::new(),
        Err(AppError::NoProvidersConfigured),
    );
    assert!(matches!(failed, Err(ProxyError::NoProvidersConfigured)));
    assert!(matches!(
        map_provider_selection_error(AppError::AllProvidersCircuitOpen),
        ProxyError::AllProvidersCircuitOpen
    ));
    assert!(matches!(
        map_provider_selection_error(AppError::Message("x".to_string())),
        ProxyError::DatabaseError(message) if message == "x"
    ));
}

#[test]
fn gemini_requests_name_their_model_in_the_path() {
    let plan = ProviderRoutePlan::standard(vec![provider("a")], false);
    let context = RequestContext::new(setup(false), &json("{}"), &Headers::new(), Ok(plan))
        .expect("context")
        .with_model_from_uri("/v1beta/models/gemini-pro:generateContent");
    assert_eq!(context.request_model, "gemini-pro");
}
