use ccs_proxy::config::{codex_anthropic_cache_config, OptimizerConfig, RectifierConfig};
use ccs_proxy::error::{ErrorCategory, ProxyError};
use ccs_proxy::forwarder::endpoint::{
    append_query_to_full_url, base_url_is_full_endpoint, copilot_api_format, effective_endpoint,
    is_copilot_target, is_streaming_request, merge_query_params, retry_log_model,
    rewrite_claude_transform_endpoint, rewrite_codex_responses_endpoint_to_anthropic,
    rewrite_codex_responses_endpoint_to_chat, should_force_identity_encoding,
    should_preserve_exact_header_case, strip_beta_query, upstream_url, uses_dynamic_endpoint,
    uses_full_url, Conversion, UpstreamUrl,
};
use ccs_proxy::forwarder::log_text::{
    build_retryable_failure_log, build_terminal_failure_log, cache_control_summary,
    cache_key_for_log, summarize_proxy_error,
    summarize_text_for_log, summarize_upstream_body, value_for_log, ALL_PROVIDERS_FAILED,
    PROVIDER_FAILED_RETRY, SINGLE_PROVIDER_FAILED,
};
use ccs_proxy::forwarder::attempt::{plan_attempt, AttemptFacts};
use ccs_proxy::forwarder::native_client::{AdapterKind, NativeClient};
use ccs_proxy::forwarder::outgoing::{outgoing_headers, OutgoingFacts};
use ccs_proxy::forwarder::request_body::{
    apply_local_proxy_body_overrides, apply_model_override, apply_output_ceiling,
    body_optimizations,
    copilot_session_id, final_outbound_model, is_bedrock_provider, media_prevention,
    media_retry_should_trigger, merge_json_override, prepend_claude_code_system_prompt,
    MediaPrevention,
};
use ccs_proxy::forwarder::request_headers::{
    anthropic_beta_value, apply_local_proxy_header_overrides, build_codex_oauth_session_headers, build_upstream_headers,
    custom_user_agent, is_codex_client_fingerprint_header, is_managed_account_upstream_url,
    reject_proxy_placeholder_for_managed_account_upstream, upstream_host,
    validate_codex_official_authorization, HeaderPlan,
};
use ccs_proxy::forwarder::response_body::MAX_RESPONSE_BODY_BYTES;
use ccs_proxy::forwarder::retry::{
    categorize_proxy_error, extract_error_message, role_route_fallback,
};
use ccs_proxy::headers::Headers;
use ccs_proxy::json::{parse_text, Json};
use ccs_proxy::provider::{AppType, LocalProxyRequestOverrides, Provider, ProviderMeta};

const SYSTEM_IDENTITY: &str = "You are the native client.";
const ROUTE_PREFIX: &str = "/native";
const USER_AGENT: &str = "native-cli/1.0.119 (external, cli)";
const BETA: &str = "native-code-20250219";

fn json(text: &str) -> Json {
    parse_text(text).expect("valid JSON")
}

fn headers(entries: &[(&str, &str)]) -> Headers {
    let mut headers = Headers::new();
    for (name, value) in entries {
        headers.append(name, value.as_bytes());
    }
    headers
}

fn provider_with_type(provider_type: Option<&str>) -> Provider {
    Provider {
        id: "provider-1".to_string(),
        name: "Provider 1".to_string(),
        settings_config: json("{}"),
        sort_index: None,
        meta: provider_type.map(|value| ProviderMeta {
            provider_type: Some(value.to_string()),
            ..Default::default()
        }),
        in_failover_queue: false,
        codex_official: false,
        codex_upstream_model: None,
    }
}

fn system_texts(body: &Json) -> Vec<String> {
    body.get_array("system")
        .expect("system blocks")
        .iter()
        .map(|block| block.get_str("text").expect("text").to_string())
        .collect()
}

#[test]
fn single_provider_retryable_log_uses_single_provider_code() {
    let error = ProxyError::UpstreamError {
        status: 429,
        body: Some(r#"{"error":{"message":"rate limit exceeded"}}"#.to_string()),
    };
    let (code, message) = build_retryable_failure_log("PackyCode-response", 1, 1, &error);
    assert_eq!(code, SINGLE_PROVIDER_FAILED);
    assert!(message.contains("Provider PackyCode-response 请求失败"));
    assert!(message.contains("上游 HTTP 429"));
    assert!(message.contains("rate limit exceeded"));
    assert!(!message.contains("切换下一个"));
}

#[test]
fn multi_provider_retryable_log_keeps_failover_wording() {
    let error = ProxyError::Timeout("upstream timed out after 30s".to_string());
    let (code, message) = build_retryable_failure_log("primary", 1, 3, &error);
    assert_eq!(code, PROVIDER_FAILED_RETRY);
    assert!(message.contains("继续尝试下一个 (1/3)"));
    assert!(message.contains("请求超时"));
}

#[test]
fn single_provider_has_no_terminal_all_failed_log() {
    assert!(build_terminal_failure_log(1, 1, None).is_none());
}

#[test]
fn multi_provider_terminal_log_contains_last_error_summary() {
    let error = ProxyError::ForwardFailed("connection reset by peer".to_string());
    let (code, message) =
        build_terminal_failure_log(2, 2, Some(&error)).expect("expected terminal log");
    assert_eq!(code, ALL_PROVIDERS_FAILED);
    assert!(message.contains("已尝试 2/2 个 Provider，均失败"));
    assert!(message.contains("connection reset by peer"));
}

#[test]
fn summarize_text_for_log_collapses_whitespace_and_truncates() {
    let summary = summarize_text_for_log("line1\n\n line2   line3", 12);
    assert_eq!(summary, "line1 line2...");
}

#[test]
fn local_proxy_body_overrides_deep_merge_final_body_without_stream() {
    let mut body = json(
        r#"{"model":"before","stream":false,"metadata":{"keep":true,"temperature":1},
            "messages":[{"role":"user","content":"hello"}]}"#,
    );
    let overrides = LocalProxyRequestOverrides {
        headers: vec![],
        body: Some(json(
            r#"{"model":"after","stream":true,"metadata":{"temperature":0.2,"top_p":0.9},"messages":[]}"#,
        )),
    };

    assert!(apply_local_proxy_body_overrides(&mut body, &overrides));

    assert_eq!(body.get_str("model"), Some("after"));
    assert_eq!(body.get_bool("stream"), Some(false));
    assert_eq!(body.get2("metadata", "keep"), Some(&Json::Bool(true)));
    assert_eq!(body.get2("metadata", "temperature"), Some(&json("0.2")));
    assert_eq!(body.get2("metadata", "top_p"), Some(&json("0.9")));
    assert_eq!(body.get("messages"), Some(&json("[]")));
}

#[test]
fn local_proxy_header_overrides_replace_allowed_headers_only() {
    let mut sent = headers(&[
        ("user-agent", "original"),
        ("authorization", "Bearer good"),
        ("content-type", "application/json"),
    ]);
    let overrides = LocalProxyRequestOverrides {
        headers: vec![
            ("User-Agent".to_string(), "custom".to_string()),
            ("X-Test".to_string(), "ok".to_string()),
            ("Authorization".to_string(), "Bearer bad".to_string()),
            ("Content-Type".to_string(), "text/plain".to_string()),
            ("X-Bad".to_string(), "bad\nvalue".to_string()),
        ],
        body: None,
    };

    apply_local_proxy_header_overrides(&mut sent, Some(&overrides), false);

    assert_eq!(sent.get_text("user-agent").as_deref(), Some("custom"));
    assert_eq!(sent.get_text("authorization").as_deref(), Some("Bearer good"));
    assert_eq!(sent.get_text("content-type").as_deref(), Some("application/json"));
    assert_eq!(sent.get_text("x-test").as_deref(), Some("ok"));
    assert!(!sent.has("x-bad"));
}

#[test]
fn local_proxy_header_overrides_are_skipped_for_copilot() {
    let mut sent = headers(&[("user-agent", "copilot")]);
    let overrides = LocalProxyRequestOverrides {
        headers: vec![("User-Agent".to_string(), "custom".to_string())],
        body: None,
    };
    apply_local_proxy_header_overrides(&mut sent, Some(&overrides), true);
    assert_eq!(sent.get_text("user-agent").as_deref(), Some("copilot"));
}

#[test]
fn codex_oauth_session_headers_match_codex_cache_identity() {
    let sent = build_codex_oauth_session_headers("session-123");
    assert_eq!(sent.get_text("session_id").as_deref(), Some("session-123"));
    assert_eq!(
        sent.get_text("x-client-request-id").as_deref(),
        Some("session-123")
    );
    assert_eq!(
        sent.get_text("x-codex-window-id").as_deref(),
        Some("session-123:0")
    );
}

#[test]
fn managed_account_upstream_rejects_proxy_managed_placeholder_header() {
    let sent = headers(&[("authorization", "Bearer PROXY_MANAGED")]);
    for url in [
        "https://api.githubcopilot.com/chat/completions",
        "https://api.x.ai/v1/responses",
    ] {
        let error = reject_proxy_placeholder_for_managed_account_upstream(url, &sent)
            .expect_err("placeholder should be rejected before upstream");
        assert!(matches!(
            error,
            ProxyError::AuthError(message) if message.contains("PROXY_MANAGED")
        ));
    }
}

#[test]
fn codex_oauth_upstream_rejects_proxy_managed_placeholder_header() {
    let sent = headers(&[("authorization", "Bearer PROXY_MANAGED")]);
    let error = reject_proxy_placeholder_for_managed_account_upstream(
        "https://chatgpt.com/backend-api/codex/responses",
        &sent,
    )
    .expect_err("placeholder should be rejected before upstream");
    assert!(matches!(
        error,
        ProxyError::AuthError(message) if message.contains("PROXY_MANAGED")
    ));
}

#[test]
fn non_managed_upstream_allows_proxy_managed_placeholder_guard() {
    let sent = headers(&[("authorization", "Bearer PROXY_MANAGED")]);
    reject_proxy_placeholder_for_managed_account_upstream(
        "https://api.example.com/v1/messages",
        &sent,
    )
    .expect("guard is scoped to managed-account upstreams");
}

#[test]
fn exact_header_case_preserved_for_native_claude_only() {
    let provider = provider_with_type(None);
    assert!(should_preserve_exact_header_case(
        AdapterKind::Claude,
        &provider,
        Some("anthropic"),
        false
    ));
    assert!(!should_preserve_exact_header_case(
        AdapterKind::Claude,
        &provider,
        Some("openai_responses"),
        false
    ));
    assert!(!should_preserve_exact_header_case(
        AdapterKind::Codex, &provider, None, false
    ));
    assert!(!should_preserve_exact_header_case(
        AdapterKind::Gemini, &provider, None, false
    ));
}

#[test]
fn exact_header_case_skipped_for_codex_oauth_and_copilot() {
    let codex_oauth = provider_with_type(Some("codex_oauth"));
    let copilot = provider_with_type(Some("github_copilot"));
    assert!(!should_preserve_exact_header_case(
        AdapterKind::Claude,
        &codex_oauth,
        Some("openai_responses"),
        false
    ));
    assert!(!should_preserve_exact_header_case(
        AdapterKind::Claude,
        &copilot,
        Some("openai_chat"),
        true
    ));
}

#[test]
fn rewrite_claude_transform_endpoint_strips_beta_for_chat_completions() {
    let (endpoint, passthrough_query) = rewrite_claude_transform_endpoint(
        "/v1/messages?beta=true&foo=bar",
        "openai_chat",
        false,
        &json(r#"{"model":"gpt-5.4"}"#),
        ROUTE_PREFIX,
    );
    assert_eq!(endpoint, "/v1/chat/completions?foo=bar");
    assert_eq!(passthrough_query.as_deref(), Some("foo=bar"));
}

#[test]
fn rewrite_claude_transform_endpoint_strips_beta_for_responses() {
    let (endpoint, passthrough_query) = rewrite_claude_transform_endpoint(
        "/native/v1/messages?beta=true&x-id=1",
        "openai_responses",
        false,
        &json(r#"{"model":"gpt-5.4"}"#),
        ROUTE_PREFIX,
    );
    assert_eq!(endpoint, "/v1/responses?x-id=1");
    assert_eq!(passthrough_query.as_deref(), Some("x-id=1"));
}

#[test]
fn rewrite_codex_responses_endpoint_to_chat_preserves_query() {
    let (endpoint, passthrough_query) =
        rewrite_codex_responses_endpoint_to_chat("/v1/responses?foo=bar");
    assert_eq!(endpoint, "/chat/completions?foo=bar");
    assert_eq!(passthrough_query.as_deref(), Some("foo=bar"));
}

#[test]
fn prepend_claude_code_system_prompt_from_string() {
    let mut body = json(r#"{"system":"You are a Codex agent."}"#);
    prepend_claude_code_system_prompt(&mut body, SYSTEM_IDENTITY);
    assert_eq!(
        system_texts(&body),
        [SYSTEM_IDENTITY, "You are a Codex agent."]
    );
}

#[test]
fn prepend_claude_code_system_prompt_when_absent() {
    let mut body = json("{}");
    prepend_claude_code_system_prompt(&mut body, SYSTEM_IDENTITY);
    assert_eq!(system_texts(&body), [SYSTEM_IDENTITY]);
}

#[test]
fn prepend_claude_code_system_prompt_is_idempotent() {
    let mut body = json(r#"{"system":"orig"}"#);
    prepend_claude_code_system_prompt(&mut body, SYSTEM_IDENTITY);
    prepend_claude_code_system_prompt(&mut body, SYSTEM_IDENTITY);
    assert_eq!(system_texts(&body), [SYSTEM_IDENTITY, "orig"]);
}

#[test]
fn rewrite_codex_responses_endpoint_to_anthropic_preserves_query() {
    let (endpoint, passthrough_query) =
        rewrite_codex_responses_endpoint_to_anthropic("/responses?x=1");
    assert_eq!(endpoint, "/v1/messages?x=1");
    assert_eq!(passthrough_query.as_deref(), Some("x=1"));
    let (endpoint, _) = rewrite_codex_responses_endpoint_to_anthropic("/v1/responses");
    assert_eq!(endpoint, "/v1/messages");
}

#[test]
fn codex_anthropic_full_endpoint_guard_avoids_double_messages() {
    for base in [
        "https://host.example/v1/messages",
        "https://host.example/v1/messages/",
        "https://host.example/api/v1/messages",
        "https://host.example/v1/messages?beta=true",
        "https://host.example/v1/messages/?beta=true",
        "https://host.example/v1/messages#frag",
        "  https://host.example/v1/messages  ",
    ] {
        assert!(
            base_url_is_full_endpoint(base, "/v1/messages"),
            "expected full-endpoint match: {base:?}"
        );
    }
    assert_eq!(
        append_query_to_full_url("https://host.example/v1/messages", Some("x=1")),
        "https://host.example/v1/messages?x=1"
    );
    assert_eq!(
        append_query_to_full_url("https://host.example/v1/messages?beta=true", None),
        "https://host.example/v1/messages?beta=true"
    );
    assert!(!base_url_is_full_endpoint(
        "https://host.example",
        "/v1/messages"
    ));
    assert!(!base_url_is_full_endpoint(
        "https://host.example/v1",
        "/v1/messages"
    ));
    assert!(base_url_is_full_endpoint(
        "https://host.example/v1/chat/completions?api-version=2024",
        "/chat/completions"
    ));
}

#[test]
fn codex_client_fingerprint_headers_are_dropped_for_anthropic_upstreams() {
    for header in [
        "originator",
        "session_id",
        "session-id",
        "thread-id",
        "conversation_id",
        "chatgpt-account-id",
        "x-openai-subagent",
        "x-client-request-id",
        "x-codex-window-id",
        "openai-beta",
        "openai-organization",
        "openai-project",
        "x-stainless-lang",
        "x-stainless-runtime",
        "x-codex-turn-id",
    ] {
        assert!(
            is_codex_client_fingerprint_header(header),
            "expected {header} to be dropped while impersonating the native client"
        );
    }
    for header in [
        "anthropic-version",
        "anthropic-beta",
        "user-agent",
        "accept",
        "content-type",
        "x-app",
    ] {
        assert!(
            !is_codex_client_fingerprint_header(header),
            "{header} must be preserved while impersonating the native client"
        );
    }
}

#[test]
fn codex_anthropic_cache_is_default_on_but_honors_sub_switch() {
    let default = codex_anthropic_cache_config(&OptimizerConfig::default());
    assert!(default.enabled);
    assert!(default.cache_injection);
    let disabled = codex_anthropic_cache_config(&OptimizerConfig {
        cache_injection: false,
        ..OptimizerConfig::default()
    });
    assert!(disabled.enabled);
    assert!(!disabled.cache_injection);
}

#[test]
fn invalid_client_history_is_not_retryable() {
    assert_eq!(
        categorize_proxy_error(
            &ProxyError::InvalidRequest("invalid historical tool arguments".to_string()),
            &provider_with_type(None),
        ),
        ErrorCategory::NonRetryable
    );
}

#[test]
fn official_codex_auth_failures_are_not_retryable() {
    let mut provider = provider_with_type(None);
    provider.id = "codex-official".to_string();
    provider.codex_official = true;
    for error in [
        ProxyError::AuthError("restart Codex".to_string()),
        ProxyError::UpstreamError {
            status: 401,
            body: None,
        },
        ProxyError::UpstreamError {
            status: 403,
            body: None,
        },
    ] {
        assert_eq!(
            categorize_proxy_error(&error, &provider),
            ErrorCategory::NonRetryable
        );
    }
}

#[test]
fn response_body_too_large_and_ordinary_400_stop_before_role_fallback() {
    let provider = provider_with_type(None);
    assert_eq!(
        categorize_proxy_error(
            &ProxyError::ResponseBodyTooLarge(MAX_RESPONSE_BODY_BYTES + 1),
            &provider,
        ),
        ErrorCategory::NonRetryable
    );
    assert_eq!(
        categorize_proxy_error(
            &ProxyError::UpstreamError {
                status: 400,
                body: Some(r#"{"error":{"message":"ordinary bad request"}}"#.to_string()),
            },
            &provider,
        ),
        ErrorCategory::NonRetryable
    );
    assert!(!role_route_fallback(0));
    assert!(role_route_fallback(1));
}

#[test]
fn xai_oauth_token_auth_failures_are_not_retryable() {
    let provider = provider_with_type(Some("xai_oauth"));
    assert_eq!(
        categorize_proxy_error(
            &ProxyError::AuthError("xAI OAuth 认证失败".to_string()),
            &provider,
        ),
        ErrorCategory::NonRetryable
    );
    assert_eq!(
        categorize_proxy_error(
            &ProxyError::UpstreamError {
                status: 401,
                body: None,
            },
            &provider,
        ),
        ErrorCategory::Retryable
    );
}

#[test]
fn official_codex_rejects_stale_proxy_placeholder_with_restart_hint() {
    let sent = headers(&[("authorization", "Bearer PROXY_MANAGED")]);
    let error = validate_codex_official_authorization(&sent)
        .expect_err("stale placeholder must be rejected");
    assert!(matches!(error, ProxyError::AuthError(message) if message.contains("重启 Codex")));
}

#[test]
fn rewrite_codex_responses_compact_endpoint_to_chat_preserves_query() {
    let (endpoint, passthrough_query) =
        rewrite_codex_responses_endpoint_to_chat("/v1/responses/compact?foo=bar");
    assert_eq!(endpoint, "/chat/completions?foo=bar");
    assert_eq!(passthrough_query.as_deref(), Some("foo=bar"));
}

#[test]
fn rewrite_claude_transform_endpoint_uses_copilot_path() {
    let (endpoint, passthrough_query) = rewrite_claude_transform_endpoint(
        "/v1/messages?beta=true&x-id=1",
        "anthropic",
        true,
        &json(r#"{"model":"sonnet-4-6"}"#),
        ROUTE_PREFIX,
    );
    assert_eq!(endpoint, "/chat/completions?x-id=1");
    assert_eq!(passthrough_query.as_deref(), Some("x-id=1"));
}

#[test]
fn rewrite_claude_transform_endpoint_uses_copilot_responses_path() {
    let (endpoint, passthrough_query) = rewrite_claude_transform_endpoint(
        "/v1/messages?beta=true&x-id=1",
        "openai_responses",
        true,
        &json(r#"{"model":"gpt-5.4"}"#),
        ROUTE_PREFIX,
    );
    assert_eq!(endpoint, "/v1/responses?x-id=1");
    assert_eq!(passthrough_query.as_deref(), Some("x-id=1"));
}

#[test]
fn rewrite_claude_transform_endpoint_maps_gemini_generate_content() {
    let (endpoint, passthrough_query) = rewrite_claude_transform_endpoint(
        "/v1/messages?beta=true&x-id=1",
        "gemini_native",
        false,
        &json(r#"{"model":"gemini-2.5-pro"}"#),
        ROUTE_PREFIX,
    );
    assert_eq!(
        endpoint,
        "/v1beta/models/gemini-2.5-pro:generateContent?x-id=1"
    );
    assert_eq!(passthrough_query.as_deref(), Some("x-id=1"));
}

#[test]
fn rewrite_claude_transform_endpoint_strips_gemini_model_resource_prefix() {
    let (endpoint, _) = rewrite_claude_transform_endpoint(
        "/v1/messages",
        "gemini_native",
        false,
        &json(r#"{"model":"models/gemini-2.5-pro"}"#),
        ROUTE_PREFIX,
    );
    assert_eq!(endpoint, "/v1beta/models/gemini-2.5-pro:generateContent");
}

#[test]
fn rewrite_claude_transform_endpoint_maps_gemini_streaming() {
    let (endpoint, passthrough_query) = rewrite_claude_transform_endpoint(
        "/v1/messages?beta=true",
        "gemini_native",
        false,
        &json(r#"{"model":"gemini-2.5-flash","stream":true}"#),
        ROUTE_PREFIX,
    );
    assert_eq!(
        endpoint,
        "/v1beta/models/gemini-2.5-flash:streamGenerateContent?alt=sse"
    );
    assert_eq!(passthrough_query.as_deref(), Some("alt=sse"));
}

#[test]
fn append_query_to_full_url_preserves_existing_query_string() {
    let url = append_query_to_full_url("https://relay.example/api?foo=bar", Some("x-id=1"));
    assert_eq!(url, "https://relay.example/api?foo=bar&x-id=1");
}

#[test]
fn force_identity_for_stream_flag_requests() {
    assert!(should_force_identity_encoding(
        "/v1/responses",
        &json(r#"{"stream":true}"#),
        &Headers::new()
    ));
}

#[test]
fn force_identity_for_gemini_stream_endpoints() {
    assert!(should_force_identity_encoding(
        "/v1beta/models/gemini-2.5-pro:streamGenerateContent?alt=sse",
        &json(r#"{"model":"gemini-2.5-pro"}"#),
        &Headers::new()
    ));
}

#[test]
fn streaming_request_detects_gemini_sse_without_body_stream_flag() {
    assert!(is_streaming_request(
        "/v1beta/models/gemini-2.5-pro:streamGenerateContent?alt=sse",
        &json(r#"{"model":"gemini-2.5-pro"}"#),
        &Headers::new()
    ));
}

#[test]
fn retry_log_model_reads_gemini_native_endpoint() {
    assert_eq!(
        retry_log_model(
            AppType::Gemini,
            "/v1beta/models/gemini-2.5-pro:streamGenerateContent?alt=sse",
            &json("{}")
        ),
        "gemini-2.5-pro"
    );
}

#[test]
fn force_identity_for_sse_accept_header() {
    let sent = headers(&[("accept", "text/event-stream")]);
    assert!(should_force_identity_encoding(
        "/v1/responses",
        &json(r#"{"model":"gpt-5"}"#),
        &sent
    ));
}

#[test]
fn force_identity_for_mixed_case_sse_accept_header() {
    let sent = headers(&[("accept", "Text/Event-Stream")]);
    assert!(is_streaming_request(
        "/v1/responses",
        &json(r#"{"model":"gpt-5"}"#),
        &sent
    ));
    assert!(should_force_identity_encoding(
        "/v1/responses",
        &json(r#"{"model":"gpt-5"}"#),
        &sent
    ));
}

#[test]
fn non_streaming_requests_allow_automatic_compression() {
    assert!(!should_force_identity_encoding(
        "/v1/responses",
        &json(r#"{"model":"gpt-5"}"#),
        &Headers::new()
    ));
}

#[test]
fn copilot_detection_via_provider_type() {
    let provider = provider_with_type(Some("github_copilot"));
    assert!(is_copilot_target(&provider, "https://api.anthropic.com"));
}

#[test]
fn copilot_detection_via_base_url() {
    let provider = provider_with_type(None);
    assert!(is_copilot_target(&provider, "https://api.githubcopilot.com"));
    assert!(!is_copilot_target(&provider, "https://api.anthropic.com"));
}

#[test]
fn copilot_detection_for_enterprise_endpoint() {
    let provider = provider_with_type(Some("github_copilot"));
    assert!(is_copilot_target(
        &provider,
        "https://copilot-api.corp.example.com"
    ));
}

#[test]
fn dynamic_endpoint_replacement_conditions() {
    let test_cases = [
        (true, false, true),
        (true, true, false),
        (false, false, false),
        (false, true, false),
    ];
    for (is_copilot, is_full_url, should_replace) in test_cases {
        assert_eq!(
            uses_dynamic_endpoint(is_copilot, is_full_url),
            should_replace
        );
    }
}

#[test]
fn prevention_skipped_when_media_fallback_off() {
    let config = RectifierConfig {
        request_media_fallback: false,
        ..RectifierConfig::default()
    };
    assert_eq!(media_prevention(&config), MediaPrevention::Off);
}

#[test]
fn prevention_skipped_when_master_switch_off() {
    let config = RectifierConfig {
        enabled: false,
        ..RectifierConfig::default()
    };
    assert_eq!(media_prevention(&config), MediaPrevention::Off);
}

#[test]
fn prevention_heuristic_off_skips_list_but_keeps_explicit_text_only() {
    let config = RectifierConfig {
        request_media_heuristic: false,
        ..RectifierConfig::default()
    };
    assert_eq!(media_prevention(&config), MediaPrevention::Declared);
    assert_eq!(
        media_prevention(&RectifierConfig::default()),
        MediaPrevention::DeclaredOrGuessed
    );
}

#[test]
fn reactive_triggers_when_all_switches_on() {
    let config = RectifierConfig::default();
    assert!(media_retry_should_trigger(&config, AdapterKind::Claude, false, true, true));
    assert!(media_retry_should_trigger(&config, AdapterKind::Codex, false, true, true));
    assert!(!media_retry_should_trigger(&config, AdapterKind::Gemini, false, true, true));
    assert!(!media_retry_should_trigger(&config, AdapterKind::Claude, true, true, true));
}

#[test]
fn reactive_does_not_treat_context_limit_as_image_rejection() {
    let config = RectifierConfig::default();
    assert!(!media_retry_should_trigger(&config, AdapterKind::Codex, false, true, false));
    assert!(!media_retry_should_trigger(&config, AdapterKind::Codex, false, false, true));
}

#[test]
fn reactive_skipped_when_media_fallback_off() {
    let config = RectifierConfig {
        request_media_fallback: false,
        ..RectifierConfig::default()
    };
    assert!(!media_retry_should_trigger(&config, AdapterKind::Claude, false, true, true));
}

#[test]
fn reactive_skipped_when_master_switch_off() {
    let config = RectifierConfig {
        enabled: false,
        ..RectifierConfig::default()
    };
    assert!(!media_retry_should_trigger(&config, AdapterKind::Claude, false, true, true));
}

#[test]
fn reactive_unaffected_by_heuristic_switch() {
    let config = RectifierConfig {
        request_media_heuristic: false,
        ..RectifierConfig::default()
    };
    assert!(media_retry_should_trigger(&config, AdapterKind::Claude, false, true, true));
}

#[test]
fn merging_an_override_twice_changes_nothing_more() {
    let patch = json(r#"{"a":{"b":1},"stream":true,"c":[1,2]}"#);
    let mut body = json(r#"{"a":{"x":2},"stream":false}"#);
    assert!(merge_json_override(&mut body, &patch));
    let once = body.copy();
    assert!(!merge_json_override(&mut body, &patch));
    assert!(body.same(&once));
    assert_eq!(body.get2("a", "x"), Some(&json("2")));
    assert_eq!(body.get2("a", "b"), Some(&json("1")));
    assert_eq!(body.get_bool("stream"), Some(false));
    let mut zero = json(r#"{"temperature":0.0}"#);
    assert!(!merge_json_override(&mut zero, &json(r#"{"temperature":-0.0}"#)));
    assert!(zero.same(&json(r#"{"temperature":0.0}"#)));
    assert!(merge_json_override(&mut zero, &json(r#"{"temperature":0.5}"#)));
}

#[test]
fn a_merge_keeps_what_the_patch_lacks_and_tells_whether_it_changed_anything() {
    let start = r#"{"a":1,"b":{"x":1,"y":2},"stream":false}"#;
    let mut body = json(start);
    assert!(!merge_json_override(&mut body, &json(r#"{"b":{"y":2},"stream":true}"#)));
    assert!(body.same(&json(start)));
    assert!(merge_json_override(&mut body, &json(r#"{"b":{"y":3},"c":[1]}"#)));
    assert!(body.same(&json(r#"{"a":1,"b":{"x":1,"y":3},"stream":false,"c":[1]}"#)));
}

#[test]
fn bodies_of_every_kind_pass_where_nothing_is_set() {
    let mut provider = provider_with_type(Some("anthropic"));
    for limit in [None, Some(0)] {
        if let Some(meta) = &mut provider.meta {
            meta.max_output_tokens = limit;
        }
        for text in ["[]", r#""x""#, "7", "true", "null", "{}"] {
            let mut body = json(text);
            apply_model_override(&mut body, &None);
            apply_output_ceiling(&mut body, &provider);
            assert!(body.same(&json(text)));
        }
    }
}

#[test]
fn client_credentials_and_hop_headers_stay_behind() {
    let plan = HeaderPlan {
        upstream_host: Some("api.example.com".to_string()),
        auth_headers: headers(&[("authorization", "Bearer upstream")]),
        official_auth_passthrough: false,
        codex_to_anthropic: false,
        impersonate_claude_code: false,
        force_identity: true,
        is_copilot: false,
        custom_user_agent: None,
        anthropic_beta: None,
        send_anthropic_headers: false,
        session_headers: Headers::new(),
    };
    let client = headers(&[
        ("host", "127.0.0.1:15721"),
        ("authorization", "Bearer client"),
        ("x-api-key", "client-key"),
        ("x-cc-switch-role-route", "frontend"),
        ("accept-encoding", "gzip"),
        ("x-kept", "yes"),
    ]);
    let sent = build_upstream_headers(&plan, &client);
    assert_eq!(sent.texts("authorization"), vec!["Bearer upstream"]);
    assert!(!sent.has("x-api-key"));
    assert!(!sent.has("x-cc-switch-role-route"));
    assert_eq!(sent.get_text("accept-encoding").as_deref(), Some("identity"));
    assert_eq!(sent.get_text("x-kept").as_deref(), Some("yes"));
    assert_eq!(sent.get_text("host").as_deref(), Some("api.example.com"));
}

#[test]
fn hosts_and_managed_upstreams_are_read_from_urls() {
    assert_eq!(
        upstream_host("https://api.example.com:8443/v1?x=1").as_deref(),
        Some("api.example.com:8443")
    );
    assert_eq!(upstream_host("not a url"), None);
    assert!(is_managed_account_upstream_url(
        "https://chatgpt.com/backend-api/codex"
    ));
    assert!(!is_managed_account_upstream_url("https://chatgpt.com/other"));
}

#[test]
fn user_agents_are_replaced_only_where_allowed() {
    assert_eq!(
        custom_user_agent(false, Some(b"mine".to_vec()), true, USER_AGENT),
        Some(b"mine".to_vec())
    );
    assert_eq!(
        custom_user_agent(false, None, true, USER_AGENT),
        Some(USER_AGENT.as_bytes().to_vec())
    );
    assert_eq!(
        custom_user_agent(true, Some(b"mine".to_vec()), false, USER_AGENT),
        None
    );
    let asked = headers(&[("anthropic-beta", "other-1")]);
    assert_eq!(
        anthropic_beta_value(true, &asked, false, false, BETA).as_deref(),
        Some("native-code-20250219,other-1")
    );
    assert_eq!(
        anthropic_beta_value(false, &asked, true, true, BETA).as_deref(),
        Some("native-code-20250219,context-1m-2025-08-07")
    );
    assert_eq!(anthropic_beta_value(false, &asked, false, false, BETA), None);
}

#[test]
fn beta_never_goes_upstream() {
    assert_eq!(strip_beta_query(Some("beta=true&a=1")).as_deref(), Some("a=1"));
    assert_eq!(strip_beta_query(Some("beta=true")), None);
    assert_eq!(
        merge_query_params(Some("a=1"), Some("alt=sse")).as_deref(),
        Some("a=1&alt=sse")
    );
}

#[test]
fn targets_follow_the_conversion() {
    let body = json(r#"{"model":"m"}"#);
    assert_eq!(
        effective_endpoint(Conversion::CodexToChat, "/v1/responses?a=1", "", false, &body, ROUTE_PREFIX),
        ("/chat/completions?a=1".to_string(), Some("a=1".to_string()))
    );
    assert_eq!(
        effective_endpoint(Conversion::Passthrough, "/v1/responses?a=1", "", false, &body, ROUTE_PREFIX),
        ("/v1/responses?a=1".to_string(), Some("a=1".to_string()))
    );
    assert!(matches!(
        upstream_url(
            Conversion::CodexToAnthropic,
            None,
            "https://h.example/v1/messages",
            false,
            Some("a=1")
        ),
        UpstreamUrl::Full(url) if url == "https://h.example/v1/messages?a=1"
    ));
    assert_eq!(copilot_api_format(Some("OpenAI")), "openai_responses");
    assert_eq!(copilot_api_format(None), "openai_chat");
}

#[test]
fn full_urls_are_not_used_for_managed_accounts() {
    let mut provider = provider_with_type(Some("anthropic"));
    if let Some(meta) = &mut provider.meta {
        meta.is_full_url = Some(true);
    }
    assert!(uses_full_url(&provider));
    if let Some(meta) = &mut provider.meta {
        meta.provider_type = Some("codex_oauth".to_string());
    }
    assert!(!uses_full_url(&provider));
}

#[test]
fn summaries_name_the_error_and_stay_short() {
    assert_eq!(
        summarize_upstream_body(r#"{"error":{"message":"a  b"}}"#),
        "a b"
    );
    assert_eq!(summarize_upstream_body(r#"{ "x" : [ 1 ] }"#), r#"{"x":[1]}"#);
    assert_eq!(summarize_upstream_body("plain\ntext"), "plain text");
    let long = "x".repeat(500);
    assert_eq!(summarize_text_for_log(&long, 180).chars().count(), 183);
    assert!(summarize_proxy_error(&ProxyError::Timeout("t".to_string())).contains("请求超时"));
}

#[test]
fn sessions_are_found_in_order_of_trust() {
    let body = json(r#"{"metadata":{"user_id":"u","session_id":"s"}}"#);
    let sent = headers(&[("x-session-id", "h")]);
    assert_eq!(copilot_session_id(Some("p".to_string()), &body, &sent), "p");
    assert_eq!(copilot_session_id(None, &body, &sent), "s");
    assert_eq!(
        copilot_session_id(None, &json(r#"{"metadata":{"user_id":"u"}}"#), &sent),
        "u"
    );
    assert_eq!(copilot_session_id(None, &json("{}"), &sent), "h");
    assert_eq!(copilot_session_id(None, &json("{}"), &Headers::new()), "");
}

#[test]
fn models_and_messages_are_read_from_what_was_sent() {
    assert_eq!(
        final_outbound_model(Some("old".to_string()), &json(r#"{"model":"new"}"#)).as_deref(),
        Some("new")
    );
    assert_eq!(
        final_outbound_model(Some("old".to_string()), &json(r#"{"model":""}"#)).as_deref(),
        Some("old")
    );
    assert_eq!(
        extract_error_message(&ProxyError::UpstreamError {
            status: 400,
            body: Some("b".to_string())
        })
        .as_deref(),
        Some("b")
    );
    assert_eq!(
        extract_error_message(&ProxyError::ConfigError("c".to_string())).as_deref(),
        Some("配置错误: c")
    );
}

#[test]
fn other_statuses_leave_room_for_another_provider() {
    let provider = provider_with_type(None);
    for (status, expected) in [
        (404, ErrorCategory::Retryable),
        (429, ErrorCategory::Retryable),
        (500, ErrorCategory::Retryable),
        (422, ErrorCategory::NonRetryable),
        (501, ErrorCategory::NonRetryable),
    ] {
        assert_eq!(
            categorize_proxy_error(&ProxyError::UpstreamError { status, body: None }, &provider),
            expected
        );
    }
    assert_eq!(
        categorize_proxy_error(&ProxyError::NoAvailableProvider, &provider),
        ErrorCategory::NonRetryable
    );
}

#[test]
fn marks_for_caching_are_counted_and_listed() {
    assert_eq!(cache_control_summary(&json("{}")), "count=0,ttls=none");
    let body = json(
        r#"{"system":[{"text":"a","cache_control":{"ttl":"5m"}},{"cache_control":{}}],
            "tools":{"cache_control":{"ttl":"1h"},"x":{"cache_control":{"ttl":"5m"}}}}"#,
    );
    assert_eq!(cache_control_summary(&body), "count=4,ttls=1h|5m|default");
    assert_eq!(value_for_log(&json("[1,2]")), "array(len=2)");
    assert_eq!(value_for_log(&json(r#"{"a":1}"#)), "object(len=1)");
    assert_eq!(value_for_log(&json("true")), "true");
    assert_eq!(value_for_log(&json("-3")), "-3");
    assert_eq!(value_for_log(&json("null")), "null");
    assert_eq!(value_for_log(&json("\"s\"")), "s");
    assert_eq!(cache_key_for_log(&json(r#"{"prompt_cache_key":"abcd"}"#)), "present(len=4)");
    assert_eq!(cache_key_for_log(&json("{}")), "absent");
}

#[test]
fn only_bedrock_requests_are_tuned() {
    let config = OptimizerConfig {
        enabled: true,
        ..OptimizerConfig::default()
    };
    let mut provider = provider_with_type(Some("anthropic"));
    assert_eq!(body_optimizations(&config, &provider), (false, false));
    provider.settings_config = json(r#"{"env":{"CLAUDE_CODE_USE_BEDROCK":"1"}}"#);
    assert!(is_bedrock_provider(&provider));
    assert_eq!(body_optimizations(&config, &provider), (true, true));
    if let Some(meta) = &mut provider.meta {
        meta.max_output_tokens = Some(77);
    }
    let mut body = json("{}");
    apply_output_ceiling(&mut body, &provider);
    assert_eq!(body.get("max_output_tokens"), Some(&json("77")));
}

#[test]
fn outgoing_headers_are_made_as_a_whole() {
    let native = NativeClient {
        route_prefix: ROUTE_PREFIX.to_string(),
        identity: SYSTEM_IDENTITY.to_string(),
        beta: BETA.to_string(),
        user_agent: USER_AGENT.to_string(),
    };
    let facts = AttemptFacts {
        wants_chat: false,
        wants_anthropic: true,
        needs_transform: false,
        claude_adapter: false,
        is_copilot: false,
        needs_flat_tools: false,
        model_is_fixed: false,
    };
    let mut target = provider_with_type(Some("anthropic"));
    if let Some(meta) = &mut target.meta {
        meta.impersonate_claude_code = Some(true);
        meta.local_proxy_request_overrides = Some(LocalProxyRequestOverrides {
            headers: vec![("x-extra".to_string(), "1".to_string())],
            body: None,
        });
    }
    let request = |url: &str, token: &str| OutgoingFacts {
        app_type: AppType::Codex,
        facts,
        plan: plan_attempt(AppType::Codex, &target, facts),
        adapter: AdapterKind::Codex,
        claude_api_format: None,
        streaming: false,
        one_m_context: true,
        url: url.to_string(),
        auth_headers: headers(&[("authorization", token)]),
        account_id: None,
        classification: None,
        by_class: false,
        user_agent: None,
        session_id: Some("s".to_string()),
    };
    let client = headers(&[
        ("originator", "codex"),
        ("user-agent", "codex_cli_rs"),
        ("authorization", "Bearer client"),
    ]);
    let sent = outgoing_headers(
        request("https://gateway.example/v1/messages", "Bearer key"),
        &target,
        &client,
        &native,
    )
    .expect("headers");
    assert_eq!(sent.texts("authorization"), vec!["Bearer key"]);
    assert_eq!(sent.get_text("user-agent").as_deref(), Some(USER_AGENT));
    assert_eq!(
        sent.get_text("anthropic-beta").as_deref(),
        Some("native-code-20250219,context-1m-2025-08-07")
    );
    assert_eq!(sent.get_text("anthropic-version").as_deref(), Some("2023-06-01"));
    assert_eq!(sent.get_text("x-app").as_deref(), Some("cli"));
    assert_eq!(sent.get_text("x-extra").as_deref(), Some("1"));
    assert_eq!(sent.get_text("session_id").as_deref(), Some("s"));
    assert_eq!(sent.get_text("content-type").as_deref(), Some("application/json"));
    assert!(!sent.has("originator"));
    let refused = outgoing_headers(
        request("https://api.x.ai/v1/responses", "Bearer PROXY_MANAGED"),
        &target,
        &client,
        &native,
    );
    assert!(matches!(refused, Err(ProxyError::AuthError(_))));
}
