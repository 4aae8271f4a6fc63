use ccs_proxy::codex_auto_review::{
    apply_fallback, apply_initial_policy, configured_mode, fallback_after_error, fallback_model,
    is_auto_review_model, is_model_unavailable_error, is_responses_endpoint,
};
use ccs_proxy::error::ProxyError;
use ccs_proxy::json::{parse_text, Json};
use ccs_proxy::provider::{AppType, CodexAutoReviewMode, Provider, ProviderMeta};

const AUTO_REVIEW_MODEL: &str = "codex-auto-review";

fn json(text: &str) -> Json {
    parse_text(text).expect("valid JSON")
}

fn model_body(model: &str) -> Json {
    json(&format!(r#"{{"model":"{model}"}}"#))
}

fn provider(mode: Option<CodexAutoReviewMode>, fallback: Option<&str>) -> Provider {
    Provider {
        id: "provider-1".to_string(),
        name: "Provider".to_string(),
        settings_config: json(r#"{"config":"model = \"provider-default\"\n"}"#),
        sort_index: None,
        meta: Some(ProviderMeta {
            codex_auto_review_mode: mode,
            codex_auto_review_fallback_model: fallback.map(ToString::to_string),
            ..ProviderMeta::default()
        }),
        in_failover_queue: false,
        codex_official: false,
        codex_upstream_model: Some("provider-default".to_string()),
    }
}

fn unavailable_error(status: u16, message: &str) -> ProxyError {
    ProxyError::UpstreamError {
        status,
        body: Some(message.to_string()),
    }
}

#[test]
fn native_mode_preserves_internal_model() {
    let provider = provider(None, Some("gpt-5.6-sol"));
    let mut body = model_body(AUTO_REVIEW_MODEL);
    assert_eq!(
        apply_initial_policy(AppType::Codex, "/v1/responses", &provider, &mut body),
        None
    );
    assert_eq!(body.get_str("model"), Some(AUTO_REVIEW_MODEL));
}

#[test]
fn fallback_mode_rewrites_before_first_request() {
    let provider = provider(Some(CodexAutoReviewMode::Fallback), Some("gpt-5.6-sol"));
    let mut body = json(r#"{"model":"codex-auto-review","input":"review"}"#);
    assert_eq!(
        apply_initial_policy(AppType::Codex, "/v1/responses", &provider, &mut body),
        Some("gpt-5.6-sol".to_string())
    );
    assert_eq!(body.get_str("model"), Some("gpt-5.6-sol"));
    assert_eq!(body.get_str("input"), Some("review"));
}

#[test]
fn fallback_mode_uses_provider_default_when_explicit_model_is_empty() {
    let provider = provider(Some(CodexAutoReviewMode::Fallback), Some("  "));
    let mut body = model_body(AUTO_REVIEW_MODEL);
    assert_eq!(
        apply_initial_policy(AppType::Codex, "/responses", &provider, &mut body),
        Some("provider-default".to_string())
    );
    assert_eq!(body.get_str("model"), Some("provider-default"));
}

#[test]
fn auto_mode_retries_explicit_model_unavailable_error() {
    let provider = provider(Some(CodexAutoReviewMode::Auto), Some("gpt-5.6-sol"));
    let body = model_body(AUTO_REVIEW_MODEL);
    let error = unavailable_error(
        503,
        "No available channel for model codex-auto-review under group default",
    );
    assert_eq!(
        fallback_after_error(AppType::Codex, "/v1/responses", &provider, &body, &error),
        Some("gpt-5.6-sol".to_string())
    );
}

#[test]
fn auto_mode_does_not_retry_unrelated_errors() {
    let provider = provider(Some(CodexAutoReviewMode::Auto), Some("gpt-5.6-sol"));
    let body = model_body(AUTO_REVIEW_MODEL);
    for error in [
        unavailable_error(401, "model not found"),
        unavailable_error(403, "forbidden"),
        unavailable_error(429, "rate limited"),
        unavailable_error(503, "temporarily unavailable"),
        unavailable_error(404, "The requested endpoint does not exist"),
        unavailable_error(422, "Tool web_search does not exist"),
    ] {
        assert_eq!(
            fallback_after_error(AppType::Codex, "/v1/responses", &provider, &body, &error),
            None
        );
    }
}

#[test]
fn auto_mode_retries_model_does_not_exist_error() {
    let provider = provider(Some(CodexAutoReviewMode::Auto), Some("gpt-5.6-sol"));
    let body = model_body(AUTO_REVIEW_MODEL);
    let error = unavailable_error(404, "The model codex-auto-review does not exist");
    assert_eq!(
        fallback_after_error(AppType::Codex, "/v1/responses", &provider, &body, &error),
        Some("gpt-5.6-sol".to_string())
    );
}

#[test]
fn auto_mode_does_not_retry_generic_gateway_failures() {
    let provider = provider(Some(CodexAutoReviewMode::Auto), Some("gpt-5.6-sol"));
    let body = model_body(AUTO_REVIEW_MODEL);
    for (status, message) in [
        (500, "upstream internal error"),
        (502, "bad gateway"),
        (504, "gateway timeout"),
    ] {
        let error = unavailable_error(status, message);
        assert_eq!(
            fallback_after_error(AppType::Codex, "/v1/responses", &provider, &body, &error),
            None,
            "generic gateway status {status} must not trigger model fallback"
        );
    }
}

#[test]
fn auto_mode_retries_model_specific_gateway_failure() {
    let provider = provider(Some(CodexAutoReviewMode::Auto), Some("gpt-5.6-sol"));
    let body = model_body(AUTO_REVIEW_MODEL);
    let error = unavailable_error(502, "model not found: codex-auto-review");
    assert_eq!(
        fallback_after_error(AppType::Codex, "/v1/responses", &provider, &body, &error),
        Some("gpt-5.6-sol".to_string())
    );
}

#[test]
fn policy_ignores_other_models_apps_and_endpoints() {
    let provider = provider(Some(CodexAutoReviewMode::Fallback), Some("gpt-5.6-sol"));
    let cases = [
        (AppType::Codex, "/v1/responses", "gpt-5.6-sol"),
        (AppType::Claude, "/v1/responses", AUTO_REVIEW_MODEL),
        (AppType::Codex, "/v1/models", AUTO_REVIEW_MODEL),
    ];
    for (app_type, endpoint, model) in cases {
        let mut body = model_body(model);
        assert_eq!(
            apply_initial_policy(app_type, endpoint, &provider, &mut body),
            None
        );
        assert_eq!(body.get_str("model"), Some(model));
    }
}

#[test]
fn fallback_is_offered_only_while_the_approval_model_is_asked_for() {
    let provider = provider(Some(CodexAutoReviewMode::Auto), Some("gpt-5.6-sol"));
    let error = unavailable_error(404, "model_not_found");
    let mut body = model_body(AUTO_REVIEW_MODEL);
    let model = fallback_after_error(AppType::Codex, "/v1/responses?x=1", &provider, &body, &error)
        .expect("fallback");
    apply_fallback(&mut body, &model);
    assert_eq!(body.get_str("model"), Some("gpt-5.6-sol"));
    assert_eq!(
        fallback_after_error(AppType::Codex, "/v1/responses?x=1", &provider, &body, &error),
        None
    );
}

#[test]
fn approval_model_never_stands_in_for_itself() {
    let mut explicit = provider(None, Some(" codex-auto-review "));
    assert_eq!(fallback_model(&explicit).as_deref(), Some("provider-default"));
    explicit.codex_upstream_model = Some(AUTO_REVIEW_MODEL.to_string());
    assert_eq!(fallback_model(&explicit), None);
    explicit.meta = None;
    assert_eq!(configured_mode(&explicit), CodexAutoReviewMode::Native);
}

#[test]
fn approval_requests_are_told_by_model_app_and_endpoint() {
    assert!(is_auto_review_model(AppType::Codex, &model_body(AUTO_REVIEW_MODEL)));
    assert!(!is_auto_review_model(AppType::GrokBuild, &model_body(AUTO_REVIEW_MODEL)));
    assert!(is_responses_endpoint("/v1/responses?beta=true"));
    assert!(!is_responses_endpoint("/v1/responses/compact"));
    assert!(is_model_unavailable_error(&unavailable_error(400, "UNKNOWN MODEL x")));
    assert!(!is_model_unavailable_error(&ProxyError::Timeout("unknown model".to_string())));
    assert!(!is_model_unavailable_error(&ProxyError::UpstreamError { status: 404, body: None }));
}
