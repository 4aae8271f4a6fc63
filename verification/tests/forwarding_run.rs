use ccs_proxy::codex_auto_review::is_auto_review_model;
use ccs_proxy::config::{CopilotOptimizerConfig, OptimizerConfig, RectifierConfig};
use ccs_proxy::error::ProxyError;
use ccs_proxy::forwarder::attempt::{
    copilot_steps, forces_identity, log_secrets, managed_account_error, plan_attempt,
    AttemptFacts, ManagedAccount,
};
use ccs_proxy::forwarder::deadline::{
    header_timeout_error, plan_send, send_error, PreOutputDeadline,
};
use ccs_proxy::forwarder::endpoint::Conversion;
use ccs_proxy::forwarder::response_body::{
    bounded_error_body_text, declared_body_error, decode_response_body_for_validation,
    empty_stream_error, first_chunk_error, retry_validation, success_preparation,
    success_validation, upstream_error, validate_success_body, BoundedBody, Envelope,
    SuccessPreparation, SuccessValidation,
};
use ccs_proxy::forwarder::retry::{after_failed_attempt, RetryDecision};
use ccs_proxy::forwarder::run::{
    recovery, FailureDecision, ForwardRun, NextProvider, Recovery, RecoveryFacts, RecoveryKind,
};
use ccs_proxy::forwarder::status::{
    commit_successful_failover_switch, set_active_provider, ActiveProviders, ProxyStatus,
};
use ccs_proxy::forwarder::{RequestForwarder, SuccessBookkeeping};
use ccs_proxy::headers::Headers;
use ccs_proxy::json::{parse_text, Json};
use ccs_proxy::provider::{
    AppType, CodexAutoReviewMode, LocalProxyRetryErrorType, LocalProxyRetryPolicy, Provider,
    ProviderMeta,
};
use ccs_proxy::provider_retry::resolve_retry_policy;
use ccs_proxy::provider_router::ProviderRequestPermit;
use ccs_proxy::provider_router::ProviderRoutePlan;

fn json(text: &str) -> Json {
    parse_text(text).expect("valid JSON")
}

fn provider(id: &str) -> Provider {
    Provider {
        id: id.to_string(),
        name: format!("Provider {id}"),
        settings_config: json("{}"),
        sort_index: None,
        meta: None,
        in_failover_queue: false,
        codex_official: false,
        codex_upstream_model: None,
    }
}

fn no_recovery() -> RecoveryFacts {
    RecoveryFacts {
        images_replaced: false,
        anthropic: true,
        signature_error: false,
        signature_rectified: false,
        budget_error: false,
        budget_rectified: false,
    }
}

fn forwarder() -> RequestForwarder {
    RequestForwarder::new(
        60,
        "a".to_string(),
        "session".to_string(),
        false,
        20,
        RectifierConfig::default(),
        OptimizerConfig::default(),
        CopilotOptimizerConfig {
            enabled: true,
            request_classification: true,
            tool_result_merging: true,
            strip_thinking: false,
            warmup_downgrade: true,
            deterministic_request_id: true,
        },
        2,
        true,
    )
}

fn timeout() -> ProxyError {
    ProxyError::Timeout("late".to_string())
}

#[test]
fn providers_are_tried_in_order_up_to_the_limit() {
    let mut run = ForwardRun::new(3, 2, true);
    assert_eq!(run.choose_next(), NextProvider::Ask(0));
    run.permit(ProviderRequestPermit::new(false, false));
    assert_eq!(run.choose_next(), NextProvider::Ask(1));
    run.permit(ProviderRequestPermit::new(true, false));
    let decision = run.fail(&timeout(), &provider("b"), false, no_recovery());
    assert_eq!(
        decision,
        FailureDecision::NextProvider {
            health_message: "超时: late".to_string(),
            status_message: "Provider Provider b 失败: 超时: late".to_string(),
            slot: false,
        }
    );
    assert_eq!(run.choose_next(), NextProvider::Ask(2));
    run.permit(ProviderRequestPermit::new(true, false));
    run.fail(
        &ProxyError::ForwardFailed("reset".to_string()),
        &provider("c"),
        false,
        no_recovery(),
    );
    assert_eq!(
        run.choose_next(),
        NextProvider::Exhausted {
            error: ProxyError::ForwardFailed("reset".to_string()),
            provider: Some(2),
            status_message: Some("所有供应商都失败".to_string()),
        }
    );
}

#[test]
fn the_limit_stops_the_walk_before_a_breaker_is_asked() {
    let mut run = ForwardRun::new(3, 1, true);
    assert_eq!(run.choose_next(), NextProvider::Ask(0));
    run.permit(ProviderRequestPermit::new(true, false));
    run.fail(&timeout(), &provider("a"), false, no_recovery());
    assert!(matches!(
        run.choose_next(),
        NextProvider::Exhausted { provider: Some(0), .. }
    ));
}

#[test]
fn a_single_provider_is_tried_without_its_breaker() {
    let mut run = ForwardRun::new(1, 4, true);
    assert_eq!(run.choose_next(), NextProvider::Try(0));
    let mut strict = ForwardRun::new(1, 4, false);
    assert_eq!(strict.choose_next(), NextProvider::Ask(0));
    strict.permit(ProviderRequestPermit::new(false, false));
    assert_eq!(
        strict.choose_next(),
        NextProvider::Exhausted {
            error: ProxyError::NoAvailableProvider,
            provider: None,
            status_message: Some("所有供应商暂时不可用（熔断器限制）".to_string()),
        }
    );
    let mut empty = ForwardRun::new(0, 4, true);
    assert_eq!(
        empty.choose_next(),
        NextProvider::Exhausted {
            error: ProxyError::NoAvailableProvider,
            provider: None,
            status_message: None,
        }
    );
}

#[test]
fn client_errors_stop_the_walk() {
    let mut run = ForwardRun::new(2, 2, true);
    run.choose_next();
    run.permit(ProviderRequestPermit::new(true, false));
    let error = ProxyError::UpstreamError {
        status: 400,
        body: None,
    };
    assert_eq!(
        run.fail(&error, &provider("a"), false, no_recovery()),
        FailureDecision::Stop {
            status_message: error.message(),
            slot: false,
        }
    );
    let mut named = ForwardRun::new(2, 2, true);
    named.choose_next();
    named.permit(ProviderRequestPermit::new(true, false));
    assert!(matches!(
        named.fail(&error, &provider("a"), true, no_recovery()),
        FailureDecision::NextProvider { .. }
    ));
}

#[test]
fn a_provider_is_given_one_recovery() {
    let mut run = ForwardRun::new(2, 2, true);
    run.choose_next();
    run.permit(ProviderRequestPermit::new(true, false));
    let facts = RecoveryFacts {
        signature_error: true,
        signature_rectified: true,
        ..no_recovery()
    };
    let error = ProxyError::UpstreamError {
        status: 400,
        body: Some("invalid signature".to_string()),
    };
    assert_eq!(
        run.fail(&error, &provider("a"), false, facts),
        FailureDecision::Recover(RecoveryKind::Signature)
    );
    assert_eq!(
        run.fail(&timeout(), &provider("a"), false, facts),
        FailureDecision::NextProvider {
            health_message: "超时: late".to_string(),
            status_message: "Provider Provider a 整流重试失败: 超时: late".to_string(),
            slot: false,
        }
    );
    assert_eq!(run.choose_next(), NextProvider::Ask(1));
    run.permit(ProviderRequestPermit::new(true, false));
    run.succeed();
}

#[test]
fn probe_slots_are_given_back_once_by_the_attempt_that_got_them() {
    let mut run = ForwardRun::new(3, 3, true);
    run.choose_next();
    assert!(run.permit(ProviderRequestPermit::new(false, true)));
    run.choose_next();
    assert!(!run.permit(ProviderRequestPermit::new(true, true)));
    let facts = RecoveryFacts {
        signature_error: true,
        signature_rectified: true,
        ..no_recovery()
    };
    assert_eq!(
        run.fail(&timeout(), &provider("b"), false, facts),
        FailureDecision::Recover(RecoveryKind::Signature)
    );
    assert!(matches!(
        run.fail(&timeout(), &provider("b"), false, no_recovery()),
        FailureDecision::NextProvider { slot: true, .. }
    ));
    run.choose_next();
    assert!(!run.permit(ProviderRequestPermit::new(true, false)));
    assert!(!run.succeed());

    let mut run = ForwardRun::new(1, 1, false);
    run.choose_next();
    run.permit(ProviderRequestPermit::new(true, true));
    assert!(run.succeed());
    assert!(!run.abandon());

    let mut run = ForwardRun::new(1, 1, false);
    run.choose_next();
    run.permit(ProviderRequestPermit::new(true, true));
    assert!(run.abandon());
    assert!(!run.abandon());
}

#[test]
fn recoveries_are_tried_in_their_order() {
    let all = RecoveryFacts {
        images_replaced: true,
        anthropic: true,
        signature_error: true,
        signature_rectified: true,
        budget_error: true,
        budget_rectified: true,
    };
    assert_eq!(recovery(all), Recovery::Retry(RecoveryKind::Media));
    let no_images = RecoveryFacts {
        images_replaced: false,
        ..all
    };
    assert_eq!(recovery(no_images), Recovery::Retry(RecoveryKind::Signature));
    let nothing_removed = RecoveryFacts {
        signature_rectified: false,
        ..no_images
    };
    assert_eq!(recovery(nothing_removed), Recovery::Retry(RecoveryKind::Budget));
    let nothing_changed = RecoveryFacts {
        budget_rectified: false,
        ..nothing_removed
    };
    assert_eq!(recovery(nothing_changed), Recovery::ClientFault);
    let other_protocol = RecoveryFacts {
        anthropic: false,
        ..no_images
    };
    assert_eq!(recovery(other_protocol), Recovery::NotApplicable);
}

fn retrying_provider(max_retries: u32) -> Provider {
    let mut provider = provider("retry");
    provider.meta = Some(ProviderMeta {
        codex_auto_review_mode: Some(CodexAutoReviewMode::Auto),
        codex_auto_review_fallback_model: Some("stand-in".to_string()),
        local_proxy_retry_policy: Some(LocalProxyRetryPolicy {
            enabled: Some(true),
            max_retries,
            retry_delay_ms: 30,
            custom_messages: vec![],
            error_types: vec![LocalProxyRetryErrorType::Network],
        }),
        ..ProviderMeta::default()
    });
    provider
}

#[test]
fn named_errors_are_retried_up_to_the_limit() {
    let provider = retrying_provider(2);
    let mut body = json(r#"{"model":"gpt-5"}"#);
    let policy = resolve_retry_policy(AppType::Codex, &body, &provider).expect("policy");
    let mut retries = 0usize;
    for expected in 1..=2 {
        assert_eq!(
            after_failed_attempt(
                AppType::Codex,
                "/v1/responses",
                &provider,
                &mut body,
                &timeout(),
                Some(&policy),
                &mut retries,
            ),
            RetryDecision::Wait { delay_ms: 30 }
        );
        assert_eq!(retries, expected);
    }
    assert_eq!(
        after_failed_attempt(
            AppType::Codex,
            "/v1/responses",
            &provider,
            &mut body,
            &timeout(),
            Some(&policy),
            &mut retries,
        ),
        RetryDecision::GiveUp { matched: true }
    );
    assert_eq!(
        after_failed_attempt(
            AppType::Codex,
            "/v1/responses",
            &provider,
            &mut body,
            &ProxyError::UpstreamError {
                status: 400,
                body: None
            },
            Some(&policy),
            &mut retries,
        ),
        RetryDecision::GiveUp { matched: false }
    );
    assert_eq!(retries, 2);
}

#[test]
fn each_provider_has_its_own_retries() {
    let provider = retrying_provider(1);
    let mut body = json(r#"{"model":"gpt-5"}"#);
    let policy = resolve_retry_policy(AppType::Codex, &body, &provider).expect("policy");
    let mut run = ForwardRun::new(2, 2, true);
    for at in 0..2 {
        assert_eq!(run.choose_next(), NextProvider::Ask(at));
        run.permit(ProviderRequestPermit::new(true, false));
        assert_eq!(run.retries, 0);
        assert_eq!(
            run.retry(
                AppType::Codex,
                "/v1/responses",
                &provider,
                &mut body,
                &timeout(),
                Some(&policy),
            ),
            RetryDecision::Wait { delay_ms: 30 }
        );
        assert_eq!(run.retries, 1);
        assert_eq!(
            run.retry(
                AppType::Codex,
                "/v1/responses",
                &provider,
                &mut body,
                &timeout(),
                Some(&policy),
            ),
            RetryDecision::GiveUp { matched: true }
        );
        run.fail(&timeout(), &provider, true, no_recovery());
    }
    assert!(matches!(run.choose_next(), NextProvider::Exhausted { .. }));
}

#[test]
fn the_stand_in_model_is_tried_before_a_retry_and_once() {
    let provider = retrying_provider(2);
    let mut body = json(r#"{"model":"codex-auto-review"}"#);
    let missing = ProxyError::UpstreamError {
        status: 404,
        body: Some("model not found".to_string()),
    };
    let mut retries = 0usize;
    assert_eq!(
        after_failed_attempt(
            AppType::Codex,
            "/v1/responses",
            &provider,
            &mut body,
            &missing,
            None,
            &mut retries,
        ),
        RetryDecision::Fallback("stand-in".to_string())
    );
    assert!(!is_auto_review_model(AppType::Codex, &body));
    assert_eq!(
        after_failed_attempt(
            AppType::Codex,
            "/v1/responses",
            &provider,
            &mut body,
            &missing,
            None,
            &mut retries,
        ),
        RetryDecision::GiveUp { matched: false }
    );
    assert_eq!(retries, 0);
}

#[test]
fn successful_failover_commit_updates_active_map_and_count_together() {
    let mut active: ActiveProviders = ActiveProviders::new();
    let mut status = ProxyStatus::new();
    set_active_provider(&mut active, "codex", "provider-a", "Provider A");
    set_active_provider(&mut active, "gemini", "other", "Other");
    commit_successful_failover_switch(&mut active, &mut status, "codex", "provider-b", "Provider B");
    assert_eq!(
        active.get("codex"),
        Some(&("provider-b".to_string(), "Provider B".to_string()))
    );
    assert_eq!(
        active.get("gemini"),
        Some(&("other".to_string(), "Other".to_string()))
    );
    assert_eq!(status.failover_count, 1);
}

#[test]
fn same_provider_success_updates_active_map_without_failover_count() {
    let forwarder = forwarder();
    assert_eq!(
        forwarder.success_bookkeeping(&provider("a"), true),
        SuccessBookkeeping::RecordAndStay
    );
    assert_eq!(
        forwarder.success_bookkeeping(&provider("b"), true),
        SuccessBookkeeping::RecordAndSwitch
    );
    let mut active = ActiveProviders::new();
    let status = ProxyStatus::new();
    set_active_provider(&mut active, "codex", "a", "Provider a");
    assert_eq!(
        active.get("codex"),
        Some(&("a".to_string(), "Provider a".to_string()))
    );
    assert_eq!(status.failover_count, 0);
}

#[test]
fn routes_that_leave_the_current_provider_alone_never_switch() {
    let mut plan = ProviderRoutePlan::standard(vec![provider("b"), provider("c")], true);
    plan.sync_logical_target = false;
    plan.attempts[0].outbound_model_override = Some("fixed".to_string());
    let forwarder = forwarder().with_route_plan(&plan);
    assert_eq!(forwarder.max_attempts, 2);
    assert_eq!(
        forwarder.success_bookkeeping(&provider("b"), true),
        SuccessBookkeeping::Deferred
    );
    assert_eq!(
        forwarder.success_bookkeeping(&provider("b"), false),
        SuccessBookkeeping::Record
    );
    let mut body = json(r#"{"model":"asked"}"#);
    assert!(forwarder
        .provider_request(AppType::Codex, "/v1/responses", &provider("b"), &mut body)
        .is_none());
    assert_eq!(body.get_str("model"), Some("fixed"));
    let mut other = json(r#"{"model":"asked"}"#);
    forwarder.provider_request(AppType::Codex, "/v1/responses", &provider("c"), &mut other);
    for text in ["[]", r#"["x"]"#, r#""x""#, "7", "true"] {
        let mut plain = json(text);
        let policy = forwarder.provider_request(
            AppType::Codex,
            "/v1/responses",
            &provider("c"),
            &mut plain,
        );
        assert!(policy.is_none());
        assert!(plain.same(&json(text)));
    }
    assert_eq!(other.get_str("model"), Some("asked"));
}

#[test]
fn forwarders_try_one_more_provider_than_they_retry() {
    let forwarder = forwarder();
    assert_eq!(forwarder.max_attempts, 3);
    let run = forwarder.start_run(&vec![provider("a"), provider("b")]);
    assert_eq!(run.count, 2);
    assert_eq!(run.max_attempts, 3);
    assert!(!run.bypass);
    assert!(forwarder.start_run(&vec![provider("a")]).bypass);
    let deadline = forwarder.pre_output_deadline(true, 1_000);
    assert_eq!(deadline.at_ms, Some(21_000));
    assert_eq!(forwarder.pre_output_deadline(false, 1_000).at_ms, Some(61_000));
}

#[test]
fn the_status_counts_each_request_once() {
    let mut status = ProxyStatus::new();
    status.begin_request("now".to_string());
    assert_eq!((status.active_connections, status.total_requests), (1, 1));
    status.try_provider(&provider("a"), true);
    assert_eq!(status.current_provider_id.as_deref(), Some("a"));
    status.try_provider(&provider("b"), false);
    assert_eq!(status.current_provider_id.as_deref(), Some("a"));
    status.provider_failed("x".to_string());
    assert_eq!((status.failed_requests, status.last_error.as_deref()), (0, Some("x")));
    status.request_failed("y".to_string());
    assert_eq!((status.failed_requests, status.last_error.as_deref()), (1, Some("y")));
    status.request_succeeded();
    assert_eq!((status.success_requests, status.last_error.as_deref()), (1, None));
    status.stream_ended(Some("z".to_string()));
    status.stream_ended(None);
    assert_eq!((status.success_requests, status.failed_requests), (2, 2));
    status.end_request();
    status.end_request();
    assert_eq!(status.active_connections, 0);
}

#[test]
fn deadlines_run_out_once() {
    let deadline = PreOutputDeadline::new(1_500, 10_000);
    assert!(deadline.is_enabled());
    assert!(deadline.check("阶段", 11_499).is_ok());
    assert_eq!(
        deadline.check("阶段", 11_500),
        Err(ProxyError::Timeout(
            "阶段超时（输出前总预算 1500ms 已耗尽）".to_string()
        ))
    );
    assert_eq!(deadline.remaining_or(7, "阶段", 11_000), Ok(500));
    assert!(deadline.remaining_or(7, "阶段", 12_000).is_err());
    assert_eq!(deadline.wait_limit("阶段", 11_000), Ok(Some(500)));
    assert_eq!(
        deadline.error_body_limit(503, 11_500),
        Err(ProxyError::UpstreamBodyTimeout {
            status: 503,
            timeout_seconds: 1
        })
    );
    let whole = PreOutputDeadline::new(2_000, 0);
    assert_eq!(
        whole.timeout_error("阶段"),
        ProxyError::Timeout("阶段超时（输出前总预算 2s 已耗尽）".to_string())
    );
    let none = PreOutputDeadline::new(0, 5);
    assert!(!none.is_enabled());
    assert!(none.check("阶段", u64::MAX).is_ok());
    assert_eq!(none.remaining_or(7, "阶段", 9), Ok(7));
    assert_eq!(none.wait_limit("阶段", 9), Ok(None));
}

#[test]
fn requests_are_sent_through_a_pool_unless_header_case_matters() {
    let none = PreOutputDeadline::new(0, 0);
    let plan = plan_send(0, true, none, 0, None, false).expect("plan");
    assert!(plan.pooled && plan.header_timeout_alone);
    assert_eq!(plan.request_timeout_seconds, Some(86_400));
    assert_eq!(plan.header_timeout_ms, 600_000);
    let raw = plan_send(30, false, none, 0, Some("http://proxy"), true).expect("plan");
    assert!(!raw.pooled);
    assert_eq!(raw.request_timeout_seconds, None);
    assert_eq!(raw.header_timeout_ms, 30_000);
    let socks = plan_send(30, false, none, 0, Some("socks5://proxy"), true).expect("plan");
    assert!(socks.pooled);
    assert_eq!(socks.request_timeout_seconds, Some(30));
    assert!(plan_send(30, false, PreOutputDeadline::new(10, 0), 10, None, true).is_err());
    let long = plan_send(u64::MAX, false, PreOutputDeadline::new(10, 0), 4, None, false);
    assert_eq!(long.expect("plan").header_timeout_ms, 6);
    assert_eq!(
        header_timeout_error(600_000),
        ProxyError::Timeout("流式响应首包超时: 600s（上游未返回响应头）".to_string())
    );
    assert_eq!(
        send_error(true, true, "m"),
        ProxyError::Timeout("上游请求超时: m".to_string())
    );
    assert_eq!(
        send_error(false, true, "m"),
        ProxyError::ForwardFailed("上游连接失败: m".to_string())
    );
    assert_eq!(
        send_error(false, false, "m"),
        ProxyError::ForwardFailed("上游请求发送失败: m".to_string())
    );
}

fn headers(entries: &[(&str, &str)]) -> Headers {
    let mut headers = Headers::new();
    for (name, value) in entries {
        headers.append(name, value.as_bytes());
    }
    headers
}

fn gzip(payload: &[u8]) -> Vec<u8> {
    let mut encoder = flate2::write::GzEncoder::new(Vec::new(), flate2::Compression::default());
    std::io::Write::write_all(&mut encoder, payload).unwrap();
    encoder.finish().unwrap()
}

#[test]
fn error_bodies_are_kept_up_to_a_limit() {
    let mut body = BoundedBody::new();
    assert!(!body.collect(b"ab", 4));
    assert!(!body.collect(b"cd", 4));
    assert!(body.collect(b"e", 4));
    assert_eq!(body.bytes, b"abcd");
    assert!(body.truncated);
    assert!(body.collect(b"f", 4));
    assert_eq!(body.bytes, b"abcd");
}

#[test]
fn texts_of_cut_bodies_end_with_a_whole_character() {
    let bytes = "é漢".as_bytes();
    assert_eq!(bounded_error_body_text(bytes, false).as_deref(), Some("é漢"));
    assert_eq!(bounded_error_body_text(&bytes[..4], true).as_deref(), Some("é"));
    assert_eq!(bounded_error_body_text(&bytes[..4], false), None);
    assert_eq!(bounded_error_body_text(b"a\xff", true), None);
}

#[test]
fn upstream_errors_carry_their_decoded_body() {
    let raw = BoundedBody {
        bytes: gzip(b"{\"error\":\"quota\"}"),
        truncated: false,
    };
    assert_eq!(
        upstream_error(429, &headers(&[("content-encoding", "gzip")]), &raw),
        ProxyError::UpstreamError {
            status: 429,
            body: Some("{\"error\":\"quota\"}".to_string())
        }
    );
    let plain = BoundedBody {
        bytes: b"plain".to_vec(),
        truncated: true,
    };
    assert_eq!(
        upstream_error(500, &headers(&[("content-encoding", "gzip")]), &plain),
        ProxyError::UpstreamError {
            status: 500,
            body: Some("plain".to_string())
        }
    );
    assert_eq!(
        declared_body_error(&headers(&[("content-length", "134217729")])),
        Some(ProxyError::ResponseBodyTooLarge(134_217_729))
    );
    assert_eq!(
        declared_body_error(&headers(&[("content-length", "134217728")])),
        None
    );
    assert_eq!(declared_body_error(&headers(&[("content-length", "x")])), None);
}

#[test]
fn success_bodies_are_refused_for_the_failures_they_state() {
    let failure = br#"{"status":"failed","error":{"message":"no"}}"#;
    assert_eq!(
        validate_success_body(Envelope::Responses, &Headers::new(), failure, None),
        Err(ProxyError::TransformError(
            "Responses upstream returned a 2xx failure: failed: no".to_string()
        ))
    );
    let packed = gzip(br#"{"type":"error","error":{"type":"t","message":"m"}}"#);
    assert_eq!(
        validate_success_body(
            Envelope::Anthropic,
            &headers(&[("content-encoding", "gzip")]),
            &packed,
            None
        ),
        Err(ProxyError::TransformError(
            "Anthropic upstream returned a 2xx error envelope: t: m".to_string()
        ))
    );
    assert_eq!(
        validate_success_body(Envelope::Responses, &Headers::new(), b"{\"status\":\"completed\"}", None),
        Ok(())
    );
    let provider = retrying_provider(1);
    let policy = resolve_retry_policy(AppType::Codex, &json("{}"), &provider).expect("policy");
    assert_eq!(
        validate_success_body(Envelope::Responses, &Headers::new(), failure, Some(&policy)),
        Ok(())
    );
    assert_eq!(
        decode_response_body_for_validation(Some("gzip"), b"not gzip"),
        Ok(b"not gzip".to_vec())
    );
    assert_eq!(
        decode_response_body_for_validation(None, b"x"),
        Ok(b"x".to_vec())
    );
}

#[test]
fn successes_are_prepared_and_validated_by_what_they_are() {
    assert_eq!(success_preparation(true, true), SuccessPreparation::Prime);
    assert_eq!(success_preparation(false, true), SuccessPreparation::Buffer);
    assert_eq!(success_preparation(true, false), SuccessPreparation::Keep);
    let responses = Some("openai_responses".to_string());
    assert_eq!(
        success_validation(true, &None, true, true),
        SuccessValidation::Body(Envelope::Anthropic)
    );
    assert_eq!(success_validation(true, &None, true, false), SuccessValidation::Unchecked);
    assert_eq!(
        success_validation(false, &responses, true, false),
        SuccessValidation::StreamStart
    );
    assert_eq!(
        success_validation(false, &responses, false, false),
        SuccessValidation::Body(Envelope::Responses)
    );
    assert_eq!(retry_validation(true, false), SuccessValidation::StreamStart);
    assert_eq!(
        empty_stream_error(),
        ProxyError::ForwardFailed("流式响应在首包到达前结束".to_string())
    );
    assert_eq!(
        first_chunk_error("x"),
        ProxyError::ForwardFailed("读取流式响应首包失败: x".to_string())
    );
}

#[test]
fn attempts_are_planned_by_app_and_provider() {
    let facts = AttemptFacts {
        wants_chat: false,
        wants_anthropic: true,
        needs_transform: false,
        claude_adapter: false,
        is_copilot: false,
        needs_flat_tools: true,
        model_is_fixed: false,
    };
    let mut target = provider("x");
    target.codex_official = true;
    target.meta = Some(ProviderMeta {
        impersonate_claude_code: Some(true),
        ..ProviderMeta::default()
    });
    let codex = plan_attempt(AppType::Codex, &target, facts);
    assert_eq!(codex.conversion, Conversion::CodexToAnthropic);
    assert!(codex.official_auth_passthrough && codex.impersonate_claude_code);
    assert!(!codex.flatten_tools && !codex.strip_context_marker);
    let claude = plan_attempt(AppType::Claude, &target, facts);
    assert_eq!(claude.conversion, Conversion::Passthrough);
    assert!(!claude.official_auth_passthrough && !claude.impersonate_claude_code);
    let grok = plan_attempt(
        AppType::GrokBuild,
        &target,
        AttemptFacts {
            wants_anthropic: false,
            ..facts
        },
    );
    assert!(grok.own_model_first && grok.flatten_tools && grok.strip_context_marker);
    assert!(forces_identity(AppType::Codex, facts, false));
    assert!(!forces_identity(AppType::Claude, facts, false));
    assert!(forces_identity(AppType::Claude, facts, true));
    assert_eq!(
        managed_account_error(ManagedAccount::XaiOAuth, Some("expired")),
        ProxyError::AuthError("xAI OAuth 认证失败: expired".to_string())
    );
    assert_eq!(
        managed_account_error(ManagedAccount::Copilot, None),
        ProxyError::AuthError("GitHub Copilot 认证不可用（无 AppHandle）".to_string())
    );
    assert_eq!(log_secrets("k", &Some("k".to_string())), vec!["k"]);
    assert_eq!(log_secrets("", &Some("t".to_string())), vec!["t"]);
    assert_eq!(log_secrets("k", &Some("t".to_string())), vec!["k", "t"]);
    let config = forwarder().copilot_optimizer_config;
    assert!(copilot_steps(&config, false, true).is_none());
    let steps = copilot_steps(&config, true, true).expect("steps");
    assert!(steps.merge_tool_results && steps.downgrade && !steps.strip_thinking);
}
