use ccs_proxy::config::AppProxyConfig;
use ccs_proxy::diagnostic::{
    check_before_lookup, check_encoded, check_provider_config, check_response_headers,
    check_validation, count_chunk, isolate_config, isolate_provider, prepare_validation,
    prepare_validation_body, safe_generation_override, validated_target, validation_handler,
    AuthInfo, AuthStrategy, DiagnosticContext, ValidationHandler, ValidationLookup,
};
use ccs_proxy::error::{AppError, ProxyError};
use ccs_proxy::failover_switch::{
    after_compare, after_reconcile, after_restore, after_snapshot, after_switch, begin_switch,
    current_provider_matches, database_pointer, restore_errors, FailoverSwitchManager,
    SwitchAction,
};
use ccs_proxy::forwarder::final_body::final_body;
use ccs_proxy::headers::Headers;
use ccs_proxy::json::{encode_json, parse_text, Json, JsonNumber};
use ccs_proxy::provider::{AppType, LocalProxyRequestOverrides, Provider, ProviderMeta};

fn json(text: &str) -> Json {
    parse_text(text).expect("valid JSON")
}

fn provider() -> Provider {
    Provider {
        id: "p".to_string(),
        name: "P".to_string(),
        settings_config: json("{}"),
        sort_index: None,
        meta: Some(ProviderMeta {
            provider_group_id: Some("g".to_string()),
            key_pool_enabled: Some(true),
            ..ProviderMeta::default()
        }),
        in_failover_queue: true,
        codex_official: false,
        codex_upstream_model: None,
    }
}

#[test]
fn model_validation_chain_rejects_unbounded_or_invalid_limits() {
    for body in ["{}", r#"{"max_tokens":0}"#, r#"{"max_tokens":2049}"#] {
        assert!(DiagnosticContext::new(&json(body)).is_err());
    }
    let context = DiagnosticContext::new(&json(r#"{"max_output_tokens":16}"#)).unwrap();
    for body in ["{}", r#"{"max_tokens":null}"#, r#"{"max_tokens":-1}"#] {
        let mut body = json(body);
        assert!(context.enforce_output_limits(&mut body).is_err());
    }
    let mut gemini =
        json(r#"{"generationConfig":{"maxOutputTokens":1000000,"candidateCount":7}}"#);
    context.enforce_output_limits(&mut gemini).unwrap();
    assert_eq!(
        gemini.get2("generationConfig", "maxOutputTokens"),
        Some(&json("16"))
    );
    assert_eq!(
        gemini.get2("generationConfig", "candidateCount"),
        Some(&json("1"))
    );
    let controlled =
        DiagnosticContext::new(&json(r#"{"max_tokens":128,"temperature":0}"#)).unwrap();
    for changed in [
        r#"{"max_output_tokens":128}"#,
        r#"{"max_output_tokens":128,"temperature":1}"#,
        r#"{"generationConfig":{"maxOutputTokens":128,"temperature":0.2}}"#,
    ] {
        let mut changed = json(changed);
        assert!(controlled.enforce_output_limits(&mut changed).is_err());
    }
    let mut preserved = json(r#"{"generationConfig":{"maxOutputTokens":128,"temperature":0}}"#);
    controlled.enforce_output_limits(&mut preserved).unwrap();
}

#[test]
fn model_validation_chain_response_cap_rejects_large_or_encoded_headers_without_reading() {
    for (name, value) in [
        ("content-length", "1048577"),
        ("content-encoding", "gzip"),
        ("content-encoding", "br"),
    ] {
        let mut headers = Headers::new();
        headers.insert(name, value.as_bytes());
        assert!(check_response_headers(&headers).is_err());
    }
}

#[test]
fn each_bound_has_its_error() {
    assert!(matches!(
        DiagnosticContext::new(&json("{}")),
        Err(AppError::InvalidInput(message))
            if message == "Diagnostic requests need a bounded output token limit"
    ));
    let context =
        DiagnosticContext::new(&json(r#"{"max_tokens":100,"max_output_tokens":50,"temperature":1}"#))
            .unwrap();
    assert_eq!(context.output_limit, 50);
    for (body, expected) in [
        ("{}", "Diagnostic output limit was removed by conversion"),
        (
            r#"{"max_tokens":"x"}"#,
            "Diagnostic output limit became invalid after conversion",
        ),
        (
            r#"{"max_tokens":5}"#,
            "Diagnostic controlled temperature was changed or removed by conversion",
        ),
    ] {
        let mut body = json(body);
        assert_eq!(
            context.enforce_output_limits(&mut body),
            Err(ProxyError::InvalidRequest(expected.to_string()))
        );
    }
    let mut body = json(r#"{"max_tokens":5,"max_completion_tokens":500,"n":4,"temperature":1.0}"#);
    assert_eq!(context.enforce_output_limits(&mut body), Ok(()));
    assert_eq!(body.get("max_tokens"), Some(&json("5")));
    assert_eq!(body.get("max_completion_tokens"), Some(&json("50")));
    assert_eq!(body.get("n"), Some(&json("1")));
    let once = body.copy();
    assert_eq!(context.enforce_output_limits(&mut body), Ok(()));
    assert!(body.same(&once));
}

fn body_of_size(size: usize) -> Json {
    let empty = r#"{"max_tokens":5,"text":""}"#;
    let text = "x".repeat(size - empty.len());
    json(&format!(r#"{{"max_tokens":5,"text":"{text}"}}"#))
}

#[test]
fn test_requests_are_refused_over_their_size() {
    let context = DiagnosticContext::new(&json(r#"{"max_tokens":5}"#)).unwrap();
    let mut body = body_of_size(262_144);
    assert_eq!(encode_json(&body).map(|bytes| bytes.len()), Some(262_144));
    assert_eq!(context.enforce_output_limits(&mut body), Ok(()));
    let mut body = body_of_size(262_145);
    assert_eq!(
        context.enforce_output_limits(&mut body),
        Err(ProxyError::InvalidRequest(
            "Diagnostic request exceeds the input bound".to_string()
        ))
    );
    assert_eq!(
        check_encoded(None),
        Err(ProxyError::InvalidRequest("Invalid diagnostic body".to_string()))
    );
    assert_eq!(check_encoded(Some(vec![0; 262_144])), Ok(()));
}

#[test]
fn documents_are_encoded_as_they_are() {
    let text = r#"{"b":[1,-2,0.5,true,null,"\n"],"a":{}}"#;
    assert_eq!(encode_json(&json(text)), Some(text.as_bytes().to_vec()));
    let broken = Json::Number(JsonNumber::Float("no number".to_string()));
    assert_eq!(encode_json(&broken), None);
}

#[test]
fn model_validation_chain_limits_survive_transforms_and_provider_overrides() {
    let context = DiagnosticContext::new(&json(r#"{"max_output_tokens":16}"#)).unwrap();
    let overrides = LocalProxyRequestOverrides {
        headers: vec![],
        body: Some(json(r#"{"max_tokens":100000,"n":9}"#)),
    };
    let mut body = json(r#"{"model":"m","max_tokens":16,"messages":[]}"#);
    assert_eq!(
        final_body(Some(&context), &mut body, Some(&overrides), &None),
        Ok(true)
    );
    assert_eq!(body.get("max_tokens"), Some(&json("16")));
    assert_eq!(body.get("n"), Some(&json("1")));

    let mut free = json(r#"{"model":"m","max_tokens":16}"#);
    let fixed = Some("fixed".to_string());
    assert_eq!(final_body(None, &mut free, Some(&overrides), &fixed), Ok(true));
    assert_eq!(free.get("max_tokens"), Some(&json("100000")));
    assert_eq!(free.get_str("model"), Some("fixed"));
    assert_eq!(final_body(None, &mut free, None, &None), Ok(false));

    let mut bare = json(r#"{"model":"m"}"#);
    assert_eq!(
        final_body(Some(&context), &mut bare, None, &None),
        Err(ProxyError::InvalidRequest(
            "Diagnostic output limit was removed by conversion".to_string()
        ))
    );
}

#[test]
fn answers_are_counted_up_to_their_limit() {
    assert_eq!(count_chunk(0, 1_048_576), Ok(1_048_576));
    assert_eq!(
        count_chunk(1, 1_048_576),
        Err("Diagnostic response exceeds the 1 MiB limit".to_string())
    );
    assert!(count_chunk(usize::MAX, 1).is_err());
    let mut headers = Headers::new();
    headers.append("content-encoding", b" Identity ");
    headers.append("content-length", b"1048576");
    assert_eq!(check_response_headers(&headers), Ok(()));
    headers.append("content-encoding", &[0xff]);
    assert!(check_response_headers(&headers).is_err());
}

#[test]
fn models_are_remembered() {
    let mut context = DiagnosticContext::new(&json(r#"{"max_tokens":1}"#)).unwrap();
    context.record_model(Some("m".to_string()));
    assert_eq!(context.model.as_deref(), Some("m"));
    assert_eq!(context.output_limit, 1);
}

#[test]
fn only_generation_settings_may_be_overridden() {
    for (name, value, safe) in [
        ("temperature", "0.5", true),
        ("temperature", "\"hot\"", false),
        ("stream", "true", true),
        ("store", "false", true),
        ("store", "true", false),
        ("model", "\"m\"", true),
        ("model", "\"\"", false),
        ("model", "\"a\\u0007\"", false),
        ("reasoning_effort", "\"high\"", true),
        ("reasoning_effort", "\"huge\"", false),
        ("reasoning", r#"{"effort":"low","summary":"auto"}"#, true),
        ("reasoning", r#"{"other":1}"#, false),
        ("thinking", r#"{"type":"enabled","budget_tokens":5}"#, true),
        ("thinking", r#"{"type":"always"}"#, false),
        (
            "generationConfig",
            r#"{"topK":1,"thinkingConfig":{"thinkingBudget":1,"includeThoughts":true,"thinkingLevel":"low"}}"#,
            true,
        ),
        ("generationConfig", r#"{"thinkingConfig":{"x":1}}"#, false),
        ("generationConfig", r#"{"responseSchema":{}}"#, false),
        ("messages", "[]", false),
        ("tools", "[]", false),
    ] {
        assert_eq!(safe_generation_override(name, &json(value)), safe, "{name} {value}");
    }
    let mut target = provider();
    assert!(check_provider_config(&target, false).is_ok());
    assert!(check_provider_config(&target, true).is_err());
    for (body, allowed) in [
        (r#"{"temperature":1}"#, true),
        (r#"{"temperature":1,"messages":[]}"#, false),
        ("[]", false),
    ] {
        if let Some(meta) = &mut target.meta {
            meta.local_proxy_request_overrides = Some(LocalProxyRequestOverrides {
                headers: vec![],
                body: Some(json(body)),
            });
        }
        assert_eq!(check_provider_config(&target, false).is_ok(), allowed, "{body}");
    }
}

#[test]
fn only_explicit_keys_are_tested() {
    let auth = |strategy, has_access_token| {
        Some(AuthInfo {
            api_key: "k".to_string(),
            has_access_token,
            strategy,
        })
    };
    let url = || Some("https://h".to_string());
    assert!(matches!(
        validated_target(true, auth(AuthStrategy::Bearer, false), url()),
        Ok(target) if target == ("https://h".to_string(), "k".to_string())
    ));
    assert!(validated_target(false, auth(AuthStrategy::Bearer, false), url()).is_err());
    assert!(validated_target(true, None, url()).is_err());
    assert!(validated_target(true, auth(AuthStrategy::Account, false), url()).is_err());
    assert!(validated_target(true, auth(AuthStrategy::Google, true), url()).is_err());
    assert!(validated_target(true, auth(AuthStrategy::Google, false), None).is_err());
}

#[test]
fn tests_stay_away_from_accounts_and_other_hosts() {
    let mut target = provider();
    assert!(check_validation(AppType::Claude, &target, false, "/v1/messages").is_ok());
    assert!(check_validation(AppType::Claude, &target, true, "/v1/messages").is_err());
    assert!(check_validation(AppType::OpenCode, &target, false, "/v1/messages").is_err());
    for endpoint in ["v1", "//host/v1", "/v1\r\nx: y", "/v1\n"] {
        assert!(check_validation(AppType::Claude, &target, false, endpoint).is_err());
    }
    target.codex_official = true;
    assert!(check_validation(AppType::Codex, &target, false, "/v1").is_err());
    assert!(check_validation(AppType::Claude, &target, false, "/v1").is_ok());
    isolate_provider(&mut target);
    let meta = target.meta.as_ref().expect("meta");
    assert_eq!(meta.provider_group_id, None);
    assert_eq!(meta.key_pool_enabled, Some(false));
    assert!(!target.in_failover_queue);
    let config = isolate_config(AppProxyConfig {
        enabled: true,
        auto_failover_enabled: true,
        max_retries: 9,
        streaming_first_byte_timeout: 1,
        streaming_idle_timeout: 2,
        non_streaming_timeout: 3,
    });
    assert!(!config.enabled && !config.auto_failover_enabled && config.max_retries == 0);
    assert_eq!(config.non_streaming_timeout, 3);
}

#[test]
fn test_requests_enter_where_their_app_does() {
    assert_eq!(
        validation_handler(AppType::Codex, "/v1/chat/completions"),
        Some(ValidationHandler::ChatCompletions)
    );
    assert_eq!(
        validation_handler(AppType::Codex, "/v1/responses"),
        Some(ValidationHandler::Responses)
    );
    assert_eq!(
        validation_handler(AppType::Gemini, "/v1"),
        Some(ValidationHandler::Gemini)
    );
    assert_eq!(validation_handler(AppType::OpenCode, "/v1"), None);
    let mut body = json(r#"{"a":1,"stream":true,"b":2}"#);
    prepare_validation_body(AppType::Gemini, &mut body).expect("object");
    assert_eq!(body, json(r#"{"a":1,"b":2}"#));
    let mut kept = json(r#"{"stream":true}"#);
    prepare_validation_body(AppType::Codex, &mut kept).expect("any");
    assert_eq!(kept, json(r#"{"stream":true}"#));
    assert!(prepare_validation_body(AppType::Gemini, &mut json("[]")).is_err());
}

#[test]
fn expected_current_compare_and_swap_rejects_a_stale_failover() {
    let current = Some("provider-a".to_string());
    assert!(current_provider_matches(&current, "provider-a"));
    let newer = Some("provider-c".to_string());
    assert!(!current_provider_matches(&newer, "provider-a"));
    assert!(current_provider_matches(&None, "  "));
    assert!(!current_provider_matches(&current, ""));
    assert!(matches!(
        after_compare(true, Ok(newer), "provider-a"),
        SwitchAction::Finish(Ok(false))
    ));
    assert!(matches!(
        after_compare(true, Ok(Some("provider-a".to_string())), "provider-a"),
        SwitchAction::Snapshot
    ));
    assert!(matches!(
        after_compare(false, Ok(Some("provider-a".to_string())), "provider-a"),
        SwitchAction::Switch
    ));
}

#[test]
fn failover_rollback_restores_empty_and_split_raw_currents() {
    assert_eq!(database_pointer(&None), "");
    assert_eq!(
        database_pointer(&Some("provider-database".to_string())),
        "provider-database"
    );
    assert!(restore_errors(&None, &None).is_empty());
    assert_eq!(
        restore_errors(&Some("d".to_string()), &Some("l".to_string())),
        vec![
            "恢复数据库当前 Provider 失败: d",
            "恢复设备当前 Provider 失败: l"
        ]
    );
}

#[test]
fn one_switch_runs_per_app() {
    let mut manager = FailoverSwitchManager::new();
    assert!(manager.try_switch("codex"));
    assert!(!manager.try_switch("codex"));
    assert!(manager.try_switch("gemini"));
    manager.finish_switch("codex");
    assert!(manager.try_switch("codex"));
    assert!(!manager.try_switch("gemini"));
}

#[test]
fn switches_go_through_their_steps() {
    assert!(matches!(
        begin_switch(None, true, true),
        SwitchAction::Finish(Ok(false))
    ));
    assert!(matches!(
        begin_switch(Some(false), true, true),
        SwitchAction::Finish(Ok(false))
    ));
    assert!(matches!(
        begin_switch(Some(true), false, true),
        SwitchAction::Finish(Ok(false))
    ));
    assert!(matches!(begin_switch(Some(true), true, true), SwitchAction::Compare));
    assert!(matches!(
        begin_switch(Some(true), true, false),
        SwitchAction::Publish { tray: false }
    ));
    assert!(matches!(after_snapshot(Ok(())), SwitchAction::Switch));
    assert!(matches!(
        after_snapshot(Err(AppError::Message("x".to_string()))),
        SwitchAction::Finish(Err(_))
    ));
    assert!(matches!(after_switch(true, Ok(true)), SwitchAction::Reconcile));
    assert!(matches!(
        after_switch(false, Ok(true)),
        SwitchAction::Publish { tray: true }
    ));
    assert!(matches!(
        after_switch(true, Ok(false)),
        SwitchAction::Finish(Ok(false))
    ));
    assert!(matches!(
        after_switch(true, Err("e".to_string())),
        SwitchAction::Finish(Err(AppError::Message(message))) if message == "e"
    ));
    assert!(matches!(after_reconcile(true), SwitchAction::Publish { tray: true }));
    assert!(matches!(after_reconcile(false), SwitchAction::Restore));
    assert!(matches!(
        after_restore("e", vec!["s".to_string()], vec!["p".to_string()], &Some("r".to_string())),
        SwitchAction::Finish(Err(AppError::Message(message)))
            if message == "同步 Codex Agent Role 失败: e; 回滚错误: s; p; 恢复 Codex Agent Role 失败: r"
    ));
    assert!(matches!(
        after_restore("e", vec![], vec![], &None),
        SwitchAction::Finish(Err(AppError::Message(message)))
            if message == "同步 Codex Agent Role 失败: e"
    ));
}

#[test]
fn tests_are_made_ready_as_a_whole() {
    let config = AppProxyConfig {
        enabled: true,
        auto_failover_enabled: true,
        max_retries: 9,
        streaming_first_byte_timeout: 1,
        streaming_idle_timeout: 2,
        non_streaming_timeout: 3,
    };
    let lookup = |has_adapter| ValidationLookup {
        has_adapter,
        auth: Some(AuthInfo {
            api_key: "k".to_string(),
            has_access_token: false,
            strategy: AuthStrategy::Google,
        }),
        base_url: Some("https://h".to_string()),
        config,
    };
    let endpoint = "/v1beta/models/m:generateContent";
    assert!(check_before_lookup(AppType::Gemini, &provider(), false, false, endpoint).is_ok());
    assert!(check_before_lookup(AppType::Gemini, &provider(), true, false, endpoint).is_err());
    assert!(check_before_lookup(AppType::Gemini, &provider(), false, true, endpoint).is_err());
    let body = r#"{"generationConfig":{"maxOutputTokens":64},"stream":true}"#;
    let test = prepare_validation(
        AppType::Gemini,
        provider(),
        lookup(true),
        endpoint,
        json(body),
    )
    .expect("ready");
    assert_eq!(test.handler, ValidationHandler::Gemini);
    assert_eq!(test.context.output_limit, 64);
    assert!(!test.provider.in_failover_queue);
    assert!(!test.config.enabled);
    assert_eq!(test.body, json(r#"{"generationConfig":{"maxOutputTokens":64}}"#));
    assert!(prepare_validation(
        AppType::Gemini,
        provider(),
        lookup(false),
        endpoint,
        json(body)
    )
    .is_err());
    assert!(prepare_validation(
        AppType::Gemini,
        provider(),
        lookup(true),
        endpoint,
        json("{}")
    )
    .is_err());
}
