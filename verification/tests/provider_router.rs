use ccs_proxy::error::AppError;
use ccs_proxy::json::{parse_text, Json};
use ccs_proxy::key_pool::{
    order_key_pool_members, pool_result_counts, KeyPoolStrategy, KeyPools, ProviderGroup,
    ProviderGroupMemberStatus, ProviderGroupStatus,
};
use ccs_proxy::provider::{
    CodexAgentRoleRouting, CodexAgentRoleTarget, Provider, ProviderMeta,
};
use ccs_proxy::provider_router::{
    circuit_app, circuit_in_app, circuit_key, failure_threshold, frontend_target_id,
    is_pool_anchor, provider_default_or_request, provider_supports_failover,
    select_codex_frontend_route_plan, select_providers_base, select_route_plan, FrontendRoute,
    ProviderRequestPermit, ProviderRoutePlan, QueuedProvider,
};

fn json(text: &str) -> Json {
    parse_text(text).expect("valid JSON")
}

fn provider(id: &str, settings: &str) -> Provider {
    Provider {
        id: id.to_string(),
        name: format!("Provider {id}"),
        settings_config: json(settings),
        sort_index: None,
        meta: None,
        in_failover_queue: false,
        codex_official: false,
        codex_upstream_model: None,
    }
}

fn role_owner(id: &str, target: Option<&str>, model: Option<&str>) -> Provider {
    let mut owner = provider(id, "{}");
    owner.codex_upstream_model = Some(format!("{id}-default"));
    owner.meta = Some(ProviderMeta {
        codex_agent_role_routing: Some(CodexAgentRoleRouting {
            enabled: true,
            frontend: Some(CodexAgentRoleTarget {
                provider_id: target.map(ToString::to_string),
                upstream_model: model.map(ToString::to_string),
            }),
        }),
        ..ProviderMeta::default()
    });
    owner
}

fn ids(providers: &[Provider]) -> Vec<&str> {
    providers.iter().map(|provider| provider.id.as_str()).collect()
}

fn queued(provider: Provider) -> QueuedProvider {
    QueuedProvider {
        provider,
        available: true,
    }
}

#[test]
fn provider_default_or_request_uses_role_model_priority() {
    let mut direct = provider(
        "direct",
        r#"{"model":"  settings-model  ","modelCatalog":{"models":[{"model":"catalog-model"}]}}"#,
    );
    direct.codex_upstream_model = Some("settings-model".to_string());
    assert_eq!(
        provider_default_or_request(&direct, "request-model").as_deref(),
        Some("settings-model")
    );

    let mut toml = provider(
        "toml",
        r#"{"model":"   ","config":"model = \"  toml-model  \"\n","modelCatalog":{"models":[{"model":"catalog-model"}]}}"#,
    );
    toml.codex_upstream_model = Some("toml-model".to_string());
    assert_eq!(
        provider_default_or_request(&toml, "request-model").as_deref(),
        Some("toml-model")
    );

    let catalog = provider(
        "catalog",
        r#"{"model":"   ","config":"model = \"   \"\n","modelCatalog":{"models":[{"model":"  catalog-model  "}]}}"#,
    );
    assert_eq!(
        provider_default_or_request(&catalog, "request-model").as_deref(),
        Some("catalog-model")
    );

    let empty_catalog = provider(
        "request",
        r#"{"modelCatalog":{"models":["   ",{"model":"unused-second-model"}]}}"#,
    );
    assert_eq!(
        provider_default_or_request(&empty_catalog, "  request-model  ").as_deref(),
        Some("request-model")
    );
}

#[test]
fn disabled_agent_role_scope_skips_frontend_route_selection() {
    let plan = select_codex_frontend_route_plan(
        FrontendRoute {
            routing_allowed: false,
            owner: None,
            current: None,
            token_valid: false,
            target: None,
        },
        "old-owner",
        "client-model",
    )
    .expect("disabled role route selection");
    assert!(plan.is_none());
}

#[test]
fn codex_frontend_route_plan_is_fixed_to_b_then_owner_a() {
    let owner = role_owner("a", Some("b"), Some("frontend-custom"));
    assert_eq!(frontend_target_id(&owner).as_deref(), Some("b"));
    let plan = select_codex_frontend_route_plan(
        FrontendRoute {
            routing_allowed: true,
            owner: Some(owner),
            current: Some(provider("c", r#"{"model":"c-default"}"#)),
            token_valid: true,
            target: Some(provider(
                "b",
                r#"{"modelCatalog":{"models":[{"model":"b-catalog-default"}]}}"#,
            )),
        },
        "a",
        "client-capability-model",
    )
    .expect("select role route")
    .expect("enabled role route");
    assert_eq!(ids(&plan.providers()), vec!["b", "a"]);
    assert_eq!(
        plan.attempts[0].outbound_model_override.as_deref(),
        Some("frontend-custom")
    );
    assert_eq!(
        plan.attempts[1].outbound_model_override.as_deref(),
        Some("a-default")
    );
    assert!(plan.use_failover_timeouts);
    assert!(!plan.sync_logical_target);
}

#[test]
fn codex_frontend_route_plan_uses_target_and_owner_catalog_defaults() {
    let mut owner = role_owner("a", Some("b"), None);
    owner.codex_upstream_model = None;
    owner.settings_config = json(r#"{"modelCatalog":{"models":["  a-catalog-default  "]}}"#);
    let plan = select_codex_frontend_route_plan(
        FrontendRoute {
            routing_allowed: true,
            owner: Some(owner),
            current: None,
            token_valid: true,
            target: Some(provider(
                "b",
                r#"{"modelCatalog":{"models":[{"model":"  b-catalog-default  "}]}}"#,
            )),
        },
        "a",
        "client-capability-model",
    )
    .expect("select role route")
    .expect("enabled role route");
    assert_eq!(
        plan.attempts[0].outbound_model_override.as_deref(),
        Some("b-catalog-default")
    );
    assert_eq!(
        plan.attempts[1].outbound_model_override.as_deref(),
        Some("a-catalog-default")
    );
}

#[test]
fn codex_frontend_route_plan_recovers_missing_target_with_owner_default() {
    let mut owner = role_owner("a", Some("missing"), None);
    owner.codex_upstream_model = None;
    owner.settings_config =
        json(r#"{"modelCatalog":{"models":[{"model":"owner-catalog-default"}]}}"#);
    let plan = select_codex_frontend_route_plan(
        FrontendRoute {
            routing_allowed: true,
            owner: Some(owner),
            current: None,
            token_valid: true,
            target: None,
        },
        "a",
        "client-model",
    )
    .expect("select missing target route")
    .expect("role route plan");
    assert_eq!(plan.attempts.len(), 1);
    assert_eq!(plan.attempts[0].provider.id, "a");
    assert_eq!(
        plan.attempts[0].outbound_model_override.as_deref(),
        Some("owner-catalog-default")
    );
}

#[test]
fn missing_role_owner_falls_back_to_current_codex_provider() {
    let plan = select_codex_frontend_route_plan(
        FrontendRoute {
            routing_allowed: true,
            owner: None,
            current: Some(provider(
                "current",
                r#"{"modelCatalog":{"models":[{"model":"current-catalog-default"}]}}"#,
            )),
            token_valid: false,
            target: None,
        },
        "deleted-owner",
        "client-model",
    )
    .expect("select route")
    .expect("route plan");
    assert_eq!(plan.attempts.len(), 1);
    assert_eq!(plan.attempts[0].provider.id, "current");
    assert_eq!(
        plan.attempts[0].outbound_model_override.as_deref(),
        Some("current-catalog-default")
    );
    assert!(!plan.sync_logical_target);
}

#[test]
fn existing_role_owner_rejects_forged_and_stale_tokens() {
    let result = select_codex_frontend_route_plan(
        FrontendRoute {
            routing_allowed: true,
            owner: Some(role_owner("a", Some("b"), Some("changed-model"))),
            current: None,
            token_valid: false,
            target: Some(provider("b", "{}")),
        },
        "a",
        "client-model",
    );
    assert!(matches!(
        result,
        Err(AppError::InvalidInput(message)) if message.contains("token")
    ));
}

#[test]
fn test_failover_disabled_uses_current_provider() {
    let providers = select_providers_base(
        "gemini",
        false,
        Some(provider("a", "{}")),
        vec![queued(provider("b", "{}"))],
    )
    .unwrap();
    assert_eq!(ids(&providers), vec!["a"]);
}

#[test]
fn test_failover_enabled_uses_queue_order_ignoring_current() {
    let providers = select_providers_base(
        "gemini",
        true,
        Some(provider("a", "{}")),
        vec![queued(provider("b", "{}")), queued(provider("a", "{}"))],
    )
    .unwrap();
    assert_eq!(ids(&providers), vec!["b", "a"]);
}

#[test]
fn test_failover_enabled_uses_queue_only_even_if_current_not_in_queue() {
    let providers = select_providers_base(
        "gemini",
        true,
        Some(provider("a", "{}")),
        vec![queued(provider("b", "{}"))],
    )
    .unwrap();
    assert_eq!(ids(&providers), vec!["b"]);
}

#[test]
fn codex_official_current_stays_single_route_when_failover_is_stale() {
    let mut official = provider("official-a", "{}");
    official.codex_official = true;
    let providers = select_providers_base(
        "codex",
        true,
        Some(official),
        vec![queued(provider("fallback", "{}"))],
    )
    .unwrap();
    assert_eq!(ids(&providers), vec!["official-a"]);
}

#[test]
fn stale_codex_official_queue_entries_are_not_retry_targets() {
    let mut official = provider("official-a", "{}");
    official.codex_official = true;
    assert!(!provider_supports_failover("codex", &official));
    assert!(provider_supports_failover("gemini", &official));
    let providers = select_providers_base(
        "codex",
        true,
        Some(provider("third-party", "{}")),
        vec![queued(official), queued(provider("fallback", "{}"))],
    )
    .unwrap();
    assert_eq!(ids(&providers), vec!["fallback"]);
}

#[test]
fn providers_that_cannot_be_used_are_reported_as_such() {
    assert!(matches!(
        select_providers_base("gemini", false, None, vec![]),
        Err(AppError::NoProvidersConfigured)
    ));
    let mut broken = queued(provider("b", "{}"));
    broken.available = false;
    assert!(matches!(
        select_providers_base("gemini", true, None, vec![broken]),
        Err(AppError::AllProvidersCircuitOpen)
    ));
}

#[test]
fn consuming_provider_request_permit_transfers_release_ownership_once() {
    let mut permit = ProviderRequestPermit::new(true, true);
    assert!(permit.allowed());
    assert!(permit.used_half_open_permit());
    assert!(permit.take_half_open_slot());
    assert!(!permit.take_half_open_slot());
    assert!(!permit.into_used_half_open_permit());
    assert!(ProviderRequestPermit::new(true, true).into_used_half_open_permit());
    assert!(!ProviderRequestPermit::new(false, false).allowed());
}

fn group(strategy: KeyPoolStrategy, cooldown_ms: u64) -> ProviderGroup {
    ProviderGroup {
        id: "group-1".to_string(),
        app_type: "codex".to_string(),
        key_pool_enabled: true,
        key_pool_strategy: strategy,
        key_pool_max_retries: 0,
        key_pool_cooldown_ms: cooldown_ms,
    }
}

fn member(id: &str, index: usize) -> Provider {
    let mut member = provider(id, &format!(r#"{{"auth":{{"OPENAI_API_KEY":"key-{id}"}}}}"#));
    member.meta = Some(ProviderMeta {
        provider_group_id: Some("group-1".to_string()),
        provider_group_sort_index: Some(index),
        key_pool_enabled: Some(true),
        ..ProviderMeta::default()
    });
    member
}

fn members() -> Vec<Provider> {
    order_key_pool_members(vec![member("p3", 2), member("p1", 0), member("p2", 1)])
}

fn status(group: ProviderGroup) -> ProviderGroupStatus {
    ProviderGroupStatus {
        group,
        proxy_running: false,
        members: ["p1", "p2", "p3"]
            .into_iter()
            .map(|id| ProviderGroupMemberStatus {
                provider_id: id.to_string(),
                eligible: true,
                cooling_down: false,
                cooldown_remaining_ms: 0,
                consecutive_failures: 0,
                last_failure_at: None,
                early_probe: false,
            })
            .collect(),
    }
}

#[test]
fn round_robin_pool_rotates_without_changing_logical_current() {
    let group = group(KeyPoolStrategy::RoundRobin, 1000);
    let mut pools = KeyPools::new();
    let first = pools.select("codex", &group, &members(), 10);
    let second = pools.select("codex", &group, &members(), 11);
    let plan = select_route_plan(false, Some((&group, first)), Ok(vec![])).expect("first route plan");
    let next = select_route_plan(false, Some((&group, second)), Ok(vec![])).expect("second route plan");
    assert_eq!(plan.attempts.len(), 3);
    assert_eq!(plan.key_pool_retries.len(), 3);
    assert_ne!(plan.attempts[0].provider.id, next.attempts[0].provider.id);
    assert!(!plan.sync_logical_target);
}

#[test]
fn key_pool_failover_order_cooldown_and_early_probe_are_observable() {
    let mut pools = KeyPools::new();
    let pool_group = group(KeyPoolStrategy::Failover, 60_000);
    assert_eq!(
        ids(&pools.select("codex", &pool_group, &members(), 100)),
        ["p1", "p2", "p3"]
    );
    pools.record_failure("codex", &pool_group, "p1", 100, 5);
    assert_eq!(
        ids(&pools.select("codex", &pool_group, &members(), 101)),
        ["p2", "p3"]
    );
    let mut shown = status(group(KeyPoolStrategy::Failover, 60_000));
    assert!(!shown.proxy_running);
    pools.fill_key_pool_status(&mut shown, 101);
    assert!(shown.proxy_running && shown.members[0].cooling_down);
    assert_eq!(shown.members[0].cooldown_remaining_ms, 59_999);
    assert_eq!(shown.members[0].consecutive_failures, 1);
    assert_eq!(shown.members[0].last_failure_at, Some(5));
    pools.record_failure("codex", &pool_group, "p2", 102, 6);
    pools.record_failure("codex", &pool_group, "p3", 103, 7);
    let probe = pools.select("codex", &pool_group, &members(), 104);
    assert_eq!(ids(&probe), ["p1"]);
    pools.fill_key_pool_status(&mut shown, 104);
    assert!(shown.members[0].early_probe);
    pools.record_success("codex", &pool_group, "p1");
    pools.fill_key_pool_status(&mut shown, 105);
    assert!(!shown.members[0].cooling_down && !shown.members[0].early_probe);
    assert_eq!(shown.members[0].consecutive_failures, 0);
    pools.clear_key_pool_runtime("codex", "group-1");
    assert!(pools.pools.get("codex:group-1").is_none());
}

#[test]
fn key_pool_round_robin_skips_cooling_key_without_repeating_next_key() {
    let group = group(KeyPoolStrategy::RoundRobin, 1000);
    let mut pools = KeyPools::new();
    assert_eq!(pools.select("codex", &group, &members(), 10)[0].id, "p1");
    pools.record_failure("codex", &group, "p2", 10, 1);
    assert_eq!(pools.select("codex", &group, &members(), 11)[0].id, "p3");
    assert_eq!(pools.select("codex", &group, &members(), 12)[0].id, "p1");
}

#[test]
fn key_pool_excluded_anchor_uses_legacy_independent_route() {
    let group = group(KeyPoolStrategy::RoundRobin, 1000);
    let mut excluded = member("p1", 0);
    assert!(is_pool_anchor("codex", true, Some(&excluded), &group));
    if let Some(meta) = &mut excluded.meta {
        meta.key_pool_enabled = Some(false);
    }
    assert!(!is_pool_anchor("codex", true, Some(&excluded), &group));
    assert!(!is_pool_anchor("codex", true, None, &group));
    let plan = select_route_plan(false, None, Ok(vec![excluded])).expect("plan");
    assert!(plan.key_pool_retries.is_empty() && plan.sync_logical_target);
    assert_eq!(plan.attempts.len(), 1);
}

#[test]
fn key_pool_late_result_does_not_cool_a_new_folder_after_member_move() {
    let original = member("p1", 0);
    let mut moved = member("p1", 0);
    if let Some(meta) = &mut moved.meta {
        meta.provider_group_id = Some("group-2".to_string());
    }
    let old_group = group(KeyPoolStrategy::RoundRobin, 1000);
    let mut new_group = group(KeyPoolStrategy::RoundRobin, 1000);
    new_group.id = "group-2".to_string();
    assert!(pool_result_counts(&original, Some(&member("p1", 0)), &old_group, "codex"));
    assert!(!pool_result_counts(&original, Some(&moved), &new_group, "codex"));
    assert!(!pool_result_counts(&original, None, &old_group, "codex"));
    assert!(pool_result_counts(&moved, Some(&moved), &new_group, "codex"));
}

#[test]
fn key_pool_late_failure_does_not_cool_replaced_credentials() {
    let original = member("p1", 0);
    let mut current = member("p1", 0);
    current.settings_config = json(r#"{"auth":{"OPENAI_API_KEY":"replacement-fixture-key"}}"#);
    let group = group(KeyPoolStrategy::RoundRobin, 1000);
    assert!(!pool_result_counts(&original, Some(&current), &group, "codex"));
}

#[test]
fn outcomes_count_for_the_pool_only_while_nothing_changed() {
    let original = member("p1", 0);
    let group = group(KeyPoolStrategy::Failover, 1000);
    let mut pools = KeyPools::new();
    pools.record_result(&original, None, Some(&group), "codex", false, 10, 1);
    pools.record_result(&original, Some(&original), None, "codex", false, 10, 1);
    pools.record_result(&original, Some(&original), Some(&group), "gemini", false, 10, 1);
    assert_eq!(pools.select("codex", &group, &members(), 11)[0].id, "p1");
    pools.record_result(&original, Some(&original), Some(&group), "codex", false, 10, 1);
    assert_eq!(pools.select("codex", &group, &members(), 11)[0].id, "p2");
    pools.record_result(&original, Some(&original), Some(&group), "codex", true, 12, 2);
    assert_eq!(pools.select("codex", &group, &members(), 13)[0].id, "p1");
}

#[test]
fn a_pool_without_members_hands_out_none() {
    let group = group(KeyPoolStrategy::Failover, 1000);
    let mut pools = KeyPools::new();
    assert!(pools.select("codex", &group, &vec![], 1).is_empty());
    assert_eq!(pools.select("codex", &group, &members(), 2)[0].id, "p1");
}

#[test]
fn settings_are_the_same_where_their_numbers_are() {
    let group = group(KeyPoolStrategy::Failover, 1000);
    let mut before = member("p1", 0);
    before.settings_config = json(r#"{"limit":0.0,"share":1}"#);
    let mut after = member("p1", 0);
    after.settings_config = json(r#"{"share":1,"limit":-0.0}"#);
    assert!(pool_result_counts(&before, Some(&after), &group, "codex"));
    after.settings_config = json(r#"{"share":1.0,"limit":-0.0}"#);
    assert!(!pool_result_counts(&before, Some(&after), &group, "codex"));
}

#[test]
fn standard_plans_keep_their_providers_and_follow_the_current_one() {
    let plan = ProviderRoutePlan::standard(vec![provider("x", "{}"), provider("y", "{}")], true);
    assert_eq!(ids(&plan.providers()), vec!["x", "y"]);
    assert!(plan.sync_logical_target);
    assert!(plan.use_failover_timeouts);
    assert!(plan.attempts.iter().all(|attempt| attempt.outbound_model_override.is_none()));
}

#[test]
fn breakers_are_kept_apart_by_app() {
    let key = circuit_key("codex", "a:b");
    assert_eq!(key, "codex:a:b");
    assert_eq!(circuit_app(&key), "codex");
    assert!(circuit_in_app(&key, "codex"));
    assert!(!circuit_in_app(&key, "code"));
    assert_eq!(failure_threshold(None), 5);
    assert_eq!(failure_threshold(Some(2)), 2);
}
