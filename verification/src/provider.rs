//! Providers: where requests can go, and how each is configured.

use vstd::prelude::*;
use vstd::string::*;
use crate::json::{Json, JsonView};
use crate::text::{is_text, opt_view, texts_view};

verus! {

/// The client a request comes from.
#[derive(Debug, Clone, Copy, PartialEq, Eq, Structural)]
pub enum AppType {
    Claude,
    ClaudeDesktop,
    Codex,
    Gemini,
    GrokBuild,
    OpenCode,
}

/// How requests for the approval model are routed.
#[derive(Debug, Clone, Copy, PartialEq, Eq, Structural)]
pub enum CodexAutoReviewMode {
    /// As the client asked.
    Native,
    /// As the client asked, with the fallback model where the upstream lacks the model.
    Auto,
    /// With the fallback model at once.
    Fallback,
}

/// A class of errors that a retry policy can name.
#[derive(Debug, Clone, Copy, PartialEq, Eq, Structural)]
pub enum LocalProxyRetryErrorType {
    RateLimit,
    Overloaded,
    ServerError,
    Network,
}

/// When a request is tried again with the same provider.
#[derive(Debug, PartialEq, Eq)]
pub struct LocalProxyRetryPolicy {
    pub enabled: Option<bool>,
    pub max_retries: u32,
    pub retry_delay_ms: u64,
    pub custom_messages: Vec<String>,
    pub error_types: Vec<LocalProxyRetryErrorType>,
}

/// A retry policy as a mathematical value.
pub struct LocalProxyRetryPolicyView {
    pub enabled: Option<bool>,
    pub max_retries: u32,
    pub retry_delay_ms: u64,
    pub custom_messages: Seq<Seq<char>>,
    pub error_types: Seq<LocalProxyRetryErrorType>,
}

impl View for LocalProxyRetryPolicy {
    type V = LocalProxyRetryPolicyView;

    open spec fn view(&self) -> LocalProxyRetryPolicyView {
        LocalProxyRetryPolicyView {
            enabled: self.enabled,
            max_retries: self.max_retries,
            retry_delay_ms: self.retry_delay_ms,
            custom_messages: texts_view(self.custom_messages@),
            error_types: self.error_types@,
        }
    }
}

/// A copy of a list of texts.
pub fn copy_texts(texts: &Vec<String>) -> (same: Vec<String>)
    ensures
        texts_view(same@) == texts_view(texts@),
{
    let mut same: Vec<String> = Vec::new();
    let mut i: usize = 0;
    while i < texts.len()
        invariant
            i <= texts@.len(),
            same@.len() == i,
            forall|k: int| 0 <= k < i ==> (#[trigger] same@[k])@ == texts@[k]@,
        decreases texts@.len() - i,
    {
        same.push(texts[i].clone());
        i = i + 1;
    }
    assert(texts_view(same@) =~= texts_view(texts@));
    same
}

/// A copy of an optional text.
pub fn copy_opt(text: &Option<String>) -> (same: Option<String>)
    ensures
        opt_view(same) == opt_view(*text),
{
    match text {
        Some(text) => Some(text.clone()),
        None => None,
    }
}

impl LocalProxyRetryPolicy {
    /// A copy of the policy.
    pub fn copy(&self) -> (same: LocalProxyRetryPolicy)
        ensures
            same@ == self@,
    {
        let mut error_types: Vec<LocalProxyRetryErrorType> = Vec::new();
        let mut i: usize = 0;
        while i < self.error_types.len()
            invariant
                i <= self.error_types@.len(),
                error_types@ == self.error_types@.take(i as int),
            decreases self.error_types@.len() - i,
        {
            error_types.push(self.error_types[i]);
            i = i + 1;
        }
        assert(error_types@ =~= self.error_types@);
        LocalProxyRetryPolicy {
            enabled: self.enabled,
            max_retries: self.max_retries,
            retry_delay_ms: self.retry_delay_ms,
            custom_messages: copy_texts(&self.custom_messages),
            error_types,
        }
    }
}

/// What a provider adds to the requests sent to it.
#[derive(Debug, PartialEq, Eq)]
pub struct LocalProxyRequestOverrides {
    pub headers: Vec<(String, String)>,
    pub body: Option<Json>,
}

/// Request overrides as a mathematical value.
pub struct LocalProxyRequestOverridesView {
    pub headers: Seq<(Seq<char>, Seq<char>)>,
    pub body: Option<JsonView>,
}

/// The characters of a list of pairs of texts.
pub open spec fn pairs_view(pairs: Seq<(String, String)>) -> Seq<(Seq<char>, Seq<char>)> {
    pairs.map_values(|pair: (String, String)| (pair.0@, pair.1@))
}

/// The value of an optional document.
pub open spec fn owned_json_view(json: Option<Json>) -> Option<JsonView> {
    match json {
        Some(json) => Some(json@),
        None => None,
    }
}

impl View for LocalProxyRequestOverrides {
    type V = LocalProxyRequestOverridesView;

    open spec fn view(&self) -> LocalProxyRequestOverridesView {
        LocalProxyRequestOverridesView {
            headers: pairs_view(self.headers@),
            body: owned_json_view(self.body),
        }
    }
}

impl LocalProxyRequestOverrides {
    /// A copy of the overrides.
    pub fn copy(&self) -> (same: LocalProxyRequestOverrides)
        ensures
            same@ == self@,
    {
        let mut headers: Vec<(String, String)> = Vec::new();
        let mut i: usize = 0;
        while i < self.headers.len()
            invariant
                i <= self.headers@.len(),
                pairs_view(headers@) == pairs_view(self.headers@).take(i as int),
            decreases self.headers@.len() - i,
        {
            let ghost before = pairs_view(headers@);
            headers.push((self.headers[i].0.clone(), self.headers[i].1.clone()));
            assert(pairs_view(headers@) =~= before.push(pairs_view(self.headers@)[i as int]));
            i = i + 1;
        }
        assert(pairs_view(headers@) =~= pairs_view(self.headers@));
        let body = match &self.body {
            Some(body) => Some(body.copy()),
            None => None,
        };
        LocalProxyRequestOverrides { headers, body }
    }
}

/// Where the requests of the frontend role go.
#[derive(Debug, PartialEq, Eq)]
pub struct CodexAgentRoleTarget {
    pub provider_id: Option<String>,
    pub upstream_model: Option<String>,
}

/// How the agent roles of a Codex provider are routed.
#[derive(Debug, PartialEq, Eq)]
pub struct CodexAgentRoleRouting {
    pub enabled: bool,
    pub frontend: Option<CodexAgentRoleTarget>,
}

/// A role target as a mathematical value.
pub struct CodexAgentRoleTargetView {
    pub provider_id: Option<Seq<char>>,
    pub upstream_model: Option<Seq<char>>,
}

/// Role routing as a mathematical value.
pub struct CodexAgentRoleRoutingView {
    pub enabled: bool,
    pub frontend: Option<CodexAgentRoleTargetView>,
}

impl View for CodexAgentRoleTarget {
    type V = CodexAgentRoleTargetView;

    open spec fn view(&self) -> CodexAgentRoleTargetView {
        CodexAgentRoleTargetView {
            provider_id: opt_view(self.provider_id),
            upstream_model: opt_view(self.upstream_model),
        }
    }
}

impl View for CodexAgentRoleRouting {
    type V = CodexAgentRoleRoutingView;

    open spec fn view(&self) -> CodexAgentRoleRoutingView {
        CodexAgentRoleRoutingView {
            enabled: self.enabled,
            frontend: match self.frontend {
                Some(target) => Some(target@),
                None => None,
            },
        }
    }
}

impl CodexAgentRoleRouting {
    /// A copy of the routing.
    pub fn copy(&self) -> (same: CodexAgentRoleRouting)
        ensures
            same@ == self@,
    {
        let frontend = match &self.frontend {
            Some(target) => Some(
                CodexAgentRoleTarget {
                    provider_id: copy_opt(&target.provider_id),
                    upstream_model: copy_opt(&target.upstream_model),
                },
            ),
            None => None,
        };
        CodexAgentRoleRouting { enabled: self.enabled, frontend }
    }
}

/// What is configured of a provider beside its settings.
#[derive(Debug, PartialEq, Eq)]
pub struct ProviderMeta {
    pub provider_type: Option<String>,
    pub is_full_url: Option<bool>,
    pub impersonate_claude_code: Option<bool>,
    pub max_output_tokens: Option<u64>,
    pub local_proxy_request_overrides: Option<LocalProxyRequestOverrides>,
    pub local_proxy_retry_policy: Option<LocalProxyRetryPolicy>,
    pub codex_auto_review_mode: Option<CodexAutoReviewMode>,
    pub codex_auto_review_fallback_model: Option<String>,
    pub codex_agent_role_routing: Option<CodexAgentRoleRouting>,
    pub provider_group_id: Option<String>,
    pub provider_group_sort_index: Option<usize>,
    pub key_pool_enabled: Option<bool>,
}

/// A provider's meta data as a mathematical value.
pub struct ProviderMetaView {
    pub provider_type: Option<Seq<char>>,
    pub is_full_url: Option<bool>,
    pub impersonate_claude_code: Option<bool>,
    pub max_output_tokens: Option<u64>,
    pub local_proxy_request_overrides: Option<LocalProxyRequestOverridesView>,
    pub local_proxy_retry_policy: Option<LocalProxyRetryPolicyView>,
    pub codex_auto_review_mode: Option<CodexAutoReviewMode>,
    pub codex_auto_review_fallback_model: Option<Seq<char>>,
    pub codex_agent_role_routing: Option<CodexAgentRoleRoutingView>,
    pub provider_group_id: Option<Seq<char>>,
    pub provider_group_sort_index: Option<usize>,
    pub key_pool_enabled: Option<bool>,
}

impl View for ProviderMeta {
    type V = ProviderMetaView;

    open spec fn view(&self) -> ProviderMetaView {
        ProviderMetaView {
            provider_type: opt_view(self.provider_type),
            is_full_url: self.is_full_url,
            impersonate_claude_code: self.impersonate_claude_code,
            max_output_tokens: self.max_output_tokens,
            local_proxy_request_overrides: match self.local_proxy_request_overrides {
                Some(overrides) => Some(overrides@),
                None => None,
            },
            local_proxy_retry_policy: match self.local_proxy_retry_policy {
                Some(policy) => Some(policy@),
                None => None,
            },
            codex_auto_review_mode: self.codex_auto_review_mode,
            codex_auto_review_fallback_model: opt_view(self.codex_auto_review_fallback_model),
            codex_agent_role_routing: match self.codex_agent_role_routing {
                Some(routing) => Some(routing@),
                None => None,
            },
            provider_group_id: opt_view(self.provider_group_id),
            provider_group_sort_index: self.provider_group_sort_index,
            key_pool_enabled: self.key_pool_enabled,
        }
    }
}

impl Default for ProviderMeta {
    /// Nothing configured.
    fn default() -> (meta: ProviderMeta)
        ensures
            meta.provider_type is None,
            meta.is_full_url is None,
            meta.impersonate_claude_code is None,
            meta.max_output_tokens is None,
            meta.local_proxy_request_overrides is None,
            meta.local_proxy_retry_policy is None,
            meta.codex_auto_review_mode is None,
            meta.codex_auto_review_fallback_model is None,
            meta.codex_agent_role_routing is None,
            meta.provider_group_id is None,
            meta.provider_group_sort_index is None,
            meta.key_pool_enabled is None,
    {
        ProviderMeta {
            provider_type: None,
            is_full_url: None,
            impersonate_claude_code: None,
            max_output_tokens: None,
            local_proxy_request_overrides: None,
            local_proxy_retry_policy: None,
            codex_auto_review_mode: None,
            codex_auto_review_fallback_model: None,
            codex_agent_role_routing: None,
            provider_group_id: None,
            provider_group_sort_index: None,
            key_pool_enabled: None,
        }
    }
}

impl ProviderMeta {
    /// A copy of the meta data.
    pub fn copy(&self) -> (same: ProviderMeta)
        ensures
            same@ == self@,
    {
        ProviderMeta {
            provider_type: copy_opt(&self.provider_type),
            is_full_url: self.is_full_url,
            impersonate_claude_code: self.impersonate_claude_code,
            max_output_tokens: self.max_output_tokens,
            local_proxy_request_overrides: match &self.local_proxy_request_overrides {
                Some(overrides) => Some(overrides.copy()),
                None => None,
            },
            local_proxy_retry_policy: match &self.local_proxy_retry_policy {
                Some(policy) => Some(policy.copy()),
                None => None,
            },
            codex_auto_review_mode: self.codex_auto_review_mode,
            codex_auto_review_fallback_model: copy_opt(&self.codex_auto_review_fallback_model),
            codex_agent_role_routing: match &self.codex_agent_role_routing {
                Some(routing) => Some(routing.copy()),
                None => None,
            },
            provider_group_id: copy_opt(&self.provider_group_id),
            provider_group_sort_index: self.provider_group_sort_index,
            key_pool_enabled: self.key_pool_enabled,
        }
    }
}

/// A provider, with what is derived from its settings where the routing depends on it.
#[derive(Debug, PartialEq, Eq)]
pub struct Provider {
    pub id: String,
    pub name: String,
    pub settings_config: Json,
    pub sort_index: Option<usize>,
    pub meta: Option<ProviderMeta>,
    pub in_failover_queue: bool,
    /// Whether this is the card of an official Codex account, whose requests carry that
    /// account's own authorization.
    pub codex_official: bool,
    /// The upstream model that the settings of a Codex provider name.
    pub codex_upstream_model: Option<String>,
}

/// A provider as a mathematical value.
pub struct ProviderView {
    pub id: Seq<char>,
    pub name: Seq<char>,
    pub settings_config: JsonView,
    pub sort_index: Option<usize>,
    pub meta: Option<ProviderMetaView>,
    pub in_failover_queue: bool,
    pub codex_official: bool,
    pub codex_upstream_model: Option<Seq<char>>,
}

impl View for Provider {
    type V = ProviderView;

    open spec fn view(&self) -> ProviderView {
        ProviderView {
            id: self.id@,
            name: self.name@,
            settings_config: self.settings_config@,
            sort_index: self.sort_index,
            meta: match self.meta {
                Some(meta) => Some(meta@),
                None => None,
            },
            in_failover_queue: self.in_failover_queue,
            codex_official: self.codex_official,
            codex_upstream_model: opt_view(self.codex_upstream_model),
        }
    }
}

/// The values of a list of providers.
pub open spec fn providers_view(providers: Seq<Provider>) -> Seq<ProviderView> {
    providers.map_values(|provider: Provider| provider@)
}

impl ProviderView {
    /// The group the provider belongs to.
    pub open spec fn group_id(self) -> Option<Seq<char>> {
        match self.meta {
            Some(meta) => meta.provider_group_id,
            None => None,
        }
    }

    /// Whether the provider takes part in the key pool of its group.
    pub open spec fn in_key_pool(self) -> bool {
        self.meta matches Some(meta) && meta.key_pool_enabled == Some(true)
    }

    /// The kind of provider that is configured.
    pub open spec fn provider_type(self) -> Option<Seq<char>> {
        match self.meta {
            Some(meta) => meta.provider_type,
            None => None,
        }
    }
}

impl Provider {
    /// A copy of the provider.
    pub fn copy(&self) -> (same: Provider)
        ensures
            same@ == self@,
    {
        Provider {
            id: self.id.clone(),
            name: self.name.clone(),
            settings_config: self.settings_config.copy(),
            sort_index: self.sort_index,
            meta: match &self.meta {
                Some(meta) => Some(meta.copy()),
                None => None,
            },
            in_failover_queue: self.in_failover_queue,
            codex_official: self.codex_official,
            codex_upstream_model: copy_opt(&self.codex_upstream_model),
        }
    }

    /// Whether the provider takes part in the key pool of its group.
    pub fn in_key_pool(&self) -> (pooled: bool)
        ensures
            pooled == self@.in_key_pool(),
    {
        match &self.meta {
            Some(meta) => match meta.key_pool_enabled {
                Some(enabled) => enabled,
                None => false,
            },
            None => false,
        }
    }

    /// Whether the provider belongs to that group.
    pub fn in_group(&self, group_id: &str) -> (inside: bool)
        ensures
            inside == (self@.group_id() == Some(group_id@)),
    {
        match &self.meta {
            Some(meta) => is_text(&meta.provider_group_id, group_id),
            None => false,
        }
    }

    /// Whether the provider is configured as that kind.
    pub fn has_type(&self, provider_type: &str) -> (is: bool)
        ensures
            is == (self@.provider_type() == Some(provider_type@)),
    {
        match &self.meta {
            Some(meta) => is_text(&meta.provider_type, provider_type),
            None => false,
        }
    }
}

/// A copy of a list of providers.
pub fn copy_providers(providers: &Vec<Provider>) -> (same: Vec<Provider>)
    ensures
        providers_view(same@) == providers_view(providers@),
{
    let mut same: Vec<Provider> = Vec::new();
    let mut i: usize = 0;
    while i < providers.len()
        invariant
            i <= providers@.len(),
            providers_view(same@) == providers_view(providers@).take(i as int),
        decreases providers@.len() - i,
    {
        let ghost before = providers_view(same@);
        same.push(providers[i].copy());
        assert(providers_view(same@) =~= before.push(providers_view(providers@)[i as int]));
        i = i + 1;
    }
    assert(providers_view(same@) =~= providers_view(providers@));
    same
}

/// What a provider's settings say of it is what it is: without any, it belongs to no group, takes part
/// in no pool, and is of no particular kind.
pub proof fn providers_are_what_their_settings_say(provider: ProviderView)
    ensures
        provider.meta is None ==> provider.group_id() is None && !provider.in_key_pool()
            && provider.provider_type() is None,
        provider.meta matches Some(meta) ==> {
            &&& provider.group_id() == meta.provider_group_id
            &&& provider.provider_type() == meta.provider_type
            &&& meta.key_pool_enabled is None ==> !provider.in_key_pool()
            &&& meta.key_pool_enabled == Some(false) ==> !provider.in_key_pool()
            &&& meta.key_pool_enabled == Some(true) ==> provider.in_key_pool()
        },
{
}

} // verus!
