//! One attempt at a provider: how its request is converted, and what is done to it on the way.

use vstd::prelude::*;
use vstd::string::*;
use crate::config::CopilotOptimizerConfig;
use crate::error::{ProxyError, ProxyErrorView};
use crate::forwarder::endpoint::Conversion;
use crate::provider::{AppType, Provider, ProviderView};
use crate::text::{join, list_has, opt_view, texts_view};

verus! {

/// What is known of a provider and its adapter before a request is converted.
#[derive(Clone, Copy, Debug, PartialEq, Eq, Structural)]
pub struct AttemptFacts {
    /// The provider takes Codex requests as chat completions.
    pub wants_chat: bool,
    /// The provider takes Codex requests as Anthropic messages.
    pub wants_anthropic: bool,
    /// The requests of the app are converted for the provider.
    pub needs_transform: bool,
    /// The app is one of the Anthropic protocol.
    pub claude_adapter: bool,
    pub is_copilot: bool,
    /// The provider takes no tools in name spaces.
    pub needs_flat_tools: bool,
    /// The route fixes the model.
    pub model_is_fixed: bool,
}

/// How a request is made ready for a provider.
#[derive(Clone, Copy, Debug, PartialEq, Eq, Structural)]
pub struct AttemptPlan {
    pub conversion: Conversion,
    /// The client's own authorization is passed on.
    pub official_auth_passthrough: bool,
    /// A Codex request goes out as Anthropic messages.
    pub codex_to_anthropic: bool,
    /// Such a request looks like one of the native client.
    pub impersonate_claude_code: bool,
    /// The provider's own model is put in before the conversion.
    pub own_model_first: bool,
    /// The provider's own model is put in by the conversion.
    pub own_model_in_conversion: bool,
    /// The marker of a long context is taken off the model before the conversion.
    pub strip_context_marker: bool,
    /// The marker is taken off the model that the route fixes.
    pub strip_fixed_marker: bool,
    /// Tools in name spaces are made flat.
    pub flatten_tools: bool,
    /// Images are kept from a model that takes text only, after the conversion.
    pub media_after_conversion: bool,
    /// The provider's overrides apply.
    pub apply_overrides: bool,
}

/// Whether an app speaks the Responses protocol of Codex.
pub open spec fn is_codex_like(app_type: AppType) -> bool {
    app_type is Codex || app_type is GrokBuild
}

fn codex_like(app_type: AppType) -> (is: bool)
    ensures
        is == is_codex_like(app_type),
{
    match app_type {
        AppType::Codex | AppType::GrokBuild => true,
        _ => false,
    }
}

/// How the requests of an app are converted: chat completions come before Anthropic messages,
/// and both before what the app's adapter does.
pub open spec fn conversion_of(app_type: AppType, facts: AttemptFacts) -> Conversion {
    if is_codex_like(app_type) && facts.wants_chat {
        Conversion::CodexToChat
    } else if is_codex_like(app_type) && facts.wants_anthropic {
        Conversion::CodexToAnthropic
    } else if !facts.needs_transform {
        Conversion::Passthrough
    } else if facts.claude_adapter {
        Conversion::Claude
    } else {
        Conversion::Adapter
    }
}

/// How a request is made ready for a provider.
pub open spec fn attempt_plan(
    app_type: AppType,
    provider: ProviderView,
    facts: AttemptFacts,
) -> AttemptPlan {
    let to_chat = is_codex_like(app_type) && facts.wants_chat;
    let to_anthropic = is_codex_like(app_type) && facts.wants_anthropic;
    AttemptPlan {
        conversion: conversion_of(app_type, facts),
        official_auth_passthrough: app_type is Codex && provider.codex_official,
        codex_to_anthropic: to_anthropic,
        impersonate_claude_code: to_anthropic && (provider.meta matches Some(meta)
            && meta.impersonate_claude_code == Some(true)),
        own_model_first: app_type is GrokBuild && !facts.model_is_fixed,
        own_model_in_conversion: (to_chat || to_anthropic) && !facts.model_is_fixed,
        strip_context_marker: facts.is_copilot || !to_anthropic,
        strip_fixed_marker: is_codex_like(app_type),
        flatten_tools: is_codex_like(app_type) && !to_chat && !to_anthropic
            && facts.needs_flat_tools,
        media_after_conversion: is_codex_like(app_type),
        apply_overrides: !facts.is_copilot,
    }
}

/// Decides how a request is made ready for a provider.
pub fn plan_attempt(app_type: AppType, provider: &Provider, facts: AttemptFacts) -> (plan:
    AttemptPlan)
    ensures
        plan == attempt_plan(app_type, provider@, facts),
{
    let codex = match app_type {
        AppType::Codex => true,
        _ => false,
    };
    let grok = match app_type {
        AppType::GrokBuild => true,
        _ => false,
    };
    let like = codex_like(app_type);
    let to_chat = like && facts.wants_chat;
    let to_anthropic = like && facts.wants_anthropic;
    let conversion = if to_chat {
        Conversion::CodexToChat
    } else if to_anthropic {
        Conversion::CodexToAnthropic
    } else if !facts.needs_transform {
        Conversion::Passthrough
    } else if facts.claude_adapter {
        Conversion::Claude
    } else {
        Conversion::Adapter
    };
    let impersonate = match &provider.meta {
        Some(meta) => match meta.impersonate_claude_code {
            Some(impersonate) => impersonate,
            None => false,
        },
        None => false,
    };
    AttemptPlan {
        conversion,
        official_auth_passthrough: codex && provider.codex_official,
        codex_to_anthropic: to_anthropic,
        impersonate_claude_code: to_anthropic && impersonate,
        own_model_first: grok && !facts.model_is_fixed,
        own_model_in_conversion: (to_chat || to_anthropic) && !facts.model_is_fixed,
        strip_context_marker: facts.is_copilot || !to_anthropic,
        strip_fixed_marker: like,
        flatten_tools: like && !to_chat && !to_anthropic && facts.needs_flat_tools,
        media_after_conversion: like,
        apply_overrides: !facts.is_copilot,
    }
}

/// Whether the upstream is asked not to compress its answer: where the answer is converted, and
/// where it streams.
pub fn forces_identity(app_type: AppType, facts: AttemptFacts, streaming: bool) -> (forces: bool)
    ensures
        forces == (facts.needs_transform || streaming || (is_codex_like(app_type) && (
        facts.wants_chat || facts.wants_anthropic))),
{
    facts.needs_transform || streaming || (codex_like(app_type) && (facts.wants_chat
        || facts.wants_anthropic))
}

/// An account whose tokens the proxy manages.
#[derive(Clone, Copy, Debug, PartialEq, Eq, Structural)]
pub enum ManagedAccount {
    Copilot,
    CodexOAuth,
    XaiOAuth,
}

/// How an account is called in a message.
pub open spec fn account_name(account: ManagedAccount) -> Seq<char> {
    match account {
        ManagedAccount::Copilot => "GitHub Copilot"@,
        ManagedAccount::CodexOAuth => "Codex OAuth"@,
        ManagedAccount::XaiOAuth => "xAI OAuth"@,
    }
}

/// The error for an account that gives no token: why it does not, or that there is no access to
/// it at all.
pub fn managed_account_error(account: ManagedAccount, cause: Option<&str>) -> (error: ProxyError)
    ensures
        error@ == ProxyErrorView::AuthError(
            match cause {
                Some(cause) => account_name(account) + " 认证失败: "@ + cause@,
                None => account_name(account) + " 认证不可用（无 AppHandle）"@,
            },
        ),
{
    let name = match account {
        ManagedAccount::Copilot => "GitHub Copilot",
        ManagedAccount::CodexOAuth => "Codex OAuth",
        ManagedAccount::XaiOAuth => "xAI OAuth",
    };
    match cause {
        Some(cause) => {
            let mut text = join(name, " 认证失败: ");
            text.append(cause);
            ProxyError::AuthError(text)
        },
        None => ProxyError::AuthError(join(name, " 认证不可用（无 AppHandle）")),
    }
}

/// The secrets that are kept out of the log: each once, and none that is empty.
pub open spec fn kept_secrets(api_key: Seq<char>, access_token: Option<Seq<char>>) -> Seq<
    Seq<char>,
> {
    let key = if api_key.len() > 0 {
        seq![api_key]
    } else {
        Seq::empty()
    };
    match access_token {
        Some(token) if token.len() > 0 && token != api_key => key.push(token),
        _ => key,
    }
}

/// The secrets that are kept out of the log.
pub fn log_secrets(api_key: &str, access_token: &Option<String>) -> (secrets: Vec<String>)
    ensures
        texts_view(secrets@) == kept_secrets(api_key@, opt_view(*access_token)),
{
    let mut secrets: Vec<String> = Vec::new();
    let ghost none = texts_view(secrets@);
    assert(none =~= Seq::<Seq<char>>::empty());
    if !api_key.is_empty() {
        secrets.push(api_key.to_owned());
        assert(texts_view(secrets@) =~= seq![api_key@]);
    }
    let ghost key = texts_view(secrets@);
    if let Some(token) = access_token {
        if !token.as_str().is_empty() && !list_has(&secrets, token.as_str()) {
            assert(token@ != api_key@) by {
                if token@ == api_key@ {
                    assert(key[0] == token@);
                    assert(key.contains(token@));
                }
            }
            secrets.push(token.clone());
            assert(texts_view(secrets@) =~= key.push(token@));
        } else {
            assert(token@.len() > 0 ==> token@ == api_key@);
        }
    }
    secrets
}

/// What is done to a request to Copilot.
#[derive(Clone, Copy, Debug, PartialEq, Eq, Structural)]
pub struct CopilotSteps {
    /// Tool results are merged with the text that follows them.
    pub merge_tool_results: bool,
    /// Thinking blocks are removed.
    pub strip_thinking: bool,
    /// The small model for warm-up requests is put in.
    pub downgrade: bool,
    /// The request gets an id that depends on its content alone.
    pub fixed_request_id: bool,
}

/// What is done to a request to Copilot, where its tuning is on.
pub fn copilot_steps(config: &CopilotOptimizerConfig, is_copilot: bool, is_warmup: bool) -> (steps:
    Option<CopilotSteps>)
    ensures
        steps == if is_copilot && config.enabled {
            Some(
                CopilotSteps {
                    merge_tool_results: config.tool_result_merging,
                    strip_thinking: config.strip_thinking,
                    downgrade: config.warmup_downgrade && is_warmup,
                    fixed_request_id: config.deterministic_request_id,
                },
            )
        } else {
            None
        },
{
    if !(is_copilot && config.enabled) {
        return None;
    }
    Some(
        CopilotSteps {
            merge_tool_results: config.tool_result_merging,
            strip_thinking: config.strip_thinking,
            downgrade: config.warmup_downgrade && is_warmup,
            fixed_request_id: config.deterministic_request_id,
        },
    )
}

/// Only requests of Codex and Grok Build are converted from the Responses protocol, and one that
/// is goes to that protocol alone.
pub proof fn conversions_are_exclusive(
    app_type: AppType,
    provider: ProviderView,
    facts: AttemptFacts,
)
    ensures
        ({
            let plan = attempt_plan(app_type, provider, facts);
            &&& plan.conversion is CodexToChat || plan.conversion is CodexToAnthropic
                ==> is_codex_like(app_type)
            &&& plan.flatten_tools ==> !(plan.conversion is CodexToChat)
                && !(plan.conversion is CodexToAnthropic)
            &&& plan.impersonate_claude_code ==> plan.codex_to_anthropic
            &&& plan.official_auth_passthrough ==> app_type is Codex
        }),
{
}

/// Requests of Codex and Grok Build go out as chat completions where the provider wants that, else
/// as Anthropic messages where it wants that; all others, and all other apps, go out as they are
/// unless they have to be converted.
pub proof fn requests_are_converted_as_the_provider_wants(
    app_type: AppType,
    provider: ProviderView,
    facts: AttemptFacts,
)
    ensures
        ({
            let plan = attempt_plan(app_type, provider, facts);
            let responses = app_type is Codex || app_type is GrokBuild;
            &&& responses && facts.wants_chat ==> plan.conversion is CodexToChat
            &&& responses && !facts.wants_chat && facts.wants_anthropic
                ==> plan.conversion is CodexToAnthropic
            &&& !responses || (!facts.wants_chat && !facts.wants_anthropic) ==> {
                &&& !facts.needs_transform ==> plan.conversion is Passthrough
                &&& facts.needs_transform && facts.claude_adapter ==> plan.conversion is Claude
                &&& facts.needs_transform && !facts.claude_adapter ==> plan.conversion is Adapter
            }
            &&& plan.codex_to_anthropic <==> responses && facts.wants_anthropic
            &&& plan.flatten_tools <==> responses && facts.needs_flat_tools && !facts.wants_chat
                && !facts.wants_anthropic
        }),
{
}

/// Which model is put in and when: a route that fixes the model has its own, and nothing of the
/// provider's takes its place; the marker of a long context goes where the upstream does not know
/// it.
pub proof fn fixed_models_are_kept(
    app_type: AppType,
    provider: ProviderView,
    facts: AttemptFacts,
)
    ensures
        ({
            let plan = attempt_plan(app_type, provider, facts);
            let responses = app_type is Codex || app_type is GrokBuild;
            &&& facts.model_is_fixed ==> !plan.own_model_first && !plan.own_model_in_conversion
            &&& !facts.model_is_fixed ==> (plan.own_model_first <==> app_type is GrokBuild)
            &&& !facts.model_is_fixed ==> (plan.own_model_in_conversion <==> responses && (
            facts.wants_chat || facts.wants_anthropic))
            &&& facts.is_copilot ==> plan.strip_context_marker
            &&& !facts.is_copilot ==> (plan.strip_context_marker <==> !plan.codex_to_anthropic)
            &&& plan.strip_fixed_marker <==> responses
            &&& plan.media_after_conversion <==> responses
        }),
{
}

/// Overrides apply to every provider but Copilot; the client's own authorization is passed on to the
/// official Codex upstream alone; and a request looks like the native client's only where that is
/// set and it is sent as Anthropic messages.
pub proof fn providers_get_what_is_set_for_them(
    app_type: AppType,
    provider: ProviderView,
    facts: AttemptFacts,
)
    ensures
        ({
            let plan = attempt_plan(app_type, provider, facts);
            &&& plan.apply_overrides <==> !facts.is_copilot
            &&& plan.official_auth_passthrough <==> app_type is Codex && provider.codex_official
            &&& provider.meta is None ==> !plan.impersonate_claude_code
            &&& provider.meta matches Some(meta) ==> (plan.impersonate_claude_code
                <==> plan.codex_to_anthropic && meta.impersonate_claude_code == Some(true))
        }),
{
}

/// The key and the token are kept out of the log unless they are empty, and nothing else is.
pub proof fn keys_and_tokens_are_secrets(key: Seq<char>, token: Option<Seq<char>>, text: Seq<char>)
    ensures
        kept_secrets(key, token).contains(text) <==> text.len() > 0 && (text == key || token == Some(
            text,
        )),
        kept_secrets(key, token).no_duplicates(),
{
    let secrets = kept_secrets(key, token);
    if text.len() > 0 && text == key {
        assert(secrets[0] == text);
    }
    if text.len() > 0 && token == Some(text) && text != key {
        assert(secrets.last() == text);
    }
}

/// Accounts are called by their services' names.
pub proof fn accounts_are_called_by_their_services(account: ManagedAccount)
    ensures
        account is Copilot ==> account_name(account) == "GitHub Copilot"@,
        account is CodexOAuth ==> account_name(account) == "Codex OAuth"@,
        account is XaiOAuth ==> account_name(account) == "xAI OAuth"@,
{
}

/// A request to Copilot is tuned where the tuning is on, by the steps that are switched on, and a
/// small model is put in for a warm-up alone; no other request is.
pub proof fn copilot_requests_are_tuned(
    config: &CopilotOptimizerConfig,
    is_copilot: bool,
    is_warmup: bool,
    steps: Option<CopilotSteps>,
)
    requires
        call_ensures(copilot_steps, (config, is_copilot, is_warmup), steps),
    ensures
        !is_copilot || !config.enabled ==> steps is None,
        is_copilot && config.enabled ==> (steps matches Some(done) && {
            &&& done.merge_tool_results == config.tool_result_merging
            &&& done.strip_thinking == config.strip_thinking
            &&& done.fixed_request_id == config.deterministic_request_id
            &&& is_warmup ==> done.downgrade == config.warmup_downgrade
            &&& !is_warmup ==> !done.downgrade
        }),
{
}

/// An account that gives no token is told with its service's name, and why it gives none.
pub proof fn accounts_without_a_token_are_told(
    account: ManagedAccount,
    cause: &str,
    error: ProxyError,
    other: ProxyError,
)
    requires
        call_ensures(managed_account_error, (account, Some(cause)), error),
        call_ensures(managed_account_error, (account, None::<&str>), other),
    ensures
        error@ == ProxyErrorView::AuthError(account_name(account) + " 认证失败: "@ + cause@),
        other@ == ProxyErrorView::AuthError(account_name(account) + " 认证不可用（无 AppHandle）"@),
{
}

/// An answer must not be compressed where it streams or is converted, and else may be.
pub proof fn converted_answers_are_not_compressed(
    app_type: AppType,
    facts: AttemptFacts,
    streaming: bool,
    forces: bool,
)
    requires
        call_ensures(forces_identity, (app_type, facts, streaming), forces),
    ensures
        streaming || facts.needs_transform ==> forces,
        (app_type is Codex || app_type is GrokBuild) && (facts.wants_chat || facts.wants_anthropic)
            ==> forces,
        !streaming && !facts.needs_transform && !(app_type is Codex) && !(app_type is GrokBuild)
            ==> !forces,
        !streaming && !facts.needs_transform && !facts.wants_chat && !facts.wants_anthropic
            ==> !forces,
{
}

} // verus!
