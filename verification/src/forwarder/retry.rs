//! What follows a failed attempt: another one at the same provider, the next provider, or none.

use vstd::prelude::*;
use vstd::string::*;
use crate::codex_auto_review::{
    apply_fallback, fallback_after_error, fallback_happens_once, model_after_error,
};
use crate::error::{ErrorCategory, ProxyError, ProxyErrorView};
use crate::forwarder::stream_start::opt_policy;
use crate::json::{Json, JsonView};
use crate::provider::{copy_opt, AppType, Provider, ProviderView};
use crate::provider_retry::{
    facts_of, resolved_policy, ResolvedRetryPolicy, ResolvedRetryPolicyView, RetryLimit,
};
use crate::text::opt_view;

verus! {

/// Whether an upstream status is the request's own fault.
pub open spec fn is_client_status(status: u16) -> bool {
    ||| status == 400
    ||| status == 405
    ||| status == 406
    ||| status == 413
    ||| status == 414
    ||| status == 415
    ||| status == 422
    ||| status == 501
}

/// Whether another provider may help with an error. Trouble with the login of an official
/// account or of a managed xAI account stays with that account.
pub open spec fn category_of(error: ProxyErrorView, provider: ProviderView) -> ErrorCategory {
    let official_login = match error {
        ProxyErrorView::AuthError(_) => true,
        ProxyErrorView::UpstreamError { status, .. } => status == 401 || status == 403,
        ProxyErrorView::UpstreamBodyTimeout { status, .. } => status == 401 || status == 403,
        _ => false,
    };
    if provider.codex_official && official_login {
        ErrorCategory::NonRetryable
    } else if provider.provider_type() == Some("xai_oauth"@) && error is AuthError {
        ErrorCategory::NonRetryable
    } else {
        match error {
            ProxyErrorView::Timeout(_)
            | ProxyErrorView::ForwardFailed(_)
            | ProxyErrorView::ProviderUnhealthy(_)
            | ProxyErrorView::ConfigError(_)
            | ProxyErrorView::TransformError(_)
            | ProxyErrorView::AuthError(_)
            | ProxyErrorView::StreamIdleTimeout(_) => ErrorCategory::Retryable,
            ProxyErrorView::UpstreamError { status, .. } => if is_client_status(status) {
                ErrorCategory::NonRetryable
            } else {
                ErrorCategory::Retryable
            },
            ProxyErrorView::UpstreamBodyTimeout { status, .. } => if is_client_status(status) {
                ErrorCategory::NonRetryable
            } else {
                ErrorCategory::Retryable
            },
            _ => ErrorCategory::NonRetryable,
        }
    }
}

fn client_status(status: u16) -> (is: bool)
    ensures
        is == is_client_status(status),
{
    status == 400 || status == 405 || status == 406 || status == 413 || status == 414 || status
        == 415 || status == 422 || status == 501
}

/// Whether another provider may help with an error.
pub fn categorize_proxy_error(error: &ProxyError, provider: &Provider) -> (category: ErrorCategory)
    ensures
        category == category_of(error@, provider@),
{
    let login = match error {
        ProxyError::AuthError(_) => true,
        _ => false,
    };
    let status: Option<u16> = match error {
        ProxyError::UpstreamError { status, .. } => Some(*status),
        ProxyError::UpstreamBodyTimeout { status, .. } => Some(*status),
        _ => None,
    };
    let refused = match status {
        Some(status) => status == 401 || status == 403,
        None => false,
    };
    if provider.codex_official && (login || refused) {
        return ErrorCategory::NonRetryable;
    }
    if login && provider.has_type("xai_oauth") {
        return ErrorCategory::NonRetryable;
    }
    if let Some(status) = status {
        return if client_status(status) {
            ErrorCategory::NonRetryable
        } else {
            ErrorCategory::Retryable
        };
    }
    match error {
        ProxyError::Timeout(_)
        | ProxyError::ForwardFailed(_)
        | ProxyError::ProviderUnhealthy(_)
        | ProxyError::ConfigError(_)
        | ProxyError::TransformError(_)
        | ProxyError::AuthError(_)
        | ProxyError::StreamIdleTimeout(_) => ErrorCategory::Retryable,
        _ => ErrorCategory::NonRetryable,
    }
}

/// The message of an error: the body of an upstream's answer, else the error as a text.
pub open spec fn error_message(error: ProxyErrorView) -> Option<Seq<char>> {
    match error {
        ProxyErrorView::UpstreamError { body, .. } => body,
        _ => Some(error.message()),
    }
}

/// The message of an error.
pub fn extract_error_message(error: &ProxyError) -> (message: Option<String>)
    ensures
        opt_view(message) == error_message(error@),
{
    match error {
        ProxyError::UpstreamError { body, .. } => copy_opt(body),
        _ => Some(error.message()),
    }
}

/// Whether an attempt falls back from an earlier provider.
pub fn role_route_fallback(attempted_providers: usize) -> (fallback: bool)
    ensures
        fallback == (attempted_providers > 0),
{
    attempted_providers > 0
}

/// What follows a failed attempt at the same provider.
#[derive(Debug, PartialEq, Eq)]
pub enum RetryDecision {
    /// Try again at once, with this model in the request.
    Fallback(String),
    /// Try again after a while.
    Wait { delay_ms: u64 },
    /// Do not try again. `matched` says that the policy wanted to and had no retries left.
    GiveUp { matched: bool },
}

/// What follows a failed attempt, as a mathematical value.
pub enum RetryDecisionView {
    Fallback(Seq<char>),
    Wait { delay_ms: u64 },
    GiveUp { matched: bool },
}

impl View for RetryDecision {
    type V = RetryDecisionView;

    open spec fn view(&self) -> RetryDecisionView {
        match self {
            RetryDecision::Fallback(model) => RetryDecisionView::Fallback(model@),
            RetryDecision::Wait { delay_ms } => RetryDecisionView::Wait { delay_ms: *delay_ms },
            RetryDecision::GiveUp { matched } => RetryDecisionView::GiveUp { matched: *matched },
        }
    }
}

/// What a policy makes of an error after that many retries.
pub open spec fn policy_decision(
    policy: Option<ResolvedRetryPolicyView>,
    error: ProxyErrorView,
    retries: usize,
) -> RetryDecisionView {
    match policy {
        Some(policy) => if policy.reason(facts_of(error)) is None {
            RetryDecisionView::GiveUp { matched: false }
        } else if !policy.allows_retry(retries as nat) {
            RetryDecisionView::GiveUp { matched: true }
        } else if retries == usize::MAX {
            RetryDecisionView::GiveUp { matched: false }
        } else {
            RetryDecisionView::Wait { delay_ms: policy.retry_delay_ms }
        },
        None => RetryDecisionView::GiveUp { matched: false },
    }
}

/// What follows a failed attempt: the stand-in model comes first, and counts as no retry.
pub open spec fn retry_decision(
    app_type: AppType,
    endpoint: Seq<char>,
    provider: ProviderView,
    body: JsonView,
    error: ProxyErrorView,
    policy: Option<ResolvedRetryPolicyView>,
    retries: usize,
) -> RetryDecisionView {
    match model_after_error(app_type, endpoint, provider, body, error) {
        Some(model) => RetryDecisionView::Fallback(model),
        None => policy_decision(policy, error, retries),
    }
}

/// Decides what follows a failed attempt. The body gets the stand-in model where that is tried
/// next, and the number of retries goes up where there is one.
pub fn after_failed_attempt(
    app_type: AppType,
    endpoint: &str,
    provider: &Provider,
    body: &mut Json,
    error: &ProxyError,
    policy: Option<&ResolvedRetryPolicy>,
    retries: &mut usize,
) -> (decision: RetryDecision)
    ensures
        decision@ == retry_decision(
            app_type,
            endpoint@,
            provider@,
            old(body)@,
            error@,
            opt_policy(policy),
            *old(retries),
        ),
        final(body)@ == match decision@ {
            RetryDecisionView::Fallback(model) => old(body)@.with_index(
                "model"@,
                JsonView::Str(model),
            ),
            _ => old(body)@,
        },
        *final(retries) == match decision@ {
            RetryDecisionView::Wait { .. } => *old(retries) + 1,
            _ => *old(retries) as int,
        },
{
    if let Some(model) = fallback_after_error(app_type, endpoint, provider, body, error) {
        apply_fallback(body, model.as_str());
        return RetryDecision::Fallback(model);
    }
    let policy = match policy {
        Some(policy) => policy,
        None => {
            return RetryDecision::GiveUp { matched: false };
        },
    };
    if policy.match_error(error).is_none() {
        return RetryDecision::GiveUp { matched: false };
    }
    if !policy.allows_retry(*retries) {
        return RetryDecision::GiveUp { matched: true };
    }
    if *retries == usize::MAX {
        return RetryDecision::GiveUp { matched: false };
    }
    *retries = *retries + 1;
    RetryDecision::Wait { delay_ms: policy.retry_delay_ms() }
}

/// However often an attempt fails, a policy with a limit is never exceeded.
pub proof fn retries_stay_within_the_limit(
    policy: ResolvedRetryPolicyView,
    error: ProxyErrorView,
    retries: usize,
)
    requires
        policy_decision(Some(policy), error, retries) is Wait,
    ensures
        policy.retry_limit matches RetryLimit::Finite(max) ==> retries + 1 <= max,
        retries + 1 <= usize::MAX,
{
}

/// The stand-in model is tried at most once: a request that has it is not given it again,
/// whatever error comes next.
pub proof fn the_stand_in_is_tried_once(
    app_type: AppType,
    endpoint: Seq<char>,
    provider: ProviderView,
    body: JsonView,
    error: ProxyErrorView,
    next_error: ProxyErrorView,
    policy: Option<ResolvedRetryPolicyView>,
    retries: usize,
)
    ensures
        retry_decision(app_type, endpoint, provider, body, error, policy, retries) matches
            RetryDecisionView::Fallback(model) ==> !(retry_decision(
            app_type,
            endpoint,
            provider,
            body.with_index("model"@, JsonView::Str(model)),
            next_error,
            policy,
            retries,
        ) is Fallback),
{
    if let Some(model) = model_after_error(app_type, endpoint, provider, body, error) {
        fallback_happens_once(app_type, endpoint, provider, body, model);
    }
}

/// Where the policy has retries left for an error it names, the provider is tried again.
pub proof fn named_errors_are_retried(
    policy: ResolvedRetryPolicyView,
    error: ProxyErrorView,
    retries: usize,
)
    requires
        policy.reason(facts_of(error)) is Some,
        policy.allows_retry(retries as nat),
        retries < usize::MAX,
    ensures
        policy_decision(Some(policy), error, retries) == (RetryDecisionView::Wait {
            delay_ms: policy.retry_delay_ms,
        }),
{
}

/// The answer of an upstream is the request's own fault for eight statuses, and for no other: then
/// no provider can help, and for every other status the next one may. The login of an official
/// account adds the two statuses by which it is refused.
pub proof fn statuses_say_who_is_at_fault(
    error: ProxyErrorView,
    provider: ProviderView,
    status: u16,
)
    requires
        match error {
            ProxyErrorView::UpstreamError { status: answered, .. } => answered == status,
            ProxyErrorView::UpstreamBodyTimeout { status: answered, .. } => answered == status,
            _ => false,
        },
    ensures
        category_of(error, provider) == ErrorCategory::NonRetryable <==> {
            ||| status == 400 || status == 405 || status == 406 || status == 413
            ||| status == 414 || status == 415 || status == 422 || status == 501
            ||| provider.codex_official && (status == 401 || status == 403)
        },
        category_of(error, provider) == ErrorCategory::NonRetryable || category_of(error, provider)
            == ErrorCategory::Retryable,
        500 <= status && status != 501 ==> category_of(error, provider) == ErrorCategory::Retryable,
        status == 404 || status == 408 || status == 409 || status == 429 ==> category_of(
            error,
            provider,
        ) == ErrorCategory::Retryable,
{
}

/// Trouble on the way to a provider, with its answer or with its settings is its own, whoever it
/// is: the next one may do better. A login that fails is, too, but for an official account and one
/// at xAI. Everything else is no provider's fault.
pub proof fn trouble_with_a_provider_is_its_own(error: ProxyErrorView, provider: ProviderView)
    requires
        !(error is UpstreamError),
        !(error is UpstreamBodyTimeout),
    ensures
        error is Timeout || error is ForwardFailed || error is ProviderUnhealthy || error
            is ConfigError || error is TransformError || error is StreamIdleTimeout ==> category_of(
            error,
            provider,
        ) == ErrorCategory::Retryable,
        error is AuthError ==> (category_of(error, provider) == ErrorCategory::NonRetryable <==> (
        provider.codex_official || (provider.meta matches Some(meta) && meta.provider_type == Some(
            "xai_oauth"@,
        )))),
        error is AuthError ==> category_of(error, provider) != ErrorCategory::ClientAbort,
        error is DatabaseError || error is InvalidRequest || error is Internal || error
            is ResponseBodyTooLarge || error is NoAvailableProvider || error
            is AllProvidersCircuitOpen || error is NoProvidersConfigured || error
            is MaxRetriesExceeded ==> category_of(error, provider) == ErrorCategory::NonRetryable,
{
}

/// A provider whose policy asks for a number of retries, a hundred at most, is asked again after an
/// error that the policy names exactly that often, each time after the delay that is set; then the
/// policy gives up, and says that the error was one of its own.
pub proof fn providers_are_retried_as_often_as_set(
    app_type: AppType,
    endpoint: Seq<char>,
    provider: ProviderView,
    body: JsonView,
    error: ProxyErrorView,
    global_enabled: bool,
    retries: usize,
)
    requires
        provider.meta matches Some(meta) && (meta.local_proxy_retry_policy matches Some(raw)
            && raw.max_retries > 0 && 1 <= raw.retry_delay_ms <= 60_000),
        resolved_policy(app_type, body, provider, global_enabled) is Some,
        model_after_error(app_type, endpoint, provider, body, error) is None,
    ensures
        ({
            let raw = provider.meta->Some_0.local_proxy_retry_policy->Some_0;
            let policy = resolved_policy(app_type, body, provider, global_enabled);
            let decision = retry_decision(
                app_type,
                endpoint,
                provider,
                body,
                error,
                policy,
                retries,
            );
            let named = policy->Some_0.reason(facts_of(error)) is Some;
            &&& named && retries < raw.max_retries && retries < 100 ==> decision == (
            RetryDecisionView::Wait { delay_ms: raw.retry_delay_ms })
            &&& named && (retries >= raw.max_retries || retries >= 100) ==> decision == (
            RetryDecisionView::GiveUp { matched: true })
            &&& !named ==> decision == (RetryDecisionView::GiveUp { matched: false })
        }),
{
}

/// Without a policy nothing is repeated at the same provider, but with the stand-in model.
pub proof fn nothing_is_repeated_without_a_policy(
    app_type: AppType,
    endpoint: Seq<char>,
    provider: ProviderView,
    body: JsonView,
    error: ProxyErrorView,
    retries: usize,
)
    ensures
        ({
            let decision = retry_decision(
                app_type,
                endpoint,
                provider,
                body,
                error,
                None,
                retries,
            );
            &&& !(decision is Wait)
            &&& decision is GiveUp ==> decision == (RetryDecisionView::GiveUp { matched: false })
        }),
{
}

/// The message of an error is what the upstream said where it answered, and else the error itself.
pub proof fn upstreams_speak_for_themselves(error: ProxyErrorView)
    ensures
        error matches ProxyErrorView::UpstreamError { body, .. } ==> error_message(error) == body,
        !(error is UpstreamError) ==> error_message(error) == Some(error.message()),
{
}

} // verus!
