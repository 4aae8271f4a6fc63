//! Routing of requests for the approval model of Codex.

use vstd::prelude::*;
use vstd::string::*;
use crate::error::{ProxyError, ProxyErrorView};
use crate::json::{set_member_is_read_back, Json, JsonView};
use crate::provider::{copy_opt, AppType, CodexAutoReviewMode, Provider, ProviderView};
use crate::text::{
    ascii_lowercase, contains, contains_text, ends_with, found_texts_are_there, has_suffix, is_text,
    opt_view, same_text, split_first, split_once, texts_are_cut_at_the_first_occurrence,
    to_ascii_lowercase, trim, trimmed,
};

verus! {

/// Whether a request asks for the approval model.
pub open spec fn auto_review_model(app_type: AppType, body: JsonView) -> bool {
    app_type is Codex && body.member_text("model"@) == Some("codex-auto-review"@)
}

/// Whether a request asks for the approval model.
pub fn is_auto_review_model(app_type: AppType, body: &Json) -> (is: bool)
    ensures
        is == auto_review_model(app_type, body@),
{
    match app_type {
        AppType::Codex => match body.get_str("model") {
            Some(model) => same_text(model, "codex-auto-review"),
            None => false,
        },
        _ => false,
    }
}

/// Whether an endpoint is that of the Responses protocol, whatever its query.
pub open spec fn responses_endpoint(endpoint: Seq<char>) -> bool {
    has_suffix(split_first(endpoint, '?').0, "/responses"@)
}

/// Whether an endpoint is that of the Responses protocol, whatever its query.
pub fn is_responses_endpoint(endpoint: &str) -> (is: bool)
    ensures
        is == responses_endpoint(endpoint@),
{
    ends_with(split_once(endpoint, '?').0, "/responses")
}

/// Whether a request is one for approval.
pub open spec fn auto_review_request(
    app_type: AppType,
    endpoint: Seq<char>,
    body: JsonView,
) -> bool {
    auto_review_model(app_type, body) && responses_endpoint(endpoint)
}

fn is_auto_review_request(app_type: AppType, endpoint: &str, body: &Json) -> (is: bool)
    ensures
        is == auto_review_request(app_type, endpoint@, body@),
{
    is_auto_review_model(app_type, body) && is_responses_endpoint(endpoint)
}

/// The mode a provider is configured with; as the client asked where none is.
pub open spec fn review_mode(provider: ProviderView) -> CodexAutoReviewMode {
    match provider.meta {
        Some(meta) => match meta.codex_auto_review_mode {
            Some(mode) => mode,
            None => CodexAutoReviewMode::Native,
        },
        None => CodexAutoReviewMode::Native,
    }
}

/// The mode a provider is configured with.
pub fn configured_mode(provider: &Provider) -> (mode: CodexAutoReviewMode)
    ensures
        mode == review_mode(provider@),
{
    match &provider.meta {
        Some(meta) => match meta.codex_auto_review_mode {
            Some(mode) => mode,
            None => CodexAutoReviewMode::Native,
        },
        None => CodexAutoReviewMode::Native,
    }
}

/// The model that stands in for the approval model: the configured one, else the provider's
/// own upstream model, and never the approval model itself.
pub open spec fn stand_in_model(provider: ProviderView) -> Option<Seq<char>> {
    let upstream = match provider.codex_upstream_model {
        Some(model) if model != "codex-auto-review"@ => Some(model),
        _ => None,
    };
    match provider.meta {
        Some(meta) => match meta.codex_auto_review_fallback_model {
            Some(model) if trimmed(model).len() > 0 && trimmed(model) != "codex-auto-review"@ => {
                Some(trimmed(model))
            },
            _ => upstream,
        },
        None => upstream,
    }
}

/// The model that stands in for the approval model.
pub fn fallback_model(provider: &Provider) -> (model: Option<String>)
    ensures
        opt_view(model) == stand_in_model(provider@),
{
    if let Some(meta) = &provider.meta {
        if let Some(model) = &meta.codex_auto_review_fallback_model {
            let model = trim(model.as_str());
            if !model.is_empty() && !same_text(model, "codex-auto-review") {
                return Some(model.to_owned());
            }
        }
    }
    if is_text(&provider.codex_upstream_model, "codex-auto-review") {
        return None;
    }
    copy_opt(&provider.codex_upstream_model)
}

/// Sets the model of a request.
pub fn apply_fallback(body: &mut Json, model: &str)
    requires
        old(body)@ is Object || old(body)@ is Null,
    ensures
        final(body)@ == old(body)@.with_index("model"@, JsonView::Str(model@)),
{
    body.set_index("model", Json::Str(model.to_owned()));
}

/// The model a request is rewritten to before it is sent, where it is.
pub open spec fn initial_model(
    app_type: AppType,
    endpoint: Seq<char>,
    provider: ProviderView,
    body: JsonView,
) -> Option<Seq<char>> {
    if auto_review_request(app_type, endpoint, body) && review_mode(provider) is Fallback {
        stand_in_model(provider)
    } else {
        None
    }
}

/// Rewrites a request for approval to the stand-in model where the provider always uses it.
pub fn apply_initial_policy(
    app_type: AppType,
    endpoint: &str,
    provider: &Provider,
    body: &mut Json,
) -> (model: Option<String>)
    ensures
        opt_view(model) == initial_model(app_type, endpoint@, provider@, old(body)@),
        final(body)@ == (match initial_model(app_type, endpoint@, provider@, old(body)@) {
            Some(model) => old(body)@.with_member("model"@, JsonView::Str(model)),
            None => old(body)@,
        }),
{
    if !is_auto_review_request(app_type, endpoint, body) || configured_mode(provider)
        != CodexAutoReviewMode::Fallback {
        return None;
    }
    match fallback_model(provider) {
        Some(model) => {
            apply_fallback(body, model.as_str());
            Some(model)
        },
        None => None,
    }
}

/// Whether a text says that a model is not to be had.
pub open spec fn model_unavailable_text(message: Seq<char>) -> bool {
    ||| contains_text(message, "model_not_found"@)
    ||| contains_text(message, "model not found"@)
    ||| contains_text(message, "unknown model"@)
    ||| contains_text(message, "unsupported model"@)
    ||| contains_text(message, "invalid model"@)
    ||| contains_text(message, "model is not available"@)
    ||| contains_text(message, "model unavailable"@)
    ||| contains_text(message, "no available channel for model"@)
    ||| contains_text(message, "does not support model"@)
    ||| (contains_text(message, "does not exist"@) && (contains_text(message, "model"@)
        || contains_text(message, "codex-auto-review"@)))
}

/// Whether an error says that the upstream lacks the model.
pub open spec fn model_unavailable(error: ProxyErrorView) -> bool {
    &&& error matches ProxyErrorView::UpstreamError { status, body }
    &&& status == 400 || status == 404 || status == 422 || status == 500 || status == 502 || status
        == 503 || status == 504
    &&& body matches Some(body)
    &&& model_unavailable_text(ascii_lowercase(body))
}

/// Whether an error says that the upstream lacks the model.
pub fn is_model_unavailable_error(error: &ProxyError) -> (unavailable: bool)
    ensures
        unavailable == model_unavailable(error@),
{
    match error {
        ProxyError::UpstreamError { status, body } => {
            let status: u16 = *status;
            if !(status == 400 || status == 404 || status == 422 || status == 500 || status == 502
                || status == 503 || status == 504) {
                return false;
            }
            match body {
                Some(body) => {
                    let lower = to_ascii_lowercase(body.as_str());
                    let m = lower.as_str();
                    contains(m, "model_not_found") || contains(m, "model not found") || contains(
                        m,
                        "unknown model",
                    ) || contains(m, "unsupported model") || contains(m, "invalid model")
                        || contains(m, "model is not available") || contains(m, "model unavailable")
                        || contains(m, "no available channel for model") || contains(
                        m,
                        "does not support model",
                    ) || (contains(m, "does not exist") && (contains(m, "model") || contains(
                        m,
                        "codex-auto-review",
                    )))
                },
                None => false,
            }
        },
        _ => false,
    }
}

/// The model a request is tried again with after an error, where it is.
pub open spec fn model_after_error(
    app_type: AppType,
    endpoint: Seq<char>,
    provider: ProviderView,
    body: JsonView,
    error: ProxyErrorView,
) -> Option<Seq<char>> {
    if auto_review_request(app_type, endpoint, body) && review_mode(provider) is Auto
        && model_unavailable(error) {
        stand_in_model(provider)
    } else {
        None
    }
}

/// The model a request is tried again with after an error, where it is.
pub fn fallback_after_error(
    app_type: AppType,
    endpoint: &str,
    provider: &Provider,
    body: &Json,
    error: &ProxyError,
) -> (model: Option<String>)
    ensures
        opt_view(model) == model_after_error(app_type, endpoint@, provider@, body@, error@),
{
    if !is_auto_review_request(app_type, endpoint, body) || configured_mode(provider)
        != CodexAutoReviewMode::Auto || !is_model_unavailable_error(error) {
        return None;
    }
    fallback_model(provider)
}

/// The stand-in for the approval model is never the approval model, so a request that was
/// rewritten is no request for approval any more and is rewritten only once.
pub proof fn fallback_happens_once(
    app_type: AppType,
    endpoint: Seq<char>,
    provider: ProviderView,
    body: JsonView,
    model: Seq<char>,
)
    requires
        body is Object,
        stand_in_model(provider) == Some(model),
    ensures
        model != "codex-auto-review"@,
        !auto_review_request(
            app_type,
            endpoint,
            body.with_member("model"@, JsonView::Str(model)),
        ),
        forall|error: ProxyErrorView|
            model_after_error(
                app_type,
                endpoint,
                provider,
                body.with_member("model"@, JsonView::Str(model)),
                error,
            ) is None,
{
    set_member_is_read_back(body, "model"@, JsonView::Str(model));
}

/// A request that is not one for approval is left as it is, whatever the provider's mode.
pub proof fn ordinary_requests_are_left_alone(
    app_type: AppType,
    endpoint: Seq<char>,
    provider: ProviderView,
    body: JsonView,
    error: ProxyErrorView,
)
    requires
        !auto_review_request(app_type, endpoint, body) || review_mode(provider) is Native,
    ensures
        initial_model(app_type, endpoint, provider, body) is None,
        model_after_error(app_type, endpoint, provider, body, error) is None,
{
}

/// An endpoint is that of the Responses protocol where its path ends with that name, whatever the
/// query says.
pub proof fn queries_do_not_matter_to_the_endpoint(path: Seq<char>, query: Seq<char>)
    requires
        !path.contains('?'),
    ensures
        responses_endpoint(path) == responses_endpoint(path + seq!['?'] + query),
        responses_endpoint(path) <==> path.len() >= 10 && path.skip(path.len() - 10)
            == "/responses"@,
{
    texts_are_cut_at_the_first_occurrence(path, '?', query);
    reveal_strlit("/responses");
    assert("/responses"@.len() == 10);
    found_texts_are_there(path, "/responses"@);
    if path.len() >= 10 && path.skip(path.len() - 10) == "/responses"@ {
        assert(path.subrange(path.len() - 10, path.len() as int) =~= path.skip(path.len() - 10));
    }
}

/// The model that stands in for the approval model is the one that is configured for that, without
/// white space at its ends, unless that is blank or the approval model; else the provider's own,
/// unless that is the approval model.
pub proof fn stand_ins_are_configured(provider: ProviderView)
    ensures
        ({
            let configured = match provider.meta {
                Some(meta) => match meta.codex_auto_review_fallback_model {
                    Some(model) => trimmed(model),
                    None => Seq::empty(),
                },
                None => Seq::empty(),
            };
            let named = configured.len() > 0 && configured != "codex-auto-review"@;
            &&& named ==> stand_in_model(provider) == Some(configured)
            &&& !named && provider.codex_upstream_model != Some("codex-auto-review"@)
                ==> stand_in_model(provider) == provider.codex_upstream_model
            &&& !named && provider.codex_upstream_model == Some("codex-auto-review"@)
                ==> stand_in_model(provider) is None
        }),
{
}

/// A request for approval gets the stand-in model before it is sent where the provider always uses
/// it, and after an error where it does so when the model is lacking; a provider without a mode
/// does neither.
pub proof fn stand_ins_come_in_by_the_mode(
    endpoint: Seq<char>,
    provider: ProviderView,
    body: JsonView,
    error: ProxyErrorView,
)
    requires
        body.member("model"@) == Some(JsonView::Str("codex-auto-review"@)),
        responses_endpoint(endpoint),
    ensures
        ({
            let mode = match provider.meta {
                Some(meta) => meta.codex_auto_review_mode,
                None => None,
            };
            let first = initial_model(AppType::Codex, endpoint, provider, body);
            let later = model_after_error(AppType::Codex, endpoint, provider, body, error);
            &&& mode == Some(CodexAutoReviewMode::Fallback) ==> first == stand_in_model(provider)
                && later is None
            &&& mode == Some(CodexAutoReviewMode::Auto) ==> first is None && (model_unavailable(
                error,
            ) ==> later == stand_in_model(provider)) && (!model_unavailable(error) ==> later
                is None)
            &&& mode == Some(CodexAutoReviewMode::Native) || mode is None ==> first is None && later
                is None
        }),
{
}

/// Only requests of Codex for the approval model, at the endpoint of the Responses protocol, are
/// ever given another model.
pub proof fn only_approval_requests_are_rewritten(
    app_type: AppType,
    endpoint: Seq<char>,
    provider: ProviderView,
    body: JsonView,
    error: ProxyErrorView,
)
    ensures
        initial_model(app_type, endpoint, provider, body) is Some || model_after_error(
            app_type,
            endpoint,
            provider,
            body,
            error,
        ) is Some ==> app_type == AppType::Codex && body.member("model"@) == Some(
            JsonView::Str("codex-auto-review"@),
        ) && responses_endpoint(endpoint),
{
}

/// An upstream lacks the model where it answers with one of seven statuses and says so, in any
/// case of letters, in one of these ways; and in no other case.
pub proof fn lacking_models_are_told_by_the_answer(error: ProxyErrorView)
    ensures
        model_unavailable(error) <==> (error matches ProxyErrorView::UpstreamError {
            status,
            body: Some(body),
        } && ({
            let said = ascii_lowercase(body);
            &&& status == 400 || status == 404 || status == 422 || status == 500 || status == 502
                || status == 503 || status == 504
            &&& contains_text(said, "model_not_found"@) || contains_text(said, "model not found"@)
                || contains_text(said, "unknown model"@) || contains_text(
                said,
                "unsupported model"@,
            ) || contains_text(said, "invalid model"@) || contains_text(
                said,
                "model is not available"@,
            ) || contains_text(said, "model unavailable"@) || contains_text(
                said,
                "no available channel for model"@,
            ) || contains_text(said, "does not support model"@) || (contains_text(
                said,
                "does not exist"@,
            ) && (contains_text(said, "model"@) || contains_text(said, "codex-auto-review"@)))
        })),
{
}

} // verus!
