//! The body of a request as it is sent: a provider's overrides come last, and nothing that they
//! say gets a test request past its bounds.

use vstd::prelude::*;
use vstd::string::*;
use crate::diagnostic::{
    bounds_enforced, bounds_leave_others, limit_at, limits_are_within_bounds, limits_stay_stated, one,
    one_answer_is_asked_for, opt_number, states_limit, value_at, DiagnosticContext, LimitField,
};
use crate::error::{ProxyError, ProxyErrorView};
use crate::forwarder::request_body::{
    apply_local_proxy_body_overrides, apply_model_override, merged,
};
use crate::json::{index_is_read_back, Json, JsonNumberView, JsonView};
use crate::provider::{LocalProxyRequestOverrides, LocalProxyRequestOverridesView};
use crate::text::opt_view;

verus! {

/// The bounds of a test request: the most output, and the temperature that is not to change.
pub struct BoundsView {
    pub output_limit: u64,
    pub temperature: Option<JsonNumberView>,
}

/// The bounds of a request, where it is a test.
pub open spec fn bounds_of(context: Option<&DiagnosticContext>) -> Option<BoundsView> {
    match context {
        Some(context) => Some(
            BoundsView {
                output_limit: context.output_limit,
                temperature: opt_number(context.controlled_temperature),
            },
        ),
        None => None,
    }
}

/// The value of optional overrides.
pub open spec fn opt_overrides(overrides: Option<&LocalProxyRequestOverrides>) -> Option<
    LocalProxyRequestOverridesView,
> {
    match overrides {
        Some(overrides) => Some(overrides@),
        None => None,
    }
}

/// A body with a provider's overrides merged into it, and whether that changed it.
pub open spec fn overridden(body: JsonView, overrides: Option<LocalProxyRequestOverridesView>) -> (
    JsonView,
    bool,
) {
    match overrides {
        Some(overrides) => match overrides.body {
            Some(patch) if patch is Object => merged(body, patch, true),
            _ => (body, false),
        },
        None => (body, false),
    }
}

/// A body whose model is fixed, where the route fixes it.
pub open spec fn with_model(body: JsonView, model: Option<Seq<char>>) -> JsonView {
    match model {
        Some(model) => body.with_index("model"@, JsonView::Str(model)),
        None => body,
    }
}

/// A body as it is sent, and why it is not if so: overrides, then the fixed model, then the bounds
/// of a test.
pub open spec fn final_outcome(
    body: JsonView,
    overrides: Option<LocalProxyRequestOverridesView>,
    model: Option<Seq<char>>,
    bounds: Option<BoundsView>,
) -> (JsonView, Option<ProxyErrorView>) {
    let stated = with_model(overridden(body, overrides).0, model);
    match bounds {
        Some(bounds) => bounds_enforced(stated, bounds.output_limit, bounds.temperature),
        None => (stated, None),
    }
}

/// Makes a body what is sent: the provider's overrides are merged into it, the model that the
/// route fixes is set, and a test request is brought within its bounds or refused. The answer says
/// whether the overrides changed the body.
pub fn final_body(
    context: Option<&DiagnosticContext>,
    body: &mut Json,
    overrides: Option<&LocalProxyRequestOverrides>,
    model: &Option<String>,
) -> (result: Result<bool, ProxyError>)
    requires
        model is Some ==> {
            let stated = overridden(old(body)@, opt_overrides(overrides)).0;
            stated is Object || stated is Null
        },
    ensures
        ({
            let (sent, refused) = final_outcome(
                old(body)@,
                opt_overrides(overrides),
                opt_view(*model),
                bounds_of(context),
            );
            &&& final(body)@ == sent
            &&& match result {
                Ok(changed) => refused is None && changed == overridden(
                    old(body)@,
                    opt_overrides(overrides),
                ).1,
                Err(error) => refused == Some(error@),
            }
        }),
{
    let changed = match overrides {
        Some(overrides) => apply_local_proxy_body_overrides(body, overrides),
        None => false,
    };
    if model.is_some() {
        apply_model_override(body, model);
    }
    if let Some(context) = context {
        context.enforce_output_limits(body)?;
    }
    Ok(changed)
}

/// A test request that is sent states a limit on its output, and none over its bound, whatever
/// the provider's overrides say.
pub proof fn sent_limits_are_within_bounds(
    body: JsonView,
    overrides: Option<LocalProxyRequestOverridesView>,
    model: Option<Seq<char>>,
    bounds: BoundsView,
    field: LimitField,
)
    requires
        bounds.output_limit > 0,
        final_outcome(body, overrides, model, Some(bounds)).1 is None,
    ensures
        ({
            let sent = final_outcome(body, overrides, model, Some(bounds)).0;
            &&& states_limit(sent)
            &&& value_at(sent, field) is Some ==> (limit_at(sent, field) matches Some(limit) && 1
                <= limit <= bounds.output_limit)
        }),
{
    let stated = with_model(overridden(body, overrides).0, model);
    limits_stay_stated(stated, bounds.output_limit, bounds.temperature, field);
    if value_at(stated, field) is Some {
        limits_are_within_bounds(stated, bounds.output_limit, bounds.temperature, field);
    }
}

/// A test request that is sent asks for one answer, whatever the provider's overrides say.
pub proof fn one_answer_is_sent_for(
    body: JsonView,
    overrides: Option<LocalProxyRequestOverridesView>,
    model: Option<Seq<char>>,
    bounds: BoundsView,
)
    requires
        final_outcome(body, overrides, model, Some(bounds)).1 is None,
    ensures
        ({
            let sent = final_outcome(body, overrides, model, Some(bounds)).0;
            &&& sent.member("n"@) matches Some(count) ==> count == one()
            &&& sent.member("generationConfig"@) matches Some(JsonView::Object(_)) ==> sent.member2(
                "generationConfig"@,
                "candidateCount"@,
            ) == Some(one())
        }),
{
    let stated = with_model(overridden(body, overrides).0, model);
    one_answer_is_asked_for(stated, bounds.output_limit, bounds.temperature);
}

/// The model that the route fixes is the one that is sent, whatever the overrides say and whether
/// or not the request is a test.
pub proof fn the_fixed_model_is_sent(
    body: JsonView,
    overrides: Option<LocalProxyRequestOverridesView>,
    model: Seq<char>,
    bounds: Option<BoundsView>,
)
    requires
        final_outcome(body, overrides, Some(model), bounds).1 is None,
        ({
            let stated = overridden(body, overrides).0;
            stated is Object || stated is Null
        }),
    ensures
        final_outcome(body, overrides, Some(model), bounds).0.member("model"@) == Some(
            JsonView::Str(model),
        ),
{
    let stated = overridden(body, overrides).0;
    index_is_read_back(stated, "model"@, JsonView::Str(model));
    if let Some(bounds) = bounds {
        reveal_strlit("model");
        reveal_strlit("max_tokens");
        reveal_strlit("max_completion_tokens");
        reveal_strlit("max_output_tokens");
        reveal_strlit("generationConfig");
        reveal_strlit("n");
        assert("model"@.len() == 5);
        assert("max_tokens"@.len() == 10);
        assert("max_completion_tokens"@.len() == 21);
        assert("max_output_tokens"@.len() == 17);
        assert("generationConfig"@.len() == 16);
        assert("n"@.len() == 1);
        bounds_leave_others(
            with_model(stated, Some(model)),
            bounds.output_limit,
            bounds.temperature,
            "model"@,
        );
    }
}

/// Without overrides, a fixed model and bounds a body is sent as it is, and is never refused but by
/// the bounds of a test.
pub proof fn plain_bodies_are_sent_as_they_are(
    body: JsonView,
    overrides: Option<LocalProxyRequestOverridesView>,
    model: Option<Seq<char>>,
)
    ensures
        final_outcome(body, overrides, model, None).1 is None,
        (overrides matches Some(stated) ==> !(stated.body matches Some(JsonView::Object(_)))) && model
            is None ==> final_outcome(body, overrides, model, None).0 == body,
{
}

/// A provider's overrides are merged into the body that is sent, where they are an object; whether
/// they changed it is told with it.
pub proof fn overrides_are_merged_into_the_body(
    body: JsonView,
    overrides: LocalProxyRequestOverridesView,
    patch: JsonView,
)
    ensures
        overrides.body == Some(patch) && patch is Object ==> final_outcome(
            body,
            Some(overrides),
            None,
            None,
        ).0 == merged(body, patch, true).0 && overridden(body, Some(overrides)).1 == merged(
            body,
            patch,
            true,
        ).1,
        overrides.body == Some(patch) && !(patch is Object) ==> final_outcome(
            body,
            Some(overrides),
            None,
            None,
        ).0 == body && !overridden(body, Some(overrides)).1,
        overrides.body is None ==> final_outcome(body, Some(overrides), None, None).0 == body
            && !overridden(body, Some(overrides)).1,
        final_outcome(body, None, None, None).0 == body,
        !overridden(body, None).1,
{
}

} // verus!
