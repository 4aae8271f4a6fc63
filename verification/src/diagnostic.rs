//! Test requests to a provider, kept within bounds and apart from everything that is in use.

use vstd::prelude::*;
use vstd::string::*;
use vstd::utf8::*;
use crate::config::AppProxyConfig;
use crate::error::{AppError, AppErrorView, ProxyError, ProxyErrorView};
use crate::headers::{
    first_text, header_text, header_values, values_view, visible_text, Headers, HeadersView,
};
use crate::json::{
    container_views, encode_json, encoded_json, find_member, member_index, members_view,
    number_view, numbers_are_same, opt_json_view, same_floats, set_member_is_read_back,
    set_member_to_itself, Json, JsonNumber, JsonNumberView, JsonView,
};
use crate::provider::{AppType, Provider, ProviderMetaView, ProviderView};
use crate::provider_retry::{number_text, number_to_text};
use crate::text::{
    ascii_lowercase, chars_of, contains, contains_text, eq_ignore_ascii_case, has_prefix,
    parse_number, parsed_number, same_text, starts_with, trim, trimmed,
};

verus! {

/// The most that the answer to a test request may come to.
pub const MAX_DIAGNOSTIC_RESPONSE_BYTES: usize = 1_048_576;

/// The most output that a test request may ask for.
pub const MAX_DIAGNOSTIC_OUTPUT: u64 = 2048;

/// The most that the body of a test request may come to.
pub const MAX_DIAGNOSTIC_REQUEST_BYTES: usize = 262_144;

/// A limit on output that a test request states.
#[derive(Clone, Copy, Debug, PartialEq, Eq, Structural)]
pub enum LimitField {
    MaxTokens,
    MaxCompletionTokens,
    MaxOutputTokens,
    GenerationMaxOutputTokens,
}

/// A member at the top of a body, or one inside another.
pub open spec fn value_at(body: JsonView, field: LimitField) -> Option<JsonView> {
    match field {
        LimitField::MaxTokens => body.member("max_tokens"@),
        LimitField::MaxCompletionTokens => body.member("max_completion_tokens"@),
        LimitField::MaxOutputTokens => body.member("max_output_tokens"@),
        LimitField::GenerationMaxOutputTokens => body.member2(
            "generationConfig"@,
            "maxOutputTokens"@,
        ),
    }
}

fn get_at<'a>(body: &'a Json, field: LimitField) -> (value: Option<&'a Json>)
    ensures
        opt_json_view(value) == value_at(body@, field),
{
    match field {
        LimitField::MaxTokens => body.get("max_tokens"),
        LimitField::MaxCompletionTokens => body.get("max_completion_tokens"),
        LimitField::MaxOutputTokens => body.get("max_output_tokens"),
        LimitField::GenerationMaxOutputTokens => body.get2("generationConfig", "maxOutputTokens"),
    }
}

/// The limit that a field states.
pub open spec fn limit_at(body: JsonView, field: LimitField) -> Option<u64> {
    match value_at(body, field) {
        Some(value) => value.unsigned(),
        None => None,
    }
}

/// The smaller of two limits, where there are any.
pub open spec fn smaller(a: Option<u64>, b: Option<u64>) -> Option<u64> {
    match (a, b) {
        (Some(a), Some(b)) => Some(if b < a {
            b
        } else {
            a
        }),
        (Some(a), None) => Some(a),
        (None, b) => b,
    }
}

/// The smallest limit that a body states.
pub open spec fn smallest_limit(body: JsonView) -> Option<u64> {
    smaller(
        smaller(
            limit_at(body, LimitField::MaxTokens),
            limit_at(body, LimitField::MaxCompletionTokens),
        ),
        smaller(
            limit_at(body, LimitField::MaxOutputTokens),
            limit_at(body, LimitField::GenerationMaxOutputTokens),
        ),
    )
}

fn limit_of(body: &Json, field: LimitField) -> (limit: Option<u64>)
    ensures
        limit == limit_at(body@, field),
{
    match get_at(body, field) {
        Some(value) => value.as_u64(),
        None => None,
    }
}

fn smaller_of(a: Option<u64>, b: Option<u64>) -> (limit: Option<u64>)
    ensures
        limit == smaller(a, b),
{
    match (a, b) {
        (Some(a), Some(b)) => Some(
            if b < a {
                b
            } else {
                a
            },
        ),
        (Some(a), None) => Some(a),
        (None, b) => b,
    }
}

/// The temperature that a body asks for: at its top, else in its generation settings.
pub open spec fn asked_temperature(body: JsonView) -> Option<JsonNumberView> {
    let stated = match body.member("temperature"@) {
        Some(value) => Some(value),
        None => body.member2("generationConfig"@, "temperature"@),
    };
    match stated {
        Some(JsonView::Number(number)) => Some(number),
        _ => None,
    }
}

/// The value of an optional number.
pub open spec fn opt_number(number: Option<JsonNumber>) -> Option<JsonNumberView> {
    match number {
        Some(number) => Some(number_view(number)),
        None => None,
    }
}

fn copy_number_of(value: &Json) -> (number: Option<JsonNumber>)
    ensures
        opt_number(number) == match value@ {
            JsonView::Number(number) => Some(number),
            _ => None,
        },
{
    match value.copy() {
        Json::Number(number) => Some(number),
        _ => None,
    }
}

/// The bounds of a test request, and the model that it was sent to.
#[derive(Debug)]
pub struct DiagnosticContext {
    pub model: Option<String>,
    pub output_limit: u64,
    pub controlled_temperature: Option<JsonNumber>,
}

/// The error for a body that states no limit within bounds.
pub open spec fn unbounded_error() -> AppErrorView {
    AppErrorView::InvalidInput("Diagnostic requests need a bounded output token limit"@)
}

/// The error for a limit that a conversion made invalid.
pub open spec fn invalid_limit_error() -> ProxyErrorView {
    ProxyErrorView::InvalidRequest("Diagnostic output limit became invalid after conversion"@)
}

/// The error for limits that a conversion removed.
pub open spec fn removed_limit_error() -> ProxyErrorView {
    ProxyErrorView::InvalidRequest("Diagnostic output limit was removed by conversion"@)
}

/// The error for a temperature that a conversion changed.
pub open spec fn temperature_error() -> ProxyErrorView {
    ProxyErrorView::InvalidRequest(
        "Diagnostic controlled temperature was changed or removed by conversion"@,
    )
}

/// A limit brought within a bound: nothing where it is no positive integer.
pub open spec fn clamped(value: JsonView, bound: u64) -> Option<JsonView> {
    match value.unsigned() {
        Some(limit) if limit > 0 => Some(
            JsonView::Number(JsonNumberView::Unsigned(if limit < bound {
                limit
            } else {
                bound
            })),
        ),
        _ => None,
    }
}

/// A body with a member inside one of its members set.
pub open spec fn with_inner(
    body: JsonView,
    outer: Seq<char>,
    inner: Seq<char>,
    value: JsonView,
) -> JsonView {
    match body.member(outer) {
        Some(member) => body.with_member(outer, member.with_member(inner, value)),
        None => body,
    }
}

/// A body with a limit set.
pub open spec fn with_limit(body: JsonView, field: LimitField, value: JsonView) -> JsonView {
    match field {
        LimitField::MaxTokens => body.with_member("max_tokens"@, value),
        LimitField::MaxCompletionTokens => body.with_member("max_completion_tokens"@, value),
        LimitField::MaxOutputTokens => body.with_member("max_output_tokens"@, value),
        LimitField::GenerationMaxOutputTokens => with_inner(
            body,
            "generationConfig"@,
            "maxOutputTokens"@,
            value,
        ),
    }
}

/// A body with one of its limits brought within a bound, where it states that one.
pub open spec fn limit_enforced(body: JsonView, field: LimitField, bound: u64) -> Option<JsonView> {
    match value_at(body, field) {
        Some(value) => match clamped(value, bound) {
            Some(limit) => Some(with_limit(body, field, limit)),
            None => None,
        },
        None => Some(body),
    }
}

/// The fields from a position on.
pub open spec fn fields_from(position: nat) -> Seq<LimitField> {
    seq![
        LimitField::MaxTokens,
        LimitField::MaxCompletionTokens,
        LimitField::MaxOutputTokens,
        LimitField::GenerationMaxOutputTokens,
    ].skip(position as int)
}

/// A body with its limits brought within a bound, one after the other up to the first that is
/// invalid, and whether there was none of those.
pub open spec fn limits_enforced(body: JsonView, fields: Seq<LimitField>, bound: u64) -> (
    JsonView,
    bool,
)
    decreases fields.len(),
{
    if fields.len() == 0 {
        (body, true)
    } else {
        match limit_enforced(body, fields[0], bound) {
            Some(next) => limits_enforced(next, fields.skip(1), bound),
            None => (body, false),
        }
    }
}

/// Whether a body states any limit.
pub open spec fn states_limit(body: JsonView) -> bool {
    ||| value_at(body, LimitField::MaxTokens) is Some
    ||| value_at(body, LimitField::MaxCompletionTokens) is Some
    ||| value_at(body, LimitField::MaxOutputTokens) is Some
    ||| value_at(body, LimitField::GenerationMaxOutputTokens) is Some
}

/// The number one.
pub open spec fn one() -> JsonView {
    JsonView::Number(JsonNumberView::Unsigned(1))
}

/// A body that asks for one answer only.
pub open spec fn single_answer(body: JsonView) -> JsonView {
    let single = if body.member("n"@) is Some {
        body.with_member("n"@, one())
    } else {
        body
    };
    match single.member("generationConfig"@) {
        Some(JsonView::Object(_)) => with_inner(
            single,
            "generationConfig"@,
            "candidateCount"@,
            one(),
        ),
        _ => single,
    }
}

/// Whether a value is the number that was asked for.
pub open spec fn is_number(value: Option<JsonView>, expected: JsonNumberView) -> bool {
    match value {
        Some(JsonView::Number(number)) => same_floats(number_text(number), number_text(expected)),
        Some(_) => false,
        None => true,
    }
}

/// Whether a body still asks for the temperature that it should.
pub open spec fn temperature_kept(body: JsonView, expected: JsonNumberView) -> bool {
    let top = body.member("temperature"@);
    let inner = body.member2("generationConfig"@, "temperature"@);
    &&& top is Some || inner is Some
    &&& is_number(top, expected)
    &&& is_number(inner, expected)
}

/// The error for the bytes that a body is sent as, if there is one: it cannot be written, or is
/// over the bound.
pub open spec fn size_error(encoded: Option<Seq<u8>>) -> Option<ProxyErrorView> {
    match encoded {
        Some(bytes) => if bytes.len() > MAX_DIAGNOSTIC_REQUEST_BYTES {
            Some(ProxyErrorView::InvalidRequest("Diagnostic request exceeds the input bound"@))
        } else {
            None
        },
        None => Some(ProxyErrorView::InvalidRequest("Invalid diagnostic body"@)),
    }
}

/// What enforcing the bounds comes to: the body, and the error if there is one.
pub open spec fn bounds_enforced(
    body: JsonView,
    output_limit: u64,
    temperature: Option<JsonNumberView>,
) -> (JsonView, Option<ProxyErrorView>) {
    let (limited, valid) = limits_enforced(body, fields_from(0), output_limit);
    if !valid {
        (limited, Some(invalid_limit_error()))
    } else if !states_limit(body) {
        (limited, Some(removed_limit_error()))
    } else {
        let single = single_answer(limited);
        (
            single,
            match temperature {
                Some(expected) if !temperature_kept(single, expected) => Some(temperature_error()),
                _ => size_error(encoded_json(single)),
            },
        )
    }
}

fn set_inner(body: &mut Json, outer: &str, inner: &str, value: Json)
    ensures
        final(body)@ == with_inner(old(body)@, outer@, inner@, value@),
{
    let mut member = match body.get(outer) {
        Some(member) => member.copy(),
        None => {
            return;
        },
    };
    member.set(inner, value);
    body.set(outer, member);
}

fn enforce_limit(body: &mut Json, field: LimitField, bound: u64) -> (valid: bool)
    ensures
        match limit_enforced(old(body)@, field, bound) {
            Some(next) => valid && final(body)@ == next,
            None => !valid && final(body)@ == old(body)@,
        },
{
    let value = match get_at(body, field) {
        Some(value) => value,
        None => {
            return true;
        },
    };
    let stated: u64 = match value.as_u64() {
        Some(limit) => limit,
        None => 0,
    };
    if stated == 0 {
        assert(clamped(value_at(old(body)@, field)->0, bound) is None);
        return false;
    }
    let limit = Json::Number(
        JsonNumber::Unsigned(
            if stated < bound {
                stated
            } else {
                bound
            },
        ),
    );
    match field {
        LimitField::MaxTokens => body.set("max_tokens", limit),
        LimitField::MaxCompletionTokens => body.set("max_completion_tokens", limit),
        LimitField::MaxOutputTokens => body.set("max_output_tokens", limit),
        LimitField::GenerationMaxOutputTokens => set_inner(
            body,
            "generationConfig",
            "maxOutputTokens",
            limit,
        ),
    }
    true
}

fn enforce_limits(body: &mut Json, bound: u64) -> (valid: bool)
    ensures
        (final(body)@, valid) == limits_enforced(old(body)@, fields_from(0), bound),
{
    proof {
        reveal_with_fuel(limits_enforced, 5);
        assert(fields_from(0).skip(1) =~= fields_from(1));
        assert(fields_from(1).skip(1) =~= fields_from(2));
        assert(fields_from(2).skip(1) =~= fields_from(3));
        assert(fields_from(3).skip(1).len() == 0);
    }
    if !enforce_limit(body, LimitField::MaxTokens, bound) {
        return false;
    }
    if !enforce_limit(body, LimitField::MaxCompletionTokens, bound) {
        return false;
    }
    if !enforce_limit(body, LimitField::MaxOutputTokens, bound) {
        return false;
    }
    enforce_limit(body, LimitField::GenerationMaxOutputTokens, bound)
}

fn has_limit(body: &Json) -> (has: bool)
    ensures
        has == states_limit(body@),
{
    get_at(body, LimitField::MaxTokens).is_some() || get_at(
        body,
        LimitField::MaxCompletionTokens,
    ).is_some() || get_at(body, LimitField::MaxOutputTokens).is_some() || get_at(
        body,
        LimitField::GenerationMaxOutputTokens,
    ).is_some()
}

fn ask_for_one(body: &mut Json)
    ensures
        final(body)@ == single_answer(old(body)@),
{
    if body.get("n").is_some() {
        body.set("n", Json::Number(JsonNumber::Unsigned(1)));
    }
    let has_settings = match body.get("generationConfig") {
        Some(settings) => settings.is_object(),
        None => false,
    };
    if has_settings {
        set_inner(
            body,
            "generationConfig",
            "candidateCount",
            Json::Number(JsonNumber::Unsigned(1)),
        );
    }
}

fn is_number_of(value: Option<&Json>, expected: &JsonNumber) -> (is: bool)
    ensures
        is == is_number(opt_json_view(value), number_view(*expected)),
{
    match value {
        Some(Json::Number(number)) => numbers_are_same(
            number_to_text(number).as_str(),
            number_to_text(expected).as_str(),
        ),
        Some(_) => false,
        None => true,
    }
}

fn keeps_temperature(body: &Json, expected: &JsonNumber) -> (kept: bool)
    ensures
        kept == temperature_kept(body@, number_view(*expected)),
{
    let top = body.get("temperature");
    let inner = body.get2("generationConfig", "temperature");
    (top.is_some() || inner.is_some()) && is_number_of(top, expected) && is_number_of(
        inner,
        expected,
    )
}

impl DiagnosticContext {
    /// The bounds of a test request: the smallest limit on output that it states has to be
    /// within bounds, and a temperature that it asks for is not to change.
    pub fn new(body: &Json) -> (result: Result<DiagnosticContext, AppError>)
        ensures
            match (result, smallest_limit(body@)) {
                (Ok(context), Some(limit)) => {
                    &&& 1 <= limit <= MAX_DIAGNOSTIC_OUTPUT
                    &&& context.output_limit == limit
                    &&& context.model is None
                    &&& opt_number(context.controlled_temperature) == asked_temperature(body@)
                },
                (Err(error), Some(limit)) => !(1 <= limit <= MAX_DIAGNOSTIC_OUTPUT) && error@
                    == unbounded_error(),
                (Err(error), None) => error@ == unbounded_error(),
                (Ok(_), None) => false,
            },
    {
        let limit = smaller_of(
            smaller_of(
                limit_of(body, LimitField::MaxTokens),
                limit_of(body, LimitField::MaxCompletionTokens),
            ),
            smaller_of(
                limit_of(body, LimitField::MaxOutputTokens),
                limit_of(body, LimitField::GenerationMaxOutputTokens),
            ),
        );
        let output_limit = match limit {
            Some(limit) if 1 <= limit && limit <= MAX_DIAGNOSTIC_OUTPUT => limit,
            _ => {
                return Err(
                    AppError::InvalidInput(
                        "Diagnostic requests need a bounded output token limit".to_owned(),
                    ),
                );
            },
        };
        let stated = match body.get("temperature") {
            Some(value) => Some(value),
            None => body.get2("generationConfig", "temperature"),
        };
        let controlled_temperature = match stated {
            Some(value) => copy_number_of(value),
            None => None,
        };
        Ok(DiagnosticContext { model: None, output_limit, controlled_temperature })
    }

    /// Brings the limits of a body that is about to be sent within bounds, and has it ask for one
    /// answer. A body whose limits or temperature a conversion lost is refused, and so is one that
    /// is sent as too many bytes.
    pub fn enforce_output_limits(&self, body: &mut Json) -> (result: Result<(), ProxyError>)
        ensures
            final(body)@ == bounds_enforced(
                old(body)@,
                self.output_limit,
                opt_number(self.controlled_temperature),
            ).0,
            match result {
                Ok(()) => bounds_enforced(
                    old(body)@,
                    self.output_limit,
                    opt_number(self.controlled_temperature),
                ).1 is None,
                Err(error) => bounds_enforced(
                    old(body)@,
                    self.output_limit,
                    opt_number(self.controlled_temperature),
                ).1 == Some(error@),
            },
    {
        let stated = has_limit(body);
        if !enforce_limits(body, self.output_limit) {
            return Err(
                ProxyError::InvalidRequest(
                    "Diagnostic output limit became invalid after conversion".to_owned(),
                ),
            );
        }
        if !stated {
            return Err(
                ProxyError::InvalidRequest(
                    "Diagnostic output limit was removed by conversion".to_owned(),
                ),
            );
        }
        ask_for_one(body);
        if let Some(expected) = &self.controlled_temperature {
            if !keeps_temperature(body, expected) {
                return Err(
                    ProxyError::InvalidRequest(
                        "Diagnostic controlled temperature was changed or removed by conversion".to_owned(),
                    ),
                );
            }
        }
        check_encoded(encode_json(body))
    }

    /// Remembers the model that the request was sent to.
    pub fn record_model(&mut self, model: Option<String>)
        ensures
            final(self).model == model,
            final(self).output_limit == old(self).output_limit,
            final(self).controlled_temperature == old(self).controlled_temperature,
    {
        self.model = model;
    }
}

/// Whether the bytes that a body is sent as are within bounds.
pub fn check_encoded(encoded: Option<Vec<u8>>) -> (result: Result<(), ProxyError>)
    ensures
        ({
            let view = match encoded {
                Some(bytes) => Some(bytes@),
                None => None,
            };
            match result {
                Ok(()) => size_error(view) is None,
                Err(error) => size_error(view) == Some(error@),
            }
        }),
{
    match encoded {
        Some(bytes) => if bytes.len() > MAX_DIAGNOSTIC_REQUEST_BYTES {
            Err(ProxyError::InvalidRequest("Diagnostic request exceeds the input bound".to_owned()))
        } else {
            Ok(())
        },
        None => Err(ProxyError::InvalidRequest("Invalid diagnostic body".to_owned())),
    }
}

/// A body that was let through asks for at most the bound, in every field that states a limit: for
/// what the field stated, or for the bound where that is less.
pub proof fn limits_are_within_bounds(
    body: JsonView,
    output_limit: u64,
    temperature: Option<JsonNumberView>,
    field: LimitField,
)
    requires
        output_limit > 0,
        bounds_enforced(body, output_limit, temperature).1 is None,
        value_at(body, field) is Some,
    ensures
        limit_at(bounds_enforced(body, output_limit, temperature).0, field) matches Some(limit) && 1
            <= limit <= output_limit,
        limit_at(bounds_enforced(body, output_limit, temperature).0, field) == smaller(
            limit_at(body, field),
            Some(output_limit),
        ),
{
    let one = limit_enforced(body, LimitField::MaxTokens, output_limit);
    let two = limit_enforced(one->0, LimitField::MaxCompletionTokens, output_limit);
    let three = limit_enforced(two->0, LimitField::MaxOutputTokens, output_limit);
    let four = limit_enforced(three->0, LimitField::GenerationMaxOutputTokens, output_limit);
    reveal_with_fuel(limits_enforced, 5);
    assert(fields_from(0).skip(1) =~= fields_from(1));
    assert(fields_from(1).skip(1) =~= fields_from(2));
    assert(fields_from(2).skip(1) =~= fields_from(3));
    assert(fields_from(3).skip(1).len() == 0);
    assert(limits_enforced(body, fields_from(0), output_limit) == (four->0, true));
    limit_is_set(body, LimitField::MaxTokens, output_limit, field);
    limit_is_set(one->0, LimitField::MaxCompletionTokens, output_limit, field);
    limit_is_set(two->0, LimitField::MaxOutputTokens, output_limit, field);
    limit_is_set(three->0, LimitField::GenerationMaxOutputTokens, output_limit, field);
    answers_leave_limits(four->0, field);
}

/// A body that was let through asks for one answer.
pub proof fn one_answer_is_asked_for(
    body: JsonView,
    output_limit: u64,
    temperature: Option<JsonNumberView>,
)
    requires
        bounds_enforced(body, output_limit, temperature).1 is None,
    ensures
        ({
            let sent = bounds_enforced(body, output_limit, temperature).0;
            &&& sent.member("n"@) matches Some(count) ==> count == one()
            &&& sent.member("generationConfig"@) matches Some(JsonView::Object(_)) ==> sent.member2(
                "generationConfig"@,
                "candidateCount"@,
            ) == Some(one())
        }),
{
    names_differ();
    let limited = limits_enforced(body, fields_from(0), output_limit).0;
    let single = if limited.member("n"@) is Some {
        limited.with_member("n"@, one())
    } else {
        limited
    };
    if limited.member("n"@) is Some {
        set_member_is_read_back(limited, "n"@, one());
    }
    if let Some(settings) = single.member("generationConfig"@) {
        if settings is Object {
            set_member_is_read_back(settings, "candidateCount"@, one());
            set_member_is_read_back(
                single,
                "generationConfig"@,
                settings.with_member("candidateCount"@, one()),
            );
        }
    }
}

/// Enforcing the bounds of a test request on a body that was let through changes nothing, and lets
/// it through again.
pub proof fn bounds_are_enforced_once(
    body: JsonView,
    output_limit: u64,
    temperature: Option<JsonNumberView>,
)
    requires
        output_limit > 0,
        bounds_enforced(body, output_limit, temperature).1 is None,
    ensures
        ({
            let sent = bounds_enforced(body, output_limit, temperature).0;
            bounds_enforced(sent, output_limit, temperature) == (sent, None::<ProxyErrorView>)
        }),
{
    let sent = bounds_enforced(body, output_limit, temperature).0;
    limit_is_kept(body, output_limit, temperature, LimitField::MaxTokens);
    limit_is_kept(body, output_limit, temperature, LimitField::MaxCompletionTokens);
    limit_is_kept(body, output_limit, temperature, LimitField::MaxOutputTokens);
    limit_is_kept(body, output_limit, temperature, LimitField::GenerationMaxOutputTokens);
    reveal_with_fuel(limits_enforced, 5);
    assert(fields_from(0).skip(1) =~= fields_from(1));
    assert(fields_from(1).skip(1) =~= fields_from(2));
    assert(fields_from(2).skip(1) =~= fields_from(3));
    assert(fields_from(3).skip(1).len() == 0);
    assert(limits_enforced(sent, fields_from(0), output_limit) == (sent, true));
    one_answer_is_asked_for(body, output_limit, temperature);
    if sent.member("n"@) is Some {
        set_member_to_itself(sent, "n"@, one());
    }
    if let Some(settings) = sent.member("generationConfig"@) {
        if settings is Object {
            set_member_to_itself(settings, "candidateCount"@, one());
            set_member_to_itself(sent, "generationConfig"@, settings);
        }
    }
    assert(single_answer(sent) == sent);
}

/// A limit of a body that was let through is as it would be set again.
proof fn limit_is_kept(
    body: JsonView,
    output_limit: u64,
    temperature: Option<JsonNumberView>,
    field: LimitField,
)
    requires
        output_limit > 0,
        bounds_enforced(body, output_limit, temperature).1 is None,
    ensures
        ({
            let sent = bounds_enforced(body, output_limit, temperature).0;
            &&& limit_enforced(sent, field, output_limit) == Some(sent)
            &&& value_at(sent, field) is Some == value_at(body, field) is Some
        }),
{
    let sent = bounds_enforced(body, output_limit, temperature).0;
    limits_stay_stated(body, output_limit, temperature, field);
    if let Some(value) = value_at(sent, field) {
        limits_are_within_bounds(body, output_limit, temperature, field);
        assert(clamped(value, output_limit) == Some(value));
        match field {
            LimitField::MaxTokens => {
                set_member_to_itself(sent, "max_tokens"@, value);
            },
            LimitField::MaxCompletionTokens => {
                set_member_to_itself(sent, "max_completion_tokens"@, value);
            },
            LimitField::MaxOutputTokens => {
                set_member_to_itself(sent, "max_output_tokens"@, value);
            },
            LimitField::GenerationMaxOutputTokens => {
                let settings = sent.member("generationConfig"@)->0;
                set_member_to_itself(settings, "maxOutputTokens"@, value);
                set_member_to_itself(sent, "generationConfig"@, settings);
            },
        }
    }
}

/// A body that was let through states the limits that it stated before, and no others.
pub proof fn limits_stay_stated(
    body: JsonView,
    output_limit: u64,
    temperature: Option<JsonNumberView>,
    field: LimitField,
)
    requires
        output_limit > 0,
        bounds_enforced(body, output_limit, temperature).1 is None,
    ensures
        value_at(bounds_enforced(body, output_limit, temperature).0, field) is Some == value_at(
            body,
            field,
        ) is Some,
        states_limit(bounds_enforced(body, output_limit, temperature).0),
{
    limit_stays_stated(body, output_limit, temperature, field);
    limit_stays_stated(body, output_limit, temperature, LimitField::MaxTokens);
    limit_stays_stated(body, output_limit, temperature, LimitField::MaxCompletionTokens);
    limit_stays_stated(body, output_limit, temperature, LimitField::MaxOutputTokens);
    limit_stays_stated(body, output_limit, temperature, LimitField::GenerationMaxOutputTokens);
}

proof fn limit_stays_stated(
    body: JsonView,
    output_limit: u64,
    temperature: Option<JsonNumberView>,
    field: LimitField,
)
    requires
        output_limit > 0,
        bounds_enforced(body, output_limit, temperature).1 is None,
    ensures
        value_at(bounds_enforced(body, output_limit, temperature).0, field) is Some == value_at(
            body,
            field,
        ) is Some,
{
    let one = limit_enforced(body, LimitField::MaxTokens, output_limit);
    let two = limit_enforced(one->0, LimitField::MaxCompletionTokens, output_limit);
    let three = limit_enforced(two->0, LimitField::MaxOutputTokens, output_limit);
    let four = limit_enforced(three->0, LimitField::GenerationMaxOutputTokens, output_limit);
    reveal_with_fuel(limits_enforced, 5);
    assert(fields_from(0).skip(1) =~= fields_from(1));
    assert(fields_from(1).skip(1) =~= fields_from(2));
    assert(fields_from(2).skip(1) =~= fields_from(3));
    assert(fields_from(3).skip(1).len() == 0);
    assert(limits_enforced(body, fields_from(0), output_limit) == (four->0, true));
    limit_is_set(body, LimitField::MaxTokens, output_limit, field);
    limit_is_set(one->0, LimitField::MaxCompletionTokens, output_limit, field);
    limit_is_set(two->0, LimitField::MaxOutputTokens, output_limit, field);
    limit_is_set(three->0, LimitField::GenerationMaxOutputTokens, output_limit, field);
    answers_leave_limits(four->0, field);
}

/// The names of the fields are all different.
proof fn names_differ()
    ensures
        "max_tokens"@ != "max_completion_tokens"@,
        "max_tokens"@ != "max_output_tokens"@,
        "max_tokens"@ != "generationConfig"@,
        "max_tokens"@ != "n"@,
        "max_completion_tokens"@ != "max_output_tokens"@,
        "max_completion_tokens"@ != "generationConfig"@,
        "max_completion_tokens"@ != "n"@,
        "max_output_tokens"@ != "generationConfig"@,
        "max_output_tokens"@ != "n"@,
        "generationConfig"@ != "n"@,
        "maxOutputTokens"@ != "candidateCount"@,
{
    reveal_strlit("max_tokens");
    reveal_strlit("max_completion_tokens");
    reveal_strlit("max_output_tokens");
    reveal_strlit("generationConfig");
    reveal_strlit("n");
    reveal_strlit("maxOutputTokens");
    reveal_strlit("candidateCount");
    assert("max_tokens"@.len() == 10);
    assert("max_completion_tokens"@.len() == 21);
    assert("max_output_tokens"@.len() == 17);
    assert("generationConfig"@.len() == 16);
    assert("n"@.len() == 1);
    assert("maxOutputTokens"@.len() == 15);
    assert("candidateCount"@.len() == 14);
}

/// Enforcing one limit bounds that one and leaves the others as they are.
proof fn limit_is_set(body: JsonView, set: LimitField, bound: u64, field: LimitField)
    requires
        bound > 0,
    ensures
        limit_enforced(body, set, bound) matches Some(next) ==> {
            &&& value_at(next, field) is Some == value_at(body, field) is Some
            &&& field != set ==> value_at(next, field) == value_at(body, field)
            &&& field == set && value_at(body, field) is Some ==> {
                &&& limit_at(next, field) matches Some(limit) && 1 <= limit <= bound
                &&& limit_at(next, field) == smaller(limit_at(body, field), Some(bound))
            }
        },
{
    names_differ();
    if let Some(value) = value_at(body, set) {
        if let Some(limit) = clamped(value, bound) {
            match set {
                LimitField::MaxTokens => {
                    set_member_is_read_back(body, "max_tokens"@, limit);
                },
                LimitField::MaxCompletionTokens => {
                    set_member_is_read_back(body, "max_completion_tokens"@, limit);
                },
                LimitField::MaxOutputTokens => {
                    set_member_is_read_back(body, "max_output_tokens"@, limit);
                },
                LimitField::GenerationMaxOutputTokens => {
                    let settings = body.member("generationConfig"@)->0;
                    set_member_is_read_back(settings, "maxOutputTokens"@, limit);
                    set_member_is_read_back(
                        body,
                        "generationConfig"@,
                        settings.with_member("maxOutputTokens"@, limit),
                    );
                },
            }
        }
    }
}

/// Asking for one answer leaves the limits as they are.
proof fn answers_leave_limits(body: JsonView, field: LimitField)
    ensures
        value_at(single_answer(body), field) == value_at(body, field),
{
    names_differ();
    let single = if body.member("n"@) is Some {
        body.with_member("n"@, one())
    } else {
        body
    };
    if body.member("n"@) is Some {
        set_member_is_read_back(body, "n"@, one());
    }
    if let Some(settings) = single.member("generationConfig"@) {
        if settings is Object {
            set_member_is_read_back(settings, "candidateCount"@, one());
            set_member_is_read_back(
                single,
                "generationConfig"@,
                settings.with_member("candidateCount"@, one()),
            );
        }
    }
}

/// Whether a header value says that a body is not encoded.
pub open spec fn is_identity(value: Seq<u8>) -> bool {
    visible_text(value) matches Some(text) && (trimmed(text).len() == 0 || ascii_lowercase(
        trimmed(text),
    ) == ascii_lowercase("identity"@))
}

/// Whether the headers say that a body is encoded.
pub open spec fn is_encoded(values: Seq<Seq<u8>>) -> bool {
    exists|i: int| 0 <= i < values.len() && !is_identity(#[trigger] values[i])
}

/// Whether the headers declare an answer over the limit.
pub open spec fn declares_too_much(headers: HeadersView) -> bool {
    first_text(headers, "content-length"@) matches Some(text) && (parsed_number(text) matches Some(
        size,
    ) && size > MAX_DIAGNOSTIC_RESPONSE_BYTES)
}

/// Why an answer is refused by its headers, if it is: it is declared to be over the limit, or it
/// is encoded, so that its size says nothing about what it decodes to.
pub open spec fn refused_headers(headers: HeadersView) -> Option<ProxyErrorView> {
    if declares_too_much(headers) {
        Some(ProxyErrorView::ResponseBodyTooLarge(MAX_DIAGNOSTIC_RESPONSE_BYTES))
    } else if is_encoded(header_values(headers, "content-encoding"@)) {
        Some(
            ProxyErrorView::ForwardFailed(
                "Diagnostic transport requires an identity-encoded response"@,
            ),
        )
    } else {
        None
    }
}

fn is_identity_value(value: &Vec<u8>) -> (is: bool)
    ensures
        is == is_identity(value@),
{
    match header_text(value.as_slice()) {
        Some(text) => {
            let text = trim(text.as_str());
            text.is_empty() || eq_ignore_ascii_case(text, "identity")
        },
        None => false,
    }
}

/// Whether the headers of an answer let it through.
pub fn check_response_headers(headers: &Headers) -> (result: Result<(), ProxyError>)
    ensures
        match result {
            Ok(()) => refused_headers(headers@) is None,
            Err(error) => refused_headers(headers@) == Some(error@),
        },
{
    if let Some(text) = headers.get_text("content-length") {
        if let Some(size) = parse_number(text.as_str()) {
            if size > MAX_DIAGNOSTIC_RESPONSE_BYTES as u64 {
                return Err(ProxyError::ResponseBodyTooLarge(MAX_DIAGNOSTIC_RESPONSE_BYTES));
            }
        }
    }
    let values = headers.values("content-encoding");
    let ghost all = header_values(headers@, "content-encoding"@);
    let mut i: usize = 0;
    while i < values.len()
        invariant
            i <= values@.len(),
            all == values_view(values@),
            all == header_values(headers@, "content-encoding"@),
            !declares_too_much(headers@),
            forall|k: int| 0 <= k < i ==> is_identity(#[trigger] all[k]),
        decreases values@.len() - i,
    {
        assert(all[i as int] == values@[i as int]@);
        if !is_identity_value(&values[i]) {
            assert(is_encoded(all));
            return Err(
                ProxyError::ForwardFailed(
                    "Diagnostic transport requires an identity-encoded response".to_owned(),
                ),
            );
        }
        i = i + 1;
    }
    Ok(())
}

/// The size of an answer after one more chunk, or the error where that is over the limit.
pub fn count_chunk(used: usize, length: usize) -> (result: Result<usize, String>)
    ensures
        match result {
            Ok(total) => total == used + length && total <= MAX_DIAGNOSTIC_RESPONSE_BYTES,
            Err(message) => used + length > MAX_DIAGNOSTIC_RESPONSE_BYTES && message@
                == "Diagnostic response exceeds the 1 MiB limit"@,
        },
{
    if length > MAX_DIAGNOSTIC_RESPONSE_BYTES || used > MAX_DIAGNOSTIC_RESPONSE_BYTES - length {
        Err("Diagnostic response exceeds the 1 MiB limit".to_owned())
    } else {
        Ok(used + length)
    }
}

/// Whether a character is a control character.
pub open spec fn is_control(ch: char) -> bool {
    ch as u32 <= 0x1F || 0x7F <= ch as u32 <= 0x9F
}

/// Whether a text can name a model: not empty, not too long, no control characters.
pub open spec fn is_model_name(text: Seq<char>) -> bool {
    &&& text.len() > 0
    &&& encode_utf8(text).len() <= 256
    &&& forall|i: int| 0 <= i < text.len() ==> !is_control(#[trigger] text[i])
}

fn names_model(text: &str) -> (is: bool)
    ensures
        is == is_model_name(text@),
{
    if text.is_empty() || text.as_bytes().len() > 256 {
        return false;
    }
    let chars = chars_of(text);
    let mut i: usize = 0;
    while i < chars.len()
        invariant
            i <= chars@.len(),
            chars@ == text@,
            forall|k: int| 0 <= k < i ==> !is_control(#[trigger] text@[k]),
        decreases chars@.len() - i,
    {
        let code = chars[i] as u32;
        if code <= 0x1F || (0x7F <= code && code <= 0x9F) {
            assert(is_control(text@[i as int]));
            return false;
        }
        i = i + 1;
    }
    true
}

/// Whether a value is one of the efforts that reasoning can take.
pub open spec fn safe_effort(value: JsonView) -> bool {
    value matches JsonView::Str(text) && (text == "none"@ || text == "minimal"@ || text == "low"@
        || text == "medium"@ || text == "high"@ || text == "xhigh"@)
}

/// Whether a member of the reasoning settings only controls the generation.
pub open spec fn safe_reasoning_member(name: Seq<char>, value: JsonView) -> bool {
    if name == "effort"@ {
        safe_effort(value)
    } else {
        name == "summary"@ && (value matches JsonView::Str(text) && (text == "auto"@ || text
            == "concise"@ || text == "detailed"@))
    }
}

/// Whether a member of the thinking settings only controls the generation.
pub open spec fn safe_thinking_member(name: Seq<char>, value: JsonView) -> bool {
    if name == "type"@ {
        value matches JsonView::Str(text) && (text == "enabled"@ || text == "disabled"@ || text
            == "adaptive"@)
    } else {
        name == "budget_tokens"@ && value is Number
    }
}

/// Whether a member of Gemini's thinking settings only controls the generation.
pub open spec fn safe_thinking_config_member(name: Seq<char>, value: JsonView) -> bool {
    if name == "thinkingBudget"@ {
        value is Number
    } else if name == "includeThoughts"@ {
        value is Bool
    } else {
        name == "thinkingLevel"@ && (value matches JsonView::Str(text) && (text == "minimal"@
            || text == "low"@ || text == "medium"@ || text == "high"@))
    }
}

/// Whether a member of Gemini's generation settings only controls the generation.
pub open spec fn safe_generation_member(name: Seq<char>, value: JsonView) -> bool {
    if name == "temperature"@ || name == "topP"@ || name == "topK"@ || name == "seed"@ || name
        == "maxOutputTokens"@ || name == "candidateCount"@ || name == "presencePenalty"@ || name
        == "frequencyPenalty"@ {
        value is Number
    } else {
        name == "thinkingConfig"@ && match value {
            JsonView::Object(members) => safe_thinking_config(members),
            _ => false,
        }
    }
}

/// Whether Gemini's thinking settings only control the generation.
pub open spec fn safe_thinking_config(members: Seq<(Seq<char>, JsonView)>) -> bool {
    forall|i: int|
        0 <= i < members.len() ==> safe_thinking_config_member(
            (#[trigger] members[i]).0,
            members[i].1,
        )
}

/// Whether Gemini's generation settings only control the generation.
pub open spec fn safe_generation(members: Seq<(Seq<char>, JsonView)>) -> bool {
    forall|i: int|
        0 <= i < members.len() ==> safe_generation_member((#[trigger] members[i]).0, members[i].1)
}

/// Whether the reasoning settings only control the generation.
pub open spec fn safe_reasoning(members: Seq<(Seq<char>, JsonView)>) -> bool {
    forall|i: int|
        0 <= i < members.len() ==> safe_reasoning_member((#[trigger] members[i]).0, members[i].1)
}

/// Whether the thinking settings only control the generation.
pub open spec fn safe_thinking(members: Seq<(Seq<char>, JsonView)>) -> bool {
    forall|i: int|
        0 <= i < members.len() ==> safe_thinking_member((#[trigger] members[i]).0, members[i].1)
}

/// Whether a name is that of a number that controls the generation.
pub open spec fn is_number_setting(name: Seq<char>) -> bool {
    ||| name == "max_tokens"@
    ||| name == "max_completion_tokens"@
    ||| name == "max_output_tokens"@
    ||| name == "n"@
    ||| name == "temperature"@
    ||| name == "top_p"@
    ||| name == "top_k"@
    ||| name == "seed"@
    ||| name == "presence_penalty"@
    ||| name == "frequency_penalty"@
    ||| name == "top_logprobs"@
}

/// Whether a value that overrides a part of the body only controls the generation, so that no
/// content, tool or remote resource gets into a test request.
pub open spec fn safe_override(name: Seq<char>, value: JsonView) -> bool {
    if is_number_setting(name) {
        value is Number
    } else if name == "parallel_tool_calls"@ || name == "logprobs"@ || name == "stream"@ {
        value is Bool
    } else if name == "store"@ {
        value == JsonView::Bool(false)
    } else if name == "model"@ {
        value matches JsonView::Str(text) && is_model_name(text)
    } else if name == "reasoning_effort"@ {
        safe_effort(value)
    } else if name == "reasoning"@ {
        match value {
            JsonView::Object(members) => safe_reasoning(members),
            _ => false,
        }
    } else if name == "thinking"@ {
        match value {
            JsonView::Object(members) => safe_thinking(members),
            _ => false,
        }
    } else {
        name == "generationConfig"@ && match value {
            JsonView::Object(members) => safe_generation(members),
            _ => false,
        }
    }
}

/// Whether overrides of a body only control the generation.
pub open spec fn safe_overrides(members: Seq<(Seq<char>, JsonView)>) -> bool {
    forall|i: int|
        0 <= i < members.len() ==> safe_override((#[trigger] members[i]).0, members[i].1)
}

fn is_number_value(value: &Json) -> (is: bool)
    ensures
        is == (value@ is Number),
{
    match value {
        Json::Number(_) => true,
        _ => false,
    }
}

fn is_bool_value(value: &Json) -> (is: bool)
    ensures
        is == (value@ is Bool),
{
    match value {
        Json::Bool(_) => true,
        _ => false,
    }
}

fn effort_is_safe(value: &Json) -> (safe: bool)
    ensures
        safe == safe_effort(value@),
{
    match value.as_str() {
        Some(text) => same_text(text, "none") || same_text(text, "minimal") || same_text(
            text,
            "low",
        ) || same_text(text, "medium") || same_text(text, "high") || same_text(text, "xhigh"),
        None => false,
    }
}

fn reasoning_member_is_safe(name: &str, value: &Json) -> (safe: bool)
    ensures
        safe == safe_reasoning_member(name@, value@),
{
    if same_text(name, "effort") {
        return effort_is_safe(value);
    }
    if !same_text(name, "summary") {
        return false;
    }
    match value.as_str() {
        Some(text) => same_text(text, "auto") || same_text(text, "concise") || same_text(
            text,
            "detailed",
        ),
        None => false,
    }
}

fn thinking_member_is_safe(name: &str, value: &Json) -> (safe: bool)
    ensures
        safe == safe_thinking_member(name@, value@),
{
    if same_text(name, "type") {
        return match value.as_str() {
            Some(text) => same_text(text, "enabled") || same_text(text, "disabled") || same_text(
                text,
                "adaptive",
            ),
            None => false,
        };
    }
    same_text(name, "budget_tokens") && is_number_value(value)
}

fn thinking_config_member_is_safe(name: &str, value: &Json) -> (safe: bool)
    ensures
        safe == safe_thinking_config_member(name@, value@),
{
    if same_text(name, "thinkingBudget") {
        return is_number_value(value);
    }
    if same_text(name, "includeThoughts") {
        return is_bool_value(value);
    }
    if !same_text(name, "thinkingLevel") {
        return false;
    }
    match value.as_str() {
        Some(text) => same_text(text, "minimal") || same_text(text, "low") || same_text(
            text,
            "medium",
        ) || same_text(text, "high"),
        None => false,
    }
}

fn thinking_config_is_safe(members: &Vec<(String, Json)>) -> (safe: bool)
    ensures
        safe == safe_thinking_config(members_view(members@)),
{
    let ghost all = members_view(members@);
    let mut i: usize = 0;
    while i < members.len()
        invariant
            i <= members@.len(),
            all == members_view(members@),
            forall|k: int| 0 <= k < i ==> safe_thinking_config_member((#[trigger] all[k]).0, all[k].1),
        decreases members@.len() - i,
    {
        assert(all[i as int] == (members@[i as int].0@, members@[i as int].1@));
        if !thinking_config_member_is_safe(members[i].0.as_str(), &members[i].1) {
            return false;
        }
        i = i + 1;
    }
    true
}

fn generation_member_is_safe(name: &str, value: &Json) -> (safe: bool)
    ensures
        safe == safe_generation_member(name@, value@),
{
    if same_text(name, "temperature") || same_text(name, "topP") || same_text(name, "topK")
        || same_text(name, "seed") || same_text(name, "maxOutputTokens") || same_text(
        name,
        "candidateCount",
    ) || same_text(name, "presencePenalty") || same_text(name, "frequencyPenalty") {
        return is_number_value(value);
    }
    if !same_text(name, "thinkingConfig") {
        return false;
    }
    match value.as_object() {
        Some(members) => thinking_config_is_safe(members),
        None => false,
    }
}

fn generation_is_safe(members: &Vec<(String, Json)>) -> (safe: bool)
    ensures
        safe == safe_generation(members_view(members@)),
{
    let ghost all = members_view(members@);
    let mut i: usize = 0;
    while i < members.len()
        invariant
            i <= members@.len(),
            all == members_view(members@),
            forall|k: int| 0 <= k < i ==> safe_generation_member((#[trigger] all[k]).0, all[k].1),
        decreases members@.len() - i,
    {
        assert(all[i as int] == (members@[i as int].0@, members@[i as int].1@));
        if !generation_member_is_safe(members[i].0.as_str(), &members[i].1) {
            return false;
        }
        i = i + 1;
    }
    true
}

fn reasoning_is_safe(members: &Vec<(String, Json)>) -> (safe: bool)
    ensures
        safe == safe_reasoning(members_view(members@)),
{
    let ghost all = members_view(members@);
    let mut i: usize = 0;
    while i < members.len()
        invariant
            i <= members@.len(),
            all == members_view(members@),
            forall|k: int| 0 <= k < i ==> safe_reasoning_member((#[trigger] all[k]).0, all[k].1),
        decreases members@.len() - i,
    {
        assert(all[i as int] == (members@[i as int].0@, members@[i as int].1@));
        if !reasoning_member_is_safe(members[i].0.as_str(), &members[i].1) {
            return false;
        }
        i = i + 1;
    }
    true
}

fn thinking_is_safe(members: &Vec<(String, Json)>) -> (safe: bool)
    ensures
        safe == safe_thinking(members_view(members@)),
{
    let ghost all = members_view(members@);
    let mut i: usize = 0;
    while i < members.len()
        invariant
            i <= members@.len(),
            all == members_view(members@),
            forall|k: int| 0 <= k < i ==> safe_thinking_member((#[trigger] all[k]).0, all[k].1),
        decreases members@.len() - i,
    {
        assert(all[i as int] == (members@[i as int].0@, members@[i as int].1@));
        if !thinking_member_is_safe(members[i].0.as_str(), &members[i].1) {
            return false;
        }
        i = i + 1;
    }
    true
}

fn names_number(name: &str) -> (is: bool)
    ensures
        is == is_number_setting(name@),
{
    same_text(name, "max_tokens") || same_text(name, "max_completion_tokens") || same_text(
        name,
        "max_output_tokens",
    ) || same_text(name, "n") || same_text(name, "temperature") || same_text(name, "top_p")
        || same_text(name, "top_k") || same_text(name, "seed") || same_text(
        name,
        "presence_penalty",
    ) || same_text(name, "frequency_penalty") || same_text(name, "top_logprobs")
}

/// Whether a value that overrides a part of the body only controls the generation.
pub fn safe_generation_override(name: &str, value: &Json) -> (safe: bool)
    ensures
        safe == safe_override(name@, value@),
{
    if names_number(name) {
        return is_number_value(value);
    }
    if same_text(name, "parallel_tool_calls") || same_text(name, "logprobs") || same_text(
        name,
        "stream",
    ) {
        return is_bool_value(value);
    }
    if same_text(name, "store") {
        return match value.as_bool() {
            Some(value) => !value,
            None => false,
        };
    }
    if same_text(name, "model") {
        return match value.as_str() {
            Some(text) => names_model(text),
            None => false,
        };
    }
    if same_text(name, "reasoning_effort") {
        return effort_is_safe(value);
    }
    let reasoning = same_text(name, "reasoning");
    let thinking = same_text(name, "thinking");
    let generation = same_text(name, "generationConfig");
    match value.as_object() {
        Some(members) => if reasoning {
            reasoning_is_safe(members)
        } else if thinking {
            thinking_is_safe(members)
        } else {
            generation && generation_is_safe(members)
        },
        None => false,
    }
}

fn overrides_are_safe(members: &Vec<(String, Json)>) -> (safe: bool)
    ensures
        safe == safe_overrides(members_view(members@)),
{
    let ghost all = members_view(members@);
    let mut i: usize = 0;
    while i < members.len()
        invariant
            i <= members@.len(),
            all == members_view(members@),
            forall|k: int| 0 <= k < i ==> safe_override((#[trigger] all[k]).0, all[k].1),
        decreases members@.len() - i,
    {
        assert(all[i as int] == (members@[i as int].0@, members@[i as int].1@));
        if !safe_generation_override(members[i].0.as_str(), &members[i].1) {
            return false;
        }
        i = i + 1;
    }
    true
}

/// The error for a credential that stands in the environment.
pub open spec fn environment_error() -> AppErrorView {
    AppErrorView::InvalidInput("链路检测不展开环境变量凭据；请配置显式 API Key 或使用直连检测"@)
}

/// The error for overrides that could bring something else than generation settings.
pub open spec fn override_error() -> AppErrorView {
    AppErrorView::InvalidInput(
        "链路检测仅允许生成参数覆盖；当前 body override 可能引入非合成内容、工具或远端资源，请先移除相关覆盖或使用直连检测"@,
    )
}

/// The error for an account in place of a key.
pub open spec fn account_error() -> AppErrorView {
    AppErrorView::InvalidInput("Subscription/OAuth validation is not supported"@)
}

/// The overrides of the body that a provider is configured with.
pub open spec fn body_override(provider: ProviderView) -> Option<JsonView> {
    match provider.meta {
        Some(meta) => match meta.local_proxy_request_overrides {
            Some(overrides) => overrides.body,
            None => None,
        },
        None => None,
    }
}

/// Why a provider's configuration cannot be tested, if so, before its credentials are looked at.
pub open spec fn config_refused(provider: ProviderView, environment_key: bool) -> Option<
    AppErrorView,
> {
    if environment_key {
        Some(environment_error())
    } else {
        match body_override(provider) {
            Some(JsonView::Object(members)) => if safe_overrides(members) {
                None
            } else {
                Some(override_error())
            },
            Some(_) => Some(override_error()),
            None => None,
        }
    }
}

/// Whether a provider's configuration can be tested. `environment_key` says that its key stands
/// in the environment, which is not looked at.
pub fn check_provider_config(provider: &Provider, environment_key: bool) -> (result: Result<
    (),
    AppError,
>)
    ensures
        match result {
            Ok(()) => config_refused(provider@, environment_key) is None,
            Err(error) => config_refused(provider@, environment_key) == Some(error@),
        },
{
    if environment_key {
        return Err(
            AppError::InvalidInput(
                "链路检测不展开环境变量凭据；请配置显式 API Key 或使用直连检测".to_owned(),
            ),
        );
    }
    if let Some(meta) = &provider.meta {
        if let Some(overrides) = &meta.local_proxy_request_overrides {
            if let Some(body) = &overrides.body {
                let safe = match body.as_object() {
                    Some(members) => overrides_are_safe(members),
                    None => false,
                };
                if !safe {
                    return Err(
                        AppError::InvalidInput(
                            "链路检测仅允许生成参数覆盖；当前 body override 可能引入非合成内容、工具或远端资源，请先移除相关覆盖或使用直连检测".to_owned(),
                        ),
                    );
                }
            }
        }
    }
    Ok(())
}

/// How a provider is authorized.
#[derive(Clone, Copy, Debug, PartialEq, Eq, Structural)]
pub enum AuthStrategy {
    Anthropic,
    Bearer,
    ClaudeAuth,
    Google,
    /// Any other way, such as by an account.
    Account,
}

/// What was found out about a provider's authorization.
#[derive(Debug)]
pub struct AuthInfo {
    pub api_key: String,
    pub has_access_token: bool,
    pub strategy: AuthStrategy,
}

/// Why a provider cannot be tested, if so, by what was found out about it.
pub open spec fn target_refused(
    has_adapter: bool,
    auth: Option<AuthInfo>,
    base_url: Option<String>,
) -> Option<AppErrorView> {
    if !has_adapter {
        Some(AppErrorView::InvalidInput("该应用没有 ccs 转发适配"@))
    } else {
        match auth {
            None => Some(
                AppErrorView::InvalidInput(
                    "ccs 转发适配未解析出显式 API Key；请修正配置或使用直连"@,
                ),
            ),
            Some(auth) => if auth.has_access_token || auth.strategy is Account {
                Some(account_error())
            } else if base_url is None {
                Some(
                    AppErrorView::InvalidInput(
                        "ccs 转发适配未解析出端点；请修正配置或使用直连"@,
                    ),
                )
            } else {
                None
            },
        }
    }
}

/// The address and the key that a provider is tested with. Only an explicit key will do.
pub fn validated_target(has_adapter: bool, auth: Option<AuthInfo>, base_url: Option<String>) -> (
    result: Result<(String, String), AppError>)
    ensures
        match result {
            Ok(target) => {
                &&& target_refused(has_adapter, auth, base_url) is None
                &&& base_url matches Some(url) && target.0@ == url@
                &&& auth matches Some(auth) && target.1@ == auth.api_key@
            },
            Err(error) => target_refused(has_adapter, auth, base_url) == Some(error@),
        },
{
    if !has_adapter {
        return Err(AppError::InvalidInput("该应用没有 ccs 转发适配".to_owned()));
    }
    let auth = match auth {
        Some(auth) => auth,
        None => {
            return Err(
                AppError::InvalidInput(
                    "ccs 转发适配未解析出显式 API Key；请修正配置或使用直连".to_owned(),
                ),
            );
        },
    };
    if auth.has_access_token || auth.strategy == AuthStrategy::Account {
        return Err(
            AppError::InvalidInput("Subscription/OAuth validation is not supported".to_owned()),
        );
    }
    match base_url {
        Some(url) => Ok((url, auth.api_key)),
        None => Err(
            AppError::InvalidInput(
                "ccs 转发适配未解析出端点；请修正配置或使用直连".to_owned(),
            ),
        ),
    }
}

/// Whether an endpoint is a path on the provider's own host.
pub open spec fn is_plain_endpoint(endpoint: Seq<char>) -> bool {
    &&& has_prefix(endpoint, "/"@)
    &&& !has_prefix(endpoint, "//"@)
    &&& !contains_text(endpoint, "\r"@)
    &&& !contains_text(endpoint, "\n"@)
}

/// Why a provider is not tested at all, if so.
pub open spec fn validation_refused(
    app: AppType,
    provider: ProviderView,
    managed_account: bool,
    endpoint: Seq<char>,
) -> Option<AppErrorView> {
    if managed_account || (app is Codex && provider.codex_official) {
        Some(account_error())
    } else if app is OpenCode {
        Some(AppErrorView::InvalidInput("This application has no ccs forwarding adapter"@))
    } else if !is_plain_endpoint(endpoint) {
        Some(AppErrorView::InvalidInput("Invalid diagnostic protocol endpoint"@))
    } else {
        None
    }
}

/// Whether a provider may be tested. `managed_account` says that it uses an account that the
/// proxy manages or injects, which is never used for a test.
pub fn check_validation(
    app: AppType,
    provider: &Provider,
    managed_account: bool,
    endpoint: &str,
) -> (result: Result<(), AppError>)
    ensures
        match result {
            Ok(()) => validation_refused(app, provider@, managed_account, endpoint@) is None,
            Err(error) => validation_refused(app, provider@, managed_account, endpoint@) == Some(
                error@,
            ),
        },
{
    let codex = match app {
        AppType::Codex => true,
        _ => false,
    };
    if managed_account || (codex && provider.codex_official) {
        return Err(
            AppError::InvalidInput("Subscription/OAuth validation is not supported".to_owned()),
        );
    }
    if let AppType::OpenCode = app {
        return Err(
            AppError::InvalidInput("This application has no ccs forwarding adapter".to_owned()),
        );
    }
    if !starts_with(endpoint, "/") || starts_with(endpoint, "//") || contains(endpoint, "\r")
        || contains(endpoint, "\n") {
        return Err(AppError::InvalidInput("Invalid diagnostic protocol endpoint".to_owned()));
    }
    Ok(())
}

/// The body of a test request: that of Gemini says by its endpoint whether it streams, and has
/// to be an object.
pub open spec fn validation_body(app: AppType, body: JsonView) -> Option<JsonView> {
    if app is Gemini {
        match body {
            JsonView::Object(members) => Some(
                JsonView::Object(without_member(members, "stream"@)),
            ),
            _ => None,
        }
    } else {
        Some(body)
    }
}

/// Members without the one of that name.
pub open spec fn without_member(members: Seq<(Seq<char>, JsonView)>, key: Seq<char>) -> Seq<
    (Seq<char>, JsonView),
> {
    let at = member_index(members, key);
    if at < members.len() {
        members.take(at) + members.skip(at + 1)
    } else {
        members
    }
}

/// Makes the body of a test request ready.
pub fn prepare_validation_body(app: AppType, body: &mut Json) -> (result: Result<(), AppError>)
    ensures
        match (result, validation_body(app, old(body)@)) {
            (Ok(()), Some(prepared)) => final(body)@ == prepared,
            (Err(error), None) => final(body)@ == old(body)@ && error@ == AppErrorView::InvalidInput(
                "Invalid diagnostic body"@,
            ),
            _ => false,
        },
{
    broadcast use container_views;

    match app {
        AppType::Gemini => {},
        _ => {
            return Ok(());
        },
    }
    match body {
        Json::Object(members) => {
            let ghost before = members_view(members@);
            let at = find_member(members, "stream");
            if at < members.len() {
                members.remove(at);
                assert(members_view(members@) =~= before.take(at as int) + before.skip(at + 1));
            }
            Ok(())
        },
        _ => Err(AppError::InvalidInput("Invalid diagnostic body".to_owned())),
    }
}

/// A provider as it is tested: outside every pool and queue.
pub open spec fn isolated(provider: ProviderView) -> ProviderView {
    ProviderView {
        meta: match provider.meta {
            Some(meta) => Some(
                ProviderMetaView {
                    provider_group_id: None,
                    key_pool_enabled: Some(false),
                    ..meta
                },
            ),
            None => None,
        },
        in_failover_queue: false,
        ..provider
    }
}

/// Takes a provider out of every pool and queue.
pub fn isolate_provider(provider: &mut Provider)
    ensures
        final(provider)@ == isolated(old(provider)@),
{
    if let Some(meta) = &mut provider.meta {
        meta.provider_group_id = None;
        meta.key_pool_enabled = Some(false);
    }
    provider.in_failover_queue = false;
}

/// How a test request is proxied: by nothing but itself, once.
pub fn isolate_config(config: AppProxyConfig) -> (isolated: AppProxyConfig)
    ensures
        isolated == (AppProxyConfig {
            enabled: false,
            auto_failover_enabled: false,
            max_retries: 0,
            ..config
        }),
{
    AppProxyConfig {
        enabled: false,
        auto_failover_enabled: false,
        max_retries: 0,
        streaming_first_byte_timeout: config.streaming_first_byte_timeout,
        streaming_idle_timeout: config.streaming_idle_timeout,
        non_streaming_timeout: config.non_streaming_timeout,
    }
}

/// Where a test request enters the proxy.
#[derive(Clone, Copy, Debug, PartialEq, Eq, Structural)]
pub enum ValidationHandler {
    Messages,
    DesktopMessages,
    ChatCompletions,
    Responses,
    GrokResponses,
    Gemini,
}

/// Where a test request enters the proxy.
pub open spec fn handler_of(app: AppType, endpoint: Seq<char>) -> Option<ValidationHandler> {
    match app {
        AppType::Claude => Some(ValidationHandler::Messages),
        AppType::ClaudeDesktop => Some(ValidationHandler::DesktopMessages),
        AppType::Codex => Some(
            if contains_text(endpoint, "chat/completions"@) {
                ValidationHandler::ChatCompletions
            } else {
                ValidationHandler::Responses
            },
        ),
        AppType::GrokBuild => Some(ValidationHandler::GrokResponses),
        AppType::Gemini => Some(ValidationHandler::Gemini),
        AppType::OpenCode => None,
    }
}

/// Where a test request enters the proxy.
pub fn validation_handler(app: AppType, endpoint: &str) -> (handler: Option<ValidationHandler>)
    ensures
        handler == handler_of(app, endpoint@),
{
    match app {
        AppType::Claude => Some(ValidationHandler::Messages),
        AppType::ClaudeDesktop => Some(ValidationHandler::DesktopMessages),
        AppType::Codex => Some(
            if contains(endpoint, "chat/completions") {
                ValidationHandler::ChatCompletions
            } else {
                ValidationHandler::Responses
            },
        ),
        AppType::GrokBuild => Some(ValidationHandler::GrokResponses),
        AppType::Gemini => Some(ValidationHandler::Gemini),
        AppType::OpenCode => None,
    }
}

/// Why a provider is not tested, if so, before its credentials are looked up.
pub open spec fn refused_before_lookup(
    app: AppType,
    provider: ProviderView,
    managed_account: bool,
    environment_key: bool,
    endpoint: Seq<char>,
) -> Option<AppErrorView> {
    match validation_refused(app, provider, managed_account, endpoint) {
        Some(error) => Some(error),
        None => config_refused(provider, environment_key),
    }
}

/// Whether the credentials of a provider may be looked up for a test.
pub fn check_before_lookup(
    app: AppType,
    provider: &Provider,
    managed_account: bool,
    environment_key: bool,
    endpoint: &str,
) -> (result: Result<(), AppError>)
    ensures
        match result {
            Ok(()) => refused_before_lookup(
                app,
                provider@,
                managed_account,
                environment_key,
                endpoint@,
            ) is None,
            Err(error) => refused_before_lookup(
                app,
                provider@,
                managed_account,
                environment_key,
                endpoint@,
            ) == Some(error@),
        },
{
    match check_validation(app, provider, managed_account, endpoint) {
        Ok(()) => check_provider_config(provider, environment_key),
        Err(error) => Err(error),
    }
}

/// What was looked up for a test.
#[derive(Debug)]
pub struct ValidationLookup {
    pub has_adapter: bool,
    pub auth: Option<AuthInfo>,
    pub base_url: Option<String>,
    /// How the requests of the app are proxied.
    pub config: AppProxyConfig,
}

/// A test that may be made: where it enters, within which bounds, with which provider, settings
/// and body.
#[derive(Debug)]
pub struct Validation {
    pub handler: ValidationHandler,
    pub context: DiagnosticContext,
    pub provider: Provider,
    pub config: AppProxyConfig,
    pub body: Json,
}

/// Why a test is not made, if so, by what was looked up and by its body.
pub open spec fn refused_after_lookup(
    app: AppType,
    lookup: ValidationLookup,
    endpoint: Seq<char>,
    body: JsonView,
) -> Option<AppErrorView> {
    match target_refused(lookup.has_adapter, lookup.auth, lookup.base_url) {
        Some(error) => Some(error),
        None => if !(smallest_limit(body) matches Some(limit) && 1 <= limit
            <= MAX_DIAGNOSTIC_OUTPUT) {
            Some(unbounded_error())
        } else if validation_body(app, body) is None {
            Some(AppErrorView::InvalidInput("Invalid diagnostic body"@))
        } else if handler_of(app, endpoint) is None {
            Some(AppErrorView::InvalidInput("This application has no ccs forwarding adapter"@))
        } else {
            None
        },
    }
}

/// Makes a test ready: bounded, by itself, and without a part in anything that is in use.
pub fn prepare_validation(
    app: AppType,
    provider: Provider,
    lookup: ValidationLookup,
    endpoint: &str,
    body: Json,
) -> (result: Result<Validation, AppError>)
    ensures
        match result {
            Ok(validation) => {
                &&& refused_after_lookup(app, lookup, endpoint@, body@) is None
                &&& handler_of(app, endpoint@) == Some(validation.handler)
                &&& smallest_limit(body@) == Some(validation.context.output_limit)
                &&& validation.context.model is None
                &&& opt_number(validation.context.controlled_temperature) == asked_temperature(
                    body@,
                )
                &&& validation.provider@ == isolated(provider@)
                &&& validation.config == (AppProxyConfig {
                    enabled: false,
                    auto_failover_enabled: false,
                    max_retries: 0,
                    ..lookup.config
                })
                &&& validation_body(app, body@) == Some(validation.body@)
            },
            Err(error) => refused_after_lookup(app, lookup, endpoint@, body@) == Some(error@),
        },
{
    let config = isolate_config(lookup.config);
    if let Err(error) = validated_target(lookup.has_adapter, lookup.auth, lookup.base_url) {
        return Err(error);
    }
    let context = match DiagnosticContext::new(&body) {
        Ok(context) => context,
        Err(error) => {
            return Err(error);
        },
    };
    let mut body = body;
    if let Err(error) = prepare_validation_body(app, &mut body) {
        return Err(error);
    }
    let handler = match validation_handler(app, endpoint) {
        Some(handler) => handler,
        None => {
            return Err(
                AppError::InvalidInput("This application has no ccs forwarding adapter".to_owned()),
            );
        },
    };
    let mut provider = provider;
    isolate_provider(&mut provider);
    Ok(Validation { handler, context, provider, config, body })
}

/// Every provider that may be tested has a place where its requests enter.
pub proof fn tested_apps_have_a_handler(
    app: AppType,
    provider: ProviderView,
    managed_account: bool,
    endpoint: Seq<char>,
)
    requires
        validation_refused(app, provider, managed_account, endpoint) is None,
    ensures
        handler_of(app, endpoint) is Some,
{
}

/// A provider that is tested takes part in no pool and no queue, and is the same otherwise.
pub proof fn tested_providers_stand_alone(provider: ProviderView)
    ensures
        !isolated(provider).in_key_pool(),
        isolated(provider).group_id() is None,
        !isolated(provider).in_failover_queue,
        isolated(provider).id == provider.id,
        isolated(provider).settings_config == provider.settings_config,
{
}

/// Enforcing the bounds of a test request leaves everything else in the body as it is.
pub proof fn bounds_leave_others(
    body: JsonView,
    output_limit: u64,
    temperature: Option<JsonNumberView>,
    key: Seq<char>,
)
    requires
        key != "max_tokens"@,
        key != "max_completion_tokens"@,
        key != "max_output_tokens"@,
        key != "generationConfig"@,
        key != "n"@,
    ensures
        bounds_enforced(body, output_limit, temperature).0.member(key) == body.member(key),
{
    lemma_limits_leave_others(body, fields_from(0), output_limit, key);
    let limited = limits_enforced(body, fields_from(0), output_limit).0;
    let single = if limited.member("n"@) is Some {
        limited.with_member("n"@, one())
    } else {
        limited
    };
    if limited.member("n"@) is Some {
        set_member_is_read_back(limited, "n"@, one());
    }
    if let Some(settings) = single.member("generationConfig"@) {
        if settings is Object {
            set_member_is_read_back(
                single,
                "generationConfig"@,
                settings.with_member("candidateCount"@, one()),
            );
        }
    }
}

proof fn lemma_limits_leave_others(
    body: JsonView,
    fields: Seq<LimitField>,
    bound: u64,
    key: Seq<char>,
)
    requires
        key != "max_tokens"@,
        key != "max_completion_tokens"@,
        key != "max_output_tokens"@,
        key != "generationConfig"@,
    ensures
        limits_enforced(body, fields, bound).0.member(key) == body.member(key),
    decreases fields.len(),
{
    if fields.len() > 0 {
        if let Some(next) = limit_enforced(body, fields[0], bound) {
            if let Some(value) = value_at(body, fields[0]) {
                let limit = clamped(value, bound)->Some_0;
                match fields[0] {
                    LimitField::MaxTokens => {
                        set_member_is_read_back(body, "max_tokens"@, limit);
                    },
                    LimitField::MaxCompletionTokens => {
                        set_member_is_read_back(body, "max_completion_tokens"@, limit);
                    },
                    LimitField::MaxOutputTokens => {
                        set_member_is_read_back(body, "max_output_tokens"@, limit);
                    },
                    LimitField::GenerationMaxOutputTokens => {
                        let settings = body.member("generationConfig"@)->Some_0;
                        set_member_is_read_back(
                            body,
                            "generationConfig"@,
                            settings.with_member("maxOutputTokens"@, limit),
                        );
                    },
                }
            }
            lemma_limits_leave_others(next, fields.skip(1), bound, key);
        }
    }
}

/// A limit on output is stated under one of four names.
pub proof fn limits_are_stated_by_name(body: JsonView)
    ensures
        value_at(body, LimitField::MaxTokens) == body.member("max_tokens"@),
        value_at(body, LimitField::MaxCompletionTokens) == body.member("max_completion_tokens"@),
        value_at(body, LimitField::MaxOutputTokens) == body.member("max_output_tokens"@),
        body.member("generationConfig"@) matches Some(settings) ==> value_at(
            body,
            LimitField::GenerationMaxOutputTokens,
        ) == settings.member("maxOutputTokens"@),
        body.member("generationConfig"@) is None ==> value_at(
            body,
            LimitField::GenerationMaxOutputTokens,
        ) is None,
{
}

/// The limit of a test request is the smallest one that it states: it is stated, and none is
/// smaller.
pub proof fn the_smallest_limit_counts(body: JsonView, field: LimitField)
    ensures
        smallest_limit(body) matches Some(least) ==> {
            &&& limit_at(body, field) matches Some(limit) ==> least <= limit
            &&& {
                ||| limit_at(body, LimitField::MaxTokens) == Some(least)
                ||| limit_at(body, LimitField::MaxCompletionTokens) == Some(least)
                ||| limit_at(body, LimitField::MaxOutputTokens) == Some(least)
                ||| limit_at(body, LimitField::GenerationMaxOutputTokens) == Some(least)
            }
        },
        smallest_limit(body) is None ==> limit_at(body, field) is None,
{
}

/// The temperature of a request is the one it states itself, else the one of its settings; what is no
/// number is none.
pub proof fn temperatures_are_read(body: JsonView, settings: JsonView, number: JsonNumberView)
    ensures
        body.member("temperature"@) == Some(JsonView::Number(number)) ==> asked_temperature(body)
            == Some(number),
        body.member("temperature"@) is None && body.member("generationConfig"@) == Some(settings)
            && settings.member("temperature"@) == Some(JsonView::Number(number))
            ==> asked_temperature(body) == Some(number),
        body.member("temperature"@) is None && body.member("generationConfig"@) is None
            ==> asked_temperature(body) is None,
        body.member("temperature"@) matches Some(value) ==> (!(value is Number)
            ==> asked_temperature(body) is None),
{
}

proof fn lemma_limits_are_valid(body: JsonView, fields: Seq<LimitField>, bound: u64)
    requires
        bound > 0,
        fields.no_duplicates(),
    ensures
        limits_enforced(body, fields, bound).1 <==> forall|i: int|
            0 <= i < fields.len() && value_at(body, #[trigger] fields[i]) is Some ==> (limit_at(
                body,
                fields[i],
            ) matches Some(limit) && limit > 0),
    decreases fields.len(),
{
    if fields.len() > 0 {
        let rest = fields.skip(1);
        assert forall|i: int, j: int|
            0 <= i < rest.len() && 0 <= j < rest.len() && i != j implies rest[i] != rest[j] by {
            assert(rest[i] == fields[i + 1]);
            assert(rest[j] == fields[j + 1]);
        }
        match limit_enforced(body, fields[0], bound) {
            Some(next) => {
                lemma_limits_are_valid(next, rest, bound);
                assert forall|i: int| 0 <= i < rest.len() implies value_at(next, #[trigger] rest[i])
                    == value_at(body, fields[i + 1]) by {
                    assert(rest[i] == fields[i + 1]);
                    assert(fields[0] != fields[i + 1]);
                    limit_is_set(body, fields[0], bound, rest[i]);
                }
                if limits_enforced(body, fields, bound).1 {
                    assert forall|i: int|
                        0 <= i < fields.len() && value_at(
                            body,
                            #[trigger] fields[i],
                        ) is Some implies (limit_at(body, fields[i]) matches Some(limit) && limit
                        > 0) by {
                        if i > 0 {
                            assert(rest[i - 1] == fields[i]);
                            assert(value_at(next, rest[i - 1]) == value_at(body, fields[i]));
                        }
                    }
                } else {
                    let k = choose|k: int|
                        0 <= k < rest.len() && value_at(next, #[trigger] rest[k]) is Some && !(
                        limit_at(next, rest[k]) matches Some(limit) && limit > 0);
                    assert(value_at(next, rest[k]) == value_at(body, fields[k + 1]));
                }
            },
            None => {
                assert(value_at(body, fields[0]) is Some);
            },
        }
    }
}

/// Whether a limit is stated as something else than a number above zero.
pub open spec fn misstated(body: JsonView, field: LimitField) -> bool {
    value_at(body, field) is Some && !(limit_at(body, field) matches Some(limit) && limit > 0)
}

/// When a test request is refused for its bounds: where it states no limit, or states one that is no
/// number above zero; where the temperature is not the one it was to have; and where it is longer
/// than 262144 bytes. Else it is sent.
pub proof fn bounds_refuse_for_a_reason(
    body: JsonView,
    output_limit: u64,
    temperature: JsonNumberView,
    encoded: Seq<u8>,
)
    requires
        output_limit > 0,
    ensures
        ({
            let broken = misstated(body, LimitField::MaxTokens) || misstated(
                body,
                LimitField::MaxCompletionTokens,
            ) || misstated(body, LimitField::MaxOutputTokens) || misstated(
                body,
                LimitField::GenerationMaxOutputTokens,
            );
            let stated = value_at(body, LimitField::MaxTokens) is Some || value_at(
                body,
                LimitField::MaxCompletionTokens,
            ) is Some || value_at(body, LimitField::MaxOutputTokens) is Some || value_at(
                body,
                LimitField::GenerationMaxOutputTokens,
            ) is Some;
            let sent = bounds_enforced(body, output_limit, None);
            let warm = bounds_enforced(body, output_limit, Some(temperature));
            &&& broken ==> sent.1 == Some(
                ProxyErrorView::InvalidRequest(
                    "Diagnostic output limit became invalid after conversion"@,
                ),
            )
            &&& !stated ==> sent.1 == Some(
                ProxyErrorView::InvalidRequest("Diagnostic output limit was removed by conversion"@),
            )
            &&& !broken && stated && encoded_json(sent.0) == Some(encoded) ==> (sent.1 is None
                <==> encoded.len() <= 262144)
            &&& !broken && stated && encoded_json(sent.0) is None ==> sent.1 is Some
            &&& warm.1 is None ==> sent.1 is None && sent.0 == warm.0
            &&& warm.1 is None ==> warm.0.member("temperature"@) is Some || warm.0.member2(
                "generationConfig"@,
                "temperature"@,
            ) is Some
            &&& warm.1 is None ==> (warm.0.member("temperature"@) matches Some(value) ==> (
            value matches JsonView::Number(number) && same_floats(
                number_text(number),
                number_text(temperature),
            )))
            &&& warm.1 is None ==> (warm.0.member2(
                "generationConfig"@,
                "temperature"@,
            ) matches Some(value) ==> (value matches JsonView::Number(number) && same_floats(
                number_text(number),
                number_text(temperature),
            )))
            &&& sent.1 is None && warm.1 is Some ==> warm.1 == Some(
                ProxyErrorView::InvalidRequest(
                    "Diagnostic controlled temperature was changed or removed by conversion"@,
                ),
            )
        }),
{
    let fields = fields_from(0);
    assert(fields =~= seq![
        LimitField::MaxTokens,
        LimitField::MaxCompletionTokens,
        LimitField::MaxOutputTokens,
        LimitField::GenerationMaxOutputTokens,
    ]);
    lemma_limits_are_valid(body, fields, output_limit);
    assert(fields[0] == LimitField::MaxTokens);
    assert(fields[1] == LimitField::MaxCompletionTokens);
    assert(fields[2] == LimitField::MaxOutputTokens);
    assert(fields[3] == LimitField::GenerationMaxOutputTokens);
    assert(fields.no_duplicates());
}

/// The answer to a test request is refused where it declares more than 1048576 bytes, and where it
/// comes in any other encoding than none; blank headers and `identity`, in any case, mean none.
pub proof fn answers_are_refused_by_their_headers(headers: HeadersView, value: Seq<u8>, text: Seq<char>)
    ensures
        header_values(headers, "content-encoding"@).len() == 0 && first_text(
            headers,
            "content-length"@,
        ) is None ==> refused_headers(headers) is None,
        first_text(headers, "content-length"@) == Some(text) ==> (parsed_number(text) matches Some(
            size,
        ) ==> (size > 1048576 ==> refused_headers(headers) == Some(
            ProxyErrorView::ResponseBodyTooLarge(1048576),
        )) && (size <= 1048576 && header_values(headers, "content-encoding"@).len() == 0
            ==> refused_headers(headers) is None)),
        header_values(headers, "content-encoding"@) == seq![value] && first_text(
            headers,
            "content-length"@,
        ) is None ==> {
            &&& visible_text(value) is None ==> refused_headers(headers) is Some
            &&& visible_text(value) matches Some(named) ==> (refused_headers(headers) is None
                <==> trimmed(named).len() == 0 || ascii_lowercase(trimmed(named))
                == ascii_lowercase("identity"@))
        },
        refused_headers(headers) matches Some(error) ==> error is ResponseBodyTooLarge
            || error is ForwardFailed,
{
    if header_values(headers, "content-encoding"@) == seq![value] {
        assert(seq![value][0] == value);
    }
}

/// A test request may override settings of generation alone: no other name is let through.
pub proof fn overrides_are_settings_of_generation(name: Seq<char>, value: JsonView)
    ensures
        safe_override(name, value) ==> {
            ||| name == "max_tokens"@ || name == "max_completion_tokens"@ || name
                == "max_output_tokens"@
            ||| name == "n"@ || name == "temperature"@ || name == "top_p"@ || name == "top_k"@
            ||| name == "seed"@ || name == "presence_penalty"@ || name == "frequency_penalty"@
            ||| name == "top_logprobs"@ || name == "parallel_tool_calls"@ || name == "logprobs"@
            ||| name == "stream"@ || name == "store"@ || name == "model"@
            ||| name == "reasoning_effort"@ || name == "reasoning"@ || name == "thinking"@
            ||| name == "generationConfig"@
        },
        name == "max_tokens"@ || name == "max_completion_tokens"@ || name == "max_output_tokens"@
            || name == "n"@ || name == "temperature"@ || name == "top_p"@ || name == "top_k"@ || name
            == "seed"@ || name == "presence_penalty"@ || name == "frequency_penalty"@ || name
            == "top_logprobs"@ ==> (safe_override(name, value) <==> value is Number),
{
}

/// What the settings of a test request may be, where they are no numbers: flags; `store` only if it is
/// off; a model by its name; and an effort that is one of six.
pub proof fn overrides_have_their_values(value: JsonView, text: Seq<char>)
    ensures
        safe_override("parallel_tool_calls"@, value) <==> value is Bool,
        safe_override("logprobs"@, value) <==> value is Bool,
        safe_override("stream"@, value) <==> value is Bool,
        safe_override("store"@, value) <==> value == JsonView::Bool(false),
        safe_override("model"@, JsonView::Str(text)) <==> text.len() > 0 && encode_utf8(text).len()
            <= 256 && forall|i: int|
            0 <= i < text.len() ==> 0x20 <= (#[trigger] text[i]) as u32 && !(0x7F <= text[i] as u32
                <= 0x9F),
        safe_override("model"@, value) ==> value is Str,
        safe_override("reasoning_effort"@, JsonView::Str(text)) <==> text == "none"@ || text
            == "minimal"@ || text == "low"@ || text == "medium"@ || text == "high"@ || text
            == "xhigh"@,
        safe_override("reasoning_effort"@, value) ==> value is Str,
{
    reveal_strlit("max_tokens");
    reveal_strlit("max_completion_tokens");
    reveal_strlit("max_output_tokens");
    reveal_strlit("n");
    reveal_strlit("temperature");
    reveal_strlit("top_p");
    reveal_strlit("top_k");
    reveal_strlit("seed");
    reveal_strlit("presence_penalty");
    reveal_strlit("frequency_penalty");
    reveal_strlit("top_logprobs");
    reveal_strlit("parallel_tool_calls");
    reveal_strlit("logprobs");
    reveal_strlit("stream");
    reveal_strlit("store");
    reveal_strlit("model");
    reveal_strlit("reasoning_effort");
    assert("max_tokens"@.len() == 10);
    assert("max_completion_tokens"@.len() == 21);
    assert("max_output_tokens"@.len() == 17);
    assert("n"@.len() == 1);
    assert("temperature"@.len() == 11);
    assert("top_p"@.len() == 5 && "top_p"@[0] == 't');
    assert("top_k"@.len() == 5 && "top_k"@[0] == 't');
    assert("seed"@.len() == 4);
    assert("presence_penalty"@.len() == 16 && "presence_penalty"@[0] == 'p');
    assert("frequency_penalty"@.len() == 17);
    assert("top_logprobs"@.len() == 12);
    assert("parallel_tool_calls"@.len() == 19);
    assert("logprobs"@.len() == 8);
    assert("stream"@.len() == 6);
    assert("store"@.len() == 5 && "store"@[0] == 's');
    assert("model"@.len() == 5 && "model"@[0] == 'm');
    assert("reasoning_effort"@.len() == 16 && "reasoning_effort"@[0] == 'r');
}

/// Settings in settings are let through one by one: of reasoning the effort and the summary, of
/// thinking its type and its budget, and of Gemini's generation the numbers and how it thinks.
pub proof fn inner_overrides_are_settings_too(name: Seq<char>, value: JsonView)
    ensures
        safe_reasoning_member(name, value) ==> name == "effort"@ || name == "summary"@,
        safe_thinking_member(name, value) ==> name == "type"@ || name == "budget_tokens"@,
        safe_thinking_config_member(name, value) ==> name == "thinkingBudget"@ || name
            == "includeThoughts"@ || name == "thinkingLevel"@,
        safe_generation_member(name, value) ==> {
            ||| name == "temperature"@ || name == "topP"@ || name == "topK"@ || name == "seed"@
            ||| name == "maxOutputTokens"@ || name == "candidateCount"@
            ||| name == "presencePenalty"@ || name == "frequencyPenalty"@ || name
                == "thinkingConfig"@
        },
        name == "temperature"@ || name == "topP"@ || name == "topK"@ || name == "seed"@ || name
            == "maxOutputTokens"@ || name == "candidateCount"@ || name == "presencePenalty"@ || name
            == "frequencyPenalty"@ ==> (safe_generation_member(name, value) <==> value is Number),
        safe_thinking_config_member("thinkingBudget"@, value) <==> value is Number,
        safe_reasoning_member("effort"@, value) <==> value == JsonView::Str("none"@) || value
            == JsonView::Str("minimal"@) || value == JsonView::Str("low"@) || value == JsonView::Str(
            "medium"@,
        ) || value == JsonView::Str("high"@) || value == JsonView::Str("xhigh"@),
        safe_thinking_member("type"@, value) <==> value == JsonView::Str("enabled"@) || value
            == JsonView::Str("disabled"@) || value == JsonView::Str("adaptive"@),
{
}

/// One unsafe setting is enough to refuse all of them.
pub proof fn one_unsafe_override_is_enough(
    before: Seq<(Seq<char>, JsonView)>,
    name: Seq<char>,
    value: JsonView,
    after: Seq<(Seq<char>, JsonView)>,
)
    ensures
        !safe_override(name, value) ==> !safe_overrides(before.push((name, value)) + after),
        safe_overrides(before) && safe_override(name, value) ==> safe_overrides(
            before.push((name, value)),
        ),
        safe_overrides(Seq::empty()),
{
    let all = before.push((name, value)) + after;
    assert(all[before.len() as int] == (name, value));
}

/// When a provider is not tested: with a key from the environment, with overrides that are no settings
/// of generation, and for nothing else of what is configured.
pub proof fn providers_are_tested_by_their_config(provider: ProviderView)
    ensures
        config_refused(provider, true) is Some,
        provider.meta is None ==> config_refused(provider, false) is None,
        provider.meta matches Some(meta) ==> {
            &&& meta.local_proxy_request_overrides is None ==> config_refused(provider, false) is None
            &&& meta.local_proxy_request_overrides matches Some(overrides) ==> {
                &&& overrides.body is None ==> config_refused(provider, false) is None
                &&& overrides.body matches Some(JsonView::Object(members)) ==> (config_refused(
                    provider,
                    false,
                ) is None <==> safe_overrides(members))
                &&& overrides.body matches Some(body) ==> (!(body is Object) ==> config_refused(
                    provider,
                    false,
                ) is Some)
            }
        },
        config_refused(provider, false) matches Some(error) ==> error is InvalidInput,
{
}

/// A provider is tested only with a key of its own and an address: without an adapter, without a key,
/// with a token or an account, and without an address it is refused.
pub proof fn providers_are_tested_with_their_own_key(
    has_adapter: bool,
    auth: Option<AuthInfo>,
    base_url: Option<String>,
)
    ensures
        target_refused(has_adapter, auth, base_url) is None <==> {
            &&& has_adapter
            &&& base_url is Some
            &&& auth matches Some(info) && !info.has_access_token && !(info.strategy is Account)
        },
{
}

/// When a test is refused before anything is looked up: for accounts, for an app that cannot be
/// proxied, and for an endpoint that is no plain path.
pub proof fn tests_are_refused_for_a_reason(
    app: AppType,
    provider: ProviderView,
    managed: bool,
    endpoint: Seq<char>,
    rest: Seq<char>,
)
    ensures
        managed ==> validation_refused(app, provider, managed, endpoint) is Some,
        app is Codex && provider.codex_official ==> validation_refused(
            app,
            provider,
            managed,
            endpoint,
        ) is Some,
        app is OpenCode ==> validation_refused(app, provider, managed, endpoint) is Some,
        !has_prefix(endpoint, "/"@) ==> validation_refused(app, provider, managed, endpoint) is Some,
        validation_refused(app, provider, managed, "//"@ + rest) is Some,
        validation_refused(app, provider, managed, endpoint + "\n"@ + rest) is Some,
        validation_refused(app, provider, managed, endpoint + "\r"@ + rest) is Some,
        !managed && !(app is Codex && provider.codex_official) && !(app is OpenCode) && has_prefix(
            endpoint,
            "/"@,
        ) && !has_prefix(endpoint, "//"@) && !contains_text(endpoint, "\r"@) && !contains_text(
            endpoint,
            "\n"@,
        ) ==> validation_refused(app, provider, managed, endpoint) is None,
{
    crate::text::texts_are_found_where_they_stand(Seq::empty(), "//"@, rest);
    crate::text::texts_are_found_where_they_stand(endpoint, "\n"@, rest);
    crate::text::texts_are_found_where_they_stand(endpoint, "\r"@, rest);
}

/// A test may ask for up to 2048 tokens of output, and for one at least; a test that may be made is
/// not refused for anything but this, its target, its body and its app.
pub proof fn tests_ask_for_little_output(
    app: AppType,
    lookup: ValidationLookup,
    endpoint: Seq<char>,
    body: JsonView,
    limit: u64,
)
    ensures
        smallest_limit(body) is None ==> refused_after_lookup(app, lookup, endpoint, body) is Some,
        smallest_limit(body) == Some(limit) && (limit == 0 || limit > 2048) ==> refused_after_lookup(
            app,
            lookup,
            endpoint,
            body,
        ) is Some,
        target_refused(lookup.has_adapter, lookup.auth, lookup.base_url) is Some
            ==> refused_after_lookup(app, lookup, endpoint, body) == target_refused(
            lookup.has_adapter,
            lookup.auth,
            lookup.base_url,
        ),
        target_refused(lookup.has_adapter, lookup.auth, lookup.base_url) is None && smallest_limit(
            body,
        ) == Some(limit) && 1 <= limit <= 2048 && !(app is OpenCode) && body is Object
            ==> refused_after_lookup(app, lookup, endpoint, body) is None,
{
}

/// A test enters the proxy where the requests of its app do: those of Codex by their endpoint.
pub proof fn tests_enter_where_requests_do(endpoint: Seq<char>, before: Seq<char>, after: Seq<char>)
    ensures
        handler_of(AppType::Claude, endpoint) == Some(ValidationHandler::Messages),
        handler_of(AppType::ClaudeDesktop, endpoint) == Some(ValidationHandler::DesktopMessages),
        handler_of(AppType::Codex, before + "chat/completions"@ + after) == Some(
            ValidationHandler::ChatCompletions,
        ),
        !contains_text(endpoint, "chat/completions"@) ==> handler_of(AppType::Codex, endpoint)
            == Some(ValidationHandler::Responses),
        handler_of(AppType::GrokBuild, endpoint) == Some(ValidationHandler::GrokResponses),
        handler_of(AppType::Gemini, endpoint) == Some(ValidationHandler::Gemini),
        handler_of(AppType::OpenCode, endpoint) is None,
{
    crate::text::texts_are_found_where_they_stand(before, "chat/completions"@, after);
}

/// A Gemini test asks for no stream in its body, and everything else of it stays; the body of any
/// other test stays as it is.
pub proof fn gemini_tests_do_not_stream(
    members: Seq<(Seq<char>, JsonView)>,
    value: JsonView,
    rest: Seq<(Seq<char>, JsonView)>,
    app: AppType,
    body: JsonView,
)
    requires
        forall|i: int| 0 <= i < members.len() ==> (#[trigger] members[i]).0 != "stream"@,
    ensures
        validation_body(
            AppType::Gemini,
            JsonView::Object(members.push(("stream"@, value)) + rest),
        ) == Some(JsonView::Object(members + rest)),
        validation_body(AppType::Gemini, JsonView::Object(members)) == Some(
            JsonView::Object(members),
        ),
        !(app is Gemini) ==> validation_body(app, body) == Some(body),
        !(body is Object) ==> validation_body(AppType::Gemini, body) is None,
{
    let all = members.push(("stream"@, value)) + rest;
    crate::json::member_index_is_first(all, "stream"@);
    crate::json::member_index_is_first(members, "stream"@);
    let at = member_index(all, "stream"@);
    assert(all[members.len() as int] == ("stream"@, value));
    if at < members.len() {
        assert(all[at] == members[at]);
    }
    assert(at == members.len());
    assert(all.take(at) + all.skip(at + 1) =~= members + rest);
    let own = member_index(members, "stream"@);
    if own < members.len() {
        assert(members[own].0 == "stream"@);
    }
}

/// A test that is refused says why.
pub proof fn refused_tests_say_why(
    app: AppType,
    provider: ProviderView,
    endpoint: Seq<char>,
    auth: AuthInfo,
    url: String,
)
    ensures
        config_refused(provider, true) == Some(
            AppErrorView::InvalidInput(
                "链路检测不展开环境变量凭据；请配置显式 API Key 或使用直连检测"@,
            ),
        ),
        config_refused(provider, false) matches Some(error) ==> error == AppErrorView::InvalidInput(
            "链路检测仅允许生成参数覆盖；当前 body override 可能引入非合成内容、工具或远端资源，请先移除相关覆盖或使用直连检测"@,
        ),
        validation_refused(app, provider, true, endpoint) == Some(
            AppErrorView::InvalidInput("Subscription/OAuth validation is not supported"@),
        ),
        validation_refused(AppType::OpenCode, provider, false, endpoint) == Some(
            AppErrorView::InvalidInput("This application has no ccs forwarding adapter"@),
        ),
        validation_refused(AppType::Claude, provider, false, endpoint) matches Some(error) ==> error
            == AppErrorView::InvalidInput("Invalid diagnostic protocol endpoint"@),
        target_refused(false, Some(auth), Some(url)) == Some(
            AppErrorView::InvalidInput("该应用没有 ccs 转发适配"@),
        ),
        target_refused(true, None, Some(url)) == Some(
            AppErrorView::InvalidInput("ccs 转发适配未解析出显式 API Key；请修正配置或使用直连"@),
        ),
        auth.has_access_token ==> target_refused(true, Some(auth), Some(url)) == Some(
            AppErrorView::InvalidInput("Subscription/OAuth validation is not supported"@),
        ),
        !auth.has_access_token && !(auth.strategy is Account) ==> target_refused(
            true,
            Some(auth),
            None,
        ) == Some(
            AppErrorView::InvalidInput("ccs 转发适配未解析出端点；请修正配置或使用直连"@),
        ),
{
}

/// What was configured is refused before anything else is looked at, and the app before that.
pub proof fn refusals_come_in_their_order(
    app: AppType,
    provider: ProviderView,
    managed: bool,
    environment_key: bool,
    endpoint: Seq<char>,
)
    ensures
        refused_before_lookup(app, provider, managed, environment_key, endpoint) is None
            <==> validation_refused(app, provider, managed, endpoint) is None && config_refused(
            provider,
            environment_key,
        ) is None,
        validation_refused(app, provider, managed, endpoint) is Some ==> refused_before_lookup(
            app,
            provider,
            managed,
            environment_key,
            endpoint,
        ) == validation_refused(app, provider, managed, endpoint),
{
}

/// A test is not proxied as other requests are: it does not fail over and is not repeated, and its
/// times are those that are configured.
pub proof fn tests_are_made_once(config: AppProxyConfig, isolated: AppProxyConfig)
    requires
        call_ensures(isolate_config, (config,), isolated),
    ensures
        !isolated.enabled,
        !isolated.auto_failover_enabled,
        isolated.max_retries == 0,
        isolated.streaming_first_byte_timeout == config.streaming_first_byte_timeout,
        isolated.streaming_idle_timeout == config.streaming_idle_timeout,
        isolated.non_streaming_timeout == config.non_streaming_timeout,
{
}

/// The answer to a test is read up to 1048576 bytes and no further.
pub proof fn answers_are_read_up_to_the_limit(
    used: usize,
    length: usize,
    result: Result<usize, String>,
)
    requires
        call_ensures(count_chunk, (used, length), result),
    ensures
        result is Ok <==> used + length <= 1048576,
        result matches Ok(total) ==> total == used + length,
{
}

/// What the inner settings of a test may be: a summary of three kinds, a budget that is a number, a
/// flag for thoughts, and a level of four.
pub proof fn inner_overrides_have_their_values(value: JsonView)
    ensures
        safe_reasoning_member("summary"@, value) <==> value == JsonView::Str("auto"@) || value
            == JsonView::Str("concise"@) || value == JsonView::Str("detailed"@),
        safe_thinking_member("budget_tokens"@, value) <==> value is Number,
        safe_thinking_config_member("includeThoughts"@, value) <==> value is Bool,
        safe_thinking_config_member("thinkingLevel"@, value) <==> value == JsonView::Str("minimal"@)
            || value == JsonView::Str("low"@) || value == JsonView::Str("medium"@) || value
            == JsonView::Str("high"@),
{
    reveal_strlit("summary");
    reveal_strlit("effort");
    reveal_strlit("type");
    reveal_strlit("budget_tokens");
    reveal_strlit("thinkingBudget");
    reveal_strlit("includeThoughts");
    reveal_strlit("thinkingLevel");
    assert("summary"@.len() == 7);
    assert("effort"@.len() == 6);
    assert("type"@.len() == 4);
    assert("budget_tokens"@.len() == 13);
    assert("thinkingBudget"@.len() == 14);
    assert("includeThoughts"@.len() == 15);
    assert("thinkingLevel"@.len() == 13);
}

/// Settings in settings are all looked at: one that is not safe makes the whole unsafe.
pub proof fn inner_overrides_are_all_looked_at(
    members: Seq<(Seq<char>, JsonView)>,
    i: int,
)
    requires
        0 <= i < members.len(),
    ensures
        safe_override("reasoning"@, JsonView::Object(members)) ==> safe_reasoning_member(
            members[i].0,
            members[i].1,
        ),
        safe_override("thinking"@, JsonView::Object(members)) ==> safe_thinking_member(
            members[i].0,
            members[i].1,
        ),
        safe_override("generationConfig"@, JsonView::Object(members)) ==> safe_generation_member(
            members[i].0,
            members[i].1,
        ),
        safe_generation_member("thinkingConfig"@, JsonView::Object(members))
            ==> safe_thinking_config_member(members[i].0, members[i].1),
{
    reveal_strlit("reasoning");
    reveal_strlit("thinking");
    reveal_strlit("generationConfig");
    reveal_strlit("thinkingConfig");
    reveal_strlit("max_tokens");
    reveal_strlit("max_completion_tokens");
    reveal_strlit("max_output_tokens");
    reveal_strlit("n");
    reveal_strlit("temperature");
    reveal_strlit("top_p");
    reveal_strlit("top_k");
    reveal_strlit("seed");
    reveal_strlit("presence_penalty");
    reveal_strlit("frequency_penalty");
    reveal_strlit("top_logprobs");
    reveal_strlit("parallel_tool_calls");
    reveal_strlit("logprobs");
    reveal_strlit("stream");
    reveal_strlit("store");
    reveal_strlit("model");
    reveal_strlit("reasoning_effort");
    assert("reasoning"@.len() == 9);
    assert("thinking"@.len() == 8 && "thinking"@[0] == 't');
    assert("generationConfig"@.len() == 16 && "generationConfig"@[0] == 'g');
    assert("max_tokens"@.len() == 10);
    assert("max_completion_tokens"@.len() == 21);
    assert("max_output_tokens"@.len() == 17);
    assert("n"@.len() == 1);
    assert("temperature"@.len() == 11);
    assert("top_p"@.len() == 5);
    assert("top_k"@.len() == 5);
    assert("seed"@.len() == 4);
    assert("presence_penalty"@.len() == 16 && "presence_penalty"@[0] == 'p');
    assert("frequency_penalty"@.len() == 17);
    assert("top_logprobs"@.len() == 12);
    assert("parallel_tool_calls"@.len() == 19);
    assert("logprobs"@.len() == 8 && "logprobs"@[0] == 'l');
    assert("stream"@.len() == 6);
    assert("store"@.len() == 5);
    assert("model"@.len() == 5);
    assert("reasoning_effort"@.len() == 16 && "reasoning_effort"@[0] == 'r');
    reveal_strlit("topP");
    reveal_strlit("topK");
    reveal_strlit("maxOutputTokens");
    reveal_strlit("candidateCount");
    reveal_strlit("presencePenalty");
    reveal_strlit("frequencyPenalty");
    assert("thinkingConfig"@.len() == 14 && "thinkingConfig"@[0] == 't');
    assert("topP"@.len() == 4);
    assert("topK"@.len() == 4);
    assert("maxOutputTokens"@.len() == 15);
    assert("candidateCount"@.len() == 14 && "candidateCount"@[0] == 'c');
    assert("presencePenalty"@.len() == 15);
    assert("frequencyPenalty"@.len() == 16);
}

} // verus!
