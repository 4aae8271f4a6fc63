//! What an upstream's answer says about itself: failures inside a success status, and the
//! events at which a stream may be committed or has ended.

use vstd::prelude::*;
use vstd::string::*;
use crate::error::{ProxyError, ProxyErrorView};
use crate::forwarder::productive::{
    anthropic_block_output, anthropic_content_block_has_productive_output, has_text,
    member_has_text, responses_bring_output, responses_event_has_productive_output,
    responses_output,
    sse_json_has_productive_output, unnamed_output,
};
use crate::forwarder::sse::{block_of, parse_sse_block};
use crate::json::{
    json_of, parse_text, parse_value, parsed_json, parsed_text, render_value, rendered_json,
    value_member, Json, JsonView,
};
use crate::text::{decimal, decimal_text, join, opt_view, same_text, trim, trimmed};

verus! {

/// A text that is not blank.
pub open spec fn spoken(text: Option<Seq<char>>) -> Option<Seq<char>> {
    match text {
        Some(text) if trimmed(text).len() > 0 => Some(text),
        _ => None,
    }
}

fn spoken_text<'a>(text: Option<&'a str>) -> (kept: Option<&'a str>)
    ensures
        match kept {
            Some(kept) => text matches Some(text) && spoken(Some(text@)) == Some(kept@),
            None => text matches Some(text) ==> spoken(Some(text@)) is None,
        },
{
    match text {
        Some(text) => if trim(text).is_empty() {
            None
        } else {
            Some(text)
        },
        None => None,
    }
}

/// The first of two texts that is there.
pub open spec fn first_of<T>(first: Option<T>, second: Option<T>) -> Option<T> {
    match first {
        Some(value) => Some(value),
        None => second,
    }
}

/// A text where there is one, else the given one.
pub open spec fn or_text(text: Option<Seq<char>>, otherwise: Seq<char>) -> Seq<char> {
    match text {
        Some(text) => text,
        None => otherwise,
    }
}

/// The error of an answer in the Anthropic protocol: its member, else the answer itself.
pub open spec fn anthropic_error(value: JsonView) -> JsonView {
    match value.member("error"@) {
        Some(error) => error,
        None => value,
    }
}

/// What an answer in the Anthropic protocol says about its failure, if it is one. `rendered` is
/// the JSON text of its error.
pub open spec fn anthropic_failure(value: JsonView, rendered: Seq<char>) -> Option<Seq<char>> {
    if value.member_text("type"@) != Some("error"@) && value.member("error"@) is None {
        None
    } else {
        let error = anthropic_error(value);
        let kind = or_text(error.member_text("type"@), "error"@);
        let message = or_text(first_of(error.member_text("message"@), error.text()), rendered);
        Some(kind + ": "@ + message)
    }
}

/// What an answer in the Anthropic protocol says about its failure, if it is one.
pub fn anthropic_envelope_message(value: &Json, rendered: &str) -> (message: Option<String>)
    ensures
        opt_view(message) == anthropic_failure(value@, rendered@),
{
    let is_error = match value.get_str("type") {
        Some(kind) => same_text(kind, "error"),
        None => false,
    };
    let error = match value.get("error") {
        Some(error) => error,
        None => {
            if !is_error {
                return None;
            }
            value
        },
    };
    let kind = match error.get_str("type") {
        Some(kind) => kind,
        None => "error",
    };
    let message = match error.get_str("message") {
        Some(message) => message,
        None => match error.as_str() {
            Some(text) => text,
            None => rendered,
        },
    };
    Some(join(join(kind, ": ").as_str(), message))
}

/// What a body in the Anthropic protocol says about its failure, if it is one.
pub fn codex_anthropic_error_envelope_message(body: &[u8]) -> (message: Option<String>)
    ensures
        opt_view(message) == match parsed_json(body@) {
            Some(value) => anthropic_failure(value, rendered_json(anthropic_error(value))),
            None => None,
        },
{
    let value = match parse_value(body) {
        Some(value) => value,
        None => {
            return None;
        },
    };
    let rendered = match value_member(&value, "error") {
        Some(error) => render_value(error),
        None => render_value(&value),
    };
    let document = json_of(value);
    anthropic_envelope_message(&document, rendered.as_str())
}

/// The response of an answer: its member, else the answer itself.
pub open spec fn inner_response(value: JsonView) -> JsonView {
    match value.member("response"@) {
        Some(response) => response,
        None => value,
    }
}

fn response_of<'a>(value: &'a Json) -> (response: &'a Json)
    ensures
        response@ == inner_response(value@),
{
    match value.get("response") {
        Some(response) => response,
        None => value,
    }
}

/// The error of an answer: that of its response, else its own.
pub open spec fn stated_error(value: JsonView) -> Option<JsonView> {
    first_of(inner_response(value).member("error"@), value.member("error"@))
}

/// Whether an answer in the Responses protocol is a failure.
pub open spec fn is_failure(value: JsonView) -> bool {
    let status = inner_response(value).member_text("status"@);
    let event = value.member_text("type"@);
    ||| status == Some("failed"@)
    ||| status == Some("cancelled"@)
    ||| event == Some("error"@)
    ||| event == Some("response.failed"@)
    ||| (stated_error(value) matches Some(error) && !(error is Null))
}

/// The number of an error: its code, where that is a 16-bit integer.
pub open spec fn error_code(error: JsonView) -> Option<u64> {
    match error.member("code"@) {
        Some(code) => match code.unsigned() {
            Some(number) if number <= 65535 => Some(number),
            _ => None,
        },
        None => None,
    }
}

/// The kind that a number stands for.
pub open spec fn code_kind(code: u64) -> Seq<char> {
    if code == 429 {
        "rate_limit"@
    } else if code == 503 {
        "overloaded"@
    } else if 500 <= code <= 599 {
        "server_error"@
    } else {
        "error_code"@
    }
}

/// The kind that an error states: its type, its code, its status or its text, the first of these
/// that says anything.
pub open spec fn stated_kind(error: JsonView) -> Option<Seq<char>> {
    first_of(
        first_of(spoken(error.member_text("type"@)), spoken(error.member_text("code"@))),
        first_of(spoken(error.member_text("status"@)), spoken(error.text())),
    )
}

/// The kind of a failure: as it is stated, else the event, else the status. Where there is a
/// number, it stands behind the kind, and in place of a kind that only says that it failed the
/// number's own.
pub open spec fn failure_kind(
    error: JsonView,
    event: Option<Seq<char>>,
    status: Option<Seq<char>>,
) -> Seq<char> {
    let plain = or_text(status, "error"@);
    let kind = or_text(first_of(stated_kind(error), event), plain);
    match error_code(error) {
        Some(code) => {
            let named = if kind == plain || kind == "error"@ {
                code_kind(code)
            } else {
                kind
            };
            named + " ("@ + decimal(code as nat) + ")"@
        },
        None => kind,
    }
}

/// What an answer in the Responses protocol says about its failure, if it is one.
pub open spec fn responses_failure(value: JsonView) -> Option<Seq<char>> {
    let response = inner_response(value);
    let status = response.member_text("status"@);
    let error = match stated_error(value) {
        Some(error) => error,
        None => response,
    };
    if !is_failure(value) {
        None
    } else {
        let otherwise = if status == Some("cancelled"@) {
            "response generation was cancelled"@
        } else {
            "response generation failed"@
        };
        let message = or_text(
            spoken(first_of(error.member_text("message"@), error.text())),
            otherwise,
        );
        Some(failure_kind(error, value.member_text("type"@), status) + ": "@ + message)
    }
}

fn kind_of_code(code: u64) -> (kind: &'static str)
    ensures
        kind@ == code_kind(code),
{
    if code == 429 {
        "rate_limit"
    } else if code == 503 {
        "overloaded"
    } else if 500 <= code && code <= 599 {
        "server_error"
    } else {
        "error_code"
    }
}

fn kind_stated<'a>(error: &'a Json) -> (kind: Option<&'a str>)
    ensures
        match kind {
            Some(kind) => stated_kind(error@) == Some(kind@),
            None => stated_kind(error@) is None,
        },
{
    if let Some(kind) = spoken_text(error.get_str("type")) {
        return Some(kind);
    }
    if let Some(kind) = spoken_text(error.get_str("code")) {
        return Some(kind);
    }
    if let Some(kind) = spoken_text(error.get_str("status")) {
        return Some(kind);
    }
    spoken_text(error.as_str())
}

/// Optional texts by their characters.
pub open spec fn opt_str(text: Option<&str>) -> Option<Seq<char>> {
    match text {
        Some(text) => Some(text@),
        None => None,
    }
}

fn kind_of_failure(error: &Json, event: Option<&str>, status: Option<&str>) -> (kind: String)
    ensures
        kind@ == failure_kind(error@, opt_str(event), opt_str(status)),
{
    let plain = match status {
        Some(status) => status,
        None => "error",
    };
    let kind = match kind_stated(error) {
        Some(kind) => kind,
        None => match event {
            Some(event) => event,
            None => plain,
        },
    };
    let code: Option<u64> = match error.get("code") {
        Some(code) => code.as_u64(),
        None => None,
    };
    match code {
        Some(number) if number <= 65535 => {
            let named = if same_text(kind, plain) || same_text(kind, "error") {
                kind_of_code(number)
            } else {
                kind
            };
            let mut text = join(named, " (");
            text.append(decimal_text(number).as_str());
            text.append(")");
            text
        },
        _ => kind.to_owned(),
    }
}

/// What an answer in the Responses protocol says about its failure, if it is one.
pub fn responses_error_envelope_message_from_value(value: &Json) -> (message: Option<String>)
    ensures
        opt_view(message) == responses_failure(value@),
{
    let response = response_of(value);
    let status = response.get_str("status");
    let event = value.get_str("type");
    let stated = match response.get("error") {
        Some(error) => Some(error),
        None => value.get("error"),
    };
    let has_error = match stated {
        Some(error) => !error.is_null(),
        None => false,
    };
    let cancelled = match status {
        Some(status) => same_text(status, "cancelled"),
        None => false,
    };
    let failed = match status {
        Some(status) => same_text(status, "failed"),
        None => false,
    };
    let failure_event = match event {
        Some(event) => same_text(event, "error") || same_text(event, "response.failed"),
        None => false,
    };
    if !cancelled && !failed && !failure_event && !has_error {
        return None;
    }
    let error = match stated {
        Some(error) => error,
        None => response,
    };
    let said = match error.get_str("message") {
        Some(message) => Some(message),
        None => error.as_str(),
    };
    let message = match spoken_text(said) {
        Some(message) => message,
        None => if cancelled {
            "response generation was cancelled"
        } else {
            "response generation failed"
        },
    };
    let kind = kind_of_failure(error, event, status);
    Some(join(join(kind.as_str(), ": ").as_str(), message))
}

/// What a body in the Responses protocol says about its failure, if it is one.
pub fn responses_error_envelope_message(body: &[u8]) -> (message: Option<String>)
    ensures
        opt_view(message) == match parsed_json(body@) {
            Some(value) => responses_failure(value),
            None => None,
        },
{
    match parse_value(body) {
        Some(value) => responses_error_envelope_message_from_value(&json_of(value)),
        None => None,
    }
}

/// Whether a stream may be committed: not yet known, yes, or no for the given error.
pub type Verdict = Option<Result<(), ProxyErrorView>>;

/// A verdict as a mathematical value.
pub open spec fn verdict_view(verdict: Option<Result<(), ProxyError>>) -> Verdict {
    match verdict {
        Some(Ok(())) => Some(Ok(())),
        Some(Err(error)) => Some(Err(error@)),
        None => None,
    }
}

/// The error for a failure inside a success status.
pub open spec fn success_failure(message: Seq<char>) -> ProxyErrorView {
    ProxyErrorView::TransformError("Responses upstream returned a 2xx failure: "@ + message)
}

fn success_failure_error(message: &str) -> (error: ProxyError)
    ensures
        error@ == success_failure(message@),
{
    ProxyError::TransformError(join("Responses upstream returned a 2xx failure: ", message))
}

/// What a whole document says: it may be committed unless it is a failure.
pub open spec fn document_verdict(value: JsonView) -> Result<(), ProxyErrorView> {
    match responses_failure(value) {
        Some(message) => Err(success_failure(message)),
        None => Ok(()),
    }
}

/// What a whole document says: it may be committed unless it is a failure.
pub fn inspect_responses_document(value: &Json) -> (verdict: Result<(), ProxyError>)
    ensures
        verdict_view(Some(verdict)) == Some(document_verdict(value@)),
{
    match responses_error_envelope_message_from_value(value) {
        Some(message) => Err(success_failure_error(message.as_str())),
        None => Ok(()),
    }
}

/// What a text says that may be a whole JSON document: nothing where it is none.
pub open spec fn text_verdict(buffer: Seq<char>) -> Verdict {
    let text = trimmed(buffer);
    if text.len() > 0 && (text[0] == '{' || text[0] == '[') {
        match parsed_text(text) {
            Some(value) => Some(document_verdict(value)),
            None => None,
        }
    } else {
        None
    }
}

/// What a text says that may be a whole JSON document: nothing where it is none.
pub fn inspect_responses_json_document(buffer: &str) -> (verdict: Option<Result<(), ProxyError>>)
    ensures
        verdict_view(verdict) == text_verdict(buffer@),
{
    let text = trim(buffer);
    if text.is_empty() {
        return None;
    }
    let first = text.get_char(0);
    if first != '{' && first != '[' {
        return None;
    }
    match parse_text(text) {
        Some(value) => Some(inspect_responses_document(&value)),
        None => None,
    }
}

/// The event of a block: the one it names, else the type of its data.
pub open spec fn event_kind(named: Option<Seq<char>>, value: JsonView) -> Seq<char> {
    match named {
        Some(event) if event.len() > 0 => event,
        _ => or_text(value.member_text("type"@), ""@),
    }
}

fn kind_of_event<'a>(named: &'a Option<String>, value: &'a Json) -> (event: &'a str)
    ensures
        event@ == event_kind(opt_view(*named), value@),
{
    if let Some(event) = named {
        if !event.as_str().is_empty() {
            return event.as_str();
        }
    }
    match value.get_str("type") {
        Some(event) => event,
        None => "",
    }
}

/// The error that a failure event states.
pub open spec fn event_failure(value: JsonView) -> ProxyErrorView {
    let response = inner_response(value);
    let error = match response.member("error"@) {
        Some(error) => error,
        None => response,
    };
    let message = or_text(
        first_of(error.member_text("message"@), error.text()),
        "Responses upstream emitted an error before output"@,
    );
    let kind = or_text(
        first_of(error.member_text("type"@), error.member_text("code"@)),
        "upstream_error"@,
    );
    ProxyErrorView::TransformError("Responses upstream "@ + kind + ": "@ + message)
}

fn failure_of_event(value: &Json) -> (failure: ProxyError)
    ensures
        failure@ == event_failure(value@),
{
    let response = response_of(value);
    let error = match response.get("error") {
        Some(error) => error,
        None => response,
    };
    let message = match error.get_str("message") {
        Some(message) => message,
        None => match error.as_str() {
            Some(text) => text,
            None => "Responses upstream emitted an error before output",
        },
    };
    let kind = match error.get_str("type") {
        Some(kind) => kind,
        None => match error.get_str("code") {
            Some(code) => code,
            None => "upstream_error",
        },
    };
    let mut text = join("Responses upstream ", kind);
    text.append(": ");
    text.append(message);
    ProxyError::TransformError(text)
}

/// Whether the start of a content block brings output: a text, or a tool block that says
/// anything.
pub open spec fn block_start_output(value: JsonView) -> bool {
    match value.member("content_block"@) {
        Some(block) => {
            let text = first_of(block.member("text"@), block.member("thinking"@));
            ||| (text matches Some(JsonView::Str(text)) && text.len() > 0)
            ||| anthropic_block_output(block)
        },
        None => false,
    }
}

fn block_start_has_output(value: &Json) -> (has: bool)
    ensures
        has == block_start_output(value@),
{
    match value.get("content_block") {
        Some(block) => {
            let text = match block.get("text") {
                Some(text) => Some(text),
                None => block.get("thinking"),
            };
            let has_text = match text {
                Some(text) => match text.as_str() {
                    Some(text) => !text.is_empty(),
                    None => false,
                },
                None => false,
            };
            has_text || anthropic_content_block_has_productive_output(block)
        },
        None => false,
    }
}

/// Whether the change of a content block brings output.
pub open spec fn block_delta_output(value: JsonView) -> bool {
    match value.member("delta"@) {
        Some(delta) => has_text(delta, "text"@) || has_text(delta, "thinking"@) || has_text(
            delta,
            "partial_json"@,
        ) || has_text(delta, "signature"@),
        None => false,
    }
}

fn block_delta_has_output(value: &Json) -> (has: bool)
    ensures
        has == block_delta_output(value@),
{
    match value.get("delta") {
        Some(delta) => member_has_text(delta, "text") || member_has_text(delta, "thinking")
            || member_has_text(delta, "partial_json") || member_has_text(delta, "signature"),
        None => false,
    }
}

/// Whether an event of the Responses protocol brings output where it holds any.
pub open spec fn may_bring_output(event: Seq<char>) -> bool {
    ||| event == "response.output_item.added"@
    ||| event == "response.output_item.done"@
    ||| event == "response.content_part.added"@
    ||| event == "response.content_part.done"@
    ||| event == "response.reasoning_summary_part.added"@
    ||| event == "response.reasoning_summary_part.done"@
    ||| event == "response.output_text.done"@
    ||| event == "response.refusal.done"@
    ||| event == "response.reasoning_summary_text.done"@
    ||| event == "response.reasoning_text.done"@
    ||| event == "response.output_text.delta"@
    ||| event == "response.refusal.delta"@
    ||| event == "response.reasoning_summary_text.delta"@
    ||| event == "response.reasoning_text.delta"@
    ||| event == "response.reasoning.delta"@
    ||| event == "response.function_call_arguments.delta"@
    ||| event == "response.custom_tool_call_input.delta"@
}

fn event_may_bring_output(event: &str) -> (may: bool)
    ensures
        may == may_bring_output(event@),
{
    same_text(event, "response.output_item.added") || same_text(event, "response.output_item.done")
        || same_text(event, "response.content_part.added") || same_text(
        event,
        "response.content_part.done",
    ) || same_text(event, "response.reasoning_summary_part.added") || same_text(
        event,
        "response.reasoning_summary_part.done",
    ) || same_text(event, "response.output_text.done") || same_text(event, "response.refusal.done")
        || same_text(event, "response.reasoning_summary_text.done") || same_text(
        event,
        "response.reasoning_text.done",
    ) || same_text(event, "response.output_text.delta") || same_text(
        event,
        "response.refusal.delta",
    ) || same_text(event, "response.reasoning_summary_text.delta") || same_text(
        event,
        "response.reasoning_text.delta",
    ) || same_text(event, "response.reasoning.delta") || same_text(
        event,
        "response.function_call_arguments.delta",
    ) || same_text(event, "response.custom_tool_call_input.delta")
}

/// Whether an event ends a stream well.
pub open spec fn ends_well(event: Seq<char>) -> bool {
    ||| event == "response.completed"@
    ||| event == "response.incomplete"@
    ||| event == "message_stop"@
}

fn event_ends_well(event: &str) -> (ends: bool)
    ensures
        ends == ends_well(event@),
{
    same_text(event, "response.completed") || same_text(event, "response.incomplete") || same_text(
        event,
        "message_stop",
    )
}

/// Whether an event carries output, so that the stream may be committed at it.
pub open spec fn event_output(event: Seq<char>, value: JsonView) -> bool {
    if event == "content_block_start"@ {
        block_start_output(value)
    } else if event == "content_block_delta"@ {
        block_delta_output(value)
    } else if may_bring_output(event) {
        responses_output(value)
    } else if event == ""@ {
        unnamed_output(value)
    } else {
        ends_well(event)
    }
}

/// What an event says at the start of a stream. Events that say nothing about output leave the
/// stream open, so that a failure behind them can still be answered by another attempt.
pub open spec fn event_verdict(named: Option<Seq<char>>, value: JsonView) -> Verdict {
    let event = event_kind(named, value);
    match responses_failure(value) {
        Some(message) => Some(Err(success_failure(message))),
        None => if event == "response.failed"@ || event == "error"@ {
            Some(Err(event_failure(value)))
        } else if event_output(event, value) {
            Some(Ok(()))
        } else {
            None
        },
    }
}

fn event_has_output(event: &str, value: &Json) -> (has: bool)
    ensures
        has == event_output(event@, value@),
{
    if same_text(event, "content_block_start") {
        block_start_has_output(value)
    } else if same_text(event, "content_block_delta") {
        block_delta_has_output(value)
    } else if event_may_bring_output(event) {
        responses_event_has_productive_output(value)
    } else if same_text(event, "") {
        sse_json_has_productive_output(value)
    } else {
        event_ends_well(event)
    }
}

/// What an event says at the start of a stream.
pub fn inspect_responses_event(named: &Option<String>, value: &Json) -> (verdict: Option<
    Result<(), ProxyError>,
>)
    ensures
        verdict_view(verdict) == event_verdict(opt_view(*named), value@),
{
    let event = kind_of_event(named, value);
    if let Some(message) = responses_error_envelope_message_from_value(value) {
        return Some(Err(success_failure_error(message.as_str())));
    }
    if same_text(event, "response.failed") || same_text(event, "error") {
        return Some(Err(failure_of_event(value)));
    }
    if event_has_output(event, value) {
        Some(Ok(()))
    } else {
        None
    }
}

/// What a block says at the start of a stream: nothing where it has no data or its data is no
/// JSON, and that it may be committed where it is the end mark.
pub open spec fn block_verdict(text: Seq<char>) -> Verdict {
    let block = block_of(text);
    match block.data {
        Some(data) => if trimmed(data) == "[DONE]"@ {
            Some(Ok(()))
        } else {
            match parsed_text(data) {
                Some(value) => event_verdict(block.event, value),
                None => None,
            }
        },
        None => None,
    }
}

/// What a block says at the start of a stream.
pub fn inspect_responses_start_event(block: &str) -> (verdict: Option<Result<(), ProxyError>>)
    ensures
        verdict_view(verdict) == block_verdict(block@),
{
    let parsed = parse_sse_block(block);
    match &parsed.data {
        Some(data) => {
            if same_text(trim(data.as_str()), "[DONE]") {
                return Some(Ok(()));
            }
            match parse_text(data.as_str()) {
                Some(value) => inspect_responses_event(&parsed.event, &value),
                None => None,
            }
        },
        None => None,
    }
}

/// How a stream ended.
#[derive(Debug, PartialEq, Eq)]
pub enum RoleStreamTerminal {
    Success,
    Failure(String),
}

/// How a stream ended, as a mathematical value.
pub enum TerminalView {
    Success,
    Failure(Seq<char>),
}

impl View for RoleStreamTerminal {
    type V = TerminalView;

    open spec fn view(&self) -> TerminalView {
        match self {
            RoleStreamTerminal::Success => TerminalView::Success,
            RoleStreamTerminal::Failure(message) => TerminalView::Failure(message@),
        }
    }
}

/// How a stream ended, if it did.
pub open spec fn opt_terminal(terminal: Option<RoleStreamTerminal>) -> Option<TerminalView> {
    match terminal {
        Some(terminal) => Some(terminal@),
        None => None,
    }
}

/// What an event says about the end of its stream: a failure, a good end, or nothing.
pub open spec fn event_terminal(named: Option<Seq<char>>, value: JsonView) -> Option<TerminalView> {
    match event_verdict(named, value) {
        Some(Err(error)) => Some(TerminalView::Failure(error.message())),
        _ => if ends_well(event_kind(named, value)) {
            Some(TerminalView::Success)
        } else {
            None
        },
    }
}

/// What an event says about the end of its stream.
pub fn inspect_event_terminal(named: &Option<String>, value: &Json) -> (terminal: Option<
    RoleStreamTerminal,
>)
    ensures
        opt_terminal(terminal) == event_terminal(opt_view(*named), value@),
{
    if let Some(Err(error)) = inspect_responses_event(named, value) {
        return Some(RoleStreamTerminal::Failure(error.message()));
    }
    if event_ends_well(kind_of_event(named, value)) {
        Some(RoleStreamTerminal::Success)
    } else {
        None
    }
}

/// What a block says about the end of its stream.
pub open spec fn block_terminal(text: Seq<char>) -> Option<TerminalView> {
    let block = block_of(text);
    match block.data {
        Some(data) => if trimmed(data) == "[DONE]"@ {
            Some(TerminalView::Success)
        } else {
            match parsed_text(data) {
                Some(value) => event_terminal(block.event, value),
                None => None,
            }
        },
        None => None,
    }
}

/// What a block says about the end of its stream.
pub fn inspect_role_stream_terminal(block: &str) -> (terminal: Option<RoleStreamTerminal>)
    ensures
        opt_terminal(terminal) == block_terminal(block@),
{
    let parsed = parse_sse_block(block);
    match &parsed.data {
        Some(data) => {
            if same_text(trim(data.as_str()), "[DONE]") {
                return Some(RoleStreamTerminal::Success);
            }
            match parse_text(data.as_str()) {
                Some(value) => inspect_event_terminal(&parsed.event, &value),
                None => None,
            }
        },
        None => None,
    }
}

/// A block that ends a stream with a failure is one that the start of a stream is refused for,
/// with the same error, and the other way round.
pub proof fn failures_are_seen_at_both_ends(text: Seq<char>)
    ensures
        match block_verdict(text) {
            Some(Err(error)) => block_terminal(text) == Some(
                TerminalView::Failure(error.message()),
            ),
            _ => !(block_terminal(text) matches Some(TerminalView::Failure(_))),
        },
{
}

/// Where a stream ends well it may also be committed.
pub proof fn a_good_end_may_be_committed(text: Seq<char>)
    requires
        block_terminal(text) == Some(TerminalView::Success),
    ensures
        block_verdict(text) == Some(Ok::<(), ProxyErrorView>(())),
{
    let block = block_of(text);
    if let Some(data) = block.data {
        if let Some(value) = parsed_text(data) {
            if trimmed(data) != "[DONE]"@ {
                end_is_no_output_event(event_kind(block.event, value));
            }
        }
    }
}

/// The events that end a stream well are none of those that bring output or fail.
proof fn end_is_no_output_event(event: Seq<char>)
    requires
        ends_well(event),
    ensures
        event != "content_block_start"@,
        event != "content_block_delta"@,
        event != ""@,
        !may_bring_output(event),
        event != "response.failed"@,
        event != "error"@,
{
    reveal_strlit("response.completed");
    reveal_strlit("response.incomplete");
    reveal_strlit("message_stop");
    reveal_strlit("content_block_start");
    reveal_strlit("content_block_delta");
    reveal_strlit("");
    reveal_strlit("response.failed");
    reveal_strlit("error");
    reveal_strlit("response.output_item.added");
    reveal_strlit("response.output_item.done");
    reveal_strlit("response.content_part.added");
    reveal_strlit("response.content_part.done");
    reveal_strlit("response.reasoning_summary_part.added");
    reveal_strlit("response.reasoning_summary_part.done");
    reveal_strlit("response.output_text.done");
    reveal_strlit("response.refusal.done");
    reveal_strlit("response.reasoning_summary_text.done");
    reveal_strlit("response.reasoning_text.done");
    reveal_strlit("response.output_text.delta");
    reveal_strlit("response.refusal.delta");
    reveal_strlit("response.reasoning_summary_text.delta");
    reveal_strlit("response.reasoning_text.delta");
    reveal_strlit("response.reasoning.delta");
    reveal_strlit("response.function_call_arguments.delta");
    reveal_strlit("response.custom_tool_call_input.delta");
    assert("response.completed"@.len() == 18);
    assert("response.incomplete"@.len() == 19);
    assert("message_stop"@.len() == 12);
    assert("content_block_start"@.len() == 19);
    assert("content_block_delta"@.len() == 19);
    assert(""@.len() == 0);
    assert("response.failed"@.len() == 15);
    assert("error"@.len() == 5);
    assert("response.output_item.added"@.len() == 26);
    assert("response.output_item.done"@.len() == 25);
    assert("response.content_part.added"@.len() == 27);
    assert("response.content_part.done"@.len() == 26);
    assert("response.reasoning_summary_part.added"@.len() == 37);
    assert("response.reasoning_summary_part.done"@.len() == 36);
    assert("response.output_text.done"@.len() == 25);
    assert("response.refusal.done"@.len() == 21);
    assert("response.reasoning_summary_text.done"@.len() == 36);
    assert("response.reasoning_text.done"@.len() == 28);
    assert("response.output_text.delta"@.len() == 26);
    assert("response.refusal.delta"@.len() == 22);
    assert("response.reasoning_summary_text.delta"@.len() == 37);
    assert("response.reasoning_text.delta"@.len() == 29);
    assert("response.reasoning.delta"@.len() == 24);
    assert("response.function_call_arguments.delta"@.len() == 38);
    assert("response.custom_tool_call_input.delta"@.len() == 37);
    assert("response.incomplete"@[0] == 'r');
    assert("content_block_start"@[0] == 'c');
    assert("content_block_delta"@[0] == 'c');
}

/// A document is a failure where its response, or else itself, says that it failed or was
/// cancelled, where it is an error event, or where an error is stated that is not null; and nowhere
/// else.
pub proof fn failures_are_stated(value: JsonView)
    ensures
        responses_failure(value) is Some <==> {
            let response = match value.member("response"@) {
                Some(response) => response,
                None => value,
            };
            let error = match response.member("error"@) {
                Some(error) => Some(error),
                None => value.member("error"@),
            };
            ||| response.member("status"@) == Some(JsonView::Str("failed"@))
            ||| response.member("status"@) == Some(JsonView::Str("cancelled"@))
            ||| value.member("type"@) == Some(JsonView::Str("error"@))
            ||| value.member("type"@) == Some(JsonView::Str("response.failed"@))
            ||| error is Some && error != Some(JsonView::Null)
        },
{
}

/// What a failure is called ends with what it says: the message of its error, its text, or that it
/// failed or was cancelled.
pub proof fn failures_end_with_their_message(value: JsonView)
    requires
        responses_failure(value) is Some,
    ensures
        ({
            let response = match value.member("response"@) {
                Some(response) => response,
                None => value,
            };
            let error = match (response.member("error"@), value.member("error"@)) {
                (Some(error), _) => error,
                (None, Some(error)) => error,
                (None, None) => response,
            };
            let text = responses_failure(value)->Some_0;
            &&& error.member("message"@) matches Some(JsonView::Str(message)) ==> (trimmed(
                message,
            ).len() > 0 ==> text.len() >= message.len() && text.skip(text.len() - message.len())
                == message)
            &&& error matches JsonView::Str(message) ==> (trimmed(message).len() > 0 ==> text.len()
                >= message.len() && text.skip(text.len() - message.len()) == message)
        }),
{
    let response = inner_response(value);
    let error = match stated_error(value) {
        Some(error) => error,
        None => response,
    };
    let text = responses_failure(value)->Some_0;
    let kind = failure_kind(error, value.member_text("type"@), response.member_text("status"@));
    if let Some(JsonView::Str(message)) = error.member("message"@) {
        if trimmed(message).len() > 0 {
            assert(text == kind + ": "@ + message);
            assert(text.skip(text.len() - message.len()) =~= message);
        }
    }
    if let JsonView::Str(message) = error {
        if trimmed(message).len() > 0 {
            assert(error.member("message"@) is None);
            assert(text == kind + ": "@ + message);
            assert(text.skip(text.len() - message.len()) =~= message);
        }
    }
}

/// The numbers that stand for a kind of failure: too many requests, an overload, and the other
/// faults of a server.
pub proof fn numbers_stand_for_kinds(code: u64)
    ensures
        code_kind(code) == (if code == 429 {
            "rate_limit"@
        } else if code == 503 {
            "overloaded"@
        } else if 500 <= code && code < 600 {
            "server_error"@
        } else {
            "error_code"@
        }),
{
}

/// An event that fails holds the stream up, whatever its name: as a failure of a success status
/// where it says so, and else by its name.
pub proof fn failures_hold_the_stream_up(named: Option<Seq<char>>, value: JsonView)
    ensures
        responses_failure(value) is Some ==> event_verdict(named, value) matches Some(Err(_)),
        named == Some("response.failed"@) || named == Some("error"@) ==> event_verdict(
            named,
            value,
        ) matches Some(Err(_)),
        event_verdict(named, value) matches Some(Err(_)) ==> responses_failure(value) is Some
            || named == Some("response.failed"@) || named == Some("error"@),
{
    reveal_strlit("response.failed");
    reveal_strlit("error");
    reveal_strlit("");
    assert("response.failed"@.len() == 15);
    assert("error"@.len() == 5);
    assert(""@.len() == 0);
}

/// Whether a member of a document is a text that is not empty.
pub open spec fn speaks_at(value: JsonView, outer: Seq<char>, inner: Seq<char>) -> bool {
    value.member(outer) matches Some(part) && (part.member(inner) matches Some(JsonView::Str(text))
        && text.len() > 0)
}

/// The change of a content block brings output where its text, its thinking, its arguments or its
/// signature is there and not empty, each of the four by itself; else it leaves the stream open.
pub proof fn block_changes_bring_output(named: Option<Seq<char>>, value: JsonView)
    requires
        named == Some("content_block_delta"@) || ((named is None || named == Some(""@))
            && value.member("type"@) == Some(JsonView::Str("content_block_delta"@))),
        responses_failure(value) is None,
    ensures
        speaks_at(value, "delta"@, "text"@) ==> event_verdict(named, value) == Some(
            Ok::<(), ProxyErrorView>(()),
        ),
        speaks_at(value, "delta"@, "thinking"@) ==> event_verdict(named, value) == Some(
            Ok::<(), ProxyErrorView>(()),
        ),
        speaks_at(value, "delta"@, "partial_json"@) ==> event_verdict(named, value) == Some(
            Ok::<(), ProxyErrorView>(()),
        ),
        speaks_at(value, "delta"@, "signature"@) ==> event_verdict(named, value) == Some(
            Ok::<(), ProxyErrorView>(()),
        ),
        !speaks_at(value, "delta"@, "text"@) && !speaks_at(value, "delta"@, "thinking"@)
            && !speaks_at(value, "delta"@, "partial_json"@) && !speaks_at(
            value,
            "delta"@,
            "signature"@,
        ) ==> event_verdict(named, value) is None,
{
    reveal_strlit("content_block_delta");
    reveal_strlit("content_block_start");
    reveal_strlit("response.failed");
    reveal_strlit("error");
    reveal_strlit("");
    assert("content_block_delta"@.len() == 19 && "content_block_delta"@[14] == 'd');
    assert("content_block_start"@[14] == 's');
    assert("response.failed"@.len() == 15);
    assert("error"@.len() == 5);
}

/// The start of a content block brings output where its text, or else its thinking, is there and
/// not empty, or where it is a tool block that says anything.
pub proof fn block_starts_bring_output(named: Option<Seq<char>>, value: JsonView)
    requires
        named == Some("content_block_start"@) || ((named is None || named == Some(""@))
            && value.member("type"@) == Some(JsonView::Str("content_block_start"@))),
        responses_failure(value) is None,
    ensures
        ({
            let output = {
                ||| speaks_at(value, "content_block"@, "text"@)
                ||| speaks_at(value, "content_block"@, "thinking"@) && (value.member(
                    "content_block"@,
                ) matches Some(block) && block.member("text"@) is None)
                ||| value.member("content_block"@) matches Some(block) && anthropic_block_output(
                    block,
                )
            };
            &&& output ==> event_verdict(named, value) == Some(Ok::<(), ProxyErrorView>(()))
            &&& !output ==> event_verdict(named, value) is None
        }),
{
    reveal_strlit("content_block_start");
    reveal_strlit("response.failed");
    reveal_strlit("error");
    reveal_strlit("");
    assert("content_block_start"@.len() == 19);
    assert("response.failed"@.len() == 15);
    assert("error"@.len() == 5);
}

/// The events of the Responses protocol that carry parts of an answer bring output where they hold
/// any; else they leave the stream open.
pub proof fn answer_events_bring_output(event: Seq<char>, value: JsonView)
    requires
        event == "response.output_item.added"@ || event == "response.output_item.done"@ || event
            == "response.content_part.added"@ || event == "response.content_part.done"@ || event
            == "response.reasoning_summary_part.added"@ || event
            == "response.reasoning_summary_part.done"@ || event == "response.output_text.done"@
            || event == "response.refusal.done"@ || event == "response.reasoning_summary_text.done"@
            || event == "response.reasoning_text.done"@ || event == "response.output_text.delta"@
            || event == "response.refusal.delta"@ || event
            == "response.reasoning_summary_text.delta"@ || event == "response.reasoning_text.delta"@
            || event == "response.reasoning.delta"@ || event
            == "response.function_call_arguments.delta"@ || event
            == "response.custom_tool_call_input.delta"@,
        responses_failure(value) is None,
    ensures
        responses_output(value) ==> event_verdict(Some(event), value) == Some(
            Ok::<(), ProxyErrorView>(()),
        ),
        !responses_output(value) ==> event_verdict(Some(event), value) is None,
        value.member("delta"@) matches Some(JsonView::Str(text)) ==> (text.len() > 0
            ==> event_verdict(Some(event), value) == Some(Ok::<(), ProxyErrorView>(()))),
        value.member("text"@) matches Some(JsonView::Str(text)) ==> (text.len() > 0
            ==> event_verdict(Some(event), value) == Some(Ok::<(), ProxyErrorView>(()))),
{
    answer_events_are_no_others(event);
    responses_bring_output(value);
}

/// The events that carry parts of an answer are none of those that have a meaning of their own.
proof fn answer_events_are_no_others(event: Seq<char>)
    requires
        event == "response.output_item.added"@ || event == "response.output_item.done"@ || event
            == "response.content_part.added"@ || event == "response.content_part.done"@ || event
            == "response.reasoning_summary_part.added"@ || event
            == "response.reasoning_summary_part.done"@ || event == "response.output_text.done"@
            || event == "response.refusal.done"@ || event == "response.reasoning_summary_text.done"@
            || event == "response.reasoning_text.done"@ || event == "response.output_text.delta"@
            || event == "response.refusal.delta"@ || event
            == "response.reasoning_summary_text.delta"@ || event == "response.reasoning_text.delta"@
            || event == "response.reasoning.delta"@ || event
            == "response.function_call_arguments.delta"@ || event
            == "response.custom_tool_call_input.delta"@,
    ensures
        event.len() > 20,
        event[0] == 'r',
        event != "content_block_start"@,
        event != "content_block_delta"@,
        event != "response.failed"@,
        event != "error"@,
        event != ""@,
{
    reveal_strlit("content_block_start");
    reveal_strlit("content_block_delta");
    reveal_strlit("response.failed");
    reveal_strlit("error");
    reveal_strlit("");
    reveal_strlit("response.output_item.added");
    reveal_strlit("response.output_item.done");
    reveal_strlit("response.content_part.added");
    reveal_strlit("response.content_part.done");
    reveal_strlit("response.reasoning_summary_part.added");
    reveal_strlit("response.reasoning_summary_part.done");
    reveal_strlit("response.output_text.done");
    reveal_strlit("response.refusal.done");
    reveal_strlit("response.reasoning_summary_text.done");
    reveal_strlit("response.reasoning_text.done");
    reveal_strlit("response.output_text.delta");
    reveal_strlit("response.refusal.delta");
    reveal_strlit("response.reasoning_summary_text.delta");
    reveal_strlit("response.reasoning_text.delta");
    reveal_strlit("response.reasoning.delta");
    reveal_strlit("response.function_call_arguments.delta");
    reveal_strlit("response.custom_tool_call_input.delta");
    assert("content_block_start"@.len() == 19);
    assert("content_block_delta"@.len() == 19);
    assert("response.failed"@.len() == 15);
    assert("error"@.len() == 5);
    assert(""@.len() == 0);
    assert("response.output_item.added"@.len() == 26);
    assert("response.output_item.done"@.len() == 25);
    assert("response.content_part.added"@.len() == 27);
    assert("response.content_part.done"@.len() == 26);
    assert("response.reasoning_summary_part.added"@.len() == 37);
    assert("response.reasoning_summary_part.done"@.len() == 36);
    assert("response.output_text.done"@.len() == 25);
    assert("response.refusal.done"@.len() == 21);
    assert("response.reasoning_summary_text.done"@.len() == 36);
    assert("response.reasoning_text.done"@.len() == 28);
    assert("response.output_text.delta"@.len() == 26);
    assert("response.refusal.delta"@.len() == 22);
    assert("response.reasoning_summary_text.delta"@.len() == 37);
    assert("response.reasoning_text.delta"@.len() == 29);
    assert("response.reasoning.delta"@.len() == 24);
    assert("response.function_call_arguments.delta"@.len() == 38);
    assert("response.custom_tool_call_input.delta"@.len() == 37);
    assert(event.len() > 20);
    assert(event[0] == 'r');
}

/// The events that end an answer well commit the stream, and end it, unless they state a failure.
pub proof fn good_ends_commit_the_stream(event: Seq<char>, value: JsonView)
    requires
        event == "response.completed"@ || event == "response.incomplete"@ || event
            == "message_stop"@,
        responses_failure(value) is None,
    ensures
        event_verdict(Some(event), value) == Some(Ok::<(), ProxyErrorView>(())),
        event_terminal(Some(event), value) == Some(TerminalView::Success),
{
    end_is_no_output_event(event);
    reveal_strlit("response.completed");
    reveal_strlit("response.incomplete");
    reveal_strlit("message_stop");
    assert(event.len() > 0);
}

/// An event of any other name leaves the stream open, and does not end it, unless it states a
/// failure.
pub proof fn other_events_leave_the_stream_open(event: Seq<char>, value: JsonView)
    requires
        event.len() > 0,
        event != "content_block_start"@,
        event != "content_block_delta"@,
        event != "response.failed"@,
        event != "error"@,
        event != "response.completed"@,
        event != "response.incomplete"@,
        event != "message_stop"@,
        event != "response.output_item.added"@,
        event != "response.output_item.done"@,
        event != "response.content_part.added"@,
        event != "response.content_part.done"@,
        event != "response.reasoning_summary_part.added"@,
        event != "response.reasoning_summary_part.done"@,
        event != "response.output_text.done"@,
        event != "response.refusal.done"@,
        event != "response.reasoning_summary_text.done"@,
        event != "response.reasoning_text.done"@,
        event != "response.output_text.delta"@,
        event != "response.refusal.delta"@,
        event != "response.reasoning_summary_text.delta"@,
        event != "response.reasoning_text.delta"@,
        event != "response.reasoning.delta"@,
        event != "response.function_call_arguments.delta"@,
        event != "response.custom_tool_call_input.delta"@,
        responses_failure(value) is None,
    ensures
        event_verdict(Some(event), value) is None,
        event_terminal(Some(event), value) is None,
{
    reveal_strlit("");
    assert(""@.len() == 0);
}

/// An event that has no name and whose data has no type is looked at in every protocol: it brings
/// output where its document does.
pub proof fn nameless_events_are_looked_at(named: Option<Seq<char>>, value: JsonView)
    requires
        named is None || named == Some(""@),
        !(value.member("type"@) matches Some(JsonView::Str(_))),
        responses_failure(value) is None,
    ensures
        unnamed_output(value) ==> event_verdict(named, value) == Some(Ok::<(), ProxyErrorView>(())),
        !unnamed_output(value) ==> event_verdict(named, value) is None,
        event_terminal(named, value) is None,
{
    reveal_strlit("");
    reveal_strlit("content_block_start");
    reveal_strlit("content_block_delta");
    reveal_strlit("response.failed");
    reveal_strlit("error");
    reveal_strlit("response.completed");
    reveal_strlit("response.incomplete");
    reveal_strlit("message_stop");
    assert(""@.len() == 0);
    assert("content_block_start"@.len() == 19);
    assert("content_block_delta"@.len() == 19);
    assert("response.failed"@.len() == 15);
    assert("error"@.len() == 5);
    if may_bring_output(""@) {
        answer_events_are_no_others(""@);
    }
    assert("response.completed"@.len() == 18);
    assert("response.incomplete"@.len() == 19);
    assert("message_stop"@.len() == 12);
}

/// An event without a name of its own is called by the type of its data.
pub proof fn types_stand_in_for_names(value: JsonView, kind: Seq<char>)
    requires
        value.member("type"@) == Some(JsonView::Str(kind)),
    ensures
        event_verdict(None, value) == event_verdict(Some(kind), value),
        event_verdict(Some(""@), value) == event_verdict(Some(kind), value),
        event_terminal(None, value) == event_terminal(Some(kind), value),
{
    reveal_strlit("");
    assert(""@.len() == 0);
}

/// A stream ends with a failure exactly where an event fails, and with what the failure says.
pub proof fn failures_end_the_stream(named: Option<Seq<char>>, value: JsonView)
    ensures
        event_terminal(named, value) matches Some(TerminalView::Failure(_)) <==> (
        event_verdict(named, value) matches Some(Err(_))),
        event_verdict(named, value) matches Some(Err(error)) ==> event_terminal(named, value)
            == Some(TerminalView::Failure(error.message())),
{
}

/// A block says something by its data: the end mark commits, what is no JSON and no data say
/// nothing, and a document says what the event does that the block names.
pub proof fn blocks_speak_by_their_data(text: Seq<char>)
    ensures
        block_of(text).data is None ==> block_verdict(text) is None && block_terminal(text) is None,
        block_of(text).data matches Some(data) ==> {
            &&& trimmed(data) == "[DONE]"@ ==> block_verdict(text) == Some(
                Ok::<(), ProxyErrorView>(()),
            ) && block_terminal(text) == Some(TerminalView::Success)
            &&& trimmed(data) != "[DONE]"@ && parsed_text(data) is None ==> block_verdict(text)
                is None && block_terminal(text) is None
            &&& trimmed(data) != "[DONE]"@ && parsed_text(data) is Some ==> block_verdict(text)
                == event_verdict(block_of(text).event, parsed_text(data)->Some_0)
                && block_terminal(text) == event_terminal(
                block_of(text).event,
                parsed_text(data)->Some_0,
            )
        },
{
}

/// A whole document is committed unless it is a failure; what does not begin with a bracket, or is
/// no JSON, is none.
pub proof fn documents_are_committed_unless_they_fail(buffer: Seq<char>)
    ensures
        ({
            let text = trimmed(buffer);
            let opens = text.len() > 0 && (text[0] == '{' || text[0] == '[');
            &&& !opens || parsed_text(text) is None ==> text_verdict(buffer) is None
            &&& opens && parsed_text(text) is Some ==> {
                let value = parsed_text(text)->Some_0;
                &&& responses_failure(value) is None ==> text_verdict(buffer) == Some(
                    Ok::<(), ProxyErrorView>(()),
                )
                &&& responses_failure(value) is Some ==> text_verdict(buffer) matches Some(Err(_))
            }
        }),
{
}

/// An answer in the Anthropic protocol is a failure where it is of the type for errors or has an
/// error; what it says is the error's message.
pub proof fn anthropic_failures_are_stated(value: JsonView, rendered: Seq<char>)
    ensures
        anthropic_failure(value, rendered) is Some <==> value.member("type"@) == Some(
            JsonView::Str("error"@),
        ) || value.member("error"@) is Some,
        ({
            let error = match value.member("error"@) {
                Some(error) => error,
                None => value,
            };
            error.member("message"@) matches Some(JsonView::Str(message)) ==> (
            error.member("type"@) matches Some(JsonView::Str(kind)) ==> (anthropic_failure(
                value,
                rendered,
            ) is Some ==> anthropic_failure(value, rendered) == Some(kind + ": "@ + message)))
        }),
{
}

/// The error of an answer that failed: the one of its response, else its own, else the response
/// itself.
pub open spec fn failed_with(value: JsonView) -> JsonView {
    let response = match value.member("response"@) {
        Some(response) => response,
        None => value,
    };
    match (response.member("error"@), value.member("error"@)) {
        (Some(error), _) => error,
        (None, Some(error)) => error,
        (None, None) => response,
    }
}

/// A failure says its kind before its message: the type that its error states, else its code, else its
/// status.
pub proof fn failures_say_their_kind(value: JsonView, kind: Seq<char>, message: Seq<char>)
    requires
        responses_failure(value) is Some,
        trimmed(kind).len() > 0,
        trimmed(message).len() > 0,
        failed_with(value) is Object,
        failed_with(value).member("message"@) == Some(JsonView::Str(message)),
    ensures
        ({
            let error = failed_with(value);
            &&& error.member("type"@) == Some(JsonView::Str(kind)) && error.member("code"@) is None
                ==> responses_failure(value) == Some(kind + ": "@ + message)
            &&& error.member("type"@) is None && error.member("code"@) == Some(JsonView::Str(kind))
                ==> responses_failure(value) == Some(kind + ": "@ + message)
            &&& error.member("type"@) is None && error.member("code"@) is None && error.member(
                "status"@,
            ) == Some(JsonView::Str(kind)) ==> responses_failure(value) == Some(
                kind + ": "@ + message,
            )
            &&& error.member("type"@) is None && error.member("code"@) is None && error.member(
                "status"@,
            ) is None && value.member("type"@) == Some(JsonView::Str(kind)) ==> responses_failure(
                value,
            ) == Some(kind + ": "@ + message)
        }),
{
}

/// A failure with a number says what the number means, where nothing else says what it is, and the
/// number behind it; a number that is no code of an error says nothing.
pub proof fn failures_say_their_number(value: JsonView, code: u64, message: Seq<char>)
    requires
        responses_failure(value) is Some,
        trimmed(message).len() > 0,
        failed_with(value) is Object,
        failed_with(value).member("message"@) == Some(JsonView::Str(message)),
        failed_with(value).member("type"@) is None,
        failed_with(value).member("status"@) is None,
        failed_with(value).member("code"@) == Some(
            JsonView::Number(crate::json::JsonNumberView::Unsigned(code)),
        ),
        value.member("type"@) is None,
    ensures
        code <= 65535 ==> responses_failure(value) == Some(
            (if code == 429 {
                "rate_limit"@
            } else if code == 503 {
                "overloaded"@
            } else if 500 <= code < 600 {
                "server_error"@
            } else {
                "error_code"@
            }) + " ("@ + decimal(code as nat) + ")"@ + ": "@ + message,
        ),
        code > 65535 && !(value.member("response"@) is Some) && value.member("status"@) is None
            ==> responses_failure(value) == Some("error"@ + ": "@ + message),
{
}

/// A failure that says nothing is said to have failed, or to have been cancelled where it was.
pub proof fn silent_failures_are_told(value: JsonView, status: Seq<char>)
    requires
        value.member("response"@) is None,
        value.member("error"@) is None,
        value.member("type"@) is None,
        value.member("code"@) is None,
        value.member("message"@) is None,
        value is Object,
        value.member("status"@) == Some(JsonView::Str(status)),
    ensures
        status == "failed"@ ==> responses_failure(value) == Some(
            "failed: response generation failed"@,
        ),
        status == "cancelled"@ ==> responses_failure(value) == Some(
            "cancelled: response generation was cancelled"@,
        ),
        status != "failed"@ && status != "cancelled"@ ==> responses_failure(value) is None,
{
    reveal_strlit("failed");
    reveal_strlit("cancelled");
    reveal_strlit(": ");
    reveal_strlit("response generation failed");
    reveal_strlit("response generation was cancelled");
    reveal_strlit("failed: response generation failed");
    reveal_strlit("cancelled: response generation was cancelled");
    assert("failed"@.len() == 6 && "failed"@[0] == 'f');
    assert("cancelled"@.len() == 9 && "cancelled"@[0] == 'c');
    crate::text::white_space_is_not_seen('f');
    crate::text::white_space_is_not_seen('c');
    crate::text::white_space_is_not_seen('d');
    crate::text::trimming_takes_white_space_only(Seq::empty(), "failed"@, Seq::empty());
    crate::text::trimming_takes_white_space_only(Seq::empty(), "cancelled"@, Seq::empty());
    assert(Seq::<char>::empty() + "failed"@ + Seq::<char>::empty() =~= "failed"@);
    assert(Seq::<char>::empty() + "cancelled"@ + Seq::<char>::empty() =~= "cancelled"@);
    assert("failed"@ + ": "@ + "response generation failed"@
        =~= "failed: response generation failed"@);
    assert("cancelled"@ + ": "@ + "response generation was cancelled"@
        =~= "cancelled: response generation was cancelled"@);
}

/// A failure inside a good answer is an error of the conversion that says so.
pub proof fn failures_in_good_answers_are_told(
    named: Option<Seq<char>>,
    value: JsonView,
    message: Seq<char>,
)
    ensures
        responses_failure(value) == Some(message) ==> event_verdict(named, value) == Some(
            Err::<(), ProxyErrorView>(
                ProxyErrorView::TransformError(
                    "Responses upstream returned a 2xx failure: "@ + message,
                ),
            ),
        ),
        responses_failure(value) is None && (named == Some("error"@) || named == Some(
            "response.failed"@,
        )) && value.member("response"@) is None && value.member("message"@) == Some(
            JsonView::Str(message),
        ) && value is Object && value.member("type"@) is None && value.member("code"@) is None
            && value.member("error"@) is None ==> event_verdict(named, value) == Some(
            Err::<(), ProxyErrorView>(
                ProxyErrorView::TransformError(
                    "Responses upstream "@ + "upstream_error"@ + ": "@ + message,
                ),
            ),
        ),
{
    reveal_strlit("error");
    reveal_strlit("response.failed");
    assert("error"@.len() == 5);
    assert("response.failed"@.len() == 15);
}

} // verus!
