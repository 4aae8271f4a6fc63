//! Retries of a request with the same provider.

use vstd::prelude::*;
use vstd::string::*;
use crate::error::{ProxyError, ProxyErrorView};
use crate::json::{
    container_views, items_view, members_view, number_view, parse_text, parsed_text, Json,
    JsonNumber, JsonNumberView, JsonView,
};
use crate::provider::{
    AppType, LocalProxyRetryErrorType, LocalProxyRetryPolicyView, Provider, ProviderView,
};
use crate::text::{
    contains, contains_text, decimal, decimal_text, join, join_all, joined, list_has, same_text,
    texts_view, to_lowercase, trim, trimmed, unicode_lowercase,
};

verus! {

/// The largest number of retries a policy can ask for.
pub const MAX_RETRIES: u32 = 100;

/// The shortest delay before a retry.
pub const MIN_RETRY_DELAY_MS: u64 = 1;

/// The longest delay before a retry.
pub const MAX_RETRY_DELAY_MS: u64 = 60_000;

/// How often a request is tried again.
#[derive(Debug, Clone, Copy, PartialEq, Eq, Structural)]
pub enum RetryLimit {
    Unlimited,
    Finite(usize),
}

/// A retry policy ready for use.
#[derive(Debug)]
pub struct ResolvedRetryPolicy {
    retry_limit: RetryLimit,
    retry_delay_ms: u64,
    custom_messages: Vec<String>,
    error_types: Vec<LocalProxyRetryErrorType>,
}

/// A resolved policy as a mathematical value.
pub struct ResolvedRetryPolicyView {
    pub retry_limit: RetryLimit,
    pub retry_delay_ms: u64,
    pub custom_messages: Seq<Seq<char>>,
    pub error_types: Seq<LocalProxyRetryErrorType>,
}

impl View for ResolvedRetryPolicy {
    type V = ResolvedRetryPolicyView;

    closed spec fn view(&self) -> ResolvedRetryPolicyView {
        ResolvedRetryPolicyView {
            retry_limit: self.retry_limit,
            retry_delay_ms: self.retry_delay_ms,
            custom_messages: texts_view(self.custom_messages@),
            error_types: self.error_types@,
        }
    }
}

impl ResolvedRetryPolicyView {
    /// Whether one more retry is allowed after that many.
    pub open spec fn allows_retry(self, completed_retries: nat) -> bool {
        match self.retry_limit {
            RetryLimit::Unlimited => true,
            RetryLimit::Finite(max_retries) => completed_retries < max_retries,
        }
    }

    /// What a resolved policy always is: a limit of one to a hundred retries or none at all, a
    /// delay within bounds, at least one trigger, and no trigger twice.
    pub open spec fn well_formed(self) -> bool {
        &&& self.retry_limit matches RetryLimit::Finite(max) ==> 1 <= max <= MAX_RETRIES
        &&& MIN_RETRY_DELAY_MS <= self.retry_delay_ms <= MAX_RETRY_DELAY_MS
        &&& self.custom_messages.len() > 0 || self.error_types.len() > 0
        &&& self.custom_messages.no_duplicates()
        &&& self.error_types.no_duplicates()
        &&& forall|i: int|
            0 <= i < self.custom_messages.len() ==> (#[trigger] self.custom_messages[i]).len() > 0
    }
}

/// What a retry decision goes by: the parts of an error.
pub struct ErrorFacts {
    pub status: Option<u16>,
    pub message: String,
    pub classification_text: String,
    pub network: bool,
}

/// Error facts as a mathematical value.
pub struct ErrorFactsView {
    pub status: Option<u16>,
    pub message: Seq<char>,
    pub classification_text: Seq<char>,
    pub network: bool,
}

impl View for ErrorFacts {
    type V = ErrorFactsView;

    open spec fn view(&self) -> ErrorFactsView {
        ErrorFactsView {
            status: self.status,
            message: self.message@,
            classification_text: self.classification_text@,
            network: self.network,
        }
    }
}

/// The messages and the classifications found in an error document.
pub struct ErrorFields {
    pub messages: Seq<Seq<char>>,
    pub classes: Seq<Seq<char>>,
}

impl ErrorFields {
    /// No fields.
    pub open spec fn none() -> ErrorFields {
        ErrorFields { messages: Seq::empty(), classes: Seq::empty() }
    }

    /// These fields, then those.
    pub open spec fn followed_by(self, more: ErrorFields) -> ErrorFields {
        ErrorFields { messages: self.messages + more.messages, classes: self.classes + more.classes }
    }
}

/// The text of a number.
pub open spec fn number_text(number: JsonNumberView) -> Seq<char> {
    match number {
        JsonNumberView::Unsigned(value) => decimal(value as nat),
        JsonNumberView::Negative(value) => if value < 0 {
            "-"@ + decimal((-value) as nat)
        } else {
            decimal(value as nat)
        },
        JsonNumberView::Float(text) => text,
    }
}

/// The text of a number.
pub fn number_to_text(number: &JsonNumber) -> (text: String)
    ensures
        text@ == number_text(number_view(*number)),
{
    match number {
        JsonNumber::Unsigned(value) => decimal_text(*value),
        JsonNumber::Negative(value) => {
            if *value < 0 {
                let magnitude: u64 = (-(*value as i128)) as u64;
                join("-", decimal_text(magnitude).as_str())
            } else {
                decimal_text(*value as u64)
            }
        },
        JsonNumber::Float(text) => text.clone(),
    }
}

/// The classifications a number stands for: its text, and the class of an HTTP status.
pub open spec fn numeric_classes(number: JsonNumberView) -> Seq<Seq<char>> {
    let text = seq![number_text(number)];
    match number {
        JsonNumberView::Unsigned(429) => text.push("rate_limit"@),
        JsonNumberView::Unsigned(503) => text.push("overloaded"@),
        JsonNumberView::Unsigned(code) if 500 <= code <= 599 => text.push("server_error"@),
        _ => text,
    }
}

/// The classifications of a value that is a text or a number.
pub open spec fn value_classes(value: JsonView) -> Seq<Seq<char>> {
    match value {
        JsonView::Str(text) => seq![text],
        JsonView::Number(number) => numeric_classes(number),
        _ => Seq::empty(),
    }
}

/// Whether a member of an error object is a message.
pub open spec fn is_message_key(key: Seq<char>) -> bool {
    key == "message"@ || key == "detail"@ || key == "error_description"@ || key == "errorMessage"@
}

/// Whether a member of an error object classifies it.
pub open spec fn is_class_key(key: Seq<char>) -> bool {
    key == "type"@ || key == "code"@ || key == "status"@ || key == "reason"@
}

/// Whether a member of an error object holds more of the error.
pub open spec fn is_nested_key(key: Seq<char>) -> bool {
    key == "error"@ || key == "errors"@ || key == "details"@ || key == "cause"@ || key == "causes"@
        || key == "inner"@ || key == "inner_error"@ || key == "innerError"@
}

/// The fields of an error document, in the order they stand in.
pub open spec fn error_fields(json: JsonView) -> ErrorFields
    decreases json,
{
    match json {
        JsonView::Str(text) => ErrorFields { messages: seq![text], classes: seq![text] },
        JsonView::Number(number) => ErrorFields {
            messages: Seq::empty(),
            classes: numeric_classes(number),
        },
        JsonView::Array(items) => items_fields(items),
        JsonView::Object(members) => members_fields(members),
        _ => ErrorFields::none(),
    }
}

/// The fields of a list of error documents.
pub open spec fn items_fields(items: Seq<JsonView>) -> ErrorFields
    decreases items,
{
    if items.len() == 0 {
        ErrorFields::none()
    } else {
        items_fields(items.drop_last()).followed_by(error_fields(items.last()))
    }
}

/// The fields of the members of an error object.
pub open spec fn members_fields(members: Seq<(Seq<char>, JsonView)>) -> ErrorFields
    decreases members,
{
    if members.len() == 0 {
        ErrorFields::none()
    } else {
        let key = members.last().0;
        let value = members.last().1;
        let before = members_fields(members.drop_last());
        if is_message_key(key) {
            match value {
                JsonView::Str(text) => before.followed_by(
                    ErrorFields { messages: seq![text], classes: Seq::empty() },
                ),
                _ => before.followed_by(error_fields(value)),
            }
        } else if is_class_key(key) {
            before.followed_by(ErrorFields { messages: Seq::empty(), classes: value_classes(value) })
        } else if is_nested_key(key) {
            before.followed_by(error_fields(value))
        } else {
            before
        }
    }
}

fn push_text(texts: &mut Vec<String>, text: String)
    ensures
        texts_view(final(texts)@) == texts_view(old(texts)@).push(text@),
{
    texts.push(text);
    assert(texts_view(texts@) =~= texts_view(old(texts)@).push(text@));
}

/// Adds the classifications a number stands for.
pub fn push_numeric_classification(number: &JsonNumber, classes: &mut Vec<String>)
    ensures
        texts_view(final(classes)@) == texts_view(old(classes)@) + numeric_classes(
            number_view(*number),
        ),
{
    let ghost before = texts_view(classes@);
    push_text(classes, number_to_text(number));
    match number {
        JsonNumber::Unsigned(code) => {
            if *code == 429 {
                push_text(classes, "rate_limit".to_owned());
            } else if *code == 503 {
                push_text(classes, "overloaded".to_owned());
            } else if 500 <= *code && *code <= 599 {
                push_text(classes, "server_error".to_owned());
            }
        },
        _ => {},
    }
    assert(texts_view(classes@) =~= before + numeric_classes(number_view(*number)));
}

fn push_value_classes(value: &Json, classes: &mut Vec<String>)
    ensures
        texts_view(final(classes)@) == texts_view(old(classes)@) + value_classes(value@),
{
    let ghost before = texts_view(classes@);
    match value {
        Json::Str(text) => {
            push_text(classes, text.clone());
        },
        Json::Number(number) => {
            push_numeric_classification(number, classes);
        },
        _ => {},
    }
    assert(texts_view(classes@) =~= before + value_classes(value@));
}

/// Adds the fields of an error document.
#[verifier::loop_isolation(false)]
pub fn collect_error_fields(value: &Json, messages: &mut Vec<String>, classes: &mut Vec<String>)
    ensures
        texts_view(final(messages)@) == texts_view(old(messages)@) + error_fields(value@).messages,
        texts_view(final(classes)@) == texts_view(old(classes)@) + error_fields(value@).classes,
    decreases value,
{
    broadcast use container_views;

    let ghost base = ErrorFields { messages: texts_view(messages@), classes: texts_view(classes@) };
    match value {
        Json::Str(text) => {
            push_text(messages, text.clone());
            push_text(classes, text.clone());
        },
        Json::Number(number) => {
            push_numeric_classification(number, classes);
        },
        Json::Array(items) => {
            let ghost views = items_view(items@);
            let mut i: usize = 0;
            while i < items.len()
                invariant
                    i <= items@.len(),
                    views == items_view(items@),
                    texts_view(messages@) == base.followed_by(items_fields(views.take(i as int))).messages,
                    texts_view(classes@) == base.followed_by(items_fields(views.take(i as int))).classes,
                decreases items@.len() - i,
            {
                assert(decreases_to!(*items => items@[i as int]));
                assert(views.take(i + 1).drop_last() =~= views.take(i as int));
                assert(views.take(i + 1).last() == items@[i as int]@);
                collect_error_fields(&items[i], messages, classes);
                assert(texts_view(messages@) =~= base.followed_by(
                    items_fields(views.take(i + 1)),
                ).messages);
                assert(texts_view(classes@) =~= base.followed_by(items_fields(views.take(i + 1))).classes);
                i = i + 1;
            }
            assert(views.take(i as int) =~= views);
        },
        Json::Object(members) => {
            let ghost views = members_view(members@);
            let mut i: usize = 0;
            while i < members.len()
                invariant
                    i <= members@.len(),
                    views == members_view(members@),
                    texts_view(messages@) == base.followed_by(
                        members_fields(views.take(i as int)),
                    ).messages,
                    texts_view(classes@) == base.followed_by(members_fields(views.take(i as int))).classes,
                decreases members@.len() - i,
            {
                assert(decreases_to!(*members => members@[i as int]));
                assert(views.take(i + 1).drop_last() =~= views.take(i as int));
                assert(views.take(i + 1).last() == (
                    members@[i as int].0@,
                    members@[i as int].1@,
                ));
                let key = members[i].0.as_str();
                let member = &members[i].1;
                if same_text(key, "message") || same_text(key, "detail") || same_text(
                    key,
                    "error_description",
                ) || same_text(key, "errorMessage") {
                    match member {
                        Json::Str(text) => {
                            push_text(messages, text.clone());
                        },
                        _ => {
                            collect_error_fields(member, messages, classes);
                        },
                    }
                } else if same_text(key, "type") || same_text(key, "code") || same_text(
                    key,
                    "status",
                ) || same_text(key, "reason") {
                    push_value_classes(member, classes);
                } else if same_text(key, "error") || same_text(key, "errors") || same_text(
                    key,
                    "details",
                ) || same_text(key, "cause") || same_text(key, "causes") || same_text(key, "inner")
                    || same_text(key, "inner_error") || same_text(key, "innerError") {
                    collect_error_fields(member, messages, classes);
                }
                assert(texts_view(messages@) =~= base.followed_by(
                    members_fields(views.take(i + 1)),
                ).messages);
                assert(texts_view(classes@) =~= base.followed_by(
                    members_fields(views.take(i + 1)),
                ).classes);
                i = i + 1;
            }
            assert(views.take(i as int) =~= views);
        },
        _ => {},
    }
    assert(texts_view(messages@) =~= base.followed_by(error_fields(value@)).messages);
    assert(texts_view(classes@) =~= base.followed_by(error_fields(value@)).classes);
}

/// The classifications that stand at the root of an error document.
pub open spec fn root_classes(value: JsonView) -> Seq<Seq<char>> {
    member_classes(value, "type"@) + member_classes(value, "code"@) + member_classes(
        value,
        "status"@,
    ) + member_classes(value, "reason"@)
}

/// The classifications of one member.
pub open spec fn member_classes(value: JsonView, key: Seq<char>) -> Seq<Seq<char>> {
    match value.member(key) {
        Some(member) => value_classes(member),
        None => Seq::empty(),
    }
}

fn push_member_classes(value: &Json, key: &str, classes: &mut Vec<String>)
    ensures
        texts_view(final(classes)@) == texts_view(old(classes)@) + member_classes(value@, key@),
{
    match value.get(key) {
        Some(member) => {
            push_value_classes(member, classes);
        },
        None => {
            assert(texts_view(classes@) =~= texts_view(classes@) + Seq::<Seq<char>>::empty());
        },
    }
}

/// Adds the classifications that stand at the root of an error document.
pub fn collect_classification_fields(value: &Json, classes: &mut Vec<String>)
    ensures
        texts_view(final(classes)@) == texts_view(old(classes)@) + root_classes(value@),
{
    let ghost before = texts_view(classes@);
    push_member_classes(value, "type", classes);
    push_member_classes(value, "code", classes);
    push_member_classes(value, "status", classes);
    push_member_classes(value, "reason", classes);
    assert(texts_view(classes@) =~= before + root_classes(value@));
}

/// The error object nested in a document: its `error`, else the `error` of its `response`.
pub open spec fn nested_error(value: JsonView) -> Option<JsonView> {
    match value.member("error"@) {
        Some(error) if !(error is Null) => Some(error),
        _ => match value.member2("response"@, "error"@) {
            Some(error) if !(error is Null) => Some(error),
            _ => None,
        },
    }
}

/// The message text and the classification text of an error document.
pub open spec fn document_texts(value: JsonView) -> (Seq<char>, Seq<char>) {
    let fields = match nested_error(value) {
        Some(error) => error_fields(error).followed_by(
            ErrorFields { messages: Seq::empty(), classes: root_classes(value) },
        ),
        None => error_fields(value),
    };
    (
        unicode_lowercase(joined(fields.messages, " "@)),
        unicode_lowercase(joined(fields.classes, " "@)),
    )
}

/// The message text and the classification text of an error document.
pub fn error_text_from_document(value: &Json) -> (texts: (String, String))
    ensures
        (texts.0@, texts.1@) == document_texts(value@),
{
    let mut messages: Vec<String> = Vec::new();
    let mut classes: Vec<String> = Vec::new();
    let nested = match value.get("error") {
        Some(error) if !error.is_null() => Some(error),
        _ => match value.get2("response", "error") {
            Some(error) if !error.is_null() => Some(error),
            _ => None,
        },
    };
    assert(texts_view(messages@) =~= Seq::<Seq<char>>::empty());
    assert(texts_view(classes@) =~= Seq::<Seq<char>>::empty());
    match nested {
        Some(error) => {
            collect_error_fields(error, &mut messages, &mut classes);
            collect_classification_fields(value, &mut classes);
            assert(texts_view(messages@) =~= error_fields(error@).messages
                + Seq::<Seq<char>>::empty());
            assert(texts_view(classes@) =~= error_fields(error@).classes + root_classes(value@));
        },
        None => {
            collect_error_fields(value, &mut messages, &mut classes);
            assert(texts_view(messages@) =~= error_fields(value@).messages);
            assert(texts_view(classes@) =~= error_fields(value@).classes);
        },
    }
    (
        to_lowercase(join_all(&messages, " ").as_str()),
        to_lowercase(join_all(&classes, " ").as_str()),
    )
}

/// The message text and the classification text of an error body. A body that is no JSON is
/// both.
pub open spec fn body_texts(body: Seq<char>) -> (Seq<char>, Seq<char>) {
    match parsed_text(body) {
        Some(value) => document_texts(value),
        None => (unicode_lowercase(body), unicode_lowercase(body)),
    }
}

/// The message text and the classification text of an error body.
pub fn error_text_from_body(body: &str) -> (texts: (String, String))
    ensures
        (texts.0@, texts.1@) == body_texts(body@),
{
    match parse_text(body) {
        Some(value) => error_text_from_document(&value),
        None => (to_lowercase(body), to_lowercase(body)),
    }
}

/// Whether a text speaks of a request that could never be sent as it is.
pub open spec fn local_request_text(message: Seq<char>) -> bool {
    ||| contains_text(message, "invalid url"@)
    ||| contains_text(message, "invalid proxy url"@)
    ||| contains_text(message, "uri has no host"@)
    ||| contains_text(message, "invalid server name"@)
    ||| contains_text(message, "invalid proxy server name"@)
    ||| contains_text(message, "failed to build request"@)
    ||| contains_text(message, "build dummy request"@)
}

/// Whether a text speaks of trouble on the way to the upstream or back.
pub open spec fn network_text(message: Seq<char>) -> bool {
    ||| contains_text(message, "连接失败"@)
    ||| contains_text(message, "connection refused"@)
    ||| contains_text(message, "connection reset"@)
    ||| contains_text(message, "connection closed"@)
    ||| contains_text(message, "connect failed"@)
    ||| contains_text(message, "tcp connect failed"@)
    ||| contains_text(message, "dns"@)
    ||| contains_text(message, "name resolution"@)
    ||| contains_text(message, "socket"@)
    ||| contains_text(message, "timed out"@)
    ||| contains_text(message, "timeout"@)
    ||| contains_text(message, "failed to read response body"@)
    ||| contains_text(message, "读取流式响应首包失败"@)
    ||| contains_text(message, "failed while validating responses stream start"@)
    ||| contains_text(message, "stream ended before producing output"@)
    ||| contains_text(message, "流式响应在首包到达前结束"@)
    ||| contains_text(message, "response parse failed"@)
    ||| contains_text(message, "unexpected eof"@)
    ||| contains_text(message, "broken pipe"@)
    ||| contains_text(message, "write failed"@)
    ||| contains_text(message, "flush failed"@)
    ||| contains_text(message, "read failed"@)
    ||| contains_text(message, "tls handshake failed"@)
    ||| contains_text(message, "handshake failed"@)
    ||| contains_text(message, "error sending request"@)
    ||| contains_text(message, "failed to send request"@)
    ||| contains_text(message, "上游请求失败"@)
}

/// Whether a failure to forward a request was trouble with the network, and not with the
/// request itself.
pub open spec fn network_failure(message: Seq<char>) -> bool {
    let lower = unicode_lowercase(message);
    !local_request_text(lower) && network_text(lower)
}

/// Whether a failure to forward a request was trouble with the network.
pub fn is_network_forward_failure(message: &str) -> (network: bool)
    ensures
        network == network_failure(message@),
{
    let lower = to_lowercase(message);
    let m = lower.as_str();
    if contains(m, "invalid url") || contains(m, "invalid proxy url") || contains(
        m,
        "uri has no host",
    ) || contains(m, "invalid server name") || contains(m, "invalid proxy server name") || contains(
        m,
        "failed to build request",
    ) || contains(m, "build dummy request") {
        return false;
    }
    contains(m, "连接失败") || contains(m, "connection refused") || contains(m, "connection reset")
        || contains(m, "connection closed") || contains(m, "connect failed") || contains(
        m,
        "tcp connect failed",
    ) || contains(m, "dns") || contains(m, "name resolution") || contains(m, "socket") || contains(
        m,
        "timed out",
    ) || contains(m, "timeout") || contains(m, "failed to read response body") || contains(
        m,
        "读取流式响应首包失败",
    ) || contains(m, "failed while validating responses stream start") || contains(
        m,
        "stream ended before producing output",
    ) || contains(m, "流式响应在首包到达前结束") || contains(m, "response parse failed")
        || contains(m, "unexpected eof") || contains(m, "broken pipe") || contains(
        m,
        "write failed",
    ) || contains(m, "flush failed") || contains(m, "read failed") || contains(
        m,
        "tls handshake failed",
    ) || contains(m, "handshake failed") || contains(m, "error sending request") || contains(
        m,
        "failed to send request",
    ) || contains(m, "上游请求失败")
}

/// The facts of an error.
pub open spec fn facts_of(error: ProxyErrorView) -> ErrorFactsView {
    match error {
        ProxyErrorView::UpstreamError { status, body } => {
            let texts = match body {
                Some(body) => body_texts(body),
                None => (Seq::empty(), Seq::empty()),
            };
            ErrorFactsView {
                status: Some(status),
                message: texts.0,
                classification_text: texts.1,
                network: false,
            }
        },
        ProxyErrorView::UpstreamBodyTimeout { status, timeout_seconds } => {
            let message = "upstream http "@ + decimal(status as nat)
                + " response body timed out after "@ + decimal(timeout_seconds as nat) + "s"@;
            ErrorFactsView {
                status: Some(status),
                message,
                classification_text: message,
                network: true,
            }
        },
        ProxyErrorView::Timeout(message) => ErrorFactsView {
            status: None,
            message: unicode_lowercase(message),
            classification_text: unicode_lowercase(message),
            network: true,
        },
        ProxyErrorView::ForwardFailed(message) => ErrorFactsView {
            status: None,
            message: unicode_lowercase(message),
            classification_text: unicode_lowercase(message),
            network: network_failure(message),
        },
        ProxyErrorView::StreamIdleTimeout(seconds) => {
            let message = "stream idle timeout: "@ + decimal(seconds as nat);
            ErrorFactsView { status: None, message, classification_text: message, network: true }
        },
        ProxyErrorView::TransformError(message) => ErrorFactsView {
            status: None,
            message: unicode_lowercase(message),
            classification_text: unicode_lowercase(message),
            network: false,
        },
        other => {
            let message = unicode_lowercase(other.message());
            ErrorFactsView { status: None, message, classification_text: message, network: false }
        },
    }
}

fn plain_facts(message: String, network: bool) -> (facts: ErrorFacts)
    ensures
        facts@ == (ErrorFactsView {
            status: None,
            message: message@,
            classification_text: message@,
            network,
        }),
{
    ErrorFacts { status: None, classification_text: message.clone(), message, network }
}

impl ErrorFacts {
    /// The facts of an error.
    pub fn from_proxy_error(error: &ProxyError) -> (facts: ErrorFacts)
        ensures
            facts@ == facts_of(error@),
    {
        match error {
            ProxyError::UpstreamError { status, body } => {
                let (message, classification_text) = match body {
                    Some(body) => error_text_from_body(body.as_str()),
                    None => (String::new(), String::new()),
                };
                ErrorFacts { status: Some(*status), message, classification_text, network: false }
            },
            ProxyError::UpstreamBodyTimeout { status, timeout_seconds } => {
                let mut message = join("upstream http ", decimal_text(*status as u64).as_str());
                message.append(" response body timed out after ");
                message.append(decimal_text(*timeout_seconds).as_str());
                message.append("s");
                ErrorFacts {
                    status: Some(*status),
                    classification_text: message.clone(),
                    message,
                    network: true,
                }
            },
            ProxyError::Timeout(message) => plain_facts(to_lowercase(message.as_str()), true),
            ProxyError::ForwardFailed(message) => plain_facts(
                to_lowercase(message.as_str()),
                is_network_forward_failure(message.as_str()),
            ),
            ProxyError::StreamIdleTimeout(seconds) => plain_facts(
                join("stream idle timeout: ", decimal_text(*seconds).as_str()),
                true,
            ),
            ProxyError::TransformError(message) => plain_facts(
                to_lowercase(message.as_str()),
                false,
            ),
            _ => plain_facts(to_lowercase(error.message().as_str()), false),
        }
    }
}

/// Whether a text speaks of too many requests.
pub open spec fn rate_limit_text(text: Seq<char>) -> bool {
    contains_text(text, "rate_limit"@) || contains_text(text, "rate limit"@) || contains_text(
        text,
        "too_many_requests"@,
    ) || contains_text(text, "resource_exhausted"@)
}

/// Whether a text speaks of an overloaded upstream.
pub open spec fn overloaded_text(text: Seq<char>) -> bool {
    contains_text(text, "overloaded"@) || contains_text(text, "service_unavailable"@)
        || contains_text(text, "service unavailable"@) || contains_text(text, "unavailable"@)
}

/// Whether a text speaks of a fault of the upstream.
pub open spec fn server_error_text(text: Seq<char>) -> bool {
    contains_text(text, "server_error"@) || contains_text(text, "internal_error"@) || contains_text(
        text,
        "internal server error"@,
    ) || contains_text(text, "bad_gateway"@) || contains_text(text, "bad gateway"@)
        || contains_text(text, "gateway_timeout"@) || contains_text(text, "gateway timeout"@)
}

impl ResolvedRetryPolicyView {
    /// Whether one of the policy's messages stands in the text.
    pub open spec fn has_message(self, text: Seq<char>) -> bool {
        text.len() > 0 && exists|i: int|
            0 <= i < self.custom_messages.len() && contains_text(
                text,
                #[trigger] self.custom_messages[i],
            )
    }

    /// The reason for which the policy wants a retry, where it wants one: the first trigger
    /// that applies, in the order below.
    pub open spec fn reason(self, facts: ErrorFactsView) -> Option<Seq<char>> {
        let text = facts.classification_text;
        if self.has_message(facts.message) {
            Some("custom_message"@)
        } else if self.error_types.contains(LocalProxyRetryErrorType::RateLimit) && (facts.status
            == Some(429u16) || rate_limit_text(text)) {
            Some("rate_limit"@)
        } else if self.error_types.contains(LocalProxyRetryErrorType::Overloaded) && (facts.status
            == Some(503u16) || overloaded_text(text)) {
            Some("overloaded"@)
        } else if self.error_types.contains(LocalProxyRetryErrorType::ServerError) && (
        (facts.status matches Some(status) && 500 <= status <= 599 && status != 503)
            || server_error_text(text)) {
            Some("server_error"@)
        } else if self.error_types.contains(LocalProxyRetryErrorType::Network) && (facts.network
            || facts.status == Some(408u16)) {
            Some("network"@)
        } else {
            None
        }
    }
}

fn list_has_type(types: &Vec<LocalProxyRetryErrorType>, wanted: LocalProxyRetryErrorType) -> (has:
    bool)
    ensures
        has == types@.contains(wanted),
{
    let mut i: usize = 0;
    while i < types.len()
        invariant
            i <= types@.len(),
            forall|k: int| 0 <= k < i ==> types@[k] != wanted,
        decreases types@.len() - i,
    {
        if types[i] == wanted {
            return true;
        }
        i = i + 1;
    }
    false
}

impl ResolvedRetryPolicy {
    /// The finite number of retries, or zero where there is no limit.
    pub fn max_retries(&self) -> (max: usize)
        ensures
            max == (match self@.retry_limit {
                RetryLimit::Unlimited => 0,
                RetryLimit::Finite(max) => max,
            }),
    {
        match self.retry_limit {
            RetryLimit::Unlimited => 0,
            RetryLimit::Finite(max) => max,
        }
    }

    /// Whether retries go on without a limit.
    pub fn is_unlimited(&self) -> (unlimited: bool)
        ensures
            unlimited == (self@.retry_limit is Unlimited),
    {
        match self.retry_limit {
            RetryLimit::Unlimited => true,
            RetryLimit::Finite(_) => false,
        }
    }

    /// Whether one more retry is allowed after that many.
    pub fn allows_retry(&self, completed_retries: usize) -> (allowed: bool)
        ensures
            allowed == self@.allows_retry(completed_retries as nat),
    {
        match self.retry_limit {
            RetryLimit::Unlimited => true,
            RetryLimit::Finite(max) => completed_retries < max,
        }
    }

    /// The limit as a text.
    pub fn retry_limit_label(&self) -> (label: String)
        ensures
            label@ == (match self@.retry_limit {
                RetryLimit::Unlimited => "unlimited"@,
                RetryLimit::Finite(max) => decimal(max as nat),
            }),
    {
        match self.retry_limit {
            RetryLimit::Unlimited => "unlimited".to_owned(),
            RetryLimit::Finite(max) => decimal_text(max as u64),
        }
    }

    /// Whether a retry is worth a line in the log: without a limit, only the first three and
    /// every hundredth.
    pub fn should_log_attempt(&self, retry_attempt: usize) -> (log: bool)
        ensures
            log == (self@.retry_limit is Finite || retry_attempt <= 3 || retry_attempt % 100 == 0),
    {
        match self.retry_limit {
            RetryLimit::Finite(_) => true,
            RetryLimit::Unlimited => retry_attempt <= 3 || retry_attempt % 100 == 0,
        }
    }

    /// The delay before a retry.
    pub fn retry_delay_ms(&self) -> (delay: u64)
        ensures
            delay == self@.retry_delay_ms,
    {
        self.retry_delay_ms
    }

    /// The messages that trigger a retry.
    pub fn custom_messages(&self) -> (messages: &Vec<String>)
        ensures
            texts_view(messages@) == self@.custom_messages,
    {
        &self.custom_messages
    }

    fn has_message(&self, text: &str) -> (has: bool)
        ensures
            has == self@.has_message(text@),
    {
        if text.is_empty() {
            return false;
        }
        let mut i: usize = 0;
        while i < self.custom_messages.len()
            invariant
                i <= self.custom_messages@.len(),
                text@.len() > 0,
                forall|k: int|
                    0 <= k < i ==> !contains_text(text@, #[trigger] self@.custom_messages[k]),
            decreases self.custom_messages@.len() - i,
        {
            assert(self@.custom_messages[i as int] == self.custom_messages@[i as int]@);
            if contains(text, self.custom_messages[i].as_str()) {
                return true;
            }
            i = i + 1;
        }
        false
    }

    /// The reason for which the policy wants a retry after an error with these facts.
    pub fn match_facts(&self, facts: &ErrorFacts) -> (reason: Option<String>)
        ensures
            match reason {
                Some(reason) => self@.reason(facts@) == Some(reason@),
                None => self@.reason(facts@) is None,
            },
    {
        let text = facts.classification_text.as_str();
        if self.has_message(facts.message.as_str()) {
            return Some("custom_message".to_owned());
        }
        let status: u16 = match facts.status {
            Some(status) => status,
            None => 0,
        };
        if list_has_type(&self.error_types, LocalProxyRetryErrorType::RateLimit) && (status == 429
            || contains(text, "rate_limit") || contains(text, "rate limit") || contains(
            text,
            "too_many_requests",
        ) || contains(text, "resource_exhausted")) {
            return Some("rate_limit".to_owned());
        }
        if list_has_type(&self.error_types, LocalProxyRetryErrorType::Overloaded) && (status == 503
            || contains(text, "overloaded") || contains(text, "service_unavailable") || contains(
            text,
            "service unavailable",
        ) || contains(text, "unavailable")) {
            return Some("overloaded".to_owned());
        }
        if list_has_type(&self.error_types, LocalProxyRetryErrorType::ServerError) && ((500
            <= status && status <= 599 && status != 503) || contains(text, "server_error")
            || contains(text, "internal_error") || contains(text, "internal server error")
            || contains(text, "bad_gateway") || contains(text, "bad gateway") || contains(
            text,
            "gateway_timeout",
        ) || contains(text, "gateway timeout")) {
            return Some("server_error".to_owned());
        }
        if list_has_type(&self.error_types, LocalProxyRetryErrorType::Network) && (facts.network
            || status == 408) {
            return Some("network".to_owned());
        }
        None
    }

    /// The reason for which the policy wants a retry after an error, where it wants one.
    pub fn match_error(&self, error: &ProxyError) -> (reason: Option<String>)
        ensures
            match reason {
                Some(reason) => self@.reason(facts_of(error@)) == Some(reason@),
                None => self@.reason(facts_of(error@)) is None,
            },
    {
        self.match_facts(&ErrorFacts::from_proxy_error(error))
    }
}

/// The messages of a policy as they are matched: trimmed, in lower case, without empty ones,
/// and each once.
pub open spec fn distinct_messages(messages: Seq<Seq<char>>) -> Seq<Seq<char>>
    decreases messages.len(),
{
    if messages.len() == 0 {
        Seq::empty()
    } else {
        let before = distinct_messages(messages.drop_last());
        let message = unicode_lowercase(trimmed(messages.last()));
        if message.len() == 0 || before.contains(message) {
            before
        } else {
            before.push(message)
        }
    }
}

/// Whether there is a message that is not blank.
pub open spec fn states_message(messages: Seq<Seq<char>>) -> bool {
    exists|i: int| 0 <= i < messages.len() && trimmed(#[trigger] messages[i]).len() > 0
}

/// Whether every message that is not blank is matched: the list has it trimmed and in lower case.
pub open spec fn matches_every_message(list: Seq<Seq<char>>, messages: Seq<Seq<char>>) -> bool {
    forall|i: int|
        0 <= i < messages.len() && trimmed(#[trigger] messages[i]).len() > 0 ==> list.contains(
            unicode_lowercase(trimmed(messages[i])),
        )
}

/// The policy that a provider is configured with.
pub open spec fn stated_policy(provider: ProviderView) -> Option<LocalProxyRetryPolicyView> {
    match provider.meta {
        Some(meta) => meta.local_proxy_retry_policy,
        None => None,
    }
}

/// Whether a request is retried by a policy: retries are switched on, in the proxy and in the
/// policy, the app is one that is retried, the model is not the approval model, and the policy
/// names a type of error or a message that is not blank.
pub open spec fn policy_applies(
    app_type: AppType,
    body: JsonView,
    raw: LocalProxyRetryPolicyView,
    global_enabled: bool,
) -> bool {
    &&& global_enabled
    &&& app_type is Claude || app_type is Codex || app_type is Gemini || app_type is GrokBuild
    &&& !(app_type is Codex && body.member_text("model"@) == Some("codex-auto-review"@))
    &&& match raw.enabled {
        Some(enabled) => enabled,
        None => raw.max_retries > 0,
    }
    &&& raw.error_types.len() > 0 || states_message(raw.custom_messages)
}

/// The error types of a policy, each once.
pub open spec fn distinct_types(types: Seq<LocalProxyRetryErrorType>) -> Seq<
    LocalProxyRetryErrorType,
>
    decreases types.len(),
{
    if types.len() == 0 {
        Seq::empty()
    } else {
        let before = distinct_types(types.drop_last());
        if before.contains(types.last()) {
            before
        } else {
            before.push(types.last())
        }
    }
}

/// The policy a request is retried by, where there is one. The approval model has its own
/// fallback and is never retried by this policy.
pub open spec fn resolved_policy(
    app_type: AppType,
    body: JsonView,
    provider: ProviderView,
    global_enabled: bool,
) -> Option<ResolvedRetryPolicyView> {
    let served = app_type is Claude || app_type is Codex || app_type is Gemini
        || app_type is GrokBuild;
    let approval = app_type is Codex && body.member_text("model"@) == Some("codex-auto-review"@);
    match provider.meta {
        Some(meta) => match meta.local_proxy_retry_policy {
            Some(raw) => {
                let enabled = match raw.enabled {
                    Some(enabled) => enabled,
                    None => raw.max_retries > 0,
                };
                let custom_messages = distinct_messages(raw.custom_messages);
                let error_types = distinct_types(raw.error_types);
                if global_enabled && served && !approval && enabled && (custom_messages.len() > 0
                    || error_types.len() > 0) {
                    Some(
                        ResolvedRetryPolicyView {
                            retry_limit: if raw.max_retries == 0 {
                                RetryLimit::Unlimited
                            } else if raw.max_retries > MAX_RETRIES {
                                RetryLimit::Finite(MAX_RETRIES as usize)
                            } else {
                                RetryLimit::Finite(raw.max_retries as usize)
                            },
                            retry_delay_ms: if raw.retry_delay_ms < MIN_RETRY_DELAY_MS {
                                MIN_RETRY_DELAY_MS
                            } else if raw.retry_delay_ms > MAX_RETRY_DELAY_MS {
                                MAX_RETRY_DELAY_MS
                            } else {
                                raw.retry_delay_ms
                            },
                            custom_messages,
                            error_types,
                        },
                    )
                } else {
                    None
                }
            },
            None => None,
        },
        None => None,
    }
}

fn resolve_messages(messages: &Vec<String>) -> (list: Vec<String>)
    ensures
        texts_view(list@) == distinct_messages(texts_view(messages@)),
        matches_every_message(texts_view(list@), texts_view(messages@)),
        list@.len() > 0 <==> states_message(texts_view(messages@)),
{
    let ghost views = texts_view(messages@);
    let mut list: Vec<String> = Vec::new();
    let mut i: usize = 0;
    assert(texts_view(list@) =~= Seq::<Seq<char>>::empty());
    while i < messages.len()
        invariant
            i <= messages@.len(),
            views == texts_view(messages@),
            texts_view(list@) == distinct_messages(views.take(i as int)),
            matches_every_message(texts_view(list@), views.take(i as int)),
            list@.len() > 0 ==> states_message(views),
        decreases messages@.len() - i,
    {
        let ghost before = texts_view(list@);
        assert(views.take(i + 1).drop_last() =~= views.take(i as int));
        assert(views.take(i + 1).last() == messages@[i as int]@);
        let message = to_lowercase(trim(messages[i].as_str()));
        let ghost lower = message@;
        assert(trimmed(views[i as int]).len() > 0 ==> states_message(views));
        if !message.as_str().is_empty() && !list_has(&list, message.as_str()) {
            push_text(&mut list, message);
            assert(texts_view(list@).last() == lower);
        }
        proof {
            let after = texts_view(list@);
            assert forall|k: int| 0 <= k < i + 1 && trimmed(
                #[trigger] views.take(i + 1)[k],
            ).len() > 0 implies after.contains(
                unicode_lowercase(trimmed(views.take(i + 1)[k])),
            ) by {
                if k < i {
                    let wanted = unicode_lowercase(trimmed(views.take(i as int)[k]));
                    assert(before.contains(wanted));
                    let at = before.index_of(wanted);
                    assert(after[at] == wanted);
                } else {
                    assert(after.contains(lower));
                }
            }
        }
        i = i + 1;
    }
    assert(views.take(i as int) =~= views);
    proof {
        if states_message(views) {
            let k = choose|k: int| 0 <= k < views.len() && trimmed(#[trigger] views[k]).len() > 0;
            assert(texts_view(list@).contains(unicode_lowercase(trimmed(views[k]))));
        }
    }
    list
}

fn resolve_types(types: &Vec<LocalProxyRetryErrorType>) -> (list: Vec<LocalProxyRetryErrorType>)
    ensures
        list@ == distinct_types(types@),
{
    let mut list: Vec<LocalProxyRetryErrorType> = Vec::new();
    let mut i: usize = 0;
    while i < types.len()
        invariant
            i <= types@.len(),
            list@ == distinct_types(types@.take(i as int)),
        decreases types@.len() - i,
    {
        assert(types@.take(i + 1).drop_last() =~= types@.take(i as int));
        if !list_has_type(&list, types[i]) {
            list.push(types[i]);
        }
        i = i + 1;
    }
    assert(types@.take(i as int) =~= types@);
    list
}

/// The policy a request is retried by, where there is one.
pub fn resolve_retry_policy_with_global(
    app_type: AppType,
    body: &Json,
    provider: &Provider,
    global_enabled: bool,
) -> (policy: Option<ResolvedRetryPolicy>)
    ensures
        match policy {
            Some(policy) => resolved_policy(app_type, body@, provider@, global_enabled) == Some(
                policy@,
            ),
            None => resolved_policy(app_type, body@, provider@, global_enabled) is None,
        },
        policy is Some <==> (stated_policy(provider@) matches Some(raw) && policy_applies(
            app_type,
            body@,
            raw,
            global_enabled,
        )),
        policy matches Some(policy) ==> matches_every_message(
            policy@.custom_messages,
            stated_policy(provider@)->0.custom_messages,
        ),
{
    if !global_enabled {
        return None;
    }
    match app_type {
        AppType::Claude | AppType::Codex | AppType::Gemini | AppType::GrokBuild => {},
        _ => {
            return None;
        },
    }
    if let AppType::Codex = app_type {
        if let Some(model) = body.get_str("model") {
            if same_text(model, "codex-auto-review") {
                return None;
            }
        }
    }
    let raw = match &provider.meta {
        Some(meta) => match &meta.local_proxy_retry_policy {
            Some(raw) => raw,
            None => {
                return None;
            },
        },
        None => {
            return None;
        },
    };
    let enabled = match raw.enabled {
        Some(enabled) => enabled,
        None => raw.max_retries > 0,
    };
    if !enabled {
        return None;
    }
    let retry_limit = if raw.max_retries == 0 {
        RetryLimit::Unlimited
    } else if raw.max_retries > MAX_RETRIES {
        RetryLimit::Finite(MAX_RETRIES as usize)
    } else {
        RetryLimit::Finite(raw.max_retries as usize)
    };
    let custom_messages = resolve_messages(&raw.custom_messages);
    let error_types = resolve_types(&raw.error_types);
    proof {
        lemma_types_are_kept(raw.error_types@);
    }
    if custom_messages.len() == 0 && error_types.len() == 0 {
        return None;
    }
    let retry_delay_ms: u64 = if raw.retry_delay_ms < MIN_RETRY_DELAY_MS {
        MIN_RETRY_DELAY_MS
    } else if raw.retry_delay_ms > MAX_RETRY_DELAY_MS {
        MAX_RETRY_DELAY_MS
    } else {
        raw.retry_delay_ms
    };
    Some(ResolvedRetryPolicy { retry_limit, retry_delay_ms, custom_messages, error_types })
}

/// The policy a request is retried by where retries are switched on.
pub fn resolve_retry_policy(app_type: AppType, body: &Json, provider: &Provider) -> (policy: Option<
    ResolvedRetryPolicy,
>)
    ensures
        match policy {
            Some(policy) => resolved_policy(app_type, body@, provider@, true) == Some(policy@),
            None => resolved_policy(app_type, body@, provider@, true) is None,
        },
{
    resolve_retry_policy_with_global(app_type, body, provider, true)
}

proof fn lemma_distinct_messages(messages: Seq<Seq<char>>)
    ensures
        distinct_messages(messages).no_duplicates(),
        forall|i: int|
            0 <= i < distinct_messages(messages).len() ==> (#[trigger] distinct_messages(
                messages,
            )[i]).len() > 0,
    decreases messages.len(),
{
    if messages.len() > 0 {
        lemma_distinct_messages(messages.drop_last());
    }
}

proof fn lemma_types_are_kept(types: Seq<LocalProxyRetryErrorType>)
    ensures
        distinct_types(types).len() > 0 <==> types.len() > 0,
    decreases types.len(),
{
    if types.len() > 0 {
        lemma_types_are_kept(types.drop_last());
    }
}

proof fn lemma_distinct_types(types: Seq<LocalProxyRetryErrorType>)
    ensures
        distinct_types(types).no_duplicates(),
    decreases types.len(),
{
    if types.len() > 0 {
        lemma_distinct_types(types.drop_last());
    }
}

/// Every policy that resolves is within bounds and has a trigger: one to a hundred retries or,
/// where a policy that is switched on asks for none, no limit; a delay of one to sixty thousand
/// milliseconds.
pub proof fn resolved_policies_are_well_formed(
    app_type: AppType,
    body: JsonView,
    provider: ProviderView,
    global_enabled: bool,
)
    ensures
        resolved_policy(app_type, body, provider, global_enabled) matches Some(policy)
            ==> policy.well_formed(),
{
    if let Some(meta) = provider.meta {
        if let Some(raw) = meta.local_proxy_retry_policy {
            lemma_distinct_messages(raw.custom_messages);
            lemma_distinct_types(raw.error_types);
        }
    }
}

/// No policy resolves where retries are switched off, for the approval model of Codex, or
/// without a trigger.
pub proof fn no_policy_when_switched_off(
    app_type: AppType,
    body: JsonView,
    provider: ProviderView,
    global_enabled: bool,
)
    requires
        !global_enabled || (app_type is Codex && body.member_text("model"@) == Some(
            "codex-auto-review"@,
        )) || provider.meta is None || provider.meta->Some_0.local_proxy_retry_policy is None
            || provider.meta->Some_0.local_proxy_retry_policy->Some_0.enabled == Some(false),
    ensures
        resolved_policy(app_type, body, provider, global_enabled) is None,
{
}

/// A finite policy allows exactly its number of retries, a policy without a limit any number.
pub proof fn retries_allowed_up_to_the_limit(policy: ResolvedRetryPolicyView, retries: nat)
    ensures
        policy.allows_retry(retries) <==> (policy.retry_limit matches RetryLimit::Finite(max)
            ==> retries < max),
{
}

/// A policy allows the retries that are set, a hundred at most: one more after `n` exactly where
/// `n` is below both. A policy that is switched on without a number allows any.
pub proof fn policies_allow_the_retries_that_are_set(
    app_type: AppType,
    body: JsonView,
    provider: ProviderView,
    global_enabled: bool,
    n: nat,
)
    requires
        resolved_policy(app_type, body, provider, global_enabled) is Some,
    ensures
        provider.meta matches Some(meta) && (meta.local_proxy_retry_policy matches Some(raw) && {
            let policy = resolved_policy(app_type, body, provider, global_enabled)->Some_0;
            &&& raw.max_retries > 0 ==> (policy.allows_retry(n) <==> n < raw.max_retries && n < 100)
            &&& raw.max_retries == 0 ==> policy.allows_retry(n)
        }),
{
}

/// A policy waits as long as is set, within one and sixty thousand milliseconds: a setting within
/// these is kept, and one outside becomes the nearer of the two.
pub proof fn policies_wait_as_long_as_is_set(
    app_type: AppType,
    body: JsonView,
    provider: ProviderView,
    global_enabled: bool,
)
    requires
        resolved_policy(app_type, body, provider, global_enabled) is Some,
    ensures
        provider.meta matches Some(meta) && (meta.local_proxy_retry_policy matches Some(raw) && {
            let delay = resolved_policy(
                app_type,
                body,
                provider,
                global_enabled,
            )->Some_0.retry_delay_ms;
            &&& 1 <= raw.retry_delay_ms <= 60_000 ==> delay == raw.retry_delay_ms
            &&& raw.retry_delay_ms < 1 ==> delay == 1
            &&& raw.retry_delay_ms > 60_000 ==> delay == 60_000
        }),
{
}

/// A policy has the triggers that are set: the types of errors that are listed and no other, and
/// of the messages those that are not blank, trimmed and in lower case.
pub proof fn policies_have_the_triggers_that_are_set(
    app_type: AppType,
    body: JsonView,
    provider: ProviderView,
    global_enabled: bool,
    kind: LocalProxyRetryErrorType,
    message: Seq<char>,
)
    requires
        resolved_policy(app_type, body, provider, global_enabled) is Some,
    ensures
        provider.meta matches Some(meta) && (meta.local_proxy_retry_policy matches Some(raw) && {
            let policy = resolved_policy(app_type, body, provider, global_enabled)->Some_0;
            &&& policy.error_types.contains(kind) <==> raw.error_types.contains(kind)
            &&& policy.custom_messages.contains(message) <==> message.len() > 0 && exists|i: int|
                0 <= i < raw.custom_messages.len() && unicode_lowercase(
                    trimmed(#[trigger] raw.custom_messages[i]),
                ) == message
        }),
{
    let raw = provider.meta->Some_0.local_proxy_retry_policy->Some_0;
    lemma_listed_types(raw.error_types, kind);
    lemma_listed_messages(raw.custom_messages, message);
}

proof fn lemma_listed_types(types: Seq<LocalProxyRetryErrorType>, kind: LocalProxyRetryErrorType)
    ensures
        distinct_types(types).contains(kind) <==> types.contains(kind),
    decreases types.len(),
{
    if types.len() > 0 {
        let rest = types.drop_last();
        lemma_listed_types(rest, kind);
        let before = distinct_types(rest);
        if types.contains(kind) {
            let i = types.index_of(kind);
            if i < rest.len() {
                assert(rest[i] == kind);
                assert(rest.contains(kind));
            }
        }
        if rest.contains(kind) {
            let i = rest.index_of(kind);
            assert(types[i] == kind);
            let k = before.index_of(kind);
            assert(distinct_types(types)[k] == kind);
        }
        if types.last() == kind && !before.contains(kind) {
            assert(distinct_types(types).last() == kind);
        }
        if distinct_types(types).contains(kind) {
            let k = distinct_types(types).index_of(kind);
            if k < before.len() {
                assert(before[k] == kind);
            }
            assert(types.last() == types[types.len() - 1]);
        }
    }
}

proof fn lemma_listed_messages(messages: Seq<Seq<char>>, message: Seq<char>)
    ensures
        distinct_messages(messages).contains(message) <==> message.len() > 0 && exists|i: int|
            0 <= i < messages.len() && unicode_lowercase(trimmed(#[trigger] messages[i])) == message,
    decreases messages.len(),
{
    if messages.len() > 0 {
        let rest = messages.drop_last();
        lemma_listed_messages(rest, message);
        let before = distinct_messages(rest);
        let all = distinct_messages(messages);
        let last = unicode_lowercase(trimmed(messages.last()));
        assert(messages.last() == messages[messages.len() - 1]);
        if before.contains(message) {
            let i = choose|i: int|
                0 <= i < rest.len() && unicode_lowercase(trimmed(#[trigger] rest[i])) == message;
            assert(messages[i] == rest[i]);
            let k = before.index_of(message);
            assert(all[k] == message);
        }
        if message.len() > 0 && exists|i: int|
            0 <= i < messages.len() && unicode_lowercase(trimmed(#[trigger] messages[i]))
                == message {
            let i = choose|i: int|
                0 <= i < messages.len() && unicode_lowercase(trimmed(#[trigger] messages[i]))
                    == message;
            if i < rest.len() {
                assert(rest[i] == messages[i]);
                assert(before.contains(message));
            } else {
                assert(last == message);
                if !before.contains(message) {
                    assert(all.last() == message);
                }
            }
        }
        if all.contains(message) {
            let k = all.index_of(message);
            if k < before.len() {
                assert(before[k] == message);
                assert(before.contains(message));
            } else {
                assert(last == message);
            }
        }
    }
}

/// A request is retried by its provider's policy exactly where all of this holds: retries are
/// switched on in the proxy; the app is one that has them; the request is not for the approval
/// model of Codex; the provider has a policy that is switched on, or says nothing and asks for
/// retries; and the policy has a trigger.
pub proof fn policies_apply_where_they_are_switched_on(
    app_type: AppType,
    body: JsonView,
    provider: ProviderView,
    global_enabled: bool,
)
    ensures
        resolved_policy(app_type, body, provider, global_enabled) is Some <==> {
            &&& global_enabled
            &&& app_type == AppType::Claude || app_type == AppType::Codex || app_type
                == AppType::Gemini || app_type == AppType::GrokBuild
            &&& app_type == AppType::Codex ==> body.member("model"@) != Some(
                JsonView::Str("codex-auto-review"@),
            )
            &&& provider.meta matches Some(meta) && (meta.local_proxy_retry_policy matches Some(raw)
                && {
                &&& raw.enabled == Some(true) || (raw.enabled is None && raw.max_retries > 0)
                &&& raw.error_types.len() > 0 || exists|i: int|
                    0 <= i < raw.custom_messages.len() && unicode_lowercase(
                        trimmed(#[trigger] raw.custom_messages[i]),
                    ).len() > 0
            })
        },
{
    if let Some(meta) = provider.meta {
        if let Some(raw) = meta.local_proxy_retry_policy {
            lemma_types_are_kept(raw.error_types);
            let messages = raw.custom_messages;
            let all = distinct_messages(messages);
            if all.len() > 0 {
                lemma_listed_messages(messages, all[0]);
                assert(all.contains(all[0]));
            }
            if exists|i: int|
                0 <= i < messages.len() && unicode_lowercase(trimmed(#[trigger] messages[i])).len()
                    > 0 {
                let i = choose|i: int|
                    0 <= i < messages.len() && unicode_lowercase(
                        trimmed(#[trigger] messages[i]),
                    ).len() > 0;
                lemma_listed_messages(messages, unicode_lowercase(trimmed(messages[i])));
            }
        }
    }
}

/// Nothing stands in an empty text but the empty text.
proof fn lemma_empty_has_nothing(needle: Seq<char>)
    requires
        needle.len() > 0,
    ensures
        !contains_text(Seq::<char>::empty(), needle),
{
}

/// Where an upstream answers with a status alone, that decides: too many requests, unavailable, any
/// other fault of a server and a timeout trigger the types of these names, and nothing else does.
pub proof fn statuses_trigger_their_types(policy: ResolvedRetryPolicyView, status: u16)
    ensures
        policy.reason(facts_of(ProxyErrorView::UpstreamError { status, body: None })) is Some <==> {
            ||| policy.error_types.contains(LocalProxyRetryErrorType::RateLimit) && status == 429
            ||| policy.error_types.contains(LocalProxyRetryErrorType::Overloaded) && status == 503
            ||| policy.error_types.contains(LocalProxyRetryErrorType::ServerError) && 500 <= status
                <= 599 && status != 503
            ||| policy.error_types.contains(LocalProxyRetryErrorType::Network) && status == 408
        },
{
    reveal_strlit("rate_limit");
    reveal_strlit("rate limit");
    reveal_strlit("too_many_requests");
    reveal_strlit("resource_exhausted");
    reveal_strlit("overloaded");
    reveal_strlit("service_unavailable");
    reveal_strlit("service unavailable");
    reveal_strlit("unavailable");
    reveal_strlit("server_error");
    reveal_strlit("internal_error");
    reveal_strlit("internal server error");
    reveal_strlit("bad_gateway");
    reveal_strlit("bad gateway");
    reveal_strlit("gateway_timeout");
    reveal_strlit("gateway timeout");
    lemma_empty_has_nothing("rate_limit"@);
    lemma_empty_has_nothing("rate limit"@);
    lemma_empty_has_nothing("too_many_requests"@);
    lemma_empty_has_nothing("resource_exhausted"@);
    lemma_empty_has_nothing("overloaded"@);
    lemma_empty_has_nothing("service_unavailable"@);
    lemma_empty_has_nothing("service unavailable"@);
    lemma_empty_has_nothing("unavailable"@);
    lemma_empty_has_nothing("server_error"@);
    lemma_empty_has_nothing("internal_error"@);
    lemma_empty_has_nothing("internal server error"@);
    lemma_empty_has_nothing("bad_gateway"@);
    lemma_empty_has_nothing("bad gateway"@);
    lemma_empty_has_nothing("gateway_timeout"@);
    lemma_empty_has_nothing("gateway timeout"@);
}

/// A status triggers its type whatever the upstream says along with it.
pub proof fn statuses_trigger_whatever_is_said(
    policy: ResolvedRetryPolicyView,
    status: u16,
    body: Option<Seq<char>>,
)
    ensures
        policy.error_types.contains(LocalProxyRetryErrorType::RateLimit) && status == 429
            ==> policy.reason(facts_of(ProxyErrorView::UpstreamError { status, body })) is Some,
        policy.error_types.contains(LocalProxyRetryErrorType::Overloaded) && status == 503
            ==> policy.reason(facts_of(ProxyErrorView::UpstreamError { status, body })) is Some,
        policy.error_types.contains(LocalProxyRetryErrorType::ServerError) && 500 <= status <= 599
            && status != 503 ==> policy.reason(
            facts_of(ProxyErrorView::UpstreamError { status, body }),
        ) is Some,
        policy.error_types.contains(LocalProxyRetryErrorType::Network) && status == 408
            ==> policy.reason(facts_of(ProxyErrorView::UpstreamError { status, body })) is Some,
{
}

/// Every timeout is trouble with the network, and so is a failure to forward whose message says
/// so; one that speaks of a request that cannot be sent as it is is none.
pub proof fn timeouts_are_network_trouble(
    policy: ResolvedRetryPolicyView,
    error: ProxyErrorView,
)
    ensures
        error is Timeout || error is StreamIdleTimeout || error is UpstreamBodyTimeout
            ==> facts_of(error).network,
        facts_of(error).network && policy.error_types.contains(LocalProxyRetryErrorType::Network)
            ==> policy.reason(facts_of(error)) is Some,
        facts_of(error).network ==> error is Timeout || error is StreamIdleTimeout || error
            is UpstreamBodyTimeout || error is ForwardFailed,
        error matches ProxyErrorView::UpstreamBodyTimeout { status, .. } ==> facts_of(error).status
            == Some(status),
        error matches ProxyErrorView::UpstreamError { status, .. } ==> facts_of(error).status
            == Some(status),
        !(error is UpstreamError) && !(error is UpstreamBodyTimeout) ==> facts_of(error).status
            is None,
{
}

/// A failure to forward is trouble with the network where its message, in lower case, says so in
/// one of these ways, and not that the request cannot be sent as it is.
pub proof fn forwarding_fails_for_the_network(message: Seq<char>)
    ensures
        ({
            let lower = unicode_lowercase(message);
            let local = contains_text(lower, "invalid url"@) || contains_text(
                lower,
                "invalid proxy url"@,
            ) || contains_text(lower, "uri has no host"@) || contains_text(
                lower,
                "invalid server name"@,
            ) || contains_text(lower, "invalid proxy server name"@) || contains_text(
                lower,
                "failed to build request"@,
            ) || contains_text(lower, "build dummy request"@);
            let spoken = contains_text(lower, "连接失败"@) || contains_text(
                lower,
                "connection refused"@,
            ) || contains_text(lower, "connection reset"@) || contains_text(
                lower,
                "connection closed"@,
            ) || contains_text(lower, "connect failed"@) || contains_text(
                lower,
                "tcp connect failed"@,
            ) || contains_text(lower, "dns"@) || contains_text(lower, "name resolution"@)
                || contains_text(lower, "socket"@) || contains_text(lower, "timed out"@)
                || contains_text(lower, "timeout"@) || contains_text(
                lower,
                "failed to read response body"@,
            ) || contains_text(lower, "读取流式响应首包失败"@) || contains_text(
                lower,
                "failed while validating responses stream start"@,
            ) || contains_text(lower, "stream ended before producing output"@) || contains_text(
                lower,
                "流式响应在首包到达前结束"@,
            ) || contains_text(lower, "response parse failed"@) || contains_text(
                lower,
                "unexpected eof"@,
            ) || contains_text(lower, "broken pipe"@) || contains_text(lower, "write failed"@)
                || contains_text(lower, "flush failed"@) || contains_text(lower, "read failed"@)
                || contains_text(lower, "tls handshake failed"@) || contains_text(
                lower,
                "handshake failed"@,
            ) || contains_text(lower, "error sending request"@) || contains_text(
                lower,
                "failed to send request"@,
            ) || contains_text(lower, "上游请求失败"@);
            facts_of(ProxyErrorView::ForwardFailed(message)).network <==> spoken && !local
        }),
{
}

/// What an error says triggers a type as well as its status does: each type has its words.
pub proof fn words_trigger_their_types(policy: ResolvedRetryPolicyView, facts: ErrorFactsView)
    ensures
        ({
            let text = facts.classification_text;
            let types = policy.error_types;
            &&& types.contains(LocalProxyRetryErrorType::RateLimit) && (contains_text(
                text,
                "rate_limit"@,
            ) || contains_text(text, "rate limit"@) || contains_text(text, "too_many_requests"@)
                || contains_text(text, "resource_exhausted"@)) ==> policy.reason(facts) is Some
            &&& types.contains(LocalProxyRetryErrorType::Overloaded) && (contains_text(
                text,
                "overloaded"@,
            ) || contains_text(text, "service_unavailable"@) || contains_text(
                text,
                "service unavailable"@,
            ) || contains_text(text, "unavailable"@)) ==> policy.reason(facts) is Some
            &&& types.contains(LocalProxyRetryErrorType::ServerError) && (contains_text(
                text,
                "server_error"@,
            ) || contains_text(text, "internal_error"@) || contains_text(
                text,
                "internal server error"@,
            ) || contains_text(text, "bad_gateway"@) || contains_text(text, "bad gateway"@)
                || contains_text(text, "gateway_timeout"@) || contains_text(
                text,
                "gateway timeout"@,
            )) ==> policy.reason(facts) is Some
        }),
{
}

/// A message of a policy triggers it wherever it stands in the message of an error, whatever the
/// types; and a policy that wants a retry has a message or a type on which account it does.
pub proof fn messages_trigger_wherever_they_stand(
    policy: ResolvedRetryPolicyView,
    facts: ErrorFactsView,
    i: int,
)
    ensures
        0 <= i < policy.custom_messages.len() && facts.message.len() > 0 && contains_text(
            facts.message,
            policy.custom_messages[i],
        ) ==> policy.reason(facts) is Some,
        policy.reason(facts) is Some && policy.error_types.len() == 0 ==> exists|k: int|
            0 <= k < policy.custom_messages.len() && contains_text(
                facts.message,
                #[trigger] policy.custom_messages[k],
            ),
        policy.custom_messages.len() == 0 && policy.error_types.len() == 0 ==> policy.reason(facts)
            is None,
{
}

/// What an error document says counts: the texts of its messages, of what classifies it and of
/// what it holds of other errors are all among what is looked at.
pub proof fn said_things_are_looked_at(members: Seq<(Seq<char>, JsonView)>, at: int)
    requires
        0 <= at < members.len(),
    ensures
        ({
            let (key, value) = members[at];
            let found = error_fields(JsonView::Object(members));
            &&& (key == "message"@ || key == "detail"@ || key == "error_description"@ || key
                == "errorMessage"@) && value is Str ==> found.messages.contains(value->Str_0)
            &&& (key == "type"@ || key == "code"@ || key == "status"@ || key == "reason"@) && value
                is Str ==> found.classes.contains(value->Str_0)
            &&& key == "error"@ || key == "errors"@ || key == "details"@ || key == "cause"@ || key
                == "causes"@ || key == "inner"@ || key == "inner_error"@ || key == "innerError"@ ==> {
                &&& forall|text: Seq<char>| #[trigger]
                    error_fields(value).messages.contains(text) ==> found.messages.contains(text)
                &&& forall|text: Seq<char>| #[trigger]
                    error_fields(value).classes.contains(text) ==> found.classes.contains(text)
            }
        }),
    decreases members.len(),
{
    key_kinds_differ();
    let (key, value) = members[at];
    let rest = members.drop_last();
    let before = members_fields(rest);
    let found = members_fields(members);
    assert(error_fields(JsonView::Object(members)) == found);
    if at < rest.len() {
        assert(rest[at] == members[at]);
        said_things_are_looked_at(rest, at);
        assert(error_fields(JsonView::Object(rest)) == before);
        assert forall|text: Seq<char>| before.messages.contains(text) implies found.messages.contains(
            text,
        ) by {
            let i = before.messages.index_of(text);
            assert(found.messages[i] == text);
        }
        assert forall|text: Seq<char>| before.classes.contains(text) implies found.classes.contains(
            text,
        ) by {
            let i = before.classes.index_of(text);
            assert(found.classes[i] == text);
        }
    } else {
        assert(members.last() == (key, value));
        if is_message_key(key) && value is Str {
            assert(found.messages.last() == value->Str_0);
        }
        if is_class_key(key) && value is Str {
            assert(found.classes.last() == value->Str_0);
        }
        if is_nested_key(key) {
            let inner = error_fields(value);
            assert forall|text: Seq<char>| #[trigger]
                inner.messages.contains(text) implies found.messages.contains(text) by {
                let i = inner.messages.index_of(text);
                assert(found.messages[before.messages.len() + i] == text);
            }
            assert forall|text: Seq<char>| #[trigger]
                inner.classes.contains(text) implies found.classes.contains(text) by {
                let i = inner.classes.index_of(text);
                assert(found.classes[before.classes.len() + i] == text);
            }
        }
    }
}

/// No name of a member stands for two things.
proof fn key_kinds_differ()
    ensures
        forall|key: Seq<char>| #[trigger]
            is_class_key(key) ==> !is_message_key(key) && !is_nested_key(key),
        forall|key: Seq<char>| #[trigger] is_nested_key(key) ==> !is_message_key(key),
{
    reveal_strlit("message");
    reveal_strlit("detail");
    reveal_strlit("error_description");
    reveal_strlit("errorMessage");
    reveal_strlit("type");
    reveal_strlit("code");
    reveal_strlit("status");
    reveal_strlit("reason");
    reveal_strlit("error");
    reveal_strlit("errors");
    reveal_strlit("details");
    reveal_strlit("cause");
    reveal_strlit("causes");
    reveal_strlit("inner");
    reveal_strlit("inner_error");
    reveal_strlit("innerError");
    assert("message"@.len() == 7 && "message"@[0] == 'm');
    assert("detail"@.len() == 6 && "detail"@[0] == 'd');
    assert("error_description"@.len() == 17);
    assert("errorMessage"@.len() == 12);
    assert("type"@.len() == 4);
    assert("code"@.len() == 4);
    assert("status"@.len() == 6 && "status"@[0] == 's');
    assert("reason"@.len() == 6 && "reason"@[0] == 'r');
    assert("error"@.len() == 5);
    assert("errors"@.len() == 6 && "errors"@[0] == 'e');
    assert("details"@.len() == 7 && "details"@[0] == 'd');
    assert("cause"@.len() == 5);
    assert("causes"@.len() == 6 && "causes"@[0] == 'c');
    assert("inner"@.len() == 5);
    assert("inner_error"@.len() == 11);
    assert("innerError"@.len() == 10);
}

/// A request is repeated for the first reason that there is, and each has its name: a message of the
/// provider's own, the rate limit, an overload, an error of the server, and the network. A type that
/// is not set is no reason, and what is none of these is none.
pub proof fn reasons_come_in_their_order(policy: ResolvedRetryPolicyView, facts: ErrorFactsView)
    ensures
        ({
            let text = facts.classification_text;
            let types = policy.error_types;
            let own = facts.message.len() > 0 && exists|i: int|
                0 <= i < policy.custom_messages.len() && contains_text(
                    facts.message,
                    #[trigger] policy.custom_messages[i],
                );
            let limited = types.contains(LocalProxyRetryErrorType::RateLimit) && (facts.status
                == Some(429u16) || contains_text(text, "rate_limit"@) || contains_text(
                text,
                "rate limit"@,
            ) || contains_text(text, "too_many_requests"@) || contains_text(
                text,
                "resource_exhausted"@,
            ));
            let overloaded = types.contains(LocalProxyRetryErrorType::Overloaded) && (facts.status
                == Some(503u16) || contains_text(text, "overloaded"@) || contains_text(
                text,
                "unavailable"@,
            ) || contains_text(text, "service_unavailable"@) || contains_text(
                text,
                "service unavailable"@,
            ));
            let broken = types.contains(LocalProxyRetryErrorType::ServerError) && (
            (facts.status matches Some(status) && 500 <= status <= 599 && status != 503)
                || contains_text(text, "server_error"@) || contains_text(text, "internal_error"@)
                || contains_text(text, "internal server error"@) || contains_text(
                text,
                "bad_gateway"@,
            ) || contains_text(text, "bad gateway"@) || contains_text(text, "gateway_timeout"@)
                || contains_text(text, "gateway timeout"@));
            let network = types.contains(LocalProxyRetryErrorType::Network) && (facts.network
                || facts.status == Some(408u16));
            let reason = policy.reason(facts);
            &&& own ==> reason == Some("custom_message"@)
            &&& !own && limited ==> reason == Some("rate_limit"@)
            &&& !own && !limited && overloaded ==> reason == Some("overloaded"@)
            &&& !own && !limited && !overloaded && broken ==> reason == Some("server_error"@)
            &&& !own && !limited && !overloaded && !broken && network ==> reason == Some("network"@)
            &&& !own && !limited && !overloaded && !broken && !network ==> reason is None
        }),
{
}

/// What is said by an answer with an error is what its error says, where it has one, itself or in its
/// response, and else what the whole of it does; an answer that is no document is taken as it is.
pub proof fn answers_say_what_their_error_says(
    value: JsonView,
    response: JsonView,
    error: JsonView,
    body: Seq<char>,
)
    ensures
        value.member("error"@) == Some(error) && !(error is Null) ==> document_texts(value).0
            == unicode_lowercase(joined(error_fields(error).messages, " "@)),
        (value.member("error"@) is None || value.member("error"@) == Some(JsonView::Null))
            && value.member("response"@) == Some(response) && response.member("error"@) == Some(error)
            && !(error is Null) ==> document_texts(value).0 == unicode_lowercase(
            joined(error_fields(error).messages, " "@),
        ),
        value.member("error"@) is None && value.member("response"@) is None ==> document_texts(value)
            == (
            unicode_lowercase(joined(error_fields(value).messages, " "@)),
            unicode_lowercase(joined(error_fields(value).classes, " "@)),
        ),
        parsed_text(body) is None ==> body_texts(body) == (
            unicode_lowercase(body),
            unicode_lowercase(body),
        ),
        parsed_text(body) == Some(value) ==> body_texts(body) == document_texts(value),
{
    let nothing = Seq::<Seq<char>>::empty();
    assert(error_fields(error).messages + nothing =~= error_fields(error).messages);
}

/// A number that stands for an error is its digits, with what it means where it is a status that
/// means something.
pub proof fn numbers_mean_what_statuses_do(code: u64)
    ensures
        ({
            let classes = error_fields(
                JsonView::Number(JsonNumberView::Unsigned(code)),
            ).classes;
            &&& classes.len() > 0 && classes[0] == decimal(code as nat)
            &&& code == 429 ==> classes.len() == 2 && classes[1] == "rate_limit"@
            &&& code == 503 ==> classes.len() == 2 && classes[1] == "overloaded"@
            &&& 500 <= code <= 599 && code != 503 ==> classes.len() == 2 && classes[1]
                == "server_error"@
            &&& code != 429 && (code < 500 || code > 599) ==> classes.len() == 1
        }),
{
}

/// A list says what its items say, one after another; a text says itself, and what is said under a
/// name that means nothing is not looked at.
pub proof fn lists_say_what_their_items_say(
    items: Seq<JsonView>,
    item: JsonView,
    members: Seq<(Seq<char>, JsonView)>,
    key: Seq<char>,
    text: Seq<char>,
)
    ensures
        ({
            let all = error_fields(JsonView::Array(items.push(item)));
            let before = error_fields(JsonView::Array(items));
            &&& all.messages == before.messages + error_fields(item).messages
            &&& all.classes == before.classes + error_fields(item).classes
        }),
        error_fields(JsonView::Str(text)).messages == seq![text],
        error_fields(JsonView::Str(text)).classes == seq![text],
        key != "message"@ && key != "detail"@ && key != "error_description"@ && key
            != "errorMessage"@ && key != "type"@ && key != "code"@ && key != "status"@ && key
            != "reason"@ && key != "error"@ && key != "errors"@ && key != "details"@ && key
            != "cause"@ && key != "causes"@ && key != "inner"@ && key != "inner_error"@ && key
            != "innerError"@ ==> error_fields(JsonView::Object(members.push((key, item))))
            == error_fields(JsonView::Object(members)),
{
    assert(items.push(item).drop_last() =~= items);
    assert(items.push(item).last() == item);
    assert(members.push((key, item)).drop_last() =~= members);
    assert(members.push((key, item)).last() == (key, item));
}

/// The message of an error that is none of an upstream is looked at in small letters, and says as much
/// about its kind.
pub proof fn other_errors_say_their_message(message: Seq<char>)
    ensures
        facts_of(ProxyErrorView::Timeout(message)).message == unicode_lowercase(message),
        facts_of(ProxyErrorView::ForwardFailed(message)).message == unicode_lowercase(message),
        facts_of(ProxyErrorView::TransformError(message)).message == unicode_lowercase(message),
        facts_of(ProxyErrorView::AuthError(message)).message == unicode_lowercase(
            "认证失败: "@ + message,
        ),
        facts_of(ProxyErrorView::Internal(message)).message == unicode_lowercase(
            "内部错误: "@ + message,
        ),
        facts_of(ProxyErrorView::ForwardFailed(message)).classification_text == unicode_lowercase(
            message,
        ),
        facts_of(ProxyErrorView::TransformError(message)).classification_text == unicode_lowercase(
            message,
        ),
{
}

/// How many retries there are is shown as their number, or as unlimited.
pub proof fn limits_are_shown(policy: &ResolvedRetryPolicy, max: usize, label: String)
    requires
        call_ensures(ResolvedRetryPolicy::max_retries, (policy,), max),
        call_ensures(ResolvedRetryPolicy::retry_limit_label, (policy,), label),
    ensures
        policy@.retry_limit is Unlimited ==> max == 0 && label@ == "unlimited"@,
        policy@.retry_limit matches RetryLimit::Finite(count) ==> max == count && label@ == decimal(
            count as nat,
        ),
{
}

} // verus!
