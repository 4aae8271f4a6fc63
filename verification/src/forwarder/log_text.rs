//! What is logged of failed attempts: short, and without the bodies of requests.

use vstd::prelude::*;
use vstd::string::*;
use vstd::utf8::*;
use crate::error::{ProxyError, ProxyErrorView};
use crate::json::{
    container_views, items_view, json_of, members_view, parse_value, parsed_text, render_value,
    rendered_json, Json, JsonView,
};
use crate::provider_retry::{number_text, number_to_text};
use crate::text::{
    comes_before, decimal, decimal_text, join, join_all, joined, lemma_text_less_total,
    lemma_text_less_transitive, opt_view, same_text, split_whitespace, text_less, texts_view, trim,
    trim_end, trimmed, trimmed_end, words,
};

verus! {

/// The code of a failure of the only provider.
pub const SINGLE_PROVIDER_FAILED: &'static str = "FWD-003";

/// The code of a failure after which another provider is tried.
pub const PROVIDER_FAILED_RETRY: &'static str = "FWD-001";

/// The code of the failure of all providers.
pub const ALL_PROVIDERS_FAILED: &'static str = "FWD-002";

/// A text on one line, cut off after a number of characters.
pub open spec fn log_summary(text: Seq<char>, max_chars: nat) -> Seq<char> {
    let line = trimmed(joined(words(text), " "@));
    if line.len() <= max_chars {
        line
    } else {
        trimmed_end(line.take(max_chars as int)) + "..."@
    }
}

/// A text on one line, cut off after a number of characters.
pub fn summarize_text_for_log(text: &str, max_chars: usize) -> (summary: String)
    ensures
        summary@ == log_summary(text@, max_chars as nat),
{
    let normalized = join_all(&split_whitespace(text), " ");
    let line = trim(normalized.as_str());
    if line.unicode_len() <= max_chars {
        return line.to_owned();
    }
    let cut = line.substring_char(0, max_chars);
    assert(cut@ =~= line@.take(max_chars as int));
    join(trim_end(cut), "...")
}

/// A summary is at most three characters longer than its limit.
pub proof fn summaries_are_short(text: Seq<char>, max_chars: nat)
    ensures
        log_summary(text, max_chars).len() <= max_chars + 3,
{
    reveal_strlit("...");
    let line = trimmed(joined(words(text), " "@));
    if line.len() > max_chars {
        lemma_trimmed_end_shorter(line.take(max_chars as int));
    }
}

proof fn lemma_trimmed_end_shorter(text: Seq<char>)
    ensures
        trimmed_end(text).len() <= text.len(),
    decreases text.len(),
{
    if text.len() > 0 && crate::text::is_whitespace(text.last()) {
        lemma_trimmed_end_shorter(text.drop_last());
    }
}

/// The message of an error document, wherever upstreams put it.
pub open spec fn document_message(body: JsonView) -> Option<Seq<char>> {
    let text_of = |value: Option<JsonView>|
        match value {
            Some(value) => value.text(),
            None => None,
        };
    match text_of(body.member2("error"@, "message"@)) {
        Some(message) => Some(message),
        None => match body.member_text("message"@) {
            Some(message) => Some(message),
            None => match body.member_text("detail"@) {
                Some(message) => Some(message),
                None => body.member_text("error"@),
            },
        },
    }
}

/// The message of an error document, wherever upstreams put it.
pub fn extract_json_error_message(body: &Json) -> (message: Option<String>)
    ensures
        opt_view(message) == document_message(body@),
{
    if let Some(value) = body.get2("error", "message") {
        if let Some(message) = value.as_str() {
            return Some(message.to_owned());
        }
    }
    if let Some(message) = body.get_str("message") {
        return Some(message.to_owned());
    }
    if let Some(message) = body.get_str("detail") {
        return Some(message.to_owned());
    }
    match body.get_str("error") {
        Some(message) => Some(message.to_owned()),
        None => None,
    }
}

/// What is logged of an error body: its message, else the document on one line, else its text.
pub open spec fn body_summary(body: Seq<char>) -> Seq<char> {
    match parsed_text(body) {
        Some(json) => document_summary(json, rendered_json(json)),
        None => log_summary(body, 180),
    }
}

/// What is logged of an error document.
pub open spec fn document_summary(json: JsonView, compact: Seq<char>) -> Seq<char> {
    match document_message(json) {
        Some(message) => log_summary(message, 180),
        None => log_summary(compact, 180),
    }
}

/// What is logged of an error document, which is written as `compact` on one line.
pub fn summarize_document(json: &Json, compact: &str) -> (summary: String)
    ensures
        summary@ == document_summary(json@, compact@),
{
    match extract_json_error_message(json) {
        Some(message) => summarize_text_for_log(message.as_str(), 180),
        None => summarize_text_for_log(compact, 180),
    }
}

/// What is logged of an error body.
pub fn summarize_upstream_body(body: &str) -> (summary: String)
    ensures
        summary@ == body_summary(body@),
{
    match parse_value(body.as_bytes()) {
        Some(value) => {
            let compact = render_value(&value);
            summarize_document(&json_of(value), compact.as_str())
        },
        None => summarize_text_for_log(body, 180),
    }
}

/// What is logged of an error.
pub open spec fn error_summary(error: ProxyErrorView) -> Seq<char> {
    match error {
        ProxyErrorView::UpstreamError { status, body } => {
            let head = "上游 HTTP "@ + decimal(status as nat);
            match body {
                Some(body) if body_summary(body).len() > 0 => head + ": "@ + body_summary(body),
                _ => head,
            }
        },
        ProxyErrorView::UpstreamBodyTimeout { status, timeout_seconds } => "上游 HTTP "@ + decimal(
            status as nat,
        ) + " 错误正文读取超时: "@ + decimal(timeout_seconds as nat) + "s"@,
        ProxyErrorView::Timeout(message) => "请求超时: "@ + log_summary(message, 180),
        ProxyErrorView::ForwardFailed(message) => "请求转发失败: "@ + log_summary(message, 180),
        ProxyErrorView::TransformError(message) => "响应转换失败: "@ + log_summary(message, 180),
        ProxyErrorView::ConfigError(message) => "配置错误: "@ + log_summary(message, 180),
        ProxyErrorView::AuthError(message) => "认证失败: "@ + log_summary(message, 180),
        other => log_summary(other.message(), 180),
    }
}

fn labelled(label: &str, message: &str) -> (text: String)
    ensures
        text@ == label@ + log_summary(message@, 180),
{
    join(label, summarize_text_for_log(message, 180).as_str())
}

/// What is logged of an error.
pub fn summarize_proxy_error(error: &ProxyError) -> (summary: String)
    ensures
        summary@ == error_summary(error@),
{
    match error {
        ProxyError::UpstreamError { status, body } => {
            let mut head = join("上游 HTTP ", decimal_text(*status as u64).as_str());
            if let Some(body) = body {
                let summary = summarize_upstream_body(body.as_str());
                if !summary.as_str().is_empty() {
                    head.append(": ");
                    head.append(summary.as_str());
                }
            }
            head
        },
        ProxyError::UpstreamBodyTimeout { status, timeout_seconds } => {
            let mut text = join("上游 HTTP ", decimal_text(*status as u64).as_str());
            text.append(" 错误正文读取超时: ");
            text.append(decimal_text(*timeout_seconds).as_str());
            text.append("s");
            text
        },
        ProxyError::Timeout(message) => labelled("请求超时: ", message.as_str()),
        ProxyError::ForwardFailed(message) => labelled("请求转发失败: ", message.as_str()),
        ProxyError::TransformError(message) => labelled("响应转换失败: ", message.as_str()),
        ProxyError::ConfigError(message) => labelled("配置错误: ", message.as_str()),
        ProxyError::AuthError(message) => labelled("认证失败: ", message.as_str()),
        _ => summarize_text_for_log(error.message().as_str(), 180),
    }
}

/// The code and the text that a failed attempt is logged with.
pub open spec fn retryable_log(
    provider_name: Seq<char>,
    attempted: nat,
    total: nat,
    error: ProxyErrorView,
) -> (Seq<char>, Seq<char>) {
    if total <= 1 {
        (
            SINGLE_PROVIDER_FAILED@,
            "Provider "@ + provider_name + " 请求失败: "@ + error_summary(error),
        )
    } else {
        (
            PROVIDER_FAILED_RETRY@,
            "Provider "@ + provider_name + " 失败，继续尝试下一个 ("@ + decimal(attempted) + "/"@
                + decimal(total) + "): "@ + error_summary(error),
        )
    }
}

/// The code and the text that a failed attempt is logged with.
pub fn build_retryable_failure_log(
    provider_name: &str,
    attempted_providers: usize,
    total_providers: usize,
    error: &ProxyError,
) -> (log: (&'static str, String))
    ensures
        (log.0@, log.1@) == retryable_log(
            provider_name@,
            attempted_providers as nat,
            total_providers as nat,
            error@,
        ),
{
    let summary = summarize_proxy_error(error);
    let mut text = join("Provider ", provider_name);
    if total_providers <= 1 {
        text.append(" 请求失败: ");
        text.append(summary.as_str());
        (SINGLE_PROVIDER_FAILED, text)
    } else {
        text.append(" 失败，继续尝试下一个 (");
        text.append(decimal_text(attempted_providers as u64).as_str());
        text.append("/");
        text.append(decimal_text(total_providers as u64).as_str());
        text.append("): ");
        text.append(summary.as_str());
        (PROVIDER_FAILED_RETRY, text)
    }
}

/// The code and the text that the failure of all providers is logged with, where there were more
/// than one.
pub open spec fn terminal_log(
    attempted: nat,
    total: nat,
    last_error: Option<ProxyErrorView>,
) -> Option<(Seq<char>, Seq<char>)> {
    if total <= 1 {
        None
    } else {
        Some(
            (
                ALL_PROVIDERS_FAILED@,
                "已尝试 "@ + decimal(attempted) + "/"@ + decimal(total)
                    + " 个 Provider，均失败。最后错误: "@ + (match last_error {
                    Some(error) => error_summary(error),
                    None => "未知错误"@,
                }),
            ),
        )
    }
}

/// The code and the text that the failure of all providers is logged with.
pub fn build_terminal_failure_log(
    attempted_providers: usize,
    total_providers: usize,
    last_error: Option<&ProxyError>,
) -> (log: Option<(&'static str, String)>)
    ensures
        match log {
            Some(log) => terminal_log(
                attempted_providers as nat,
                total_providers as nat,
                match last_error {
                    Some(error) => Some(error@),
                    None => None,
                },
            ) == Some((log.0@, log.1@)),
            None => terminal_log(
                attempted_providers as nat,
                total_providers as nat,
                match last_error {
                    Some(error) => Some(error@),
                    None => None,
                },
            ) is None,
        },
{
    if total_providers <= 1 {
        return None;
    }
    let summary = match last_error {
        Some(error) => summarize_proxy_error(error),
        None => "未知错误".to_owned(),
    };
    let mut text = join("已尝试 ", decimal_text(attempted_providers as u64).as_str());
    text.append("/");
    text.append(decimal_text(total_providers as u64).as_str());
    text.append(" 个 Provider，均失败。最后错误: ");
    text.append(summary.as_str());
    Some((ALL_PROVIDERS_FAILED, text))
}

/// How long the things that a document marks for caching are kept, in the order of the marks. A
/// mark that does not say is kept for the default time.
pub open spec fn cache_marks(value: JsonView) -> Seq<Seq<char>>
    decreases value,
{
    match value {
        JsonView::Array(items) => items_marks(items),
        JsonView::Object(members) => own_mark(value) + members_marks(members),
        _ => Seq::empty(),
    }
}

/// The mark that an object carries itself.
pub open spec fn own_mark(value: JsonView) -> Seq<Seq<char>> {
    match value.member("cache_control"@) {
        Some(mark) => match mark.member_text("ttl"@) {
            Some(ttl) => seq![ttl],
            None => seq!["default"@],
        },
        None => Seq::empty(),
    }
}

/// The marks in a list of documents.
pub open spec fn items_marks(items: Seq<JsonView>) -> Seq<Seq<char>>
    decreases items,
{
    if items.len() == 0 {
        Seq::empty()
    } else {
        items_marks(items.drop_last()) + cache_marks(items.last())
    }
}

/// The marks in the members of an object.
pub open spec fn members_marks(members: Seq<(Seq<char>, JsonView)>) -> Seq<Seq<char>>
    decreases members,
{
    if members.len() == 0 {
        Seq::empty()
    } else {
        members_marks(members.drop_last()) + cache_marks(members.last().1)
    }
}

#[verifier::loop_isolation(false)]
fn collect_marks(value: &Json, marks: &mut Vec<String>)
    ensures
        texts_view(final(marks)@) == texts_view(old(marks)@) + cache_marks(value@),
    decreases value,
{
    broadcast use container_views;

    let ghost base = texts_view(marks@);
    match value {
        Json::Array(items) => {
            let ghost views = items_view(items@);
            let mut i: usize = 0;
            assert(base =~= base + items_marks(views.take(0)));
            while i < items.len()
                invariant
                    i <= items@.len(),
                    views == items_view(items@),
                    texts_view(marks@) == base + items_marks(views.take(i as int)),
                decreases items@.len() - i,
            {
                assert(decreases_to!(*items => items@[i as int]));
                assert(views.take(i + 1).drop_last() =~= views.take(i as int));
                assert(views.take(i + 1).last() == items@[i as int]@);
                collect_marks(&items[i], marks);
                assert(texts_view(marks@) =~= base + items_marks(views.take(i + 1)));
                i = i + 1;
            }
            assert(views.take(i as int) =~= views);
        },
        Json::Object(members) => {
            if let Some(mark) = value.get("cache_control") {
                let ttl = match mark.get_str("ttl") {
                    Some(ttl) => ttl,
                    None => "default",
                };
                marks.push(ttl.to_owned());
                assert(texts_view(marks@) =~= base.push(ttl@));
            }
            assert(texts_view(marks@) =~= base + own_mark(value@));
            let ghost marked = texts_view(marks@);
            let ghost views = members_view(members@);
            let mut i: usize = 0;
            assert(marked =~= marked + members_marks(views.take(0)));
            while i < members.len()
                invariant
                    i <= members@.len(),
                    views == members_view(members@),
                    texts_view(marks@) == marked + members_marks(views.take(i as int)),
                decreases members@.len() - i,
            {
                assert(decreases_to!(*members => members@[i as int]));
                assert(views.take(i + 1).drop_last() =~= views.take(i as int));
                assert(views.take(i + 1).last().1 == members@[i as int].1@);
                collect_marks(&members[i].1, marks);
                assert(texts_view(marks@) =~= marked + members_marks(views.take(i + 1)));
                i = i + 1;
            }
            assert(views.take(i as int) =~= views);
            assert(marked + members_marks(views) =~= base + cache_marks(value@));
        },
        _ => {
            assert(base =~= base + Seq::<Seq<char>>::empty());
        },
    }
}

/// A list in order with a text put in, unless it is there already.
pub open spec fn put_in(list: Seq<Seq<char>>, text: Seq<char>) -> Seq<Seq<char>>
    decreases list.len(),
{
    if list.len() == 0 {
        seq![text]
    } else if list[0] == text {
        list
    } else if text_less(text, list[0]) {
        seq![text] + list
    } else {
        seq![list[0]] + put_in(list.skip(1), text)
    }
}

/// The texts of a list in order, each once.
pub open spec fn in_order_once(texts: Seq<Seq<char>>) -> Seq<Seq<char>>
    decreases texts.len(),
{
    if texts.len() == 0 {
        Seq::empty()
    } else {
        put_in(in_order_once(texts.drop_last()), texts.last())
    }
}

fn put_in_list(list: &mut Vec<String>, text: &str)
    ensures
        texts_view(final(list)@) == put_in(texts_view(old(list)@), text@),
{
    let ghost all = texts_view(list@);
    let mut i: usize = 0;
    assert(all.take(0) + put_in(all.skip(0), text@) =~= put_in(all, text@)) by {
        assert(all.skip(0) =~= all);
    }
    while i < list.len() && !same_text(list[i].as_str(), text) && !comes_before(
        text,
        list[i].as_str(),
    )
        invariant
            i <= list@.len(),
            all == texts_view(list@),
            put_in(all, text@) == all.take(i as int) + put_in(all.skip(i as int), text@),
        decreases list@.len() - i,
    {
        let ghost rest = all.skip(i as int);
        assert(rest[0] == list@[i as int]@);
        assert(rest.skip(1) =~= all.skip(i + 1));
        assert(all.take(i as int) + (seq![rest[0]] + put_in(all.skip(i + 1), text@)) =~= all.take(
            i + 1,
        ) + put_in(all.skip(i + 1), text@));
        i = i + 1;
    }
    let ghost rest = all.skip(i as int);
    if i < list.len() {
        assert(rest[0] == list@[i as int]@);
        if same_text(list[i].as_str(), text) {
            assert(all.take(i as int) + rest =~= all);
            return;
        }
    }
    list.insert(i, text.to_owned());
    assert(texts_view(list@) =~= all.insert(i as int, text@));
    assert(all.insert(i as int, text@) =~= all.take(i as int) + (seq![text@] + rest));
    assert(rest.len() == 0 ==> seq![text@] + rest =~= seq![text@]);
}

/// What is logged of the marks for caching: how many there are, and for how long.
pub open spec fn marks_summary(value: JsonView) -> Seq<char> {
    let marks = cache_marks(value);
    "count="@ + decimal(marks.len()) + ",ttls="@ + if marks.len() == 0 {
        "none"@
    } else {
        joined(in_order_once(marks), "|"@)
    }
}

/// What is logged of the marks for caching: how many there are, and for how long.
pub fn cache_control_summary(value: &Json) -> (summary: String)
    ensures
        summary@ == marks_summary(value@),
{
    let mut marks: Vec<String> = Vec::new();
    assert(texts_view(marks@) =~= Seq::<Seq<char>>::empty());
    collect_marks(value, &mut marks);
    let ghost all = cache_marks(value@);
    assert(texts_view(marks@) =~= all);
    let mut list: Vec<String> = Vec::new();
    assert(texts_view(list@) =~= Seq::<Seq<char>>::empty());
    let mut i: usize = 0;
    while i < marks.len()
        invariant
            i <= marks@.len(),
            all == texts_view(marks@),
            texts_view(list@) == in_order_once(all.take(i as int)),
        decreases marks@.len() - i,
    {
        assert(all.take(i + 1).drop_last() =~= all.take(i as int));
        assert(all.take(i + 1).last() == marks@[i as int]@);
        put_in_list(&mut list, marks[i].as_str());
        i = i + 1;
    }
    assert(all.take(i as int) =~= all);
    let mut summary = join("count=", decimal_text(marks.len() as u64).as_str());
    summary.append(",ttls=");
    if marks.len() == 0 {
        summary.append("none");
    } else {
        summary.append(join_all(&list, "|").as_str());
    }
    summary
}

/// The times that are logged stand in order, each once, and are those of the marks.
pub proof fn logged_times_are_in_order(texts: Seq<Seq<char>>)
    ensures
        forall|i: int, j: int|
            0 <= i < j < in_order_once(texts).len() ==> text_less(
                #[trigger] in_order_once(texts)[i],
                #[trigger] in_order_once(texts)[j],
            ),
        forall|text: Seq<char>| #[trigger]
            in_order_once(texts).contains(text) <==> texts.contains(text),
    decreases texts.len(),
{
    if texts.len() > 0 {
        let before = texts.drop_last();
        let last = texts.last();
        logged_times_are_in_order(before);
        put_in_keeps_order(in_order_once(before), last);
        assert forall|text: Seq<char>| #[trigger]
            in_order_once(texts).contains(text) <==> texts.contains(text) by {
            assert(before.push(last) =~= texts);
            if before.contains(text) {
                let i = choose|i: int| 0 <= i < before.len() && before[i] == text;
                assert(texts[i] == text);
            }
            assert(texts[texts.len() - 1] == last);
            if texts.contains(text) && text != last {
                let i = choose|i: int| 0 <= i < texts.len() && texts[i] == text;
                assert(before[i] == text);
            }
        }
    }
}

proof fn put_in_keeps_order(list: Seq<Seq<char>>, text: Seq<char>)
    requires
        forall|i: int, j: int|
            0 <= i < j < list.len() ==> text_less(#[trigger] list[i], #[trigger] list[j]),
    ensures
        forall|i: int, j: int|
            0 <= i < j < put_in(list, text).len() ==> text_less(
                #[trigger] put_in(list, text)[i],
                #[trigger] put_in(list, text)[j],
            ),
        forall|other: Seq<char>| #[trigger]
            put_in(list, text).contains(other) <==> list.contains(other) || other == text,
    decreases list.len(),
{
    let after = put_in(list, text);
    if list.len() == 0 {
        assert(after[0] == text);
    } else if list[0] == text {
        assert(list.contains(text));
    } else if text_less(text, list[0]) {
        assert forall|i: int, j: int| 0 <= i < j < after.len() implies text_less(
            #[trigger] after[i],
            #[trigger] after[j],
        ) by {
            if i == 0 && j > 1 {
                lemma_text_less_transitive(text, list[0], list[j - 1]);
            }
        }
        assert forall|other: Seq<char>| #[trigger] after.contains(other) <==> list.contains(other)
            || other == text by {
            assert(after[0] == text);
            if list.contains(other) {
                let i = choose|i: int| 0 <= i < list.len() && list[i] == other;
                assert(after[i + 1] == other);
            }
            if after.contains(other) && other != text {
                let i = choose|i: int| 0 <= i < after.len() && after[i] == other;
                assert(list[i - 1] == other);
            }
        }
    } else {
        let rest = list.skip(1);
        lemma_text_less_total(text, list[0]);
        assert forall|i: int, j: int| 0 <= i < j < rest.len() implies text_less(
            #[trigger] rest[i],
            #[trigger] rest[j],
        ) by {
            assert(text_less(list[i + 1], list[j + 1]));
        }
        put_in_keeps_order(rest, text);
        let tail = put_in(rest, text);
        assert forall|i: int, j: int| 0 <= i < j < after.len() implies text_less(
            #[trigger] after[i],
            #[trigger] after[j],
        ) by {
            assert(after[j] == tail[j - 1]);
            if i == 0 {
                assert(tail.contains(tail[j - 1]));
                if tail[j - 1] != text {
                    assert(rest.contains(tail[j - 1]));
                    let k = choose|k: int| 0 <= k < rest.len() && rest[k] == tail[j - 1];
                    assert(text_less(list[0], list[k + 1]));
                }
            } else {
                assert(after[i] == tail[i - 1]);
            }
        }
        assert forall|other: Seq<char>| #[trigger] after.contains(other) <==> list.contains(other)
            || other == text by {
            assert(tail.contains(other) <==> rest.contains(other) || other == text);
            assert(after[0] == list[0]);
            if tail.contains(other) {
                let i = choose|i: int| 0 <= i < tail.len() && tail[i] == other;
                assert(after[i + 1] == other);
            }
            if after.contains(other) {
                let i = choose|i: int| 0 <= i < after.len() && after[i] == other;
                if i > 0 {
                    assert(tail[i - 1] == other);
                } else {
                    assert(list[0] == other);
                }
            }
            if rest.contains(other) {
                let i = choose|i: int| 0 <= i < rest.len() && rest[i] == other;
                assert(list[i + 1] == other);
            }
            if list.contains(other) && other != list[0] {
                let i = choose|i: int| 0 <= i < list.len() && list[i] == other;
                assert(rest[i - 1] == other);
            }
        }
    }
}

/// A value as it is logged: containers by their size only.
pub open spec fn logged_value(value: JsonView) -> Seq<char> {
    match value {
        JsonView::Null => "null"@,
        JsonView::Bool(value) => if value {
            "true"@
        } else {
            "false"@
        },
        JsonView::Number(number) => number_text(number),
        JsonView::Str(text) => text,
        JsonView::Array(items) => "array(len="@ + decimal(items.len()) + ")"@,
        JsonView::Object(members) => "object(len="@ + decimal(members.len()) + ")"@,
    }
}

/// A value as it is logged.
pub fn value_for_log(value: &Json) -> (text: String)
    ensures
        text@ == logged_value(value@),
{
    broadcast use container_views;

    match value {
        Json::Null => "null".to_owned(),
        Json::Bool(value) => if *value {
            "true".to_owned()
        } else {
            "false".to_owned()
        },
        Json::Number(number) => number_to_text(number),
        Json::Str(text) => text.clone(),
        Json::Array(items) => join(
            join("array(len=", decimal_text(items.len() as u64).as_str()).as_str(),
            ")",
        ),
        Json::Object(members) => join(
            join("object(len=", decimal_text(members.len() as u64).as_str()).as_str(),
            ")",
        ),
    }
}

/// What is logged of a prompt cache key: that it is there and how long, never the key.
pub fn cache_key_for_log(body: &Json) -> (text: String)
    ensures
        text@ == match body@.member_text("prompt_cache_key"@) {
            Some(key) => "present(len="@ + decimal(encode_utf8(key).len()) + ")"@,
            None => "absent"@,
        },
{
    match body.get_str("prompt_cache_key") {
        Some(key) => join(
            join("present(len=", decimal_text(key.as_bytes().len() as u64).as_str()).as_str(),
            ")",
        ),
        None => "absent".to_owned(),
    }
}

/// The message of an error document is looked for where upstreams put it, in this order: in its
/// error, beside it, in its detail, and as the error itself.
pub proof fn messages_are_looked_for_in_order(body: JsonView, error: JsonView, message: Seq<char>)
    ensures
        body.member("error"@) == Some(error) && error.member_text("message"@) == Some(message)
            ==> document_message(body) == Some(message),
        body.member("error"@) is None && body.member_text("message"@) == Some(message)
            ==> document_message(body) == Some(message),
        body.member("error"@) is None && body.member_text("message"@) is None && body.member_text(
            "detail"@,
        ) == Some(message) ==> document_message(body) == Some(message),
        body.member("error"@) == Some(JsonView::Str(message)) && body.member_text("message"@) is None
            && body.member_text("detail"@) is None ==> document_message(body) == Some(message),
        body.member("error"@) is None && body.member_text("message"@) is None && body.member_text(
            "detail"@,
        ) is None ==> document_message(body) is None,
{
}

/// A failed attempt is logged with its provider, and where there are more with how many were tried;
/// the end of a request that tried several says so, and that of one that tried one says nothing
/// more.
pub proof fn attempts_are_logged(
    name: Seq<char>,
    attempted: nat,
    total: nat,
    error: ProxyErrorView,
)
    ensures
        total <= 1 ==> retryable_log(name, attempted, total, error) == (
            "FWD-003"@,
            "Provider "@ + name + " 请求失败: "@ + error_summary(error),
        ),
        total > 1 ==> retryable_log(name, attempted, total, error) == (
            "FWD-001"@,
            "Provider "@ + name + " 失败，继续尝试下一个 ("@ + decimal(attempted) + "/"@
                + decimal(total) + "): "@ + error_summary(error),
        ),
        total <= 1 ==> terminal_log(attempted, total, Some(error)) is None,
        total > 1 ==> terminal_log(attempted, total, Some(error)) == Some(
            (
                "FWD-002"@,
                "已尝试 "@ + decimal(attempted) + "/"@ + decimal(total)
                    + " 个 Provider，均失败。最后错误: "@ + error_summary(error),
            ),
        ),
        total > 1 ==> (terminal_log(attempted, total, None) matches Some((code, text)) && code
            == "FWD-002"@ && text == "已尝试 "@ + decimal(attempted) + "/"@ + decimal(total)
            + " 个 Provider，均失败。最后错误: "@ + "未知错误"@),
{
}

/// What is logged of an error says what kind it is, and as much of its message as 180 characters
/// hold.
pub proof fn errors_are_logged_by_their_kind(status: u16, body: Seq<char>, message: Seq<char>)
    ensures
        error_summary(ProxyErrorView::UpstreamError { status, body: None }) == "上游 HTTP "@
            + decimal(status as nat),
        body_summary(body).len() == 0 ==> error_summary(
            ProxyErrorView::UpstreamError { status, body: Some(body) },
        ) == "上游 HTTP "@ + decimal(status as nat),
        body_summary(body).len() > 0 ==> error_summary(
            ProxyErrorView::UpstreamError { status, body: Some(body) },
        ) == "上游 HTTP "@ + decimal(status as nat) + ": "@ + body_summary(body),
        error_summary(ProxyErrorView::Timeout(message)) == "请求超时: "@ + log_summary(message, 180),
        error_summary(ProxyErrorView::ForwardFailed(message)) == "请求转发失败: "@ + log_summary(
            message,
            180,
        ),
        error_summary(ProxyErrorView::TransformError(message)) == "响应转换失败: "@ + log_summary(
            message,
            180,
        ),
        error_summary(ProxyErrorView::ConfigError(message)) == "配置错误: "@ + log_summary(
            message,
            180,
        ),
        error_summary(ProxyErrorView::AuthError(message)) == "认证失败: "@ + log_summary(message, 180),
{
}

proof fn lemma_one_word(text: Seq<char>)
    requires
        text.len() > 0,
        forall|i: int| 0 <= i < text.len() ==> !crate::text::is_whitespace(#[trigger] text[i]),
    ensures
        crate::text::word_length(text) == text.len(),
    decreases text.len(),
{
    let rest = text.skip(1);
    if rest.len() > 0 {
        assert forall|i: int| 0 <= i < rest.len() implies !crate::text::is_whitespace(
            #[trigger] rest[i],
        ) by {
            assert(rest[i] == text[i + 1]);
        }
        lemma_one_word(rest);
    } else {
        assert(crate::text::word_length(rest) == 0);
    }
    assert(!crate::text::is_whitespace(text[0]));
}

/// A word is logged as it is where it is not too long, whatever white space is around it, and else
/// is cut off with three dots behind it.
pub proof fn words_are_logged(before: Seq<char>, word: Seq<char>, most: nat)
    requires
        word.len() > 0,
        forall|i: int| 0 <= i < word.len() ==> !crate::text::is_whitespace(#[trigger] word[i]),
        forall|i: int| 0 <= i < before.len() ==> crate::text::is_whitespace(#[trigger] before[i]),
    ensures
        word.len() <= most ==> log_summary(before + word, most) == word,
        0 < most < word.len() ==> log_summary(before + word, most) == word.take(most as int) + "..."@,
    decreases before.len(),
{
    let text = before + word;
    if before.len() > 0 {
        let rest = before.skip(1);
        assert forall|i: int| 0 <= i < rest.len() implies crate::text::is_whitespace(
            #[trigger] rest[i],
        ) by {
            assert(rest[i] == before[i + 1]);
        }
        words_are_logged(rest, word, most);
        assert(text[0] == before[0]);
        assert(text.skip(1) =~= rest + word);
        assert(words(text) == words(rest + word));
    } else {
        assert(text =~= word);
        lemma_one_word(word);
        assert(!crate::text::is_whitespace(word[0]));
        assert(word.take(word.len() as int) =~= word);
        assert(word.skip(word.len() as int) =~= Seq::<char>::empty());
        assert(words(word.skip(word.len() as int)) =~= Seq::<Seq<char>>::empty());
        assert(words(word) =~= seq![word]);
        crate::text::trimming_takes_white_space_only(Seq::empty(), word, Seq::empty());
        assert(Seq::<char>::empty() + word + Seq::<char>::empty() =~= word);
        if 0 < most < word.len() {
            assert(word.take(most as int).last() == word[most - 1]);
        }
    }
}

/// The marks for caching of a document are those of its parts: a list has those of its items, an
/// object its own before those of its members, and nothing else has any.
pub proof fn marks_are_those_of_the_parts(
    items: Seq<JsonView>,
    item: JsonView,
    text: Seq<char>,
    flag: bool,
)
    ensures
        cache_marks(JsonView::Array(items.push(item))) == cache_marks(JsonView::Array(items))
            + cache_marks(item),
        cache_marks(JsonView::Array(Seq::empty())).len() == 0,
        cache_marks(JsonView::Str(text)).len() == 0,
        cache_marks(JsonView::Bool(flag)).len() == 0,
        cache_marks(JsonView::Null).len() == 0,
{
    assert(items.push(item).drop_last() =~= items);
    assert(items.push(item).last() == item);
}

/// A mark is named by how long it lasts, or as the default where it does not say.
pub proof fn marks_are_named_by_their_time(value: JsonView, mark: JsonView, ttl: Seq<char>)
    ensures
        value.member("cache_control"@) is None ==> own_mark(value).len() == 0,
        value.member("cache_control"@) == Some(mark) && mark.member_text("ttl"@) == Some(ttl)
            ==> own_mark(value) == seq![ttl],
        value.member("cache_control"@) == Some(mark) && mark.member_text("ttl"@) is None
            ==> own_mark(value) == seq!["default"@],
        cache_marks(value).len() == 0 ==> marks_summary(value) == "count="@ + decimal(0) + ",ttls="@
            + "none"@,
        cache_marks(value).len() > 0 ==> marks_summary(value) == "count="@ + decimal(
            cache_marks(value).len(),
        ) + ",ttls="@ + joined(in_order_once(cache_marks(value)), "|"@),
{
}

} // verus!
