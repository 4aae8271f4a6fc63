//! Whether an event of a stream carries output: text, a tool call, or an end.

use vstd::prelude::*;
use vstd::string::*;
use crate::json::{
    container_views, find_member, items_view, member_index, member_index_is_first, members_view,
    Json, JsonView,
};
use crate::text::{same_text, trim, trimmed};

verus! {

/// Whether a value in a tool call says anything: a number, a text that is not blank, or anything
/// that holds one.
pub open spec fn meaningful(value: JsonView) -> bool
    decreases value,
{
    match value {
        JsonView::Null | JsonView::Bool(_) => false,
        JsonView::Number(_) => true,
        JsonView::Str(text) => trimmed(text).len() > 0,
        JsonView::Array(items) => exists|i: int|
            0 <= i < items.len() && meaningful(#[trigger] items[i]),
        JsonView::Object(members) => exists|i: int|
            0 <= i < members.len() && meaningful((#[trigger] members[i]).1),
    }
}

/// An array says something where one of its items does.
proof fn meaning_of_an_item(value: JsonView, i: int)
    requires
        value is Array,
        0 <= i < value->Array_0.len(),
        meaningful(value->Array_0[i]),
    ensures
        meaningful(value),
{
    reveal_with_fuel(meaningful, 2);
}

/// An object says something where one of its members does.
proof fn meaning_of_a_member(value: JsonView, i: int)
    requires
        value is Object,
        0 <= i < value->Object_0.len(),
        meaningful(value->Object_0[i].1),
    ensures
        meaningful(value),
{
    reveal_with_fuel(meaningful, 2);
}

/// Whether a value in a tool call says anything.
#[verifier::loop_isolation(false)]
pub fn meaningful_tool_payload(value: &Json) -> (is: bool)
    ensures
        is == meaningful(value@),
    decreases value,
{
    broadcast use container_views;

    match value {
        Json::Null | Json::Bool(_) => false,
        Json::Number(_) => true,
        Json::Str(text) => !trim(text.as_str()).is_empty(),
        Json::Array(items) => {
            let mut i: usize = 0;
            while i < items.len()
                invariant
                    i <= items@.len(),
                    forall|k: int| 0 <= k < i ==> !meaningful(#[trigger] items_view(items@)[k]),
                decreases items@.len() - i,
            {
                assert(decreases_to!(*items => items@[i as int]));
                assert(items_view(items@)[i as int] == items@[i as int]@);
                if meaningful_tool_payload(&items[i]) {
                    assert(value@ == JsonView::Array(items_view(items@)));
                    proof {
                        meaning_of_an_item(value@, i as int);
                    }
                    return true;
                }
                i = i + 1;
            }
            false
        },
        Json::Object(members) => {
            let mut i: usize = 0;
            while i < members.len()
                invariant
                    i <= members@.len(),
                    forall|k: int|
                        0 <= k < i ==> !meaningful((#[trigger] members_view(members@)[k]).1),
                decreases members@.len() - i,
            {
                assert(decreases_to!(*members => members@[i as int]));
                assert(members_view(members@)[i as int].1 == members@[i as int].1@);
                if meaningful_tool_payload(&members[i].1) {
                    assert(value@ == JsonView::Object(members_view(members@)));
                    proof {
                        meaning_of_a_member(value@, i as int);
                    }
                    return true;
                }
                i = i + 1;
            }
            false
        },
    }
}

/// Whether a member says anything.
pub open spec fn has_meaning(value: JsonView, key: Seq<char>) -> bool {
    value.member(key) matches Some(member) && meaningful(member)
}

fn member_has_meaning(value: &Json, key: &str) -> (is: bool)
    ensures
        is == has_meaning(value@, key@),
{
    match value.get(key) {
        Some(member) => meaningful_tool_payload(member),
        None => false,
    }
}

/// Whether a member is a text that is not empty.
pub open spec fn has_text(value: JsonView, key: Seq<char>) -> bool {
    value.member_text(key) matches Some(text) && text.len() > 0
}

pub(crate) fn member_has_text(value: &Json, key: &str) -> (is: bool)
    ensures
        is == has_text(value@, key@),
{
    match value.get_str(key) {
        Some(text) => !text.is_empty(),
        None => false,
    }
}

/// Whether an item of the Responses protocol is a tool call that says anything.
pub open spec fn tool_item(value: JsonView) -> bool {
    match value.member_text("type"@) {
        None => false,
        Some(kind) => if kind == "function_call"@ || kind == "custom_tool_call"@ {
            has_meaning(value, "id"@) || has_meaning(value, "call_id"@) || has_meaning(
                value,
                "name"@,
            ) || has_meaning(value, "arguments"@) || has_meaning(value, "delta"@) || has_meaning(
                value,
                "input"@,
            ) || has_meaning(value, "partial_json"@)
        } else if kind == "tool_search_call"@ {
            has_meaning(value, "id"@) || has_meaning(value, "call_id"@) || has_meaning(
                value,
                "query"@,
            ) || has_meaning(value, "queries"@) || has_meaning(value, "arguments"@) || has_meaning(
                value,
                "args"@,
            ) || has_meaning(value, "status"@) || has_meaning(value, "input"@)
        } else if kind == "computer_call"@ || kind == "web_search_call"@ || kind
            == "file_search_call"@ || kind == "code_interpreter_call"@ || kind
            == "image_generation_call"@ || kind == "local_shell_call"@ || kind == "mcp_call"@ {
            has_meaning(value, "id"@) || has_meaning(value, "call_id"@) || has_meaning(
                value,
                "name"@,
            ) || has_meaning(value, "arguments"@) || has_meaning(value, "args"@) || has_meaning(
                value,
                "input"@,
            ) || has_meaning(value, "action"@) || has_meaning(value, "command"@) || has_meaning(
                value,
                "code"@,
            ) || has_meaning(value, "query"@) || has_meaning(value, "status"@) || has_meaning(
                value,
                "delta"@,
            )
        } else {
            false
        },
    }
}

/// Whether an item of the Responses protocol is a tool call that says anything.
pub fn responses_tool_object_has_productive_output(value: &Json) -> (is: bool)
    ensures
        is == tool_item(value@),
{
    let kind = match value.get_str("type") {
        Some(kind) => kind,
        None => {
            return false;
        },
    };
    if same_text(kind, "function_call") || same_text(kind, "custom_tool_call") {
        member_has_meaning(value, "id") || member_has_meaning(value, "call_id")
            || member_has_meaning(value, "name") || member_has_meaning(value, "arguments")
            || member_has_meaning(value, "delta") || member_has_meaning(value, "input")
            || member_has_meaning(value, "partial_json")
    } else if same_text(kind, "tool_search_call") {
        member_has_meaning(value, "id") || member_has_meaning(value, "call_id")
            || member_has_meaning(value, "query") || member_has_meaning(value, "queries")
            || member_has_meaning(value, "arguments") || member_has_meaning(value, "args")
            || member_has_meaning(value, "status") || member_has_meaning(value, "input")
    } else if same_text(kind, "computer_call") || same_text(kind, "web_search_call") || same_text(
        kind,
        "file_search_call",
    ) || same_text(kind, "code_interpreter_call") || same_text(kind, "image_generation_call")
        || same_text(kind, "local_shell_call") || same_text(kind, "mcp_call") {
        member_has_meaning(value, "id") || member_has_meaning(value, "call_id")
            || member_has_meaning(value, "name") || member_has_meaning(value, "arguments")
            || member_has_meaning(value, "args") || member_has_meaning(value, "input")
            || member_has_meaning(value, "action") || member_has_meaning(value, "command")
            || member_has_meaning(value, "code") || member_has_meaning(value, "query")
            || member_has_meaning(value, "status") || member_has_meaning(value, "delta")
    } else {
        false
    }
}

/// Whether an object holds output under one of the names that texts have.
pub open spec fn output_text(value: JsonView) -> bool {
    has_text(value, "text"@) || has_text(value, "delta"@) || has_text(value, "refusal"@)
        || has_text(value, "thinking"@) || has_text(value, "summary_text"@) || has_text(
        value,
        "arguments"@,
    ) || has_text(value, "partial_json"@) || has_text(value, "code"@) || has_text(
        value,
        "encrypted_content"@,
    )
}

fn has_output_text(value: &Json) -> (is: bool)
    ensures
        is == output_text(value@),
{
    member_has_text(value, "text") || member_has_text(value, "delta") || member_has_text(
        value,
        "refusal",
    ) || member_has_text(value, "thinking") || member_has_text(value, "summary_text")
        || member_has_text(value, "arguments") || member_has_text(value, "partial_json")
        || member_has_text(value, "code") || member_has_text(value, "encrypted_content")
}

/// Whether an event of the Responses protocol carries output, in itself or in what it wraps.
pub open spec fn responses_output(value: JsonView) -> bool
    decreases value,
{
    match value {
        JsonView::Array(items) => exists|i: int|
            0 <= i < items.len() && responses_output(#[trigger] items[i]),
        JsonView::Object(members) => {
            let item = member_index(members, "item"@);
            let part = member_index(members, "part"@);
            let content = member_index(members, "content"@);
            let summary = member_index(members, "summary"@);
            ||| tool_item(value)
            ||| output_text(value)
            ||| (0 <= item < members.len() && responses_output(members[item].1))
            ||| (0 <= part < members.len() && responses_output(members[part].1))
            ||| (0 <= content < members.len() && responses_output(members[content].1))
            ||| (0 <= summary < members.len() && responses_output(members[summary].1))
        },
        _ => false,
    }
}

/// An array carries output where one of its items does.
proof fn output_of_an_item(value: JsonView, i: int)
    requires
        value is Array,
        0 <= i < value->Array_0.len(),
        responses_output(value->Array_0[i]),
    ensures
        responses_output(value),
{
    reveal_with_fuel(responses_output, 2);
}

/// Whether an event of the Responses protocol carries output, in itself or in what it wraps.
#[verifier::loop_isolation(false)]
pub fn responses_event_has_productive_output(value: &Json) -> (is: bool)
    ensures
        is == responses_output(value@),
    decreases value,
{
    broadcast use container_views;

    match value {
        Json::Array(items) => {
            let mut i: usize = 0;
            while i < items.len()
                invariant
                    i <= items@.len(),
                    forall|k: int|
                        0 <= k < i ==> !responses_output(#[trigger] items_view(items@)[k]),
                decreases items@.len() - i,
            {
                assert(decreases_to!(*items => items@[i as int]));
                assert(items_view(items@)[i as int] == items@[i as int]@);
                if responses_event_has_productive_output(&items[i]) {
                    assert(value@ == JsonView::Array(items_view(items@)));
                    proof {
                        output_of_an_item(value@, i as int);
                    }
                    return true;
                }
                i = i + 1;
            }
            false
        },
        Json::Object(members) => {
            if responses_tool_object_has_productive_output(value) || has_output_text(value) {
                return true;
            }
            let item = find_member(members, "item");
            if item < members.len() {
                assert(decreases_to!(*members => members@[item as int]));
                if responses_event_has_productive_output(&members[item].1) {
                    return true;
                }
            }
            let part = find_member(members, "part");
            if part < members.len() {
                assert(decreases_to!(*members => members@[part as int]));
                if responses_event_has_productive_output(&members[part].1) {
                    return true;
                }
            }
            let content = find_member(members, "content");
            if content < members.len() {
                assert(decreases_to!(*members => members@[content as int]));
                if responses_event_has_productive_output(&members[content].1) {
                    return true;
                }
            }
            let summary = find_member(members, "summary");
            if summary < members.len() {
                assert(decreases_to!(*members => members@[summary as int]));
                if responses_event_has_productive_output(&members[summary].1) {
                    return true;
                }
            }
            false
        },
        _ => false,
    }
}

/// Whether a content block of the Anthropic protocol is a tool block that says anything.
pub open spec fn anthropic_block_output(value: JsonView) -> bool {
    match value.member_text("type"@) {
        None => false,
        Some(kind) => if kind == "tool_use"@ || kind == "server_tool_use"@ {
            has_meaning(value, "id"@) || has_meaning(value, "tool_use_id"@) || has_meaning(
                value,
                "name"@,
            ) || has_meaning(value, "input"@) || has_meaning(value, "arguments"@)
        } else if kind == "web_search_tool_result"@ {
            has_meaning(value, "tool_use_id"@) || has_meaning(value, "content"@) || has_meaning(
                value,
                "result"@,
            ) || has_meaning(value, "error_code"@)
        } else {
            false
        },
    }
}

/// Whether a content block of the Anthropic protocol is a tool block that says anything.
pub fn anthropic_content_block_has_productive_output(value: &Json) -> (is: bool)
    ensures
        is == anthropic_block_output(value@),
{
    let kind = match value.get_str("type") {
        Some(kind) => kind,
        None => {
            return false;
        },
    };
    if same_text(kind, "tool_use") || same_text(kind, "server_tool_use") {
        member_has_meaning(value, "id") || member_has_meaning(value, "tool_use_id")
            || member_has_meaning(value, "name") || member_has_meaning(value, "input")
            || member_has_meaning(value, "arguments")
    } else if same_text(kind, "web_search_tool_result") {
        member_has_meaning(value, "tool_use_id") || member_has_meaning(value, "content")
            || member_has_meaning(value, "result") || member_has_meaning(value, "error_code")
    } else {
        false
    }
}

/// Whether a marker says that the output is at its end.
pub open spec fn end_marker(value: JsonView) -> bool {
    match value {
        JsonView::Str(text) => trimmed(text).len() > 0,
        JsonView::Number(_) => true,
        _ => false,
    }
}

/// Whether a marker says that the output is at its end.
pub fn terminal_marker_is_productive(value: &Json) -> (is: bool)
    ensures
        is == end_marker(value@),
{
    match value {
        Json::Str(text) => !trim(text.as_str()).is_empty(),
        Json::Number(_) => true,
        _ => false,
    }
}

/// Whether a function call of the chat protocol says anything.
pub open spec fn function_call_output(value: JsonView) -> bool {
    has_meaning(value, "id"@) || has_meaning(value, "call_id"@) || has_meaning(value, "name"@)
        || has_meaning(value, "arguments"@) || has_meaning(value, "args"@) || has_meaning(
        value,
        "delta"@,
    ) || has_meaning(value, "input"@)
}

/// Whether a function call of the chat protocol says anything.
pub fn openai_function_call_has_productive_output(value: &Json) -> (is: bool)
    ensures
        is == function_call_output(value@),
{
    member_has_meaning(value, "id") || member_has_meaning(value, "call_id") || member_has_meaning(
        value,
        "name",
    ) || member_has_meaning(value, "arguments") || member_has_meaning(value, "args")
        || member_has_meaning(value, "delta") || member_has_meaning(value, "input")
}

/// Whether a member is a function call that says anything.
pub open spec fn member_function_call(value: JsonView, key: Seq<char>) -> bool {
    value.member(key) matches Some(call) && function_call_output(call)
}

fn member_is_function_call(value: &Json, key: &str) -> (is: bool)
    ensures
        is == member_function_call(value@, key@),
{
    match value.get(key) {
        Some(call) => openai_function_call_has_productive_output(call),
        None => false,
    }
}

/// Whether a tool call of the chat protocol says anything.
pub open spec fn tool_call_output(value: JsonView) -> bool {
    has_meaning(value, "id"@) || has_meaning(value, "call_id"@) || has_meaning(value, "name"@)
        || has_meaning(value, "arguments"@) || member_function_call(value, "function"@)
        || member_function_call(value, "custom"@)
}

/// Whether a tool call of the chat protocol says anything.
pub fn openai_tool_call_has_productive_output(value: &Json) -> (is: bool)
    ensures
        is == tool_call_output(value@),
{
    member_has_meaning(value, "id") || member_has_meaning(value, "call_id") || member_has_meaning(
        value,
        "name",
    ) || member_has_meaning(value, "arguments") || member_is_function_call(value, "function")
        || member_is_function_call(value, "custom")
}

/// Whether any of the tool calls of a message says anything.
pub open spec fn tool_calls_output(value: JsonView) -> bool {
    match value.member_array("tool_calls"@) {
        Some(calls) => some_tool_call(calls),
        None => false,
    }
}

/// Whether any of these tool calls says anything.
pub open spec fn some_tool_call(calls: Seq<JsonView>) -> bool {
    exists|i: int| 0 <= i < calls.len() && tool_call_output(#[trigger] calls[i])
}

fn has_tool_calls(value: &Json) -> (is: bool)
    ensures
        is == tool_calls_output(value@),
{
    match value.get_array("tool_calls") {
        Some(calls) => {
            let mut i: usize = 0;
            while i < calls.len()
                invariant
                    i <= calls@.len(),
                    value@.member_array("tool_calls"@) == Some(items_view(calls@)),
                    forall|k: int|
                        0 <= k < i ==> !tool_call_output(#[trigger] items_view(calls@)[k]),
                decreases calls@.len() - i,
            {
                assert(items_view(calls@)[i as int] == calls@[i as int]@);
                if openai_tool_call_has_productive_output(&calls[i]) {
                    assert(some_tool_call(items_view(calls@)));
                    return true;
                }
                i = i + 1;
            }
            false
        },
        None => false,
    }
}

/// Whether a member is a piece of media.
pub open spec fn member_media(value: JsonView, key: Seq<char>) -> bool {
    value.member(key) matches Some(media) && (has_meaning(media, "data"@) || has_meaning(
        media,
        "fileUri"@,
    ) || has_meaning(media, "file_uri"@))
}

fn member_is_media(value: &Json, key: &str) -> (is: bool)
    ensures
        is == member_media(value@, key@),
{
    match value.get(key) {
        Some(media) => member_has_meaning(media, "data") || member_has_meaning(media, "fileUri")
            || member_has_meaning(media, "file_uri"),
        None => false,
    }
}

/// Whether a part of a Gemini message carries output.
pub open spec fn gemini_part_output(value: JsonView) -> bool {
    has_text(value, "text"@) || has_text(value, "thought"@) || has_text(value, "thoughtSignature"@)
        || member_function_call(value, "functionCall"@) || member_function_call(
        value,
        "function_call"@,
    ) || tool_calls_output(value) || member_media(value, "inlineData"@) || member_media(
        value,
        "inline_data"@,
    ) || member_media(value, "fileData"@) || member_media(value, "file_data"@)
}

/// Whether a part of a Gemini message carries output.
pub fn gemini_part_has_productive_output(value: &Json) -> (is: bool)
    ensures
        is == gemini_part_output(value@),
{
    member_has_text(value, "text") || member_has_text(value, "thought") || member_has_text(
        value,
        "thoughtSignature",
    ) || member_is_function_call(value, "functionCall") || member_is_function_call(
        value,
        "function_call",
    ) || has_tool_calls(value) || member_is_media(value, "inlineData") || member_is_media(
        value,
        "inline_data",
    ) || member_is_media(value, "fileData") || member_is_media(value, "file_data")
}

/// Whether a member is an end marker.
pub open spec fn member_ends(value: JsonView, key: Seq<char>) -> bool {
    value.member(key) matches Some(marker) && end_marker(marker)
}

fn member_is_end(value: &Json, key: &str) -> (is: bool)
    ensures
        is == member_ends(value@, key@),
{
    match value.get(key) {
        Some(marker) => terminal_marker_is_productive(marker),
        None => false,
    }
}

/// What a choice of the chat protocol brings: its delta, else its message.
pub open spec fn choice_delta(choice: JsonView) -> JsonView {
    match choice.member("delta"@) {
        Some(delta) => delta,
        None => match choice.member("message"@) {
            Some(message) => message,
            None => JsonView::Null,
        },
    }
}

/// Whether a choice of the chat protocol carries output or its end.
pub open spec fn choice_output(choice: JsonView) -> bool {
    let delta = choice_delta(choice);
    has_text(delta, "content"@) || has_text(delta, "refusal"@) || has_text(
        delta,
        "reasoning_content"@,
    ) || tool_calls_output(delta) || member_function_call(delta, "function_call"@) || member_ends(
        choice,
        "finish_reason"@,
    )
}

fn choice_has_output(choice: &Json) -> (is: bool)
    ensures
        is == choice_output(choice@),
{
    let nothing = Json::Null;
    let delta = match choice.get("delta") {
        Some(delta) => delta,
        None => match choice.get("message") {
            Some(message) => message,
            None => &nothing,
        },
    };
    member_has_text(delta, "content") || member_has_text(delta, "refusal") || member_has_text(
        delta,
        "reasoning_content",
    ) || has_tool_calls(delta) || member_is_function_call(delta, "function_call") || member_is_end(
        choice,
        "finish_reason",
    )
}

/// Whether a candidate of the Gemini protocol carries output or its end.
pub open spec fn candidate_output(candidate: JsonView) -> bool {
    ||| match candidate.member2("content"@, "parts"@) {
        Some(JsonView::Array(parts)) => some_part(parts),
        _ => false,
    }
    ||| member_ends(candidate, "finishReason"@)
}

/// Whether any of these parts of a Gemini message carries output.
pub open spec fn some_part(parts: Seq<JsonView>) -> bool {
    exists|i: int| 0 <= i < parts.len() && gemini_part_output(#[trigger] parts[i])
}

fn candidate_has_output(candidate: &Json) -> (is: bool)
    ensures
        is == candidate_output(candidate@),
{
    if let Some(parts) = candidate.get2("content", "parts") {
        if let Some(list) = parts.as_array() {
            let mut i: usize = 0;
            while i < list.len()
                invariant
                    i <= list@.len(),
                    candidate@.member2("content"@, "parts"@) == Some(
                        JsonView::Array(items_view(list@)),
                    ),
                    forall|k: int|
                        0 <= k < i ==> !gemini_part_output(#[trigger] items_view(list@)[k]),
                decreases list@.len() - i,
            {
                assert(items_view(list@)[i as int] == list@[i as int]@);
                if gemini_part_has_productive_output(&list[i]) {
                    assert(some_part(items_view(list@)));
                    return true;
                }
                i = i + 1;
            }
        }
    }
    member_is_end(candidate, "finishReason")
}

/// Whether an event without a name carries output, in whichever protocol it is.
pub open spec fn unnamed_output(value: JsonView) -> bool {
    ||| value.member_text("status"@) == Some("completed"@)
    ||| value.member_text("status"@) == Some("incomplete"@)
    ||| match value.member_array("choices"@) {
        Some(choices) => some_choice(choices),
        None => false,
    }
    ||| match value.member_array("candidates"@) {
        Some(candidates) => some_candidate(candidates),
        None => false,
    }
}

/// Whether any of these choices carries output or its end.
pub open spec fn some_choice(choices: Seq<JsonView>) -> bool {
    exists|i: int| 0 <= i < choices.len() && choice_output(#[trigger] choices[i])
}

/// Whether any of these candidates carries output or its end.
pub open spec fn some_candidate(candidates: Seq<JsonView>) -> bool {
    exists|i: int| 0 <= i < candidates.len() && candidate_output(#[trigger] candidates[i])
}

/// Whether an event without a name carries output, in whichever protocol it is.
pub fn sse_json_has_productive_output(value: &Json) -> (is: bool)
    ensures
        is == unnamed_output(value@),
{
    if let Some(status) = value.get_str("status") {
        if same_text(status, "completed") || same_text(status, "incomplete") {
            return true;
        }
    }
    if let Some(choices) = value.get_array("choices") {
        let mut i: usize = 0;
        while i < choices.len()
            invariant
                i <= choices@.len(),
                value@.member_array("choices"@) == Some(items_view(choices@)),
                forall|k: int| 0 <= k < i ==> !choice_output(#[trigger] items_view(choices@)[k]),
            decreases choices@.len() - i,
        {
            assert(items_view(choices@)[i as int] == choices@[i as int]@);
            if choice_has_output(&choices[i]) {
                assert(some_choice(items_view(choices@)));
                return true;
            }
            i = i + 1;
        }
    }
    if let Some(candidates) = value.get_array("candidates") {
        let mut i: usize = 0;
        while i < candidates.len()
            invariant
                i <= candidates@.len(),
                value@.member_array("candidates"@) == Some(items_view(candidates@)),
                forall|k: int|
                    0 <= k < i ==> !candidate_output(#[trigger] items_view(candidates@)[k]),
            decreases candidates@.len() - i,
        {
            assert(items_view(candidates@)[i as int] == candidates@[i as int]@);
            if candidate_has_output(&candidates[i]) {
                assert(some_candidate(items_view(candidates@)));
                return true;
            }
            i = i + 1;
        }
    }
    false
}

/// Nothing and truth values say nothing, numbers do, a text does unless it is blank, and what holds
/// others does where one of them does.
pub proof fn things_that_say_something(value: JsonView)
    ensures
        value is Null || value is Bool ==> !meaningful(value),
        value is Number ==> meaningful(value),
        value matches JsonView::Str(text) ==> (meaningful(value) <==> trimmed(text).len() > 0),
        value matches JsonView::Array(items) ==> (meaningful(value) <==> exists|i: int|
            0 <= i < items.len() && meaningful(#[trigger] items[i])),
        value matches JsonView::Object(members) ==> (meaningful(value) <==> exists|i: int|
            0 <= i < members.len() && meaningful((#[trigger] members[i]).1)),
{
}

/// Whether a member is a text that is not empty.
pub open spec fn speaks(value: JsonView, key: Seq<char>) -> bool {
    value.member(key) matches Some(JsonView::Str(text)) && text.len() > 0
}

/// Whether a member says something.
pub open spec fn tells(value: JsonView, key: Seq<char>) -> bool {
    value.member(key) matches Some(member) && meaningful(member)
}

/// A document of the Responses protocol brings output where it has one of these members as a text
/// that is not empty, or output in its item, part, content or summary, or where it is a tool call
/// that says anything; and nowhere else. A list does where one of its items does.
pub proof fn responses_bring_output(value: JsonView)
    ensures
        value is Object ==> (responses_output(value) <==> {
            ||| speaks(value, "text"@) || speaks(value, "delta"@) || speaks(value, "refusal"@)
                || speaks(value, "thinking"@) || speaks(value, "summary_text"@) || speaks(
                value,
                "arguments"@,
            ) || speaks(value, "partial_json"@) || speaks(value, "code"@) || speaks(
                value,
                "encrypted_content"@,
            )
            ||| value.member("item"@) matches Some(inner) && responses_output(inner)
            ||| value.member("part"@) matches Some(inner) && responses_output(inner)
            ||| value.member("content"@) matches Some(inner) && responses_output(inner)
            ||| value.member("summary"@) matches Some(inner) && responses_output(inner)
            ||| tool_item(value)
        }),
        value matches JsonView::Array(items) ==> (responses_output(value) <==> exists|i: int|
            0 <= i < items.len() && responses_output(#[trigger] items[i])),
        !(value is Object) && !(value is Array) ==> !responses_output(value),
{
    if let JsonView::Object(members) = value {
        member_index_is_first(members, "item"@);
        member_index_is_first(members, "part"@);
        member_index_is_first(members, "content"@);
        member_index_is_first(members, "summary"@);
    }
}

/// A tool call of the Responses protocol says something by its ids, its name, what it is called
/// with and what it does, each kind by its own; nothing else is one.
pub proof fn tool_calls_say_something(value: JsonView)
    ensures
        tool_item(value) ==> value.member("type"@) matches Some(JsonView::Str(_)),
        value.member("type"@) == Some(JsonView::Str("function_call"@)) || value.member("type"@)
            == Some(JsonView::Str("custom_tool_call"@)) ==> (tool_item(value) <==> tells(value, "id"@)
            || tells(value, "call_id"@) || tells(value, "name"@) || tells(value, "arguments"@)
            || tells(value, "delta"@) || tells(value, "input"@) || tells(value, "partial_json"@)),
        value.member("type"@) == Some(JsonView::Str("tool_search_call"@)) ==> (tool_item(value)
            <==> tells(value, "id"@) || tells(value, "call_id"@) || tells(value, "query"@) || tells(
            value,
            "queries"@,
        ) || tells(value, "arguments"@) || tells(value, "args"@) || tells(value, "status"@) || tells(
            value,
            "input"@,
        )),
        value.member("type"@) == Some(JsonView::Str("computer_call"@)) || value.member("type"@)
            == Some(JsonView::Str("web_search_call"@)) || value.member("type"@) == Some(
            JsonView::Str("file_search_call"@),
        ) || value.member("type"@) == Some(JsonView::Str("code_interpreter_call"@)) || value.member(
            "type"@,
        ) == Some(JsonView::Str("image_generation_call"@)) || value.member("type"@) == Some(
            JsonView::Str("local_shell_call"@),
        ) || value.member("type"@) == Some(JsonView::Str("mcp_call"@)) ==> (tool_item(value)
            <==> tells(value, "id"@) || tells(value, "call_id"@) || tells(value, "name"@) || tells(
            value,
            "arguments"@,
        ) || tells(value, "args"@) || tells(value, "input"@) || tells(value, "action"@) || tells(
            value,
            "command"@,
        ) || tells(value, "code"@) || tells(value, "query"@) || tells(value, "status"@) || tells(
            value,
            "delta"@,
        )),
        tool_item(value) ==> {
            let kind = value.member("type"@)->Some_0->Str_0;
            ||| kind == "function_call"@ || kind == "custom_tool_call"@ || kind
                == "tool_search_call"@ || kind == "computer_call"@ || kind == "web_search_call"@
            ||| kind == "file_search_call"@ || kind == "code_interpreter_call"@ || kind
                == "image_generation_call"@ || kind == "local_shell_call"@ || kind == "mcp_call"@
        },
{
    reveal_strlit("function_call");
    reveal_strlit("custom_tool_call");
    reveal_strlit("tool_search_call");
    reveal_strlit("computer_call");
    reveal_strlit("web_search_call");
    reveal_strlit("file_search_call");
    reveal_strlit("code_interpreter_call");
    reveal_strlit("image_generation_call");
    reveal_strlit("local_shell_call");
    reveal_strlit("mcp_call");
    assert("function_call"@.len() == 13 && "function_call"@[0] == 'f');
    assert("custom_tool_call"@.len() == 16 && "custom_tool_call"@[0] == 'c');
    assert("tool_search_call"@.len() == 16 && "tool_search_call"@[0] == 't');
    assert("computer_call"@.len() == 13 && "computer_call"@[0] == 'c');
    assert("web_search_call"@.len() == 15);
    assert("file_search_call"@.len() == 16 && "file_search_call"@[0] == 'f');
    assert("code_interpreter_call"@.len() == 21);
    assert("image_generation_call"@.len() == 21);
    assert("local_shell_call"@.len() == 16 && "local_shell_call"@[0] == 'l');
    assert("mcp_call"@.len() == 8);
}

/// A tool block of the Anthropic protocol says something by its ids, its name and what it is called
/// with; the result of a web search by what it holds. Nothing else is one.
pub proof fn tool_blocks_say_something(value: JsonView)
    ensures
        value.member("type"@) == Some(JsonView::Str("tool_use"@)) || value.member("type"@) == Some(
            JsonView::Str("server_tool_use"@),
        ) ==> (anthropic_block_output(value) <==> tells(value, "id"@) || tells(value, "tool_use_id"@)
            || tells(value, "name"@) || tells(value, "input"@) || tells(value, "arguments"@)),
        value.member("type"@) == Some(JsonView::Str("web_search_tool_result"@)) ==> (
        anthropic_block_output(value) <==> tells(value, "tool_use_id"@) || tells(value, "content"@)
            || tells(value, "result"@) || tells(value, "error_code"@)),
        anthropic_block_output(value) ==> value.member("type"@) == Some(JsonView::Str("tool_use"@))
            || value.member("type"@) == Some(JsonView::Str("server_tool_use"@)) || value.member(
            "type"@,
        ) == Some(JsonView::Str("web_search_tool_result"@)),
{
    reveal_strlit("tool_use");
    reveal_strlit("server_tool_use");
    reveal_strlit("web_search_tool_result");
    assert("tool_use"@.len() == 8);
    assert("server_tool_use"@.len() == 15);
    assert("web_search_tool_result"@.len() == 22);
}

/// Whether a call of a function says something: by its ids, its name or what it is called with.
pub open spec fn calls_something(value: JsonView, key: Seq<char>) -> bool {
    value.member(key) matches Some(call) && (tells(call, "id"@) || tells(call, "call_id"@) || tells(
        call,
        "name"@,
    ) || tells(call, "arguments"@) || tells(call, "args"@) || tells(call, "delta"@) || tells(
        call,
        "input"@,
    ))
}

/// Whether a document lists a tool call that says something.
pub open spec fn lists_call(value: JsonView) -> bool {
    value.member("tool_calls"@) matches Some(JsonView::Array(calls)) && exists|i: int|
        0 <= i < calls.len() && ({
            let call = #[trigger] calls[i];
            tells(call, "id"@) || tells(call, "call_id"@) || tells(call, "name"@) || tells(
                call,
                "arguments"@,
            ) || calls_something(call, "function"@) || calls_something(call, "custom"@)
        })
}

proof fn lemma_lists_call(value: JsonView)
    ensures
        tool_calls_output(value) <==> lists_call(value),
{
    if let Some(JsonView::Array(calls)) = value.member("tool_calls"@) {
        assert forall|i: int| 0 <= i < calls.len() implies (tool_call_output(#[trigger] calls[i]) <==> ({
            let call = calls[i];
            tells(call, "id"@) || tells(call, "call_id"@) || tells(call, "name"@) || tells(
                call,
                "arguments"@,
            ) || calls_something(call, "function"@) || calls_something(call, "custom"@)
        })) by {}
        if lists_call(value) {
            let i = choose|i: int|
                0 <= i < calls.len() && ({
                    let call = #[trigger] calls[i];
                    tells(call, "id"@) || tells(call, "call_id"@) || tells(call, "name"@) || tells(
                        call,
                        "arguments"@,
                    ) || calls_something(call, "function"@) || calls_something(call, "custom"@)
                });
            assert(tool_call_output(calls[i]));
        }
    }
}

/// A choice of the chat protocol brings output by the content, the refusal or the reasoning of its
/// change, else of its message, by the calls that these hold, or by the reason for which it is at
/// its end.
pub proof fn choices_bring_output(choice: JsonView)
    ensures
        ({
            let delta = match (choice.member("delta"@), choice.member("message"@)) {
                (Some(delta), _) => delta,
                (None, Some(message)) => message,
                (None, None) => JsonView::Null,
            };
            choice_output(choice) <==> {
                ||| speaks(delta, "content"@)
                ||| speaks(delta, "refusal"@)
                ||| speaks(delta, "reasoning_content"@)
                ||| lists_call(delta)
                ||| calls_something(delta, "function_call"@)
                ||| choice.member("finish_reason"@) matches Some(JsonView::Str(reason)) && trimmed(
                    reason,
                ).len() > 0
                ||| choice.member("finish_reason"@) matches Some(JsonView::Number(_))
            }
        }),
{
    lemma_lists_call(choice_delta(choice));
}

/// Whether media is handed over, by its data or by where it lies.
pub open spec fn hands_over(value: JsonView, key: Seq<char>) -> bool {
    value.member(key) matches Some(media) && (tells(media, "data"@) || tells(media, "fileUri"@)
        || tells(media, "file_uri"@))
}

/// A part of a Gemini message brings output by its text, its thoughts, its calls or its media.
pub proof fn parts_bring_output(part: JsonView)
    ensures
        gemini_part_output(part) <==> {
            ||| speaks(part, "text"@) || speaks(part, "thought"@) || speaks(
                part,
                "thoughtSignature"@,
            )
            ||| calls_something(part, "functionCall"@) || calls_something(part, "function_call"@)
                || lists_call(part)
            ||| hands_over(part, "inlineData"@) || hands_over(part, "inline_data"@) || hands_over(
                part,
                "fileData"@,
            ) || hands_over(part, "file_data"@)
        },
{
    lemma_lists_call(part);
}

/// A candidate of Gemini brings output by one of the parts of its content, or by the reason for
/// which it is at its end.
pub proof fn candidates_bring_output(candidate: JsonView)
    ensures
        candidate_output(candidate) <==> {
            ||| candidate.member("content"@) matches Some(content) && (content.member(
                "parts"@,
            ) matches Some(JsonView::Array(parts)) && exists|i: int|
                0 <= i < parts.len() && gemini_part_output(#[trigger] parts[i]))
            ||| candidate.member("finishReason"@) matches Some(JsonView::Str(reason)) && trimmed(
                reason,
            ).len() > 0
            ||| candidate.member("finishReason"@) matches Some(JsonView::Number(_))
        },
{
}

/// An event without a name brings output where it is a document that is complete or cut short, or
/// where one of its choices or candidates does.
pub proof fn unnamed_events_bring_output(value: JsonView)
    ensures
        unnamed_output(value) <==> {
            ||| value.member("status"@) == Some(JsonView::Str("completed"@))
            ||| value.member("status"@) == Some(JsonView::Str("incomplete"@))
            ||| value.member("choices"@) matches Some(JsonView::Array(choices)) && exists|i: int|
                0 <= i < choices.len() && choice_output(#[trigger] choices[i])
            ||| value.member("candidates"@) matches Some(JsonView::Array(candidates)) && exists|
                i: int,
            | 0 <= i < candidates.len() && candidate_output(#[trigger] candidates[i])
        },
{
}

} // verus!
