//! The body of a request on its way to the upstream.

use vstd::prelude::*;
use vstd::string::*;
use crate::config::{OptimizerConfig, RectifierConfig};
use crate::forwarder::native_client::AdapterKind;
use crate::headers::{first_text, Headers, HeadersView};
use crate::json::{
    container_views, find_member, index_is_read_back, items_view, json_equal, member_index, member_index_is_first,
    member_index_unique, members_view, set_member_is_read_back, set_member_to_itself, Json,
    JsonNumber, JsonNumberView, JsonView,
};
use crate::provider::{LocalProxyRequestOverrides, Provider, ProviderView};
use crate::text::{opt_view, same_text};

verus! {

/// A document with a patch merged into it, and whether that changed it. Objects are merged member
/// by member; anything else is replaced. The top-level `stream` is never changed: the client and
/// the upstream have agreed on it.
pub open spec fn merged(target: JsonView, patch: JsonView, top_level: bool) -> (JsonView, bool)
    decreases patch,
{
    match (target, patch) {
        (JsonView::Object(_), JsonView::Object(members)) => merged_members(
            target,
            members,
            top_level,
        ),
        _ => if json_equal(target, patch) {
            (target, false)
        } else {
            (patch, true)
        },
    }
}

/// An object with the members of a patch merged into it in turn, and whether that changed it.
pub open spec fn merged_members(
    target: JsonView,
    members: Seq<(Seq<char>, JsonView)>,
    top_level: bool,
) -> (JsonView, bool)
    decreases members,
{
    if members.len() == 0 {
        (target, false)
    } else {
        let before = merged_members(target, members.drop_last(), top_level);
        let key = members.last().0;
        let value = members.last().1;
        if top_level && key == "stream"@ {
            before
        } else {
            match before.0.member(key) {
                Some(own) => {
                    let inner = merged(own, value, false);
                    (before.0.with_member(key, inner.0), before.1 || inner.1)
                },
                None => (before.0.with_member(key, value), true),
            }
        }
    }
}

/// Merges a patch into a document.
#[verifier::loop_isolation(false)]
fn merge_inner(target: Json, patch: &Json, top_level: bool) -> (result: (Json, bool))
    ensures
        (result.0@, result.1) == merged(target@, patch@, top_level),
    decreases patch,
{
    broadcast use container_views;

    let ghost original = target@;
    match (target, patch) {
        (Json::Object(own), Json::Object(members)) => {
            let ghost views = members_view(members@);
            let mut own = own;
            let mut changed = false;
            let mut i: usize = 0;
            while i < members.len()
                invariant
                    i <= members@.len(),
                    views == members_view(members@),
                    (JsonView::Object(members_view(own@)), changed) == merged_members(
                        original,
                        views.take(i as int),
                        top_level,
                    ),
                decreases members@.len() - i,
            {
                assert(decreases_to!(*members => members@[i as int]));
                assert(views.take(i + 1).drop_last() =~= views.take(i as int));
                assert(views.take(i + 1).last() == (members@[i as int].0@, members@[i as int].1@));
                let key = members[i].0.as_str();
                if !(top_level && same_text(key, "stream")) {
                    let ghost before = members_view(own@);
                    proof {
                        member_index_is_first(before, key@);
                    }
                    let at = find_member(&own, key);
                    if at < own.len() {
                        let (name, value) = own.remove(at);
                        assert(before[at as int] == (name@, value@));
                        let (inner, inner_changed) = merge_inner(value, &members[i].1, false);
                        own.insert(at, (name, inner));
                        assert(members_view(own@) =~= before.update(at as int, (key@, inner@)));
                        changed = changed || inner_changed;
                    } else {
                        let value = members[i].1.copy();
                        own.push((key.to_owned(), value));
                        assert(members_view(own@) =~= before.push((key@, value@)));
                        changed = true;
                    }
                }
                i = i + 1;
            }
            assert(views.take(i as int) =~= views);
            (Json::Object(own), changed)
        },
        (target, _) => {
            if target.equal(patch) {
                (target, false)
            } else {
                (patch.copy(), true)
            }
        },
    }
}

/// Merges a patch into the body of a request, and says whether that changed it.
pub fn merge_json_override(target: &mut Json, patch: &Json) -> (changed: bool)
    ensures
        (final(target)@, changed) == merged(old(target)@, patch@, true),
{
    let mut own = Json::Null;
    core::mem::swap(target, &mut own);
    let (result, changed) = merge_inner(own, patch, true);
    *target = result;
    changed
}

/// Merges a provider's body override into the body of a request, and says whether that changed
/// it. An override that is no object is left out.
pub fn apply_local_proxy_body_overrides(
    body: &mut Json,
    overrides: &LocalProxyRequestOverrides,
) -> (changed: bool)
    ensures
        (final(body)@, changed) == (match overrides@.body {
            Some(patch) if patch is Object => merged(old(body)@, patch, true),
            _ => (old(body)@, false),
        }),
{
    match &overrides.body {
        Some(patch) => if patch.is_object() {
            merge_json_override(body, patch)
        } else {
            false
        },
        None => false,
    }
}

/// A text block of a message.
pub open spec fn text_block(text: Seq<char>) -> JsonView {
    JsonView::Object(seq![("type"@, JsonView::Str("text"@)), ("text"@, JsonView::Str(text))])
}

/// Whether a system prompt begins with the identity line of the native client already.
pub open spec fn has_identity(blocks: Seq<JsonView>, identity: Seq<char>) -> bool {
    blocks.len() > 0 && blocks[0].member_text("text"@) == Some(identity)
}

/// A body whose system prompt begins with the identity line.
pub open spec fn with_identity(body: JsonView, identity: Seq<char>) -> JsonView {
    match body.member("system"@) {
        Some(JsonView::Array(blocks)) if has_identity(blocks, identity) => body,
        Some(JsonView::Array(blocks)) => body.with_index(
            "system"@,
            JsonView::Array(seq![text_block(identity)] + blocks),
        ),
        Some(JsonView::Str(text)) if text.len() > 0 => body.with_index(
            "system"@,
            JsonView::Array(seq![text_block(identity), text_block(text)]),
        ),
        _ => body.with_index(
            "system"@,
            JsonView::Array(seq![text_block(identity)]),
        ),
    }
}

fn make_text_block(text: &str) -> (block: Json)
    ensures
        block@ == text_block(text@),
{
    broadcast use container_views;

    let mut members: Vec<(String, Json)> = Vec::new();
    members.push(("type".to_owned(), Json::Str("text".to_owned())));
    members.push(("text".to_owned(), Json::Str(text.to_owned())));
    assert(members_view(members@) =~= seq![
        ("type"@, JsonView::Str("text"@)),
        ("text"@, JsonView::Str(text@)),
    ]);
    Json::Object(members)
}

/// Puts the identity line before the system prompt of an Anthropic request.
pub fn prepend_claude_code_system_prompt(body: &mut Json, identity: &str)
    requires
        old(body)@ is Object || old(body)@ is Null,
    ensures
        final(body)@ == with_identity(old(body)@, identity@),
{
    broadcast use container_views;

    let mut blocks: Vec<Json> = Vec::new();
    blocks.push(make_text_block(identity));
    assert(items_view(blocks@) =~= seq![text_block(identity@)]);
    match body.get("system") {
        Some(Json::Str(text)) => {
            if !text.as_str().is_empty() {
                blocks.push(make_text_block(text.as_str()));
                assert(items_view(blocks@) =~= seq![
                    text_block(identity@),
                    text_block(text@),
                ]);
            }
        },
        Some(Json::Array(existing)) => {
            let ghost own = items_view(existing@);
            if existing.len() > 0 {
                assert(own[0] == existing@[0]@);
                if let Some(text) = existing[0].get_str("text") {
                    if same_text(text, identity) {
                        return;
                    }
                }
            }
            let mut i: usize = 0;
            while i < existing.len()
                invariant
                    i <= existing@.len(),
                    own == items_view(existing@),
                    items_view(blocks@) == seq![text_block(identity@)] + own.take(i as int),
                decreases existing@.len() - i,
            {
                let ghost before = items_view(blocks@);
                blocks.push(existing[i].copy());
                assert(items_view(blocks@) =~= before.push(own[i as int]));
                assert(items_view(blocks@) =~= seq![text_block(identity@)] + own.take(
                    i + 1,
                ));
                i = i + 1;
            }
            assert(own.take(i as int) =~= own);
        },
        _ => {},
    }
    body.set_index("system", Json::Array(blocks));
}

/// The identity line is put in once, however often it is asked for.
pub proof fn identity_is_put_in_once(body: JsonView, line: Seq<char>)
    requires
        body is Object || body is Null,
    ensures
        with_identity(with_identity(body, line), line) == with_identity(body, line),
{
    reveal_strlit("type");
    reveal_strlit("text");
    let identity = text_block(line);
    let members = identity->Object_0;
    assert("type"@[1] == 'y');
    assert("text"@[1] == 'e');
    member_index_unique(members, "text"@, 1);
    assert(identity.member_text("text"@) == Some(line));
    let object = match body {
        JsonView::Null => JsonView::Object(Seq::empty()),
        _ => body,
    };
    let after = with_identity(body, line);
    if after != body || body is Null {
        let blocks = match body.member("system"@) {
            Some(JsonView::Array(blocks)) => seq![identity] + blocks,
            Some(JsonView::Str(text)) if text.len() > 0 => seq![identity, text_block(text)],
            _ => seq![identity],
        };
        if body is Null {
            assert(after == JsonView::Object(seq![("system"@, JsonView::Array(blocks))]));
            member_index_unique(after->Object_0, "system"@, 0);
        } else {
            set_member_is_read_back(body, "system"@, JsonView::Array(blocks));
        }
        if !(body.member("system"@) matches Some(JsonView::Array(own)) && has_identity(own, line)) {
            assert(after.member("system"@) == Some(JsonView::Array(blocks)));
            assert(blocks[0] == identity);
            assert(has_identity(blocks, line));
        }
    }
}

/// Whether no object in a document has two members of one name.
pub open spec fn distinct_names(json: JsonView) -> bool
    decreases json,
{
    match json {
        JsonView::Array(items) => forall|i: int|
            0 <= i < items.len() ==> distinct_names(#[trigger] items[i]),
        JsonView::Object(members) => {
            &&& forall|i: int, j: int|
                0 <= i < j < members.len() ==> (#[trigger] members[i]).0 != (
                #[trigger] members[j]).0
            &&& forall|i: int|
                0 <= i < members.len() ==> distinct_names((#[trigger] members[i]).1)
        },
        _ => true,
    }
}

proof fn lemma_member_at(json: JsonView, i: int)
    requires
        json is Object,
        distinct_names(json),
        0 <= i < json->Object_0.len(),
    ensures
        json.member(json->Object_0[i].0) == Some(json->Object_0[i].1),
{
    let members = json->Object_0;
    assert forall|k: int| 0 <= k < i implies members[k].0 != members[i].0 by {}
    member_index_unique(members, members[i].0, i);
}

proof fn lemma_equal_to_itself(json: JsonView)
    requires
        distinct_names(json),
    ensures
        json_equal(json, json),
    decreases json,
{
    match json {
        JsonView::Array(items) => {
            assert forall|i: int| 0 <= i < items.len() implies json_equal(
                #[trigger] items[i],
                items[i],
            ) by {
                lemma_equal_to_itself(items[i]);
            }
        },
        JsonView::Object(members) => {
            assert forall|i: int| 0 <= i < members.len() implies (json.member(
                (#[trigger] members[i]).0,
            ) matches Some(value) && json_equal(members[i].1, value)) by {
                lemma_member_at(json, i);
                lemma_equal_to_itself(members[i].1);
            }
        },
        _ => {},
    }
}

proof fn lemma_merge_with_itself(json: JsonView, top_level: bool)
    requires
        distinct_names(json),
    ensures
        merged(json, json, top_level) == (json, false),
    decreases json, 1nat, 0nat,
{
    match json {
        JsonView::Object(members) => {
            lemma_merge_members_with_itself(json, members.len(), top_level);
            assert(members.take(members.len() as int) =~= members);
        },
        _ => {
            lemma_equal_to_itself(json);
        },
    }
}

proof fn lemma_merge_members_with_itself(json: JsonView, count: nat, top_level: bool)
    requires
        json is Object,
        distinct_names(json),
        count <= json->Object_0.len(),
    ensures
        merged_members(json, json->Object_0.take(count as int), top_level) == (json, false),
    decreases json, 0nat, count,
{
    if count > 0 {
        let members = json->Object_0;
        let at = count - 1;
        lemma_merge_members_with_itself(json, at as nat, top_level);
        assert(members.take(count as int).drop_last() =~= members.take(at));
        assert(members.take(count as int).last() == members[at]);
        lemma_member_at(json, at);
        assert(decreases_to!(json => members));
        assert(decreases_to!(members => members[at]));
        lemma_merge_with_itself(members[at].1, false);
        set_member_to_itself(json, members[at].0, members[at].1);
    }
}

proof fn lemma_merged_stays_object(
    target: JsonView,
    members: Seq<(Seq<char>, JsonView)>,
    top_level: bool,
)
    requires
        target is Object,
    ensures
        merged_members(target, members, top_level).0 is Object,
    decreases members.len(),
{
    if members.len() > 0 {
        lemma_merged_stays_object(target, members.drop_last(), top_level);
    }
}

proof fn lemma_merged_leaves_others(
    target: JsonView,
    members: Seq<(Seq<char>, JsonView)>,
    top_level: bool,
    key: Seq<char>,
)
    requires
        target is Object,
        forall|i: int|
            0 <= i < members.len() ==> (#[trigger] members[i]).0 != key || (top_level && key
                == "stream"@),
    ensures
        merged_members(target, members, top_level).0.member(key) == target.member(key),
    decreases members.len(),
{
    if members.len() > 0 {
        let rest = members.drop_last();
        assert forall|i: int| 0 <= i < rest.len() implies (#[trigger] rest[i]).0 != key || (
        top_level && key == "stream"@) by {
            assert(rest[i] == members[i]);
        }
        lemma_merged_leaves_others(target, rest, top_level, key);
        lemma_merged_stays_object(target, rest, top_level);
        let before = merged_members(target, rest, top_level).0;
        let last = members[members.len() - 1];
        if !(top_level && last.0 == "stream"@) {
            let value = match before.member(last.0) {
                Some(own) => merged(own, last.1, false).0,
                None => last.1,
            };
            set_member_is_read_back(before, last.0, value);
            assert(before.with_member(last.0, value).member(key) == before.member(key));
        }
    }
}

/// A body override never changes whether a request is streamed.
pub proof fn overrides_keep_the_stream_flag(body: JsonView, patch: JsonView)
    requires
        body is Object,
        patch is Object,
    ensures
        merged(body, patch, true).0.member("stream"@) == body.member("stream"@),
{
    lemma_merged_leaves_others(body, patch->Object_0, true, "stream"@);
}

proof fn lemma_merged_value(
    target: JsonView,
    members: Seq<(Seq<char>, JsonView)>,
    top_level: bool,
    at: int,
)
    requires
        target is Object,
        forall|i: int, j: int|
            0 <= i < j < members.len() ==> (#[trigger] members[i]).0 != (#[trigger] members[j]).0,
        0 <= at < members.len(),
        !(top_level && members[at].0 == "stream"@),
    ensures
        merged_members(target, members, top_level).0.member(members[at].0) == Some(
            match target.member(members[at].0) {
                Some(own) => merged(own, members[at].1, false).0,
                None => members[at].1,
            },
        ),
    decreases members.len(),
{
    let key = members[at].0;
    let rest = members.drop_last();
    let before = merged_members(target, rest, top_level).0;
    lemma_merged_stays_object(target, rest, top_level);
    if at == members.len() - 1 {
        assert forall|i: int| 0 <= i < rest.len() implies (#[trigger] rest[i]).0 != key by {
            assert(rest[i] == members[i]);
        }
        lemma_merged_leaves_others(target, rest, top_level, key);
        let value = match before.member(key) {
            Some(own) => merged(own, members[at].1, false).0,
            None => members[at].1,
        };
        set_member_is_read_back(before, key, value);
    } else {
        assert forall|i: int, j: int| 0 <= i < j < rest.len() implies (#[trigger] rest[i]).0 != (
        #[trigger] rest[j]).0 by {
            assert(rest[i] == members[i]);
            assert(rest[j] == members[j]);
        }
        assert(rest[at] == members[at]);
        lemma_merged_value(target, rest, top_level, at);
        let last = members[members.len() - 1];
        assert(last.0 != key);
        if !(top_level && last.0 == "stream"@) {
            let value = match before.member(last.0) {
                Some(own) => merged(own, last.1, false).0,
                None => last.1,
            };
            set_member_is_read_back(before, last.0, value);
            assert(before.with_member(last.0, value).member(key) == before.member(key));
        }
    }
}

/// Merging a patch a second time changes nothing any more.
pub proof fn merging_twice_is_merging_once(target: JsonView, patch: JsonView, top_level: bool)
    requires
        distinct_names(patch),
    ensures
        merged(merged(target, patch, top_level).0, patch, top_level) == (
            merged(target, patch, top_level).0,
            false,
        ),
    decreases patch, 1nat, 0nat,
{
    let once = merged(target, patch, top_level).0;
    match (target, patch) {
        (JsonView::Object(_), JsonView::Object(members)) => {
            lemma_merged_stays_object(target, members, top_level);
            lemma_second_merge(target, patch, members.len(), top_level);
            assert(members.take(members.len() as int) =~= members);
        },
        _ => {
            if !json_equal(target, patch) {
                lemma_merge_with_itself(patch, top_level);
            }
        },
    }
}

proof fn lemma_second_merge(target: JsonView, patch: JsonView, count: nat, top_level: bool)
    requires
        target is Object,
        patch is Object,
        distinct_names(patch),
        count <= patch->Object_0.len(),
    ensures
        ({
            let once = merged_members(target, patch->Object_0, top_level).0;
            merged_members(once, patch->Object_0.take(count as int), top_level) == (once, false)
        }),
    decreases patch, 0nat, count,
{
    let members = patch->Object_0;
    let once = merged_members(target, members, top_level).0;
    if count > 0 {
        let at = count - 1;
        lemma_second_merge(target, patch, at as nat, top_level);
        assert(members.take(count as int).drop_last() =~= members.take(at));
        assert(members.take(count as int).last() == members[at]);
        let key = members[at].0;
        let value = members[at].1;
        if !(top_level && key == "stream"@) {
            lemma_merged_value(target, members, top_level, at);
            assert(decreases_to!(patch => members));
            assert(decreases_to!(members => members[at]));
            match target.member(key) {
                Some(own) => {
                    merging_twice_is_merging_once(own, value, false);
                },
                None => {
                    lemma_merge_with_itself(value, false);
                },
            }
            let settled = once.member(key)->Some_0;
            set_member_to_itself(once, key, settled);
        }
    }
}

/// Merging makes no object smaller, and one larger that lacks a member of the patch.
proof fn lemma_merged_length(
    target: JsonView,
    members: Seq<(Seq<char>, JsonView)>,
    top_level: bool,
)
    requires
        target is Object,
        forall|i: int, j: int|
            0 <= i < j < members.len() ==> (#[trigger] members[i]).0 != (#[trigger] members[j]).0,
    ensures
        ({
            let result = merged_members(target, members, top_level).0;
            &&& result->Object_0.len() >= target->Object_0.len()
            &&& (exists|k: int|
                0 <= k < members.len() && lacks(target, #[trigger] members[k].0, top_level))
                ==> result->Object_0.len() > target->Object_0.len()
        }),
    decreases members.len(),
{
    if members.len() > 0 {
        let rest = members.drop_last();
        assert forall|i: int, j: int| 0 <= i < j < rest.len() implies (#[trigger] rest[i]).0 != (
        #[trigger] rest[j]).0 by {
            assert(rest[i] == members[i]);
            assert(rest[j] == members[j]);
        }
        lemma_merged_length(target, rest, top_level);
        lemma_merged_stays_object(target, rest, top_level);
        let at = members.len() - 1;
        let key = members[at].0;
        assert forall|i: int| 0 <= i < rest.len() implies (#[trigger] rest[i]).0 != key || (top_level
            && key == "stream"@) by {
            assert(rest[i] == members[i]);
        }
        lemma_merged_leaves_others(target, rest, top_level, key);
        let before = merged_members(target, rest, top_level).0;
        let result = merged_members(target, members, top_level).0;
        assert(members.last() == members[at]);
        member_index_is_first(before->Object_0, key);
        assert(before.member(key) == target.member(key));
        assert(result->Object_0.len() >= before->Object_0.len());
        if exists|k: int|
            0 <= k < members.len() && lacks(target, #[trigger] members[k].0, top_level) {
            let k = choose|k: int|
                0 <= k < members.len() && lacks(target, #[trigger] members[k].0, top_level);
            if k < at {
                assert(rest[k] == members[k]);
                assert(lacks(target, rest[k].0, top_level));
                assert(before->Object_0.len() > target->Object_0.len());
            } else {
                assert(result == before.with_member(key, members[at].1));
                assert(result->Object_0.len() == before->Object_0.len() + 1);
            }
        }
    }
}

/// Whether a document lacks a member that a merge brings.
spec fn lacks(target: JsonView, key: Seq<char>, top_level: bool) -> bool {
    !(top_level && key == "stream"@) && target.member(key) is None
}

/// Whether a document has a member that a merge changes.
spec fn differs(target: JsonView, key: Seq<char>, value: JsonView, top_level: bool) -> bool {
    !(top_level && key == "stream"@) && (target.member(key) matches Some(own) && merged(
        own,
        value,
        false,
    ).1)
}

/// A merge that says that it changed nothing did not, and one that says so has a member on which
/// account it does.
proof fn lemma_merged_reason(target: JsonView, patch: JsonView, count: nat, top_level: bool)
    requires
        target is Object,
        patch is Object,
        distinct_names(target),
        distinct_names(patch),
        count <= patch->Object_0.len(),
    ensures
        ({
            let members = patch->Object_0;
            let result = merged_members(target, members.take(count as int), top_level);
            &&& !result.1 ==> result.0 == target
            &&& result.1 ==> exists|k: int|
                0 <= k < count && (lacks(target, #[trigger] members[k].0, top_level) || differs(
                    target,
                    members[k].0,
                    members[k].1,
                    top_level,
                ))
        }),
    decreases patch, 0nat, count,
{
    if count > 0 {
        let members = patch->Object_0;
        let at = count - 1;
        lemma_merged_reason(target, patch, at as nat, top_level);
        assert(members.take(count as int).drop_last() =~= members.take(at));
        assert(members.take(count as int).last() == members[at]);
        let before = merged_members(target, members.take(at), top_level);
        let key = members[at].0;
        let value = members[at].1;
        if !before.1 && !(top_level && key == "stream"@) {
            match target.member(key) {
                Some(own) => {
                    assert(decreases_to!(patch => members));
                    assert(decreases_to!(members => members[at]));
                    lemma_distinct_member(target, key);
                    lemma_merge_tells(own, value, false);
                    if merged(own, value, false).1 {
                        assert(differs(target, members[at].0, members[at].1, top_level));
                    } else {
                        set_member_to_itself(target, key, own);
                    }
                },
                None => {
                    assert(lacks(target, members[at].0, top_level));
                },
            }
        }
    }
}

proof fn lemma_distinct_member(json: JsonView, key: Seq<char>)
    requires
        distinct_names(json),
    ensures
        json.member(key) matches Some(value) ==> distinct_names(value),
{
    if let JsonView::Object(members) = json {
        member_index_is_first(members, key);
    }
}

/// A merge says that it changed a document exactly where the outcome is not equal to it.
proof fn lemma_merge_tells(target: JsonView, patch: JsonView, top_level: bool)
    requires
        distinct_names(target),
        distinct_names(patch),
    ensures
        ({
            let (result, changed) = merged(target, patch, top_level);
            &&& changed == !json_equal(target, result)
            &&& !changed ==> result == target
        }),
    decreases patch, 1nat, 0nat,
{
    lemma_equal_to_itself(target);
    match (target, patch) {
        (JsonView::Object(own), JsonView::Object(members)) => {
            let result = merged_members(target, members, top_level).0;
            lemma_merged_stays_object(target, members, top_level);
            lemma_merged_length(target, members, top_level);
            lemma_merged_reason(target, patch, members.len(), top_level);
            assert(members.take(members.len() as int) =~= members);
            if merged_members(target, members, top_level).1 && json_equal(target, result) {
                let k = choose|k: int|
                    0 <= k < members.len() && (lacks(target, #[trigger] members[k].0, top_level)
                        || differs(target, members[k].0, members[k].1, top_level));
                assert(differs(target, members[k].0, members[k].1, top_level));
                let key = members[k].0;
                let value = members[k].1;
                lemma_merged_value(target, members, top_level, k);
                lemma_distinct_member(target, key);
                assert(decreases_to!(patch => members));
                assert(decreases_to!(members => members[k]));
                lemma_merge_tells(target.member(key)->Some_0, value, false);
                member_index_is_first(own, key);
                let at = member_index(own, key);
                assert(own[at].0 == key);
                assert(json_equal(own[at].1, result.member(key)->Some_0));
            }
        },
        _ => {},
    }
}

/// What merging a patch into the body of a request gives, where both are objects: the answer is
/// true exactly where the body changed; members that the patch lacks stay, and so does `stream`;
/// every other member of the patch is there, merged into the body's own where it has one.
pub proof fn merging_brings_the_patch(body: JsonView, patch: JsonView)
    requires
        body is Object,
        patch is Object,
        distinct_names(body),
        distinct_names(patch),
    ensures
        ({
            let (result, changed) = merged(body, patch, true);
            &&& result is Object
            &&& changed <==> !json_equal(body, result)
            &&& changed <==> result != body
            &&& result.member("stream"@) == body.member("stream"@)
            &&& forall|key: Seq<char>|
                patch.member(key) is None ==> #[trigger] result.member(key) == body.member(key)
            &&& forall|key: Seq<char>|
                key != "stream"@ && patch.member(key) is Some ==> #[trigger] result.member(key)
                    == Some(
                    match body.member(key) {
                        Some(own) => merged(own, patch.member(key)->Some_0, false).0,
                        None => patch.member(key)->Some_0,
                    },
                )
        }),
{
    let members = patch->Object_0;
    let result = merged(body, patch, true).0;
    lemma_merged_stays_object(body, members, true);
    lemma_merge_tells(body, patch, true);
    lemma_equal_to_itself(body);
    overrides_keep_the_stream_flag(body, patch);
    assert forall|key: Seq<char>| patch.member(key) is None implies #[trigger] result.member(key)
        == body.member(key) by {
        member_index_is_first(members, key);
        lemma_merged_leaves_others(body, members, true, key);
    }
    assert forall|key: Seq<char>|
        key != "stream"@ && patch.member(key) is Some implies #[trigger] result.member(key) == Some(
        match body.member(key) {
            Some(own) => merged(own, patch.member(key)->Some_0, false).0,
            None => patch.member(key)->Some_0,
        },
    ) by {
        member_index_is_first(members, key);
        lemma_merged_value(body, members, true, member_index(members, key));
    }
}

/// The model a body asks for, where it names one.
pub open spec fn named_model(body: JsonView) -> Option<Seq<char>> {
    match body.member_text("model"@) {
        Some(model) if model.len() > 0 => Some(model),
        _ => None,
    }
}

/// The model a body asks for, where it names one.
pub fn body_model(body: &Json) -> (model: Option<String>)
    ensures
        opt_view(model) == named_model(body@),
{
    match body.get_str("model") {
        Some(model) if !model.is_empty() => Some(model.to_owned()),
        _ => None,
    }
}

/// Fixes the model of a body where the route does.
pub fn apply_model_override(body: &mut Json, model: &Option<String>)
    requires
        model is Some ==> old(body)@ is Object || old(body)@ is Null,
    ensures
        final(body)@ == (match opt_view(*model) {
            Some(model) => old(body)@.with_index("model"@, JsonView::Str(model)),
            None => old(body)@,
        }),
{
    if let Some(model) = model {
        body.set_index("model", Json::Str(model.clone()));
    }
}

/// The output ceiling that a provider is configured with, where it has one.
pub open spec fn output_ceiling(provider: ProviderView) -> Option<u64> {
    match provider.meta {
        Some(meta) => match meta.max_output_tokens {
            Some(limit) if limit > 0 => Some(limit),
            _ => None,
        },
        None => None,
    }
}

/// Sets the output ceiling a provider is configured with.
pub fn apply_output_ceiling(body: &mut Json, provider: &Provider)
    requires
        output_ceiling(provider@) is Some ==> old(body)@ is Object || old(body)@ is Null,
    ensures
        final(body)@ == (match output_ceiling(provider@) {
            Some(limit) => old(body)@.with_index(
                "max_output_tokens"@,
                JsonView::Number(JsonNumberView::Unsigned(limit)),
            ),
            None => old(body)@,
        }),
{
    if let Some(meta) = &provider.meta {
        if let Some(limit) = meta.max_output_tokens {
            if limit > 0 {
                body.set_index("max_output_tokens", Json::Number(JsonNumber::Unsigned(limit)));
            }
        }
    }
}

/// The model that was asked of the upstream: the one of the final body, else the one before the
/// body was converted.
pub fn final_outbound_model(before: Option<String>, sent: &Json) -> (model: Option<String>)
    ensures
        opt_view(model) == (match named_model(sent@) {
            Some(model) => Some(model),
            None => opt_view(before),
        }),
{
    match body_model(sent) {
        Some(model) => Some(model),
        None => before,
    }
}

/// Whether a provider is one of Bedrock.
pub open spec fn bedrock(provider: ProviderView) -> bool {
    provider.settings_config.member2("env"@, "CLAUDE_CODE_USE_BEDROCK"@) == Some(JsonView::Str("1"@))
}

/// Whether a provider is one of Bedrock.
pub fn is_bedrock_provider(provider: &Provider) -> (is: bool)
    ensures
        is == bedrock(provider@),
{
    match provider.settings_config.get2("env", "CLAUDE_CODE_USE_BEDROCK") {
        Some(value) => match value.as_str() {
            Some(text) => same_text(text, "1"),
            None => false,
        },
        None => false,
    }
}

/// Which parts of a request are tuned before it is sent: thinking, caching. Only requests to
/// Bedrock are, so that nothing of it reaches another provider.
pub fn body_optimizations(config: &OptimizerConfig, provider: &Provider) -> (parts: (bool, bool))
    ensures
        parts.0 == (config.enabled && bedrock(provider@) && config.thinking_optimizer),
        parts.1 == (config.enabled && bedrock(provider@) && config.cache_injection),
{
    let tuned = config.enabled && is_bedrock_provider(provider);
    (tuned && config.thinking_optimizer, tuned && config.cache_injection)
}

/// How images are kept from models that take text only: not at all, from models declared so, or
/// also from models guessed so.
#[derive(Debug, Clone, Copy, PartialEq, Eq, Structural)]
pub enum MediaPrevention {
    Off,
    Declared,
    DeclaredOrGuessed,
}

/// How images are kept from models that take text only.
pub fn media_prevention(config: &RectifierConfig) -> (prevention: MediaPrevention)
    ensures
        prevention == (if !(config.enabled && config.request_media_fallback) {
            MediaPrevention::Off
        } else if config.request_media_heuristic {
            MediaPrevention::DeclaredOrGuessed
        } else {
            MediaPrevention::Declared
        }),
{
    if !(config.enabled && config.request_media_fallback) {
        MediaPrevention::Off
    } else if config.request_media_heuristic {
        MediaPrevention::DeclaredOrGuessed
    } else {
        MediaPrevention::Declared
    }
}

/// Whether a request is tried once more without its images after an error. That the upstream
/// refused the images is no guess, so the switch for guessing has no say.
pub open spec fn media_retry(
    config: RectifierConfig,
    adapter: AdapterKind,
    already_retried: bool,
    has_images: bool,
    images_refused: bool,
) -> bool {
    !(adapter is Gemini) && config.enabled
        && config.request_media_fallback && !already_retried && has_images && images_refused
}

/// Whether a request is tried once more without its images after an error.
pub fn media_retry_should_trigger(
    config: &RectifierConfig,
    adapter: AdapterKind,
    already_retried: bool,
    has_images: bool,
    images_refused: bool,
) -> (retry: bool)
    ensures
        retry == media_retry(
            *config,
            adapter,
            already_retried,
            has_images,
            images_refused,
        ),
{
    let served = match adapter {
        AdapterKind::Claude | AdapterKind::Codex => true,
        AdapterKind::Gemini => false,
    };
    served && config.enabled && config.request_media_fallback && !already_retried && has_images && images_refused
}

/// A text that is there and not empty.
pub open spec fn present(text: Option<Seq<char>>) -> Option<Seq<char>> {
    match text {
        Some(text) if text.len() > 0 => Some(text),
        _ => None,
    }
}

/// The session a Copilot request belongs to: the one found in the user id, the one named in the
/// metadata, the user id itself, or the one of the header; empty where there is none.
pub open spec fn copilot_session(
    parsed: Option<Seq<char>>,
    body: JsonView,
    headers: HeadersView,
) -> Seq<char> {
    let in_metadata = |key: Seq<char>|
        present(
            match body.member2("metadata"@, key) {
                Some(value) => value.text(),
                None => None,
            },
        );
    match parsed {
        Some(session) => session,
        None => match in_metadata("session_id"@) {
            Some(session) => session,
            None => match in_metadata("user_id"@) {
                Some(session) => session,
                None => match present(first_text(headers, "x-session-id"@)) {
                    Some(session) => session,
                    None => Seq::empty(),
                },
            },
        },
    }
}

fn metadata_text(body: &Json, key: &str) -> (text: Option<String>)
    ensures
        opt_view(text) == present(
            match body@.member2("metadata"@, key@) {
                Some(value) => value.text(),
                None => None,
            },
        ),
{
    match body.get2("metadata", key) {
        Some(value) => match value.as_str() {
            Some(text) if !text.is_empty() => Some(text.to_owned()),
            _ => None,
        },
        None => None,
    }
}

/// The session a Copilot request belongs to. `parsed` is the session found in the user id of the
/// metadata.
pub fn copilot_session_id(parsed: Option<String>, body: &Json, headers: &Headers) -> (session:
    String)
    ensures
        session@ == copilot_session(opt_view(parsed), body@, headers@),
{
    if let Some(session) = parsed {
        return session;
    }
    if let Some(session) = metadata_text(body, "session_id") {
        return session;
    }
    if let Some(session) = metadata_text(body, "user_id") {
        return session;
    }
    match headers.get_text("x-session-id") {
        Some(session) => if session.as_str().is_empty() {
            String::new()
        } else {
            session
        },
        None => String::new(),
    }
}

/// The value at a path of names in a document, where there is one.
pub open spec fn at_path(json: JsonView, path: Seq<Seq<char>>) -> Option<JsonView>
    decreases path.len(),
{
    if path.len() == 0 {
        Some(json)
    } else {
        match json.member(path[0]) {
            Some(member) => at_path(member, path.skip(1)),
            None => None,
        }
    }
}

/// Whether an object stands at a path of names in a document.
pub open spec fn is_object_at(json: JsonView, path: Seq<Seq<char>>) -> bool {
    at_path(json, path) matches Some(JsonView::Object(_))
}

/// What is no object on both sides is replaced by the patch's, and is equal to it then.
pub proof fn merged_values_are_the_patch_s(target: JsonView, patch: JsonView, top_level: bool)
    requires
        distinct_names(patch),
        !(target is Object) || !(patch is Object),
    ensures
        json_equal(merged(target, patch, top_level).0, patch),
        merged(target, patch, top_level).1 ==> merged(target, patch, top_level).0 == patch,
        merged(target, patch, top_level).1 <==> !json_equal(target, patch),
{
    lemma_equal_to_itself(patch);
}

/// Every member of a patch but the top-level `stream` is in the body after a merge: equal to the
/// patch's value where that, or the body's own, is no object, and as it stands in the patch where
/// the body had none.
pub proof fn patched_members_are_the_patch_s(body: JsonView, patch: JsonView, key: Seq<char>)
    requires
        body is Object,
        patch is Object,
        distinct_names(patch),
        key != "stream"@,
        patch.member(key) is Some,
    ensures
        ({
            let value = patch.member(key)->Some_0;
            let result = merged(body, patch, true).0.member(key);
            &&& result is Some
            &&& body.member(key) is None ==> result == Some(value)
            &&& !(value is Object) || !(body.member(key) matches Some(JsonView::Object(_)))
                ==> json_equal(result->Some_0, value)
        }),
{
    let members = patch->Object_0;
    member_index_is_first(members, key);
    let at = member_index(members, key);
    lemma_merged_value(body, members, true, at);
    lemma_distinct_member(patch, key);
    let value = patch.member(key)->Some_0;
    lemma_equal_to_itself(value);
    if let Some(own) = body.member(key) {
        if !(own is Object) || !(value is Object) {
            merged_values_are_the_patch_s(own, value, false);
        }
    }
}

/// However deep it stands, a value of the patch that is no object is at its path after a merge,
/// unless it stands under the top-level `stream`.
pub proof fn patched_values_are_found_at_their_paths(
    body: JsonView,
    patch: JsonView,
    path: Seq<Seq<char>>,
    top_level: bool,
)
    requires
        distinct_names(patch),
        at_path(patch, path) matches Some(value) && !(value is Object),
        path.len() > 0 && top_level && body is Object && patch is Object ==> path[0] != "stream"@,
    ensures
        at_path(merged(body, patch, top_level).0, path) matches Some(found) && json_equal(
            found,
            at_path(patch, path)->Some_0,
        ),
    decreases path.len(),
{
    let result = merged(body, patch, top_level).0;
    if path.len() == 0 {
        merged_values_are_the_patch_s(body, patch, top_level);
    } else if body is Object && patch is Object {
        let members = patch->Object_0;
        let key = path[0];
        member_index_is_first(members, key);
        lemma_merged_value(body, members, top_level, member_index(members, key));
        lemma_distinct_member(patch, key);
        let value = patch.member(key)->Some_0;
        match body.member(key) {
            Some(own) => {
                patched_values_are_found_at_their_paths(own, value, path.skip(1), false);
            },
            None => {
                lemma_distinct_at_path(value, path.skip(1));
                lemma_equal_to_itself(at_path(patch, path)->Some_0);
            },
        }
    } else {
        assert(patch is Object);
        assert(!json_equal(body, patch));
        assert(result == patch);
        lemma_distinct_at_path(patch, path);
        lemma_equal_to_itself(at_path(patch, path)->Some_0);
    }
}

proof fn lemma_distinct_at_path(json: JsonView, path: Seq<Seq<char>>)
    requires
        distinct_names(json),
    ensures
        at_path(json, path) matches Some(value) ==> distinct_names(value),
    decreases path.len(),
{
    if path.len() > 0 {
        lemma_distinct_member(json, path[0]);
        if let Some(member) = json.member(path[0]) {
            lemma_distinct_at_path(member, path.skip(1));
        }
    }
}

/// What the patch says nothing about stays, however deep it stands: where body and patch are
/// objects along a path and the patch has no member of the next name, the body's value at the path
/// is what it was.
pub proof fn unpatched_values_stay_at_their_paths(
    body: JsonView,
    patch: JsonView,
    path: Seq<Seq<char>>,
    depth: nat,
    top_level: bool,
)
    requires
        distinct_names(patch),
        depth < path.len(),
        forall|n: int|
            0 <= n <= depth ==> is_object_at(body, #[trigger] path.take(n)) && is_object_at(
                patch,
                path.take(n),
            ),
        at_path(patch, path.take((depth + 1) as int)) is None,
    ensures
        at_path(merged(body, patch, top_level).0, path) == at_path(body, path),
    decreases depth,
{
    assert(path.take(0).len() == 0);
    assert(is_object_at(body, path.take(0)));
    assert(at_path(body, path.take(0)) == Some(body));
    assert(at_path(patch, path.take(0)) == Some(patch));
    let members = patch->Object_0;
    let key = path[0];
    member_index_is_first(members, key);
    if depth == 0 {
        assert(path.take(1)[0] == key);
        assert(path.take(1).skip(1).len() == 0);
        assert(patch.member(key) is None) by {
            if let Some(value) = patch.member(key) {
                assert(at_path(value, path.take(1).skip(1)) == Some(value));
            }
        }
        lemma_merged_leaves_others(body, members, top_level, key);
    } else {
        let rest = path.skip(1);
        assert(is_object_at(body, path.take(1)));
        assert(is_object_at(patch, path.take(1)));
        assert(path.take(1)[0] == key);
        let own = body.member(key)->Some_0;
        let value = patch.member(key)->Some_0;
        assert forall|n: int| 0 <= n <= depth - 1 implies is_object_at(own, #[trigger] rest.take(n))
            && is_object_at(value, rest.take(n)) by {
            assert(path.take(n + 1)[0] == key);
            assert(path.take(n + 1).skip(1) =~= rest.take(n));
            assert(is_object_at(body, path.take(n + 1)));
        }
        assert(path.take((depth + 1) as int)[0] == key);
        assert(path.take((depth + 1) as int).skip(1) =~= rest.take(depth as int));
        lemma_distinct_member(patch, key);
        if top_level && key == "stream"@ {
            lemma_merged_leaves_others(body, members, top_level, key);
        } else {
            unpatched_values_stay_at_their_paths(own, value, rest, (depth - 1) as nat, false);
            lemma_merged_value(body, members, top_level, member_index(members, key));
        }
    }
}

/// A model or a ceiling that is set is there, and nothing else changes.
pub proof fn models_and_ceilings_are_set(body: JsonView, model: Seq<char>, limit: u64)
    requires
        body is Object || body is Null,
    ensures
        ({
            let fixed = body.with_index("model"@, JsonView::Str(model));
            let capped = body.with_index(
                "max_output_tokens"@,
                JsonView::Number(JsonNumberView::Unsigned(limit)),
            );
            &&& fixed is Object && capped is Object
            &&& fixed.member("model"@) == Some(JsonView::Str(model))
            &&& named_model(fixed) == (if model.len() > 0 {
                Some(model)
            } else {
                None
            })
            &&& capped.member("max_output_tokens"@) == Some(
                JsonView::Number(JsonNumberView::Unsigned(limit)),
            )
            &&& forall|key: Seq<char>|
                key != "model"@ ==> #[trigger] fixed.member(key) == body.member(key)
            &&& forall|key: Seq<char>|
                key != "max_output_tokens"@ ==> #[trigger] capped.member(key) == body.member(key)
        }),
{
    index_is_read_back(body, "model"@, JsonView::Str(model));
    index_is_read_back(
        body,
        "max_output_tokens"@,
        JsonView::Number(JsonNumberView::Unsigned(limit)),
    );
}

/// The ceiling of a provider is the one it is configured with, and one of nothing is none.
pub proof fn ceilings_are_the_configured_ones(provider: ProviderView)
    ensures
        output_ceiling(provider) matches Some(limit) ==> limit > 0 && (provider.meta matches Some(
            meta,
        ) && meta.max_output_tokens == Some(limit)),
        provider.meta matches Some(meta) ==> (meta.max_output_tokens matches Some(limit) ==> (limit
            > 0 ==> output_ceiling(provider) == Some(limit))),
{
}

/// The identity line is the first block of the system prompt, and what was there follows it.
pub proof fn identity_comes_first(body: JsonView, line: Seq<char>)
    requires
        body is Object || body is Null,
    ensures
        ({
            let after = with_identity(body, line);
            &&& after.member("system"@) matches Some(JsonView::Array(blocks)) && blocks.len() > 0
                && blocks[0].member("text"@) == Some(JsonView::Str(line))
            &&& body.member("system"@) matches Some(JsonView::Array(own)) ==> (after.member(
                "system"@,
            ) == Some(JsonView::Array(own)) || after.member("system"@)->Some_0->Array_0.skip(1)
                == own)
            &&& body.member("system"@) matches Some(JsonView::Str(own)) ==> (own.len() > 0 ==> ({
                let blocks = after.member("system"@)->Some_0->Array_0;
                blocks.len() == 2 && blocks[1].member("text"@) == Some(JsonView::Str(own))
                    && blocks[1].member("type"@) == Some(JsonView::Str("text"@))
            }))
            &&& forall|key: Seq<char>|
                key != "system"@ ==> #[trigger] after.member(key) == body.member(key)
        }),
{
    reveal_strlit("type");
    reveal_strlit("text");
    assert("type"@[1] == 'y');
    assert("text"@[1] == 'e');
    let identity = text_block(line);
    member_index_unique(identity->Object_0, "text"@, 1);
    let blocks = match body.member("system"@) {
        Some(JsonView::Array(own)) => seq![identity] + own,
        Some(JsonView::Str(text)) if text.len() > 0 => seq![identity, text_block(text)],
        _ => seq![identity],
    };
    index_is_read_back(body, "system"@, JsonView::Array(blocks));
    assert(blocks[0] == identity);
    if let Some(JsonView::Array(own)) = body.member("system"@) {
        assert(blocks.skip(1) =~= own);
        if has_identity(own, line) {
            assert(own[0].member_text("text"@) == Some(line));
        }
    }
    if let Some(JsonView::Str(text)) = body.member("system"@) {
        let said = text_block(text);
        member_index_unique(said->Object_0, "text"@, 1);
        member_index_unique(said->Object_0, "type"@, 0);
    }
}

/// A provider is one of Bedrock where its environment says so with `1`, and by nothing else.
pub proof fn bedrock_is_set_in_the_environment(provider: ProviderView, env: JsonView, text: Seq<char>)
    ensures
        provider.settings_config.member("env"@) is None ==> !bedrock(provider),
        provider.settings_config.member("env"@) == Some(env) ==> (bedrock(provider) <==> env.member(
            "CLAUDE_CODE_USE_BEDROCK"@,
        ) == Some(JsonView::Str("1"@))),
{
}

/// A request is sent again without its images where it has any and they were refused, once, where
/// that is switched on twice over, and never to Gemini.
pub proof fn images_are_left_out_once(
    config: RectifierConfig,
    adapter: AdapterKind,
    retried: bool,
    has_images: bool,
    refused: bool,
)
    ensures
        media_retry(config, adapter, retried, has_images, refused) ==> {
            &&& config.enabled && config.request_media_fallback
            &&& !retried
            &&& has_images && refused
            &&& !(adapter is Gemini)
        },
        config.enabled && config.request_media_fallback && !(adapter is Gemini) ==> media_retry(
            config,
            adapter,
            false,
            true,
            true,
        ),
{
}

/// A session is looked for in this order: what was read of the user's id, the session and the user of
/// the metadata, and the client's header; empty ones do not count.
pub proof fn sessions_are_looked_for_in_order(
    parsed: Seq<char>,
    body: JsonView,
    metadata: JsonView,
    headers: HeadersView,
    session: Seq<char>,
)
    ensures
        copilot_session(Some(parsed), body, headers) == parsed,
        body.member("metadata"@) == Some(metadata) && metadata.member("session_id"@) == Some(
            JsonView::Str(session),
        ) && session.len() > 0 ==> copilot_session(None, body, headers) == session,
        body.member("metadata"@) == Some(metadata) && metadata.member("session_id"@) is None
            && metadata.member("user_id"@) == Some(JsonView::Str(session)) && session.len() > 0
            ==> copilot_session(None, body, headers) == session,
        body.member("metadata"@) is None && first_text(headers, "x-session-id"@) == Some(session)
            ==> copilot_session(None, body, headers) == session,
        body.member("metadata"@) is None && first_text(headers, "x-session-id"@) is None
            ==> copilot_session(None, body, headers).len() == 0,
{
    if body.member("metadata"@) is None && first_text(headers, "x-session-id"@) == Some(session)
        && session.len() == 0 {
        assert(session =~= Seq::<char>::empty());
    }
}

/// The model of a body is the one it names, unless that is empty.
pub proof fn bodies_name_their_model(body: JsonView, model: Seq<char>)
    ensures
        body.member("model"@) == Some(JsonView::Str(model)) && model.len() > 0 ==> named_model(body)
            == Some(model),
        body.member("model"@) == Some(JsonView::Str(Seq::<char>::empty())) ==> named_model(body)
            is None,
        body.member("model"@) is None ==> named_model(body) is None,
{
}

/// Images are looked at before a request is sent where that is switched on twice over, and guessed at
/// where that is switched on as well.
pub proof fn images_are_looked_at_where_that_is_on(
    config: &RectifierConfig,
    prevention: MediaPrevention,
)
    requires
        call_ensures(media_prevention, (config,), prevention),
    ensures
        prevention is Off <==> !config.enabled || !config.request_media_fallback,
        prevention is DeclaredOrGuessed <==> config.enabled && config.request_media_fallback
            && config.request_media_heuristic,
        prevention is Declared <==> config.enabled && config.request_media_fallback
            && !config.request_media_heuristic,
{
}

/// The model that went out is the one of the body that was sent, and else the one that was known
/// before.
pub proof fn sent_bodies_say_which_model_went_out(
    before: Option<String>,
    sent: &Json,
    model: Option<String>,
    name: Seq<char>,
)
    requires
        call_ensures(final_outbound_model, (before, sent), model),
    ensures
        sent@.member("model"@) == Some(JsonView::Str(name)) && name.len() > 0 ==> opt_view(model)
            == Some(name),
        sent@.member("model"@) is None ==> opt_view(model) == opt_view(before),
{
}

} // verus!
