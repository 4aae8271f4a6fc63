//! Where a request goes: endpoints, queries and upstream URLs.

use vstd::prelude::*;
use vstd::string::*;
use crate::forwarder::native_client::AdapterKind;
use crate::headers::{first_text, Headers, HeadersView};
use crate::json::{Json, JsonView};
use crate::provider::{AppType, Provider, ProviderView};
use crate::text::{
    ascii_lowercase, chars_of, contains, contains_text, ends_with, first_index,
    first_index_is_first, has_prefix, has_suffix, join, join_all, joined, occurs_at, opt_view,
    pieces, pieces_make_up_the_text, put_together, same_text, split, split_first, split_once, starts_with, strip_prefix, texts_view,
    texts_are_cut_at_the_first_occurrence, texts_are_found_where_they_stand, to_ascii_lowercase,
    trim, trimmed, without_prefix,
};

verus! {

/// The path of an endpoint, and its query where it has one.
pub fn split_endpoint_and_query<'a>(endpoint: &'a str) -> (parts: (&'a str, Option<&'a str>))
    ensures
        parts.0@ == split_first(endpoint@, '?').0,
        match parts.1 {
            Some(query) => split_first(endpoint@, '?').1 == Some(query@),
            None => split_first(endpoint@, '?').1 is None,
        },
{
    split_once(endpoint, '?')
}

/// The value of an optional text.
pub open spec fn str_view(text: Option<&str>) -> Option<Seq<char>> {
    match text {
        Some(text) => Some(text@),
        None => None,
    }
}

/// The parameters of a query that do not begin with `dropped`, without empty ones.
pub open spec fn kept_params(params: Seq<Seq<char>>, dropped: Seq<char>) -> Seq<Seq<char>>
    decreases params.len(),
{
    if params.len() == 0 {
        Seq::empty()
    } else {
        let before = kept_params(params.drop_last(), dropped);
        if params.last().len() == 0 || has_prefix(params.last(), dropped) {
            before
        } else {
            before.push(params.last())
        }
    }
}

fn keep_params(query: &str, dropped: &str) -> (kept: Vec<String>)
    ensures
        texts_view(kept@) == kept_params(pieces(query@, '&'), dropped@),
{
    let params = split(query, '&');
    let ghost views = texts_view(params@);
    let mut kept: Vec<String> = Vec::new();
    let mut i: usize = 0;
    assert(texts_view(kept@) =~= Seq::<Seq<char>>::empty());
    while i < params.len()
        invariant
            i <= params@.len(),
            views == texts_view(params@),
            texts_view(kept@) == kept_params(views.take(i as int), dropped@),
        decreases params@.len() - i,
    {
        let ghost before = texts_view(kept@);
        assert(views.take(i + 1).drop_last() =~= views.take(i as int));
        assert(views.take(i + 1).last() == params@[i as int]@);
        let param = params[i].as_str();
        if !param.is_empty() && !starts_with(param, dropped) {
            kept.push(param.to_owned());
            assert(texts_view(kept@) =~= before.push(param@));
        }
        i = i + 1;
    }
    assert(views.take(i as int) =~= views);
    kept
}

/// No kept parameter begins with what was dropped.
pub proof fn kept_params_are_clean(params: Seq<Seq<char>>, dropped: Seq<char>)
    ensures
        forall|i: int|
            0 <= i < kept_params(params, dropped).len() ==> !has_prefix(
                #[trigger] kept_params(params, dropped)[i],
                dropped,
            ) && kept_params(params, dropped)[i].len() > 0,
    decreases params.len(),
{
    if params.len() > 0 {
        kept_params_are_clean(params.drop_last(), dropped);
        let before = kept_params(params.drop_last(), dropped);
        let all = kept_params(params, dropped);
        assert forall|i: int| 0 <= i < all.len() implies !has_prefix(#[trigger] all[i], dropped)
            && all[i].len() > 0 by {
            if i < before.len() {
                assert(all[i] == before[i]);
            }
        }
    }
}

/// A query without its `beta` parameter, where anything is left.
pub open spec fn without_beta(query: Option<Seq<char>>) -> Option<Seq<char>> {
    match query {
        Some(query) => {
            let kept = joined(kept_params(pieces(query, '&'), "beta="@), "&"@);
            if kept.len() == 0 {
                None
            } else {
                Some(kept)
            }
        },
        None => None,
    }
}

/// A query without its `beta` parameter, where anything is left.
pub fn strip_beta_query(query: Option<&str>) -> (rest: Option<String>)
    ensures
        opt_view(rest) == without_beta(str_view(query)),
{
    match query {
        Some(query) => {
            let kept = join_all(&keep_params(query, "beta="), "&");
            if kept.as_str().is_empty() {
                None
            } else {
                Some(kept)
            }
        },
        None => None,
    }
}

/// Whether a path is that of the messages endpoint, with or without the native client's prefix.
pub open spec fn claude_messages_path(path: Seq<char>, route_prefix: Seq<char>) -> bool {
    path == "/v1/messages"@ || path == route_prefix + "/v1/messages"@
}

/// Whether a path is that of the messages endpoint, with or without the native client's prefix.
pub fn is_claude_messages_path(path: &str, route_prefix: &str) -> (is: bool)
    ensures
        is == claude_messages_path(path@, route_prefix@),
{
    same_text(path, "/v1/messages") || same_text(
        path,
        join(route_prefix, "/v1/messages").as_str(),
    )
}

/// A path with a query, where there is one that is not empty.
pub open spec fn with_query(path: Seq<char>, query: Option<Seq<char>>) -> Seq<char> {
    match query {
        Some(query) if query.len() > 0 => path + "?"@ + query,
        _ => path,
    }
}

fn path_with_query(path: &str, query: &Option<String>) -> (endpoint: String)
    ensures
        endpoint@ == with_query(path@, opt_view(*query)),
{
    match query {
        Some(query) if !query.as_str().is_empty() => {
            let mut endpoint = join(path, "?");
            endpoint.append(query.as_str());
            endpoint
        },
        _ => path.to_owned(),
    }
}

fn owned(text: Option<&str>) -> (same: Option<String>)
    ensures
        opt_view(same) == str_view(text),
{
    match text {
        Some(text) => Some(text.to_owned()),
        None => None,
    }
}

/// Rewrites an endpoint to another path, with its query.
fn rewrite_path(endpoint: &str, path: &str) -> (rewritten: (String, Option<String>))
    ensures
        rewritten.0@ == with_query(path@, split_first(endpoint@, '?').1),
        opt_view(rewritten.1) == split_first(endpoint@, '?').1,
{
    let query = owned(split_endpoint_and_query(endpoint).1);
    (path_with_query(path, &query), query)
}

/// Rewrites a Responses endpoint of Codex to that of chat completions, with its query.
pub fn rewrite_codex_responses_endpoint_to_chat(endpoint: &str) -> (rewritten: (
    String,
    Option<String>,
))
    ensures
        rewritten.0@ == with_query("/chat/completions"@, split_first(endpoint@, '?').1),
        opt_view(rewritten.1) == split_first(endpoint@, '?').1,
{
    rewrite_path(endpoint, "/chat/completions")
}

/// Rewrites a Responses endpoint of Codex to the Anthropic messages endpoint, with its query.
pub fn rewrite_codex_responses_endpoint_to_anthropic(endpoint: &str) -> (rewritten: (
    String,
    Option<String>,
))
    ensures
        rewritten.0@ == with_query("/v1/messages"@, split_first(endpoint@, '?').1),
        opt_view(rewritten.1) == split_first(endpoint@, '?').1,
{
    rewrite_path(endpoint, "/v1/messages")
}

/// The parameters of a query but for `alt`, followed by an extra one.
pub open spec fn merged_params(query: Option<Seq<char>>, extra: Option<Seq<char>>) -> Seq<
    Seq<char>,
> {
    let kept = match query {
        Some(query) => kept_params(pieces(query, '&'), "alt="@),
        None => Seq::empty(),
    };
    match extra {
        Some(extra) => kept.push(extra),
        None => kept,
    }
}

/// A query without its `alt` parameter and with an extra one, where anything is left.
pub open spec fn merged_query(query: Option<Seq<char>>, extra: Option<Seq<char>>) -> Option<
    Seq<char>,
> {
    let params = merged_params(query, extra);
    if params.len() == 0 {
        None
    } else {
        Some(joined(params, "&"@))
    }
}

/// A query without its `alt` parameter and with an extra one, where anything is left.
pub fn merge_query_params(base_query: Option<&str>, extra_param: Option<&str>) -> (merged: Option<
    String,
>)
    ensures
        opt_view(merged) == merged_query(str_view(base_query), str_view(extra_param)),
{
    let mut params = match base_query {
        Some(query) => keep_params(query, "alt="),
        None => Vec::new(),
    };
    assert(base_query is None ==> texts_view(params@) =~= Seq::<Seq<char>>::empty());
    if let Some(extra) = extra_param {
        let ghost before = texts_view(params@);
        params.push(extra.to_owned());
        assert(texts_view(params@) =~= before.push(extra@));
    }
    assert(texts_view(params@) == merged_params(str_view(base_query), str_view(extra_param)));
    if params.len() == 0 {
        None
    } else {
        Some(join_all(&params, "&"))
    }
}

/// The endpoint of a Gemini model.
pub open spec fn gemini_path(model: Seq<char>, stream: bool) -> Seq<char> {
    "/v1beta/models/"@ + model + (if stream {
        ":streamGenerateContent"@
    } else {
        ":generateContent"@
    })
}

/// Whether the body of a request asks for a stream.
pub open spec fn body_streams(body: JsonView) -> bool {
    body.member_bool("stream"@) == Some(true)
}

/// Whether the body of a request asks for a stream.
pub fn body_asks_for_stream(body: &Json) -> (streams: bool)
    ensures
        streams == body_streams(body@),
{
    match body.get_bool("stream") {
        Some(stream) => stream,
        None => false,
    }
}

/// The model a Gemini request asks for: the bare id, also where the body has it as a resource
/// name.
pub open spec fn gemini_body_model(body: JsonView) -> Seq<char> {
    match body.member_text("model"@) {
        Some(model) => match without_prefix(model, "models/"@) {
            Some(id) => id,
            None => model,
        },
        None => "unknown"@,
    }
}

fn gemini_model_of<'a>(body: &'a Json) -> (model: &'a str)
    ensures
        model@ == gemini_body_model(body@),
{
    match body.get_str("model") {
        Some(model) => match strip_prefix(model, "models/") {
            Some(id) => id,
            None => model,
        },
        None => "unknown",
    }
}

/// The endpoint and the query that an Anthropic request is sent to in another protocol. Only the
/// messages endpoint is rewritten; its `beta` parameter belongs to Anthropic and is dropped.
pub open spec fn claude_transform(
    endpoint: Seq<char>,
    api_format: Seq<char>,
    is_copilot: bool,
    body: JsonView,
    route_prefix: Seq<char>,
) -> (Seq<char>, Option<Seq<char>>) {
    let path = split_first(endpoint, '?').0;
    let query = split_first(endpoint, '?').1;
    if !claude_messages_path(path, route_prefix) {
        (endpoint, query)
    } else if api_format == "gemini_native"@ {
        let streams = body_streams(body);
        let merged = merged_query(
            without_beta(query),
            if streams {
                Some("alt=sse"@)
            } else {
                None
            },
        );
        (with_query(gemini_path(gemini_body_model(body), streams), merged), merged)
    } else {
        let target = if api_format == "openai_responses"@ {
            "/v1/responses"@
        } else if is_copilot {
            "/chat/completions"@
        } else {
            "/v1/chat/completions"@
        };
        (with_query(target, without_beta(query)), without_beta(query))
    }
}

/// The endpoint and the query that an Anthropic request is sent to in another protocol.
pub fn rewrite_claude_transform_endpoint(
    endpoint: &str,
    api_format: &str,
    is_copilot: bool,
    body: &Json,
    route_prefix: &str,
) -> (rewritten: (String, Option<String>))
    ensures
        (rewritten.0@, opt_view(rewritten.1)) == claude_transform(
            endpoint@,
            api_format@,
            is_copilot,
            body@,
            route_prefix@,
        ),
{
    let (path, query) = split_endpoint_and_query(endpoint);
    if !is_claude_messages_path(path, route_prefix) {
        return (endpoint.to_owned(), owned(query));
    }
    let query = strip_beta_query(query);
    if same_text(api_format, "gemini_native") {
        let streams = body_asks_for_stream(body);
        let mut target = join("/v1beta/models/", gemini_model_of(body));
        target.append(
            if streams {
                ":streamGenerateContent"
            } else {
                ":generateContent"
            },
        );
        let extra = if streams {
            Some("alt=sse")
        } else {
            None
        };
        let merged = match &query {
            Some(query) => merge_query_params(Some(query.as_str()), extra),
            None => merge_query_params(None, extra),
        };
        return (path_with_query(target.as_str(), &merged), merged);
    }
    let target = if same_text(api_format, "openai_responses") {
        "/v1/responses"
    } else if is_copilot {
        "/chat/completions"
    } else {
        "/v1/chat/completions"
    };
    (path_with_query(target, &query), query)
}

/// Whether a text holds a character.
pub open spec fn has_char(text: Seq<char>, ch: char) -> bool {
    first_index(text, ch) < text.len()
}

/// A full URL with a query added to the one it may have.
pub open spec fn full_url(base_url: Seq<char>, query: Option<Seq<char>>) -> Seq<char> {
    match query {
        Some(query) if query.len() > 0 => if has_char(base_url, '?') {
            base_url + "&"@ + query
        } else {
            base_url + "?"@ + query
        },
        _ => base_url,
    }
}

/// A full URL with a query added to the one it may have.
pub fn append_query_to_full_url(base_url: &str, query: Option<&str>) -> (url: String)
    ensures
        url@ == full_url(base_url@, str_view(query)),
{
    match query {
        Some(query) if !query.is_empty() => {
            proof {
                first_index_is_first(base_url@, '?');
            }
            let mut url = if split_once(base_url, '?').1.is_some() {
                join(base_url, "&")
            } else {
                join(base_url, "?")
            };
            url.append(query);
            url
        },
        _ => base_url.to_owned(),
    }
}

/// A text without the given character at its end.
pub open spec fn without_trailing(text: Seq<char>, ch: char) -> Seq<char>
    decreases text.len(),
{
    if text.len() > 0 && text.last() == ch {
        without_trailing(text.drop_last(), ch)
    } else {
        text
    }
}

/// The part of a URL before its query and its fragment.
pub open spec fn url_path_part(url: Seq<char>) -> Seq<char> {
    split_first(split_first(url, '?').0, '#').0
}

/// Whether a base URL is already the full URL of an endpoint, whatever its query, fragment,
/// case, trailing slashes and surrounding white space.
pub open spec fn full_endpoint(base_url: Seq<char>, endpoint_suffix: Seq<char>) -> bool {
    has_suffix(
        ascii_lowercase(without_trailing(url_path_part(trimmed(base_url)), '/')),
        endpoint_suffix,
    )
}

/// Whether a base URL is already the full URL of an endpoint.
pub fn base_url_is_full_endpoint(base_url: &str, endpoint_suffix: &str) -> (full: bool)
    ensures
        full == full_endpoint(base_url@, endpoint_suffix@),
{
    let path = split_once(split_once(trim(base_url), '?').0, '#').0;
    let chars = chars_of(path);
    let mut end: usize = chars.len();
    assert(path@.take(end as int) =~= path@);
    while end > 0 && chars[end - 1] == '/'
        invariant
            chars@ == path@,
            end <= chars@.len(),
            without_trailing(path@, '/') == without_trailing(path@.take(end as int), '/'),
        decreases end,
    {
        assert(path@.take(end as int).drop_last() =~= path@.take(end - 1));
        assert(path@.take(end as int).last() == chars@[end - 1]);
        end = end - 1;
    }
    assert(end > 0 ==> path@.take(end as int).last() == chars@[end - 1]);
    assert(without_trailing(path@, '/') == path@.take(end as int));
    let bare = path.substring_char(0, end);
    assert(bare@ =~= path@.take(end as int));
    ends_with(to_ascii_lowercase(bare).as_str(), endpoint_suffix)
}

/// Whether a request asks for a stream: by its body, by its endpoint, or by its `accept` header.
pub open spec fn streaming_request(
    endpoint: Seq<char>,
    body: JsonView,
    headers: HeadersView,
) -> bool {
    ||| body_streams(body)
    ||| contains_text(endpoint, "streamGenerateContent"@)
    ||| contains_text(endpoint, "alt=sse"@)
    ||| (first_text(headers, "accept"@) matches Some(accept) && contains_text(
        ascii_lowercase(accept),
        "text/event-stream"@,
    ))
}

/// Whether a request asks for a stream.
pub fn is_streaming_request(endpoint: &str, body: &Json, headers: &Headers) -> (streams: bool)
    ensures
        streams == streaming_request(endpoint@, body@, headers@),
{
    if body_asks_for_stream(body) {
        return true;
    }
    if contains(endpoint, "streamGenerateContent") || contains(endpoint, "alt=sse") {
        return true;
    }
    match headers.get_text("accept") {
        Some(accept) => contains(
            to_ascii_lowercase(accept.as_str()).as_str(),
            "text/event-stream",
        ),
        None => false,
    }
}

/// Whether the upstream must not compress its response: streams are read as they come.
pub fn should_force_identity_encoding(endpoint: &str, body: &Json, headers: &Headers) -> (force:
    bool)
    ensures
        force == streaming_request(endpoint@, body@, headers@),
{
    is_streaming_request(endpoint, body, headers)
}

/// The position where `needle` stands last in `text`, or none.
pub open spec fn last_occurrence(text: Seq<char>, needle: Seq<char>, at: int) -> bool {
    &&& occurs_at(text, needle, at)
    &&& forall|later: int| later > at ==> !occurs_at(text, needle, later)
}

/// The model named at the end of a Gemini path: between the last `/models/` and the action.
pub open spec fn gemini_action_model(path: Seq<char>, model: Seq<char>) -> bool {
    exists|at: int|
        {
            let rest = path.skip(at + "/models/"@.len());
            &&& #[trigger] last_occurrence(path, "/models/"@, at)
            &&& rest == model + ":streamGenerateContent"@ || rest == model + ":generateContent"@
        }
}

fn find_last(text: &str, needle: &str) -> (at: Option<usize>)
    ensures
        match at {
            Some(at) => last_occurrence(text@, needle@, at as int),
            None => !contains_text(text@, needle@),
        },
{
    let t = chars_of(text);
    let n = chars_of(needle);
    if n.len() > t.len() {
        return None;
    }
    let mut at: usize = t.len() - n.len();
    loop
        invariant
            t@ == text@,
            n@ == needle@,
            at <= t@.len() - n@.len(),
            forall|later: int| later > at ==> !occurs_at(text@, needle@, later),
        decreases at,
    {
        if crate::text::chars_occur_at(&t, &n, at) {
            return Some(at);
        }
        if at == 0 {
            return None;
        }
        at = at - 1;
    }
}

fn strip_suffix<'a>(text: &'a str, suffix: &str) -> (rest: Option<&'a str>)
    ensures
        match rest {
            Some(rest) => text@ == rest@ + suffix@,
            None => !has_suffix(text@, suffix@),
        },
{
    if ends_with(text, suffix) {
        let end = text.unicode_len() - suffix.unicode_len();
        let rest = text.substring_char(0, end);
        assert(text@ =~= rest@ + text@.subrange(end as int, text@.len() as int));
        Some(rest)
    } else {
        None
    }
}

proof fn lemma_suffix(rest: Seq<char>, suffix: Seq<char>)
    ensures
        has_suffix(rest + suffix, suffix),
{
    let text = rest + suffix;
    assert(text.subrange(rest.len() as int, text.len() as int) =~= suffix);
}

/// The model a retry is logged with: the one of the body, else the one of a Gemini path.
pub open spec fn logged_model(
    app_type: AppType,
    endpoint: Seq<char>,
    body: JsonView,
    model: Seq<char>,
) -> bool {
    let path = split_first(endpoint, '?').0;
    match body.member_text("model"@) {
        Some(named) => model == named,
        None => if app_type is Gemini && exists|named: Seq<char>| gemini_action_model(path, named) {
            gemini_action_model(path, model)
        } else {
            model == "unknown"@
        },
    }
}

/// The model a retry is logged with.
pub fn retry_log_model<'a>(app_type: AppType, endpoint: &'a str, body: &'a Json) -> (model: &'a str)
    ensures
        logged_model(app_type, endpoint@, body@, model@),
{
    if let Some(model) = body.get_str("model") {
        return model;
    }
    match app_type {
        AppType::Gemini => {},
        _ => {
            return "unknown";
        },
    }
    let path = split_once(endpoint, '?').0;
    match find_last(path, "/models/") {
        Some(at) => {
            let needle_len = "/models/".unicode_len();
            let total = path.unicode_len();
            assert(at + needle_len <= total);
            let rest = path.substring_char(at + needle_len, total);
            assert(rest@ =~= path@.skip(at + "/models/"@.len()));
            proof {
                assert forall|named: Seq<char>| gemini_action_model(path@, named) implies rest@
                    == named + ":streamGenerateContent"@ || rest@ == named
                    + ":generateContent"@ by {
                    let other = choose|other: int|
                        {
                            let rest = path@.skip(other + "/models/"@.len());
                            &&& #[trigger] last_occurrence(path@, "/models/"@, other)
                            &&& rest == named + ":streamGenerateContent"@ || rest == named
                                + ":generateContent"@
                        };
                    if other < at {
                        assert(!occurs_at(path@, "/models/"@, at as int));
                    }
                    if at < other {
                        assert(!occurs_at(path@, "/models/"@, other));
                    }
                    assert(other == at);
                }
            }
            if let Some(model) = strip_suffix(rest, ":streamGenerateContent") {
                assert(last_occurrence(path@, "/models/"@, at as int));
                return model;
            }
            if let Some(model) = strip_suffix(rest, ":generateContent") {
                assert(last_occurrence(path@, "/models/"@, at as int));
                return model;
            }
            proof {
                assert forall|named: Seq<char>| !gemini_action_model(path@, named) by {
                    lemma_suffix(named, ":streamGenerateContent"@);
                    lemma_suffix(named, ":generateContent"@);
                }
            }
            "unknown"
        },
        None => {
            proof {
                assert forall|named: Seq<char>| !gemini_action_model(path@, named) by {
                    if gemini_action_model(path@, named) {
                        let other = choose|other: int|
                            #[trigger] last_occurrence(path@, "/models/"@, other);
                        assert(occurs_at(path@, "/models/"@, other));
                    }
                }
            }
            "unknown"
        },
    }
}

/// Whether a provider's base URL is used as it is.
pub open spec fn full_url_provider(provider: ProviderView) -> bool {
    &&& provider.meta matches Some(meta)
    &&& meta.is_full_url == Some(true)
    &&& provider.provider_type() != Some("codex_oauth"@)
    &&& provider.provider_type() != Some("xai_oauth"@)
}

/// Whether a provider's base URL is used as it is. Providers that sign in with an account have a
/// fixed upstream.
pub fn uses_full_url(provider: &Provider) -> (full: bool)
    ensures
        full == full_url_provider(provider@),
{
    let configured = match &provider.meta {
        Some(meta) => match meta.is_full_url {
            Some(full) => full,
            None => false,
        },
        None => false,
    };
    configured && !provider.has_type("codex_oauth") && !provider.has_type("xai_oauth")
}

/// Whether requests go to GitHub Copilot: by the provider's kind, or by its URL.
pub open spec fn copilot_target(provider: ProviderView, base_url: Seq<char>) -> bool {
    provider.provider_type() == Some("github_copilot"@) || contains_text(
        base_url,
        "githubcopilot.com"@,
    )
}

/// Whether requests go to GitHub Copilot.
pub fn is_copilot_target(provider: &Provider, base_url: &str) -> (copilot: bool)
    ensures
        copilot == copilot_target(provider@, base_url@),
{
    provider.has_type("github_copilot") || contains(base_url, "githubcopilot.com")
}

/// Whether the endpoint of a Copilot account replaces the configured one.
pub fn uses_dynamic_endpoint(is_copilot: bool, is_full_url: bool) -> (dynamic: bool)
    ensures
        dynamic == (is_copilot && !is_full_url),
{
    is_copilot && !is_full_url
}

/// How the requests of an app are converted for a provider.
#[derive(Debug, Clone, Copy, PartialEq, Eq, Structural)]
pub enum Conversion {
    /// Sent as they are.
    Passthrough,
    /// Codex Responses as chat completions.
    CodexToChat,
    /// Codex Responses as Anthropic messages.
    CodexToAnthropic,
    /// Anthropic messages in another protocol.
    Claude,
    /// By the adapter of the app, at the same endpoint.
    Adapter,
}

/// The endpoint a request is sent to, and the query that comes with it.
pub open spec fn effective_target(
    conversion: Conversion,
    endpoint: Seq<char>,
    api_format: Seq<char>,
    is_copilot: bool,
    body: JsonView,
    route_prefix: Seq<char>,
) -> (Seq<char>, Option<Seq<char>>) {
    let query = split_first(endpoint, '?').1;
    match conversion {
        Conversion::CodexToChat => (with_query("/chat/completions"@, query), query),
        Conversion::CodexToAnthropic => (with_query("/v1/messages"@, query), query),
        Conversion::Claude => claude_transform(
            endpoint,
            api_format,
            is_copilot,
            body,
            route_prefix,
        ),
        _ => (endpoint, query),
    }
}

/// The endpoint a request is sent to, and the query that comes with it.
pub fn effective_endpoint(
    conversion: Conversion,
    endpoint: &str,
    api_format: &str,
    is_copilot: bool,
    body: &Json,
    route_prefix: &str,
) -> (target: (String, Option<String>))
    ensures
        (target.0@, opt_view(target.1)) == effective_target(
            conversion,
            endpoint@,
            api_format@,
            is_copilot,
            body@,
            route_prefix@,
        ),
{
    match conversion {
        Conversion::CodexToChat => rewrite_codex_responses_endpoint_to_chat(endpoint),
        Conversion::CodexToAnthropic => rewrite_codex_responses_endpoint_to_anthropic(endpoint),
        Conversion::Claude => rewrite_claude_transform_endpoint(
            endpoint,
            api_format,
            is_copilot,
            body,
            route_prefix,
        ),
        _ => (endpoint.to_owned(), owned(split_endpoint_and_query(endpoint).1)),
    }
}

/// How the URL of a request is made.
#[derive(Debug, PartialEq, Eq)]
pub enum UpstreamUrl {
    /// From the base URL and the endpoint, as Gemini wants it.
    Gemini,
    /// This one.
    Full(String),
    /// From the base URL and the endpoint, by the adapter of the app.
    Build,
}

/// The way a URL is made as a mathematical value.
pub enum UpstreamUrlView {
    Gemini,
    Full(Seq<char>),
    Build,
}

impl View for UpstreamUrl {
    type V = UpstreamUrlView;

    open spec fn view(&self) -> UpstreamUrlView {
        match self {
            UpstreamUrl::Gemini => UpstreamUrlView::Gemini,
            UpstreamUrl::Full(url) => UpstreamUrlView::Full(url@),
            UpstreamUrl::Build => UpstreamUrlView::Build,
        }
    }
}

/// How the URL of a request is made. A base URL that already is the endpoint of the conversion is
/// taken as it is, so that the endpoint is not appended twice.
pub open spec fn url_choice(
    conversion: Conversion,
    api_format: Option<Seq<char>>,
    base_url: Seq<char>,
    is_full_url: bool,
    query: Option<Seq<char>>,
) -> UpstreamUrlView {
    if api_format == Some("gemini_native"@) {
        UpstreamUrlView::Gemini
    } else if is_full_url || (conversion is CodexToChat && full_endpoint(
        base_url,
        "/chat/completions"@,
    )) || (conversion is CodexToAnthropic && full_endpoint(base_url, "/v1/messages"@)) {
        UpstreamUrlView::Full(full_url(base_url, query))
    } else {
        UpstreamUrlView::Build
    }
}

/// How the URL of a request is made.
pub fn upstream_url(
    conversion: Conversion,
    api_format: Option<&str>,
    base_url: &str,
    is_full_url: bool,
    query: Option<&str>,
) -> (url: UpstreamUrl)
    ensures
        url@ == url_choice(
            conversion,
            str_view(api_format),
            base_url@,
            is_full_url,
            str_view(query),
        ),
{
    if let Some(format) = api_format {
        if same_text(format, "gemini_native") {
            return UpstreamUrl::Gemini;
        }
    }
    let full = is_full_url || match conversion {
        Conversion::CodexToChat => base_url_is_full_endpoint(base_url, "/chat/completions"),
        Conversion::CodexToAnthropic => base_url_is_full_endpoint(base_url, "/v1/messages"),
        _ => false,
    };
    if full {
        UpstreamUrl::Full(append_query_to_full_url(base_url, query))
    } else {
        UpstreamUrl::Build
    }
}

/// Whether the headers of a request keep the case the client wrote them in. Only the native
/// Anthropic upstream looks at it.
pub open spec fn exact_header_case(
    adapter: AdapterKind,
    provider: ProviderView,
    api_format: Option<Seq<char>>,
    is_copilot: bool,
) -> bool {
    &&& adapter is Claude
    &&& !is_copilot
    &&& provider.provider_type() != Some("codex_oauth"@)
    &&& provider.provider_type() != Some("xai_oauth"@)
    &&& api_format is None || api_format == Some("anthropic"@)
}

/// Whether the headers of a request keep the case the client wrote them in.
pub fn should_preserve_exact_header_case(
    adapter: AdapterKind,
    provider: &Provider,
    resolved_claude_api_format: Option<&str>,
    is_copilot: bool,
) -> (exact: bool)
    ensures
        exact == exact_header_case(
            adapter,
            provider@,
            str_view(resolved_claude_api_format),
            is_copilot,
        ),
{
    match adapter {
        AdapterKind::Claude => {},
        _ => {
            return false;
        },
    }
    if is_copilot || provider.has_type("codex_oauth") || provider.has_type("xai_oauth") {
        return false;
    }
    match resolved_claude_api_format {
        Some(format) => same_text(format, "anthropic"),
        None => true,
    }
}

/// The protocol of an Anthropic request to Copilot: Responses for models of OpenAI, chat completions
/// for all others and where the vendor is not known.
pub fn copilot_api_format(vendor: Option<&str>) -> (format: &'static str)
    ensures
        format@ == (if vendor matches Some(vendor) && ascii_lowercase(vendor@) == ascii_lowercase(
            "openai"@,
        ) {
            "openai_responses"@
        } else {
            "openai_chat"@
        }),
{
    match vendor {
        Some(vendor) => if crate::text::eq_ignore_ascii_case(vendor, "openai") {
            "openai_responses"
        } else {
            "openai_chat"
        },
        None => "openai_chat",
    }
}

/// The `beta` parameter of an Anthropic request never reaches an upstream of another protocol.
pub proof fn beta_is_never_forwarded(query: Seq<char>)
    ensures
        without_beta(Some(query)) matches Some(kept) ==> kept == joined(
            kept_params(pieces(query, '&'), "beta="@),
            "&"@,
        ) && forall|i: int|
            0 <= i < kept_params(pieces(query, '&'), "beta="@).len() ==> !has_prefix(
                #[trigger] kept_params(pieces(query, '&'), "beta="@)[i],
                "beta="@,
            ),
{
    kept_params_are_clean(pieces(query, '&'), "beta="@);
}

proof fn lemma_joined_from_the_front(texts: Seq<Seq<char>>, separator: Seq<char>)
    requires
        texts.len() > 1,
    ensures
        joined(texts, separator) == texts[0] + separator + joined(texts.skip(1), separator),
    decreases texts.len(),
{
    let rest = texts.skip(1);
    assert(texts.last() == rest.last());
    if texts.len() == 2 {
        assert(joined(texts.drop_last(), separator) == texts[0]);
        assert(joined(rest, separator) == rest[0]);
    } else {
        let front = texts.drop_last();
        lemma_joined_from_the_front(front, separator);
        assert(front.skip(1) =~= rest.drop_last());
        assert(front[0] == texts[0]);
        assert(joined(texts, separator) =~= texts[0] + separator + joined(rest, separator));
    }
}

proof fn lemma_joined_is_put_together(texts: Seq<Seq<char>>, ch: char)
    requires
        texts.len() > 0,
    ensures
        joined(texts, seq![ch]) == put_together(texts, ch),
    decreases texts.len(),
{
    if texts.len() > 1 {
        lemma_joined_from_the_front(texts, seq![ch]);
        lemma_joined_is_put_together(texts.skip(1), ch);
    }
}

proof fn lemma_kept_params(params: Seq<Seq<char>>, dropped: Seq<char>)
    ensures
        forall|i: int|
            0 <= i < params.len() && params[i].len() > 0 && !has_prefix(params[i], dropped)
                ==> kept_params(params, dropped).contains(#[trigger] params[i]),
        forall|i: int|
            0 <= i < kept_params(params, dropped).len() ==> params.contains(
                #[trigger] kept_params(params, dropped)[i],
            ),
        (forall|i: int|
            0 <= i < params.len() ==> (#[trigger] params[i]).len() > 0 && !has_prefix(
                params[i],
                dropped,
            )) ==> kept_params(params, dropped) == params,
    decreases params.len(),
{
    if params.len() > 0 {
        let before = params.drop_last();
        let kept = kept_params(params, dropped);
        let first = kept_params(before, dropped);
        lemma_kept_params(before, dropped);
        assert forall|i: int|
            0 <= i < params.len() && params[i].len() > 0 && !has_prefix(
                params[i],
                dropped,
            ) implies kept.contains(#[trigger] params[i]) by {
            if i < before.len() {
                assert(before[i] == params[i]);
                let k = first.index_of(params[i]);
                assert(kept[k] == params[i]);
            } else {
                assert(kept.last() == params[i]);
            }
        }
        assert forall|i: int| 0 <= i < kept.len() implies params.contains(#[trigger] kept[i]) by {
            if i < first.len() {
                assert(kept[i] == first[i]);
                let k = before.index_of(first[i]);
                assert(params[k] == kept[i]);
            } else {
                assert(params[params.len() - 1] == kept[i]);
            }
        }
        if forall|i: int|
            0 <= i < params.len() ==> (#[trigger] params[i]).len() > 0 && !has_prefix(
                params[i],
                dropped,
            ) {
            assert forall|i: int| 0 <= i < before.len() implies (#[trigger] before[i]).len() > 0
                && !has_prefix(before[i], dropped) by {
                assert(before[i] == params[i]);
            }
            assert(params.last() == params[params.len() - 1]);
            assert(kept =~= params);
        }
    }
}

/// A query that has no `beta` parameter and no empty one is sent as it is. One that has loses those
/// and no other.
pub proof fn other_parameters_are_sent(query: Seq<char>)
    ensures
        (forall|i: int|
            0 <= i < pieces(query, '&').len() ==> (#[trigger] pieces(query, '&')[i]).len() > 0
                && !has_prefix(pieces(query, '&')[i], "beta="@)) ==> without_beta(Some(query))
            == Some(query),
        forall|i: int|
            0 <= i < pieces(query, '&').len() && pieces(query, '&')[i].len() > 0 && !has_prefix(
                pieces(query, '&')[i],
                "beta="@,
            ) ==> kept_params(pieces(query, '&'), "beta="@).contains(
                #[trigger] pieces(query, '&')[i],
            ),
        forall|i: int|
            0 <= i < kept_params(pieces(query, '&'), "beta="@).len() ==> pieces(
                query,
                '&',
            ).contains(#[trigger] kept_params(pieces(query, '&'), "beta="@)[i]),
        without_beta(None) is None,
{
    let params = pieces(query, '&');
    pieces_make_up_the_text(query, '&');
    lemma_kept_params(params, "beta="@);
    reveal_strlit("&");
    assert("&"@ =~= seq!['&']);
    lemma_joined_is_put_together(params, '&');
    if forall|i: int|
        0 <= i < params.len() ==> (#[trigger] params[i]).len() > 0 && !has_prefix(
            params[i],
            "beta="@,
        ) {
        assert(params[0].len() > 0);
        if params.len() > 1 {
            lemma_joined_from_the_front(params, "&"@);
        }
        assert(query.len() > 0);
    }
}

/// An extra parameter is added to a query, and takes the place of an `alt` parameter in it.
pub proof fn extra_parameters_come_last(query: Seq<char>, extra: Seq<char>)
    ensures
        merged_query(None, Some(extra)) == Some(extra),
        merged_query(None, None) is None,
        (forall|i: int|
            0 <= i < pieces(query, '&').len() ==> (#[trigger] pieces(query, '&')[i]).len() > 0
                && !has_prefix(pieces(query, '&')[i], "alt="@)) ==> merged_query(
            Some(query),
            Some(extra),
        ) == Some(query + "&"@ + extra) && merged_query(Some(query), None) == Some(query),
        (forall|i: int|
            0 <= i < pieces(query, '&').len() ==> has_prefix(
                #[trigger] pieces(query, '&')[i],
                "alt="@,
            )) ==> merged_query(Some(query), Some(extra)) == Some(extra) && merged_query(
            Some(query),
            None,
        ) is None,
{
    let params = pieces(query, '&');
    pieces_make_up_the_text(query, '&');
    lemma_kept_params(params, "alt="@);
    kept_params_are_clean(params, "alt="@);
    reveal_strlit("&");
    assert("&"@ =~= seq!['&']);
    lemma_joined_is_put_together(params, '&');
    let one = Seq::<Seq<char>>::empty().push(extra);
    assert(one[0] == extra);
    assert(params.push(extra).drop_last() =~= params);
    if forall|i: int|
        0 <= i < params.len() ==> has_prefix(#[trigger] params[i], "alt="@) {
        let kept = kept_params(params, "alt="@);
        if kept.len() > 0 {
            let k = params.index_of(kept[0]);
            assert(has_prefix(params[k], "alt="@));
            assert(!has_prefix(kept[0], "alt="@));
        }
        assert(kept =~= Seq::<Seq<char>>::empty());
    }
}

/// A query follows its path behind a question mark, and can be read back.
pub proof fn queries_follow_their_path(path: Seq<char>, query: Seq<char>)
    requires
        !path.contains('?'),
    ensures
        query.len() > 0 ==> split_first(with_query(path, Some(query)), '?') == (path, Some(query)),
        with_query(path, None) == path,
        with_query(path, Some(Seq::<char>::empty())) == path,
{
    reveal_strlit("?");
    assert("?"@ =~= seq!['?']);
    texts_are_cut_at_the_first_occurrence(path, '?', query);
}

/// A request to the messages endpoint goes to that of the protocol it is converted to, with what it
/// had for a query; a request to any other endpoint goes where it went.
pub proof fn messages_go_to_the_endpoint_of_the_protocol(
    path: Seq<char>,
    format: Seq<char>,
    is_copilot: bool,
    body: JsonView,
    prefix: Seq<char>,
)
    requires
        !path.contains('?'),
    ensures
        ({
            let sent = claude_transform(path, format, is_copilot, body, prefix);
            let messages = path == "/v1/messages"@ || path == prefix + "/v1/messages"@;
            &&& !messages ==> sent == (path, None::<Seq<char>>)
            &&& messages && format == "openai_responses"@ ==> sent == (
                "/v1/responses"@,
                None::<Seq<char>>,
            )
            &&& messages && format != "openai_responses"@ && format != "gemini_native"@ ==> sent
                == (
                (if is_copilot {
                    "/chat/completions"@
                } else {
                    "/v1/chat/completions"@
                }),
                None::<Seq<char>>,
            )
            &&& messages && format == "gemini_native"@ && body.member_bool("stream"@) == Some(true)
                ==> sent.1 == Some("alt=sse"@) && has_suffix(
                sent.0,
                ":streamGenerateContent?alt=sse"@,
            )
            &&& messages && format == "gemini_native"@ && body.member_bool("stream"@) != Some(true)
                ==> sent.1 is None && has_suffix(sent.0, ":generateContent"@)
            &&& messages && format == "gemini_native"@ ==> has_prefix(sent.0, "/v1beta/models/"@)
        }),
{
    reveal_strlit("openai_responses");
    reveal_strlit("gemini_native");
    assert("openai_responses"@.len() == 16);
    assert("gemini_native"@.len() == 13);
    texts_are_cut_at_the_first_occurrence(path, '?', Seq::empty());
    extra_parameters_come_last(Seq::empty(), "alt=sse"@);
    reveal_strlit("alt=sse");
    assert("alt=sse"@.len() == 7);
    reveal_strlit(":streamGenerateContent");
    reveal_strlit("?");
    reveal_strlit(":streamGenerateContent?alt=sse");
    assert(":streamGenerateContent"@ + "?"@ + "alt=sse"@ =~= ":streamGenerateContent?alt=sse"@);
    let model = gemini_body_model(body);
    let stream = gemini_path(model, true) + "?"@ + "alt=sse"@;
    assert(stream =~= "/v1beta/models/"@ + (model + ":streamGenerateContent?alt=sse"@));
    assert(stream =~= ("/v1beta/models/"@ + model) + ":streamGenerateContent?alt=sse"@);
    let plain = gemini_path(model, false);
    assert(plain =~= "/v1beta/models/"@ + (model + ":generateContent"@));
    texts_are_found_where_they_stand(
        "/v1beta/models/"@ + model,
        ":streamGenerateContent?alt=sse"@,
        Seq::empty(),
    );
    texts_are_found_where_they_stand(
        Seq::empty(),
        "/v1beta/models/"@,
        model + ":streamGenerateContent?alt=sse"@,
    );
    texts_are_found_where_they_stand("/v1beta/models/"@ + model, ":generateContent"@, Seq::empty());
    texts_are_found_where_they_stand(Seq::empty(), "/v1beta/models/"@, model + ":generateContent"@);
}

/// The endpoint of a Gemini request names the model of the body, with or without `models/` before
/// it.
pub proof fn gemini_endpoints_name_the_model(body: JsonView, model: Seq<char>, stream: bool)
    ensures
        body.member_text("model"@) == Some("models/"@ + model) ==> gemini_path(
            gemini_body_model(body),
            stream,
        ) == "/v1beta/models/"@ + model + (if stream {
            ":streamGenerateContent"@
        } else {
            ":generateContent"@
        }),
        body.member_text("model"@) == Some(model) && !has_prefix(model, "models/"@) ==> gemini_path(
            gemini_body_model(body),
            stream,
        ) == "/v1beta/models/"@ + model + (if stream {
            ":streamGenerateContent"@
        } else {
            ":generateContent"@
        }),
        body.member_text("model"@) is None ==> gemini_body_model(body) == "unknown"@,
{
    texts_are_found_where_they_stand(Seq::empty(), "models/"@, model);
}

/// Requests of Codex go to the endpoint of the protocol they are converted to, with their query; what
/// is not converted between protocols goes where it went.
pub proof fn codex_requests_go_to_the_endpoint_of_the_protocol(
    path: Seq<char>,
    query: Seq<char>,
    format: Seq<char>,
    is_copilot: bool,
    body: JsonView,
    prefix: Seq<char>,
)
    requires
        !path.contains('?'),
        query.len() > 0,
    ensures
        ({
            let endpoint = path + "?"@ + query;
            let chat = effective_target(
                Conversion::CodexToChat,
                endpoint,
                format,
                is_copilot,
                body,
                prefix,
            );
            let anthropic = effective_target(
                Conversion::CodexToAnthropic,
                endpoint,
                format,
                is_copilot,
                body,
                prefix,
            );
            let as_is = effective_target(
                Conversion::Passthrough,
                endpoint,
                format,
                is_copilot,
                body,
                prefix,
            );
            let adapted = effective_target(
                Conversion::Adapter,
                endpoint,
                format,
                is_copilot,
                body,
                prefix,
            );
            &&& chat == ("/chat/completions?"@ + query, Some(query))
            &&& anthropic == ("/v1/messages?"@ + query, Some(query))
            &&& as_is == (endpoint, Some(query))
            &&& adapted == (endpoint, Some(query))
        }),
{
    reveal_strlit("?");
    reveal_strlit("/chat/completions?");
    reveal_strlit("/chat/completions");
    reveal_strlit("/v1/messages?");
    reveal_strlit("/v1/messages");
    assert("?"@ =~= seq!['?']);
    assert("/chat/completions?"@ =~= "/chat/completions"@ + "?"@);
    assert("/v1/messages?"@ =~= "/v1/messages"@ + "?"@);
    texts_are_cut_at_the_first_occurrence(path, '?', query);
}

/// A full URL is used as it is: a query is added to it behind a question mark, or to the query it
/// has.
pub proof fn full_urls_take_up_queries(base: Seq<char>, own: Seq<char>, query: Seq<char>)
    requires
        !base.contains('?'),
        query.len() > 0,
    ensures
        full_url(base, None) == base,
        full_url(base, Some(query)) == base + "?"@ + query,
        full_url(base + "?"@ + own, Some(query)) == base + "?"@ + own + "&"@ + query,
        full_url(base + "?"@ + own, None) == base + "?"@ + own,
{
    reveal_strlit("?");
    assert("?"@ =~= seq!['?']);
    texts_are_cut_at_the_first_occurrence(base, '?', own);
    let all = base + "?"@ + own;
    first_index_is_first(all, '?');
    first_index_is_first(base, '?');
    if first_index(base, '?') < base.len() {
        assert(base.contains(base[first_index(base, '?')]));
    }
    if first_index(all, '?') >= all.len() {
        assert(all[base.len() as int] == '?');
    }
}

proof fn lemma_slashes_come_off(text: Seq<char>, count: nat)
    requires
        text.len() == 0 || text.last() != '/',
    ensures
        without_trailing(text + Seq::new(count, |i: int| '/'), '/') == text,
    decreases count,
{
    let tail = Seq::new(count, |i: int| '/');
    let all = text + tail;
    if count > 0 {
        let less = Seq::new((count - 1) as nat, |i: int| '/');
        assert(all.drop_last() =~= text + less);
        assert(all.last() == '/');
        lemma_slashes_come_off(text, (count - 1) as nat);
    } else {
        assert(all =~= text);
    }
}

/// A base URL is that of an endpoint if its path ends like it, in any case and with any slashes
/// behind it; its query does not matter.
pub proof fn endpoints_are_seen_behind_slashes(
    path: Seq<char>,
    slashes: nat,
    query: Seq<char>,
    suffix: Seq<char>,
)
    requires
        !path.contains('?'),
        !path.contains('#'),
        path.len() > 0,
        path.last() != '/',
        ({
            let base = path + Seq::new(slashes, |i: int| '/');
            &&& trimmed(base) == base
            &&& trimmed(base + seq!['?'] + query) == base + seq!['?'] + query
            &&& trimmed(base + seq!['#'] + query) == base + seq!['#'] + query
        }),
    ensures
        ({
            let base = path + Seq::new(slashes, |i: int| '/');
            let full = has_suffix(ascii_lowercase(path), suffix);
            &&& full_endpoint(base, suffix) == full
            &&& full_endpoint(base + seq!['?'] + query, suffix) == full
            &&& !query.contains('?') ==> full_endpoint(base + seq!['#'] + query, suffix) == full
        }),
{
    let tail = Seq::new(slashes, |i: int| '/');
    let base = path + tail;
    if base.contains('?') {
        let k = base.index_of('?');
        if k < path.len() {
            assert(path[k] == '?');
        } else {
            assert(tail[k - path.len()] == '?');
        }
    }
    if base.contains('#') {
        let k = base.index_of('#');
        if k < path.len() {
            assert(path[k] == '#');
        } else {
            assert(tail[k - path.len()] == '#');
        }
    }
    lemma_slashes_come_off(path, slashes);
    texts_are_cut_at_the_first_occurrence(base, '?', query);
    texts_are_cut_at_the_first_occurrence(base, '#', query);
    if !query.contains('?') {
        let other = base + seq!['#'] + query;
        if other.contains('?') {
            let k = other.index_of('?');
            if k < base.len() {
                assert(base[k] == '?');
            } else if k > base.len() {
                assert(query[k - base.len() - 1] == '?');
            }
        }
        texts_are_cut_at_the_first_occurrence(other, '?', query);
    }
}

/// The URL of a request is made for Gemini in its protocol, and else by the adapter, unless the
/// provider's URL is full or already that of the endpoint.
pub proof fn urls_are_made_for_their_protocol(
    conversion: Conversion,
    base: Seq<char>,
    is_full_url: bool,
    query: Option<Seq<char>>,
    format: Option<Seq<char>>,
)
    ensures
        format == Some("gemini_native"@) ==> url_choice(
            conversion,
            format,
            base,
            is_full_url,
            query,
        ) is Gemini,
        format != Some("gemini_native"@) && is_full_url ==> url_choice(
            conversion,
            format,
            base,
            is_full_url,
            query,
        ) == UpstreamUrlView::Full(full_url(base, query)),
        format != Some("gemini_native"@) && !is_full_url && (conversion is Passthrough
            || conversion is Claude || conversion is Adapter) ==> url_choice(
            conversion,
            format,
            base,
            is_full_url,
            query,
        ) is Build,
        format != Some("gemini_native"@) && !is_full_url && conversion is CodexToChat ==> (
        url_choice(conversion, format, base, is_full_url, query) is Build <==> !full_endpoint(
            base,
            "/chat/completions"@,
        )),
        format != Some("gemini_native"@) && !is_full_url && conversion is CodexToAnthropic ==> (
        url_choice(conversion, format, base, is_full_url, query) is Build <==> !full_endpoint(
            base,
            "/v1/messages"@,
        )),
{
}

/// Each sign of a stream is enough: the body's flag, the endpoint's action or parameter, and the
/// client's `accept` header. Without any of them there is none.
pub proof fn streams_are_asked_for(
    endpoint: Seq<char>,
    body: JsonView,
    headers: HeadersView,
    before: Seq<char>,
    after: Seq<char>,
)
    ensures
        body.member_bool("stream"@) == Some(true) ==> streaming_request(endpoint, body, headers),
        streaming_request(before + "streamGenerateContent"@ + after, body, headers),
        streaming_request(before + "alt=sse"@ + after, body, headers),
        first_text(headers, "accept"@) matches Some(accept) ==> (ascii_lowercase(accept) == before
            + "text/event-stream"@ + after ==> streaming_request(endpoint, body, headers)),
        body.member_bool("stream"@) != Some(true) && !contains_text(
            endpoint,
            "streamGenerateContent"@,
        ) && !contains_text(endpoint, "alt=sse"@) && first_text(headers, "accept"@) is None
            ==> !streaming_request(endpoint, body, headers),
{
    texts_are_found_where_they_stand(before, "streamGenerateContent"@, after);
    texts_are_found_where_they_stand(before, "alt=sse"@, after);
    texts_are_found_where_they_stand(before, "text/event-stream"@, after);
}

/// A provider's URL is full where that is set, unless it signs in with an account of its own; and a
/// provider is Copilot by its kind or by its URL.
pub proof fn providers_say_where_they_are(provider: ProviderView, before: Seq<char>, after: Seq<char>)
    ensures
        provider.meta is None ==> !full_url_provider(provider),
        provider.meta matches Some(meta) ==> {
            &&& meta.is_full_url != Some(true) ==> !full_url_provider(provider)
            &&& meta.provider_type == Some("codex_oauth"@) || meta.provider_type == Some(
                "xai_oauth"@,
            ) ==> !full_url_provider(provider)
            &&& meta.is_full_url == Some(true) && meta.provider_type != Some("codex_oauth"@)
                && meta.provider_type != Some("xai_oauth"@) ==> full_url_provider(provider)
            &&& meta.provider_type == Some("github_copilot"@) ==> copilot_target(provider, before)
            &&& meta.provider_type != Some("github_copilot"@) && !contains_text(
                before,
                "githubcopilot.com"@,
            ) ==> !copilot_target(provider, before)
        },
        copilot_target(provider, before + "githubcopilot.com"@ + after),
{
    texts_are_found_where_they_stand(before, "githubcopilot.com"@, after);
}

/// Headers keep the case they came in only on the way to a native Anthropic upstream.
pub proof fn headers_keep_their_case_on_the_native_way(
    adapter: AdapterKind,
    provider: ProviderView,
    format: Option<Seq<char>>,
    is_copilot: bool,
)
    ensures
        exact_header_case(adapter, provider, format, is_copilot) ==> adapter is Claude && !is_copilot
            && (format matches Some(named) ==> named == "anthropic"@),
        provider.meta is None && adapter is Claude && format is None ==> exact_header_case(
            adapter,
            provider,
            format,
            false,
        ),
        provider.meta matches Some(meta) ==> {
            &&& meta.provider_type == Some("codex_oauth"@) || meta.provider_type == Some(
                "xai_oauth"@,
            ) ==> !exact_header_case(adapter, provider, format, is_copilot)
            &&& meta.provider_type is None && adapter is Claude && format == Some("anthropic"@)
                ==> exact_header_case(adapter, provider, format, false)
        },
{
}

/// Copilot is spoken to in the Responses protocol for the models of OpenAI, however that is written,
/// and in chat completions for all others.
pub proof fn copilot_is_spoken_to_by_the_vendor(vendor: &str, format: &'static str)
    requires
        call_ensures(copilot_api_format, (Some(vendor),), format),
    ensures
        ascii_lowercase(vendor@) == ascii_lowercase("openai"@) ==> format@ == "openai_responses"@,
        ascii_lowercase(vendor@) != ascii_lowercase("openai"@) ==> format@ == "openai_chat"@,
{
}

} // verus!
