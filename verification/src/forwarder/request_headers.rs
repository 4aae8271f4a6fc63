//! The headers of a request on its way to the upstream.
//!
//! The client's headers keep their order. Each is passed on, replaced in its place, or dropped;
//! what the upstream needs and the client did not send is added at the end.

use vstd::prelude::*;
use vstd::string::*;
use vstd::utf8::*;
use crate::error::{ProxyError, ProxyErrorView};
use crate::headers::{
    first_text, first_value, header_name, header_text, header_value, text_name, text_value,
    visible_text, with_header, Headers, HeadersView,
};
use crate::provider::{pairs_view, LocalProxyRequestOverrides};
use crate::text::{
    ascii_lowercase, contains, contains_text, ends_with, eq_ignore_ascii_case, has_prefix,
    has_suffix, join, opt_view, same_text, starts_with, to_ascii_lowercase, trim, trimmed,
};

verus! {

/// Whether a header controls the role routing of this proxy.
#[verifier::opaque]
pub open spec fn role_control(name: Seq<char>) -> bool {
    let lower = ascii_lowercase(name);
    ||| lower == ascii_lowercase("x-cc-switch-role-route"@)
    ||| lower == ascii_lowercase("x-cc-switch-role-owner"@)
    ||| lower == ascii_lowercase("x-cc-switch-role-token"@)
}

/// Whether a header controls the role routing of this proxy.
pub fn is_codex_role_control_header(name: &str) -> (is: bool)
    ensures
        is == role_control(name@),
{
    proof {
        reveal(role_control);
    }
    eq_ignore_ascii_case(name, "x-cc-switch-role-route") || eq_ignore_ascii_case(
        name,
        "x-cc-switch-role-owner",
    ) || eq_ignore_ascii_case(name, "x-cc-switch-role-token")
}

/// Whether a header names the Codex client or its session.
#[verifier::opaque]
pub open spec fn codex_fingerprint(name: Seq<char>) -> bool {
    ||| name == "originator"@
    ||| name == "session_id"@
    ||| name == "session-id"@
    ||| name == "thread-id"@
    ||| name == "conversation_id"@
    ||| name == "chatgpt-account-id"@
    ||| name == "x-openai-subagent"@
    ||| name == "x-client-request-id"@
    ||| name == "openai-beta"@
    ||| name == "openai-organization"@
    ||| name == "openai-project"@
    ||| has_prefix(name, "x-stainless-"@)
    ||| has_prefix(name, "x-codex-"@)
}

/// Whether a header names the Codex client or its session.
pub fn is_codex_client_fingerprint_header(name: &str) -> (is: bool)
    ensures
        is == codex_fingerprint(name@),
{
    proof {
        reveal(codex_fingerprint);
    }
    same_text(name, "originator") || same_text(name, "session_id") || same_text(name, "session-id")
        || same_text(name, "thread-id") || same_text(name, "conversation_id") || same_text(
        name,
        "chatgpt-account-id",
    ) || same_text(name, "x-openai-subagent") || same_text(name, "x-client-request-id")
        || same_text(name, "openai-beta") || same_text(name, "openai-organization") || same_text(
        name,
        "openai-project",
    ) || starts_with(name, "x-stainless-") || starts_with(name, "x-codex-")
}

/// Whether a header tells of the way a request came: forwarding, content delivery, tracing.
#[verifier::opaque]
pub open spec fn hop_header(name: Seq<char>) -> bool {
    ||| name == "x-forwarded-host"@
    ||| name == "x-forwarded-port"@
    ||| name == "x-forwarded-proto"@
    ||| name == "forwarded"@
    ||| name == "cf-connecting-ip"@
    ||| name == "cf-ipcountry"@
    ||| name == "cf-ray"@
    ||| name == "cf-visitor"@
    ||| name == "true-client-ip"@
    ||| name == "fastly-client-ip"@
    ||| name == "x-azure-clientip"@
    ||| name == "x-azure-fdid"@
    ||| name == "x-azure-ref"@
    ||| name == "akamai-origin-hop"@
    ||| name == "x-akamai-config-log-detail"@
    ||| name == "x-request-id"@
    ||| name == "x-correlation-id"@
    ||| name == "x-trace-id"@
    ||| name == "x-amzn-trace-id"@
    ||| name == "x-b3-traceid"@
    ||| name == "x-b3-spanid"@
    ||| name == "x-b3-parentspanid"@
    ||| name == "x-b3-sampled"@
    ||| name == "traceparent"@
    ||| name == "tracestate"@
}

fn is_hop_header(name: &str) -> (is: bool)
    ensures
        is == hop_header(name@),
{
    proof {
        reveal(hop_header);
    }
    same_text(name, "x-forwarded-host") || same_text(name, "x-forwarded-port") || same_text(
        name,
        "x-forwarded-proto",
    ) || same_text(name, "forwarded") || same_text(name, "cf-connecting-ip") || same_text(
        name,
        "cf-ipcountry",
    ) || same_text(name, "cf-ray") || same_text(name, "cf-visitor") || same_text(
        name,
        "true-client-ip",
    ) || same_text(name, "fastly-client-ip") || same_text(name, "x-azure-clientip") || same_text(
        name,
        "x-azure-fdid",
    ) || same_text(name, "x-azure-ref") || same_text(name, "akamai-origin-hop") || same_text(
        name,
        "x-akamai-config-log-detail",
    ) || same_text(name, "x-request-id") || same_text(name, "x-correlation-id") || same_text(
        name,
        "x-trace-id",
    ) || same_text(name, "x-amzn-trace-id") || same_text(name, "x-b3-traceid") || same_text(
        name,
        "x-b3-spanid",
    ) || same_text(name, "x-b3-parentspanid") || same_text(name, "x-b3-sampled") || same_text(
        name,
        "traceparent",
    ) || same_text(name, "tracestate")
}

/// Whether a header of the client is never passed on.
pub open spec fn never_forwarded(name: Seq<char>) -> bool {
    name == "content-length"@ || name == "transfer-encoding"@ || hop_header(name)
}

/// Whether a header carries credentials.
pub open spec fn credential(name: Seq<char>) -> bool {
    name == "authorization"@ || name == "x-api-key"@ || name == "x-goog-api-key"@
}

/// Whether a header is part of the fingerprint that Copilot requests are sent with.
#[verifier::opaque]
pub open spec fn copilot_fingerprint(name: Seq<char>) -> bool {
    ||| name == "user-agent"@
    ||| name == "editor-version"@
    ||| name == "editor-plugin-version"@
    ||| name == "copilot-integration-id"@
    ||| name == "x-github-api-version"@
    ||| name == "openai-intent"@
    ||| name == "x-initiator"@
    ||| name == "x-interaction-type"@
    ||| name == "x-interaction-id"@
    ||| name == "x-vscode-user-agent-library-version"@
    ||| name == "x-request-id"@
    ||| name == "x-agent-task-id"@
}

fn is_copilot_fingerprint(name: &str) -> (is: bool)
    ensures
        is == copilot_fingerprint(name@),
{
    proof {
        reveal(copilot_fingerprint);
    }
    same_text(name, "user-agent") || same_text(name, "editor-version") || same_text(
        name,
        "editor-plugin-version",
    ) || same_text(name, "copilot-integration-id") || same_text(name, "x-github-api-version")
        || same_text(name, "openai-intent") || same_text(name, "x-initiator") || same_text(
        name,
        "x-interaction-type",
    ) || same_text(name, "x-interaction-id") || same_text(
        name,
        "x-vscode-user-agent-library-version",
    ) || same_text(name, "x-request-id") || same_text(name, "x-agent-task-id")
}

/// What the headers of a request depend on beside the client's own.
#[derive(Debug)]
pub struct HeaderPlan {
    /// The authority of the upstream's URL.
    pub upstream_host: Option<String>,
    /// The headers that sign the request in.
    pub auth_headers: Headers,
    /// Whether the client's own authorization is passed on.
    pub official_auth_passthrough: bool,
    /// Whether a Codex request goes out as an Anthropic one.
    pub codex_to_anthropic: bool,
    /// Whether such a request looks like one of the native client.
    pub impersonate_claude_code: bool,
    /// Whether the upstream must not compress its response.
    pub force_identity: bool,
    pub is_copilot: bool,
    /// The user agent that replaces the client's.
    pub custom_user_agent: Option<Vec<u8>>,
    /// The value of `anthropic-beta`.
    pub anthropic_beta: Option<String>,
    /// Whether the request is a native Anthropic one.
    pub send_anthropic_headers: bool,
    /// The headers that name the client's session to the upstream.
    pub session_headers: Headers,
}

/// A header plan as a mathematical value.
pub struct HeaderPlanView {
    pub upstream_host: Option<Seq<char>>,
    pub auth_headers: HeadersView,
    pub official_auth_passthrough: bool,
    pub codex_to_anthropic: bool,
    pub impersonate_claude_code: bool,
    pub force_identity: bool,
    pub is_copilot: bool,
    pub custom_user_agent: Option<Seq<u8>>,
    pub anthropic_beta: Option<Seq<char>>,
    pub send_anthropic_headers: bool,
    pub session_headers: HeadersView,
}

impl View for HeaderPlan {
    type V = HeaderPlanView;

    open spec fn view(&self) -> HeaderPlanView {
        HeaderPlanView {
            upstream_host: opt_view(self.upstream_host),
            auth_headers: self.auth_headers@,
            official_auth_passthrough: self.official_auth_passthrough,
            codex_to_anthropic: self.codex_to_anthropic,
            impersonate_claude_code: self.impersonate_claude_code,
            force_identity: self.force_identity,
            is_copilot: self.is_copilot,
            custom_user_agent: match self.custom_user_agent {
                Some(agent) => Some(agent@),
                None => None,
            },
            anthropic_beta: opt_view(self.anthropic_beta),
            send_anthropic_headers: self.send_anthropic_headers,
            session_headers: self.session_headers@,
        }
    }
}

/// Which headers the client sent, of those that are replaced or added.
#[derive(Debug, Clone, Copy, PartialEq, Eq, Structural)]
pub struct SeenHeaders {
    pub auth: bool,
    pub accept_encoding: bool,
    pub accept: bool,
    pub user_agent: bool,
    pub anthropic_beta: bool,
    pub anthropic_version: bool,
}

impl SeenHeaders {
    /// Nothing was seen yet.
    pub open spec fn nothing() -> SeenHeaders {
        SeenHeaders {
            auth: false,
            accept_encoding: false,
            accept: false,
            user_agent: false,
            anthropic_beta: false,
            anthropic_version: false,
        }
    }
}

/// One header with a text for its value.
pub open spec fn one(name: Seq<char>, value: Seq<char>) -> HeadersView {
    seq![(name, encode_utf8(value))]
}

/// The `anthropic-beta` header, where it has a value that may stand in a header.
pub open spec fn beta_header(plan: HeaderPlanView) -> HeadersView {
    match plan.anthropic_beta {
        Some(beta) => match text_value(beta) {
            Some(value) => seq![("anthropic-beta"@, value)],
            None => Seq::empty(),
        },
        None => Seq::empty(),
    }
}

/// What becomes of a header of the client, and what was seen with it.
#[verifier::opaque]
pub open spec fn forwarded(
    plan: HeaderPlanView,
    seen: SeenHeaders,
    name: Seq<char>,
    value: Seq<u8>,
) -> (SeenHeaders, HeadersView) {
    let own = seq![(name, value)];
    let nothing: HeadersView = Seq::empty();
    if role_control(name) {
        (seen, nothing)
    } else if name == "host"@ {
        (
            seen,
            match plan.upstream_host {
                Some(host) => match text_value(host) {
                    Some(host) => seq![(name, host)],
                    None => nothing,
                },
                None => nothing,
            },
        )
    } else if never_forwarded(name) {
        (seen, nothing)
    } else if credential(name) {
        (
            SeenHeaders { auth: true, ..seen },
            if plan.official_auth_passthrough && name == "authorization"@ {
                own
            } else if !seen.auth {
                plan.auth_headers
            } else {
                nothing
            },
        )
    } else if plan.impersonate_claude_code && name == "x-app"@ {
        (seen, nothing)
    } else if plan.codex_to_anthropic && codex_fingerprint(name) {
        (seen, nothing)
    } else if plan.codex_to_anthropic && name == "accept"@ {
        (
            SeenHeaders { accept: true, ..seen },
            if !seen.accept {
                one("accept"@, "application/json"@)
            } else {
                nothing
            },
        )
    } else if name == "accept-encoding"@ {
        (
            SeenHeaders { accept_encoding: true, ..seen },
            if seen.accept_encoding {
                nothing
            } else if plan.force_identity {
                one("accept-encoding"@, "identity"@)
            } else {
                own
            },
        )
    } else if !plan.is_copilot && name == "user-agent"@ {
        (
            SeenHeaders { user_agent: true, ..seen },
            if seen.user_agent {
                nothing
            } else {
                match plan.custom_user_agent {
                    Some(agent) => seq![("user-agent"@, agent)],
                    None => own,
                }
            },
        )
    } else if name == "anthropic-beta"@ {
        (
            SeenHeaders { anthropic_beta: true, ..seen },
            if seen.anthropic_beta {
                nothing
            } else {
                beta_header(plan)
            },
        )
    } else if name == "anthropic-version"@ {
        if plan.send_anthropic_headers {
            (SeenHeaders { anthropic_version: true, ..seen }, own)
        } else {
            (seen, nothing)
        }
    } else if plan.is_copilot && copilot_fingerprint(name) {
        (seen, nothing)
    } else {
        (seen, own)
    }
}

/// What becomes of the client's headers, in order.
pub open spec fn forwarded_all(plan: HeaderPlanView, client: HeadersView) -> (
    SeenHeaders,
    HeadersView,
)
    decreases client.len(),
{
    if client.len() == 0 {
        (SeenHeaders::nothing(), Seq::empty())
    } else {
        let before = forwarded_all(plan, client.drop_last());
        let last = forwarded(plan, before.0, client.last().0, client.last().1);
        (last.0, before.1 + last.1)
    }
}

/// What is added after the client's headers.
pub open spec fn added(plan: HeaderPlanView, seen: SeenHeaders) -> HeadersView {
    let nothing: HeadersView = Seq::empty();
    (if !seen.auth {
        plan.auth_headers
    } else {
        nothing
    }) + (if !seen.accept_encoding && plan.force_identity {
        one("accept-encoding"@, "identity"@)
    } else {
        nothing
    }) + (if plan.codex_to_anthropic && !seen.accept {
        one("accept"@, "application/json"@)
    } else {
        nothing
    }) + (if plan.impersonate_claude_code {
        one("x-app"@, "cli"@)
    } else {
        nothing
    }) + (match plan.custom_user_agent {
        Some(agent) if !seen.user_agent => seq![("user-agent"@, agent)],
        _ => nothing,
    }) + (if !seen.anthropic_beta {
        beta_header(plan)
    } else {
        nothing
    }) + (if (plan.send_anthropic_headers || plan.codex_to_anthropic) && !seen.anthropic_version {
        one("anthropic-version"@, "2023-06-01"@)
    } else {
        nothing
    })
}

/// Headers set one after another.
pub open spec fn with_headers(headers: HeadersView, more: HeadersView) -> HeadersView
    decreases more.len(),
{
    if more.len() == 0 {
        headers
    } else {
        with_header(with_headers(headers, more.drop_last()), more.last().0, more.last().1)
    }
}

/// The headers of a request before the provider's own overrides.
pub open spec fn upstream_headers(plan: HeaderPlanView, client: HeadersView) -> HeadersView {
    let run = forwarded_all(plan, client);
    let signed = with_headers(run.1 + added(plan, run.0), plan.session_headers);
    if first_value(signed, "content-type"@) is None {
        with_header(signed, "content-type"@, encode_utf8("application/json"@))
    } else {
        signed
    }
}

fn append_all(out: &mut Headers, more: &Headers)
    ensures
        final(out)@ == old(out)@ + more@,
{
    let mut i: usize = 0;
    assert(out@ + more@.take(0) =~= out@);
    while i < more.entries.len()
        invariant
            i <= more.entries@.len(),
            out@ == old(out)@ + more@.take(i as int),
        decreases more.entries@.len() - i,
    {
        out.append(more.entries[i].0.as_str(), more.entries[i].1.as_slice());
        assert(more@[i as int] == (more.entries@[i as int].0@, more.entries@[i as int].1@));
        assert(more@.take(i + 1) =~= more@.take(i as int).push(more@[i as int]));
        assert(out@ =~= old(out)@ + more@.take(i + 1));
        i = i + 1;
    }
    assert(more@.take(i as int) =~= more@);
}

fn append_text(out: &mut Headers, name: &str, value: &str)
    ensures
        final(out)@ == old(out)@ + one(name@, value@),
{
    out.append(name, value.as_bytes());
    assert(out@ =~= old(out)@ + one(name@, value@));
}

fn append_beta(out: &mut Headers, plan: &HeaderPlan)
    ensures
        final(out)@ == old(out)@ + beta_header(plan@),
{
    if let Some(beta) = &plan.anthropic_beta {
        if let Some(value) = header_value(beta.as_str()) {
            out.append("anthropic-beta", value.as_slice());
        }
    }
    assert(out@ =~= old(out)@ + beta_header(plan@));
}

/// Passes on, replaces or drops a header of the client.
fn forward_header(
    plan: &HeaderPlan,
    seen: SeenHeaders,
    name: &str,
    value: &[u8],
    out: &mut Headers,
) -> (now: SeenHeaders)
    ensures
        now == forwarded(plan@, seen, name@, value@).0,
        final(out)@ == old(out)@ + forwarded(plan@, seen, name@, value@).1,
{
    proof {
        reveal(forwarded);
    }
    let mut now = seen;
    if is_codex_role_control_header(name) {
    } else if same_text(name, "host") {
        if let Some(host) = &plan.upstream_host {
            if let Some(host) = header_value(host.as_str()) {
                out.append(name, host.as_slice());
            }
        }
    } else if same_text(name, "content-length") || same_text(name, "transfer-encoding")
        || is_hop_header(name) {
    } else if same_text(name, "authorization") || same_text(name, "x-api-key") || same_text(
        name,
        "x-goog-api-key",
    ) {
        now.auth = true;
        if plan.official_auth_passthrough && same_text(name, "authorization") {
            out.append(name, value);
        } else if !seen.auth {
            append_all(out, &plan.auth_headers);
        }
    } else if plan.impersonate_claude_code && same_text(name, "x-app") {
    } else if plan.codex_to_anthropic && is_codex_client_fingerprint_header(name) {
    } else if plan.codex_to_anthropic && same_text(name, "accept") {
        now.accept = true;
        if !seen.accept {
            append_text(out, "accept", "application/json");
        }
    } else if same_text(name, "accept-encoding") {
        now.accept_encoding = true;
        if !seen.accept_encoding {
            if plan.force_identity {
                append_text(out, "accept-encoding", "identity");
            } else {
                out.append(name, value);
            }
        }
    } else if !plan.is_copilot && same_text(name, "user-agent") {
        now.user_agent = true;
        if !seen.user_agent {
            match &plan.custom_user_agent {
                Some(agent) => {
                    out.append("user-agent", agent.as_slice());
                },
                None => {
                    out.append(name, value);
                },
            }
        }
    } else if same_text(name, "anthropic-beta") {
        now.anthropic_beta = true;
        if !seen.anthropic_beta {
            append_beta(out, plan);
        }
    } else if same_text(name, "anthropic-version") {
        if plan.send_anthropic_headers {
            now.anthropic_version = true;
            out.append(name, value);
        }
    } else if plan.is_copilot && is_copilot_fingerprint(name) {
    } else {
        out.append(name, value);
    }
    assert(out@ =~= old(out)@ + forwarded(plan@, seen, name@, value@).1);
    now
}

/// Adds what the upstream needs and the client did not send.
fn append_added(plan: &HeaderPlan, seen: SeenHeaders, out: &mut Headers)
    ensures
        final(out)@ == old(out)@ + added(plan@, seen),
{
    let mut more = Headers::new();
    if !seen.auth {
        append_all(&mut more, &plan.auth_headers);
    }
    let ghost auth = more@;
    assert(auth =~= (if !seen.auth {
        plan@.auth_headers
    } else {
        Seq::empty()
    }));
    if !seen.accept_encoding && plan.force_identity {
        append_text(&mut more, "accept-encoding", "identity");
    } else {
        assert(more@ =~= more@ + Seq::<(Seq<char>, Seq<u8>)>::empty());
    }
    if plan.codex_to_anthropic && !seen.accept {
        append_text(&mut more, "accept", "application/json");
    } else {
        assert(more@ =~= more@ + Seq::<(Seq<char>, Seq<u8>)>::empty());
    }
    if plan.impersonate_claude_code {
        append_text(&mut more, "x-app", "cli");
    } else {
        assert(more@ =~= more@ + Seq::<(Seq<char>, Seq<u8>)>::empty());
    }
    let ghost before_agent = more@;
    if !seen.user_agent {
        if let Some(agent) = &plan.custom_user_agent {
            more.append("user-agent", agent.as_slice());
        }
    }
    assert(more@ =~= before_agent + (match plan@.custom_user_agent {
        Some(agent) if !seen.user_agent => seq![("user-agent"@, agent)],
        _ => Seq::empty(),
    }));
    if !seen.anthropic_beta {
        append_beta(&mut more, plan);
    } else {
        assert(more@ =~= more@ + Seq::<(Seq<char>, Seq<u8>)>::empty());
    }
    if (plan.send_anthropic_headers || plan.codex_to_anthropic) && !seen.anthropic_version {
        append_text(&mut more, "anthropic-version", "2023-06-01");
    } else {
        assert(more@ =~= more@ + Seq::<(Seq<char>, Seq<u8>)>::empty());
    }
    assert(more@ == added(plan@, seen));
    append_all(out, &more);
}

/// The headers of a request before the provider's own overrides.
pub fn build_upstream_headers(plan: &HeaderPlan, client: &Headers) -> (headers: Headers)
    ensures
        headers@ == upstream_headers(plan@, client@),
{
    let mut out = Headers::new();
    let mut seen = SeenHeaders {
        auth: false,
        accept_encoding: false,
        accept: false,
        user_agent: false,
        anthropic_beta: false,
        anthropic_version: false,
    };
    let mut i: usize = 0;
    while i < client.entries.len()
        invariant
            i <= client.entries@.len(),
            (seen, out@) == forwarded_all(plan@, client@.take(i as int)),
        decreases client.entries@.len() - i,
    {
        assert(client@.take(i + 1).drop_last() =~= client@.take(i as int));
        assert(client@.take(i + 1).last() == (
            client.entries@[i as int].0@,
            client.entries@[i as int].1@,
        ));
        seen =
        forward_header(
            plan,
            seen,
            client.entries[i].0.as_str(),
            client.entries[i].1.as_slice(),
            &mut out,
        );
        i = i + 1;
    }
    assert(client@.take(i as int) =~= client@);
    append_added(plan, seen, &mut out);
    let ghost unsigned = out@;
    let mut k: usize = 0;
    let session = &plan.session_headers;
    assert(session@.take(0) =~= Seq::<(Seq<char>, Seq<u8>)>::empty());
    while k < session.entries.len()
        invariant
            k <= session.entries@.len(),
            out@ == with_headers(unsigned, session@.take(k as int)),
        decreases session.entries@.len() - k,
    {
        assert(session@.take(k + 1).drop_last() =~= session@.take(k as int));
        assert(session@.take(k + 1).last() == (
            session.entries@[k as int].0@,
            session.entries@[k as int].1@,
        ));
        out.insert(session.entries[k].0.as_str(), session.entries[k].1.as_slice());
        k = k + 1;
    }
    assert(session@.take(k as int) =~= session@);
    if !out.has("content-type") {
        out.insert("content-type", "application/json".as_bytes());
    }
    out
}

/// Whether a provider may not override a header: what carries credentials, names the session or
/// the way, controls roles, or belongs to the transport.
#[verifier::opaque]
pub open spec fn protected_header(name: Seq<char>) -> bool {
    ||| role_control(name)
    ||| hop_header(name)
    ||| credential(name)
    ||| name == "host"@
    ||| name == "content-length"@
    ||| name == "transfer-encoding"@
    ||| name == "connection"@
    ||| name == "proxy-authorization"@
    ||| name == "proxy-authenticate"@
    ||| name == "te"@
    ||| name == "trailer"@
    ||| name == "upgrade"@
    ||| name == "accept-encoding"@
    ||| name == "content-type"@
    ||| name == "chatgpt-account-id"@
    ||| name == "session_id"@
    ||| name == "x-client-request-id"@
    ||| name == "x-codex-window-id"@
}

/// Whether a provider may not override a header.
pub fn is_protected_local_proxy_override_header(name: &str) -> (is: bool)
    ensures
        is == protected_header(name@),
{
    proof {
        reveal(protected_header);
    }
    is_codex_role_control_header(name) || is_hop_header(name) || same_text(name, "authorization")
        || same_text(name, "x-api-key") || same_text(name, "x-goog-api-key") || same_text(
        name,
        "host",
    ) || same_text(name, "content-length") || same_text(name, "transfer-encoding") || same_text(
        name,
        "connection",
    ) || same_text(name, "proxy-authorization") || same_text(name, "proxy-authenticate")
        || same_text(name, "te") || same_text(name, "trailer") || same_text(name, "upgrade")
        || same_text(name, "accept-encoding") || same_text(name, "content-type") || same_text(
        name,
        "chatgpt-account-id",
    ) || same_text(name, "session_id") || same_text(name, "x-client-request-id") || same_text(
        name,
        "x-codex-window-id",
    )
}

/// The header that an override sets, where it sets one.
pub open spec fn override_header(name: Seq<char>, value: Seq<char>) -> Option<
    (Seq<char>, Seq<u8>),
> {
    match text_name(ascii_lowercase(trimmed(name))) {
        Some(name) if !protected_header(name) => match text_value(value) {
            Some(value) => Some((name, value)),
            None => None,
        },
        _ => None,
    }
}

/// Headers with a list of overrides applied in turn.
pub open spec fn overridden(
    headers: HeadersView,
    overrides: Seq<(Seq<char>, Seq<char>)>,
) -> HeadersView
    decreases overrides.len(),
{
    if overrides.len() == 0 {
        headers
    } else {
        let before = overridden(headers, overrides.drop_last());
        match override_header(overrides.last().0, overrides.last().1) {
            Some((name, value)) => with_header(before, name, value),
            None => before,
        }
    }
}

/// Applies a provider's header overrides. Those that are protected or no valid headers are left
/// out, and a Copilot request keeps its fingerprint.
pub fn apply_local_proxy_header_overrides(
    headers: &mut Headers,
    overrides: Option<&LocalProxyRequestOverrides>,
    is_copilot: bool,
)
    ensures
        final(headers)@ == (match overrides {
            Some(overrides) if !is_copilot => overridden(old(headers)@, overrides@.headers),
            _ => old(headers)@,
        }),
{
    if is_copilot {
        return;
    }
    let list = match overrides {
        Some(overrides) => &overrides.headers,
        None => {
            return;
        },
    };
    let ghost views = pairs_view(list@);
    let mut i: usize = 0;
    assert(views.take(0) =~= Seq::<(Seq<char>, Seq<char>)>::empty());
    while i < list.len()
        invariant
            i <= list@.len(),
            views == pairs_view(list@),
            headers@ == overridden(old(headers)@, views.take(i as int)),
        decreases list@.len() - i,
    {
        assert(views.take(i + 1).drop_last() =~= views.take(i as int));
        assert(views.take(i + 1).last() == (list@[i as int].0@, list@[i as int].1@));
        let lower = to_ascii_lowercase(trim(list[i].0.as_str()));
        if let Some(name) = header_name(lower.as_str()) {
            if !is_protected_local_proxy_override_header(name.as_str()) {
                if let Some(value) = header_value(list[i].1.as_str()) {
                    headers.insert(name.as_str(), value.as_slice());
                }
            }
        }
        i = i + 1;
    }
    assert(views.take(i as int) =~= views);
}

/// Overrides never touch a protected header.
pub proof fn protected_headers_are_never_overridden(
    headers: HeadersView,
    overrides: Seq<(Seq<char>, Seq<char>)>,
    name: Seq<char>,
)
    requires
        protected_header(name),
    ensures
        crate::headers::header_values(overridden(headers, overrides), name)
            == crate::headers::header_values(headers, name),
    decreases overrides.len(),
{
    if overrides.len() > 0 {
        protected_headers_are_never_overridden(headers, overrides.drop_last(), name);
        let before = overridden(headers, overrides.drop_last());
        match override_header(overrides.last().0, overrides.last().1) {
            Some((other, value)) => {
                crate::headers::set_header_is_the_only_one(before, other, value, name);
            },
            None => {},
        }
    }
}

/// The value of `anthropic-beta`: a native request always names what the native client does and
/// keeps what the client asked for; a converted one names what it makes use of.
pub open spec fn beta_value(
    send_anthropic_headers: bool,
    client_beta: Option<Seq<u8>>,
    impersonate_claude_code: bool,
    one_m_context: bool,
    native_beta: Seq<char>,
) -> Option<Seq<char>> {
    if send_anthropic_headers {
        Some(
            match client_beta {
                Some(value) => match visible_text(value) {
                    Some(beta) => if contains_text(beta, native_beta) {
                        beta
                    } else {
                        native_beta + ","@ + beta
                    },
                    None => native_beta,
                },
                None => native_beta,
            },
        )
    } else if impersonate_claude_code && one_m_context {
        Some(native_beta + ",context-1m-2025-08-07"@)
    } else if impersonate_claude_code {
        Some(native_beta)
    } else if one_m_context {
        Some("context-1m-2025-08-07"@)
    } else {
        None
    }
}

/// The value of `anthropic-beta`.
pub fn anthropic_beta_value(
    send_anthropic_headers: bool,
    client: &Headers,
    impersonate_claude_code: bool,
    one_m_context: bool,
    native_beta: &str,
) -> (beta: Option<String>)
    ensures
        opt_view(beta) == beta_value(
            send_anthropic_headers,
            first_value(client@, "anthropic-beta"@),
            impersonate_claude_code,
            one_m_context,
            native_beta@,
        ),
{
    if send_anthropic_headers {
        let beta = match client.get("anthropic-beta") {
            Some(value) => match header_text(value.as_slice()) {
                Some(beta) => if contains(beta.as_str(), native_beta) {
                    beta
                } else {
                    join(join(native_beta, ",").as_str(), beta.as_str())
                },
                None => native_beta.to_owned(),
            },
            None => native_beta.to_owned(),
        };
        return Some(beta);
    }
    if impersonate_claude_code && one_m_context {
        Some(join(native_beta, ",context-1m-2025-08-07"))
    } else if impersonate_claude_code {
        Some(native_beta.to_owned())
    } else if one_m_context {
        Some("context-1m-2025-08-07".to_owned())
    } else {
        None
    }
}

/// The user agent a request is sent with instead of the client's: the configured one, except for
/// Copilot, and that of the native client for a request that looks like one of its own.
pub fn custom_user_agent(
    is_copilot: bool,
    configured: Option<Vec<u8>>,
    impersonate_claude_code: bool,
    native_user_agent: &str,
) -> (agent: Option<Vec<u8>>)
    ensures
        match configured {
            Some(configured) if !is_copilot => agent == Some(configured),
            _ => if impersonate_claude_code {
                agent matches Some(agent) && agent@ == encode_utf8(native_user_agent@)
            } else {
                agent is None
            },
        },
{
    match configured {
        Some(configured) if !is_copilot => Some(configured),
        _ => if impersonate_claude_code {
            Some(vstd::slice::slice_to_vec(native_user_agent.as_bytes()))
        } else {
            None
        },
    }
}

/// The headers that name a client's session to the official Codex upstream.
pub open spec fn session_headers(session_id: Seq<char>) -> HeadersView {
    let id = trimmed(session_id);
    if id.len() == 0 {
        Seq::empty()
    } else {
        (match text_value(id) {
            Some(value) => seq![("session_id"@, value), ("x-client-request-id"@, value)],
            None => Seq::empty(),
        }) + (match text_value(id + ":0"@) {
            Some(value) => seq![("x-codex-window-id"@, value)],
            None => Seq::empty(),
        })
    }
}

/// The headers that name a client's session to the official Codex upstream.
pub fn build_codex_oauth_session_headers(session_id: &str) -> (headers: Headers)
    ensures
        headers@ == session_headers(session_id@),
{
    let id = trim(session_id);
    let mut headers = Headers::new();
    if id.is_empty() {
        return headers;
    }
    if let Some(value) = header_value(id) {
        headers.append("session_id", value.as_slice());
        headers.append("x-client-request-id", value.as_slice());
    }
    if let Some(value) = header_value(join(id, ":0").as_str()) {
        headers.append("x-codex-window-id", value.as_slice());
    }
    assert(headers@ =~= session_headers(session_id@));
    headers
}

/// The parts of a URL.
#[derive(Debug)]
pub struct UriParts {
    pub authority: Option<String>,
    pub host: Option<String>,
    pub path: String,
}

/// The parts of a URL as a mathematical value.
pub struct UriPartsView {
    pub authority: Option<Seq<char>>,
    pub host: Option<Seq<char>>,
    pub path: Seq<char>,
}

impl View for UriParts {
    type V = UriPartsView;

    open spec fn view(&self) -> UriPartsView {
        UriPartsView {
            authority: opt_view(self.authority),
            host: opt_view(self.host),
            path: self.path@,
        }
    }
}

/// The parts that `http::Uri` finds in a URL, where it is one.
pub uninterp spec fn uri_parts(url: Seq<char>) -> Option<UriPartsView>;

/// `http::Uri::from_str` and the accessors of what it parsed: the authority, the host and the
/// path of a URL, or none where the text is no URI. The outcome is a function of the text.
#[verifier::external_body]
pub(crate) fn parse_uri(url: &str) -> (parts: Option<UriParts>)
    ensures
        match parts {
            Some(parts) => uri_parts(url@) == Some(parts@),
            None => uri_parts(url@) is None,
        },
{
    match url.parse::<http::Uri>() {
        Ok(uri) => Some(UriParts {
            authority: uri.authority().map(|authority| authority.to_string()),
            host: uri.host().map(|host| host.to_string()),
            path: uri.path().to_string(),
        }),
        Err(_) => None,
    }
}

/// The host a request is sent to, as its `host` header has it.
pub open spec fn upstream_authority(url: Seq<char>) -> Option<Seq<char>> {
    match uri_parts(url) {
        Some(parts) => parts.authority,
        None => None,
    }
}

/// The host a request is sent to, as its `host` header has it.
pub fn upstream_host(url: &str) -> (host: Option<String>)
    ensures
        opt_view(host) == upstream_authority(url@),
{
    match parse_uri(url) {
        Some(parts) => parts.authority,
        None => None,
    }
}

/// Whether the parts of a URL are those of an upstream that this proxy signs in to itself.
pub open spec fn managed_upstream(parts: UriPartsView) -> bool {
    &&& parts.host matches Some(host)
    &&& {
        let host = ascii_lowercase(host);
        ||| host == "githubcopilot.com"@
        ||| has_suffix(host, ".githubcopilot.com"@)
        ||| (host == "chatgpt.com"@ && has_prefix(parts.path, "/backend-api/codex"@))
        ||| (host == "api.x.ai"@ && has_prefix(parts.path, "/v1/"@))
    }
}

/// Whether the parts of a URL are those of an upstream that this proxy signs in to itself.
pub fn is_managed_upstream(parts: &UriParts) -> (managed: bool)
    ensures
        managed == managed_upstream(parts@),
{
    match &parts.host {
        Some(host) => {
            let lower = to_ascii_lowercase(host.as_str());
            let host = lower.as_str();
            same_text(host, "githubcopilot.com") || ends_with(host, ".githubcopilot.com") || (
            same_text(host, "chatgpt.com") && starts_with(
                parts.path.as_str(),
                "/backend-api/codex",
            )) || (same_text(host, "api.x.ai") && starts_with(parts.path.as_str(), "/v1/"))
        },
        None => false,
    }
}

/// Whether a URL is that of an upstream that this proxy signs in to itself.
pub open spec fn managed_upstream_url(url: Seq<char>) -> bool {
    uri_parts(url) matches Some(parts) && managed_upstream(parts)
}

/// Whether a URL is that of an upstream that this proxy signs in to itself.
pub fn is_managed_account_upstream_url(url: &str) -> (managed: bool)
    ensures
        managed == managed_upstream_url(url@),
{
    match parse_uri(url) {
        Some(parts) => is_managed_upstream(&parts),
        None => false,
    }
}

/// Whether a header holds the placeholder that stands for credentials of this proxy.
pub open spec fn has_placeholder(headers: HeadersView) -> bool {
    exists|i: int| 0 <= i < headers.len() && placeholder_value((#[trigger] headers[i]).1)
}

/// Whether a header value holds the placeholder that stands for credentials of this proxy.
pub open spec fn placeholder_value(value: Seq<u8>) -> bool {
    visible_text(value) matches Some(text) && contains_text(text, "PROXY_MANAGED"@)
}

/// Whether a header holds the placeholder that stands for credentials of this proxy.
pub fn headers_contain_proxy_placeholder(headers: &Headers) -> (has: bool)
    ensures
        has == has_placeholder(headers@),
{
    let mut i: usize = 0;
    while i < headers.entries.len()
        invariant
            i <= headers.entries@.len(),
            forall|k: int| 0 <= k < i ==> !placeholder_value((#[trigger] headers@[k]).1),
        decreases headers.entries@.len() - i,
    {
        assert(headers@[i as int].1 == headers.entries@[i as int].1@);
        if let Some(text) = header_text(headers.entries[i].1.as_slice()) {
            if contains(text.as_str(), "PROXY_MANAGED") {
                return true;
            }
        }
        i = i + 1;
    }
    false
}

/// Refuses to send the placeholder to an upstream that this proxy signs in to itself.
pub fn reject_proxy_placeholder_for_managed_account_upstream(url: &str, headers: &Headers) -> (
    allowed: Result<(), ProxyError>)
    ensures
        match allowed {
            Ok(()) => !managed_upstream_url(url@) || !has_placeholder(headers@),
            Err(error) => managed_upstream_url(url@) && has_placeholder(headers@) && error@
                == ProxyErrorView::AuthError(
                "Managed account proxy auth was not resolved; PROXY_MANAGED must not be sent upstream"@,
            ),
        },
{
    if !is_managed_account_upstream_url(url) || !headers_contain_proxy_placeholder(headers) {
        return Ok(());
    }
    Err(
        ProxyError::AuthError(
            "Managed account proxy auth was not resolved; PROXY_MANAGED must not be sent upstream".to_owned(),
        ),
    )
}

/// The error with which a request to the official Codex upstream is refused for its
/// authorization, if there is one: it has to be the client's own.
pub open spec fn official_authorization_error(headers: HeadersView) -> Option<ProxyErrorView> {
    let missing = ProxyErrorView::AuthError(
        "Codex 官方登录不可用，请先在 Codex 中完成 ChatGPT 登录"@,
    );
    match first_text(headers, "authorization"@) {
        None => Some(missing),
        Some(value) => if trimmed(value).len() == 0 {
            Some(missing)
        } else if contains_text(trimmed(value), "PROXY_MANAGED"@) {
            Some(
                ProxyErrorView::AuthError(
                    "已切换到 OpenAI 官方供应商，请重启 Codex 或新建会话以加载官方登录配置"@,
                ),
            )
        } else {
            None
        },
    }
}

/// Refuses a request to the official Codex upstream without the client's own authorization.
pub fn validate_codex_official_authorization(headers: &Headers) -> (valid: Result<(), ProxyError>)
    ensures
        match valid {
            Ok(()) => official_authorization_error(headers@) is None,
            Err(error) => official_authorization_error(headers@) == Some(error@),
        },
{
    let authorization = match headers.get_text("authorization") {
        Some(value) => value,
        None => {
            return Err(
                ProxyError::AuthError(
                    "Codex 官方登录不可用，请先在 Codex 中完成 ChatGPT 登录".to_owned(),
                ),
            );
        },
    };
    let value = trim(authorization.as_str());
    if value.is_empty() {
        return Err(
            ProxyError::AuthError(
                "Codex 官方登录不可用，请先在 Codex 中完成 ChatGPT 登录".to_owned(),
            ),
        );
    }
    if contains(value, "PROXY_MANAGED") {
        return Err(
            ProxyError::AuthError(
                "已切换到 OpenAI 官方供应商，请重启 Codex 或新建会话以加载官方登录配置".to_owned(),
            ),
        );
    }
    Ok(())
}

/// How a request to Copilot is classified.
#[derive(Debug)]
pub struct CopilotClassification {
    pub initiator: String,
    pub is_subagent: bool,
    /// The id the request is sent with, where ids are derived from requests.
    pub request_id: Option<String>,
    /// The id of the conversation, where there is one.
    pub interaction_id: Option<String>,
}

/// The value of a sign-in header of a Copilot request once the request is classified.
pub open spec fn classified_value(
    name: Seq<char>,
    value: Seq<u8>,
    by_class: bool,
    initiator: Seq<char>,
    is_subagent: bool,
    request_id: Option<Seq<char>>,
) -> Seq<u8> {
    if name == "x-initiator"@ && by_class {
        encode_utf8(initiator)
    } else if name == "x-interaction-type"@ && is_subagent {
        encode_utf8("conversation-subagent"@)
    } else if name == "x-request-id"@ || name == "x-agent-task-id"@ {
        match request_id {
            Some(id) => match text_value(id) {
                Some(value) => value,
                None => value,
            },
            None => value,
        }
    } else {
        value
    }
}

/// The sign-in headers of a Copilot request once the request is classified.
pub open spec fn classified_headers(
    headers: HeadersView,
    by_class: bool,
    initiator: Seq<char>,
    is_subagent: bool,
    request_id: Option<Seq<char>>,
    interaction_id: Option<Seq<char>>,
) -> HeadersView {
    headers.map_values(
        |entry: (Seq<char>, Seq<u8>)|
            (
                entry.0,
                classified_value(
                    entry.0,
                    entry.1,
                    by_class,
                    initiator,
                    is_subagent,
                    request_id,
                ),
            ),
    ) + (match interaction_id {
        Some(id) => match text_value(id) {
            Some(value) => seq![("x-interaction-id"@, value)],
            None => Seq::empty(),
        },
        None => Seq::empty(),
    })
}

/// Writes the classification of a Copilot request into its sign-in headers.
pub fn classify_copilot_headers(
    headers: &Headers,
    by_class: bool,
    class: &CopilotClassification,
) -> (classified: Headers)
    ensures
        classified@ == classified_headers(
            headers@,
            by_class,
            class.initiator@,
            class.is_subagent,
            opt_view(class.request_id),
            opt_view(class.interaction_id),
        ),
{
    let ghost wanted = headers@.map_values(
        |entry: (Seq<char>, Seq<u8>)|
            (
                entry.0,
                classified_value(
                    entry.0,
                    entry.1,
                    by_class,
                    class.initiator@,
                    class.is_subagent,
                    opt_view(class.request_id),
                ),
            ),
    );
    let request_id = match &class.request_id {
        Some(id) => header_value(id.as_str()),
        None => None,
    };
    let mut classified = Headers::new();
    let mut i: usize = 0;
    while i < headers.entries.len()
        invariant
            i <= headers.entries@.len(),
            wanted == headers@.map_values(
                |entry: (Seq<char>, Seq<u8>)|
                    (
                        entry.0,
                        classified_value(
                            entry.0,
                            entry.1,
                            by_class,
                            class.initiator@,
                            class.is_subagent,
                            opt_view(class.request_id),
                        ),
                    ),
            ),
            match request_id {
                Some(value) => opt_view(class.request_id) is Some && text_value(
                    opt_view(class.request_id)->Some_0,
                ) == Some(value@),
                None => opt_view(class.request_id) matches Some(id) ==> text_value(id) is None,
            },
            classified@ == wanted.take(i as int),
        decreases headers.entries@.len() - i,
    {
        let name = headers.entries[i].0.as_str();
        let value = headers.entries[i].1.as_slice();
        assert(headers@[i as int] == (name@, value@));
        if same_text(name, "x-initiator") && by_class {
            classified.append(name, class.initiator.as_str().as_bytes());
        } else if same_text(name, "x-interaction-type") && class.is_subagent {
            classified.append(name, "conversation-subagent".as_bytes());
        } else if same_text(name, "x-request-id") || same_text(name, "x-agent-task-id") {
            match &request_id {
                Some(id) => {
                    classified.append(name, id.as_slice());
                },
                None => {
                    classified.append(name, value);
                },
            }
        } else {
            classified.append(name, value);
        }
        assert(classified@ =~= wanted.take(i as int).push(wanted[i as int]));
        assert(wanted.take(i + 1) =~= wanted.take(i as int).push(wanted[i as int]));
        i = i + 1;
    }
    assert(wanted.take(i as int) =~= wanted);
    if let Some(id) = &class.interaction_id {
        if let Some(value) = header_value(id.as_str()) {
            classified.append("x-interaction-id", value.as_slice());
        }
    }
    assert(classified@ =~= classified_headers(
        headers@,
        by_class,
        class.initiator@,
        class.is_subagent,
        opt_view(class.request_id),
        opt_view(class.interaction_id),
    ));
    classified
}

/// Where a header of a request may come from: the sign-in headers, the session headers, the
/// client under a name that is passed on, or the proxy itself under one of its own names.
pub open spec fn known_origin(
    plan: HeaderPlanView,
    client: HeadersView,
    header: (Seq<char>, Seq<u8>),
) -> bool {
    ||| plan.auth_headers.contains(header)
    ||| plan.session_headers.contains(header)
    ||| (client.contains(header) && !role_control(header.0) && !never_forwarded(header.0) && (
    credential(header.0) ==> plan.official_auth_passthrough && header.0 == "authorization"@))
    ||| own_name(header.0)
}

/// The names of the headers that the proxy writes itself.
pub open spec fn own_name(name: Seq<char>) -> bool {
    ||| name == "host"@
    ||| name == "accept"@
    ||| name == "accept-encoding"@
    ||| name == "user-agent"@
    ||| name == "anthropic-beta"@
    ||| name == "x-app"@
    ||| name == "anthropic-version"@
    ||| name == "content-type"@
}

proof fn lemma_own_names(name: Seq<char>)
    requires
        own_name(name),
    ensures
        !role_control(name),
        !credential(name),
{
    reveal(role_control);
    reveal_strlit("x-cc-switch-role-route");
    reveal_strlit("x-cc-switch-role-owner");
    reveal_strlit("x-cc-switch-role-token");
    reveal_strlit("authorization");
    reveal_strlit("x-api-key");
    reveal_strlit("x-goog-api-key");
    reveal_strlit("host");
    reveal_strlit("accept");
    reveal_strlit("accept-encoding");
    reveal_strlit("user-agent");
    reveal_strlit("anthropic-beta");
    reveal_strlit("x-app");
    reveal_strlit("anthropic-version");
    reveal_strlit("content-type");
    assert(ascii_lowercase(name).len() == name.len());
    assert(ascii_lowercase("x-cc-switch-role-route"@).len() == 22);
    assert(ascii_lowercase("x-cc-switch-role-owner"@).len() == 22);
    assert(ascii_lowercase("x-cc-switch-role-token"@).len() == 22);
    assert("anthropic-beta"@[0] == 'a');
    assert("x-goog-api-key"@[0] == 'x');
}

proof fn lemma_forwarded_origin(
    plan: HeaderPlanView,
    client: HeadersView,
    seen: SeenHeaders,
    name: Seq<char>,
    value: Seq<u8>,
    i: int,
)
    requires
        client.contains((name, value)),
        0 <= i < forwarded(plan, seen, name, value).1.len(),
    ensures
        known_origin(plan, client, forwarded(plan, seen, name, value).1[i]),
{
    reveal(forwarded);
}

proof fn lemma_forwarded_all_origin(plan: HeaderPlanView, all: HeadersView, client: HeadersView)
    requires
        forall|i: int| 0 <= i < client.len() ==> all.contains(#[trigger] client[i]),
    ensures
        forall|i: int|
            0 <= i < forwarded_all(plan, client).1.len() ==> known_origin(
                plan,
                all,
                #[trigger] forwarded_all(plan, client).1[i],
            ),
    decreases client.len(),
{
    if client.len() > 0 {
        let rest = client.drop_last();
        assert forall|i: int| 0 <= i < rest.len() implies all.contains(#[trigger] rest[i]) by {
            assert(rest[i] == client[i]);
        }
        lemma_forwarded_all_origin(plan, all, rest);
        let before = forwarded_all(plan, rest);
        let (name, value) = client.last();
        assert(all.contains(client[client.len() - 1]));
        let last = forwarded(plan, before.0, name, value);
        let out = forwarded_all(plan, client).1;
        assert forall|i: int| 0 <= i < out.len() implies known_origin(
            plan,
            all,
            #[trigger] out[i],
        ) by {
            if i < before.1.len() {
                assert(out[i] == before.1[i]);
            } else {
                assert(out[i] == last.1[i - before.1.len()]);
                lemma_forwarded_origin(plan, all, before.0, name, value, i - before.1.len());
            }
        }
    }
}

spec fn all_known(plan: HeaderPlanView, client: HeadersView, headers: HeadersView) -> bool {
    forall|i: int| 0 <= i < headers.len() ==> known_origin(plan, client, #[trigger] headers[i])
}

proof fn lemma_all_known_concat(
    plan: HeaderPlanView,
    client: HeadersView,
    a: HeadersView,
    b: HeadersView,
)
    requires
        all_known(plan, client, a),
        all_known(plan, client, b),
    ensures
        all_known(plan, client, a + b),
{
    assert forall|i: int| 0 <= i < (a + b).len() implies known_origin(
        plan,
        client,
        #[trigger] (a + b)[i],
    ) by {
        if i < a.len() {
            assert((a + b)[i] == a[i]);
        } else {
            assert((a + b)[i] == b[i - a.len()]);
        }
    }
}

proof fn lemma_own_known(plan: HeaderPlanView, client: HeadersView, headers: HeadersView)
    requires
        forall|i: int| 0 <= i < headers.len() ==> own_name((#[trigger] headers[i]).0),
    ensures
        all_known(plan, client, headers),
{
}

proof fn lemma_added_origin(plan: HeaderPlanView, client: HeadersView, seen: SeenHeaders)
    ensures
        all_known(plan, client, added(plan, seen)),
{
    let nothing: HeadersView = Seq::empty();
    let auth = if !seen.auth {
        plan.auth_headers
    } else {
        nothing
    };
    let identity = if !seen.accept_encoding && plan.force_identity {
        one("accept-encoding"@, "identity"@)
    } else {
        nothing
    };
    let accept = if plan.codex_to_anthropic && !seen.accept {
        one("accept"@, "application/json"@)
    } else {
        nothing
    };
    let app = if plan.impersonate_claude_code {
        one("x-app"@, "cli"@)
    } else {
        nothing
    };
    let agent = match plan.custom_user_agent {
        Some(agent) if !seen.user_agent => seq![("user-agent"@, agent)],
        _ => nothing,
    };
    let beta = if !seen.anthropic_beta {
        beta_header(plan)
    } else {
        nothing
    };
    let version = if (plan.send_anthropic_headers || plan.codex_to_anthropic)
        && !seen.anthropic_version {
        one("anthropic-version"@, "2023-06-01"@)
    } else {
        nothing
    };
    assert(all_known(plan, client, auth));
    lemma_own_known(plan, client, identity);
    lemma_own_known(plan, client, accept);
    lemma_own_known(plan, client, app);
    lemma_own_known(plan, client, agent);
    lemma_own_known(plan, client, beta);
    lemma_own_known(plan, client, version);
    lemma_all_known_concat(plan, client, auth, identity);
    lemma_all_known_concat(plan, client, auth + identity, accept);
    lemma_all_known_concat(plan, client, auth + identity + accept, app);
    lemma_all_known_concat(plan, client, auth + identity + accept + app, agent);
    lemma_all_known_concat(plan, client, auth + identity + accept + app + agent, beta);
    lemma_all_known_concat(plan, client, auth + identity + accept + app + agent + beta, version);
}

proof fn lemma_replaced_origin(headers: HeadersView, name: Seq<char>, value: Seq<u8>, placed: bool)
    ensures
        forall|i: int|
            0 <= i < replaced_list(headers, name, value, placed).len() ==> headers.contains(
                #[trigger] replaced_list(headers, name, value, placed)[i],
            ) || replaced_list(headers, name, value, placed)[i] == (name, value),
    decreases headers.len(),
{
    if headers.len() > 0 {
        let rest = headers.skip(1);
        let out = replaced_list(headers, name, value, placed);
        lemma_replaced_origin(rest, name, value, placed);
        lemma_replaced_origin(rest, name, value, true);
        assert forall|i: int| 0 <= i < out.len() implies headers.contains(#[trigger] out[i])
            || out[i] == (name, value) by {
            let tail = if headers[0].0 != name {
                replaced_list(rest, name, value, placed)
            } else {
                replaced_list(rest, name, value, true)
            };
            if headers[0].0 != name || !placed {
                if i == 0 {
                    assert(headers.contains(headers[0]));
                } else {
                    assert(out[i] == tail[i - 1]);
                }
            } else {
                assert(out[i] == tail[i]);
            }
            assert forall|header: (Seq<char>, Seq<u8>)| rest.contains(
                header,
            ) implies headers.contains(header) by {
                let k = choose|k: int| 0 <= k < rest.len() && rest[k] == header;
                assert(headers[k + 1] == header);
            }
        }
    }
}

spec fn replaced_list(
    headers: HeadersView,
    name: Seq<char>,
    value: Seq<u8>,
    placed: bool,
) -> HeadersView {
    crate::headers::replaced(headers, name, value, placed)
}

proof fn lemma_with_header_origin(headers: HeadersView, name: Seq<char>, value: Seq<u8>)
    ensures
        forall|i: int|
            0 <= i < with_header(headers, name, value).len() ==> headers.contains(
                #[trigger] with_header(headers, name, value)[i],
            ) || with_header(headers, name, value)[i] == (name, value),
{
    lemma_replaced_origin(headers, name, value, false);
    let out = with_header(headers, name, value);
    assert forall|i: int| 0 <= i < out.len() implies headers.contains(#[trigger] out[i]) || out[i]
        == (name, value) by {
        if first_value(headers, name) is Some {
            assert(out[i] == replaced_list(headers, name, value, false)[i]);
        } else if i < headers.len() {
            assert(headers.contains(headers[i]));
        }
    }
}

proof fn lemma_with_headers_origin(headers: HeadersView, more: HeadersView)
    ensures
        forall|i: int|
            0 <= i < with_headers(headers, more).len() ==> headers.contains(
                #[trigger] with_headers(headers, more)[i],
            ) || more.contains(with_headers(headers, more)[i]),
    decreases more.len(),
{
    if more.len() > 0 {
        let before = with_headers(headers, more.drop_last());
        lemma_with_headers_origin(headers, more.drop_last());
        lemma_with_header_origin(before, more.last().0, more.last().1);
        let out = with_headers(headers, more);
        assert forall|i: int| 0 <= i < out.len() implies headers.contains(#[trigger] out[i])
            || more.contains(out[i]) by {
            if before.contains(out[i]) {
                let k = choose|k: int| 0 <= k < before.len() && before[k] == out[i];
                if more.drop_last().contains(before[k]) {
                    let j = choose|j: int|
                        0 <= j < more.drop_last().len() && more.drop_last()[j] == before[k];
                    assert(more[j] == out[i]);
                }
            } else {
                assert(more[more.len() - 1] == out[i]);
            }
        }
    } else {
        assert forall|i: int| 0 <= i < headers.len() implies headers.contains(
            #[trigger] headers[i],
        ) by {}
    }
}

/// Every header of a request has a known origin: the headers that control this proxy and those
/// that tell of the way never leave it, and credentials of the client leave it only where its own
/// authorization is passed on.
pub proof fn upstream_headers_have_known_origins(plan: HeaderPlanView, client: HeadersView)
    ensures
        forall|i: int|
            0 <= i < upstream_headers(plan, client).len() ==> known_origin(
                plan,
                client,
                #[trigger] upstream_headers(plan, client)[i],
            ),
{
    assert forall|i: int| 0 <= i < client.len() implies client.contains(#[trigger] client[i]) by {}
    lemma_forwarded_all_origin(plan, client, client);
    let run = forwarded_all(plan, client);
    let all = run.1 + added(plan, run.0);
    lemma_added_origin(plan, client, run.0);
    lemma_all_known_concat(plan, client, run.1, added(plan, run.0));
    let signed = with_headers(all, plan.session_headers);
    lemma_with_headers_origin(all, plan.session_headers);
    assert forall|i: int| 0 <= i < signed.len() implies known_origin(
        plan,
        client,
        #[trigger] signed[i],
    ) by {
        if all.contains(signed[i]) {
            let k = choose|k: int| 0 <= k < all.len() && all[k] == signed[i];
            assert(known_origin(plan, client, all[k]));
        }
    }
    let out = upstream_headers(plan, client);
    lemma_with_header_origin(signed, "content-type"@, encode_utf8("application/json"@));
    assert forall|i: int| 0 <= i < out.len() implies known_origin(
        plan,
        client,
        #[trigger] out[i],
    ) by {
        if signed.contains(out[i]) {
            let k = choose|k: int| 0 <= k < signed.len() && signed[k] == out[i];
            assert(known_origin(plan, client, signed[k]));
        } else if first_value(signed, "content-type"@) is Some {
            assert(out[i] == signed[i]);
        }
    }
}

/// Role control headers never reach an upstream, and no credential of the client does unless its
/// authorization is passed on: what signs a request in is what the proxy was given for it.
pub proof fn client_credentials_and_role_headers_stay(
    plan: HeaderPlanView,
    client: HeadersView,
    i: int,
)
    requires
        0 <= i < upstream_headers(plan, client).len(),
    ensures
        ({
            let header = upstream_headers(plan, client)[i];
            &&& role_control(header.0) ==> plan.auth_headers.contains(header)
                || plan.session_headers.contains(header)
            &&& credential(header.0) ==> plan.auth_headers.contains(header)
                || plan.session_headers.contains(header) || (plan.official_auth_passthrough
                && header.0 == "authorization"@ && client.contains(header))
        }),
{
    upstream_headers_have_known_origins(plan, client);
    let header = upstream_headers(plan, client)[i];
    assert(known_origin(plan, client, header));
    if own_name(header.0) {
        lemma_own_names(header.0);
    }
}

/// The headers that tell of the way a request came, by their names.
pub proof fn way_headers_by_name(name: Seq<char>)
    ensures
        hop_header(name) <==> {
            ||| name == "x-forwarded-host"@ || name == "x-forwarded-port"@ || name
                == "x-forwarded-proto"@ || name == "forwarded"@
            ||| name == "cf-connecting-ip"@ || name == "cf-ipcountry"@ || name == "cf-ray"@ || name
                == "cf-visitor"@
            ||| name == "true-client-ip"@ || name == "fastly-client-ip"@
            ||| name == "x-azure-clientip"@ || name == "x-azure-fdid"@ || name == "x-azure-ref"@
            ||| name == "akamai-origin-hop"@ || name == "x-akamai-config-log-detail"@
            ||| name == "x-request-id"@ || name == "x-correlation-id"@ || name == "x-trace-id"@
                || name == "x-amzn-trace-id"@
            ||| name == "x-b3-traceid"@ || name == "x-b3-spanid"@ || name == "x-b3-parentspanid"@
                || name == "x-b3-sampled"@
            ||| name == "traceparent"@ || name == "tracestate"@
        },
        never_forwarded(name) <==> name == "content-length"@ || name == "transfer-encoding"@
            || hop_header(name),
        credential(name) <==> name == "authorization"@ || name == "x-api-key"@ || name
            == "x-goog-api-key"@,
{
    reveal(hop_header);
}

/// The headers that name the Codex client, and those of Copilot's fingerprint, by their names.
pub proof fn fingerprints_by_name(name: Seq<char>)
    ensures
        codex_fingerprint(name) <==> {
            ||| name == "originator"@ || name == "session_id"@ || name == "session-id"@ || name
                == "thread-id"@ || name == "conversation_id"@
            ||| name == "chatgpt-account-id"@ || name == "x-openai-subagent"@ || name
                == "x-client-request-id"@
            ||| name == "openai-beta"@ || name == "openai-organization"@ || name
                == "openai-project"@
            ||| has_prefix(name, "x-stainless-"@) || has_prefix(name, "x-codex-"@)
        },
        copilot_fingerprint(name) <==> {
            ||| name == "user-agent"@ || name == "editor-version"@ || name
                == "editor-plugin-version"@ || name == "copilot-integration-id"@
            ||| name == "x-github-api-version"@ || name == "openai-intent"@ || name
                == "x-initiator"@ || name == "x-interaction-type"@ || name == "x-interaction-id"@
            ||| name == "x-vscode-user-agent-library-version"@ || name == "x-request-id"@ || name
                == "x-agent-task-id"@
        },
        role_control("x-cc-switch-role-route"@),
        role_control("x-cc-switch-role-owner"@),
        role_control("x-cc-switch-role-token"@),
{
    reveal(codex_fingerprint);
    reveal(copilot_fingerprint);
    reveal(role_control);
}

/// A provider may not override what carries credentials, names a session, controls roles, tells of
/// the way or belongs to the transport; everything else it may.
pub proof fn protected_headers_by_name(name: Seq<char>)
    ensures
        protected_header(name) <==> {
            ||| role_control(name) || hop_header(name)
            ||| name == "authorization"@ || name == "x-api-key"@ || name == "x-goog-api-key"@ || name
                == "proxy-authorization"@ || name == "proxy-authenticate"@
            ||| name == "host"@ || name == "content-length"@ || name == "transfer-encoding"@ || name
                == "connection"@ || name == "te"@ || name == "trailer"@ || name == "upgrade"@
            ||| name == "accept-encoding"@ || name == "content-type"@
            ||| name == "chatgpt-account-id"@ || name == "session_id"@ || name
                == "x-client-request-id"@ || name == "x-codex-window-id"@
        },
{
    reveal(protected_header);
}

/// An override sets its header, in lower case and without white space around its name, unless that
/// is protected or the two are no header; the last override of a name is the one that counts.
pub proof fn overrides_set_their_headers(
    headers: HeadersView,
    overrides: Seq<(Seq<char>, Seq<char>)>,
    name: Seq<char>,
    value: Seq<char>,
)
    ensures
        ({
            let after = overridden(headers, overrides.push((name, value)));
            let before = overridden(headers, overrides);
            match text_name(ascii_lowercase(trimmed(name))) {
                Some(set) => if !protected_header(set) && text_value(value) is Some {
                    &&& crate::headers::header_values(after, set) == seq![encode_utf8(value)]
                    &&& forall|other: Seq<char>|
                        other != set ==> #[trigger] crate::headers::header_values(after, other)
                            == crate::headers::header_values(before, other)
                } else {
                    after == before
                },
                None => after == before,
            }
        }),
{
    let all = overrides.push((name, value));
    assert(all.drop_last() =~= overrides);
    assert(all.last() == (name, value));
    let before = overridden(headers, overrides);
    if let Some((set, bytes)) = override_header(name, value) {
        crate::headers::set_header_is_the_only_one(before, set, bytes, set);
        assert forall|other: Seq<char>| other != set implies #[trigger] crate::headers::header_values(
            overridden(headers, all),
            other,
        ) == crate::headers::header_values(before, other) by {
            crate::headers::set_header_is_the_only_one(before, set, bytes, other);
        }
    }
}

proof fn lemma_values_of_joined(a: HeadersView, b: HeadersView, name: Seq<char>)
    ensures
        crate::headers::header_values(a + b, name) == crate::headers::header_values(a, name)
            + crate::headers::header_values(b, name),
    decreases b.len(),
{
    if b.len() == 0 {
        assert(a + b =~= a);
        assert(crate::headers::header_values(a, name) + crate::headers::header_values(b, name)
            =~= crate::headers::header_values(a, name));
    } else {
        lemma_values_of_joined(a, b.drop_last(), name);
        assert((a + b).drop_last() =~= a + b.drop_last());
        assert((a + b).last() == b.last());
        assert(crate::headers::header_values(a + b, name) =~= crate::headers::header_values(a, name)
            + crate::headers::header_values(b, name));
    }
}

proof fn lemma_value_is_listed(headers: HeadersView, k: int)
    requires
        0 <= k < headers.len(),
    ensures
        crate::headers::header_values(headers, headers[k].0).contains(headers[k].1),
    decreases headers.len(),
{
    let (name, value) = headers[k];
    let rest = headers.drop_last();
    let before = crate::headers::header_values(rest, name);
    let all = crate::headers::header_values(headers, name);
    if k < rest.len() {
        assert(rest[k] == headers[k]);
        lemma_value_is_listed(rest, k);
        let i = before.index_of(value);
        assert(all[i] == value);
    } else {
        assert(headers.last() == headers[k]);
        assert(all.last() == value);
    }
}

proof fn lemma_value_is_not_listed(headers: HeadersView, name: Seq<char>)
    requires
        forall|i: int| 0 <= i < headers.len() ==> (#[trigger] headers[i]).0 != name,
    ensures
        crate::headers::header_values(headers, name) == Seq::<Seq<u8>>::empty(),
    decreases headers.len(),
{
    if headers.len() > 0 {
        let rest = headers.drop_last();
        assert forall|i: int| 0 <= i < rest.len() implies (#[trigger] rest[i]).0 != name by {
            assert(rest[i] == headers[i]);
        }
        lemma_value_is_not_listed(rest, name);
        assert(headers.last() == headers[headers.len() - 1]);
    }
}

proof fn lemma_set_headers_leave_others(headers: HeadersView, more: HeadersView, name: Seq<char>)
    requires
        forall|i: int| 0 <= i < more.len() ==> (#[trigger] more[i]).0 != name,
    ensures
        crate::headers::header_values(with_headers(headers, more), name)
            == crate::headers::header_values(headers, name),
    decreases more.len(),
{
    if more.len() > 0 {
        let rest = more.drop_last();
        assert forall|i: int| 0 <= i < rest.len() implies (#[trigger] rest[i]).0 != name by {
            assert(rest[i] == more[i]);
        }
        lemma_set_headers_leave_others(headers, rest, name);
        assert(more.last() == more[more.len() - 1]);
        crate::headers::set_header_is_the_only_one(
            with_headers(headers, rest),
            more.last().0,
            more.last().1,
            name,
        );
    }
}

proof fn lemma_signed_in(plan: HeaderPlanView, client: HeadersView, k: int)
    requires
        !plan.official_auth_passthrough,
        0 <= k < plan.auth_headers.len(),
        forwarded_all(plan, client).0.auth,
    ensures
        crate::headers::header_values(
            forwarded_all(plan, client).1,
            plan.auth_headers[k].0,
        ).contains(plan.auth_headers[k].1),
    decreases client.len(),
{
    reveal(forwarded);
    let (name, value) = plan.auth_headers[k];
    if client.len() > 0 {
        let before = forwarded_all(plan, client.drop_last());
        let last = forwarded(plan, before.0, client.last().0, client.last().1);
        lemma_values_of_joined(before.1, last.1, name);
        let all = crate::headers::header_values(before.1 + last.1, name);
        if before.0.auth {
            lemma_signed_in(plan, client.drop_last(), k);
            let i = crate::headers::header_values(before.1, name).index_of(value);
            assert(all[i] == value);
        } else {
            assert(last.1 == plan.auth_headers);
            lemma_value_is_listed(plan.auth_headers, k);
            let i = crate::headers::header_values(plan.auth_headers, name).index_of(value);
            assert(all[crate::headers::header_values(before.1, name).len() + i] == value);
        }
    }
}

/// A request is signed in with what the proxy was given for it, whatever the client sent, unless the
/// client's own authorization is passed on: each of the sign-in headers is sent.
pub proof fn requests_are_signed_in(plan: HeaderPlanView, client: HeadersView, k: int)
    requires
        !plan.official_auth_passthrough,
        0 <= k < plan.auth_headers.len(),
        plan.auth_headers[k].0 != "content-type"@,
        forall|i: int|
            0 <= i < plan.session_headers.len() ==> (#[trigger] plan.session_headers[i]).0
                != plan.auth_headers[k].0,
    ensures
        crate::headers::header_values(
            upstream_headers(plan, client),
            plan.auth_headers[k].0,
        ).contains(plan.auth_headers[k].1),
{
    let (name, value) = plan.auth_headers[k];
    let run = forwarded_all(plan, client);
    let more = added(plan, run.0);
    lemma_values_of_joined(run.1, more, name);
    let listed = crate::headers::header_values(run.1 + more, name);
    if run.0.auth {
        lemma_signed_in(plan, client, k);
        let i = crate::headers::header_values(run.1, name).index_of(value);
        assert(listed[i] == value);
    } else {
        let rest = more.skip(plan.auth_headers.len() as int);
        assert(more =~= plan.auth_headers + rest);
        lemma_values_of_joined(plan.auth_headers, rest, name);
        lemma_value_is_listed(plan.auth_headers, k);
        let i = crate::headers::header_values(plan.auth_headers, name).index_of(value);
        assert(crate::headers::header_values(more, name)[i] == value);
        assert(listed[crate::headers::header_values(run.1, name).len() + i] == value);
    }
    lemma_set_headers_leave_others(run.1 + more, plan.session_headers, name);
    let signed = with_headers(run.1 + more, plan.session_headers);
    crate::headers::set_header_is_the_only_one(
        signed,
        "content-type"@,
        encode_utf8("application/json"@),
        name,
    );
}

/// Whether a header of the client has no meaning of its own to the proxy, and none is sent in its
/// place.
pub open spec fn ordinary_header(plan: HeaderPlanView, name: Seq<char>) -> bool {
    &&& !role_control(name)
    &&& !never_forwarded(name)
    &&& !credential(name)
    &&& !own_name(name)
    &&& !(plan.codex_to_anthropic && codex_fingerprint(name))
    &&& !(plan.is_copilot && copilot_fingerprint(name))
    &&& forall|i: int|
        0 <= i < plan.auth_headers.len() ==> (#[trigger] plan.auth_headers[i]).0 != name
    &&& forall|i: int|
        0 <= i < plan.session_headers.len() ==> (#[trigger] plan.session_headers[i]).0 != name
}

proof fn lemma_ordinary_headers_pass(
    plan: HeaderPlanView,
    client: HeadersView,
    name: Seq<char>,
)
    requires
        ordinary_header(plan, name),
    ensures
        crate::headers::header_values(forwarded_all(plan, client).1, name)
            == crate::headers::header_values(client, name),
    decreases client.len(),
{
    reveal(forwarded);
    if client.len() > 0 {
        lemma_ordinary_headers_pass(plan, client.drop_last(), name);
        let before = forwarded_all(plan, client.drop_last());
        let (own, value) = client.last();
        let last = forwarded(plan, before.0, own, value);
        lemma_values_of_joined(before.1, last.1, name);
        if own == name {
            assert(last.1 == seq![(name, value)]);
            assert(last.1.drop_last() =~= Seq::<(Seq<char>, Seq<u8>)>::empty());
            assert(last.1.last() == (name, value));
            assert(crate::headers::header_values(last.1.drop_last(), name) == Seq::<Seq<u8>>::empty());
            assert(crate::headers::header_values(last.1, name) =~= seq![value]);
            assert(crate::headers::header_values(before.1, name) + seq![value]
                =~= crate::headers::header_values(client.drop_last(), name).push(value));
        } else {
            assert forall|i: int| 0 <= i < last.1.len() implies (#[trigger] last.1[i]).0 != name by {}
            lemma_value_is_not_listed(last.1, name);
            assert(crate::headers::header_values(before.1, name) + Seq::<Seq<u8>>::empty()
                =~= crate::headers::header_values(before.1, name));
        }
    }
}

proof fn lemma_values_of_one(headers: HeadersView, name: Seq<char>)
    requires
        headers.len() <= 1,
    ensures
        crate::headers::header_values(headers, name) == (if headers.len() == 1 && headers[0].0
            == name {
            seq![headers[0].1]
        } else {
            Seq::<Seq<u8>>::empty()
        }),
{
    if headers.len() == 1 {
        assert(headers.drop_last() =~= Seq::<(Seq<char>, Seq<u8>)>::empty());
        assert(crate::headers::header_values(headers.drop_last(), name) == Seq::<Seq<u8>>::empty());
        assert(headers.last() == headers[0]);
        if headers[0].0 == name {
            assert(crate::headers::header_values(headers, name) =~= seq![headers[0].1]);
        }
    }
}

/// What is made up where the client did not send it, name by name: the sign-in headers where it sent
/// no credential, `accept-encoding` where the answer must not be compressed, `accept`, `x-app`, the
/// configured user agent, the beta and the version of the Anthropic protocol; and nothing else.
pub proof fn missing_headers_are_made_up(
    plan: HeaderPlanView,
    seen: SeenHeaders,
    name: Seq<char>,
)
    requires
        crate::headers::header_values(plan.auth_headers, name).len() == 0,
    ensures
        ({
            let made_up = crate::headers::header_values(added(plan, seen), name);
            &&& name == "accept-encoding"@ ==> made_up == (if !seen.accept_encoding
                && plan.force_identity {
                seq![encode_utf8("identity"@)]
            } else {
                Seq::<Seq<u8>>::empty()
            })
            &&& name == "accept"@ ==> made_up == (if plan.codex_to_anthropic && !seen.accept {
                seq![encode_utf8("application/json"@)]
            } else {
                Seq::<Seq<u8>>::empty()
            })
            &&& name == "x-app"@ ==> made_up == (if plan.impersonate_claude_code {
                seq![encode_utf8("cli"@)]
            } else {
                Seq::<Seq<u8>>::empty()
            })
            &&& name == "user-agent"@ ==> made_up == (if !seen.user_agent
                && plan.custom_user_agent is Some {
                seq![plan.custom_user_agent->Some_0]
            } else {
                Seq::<Seq<u8>>::empty()
            })
            &&& name == "anthropic-beta"@ ==> made_up == (if !seen.anthropic_beta {
                crate::headers::header_values(beta_header(plan), name)
            } else {
                Seq::<Seq<u8>>::empty()
            })
            &&& name == "anthropic-version"@ ==> made_up == (if (plan.send_anthropic_headers
                || plan.codex_to_anthropic) && !seen.anthropic_version {
                seq![encode_utf8("2023-06-01"@)]
            } else {
                Seq::<Seq<u8>>::empty()
            })
            &&& !own_name(name) || name == "host"@ || name == "content-type"@ ==> made_up.len() == 0
        }),
{
    reveal_strlit("host");
    reveal_strlit("accept");
    reveal_strlit("accept-encoding");
    reveal_strlit("user-agent");
    reveal_strlit("anthropic-beta");
    reveal_strlit("x-app");
    reveal_strlit("anthropic-version");
    reveal_strlit("content-type");
    assert("host"@.len() == 4);
    assert("accept"@.len() == 6);
    assert("accept-encoding"@.len() == 15);
    assert("user-agent"@.len() == 10);
    assert("anthropic-beta"@.len() == 14);
    assert("x-app"@.len() == 5);
    assert("anthropic-version"@.len() == 17);
    assert("content-type"@.len() == 12);
    let nothing: HeadersView = Seq::empty();
    let auth = if !seen.auth {
        plan.auth_headers
    } else {
        nothing
    };
    let identity = if !seen.accept_encoding && plan.force_identity {
        one("accept-encoding"@, "identity"@)
    } else {
        nothing
    };
    let accept = if plan.codex_to_anthropic && !seen.accept {
        one("accept"@, "application/json"@)
    } else {
        nothing
    };
    let app = if plan.impersonate_claude_code {
        one("x-app"@, "cli"@)
    } else {
        nothing
    };
    let agent = match plan.custom_user_agent {
        Some(agent) if !seen.user_agent => seq![("user-agent"@, agent)],
        _ => nothing,
    };
    let beta = if !seen.anthropic_beta {
        beta_header(plan)
    } else {
        nothing
    };
    let version = if (plan.send_anthropic_headers || plan.codex_to_anthropic)
        && !seen.anthropic_version {
        one("anthropic-version"@, "2023-06-01"@)
    } else {
        nothing
    };
    lemma_values_of_one(identity, name);
    lemma_values_of_one(accept, name);
    lemma_values_of_one(app, name);
    lemma_values_of_one(agent, name);
    lemma_values_of_one(beta, name);
    lemma_values_of_one(version, name);
    lemma_values_of_joined(auth, identity, name);
    lemma_values_of_joined(auth + identity, accept, name);
    lemma_values_of_joined(auth + identity + accept, app, name);
    lemma_values_of_joined(auth + identity + accept + app, agent, name);
    lemma_values_of_joined(auth + identity + accept + app + agent, beta, name);
    lemma_values_of_joined(auth + identity + accept + app + agent + beta, version, name);
    assert(added(plan, seen) == auth + identity + accept + app + agent + beta + version);
}

/// An ordinary header of the client reaches the upstream as it is, with all its values in their
/// order, and none is made up.
pub proof fn ordinary_headers_are_passed_on(
    plan: HeaderPlanView,
    client: HeadersView,
    name: Seq<char>,
)
    requires
        ordinary_header(plan, name),
    ensures
        crate::headers::header_values(upstream_headers(plan, client), name)
            == crate::headers::header_values(client, name),
{
    lemma_ordinary_headers_pass(plan, client, name);
    let run = forwarded_all(plan, client);
    let more = added(plan, run.0);
    lemma_value_is_not_listed(plan.auth_headers, name);
    missing_headers_are_made_up(plan, run.0, name);
    lemma_values_of_joined(run.1, more, name);
    assert(crate::headers::header_values(run.1, name) + Seq::<Seq<u8>>::empty()
        =~= crate::headers::header_values(run.1, name));
    lemma_set_headers_leave_others(run.1 + more, plan.session_headers, name);
    let signed = with_headers(run.1 + more, plan.session_headers);
    crate::headers::set_header_is_the_only_one(
        signed,
        "content-type"@,
        encode_utf8("application/json"@),
        name,
    );
}

proof fn lemma_own_names_are_forwarded()
    ensures
        !never_forwarded("accept-encoding"@),
        !never_forwarded("anthropic-version"@),
        !never_forwarded("user-agent"@),
{
    reveal(hop_header);
    reveal_strlit("accept-encoding");
    reveal_strlit("anthropic-version");
    reveal_strlit("user-agent");
    reveal_strlit("x-forwarded-host");
    reveal_strlit("x-forwarded-port");
    reveal_strlit("x-forwarded-proto");
    reveal_strlit("forwarded");
    reveal_strlit("cf-connecting-ip");
    reveal_strlit("cf-ipcountry");
    reveal_strlit("cf-ray");
    reveal_strlit("cf-visitor");
    reveal_strlit("true-client-ip");
    reveal_strlit("fastly-client-ip");
    reveal_strlit("x-azure-clientip");
    reveal_strlit("x-azure-fdid");
    reveal_strlit("x-azure-ref");
    reveal_strlit("akamai-origin-hop");
    reveal_strlit("x-akamai-config-log-detail");
    reveal_strlit("x-request-id");
    reveal_strlit("x-correlation-id");
    reveal_strlit("x-trace-id");
    reveal_strlit("x-amzn-trace-id");
    reveal_strlit("x-b3-traceid");
    reveal_strlit("x-b3-spanid");
    reveal_strlit("x-b3-parentspanid");
    reveal_strlit("x-b3-sampled");
    reveal_strlit("traceparent");
    reveal_strlit("tracestate");
    reveal_strlit("content-length");
    reveal_strlit("transfer-encoding");
    assert("accept-encoding"@.len() == 15 && "accept-encoding"@[0] == 'a');
    assert("anthropic-version"@.len() == 17 && "anthropic-version"@[0] == 'a' && "anthropic-version"@[1] == 'n');
    assert("user-agent"@.len() == 10 && "user-agent"@[0] == 'u');
    assert("x-forwarded-host"@.len() == 16);
    assert("x-forwarded-port"@.len() == 16);
    assert("x-forwarded-proto"@.len() == 17 && "x-forwarded-proto"@[0] == 'x');
    assert("forwarded"@.len() == 9);
    assert("cf-connecting-ip"@.len() == 16);
    assert("cf-ipcountry"@.len() == 12);
    assert("cf-ray"@.len() == 6);
    assert("cf-visitor"@.len() == 10 && "cf-visitor"@[0] == 'c');
    assert("true-client-ip"@.len() == 14);
    assert("fastly-client-ip"@.len() == 16);
    assert("x-azure-clientip"@.len() == 16);
    assert("x-azure-fdid"@.len() == 12);
    assert("x-azure-ref"@.len() == 11);
    assert("akamai-origin-hop"@.len() == 17 && "akamai-origin-hop"@[1] == 'k');
    assert("x-akamai-config-log-detail"@.len() == 26);
    assert("x-request-id"@.len() == 12);
    assert("x-correlation-id"@.len() == 16);
    assert("x-trace-id"@.len() == 10 && "x-trace-id"@[0] == 'x');
    assert("x-amzn-trace-id"@.len() == 15 && "x-amzn-trace-id"@[0] == 'x');
    assert("x-b3-traceid"@.len() == 12);
    assert("x-b3-spanid"@.len() == 11);
    assert("x-b3-parentspanid"@.len() == 17 && "x-b3-parentspanid"@[0] == 'x');
    assert("x-b3-sampled"@.len() == 12);
    assert("traceparent"@.len() == 11);
    assert("tracestate"@.len() == 10 && "tracestate"@[0] == 't');
    assert("content-length"@.len() == 14);
    assert("transfer-encoding"@.len() == 17 && "transfer-encoding"@[0] == 't');
}

/// What becomes of the headers that the proxy writes itself: the host is the upstream's; an answer
/// that must not be compressed is asked for so; the user agent is the configured one where there is
/// one; the version of the Anthropic protocol is passed on in that protocol alone.
pub proof fn own_headers_are_written(plan: HeaderPlanView, seen: SeenHeaders, value: Seq<u8>)
    ensures
        plan.upstream_host matches Some(host) ==> (text_value(host) matches Some(bytes)
            ==> forwarded(plan, seen, "host"@, value).1 == seq![("host"@, bytes)]),
        !seen.accept_encoding && plan.force_identity ==> forwarded(
            plan,
            seen,
            "accept-encoding"@,
            value,
        ).1 == seq![("accept-encoding"@, encode_utf8("identity"@))],
        !seen.accept_encoding && !plan.force_identity ==> forwarded(
            plan,
            seen,
            "accept-encoding"@,
            value,
        ).1 == seq![("accept-encoding"@, value)],
        plan.send_anthropic_headers ==> forwarded(plan, seen, "anthropic-version"@, value).1
            == seq![("anthropic-version"@, value)],
        !plan.send_anthropic_headers ==> forwarded(plan, seen, "anthropic-version"@, value).1.len()
            == 0,
        !plan.is_copilot && !seen.user_agent ==> forwarded(plan, seen, "user-agent"@, value).1
            == seq![
            (
                "user-agent"@,
                match plan.custom_user_agent {
                    Some(agent) => agent,
                    None => value,
                },
            ),
        ],
{
    reveal(forwarded);
    lemma_own_names("host"@);
    lemma_own_names("accept-encoding"@);
    lemma_own_names("anthropic-version"@);
    lemma_own_names("user-agent"@);
    lemma_own_names_are_forwarded();
    reveal(codex_fingerprint);
    reveal_strlit("host");
    reveal_strlit("accept");
    reveal_strlit("accept-encoding");
    reveal_strlit("anthropic-version");
    reveal_strlit("anthropic-beta");
    reveal_strlit("user-agent");
    reveal_strlit("x-app");
    reveal_strlit("originator");
    reveal_strlit("session_id");
    reveal_strlit("session-id");
    reveal_strlit("thread-id");
    reveal_strlit("conversation_id");
    reveal_strlit("chatgpt-account-id");
    reveal_strlit("x-openai-subagent");
    reveal_strlit("x-client-request-id");
    reveal_strlit("openai-beta");
    reveal_strlit("openai-organization");
    reveal_strlit("openai-project");
    reveal_strlit("x-stainless-");
    reveal_strlit("x-codex-");
    assert("host"@.len() == 4);
    assert("accept"@.len() == 6);
    assert("accept-encoding"@.len() == 15 && "accept-encoding"@[0] == 'a');
    assert("anthropic-version"@.len() == 17 && "anthropic-version"@[0] == 'a');
    assert("anthropic-beta"@.len() == 14);
    assert("user-agent"@.len() == 10 && "user-agent"@[0] == 'u');
    assert("x-app"@.len() == 5);
    assert("originator"@.len() == 10 && "originator"@[0] == 'o');
    assert("session_id"@.len() == 10 && "session_id"@[0] == 's');
    assert("session-id"@.len() == 10 && "session-id"@[0] == 's');
    assert("thread-id"@.len() == 9);
    assert("conversation_id"@.len() == 15 && "conversation_id"@[0] == 'c');
    assert("chatgpt-account-id"@.len() == 18);
    assert("x-openai-subagent"@.len() == 17 && "x-openai-subagent"@[0] == 'x');
    assert("x-client-request-id"@.len() == 19);
    assert("openai-beta"@.len() == 11);
    assert("openai-organization"@.len() == 19);
    assert("openai-project"@.len() == 14);
    assert("x-stainless-"@.len() == 12 && "x-stainless-"@[0] == 'x');
    assert("x-codex-"@.len() == 8 && "x-codex-"@[0] == 'x');
    assert(!has_prefix("accept-encoding"@, "x-stainless-"@)) by {
        if has_prefix("accept-encoding"@, "x-stainless-"@) {
            assert("accept-encoding"@.subrange(0, 12)[0] == 'a');
        }
    }
    assert(!has_prefix("accept-encoding"@, "x-codex-"@)) by {
        if has_prefix("accept-encoding"@, "x-codex-"@) {
            assert("accept-encoding"@.subrange(0, 8)[0] == 'a');
        }
    }
    assert(!has_prefix("anthropic-version"@, "x-stainless-"@)) by {
        if has_prefix("anthropic-version"@, "x-stainless-"@) {
            assert("anthropic-version"@.subrange(0, 12)[0] == 'a');
        }
    }
    assert(!has_prefix("anthropic-version"@, "x-codex-"@)) by {
        if has_prefix("anthropic-version"@, "x-codex-"@) {
            assert("anthropic-version"@.subrange(0, 8)[0] == 'a');
        }
    }
    assert(!has_prefix("user-agent"@, "x-codex-"@)) by {
        if has_prefix("user-agent"@, "x-codex-"@) {
            assert("user-agent"@.subrange(0, 8)[0] == 'u');
        }
    }
}

/// The value of `anthropic-beta`: in the native protocol what the client asked for, with the native
/// client's own before it unless it is among it; in a converted request what it makes use of.
pub proof fn betas_are_named(
    client_beta: Option<Seq<u8>>,
    impersonate: bool,
    one_m_context: bool,
    native_beta: Seq<char>,
)
    ensures
        client_beta is None ==> beta_value(
            true,
            client_beta,
            impersonate,
            one_m_context,
            native_beta,
        ) == Some(native_beta),
        client_beta matches Some(value) ==> (visible_text(value) matches Some(text) ==> beta_value(
            true,
            client_beta,
            impersonate,
            one_m_context,
            native_beta,
        ) == Some(
            if contains_text(text, native_beta) {
                text
            } else {
                native_beta + ","@ + text
            },
        )),
        beta_value(false, client_beta, false, false, native_beta) is None,
        beta_value(false, client_beta, true, false, native_beta) == Some(native_beta),
        beta_value(false, client_beta, false, true, native_beta) == Some("context-1m-2025-08-07"@),
        beta_value(false, client_beta, true, true, native_beta) == Some(
            native_beta + ",context-1m-2025-08-07"@,
        ),
{
}

/// The upstreams that the proxy signs in to itself, by their hosts and paths.
pub proof fn managed_upstreams_by_host(host: Seq<char>, path: Seq<char>, authority: Option<Seq<char>>)
    ensures
        ({
            let lower = ascii_lowercase(host);
            managed_upstream(UriPartsView { authority, host: Some(host), path }) <==> {
                ||| lower == "githubcopilot.com"@
                ||| has_suffix(lower, ".githubcopilot.com"@)
                ||| lower == "chatgpt.com"@ && has_prefix(path, "/backend-api/codex"@)
                ||| lower == "api.x.ai"@ && has_prefix(path, "/v1/"@)
            }
        }),
        !managed_upstream(UriPartsView { authority, host: None, path }),
{
}

/// A request to the official upstream has to bring the client's own authorization: one that is
/// missing, blank or the proxy's placeholder is refused, and any other is let through.
pub proof fn official_requests_bring_their_own_authorization(headers: HeadersView)
    ensures
        official_authorization_error(headers) is None <==> (first_text(
            headers,
            "authorization"@,
        ) matches Some(text) && trimmed(text).len() > 0 && !contains_text(
            trimmed(text),
            "PROXY_MANAGED"@,
        )),
        official_authorization_error(headers) matches Some(error) ==> error is AuthError,
{
}

/// A classified request to Copilot says who began it, that it is of a subagent, and by which id it
/// goes, each in its own header; the other sign-in headers stay.
pub proof fn classifications_are_written(
    name: Seq<char>,
    value: Seq<u8>,
    by_class: bool,
    initiator: Seq<char>,
    is_subagent: bool,
    request_id: Option<Seq<char>>,
)
    ensures
        name == "x-initiator"@ ==> classified_value(
            name,
            value,
            by_class,
            initiator,
            is_subagent,
            request_id,
        ) == (if by_class {
            encode_utf8(initiator)
        } else {
            value
        }),
        name == "x-interaction-type"@ ==> classified_value(
            name,
            value,
            by_class,
            initiator,
            is_subagent,
            request_id,
        ) == (if is_subagent {
            encode_utf8("conversation-subagent"@)
        } else {
            value
        }),
        name == "x-request-id"@ || name == "x-agent-task-id"@ ==> (request_id matches Some(id) ==> (
        text_value(id) is Some ==> classified_value(
            name,
            value,
            by_class,
            initiator,
            is_subagent,
            request_id,
        ) == encode_utf8(id))),
        name != "x-initiator"@ && name != "x-interaction-type"@ && name != "x-request-id"@ && name
            != "x-agent-task-id"@ ==> classified_value(
            name,
            value,
            by_class,
            initiator,
            is_subagent,
            request_id,
        ) == value,
{
    reveal_strlit("x-initiator");
    reveal_strlit("x-interaction-type");
    reveal_strlit("x-request-id");
    reveal_strlit("x-agent-task-id");
    assert("x-initiator"@.len() == 11);
    assert("x-interaction-type"@.len() == 18);
    assert("x-request-id"@.len() == 12);
    assert("x-agent-task-id"@.len() == 15);
}

/// A session is named by three headers: itself twice, and the window that it is in. A blank one has
/// no name.
pub proof fn sessions_are_named(id: Seq<char>, value: Seq<u8>, window: Seq<u8>)
    ensures
        trimmed(id).len() == 0 ==> session_headers(id).len() == 0,
        trimmed(id).len() > 0 && text_value(trimmed(id)) == Some(value) && text_value(
            trimmed(id) + ":0"@,
        ) == Some(window) ==> session_headers(id) == seq![
            ("session_id"@, value),
            ("x-client-request-id"@, value),
            ("x-codex-window-id"@, window),
        ],
{
    if trimmed(id).len() > 0 && text_value(trimmed(id)) == Some(value) && text_value(
        trimmed(id) + ":0"@,
    ) == Some(window) {
        assert(session_headers(id) =~= seq![
            ("session_id"@, value),
            ("x-client-request-id"@, value),
            ("x-codex-window-id"@, window),
        ]);
    }
}

/// A classified request keeps its sign-in headers, in their order and with what their class says, and
/// names its interaction behind them where it has one.
pub proof fn classified_requests_keep_their_headers(
    headers: HeadersView,
    by_class: bool,
    initiator: Seq<char>,
    is_subagent: bool,
    request_id: Option<Seq<char>>,
    id: Seq<char>,
    value: Seq<u8>,
    i: int,
)
    requires
        0 <= i < headers.len(),
    ensures
        ({
            let plain = classified_headers(
                headers,
                by_class,
                initiator,
                is_subagent,
                request_id,
                None,
            );
            let named = classified_headers(
                headers,
                by_class,
                initiator,
                is_subagent,
                request_id,
                Some(id),
            );
            &&& plain.len() == headers.len()
            &&& plain[i].0 == headers[i].0
            &&& named[i] == plain[i]
            &&& plain[i].1 == classified_value(
                headers[i].0,
                headers[i].1,
                by_class,
                initiator,
                is_subagent,
                request_id,
            )
            &&& text_value(id) == Some(value) ==> named.len() == headers.len() + 1 && named.last()
                == ("x-interaction-id"@, value)
            &&& text_value(id) is None ==> named.len() == headers.len()
        }),
{
}

/// The proxy's placeholder is seen wherever it stands in a header's text, and nowhere else.
pub proof fn placeholders_are_seen(
    headers: HeadersView,
    i: int,
    before: Seq<char>,
    after: Seq<char>,
)
    ensures
        0 <= i < headers.len() && visible_text(headers[i].1) == Some(
            before + "PROXY_MANAGED"@ + after,
        ) ==> has_placeholder(headers),
        has_placeholder(headers) ==> exists|k: int|
            0 <= k < headers.len() && (visible_text((#[trigger] headers[k]).1) matches Some(text)
                && contains_text(text, "PROXY_MANAGED"@)),
{
    crate::text::texts_are_found_where_they_stand(before, "PROXY_MANAGED"@, after);
    if 0 <= i < headers.len() && visible_text(headers[i].1) == Some(
        before + "PROXY_MANAGED"@ + after,
    ) {
        assert(placeholder_value(headers[i].1));
    }
}

/// The user agent is the provider's own, but not to Copilot; else it is the native client's where a
/// request looks like one of its.
pub proof fn user_agents_are_the_configured_ones(
    is_copilot: bool,
    configured: Option<Vec<u8>>,
    impersonate: bool,
    native: &str,
    agent: Option<Vec<u8>>,
)
    requires
        call_ensures(custom_user_agent, (is_copilot, configured, impersonate, native), agent),
    ensures
        configured is Some && !is_copilot ==> agent == configured,
        (configured is None || is_copilot) && !impersonate ==> agent is None,
        (configured is None || is_copilot) && impersonate ==> (agent matches Some(bytes) && bytes@
            == encode_utf8(native@)),
{
}

/// A header of the client that is sent is not made up once more: what was seen is remembered, and
/// nothing else is.
pub proof fn seen_headers_are_remembered(
    plan: HeaderPlanView,
    seen: SeenHeaders,
    name: Seq<char>,
    value: Seq<u8>,
)
    ensures
        ({
            let after = forwarded(plan, seen, name, value).0;
            &&& seen.auth ==> after.auth
            &&& seen.accept ==> after.accept
            &&& seen.accept_encoding ==> after.accept_encoding
            &&& seen.user_agent ==> after.user_agent
            &&& seen.anthropic_beta ==> after.anthropic_beta
            &&& seen.anthropic_version ==> after.anthropic_version
            &&& after.auth && !seen.auth ==> credential(name)
            &&& after.accept && !seen.accept ==> name == "accept"@
            &&& after.accept_encoding && !seen.accept_encoding ==> name == "accept-encoding"@
            &&& after.user_agent && !seen.user_agent ==> name == "user-agent"@
            &&& after.anthropic_beta && !seen.anthropic_beta ==> name == "anthropic-beta"@
            &&& after.anthropic_version && !seen.anthropic_version ==> name
                == "anthropic-version"@
        }),
        plan.send_anthropic_headers && forwarded(
            plan,
            seen,
            "anthropic-version"@,
            value,
        ).1.len() > 0 ==> forwarded(plan, seen, "anthropic-version"@, value).0.anthropic_version,
        forwarded(plan, seen, "accept-encoding"@, value).1.len() > 0 ==> forwarded(
            plan,
            seen,
            "accept-encoding"@,
            value,
        ).0.accept_encoding,
        !plan.is_copilot && forwarded(plan, seen, "user-agent"@, value).1.len() > 0 ==> forwarded(
            plan,
            seen,
            "user-agent"@,
            value,
        ).0.user_agent,
        forwarded(plan, seen, "anthropic-beta"@, value).1.len() > 0 ==> forwarded(
            plan,
            seen,
            "anthropic-beta"@,
            value,
        ).0.anthropic_beta,
{
    reveal(forwarded);
    reveal_strlit("host");
    reveal_strlit("accept");
    reveal_strlit("accept-encoding");
    reveal_strlit("anthropic-version");
    reveal_strlit("anthropic-beta");
    reveal_strlit("user-agent");
    reveal_strlit("x-app");
    assert("host"@.len() == 4);
    assert("accept"@.len() == 6);
    assert("accept-encoding"@.len() == 15);
    assert("anthropic-version"@.len() == 17);
    assert("anthropic-beta"@.len() == 14);
    assert("user-agent"@.len() == 10);
    assert("x-app"@.len() == 5);
    lemma_own_names("accept-encoding"@);
    lemma_own_names("anthropic-version"@);
    lemma_own_names("anthropic-beta"@);
    lemma_own_names("user-agent"@);
}

} // verus!
