//! The headers of a request as it goes out to its upstream, from what is known of the attempt.

use vstd::prelude::*;
use vstd::string::*;
use vstd::utf8::*;
use crate::error::{ProxyError, ProxyErrorView};
use crate::forwarder::attempt::{forces_identity, is_codex_like, AttemptFacts, AttemptPlan};
use crate::forwarder::native_client::{AdapterKind, NativeClient, NativeClientView};
use crate::forwarder::request_headers::{
    anthropic_beta_value, apply_local_proxy_header_overrides, beta_value,
    build_codex_oauth_session_headers, build_upstream_headers, classified_headers,
    classify_copilot_headers, custom_user_agent, has_placeholder, managed_upstream_url, overridden,
    reject_proxy_placeholder_for_managed_account_upstream, session_headers, upstream_authority,
    upstream_headers, upstream_host, CopilotClassification, HeaderPlan, HeaderPlanView,
};
use crate::headers::{first_value, header_value, text_value, Headers, HeadersView};
use crate::provider::{AppType, Provider, ProviderView};
use crate::text::{is_text, opt_view};

verus! {

/// What is known of a request when its headers are made.
#[derive(Debug)]
pub struct OutgoingFacts {
    pub app_type: AppType,
    pub facts: AttemptFacts,
    pub plan: AttemptPlan,
    pub adapter: AdapterKind,
    /// The protocol of an Anthropic request.
    pub claude_api_format: Option<String>,
    pub streaming: bool,
    /// Whether the model was marked for a long context.
    pub one_m_context: bool,
    pub url: String,
    /// The headers that sign the request in, and the account that they do it for.
    pub auth_headers: Headers,
    pub account_id: Option<String>,
    /// How a request to Copilot is classified, where its tuning is on.
    pub classification: Option<CopilotClassification>,
    pub by_class: bool,
    /// The user agent that the provider is configured with.
    pub user_agent: Option<Vec<u8>>,
    /// The client's session, where the upstream is told about it.
    pub session_id: Option<String>,
}

/// How a request to Copilot is classified, as a mathematical value.
pub struct ClassificationView {
    pub initiator: Seq<char>,
    pub is_subagent: bool,
    pub request_id: Option<Seq<char>>,
    pub interaction_id: Option<Seq<char>>,
}

/// What is known of a request when its headers are made, as a mathematical value.
pub struct OutgoingFactsView {
    pub app_type: AppType,
    pub facts: AttemptFacts,
    pub plan: AttemptPlan,
    pub adapter: AdapterKind,
    pub claude_api_format: Option<Seq<char>>,
    pub streaming: bool,
    pub one_m_context: bool,
    pub url: Seq<char>,
    pub auth_headers: HeadersView,
    pub account_id: Option<Seq<char>>,
    pub classification: Option<ClassificationView>,
    pub by_class: bool,
    pub user_agent: Option<Seq<u8>>,
    pub session_id: Option<Seq<char>>,
}

impl View for OutgoingFacts {
    type V = OutgoingFactsView;

    open spec fn view(&self) -> OutgoingFactsView {
        OutgoingFactsView {
            app_type: self.app_type,
            facts: self.facts,
            plan: self.plan,
            adapter: self.adapter,
            claude_api_format: opt_view(self.claude_api_format),
            streaming: self.streaming,
            one_m_context: self.one_m_context,
            url: self.url@,
            auth_headers: self.auth_headers@,
            account_id: opt_view(self.account_id),
            classification: match self.classification {
                Some(class) => Some(
                    ClassificationView {
                        initiator: class.initiator@,
                        is_subagent: class.is_subagent,
                        request_id: opt_view(class.request_id),
                        interaction_id: opt_view(class.interaction_id),
                    },
                ),
                None => None,
            },
            by_class: self.by_class,
            user_agent: match self.user_agent {
                Some(agent) => Some(agent@),
                None => None,
            },
            session_id: opt_view(self.session_id),
        }
    }
}

/// The headers that sign a request in: those of the adapter, the account, and the classification.
pub open spec fn sign_in_headers(request: OutgoingFactsView) -> HeadersView {
    let account = match request.account_id {
        Some(id) => match text_value(id) {
            Some(value) => request.auth_headers.push(("chatgpt-account-id"@, value)),
            None => request.auth_headers,
        },
        None => request.auth_headers,
    };
    match request.classification {
        Some(class) => classified_headers(
            account,
            request.by_class,
            class.initiator,
            class.is_subagent,
            class.request_id,
            class.interaction_id,
        ),
        None => account,
    }
}

/// Whether a request goes out in the Anthropic protocol as it came.
pub open spec fn is_native(request: OutgoingFactsView) -> bool {
    request.adapter is Claude && request.claude_api_format == Some("anthropic"@)
}

/// How the headers of a request are made.
pub open spec fn header_plan(
    request: OutgoingFactsView,
    client: HeadersView,
    native: NativeClientView,
) -> HeaderPlanView {
    HeaderPlanView {
        upstream_host: upstream_authority(request.url),
        auth_headers: sign_in_headers(request),
        official_auth_passthrough: request.plan.official_auth_passthrough,
        codex_to_anthropic: request.plan.codex_to_anthropic,
        impersonate_claude_code: request.plan.impersonate_claude_code,
        force_identity: request.facts.needs_transform || request.streaming || (is_codex_like(
            request.app_type,
        ) && (request.facts.wants_chat || request.facts.wants_anthropic)),
        is_copilot: request.facts.is_copilot,
        custom_user_agent: match request.user_agent {
            Some(agent) if !request.facts.is_copilot => Some(agent),
            _ => if request.plan.impersonate_claude_code {
                Some(encode_utf8(native.user_agent))
            } else {
                None
            },
        },
        anthropic_beta: beta_value(
            is_native(request),
            first_value(client, "anthropic-beta"@),
            request.plan.impersonate_claude_code,
            request.one_m_context,
            native.beta,
        ),
        send_anthropic_headers: is_native(request),
        session_headers: match request.session_id {
            Some(id) => session_headers(id),
            None => Seq::empty(),
        },
    }
}

/// The headers of a request as it goes out: with the provider's overrides, and refused where they
/// would send the proxy's placeholder to an upstream that it signs in to itself.
pub open spec fn outgoing(
    request: OutgoingFactsView,
    provider: ProviderView,
    client: HeadersView,
    native: NativeClientView,
) -> Result<HeadersView, ProxyErrorView> {
    let made = upstream_headers(header_plan(request, client, native), client);
    let sent = match provider.meta {
        Some(meta) => match meta.local_proxy_request_overrides {
            Some(overrides) if !request.facts.is_copilot => overridden(made, overrides.headers),
            _ => made,
        },
        None => made,
    };
    if managed_upstream_url(request.url) && has_placeholder(sent) {
        Err(
            ProxyErrorView::AuthError(
                "Managed account proxy auth was not resolved; PROXY_MANAGED must not be sent upstream"@,
            ),
        )
    } else {
        Ok(sent)
    }
}

fn sign_in(
    auth_headers: Headers,
    account_id: &Option<String>,
    classification: &Option<CopilotClassification>,
    by_class: bool,
    request: Ghost<OutgoingFactsView>,
) -> (headers: Headers)
    requires
        request@.auth_headers == auth_headers@,
        request@.account_id == opt_view(*account_id),
        request@.by_class == by_class,
        request@.classification == match *classification {
            Some(class) => Some(
                ClassificationView {
                    initiator: class.initiator@,
                    is_subagent: class.is_subagent,
                    request_id: opt_view(class.request_id),
                    interaction_id: opt_view(class.interaction_id),
                },
            ),
            None => None,
        },
    ensures
        headers@ == sign_in_headers(request@),
{
    let mut signed = auth_headers;
    if let Some(id) = account_id {
        if let Some(value) = header_value(id.as_str()) {
            signed.append("chatgpt-account-id", value.as_slice());
        }
    }
    match classification {
        Some(class) => classify_copilot_headers(&signed, by_class, class),
        None => signed,
    }
}

/// Makes the headers of a request as it goes out.
pub fn outgoing_headers(
    request: OutgoingFacts,
    provider: &Provider,
    client: &Headers,
    native: &NativeClient,
) -> (result: Result<Headers, ProxyError>)
    ensures
        match (result, outgoing(request@, provider@, client@, native@)) {
            (Ok(headers), Ok(expected)) => headers@ == expected,
            (Err(error), Err(expected)) => error@ == expected,
            _ => false,
        },
{
    let ghost view = request@;
    let is_copilot = request.facts.is_copilot;
    let impersonate = request.plan.impersonate_claude_code;
    let native_protocol = match request.adapter {
        AdapterKind::Claude => is_text(&request.claude_api_format, "anthropic"),
        _ => false,
    };
    let upstream = upstream_host(request.url.as_str());
    let anthropic_beta = anthropic_beta_value(
        native_protocol,
        client,
        impersonate,
        request.one_m_context,
        native.beta.as_str(),
    );
    let force_identity = forces_identity(request.app_type, request.facts, request.streaming);
    let user_agent = custom_user_agent(
        is_copilot,
        request.user_agent,
        impersonate,
        native.user_agent.as_str(),
    );
    let session_headers = match &request.session_id {
        Some(id) => build_codex_oauth_session_headers(id.as_str()),
        None => Headers::new(),
    };
    let auth_headers = sign_in(
        request.auth_headers,
        &request.account_id,
        &request.classification,
        request.by_class,
        Ghost(view),
    );
    let plan = HeaderPlan {
        upstream_host: upstream,
        auth_headers,
        official_auth_passthrough: request.plan.official_auth_passthrough,
        codex_to_anthropic: request.plan.codex_to_anthropic,
        impersonate_claude_code: impersonate,
        force_identity,
        is_copilot,
        custom_user_agent: user_agent,
        anthropic_beta,
        send_anthropic_headers: native_protocol,
        session_headers,
    };
    assert(plan@ == header_plan(view, client@, native@));
    let mut headers = build_upstream_headers(&plan, client);
    match &provider.meta {
        Some(meta) => match &meta.local_proxy_request_overrides {
            Some(overrides) => apply_local_proxy_header_overrides(
                &mut headers,
                Some(overrides),
                is_copilot,
            ),
            None => {},
        },
        None => {},
    }
    match reject_proxy_placeholder_for_managed_account_upstream(request.url.as_str(), &headers) {
        Ok(()) => Ok(headers),
        Err(error) => Err(error),
    }
}

/// The proxy's placeholder never reaches an upstream that the proxy signs in to itself.
pub proof fn placeholders_never_reach_managed_upstreams(
    request: OutgoingFactsView,
    provider: ProviderView,
    client: HeadersView,
    native: NativeClientView,
)
    ensures
        outgoing(request, provider, client, native) matches Ok(headers) ==> !(managed_upstream_url(
            request.url,
        ) && has_placeholder(headers)),
{
}

/// A request is signed in with the adapter's headers, and with the account where it has one.
pub proof fn accounts_are_named(request: OutgoingFactsView, id: Seq<char>, value: Seq<u8>)
    ensures
        request.classification is None && request.account_id is None ==> sign_in_headers(request)
            == request.auth_headers,
        request.classification is None && request.account_id == Some(id) && text_value(id) == Some(
            value,
        ) ==> sign_in_headers(request).len() == request.auth_headers.len() + 1 && sign_in_headers(
            request,
        ).last() == ("chatgpt-account-id"@, value),
        request.classification is None ==> forall|i: int|
            0 <= i < request.auth_headers.len() ==> #[trigger] sign_in_headers(request)[i]
                == request.auth_headers[i],
{
}

/// What a request's headers are made from: the answer must not be compressed where it streams or is
/// converted; the provider's user agent comes before the native client's, and Copilot has its own;
/// the headers of the Anthropic protocol go out in that protocol alone; the session is named where
/// there is one.
pub proof fn headers_are_made_for_the_request(
    request: OutgoingFactsView,
    client: HeadersView,
    native: NativeClientView,
)
    ensures
        ({
            let plan = header_plan(request, client, native);
            let responses = request.app_type is Codex || request.app_type is GrokBuild;
            &&& plan.upstream_host == upstream_authority(request.url)
            &&& request.streaming ==> plan.force_identity
            &&& request.facts.needs_transform ==> plan.force_identity
            &&& responses && (request.facts.wants_chat || request.facts.wants_anthropic)
                ==> plan.force_identity
            &&& !request.streaming && !request.facts.needs_transform && !request.facts.wants_chat
                && !request.facts.wants_anthropic ==> !plan.force_identity
            &&& !request.streaming && !request.facts.needs_transform && !responses
                ==> !plan.force_identity
            &&& request.user_agent is Some && !request.facts.is_copilot ==> plan.custom_user_agent
                == request.user_agent
            &&& request.user_agent is None || request.facts.is_copilot ==> plan.custom_user_agent
                == (if request.plan.impersonate_claude_code {
                Some(encode_utf8(native.user_agent))
            } else {
                None
            })
            &&& plan.send_anthropic_headers <==> request.adapter is Claude
                && request.claude_api_format == Some("anthropic"@)
            &&& request.session_id is None ==> plan.session_headers.len() == 0
            &&& request.session_id matches Some(id) ==> plan.session_headers == session_headers(id)
            &&& plan.is_copilot == request.facts.is_copilot
            &&& plan.codex_to_anthropic == request.plan.codex_to_anthropic
            &&& plan.impersonate_claude_code == request.plan.impersonate_claude_code
            &&& plan.official_auth_passthrough == request.plan.official_auth_passthrough
            &&& plan.auth_headers == sign_in_headers(request)
        }),
{
}

/// A request is sent with the provider's overrides, which Copilot has none of, and is refused only
/// where the proxy's placeholder would go to an upstream that the proxy signs in to itself.
pub proof fn requests_go_out_with_their_overrides(
    request: OutgoingFactsView,
    provider: ProviderView,
    client: HeadersView,
    native: NativeClientView,
)
    ensures
        ({
            let made = upstream_headers(header_plan(request, client, native), client);
            let sent = outgoing(request, provider, client, native);
            &&& sent is Err ==> managed_upstream_url(request.url)
            &&& !managed_upstream_url(request.url) && (provider.meta is None
                || request.facts.is_copilot) ==> sent == Ok::<HeadersView, ProxyErrorView>(made)
            &&& provider.meta matches Some(meta) ==> {
                &&& !managed_upstream_url(request.url) && meta.local_proxy_request_overrides is None
                    ==> sent == Ok::<HeadersView, ProxyErrorView>(made)
                &&& meta.local_proxy_request_overrides matches Some(overrides) ==> (
                !managed_upstream_url(request.url) && !request.facts.is_copilot ==> sent
                    == Ok::<HeadersView, ProxyErrorView>(overridden(made, overrides.headers)))
            }
            &&& sent matches Err(error) ==> error is AuthError
            &&& provider.meta is None && managed_upstream_url(request.url) && has_placeholder(made)
                ==> sent is Err
        }),
{
}

} // verus!
