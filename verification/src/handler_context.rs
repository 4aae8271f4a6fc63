//! What is known of a request while it is served.

use vstd::prelude::*;
use vstd::string::*;
use crate::codex_auto_review::is_auto_review_model;
use crate::config::{
    AppProxyConfig, CopilotOptimizerConfig, OptimizerConfig, RectifierConfig,
};
use crate::error::{AppError, AppErrorView, ProxyError, ProxyErrorView};
use crate::forwarder::{route_model, RequestForwarder};
use crate::headers::{
    first_value, first_value_is_the_first, header_text, header_values, values_view, visible_text,
    Headers, HeadersView,
};
use crate::json::{Json, JsonView};
use crate::provider::{copy_providers, providers_view, AppType, Provider, ProviderView};
use crate::provider_router::{
    plan_result_view, ProviderRouteAttemptView, ProviderRoutePlan, ProviderRoutePlanView,
};
use crate::text::{
    contains, first_index, join, opt_view, pieces, same_text, split, split_first, split_once,
    texts_are_cut_at_the_first_occurrence, texts_view, trim, trimmed,
};

verus! {

/// A role whose requests are routed on their own.
#[derive(Debug, Clone, Copy, PartialEq, Eq, Structural)]
pub enum CodexRoleRoute {
    Frontend,
}

/// What the role headers of a request say.
#[derive(Debug, PartialEq, Eq)]
pub struct CodexRoleRouteHeaders {
    pub route: CodexRoleRoute,
    pub owner_provider_id: String,
    pub token: String,
}

/// Role headers as a mathematical value.
pub struct CodexRoleRouteHeadersView {
    pub route: CodexRoleRoute,
    pub owner_provider_id: Seq<char>,
    pub token: Seq<char>,
}

impl View for CodexRoleRouteHeaders {
    type V = CodexRoleRouteHeadersView;

    open spec fn view(&self) -> CodexRoleRouteHeadersView {
        CodexRoleRouteHeadersView {
            route: self.route,
            owner_provider_id: self.owner_provider_id@,
            token: self.token@,
        }
    }
}

/// A refusal of a request.
pub open spec fn refused(message: Seq<char>) -> ProxyErrorView {
    ProxyErrorView::InvalidRequest(message)
}

/// The value of a role header: it stands once, is a text, is not empty, and holds one value.
pub open spec fn role_header(headers: HeadersView, name: Seq<char>) -> Result<
    Option<Seq<char>>,
    ProxyErrorView,
> {
    let values = header_values(headers, name);
    if values.len() == 0 {
        Ok(None)
    } else if values.len() > 1 {
        Err(refused("Duplicate Codex role header: "@ + name))
    } else {
        match visible_text(values[0]) {
            None => Err(refused("Codex role header is not valid UTF-8: "@ + name)),
            Some(text) => if trimmed(text).len() == 0 {
                Err(refused("Codex role header is empty: "@ + name))
            } else if trimmed(text).contains(',') {
                Err(refused("Codex role header contains multiple values: "@ + name))
            } else {
                Ok(Some(trimmed(text)))
            },
        }
    }
}

/// The value of an optional text or of the error in its place.
pub open spec fn opt_text_result(result: Result<Option<String>, ProxyError>) -> Result<
    Option<Seq<char>>,
    ProxyErrorView,
> {
    match result {
        Ok(text) => Ok(opt_view(text)),
        Err(error) => Err(error@),
    }
}

/// The value of a role header.
pub fn unique_role_header(headers: &Headers, name: &str) -> (value: Result<
    Option<String>,
    ProxyError,
>)
    ensures
        opt_text_result(value) == role_header(headers@, name@),
{
    let values = headers.values(name);
    if values.len() == 0 {
        return Ok(None);
    }
    if values.len() > 1 {
        return Err(ProxyError::InvalidRequest(join("Duplicate Codex role header: ", name)));
    }
    assert(values_view(values@)[0] == values@[0]@);
    match header_text(values[0].as_slice()) {
        None => Err(
            ProxyError::InvalidRequest(join("Codex role header is not valid UTF-8: ", name)),
        ),
        Some(text) => {
            let value = trim(text.as_str());
            if value.is_empty() {
                return Err(ProxyError::InvalidRequest(join("Codex role header is empty: ", name)));
            }
            let rest = split_once(value, ',').1;
            proof {
                crate::text::first_index_is_first(value@, ',');
                if value@.contains(',') {
                    let k = choose|k: int| 0 <= k < value@.len() && value@[k] == ',';
                    assert(value@[k] == ',');
                } else if first_index(value@, ',') < value@.len() {
                    assert(value@.contains(value@[first_index(value@, ',')]));
                }
            }
            if rest.is_some() {
                return Err(
                    ProxyError::InvalidRequest(
                        join("Codex role header contains multiple values: ", name),
                    ),
                );
            }
            Ok(Some(value.to_owned()))
        },
    }
}

/// What the role headers of a request say: all three or none.
pub open spec fn role_route_headers(headers: HeadersView) -> Result<
    Option<CodexRoleRouteHeadersView>,
    ProxyErrorView,
> {
    match role_header(headers, "x-cc-switch-role-route"@) {
        Err(error) => Err(error),
        Ok(route) => match role_header(headers, "x-cc-switch-role-owner"@) {
            Err(error) => Err(error),
            Ok(owner) => match role_header(headers, "x-cc-switch-role-token"@) {
                Err(error) => Err(error),
                Ok(token) => match (route, owner, token) {
                    (None, None, None) => Ok(None),
                    (Some(route), Some(owner), Some(token)) => if route == "frontend"@ {
                        Ok(
                            Some(
                                CodexRoleRouteHeadersView {
                                    route: CodexRoleRoute::Frontend,
                                    owner_provider_id: owner,
                                    token,
                                },
                            ),
                        )
                    } else {
                        Err(refused("Unknown Codex role route: "@ + route))
                    },
                    _ => Err(
                        refused(
                            "Codex role route, owner, and token headers must be provided together"@,
                        ),
                    ),
                },
            },
        },
    }
}

/// The value of role headers or of the error in their place.
pub open spec fn role_result(
    result: Result<Option<CodexRoleRouteHeaders>, ProxyError>,
) -> Result<Option<CodexRoleRouteHeadersView>, ProxyErrorView> {
    match result {
        Ok(Some(headers)) => Ok(Some(headers@)),
        Ok(None) => Ok(None),
        Err(error) => Err(error@),
    }
}

/// What the role headers of a request say.
pub fn parse_codex_role_route_headers(headers: &Headers) -> (parsed: Result<
    Option<CodexRoleRouteHeaders>,
    ProxyError,
>)
    ensures
        role_result(parsed) == role_route_headers(headers@),
{
    let route = match unique_role_header(headers, "x-cc-switch-role-route") {
        Ok(route) => route,
        Err(error) => {
            return Err(error);
        },
    };
    let owner = match unique_role_header(headers, "x-cc-switch-role-owner") {
        Ok(owner) => owner,
        Err(error) => {
            return Err(error);
        },
    };
    let token = match unique_role_header(headers, "x-cc-switch-role-token") {
        Ok(token) => token,
        Err(error) => {
            return Err(error);
        },
    };
    match (route, owner, token) {
        (None, None, None) => Ok(None),
        (Some(route), Some(owner_provider_id), Some(token)) => {
            if same_text(route.as_str(), "frontend") {
                Ok(
                    Some(
                        CodexRoleRouteHeaders {
                            route: CodexRoleRoute::Frontend,
                            owner_provider_id,
                            token,
                        },
                    ),
                )
            } else {
                Err(
                    ProxyError::InvalidRequest(join("Unknown Codex role route: ", route.as_str())),
                )
            }
        },
        _ => Err(
            ProxyError::InvalidRequest(
                "Codex role route, owner, and token headers must be provided together".to_owned(),
            ),
        ),
    }
}

/// Whether any role header is there.
pub open spec fn has_role_header(headers: HeadersView) -> bool {
    ||| first_value(headers, "x-cc-switch-role-route"@) is Some
    ||| first_value(headers, "x-cc-switch-role-owner"@) is Some
    ||| first_value(headers, "x-cc-switch-role-token"@) is Some
}

/// The role a request is routed by. Only Codex has roles, and role headers are taken only from
/// the machine itself.
pub open spec fn role_route_for_request(
    app_type: AppType,
    headers: HeadersView,
    from_loopback: bool,
) -> Result<Option<CodexRoleRouteHeadersView>, ProxyErrorView> {
    if !(app_type is Codex) {
        Ok(None)
    } else if has_role_header(headers) && !from_loopback {
        Err(refused("Codex role routing is only accepted from the local loopback interface"@))
    } else {
        role_route_headers(headers)
    }
}

/// The role a request is routed by. `from_loopback` says whether the peer's address is known
/// and a loopback address.
pub fn codex_role_route_for_request(
    app_type: AppType,
    body: &Json,
    headers: &Headers,
    from_loopback: bool,
) -> (role: Result<Option<CodexRoleRouteHeaders>, ProxyError>)
    ensures
        role_result(role) == role_route_for_request(app_type, headers@, from_loopback),
{
    match app_type {
        AppType::Codex => {},
        _ => {
            return Ok(None);
        },
    }
    let has_role_header = headers.has("x-cc-switch-role-route") || headers.has(
        "x-cc-switch-role-owner",
    ) || headers.has("x-cc-switch-role-token");
    if has_role_header && !from_loopback {
        return Err(
            ProxyError::InvalidRequest(
                "Codex role routing is only accepted from the local loopback interface".to_owned(),
            ),
        );
    }
    proof {
        no_role_without_headers(headers@);
    }
    if !has_role_header && is_auto_review_model(app_type, body) {
        return Ok(None);
    }
    parse_codex_role_route_headers(headers)
}

/// Without role headers there is no role.
pub proof fn no_role_without_headers(headers: HeadersView)
    ensures
        !has_role_header(headers) ==> role_route_headers(headers) == Ok::<
            Option<CodexRoleRouteHeadersView>,
            ProxyErrorView,
        >(None),
{
    first_value_is_the_first(headers, "x-cc-switch-role-route"@);
    first_value_is_the_first(headers, "x-cc-switch-role-owner"@);
    first_value_is_the_first(headers, "x-cc-switch-role-token"@);
}

/// A role is taken from a request only where the request comes from the machine itself and all
/// three headers are there, each once.
pub proof fn roles_come_from_loopback_with_all_headers(
    app_type: AppType,
    headers: HeadersView,
    from_loopback: bool,
)
    ensures
        role_route_for_request(app_type, headers, from_loopback) matches Ok(Some(_)) ==> {
            &&& app_type is Codex
            &&& from_loopback
            &&& header_values(headers, "x-cc-switch-role-route"@).len() == 1
            &&& header_values(headers, "x-cc-switch-role-owner"@).len() == 1
            &&& header_values(headers, "x-cc-switch-role-token"@).len() == 1
        },
{
    no_role_without_headers(headers);
}

/// The error of a request for which no provider could be selected.
pub open spec fn selection_error(error: AppErrorView) -> ProxyErrorView {
    match error {
        AppErrorView::AllProvidersCircuitOpen => ProxyErrorView::AllProvidersCircuitOpen,
        AppErrorView::NoProvidersConfigured => ProxyErrorView::NoProvidersConfigured,
        AppErrorView::InvalidInput(message) => ProxyErrorView::InvalidRequest(message),
        other => ProxyErrorView::DatabaseError(other.message()),
    }
}

/// The error of a request for which no provider could be selected.
pub fn map_provider_selection_error(error: AppError) -> (mapped: ProxyError)
    ensures
        mapped@ == selection_error(error@),
{
    match error {
        AppError::AllProvidersCircuitOpen => ProxyError::AllProvidersCircuitOpen,
        AppError::NoProvidersConfigured => ProxyError::NoProvidersConfigured,
        AppError::InvalidInput(message) => ProxyError::InvalidRequest(message),
        _ => ProxyError::DatabaseError(error.message()),
    }
}

/// The position of a text in a list, or the length where it is not in it.
pub open spec fn position(texts: Seq<Seq<char>>, text: Seq<char>) -> int
    decreases texts.len(),
{
    if texts.len() == 0 || texts[0] == text {
        0
    } else {
        1 + position(texts.skip(1), text)
    }
}

/// The model named in a Gemini path: what follows the first `models` segment, without action
/// and query.
pub open spec fn gemini_model(path: Seq<char>) -> Option<Seq<char>> {
    let segments = pieces(path, '/');
    let at = position(segments, "models"@) + 1;
    if at < segments.len() {
        let model = split_first(split_first(segments[at], '?').0, ':').0;
        if model.len() > 0 {
            Some(model)
        } else {
            None
        }
    } else {
        None
    }
}

/// The model named in a Gemini path.
pub fn extract_gemini_model_from_path(endpoint: &str) -> (model: Option<String>)
    ensures
        opt_view(model) == gemini_model(endpoint@),
{
    let segments = split(endpoint, '/');
    let ghost views = texts_view(segments@);
    let mut i: usize = 0;
    assert(views.skip(0) =~= views);
    while i < segments.len() && !same_text(segments[i].as_str(), "models")
        invariant
            i <= segments@.len(),
            views == texts_view(segments@),
            position(views, "models"@) == i + position(views.skip(i as int), "models"@),
        decreases segments@.len() - i,
    {
        assert(views.skip(i as int)[0] == segments@[i as int]@);
        assert(views.skip(i as int).skip(1) =~= views.skip(i + 1));
        i = i + 1;
    }
    assert(i < segments@.len() ==> views.skip(i as int)[0] == segments@[i as int]@);
    if i >= segments.len() || i + 1 >= segments.len() {
        return None;
    }
    let segment = segments[i + 1].as_str();
    assert(views[i + 1] == segment@);
    let model = split_once(split_once(segment, '?').0, ':').0;
    if model.is_empty() {
        None
    } else {
        Some(model.to_owned())
    }
}

/// Timeouts of a stream, in seconds; zero for none.
#[derive(Debug, Clone, Copy, PartialEq, Eq, Structural)]
pub struct StreamingTimeoutConfig {
    pub first_byte_timeout: u64,
    pub idle_timeout: u64,
}

/// What is known of a request when its context is made.
#[derive(Debug)]
pub struct RequestSetup {
    pub start_ms: u64,
    pub app_config: AppProxyConfig,
    pub current_provider_id: String,
    pub tag: String,
    pub app_type_str: String,
    pub app_type: AppType,
    pub session_id: String,
    pub session_client_provided: bool,
    pub rectifier_config: RectifierConfig,
    pub optimizer_config: OptimizerConfig,
    pub copilot_optimizer_config: CopilotOptimizerConfig,
}

/// What is known of a request while it is served.
#[derive(Debug)]
pub struct RequestContext {
    pub start_ms: u64,
    pub app_config: AppProxyConfig,
    /// The provider that is tried first.
    pub provider: Provider,
    /// The providers of the request, in order.
    pub providers: Vec<Provider>,
    /// How the request is routed.
    pub route_plan: ProviderRoutePlan,
    /// The owner of the role the request is routed by.
    pub role_route_owner_id: Option<String>,
    /// The provider that was the current one when the request came in.
    pub current_provider_id: String,
    pub request_model: String,
    /// The model that was asked of the upstream, once a request was forwarded.
    pub outbound_model: Option<String>,
    pub tag: String,
    pub app_type_str: String,
    pub app_type: AppType,
    pub session_id: String,
    pub session_client_provided: bool,
    pub rectifier_config: RectifierConfig,
    pub optimizer_config: OptimizerConfig,
    pub copilot_optimizer_config: CopilotOptimizerConfig,
}

/// The model a request asks for.
pub open spec fn asked_model(body: JsonView) -> Seq<char> {
    match body.member_text("model"@) {
        Some(model) => model,
        None => "unknown"@,
    }
}

impl RequestContext {
    /// The providers of the request, in order.
    pub open spec fn provider_list(self) -> Seq<ProviderView> {
        providers_view(self.providers@)
    }

    /// How the request is routed.
    pub open spec fn plan(self) -> ProviderRoutePlanView {
        self.route_plan@
    }

    /// The owner of the role the request is routed by.
    pub open spec fn role_owner(self) -> Option<Seq<char>> {
        opt_view(self.role_route_owner_id)
    }

    /// The context of a request whose peer is not known: role headers are refused.
    pub fn new(
        setup: RequestSetup,
        body: &Json,
        headers: &Headers,
        selected: Result<ProviderRoutePlan, AppError>,
    ) -> (context: Result<RequestContext, ProxyError>)
        ensures
            context_made(setup, body@, headers@, false, plan_result_view(selected), context),
    {
        RequestContext::new_with_peer_addr(setup, body, headers, false, selected)
    }

    /// The context of a request. `selected` is the plan of the role the headers name, where role
    /// routing gave one, and the ordinary plan otherwise.
    pub fn new_with_peer_addr(
        setup: RequestSetup,
        body: &Json,
        headers: &Headers,
        from_loopback: bool,
        selected: Result<ProviderRoutePlan, AppError>,
    ) -> (context: Result<RequestContext, ProxyError>)
        ensures
            context_made(
                setup,
                body@,
                headers@,
                from_loopback,
                plan_result_view(selected),
                context,
            ),
    {
        let role_route_owner_id = match codex_role_route_for_request(
            setup.app_type,
            body,
            headers,
            from_loopback,
        ) {
            Ok(Some(role)) => Some(role.owner_provider_id),
            Ok(None) => None,
            Err(error) => {
                return Err(error);
            },
        };
        let route_plan = match selected {
            Ok(plan) => plan,
            Err(error) => {
                return Err(map_provider_selection_error(error));
            },
        };
        let providers = route_plan.providers();
        assert(providers_view(providers@).len() == route_plan@.attempts.len());
        if providers.len() == 0 {
            return Err(ProxyError::NoAvailableProvider);
        }
        let provider = providers[0].copy();
        assert(providers_view(providers@)[0] == provider@);
        assert(providers_view(providers@)[0] == route_plan@.attempts[0].provider);
        let request_model = match body.get_str("model") {
            Some(model) => model.to_owned(),
            None => "unknown".to_owned(),
        };
        Ok(
            RequestContext {
                start_ms: setup.start_ms,
                app_config: setup.app_config,
                provider,
                providers,
                route_plan,
                role_route_owner_id,
                current_provider_id: setup.current_provider_id,
                request_model,
                outbound_model: None,
                tag: setup.tag,
                app_type_str: setup.app_type_str,
                app_type: setup.app_type,
                session_id: setup.session_id,
                session_client_provided: setup.session_client_provided,
                rectifier_config: setup.rectifier_config,
                optimizer_config: setup.optimizer_config,
                copilot_optimizer_config: setup.copilot_optimizer_config,
            },
        )
    }

    /// The context with the model named in the path of the request, as Gemini has it.
    pub fn with_model_from_uri(self, path: &str) -> (context: RequestContext)
        ensures
            context.request_model@ == (match gemini_model(path@) {
                Some(model) => model,
                None => "unknown"@,
            }),
            same_but_model(self, context),
    {
        let mut context = self;
        context.request_model = match extract_gemini_model_from_path(path) {
            Some(model) => model,
            None => "unknown".to_owned(),
        };
        context
    }

    /// The forwarder of the request. Without failover nothing is timed and one provider is tried,
    /// unless the route says otherwise.
    pub fn create_forwarder(&self, provider_retry_enabled: bool) -> (forwarder: RequestForwarder)
        ensures
            forwarder.non_streaming_timeout == if self.plan().use_failover_timeouts {
                self.app_config.non_streaming_timeout as int
            } else {
                0
            },
            forwarder.streaming_first_byte_timeout == if self.plan().use_failover_timeouts {
                self.app_config.streaming_first_byte_timeout as int
            } else {
                0
            },
            forwarder.max_attempts == if !self.plan().sync_logical_target {
                if self.plan().attempts.len() > 1 {
                    self.plan().attempts.len() as int
                } else {
                    1
                }
            } else if !self.app_config.auto_failover_enabled {
                1
            } else if self.app_config.max_retries < usize::MAX {
                self.app_config.max_retries + 1
            } else {
                usize::MAX as int
            },
            forwarder.current_provider_id_at_start@ == self.current_provider_id@,
            forwarder.session_id@ == self.session_id@,
            forwarder.session_client_provided == self.session_client_provided,
            forwarder.rectifier_config == self.rectifier_config,
            forwarder.optimizer_config == self.optimizer_config,
            forwarder.copilot_optimizer_config == self.copilot_optimizer_config,
            forwarder.provider_retry_enabled == provider_retry_enabled,
            forwarder.sync_logical_target == self.plan().sync_logical_target,
            forwarder.bypass_single_provider_circuit_breaker
                == self.plan().bypass_single_provider_circuit_breaker,
            forall|id: Seq<char>| #[trigger]
                forwarder.override_for(id) == route_model(self.plan().attempts, id),
            opt_view(forwarder.role_route_owner_id) == self.role_owner(),
            opt_view(forwarder.role_capability_model) == if self.role_owner() is Some {
                Some(self.request_model@)
            } else {
                None
            },
    {
        let (non_streaming_timeout, first_byte_timeout): (u64, u64) =
            if self.route_plan.use_failover_timeouts {
            (
                self.app_config.non_streaming_timeout as u64,
                self.app_config.streaming_first_byte_timeout as u64,
            )
        } else {
            (0, 0)
        };
        let max_retries: u32 = if self.app_config.auto_failover_enabled {
            self.app_config.max_retries
        } else {
            0
        };
        let plain = RequestForwarder::new(
            non_streaming_timeout,
            self.current_provider_id.clone(),
            self.session_id.clone(),
            self.session_client_provided,
            first_byte_timeout,
            self.rectifier_config,
            self.optimizer_config,
            self.copilot_optimizer_config,
            max_retries,
            provider_retry_enabled,
        );
        let routed = plain.with_route_plan(&self.route_plan);
        let forwarder = routed.with_role_context(
            &self.role_route_owner_id,
            self.request_model.as_str(),
        );
        assert forall|id: Seq<char>| #[trigger]
            forwarder.override_for(id) == route_model(self.plan().attempts, id) by {
            assert(routed.override_for(id) == route_model(self.plan().attempts, id));
        }
        forwarder
    }

    /// The providers of the request, in order.
    pub fn get_providers(&self) -> (providers: Vec<Provider>)
        ensures
            providers_view(providers@) == self.provider_list(),
    {
        copy_providers(&self.providers)
    }

    /// The milliseconds since the request came in.
    pub fn latency_ms(&self, now_ms: u64) -> (latency: u64)
        ensures
            latency == (if now_ms >= self.start_ms {
                (now_ms - self.start_ms) as u64
            } else {
                0
            }),
    {
        now_ms.saturating_sub(self.start_ms)
    }

    /// The timeouts of a streamed response: as configured where the route has timeouts, and
    /// none otherwise.
    pub fn streaming_timeout_config(&self) -> (timeouts: StreamingTimeoutConfig)
        ensures
            timeouts == (if self.plan().use_failover_timeouts {
                StreamingTimeoutConfig {
                    first_byte_timeout: self.app_config.streaming_first_byte_timeout as u64,
                    idle_timeout: self.app_config.streaming_idle_timeout as u64,
                }
            } else {
                StreamingTimeoutConfig { first_byte_timeout: 0, idle_timeout: 0 }
            }),
    {
        if self.route_plan.use_failover_timeouts {
            StreamingTimeoutConfig {
                first_byte_timeout: self.app_config.streaming_first_byte_timeout as u64,
                idle_timeout: self.app_config.streaming_idle_timeout as u64,
            }
        } else {
            StreamingTimeoutConfig { first_byte_timeout: 0, idle_timeout: 0 }
        }
    }
}

/// Whether two contexts differ in the model only.
pub open spec fn same_but_model(a: RequestContext, b: RequestContext) -> bool {
    &&& a.provider_list() == b.provider_list()
    &&& a.plan() == b.plan()
    &&& a.role_owner() == b.role_owner()
    &&& a.start_ms == b.start_ms
    &&& a.app_config == b.app_config
    &&& a.provider == b.provider
    &&& a.current_provider_id == b.current_provider_id
    &&& a.outbound_model == b.outbound_model
    &&& a.tag == b.tag
    &&& a.app_type_str == b.app_type_str
    &&& a.app_type == b.app_type
    &&& a.session_id == b.session_id
    &&& a.session_client_provided == b.session_client_provided
    &&& a.rectifier_config == b.rectifier_config
    &&& a.optimizer_config == b.optimizer_config
    &&& a.copilot_optimizer_config == b.copilot_optimizer_config
}

/// What making the context of a request comes to. Role headers that are refused come first, then
/// an error of the selection, then an empty plan.
pub open spec fn context_made(
    setup: RequestSetup,
    body: JsonView,
    headers: HeadersView,
    from_loopback: bool,
    selected: Result<ProviderRoutePlanView, AppErrorView>,
    context: Result<RequestContext, ProxyError>,
) -> bool {
    match role_route_for_request(setup.app_type, headers, from_loopback) {
        Err(error) => context matches Err(actual) && actual@ == error,
        Ok(role) => match selected {
            Err(error) => context matches Err(actual) && actual@ == selection_error(error),
            Ok(plan) => if plan.attempts.len() == 0 {
                context matches Err(actual) && actual@ == ProxyErrorView::NoAvailableProvider
            } else {
                &&& context matches Ok(made)
                &&& made.plan() == plan
                &&& made.provider_list() == plan.attempts.map_values(
                    |attempt: ProviderRouteAttemptView| attempt.provider,
                )
                &&& made.provider@ == plan.attempts[0].provider
                &&& made.role_owner() == (match role {
                    Some(role) => Some(role.owner_provider_id),
                    None => None,
                })
                &&& made.request_model@ == asked_model(body)
                &&& made.outbound_model is None
                &&& made.start_ms == setup.start_ms
                &&& made.app_config == setup.app_config
                &&& made.current_provider_id == setup.current_provider_id
                &&& made.tag == setup.tag
                &&& made.app_type_str == setup.app_type_str
                &&& made.app_type == setup.app_type
                &&& made.session_id == setup.session_id
                &&& made.session_client_provided == setup.session_client_provided
                &&& made.rectifier_config == setup.rectifier_config
                &&& made.optimizer_config == setup.optimizer_config
                &&& made.copilot_optimizer_config == setup.copilot_optimizer_config
            },
        },
    }
}

/// A role header says what it holds, without white space at its ends, where it stands once, is a
/// text, is not blank and holds no comma; where it is missing it says nothing, and else it is
/// refused.
pub proof fn role_headers_hold_one_value(headers: HeadersView, name: Seq<char>)
    ensures
        ({
            let values = header_values(headers, name);
            &&& values.len() == 0 <==> role_header(headers, name) == Ok::<
                Option<Seq<char>>,
                ProxyErrorView,
            >(None)
            &&& values.len() > 1 ==> role_header(headers, name) is Err
            &&& values.len() == 1 ==> match visible_text(values[0]) {
                Some(text) => {
                    let value = trimmed(text);
                    &&& value.len() > 0 && !value.contains(',') ==> role_header(headers, name)
                        == Ok::<Option<Seq<char>>, ProxyErrorView>(Some(value))
                    &&& value.len() == 0 || value.contains(',') ==> role_header(headers, name)
                        is Err
                },
                None => role_header(headers, name) is Err,
            }
            &&& role_header(headers, name) matches Err(error) ==> error is InvalidRequest
        }),
{
}

/// A request of Codex from the machine itself whose three role headers are good names the frontend
/// role, its owner and its token; another role, or some of the headers without the others, is
/// refused, and so is any role header from elsewhere.
pub proof fn roles_are_named_by_three_headers(headers: HeadersView)
    ensures
        ({
            let route = role_header(headers, "x-cc-switch-role-route"@);
            let owner = role_header(headers, "x-cc-switch-role-owner"@);
            let token = role_header(headers, "x-cc-switch-role-token"@);
            let named = role_route_for_request(AppType::Codex, headers, true);
            &&& route matches Ok(Some(role)) ==> (owner matches Ok(Some(id)) ==> (
            token matches Ok(Some(secret)) ==> (role == "frontend"@ ==> named == Ok::<
                Option<CodexRoleRouteHeadersView>,
                ProxyErrorView,
            >(
                Some(
                    CodexRoleRouteHeadersView {
                        route: CodexRoleRoute::Frontend,
                        owner_provider_id: id,
                        token: secret,
                    },
                ),
            )) && (role != "frontend"@ ==> named is Err)))
            &&& route is Err || owner is Err || token is Err ==> named is Err
            &&& route is Ok && owner is Ok && token is Ok && (route->Ok_0 is None || owner->Ok_0
                is None || token->Ok_0 is None) && !(route->Ok_0 is None && owner->Ok_0 is None
                && token->Ok_0 is None) ==> named is Err
            &&& (header_values(headers, "x-cc-switch-role-route"@).len() > 0 || header_values(
                headers,
                "x-cc-switch-role-owner"@,
            ).len() > 0 || header_values(headers, "x-cc-switch-role-token"@).len() > 0)
                ==> role_route_for_request(AppType::Codex, headers, false) is Err
        }),
{
    first_value_is_the_first(headers, "x-cc-switch-role-route"@);
    first_value_is_the_first(headers, "x-cc-switch-role-owner"@);
    first_value_is_the_first(headers, "x-cc-switch-role-token"@);
}

/// Requests of other apps have no role, whatever their headers say.
pub proof fn other_apps_have_no_roles(
    app_type: AppType,
    headers: HeadersView,
    from_loopback: bool,
)
    requires
        app_type != AppType::Codex,
    ensures
        role_route_for_request(app_type, headers, from_loopback) == Ok::<
            Option<CodexRoleRouteHeadersView>,
            ProxyErrorView,
        >(None),
{
}

/// What stands in the way of a selection is told as what it is.
pub proof fn selections_fail_for_what_it_is(error: AppErrorView)
    ensures
        error is AllProvidersCircuitOpen ==> selection_error(error)
            == ProxyErrorView::AllProvidersCircuitOpen,
        error is NoProvidersConfigured ==> selection_error(error)
            == ProxyErrorView::NoProvidersConfigured,
        error matches AppErrorView::InvalidInput(message) ==> selection_error(error)
            == ProxyErrorView::InvalidRequest(message),
        error is Config || error is Message ==> selection_error(error)
            == ProxyErrorView::DatabaseError(error.message()),
{
}

proof fn lemma_position_is_first(texts: Seq<Seq<char>>, text: Seq<char>, at: int)
    requires
        0 <= at < texts.len(),
        texts[at] == text,
        forall|k: int| 0 <= k < at ==> #[trigger] texts[k] != text,
    ensures
        position(texts, text) == at,
    decreases texts.len(),
{
    if at > 0 {
        assert(texts[0] != text);
        let rest = texts.skip(1);
        assert(rest[at - 1] == text);
        assert forall|k: int| 0 <= k < at - 1 implies #[trigger] rest[k] != text by {
            assert(texts[k + 1] != text);
        }
        lemma_position_is_first(rest, text, at - 1);
    }
}

/// The model of a Gemini path is what stands behind the first segment for models, up to a query or
/// an action.
pub proof fn gemini_paths_name_their_model(
    path: Seq<char>,
    at: int,
    model: Seq<char>,
    action: Seq<char>,
)
    requires
        0 <= at,
        at + 1 < pieces(path, '/').len(),
        pieces(path, '/')[at] == "models"@,
        forall|k: int| 0 <= k < at ==> #[trigger] pieces(path, '/')[k] != "models"@,
        model.len() > 0,
        !model.contains('?'),
        !model.contains(':'),
        !action.contains('?'),
        pieces(path, '/')[at + 1] == model || pieces(path, '/')[at + 1] == model + seq![':'] + action,
    ensures
        gemini_model(path) == Some(model),
{
    lemma_position_is_first(pieces(path, '/'), "models"@, at);
    let segment = pieces(path, '/')[at + 1];
    assert(!segment.contains('?')) by {
        if segment.contains('?') {
            let k = segment.index_of('?');
            if k < model.len() {
                assert(model[k] == '?');
            } else if k > model.len() {
                assert(action[k - model.len() - 1] == '?');
            }
        }
    }
    texts_are_cut_at_the_first_occurrence(segment, '?', Seq::empty());
    texts_are_cut_at_the_first_occurrence(model, ':', action);
}

/// A context is made of what was selected: its providers are those of the plan in their order, the
/// first of them is the one it begins with, and its model is the one that was asked for.
pub proof fn contexts_are_made_of_the_plan(
    setup: RequestSetup,
    body: JsonView,
    headers: HeadersView,
    from_loopback: bool,
    selected: Result<ProviderRoutePlanView, AppErrorView>,
    context: Result<RequestContext, ProxyError>,
    i: int,
)
    requires
        context_made(setup, body, headers, from_loopback, selected, context),
    ensures
        role_route_for_request(setup.app_type, headers, from_loopback) matches Err(error)
            ==> (context matches Err(actual) && actual@ == error),
        role_route_for_request(setup.app_type, headers, from_loopback) is Ok ==> (
        selected matches Err(error) ==> (context matches Err(actual) && actual@ == selection_error(
            error,
        ))),
        role_route_for_request(setup.app_type, headers, from_loopback) is Ok ==> (
        selected matches Ok(plan) ==> (plan.attempts.len() == 0 ==> (context matches Err(actual)
            && actual@ == ProxyErrorView::NoAvailableProvider))),
        role_route_for_request(setup.app_type, headers, from_loopback) is Ok ==> (
        selected matches Ok(plan) ==> (plan.attempts.len() > 0 ==> context is Ok)),
        context matches Ok(made) ==> (selected matches Ok(plan) && {
            &&& made.plan() == plan
            &&& made.provider@ == plan.attempts[0].provider
            &&& made.provider_list().len() == plan.attempts.len()
            &&& 0 <= i < plan.attempts.len() ==> made.provider_list()[i]
                == plan.attempts[i].provider
            &&& made.outbound_model is None
            &&& body.member("model"@) is None ==> made.request_model@ == "unknown"@
            &&& body.member("model"@) matches Some(JsonView::Str(model)) ==> made.request_model@
                == model
            &&& made.app_type == setup.app_type
        }),
{
}

/// A request belongs to the role that its headers name, and to none without them.
pub proof fn contexts_know_their_role(
    setup: RequestSetup,
    body: JsonView,
    headers: HeadersView,
    from_loopback: bool,
    selected: Result<ProviderRoutePlanView, AppErrorView>,
    context: Result<RequestContext, ProxyError>,
)
    requires
        context_made(setup, body, headers, from_loopback, selected, context),
    ensures
        context matches Ok(made) ==> match role_route_for_request(
            setup.app_type,
            headers,
            from_loopback,
        ) {
            Ok(Some(role)) => made.role_owner() == Some(role.owner_provider_id),
            Ok(None) => made.role_owner() is None,
            Err(_) => false,
        },
{
}

/// A request's forwarder waits as its route says: with the configured times where the route fails
/// over, and without any where it does not; it tries as many providers as there may be retries and one
/// more, one where it does not fail over, and all of a route that leaves the current provider alone.
pub proof fn forwarders_follow_the_route(
    context: &RequestContext,
    enabled: bool,
    forwarder: RequestForwarder,
)
    requires
        call_ensures(RequestContext::create_forwarder, (context, enabled), forwarder),
    ensures
        context.plan().use_failover_timeouts ==> {
            &&& forwarder.non_streaming_timeout == context.app_config.non_streaming_timeout
            &&& forwarder.streaming_first_byte_timeout
                == context.app_config.streaming_first_byte_timeout
        },
        !context.plan().use_failover_timeouts ==> forwarder.non_streaming_timeout == 0
            && forwarder.streaming_first_byte_timeout == 0,
        context.plan().sync_logical_target && context.app_config.auto_failover_enabled
            && context.app_config.max_retries < usize::MAX ==> forwarder.max_attempts
            == context.app_config.max_retries + 1,
        context.plan().sync_logical_target && !context.app_config.auto_failover_enabled
            ==> forwarder.max_attempts == 1,
        !context.plan().sync_logical_target && context.plan().attempts.len() > 0
            ==> forwarder.max_attempts == context.plan().attempts.len(),
        forwarder.max_attempts >= 1,
        forwarder.provider_retry_enabled == enabled,
        forwarder.sync_logical_target == context.plan().sync_logical_target,
        context.role_owner() is None ==> forwarder.role_capability_model is None,
        context.role_owner() is Some ==> opt_view(forwarder.role_capability_model) == Some(
            context.request_model@,
        ),
        forall|id: Seq<char>| #[trigger]
            forwarder.override_for(id) == route_model(context.plan().attempts, id),
{
}

/// A request has taken as long as it is since it began, and a clock that went back does not count; a
/// stream is timed where its route fails over.
pub proof fn requests_are_timed(
    context: &RequestContext,
    now: u64,
    latency: u64,
    timeouts: StreamingTimeoutConfig,
)
    requires
        call_ensures(RequestContext::latency_ms, (context, now), latency),
        call_ensures(RequestContext::streaming_timeout_config, (context,), timeouts),
    ensures
        now >= context.start_ms ==> context.start_ms + latency == now,
        now < context.start_ms ==> latency == 0,
        context.plan().use_failover_timeouts ==> timeouts.first_byte_timeout
            == context.app_config.streaming_first_byte_timeout && timeouts.idle_timeout
            == context.app_config.streaming_idle_timeout,
        !context.plan().use_failover_timeouts ==> timeouts.first_byte_timeout == 0
            && timeouts.idle_timeout == 0,
{
}

} // verus!
