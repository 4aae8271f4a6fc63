//! Forwarding of a request to the providers of its route.

use vstd::prelude::*;
use vstd::string::*;
use crate::codex_auto_review::{apply_initial_policy, initial_model};
use crate::config::{CopilotOptimizerConfig, OptimizerConfig, RectifierConfig};
use crate::error::ProxyError;
use crate::forwarder::deadline::PreOutputDeadline;
use crate::forwarder::request_body::apply_model_override;
use crate::forwarder::run::{ForwardRun, ForwardRunView, RunStage};
use crate::json::{Json, JsonView};
use crate::provider::{AppType, Provider};
use crate::provider_retry::{resolve_retry_policy_with_global, resolved_policy, ResolvedRetryPolicy};
use crate::provider_router::{attempts_view, ProviderRouteAttemptView, ProviderRoutePlan};
use crate::text::{opt_view, same_text};
use crate::text_map::TextMap;

pub mod attempt;
pub mod deadline;
pub mod endpoint;
pub mod final_body;
pub mod json_probe;
pub mod log_text;
pub mod native_client;
pub mod outgoing;
pub mod productive;
pub mod request_body;
pub mod request_headers;
pub mod response_body;
pub mod responses;
pub mod retry;
pub mod role_stream;
pub mod run;
pub mod sse;
pub mod status;
pub mod stream_start;

verus! {

/// What a forwarded request came to, besides its response.
#[derive(Debug)]
pub struct ForwardResult {
    pub provider: Provider,
    pub claude_api_format: Option<String>,
    /// The model that was asked of the upstream.
    pub outbound_model: Option<String>,
}

/// Why a request could not be forwarded, and the provider that the error came from.
#[derive(Debug)]
pub struct ForwardError {
    pub error: ProxyError,
    pub provider: Option<Provider>,
}

/// How one request is forwarded.
#[derive(Debug)]
pub struct RequestForwarder {
    /// The provider that was the current one when the request came in.
    pub current_provider_id_at_start: String,
    pub session_id: String,
    pub session_client_provided: bool,
    pub rectifier_config: RectifierConfig,
    pub optimizer_config: OptimizerConfig,
    pub copilot_optimizer_config: CopilotOptimizerConfig,
    /// Seconds; zero for no timeout.
    pub non_streaming_timeout: u64,
    /// Seconds; zero for no timeout.
    pub streaming_first_byte_timeout: u64,
    /// The most providers that are tried.
    pub max_attempts: usize,
    pub provider_retry_enabled: bool,
    /// Whether a successful attempt makes its provider the current one.
    pub sync_logical_target: bool,
    pub bypass_single_provider_circuit_breaker: bool,
    /// The models that the route fixes, by provider.
    pub outbound_model_overrides: TextMap<String>,
    pub role_route_owner_id: Option<String>,
    pub role_capability_model: Option<String>,
}

/// The model that a route fixes for a provider: that of the last attempt that fixes one.
pub open spec fn route_model(attempts: Seq<ProviderRouteAttemptView>, id: Seq<char>) -> Option<
    Seq<char>,
>
    decreases attempts.len(),
{
    if attempts.len() == 0 {
        None
    } else if attempts.last().provider.id == id && attempts.last().outbound_model_override is Some {
        attempts.last().outbound_model_override
    } else {
        route_model(attempts.drop_last(), id)
    }
}

/// The model of a provider in a map of models.
pub open spec fn model_in(models: Map<Seq<char>, String>, id: Seq<char>) -> Option<Seq<char>> {
    if models.contains_key(id) {
        Some(models[id]@)
    } else {
        None
    }
}

/// The body that is sent to a provider, before its stand-in model is put in.
pub open spec fn routed_body(body: JsonView, model: Option<Seq<char>>) -> JsonView {
    match model {
        Some(model) => body.with_index("model"@, JsonView::Str(model)),
        None => body,
    }
}

/// What is done about a response that succeeded.
#[derive(Clone, Copy, Debug, PartialEq, Eq, Structural)]
pub enum SuccessBookkeeping {
    /// The result is recorded once the stream has ended.
    Deferred,
    /// The result is recorded, and nothing else changes.
    Record,
    /// The result is recorded, and the provider stays the current one.
    RecordAndStay,
    /// The result is recorded, and the provider is to become the current one.
    RecordAndSwitch,
}

impl RequestForwarder {
    /// The model that the route fixes for a provider.
    pub open spec fn override_for(self, id: Seq<char>) -> Option<Seq<char>> {
        model_in(self.outbound_model_overrides@, id)
    }

    /// A forwarder with a number of retries: one provider more than that is tried.
    pub fn new(
        non_streaming_timeout: u64,
        current_provider_id_at_start: String,
        session_id: String,
        session_client_provided: bool,
        streaming_first_byte_timeout: u64,
        rectifier_config: RectifierConfig,
        optimizer_config: OptimizerConfig,
        copilot_optimizer_config: CopilotOptimizerConfig,
        max_retries: u32,
        provider_retry_enabled: bool,
    ) -> (forwarder: RequestForwarder)
        ensures
            forwarder.current_provider_id_at_start == current_provider_id_at_start,
            forwarder.session_id == session_id,
            forwarder.session_client_provided == session_client_provided,
            forwarder.rectifier_config == rectifier_config,
            forwarder.optimizer_config == optimizer_config,
            forwarder.copilot_optimizer_config == copilot_optimizer_config,
            forwarder.non_streaming_timeout == non_streaming_timeout,
            forwarder.streaming_first_byte_timeout == streaming_first_byte_timeout,
            forwarder.max_attempts == if max_retries < usize::MAX {
                max_retries + 1
            } else {
                usize::MAX as int
            },
            forwarder.provider_retry_enabled == provider_retry_enabled,
            forwarder.sync_logical_target,
            forwarder.bypass_single_provider_circuit_breaker,
            forwarder.outbound_model_overrides@ == Map::<Seq<char>, String>::empty(),
            forwarder.role_route_owner_id is None,
            forwarder.role_capability_model is None,
    {
        let max_attempts = (max_retries as usize).saturating_add(1);
        RequestForwarder {
            current_provider_id_at_start,
            session_id,
            session_client_provided,
            rectifier_config,
            optimizer_config,
            copilot_optimizer_config,
            non_streaming_timeout,
            streaming_first_byte_timeout,
            max_attempts,
            provider_retry_enabled,
            sync_logical_target: true,
            bypass_single_provider_circuit_breaker: true,
            outbound_model_overrides: TextMap::new(),
            role_route_owner_id: None,
            role_capability_model: None,
        }
    }

    /// The forwarder for a route. A route that does not make its provider the current one has
    /// all its attempts tried.
    pub fn with_route_plan(self, plan: &ProviderRoutePlan) -> (forwarder: RequestForwarder)
        ensures
            forwarder.sync_logical_target == plan@.sync_logical_target,
            forwarder.bypass_single_provider_circuit_breaker
                == plan@.bypass_single_provider_circuit_breaker,
            forall|id: Seq<char>| #[trigger]
                forwarder.override_for(id) == route_model(plan@.attempts, id),
            forwarder.max_attempts == if plan@.sync_logical_target {
                self.max_attempts as int
            } else if plan@.attempts.len() > 1 {
                plan@.attempts.len() as int
            } else {
                1
            },
            forwarder.current_provider_id_at_start == self.current_provider_id_at_start,
            forwarder.session_id == self.session_id,
            forwarder.session_client_provided == self.session_client_provided,
            forwarder.rectifier_config == self.rectifier_config,
            forwarder.optimizer_config == self.optimizer_config,
            forwarder.copilot_optimizer_config == self.copilot_optimizer_config,
            forwarder.non_streaming_timeout == self.non_streaming_timeout,
            forwarder.streaming_first_byte_timeout == self.streaming_first_byte_timeout,
            forwarder.provider_retry_enabled == self.provider_retry_enabled,
            forwarder.role_route_owner_id == self.role_route_owner_id,
            forwarder.role_capability_model == self.role_capability_model,
    {
        let mut overrides: TextMap<String> = TextMap::new();
        let mut i: usize = 0;
        let ghost attempts = plan@.attempts;
        while i < plan.attempts.len()
            invariant
                i <= plan.attempts@.len(),
                attempts == attempts_view(plan.attempts@),
                forall|id: Seq<char>| #[trigger]
                    model_in(overrides@, id) == route_model(attempts.take(i as int), id),
            decreases plan.attempts@.len() - i,
        {
            let ghost before = overrides@;
            assert(attempts.take(i + 1).drop_last() =~= attempts.take(i as int));
            assert(attempts.take(i + 1).last() == plan.attempts@[i as int]@);
            if let Some(model) = &plan.attempts[i].outbound_model_override {
                overrides.insert(plan.attempts[i].provider.id.as_str(), model.clone());
            }
            assert forall|id: Seq<char>| #[trigger]
                model_in(overrides@, id) == route_model(attempts.take(i + 1), id) by {
                assert(model_in(before, id) == route_model(attempts.take(i as int), id));
            }
            i = i + 1;
        }
        assert(attempts.take(i as int) =~= attempts);
        let max_attempts = if plan.sync_logical_target {
            self.max_attempts
        } else if plan.attempts.len() > 1 {
            plan.attempts.len()
        } else {
            1
        };
        let forwarder = RequestForwarder {
            sync_logical_target: plan.sync_logical_target,
            bypass_single_provider_circuit_breaker: plan.bypass_single_provider_circuit_breaker,
            outbound_model_overrides: overrides,
            max_attempts,
            current_provider_id_at_start: self.current_provider_id_at_start,
            session_id: self.session_id,
            session_client_provided: self.session_client_provided,
            rectifier_config: self.rectifier_config,
            optimizer_config: self.optimizer_config,
            copilot_optimizer_config: self.copilot_optimizer_config,
            non_streaming_timeout: self.non_streaming_timeout,
            streaming_first_byte_timeout: self.streaming_first_byte_timeout,
            provider_retry_enabled: self.provider_retry_enabled,
            role_route_owner_id: self.role_route_owner_id,
            role_capability_model: self.role_capability_model,
        };
        assert forall|id: Seq<char>| #[trigger]
            forwarder.override_for(id) == route_model(plan@.attempts, id) by {
            assert(model_in(overrides@, id) == route_model(attempts, id));
        }
        forwarder
    }

    /// The forwarder for the role that a request is routed by, where it is.
    pub fn with_role_context(self, owner_provider_id: &Option<String>, capability_model: &str) -> (
        forwarder: RequestForwarder)
        ensures
            opt_view(forwarder.role_route_owner_id) == opt_view(*owner_provider_id),
            opt_view(forwarder.role_capability_model) == if owner_provider_id is Some {
                Some(capability_model@)
            } else {
                None
            },
            forwarder.sync_logical_target == self.sync_logical_target,
            forwarder.bypass_single_provider_circuit_breaker
                == self.bypass_single_provider_circuit_breaker,
            forwarder.outbound_model_overrides == self.outbound_model_overrides,
            forwarder.max_attempts == self.max_attempts,
            forwarder.current_provider_id_at_start == self.current_provider_id_at_start,
            forwarder.session_id == self.session_id,
            forwarder.session_client_provided == self.session_client_provided,
            forwarder.rectifier_config == self.rectifier_config,
            forwarder.optimizer_config == self.optimizer_config,
            forwarder.copilot_optimizer_config == self.copilot_optimizer_config,
            forwarder.non_streaming_timeout == self.non_streaming_timeout,
            forwarder.streaming_first_byte_timeout == self.streaming_first_byte_timeout,
            forwarder.provider_retry_enabled == self.provider_retry_enabled,
    {
        let mut forwarder = self;
        match owner_provider_id {
            Some(owner) => {
                forwarder.role_route_owner_id = Some(owner.clone());
                forwarder.role_capability_model = Some(capability_model.to_owned());
            },
            None => {
                forwarder.role_route_owner_id = None;
                forwarder.role_capability_model = None;
            },
        }
        forwarder
    }

    /// The time that an attempt has until its first output.
    pub fn pre_output_deadline(&self, streaming: bool, now_ms: u64) -> (deadline: PreOutputDeadline)
        requires
            now_ms + 1000 * (if streaming {
                self.streaming_first_byte_timeout
            } else {
                self.non_streaming_timeout
            }) <= u64::MAX,
        ensures
            deadline.configured_ms == if streaming {
                self.streaming_first_byte_timeout * 1000
            } else {
                self.non_streaming_timeout * 1000
            },
            deadline.at_ms == if deadline.configured_ms == 0 {
                None
            } else {
                Some((now_ms + deadline.configured_ms) as u64)
            },
    {
        let seconds = if streaming {
            self.streaming_first_byte_timeout
        } else {
            self.non_streaming_timeout
        };
        PreOutputDeadline::new(seconds * 1000, now_ms)
    }

    /// The walk through the providers of a request.
    pub fn start_run(&self, providers: &Vec<Provider>) -> (run: ForwardRun)
        ensures
            run@ == (ForwardRunView {
                count: providers@.len(),
                max_attempts: self.max_attempts as nat,
                bypass: self.bypass_single_provider_circuit_breaker && providers@.len() == 1,
                next: 0,
                attempted: 0,
                retries: 0,
                last_error: None,
                last_provider: None,
                slot: false,
                stage: RunStage::Choosing,
            }),
            run@.well_formed(),
    {
        ForwardRun::new(
            providers.len(),
            self.max_attempts,
            self.bypass_single_provider_circuit_breaker,
        )
    }

    /// Makes a body ready for a provider: with the model that the route fixes, then with the
    /// stand-in model where the provider always uses it. The policy is that of the body before
    /// the stand-in model is put in.
    pub fn provider_request(
        &self,
        app_type: AppType,
        endpoint: &str,
        provider: &Provider,
        body: &mut Json,
    ) -> (policy: Option<ResolvedRetryPolicy>)
        requires
            self.override_for(provider.id@) is Some ==> old(body)@ is Object || old(body)@ is Null,
        ensures
            ({
                let routed = routed_body(old(body)@, self.override_for(provider.id@));
                &&& match policy {
                    Some(policy) => resolved_policy(
                        app_type,
                        routed,
                        provider@,
                        self.provider_retry_enabled,
                    ) == Some(policy@),
                    None => resolved_policy(
                        app_type,
                        routed,
                        provider@,
                        self.provider_retry_enabled,
                    ) is None,
                }
                &&& final(body)@ == match initial_model(app_type, endpoint@, provider@, routed) {
                    Some(model) => routed.with_member("model"@, JsonView::Str(model)),
                    None => routed,
                }
            }),
    {
        let model: Option<String> = match self.outbound_model_overrides.get(provider.id.as_str()) {
            Some(model) => Some(model.clone()),
            None => None,
        };
        apply_model_override(body, &model);
        let policy = resolve_retry_policy_with_global(
            app_type,
            body,
            provider,
            self.provider_retry_enabled,
        );
        apply_initial_policy(app_type, endpoint, provider, body);
        policy
    }

    /// What is done about a response that succeeded. The stream of a route that leaves the
    /// current provider alone is judged by its end.
    pub fn success_bookkeeping(&self, provider: &Provider, is_sse: bool) -> (bookkeeping:
        SuccessBookkeeping)
        ensures
            bookkeeping == if !self.sync_logical_target {
                if is_sse {
                    SuccessBookkeeping::Deferred
                } else {
                    SuccessBookkeeping::Record
                }
            } else if self.current_provider_id_at_start@ == provider.id@ {
                SuccessBookkeeping::RecordAndStay
            } else {
                SuccessBookkeeping::RecordAndSwitch
            },
    {
        if !self.sync_logical_target {
            if is_sse {
                SuccessBookkeeping::Deferred
            } else {
                SuccessBookkeeping::Record
            }
        } else if same_text(self.current_provider_id_at_start.as_str(), provider.id.as_str()) {
            SuccessBookkeeping::RecordAndStay
        } else {
            SuccessBookkeeping::RecordAndSwitch
        }
    }
}

/// A route's model for a provider is the last one that an attempt at it fixes; attempts that fix none
/// and attempts at other providers do not count.
pub proof fn the_last_fixed_model_counts(
    attempts: Seq<ProviderRouteAttemptView>,
    attempt: ProviderRouteAttemptView,
    id: Seq<char>,
)
    ensures
        attempt.provider.id == id && attempt.outbound_model_override is Some ==> route_model(
            attempts.push(attempt),
            id,
        ) == attempt.outbound_model_override,
        attempt.provider.id != id || attempt.outbound_model_override is None ==> route_model(
            attempts.push(attempt),
            id,
        ) == route_model(attempts, id),
        route_model(Seq::empty(), id) is None,
        route_model(attempts, id) matches Some(model) ==> exists|i: int|
            0 <= i < attempts.len() && (#[trigger] attempts[i]).provider.id == id
                && attempts[i].outbound_model_override == Some(model),
    decreases attempts.len(),
{
    assert(attempts.push(attempt).drop_last() =~= attempts);
    assert(attempts.push(attempt).last() == attempt);
    if attempts.len() > 0 {
        let before = attempts.drop_last();
        let last = attempts.last();
        the_last_fixed_model_counts(before, last, id);
        if let Some(model) = route_model(attempts, id) {
            if last.provider.id == id && last.outbound_model_override is Some {
                assert(attempts[attempts.len() - 1] == last);
            } else {
                let i = choose|i: int|
                    0 <= i < before.len() && (#[trigger] before[i]).provider.id == id
                        && before[i].outbound_model_override == Some(model);
                assert(attempts[i] == before[i]);
            }
        }
    }
}

/// The model of a route is put into the body, and nothing else of it changes; without one the body
/// is sent as it is.
pub proof fn the_model_of_the_route_is_sent(body: JsonView, model: Seq<char>, other: Seq<char>)
    requires
        body is Object,
        other != "model"@,
    ensures
        routed_body(body, None) == body,
        routed_body(body, Some(model)).member_text("model"@) == Some(model),
        routed_body(body, Some(model)).member(other) == body.member(other),
{
    crate::json::index_is_read_back(body, "model"@, JsonView::Str(model));
}

/// A model that was noted for a provider is found for that provider, and for no other.
pub proof fn noted_models_are_found(
    models: Map<Seq<char>, String>,
    id: Seq<char>,
    model: String,
    other: Seq<char>,
)
    ensures
        model_in(models.insert(id, model), id) == Some(model@),
        other != id ==> model_in(models.insert(id, model), other) == model_in(models, other),
        model_in(Map::empty(), id) is None,
{
}

/// What is done about a success: a route that makes its provider the current one switches to it where
/// it is another, and stays where it is the same; a route that does not only records it, a stream
/// once it has ended.
pub proof fn successes_are_recorded(
    forwarder: &RequestForwarder,
    provider: &Provider,
    is_sse: bool,
    bookkeeping: SuccessBookkeeping,
)
    requires
        call_ensures(
            RequestForwarder::success_bookkeeping,
            (forwarder, provider, is_sse),
            bookkeeping,
        ),
    ensures
        bookkeeping is RecordAndSwitch <==> forwarder.sync_logical_target
            && forwarder.current_provider_id_at_start@ != provider.id@,
        bookkeeping is RecordAndStay <==> forwarder.sync_logical_target
            && forwarder.current_provider_id_at_start@ == provider.id@,
        bookkeeping is Deferred <==> !forwarder.sync_logical_target && is_sse,
        bookkeeping is Record <==> !forwarder.sync_logical_target && !is_sse,
{
}

/// A walk begins before the first provider, and asks no breaker where there is only one provider and
/// that is wanted.
pub proof fn walks_begin_at_the_first_provider(
    forwarder: &RequestForwarder,
    providers: &Vec<Provider>,
    run: ForwardRun,
)
    requires
        call_ensures(RequestForwarder::start_run, (forwarder, providers), run),
    ensures
        run@.next == 0,
        run@.attempted == 0,
        run@.count == providers@.len(),
        run@.max_attempts == forwarder.max_attempts,
        run@.bypass <==> forwarder.bypass_single_provider_circuit_breaker && providers@.len() == 1,
        run@.stage == RunStage::Choosing,
        run@.last_error is None,
{
}

/// The time until the first output is what is configured for the kind of answer, counted from now;
/// none is configured where it is zero.
pub proof fn deadlines_are_the_configured_ones(
    forwarder: &RequestForwarder,
    streaming: bool,
    now: u64,
    deadline: PreOutputDeadline,
)
    requires
        call_ensures(
            RequestForwarder::pre_output_deadline,
            (forwarder, streaming, now),
            deadline,
        ),
        now + 1000 * forwarder.streaming_first_byte_timeout <= u64::MAX,
        now + 1000 * forwarder.non_streaming_timeout <= u64::MAX,
    ensures
        streaming && forwarder.streaming_first_byte_timeout > 0 ==> deadline.at_ms == Some(
            (now + 1000 * forwarder.streaming_first_byte_timeout) as u64,
        ),
        !streaming && forwarder.non_streaming_timeout > 0 ==> deadline.at_ms == Some(
            (now + 1000 * forwarder.non_streaming_timeout) as u64,
        ),
        streaming && forwarder.streaming_first_byte_timeout == 0 ==> deadline.at_ms is None,
        !streaming && forwarder.non_streaming_timeout == 0 ==> deadline.at_ms is None,
{
}

/// A forwarder tries one provider more than it may retry, and a role's model is known with its owner
/// alone.
pub proof fn retries_come_on_top_of_the_first_attempt(
    non_streaming_timeout: u64,
    current: String,
    session_id: String,
    client_provided: bool,
    first_byte_timeout: u64,
    rectifier: RectifierConfig,
    optimizer: OptimizerConfig,
    copilot: CopilotOptimizerConfig,
    max_retries: u32,
    enabled: bool,
    forwarder: RequestForwarder,
)
    requires
        call_ensures(
            RequestForwarder::new,
            (
                non_streaming_timeout,
                current,
                session_id,
                client_provided,
                first_byte_timeout,
                rectifier,
                optimizer,
                copilot,
                max_retries,
                enabled,
            ),
            forwarder,
        ),
    ensures
        max_retries < u32::MAX ==> forwarder.max_attempts == max_retries + 1,
        forwarder.non_streaming_timeout == non_streaming_timeout,
        forwarder.streaming_first_byte_timeout == first_byte_timeout,
        forwarder.sync_logical_target,
        forwarder.bypass_single_provider_circuit_breaker,
        forwarder.role_route_owner_id is None,
        forall|id: Seq<char>| (#[trigger] forwarder.override_for(id)) is None,
{
}

} // verus!
