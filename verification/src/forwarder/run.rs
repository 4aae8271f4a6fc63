//! The walk through the providers of a request: which one is asked next, what a failure means,
//! and what the request comes to.

use vstd::prelude::*;
use vstd::string::*;
use crate::error::{ErrorCategory, ProxyError, ProxyErrorView};
use crate::forwarder::retry::{
    after_failed_attempt, categorize_proxy_error, category_of, retry_decision, RetryDecision,
    RetryDecisionView,
};
use crate::forwarder::stream_start::opt_policy;
use crate::json::{Json, JsonView};
use crate::provider::{AppType, Provider, ProviderView};
use crate::provider_retry::{ResolvedRetryPolicy, ResolvedRetryPolicyView};
use crate::provider_router::ProviderRequestPermit;
use crate::text::{join, opt_view};

verus! {

/// A way to make a request acceptable to a provider that refused it.
#[derive(Clone, Copy, Debug, PartialEq, Eq, Structural)]
pub enum RecoveryKind {
    /// Images are replaced by a marker.
    Media,
    /// Thinking blocks and their signatures are removed.
    Signature,
    /// The thinking budget is put in order.
    Budget,
}

/// What is known of the ways to recover from an error.
#[derive(Clone, Copy, Debug, PartialEq, Eq, Structural)]
pub struct RecoveryFacts {
    /// The provider refuses images, and some were replaced.
    pub images_replaced: bool,
    /// The provider speaks the Anthropic protocol itself.
    pub anthropic: bool,
    /// The error is about the signature of a thinking block.
    pub signature_error: bool,
    /// Something was removed on account of it.
    pub signature_rectified: bool,
    /// The error is about the thinking budget.
    pub budget_error: bool,
    /// The budget was changed on account of it.
    pub budget_rectified: bool,
}

/// What a first failure leads to.
#[derive(Clone, Copy, Debug, PartialEq, Eq, Structural)]
pub enum Recovery {
    /// The same provider is tried once more.
    Retry(RecoveryKind),
    /// The request is at fault, and nothing could be done about it.
    ClientFault,
    /// There is nothing to recover from.
    NotApplicable,
}

/// What a first failure leads to.
pub open spec fn recovery_of(facts: RecoveryFacts) -> Recovery {
    if facts.images_replaced {
        Recovery::Retry(RecoveryKind::Media)
    } else if !facts.anthropic {
        Recovery::NotApplicable
    } else if facts.signature_error && facts.signature_rectified {
        Recovery::Retry(RecoveryKind::Signature)
    } else if facts.budget_error && facts.budget_rectified {
        Recovery::Retry(RecoveryKind::Budget)
    } else if facts.budget_error || facts.signature_error {
        Recovery::ClientFault
    } else {
        Recovery::NotApplicable
    }
}

/// What a first failure leads to.
pub fn recovery(facts: RecoveryFacts) -> (recovery: Recovery)
    ensures
        recovery == recovery_of(facts),
{
    if facts.images_replaced {
        return Recovery::Retry(RecoveryKind::Media);
    }
    if !facts.anthropic {
        return Recovery::NotApplicable;
    }
    if facts.signature_error && facts.signature_rectified {
        return Recovery::Retry(RecoveryKind::Signature);
    }
    if facts.budget_error && facts.budget_rectified {
        return Recovery::Retry(RecoveryKind::Budget);
    }
    if facts.budget_error || facts.signature_error {
        Recovery::ClientFault
    } else {
        Recovery::NotApplicable
    }
}

/// How a retry is called in a message.
pub open spec fn kind_label(kind: RecoveryKind) -> Seq<char> {
    match kind {
        RecoveryKind::Media => "media 降级"@,
        RecoveryKind::Signature => "整流"@,
        RecoveryKind::Budget => "budget 整流"@,
    }
}

impl RecoveryKind {
    /// How the retry is called in a message.
    pub fn label(self) -> (label: &'static str)
        ensures
            label@ == kind_label(self),
    {
        match self {
            RecoveryKind::Media => "media 降级",
            RecoveryKind::Signature => "整流",
            RecoveryKind::Budget => "budget 整流",
        }
    }
}

/// Where the walk stands.
#[derive(Clone, Copy, Debug, PartialEq, Eq, Structural)]
pub enum RunStage {
    /// The next provider is to be chosen.
    Choosing,
    /// The breaker of the provider at that position is asked.
    Asking(usize),
    /// The provider at that position is tried.
    Attempting(usize),
    /// It is tried once more.
    Recovering(usize, RecoveryKind),
    /// The walk is over.
    Over,
}

/// The walk through the providers of a request.
#[derive(Debug)]
pub struct ForwardRun {
    /// The number of providers.
    pub count: usize,
    /// The most that may be tried.
    pub max_attempts: usize,
    /// Whether no breaker is asked.
    pub bypass: bool,
    /// The position of the next provider.
    pub next: usize,
    /// The number of providers that were tried.
    pub attempted: usize,
    /// The number of retries at the provider that is being tried.
    pub retries: usize,
    pub last_error: Option<ProxyError>,
    /// The position of the provider that it came from.
    pub last_provider: Option<usize>,
    /// Whether the provider that is being tried is probed in a slot of its breaker, which is to be
    /// given back.
    pub slot: bool,
    pub stage: RunStage,
}

/// The walk as a mathematical value.
pub struct ForwardRunView {
    pub count: nat,
    pub max_attempts: nat,
    pub bypass: bool,
    pub next: nat,
    pub attempted: nat,
    pub retries: usize,
    pub last_error: Option<ProxyErrorView>,
    pub last_provider: Option<usize>,
    pub slot: bool,
    pub stage: RunStage,
}

/// The value of an optional error.
pub open spec fn opt_error(error: Option<ProxyError>) -> Option<ProxyErrorView> {
    match error {
        Some(error) => Some(error@),
        None => None,
    }
}

impl View for ForwardRun {
    type V = ForwardRunView;

    open spec fn view(&self) -> ForwardRunView {
        ForwardRunView {
            count: self.count as nat,
            max_attempts: self.max_attempts as nat,
            bypass: self.bypass,
            next: self.next as nat,
            attempted: self.attempted as nat,
            retries: self.retries,
            last_error: opt_error(self.last_error),
            last_provider: self.last_provider,
            slot: self.slot,
            stage: self.stage,
        }
    }
}

/// What is to be done next.
#[derive(Debug, PartialEq, Eq)]
pub enum NextProvider {
    /// Ask the breaker of the provider at that position.
    Ask(usize),
    /// Try the provider at that position.
    Try(usize),
    /// Every provider failed, or none was tried: the request fails with this error, which came
    /// from the provider at that position. The message is for the proxy's status; there is none
    /// where there was no provider at all.
    Exhausted { error: ProxyError, provider: Option<usize>, status_message: Option<String> },
}

/// What is to be done next, as a mathematical value.
pub enum NextProviderView {
    Ask(usize),
    Try(usize),
    Exhausted {
        error: ProxyErrorView,
        provider: Option<usize>,
        status_message: Option<Seq<char>>,
    },
}

impl View for NextProvider {
    type V = NextProviderView;

    open spec fn view(&self) -> NextProviderView {
        match self {
            NextProvider::Ask(at) => NextProviderView::Ask(*at),
            NextProvider::Try(at) => NextProviderView::Try(*at),
            NextProvider::Exhausted { error, provider, status_message } => {
                NextProviderView::Exhausted {
                    error: error@,
                    provider: *provider,
                    status_message: opt_view(*status_message),
                }
            },
        }
    }
}

/// What a failure means.
#[derive(Debug, PartialEq, Eq)]
pub enum FailureDecision {
    /// Try the same provider once more.
    Recover(RecoveryKind),
    /// Go on with the next provider. The failure counts against this one: `health_message` goes
    /// to its breaker, `status_message` to the proxy's status. `slot` says that the probe slot of
    /// the breaker is given back with it.
    NextProvider { health_message: String, status_message: String, slot: bool },
    /// The request fails with the error that was given. It counts against no provider, and its
    /// message goes to the proxy's status. `slot` says that the probe slot of the breaker is given
    /// back.
    Stop { status_message: String, slot: bool },
}

/// What a failure means, as a mathematical value.
pub enum FailureDecisionView {
    Recover(RecoveryKind),
    NextProvider { health_message: Seq<char>, status_message: Seq<char>, slot: bool },
    Stop { status_message: Seq<char>, slot: bool },
}

impl View for FailureDecision {
    type V = FailureDecisionView;

    open spec fn view(&self) -> FailureDecisionView {
        match self {
            FailureDecision::Recover(kind) => FailureDecisionView::Recover(*kind),
            FailureDecision::NextProvider { health_message, status_message, slot } => {
                FailureDecisionView::NextProvider {
                    health_message: health_message@,
                    status_message: status_message@,
                    slot: *slot,
                }
            },
            FailureDecision::Stop { status_message, slot } => FailureDecisionView::Stop {
                status_message: status_message@,
                slot: *slot,
            },
        }
    }
}

/// Whether a failure is the provider's own: so is every error that a retry policy named until
/// its retries were used up.
pub open spec fn is_provider_fault(
    error: ProxyErrorView,
    provider: ProviderView,
    retries_exhausted: bool,
) -> bool {
    retries_exhausted || category_of(error, provider) == ErrorCategory::Retryable
}

/// What a first failure means.
pub open spec fn first_failure(
    error: ProxyErrorView,
    provider: ProviderView,
    retries_exhausted: bool,
    facts: RecoveryFacts,
    slot: bool,
) -> FailureDecisionView {
    match recovery_of(facts) {
        Recovery::Retry(kind) => FailureDecisionView::Recover(kind),
        Recovery::ClientFault => FailureDecisionView::Stop { status_message: error.message(), slot },
        Recovery::NotApplicable => if is_provider_fault(error, provider, retries_exhausted) {
            FailureDecisionView::NextProvider {
                health_message: error.message(),
                status_message: "Provider "@ + provider.name + " 失败: "@ + error.message(),
                slot,
            }
        } else {
            FailureDecisionView::Stop { status_message: error.message(), slot }
        },
    }
}

/// What the failure of a retry means.
pub open spec fn recovery_failure(
    error: ProxyErrorView,
    provider: ProviderView,
    retries_exhausted: bool,
    kind: RecoveryKind,
    slot: bool,
) -> FailureDecisionView {
    if is_provider_fault(error, provider, retries_exhausted) {
        FailureDecisionView::NextProvider {
            health_message: error.message(),
            status_message: "Provider "@ + provider.name + " "@ + kind_label(kind) + "重试失败: "@
                + error.message(),
            slot,
        }
    } else {
        FailureDecisionView::Stop { status_message: error.message(), slot }
    }
}

impl ForwardRunView {
    /// What holds throughout.
    pub open spec fn well_formed(self) -> bool {
        &&& self.attempted <= self.next <= self.count
        &&& self.attempted <= self.max_attempts
        &&& match self.stage {
            RunStage::Choosing | RunStage::Over => true,
            RunStage::Asking(at) => !self.bypass && self.next == at + 1 && self.attempted
                < self.max_attempts && self.attempted < self.next,
            RunStage::Attempting(at) => self.next == at + 1 && self.attempted > 0,
            RunStage::Recovering(at, _) => self.next == at + 1 && self.attempted > 0,
        }
        &&& self.last_error is Some <==> self.last_provider is Some
        &&& self.last_provider matches Some(at) ==> at < self.next
        &&& self.slot ==> !self.bypass && (self.stage is Attempting || self.stage is Recovering)
    }

    /// The choice of the next provider.
    pub open spec fn chosen(self) -> (ForwardRunView, NextProviderView) {
        if self.next < self.count && self.attempted < self.max_attempts {
            let at = self.next as usize;
            if self.bypass {
                (
                    ForwardRunView {
                        next: self.next + 1,
                        attempted: self.attempted + 1,
                        retries: 0,
                        stage: RunStage::Attempting(at),
                        ..self
                    },
                    NextProviderView::Try(at),
                )
            } else {
                (
                    ForwardRunView { next: self.next + 1, stage: RunStage::Asking(at), ..self },
                    NextProviderView::Ask(at),
                )
            }
        } else {
            (
                ForwardRunView { stage: RunStage::Over, ..self },
                if self.attempted == 0 {
                    NextProviderView::Exhausted {
                        error: ProxyErrorView::NoAvailableProvider,
                        provider: None,
                        status_message: if self.count == 0 {
                            None
                        } else {
                            Some("所有供应商暂时不可用（熔断器限制）"@)
                        },
                    }
                } else {
                    NextProviderView::Exhausted {
                        error: match self.last_error {
                            Some(error) => error,
                            None => ProxyErrorView::MaxRetriesExceeded,
                        },
                        provider: self.last_provider,
                        status_message: Some("所有供应商都失败"@),
                    }
                },
            )
        }
    }

    /// The answer of a breaker: a provider that it lets through is tried, with all its retries, and
    /// in the probe slot where the breaker gave one.
    pub open spec fn answered(self, at: usize, allowed: bool, slot: bool) -> ForwardRunView {
        if allowed {
            ForwardRunView {
                attempted: self.attempted + 1,
                retries: 0,
                slot,
                stage: RunStage::Attempting(at),
                ..self
            }
        } else {
            ForwardRunView { stage: RunStage::Choosing, ..self }
        }
    }

    /// The walk after it was decided whether an attempt is repeated at the same provider.
    pub open spec fn retried(self, decision: RetryDecisionView) -> ForwardRunView {
        match decision {
            RetryDecisionView::Wait { .. } => ForwardRunView {
                retries: (self.retries + 1) as usize,
                ..self
            },
            _ => self,
        }
    }

    /// What a failure of the provider at that position leads to.
    pub open spec fn failed(
        self,
        at: usize,
        error: ProxyErrorView,
        decision: FailureDecisionView,
    ) -> ForwardRunView {
        match decision {
            FailureDecisionView::Recover(kind) => ForwardRunView {
                stage: RunStage::Recovering(at, kind),
                ..self
            },
            FailureDecisionView::NextProvider { .. } => ForwardRunView {
                last_error: Some(error),
                last_provider: Some(at),
                slot: false,
                stage: RunStage::Choosing,
                ..self
            },
            FailureDecisionView::Stop { .. } => self.over(),
        }
    }

    /// The end of the walk.
    pub open spec fn over(self) -> ForwardRunView {
        ForwardRunView { slot: false, stage: RunStage::Over, ..self }
    }

    /// What a failure of the provider that is being tried means.
    pub open spec fn decided(
        self,
        error: ProxyErrorView,
        provider: ProviderView,
        retries_exhausted: bool,
        facts: RecoveryFacts,
    ) -> FailureDecisionView {
        match self.stage {
            RunStage::Recovering(_, kind) => recovery_failure(
                error,
                provider,
                retries_exhausted,
                kind,
                self.slot,
            ),
            _ => first_failure(error, provider, retries_exhausted, facts, self.slot),
        }
    }

    /// The position of the provider that is being tried.
    pub open spec fn position(self) -> usize {
        match self.stage {
            RunStage::Asking(at) => at,
            RunStage::Attempting(at) => at,
            RunStage::Recovering(at, _) => at,
            _ => 0,
        }
    }
}

impl ForwardRun {
    /// The beginning of a walk. A single provider is tried without asking its breaker where
    /// that is wanted.
    pub fn new(count: usize, max_attempts: usize, bypass_single: bool) -> (run: ForwardRun)
        ensures
            run@ == (ForwardRunView {
                count: count as nat,
                max_attempts: max_attempts as nat,
                bypass: bypass_single && count == 1,
                next: 0,
                attempted: 0,
                retries: 0,
                last_error: None,
                last_provider: None,
                slot: false,
                stage: RunStage::Choosing,
            }),
            run@.well_formed(),
    {
        ForwardRun {
            count,
            max_attempts,
            bypass: bypass_single && count == 1,
            next: 0,
            attempted: 0,
            retries: 0,
            last_error: None,
            last_provider: None,
            slot: false,
            stage: RunStage::Choosing,
        }
    }

    /// Chooses the next provider.
    pub fn choose_next(&mut self) -> (choice: NextProvider)
        requires
            old(self)@.well_formed(),
            old(self)@.stage is Choosing,
        ensures
            final(self)@.well_formed(),
            (final(self)@, choice@) == old(self)@.chosen(),
    {
        if self.next < self.count && self.attempted < self.max_attempts {
            let at = self.next;
            self.next = at + 1;
            if self.bypass {
                self.attempted = self.attempted + 1;
                self.retries = 0;
                self.stage = RunStage::Attempting(at);
                return NextProvider::Try(at);
            }
            self.stage = RunStage::Asking(at);
            return NextProvider::Ask(at);
        }
        self.stage = RunStage::Over;
        if self.attempted == 0 {
            return NextProvider::Exhausted {
                error: ProxyError::NoAvailableProvider,
                provider: None,
                status_message: if self.count == 0 {
                    None
                } else {
                    Some("所有供应商暂时不可用（熔断器限制）".to_owned())
                },
            };
        }
        let error = match &self.last_error {
            Some(error) => error.copy(),
            None => ProxyError::MaxRetriesExceeded,
        };
        NextProvider::Exhausted {
            error,
            provider: self.last_provider,
            status_message: Some("所有供应商都失败".to_owned()),
        }
    }

    /// Takes the answer of a breaker, and says whether a probe slot is given back at once because
    /// the provider is not tried.
    pub fn permit(&mut self, permit: ProviderRequestPermit) -> (slot: bool)
        requires
            old(self)@.well_formed(),
            old(self)@.stage is Asking,
        ensures
            final(self)@.well_formed(),
            final(self)@ == old(self)@.answered(
                old(self)@.stage->Asking_0,
                permit.is_allowed(),
                permit.holds_slot(),
            ),
            slot == (!permit.is_allowed() && permit.holds_slot()),
    {
        let allowed = permit.allowed();
        let slot = permit.into_used_half_open_permit();
        if let RunStage::Asking(at) = self.stage {
            if allowed {
                self.attempted = self.attempted + 1;
                self.retries = 0;
                self.slot = slot;
                self.stage = RunStage::Attempting(at);
            } else {
                self.stage = RunStage::Choosing;
            }
        }
        !allowed && slot
    }

    /// Decides whether a failed attempt is repeated at the same provider. The body gets the
    /// stand-in model where that is tried next. A recovery goes on with the retries that the first
    /// attempt left.
    pub fn retry(
        &mut self,
        app_type: AppType,
        endpoint: &str,
        provider: &Provider,
        body: &mut Json,
        error: &ProxyError,
        policy: Option<&ResolvedRetryPolicy>,
    ) -> (decision: RetryDecision)
        requires
            old(self)@.well_formed(),
        ensures
            final(self)@.well_formed(),
            decision@ == retry_decision(
                app_type,
                endpoint@,
                provider@,
                old(body)@,
                error@,
                opt_policy(policy),
                old(self).retries,
            ),
            final(body)@ == match decision@ {
                RetryDecisionView::Fallback(model) => old(body)@.with_index(
                    "model"@,
                    JsonView::Str(model),
                ),
                _ => old(body)@,
            },
            final(self)@ == old(self)@.retried(decision@),
    {
        after_failed_attempt(app_type, endpoint, provider, body, error, policy, &mut self.retries)
    }

    /// The provider has answered well, and the walk is over. Says whether the probe slot of its
    /// breaker is given back with the result.
    pub fn succeed(&mut self) -> (slot: bool)
        requires
            old(self)@.well_formed(),
        ensures
            final(self)@.well_formed(),
            final(self)@ == old(self)@.over(),
            slot == old(self)@.slot,
    {
        let slot = self.slot;
        self.slot = false;
        self.stage = RunStage::Over;
        slot
    }

    /// The request is given up by the client, and the walk is over. Says whether a probe slot is
    /// given back without a result.
    pub fn abandon(&mut self) -> (slot: bool)
        requires
            old(self)@.well_formed(),
        ensures
            final(self)@.well_formed(),
            final(self)@ == old(self)@.over(),
            slot == old(self)@.slot,
    {
        let slot = self.slot;
        self.slot = false;
        self.stage = RunStage::Over;
        slot
    }

    /// Decides what the failure of an attempt means. `retries_exhausted` says that the retry
    /// policy named the error and had no retries left; `facts` is only looked at where the
    /// provider was tried for the first time.
    pub fn fail(
        &mut self,
        error: &ProxyError,
        provider: &Provider,
        retries_exhausted: bool,
        facts: RecoveryFacts,
    ) -> (decision: FailureDecision)
        requires
            old(self)@.well_formed(),
            old(self)@.stage is Attempting || old(self)@.stage is Recovering,
        ensures
            final(self)@.well_formed(),
            decision@ == old(self)@.decided(error@, provider@, retries_exhausted, facts),
            final(self)@ == old(self)@.failed(old(self)@.position(), error@, decision@),
    {
        let provider_fault = retries_exhausted || match categorize_proxy_error(error, provider) {
            ErrorCategory::Retryable => true,
            _ => false,
        };
        let message = error.message();
        let slot = self.slot;
        match self.stage {
            RunStage::Attempting(at) => match recovery(facts) {
                Recovery::Retry(kind) => {
                    self.stage = RunStage::Recovering(at, kind);
                    FailureDecision::Recover(kind)
                },
                Recovery::ClientFault => {
                    self.slot = false;
                    self.stage = RunStage::Over;
                    FailureDecision::Stop { status_message: message, slot }
                },
                Recovery::NotApplicable => if provider_fault {
                    let mut status = join("Provider ", provider.name.as_str());
                    status.append(" 失败: ");
                    status.append(message.as_str());
                    self.last_error = Some(error.copy());
                    self.last_provider = Some(at);
                    self.slot = false;
                    self.stage = RunStage::Choosing;
                    FailureDecision::NextProvider {
                        health_message: message,
                        status_message: status,
                        slot,
                    }
                } else {
                    self.slot = false;
                    self.stage = RunStage::Over;
                    FailureDecision::Stop { status_message: message, slot }
                },
            },
            RunStage::Recovering(at, kind) => if provider_fault {
                let mut status = join("Provider ", provider.name.as_str());
                status.append(" ");
                status.append(kind.label());
                status.append("重试失败: ");
                status.append(message.as_str());
                self.last_error = Some(error.copy());
                self.last_provider = Some(at);
                self.slot = false;
                self.stage = RunStage::Choosing;
                FailureDecision::NextProvider {
                    health_message: message,
                    status_message: status,
                    slot,
                }
            } else {
                self.slot = false;
                self.stage = RunStage::Over;
                FailureDecision::Stop { status_message: message, slot }
            },
            _ => FailureDecision::Stop { status_message: message, slot },
        }
    }
}

/// Providers are taken in order and each at most once: whatever is asked or tried next comes
/// after everything that was before, and the walk never goes back.
pub proof fn providers_are_taken_in_order(run: ForwardRunView)
    requires
        run.well_formed(),
        run.stage is Choosing,
        run.count <= usize::MAX,
    ensures
        run.chosen().1 matches NextProviderView::Ask(at) ==> at == run.next && run.chosen().0.next
            == at + 1,
        run.chosen().1 matches NextProviderView::Try(at) ==> at == run.next && run.chosen().0.next
            == at + 1,
        run.chosen().0.next >= run.next,
        run.last_provider matches Some(at) ==> at < run.next,
{
}

/// No more providers are tried than allowed, whatever the breakers and the providers answer.
pub proof fn attempts_stay_within_the_limit(
    run: ForwardRunView,
    at: usize,
    allowed: bool,
    slot: bool,
)
    requires
        run.well_formed(),
    ensures
        run.stage is Choosing ==> run.chosen().0.attempted <= run.max_attempts,
        run.stage == RunStage::Asking(at) ==> run.answered(at, allowed, slot).attempted
            <= run.max_attempts,
{
}

/// A breaker is asked exactly where the walk does not bypass it, and one that is not bypassed
/// is asked before its provider is tried.
pub proof fn breakers_are_asked_first(run: ForwardRunView)
    requires
        run.stage is Choosing,
    ensures
        run.chosen().1 is Try ==> run.bypass,
        run.chosen().1 is Ask ==> !run.bypass,
{
}

/// A request that is at fault itself stops the walk, and counts against no provider.
pub proof fn client_faults_stop_the_walk(
    run: ForwardRunView,
    at: usize,
    error: ProxyErrorView,
    provider: ProviderView,
    facts: RecoveryFacts,
)
    requires
        category_of(error, provider) != ErrorCategory::Retryable,
        !(recovery_of(facts) is Retry),
    ensures
        first_failure(error, provider, false, facts, run.slot) == (FailureDecisionView::Stop {
            status_message: error.message(),
            slot: run.slot,
        }),
        run.failed(at, error, first_failure(error, provider, false, facts, run.slot)).stage is Over,
{
}

/// A provider gets at most one recovery: its failure leads to the next provider or ends the walk.
pub proof fn recovery_is_tried_once(
    error: ProxyErrorView,
    provider: ProviderView,
    retries_exhausted: bool,
    kind: RecoveryKind,
    slot: bool,
)
    ensures
        !(recovery_failure(error, provider, retries_exhausted, kind, slot) is Recover),
{
}

/// Each provider has its own retries: none of them are used up when it is first tried, whatever
/// the providers before it took, and they never exceed its policy's limit.
pub proof fn retries_are_counted_by_provider(
    run: ForwardRunView,
    at: usize,
    app_type: AppType,
    endpoint: Seq<char>,
    provider: ProviderView,
    body: JsonView,
    error: ProxyErrorView,
    policy: ResolvedRetryPolicyView,
)
    ensures
        run.chosen().1 is Try ==> run.chosen().0.retries == 0,
        run.answered(at, true, run.slot).retries == 0,
        ({
            let decision = retry_decision(
                app_type,
                endpoint,
                provider,
                body,
                error,
                Some(policy),
                run.retries,
            );
            decision is Wait ==> policy.allows_retry(run.retries as nat) && run.retried(
                decision,
            ).retries == run.retries + 1
        }),
{
}

/// Something that happens on the walk.
pub enum RunEvent {
    /// The next provider is chosen.
    Chosen,
    /// Its breaker answers.
    Answered { allowed: bool, slot: bool },
    /// It is decided whether an attempt is repeated.
    Retried(RetryDecisionView),
    /// An attempt fails.
    Failed {
        error: ProxyErrorView,
        provider: ProviderView,
        retries_exhausted: bool,
        facts: RecoveryFacts,
    },
    /// An attempt succeeds.
    Succeeded,
    /// The client gives up.
    Abandoned,
}

/// Whether something can happen where the walk stands.
pub open spec fn can_happen(run: ForwardRunView, event: RunEvent) -> bool {
    match event {
        RunEvent::Chosen => run.stage is Choosing,
        RunEvent::Answered { .. } => run.stage is Asking,
        RunEvent::Retried(_) | RunEvent::Failed { .. } | RunEvent::Succeeded => run.stage
            is Attempting || run.stage is Recovering,
        RunEvent::Abandoned => !(run.stage is Over),
    }
}

/// The walk after something happened, and whether a probe slot was given back with it.
pub open spec fn happened(run: ForwardRunView, event: RunEvent) -> (ForwardRunView, bool) {
    match event {
        RunEvent::Chosen => (run.chosen().0, false),
        RunEvent::Answered { allowed, slot } => (
            run.answered(run.position(), allowed, slot),
            !allowed && slot,
        ),
        RunEvent::Retried(decision) => (run.retried(decision), false),
        RunEvent::Failed { error, provider, retries_exhausted, facts } => {
            let decision = run.decided(error, provider, retries_exhausted, facts);
            (
                run.failed(run.position(), error, decision),
                match decision {
                    FailureDecisionView::Recover(_) => false,
                    FailureDecisionView::NextProvider { slot, .. } => slot,
                    FailureDecisionView::Stop { slot, .. } => slot,
                },
            )
        },
        RunEvent::Succeeded | RunEvent::Abandoned => (run.over(), run.slot),
    }
}

/// The walk after everything that happened.
pub open spec fn run_after(run: ForwardRunView, events: Seq<RunEvent>) -> ForwardRunView
    decreases events.len(),
{
    if events.len() == 0 {
        run
    } else {
        happened(run_after(run, events.drop_last()), events.last()).0
    }
}

/// Whether everything could happen in its turn.
pub open spec fn is_walk(run: ForwardRunView, events: Seq<RunEvent>) -> bool
    decreases events.len(),
{
    events.len() > 0 ==> is_walk(run, events.drop_last()) && can_happen(
        run_after(run, events.drop_last()),
        events.last(),
    )
}

/// The number of probe slots that breakers gave.
pub open spec fn slots_taken(events: Seq<RunEvent>) -> nat
    decreases events.len(),
{
    if events.len() == 0 {
        0
    } else {
        slots_taken(events.drop_last()) + match events.last() {
            RunEvent::Answered { slot: true, .. } => 1nat,
            _ => 0nat,
        }
    }
}

/// The number of probe slots that were given back.
pub open spec fn slots_given_back(run: ForwardRunView, events: Seq<RunEvent>) -> nat
    decreases events.len(),
{
    if events.len() == 0 {
        0
    } else {
        slots_given_back(run, events.drop_last()) + if happened(
            run_after(run, events.drop_last()),
            events.last(),
        ).1 {
            1nat
        } else {
            0nat
        }
    }
}

/// Every probe slot is given back once: whatever happens on a walk, the slots that breakers gave
/// are those that were given back and the one that is held, which only a provider that is being
/// tried has. Once the walk is over none is left.
pub proof fn slots_are_given_back_once(run: ForwardRunView, events: Seq<RunEvent>)
    requires
        run.well_formed(),
        run.count <= usize::MAX,
        !run.slot,
        is_walk(run, events),
    ensures
        ({
            let after = run_after(run, events);
            &&& after.slot ==> after.stage is Attempting || after.stage is Recovering
            &&& slots_taken(events) == slots_given_back(run, events) + if after.slot {
                1nat
            } else {
                0nat
            }
            &&& after.stage is Over ==> slots_taken(events) == slots_given_back(run, events)
        }),
    decreases events.len(),
{
    if events.len() > 0 {
        slots_are_given_back_once(run, events.drop_last());
    }
}

/// A probe slot is given back by the attempt that got it: it is held from the answer of the
/// breaker to the end of that attempt, through its retries and its recovery, and the next provider
/// starts without one.
pub proof fn slots_stay_with_their_attempt(run: ForwardRunView, event: RunEvent)
    requires
        run.well_formed(),
        can_happen(run, event),
    ensures
        ({
            let (after, given_back) = happened(run, event);
            &&& run.slot ==> given_back || (after.slot && after.position() == run.position())
            &&& given_back ==> run.slot || event is Answered
            &&& given_back ==> !after.slot
            &&& after.slot && !run.slot ==> event == (RunEvent::Answered {
                allowed: true,
                slot: true,
            })
            &&& event is Chosen ==> !after.slot
        }),
{
}

/// What a request that failed everywhere comes to is the error of the last provider that failed.
pub proof fn the_last_failure_is_reported(
    run: ForwardRunView,
    at: usize,
    error: ProxyErrorView,
    decision: FailureDecisionView,
)
    requires
        run.well_formed(),
        run.stage == RunStage::Attempting(at) || (run.stage matches RunStage::Recovering(it, _)
            && it == at),
        decision is NextProvider,
        run.next == run.count || run.attempted == run.max_attempts,
    ensures
        match run.failed(at, error, decision).chosen().1 {
            NextProviderView::Exhausted { error: reported, provider, .. } => reported == error
                && provider == Some(at),
            _ => false,
        },
{
}

/// A refusal or a fault of a provider that nothing can be done about moves the walk on where it is
/// the provider's own, and stops it where it is the request's: of the answers of an upstream, eight
/// statuses stop it. What the breaker and the client are told is the error's own message.
pub proof fn faults_move_the_walk_on_or_stop_it(
    run: ForwardRunView,
    at: usize,
    status: u16,
    body: Option<Seq<char>>,
    provider: ProviderView,
    facts: RecoveryFacts,
)
    requires
        run.stage == RunStage::Attempting(at),
        !facts.images_replaced,
        !facts.anthropic || (!facts.signature_error && !facts.budget_error),
        !provider.codex_official,
    ensures
        ({
            let error = ProxyErrorView::UpstreamError { status, body };
            let decision = run.decided(error, provider, false, facts);
            let stops = status == 400 || status == 405 || status == 406 || status == 413 || status
                == 414 || status == 415 || status == 422 || status == 501;
            &&& stops ==> decision == (FailureDecisionView::Stop {
                status_message: error.message(),
                slot: run.slot,
            }) && run.failed(at, error, decision).stage == RunStage::Over
            &&& !stops ==> {
                &&& decision matches FailureDecisionView::NextProvider { health_message, slot, .. }
                &&& health_message == error.message()
                &&& slot == run.slot
                &&& run.failed(at, error, decision).stage == RunStage::Choosing
                &&& run.failed(at, error, decision).last_error == Some(error)
                &&& run.failed(at, error, decision).last_provider == Some(at)
                &&& run.failed(at, error, decision).next == run.next
                &&& run.failed(at, error, decision).attempted == run.attempted
            }
        }),
{
}

/// An error that a retry policy named until it had no retries left moves the walk on, whatever the
/// error is; at a first failure, where there is nothing to recover from.
pub proof fn used_up_retries_move_the_walk_on(
    run: ForwardRunView,
    error: ProxyErrorView,
    provider: ProviderView,
    facts: RecoveryFacts,
)
    requires
        run.stage is Recovering || (run.stage is Attempting && !facts.images_replaced && (
        !facts.anthropic || (!facts.signature_error && !facts.budget_error))),
    ensures
        run.decided(error, provider, true, facts) matches FailureDecisionView::NextProvider {
            health_message,
            slot,
            ..
        } && health_message == error.message() && slot == run.slot,
{
}

/// What can be recovered from is tried once more at the same provider: images that were replaced
/// come first, then signatures, then the budget, the last two at providers of the Anthropic protocol
/// alone. Where something was wrong with these and nothing could be done the request is at fault.
pub proof fn recoveries_come_in_their_order(
    run: ForwardRunView,
    error: ProxyErrorView,
    provider: ProviderView,
    retries_exhausted: bool,
    facts: RecoveryFacts,
)
    requires
        run.stage is Attempting,
    ensures
        ({
            let decision = run.decided(error, provider, retries_exhausted, facts);
            let thinking = facts.anthropic && !facts.images_replaced;
            let signature = facts.signature_error && facts.signature_rectified;
            let budget = facts.budget_error && facts.budget_rectified;
            &&& decision == FailureDecisionView::Recover(RecoveryKind::Media)
                <==> facts.images_replaced
            &&& decision == FailureDecisionView::Recover(RecoveryKind::Signature) <==> thinking
                && signature
            &&& decision == FailureDecisionView::Recover(RecoveryKind::Budget) <==> thinking
                && !signature && budget
            &&& thinking && !signature && !budget && (facts.signature_error || facts.budget_error)
                ==> decision == (FailureDecisionView::Stop {
                status_message: error.message(),
                slot: run.slot,
            })
        }),
{
}

/// While providers are left and more may be tried, the next one is taken: its breaker is asked, or
/// it is tried at once where breakers are bypassed. Else the walk is over.
pub proof fn the_next_provider_is_taken(run: ForwardRunView)
    requires
        run.well_formed(),
        run.stage is Choosing,
        run.count <= usize::MAX,
    ensures
        ({
            let (after, choice) = run.chosen();
            let open = run.next < run.count && run.attempted < run.max_attempts;
            let at = run.next as usize;
            &&& open && !run.bypass ==> choice == NextProviderView::Ask(at) && after.stage
                == RunStage::Asking(at) && after.attempted == run.attempted && after.next
                == run.next + 1
            &&& open && run.bypass ==> choice == NextProviderView::Try(at) && after.stage
                == RunStage::Attempting(at) && after.attempted == run.attempted + 1 && after.next
                == run.next + 1
            &&& !open ==> choice is Exhausted && after.stage == RunStage::Over
            &&& after.last_error == run.last_error && after.last_provider == run.last_provider
                && after.count == run.count && after.max_attempts == run.max_attempts
        }),
{
}

/// A provider that its breaker lets through is tried, and counts; one that it does not is passed
/// over, and does not.
pub proof fn breakers_decide_who_is_tried(run: ForwardRunView, at: usize, slot: bool)
    requires
        run.stage == RunStage::Asking(at),
    ensures
        run.answered(at, true, slot).stage == RunStage::Attempting(at),
        run.answered(at, true, slot).attempted == run.attempted + 1,
        run.answered(at, true, slot).slot == slot,
        run.answered(at, false, slot).stage == RunStage::Choosing,
        run.answered(at, false, slot).attempted == run.attempted,
        run.answered(at, false, slot).next == run.next,
        run.answered(at, false, slot).last_error == run.last_error,
{
}

/// What a request comes to that no provider served: with no provider at all or none let through,
/// that none is available; else the error of the provider that failed last, and of that provider.
pub proof fn failed_requests_have_a_reason(run: ForwardRunView)
    requires
        run.well_formed(),
        run.stage is Choosing,
        run.next == run.count || run.attempted == run.max_attempts,
    ensures
        match run.chosen().1 {
            NextProviderView::Exhausted { error, provider, status_message } => {
                &&& run.attempted == 0 ==> error == ProxyErrorView::NoAvailableProvider && provider
                    is None
                &&& run.attempted > 0 ==> provider == run.last_provider && (run.last_error matches
                    Some(last) ==> error == last) && (run.last_error is None ==> error
                    == ProxyErrorView::MaxRetriesExceeded)
                &&& status_message is None <==> run.attempted == 0 && run.count == 0
            },
            _ => false,
        },
{
}

/// The walk after that many providers were let through by their breakers and failed with the given
/// errors, each its provider's own and nothing to recover from.
pub open spec fn after_failures(
    run: ForwardRunView,
    errors: Seq<ProxyErrorView>,
    providers: Seq<ProviderView>,
) -> ForwardRunView
    decreases errors.len(),
{
    if errors.len() == 0 {
        run
    } else {
        let before = after_failures(run, errors.drop_last(), providers);
        let at = before.next as usize;
        let asked = before.chosen().0;
        let tried = asked.answered(at, true, false);
        let decision = tried.decided(
            errors.last(),
            providers[errors.len() - 1],
            false,
            no_recovery(),
        );
        tried.failed(at, errors.last(), decision)
    }
}

/// Nothing to recover from.
pub open spec fn no_recovery() -> RecoveryFacts {
    RecoveryFacts {
        images_replaced: false,
        anthropic: false,
        signature_error: false,
        signature_rectified: false,
        budget_error: false,
        budget_rectified: false,
    }
}

/// Providers that fail one after the other are all tried, in their order, as far as attempts are
/// allowed: after `n` failures the next is provider `n`, and once none is left the request fails
/// with the last error.
pub proof fn failing_providers_are_tried_in_turn(
    count: nat,
    max_attempts: nat,
    errors: Seq<ProxyErrorView>,
    providers: Seq<ProviderView>,
    run: ForwardRunView,
)
    requires
        count <= usize::MAX,
        max_attempts <= usize::MAX,
        errors.len() <= count,
        errors.len() <= max_attempts,
        providers.len() == count,
        forall|i: int|
            0 <= i < errors.len() ==> category_of(#[trigger] errors[i], providers[i])
                == ErrorCategory::Retryable,
        run == (ForwardRunView {
            count,
            max_attempts,
            bypass: false,
            next: 0,
            attempted: 0,
            retries: 0,
            last_error: None,
            last_provider: None,
            slot: false,
            stage: RunStage::Choosing,
        }),
    ensures
        ({
            let after = after_failures(run, errors, providers);
            let n = errors.len();
            &&& after.next == n
            &&& after.attempted == n
            &&& after.stage == RunStage::Choosing
            &&& after.count == count && after.max_attempts == max_attempts && !after.bypass
            &&& n < count && n < max_attempts ==> after.chosen().1 == NextProviderView::Ask(
                n as usize,
            )
            &&& n > 0 && (n == count || n == max_attempts) ==> match after.chosen().1 {
                NextProviderView::Exhausted { error, provider, .. } => error == errors.last()
                    && provider == Some((n - 1) as usize),
                _ => false,
            }
        }),
    decreases errors.len(),
{
    if errors.len() > 0 {
        let rest = errors.drop_last();
        assert forall|i: int| 0 <= i < rest.len() implies category_of(
            #[trigger] rest[i],
            providers[i],
        ) == ErrorCategory::Retryable by {
            assert(rest[i] == errors[i]);
        }
        failing_providers_are_tried_in_turn(count, max_attempts, rest, providers, run);
        assert(errors.last() == errors[errors.len() - 1]);
    }
}

/// What the proxy's status says of a failure: the provider's name and what happened, and of a retry
/// that failed also what kind it was; an error that ends the request is said as it is.
pub proof fn failures_are_told_with_the_provider(
    run: ForwardRunView,
    error: ProxyErrorView,
    provider: ProviderView,
    exhausted: bool,
    facts: RecoveryFacts,
    at: usize,
    kind: RecoveryKind,
)
    ensures
        ({
            let decision = run.decided(error, provider, exhausted, facts);
            &&& decision matches FailureDecisionView::Stop { status_message, slot } ==> status_message
                == error.message() && slot == run.slot
            &&& decision matches FailureDecisionView::NextProvider {
                health_message,
                status_message,
                slot,
            } ==> {
                &&& health_message == error.message()
                &&& slot == run.slot
                &&& run.stage == RunStage::Attempting(at) ==> status_message == "Provider "@
                    + provider.name + " 失败: "@ + error.message()
                &&& run.stage == RunStage::Recovering(at, RecoveryKind::Media) ==> status_message
                    == "Provider "@ + provider.name + " "@ + "media 降级"@ + "重试失败: "@
                    + error.message()
                &&& run.stage == RunStage::Recovering(at, RecoveryKind::Signature) ==> status_message
                    == "Provider "@ + provider.name + " "@ + "整流"@ + "重试失败: "@
                    + error.message()
                &&& run.stage == RunStage::Recovering(at, RecoveryKind::Budget) ==> status_message
                    == "Provider "@ + provider.name + " "@ + "budget 整流"@ + "重试失败: "@
                    + error.message()
            }
        }),
{
}

/// A retry that fails is judged as any failure is: by its status the walk goes on or stops.
pub proof fn failed_recoveries_are_judged_by_their_status(
    run: ForwardRunView,
    at: usize,
    kind: RecoveryKind,
    status: u16,
    body: Option<Seq<char>>,
    provider: ProviderView,
    facts: RecoveryFacts,
)
    requires
        run.stage == RunStage::Recovering(at, kind),
        !provider.codex_official,
    ensures
        ({
            let error = ProxyErrorView::UpstreamError { status, body };
            let decision = run.decided(error, provider, false, facts);
            let stops = status == 400 || status == 405 || status == 406 || status == 413 || status
                == 414 || status == 415 || status == 422 || status == 501;
            &&& stops ==> decision is Stop && run.failed(at, error, decision).stage is Over
            &&& !stops ==> decision is NextProvider && run.failed(at, error, decision).stage
                is Choosing
        }),
{
}

/// A recovery is tried at the provider that failed, in its slot, and counts as no further attempt; a
/// request that is over gives its slot back.
pub proof fn recoveries_stay_with_their_provider(
    run: ForwardRunView,
    at: usize,
    error: ProxyErrorView,
    kind: RecoveryKind,
    message: Seq<char>,
    slot: bool,
)
    ensures
        ({
            let again = run.failed(at, error, FailureDecisionView::Recover(kind));
            &&& again.stage == RunStage::Recovering(at, kind)
            &&& again.attempted == run.attempted
            &&& again.next == run.next
            &&& again.slot == run.slot
            &&& again.last_error == run.last_error
        }),
        ({
            let over = run.failed(
                at,
                error,
                FailureDecisionView::Stop { status_message: message, slot },
            );
            &&& over.stage == RunStage::Over
            &&& !over.slot
        }),
{
}

/// What the proxy's status says at the end of a walk: that all failed, or that all are held back.
pub proof fn the_end_of_a_walk_is_told(run: ForwardRunView)
    requires
        run.next >= run.count || run.attempted >= run.max_attempts,
    ensures
        match run.chosen().1 {
            NextProviderView::Exhausted { status_message, .. } => {
                &&& run.attempted > 0 ==> status_message == Some("所有供应商都失败"@)
                &&& run.attempted == 0 && run.count > 0 ==> status_message == Some(
                    "所有供应商暂时不可用（熔断器限制）"@,
                )
                &&& run.attempted == 0 && run.count == 0 ==> status_message is None
            },
            _ => false,
        },
{
}

} // verus!
