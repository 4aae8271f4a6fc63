//! Which providers a request is tried with, and in what order.

use vstd::prelude::*;
use vstd::string::*;
use crate::error::{AppError, AppErrorView};
use crate::json::{items_view, JsonView};
use crate::key_pool::ProviderGroup;
use crate::provider::{providers_view, Provider, ProviderView};
use crate::text::{
    first_index, first_index_is_first, has_prefix, join, opt_view, same_text, split_first,
    split_once, starts_with, trim, trimmed,
};

verus! {

/// Whether a request to a provider may be tried again with another one. The requests of an
/// official Codex account carry that account's own authorization, which must not reach another
/// provider.
pub open spec fn supports_failover(app_type: Seq<char>, provider: ProviderView) -> bool {
    app_type != "codex"@ || !provider.codex_official
}

/// Whether a request to a provider may be tried again with another one.
pub fn provider_supports_failover(app_type: &str, provider: &Provider) -> (supports: bool)
    ensures
        supports == supports_failover(app_type@, provider@),
{
    !same_text(app_type, "codex") || !provider.codex_official
}

/// A provider to try, and the model to ask it for where that is fixed.
#[derive(Debug)]
pub struct ProviderRouteAttempt {
    pub provider: Provider,
    pub outbound_model_override: Option<String>,
}

/// An attempt as a mathematical value.
pub struct ProviderRouteAttemptView {
    pub provider: ProviderView,
    pub outbound_model_override: Option<Seq<char>>,
}

impl View for ProviderRouteAttempt {
    type V = ProviderRouteAttemptView;

    open spec fn view(&self) -> ProviderRouteAttemptView {
        ProviderRouteAttemptView {
            provider: self.provider@,
            outbound_model_override: opt_view(self.outbound_model_override),
        }
    }
}

/// How a request is routed.
#[derive(Debug)]
pub struct ProviderRoutePlan {
    pub attempts: Vec<ProviderRouteAttempt>,
    /// Whether the configured timeouts apply.
    pub use_failover_timeouts: bool,
    /// Whether a successful attempt makes its provider the current one.
    pub sync_logical_target: bool,
    /// Whether a single provider is tried without asking its circuit breaker.
    pub bypass_single_provider_circuit_breaker: bool,
    /// The retries of each member of a key pool.
    pub key_pool_retries: Vec<(String, u32)>,
}

/// A route plan as a mathematical value.
pub struct ProviderRoutePlanView {
    pub attempts: Seq<ProviderRouteAttemptView>,
    pub use_failover_timeouts: bool,
    pub sync_logical_target: bool,
    pub bypass_single_provider_circuit_breaker: bool,
    pub key_pool_retries: Seq<(Seq<char>, u32)>,
}

/// The values of a list of attempts.
pub open spec fn attempts_view(attempts: Seq<ProviderRouteAttempt>) -> Seq<
    ProviderRouteAttemptView,
> {
    attempts.map_values(|attempt: ProviderRouteAttempt| attempt@)
}

/// The values of a list of retries.
pub open spec fn retries_view(retries: Seq<(String, u32)>) -> Seq<(Seq<char>, u32)> {
    retries.map_values(|entry: (String, u32)| (entry.0@, entry.1))
}

impl View for ProviderRoutePlan {
    type V = ProviderRoutePlanView;

    open spec fn view(&self) -> ProviderRoutePlanView {
        ProviderRoutePlanView {
            attempts: attempts_view(self.attempts@),
            use_failover_timeouts: self.use_failover_timeouts,
            sync_logical_target: self.sync_logical_target,
            bypass_single_provider_circuit_breaker: self.bypass_single_provider_circuit_breaker,
            key_pool_retries: retries_view(self.key_pool_retries@),
        }
    }
}

/// An attempt at a provider with no model fixed.
pub open spec fn plain_attempts(providers: Seq<ProviderView>) -> Seq<ProviderRouteAttemptView> {
    providers.map_values(
        |provider: ProviderView|
            ProviderRouteAttemptView { provider, outbound_model_override: None },
    )
}

/// The plan that tries a list of providers in turn.
pub open spec fn standard_plan(
    providers: Seq<ProviderView>,
    use_failover_timeouts: bool,
) -> ProviderRoutePlanView {
    ProviderRoutePlanView {
        attempts: plain_attempts(providers),
        use_failover_timeouts,
        sync_logical_target: true,
        bypass_single_provider_circuit_breaker: true,
        key_pool_retries: Seq::empty(),
    }
}

impl ProviderRoutePlan {
    /// The plan that tries a list of providers in turn.
    pub fn standard(providers: Vec<Provider>, use_failover_timeouts: bool) -> (plan: Self)
        ensures
            plan@ == standard_plan(providers_view(providers@), use_failover_timeouts),
    {
        let ghost views = providers_view(providers@);
        let mut rest = providers;
        let mut attempts: Vec<ProviderRouteAttempt> = Vec::new();
        let ghost total = rest@.len();
        while rest.len() > 0
            invariant
                rest@.len() + attempts@.len() == views.len(),
                providers_view(rest@) == views.skip(attempts@.len() as int),
                attempts_view(attempts@) == plain_attempts(views).take(attempts@.len() as int),
            decreases rest@.len(),
        {
            let ghost before = attempts_view(attempts@);
            let ghost rest_before = providers_view(rest@);
            let provider = rest.remove(0);
            assert(rest_before[0] == provider@);
            assert(providers_view(rest@) =~= rest_before.skip(1));
            attempts.push(ProviderRouteAttempt { provider, outbound_model_override: None });
            assert(attempts_view(attempts@) =~= before.push(
                plain_attempts(views)[attempts@.len() - 1],
            ));
        }
        assert(attempts_view(attempts@) =~= plain_attempts(views));
        let plan = ProviderRoutePlan {
            attempts,
            use_failover_timeouts,
            sync_logical_target: true,
            bypass_single_provider_circuit_breaker: true,
            key_pool_retries: Vec::new(),
        };
        assert(retries_view(plan.key_pool_retries@) =~= Seq::<(Seq<char>, u32)>::empty());
        plan
    }

    /// The providers of the plan, in order.
    pub fn providers(&self) -> (providers: Vec<Provider>)
        ensures
            providers_view(providers@) == self@.attempts.map_values(
                |attempt: ProviderRouteAttemptView| attempt.provider,
            ),
    {
        let ghost wanted = self@.attempts.map_values(
            |attempt: ProviderRouteAttemptView| attempt.provider,
        );
        let mut providers: Vec<Provider> = Vec::new();
        let mut i: usize = 0;
        while i < self.attempts.len()
            invariant
                i <= self.attempts@.len(),
                wanted == self@.attempts.map_values(
                    |attempt: ProviderRouteAttemptView| attempt.provider,
                ),
                providers_view(providers@) == wanted.take(i as int),
            decreases self.attempts@.len() - i,
        {
            let ghost before = providers_view(providers@);
            providers.push(self.attempts[i].provider.copy());
            assert(providers_view(providers@) =~= before.push(wanted[i as int]));
            i = i + 1;
        }
        assert(providers_view(providers@) =~= wanted);
        providers
    }
}

/// A standard plan tries exactly the providers it was made of.
pub proof fn standard_plan_keeps_its_providers(providers: Seq<ProviderView>, timeouts: bool)
    ensures
        standard_plan(providers, timeouts).attempts.map_values(
            |attempt: ProviderRouteAttemptView| attempt.provider,
        ) == providers,
{
    assert(standard_plan(providers, timeouts).attempts.map_values(
        |attempt: ProviderRouteAttemptView| attempt.provider,
    ) =~= providers);
}

/// A permission to send a request, and whether it holds a probe slot of a circuit breaker that
/// is half open. Whoever holds the slot gives it back when the permission is dropped.
#[derive(Debug)]
pub struct ProviderRequestPermit {
    allowed: bool,
    half_open: bool,
}

impl ProviderRequestPermit {
    /// Whether the request may be sent.
    pub closed spec fn is_allowed(self) -> bool {
        self.allowed
    }

    /// Whether a probe slot is held.
    pub closed spec fn holds_slot(self) -> bool {
        self.half_open
    }

    /// The answer of a circuit breaker.
    pub fn new(allowed: bool, used_half_open_permit: bool) -> (permit: Self)
        ensures
            permit.is_allowed() == allowed,
            permit.holds_slot() == used_half_open_permit,
    {
        ProviderRequestPermit { allowed, half_open: used_half_open_permit }
    }

    /// Whether the request may be sent.
    pub fn allowed(&self) -> (allowed: bool)
        ensures
            allowed == self.is_allowed(),
    {
        self.allowed
    }

    /// Whether a probe slot is held.
    pub fn used_half_open_permit(&self) -> (used: bool)
        ensures
            used == self.holds_slot(),
    {
        self.half_open
    }

    /// Gives up the permission, and with it the duty to give the slot back to the caller.
    pub fn into_used_half_open_permit(self) -> (used: bool)
        ensures
            used == self.holds_slot(),
    {
        self.half_open
    }

    /// Takes the slot out of the permission: the second time there is none.
    pub fn take_half_open_slot(&mut self) -> (used: bool)
        ensures
            used == old(self).holds_slot(),
            !final(self).holds_slot(),
            final(self).is_allowed() == old(self).is_allowed(),
    {
        let used = self.half_open;
        self.half_open = false;
        used
    }
}

/// A provider in the failover queue, and whether its circuit breaker lets requests through.
#[derive(Debug)]
pub struct QueuedProvider {
    pub provider: Provider,
    pub available: bool,
}

/// A queued provider as a mathematical value.
pub struct QueuedProviderView {
    pub provider: ProviderView,
    pub available: bool,
}

impl View for QueuedProvider {
    type V = QueuedProviderView;

    open spec fn view(&self) -> QueuedProviderView {
        QueuedProviderView { provider: self.provider@, available: self.available }
    }
}

/// The values of a queue.
pub open spec fn queue_view(queue: Seq<QueuedProvider>) -> Seq<QueuedProviderView> {
    queue.map_values(|entry: QueuedProvider| entry@)
}

/// The providers of a queue that failover may use at all.
pub open spec fn usable(
    app_type: Seq<char>,
    queue: Seq<QueuedProviderView>,
) -> Seq<QueuedProviderView>
    decreases queue.len(),
{
    if queue.len() == 0 {
        Seq::empty()
    } else {
        let before = usable(app_type, queue.drop_last());
        if supports_failover(app_type, queue.last().provider) {
            before.push(queue.last())
        } else {
            before
        }
    }
}

/// The providers of a queue whose circuit breakers let requests through.
pub open spec fn available(queue: Seq<QueuedProviderView>) -> Seq<ProviderView>
    decreases queue.len(),
{
    if queue.len() == 0 {
        Seq::empty()
    } else {
        let before = available(queue.drop_last());
        if queue.last().available {
            before.push(queue.last().provider)
        } else {
            before
        }
    }
}

/// The providers a request is tried with where no key pool applies. Without failover that is the
/// current one; with failover it is the queue in its order, but for a current official account,
/// which is never left for another.
pub open spec fn base_providers(
    app_type: Seq<char>,
    auto_failover: bool,
    current: Option<ProviderView>,
    queue: Seq<QueuedProviderView>,
) -> Result<Seq<ProviderView>, AppErrorView> {
    let pinned = current matches Some(provider) && !supports_failover(app_type, provider);
    if auto_failover && !pinned {
        let considered = usable(app_type, queue);
        let ready = available(considered);
        if ready.len() > 0 {
            Ok(ready)
        } else if considered.len() > 0 {
            Err(AppErrorView::AllProvidersCircuitOpen)
        } else {
            Err(AppErrorView::NoProvidersConfigured)
        }
    } else {
        match current {
            Some(provider) => Ok(seq![provider]),
            None => Err(AppErrorView::NoProvidersConfigured),
        }
    }
}

/// The value of a list of providers or of the error in its place.
pub open spec fn providers_result_view(result: Result<Vec<Provider>, AppError>) -> Result<
    Seq<ProviderView>,
    AppErrorView,
> {
    match result {
        Ok(providers) => Ok(providers_view(providers@)),
        Err(error) => Err(error@),
    }
}

/// The value of an optional provider.
pub open spec fn opt_provider_view(provider: Option<Provider>) -> Option<ProviderView> {
    match provider {
        Some(provider) => Some(provider@),
        None => None,
    }
}

/// The providers a request is tried with where no key pool applies.
pub fn select_providers_base(
    app_type: &str,
    auto_failover: bool,
    current: Option<Provider>,
    queue: Vec<QueuedProvider>,
) -> (result: Result<Vec<Provider>, AppError>)
    ensures
        providers_result_view(result) == base_providers(
            app_type@,
            auto_failover,
            opt_provider_view(current),
            queue_view(queue@),
        ),
{
    let pinned = match &current {
        Some(provider) => !provider_supports_failover(app_type, provider),
        None => false,
    };
    if !auto_failover || pinned {
        return match current {
            Some(provider) => {
                let mut providers: Vec<Provider> = Vec::new();
                providers.push(provider);
                assert(providers_view(providers@) =~= seq![provider@]);
                Ok(providers)
            },
            None => Err(AppError::NoProvidersConfigured),
        };
    }
    let ghost views = queue_view(queue@);
    let total: usize = queue.len();
    let mut rest = queue;
    let mut ready: Vec<Provider> = Vec::new();
    let mut considered: usize = 0;
    assert(views.take(0) =~= Seq::<QueuedProviderView>::empty());
    assert(providers_view(ready@) =~= Seq::<ProviderView>::empty());
    while rest.len() > 0
        invariant
            rest@.len() <= total,
            views.len() == total,
            queue_view(rest@) == views.skip(total - rest@.len()),
            considered == usable(app_type@, views.take(total - rest@.len())).len(),
            considered <= total - rest@.len(),
            providers_view(ready@) == available(usable(app_type@, views.take(total - rest@.len()))),
        decreases rest@.len(),
    {
        let ghost done = total - rest@.len();
        let ghost rest_before = queue_view(rest@);
        let ghost used = usable(app_type@, views.take(done));
        let ghost handed = providers_view(ready@);
        let entry = rest.remove(0);
        assert(rest_before[0] == entry@);
        assert(queue_view(rest@) =~= rest_before.skip(1));
        assert(views.take(done + 1).drop_last() =~= views.take(done));
        assert(views.take(done + 1).last() == entry@);
        if provider_supports_failover(app_type, &entry.provider) {
            considered = considered + 1;
            assert(used.push(entry@).drop_last() =~= used);
            if entry.available {
                ready.push(entry.provider);
                assert(providers_view(ready@) =~= handed.push(entry@.provider));
            }
        }
    }
    assert(views.take(total as int) =~= views);
    if ready.len() == 0 {
        if considered > 0 {
            return Err(AppError::AllProvidersCircuitOpen);
        }
        return Err(AppError::NoProvidersConfigured);
    }
    Ok(ready)
}

/// Whether a provider occurs in a list, by its id.
pub open spec fn has_id(providers: Seq<ProviderView>, id: Seq<char>) -> bool {
    exists|i: int| 0 <= i < providers.len() && (#[trigger] providers[i]).id == id
}

fn list_has_id(providers: &Vec<Provider>, id: &str) -> (has: bool)
    ensures
        has == has_id(providers_view(providers@), id@),
{
    let mut i: usize = 0;
    while i < providers.len()
        invariant
            i <= providers@.len(),
            forall|k: int| 0 <= k < i ==> (#[trigger] providers_view(providers@)[k]).id != id@,
        decreases providers@.len() - i,
    {
        if same_text(providers[i].id.as_str(), id) {
            assert(providers_view(providers@)[i as int].id == id@);
            return true;
        }
        i = i + 1;
    }
    false
}

/// The members of a pool, followed by those fallbacks that belong to another group and are not
/// in the list yet.
pub open spec fn with_fallbacks(
    pool: Seq<ProviderView>,
    group_id: Seq<char>,
    fallbacks: Seq<ProviderView>,
) -> Seq<ProviderView>
    decreases fallbacks.len(),
{
    if fallbacks.len() == 0 {
        pool
    } else {
        let before = with_fallbacks(pool, group_id, fallbacks.drop_last());
        let provider = fallbacks.last();
        if provider.group_id() == Some(group_id) || has_id(before, provider.id) {
            before
        } else {
            before.push(provider)
        }
    }
}

/// The plan of a key pool: its members first, each with the retries of the group, then the
/// fallbacks. It never changes which provider is the current one.
pub open spec fn pool_plan(
    pool: Seq<ProviderView>,
    group_id: Seq<char>,
    max_retries: u32,
    fallbacks: Seq<ProviderView>,
) -> ProviderRoutePlanView {
    ProviderRoutePlanView {
        attempts: plain_attempts(with_fallbacks(pool, group_id, fallbacks)),
        use_failover_timeouts: true,
        sync_logical_target: false,
        bypass_single_provider_circuit_breaker: false,
        key_pool_retries: pool.map_values(|member: ProviderView| (member.id, max_retries)),
    }
}

/// The plan of a key pool. `fallbacks` are the providers of the failover queue where failover is
/// on and there are any.
pub fn key_pool_route_plan(
    group: &ProviderGroup,
    pool: Vec<Provider>,
    fallbacks: Vec<Provider>,
) -> (plan: ProviderRoutePlan)
    ensures
        plan@ == pool_plan(
            providers_view(pool@),
            group.id@,
            group.key_pool_max_retries,
            providers_view(fallbacks@),
        ),
{
    let ghost members = providers_view(pool@);
    let ghost extra = providers_view(fallbacks@);
    let ghost total = fallbacks@.len();
    let mut retries: Vec<(String, u32)> = Vec::new();
    let mut i: usize = 0;
    while i < pool.len()
        invariant
            i <= pool@.len(),
            retries@.len() == i,
            forall|k: int|
                0 <= k < i ==> (#[trigger] retries@[k]).0@ == pool@[k].id@ && retries@[k].1
                    == group.key_pool_max_retries,
        decreases pool@.len() - i,
    {
        retries.push((pool[i].id.clone(), group.key_pool_max_retries));
        i = i + 1;
    }
    assert(retries_view(retries@) =~= members.map_values(
        |member: ProviderView| (member.id, group.key_pool_max_retries),
    ));
    let mut providers = pool;
    let mut rest = fallbacks;
    assert(extra.take(0) =~= Seq::<ProviderView>::empty());
    while rest.len() > 0
        invariant
            rest@.len() <= total,
            extra.len() == total,
            providers_view(rest@) == extra.skip(total - rest@.len()),
            providers_view(providers@) == with_fallbacks(
                members,
                group.id@,
                extra.take(total - rest@.len()),
            ),
        decreases rest@.len(),
    {
        let ghost done = total - rest@.len();
        let ghost rest_before = providers_view(rest@);
        let ghost before = providers_view(providers@);
        let provider = rest.remove(0);
        assert(rest_before[0] == provider@);
        assert(providers_view(rest@) =~= rest_before.skip(1));
        assert(extra.take(done + 1).drop_last() =~= extra.take(done));
        assert(extra.take(done + 1).last() == provider@);
        if !provider.in_group(group.id.as_str()) && !list_has_id(
            &providers,
            provider.id.as_str(),
        ) {
            providers.push(provider);
            assert(providers_view(providers@) =~= before.push(provider@));
        }
    }
    assert(extra.take(total as int) =~= extra);
    let mut plan = ProviderRoutePlan::standard(providers, true);
    plan.sync_logical_target = false;
    plan.bypass_single_provider_circuit_breaker = false;
    plan.key_pool_retries = retries;
    plan
}

/// Whether the current provider makes its group's key pool serve the request.
pub open spec fn pool_anchor(
    app_type: Seq<char>,
    supports_local_proxy: bool,
    current: Option<ProviderView>,
    group_id: Seq<char>,
    group_app_type: Seq<char>,
    group_enabled: bool,
) -> bool {
    &&& supports_local_proxy
    &&& current matches Some(provider)
    &&& provider.in_key_pool()
    &&& provider.group_id() == Some(group_id)
    &&& group_app_type == app_type
    &&& group_enabled
}

/// Whether the current provider makes its group's key pool serve the request.
pub fn is_pool_anchor(
    app_type: &str,
    supports_local_proxy: bool,
    current: Option<&Provider>,
    group: &ProviderGroup,
) -> (anchor: bool)
    ensures
        anchor == pool_anchor(
            app_type@,
            supports_local_proxy,
            match current {
                Some(provider) => Some(provider@),
                None => None,
            },
            group.id@,
            group.app_type@,
            group.key_pool_enabled,
        ),
{
    match current {
        Some(provider) => supports_local_proxy && provider.in_key_pool() && provider.in_group(
            group.id.as_str(),
        ) && same_text(group.app_type.as_str(), app_type) && group.key_pool_enabled,
        None => false,
    }
}

/// How a request is routed: by the key pool where one serves it, else by the base providers.
/// A pool takes the failover queue as fallbacks only where failover is on, and is served without
/// them where the queue has none to offer.
pub open spec fn route_plan(
    auto_failover: bool,
    pool: Option<(Seq<char>, u32, Seq<ProviderView>)>,
    base: Result<Seq<ProviderView>, AppErrorView>,
) -> Result<ProviderRoutePlanView, AppErrorView> {
    match pool {
        Some((group_id, max_retries, members)) => Ok(
            pool_plan(
                members,
                group_id,
                max_retries,
                match base {
                    Ok(fallbacks) if auto_failover => fallbacks,
                    _ => Seq::empty(),
                },
            ),
        ),
        None => match base {
            Ok(providers) => Ok(standard_plan(providers, auto_failover)),
            Err(error) => Err(error),
        },
    }
}

/// The value of a plan or of the error in its place.
pub open spec fn plan_result_view(result: Result<ProviderRoutePlan, AppError>) -> Result<
    ProviderRoutePlanView,
    AppErrorView,
> {
    match result {
        Ok(plan) => Ok(plan@),
        Err(error) => Err(error@),
    }
}

/// How a request is routed. `pool` is the group whose key pool serves the request with the
/// members selected from it; `base` is what [`select_providers_base`] gives.
pub fn select_route_plan(
    auto_failover: bool,
    pool: Option<(&ProviderGroup, Vec<Provider>)>,
    base: Result<Vec<Provider>, AppError>,
) -> (result: Result<ProviderRoutePlan, AppError>)
    ensures
        plan_result_view(result) == route_plan(
            auto_failover,
            match pool {
                Some((group, members)) => Some(
                    (group.id@, group.key_pool_max_retries, providers_view(members@)),
                ),
                None => None,
            },
            providers_result_view(base),
        ),
{
    match pool {
        Some((group, members)) => {
            let fallbacks = match base {
                Ok(fallbacks) => if auto_failover {
                    fallbacks
                } else {
                    Vec::new()
                },
                Err(_) => Vec::new(),
            };
            assert(providers_view(fallbacks@) =~= match providers_result_view(base) {
                Ok(fallbacks) if auto_failover => fallbacks,
                _ => Seq::empty(),
            });
            Ok(key_pool_route_plan(group, members, fallbacks))
        },
        None => match base {
            Ok(providers) => Ok(ProviderRoutePlan::standard(providers, auto_failover)),
            Err(error) => Err(error),
        },
    }
}

/// An official Codex account is never a target of failover, and never left for another provider:
/// as the current provider it is tried alone, and in the queue it is passed over.
pub proof fn official_accounts_are_never_retried(
    auto_failover: bool,
    current: Option<ProviderView>,
    queue: Seq<QueuedProviderView>,
)
    ensures
        current matches Some(provider) && provider.codex_official ==> base_providers(
            "codex"@,
            auto_failover,
            current,
            queue,
        ) == Ok::<Seq<ProviderView>, AppErrorView>(seq![current->Some_0]),
        base_providers("codex"@, auto_failover, current, queue) matches Ok(providers)
            ==> providers.len() > 1 ==> forall|i: int|
            0 <= i < providers.len() ==> !(#[trigger] providers[i]).codex_official,
{
    lemma_available_supports("codex"@, queue);
}

proof fn lemma_available_supports(app_type: Seq<char>, queue: Seq<QueuedProviderView>)
    ensures
        forall|i: int|
            0 <= i < available(usable(app_type, queue)).len() ==> supports_failover(
                app_type,
                #[trigger] available(usable(app_type, queue))[i],
            ),
    decreases queue.len(),
{
    if queue.len() > 0 {
        lemma_available_supports(app_type, queue.drop_last());
        let before = usable(app_type, queue.drop_last());
        let all = available(usable(app_type, queue));
        if supports_failover(app_type, queue.last().provider) {
            assert(before.push(queue.last()).drop_last() =~= before);
            assert forall|i: int| 0 <= i < all.len() implies supports_failover(
                app_type,
                #[trigger] all[i],
            ) by {
                if i < available(before).len() {
                    assert(all[i] == available(before)[i]);
                }
            }
        }
    }
}

/// The members of a pool come first in its plan, in the order they were selected, and no
/// provider of their group follows them.
pub proof fn pool_members_come_first(
    pool: Seq<ProviderView>,
    group_id: Seq<char>,
    fallbacks: Seq<ProviderView>,
)
    ensures
        ({
            let all = with_fallbacks(pool, group_id, fallbacks);
            &&& pool.len() <= all.len()
            &&& all.take(pool.len() as int) == pool
            &&& forall|i: int|
                pool.len() <= i < all.len() ==> (#[trigger] all[i]).group_id() != Some(group_id)
                    && !has_id(all.take(i), all[i].id)
        }),
    decreases fallbacks.len(),
{
    if fallbacks.len() == 0 {
        assert(pool.take(pool.len() as int) =~= pool);
    } else {
        let before = with_fallbacks(pool, group_id, fallbacks.drop_last());
        pool_members_come_first(pool, group_id, fallbacks.drop_last());
        let all = with_fallbacks(pool, group_id, fallbacks);
        assert(all.take(pool.len() as int) =~= before.take(pool.len() as int));
        assert forall|i: int| pool.len() <= i < all.len() implies (#[trigger] all[i]).group_id()
            != Some(group_id) && !has_id(all.take(i), all[i].id) by {
            if i < before.len() {
                assert(all[i] == before[i]);
                assert(all.take(i) =~= before.take(i));
            } else {
                assert(all.take(i) =~= before);
            }
        }
    }
}

/// A text without white space at its ends, where anything is left.
pub open spec fn non_empty(text: Option<Seq<char>>) -> Option<Seq<char>> {
    match text {
        Some(text) if trimmed(text).len() > 0 => Some(trimmed(text)),
        _ => None,
    }
}

fn non_empty_text(text: Option<&str>) -> (rest: Option<String>)
    ensures
        opt_view(rest) == non_empty(
            match text {
                Some(text) => Some(text@),
                None => None,
            },
        ),
{
    match text {
        Some(text) => {
            let rest = trim(text);
            if rest.is_empty() {
                None
            } else {
                Some(rest.to_owned())
            }
        },
        None => None,
    }
}

/// The first model in the catalog of a provider's settings.
pub open spec fn catalog_model(settings: JsonView) -> Option<Seq<char>> {
    match settings.member2("modelCatalog"@, "models"@) {
        Some(JsonView::Array(models)) if models.len() > 0 => non_empty(
            match models[0] {
                JsonView::Str(text) => Some(text),
                model => model.member_text("model"@),
            },
        ),
        _ => None,
    }
}

/// The model a provider is asked for when the route fixes none: its own upstream model, else the
/// first of its catalog, else the one of the request.
pub open spec fn default_model(provider: ProviderView, request_model: Seq<char>) -> Option<
    Seq<char>,
> {
    match provider.codex_upstream_model {
        Some(model) => Some(model),
        None => match catalog_model(provider.settings_config) {
            Some(model) => Some(model),
            None => non_empty(Some(request_model)),
        },
    }
}

/// The model a provider is asked for when the route fixes none.
pub fn provider_default_or_request(provider: &Provider, request_model: &str) -> (model: Option<
    String,
>)
    ensures
        opt_view(model) == default_model(provider@, request_model@),
{
    if let Some(model) = &provider.codex_upstream_model {
        return Some(model.clone());
    }
    if let Some(models) = provider.settings_config.get2("modelCatalog", "models") {
        if let Some(models) = models.as_array() {
            if models.len() > 0 {
                assert(items_view(models@)[0] == models@[0]@);
                let model = match models[0].as_str() {
                    Some(text) => Some(text),
                    None => models[0].get_str("model"),
                };
                let model = non_empty_text(model);
                if model.is_some() {
                    return model;
                }
            }
        }
    }
    non_empty_text(Some(request_model))
}

/// The frontend target an owner's role routing names: its provider and its model.
pub open spec fn frontend_target(owner: ProviderView) -> (Option<Seq<char>>, Option<Seq<char>>) {
    match owner.meta {
        Some(meta) => match meta.codex_agent_role_routing {
            Some(routing) => match routing.frontend {
                Some(target) => (non_empty(target.provider_id), non_empty(target.upstream_model)),
                None => (None, None),
            },
            None => (None, None),
        },
        None => (None, None),
    }
}

/// Whether the role routing of an owner is switched on.
pub open spec fn routing_enabled(owner: ProviderView) -> bool {
    owner.meta matches Some(meta) && (meta.codex_agent_role_routing matches Some(routing)
        && routing.enabled)
}

/// The id of the provider that has to be looked up for the frontend role of an owner: the one
/// its routing names, where that is another one.
pub open spec fn wanted_target(owner: ProviderView) -> Option<Seq<char>> {
    match frontend_target(owner).0 {
        Some(id) if id != owner.id => Some(id),
        _ => None,
    }
}

fn frontend_texts(owner: &Provider) -> (texts: (Option<String>, Option<String>))
    ensures
        opt_view(texts.0) == frontend_target(owner@).0,
        opt_view(texts.1) == frontend_target(owner@).1,
{
    if let Some(meta) = &owner.meta {
        if let Some(routing) = &meta.codex_agent_role_routing {
            if let Some(target) = &routing.frontend {
                let provider_id = match &target.provider_id {
                    Some(id) => non_empty_text(Some(id.as_str())),
                    None => None,
                };
                let upstream_model = match &target.upstream_model {
                    Some(model) => non_empty_text(Some(model.as_str())),
                    None => None,
                };
                return (provider_id, upstream_model);
            }
        }
    }
    (None, None)
}

/// The id of the provider that has to be looked up for the frontend role of an owner.
pub fn frontend_target_id(owner: &Provider) -> (id: Option<String>)
    ensures
        opt_view(id) == wanted_target(owner@),
{
    match frontend_texts(owner).0 {
        Some(id) => if same_text(id.as_str(), owner.id.as_str()) {
            None
        } else {
            Some(id)
        },
        None => None,
    }
}

/// The attempts of a frontend route: the target first where it is another provider, then the
/// owner. The model the routing names is asked of the first attempt only, and not where the
/// target it was meant for is gone.
pub open spec fn frontend_attempts(
    owner: ProviderView,
    target: Option<ProviderView>,
    request_model: Seq<char>,
) -> Seq<ProviderRouteAttemptView> {
    let explicit = frontend_target(owner).1;
    let owner_default = ProviderRouteAttemptView {
        provider: owner,
        outbound_model_override: default_model(owner, request_model),
    };
    let owner_explicit = ProviderRouteAttemptView {
        provider: owner,
        outbound_model_override: match explicit {
            Some(model) => Some(model),
            None => default_model(owner, request_model),
        },
    };
    if wanted_target(owner) is None {
        seq![owner_explicit]
    } else {
        match target {
            Some(target) => if target.id == owner.id {
                seq![owner_explicit]
            } else {
                seq![
                    ProviderRouteAttemptView {
                        provider: target,
                        outbound_model_override: match explicit {
                            Some(model) => Some(model),
                            None => default_model(target, request_model),
                        },
                    },
                    owner_default,
                ]
            },
            None => seq![owner_default],
        }
    }
}

/// A plan of attempts at fixed models, which never changes the current provider.
pub open spec fn role_plan(attempts: Seq<ProviderRouteAttemptView>) -> ProviderRoutePlanView {
    ProviderRoutePlanView {
        attempts,
        use_failover_timeouts: true,
        sync_logical_target: false,
        bypass_single_provider_circuit_breaker: false,
        key_pool_retries: Seq::empty(),
    }
}

/// What is known when a frontend route is planned.
#[derive(Debug)]
pub struct FrontendRoute {
    /// Whether role routing is allowed at all.
    pub routing_allowed: bool,
    /// The provider whose routing the request names.
    pub owner: Option<Provider>,
    /// The current provider, which serves where the owner is gone.
    pub current: Option<Provider>,
    /// Whether the request's token was made for the owner's routing as it is.
    pub token_valid: bool,
    /// The provider found under the id that [`frontend_target_id`] gives.
    pub target: Option<Provider>,
}

/// How a request of the frontend role is routed; `None` where role routing is not allowed and
/// the request goes the ordinary way.
pub open spec fn frontend_plan(
    routing_allowed: bool,
    owner: Option<ProviderView>,
    current: Option<ProviderView>,
    token_valid: bool,
    target: Option<ProviderView>,
    owner_provider_id: Seq<char>,
    request_model: Seq<char>,
) -> Result<Option<ProviderRoutePlanView>, AppErrorView> {
    if !routing_allowed {
        Ok(None)
    } else {
        match owner {
            None => match current {
                Some(current) => Ok(
                    Some(
                        role_plan(
                            seq![
                                ProviderRouteAttemptView {
                                    provider: current,
                                    outbound_model_override: default_model(current, request_model),
                                },
                            ],
                        ),
                    ),
                ),
                None => Err(AppErrorView::NoProvidersConfigured),
            },
            Some(owner) => if !routing_enabled(owner) {
                Err(
                    AppErrorView::InvalidInput(
                        "Codex role routing is unavailable or disabled for owner: "@
                            + owner_provider_id,
                    ),
                )
            } else if !token_valid {
                Err(AppErrorView::InvalidInput("Invalid or stale Codex role route token"@))
            } else {
                Ok(Some(role_plan(frontend_attempts(owner, target, request_model))))
            },
        }
    }
}

/// The value of an optional plan or of the error in its place.
pub open spec fn opt_plan_view(result: Result<Option<ProviderRoutePlan>, AppError>) -> Result<
    Option<ProviderRoutePlanView>,
    AppErrorView,
> {
    match result {
        Ok(Some(plan)) => Ok(Some(plan@)),
        Ok(None) => Ok(None),
        Err(error) => Err(error@),
    }
}

fn role_route_plan(attempts: Vec<ProviderRouteAttempt>) -> (plan: ProviderRoutePlan)
    ensures
        plan@ == role_plan(attempts_view(attempts@)),
{
    let plan = ProviderRoutePlan {
        attempts,
        use_failover_timeouts: true,
        sync_logical_target: false,
        bypass_single_provider_circuit_breaker: false,
        key_pool_retries: Vec::new(),
    };
    assert(retries_view(plan.key_pool_retries@) =~= Seq::<(Seq<char>, u32)>::empty());
    plan
}

/// How a request of the frontend role is routed.
pub fn select_codex_frontend_route_plan(
    route: FrontendRoute,
    owner_provider_id: &str,
    request_model: &str,
) -> (result: Result<Option<ProviderRoutePlan>, AppError>)
    ensures
        opt_plan_view(result) == frontend_plan(
            route.routing_allowed,
            opt_provider_view(route.owner),
            opt_provider_view(route.current),
            route.token_valid,
            opt_provider_view(route.target),
            owner_provider_id@,
            request_model@,
        ),
{
    if !route.routing_allowed {
        return Ok(None);
    }
    let mut attempts: Vec<ProviderRouteAttempt> = Vec::new();
    let owner = match route.owner {
        Some(owner) => owner,
        None => {
            return match route.current {
                Some(current) => {
                    let outbound_model_override = provider_default_or_request(
                        &current,
                        request_model,
                    );
                    attempts.push(
                        ProviderRouteAttempt { provider: current, outbound_model_override },
                    );
                    assert(attempts_view(attempts@) =~= seq![
                        ProviderRouteAttemptView {
                            provider: current@,
                            outbound_model_override: default_model(current@, request_model@),
                        },
                    ]);
                    Ok(Some(role_route_plan(attempts)))
                },
                None => Err(AppError::NoProvidersConfigured),
            };
        },
    };
    let enabled = match &owner.meta {
        Some(meta) => match &meta.codex_agent_role_routing {
            Some(routing) => routing.enabled,
            None => false,
        },
        None => false,
    };
    if !enabled {
        return Err(
            AppError::InvalidInput(
                join(
                    "Codex role routing is unavailable or disabled for owner: ",
                    owner_provider_id,
                ),
            ),
        );
    }
    if !route.token_valid {
        return Err(
            AppError::InvalidInput("Invalid or stale Codex role route token".to_owned()),
        );
    }
    let wanted = frontend_target_id(&owner);
    let explicit = frontend_texts(&owner).1;
    let owner_default = provider_default_or_request(&owner, request_model);
    let ghost owner_view = owner@;
    let ghost target_view = opt_provider_view(route.target);
    match (wanted, route.target) {
        (Some(_), Some(target)) => {
            if same_text(target.id.as_str(), owner.id.as_str()) {
                let outbound_model_override = match explicit {
                    Some(model) => Some(model),
                    None => owner_default,
                };
                attempts.push(ProviderRouteAttempt { provider: owner, outbound_model_override });
            } else {
                let outbound_model_override = match explicit {
                    Some(model) => Some(model),
                    None => provider_default_or_request(&target, request_model),
                };
                attempts.push(ProviderRouteAttempt { provider: target, outbound_model_override });
                attempts.push(
                    ProviderRouteAttempt {
                        provider: owner,
                        outbound_model_override: owner_default,
                    },
                );
            }
        },
        (Some(_), None) => {
            attempts.push(
                ProviderRouteAttempt { provider: owner, outbound_model_override: owner_default },
            );
        },
        (None, _) => {
            let outbound_model_override = match explicit {
                Some(model) => Some(model),
                None => owner_default,
            };
            attempts.push(ProviderRouteAttempt { provider: owner, outbound_model_override });
        },
    }
    assert(attempts_view(attempts@) =~= frontend_attempts(owner_view, target_view, request_model@));
    Ok(Some(role_route_plan(attempts)))
}

/// A frontend route has one or two attempts, ends with the owner where it is there, never makes
/// its target the current provider, and is refused without a valid token.
pub proof fn frontend_route_ends_with_the_owner(
    owner: ProviderView,
    current: Option<ProviderView>,
    token_valid: bool,
    target: Option<ProviderView>,
    owner_provider_id: Seq<char>,
    request_model: Seq<char>,
)
    ensures
        ({
            let planned = frontend_plan(
                true,
                Some(owner),
                current,
                token_valid,
                target,
                owner_provider_id,
                request_model,
            );
            &&& planned is Ok <==> routing_enabled(owner) && token_valid
            &&& planned matches Ok(Some(plan)) ==> {
                &&& 1 <= plan.attempts.len() <= 2
                &&& plan.attempts.last().provider == owner
                &&& !plan.sync_logical_target
                &&& plan.attempts.len() == 2 ==> plan.attempts[0].provider.id != owner.id
            }
        }),
{
}

/// The key of a provider's circuit breaker: the app, a colon, and the id.
pub open spec fn breaker_key(app_type: Seq<char>, provider_id: Seq<char>) -> Seq<char> {
    app_type + ":"@ + provider_id
}

/// The key of a provider's circuit breaker.
pub fn circuit_key(app_type: &str, provider_id: &str) -> (key: String)
    ensures
        key@ == breaker_key(app_type@, provider_id@),
{
    let mut key = join(app_type, ":");
    key.append(provider_id);
    key
}

/// The app whose configuration a circuit breaker goes by: what stands before the first colon of
/// its key.
pub fn circuit_app(key: &str) -> (app_type: &str)
    ensures
        app_type@ == split_first(key@, ':').0,
{
    split_once(key, ':').0
}

/// Whether a circuit breaker belongs to an app.
pub fn circuit_in_app(key: &str, app_type: &str) -> (inside: bool)
    ensures
        inside == has_prefix(key@, app_type@ + ":"@),
{
    starts_with(key, join(app_type, ":").as_str())
}

/// The failures after which a provider counts as unhealthy; five where none are configured.
pub fn failure_threshold(configured: Option<u32>) -> (threshold: u32)
    ensures
        threshold == (match configured {
            Some(threshold) => threshold,
            None => 5,
        }),
{
    match configured {
        Some(threshold) => threshold,
        None => 5,
    }
}

/// The circuit breaker of a provider belongs to the provider's app, and goes by that app's
/// configuration, as no app's name holds a colon.
pub proof fn breaker_belongs_to_its_app(app_type: Seq<char>, provider_id: Seq<char>)
    requires
        !app_type.contains(':'),
    ensures
        has_prefix(breaker_key(app_type, provider_id), app_type + ":"@),
        split_first(breaker_key(app_type, provider_id), ':').0 == app_type,
{
    reveal_strlit(":");
    let key = breaker_key(app_type, provider_id);
    let at = app_type.len() as int;
    assert(key.subrange(0, at + 1) =~= app_type + ":"@);
    assert(key[at] == ':');
    first_index_is_first(key, ':');
    let first = first_index(key, ':');
    if first < at {
        assert(app_type[first] == ':');
    }
    if at < first {
        assert(key[at] != ':');
    }
    assert(key.take(at) =~= app_type);
}

/// Whether failover may use a provider of a queue: an official account of Codex it may not.
pub open spec fn failover_may_use(app_type: Seq<char>, provider: ProviderView) -> bool {
    !(app_type == "codex"@ && provider.codex_official)
}

proof fn lemma_queue_is_filtered(app_type: Seq<char>, queue: Seq<QueuedProviderView>)
    ensures
        available(usable(app_type, queue)) == queue.filter(
            |entry: QueuedProviderView|
                failover_may_use(app_type, entry.provider) && entry.available,
        ).map_values(|entry: QueuedProviderView| entry.provider),
        usable(app_type, queue) == queue.filter(
            |entry: QueuedProviderView| failover_may_use(app_type, entry.provider),
        ),
    decreases queue.len(),
{
    reveal(Seq::filter);
    let both = |entry: QueuedProviderView|
        failover_may_use(app_type, entry.provider) && entry.available;
    let may = |entry: QueuedProviderView| failover_may_use(app_type, entry.provider);
    let provider = |entry: QueuedProviderView| entry.provider;
    if queue.len() == 0 {
        assert(queue.filter(both).map_values(provider) =~= available(usable(app_type, queue)));
        assert(queue.filter(may) =~= usable(app_type, queue));
    } else {
        let rest = queue.drop_last();
        lemma_queue_is_filtered(app_type, rest);
        let before = usable(app_type, rest);
        if may(queue.last()) {
            assert(before.push(queue.last()).drop_last() =~= before);
            assert(before.push(queue.last()).last() == queue.last());
        }
        assert(rest.filter(both).push(queue.last()).map_values(provider) =~= rest.filter(
            both,
        ).map_values(provider).push(queue.last().provider));
        assert(available(usable(app_type, queue)) =~= queue.filter(both).map_values(provider));
        assert(usable(app_type, queue) =~= queue.filter(may));
    }
}

/// With failover a request is tried with all providers of the queue that may be used and whose
/// breakers let requests through, in the order of the queue, and with no other. Where there is none
/// of these, the error says whether any was there at all.
pub proof fn failover_tries_the_queue(
    app_type: Seq<char>,
    current: Option<ProviderView>,
    queue: Seq<QueuedProviderView>,
)
    requires
        current matches Some(provider) ==> failover_may_use(app_type, provider),
    ensures
        ({
            let providers = base_providers(app_type, true, current, queue);
            let ready = queue.filter(
                |entry: QueuedProviderView|
                    failover_may_use(app_type, entry.provider) && entry.available,
            ).map_values(|entry: QueuedProviderView| entry.provider);
            let usable = queue.filter(
                |entry: QueuedProviderView| failover_may_use(app_type, entry.provider),
            );
            &&& ready.len() > 0 ==> providers == Ok::<Seq<ProviderView>, AppErrorView>(ready)
            &&& ready.len() == 0 && usable.len() > 0 ==> providers == Err::<
                Seq<ProviderView>,
                AppErrorView,
            >(AppErrorView::AllProvidersCircuitOpen)
            &&& usable.len() == 0 ==> providers == Err::<Seq<ProviderView>, AppErrorView>(
                AppErrorView::NoProvidersConfigured,
            )
        }),
{
    lemma_queue_is_filtered(app_type, queue);
    reveal(Seq::filter);
    if usable(app_type, queue).len() == 0 {
        assert(available(usable(app_type, queue)).len() == 0);
    }
}

/// Without failover a request is tried with the current provider alone, whatever its breaker says.
pub proof fn without_failover_the_current_provider_serves(
    app_type: Seq<char>,
    current: Option<ProviderView>,
    queue: Seq<QueuedProviderView>,
)
    ensures
        current matches Some(provider) ==> base_providers(app_type, false, current, queue) == Ok::<
            Seq<ProviderView>,
            AppErrorView,
        >(seq![provider]),
        current is None ==> base_providers(app_type, false, current, queue) == Err::<
            Seq<ProviderView>,
            AppErrorView,
        >(AppErrorView::NoProvidersConfigured),
        current matches Some(provider) ==> (!failover_may_use(app_type, provider)
            ==> base_providers(app_type, true, current, queue) == Ok::<
            Seq<ProviderView>,
            AppErrorView,
        >(seq![provider])),
{
}

proof fn lemma_fallbacks_are_filtered(
    pool: Seq<ProviderView>,
    group_id: Seq<char>,
    fallbacks: Seq<ProviderView>,
)
    requires
        forall|i: int, j: int|
            0 <= i < j < fallbacks.len() ==> (#[trigger] fallbacks[i]).id != (
            #[trigger] fallbacks[j]).id,
    ensures
        with_fallbacks(pool, group_id, fallbacks) == pool + fallbacks.filter(
            |provider: ProviderView| follows_pool(pool, group_id, provider),
        ),
    decreases fallbacks.len(),
{
    reveal(Seq::filter);
    let kept = |provider: ProviderView| follows_pool(pool, group_id, provider);
    if fallbacks.len() == 0 {
        assert(pool + fallbacks.filter(kept) =~= pool);
    } else {
        let rest = fallbacks.drop_last();
        assert forall|i: int, j: int| 0 <= i < j < rest.len() implies (#[trigger] rest[i]).id != (
        #[trigger] rest[j]).id by {
            assert(rest[i] == fallbacks[i]);
            assert(rest[j] == fallbacks[j]);
        }
        lemma_fallbacks_are_filtered(pool, group_id, rest);
        let before = with_fallbacks(pool, group_id, rest);
        let last = fallbacks.last();
        assert(has_id(before, last.id) == has_id(pool, last.id)) by {
            if has_id(pool, last.id) {
                let i = choose|i: int| 0 <= i < pool.len() && (#[trigger] pool[i]).id == last.id;
                assert(before[i] == pool[i]);
            }
            if has_id(before, last.id) && !has_id(pool, last.id) {
                let i = choose|i: int| 0 <= i < before.len() && (#[trigger] before[i]).id == last.id;
                if i < pool.len() {
                    assert(pool[i].id == last.id);
                }
                let k = i - pool.len();
                assert(before[i] == rest.filter(kept)[k]);
                assert(rest.filter(kept).contains(rest.filter(kept)[k]));
                rest.lemma_filter_contains_rev(kept, rest.filter(kept)[k]);
                let n = rest.index_of(rest.filter(kept)[k]);
                assert(rest[n].id == last.id);
                assert(fallbacks[n].id != fallbacks[fallbacks.len() - 1].id);
            }
        }
        assert((pool + rest.filter(kept)).push(last) =~= pool + rest.filter(kept).push(last));
    }
}

/// Whether a provider of the failover queue follows a key pool: it is in another group, or in none,
/// and is no member of the pool.
pub open spec fn follows_pool(
    pool: Seq<ProviderView>,
    group_id: Seq<char>,
    provider: ProviderView,
) -> bool {
    &&& !(provider.meta matches Some(meta) && meta.provider_group_id == Some(group_id))
    &&& forall|i: int| 0 <= i < pool.len() ==> (#[trigger] pool[i]).id != provider.id
}

/// A key pool is tried first, with its members as they were selected, and then, where failover is
/// on, all providers of the queue that are in no other way part of it, in the order of the queue.
/// Each member has the retries of the group, no model is fixed, and the current provider stays.
pub proof fn pools_are_tried_before_the_queue(
    auto_failover: bool,
    group_id: Seq<char>,
    max_retries: u32,
    members: Seq<ProviderView>,
    base: Result<Seq<ProviderView>, AppErrorView>,
)
    requires
        base matches Ok(fallbacks) ==> forall|i: int, j: int|
            0 <= i < j < fallbacks.len() ==> (#[trigger] fallbacks[i]).id != (
            #[trigger] fallbacks[j]).id,
    ensures
        ({
            let planned = route_plan(auto_failover, Some((group_id, max_retries, members)), base);
            let followers = match base {
                Ok(fallbacks) if auto_failover => fallbacks.filter(
                    |provider: ProviderView| follows_pool(members, group_id, provider),
                ),
                _ => Seq::empty(),
            };
            planned matches Ok(plan) && {
                &&& plan.attempts.map_values(|attempt: ProviderRouteAttemptView| attempt.provider)
                    == members + followers
                &&& forall|i: int|
                    0 <= i < plan.attempts.len() ==> (
                    #[trigger] plan.attempts[i]).outbound_model_override is None
                &&& plan.key_pool_retries.len() == members.len()
                &&& forall|i: int|
                    0 <= i < members.len() ==> #[trigger] plan.key_pool_retries[i] == (
                        members[i].id,
                        max_retries,
                    )
                &&& plan.use_failover_timeouts
                &&& !plan.sync_logical_target
                &&& !plan.bypass_single_provider_circuit_breaker
            }
        }),
{
    let fallbacks = match base {
        Ok(fallbacks) if auto_failover => fallbacks,
        _ => Seq::empty(),
    };
    lemma_fallbacks_are_filtered(members, group_id, fallbacks);
    let followers = match base {
        Ok(fallbacks) if auto_failover => fallbacks.filter(
            |provider: ProviderView| follows_pool(members, group_id, provider),
        ),
        _ => Seq::empty(),
    };
    reveal(Seq::filter);
    let all = with_fallbacks(members, group_id, fallbacks);
    assert(all =~= members + followers);
    assert(plain_attempts(all).map_values(|attempt: ProviderRouteAttemptView| attempt.provider)
        =~= all);
}

/// Without a key pool a request is tried with the base providers as they stand, with no model fixed;
/// it makes the one that serves it the current one, a single one is tried without its breaker, and
/// the configured timeouts apply with failover.
pub proof fn ordinary_routes_try_the_base_providers(
    auto_failover: bool,
    base: Result<Seq<ProviderView>, AppErrorView>,
)
    ensures
        base matches Err(error) ==> route_plan(auto_failover, None, base) == Err::<
            ProviderRoutePlanView,
            AppErrorView,
        >(error),
        base matches Ok(providers) ==> (route_plan(auto_failover, None, base) matches Ok(plan) && {
            &&& plan.attempts.len() == providers.len()
            &&& forall|i: int|
                0 <= i < providers.len() ==> (#[trigger] plan.attempts[i]).provider == providers[i]
                    && plan.attempts[i].outbound_model_override is None
            &&& plan.use_failover_timeouts == auto_failover
            &&& plan.sync_logical_target
            &&& plan.bypass_single_provider_circuit_breaker
            &&& plan.key_pool_retries.len() == 0
        }),
{
}

/// A key pool serves the requests of an app where the current provider is in that group and takes
/// part in its pool, the group is one of the app and has its pool switched on, and the app can be
/// served at all.
pub proof fn pools_serve_where_the_current_provider_takes_part(
    app_type: Seq<char>,
    supports_local_proxy: bool,
    current: Option<ProviderView>,
    group_id: Seq<char>,
    group_app_type: Seq<char>,
    group_enabled: bool,
)
    ensures
        pool_anchor(
            app_type,
            supports_local_proxy,
            current,
            group_id,
            group_app_type,
            group_enabled,
        ) <==> {
            &&& supports_local_proxy
            &&& group_enabled
            &&& group_app_type == app_type
            &&& current matches Some(provider) && (provider.meta matches Some(meta)
                && meta.key_pool_enabled == Some(true) && meta.provider_group_id == Some(group_id))
        },
{
}

/// The model that a provider is asked for where the route fixes none: its own, else the first of
/// its catalog, as a text or by its name, else the one of the request; none of these blank, and the
/// last two without white space at their ends.
pub proof fn default_models_come_in_their_order(provider: ProviderView, request_model: Seq<char>)
    ensures
        provider.codex_upstream_model matches Some(model) ==> default_model(provider, request_model)
            == Some(model),
        ({
            let first = match provider.settings_config.member("modelCatalog"@) {
                Some(catalog) => match catalog.member("models"@) {
                    Some(JsonView::Array(models)) => if models.len() > 0 {
                        match models[0] {
                            JsonView::Str(text) => Some(text),
                            model => match model.member("model"@) {
                                Some(JsonView::Str(text)) => Some(text),
                                _ => None,
                            },
                        }
                    } else {
                        None
                    },
                    _ => None,
                },
                None => None,
            };
            &&& provider.codex_upstream_model is None ==> (first matches Some(text) ==> (trimmed(
                text,
            ).len() > 0 ==> default_model(provider, request_model) == Some(trimmed(text))))
            &&& provider.codex_upstream_model is None && (first matches Some(text) ==> trimmed(
                text,
            ).len() == 0) ==> default_model(provider, request_model) == (if trimmed(
                request_model,
            ).len() > 0 {
                Some(trimmed(request_model))
            } else {
                None
            })
        }),
{
}

/// A text that is there and not blank, without white space at its ends.
pub open spec fn said(text: Option<Seq<char>>) -> Option<Seq<char>> {
    match text {
        Some(text) => if trimmed(text).len() > 0 {
            Some(trimmed(text))
        } else {
            None
        },
        None => None,
    }
}

/// A frontend request goes to the provider that the owner's routing names, with the model that it
/// names, and falls back to the owner with the owner's own model. Where the routing names no other
/// provider, the owner is asked for the model that it names; where the other provider is gone, for
/// its own.
pub proof fn frontend_requests_go_to_their_target(
    owner: ProviderView,
    current: Option<ProviderView>,
    target: Option<ProviderView>,
    owner_provider_id: Seq<char>,
    request_model: Seq<char>,
    provider_id: Option<Seq<char>>,
    model: Option<Seq<char>>,
)
    requires
        owner.meta matches Some(meta) && (meta.codex_agent_role_routing matches Some(routing)
            && routing.enabled && match routing.frontend {
            Some(frontend) => provider_id == said(frontend.provider_id) && model == said(
                frontend.upstream_model,
            ),
            None => provider_id is None && model is None,
        }),
    ensures
        frontend_plan(
            true,
            Some(owner),
            current,
            true,
            target,
            owner_provider_id,
            request_model,
        ) matches Ok(Some(plan)) && ({
            let attempts = plan.attempts;
            let elsewhere = provider_id matches Some(id) && id != owner.id;
            &&& !elsewhere ==> attempts.len() == 1 && attempts[0].provider == owner
                && attempts[0].outbound_model_override == (match model {
                Some(model) => Some(model),
                None => default_model(owner, request_model),
            })
            &&& elsewhere && target is None ==> attempts.len() == 1 && attempts[0].provider == owner
                && attempts[0].outbound_model_override == default_model(owner, request_model)
            &&& elsewhere && target is Some && target->Some_0.id != owner.id ==> {
                &&& attempts.len() == 2
                &&& attempts[0].provider == target->Some_0
                &&& attempts[0].outbound_model_override == (match model {
                    Some(model) => Some(model),
                    None => default_model(target->Some_0, request_model),
                })
                &&& attempts[1].provider == owner
                &&& attempts[1].outbound_model_override == default_model(owner, request_model)
            }
            &&& plan.use_failover_timeouts
            &&& !plan.sync_logical_target
            &&& !plan.bypass_single_provider_circuit_breaker
        }),
{
}

/// A frontend request goes the ordinary way where role routing is not allowed, to the current
/// provider where its owner is gone, and is refused where the owner's routing is off or the token
/// is not valid.
pub proof fn frontend_requests_may_be_refused(
    owner: Option<ProviderView>,
    current: Option<ProviderView>,
    token_valid: bool,
    target: Option<ProviderView>,
    owner_provider_id: Seq<char>,
    request_model: Seq<char>,
)
    ensures
        frontend_plan(
            false,
            owner,
            current,
            token_valid,
            target,
            owner_provider_id,
            request_model,
        ) == Ok::<Option<ProviderRoutePlanView>, AppErrorView>(None),
        owner is None ==> match current {
            Some(current) => frontend_plan(
                true,
                owner,
                Some(current),
                token_valid,
                target,
                owner_provider_id,
                request_model,
            ) matches Ok(Some(plan)) && plan.attempts.len() == 1 && plan.attempts[0].provider
                == current && plan.attempts[0].outbound_model_override == default_model(
                current,
                request_model,
            ),
            None => frontend_plan(
                true,
                owner,
                current,
                token_valid,
                target,
                owner_provider_id,
                request_model,
            ) == Err::<Option<ProviderRoutePlanView>, AppErrorView>(
                AppErrorView::NoProvidersConfigured,
            ),
        },
        owner matches Some(owner) ==> ({
            let on = owner.meta matches Some(meta) && (
            meta.codex_agent_role_routing matches Some(routing) && routing.enabled);
            let planned = frontend_plan(
                true,
                Some(owner),
                current,
                token_valid,
                target,
                owner_provider_id,
                request_model,
            );
            &&& !on || !token_valid ==> (planned matches Err(AppErrorView::InvalidInput(_)))
            &&& on && token_valid ==> (planned matches Ok(Some(_)))
        }),
{
}

/// A breaker opens after five failures where nothing else is configured.
pub proof fn breakers_open_after_five_failures(configured: Option<u32>, threshold: u32)
    requires
        call_ensures(failure_threshold, (configured,), threshold),
    ensures
        configured is None ==> threshold == 5,
        configured matches Some(count) ==> threshold == count,
{
}

} // verus!
