//! What the proxy shows of its requests.

use vstd::prelude::*;
use vstd::string::*;
use crate::provider::Provider;
use crate::text::opt_view;
use crate::text_map::TextMap;

verus! {

/// The proxy's counters and what it did last.
#[derive(Debug)]
pub struct ProxyStatus {
    pub active_connections: usize,
    pub total_requests: u64,
    pub success_requests: u64,
    pub failed_requests: u64,
    pub failover_count: u64,
    /// The name and the id of the provider that is being tried.
    pub current_provider: Option<String>,
    pub current_provider_id: Option<String>,
    pub last_error: Option<String>,
    pub last_request_at: Option<String>,
}

/// The status as a mathematical value.
pub struct ProxyStatusView {
    pub active_connections: nat,
    pub total_requests: nat,
    pub success_requests: nat,
    pub failed_requests: nat,
    pub failover_count: nat,
    pub current_provider: Option<Seq<char>>,
    pub current_provider_id: Option<Seq<char>>,
    pub last_error: Option<Seq<char>>,
    pub last_request_at: Option<Seq<char>>,
}

impl View for ProxyStatus {
    type V = ProxyStatusView;

    open spec fn view(&self) -> ProxyStatusView {
        ProxyStatusView {
            active_connections: self.active_connections as nat,
            total_requests: self.total_requests as nat,
            success_requests: self.success_requests as nat,
            failed_requests: self.failed_requests as nat,
            failover_count: self.failover_count as nat,
            current_provider: opt_view(self.current_provider),
            current_provider_id: opt_view(self.current_provider_id),
            last_error: opt_view(self.last_error),
            last_request_at: opt_view(self.last_request_at),
        }
    }
}

impl ProxyStatusView {
    /// The status after a request has come in.
    pub open spec fn begun(self, now: Seq<char>) -> ProxyStatusView {
        ProxyStatusView {
            active_connections: if self.active_connections < usize::MAX {
                self.active_connections + 1
            } else {
                self.active_connections
            },
            total_requests: if self.total_requests < u64::MAX {
                self.total_requests + 1
            } else {
                self.total_requests
            },
            last_request_at: Some(now),
            ..self
        }
    }

    /// The status after a request's answer is complete.
    pub open spec fn ended(self) -> ProxyStatusView {
        ProxyStatusView {
            active_connections: if self.active_connections > 0 {
                (self.active_connections - 1) as nat
            } else {
                0
            },
            ..self
        }
    }

    /// The status after a request that failed.
    pub open spec fn with_failure(self, message: Seq<char>) -> ProxyStatusView {
        ProxyStatusView {
            failed_requests: self.failed_requests + 1,
            last_error: Some(message),
            ..self
        }
    }

    /// The status after a request that succeeded.
    pub open spec fn with_success(self) -> ProxyStatusView {
        ProxyStatusView { success_requests: self.success_requests + 1, last_error: None, ..self }
    }
}

impl ProxyStatus {
    /// Nothing has happened yet.
    pub fn new() -> (status: ProxyStatus)
        ensures
            status@ == (ProxyStatusView {
                active_connections: 0,
                total_requests: 0,
                success_requests: 0,
                failed_requests: 0,
                failover_count: 0,
                current_provider: None,
                current_provider_id: None,
                last_error: None,
                last_request_at: None,
            }),
    {
        ProxyStatus {
            active_connections: 0,
            total_requests: 0,
            success_requests: 0,
            failed_requests: 0,
            failover_count: 0,
            current_provider: None,
            current_provider_id: None,
            last_error: None,
            last_request_at: None,
        }
    }

    /// A request has come in. Each is counted once, however many providers are tried for it.
    pub fn begin_request(&mut self, now: String)
        ensures
            final(self)@ == old(self)@.begun(now@),
    {
        if self.active_connections < usize::MAX {
            self.active_connections = self.active_connections + 1;
        }
        if self.total_requests < u64::MAX {
            self.total_requests = self.total_requests + 1;
        }
        self.last_request_at = Some(now);
    }

    /// A request's answer is complete.
    pub fn end_request(&mut self)
        ensures
            final(self)@ == old(self)@.ended(),
    {
        if self.active_connections > 0 {
            self.active_connections = self.active_connections - 1;
        }
    }

    /// A provider is tried. It is only shown where it may become the current one.
    pub fn try_provider(&mut self, provider: &Provider, sync_logical_target: bool)
        ensures
            final(self)@ == if sync_logical_target {
                ProxyStatusView {
                    current_provider: Some(provider.name@),
                    current_provider_id: Some(provider.id@),
                    ..old(self)@
                }
            } else {
                old(self)@
            },
    {
        if sync_logical_target {
            self.current_provider = Some(provider.name.clone());
            self.current_provider_id = Some(provider.id.clone());
        }
    }

    /// A provider has failed, and another one is tried.
    pub fn provider_failed(&mut self, message: String)
        ensures
            final(self)@ == (ProxyStatusView { last_error: Some(message@), ..old(self)@ }),
    {
        self.last_error = Some(message);
    }

    /// A request has failed.
    pub fn request_failed(&mut self, message: String)
        requires
            old(self).failed_requests < u64::MAX,
        ensures
            final(self)@ == old(self)@.with_failure(message@),
    {
        self.failed_requests = self.failed_requests + 1;
        self.last_error = Some(message);
    }

    /// A request has succeeded.
    pub fn request_succeeded(&mut self)
        requires
            old(self).success_requests < u64::MAX,
        ensures
            final(self)@ == old(self)@.with_success(),
    {
        self.success_requests = self.success_requests + 1;
        self.last_error = None;
    }

    /// A stream has ended, well or with an error.
    pub fn stream_ended(&mut self, error: Option<String>)
        requires
            error is None ==> old(self).success_requests < u64::MAX,
            error is Some ==> old(self).failed_requests < u64::MAX,
        ensures
            final(self)@ == match opt_view(error) {
                Some(message) => old(self)@.with_failure(message),
                None => old(self)@.with_success(),
            },
    {
        match error {
            Some(message) => self.request_failed(message),
            None => self.request_succeeded(),
        }
    }
}

/// The provider that each app uses: its id and its name.
pub type ActiveProviders = TextMap<(String, String)>;

/// The id and the name of the provider that each app uses.
pub open spec fn active_view(active: ActiveProviders) -> Map<Seq<char>, (Seq<char>, Seq<char>)> {
    active@.map_values(|provider: (String, String)| (provider.0@, provider.1@))
}

/// Makes a provider the one that its app uses. Other apps keep theirs.
pub fn set_active_provider(active: &mut ActiveProviders, app_type: &str, id: &str, name: &str)
    ensures
        active_view(*final(active)) == active_view(*old(active)).insert(app_type@, (id@, name@)),
{
    let ghost before = active_view(*active);
    active.insert(app_type, (id.to_owned(), name.to_owned()));
    assert(active_view(*active) =~= before.insert(app_type@, (id@, name@)));
}

/// Takes over a switch that has happened: the provider is the app's current one, and the switch
/// is counted.
pub fn commit_successful_failover_switch(
    active: &mut ActiveProviders,
    status: &mut ProxyStatus,
    app_type: &str,
    id: &str,
    name: &str,
)
    requires
        old(status).failover_count < u64::MAX,
    ensures
        active_view(*final(active)) == active_view(*old(active)).insert(app_type@, (id@, name@)),
        final(status)@ == (ProxyStatusView {
            failover_count: old(status)@.failover_count + 1,
            ..old(status)@
        }),
{
    set_active_provider(active, app_type, id, name);
    status.failover_count = status.failover_count + 1;
}

/// However a request ends, it gives back the connection that it took.
pub proof fn connections_are_given_back(before: ProxyStatusView, now: Seq<char>, message: Seq<char>)
    requires
        before.active_connections < usize::MAX,
    ensures
        before.begun(now).with_failure(message).ended().active_connections
            == before.active_connections,
        before.begun(now).with_success().ended().active_connections == before.active_connections,
{
}

/// A request that comes in is counted, with its time, and nothing else changes.
pub proof fn requests_are_counted(status: ProxyStatusView, now: Seq<char>)
    ensures
        ({
            let after = status.begun(now);
            &&& status.total_requests < u64::MAX ==> after.total_requests == status.total_requests
                + 1
            &&& status.active_connections < usize::MAX ==> after.active_connections
                == status.active_connections + 1
            &&& after.last_request_at == Some(now)
            &&& after.success_requests == status.success_requests
            &&& after.failed_requests == status.failed_requests
            &&& after.failover_count == status.failover_count
            &&& after.last_error == status.last_error
            &&& after.current_provider == status.current_provider
            &&& after.current_provider_id == status.current_provider_id
        }),
{
}

/// A request that ends is counted as one that succeeded or as one that failed, and the last error is
/// that of the last request; none of it touches the other counters.
pub proof fn outcomes_are_counted(status: ProxyStatusView, message: Seq<char>)
    ensures
        ({
            let failed = status.with_failure(message);
            let good = status.with_success();
            let gone = status.ended();
            &&& failed.failed_requests == status.failed_requests + 1
            &&& failed.success_requests == status.success_requests
            &&& failed.last_error == Some(message)
            &&& good.success_requests == status.success_requests + 1
            &&& good.failed_requests == status.failed_requests
            &&& good.last_error is None
            &&& failed.total_requests == status.total_requests
            &&& good.total_requests == status.total_requests
            &&& gone.total_requests == status.total_requests
            &&& gone.success_requests == status.success_requests
            &&& gone.failed_requests == status.failed_requests
            &&& status.active_connections > 0 ==> gone.active_connections + 1
                == status.active_connections
            &&& status.active_connections == 0 ==> gone.active_connections == 0
            &&& failed.active_connections == status.active_connections
            &&& good.active_connections == status.active_connections
        }),
{
}

} // verus!
