//! A node and its daemon: identity, configuration, and what it says of
//! itself.

use vstd::prelude::*;

use crate::desired::{Desired, Unit};
use crate::digest::{parts_of, short_digest, short_digest_text};
use crate::error::{EnvironmentError, Refusal};
use crate::events::{fact, no_scope, text_fact, Datum, DatumText, EventKind, Notice, Scope};
use crate::execute::WorkloadRuntime;
use crate::status::{ControlPlaneView, DaemonStatus, SecurityMode, SecurityView};
use crate::table::Table;
use crate::text::{
    copy_list, copy_option, decimal, decimal_text, same, signed_decimal, signed_text, texts, trim,
    trimmed,
};
use crate::tls::TlsStatus;
use crate::views::{running_count, running_services};

verus! {

/// How often the reconciler runs while a release is in flight, in
/// milliseconds.
pub const RELEASE_TICK_MS: u64 = 100;

// ---- Configuration ----------------------------------------------------------

/// The node's network: the public entry, and the providers that manage DNS
/// and certificates.
#[derive(Debug, PartialEq, Eq)]
pub struct NetworkConfig {
    /// The address endpoints listen on. Loopback keeps services private to
    /// the node; ingress is the public entry.
    pub endpoint_address: String,
    /// Public HTTP: ACME HTTP-01, redirects, and plain routing.
    pub ingress_http: Option<String>,
    /// Public HTTPS: TLS terminated by SNI.
    pub ingress_https: Option<String>,
    /// The address DNS `A` records point at.
    pub public_ipv4: Option<String>,
    /// The address DNS `AAAA` records point at.
    pub public_ipv6: Option<String>,
    /// How often DNS records are read back to detect drift.
    pub dns_interval_ms: u64,
    /// How long to wait after a failed certificate order before retrying.
    pub certificate_retry_ms: u64,
    /// Where node-local secrets (certificate keys, the ACME account) live.
    /// Defaults to `secrets` in the state directory.
    pub secrets_dir: Option<String>,
}

impl NetworkConfig {
    /// A private node: nothing is public, and every interval is the usual
    /// one.
    pub open spec fn is_private(self) -> bool {
        &&& self.endpoint_address@ == "127.0.0.1"@
        &&& self.ingress_http is None
        &&& self.ingress_https is None
        &&& self.public_ipv4 is None
        &&& self.public_ipv6 is None
        &&& self.dns_interval_ms == 60_000
        &&& self.certificate_retry_ms == 300_000
        &&& self.secrets_dir is None
    }
}

impl Default for NetworkConfig {
    fn default() -> (r: Self)
        ensures
            r.is_private(),
    {
        NetworkConfig {
            endpoint_address: "127.0.0.1".to_owned(),
            ingress_http: None,
            ingress_https: None,
            public_ipv4: None,
            public_ipv6: None,
            dns_interval_ms: 60_000,
            certificate_retry_ms: 300_000,
            secrets_dir: None,
        }
    }
}

/// How a daemon runs.
#[derive(Debug, PartialEq, Eq)]
pub struct DaemonConfig {
    /// Node-local data: the artifact cache, logs, and the daemon lock.
    /// Never authoritative.
    pub state_dir: String,
    /// Host ports for services' stable endpoints.
    pub port_range: (u16, u16),
    /// Host ports for individual service instances. Endpoints forward to
    /// them; two instances of a service run side by side during a release.
    pub instance_port_range: (u16, u16),
    /// How long a replaced instance may finish open connections before it
    /// is stopped.
    pub drain_timeout_ms: u64,
    /// How long traffic may take to verify on a new revision before the
    /// release is rolled back.
    pub switch_timeout_ms: u64,
    /// Endpoints, ingress, DNS, and certificates.
    pub network: NetworkConfig,
    /// The first restart delay of a failed service; later ones back off.
    pub restart_delay_ms: u64,
    /// How often the reconciler rereads desired state.
    pub reconcile_interval_ms: u64,
}

impl DaemonConfig {
    pub fn new(state_dir: String) -> (r: Self)
        ensures
            r.state_dir == state_dir,
            r.port_range == (20000u16, 29999u16),
            r.instance_port_range == (30000u16, 39999u16),
            r.drain_timeout_ms == 30_000,
            r.switch_timeout_ms == 10_000,
            r.network.is_private(),
            r.restart_delay_ms == 1_000,
            r.reconcile_interval_ms == 5_000,
    {
        DaemonConfig {
            state_dir,
            port_range: (20000, 29999),
            instance_port_range: (30000, 39999),
            drain_timeout_ms: 30_000,
            switch_timeout_ms: 10_000,
            network: NetworkConfig::default(),
            restart_delay_ms: 1_000,
            reconcile_interval_ms: 5_000,
        }
    }
}

/// How long the reconciler rests: a release in flight advances every tick.
pub fn rest(interval_ms: u64, releasing: bool) -> (r: u64)
    ensures
        r == (if releasing && interval_ms > RELEASE_TICK_MS {
            RELEASE_TICK_MS
        } else {
            interval_ms
        }),
        !releasing ==> r == interval_ms,
        releasing ==> r <= 100 && r <= interval_ms,
        releasing && interval_ms >= 100 ==> r == 100,
{
    if releasing && interval_ms > RELEASE_TICK_MS {
        RELEASE_TICK_MS
    } else {
        interval_ms
    }
}

// ---- Identity ---------------------------------------------------------------

/// A daemon's identifier: the process it is, and when it started.
pub fn instance_id(pid: u32, started_at: i64) -> (r: String)
    ensures
        r@ == "daemon_"@ + short_digest_text(
            seq![decimal_text(pid as nat), signed_text(started_at as int)],
        ),
{
    let pid = decimal(pid as u64);
    let moment = signed_decimal(started_at);
    let parts = [pid.as_str(), moment.as_str()];
    proof {
        assert(parts_of(parts@) =~= seq![pid@, moment@]);
    }
    "daemon_".to_owned().concat(&short_digest(&parts))
}

pub open spec fn new_node_id(pid: u32, now: i64, state_dir: Seq<char>) -> Seq<char> {
    "node_"@ + short_digest_text(
        seq![decimal_text(pid as nat), signed_text(now as int), state_dir],
    )
}

/// This node's stable identity: it names the secrets the node holds. The one
/// that was stored, or, where none was, a new one, which is then stored.
/// Returns it and whether it is new.
pub fn node_id(stored: &Option<String>, pid: u32, now: i64, state_dir: &str) -> (r: (String, bool))
    ensures
        ({
            let known = stored is Some && trimmed(stored->0@).len() > 0;
            &&& r.1 == !known
            &&& known ==> r.0@ == trimmed(stored->0@)
            &&& !known ==> r.0@ == new_node_id(pid, now, state_dir@)
        }),
{
    if let Some(text) = stored {
        let id = trim(text);
        if !id.as_str().is_empty() {
            return (id, false);
        }
    }
    let pid = decimal(pid as u64);
    let moment = signed_decimal(now);
    let parts = [pid.as_str(), moment.as_str(), state_dir];
    proof {
        assert(parts_of(parts@) =~= seq![pid@, moment@, state_dir@]);
    }
    ("node_".to_owned().concat(&short_digest(&parts)), true)
}

/// What a second daemon on a node directory is refused with.
pub fn node_is_taken(state_dir: &str) -> (r: EnvironmentError)
    ensures
        r.reports(Refusal::Conflict("another Compute daemon owns "@ + state_dir@)),
{
    let mut text = "another Compute daemon owns ".to_owned();
    text.append(state_dir);
    EnvironmentError::Conflict(text)
}

// ---- Starting and stopping --------------------------------------------------

/// What a daemon that cannot read its control state is refused with: it does
/// not start.
pub fn unreadable_state(location: &str, error: &str) -> (r: EnvironmentError)
    ensures
        r.reports(
            Refusal::Unavailable(
                "cannot read control state at "@ + location@ + ": "@ + error@,
            ),
        ),
{
    let mut text = "cannot read control state at ".to_owned();
    text.append(location);
    text.append(": ");
    text.append(error);
    EnvironmentError::Unavailable(text)
}

/// Check how the API authenticates: a token everyone shares is not enough in
/// production.
pub fn check_security(mode: SecurityMode, has_shared_token: bool) -> (r: Result<
    (),
    EnvironmentError,
>)
    ensures
        if mode == SecurityMode::Production && has_shared_token {
            r matches Err(error) && error.reports(
                Refusal::Invalid(
                    "a shared token is not a production credential; issue operator credentials with `compute auth create`"@,
                ),
            )
        } else {
            r is Ok
        },
{
    if mode == SecurityMode::Production && has_shared_token {
        return Err(
            EnvironmentError::Invalid(
                "a shared token is not a production credential; issue operator credentials with `compute auth create`".to_owned(),
            ),
        );
    }
    Ok(())
}

/// A daemon started, where its control state and its artifacts are, and what
/// it cleaned up.
pub fn daemon_started(
    instance_id: &str,
    state: &str,
    artifacts: &str,
    reaped: &Vec<String>,
) -> (r: Notice)
    ensures
        r.says(
            EventKind::DaemonStarted,
            no_scope(),
            "Compute daemon "@ + instance_id@ + " started"@,
            seq![
                text_fact("state"@, state@),
                text_fact("artifacts"@, artifacts@),
                fact("reaped"@, DatumText::Texts(texts(reaped@))),
            ],
        ),
{
    let mut message = "Compute daemon ".to_owned();
    message.append(instance_id);
    message.append(" started");
    Notice::new(EventKind::DaemonStarted, Scope::default(), message).with(
        "state",
        Datum::text(state),
    ).with("artifacts", Datum::text(artifacts)).with("reaped", Datum::Texts(copy_list(reaped)))
}

pub fn daemon_stopped(instance_id: &str) -> (r: Notice)
    ensures
        r.says(
            EventKind::DaemonStopped,
            no_scope(),
            "Compute daemon "@ + instance_id@ + " stopped"@,
            seq![],
        ),
{
    let mut message = "Compute daemon ".to_owned();
    message.append(instance_id);
    message.append(" stopped");
    Notice::new(EventKind::DaemonStopped, Scope::default(), message)
}

// ---- Providers --------------------------------------------------------------

#[derive(Debug, Clone, Copy, PartialEq, Eq, Structural)]
pub enum ProviderKind {
    Local,
    Remote,
}

/// A provider of the daemon's pool, as it is configured.
#[derive(Debug, PartialEq, Eq)]
pub struct ProviderConfig {
    pub id: String,
    pub kind: ProviderKind,
    pub endpoint: Option<String>,
    pub priority: i64,
}

/// A provider as it is recorded.
#[derive(Debug, PartialEq, Eq)]
pub struct ProviderRecord {
    pub provider_id: String,
    pub kind: String,
    pub endpoint: Option<String>,
    pub priority: i64,
    pub registered_by: String,
    pub observed_at: i64,
}

pub open spec fn has_local(providers: Seq<ProviderConfig>, n: nat) -> bool {
    exists|i: int| 0 <= i < n && (#[trigger] providers[i]).kind == ProviderKind::Local
}

/// The daemon's provider pool: what is configured, and always the daemon's
/// own node, `local`.
pub fn provider_pool(providers: Vec<ProviderConfig>) -> (r: Vec<ProviderConfig>)
    ensures
        if has_local(providers@, providers@.len()) {
            r@ == providers@
        } else {
            &&& r@.len() == providers@.len() + 1
            &&& r@.drop_last() == providers@
            &&& r@.last().id@ == "local"@
            &&& r@.last().kind == ProviderKind::Local
            &&& r@.last().endpoint is None
            &&& r@.last().priority == 0
        },
{
    let mut i: usize = 0;
    while i < providers.len()
        invariant
            i <= providers@.len(),
            !has_local(providers@, i as nat),
        decreases providers@.len() - i,
    {
        if providers[i].kind == ProviderKind::Local {
            proof {
                assert(providers@[i as int].kind == ProviderKind::Local);
            }
            return providers;
        }
        i += 1;
    }
    let mut pool = providers;
    let ghost before = pool@;
    pool.push(
        ProviderConfig {
            id: "local".to_owned(),
            kind: ProviderKind::Local,
            endpoint: None,
            priority: 0,
        },
    );
    proof {
        assert(pool@.drop_last() =~= before);
    }
    pool
}

/// What is recorded of a provider of the pool.
pub fn provider_record(provider: &ProviderConfig, instance_id: &str, now: i64) -> (r: ProviderRecord)
    ensures
        r.provider_id == provider.id,
        r.kind@ == (match provider.kind {
            ProviderKind::Local => "local"@,
            ProviderKind::Remote => "remote"@,
        }),
        r.endpoint == provider.endpoint,
        r.priority == provider.priority,
        r.registered_by@ == instance_id@,
        r.observed_at == now,
{
    ProviderRecord {
        provider_id: provider.id.clone(),
        kind: match provider.kind {
            ProviderKind::Local => "local".to_owned(),
            ProviderKind::Remote => "remote".to_owned(),
        },
        endpoint: copy_option(&provider.endpoint),
        priority: provider.priority,
        registered_by: instance_id.to_owned(),
        observed_at: now,
    }
}

// ---- What a daemon says of itself -------------------------------------------

/// The daemon's status.
pub fn daemon_status(
    version: &str,
    instance_id: &str,
    pid: u32,
    started_at: i64,
    config: &DaemonConfig,
    state: &str,
    artifacts: &str,
    state_error: &Option<String>,
    last_reconciled_at: Option<i64>,
    desired: &Desired,
    runtime: &Table<Unit, WorkloadRuntime>,
) -> (r: DaemonStatus)
    ensures
        r.version@ == version@,
        r.instance_id@ == instance_id@,
        r.pid == pid,
        r.started_at == started_at,
        r.state_dir == config.state_dir,
        r.state@ == state@,
        r.artifacts@ == artifacts@,
        r.state_available == (state_error is None),
        r.state_error == *state_error,
        r.last_reconciled_at == last_reconciled_at,
        r.reconcile_interval_ms == config.reconcile_interval_ms,
        r.environments == desired.environments.rows().len(),
        r.running_services == running_count(runtime.values(), runtime.values().len()),
{
    DaemonStatus {
        version: version.to_owned(),
        instance_id: instance_id.to_owned(),
        pid,
        started_at,
        state_dir: config.state_dir.clone(),
        state: state.to_owned(),
        artifacts: artifacts.to_owned(),
        state_available: state_error.is_none(),
        state_error: copy_option(state_error),
        last_reconciled_at,
        reconcile_interval_ms: config.reconcile_interval_ms,
        environments: desired.environments.len(),
        running_services: running_services(runtime),
    }
}

/// Liveness without authentication: whether this controller's control plane
/// is degraded. Nothing else.
pub fn health(state_error: &Option<String>) -> (r: &'static str)
    ensures
        r@ == (if state_error is None {
            "ok"@
        } else {
            "degraded_control_plane"@
        }),
{
    if state_error.is_none() {
        "ok"
    } else {
        "degraded_control_plane"
    }
}

/// The control plane as this controller sees it.
pub fn control_plane(
    state: &str,
    state_error: &Option<String>,
    last_reconciled_at: Option<i64>,
) -> (r: ControlPlaneView)
    ensures
        r.state@ == state@,
        r.mode@ == (if state_error is None {
            "normal"@
        } else {
            "degraded_control_plane"@
        }),
        r.error == *state_error,
        r.last_reconciled_at == last_reconciled_at,
{
    ControlPlaneView {
        state: state.to_owned(),
        mode: if state_error.is_none() {
            "normal".to_owned()
        } else {
            "degraded_control_plane".to_owned()
        },
        error: copy_option(state_error),
        last_reconciled_at,
    }
}

/// The number of active credentials among the first `n`.
pub open spec fn active_count(statuses: Seq<String>, n: nat) -> nat
    decreases n,
{
    if n == 0 {
        0
    } else {
        active_count(statuses, (n - 1) as nat) + (if statuses[n - 1]@ == "active"@ {
            1nat
        } else {
            0nat
        })
    }
}

/// How the API is secured. `statuses` are those of the credentials a node
/// holds.
pub fn security_view(
    mode: SecurityMode,
    reason: &str,
    has_shared_token: bool,
    tls: Option<TlsStatus>,
    statuses: &Vec<String>,
) -> (r: SecurityView)
    ensures
        r.mode == mode,
        r.reason@ == reason@,
        r.authentication_required == (mode == SecurityMode::Production || has_shared_token),
        match tls {
            Some(tls) => r.tls == tls,
            None => r.tls.is_disabled(),
        },
        r.active_credentials == active_count(statuses@, statuses@.len()),
{
    let mut active: usize = 0;
    let mut i: usize = 0;
    while i < statuses.len()
        invariant
            i <= statuses@.len(),
            active <= i,
            active == active_count(statuses@, i as nat),
        decreases statuses@.len() - i,
    {
        if same(&statuses[i], "active") {
            active += 1;
        }
        i += 1;
    }
    SecurityView {
        mode,
        reason: reason.to_owned(),
        authentication_required: mode == SecurityMode::Production || has_shared_token,
        tls: match tls {
            Some(tls) => tls,
            None => TlsStatus::disabled(),
        },
        active_credentials: active,
    }
}

// ---- Laws -------------------------------------------------------------------

/// As many credentials are active as have that status.
pub proof fn law_active_credentials_are_counted(statuses: Seq<String>, n: nat)
    requires
        n <= statuses.len(),
    ensures
        active_count(statuses, n) == statuses.take(n as int).filter(
            |status: String| status@ == "active"@,
        ).len(),
    decreases n,
{
    reveal(Seq::filter);
    if n > 0 {
        law_active_credentials_are_counted(statuses, (n - 1) as nat);
        assert(statuses.take(n as int).drop_last() =~= statuses.take(n - 1));
    }
}

/// A private node listens on this machine alone, and reads DNS back every
/// minute.
pub proof fn law_private_nodes_are_private(config: NetworkConfig)
    requires
        config.is_private(),
    ensures
        config.endpoint_address@ == "127.0.0.1"@,
        config.ingress_http is None,
        config.ingress_https is None,
        config.public_ipv4 is None,
        config.public_ipv6 is None,
        config.dns_interval_ms == 60_000,
        config.certificate_retry_ms == 5 * 60_000,
        config.secrets_dir is None,
{
}

} // verus!
