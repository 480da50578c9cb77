//! Machine-readable views of the control plane: durable desired state
//! joined with the daemon's live observations.

use vstd::prelude::*;

use crate::dataplane::DataPlaneInfo;
use crate::execute::ExecutionRecord;
use crate::model::{ActualState, Config, DesiredState, PortBinding, RestartPolicy, WorkloadKind};
use crate::state::{
    CertificateRecord, DeploymentRecord, DeploymentStatus, DnsRecordRecord, DomainRecord,
    RevisionWorkload, WorkloadInstanceRecord,
};
use crate::supervision::Recovery;
use crate::text::copy_option;
use crate::tls::TlsStatus;

verus! {

#[derive(Debug, Clone, Copy, PartialEq, Eq, Structural)]
pub enum Health {
    Healthy,
    Unhealthy,
    Unknown,
}

impl Health {
    pub open spec fn name(self) -> Seq<char> {
        match self {
            Health::Healthy => "healthy"@,
            Health::Unhealthy => "unhealthy"@,
            Health::Unknown => "unknown"@,
        }
    }

    pub fn as_str(self) -> (r: &'static str)
        ensures
            r@ == self.name(),
    {
        match self {
            Health::Healthy => "healthy",
            Health::Unhealthy => "unhealthy",
            Health::Unknown => "unknown",
        }
    }
}

/// How the API authenticates operators.
#[derive(Debug, Clone, Copy, PartialEq, Eq, Structural)]
pub enum SecurityMode {
    Production,
    Development,
}

/// How the API is secured.
#[derive(Debug, PartialEq, Eq)]
pub struct SecurityView {
    pub mode: SecurityMode,
    pub reason: String,
    /// Whether requests without a credential are refused.
    pub authentication_required: bool,
    pub tls: TlsStatus,
    pub active_credentials: usize,
}

/// Where workloads run and endpoints listen.
#[derive(Debug)]
pub struct DataPlaneView {
    pub info: Option<DataPlaneInfo>,
    /// Whether workloads outlive this controller.
    pub independent: bool,
    pub error: Option<String>,
    /// What this controller found when it started.
    pub recovery: Recovery,
}

/// The control plane as a controller sees it.
#[derive(Debug, PartialEq, Eq)]
pub struct ControlPlaneView {
    /// Where durable control state lives.
    pub state: String,
    /// `normal`, or `degraded_control_plane` while durable control state is
    /// unreachable: workloads keep running, reads are served from the last
    /// snapshot, and mutations are refused.
    pub mode: String,
    pub error: Option<String>,
    pub last_reconciled_at: Option<i64>,
}

/// A daemon, and how it stands.
#[derive(Debug)]
pub struct DaemonStatus {
    pub version: String,
    pub instance_id: String,
    pub pid: u32,
    pub started_at: i64,
    /// The node-local directory: artifact cache, logs, and the daemon lock.
    pub state_dir: String,
    /// Where durable control state lives.
    pub state: String,
    /// Where durable artifacts (bundles, receipts) live.
    pub artifacts: String,
    /// Whether the last read of control state succeeded. When it did not,
    /// the daemon changes nothing until it does.
    pub state_available: bool,
    pub state_error: Option<String>,
    pub last_reconciled_at: Option<i64>,
    pub reconcile_interval_ms: u64,
    pub environments: usize,
    pub running_services: usize,
}

/// Counts for diagnosis: what runs here and what is not well.
#[derive(Debug)]
pub struct WorkloadSummary {
    pub total: usize,
    pub running: usize,
    pub failed: usize,
    /// `environment/project/workload` of each running workload whose
    /// health check fails.
    pub unhealthy: Vec<String>,
    /// Host ports routed to a workload.
    pub endpoints: usize,
    /// Host ports that could not listen, with why.
    pub endpoint_errors: Vec<(u16, String)>,
}

/// The controller's working copy of desired state. Never authority.
#[derive(Debug, PartialEq, Eq)]
pub struct CacheView {
    /// Writes this controller has committed; a read cached before the
    /// latest is not served.
    pub generation: u64,
    /// The durable state the working copy was read at.
    pub as_of: Option<i64>,
    pub age_ms: Option<u64>,
    /// How old a read may be served from it.
    pub max_age_ms: u64,
    /// `current` (read at the latest generation within `max_age_ms`),
    /// `expired`, `stale` (durable state unreachable), or `empty`.
    pub freshness: String,
    /// The snapshot it was derived from, when derived whole.
    pub snapshot_id: Option<String>,
    /// The durable revision it provably represents, when known.
    pub revision: Option<u64>,
    /// Refreshes answered by that revision alone (nothing else read).
    pub reused: u64,
    /// This controller's own commits carried onto it without a re-read.
    pub rolled_forward: u64,
}

/// What waits for durable state.
#[derive(Debug, Clone, Copy, PartialEq, Eq, Structural)]
pub struct PendingView {
    pub targeted_refresh: usize,
    pub evidence: usize,
    pub audit: usize,
}

/// What a workload's last execution left as evidence.
#[derive(Debug)]
pub struct Evidence {
    pub policy_id: Option<String>,
    pub admission_id: Option<String>,
    /// Receipt hashes, most recent last.
    pub receipt_ids: Vec<String>,
}

/// Where a workload executes.
#[derive(Debug, PartialEq, Eq)]
pub struct PlacementView {
    pub placement_id: Option<String>,
    pub provider: Option<String>,
    /// The Compute node that executes: the provider's identity.
    pub node: Option<String>,
}

impl Clone for PlacementView {
    fn clone(&self) -> (r: Self)
        ensures
            r == *self,
    {
        PlacementView {
            placement_id: copy_option(&self.placement_id),
            provider: copy_option(&self.provider),
            node: copy_option(&self.node),
        }
    }
}

/// What a workload may use, as its bundle declares it.
#[derive(Debug, PartialEq, Eq)]
pub struct ResourceView {
    /// CPU usage is not measured.
    pub cpu: String,
    pub memory_limit_bytes: Option<u64>,
    pub timeout_ms: Option<u64>,
    pub disk_bytes: u64,
    pub network: String,
}

/// A workload as it is now.
#[derive(Debug)]
pub struct WorkloadView {
    pub workload_id: String,
    pub name: String,
    pub kind: WorkloadKind,
    pub desired_state: DesiredState,
    pub actual_state: ActualState,
    pub health: Health,
    pub restart: RestartPolicy,
    pub runtime: String,
    pub bundle_id: String,
    pub deployment_id: String,
    pub execution_id: Option<String>,
    pub ports: Vec<PortBinding>,
    pub restarts: u64,
    pub started_at: Option<i64>,
    pub finished_at: Option<i64>,
    pub exit_code: Option<i32>,
    pub error: Option<String>,
    pub placement: PlacementView,
    pub evidence: Evidence,
    pub resources: ResourceView,
    pub log_directory: Option<String>,
}

/// The current deployment of a project in an environment.
#[derive(Debug)]
pub struct DeploymentSummary {
    pub deployment_id: String,
    pub version: u64,
    pub status: DeploymentStatus,
    pub revision: String,
    pub created_at: i64,
    pub updated_at: i64,
    pub promoted_from: Option<String>,
}

/// A project as it is in one environment.
pub struct ProjectView {
    pub project_id: String,
    pub name: String,
    pub environment: String,
    pub environment_id: String,
    pub revision: String,
    pub revision_id: String,
    pub revision_digest: String,
    pub source: Option<String>,
    pub desired_state: DesiredState,
    pub actual_state: ActualState,
    pub health: Health,
    pub deployment: Option<DeploymentSummary>,
    pub deployed_at: i64,
    pub config: Config,
    pub workload_count: usize,
    pub service_count: usize,
    /// The provider pin of the environment, or `local`.
    pub provider: String,
    pub workloads: Vec<WorkloadView>,
    pub disk_bytes: u64,
}

/// An environment as it is now.
pub struct EnvironmentView {
    pub version: String,
    pub environment_id: String,
    pub name: String,
    pub desired_state: DesiredState,
    pub actual_state: ActualState,
    pub health: Health,
    pub created_at: i64,
    /// The environment's effective policy.
    pub policy_id: String,
    pub provider: Option<String>,
    pub config: Config,
    pub project_count: usize,
    pub workload_count: usize,
    pub service_count: usize,
    pub projects: Vec<ProjectView>,
    pub disk_bytes: u64,
}

/// Summary row of an environment.
#[derive(Debug)]
pub struct EnvironmentSummary {
    pub environment_id: String,
    pub name: String,
    pub desired_state: DesiredState,
    pub actual_state: ActualState,
    pub health: Health,
    pub project_count: usize,
    pub workload_count: usize,
    pub service_count: usize,
    pub provider: String,
}

/// A project in one environment, as listed from the project's side.
#[derive(Debug)]
pub struct ProjectPlacement {
    pub environment: String,
    pub revision: String,
    pub revision_id: String,
    pub desired_state: DesiredState,
    pub actual_state: ActualState,
    pub health: Health,
    pub deployment: Option<DeploymentSummary>,
}

/// A registered revision.
#[derive(Debug)]
pub struct RevisionView {
    pub revision_id: String,
    pub project: String,
    pub revision: String,
    pub revision_digest: String,
    pub source: Option<String>,
    pub workloads: Vec<RevisionWorkload>,
    pub created_at: i64,
}

/// A project across every environment it is in.
#[derive(Debug)]
pub struct ProjectSummary {
    pub project_id: String,
    pub name: String,
    pub source: Option<String>,
    pub created_at: i64,
    pub revision_count: usize,
    pub latest_revision: Option<String>,
    pub environments: Vec<ProjectPlacement>,
}

/// An instance of a release, and what runs for it.
#[derive(Debug)]
pub struct InstanceView {
    pub instance_id: String,
    pub record: WorkloadInstanceRecord,
    /// What runs on this node for it.
    pub actual_state: Option<ActualState>,
    /// Connections open to it through its endpoints.
    pub open_connections: usize,
}

/// A release and the instances it runs.
pub struct DeploymentView {
    pub deployment_id: String,
    pub record: DeploymentRecord,
    /// The release's instances while they exist.
    pub instances: Vec<InstanceView>,
}

/// A project, its revisions and its releases, each newest first.
pub struct ProjectDetail {
    pub summary: ProjectSummary,
    pub revisions: Vec<RevisionView>,
    pub deployments: Vec<DeploymentView>,
}

/// An execution, and what is kept of its output.
#[derive(Debug)]
pub struct ExecutionView {
    pub record: ExecutionRecord,
    pub stdout: String,
    pub stderr: String,
}

/// A certificate's public facts. Its key is never in a view.
#[derive(Debug)]
pub struct CertificateView {
    pub certificate_id: String,
    /// Whether this node holds the key.
    pub held_here: bool,
    pub record: CertificateRecord,
}

/// A DNS record.
#[derive(Debug)]
pub struct DnsRecordView {
    pub record_id: String,
    pub record: DnsRecordRecord,
}

/// A domain, what it routes to, and what serves it.
#[derive(Debug)]
pub struct DomainView {
    pub domain_id: String,
    pub record: DomainRecord,
    /// The endpoint it routes to (`environment/project/workload/port`).
    pub endpoint: String,
    pub host_port: Option<u16>,
    pub serving_revision: Option<String>,
    pub serving_deployment: Option<String>,
    pub dns_records: Vec<DnsRecordView>,
    pub certificate: Option<CertificateView>,
}

/// An endpoint, where it forwards, and how it does.
#[derive(Debug)]
pub struct EndpointView {
    pub endpoint: String,
    pub host_port: u16,
    pub instance_id: String,
    pub target_port: u16,
    pub revision: String,
    pub listening: bool,
    pub open_connections: usize,
    pub error: Option<String>,
}

/// A configured DNS provider.
#[derive(Debug)]
pub struct DnsProviderView {
    pub name: String,
    pub kind: String,
    pub zone: String,
    /// Why the provider cannot be used, such as a missing token variable.
    pub error: Option<String>,
}

/// The node's network.
#[derive(Debug)]
pub struct NetworkStatus {
    pub node_id: String,
    pub endpoint_address: String,
    pub ingress_http: Option<String>,
    pub ingress_https: Option<String>,
    pub public_ipv4: Option<String>,
    pub public_ipv6: Option<String>,
    pub dns_providers: Vec<DnsProviderView>,
    pub acme_directory: Option<String>,
    pub endpoints: Vec<EndpointView>,
}

} // verus!
