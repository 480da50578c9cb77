//! Control-state records: what is desired, what was released, and what
//! serves. Times are nanoseconds since the Unix epoch.

use vstd::prelude::*;

use crate::model::{Config, DesiredState, PortBinding, PortSpec, Readiness, RestartPolicy, WorkloadKind};
use crate::results::{NetworkResult, ReadinessResults, SwitchResult};
use crate::text::{copy_list, copy_option, opt_text};

verus! {

/// A stored document and its identifier.
#[derive(Debug)]
pub struct Stored<T> {
    pub id: String,
    pub value: T,
}

/// Where a release stands.
#[derive(Debug, Clone, Copy, PartialEq, Eq, Structural)]
pub enum DeploymentStatus {
    Pending,
    Starting,
    Ready,
    NetworkReady,
    Switching,
    Active,
    Draining,
    Complete,
    Failed,
    RolledBack,
}

impl DeploymentStatus {
    pub open spec fn name(self) -> Seq<char> {
        match self {
            DeploymentStatus::Pending => "pending"@,
            DeploymentStatus::Starting => "starting"@,
            DeploymentStatus::Ready => "ready"@,
            DeploymentStatus::NetworkReady => "network_ready"@,
            DeploymentStatus::Switching => "switching"@,
            DeploymentStatus::Active => "active"@,
            DeploymentStatus::Draining => "draining"@,
            DeploymentStatus::Complete => "complete"@,
            DeploymentStatus::Failed => "failed"@,
            DeploymentStatus::RolledBack => "rolled_back"@,
        }
    }

    pub fn as_str(self) -> (r: &'static str)
        ensures
            r@ == self.name(),
    {
        match self {
            DeploymentStatus::Pending => "pending",
            DeploymentStatus::Starting => "starting",
            DeploymentStatus::Ready => "ready",
            DeploymentStatus::NetworkReady => "network_ready",
            DeploymentStatus::Switching => "switching",
            DeploymentStatus::Active => "active",
            DeploymentStatus::Draining => "draining",
            DeploymentStatus::Complete => "complete",
            DeploymentStatus::Failed => "failed",
            DeploymentStatus::RolledBack => "rolled_back",
        }
    }

    /// Whether a release with this status has ended.
    pub open spec fn terminal(self) -> bool {
        self is Complete || self is Failed || self is RolledBack
    }

    pub fn is_terminal(self) -> (r: bool)
        ensures
            r == self.terminal(),
    {
        match self {
            DeploymentStatus::Complete => true,
            DeploymentStatus::Failed => true,
            DeploymentStatus::RolledBack => true,
            _ => false,
        }
    }

    /// Whether a release with this status serves, or served until another
    /// replaced it: its traffic moved, and the data plane follows. That
    /// control state means the same by it is assumed.
    pub open spec fn serving(self) -> bool {
        self is Active || self is Draining || self is Complete
    }

    pub fn serves(self) -> (r: bool)
        ensures
            r == self.serving(),
    {
        match self {
            DeploymentStatus::Active => true,
            DeploymentStatus::Draining => true,
            DeploymentStatus::Complete => true,
            _ => false,
        }
    }
}

/// Where an instance stands.
#[derive(Debug, Clone, Copy, PartialEq, Eq, Structural)]
pub enum InstanceState {
    Starting,
    Ready,
    Serving,
    Draining,
    Stopped,
    Failed,
}

impl InstanceState {
    /// Whether an instance in this state has ended.
    pub open spec fn ended(self) -> bool {
        self is Stopped || self is Failed
    }

    pub fn has_ended(self) -> (r: bool)
        ensures
            r == self.ended(),
    {
        match self {
            InstanceState::Stopped => true,
            InstanceState::Failed => true,
            _ => false,
        }
    }
}

/// A stored environment.
pub struct EnvironmentRecord {
    pub name: String,
    pub desired_state: DesiredState,
    pub config: Config,
    pub policy: Option<String>,
    pub provider: Option<String>,
    pub created_at: i64,
}

/// A stored project.
pub struct ProjectRecord {
    pub name: String,
    pub source: Option<String>,
    pub created_at: i64,
}

/// A project's membership of an environment.
pub struct EnvironmentProjectRecord {
    pub environment_id: String,
    pub environment: String,
    pub project_id: String,
    pub project: String,
    pub desired_state: DesiredState,
    pub config: Config,
    pub revision_id: Option<String>,
    pub deployment_id: Option<String>,
    pub created_at: i64,
    pub updated_at: i64,
}

/// A workload as it is currently deployed.
#[derive(Debug)]
pub struct WorkloadRecord {
    pub environment_id: String,
    pub environment: String,
    pub project_id: String,
    pub project: String,
    pub name: String,
    pub kind: WorkloadKind,
    pub desired_state: DesiredState,
    pub restart: RestartPolicy,
    pub bundle_id: String,
    pub workload_identity: String,
    pub runtime: String,
    /// Its stable endpoints.
    pub ports: Vec<PortBinding>,
    pub deployment_id: String,
}

/// One workload of an immutable revision.
#[derive(Debug, Clone)]
pub struct RevisionWorkload {
    pub name: String,
    pub kind: WorkloadKind,
    pub bundle_id: String,
    pub artifact: String,
    pub workload_identity: String,
    pub runtime: String,
    pub runtime_version: Option<String>,
    pub dependency: Option<String>,
    pub distribution: Option<String>,
    pub readiness: Option<Readiness>,
    /// The check a workload with its ports gets when it declares none.
    pub default_readiness: Readiness,
    pub ports: Vec<PortSpec>,
    pub restart: RestartPolicy,
    pub desired_state: DesiredState,
}

impl RevisionWorkload {
    /// The readiness check that applies.
    pub open spec fn effective_readiness(self) -> Readiness {
        match self.readiness {
            Some(readiness) => readiness,
            None => self.default_readiness,
        }
    }

    pub fn readiness_check(&self) -> (r: &Readiness)
        ensures
            *r == self.effective_readiness(),
    {
        match &self.readiness {
            Some(readiness) => readiness,
            None => &self.default_readiness,
        }
    }
}

/// An immutable revision of a project.
#[derive(Debug, Clone)]
pub struct ProjectRevisionRecord {
    pub project_id: String,
    pub project: String,
    pub revision: String,
    pub revision_digest: String,
    pub source: Option<String>,
    pub workloads: Vec<RevisionWorkload>,
    pub created_at: i64,
}

/// The artifact an application came from: where it was fetched, if it was,
/// and what it says of itself.
#[derive(Debug, PartialEq, Eq)]
pub struct ApplicationArtifactEvidence {
    pub artifact_id: String,
    pub url: Option<String>,
    pub version: Option<String>,
    pub capabilities: Vec<String>,
}

pub ghost struct ArtifactText {
    pub artifact_id: Seq<char>,
    pub url: Option<Seq<char>>,
    pub version: Option<Seq<char>>,
    pub capabilities: Seq<String>,
}

impl View for ApplicationArtifactEvidence {
    type V = ArtifactText;

    open spec fn view(&self) -> ArtifactText {
        ArtifactText {
            artifact_id: self.artifact_id@,
            url: opt_text(self.url),
            version: opt_text(self.version),
            capabilities: self.capabilities@,
        }
    }
}

pub open spec fn opt_artifact(evidence: Option<ApplicationArtifactEvidence>) -> Option<
    ArtifactText,
> {
    match evidence {
        Some(evidence) => Some(evidence@),
        None => None,
    }
}

pub fn copy_artifact(evidence: &Option<ApplicationArtifactEvidence>) -> (r: Option<
    ApplicationArtifactEvidence,
>)
    ensures
        opt_artifact(r) == opt_artifact(*evidence),
{
    match evidence {
        Some(evidence) => Some(
            ApplicationArtifactEvidence {
                artifact_id: evidence.artifact_id.clone(),
                url: copy_option(&evidence.url),
                version: copy_option(&evidence.version),
                capabilities: copy_list(&evidence.capabilities),
            },
        ),
        None => None,
    }
}

/// What a release knows of one of its workloads.
#[derive(Debug)]
pub struct DeploymentWorkload {
    pub name: String,
    pub kind: WorkloadKind,
    pub bundle_id: String,
    pub artifact: String,
    pub runtime: String,
    pub runtime_version: Option<String>,
    pub resolved_runtime_version: Option<String>,
    pub distribution: Option<String>,
    pub admitted: bool,
    pub policy_id: Option<String>,
    pub admission_id: Option<String>,
    pub placement_id: Option<String>,
    pub provider: Option<String>,
    pub reasons: Vec<String>,
    pub endpoints: Vec<PortBinding>,
    pub pool_placement: Option<String>,
    pub application_artifact: Option<ApplicationArtifactEvidence>,
}

/// A release of a revision to an environment.
pub struct DeploymentRecord {
    pub environment_id: String,
    pub environment: String,
    pub project_id: String,
    pub project: String,
    pub version: u64,
    pub revision_id: String,
    pub revision: String,
    pub revision_digest: String,
    pub status: DeploymentStatus,
    pub promoted_from: Option<String>,
    pub previous: Option<String>,
    pub workloads: Vec<DeploymentWorkload>,
    pub failure: Option<String>,
    pub receipt_ids: Vec<String>,
    pub old_revision: Option<String>,
    pub config_digest: Option<String>,
    pub config: Config,
    pub readiness_result: Option<ReadinessResults>,
    pub network_result: Option<NetworkResult>,
    pub traffic_switch_result: Option<SwitchResult>,
    pub rollback_reason: Option<String>,
    pub receipt: Option<String>,
    pub status_since: Option<i64>,
    pub completed_at: Option<i64>,
    pub created_at: i64,
    pub updated_at: i64,
}

/// A workload of one deployment, running or meant to run.
#[derive(Debug)]
pub struct WorkloadInstanceRecord {
    pub environment_id: String,
    pub environment: String,
    pub project_id: String,
    pub project: String,
    pub workload: String,
    pub workload_id: String,
    pub deployment_id: String,
    pub revision: String,
    pub state: InstanceState,
    /// Its own ports.
    pub ports: Vec<PortBinding>,
    pub readiness: Option<String>,
    pub started_at: Option<i64>,
    pub ready_at: Option<i64>,
    pub stopped_at: Option<i64>,
    pub error: Option<String>,
    pub updated_at: i64,
}

/// What an endpoint forwards to.
#[derive(Debug)]
pub struct TrafficAssignmentRecord {
    pub endpoint: String,
    pub environment: String,
    pub project: String,
    pub workload: String,
    pub port: String,
    pub host_port: u16,
    pub domains: Vec<String>,
    pub deployment_id: String,
    pub revision: String,
    pub instance_id: String,
    pub target_port: u16,
    pub status: String,
    pub previous_deployment_id: Option<String>,
    pub previous_instance_id: Option<String>,
    pub switched_at: i64,
}

/// What is wanted of a resource, what is, and how the last attempt went.
#[derive(Debug)]
pub struct Reconciliation {
    pub status: String,
    pub desired: Option<String>,
    pub actual: Option<String>,
    pub last_error: Option<String>,
    pub last_reconciled_at: Option<i64>,
}

/// A domain routed to one endpoint.
#[derive(Debug)]
pub struct DomainRecord {
    pub name: String,
    pub environment_id: String,
    pub environment: String,
    pub project_id: String,
    pub project: String,
    pub workload: String,
    pub port: String,
    pub dns_provider: String,
    pub certificate_id: Option<String>,
    pub status: String,
    pub dns: Reconciliation,
    pub tls: Reconciliation,
    pub routing: Reconciliation,
    pub created_at: i64,
}

/// A DNS record Compute manages.
#[derive(Debug)]
pub struct DnsRecordRecord {
    pub domain: String,
    pub provider: String,
    pub zone: String,
    pub name: String,
    pub record_type: String,
    pub value: String,
    pub ttl: u32,
    pub provider_record_id: Option<String>,
    pub state: Reconciliation,
}

/// A domain's certificate. Its key is in a node's secret store.
#[derive(Debug)]
pub struct CertificateRecord {
    pub domain: String,
    pub issuer: String,
    pub status: String,
    pub renewal_status: String,
    pub not_before: Option<i64>,
    pub expires_at: Option<i64>,
    pub fingerprint: Option<String>,
    pub secret_reference: Option<String>,
    pub held_by: Option<String>,
    pub last_error: Option<String>,
    pub last_reconciled_at: Option<i64>,
}

impl Clone for Reconciliation {
    fn clone(&self) -> (r: Self)
        ensures
            r == *self,
    {
        Reconciliation {
            status: self.status.clone(),
            desired: copy_option(&self.desired),
            actual: copy_option(&self.actual),
            last_error: copy_option(&self.last_error),
            last_reconciled_at: self.last_reconciled_at,
        }
    }
}

impl Clone for DomainRecord {
    fn clone(&self) -> (r: Self)
        ensures
            r == *self,
    {
        DomainRecord {
            name: self.name.clone(),
            environment_id: self.environment_id.clone(),
            environment: self.environment.clone(),
            project_id: self.project_id.clone(),
            project: self.project.clone(),
            workload: self.workload.clone(),
            port: self.port.clone(),
            dns_provider: self.dns_provider.clone(),
            certificate_id: copy_option(&self.certificate_id),
            status: self.status.clone(),
            dns: self.dns.clone(),
            tls: self.tls.clone(),
            routing: self.routing.clone(),
            created_at: self.created_at,
        }
    }
}

impl Clone for DnsRecordRecord {
    fn clone(&self) -> (r: Self)
        ensures
            r == *self,
    {
        DnsRecordRecord {
            domain: self.domain.clone(),
            provider: self.provider.clone(),
            zone: self.zone.clone(),
            name: self.name.clone(),
            record_type: self.record_type.clone(),
            value: self.value.clone(),
            ttl: self.ttl,
            provider_record_id: copy_option(&self.provider_record_id),
            state: self.state.clone(),
        }
    }
}

impl Clone for CertificateRecord {
    fn clone(&self) -> (r: Self)
        ensures
            r == *self,
    {
        CertificateRecord {
            domain: self.domain.clone(),
            issuer: self.issuer.clone(),
            status: self.status.clone(),
            renewal_status: self.renewal_status.clone(),
            not_before: self.not_before,
            expires_at: self.expires_at,
            fingerprint: copy_option(&self.fingerprint),
            secret_reference: copy_option(&self.secret_reference),
            held_by: copy_option(&self.held_by),
            last_error: copy_option(&self.last_error),
            last_reconciled_at: self.last_reconciled_at,
        }
    }
}

// ---- Time -------------------------------------------------------------------

/// How long ago `since` was, in nanoseconds; nothing when it lies ahead.
pub open spec fn elapsed(now: i64, since: i64) -> int {
    if now >= since {
        now - since
    } else {
        0
    }
}

/// Whether more than `limit_ms` milliseconds passed since `since`.
pub fn passed(now: i64, since: i64, limit_ms: u64) -> (r: bool)
    ensures
        r == (elapsed(now, since) > limit_ms * 1_000_000),
{
    let gone: i128 = if now >= since {
        now as i128 - since as i128
    } else {
        0
    };
    gone > (limit_ms as i128) * 1_000_000
}

/// Whether at least `limit_ms` milliseconds passed since `since`.
pub fn reached(now: i64, since: i64, limit_ms: u64) -> (r: bool)
    ensures
        r == (elapsed(now, since) >= limit_ms * 1_000_000),
{
    let gone: i128 = if now >= since {
        now as i128 - since as i128
    } else {
        0
    };
    gone >= (limit_ms as i128) * 1_000_000
}

/// When a release got its status.
pub open spec fn since(release: DeploymentRecord) -> i64 {
    match release.status_since {
        Some(at) => at,
        None => release.updated_at,
    }
}

pub fn status_since(release: &DeploymentRecord) -> (r: i64)
    ensures
        r == since(*release),
{
    match release.status_since {
        Some(at) => at,
        None => release.updated_at,
    }
}

// ---- Laws -------------------------------------------------------------------

/// A release has ended exactly when it is complete, failed, or was rolled
/// back; only one that is active, drains or is complete serves or served,
/// so that one that failed or was rolled back never counts as serving.
pub proof fn law_statuses_are_told_apart(status: DeploymentStatus)
    ensures
        status.terminal() <==> !(status == DeploymentStatus::Pending || status
            == DeploymentStatus::Starting || status == DeploymentStatus::Ready || status
            == DeploymentStatus::NetworkReady || status == DeploymentStatus::Switching || status
            == DeploymentStatus::Active || status == DeploymentStatus::Draining),
        status.serving() <==> !(status == DeploymentStatus::Pending || status
            == DeploymentStatus::Starting || status == DeploymentStatus::Ready || status
            == DeploymentStatus::NetworkReady || status == DeploymentStatus::Switching || status
            == DeploymentStatus::Failed || status == DeploymentStatus::RolledBack),
{
}

/// An instance has ended exactly when it stopped or failed.
pub proof fn law_live_instances_have_not_ended(state: InstanceState)
    ensures
        state.ended() <==> !(state == InstanceState::Starting || state == InstanceState::Ready
            || state == InstanceState::Serving || state == InstanceState::Draining),
{
}

/// Time never runs backwards: nothing passed when the clock went back, and
/// exactly the difference otherwise.
pub proof fn law_time_passes(now: i64, since: i64)
    ensures
        now < since ==> elapsed(now, since) == 0,
        now >= since ==> elapsed(now, since) == now - since,
{
}

/// A release's time in its status counts from when it reached it, or, where
/// that was not recorded, from its last change.
pub proof fn law_status_times_are_kept(release: DeploymentRecord)
    ensures
        release.status_since matches Some(at) ==> since(release) == at,
        release.status_since is None ==> since(release) == release.updated_at,
{
}

/// The readiness check a workload declares applies; the default only where
/// it declares none.
pub proof fn law_declared_readiness_applies(workload: RevisionWorkload)
    ensures
        workload.readiness matches Some(declared) ==> workload.effective_readiness() == declared,
        workload.readiness is None ==> workload.effective_readiness() == workload.default_readiness,
{
}

} // verus!
