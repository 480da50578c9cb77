//! Admitting a pending release: every workload is placed and admitted, its
//! ports are planned, and each service gets an instance to start. The first
//! workload that is not admitted ends it.

use vstd::prelude::*;

use crate::desired::Desired;
use crate::events::Key;
use crate::model::{copy_ports, PortBinding, WorkloadKind};
use crate::ports::{
    append_hosts, bound, hosts_of, no_port_text, plan_ports, planned, Planned, PortPool,
};
use crate::search::{found, lemma_first};
use crate::state::{
    copy_artifact, opt_artifact, DeploymentRecord, DeploymentStatus, DeploymentWorkload,
    InstanceState, ProjectRevisionRecord, RevisionWorkload, Stored, TrafficAssignmentRecord,
    WorkloadInstanceRecord, WorkloadRecord,
};
use crate::table::{find_item, key1, Test};
use crate::text::{copy_option, join, joined, opt_text, same, texts};

verus! {

// ---- Placement --------------------------------------------------------------

/// What admission decided, and why.
#[derive(Debug)]
pub struct AdmissionDecision {
    pub admitted: bool,
    pub policy_id: String,
    pub admission_id: String,
    pub reasons: Vec<String>,
}

/// The provider placement chose.
#[derive(Debug)]
pub struct Selected {
    pub provider_id: String,
    /// Whether it is the daemon's own node.
    pub local: bool,
    pub policy_id: String,
    pub admission_id: String,
}

/// Why placement chose nothing.
#[derive(Debug)]
pub struct PlacementFailure {
    pub code: String,
    pub message: String,
}

/// What placement found for one workload.
#[derive(Debug)]
pub struct PlacementReport {
    pub policy_id: String,
    pub placement_id: String,
    pub selected: Option<Selected>,
    pub failure: Option<PlacementFailure>,
    /// Each provider's admission decision, where one was made.
    pub providers: Vec<Option<AdmissionDecision>>,
}

pub open spec fn refusing() -> spec_fn(Option<AdmissionDecision>) -> bool {
    |admission: Option<AdmissionDecision>| admission is Some && !admission->0.admitted
}

struct Refusing {}

impl Test<Option<AdmissionDecision>> for Refusing {
    closed spec fn pred(&self) -> spec_fn(Option<AdmissionDecision>) -> bool {
        refusing()
    }

    fn test(&self, item: &Option<AdmissionDecision>) -> (r: bool) {
        match item {
            Some(decision) => !decision.admitted,
            None => false,
        }
    }
}

/// The first decision that refused the workload.
pub open spec fn refusal(report: PlacementReport) -> Option<AdmissionDecision> {
    match found(report.providers@, refusing()) {
        Some(decision) => decision,
        None => None,
    }
}

/// Why placement selected nothing: its failure, and the reasons of the first
/// refusal.
pub open spec fn failure_text(report: PlacementReport) -> Seq<char> {
    let failure = match report.failure {
        Some(failure) => failure.code@ + ": "@ + failure.message@,
        None => "placement_failed"@,
    };
    match refusal(report) {
        Some(decision) => if decision.reasons@.len() == 0 {
            failure
        } else {
            failure + ": "@ + joined(texts(decision.reasons@), "; "@)
        },
        None => failure,
    }
}

/// Why placement selected nothing, and the admission decision behind it.
pub fn placement_failure(report: &PlacementReport) -> (r: (String, Option<&AdmissionDecision>))
    ensures
        r.0@ == failure_text(*report),
        match r.1 {
            Some(decision) => refusal(*report) == Some(*decision),
            None => refusal(*report) is None,
        },
{
    let mut text = match &report.failure {
        Some(failure) => {
            let mut text = failure.code.clone();
            text.append(": ");
            text.append(&failure.message);
            text
        },
        None => "placement_failed".to_owned(),
    };
    let decision: Option<&AdmissionDecision> = match find_item(&report.providers, &Refusing {  }) {
        Some(admission) => match admission {
            Some(decision) => Some(decision),
            None => None,
        },
        None => None,
    };
    if let Some(decision) = decision {
        if decision.reasons.len() > 0 {
            text.append(": ");
            text.append(&join(&decision.reasons, "; "));
        }
    }
    (text, decision)
}

// ---- One workload -----------------------------------------------------------

pub open spec fn elsewhere_text(provider: Seq<char>) -> Seq<char> {
    "services run on the daemon's own node; placement selected "@ + provider
}

pub open spec fn evidence_named(name: Seq<char>) -> spec_fn(DeploymentWorkload) -> bool {
    |evidence: DeploymentWorkload| evidence.name@ == name
}

/// Selects a release's evidence of a workload.
pub struct EvidenceNamed<'a> {
    pub name: &'a str,
}

impl<'a> Test<DeploymentWorkload> for EvidenceNamed<'a> {
    open spec fn pred(&self) -> spec_fn(DeploymentWorkload) -> bool {
        evidence_named(self.name@)
    }

    fn test(&self, item: &DeploymentWorkload) -> (r: bool) {
        same(&item.name, self.name)
    }
}

/// Whether `evidence` is what admission and placement decided of a
/// workload. A service is admitted only on the daemon's own node. Evidence
/// the release was made with is kept.
pub open spec fn judged(
    evidence: DeploymentWorkload,
    workload: RevisionWorkload,
    report: PlacementReport,
    endpoints: Seq<PortBinding>,
    earlier: Option<DeploymentWorkload>,
) -> bool {
    &&& evidence.name@ == workload.name@
    &&& evidence.kind == workload.kind
    &&& evidence.bundle_id@ == workload.bundle_id@
    &&& evidence.artifact@ == workload.artifact@
    &&& evidence.runtime@ == workload.runtime@
    &&& evidence.runtime_version == workload.runtime_version
    &&& evidence.resolved_runtime_version is None
    &&& evidence.distribution == workload.distribution
    &&& evidence.endpoints@ == endpoints
    &&& opt_text(evidence.placement_id) == Some(report.placement_id@)
    &&& match earlier {
        Some(earlier) => evidence.pool_placement == earlier.pool_placement
            && opt_artifact(evidence.application_artifact) == opt_artifact(
            earlier.application_artifact,
        ),
        None => evidence.pool_placement is None && evidence.application_artifact is None,
    }
    &&& match report.selected {
        Some(selected) => {
            &&& opt_text(evidence.provider) == Some(selected.provider_id@)
            &&& evidence.admitted == (workload.kind == WorkloadKind::Task || selected.local)
            &&& if evidence.admitted {
                &&& opt_text(evidence.policy_id) == Some(selected.policy_id@)
                &&& opt_text(evidence.admission_id) == Some(selected.admission_id@)
                &&& evidence.reasons@.len() == 0
            } else {
                &&& opt_text(evidence.policy_id) == Some(report.policy_id@)
                &&& evidence.admission_id is None
                &&& texts(evidence.reasons@) == seq![elsewhere_text(selected.provider_id@)]
            }
        },
        None => {
            &&& !evidence.admitted
            &&& evidence.provider is None
            &&& texts(evidence.reasons@) == seq![failure_text(report)]
            &&& match refusal(report) {
                Some(decision) => opt_text(evidence.policy_id) == Some(decision.policy_id@)
                    && opt_text(evidence.admission_id) == Some(decision.admission_id@),
                None => opt_text(evidence.policy_id) == Some(report.policy_id@)
                    && evidence.admission_id is None,
            }
        },
    }
}

/// Decide whether one workload is admitted.
pub fn judge(
    workload: &RevisionWorkload,
    report: &PlacementReport,
    endpoints: Vec<PortBinding>,
    earlier: Option<&DeploymentWorkload>,
) -> (r: DeploymentWorkload)
    ensures
        judged(
            r,
            *workload,
            *report,
            endpoints@,
            match earlier {
                Some(earlier) => Some(*earlier),
                None => None,
            },
        ),
{
    let mut evidence = DeploymentWorkload {
        name: workload.name.clone(),
        kind: workload.kind,
        bundle_id: workload.bundle_id.clone(),
        artifact: workload.artifact.clone(),
        runtime: workload.runtime.clone(),
        runtime_version: copy_option(&workload.runtime_version),
        resolved_runtime_version: None,
        distribution: copy_option(&workload.distribution),
        admitted: false,
        policy_id: Some(report.policy_id.clone()),
        admission_id: None,
        placement_id: Some(report.placement_id.clone()),
        provider: None,
        reasons: Vec::new(),
        endpoints,
        pool_placement: match earlier {
            Some(earlier) => copy_option(&earlier.pool_placement),
            None => None,
        },
        application_artifact: match earlier {
            Some(earlier) => copy_artifact(&earlier.application_artifact),
            None => None,
        },
    };
    match &report.selected {
        Some(selected) => {
            evidence.provider = Some(selected.provider_id.clone());
            if workload.kind == WorkloadKind::Service && !selected.local {
                let mut text =
                    "services run on the daemon's own node; placement selected ".to_owned();
                text.append(&selected.provider_id);
                evidence.reasons.push(text);
                proof {
                    assert(texts(evidence.reasons@) =~= seq![
                        elsewhere_text(selected.provider_id@),
                    ]);
                }
            } else {
                evidence.admitted = true;
                evidence.policy_id = Some(selected.policy_id.clone());
                evidence.admission_id = Some(selected.admission_id.clone());
            }
        },
        None => {
            let (text, decision) = placement_failure(report);
            if let Some(decision) = decision {
                evidence.policy_id = Some(decision.policy_id.clone());
                evidence.admission_id = Some(decision.admission_id.clone());
            }
            evidence.reasons.push(text);
            proof {
                assert(texts(evidence.reasons@) =~= seq![failure_text(*report)]);
            }
        },
    }
    evidence
}

// ---- Ports in use -----------------------------------------------------------

/// The endpoint ports of the first `n` workloads.
pub open spec fn workload_hosts(workloads: Seq<Stored<WorkloadRecord>>, n: nat) -> Seq<u16>
    decreases n,
{
    if n == 0 {
        Seq::empty()
    } else {
        workload_hosts(workloads, (n - 1) as nat) + hosts_of(workloads[n - 1].value.ports@)
    }
}

/// The endpoint ports of the first `n` assignments.
pub open spec fn traffic_hosts(traffic: Seq<Stored<TrafficAssignmentRecord>>, n: nat) -> Seq<u16>
    decreases n,
{
    if n == 0 {
        Seq::empty()
    } else {
        traffic_hosts(traffic, (n - 1) as nat).push(traffic[n - 1].value.host_port)
    }
}

/// The endpoint ports of the first `n` workloads of a release.
pub open spec fn evidence_hosts(workloads: Seq<DeploymentWorkload>, n: nat) -> Seq<u16>
    decreases n,
{
    if n == 0 {
        Seq::empty()
    } else {
        evidence_hosts(workloads, (n - 1) as nat) + hosts_of(workloads[n - 1].endpoints@)
    }
}

/// The endpoint ports that releases in flight among the first `n`
/// deployments planned, but for one release.
pub open spec fn release_hosts(
    deployments: Seq<Stored<DeploymentRecord>>,
    n: nat,
    except: Seq<char>,
) -> Seq<u16>
    decreases n,
{
    if n == 0 {
        Seq::empty()
    } else {
        let before = release_hosts(deployments, (n - 1) as nat, except);
        let other = deployments[n - 1];
        if other.value.status.terminal() || other.id@ == except {
            before
        } else {
            before + evidence_hosts(other.value.workloads@, other.value.workloads@.len())
        }
    }
}

/// The ports of instances among the first `n` that have not ended.
pub open spec fn instance_hosts(instances: Seq<Stored<WorkloadInstanceRecord>>, n: nat) -> Seq<u16>
    decreases n,
{
    if n == 0 {
        Seq::empty()
    } else {
        let before = instance_hosts(instances, (n - 1) as nat);
        let instance = instances[n - 1];
        if instance.value.state.ended() {
            before
        } else {
            before + hosts_of(instance.value.ports@)
        }
    }
}

/// Every endpoint port in use: by a workload, by an assignment, or planned
/// by another release in flight.
pub open spec fn endpoint_ports(desired: Desired, release_id: Seq<char>) -> Seq<u16> {
    workload_hosts(desired.workloads.values(), desired.workloads.values().len()) + traffic_hosts(
        desired.traffic.values(),
        desired.traffic.values().len(),
    ) + release_hosts(desired.deployments.values(), desired.deployments.values().len(), release_id)
}

/// Every port of an instance that has not ended.
pub open spec fn instance_ports(desired: Desired) -> Seq<u16> {
    instance_hosts(desired.instances.values(), desired.instances.values().len())
}

/// The endpoint ports in use, but for a release's own.
pub fn used_endpoint_ports(desired: &Desired, release_id: &str) -> (r: Vec<u16>)
    ensures
        r@ == endpoint_ports(*desired, release_id@),
{
    let mut r: Vec<u16> = Vec::new();
    let ghost workloads = desired.workloads.values();
    let ghost traffic = desired.traffic.values();
    let ghost deployments = desired.deployments.values();
    let mut i: usize = 0;
    while i < desired.workloads.len()
        invariant
            i <= workloads.len(),
            r@ == workload_hosts(workloads, i as nat),
        decreases workloads.len() - i,
    {
        append_hosts(&mut r, &desired.workloads.value_at(i).value.ports);
        i += 1;
    }
    let ghost first = r@;
    let mut j: usize = 0;
    proof {
        assert(first + traffic_hosts(traffic, 0) =~= first);
    }
    while j < desired.traffic.len()
        invariant
            j <= traffic.len(),
            r@ == first + traffic_hosts(traffic, j as nat),
        decreases traffic.len() - j,
    {
        r.push(desired.traffic.value_at(j).value.host_port);
        proof {
            assert(r@ =~= first + traffic_hosts(traffic, (j + 1) as nat));
        }
        j += 1;
    }
    let ghost second = r@;
    let mut k: usize = 0;
    proof {
        assert(second + release_hosts(deployments, 0, release_id@) =~= second);
    }
    while k < desired.deployments.len()
        invariant
            k <= deployments.len(),
            r@ == second + release_hosts(deployments, k as nat, release_id@),
        decreases deployments.len() - k,
    {
        let other = desired.deployments.value_at(k);
        let ghost before = r@;
        if !other.value.status.is_terminal() && !same(&other.id, release_id) {
            let mut m: usize = 0;
            proof {
                assert(before + evidence_hosts(other.value.workloads@, 0) =~= before);
            }
            while m < other.value.workloads.len()
                invariant
                    m <= other.value.workloads@.len(),
                    r@ == before + evidence_hosts(other.value.workloads@, m as nat),
                decreases other.value.workloads@.len() - m,
            {
                append_hosts(&mut r, &other.value.workloads[m].endpoints);
                proof {
                    assert(r@ =~= before + evidence_hosts(other.value.workloads@, (m + 1) as nat));
                }
                m += 1;
            }
        }
        proof {
            assert(r@ =~= second + release_hosts(deployments, (k + 1) as nat, release_id@));
        }
        k += 1;
    }
    r
}

/// The ports instances use.
pub fn used_instance_ports(desired: &Desired) -> (r: Vec<u16>)
    ensures
        r@ == instance_ports(*desired),
{
    let mut r: Vec<u16> = Vec::new();
    let ghost instances = desired.instances.values();
    let mut i: usize = 0;
    while i < desired.instances.len()
        invariant
            i <= instances.len(),
            r@ == instance_hosts(instances, i as nat),
        decreases instances.len() - i,
    {
        let instance = desired.instances.value_at(i);
        if !instance.value.state.has_ended() {
            append_hosts(&mut r, &instance.value.ports);
        }
        i += 1;
    }
    r
}

// ---- The whole release ------------------------------------------------------

/// What preparing a workload came to: what placement found, or the report
/// of why it could not be prepared.
pub enum Prepared {
    Report(PlacementReport),
    Failed(String),
}

/// Find the revision a release is admitted at, or why it is not.
pub fn find_revision<'a>(desired: &'a Desired, release: &DeploymentRecord) -> (r: Result<
    &'a ProjectRevisionRecord,
    String,
>)
    ensures
        match r {
            Ok(revision) => desired.revisions@.contains_key(key1(release.revision_id@))
                && desired.revisions@[key1(release.revision_id@)] == *revision,
            Err(reason) => !desired.revisions@.contains_key(key1(release.revision_id@)) && reason@
                == "revision "@ + release.revision_id@ + " is missing"@,
        },
{
    match desired.revisions.at(&release.revision_id) {
        Some(revision) => Ok(revision),
        None => {
            let mut text = "revision ".to_owned();
            text.append(&release.revision_id);
            text.append(" is missing");
            Err(text)
        },
    }
}

/// An instance to create once the whole release is admitted.
#[derive(Debug, PartialEq, Eq)]
pub struct PlannedInstance {
    /// The identifier it gets.
    pub id: String,
    pub workload: String,
    pub workload_id: String,
    pub ports: Vec<PortBinding>,
}

/// What comes next for a release that is being admitted.
#[derive(Debug, Clone, Copy, PartialEq, Eq, Structural)]
pub enum AdmissionNext {
    /// Plan and prepare the workload at this place of the revision.
    Workload(usize),
    /// Start the release: every workload was admitted.
    Start,
    /// Fail the release.
    Fail,
}

/// The admission of a release, workload by workload.
pub struct Admission {
    pub used_endpoints: Vec<u16>,
    pub used_instances: Vec<u16>,
    /// What was decided of each workload so far.
    pub evidence: Vec<DeploymentWorkload>,
    /// An instance for each service admitted so far.
    pub instances: Vec<PlannedInstance>,
    /// Why the release is not admitted.
    pub failure: Option<String>,
}

/// The services among the first `n` workloads, by name.
pub open spec fn services(workloads: Seq<RevisionWorkload>, n: nat) -> Seq<Seq<char>>
    decreases n,
{
    if n == 0 {
        Seq::empty()
    } else {
        let before = services(workloads, (n - 1) as nat);
        if workloads[n - 1].kind == WorkloadKind::Service {
            before.push(workloads[n - 1].name@)
        } else {
            before
        }
    }
}

/// The workloads that instances are planned for, by name.
pub open spec fn planned_for(instances: Seq<PlannedInstance>) -> Seq<Seq<char>> {
    Seq::new(instances.len(), |i: int| instances[i].workload@)
}

/// Whether evidence says that a workload was placed and admitted.
pub open spec fn is_admitted(evidence: DeploymentWorkload) -> bool {
    &&& evidence.admitted
    &&& evidence.placement_id is Some
    &&& evidence.provider is Some
    &&& evidence.admission_id is Some
}

/// Whether an instance with the identifier is stored.
pub open spec fn is_stored(desired: Desired, id: Seq<char>) -> bool {
    desired.instances@.contains_key(key1(id))
}

/// The instances among the first `n` planned that are not stored yet.
pub open spec fn missing_instances(
    instances: Seq<PlannedInstance>,
    n: nat,
    desired: Desired,
) -> Seq<PlannedInstance>
    decreases n,
{
    if n == 0 {
        Seq::empty()
    } else {
        let before = missing_instances(instances, (n - 1) as nat, desired);
        if is_stored(desired, instances[n - 1].id@) {
            before
        } else {
            before.push(instances[n - 1])
        }
    }
}

pub open spec fn named_failure(name: Seq<char>, reason: Seq<char>) -> Seq<char> {
    name + ": "@ + reason
}

fn name_failure(name: &str, reason: &str) -> (r: String)
    ensures
        r@ == named_failure(name@, reason@),
{
    let mut text = name.to_owned();
    text.append(": ");
    text.append(reason);
    text
}

/// Whether `instance` is a new instance of a release's service.
pub open spec fn starting_instance(
    instance: WorkloadInstanceRecord,
    release: Stored<DeploymentRecord>,
    workload: Seq<char>,
    workload_id: Seq<char>,
    ports: Seq<PortBinding>,
    now: i64,
) -> bool {
    &&& instance.environment_id@ == release.value.environment_id@
    &&& instance.environment@ == release.value.environment@
    &&& instance.project_id@ == release.value.project_id@
    &&& instance.project@ == release.value.project@
    &&& instance.workload@ == workload
    &&& instance.workload_id@ == workload_id
    &&& instance.deployment_id@ == release.id@
    &&& instance.revision@ == release.value.revision@
    &&& instance.state == InstanceState::Starting
    &&& instance.ports@ == ports
    &&& instance.readiness is None
    &&& instance.started_at == Some(now)
    &&& instance.ready_at is None
    &&& instance.stopped_at is None
    &&& instance.error is None
    &&& instance.updated_at == now
}

impl Admission {
    /// The number of workloads that were admitted so far: all that were
    /// decided, but for one the admission failed on.
    pub open spec fn admitted_count(self) -> nat {
        if self.evidence@.len() > 0 && !self.evidence@.last().admitted {
            (self.evidence@.len() - 1) as nat
        } else {
            self.evidence@.len()
        }
    }

    /// The admission follows a revision: its workloads were decided in
    /// order, each was admitted unless the admission failed on it, and each
    /// service that was admitted has an instance planned, a task none.
    pub open spec fn wf_for(self, revision: ProjectRevisionRecord) -> bool {
        &&& self.evidence@.len() <= revision.workloads@.len()
        &&& forall|i: int|
            0 <= i < self.evidence@.len() ==> (#[trigger] self.evidence@[i]).name@
                == revision.workloads@[i].name@ && self.evidence@[i].kind
                == revision.workloads@[i].kind
        &&& forall|i: int|
            0 <= i < self.admitted_count() ==> is_admitted(#[trigger] self.evidence@[i])
        &&& self.failure is None ==> self.admitted_count() == self.evidence@.len()
        &&& planned_for(self.instances@) == services(revision.workloads@, self.admitted_count())
    }

    /// What comes next: a failure ends the admission, and the release starts
    /// only after its last workload.
    pub open spec fn next_of(self, revision: ProjectRevisionRecord) -> AdmissionNext {
        if self.failure is Some {
            AdmissionNext::Fail
        } else if self.evidence@.len() < revision.workloads@.len() {
            AdmissionNext::Workload(self.evidence@.len() as usize)
        } else {
            AdmissionNext::Start
        }
    }

    /// The instances that the release is given now: none before it starts,
    /// and none when it fails.
    pub open spec fn created(self, revision: ProjectRevisionRecord, desired: Desired) -> Seq<
        PlannedInstance,
    > {
        if self.next_of(revision) is Start {
            missing_instances(self.instances@, self.instances@.len(), desired)
        } else {
            Seq::empty()
        }
    }

    pub fn begin(desired: &Desired, release_id: &str) -> (r: Self)
        ensures
            forall|revision: ProjectRevisionRecord| #[trigger] r.wf_for(revision),
            r.used_endpoints@ == endpoint_ports(*desired, release_id@),
            r.used_instances@ == instance_ports(*desired),
            r.evidence@.len() == 0,
            r.instances@.len() == 0,
            r.failure is None,
    {
        let r = Admission {
            used_endpoints: used_endpoint_ports(desired, release_id),
            used_instances: used_instance_ports(desired),
            evidence: Vec::new(),
            instances: Vec::new(),
            failure: None,
        };
        proof {
            assert(planned_for(r.instances@) =~= Seq::<Seq<char>>::empty());
        }
        r
    }

    /// Decide what comes next.
    pub fn next(&self, revision: &ProjectRevisionRecord) -> (r: AdmissionNext)
        requires
            self.wf_for(*revision),
        ensures
            r == self.next_of(*revision),
            self.failure is Some ==> r is Fail,
            self.failure is None && self.evidence@.len() < revision.workloads@.len() ==> r
                == AdmissionNext::Workload(self.evidence@.len() as usize),
            self.failure is None && self.evidence@.len() == revision.workloads@.len() ==> r is Start,
    {
        if self.failure.is_some() {
            AdmissionNext::Fail
        } else if self.evidence.len() < revision.workloads.len() {
            AdmissionNext::Workload(self.evidence.len())
        } else {
            AdmissionNext::Start
        }
    }

    /// Plan the next workload's ports: a service's endpoints and its
    /// instance's own ports; a task has none. A service whose ports cannot be planned fails
    /// the admission.
    pub fn plan(
        &mut self,
        desired: &Desired,
        release: &Stored<DeploymentRecord>,
        revision: &ProjectRevisionRecord,
        pool: &PortPool,
    ) -> (r: Option<(Vec<PortBinding>, Vec<PortBinding>)>)
        requires
            old(self).wf_for(*revision),
            old(self).next_of(*revision) is Workload,
        ensures
            final(self).wf_for(*revision),
            final(self).evidence@ == old(self).evidence@,
            final(self).instances@ == old(self).instances@,
            ({
                let workload = revision.workloads@[old(self).evidence@.len() as int];
                if workload.kind == WorkloadKind::Task {
                    &&& r matches Some(ports)
                    &&& ports.0@.len() == 0 && ports.1@.len() == 0
                    &&& final(self).failure is None
                    &&& final(self).used_endpoints@ == old(self).used_endpoints@
                    &&& final(self).used_instances@ == old(self).used_instances@
                } else {
                    match planned(
                        *desired,
                        release.value.environment@,
                        release.value.project@,
                        workload.name@,
                        workload.ports@,
                        workload.ports@.len(),
                        old(self).used_endpoints@,
                        old(self).used_instances@,
                        *pool,
                    ) {
                        Planned::Ports(plan) => {
                            &&& r matches Some(ports)
                            &&& bound(ports.0@, workload.ports@, plan.endpoints)
                            &&& bound(ports.1@, workload.ports@, plan.instances)
                            &&& ports.0@.len() == workload.ports@.len()
                            &&& ports.1@.len() == workload.ports@.len()
                            &&& final(self).failure is None
                            &&& final(self).used_endpoints@ == plan.used_endpoints
                            &&& final(self).used_instances@ == plan.used_instances
                        },
                        Planned::NoEndpointPort(endpoints, instances) => {
                            &&& r is None
                            &&& final(self).used_endpoints@ == endpoints
                            &&& final(self).used_instances@ == instances
                            &&& opt_text(final(self).failure) == Some(
                                named_failure(
                                    workload.name@,
                                    "invalid: "@ + no_port_text(pool.endpoints, true),
                                ),
                            )
                        },
                        Planned::NoInstancePort(endpoints, instances) => {
                            &&& r is None
                            &&& final(self).used_endpoints@ == endpoints
                            &&& final(self).used_instances@ == instances
                            &&& opt_text(final(self).failure) == Some(
                                named_failure(
                                    workload.name@,
                                    "invalid: "@ + no_port_text(pool.instances, false),
                                ),
                            )
                        },
                    }
                }
            }),
    {
        let workload = &revision.workloads[self.evidence.len()];
        if workload.kind == WorkloadKind::Task {
            return Some((Vec::new(), Vec::new()));
        }
        let key: Key = (
            release.value.environment.clone(),
            release.value.project.clone(),
            workload.name.clone(),
        );
        match plan_ports(
            desired,
            &key,
            workload,
            &mut self.used_endpoints,
            &mut self.used_instances,
            pool,
        ) {
            Ok(ports) => Some(ports),
            Err(error) => {
                self.failure = Some(name_failure(&workload.name, &error.to_text()));
                None
            },
        }
    }

    /// Take in what preparing the next workload came to. A workload that is
    /// not admitted fails the admission; an admitted service gets an
    /// instance.
    pub fn settle(
        &mut self,
        release: &DeploymentRecord,
        revision: &ProjectRevisionRecord,
        workload_id: &str,
        instance_id: &str,
        ports: (Vec<PortBinding>, Vec<PortBinding>),
        prepared: &Prepared,
    )
        requires
            old(self).wf_for(*revision),
            old(self).next_of(*revision) is Workload,
        ensures
            final(self).wf_for(*revision),
            final(self).used_endpoints@ == old(self).used_endpoints@,
            final(self).used_instances@ == old(self).used_instances@,
            ({
                let workload = revision.workloads@[old(self).evidence@.len() as int];
                match *prepared {
                    Prepared::Failed(reason) => {
                        &&& opt_text(final(self).failure) == Some(
                            named_failure(workload.name@, reason@),
                        )
                        &&& final(self).evidence@ == old(self).evidence@
                        &&& final(self).instances@ == old(self).instances@
                    },
                    Prepared::Report(report) => {
                        let evidence = final(self).evidence@.last();
                        &&& final(self).evidence@.len() == old(self).evidence@.len() + 1
                        &&& final(self).evidence@.drop_last() == old(self).evidence@
                        &&& judged(
                            evidence,
                            workload,
                            report,
                            ports.0@,
                            found(release.workloads@, evidence_named(workload.name@)),
                        )
                        &&& if evidence.admitted {
                            final(self).failure is None
                        } else {
                            opt_text(final(self).failure) == Some(
                                named_failure(
                                    workload.name@,
                                    joined(texts(evidence.reasons@), "; "@),
                                ),
                            )
                        }
                        &&& if evidence.admitted && workload.kind == WorkloadKind::Service {
                            let instance = final(self).instances@.last();
                            &&& final(self).instances@.len() == old(self).instances@.len() + 1
                            &&& final(self).instances@.drop_last() == old(self).instances@
                            &&& instance.id@ == instance_id@
                            &&& instance.workload@ == workload.name@
                            &&& instance.workload_id@ == workload_id@
                            &&& instance.ports@ == ports.1@
                        } else {
                            final(self).instances@ == old(self).instances@
                        }
                    },
                }
            }),
    {
        let workload = &revision.workloads[self.evidence.len()];
        let ghost count = self.evidence@.len();
        match prepared {
            Prepared::Failed(reason) => {
                self.failure = Some(name_failure(&workload.name, reason));
            },
            Prepared::Report(report) => {
                let earlier = find_item(
                    &release.workloads,
                    &EvidenceNamed { name: &workload.name },
                );
                let (endpoints, own) = ports;
                let evidence = judge(workload, report, endpoints, earlier);
                let admitted = evidence.admitted;
                if !admitted {
                    let reasons = join(&evidence.reasons, "; ");
                    self.failure = Some(name_failure(&workload.name, &reasons));
                }
                let ghost before = self.evidence@;
                self.evidence.push(evidence);
                proof {
                    assert(self.evidence@.drop_last() =~= before);
                }
                if admitted && workload.kind == WorkloadKind::Service {
                    let ghost before = self.instances@;
                    self.instances.push(
                        PlannedInstance {
                            id: instance_id.to_owned(),
                            workload: workload.name.clone(),
                            workload_id: workload_id.to_owned(),
                            ports: own,
                        },
                    );
                    proof {
                        assert(self.instances@.drop_last() =~= before);
                        assert(planned_for(self.instances@) =~= planned_for(before).push(
                            workload.name@,
                        ));
                    }
                }
                proof {
                    assert(self.admitted_count() == (if admitted {
                        count + 1
                    } else {
                        count
                    }));
                }
            },
        }
    }

    /// End the admission. An admitted release is starting, with what was
    /// decided of each of its workloads, and is given each planned instance
    /// that is not stored yet; one that is not admitted stays as it is,
    /// and comes with why and with what was decided.
    pub fn conclude(
        self,
        desired: &Desired,
        release: &mut Stored<DeploymentRecord>,
        revision: &ProjectRevisionRecord,
        now: i64,
    ) -> (r: Result<Vec<Stored<WorkloadInstanceRecord>>, (String, Vec<DeploymentWorkload>)>)
        requires
            self.wf_for(*revision),
            !(self.next_of(*revision) is Workload),
        ensures
            match r {
                Ok(instances) => {
                    let created = self.created(*revision, *desired);
                    &&& self.next_of(*revision) is Start
                    &&& *final(release) == (Stored {
                        value: DeploymentRecord {
                            status: DeploymentStatus::Starting,
                            workloads: self.evidence,
                            status_since: Some(now),
                            updated_at: now,
                            ..old(release).value
                        },
                        ..*old(release)
                    })
                    &&& instances@.len() == created.len()
                    &&& forall|i: int|
                        0 <= i < instances@.len() ==> (#[trigger] instances@[i]).id@
                            == created[i].id@ && starting_instance(
                            instances@[i].value,
                            *old(release),
                            created[i].workload@,
                            created[i].workload_id@,
                            created[i].ports@,
                            now,
                        )
                },
                Err((reason, evidence)) => {
                    &&& self.next_of(*revision) is Fail
                    &&& *final(release) == *old(release)
                    &&& self.failure == Some(reason)
                    &&& evidence == self.evidence
                },
            },
    {
        if let Some(reason) = self.failure {
            return Err((reason, self.evidence));
        }
        let planned = self.instances;
        let mut instances: Vec<Stored<WorkloadInstanceRecord>> = Vec::new();
        let mut i: usize = 0;
        while i < planned.len()
            invariant
                i <= planned@.len(),
                *release == *old(release),
                instances@.len() == missing_instances(planned@, i as nat, *desired).len(),
                forall|k: int|
                    0 <= k < instances@.len() ==> {
                        let created = missing_instances(planned@, i as nat, *desired);
                        (#[trigger] instances@[k]).id@ == created[k].id@ && starting_instance(
                            instances@[k].value,
                            *release,
                            created[k].workload@,
                            created[k].workload_id@,
                            created[k].ports@,
                            now,
                        )
                    },
            decreases planned@.len() - i,
        {
            let instance = &planned[i];
            if desired.instances.at(&instance.id).is_none() {
                let value = WorkloadInstanceRecord {
                    environment_id: release.value.environment_id.clone(),
                    environment: release.value.environment.clone(),
                    project_id: release.value.project_id.clone(),
                    project: release.value.project.clone(),
                    workload: instance.workload.clone(),
                    workload_id: instance.workload_id.clone(),
                    deployment_id: release.id.clone(),
                    revision: release.value.revision.clone(),
                    state: InstanceState::Starting,
                    ports: copy_ports(&instance.ports),
                    readiness: None,
                    started_at: Some(now),
                    ready_at: None,
                    stopped_at: None,
                    error: None,
                    updated_at: now,
                };
                instances.push(Stored { id: instance.id.clone(), value });
            }
            i += 1;
        }
        release.value.workloads = self.evidence;
        release.value.advance(DeploymentStatus::Starting, now);
        Ok(instances)
    }
}

// ---- Laws -------------------------------------------------------------------

/// Every service of a revision, and nothing else, is among its services.
proof fn lemma_services(workloads: Seq<RevisionWorkload>, n: nat)
    requires
        n <= workloads.len(),
    ensures
        forall|i: int|
            0 <= i < n && (#[trigger] workloads[i]).kind == WorkloadKind::Service ==> services(
                workloads,
                n,
            ).contains(workloads[i].name@),
        forall|k: int|
            0 <= k < services(workloads, n).len() ==> exists|i: int|
                0 <= i < n && (#[trigger] workloads[i]).kind == WorkloadKind::Service
                    && workloads[i].name@ == (#[trigger] services(workloads, n)[k]),
    decreases n,
{
    if n > 0 {
        let before = services(workloads, (n - 1) as nat);
        let now = services(workloads, n);
        lemma_services(workloads, (n - 1) as nat);
        assert forall|i: int|
            0 <= i < n && (#[trigger] workloads[i]).kind == WorkloadKind::Service implies now.contains(
            workloads[i].name@,
        ) by {
            if i == n - 1 {
                assert(now.last() == workloads[i].name@);
            } else {
                let k = choose|k: int| 0 <= k < before.len() && before[k] == workloads[i].name@;
                assert(now[k] == workloads[i].name@);
            }
        }
        assert forall|k: int| 0 <= k < now.len() implies exists|i: int|
            0 <= i < n && (#[trigger] workloads[i]).kind == WorkloadKind::Service
                && workloads[i].name@ == (#[trigger] now[k]) by {
            if k < before.len() {
                assert(now[k] == before[k]);
                let i = choose|i: int|
                    0 <= i < n - 1 && (#[trigger] workloads[i]).kind == WorkloadKind::Service
                        && workloads[i].name@ == before[k];
                assert(workloads[i].name@ == now[k]);
            } else {
                assert(workloads[n - 1].name@ == now[k]);
            }
        }
    }
}

/// A planned instance that is not stored is among those a release is given.
proof fn lemma_missing(instances: Seq<PlannedInstance>, n: nat, desired: Desired, k: int)
    requires
        0 <= k < n <= instances.len(),
        !is_stored(desired, instances[k].id@),
    ensures
        missing_instances(instances, n, desired).contains(instances[k]),
    decreases n,
{
    let before = missing_instances(instances, (n - 1) as nat, desired);
    let now = missing_instances(instances, n, desired);
    if k == n - 1 {
        assert(now.last() == instances[k]);
    } else {
        lemma_missing(instances, (n - 1) as nat, desired, k);
        let j = choose|j: int| 0 <= j < before.len() && before[j] == instances[k];
        assert(now[j] == instances[k]);
    }
}

/// What a release is given stands among what was planned for it.
proof fn lemma_created(instances: Seq<PlannedInstance>, n: nat, desired: Desired)
    requires
        n <= instances.len(),
    ensures
        forall|j: int|
            0 <= j < missing_instances(instances, n, desired).len() ==> instances.contains(
                #[trigger] missing_instances(instances, n, desired)[j],
            ),
    decreases n,
{
    if n > 0 {
        let before = missing_instances(instances, (n - 1) as nat, desired);
        let now = missing_instances(instances, n, desired);
        lemma_created(instances, (n - 1) as nat, desired);
        assert forall|j: int| 0 <= j < now.len() implies instances.contains(#[trigger] now[j]) by {
            if j < before.len() {
                assert(now[j] == before[j]);
            } else {
                assert(now[j] == instances[n - 1]);
            }
        }
    }
}

/// A release starts whole or not at all. When it starts, every workload of
/// its revision was placed and admitted, an instance was planned for each
/// service in order and none for a task, and each of these is stored or is
/// created now, and nothing else is. When the release fails, or is not
/// through yet, nothing is created.
pub proof fn law_releases_start_whole(
    admission: Admission,
    revision: ProjectRevisionRecord,
    desired: Desired,
)
    requires
        admission.wf_for(revision),
    ensures
        admission.next_of(revision) is Start ==> {
            let created = admission.created(revision, desired);
            &&& admission.failure is None
            &&& admission.evidence@.len() == revision.workloads@.len()
            &&& forall|i: int|
                0 <= i < revision.workloads@.len() ==> is_admitted(
                    #[trigger] admission.evidence@[i],
                ) && admission.evidence@[i].name@ == revision.workloads@[i].name@
            &&& planned_for(admission.instances@) == services(
                revision.workloads@,
                revision.workloads@.len(),
            )
            &&& forall|i: int|
                0 <= i < revision.workloads@.len() && (#[trigger] revision.workloads@[i]).kind
                    == WorkloadKind::Service ==> exists|k: int|
                    {
                        &&& 0 <= k < admission.instances@.len()
                        &&& (#[trigger] admission.instances@[k]).workload@
                            == revision.workloads@[i].name@
                        &&& is_stored(desired, admission.instances@[k].id@) || created.contains(
                            admission.instances@[k],
                        )
                    }
            &&& forall|j: int|
                0 <= j < created.len() ==> exists|i: int|
                    0 <= i < revision.workloads@.len() && (#[trigger] revision.workloads@[i]).kind
                        == WorkloadKind::Service && revision.workloads@[i].name@ == (
                    #[trigger] created[j]).workload@
        },
        !(admission.next_of(revision) is Start) ==> admission.created(revision, desired)
            == Seq::<PlannedInstance>::empty(),
        admission.next_of(revision) is Fail <==> admission.failure is Some,
{
    if admission.next_of(revision) is Start {
        let workloads = revision.workloads@;
        let instances = admission.instances@;
        let names = services(workloads, workloads.len());
        let created = admission.created(revision, desired);
        lemma_services(workloads, workloads.len());
        lemma_created(instances, instances.len(), desired);
        assert(planned_for(instances) == names);
        assert forall|i: int|
            0 <= i < workloads.len() && (#[trigger] workloads[i]).kind
                == WorkloadKind::Service implies exists|k: int|
            {
                &&& 0 <= k < instances.len()
                &&& (#[trigger] instances[k]).workload@ == workloads[i].name@
                &&& is_stored(desired, instances[k].id@) || created.contains(instances[k])
            } by {
            let k = choose|k: int| 0 <= k < names.len() && names[k] == workloads[i].name@;
            assert(planned_for(instances)[k] == instances[k].workload@);
            if !is_stored(desired, instances[k].id@) {
                lemma_missing(instances, instances.len(), desired, k);
            }
            assert(instances[k].workload@ == workloads[i].name@);
        }
        assert forall|j: int| 0 <= j < created.len() implies exists|i: int|
            0 <= i < workloads.len() && (#[trigger] workloads[i]).kind == WorkloadKind::Service
                && workloads[i].name@ == (#[trigger] created[j]).workload@ by {
            let k = choose|k: int| 0 <= k < instances.len() && instances[k] == created[j];
            assert(planned_for(instances)[k] == instances[k].workload@);
            let i = choose|i: int|
                0 <= i < workloads.len() && (#[trigger] workloads[i]).kind
                    == WorkloadKind::Service && workloads[i].name@ == names[k];
            assert(workloads[i].name@ == created[j].workload@);
        }
    }
}

/// A workload is admitted exactly when placement selected a provider for it
/// and, if it is a service, that is the daemon's own node. An admitted
/// workload says under which decision and where; one that is not says why.
pub proof fn law_services_are_admitted_only_here(
    evidence: DeploymentWorkload,
    workload: RevisionWorkload,
    report: PlacementReport,
    endpoints: Seq<PortBinding>,
    earlier: Option<DeploymentWorkload>,
)
    requires
        judged(evidence, workload, report, endpoints, earlier),
    ensures
        evidence.name@ == workload.name@,
        evidence.kind == workload.kind,
        evidence.bundle_id@ == workload.bundle_id@,
        evidence.artifact@ == workload.artifact@,
        evidence.endpoints@ == endpoints,
        opt_text(evidence.placement_id) == Some(report.placement_id@),
        evidence.admitted <==> (report.selected matches Some(selected) && (workload.kind
            != WorkloadKind::Service || selected.local)),
        evidence.admitted ==> {
            &&& report.selected matches Some(selected)
            &&& opt_text(evidence.provider) == Some(selected.provider_id@)
            &&& opt_text(evidence.policy_id) == Some(selected.policy_id@)
            &&& opt_text(evidence.admission_id) == Some(selected.admission_id@)
            &&& evidence.reasons@.len() == 0
        },
        !evidence.admitted ==> evidence.reasons@.len() == 1,
        earlier matches Some(earlier) ==> evidence.pool_placement == earlier.pool_placement,
{
    if !evidence.admitted {
        assert(texts(evidence.reasons@).len() == evidence.reasons@.len());
    }
}

/// What refuses a workload is the first decision that did not admit it; a
/// decision that admitted it never does.
pub proof fn law_refusals_are_refusals(report: PlacementReport)
    ensures
        match refusal(report) {
            Some(decision) => {
                &&& !decision.admitted
                &&& report.providers@.contains(Some(decision))
            },
            None => forall|i: int|
                0 <= i < report.providers@.len() ==> ((#[trigger] report.providers@[i]) matches Some(
                    decision,
                ) ==> decision.admitted),
        },
{
    lemma_first(report.providers@, refusing());
}

/// A release starts only when each of its workloads was admitted, with a
/// placement, a provider and an admission on record.
pub proof fn law_started_releases_are_admitted(
    admission: Admission,
    revision: ProjectRevisionRecord,
    i: int,
)
    requires
        admission.wf_for(revision),
        admission.next_of(revision) is Start,
        0 <= i < revision.workloads@.len(),
    ensures
        admission.failure is None,
        i < admission.evidence@.len(),
        admission.evidence@[i].name@ == revision.workloads@[i].name@,
        admission.evidence@[i].kind == revision.workloads@[i].kind,
        admission.evidence@[i].admitted,
        admission.evidence@[i].placement_id is Some,
        admission.evidence@[i].provider is Some,
        admission.evidence@[i].admission_id is Some,
{
    assert(is_admitted(admission.evidence@[i]));
}

/// A new instance belongs to its release: to its environment, project,
/// deployment and revision; it is starting, and nothing is known of it yet.
pub proof fn law_new_instances_belong_to_their_release(
    instance: WorkloadInstanceRecord,
    release: Stored<DeploymentRecord>,
    workload: Seq<char>,
    workload_id: Seq<char>,
    ports: Seq<PortBinding>,
    now: i64,
)
    requires
        starting_instance(instance, release, workload, workload_id, ports, now),
    ensures
        instance.environment@ == release.value.environment@,
        instance.project@ == release.value.project@,
        instance.workload@ == workload,
        instance.workload_id@ == workload_id,
        instance.deployment_id@ == release.id@,
        instance.revision@ == release.value.revision@,
        instance.ports@ == ports,
        instance.state == InstanceState::Starting,
        instance.ready_at is None,
        instance.started_at == Some(now),
        instance.environment_id@ == release.value.environment_id@,
        instance.project_id@ == release.value.project_id@,
        instance.readiness is None,
        instance.stopped_at is None,
        instance.error is None,
        instance.updated_at == now,
{
}

/// The host port of a binding is among those of all bindings.
proof fn lemma_hosts(ports: Seq<PortBinding>, p: int)
    requires
        0 <= p < ports.len(),
    ensures
        hosts_of(ports).contains(ports[p].host),
{
    assert(hosts_of(ports)[p] == ports[p].host);
}

/// What a part of a list holds, the list holds.
proof fn lemma_part(a: Seq<u16>, b: Seq<u16>, port: u16)
    ensures
        a.contains(port) ==> (a + b).contains(port),
        b.contains(port) ==> (a + b).contains(port),
{
    if a.contains(port) {
        let k = choose|k: int| 0 <= k < a.len() && a[k] == port;
        assert((a + b)[k] == port);
    }
    if b.contains(port) {
        let k = choose|k: int| 0 <= k < b.len() && b[k] == port;
        assert((a + b)[a.len() + k] == port);
    }
}

proof fn lemma_workload_hosts(workloads: Seq<Stored<WorkloadRecord>>, n: nat, i: int, p: int)
    requires
        0 <= i < n <= workloads.len(),
        0 <= p < workloads[i].value.ports@.len(),
    ensures
        workload_hosts(workloads, n).contains(workloads[i].value.ports@[p].host),
    decreases n,
{
    let host = workloads[i].value.ports@[p].host;
    lemma_part(
        workload_hosts(workloads, (n - 1) as nat),
        hosts_of(workloads[n - 1].value.ports@),
        host,
    );
    if i == n - 1 {
        lemma_hosts(workloads[i].value.ports@, p);
    } else {
        lemma_workload_hosts(workloads, (n - 1) as nat, i, p);
    }
}

proof fn lemma_traffic_hosts(traffic: Seq<Stored<TrafficAssignmentRecord>>, n: nat, i: int)
    requires
        0 <= i < n <= traffic.len(),
    ensures
        traffic_hosts(traffic, n).contains(traffic[i].value.host_port),
    decreases n,
{
    let after = traffic_hosts(traffic, n);
    if i == n - 1 {
        assert(after[after.len() - 1] == traffic[i].value.host_port);
    } else {
        let before = traffic_hosts(traffic, (n - 1) as nat);
        lemma_traffic_hosts(traffic, (n - 1) as nat, i);
        let k = choose|k: int| 0 <= k < before.len() && before[k] == traffic[i].value.host_port;
        assert(after[k] == before[k]);
    }
}

proof fn lemma_evidence_hosts(workloads: Seq<DeploymentWorkload>, n: nat, i: int, p: int)
    requires
        0 <= i < n <= workloads.len(),
        0 <= p < workloads[i].endpoints@.len(),
    ensures
        evidence_hosts(workloads, n).contains(workloads[i].endpoints@[p].host),
    decreases n,
{
    let host = workloads[i].endpoints@[p].host;
    lemma_part(
        evidence_hosts(workloads, (n - 1) as nat),
        hosts_of(workloads[n - 1].endpoints@),
        host,
    );
    if i == n - 1 {
        lemma_hosts(workloads[i].endpoints@, p);
    } else {
        lemma_evidence_hosts(workloads, (n - 1) as nat, i, p);
    }
}

proof fn lemma_release_hosts(
    deployments: Seq<Stored<DeploymentRecord>>,
    n: nat,
    except: Seq<char>,
    d: int,
    i: int,
    p: int,
)
    requires
        0 <= d < n <= deployments.len(),
        !(deployments[d].value.status is Complete || deployments[d].value.status is Failed
            || deployments[d].value.status is RolledBack),
        deployments[d].id@ != except,
        0 <= i < deployments[d].value.workloads@.len(),
        0 <= p < deployments[d].value.workloads@[i].endpoints@.len(),
    ensures
        release_hosts(deployments, n, except).contains(
            deployments[d].value.workloads@[i].endpoints@[p].host,
        ),
    decreases n,
{
    let host = deployments[d].value.workloads@[i].endpoints@[p].host;
    let last = deployments[n - 1].value.workloads@;
    lemma_part(
        release_hosts(deployments, (n - 1) as nat, except),
        evidence_hosts(last, last.len()),
        host,
    );
    if d == n - 1 {
        lemma_evidence_hosts(last, last.len(), i, p);
    } else {
        lemma_release_hosts(deployments, (n - 1) as nat, except, d, i, p);
    }
}

/// Every endpoint port that a workload is bound to, that traffic listens on,
/// or that another release in flight planned counts as used, so that no new
/// endpoint takes it.
pub proof fn law_used_endpoint_ports_count(desired: Desired, release_id: Seq<char>)
    ensures
        forall|i: int, p: int|
            0 <= i < desired.workloads.values().len() && 0 <= p
                < desired.workloads.values()[i].value.ports@.len() ==> endpoint_ports(
                desired,
                release_id,
            ).contains((#[trigger] desired.workloads.values()[i].value.ports@[p]).host),
        forall|i: int|
            0 <= i < desired.traffic.values().len() ==> endpoint_ports(
                desired,
                release_id,
            ).contains((#[trigger] desired.traffic.values()[i]).value.host_port),
        forall|d: int, i: int, p: int|
            0 <= d < desired.deployments.values().len() && !(
            desired.deployments.values()[d].value.status is Complete
                || desired.deployments.values()[d].value.status is Failed
                || desired.deployments.values()[d].value.status is RolledBack)
                && desired.deployments.values()[d].id@ != release_id && 0 <= i
                < desired.deployments.values()[d].value.workloads@.len() && 0 <= p
                < desired.deployments.values()[d].value.workloads@[i].endpoints@.len()
                ==> endpoint_ports(desired, release_id).contains(
                (#[trigger] desired.deployments.values()[d].value.workloads@[i].endpoints@[p]).host,
            ),
{
    let workloads = desired.workloads.values();
    let traffic = desired.traffic.values();
    let deployments = desired.deployments.values();
    let a = workload_hosts(workloads, workloads.len());
    let b = traffic_hosts(traffic, traffic.len());
    let c = release_hosts(deployments, deployments.len(), release_id);
    assert forall|i: int, p: int|
        0 <= i < workloads.len() && 0 <= p
            < workloads[i].value.ports@.len() implies endpoint_ports(desired, release_id).contains(
        (#[trigger] workloads[i].value.ports@[p]).host,
    ) by {
        let host = workloads[i].value.ports@[p].host;
        lemma_workload_hosts(workloads, workloads.len(), i, p);
        lemma_part(a, b, host);
        lemma_part(a + b, c, host);
    }
    assert forall|i: int| 0 <= i < traffic.len() implies endpoint_ports(
        desired,
        release_id,
    ).contains((#[trigger] traffic[i]).value.host_port) by {
        let host = traffic[i].value.host_port;
        lemma_traffic_hosts(traffic, traffic.len(), i);
        lemma_part(a, b, host);
        lemma_part(a + b, c, host);
    }
    assert forall|d: int, i: int, p: int|
        0 <= d < deployments.len() && !(deployments[d].value.status is Complete
            || deployments[d].value.status is Failed || deployments[d].value.status is RolledBack)
            && deployments[d].id@ != release_id && 0 <= i < deployments[d].value.workloads@.len()
            && 0 <= p < deployments[d].value.workloads@[i].endpoints@.len() implies endpoint_ports(
        desired,
        release_id,
    ).contains((#[trigger] deployments[d].value.workloads@[i].endpoints@[p]).host) by {
        lemma_release_hosts(deployments, deployments.len(), release_id, d, i, p);
        lemma_part(a + b, c, deployments[d].value.workloads@[i].endpoints@[p].host);
    }
}

/// Every port of an instance that has not ended counts as used.
pub proof fn law_used_instance_ports_count(
    instances: Seq<Stored<WorkloadInstanceRecord>>,
    n: nat,
    i: int,
    p: int,
)
    requires
        0 <= i < n <= instances.len(),
        instances[i].value.state != InstanceState::Stopped,
        instances[i].value.state != InstanceState::Failed,
        0 <= p < instances[i].value.ports@.len(),
    ensures
        instance_hosts(instances, n).contains(instances[i].value.ports@[p].host),
    decreases n,
{
    let host = instances[i].value.ports@[p].host;
    lemma_part(
        instance_hosts(instances, (n - 1) as nat),
        hosts_of(instances[n - 1].value.ports@),
        host,
    );
    if i == n - 1 {
        lemma_hosts(instances[i].value.ports@, p);
    } else {
        law_used_instance_ports_count(instances, (n - 1) as nat, i, p);
    }
}

/// Every planned instance that is not stored yet is missing, and no other.
pub proof fn law_missing_instances_are_not_stored(
    instances: Seq<PlannedInstance>,
    n: nat,
    desired: Desired,
    i: int,
)
    requires
        n <= instances.len(),
    ensures
        0 <= i < n && !is_stored(desired, instances[i].id@) ==> missing_instances(
            instances,
            n,
            desired,
        ).contains(instances[i]),
        0 <= i < missing_instances(instances, n, desired).len() ==> !is_stored(
            desired,
            missing_instances(instances, n, desired)[i].id@,
        ) && instances.contains(missing_instances(instances, n, desired)[i]),
    decreases n,
{
    if n > 0 {
        law_missing_instances_are_not_stored(instances, (n - 1) as nat, desired, i);
        let before = missing_instances(instances, (n - 1) as nat, desired);
        let after = missing_instances(instances, n, desired);
        if 0 <= i < n && !is_stored(desired, instances[i].id@) {
            if i < n - 1 {
                let k = choose|k: int| 0 <= k < before.len() && before[k] == instances[i];
                assert(after[k] == instances[i]);
            } else {
                assert(after[after.len() - 1] == instances[i]);
            }
        }
        if 0 <= i < after.len() {
            if i < before.len() {
                assert(after[i] == before[i]);
            } else {
                assert(after[i] == instances[n - 1]);
            }
        }
    }
}

/// Evidence of a workload says what its revision holds, and the decision
/// that was made of it.
pub proof fn law_evidence_says_what_was_judged(
    evidence: DeploymentWorkload,
    workload: RevisionWorkload,
    report: PlacementReport,
    endpoints: Seq<PortBinding>,
    earlier: Option<DeploymentWorkload>,
)
    requires
        judged(evidence, workload, report, endpoints, earlier),
    ensures
        evidence.name@ == workload.name@,
        evidence.kind == workload.kind,
        evidence.bundle_id@ == workload.bundle_id@,
        evidence.artifact@ == workload.artifact@,
        evidence.runtime@ == workload.runtime@,
        evidence.runtime_version == workload.runtime_version,
        evidence.resolved_runtime_version is None,
        evidence.distribution == workload.distribution,
        evidence.endpoints@ == endpoints,
        opt_text(evidence.placement_id) == Some(report.placement_id@),
        earlier is None ==> evidence.pool_placement is None
            && evidence.application_artifact is None,
        earlier matches Some(held) ==> evidence.pool_placement == held.pool_placement,
        report.selected is None ==> !evidence.admitted && evidence.provider is None
            && evidence.reasons@.len() == 1,
        report.selected matches Some(selected) ==> opt_text(evidence.provider) == Some(
            selected.provider_id@,
        ),
        evidence.admitted ==> evidence.reasons@.len() == 0 && evidence.admission_id is Some
            && evidence.policy_id is Some,
        is_admitted(evidence) <==> evidence.admitted,
{
    if report.selected is None {
        assert(texts(evidence.reasons@).len() == evidence.reasons@.len());
    }
}

} // verus!
