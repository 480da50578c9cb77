//! Read models: desired state joined with live observations.

use vstd::prelude::*;

use crate::desired::{revision_workload_named, Desired, RevisionWorkloadNamed, Unit};
use crate::error::{EnvironmentError, Refusal};
use crate::events::{EventRecord, Key};
use crate::execute::{ExecutionRecord, WorkloadRuntime};
use crate::model::{copy_ports, ActualState, DesiredState, WorkloadKind, ENVIRONMENT_VERSION};
use crate::reconcile::{health_of, workload_health};
use crate::search::found;
use crate::state::{
    DeploymentRecord, EnvironmentProjectRecord, EnvironmentRecord, ProjectRevisionRecord, Stored,
    WorkloadInstanceRecord, WorkloadRecord,
};
use crate::status::{
    DeploymentSummary, DeploymentView, EnvironmentSummary, EnvironmentView, Evidence, ExecutionView,
    Health, InstanceView, PlacementView, ProjectDetail, ProjectPlacement, ProjectSummary,
    ProjectView, ResourceView, RevisionView, WorkloadView,
};
use crate::table::{find_item, key1, key2, key3, key4, Table};
use crate::terminal::{execution_is, ExecutionIs, TerminalLog};
use crate::text::{copy_list, copy_option, opt_text, same, texts};

verus! {

// ---- Parents ----------------------------------------------------------------

/// What is wanted of a child, and what it is.
pub struct Child {
    pub desired: DesiredState,
    pub actual: ActualState,
}

/// Whether a child should run.
pub open spec fn counts(child: Child) -> bool {
    child.desired == DesiredState::Running
}

/// Whether some child that should run is still up.
pub open spec fn any_up(children: Seq<Child>) -> bool {
    exists|i: int|
        0 <= i < children.len() && counts(#[trigger] children[i]) && (children[i].actual
            == ActualState::Running || children[i].actual == ActualState::Stopping)
}

pub open spec fn all_running(children: Seq<Child>) -> bool {
    forall|i: int|
        0 <= i < children.len() && counts(#[trigger] children[i]) ==> children[i].actual
            == ActualState::Running
}

pub open spec fn all_starting(children: Seq<Child>) -> bool {
    forall|i: int|
        0 <= i < children.len() && counts(#[trigger] children[i]) ==> children[i].actual
            == ActualState::Starting || children[i].actual == ActualState::Pending
}

pub open spec fn all_failed(children: Seq<Child>) -> bool {
    forall|i: int|
        0 <= i < children.len() && counts(#[trigger] children[i]) ==> children[i].actual
            == ActualState::Failed || children[i].actual == ActualState::Denied
}

/// A parent's state, from those of its children that should run: one that
/// should be stopped is stopping while any is up, and one that should run
/// does when all do.
pub open spec fn aggregated(desired: DesiredState, children: Seq<Child>) -> ActualState {
    if desired == DesiredState::Stopped {
        if any_up(children) {
            ActualState::Stopping
        } else {
            ActualState::Stopped
        }
    } else if all_running(children) {
        ActualState::Running
    } else if all_starting(children) {
        ActualState::Starting
    } else if all_failed(children) {
        ActualState::Failed
    } else {
        ActualState::Degraded
    }
}

/// Aggregate child states into a parent state.
pub fn aggregate(desired: DesiredState, children: &Vec<Child>) -> (r: ActualState)
    ensures
        r == aggregated(desired, children@),
{
    let mut up = false;
    let mut running = true;
    let mut starting = true;
    let mut failed = true;
    let mut i: usize = 0;
    proof {
        assert(children@.take(0) =~= Seq::<Child>::empty());
    }
    while i < children.len()
        invariant
            i <= children@.len(),
            up == any_up(children@.take(i as int)),
            running == all_running(children@.take(i as int)),
            starting == all_starting(children@.take(i as int)),
            failed == all_failed(children@.take(i as int)),
        decreases children@.len() - i,
    {
        let child = &children[i];
        let ghost before = children@.take(i as int);
        let ghost after = children@.take(i + 1);
        if child.desired == DesiredState::Running {
            match child.actual {
                ActualState::Running => {
                    up = true;
                    starting = false;
                    failed = false;
                },
                ActualState::Stopping => {
                    up = true;
                    running = false;
                    starting = false;
                    failed = false;
                },
                ActualState::Starting | ActualState::Pending => {
                    running = false;
                    failed = false;
                },
                ActualState::Failed | ActualState::Denied => {
                    running = false;
                    starting = false;
                },
                _ => {
                    running = false;
                    starting = false;
                    failed = false;
                },
            }
        }
        proof {
            assert(after =~= before.push(children@[i as int]));
            assert(after[i as int] == children@[i as int]);
            assert forall|j: int| 0 <= j < i implies after[j] == before[j] by {}
            if any_up(before) {
                let j = choose|j: int|
                    0 <= j < before.len() && counts(#[trigger] before[j]) && (before[j].actual
                        == ActualState::Running || before[j].actual == ActualState::Stopping);
                assert(counts(after[j]));
            }
            if any_up(after) && !any_up(before) {
                let j = choose|j: int|
                    0 <= j < after.len() && counts(#[trigger] after[j]) && (after[j].actual
                        == ActualState::Running || after[j].actual == ActualState::Stopping);
                if j < i {
                    assert(counts(before[j]));
                }
            }
        }
        i += 1;
    }
    proof {
        assert(children@.take(i as int) =~= children@);
    }
    if desired == DesiredState::Stopped {
        if up {
            ActualState::Stopping
        } else {
            ActualState::Stopped
        }
    } else if running {
        ActualState::Running
    } else if starting {
        ActualState::Starting
    } else if failed {
        ActualState::Failed
    } else {
        ActualState::Degraded
    }
}

/// The health of a parent: unhealthy with any child, healthy with all.
pub open spec fn combined_health(values: Seq<Health>) -> Health {
    if values.contains(Health::Unhealthy) {
        Health::Unhealthy
    } else if forall|i: int| 0 <= i < values.len() ==> (#[trigger] values[i]) == Health::Healthy {
        Health::Healthy
    } else {
        Health::Unknown
    }
}

pub fn combine_health(values: &Vec<Health>) -> (r: Health)
    ensures
        r == combined_health(values@),
{
    let mut healthy = true;
    let mut i: usize = 0;
    while i < values.len()
        invariant
            i <= values@.len(),
            forall|j: int| 0 <= j < i ==> (#[trigger] values@[j]) != Health::Unhealthy,
            healthy == (forall|j: int| 0 <= j < i ==> (#[trigger] values@[j]) == Health::Healthy),
        decreases values@.len() - i,
    {
        if values[i] == Health::Unhealthy {
            proof {
                assert(values@[i as int] == Health::Unhealthy);
            }
            return Health::Unhealthy;
        }
        if values[i] != Health::Healthy {
            healthy = false;
        }
        i += 1;
    }
    if healthy {
        Health::Healthy
    } else {
        Health::Unknown
    }
}

// ---- Workloads --------------------------------------------------------------

/// What a bundle declares it may use.
#[derive(Debug)]
pub struct Declared {
    pub memory_bytes: Option<u64>,
    pub wall_time_ms: Option<u64>,
    pub network: String,
}

/// What a bundle declares, with the longest time that can be told for one
/// that is longer.
pub fn declare(memory_bytes: Option<u64>, wall_time_ms: Option<u128>, network: String) -> (r:
    Declared)
    ensures
        r == (Declared {
            memory_bytes,
            wall_time_ms: match wall_time_ms {
                Some(ms) => Some(
                    if ms <= u64::MAX {
                        ms as u64
                    } else {
                        u64::MAX
                    },
                ),
                None => None,
            },
            network,
        }),
{
    let wall_time_ms = match wall_time_ms {
        Some(ms) => Some(
            if ms <= u64::MAX as u128 {
                ms as u64
            } else {
                u64::MAX
            },
        ),
        None => None,
    };
    Declared { memory_bytes, wall_time_ms, network }
}

/// What is observed of a workload for its view.
#[derive(Debug)]
pub struct WorkloadSight {
    /// Whether each port of the instance that serves it accepts
    /// connections.
    pub accepts: Vec<bool>,
    pub declared: Option<Declared>,
    pub disk_bytes: u64,
}

/// The revision a project has in an environment.
pub open spec fn current_revision(desired: Desired, environment: Seq<char>, project: Seq<char>) -> Option<
    ProjectRevisionRecord,
> {
    if desired.memberships@.contains_key(key2(environment, project)) {
        match desired.memberships@[key2(environment, project)].value.revision_id {
            Some(id) => if desired.revisions@.contains_key(key1(id@)) {
                Some(desired.revisions@[key1(id@)])
            } else {
                None
            },
            None => None,
        }
    } else {
        None
    }
}

fn find_current_revision<'a>(desired: &'a Desired, environment: &str, project: &str) -> (r: Option<
    &'a ProjectRevisionRecord,
>)
    ensures
        match r {
            Some(revision) => current_revision(*desired, environment@, project@) == Some(*revision),
            None => current_revision(*desired, environment@, project@) is None,
        },
{
    match desired.membership_of(environment, project) {
        Some(membership) => match &membership.value.revision_id {
            Some(id) => desired.revisions.at(id),
            None => None,
        },
        None => None,
    }
}

/// The artifact of a workload's bundle: in the revision current there.
pub fn workload_artifact(desired: &Desired, key: &Key) -> (r: Option<String>)
    ensures
        r == (match current_revision(*desired, key.0@, key.1@) {
            Some(revision) => match found(
                revision.workloads@,
                revision_workload_named(key.2@),
            ) {
                Some(workload) => Some(workload.artifact),
                None => None,
            },
            None => None,
        }),
{
    match find_current_revision(desired, &key.0, &key.1) {
        Some(revision) => match find_item(
            &revision.workloads,
            &RevisionWorkloadNamed { name: &key.2 },
        ) {
            Some(workload) => Some(workload.artifact.clone()),
            None => None,
        },
        None => None,
    }
}

/// What runs as a workload's current unit.
pub open spec fn runtime_of(
    runtime: Map<Seq<Seq<char>>, WorkloadRuntime>,
    record: WorkloadRecord,
    key: Key,
) -> Option<WorkloadRuntime> {
    let unit = key4(key.0@, key.1@, key.2@, record.deployment_id@);
    if runtime.contains_key(unit) {
        Some(runtime[unit])
    } else {
        None
    }
}

/// The state a workload shows: what runs, or what nothing running means.
pub open spec fn shown_state(kind: WorkloadKind, runtime: Option<WorkloadRuntime>) -> ActualState {
    match runtime {
        Some(WorkloadRuntime { state: Some(state), .. }) => state,
        _ => if kind == WorkloadKind::Task {
            ActualState::Pending
        } else {
            ActualState::Stopped
        },
    }
}

/// The health a workload shows: the one last observed of a running service,
/// else what its state and ports say.
pub open spec fn shown_health(
    kind: WorkloadKind,
    runtime: Option<WorkloadRuntime>,
    accepts: Seq<bool>,
) -> Health {
    let state = shown_state(kind, runtime);
    match runtime {
        Some(WorkloadRuntime { health: Some(health), .. }) if kind == WorkloadKind::Service
            && state == ActualState::Running => health,
        _ => health_of(kind, state, accepts),
    }
}

/// Whether a view shows what ran, or that nothing did.
pub open spec fn shows_run(view: WorkloadView, runtime: Option<WorkloadRuntime>) -> bool {
    match runtime {
        Some(runtime) => {
            &&& view.execution_id == runtime.execution_id
            &&& view.restarts == runtime.restarts
            &&& view.started_at == runtime.started_at
            &&& view.finished_at == runtime.finished_at
            &&& view.exit_code == runtime.exit_code
            &&& view.error == runtime.error
            &&& view.placement == runtime.placement
            &&& view.evidence.policy_id == runtime.evidence.policy_id
            &&& view.evidence.admission_id == runtime.evidence.admission_id
            &&& view.evidence.receipt_ids@ == runtime.evidence.receipt_ids@
            &&& view.log_directory == runtime.log_directory
        },
        None => {
            &&& view.execution_id is None
            &&& view.restarts == 0
            &&& view.started_at is None
            &&& view.finished_at is None
            &&& view.exit_code is None
            &&& view.error is None
            &&& view.placement.placement_id is None
            &&& view.placement.provider is None
            &&& view.placement.node is None
            &&& view.evidence.policy_id is None
            &&& view.evidence.admission_id is None
            &&& view.evidence.receipt_ids@.len() == 0
            &&& view.log_directory is None
        },
    }
}

/// Whether a view is of a workload, as it runs and is observed.
pub open spec fn is_workload_view(
    view: WorkloadView,
    record: Stored<WorkloadRecord>,
    runtime: Option<WorkloadRuntime>,
    sight: WorkloadSight,
) -> bool {
    &&& view.workload_id == record.id
    &&& view.name == record.value.name
    &&& view.kind == record.value.kind
    &&& view.desired_state == record.value.desired_state
    &&& view.actual_state == shown_state(record.value.kind, runtime)
    &&& view.health == shown_health(record.value.kind, runtime, sight.accepts@)
    &&& view.restart == record.value.restart
    &&& view.runtime == record.value.runtime
    &&& view.bundle_id == record.value.bundle_id
    &&& view.deployment_id == record.value.deployment_id
    &&& view.ports@ == record.value.ports@
    &&& shows_run(view, runtime)
    &&& view.resources.cpu@ == "not_measured"@
    &&& view.resources.disk_bytes == sight.disk_bytes
    &&& match sight.declared {
        Some(declared) => {
            &&& view.resources.memory_limit_bytes == declared.memory_bytes
            &&& view.resources.timeout_ms == declared.wall_time_ms
            &&& view.resources.network == declared.network
        },
        None => {
            &&& view.resources.memory_limit_bytes is None
            &&& view.resources.timeout_ms is None
            &&& view.resources.network@ == ""@
        },
    }
}

fn copy_evidence(evidence: &Evidence) -> (r: Evidence)
    ensures
        r.policy_id == evidence.policy_id,
        r.admission_id == evidence.admission_id,
        r.receipt_ids@ == evidence.receipt_ids@,
{
    Evidence {
        policy_id: copy_option(&evidence.policy_id),
        admission_id: copy_option(&evidence.admission_id),
        receipt_ids: copy_list(&evidence.receipt_ids),
    }
}

/// A workload as it is now.
pub fn workload_view(
    desired: &Desired,
    runtime: &Table<Unit, WorkloadRuntime>,
    key: &Key,
    sight: &WorkloadSight,
) -> (r: Result<WorkloadView, EnvironmentError>)
    ensures
        ({
            let parts = key3(key.0@, key.1@, key.2@);
            if desired.workloads@.contains_key(parts) {
                let record = desired.workloads@[parts];
                r matches Ok(view) && is_workload_view(
                    view,
                    record,
                    runtime_of(runtime@, record.value, *key),
                    *sight,
                )
            } else {
                r matches Err(error) && error.reports(
                    Refusal::NotFound(
                        "workload "@ + key.2@ + " in "@ + key.0@ + "/"@ + key.1@,
                    ),
                )
            }
        }),
{
    let record = match desired.workloads.get(key) {
        Some(record) => record,
        None => {
            let mut text = "workload ".to_owned();
            text.append(&key.2);
            text.append(" in ");
            text.append(&key.0);
            text.append("/");
            text.append(&key.1);
            return Err(EnvironmentError::NotFound(text));
        },
    };
    let kind = record.value.kind;
    let running = runtime.get(&Unit::new(key, &record.value.deployment_id));
    let idle = if kind == WorkloadKind::Task {
        ActualState::Pending
    } else {
        ActualState::Stopped
    };
    let (state, seen) = match running {
        Some(running) => (
            match running.state {
                Some(state) => state,
                None => idle,
            },
            running.health,
        ),
        None => (idle, None),
    };
    let health = match seen {
        Some(health) => if kind == WorkloadKind::Service && state == ActualState::Running {
            health
        } else {
            workload_health(kind, state, &sight.accepts)
        },
        None => workload_health(kind, state, &sight.accepts),
    };
    let resources = match &sight.declared {
        Some(declared) => ResourceView {
            cpu: "not_measured".to_owned(),
            memory_limit_bytes: declared.memory_bytes,
            timeout_ms: declared.wall_time_ms,
            disk_bytes: sight.disk_bytes,
            network: declared.network.clone(),
        },
        None => ResourceView {
            cpu: "not_measured".to_owned(),
            memory_limit_bytes: None,
            timeout_ms: None,
            disk_bytes: sight.disk_bytes,
            network: "".to_owned(),
        },
    };
    let mut view = WorkloadView {
        workload_id: record.id.clone(),
        name: record.value.name.clone(),
        kind,
        desired_state: record.value.desired_state,
        actual_state: state,
        health,
        restart: record.value.restart,
        runtime: record.value.runtime.clone(),
        bundle_id: record.value.bundle_id.clone(),
        deployment_id: record.value.deployment_id.clone(),
        execution_id: None,
        ports: copy_ports(&record.value.ports),
        restarts: 0,
        started_at: None,
        finished_at: None,
        exit_code: None,
        error: None,
        placement: PlacementView { placement_id: None, provider: None, node: None },
        evidence: Evidence { policy_id: None, admission_id: None, receipt_ids: Vec::new() },
        resources,
        log_directory: None,
    };
    if let Some(running) = running {
        view.execution_id = copy_option(&running.execution_id);
        view.restarts = running.restarts;
        view.started_at = running.started_at;
        view.finished_at = running.finished_at;
        view.exit_code = running.exit_code;
        view.error = copy_option(&running.error);
        view.placement = running.placement.clone();
        view.evidence = copy_evidence(&running.evidence);
        view.log_directory = copy_option(&running.log_directory);
    }
    Ok(view)
}

// ---- Projects ---------------------------------------------------------------

/// Whether a summary is of a deployment.
pub open spec fn is_summary(summary: DeploymentSummary, deployment: Stored<DeploymentRecord>) -> bool {
    &&& summary.deployment_id == deployment.id
    &&& summary.version == deployment.value.version
    &&& summary.status == deployment.value.status
    &&& summary.revision == deployment.value.revision
    &&& summary.created_at == deployment.value.created_at
    &&& summary.updated_at == deployment.value.updated_at
    &&& summary.promoted_from == deployment.value.promoted_from
}

pub fn summary(deployment: &Stored<DeploymentRecord>) -> (r: DeploymentSummary)
    ensures
        is_summary(r, *deployment),
{
    DeploymentSummary {
        deployment_id: deployment.id.clone(),
        version: deployment.value.version,
        status: deployment.value.status,
        revision: deployment.value.revision.clone(),
        created_at: deployment.value.created_at,
        updated_at: deployment.value.updated_at,
        promoted_from: copy_option(&deployment.value.promoted_from),
    }
}

/// The services among the first `n` workloads, as children.
pub open spec fn services_upto(workloads: Seq<WorkloadView>, n: nat) -> Seq<Child>
    decreases n,
{
    if n == 0 {
        Seq::empty()
    } else {
        let before = services_upto(workloads, (n - 1) as nat);
        let workload = workloads[n - 1];
        if workload.kind == WorkloadKind::Service {
            before.push(Child { desired: workload.desired_state, actual: workload.actual_state })
        } else {
            before
        }
    }
}

/// The health of the services among the first `n` workloads.
pub open spec fn health_upto(workloads: Seq<WorkloadView>, n: nat) -> Seq<Health>
    decreases n,
{
    if n == 0 {
        Seq::empty()
    } else {
        let before = health_upto(workloads, (n - 1) as nat);
        if workloads[n - 1].kind == WorkloadKind::Service {
            before.push(workloads[n - 1].health)
        } else {
            before
        }
    }
}

fn services_of(workloads: &Vec<WorkloadView>) -> (r: (Vec<Child>, Vec<Health>))
    ensures
        r.0@ == services_upto(workloads@, workloads@.len()),
        r.1@ == health_upto(workloads@, workloads@.len()),
{
    let mut children: Vec<Child> = Vec::new();
    let mut health: Vec<Health> = Vec::new();
    let mut i: usize = 0;
    while i < workloads.len()
        invariant
            i <= workloads@.len(),
            children@ == services_upto(workloads@, i as nat),
            health@ == health_upto(workloads@, i as nat),
        decreases workloads@.len() - i,
    {
        let workload = &workloads[i];
        if workload.kind == WorkloadKind::Service {
            children.push(
                Child { desired: workload.desired_state, actual: workload.actual_state },
            );
            health.push(workload.health);
        }
        i += 1;
    }
    (children, health)
}

/// What is wanted of a project: nothing while its environment is stopped.
pub open spec fn effective_state(
    environment: EnvironmentRecord,
    membership: EnvironmentProjectRecord,
) -> DesiredState {
    if environment.desired_state == DesiredState::Stopped {
        DesiredState::Stopped
    } else {
        membership.desired_state
    }
}

/// The deployment current of a membership.
pub open spec fn current_deployment(desired: Desired, membership: EnvironmentProjectRecord) -> Option<
    Stored<DeploymentRecord>,
> {
    match membership.deployment_id {
        Some(id) => if desired.deployments@.contains_key(key1(id@)) {
            Some(desired.deployments@[key1(id@)])
        } else {
            None
        },
        None => None,
    }
}

/// Whether a view is of a project in an environment, with its workloads.
pub open spec fn is_project_view(
    view: ProjectView,
    desired: Desired,
    environment: Seq<char>,
    project: Seq<char>,
    workloads: Seq<WorkloadView>,
    disk_bytes: u64,
) -> bool {
    let record = desired.environments@[key1(environment)];
    let membership = desired.memberships@[key2(environment, project)].value;
    let revision = current_revision(desired, environment, project);
    let deployment = current_deployment(desired, membership);
    let services = services_upto(workloads, workloads.len());
    &&& view.project_id == membership.project_id
    &&& view.name@ == project
    &&& view.environment@ == environment
    &&& view.environment_id == record.id
    &&& match revision {
        Some(revision) => {
            &&& view.revision == revision.revision
            &&& view.revision_digest == revision.revision_digest
            &&& view.source == revision.source
        },
        None => view.revision@ == ""@ && view.revision_digest@ == ""@ && view.source is None,
    }
    &&& view.revision_id@ == (match membership.revision_id {
        Some(id) => id@,
        None => ""@,
    })
    &&& view.desired_state == membership.desired_state
    &&& view.actual_state == aggregated(effective_state(record.value, membership), services)
    &&& view.health == combined_health(health_upto(workloads, workloads.len()))
    &&& match (view.deployment, deployment) {
        (Some(summary), Some(deployment)) => is_summary(summary, deployment) && view.deployed_at
            == deployment.value.created_at,
        (None, None) => view.deployed_at == membership.updated_at,
        _ => false,
    }
    &&& view.config.rows() == membership.config.rows()
    &&& view.workload_count == workloads.len()
    &&& view.service_count == services.len()
    &&& view.provider@ == (match record.value.provider {
        Some(provider) => provider@,
        None => "local"@,
    })
    &&& view.workloads@ == workloads
    &&& view.disk_bytes == disk_bytes
}

/// A project as it is in one environment, given its workloads as they are.
pub fn project_view(
    desired: &Desired,
    environment: &str,
    project: &str,
    workloads: Vec<WorkloadView>,
    disk_bytes: u64,
) -> (r: Result<ProjectView, EnvironmentError>)
    ensures
        if !desired.environments@.contains_key(key1(environment@)) {
            r matches Err(error) && error.reports(
                Refusal::NotFound("environment "@ + environment@),
            )
        } else if !desired.memberships@.contains_key(key2(environment@, project@)) {
            r matches Err(error) && error.reports(
                Refusal::NotFound("project "@ + project@ + " in "@ + environment@),
            )
        } else {
            r matches Ok(view) && is_project_view(
                view,
                *desired,
                environment@,
                project@,
                workloads@,
                disk_bytes,
            )
        },
{
    let record = match desired.environments.at(environment) {
        Some(record) => record,
        None => {
            let mut text = "environment ".to_owned();
            text.append(environment);
            return Err(EnvironmentError::NotFound(text));
        },
    };
    let membership = match desired.membership_of(environment, project) {
        Some(membership) => membership,
        None => {
            let mut text = "project ".to_owned();
            text.append(project);
            text.append(" in ");
            text.append(environment);
            return Err(EnvironmentError::NotFound(text));
        },
    };
    let (revision, revision_digest, source) = match find_current_revision(
        desired,
        environment,
        project,
    ) {
        Some(revision) => (
            revision.revision.clone(),
            revision.revision_digest.clone(),
            copy_option(&revision.source),
        ),
        None => ("".to_owned(), "".to_owned(), None),
    };
    let deployment = match &membership.value.deployment_id {
        Some(id) => desired.deployments.at(id),
        None => None,
    };
    let (deployed_at, deployment) = match deployment {
        Some(deployment) => (deployment.value.created_at, Some(summary(deployment))),
        None => (membership.value.updated_at, None),
    };
    let effective = if record.value.desired_state == DesiredState::Stopped {
        DesiredState::Stopped
    } else {
        membership.value.desired_state
    };
    let (services, health) = services_of(&workloads);
    Ok(
        ProjectView {
            project_id: membership.value.project_id.clone(),
            name: project.to_owned(),
            environment: environment.to_owned(),
            environment_id: record.id.clone(),
            revision,
            revision_id: match &membership.value.revision_id {
                Some(id) => id.clone(),
                None => "".to_owned(),
            },
            revision_digest,
            source,
            desired_state: membership.value.desired_state,
            actual_state: aggregate(effective, &services),
            health: combine_health(&health),
            deployment,
            deployed_at,
            config: membership.value.config.copy(),
            workload_count: workloads.len(),
            service_count: services.len(),
            provider: match &record.value.provider {
                Some(provider) => provider.clone(),
                None => "local".to_owned(),
            },
            workloads,
            disk_bytes,
        },
    )
}

// ---- Environments -----------------------------------------------------------

/// Projects as children.
pub open spec fn project_children(projects: Seq<ProjectView>) -> Seq<Child> {
    projects.map_values(
        |project: ProjectView|
            Child { desired: project.desired_state, actual: project.actual_state },
    )
}

pub open spec fn project_health(projects: Seq<ProjectView>) -> Seq<Health> {
    projects.map_values(|project: ProjectView| project.health)
}

/// The workloads of the first `n` projects.
pub open spec fn workload_total(projects: Seq<ProjectView>, n: nat) -> int
    decreases n,
{
    if n == 0 {
        0
    } else {
        workload_total(projects, (n - 1) as nat) + projects[n - 1].workload_count
    }
}

/// The services of the first `n` projects.
pub open spec fn service_total(projects: Seq<ProjectView>, n: nat) -> int
    decreases n,
{
    if n == 0 {
        0
    } else {
        service_total(projects, (n - 1) as nat) + projects[n - 1].service_count
    }
}

proof fn lemma_totals_grow(projects: Seq<ProjectView>, n: nat, m: nat)
    requires
        n <= m,
    ensures
        0 <= workload_total(projects, n) <= workload_total(projects, m),
        0 <= service_total(projects, n) <= service_total(projects, m),
    decreases m,
{
    if n < m {
        lemma_totals_grow(projects, n, (m - 1) as nat);
    } else if n > 0 {
        lemma_totals_grow(projects, (n - 1) as nat, (n - 1) as nat);
    }
}

/// Whether a view is of an environment, with its projects.
pub open spec fn is_environment_view(
    view: EnvironmentView,
    record: Stored<EnvironmentRecord>,
    projects: Seq<ProjectView>,
    policy_id: Seq<char>,
    disk_bytes: u64,
) -> bool {
    &&& view.version@ == ENVIRONMENT_VERSION@
    &&& view.environment_id == record.id
    &&& view.name == record.value.name
    &&& view.desired_state == record.value.desired_state
    &&& view.actual_state == aggregated(record.value.desired_state, project_children(projects))
    &&& view.health == combined_health(project_health(projects))
    &&& view.created_at == record.value.created_at
    &&& view.policy_id@ == policy_id
    &&& view.provider == record.value.provider
    &&& view.config.rows() == record.value.config.rows()
    &&& view.project_count == projects.len()
    &&& view.workload_count == workload_total(projects, projects.len())
    &&& view.service_count == service_total(projects, projects.len())
    &&& view.projects@ == projects
    &&& view.disk_bytes == disk_bytes
}

/// An environment as it is now, given its projects as they are.
pub fn environment_view(
    record: &Stored<EnvironmentRecord>,
    projects: Vec<ProjectView>,
    policy_id: &str,
    disk_bytes: u64,
) -> (r: EnvironmentView)
    requires
        workload_total(projects@, projects@.len()) <= usize::MAX,
        service_total(projects@, projects@.len()) <= usize::MAX,
    ensures
        is_environment_view(r, *record, projects@, policy_id@, disk_bytes),
{
    let mut children: Vec<Child> = Vec::new();
    let mut health: Vec<Health> = Vec::new();
    let mut workload_count: usize = 0;
    let mut service_count: usize = 0;
    let mut i: usize = 0;
    while i < projects.len()
        invariant
            i <= projects@.len(),
            children@ == project_children(projects@).take(i as int),
            health@ == project_health(projects@).take(i as int),
            workload_count == workload_total(projects@, i as nat),
            service_count == service_total(projects@, i as nat),
        decreases projects@.len() - i,
    {
        let project = &projects[i];
        proof {
            lemma_totals_grow(projects@, (i + 1) as nat, projects@.len());
            assert(project_children(projects@).take(i + 1) =~= project_children(projects@).take(
                i as int,
            ).push(project_children(projects@)[i as int]));
            assert(project_health(projects@).take(i + 1) =~= project_health(projects@).take(
                i as int,
            ).push(project_health(projects@)[i as int]));
        }
        children.push(Child { desired: project.desired_state, actual: project.actual_state });
        health.push(project.health);
        workload_count = workload_count + project.workload_count;
        service_count = service_count + project.service_count;
        i += 1;
    }
    proof {
        assert(project_children(projects@).take(i as int) =~= project_children(projects@));
        assert(project_health(projects@).take(i as int) =~= project_health(projects@));
    }
    EnvironmentView {
        version: ENVIRONMENT_VERSION.to_owned(),
        environment_id: record.id.clone(),
        name: record.value.name.clone(),
        desired_state: record.value.desired_state,
        actual_state: aggregate(record.value.desired_state, &children),
        health: combine_health(&health),
        created_at: record.value.created_at,
        policy_id: policy_id.to_owned(),
        provider: copy_option(&record.value.provider),
        config: record.value.config.copy(),
        project_count: projects.len(),
        workload_count,
        service_count,
        projects,
        disk_bytes,
    }
}

/// The summary row of an environment.
pub fn environment_summary(view: EnvironmentView) -> (r: EnvironmentSummary)
    ensures
        r.environment_id == view.environment_id,
        r.name == view.name,
        r.desired_state == view.desired_state,
        r.actual_state == view.actual_state,
        r.health == view.health,
        r.project_count == view.project_count,
        r.workload_count == view.workload_count,
        r.service_count == view.service_count,
        r.provider@ == (match view.provider {
            Some(provider) => provider@,
            None => "local"@,
        }),
{
    EnvironmentSummary {
        environment_id: view.environment_id,
        name: view.name,
        desired_state: view.desired_state,
        actual_state: view.actual_state,
        health: view.health,
        project_count: view.project_count,
        workload_count: view.workload_count,
        service_count: view.service_count,
        provider: match view.provider {
            Some(provider) => provider,
            None => "local".to_owned(),
        },
    }
}

// ---- What is shown of what --------------------------------------------------

/// The projects of an environment, among the first `n` memberships.
pub open spec fn projects_upto(
    members: Seq<((String, String), Stored<EnvironmentProjectRecord>)>,
    environment: Seq<char>,
    n: nat,
) -> Seq<Seq<char>>
    decreases n,
{
    if n == 0 {
        Seq::empty()
    } else {
        let before = projects_upto(members, environment, (n - 1) as nat);
        let key = members[n - 1].0;
        if key.0@ == environment {
            before.push(key.1@)
        } else {
            before
        }
    }
}

/// The environments of a project, among the first `n` memberships.
pub open spec fn environments_upto(
    members: Seq<((String, String), Stored<EnvironmentProjectRecord>)>,
    project: Seq<char>,
    n: nat,
) -> Seq<Seq<char>>
    decreases n,
{
    if n == 0 {
        Seq::empty()
    } else {
        let before = environments_upto(members, project, (n - 1) as nat);
        let key = members[n - 1].0;
        if key.1@ == project {
            before.push(key.0@)
        } else {
            before
        }
    }
}

/// The projects an environment's view shows, by name.
pub fn projects_in(desired: &Desired, environment: &str) -> (r: Vec<String>)
    ensures
        texts(r@) == projects_upto(
            desired.memberships.rows(),
            environment@,
            desired.memberships.rows().len(),
        ),
{
    let ghost members = desired.memberships.rows();
    let mut r: Vec<String> = Vec::new();
    let mut i: usize = 0;
    proof {
        assert(texts(r@) =~= Seq::<Seq<char>>::empty());
    }
    while i < desired.memberships.len()
        invariant
            i <= members.len(),
            texts(r@) == projects_upto(members, environment@, i as nat),
        decreases members.len() - i,
    {
        let key = desired.memberships.key_at(i);
        if same(&key.0, environment) {
            let ghost before = r@;
            r.push(key.1.clone());
            proof {
                assert(texts(r@) =~= texts(before).push(key.1@));
            }
        }
        i += 1;
    }
    r
}

/// The environments a project's summary shows, by name.
pub fn environments_of(desired: &Desired, project: &str) -> (r: Vec<String>)
    ensures
        texts(r@) == environments_upto(
            desired.memberships.rows(),
            project@,
            desired.memberships.rows().len(),
        ),
{
    let ghost members = desired.memberships.rows();
    let mut r: Vec<String> = Vec::new();
    let mut i: usize = 0;
    proof {
        assert(texts(r@) =~= Seq::<Seq<char>>::empty());
    }
    while i < desired.memberships.len()
        invariant
            i <= members.len(),
            texts(r@) == environments_upto(members, project@, i as nat),
        decreases members.len() - i,
    {
        let key = desired.memberships.key_at(i);
        if same(&key.1, project) {
            let ghost before = r@;
            r.push(key.0.clone());
            proof {
                assert(texts(r@) =~= texts(before).push(key.0@));
            }
        }
        i += 1;
    }
    r
}

/// The identifier releases are asked for by: that of the environment named,
/// or what was given where none is.
pub fn environment_reference(desired: &Desired, environment: String) -> (r: String)
    ensures
        r == (match desired.environment_named(environment@) {
            Some(record) => record.id,
            None => environment,
        }),
{
    match desired.environment(&environment) {
        Some(record) => record.id.clone(),
        None => environment,
    }
}

// ---- Projects across environments -------------------------------------------

/// A revision as it is shown.
pub fn revision_view(revision_id: String, record: ProjectRevisionRecord) -> (r: RevisionView)
    ensures
        r == (RevisionView {
            revision_id,
            project: record.project,
            revision: record.revision,
            revision_digest: record.revision_digest,
            source: record.source,
            workloads: record.workloads,
            created_at: record.created_at,
        }),
{
    RevisionView {
        revision_id,
        project: record.project,
        revision: record.revision,
        revision_digest: record.revision_digest,
        source: record.source,
        workloads: record.workloads,
        created_at: record.created_at,
    }
}

/// A project in one environment, as listed from the project's side.
pub fn placement_of(view: ProjectView) -> (r: ProjectPlacement)
    ensures
        r == (ProjectPlacement {
            environment: view.environment,
            revision: view.revision,
            revision_id: view.revision_id,
            desired_state: view.desired_state,
            actual_state: view.actual_state,
            health: view.health,
            deployment: view.deployment,
        }),
{
    ProjectPlacement {
        environment: view.environment,
        revision: view.revision,
        revision_id: view.revision_id,
        desired_state: view.desired_state,
        actual_state: view.actual_state,
        health: view.health,
        deployment: view.deployment,
    }
}

/// A project across every environment it is in, given its revisions, newest
/// first, and its placements.
pub fn project_summary(
    desired: &Desired,
    name: &str,
    revisions: &Vec<RevisionView>,
    placements: Vec<ProjectPlacement>,
) -> (r: Result<ProjectSummary, EnvironmentError>)
    ensures
        if desired.projects@.contains_key(key1(name@)) {
            let record = desired.projects@[key1(name@)];
            &&& r matches Ok(summary)
            &&& summary.project_id == record.id
            &&& summary.name@ == name@
            &&& summary.source == record.value.source
            &&& summary.created_at == record.value.created_at
            &&& summary.revision_count == revisions@.len()
            &&& summary.latest_revision == (if revisions@.len() > 0 {
                Some(revisions@[0].revision)
            } else {
                None
            })
            &&& summary.environments == placements
        } else {
            r matches Err(error) && error.reports(Refusal::NotFound("project "@ + name@))
        },
{
    let record = match desired.projects.at(name) {
        Some(record) => record,
        None => {
            let mut text = "project ".to_owned();
            text.append(name);
            return Err(EnvironmentError::NotFound(text));
        },
    };
    Ok(
        ProjectSummary {
            project_id: record.id.clone(),
            name: name.to_owned(),
            source: copy_option(&record.value.source),
            created_at: record.value.created_at,
            revision_count: revisions.len(),
            latest_revision: if revisions.len() > 0 {
                Some(revisions[0].revision.clone())
            } else {
                None
            },
            environments: placements,
        },
    )
}

// ---- Releases ---------------------------------------------------------------

/// Whether a view is of an instance, with what runs for it.
pub open spec fn is_instance_view(
    view: InstanceView,
    runtime: Map<Seq<Seq<char>>, WorkloadRuntime>,
    instance: Stored<WorkloadInstanceRecord>,
    open_connections: usize,
) -> bool {
    let unit = key4(
        instance.value.environment@,
        instance.value.project@,
        instance.value.workload@,
        instance.value.deployment_id@,
    );
    &&& view.instance_id == instance.id
    &&& view.record == instance.value
    &&& view.open_connections == open_connections
    &&& view.actual_state == (if runtime.contains_key(unit) {
        runtime[unit].state
    } else {
        None
    })
}

/// An instance of a release, and what runs for it.
pub fn instance_view(
    runtime: &Table<Unit, WorkloadRuntime>,
    instance: Stored<WorkloadInstanceRecord>,
    open_connections: usize,
) -> (r: InstanceView)
    ensures
        is_instance_view(r, runtime@, instance, open_connections),
{
    let unit = Unit::new(&Desired::instance_key(&instance.value), &instance.value.deployment_id);
    let actual_state = match runtime.get(&unit) {
        Some(running) => running.state,
        None => None,
    };
    InstanceView {
        instance_id: instance.id,
        record: instance.value,
        actual_state,
        open_connections,
    }
}

/// The views of the first `n` instances.
pub open spec fn are_instance_views(
    views: Seq<InstanceView>,
    runtime: Map<Seq<Seq<char>>, WorkloadRuntime>,
    instances: Seq<Stored<WorkloadInstanceRecord>>,
    open: Seq<usize>,
    n: nat,
) -> bool {
    &&& views.len() == n
    &&& forall|i: int|
        0 <= i < n ==> is_instance_view(
            #[trigger] views[i],
            runtime,
            instances[i],
            if i < open.len() {
                open[i]
            } else {
                0
            },
        )
}

/// A release, with what runs for each of its instances. `open` are the
/// connections open to each; none are where it says nothing.
pub fn deployment_view(
    runtime: &Table<Unit, WorkloadRuntime>,
    deployment: Stored<DeploymentRecord>,
    instances: Vec<Stored<WorkloadInstanceRecord>>,
    open: &Vec<usize>,
) -> (r: DeploymentView)
    ensures
        r.deployment_id == deployment.id,
        r.record == deployment.value,
        are_instance_views(r.instances@, runtime@, instances@, open@, instances@.len()),
{
    let ghost all = instances@;
    let total: usize = instances.len();
    let mut rest = instances;
    let mut views: Vec<InstanceView> = Vec::new();
    let mut i: usize = 0;
    proof {
        assert(all.skip(0) =~= all);
    }
    while i < total
        invariant
            i <= total,
            rest@ == all.skip(i as int),
            are_instance_views(views@, runtime@, all, open@, i as nat),
        decreases total - i,
    {
        let instance = rest.remove(0);
        proof {
            assert(all.skip(i as int).remove(0) =~= all.skip(i + 1));
        }
        let connections: usize = if i < open.len() {
            open[i]
        } else {
            0
        };
        views.push(instance_view(runtime, instance, connections));
        i += 1;
    }
    DeploymentView { deployment_id: deployment.id, record: deployment.value, instances: views }
}

/// A project in detail: its summary, and what is newest first of it.
pub fn project_detail(
    summary: ProjectSummary,
    revisions: Vec<RevisionView>,
    deployments: Vec<DeploymentView>,
) -> (r: ProjectDetail)
    ensures
        r == (ProjectDetail { summary, revisions, deployments }),
{
    ProjectDetail { summary, revisions, deployments }
}

/// How many of the first `n` units run.
pub open spec fn running_count(units: Seq<WorkloadRuntime>, n: nat) -> nat
    decreases n,
{
    if n == 0 {
        0
    } else {
        running_count(units, (n - 1) as nat) + (if units[n - 1].state == Some(
            ActualState::Running,
        ) {
            1nat
        } else {
            0nat
        })
    }
}

/// How many units run.
pub fn running_services(runtime: &Table<Unit, WorkloadRuntime>) -> (r: usize)
    ensures
        r == running_count(runtime.values(), runtime.values().len()),
{
    let mut count: usize = 0;
    let mut i: usize = 0;
    while i < runtime.len()
        invariant
            i <= runtime.values().len(),
            count <= i,
            count == running_count(runtime.values(), i as nat),
        decreases runtime.values().len() - i,
    {
        if let Some(ActualState::Running) = runtime.value_at(i).state {
            count += 1;
        }
        i += 1;
    }
    count
}

// ---- Executions -------------------------------------------------------------

/// The controller's own evidence of an execution, while control state
/// cannot be read: what ended recently, else what waits to be written.
pub fn local_execution<'a>(
    terminal: &'a TerminalLog,
    pending: &'a Vec<ExecutionRecord>,
    id: &str,
) -> (r: Option<&'a ExecutionRecord>)
    ensures
        match found(terminal@, execution_is(id@)) {
            Some(record) => r == Some(&record),
            None => match found(pending@, execution_is(id@)) {
                Some(record) => r == Some(&record),
                None => r is None,
            },
        },
{
    match terminal.get(id) {
        Some(record) => Some(record),
        None => find_item(pending, &ExecutionIs { id }),
    }
}

/// What is kept of an execution's output: nothing once it was forgotten.
pub open spec fn kept_output(
    outputs: Map<Seq<Seq<char>>, (String, String)>,
    id: Seq<char>,
) -> (Seq<char>, Seq<char>) {
    if outputs.contains_key(key1(id)) {
        (outputs[key1(id)].0@, outputs[key1(id)].1@)
    } else {
        (""@, ""@)
    }
}

/// An execution, with what is kept of its output.
pub fn execution_view(record: ExecutionRecord, outputs: &Table<String, (String, String)>) -> (r:
    ExecutionView)
    ensures
        r.record == record,
        (r.stdout@, r.stderr@) == kept_output(outputs@, record.execution_id@),
{
    let (stdout, stderr) = match outputs.at(&record.execution_id) {
        Some(output) => (output.0.clone(), output.1.clone()),
        None => ("".to_owned(), "".to_owned()),
    };
    ExecutionView { record, stdout, stderr }
}

/// Where a workload's recent output is.
#[derive(Debug, PartialEq, Eq)]
pub enum LogSource {
    /// In the log files of a directory.
    Directory(String),
    /// Kept with its latest execution.
    Output(String, String),
    Nothing,
}

/// Find a workload's recent output: what a service logs is in its
/// directory, and a task's output is kept with its latest execution.
pub fn log_source(view: &WorkloadView, outputs: &Table<String, (String, String)>) -> (r: LogSource)
    ensures
        match (view.log_directory, view.execution_id) {
            (Some(directory), _) => r == LogSource::Directory(directory),
            (None, Some(id)) => if outputs@.contains_key(key1(id@)) {
                r == LogSource::Output(outputs@[key1(id@)].0, outputs@[key1(id@)].1)
            } else {
                r is Nothing
            },
            (None, None) => r is Nothing,
        },
{
    if let Some(directory) = &view.log_directory {
        return LogSource::Directory(directory.clone());
    }
    if let Some(id) = &view.execution_id {
        if let Some(output) = outputs.at(id) {
            return LogSource::Output(output.0.clone(), output.1.clone());
        }
    }
    LogSource::Nothing
}

/// The digest of a deployment's receipt, once it has one.
pub fn deployment_receipt(deployment: &Stored<DeploymentRecord>) -> (r: Result<
    String,
    EnvironmentError,
>)
    ensures
        match deployment.value.receipt {
            Some(digest) => r == Ok::<String, EnvironmentError>(digest),
            None => r matches Err(error) && error.reports(
                Refusal::NotFound(
                    "a receipt for "@ + deployment.id@
                        + "; one is written when the release ends"@,
                ),
            ),
        },
{
    match &deployment.value.receipt {
        Some(digest) => Ok(digest.clone()),
        None => {
            let mut text = "a receipt for ".to_owned();
            text.append(&deployment.id);
            text.append("; one is written when the release ends");
            Err(EnvironmentError::NotFound(text))
        },
    }
}

/// Where an execution's receipt document is.
pub fn receipt_document(receipt_id: &str, artifact_digest: &Option<String>) -> (r: Result<
    String,
    EnvironmentError,
>)
    ensures
        match *artifact_digest {
            Some(digest) => r == Ok::<String, EnvironmentError>(digest),
            None => r matches Err(error) && error.reports(
                Refusal::NotFound("the receipt document of "@ + receipt_id@),
            ),
        },
{
    match artifact_digest {
        Some(digest) => Ok(digest.clone()),
        None => {
            let mut text = "the receipt document of ".to_owned();
            text.append(receipt_id);
            Err(EnvironmentError::NotFound(text))
        },
    }
}

/// What is reported of a receipt document that is nowhere.
pub fn missing_receipt(digest: &str) -> (r: EnvironmentError)
    ensures
        r.reports(Refusal::NotFound("receipt artifact "@ + digest@)),
{
    let mut text = "receipt artifact ".to_owned();
    text.append(digest);
    EnvironmentError::NotFound(text)
}

/// How many of the last bytes of a log are shown.
pub const LOG_TAIL: usize = 65536;

/// Where the part of a log that is shown starts.
pub fn log_start(size: usize) -> (r: usize)
    ensures
        r == (if size > LOG_TAIL {
            size - LOG_TAIL
        } else {
            0
        }),
        size <= 65_536 ==> r == 0,
        size > 65_536 ==> size - r == 65_536,
{
    if size > LOG_TAIL {
        size - LOG_TAIL
    } else {
        0
    }
}

// ---- Events -----------------------------------------------------------------

/// Filters for the event log.
#[derive(Debug)]
pub struct EventFilter {
    pub after: Option<u64>,
    pub limit: Option<usize>,
    pub environment: Option<String>,
    pub project: Option<String>,
    pub deployment_id: Option<String>,
}

/// How the event log is asked: how many events at most, and from which end.
#[derive(Debug, Clone, Copy, PartialEq, Eq, Structural)]
pub struct EventQuery {
    pub limit: usize,
    /// The next events after a sequence number, oldest first; otherwise the
    /// most recent ones, newest first.
    pub ascending: bool,
}

impl EventFilter {
    /// Every event there is, up to the usual limit.
    pub fn everything() -> (r: Self)
        ensures
            r.after is None,
            r.limit is None,
            r.environment is None,
            r.project is None,
            r.deployment_id is None,
    {
        EventFilter { after: None, limit: None, environment: None, project: None, deployment_id: None }
    }

    pub open spec fn asks(self) -> EventQuery {
        let limit = match self.limit {
            Some(limit) => limit,
            None => 200,
        };
        EventQuery {
            limit: if limit < 1000 {
                limit
            } else {
                1000
            },
            ascending: self.after is Some,
        }
    }

    /// Whether the filter lets an event through.
    pub open spec fn lets_through(self, event: EventRecord) -> bool {
        &&& match self.after {
            Some(after) => event.sequence > after,
            None => true,
        }
        &&& self.environment is Some ==> opt_text(event.scope.environment) == opt_text(
            self.environment,
        )
        &&& self.project is Some ==> opt_text(event.scope.project) == opt_text(self.project)
        &&& self.deployment_id is Some ==> opt_text(event.scope.deployment_id) == opt_text(
            self.deployment_id,
        )
    }

    /// Whether the filter lets an event through.
    pub fn selects(&self, event: &EventRecord) -> (r: bool)
        ensures
            r == self.lets_through(*event),
    {
        if let Some(after) = self.after {
            if event.sequence <= after {
                return false;
            }
        }
        if self.environment.is_some() && !crate::text::same_option(
            &event.scope.environment,
            &self.environment,
        ) {
            return false;
        }
        if self.project.is_some() && !crate::text::same_option(
            &event.scope.project,
            &self.project,
        ) {
            return false;
        }
        if self.deployment_id.is_some() && !crate::text::same_option(
            &event.scope.deployment_id,
            &self.deployment_id,
        ) {
            return false;
        }
        true
    }

    /// How the event log is asked for what the filter lets through.
    pub fn query(&self) -> (r: EventQuery)
        ensures
            r == self.asks(),
            r.limit <= 1000,
    {
        let limit: usize = match self.limit {
            Some(limit) => limit,
            None => 200,
        };
        EventQuery {
            limit: if limit < 1000 {
                limit
            } else {
                1000
            },
            ascending: self.after.is_some(),
        }
    }

    /// What the event log answered, oldest first.
    pub fn arrange(&self, answer: Vec<EventRecord>) -> (r: Vec<EventRecord>)
        ensures
            r@ == (if self.asks().ascending {
                answer@
            } else {
                answer@.reverse()
            }),
    {
        if self.after.is_some() {
            return answer;
        }
        let ghost all = answer@;
        let mut rest = answer;
        let mut r: Vec<EventRecord> = Vec::new();
        while rest.len() > 0
            invariant
                rest@.len() + r@.len() == all.len(),
                rest@ == all.take(rest@.len() as int),
                forall|k: int| 0 <= k < r@.len() ==> (#[trigger] r@[k]) == all[all.len() - 1 - k],
            decreases rest@.len(),
        {
            if let Some(event) = rest.pop() {
                proof {
                    assert(rest@ =~= all.take(rest@.len() as int));
                }
                r.push(event);
            }
        }
        proof {
            assert(r@ =~= all.reverse());
        }
        r
    }
}

// ---- Laws -------------------------------------------------------------------

/// A parent that should be stopped is never shown as running, failed or
/// degraded, whatever its children do.
pub proof fn law_stopped_parents_stop(children: Seq<Child>)
    ensures
        aggregated(DesiredState::Stopped, children) is Stopped || aggregated(
            DesiredState::Stopped,
            children,
        ) is Stopping,
{
}

/// A child that should not run never changes its parent's state.
pub proof fn law_unwanted_children_do_not_count(
    desired: DesiredState,
    children: Seq<Child>,
    child: Child,
)
    requires
        child.desired == DesiredState::Stopped,
    ensures
        aggregated(desired, children.push(child)) == aggregated(desired, children),
{
    let more = children.push(child);
    assert forall|i: int| 0 <= i < children.len() implies more[i] == children[i] by {}
    assert(more[children.len() as int] == child);
    if any_up(children) {
        let i = choose|i: int|
            0 <= i < children.len() && counts(#[trigger] children[i]) && (children[i].actual
                == ActualState::Running || children[i].actual == ActualState::Stopping);
        assert(counts(more[i]));
    }
    if any_up(more) {
        let i = choose|i: int|
            0 <= i < more.len() && counts(#[trigger] more[i]) && (more[i].actual
                == ActualState::Running || more[i].actual == ActualState::Stopping);
        assert(counts(children[i]));
    }
    assert forall|i: int| 0 <= i < children.len() implies counts(#[trigger] children[i]) == counts(
        more[i],
    ) by {}
}

/// A parent that should run does exactly when every child that should run
/// does. It starts while all of them start, has failed when all of them
/// failed, and is degraded between these.
pub proof fn law_parents_run_when_all_children_do(children: Seq<Child>)
    ensures
        aggregated(DesiredState::Running, children) is Running <==> forall|i: int|
            0 <= i < children.len() && (#[trigger] children[i]).desired is Running
                ==> children[i].actual is Running,
        aggregated(DesiredState::Running, children) is Starting ==> forall|i: int|
            0 <= i < children.len() && (#[trigger] children[i]).desired is Running
                ==> children[i].actual is Starting || children[i].actual is Pending,
        aggregated(DesiredState::Running, children) is Failed ==> forall|i: int|
            0 <= i < children.len() && (#[trigger] children[i]).desired is Running
                ==> children[i].actual is Failed || children[i].actual is Denied,
        forall|i: int, j: int|
            0 <= i < children.len() && 0 <= j < children.len() && (
            #[trigger] children[i]).desired is Running && (#[trigger] children[j]).desired is Running
                && children[i].actual is Running && (children[j].actual is Failed
                || children[j].actual is Starting || children[j].actual is Stopped)
                ==> aggregated(DesiredState::Running, children) is Degraded,
{
    assert forall|i: int, j: int|
        0 <= i < children.len() && 0 <= j < children.len() && (
        #[trigger] children[i]).desired is Running && (#[trigger] children[j]).desired is Running
            && children[i].actual is Running && (children[j].actual is Failed
            || children[j].actual is Starting || children[j].actual is Stopped) implies aggregated(
        DesiredState::Running,
        children,
    ) is Degraded by {
        assert(counts(children[i]));
        assert(counts(children[j]));
    }
    assert forall|i: int| 0 <= i < children.len() implies counts(#[trigger] children[i]) == (
    children[i].desired is Running) by {}
    if forall|i: int|
        0 <= i < children.len() && (#[trigger] children[i]).desired is Running
            ==> children[i].actual is Running {
        assert(all_running(children));
    }
}

/// A parent that should be stopped is stopping exactly while a child that
/// should run is still up.
pub proof fn law_parents_stop_with_their_children(children: Seq<Child>)
    ensures
        aggregated(DesiredState::Stopped, children) is Stopping <==> exists|i: int|
            0 <= i < children.len() && (#[trigger] children[i]).desired is Running && (
            children[i].actual is Running || children[i].actual is Stopping),
{
    if any_up(children) {
        let i = choose|i: int|
            0 <= i < children.len() && counts(#[trigger] children[i]) && (children[i].actual
                == ActualState::Running || children[i].actual == ActualState::Stopping);
        assert(children[i].desired is Running);
    }
    if exists|i: int|
        0 <= i < children.len() && (#[trigger] children[i]).desired is Running && (
        children[i].actual is Running || children[i].actual is Stopping) {
        let i = choose|i: int|
            0 <= i < children.len() && (#[trigger] children[i]).desired is Running && (
            children[i].actual is Running || children[i].actual is Stopping);
        assert(counts(children[i]));
    }
}

/// A parent is unhealthy with any child and healthy only with all.
pub proof fn law_one_unhealthy_child_is_enough(values: Seq<Health>)
    ensures
        combined_health(values) is Unhealthy <==> exists|i: int|
            0 <= i < values.len() && (#[trigger] values[i]) is Unhealthy,
        combined_health(values) is Healthy <==> forall|i: int|
            0 <= i < values.len() ==> (#[trigger] values[i]) is Healthy,
{
    if values.contains(Health::Unhealthy) {
        let i = choose|i: int| 0 <= i < values.len() && values[i] == Health::Unhealthy;
        assert(values[i] is Unhealthy);
    }
}

/// A workload shows the state of what runs; with nothing running a task
/// waits and a service is stopped.
pub proof fn law_workloads_show_what_runs(
    kind: WorkloadKind,
    runtime: Option<WorkloadRuntime>,
    accepts: Seq<bool>,
)
    ensures
        runtime matches Some(running) ==> running.state matches Some(state) ==> shown_state(
            kind,
            runtime,
        ) == state,
        runtime is None && kind is Task ==> shown_state(kind, runtime) is Pending,
        runtime is None && kind is Service ==> shown_state(kind, runtime) is Stopped,
        runtime matches Some(running) ==> running.health matches Some(health) ==> (
        kind is Service && running.state == Some(ActualState::Running) ==> shown_health(
            kind,
            runtime,
            accepts,
        ) == health),
{
}

/// Whether a child is a workload, seen from its project.
pub open spec fn is_seen_as(workload: WorkloadView, child: Child) -> bool {
    child.desired == workload.desired_state && child.actual == workload.actual_state
}

/// A project counts its services and no task: each service once, with what
/// is wanted of it, what it is and how healthy it is.
pub proof fn law_projects_count_their_services(workloads: Seq<WorkloadView>, n: nat, i: int)
    requires
        n <= workloads.len(),
    ensures
        services_upto(workloads, n).len() == health_upto(workloads, n).len(),
        services_upto(workloads, n).len() <= n,
        0 <= i < n && workloads[i].kind is Service ==> exists|k: int|
            0 <= k < services_upto(workloads, n).len() && is_seen_as(
                workloads[i],
                #[trigger] services_upto(workloads, n)[k],
            ) && health_upto(workloads, n)[k] == workloads[i].health,
        0 <= i < services_upto(workloads, n).len() ==> exists|k: int|
            0 <= k < n && (#[trigger] workloads[k]).kind is Service && is_seen_as(
                workloads[k],
                services_upto(workloads, n)[i],
            ) && health_upto(workloads, n)[i] == workloads[k].health,
    decreases n,
{
    if n > 0 {
        law_projects_count_their_services(workloads, (n - 1) as nat, i);
        let before = services_upto(workloads, (n - 1) as nat);
        let after = services_upto(workloads, n);
        let health = health_upto(workloads, (n - 1) as nat);
        if 0 <= i < n && workloads[i].kind is Service {
            if i < n - 1 {
                let k = choose|k: int|
                    0 <= k < before.len() && is_seen_as(workloads[i], #[trigger] before[k])
                        && health[k] == workloads[i].health;
                assert(after[k] == before[k]);
                assert(is_seen_as(workloads[i], after[k]));
            } else {
                assert(is_seen_as(workloads[i], after[after.len() - 1]));
            }
        }
        if 0 <= i < after.len() {
            if i < before.len() {
                let k = choose|k: int|
                    0 <= k < n - 1 && (#[trigger] workloads[k]).kind is Service && is_seen_as(
                        workloads[k],
                        before[i],
                    ) && health[i] == workloads[k].health;
                assert(after[i] == before[i]);
                assert(0 <= k < n && workloads[k].kind is Service);
            } else {
                assert(workloads[n - 1].kind is Service);
            }
        }
    }
}

/// Nothing of a project is wanted while its environment is stopped;
/// otherwise what the project wants.
pub proof fn law_stopped_environments_want_nothing(
    environment: EnvironmentRecord,
    membership: EnvironmentProjectRecord,
)
    ensures
        environment.desired_state is Stopped ==> effective_state(
            environment,
            membership,
        ) is Stopped,
        environment.desired_state is Running ==> effective_state(environment, membership)
            == membership.desired_state,
{
}

/// A project is shown as it is: under its names, with the revision and
/// release current there, its configuration, and all of its workloads.
pub proof fn law_projects_are_shown_as_they_are(
    view: ProjectView,
    desired: Desired,
    environment: Seq<char>,
    project: Seq<char>,
    workloads: Seq<WorkloadView>,
    disk_bytes: u64,
)
    requires
        is_project_view(view, desired, environment, project, workloads, disk_bytes),
    ensures
        ({
            let membership = desired.memberships@[key2(environment, project)].value;
            &&& view.name@ == project
            &&& view.environment@ == environment
            &&& view.project_id == membership.project_id
            &&& view.desired_state == membership.desired_state
            &&& view.workloads@ == workloads
            &&& view.workload_count == workloads.len()
            &&& view.disk_bytes == disk_bytes
            &&& view.config.rows() == membership.config.rows()
            &&& view.deployment matches Some(summary) ==> membership.deployment_id matches Some(id)
                && desired.deployments@.contains_key(key1(id@)) && summary.status
                == desired.deployments@[key1(id@)].value.status && summary.version
                == desired.deployments@[key1(id@)].value.version && summary.deployment_id
                == desired.deployments@[key1(id@)].id
            &&& membership.deployment_id is None ==> view.deployment is None && view.deployed_at
                == membership.updated_at
            &&& membership.revision_id is None ==> view.revision@ == ""@ && view.revision_id@
                == ""@
            &&& membership.revision_id matches Some(id) ==> view.revision_id@ == id@ && (
            desired.memberships@.contains_key(key2(environment, project))
                && desired.revisions@.contains_key(key1(id@)) ==> view.revision
                == desired.revisions@[key1(id@)].revision && view.revision_digest
                == desired.revisions@[key1(id@)].revision_digest)
        }),
{
}

/// An environment's counts are the sums of its projects' counts.
pub proof fn law_environments_add_up_their_projects(
    view: EnvironmentView,
    record: Stored<EnvironmentRecord>,
    projects: Seq<ProjectView>,
    policy_id: Seq<char>,
    disk_bytes: u64,
)
    requires
        is_environment_view(view, record, projects, policy_id, disk_bytes),
    ensures
        view.environment_id == record.id,
        view.name == record.value.name,
        view.desired_state == record.value.desired_state,
        view.created_at == record.value.created_at,
        view.provider == record.value.provider,
        view.policy_id@ == policy_id,
        view.disk_bytes == disk_bytes,
        view.projects@ == projects,
        view.project_count == projects.len(),
        view.workload_count == projects.fold_left(
            0int,
            |total: int, project: ProjectView| total + project.workload_count,
        ),
        view.service_count == projects.fold_left(
            0int,
            |total: int, project: ProjectView| total + project.service_count,
        ),
{
    lemma_totals_add_up(projects, projects.len());
    assert(projects.take(projects.len() as int) =~= projects);
}

proof fn lemma_totals_add_up(projects: Seq<ProjectView>, n: nat)
    requires
        n <= projects.len(),
    ensures
        workload_total(projects, n) == projects.take(n as int).fold_left(
            0int,
            |total: int, project: ProjectView| total + project.workload_count,
        ),
        service_total(projects, n) == projects.take(n as int).fold_left(
            0int,
            |total: int, project: ProjectView| total + project.service_count,
        ),
    decreases n,
{
    if n > 0 {
        lemma_totals_add_up(projects, (n - 1) as nat);
        assert(projects.take(n as int).drop_last() =~= projects.take(n - 1));
    }
}

/// An environment shows every project that is in it and no other, in order
/// of its members; a project shows its environments so too.
pub proof fn law_memberships_show_both_ways(
    members: Seq<((String, String), Stored<EnvironmentProjectRecord>)>,
    environment: Seq<char>,
    project: Seq<char>,
    n: nat,
)
    requires
        n <= members.len(),
    ensures
        projects_upto(members, environment, n).contains(project) <==> exists|i: int|
            0 <= i < n && (#[trigger] members[i]).0.0@ == environment && members[i].0.1@ == project,
        environments_upto(members, project, n).contains(environment) <==> exists|i: int|
            0 <= i < n && (#[trigger] members[i]).0.0@ == environment && members[i].0.1@ == project,
    decreases n,
{
    if n > 0 {
        law_memberships_show_both_ways(members, environment, project, (n - 1) as nat);
        let held = projects_upto(members, environment, (n - 1) as nat);
        let shown = projects_upto(members, environment, n);
        let places = environments_upto(members, project, (n - 1) as nat);
        let all = environments_upto(members, project, n);
        let last = members[n - 1].0;
        if held.contains(project) {
            let k = choose|k: int| 0 <= k < held.len() && held[k] == project;
            assert(shown[k] == project);
        }
        if places.contains(environment) {
            let k = choose|k: int| 0 <= k < places.len() && places[k] == environment;
            assert(all[k] == environment);
        }
        if last.0@ == environment && last.1@ == project {
            assert(shown[shown.len() - 1] == project);
            assert(all[all.len() - 1] == environment);
            assert(members[n - 1].0.0@ == environment);
        }
        if shown.contains(project) {
            let k = choose|k: int| 0 <= k < shown.len() && shown[k] == project;
            if k < held.len() {
                assert(held[k] == project);
            } else {
                assert(members[n - 1].0.0@ == environment);
            }
        }
        if all.contains(environment) {
            let k = choose|k: int| 0 <= k < all.len() && all[k] == environment;
            if k < places.len() {
                assert(places[k] == environment);
            } else {
                assert(members[n - 1].0.0@ == environment);
            }
        }
    }
}

/// A filter lets an event through exactly when the event is of everything
/// the filter names, and after the number it names.
pub proof fn law_filters_let_through_what_they_name(filter: EventFilter, event: EventRecord)
    ensures
        filter.after is None && filter.environment is None && filter.project is None
            && filter.deployment_id is None ==> filter.lets_through(event),
        filter.lets_through(event) ==> (filter.after matches Some(after) ==> event.sequence
            > after),
        filter.lets_through(event) ==> (filter.environment matches Some(environment)
            ==> event.scope.environment matches Some(held) && held@ == environment@),
        filter.lets_through(event) ==> (filter.project matches Some(project)
            ==> event.scope.project matches Some(held) && held@ == project@),
        filter.lets_through(event) ==> (filter.deployment_id matches Some(id)
            ==> event.scope.deployment_id matches Some(held) && held@ == id@),
        !filter.lets_through(event) ==> (filter.after matches Some(after) && event.sequence
            <= after) || (filter.environment is Some && opt_text(event.scope.environment)
            != opt_text(filter.environment)) || (filter.project is Some && opt_text(
            event.scope.project,
        ) != opt_text(filter.project)) || (filter.deployment_id is Some && opt_text(
            event.scope.deployment_id,
        ) != opt_text(filter.deployment_id)),
        filter.asks().limit <= 1000,
        filter.limit is None ==> filter.asks().limit == 200,
        filter.limit matches Some(limit) ==> limit <= 1000 ==> filter.asks().limit == limit,
        filter.asks().ascending <==> filter.after is Some,
{
}

/// As many units run as there are ones whose state says so.
pub proof fn law_running_units_are_counted(units: Seq<WorkloadRuntime>, n: nat)
    requires
        n <= units.len(),
    ensures
        running_count(units, n) == units.take(n as int).filter(
            |unit: WorkloadRuntime| unit.state == Some(ActualState::Running),
        ).len(),
    decreases n,
{
    reveal(Seq::filter);
    if n > 0 {
        law_running_units_are_counted(units, (n - 1) as nat);
        assert(units.take(n as int).drop_last() =~= units.take(n - 1));
    }
}

/// What is kept of an execution's output is its own; of one that was
/// forgotten there is none.
pub proof fn law_output_is_the_executions_own(
    outputs: Map<Seq<Seq<char>>, (String, String)>,
    id: Seq<char>,
    stdout: String,
    stderr: String,
)
    ensures
        kept_output(outputs.insert(seq![id], (stdout, stderr)), id) == (stdout@, stderr@),
        kept_output(outputs.remove(seq![id]), id) == (""@, ""@),
{
    assert(key1(id) =~= seq![id]);
}

/// A workload is shown as it is recorded and as it runs.
pub proof fn law_workloads_are_shown_as_they_are(
    view: WorkloadView,
    record: Stored<WorkloadRecord>,
    runtime: Option<WorkloadRuntime>,
    sight: WorkloadSight,
)
    requires
        is_workload_view(view, record, runtime, sight),
    ensures
        view.workload_id == record.id,
        view.name == record.value.name,
        view.kind == record.value.kind,
        view.desired_state == record.value.desired_state,
        view.restart == record.value.restart,
        view.runtime == record.value.runtime,
        view.bundle_id == record.value.bundle_id,
        view.deployment_id == record.value.deployment_id,
        view.ports@ == record.value.ports@,
        view.resources.disk_bytes == sight.disk_bytes,
        runtime is None ==> view.restarts == 0 && view.execution_id is None
            && view.started_at is None && view.error is None,
        runtime matches Some(running) ==> view.restarts == running.restarts && view.execution_id
            == running.execution_id && view.started_at == running.started_at && view.finished_at
            == running.finished_at && view.exit_code == running.exit_code && view.error
            == running.error && view.placement == running.placement && view.log_directory
            == running.log_directory && view.evidence.receipt_ids@
            == running.evidence.receipt_ids@ && view.evidence.policy_id
            == running.evidence.policy_id && view.evidence.admission_id
            == running.evidence.admission_id,
        runtime is None ==> view.finished_at is None && view.exit_code is None
            && view.placement.provider is None && view.placement.node is None
            && view.placement.placement_id is None && view.evidence.policy_id is None
            && view.evidence.admission_id is None && view.evidence.receipt_ids@.len() == 0
            && view.log_directory is None,
        sight.declared matches Some(declared) ==> view.resources.memory_limit_bytes
            == declared.memory_bytes && view.resources.timeout_ms == declared.wall_time_ms
            && view.resources.network == declared.network,
        runtime matches Some(running) ==> running.state matches Some(state) ==> view.actual_state
            == state,
{
}

/// What runs as a workload is the unit of its current deployment.
pub proof fn law_workloads_run_as_their_current_unit(
    runtime: Map<Seq<Seq<char>>, WorkloadRuntime>,
    record: WorkloadRecord,
    key: Key,
    unit: WorkloadRuntime,
)
    ensures
        ({
            let own = seq![key.0@, key.1@, key.2@, record.deployment_id@];
            &&& runtime_of(runtime.insert(own, unit), record, key) == Some(unit)
            &&& runtime_of(runtime.remove(own), record, key) is None
        }),
{
    let own = seq![key.0@, key.1@, key.2@, record.deployment_id@];
    assert(key4(key.0@, key.1@, key.2@, record.deployment_id@) =~= own);
}

/// An instance is shown with its own record and the state of its own unit.
pub proof fn law_instances_are_shown_as_they_run(
    view: InstanceView,
    runtime: Map<Seq<Seq<char>>, WorkloadRuntime>,
    instance: Stored<WorkloadInstanceRecord>,
    open_connections: usize,
)
    requires
        is_instance_view(view, runtime, instance, open_connections),
    ensures
        view.instance_id == instance.id,
        view.record == instance.value,
        view.open_connections == open_connections,
        ({
            let unit = seq![
                instance.value.environment@,
                instance.value.project@,
                instance.value.workload@,
                instance.value.deployment_id@,
            ];
            &&& runtime.contains_key(unit) ==> view.actual_state == runtime[unit].state
            &&& !runtime.contains_key(unit) ==> view.actual_state is None
        }),
{
    assert(key4(
        instance.value.environment@,
        instance.value.project@,
        instance.value.workload@,
        instance.value.deployment_id@,
    ) =~= seq![
        instance.value.environment@,
        instance.value.project@,
        instance.value.workload@,
        instance.value.deployment_id@,
    ]);
}

/// A release is summed up as it is recorded.
pub proof fn law_summaries_say_what_is_recorded(
    summary: DeploymentSummary,
    deployment: Stored<DeploymentRecord>,
)
    requires
        is_summary(summary, deployment),
    ensures
        summary.deployment_id == deployment.id,
        summary.version == deployment.value.version,
        summary.status == deployment.value.status,
        summary.revision == deployment.value.revision,
        summary.created_at == deployment.value.created_at,
        summary.updated_at == deployment.value.updated_at,
        summary.promoted_from == deployment.value.promoted_from,
{
}

/// An environment is in the state and health that its projects put it in.
pub proof fn law_environments_are_as_their_projects(
    view: EnvironmentView,
    record: Stored<EnvironmentRecord>,
    projects: Seq<ProjectView>,
    policy_id: Seq<char>,
    disk_bytes: u64,
)
    requires
        is_environment_view(view, record, projects, policy_id, disk_bytes),
    ensures
        view.config.rows() == record.value.config.rows(),
        view.health is Unhealthy <==> exists|i: int|
            0 <= i < projects.len() && (#[trigger] projects[i]).health is Unhealthy,
        record.value.desired_state is Running ==> (view.actual_state is Running <==> forall|i: int|
            0 <= i < projects.len() && (#[trigger] projects[i]).desired_state is Running
                ==> projects[i].actual_state is Running),
        record.value.desired_state is Stopped ==> view.actual_state is Stopped
            || view.actual_state is Stopping,
{
    let health = project_health(projects);
    let children = project_children(projects);
    assert(health.len() == projects.len());
    assert(children.len() == projects.len());
    law_one_unhealthy_child_is_enough(health);
    law_parents_run_when_all_children_do(children);
    assert forall|i: int| 0 <= i < projects.len() implies health[i] == (
    #[trigger] projects[i]).health && children[i].desired == projects[i].desired_state
        && children[i].actual == projects[i].actual_state by {}
    if exists|i: int| 0 <= i < health.len() && (#[trigger] health[i]) is Unhealthy {
        let i = choose|i: int| 0 <= i < health.len() && (#[trigger] health[i]) is Unhealthy;
        assert(projects[i].health is Unhealthy);
    }
    if exists|i: int| 0 <= i < projects.len() && (#[trigger] projects[i]).health is Unhealthy {
        let i = choose|i: int|
            0 <= i < projects.len() && (#[trigger] projects[i]).health is Unhealthy;
        assert(health[i] is Unhealthy);
    }
    if forall|i: int|
        0 <= i < projects.len() && (#[trigger] projects[i]).desired_state is Running
            ==> projects[i].actual_state is Running {
        assert forall|i: int|
            0 <= i < children.len() && (#[trigger] children[i]).desired is Running implies
            children[i].actual is Running by {
            assert(projects[i].desired_state is Running);
        }
    }
    if forall|i: int|
        0 <= i < children.len() && (#[trigger] children[i]).desired is Running
            ==> children[i].actual is Running {
        assert forall|i: int|
            0 <= i < projects.len() && (#[trigger] projects[i]).desired_state is Running implies
            projects[i].actual_state is Running by {
            assert(children[i].desired is Running);
        }
    }
}

} // verus!
