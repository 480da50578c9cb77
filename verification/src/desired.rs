//! Desired state as last read from control state, and the questions asked
//! of it.

use vstd::prelude::*;

use crate::events::{copy_key, Key};
use crate::model::DesiredState;
use crate::search::{found, lemma_first, matching, positions};
use crate::state::{
    CertificateRecord, DeploymentRecord, DnsRecordRecord, DomainRecord, EnvironmentProjectRecord,
    EnvironmentRecord, InstanceState, ProjectRecord, ProjectRevisionRecord, RevisionWorkload,
    Stored, TrafficAssignmentRecord, WorkloadInstanceRecord, WorkloadRecord,
};
use crate::table::{
    find_item, find_value, key1, key2, key3, key4, lemma_less4, select, select_rows, MapKey, Table,
    Test,
};
use crate::text::{less, same};

verus! {

/// What runs: a workload at one deployment's revision. A service has one
/// unit per instance; during a release the serving instance and the
/// candidate run side by side.
#[derive(Debug, PartialEq, Eq)]
pub struct Unit {
    pub key: Key,
    pub deployment_id: String,
}

impl Clone for Unit {
    fn clone(&self) -> (r: Self)
        ensures
            r == *self,
    {
        Unit { key: copy_key(&self.key), deployment_id: self.deployment_id.clone() }
    }
}

impl Unit {
    pub fn new(key: &Key, deployment_id: &str) -> (r: Self)
        ensures
            r.key == *key,
            r.deployment_id@ == deployment_id@,
    {
        Unit { key: copy_key(key), deployment_id: deployment_id.to_owned() }
    }
}

impl MapKey for Unit {
    open spec fn parts(&self) -> Seq<Seq<char>> {
        key4(self.key.0@, self.key.1@, self.key.2@, self.deployment_id@)
    }

    fn precedes(&self, other: &Self) -> (r: bool) {
        proof {
            lemma_less4(
                self.key.0@,
                self.key.1@,
                self.key.2@,
                self.deployment_id@,
                other.key.0@,
                other.key.1@,
                other.key.2@,
                other.deployment_id@,
            );
        }
        if !same(&self.key.0, &other.key.0) {
            less(&self.key.0, &other.key.0)
        } else if !same(&self.key.1, &other.key.1) {
            less(&self.key.1, &other.key.1)
        } else if !same(&self.key.2, &other.key.2) {
            less(&self.key.2, &other.key.2)
        } else {
            less(&self.deployment_id, &other.deployment_id)
        }
    }

    fn matches(&self, other: &Self) -> (r: bool) {
        proof {
            assert(self.parts()[0] == self.key.0@ && self.parts()[1] == self.key.1@
                && self.parts()[2] == self.key.2@ && self.parts()[3] == self.deployment_id@);
            assert(other.parts()[0] == other.key.0@ && other.parts()[1] == other.key.1@
                && other.parts()[2] == other.key.2@ && other.parts()[3] == other.deployment_id@);
        }
        same(&self.key.0, &other.key.0) && same(&self.key.1, &other.key.1) && same(
            &self.key.2,
            &other.key.2,
        ) && same(&self.deployment_id, &other.deployment_id)
    }
}

/// Whether an instance should run.
#[derive(Debug, Clone, Copy, PartialEq, Eq, Structural)]
pub enum Want {
    Run,
    /// Draining: keep it while it finishes, but never start it again.
    KeepIfRunning,
    Stop,
}

/// Desired state.
pub struct Desired {
    pub environments: Table<String, Stored<EnvironmentRecord>>,
    pub projects: Table<String, Stored<ProjectRecord>>,
    /// By environment and project.
    pub memberships: Table<(String, String), Stored<EnvironmentProjectRecord>>,
    pub workloads: Table<Key, Stored<WorkloadRecord>>,
    /// Current deployments and every release in flight.
    pub deployments: Table<String, Stored<DeploymentRecord>>,
    pub revisions: Table<String, ProjectRevisionRecord>,
    pub instances: Table<String, Stored<WorkloadInstanceRecord>>,
    /// Traffic assignments by endpoint.
    pub traffic: Table<String, Stored<TrafficAssignmentRecord>>,
    /// Domains by name.
    pub domains: Table<String, Stored<DomainRecord>>,
    pub dns_records: Table<String, Stored<DnsRecordRecord>>,
    /// Certificates by domain.
    pub certificates: Table<String, Stored<CertificateRecord>>,
}

// ---- Tests on records -------------------------------------------------------

pub open spec fn environment_has_id(id: Seq<char>) -> spec_fn(Stored<EnvironmentRecord>) -> bool {
    |record: Stored<EnvironmentRecord>| record.id@ == id
}

struct EnvironmentHasId<'a> {
    id: &'a str,
}

impl<'a> Test<Stored<EnvironmentRecord>> for EnvironmentHasId<'a> {
    closed spec fn pred(&self) -> spec_fn(Stored<EnvironmentRecord>) -> bool {
        environment_has_id(self.id@)
    }

    fn test(&self, item: &Stored<EnvironmentRecord>) -> (r: bool) {
        same(&item.id, self.id)
    }
}

pub open spec fn workload_in(environment: Seq<char>, project: Seq<char>) -> spec_fn(
    (Key, Stored<WorkloadRecord>),
) -> bool {
    |row: (Key, Stored<WorkloadRecord>)| row.0.0@ == environment && row.0.1@ == project
}

/// Selects the workloads of a project in an environment, by their keys.
pub struct WorkloadIn<'a> {
    pub environment: &'a str,
    pub project: &'a str,
}

impl<'a> Test<(Key, Stored<WorkloadRecord>)> for WorkloadIn<'a> {
    open spec fn pred(&self) -> spec_fn((Key, Stored<WorkloadRecord>)) -> bool {
        workload_in(self.environment@, self.project@)
    }

    fn test(&self, item: &(Key, Stored<WorkloadRecord>)) -> (r: bool) {
        same(&item.0.0, self.environment) && same(&item.0.1, self.project)
    }
}

pub open spec fn instance_of(
    environment: Seq<char>,
    project: Seq<char>,
    workload: Seq<char>,
    deployment_id: Seq<char>,
) -> spec_fn(Stored<WorkloadInstanceRecord>) -> bool {
    |record: Stored<WorkloadInstanceRecord>|
        {
            &&& record.value.deployment_id@ == deployment_id
            &&& record.value.environment@ == environment
            &&& record.value.project@ == project
            &&& record.value.workload@ == workload
        }
}

struct InstanceOf<'a> {
    key: &'a Key,
    deployment_id: &'a str,
}

impl<'a> Test<Stored<WorkloadInstanceRecord>> for InstanceOf<'a> {
    closed spec fn pred(&self) -> spec_fn(Stored<WorkloadInstanceRecord>) -> bool {
        instance_of(self.key.0@, self.key.1@, self.key.2@, self.deployment_id@)
    }

    fn test(&self, item: &Stored<WorkloadInstanceRecord>) -> (r: bool) {
        same(&item.value.deployment_id, self.deployment_id) && same(
            &item.value.environment,
            &self.key.0,
        ) && same(&item.value.project, &self.key.1) && same(&item.value.workload, &self.key.2)
    }
}

pub open spec fn revision_workload_named(name: Seq<char>) -> spec_fn(RevisionWorkload) -> bool {
    |workload: RevisionWorkload| workload.name@ == name
}

/// Selects a revision's workload by name.
pub struct RevisionWorkloadNamed<'a> {
    pub name: &'a str,
}

impl<'a> Test<RevisionWorkload> for RevisionWorkloadNamed<'a> {
    open spec fn pred(&self) -> spec_fn(RevisionWorkload) -> bool {
        revision_workload_named(self.name@)
    }

    fn test(&self, item: &RevisionWorkload) -> (r: bool) {
        same(&item.name, self.name)
    }
}

pub open spec fn not_ended() -> spec_fn(Stored<DeploymentRecord>) -> bool {
    |deployment: Stored<DeploymentRecord>| !deployment.value.status.terminal()
}

struct NotEnded {}

impl Test<Stored<DeploymentRecord>> for NotEnded {
    closed spec fn pred(&self) -> spec_fn(Stored<DeploymentRecord>) -> bool {
        not_ended()
    }

    fn test(&self, item: &Stored<DeploymentRecord>) -> (r: bool) {
        !item.value.status.is_terminal()
    }
}

// ---- Questions --------------------------------------------------------------

impl Desired {
    /// The environment with a name, or else the first with an identifier.
    pub open spec fn environment_named(self, name_or_id: Seq<char>) -> Option<
        Stored<EnvironmentRecord>,
    > {
        if self.environments@.contains_key(key1(name_or_id)) {
            Some(self.environments@[key1(name_or_id)])
        } else {
            found(self.environments.values(), environment_has_id(name_or_id))
        }
    }

    pub fn environment(&self, name_or_id: &str) -> (r: Option<&Stored<EnvironmentRecord>>)
        ensures
            match r {
                Some(record) => self.environment_named(name_or_id@) == Some(*record),
                None => self.environment_named(name_or_id@) is None,
            },
    {
        match self.environments.at(name_or_id) {
            Some(record) => Some(record),
            None => find_value(&self.environments, &EnvironmentHasId { id: name_or_id }),
        }
    }

    /// The positions of a project's workloads in an environment.
    pub fn workloads_of(&self, environment: &str, project: &str) -> (r: Vec<usize>)
        ensures
            positions(r@) == matching(self.workloads.rows(), workload_in(environment@, project@)),
            forall|i: int|
                0 <= i < r@.len() ==> (#[trigger] r@[i]) < self.workloads.rows().len()
                    && workload_in(environment@, project@)(self.workloads.rows()[r@[i] as int]),
    {
        select_rows(&self.workloads, &WorkloadIn { environment, project })
    }

    /// Whether an environment and a project in it are meant to run.
    pub open spec fn project_is_running(self, environment: Seq<char>, project: Seq<char>) -> bool {
        &&& self.memberships@.contains_key(key2(environment, project))
        &&& self.memberships@[key2(environment, project)].value.desired_state
            == DesiredState::Running
        &&& self.environments@.contains_key(key1(environment))
        &&& self.environments@[key1(environment)].value.desired_state == DesiredState::Running
    }

    pub fn membership_of(&self, environment: &str, project: &str) -> (r: Option<
        &Stored<EnvironmentProjectRecord>,
    >)
        ensures
            match r {
                Some(record) => self.memberships@.contains_key(key2(environment@, project@))
                    && *record == self.memberships@[key2(environment@, project@)],
                None => !self.memberships@.contains_key(key2(environment@, project@)),
            },
    {
        self.memberships.get(&(environment.to_owned(), project.to_owned()))
    }

    /// Whether an environment and a project in it are running.
    pub fn project_runs(&self, environment: &str, project: &str) -> (r: bool)
        ensures
            r == self.project_is_running(environment@, project@),
    {
        match self.membership_of(environment, project) {
            Some(membership) => {
                if membership.value.desired_state != DesiredState::Running {
                    return false;
                }
            },
            None => {
                return false;
            },
        }
        match self.environments.at(environment) {
            Some(record) => record.value.desired_state == DesiredState::Running,
            None => false,
        }
    }

    /// The revision a deployment released.
    pub open spec fn revision_for(self, deployment_id: Seq<char>) -> Option<ProjectRevisionRecord> {
        if self.deployments@.contains_key(key1(deployment_id)) {
            let revision_id = self.deployments@[key1(deployment_id)].value.revision_id@;
            if self.revisions@.contains_key(key1(revision_id)) {
                Some(self.revisions@[key1(revision_id)])
            } else {
                None
            }
        } else {
            None
        }
    }

    pub fn revision_of(&self, deployment_id: &str) -> (r: Option<&ProjectRevisionRecord>)
        ensures
            match r {
                Some(revision) => self.revision_for(deployment_id@) == Some(*revision),
                None => self.revision_for(deployment_id@) is None,
            },
    {
        match self.deployments.at(deployment_id) {
            Some(deployment) => self.revisions.at(&deployment.value.revision_id),
            None => None,
        }
    }

    /// A workload of the revision a deployment released.
    pub open spec fn released_workload(self, deployment_id: Seq<char>, workload: Seq<char>) -> Option<
        RevisionWorkload,
    > {
        match self.revision_for(deployment_id) {
            Some(revision) => found(revision.workloads@, revision_workload_named(workload)),
            None => None,
        }
    }

    pub fn revision_workload(&self, deployment_id: &str, workload: &str) -> (r: Option<
        &RevisionWorkload,
    >)
        ensures
            match r {
                Some(record) => self.released_workload(deployment_id@, workload@) == Some(*record),
                None => self.released_workload(deployment_id@, workload@) is None,
            },
    {
        match self.revision_of(deployment_id) {
            Some(revision) => find_item(
                &revision.workloads,
                &RevisionWorkloadNamed { name: workload },
            ),
            None => None,
        }
    }

    /// What the operator wants of a workload itself: its own desired state,
    /// or, for a workload a release introduces, its revision's.
    pub open spec fn wanted_of(
        self,
        environment: Seq<char>,
        project: Seq<char>,
        workload: Seq<char>,
        deployment_id: Seq<char>,
    ) -> DesiredState {
        if self.workloads@.contains_key(key3(environment, project, workload)) {
            self.workloads@[key3(environment, project, workload)].value.desired_state
        } else {
            match self.released_workload(deployment_id, workload) {
                Some(released) => released.desired_state,
                None => DesiredState::Running,
            }
        }
    }

    /// Whether a workload's services should run.
    pub open spec fn should_run(
        self,
        environment: Seq<char>,
        project: Seq<char>,
        workload: Seq<char>,
        deployment_id: Seq<char>,
    ) -> bool {
        &&& self.wanted_of(environment, project, workload, deployment_id) == DesiredState::Running
        &&& self.project_is_running(environment, project)
    }

    /// Whether a workload's services should run: the workload's own
    /// desired state, or, for a workload a release introduces, its
    /// revision's.
    pub fn workload_runs(&self, key: &Key, deployment_id: &str) -> (r: bool)
        ensures
            r == self.should_run(key.0@, key.1@, key.2@, deployment_id@),
    {
        let wanted = match self.workloads.get(key) {
            Some(workload) => workload.value.desired_state,
            None => match self.revision_workload(deployment_id, &key.2) {
                Some(workload) => workload.desired_state,
                None => DesiredState::Running,
            },
        };
        wanted == DesiredState::Running && self.project_runs(&key.0, &key.1)
    }

    pub fn instance_key(instance: &WorkloadInstanceRecord) -> (r: Key)
        ensures
            r == (instance.environment, instance.project, instance.workload),
    {
        (instance.environment.clone(), instance.project.clone(), instance.workload.clone())
    }

    /// Whether an instance should run now.
    pub open spec fn wants(self, instance: WorkloadInstanceRecord) -> Want {
        if !self.should_run(
            instance.environment@,
            instance.project@,
            instance.workload@,
            instance.deployment_id@,
        ) {
            Want::Stop
        } else {
            match instance.state {
                InstanceState::Starting => Want::Run,
                InstanceState::Ready => Want::Run,
                InstanceState::Serving => Want::Run,
                InstanceState::Draining => Want::KeepIfRunning,
                InstanceState::Stopped => Want::Stop,
                InstanceState::Failed => Want::Stop,
            }
        }
    }

    pub fn want(&self, instance: &WorkloadInstanceRecord) -> (r: Want)
        ensures
            r == self.wants(*instance),
    {
        let key = Desired::instance_key(instance);
        if !self.workload_runs(&key, &instance.deployment_id) {
            return Want::Stop;
        }
        match instance.state {
            InstanceState::Starting => Want::Run,
            InstanceState::Ready => Want::Run,
            InstanceState::Serving => Want::Run,
            InstanceState::Draining => Want::KeepIfRunning,
            InstanceState::Stopped => Want::Stop,
            InstanceState::Failed => Want::Stop,
        }
    }

    /// The instance of a workload at a deployment.
    pub open spec fn instance_at(
        self,
        environment: Seq<char>,
        project: Seq<char>,
        workload: Seq<char>,
        deployment_id: Seq<char>,
    ) -> Option<Stored<WorkloadInstanceRecord>> {
        found(
            self.instances.values(),
            instance_of(environment, project, workload, deployment_id),
        )
    }

    pub fn instance(&self, key: &Key, deployment_id: &str) -> (r: Option<
        &Stored<WorkloadInstanceRecord>,
    >)
        ensures
            match r {
                Some(record) => self.instance_at(key.0@, key.1@, key.2@, deployment_id@) == Some(
                    *record,
                ),
                None => self.instance_at(key.0@, key.1@, key.2@, deployment_id@) is None,
            },
    {
        find_value(&self.instances, &InstanceOf { key, deployment_id })
    }

    /// The positions of the releases that have not ended.
    pub fn in_flight(&self) -> (r: Vec<usize>)
        ensures
            positions(r@) == matching(self.deployments.values(), not_ended()),
            forall|i: int|
                0 <= i < r@.len() ==> (#[trigger] r@[i]) < self.deployments.values().len()
                    && not_ended()(self.deployments.values()[r@[i] as int]),
    {
        select(&self.deployments, &NotEnded {  })
    }
}

// ---- Laws -------------------------------------------------------------------

/// What one workload's operator wants never decides whether another's
/// instances run: an instance's fate depends on its environment, its
/// project's membership, its own workload and its own deployment alone.
pub proof fn law_siblings_are_unaffected(a: Desired, b: Desired, instance: WorkloadInstanceRecord)
    requires
        a.environments == b.environments,
        a.memberships == b.memberships,
        a.deployments == b.deployments,
        a.revisions == b.revisions,
        ({
            let key = key3(instance.environment@, instance.project@, instance.workload@);
            &&& a.workloads@.contains_key(key) == b.workloads@.contains_key(key)
            &&& a.workloads@.contains_key(key) ==> a.workloads@[key] == b.workloads@[key]
        }),
    ensures
        a.wants(instance) == b.wants(instance),
{
}

/// Stopping an environment or a project stops everything in it, whatever
/// its workloads want; an instance that drains, stopped or failed is never
/// started.
pub proof fn law_only_wanted_instances_start(desired: Desired, instance: WorkloadInstanceRecord)
    ensures
        desired.wants(instance) == Want::Run ==> {
            &&& desired.project_is_running(instance.environment@, instance.project@)
            &&& instance.state is Starting || instance.state is Ready || instance.state is Serving
        },
        !desired.project_is_running(instance.environment@, instance.project@) ==> desired.wants(
            instance,
        ) == Want::Stop,
{
}

/// An instance is started only when everything it belongs to is meant to
/// run: its environment, its project there, and its workload. It is stopped
/// when any of them is not, and kept while it drains only when all are.
pub proof fn law_every_level_must_want_it(desired: Desired, instance: WorkloadInstanceRecord)
    ensures
        ({
            let environment = key1(instance.environment@);
            let project = key2(instance.environment@, instance.project@);
            let workload = key3(instance.environment@, instance.project@, instance.workload@);
            let all = {
                &&& desired.environments@.contains_key(environment)
                &&& desired.environments@[environment].value.desired_state == DesiredState::Running
                &&& desired.memberships@.contains_key(project)
                &&& desired.memberships@[project].value.desired_state == DesiredState::Running
                &&& desired.workloads@.contains_key(workload)
                    ==> desired.workloads@[workload].value.desired_state == DesiredState::Running
                &&& !desired.workloads@.contains_key(workload) ==> (
                desired.released_workload(instance.deployment_id@, instance.workload@) matches Some(
                    released,
                ) ==> released.desired_state == DesiredState::Running)
            };
            let state = instance.state;
            &&& desired.wants(instance) == Want::Run <==> all && (state == InstanceState::Starting
                || state == InstanceState::Ready || state == InstanceState::Serving)
            &&& desired.wants(instance) == Want::KeepIfRunning <==> all && state
                == InstanceState::Draining
            &&& desired.wants(instance) == Want::Stop <==> !all || state == InstanceState::Stopped
                || state == InstanceState::Failed
        }),
{
}

/// A name means the environment of that name; only where none has it, the
/// first environment with that identifier.
pub proof fn law_names_come_before_identifiers(desired: Desired, name_or_id: Seq<char>)
    ensures
        desired.environments@.contains_key(key1(name_or_id)) ==> desired.environment_named(
            name_or_id,
        ) == Some(desired.environments@[key1(name_or_id)]),
        !desired.environments@.contains_key(key1(name_or_id)) ==> match desired.environment_named(
            name_or_id,
        ) {
            Some(environment) => environment.id@ == name_or_id
                && desired.environments.values().contains(environment),
            None => forall|i: int|
                0 <= i < desired.environments.values().len() ==> (
                #[trigger] desired.environments.values()[i]).id@ != name_or_id,
        },
{
    lemma_first(desired.environments.values(), environment_has_id(name_or_id));
}

/// The instance of a workload at a deployment is one of that environment,
/// that project, that workload and that deployment, and is found whenever
/// there is one.
pub proof fn law_instances_are_found_where_they_belong(
    desired: Desired,
    environment: Seq<char>,
    project: Seq<char>,
    workload: Seq<char>,
    deployment_id: Seq<char>,
)
    ensures
        match desired.instance_at(environment, project, workload, deployment_id) {
            Some(instance) => {
                &&& desired.instances.values().contains(instance)
                &&& instance.value.environment@ == environment
                &&& instance.value.project@ == project
                &&& instance.value.workload@ == workload
                &&& instance.value.deployment_id@ == deployment_id
            },
            None => forall|i: int|
                0 <= i < desired.instances.values().len() ==> {
                    let instance = (#[trigger] desired.instances.values()[i]).value;
                    ||| instance.environment@ != environment
                    ||| instance.project@ != project
                    ||| instance.workload@ != workload
                    ||| instance.deployment_id@ != deployment_id
                },
        },
{
    lemma_first(
        desired.instances.values(),
        instance_of(environment, project, workload, deployment_id),
    );
}

/// A deployment's workload is one of the revision that the deployment
/// released, by name.
pub proof fn law_workloads_come_from_the_released_revision(
    desired: Desired,
    deployment_id: Seq<char>,
    workload: Seq<char>,
)
    ensures
        match desired.released_workload(deployment_id, workload) {
            Some(released) => {
                let revision_id = desired.deployments@[key1(deployment_id)].value.revision_id@;
                &&& desired.deployments@.contains_key(key1(deployment_id))
                &&& desired.revisions@.contains_key(key1(revision_id))
                &&& desired.revisions@[key1(revision_id)].workloads@.contains(released)
                &&& released.name@ == workload
            },
            None => desired.deployments@.contains_key(key1(deployment_id))
                && desired.revisions@.contains_key(
                key1(desired.deployments@[key1(deployment_id)].value.revision_id@),
            ) ==> forall|i: int|
                0 <= i < desired.revisions@[key1(
                    desired.deployments@[key1(deployment_id)].value.revision_id@,
                )].workloads@.len() ==> (#[trigger] desired.revisions@[key1(
                    desired.deployments@[key1(deployment_id)].value.revision_id@,
                )].workloads@[i]).name@ != workload,
        },
{
    if let Some(revision) = desired.revision_for(deployment_id) {
        lemma_first(revision.workloads@, revision_workload_named(workload));
    }
}

} // verus!
