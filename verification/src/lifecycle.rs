//! Lifecycle operations on environments, projects and workloads: what each
//! writes to desired state, what it stops, and what it reports. Nothing that
//! a domain still routes to can be removed.

use vstd::prelude::*;

use crate::desired::{Desired, Unit};
use crate::digest::{parts_of, short_digest, short_digest_text};
use crate::error::{EnvironmentError, Refusal};
use crate::events::{
    environment_scope, fact, no_scope, project_scope, text_fact, workload_scope, Datum, DatumText,
    EventKind, FactText, Key, Notice, Scope, ScopeText,
};
use crate::execute::WorkloadRuntime;
use crate::model::{
    invalid_name_text, refused_entry_text, refused_row, valid_name, validate_env, validate_name,
    ActualState, DesiredState, EnvironmentDefinition, WorkloadKind,
};
use crate::runtime::is_active;
use crate::search::{first, found, lemma_first, lemma_matching_upto, matching, positions};
use crate::state::{
    DomainRecord, EnvironmentProjectRecord, EnvironmentRecord, Stored, TrafficAssignmentRecord,
    WorkloadInstanceRecord, WorkloadRecord,
};
use crate::table::{find_value, key1, key2, key3, select, select_rows, Keep, MapKey, Table, Test};
use crate::text::{copy_list, opt_text, same, signed_decimal, signed_text, texts};

verus! {

// ---- Words ------------------------------------------------------------------

pub open spec fn verb_text(desired: DesiredState, restart: bool) -> Seq<char> {
    if restart {
        "restarted"@
    } else if desired == DesiredState::Running {
        "started"@
    } else {
        "stopped"@
    }
}

/// What a change of desired state does, in a word.
pub fn verb(desired: DesiredState, restart: bool) -> (r: &'static str)
    ensures
        r@ == verb_text(desired, restart),
{
    if restart {
        "restarted"
    } else if desired == DesiredState::Running {
        "started"
    } else {
        "stopped"
    }
}

/// What is wanted, in a word.
pub open spec fn wanted_text(wanted: DesiredState) -> Seq<char> {
    match wanted {
        DesiredState::Running => "running"@,
        DesiredState::Stopped => "stopped"@,
    }
}

/// What is wanted, as a fact.
pub open spec fn wanted_facts(wanted: DesiredState) -> Seq<FactText> {
    seq![text_fact("desired_state"@, wanted_text(wanted))]
}

fn wanted_notice(kind: EventKind, scope: Scope, message: String, wanted: DesiredState) -> (r: Notice)
    ensures
        r.says(kind, scope@, message@, wanted_facts(wanted)),
{
    let word = match wanted {
        DesiredState::Running => "running",
        DesiredState::Stopped => "stopped",
    };
    Notice::new(kind, scope, message).with("desired_state", Datum::text(word))
}

// ---- Creating ---------------------------------------------------------------

/// Why an environment cannot be created.
pub open spec fn creation_refusal(
    desired: Desired,
    definition: EnvironmentDefinition,
    policy: Option<Result<String, String>>,
    provider_known: bool,
) -> Option<Refusal> {
    match first(definition.env.rows(), refused_row()) {
        _ if !valid_name(definition.name@) => Some(
            Refusal::Invalid(invalid_name_text("environment"@, definition.name@)),
        ),
        Some(i) => Some(
            Refusal::Invalid(
                refused_entry_text("environment"@, definition.env.rows()[i].0@),
            ),
        ),
        None => match (policy, definition.provider) {
            (Some(Err(error)), _) => Some(Refusal::Invalid(error@)),
            (_, Some(provider)) if !provider_known => Some(
                Refusal::Invalid("provider "@ + provider@ + " is not in the daemon's pool"@),
            ),
            _ => if desired.environments@.contains_key(key1(definition.name@)) {
                Some(
                    Refusal::Conflict(
                        "environment "@ + definition.name@ + " already exists"@,
                    ),
                )
            } else {
                None
            },
        },
    }
}

/// An environment's identifier: its name, when it was created and by whom.
pub open spec fn environment_id_text(name: Seq<char>, at: i64, instance_id: Seq<char>) -> Seq<char> {
    "env_"@ + short_digest_text(seq![name, signed_text(at as int), instance_id])
}

fn environment_id(name: &str, at: i64, instance_id: &str) -> (r: String)
    ensures
        r@ == environment_id_text(name@, at, instance_id@),
{
    let moment = signed_decimal(at);
    let parts = [name, moment.as_str(), instance_id];
    proof {
        assert(parts_of(parts@) =~= seq![name@, moment@, instance_id@]);
    }
    "env_".to_owned().concat(&short_digest(&parts))
}

/// A new environment.
pub struct EnvironmentPlan {
    pub id: String,
    pub record: EnvironmentRecord,
    pub notice: Notice,
}

/// Create an environment. `policy` is the canonical form of its policy, or
/// why that is invalid.
pub fn create_environment(
    desired: &Desired,
    definition: EnvironmentDefinition,
    policy: Option<Result<String, String>>,
    provider_known: bool,
    instance_id: &str,
    now: i64,
) -> (r: Result<EnvironmentPlan, EnvironmentError>)
    ensures
        match creation_refusal(*desired, definition, policy, provider_known) {
            Some(refusal) => r matches Err(error) && error.reports(refusal),
            None => {
                &&& r matches Ok(plan)
                &&& plan.id@ == environment_id_text(definition.name@, now, instance_id@)
                &&& plan.record.name == definition.name
                &&& plan.record.desired_state == definition.desired_state
                &&& plan.record.config == definition.env
                &&& opt_text(plan.record.policy) == (match policy {
                    Some(Ok(policy)) => Some(policy@),
                    _ => None,
                })
                &&& plan.record.provider == definition.provider
                &&& plan.record.created_at == now
                &&& plan.notice.says(
                    EventKind::EnvironmentCreated,
                    environment_scope(definition.name@),
                    "Environment "@ + definition.name@ + " created"@,
                    seq![text_fact("environment_id"@, plan.id@)],
                )
            },
        },
{
    if let Err(error) = validate_name("environment", &definition.name) {
        return Err(error);
    }
    if let Err(error) = validate_env("environment", &definition.env) {
        return Err(error);
    }
    let policy = match policy {
        Some(Ok(policy)) => Some(policy),
        Some(Err(error)) => {
            return Err(EnvironmentError::Invalid(error));
        },
        None => None,
    };
    if let Some(provider) = &definition.provider {
        if !provider_known {
            return Err(unknown_provider(provider));
        }
    }
    if desired.environments.at(&definition.name).is_some() {
        let mut text = "environment ".to_owned();
        text.append(&definition.name);
        text.append(" already exists");
        return Err(EnvironmentError::Conflict(text));
    }
    let id = environment_id(&definition.name, now, instance_id);
    let mut message = "Environment ".to_owned();
    message.append(&definition.name);
    message.append(" created");
    let notice = Notice::new(
        EventKind::EnvironmentCreated,
        Scope::environment(&definition.name),
        message,
    ).with("environment_id", Datum::text(&id));
    let record = EnvironmentRecord {
        name: definition.name,
        desired_state: definition.desired_state,
        config: definition.env,
        policy,
        provider: definition.provider,
        created_at: now,
    };
    Ok(EnvironmentPlan { id, record, notice })
}

fn unknown_provider(provider: &str) -> (r: EnvironmentError)
    ensures
        r.reports(
            Refusal::Invalid("provider "@ + provider@ + " is not in the daemon's pool"@),
        ),
{
    let mut text = "provider ".to_owned();
    text.append(provider);
    text.append(" is not in the daemon's pool");
    EnvironmentError::Invalid(text)
}

fn no_environment(name: &str) -> (r: EnvironmentError)
    ensures
        r.reports(Refusal::NotFound("environment "@ + name@)),
{
    let mut text = "environment ".to_owned();
    text.append(name);
    EnvironmentError::NotFound(text)
}

// ---- Finding ----------------------------------------------------------------

/// A project's membership of an environment, or why there is none.
pub open spec fn found_membership(
    desired: Desired,
    environment: Seq<char>,
    project: Seq<char>,
) -> Result<Stored<EnvironmentProjectRecord>, Refusal> {
    match desired.environment_named(environment) {
        None => Err(Refusal::NotFound("environment "@ + environment)),
        Some(record) => {
            let home = record.value.name@;
            if desired.memberships@.contains_key(key2(home, project)) {
                Ok(desired.memberships@[key2(home, project)])
            } else {
                Err(Refusal::NotFound("project "@ + project + " in "@ + home))
            }
        },
    }
}

/// The name of the environment that is meant.
pub open spec fn place_of(desired: Desired, environment: Seq<char>) -> Seq<char> {
    match desired.environment_named(environment) {
        Some(record) => record.value.name@,
        None => environment,
    }
}

fn find_place(desired: &Desired, environment: &str) -> (r: String)
    ensures
        r@ == place_of(*desired, environment@),
{
    match desired.environment(environment) {
        Some(record) => record.value.name.clone(),
        None => environment.to_owned(),
    }
}

/// Find a project's membership of an environment.
pub fn membership<'a>(desired: &'a Desired, environment: &str, project: &str) -> (r: Result<
    &'a Stored<EnvironmentProjectRecord>,
    EnvironmentError,
>)
    ensures
        match r {
            Ok(record) => found_membership(*desired, environment@, project@) == Ok::<
                Stored<EnvironmentProjectRecord>,
                Refusal,
            >(*record),
            Err(error) => found_membership(*desired, environment@, project@) matches Err(refusal)
                && error.reports(refusal),
        },
{
    let home = match desired.environment(environment) {
        Some(record) => &record.value.name,
        None => {
            return Err(no_environment(environment));
        },
    };
    match desired.membership_of(home, project) {
        Some(record) => Ok(record),
        None => {
            let mut text = "project ".to_owned();
            text.append(project);
            text.append(" in ");
            text.append(home);
            Err(EnvironmentError::NotFound(text))
        },
    }
}

/// A workload, or why there is none.
pub open spec fn found_workload(
    desired: Desired,
    environment: Seq<char>,
    project: Seq<char>,
    workload: Seq<char>,
) -> Result<(Seq<char>, Stored<WorkloadRecord>), Refusal> {
    match desired.environment_named(environment) {
        None => Err(Refusal::NotFound("environment "@ + environment)),
        Some(record) => {
            let home = record.value.name@;
            if desired.workloads@.contains_key(key3(home, project, workload)) {
                Ok((home, desired.workloads@[key3(home, project, workload)]))
            } else {
                Err(
                    Refusal::NotFound(
                        "workload "@ + workload + " in "@ + home + "/"@ + project,
                    ),
                )
            }
        },
    }
}

/// Find a workload, and the key it is found by.
pub fn workload_record<'a>(
    desired: &'a Desired,
    environment: &str,
    project: &str,
    workload: &str,
) -> (r: Result<(Key, &'a Stored<WorkloadRecord>), EnvironmentError>)
    ensures
        match r {
            Ok(pair) => found_workload(*desired, environment@, project@, workload@) == Ok::<
                (Seq<char>, Stored<WorkloadRecord>),
                Refusal,
            >((pair.0.0@, *pair.1)) && pair.0.1@ == project@ && pair.0.2@ == workload@,
            Err(error) => found_workload(
                *desired,
                environment@,
                project@,
                workload@,
            ) matches Err(refusal) && error.reports(refusal),
        },
{
    let home = match desired.environment(environment) {
        Some(record) => record.value.name.clone(),
        None => {
            return Err(no_environment(environment));
        },
    };
    let key: Key = (home, project.to_owned(), workload.to_owned());
    match desired.workloads.get(&key) {
        Some(record) => Ok((key, record)),
        None => {
            let mut text = "workload ".to_owned();
            text.append(workload);
            text.append(" in ");
            text.append(&key.0);
            text.append("/");
            text.append(project);
            Err(EnvironmentError::NotFound(text))
        },
    }
}

// ---- Selecting --------------------------------------------------------------

/// What an operation covers: an environment, or one project in it.
#[derive(Debug, Clone, Copy)]
pub struct Coverage<'a> {
    pub environment: &'a str,
    pub project: Option<&'a str>,
}

/// What an operation covers, as plain text.
pub ghost struct CoverText {
    pub environment: Seq<char>,
    pub project: Option<Seq<char>>,
}

impl CoverText {
    pub open spec fn includes(self, environment: Seq<char>, project: Seq<char>) -> bool {
        &&& environment == self.environment
        &&& match self.project {
            Some(wanted) => project == wanted,
            None => true,
        }
    }
}

impl<'a> View for Coverage<'a> {
    type V = CoverText;

    open spec fn view(&self) -> CoverText {
        CoverText {
            environment: self.environment@,
            project: match self.project {
                Some(project) => Some(project@),
                None => None,
            },
        }
    }
}

impl<'a> Coverage<'a> {
    fn covers(&self, environment: &str, project: &str) -> (r: bool)
        ensures
            r == self@.includes(environment@, project@),
    {
        same(environment, self.environment) && match self.project {
            Some(wanted) => same(project, wanted),
            None => true,
        }
    }
}

pub open spec fn covered_membership(coverage: CoverText) -> spec_fn(
    ((String, String), Stored<EnvironmentProjectRecord>),
) -> bool {
    |row: ((String, String), Stored<EnvironmentProjectRecord>)|
        coverage.includes(row.0.0@, row.0.1@)
}

pub open spec fn covered_workload(coverage: CoverText) -> spec_fn(
    (Key, Stored<WorkloadRecord>),
) -> bool {
    |row: (Key, Stored<WorkloadRecord>)| coverage.includes(row.0.0@, row.0.1@)
}

pub open spec fn covered_instance(coverage: CoverText) -> spec_fn(
    Stored<WorkloadInstanceRecord>,
) -> bool {
    |record: Stored<WorkloadInstanceRecord>|
        coverage.includes(record.value.environment@, record.value.project@)
}

pub open spec fn covered_traffic(coverage: CoverText) -> spec_fn(
    Stored<TrafficAssignmentRecord>,
) -> bool {
    |record: Stored<TrafficAssignmentRecord>|
        coverage.includes(record.value.environment@, record.value.project@)
}

pub open spec fn covered_domain(coverage: CoverText) -> spec_fn(Stored<DomainRecord>) -> bool {
    |record: Stored<DomainRecord>|
        coverage.includes(record.value.environment@, record.value.project@)
}

struct Covered<'a> {
    coverage: Coverage<'a>,
}

impl<'a> Test<((String, String), Stored<EnvironmentProjectRecord>)> for Covered<'a> {
    closed spec fn pred(&self) -> spec_fn(
        ((String, String), Stored<EnvironmentProjectRecord>),
    ) -> bool {
        covered_membership(self.coverage@)
    }

    fn test(&self, item: &((String, String), Stored<EnvironmentProjectRecord>)) -> (r: bool) {
        self.coverage.covers(&item.0.0, &item.0.1)
    }
}

impl<'a> Test<(Key, Stored<WorkloadRecord>)> for Covered<'a> {
    closed spec fn pred(&self) -> spec_fn((Key, Stored<WorkloadRecord>)) -> bool {
        covered_workload(self.coverage@)
    }

    fn test(&self, item: &(Key, Stored<WorkloadRecord>)) -> (r: bool) {
        self.coverage.covers(&item.0.0, &item.0.1)
    }
}

impl<'a> Test<Stored<WorkloadInstanceRecord>> for Covered<'a> {
    closed spec fn pred(&self) -> spec_fn(Stored<WorkloadInstanceRecord>) -> bool {
        covered_instance(self.coverage@)
    }

    fn test(&self, item: &Stored<WorkloadInstanceRecord>) -> (r: bool) {
        self.coverage.covers(&item.value.environment, &item.value.project)
    }
}

impl<'a> Test<Stored<TrafficAssignmentRecord>> for Covered<'a> {
    closed spec fn pred(&self) -> spec_fn(Stored<TrafficAssignmentRecord>) -> bool {
        covered_traffic(self.coverage@)
    }

    fn test(&self, item: &Stored<TrafficAssignmentRecord>) -> (r: bool) {
        self.coverage.covers(&item.value.environment, &item.value.project)
    }
}

impl<'a> Test<Stored<DomainRecord>> for Covered<'a> {
    closed spec fn pred(&self) -> spec_fn(Stored<DomainRecord>) -> bool {
        covered_domain(self.coverage@)
    }

    fn test(&self, item: &Stored<DomainRecord>) -> (r: bool) {
        self.coverage.covers(&item.value.environment, &item.value.project)
    }
}

/// Keys as lists of names.
pub open spec fn key_parts(keys: Seq<Key>) -> Seq<Seq<Seq<char>>> {
    keys.map_values(|key: Key| key3(key.0@, key.1@, key.2@))
}

/// The keys of the workloads in the given rows.
pub open spec fn workload_keys(rows: Seq<(Key, Stored<WorkloadRecord>)>, at: Seq<int>) -> Seq<
    Seq<Seq<char>>,
> {
    at.map_values(|i: int| key3(rows[i].0.0@, rows[i].0.1@, rows[i].0.2@))
}

/// The keys of instances at the given positions.
pub open spec fn instance_keys(instances: Seq<Stored<WorkloadInstanceRecord>>, at: Seq<int>) -> Seq<
    Seq<Seq<char>>,
> {
    at.map_values(
        |i: int|
            key3(
                instances[i].value.environment@,
                instances[i].value.project@,
                instances[i].value.workload@,
            ),
    )
}

/// The keys of the workloads an operation covers.
pub open spec fn covered_keys(desired: Desired, coverage: CoverText) -> Seq<Seq<Seq<char>>> {
    workload_keys(
        desired.workloads.rows(),
        matching(desired.workloads.rows(), covered_workload(coverage)),
    )
}

fn keys_covered(desired: &Desired, coverage: Coverage) -> (r: Vec<Key>)
    ensures
        key_parts(r@) == covered_keys(*desired, coverage@),
{
    let at = select_rows(&desired.workloads, &Covered { coverage });
    let ghost all = workload_keys(desired.workloads.rows(), positions(at@));
    let mut r: Vec<Key> = Vec::new();
    let mut i: usize = 0;
    proof {
        assert(key_parts(r@) =~= all.take(0));
    }
    while i < at.len()
        invariant
            i <= at@.len(),
            key_parts(r@) == all.take(i as int),
        decreases at@.len() - i,
    {
        let key = desired.workloads.key_at(at[i]);
        let ghost before = r@;
        r.push((key.0.clone(), key.1.clone(), key.2.clone()));
        proof {
            let parts = key3(key.0@, key.1@, key.2@);
            assert(all[i as int] == parts);
            assert(key_parts(r@) =~= key_parts(before).push(parts));
            assert(all.take(i + 1) =~= all.take(i as int).push(parts));
        }
        i += 1;
    }
    proof {
        assert(all.take(i as int) =~= all);
    }
    r
}

// ---- Removing ---------------------------------------------------------------

/// What removing an environment, or a project from one, takes away: the
/// positions of the records, and the keys of what is to stop first.
/// Deployments, executions, receipts and events remain as history.
#[derive(Debug)]
pub struct Removal {
    pub environment: String,
    pub memberships: Vec<usize>,
    pub workloads: Vec<usize>,
    pub instances: Vec<usize>,
    pub traffic: Vec<usize>,
    pub stop: Vec<Key>,
    pub notice: Notice,
}

/// Whether a removal takes away exactly what an operation covers:
/// memberships and workloads by their keys, instances and assignments by
/// where they say they are.
pub open spec fn removes(
    removal: Removal,
    desired: Desired,
    keys: CoverText,
    coverage: CoverText,
) -> bool {
    &&& positions(removal.memberships@) == matching(
        desired.memberships.rows(),
        covered_membership(keys),
    )
    &&& positions(removal.workloads@) == matching(
        desired.workloads.rows(),
        covered_workload(keys),
    )
    &&& positions(removal.instances@) == matching(
        desired.instances.values(),
        covered_instance(coverage),
    )
    &&& positions(removal.traffic@) == matching(
        desired.traffic.values(),
        covered_traffic(coverage),
    )
    &&& key_parts(removal.stop@) == covered_keys(desired, keys) + instance_keys(
        desired.instances.values(),
        matching(desired.instances.values(), covered_instance(coverage)),
    )
}

fn removal_of(desired: &Desired, keys: Coverage, coverage: Coverage, notice: Notice) -> (r: Removal)
    ensures
        removes(r, *desired, keys@, coverage@),
        r.environment@ == coverage.environment@,
        r.notice == notice,
{
    let memberships = select_rows(&desired.memberships, &Covered { coverage: keys });
    let workloads = select_rows(&desired.workloads, &Covered { coverage: keys });
    let instances = select(&desired.instances, &Covered { coverage });
    let traffic = select(&desired.traffic, &Covered { coverage });
    let mut stop = keys_covered(desired, keys);
    let ghost own = key_parts(stop@);
    let ghost all = instance_keys(desired.instances.values(), positions(instances@));
    let mut i: usize = 0;
    proof {
        assert(key_parts(stop@) =~= own + all.take(0));
    }
    while i < instances.len()
        invariant
            i <= instances@.len(),
            key_parts(stop@) == own + all.take(i as int),
        decreases instances@.len() - i,
    {
        let instance = &desired.instances.value_at(instances[i]).value;
        let ghost before = stop@;
        stop.push(Desired::instance_key(instance));
        proof {
            let parts = key3(instance.environment@, instance.project@, instance.workload@);
            assert(all[i as int] == parts);
            assert(key_parts(stop@) =~= key_parts(before).push(parts));
            assert(own + all.take(i + 1) =~= (own + all.take(i as int)).push(parts));
        }
        i += 1;
    }
    proof {
        assert(all.take(i as int) =~= all);
    }
    Removal {
        environment: coverage.environment.to_owned(),
        memberships,
        workloads,
        instances,
        traffic,
        stop,
        notice,
    }
}

/// Stop and forget an environment. One that a domain routes to is kept.
pub fn destroy_environment(desired: &Desired, name: &str) -> (r: Result<
    (String, Removal),
    EnvironmentError,
>)
    ensures
        match desired.environment_named(name@) {
            None => r matches Err(error) && error.reports(
                Refusal::NotFound("environment "@ + name@),
            ),
            Some(environment) => {
                let home = environment.value.name@;
                let coverage = CoverText { environment: home, project: None };
                match found(desired.domains.values(), covered_domain(coverage)) {
                    Some(domain) => r matches Err(error) && error.reports(
                        Refusal::Conflict(
                            "domain "@ + domain.value.name@ + " routes to "@ + home
                                + "; remove it first"@,
                        ),
                    ),
                    None => {
                        &&& r matches Ok(pair)
                        &&& pair.0 == environment.id
                        &&& pair.1.environment@ == home
                        &&& removes(pair.1, *desired, coverage, coverage)
                        &&& pair.1.notice.says(
                            EventKind::EnvironmentDestroyed,
                            environment_scope(home),
                            "Environment "@ + home + " destroyed"@,
                            seq![text_fact("environment_id"@, environment.id@)],
                        )
                    },
                }
            },
        },
{
    let environment = match desired.environment(name) {
        Some(environment) => environment,
        None => {
            return Err(no_environment(name));
        },
    };
    let home = environment.value.name.as_str();
    let coverage = Coverage { environment: home, project: None };
    if let Some(domain) = find_value(&desired.domains, &Covered { coverage }) {
        let mut text = "domain ".to_owned();
        text.append(&domain.value.name);
        text.append(" routes to ");
        text.append(home);
        text.append("; remove it first");
        return Err(EnvironmentError::Conflict(text));
    }
    let mut message = "Environment ".to_owned();
    message.append(home);
    message.append(" destroyed");
    let notice = Notice::new(
        EventKind::EnvironmentDestroyed,
        Scope::environment(home),
        message,
    ).with("environment_id", Datum::text(&environment.id));
    Ok((environment.id.clone(), removal_of(desired, coverage, coverage, notice)))
}

/// Stop a project in one environment and remove it from there. The project,
/// its revisions and its other environments are unaffected. One that a
/// domain routes to is kept.
pub fn remove_project(desired: &Desired, environment: &str, project: &str) -> (r: Result<
    (String, Removal),
    EnvironmentError,
>)
    ensures
        match found_membership(*desired, environment@, project@) {
            Err(refusal) => r matches Err(error) && error.reports(refusal),
            Ok(record) => {
                let home = record.value.environment@;
                let coverage = CoverText { environment: home, project: Some(project@) };
                let keys = CoverText {
                    environment: place_of(*desired, environment@),
                    project: Some(project@),
                };
                match found(desired.domains.values(), covered_domain(coverage)) {
                    Some(domain) => r matches Err(error) && error.reports(
                        Refusal::Conflict(
                            "domain "@ + domain.value.name@ + " routes to "@ + project@ + " in "@
                                + home + "; remove it first"@,
                        ),
                    ),
                    None => {
                        &&& r matches Ok(pair)
                        &&& pair.0 == record.id
                        &&& pair.1.environment@ == home
                        &&& removes(pair.1, *desired, keys, coverage)
                        &&& pair.1.notice.says(
                            EventKind::ProjectRemoved,
                            project_scope(home, project@),
                            project@ + " removed from "@ + home,
                            seq![text_fact("project_id"@, record.value.project_id@)],
                        )
                    },
                }
            },
        },
{
    let record = match membership(desired, environment, project) {
        Ok(record) => record,
        Err(error) => {
            return Err(error);
        },
    };
    let home = record.value.environment.as_str();
    let coverage = Coverage { environment: home, project: Some(project) };
    if let Some(domain) = find_value(&desired.domains, &Covered { coverage }) {
        let mut text = "domain ".to_owned();
        text.append(&domain.value.name);
        text.append(" routes to ");
        text.append(project);
        text.append(" in ");
        text.append(home);
        text.append("; remove it first");
        return Err(EnvironmentError::Conflict(text));
    }
    let mut message = project.to_owned();
    message.append(" removed from ");
    message.append(home);
    let notice = Notice::new(
        EventKind::ProjectRemoved,
        Scope::project(home, project),
        message,
    ).with("project_id", Datum::text(&record.value.project_id));
    let place = find_place(desired, environment);
    let keys = Coverage { environment: &place, project: Some(project) };
    Ok((record.id.clone(), removal_of(desired, keys, coverage, notice)))
}

/// Keeps the units an operation does not cover.
struct Uncovered<'a> {
    coverage: Coverage<'a>,
}

impl<'a> Keep<Unit, WorkloadRuntime> for Uncovered<'a> {
    closed spec fn keeps(&self, key: Seq<Seq<char>>, value: WorkloadRuntime) -> bool {
        !self.coverage@.includes(key[0], key[1])
    }

    fn keep(&self, key: &Unit, value: &WorkloadRuntime) -> (r: bool) {
        !self.coverage.covers(&key.key.0, &key.key.1)
    }
}

/// Forget what ran in an environment, or of a project in it.
pub fn forget_units(runtime: &mut Table<Unit, WorkloadRuntime>, coverage: Coverage)
    ensures
        forall|unit: Seq<Seq<char>>| #[trigger]
            final(runtime)@.contains_key(unit) <==> old(runtime)@.contains_key(unit)
                && !coverage@.includes(unit[0], unit[1]),
        forall|unit: Seq<Seq<char>>| #[trigger]
            final(runtime)@.contains_key(unit) ==> final(runtime)@[unit] == old(runtime)@[unit],
{
    runtime.retain(&Uncovered { coverage });
}

// ---- Starting and stopping --------------------------------------------------

/// A change of desired state: of which document, what it stops and what it
/// lets start again.
#[derive(Debug)]
pub struct StateChange {
    pub id: String,
    pub keys: Vec<Key>,
    /// Stop what the keys name.
    pub stop: bool,
    /// Let what the keys name be started again.
    pub release: bool,
    pub notice: Notice,
}

/// Whether a change stops and releases as asked: a restart stops, and
/// whatever should run may start again.
pub open spec fn acts_as_asked(change: StateChange, wanted: DesiredState, restart: bool) -> bool {
    change.stop == restart && change.release == (wanted == DesiredState::Running)
}

/// Set whether an environment runs.
pub fn set_environment_state(desired: &Desired, name: &str, wanted: DesiredState, restart: bool) -> (
r: Result<StateChange, EnvironmentError>)
    ensures
        match desired.environment_named(name@) {
            None => r matches Err(error) && error.reports(
                Refusal::NotFound("environment "@ + name@),
            ),
            Some(environment) => {
                let home = environment.value.name@;
                &&& r matches Ok(change)
                &&& change.id == environment.id
                &&& key_parts(change.keys@) == covered_keys(
                    *desired,
                    CoverText { environment: home, project: None },
                )
                &&& acts_as_asked(change, wanted, restart)
                &&& change.notice.says(
                    if restart {
                        EventKind::EnvironmentRestarted
                    } else if wanted == DesiredState::Running {
                        EventKind::EnvironmentStarted
                    } else {
                        EventKind::EnvironmentStopped
                    },
                    environment_scope(home),
                    "Environment "@ + home + " "@ + verb_text(wanted, restart),
                    wanted_facts(wanted),
                )
            },
        },
{
    let environment = match desired.environment(name) {
        Some(environment) => environment,
        None => {
            return Err(no_environment(name));
        },
    };
    let home = environment.value.name.as_str();
    let keys = keys_covered(desired, Coverage { environment: home, project: None });
    let kind = if restart {
        EventKind::EnvironmentRestarted
    } else if wanted == DesiredState::Running {
        EventKind::EnvironmentStarted
    } else {
        EventKind::EnvironmentStopped
    };
    let mut message = "Environment ".to_owned();
    message.append(home);
    message.append(" ");
    message.append(verb(wanted, restart));
    let notice = wanted_notice(kind, Scope::environment(home), message, wanted);
    Ok(
        StateChange {
            id: environment.id.clone(),
            keys,
            stop: restart,
            release: wanted == DesiredState::Running,
            notice,
        },
    )
}

/// The scope of a project, and of its current deployment when it has one.
pub open spec fn current_scope(
    environment: Seq<char>,
    project: Seq<char>,
    deployment: Option<Seq<char>>,
) -> ScopeText {
    ScopeText { deployment_id: deployment, ..project_scope(environment, project) }
}

/// Set whether a project runs in an environment.
pub fn set_project_state(
    desired: &Desired,
    environment: &str,
    project: &str,
    wanted: DesiredState,
    restart: bool,
) -> (r: Result<StateChange, EnvironmentError>)
    ensures
        match found_membership(*desired, environment@, project@) {
            Err(refusal) => r matches Err(error) && error.reports(refusal),
            Ok(record) => {
                let home = record.value.environment@;
                &&& r matches Ok(change)
                &&& change.id == record.id
                &&& key_parts(change.keys@) == covered_keys(
                    *desired,
                    CoverText {
                        environment: place_of(*desired, environment@),
                        project: Some(project@),
                    },
                )
                &&& acts_as_asked(change, wanted, restart)
                &&& change.notice.says(
                    if restart {
                        EventKind::ProjectRestarted
                    } else if wanted == DesiredState::Running {
                        EventKind::ProjectStarted
                    } else {
                        EventKind::ProjectStopped
                    },
                    current_scope(home, project@, opt_text(record.value.deployment_id)),
                    project@ + " in "@ + home + " "@ + verb_text(wanted, restart),
                    wanted_facts(wanted),
                )
            },
        },
{
    let record = match membership(desired, environment, project) {
        Ok(record) => record,
        Err(error) => {
            return Err(error);
        },
    };
    let home = record.value.environment.as_str();
    let place = find_place(desired, environment);
    let keys = keys_covered(desired, Coverage { environment: &place, project: Some(project) });
    let kind = if restart {
        EventKind::ProjectRestarted
    } else if wanted == DesiredState::Running {
        EventKind::ProjectStarted
    } else {
        EventKind::ProjectStopped
    };
    let mut message = project.to_owned();
    message.append(" in ");
    message.append(home);
    message.append(" ");
    message.append(verb(wanted, restart));
    let mut scope = Scope::project(home, project);
    if let Some(deployment) = &record.value.deployment_id {
        scope = scope.deployment(deployment);
    }
    Ok(
        StateChange {
            id: record.id.clone(),
            keys,
            stop: restart,
            release: wanted == DesiredState::Running,
            notice: wanted_notice(kind, scope, message, wanted),
        },
    )
}

/// Set whether a service runs. A task is run, not started.
pub fn set_workload_state(
    desired: &Desired,
    environment: &str,
    project: &str,
    workload: &str,
    wanted: DesiredState,
    restart: bool,
) -> (r: Result<StateChange, EnvironmentError>)
    ensures
        match found_workload(*desired, environment@, project@, workload@) {
            Err(refusal) => r matches Err(error) && error.reports(refusal),
            Ok((home, record)) => if record.value.kind == WorkloadKind::Task {
                r matches Err(error) && error.reports(
                    Refusal::Invalid(
                        workload@
                            + " is a task; run it instead of starting or stopping it"@,
                    ),
                )
            } else {
                &&& r matches Ok(change)
                &&& change.id == record.id
                &&& key_parts(change.keys@) == seq![key3(home, project@, workload@)]
                &&& acts_as_asked(change, wanted, restart)
                &&& change.notice.says(
                    if wanted == DesiredState::Running {
                        EventKind::WorkloadStarted
                    } else {
                        EventKind::WorkloadStopped
                    },
                    ScopeText {
                        deployment_id: Some(record.value.deployment_id@),
                        ..workload_scope(home, project@, workload@)
                    },
                    workload@ + " "@ + verb_text(wanted, restart) + " in "@ + home + "/"@
                        + project@,
                    wanted_facts(wanted),
                )
            },
        },
{
    let (key, record) = match workload_record(desired, environment, project, workload) {
        Ok(pair) => pair,
        Err(error) => {
            return Err(error);
        },
    };
    if record.value.kind == WorkloadKind::Task {
        let mut text = workload.to_owned();
        text.append(" is a task; run it instead of starting or stopping it");
        return Err(EnvironmentError::Invalid(text));
    }
    let kind = if wanted == DesiredState::Running {
        EventKind::WorkloadStarted
    } else {
        EventKind::WorkloadStopped
    };
    let mut message = workload.to_owned();
    message.append(" ");
    message.append(verb(wanted, restart));
    message.append(" in ");
    message.append(&key.0);
    message.append("/");
    message.append(&key.1);
    let scope = Scope::workload(&key).deployment(&record.value.deployment_id);
    let ghost names = key3(key.0@, key.1@, key.2@);
    let mut keys: Vec<Key> = Vec::new();
    keys.push(key);
    proof {
        assert(key_parts(keys@) =~= seq![names]);
    }
    Ok(
        StateChange {
            id: record.id.clone(),
            keys,
            stop: restart,
            release: wanted == DesiredState::Running,
            notice: wanted_notice(kind, scope, message, wanted),
        },
    )
}

// ---- Holds ------------------------------------------------------------------

/// Whether one of the keys names a unit's workload.
pub open spec fn is_named(keys: Seq<Key>, unit: Seq<Seq<char>>) -> bool {
    exists|k: int|
        0 <= k < keys.len() && unit[0] == (#[trigger] keys[k]).0@ && unit[1] == keys[k].1@
            && unit[2] == keys[k].2@
}

fn names_unit(keys: &Vec<Key>, unit: &Unit) -> (r: bool)
    ensures
        r == is_named(keys@, unit.parts()),
{
    let mut k: usize = 0;
    while k < keys.len()
        invariant
            k <= keys@.len(),
            forall|j: int|
                0 <= j < k ==> !(unit.key.0@ == (#[trigger] keys@[j]).0@ && unit.key.1@
                    == keys@[j].1@ && unit.key.2@ == keys@[j].2@),
        decreases keys@.len() - k,
    {
        if same(&unit.key.0, &keys[k].0) && same(&unit.key.1, &keys[k].1) && same(
            &unit.key.2,
            &keys[k].2,
        ) {
            proof {
                assert(unit.parts()[0] == keys@[k as int].0@);
            }
            return true;
        }
        k += 1;
    }
    false
}

/// What a unit is once its hold is released.
pub open spec fn released(runtime: WorkloadRuntime) -> WorkloadRuntime {
    WorkloadRuntime { held: false, consecutive_failures: 0, ..runtime }
}

/// Whether one of the first `n` units is this one.
pub open spec fn is_listed(units: Seq<Unit>, unit: Seq<Seq<char>>, n: int) -> bool {
    exists|u: int| 0 <= u < n && (#[trigger] units[u]).parts() == unit
}

/// What names each unit.
pub open spec fn unit_parts(units: Seq<Unit>) -> Seq<Seq<Seq<char>>> {
    units.map_values(|unit: Unit| unit.parts())
}

/// The units among the first `n` known ones whose workload the keys name.
pub open spec fn named_upto(
    rows: Seq<(Unit, WorkloadRuntime)>,
    keys: Seq<Key>,
    n: nat,
) -> Seq<Seq<Seq<char>>>
    decreases n,
{
    if n == 0 {
        Seq::empty()
    } else {
        let before = named_upto(rows, keys, (n - 1) as nat);
        let unit = rows[n - 1].0.parts();
        if is_named(keys, unit) {
            before.push(unit)
        } else {
            before
        }
    }
}

/// The units of the workloads that the keys name, in order.
pub fn units_of(runtime: &Table<Unit, WorkloadRuntime>, keys: &Vec<Key>) -> (r: Vec<Unit>)
    ensures
        unit_parts(r@) == named_upto(runtime.rows(), keys@, runtime.rows().len()),
        forall|unit: Seq<Seq<char>>| #[trigger]
            is_listed(r@, unit, r@.len() as int) <==> runtime@.contains_key(unit) && is_named(
                keys@,
                unit,
            ),
{
    let ghost rows = runtime.rows();
    let mut units: Vec<Unit> = Vec::new();
    let mut i: usize = 0;
    while i < runtime.len()
        invariant
            i <= rows.len(),
            unit_parts(units@) == named_upto(rows, keys@, i as nat),
            forall|u: int|
                0 <= u < units@.len() ==> is_named(keys@, (#[trigger] units@[u]).parts())
                    && runtime@.contains_key(units@[u].parts()),
            forall|j: int|
                0 <= j < i && is_named(keys@, (#[trigger] rows[j]).0.parts()) ==> is_listed(
                    units@,
                    rows[j].0.parts(),
                    units@.len() as int,
                ),
        decreases rows.len() - i,
    {
        let unit = runtime.key_at(i);
        if names_unit(keys, unit) {
            let ghost before = units@;
            units.push(Unit::new(&unit.key, &unit.deployment_id));
            proof {
                use_type_invariant(runtime);
                runtime.lemma_value(i as int);
                assert(units@.last().parts() == rows[i as int].0.parts());
                assert(unit_parts(units@) =~= unit_parts(before).push(rows[i as int].0.parts()));
                assert forall|j: int|
                    0 <= j < i + 1 && is_named(
                        keys@,
                        (#[trigger] rows[j]).0.parts(),
                    ) implies is_listed(units@, rows[j].0.parts(), units@.len() as int) by {
                    if j < i {
                        let u = choose|u: int|
                            0 <= u < before.len() && (#[trigger] before[u]).parts()
                                == rows[j].0.parts();
                        assert(units@[u] == before[u]);
                    } else {
                        assert(units@[units@.len() - 1].parts() == rows[j].0.parts());
                    }
                }
            }
        }
        i += 1;
    }
    proof {
        assert forall|unit: Seq<Seq<char>>| #[trigger]
            is_listed(units@, unit, units@.len() as int) <==> runtime@.contains_key(unit)
                && is_named(keys@, unit) by {
            if runtime@.contains_key(unit) {
                let j = crate::table::row_of(rows, unit);
                assert(rows[j].0.parts() == unit);
            }
        }
    }
    units
}

/// Let every unit that the keys name be started again. Units of other
/// workloads are unaffected.
pub fn release_holds(runtime: &mut Table<Unit, WorkloadRuntime>, keys: &Vec<Key>)
    ensures
        forall|unit: Seq<Seq<char>>| #[trigger]
            final(runtime)@.contains_key(unit) <==> old(runtime)@.contains_key(unit),
        forall|unit: Seq<Seq<char>>| #[trigger]
            final(runtime)@.contains_key(unit) ==> final(runtime)@[unit] == (if is_named(
                keys@,
                unit,
            ) {
                released(old(runtime)@[unit])
            } else {
                old(runtime)@[unit]
            }),
{
    let ghost start = runtime@;
    let units = units_of(runtime, keys);
    let mut n: usize = 0;
    while n < units.len()
        invariant
            n <= units@.len(),
            forall|unit: Seq<Seq<char>>| #[trigger]
                runtime@.contains_key(unit) <==> start.contains_key(unit),
            forall|unit: Seq<Seq<char>>| #[trigger]
                runtime@.contains_key(unit) ==> runtime@[unit] == (if is_listed(
                    units@,
                    unit,
                    n as int,
                ) {
                    released(start[unit])
                } else {
                    start[unit]
                }),
        decreases units@.len() - n,
    {
        let unit = &units[n];
        let ghost before = runtime@;
        if let Some(value) = runtime.remove(unit) {
            let mut value = value;
            value.release_hold();
            runtime.insert(Unit::new(&unit.key, &unit.deployment_id), value);
        }
        proof {
            let parts = unit.parts();
            assert forall|other: Seq<Seq<char>>| #[trigger]
                runtime@.contains_key(other) implies runtime@[other] == (if is_listed(
                units@,
                other,
                n + 1,
            ) {
                released(start[other])
            } else {
                start[other]
            }) by {
                assert(before.contains_key(other));
                if other == parts {
                    assert(units@[n as int].parts() == other);
                } else if is_listed(units@, other, n + 1) {
                    let u = choose|u: int| 0 <= u < n + 1 && (#[trigger] units@[u]).parts() == other;
                    assert(u < n);
                    assert(is_listed(units@, other, n as int));
                } else {
                    assert(!is_listed(units@, other, n as int)) by {
                        if is_listed(units@, other, n as int) {
                            let u = choose|u: int|
                                0 <= u < n && (#[trigger] units@[u]).parts() == other;
                            assert(is_listed(units@, other, n + 1));
                        }
                    }
                }
            }
        }
        n += 1;
    }
    proof {
        assert forall|unit: Seq<Seq<char>>| #[trigger]
            runtime@.contains_key(unit) implies runtime@[unit] == (if is_named(keys@, unit) {
            released(start[unit])
        } else {
            start[unit]
        }) by {
            assert(start.contains_key(unit));
            assert(is_listed(units@, unit, units@.len() as int) <==> is_named(keys@, unit));
        }
    }
}

/// What a unit is once it is asked to stop.
pub open spec fn asked_to_stop(runtime: WorkloadRuntime) -> WorkloadRuntime {
    if is_active(runtime.state) {
        WorkloadRuntime {
            state: Some(ActualState::Stopping),
            supervised: false,
            ..runtime
        }
    } else {
        runtime
    }
}

/// The units among the first `n` given ones that run and are to be cancelled,
/// each once.
pub open spec fn cancelled_upto(
    units: Seq<Unit>,
    runtime: Map<Seq<Seq<char>>, WorkloadRuntime>,
    n: nat,
) -> Seq<Seq<Seq<char>>>
    decreases n,
{
    if n == 0 {
        Seq::empty()
    } else {
        let before = cancelled_upto(units, runtime, (n - 1) as nat);
        let unit = units[n - 1].parts();
        if runtime.contains_key(unit) && is_active(runtime[unit].state) && !is_listed(
            units,
            unit,
            n - 1,
        ) {
            before.push(unit)
        } else {
            before
        }
    }
}

/// Ask units to stop: those that are starting or run are now stopping.
/// Returns the ones to cancel and wait for. Other units are unaffected.
pub fn stop_units(runtime: &mut Table<Unit, WorkloadRuntime>, units: &Vec<Unit>) -> (r: Vec<Unit>)
    ensures
        forall|unit: Seq<Seq<char>>| #[trigger]
            final(runtime)@.contains_key(unit) <==> old(runtime)@.contains_key(unit),
        forall|unit: Seq<Seq<char>>| #[trigger]
            final(runtime)@.contains_key(unit) ==> final(runtime)@[unit] == (if is_listed(
                units@,
                unit,
                units@.len() as int,
            ) {
                asked_to_stop(old(runtime)@[unit])
            } else {
                old(runtime)@[unit]
            }),
        unit_parts(r@) == cancelled_upto(units@, old(runtime)@, units@.len()),
        forall|unit: Seq<Seq<char>>| #[trigger]
            is_listed(r@, unit, r@.len() as int) <==> is_listed(units@, unit, units@.len() as int)
                && old(runtime)@.contains_key(unit) && is_active(old(runtime)@[unit].state),
{
    let ghost start = runtime@;
    let mut stopping: Vec<Unit> = Vec::new();
    let mut n: usize = 0;
    while n < units.len()
        invariant
            n <= units@.len(),
            forall|unit: Seq<Seq<char>>| #[trigger]
                runtime@.contains_key(unit) <==> start.contains_key(unit),
            forall|unit: Seq<Seq<char>>| #[trigger]
                runtime@.contains_key(unit) ==> runtime@[unit] == (if is_listed(
                    units@,
                    unit,
                    n as int,
                ) {
                    asked_to_stop(start[unit])
                } else {
                    start[unit]
                }),
            unit_parts(stopping@) == cancelled_upto(units@, start, n as nat),
            forall|unit: Seq<Seq<char>>| #[trigger]
                is_listed(stopping@, unit, stopping@.len() as int) <==> is_listed(
                    units@,
                    unit,
                    n as int,
                ) && start.contains_key(unit) && is_active(start[unit].state),
        decreases units@.len() - n,
    {
        let unit = &units[n];
        let ghost before = runtime@;
        let ghost earlier = stopping@;
        if let Some(value) = runtime.remove(unit) {
            let mut value = value;
            if value.stop() {
                stopping.push(Unit::new(&unit.key, &unit.deployment_id));
            }
            runtime.insert(Unit::new(&unit.key, &unit.deployment_id), value);
        }
        proof {
            let parts = unit.parts();
            assert(units@[n as int].parts() == parts);
            if stopping@.len() > earlier.len() {
                assert(unit_parts(stopping@) =~= unit_parts(earlier).push(parts));
            }
            assert forall|other: Seq<Seq<char>>| #[trigger]
                is_listed(units@, other, n + 1) <==> is_listed(units@, other, n as int) || other
                    == parts by {
                if is_listed(units@, other, n + 1) {
                    let u = choose|u: int| 0 <= u < n + 1 && (#[trigger] units@[u]).parts() == other;
                    if u < n {
                        assert(is_listed(units@, other, n as int));
                    }
                }
                if is_listed(units@, other, n as int) {
                    let u = choose|u: int| 0 <= u < n && (#[trigger] units@[u]).parts() == other;
                    assert(0 <= u < n + 1);
                }
            }
            assert forall|other: Seq<Seq<char>>| #[trigger]
                runtime@.contains_key(other) implies runtime@[other] == (if is_listed(
                units@,
                other,
                n + 1,
            ) {
                asked_to_stop(start[other])
            } else {
                start[other]
            }) by {
                assert(before.contains_key(other));
                assert(is_listed(units@, other, n + 1) <==> is_listed(units@, other, n as int)
                    || other == parts);
            }
            assert forall|other: Seq<Seq<char>>| #[trigger]
                is_listed(stopping@, other, stopping@.len() as int) <==> is_listed(
                    units@,
                    other,
                    n + 1,
                ) && start.contains_key(other) && is_active(start[other].state) by {
                assert(is_listed(units@, other, n + 1) <==> is_listed(units@, other, n as int)
                    || other == parts);
                assert(is_listed(earlier, other, earlier.len() as int) <==> is_listed(
                    units@,
                    other,
                    n as int,
                ) && start.contains_key(other) && is_active(start[other].state));
                if stopping@.len() > earlier.len() {
                    assert(stopping@ =~= earlier.push(stopping@.last()));
                    assert(stopping@.last().parts() == parts);
                    assert(stopping@[stopping@.len() - 1].parts() == parts);
                    if is_listed(earlier, other, earlier.len() as int) {
                        let u = choose|u: int|
                            0 <= u < earlier.len() && (#[trigger] earlier[u]).parts() == other;
                        assert(stopping@[u] == earlier[u]);
                        assert(is_listed(stopping@, other, stopping@.len() as int));
                    }
                    if is_listed(stopping@, other, stopping@.len() as int) && other != parts {
                        let u = choose|u: int|
                            0 <= u < stopping@.len() && (#[trigger] stopping@[u]).parts() == other;
                        assert(u < earlier.len());
                        assert(earlier[u] == stopping@[u]);
                        assert(is_listed(earlier, other, earlier.len() as int));
                    }
                } else {
                    assert(stopping@ == earlier);
                }
            }
        }
        n += 1;
    }
    stopping
}

// ---- Shared services --------------------------------------------------------

/// A service other workloads may use.
#[derive(Debug)]
pub struct ServiceDefinition {
    pub name: String,
    pub capabilities: Vec<String>,
    pub provider: String,
    pub environment: Option<String>,
    pub project: Option<String>,
    pub workload: Option<String>,
    pub endpoint: Option<String>,
    pub description: Option<String>,
}

/// A registered service.
#[derive(Debug)]
pub struct ServiceRecord {
    pub name: String,
    pub capabilities: Vec<String>,
    pub provider: String,
    pub environment: Option<String>,
    pub project: Option<String>,
    pub workload: Option<String>,
    pub endpoint: Option<String>,
    pub description: Option<String>,
    pub created_at: i64,
    pub updated_at: i64,
}

/// Register a shared service, or replace its registration: it keeps the
/// moment it was first registered.
pub fn register_service(
    definition: ServiceDefinition,
    provider_known: bool,
    existing: Option<&ServiceRecord>,
    now: i64,
) -> (r: Result<(ServiceRecord, Notice), EnvironmentError>)
    ensures
        if !valid_name(definition.name@) {
            r matches Err(error) && error.reports(
                Refusal::Invalid(invalid_name_text("service"@, definition.name@)),
            )
        } else if !provider_known {
            r matches Err(error) && error.reports(
                Refusal::Invalid(
                    "provider "@ + definition.provider@ + " is not in the daemon's pool"@,
                ),
            )
        } else {
            &&& r matches Ok((record, notice))
            &&& record == (ServiceRecord {
                name: definition.name,
                capabilities: definition.capabilities,
                provider: definition.provider,
                environment: definition.environment,
                project: definition.project,
                workload: definition.workload,
                endpoint: definition.endpoint,
                description: definition.description,
                created_at: match existing {
                    Some(existing) => existing.created_at,
                    None => now,
                },
                updated_at: now,
            })
            &&& notice.says(
                EventKind::SharedServiceRegistered,
                no_scope(),
                "Shared service "@ + definition.name@ + " registered"@,
                seq![
                    text_fact("service"@, definition.name@),
                    fact("capabilities"@, DatumText::Texts(texts(definition.capabilities@))),
                ],
            )
        },
{
    if let Err(error) = validate_name("service", &definition.name) {
        return Err(error);
    }
    if !provider_known {
        return Err(unknown_provider(&definition.provider));
    }
    let mut message = "Shared service ".to_owned();
    message.append(&definition.name);
    message.append(" registered");
    let notice = Notice::new(
        EventKind::SharedServiceRegistered,
        Scope::default(),
        message,
    ).with("service", Datum::text(&definition.name)).with(
        "capabilities",
        Datum::Texts(copy_list(&definition.capabilities)),
    );
    let record = ServiceRecord {
        name: definition.name,
        capabilities: definition.capabilities,
        provider: definition.provider,
        environment: definition.environment,
        project: definition.project,
        workload: definition.workload,
        endpoint: definition.endpoint,
        description: definition.description,
        created_at: match existing {
            Some(existing) => existing.created_at,
            None => now,
        },
        updated_at: now,
    };
    Ok((record, notice))
}

/// What removing a shared service reports.
pub fn removed_service(name: &str) -> (r: Notice)
    ensures
        r.says(
            EventKind::SharedServiceRemoved,
            no_scope(),
            "Shared service "@ + name@ + " removed"@,
            seq![text_fact("service"@, name@)],
        ),
{
    let mut message = "Shared service ".to_owned();
    message.append(name);
    message.append(" removed");
    Notice::new(EventKind::SharedServiceRemoved, Scope::default(), message).with(
        "service",
        Datum::text(name),
    )
}

// ---- Laws -------------------------------------------------------------------

/// Removing a project from one environment leaves every other environment,
/// and every other project in that one, as they were: nothing of theirs is
/// among what is taken away.
pub proof fn law_removal_stays_in_its_place(
    removal: Removal,
    desired: Desired,
    keys: CoverText,
    coverage: CoverText,
    k: int,
)
    requires
        removes(removal, desired, keys, coverage),
    ensures
        0 <= k < removal.memberships@.len() ==> {
            let key = desired.memberships.rows()[removal.memberships@[k] as int].0;
            keys.includes(key.0@, key.1@)
        },
        0 <= k < removal.workloads@.len() ==> {
            let key = desired.workloads.rows()[removal.workloads@[k] as int].0;
            keys.includes(key.0@, key.1@)
        },
        0 <= k < removal.instances@.len() ==> {
            let value = desired.instances.values()[removal.instances@[k] as int].value;
            coverage.includes(value.environment@, value.project@)
        },
        0 <= k < removal.traffic@.len() ==> {
            let value = desired.traffic.values()[removal.traffic@[k] as int].value;
            coverage.includes(value.environment@, value.project@)
        },
{
    crate::search::lemma_matching_upto(
        desired.memberships.rows(),
        covered_membership(keys),
        desired.memberships.rows().len(),
    );
    crate::search::lemma_matching_upto(
        desired.workloads.rows(),
        covered_workload(keys),
        desired.workloads.rows().len(),
    );
    crate::search::lemma_matching_upto(
        desired.instances.values(),
        covered_instance(coverage),
        desired.instances.values().len(),
    );
    crate::search::lemma_matching_upto(
        desired.traffic.values(),
        covered_traffic(coverage),
        desired.traffic.values().len(),
    );
    if 0 <= k < removal.memberships@.len() {
        assert(positions(removal.memberships@)[k] == removal.memberships@[k]);
    }
    if 0 <= k < removal.workloads@.len() {
        assert(positions(removal.workloads@)[k] == removal.workloads@[k]);
    }
    if 0 <= k < removal.instances@.len() {
        assert(positions(removal.instances@)[k] == removal.instances@[k]);
    }
    if 0 <= k < removal.traffic@.len() {
        assert(positions(removal.traffic@)[k] == removal.traffic@[k]);
    }
}

/// An operation on a project in an environment covers that project there
/// and nothing else; one on an environment covers every project in it, and
/// no other environment.
pub proof fn law_operations_cover_their_place(
    coverage: CoverText,
    environment: Seq<char>,
    project: Seq<char>,
)
    ensures
        coverage.includes(environment, project) ==> environment == coverage.environment,
        coverage.project is None ==> (coverage.includes(environment, project) <==> environment
            == coverage.environment),
        coverage.project matches Some(wanted) ==> (coverage.includes(environment, project)
            <==> environment == coverage.environment && project == wanted),
{
}

/// What is selected is exactly what meets the test.
proof fn lemma_selected<T>(items: Seq<T>, p: spec_fn(T) -> bool, i: int)
    requires
        0 <= i < items.len(),
    ensures
        matching(items, p).contains(i) <==> p(items[i]),
{
    lemma_matching_upto(items, p, items.len());
    if matching(items, p).contains(i) {
        let k = choose|k: int| 0 <= k < matching(items, p).len() && matching(items, p)[k] == i;
        assert(p(items[matching(items, p)[k]]));
    }
}

/// A removal leaves nothing behind: every membership, workload, instance and
/// assignment of the environment, or of the project in it, is among what is
/// taken away, and nothing of another environment or project is.
pub proof fn law_removal_leaves_nothing_behind(
    removal: Removal,
    desired: Desired,
    coverage: CoverText,
    i: int,
)
    requires
        removes(removal, desired, coverage, coverage),
        0 <= i,
    ensures
        i < desired.memberships.rows().len() ==> (positions(removal.memberships@).contains(i)
            <==> desired.memberships.rows()[i].0.0@ == coverage.environment && (
        coverage.project matches Some(project) ==> desired.memberships.rows()[i].0.1@ == project)),
        i < desired.workloads.rows().len() ==> (positions(removal.workloads@).contains(i)
            <==> desired.workloads.rows()[i].0.0@ == coverage.environment && (
        coverage.project matches Some(project) ==> desired.workloads.rows()[i].0.1@ == project)),
        i < desired.instances.values().len() ==> (positions(removal.instances@).contains(i)
            <==> desired.instances.values()[i].value.environment@ == coverage.environment && (
        coverage.project matches Some(project) ==> desired.instances.values()[i].value.project@
            == project)),
        i < desired.traffic.values().len() ==> (positions(removal.traffic@).contains(i)
            <==> desired.traffic.values()[i].value.environment@ == coverage.environment && (
        coverage.project matches Some(project) ==> desired.traffic.values()[i].value.project@
            == project)),
{
    if i < desired.memberships.rows().len() {
        lemma_selected(desired.memberships.rows(), covered_membership(coverage), i);
    }
    if i < desired.workloads.rows().len() {
        lemma_selected(desired.workloads.rows(), covered_workload(coverage), i);
    }
    if i < desired.instances.values().len() {
        lemma_selected(desired.instances.values(), covered_instance(coverage), i);
    }
    if i < desired.traffic.values().len() {
        lemma_selected(desired.traffic.values(), covered_traffic(coverage), i);
    }
}

/// What an operation acts on are the workloads it covers: each workload of
/// the environment, or of the project in it, and no other.
pub proof fn law_every_covered_workload_is_named(
    desired: Desired,
    coverage: CoverText,
    i: int,
)
    requires
        0 <= i < desired.workloads.rows().len(),
    ensures
        ({
            let key = desired.workloads.rows()[i].0;
            key.0@ == coverage.environment && (coverage.project matches Some(project) ==> key.1@
                == project) ==> covered_keys(desired, coverage).contains(
                key3(key.0@, key.1@, key.2@),
            )
        }),
        forall|parts: Seq<Seq<char>>| #[trigger]
            covered_keys(desired, coverage).contains(parts) ==> {
                &&& parts.len() == 3
                &&& parts[0] == coverage.environment
                &&& coverage.project matches Some(project) ==> parts[1] == project
            },
{
    let rows = desired.workloads.rows();
    let at = matching(rows, covered_workload(coverage));
    let keys = covered_keys(desired, coverage);
    lemma_matching_upto(rows, covered_workload(coverage), rows.len());
    let key = rows[i].0;
    if covered_workload(coverage)(rows[i]) {
        assert(at.contains(i));
        let k = choose|k: int| 0 <= k < at.len() && at[k] == i;
        assert(keys[k] == key3(key.0@, key.1@, key.2@));
    }
    assert forall|parts: Seq<Seq<char>>| #[trigger] keys.contains(parts) implies {
        &&& parts.len() == 3
        &&& parts[0] == coverage.environment
        &&& coverage.project matches Some(project) ==> parts[1] == project
    } by {
        let k = choose|k: int| 0 <= k < keys.len() && keys[k] == parts;
        assert(covered_workload(coverage)(rows[at[k]]));
    }
}

/// What a domain routes to is kept: an environment, or a project in one, is
/// not removed while some domain routes to it.
pub proof fn law_routed_places_are_kept(desired: Desired, coverage: CoverText)
    ensures
        found(desired.domains.values(), covered_domain(coverage)) is Some <==> exists|i: int|
            {
                let domain = (#[trigger] desired.domains.values()[i]).value;
                &&& 0 <= i < desired.domains.values().len()
                &&& domain.environment@ == coverage.environment
                &&& coverage.project matches Some(project) ==> domain.project@ == project
            },
{
    lemma_first(desired.domains.values(), covered_domain(coverage));
    if found(desired.domains.values(), covered_domain(coverage)) is Some {
        let i = first(desired.domains.values(), covered_domain(coverage))->0;
        assert(covered_domain(coverage)(desired.domains.values()[i]));
    }
}

/// An environment is created exactly when its name is valid and free, every
/// entry of its configuration may be set, its policy is valid, and its
/// provider is known.
pub proof fn law_environments_are_created_once(
    desired: Desired,
    definition: EnvironmentDefinition,
    policy: Option<Result<String, String>>,
    provider_known: bool,
)
    ensures
        creation_refusal(desired, definition, policy, provider_known) is None <==> {
            &&& valid_name(definition.name@)
            &&& !desired.environments@.contains_key(key1(definition.name@))
            &&& policy matches Some(policy) ==> policy is Ok
            &&& definition.provider is Some ==> provider_known
            &&& forall|i: int|
                0 <= i < definition.env.rows().len() ==> !refused_row()(
                    #[trigger] definition.env.rows()[i],
                )
        },
{
    lemma_first(definition.env.rows(), refused_row());
}

/// A restart stops what runs; a change of what is wanted alone stops nothing
/// at once. What should run may start again, what should not may not.
pub proof fn law_only_restarts_stop_at_once(
    change: StateChange,
    wanted: DesiredState,
    restart: bool,
)
    requires
        acts_as_asked(change, wanted, restart),
    ensures
        change.stop <==> restart,
        change.release <==> wanted != DesiredState::Stopped,
{
}

/// A membership is found in the environment that is meant, and a workload
/// likewise; what is not there is reported missing.
pub proof fn law_records_are_found_in_their_place(
    desired: Desired,
    environment: Seq<char>,
    project: Seq<char>,
    workload: Seq<char>,
)
    ensures
        desired.environment_named(environment) is None ==> found_membership(
            desired,
            environment,
            project,
        ) is Err && found_workload(desired, environment, project, workload) is Err,
        desired.environment_named(environment) matches Some(record) ==> {
            let home = record.value.name@;
            &&& place_of(desired, environment) == home
            &&& desired.memberships@.contains_key(key2(home, project)) ==> found_membership(
                desired,
                environment,
                project,
            ) == Ok::<Stored<EnvironmentProjectRecord>, Refusal>(
                desired.memberships@[key2(home, project)],
            )
            &&& !desired.memberships@.contains_key(key2(home, project)) ==> found_membership(
                desired,
                environment,
                project,
            ) is Err
            &&& desired.workloads@.contains_key(key3(home, project, workload)) ==> found_workload(
                desired,
                environment,
                project,
                workload,
            ) == Ok::<(Seq<char>, Stored<WorkloadRecord>), Refusal>(
                (home, desired.workloads@[key3(home, project, workload)]),
            )
            &&& !desired.workloads@.contains_key(key3(home, project, workload)) ==> found_workload(
                desired,
                environment,
                project,
                workload,
            ) is Err
        },
{
}

/// A unit whose hold is released may start again and counts no failures; all
/// else of it stays. A unit asked to stop is stopping if it was starting or
/// running, and stays as it is otherwise.
pub proof fn law_holds_are_released_and_stops_are_asked(runtime: WorkloadRuntime)
    ensures
        !released(runtime).held,
        released(runtime).consecutive_failures == 0,
        released(runtime).state == runtime.state,
        released(runtime).generation == runtime.generation,
        released(runtime).restarts == runtime.restarts,
        released(runtime).deployment_id == runtime.deployment_id,
        released(runtime).pid == runtime.pid,
        runtime.state == Some(ActualState::Running) || runtime.state == Some(ActualState::Starting)
            ==> asked_to_stop(runtime).state == Some(ActualState::Stopping) && !asked_to_stop(
            runtime,
        ).supervised && asked_to_stop(runtime).generation == runtime.generation && asked_to_stop(
            runtime,
        ).held == runtime.held,
        runtime.state == Some(ActualState::Stopped) || runtime.state == Some(ActualState::Failed)
            || runtime.state == Some(ActualState::Completed) || runtime.state == Some(
            ActualState::Denied,
        ) || runtime.state is None ==> asked_to_stop(runtime) == runtime,
{
}

/// The units of workloads that are named are found, and no others.
pub proof fn law_named_units_are_found(
    rows: Seq<(Unit, WorkloadRuntime)>,
    keys: Seq<Key>,
    n: nat,
    i: int,
)
    requires
        n <= rows.len(),
    ensures
        0 <= i < n && (exists|k: int|
            0 <= k < keys.len() && (#[trigger] keys[k]).0@ == rows[i].0.key.0@ && keys[k].1@
                == rows[i].0.key.1@ && keys[k].2@ == rows[i].0.key.2@) ==> named_upto(
            rows,
            keys,
            n,
        ).contains(rows[i].0.parts()),
        0 <= i < named_upto(rows, keys, n).len() ==> exists|j: int, k: int|
            0 <= j < n && 0 <= k < keys.len() && named_upto(rows, keys, n)[i] == (
            #[trigger] rows[j]).0.parts() && (#[trigger] keys[k]).0@ == rows[j].0.key.0@
                && keys[k].1@ == rows[j].0.key.1@ && keys[k].2@ == rows[j].0.key.2@,
    decreases n,
{
    if n > 0 {
        law_named_units_are_found(rows, keys, (n - 1) as nat, i);
        let before = named_upto(rows, keys, (n - 1) as nat);
        let after = named_upto(rows, keys, n);
        let last = rows[n - 1].0;
        assert(last.parts()[0] == last.key.0@ && last.parts()[1] == last.key.1@ && last.parts()[2]
            == last.key.2@);
        if 0 <= i < n && exists|k: int|
            0 <= k < keys.len() && (#[trigger] keys[k]).0@ == rows[i].0.key.0@ && keys[k].1@
                == rows[i].0.key.1@ && keys[k].2@ == rows[i].0.key.2@ {
            if i < n - 1 {
                let k = choose|k: int| 0 <= k < before.len() && before[k] == rows[i].0.parts();
                assert(after[k] == rows[i].0.parts());
            } else {
                let k = choose|k: int|
                    0 <= k < keys.len() && (#[trigger] keys[k]).0@ == rows[i].0.key.0@
                        && keys[k].1@ == rows[i].0.key.1@ && keys[k].2@ == rows[i].0.key.2@;
                assert(last.parts()[0] == keys[k].0@);
                assert(is_named(keys, last.parts()));
                assert(after[after.len() - 1] == last.parts());
            }
        }
        if 0 <= i < after.len() {
            if i < before.len() {
                assert(after[i] == before[i]);
                let (j, k) = choose|j: int, k: int|
                    0 <= j < n - 1 && 0 <= k < keys.len() && before[i] == (
                    #[trigger] rows[j]).0.parts() && (#[trigger] keys[k]).0@ == rows[j].0.key.0@
                        && keys[k].1@ == rows[j].0.key.1@ && keys[k].2@ == rows[j].0.key.2@;
                assert(0 <= j < n && after[i] == rows[j].0.parts() && keys[k].0@
                    == rows[j].0.key.0@);
            } else {
                assert(after[i] == rows[n - 1].0.parts());
                let k = choose|k: int|
                    0 <= k < keys.len() && last.parts()[0] == (#[trigger] keys[k]).0@
                        && last.parts()[1] == keys[k].1@ && last.parts()[2] == keys[k].2@;
                assert(keys[k].0@ == rows[n - 1].0.key.0@);
            }
        }
    }
}

/// Every listed unit that starts or runs is cancelled, and no other.
pub proof fn law_active_units_are_cancelled(
    units: Seq<Unit>,
    runtime: Map<Seq<Seq<char>>, WorkloadRuntime>,
    n: nat,
    i: int,
)
    requires
        n <= units.len(),
    ensures
        0 <= i < n && runtime.contains_key(units[i].parts()) && (runtime[units[i].parts()].state
            == Some(ActualState::Starting) || runtime[units[i].parts()].state == Some(
            ActualState::Running,
        )) ==> cancelled_upto(units, runtime, n).contains(units[i].parts()),
        0 <= i < cancelled_upto(units, runtime, n).len() ==> {
            let unit = cancelled_upto(units, runtime, n)[i];
            &&& runtime.contains_key(unit)
            &&& runtime[unit].state == Some(ActualState::Starting) || runtime[unit].state == Some(
                ActualState::Running,
            )
            &&& exists|k: int| 0 <= k < n && (#[trigger] units[k]).parts() == unit
        },
    decreases n,
{
    if n > 0 {
        law_active_units_are_cancelled(units, runtime, (n - 1) as nat, i);
        let before = cancelled_upto(units, runtime, (n - 1) as nat);
        let after = cancelled_upto(units, runtime, n);
        let last = units[n - 1].parts();
        if 0 <= i < n && runtime.contains_key(units[i].parts()) && is_active(
            runtime[units[i].parts()].state,
        ) {
            if i < n - 1 {
                let k = choose|k: int| 0 <= k < before.len() && before[k] == units[i].parts();
                assert(after[k] == units[i].parts());
            } else if is_listed(units, last, n - 1) {
                let u = choose|u: int| 0 <= u < n - 1 && (#[trigger] units[u]).parts() == last;
                law_active_units_are_cancelled(units, runtime, (n - 1) as nat, u);
                let k = choose|k: int| 0 <= k < before.len() && before[k] == units[u].parts();
                assert(after[k] == last);
            } else {
                assert(after[after.len() - 1] == last);
            }
        }
        if 0 <= i < after.len() {
            if i < before.len() {
                assert(after[i] == before[i]);
                let k = choose|k: int| 0 <= k < n - 1 && (#[trigger] units[k]).parts() == before[i];
                assert(0 <= k < n && units[k].parts() == after[i]);
            } else {
                assert(units[n - 1].parts() == after[i]);
            }
        }
    }
}

/// An environment whose name is taken is a conflict; one that is refused for
/// anything else is invalid.
pub proof fn law_taken_names_are_conflicts(
    desired: Desired,
    definition: EnvironmentDefinition,
    policy: Option<Result<String, String>>,
    provider_known: bool,
)
    ensures
        creation_refusal(desired, definition, policy, provider_known) matches Some(refusal) ==> {
            &&& refusal is Conflict || refusal is Invalid
            &&& refusal is Conflict ==> desired.environments@.contains_key(
                seq![definition.name@],
            )
            &&& !valid_name(definition.name@) ==> refusal is Invalid
            &&& definition.provider is Some && !provider_known ==> refusal is Invalid
        },
        desired.environments@.contains_key(seq![definition.name@]) ==> creation_refusal(
            desired,
            definition,
            policy,
            provider_known,
        ) is Some,
{
    assert(key1(definition.name@) =~= seq![definition.name@]);
}

} // verus!
