//! Moving traffic: making one deployment the one that serves its project.

use vstd::prelude::*;

use crate::admission::{evidence_named, EvidenceNamed};
use crate::desired::{workload_in, Desired};
use crate::error::EnvironmentError;
use crate::events::Key;
use crate::ids::{endpoint, endpoint_text};
use crate::model::{copy_ports, Config, DesiredState, PortBinding, WorkloadKind};
use crate::ports::{binding_named, find_host, host_of};
use crate::results::{moved_texts, MovedEndpoint, MovedText};
use crate::search::{found, lemma_first};
use crate::state::{
    DeploymentRecord, DeploymentWorkload, DomainRecord, EnvironmentProjectRecord, InstanceState,
    ProjectRevisionRecord, RevisionWorkload, Stored, TrafficAssignmentRecord,
    WorkloadInstanceRecord, WorkloadRecord,
};
use crate::table::{find_item, key1, key2, key3, Table};
use crate::text::{
    copy_option, lemma_text_irreflexive, lemma_text_total, lemma_text_transitive, less, opt_text,
    same, text_less, texts,
};

verus! {

// ---- Configuration ----------------------------------------------------------

/// The project configuration a deployment runs with: its own, or, for one
/// recorded before releases recorded theirs, the membership's.
pub open spec fn run_config_rows(
    deployment: DeploymentRecord,
    membership: Option<Stored<EnvironmentProjectRecord>>,
) -> Seq<(String, String)> {
    if deployment.config.rows().len() > 0 || deployment.config_digest is Some {
        deployment.config.rows()
    } else {
        match membership {
            Some(membership) => membership.value.config.rows(),
            None => Seq::empty(),
        }
    }
}

/// The project configuration a deployment runs with. Deployments made
/// before releases recorded their configuration run with the membership's.
pub fn run_config(
    deployment: &DeploymentRecord,
    membership: Option<&Stored<EnvironmentProjectRecord>>,
) -> (r: Config)
    ensures
        r.rows() == run_config_rows(
            *deployment,
            match membership {
                Some(membership) => Some(*membership),
                None => None,
            },
        ),
{
    if !deployment.config.is_empty() || deployment.config_digest.is_some() {
        return deployment.config.copy();
    }
    match membership {
        Some(membership) => membership.value.config.copy(),
        None => Table::new(),
    }
}

// ---- Endpoints --------------------------------------------------------------

/// A workload's stable endpoints: the release's evidence, or, for a
/// deployment recorded before releases, the workload's current bindings.
pub open spec fn endpoints_of(
    desired: Desired,
    environment: Seq<char>,
    project: Seq<char>,
    workload: Seq<char>,
    evidence: DeploymentWorkload,
) -> Seq<PortBinding> {
    if evidence.endpoints@.len() > 0 || evidence.kind != WorkloadKind::Service {
        evidence.endpoints@
    } else {
        current_ports(desired, environment, project, workload)
    }
}

/// The endpoints a workload has now.
pub open spec fn current_ports(
    desired: Desired,
    environment: Seq<char>,
    project: Seq<char>,
    workload: Seq<char>,
) -> Seq<PortBinding> {
    if desired.workloads@.contains_key(key3(environment, project, workload)) {
        desired.workloads@[key3(environment, project, workload)].value.ports@
    } else {
        Seq::empty()
    }
}

/// A workload's stable endpoints: the release's evidence, or, for a
/// deployment recorded before releases, the workload's current bindings.
pub fn resolved_endpoints(desired: &Desired, key: &Key, evidence: &DeploymentWorkload) -> (r: Vec<
    PortBinding,
>)
    ensures
        r@ == endpoints_of(*desired, key.0@, key.1@, key.2@, *evidence),
{
    if evidence.endpoints.len() > 0 || evidence.kind != WorkloadKind::Service {
        return copy_ports(&evidence.endpoints);
    }
    match desired.workloads.get(key) {
        Some(workload) => copy_ports(&workload.value.ports),
        None => Vec::new(),
    }
}

/// The endpoints a workload gets when a deployment becomes the one that
/// serves.
pub open spec fn target_ports(
    desired: Desired,
    target: Stored<DeploymentRecord>,
    workload: Seq<char>,
) -> Seq<PortBinding> {
    match found(target.value.workloads@, evidence_named(workload)) {
        Some(evidence) => endpoints_of(
            desired,
            target.value.environment@,
            target.value.project@,
            workload,
            evidence,
        ),
        None => current_ports(
            desired,
            target.value.environment@,
            target.value.project@,
            workload,
        ),
    }
}

fn find_target_ports(desired: &Desired, target: &Stored<DeploymentRecord>, key: &Key) -> (r: Vec<
    PortBinding,
>)
    requires
        key.0@ == target.value.environment@,
        key.1@ == target.value.project@,
    ensures
        r@ == target_ports(*desired, *target, key.2@),
{
    match find_item(&target.value.workloads, &EvidenceNamed { name: &key.2 }) {
        Some(evidence) => resolved_endpoints(desired, key, evidence),
        None => match desired.workloads.get(key) {
            Some(workload) => copy_ports(&workload.value.ports),
            None => Vec::new(),
        },
    }
}

// ---- What is written --------------------------------------------------------

/// A membership to write: over the stored one it replaces, or new.
pub struct MembershipWrite {
    pub replaces: Option<String>,
    pub record: EnvironmentProjectRecord,
}

/// A workload to write: over the stored one it replaces, or new.
pub struct WorkloadWrite {
    pub replaces: Option<String>,
    pub record: WorkloadRecord,
}

/// An instance's new state.
pub struct InstanceWrite {
    pub id: String,
    pub state: InstanceState,
}

/// A traffic assignment to write: over the stored one it replaces, or new.
pub struct TrafficWrite {
    pub replaces: Option<String>,
    /// The revision that served the endpoint before.
    pub from_revision: Option<String>,
    pub record: TrafficAssignmentRecord,
}

/// The endpoint an assignment moves.
pub open spec fn moved_text(write: TrafficWrite) -> MovedText {
    MovedText {
        endpoint: write.record.endpoint@,
        host_port: write.record.host_port,
        from_instance: opt_text(write.record.previous_instance_id),
        from_revision: opt_text(write.from_revision),
        to_instance: write.record.instance_id@,
        to_port: write.record.target_port,
    }
}

/// The endpoints that assignments move.
pub fn moved_endpoints(traffic: &Vec<TrafficWrite>) -> (r: Vec<MovedEndpoint>)
    ensures
        moved_texts(r@) == traffic@.map_values(|write: TrafficWrite| moved_text(write)),
{
    let ghost wanted = traffic@.map_values(|write: TrafficWrite| moved_text(write));
    let mut r: Vec<MovedEndpoint> = Vec::new();
    let mut i: usize = 0;
    proof {
        assert(moved_texts(r@) =~= wanted.take(0));
    }
    while i < traffic.len()
        invariant
            i <= traffic@.len(),
            moved_texts(r@) == wanted.take(i as int),
        decreases traffic@.len() - i,
    {
        let write = &traffic[i];
        let ghost before = r@;
        r.push(
            MovedEndpoint {
                endpoint: write.record.endpoint.clone(),
                host_port: write.record.host_port,
                from_instance: copy_option(&write.record.previous_instance_id),
                from_revision: copy_option(&write.from_revision),
                to_instance: write.record.instance_id.clone(),
                to_port: write.record.target_port,
            },
        );
        proof {
            assert(moved_texts(r@) =~= moved_texts(before).push(moved_text(*write)));
            assert(wanted.take(i + 1) =~= wanted.take(i as int).push(moved_text(*write)));
        }
        i += 1;
    }
    proof {
        assert(wanted.take(i as int) =~= wanted);
    }
    r
}

/// Everything that changes when a deployment becomes the one that serves,
/// in one transaction.
pub struct RouteChange {
    pub membership: MembershipWrite,
    pub workloads: Vec<WorkloadWrite>,
    /// Identifiers of workloads the revision no longer has.
    pub removed_workloads: Vec<String>,
    pub instances: Vec<InstanceWrite>,
    pub traffic: Vec<TrafficWrite>,
    /// Identifiers of assignments of endpoints that no longer exist.
    pub removed_traffic: Vec<String>,
}

/// The stored workload under a name in a release's project.
pub open spec fn stored_workload(
    desired: Desired,
    target: Stored<DeploymentRecord>,
    workload: Seq<char>,
) -> Option<Stored<WorkloadRecord>> {
    let key = key3(target.value.environment@, target.value.project@, workload);
    if desired.workloads@.contains_key(key) {
        Some(desired.workloads@[key])
    } else {
        None
    }
}

/// The stored membership of a release's project.
pub open spec fn stored_membership(desired: Desired, target: Stored<DeploymentRecord>) -> Option<
    Stored<EnvironmentProjectRecord>,
> {
    let key = key2(target.value.environment@, target.value.project@);
    if desired.memberships@.contains_key(key) {
        Some(desired.memberships@[key])
    } else {
        None
    }
}

/// The membership names the target as current; it keeps the project's
/// desired state.
pub open spec fn is_membership_write(
    write: MembershipWrite,
    desired: Desired,
    target: Stored<DeploymentRecord>,
    now: i64,
) -> bool {
    let existing = stored_membership(desired, target);
    let record = write.record;
    &&& opt_text(write.replaces) == (match existing {
        Some(existing) => Some(existing.id@),
        None => None,
    })
    &&& record.environment_id@ == target.value.environment_id@
    &&& record.environment@ == target.value.environment@
    &&& record.project_id@ == target.value.project_id@
    &&& record.project@ == target.value.project@
    &&& record.desired_state == (match existing {
        Some(existing) => existing.value.desired_state,
        None => DesiredState::Running,
    })
    &&& record.config.rows() == run_config_rows(target.value, existing)
    &&& opt_text(record.revision_id) == Some(target.value.revision_id@)
    &&& opt_text(record.deployment_id) == Some(target.id@)
    &&& record.created_at == (match existing {
        Some(existing) => existing.value.created_at,
        None => now,
    })
    &&& record.updated_at == now
}

/// A workload follows the revision; it keeps its desired state.
pub open spec fn is_workload_write(
    write: WorkloadWrite,
    desired: Desired,
    target: Stored<DeploymentRecord>,
    workload: RevisionWorkload,
) -> bool {
    let existing = stored_workload(desired, target, workload.name@);
    let record = write.record;
    &&& opt_text(write.replaces) == (match existing {
        Some(existing) => Some(existing.id@),
        None => None,
    })
    &&& record.environment_id@ == target.value.environment_id@
    &&& record.environment@ == target.value.environment@
    &&& record.project_id@ == target.value.project_id@
    &&& record.project@ == target.value.project@
    &&& record.name@ == workload.name@
    &&& record.kind == workload.kind
    &&& record.desired_state == (match existing {
        Some(existing) => existing.value.desired_state,
        None => workload.desired_state,
    })
    &&& record.restart == workload.restart
    &&& record.bundle_id@ == workload.bundle_id@
    &&& record.workload_identity@ == workload.workload_identity@
    &&& record.runtime@ == workload.runtime@
    &&& record.ports@ == target_ports(desired, target, workload.name@)
    &&& record.deployment_id@ == target.id@
}

/// Whether a revision has a workload.
pub open spec fn revision_has(revision: ProjectRevisionRecord, name: Seq<char>) -> bool {
    exists|i: int| 0 <= i < revision.workloads@.len() && (#[trigger] revision.workloads@[i]).name@ == name
}

fn has_workload(revision: &ProjectRevisionRecord, name: &str) -> (r: bool)
    ensures
        r == revision_has(*revision, name@),
{
    let mut i: usize = 0;
    while i < revision.workloads.len()
        invariant
            i <= revision.workloads@.len(),
            forall|j: int| 0 <= j < i ==> (#[trigger] revision.workloads@[j]).name@ != name@,
        decreases revision.workloads@.len() - i,
    {
        if same(&revision.workloads[i].name, name) {
            return true;
        }
        i += 1;
    }
    false
}

/// The identifiers, in the first `n` rows of workloads, of the project's
/// that the revision does not have.
pub open spec fn dropped_workloads(
    rows: Seq<(Key, Stored<WorkloadRecord>)>,
    n: nat,
    target: Stored<DeploymentRecord>,
    revision: ProjectRevisionRecord,
) -> Seq<Seq<char>>
    decreases n,
{
    if n == 0 {
        Seq::empty()
    } else {
        let before = dropped_workloads(rows, (n - 1) as nat, target, revision);
        let row = rows[n - 1];
        if workload_in(target.value.environment@, target.value.project@)(row) && !revision_has(
            revision,
            row.0.2@,
        ) {
            before.push(row.1.id@)
        } else {
            before
        }
    }
}

// ---- Instances --------------------------------------------------------------

/// Whether an instance belongs to a project in an environment.
pub open spec fn instance_in(
    instance: WorkloadInstanceRecord,
    environment: Seq<char>,
    project: Seq<char>,
) -> bool {
    instance.environment@ == environment && instance.project@ == project
}

/// An instance's state once a deployment serves its project: the
/// deployment's instances serve; what served drains; what had not served yet
/// stops.
pub open spec fn routed_state(instance: WorkloadInstanceRecord, target_id: Seq<char>) -> InstanceState {
    if instance.deployment_id@ == target_id {
        InstanceState::Serving
    } else {
        match instance.state {
            InstanceState::Serving => InstanceState::Draining,
            InstanceState::Starting => InstanceState::Stopped,
            InstanceState::Ready => InstanceState::Stopped,
            other => other,
        }
    }
}

fn next_state(instance: &WorkloadInstanceRecord, target_id: &str) -> (r: InstanceState)
    ensures
        r == routed_state(*instance, target_id@),
{
    if same(&instance.deployment_id, target_id) {
        InstanceState::Serving
    } else {
        match instance.state {
            InstanceState::Serving => InstanceState::Draining,
            InstanceState::Starting => InstanceState::Stopped,
            InstanceState::Ready => InstanceState::Stopped,
            other => other,
        }
    }
}

/// The new states, among the first `n` instances, of the project's that
/// change.
pub open spec fn routed_instances(
    instances: Seq<Stored<WorkloadInstanceRecord>>,
    n: nat,
    target: Stored<DeploymentRecord>,
) -> Seq<(Seq<char>, InstanceState)>
    decreases n,
{
    if n == 0 {
        Seq::empty()
    } else {
        let before = routed_instances(instances, (n - 1) as nat, target);
        let instance = instances[n - 1];
        let next = routed_state(instance.value, target.id@);
        if instance_in(instance.value, target.value.environment@, target.value.project@) && next
            != instance.value.state {
            before.push((instance.id@, next))
        } else {
            before
        }
    }
}

pub open spec fn instance_writes(writes: Seq<InstanceWrite>) -> Seq<(Seq<char>, InstanceState)> {
    writes.map_values(|write: InstanceWrite| (write.id@, write.state))
}

// ---- Traffic ----------------------------------------------------------------

/// The names, among the first `n` domains, of those routed to an endpoint.
pub open spec fn routed_domains(
    domains: Seq<Stored<DomainRecord>>,
    n: nat,
    name: Seq<char>,
) -> Seq<Seq<char>>
    decreases n,
{
    if n == 0 {
        Seq::empty()
    } else {
        let before = routed_domains(domains, (n - 1) as nat, name);
        let domain = domains[n - 1].value;
        if endpoint_text(domain.environment@, domain.project@, domain.workload@, domain.port@)
            == name {
            before.push(domain.name@)
        } else {
            before
        }
    }
}

fn find_routed_domains(desired: &Desired, name: &str) -> (r: Vec<String>)
    ensures
        texts(r@) == routed_domains(
            desired.domains.values(),
            desired.domains.values().len(),
            name@,
        ),
{
    let ghost domains = desired.domains.values();
    let mut r: Vec<String> = Vec::new();
    let mut i: usize = 0;
    proof {
        assert(texts(r@) =~= Seq::<Seq<char>>::empty());
    }
    while i < desired.domains.len()
        invariant
            i <= domains.len(),
            texts(r@) == routed_domains(domains, i as nat, name@),
        decreases domains.len() - i,
    {
        let domain = &desired.domains.value_at(i).value;
        if same(
            &endpoint(&domain.environment, &domain.project, &domain.workload, &domain.port),
            name,
        ) {
            let ghost before = r@;
            r.push(domain.name.clone());
            proof {
                assert(texts(r@) =~= texts(before).push(domain.name@));
            }
        }
        i += 1;
    }
    r
}

/// One endpoint's new assignment.
pub ghost struct Move {
    pub replaces: Option<Seq<char>>,
    pub from_revision: Option<Seq<char>>,
    pub previous_deployment: Option<Seq<char>>,
    pub previous_instance: Option<Seq<char>>,
    pub endpoint: Seq<char>,
    pub workload: Seq<char>,
    pub port: Seq<char>,
    pub host_port: u16,
    pub domains: Seq<Seq<char>>,
    pub instance_id: Seq<char>,
    pub target_port: u16,
}

/// Whether `write` records a move to a target.
pub open spec fn records_move(
    write: TrafficWrite,
    target: Stored<DeploymentRecord>,
    now: i64,
    m: Move,
) -> bool {
    let record = write.record;
    &&& opt_text(write.replaces) == m.replaces
    &&& opt_text(write.from_revision) == m.from_revision
    &&& opt_text(record.previous_deployment_id) == m.previous_deployment
    &&& opt_text(record.previous_instance_id) == m.previous_instance
    &&& record.endpoint@ == m.endpoint
    &&& record.environment@ == target.value.environment@
    &&& record.project@ == target.value.project@
    &&& record.workload@ == m.workload
    &&& record.port@ == m.port
    &&& record.host_port == m.host_port
    &&& texts(record.domains@) == m.domains
    &&& record.deployment_id@ == target.id@
    &&& record.revision@ == target.value.revision@
    &&& record.instance_id@ == m.instance_id
    &&& record.target_port == m.target_port
    &&& record.status@ == "active"@
    &&& record.switched_at == now
}

pub open spec fn records_moves(
    writes: Seq<TrafficWrite>,
    target: Stored<DeploymentRecord>,
    now: i64,
    moves: Seq<Move>,
) -> bool {
    &&& writes.len() == moves.len()
    &&& forall|i: int|
        0 <= i < writes.len() ==> records_move(#[trigger] writes[i], target, now, moves[i])
}

/// The assignment of one endpoint to an instance's port.
pub open spec fn move_of(
    desired: Desired,
    target: Stored<DeploymentRecord>,
    workload: Seq<char>,
    instance: Stored<WorkloadInstanceRecord>,
    binding: PortBinding,
    target_port: u16,
) -> Move {
    let name = endpoint_text(
        target.value.environment@,
        target.value.project@,
        workload,
        binding.name@,
    );
    let known = desired.traffic@.contains_key(key1(name));
    let existing = desired.traffic@[key1(name)];
    Move {
        replaces: if known {
            Some(existing.id@)
        } else {
            None
        },
        from_revision: if known {
            Some(existing.value.revision@)
        } else {
            None
        },
        previous_deployment: if known {
            Some(existing.value.deployment_id@)
        } else {
            None
        },
        previous_instance: if known {
            Some(existing.value.instance_id@)
        } else {
            None
        },
        endpoint: name,
        workload,
        port: binding.name@,
        host_port: binding.host,
        domains: routed_domains(desired.domains.values(), desired.domains.values().len(), name),
        instance_id: instance.id@,
        target_port,
    }
}

/// The assignments of a workload's first `n` endpoints: each that its
/// instance has a port for.
pub open spec fn binding_moves(
    desired: Desired,
    target: Stored<DeploymentRecord>,
    workload: Seq<char>,
    instance: Stored<WorkloadInstanceRecord>,
    bindings: Seq<PortBinding>,
    n: nat,
) -> Seq<Move>
    decreases n,
{
    if n == 0 {
        Seq::empty()
    } else {
        let before = binding_moves(desired, target, workload, instance, bindings, (n - 1) as nat);
        match host_of(instance.value.ports@, bindings[n - 1].name@) {
            Some(target_port) => before.push(
                move_of(desired, target, workload, instance, bindings[n - 1], target_port),
            ),
            None => before,
        }
    }
}

/// The assignments of one service: of one with an instance of the target,
/// one per endpoint.
pub open spec fn service_moves(
    desired: Desired,
    target: Stored<DeploymentRecord>,
    service: Seq<char>,
) -> Seq<Move> {
    let ports = target_ports(desired, target, service);
    match desired.instance_at(
        target.value.environment@,
        target.value.project@,
        service,
        target.id@,
    ) {
        Some(instance) => binding_moves(desired, target, service, instance, ports, ports.len()),
        None => Seq::empty(),
    }
}

/// The assignments of the first `n` services.
pub open spec fn all_moves(
    desired: Desired,
    target: Stored<DeploymentRecord>,
    services: Seq<Seq<char>>,
    n: nat,
) -> Seq<Move>
    decreases n,
{
    if n == 0 {
        Seq::empty()
    } else {
        all_moves(desired, target, services, (n - 1) as nat) + service_moves(
            desired,
            target,
            services[n - 1],
        )
    }
}

/// A name put in its place among names in ascending order, once.
pub open spec fn insert_name(names: Seq<Seq<char>>, name: Seq<char>) -> Seq<Seq<char>>
    decreases names.len(),
{
    if names.len() == 0 {
        seq![name]
    } else if names[0] == name {
        names
    } else if text_less(name, names[0]) {
        seq![name] + names
    } else {
        seq![names[0]] + insert_name(names.drop_first(), name)
    }
}

/// The services among the first `n` workloads: by name, each once.
pub open spec fn services_by_name(workloads: Seq<RevisionWorkload>, n: nat) -> Seq<Seq<char>>
    decreases n,
{
    if n == 0 {
        Seq::empty()
    } else {
        let before = services_by_name(workloads, (n - 1) as nat);
        if workloads[n - 1].kind == WorkloadKind::Service {
            insert_name(before, workloads[n - 1].name@)
        } else {
            before
        }
    }
}

/// Every name before the `i`-th sorts before a name: it is put further on.
proof fn lemma_insert_from(names: Seq<Seq<char>>, name: Seq<char>, i: int)
    requires
        0 <= i <= names.len(),
        forall|j: int|
            0 <= j < i ==> (#[trigger] names[j]) != name && !text_less(name, names[j]),
    ensures
        insert_name(names, name) == names.take(i) + insert_name(names.skip(i), name),
    decreases i,
{
    if i == 0 {
        assert(names.take(0) + insert_name(names.skip(0), name) =~= insert_name(names, name)) by {
            assert(names.skip(0) =~= names);
        }
    } else {
        let rest = names.drop_first();
        assert(names[0] != name && !text_less(name, names[0]));
        assert forall|j: int| 0 <= j < i - 1 implies (#[trigger] rest[j]) != name && !text_less(
            name,
            rest[j],
        ) by {
            assert(rest[j] == names[j + 1]);
        }
        lemma_insert_from(rest, name, i - 1);
        assert(rest.skip(i - 1) =~= names.skip(i));
        assert(seq![names[0]] + rest.take(i - 1) =~= names.take(i));
        assert(insert_name(names, name) =~= names.take(i) + insert_name(names.skip(i), name));
    }
}

fn put_name(names: &mut Vec<String>, name: &str)
    ensures
        texts(final(names)@) == insert_name(texts(old(names)@), name@),
{
    let ghost before = names@;
    let ghost all = texts(names@);
    let mut i: usize = 0;
    while i < names.len() && !same(&names[i], name) && !less(name, &names[i])
        invariant
            i <= names@.len(),
            names@ == before,
            all == texts(before),
            forall|j: int|
                0 <= j < i ==> (#[trigger] all[j]) != name@ && !text_less(name@, all[j]),
        decreases names@.len() - i,
    {
        i += 1;
    }
    proof {
        lemma_insert_from(all, name@, i as int);
        let rest = all.skip(i as int);
        if i < names@.len() {
            assert(rest[0] == all[i as int]);
        }
    }
    if i < names.len() && same(&names[i], name) {
        proof {
            assert(all.take(i as int) + all.skip(i as int) =~= all);
        }
        return;
    }
    names.insert(i, name.to_owned());
    proof {
        assert(texts(names@) =~= all.take(i as int) + (seq![name@] + all.skip(i as int)));
        if i == before.len() {
            assert(seq![name@] + all.skip(i as int) =~= seq![name@]);
        }
    }
}

/// The services of a revision: by name, each once.
fn find_services(revision: &ProjectRevisionRecord) -> (r: Vec<String>)
    ensures
        texts(r@) == services_by_name(revision.workloads@, revision.workloads@.len()),
{
    let mut r: Vec<String> = Vec::new();
    let mut i: usize = 0;
    proof {
        assert(texts(r@) =~= Seq::<Seq<char>>::empty());
    }
    while i < revision.workloads.len()
        invariant
            i <= revision.workloads@.len(),
            texts(r@) == services_by_name(revision.workloads@, i as nat),
        decreases revision.workloads@.len() - i,
    {
        let workload = &revision.workloads[i];
        if workload.kind == WorkloadKind::Service {
            put_name(&mut r, &workload.name);
        }
        i += 1;
    }
    r
}

/// Whether an endpoint is among those assigned.
pub open spec fn is_assigned(moves: Seq<Move>, name: Seq<char>) -> bool {
    exists|i: int| 0 <= i < moves.len() && (#[trigger] moves[i]).endpoint == name
}

/// The identifiers, in the first `n` rows of assignments, of the project's
/// whose endpoint no move covers.
pub open spec fn stale_traffic(
    rows: Seq<(String, Stored<TrafficAssignmentRecord>)>,
    n: nat,
    target: Stored<DeploymentRecord>,
    moves: Seq<Move>,
) -> Seq<Seq<char>>
    decreases n,
{
    if n == 0 {
        Seq::empty()
    } else {
        let before = stale_traffic(rows, (n - 1) as nat, target, moves);
        let assignment = rows[n - 1].1;
        if assignment.value.environment@ == target.value.environment@
            && assignment.value.project@ == target.value.project@ && !is_assigned(
            moves,
            rows[n - 1].0@,
        ) {
            before.push(assignment.id@)
        } else {
            before
        }
    }
}

// ---- The change -------------------------------------------------------------

fn write_membership(desired: &Desired, target: &Stored<DeploymentRecord>, now: i64) -> (r:
    MembershipWrite)
    ensures
        is_membership_write(r, *desired, *target, now),
{
    let record = &target.value;
    let existing = desired.membership_of(&record.environment, &record.project);
    MembershipWrite {
        replaces: match existing {
            Some(existing) => Some(existing.id.clone()),
            None => None,
        },
        record: EnvironmentProjectRecord {
            environment_id: record.environment_id.clone(),
            environment: record.environment.clone(),
            project_id: record.project_id.clone(),
            project: record.project.clone(),
            desired_state: match existing {
                Some(existing) => existing.value.desired_state,
                None => DesiredState::Running,
            },
            config: run_config(record, existing),
            revision_id: Some(record.revision_id.clone()),
            deployment_id: Some(target.id.clone()),
            created_at: match existing {
                Some(existing) => existing.value.created_at,
                None => now,
            },
            updated_at: now,
        },
    }
}

fn write_workload(
    desired: &Desired,
    target: &Stored<DeploymentRecord>,
    workload: &RevisionWorkload,
) -> (r: WorkloadWrite)
    ensures
        is_workload_write(r, *desired, *target, *workload),
{
    let record = &target.value;
    let key: Key = (record.environment.clone(), record.project.clone(), workload.name.clone());
    let ports = find_target_ports(desired, target, &key);
    let existing = desired.workloads.get(&key);
    WorkloadWrite {
        replaces: match existing {
            Some(existing) => Some(existing.id.clone()),
            None => None,
        },
        record: WorkloadRecord {
            environment_id: record.environment_id.clone(),
            environment: record.environment.clone(),
            project_id: record.project_id.clone(),
            project: record.project.clone(),
            name: workload.name.clone(),
            kind: workload.kind,
            desired_state: match existing {
                Some(existing) => existing.value.desired_state,
                None => workload.desired_state,
            },
            restart: workload.restart,
            bundle_id: workload.bundle_id.clone(),
            workload_identity: workload.workload_identity.clone(),
            runtime: workload.runtime.clone(),
            ports,
            deployment_id: target.id.clone(),
        },
    }
}

fn write_traffic(
    desired: &Desired,
    target: &Stored<DeploymentRecord>,
    workload: &str,
    instance: &Stored<WorkloadInstanceRecord>,
    binding: &PortBinding,
    target_port: u16,
    now: i64,
) -> (r: TrafficWrite)
    ensures
        records_move(
            r,
            *target,
            now,
            move_of(*desired, *target, workload@, *instance, *binding, target_port),
        ),
{
    let record = &target.value;
    let name = endpoint(&record.environment, &record.project, workload, &binding.name);
    let existing = desired.traffic.at(&name);
    let domains = find_routed_domains(desired, &name);
    TrafficWrite {
        replaces: match existing {
            Some(existing) => Some(existing.id.clone()),
            None => None,
        },
        from_revision: match existing {
            Some(existing) => Some(existing.value.revision.clone()),
            None => None,
        },
        record: TrafficAssignmentRecord {
            endpoint: name,
            environment: record.environment.clone(),
            project: record.project.clone(),
            workload: workload.to_owned(),
            port: binding.name.clone(),
            host_port: binding.host,
            domains,
            deployment_id: target.id.clone(),
            revision: record.revision.clone(),
            instance_id: instance.id.clone(),
            target_port,
            status: "active".to_owned(),
            previous_deployment_id: match existing {
                Some(existing) => Some(existing.value.deployment_id.clone()),
                None => None,
            },
            previous_instance_id: match existing {
                Some(existing) => Some(existing.value.instance_id.clone()),
                None => None,
            },
            switched_at: now,
        },
    }
}

/// Write the assignments of one service after those already written.
fn append_moves(
    desired: &Desired,
    target: &Stored<DeploymentRecord>,
    service: &str,
    now: i64,
    traffic: &mut Vec<TrafficWrite>,
    Ghost(before): Ghost<Seq<Move>>,
)
    requires
        records_moves(old(traffic)@, *target, now, before),
    ensures
        records_moves(
            final(traffic)@,
            *target,
            now,
            before + service_moves(*desired, *target, service@),
        ),
{
    let record = &target.value;
    let key: Key = (record.environment.clone(), record.project.clone(), service.to_owned());
    proof {
        assert(before + Seq::<Move>::empty() =~= before);
    }
    let ports = find_target_ports(desired, target, &key);
    if let Some(instance) = desired.instance(&key, &target.id) {
        let mut i: usize = 0;
        while i < ports.len()
            invariant
                i <= ports@.len(),
                records_moves(
                    traffic@,
                    *target,
                    now,
                    before + binding_moves(
                        *desired,
                        *target,
                        service@,
                        *instance,
                        ports@,
                        i as nat,
                    ),
                ),
            decreases ports@.len() - i,
        {
            let binding = &ports[i];
            let ghost so_far = before + binding_moves(
                *desired,
                *target,
                service@,
                *instance,
                ports@,
                i as nat,
            );
            if let Some(target_port) = find_host(&instance.value.ports, &binding.name) {
                traffic.push(
                    write_traffic(
                        desired,
                        target,
                        service,
                        instance,
                        binding,
                        target_port,
                        now,
                    ),
                );
                proof {
                    let next = move_of(
                        *desired,
                        *target,
                        service@,
                        *instance,
                        *binding,
                        target_port,
                    );
                    assert(before + binding_moves(
                        *desired,
                        *target,
                        service@,
                        *instance,
                        ports@,
                        (i + 1) as nat,
                    ) =~= so_far.push(next));
                }
            }
            i += 1;
        }
    }
}

fn endpoint_is_assigned(
    traffic: &Vec<TrafficWrite>,
    name: &str,
    Ghost(target): Ghost<Stored<DeploymentRecord>>,
    Ghost(now): Ghost<i64>,
    Ghost(moves): Ghost<Seq<Move>>,
) -> (r: bool)
    requires
        records_moves(traffic@, target, now, moves),
    ensures
        r == is_assigned(moves, name@),
{
    let mut i: usize = 0;
    while i < traffic.len()
        invariant
            i <= traffic@.len(),
            forall|j: int| 0 <= j < i ==> (#[trigger] moves[j]).endpoint != name@,
        decreases traffic@.len() - i,
    {
        proof {
            assert(records_move(traffic@[i as int], target, now, moves[i as int]));
        }
        if same(&traffic[i].record.endpoint, name) {
            return true;
        }
        i += 1;
    }
    false
}

/// Whether `change` makes a target the deployment that serves its project.
pub open spec fn routes_to(
    change: RouteChange,
    desired: Desired,
    target: Stored<DeploymentRecord>,
    revision: ProjectRevisionRecord,
    now: i64,
) -> bool {
    let services = services_by_name(revision.workloads@, revision.workloads@.len());
    let moves = all_moves(desired, target, services, services.len());
    &&& is_membership_write(change.membership, desired, target, now)
    &&& change.workloads@.len() == revision.workloads@.len()
    &&& forall|i: int|
        0 <= i < change.workloads@.len() ==> is_workload_write(
            #[trigger] change.workloads@[i],
            desired,
            target,
            revision.workloads@[i],
        )
    &&& texts(change.removed_workloads@) == dropped_workloads(
        desired.workloads.rows(),
        desired.workloads.rows().len(),
        target,
        revision,
    )
    &&& instance_writes(change.instances@) == routed_instances(
        desired.instances.values(),
        desired.instances.values().len(),
        target,
    )
    &&& records_moves(change.traffic@, target, now, moves)
    &&& texts(change.removed_traffic@) == stale_traffic(
        desired.traffic.rows(),
        desired.traffic.rows().len(),
        target,
        moves,
    )
}

/// Make `target` the deployment that serves its project: membership,
/// workloads, instance states, and traffic assignments, in one change.
pub fn route_to(desired: &Desired, target: &Stored<DeploymentRecord>, now: i64) -> (r: Result<
    RouteChange,
    EnvironmentError,
>)
    ensures
        match r {
            Ok(change) => desired.revisions@.contains_key(key1(target.value.revision_id@))
                && routes_to(
                change,
                *desired,
                *target,
                desired.revisions@[key1(target.value.revision_id@)],
                now,
            ),
            Err(error) => !desired.revisions@.contains_key(key1(target.value.revision_id@))
                && error is NotFound && error.text() == "revision "@ + target.value.revision_id@,
        },
{
    let revision = match desired.revisions.at(&target.value.revision_id) {
        Some(revision) => revision,
        None => {
            let mut text = "revision ".to_owned();
            text.append(&target.value.revision_id);
            return Err(EnvironmentError::NotFound(text));
        },
    };
    let membership = write_membership(desired, target, now);
    // Workloads follow the revision; each keeps its desired state.
    let mut workloads: Vec<WorkloadWrite> = Vec::new();
    let ghost wanted = revision.workloads@;
    let mut i: usize = 0;
    while i < revision.workloads.len()
        invariant
            i <= wanted.len(),
            workloads@.len() == i,
            forall|j: int|
                0 <= j < i ==> is_workload_write(
                    #[trigger] workloads@[j],
                    *desired,
                    *target,
                    wanted[j],
                ),
        decreases wanted.len() - i,
    {
        workloads.push(write_workload(desired, target, &revision.workloads[i]));
        i += 1;
    }
    let services = find_services(revision);
    let ghost names = texts(services@);
    let mut traffic: Vec<TrafficWrite> = Vec::new();
    let mut s: usize = 0;
    while s < services.len()
        invariant
            s <= services@.len(),
            names == texts(services@),
            records_moves(traffic@, *target, now, all_moves(*desired, *target, names, s as nat)),
        decreases services@.len() - s,
    {
        append_moves(
            desired,
            target,
            &services[s],
            now,
            &mut traffic,
            Ghost(all_moves(*desired, *target, names, s as nat)),
        );
        s += 1;
    }
    let ghost moves = all_moves(*desired, *target, names, names.len());
    let mut removed_workloads: Vec<String> = Vec::new();
    let ghost existing = desired.workloads.rows();
    let mut j: usize = 0;
    proof {
        assert(texts(removed_workloads@) =~= Seq::<Seq<char>>::empty());
    }
    while j < desired.workloads.len()
        invariant
            j <= existing.len(),
            texts(removed_workloads@) == dropped_workloads(existing, j as nat, *target, *revision),
        decreases existing.len() - j,
    {
        let key = desired.workloads.key_at(j);
        let workload = desired.workloads.value_at(j);
        if same(&key.0, &target.value.environment) && same(&key.1, &target.value.project)
            && !has_workload(revision, &key.2) {
            let ghost before = removed_workloads@;
            removed_workloads.push(workload.id.clone());
            proof {
                assert(texts(removed_workloads@) =~= texts(before).push(workload.id@));
            }
        }
        j += 1;
    }
    // Instances: the target's serve; whatever served drains.
    let mut instances: Vec<InstanceWrite> = Vec::new();
    let ghost running = desired.instances.values();
    let mut k: usize = 0;
    proof {
        assert(instance_writes(instances@) =~= Seq::<(Seq<char>, InstanceState)>::empty());
    }
    while k < desired.instances.len()
        invariant
            k <= running.len(),
            instance_writes(instances@) == routed_instances(running, k as nat, *target),
        decreases running.len() - k,
    {
        let instance = desired.instances.value_at(k);
        if same(&instance.value.environment, &target.value.environment) && same(
            &instance.value.project,
            &target.value.project,
        ) {
            let next = next_state(&instance.value, &target.id);
            if next != instance.value.state {
                let ghost before = instances@;
                instances.push(InstanceWrite { id: instance.id.clone(), state: next });
                proof {
                    assert(instance_writes(instances@) =~= instance_writes(before).push(
                        (instance.id@, next),
                    ));
                }
            }
        }
        k += 1;
    }
    let mut removed_traffic: Vec<String> = Vec::new();
    let ghost assigned = desired.traffic.rows();
    let mut m: usize = 0;
    proof {
        assert(texts(removed_traffic@) =~= Seq::<Seq<char>>::empty());
    }
    while m < desired.traffic.len()
        invariant
            m <= assigned.len(),
            texts(removed_traffic@) == stale_traffic(assigned, m as nat, *target, moves),
        decreases assigned.len() - m,
    {
        let assignment = desired.traffic.value_at(m);
        if same(&assignment.value.environment, &target.value.environment) && same(
            &assignment.value.project,
            &target.value.project,
        ) && !endpoint_is_assigned(
            &traffic,
            desired.traffic.key_at(m),
            Ghost(*target),
            Ghost(now),
            Ghost(moves),
        ) {
            let ghost before = removed_traffic@;
            removed_traffic.push(assignment.id.clone());
            proof {
                assert(texts(removed_traffic@) =~= texts(before).push(assignment.id@));
            }
        }
        m += 1;
    }
    Ok(
        RouteChange {
            membership,
            workloads,
            removed_workloads,
            instances,
            traffic,
            removed_traffic,
        },
    )
}

// ---- Laws -------------------------------------------------------------------

/// After traffic moves to a deployment, its instances serve and no other
/// instance does; what served before drains and is not stopped.
pub proof fn law_one_deployment_serves(instance: WorkloadInstanceRecord, target_id: Seq<char>)
    ensures
        routed_state(instance, target_id) == InstanceState::Serving <==> instance.deployment_id@
            == target_id,
        instance.state == InstanceState::Serving && instance.deployment_id@ != target_id
            ==> routed_state(instance, target_id) == InstanceState::Draining,
{
}

/// Moving traffic back to a deployment makes every instance of it that
/// drains serve again.
pub proof fn law_routing_back_serves_again(
    instance: WorkloadInstanceRecord,
    routed: WorkloadInstanceRecord,
    target_id: Seq<char>,
)
    requires
        instance.state == InstanceState::Serving,
        instance.deployment_id@ != target_id,
        routed.deployment_id@ == instance.deployment_id@,
        routed.state == routed_state(instance, target_id),
    ensures
        routed_state(routed, instance.deployment_id@) == instance.state,
{
}

/// Only instances of the project whose traffic moves change state, and each
/// to the state routing gives it.
pub proof fn law_other_projects_keep_their_instances(
    instances: Seq<Stored<WorkloadInstanceRecord>>,
    n: nat,
    target: Stored<DeploymentRecord>,
)
    requires
        n <= instances.len(),
    ensures
        forall|k: int|
            0 <= k < routed_instances(instances, n, target).len() ==> exists|i: int|
                {
                    &&& 0 <= i < n
                    &&& (#[trigger] instances[i]).id@ == (#[trigger] routed_instances(
                        instances,
                        n,
                        target,
                    )[k]).0
                    &&& instance_in(
                        instances[i].value,
                        target.value.environment@,
                        target.value.project@,
                    )
                    &&& routed_instances(instances, n, target)[k].1 == routed_state(
                        instances[i].value,
                        target.id@,
                    )
                },
    decreases n,
{
    if n > 0 {
        law_other_projects_keep_their_instances(instances, (n - 1) as nat, target);
        let before = routed_instances(instances, (n - 1) as nat, target);
        let after = routed_instances(instances, n, target);
        assert forall|k: int| 0 <= k < after.len() implies exists|i: int|
            {
                &&& 0 <= i < n
                &&& (#[trigger] instances[i]).id@ == (#[trigger] after[k]).0
                &&& instance_in(
                    instances[i].value,
                    target.value.environment@,
                    target.value.project@,
                )
                &&& after[k].1 == routed_state(instances[i].value, target.id@)
            } by {
            if k < before.len() {
                assert(after[k] == before[k]);
                let i = choose|i: int|
                    {
                        &&& 0 <= i < n - 1
                        &&& (#[trigger] instances[i]).id@ == before[k].0
                        &&& instance_in(
                            instances[i].value,
                            target.value.environment@,
                            target.value.project@,
                        )
                        &&& before[k].1 == routed_state(instances[i].value, target.id@)
                    };
                assert(instances[i].id@ == after[k].0);
            } else {
                assert(instances[n - 1].id@ == after[k].0);
            }
        }
    }
}

/// Every assignment names an instance of the target and one of that
/// instance's ports.
proof fn lemma_binding_moves(
    desired: Desired,
    target: Stored<DeploymentRecord>,
    workload: Seq<char>,
    instance: Stored<WorkloadInstanceRecord>,
    bindings: Seq<PortBinding>,
    n: nat,
)
    requires
        n <= bindings.len(),
    ensures
        forall|k: int|
            0 <= k < binding_moves(desired, target, workload, instance, bindings, n).len() ==> {
                let m = #[trigger] binding_moves(desired, target, workload, instance, bindings, n)[k];
                &&& m.workload == workload
                &&& m.instance_id == instance.id@
                &&& host_of(instance.value.ports@, m.port) == Some(m.target_port)
                &&& exists|i: int| 0 <= i < n && (#[trigger] bindings[i]).name@ == m.port
            },
        (forall|i: int, j: int|
            0 <= i < j < bindings.len() ==> (#[trigger] bindings[i]).name@ != (
            #[trigger] bindings[j]).name@) ==> forall|a: int, b: int|
            0 <= a < b < binding_moves(desired, target, workload, instance, bindings, n).len() ==> (
            #[trigger] binding_moves(desired, target, workload, instance, bindings, n)[a]).port != (
            #[trigger] binding_moves(desired, target, workload, instance, bindings, n)[b]).port,
    decreases n,
{
    if n > 0 {
        lemma_binding_moves(desired, target, workload, instance, bindings, (n - 1) as nat);
        let before = binding_moves(desired, target, workload, instance, bindings, (n - 1) as nat);
        let after = binding_moves(desired, target, workload, instance, bindings, n);
        assert forall|k: int| 0 <= k < after.len() implies {
            let m = #[trigger] after[k];
            &&& m.workload == workload
            &&& m.instance_id == instance.id@
            &&& host_of(instance.value.ports@, m.port) == Some(m.target_port)
            &&& exists|i: int| 0 <= i < n && (#[trigger] bindings[i]).name@ == m.port
        } by {
            if k < before.len() {
                assert(after[k] == before[k]);
                let i = choose|i: int| 0 <= i < n - 1 && (#[trigger] bindings[i]).name@ == before[k].port;
                assert(bindings[i].name@ == after[k].port);
            } else {
                assert(bindings[n - 1].name@ == after[k].port);
            }
        }
        if forall|i: int, j: int|
            0 <= i < j < bindings.len() ==> (#[trigger] bindings[i]).name@ != (
            #[trigger] bindings[j]).name@ {
            assert forall|a: int, b: int| 0 <= a < b < after.len() implies (
            #[trigger] after[a]).port != (#[trigger] after[b]).port by {
                assert(after[a] == before[a]);
                if b < before.len() {
                    assert(after[b] == before[b]);
                } else {
                    let i = choose|i: int|
                        0 <= i < n - 1 && (#[trigger] bindings[i]).name@ == before[a].port;
                    assert(bindings[i].name@ != bindings[n - 1].name@);
                }
            }
        }
    }
}

/// Whether no two of a workload's endpoints have the same name.
pub open spec fn distinct_names(bindings: Seq<PortBinding>) -> bool {
    forall|i: int, j: int|
        0 <= i < j < bindings.len() ==> (#[trigger] bindings[i]).name@ != (
        #[trigger] bindings[j]).name@
}

/// Whether names stand in strictly ascending order.
pub open spec fn names_ascend(names: Seq<Seq<char>>) -> bool {
    forall|i: int, j: int|
        0 <= i < j < names.len() ==> text_less(#[trigger] names[i], #[trigger] names[j])
}

/// Putting a name in its place adds it and keeps the order.
proof fn lemma_insert_name(names: Seq<Seq<char>>, name: Seq<char>)
    requires
        names_ascend(names),
    ensures
        names_ascend(insert_name(names, name)),
        forall|other: Seq<char>| #[trigger]
            insert_name(names, name).contains(other) <==> names.contains(other) || other == name,
    decreases names.len(),
{
    let after = insert_name(names, name);
    if names.len() == 0 {
        assert(after[0] == name);
    } else if names[0] == name {
    } else if text_less(name, names[0]) {
        assert forall|i: int, j: int| 0 <= i < j < after.len() implies text_less(
            #[trigger] after[i],
            #[trigger] after[j],
        ) by {
            assert(after[j] == names[j - 1]);
            if i == 0 {
                if j > 1 {
                    lemma_text_transitive(name, names[0], names[j - 1]);
                }
            } else {
                assert(after[i] == names[i - 1]);
            }
        }
        assert forall|other: Seq<char>| #[trigger]
            after.contains(other) <==> names.contains(other) || other == name by {
            if names.contains(other) {
                let i = choose|i: int| 0 <= i < names.len() && names[i] == other;
                assert(after[i + 1] == other);
            }
            if other == name {
                assert(after[0] == other);
            }
            if after.contains(other) && other != name {
                let i = choose|i: int| 0 <= i < after.len() && after[i] == other;
                assert(names[i - 1] == other);
            }
        }
    } else {
        let rest = names.drop_first();
        let put = insert_name(rest, name);
        assert(names_ascend(rest)) by {
            assert forall|i: int, j: int| 0 <= i < j < rest.len() implies text_less(
                #[trigger] rest[i],
                #[trigger] rest[j],
            ) by {
                assert(rest[i] == names[i + 1] && rest[j] == names[j + 1]);
            }
        }
        lemma_insert_name(rest, name);
        lemma_text_total(names[0], name);
        assert forall|i: int, j: int| 0 <= i < j < after.len() implies text_less(
            #[trigger] after[i],
            #[trigger] after[j],
        ) by {
            assert(after[j] == put[j - 1]);
            if i == 0 {
                assert(put.contains(put[j - 1]));
                if put[j - 1] != name {
                    let k = choose|k: int| 0 <= k < rest.len() && rest[k] == put[j - 1];
                    assert(rest[k] == names[k + 1]);
                }
            } else {
                assert(after[i] == put[i - 1]);
            }
        }
        assert forall|other: Seq<char>| #[trigger]
            after.contains(other) <==> names.contains(other) || other == name by {
            if names.contains(other) || other == name {
                if names[0] == other {
                    assert(after[0] == other);
                } else {
                    if names.contains(other) {
                        let i = choose|i: int| 0 <= i < names.len() && names[i] == other;
                        assert(rest[i - 1] == other);
                    }
                    assert(put.contains(other));
                    let k = choose|k: int| 0 <= k < put.len() && put[k] == other;
                    assert(after[k + 1] == other);
                }
            }
            if after.contains(other) && other != names[0] {
                let i = choose|i: int| 0 <= i < after.len() && after[i] == other;
                assert(put[i - 1] == other);
                assert(put.contains(other));
                if other != name {
                    let k = choose|k: int| 0 <= k < rest.len() && rest[k] == other;
                    assert(names[k + 1] == other);
                }
            }
            if other == names[0] {
                assert(names.contains(other));
            }
        }
    }
}

/// Services are walked in ascending order of name, each once: exactly the
/// names that some service has.
proof fn lemma_services_by_name(workloads: Seq<RevisionWorkload>, n: nat)
    requires
        n <= workloads.len(),
    ensures
        names_ascend(services_by_name(workloads, n)),
        forall|name: Seq<char>| #[trigger]
            services_by_name(workloads, n).contains(name) <==> exists|i: int|
                0 <= i < n && (#[trigger] workloads[i]).name@ == name && workloads[i].kind
                    == WorkloadKind::Service,
    decreases n,
{
    if n > 0 {
        lemma_services_by_name(workloads, (n - 1) as nat);
        let before = services_by_name(workloads, (n - 1) as nat);
        let last = workloads[n - 1];
        if last.kind == WorkloadKind::Service {
            lemma_insert_name(before, last.name@);
        }
        assert forall|name: Seq<char>| #[trigger]
            services_by_name(workloads, n).contains(name) <==> exists|i: int|
                0 <= i < n && (#[trigger] workloads[i]).name@ == name && workloads[i].kind
                    == WorkloadKind::Service by {
            if before.contains(name) {
                let i = choose|i: int|
                    0 <= i < n - 1 && (#[trigger] workloads[i]).name@ == name && workloads[i].kind
                        == WorkloadKind::Service;
                assert(workloads[i].name@ == name);
            }
            if last.kind == WorkloadKind::Service && last.name@ == name {
                assert(workloads[n - 1].name@ == name);
            }
        }
    }
}

/// The assignments of the first `n` of services that stand in ascending
/// order of name.
proof fn lemma_all_moves(
    desired: Desired,
    target: Stored<DeploymentRecord>,
    services: Seq<Seq<char>>,
    n: nat,
)
    requires
        n <= services.len(),
        names_ascend(services),
        forall|i: int|
            0 <= i < services.len() ==> distinct_names(
                target_ports(desired, target, #[trigger] services[i]),
            ),
    ensures
        forall|a: int, b: int|
            0 <= a < b < all_moves(desired, target, services, n).len() ==> {
                ||| (#[trigger] all_moves(desired, target, services, n)[a]).workload != (
                #[trigger] all_moves(desired, target, services, n)[b]).workload
                ||| all_moves(desired, target, services, n)[a].port != all_moves(
                    desired,
                    target,
                    services,
                    n,
                )[b].port
            },
        forall|k: int|
            0 <= k < all_moves(desired, target, services, n).len() ==> {
                let m = #[trigger] all_moves(desired, target, services, n)[k];
                &&& exists|i: int| 0 <= i < n && (#[trigger] services[i]) == m.workload
                &&& desired.instance_at(
                    target.value.environment@,
                    target.value.project@,
                    m.workload,
                    target.id@,
                ) matches Some(instance)
                &&& instance.id@ == m.instance_id
                &&& host_of(instance.value.ports@, m.port) == Some(m.target_port)
            },
    decreases n,
{
    if n > 0 {
        lemma_all_moves(desired, target, services, (n - 1) as nat);
        let before = all_moves(desired, target, services, (n - 1) as nat);
        let added = service_moves(desired, target, services[n - 1]);
        let after = all_moves(desired, target, services, n);
        let name = services[n - 1];
        let ports = target_ports(desired, target, name);
        assert(distinct_names(ports));
        if let Some(instance) = desired.instance_at(
            target.value.environment@,
            target.value.project@,
            name,
            target.id@,
        ) {
            lemma_binding_moves(desired, target, name, instance, ports, ports.len());
        }
        assert forall|k: int| 0 <= k < after.len() implies {
            let m = #[trigger] after[k];
            &&& exists|i: int| 0 <= i < n && (#[trigger] services[i]) == m.workload
            &&& desired.instance_at(
                target.value.environment@,
                target.value.project@,
                m.workload,
                target.id@,
            ) matches Some(instance)
            &&& instance.id@ == m.instance_id
            &&& host_of(instance.value.ports@, m.port) == Some(m.target_port)
        } by {
            if k < before.len() {
                assert(after[k] == before[k]);
                let i = choose|i: int|
                    0 <= i < n - 1 && (#[trigger] services[i]) == before[k].workload;
                assert(services[i] == after[k].workload);
            } else {
                assert(after[k] == added[k - before.len()]);
                assert(services[n - 1] == after[k].workload);
            }
        }
        assert forall|a: int, b: int| 0 <= a < b < after.len() implies {
            ||| (#[trigger] after[a]).workload != (#[trigger] after[b]).workload
            ||| after[a].port != after[b].port
        } by {
            if b < before.len() {
                assert(after[a] == before[a] && after[b] == before[b]);
            } else if a < before.len() {
                assert(after[a] == before[a]);
                assert(after[b] == added[b - before.len()]);
                let i = choose|i: int|
                    0 <= i < n - 1 && (#[trigger] services[i]) == before[a].workload;
                assert(text_less(services[i], services[n - 1]));
                lemma_text_irreflexive(services[n - 1]);
            } else {
                assert(after[a] == added[a - before.len()]);
                assert(after[b] == added[b - before.len()]);
            }
        }
    }
}

/// One assignment per endpoint, naming exactly one instance: no endpoint is
/// assigned twice, and every assignment names the target's own instance of
/// the endpoint's workload, which is a service of the revision.
pub proof fn law_one_assignment_per_endpoint(
    desired: Desired,
    target: Stored<DeploymentRecord>,
    workloads: Seq<RevisionWorkload>,
)
    requires
        forall|i: int|
            0 <= i < workloads.len() ==> distinct_names(
                target_ports(desired, target, (#[trigger] workloads[i]).name@),
            ),
    ensures
        ({
            let services = services_by_name(workloads, workloads.len());
            let moves = all_moves(desired, target, services, services.len());
            &&& forall|a: int, b: int|
                0 <= a < b < moves.len() ==> (#[trigger] moves[a]).workload != (
                #[trigger] moves[b]).workload || moves[a].port != moves[b].port
            &&& forall|k: int|
                0 <= k < moves.len() ==> {
                    let m = #[trigger] moves[k];
                    &&& exists|i: int|
                        0 <= i < workloads.len() && (#[trigger] workloads[i]).name@ == m.workload
                            && workloads[i].kind == WorkloadKind::Service
                    &&& desired.instance_at(
                        target.value.environment@,
                        target.value.project@,
                        m.workload,
                        target.id@,
                    ) matches Some(instance)
                    &&& instance.id@ == m.instance_id
                    &&& host_of(instance.value.ports@, m.port) == Some(m.target_port)
                }
        }),
{
    let services = services_by_name(workloads, workloads.len());
    let moves = all_moves(desired, target, services, services.len());
    lemma_services_by_name(workloads, workloads.len());
    assert forall|i: int| 0 <= i < services.len() implies distinct_names(
        target_ports(desired, target, #[trigger] services[i]),
    ) by {
        assert(services.contains(services[i]));
        let k = choose|k: int|
            0 <= k < workloads.len() && (#[trigger] workloads[k]).name@ == services[i]
                && workloads[k].kind == WorkloadKind::Service;
        assert(distinct_names(target_ports(desired, target, workloads[k].name@)));
    }
    lemma_all_moves(desired, target, services, services.len());
    assert forall|k: int| 0 <= k < moves.len() implies exists|i: int|
        0 <= i < workloads.len() && (#[trigger] workloads[i]).name@ == (
        #[trigger] moves[k]).workload && workloads[i].kind == WorkloadKind::Service by {
        let j = choose|j: int|
            0 <= j < services.len() && (#[trigger] services[j]) == moves[k].workload;
        assert(services.contains(services[j]));
    }
}

/// Every assignment of the project is either moved to the target or removed:
/// once traffic has moved, nothing of the project routes elsewhere.
pub proof fn law_no_endpoint_is_left_behind(
    rows: Seq<(String, Stored<TrafficAssignmentRecord>)>,
    n: nat,
    target: Stored<DeploymentRecord>,
    moves: Seq<Move>,
    i: int,
)
    requires
        0 <= i < n <= rows.len(),
        rows[i].1.value.environment@ == target.value.environment@,
        rows[i].1.value.project@ == target.value.project@,
    ensures
        is_assigned(moves, rows[i].0@) || stale_traffic(rows, n, target, moves).contains(
            rows[i].1.id@,
        ),
    decreases n,
{
    if !is_assigned(moves, rows[i].0@) {
        let before = stale_traffic(rows, (n - 1) as nat, target, moves);
        let after = stale_traffic(rows, n, target, moves);
        if i == n - 1 {
            assert(after[after.len() - 1] == rows[i].1.id@);
        } else {
            law_no_endpoint_is_left_behind(rows, (n - 1) as nat, target, moves, i);
            let k = choose|k: int| 0 <= k < before.len() && before[k] == rows[i].1.id@;
            assert(after[k] == rows[i].1.id@);
        }
    }
}

/// The endpoints of a service that is released are those of the release's
/// evidence. A release without any, and a workload it does not mention, keep
/// the endpoints the workload has; a task never gets any it was not released
/// with.
pub proof fn law_released_endpoints_are_kept(
    desired: Desired,
    target: Stored<DeploymentRecord>,
    workload: Seq<char>,
    e: int,
)
    requires
        0 <= e < target.value.workloads@.len(),
        target.value.workloads@[e].name@ == workload,
        forall|j: int|
            0 <= j < e ==> (#[trigger] target.value.workloads@[j]).name@ != workload,
    ensures
        ({
            let evidence = target.value.workloads@[e];
            let key = key3(target.value.environment@, target.value.project@, workload);
            let ports = target_ports(desired, target, workload);
            &&& evidence.endpoints@.len() > 0 ==> ports == evidence.endpoints@
            &&& evidence.kind != WorkloadKind::Service ==> ports == evidence.endpoints@
            &&& evidence.endpoints@.len() == 0 && evidence.kind == WorkloadKind::Service
                && desired.workloads@.contains_key(key) ==> ports
                == desired.workloads@[key].value.ports@
            &&& evidence.endpoints@.len() == 0 && !desired.workloads@.contains_key(key)
                ==> ports.len() == 0
        }),
{
    lemma_first(target.value.workloads@, evidence_named(workload));
}

/// An endpoint that its instance has a port for is among the moves.
proof fn lemma_binding_moved(
    desired: Desired,
    target: Stored<DeploymentRecord>,
    workload: Seq<char>,
    instance: Stored<WorkloadInstanceRecord>,
    bindings: Seq<PortBinding>,
    n: nat,
    b: int,
    host: u16,
)
    requires
        0 <= b < n <= bindings.len(),
        host_of(instance.value.ports@, bindings[b].name@) == Some(host),
    ensures
        exists|k: int|
            0 <= k < binding_moves(desired, target, workload, instance, bindings, n).len() && (
            #[trigger] binding_moves(desired, target, workload, instance, bindings, n)[k])
                == move_of(desired, target, workload, instance, bindings[b], host),
    decreases n,
{
    let after = binding_moves(desired, target, workload, instance, bindings, n);
    let wanted = move_of(desired, target, workload, instance, bindings[b], host);
    if b == n - 1 {
        assert(after[after.len() - 1] == wanted);
    } else {
        let before = binding_moves(desired, target, workload, instance, bindings, (n - 1) as nat);
        lemma_binding_moved(
            desired,
            target,
            workload,
            instance,
            bindings,
            (n - 1) as nat,
            b,
            host,
        );
        let k = choose|k: int| 0 <= k < before.len() && (#[trigger] before[k]) == wanted;
        assert(after[k] == wanted);
    }
}

/// A service's moves are among those of all services.
proof fn lemma_service_moved(
    desired: Desired,
    target: Stored<DeploymentRecord>,
    services: Seq<Seq<char>>,
    n: nat,
    s: int,
    k: int,
)
    requires
        0 <= s < n <= services.len(),
        0 <= k < service_moves(desired, target, services[s]).len(),
    ensures
        exists|a: int|
            0 <= a < all_moves(desired, target, services, n).len() && (#[trigger] all_moves(
                desired,
                target,
                services,
                n,
            )[a]) == service_moves(desired, target, services[s])[k],
    decreases n,
{
    let before = all_moves(desired, target, services, (n - 1) as nat);
    let after = all_moves(desired, target, services, n);
    if s == n - 1 {
        assert(after[before.len() + k] == service_moves(desired, target, services[s])[k]);
    } else {
        lemma_service_moved(desired, target, services, (n - 1) as nat, s, k);
        let a = choose|a: int|
            0 <= a < before.len() && (#[trigger] before[a]) == service_moves(
                desired,
                target,
                services[s],
            )[k];
        assert(after[a] == before[a]);
    }
}

/// An assignment that a move covers is not removed, when no other has its
/// identifier.
proof fn lemma_assigned_stays(
    rows: Seq<(String, Stored<TrafficAssignmentRecord>)>,
    n: nat,
    target: Stored<DeploymentRecord>,
    moves: Seq<Move>,
    r: int,
)
    requires
        0 <= r < rows.len(),
        n <= rows.len(),
        is_assigned(moves, rows[r].0@),
        forall|q: int|
            0 <= q < rows.len() && q != r ==> (#[trigger] rows[q]).1.id@ != rows[r].1.id@,
    ensures
        !stale_traffic(rows, n, target, moves).contains(rows[r].1.id@),
    decreases n,
{
    if n > 0 {
        lemma_assigned_stays(rows, (n - 1) as nat, target, moves, r);
        let before = stale_traffic(rows, (n - 1) as nat, target, moves);
        let after = stale_traffic(rows, n, target, moves);
        if after.contains(rows[r].1.id@) {
            let k = choose|k: int| 0 <= k < after.len() && after[k] == rows[r].1.id@;
            if k < before.len() {
                assert(before[k] == rows[r].1.id@);
            } else {
                assert(rows[n - 1].1.id@ == rows[r].1.id@);
            }
        }
    }
}

/// No endpoint is forgotten: every endpoint of every service of the revision
/// that has an instance at the target, and that the instance has a port for,
/// is assigned to that instance and to that port, on the endpoint's own host
/// port; and the assignment it had is replaced, not removed.
pub proof fn law_every_endpoint_moves(
    change: RouteChange,
    desired: Desired,
    target: Stored<DeploymentRecord>,
    revision: ProjectRevisionRecord,
    now: i64,
    w: int,
    instance: Stored<WorkloadInstanceRecord>,
    b: int,
    p: int,
)
    requires
        routes_to(change, desired, target, revision, now),
        0 <= w < revision.workloads@.len(),
        revision.workloads@[w].kind == WorkloadKind::Service,
        desired.instance_at(
            target.value.environment@,
            target.value.project@,
            revision.workloads@[w].name@,
            target.id@,
        ) == Some(instance),
        0 <= b < target_ports(desired, target, revision.workloads@[w].name@).len(),
        0 <= p < instance.value.ports@.len(),
        instance.value.ports@[p].name@ == target_ports(
            desired,
            target,
            revision.workloads@[w].name@,
        )[b].name@,
        forall|q: int|
            0 <= q < p ==> (#[trigger] instance.value.ports@[q]).name@
                != instance.value.ports@[p].name@,
    ensures
        ({
            let service = revision.workloads@[w].name@;
            let binding = target_ports(desired, target, service)[b];
            let name = target.value.environment@ + "/"@ + target.value.project@ + "/"@ + service
                + "/"@ + binding.name@;
            &&& exists|k: int|
                {
                    let write = #[trigger] change.traffic@[k];
                    &&& 0 <= k < change.traffic@.len()
                    &&& write.record.endpoint@ == name
                    &&& write.record.environment@ == target.value.environment@
                    &&& write.record.project@ == target.value.project@
                    &&& write.record.workload@ == service
                    &&& write.record.port@ == binding.name@
                    &&& write.record.host_port == binding.host
                    &&& write.record.deployment_id@ == target.id@
                    &&& write.record.instance_id@ == instance.id@
                    &&& write.record.target_port == instance.value.ports@[p].host
                    &&& write.record.status@ == "active"@
                    &&& desired.traffic@.contains_key(key1(name)) ==> opt_text(write.replaces)
                        == Some(desired.traffic@[key1(name)].id@) && opt_text(
                        write.record.previous_instance_id,
                    ) == Some(desired.traffic@[key1(name)].value.instance_id@)
                }
            &&& forall|r: int|
                0 <= r < desired.traffic.rows().len() && (#[trigger] desired.traffic.rows()[r]).0@
                    == name && (forall|q: int|
                    0 <= q < desired.traffic.rows().len() && q != r ==> (
                    #[trigger] desired.traffic.rows()[q]).1.id@ != desired.traffic.rows()[r].1.id@)
                    ==> !texts(change.removed_traffic@).contains(
                    desired.traffic.rows()[r].1.id@,
                )
        }),
{
    let service = revision.workloads@[w].name@;
    let ports = target_ports(desired, target, service);
    let host = instance.value.ports@[p].host;
    let wanted = move_of(desired, target, service, instance, ports[b], host);
    let services = services_by_name(revision.workloads@, revision.workloads@.len());
    let moves = all_moves(desired, target, services, services.len());
    let rows = desired.traffic.rows();
    lemma_first(instance.value.ports@, binding_named(ports[b].name@));
    assert(binding_named(ports[b].name@)(instance.value.ports@[p]));
    assert(host_of(instance.value.ports@, ports[b].name@) == Some(host)) by {
        let k = crate::search::first(instance.value.ports@, binding_named(ports[b].name@))->0;
        if k < p {
            assert(instance.value.ports@[k].name@ != instance.value.ports@[p].name@);
        } else if k > p {
            assert(!binding_named(ports[b].name@)(instance.value.ports@[p]));
        }
    }
    lemma_services_by_name(revision.workloads@, revision.workloads@.len());
    assert(services.contains(service));
    let s = choose|s: int| 0 <= s < services.len() && services[s] == service;
    lemma_binding_moved(desired, target, service, instance, ports, ports.len(), b, host);
    let own = service_moves(desired, target, service);
    let k = choose|k: int| 0 <= k < own.len() && (#[trigger] own[k]) == wanted;
    lemma_service_moved(desired, target, services, services.len(), s, k);
    let a = choose|a: int| 0 <= a < moves.len() && (#[trigger] moves[a]) == wanted;
    assert(records_move(change.traffic@[a], target, now, moves[a]));
    assert(change.traffic@[a].record.endpoint@ == wanted.endpoint);
    assert forall|r: int|
        0 <= r < rows.len() && (#[trigger] rows[r]).0@ == wanted.endpoint && (forall|q: int|
            0 <= q < rows.len() && q != r ==> (#[trigger] rows[q]).1.id@
                != rows[r].1.id@) implies !texts(change.removed_traffic@).contains(
        rows[r].1.id@,
    ) by {
        assert(moves[a].endpoint == rows[r].0@);
        lemma_assigned_stays(rows, rows.len(), target, moves, r);
    }
}

/// Nothing else is assigned: every assignment written is of an endpoint of a
/// service of the revision, to the service's instance at the target.
pub proof fn law_only_the_targets_endpoints_move(
    change: RouteChange,
    desired: Desired,
    target: Stored<DeploymentRecord>,
    revision: ProjectRevisionRecord,
    now: i64,
    k: int,
)
    requires
        routes_to(change, desired, target, revision, now),
        0 <= k < change.traffic@.len(),
        forall|i: int|
            0 <= i < revision.workloads@.len() ==> distinct_names(
                target_ports(desired, target, (#[trigger] revision.workloads@[i]).name@),
            ),
    ensures
        ({
            let record = change.traffic@[k].record;
            &&& record.environment@ == target.value.environment@
            &&& record.project@ == target.value.project@
            &&& record.deployment_id@ == target.id@
            &&& record.revision@ == target.value.revision@
            &&& record.switched_at == now
            &&& exists|i: int|
                0 <= i < revision.workloads@.len() && (#[trigger] revision.workloads@[i]).name@
                    == record.workload@ && revision.workloads@[i].kind == WorkloadKind::Service
            &&& exists|i: int|
                {
                    let instance = #[trigger] desired.instances.values()[i];
                    &&& 0 <= i < desired.instances.values().len()
                    &&& instance.id@ == record.instance_id@
                    &&& instance.value.environment@ == target.value.environment@
                    &&& instance.value.project@ == target.value.project@
                    &&& instance.value.workload@ == record.workload@
                    &&& instance.value.deployment_id@ == target.id@
                }
        }),
{
    law_one_assignment_per_endpoint(desired, target, revision.workloads@);
    let services = services_by_name(revision.workloads@, revision.workloads@.len());
    let moves = all_moves(desired, target, services, services.len());
    assert(records_move(change.traffic@[k], target, now, moves[k]));
    let m = moves[k];
    crate::desired::law_instances_are_found_where_they_belong(
        desired,
        target.value.environment@,
        target.value.project@,
        m.workload,
        target.id@,
    );
    let instance = desired.instance_at(
        target.value.environment@,
        target.value.project@,
        m.workload,
        target.id@,
    )->0;
    let i = choose|i: int|
        0 <= i < desired.instances.values().len() && desired.instances.values()[i] == instance;
    assert(desired.instances.values()[i].id@ == m.instance_id);
}

/// Once traffic moves, the project runs at the target: its membership names
/// the target and its revision, and whether it runs stays as it was.
pub proof fn law_the_project_runs_at_the_target(
    change: RouteChange,
    desired: Desired,
    target: Stored<DeploymentRecord>,
    revision: ProjectRevisionRecord,
    now: i64,
)
    requires
        routes_to(change, desired, target, revision, now),
    ensures
        ({
            let record = change.membership.record;
            let key = key2(target.value.environment@, target.value.project@);
            &&& opt_text(record.deployment_id) == Some(target.id@)
            &&& opt_text(record.revision_id) == Some(target.value.revision_id@)
            &&& record.environment@ == target.value.environment@
            &&& record.project@ == target.value.project@
            &&& desired.memberships@.contains_key(key) ==> {
                let existing = desired.memberships@[key];
                &&& opt_text(change.membership.replaces) == Some(existing.id@)
                &&& record.desired_state == existing.value.desired_state
                &&& record.created_at == existing.value.created_at
            }
            &&& !desired.memberships@.contains_key(key) ==> {
                &&& change.membership.replaces is None
                &&& record.desired_state == DesiredState::Running
                &&& record.created_at == now
            }
            &&& target.value.config.rows().len() > 0 ==> record.config.rows()
                == target.value.config.rows()
        }),
{
}

/// Every workload of the revision follows it, at the target; one that was
/// there keeps whether it is meant to run, and a new one takes it from the
/// revision.
pub proof fn law_workloads_follow_the_revision(
    change: RouteChange,
    desired: Desired,
    target: Stored<DeploymentRecord>,
    revision: ProjectRevisionRecord,
    now: i64,
    i: int,
)
    requires
        routes_to(change, desired, target, revision, now),
        0 <= i < revision.workloads@.len(),
    ensures
        change.workloads@.len() == revision.workloads@.len(),
        ({
            let workload = revision.workloads@[i];
            let record = change.workloads@[i].record;
            let key = key3(target.value.environment@, target.value.project@, workload.name@);
            &&& record.environment@ == target.value.environment@
            &&& record.project@ == target.value.project@
            &&& record.name@ == workload.name@
            &&& record.kind == workload.kind
            &&& record.restart == workload.restart
            &&& record.bundle_id@ == workload.bundle_id@
            &&& record.workload_identity@ == workload.workload_identity@
            &&& record.deployment_id@ == target.id@
            &&& record.environment_id@ == target.value.environment_id@
            &&& record.project_id@ == target.value.project_id@
            &&& record.runtime@ == workload.runtime@
            &&& record.ports@ == target_ports(desired, target, workload.name@)
            &&& desired.workloads@.contains_key(key) ==> record.desired_state
                == desired.workloads@[key].value.desired_state && opt_text(
                change.workloads@[i].replaces,
            ) == Some(desired.workloads@[key].id@)
            &&& !desired.workloads@.contains_key(key) ==> record.desired_state
                == workload.desired_state && change.workloads@[i].replaces is None
        }),
{
    assert(is_workload_write(change.workloads@[i], desired, target, revision.workloads@[i]));
}

/// A workload is removed exactly when it is the project's and the revision
/// no longer has it; here in terms of the identifiers listed.
proof fn lemma_dropped_workloads(
    rows: Seq<(Key, Stored<WorkloadRecord>)>,
    n: nat,
    target: Stored<DeploymentRecord>,
    revision: ProjectRevisionRecord,
)
    requires
        n <= rows.len(),
    ensures
        forall|i: int|
            0 <= i < n && (#[trigger] rows[i]).0.0@ == target.value.environment@ && rows[i].0.1@
                == target.value.project@ && (forall|w: int|
                0 <= w < revision.workloads@.len() ==> (#[trigger] revision.workloads@[w]).name@
                    != rows[i].0.2@) ==> dropped_workloads(rows, n, target, revision).contains(
                rows[i].1.id@,
            ),
        forall|id: Seq<char>| #[trigger]
            dropped_workloads(rows, n, target, revision).contains(id) ==> exists|i: int|
                {
                    &&& 0 <= i < n
                    &&& (#[trigger] rows[i]).1.id@ == id
                    &&& rows[i].0.0@ == target.value.environment@
                    &&& rows[i].0.1@ == target.value.project@
                    &&& forall|w: int|
                        0 <= w < revision.workloads@.len() ==> (
                        #[trigger] revision.workloads@[w]).name@ != rows[i].0.2@
                },
    decreases n,
{
    if n > 0 {
        lemma_dropped_workloads(rows, (n - 1) as nat, target, revision);
        let before = dropped_workloads(rows, (n - 1) as nat, target, revision);
        let after = dropped_workloads(rows, n, target, revision);
        assert forall|i: int|
            0 <= i < n && (#[trigger] rows[i]).0.0@ == target.value.environment@ && rows[i].0.1@
                == target.value.project@ && (forall|w: int|
                0 <= w < revision.workloads@.len() ==> (#[trigger] revision.workloads@[w]).name@
                    != rows[i].0.2@) implies after.contains(rows[i].1.id@) by {
            if i == n - 1 {
                assert(after[after.len() - 1] == rows[i].1.id@);
            } else {
                assert(before.contains(rows[i].1.id@));
                let k = choose|k: int| 0 <= k < before.len() && before[k] == rows[i].1.id@;
                assert(after[k] == rows[i].1.id@);
            }
        }
        assert forall|id: Seq<char>| #[trigger] after.contains(id) implies exists|i: int|
            {
                &&& 0 <= i < n
                &&& (#[trigger] rows[i]).1.id@ == id
                &&& rows[i].0.0@ == target.value.environment@
                &&& rows[i].0.1@ == target.value.project@
                &&& forall|w: int|
                    0 <= w < revision.workloads@.len() ==> (#[trigger] revision.workloads@[w]).name@
                        != rows[i].0.2@
            } by {
            let k = choose|k: int| 0 <= k < after.len() && after[k] == id;
            if k < before.len() {
                assert(before[k] == id);
                assert(before.contains(id));
                let i = choose|i: int|
                    {
                        &&& 0 <= i < n - 1
                        &&& (#[trigger] rows[i]).1.id@ == id
                        &&& rows[i].0.0@ == target.value.environment@
                        &&& rows[i].0.1@ == target.value.project@
                        &&& forall|w: int|
                            0 <= w < revision.workloads@.len() ==> (
                            #[trigger] revision.workloads@[w]).name@ != rows[i].0.2@
                    };
                assert(rows[i].1.id@ == id);
            } else {
                assert(rows[n - 1].1.id@ == id);
            }
        }
    }
}

/// Workloads that the revision no longer has are removed, and only those:
/// no workload of another project or environment, and none the revision has.
pub proof fn law_only_dropped_workloads_are_removed(
    change: RouteChange,
    desired: Desired,
    target: Stored<DeploymentRecord>,
    revision: ProjectRevisionRecord,
    now: i64,
)
    requires
        routes_to(change, desired, target, revision, now),
    ensures
        forall|i: int|
            0 <= i < desired.workloads.rows().len() && (#[trigger] desired.workloads.rows()[i]).0.0@
                == target.value.environment@ && desired.workloads.rows()[i].0.1@
                == target.value.project@ && (forall|w: int|
                0 <= w < revision.workloads@.len() ==> (#[trigger] revision.workloads@[w]).name@
                    != desired.workloads.rows()[i].0.2@) ==> texts(
                change.removed_workloads@,
            ).contains(desired.workloads.rows()[i].1.id@),
        forall|id: Seq<char>| #[trigger]
            texts(change.removed_workloads@).contains(id) ==> exists|i: int|
                {
                    &&& 0 <= i < desired.workloads.rows().len()
                    &&& (#[trigger] desired.workloads.rows()[i]).1.id@ == id
                    &&& desired.workloads.rows()[i].0.0@ == target.value.environment@
                    &&& desired.workloads.rows()[i].0.1@ == target.value.project@
                    &&& forall|w: int|
                        0 <= w < revision.workloads@.len() ==> (
                        #[trigger] revision.workloads@[w]).name@
                            != desired.workloads.rows()[i].0.2@
                },
{
    lemma_dropped_workloads(
        desired.workloads.rows(),
        desired.workloads.rows().len(),
        target,
        revision,
    );
}

/// A project's instance whose state changes is among the writes.
proof fn lemma_routed_instances(
    instances: Seq<Stored<WorkloadInstanceRecord>>,
    n: nat,
    target: Stored<DeploymentRecord>,
    i: int,
)
    requires
        0 <= i < n <= instances.len(),
        instance_in(instances[i].value, target.value.environment@, target.value.project@),
        routed_state(instances[i].value, target.id@) != instances[i].value.state,
    ensures
        routed_instances(instances, n, target).contains(
            (instances[i].id@, routed_state(instances[i].value, target.id@)),
        ),
    decreases n,
{
    let after = routed_instances(instances, n, target);
    let wanted = (instances[i].id@, routed_state(instances[i].value, target.id@));
    if i == n - 1 {
        assert(after[after.len() - 1] == wanted);
    } else {
        let before = routed_instances(instances, (n - 1) as nat, target);
        lemma_routed_instances(instances, (n - 1) as nat, target, i);
        let k = choose|k: int| 0 <= k < before.len() && before[k] == wanted;
        assert(after[k] == wanted);
    }
}

/// When traffic moves, every instance of the target that did not serve yet
/// serves; what served before drains; what had not served stops; and an
/// instance of another project or environment, and one that ended, stays as
/// it is unless it shares its identifier with one that changes.
pub proof fn law_instances_change_over(
    change: RouteChange,
    desired: Desired,
    target: Stored<DeploymentRecord>,
    revision: ProjectRevisionRecord,
    now: i64,
    i: int,
)
    requires
        routes_to(change, desired, target, revision, now),
        0 <= i < desired.instances.values().len(),
        desired.instances.values()[i].value.environment@ == target.value.environment@,
        desired.instances.values()[i].value.project@ == target.value.project@,
    ensures
        ({
            let instance = desired.instances.values()[i];
            let writes = instance_writes(change.instances@);
            let own = instance.value.deployment_id@ == target.id@;
            let state = instance.value.state;
            &&& own && state != InstanceState::Serving ==> writes.contains(
                (instance.id@, InstanceState::Serving),
            )
            &&& !own && state == InstanceState::Serving ==> writes.contains(
                (instance.id@, InstanceState::Draining),
            )
            &&& !own && (state == InstanceState::Starting || state == InstanceState::Ready)
                ==> writes.contains((instance.id@, InstanceState::Stopped))
        }),
        forall|k: int|
            0 <= k < change.instances@.len() ==> exists|j: int|
                {
                    let instance = #[trigger] desired.instances.values()[j];
                    &&& 0 <= j < desired.instances.values().len()
                    &&& instance.id@ == (#[trigger] change.instances@[k]).id@
                    &&& instance.value.environment@ == target.value.environment@
                    &&& instance.value.project@ == target.value.project@
                    &&& change.instances@[k].state == InstanceState::Serving
                        <==> instance.value.deployment_id@ == target.id@
                },
{
    let instances = desired.instances.values();
    let writes = instance_writes(change.instances@);
    if routed_state(instances[i].value, target.id@) != instances[i].value.state {
        lemma_routed_instances(instances, instances.len(), target, i);
    }
    law_other_projects_keep_their_instances(instances, instances.len(), target);
    assert forall|k: int| 0 <= k < change.instances@.len() implies exists|j: int|
        {
            let instance = #[trigger] instances[j];
            &&& 0 <= j < instances.len()
            &&& instance.id@ == (#[trigger] change.instances@[k]).id@
            &&& instance.value.environment@ == target.value.environment@
            &&& instance.value.project@ == target.value.project@
            &&& change.instances@[k].state == InstanceState::Serving
                <==> instance.value.deployment_id@ == target.id@
        } by {
        assert(writes[k] == (change.instances@[k].id@, change.instances@[k].state));
        let row = routed_instances(instances, instances.len(), target)[k];
        let j = choose|j: int|
            {
                &&& 0 <= j < instances.len()
                &&& (#[trigger] instances[j]).id@ == row.0
                &&& instance_in(
                    instances[j].value,
                    target.value.environment@,
                    target.value.project@,
                )
                &&& row.1 == routed_state(instances[j].value, target.id@)
            };
        assert(instances[j].id@ == change.instances@[k].id@);
    }
}

/// An endpoint's assignment names exactly the domains that route to it.
pub proof fn law_assignments_name_their_domains(
    domains: Seq<Stored<DomainRecord>>,
    n: nat,
    name: Seq<char>,
    i: int,
)
    requires
        0 <= i < n <= domains.len(),
    ensures
        ({
            let domain = domains[i].value;
            domain.environment@ + "/"@ + domain.project@ + "/"@ + domain.workload@ + "/"@
                + domain.port@ == name ==> routed_domains(domains, n, name).contains(domain.name@)
        }),
        forall|other: Seq<char>| #[trigger]
            routed_domains(domains, n, name).contains(other) ==> exists|k: int|
                {
                    &&& 0 <= k < n
                    &&& (#[trigger] domains[k]).value.name@ == other
                    &&& domains[k].value.environment@ + "/"@ + domains[k].value.project@ + "/"@
                        + domains[k].value.workload@ + "/"@ + domains[k].value.port@ == name
                },
    decreases n,
{
    let before = routed_domains(domains, (n - 1) as nat, name);
    let after = routed_domains(domains, n, name);
    let domain = domains[i].value;
    if n > 1 {
        law_assignments_name_their_domains(
            domains,
            (n - 1) as nat,
            name,
            if i < n - 1 {
                i
            } else {
                0
            },
        );
    }
    if endpoint_text(domain.environment@, domain.project@, domain.workload@, domain.port@)
        == name {
        if i == n - 1 {
            assert(after[after.len() - 1] == domain.name@);
        } else {
            let k = choose|k: int| 0 <= k < before.len() && before[k] == domain.name@;
            assert(after[k] == domain.name@);
        }
    }
    assert forall|other: Seq<char>| #[trigger] after.contains(other) implies exists|k: int|
        {
            &&& 0 <= k < n
            &&& (#[trigger] domains[k]).value.name@ == other
            &&& domains[k].value.environment@ + "/"@ + domains[k].value.project@ + "/"@
                + domains[k].value.workload@ + "/"@ + domains[k].value.port@ == name
        } by {
        let a = choose|a: int| 0 <= a < after.len() && after[a] == other;
        if a < before.len() {
            assert(before[a] == other);
            assert(before.contains(other));
            let k = choose|k: int|
                {
                    &&& 0 <= k < n - 1
                    &&& (#[trigger] domains[k]).value.name@ == other
                    &&& domains[k].value.environment@ + "/"@ + domains[k].value.project@ + "/"@
                        + domains[k].value.workload@ + "/"@ + domains[k].value.port@ == name
                };
            assert(domains[k].value.name@ == other);
        } else {
            assert(domains[n - 1].value.name@ == other);
        }
    }
}

/// A release runs with the configuration it was made with; only one that
/// recorded none runs with its project's.
pub proof fn law_releases_run_with_their_own_configuration(
    deployment: DeploymentRecord,
    membership: Option<Stored<EnvironmentProjectRecord>>,
)
    ensures
        deployment.config_digest is Some || deployment.config.rows().len() > 0 ==> run_config_rows(
            deployment,
            membership,
        ) == deployment.config.rows(),
        deployment.config_digest is None && deployment.config.rows().len() == 0 ==> (
        membership matches Some(membership) ==> run_config_rows(deployment, Some(membership))
            == membership.value.config.rows()),
{
}

/// A project's membership names the release that serves and its revision;
/// what is wanted of it, and since when it is there, stays.
pub proof fn law_memberships_name_what_serves(
    write: MembershipWrite,
    desired: Desired,
    target: Stored<DeploymentRecord>,
    now: i64,
)
    requires
        is_membership_write(write, desired, target, now),
    ensures
        ({
            let place = seq![target.value.environment@, target.value.project@];
            let record = write.record;
            &&& record.environment_id@ == target.value.environment_id@
            &&& record.environment@ == target.value.environment@
            &&& record.project_id@ == target.value.project_id@
            &&& record.project@ == target.value.project@
            &&& opt_text(record.revision_id) == Some(target.value.revision_id@)
            &&& opt_text(record.deployment_id) == Some(target.id@)
            &&& record.updated_at == now
            &&& desired.memberships@.contains_key(place) ==> record.desired_state
                == desired.memberships@[place].value.desired_state && record.created_at
                == desired.memberships@[place].value.created_at && opt_text(write.replaces)
                == Some(desired.memberships@[place].id@)
            &&& !desired.memberships@.contains_key(place) ==> record.desired_state is Running
                && record.created_at == now && write.replaces is None
        }),
{
    assert(key2(target.value.environment@, target.value.project@) =~= seq![
        target.value.environment@,
        target.value.project@,
    ]);
}

/// A move is recorded as it is made: the endpoint keeps its names and its
/// host port, leads to the instance and port it moves to, serves from now
/// on, and remembers what it led to before.
pub proof fn law_moves_are_recorded_as_made(
    write: TrafficWrite,
    target: Stored<DeploymentRecord>,
    now: i64,
    m: Move,
)
    requires
        records_move(write, target, now, m),
    ensures
        opt_text(write.replaces) == m.replaces,
        opt_text(write.from_revision) == m.from_revision,
        opt_text(write.record.previous_deployment_id) == m.previous_deployment,
        opt_text(write.record.previous_instance_id) == m.previous_instance,
        write.record.endpoint@ == m.endpoint,
        write.record.environment@ == target.value.environment@,
        write.record.project@ == target.value.project@,
        write.record.workload@ == m.workload,
        write.record.port@ == m.port,
        write.record.host_port == m.host_port,
        texts(write.record.domains@) == m.domains,
        write.record.deployment_id@ == target.id@,
        write.record.revision@ == target.value.revision@,
        write.record.instance_id@ == m.instance_id,
        write.record.target_port == m.target_port,
        write.record.status@ == "active"@,
        write.record.switched_at == now,
{
}

} // verus!
