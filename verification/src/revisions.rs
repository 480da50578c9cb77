//! Revisions: immutable project content, registered under a label.

use vstd::prelude::*;
use vstd::seq_lib::group_to_multiset_ensures;

use crate::digest::{content_identity, content_identity_text};
use crate::error::{EnvironmentError, Refusal};
use crate::events::{no_scope, text_fact, Datum, EventKind, Notice, Scope, ScopeText};
use crate::model::{
    copy_port_specs, invalid_name_text, valid_name, validate_name, DesiredState, PortSpec,
    Readiness, ReadinessCheck, RestartPolicy, WorkloadDefinition, WorkloadKind,
};
use crate::search::{any, lemma_first};
use crate::state::{ProjectRecord, ProjectRevisionRecord, RevisionWorkload, Stored};
use crate::domains::{port_spec_named, PortSpecNamed};
use crate::table::{find_in, key1, MapKey, Table, Test};
use crate::text::{
    copy_option, debug_text, lemma_text_irreflexive, lemma_text_transitive, opt_text, parts_less,
    quoted, same, starts_with, text_less,
};

verus! {

/// Project content, as it is registered.
#[derive(Debug)]
pub struct RevisionDefinition {
    pub revision: String,
    pub source: Option<String>,
    pub workloads: Vec<WorkloadDefinition>,
}

/// What a workload's bundle says of it.
#[derive(Debug)]
pub struct WorkloadFacts {
    pub bundle_id: Result<String, String>,
    /// The digest the canonical bundle is stored under.
    pub artifact: String,
    pub workload_identity: Result<String, String>,
    pub runtime: String,
    pub runtime_version: Option<String>,
    pub dependency: Option<String>,
    pub distribution: Option<String>,
    /// The check a workload with its ports gets when it declares none.
    pub default_readiness: Readiness,
}

// ---- Validity ---------------------------------------------------------------

/// Whether an earlier port has the same name.
pub open spec fn port_is_repeated(ports: Seq<PortSpec>, p: int) -> bool {
    exists|q: int| 0 <= q < p && (#[trigger] ports[q]).name@ == ports[p].name@
}

fn port_repeats(ports: &Vec<PortSpec>, p: usize) -> (r: bool)
    requires
        p < ports@.len(),
    ensures
        r == port_is_repeated(ports@, p as int),
{
    let mut q: usize = 0;
    while q < p
        invariant
            q <= p < ports@.len(),
            forall|k: int| 0 <= k < q ==> (#[trigger] ports@[k]).name@ != ports@[p as int].name@,
        decreases p - q,
    {
        if same(&ports[q].name, &ports[p].name) {
            return true;
        }
        q += 1;
    }
    false
}

/// Why a workload's ports, from the `p`-th on, are refused.
pub open spec fn ports_refusal(workload: Seq<char>, ports: Seq<PortSpec>, p: int) -> Option<Refusal>
    decreases ports.len() - p,
{
    if p < 0 || p >= ports.len() {
        None
    } else if !valid_name(ports[p].name@) {
        Some(Refusal::Invalid(invalid_name_text("port"@, ports[p].name@)))
    } else if ports[p].port == 0 || port_is_repeated(ports, p) {
        Some(
            Refusal::Invalid(
                "workload "@ + workload + " declares an invalid or duplicate port "@
                    + ports[p].name@,
            ),
        )
    } else {
        ports_refusal(workload, ports, p + 1)
    }
}

fn check_ports(workload: &str, ports: &Vec<PortSpec>) -> (r: Result<(), EnvironmentError>)
    ensures
        match r {
            Ok(_) => ports_refusal(workload@, ports@, 0) is None,
            Err(error) => ports_refusal(workload@, ports@, 0) matches Some(refusal)
                && error.reports(refusal),
        },
{
    let mut p: usize = 0;
    while p < ports.len()
        invariant
            p <= ports@.len(),
            ports_refusal(workload@, ports@, 0) == ports_refusal(workload@, ports@, p as int),
        decreases ports@.len() - p,
    {
        if let Err(error) = validate_name("port", &ports[p].name) {
            return Err(error);
        }
        if ports[p].port == 0 || port_repeats(ports, p) {
            let mut text = "workload ".to_owned();
            text.append(workload);
            text.append(" declares an invalid or duplicate port ");
            text.append(&ports[p].name);
            return Err(EnvironmentError::Invalid(text));
        }
        p += 1;
    }
    Ok(())
}

pub open spec fn task_named(name: Seq<char>) -> spec_fn(WorkloadDefinition) -> bool {
    |workload: WorkloadDefinition| workload.name@ == name && workload.kind == WorkloadKind::Task
}

struct TaskNamed<'a> {
    name: &'a str,
}

impl<'a> Test<WorkloadDefinition> for TaskNamed<'a> {
    closed spec fn pred(&self) -> spec_fn(WorkloadDefinition) -> bool {
        task_named(self.name@)
    }

    fn test(&self, item: &WorkloadDefinition) -> (r: bool) {
        same(&item.name, self.name) && item.kind == WorkloadKind::Task
    }
}

/// The text an option holds, or another.
pub open spec fn text_or(value: Option<String>, other: Seq<char>) -> Seq<char> {
    match value {
        Some(value) => value@,
        None => other,
    }
}

/// What is wrong with a workload's readiness check: it names only what the
/// workload declares.
pub open spec fn readiness_problem(
    workload: WorkloadDefinition,
    siblings: Seq<WorkloadDefinition>,
) -> Option<Seq<char>> {
    match workload.readiness {
        None => None,
        Some(readiness) => {
            let task = text_or(readiness.task, ""@);
            if workload.kind != WorkloadKind::Service {
                Some("only services have readiness checks"@)
            } else if readiness.port is Some && !any(
                workload.ports@,
                port_spec_named(readiness.port->0@),
            ) {
                Some(
                    "readiness names port "@ + readiness.port->0@
                        + ", which it does not declare"@,
                )
            } else if (readiness.check is Port || readiness.check is Http) && workload.ports@.len()
                == 0 {
                Some("a port or http readiness check needs a declared port"@)
            } else if readiness.check is Http && !"/"@.is_prefix_of(
                text_or(readiness.path, "/"@),
            ) {
                Some("an http readiness path starts with /"@)
            } else if readiness.check is Task && !any(siblings, task_named(task)) {
                Some("readiness task "@ + debug_text(task) + " is not a task of this revision"@)
            } else if readiness.timeout_ms == 0 || readiness.interval_ms == 0 {
                Some("readiness timeout and interval must be positive"@)
            } else {
                None
            }
        },
    }
}

fn unready(workload: &WorkloadDefinition, message: &str) -> (r: Result<(), EnvironmentError>)
    ensures
        r matches Err(error) && error.reports(
            Refusal::Invalid(workload.name@ + ": "@ + message@),
        ),
{
    let mut text = workload.name.clone();
    text.append(": ");
    text.append(message);
    Err(EnvironmentError::Invalid(text))
}

/// A readiness check names only what the workload declares.
pub fn validate_readiness(
    workload: &WorkloadDefinition,
    siblings: &Vec<WorkloadDefinition>,
) -> (r: Result<(), EnvironmentError>)
    ensures
        match r {
            Ok(_) => readiness_problem(*workload, siblings@) is None,
            Err(error) => readiness_problem(*workload, siblings@) matches Some(problem)
                && error.reports(Refusal::Invalid(workload.name@ + ": "@ + problem)),
        },
{
    let readiness = match &workload.readiness {
        Some(readiness) => readiness,
        None => {
            return Ok(());
        },
    };
    if workload.kind != WorkloadKind::Service {
        return unready(workload, "only services have readiness checks");
    }
    if let Some(port) = &readiness.port {
        if find_in(&workload.ports, &PortSpecNamed { name: port }).is_none() {
            let mut text = "readiness names port ".to_owned();
            text.append(port);
            text.append(", which it does not declare");
            return unready(workload, &text);
        }
    }
    match readiness.check {
        ReadinessCheck::Port => {
            if workload.ports.len() == 0 {
                return unready(workload, "a port or http readiness check needs a declared port");
            }
        },
        ReadinessCheck::Http => {
            if workload.ports.len() == 0 {
                return unready(workload, "a port or http readiness check needs a declared port");
            }
            let rooted = match &readiness.path {
                Some(path) => starts_with(path, "/"),
                None => starts_with("/", "/"),
            };
            if !rooted {
                return unready(workload, "an http readiness path starts with /");
            }
        },
        ReadinessCheck::Task => {
            let task: String = match &readiness.task {
                Some(task) => task.clone(),
                None => "".to_owned(),
            };
            if find_in(siblings, &TaskNamed { name: &task }).is_none() {
                let mut text = "readiness task ".to_owned();
                text.append(&quoted(&task));
                text.append(" is not a task of this revision");
                return unready(workload, &text);
            }
        },
        ReadinessCheck::Process => {},
    }
    if readiness.timeout_ms == 0 || readiness.interval_ms == 0 {
        return unready(workload, "readiness timeout and interval must be positive");
    }
    Ok(())
}

/// Whether an earlier workload has the same name.
pub open spec fn workload_is_repeated(workloads: Seq<WorkloadDefinition>, k: int) -> bool {
    exists|j: int| 0 <= j < k && (#[trigger] workloads[j]).name@ == workloads[k].name@
}

fn workload_repeats(workloads: &Vec<WorkloadDefinition>, k: usize) -> (r: bool)
    requires
        k < workloads@.len(),
    ensures
        r == workload_is_repeated(workloads@, k as int),
{
    let mut j: usize = 0;
    while j < k
        invariant
            j <= k < workloads@.len(),
            forall|i: int|
                0 <= i < j ==> (#[trigger] workloads@[i]).name@ != workloads@[k as int].name@,
        decreases k - j,
    {
        if same(&workloads[j].name, &workloads[k].name) {
            return true;
        }
        j += 1;
    }
    false
}

/// Why the `k`-th workload of a revision is refused.
pub open spec fn workload_refusal(
    workloads: Seq<WorkloadDefinition>,
    bundles: Seq<Result<WorkloadFacts, String>>,
    k: int,
) -> Option<Refusal> {
    let workload = workloads[k];
    let ports = ports_refusal(workload.name@, workload.ports@, 0);
    if !valid_name(workload.name@) {
        Some(Refusal::Invalid(invalid_name_text("workload"@, workload.name@)))
    } else if workload_is_repeated(workloads, k) {
        Some(Refusal::Invalid("workload "@ + workload.name@ + " is declared twice"@))
    } else if ports is Some {
        ports
    } else if workload.kind == WorkloadKind::Task && workload.ports@.len() > 0 {
        Some(
            Refusal::Invalid(
                "task "@ + workload.name@ + " cannot declare ports; only services listen"@,
            ),
        )
    } else {
        match readiness_problem(workload, workloads) {
            Some(problem) => Some(Refusal::Invalid(workload.name@ + ": "@ + problem)),
            None => match bundles[k] {
                Ok(_) => None,
                Err(error) => Some(Refusal::Compute(error@)),
            },
        }
    }
}

/// Why the workloads of a revision, from the `k`-th on, are refused.
pub open spec fn workloads_refusal(
    workloads: Seq<WorkloadDefinition>,
    bundles: Seq<Result<WorkloadFacts, String>>,
    k: int,
) -> Option<Refusal>
    decreases workloads.len() - k,
{
    if k < 0 || k >= workloads.len() {
        None
    } else {
        match workload_refusal(workloads, bundles, k) {
            Some(refusal) => Some(refusal),
            None => workloads_refusal(workloads, bundles, k + 1),
        }
    }
}

/// Why the identities of bundles, from the `k`-th on, cannot be had.
pub open spec fn identities_refusal(bundles: Seq<Result<WorkloadFacts, String>>, k: int) -> Option<
    Refusal,
>
    decreases bundles.len() - k,
{
    if k < 0 || k >= bundles.len() {
        None
    } else {
        match bundles[k] {
            Err(_) => identities_refusal(bundles, k + 1),
            Ok(facts) => match (facts.bundle_id, facts.workload_identity) {
                (Err(error), _) => Some(Refusal::Compute(error@)),
                (Ok(_), Err(error)) => Some(Refusal::Compute(error@)),
                (Ok(_), Ok(_)) => identities_refusal(bundles, k + 1),
            },
        }
    }
}

/// Why a revision is refused.
pub open spec fn revision_refusal(
    project: Seq<char>,
    workloads: Seq<WorkloadDefinition>,
    bundles: Seq<Result<WorkloadFacts, String>>,
) -> Option<Refusal> {
    if !valid_name(project) {
        Some(Refusal::Invalid(invalid_name_text("project"@, project)))
    } else if workloads.len() == 0 {
        Some(Refusal::Invalid("a project needs at least one workload"@))
    } else {
        match workloads_refusal(workloads, bundles, 0) {
            Some(refusal) => Some(refusal),
            None => identities_refusal(bundles, 0),
        }
    }
}

/// Check the name of a project and the label of its revision, in that order.
/// `label` is what the rules for labels say of it.
pub fn check_label(project: &str, label: Result<(), EnvironmentError>) -> (r: Result<
    (),
    EnvironmentError,
>)
    ensures
        if !valid_name(project@) {
            r matches Err(error) && error.reports(
                Refusal::Invalid(invalid_name_text("project"@, project@)),
            )
        } else {
            r == label
        },
{
    if let Err(error) = validate_name("project", project) {
        return Err(error);
    }
    label
}

fn check_workload(
    workloads: &Vec<WorkloadDefinition>,
    bundles: &Vec<Result<WorkloadFacts, String>>,
    k: usize,
) -> (r: Result<(), EnvironmentError>)
    requires
        k < workloads@.len(),
        workloads@.len() == bundles@.len(),
    ensures
        match r {
            Ok(_) => workload_refusal(workloads@, bundles@, k as int) is None,
            Err(error) => workload_refusal(workloads@, bundles@, k as int) matches Some(refusal)
                && error.reports(refusal),
        },
{
    let workload = &workloads[k];
    if let Err(error) = validate_name("workload", &workload.name) {
        return Err(error);
    }
    if workload_repeats(workloads, k) {
        let mut text = "workload ".to_owned();
        text.append(&workload.name);
        text.append(" is declared twice");
        return Err(EnvironmentError::Invalid(text));
    }
    if let Err(error) = check_ports(&workload.name, &workload.ports) {
        return Err(error);
    }
    if workload.kind == WorkloadKind::Task && workload.ports.len() > 0 {
        let mut text = "task ".to_owned();
        text.append(&workload.name);
        text.append(" cannot declare ports; only services listen");
        return Err(EnvironmentError::Invalid(text));
    }
    if let Err(error) = validate_readiness(workload, workloads) {
        return Err(error);
    }
    match &bundles[k] {
        Ok(_) => Ok(()),
        Err(error) => Err(EnvironmentError::Compute(error.clone())),
    }
}

// ---- Content ----------------------------------------------------------------

/// Whether a revision's workload is the one declared, with what its bundle
/// says of it.
pub open spec fn is_revision_workload(
    workload: RevisionWorkload,
    declared: WorkloadDefinition,
    bundle: Result<WorkloadFacts, String>,
) -> bool {
    &&& bundle matches Ok(facts)
    &&& workload.name == declared.name
    &&& workload.kind == declared.kind
    &&& facts.bundle_id == Ok::<String, String>(workload.bundle_id)
    &&& workload.artifact == facts.artifact
    &&& facts.workload_identity == Ok::<String, String>(workload.workload_identity)
    &&& workload.runtime == facts.runtime
    &&& workload.runtime_version == facts.runtime_version
    &&& workload.dependency == facts.dependency
    &&& workload.distribution == facts.distribution
    &&& workload.readiness == declared.readiness
    &&& workload.default_readiness == facts.default_readiness
    &&& workload.ports@ == declared.ports@
    &&& workload.restart == declared.restart
    &&& workload.desired_state == declared.desired_state
}

/// Whether a revision's workload is one of those declared.
pub open spec fn is_declared(
    workload: RevisionWorkload,
    declared: Seq<WorkloadDefinition>,
    bundles: Seq<Result<WorkloadFacts, String>>,
) -> bool {
    exists|j: int|
        0 <= j < declared.len() && is_revision_workload(
            workload,
            #[trigger] declared[j],
            bundles[j],
        )
}

/// Whether a revision has a workload of the name.
pub open spec fn is_included(name: Seq<char>, workloads: Seq<RevisionWorkload>) -> bool {
    exists|i: int| 0 <= i < workloads.len() && (#[trigger] workloads[i]).name@ == name
}

/// Whether a revision's workloads are those declared, each once, by name.
pub open spec fn are_revision_workloads(
    workloads: Seq<RevisionWorkload>,
    declared: Seq<WorkloadDefinition>,
    bundles: Seq<Result<WorkloadFacts, String>>,
) -> bool {
    &&& forall|i: int|
        0 <= i < workloads.len() ==> #[trigger] is_declared(workloads[i], declared, bundles)
    &&& forall|j: int|
        0 <= j < declared.len() ==> #[trigger] is_included(declared[j].name@, workloads)
    &&& forall|a: int, b: int|
        0 <= a < b < workloads.len() ==> text_less(
            (#[trigger] workloads[a]).name@,
            (#[trigger] workloads[b]).name@,
        )
}

fn revision_workload(declared: &WorkloadDefinition, facts: &WorkloadFacts) -> (r: Result<
    RevisionWorkload,
    EnvironmentError,
>)
    ensures
        match (facts.bundle_id, facts.workload_identity) {
            (Err(error), _) => r matches Err(e) && e.reports(Refusal::Compute(error@)),
            (Ok(_), Err(error)) => r matches Err(e) && e.reports(Refusal::Compute(error@)),
            (Ok(_), Ok(_)) => r matches Ok(workload) && is_revision_workload(
                workload,
                *declared,
                Ok(*facts),
            ),
        },
{
    let bundle_id = match &facts.bundle_id {
        Ok(id) => id.clone(),
        Err(error) => {
            return Err(EnvironmentError::Compute(error.clone()));
        },
    };
    let workload_identity = match &facts.workload_identity {
        Ok(id) => id.clone(),
        Err(error) => {
            return Err(EnvironmentError::Compute(error.clone()));
        },
    };
    Ok(
        RevisionWorkload {
            name: declared.name.clone(),
            kind: declared.kind,
            bundle_id,
            artifact: facts.artifact.clone(),
            workload_identity,
            runtime: facts.runtime.clone(),
            runtime_version: copy_option(&facts.runtime_version),
            dependency: copy_option(&facts.dependency),
            distribution: copy_option(&facts.distribution),
            readiness: match &declared.readiness {
                Some(readiness) => Some(readiness.clone()),
                None => None,
            },
            default_readiness: facts.default_readiness.clone(),
            ports: copy_port_specs(&declared.ports),
            restart: declared.restart,
            desired_state: declared.desired_state,
        },
    )
}

/// Where each of the first `n` declared workloads stands, by name.
spec fn places(declared: Seq<WorkloadDefinition>, index: Map<Seq<Seq<char>>, usize>, n: int) -> bool {
    &&& forall|j: int|
        0 <= j < n ==> index.contains_key(key1((#[trigger] declared[j]).name@))
    &&& forall|key: Seq<Seq<char>>| #[trigger]
        index.contains_key(key) ==> index[key] < n && key == key1(
            declared[index[key] as int].name@,
        )
}

fn index_by_name(declared: &Vec<WorkloadDefinition>) -> (r: Table<String, usize>)
    ensures
        places(declared@, r@, declared@.len() as int),
{
    let mut index: Table<String, usize> = Table::new();
    let mut i: usize = 0;
    while i < declared.len()
        invariant
            i <= declared@.len(),
            places(declared@, index@, i as int),
        decreases declared@.len() - i,
    {
        let ghost before = index@;
        index.insert(declared[i].name.clone(), i);
        proof {
            assert forall|key: Seq<Seq<char>>| #[trigger]
                index@.contains_key(key) implies index@[key] < i + 1 && key == key1(
                declared@[index@[key] as int].name@,
            ) by {
                if key != key1(declared@[i as int].name@) {
                    assert(before.contains_key(key));
                }
            }
        }
        i += 1;
    }
    index
}

/// The content of a revision: its workloads, valid and in order of name.
pub fn revision_workloads(
    project: &str,
    definition: &RevisionDefinition,
    bundles: &Vec<Result<WorkloadFacts, String>>,
) -> (r: Result<Vec<RevisionWorkload>, EnvironmentError>)
    requires
        bundles@.len() == definition.workloads@.len(),
    ensures
        match r {
            Ok(workloads) => revision_refusal(
                project@,
                definition.workloads@,
                bundles@,
            ) is None && are_revision_workloads(workloads@, definition.workloads@, bundles@),
            Err(error) => revision_refusal(
                project@,
                definition.workloads@,
                bundles@,
            ) matches Some(refusal) && error.reports(refusal),
        },
{
    if let Err(error) = validate_name("project", project) {
        return Err(error);
    }
    let declared = &definition.workloads;
    if declared.len() == 0 {
        return Err(EnvironmentError::Invalid("a project needs at least one workload".to_owned()));
    }
    let mut k: usize = 0;
    while k < declared.len()
        invariant
            k <= declared@.len(),
            workloads_refusal(declared@, bundles@, 0) == workloads_refusal(
                declared@,
                bundles@,
                k as int,
            ),
            forall|j: int| 0 <= j < k ==> (#[trigger] bundles@[j]) is Ok,
        decreases declared@.len() - k,
    {
        if let Err(error) = check_workload(declared, bundles, k) {
            return Err(error);
        }
        k += 1;
    }
    // Every identity, in the order declared.
    let mut i: usize = 0;
    while i < bundles.len()
        invariant
            i <= bundles@.len(),
            identities_refusal(bundles@, 0) == identities_refusal(bundles@, i as int),
            forall|j: int|
                0 <= j < i ==> ((#[trigger] bundles@[j]) matches Ok(facts) && facts.bundle_id is Ok
                    && facts.workload_identity is Ok),
        decreases bundles@.len() - i,
    {
        if let Ok(facts) = &bundles[i] {
            if let Err(error) = &facts.bundle_id {
                return Err(EnvironmentError::Compute(error.clone()));
            }
            if let Err(error) = &facts.workload_identity {
                return Err(EnvironmentError::Compute(error.clone()));
            }
        }
        i += 1;
    }
    let index = index_by_name(declared);
    proof {
        use_type_invariant(&index);
        index.lemma_ascending();
    }
    let ghost rows = index.rows();
    let mut workloads: Vec<RevisionWorkload> = Vec::new();
    let mut n: usize = 0;
    while n < index.len()
        invariant
            n <= rows.len(),
            workloads@.len() == n,
            forall|a: int|
                0 <= a < n ==> {
                    &&& (#[trigger] rows[a]).1 < declared@.len()
                    &&& is_revision_workload(
                        workloads@[a],
                        declared@[rows[a].1 as int],
                        bundles@[rows[a].1 as int],
                    )
                    &&& rows[a].0@ == declared@[rows[a].1 as int].name@
                },
        decreases rows.len() - n,
    {
        let j: usize = *index.value_at(n);
        proof {
            index.lemma_value(n as int);
            assert(index@.contains_key(rows[n as int].0.parts()));
            assert(key1(rows[n as int].0@)[0] == key1(declared@[j as int].name@)[0]);
        }
        match &bundles[j] {
            Ok(facts) => match revision_workload(&declared[j], facts) {
                Ok(workload) => {
                    workloads.push(workload);
                },
                Err(error) => {
                    return Err(error);
                },
            },
            Err(error) => {
                return Err(EnvironmentError::Compute(error.clone()));
            },
        }
        n += 1;
    }
    proof {
        assert forall|a: int| 0 <= a < workloads@.len() implies #[trigger] is_declared(
            workloads@[a],
            declared@,
            bundles@,
        ) by {
            let j = rows[a].1 as int;
            assert(is_revision_workload(workloads@[a], declared@[j], bundles@[j]));
        }
        assert forall|j: int| 0 <= j < declared@.len() implies #[trigger] is_included(
            declared@[j].name@,
            workloads@,
        ) by {
            let key = key1(declared@[j].name@);
            assert(index@.contains_key(key));
            let a = crate::table::row_of(rows, key);
            assert(rows[a].0.parts() == key);
            assert(key1(rows[a].0@)[0] == key[0]);
            assert(workloads@[a].name@ == declared@[j].name@);
        }
        assert forall|a: int, b: int| 0 <= a < b < workloads@.len() implies text_less(
            (#[trigger] workloads@[a]).name@,
            (#[trigger] workloads@[b]).name@,
        ) by {
            assert(parts_less(rows[a].0.parts(), rows[b].0.parts()));
            crate::table::lemma_less1(rows[a].0@, rows[b].0@);
        }
    }
    Ok(workloads)
}

/// The text a revision's identifier is made from: its label, and what its
/// content hashes to.
pub open spec fn identity_text(label: Seq<char>, content: Seq<u8>) -> Seq<char> {
    label + "\n"@ + content_identity_text(content)
}

/// The digest of a revision's content, and the text its identifier is made
/// from: two labels may carry the same content, but a label never changes
/// content.
pub fn identify_revision(label: &str, content: &Vec<u8>) -> (r: (String, String))
    ensures
        r.0@ == content_identity_text(content@),
        r.0@.len() == 71,
        r.1@ == identity_text(label@, content@),
{
    let digest = content_identity(content);
    let mut text = label.to_owned();
    text.append("\n");
    text.append(&digest);
    (digest, text)
}

// ---- Registering ------------------------------------------------------------

/// What registering a revision does.
pub enum Registration {
    /// The same content is registered under this label already.
    Existing,
    Create {
        revision: ProjectRevisionRecord,
        /// The project itself, when it is new.
        project: Option<ProjectRecord>,
        notices: Vec<Notice>,
    },
}

/// How a revision is registered.
pub enum Registering {
    /// Not at all: this very revision is there.
    Existing,
    /// Not at all: its label names another revision.
    Conflict,
    Create,
}

/// How a revision is registered, by its identifier and that of the revision
/// which has its label.
pub open spec fn registering(same_label: Option<Seq<char>>, revision_id: Seq<char>) -> Registering {
    match same_label {
        Some(existing) => if existing == revision_id {
            Registering::Existing
        } else {
            Registering::Conflict
        },
        None => Registering::Create,
    }
}

/// A scope of a project everywhere.
pub open spec fn project_anywhere(project: Seq<char>) -> ScopeText {
    ScopeText { project: Some(project), ..no_scope() }
}

fn project_notice(kind: EventKind, project: &str, message: String) -> (r: Notice)
    ensures
        r.says(kind, project_anywhere(project@), message@, seq![]),
{
    let mut scope = Scope::default();
    scope.project = Some(project.to_owned());
    Notice::new(kind, scope, message)
}

/// Register a revision. Registering the same content again changes nothing;
/// reusing a label for different content is refused.
pub fn register_revision(
    project: &str,
    project_id: &str,
    revision_id: &str,
    revision_digest: &str,
    definition: &RevisionDefinition,
    workloads: Vec<RevisionWorkload>,
    same_label: Option<&Stored<ProjectRevisionRecord>>,
    project_exists: bool,
    now: i64,
) -> (r: Result<Registration, EnvironmentError>)
    ensures
        match registering(
            match same_label {
                Some(existing) => Some(existing.id@),
                None => None,
            },
            revision_id@,
        ) {
            Registering::Existing => r matches Ok(registration) && registration is Existing,
            Registering::Conflict => {
                &&& same_label matches Some(existing)
                &&& r matches Err(error)
                &&& error.reports(
                    Refusal::Conflict(
                        "revision "@ + definition.revision@ + " of "@ + project@
                            + " already names different content ("@
                            + existing.value.revision_digest@ + "); revisions are immutable"@,
                    ),
                )
            },
            Registering::Create => {
                &&& r matches Ok(Registration::Create { revision, project: created, notices })
                &&& revision.project_id@ == project_id@
                &&& revision.project@ == project@
                &&& revision.revision == definition.revision
                &&& revision.revision_digest@ == revision_digest@
                &&& revision.source == definition.source
                &&& revision.workloads == workloads
                &&& revision.created_at == now
                &&& (created is Some) == !project_exists
                &&& created matches Some(record) ==> {
                    &&& record.name@ == project@
                    &&& record.source == definition.source
                    &&& record.created_at == now
                }
                &&& notices@.len() == (if project_exists {
                    1int
                } else {
                    2int
                })
                &&& !project_exists ==> notices@[0].says(
                    EventKind::ProjectRegistered,
                    project_anywhere(project@),
                    "Project "@ + project@ + " registered"@,
                    seq![text_fact("project_id"@, project_id@)],
                )
                &&& notices@.last().says(
                    EventKind::ProjectRevisionCreated,
                    project_anywhere(project@),
                    project@ + " revision "@ + definition.revision@ + " registered"@,
                    seq![
                        text_fact("revision_id"@, revision_id@),
                        text_fact("revision_digest"@, revision_digest@),
                    ],
                )
            },
        },
{
    if let Some(existing) = same_label {
        if same(&existing.id, revision_id) {
            return Ok(Registration::Existing);
        }
        let mut text = "revision ".to_owned();
        text.append(&definition.revision);
        text.append(" of ");
        text.append(project);
        text.append(" already names different content (");
        text.append(&existing.value.revision_digest);
        text.append("); revisions are immutable");
        return Err(EnvironmentError::Conflict(text));
    }
    let mut notices: Vec<Notice> = Vec::new();
    let created = if project_exists {
        None
    } else {
        let mut message = "Project ".to_owned();
        message.append(project);
        message.append(" registered");
        notices.push(
            project_notice(EventKind::ProjectRegistered, project, message).with(
                "project_id",
                Datum::text(project_id),
            ),
        );
        Some(
            ProjectRecord {
                name: project.to_owned(),
                source: copy_option(&definition.source),
                created_at: now,
            },
        )
    };
    let mut message = project.to_owned();
    message.append(" revision ");
    message.append(&definition.revision);
    message.append(" registered");
    notices.push(
        project_notice(EventKind::ProjectRevisionCreated, project, message).with(
            "revision_id",
            Datum::text(revision_id),
        ).with("revision_digest", Datum::text(revision_digest)),
    );
    let revision = ProjectRevisionRecord {
        project_id: project_id.to_owned(),
        project: project.to_owned(),
        revision: definition.revision.clone(),
        revision_digest: revision_digest.to_owned(),
        source: copy_option(&definition.source),
        workloads,
        created_at: now,
    };
    Ok(Registration::Create { revision, project: created, notices })
}

// ---- Laws -------------------------------------------------------------------

/// A readiness check, as it is written.
#[verifier::ext_equal]
pub struct DeclaredReadiness {
    pub check: ReadinessCheck,
    pub port: Option<Seq<char>>,
    pub path: Option<Seq<char>>,
    pub task: Option<Seq<char>>,
    pub timeout_ms: u64,
    pub interval_ms: u64,
}

pub open spec fn readiness_text(readiness: Option<Readiness>) -> Option<DeclaredReadiness> {
    match readiness {
        Some(readiness) => Some(
            DeclaredReadiness {
                check: readiness.check,
                port: opt_text(readiness.port),
                path: opt_text(readiness.path),
                task: opt_text(readiness.task),
                timeout_ms: readiness.timeout_ms,
                interval_ms: readiness.interval_ms,
            },
        ),
        None => None,
    }
}

pub open spec fn port_texts(ports: Seq<PortSpec>) -> Seq<(Seq<char>, u16)> {
    ports.map_values(|port: PortSpec| (port.name@, port.port))
}

/// What of a workload is the content of its revision.
#[verifier::ext_equal]
pub struct WorkloadContent {
    pub name: Seq<char>,
    pub kind: WorkloadKind,
    pub bundle_id: Seq<char>,
    pub artifact: Seq<char>,
    pub workload_identity: Seq<char>,
    pub runtime: Seq<char>,
    pub runtime_version: Option<Seq<char>>,
    pub dependency: Option<Seq<char>>,
    pub distribution: Option<Seq<char>>,
    pub readiness: Option<DeclaredReadiness>,
    pub ports: Seq<(Seq<char>, u16)>,
    pub restart: RestartPolicy,
    pub desired_state: DesiredState,
}

pub open spec fn workload_content(workload: RevisionWorkload) -> WorkloadContent {
    WorkloadContent {
        name: workload.name@,
        kind: workload.kind,
        bundle_id: workload.bundle_id@,
        artifact: workload.artifact@,
        workload_identity: workload.workload_identity@,
        runtime: workload.runtime@,
        runtime_version: opt_text(workload.runtime_version),
        dependency: opt_text(workload.dependency),
        distribution: opt_text(workload.distribution),
        readiness: readiness_text(workload.readiness),
        ports: port_texts(workload.ports@),
        restart: workload.restart,
        desired_state: workload.desired_state,
    }
}

/// The content of a revision.
pub open spec fn revision_content(workloads: Seq<RevisionWorkload>) -> Seq<WorkloadContent> {
    workloads.map_values(|workload: RevisionWorkload| workload_content(workload))
}

/// The content that a workload declares, together with its bundle.
pub open spec fn declared_content(
    declared: WorkloadDefinition,
    bundle: Result<WorkloadFacts, String>,
) -> WorkloadContent {
    let facts = bundle->Ok_0;
    WorkloadContent {
        name: declared.name@,
        kind: declared.kind,
        bundle_id: facts.bundle_id->Ok_0@,
        artifact: facts.artifact@,
        workload_identity: facts.workload_identity->Ok_0@,
        runtime: facts.runtime@,
        runtime_version: opt_text(facts.runtime_version),
        dependency: opt_text(facts.dependency),
        distribution: opt_text(facts.distribution),
        readiness: readiness_text(declared.readiness),
        ports: port_texts(declared.ports@),
        restart: declared.restart,
        desired_state: declared.desired_state,
    }
}

/// The content that a revision's workloads declare, in the order in which
/// they are declared.
pub open spec fn declared_contents(
    declared: Seq<WorkloadDefinition>,
    bundles: Seq<Result<WorkloadFacts, String>>,
) -> Seq<WorkloadContent> {
    Seq::new(declared.len(), |i: int| declared_content(declared[i], bundles[i]))
}

/// No two workloads of a valid declaration share a name.
proof fn lemma_names_differ(
    workloads: Seq<WorkloadDefinition>,
    bundles: Seq<Result<WorkloadFacts, String>>,
    k: int,
    i: int,
    j: int,
)
    requires
        0 <= k <= j,
        0 <= i < j < workloads.len(),
        workloads_refusal(workloads, bundles, k) is None,
    ensures
        workloads[i].name@ != workloads[j].name@,
    decreases j - k,
{
    if k < j {
        lemma_names_differ(workloads, bundles, k + 1, i, j);
    } else {
        assert(!workload_is_repeated(workloads, j));
    }
}

/// Strictly ascending names are determined by which names occur.
proof fn lemma_ascending_unique(a: Seq<Seq<char>>, b: Seq<Seq<char>>)
    requires
        forall|i: int, j: int| 0 <= i < j < a.len() ==> text_less(#[trigger] a[i], #[trigger] a[j]),
        forall|i: int, j: int| 0 <= i < j < b.len() ==> text_less(#[trigger] b[i], #[trigger] b[j]),
        forall|i: int| 0 <= i < a.len() ==> b.contains(#[trigger] a[i]),
        forall|i: int| 0 <= i < b.len() ==> a.contains(#[trigger] b[i]),
    ensures
        a == b,
    decreases a.len(),
{
    if a.len() == 0 {
        if b.len() > 0 {
            assert(a.contains(b[0]));
        }
        assert(a =~= b);
    } else {
        assert(b.contains(a[0]));
        assert(a.contains(b[0]));
        let j = choose|j: int| 0 <= j < b.len() && b[j] == a[0];
        let i = choose|i: int| 0 <= i < a.len() && a[i] == b[0];
        if i > 0 && j > 0 {
            lemma_text_transitive(a[0], b[0], a[0]);
            lemma_text_irreflexive(a[0]);
        }
        assert(a[0] == b[0]);
        let a_rest = a.drop_first();
        let b_rest = b.drop_first();
        assert forall|i: int| 0 <= i < a_rest.len() implies b_rest.contains(#[trigger] a_rest[i]) by {
            assert(a_rest[i] == a[i + 1]);
            let j = choose|j: int| 0 <= j < b.len() && b[j] == a[i + 1];
            lemma_text_irreflexive(a[0]);
            assert(text_less(a[0], a[i + 1]));
            assert(b_rest[j - 1] == a_rest[i]);
        }
        assert forall|i: int| 0 <= i < b_rest.len() implies a_rest.contains(#[trigger] b_rest[i]) by {
            assert(b_rest[i] == b[i + 1]);
            let j = choose|j: int| 0 <= j < a.len() && a[j] == b[i + 1];
            lemma_text_irreflexive(b[0]);
            assert(text_less(b[0], b[i + 1]));
            assert(a_rest[j - 1] == b_rest[i]);
        }
        assert forall|i: int, j: int| 0 <= i < j < a_rest.len() implies text_less(
            #[trigger] a_rest[i],
            #[trigger] a_rest[j],
        ) by {
            assert(a_rest[i] == a[i + 1] && a_rest[j] == a[j + 1]);
        }
        assert forall|i: int, j: int| 0 <= i < j < b_rest.len() implies text_less(
            #[trigger] b_rest[i],
            #[trigger] b_rest[j],
        ) by {
            assert(b_rest[i] == b[i + 1] && b_rest[j] == b[j + 1]);
        }
        lemma_ascending_unique(a_rest, b_rest);
        assert(a =~= seq![a[0]] + a_rest);
        assert(b =~= seq![b[0]] + b_rest);
    }
}

/// The names of a revision's workloads.
spec fn workload_names(workloads: Seq<RevisionWorkload>) -> Seq<Seq<char>> {
    workloads.map_values(|workload: RevisionWorkload| workload.name@)
}

/// A workload of a revision is one that was declared.
proof fn lemma_declared(
    workloads: Seq<RevisionWorkload>,
    declared: Seq<WorkloadDefinition>,
    bundles: Seq<Result<WorkloadFacts, String>>,
    i: int,
) -> (j: int)
    requires
        are_revision_workloads(workloads, declared, bundles),
        0 <= i < workloads.len(),
    ensures
        0 <= j < declared.len(),
        workload_content(workloads[i]) == declared_content(declared[j], bundles[j]),
{
    assert(is_declared(workloads[i], declared, bundles));
    let j = choose|j: int|
        0 <= j < declared.len() && is_revision_workload(
            workloads[i],
            #[trigger] declared[j],
            bundles[j],
        );
    assert(workload_content(workloads[i]) =~= declared_content(declared[j], bundles[j]));
    j
}

/// A workload that was declared is in the revision.
proof fn lemma_included(
    workloads: Seq<RevisionWorkload>,
    declared: Seq<WorkloadDefinition>,
    bundles: Seq<Result<WorkloadFacts, String>>,
    j: int,
) -> (i: int)
    requires
        are_revision_workloads(workloads, declared, bundles),
        0 <= j < declared.len(),
    ensures
        0 <= i < workloads.len(),
        workloads[i].name@ == declared[j].name@,
{
    assert(is_included(declared[j].name@, workloads));
    choose|i: int| 0 <= i < workloads.len() && (#[trigger] workloads[i]).name@ == declared[j].name@
}

/// A workload of one declaration stands in another of the same workloads.
proof fn lemma_within(
    a: Seq<WorkloadDefinition>,
    a_bundles: Seq<Result<WorkloadFacts, String>>,
    b: Seq<WorkloadDefinition>,
    b_bundles: Seq<Result<WorkloadFacts, String>>,
    i: int,
) -> (j: int)
    requires
        declared_contents(a, a_bundles).to_multiset() == declared_contents(
            b,
            b_bundles,
        ).to_multiset(),
        0 <= i < a.len(),
    ensures
        0 <= j < b.len(),
        declared_content(a[i], a_bundles[i]) == declared_content(b[j], b_bundles[j]),
{
    broadcast use group_to_multiset_ensures;

    let ours = declared_contents(a, a_bundles);
    let theirs = declared_contents(b, b_bundles);
    assert(ours.contains(ours[i]));
    assert(ours.to_multiset().count(ours[i]) > 0);
    assert(theirs.to_multiset().count(ours[i]) > 0);
    assert(theirs.contains(ours[i]));
    choose|j: int| 0 <= j < theirs.len() && theirs[j] == ours[i]
}

/// Each name of one revision is in another that declares the same.
proof fn lemma_name_in(
    a: Seq<RevisionWorkload>,
    a_declared: Seq<WorkloadDefinition>,
    a_bundles: Seq<Result<WorkloadFacts, String>>,
    b: Seq<RevisionWorkload>,
    b_declared: Seq<WorkloadDefinition>,
    b_bundles: Seq<Result<WorkloadFacts, String>>,
    i: int,
)
    requires
        are_revision_workloads(a, a_declared, a_bundles),
        are_revision_workloads(b, b_declared, b_bundles),
        declared_contents(a_declared, a_bundles).to_multiset() == declared_contents(
            b_declared,
            b_bundles,
        ).to_multiset(),
        0 <= i < a.len(),
    ensures
        workload_names(b).contains(workload_names(a)[i]),
{
    let j = lemma_declared(a, a_declared, a_bundles, i);
    let k = lemma_within(a_declared, a_bundles, b_declared, b_bundles, j);
    let m = lemma_included(b, b_declared, b_bundles, k);
    assert(workload_content(a[i]).name == declared_content(b_declared[k], b_bundles[k]).name);
    assert(workload_names(b)[m] == workload_names(a)[i]);
}

proof fn lemma_names_ascend(
    workloads: Seq<RevisionWorkload>,
    declared: Seq<WorkloadDefinition>,
    bundles: Seq<Result<WorkloadFacts, String>>,
)
    requires
        are_revision_workloads(workloads, declared, bundles),
    ensures
        forall|i: int, j: int|
            0 <= i < j < workloads.len() ==> text_less(
                #[trigger] workload_names(workloads)[i],
                #[trigger] workload_names(workloads)[j],
            ),
{
    assert forall|i: int, j: int| 0 <= i < j < workloads.len() implies text_less(
        #[trigger] workload_names(workloads)[i],
        #[trigger] workload_names(workloads)[j],
    ) by {
        assert(text_less(workloads[i].name@, workloads[j].name@));
    }
}

/// Revisions that declare the same have the same content.
proof fn lemma_same_content(
    a: Seq<RevisionWorkload>,
    a_declared: Seq<WorkloadDefinition>,
    a_bundles: Seq<Result<WorkloadFacts, String>>,
    b: Seq<RevisionWorkload>,
    b_declared: Seq<WorkloadDefinition>,
    b_bundles: Seq<Result<WorkloadFacts, String>>,
)
    requires
        workloads_refusal(b_declared, b_bundles, 0) is None,
        are_revision_workloads(a, a_declared, a_bundles),
        are_revision_workloads(b, b_declared, b_bundles),
        declared_contents(a_declared, a_bundles).to_multiset() == declared_contents(
            b_declared,
            b_bundles,
        ).to_multiset(),
    ensures
        revision_content(a) == revision_content(b),
{
    let a_names = workload_names(a);
    let b_names = workload_names(b);
    lemma_names_ascend(a, a_declared, a_bundles);
    lemma_names_ascend(b, b_declared, b_bundles);
    assert forall|i: int| 0 <= i < a_names.len() implies b_names.contains(#[trigger] a_names[i]) by {
        lemma_name_in(a, a_declared, a_bundles, b, b_declared, b_bundles, i);
    }
    assert forall|i: int| 0 <= i < b_names.len() implies a_names.contains(#[trigger] b_names[i]) by {
        lemma_name_in(b, b_declared, b_bundles, a, a_declared, a_bundles, i);
    }
    lemma_ascending_unique(a_names, b_names);
    assert(a.len() == a_names.len() && b.len() == b_names.len());
    assert forall|i: int| 0 <= i < a.len() implies workload_content(a[i]) == workload_content(
        b[i],
    ) by {
        let j = lemma_declared(a, a_declared, a_bundles, i);
        let k = lemma_within(a_declared, a_bundles, b_declared, b_bundles, j);
        let m = lemma_declared(b, b_declared, b_bundles, i);
        assert(a_names[i] == b_names[i]);
        assert(workload_content(a[i]).name == declared_content(b_declared[k], b_bundles[k]).name);
        assert(workload_content(b[i]).name == declared_content(b_declared[m], b_bundles[m]).name);
        if k < m {
            lemma_names_differ(b_declared, b_bundles, 0, k, m);
        } else if m < k {
            lemma_names_differ(b_declared, b_bundles, 0, m, k);
        }
    }
    assert(revision_content(a) =~= revision_content(b));
}

/// The order in which workloads are declared does not matter. The same
/// workloads are the same content, so however content is written down they
/// have the same digest, and however identifiers are made under one label
/// the same identifier: registering them again changes nothing. Under a
/// label that names another identifier they are refused.
pub proof fn law_declaration_order_does_not_matter(
    project: Seq<char>,
    a: Seq<RevisionWorkload>,
    a_declared: Seq<WorkloadDefinition>,
    a_bundles: Seq<Result<WorkloadFacts, String>>,
    b: Seq<RevisionWorkload>,
    b_declared: Seq<WorkloadDefinition>,
    b_bundles: Seq<Result<WorkloadFacts, String>>,
    label: Seq<char>,
    written: spec_fn(Seq<WorkloadContent>) -> Seq<u8>,
    identifier: spec_fn(Seq<char>) -> Seq<char>,
)
    requires
        revision_refusal(project, a_declared, a_bundles) is None,
        revision_refusal(project, b_declared, b_bundles) is None,
        are_revision_workloads(a, a_declared, a_bundles),
        are_revision_workloads(b, b_declared, b_bundles),
        declared_contents(a_declared, a_bundles).to_multiset() == declared_contents(
            b_declared,
            b_bundles,
        ).to_multiset(),
    ensures
        revision_content(a) == revision_content(b),
        content_identity_text(written(revision_content(a))) == content_identity_text(
            written(revision_content(b)),
        ),
        registering(
            Some(identifier(identity_text(label, written(revision_content(a))))),
            identifier(identity_text(label, written(revision_content(b)))),
        ) is Existing,
        forall|other: Seq<char>|
            other != identifier(identity_text(label, written(revision_content(b))))
                ==> #[trigger] registering(
                Some(other),
                identifier(identity_text(label, written(revision_content(b)))),
            ) is Conflict,
{
    lemma_same_content(a, a_declared, a_bundles, b, b_declared, b_bundles);
}

/// A workload's ports are accepted exactly when each has a valid name and a
/// number that is not 0, and no two have the same name.
pub proof fn law_ports_are_declared_once(workload: Seq<char>, ports: Seq<PortSpec>, p: int)
    requires
        0 <= p <= ports.len(),
    ensures
        ports_refusal(workload, ports, p) is None <==> forall|i: int|
            p <= i < ports.len() ==> {
                &&& valid_name((#[trigger] ports[i]).name@)
                &&& ports[i].port != 0
                &&& forall|j: int| 0 <= j < i ==> (#[trigger] ports[j]).name@ != ports[i].name@
            },
    decreases ports.len() - p,
{
    if p < ports.len() {
        law_ports_are_declared_once(workload, ports, p + 1);
        if ports_refusal(workload, ports, p) is None {
            assert forall|i: int| p <= i < ports.len() implies {
                &&& valid_name((#[trigger] ports[i]).name@)
                &&& ports[i].port != 0
                &&& forall|j: int| 0 <= j < i ==> (#[trigger] ports[j]).name@ != ports[i].name@
            } by {}
        }
        if forall|i: int|
            p <= i < ports.len() ==> {
                &&& valid_name((#[trigger] ports[i]).name@)
                &&& ports[i].port != 0
                &&& forall|j: int| 0 <= j < i ==> (#[trigger] ports[j]).name@ != ports[i].name@
            } {
            assert(valid_name(ports[p].name@));
            assert(!port_is_repeated(ports, p));
        }
    }
}

/// A readiness check is accepted exactly when it is a service's, names only
/// what the workload declares or the revision has, and has time to be made.
pub proof fn law_readiness_names_what_is_declared(
    workload: WorkloadDefinition,
    siblings: Seq<WorkloadDefinition>,
)
    ensures
        workload.readiness is None ==> readiness_problem(workload, siblings) is None,
        workload.readiness matches Some(readiness) ==> (readiness_problem(
            workload,
            siblings,
        ) is None <==> {
            &&& workload.kind == WorkloadKind::Service
            &&& readiness.timeout_ms > 0
            &&& readiness.interval_ms > 0
            &&& readiness.port matches Some(port) ==> exists|i: int|
                0 <= i < workload.ports@.len() && (#[trigger] workload.ports@[i]).name@ == port@
            &&& readiness.check == ReadinessCheck::Port || readiness.check == ReadinessCheck::Http
                ==> workload.ports@.len() > 0
            &&& readiness.check == ReadinessCheck::Http ==> (readiness.path matches Some(path)
                ==> path@.len() > 0 && path@[0] == '/')
            &&& readiness.check == ReadinessCheck::Task ==> exists|i: int|
                0 <= i < siblings.len() && (#[trigger] siblings[i]).kind == WorkloadKind::Task
                    && siblings[i].name@ == (match readiness.task {
                    Some(task) => task@,
                    None => ""@,
                })
        }),
{
    reveal_strlit("/");
    assert("/"@.len() == 1 && "/"@[0] == '/');
    assert("/"@.is_prefix_of("/"@)) by {
        assert("/"@.subrange(0, 1) =~= "/"@);
    }
    if let Some(readiness) = workload.readiness {
        if let Some(port) = readiness.port {
            lemma_first(workload.ports@, port_spec_named(port@));
        }
        let task = text_or(readiness.task, ""@);
        lemma_first(siblings, task_named(task));
        if let Some(path) = readiness.path {
            if path@.len() > 0 && path@[0] == '/' {
                assert(path@.subrange(0, 1) =~= "/"@);
            }
        }
    }
}

/// No workload is refused exactly when none is.
proof fn lemma_workloads_refusal(
    workloads: Seq<WorkloadDefinition>,
    bundles: Seq<Result<WorkloadFacts, String>>,
    k: int,
)
    requires
        0 <= k <= workloads.len(),
    ensures
        workloads_refusal(workloads, bundles, k) is None <==> forall|i: int|
            k <= i < workloads.len() ==> #[trigger] workload_refusal(workloads, bundles, i) is None,
    decreases workloads.len() - k,
{
    if k < workloads.len() {
        lemma_workloads_refusal(workloads, bundles, k + 1);
        if workloads_refusal(workloads, bundles, k) is None {
            assert forall|i: int| k <= i < workloads.len() implies #[trigger] workload_refusal(
                workloads,
                bundles,
                i,
            ) is None by {}
        }
        if forall|i: int|
            k <= i < workloads.len() ==> #[trigger] workload_refusal(
                workloads,
                bundles,
                i,
            ) is None {
            assert(workload_refusal(workloads, bundles, k) is None);
        }
    }
}

proof fn lemma_identities_refusal(bundles: Seq<Result<WorkloadFacts, String>>, k: int)
    requires
        0 <= k <= bundles.len(),
    ensures
        identities_refusal(bundles, k) is None <==> forall|i: int|
            k <= i < bundles.len() ==> ((#[trigger] bundles[i]) matches Ok(facts)
                ==> facts.bundle_id is Ok && facts.workload_identity is Ok),
    decreases bundles.len() - k,
{
    if k < bundles.len() {
        lemma_identities_refusal(bundles, k + 1);
        if identities_refusal(bundles, k) is None {
            assert forall|i: int| k <= i < bundles.len() implies ((
            #[trigger] bundles[i]) matches Ok(facts) ==> facts.bundle_id is Ok
                && facts.workload_identity is Ok) by {}
        }
        if forall|i: int|
            k <= i < bundles.len() ==> ((#[trigger] bundles[i]) matches Ok(facts)
                ==> facts.bundle_id is Ok && facts.workload_identity is Ok) {
            assert(bundles[k] matches Ok(facts) ==> facts.bundle_id is Ok
                && facts.workload_identity is Ok);
        }
    }
}

/// A revision is accepted exactly when its project has a valid name, it has
/// a workload, and each of its workloads has a valid name of its own, ports
/// that are accepted, none if it is a task, a readiness check that is
/// accepted, and a bundle whose identities can be had.
pub proof fn law_only_valid_revisions_are_accepted(
    project: Seq<char>,
    workloads: Seq<WorkloadDefinition>,
    bundles: Seq<Result<WorkloadFacts, String>>,
)
    requires
        bundles.len() == workloads.len(),
    ensures
        revision_refusal(project, workloads, bundles) is None <==> {
            &&& valid_name(project)
            &&& workloads.len() > 0
            &&& forall|k: int|
                0 <= k < workloads.len() ==> {
                    let workload = #[trigger] workloads[k];
                    &&& valid_name(workload.name@)
                    &&& forall|j: int|
                        0 <= j < k ==> (#[trigger] workloads[j]).name@ != workload.name@
                    &&& ports_refusal(workload.name@, workload.ports@, 0) is None
                    &&& workload.kind == WorkloadKind::Task ==> workload.ports@.len() == 0
                    &&& readiness_problem(workload, workloads) is None
                    &&& bundles[k] matches Ok(facts)
                    &&& facts.bundle_id is Ok
                    &&& facts.workload_identity is Ok
                }
        },
{
    lemma_workloads_refusal(workloads, bundles, 0);
    lemma_identities_refusal(bundles, 0);
    if revision_refusal(project, workloads, bundles) is None {
        assert forall|k: int| 0 <= k < workloads.len() implies {
            let workload = #[trigger] workloads[k];
            &&& valid_name(workload.name@)
            &&& forall|j: int| 0 <= j < k ==> (#[trigger] workloads[j]).name@ != workload.name@
            &&& ports_refusal(workload.name@, workload.ports@, 0) is None
            &&& workload.kind == WorkloadKind::Task ==> workload.ports@.len() == 0
            &&& readiness_problem(workload, workloads) is None
            &&& bundles[k] matches Ok(facts)
            &&& facts.bundle_id is Ok
            &&& facts.workload_identity is Ok
        } by {
            assert(workload_refusal(workloads, bundles, k) is None);
            assert(bundles[k] is Ok);
        }
    }
    if valid_name(project) && workloads.len() > 0 && forall|k: int|
        0 <= k < workloads.len() ==> {
            let workload = #[trigger] workloads[k];
            &&& valid_name(workload.name@)
            &&& forall|j: int| 0 <= j < k ==> (#[trigger] workloads[j]).name@ != workload.name@
            &&& ports_refusal(workload.name@, workload.ports@, 0) is None
            &&& workload.kind == WorkloadKind::Task ==> workload.ports@.len() == 0
            &&& readiness_problem(workload, workloads) is None
            &&& bundles[k] matches Ok(facts)
            &&& facts.bundle_id is Ok
            &&& facts.workload_identity is Ok
        } {
        assert forall|i: int| 0 <= i < workloads.len() implies #[trigger] workload_refusal(
            workloads,
            bundles,
            i,
        ) is None by {
            assert(valid_name(workloads[i].name@));
            assert(!workload_is_repeated(workloads, i));
        }
        assert forall|i: int| 0 <= i < bundles.len() implies ((
        #[trigger] bundles[i]) matches Ok(facts) ==> facts.bundle_id is Ok
            && facts.workload_identity is Ok) by {
            assert(valid_name(workloads[i].name@));
        }
    }
}

/// A workload of a revision is as it was declared, with what its bundle says
/// of it.
pub proof fn law_revisions_hold_what_was_declared(
    workload: RevisionWorkload,
    declared: WorkloadDefinition,
    facts: WorkloadFacts,
)
    requires
        is_revision_workload(workload, declared, Ok(facts)),
    ensures
        workload.name@ == declared.name@,
        workload.kind == declared.kind,
        workload.ports@ == declared.ports@,
        workload.restart == declared.restart,
        workload.desired_state == declared.desired_state,
        workload.readiness == declared.readiness,
        facts.bundle_id matches Ok(id) && workload.bundle_id@ == id@,
        facts.workload_identity matches Ok(id) && workload.workload_identity@ == id@,
        workload.artifact@ == facts.artifact@,
        workload.runtime@ == facts.runtime@,
{
}

/// A label names one revision for good: registering what it names already
/// changes nothing, and anything else under it is a conflict. A label that
/// names nothing yet is free.
pub proof fn law_revisions_are_immutable(existing: Seq<char>, revision_id: Seq<char>)
    ensures
        registering(None, revision_id) is Create,
        registering(Some(existing), revision_id) is Existing <==> existing == revision_id,
        registering(Some(existing), revision_id) is Conflict <==> existing != revision_id,
{
}

/// The same content under two labels has two identities.
pub proof fn law_labels_are_part_of_the_identity(a: Seq<char>, b: Seq<char>, content: Seq<u8>)
    requires
        identity_text(a, content) == identity_text(b, content),
    ensures
        a == b,
{
    let rest = "\n"@ + content_identity_text(content);
    assert(identity_text(a, content) =~= a + rest);
    assert(identity_text(b, content) =~= b + rest);
    assert((a + rest).len() == (b + rest).len());
    assert(a =~= (a + rest).take(a.len() as int));
    assert(b =~= (b + rest).take(b.len() as int));
}

/// A workload of a revision holds what was declared of it and what its
/// bundle says, in every part.
pub proof fn law_workloads_hold_what_their_bundle_says(
    workload: RevisionWorkload,
    declared: WorkloadDefinition,
    facts: WorkloadFacts,
)
    requires
        is_revision_workload(workload, declared, Ok(facts)),
    ensures
        workload.name == declared.name,
        workload.kind == declared.kind,
        workload.readiness == declared.readiness,
        workload.ports@ == declared.ports@,
        workload.restart == declared.restart,
        workload.desired_state == declared.desired_state,
        workload.artifact == facts.artifact,
        workload.runtime == facts.runtime,
        workload.runtime_version == facts.runtime_version,
        workload.dependency == facts.dependency,
        workload.distribution == facts.distribution,
        workload.default_readiness == facts.default_readiness,
        facts.bundle_id matches Ok(id) && id == workload.bundle_id,
        facts.workload_identity matches Ok(id) && id == workload.workload_identity,
{
}

/// A revision that is refused for what it declares is invalid; one whose
/// bundle cannot be read is refused with what was found of the bundle.
pub proof fn law_revision_refusals_say_why(
    project: Seq<char>,
    workloads: Seq<WorkloadDefinition>,
    bundles: Seq<Result<WorkloadFacts, String>>,
)
    requires
        bundles.len() == workloads.len(),
    ensures
        !valid_name(project) || workloads.len() == 0 ==> (revision_refusal(
            project,
            workloads,
            bundles,
        ) matches Some(refusal) && refusal is Invalid),
        (forall|k: int|
            0 <= k < bundles.len() ==> ((#[trigger] bundles[k]) matches Ok(facts)
                && facts.bundle_id is Ok && facts.workload_identity is Ok)) ==> (revision_refusal(
            project,
            workloads,
            bundles,
        ) matches Some(refusal) ==> refusal is Invalid),
{
    if forall|k: int|
        0 <= k < bundles.len() ==> ((#[trigger] bundles[k]) matches Ok(facts)
            && facts.bundle_id is Ok && facts.workload_identity is Ok) {
        lemma_declared_refusals(workloads, bundles, 0);
    }
}

/// With every bundle readable only what is declared can be refused.
proof fn lemma_declared_refusals(
    workloads: Seq<WorkloadDefinition>,
    bundles: Seq<Result<WorkloadFacts, String>>,
    k: int,
)
    requires
        bundles.len() == workloads.len(),
        0 <= k <= workloads.len(),
        forall|j: int|
            0 <= j < bundles.len() ==> ((#[trigger] bundles[j]) matches Ok(facts)
                && facts.bundle_id is Ok && facts.workload_identity is Ok),
    ensures
        workloads_refusal(workloads, bundles, k) matches Some(refusal) ==> refusal is Invalid,
        identities_refusal(bundles, k) is None,
    decreases workloads.len() - k,
{
    if k < workloads.len() {
        lemma_declared_refusals(workloads, bundles, k + 1);
        assert(bundles[k] is Ok);
        lemma_port_refusals(workloads[k].name@, workloads[k].ports@, 0);
    }
}

proof fn lemma_port_refusals(workload: Seq<char>, ports: Seq<PortSpec>, p: int)
    requires
        0 <= p <= ports.len(),
    ensures
        ports_refusal(workload, ports, p) matches Some(refusal) ==> refusal is Invalid,
    decreases ports.len() - p,
{
    if p < ports.len() {
        lemma_port_refusals(workload, ports, p + 1);
    }
}

} // verus!
