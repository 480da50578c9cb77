//! Readiness: when a release's instances have proved that they can serve.

use vstd::prelude::*;

use crate::desired::{Desired, RevisionWorkloadNamed};
use crate::model::{ActualState, PortBinding, Readiness, ReadinessCheck, RestartPolicy};
use crate::ports::{binding_named, BindingNamed};
use crate::results::{readiness_texts, ReadinessResult, ReadinessResults, ReadinessText};
use crate::search::{found, lemma_first};
use crate::state::{
    elapsed, passed, since, status_since, DeploymentRecord, InstanceState,
    ProjectRevisionRecord, RevisionWorkload, Stored, WorkloadInstanceRecord,
};
use crate::desired::revision_workload_named;
use crate::table::{find_item, key1, Table};
use crate::text::{
    copy_option, decimal, decimal_text, join, joined, opt_text, same, signed_decimal, signed_text,
    texts,
};

verus! {

/// A process with no port to check is ready once it stays up this many
/// milliseconds.
pub const PROCESS_READY_AFTER_MS: u64 = 500;

/// How a readiness check came out, and what it found.
#[derive(Debug, PartialEq, Eq)]
pub enum Check {
    Ready(String),
    Waiting(String),
    Failed(String),
}

pub ghost enum CheckText {
    Ready(Seq<char>),
    Waiting(Seq<char>),
    Failed(Seq<char>),
}

impl View for Check {
    type V = CheckText;

    open spec fn view(&self) -> CheckText {
        match *self {
            Check::Ready(text) => CheckText::Ready(text@),
            Check::Waiting(text) => CheckText::Waiting(text@),
            Check::Failed(text) => CheckText::Failed(text@),
        }
    }
}

/// What the node knows of a running unit.
#[derive(Debug)]
pub struct UnitObservation {
    pub state: Option<ActualState>,
    pub held: bool,
    pub failures: u32,
    pub error: Option<String>,
    pub running_since: Option<i64>,
}

/// What can be said before anything is probed: an instance that is not due to
/// be checked, not started, denied, given up on, or not running yet is
/// settled; nothing is said of one that runs.
pub open spec fn gate_text(
    due: bool,
    unit: Option<UnitObservation>,
    restart: RestartPolicy,
) -> Option<CheckText> {
    if !due {
        Some(CheckText::Waiting("checking"@))
    } else {
        match unit {
            None => Some(CheckText::Waiting("not started yet"@)),
            Some(unit) => {
                let error = match unit.error {
                    Some(error) => error@,
                    None => "it exited"@,
                };
                let over = unit.state == Some(ActualState::Failed) || unit.state == Some(
                    ActualState::Stopped,
                ) || unit.state == Some(ActualState::Completed);
                if unit.state == Some(ActualState::Denied) {
                    Some(CheckText::Failed("denied: "@ + error))
                } else if over && unit.held && (restart == RestartPolicy::Never || unit.failures >= 3) {
                    Some(CheckText::Failed(error))
                } else if unit.state == Some(ActualState::Running) {
                    None
                } else {
                    Some(CheckText::Waiting("starting"@))
                }
            },
        }
    }
}

/// What can be said of an instance before it is probed.
pub fn readiness_gate(
    due: bool,
    unit: Option<&UnitObservation>,
    restart: RestartPolicy,
) -> (r: Option<Check>)
    ensures
        match r {
            Some(check) => gate_text(
                due,
                match unit {
                    Some(unit) => Some(*unit),
                    None => None,
                },
                restart,
            ) == Some(check@),
            None => gate_text(
                due,
                match unit {
                    Some(unit) => Some(*unit),
                    None => None,
                },
                restart,
            ) is None,
        },
{
    if !due {
        return Some(Check::Waiting("checking".to_owned()));
    }
    let unit = match unit {
        Some(unit) => unit,
        None => {
            return Some(Check::Waiting("not started yet".to_owned()));
        },
    };
    let error = match &unit.error {
        Some(error) => error.clone(),
        None => "it exited".to_owned(),
    };
    match unit.state {
        Some(ActualState::Denied) => {
            let mut text = "denied: ".to_owned();
            text.append(&error);
            Some(Check::Failed(text))
        },
        Some(ActualState::Running) => None,
        Some(ActualState::Failed) | Some(ActualState::Stopped) | Some(ActualState::Completed) => {
            if unit.held && (restart == RestartPolicy::Never || unit.failures >= 3) {
                Some(Check::Failed(error))
            } else {
                Some(Check::Waiting("starting".to_owned()))
            }
        },
        _ => Some(Check::Waiting("starting".to_owned())),
    }
}

/// What a running instance is probed with.
#[derive(Debug, PartialEq, Eq)]
pub enum Probe {
    /// Whether its process stays up.
    Process,
    /// Whether a port accepts connections.
    Port { name: String, host: u16 },
    /// Whether a port answers an HTTP request.
    Http { name: String, host: u16, path: String },
    /// Whether a task completes.
    Task { task: String },
}

/// The binding a check is made on: the one it names, or the first.
pub open spec fn probed_binding(readiness: Readiness, ports: Seq<PortBinding>) -> Option<PortBinding> {
    match readiness.port {
        Some(name) => found(ports, binding_named(name@)),
        None => if ports.len() > 0 {
            Some(ports[0])
        } else {
            None
        },
    }
}

fn find_binding<'a>(readiness: &Readiness, ports: &'a Vec<PortBinding>) -> (r: Option<
    &'a PortBinding,
>)
    ensures
        match r {
            Some(binding) => probed_binding(*readiness, ports@) == Some(*binding),
            None => probed_binding(*readiness, ports@) is None,
        },
{
    match &readiness.port {
        Some(name) => find_item(ports, &BindingNamed { name }),
        None => if ports.len() > 0 {
            Some(&ports[0])
        } else {
            None
        },
    }
}

pub open spec fn path_or_root(path: Option<String>) -> Seq<char> {
    match path {
        Some(path) => path@,
        None => "/"@,
    }
}

/// What an instance is probed with, or why it cannot be.
pub open spec fn is_probe(
    readiness: Readiness,
    ports: Seq<PortBinding>,
    r: Result<Probe, Check>,
) -> bool {
    match readiness.check {
        ReadinessCheck::Process => r == Ok::<Probe, Check>(Probe::Process),
        ReadinessCheck::Port => match probed_binding(readiness, ports) {
            Some(binding) => r matches Ok(Probe::Port { name, host }) && name@ == binding.name@
                && host == binding.host,
            None => r matches Err(check) && check@ == CheckText::Failed(
                "readiness names a port the service does not declare"@,
            ),
        },
        ReadinessCheck::Http => match probed_binding(readiness, ports) {
            Some(binding) => r matches Ok(Probe::Http { name, host, path }) && name@
                == binding.name@ && host == binding.host && path@ == path_or_root(readiness.path),
            None => r matches Err(check) && check@ == CheckText::Failed(
                "readiness names a port the service does not declare"@,
            ),
        },
        ReadinessCheck::Task => match readiness.task {
            Some(name) => r matches Ok(Probe::Task { task }) && task@ == name@,
            None => r matches Err(check) && check@ == CheckText::Failed(
                "a task readiness check needs a task"@,
            ),
        },
    }
}

/// What a running instance is probed with, or why it cannot be.
pub fn probe_for(readiness: &Readiness, ports: &Vec<PortBinding>) -> (r: Result<Probe, Check>)
    ensures
        is_probe(*readiness, ports@, r),
{
    match readiness.check {
        ReadinessCheck::Process => Ok(Probe::Process),
        ReadinessCheck::Port => match find_binding(readiness, ports) {
            Some(binding) => Ok(Probe::Port { name: binding.name.clone(), host: binding.host }),
            None => Err(
                Check::Failed("readiness names a port the service does not declare".to_owned()),
            ),
        },
        ReadinessCheck::Http => match find_binding(readiness, ports) {
            Some(binding) => Ok(
                Probe::Http {
                    name: binding.name.clone(),
                    host: binding.host,
                    path: match &readiness.path {
                        Some(path) => path.clone(),
                        None => "/".to_owned(),
                    },
                },
            ),
            None => Err(
                Check::Failed("readiness names a port the service does not declare".to_owned()),
            ),
        },
        ReadinessCheck::Task => match &readiness.task {
            Some(task) => Ok(Probe::Task { task: task.clone() }),
            None => Err(Check::Failed("a task readiness check needs a task".to_owned())),
        },
    }
}

/// What a process that runs proves.
pub open spec fn process_text(now: i64, running_since: Option<i64>) -> CheckText {
    let up = match running_since {
        Some(since) => elapsed(now, since),
        None => 0,
    };
    if up >= PROCESS_READY_AFTER_MS * 1_000_000 {
        CheckText::Ready("running for "@ + decimal_text((up / 1_000_000) as nat) + "ms"@)
    } else {
        CheckText::Waiting("the process has just started"@)
    }
}

/// Judge a process by how long it has run.
pub fn process_check(now: i64, running_since: Option<i64>) -> (r: Check)
    ensures
        r@ == process_text(now, running_since),
{
    let up: i128 = match running_since {
        Some(since) => if now >= since {
            now as i128 - since as i128
        } else {
            0
        },
        None => 0,
    };
    if up >= (PROCESS_READY_AFTER_MS as i128) * 1_000_000 {
        let mut text = "running for ".to_owned();
        text.append(&decimal((up / 1_000_000) as u64));
        text.append("ms");
        Check::Ready(text)
    } else {
        Check::Waiting("the process has just started".to_owned())
    }
}

/// Judge a port by whether it accepts connections.
pub fn port_check(name: &str, accepts: bool) -> (r: Check)
    ensures
        r@ == (if accepts {
            CheckText::Ready("port "@ + name@ + " accepts connections"@)
        } else {
            CheckText::Waiting("port "@ + name@ + " is not accepting connections"@)
        }),
{
    let mut text = "port ".to_owned();
    text.append(name);
    if accepts {
        text.append(" accepts connections");
        Check::Ready(text)
    } else {
        text.append(" is not accepting connections");
        Check::Waiting(text)
    }
}

/// Whether an HTTP status says that a service is up.
pub open spec fn status_is_good(status: u16) -> bool {
    200 <= status < 400
}

/// What an HTTP probe proves.
pub open spec fn http_text(name: Seq<char>, path: Seq<char>, status: Option<u16>) -> CheckText {
    match status {
        Some(status) => if status_is_good(status) {
            CheckText::Ready(
                "GET "@ + path + " on port "@ + name + " answered "@ + decimal_text(status as nat),
            )
        } else {
            CheckText::Waiting("GET "@ + path + " answered "@ + decimal_text(status as nat))
        },
        None => CheckText::Waiting("GET "@ + path + " on port "@ + name + " got no answer"@),
    }
}

/// Judge an HTTP probe by the status that came back.
pub fn http_check(name: &str, path: &str, status: Option<u16>) -> (r: Check)
    ensures
        r@ == http_text(name@, path@, status),
        r is Ready <==> (status matches Some(status) && 200 <= status && status < 400),
        !(r is Failed),
{
    let mut text = "GET ".to_owned();
    text.append(path);
    match status {
        Some(status) => {
            if 200 <= status && status < 400 {
                text.append(" on port ");
                text.append(name);
                text.append(" answered ");
                text.append(&decimal(status as u64));
                Check::Ready(text)
            } else {
                text.append(" answered ");
                text.append(&decimal(status as u64));
                Check::Waiting(text)
            }
        },
        None => {
            text.append(" on port ");
            text.append(name);
            text.append(" got no answer");
            Check::Waiting(text)
        },
    }
}

/// How a readiness task ended: its status and exit code, or the report of
/// why it did not run.
#[derive(Debug)]
pub enum TaskEnd {
    Ended { status: String, exit_code: Option<i32> },
    Failed(String),
}

/// What a readiness task proves: it is ready once it completed with exit
/// code 0, or completed without one.
pub open spec fn task_text(task: Seq<char>, end: TaskEnd) -> CheckText {
    match end {
        TaskEnd::Ended { status, exit_code } => {
            let zero = exit_code is None || exit_code == Some(0i32);
            if zero && status@ == "completed"@ {
                CheckText::Ready("task "@ + task + " exited 0"@)
            } else {
                CheckText::Waiting(
                    "task "@ + task + " ended "@ + status@ + " ("@ + (match exit_code {
                        Some(code) => signed_text(code as int),
                        None => "no exit code"@,
                    }) + ")"@,
                )
            }
        },
        TaskEnd::Failed(error) => CheckText::Waiting("task "@ + task + ": "@ + error@),
    }
}

/// Judge a readiness task by how it ended.
pub fn task_check(task: &str, end: &TaskEnd) -> (r: Check)
    ensures
        r@ == task_text(task@, *end),
{
    let mut text = "task ".to_owned();
    text.append(task);
    match end {
        TaskEnd::Ended { status, exit_code } => {
            let zero = match exit_code {
                Some(code) => *code == 0,
                None => true,
            };
            if zero && same(status, "completed") {
                text.append(" exited 0");
                Check::Ready(text)
            } else {
                text.append(" ended ");
                text.append(status);
                text.append(" (");
                match exit_code {
                    Some(code) => {
                        text.append(&signed_decimal(*code as i64));
                    },
                    None => {
                        text.append("no exit code");
                    },
                }
                text.append(")");
                Check::Waiting(text)
            }
        },
        TaskEnd::Failed(error) => {
            text.append(": ");
            text.append(error);
            Check::Waiting(text)
        },
    }
}

// ---- A release's instances --------------------------------------------------

/// The workload an instance of a release runs, when it is one of the
/// release's and its revision has it.
pub open spec fn candidate(
    instance: Stored<WorkloadInstanceRecord>,
    release: Stored<DeploymentRecord>,
    revision: ProjectRevisionRecord,
) -> Option<RevisionWorkload> {
    if instance.value.deployment_id@ == release.id@ {
        found(revision.workloads@, revision_workload_named(instance.value.workload@))
    } else {
        None
    }
}

fn find_candidate<'a>(
    instance: &Stored<WorkloadInstanceRecord>,
    release: &Stored<DeploymentRecord>,
    revision: &'a ProjectRevisionRecord,
) -> (r: Option<&'a RevisionWorkload>)
    ensures
        match r {
            Some(workload) => candidate(*instance, *release, *revision) == Some(*workload),
            None => candidate(*instance, *release, *revision) is None,
        },
{
    if same(&instance.value.deployment_id, &release.id) {
        find_item(&revision.workloads, &RevisionWorkloadNamed { name: &instance.value.workload })
    } else {
        None
    }
}

/// What a round of readiness checks has found: the instances that became
/// ready, by which check and how, what is still waited for, the longest timeout, and what
/// failed.
pub ghost struct Round {
    pub ready: Seq<(int, ReadinessCheck, Seq<char>)>,
    pub waiting: Seq<Seq<char>>,
    pub timeout_ms: u64,
    pub failure: Option<Seq<char>>,
}

/// How an instance of a release that is not ready yet is checked: one that
/// should not run is ready as it is.
pub open spec fn outcome_text(
    desired: Desired,
    release: Stored<DeploymentRecord>,
    instance: Stored<WorkloadInstanceRecord>,
    check: Check,
) -> CheckText {
    if desired.should_run(
        instance.value.environment@,
        instance.value.project@,
        instance.value.workload@,
        release.id@,
    ) {
        check@
    } else {
        CheckText::Ready("not started: its desired state is stopped"@)
    }
}

pub open spec fn before_ready_text(workload: Seq<char>, reason: Seq<char>) -> Seq<char> {
    workload + " failed before it was ready: "@ + reason
}

/// The round over the first `n` instances. Nothing is looked at after the
/// first failure.
pub open spec fn round(
    desired: Desired,
    release: Stored<DeploymentRecord>,
    revision: ProjectRevisionRecord,
    checks: Seq<Check>,
    n: nat,
) -> Round
    decreases n,
{
    if n == 0 {
        Round { ready: Seq::empty(), waiting: Seq::empty(), timeout_ms: 0, failure: None }
    } else {
        let before = round(desired, release, revision, checks, (n - 1) as nat);
        let instance = desired.instances.values()[n - 1];
        if before.failure is Some {
            before
        } else {
            match candidate(instance, release, revision) {
                None => before,
                Some(workload) => {
                    let limit = workload.effective_readiness().timeout_ms;
                    let timed = Round {
                        timeout_ms: if before.timeout_ms < limit {
                            limit
                        } else {
                            before.timeout_ms
                        },
                        ..before
                    };
                    if instance.value.state == InstanceState::Ready {
                        timed
                    } else {
                        match outcome_text(desired, release, instance, checks[n - 1]) {
                            CheckText::Ready(detail) => Round {
                                ready: timed.ready.push(
                                    (n - 1, workload.effective_readiness().check, detail),
                                ),
                                ..timed
                            },
                            CheckText::Waiting(detail) => Round {
                                waiting: timed.waiting.push(
                                    instance.value.workload@ + ": "@ + detail,
                                ),
                                ..timed
                            },
                            CheckText::Failed(reason) => Round {
                                failure: Some(
                                    before_ready_text(instance.value.workload@, reason),
                                ),
                                ..timed
                            },
                        }
                    }
                },
            }
        }
    }
}

/// Whether the instance at a place is probed: it is the release's, is not
/// ready yet, and should run.
pub open spec fn is_probed(
    desired: Desired,
    release: Stored<DeploymentRecord>,
    revision: ProjectRevisionRecord,
    i: int,
) -> bool {
    let instance = desired.instances.values()[i];
    &&& candidate(instance, release, revision) is Some
    &&& instance.value.state != InstanceState::Ready
    &&& desired.should_run(
        instance.value.environment@,
        instance.value.project@,
        instance.value.workload@,
        release.id@,
    )
}

/// Whether one of the first `n` instances was probed and failed.
pub open spec fn has_failed(
    desired: Desired,
    release: Stored<DeploymentRecord>,
    revision: ProjectRevisionRecord,
    checks: Seq<Check>,
    n: int,
) -> bool {
    exists|j: int|
        0 <= j < n && (#[trigger] checks[j]) is Failed && is_probed(desired, release, revision, j)
}

/// The first instance from the `i`-th on that is probed.
pub open spec fn probed_from(
    desired: Desired,
    release: Stored<DeploymentRecord>,
    revision: ProjectRevisionRecord,
    i: int,
) -> Option<int>
    decreases desired.instances.values().len() - i,
{
    if i < 0 || i >= desired.instances.values().len() {
        None
    } else if is_probed(desired, release, revision, i) {
        Some(i)
    } else {
        probed_from(desired, release, revision, i + 1)
    }
}

fn probes(
    desired: &Desired,
    release: &Stored<DeploymentRecord>,
    revision: &ProjectRevisionRecord,
    i: usize,
) -> (r: bool)
    requires
        i < desired.instances.values().len(),
    ensures
        r == is_probed(*desired, *release, *revision, i as int),
{
    let instance = desired.instances.value_at(i);
    find_candidate(instance, release, revision).is_some() && instance.value.state
        != InstanceState::Ready && desired.workload_runs(
        &Desired::instance_key(&instance.value),
        &release.id,
    )
}

/// The place of the instance to probe next, when the first `checks.len()`
/// instances were gone through. Nothing is probed after a failure.
pub fn next_check(
    desired: &Desired,
    release: &Stored<DeploymentRecord>,
    checks: &Vec<Check>,
) -> (r: Option<usize>)
    requires
        checks@.len() <= desired.instances.values().len(),
    ensures
        if !desired.revisions@.contains_key(key1(release.value.revision_id@)) {
            r is None
        } else {
            let revision = desired.revisions@[key1(release.value.revision_id@)];
            if has_failed(*desired, *release, revision, checks@, checks@.len() as int) {
                r is None
            } else {
                match r {
                    Some(i) => probed_from(*desired, *release, revision, checks@.len() as int)
                        == Some(i as int),
                    None => probed_from(
                        *desired,
                        *release,
                        revision,
                        checks@.len() as int,
                    ) is None,
                }
            }
        },
{
    let revision = match desired.revisions.at(&release.value.revision_id) {
        Some(revision) => revision,
        None => {
            return None;
        },
    };
    let ghost instances = desired.instances.values();
    let mut i: usize = 0;
    while i < checks.len()
        invariant
            i <= checks@.len() <= instances.len(),
            instances == desired.instances.values(),
            !has_failed(*desired, *release, *revision, checks@, i as int),
        decreases checks@.len() - i,
    {
        let failed = match &checks[i] {
            Check::Failed(_) => true,
            _ => false,
        };
        if failed && probes(desired, release, revision, i) {
            proof {
                assert(checks@[i as int] is Failed);
            }
            return None;
        }
        i += 1;
    }
    while i < desired.instances.len()
        invariant
            checks@.len() <= i <= instances.len(),
            instances == desired.instances.values(),
            !has_failed(*desired, *release, *revision, checks@, checks@.len() as int),
            probed_from(*desired, *release, *revision, checks@.len() as int) == probed_from(
                *desired,
                *release,
                *revision,
                i as int,
            ),
        decreases instances.len() - i,
    {
        if probes(desired, release, revision, i) {
            return Some(i);
        }
        i += 1;
    }
    None
}

/// What happens to a release that waits for its instances.
#[derive(Debug, PartialEq, Eq)]
pub enum ReadinessNext {
    /// Every instance is ready: the release is.
    Advance,
    /// The release fails.
    Fail(String),
    /// Some instances became ready: that is recorded.
    Record,
    /// Nothing changed.
    Wait,
}

/// What a round of readiness checks changes: the positions of the instances
/// that became ready, with the check and how they met it, how each workload
/// proved ready once all have, and what happens to the release.
pub struct ReadinessStep {
    pub ready: Vec<(usize, ReadinessCheck, String)>,
    pub results: ReadinessResults,
    pub next: ReadinessNext,
}

pub open spec fn ready_view(ready: Seq<(usize, ReadinessCheck, String)>) -> Seq<
    (int, ReadinessCheck, Seq<char>),
> {
    ready.map_values(|row: (usize, ReadinessCheck, String)| (row.0 as int, row.1, row.2@))
}

/// How the workloads of a release's first `n` instances proved ready: an
/// instance that was ready as it is recorded, one that became ready by what
/// its check found now.
pub open spec fn results_upto(
    desired: Desired,
    release: Stored<DeploymentRecord>,
    revision: ProjectRevisionRecord,
    checks: Seq<Check>,
    now: i64,
    n: nat,
) -> Map<Seq<Seq<char>>, ReadinessText>
    decreases n,
{
    if n == 0 {
        Map::empty()
    } else {
        let before = results_upto(desired, release, revision, checks, now, (n - 1) as nat);
        let instance = desired.instances.values()[n - 1];
        match candidate(instance, release, revision) {
            None => before,
            Some(workload) => {
                let check = workload.effective_readiness().check;
                if instance.value.state == InstanceState::Ready {
                    before.insert(
                        key1(instance.value.workload@),
                        ReadinessText {
                            check,
                            ready_at: instance.value.ready_at,
                            detail: opt_text(instance.value.readiness),
                        },
                    )
                } else {
                    match outcome_text(desired, release, instance, checks[n - 1]) {
                        CheckText::Ready(detail) => before.insert(
                            key1(instance.value.workload@),
                            ReadinessText { check, ready_at: Some(now), detail: Some(detail) },
                        ),
                        _ => before,
                    }
                }
            },
        }
    }
}

/// How the workloads of a release proved ready.
fn collect_results(
    desired: &Desired,
    release: &Stored<DeploymentRecord>,
    revision: &ProjectRevisionRecord,
    checks: &Vec<Check>,
    now: i64,
) -> (r: ReadinessResults)
    requires
        checks@.len() == desired.instances.values().len(),
    ensures
        readiness_texts(r@) == results_upto(
            *desired,
            *release,
            *revision,
            checks@,
            now,
            desired.instances.values().len(),
        ),
{
    let mut r: ReadinessResults = Table::new();
    let ghost instances = desired.instances.values();
    let mut i: usize = 0;
    proof {
        assert(readiness_texts(r@) =~= Map::<Seq<Seq<char>>, ReadinessText>::empty());
    }
    while i < desired.instances.len()
        invariant
            i <= instances.len(),
            readiness_texts(r@) == results_upto(
                *desired,
                *release,
                *revision,
                checks@,
                now,
                i as nat,
            ),
        decreases instances.len() - i,
    {
        let instance = desired.instances.value_at(i);
        if let Some(workload) = find_candidate(instance, release, revision) {
            let check = workload.readiness_check().check;
            let result: Option<ReadinessResult> = if instance.value.state == InstanceState::Ready {
                Some(
                    ReadinessResult {
                        check,
                        ready_at: instance.value.ready_at,
                        detail: copy_option(&instance.value.readiness),
                    },
                )
            } else {
                let key = Desired::instance_key(&instance.value);
                if desired.workload_runs(&key, &release.id) {
                    match &checks[i] {
                        Check::Ready(detail) => Some(
                            ReadinessResult {
                                check,
                                ready_at: Some(now),
                                detail: Some(detail.clone()),
                            },
                        ),
                        _ => None,
                    }
                } else {
                    Some(
                        ReadinessResult {
                            check,
                            ready_at: Some(now),
                            detail: Some("not started: its desired state is stopped".to_owned()),
                        },
                    )
                }
            };
            if let Some(result) = result {
                let ghost before = r@;
                r.insert(instance.value.workload.clone(), result);
                proof {
                    assert(readiness_texts(r@) =~= readiness_texts(before).insert(
                        key1(instance.value.workload@),
                        result@,
                    ));
                }
            }
        }
        i += 1;
    }
    r
}

pub open spec fn timed_out_text(timeout_ms: u64, waiting: Seq<Seq<char>>) -> Seq<char> {
    "readiness timed out after "@ + decimal_text((timeout_ms / 1000) as nat) + "s: "@ + joined(
        waiting,
        "; "@,
    )
}

/// Whether `next` is what a round calls for.
pub open spec fn concludes(
    round: Round,
    release: DeploymentRecord,
    now: i64,
    next: ReadinessNext,
) -> bool {
    match round.failure {
        Some(reason) => next matches ReadinessNext::Fail(text) && text@ == reason,
        None => if round.waiting.len() == 0 {
            next == ReadinessNext::Advance
        } else if elapsed(now, since(release)) > round.timeout_ms * 1_000_000 {
            next matches ReadinessNext::Fail(text) && text@ == timed_out_text(
                round.timeout_ms,
                round.waiting,
            )
        } else if round.ready.len() > 0 {
            next == ReadinessNext::Record
        } else {
            next == ReadinessNext::Wait
        },
    }
}

/// Advance a release that waits for its instances, by what their checks
/// found. `checks` holds one check per instance of the desired state; only
/// those of the release's instances that are not ready and should run count.
pub fn await_readiness(
    desired: &Desired,
    release: &Stored<DeploymentRecord>,
    checks: &Vec<Check>,
    now: i64,
) -> (r: ReadinessStep)
    requires
        checks@.len() == desired.instances.values().len(),
    ensures
        if desired.revisions@.contains_key(key1(release.value.revision_id@)) {
            let all = round(
                *desired,
                *release,
                desired.revisions@[key1(release.value.revision_id@)],
                checks@,
                desired.instances.values().len(),
            );
            &&& ready_view(r.ready@) == all.ready
            &&& concludes(all, release.value, now, r.next)
            &&& readiness_texts(r.results@) == (if r.next is Advance {
                results_upto(
                    *desired,
                    *release,
                    desired.revisions@[key1(release.value.revision_id@)],
                    checks@,
                    now,
                    desired.instances.values().len(),
                )
            } else {
                Map::empty()
            })
        } else {
            r.ready@.len() == 0 && r.results@ == Map::<Seq<Seq<char>>, ReadinessResult>::empty()
                && r.next == ReadinessNext::Wait
        },
{
    let revision = match desired.revisions.at(&release.value.revision_id) {
        Some(revision) => revision,
        None => {
            return ReadinessStep {
                ready: Vec::new(),
                results: Table::new(),
                next: ReadinessNext::Wait,
            };
        },
    };
    let ghost instances = desired.instances.values();
    let mut ready: Vec<(usize, ReadinessCheck, String)> = Vec::new();
    let mut waiting: Vec<String> = Vec::new();
    let mut timeout_ms: u64 = 0;
    let mut i: usize = 0;
    proof {
        assert(ready_view(ready@) =~= Seq::<(int, ReadinessCheck, Seq<char>)>::empty());
        assert(texts(waiting@) =~= Seq::<Seq<char>>::empty());
    }
    while i < desired.instances.len()
        invariant
            i <= instances.len(),
            round(*desired, *release, *revision, checks@, i as nat) == (Round {
                ready: ready_view(ready@),
                waiting: texts(waiting@),
                timeout_ms,
                failure: None,
            }),
        decreases instances.len() - i,
    {
        let instance = desired.instances.value_at(i);
        if let Some(workload) = find_candidate(instance, release, revision) {
            let limit: u64 = workload.readiness_check().timeout_ms;
            if timeout_ms < limit {
                timeout_ms = limit;
            }
            if instance.value.state != InstanceState::Ready {
                let key = Desired::instance_key(&instance.value);
                let runs = desired.workload_runs(&key, &release.id);
                let stopped = Check::Ready("not started: its desired state is stopped".to_owned());
                let outcome: &Check = if runs {
                    &checks[i]
                } else {
                    &stopped
                };
                match outcome {
                    Check::Ready(detail) => {
                        let ghost before = ready@;
                        ready.push((i, workload.readiness_check().check, detail.clone()));
                        proof {
                            assert(ready_view(ready@) =~= ready_view(before).push(
                                (i as int, workload.effective_readiness().check, detail@),
                            ));
                        }
                    },
                    Check::Waiting(detail) => {
                        let mut text = instance.value.workload.clone();
                        text.append(": ");
                        text.append(detail);
                        let ghost before = waiting@;
                        waiting.push(text);
                        proof {
                            assert(texts(waiting@) =~= texts(before).push(text@));
                        }
                    },
                    Check::Failed(reason) => {
                        let mut text = instance.value.workload.clone();
                        text.append(" failed before it was ready: ");
                        text.append(reason);
                        proof {
                            lemma_round_stops(
                                *desired,
                                *release,
                                *revision,
                                checks@,
                                (i + 1) as nat,
                                instances.len(),
                            );
                        }
                        let results: ReadinessResults = Table::new();
                        proof {
                            assert(readiness_texts(results@) =~= Map::<
                                Seq<Seq<char>>,
                                ReadinessText,
                            >::empty());
                        }
                        return ReadinessStep { ready, results, next: ReadinessNext::Fail(text) };
                    },
                }
            }
        }
        i += 1;
    }
    if waiting.len() == 0 {
        let results = collect_results(desired, release, revision, checks, now);
        return ReadinessStep { ready, results, next: ReadinessNext::Advance };
    }
    let next = if passed(now, status_since(&release.value), timeout_ms) {
        let mut text = "readiness timed out after ".to_owned();
        text.append(&decimal(timeout_ms / 1000));
        text.append("s: ");
        text.append(&join(&waiting, "; "));
        ReadinessNext::Fail(text)
    } else if ready.len() > 0 {
        ReadinessNext::Record
    } else {
        ReadinessNext::Wait
    };
    let results: ReadinessResults = Table::new();
    proof {
        assert(readiness_texts(results@) =~= Map::<Seq<Seq<char>>, ReadinessText>::empty());
    }
    ReadinessStep { ready, results, next }
}

/// Nothing is looked at after the first failure.
proof fn lemma_round_stops(
    desired: Desired,
    release: Stored<DeploymentRecord>,
    revision: ProjectRevisionRecord,
    checks: Seq<Check>,
    n: nat,
    m: nat,
)
    requires
        n <= m,
        round(desired, release, revision, checks, n).failure is Some,
    ensures
        round(desired, release, revision, checks, m) == round(
            desired,
            release,
            revision,
            checks,
            n,
        ),
    decreases m,
{
    if n < m {
        lemma_round_stops(desired, release, revision, checks, n, (m - 1) as nat);
    }
}

// ---- What readiness proves --------------------------------------------------

/// Whether a workload's readiness proves that it accepts connections.
pub open spec fn proves_listening(desired: Desired, deployment_id: Seq<char>, workload: Seq<char>) -> bool {
    match desired.released_workload(deployment_id, workload) {
        Some(workload) => workload.effective_readiness().check == ReadinessCheck::Port
            || workload.effective_readiness().check == ReadinessCheck::Http,
        None => false,
    }
}

/// Whether a workload's readiness proves it accepts connections.
pub fn listens(desired: &Desired, deployment_id: &str, workload: &str) -> (r: bool)
    ensures
        r == proves_listening(*desired, deployment_id@, workload@),
{
    match desired.revision_workload(deployment_id, workload) {
        Some(workload) => match workload.readiness_check().check {
            ReadinessCheck::Port => true,
            ReadinessCheck::Http => true,
            _ => false,
        },
        None => false,
    }
}

// ---- Laws -------------------------------------------------------------------

/// A round fails when an instance that was probed did.
proof fn lemma_round_fails(
    desired: Desired,
    release: Stored<DeploymentRecord>,
    revision: ProjectRevisionRecord,
    checks: Seq<Check>,
    n: nat,
)
    ensures
        (round(desired, release, revision, checks, n).failure is Some) == has_failed(
            desired,
            release,
            revision,
            checks,
            n as int,
        ),
    decreases n,
{
    if n > 0 {
        lemma_round_fails(desired, release, revision, checks, (n - 1) as nat);
        if has_failed(desired, release, revision, checks, n - 1) {
            let j = choose|j: int|
                0 <= j < n - 1 && (#[trigger] checks[j]) is Failed && is_probed(
                    desired,
                    release,
                    revision,
                    j,
                );
            assert(checks[j] is Failed);
        } else if checks[n - 1] is Failed && is_probed(desired, release, revision, n - 1) {
            assert(has_failed(desired, release, revision, checks, n as int));
        } else {
            assert forall|j: int| 0 <= j < n && (#[trigger] checks[j]) is Failed implies !is_probed(
                desired,
                release,
                revision,
                j,
            ) by {}
        }
    }
}

/// Only instances that are probed count, up to the first that fails: what
/// is put down for the others makes no difference to a round.
pub proof fn law_only_probed_instances_count(
    desired: Desired,
    release: Stored<DeploymentRecord>,
    revision: ProjectRevisionRecord,
    a: Seq<Check>,
    b: Seq<Check>,
    n: nat,
)
    requires
        forall|i: int|
            0 <= i < n && is_probed(desired, release, revision, i) && !has_failed(
                desired,
                release,
                revision,
                a,
                i,
            ) ==> (#[trigger] a[i])@ == b[i]@,
    ensures
        round(desired, release, revision, a, n) == round(desired, release, revision, b, n),
    decreases n,
{
    if n > 0 {
        law_only_probed_instances_count(desired, release, revision, a, b, (n - 1) as nat);
        lemma_round_fails(desired, release, revision, a, (n - 1) as nat);
    }
}

/// A release is ready only when every instance of it is: each was ready
/// already, proved it in this round, or is not meant to run.
pub proof fn law_releases_wait_for_every_instance(
    desired: Desired,
    release: Stored<DeploymentRecord>,
    revision: ProjectRevisionRecord,
    checks: Seq<Check>,
    n: nat,
    now: i64,
    i: int,
)
    requires
        concludes(
            round(desired, release, revision, checks, n),
            release.value,
            now,
            ReadinessNext::Advance,
        ),
        0 <= i < n <= desired.instances.values().len(),
        candidate(desired.instances.values()[i], release, revision) is Some,
    ensures
        desired.instances.values()[i].value.state is Ready || outcome_text(
            desired,
            release,
            desired.instances.values()[i],
            checks[i],
        ) is Ready,
    decreases n,
{
    if i < n - 1 {
        law_releases_wait_for_every_instance(
            desired,
            release,
            revision,
            checks,
            (n - 1) as nat,
            now,
            i,
        );
    }
}

/// A release that is ready says of the workload of every instance how it
/// proved so.
pub proof fn law_ready_releases_say_how(
    desired: Desired,
    release: Stored<DeploymentRecord>,
    revision: ProjectRevisionRecord,
    checks: Seq<Check>,
    n: nat,
    now: i64,
    i: int,
)
    requires
        concludes(
            round(desired, release, revision, checks, n),
            release.value,
            now,
            ReadinessNext::Advance,
        ),
        0 <= i < n <= desired.instances.values().len(),
        candidate(desired.instances.values()[i], release, revision) is Some,
    ensures
        results_upto(desired, release, revision, checks, now, n).contains_key(
            key1(desired.instances.values()[i].value.workload@),
        ),
    decreases n,
{
    if i < n - 1 {
        law_ready_releases_say_how(
            desired,
            release,
            revision,
            checks,
            (n - 1) as nat,
            now,
            i,
        );
    }
}

/// A release that failed before it was ready never becomes ready by what
/// its other instances prove.
pub proof fn law_one_failure_fails_the_release(
    desired: Desired,
    release: Stored<DeploymentRecord>,
    revision: ProjectRevisionRecord,
    checks: Seq<Check>,
    n: nat,
    m: nat,
    now: i64,
    next: ReadinessNext,
)
    requires
        n <= m,
        round(desired, release, revision, checks, n).failure is Some,
        concludes(round(desired, release, revision, checks, m), release.value, now, next),
    ensures
        next is Fail,
{
    lemma_round_stops(desired, release, revision, checks, n, m);
}

/// An HTTP check is ready exactly when it was answered with a status of at
/// least 200 and below 400. Any other answer, and no answer, is waited on:
/// the check alone never fails a release.
pub proof fn law_only_good_answers_are_ready(
    name: Seq<char>,
    path: Seq<char>,
    status: Option<u16>,
)
    ensures
        http_text(name, path, status) is Ready <==> (status matches Some(status) && 200 <= status
            && status < 400),
        status is None ==> http_text(name, path, status) is Waiting,
        status matches Some(code) && (code < 200 || code >= 400) ==> http_text(name, path, status)
            == CheckText::Waiting("GET "@ + path + " answered "@ + decimal_text(status->0 as nat)),
{
}

/// A process proves itself by staying up for half a second, not sooner; one
/// that was never seen running proves nothing.
pub proof fn law_processes_prove_themselves_by_staying_up(now: i64, running_since: Option<i64>)
    ensures
        process_text(now, running_since) is Ready <==> (running_since matches Some(since) && now
            - since >= 500_000_000),
        !(process_text(now, running_since) is Failed),
{
}

/// A readiness task proves a workload ready exactly when it completed and
/// its exit code, if it has one, is 0.
pub proof fn law_only_completed_tasks_are_ready(task: Seq<char>, end: TaskEnd)
    ensures
        task_text(task, end) is Ready <==> (end matches TaskEnd::Ended { status, exit_code }
            && status@ == "completed"@ && (exit_code matches Some(code) ==> code == 0)),
        !(task_text(task, end) is Failed),
{
}

/// What can be said of an instance before it is probed: only one that runs
/// is probed, and only when it is due; nothing is found ready unprobed; a
/// denial fails at once, an exit only once it is held down and either is not
/// restarted or failed three times.
pub proof fn law_only_running_instances_are_probed(
    due: bool,
    unit: Option<UnitObservation>,
    restart: RestartPolicy,
)
    ensures
        gate_text(due, unit, restart) is None <==> due && (unit matches Some(unit) && unit.state
            == Some(ActualState::Running)),
        gate_text(due, unit, restart) matches Some(check) ==> !(check is Ready),
        (gate_text(due, unit, restart) matches Some(check) && check is Failed) <==> due && (
        unit matches Some(unit) && {
            ||| unit.state == Some(ActualState::Denied)
            ||| {
                &&& unit.held
                &&& unit.state == Some(ActualState::Failed) || unit.state == Some(
                    ActualState::Stopped,
                ) || unit.state == Some(ActualState::Completed)
                &&& restart == RestartPolicy::Never || unit.failures >= 3
            }
        }),
{
}

/// A check is made on the port it names, as the instance has it, and on the
/// instance's first port when it names none; where there is no such port,
/// the check cannot be made and fails.
pub proof fn law_the_named_port_is_probed(
    readiness: Readiness,
    ports: Seq<PortBinding>,
    r: Result<Probe, Check>,
)
    requires
        is_probe(readiness, ports, r),
        readiness.check == ReadinessCheck::Port || readiness.check == ReadinessCheck::Http,
    ensures
        r matches Ok(Probe::Port { name, host }) ==> readiness.check == ReadinessCheck::Port
            && exists|i: int|
            0 <= i < ports.len() && (#[trigger] ports[i]).name@ == name@ && ports[i].host == host,
        r matches Ok(Probe::Http { name, host, path }) ==> {
            &&& readiness.check == ReadinessCheck::Http
            &&& readiness.path matches Some(wanted) ==> path@ == wanted@
            &&& readiness.path is None ==> path@ == "/"@
            &&& exists|i: int|
                0 <= i < ports.len() && (#[trigger] ports[i]).name@ == name@ && ports[i].host
                    == host
        },
        r matches Ok(Probe::Port { name, host }) ==> readiness.port is Some ==> name@
            == readiness.port->0@,
        r matches Ok(Probe::Http { name, host, path }) ==> readiness.port is Some ==> name@
            == readiness.port->0@,
        r matches Ok(Probe::Port { name, host }) ==> readiness.port is None ==> host
            == ports[0].host,
        r matches Ok(Probe::Http { name, host, path }) ==> readiness.port is None ==> host
            == ports[0].host,
        r matches Ok(probe) ==> probe is Port || probe is Http,
        r is Ok <==> (match readiness.port {
            Some(name) => exists|i: int|
                0 <= i < ports.len() && (#[trigger] ports[i]).name@ == name@,
            None => ports.len() > 0,
        }),
        r matches Err(check) ==> check is Failed,
{
    if let Some(name) = readiness.port {
        lemma_first(ports, binding_named(name@));
    }
}

/// An instance of a release: of a workload that its revision has.
proof fn lemma_candidates(
    instance: Stored<WorkloadInstanceRecord>,
    release: Stored<DeploymentRecord>,
    revision: ProjectRevisionRecord,
)
    ensures
        candidate(instance, release, revision) is Some <==> instance.value.deployment_id@
            == release.id@ && exists|k: int|
            0 <= k < revision.workloads@.len() && (#[trigger] revision.workloads@[k]).name@
                == instance.value.workload@,
        candidate(instance, release, revision) matches Some(workload) ==> workload.name@
            == instance.value.workload@ && revision.workloads@.contains(workload),
{
    lemma_first(revision.workloads@, revision_workload_named(instance.value.workload@));
}

/// A release advances only when no instance of it is passed over: each that
/// runs a workload of the revision was ready already, passed its check in
/// this round, or is not meant to run.
pub proof fn law_no_instance_is_passed_over(
    desired: Desired,
    release: Stored<DeploymentRecord>,
    revision: ProjectRevisionRecord,
    checks: Seq<Check>,
    now: i64,
    i: int,
    k: int,
)
    requires
        concludes(
            round(desired, release, revision, checks, desired.instances.values().len()),
            release.value,
            now,
            ReadinessNext::Advance,
        ),
        0 <= i < desired.instances.values().len(),
        desired.instances.values()[i].value.deployment_id@ == release.id@,
        0 <= k < revision.workloads@.len(),
        revision.workloads@[k].name@ == desired.instances.values()[i].value.workload@,
    ensures
        ({
            let instance = desired.instances.values()[i].value;
            ||| instance.state == InstanceState::Ready
            ||| checks[i] is Ready
            ||| !desired.should_run(
                instance.environment@,
                instance.project@,
                instance.workload@,
                release.id@,
            )
        }),
{
    lemma_candidates(desired.instances.values()[i], release, revision);
    law_releases_wait_for_every_instance(
        desired,
        release,
        revision,
        checks,
        desired.instances.values().len(),
        now,
        i,
    );
}

/// What a round waits for, and for how long: every instance that waits is
/// waited for, and no workload of the release gets less than its own time.
proof fn lemma_round_waits(
    desired: Desired,
    release: Stored<DeploymentRecord>,
    revision: ProjectRevisionRecord,
    checks: Seq<Check>,
    n: nat,
    i: int,
)
    requires
        0 <= i < n,
        round(desired, release, revision, checks, n).failure is None,
        candidate(desired.instances.values()[i], release, revision) is Some,
    ensures
        candidate(desired.instances.values()[i], release, revision)->0
            .effective_readiness().timeout_ms <= round(
            desired,
            release,
            revision,
            checks,
            n,
        ).timeout_ms,
        is_probed(desired, release, revision, i) && checks[i] is Waiting ==> round(
            desired,
            release,
            revision,
            checks,
            n,
        ).waiting.len() > 0,
        is_probed(desired, release, revision, i) ==> !(checks[i] is Failed),
        is_probed(desired, release, revision, i) && checks[i] is Ready ==> exists|k: int|
            0 <= k < round(desired, release, revision, checks, n).ready.len() && (
            #[trigger] round(desired, release, revision, checks, n).ready[k]) == (
                i,
                candidate(
                    desired.instances.values()[i],
                    release,
                    revision,
                )->0.effective_readiness().check,
                checks[i]@->Ready_0,
            ),
    decreases n,
{
    let before = round(desired, release, revision, checks, (n - 1) as nat);
    let after = round(desired, release, revision, checks, n);
    if i < n - 1 {
        lemma_round_waits(desired, release, revision, checks, (n - 1) as nat, i);
        if is_probed(desired, release, revision, i) && checks[i] is Ready {
            let k = choose|k: int|
                0 <= k < before.ready.len() && (#[trigger] before.ready[k]) == (
                    i,
                    candidate(
                        desired.instances.values()[i],
                        release,
                        revision,
                    )->0.effective_readiness().check,
                    checks[i]@->Ready_0,
                );
            assert(after.ready[k] == before.ready[k]);
        }
    } else if is_probed(desired, release, revision, i) && checks[i] is Ready {
        assert(after.ready[after.ready.len() - 1].0 == i);
    }
}

/// A release whose probed instance still waits does not advance: it waits
/// on while its workload's own time is not over, and no instance's time is
/// cut short by another's.
pub proof fn law_waiting_releases_get_their_time(
    desired: Desired,
    release: Stored<DeploymentRecord>,
    revision: ProjectRevisionRecord,
    checks: Seq<Check>,
    now: i64,
    next: ReadinessNext,
    i: int,
)
    requires
        0 <= i < desired.instances.values().len(),
        concludes(
            round(desired, release, revision, checks, desired.instances.values().len()),
            release.value,
            now,
            next,
        ),
        candidate(desired.instances.values()[i], release, revision) is Some,
        is_probed(desired, release, revision, i),
        checks[i] is Waiting,
        forall|j: int|
            0 <= j < desired.instances.values().len() && is_probed(desired, release, revision, j)
                ==> !((#[trigger] checks[j]) is Failed),
    ensures
        !(next is Advance),
        now - since(release.value) <= candidate(
            desired.instances.values()[i],
            release,
            revision,
        )->0.effective_readiness().timeout_ms * 1_000_000 ==> next is Wait || next is Record,
{
    let n = desired.instances.values().len();
    lemma_round_fails(desired, release, revision, checks, n);
    lemma_round_waits(desired, release, revision, checks, n, i);
}

/// A release that waits past the time of every one of its workloads fails.
pub proof fn law_overdue_releases_fail(round: Round, release: DeploymentRecord, now: i64, next: ReadinessNext)
    requires
        concludes(round, release, now, next),
        round.waiting.len() > 0,
        now - (match release.status_since {
            Some(at) => at,
            None => release.updated_at,
        }) > round.timeout_ms * 1_000_000,
    ensures
        next is Fail,
{
}

/// Only what a workload's readiness check covers is known to listen: a port
/// or an HTTP check of it, not that its process runs or a task ended.
pub proof fn law_only_probed_ports_listen(
    desired: Desired,
    deployment_id: Seq<char>,
    workload: Seq<char>,
)
    ensures
        proves_listening(desired, deployment_id, workload) <==> (desired.released_workload(
            deployment_id,
            workload,
        ) matches Some(released) && {
            let check = match released.readiness {
                Some(readiness) => readiness.check,
                None => released.default_readiness.check,
            };
            check != ReadinessCheck::Process && check != ReadinessCheck::Task
        }),
{
}

/// The instance probed next is the first, from where the checks stand, that
/// belongs to the release, runs a workload of its revision, is not ready yet
/// and is meant to run.
pub proof fn law_instances_are_probed_in_order(
    desired: Desired,
    release: Stored<DeploymentRecord>,
    revision: ProjectRevisionRecord,
    i: int,
)
    requires
        0 <= i,
    ensures
        match probed_from(desired, release, revision, i) {
            Some(k) => {
                let instance = desired.instances.values()[k].value;
                &&& i <= k < desired.instances.values().len()
                &&& instance.deployment_id@ == release.id@
                &&& instance.state != InstanceState::Ready
                &&& exists|w: int|
                    0 <= w < revision.workloads@.len() && (#[trigger] revision.workloads@[w]).name@
                        == instance.workload@
                &&& desired.should_run(
                    instance.environment@,
                    instance.project@,
                    instance.workload@,
                    release.id@,
                )
                &&& forall|j: int| i <= j < k ==> !#[trigger] is_probed(desired, release, revision, j)
            },
            None => forall|j: int|
                i <= j < desired.instances.values().len() ==> !#[trigger] is_probed(
                    desired,
                    release,
                    revision,
                    j,
                ),
        },
    decreases desired.instances.values().len() - i,
{
    if i < desired.instances.values().len() {
        lemma_candidates(desired.instances.values()[i], release, revision);
        if !is_probed(desired, release, revision, i) {
            law_instances_are_probed_in_order(desired, release, revision, i + 1);
        }
    }
}

/// A check that cannot be made fails the release: of a port that is not
/// bound, or of a task that is not named.
pub proof fn law_checks_that_cannot_be_made_fail(
    readiness: Readiness,
    ports: Seq<PortBinding>,
    r: Result<Probe, Check>,
)
    requires
        is_probe(readiness, ports, r),
    ensures
        readiness.check is Process ==> r is Ok,
        (readiness.check is Port || readiness.check is Http) && ports.len() == 0 ==> r is Err,
        readiness.check is Task && readiness.task is None ==> r is Err,
        r is Err ==> !(readiness.check is Process),
        r matches Err(check) ==> check is Failed,
        readiness.check is Task && readiness.task is Some ==> (r matches Ok(Probe::Task { task })
            && task@ == readiness.task->0@),
{
    lemma_no_binding(readiness, ports);
}

proof fn lemma_no_binding(readiness: Readiness, ports: Seq<PortBinding>)
    ensures
        ports.len() == 0 ==> probed_binding(readiness, ports) is None,
{
    match readiness.port {
        Some(name) => {
            lemma_first(ports, binding_named(name@));
        },
        None => {},
    }
}

} // verus!
