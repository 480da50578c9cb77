//! Recovering the data plane after a controller restart, and leaving it
//! running when the controller stops.
//!
//! A unit still running is supervised again without restarting it. A unit
//! that ended while no controller was running has its outcome recorded. A
//! unit a dead supervisor left behind is reported orphaned. What else should
//! run is decided from durable desired state, never from the registry.

use vstd::prelude::*;

use crate::dataplane::{UnitManifest, UnitOutcome, UnitStatus};
use crate::desired::Unit;
use crate::error::{EnvironmentError, Refusal};
use crate::events::{
    fact, no_scope, text_fact, workload_scope, Datum, DatumText, EventKind, FactText, Key, Notice,
    Scope, ScopeText,
};
use crate::execute::{
    denied_facts, ended_error, ended_facts, ended_kind, ended_message, invocation_scope,
    is_execution_record, place_text, succeeded, Finished, Invocation, Outcome, WorkloadRuntime,
};
use crate::ids::{label, label_text};
use crate::model::ActualState;
use crate::search::{lemma_matching_upto, matching_upto};
use crate::status::PlacementView;
use crate::table::{key4, Table};
use crate::text::{copy_option, decimal, decimal_text, list_has, opt_text, texts};

verus! {

/// What a controller found when it started.
#[derive(Debug, Clone)]
pub struct Recovery {
    /// Units found running and supervised again, untouched.
    pub reattached: Vec<String>,
    /// Units that ended while no controller ran; their evidence was
    /// recorded.
    pub collected: Vec<String>,
    /// Units a stopped supervisor left behind.
    pub orphaned: Vec<String>,
}

/// What is done about a unit that is found.
#[derive(Debug, Clone, Copy, PartialEq, Eq, Structural)]
pub enum UnitFate {
    Reattach,
    Collect,
    Orphan,
}

pub open spec fn fate_of(status: UnitStatus) -> UnitFate {
    match status.outcome {
        None => UnitFate::Reattach,
        Some(UnitOutcome::Orphaned { .. }) => UnitFate::Orphan,
        Some(_) => UnitFate::Collect,
    }
}

fn fate(status: &UnitStatus) -> (r: UnitFate)
    ensures
        r == fate_of(*status),
{
    match &status.outcome {
        None => UnitFate::Reattach,
        Some(UnitOutcome::Orphaned { .. }) => UnitFate::Orphan,
        Some(_) => UnitFate::Collect,
    }
}

/// One unit that is found, and what is reported of it.
#[derive(Debug)]
pub struct Reattachment {
    /// The unit's position.
    pub unit: usize,
    pub fate: UnitFate,
    pub notices: Vec<Notice>,
}

/// How a unit is called.
pub open spec fn unit_label(manifest: UnitManifest) -> Seq<char> {
    label_text(manifest.environment@, manifest.project@, manifest.workload@)
}

pub open spec fn unit_scope(manifest: UnitManifest) -> ScopeText {
    ScopeText {
        deployment_id: Some(manifest.deployment_id@),
        ..workload_scope(manifest.environment@, manifest.project@, manifest.workload@)
    }
}

pub open spec fn pid_text(status: UnitStatus) -> Seq<char> {
    match status.process {
        Some(process) => decimal_text(process.pid as nat),
        None => "unknown"@,
    }
}

/// Which unit it is, and the process it runs as.
pub open spec fn unit_facts(status: UnitStatus) -> Seq<FactText> {
    seq![
        text_fact("unit_id"@, status.manifest.unit_id@),
        fact(
            "pid"@,
            match status.process {
                Some(process) => DatumText::Number(process.pid as int),
                None => DatumText::Null,
            },
        ),
    ]
}

fn unit_notice(status: &UnitStatus, kind: EventKind, scope: Scope, message: String) -> (r: Notice)
    ensures
        r.says(kind, scope@, message@, unit_facts(*status)),
{
    let pid = match &status.process {
        Some(process) => Datum::Number(process.pid as u64),
        None => Datum::Null,
    };
    Notice::new(kind, scope, message).with("unit_id", Datum::text(&status.manifest.unit_id)).with(
        "pid",
        pid,
    )
}

/// Whether notices are those of a unit that is found.
pub open spec fn are_unit_notices(notices: Seq<Notice>, status: UnitStatus) -> bool {
    let name = unit_label(status.manifest);
    let scope = unit_scope(status.manifest);
    &&& notices.len() == (if fate_of(status) == UnitFate::Collect {
        1int
    } else {
        2int
    })
    &&& notices[0].says(
        EventKind::WorkloadDiscovered,
        scope,
        name + " found "@ + status.state_text() + " on the data plane"@,
        unit_facts(status),
    )
    &&& match status.outcome {
        None => notices[1].says(
            EventKind::WorkloadReattached,
            scope,
            name + " reattached without a restart (pid "@ + pid_text(status) + ")"@,
            unit_facts(status),
        ),
        Some(UnitOutcome::Orphaned { message }) => notices[1].says(
            EventKind::WorkloadOrphaned,
            scope,
            name + " was orphaned: "@ + message@,
            seq![text_fact("unit_id"@, status.manifest.unit_id@)],
        ),
        Some(_) => true,
    }
}

fn unit_key(manifest: &UnitManifest) -> (r: Key)
    ensures
        r.0@ == manifest.environment@,
        r.1@ == manifest.project@,
        r.2@ == manifest.workload@,
{
    (manifest.environment.clone(), manifest.project.clone(), manifest.workload.clone())
}

fn unit_notices(status: &UnitStatus) -> (r: Vec<Notice>)
    ensures
        are_unit_notices(r@, *status),
{
    let manifest = &status.manifest;
    let key = unit_key(manifest);
    let name = label(&manifest.environment, &manifest.project, &manifest.workload);
    let mut notices: Vec<Notice> = Vec::new();
    let mut message = name.clone();
    message.append(" found ");
    message.append(status.state());
    message.append(" on the data plane");
    notices.push(
        unit_notice(
            status,
            EventKind::WorkloadDiscovered,
            Scope::workload(&key).deployment(&manifest.deployment_id),
            message,
        ),
    );
    match &status.outcome {
        None => {
            let mut message = name.clone();
            message.append(" reattached without a restart (pid ");
            match &status.process {
                Some(process) => message.append(&decimal(process.pid as u64)),
                None => message.append("unknown"),
            }
            message.append(")");
            notices.push(
                unit_notice(
                    status,
                    EventKind::WorkloadReattached,
                    Scope::workload(&key).deployment(&manifest.deployment_id),
                    message,
                ),
            );
        },
        Some(UnitOutcome::Orphaned { message: reason }) => {
            let mut message = name.clone();
            message.append(" was orphaned: ");
            message.append(reason);
            notices.push(
                Notice::new(
                    EventKind::WorkloadOrphaned,
                    Scope::workload(&key).deployment(&manifest.deployment_id),
                    message,
                ).with("unit_id", Datum::text(&manifest.unit_id)),
            );
        },
        Some(_) => {},
    }
    notices
}

/// Units nobody supervises yet.
pub open spec fn unsupervised(supervised: Seq<String>) -> spec_fn(UnitStatus) -> bool {
    |status: UnitStatus| !texts(supervised).contains(status.manifest.unit_id@)
}

/// The labels of those of the first `n` units that meet a fate.
pub open spec fn labels_upto(
    units: Seq<UnitStatus>,
    supervised: Seq<String>,
    fate: UnitFate,
    n: nat,
) -> Seq<Seq<char>>
    decreases n,
{
    if n == 0 {
        Seq::empty()
    } else {
        let before = labels_upto(units, supervised, fate, (n - 1) as nat);
        let unit = units[n - 1];
        if unsupervised(supervised)(unit) && fate_of(unit) == fate {
            before.push(unit_label(unit.manifest))
        } else {
            before
        }
    }
}

/// Whether found units are those nobody supervises, each with its fate.
pub open spec fn are_found(
    found: Seq<Reattachment>,
    units: Seq<UnitStatus>,
    supervised: Seq<String>,
    n: nat,
) -> bool {
    let at = matching_upto(units, unsupervised(supervised), n);
    &&& found.len() == at.len()
    &&& forall|k: int|
        0 <= k < found.len() ==> {
            &&& (#[trigger] found[k]).unit == at[k]
            &&& 0 <= at[k] < units.len()
            &&& found[k].fate == fate_of(units[at[k]])
            &&& are_unit_notices(found[k].notices@, units[at[k]])
        }
}

/// Recover the units the data plane has: those this controller already
/// supervises are left alone, running ones are supervised again, ended ones
/// are collected and ones left behind are reported.
pub fn reattach(units: &Vec<UnitStatus>, supervised: &Vec<String>) -> (r: (
    Recovery,
    Vec<Reattachment>,
))
    ensures
        texts(r.0.reattached@) == labels_upto(
            units@,
            supervised@,
            UnitFate::Reattach,
            units@.len(),
        ),
        texts(r.0.collected@) == labels_upto(
            units@,
            supervised@,
            UnitFate::Collect,
            units@.len(),
        ),
        texts(r.0.orphaned@) == labels_upto(units@, supervised@, UnitFate::Orphan, units@.len()),
        are_found(r.1@, units@, supervised@, units@.len()),
{
    let mut reattached: Vec<String> = Vec::new();
    let mut collected: Vec<String> = Vec::new();
    let mut orphaned: Vec<String> = Vec::new();
    let mut found: Vec<Reattachment> = Vec::new();
    let mut i: usize = 0;
    proof {
        assert(texts(reattached@) =~= Seq::<Seq<char>>::empty());
        assert(texts(collected@) =~= Seq::<Seq<char>>::empty());
        assert(texts(orphaned@) =~= Seq::<Seq<char>>::empty());
    }
    while i < units.len()
        invariant
            i <= units@.len(),
            texts(reattached@) == labels_upto(
                units@,
                supervised@,
                UnitFate::Reattach,
                i as nat,
            ),
            texts(collected@) == labels_upto(units@, supervised@, UnitFate::Collect, i as nat),
            texts(orphaned@) == labels_upto(units@, supervised@, UnitFate::Orphan, i as nat),
            are_found(found@, units@, supervised@, i as nat),
        decreases units@.len() - i,
    {
        let status = &units[i];
        if !list_has(supervised, &status.manifest.unit_id) {
            let manifest = &status.manifest;
            let name = label(&manifest.environment, &manifest.project, &manifest.workload);
            let what = fate(status);
            let ghost before = (reattached@, collected@, orphaned@);
            match what {
                UnitFate::Reattach => {
                    reattached.push(name);
                    proof {
                        assert(texts(reattached@) =~= texts(before.0).push(name@));
                    }
                },
                UnitFate::Collect => {
                    collected.push(name);
                    proof {
                        assert(texts(collected@) =~= texts(before.1).push(name@));
                    }
                },
                UnitFate::Orphan => {
                    orphaned.push(name);
                    proof {
                        assert(texts(orphaned@) =~= texts(before.2).push(name@));
                    }
                },
            }
            found.push(Reattachment { unit: i, fate: what, notices: unit_notices(status) });
        }
        i += 1;
    }
    (Recovery { reattached, collected, orphaned }, found)
}

/// The units this controller supervises.
pub fn supervised_units(runtime: &Table<Unit, WorkloadRuntime>) -> (r: Vec<String>)
    ensures
        forall|id: Seq<char>| #[trigger]
            texts(r@).contains(id) <==> is_supervising(
                runtime.values(),
                id,
                runtime.values().len(),
            ),
{
    let ghost all = runtime.values();
    let mut r: Vec<String> = Vec::new();
    let mut i: usize = 0;
    while i < runtime.len()
        invariant
            i <= all.len(),
            forall|id: Seq<char>| #[trigger]
                texts(r@).contains(id) <==> is_supervising(all, id, i as nat),
        decreases all.len() - i,
    {
        let running = runtime.value_at(i);
        let ghost before = r@;
        if running.supervised {
            if let Some(id) = &running.unit_id {
                r.push(id.clone());
            }
        }
        proof {
            assert forall|id: Seq<char>| #[trigger]
                texts(r@).contains(id) <==> is_supervising(all, id, (i + 1) as nat) by {
                assert(texts(before).contains(id) <==> is_supervising(all, id, i as nat));
                if texts(r@).contains(id) {
                    let k = choose|k: int| 0 <= k < texts(r@).len() && texts(r@)[k] == id;
                    if k < before.len() {
                        assert(texts(before)[k] == id);
                        let j = choose|j: int|
                            0 <= j < i && (#[trigger] all[j]).supervised && opt_text(all[j].unit_id)
                                == Some(id);
                        assert(all[j].supervised);
                    } else {
                        assert(all[i as int].supervised);
                    }
                }
                if is_supervising(all, id, (i + 1) as nat) {
                    let j = choose|j: int|
                        0 <= j < i + 1 && (#[trigger] all[j]).supervised && opt_text(
                            all[j].unit_id,
                        ) == Some(id);
                    if j < i {
                        assert(is_supervising(all, id, i as nat));
                        let k = choose|k: int| 0 <= k < texts(before).len() && texts(before)[k]
                            == id;
                        assert(texts(r@)[k] == id);
                    } else {
                        assert(texts(r@)[r@.len() - 1] == id);
                    }
                }
            }
        }
        i += 1;
    }
    r
}

/// The units a node knows under an identifier, whether it supervises them
/// or not.
pub fn known_units(runtime: &Table<Unit, WorkloadRuntime>) -> (r: Vec<String>)
    ensures
        texts(r@) == known_upto(runtime.values(), runtime.values().len()),
{
    let ghost all = runtime.values();
    let mut r: Vec<String> = Vec::new();
    let mut i: usize = 0;
    proof {
        assert(texts(r@) =~= Seq::<Seq<char>>::empty());
    }
    while i < runtime.len()
        invariant
            i <= all.len(),
            texts(r@) == known_upto(all, i as nat),
        decreases all.len() - i,
    {
        if let Some(id) = &runtime.value_at(i).unit_id {
            let ghost before = r@;
            r.push(id.clone());
            proof {
                assert(texts(r@) =~= texts(before).push(id@));
            }
        }
        i += 1;
    }
    r
}

/// The identifiers of the first `n` units that have one.
pub open spec fn known_upto(units: Seq<WorkloadRuntime>, n: nat) -> Seq<Seq<char>>
    decreases n,
{
    if n == 0 {
        Seq::empty()
    } else {
        let before = known_upto(units, (n - 1) as nat);
        match units[n - 1].unit_id {
            Some(id) => before.push(id@),
            None => before,
        }
    }
}

/// The identifiers of the first `n` units of the data plane that run.
pub open spec fn running_upto(units: Seq<UnitStatus>, n: nat) -> Seq<Seq<char>>
    decreases n,
{
    if n == 0 {
        Seq::empty()
    } else {
        let before = running_upto(units, (n - 1) as nat);
        if units[n - 1].outcome is None {
            before.push(units[n - 1].manifest.unit_id@)
        } else {
            before
        }
    }
}

/// The units of the data plane that run.
pub fn running_units(units: &Vec<UnitStatus>) -> (r: Vec<String>)
    ensures
        texts(r@) == running_upto(units@, units@.len()),
{
    let mut r: Vec<String> = Vec::new();
    let mut i: usize = 0;
    proof {
        assert(texts(r@) =~= Seq::<Seq<char>>::empty());
    }
    while i < units.len()
        invariant
            i <= units@.len(),
            texts(r@) == running_upto(units@, i as nat),
        decreases units@.len() - i,
    {
        if units[i].outcome.is_none() {
            let ghost before = r@;
            r.push(units[i].manifest.unit_id.clone());
            proof {
                assert(texts(r@) =~= texts(before).push(units@[i as int].manifest.unit_id@));
            }
        }
        i += 1;
    }
    r
}

/// Whether one of the first `n` units is supervised under an identifier.
pub open spec fn is_supervising(units: Seq<WorkloadRuntime>, id: Seq<char>, n: nat) -> bool {
    exists|i: int|
        0 <= i < n && (#[trigger] units[i]).supervised && opt_text(units[i].unit_id) == Some(id)
}

/// What a unit is once it is supervised again: as it was before, and
/// running since now.
pub open spec fn is_reattached(
    before: WorkloadRuntime,
    after: WorkloadRuntime,
    status: UnitStatus,
    now: i64,
) -> bool {
    let manifest = status.manifest;
    after == (WorkloadRuntime {
        service: true,
        generation: (before.generation + 1) as u64,
        state: Some(ActualState::Running),
        held: false,
        supervised: true,
        deployment_id: Some(manifest.deployment_id),
        started_at: Some(manifest.started_at),
        running_since: Some(now),
        finished_at: None,
        exit_code: None,
        error: None,
        log_directory: manifest.log_directory,
        unit_id: Some(manifest.unit_id),
        pid: match status.process {
            Some(process) => Some(process.pid),
            None => None,
        },
        placement: PlacementView {
            placement_id: manifest.placement_id,
            provider: manifest.provider,
            node: None,
        },
        ..before
    })
}

/// The key a unit of the data plane runs under.
pub open spec fn manifest_unit(manifest: UnitManifest) -> Seq<Seq<char>> {
    key4(
        manifest.environment@,
        manifest.project@,
        manifest.workload@,
        manifest.deployment_id@,
    )
}

/// Supervise a running unit again, without restarting it. Returns the
/// generation it is waited for under.
pub fn resume_unit(runtime: &mut Table<Unit, WorkloadRuntime>, status: &UnitStatus, now: i64) -> (r:
    u64)
    requires
        old(runtime)@.contains_key(manifest_unit(status.manifest)) ==> old(
            runtime,
        )@[manifest_unit(status.manifest)].generation < u64::MAX,
    ensures
        ({
            let unit = manifest_unit(status.manifest);
            &&& final(runtime)@.contains_key(unit)
            &&& final(runtime)@.remove(unit) == old(runtime)@.remove(unit)
            &&& final(runtime)@[unit].generation == r
            &&& old(runtime)@.contains_key(unit) ==> is_reattached(
                old(runtime)@[unit],
                final(runtime)@[unit],
                *status,
                now,
            )
            &&& !old(runtime)@.contains_key(unit) ==> r == 1 && exists|fresh: WorkloadRuntime|
                #[trigger] fresh.is_fresh() && is_reattached(
                    fresh,
                    final(runtime)@[unit],
                    *status,
                    now,
                )
        }),
{
    let manifest = &status.manifest;
    let key = Unit::new(&unit_key(manifest), &manifest.deployment_id);
    let ghost before = runtime@;
    let unit = match runtime.remove(&key) {
        Some(unit) => unit,
        None => WorkloadRuntime::new(),
    };
    let mut unit = unit;
    let ghost was = unit;
    let generation = unit.reattach(
        manifest.deployment_id.clone(),
        manifest.unit_id.clone(),
        match &status.process {
            Some(process) => Some(process.pid),
            None => None,
        },
        copy_option(&manifest.log_directory),
        PlacementView {
            placement_id: copy_option(&manifest.placement_id),
            provider: copy_option(&manifest.provider),
            node: None,
        },
        manifest.started_at,
        now,
    );
    runtime.insert(key, unit);
    proof {
        let parts = manifest_unit(*manifest);
        assert(runtime@.remove(parts) =~= before.remove(parts));
        assert(is_reattached(was, unit, *status, now));
        assert(before.contains_key(parts) || was.is_fresh());
    }
    generation
}

/// What a unit that ended unseen leaves: evidence only. A newer run of the
/// unit, if any, keeps its view, and nothing is started again.
pub fn collect_unit(started_at: i64, invocation: &Invocation, outcome: Outcome, now: i64) -> (r:
    Finished)
    ensures
        r.restart_after_ms is None,
        match outcome {
            Outcome::Denied(message, decision) => {
                &&& r.event matches Some(event)
                &&& event.says(
                    if invocation.service {
                        EventKind::ServiceDenied
                    } else {
                        EventKind::TaskDenied
                    },
                    invocation_scope(*invocation, None),
                    place_text(invocation.unit.key) + " was denied: "@ + message@,
                    denied_facts(decision),
                )
                &&& r.execution is None
            },
            Outcome::Failed(message) => {
                &&& if invocation.stopping {
                    r.event is None
                } else {
                    &&& r.event matches Some(event)
                    &&& event.says(
                        if invocation.service {
                            EventKind::ServiceFailed
                        } else {
                            EventKind::TaskFailed
                        },
                        invocation_scope(*invocation, None),
                        place_text(invocation.unit.key) + " failed: "@ + message@,
                        seq![],
                    )
                }
                &&& r.execution is None
            },
            Outcome::Executed(result, warning, placement) => {
                let error = ended_error(result, warning, invocation.stopping);
                let kind = ended_kind(
                    invocation.service,
                    invocation.stopping,
                    succeeded(result),
                );
                &&& r.event matches Some(event)
                &&& event.says(
                    kind,
                    invocation_scope(*invocation, Some(result.execution_id@)),
                    ended_message(invocation.unit.key, kind, error),
                    ended_facts(result),
                )
                &&& r.execution matches Some(record)
                &&& is_execution_record(
                    record,
                    *invocation,
                    result,
                    placement,
                    Some(started_at),
                    error,
                    now,
                )
            },
        },
{
    let mut run = WorkloadRuntime::new();
    run.generation = invocation.generation;
    run.started_at = Some(started_at);
    match run.finish(invocation, outcome, 0, now) {
        Some(done) => Finished {
            event: done.event,
            restart_after_ms: None,
            execution: done.execution,
        },
        None => Finished { event: None, restart_after_ms: None, execution: None },
    }
}

/// Stop the controller and leave every workload running. Refused when the
/// data plane lives in this process: its workloads cannot outlive it.
pub fn detach(independent: bool, instance_id: &str) -> (r: Result<Notice, EnvironmentError>)
    ensures
        if independent {
            r matches Ok(notice) && notice.says(
                EventKind::ControllerStopped,
                no_scope(),
                "Compute controller "@ + instance_id@ + " stopped; its workloads keep running"@,
                seq![text_fact("workloads"@, "kept"@)],
            )
        } else {
            r matches Err(error) && error.reports(
                Refusal::Invalid(
                    "this controller runs its workloads in its own process; they cannot outlive it"@,
                ),
            )
        },
{
    if !independent {
        return Err(
            EnvironmentError::Invalid(
                "this controller runs its workloads in its own process; they cannot outlive it".to_owned(),
            ),
        );
    }
    let mut message = "Compute controller ".to_owned();
    message.append(instance_id);
    message.append(" stopped; its workloads keep running");
    Ok(
        Notice::new(EventKind::ControllerStopped, Scope::default(), message).with(
            "workloads",
            Datum::text("kept"),
        ),
    )
}

// ---- Laws -------------------------------------------------------------------

/// Every unit that is found and not supervised yet is accounted for exactly
/// once: among the reattached, the collected or the orphaned.
pub proof fn law_every_unit_is_accounted_for(
    units: Seq<UnitStatus>,
    supervised: Seq<String>,
    n: nat,
)
    requires
        n <= units.len(),
    ensures
        labels_upto(units, supervised, UnitFate::Reattach, n).len() + labels_upto(
            units,
            supervised,
            UnitFate::Collect,
            n,
        ).len() + labels_upto(units, supervised, UnitFate::Orphan, n).len() == matching_upto(
            units,
            unsupervised(supervised),
            n,
        ).len(),
    decreases n,
{
    if n > 0 {
        law_every_unit_is_accounted_for(units, supervised, (n - 1) as nat);
    }
}

/// What becomes of a unit that is found follows from how it ended: one that
/// has not ended is supervised again, one that was left behind is orphaned,
/// and any other is collected.
pub proof fn law_running_units_are_reattached(status: UnitStatus)
    ensures
        fate_of(status) == UnitFate::Reattach <==> status.outcome is None,
        fate_of(status) == UnitFate::Orphan <==> (status.outcome matches Some(outcome)
            && outcome is Orphaned),
        fate_of(status) == UnitFate::Collect <==> (status.outcome matches Some(outcome) && !(
        outcome is Orphaned)),
{
}

/// Every unit that this controller does not supervise is found, with its
/// fate; one that it supervises is left alone.
pub proof fn law_unsupervised_units_are_found(
    found: Seq<Reattachment>,
    units: Seq<UnitStatus>,
    supervised: Seq<String>,
    i: int,
)
    requires
        are_found(found, units, supervised, units.len()),
        0 <= i < units.len(),
    ensures
        (forall|k: int|
            0 <= k < supervised.len() ==> (#[trigger] supervised[k])@ != units[i].manifest.unit_id@)
            ==> exists|k: int|
            0 <= k < found.len() && (#[trigger] found[k]).unit == i && (units[i].outcome is None
                <==> found[k].fate == UnitFate::Reattach),
        forall|k: int|
            0 <= k < found.len() && (#[trigger] found[k]).unit == i ==> forall|s: int|
                0 <= s < supervised.len() ==> (#[trigger] supervised[s])@
                    != units[i].manifest.unit_id@,
{
    let at = matching_upto(units, unsupervised(supervised), units.len());
    lemma_matching_upto(units, unsupervised(supervised), units.len());
    if forall|k: int|
        0 <= k < supervised.len() ==> (#[trigger] supervised[k])@ != units[i].manifest.unit_id@ {
        assert(!texts(supervised).contains(units[i].manifest.unit_id@)) by {
            if texts(supervised).contains(units[i].manifest.unit_id@) {
                let k = choose|k: int|
                    0 <= k < texts(supervised).len() && texts(supervised)[k]
                        == units[i].manifest.unit_id@;
                assert(supervised[k]@ == units[i].manifest.unit_id@);
            }
        }
        assert(unsupervised(supervised)(units[i]));
        assert(at.contains(i));
        let k = choose|k: int| 0 <= k < at.len() && at[k] == i;
        assert(found[k].unit == i);
    }
    assert forall|k: int| 0 <= k < found.len() && (#[trigger] found[k]).unit == i implies forall|
        s: int,
    |
        0 <= s < supervised.len() ==> (#[trigger] supervised[s])@ != units[i].manifest.unit_id@ by {
        assert(at[k] == i);
        assert(unsupervised(supervised)(units[at[k]]));
        assert forall|s: int| 0 <= s < supervised.len() implies (#[trigger] supervised[s])@
            != units[i].manifest.unit_id@ by {
            if supervised[s]@ == units[i].manifest.unit_id@ {
                assert(texts(supervised)[s] == units[i].manifest.unit_id@);
            }
        }
    }
}

/// A unit that is supervised again was not restarted: it runs as the process
/// it ran as, since it started; how often it restarted, its failures and its
/// evidence stay as they were.
pub proof fn law_reattaching_restarts_nothing(
    before: WorkloadRuntime,
    after: WorkloadRuntime,
    status: UnitStatus,
    now: i64,
)
    requires
        is_reattached(before, after, status, now),
        before.generation < u64::MAX,
    ensures
        after.state == Some(ActualState::Running),
        after.supervised,
        !after.held,
        after.generation == before.generation + 1,
        after.restarts == before.restarts,
        after.consecutive_failures == before.consecutive_failures,
        after.evidence == before.evidence,
        after.started_at == Some(status.manifest.started_at),
        opt_text(after.unit_id) == Some(status.manifest.unit_id@),
        opt_text(after.deployment_id) == Some(status.manifest.deployment_id@),
        after.pid == (match status.process {
            Some(process) => Some(process.pid),
            None => None,
        }),
        after.finished_at is None,
{
}

/// The units that run are exactly those that have not ended.
pub proof fn law_units_without_an_outcome_run(units: Seq<UnitStatus>, n: nat, i: int)
    requires
        0 <= i < n <= units.len(),
        units[i].outcome is None,
    ensures
        running_upto(units, n).contains(units[i].manifest.unit_id@),
    decreases n,
{
    let after = running_upto(units, n);
    if i == n - 1 {
        assert(after[after.len() - 1] == units[i].manifest.unit_id@);
    } else {
        law_units_without_an_outcome_run(units, (n - 1) as nat, i);
        let before = running_upto(units, (n - 1) as nat);
        let k = choose|k: int| 0 <= k < before.len() && before[k] == units[i].manifest.unit_id@;
        assert(after[k] == before[k]);
    }
}

/// What is listed as running has a unit that has not ended.
pub proof fn law_listed_units_run(units: Seq<UnitStatus>, n: nat, k: int)
    requires
        n <= units.len(),
        0 <= k < running_upto(units, n).len(),
    ensures
        exists|i: int|
            0 <= i < n && (#[trigger] units[i]).outcome is None && units[i].manifest.unit_id@
                == running_upto(units, n)[k],
    decreases n,
{
    let before = running_upto(units, (n - 1) as nat);
    let after = running_upto(units, n);
    if k < before.len() {
        law_listed_units_run(units, (n - 1) as nat, k);
        let i = choose|i: int|
            0 <= i < n - 1 && (#[trigger] units[i]).outcome is None && units[i].manifest.unit_id@
                == before[k];
        assert(units[i].manifest.unit_id@ == after[k]);
    } else {
        assert(units[n - 1].manifest.unit_id@ == after[k]);
    }
}

/// A unit found on the data plane is the workload its manifest names, of
/// the deployment it names.
pub proof fn law_units_are_what_their_manifest_names(manifest: UnitManifest)
    ensures
        manifest_unit(manifest) == seq![
            manifest.environment@,
            manifest.project@,
            manifest.workload@,
            manifest.deployment_id@,
        ],
{
}

/// Every unit that a workload runs as is known, and no other.
pub proof fn law_every_units_identifier_is_known(
    units: Seq<WorkloadRuntime>,
    n: nat,
    id: Seq<char>,
)
    requires
        n <= units.len(),
    ensures
        known_upto(units, n).contains(id) <==> exists|i: int|
            0 <= i < n && opt_text((#[trigger] units[i]).unit_id) == Some(id),
    decreases n,
{
    if n > 0 {
        law_every_units_identifier_is_known(units, (n - 1) as nat, id);
        let before = known_upto(units, (n - 1) as nat);
        let after = known_upto(units, n);
        if before.contains(id) {
            let k = choose|k: int| 0 <= k < before.len() && before[k] == id;
            assert(after[k] == id);
        }
        if opt_text(units[n - 1].unit_id) == Some(id) {
            assert(after[after.len() - 1] == id);
        }
        if after.contains(id) && !before.contains(id) {
            let k = choose|k: int| 0 <= k < after.len() && after[k] == id;
            if k < before.len() {
                assert(before[k] == id);
            }
            assert(opt_text(units[n - 1].unit_id) == Some(id));
        }
    }
}

} // verus!
