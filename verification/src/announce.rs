//! What is reported of a release as it moves.

use vstd::prelude::*;

use crate::events::{
    datum_option, fact, opt_texts, project_scope, text_fact, workload_scope, Datum, DatumText, EventKind, FactText,
    Key, Notice, Scope, ScopeText,
};
use crate::model::ReadinessCheck;
use crate::release::{drained_message, drained_text};
use crate::results::{copy_moved, moved_texts, readiness_texts, MovedEndpoint, ReadinessResults};
use crate::state::{DeploymentRecord, DeploymentWorkload, Stored};
use crate::text::{copy_option, decimal, decimal_text, opt_text};

verus! {

/// Who a release's events are about.
pub open spec fn release_scope_text(release: Stored<DeploymentRecord>) -> ScopeText {
    ScopeText {
        deployment_id: Some(release.id@),
        ..project_scope(release.value.environment@, release.value.project@)
    }
}

pub fn release_scope(release: &Stored<DeploymentRecord>) -> (r: Scope)
    ensures
        r@ == release_scope_text(*release),
{
    Scope::project(&release.value.environment, &release.value.project).deployment(&release.id)
}

/// A report that names what is released and where: the project and revision,
/// what became of it, the environment, and how it ends.
pub open spec fn release_text(
    release: DeploymentRecord,
    verb: Seq<char>,
    ending: Seq<char>,
) -> Seq<char> {
    release.project@ + " "@ + release.revision@ + verb + release.environment@ + ending
}

fn report(release: &Stored<DeploymentRecord>, kind: EventKind, verb: &str, ending: &str) -> (r:
    Notice)
    ensures
        r.says(
            kind,
            release_scope_text(*release),
            release_text(release.value, verb@, ending@),
            seq![],
        ),
{
    let mut message = release.value.project.clone();
    message.append(" ");
    message.append(&release.value.revision);
    message.append(verb);
    message.append(&release.value.environment);
    message.append(ending);
    Notice::new(kind, release_scope(release), message)
}

/// The admissions that workloads were given.
pub open spec fn admissions(evidence: Seq<DeploymentWorkload>) -> Seq<Option<Seq<char>>> {
    evidence.map_values(|workload: DeploymentWorkload| opt_text(workload.admission_id))
}

/// The providers that workloads were placed with.
pub open spec fn providers(evidence: Seq<DeploymentWorkload>) -> Seq<Option<Seq<char>>> {
    evidence.map_values(|workload: DeploymentWorkload| opt_text(workload.provider))
}

fn list_admissions(evidence: &Vec<DeploymentWorkload>) -> (r: Vec<Option<String>>)
    ensures
        opt_texts(r@) == admissions(evidence@),
{
    let mut r: Vec<Option<String>> = Vec::new();
    let mut i: usize = 0;
    while i < evidence.len()
        invariant
            i <= evidence@.len(),
            r@.len() == i,
            forall|j: int| 0 <= j < i ==> #[trigger] r@[j] == evidence@[j].admission_id,
        decreases evidence@.len() - i,
    {
        r.push(copy_option(&evidence[i].admission_id));
        i += 1;
    }
    proof {
        assert(opt_texts(r@) =~= admissions(evidence@));
    }
    r
}

fn list_providers(evidence: &Vec<DeploymentWorkload>) -> (r: Vec<Option<String>>)
    ensures
        opt_texts(r@) == providers(evidence@),
{
    let mut r: Vec<Option<String>> = Vec::new();
    let mut i: usize = 0;
    while i < evidence.len()
        invariant
            i <= evidence@.len(),
            r@.len() == i,
            forall|j: int| 0 <= j < i ==> #[trigger] r@[j] == evidence@[j].provider,
        decreases evidence@.len() - i,
    {
        r.push(copy_option(&evidence[i].provider));
        i += 1;
    }
    proof {
        assert(opt_texts(r@) =~= providers(evidence@));
    }
    r
}

/// A release was admitted and placed, with this evidence.
pub fn admitted(release: &Stored<DeploymentRecord>, evidence: &Vec<DeploymentWorkload>) -> (r: Vec<
    Notice,
>)
    ensures
        r@.len() == 2,
        r@[0].says(
            EventKind::DeploymentAdmitted,
            release_scope_text(*release),
            release_text(release.value, " admitted in "@, ""@),
            seq![fact("admissions"@, DatumText::Options(admissions(evidence@)))],
        ),
        r@[1].says(
            EventKind::DeploymentPlaced,
            release_scope_text(*release),
            release_text(release.value, " placed in "@, "; starting its instances"@),
            seq![fact("providers"@, DatumText::Options(providers(evidence@)))],
        ),
{
    let mut notices: Vec<Notice> = Vec::new();
    notices.push(
        report(release, EventKind::DeploymentAdmitted, " admitted in ", "").with(
            "admissions",
            Datum::Options(list_admissions(evidence)),
        ),
    );
    notices.push(
        report(
            release,
            EventKind::DeploymentPlaced,
            " placed in ",
            "; starting its instances",
        ).with("providers", Datum::Options(list_providers(evidence))),
    );
    notices
}

/// One of a release's instances proved ready.
pub fn instance_ready(
    instance_id: &str,
    key: &Key,
    revision: &str,
    deployment_id: &str,
    check: ReadinessCheck,
    detail: &str,
) -> (r: Notice)
    ensures
        r.says(
            EventKind::InstanceReady,
            (ScopeText {
                deployment_id: Some(deployment_id@),
                ..workload_scope(key.0@, key.1@, key.2@)
            }),
            key.2@ + " "@ + revision@ + " is ready in "@ + key.0@ + "/"@ + key.1@ + ": "@ + detail@,
            seq![
                text_fact("instance_id"@, instance_id@),
                fact("check"@, DatumText::Check(check)),
            ],
        ),
{
    let mut message = key.2.clone();
    message.append(" ");
    message.append(revision);
    message.append(" is ready in ");
    message.append(&key.0);
    message.append("/");
    message.append(&key.1);
    message.append(": ");
    message.append(detail);
    Notice::new(
        EventKind::InstanceReady,
        Scope::workload(key).deployment(deployment_id),
        message,
    ).with("instance_id", Datum::text(instance_id)).with("check", Datum::Check(check))
}

/// An instance stopped draining, with so many connections still open.
pub fn instance_stopped(
    instance_id: &str,
    key: &Key,
    revision: &str,
    deployment_id: &str,
    open: u64,
) -> (r: Notice)
    ensures
        r.says(
            EventKind::InstanceStopped,
            (ScopeText {
                deployment_id: Some(deployment_id@),
                ..workload_scope(key.0@, key.1@, key.2@)
            }),
            drained_text(key.2@, revision@, open),
            seq![
                text_fact("instance_id"@, instance_id@),
                fact("open_connections"@, DatumText::Number(open as int)),
            ],
        ),
{
    Notice::new(
        EventKind::InstanceStopped,
        Scope::workload(key).deployment(deployment_id),
        drained_message(&key.2, revision, open),
    ).with("instance_id", Datum::text(instance_id)).with("open_connections", Datum::Number(open))
}

/// Every instance of a release proved ready, each in its way.
pub fn release_ready(release: &Stored<DeploymentRecord>, results: &ReadinessResults) -> (r: Notice)
    ensures
        r.says(
            EventKind::DeploymentReady,
            release_scope_text(*release),
            release_text(release.value, " is ready in "@, ""@),
            seq![fact("readiness"@, DatumText::Readiness(readiness_texts(results@)))],
        ),
{
    report(release, EventKind::DeploymentReady, " is ready in ", "").with(
        "readiness",
        Datum::Readiness(results.copy()),
    )
}

pub open spec fn switched_text(moved: nat, revision: Seq<char>) -> Seq<char> {
    decimal_text(moved) + " endpoint(s) switched to "@ + revision
}

/// The endpoints that moved, as a fact.
pub open spec fn moved_fact(moved: Seq<MovedEndpoint>) -> FactText {
    fact("endpoints"@, DatumText::Endpoints(moved_texts(moved)))
}

/// A release receives traffic: these endpoints moved to it.
pub fn switched(release: &Stored<DeploymentRecord>, moved: &Vec<MovedEndpoint>) -> (r: Vec<Notice>)
    ensures
        r@.len() == (if moved@.len() == 0 {
            2int
        } else {
            3int
        }),
        r@[0].says(
            EventKind::DeploymentSwitched,
            release_scope_text(*release),
            release_text(release.value, " now receives traffic in "@, ""@),
            seq![moved_fact(moved@)],
        ),
        r@[1].says(
            EventKind::DeploymentActivated,
            release_scope_text(*release),
            release_text(release.value, " is now current in "@, ""@),
            seq![
                text_fact("revision"@, release.value.revision@),
                fact("previous"@, datum_option(opt_text(release.value.previous))),
            ],
        ),
        moved@.len() > 0 ==> r@[2].says(
            EventKind::RouteSwitched,
            release_scope_text(*release),
            switched_text(moved@.len(), release.value.revision@),
            seq![moved_fact(moved@)],
        ),
{
    let mut notices: Vec<Notice> = Vec::new();
    notices.push(
        report(release, EventKind::DeploymentSwitched, " now receives traffic in ", "").with(
            "endpoints",
            Datum::Endpoints(copy_moved(moved)),
        ),
    );
    notices.push(
        report(release, EventKind::DeploymentActivated, " is now current in ", "").with(
            "revision",
            Datum::text(&release.value.revision),
        ).with("previous", Datum::option(&release.value.previous)),
    );
    if moved.len() > 0 {
        let mut message = decimal(moved.len() as u64);
        message.append(" endpoint(s) switched to ");
        message.append(&release.value.revision);
        notices.push(
            Notice::new(EventKind::RouteSwitched, release_scope(release), message).with(
                "endpoints",
                Datum::Endpoints(copy_moved(moved)),
            ),
        );
    }
    notices
}

/// A release serves; what it replaced drains, for so long at most.
pub fn draining(release: &Stored<DeploymentRecord>, drain_timeout_ms: u64) -> (r: Notice)
    ensures
        r.says(
            EventKind::DeploymentDraining,
            release_scope_text(*release),
            release_text(release.value, " serves in "@, "; draining what it replaced"@),
            seq![fact("drain_timeout_ms"@, DatumText::Number(drain_timeout_ms as int))],
        ),
{
    report(
        release,
        EventKind::DeploymentDraining,
        " serves in ",
        "; draining what it replaced",
    ).with("drain_timeout_ms", Datum::Number(drain_timeout_ms))
}

/// A release is complete, with this receipt.
pub fn completed(release: &Stored<DeploymentRecord>, receipt: &str) -> (r: Notice)
    ensures
        r.says(
            EventKind::DeploymentCompleted,
            release_scope_text(*release),
            release_text(release.value, " is released in "@, ""@),
            seq![
                text_fact("revision"@, release.value.revision@),
                text_fact("receipt"@, receipt@),
            ],
        ),
{
    report(release, EventKind::DeploymentCompleted, " is released in ", "").with(
        "revision",
        Datum::text(&release.value.revision),
    ).with("receipt", Datum::text(receipt))
}

/// A release failed at a stage, before it moved traffic.
pub fn failed(release: &Stored<DeploymentRecord>, stage: &str, reason: &str, receipt: &str) -> (r:
    Notice)
    ensures
        r.says(
            EventKind::DeploymentFailed,
            release_scope_text(*release),
            release_text(release.value, " was not released to "@, ": "@ + reason@),
            seq![
                text_fact("stage"@, stage@),
                text_fact("reason"@, reason@),
                text_fact("receipt"@, receipt@),
            ],
        ),
{
    report(
        release,
        EventKind::DeploymentFailed,
        " was not released to ",
        &": ".to_owned().concat(reason),
    ).with("stage", Datum::text(stage)).with("reason", Datum::text(reason)).with(
        "receipt",
        Datum::text(receipt),
    )
}

/// A release gave these endpoints back to a deployment that served before.
pub fn rolled_back(
    release: &Stored<DeploymentRecord>,
    to_deployment: &str,
    to_revision: &str,
    reason: &str,
    moved: &Vec<MovedEndpoint>,
    receipt: &str,
) -> (r: Notice)
    ensures
        r.says(
            EventKind::DeploymentRolledBack,
            release_scope_text(*release),
            release_text(
                release.value,
                " was rolled back to "@ + to_revision@ + " in "@,
                ": "@ + reason@,
            ),
            seq![
                text_fact("reason"@, reason@),
                text_fact("to_deployment"@, to_deployment@),
                moved_fact(moved@),
                text_fact("receipt"@, receipt@),
            ],
        ),
{
    let mut verb = " was rolled back to ".to_owned();
    verb.append(to_revision);
    verb.append(" in ");
    report(
        release,
        EventKind::DeploymentRolledBack,
        &verb,
        &": ".to_owned().concat(reason),
    ).with("reason", Datum::text(reason)).with("to_deployment", Datum::text(to_deployment)).with(
        "endpoints",
        Datum::Endpoints(copy_moved(moved)),
    ).with("receipt", Datum::text(receipt))
}

// ---- Laws -------------------------------------------------------------------

/// What is announced of a release is about its environment, its project and
/// itself, and names its project, its revision and its environment.
pub proof fn law_announcements_name_their_release(
    release: Stored<DeploymentRecord>,
    verb: Seq<char>,
    ending: Seq<char>,
)
    ensures
        release_scope_text(release).environment == Some(release.value.environment@),
        release_scope_text(release).project == Some(release.value.project@),
        release_scope_text(release).workload is None,
        release_scope_text(release).deployment_id == Some(release.id@),
        release_scope_text(release).execution_id is None,
        release_text(release.value, verb, ending) == release.value.project@ + " "@
            + release.value.revision@ + verb + release.value.environment@ + ending,
{
}

} // verus!
