//! The receipt of a release: what was released, where, and with which
//! evidence. It holds digests and identifiers, never configuration values,
//! keys or credentials.

use vstd::prelude::*;

use crate::events::{EventKind, EventRecord};
use crate::model::{copy_ports, PortBinding, WorkloadKind};
use crate::results::{
    opt_network, opt_readiness, opt_switch, NetworkResult, NetworkText, ReadinessResults,
    ReadinessText, SwitchResult, SwitchText,
};
use crate::state::{
    copy_artifact, opt_artifact, ArtifactText, DeploymentRecord, DeploymentStatus,
    DeploymentWorkload,
};
use crate::text::{copy_list, copy_option, opt_text, texts};

verus! {

pub const RECEIPT_FORMAT: &'static str = "compute.deployment-receipt@1";

/// How many events of a release its receipt lists at most.
pub const RECEIPT_EVENTS: usize = 500;

/// An event of a release, as its receipt lists it.
#[derive(Debug, Clone, Copy, PartialEq, Eq, Structural)]
pub struct Transition {
    pub sequence: u64,
    pub kind: EventKind,
    pub at: i64,
}

/// The receipt of a release.
#[derive(Debug)]
pub struct DeploymentReceipt {
    pub format: String,
    pub deployment_id: String,
    pub environment_id: String,
    pub environment: String,
    pub project_id: String,
    pub project: String,
    pub revision_id: String,
    pub revision: String,
    pub revision_digest: String,
    pub old_revision: Option<String>,
    pub previous_deployment_id: Option<String>,
    pub promoted_from: Option<String>,
    pub config_digest: Option<String>,
    pub status: DeploymentStatus,
    pub failure: Option<String>,
    pub rollback_reason: Option<String>,
    pub workloads: Vec<DeploymentWorkload>,
    pub readiness: Option<ReadinessResults>,
    pub network: Option<NetworkResult>,
    pub traffic_switch: Option<SwitchResult>,
    pub execution_receipts: Vec<String>,
    pub events: Vec<Transition>,
    pub created_at: i64,
    pub completed_at: Option<i64>,
    /// Who issued it: the version of Compute, and the daemon.
    pub compute: String,
    pub daemon: String,
}

/// The evidence of a workload, as plain values.
pub ghost struct EvidenceText {
    pub name: Seq<char>,
    pub kind: WorkloadKind,
    pub bundle_id: Seq<char>,
    pub artifact: Seq<char>,
    pub runtime: Seq<char>,
    pub runtime_version: Option<Seq<char>>,
    pub resolved_runtime_version: Option<Seq<char>>,
    pub distribution: Option<Seq<char>>,
    pub admitted: bool,
    pub policy_id: Option<Seq<char>>,
    pub admission_id: Option<Seq<char>>,
    pub placement_id: Option<Seq<char>>,
    pub provider: Option<Seq<char>>,
    pub reasons: Seq<Seq<char>>,
    pub endpoints: Seq<PortBinding>,
    pub pool_placement: Option<Seq<char>>,
    pub application_artifact: Option<ArtifactText>,
}

impl View for DeploymentWorkload {
    type V = EvidenceText;

    open spec fn view(&self) -> EvidenceText {
        EvidenceText {
            name: self.name@,
            kind: self.kind,
            bundle_id: self.bundle_id@,
            artifact: self.artifact@,
            runtime: self.runtime@,
            runtime_version: opt_text(self.runtime_version),
            resolved_runtime_version: opt_text(self.resolved_runtime_version),
            distribution: opt_text(self.distribution),
            admitted: self.admitted,
            policy_id: opt_text(self.policy_id),
            admission_id: opt_text(self.admission_id),
            placement_id: opt_text(self.placement_id),
            provider: opt_text(self.provider),
            reasons: texts(self.reasons@),
            endpoints: self.endpoints@,
            pool_placement: opt_text(self.pool_placement),
            application_artifact: opt_artifact(self.application_artifact),
        }
    }
}

pub open spec fn evidence_texts(workloads: Seq<DeploymentWorkload>) -> Seq<EvidenceText> {
    workloads.map_values(|workload: DeploymentWorkload| workload@)
}

/// The events of a release, as its receipt lists them.
pub open spec fn transitions_of(events: Seq<EventRecord>) -> Seq<Transition> {
    events.map_values(
        |event: EventRecord|
            Transition { sequence: event.sequence, kind: event.kind, at: event.at },
    )
}

/// A receipt as plain values.
pub ghost struct ReceiptText {
    pub format: Seq<char>,
    pub deployment_id: Seq<char>,
    pub environment_id: Seq<char>,
    pub environment: Seq<char>,
    pub project_id: Seq<char>,
    pub project: Seq<char>,
    pub revision_id: Seq<char>,
    pub revision: Seq<char>,
    pub revision_digest: Seq<char>,
    pub old_revision: Option<Seq<char>>,
    pub previous_deployment_id: Option<Seq<char>>,
    pub promoted_from: Option<Seq<char>>,
    pub config_digest: Option<Seq<char>>,
    pub status: DeploymentStatus,
    pub failure: Option<Seq<char>>,
    pub rollback_reason: Option<Seq<char>>,
    pub workloads: Seq<EvidenceText>,
    pub readiness: Option<Map<Seq<Seq<char>>, ReadinessText>>,
    pub network: Option<NetworkText>,
    pub traffic_switch: Option<SwitchText>,
    pub execution_receipts: Seq<Seq<char>>,
    pub events: Seq<Transition>,
    pub created_at: i64,
    pub completed_at: Option<i64>,
    pub compute: Seq<char>,
    pub daemon: Seq<char>,
}

impl View for DeploymentReceipt {
    type V = ReceiptText;

    open spec fn view(&self) -> ReceiptText {
        ReceiptText {
            format: self.format@,
            deployment_id: self.deployment_id@,
            environment_id: self.environment_id@,
            environment: self.environment@,
            project_id: self.project_id@,
            project: self.project@,
            revision_id: self.revision_id@,
            revision: self.revision@,
            revision_digest: self.revision_digest@,
            old_revision: opt_text(self.old_revision),
            previous_deployment_id: opt_text(self.previous_deployment_id),
            promoted_from: opt_text(self.promoted_from),
            config_digest: opt_text(self.config_digest),
            status: self.status,
            failure: opt_text(self.failure),
            rollback_reason: opt_text(self.rollback_reason),
            workloads: evidence_texts(self.workloads@),
            readiness: opt_readiness(self.readiness),
            network: opt_network(self.network),
            traffic_switch: opt_switch(self.traffic_switch),
            execution_receipts: texts(self.execution_receipts@),
            events: self.events@,
            created_at: self.created_at,
            completed_at: self.completed_at,
            compute: self.compute@,
            daemon: self.daemon@,
        }
    }
}

/// The receipt of a release.
pub open spec fn receipt_text(
    deployment_id: Seq<char>,
    record: DeploymentRecord,
    events: Seq<EventRecord>,
    compute: Seq<char>,
    daemon: Seq<char>,
) -> ReceiptText {
    ReceiptText {
        format: RECEIPT_FORMAT@,
        deployment_id,
        environment_id: record.environment_id@,
        environment: record.environment@,
        project_id: record.project_id@,
        project: record.project@,
        revision_id: record.revision_id@,
        revision: record.revision@,
        revision_digest: record.revision_digest@,
        old_revision: opt_text(record.old_revision),
        previous_deployment_id: opt_text(record.previous),
        promoted_from: opt_text(record.promoted_from),
        config_digest: opt_text(record.config_digest),
        status: record.status,
        failure: opt_text(record.failure),
        rollback_reason: opt_text(record.rollback_reason),
        workloads: evidence_texts(record.workloads@),
        readiness: opt_readiness(record.readiness_result),
        network: opt_network(record.network_result),
        traffic_switch: opt_switch(record.traffic_switch_result),
        execution_receipts: texts(record.receipt_ids@),
        events: transitions_of(events),
        created_at: record.created_at,
        completed_at: record.completed_at,
        compute,
        daemon,
    }
}

fn copy_evidence(workload: &DeploymentWorkload) -> (r: DeploymentWorkload)
    ensures
        r@ == workload@,
{
    DeploymentWorkload {
        name: workload.name.clone(),
        kind: workload.kind,
        bundle_id: workload.bundle_id.clone(),
        artifact: workload.artifact.clone(),
        runtime: workload.runtime.clone(),
        runtime_version: copy_option(&workload.runtime_version),
        resolved_runtime_version: copy_option(&workload.resolved_runtime_version),
        distribution: copy_option(&workload.distribution),
        admitted: workload.admitted,
        policy_id: copy_option(&workload.policy_id),
        admission_id: copy_option(&workload.admission_id),
        placement_id: copy_option(&workload.placement_id),
        provider: copy_option(&workload.provider),
        reasons: copy_list(&workload.reasons),
        endpoints: copy_ports(&workload.endpoints),
        pool_placement: copy_option(&workload.pool_placement),
        application_artifact: copy_artifact(&workload.application_artifact),
    }
}

/// Copy the evidence of a release's workloads.
pub fn copy_workloads(workloads: &Vec<DeploymentWorkload>) -> (r: Vec<DeploymentWorkload>)
    ensures
        evidence_texts(r@) == evidence_texts(workloads@),
{
    let mut r: Vec<DeploymentWorkload> = Vec::new();
    let mut i: usize = 0;
    proof {
        assert(evidence_texts(r@) =~= evidence_texts(workloads@).take(0));
    }
    while i < workloads.len()
        invariant
            i <= workloads@.len(),
            evidence_texts(r@) == evidence_texts(workloads@).take(i as int),
        decreases workloads@.len() - i,
    {
        let ghost before = r@;
        r.push(copy_evidence(&workloads[i]));
        proof {
            assert(evidence_texts(r@) =~= evidence_texts(before).push(workloads@[i as int]@));
            assert(evidence_texts(workloads@).take(i + 1) =~= evidence_texts(workloads@).take(
                i as int,
            ).push(workloads@[i as int]@));
        }
        i += 1;
    }
    proof {
        assert(evidence_texts(workloads@).take(i as int) =~= evidence_texts(workloads@));
    }
    r
}

fn list_transitions(events: &Vec<EventRecord>) -> (r: Vec<Transition>)
    ensures
        r@ == transitions_of(events@),
{
    let mut r: Vec<Transition> = Vec::new();
    let mut i: usize = 0;
    proof {
        assert(r@ =~= transitions_of(events@).take(0));
    }
    while i < events.len()
        invariant
            i <= events@.len(),
            r@ == transitions_of(events@).take(i as int),
        decreases events@.len() - i,
    {
        let event = &events[i];
        r.push(Transition { sequence: event.sequence, kind: event.kind, at: event.at });
        proof {
            assert(transitions_of(events@).take(i + 1) =~= transitions_of(events@).take(
                i as int,
            ).push(transitions_of(events@)[i as int]));
        }
        i += 1;
    }
    proof {
        assert(transitions_of(events@).take(i as int) =~= transitions_of(events@));
    }
    r
}

/// The receipt of a release that ended, with its events.
pub fn write_receipt(
    deployment_id: &str,
    record: &DeploymentRecord,
    events: &Vec<EventRecord>,
    compute: &str,
    daemon: &str,
) -> (r: DeploymentReceipt)
    ensures
        r@ == receipt_text(deployment_id@, *record, events@, compute@, daemon@),
{
    DeploymentReceipt {
        format: RECEIPT_FORMAT.to_owned(),
        deployment_id: deployment_id.to_owned(),
        environment_id: record.environment_id.clone(),
        environment: record.environment.clone(),
        project_id: record.project_id.clone(),
        project: record.project.clone(),
        revision_id: record.revision_id.clone(),
        revision: record.revision.clone(),
        revision_digest: record.revision_digest.clone(),
        old_revision: copy_option(&record.old_revision),
        previous_deployment_id: copy_option(&record.previous),
        promoted_from: copy_option(&record.promoted_from),
        config_digest: copy_option(&record.config_digest),
        status: record.status,
        failure: copy_option(&record.failure),
        rollback_reason: copy_option(&record.rollback_reason),
        workloads: copy_workloads(&record.workloads),
        readiness: match &record.readiness_result {
            Some(results) => Some(results.copy()),
            None => None,
        },
        network: match &record.network_result {
            Some(result) => Some(result.clone()),
            None => None,
        },
        traffic_switch: match &record.traffic_switch_result {
            Some(result) => Some(result.clone()),
            None => None,
        },
        execution_receipts: copy_list(&record.receipt_ids),
        events: list_transitions(events),
        created_at: record.created_at,
        completed_at: record.completed_at,
        compute: compute.to_owned(),
        daemon: daemon.to_owned(),
    }
}

/// A receipt says nothing of configuration but its digest: releases that
/// differ in no more than configuration have the same receipt.
pub proof fn law_receipts_hide_configuration(
    deployment_id: Seq<char>,
    record: DeploymentRecord,
    other: DeploymentRecord,
    events: Seq<EventRecord>,
    compute: Seq<char>,
    daemon: Seq<char>,
)
    requires
        other == (DeploymentRecord { config: other.config, ..record }),
    ensures
        receipt_text(deployment_id, other, events, compute, daemon) == receipt_text(
            deployment_id,
            record,
            events,
            compute,
            daemon,
        ),
{
}

/// A receipt says what was released, where, over what, how it went and when.
pub proof fn law_receipts_say_what_happened(
    deployment_id: Seq<char>,
    record: DeploymentRecord,
    events: Seq<EventRecord>,
    compute: Seq<char>,
    daemon: Seq<char>,
)
    ensures
        ({
            let receipt = receipt_text(deployment_id, record, events, compute, daemon);
            &&& receipt.format == "compute.deployment-receipt@1"@
            &&& receipt.deployment_id == deployment_id
            &&& receipt.environment_id == record.environment_id@
            &&& receipt.environment == record.environment@
            &&& receipt.project_id == record.project_id@
            &&& receipt.project == record.project@
            &&& receipt.revision_id == record.revision_id@
            &&& receipt.revision == record.revision@
            &&& receipt.revision_digest == record.revision_digest@
            &&& match record.old_revision {
                Some(old_revision) => receipt.old_revision == Some(old_revision@),
                None => receipt.old_revision is None,
            }
            &&& match record.previous {
                Some(previous) => receipt.previous_deployment_id == Some(previous@),
                None => receipt.previous_deployment_id is None,
            }
            &&& match record.promoted_from {
                Some(promoted_from) => receipt.promoted_from == Some(promoted_from@),
                None => receipt.promoted_from is None,
            }
            &&& match record.config_digest {
                Some(config_digest) => receipt.config_digest == Some(config_digest@),
                None => receipt.config_digest is None,
            }
            &&& match record.failure {
                Some(failure) => receipt.failure == Some(failure@),
                None => receipt.failure is None,
            }
            &&& match record.rollback_reason {
                Some(reason) => receipt.rollback_reason == Some(reason@),
                None => receipt.rollback_reason is None,
            }
            &&& receipt.status == record.status
            &&& receipt.created_at == record.created_at
            &&& receipt.completed_at == record.completed_at
            &&& receipt.compute == compute
            &&& receipt.daemon == daemon
        }),
{
}

/// A receipt lists every workload, every execution receipt and every event
/// of the release that it is given, each once and in order.
pub proof fn law_receipts_list_everything(
    deployment_id: Seq<char>,
    record: DeploymentRecord,
    events: Seq<EventRecord>,
    compute: Seq<char>,
    daemon: Seq<char>,
    i: int,
)
    ensures
        ({
            let receipt = receipt_text(deployment_id, record, events, compute, daemon);
            &&& receipt.workloads.len() == record.workloads@.len()
            &&& 0 <= i < record.workloads@.len() ==> receipt.workloads[i].name
                == record.workloads@[i].name@ && receipt.workloads[i].artifact
                == record.workloads@[i].artifact@ && receipt.workloads[i].admitted
                == record.workloads@[i].admitted && receipt.workloads[i].endpoints
                == record.workloads@[i].endpoints@
            &&& receipt.execution_receipts.len() == record.receipt_ids@.len()
            &&& 0 <= i < record.receipt_ids@.len() ==> receipt.execution_receipts[i]
                == record.receipt_ids@[i]@
            &&& receipt.events.len() == events.len()
            &&& 0 <= i < events.len() ==> receipt.events[i].sequence == events[i].sequence
                && receipt.events[i].kind == events[i].kind && receipt.events[i].at == events[i].at
        }),
{
}

} // verus!
