//! What a step of a release writes on its own record and on those of its
//! instances, and what an operator's wish writes. A record changes only in
//! what was decided.

use vstd::prelude::*;

use crate::execute::{deployment_receipts, recent, DEPLOYMENT_RECEIPTS};
use crate::model::DesiredState;
use crate::results::{
    MovedEndpoint, NetworkResult, ReadinessResults, SwitchResult, VerifiedEndpoint,
};
use crate::state::{
    DeploymentRecord, DeploymentStatus, DeploymentWorkload, EnvironmentProjectRecord,
    EnvironmentRecord, InstanceState, WorkloadInstanceRecord, WorkloadRecord,
};
use crate::text::texts;

verus! {

// ---- Releases ---------------------------------------------------------------

impl DeploymentRecord {
    /// Take a release to its next status: it is there since now.
    pub fn advance(&mut self, next: DeploymentStatus, now: i64)
        ensures
            *final(self) == (DeploymentRecord {
                status: next,
                status_since: Some(now),
                updated_at: now,
                ..*old(self)
            }),
    {
        self.status = next;
        self.status_since = Some(now);
        self.updated_at = now;
    }

    /// Every instance of a release is ready: how each proved it is kept.
    pub fn ready(&mut self, results: ReadinessResults, now: i64)
        ensures
            *final(self) == (DeploymentRecord {
                status: DeploymentStatus::Ready,
                readiness_result: Some(results),
                status_since: Some(now),
                updated_at: now,
                ..*old(self)
            }),
    {
        self.readiness_result = Some(results);
        self.advance(DeploymentStatus::Ready, now);
    }

    /// The network of a release is ready: how it was found is kept.
    pub fn network_ready(&mut self, result: NetworkResult, now: i64)
        ensures
            *final(self) == (DeploymentRecord {
                status: DeploymentStatus::NetworkReady,
                network_result: Some(result),
                status_since: Some(now),
                updated_at: now,
                ..*old(self)
            }),
    {
        self.network_result = Some(result);
        self.advance(DeploymentStatus::NetworkReady, now);
    }

    /// The traffic of a release moves: what moves is kept, and when.
    pub fn switch(&mut self, endpoints: Vec<MovedEndpoint>, now: i64)
        ensures
            *final(self) == (DeploymentRecord {
                status: DeploymentStatus::Switching,
                traffic_switch_result: Some(
                    SwitchResult {
                        endpoints: Some(endpoints),
                        switched_at: Some(now),
                        verified: None,
                        verified_at: None,
                    },
                ),
                status_since: Some(now),
                updated_at: now,
                ..*old(self)
            }),
    {
        self.traffic_switch_result = Some(
            SwitchResult {
                endpoints: Some(endpoints),
                switched_at: Some(now),
                verified: None,
                verified_at: None,
            },
        );
        self.advance(DeploymentStatus::Switching, now);
    }

    /// The data plane follows a release: how that was verified is kept with
    /// what moved.
    pub fn activate(&mut self, verified: Vec<VerifiedEndpoint>, now: i64)
        ensures
            *final(self) == (DeploymentRecord {
                status: DeploymentStatus::Active,
                traffic_switch_result: Some(
                    SwitchResult {
                        endpoints: match old(self).traffic_switch_result {
                            Some(result) => result.endpoints,
                            None => None,
                        },
                        switched_at: match old(self).traffic_switch_result {
                            Some(result) => result.switched_at,
                            None => None,
                        },
                        verified: Some(verified),
                        verified_at: Some(now),
                    },
                ),
                status_since: Some(now),
                updated_at: now,
                ..*old(self)
            }),
    {
        let (endpoints, switched_at) = match self.traffic_switch_result.take() {
            Some(result) => (result.endpoints, result.switched_at),
            None => (None, None),
        };
        self.traffic_switch_result = Some(
            SwitchResult {
                endpoints,
                switched_at,
                verified: Some(verified),
                verified_at: Some(now),
            },
        );
        self.advance(DeploymentStatus::Active, now);
    }

    /// Complete a release.
    pub fn complete(&mut self, now: i64)
        ensures
            *final(self) == (DeploymentRecord {
                status: DeploymentStatus::Complete,
                completed_at: Some(now),
                status_since: Some(now),
                updated_at: now,
                ..*old(self)
            }),
    {
        self.completed_at = Some(now);
        self.advance(DeploymentStatus::Complete, now);
    }

    /// Fail a release, with the evidence of its workloads gathered on the
    /// way, if any.
    pub fn fail(&mut self, workloads: Option<Vec<DeploymentWorkload>>, reason: String, now: i64)
        ensures
            *final(self) == (DeploymentRecord {
                status: DeploymentStatus::Failed,
                workloads: match workloads {
                    Some(workloads) => workloads,
                    None => old(self).workloads,
                },
                failure: Some(reason),
                completed_at: Some(now),
                status_since: Some(now),
                updated_at: now,
                ..*old(self)
            }),
    {
        if let Some(workloads) = workloads {
            self.workloads = workloads;
        }
        self.failure = Some(reason);
        self.completed_at = Some(now);
        self.advance(DeploymentStatus::Failed, now);
    }

    /// Roll a release back.
    pub fn roll_back(&mut self, reason: String, now: i64)
        ensures
            *final(self) == (DeploymentRecord {
                status: DeploymentStatus::RolledBack,
                rollback_reason: Some(reason),
                completed_at: Some(now),
                status_since: Some(now),
                updated_at: now,
                ..*old(self)
            }),
    {
        self.rollback_reason = Some(reason);
        self.completed_at = Some(now);
        self.advance(DeploymentStatus::RolledBack, now);
    }

    /// Record where the receipt of a release that ended is.
    pub fn receive(&mut self, receipt: String)
        ensures
            *final(self) == (DeploymentRecord { receipt: Some(receipt), ..*old(self) }),
    {
        self.receipt = Some(receipt);
    }

    /// Record one more receipt of an execution, the oldest forgotten beyond
    /// the limit.
    pub fn collect(&mut self, receipt: &str)
        ensures
            texts(final(self).receipt_ids@) == recent(
                texts(old(self).receipt_ids@).push(receipt@),
                DEPLOYMENT_RECEIPTS as nat,
            ),
            *final(self) == (DeploymentRecord {
                receipt_ids: final(self).receipt_ids,
                ..*old(self)
            }),
    {
        self.receipt_ids = deployment_receipts(&self.receipt_ids, receipt);
    }
}

// ---- What should run --------------------------------------------------------

impl EnvironmentRecord {
    /// Set whether an environment should run.
    pub fn want(&mut self, state: DesiredState)
        ensures
            *final(self) == (EnvironmentRecord { desired_state: state, ..*old(self) }),
    {
        self.desired_state = state;
    }
}

impl EnvironmentProjectRecord {
    /// Set whether a project should run in an environment.
    pub fn want(&mut self, state: DesiredState, now: i64)
        ensures
            *final(self) == (EnvironmentProjectRecord {
                desired_state: state,
                updated_at: now,
                ..*old(self)
            }),
    {
        self.desired_state = state;
        self.updated_at = now;
    }
}

impl WorkloadRecord {
    /// Set whether a workload should run.
    pub fn want(&mut self, state: DesiredState)
        ensures
            *final(self) == (WorkloadRecord { desired_state: state, ..*old(self) }),
    {
        self.desired_state = state;
    }
}

// ---- Instances --------------------------------------------------------------

impl WorkloadInstanceRecord {
    /// An instance proved ready.
    pub fn prove(&mut self, detail: String, now: i64)
        ensures
            *final(self) == (WorkloadInstanceRecord {
                state: InstanceState::Ready,
                ready_at: Some(now),
                readiness: Some(detail),
                updated_at: now,
                ..*old(self)
            }),
    {
        self.state = InstanceState::Ready;
        self.ready_at = Some(now);
        self.readiness = Some(detail);
        self.updated_at = now;
    }

    /// An instance failed with its release.
    pub fn fail(&mut self, reason: String, now: i64)
        ensures
            *final(self) == (WorkloadInstanceRecord {
                state: InstanceState::Failed,
                error: Some(reason),
                stopped_at: Some(now),
                updated_at: now,
                ..*old(self)
            }),
    {
        self.state = InstanceState::Failed;
        self.error = Some(reason);
        self.stopped_at = Some(now);
        self.updated_at = now;
    }

    /// Traffic moved: an instance is in its next state. One that stops did
    /// so now.
    pub fn enter(&mut self, next: InstanceState, now: i64)
        ensures
            *final(self) == (WorkloadInstanceRecord {
                state: next,
                stopped_at: if next is Stopped {
                    Some(now)
                } else {
                    old(self).stopped_at
                },
                updated_at: now,
                ..*old(self)
            }),
    {
        if next == InstanceState::Stopped {
            self.stopped_at = Some(now);
        }
        self.state = next;
        self.updated_at = now;
    }
}

} // verus!
