//! What a node knows of the units it runs, as they are started, stopped and
//! held.

use vstd::prelude::*;

use crate::execute::{AdmissionIds, WorkloadRuntime, RECENT_EXECUTIONS};
use crate::model::ActualState;
use crate::status::{Evidence, Health, PlacementView};
use crate::table::{ascending, key1, map_of, Table};
use crate::text::opt_text;

verus! {

/// Whether a unit is starting or runs.
pub open spec fn is_active(state: Option<ActualState>) -> bool {
    state == Some(ActualState::Starting) || state == Some(ActualState::Running)
}

pub fn active(state: Option<ActualState>) -> (r: bool)
    ensures
        r == is_active(state),
{
    match state {
        Some(ActualState::Starting) => true,
        Some(ActualState::Running) => true,
        _ => false,
    }
}

pub open spec fn no_placement() -> PlacementView {
    PlacementView { placement_id: None, provider: None, node: None }
}

impl WorkloadRuntime {
    /// A unit that never ran.
    pub open spec fn is_fresh(self) -> bool {
        &&& !self.service
        &&& self.state is None
        &&& self.generation == 0
        &&& !self.held
        &&& self.restarts == 0
        &&& self.consecutive_failures == 0
        &&& !self.supervised
        &&& self.deployment_id is None
        &&& self.execution_id is None
        &&& self.started_at is None
        &&& self.finished_at is None
        &&& self.exit_code is None
        &&& self.error is None
        &&& self.placement == no_placement()
        &&& self.evidence.policy_id is None
        &&& self.evidence.admission_id is None
        &&& self.evidence.receipt_ids@.len() == 0
        &&& self.log_directory is None
        &&& self.health is None
        &&& self.running_since is None
        &&& self.unit_id is None
        &&& self.pid is None
    }

    pub fn new() -> (r: Self)
        ensures
            r.is_fresh(),
    {
        WorkloadRuntime {
            service: false,
            state: None,
            generation: 0,
            held: false,
            restarts: 0,
            consecutive_failures: 0,
            supervised: false,
            deployment_id: None,
            execution_id: None,
            started_at: None,
            finished_at: None,
            exit_code: None,
            error: None,
            placement: PlacementView { placement_id: None, provider: None, node: None },
            evidence: Evidence { policy_id: None, admission_id: None, receipt_ids: Vec::new() },
            log_directory: None,
            health: None,
            running_since: None,
            unit_id: None,
            pid: None,
        }
    }

    /// Whether a unit becomes another when a service is started as it.
    pub open spec fn starts_as(self, after: Self, deployment_id: Seq<char>, now: i64) -> bool {
        &&& after == (WorkloadRuntime {
            service: true,
            generation: (self.generation + 1) as u64,
            state: Some(ActualState::Starting),
            held: false,
            supervised: true,
            deployment_id: after.deployment_id,
            started_at: Some(now),
            running_since: None,
            finished_at: None,
            exit_code: None,
            error: None,
            health: None,
            log_directory: after.log_directory,
            ..self
        })
        &&& opt_text(after.deployment_id) == Some(deployment_id)
        &&& after.log_directory is Some
    }

    /// Start a service: a new generation of the unit, with nothing left of
    /// how the last one ended. Returns the generation.
    pub fn start(&mut self, deployment_id: String, log_directory: String, now: i64) -> (r: u64)
        requires
            old(self).generation < u64::MAX,
        ensures
            r == old(self).generation + 1,
            *final(self) == (WorkloadRuntime {
                service: true,
                generation: r,
                state: Some(ActualState::Starting),
                held: false,
                supervised: true,
                deployment_id: Some(deployment_id),
                started_at: Some(now),
                running_since: None,
                finished_at: None,
                exit_code: None,
                error: None,
                health: None,
                log_directory: Some(log_directory),
                ..*old(self)
            }),
    {
        self.service = true;
        self.generation = self.generation + 1;
        self.state = Some(ActualState::Starting);
        self.held = false;
        self.supervised = true;
        self.deployment_id = Some(deployment_id);
        self.started_at = Some(now);
        self.running_since = None;
        self.finished_at = None;
        self.exit_code = None;
        self.error = None;
        self.health = None;
        self.log_directory = Some(log_directory);
        self.generation
    }

    /// Run a task: a new generation of the unit. Returns the generation.
    pub fn run(&mut self, now: i64) -> (r: u64)
        requires
            old(self).generation < u64::MAX,
        ensures
            r == old(self).generation + 1,
            *final(self) == (WorkloadRuntime {
                generation: r,
                state: Some(ActualState::Running),
                started_at: Some(now),
                finished_at: None,
                ..*old(self)
            }),
    {
        self.generation = self.generation + 1;
        self.state = Some(ActualState::Running);
        self.started_at = Some(now);
        self.finished_at = None;
        self.generation
    }

    /// A service was admitted and its process is about to run, unless a
    /// newer generation superseded it. Returns whether it was stopped before
    /// it started; it then does not run.
    pub fn admitted(
        &mut self,
        generation: u64,
        cancelled: bool,
        decision: AdmissionIds,
        placement: PlacementView,
        now: i64,
    ) -> (r: bool)
        ensures
            r == (old(self).generation == generation && cancelled),
            if old(self).generation != generation || cancelled {
                *final(self) == *old(self)
            } else {
                &&& final(self).state == Some(ActualState::Running)
                &&& final(self).running_since == Some(now)
                &&& final(self).placement == placement
                &&& *final(self) == (WorkloadRuntime {
                    state: Some(ActualState::Running),
                    running_since: Some(now),
                    placement,
                    evidence: final(self).evidence,
                    ..*old(self)
                })
                &&& final(self).evidence == (Evidence {
                    policy_id: Some(decision.policy_id),
                    admission_id: Some(decision.admission_id),
                    receipt_ids: old(self).evidence.receipt_ids,
                })
            },
    {
        if self.generation != generation {
            return false;
        }
        if cancelled {
            return true;
        }
        self.state = Some(ActualState::Running);
        self.running_since = Some(now);
        self.evidence.policy_id = Some(decision.policy_id);
        self.evidence.admission_id = Some(decision.admission_id);
        self.placement = placement;
        false
    }

    /// Supervise again a unit found running, without restarting it. Returns
    /// the generation.
    pub fn reattach(
        &mut self,
        deployment_id: String,
        unit_id: String,
        pid: Option<u32>,
        log_directory: Option<String>,
        placement: PlacementView,
        started_at: i64,
        now: i64,
    ) -> (r: u64)
        requires
            old(self).generation < u64::MAX,
        ensures
            r == old(self).generation + 1,
            *final(self) == (WorkloadRuntime {
                service: true,
                generation: r,
                state: Some(ActualState::Running),
                held: false,
                supervised: true,
                deployment_id: Some(deployment_id),
                started_at: Some(started_at),
                running_since: Some(now),
                finished_at: None,
                exit_code: None,
                error: None,
                log_directory,
                unit_id: Some(unit_id),
                pid,
                placement,
                ..*old(self)
            }),
    {
        self.service = true;
        self.generation = self.generation + 1;
        self.state = Some(ActualState::Running);
        self.held = false;
        self.supervised = true;
        self.deployment_id = Some(deployment_id);
        self.started_at = Some(started_at);
        self.running_since = Some(now);
        self.finished_at = None;
        self.exit_code = None;
        self.error = None;
        self.log_directory = log_directory;
        self.unit_id = Some(unit_id);
        self.pid = pid;
        self.placement = placement;
        self.generation
    }

    /// Ask a unit to stop: one that is starting or runs is now stopping.
    /// Returns whether it is to be cancelled.
    pub fn stop(&mut self) -> (r: bool)
        ensures
            r == is_active(old(self).state),
            *final(self) == (if r {
                WorkloadRuntime {
                    state: Some(ActualState::Stopping),
                    supervised: false,
                    ..*old(self)
                }
            } else {
                *old(self)
            }),
    {
        if active(self.state) {
            self.state = Some(ActualState::Stopping);
            self.supervised = false;
            true
        } else {
            false
        }
    }

    /// A unit that was asked to stop ended, or the wait for it was given up.
    pub fn stopped(&mut self, in_time: bool)
        ensures
            final(self).state == (if old(self).state == Some(ActualState::Stopping) {
                Some(ActualState::Stopped)
            } else {
                old(self).state
            }),
            if in_time {
                final(self).error == old(self).error
            } else {
                opt_text(final(self).error) == Some("service did not stop within 30s"@)
            },
            *final(self) == (WorkloadRuntime {
                state: final(self).state,
                error: final(self).error,
                ..*old(self)
            }),
    {
        if !in_time {
            self.error = Some("service did not stop within 30s".to_owned());
        }
        match self.state {
            Some(ActualState::Stopping) => {
                self.state = Some(ActualState::Stopped);
            },
            _ => {},
        }
    }

    /// Note the health observed of a unit: of one that runs, and of no
    /// other.
    pub fn note_health(&mut self, state: ActualState, health: Health)
        ensures
            *final(self) == (WorkloadRuntime {
                health: if state is Running {
                    Some(health)
                } else {
                    None
                },
                ..*old(self)
            }),
    {
        self.health = if state == ActualState::Running {
            Some(health)
        } else {
            None
        };
    }

    /// Let a held unit be started again by an explicit start.
    pub fn release_hold(&mut self)
        ensures
            *final(self) == (WorkloadRuntime { held: false, consecutive_failures: 0, ..*old(self) }),
    {
        self.held = false;
        self.consecutive_failures = 0;
    }

    /// Release a failed service's hold once its restart delay passed, if
    /// nothing newer happened to it. Returns whether it did.
    pub fn retry(&mut self, generation: u64) -> (r: bool)
        requires
            old(self).restarts < u64::MAX,
        ensures
            r == (old(self).generation == generation),
            *final(self) == (if r {
                WorkloadRuntime {
                    held: false,
                    restarts: (old(self).restarts + 1) as u64,
                    ..*old(self)
                }
            } else {
                *old(self)
            }),
    {
        if self.generation == generation {
            self.held = false;
            self.restarts = self.restarts + 1;
            true
        } else {
            false
        }
    }
}

/// What is remembered of recent executions' output after one more: the
/// output of at most so many executions, those with the last identifiers in
/// order.
pub open spec fn keeps_recent(
    before: Map<Seq<Seq<char>>, (String, String)>,
    key: Seq<Seq<char>>,
    output: (String, String),
    after: Seq<(String, (String, String))>,
) -> bool {
    exists|all: Seq<(String, (String, String))>|
        {
            &&& #[trigger] ascending(all)
            &&& map_of(all) == before.insert(key, output)
            &&& after == crate::execute::recent(all, RECENT_EXECUTIONS as nat)
        }
}

/// Remember an execution's output.
pub fn remember_output(
    outputs: &mut Table<String, (String, String)>,
    execution_id: String,
    stdout: String,
    stderr: String,
)
    ensures
        keeps_recent(
            old(outputs)@,
            key1(execution_id@),
            (stdout, stderr),
            final(outputs).rows(),
        ),
        final(outputs).rows().len() <= RECENT_EXECUTIONS,
        final(outputs).rows().len() <= 256,
{
    outputs.insert(execution_id, (stdout, stderr));
    let ghost all = outputs.rows();
    proof {
        use_type_invariant(&*outputs);
        outputs.lemma_ascending();
        assert(all.skip(0) =~= all);
    }
    let ghost mut dropped: int = 0;
    while outputs.len() > RECENT_EXECUTIONS
        invariant
            0 <= dropped <= all.len(),
            outputs.rows() == all.skip(dropped),
            dropped > 0 ==> outputs.rows().len() >= RECENT_EXECUTIONS,
        decreases outputs.rows().len(),
    {
        outputs.remove_first();
        proof {
            assert(all.skip(dropped).skip(1) =~= all.skip(dropped + 1));
            dropped = dropped + 1;
        }
    }
    proof {
        assert(ascending(all));
        if all.len() > RECENT_EXECUTIONS {
            assert(dropped == all.len() - RECENT_EXECUTIONS);
        }
    }
}

// ---- Laws -------------------------------------------------------------------

/// A unit that never ran is in no state, failed never, and is held by no
/// one.
pub proof fn law_new_units_have_not_run(unit: WorkloadRuntime)
    requires
        unit.is_fresh(),
    ensures
        unit.state is None,
        !is_active(unit.state),
        unit.generation == 0,
        unit.restarts == 0,
        unit.consecutive_failures == 0,
        !unit.held,
        !unit.supervised,
        unit.started_at is None,
        unit.finished_at is None,
        unit.exit_code is None,
        unit.pid is None,
        !unit.service,
        unit.deployment_id is None,
        unit.execution_id is None,
        unit.error is None,
        unit.placement.placement_id is None,
        unit.placement.provider is None,
        unit.placement.node is None,
        unit.evidence.policy_id is None,
        unit.evidence.admission_id is None,
        unit.evidence.receipt_ids@.len() == 0,
        unit.log_directory is None,
        unit.health is None,
        unit.running_since is None,
        unit.unit_id is None,
{
}

/// Starting a unit makes it a new generation of a service that starts now,
/// under supervision and held by no one, and forgets how it ended before;
/// how often it was restarted and failed is remembered.
pub proof fn law_started_units_begin_anew(
    before: WorkloadRuntime,
    after: WorkloadRuntime,
    deployment_id: Seq<char>,
    now: i64,
)
    requires
        before.starts_as(after, deployment_id, now),
        before.generation < u64::MAX,
    ensures
        after.service,
        after.state == Some(ActualState::Starting),
        is_active(after.state),
        after.generation == before.generation + 1,
        !after.held,
        after.supervised,
        opt_text(after.deployment_id) == Some(deployment_id),
        after.started_at == Some(now),
        after.running_since is None,
        after.finished_at is None,
        after.exit_code is None,
        after.error is None,
        after.health is None,
        after.restarts == before.restarts,
        after.consecutive_failures == before.consecutive_failures,
        after.execution_id == before.execution_id,
        after.unit_id == before.unit_id,
        after.pid == before.pid,
        after.log_directory is Some,
{
}

/// A unit is active exactly while it starts or runs.
pub proof fn law_active_units_start_or_run(state: ActualState)
    ensures
        !is_active(None),
        is_active(Some(state)) <==> state is Starting || state is Running,
{
}

} // verus!
