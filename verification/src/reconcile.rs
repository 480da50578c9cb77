//! The reconciler: durable desired state in, physical execution out, and
//! observed actual state back.

use vstd::prelude::*;

use crate::desired::{Desired, Unit, Want};
use crate::events::{
    fact, no_scope, text_fact, workload_scope, Datum, DatumText, EventKind, FactText, Key, Notice,
    Scope, ScopeText,
};
use crate::execute::WorkloadRuntime;
use crate::model::{copy_ports, ActualState, WorkloadKind};
use crate::ports::has_port;
use crate::release::Route;
use crate::runtime::{active, is_active};
use crate::search::positions;
use crate::state::{Stored, TrafficAssignmentRecord, WorkloadInstanceRecord, WorkloadRecord};
use crate::status::Health;
use crate::table::{key4, Keep, MapKey, Table};
use crate::text::{copy_option, decimal, decimal_text, opt_text, same, same_option};

verus! {

// ---- Converging -------------------------------------------------------------

/// The key of the unit an instance runs as.
pub open spec fn unit_key(instance: WorkloadInstanceRecord) -> Seq<Seq<char>> {
    key4(
        instance.environment@,
        instance.project@,
        instance.workload@,
        instance.deployment_id@,
    )
}

fn unit_of(instance: &WorkloadInstanceRecord) -> (r: Unit)
    ensures
        r.parts() == unit_key(*instance),
{
    let key = Desired::instance_key(instance);
    Unit::new(&key, &instance.deployment_id)
}

/// Whether an instance is to be started: it should run, and its unit is
/// neither starting or running nor held.
pub open spec fn should_start(
    desired: Desired,
    runtime: Map<Seq<Seq<char>>, WorkloadRuntime>,
    instance: WorkloadInstanceRecord,
) -> bool {
    &&& desired.wants(instance) == Want::Run
    &&& runtime.contains_key(unit_key(instance)) ==> {
        &&& !is_active(runtime[unit_key(instance)].state)
        &&& !runtime[unit_key(instance)].held
    }
}

/// The positions of the first `n` instances that are to be started.
pub open spec fn starting_upto(
    desired: Desired,
    runtime: Map<Seq<Seq<char>>, WorkloadRuntime>,
    n: nat,
) -> Seq<int>
    decreases n,
{
    if n == 0 {
        Seq::empty()
    } else {
        let before = starting_upto(desired, runtime, (n - 1) as nat);
        if should_start(desired, runtime, desired.instances.values()[n - 1].value) {
            before.push(n - 1)
        } else {
            before
        }
    }
}

/// What is wanted of a unit by the first `n` instances: of one no instance
/// runs as, that it stops.
pub open spec fn unit_want(desired: Desired, key: Seq<Seq<char>>, n: nat) -> Want
    decreases n,
{
    if n == 0 {
        Want::Stop
    } else {
        let instance = desired.instances.values()[n - 1].value;
        if unit_key(instance) == key {
            desired.wants(instance)
        } else {
            unit_want(desired, key, (n - 1) as nat)
        }
    }
}

fn find_want(desired: &Desired, unit: &Unit) -> (r: Want)
    ensures
        r == unit_want(*desired, unit.parts(), desired.instances.values().len()),
{
    let ghost instances = desired.instances.values();
    let mut want = Want::Stop;
    let mut i: usize = 0;
    while i < desired.instances.len()
        invariant
            i <= instances.len(),
            want == unit_want(*desired, unit.parts(), i as nat),
        decreases instances.len() - i,
    {
        let instance = &desired.instances.value_at(i).value;
        if unit_of(instance).matches(unit) {
            want = desired.want(instance);
        }
        i += 1;
    }
    want
}

/// Whether a unit is to be stopped: a service that is starting or runs and
/// that no instance wants kept.
pub open spec fn should_stop(desired: Desired, row: (Unit, WorkloadRuntime)) -> bool {
    &&& row.1.service
    &&& is_active(row.1.state)
    &&& unit_want(desired, row.0.parts(), desired.instances.values().len()) == Want::Stop
}

/// The positions of the first `n` units that are to be stopped.
pub open spec fn stopping_units(
    desired: Desired,
    rows: Seq<(Unit, WorkloadRuntime)>,
    n: nat,
) -> Seq<int>
    decreases n,
{
    if n == 0 {
        Seq::empty()
    } else {
        let before = stopping_units(desired, rows, (n - 1) as nat);
        if should_stop(desired, rows[n - 1]) {
            before.push(n - 1)
        } else {
            before
        }
    }
}

/// What converging starts and stops: positions of instances, and of units.
pub struct Convergence {
    pub to_start: Vec<usize>,
    pub to_stop: Vec<usize>,
}

/// Start every instance that should run and does not; stop every one that
/// runs and should not.
pub fn converge(desired: &Desired, runtime: &Table<Unit, WorkloadRuntime>) -> (r: Convergence)
    ensures
        positions(r.to_start@) == starting_upto(
            *desired,
            runtime@,
            desired.instances.values().len(),
        ),
        positions(r.to_stop@) == stopping_units(*desired, runtime.rows(), runtime.rows().len()),
{
    let ghost instances = desired.instances.values();
    let mut to_start: Vec<usize> = Vec::new();
    let mut i: usize = 0;
    proof {
        assert(positions(to_start@) =~= Seq::<int>::empty());
    }
    while i < desired.instances.len()
        invariant
            i <= instances.len(),
            positions(to_start@) == starting_upto(*desired, runtime@, i as nat),
        decreases instances.len() - i,
    {
        let instance = &desired.instances.value_at(i).value;
        let starts = if desired.want(instance) == Want::Run {
            match runtime.get(&unit_of(instance)) {
                Some(known) => !active(known.state) && !known.held,
                None => true,
            }
        } else {
            false
        };
        if starts {
            let ghost before = to_start@;
            to_start.push(i);
            proof {
                assert(positions(to_start@) =~= positions(before).push(i as int));
            }
        }
        i += 1;
    }
    let ghost rows = runtime.rows();
    let mut to_stop: Vec<usize> = Vec::new();
    let mut j: usize = 0;
    proof {
        assert(positions(to_stop@) =~= Seq::<int>::empty());
    }
    while j < runtime.len()
        invariant
            j <= rows.len(),
            positions(to_stop@) == stopping_units(*desired, rows, j as nat),
        decreases rows.len() - j,
    {
        let unit = runtime.key_at(j);
        let known = runtime.value_at(j);
        if known.service && active(known.state) && find_want(desired, unit) == Want::Stop {
            let ghost before = to_stop@;
            to_stop.push(j);
            proof {
                assert(positions(to_stop@) =~= positions(before).push(j as int));
            }
        }
        j += 1;
    }
    Convergence { to_start, to_stop }
}

/// Whether some instance runs as a unit.
pub open spec fn has_instance(desired: Desired, key: Seq<Seq<char>>) -> bool {
    exists|i: int|
        0 <= i < desired.instances.values().len() && unit_key(
            (#[trigger] desired.instances.values()[i]).value,
        ) == key
}

/// Whether some current task runs as a unit.
pub open spec fn has_task(desired: Desired, key: Seq<Seq<char>>) -> bool {
    exists|i: int|
        0 <= i < desired.workloads.rows().len() && task_key(
            #[trigger] desired.workloads.rows()[i],
        ) == Some(key)
}

/// The key of the unit a task runs as.
pub open spec fn task_key(row: (Key, Stored<WorkloadRecord>)) -> Option<Seq<Seq<char>>> {
    if row.1.value.kind == WorkloadKind::Task {
        Some(key4(row.0.0@, row.0.1@, row.0.2@, row.1.value.deployment_id@))
    } else {
        None
    }
}

/// Whether a unit is still remembered: an instance or a current task runs
/// as it, or it has not stopped yet.
pub fn is_remembered(desired: &Desired, unit: &Unit, runtime: &WorkloadRuntime) -> (r: bool)
    ensures
        r == remembers(*desired, unit.parts(), runtime.state),
{
    let mut i: usize = 0;
    while i < desired.instances.len()
        invariant
            i <= desired.instances.values().len(),
            forall|j: int|
                0 <= j < i ==> unit_key((#[trigger] desired.instances.values()[j]).value)
                    != unit.parts(),
        decreases desired.instances.values().len() - i,
    {
        if unit_of(&desired.instances.value_at(i).value).matches(unit) {
            return true;
        }
        i += 1;
    }
    let mut k: usize = 0;
    while k < desired.workloads.len()
        invariant
            k <= desired.workloads.rows().len(),
            forall|j: int|
                0 <= j < k ==> task_key(#[trigger] desired.workloads.rows()[j]) != Some(
                    unit.parts(),
                ),
        decreases desired.workloads.rows().len() - k,
    {
        let workload = &desired.workloads.value_at(k).value;
        if workload.kind == WorkloadKind::Task {
            if Unit::new(desired.workloads.key_at(k), &workload.deployment_id).matches(unit) {
                return true;
            }
        }
        k += 1;
    }
    if active(runtime.state) {
        return true;
    }
    match runtime.state {
        Some(ActualState::Stopping) => true,
        _ => false,
    }
}

/// Whether a unit in this state, by its key, is still remembered.
pub open spec fn remembers(desired: Desired, key: Seq<Seq<char>>, state: Option<ActualState>) -> bool {
    has_instance(desired, key) || has_task(desired, key) || is_active(state) || state == Some(
        ActualState::Stopping,
    )
}

/// Keeps the units that are still remembered.
struct Remembered<'a> {
    desired: &'a Desired,
}

impl<'a> Keep<Unit, WorkloadRuntime> for Remembered<'a> {
    closed spec fn keeps(&self, key: Seq<Seq<char>>, value: WorkloadRuntime) -> bool {
        remembers(*self.desired, key, value.state)
    }

    fn keep(&self, key: &Unit, value: &WorkloadRuntime) -> (r: bool) {
        is_remembered(self.desired, key, value)
    }
}

/// Forget the units that ended and that nothing runs as any more.
pub fn forget_ended(desired: &Desired, runtime: &mut Table<Unit, WorkloadRuntime>)
    ensures
        forall|unit: Seq<Seq<char>>| #[trigger]
            final(runtime)@.contains_key(unit) <==> old(runtime)@.contains_key(unit) && remembers(
                *desired,
                unit,
                old(runtime)@[unit].state,
            ),
        forall|unit: Seq<Seq<char>>| #[trigger]
            final(runtime)@.contains_key(unit) ==> final(runtime)@[unit] == old(runtime)@[unit],
{
    runtime.retain(&Remembered { desired });
}

// ---- Endpoints --------------------------------------------------------------

/// The route an endpoint port has.
pub open spec fn route_at(routes: Seq<(u16, Route)>, port: u16, n: nat) -> Option<Route>
    decreases n,
{
    if n == 0 {
        None
    } else if routes[n - 1].0 == port {
        Some(routes[n - 1].1)
    } else {
        route_at(routes, port, (n - 1) as nat)
    }
}

/// Whether the data plane forwards an endpoint as its assignment says.
pub open spec fn follows_assignment(
    routes: Seq<(u16, Route)>,
    assignment: TrafficAssignmentRecord,
) -> bool {
    match route_at(routes, assignment.host_port, routes.len()) {
        Some(route) => route.instance_id@ == assignment.instance_id@ && route.target_port
            == assignment.target_port,
        None => false,
    }
}

fn is_followed(routes: &Vec<(u16, Route)>, assignment: &TrafficAssignmentRecord) -> (r: bool)
    ensures
        r == follows_assignment(routes@, *assignment),
{
    let mut i: usize = routes.len();
    while i > 0
        invariant
            i <= routes@.len(),
            route_at(routes@, assignment.host_port, routes@.len()) == route_at(
                routes@,
                assignment.host_port,
                i as nat,
            ),
        decreases i,
    {
        i -= 1;
        if routes[i].0 == assignment.host_port {
            return same(&routes[i].1.instance_id, &assignment.instance_id)
                && routes[i].1.target_port == assignment.target_port;
        }
    }
    false
}

/// The positions of the first `n` assignments the data plane does not
/// follow.
pub open spec fn unfollowed(
    traffic: Seq<Stored<TrafficAssignmentRecord>>,
    routes: Seq<(u16, Route)>,
    n: nat,
) -> Seq<int>
    decreases n,
{
    if n == 0 {
        Seq::empty()
    } else {
        let before = unfollowed(traffic, routes, (n - 1) as nat);
        if follows_assignment(routes, traffic[n - 1].value) {
            before
        } else {
            before.push(n - 1)
        }
    }
}

/// Whether an endpoint port is assigned.
pub open spec fn port_is_assigned(traffic: Seq<Stored<TrafficAssignmentRecord>>, port: u16) -> bool {
    exists|i: int| 0 <= i < traffic.len() && (#[trigger] traffic[i]).value.host_port == port
}

/// How the data plane is brought to follow the assignments.
pub struct EndpointSync {
    /// Positions of the assignments to forward anew.
    pub assign: Vec<usize>,
    /// The ports that keep listening.
    pub keep: Vec<u16>,
    /// Whether some port listens that nothing is assigned to.
    pub stale: bool,
}

/// Point every endpoint at the instance its traffic assignment names.
/// Endpoints nothing is assigned to stop listening.
pub fn sync_endpoints(desired: &Desired, routes: &Vec<(u16, Route)>) -> (r: EndpointSync)
    ensures
        positions(r.assign@) == unfollowed(
            desired.traffic.values(),
            routes@,
            desired.traffic.values().len(),
        ),
        r.keep@.len() == desired.traffic.values().len(),
        forall|i: int|
            0 <= i < r.keep@.len() ==> (#[trigger] r.keep@[i])
                == desired.traffic.values()[i].value.host_port,
        r.stale == exists|i: int|
            0 <= i < routes@.len() && !port_is_assigned(
                desired.traffic.values(),
                (#[trigger] routes@[i]).0,
            ),
        r.stale <==> exists|i: int|
            0 <= i < routes@.len() && !r.keep@.contains((#[trigger] routes@[i]).0),
{
    let ghost traffic = desired.traffic.values();
    let mut assign: Vec<usize> = Vec::new();
    let mut keep: Vec<u16> = Vec::new();
    let mut i: usize = 0;
    proof {
        assert(positions(assign@) =~= Seq::<int>::empty());
    }
    while i < desired.traffic.len()
        invariant
            i <= traffic.len(),
            positions(assign@) == unfollowed(traffic, routes@, i as nat),
            keep@.len() == i,
            forall|j: int| 0 <= j < i ==> (#[trigger] keep@[j]) == traffic[j].value.host_port,
        decreases traffic.len() - i,
    {
        let assignment = &desired.traffic.value_at(i).value;
        keep.push(assignment.host_port);
        if !is_followed(routes, assignment) {
            let ghost before = assign@;
            assign.push(i);
            proof {
                assert(positions(assign@) =~= positions(before).push(i as int));
            }
        }
        i += 1;
    }
    let mut stale = false;
    let mut k: usize = 0;
    while k < routes.len()
        invariant
            k <= routes@.len(),
            stale == exists|j: int|
                0 <= j < k && !port_is_assigned(traffic, (#[trigger] routes@[j]).0),
        decreases routes@.len() - k,
    {
        let assigned = has_port(&keep, routes[k].0);
        proof {
            let port = routes@[k as int].0;
            if assigned {
                let j = choose|j: int| 0 <= j < keep@.len() && keep@[j] == port;
                assert(traffic[j].value.host_port == port);
            }
            if port_is_assigned(traffic, port) {
                let j = choose|j: int| 0 <= j < traffic.len() && (#[trigger] traffic[j]).value.host_port == port;
                assert(keep@[j] == port);
            }
            assert(assigned == port_is_assigned(traffic, port));
        }
        if !assigned {
            stale = true;
        }
        k += 1;
    }
    proof {
        assert forall|j: int| 0 <= j < routes@.len() implies port_is_assigned(
            traffic,
            (#[trigger] routes@[j]).0,
        ) == keep@.contains(routes@[j].0) by {
            let port = routes@[j].0;
            if keep@.contains(port) {
                let m = choose|m: int| 0 <= m < keep@.len() && keep@[m] == port;
                assert(traffic[m].value.host_port == port);
            }
            if port_is_assigned(traffic, port) {
                let m = choose|m: int|
                    0 <= m < traffic.len() && (#[trigger] traffic[m]).value.host_port == port;
                assert(keep@[m] == port);
            }
        }
    }
    EndpointSync { assign, keep, stale }
}

/// Why an endpoint could not be forwarded.
pub fn endpoint_error(endpoint: &str, port: u16, error: &str) -> (r: String)
    ensures
        r@ == "endpoint "@ + endpoint@ + " cannot listen on port "@ + decimal_text(port as nat)
            + ": "@ + error@,
{
    let mut text = "endpoint ".to_owned();
    text.append(endpoint);
    text.append(" cannot listen on port ");
    text.append(&decimal(port as u64));
    text.append(": ");
    text.append(error);
    text
}

/// Whether a port is among known errors.
pub open spec fn is_known(errors: Seq<(u16, String)>, port: u16) -> bool {
    exists|i: int| 0 <= i < errors.len() && (#[trigger] errors[i]).0 == port
}

/// The positions of the first `n` errors that are new.
pub open spec fn appeared_upto(
    errors: Seq<(u16, String)>,
    known: Seq<(u16, String)>,
    n: nat,
) -> Seq<int>
    decreases n,
{
    if n == 0 {
        Seq::empty()
    } else {
        let before = appeared_upto(errors, known, (n - 1) as nat);
        if is_known(known, errors[n - 1].0) {
            before
        } else {
            before.push(n - 1)
        }
    }
}

/// The positions of the endpoint errors that were not known before: each is
/// reported once.
pub fn appeared(errors: &Vec<(u16, String)>, known: &Vec<(u16, String)>) -> (r: Vec<usize>)
    ensures
        positions(r@) == appeared_upto(errors@, known@, errors@.len()),
{
    let mut r: Vec<usize> = Vec::new();
    let mut i: usize = 0;
    proof {
        assert(positions(r@) =~= Seq::<int>::empty());
    }
    while i < errors.len()
        invariant
            i <= errors@.len(),
            positions(r@) == appeared_upto(errors@, known@, i as nat),
        decreases errors@.len() - i,
    {
        let mut j: usize = 0;
        let mut old_one = false;
        while j < known.len() && !old_one
            invariant
                j <= known@.len(),
                old_one ==> is_known(known@, errors@[i as int].0),
                !old_one ==> forall|k: int|
                    0 <= k < j ==> (#[trigger] known@[k]).0 != errors@[i as int].0,
            decreases known@.len() - j,
        {
            if known[j].0 == errors[i].0 {
                proof {
                    assert(known@[j as int].0 == errors@[i as int].0);
                }
                old_one = true;
            }
            j += 1;
        }
        if !old_one {
            let ghost before = r@;
            r.push(i);
            proof {
                assert(positions(r@) =~= positions(before).push(i as int));
            }
        }
        i += 1;
    }
    r
}

// ---- Observing --------------------------------------------------------------

/// The state a workload is observed in: its unit's, or, when nothing ran,
/// pending for a task and stopped for a service.
pub open spec fn observed_state(runtime: Option<WorkloadRuntime>, kind: WorkloadKind) -> ActualState {
    if runtime is Some && runtime->0.state is Some {
        runtime->0.state->0
    } else if kind == WorkloadKind::Task {
        ActualState::Pending
    } else {
        ActualState::Stopped
    }
}

pub fn find_observed_state(runtime: Option<&WorkloadRuntime>, kind: WorkloadKind) -> (r: ActualState)
    ensures
        r == observed_state(
            match runtime {
                Some(runtime) => Some(*runtime),
                None => None,
            },
            kind,
        ),
{
    if let Some(runtime) = runtime {
        if let Some(state) = runtime.state {
            return state;
        }
    }
    match kind {
        WorkloadKind::Task => ActualState::Pending,
        WorkloadKind::Service => ActualState::Stopped,
    }
}

/// Health of a workload, by whether each port of the instance that serves
/// it accepts connections.
pub open spec fn health_of(kind: WorkloadKind, state: ActualState, accepts: Seq<bool>) -> Health {
    if kind == WorkloadKind::Service && state == ActualState::Running {
        if forall|i: int| 0 <= i < accepts.len() ==> #[trigger] accepts[i] {
            Health::Healthy
        } else {
            Health::Unhealthy
        }
    } else if state == ActualState::Failed || state == ActualState::Denied {
        Health::Unhealthy
    } else if kind == WorkloadKind::Task {
        Health::Healthy
    } else {
        Health::Unknown
    }
}

/// Health of a workload: a running service is healthy when every port of
/// the instance that serves it accepts connections.
pub fn workload_health(kind: WorkloadKind, state: ActualState, accepts: &Vec<bool>) -> (r: Health)
    ensures
        r == health_of(kind, state, accepts@),
{
    match (kind, state) {
        (WorkloadKind::Service, ActualState::Running) => {
            let mut i: usize = 0;
            while i < accepts.len()
                invariant
                    i <= accepts@.len(),
                    forall|j: int| 0 <= j < i ==> #[trigger] accepts@[j],
                decreases accepts@.len() - i,
            {
                if !accepts[i] {
                    proof {
                        assert(!accepts@[i as int]);
                    }
                    return Health::Unhealthy;
                }
                i += 1;
            }
            Health::Healthy
        },
        (_, ActualState::Failed) => Health::Unhealthy,
        (_, ActualState::Denied) => Health::Unhealthy,
        (WorkloadKind::Task, _) => Health::Healthy,
        _ => Health::Unknown,
    }
}

/// What is recorded when a service's health is observed: a first
/// observation says that it started, and that it is healthy if it is; later
/// ones say when its health changed.
pub open spec fn health_kinds(
    kind: WorkloadKind,
    state: ActualState,
    previous: Option<Health>,
    health: Health,
) -> Seq<EventKind> {
    if kind != WorkloadKind::Service || state != ActualState::Running {
        Seq::empty()
    } else {
        match previous {
            None => if health == Health::Healthy {
                seq![EventKind::ServiceStarted, EventKind::ServiceHealthy]
            } else {
                seq![EventKind::ServiceStarted]
            },
            Some(before) => if before == health {
                Seq::empty()
            } else if health == Health::Healthy {
                seq![EventKind::ServiceHealthy]
            } else {
                seq![EventKind::ServiceUnhealthy]
            },
        }
    }
}

/// What an observation of a service's health is recorded as.
pub fn health_events(
    kind: WorkloadKind,
    state: ActualState,
    previous: Option<Health>,
    health: Health,
) -> (r: Vec<EventKind>)
    ensures
        r@ == health_kinds(kind, state, previous, health),
{
    let mut r: Vec<EventKind> = Vec::new();
    if kind == WorkloadKind::Service && state == ActualState::Running {
        match previous {
            None => {
                r.push(EventKind::ServiceStarted);
                if health == Health::Healthy {
                    r.push(EventKind::ServiceHealthy);
                }
            },
            Some(before) => {
                if before != health {
                    r.push(
                        if health == Health::Healthy {
                            EventKind::ServiceHealthy
                        } else {
                            EventKind::ServiceUnhealthy
                        },
                    );
                }
            },
        }
    }
    proof {
        assert(r@ =~= health_kinds(kind, state, previous, health));
    }
    r
}

/// What is said of a service's health.
pub open spec fn health_text(key: Key, kind: EventKind) -> Seq<char> {
    key.2@ + (if kind == EventKind::ServiceStarted {
        " started in "@
    } else if kind == EventKind::ServiceHealthy {
        " is healthy in "@
    } else {
        " is unhealthy in "@
    }) + key.0@ + "/"@ + key.1@
}

pub fn health_message(key: &Key, kind: EventKind) -> (r: String)
    ensures
        r@ == health_text(*key, kind),
{
    let mut text = key.2.clone();
    match kind {
        EventKind::ServiceStarted => {
            text.append(" started in ");
        },
        EventKind::ServiceHealthy => {
            text.append(" is healthy in ");
        },
        _ => {
            text.append(" is unhealthy in ");
        },
    }
    text.append(&key.0);
    text.append("/");
    text.append(&key.1);
    text
}

/// What an observation of a workload's health is recorded with: that it
/// started comes with its ports.
pub open spec fn health_facts(workload: WorkloadRecord, kind: EventKind) -> Seq<FactText> {
    if kind == EventKind::ServiceStarted {
        seq![fact("ports"@, DatumText::Ports(workload.ports@))]
    } else {
        seq![]
    }
}

/// What an observation of a workload's health reports.
pub fn health_notices(
    key: &Key,
    workload: &WorkloadRecord,
    state: ActualState,
    previous: Option<Health>,
    health: Health,
) -> (r: Vec<Notice>)
    ensures
        r@.len() == health_kinds(workload.kind, state, previous, health).len(),
        forall|i: int|
            0 <= i < r@.len() ==> (#[trigger] r@[i]).says(
                health_kinds(workload.kind, state, previous, health)[i],
                ScopeText {
                    deployment_id: Some(workload.deployment_id@),
                    ..workload_scope(key.0@, key.1@, key.2@)
                },
                health_text(*key, health_kinds(workload.kind, state, previous, health)[i]),
                health_facts(
                    *workload,
                    health_kinds(workload.kind, state, previous, health)[i],
                ),
            ),
{
    let kinds = health_events(workload.kind, state, previous, health);
    let mut r: Vec<Notice> = Vec::new();
    let mut i: usize = 0;
    while i < kinds.len()
        invariant
            i <= kinds@.len(),
            r@.len() == i,
            forall|j: int|
                0 <= j < i ==> (#[trigger] r@[j]).says(
                    kinds@[j],
                    ScopeText {
                        deployment_id: Some(workload.deployment_id@),
                        ..workload_scope(key.0@, key.1@, key.2@)
                    },
                    health_text(*key, kinds@[j]),
                    health_facts(*workload, kinds@[j]),
                ),
        decreases kinds@.len() - i,
    {
        let kind = kinds[i];
        let scope = Scope::workload(key).deployment(&workload.deployment_id);
        let notice = Notice::new(kind, scope, health_message(key, kind));
        r.push(
            if kind == EventKind::ServiceStarted {
                notice.with("ports", Datum::Ports(copy_ports(&workload.ports)))
            } else {
                notice
            },
        );
        i += 1;
    }
    r
}

/// A host port cannot listen, and why.
pub fn endpoint_unavailable(port: u16, message: String) -> (r: Notice)
    ensures
        r.says(
            EventKind::EndpointUnavailable,
            no_scope(),
            message@,
            seq![
                text_fact("failure"@, "endpoint_unavailable"@),
                fact("host_port"@, DatumText::Number(port as int)),
            ],
        ),
{
    Notice::new(EventKind::EndpointUnavailable, Scope::default(), message).with(
        "failure",
        Datum::text("endpoint_unavailable"),
    ).with("host_port", Datum::Number(port as u64))
}

/// What was observed of a workload, as it is stored.
#[derive(Debug)]
pub struct WorkloadStatusRecord {
    pub workload_id: String,
    pub environment: String,
    pub project: String,
    pub workload: String,
    pub actual_state: String,
    pub health: String,
    pub deployment_id: Option<String>,
    pub execution_id: Option<String>,
    pub restarts: u64,
    pub error: Option<String>,
    pub observed_by: String,
    pub observed_at: i64,
}

/// Whether two observations say the same, whenever they were made.
pub open spec fn observes_the_same(left: WorkloadStatusRecord, right: WorkloadStatusRecord) -> bool {
    &&& left.actual_state@ == right.actual_state@
    &&& left.health@ == right.health@
    &&& opt_text(left.deployment_id) == opt_text(right.deployment_id)
    &&& opt_text(left.execution_id) == opt_text(right.execution_id)
    &&& left.restarts == right.restarts
    &&& opt_text(left.error) == opt_text(right.error)
    &&& left.observed_by@ == right.observed_by@
}

pub fn same_observation(left: &WorkloadStatusRecord, right: &WorkloadStatusRecord) -> (r: bool)
    ensures
        r == observes_the_same(*left, *right),
{
    same(&left.actual_state, &right.actual_state) && same(&left.health, &right.health)
        && same_option(&left.deployment_id, &right.deployment_id) && same_option(
        &left.execution_id,
        &right.execution_id,
    ) && left.restarts == right.restarts && same_option(&left.error, &right.error) && same(
        &left.observed_by,
        &right.observed_by,
    )
}

/// Whether `status` is what is observed of a workload.
pub open spec fn is_status(
    status: WorkloadStatusRecord,
    key: Key,
    workload: Stored<WorkloadRecord>,
    runtime: Option<WorkloadRuntime>,
    health: Health,
    observed_by: Seq<char>,
    now: i64,
) -> bool {
    &&& status.workload_id@ == workload.id@
    &&& status.environment@ == key.0@
    &&& status.project@ == key.1@
    &&& status.workload@ == key.2@
    &&& status.actual_state@ == observed_state(runtime, workload.value.kind).name()
    &&& status.health@ == health.name()
    &&& opt_text(status.deployment_id) == Some(workload.value.deployment_id@)
    &&& status.execution_id == (match runtime {
        Some(runtime) => runtime.execution_id,
        None => None,
    })
    &&& status.restarts == (match runtime {
        Some(runtime) => runtime.restarts,
        None => 0,
    })
    &&& status.error == (match runtime {
        Some(runtime) => runtime.error,
        None => None,
    })
    &&& status.observed_by@ == observed_by
    &&& status.observed_at == now
}

/// What is written of a workload's observation.
#[derive(Debug)]
pub enum StatusWrite {
    /// It says nothing new.
    Unchanged,
    Replace(WorkloadStatusRecord),
    Create(WorkloadStatusRecord),
}

/// Observe a workload through the unit that serves it. What says nothing
/// new is not written.
pub fn observe(
    key: &Key,
    workload: &Stored<WorkloadRecord>,
    runtime: Option<&WorkloadRuntime>,
    health: Health,
    stored: Option<&WorkloadStatusRecord>,
    observed_by: &str,
    now: i64,
) -> (r: StatusWrite)
    ensures
        ({
            let seen = match runtime {
                Some(runtime) => Some(*runtime),
                None => None,
            };
            match stored {
                None => r matches StatusWrite::Create(status) && is_status(
                    status,
                    *key,
                    *workload,
                    seen,
                    health,
                    observed_by@,
                    now,
                ),
                Some(stored) => match r {
                    StatusWrite::Create(_) => false,
                    StatusWrite::Replace(status) => is_status(
                        status,
                        *key,
                        *workload,
                        seen,
                        health,
                        observed_by@,
                        now,
                    ) && !observes_the_same(*stored, status),
                    StatusWrite::Unchanged => exists|status: WorkloadStatusRecord|
                        is_status(status, *key, *workload, seen, health, observed_by@, now)
                            && #[trigger] observes_the_same(*stored, status),
                },
            }
        }),
{
    let state = find_observed_state(runtime, workload.value.kind);
    let status = WorkloadStatusRecord {
        workload_id: workload.id.clone(),
        environment: key.0.clone(),
        project: key.1.clone(),
        workload: key.2.clone(),
        actual_state: state.as_str().to_owned(),
        health: health.as_str().to_owned(),
        deployment_id: Some(workload.value.deployment_id.clone()),
        execution_id: match runtime {
            Some(runtime) => copy_option(&runtime.execution_id),
            None => None,
        },
        restarts: match runtime {
            Some(runtime) => runtime.restarts,
            None => 0,
        },
        error: match runtime {
            Some(runtime) => copy_option(&runtime.error),
            None => None,
        },
        observed_by: observed_by.to_owned(),
        observed_at: now,
    };
    match stored {
        None => StatusWrite::Create(status),
        Some(stored) => {
            if same_observation(stored, &status) {
                StatusWrite::Unchanged
            } else {
                StatusWrite::Replace(status)
            }
        },
    }
}

// ---- Laws -------------------------------------------------------------------

/// Converging starts only what should run and is down, and is not held.
pub proof fn law_only_missing_instances_start(
    desired: Desired,
    runtime: Map<Seq<Seq<char>>, WorkloadRuntime>,
    n: nat,
    k: int,
)
    requires
        n <= desired.instances.values().len(),
        0 <= k < starting_upto(desired, runtime, n).len(),
    ensures
        ({
            let at = starting_upto(desired, runtime, n)[k];
            &&& 0 <= at < n
            &&& should_start(desired, runtime, desired.instances.values()[at].value)
        }),
    decreases n,
{
    if n > 0 && k < starting_upto(desired, runtime, (n - 1) as nat).len() {
        law_only_missing_instances_start(desired, runtime, (n - 1) as nat, k);
    }
}

/// Converging misses nothing: every instance that should run and is down,
/// and is not held, is started.
pub proof fn law_every_missing_instance_starts(
    desired: Desired,
    runtime: Map<Seq<Seq<char>>, WorkloadRuntime>,
    n: nat,
    at: int,
)
    requires
        n <= desired.instances.values().len(),
        0 <= at < n,
        should_start(desired, runtime, desired.instances.values()[at].value),
    ensures
        starting_upto(desired, runtime, n).contains(at),
    decreases n,
{
    let all = starting_upto(desired, runtime, n);
    let before = starting_upto(desired, runtime, (n - 1) as nat);
    if at == n - 1 {
        assert(all[all.len() - 1] == at);
    } else {
        law_every_missing_instance_starts(desired, runtime, (n - 1) as nat, at);
        let k = choose|k: int| 0 <= k < before.len() && before[k] == at;
        assert(all[k] == at);
    }
}

/// Converging stops only services that run and that nothing wants.
pub proof fn law_only_unwanted_units_stop(
    desired: Desired,
    rows: Seq<(Unit, WorkloadRuntime)>,
    n: nat,
    k: int,
)
    requires
        n <= rows.len(),
        0 <= k < stopping_units(desired, rows, n).len(),
    ensures
        ({
            let at = stopping_units(desired, rows, n)[k];
            &&& 0 <= at < n
            &&& should_stop(desired, rows[at])
        }),
    decreases n,
{
    if n > 0 && k < stopping_units(desired, rows, (n - 1) as nat).len() {
        law_only_unwanted_units_stop(desired, rows, (n - 1) as nat, k);
    }
}

/// No unit is both started and stopped in one cycle: what is started does
/// not run, and only what runs is stopped.
pub proof fn law_nothing_starts_and_stops(
    desired: Desired,
    runtime: Map<Seq<Seq<char>>, WorkloadRuntime>,
    row: (Unit, WorkloadRuntime),
    instance: WorkloadInstanceRecord,
)
    requires
        runtime.contains_key(row.0.parts()),
        runtime[row.0.parts()] == row.1,
        unit_key(instance) == row.0.parts(),
        should_start(desired, runtime, instance),
    ensures
        !should_stop(desired, row),
{
}

/// A unit that starts or runs, and that its only instance wants or lets
/// finish, is left alone: stopping one workload never stops another.
pub proof fn law_wanted_units_keep_running(
    desired: Desired,
    row: (Unit, WorkloadRuntime),
    at: int,
)
    requires
        0 <= at < desired.instances.values().len(),
        unit_key(desired.instances.values()[at].value) == row.0.parts(),
        forall|i: int|
            0 <= i < desired.instances.values().len() && i != at ==> unit_key(
                (#[trigger] desired.instances.values()[i]).value,
            ) != row.0.parts(),
        desired.wants(desired.instances.values()[at].value) != Want::Stop,
    ensures
        !should_stop(desired, row),
{
    lemma_only_want(desired, row.0.parts(), at, desired.instances.values().len());
}

proof fn lemma_only_want(desired: Desired, key: Seq<Seq<char>>, at: int, n: nat)
    requires
        0 <= at < n <= desired.instances.values().len(),
        unit_key(desired.instances.values()[at].value) == key,
        forall|i: int|
            0 <= i < n && i != at ==> unit_key((#[trigger] desired.instances.values()[i]).value)
                != key,
    ensures
        unit_want(desired, key, n) == desired.wants(desired.instances.values()[at].value),
    decreases n,
{
    if at < n - 1 {
        assert(unit_key(desired.instances.values()[n - 1].value) != key);
        lemma_only_want(desired, key, at, (n - 1) as nat);
    }
}

/// An instance is started exactly when it is wanted and its own unit, of the
/// same environment, project, workload and deployment, is neither starting
/// nor running nor held.
pub proof fn law_instances_start_once(
    desired: Desired,
    runtime: Map<Seq<Seq<char>>, WorkloadRuntime>,
    instance: WorkloadInstanceRecord,
)
    ensures
        ({
            let unit = key4(
                instance.environment@,
                instance.project@,
                instance.workload@,
                instance.deployment_id@,
            );
            should_start(desired, runtime, instance) <==> {
                &&& desired.wants(instance) == Want::Run
                &&& runtime.contains_key(unit) ==> {
                    &&& runtime[unit].state != Some(ActualState::Starting)
                    &&& runtime[unit].state != Some(ActualState::Running)
                    &&& !runtime[unit].held
                }
            }
        }),
{
}

/// Every running service that no instance wants is stopped: a unit that
/// nothing runs as any more, and one whose instance is not wanted.
pub proof fn law_every_unwanted_unit_stops(
    desired: Desired,
    rows: Seq<(Unit, WorkloadRuntime)>,
    n: nat,
    j: int,
)
    requires
        0 <= j < n <= rows.len(),
        rows[j].1.service,
        rows[j].1.state == Some(ActualState::Running) || rows[j].1.state == Some(
            ActualState::Starting,
        ),
        forall|i: int|
            0 <= i < desired.instances.values().len() && key4(
                desired.instances.values()[i].value.environment@,
                desired.instances.values()[i].value.project@,
                desired.instances.values()[i].value.workload@,
                desired.instances.values()[i].value.deployment_id@,
            ) == rows[j].0.parts() ==> desired.wants(
                (#[trigger] desired.instances.values()[i]).value,
            ) == Want::Stop,
    ensures
        stopping_units(desired, rows, n).contains(j),
    decreases n,
{
    lemma_unwanted(desired, rows[j].0.parts(), desired.instances.values().len());
    let after = stopping_units(desired, rows, n);
    if j == n - 1 {
        assert(should_stop(desired, rows[j]));
        assert(after[after.len() - 1] == j);
    } else {
        law_every_unwanted_unit_stops(desired, rows, (n - 1) as nat, j);
        let before = stopping_units(desired, rows, (n - 1) as nat);
        let k = choose|k: int| 0 <= k < before.len() && before[k] == j;
        assert(after[k] == j);
    }
}

/// A unit is unwanted when every instance that runs as it is.
proof fn lemma_unwanted(desired: Desired, key: Seq<Seq<char>>, n: nat)
    requires
        n <= desired.instances.values().len(),
        forall|i: int|
            0 <= i < desired.instances.values().len() && key4(
                desired.instances.values()[i].value.environment@,
                desired.instances.values()[i].value.project@,
                desired.instances.values()[i].value.workload@,
                desired.instances.values()[i].value.deployment_id@,
            ) == key ==> desired.wants((#[trigger] desired.instances.values()[i]).value)
                == Want::Stop,
    ensures
        unit_want(desired, key, n) == Want::Stop,
    decreases n,
{
    if n > 0 {
        lemma_unwanted(desired, key, (n - 1) as nat);
        assert(unit_key(desired.instances.values()[n - 1].value) == key ==> desired.wants(
            desired.instances.values()[n - 1].value,
        ) == Want::Stop);
    }
}

/// A unit is forgotten exactly when it neither starts, runs nor stops, no
/// instance runs as it, and no current task does.
pub proof fn law_only_ended_units_are_forgotten(
    desired: Desired,
    key: Seq<Seq<char>>,
    state: Option<ActualState>,
)
    ensures
        state == Some(ActualState::Starting) || state == Some(ActualState::Running) || state
            == Some(ActualState::Stopping) ==> remembers(desired, key, state),
        forall|i: int|
            0 <= i < desired.instances.values().len() && key4(
                desired.instances.values()[i].value.environment@,
                desired.instances.values()[i].value.project@,
                desired.instances.values()[i].value.workload@,
                desired.instances.values()[i].value.deployment_id@,
            ) == key ==> remembers(
                desired,
                unit_key((#[trigger] desired.instances.values()[i]).value),
                state,
            ),
        forall|i: int|
            0 <= i < desired.workloads.rows().len() && (#[trigger] desired.workloads.rows()[i])
                .1.value.kind == WorkloadKind::Task && key4(
                desired.workloads.rows()[i].0.0@,
                desired.workloads.rows()[i].0.1@,
                desired.workloads.rows()[i].0.2@,
                desired.workloads.rows()[i].1.value.deployment_id@,
            ) == key ==> remembers(desired, key, state),
        !has_instance(desired, key) && !has_task(desired, key) && (state is None || state == Some(
            ActualState::Stopped,
        ) || state == Some(ActualState::Failed) || state == Some(ActualState::Completed) || state
            == Some(ActualState::Denied)) ==> !remembers(desired, key, state),
{
    assert forall|i: int|
        0 <= i < desired.workloads.rows().len() && (#[trigger] desired.workloads.rows()[i])
            .1.value.kind == WorkloadKind::Task && key4(
            desired.workloads.rows()[i].0.0@,
            desired.workloads.rows()[i].0.1@,
            desired.workloads.rows()[i].0.2@,
            desired.workloads.rows()[i].1.value.deployment_id@,
        ) == key implies remembers(desired, key, state) by {
        assert(task_key(desired.workloads.rows()[i]) == Some(key));
    }
}

/// The route of a port is one of those it has, and there is none exactly
/// when no route has the port.
proof fn lemma_route_at(routes: Seq<(u16, Route)>, port: u16, n: nat)
    requires
        n <= routes.len(),
    ensures
        match route_at(routes, port, n) {
            Some(route) => exists|i: int|
                0 <= i < n && (#[trigger] routes[i]) == (port, route) && forall|j: int|
                    i < j < n ==> (#[trigger] routes[j]).0 != port,
            None => forall|i: int| 0 <= i < n ==> (#[trigger] routes[i]).0 != port,
        },
    decreases n,
{
    if n > 0 {
        lemma_route_at(routes, port, (n - 1) as nat);
        if routes[n - 1].0 == port {
            assert(routes[n - 1] == (port, routes[n - 1].1));
        } else if let Some(route) = route_at(routes, port, (n - 1) as nat) {
            let i = choose|i: int|
                0 <= i < n - 1 && (#[trigger] routes[i]) == (port, route) && forall|j: int|
                    i < j < n - 1 ==> (#[trigger] routes[j]).0 != port;
            assert(routes[i] == (port, route));
        }
    }
}

/// The data plane follows an assignment exactly when the endpoint's port is
/// forwarded, and to the instance and the port that the assignment names;
/// here with one route per port.
pub proof fn law_routes_follow_assignments(
    routes: Seq<(u16, Route)>,
    assignment: TrafficAssignmentRecord,
)
    requires
        forall|i: int, j: int|
            0 <= i < j < routes.len() ==> (#[trigger] routes[i]).0 != (#[trigger] routes[j]).0,
    ensures
        follows_assignment(routes, assignment) <==> exists|i: int|
            {
                &&& 0 <= i < routes.len()
                &&& (#[trigger] routes[i]).0 == assignment.host_port
                &&& routes[i].1.instance_id@ == assignment.instance_id@
                &&& routes[i].1.target_port == assignment.target_port
            },
{
    lemma_route_at(routes, assignment.host_port, routes.len());
    match route_at(routes, assignment.host_port, routes.len()) {
        Some(route) => {
            let i = choose|i: int|
                0 <= i < routes.len() && (#[trigger] routes[i]) == (assignment.host_port, route)
                    && forall|j: int|
                    i < j < routes.len() ==> (#[trigger] routes[j]).0 != assignment.host_port;
            assert(routes[i].0 == assignment.host_port);
        },
        None => {},
    }
}

/// Every assignment that the data plane does not follow is forwarded anew,
/// and no other.
pub proof fn law_unfollowed_assignments_are_forwarded(
    traffic: Seq<Stored<TrafficAssignmentRecord>>,
    routes: Seq<(u16, Route)>,
    n: nat,
    i: int,
)
    requires
        0 <= i < n <= traffic.len(),
    ensures
        unfollowed(traffic, routes, n).contains(i) <==> !follows_assignment(
            routes,
            traffic[i].value,
        ),
    decreases n,
{
    let before = unfollowed(traffic, routes, (n - 1) as nat);
    let after = unfollowed(traffic, routes, n);
    if i < n - 1 {
        law_unfollowed_assignments_are_forwarded(traffic, routes, (n - 1) as nat, i);
        if before.contains(i) {
            let k = choose|k: int| 0 <= k < before.len() && before[k] == i;
            assert(after[k] == i);
        }
        if after.contains(i) {
            let k = choose|k: int| 0 <= k < after.len() && after[k] == i;
            if k < before.len() {
                assert(before[k] == i);
            }
        }
    } else {
        lemma_unfollowed_below(traffic, routes, (n - 1) as nat);
        if after.contains(i) {
            let k = choose|k: int| 0 <= k < after.len() && after[k] == i;
            if k < before.len() {
                assert(before[k] < n - 1);
            }
        }
        if !follows_assignment(routes, traffic[i].value) {
            assert(after[after.len() - 1] == i);
        }
    }
}

proof fn lemma_unfollowed_below(
    traffic: Seq<Stored<TrafficAssignmentRecord>>,
    routes: Seq<(u16, Route)>,
    n: nat,
)
    ensures
        forall|k: int|
            0 <= k < unfollowed(traffic, routes, n).len() ==> (#[trigger] unfollowed(
                traffic,
                routes,
                n,
            )[k]) < n,
    decreases n,
{
    if n > 0 {
        lemma_unfollowed_below(traffic, routes, (n - 1) as nat);
        let before = unfollowed(traffic, routes, (n - 1) as nat);
        let after = unfollowed(traffic, routes, n);
        assert forall|k: int| 0 <= k < after.len() implies (#[trigger] after[k]) < n by {
            if k < before.len() {
                assert(after[k] == before[k]);
            }
        }
    }
}

/// A running service is healthy exactly when every port accepts connections;
/// what failed or was denied is unhealthy, whatever it is; a task that did
/// not fail is healthy, and nothing is known of a service that is down.
pub proof fn law_health_is_what_is_observed(
    kind: WorkloadKind,
    state: ActualState,
    accepts: Seq<bool>,
)
    ensures
        kind == WorkloadKind::Service && state == ActualState::Running ==> {
            &&& health_of(kind, state, accepts) == Health::Healthy <==> forall|i: int|
                0 <= i < accepts.len() ==> #[trigger] accepts[i]
            &&& health_of(kind, state, accepts) == Health::Unhealthy <==> exists|i: int|
                0 <= i < accepts.len() && !#[trigger] accepts[i]
        },
        state == ActualState::Failed || state == ActualState::Denied ==> health_of(
            kind,
            state,
            accepts,
        ) == Health::Unhealthy,
        kind == WorkloadKind::Task && state != ActualState::Failed && state != ActualState::Denied
            ==> health_of(kind, state, accepts) == Health::Healthy,
        kind == WorkloadKind::Service && (state == ActualState::Stopped || state
            == ActualState::Starting || state == ActualState::Stopping || state
            == ActualState::Pending) ==> health_of(kind, state, accepts) == Health::Unknown,
{
}

/// A service's health is reported when it is first seen and whenever it
/// changes, and is not repeated; nothing is reported of what does not run.
pub proof fn law_health_changes_are_reported_once(
    kind: WorkloadKind,
    state: ActualState,
    previous: Option<Health>,
    health: Health,
)
    ensures
        kind != WorkloadKind::Service || state != ActualState::Running ==> health_kinds(
            kind,
            state,
            previous,
            health,
        ).len() == 0,
        previous == Some(health) ==> health_kinds(kind, state, previous, health).len() == 0,
        kind == WorkloadKind::Service && state == ActualState::Running ==> {
            &&& previous is None ==> health_kinds(kind, state, previous, health).contains(
                EventKind::ServiceStarted,
            )
            &&& health == Health::Healthy && previous != Some(Health::Healthy) ==> health_kinds(
                kind,
                state,
                previous,
                health,
            ).contains(EventKind::ServiceHealthy)
            &&& health != Health::Healthy && previous == Some(Health::Healthy) ==> health_kinds(
                kind,
                state,
                previous,
                health,
            ) == seq![EventKind::ServiceUnhealthy]
            &&& health != Health::Healthy ==> !health_kinds(
                kind,
                state,
                previous,
                health,
            ).contains(EventKind::ServiceHealthy)
        },
{
    let kinds = health_kinds(kind, state, previous, health);
    if kind == WorkloadKind::Service && state == ActualState::Running {
        if previous is None {
            assert(kinds[0] == EventKind::ServiceStarted);
            if health == Health::Healthy {
                assert(kinds[1] == EventKind::ServiceHealthy);
            }
        } else if previous != Some(health) {
            assert(kinds.len() == 1);
            if health == Health::Healthy {
                assert(kinds[0] == EventKind::ServiceHealthy);
            }
        }
    }
}

/// A workload is observed as its unit is; where nothing ran, a task is
/// pending and a service stopped.
pub proof fn law_observations_are_the_units(runtime: Option<WorkloadRuntime>, kind: WorkloadKind)
    ensures
        runtime matches Some(unit) ==> (unit.state matches Some(state) ==> observed_state(
            runtime,
            kind,
        ) == state),
        runtime is None && kind == WorkloadKind::Task ==> observed_state(runtime, kind)
            == ActualState::Pending,
        runtime is None && kind == WorkloadKind::Service ==> observed_state(runtime, kind)
            == ActualState::Stopped,
{
}

/// What is stored of an observation names the workload it is of and says
/// what was seen; an observation that differs in anything but its time is
/// written again.
pub proof fn law_new_observations_are_written(
    left: WorkloadStatusRecord,
    right: WorkloadStatusRecord,
)
    ensures
        left.actual_state@ != right.actual_state@ || left.health@ != right.health@ || left.restarts
            != right.restarts || opt_text(left.error) != opt_text(right.error) || opt_text(
            left.deployment_id,
        ) != opt_text(right.deployment_id) || opt_text(left.execution_id) != opt_text(
            right.execution_id,
        ) || left.observed_by@ != right.observed_by@ <==> !observes_the_same(left, right),
{
}

/// An error of an endpoint is reported exactly when none was known of its
/// port.
pub proof fn law_endpoint_errors_are_reported_once(
    errors: Seq<(u16, String)>,
    known: Seq<(u16, String)>,
    n: nat,
    i: int,
)
    requires
        0 <= i < n <= errors.len(),
        forall|k: int| 0 <= k < known.len() ==> (#[trigger] known[k]).0 != errors[i].0,
    ensures
        appeared_upto(errors, known, n).contains(i),
    decreases n,
{
    let after = appeared_upto(errors, known, n);
    if i == n - 1 {
        assert(after[after.len() - 1] == i);
    } else {
        law_endpoint_errors_are_reported_once(errors, known, (n - 1) as nat, i);
        let before = appeared_upto(errors, known, (n - 1) as nat);
        let k = choose|k: int| 0 <= k < before.len() && before[k] == i;
        assert(after[k] == i);
    }
}

/// A workload's status is what was observed of it: under its own names,
/// with the state, health and restarts of what runs, and by whom and when.
pub proof fn law_statuses_are_what_was_observed(
    status: WorkloadStatusRecord,
    key: Key,
    workload: Stored<WorkloadRecord>,
    runtime: Option<WorkloadRuntime>,
    health: Health,
    observed_by: Seq<char>,
    now: i64,
)
    requires
        is_status(status, key, workload, runtime, health, observed_by, now),
    ensures
        status.workload_id@ == workload.id@,
        status.environment@ == key.0@,
        status.project@ == key.1@,
        status.workload@ == key.2@,
        status.actual_state@ == observed_state(runtime, workload.value.kind).name(),
        status.health@ == health.name(),
        status.deployment_id is Some,
        opt_text(status.deployment_id) == Some(workload.value.deployment_id@),
        status.observed_by@ == observed_by,
        status.observed_at == now,
        runtime is None ==> status.restarts == 0 && status.execution_id is None
            && status.error is None,
        runtime matches Some(running) ==> status.restarts == running.restarts
            && status.execution_id == running.execution_id && status.error == running.error,
{
}

/// What is wanted of a unit is what is wanted of the instance it runs for;
/// a unit of no instance is stopped.
pub proof fn law_units_are_wanted_as_their_instance(desired: Desired, key: Seq<Seq<char>>, n: nat)
    requires
        n <= desired.instances.values().len(),
    ensures
        (forall|i: int|
            0 <= i < n ==> unit_key((#[trigger] desired.instances.values()[i]).value) != key)
            ==> unit_want(desired, key, n) == Want::Stop,
        forall|i: int|
            (0 <= i < n && unit_key((#[trigger] desired.instances.values()[i]).value) == key
                && forall|j: int|
                i < j < n ==> unit_key((#[trigger] desired.instances.values()[j]).value) != key)
                ==> unit_want(desired, key, n) == desired.wants(
                desired.instances.values()[i].value,
            ),
    decreases n,
{
    if n > 0 {
        law_units_are_wanted_as_their_instance(desired, key, (n - 1) as nat);
        let last = desired.instances.values()[n - 1].value;
        assert forall|i: int|
            (0 <= i < n && unit_key((#[trigger] desired.instances.values()[i]).value) == key
                && forall|j: int|
                i < j < n ==> unit_key((#[trigger] desired.instances.values()[j]).value) != key)
            implies unit_want(desired, key, n) == desired.wants(
            desired.instances.values()[i].value,
        ) by {
            if i < n - 1 {
                assert(unit_key(desired.instances.values()[n - 1].value) != key);
            }
        }
    }
}

/// A port is served by the last route it was given.
pub proof fn law_ports_follow_their_last_route(
    routes: Seq<(u16, Route)>,
    port: u16,
    n: nat,
    i: int,
)
    requires
        n <= routes.len(),
    ensures
        route_at(routes, port, n) is None <==> forall|j: int|
            0 <= j < n ==> (#[trigger] routes[j]).0 != port,
        0 <= i < n && routes[i].0 == port && (forall|j: int|
            i < j < n ==> (#[trigger] routes[j]).0 != port) ==> route_at(routes, port, n) == Some(
            routes[i].1,
        ),
    decreases n,
{
    if n > 0 {
        law_ports_follow_their_last_route(routes, port, (n - 1) as nat, i);
        if routes[n - 1].0 == port && i < n - 1 {
            assert(routes[n - 1].0 == port);
        }
    }
}

} // verus!
