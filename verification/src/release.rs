//! Releases: zero-downtime deployment as a durable, resumable state machine.
//!
//! ```text
//! pending → starting → ready → network_ready → switching → active → draining → complete
//!    ╰─────────╰─────────╰──────────╰── failed        (what served keeps serving)
//!                                       switching/active ── rolled_back
//! ```
//!
//! Each step reads control state and what was observed of the node, and
//! decides at most one transition, so a daemon that restarts at any point
//! reloads the release and continues from its status. Nothing that serves
//! is stopped before traffic has moved; a release that fails before
//! `switching` leaves the previous revision serving, and one that fails
//! after it is rolled back to the previous revision.

use vstd::prelude::*;

use crate::desired::{workload_in, Desired};
use crate::error::EnvironmentError;
use crate::events::Key;
use crate::ids::{endpoint, endpoint_text};
use crate::model::{PortBinding, ReadinessCheck};
use crate::ports::{find_host, host_of};
use crate::readiness::{listens, path_or_root, proves_listening, status_is_good};
use crate::results::{
    domain_results, endpoint_results, verified_texts, DomainResult, DomainResultText,
    EndpointResult, EndpointResultText, NetworkResult, NetworkText, VerifiedEndpoint, VerifiedText,
};
use crate::routing::{
    endpoints_of, resolved_endpoints, route_to, routes_to, stored_membership, RouteChange,
};
use crate::search::{any, matching, positions};
use crate::state::{
    elapsed, passed, reached, since, status_since, DeploymentRecord, DeploymentStatus, DomainRecord,
    InstanceState, Stored, TrafficAssignmentRecord, WorkloadInstanceRecord,
};
use crate::table::{find, key1, key2, select, Test};
use crate::text::{decimal, decimal_text, opt_text, same, some_is};

verus! {

// ---- The next step ----------------------------------------------------------

/// What a release needs next.
#[derive(Debug, Clone, Copy, PartialEq, Eq, Structural)]
pub enum Step {
    /// Fail: the environment was destroyed.
    EnvironmentGone,
    /// Fail: the project was removed from the environment.
    ProjectGone,
    Complete,
    Admit,
    AwaitReadiness,
    VerifyNetwork,
    Switch,
    VerifySwitch,
    BeginDrain,
    FinishDrain,
    Nothing,
}

pub open spec fn instance_of_release(id: Seq<char>) -> spec_fn(Stored<WorkloadInstanceRecord>) -> bool {
    |instance: Stored<WorkloadInstanceRecord>| instance.value.deployment_id@ == id
}

struct InstanceOfRelease<'a> {
    id: &'a str,
}

impl<'a> Test<Stored<WorkloadInstanceRecord>> for InstanceOfRelease<'a> {
    closed spec fn pred(&self) -> spec_fn(Stored<WorkloadInstanceRecord>) -> bool {
        instance_of_release(self.id@)
    }

    fn test(&self, item: &Stored<WorkloadInstanceRecord>) -> (r: bool) {
        same(&item.value.deployment_id, self.id)
    }
}

/// What a release needs next. A deployment that is already current and has
/// no instances was recorded before releases: it has nothing to release.
pub open spec fn step_of(desired: Desired, release: Stored<DeploymentRecord>) -> Step {
    let record = release.value;
    let membership = stored_membership(desired, release);
    if !desired.environments@.contains_key(key1(record.environment@)) {
        Step::EnvironmentGone
    } else if membership is None {
        Step::ProjectGone
    } else {
        let current = opt_text(membership->0.value.deployment_id) == Some(release.id@);
        let early = record.status is Pending || record.status is Starting || record.status is Ready;
        if current && early && !any(desired.instances.values(), instance_of_release(release.id@)) {
            Step::Complete
        } else {
            match record.status {
                DeploymentStatus::Pending => Step::Admit,
                DeploymentStatus::Starting => Step::AwaitReadiness,
                DeploymentStatus::Ready => Step::VerifyNetwork,
                DeploymentStatus::NetworkReady => Step::Switch,
                DeploymentStatus::Switching => Step::VerifySwitch,
                DeploymentStatus::Active => Step::BeginDrain,
                DeploymentStatus::Draining => Step::FinishDrain,
                _ => Step::Nothing,
            }
        }
    }
}

/// What a release needs next.
pub fn step(desired: &Desired, release: &Stored<DeploymentRecord>) -> (r: Step)
    ensures
        r == step_of(*desired, *release),
{
    let record = &release.value;
    if desired.environments.at(&record.environment).is_none() {
        return Step::EnvironmentGone;
    }
    let membership = match desired.membership_of(&record.environment, &record.project) {
        Some(membership) => membership,
        None => {
            return Step::ProjectGone;
        },
    };
    let current = some_is(&membership.value.deployment_id, &release.id);
    let has_instances = find(
        &desired.instances,
        &InstanceOfRelease { id: &release.id },
    ).is_some();
    let early = match record.status {
        DeploymentStatus::Pending => true,
        DeploymentStatus::Starting => true,
        DeploymentStatus::Ready => true,
        _ => false,
    };
    if current && early && !has_instances {
        return Step::Complete;
    }
    match record.status {
        DeploymentStatus::Pending => Step::Admit,
        DeploymentStatus::Starting => Step::AwaitReadiness,
        DeploymentStatus::Ready => Step::VerifyNetwork,
        DeploymentStatus::NetworkReady => Step::Switch,
        DeploymentStatus::Switching => Step::VerifySwitch,
        DeploymentStatus::Active => Step::BeginDrain,
        DeploymentStatus::Draining => Step::FinishDrain,
        _ => Step::Nothing,
    }
}

/// Why a release whose environment or project is gone fails: the stage, and
/// the reason.
pub fn gone_reason(step: Step) -> (r: Option<(&'static str, &'static str)>)
    ensures
        match step {
            Step::EnvironmentGone => r matches Some(why) && why.0@ == "environment"@ && why.1@
                == "the environment was destroyed"@,
            Step::ProjectGone => r matches Some(why) && why.0@ == "project"@ && why.1@
                == "the project was removed from the environment"@,
            _ => r is None,
        },
{
    match step {
        Step::EnvironmentGone => Some(("environment", "the environment was destroyed")),
        Step::ProjectGone => Some(("project", "the project was removed from the environment")),
        _ => None,
    }
}

/// What a step decides.
#[derive(Debug, PartialEq, Eq)]
pub enum Next {
    /// The release goes to a status.
    Status(DeploymentStatus),
    /// The release fails, for a reason.
    Fail(String),
    /// The release is rolled back, for a reason.
    RollBack(String),
    /// Nothing changes yet.
    Wait,
}

impl Next {
    /// Whether a decision is to fail for a reason.
    pub open spec fn fails(self, reason: Seq<char>) -> bool {
        self matches Next::Fail(text) && text@ == reason
    }

    /// Whether a decision is to roll back for a reason.
    pub open spec fn rolls_back(self, reason: Seq<char>) -> bool {
        self matches Next::RollBack(text) && text@ == reason
    }

    /// The statuses a decision can lead to.
    pub open spec fn leads_to(self, status: DeploymentStatus) -> bool {
        match self {
            Next::Status(next) => status == next,
            Next::Fail(_) => status is Failed,
            // A release that replaced nothing is taken out of service and
            // fails.
            Next::RollBack(_) => status is RolledBack || status is Failed,
            Next::Wait => false,
        }
    }
}

// ---- ready: endpoints -------------------------------------------------------

/// An endpoint to verify before traffic moves to it.
#[derive(Debug)]
pub struct EndpointCheck {
    pub workload: String,
    pub port: String,
    pub endpoint: String,
    pub host: u16,
    /// The instance's own port behind it.
    pub target: Option<u16>,
    /// Whether the instance proved readiness on a port and must still
    /// accept connections there.
    pub must_answer: bool,
}

pub ghost struct EndpointText {
    pub workload: Seq<char>,
    pub port: Seq<char>,
    pub endpoint: Seq<char>,
    pub host: u16,
    pub target: Option<u16>,
    pub must_answer: bool,
}

impl View for EndpointCheck {
    type V = EndpointText;

    open spec fn view(&self) -> EndpointText {
        EndpointText {
            workload: self.workload@,
            port: self.port@,
            endpoint: self.endpoint@,
            host: self.host,
            target: self.target,
            must_answer: self.must_answer,
        }
    }
}

pub open spec fn check_views(checks: Seq<EndpointCheck>) -> Seq<EndpointText> {
    checks.map_values(|check: EndpointCheck| check@)
}

/// The checks of the first `n` endpoints of a workload.
pub open spec fn binding_checks(
    desired: Desired,
    release: Stored<DeploymentRecord>,
    workload: Seq<char>,
    instance: Stored<WorkloadInstanceRecord>,
    bindings: Seq<PortBinding>,
    n: nat,
) -> Seq<EndpointText>
    decreases n,
{
    if n == 0 {
        Seq::empty()
    } else {
        let environment = release.value.environment@;
        let project = release.value.project@;
        let binding = bindings[n - 1];
        binding_checks(desired, release, workload, instance, bindings, (n - 1) as nat).push(
            EndpointText {
                workload,
                port: binding.name@,
                endpoint: endpoint_text(environment, project, workload, binding.name@),
                host: binding.host,
                target: host_of(instance.value.ports@, binding.name@),
                must_answer: desired.should_run(environment, project, workload, release.id@)
                    && proves_listening(desired, release.id@, workload),
            },
        )
    }
}

/// The checks of a release's first `n` workloads: of each that has an
/// instance of the release, one per endpoint.
pub open spec fn endpoint_checks(
    desired: Desired,
    release: Stored<DeploymentRecord>,
    n: nat,
) -> Seq<EndpointText>
    decreases n,
{
    if n == 0 {
        Seq::empty()
    } else {
        let before = endpoint_checks(desired, release, (n - 1) as nat);
        let evidence = release.value.workloads@[n - 1];
        let environment = release.value.environment@;
        let project = release.value.project@;
        match desired.instance_at(environment, project, evidence.name@, release.id@) {
            Some(instance) => {
                let bindings = endpoints_of(desired, environment, project, evidence.name@, evidence);
                before + binding_checks(
                    desired,
                    release,
                    evidence.name@,
                    instance,
                    bindings,
                    bindings.len(),
                )
            },
            None => before,
        }
    }
}

/// The endpoints to verify before a release's traffic moves.
pub fn endpoints_to_verify(desired: &Desired, release: &Stored<DeploymentRecord>) -> (r: Vec<
    EndpointCheck,
>)
    ensures
        check_views(r@) == endpoint_checks(*desired, *release, release.value.workloads@.len()),
{
    let record = &release.value;
    let mut r: Vec<EndpointCheck> = Vec::new();
    let mut i: usize = 0;
    proof {
        assert(check_views(r@) =~= Seq::<EndpointText>::empty());
    }
    while i < record.workloads.len()
        invariant
            i <= record.workloads@.len(),
            check_views(r@) == endpoint_checks(*desired, *release, i as nat),
        decreases record.workloads@.len() - i,
    {
        let evidence = &record.workloads[i];
        let key: Key = (record.environment.clone(), record.project.clone(), evidence.name.clone());
        if let Some(instance) = desired.instance(&key, &release.id) {
            let bindings = resolved_endpoints(desired, &key, evidence);
            let must_answer = desired.workload_runs(&key, &release.id) && listens(
                desired,
                &release.id,
                &evidence.name,
            );
            let ghost before = check_views(r@);
            let mut j: usize = 0;
            proof {
                assert(before + Seq::<EndpointText>::empty() =~= before);
            }
            while j < bindings.len()
                invariant
                    j <= bindings@.len(),
                    check_views(r@) == before + binding_checks(
                        *desired,
                        *release,
                        evidence.name@,
                        *instance,
                        bindings@,
                        j as nat,
                    ),
                decreases bindings@.len() - j,
            {
                let binding = &bindings[j];
                let ghost so_far = r@;
                let check = EndpointCheck {
                    workload: evidence.name.clone(),
                    port: binding.name.clone(),
                    endpoint: endpoint(&key.0, &key.1, &key.2, &binding.name),
                    host: binding.host,
                    target: find_host(&instance.value.ports, &binding.name),
                    must_answer,
                };
                r.push(check);
                proof {
                    assert(check_views(r@) =~= check_views(so_far).push(check@));
                    assert(check_views(r@) =~= before + binding_checks(
                        *desired,
                        *release,
                        evidence.name@,
                        *instance,
                        bindings@,
                        (j + 1) as nat,
                    ));
                }
                j += 1;
            }
        }
        i += 1;
    }
    r
}

/// What was observed of an endpoint.
#[derive(Debug)]
pub struct EndpointProbe {
    /// Why the endpoint could not listen, when it was tried.
    pub error: Option<String>,
    /// Whether it listens already.
    pub listening: bool,
    /// Whether a listener could be bound there.
    pub bindable: bool,
    /// Whether the instance's port accepts connections.
    pub accepts: bool,
}

pub open spec fn cannot_listen_text(endpoint: Seq<char>, host: u16) -> Seq<char> {
    "endpoint "@ + endpoint + " cannot listen: port "@ + decimal_text(host as nat)
        + " is in use by another process"@
}

pub open spec fn stopped_accepting_text(workload: Seq<char>, port: Seq<char>) -> Seq<char> {
    workload + " stopped accepting connections on "@ + port
}

/// What an endpoint's observation holds against the release: a reason to
/// fail at once, a reason to fail once the timeout passed, or nothing.
pub ghost enum EndpointFault {
    Now(Seq<char>),
    Later(Seq<char>),
    Nothing,
}

pub open spec fn endpoint_fault(check: EndpointText, probe: EndpointProbe) -> EndpointFault {
    if probe.error is Some {
        EndpointFault::Now(probe.error->0@)
    } else if !probe.listening && !probe.bindable {
        EndpointFault::Now(cannot_listen_text(check.endpoint, check.host))
    } else if check.must_answer && !(check.target is Some && probe.accepts) {
        EndpointFault::Later(stopped_accepting_text(check.workload, check.port))
    } else {
        EndpointFault::Nothing
    }
}

/// The first fault from position `i` on.
pub open spec fn first_fault(
    checks: Seq<EndpointText>,
    probes: Seq<EndpointProbe>,
    i: int,
) -> EndpointFault
    decreases checks.len() - i,
{
    if i < 0 || i >= checks.len() {
        EndpointFault::Nothing
    } else {
        match endpoint_fault(checks[i], probes[i]) {
            EndpointFault::Nothing => first_fault(checks, probes, i + 1),
            fault => fault,
        }
    }
}

/// Verify a release's endpoints: the first that cannot listen fails the
/// release; one whose instance does not answer fails it once the timeout
/// passed; otherwise the release's network is ready.
pub fn verify_network(
    release: &DeploymentRecord,
    checks: &Vec<EndpointCheck>,
    probes: &Vec<EndpointProbe>,
    now: i64,
    switch_timeout_ms: u64,
) -> (r: Next)
    requires
        probes@.len() == checks@.len(),
    ensures
        match first_fault(check_views(checks@), probes@, 0) {
            EndpointFault::Now(reason) => r.fails(reason),
            EndpointFault::Later(reason) => if elapsed(now, since(*release)) > switch_timeout_ms
                * 1_000_000 {
                r.fails(reason)
            } else {
                r == Next::Wait
            },
            EndpointFault::Nothing => r == Next::Status(DeploymentStatus::NetworkReady),
        },
        forall|status: DeploymentStatus| #[trigger] r.leads_to(status) ==> reaches(Step::VerifyNetwork, status),
{
    let mut i: usize = 0;
    let ghost views = check_views(checks@);
    while i < checks.len()
        invariant
            i <= checks@.len(),
            first_fault(views, probes@, 0) == first_fault(views, probes@, i as int),
        decreases checks@.len() - i,
    {
        let check = &checks[i];
        let probe = &probes[i];
        proof {
            assert(views[i as int] == check@);
        }
        if let Some(error) = &probe.error {
            return Next::Fail(error.clone());
        }
        if !probe.listening && !probe.bindable {
            let mut text = "endpoint ".to_owned();
            text.append(&check.endpoint);
            text.append(" cannot listen: port ");
            text.append(&decimal(check.host as u64));
            text.append(" is in use by another process");
            return Next::Fail(text);
        }
        if check.must_answer && !(check.target.is_some() && probe.accepts) {
            if passed(now, status_since(release), switch_timeout_ms) {
                let mut text = check.workload.clone();
                text.append(" stopped accepting connections on ");
                text.append(&check.port);
                return Next::Fail(text);
            }
            return Next::Wait;
        }
        i += 1;
    }
    Next::Status(DeploymentStatus::NetworkReady)
}

pub open spec fn unhealthy_domain(environment: Seq<char>, project: Seq<char>) -> spec_fn(
    Stored<DomainRecord>,
) -> bool {
    |domain: Stored<DomainRecord>|
        {
            &&& domain.value.environment@ == environment
            &&& domain.value.project@ == project
            &&& domain.value.dns.status@ == "failed"@ || domain.value.tls.status@ == "failed"@
        }
}

struct UnhealthyDomain<'a> {
    environment: &'a str,
    project: &'a str,
}

impl<'a> Test<Stored<DomainRecord>> for UnhealthyDomain<'a> {
    closed spec fn pred(&self) -> spec_fn(Stored<DomainRecord>) -> bool {
        unhealthy_domain(self.environment@, self.project@)
    }

    fn test(&self, item: &Stored<DomainRecord>) -> (r: bool) {
        same(&item.value.environment, self.environment) && same(&item.value.project, self.project)
            && (same(&item.value.dns.status, "failed") || same(&item.value.tls.status, "failed"))
    }
}

/// Whether some domain of a release's project has failing DNS or TLS. That
/// belongs to the domain, not the revision: it is recorded and never holds a
/// release back.
pub fn network_degraded(desired: &Desired, release: &DeploymentRecord) -> (r: bool)
    ensures
        r == any(
            desired.domains.values(),
            unhealthy_domain(release.environment@, release.project@),
        ),
{
    find(
        &desired.domains,
        &UnhealthyDomain { environment: &release.environment, project: &release.project },
    ).is_some()
}

/// What an endpoint looked like when it was verified.
pub open spec fn endpoint_found(check: EndpointText, probe: EndpointProbe) -> EndpointResultText {
    EndpointResultText {
        endpoint: check.endpoint,
        host_port: check.host,
        target_port: check.target,
        listening: probe.listening,
        reachable: check.target is Some && probe.accepts,
    }
}

pub open spec fn domain_of(environment: Seq<char>, project: Seq<char>) -> spec_fn(
    Stored<DomainRecord>,
) -> bool {
    |domain: Stored<DomainRecord>|
        domain.value.environment@ == environment && domain.value.project@ == project
}

/// How a domain stood when a release of its project was verified.
pub open spec fn domain_found(domain: DomainRecord) -> DomainResultText {
    DomainResultText {
        domain: domain.name@,
        endpoint: endpoint_text(
            domain.environment@,
            domain.project@,
            domain.workload@,
            domain.port@,
        ),
        dns: domain.dns.status@,
        tls: domain.tls.status@,
        routing: domain.routing.status@,
    }
}

/// The network of a release as it was verified: every endpoint, and every
/// domain of its project.
pub open spec fn network_found(
    desired: Desired,
    release: DeploymentRecord,
    checks: Seq<EndpointText>,
    probes: Seq<EndpointProbe>,
    now: i64,
) -> NetworkText {
    let domains = desired.domains.values();
    let of_project = matching(domains, domain_of(release.environment@, release.project@));
    NetworkText {
        endpoints: Seq::new(checks.len(), |i: int| endpoint_found(checks[i], probes[i])),
        domains: of_project.map_values(|i: int| domain_found(domains[i].value)),
        degraded: any(domains, unhealthy_domain(release.environment@, release.project@)),
        verified_at: now,
    }
}

struct DomainOf<'a> {
    environment: &'a str,
    project: &'a str,
}

impl<'a> Test<Stored<DomainRecord>> for DomainOf<'a> {
    closed spec fn pred(&self) -> spec_fn(Stored<DomainRecord>) -> bool {
        domain_of(self.environment@, self.project@)
    }

    fn test(&self, item: &Stored<DomainRecord>) -> (r: bool) {
        same(&item.value.environment, self.environment) && same(&item.value.project, self.project)
    }
}

/// What is kept of a release's network once it was verified.
pub fn network_result(
    desired: &Desired,
    release: &DeploymentRecord,
    checks: &Vec<EndpointCheck>,
    probes: &Vec<EndpointProbe>,
    now: i64,
) -> (r: NetworkResult)
    requires
        probes@.len() == checks@.len(),
    ensures
        r@ == network_found(*desired, *release, check_views(checks@), probes@, now),
{
    let ghost wanted = network_found(*desired, *release, check_views(checks@), probes@, now);
    let mut endpoints: Vec<EndpointResult> = Vec::new();
    let mut i: usize = 0;
    proof {
        assert(endpoint_results(endpoints@) =~= wanted.endpoints.take(0));
    }
    while i < checks.len()
        invariant
            i <= checks@.len(),
            endpoint_results(endpoints@) == wanted.endpoints.take(i as int),
        decreases checks@.len() - i,
    {
        let check = &checks[i];
        let probe = &probes[i];
        let ghost before = endpoints@;
        endpoints.push(
            EndpointResult {
                endpoint: check.endpoint.clone(),
                host_port: check.host,
                target_port: check.target,
                listening: probe.listening,
                reachable: check.target.is_some() && probe.accepts,
            },
        );
        proof {
            assert(check_views(checks@)[i as int] == check@);
            assert(endpoint_results(endpoints@) =~= endpoint_results(before).push(
                wanted.endpoints[i as int],
            ));
            assert(wanted.endpoints.take(i + 1) =~= wanted.endpoints.take(i as int).push(
                wanted.endpoints[i as int],
            ));
        }
        i += 1;
    }
    let selected = select(
        &desired.domains,
        &DomainOf { environment: &release.environment, project: &release.project },
    );
    let mut domains: Vec<DomainResult> = Vec::new();
    let mut j: usize = 0;
    proof {
        assert(domain_results(domains@) =~= wanted.domains.take(0));
    }
    while j < selected.len()
        invariant
            j <= selected@.len(),
            selected@.len() == wanted.domains.len(),
            domain_results(domains@) == wanted.domains.take(j as int),
        decreases selected@.len() - j,
    {
        proof {
            assert(positions(selected@)[j as int] == selected@[j as int]);
        }
        let domain = &desired.domains.value_at(selected[j]).value;
        let ghost before = domains@;
        domains.push(
            DomainResult {
                domain: domain.name.clone(),
                endpoint: endpoint(
                    &domain.environment,
                    &domain.project,
                    &domain.workload,
                    &domain.port,
                ),
                dns: domain.dns.status.clone(),
                tls: domain.tls.status.clone(),
                routing: domain.routing.status.clone(),
            },
        );
        proof {
            assert(wanted.domains[j as int] == domain_found(*domain));
            assert(domain_results(domains@) =~= domain_results(before).push(
                domain_found(*domain),
            ));
            assert(wanted.domains.take(j + 1) =~= wanted.domains.take(j as int).push(
                wanted.domains[j as int],
            ));
        }
        j += 1;
    }
    proof {
        assert(wanted.endpoints.take(i as int) =~= wanted.endpoints);
        assert(wanted.domains.take(j as int) =~= wanted.domains);
    }
    NetworkResult {
        endpoints,
        domains,
        degraded: network_degraded(desired, release),
        verified_at: now,
    }
}

// ---- switching: verification through the data plane -------------------------

/// How an endpoint is verified once it forwards to its instance.
#[derive(Debug, PartialEq, Eq)]
pub enum SwitchProbe {
    /// The workload does not run, by desired state.
    NotRunning,
    /// A request through the endpoint must be answered well.
    Http { path: String },
    /// Forwarding is enough: readiness does not check a port.
    Forwarded,
    /// The instance's port must accept connections.
    Accepts,
}

/// An assignment to verify through the data plane.
#[derive(Debug)]
pub struct SwitchCheck {
    pub endpoint: String,
    pub host_port: u16,
    pub instance_id: String,
    pub target_port: u16,
    pub probe: SwitchProbe,
}

pub open spec fn assigned_to(id: Seq<char>) -> spec_fn(Stored<TrafficAssignmentRecord>) -> bool {
    |assignment: Stored<TrafficAssignmentRecord>| assignment.value.deployment_id@ == id
}

struct AssignedTo<'a> {
    id: &'a str,
}

impl<'a> Test<Stored<TrafficAssignmentRecord>> for AssignedTo<'a> {
    closed spec fn pred(&self) -> spec_fn(Stored<TrafficAssignmentRecord>) -> bool {
        assigned_to(self.id@)
    }

    fn test(&self, item: &Stored<TrafficAssignmentRecord>) -> (r: bool) {
        same(&item.value.deployment_id, self.id)
    }
}

/// Whether an assignment is verified with a request: its workload declares
/// an HTTP check, of any port or of this one.
pub open spec fn checked_by_http(
    desired: Desired,
    release_id: Seq<char>,
    assignment: TrafficAssignmentRecord,
) -> bool {
    match desired.released_workload(release_id, assignment.workload@) {
        Some(workload) => match workload.readiness {
            Some(readiness) => readiness.check == ReadinessCheck::Http && (readiness.port is None
                || readiness.port->0@ == assignment.port@),
            None => false,
        },
        None => false,
    }
}

/// Whether `check` is how an assignment of a release is verified.
pub open spec fn is_switch_check(
    check: SwitchCheck,
    desired: Desired,
    release_id: Seq<char>,
    assignment: TrafficAssignmentRecord,
) -> bool {
    &&& check.endpoint@ == assignment.endpoint@
    &&& check.host_port == assignment.host_port
    &&& check.instance_id@ == assignment.instance_id@
    &&& check.target_port == assignment.target_port
    &&& if !desired.should_run(
        assignment.environment@,
        assignment.project@,
        assignment.workload@,
        release_id,
    ) {
        check.probe == SwitchProbe::NotRunning
    } else if checked_by_http(desired, release_id, assignment) {
        check.probe matches SwitchProbe::Http { path } && path@ == path_or_root(
            desired.released_workload(release_id, assignment.workload@)->0.readiness->0.path,
        )
    } else if !proves_listening(desired, release_id, assignment.workload@) {
        check.probe == SwitchProbe::Forwarded
    } else {
        check.probe == SwitchProbe::Accepts
    }
}

fn http_path(desired: &Desired, release_id: &str, assignment: &TrafficAssignmentRecord) -> (r:
    Option<String>)
    ensures
        r is Some == checked_by_http(*desired, release_id@, *assignment),
        r matches Some(path) ==> path@ == path_or_root(
            desired.released_workload(release_id@, assignment.workload@)->0.readiness->0.path,
        ),
{
    if let Some(workload) = desired.revision_workload(release_id, &assignment.workload) {
        if let Some(readiness) = &workload.readiness {
            if readiness.check == ReadinessCheck::Http {
                let here = match &readiness.port {
                    Some(port) => same(port, &assignment.port),
                    None => true,
                };
                if here {
                    return Some(
                        match &readiness.path {
                            Some(path) => path.clone(),
                            None => "/".to_owned(),
                        },
                    );
                }
            }
        }
    }
    None
}

/// The assignments of a release, and how each is verified.
pub fn switch_checks(desired: &Desired, release_id: &str) -> (r: Vec<SwitchCheck>)
    ensures
        r@.len() == matching(desired.traffic.values(), assigned_to(release_id@)).len(),
        forall|i: int|
            0 <= i < r@.len() ==> is_switch_check(
                #[trigger] r@[i],
                *desired,
                release_id@,
                desired.traffic.values()[matching(
                    desired.traffic.values(),
                    assigned_to(release_id@),
                )[i]].value,
            ),
{
    let selected = select(&desired.traffic, &AssignedTo { id: release_id });
    let ghost wanted = matching(desired.traffic.values(), assigned_to(release_id@));
    let mut r: Vec<SwitchCheck> = Vec::new();
    let mut i: usize = 0;
    while i < selected.len()
        invariant
            i <= selected@.len(),
            r@.len() == i,
            selected@.len() == wanted.len(),
            forall|j: int|
                0 <= j < i ==> is_switch_check(
                    #[trigger] r@[j],
                    *desired,
                    release_id@,
                    desired.traffic.values()[wanted[j]].value,
                ),
        decreases selected@.len() - i,
    {
        proof {
            assert(positions(selected@)[i as int] == selected@[i as int]);
        }
        let assignment = &desired.traffic.value_at(selected[i]).value;
        let key: Key = (
            assignment.environment.clone(),
            assignment.project.clone(),
            assignment.workload.clone(),
        );
        let probe = if !desired.workload_runs(&key, release_id) {
            SwitchProbe::NotRunning
        } else {
            match http_path(desired, release_id, assignment) {
                Some(path) => SwitchProbe::Http { path },
                None => if !listens(desired, release_id, &assignment.workload) {
                    SwitchProbe::Forwarded
                } else {
                    SwitchProbe::Accepts
                },
            }
        };
        r.push(
            SwitchCheck {
                endpoint: assignment.endpoint.clone(),
                host_port: assignment.host_port,
                instance_id: assignment.instance_id.clone(),
                target_port: assignment.target_port,
                probe,
            },
        );
        i += 1;
    }
    r
}

/// Where an endpoint forwards to.
#[derive(Debug, PartialEq, Eq)]
pub struct Route {
    pub instance_id: String,
    pub target_port: u16,
}

impl Clone for Route {
    fn clone(&self) -> (r: Self)
        ensures
            r == *self,
    {
        Route { instance_id: self.instance_id.clone(), target_port: self.target_port }
    }
}

/// What was observed of an assignment through the data plane.
#[derive(Debug)]
pub struct SwitchObservation {
    pub route: Option<Route>,
    /// The status a request through the endpoint was answered with.
    pub status: Option<u16>,
    /// Whether the instance's port accepts connections.
    pub accepts: bool,
}

pub open spec fn not_forwarding_text(endpoint: Seq<char>, instance: Seq<char>) -> Seq<char> {
    "endpoint "@ + endpoint + " does not yet forward to "@ + instance
}

pub open spec fn optional_status_text(status: Option<u16>) -> Seq<char> {
    match status {
        Some(status) => "Some("@ + decimal_text(status as nat) + ")"@,
        None => "None"@,
    }
}

/// How an assignment was verified, or what is wrong with it.
pub open spec fn switch_result(check: SwitchCheck, seen: SwitchObservation) -> Result<
    Seq<char>,
    Seq<char>,
> {
    let forwards = seen.route is Some && seen.route->0.instance_id@ == check.instance_id@
        && seen.route->0.target_port == check.target_port;
    if !forwards {
        Err(not_forwarding_text(check.endpoint@, check.instance_id@))
    } else {
        match check.probe {
            SwitchProbe::NotRunning => Ok("not running by desired state"@),
            SwitchProbe::Http { path } => if seen.status is Some && status_is_good(seen.status->0) {
                Ok(
                    "GET "@ + path@ + " through the endpoint answered "@ + decimal_text(
                        seen.status->0 as nat,
                    ),
                )
            } else {
                Err(
                    "GET "@ + path@ + " through endpoint "@ + check.endpoint@ + " answered "@
                        + optional_status_text(seen.status),
                )
            },
            SwitchProbe::Forwarded => Ok(
                "the endpoint forwards to the instance; readiness does not check a port"@,
            ),
            SwitchProbe::Accepts => if seen.accepts {
                Ok("the endpoint forwards to an instance that accepts connections"@)
            } else {
                Err("the instance behind "@ + check.endpoint@ + " does not accept connections"@)
            },
        }
    }
}

/// Verify one assignment.
pub fn verify_assignment(check: &SwitchCheck, seen: &SwitchObservation) -> (r: Result<
    String,
    String,
>)
    ensures
        match r {
            Ok(text) => switch_result(*check, *seen) == Ok::<Seq<char>, Seq<char>>(text@),
            Err(text) => switch_result(*check, *seen) == Err::<Seq<char>, Seq<char>>(text@),
        },
        r is Ok <==> {
            &&& seen.route matches Some(route) && route.instance_id@ == check.instance_id@
                && route.target_port == check.target_port
            &&& check.probe is Http ==> (seen.status matches Some(status) && 200 <= status
                && status < 400)
            &&& check.probe is Accepts ==> seen.accepts
        },
{
    let forwards = match &seen.route {
        Some(route) => same(&route.instance_id, &check.instance_id) && route.target_port
            == check.target_port,
        None => false,
    };
    if !forwards {
        let mut text = "endpoint ".to_owned();
        text.append(&check.endpoint);
        text.append(" does not yet forward to ");
        text.append(&check.instance_id);
        return Err(text);
    }
    match &check.probe {
        SwitchProbe::NotRunning => Ok("not running by desired state".to_owned()),
        SwitchProbe::Http { path } => {
            let mut text = "GET ".to_owned();
            text.append(path);
            match seen.status {
                Some(status) => {
                    if 200 <= status && status < 400 {
                        text.append(" through the endpoint answered ");
                        text.append(&decimal(status as u64));
                        return Ok(text);
                    }
                },
                None => {},
            }
            text.append(" through endpoint ");
            text.append(&check.endpoint);
            text.append(" answered ");
            match seen.status {
                Some(status) => {
                    let mut shown = "Some(".to_owned();
                    shown.append(&decimal(status as u64));
                    shown.append(")");
                    text.append(&shown);
                },
                None => {
                    text.append("None");
                },
            }
            Err(text)
        },
        SwitchProbe::Forwarded => Ok(
            "the endpoint forwards to the instance; readiness does not check a port".to_owned(),
        ),
        SwitchProbe::Accepts => {
            if seen.accepts {
                Ok("the endpoint forwards to an instance that accepts connections".to_owned())
            } else {
                let mut text = "the instance behind ".to_owned();
                text.append(&check.endpoint);
                text.append(" does not accept connections");
                Err(text)
            }
        },
    }
}

/// The first problem from position `i` on.
pub open spec fn first_problem(
    checks: Seq<SwitchCheck>,
    seen: Seq<SwitchObservation>,
    i: int,
) -> Option<Seq<char>>
    decreases checks.len() - i,
{
    if i < 0 || i >= checks.len() {
        None
    } else {
        match switch_result(checks[i], seen[i]) {
            Ok(_) => first_problem(checks, seen, i + 1),
            Err(problem) => Some(problem),
        }
    }
}

/// Verify that the data plane follows a release's assignments. The first
/// problem rolls the release back once the timeout passed; without one the
/// release is active.
pub fn verify_switch(
    release: &DeploymentRecord,
    checks: &Vec<SwitchCheck>,
    seen: &Vec<SwitchObservation>,
    now: i64,
    switch_timeout_ms: u64,
) -> (r: Next)
    requires
        seen@.len() == checks@.len(),
    ensures
        match first_problem(checks@, seen@, 0) {
            Some(problem) => if elapsed(now, since(*release)) > switch_timeout_ms * 1_000_000 {
                r.rolls_back(problem)
            } else {
                r == Next::Wait
            },
            None => r == Next::Status(DeploymentStatus::Active),
        },
        forall|status: DeploymentStatus| #[trigger] r.leads_to(status) ==> reaches(Step::VerifySwitch, status),
{
    let mut i: usize = 0;
    while i < checks.len()
        invariant
            i <= checks@.len(),
            first_problem(checks@, seen@, 0) == first_problem(checks@, seen@, i as int),
        decreases checks@.len() - i,
    {
        if let Err(problem) = verify_assignment(&checks[i], &seen[i]) {
            if passed(now, status_since(release), switch_timeout_ms) {
                return Next::RollBack(problem);
            }
            return Next::Wait;
        }
        i += 1;
    }
    Next::Status(DeploymentStatus::Active)
}

/// How those of a release's first `n` assignments that passed were verified.
pub open spec fn verified_upto(
    checks: Seq<SwitchCheck>,
    seen: Seq<SwitchObservation>,
    n: nat,
) -> Seq<VerifiedText>
    decreases n,
{
    if n == 0 {
        Seq::empty()
    } else {
        let before = verified_upto(checks, seen, (n - 1) as nat);
        match switch_result(checks[n - 1], seen[n - 1]) {
            Ok(verified) => before.push(
                VerifiedText { endpoint: checks[n - 1].endpoint@, verified },
            ),
            Err(_) => before,
        }
    }
}

/// What is kept of a release's assignments once they were verified.
pub fn verified_endpoints(checks: &Vec<SwitchCheck>, seen: &Vec<SwitchObservation>) -> (r: Vec<
    VerifiedEndpoint,
>)
    requires
        seen@.len() == checks@.len(),
    ensures
        verified_texts(r@) == verified_upto(checks@, seen@, checks@.len()),
{
    let mut r: Vec<VerifiedEndpoint> = Vec::new();
    let mut i: usize = 0;
    proof {
        assert(verified_texts(r@) =~= Seq::<VerifiedText>::empty());
    }
    while i < checks.len()
        invariant
            i <= checks@.len(),
            verified_texts(r@) == verified_upto(checks@, seen@, i as nat),
        decreases checks@.len() - i,
    {
        if let Ok(verified) = verify_assignment(&checks[i], &seen[i]) {
            let ghost before = r@;
            let endpoint = VerifiedEndpoint { endpoint: checks[i].endpoint.clone(), verified };
            r.push(endpoint);
            proof {
                assert(verified_texts(r@) =~= verified_texts(before).push(endpoint@));
            }
        }
        i += 1;
    }
    r
}

/// A release that becomes active has every assignment verified, and how is
/// kept of each.
pub proof fn law_active_releases_are_verified(
    checks: Seq<SwitchCheck>,
    seen: Seq<SwitchObservation>,
    i: int,
)
    requires
        seen.len() == checks.len(),
        first_problem(checks, seen, 0) is None,
        0 <= i < checks.len(),
    ensures
        switch_result(checks[i], seen[i]) is Ok,
        verified_upto(checks, seen, checks.len()).len() == checks.len(),
        verified_upto(checks, seen, checks.len())[i] == (VerifiedText {
            endpoint: checks[i].endpoint@,
            verified: switch_result(checks[i], seen[i])->Ok_0,
        }),
{
    lemma_no_problem(checks, seen, 0, i);
    lemma_verified(checks, seen, i, checks.len());
}

proof fn lemma_verified(
    checks: Seq<SwitchCheck>,
    seen: Seq<SwitchObservation>,
    i: int,
    n: nat,
)
    requires
        first_problem(checks, seen, 0) is None,
        0 <= i,
        n <= checks.len(),
    ensures
        verified_upto(checks, seen, n).len() == n,
        i < n ==> verified_upto(checks, seen, n)[i] == (VerifiedText {
            endpoint: checks[i].endpoint@,
            verified: switch_result(checks[i], seen[i])->Ok_0,
        }),
    decreases n,
{
    if n > 0 {
        lemma_no_problem(checks, seen, 0, n - 1);
        lemma_verified(checks, seen, i, (n - 1) as nat);
    }
}

/// Without a problem from `from` on, every later assignment passed.
proof fn lemma_no_problem(checks: Seq<SwitchCheck>, seen: Seq<SwitchObservation>, from: int, i: int)
    requires
        first_problem(checks, seen, from) is None,
        0 <= from <= i < checks.len(),
    ensures
        switch_result(checks[i], seen[i]) is Ok,
    decreases i - from,
{
    if from < i {
        lemma_no_problem(checks, seen, from + 1, i);
    }
}

// ---- draining → complete ----------------------------------------------------

pub open spec fn draining_in(environment: Seq<char>, project: Seq<char>) -> spec_fn(
    Stored<WorkloadInstanceRecord>,
) -> bool {
    |instance: Stored<WorkloadInstanceRecord>|
        {
            &&& instance.value.environment@ == environment
            &&& instance.value.project@ == project
            &&& instance.value.state == InstanceState::Draining
        }
}

struct DrainingIn<'a> {
    environment: &'a str,
    project: &'a str,
}

impl<'a> Test<Stored<WorkloadInstanceRecord>> for DrainingIn<'a> {
    closed spec fn pred(&self) -> spec_fn(Stored<WorkloadInstanceRecord>) -> bool {
        draining_in(self.environment@, self.project@)
    }

    fn test(&self, item: &Stored<WorkloadInstanceRecord>) -> (r: bool) {
        same(&item.value.environment, self.environment) && same(&item.value.project, self.project)
            && item.value.state == InstanceState::Draining
    }
}

/// A draining release waits until no instance of its project drains; then
/// it is complete.
pub fn finish_drain(desired: &Desired, release: &DeploymentRecord) -> (r: Next)
    ensures
        r == (if any(
            desired.instances.values(),
            draining_in(release.environment@, release.project@),
        ) {
            Next::Wait
        } else {
            Next::Status(DeploymentStatus::Complete)
        }),
        forall|status: DeploymentStatus| #[trigger] r.leads_to(status) ==> reaches(Step::FinishDrain, status),
{
    if find(
        &desired.instances,
        &DrainingIn { environment: &release.environment, project: &release.project },
    ).is_some() {
        Next::Wait
    } else {
        Next::Status(DeploymentStatus::Complete)
    }
}

pub open spec fn replaced_by(release: Stored<DeploymentRecord>) -> spec_fn(
    Stored<WorkloadInstanceRecord>,
) -> bool {
    |instance: Stored<WorkloadInstanceRecord>|
        {
            &&& instance.value.environment@ == release.value.environment@
            &&& instance.value.project@ == release.value.project@
            &&& instance.value.deployment_id@ != release.id@
            &&& instance.value.state.ended()
        }
}

struct ReplacedBy<'a> {
    release: &'a Stored<DeploymentRecord>,
}

impl<'a> Test<Stored<WorkloadInstanceRecord>> for ReplacedBy<'a> {
    closed spec fn pred(&self) -> spec_fn(Stored<WorkloadInstanceRecord>) -> bool {
        replaced_by(*self.release)
    }

    fn test(&self, item: &Stored<WorkloadInstanceRecord>) -> (r: bool) {
        same(&item.value.environment, &self.release.value.environment) && same(
            &item.value.project,
            &self.release.value.project,
        ) && !same(&item.value.deployment_id, &self.release.id) && item.value.state.has_ended()
    }
}

/// The positions of the instances a complete release makes history: those of
/// the project's other deployments that ended.
pub fn complete(desired: &Desired, release: &Stored<DeploymentRecord>) -> (r: Vec<usize>)
    ensures
        positions(r@) == matching(desired.instances.values(), replaced_by(*release)),
{
    select(&desired.instances, &ReplacedBy { release })
}

// ---- failure and rollback ---------------------------------------------------

pub open spec fn live_instance_of(id: Seq<char>) -> spec_fn(Stored<WorkloadInstanceRecord>) -> bool {
    |instance: Stored<WorkloadInstanceRecord>|
        instance.value.deployment_id@ == id && !instance.value.state.ended()
}

struct LiveInstanceOf<'a> {
    id: &'a str,
}

impl<'a> Test<Stored<WorkloadInstanceRecord>> for LiveInstanceOf<'a> {
    closed spec fn pred(&self) -> spec_fn(Stored<WorkloadInstanceRecord>) -> bool {
        live_instance_of(self.id@)
    }

    fn test(&self, item: &Stored<WorkloadInstanceRecord>) -> (r: bool) {
        same(&item.value.deployment_id, self.id) && !item.value.state.has_ended()
    }
}

/// What failing a release changes besides the release itself.
pub struct FailChange {
    /// Positions of its own instances, which fail.
    pub instances: Vec<usize>,
    /// The membership of a project that was never deployed, which is
    /// removed.
    pub membership: Option<String>,
}

/// Whether `change` is what failing a release changes: its own instances
/// that have not ended fail, and a membership without a current deployment
/// goes.
pub open spec fn fails_release(
    change: FailChange,
    desired: Desired,
    release: Stored<DeploymentRecord>,
) -> bool {
    &&& positions(change.instances@) == matching(
        desired.instances.values(),
        live_instance_of(release.id@),
    )
    &&& opt_text(change.membership) == (match stored_membership(desired, release) {
        Some(membership) => if membership.value.deployment_id is None {
            Some(membership.id@)
        } else {
            None
        },
        None => None,
    })
}

/// Fail a release that has not moved traffic. What served keeps serving;
/// the release's own instances stop.
pub fn fail(desired: &Desired, release: &Stored<DeploymentRecord>) -> (r: FailChange)
    ensures
        fails_release(r, *desired, *release),
{
    let membership = match desired.membership_of(
        &release.value.environment,
        &release.value.project,
    ) {
        Some(membership) => if membership.value.deployment_id.is_none() {
            Some(membership.id.clone())
        } else {
            None
        },
        None => None,
    };
    FailChange {
        instances: select(&desired.instances, &LiveInstanceOf { id: &release.id }),
        membership,
    }
}

pub open spec fn traffic_in(environment: Seq<char>, project: Seq<char>) -> spec_fn(
    Stored<TrafficAssignmentRecord>,
) -> bool {
    |assignment: Stored<TrafficAssignmentRecord>|
        assignment.value.environment@ == environment && assignment.value.project@ == project
}

/// Selects the traffic assignments of a project in an environment.
pub struct TrafficIn<'a> {
    pub environment: &'a str,
    pub project: &'a str,
}

impl<'a> Test<Stored<TrafficAssignmentRecord>> for TrafficIn<'a> {
    open spec fn pred(&self) -> spec_fn(Stored<TrafficAssignmentRecord>) -> bool {
        traffic_in(self.environment@, self.project@)
    }

    fn test(&self, item: &Stored<TrafficAssignmentRecord>) -> (r: bool) {
        same(&item.value.environment, self.environment) && same(&item.value.project, self.project)
    }
}

/// What rolling a release back changes.
pub enum RollBack {
    /// Nothing served before: the release is taken out of service and fails.
    TakeOut {
        /// Positions of the project's assignments, which are removed.
        traffic: Vec<usize>,
        /// Positions of the project's workloads, which are removed.
        workloads: Vec<usize>,
        membership: Option<String>,
        failure: FailChange,
    },
    /// Traffic returns to what the release replaced.
    Return(RouteChange),
}

/// Return traffic to the deployment a release replaced, or, when it
/// replaced nothing, take it out of service.
pub fn roll_back(
    desired: &Desired,
    release: &Stored<DeploymentRecord>,
    previous: Option<&Stored<DeploymentRecord>>,
    now: i64,
) -> (r: Result<RollBack, EnvironmentError>)
    ensures
        match previous {
            None => {
                &&& r matches Ok(RollBack::TakeOut { traffic, workloads, membership, failure })
                &&& positions(traffic@) == matching(
                    desired.traffic.values(),
                    traffic_in(release.value.environment@, release.value.project@),
                )
                &&& positions(workloads@) == matching(
                    desired.workloads.rows(),
                    workload_in(release.value.environment@, release.value.project@),
                )
                &&& opt_text(membership) == (match stored_membership(*desired, *release) {
                    Some(membership) => Some(membership.id@),
                    None => None,
                })
                &&& fails_release(failure, *desired, *release)
            },
            Some(previous) => match r {
                Ok(RollBack::Return(change)) => desired.revisions@.contains_key(
                    key1(previous.value.revision_id@),
                ) && routes_to(
                    change,
                    *desired,
                    *previous,
                    desired.revisions@[key1(previous.value.revision_id@)],
                    now,
                ),
                Ok(_) => false,
                Err(error) => !desired.revisions@.contains_key(key1(previous.value.revision_id@))
                    && error is NotFound && error.text() == "revision "@
                    + previous.value.revision_id@,
            },
        },
{
    match previous {
        None => Ok(
            RollBack::TakeOut {
                traffic: select(
                    &desired.traffic,
                    &TrafficIn {
                        environment: &release.value.environment,
                        project: &release.value.project,
                    },
                ),
                workloads: desired.workloads_of(
                    &release.value.environment,
                    &release.value.project,
                ),
                membership: match desired.membership_of(
                    &release.value.environment,
                    &release.value.project,
                ) {
                    Some(membership) => Some(membership.id.clone()),
                    None => None,
                },
                failure: fail(desired, release),
            },
        ),
        Some(previous) => match route_to(desired, previous, now) {
            Ok(change) => Ok(RollBack::Return(change)),
            Err(error) => Err(error),
        },
    }
}

/// How an operator's request to roll a release back is carried out.
#[derive(Debug)]
pub enum RollbackRequest {
    /// Its traffic never moved: it is abandoned, for a reason.
    Abandon(String),
    /// Its traffic moved: traffic returns to what it replaced, for a reason.
    Return(String),
    /// It is complete: the deployment it replaced is released again.
    ReleaseAgain { previous: String },
}

/// Roll a release back. Before its traffic moved, the release is abandoned;
/// after, traffic returns to what it replaced. A completed release is rolled
/// back by releasing the revision it replaced again, while it is current.
pub fn rollback(desired: &Desired, release: &Stored<DeploymentRecord>) -> (r: Result<
    RollbackRequest,
    EnvironmentError,
>)
    ensures
        match release.value.status {
            DeploymentStatus::Switching | DeploymentStatus::Active | DeploymentStatus::Draining =>
                r matches Ok(RollbackRequest::Return(reason)) && reason@
                    == "rolled back by an operator"@,
            DeploymentStatus::Complete => {
                let current = match stored_membership(*desired, *release) {
                    Some(membership) => opt_text(membership.value.deployment_id),
                    None => None,
                };
                if current != Some(release.id@) {
                    r matches Err(error) && error is Conflict && error.text() == release.id@
                        + " is not the current deployment of "@ + release.value.project@ + " in "@
                        + release.value.environment@
                } else {
                    match release.value.previous {
                        Some(replaced) => r matches Ok(RollbackRequest::ReleaseAgain { previous })
                            && previous@ == replaced@,
                        None => r matches Err(error) && error is Conflict && error.text()
                            == release.id@
                            + " replaced nothing; there is nothing to roll back to"@,
                    }
                }
            },
            DeploymentStatus::Failed | DeploymentStatus::RolledBack => r matches Err(error)
                && error is Conflict && error.text() == release.id@ + " is "@
                + release.value.status.name() + "; there is nothing to roll back"@,
            _ => r matches Ok(RollbackRequest::Abandon(reason)) && reason@
                == "rolled back by an operator before traffic moved"@,
        },
{
    match release.value.status {
        DeploymentStatus::Pending
        | DeploymentStatus::Starting
        | DeploymentStatus::Ready
        | DeploymentStatus::NetworkReady => Ok(
            RollbackRequest::Abandon("rolled back by an operator before traffic moved".to_owned()),
        ),
        DeploymentStatus::Switching | DeploymentStatus::Active | DeploymentStatus::Draining => Ok(
            RollbackRequest::Return("rolled back by an operator".to_owned()),
        ),
        DeploymentStatus::Complete => {
            let current = match desired.membership_of(
                &release.value.environment,
                &release.value.project,
            ) {
                Some(membership) => some_is(&membership.value.deployment_id, &release.id),
                None => false,
            };
            if !current {
                let mut text = release.id.clone();
                text.append(" is not the current deployment of ");
                text.append(&release.value.project);
                text.append(" in ");
                text.append(&release.value.environment);
                return Err(EnvironmentError::Conflict(text));
            }
            match &release.value.previous {
                Some(previous) => Ok(RollbackRequest::ReleaseAgain { previous: previous.clone() }),
                None => {
                    let mut text = release.id.clone();
                    text.append(" replaced nothing; there is nothing to roll back to");
                    Err(EnvironmentError::Conflict(text))
                },
            }
        },
        DeploymentStatus::Failed | DeploymentStatus::RolledBack => {
            let mut text = release.id.clone();
            text.append(" is ");
            text.append(release.value.status.as_str());
            text.append("; there is nothing to roll back");
            Err(EnvironmentError::Conflict(text))
        },
    }
}

// ---- instances outside releases ---------------------------------------------

pub open spec fn verifying_in(environment: Seq<char>, project: Seq<char>) -> spec_fn(
    Stored<DeploymentRecord>,
) -> bool {
    |release: Stored<DeploymentRecord>|
        {
            &&& release.value.status == DeploymentStatus::Switching
            &&& release.value.environment@ == environment
            &&& release.value.project@ == project
        }
}

struct VerifyingIn<'a> {
    environment: &'a str,
    project: &'a str,
}

impl<'a> Test<Stored<DeploymentRecord>> for VerifyingIn<'a> {
    closed spec fn pred(&self) -> spec_fn(Stored<DeploymentRecord>) -> bool {
        verifying_in(self.environment@, self.project@)
    }

    fn test(&self, item: &Stored<DeploymentRecord>) -> (r: bool) {
        item.value.status == DeploymentStatus::Switching && same(
            &item.value.environment,
            self.environment,
        ) && same(&item.value.project, self.project)
    }
}

/// Whether some route forwards to an instance.
pub open spec fn is_routed(routes: Seq<Route>, id: Seq<char>) -> bool {
    exists|i: int| 0 <= i < routes.len() && (#[trigger] routes[i]).instance_id@ == id
}

fn routes_to_instance(routes: &Vec<Route>, id: &str) -> (r: bool)
    ensures
        r == is_routed(routes@, id@),
{
    let mut i: usize = 0;
    while i < routes.len()
        invariant
            i <= routes@.len(),
            forall|j: int| 0 <= j < i ==> (#[trigger] routes@[j]).instance_id@ != id@,
        decreases routes@.len() - i,
    {
        if same(&routes[i].instance_id, id) {
            return true;
        }
        i += 1;
    }
    false
}

/// Whether a replaced instance may stop: it drains, no release of its
/// project is being verified, no endpoint routes to it, and its connections
/// are finished or the drain timeout passed.
pub open spec fn may_stop(
    desired: Desired,
    instance: Stored<WorkloadInstanceRecord>,
    routes: Seq<Route>,
    open: u64,
    now: i64,
    drain_timeout_ms: u64,
) -> bool {
    &&& instance.value.state == InstanceState::Draining
    &&& !any(
        desired.deployments.values(),
        verifying_in(instance.value.environment@, instance.value.project@),
    )
    &&& !(instance.value.ports@.len() > 0 && is_routed(routes, instance.id@))
    &&& open == 0 || elapsed(now, instance.value.updated_at) >= drain_timeout_ms * 1_000_000
}

/// The positions of the first `n` instances that may stop.
pub open spec fn stopping_upto(
    desired: Desired,
    n: nat,
    routes: Seq<Route>,
    open: Seq<u64>,
    now: i64,
    drain_timeout_ms: u64,
) -> Seq<int>
    decreases n,
{
    if n == 0 {
        Seq::empty()
    } else {
        let before = stopping_upto(desired, (n - 1) as nat, routes, open, now, drain_timeout_ms);
        if may_stop(
            desired,
            desired.instances.values()[n - 1],
            routes,
            open[n - 1],
            now,
            drain_timeout_ms,
        ) {
            before.push(n - 1)
        } else {
            before
        }
    }
}

/// Stop replaced instances once they have finished their connections, or
/// once the drain timeout passes. `open` holds the open connections of each
/// instance of the desired state.
pub fn drain_instances(
    desired: &Desired,
    routes: &Vec<Route>,
    open: &Vec<u64>,
    now: i64,
    drain_timeout_ms: u64,
) -> (r: Vec<usize>)
    requires
        open@.len() == desired.instances.values().len(),
    ensures
        positions(r@) == stopping_upto(
            *desired,
            desired.instances.values().len(),
            routes@,
            open@,
            now,
            drain_timeout_ms,
        ),
{
    let mut r: Vec<usize> = Vec::new();
    let ghost instances = desired.instances.values();
    let mut i: usize = 0;
    proof {
        assert(positions(r@) =~= Seq::<int>::empty());
    }
    while i < desired.instances.len()
        invariant
            i <= instances.len(),
            positions(r@) == stopping_upto(
                *desired,
                i as nat,
                routes@,
                open@,
                now,
                drain_timeout_ms,
            ),
        decreases instances.len() - i,
    {
        let instance = desired.instances.value_at(i);
        let verifying = find(
            &desired.deployments,
            &VerifyingIn {
                environment: &instance.value.environment,
                project: &instance.value.project,
            },
        ).is_some();
        if instance.value.state == InstanceState::Draining && !verifying && !(
        instance.value.ports.len() > 0 && routes_to_instance(routes, &instance.id)) && (open[i] == 0
            || reached(now, instance.value.updated_at, drain_timeout_ms)) {
            let ghost before = r@;
            r.push(i);
            proof {
                assert(positions(r@) =~= positions(before).push(i as int));
            }
        }
        i += 1;
    }
    r
}

/// What is said of an instance that stopped draining.
pub open spec fn drained_text(workload: Seq<char>, revision: Seq<char>, open: u64) -> Seq<char> {
    if open == 0 {
        workload + " "@ + revision + " drained and stopped"@
    } else {
        workload + " "@ + revision + " stopped after the drain timeout with "@ + decimal_text(
            open as nat,
        ) + " connection(s) open"@
    }
}

pub fn drained_message(workload: &str, revision: &str, open: u64) -> (r: String)
    ensures
        r@ == drained_text(workload@, revision@, open),
{
    let mut text = workload.to_owned();
    text.append(" ");
    text.append(revision);
    if open == 0 {
        text.append(" drained and stopped");
    } else {
        text.append(" stopped after the drain timeout with ");
        text.append(&decimal(open));
        text.append(" connection(s) open");
    }
    text
}

// ---- Laws -------------------------------------------------------------------

/// The statuses a step can take a release to.
pub open spec fn reaches(step: Step, status: DeploymentStatus) -> bool {
    match step {
        Step::EnvironmentGone => status is Failed,
        Step::ProjectGone => status is Failed,
        Step::Complete => status is Complete,
        Step::Admit => status is Starting || status is Failed,
        Step::AwaitReadiness => status is Ready || status is Failed,
        Step::VerifyNetwork => status is NetworkReady || status is Failed,
        Step::Switch => status is Switching,
        Step::VerifySwitch => status is Active || status is RolledBack || status is Failed,
        Step::BeginDrain => status is Draining,
        Step::FinishDrain => status is Complete,
        Step::Nothing => false,
    }
}

/// How far along a release is.
pub open spec fn progress(status: DeploymentStatus) -> int {
    match status {
        DeploymentStatus::Pending => 0,
        DeploymentStatus::Starting => 1,
        DeploymentStatus::Ready => 2,
        DeploymentStatus::NetworkReady => 3,
        DeploymentStatus::Switching => 4,
        DeploymentStatus::Active => 5,
        DeploymentStatus::Draining => 6,
        DeploymentStatus::Complete => 7,
        DeploymentStatus::Failed => 7,
        DeploymentStatus::RolledBack => 7,
    }
}

/// Whether the documented order of statuses has an arrow from one to the
/// other. A deployment recorded before releases may complete early.
pub open spec fn follows(from: DeploymentStatus, to: DeploymentStatus) -> bool {
    match from {
        DeploymentStatus::Pending => to is Starting || to is Failed || to is Complete,
        DeploymentStatus::Starting => to is Ready || to is Failed || to is Complete,
        DeploymentStatus::Ready => to is NetworkReady || to is Failed || to is Complete,
        DeploymentStatus::NetworkReady => to is Switching || to is Failed,
        DeploymentStatus::Switching => to is Active || to is RolledBack || to is Failed,
        DeploymentStatus::Active => to is Draining || to is Failed,
        DeploymentStatus::Draining => to is Complete || to is Failed,
        _ => false,
    }
}

/// A release in flight only moves along the documented order, and always
/// forward, so it ends.
pub proof fn law_releases_follow_the_order(
    desired: Desired,
    release: Stored<DeploymentRecord>,
    to: DeploymentStatus,
)
    requires
        !release.value.status.terminal(),
        reaches(step_of(desired, release), to),
    ensures
        follows(release.value.status, to),
        progress(to) > progress(release.value.status),
{
}

/// A release that ended, in an environment and project that still exist, is
/// never touched again.
pub proof fn law_ended_releases_stay(desired: Desired, release: Stored<DeploymentRecord>)
    requires
        release.value.status.terminal(),
        desired.environments@.contains_key(key1(release.value.environment@)),
        desired.memberships@.contains_key(
            key2(release.value.environment@, release.value.project@),
        ),
    ensures
        step_of(desired, release) == Step::Nothing,
{
}

/// Failing a release never touches an instance of another deployment: what
/// served keeps serving.
pub proof fn law_failure_spares_what_serves(
    desired: Desired,
    release: Stored<DeploymentRecord>,
    change: FailChange,
    k: int,
)
    requires
        fails_release(change, desired, release),
        0 <= k < change.instances@.len(),
    ensures
        0 <= change.instances@[k] < desired.instances.values().len(),
        desired.instances.values()[change.instances@[k] as int].value.deployment_id@ == release.id@,
{
    crate::search::lemma_matching_upto(
        desired.instances.values(),
        live_instance_of(release.id@),
        desired.instances.values().len(),
    );
    assert(positions(change.instances@)[k] == change.instances@[k]);
}

/// Completing a release only forgets instances that ended, never one of the
/// release itself.
pub proof fn law_completion_forgets_only_history(
    desired: Desired,
    release: Stored<DeploymentRecord>,
    replaced: Seq<usize>,
    k: int,
)
    requires
        positions(replaced) == matching(desired.instances.values(), replaced_by(release)),
        0 <= k < replaced.len(),
    ensures
        0 <= replaced[k] < desired.instances.values().len(),
        desired.instances.values()[replaced[k] as int].value.state.ended(),
        desired.instances.values()[replaced[k] as int].value.deployment_id@ != release.id@,
{
    crate::search::lemma_matching_upto(
        desired.instances.values(),
        replaced_by(release),
        desired.instances.values().len(),
    );
    assert(positions(replaced)[k] == replaced[k]);
}

/// Draining stops only instances that drain: never one an endpoint routes
/// to, and none of a project whose release is still being verified, so that
/// a rollback returns to an instance that is up.
pub proof fn law_draining_spares_what_serves(
    desired: Desired,
    n: nat,
    routes: Seq<Route>,
    open: Seq<u64>,
    now: i64,
    drain_timeout_ms: u64,
    k: int,
)
    requires
        n <= desired.instances.values().len(),
        0 <= k < stopping_upto(desired, n, routes, open, now, drain_timeout_ms).len(),
    ensures
        ({
            let i = stopping_upto(desired, n, routes, open, now, drain_timeout_ms)[k];
            let instance = desired.instances.values()[i];
            &&& 0 <= i < n
            &&& instance.value.state == InstanceState::Draining
            &&& instance.value.ports@.len() > 0 ==> !is_routed(routes, instance.id@)
            &&& forall|d: int|
                0 <= d < desired.deployments.values().len() && (
                #[trigger] desired.deployments.values()[d]).value.status
                    == DeploymentStatus::Switching ==> !(
                desired.deployments.values()[d].value.environment@ == instance.value.environment@
                    && desired.deployments.values()[d].value.project@ == instance.value.project@)
        }),
    decreases n,
{
    let all = stopping_upto(desired, n, routes, open, now, drain_timeout_ms);
    let before = stopping_upto(desired, (n - 1) as nat, routes, open, now, drain_timeout_ms);
    if k < before.len() {
        assert(all[k] == before[k]);
        law_draining_spares_what_serves(
            desired,
            (n - 1) as nat,
            routes,
            open,
            now,
            drain_timeout_ms,
            k,
        );
    } else {
        let instance = desired.instances.values()[n - 1];
        crate::search::lemma_first(
            desired.deployments.values(),
            verifying_in(instance.value.environment@, instance.value.project@),
        );
    }
}

/// An assignment is verified exactly when its endpoint forwards to the
/// instance and the port it names, and what is asked of it holds: a request
/// through the endpoint is answered with a status of at least 200 and below
/// 400, or the instance accepts connections. Any other answer, and none, is
/// a problem of the switch.
pub proof fn law_bad_answers_fail_the_switch(check: SwitchCheck, seen: SwitchObservation)
    ensures
        switch_result(check, seen) is Ok <==> {
            &&& seen.route matches Some(route) && route.instance_id@ == check.instance_id@
                && route.target_port == check.target_port
            &&& check.probe is Http ==> (seen.status matches Some(status) && 200 <= status
                && status < 400)
            &&& check.probe is Accepts ==> seen.accepts
        },
{
}

/// A release becomes active exactly when every assignment is verified; as
/// long as one is not, there is a problem.
pub proof fn law_one_problem_holds_the_switch(
    checks: Seq<SwitchCheck>,
    seen: Seq<SwitchObservation>,
    from: int,
)
    requires
        0 <= from <= checks.len(),
        seen.len() == checks.len(),
    ensures
        first_problem(checks, seen, from) is None <==> forall|i: int|
            from <= i < checks.len() ==> switch_result(#[trigger] checks[i], seen[i]) is Ok,
    decreases checks.len() - from,
{
    if from < checks.len() {
        law_one_problem_holds_the_switch(checks, seen, from + 1);
        if first_problem(checks, seen, from) is None {
            assert forall|i: int| from <= i < checks.len() implies switch_result(
                #[trigger] checks[i],
                seen[i],
            ) is Ok by {}
        }
        if forall|i: int|
            from <= i < checks.len() ==> switch_result(#[trigger] checks[i], seen[i]) is Ok {
            assert(switch_result(checks[from], seen[from]) is Ok);
        }
    }
}

/// How an assignment is verified: where it is, with a request when its
/// workload declares an HTTP check of that port or of none in particular, by
/// a connection when its readiness is proved on a port, and by forwarding
/// alone only when nothing listens or it is not meant to run.
pub proof fn law_assignments_are_verified_as_declared(
    check: SwitchCheck,
    desired: Desired,
    release_id: Seq<char>,
    assignment: TrafficAssignmentRecord,
    workload: crate::state::RevisionWorkload,
)
    requires
        is_switch_check(check, desired, release_id, assignment),
        desired.released_workload(release_id, assignment.workload@) == Some(workload),
    ensures
        ({
            let runs = desired.should_run(
                assignment.environment@,
                assignment.project@,
                assignment.workload@,
                release_id,
            );
            let by_http = workload.readiness matches Some(readiness) && readiness.check
                == ReadinessCheck::Http && (readiness.port matches Some(port) ==> port@
                == assignment.port@);
            let effective = match workload.readiness {
                Some(readiness) => readiness.check,
                None => workload.default_readiness.check,
            };
            &&& check.endpoint@ == assignment.endpoint@
            &&& check.host_port == assignment.host_port
            &&& check.instance_id@ == assignment.instance_id@
            &&& check.target_port == assignment.target_port
            &&& !runs ==> check.probe is NotRunning
            &&& runs && by_http ==> (check.probe matches SwitchProbe::Http { path } && path@ == (
            match workload.readiness->0.path {
                Some(path) => path@,
                None => "/"@,
            }))
            &&& runs && !by_http && (effective == ReadinessCheck::Port || effective
                == ReadinessCheck::Http) ==> check.probe is Accepts
            &&& runs && (effective == ReadinessCheck::Process || effective == ReadinessCheck::Task)
                ==> check.probe is Forwarded
        }),
{
}

/// Every assignment of a release is verified, and no other release's.
pub proof fn law_every_assignment_is_verified(
    assignments: Seq<Stored<TrafficAssignmentRecord>>,
    release_id: Seq<char>,
    i: int,
)
    requires
        0 <= i < assignments.len(),
    ensures
        matching(assignments, assigned_to(release_id)).contains(i)
            <==> assignments[i].value.deployment_id@ == release_id,
{
    lemma_selected(assignments, assigned_to(release_id), i);
}

/// What is selected is exactly what meets the test.
proof fn lemma_selected<T>(items: Seq<T>, p: spec_fn(T) -> bool, i: int)
    requires
        0 <= i < items.len(),
    ensures
        matching(items, p).contains(i) <==> p(items[i]),
{
    crate::search::lemma_matching_upto(items, p, items.len());
    if matching(items, p).contains(i) {
        let k = choose|k: int| 0 <= k < matching(items, p).len() && matching(items, p)[k] == i;
        assert(p(items[matching(items, p)[k]]));
    }
}

/// What a release in flight needs follows from its status alone, as long as
/// its environment and its project exist and it has instances: admit, await
/// readiness, verify the network, switch, verify the switch, drain. Without
/// its environment or its project it fails.
pub proof fn law_every_status_has_its_step(desired: Desired, release: Stored<DeploymentRecord>)
    ensures
        ({
            let environment = key1(release.value.environment@);
            let project = key2(release.value.environment@, release.value.project@);
            let next = step_of(desired, release);
            let status = release.value.status;
            let there = desired.environments@.contains_key(environment)
                && desired.memberships@.contains_key(project);
            let started = exists|i: int|
                0 <= i < desired.instances.values().len() && (
                #[trigger] desired.instances.values()[i]).value.deployment_id@ == release.id@;
            let current = there && opt_text(desired.memberships@[project].value.deployment_id)
                == Some(release.id@);
            &&& !desired.environments@.contains_key(environment) ==> next == Step::EnvironmentGone
            &&& desired.environments@.contains_key(environment)
                && !desired.memberships@.contains_key(project) ==> next == Step::ProjectGone
            &&& there && (started || !current) ==> {
                &&& status == DeploymentStatus::Pending ==> next == Step::Admit
                &&& status == DeploymentStatus::Starting ==> next == Step::AwaitReadiness
                &&& status == DeploymentStatus::Ready ==> next == Step::VerifyNetwork
            }
            &&& there && current && !started && (status == DeploymentStatus::Pending || status
                == DeploymentStatus::Starting || status == DeploymentStatus::Ready) ==> next
                == Step::Complete
            &&& there ==> {
                &&& status == DeploymentStatus::NetworkReady ==> next == Step::Switch
                &&& status == DeploymentStatus::Switching ==> next == Step::VerifySwitch
                &&& status == DeploymentStatus::Active ==> next == Step::BeginDrain
                &&& status == DeploymentStatus::Draining ==> next == Step::FinishDrain
                &&& next == Step::Nothing <==> status == DeploymentStatus::Complete || status
                    == DeploymentStatus::Failed || status == DeploymentStatus::RolledBack
            }
        }),
{
    crate::search::lemma_first(desired.instances.values(), instance_of_release(release.id@));
}

/// An endpoint holds nothing against a release exactly when nothing went
/// wrong with it, it listens or can, and, where its instance must answer, it
/// has a port behind it that accepts connections. What cannot listen fails
/// the release at once; an instance that does not answer is waited for.
pub proof fn law_endpoints_must_listen_and_answer(check: EndpointText, probe: EndpointProbe)
    ensures
        endpoint_fault(check, probe) is Nothing <==> {
            &&& probe.error is None
            &&& probe.listening || probe.bindable
            &&& check.must_answer ==> check.target is Some && probe.accepts
        },
        endpoint_fault(check, probe) is Now <==> probe.error is Some || !probe.listening
            && !probe.bindable,
{
}

/// A release's network is ready exactly when no endpoint holds anything
/// against it.
pub proof fn law_one_fault_holds_the_network(
    checks: Seq<EndpointText>,
    probes: Seq<EndpointProbe>,
    from: int,
)
    requires
        0 <= from <= checks.len(),
        probes.len() == checks.len(),
    ensures
        first_fault(checks, probes, from) is Nothing <==> forall|i: int|
            from <= i < checks.len() ==> endpoint_fault(#[trigger] checks[i], probes[i]) is Nothing,
    decreases checks.len() - from,
{
    if from < checks.len() {
        law_one_fault_holds_the_network(checks, probes, from + 1);
        if first_fault(checks, probes, from) is Nothing {
            assert forall|i: int| from <= i < checks.len() implies endpoint_fault(
                #[trigger] checks[i],
                probes[i],
            ) is Nothing by {}
        }
        if forall|i: int|
            from <= i < checks.len() ==> endpoint_fault(
                #[trigger] checks[i],
                probes[i],
            ) is Nothing {
            assert(endpoint_fault(checks[from], probes[from]) is Nothing);
        }
    }
}

/// Every endpoint of a workload is checked.
proof fn lemma_binding_checks(
    desired: Desired,
    release: Stored<DeploymentRecord>,
    workload: Seq<char>,
    instance: Stored<WorkloadInstanceRecord>,
    bindings: Seq<PortBinding>,
    n: nat,
)
    requires
        n <= bindings.len(),
    ensures
        binding_checks(desired, release, workload, instance, bindings, n).len() == n,
        forall|b: int|
            0 <= b < n ==> {
                let check = #[trigger] binding_checks(
                    desired,
                    release,
                    workload,
                    instance,
                    bindings,
                    n,
                )[b];
                &&& check.workload == workload
                &&& check.port == bindings[b].name@
                &&& check.endpoint == release.value.environment@ + "/"@ + release.value.project@
                    + "/"@ + workload + "/"@ + bindings[b].name@
                &&& check.host == bindings[b].host
                &&& check.target == host_of(instance.value.ports@, bindings[b].name@)
                &&& check.must_answer == (desired.should_run(
                    release.value.environment@,
                    release.value.project@,
                    workload,
                    release.id@,
                ) && proves_listening(desired, release.id@, workload))
            },
    decreases n,
{
    if n > 0 {
        lemma_binding_checks(desired, release, workload, instance, bindings, (n - 1) as nat);
        let before = binding_checks(
            desired,
            release,
            workload,
            instance,
            bindings,
            (n - 1) as nat,
        );
        let after = binding_checks(desired, release, workload, instance, bindings, n);
        assert forall|b: int| 0 <= b < n implies {
            let check = #[trigger] after[b];
            &&& check.workload == workload
            &&& check.port == bindings[b].name@
            &&& check.endpoint == release.value.environment@ + "/"@ + release.value.project@ + "/"@
                + workload + "/"@ + bindings[b].name@
            &&& check.host == bindings[b].host
            &&& check.target == host_of(instance.value.ports@, bindings[b].name@)
            &&& check.must_answer == (desired.should_run(
                release.value.environment@,
                release.value.project@,
                workload,
                release.id@,
            ) && proves_listening(desired, release.id@, workload))
        } by {
            if b < n - 1 {
                assert(after[b] == before[b]);
            }
        }
    }
}

/// Before traffic moves, every endpoint of every workload of the release
/// that has an instance is checked: on its own host port, with the
/// instance's port behind it.
pub proof fn law_every_endpoint_is_checked(
    desired: Desired,
    release: Stored<DeploymentRecord>,
    n: nat,
    w: int,
    instance: Stored<WorkloadInstanceRecord>,
    b: int,
)
    requires
        0 <= w < n <= release.value.workloads@.len(),
        desired.instance_at(
            release.value.environment@,
            release.value.project@,
            release.value.workloads@[w].name@,
            release.id@,
        ) == Some(instance),
        0 <= b < endpoints_of(
            desired,
            release.value.environment@,
            release.value.project@,
            release.value.workloads@[w].name@,
            release.value.workloads@[w],
        ).len(),
    ensures
        ({
            let workload = release.value.workloads@[w].name@;
            let binding = endpoints_of(
                desired,
                release.value.environment@,
                release.value.project@,
                workload,
                release.value.workloads@[w],
            )[b];
            exists|k: int|
                {
                    let check = #[trigger] endpoint_checks(desired, release, n)[k];
                    &&& 0 <= k < endpoint_checks(desired, release, n).len()
                    &&& check.workload == workload
                    &&& check.port == binding.name@
                    &&& check.endpoint == release.value.environment@ + "/"@
                        + release.value.project@ + "/"@ + workload + "/"@ + binding.name@
                    &&& check.host == binding.host
                    &&& check.target == host_of(instance.value.ports@, binding.name@)
                    &&& check.must_answer == (desired.should_run(
                        release.value.environment@,
                        release.value.project@,
                        workload,
                        release.id@,
                    ) && proves_listening(desired, release.id@, workload))
                }
        }),
    decreases n,
{
    let before = endpoint_checks(desired, release, (n - 1) as nat);
    let after = endpoint_checks(desired, release, n);
    let workload = release.value.workloads@[w].name@;
    let bindings = endpoints_of(
        desired,
        release.value.environment@,
        release.value.project@,
        workload,
        release.value.workloads@[w],
    );
    if w == n - 1 {
        lemma_binding_checks(desired, release, workload, instance, bindings, bindings.len());
        let own = binding_checks(desired, release, workload, instance, bindings, bindings.len());
        assert(after[before.len() + b] == own[b]);
    } else {
        law_every_endpoint_is_checked(desired, release, (n - 1) as nat, w, instance, b);
        let k = choose|k: int|
            {
                let check = #[trigger] before[k];
                &&& 0 <= k < before.len()
                &&& check.workload == workload
                &&& check.port == bindings[b].name@
                &&& check.endpoint == release.value.environment@ + "/"@ + release.value.project@
                    + "/"@ + workload + "/"@ + bindings[b].name@
                &&& check.host == bindings[b].host
                &&& check.target == host_of(instance.value.ports@, bindings[b].name@)
                &&& check.must_answer == (desired.should_run(
                    release.value.environment@,
                    release.value.project@,
                    workload,
                    release.id@,
                ) && proves_listening(desired, release.id@, workload))
            };
        assert(after[k] == before[k]);
    }
}

/// A release drains as long as some instance of its project drains, and no
/// longer.
pub proof fn law_releases_drain_to_the_last_instance(desired: Desired, release: DeploymentRecord)
    ensures
        any(desired.instances.values(), draining_in(release.environment@, release.project@))
            <==> exists|i: int|
            0 <= i < desired.instances.values().len() && (#[trigger] desired.instances.values()[i])
                .value.state == InstanceState::Draining
                && desired.instances.values()[i].value.environment@ == release.environment@
                && desired.instances.values()[i].value.project@ == release.project@,
{
    crate::search::lemma_first(
        desired.instances.values(),
        draining_in(release.environment@, release.project@),
    );
}

/// A complete release makes history of every instance of the project's other
/// deployments that ended, and of nothing else.
pub proof fn law_completion_forgets_all_history(
    desired: Desired,
    release: Stored<DeploymentRecord>,
    i: int,
)
    requires
        0 <= i < desired.instances.values().len(),
    ensures
        ({
            let instance = desired.instances.values()[i].value;
            matching(desired.instances.values(), replaced_by(release)).contains(i) <==> {
                &&& instance.environment@ == release.value.environment@
                &&& instance.project@ == release.value.project@
                &&& instance.deployment_id@ != release.id@
                &&& instance.state == InstanceState::Stopped || instance.state
                    == InstanceState::Failed
            }
        }),
{
    lemma_selected(desired.instances.values(), replaced_by(release), i);
}

/// Failing a release fails every instance of it that has not ended, and
/// removes the project from its environment only when it was never deployed
/// there.
pub proof fn law_failure_ends_the_release(
    desired: Desired,
    release: Stored<DeploymentRecord>,
    change: FailChange,
    i: int,
)
    requires
        fails_release(change, desired, release),
        0 <= i < desired.instances.values().len(),
    ensures
        ({
            let instance = desired.instances.values()[i].value;
            positions(change.instances@).contains(i) <==> instance.deployment_id@ == release.id@
                && instance.state != InstanceState::Stopped && instance.state
                != InstanceState::Failed
        }),
        ({
            let project = key2(release.value.environment@, release.value.project@);
            &&& change.membership is Some <==> desired.memberships@.contains_key(project)
                && desired.memberships@[project].value.deployment_id is None
            &&& change.membership matches Some(id) ==> id@ == desired.memberships@[project].id@
        }),
{
    lemma_selected(desired.instances.values(), live_instance_of(release.id@), i);
}

/// A replaced instance stops exactly when it drains, its project has no
/// release being verified, no endpoint routes to it, and its connections are
/// finished or the drain timeout is over. One with connections open keeps
/// them until then.
pub proof fn law_connections_finish_before_instances_stop(
    desired: Desired,
    instance: Stored<WorkloadInstanceRecord>,
    routes: Seq<Route>,
    open: u64,
    now: i64,
    drain_timeout_ms: u64,
)
    ensures
        may_stop(desired, instance, routes, open, now, drain_timeout_ms) <==> {
            &&& instance.value.state == InstanceState::Draining
            &&& open == 0 || (now >= instance.value.updated_at && now - instance.value.updated_at
                >= drain_timeout_ms * 1_000_000) || drain_timeout_ms == 0
            &&& instance.value.ports@.len() > 0 ==> forall|r: int|
                0 <= r < routes.len() ==> (#[trigger] routes[r]).instance_id@ != instance.id@
            &&& forall|d: int|
                0 <= d < desired.deployments.values().len() && (
                #[trigger] desired.deployments.values()[d]).value.status
                    == DeploymentStatus::Switching ==> {
                    ||| desired.deployments.values()[d].value.environment@
                        != instance.value.environment@
                    ||| desired.deployments.values()[d].value.project@ != instance.value.project@
                }
        },
{
    let deployments = desired.deployments.values();
    let verifying = verifying_in(instance.value.environment@, instance.value.project@);
    crate::search::lemma_first(deployments, verifying);
    if any(deployments, verifying) {
        let d = crate::search::first(deployments, verifying)->0;
        assert(verifying(deployments[d]));
    }
}

/// Every instance that may stop does.
pub proof fn law_drained_instances_stop(
    desired: Desired,
    n: nat,
    routes: Seq<Route>,
    open: Seq<u64>,
    now: i64,
    drain_timeout_ms: u64,
    i: int,
)
    requires
        0 <= i < n,
    ensures
        may_stop(
            desired,
            desired.instances.values()[i],
            routes,
            open[i],
            now,
            drain_timeout_ms,
        ) ==> stopping_upto(desired, n, routes, open, now, drain_timeout_ms).contains(i),
    decreases n,
{
    let after = stopping_upto(desired, n, routes, open, now, drain_timeout_ms);
    if may_stop(
        desired,
        desired.instances.values()[i],
        routes,
        open[i],
        now,
        drain_timeout_ms,
    ) {
        if i == n - 1 {
            assert(after[after.len() - 1] == i);
        } else {
            let before = stopping_upto(
                desired,
                (n - 1) as nat,
                routes,
                open,
                now,
                drain_timeout_ms,
            );
            law_drained_instances_stop(
                desired,
                (n - 1) as nat,
                routes,
                open,
                now,
                drain_timeout_ms,
                i,
            );
            let k = choose|k: int| 0 <= k < before.len() && before[k] == i;
            assert(after[k] == i);
        }
    }
}

/// A release that replaced nothing and is taken out of service takes its
/// project's assignments with it, all of them and no other project's.
pub proof fn law_only_its_own_assignments_are_taken_out(
    desired: Desired,
    release: Stored<DeploymentRecord>,
    i: int,
)
    requires
        0 <= i < desired.traffic.values().len(),
    ensures
        matching(
            desired.traffic.values(),
            traffic_in(release.value.environment@, release.value.project@),
        ).contains(i) <==> desired.traffic.values()[i].value.environment@
            == release.value.environment@ && desired.traffic.values()[i].value.project@
            == release.value.project@,
{
    lemma_selected(
        desired.traffic.values(),
        traffic_in(release.value.environment@, release.value.project@),
        i,
    );
}

/// A release's network is degraded exactly when some domain of its project
/// has failing DNS or a failing certificate; what is kept of it holds every
/// endpoint as it was seen.
pub proof fn law_degraded_networks_are_recorded(
    desired: Desired,
    release: DeploymentRecord,
    checks: Seq<EndpointText>,
    probes: Seq<EndpointProbe>,
    now: i64,
)
    ensures
        ({
            let kept = network_found(desired, release, checks, probes, now);
            &&& kept.degraded <==> exists|i: int|
                0 <= i < desired.domains.values().len() && (#[trigger] desired.domains.values()[i])
                    .value.environment@ == release.environment@
                    && desired.domains.values()[i].value.project@ == release.project@ && (
                desired.domains.values()[i].value.dns.status@ == "failed"@
                    || desired.domains.values()[i].value.tls.status@ == "failed"@)
            &&& kept.verified_at == now
            &&& kept.endpoints.len() == checks.len()
            &&& forall|i: int|
                0 <= i < checks.len() ==> {
                    let endpoint = #[trigger] kept.endpoints[i];
                    &&& endpoint.endpoint == checks[i].endpoint
                    &&& endpoint.host_port == checks[i].host
                    &&& endpoint.target_port == checks[i].target
                    &&& endpoint.listening == probes[i].listening
                    &&& endpoint.reachable <==> checks[i].target is Some && probes[i].accepts
                }
        }),
{
    crate::search::lemma_first(
        desired.domains.values(),
        unhealthy_domain(release.environment@, release.project@),
    );
}

/// The network of a release is recorded with every domain of its project in
/// its environment, and no other, each as it stands.
pub proof fn law_domains_of_the_project_are_recorded(
    desired: Desired,
    release: DeploymentRecord,
    checks: Seq<EndpointText>,
    probes: Seq<EndpointProbe>,
    now: i64,
    i: int,
)
    ensures
        ({
            let kept = network_found(desired, release, checks, probes, now);
            let domains = desired.domains.values();
            &&& 0 <= i < domains.len() && domains[i].value.environment@ == release.environment@
                && domains[i].value.project@ == release.project@ ==> exists|k: int|
                0 <= k < kept.domains.len() && (#[trigger] kept.domains[k]).domain
                    == domains[i].value.name@ && kept.domains[k].dns == domains[i].value.dns.status@
                    && kept.domains[k].tls == domains[i].value.tls.status@ && kept.domains[k].routing
                    == domains[i].value.routing.status@
            &&& 0 <= i < kept.domains.len() ==> exists|k: int|
                0 <= k < domains.len() && (#[trigger] domains[k]).value.environment@
                    == release.environment@ && domains[k].value.project@ == release.project@
                    && kept.domains[i].domain == domains[k].value.name@ && kept.domains[i].endpoint
                    == domains[k].value.environment@ + "/"@ + domains[k].value.project@ + "/"@
                    + domains[k].value.workload@ + "/"@ + domains[k].value.port@
        }),
{
    let kept = network_found(desired, release, checks, probes, now);
    let domains = desired.domains.values();
    let p = domain_of(release.environment@, release.project@);
    let at = matching(domains, p);
    crate::search::lemma_matching_upto(domains, p, domains.len());
    if 0 <= i < domains.len() && domains[i].value.environment@ == release.environment@
        && domains[i].value.project@ == release.project@ {
        assert(p(domains[i]));
        assert(at.contains(i));
        let k = choose|k: int| 0 <= k < at.len() && at[k] == i;
        assert(kept.domains[k] == domain_found(domains[i].value));
    }
    if 0 <= i < kept.domains.len() {
        assert(p(domains[at[i]]));
        assert(kept.domains[i] == domain_found(domains[at[i]].value));
        assert(domains[at[i]].value.project@ == release.project@);
    }
}

} // verus!
