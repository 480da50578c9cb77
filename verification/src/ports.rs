//! Host ports: stable endpoints, kept across releases, and each new
//! instance's own ports.

use vstd::prelude::*;

use crate::desired::Desired;
use crate::error::{EnvironmentError, Refusal};
use crate::events::Key;
use crate::ids::{endpoint, endpoint_text};
use crate::model::{PortBinding, PortSpec};
use crate::search::{found, lemma_first};
use crate::state::RevisionWorkload;
use crate::table::{find_item, key1, key3, Test};
use crate::text::{decimal, decimal_text, same};

verus! {

/// Whether a list holds a port.
pub fn has_port(list: &Vec<u16>, port: u16) -> (r: bool)
    ensures
        r == list@.contains(port),
{
    let mut i: usize = 0;
    while i < list.len()
        invariant
            i <= list@.len(),
            forall|j: int| 0 <= j < i ==> list@[j] != port,
        decreases list@.len() - i,
    {
        if list[i] == port {
            return true;
        }
        i += 1;
    }
    false
}

/// The host ports of bindings.
pub open spec fn hosts_of(ports: Seq<PortBinding>) -> Seq<u16> {
    ports.map_values(|port: PortBinding| port.host)
}

/// Add the host ports of bindings to a list.
pub fn append_hosts(to: &mut Vec<u16>, ports: &Vec<PortBinding>)
    ensures
        final(to)@ == old(to)@ + hosts_of(ports@),
{
    let ghost before = to@;
    let mut i: usize = 0;
    proof {
        assert(before + hosts_of(ports@).take(0) =~= before);
    }
    while i < ports.len()
        invariant
            i <= ports@.len(),
            to@ == before + hosts_of(ports@).take(i as int),
        decreases ports@.len() - i,
    {
        to.push(ports[i].host);
        proof {
            assert(hosts_of(ports@).take(i + 1) =~= hosts_of(ports@).take(i as int).push(
                ports@[i as int].host,
            ));
            assert(to@ =~= before + hosts_of(ports@).take(i + 1));
        }
        i += 1;
    }
    proof {
        assert(hosts_of(ports@).take(i as int) =~= hosts_of(ports@));
    }
}

// ---- A free port ------------------------------------------------------------

/// Whether a port is neither taken nor known not to accept a listener.
pub open spec fn is_free(port: u16, used: Seq<u16>, unavailable: Seq<u16>) -> bool {
    !used.contains(port) && !unavailable.contains(port)
}

/// The first free port from `port` up to `high`.
pub open spec fn free_from(port: int, high: int, used: Seq<u16>, unavailable: Seq<u16>) -> Option<u16>
    decreases high + 1 - port,
{
    if port > high {
        None
    } else if is_free(port as u16, used, unavailable) {
        Some(port as u16)
    } else {
        free_from(port + 1, high, used, unavailable)
    }
}

/// The first free port of a range.
pub open spec fn first_free(range: (u16, u16), used: Seq<u16>, unavailable: Seq<u16>) -> Option<u16> {
    free_from(range.0 as int, range.1 as int, used, unavailable)
}

/// The first free port lies in its range and is free, and every port of the
/// range below it is not.
pub proof fn lemma_first_free(range: (u16, u16), used: Seq<u16>, unavailable: Seq<u16>)
    ensures
        match first_free(range, used, unavailable) {
            Some(port) => {
                &&& range.0 <= port <= range.1
                &&& is_free(port, used, unavailable)
                &&& forall|below: u16|
                    range.0 <= below < port ==> !#[trigger] is_free(below, used, unavailable)
            },
            None => forall|port: u16|
                range.0 <= port <= range.1 ==> !#[trigger] is_free(port, used, unavailable),
        },
{
    lemma_free_from(range.0 as int, range.1 as int, used, unavailable);
}

proof fn lemma_free_from(from: int, high: int, used: Seq<u16>, unavailable: Seq<u16>)
    requires
        0 <= from,
        high <= u16::MAX,
    ensures
        match free_from(from, high, used, unavailable) {
            Some(port) => {
                &&& from <= port <= high
                &&& is_free(port, used, unavailable)
                &&& forall|below: u16|
                    from <= below < port ==> !#[trigger] is_free(below, used, unavailable)
            },
            None => forall|port: u16|
                from <= port <= high ==> !#[trigger] is_free(port, used, unavailable),
        },
    decreases high + 1 - from,
{
    if from <= high && !is_free(from as u16, used, unavailable) {
        lemma_free_from(from + 1, high, used, unavailable);
        let rest = free_from(from + 1, high, used, unavailable);
        assert(rest == free_from(from, high, used, unavailable));
        assert forall|below: u16| from <= below && (rest matches Some(port) ==> below < port)
            && below <= high implies !#[trigger] is_free(below, used, unavailable) by {
            if below == from {
                assert(below == from as u16);
            }
        }
    }
}

pub open spec fn no_port_text(range: (u16, u16), endpoint: bool) -> Seq<char> {
    "no free host port in "@ + decimal_text(range.0 as nat) + "-"@ + decimal_text(range.1 as nat)
        + " for "@ + (if endpoint {
        "an endpoint"@
    } else {
        "an instance"@
    })
}

/// The first port of a range that is neither used nor known to be
/// unavailable.
pub fn free_port(
    range: (u16, u16),
    used: &Vec<u16>,
    unavailable: &Vec<u16>,
    endpoint: bool,
) -> (r: Result<u16, EnvironmentError>)
    ensures
        match r {
            Ok(port) => first_free(range, used@, unavailable@) == Some(port),
            Err(error) => first_free(range, used@, unavailable@) is None && error is Invalid
                && error.text() == no_port_text(range, endpoint),
        },
{
    let mut port: u32 = range.0 as u32;
    while port <= range.1 as u32
        invariant
            range.0 <= port <= range.1 + 1 || port == range.0,
            first_free(range, used@, unavailable@) == free_from(
                port as int,
                range.1 as int,
                used@,
                unavailable@,
            ),
        decreases range.1 + 1 - port,
    {
        let candidate: u16 = port as u16;
        if !has_port(used, candidate) && !has_port(unavailable, candidate) {
            return Ok(candidate);
        }
        port += 1;
    }
    let mut text = "no free host port in ".to_owned();
    text.append(&decimal(range.0 as u64));
    text.append("-");
    text.append(&decimal(range.1 as u64));
    text.append(" for ");
    text.append(
        if endpoint {
            "an endpoint"
        } else {
            "an instance"
        },
    );
    Err(EnvironmentError::Invalid(text))
}

// ---- Planning ---------------------------------------------------------------

/// Where ports come from, and what is known not to accept a listener.
pub struct PortPool {
    /// Stable endpoints, first and last.
    pub endpoints: (u16, u16),
    /// Instances' own ports, first and last.
    pub instances: (u16, u16),
    pub unavailable_endpoints: Vec<u16>,
    pub unavailable_instances: Vec<u16>,
}

pub open spec fn binding_named(name: Seq<char>) -> spec_fn(PortBinding) -> bool {
    |binding: PortBinding| binding.name@ == name
}

/// Selects a binding by its port's name.
pub struct BindingNamed<'a> {
    pub name: &'a str,
}

impl<'a> Test<PortBinding> for BindingNamed<'a> {
    open spec fn pred(&self) -> spec_fn(PortBinding) -> bool {
        binding_named(self.name@)
    }

    fn test(&self, item: &PortBinding) -> (r: bool) {
        same(&item.name, self.name)
    }
}

/// The host port of a named binding.
pub open spec fn host_of(ports: Seq<PortBinding>, name: Seq<char>) -> Option<u16> {
    match found(ports, binding_named(name)) {
        Some(binding) => Some(binding.host),
        None => None,
    }
}

pub fn find_host(ports: &Vec<PortBinding>, name: &str) -> (r: Option<u16>)
    ensures
        r == host_of(ports@, name@),
{
    match find_item(ports, &BindingNamed { name }) {
        Some(binding) => Some(binding.host),
        None => None,
    }
}

/// The host port an endpoint already has: the workload's own binding of the
/// port, or else the port its traffic assignment listens on.
pub open spec fn kept_host(
    desired: Desired,
    environment: Seq<char>,
    project: Seq<char>,
    workload: Seq<char>,
    port: Seq<char>,
) -> Option<u16> {
    let key = key3(environment, project, workload);
    let own = if desired.workloads@.contains_key(key) {
        host_of(desired.workloads@[key].value.ports@, port)
    } else {
        None
    };
    let name = key1(endpoint_text(environment, project, workload, port));
    if own is Some {
        own
    } else if desired.traffic@.contains_key(name) {
        Some(desired.traffic@[name].value.host_port)
    } else {
        None
    }
}

fn find_kept_host(desired: &Desired, key: &Key, port: &str) -> (r: Option<u16>)
    ensures
        r == kept_host(*desired, key.0@, key.1@, key.2@, port@),
{
    if let Some(existing) = desired.workloads.get(key) {
        let own = find_host(&existing.value.ports, port);
        if own.is_some() {
            return own;
        }
    }
    match desired.traffic.at(&endpoint(&key.0, &key.1, &key.2, port)) {
        Some(assignment) => Some(assignment.value.host_port),
        None => None,
    }
}

/// What has been planned so far: the ports in use, and the host port of
/// each endpoint and of each instance port.
pub ghost struct Plan {
    pub used_endpoints: Seq<u16>,
    pub used_instances: Seq<u16>,
    pub endpoints: Seq<u16>,
    pub instances: Seq<u16>,
}

pub ghost enum Planned {
    Ports(Plan),
    /// No host port is left for an endpoint, with the endpoint and instance
    /// ports that were used by then.
    NoEndpointPort(Seq<u16>, Seq<u16>),
    /// No port is left for an instance, with the same.
    NoInstancePort(Seq<u16>, Seq<u16>),
}

/// One more port: its endpoint keeps the host port it has, or gets the first
/// free one; its instance gets the first free port of its own.
pub open spec fn plan_port(
    plan: Plan,
    kept: Option<u16>,
    pool: PortPool,
) -> Planned {
    let host = match kept {
        Some(host) => Some(host),
        None => first_free(pool.endpoints, plan.used_endpoints, pool.unavailable_endpoints@),
    };
    let own = first_free(pool.instances, plan.used_instances, pool.unavailable_instances@);
    match host {
        None => Planned::NoEndpointPort(plan.used_endpoints, plan.used_instances),
        Some(host) => {
            let used_endpoints = if kept is Some {
                plan.used_endpoints
            } else {
                plan.used_endpoints.push(host)
            };
            match own {
                None => Planned::NoInstancePort(used_endpoints, plan.used_instances),
                Some(own) => Planned::Ports(
                    Plan {
                        used_endpoints,
                        used_instances: plan.used_instances.push(own),
                        endpoints: plan.endpoints.push(host),
                        instances: plan.instances.push(own),
                    },
                ),
            }
        },
    }
}

/// The plan for the first `n` ports.
pub open spec fn planned(
    desired: Desired,
    environment: Seq<char>,
    project: Seq<char>,
    workload: Seq<char>,
    ports: Seq<PortSpec>,
    n: nat,
    used_endpoints: Seq<u16>,
    used_instances: Seq<u16>,
    pool: PortPool,
) -> Planned
    decreases n,
{
    if n == 0 {
        Planned::Ports(
            Plan { used_endpoints, used_instances, endpoints: Seq::empty(), instances: Seq::empty() },
        )
    } else {
        match planned(
            desired,
            environment,
            project,
            workload,
            ports,
            (n - 1) as nat,
            used_endpoints,
            used_instances,
            pool,
        ) {
            Planned::Ports(plan) => plan_port(
                plan,
                kept_host(desired, environment, project, workload, ports[n - 1].name@),
                pool,
            ),
            other => other,
        }
    }
}

/// Whether bindings are those of the declared ports, on the given hosts.
pub open spec fn bound(bindings: Seq<PortBinding>, ports: Seq<PortSpec>, hosts: Seq<u16>) -> bool {
    &&& bindings.len() == hosts.len()
    &&& bindings.len() <= ports.len()
    &&& forall|i: int|
        #![trigger bindings[i]]
        0 <= i < bindings.len() ==> bindings[i].name@ == ports[i].name@ && bindings[i].logical
            == ports[i].port && bindings[i].host == hosts[i]
}

/// A failure to plan the first ports is a failure to plan them all.
proof fn lemma_planned_fails(
    desired: Desired,
    environment: Seq<char>,
    project: Seq<char>,
    workload: Seq<char>,
    ports: Seq<PortSpec>,
    n: nat,
    m: nat,
    used_endpoints: Seq<u16>,
    used_instances: Seq<u16>,
    pool: PortPool,
)
    requires
        n <= m,
        !(planned(desired, environment, project, workload, ports, n, used_endpoints, used_instances, pool) is Ports),
    ensures
        planned(desired, environment, project, workload, ports, m, used_endpoints, used_instances, pool)
            == planned(desired, environment, project, workload, ports, n, used_endpoints, used_instances, pool),
    decreases m,
{
    if n < m {
        lemma_planned_fails(
            desired,
            environment,
            project,
            workload,
            ports,
            n,
            (m - 1) as nat,
            used_endpoints,
            used_instances,
            pool,
        );
    }
}

/// A service's stable endpoints (kept across releases by port name) and
/// its new instance's own ports.
pub fn plan_ports(
    desired: &Desired,
    key: &Key,
    workload: &RevisionWorkload,
    used_endpoints: &mut Vec<u16>,
    used_instances: &mut Vec<u16>,
    pool: &PortPool,
) -> (r: Result<(Vec<PortBinding>, Vec<PortBinding>), EnvironmentError>)
    ensures
        match planned(
            *desired,
            key.0@,
            key.1@,
            key.2@,
            workload.ports@,
            workload.ports@.len(),
            old(used_endpoints)@,
            old(used_instances)@,
            *pool,
        ) {
            Planned::Ports(plan) => {
                &&& r matches Ok(ports)
                &&& ports.0@.len() == workload.ports@.len()
                &&& bound(ports.0@, workload.ports@, plan.endpoints)
                &&& bound(ports.1@, workload.ports@, plan.instances)
                &&& ports.1@.len() == workload.ports@.len()
                &&& final(used_endpoints)@ == plan.used_endpoints
                &&& final(used_instances)@ == plan.used_instances
            },
            Planned::NoEndpointPort(endpoints, instances) => {
                &&& r matches Err(error)
                &&& error.reports(Refusal::Invalid(no_port_text(pool.endpoints, true)))
                &&& final(used_endpoints)@ == endpoints
                &&& final(used_instances)@ == instances
            },
            Planned::NoInstancePort(endpoints, instances) => {
                &&& r matches Err(error)
                &&& error.reports(Refusal::Invalid(no_port_text(pool.instances, false)))
                &&& final(used_endpoints)@ == endpoints
                &&& final(used_instances)@ == instances
            },
        },
{
    let mut endpoints: Vec<PortBinding> = Vec::new();
    let mut instances: Vec<PortBinding> = Vec::new();
    let ghost used_e = used_endpoints@;
    let ghost used_i = used_instances@;
    let ghost mut plan = Plan {
        used_endpoints: used_e,
        used_instances: used_i,
        endpoints: Seq::empty(),
        instances: Seq::empty(),
    };
    let mut i: usize = 0;
    while i < workload.ports.len()
        invariant
            i <= workload.ports@.len(),
            planned(
                *desired,
                key.0@,
                key.1@,
                key.2@,
                workload.ports@,
                i as nat,
                used_e,
                used_i,
                *pool,
            ) == Planned::Ports(plan),
            used_endpoints@ == plan.used_endpoints,
            used_instances@ == plan.used_instances,
            endpoints@.len() == i,
            instances@.len() == i,
            bound(endpoints@, workload.ports@, plan.endpoints),
            bound(instances@, workload.ports@, plan.instances),
        decreases workload.ports@.len() - i,
    {
        let port = &workload.ports[i];
        let kept = find_kept_host(desired, key, &port.name);
        let ghost next = plan_port(plan, kept, *pool);
        proof {
            assert(planned(
                *desired,
                key.0@,
                key.1@,
                key.2@,
                workload.ports@,
                (i + 1) as nat,
                used_e,
                used_i,
                *pool,
            ) == next);
            if !(next is Ports) {
                lemma_planned_fails(
                    *desired,
                    key.0@,
                    key.1@,
                    key.2@,
                    workload.ports@,
                    (i + 1) as nat,
                    workload.ports@.len(),
                    used_e,
                    used_i,
                    *pool,
                );
            }
        }
        let host: u16 = match kept {
            Some(host) => host,
            None => {
                match free_port(pool.endpoints, used_endpoints, &pool.unavailable_endpoints, true) {
                    Ok(host) => {
                        used_endpoints.push(host);
                        host
                    },
                    Err(error) => {
                        return Err(error);
                    },
                }
            },
        };
        let own: u16 = match free_port(
            pool.instances,
            used_instances,
            &pool.unavailable_instances,
            false,
        ) {
            Ok(own) => own,
            Err(error) => {
                return Err(error);
            },
        };
        used_instances.push(own);
        endpoints.push(PortBinding { name: port.name.clone(), logical: port.port, host });
        instances.push(PortBinding { name: port.name.clone(), logical: port.port, host: own });
        proof {
            plan = next->Ports_0;
        }
        i += 1;
    }
    Ok((endpoints, instances))
}

// ---- Laws -------------------------------------------------------------------

/// What a plan promises, port by port.
pub open spec fn plan_is_sound(
    desired: Desired,
    environment: Seq<char>,
    project: Seq<char>,
    workload: Seq<char>,
    ports: Seq<PortSpec>,
    used_endpoints: Seq<u16>,
    used_instances: Seq<u16>,
    pool: PortPool,
    plan: Plan,
) -> bool {
    let n = plan.endpoints.len();
    &&& plan.instances.len() == n
    &&& forall|i: int|
        #![trigger plan.endpoints[i]]
        0 <= i < n ==> match kept_host(desired, environment, project, workload, ports[i].name@) {
            Some(host) => plan.endpoints[i] == host,
            None => {
                &&& pool.endpoints.0 <= plan.endpoints[i] <= pool.endpoints.1
                &&& is_free(plan.endpoints[i], used_endpoints, pool.unavailable_endpoints@)
            },
        }
    &&& forall|i: int|
        #![trigger plan.instances[i]]
        0 <= i < n ==> pool.instances.0 <= plan.instances[i] <= pool.instances.1 && is_free(
            plan.instances[i],
            used_instances,
            pool.unavailable_instances@,
        )
    &&& forall|i: int, j: int|
        #![trigger plan.instances[i], plan.instances[j]]
        0 <= i < j < n ==> plan.instances[i] != plan.instances[j]
}

/// Endpoints keep their host ports across releases; a new endpoint's port
/// and every instance port lie in their ranges and were not in use; no two
/// instance ports are the same.
pub proof fn law_plan_is_sound(
    desired: Desired,
    environment: Seq<char>,
    project: Seq<char>,
    workload: Seq<char>,
    ports: Seq<PortSpec>,
    n: nat,
    used_endpoints: Seq<u16>,
    used_instances: Seq<u16>,
    pool: PortPool,
)
    requires
        n <= ports.len(),
    ensures
        planned(desired, environment, project, workload, ports, n, used_endpoints, used_instances, pool) matches Planned::Ports(
            plan,
        ) ==> {
            &&& plan.endpoints.len() == n
            &&& plan_is_sound(desired, environment, project, workload, ports, used_endpoints, used_instances, pool, plan)
            &&& forall|port: u16|
                used_endpoints.contains(port) ==> #[trigger] plan.used_endpoints.contains(port)
            &&& forall|port: u16|
                used_instances.contains(port) ==> #[trigger] plan.used_instances.contains(port)
            &&& forall|i: int|
                0 <= i < n ==> plan.used_instances.contains(#[trigger] plan.instances[i])
        },
    decreases n,
{
    if n > 0 {
        law_plan_is_sound(
            desired,
            environment,
            project,
            workload,
            ports,
            (n - 1) as nat,
            used_endpoints,
            used_instances,
            pool,
        );
        let before = planned(
            desired,
            environment,
            project,
            workload,
            ports,
            (n - 1) as nat,
            used_endpoints,
            used_instances,
            pool,
        );
        if let Planned::Ports(plan) = before {
            let kept = kept_host(desired, environment, project, workload, ports[n - 1].name@);
            lemma_first_free(pool.endpoints, plan.used_endpoints, pool.unavailable_endpoints@);
            lemma_first_free(pool.instances, plan.used_instances, pool.unavailable_instances@);
            if let Planned::Ports(next) = plan_port(plan, kept, pool) {
                let own = next.instances[n - 1];
                let host = next.endpoints[n - 1];
                assert(!plan.used_instances.contains(own));
                assert(!used_instances.contains(own));
                assert forall|port: u16|
                    used_endpoints.contains(port) implies #[trigger] next.used_endpoints.contains(
                    port,
                ) by {
                    assert(plan.used_endpoints.contains(port));
                    let k = choose|k: int| 0 <= k < plan.used_endpoints.len() && plan.used_endpoints[k] == port;
                    assert(next.used_endpoints[k] == port);
                }
                assert forall|port: u16|
                    plan.used_instances.contains(port) implies #[trigger] next.used_instances.contains(
                    port,
                ) by {
                    let k = choose|k: int| 0 <= k < plan.used_instances.len() && plan.used_instances[k] == port;
                    assert(next.used_instances[k] == port);
                }
                assert(next.used_instances[plan.used_instances.len() as int] == own);
                assert forall|i: int| 0 <= i < n implies next.used_instances.contains(
                    #[trigger] next.instances[i],
                ) by {
                    if i < n - 1 {
                        assert(next.instances[i] == plan.instances[i]);
                        assert(plan.used_instances.contains(plan.instances[i]));
                    }
                }
                assert forall|i: int, j: int|
                    #![trigger next.instances[i], next.instances[j]]
                    0 <= i < j < n implies next.instances[i] != next.instances[j] by {
                    assert(next.instances[i] == plan.instances[i]);
                    assert(plan.used_instances.contains(plan.instances[i]));
                    if j < n - 1 {
                        assert(next.instances[j] == plan.instances[j]);
                    }
                }
                assert forall|i: int|
                    #![trigger next.endpoints[i]]
                    0 <= i < n implies match kept_host(
                    desired,
                    environment,
                    project,
                    workload,
                    ports[i].name@,
                ) {
                    Some(host) => next.endpoints[i] == host,
                    None => {
                        &&& pool.endpoints.0 <= next.endpoints[i] <= pool.endpoints.1
                        &&& is_free(next.endpoints[i], used_endpoints, pool.unavailable_endpoints@)
                    },
                } by {
                    if i < n - 1 {
                        assert(next.endpoints[i] == plan.endpoints[i]);
                    } else if kept is None {
                        assert(!plan.used_endpoints.contains(host));
                        if used_endpoints.contains(host) {
                            assert(plan.used_endpoints.contains(host));
                        }
                    }
                }
                assert forall|i: int|
                    #![trigger next.instances[i]]
                    0 <= i < n implies pool.instances.0 <= next.instances[i] <= pool.instances.1
                    && is_free(next.instances[i], used_instances, pool.unavailable_instances@) by {
                    if i < n - 1 {
                        assert(next.instances[i] == plan.instances[i]);
                    }
                }
            }
        }
    }
}

/// A port that is handed out lies in its range, was not in use, and is not
/// known to refuse a listener; it is the lowest such port. None is handed
/// out only when every port of the range is in use or refuses a listener.
pub proof fn law_free_ports_are_free(range: (u16, u16), used: Seq<u16>, unavailable: Seq<u16>)
    ensures
        match first_free(range, used, unavailable) {
            Some(port) => {
                &&& range.0 <= port <= range.1
                &&& !used.contains(port)
                &&& !unavailable.contains(port)
                &&& forall|below: u16|
                    range.0 <= below < port ==> used.contains(below) || unavailable.contains(below)
            },
            None => forall|port: u16|
                range.0 <= port <= range.1 ==> used.contains(port) || unavailable.contains(port),
        },
{
    lemma_first_free(range, used, unavailable);
    match first_free(range, used, unavailable) {
        Some(port) => {
            assert forall|below: u16| range.0 <= below < port implies used.contains(below)
                || unavailable.contains(below) by {
                assert(!is_free(below, used, unavailable));
            }
        },
        None => {
            assert forall|port: u16| range.0 <= port <= range.1 implies used.contains(port)
                || unavailable.contains(port) by {
                assert(!is_free(port, used, unavailable));
            }
        },
    }
}

/// The host port of a named binding is that of the first binding of the
/// name; without a binding of the name there is none.
pub proof fn law_bindings_are_found_by_name(ports: Seq<PortBinding>, name: Seq<char>, i: int)
    requires
        0 <= i < ports.len(),
        ports[i].name@ == name,
        forall|j: int| 0 <= j < i ==> (#[trigger] ports[j]).name@ != name,
    ensures
        host_of(ports, name) == Some(ports[i].host),
        forall|other: Seq<char>|
            (forall|j: int| 0 <= j < ports.len() ==> (#[trigger] ports[j]).name@ != other)
                ==> #[trigger] host_of(ports, other) is None,
{
    lemma_first(ports, binding_named(name));
    assert(binding_named(name)(ports[i]));
    assert forall|other: Seq<char>|
        (forall|j: int| 0 <= j < ports.len() ==> (#[trigger] ports[j]).name@
            != other) implies #[trigger] host_of(ports, other) is None by {
        lemma_first(ports, binding_named(other));
    }
}

/// An endpoint that exists keeps its host port: the one its workload is
/// bound to, or else the one its traffic listens on.
pub proof fn law_endpoints_keep_their_host_port(
    desired: Desired,
    environment: Seq<char>,
    project: Seq<char>,
    workload: Seq<char>,
    port: Seq<char>,
)
    ensures
        ({
            let key = key3(environment, project, workload);
            let name = key1(
                environment + "/"@ + project + "/"@ + workload + "/"@ + port,
            );
            let bindings = desired.workloads@[key].value.ports@;
            let kept = kept_host(desired, environment, project, workload, port);
            &&& forall|i: int|
                desired.workloads@.contains_key(key) && 0 <= i < bindings.len() && (
                #[trigger] bindings[i]).name@ == port && (forall|j: int|
                    0 <= j < i ==> (#[trigger] bindings[j]).name@ != port) ==> kept == Some(
                    bindings[i].host,
                )
            &&& (!desired.workloads@.contains_key(key) || forall|j: int|
                0 <= j < bindings.len() ==> (#[trigger] bindings[j]).name@ != port) ==> {
                &&& desired.traffic@.contains_key(name) ==> kept == Some(
                    desired.traffic@[name].value.host_port,
                )
                &&& !desired.traffic@.contains_key(name) ==> kept is None
            }
        }),
{
    let key = key3(environment, project, workload);
    let bindings = desired.workloads@[key].value.ports@;
    lemma_first(bindings, binding_named(port));
    assert forall|i: int|
        desired.workloads@.contains_key(key) && 0 <= i < bindings.len() && (
        #[trigger] bindings[i]).name@ == port && (forall|j: int|
            0 <= j < i ==> (#[trigger] bindings[j]).name@ != port) implies kept_host(
        desired,
        environment,
        project,
        workload,
        port,
    ) == Some(bindings[i].host) by {
        assert(binding_named(port)(bindings[i]));
    }
}

/// No two endpoints that are new to a workload get the same host port.
pub proof fn law_new_endpoints_differ(
    desired: Desired,
    environment: Seq<char>,
    project: Seq<char>,
    workload: Seq<char>,
    ports: Seq<PortSpec>,
    n: nat,
    used_endpoints: Seq<u16>,
    used_instances: Seq<u16>,
    pool: PortPool,
)
    requires
        n <= ports.len(),
    ensures
        planned(desired, environment, project, workload, ports, n, used_endpoints, used_instances, pool) matches Planned::Ports(
            plan,
        ) ==> {
            &&& plan.endpoints.len() == n
            &&& forall|i: int|
                0 <= i < n && kept_host(
                    desired,
                    environment,
                    project,
                    workload,
                    ports[i].name@,
                ) is None ==> plan.used_endpoints.contains(#[trigger] plan.endpoints[i])
            &&& forall|i: int, j: int|
                0 <= i < j < n && kept_host(
                    desired,
                    environment,
                    project,
                    workload,
                    ports[i].name@,
                ) is None && kept_host(
                    desired,
                    environment,
                    project,
                    workload,
                    ports[j].name@,
                ) is None ==> (#[trigger] plan.endpoints[i]) != (#[trigger] plan.endpoints[j])
        },
    decreases n,
{
    if n > 0 {
        law_new_endpoints_differ(
            desired,
            environment,
            project,
            workload,
            ports,
            (n - 1) as nat,
            used_endpoints,
            used_instances,
            pool,
        );
        let before = planned(
            desired,
            environment,
            project,
            workload,
            ports,
            (n - 1) as nat,
            used_endpoints,
            used_instances,
            pool,
        );
        if let Planned::Ports(plan) = before {
            let kept = kept_host(desired, environment, project, workload, ports[n - 1].name@);
            lemma_first_free(pool.endpoints, plan.used_endpoints, pool.unavailable_endpoints@);
            if let Planned::Ports(next) = plan_port(plan, kept, pool) {
                assert forall|i: int|
                    0 <= i < n && kept_host(
                        desired,
                        environment,
                        project,
                        workload,
                        ports[i].name@,
                    ) is None implies next.used_endpoints.contains(#[trigger] next.endpoints[i]) by {
                    if i < n - 1 {
                        assert(next.endpoints[i] == plan.endpoints[i]);
                        let k = choose|k: int|
                            0 <= k < plan.used_endpoints.len() && plan.used_endpoints[k]
                                == plan.endpoints[i];
                        assert(next.used_endpoints[k] == next.endpoints[i]);
                    } else {
                        assert(next.used_endpoints[plan.used_endpoints.len() as int]
                            == next.endpoints[i]);
                    }
                }
                assert forall|i: int, j: int|
                    0 <= i < j < n && kept_host(
                        desired,
                        environment,
                        project,
                        workload,
                        ports[i].name@,
                    ) is None && kept_host(
                        desired,
                        environment,
                        project,
                        workload,
                        ports[j].name@,
                    ) is None implies (#[trigger] next.endpoints[i]) != (
                #[trigger] next.endpoints[j]) by {
                    assert(next.endpoints[i] == plan.endpoints[i]);
                    if j < n - 1 {
                        assert(next.endpoints[j] == plan.endpoints[j]);
                    } else {
                        assert(plan.used_endpoints.contains(plan.endpoints[i]));
                    }
                }
            }
        }
    }
}

/// Bindings are those of the declared ports, in their order: each has its
/// port's name and the number the workload itself listens on.
pub proof fn law_bindings_follow_the_declared_ports(
    bindings: Seq<PortBinding>,
    ports: Seq<PortSpec>,
    hosts: Seq<u16>,
    i: int,
)
    requires
        bound(bindings, ports, hosts),
        0 <= i < bindings.len(),
    ensures
        bindings[i].name@ == ports[i].name@,
        bindings[i].logical == ports[i].port,
        bindings[i].host == hosts[i],
{
}

} // verus!
