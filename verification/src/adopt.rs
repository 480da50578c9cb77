//! Adopting services deployed before releases: each current service that
//! runs without an instance or traffic assignments gets an instance that
//! serves on its existing endpoints.

use vstd::prelude::*;

use crate::desired::Desired;
use crate::events::Key;
use crate::ids::{endpoint, endpoint_text};
use crate::model::{PortBinding, WorkloadKind};
use crate::ports::{append_hosts, first_free, free_port, hosts_of};
use crate::routing::TrafficWrite;
use crate::search::{any, lemma_first};
use crate::state::{
    DeploymentRecord, InstanceState, Stored, TrafficAssignmentRecord, WorkloadInstanceRecord,
    WorkloadRecord,
};
use crate::table::{find, key1, Test};
use crate::text::{opt_text, same};

verus! {

/// A new instance of a service, and the assignments of its endpoints.
pub struct Adoption {
    pub instance_id: String,
    pub instance: WorkloadInstanceRecord,
    pub traffic: Vec<TrafficWrite>,
}

pub open spec fn releasing_in(environment: Seq<char>, project: Seq<char>) -> spec_fn(
    Stored<DeploymentRecord>,
) -> bool {
    |release: Stored<DeploymentRecord>|
        {
            &&& !release.value.status.terminal()
            &&& release.value.environment@ == environment
            &&& release.value.project@ == project
        }
}

/// Selects the releases in flight of a project in an environment.
pub struct ReleasingIn<'a> {
    pub environment: &'a str,
    pub project: &'a str,
}

impl<'a> Test<Stored<DeploymentRecord>> for ReleasingIn<'a> {
    open spec fn pred(&self) -> spec_fn(Stored<DeploymentRecord>) -> bool {
        releasing_in(self.environment@, self.project@)
    }

    fn test(&self, item: &Stored<DeploymentRecord>) -> (r: bool) {
        !item.value.status.is_terminal() && same(&item.value.environment, self.environment) && same(
            &item.value.project,
            self.project,
        )
    }
}

/// Whether a workload is a current service without an instance, whose
/// deployment is known and whose project has no release in flight.
pub open spec fn needs_adoption(
    desired: Desired,
    key: Key,
    workload: Stored<WorkloadRecord>,
) -> bool {
    let value = workload.value;
    &&& value.kind == WorkloadKind::Service
    &&& !any(desired.deployments.values(), releasing_in(key.0@, key.1@))
    &&& desired.instance_at(key.0@, key.1@, key.2@, value.deployment_id@) is None
    &&& desired.deployments@.contains_key(key1(value.deployment_id@))
}

fn is_unadopted(desired: &Desired, key: &Key, workload: &Stored<WorkloadRecord>) -> (r: bool)
    ensures
        r == needs_adoption(*desired, *key, *workload),
{
    let value = &workload.value;
    if value.kind != WorkloadKind::Service {
        return false;
    }
    if find(
        &desired.deployments,
        &ReleasingIn { environment: &key.0, project: &key.1 },
    ).is_some() {
        return false;
    }
    desired.instance(key, &value.deployment_id).is_none() && desired.deployments.at(
        &value.deployment_id,
    ).is_some()
}

/// The ports of the first `n` instances, whatever their state.
pub open spec fn every_instance_host(
    instances: Seq<Stored<WorkloadInstanceRecord>>,
    n: nat,
) -> Seq<u16>
    decreases n,
{
    if n == 0 {
        Seq::empty()
    } else {
        every_instance_host(instances, (n - 1) as nat) + hosts_of(instances[n - 1].value.ports@)
    }
}

/// The ports in use and the ports taken, one after another.
pub ghost struct Taken {
    pub used: Seq<u16>,
    pub ports: Seq<u16>,
}

/// Take `n` free ports; nothing when they run out.
pub open spec fn take_ports(
    n: nat,
    used: Seq<u16>,
    range: (u16, u16),
    unavailable: Seq<u16>,
) -> Option<Taken>
    decreases n,
{
    if n == 0 {
        Some(Taken { used, ports: Seq::empty() })
    } else {
        match take_ports((n - 1) as nat, used, range, unavailable) {
            Some(taken) => match first_free(range, taken.used, unavailable) {
                Some(port) => Some(
                    Taken { used: taken.used.push(port), ports: taken.ports.push(port) },
                ),
                None => None,
            },
            None => None,
        }
    }
}

proof fn lemma_take_fails(n: nat, m: nat, used: Seq<u16>, range: (u16, u16), unavailable: Seq<u16>)
    requires
        n <= m,
        take_ports(n, used, range, unavailable) is None,
    ensures
        take_ports(m, used, range, unavailable) is None,
    decreases m,
{
    if n < m {
        lemma_take_fails(n, (m - 1) as nat, used, range, unavailable);
    }
}

/// What has been adopted among the first workloads: the ports in use, and
/// each adopted workload's position and its instance's ports.
pub ghost struct Adopted {
    pub used: Seq<u16>,
    pub rows: Seq<(int, Seq<u16>)>,
}

/// The adoptions among the first `n` workloads; nothing when ports run out.
pub open spec fn adopted(
    desired: Desired,
    n: nat,
    range: (u16, u16),
    unavailable: Seq<u16>,
) -> Option<Adopted>
    decreases n,
{
    if n == 0 {
        Some(
            Adopted {
                used: every_instance_host(
                    desired.instances.values(),
                    desired.instances.values().len(),
                ),
                rows: Seq::empty(),
            },
        )
    } else {
        match adopted(desired, (n - 1) as nat, range, unavailable) {
            None => None,
            Some(before) => {
                let (key, workload) = desired.workloads.rows()[n - 1];
                if !needs_adoption(desired, key, workload) {
                    Some(before)
                } else {
                    match take_ports(
                        workload.value.ports@.len(),
                        before.used,
                        range,
                        unavailable,
                    ) {
                        Some(taken) => Some(
                            Adopted {
                                used: taken.used,
                                rows: before.rows.push((n - 1, taken.ports)),
                            },
                        ),
                        None => None,
                    }
                }
            },
        }
    }
}

proof fn lemma_adoption_fails(desired: Desired, n: nat, m: nat, range: (u16, u16), unavailable: Seq<u16>)
    requires
        n <= m,
        adopted(desired, n, range, unavailable) is None,
    ensures
        adopted(desired, m, range, unavailable) is None,
    decreases m,
{
    if n < m {
        lemma_adoption_fails(desired, n, (m - 1) as nat, range, unavailable);
    }
}

/// The revision a workload's deployment released.
pub open spec fn deployed_revision(desired: Desired, deployment_id: Seq<char>) -> Seq<char> {
    if desired.deployments@.contains_key(key1(deployment_id)) {
        desired.deployments@[key1(deployment_id)].value.revision@
    } else {
        Seq::empty()
    }
}

/// Whether `write` assigns one of a workload's endpoints to its adopted
/// instance.
pub open spec fn adopts_endpoint(
    write: TrafficWrite,
    desired: Desired,
    key: Key,
    workload: Stored<WorkloadRecord>,
    instance_id: Seq<char>,
    binding: PortBinding,
    port: u16,
    now: i64,
) -> bool {
    let value = workload.value;
    let name = endpoint_text(key.0@, key.1@, key.2@, binding.name@);
    let record = write.record;
    &&& opt_text(write.replaces) == (if desired.traffic@.contains_key(key1(name)) {
        Some(desired.traffic@[key1(name)].id@)
    } else {
        None
    })
    &&& write.from_revision is None
    &&& record.endpoint@ == name
    &&& record.environment@ == key.0@
    &&& record.project@ == key.1@
    &&& record.workload@ == key.2@
    &&& record.port@ == binding.name@
    &&& record.host_port == binding.host
    &&& record.domains@.len() == 0
    &&& record.deployment_id@ == value.deployment_id@
    &&& record.revision@ == deployed_revision(desired, value.deployment_id@)
    &&& record.instance_id@ == instance_id
    &&& record.target_port == port
    &&& record.status@ == "active"@
    &&& record.previous_deployment_id is None
    &&& record.previous_instance_id is None
    &&& record.switched_at == now
}

/// Whether an adoption gives a workload an instance that serves on its
/// existing endpoints, from the given ports.
pub open spec fn is_adoption(
    adoption: Adoption,
    desired: Desired,
    key: Key,
    workload: Stored<WorkloadRecord>,
    instance_id: Seq<char>,
    ports: Seq<u16>,
    now: i64,
) -> bool {
    let value = workload.value;
    let instance = adoption.instance;
    &&& adoption.instance_id@ == instance_id
    &&& instance.environment_id@ == value.environment_id@
    &&& instance.environment@ == key.0@
    &&& instance.project_id@ == value.project_id@
    &&& instance.project@ == key.1@
    &&& instance.workload@ == key.2@
    &&& instance.workload_id@ == workload.id@
    &&& instance.deployment_id@ == value.deployment_id@
    &&& instance.revision@ == deployed_revision(desired, value.deployment_id@)
    &&& instance.state == InstanceState::Serving
    &&& opt_text(instance.readiness) == Some(
        "adopted: running before zero-downtime releases"@,
    )
    &&& instance.started_at == Some(now)
    &&& instance.ready_at == Some(now)
    &&& instance.stopped_at is None
    &&& instance.error is None
    &&& instance.updated_at == now
    &&& instance.ports@.len() == value.ports@.len()
    &&& ports.len() == value.ports@.len()
    &&& forall|i: int|
        0 <= i < ports.len() ==> (#[trigger] instance.ports@[i]).name@ == value.ports@[i].name@
            && instance.ports@[i].logical == value.ports@[i].logical && instance.ports@[i].host
            == ports[i]
    &&& adoption.traffic@.len() == ports.len()
    &&& forall|i: int|
        0 <= i < ports.len() ==> adopts_endpoint(
            #[trigger] adoption.traffic@[i],
            desired,
            key,
            workload,
            instance_id,
            value.ports@[i],
            ports[i],
            now,
        )
}

pub open spec fn are_adoptions(
    adoptions: Seq<Adoption>,
    desired: Desired,
    instance_ids: Seq<String>,
    rows: Seq<(int, Seq<u16>)>,
    now: i64,
) -> bool {
    &&& adoptions.len() == rows.len()
    &&& forall|k: int|
        0 <= k < adoptions.len() ==> is_adoption(
            #[trigger] adoptions[k],
            desired,
            desired.workloads.rows()[rows[k].0].0,
            desired.workloads.rows()[rows[k].0].1,
            instance_ids[rows[k].0]@,
            rows[k].1,
            now,
        )
}

fn adopt(
    desired: &Desired,
    key: &Key,
    workload: &Stored<WorkloadRecord>,
    instance_id: &str,
    ports: &Vec<u16>,
    now: i64,
) -> (r: Adoption)
    requires
        ports@.len() == workload.value.ports@.len(),
    ensures
        is_adoption(r, *desired, *key, *workload, instance_id@, ports@, now),
{
    let value = &workload.value;
    let revision = match desired.deployments.at(&value.deployment_id) {
        Some(deployment) => deployment.value.revision.clone(),
        None => String::new(),
    };
    let mut own: Vec<PortBinding> = Vec::new();
    let mut traffic: Vec<TrafficWrite> = Vec::new();
    let mut i: usize = 0;
    while i < ports.len()
        invariant
            i <= ports@.len(),
            own@.len() == i,
            traffic@.len() == i,
            forall|j: int|
                0 <= j < i ==> (#[trigger] own@[j]).name@ == value.ports@[j].name@
                    && own@[j].logical == value.ports@[j].logical && own@[j].host == ports@[j],
            forall|j: int|
                0 <= j < i ==> adopts_endpoint(
                    #[trigger] traffic@[j],
                    *desired,
                    *key,
                    *workload,
                    instance_id@,
                    value.ports@[j],
                    ports@[j],
                    now,
                ),
        decreases ports@.len() - i,
    {
        let binding = &value.ports[i];
        own.push(
            PortBinding { name: binding.name.clone(), logical: binding.logical, host: ports[i] },
        );
        let name = endpoint(&key.0, &key.1, &key.2, &binding.name);
        let replaces = match desired.traffic.at(&name) {
            Some(existing) => Some(existing.id.clone()),
            None => None,
        };
        traffic.push(
            TrafficWrite {
                replaces,
                from_revision: None,
                record: TrafficAssignmentRecord {
                    endpoint: name,
                    environment: key.0.clone(),
                    project: key.1.clone(),
                    workload: key.2.clone(),
                    port: binding.name.clone(),
                    host_port: binding.host,
                    domains: Vec::new(),
                    deployment_id: value.deployment_id.clone(),
                    revision: revision.clone(),
                    instance_id: instance_id.to_owned(),
                    target_port: ports[i],
                    status: "active".to_owned(),
                    previous_deployment_id: None,
                    previous_instance_id: None,
                    switched_at: now,
                },
            },
        );
        i += 1;
    }
    Adoption {
        instance_id: instance_id.to_owned(),
        instance: WorkloadInstanceRecord {
            environment_id: value.environment_id.clone(),
            environment: key.0.clone(),
            project_id: value.project_id.clone(),
            project: key.1.clone(),
            workload: key.2.clone(),
            workload_id: workload.id.clone(),
            deployment_id: value.deployment_id.clone(),
            revision,
            state: InstanceState::Serving,
            ports: own,
            readiness: Some("adopted: running before zero-downtime releases".to_owned()),
            started_at: Some(now),
            ready_at: Some(now),
            stopped_at: None,
            error: None,
            updated_at: now,
        },
        traffic,
    }
}

/// Give each current service that runs without an instance one that serves
/// on its existing endpoints. `instance_ids` holds the identifier an
/// instance of each workload gets. When instance ports run out, nothing is
/// adopted.
pub fn adopt_services(
    desired: &Desired,
    instance_ids: &Vec<String>,
    range: (u16, u16),
    unavailable: &Vec<u16>,
    now: i64,
) -> (r: Option<Vec<Adoption>>)
    requires
        instance_ids@.len() == desired.workloads.rows().len(),
    ensures
        match adopted(*desired, desired.workloads.rows().len(), range, unavailable@) {
            Some(all) => r matches Some(adoptions) && are_adoptions(
                adoptions@,
                *desired,
                instance_ids@,
                all.rows,
                now,
            ),
            None => r is None,
        },
{
    let ghost workloads = desired.workloads.rows();
    let ghost instances = desired.instances.values();
    let mut used: Vec<u16> = Vec::new();
    let mut k: usize = 0;
    while k < desired.instances.len()
        invariant
            k <= instances.len(),
            used@ == every_instance_host(instances, k as nat),
        decreases instances.len() - k,
    {
        append_hosts(&mut used, &desired.instances.value_at(k).value.ports);
        k += 1;
    }
    let mut r: Vec<Adoption> = Vec::new();
    let ghost mut rows: Seq<(int, Seq<u16>)> = Seq::empty();
    let mut i: usize = 0;
    while i < desired.workloads.len()
        invariant
            i <= workloads.len(),
            adopted(*desired, i as nat, range, unavailable@) == Some(Adopted { used: used@, rows }),
            are_adoptions(r@, *desired, instance_ids@, rows, now),
        decreases workloads.len() - i,
    {
        let key = desired.workloads.key_at(i);
        let workload = desired.workloads.value_at(i);
        if is_unadopted(desired, key, workload) {
            let ghost before = used@;
            let ghost wanted = workload.value.ports@.len();
            let mut ports: Vec<u16> = Vec::new();
            let mut j: usize = 0;
            while j < workload.value.ports.len()
                invariant
                    j <= wanted,
                    ports@.len() == j,
                    take_ports(j as nat, before, range, unavailable@) == Some(
                        Taken { used: used@, ports: ports@ },
                    ),
                decreases wanted - j,
            {
                match free_port(range, &used, unavailable, false) {
                    Ok(port) => {
                        used.push(port);
                        ports.push(port);
                    },
                    Err(_) => {
                        proof {
                            lemma_take_fails(
                                (j + 1) as nat,
                                wanted,
                                before,
                                range,
                                unavailable@,
                            );
                            lemma_adoption_fails(
                                *desired,
                                (i + 1) as nat,
                                workloads.len(),
                                range,
                                unavailable@,
                            );
                        }
                        return None;
                    },
                }
                j += 1;
            }
            r.push(adopt(desired, key, workload, &instance_ids[i], &ports, now));
            proof {
                rows = rows.push((i as int, ports@));
            }
        }
        i += 1;
    }
    Some(r)
}

// ---- Laws -------------------------------------------------------------------

/// A workload is given an instance exactly when it is a service, no instance
/// of its deployment stands for it, its deployment is known, and nothing of
/// its project is being released.
pub proof fn law_only_bare_services_are_adopted(
    desired: Desired,
    key: Key,
    workload: Stored<WorkloadRecord>,
)
    ensures
        needs_adoption(desired, key, workload) <==> {
            &&& workload.value.kind == WorkloadKind::Service
            &&& desired.deployments@.contains_key(key1(workload.value.deployment_id@))
            &&& forall|i: int|
                0 <= i < desired.instances.values().len() ==> {
                    let instance = (#[trigger] desired.instances.values()[i]).value;
                    ||| instance.environment@ != key.0@
                    ||| instance.project@ != key.1@
                    ||| instance.workload@ != key.2@
                    ||| instance.deployment_id@ != workload.value.deployment_id@
                }
            &&& forall|d: int|
                0 <= d < desired.deployments.values().len() ==> {
                    let release = (#[trigger] desired.deployments.values()[d]).value;
                    ||| release.environment@ != key.0@
                    ||| release.project@ != key.1@
                    ||| release.status is Complete
                    ||| release.status is Failed
                    ||| release.status is RolledBack
                }
        },
{
    let deployments = desired.deployments.values();
    let instances = desired.instances.values();
    let releasing = releasing_in(key.0@, key.1@);
    let own = crate::desired::instance_of(
        key.0@,
        key.1@,
        key.2@,
        workload.value.deployment_id@,
    );
    lemma_first(deployments, releasing);
    lemma_first(instances, own);
    if let Some(d) = crate::search::first(deployments, releasing) {
        assert(releasing(deployments[d]));
    }
    if let Some(i) = crate::search::first(instances, own) {
        assert(own(instances[i]));
    }
    if needs_adoption(desired, key, workload) {
        assert forall|i: int| 0 <= i < instances.len() implies {
            let instance = (#[trigger] instances[i]).value;
            ||| instance.environment@ != key.0@
            ||| instance.project@ != key.1@
            ||| instance.workload@ != key.2@
            ||| instance.deployment_id@ != workload.value.deployment_id@
        } by {
            assert(!own(instances[i]));
        }
        assert forall|d: int| 0 <= d < deployments.len() implies {
            let release = (#[trigger] deployments[d]).value;
            ||| release.environment@ != key.0@
            ||| release.project@ != key.1@
            ||| release.status is Complete
            ||| release.status is Failed
            ||| release.status is RolledBack
        } by {
            assert(!releasing(deployments[d]));
        }
    }
}

/// Every workload that needs an instance is given one, unless ports run out.
pub proof fn law_every_bare_service_is_adopted(
    desired: Desired,
    n: nat,
    range: (u16, u16),
    unavailable: Seq<u16>,
    i: int,
)
    requires
        0 <= i < n <= desired.workloads.rows().len(),
        needs_adoption(
            desired,
            desired.workloads.rows()[i].0,
            desired.workloads.rows()[i].1,
        ),
        adopted(desired, n, range, unavailable) is Some,
    ensures
        exists|k: int|
            0 <= k < adopted(desired, n, range, unavailable)->0.rows.len() && (#[trigger] adopted(
                desired,
                n,
                range,
                unavailable,
            )->0.rows[k]).0 == i,
    decreases n,
{
    let after = adopted(desired, n, range, unavailable)->0.rows;
    if i == n - 1 {
        assert(after[after.len() - 1].0 == i);
    } else {
        law_every_bare_service_is_adopted(desired, (n - 1) as nat, range, unavailable, i);
        let before = adopted(desired, (n - 1) as nat, range, unavailable)->0.rows;
        let k = choose|k: int| 0 <= k < before.len() && (#[trigger] before[k]).0 == i;
        assert(after[k] == before[k]);
    }
}

/// The ports that are taken for an instance lie in their range, were in use
/// by nothing, accept a listener as far as is known, and differ.
pub proof fn law_adopted_instances_get_free_ports(
    n: nat,
    used: Seq<u16>,
    range: (u16, u16),
    unavailable: Seq<u16>,
)
    ensures
        take_ports(n, used, range, unavailable) matches Some(taken) ==> {
            &&& taken.ports.len() == n
            &&& forall|port: u16| used.contains(port) ==> #[trigger] taken.used.contains(port)
            &&& forall|i: int|
                0 <= i < n ==> {
                    &&& range.0 <= #[trigger] taken.ports[i] <= range.1
                    &&& !used.contains(taken.ports[i])
                    &&& !unavailable.contains(taken.ports[i])
                    &&& taken.used.contains(taken.ports[i])
                }
            &&& forall|i: int, j: int|
                0 <= i < j < n ==> (#[trigger] taken.ports[i]) != (#[trigger] taken.ports[j])
        },
    decreases n,
{
    if n > 0 {
        law_adopted_instances_get_free_ports((n - 1) as nat, used, range, unavailable);
        if let Some(before) = take_ports((n - 1) as nat, used, range, unavailable) {
            crate::ports::law_free_ports_are_free(range, before.used, unavailable);
            if let Some(taken) = take_ports(n, used, range, unavailable) {
                let port = taken.ports[n - 1];
                assert forall|other: u16|
                    before.used.contains(other) implies #[trigger] taken.used.contains(other) by {
                    let k = choose|k: int| 0 <= k < before.used.len() && before.used[k] == other;
                    assert(taken.used[k] == other);
                }
                assert(taken.used[before.used.len() as int] == port);
                assert forall|other: u16|
                    used.contains(other) implies #[trigger] taken.used.contains(other) by {
                    assert(before.used.contains(other));
                }
                assert forall|i: int| 0 <= i < n implies {
                    &&& range.0 <= #[trigger] taken.ports[i] <= range.1
                    &&& !used.contains(taken.ports[i])
                    &&& !unavailable.contains(taken.ports[i])
                    &&& taken.used.contains(taken.ports[i])
                } by {
                    if i < n - 1 {
                        assert(taken.ports[i] == before.ports[i]);
                        assert(before.used.contains(before.ports[i]));
                    } else if used.contains(port) {
                        assert(before.used.contains(port));
                    }
                }
                assert forall|i: int, j: int| 0 <= i < j < n implies (
                #[trigger] taken.ports[i]) != (#[trigger] taken.ports[j]) by {
                    assert(taken.ports[i] == before.ports[i]);
                    assert(before.used.contains(before.ports[i]));
                    if j < n - 1 {
                        assert(taken.ports[j] == before.ports[j]);
                    }
                }
            }
        }
    }
}

/// An adopted service keeps serving where it did: its instance serves its
/// current deployment, and each of its endpoints keeps its host port and is
/// forwarded to the instance's own port.
pub proof fn law_adoption_keeps_the_endpoints(
    adoption: Adoption,
    desired: Desired,
    key: Key,
    workload: Stored<WorkloadRecord>,
    instance_id: Seq<char>,
    ports: Seq<u16>,
    now: i64,
    i: int,
)
    requires
        is_adoption(adoption, desired, key, workload, instance_id, ports, now),
        0 <= i < workload.value.ports@.len(),
    ensures
        adoption.instance_id@ == instance_id,
        adoption.instance.environment@ == key.0@,
        adoption.instance.project@ == key.1@,
        adoption.instance.workload@ == key.2@,
        adoption.instance.deployment_id@ == workload.value.deployment_id@,
        adoption.instance.state == InstanceState::Serving,
        adoption.instance.ports@.len() == workload.value.ports@.len(),
        adoption.instance.ports@[i].name@ == workload.value.ports@[i].name@,
        adoption.instance.ports@[i].host == ports[i],
        adoption.traffic@.len() == workload.value.ports@.len(),
        ({
            let record = adoption.traffic@[i].record;
            &&& record.endpoint@ == key.0@ + "/"@ + key.1@ + "/"@ + key.2@ + "/"@
                + workload.value.ports@[i].name@
            &&& record.host_port == workload.value.ports@[i].host
            &&& record.instance_id@ == instance_id
            &&& record.target_port == ports[i]
            &&& record.deployment_id@ == workload.value.deployment_id@
        }),
{
    assert(adopts_endpoint(
        adoption.traffic@[i],
        desired,
        key,
        workload,
        instance_id,
        workload.value.ports@[i],
        ports[i],
        now,
    ));
    assert(adoption.instance.ports@[i].host == ports[i]);
}

/// An adopted instance is the workload's own: it serves since now, with the
/// workload's names and revision, and ended never.
pub proof fn law_adopted_instances_serve(
    adoption: Adoption,
    desired: Desired,
    key: Key,
    workload: Stored<WorkloadRecord>,
    instance_id: Seq<char>,
    ports: Seq<u16>,
    now: i64,
)
    requires
        is_adoption(adoption, desired, key, workload, instance_id, ports, now),
    ensures
        adoption.instance_id@ == instance_id,
        adoption.instance.environment_id@ == workload.value.environment_id@,
        adoption.instance.environment@ == key.0@,
        adoption.instance.project_id@ == workload.value.project_id@,
        adoption.instance.project@ == key.1@,
        adoption.instance.workload@ == key.2@,
        adoption.instance.workload_id@ == workload.id@,
        adoption.instance.deployment_id@ == workload.value.deployment_id@,
        adoption.instance.state == InstanceState::Serving,
        adoption.instance.readiness is Some,
        adoption.instance.started_at == Some(now),
        adoption.instance.ready_at == Some(now),
        adoption.instance.stopped_at is None,
        adoption.instance.error is None,
        adoption.instance.updated_at == now,
        desired.deployments@.contains_key(seq![workload.value.deployment_id@])
            ==> adoption.instance.revision@
            == desired.deployments@[seq![workload.value.deployment_id@]].value.revision@,
        adoption.traffic@.len() == workload.value.ports@.len(),
{
    assert(key1(workload.value.deployment_id@) =~= seq![workload.value.deployment_id@]);
}

/// Each endpoint of an adopted workload leads to its instance: the endpoint
/// keeps its host port, and the instance listens on the port it was given.
pub proof fn law_adopted_endpoints_lead_to_the_instance(
    write: TrafficWrite,
    desired: Desired,
    key: Key,
    workload: Stored<WorkloadRecord>,
    instance_id: Seq<char>,
    binding: PortBinding,
    port: u16,
    now: i64,
)
    requires
        adopts_endpoint(write, desired, key, workload, instance_id, binding, port, now),
    ensures
        write.from_revision is None,
        write.record.endpoint@ == key.0@ + "/"@ + key.1@ + "/"@ + key.2@ + "/"@ + binding.name@,
        write.record.environment@ == key.0@,
        write.record.project@ == key.1@,
        write.record.workload@ == key.2@,
        write.record.port@ == binding.name@,
        write.record.host_port == binding.host,
        write.record.target_port == port,
        write.record.domains@.len() == 0,
        write.record.deployment_id@ == workload.value.deployment_id@,
        write.record.instance_id@ == instance_id,
        write.record.status@ == "active"@,
        write.record.previous_deployment_id is None,
        write.record.previous_instance_id is None,
        write.record.switched_at == now,
        desired.traffic@.contains_key(seq![write.record.endpoint@]) ==> opt_text(write.replaces)
            == Some(desired.traffic@[seq![write.record.endpoint@]].id@),
        !desired.traffic@.contains_key(seq![write.record.endpoint@]) ==> write.replaces is None,
        desired.deployments@.contains_key(seq![workload.value.deployment_id@])
            ==> write.record.revision@
            == desired.deployments@[seq![workload.value.deployment_id@]].value.revision@,
{
    assert(key1(workload.value.deployment_id@) =~= seq![workload.value.deployment_id@]);
    assert(key1(write.record.endpoint@) =~= seq![write.record.endpoint@]);
}

} // verus!
