//! Reading desired state: which records it is made of, and how they are
//! found again.

use vstd::prelude::*;

use crate::desired::Desired;
use crate::events::Key;
use crate::state::{
    CertificateRecord, DeploymentRecord, DeploymentStatus, DnsRecordRecord, DomainRecord,
    EnvironmentProjectRecord, EnvironmentRecord, ProjectRecord, ProjectRevisionRecord, Stored,
    TrafficAssignmentRecord, WorkloadInstanceRecord, WorkloadRecord,
};
use crate::table::{in_order, key1, key2, key3, Keep, MapKey, Table};
use crate::text::{opt_text, same, texts};

verus! {

// ---- Tables from lists ------------------------------------------------------

/// How a record is found again: by the key it gives.
pub trait KeyOf<K: MapKey, V> {
    spec fn parts_of(&self, value: V) -> Seq<Seq<char>>;

    fn key_of(&self, value: &V) -> (r: K)
        ensures
            r.parts() == self.parts_of(*value),
    ;
}

/// The first `n` records of a list, by their keys; of records with one key,
/// the last.
pub open spec fn keyed<K: MapKey, V, F: KeyOf<K, V>>(list: Seq<V>, by: F, n: nat) -> Map<
    Seq<Seq<char>>,
    V,
>
    decreases n,
{
    if n == 0 {
        Map::empty()
    } else {
        keyed::<K, V, F>(list, by, (n - 1) as nat).insert(
            by.parts_of(list[n - 1]),
            list[n - 1],
        )
    }
}

/// Every record is found under its own key.
proof fn lemma_keyed<K: MapKey, V, F: KeyOf<K, V>>(list: Seq<V>, by: F, n: nat)
    requires
        n <= list.len(),
    ensures
        forall|key: Seq<Seq<char>>| #[trigger]
            keyed::<K, V, F>(list, by, n).contains_key(key) ==> by.parts_of(
                keyed::<K, V, F>(list, by, n)[key],
            ) == key,
    decreases n,
{
    if n > 0 {
        lemma_keyed::<K, V, F>(list, by, (n - 1) as nat);
        let before = keyed::<K, V, F>(list, by, (n - 1) as nat);
        let after = keyed::<K, V, F>(list, by, n);
        assert forall|key: Seq<Seq<char>>| #[trigger] after.contains_key(key) implies by.parts_of(
            after[key],
        ) == key by {
            if key != by.parts_of(list[n - 1]) {
                assert(before.contains_key(key));
            }
        }
    }
}

/// The records of a list, by their keys.
pub fn collect<K: MapKey, V, F: KeyOf<K, V>>(list: Vec<V>, by: &F) -> (r: Table<K, V>)
    ensures
        r@ == keyed::<K, V, F>(list@, *by, list@.len()),
        forall|key: Seq<Seq<char>>| #[trigger]
            r@.contains_key(key) ==> by.parts_of(r@[key]) == key,
{
    let ghost all = list@;
    let mut rest = list;
    let mut turned: Vec<V> = Vec::new();
    while rest.len() > 0
        invariant
            rest@.len() + turned@.len() == all.len(),
            rest@ == all.take(rest@.len() as int),
            forall|k: int|
                0 <= k < turned@.len() ==> (#[trigger] turned@[k]) == all[all.len() - 1 - k],
        decreases rest@.len(),
    {
        if let Some(value) = rest.pop() {
            proof {
                assert(rest@ =~= all.take(rest@.len() as int));
            }
            turned.push(value);
        }
    }
    let mut r: Table<K, V> = Table::new();
    while turned.len() > 0
        invariant
            turned@.len() <= all.len(),
            forall|k: int|
                0 <= k < turned@.len() ==> (#[trigger] turned@[k]) == all[all.len() - 1 - k],
            r@ == keyed::<K, V, F>(all, *by, (all.len() - turned@.len()) as nat),
        decreases turned@.len(),
    {
        if let Some(value) = turned.pop() {
            let key = by.key_of(&value);
            r.insert(key, value);
        }
    }
    proof {
        lemma_keyed::<K, V, F>(all, *by, all.len());
    }
    r
}

/// Environments are found by name.
pub struct ByEnvironment {}

impl KeyOf<String, Stored<EnvironmentRecord>> for ByEnvironment {
    open spec fn parts_of(&self, value: Stored<EnvironmentRecord>) -> Seq<Seq<char>> {
        key1(value.value.name@)
    }

    fn key_of(&self, value: &Stored<EnvironmentRecord>) -> (r: String) {
        value.value.name.clone()
    }
}

/// Projects are found by name.
pub struct ByProject {}

impl KeyOf<String, Stored<ProjectRecord>> for ByProject {
    open spec fn parts_of(&self, value: Stored<ProjectRecord>) -> Seq<Seq<char>> {
        key1(value.value.name@)
    }

    fn key_of(&self, value: &Stored<ProjectRecord>) -> (r: String) {
        value.value.name.clone()
    }
}

/// Memberships are found by environment and project.
pub struct ByMembership {}

impl KeyOf<(String, String), Stored<EnvironmentProjectRecord>> for ByMembership {
    open spec fn parts_of(&self, value: Stored<EnvironmentProjectRecord>) -> Seq<Seq<char>> {
        key2(value.value.environment@, value.value.project@)
    }

    fn key_of(&self, value: &Stored<EnvironmentProjectRecord>) -> (r: (String, String)) {
        (value.value.environment.clone(), value.value.project.clone())
    }
}

/// Workloads are found by environment, project and name.
pub struct ByWorkload {}

impl KeyOf<Key, Stored<WorkloadRecord>> for ByWorkload {
    open spec fn parts_of(&self, value: Stored<WorkloadRecord>) -> Seq<Seq<char>> {
        key3(value.value.environment@, value.value.project@, value.value.name@)
    }

    fn key_of(&self, value: &Stored<WorkloadRecord>) -> (r: Key) {
        (
            value.value.environment.clone(),
            value.value.project.clone(),
            value.value.name.clone(),
        )
    }
}

/// Traffic assignments are found by endpoint.
pub struct ByEndpoint {}

impl KeyOf<String, Stored<TrafficAssignmentRecord>> for ByEndpoint {
    open spec fn parts_of(&self, value: Stored<TrafficAssignmentRecord>) -> Seq<Seq<char>> {
        key1(value.value.endpoint@)
    }

    fn key_of(&self, value: &Stored<TrafficAssignmentRecord>) -> (r: String) {
        value.value.endpoint.clone()
    }
}

/// Domains are found by name.
pub struct ByDomain {}

impl KeyOf<String, Stored<DomainRecord>> for ByDomain {
    open spec fn parts_of(&self, value: Stored<DomainRecord>) -> Seq<Seq<char>> {
        key1(value.value.name@)
    }

    fn key_of(&self, value: &Stored<DomainRecord>) -> (r: String) {
        value.value.name.clone()
    }
}

/// Certificates are found by domain.
pub struct ByCertificate {}

impl KeyOf<String, Stored<CertificateRecord>> for ByCertificate {
    open spec fn parts_of(&self, value: Stored<CertificateRecord>) -> Seq<Seq<char>> {
        key1(value.value.domain@)
    }

    fn key_of(&self, value: &Stored<CertificateRecord>) -> (r: String) {
        value.value.domain.clone()
    }
}

/// Everything else is found by its identifier.
pub struct ById {}

impl<T> KeyOf<String, Stored<T>> for ById {
    open spec fn parts_of(&self, value: Stored<T>) -> Seq<Seq<char>> {
        key1(value.id@)
    }

    fn key_of(&self, value: &Stored<T>) -> (r: String) {
        value.id.clone()
    }
}

// ---- Desired state ----------------------------------------------------------

/// The stored documents desired state is made of.
pub struct Listing {
    pub environments: Vec<Stored<EnvironmentRecord>>,
    pub projects: Vec<Stored<ProjectRecord>>,
    pub memberships: Vec<Stored<EnvironmentProjectRecord>>,
    pub workloads: Vec<Stored<WorkloadRecord>>,
    pub instances: Vec<Stored<WorkloadInstanceRecord>>,
    pub traffic: Vec<Stored<TrafficAssignmentRecord>>,
    pub domains: Vec<Stored<DomainRecord>>,
    pub dns_records: Vec<Stored<DnsRecordRecord>>,
    pub certificates: Vec<Stored<CertificateRecord>>,
    /// The releases in flight.
    pub deployments: Vec<Stored<DeploymentRecord>>,
}

/// Whether one of the first `n` memberships has the deployment current.
pub open spec fn is_current(
    memberships: Seq<Stored<EnvironmentProjectRecord>>,
    deployment_id: Seq<char>,
    n: nat,
) -> bool {
    exists|i: int|
        0 <= i < n && opt_text((#[trigger] memberships[i]).value.deployment_id) == Some(
            deployment_id,
        )
}

/// Whether one of the first `n` instances belongs to the deployment.
pub open spec fn has_instance(
    instances: Seq<Stored<WorkloadInstanceRecord>>,
    deployment_id: Seq<char>,
    n: nat,
) -> bool {
    exists|i: int|
        0 <= i < n && (#[trigger] instances[i]).value.deployment_id@ == deployment_id
}

/// Whether one of the first `n` deployments released the revision.
pub open spec fn is_released(
    deployments: Seq<Stored<DeploymentRecord>>,
    revision_id: Seq<char>,
    n: nat,
) -> bool {
    exists|i: int| 0 <= i < n && (#[trigger] deployments[i]).value.revision_id@ == revision_id
}

/// Keeps the revisions that some deployment released.
struct Released<'a> {
    deployments: &'a Table<String, Stored<DeploymentRecord>>,
}

impl<'a> Keep<String, ProjectRevisionRecord> for Released<'a> {
    closed spec fn keeps(&self, key: Seq<Seq<char>>, value: ProjectRevisionRecord) -> bool {
        is_released(self.deployments.values(), key[0], self.deployments.values().len())
    }

    fn keep(&self, key: &String, value: &ProjectRevisionRecord) -> (r: bool) {
        let ghost deployments = self.deployments.values();
        proof {
            assert(key.parts()[0] == key@);
        }
        let mut i: usize = 0;
        while i < self.deployments.len()
            invariant
                i <= deployments.len(),
                !is_released(deployments, key@, i as nat),
            decreases deployments.len() - i,
        {
            if same(&self.deployments.value_at(i).value.revision_id, key) {
                proof {
                    assert(deployments[i as int].value.revision_id@ == key@);
                }
                return true;
            }
            i += 1;
        }
        false
    }
}

impl Desired {
    /// Whether every record is found by what it says of itself.
    pub open spec fn is_keyed(self) -> bool {
        &&& forall|key: Seq<Seq<char>>| #[trigger]
            self.environments@.contains_key(key) ==> key == key1(
                self.environments@[key].value.name@,
            )
        &&& forall|key: Seq<Seq<char>>| #[trigger]
            self.projects@.contains_key(key) ==> key == key1(self.projects@[key].value.name@)
        &&& forall|key: Seq<Seq<char>>| #[trigger]
            self.memberships@.contains_key(key) ==> key == key2(
                self.memberships@[key].value.environment@,
                self.memberships@[key].value.project@,
            )
        &&& forall|key: Seq<Seq<char>>| #[trigger]
            self.workloads@.contains_key(key) ==> key == key3(
                self.workloads@[key].value.environment@,
                self.workloads@[key].value.project@,
                self.workloads@[key].value.name@,
            )
        &&& forall|key: Seq<Seq<char>>| #[trigger]
            self.deployments@.contains_key(key) ==> key == key1(self.deployments@[key].id@)
        &&& forall|key: Seq<Seq<char>>| #[trigger]
            self.instances@.contains_key(key) ==> key == key1(self.instances@[key].id@)
        &&& forall|key: Seq<Seq<char>>| #[trigger]
            self.traffic@.contains_key(key) ==> key == key1(self.traffic@[key].value.endpoint@)
        &&& forall|key: Seq<Seq<char>>| #[trigger]
            self.domains@.contains_key(key) ==> key == key1(self.domains@[key].value.name@)
        &&& forall|key: Seq<Seq<char>>| #[trigger]
            self.dns_records@.contains_key(key) ==> key == key1(self.dns_records@[key].id@)
        &&& forall|key: Seq<Seq<char>>| #[trigger]
            self.certificates@.contains_key(key) ==> key == key1(
                self.certificates@[key].value.domain@,
            )
    }

    /// Desired state as listed, before the deployments it refers to are
    /// added.
    pub fn of(listing: Listing) -> (r: Desired)
        ensures
            r.environments@ == keyed::<String, Stored<EnvironmentRecord>, ByEnvironment>(
                listing.environments@,
                ByEnvironment {  },
                listing.environments@.len(),
            ),
            r.projects@ == keyed::<String, Stored<ProjectRecord>, ByProject>(
                listing.projects@,
                ByProject {  },
                listing.projects@.len(),
            ),
            r.memberships@ == keyed::<
                (String, String),
                Stored<EnvironmentProjectRecord>,
                ByMembership,
            >(listing.memberships@, ByMembership {  }, listing.memberships@.len()),
            r.workloads@ == keyed::<Key, Stored<WorkloadRecord>, ByWorkload>(
                listing.workloads@,
                ByWorkload {  },
                listing.workloads@.len(),
            ),
            r.instances@ == keyed::<String, Stored<WorkloadInstanceRecord>, ById>(
                listing.instances@,
                ById {  },
                listing.instances@.len(),
            ),
            r.traffic@ == keyed::<String, Stored<TrafficAssignmentRecord>, ByEndpoint>(
                listing.traffic@,
                ByEndpoint {  },
                listing.traffic@.len(),
            ),
            r.domains@ == keyed::<String, Stored<DomainRecord>, ByDomain>(
                listing.domains@,
                ByDomain {  },
                listing.domains@.len(),
            ),
            r.dns_records@ == keyed::<String, Stored<DnsRecordRecord>, ById>(
                listing.dns_records@,
                ById {  },
                listing.dns_records@.len(),
            ),
            r.certificates@ == keyed::<String, Stored<CertificateRecord>, ByCertificate>(
                listing.certificates@,
                ByCertificate {  },
                listing.certificates@.len(),
            ),
            r.deployments@ == keyed::<String, Stored<DeploymentRecord>, ById>(
                listing.deployments@,
                ById {  },
                listing.deployments@.len(),
            ),
            r.revisions@ == Map::<Seq<Seq<char>>, ProjectRevisionRecord>::empty(),
            r.is_keyed(),
    {
        Desired {
            environments: collect(listing.environments, &ByEnvironment {  }),
            projects: collect(listing.projects, &ByProject {  }),
            memberships: collect(listing.memberships, &ByMembership {  }),
            workloads: collect(listing.workloads, &ByWorkload {  }),
            deployments: collect(listing.deployments, &ById {  }),
            revisions: Table::new(),
            instances: collect(listing.instances, &ById {  }),
            traffic: collect(listing.traffic, &ByEndpoint {  }),
            domains: collect(listing.domains, &ByDomain {  }),
            dns_records: collect(listing.dns_records, &ById {  }),
            certificates: collect(listing.certificates, &ByCertificate {  }),
        }
    }

    /// Whether a deployment is current somewhere, or an instance belongs to
    /// it.
    pub open spec fn refers_to(self, deployment_id: Seq<char>) -> bool {
        ||| is_current(
            self.memberships.values(),
            deployment_id,
            self.memberships.values().len(),
        )
        ||| has_instance(self.instances.values(), deployment_id, self.instances.values().len())
    }

    /// The deployments desired state refers to and does not hold yet, in
    /// order.
    pub fn missing_deployments(&self) -> (r: Vec<String>)
        ensures
            forall|id: Seq<char>| #[trigger]
                texts(r@).contains(id) <==> self.refers_to(id) && !self.deployments@.contains_key(
                    key1(id),
                ),
            in_order(r@),
    {
        let mut wanted: Table<String, bool> = Table::new();
        let ghost members = self.memberships.values();
        let ghost instances = self.instances.values();
        let mut i: usize = 0;
        while i < self.memberships.len()
            invariant
                i <= members.len(),
                forall|id: Seq<char>| #[trigger]
                    wanted@.contains_key(key1(id)) <==> is_current(members, id, i as nat) && !self.deployments@.contains_key(key1(id)),
            decreases members.len() - i,
        {
            let ghost before = wanted@;
            if let Some(id) = &self.memberships.value_at(i).value.deployment_id {
                if self.deployments.at(id).is_none() {
                    wanted.insert(id.clone(), true);
                }
            }
            proof {
                assert forall|id: Seq<char>| #[trigger]
                    wanted@.contains_key(key1(id)) <==> is_current(members, id, (i + 1) as nat) && !self.deployments@.contains_key(key1(id)) by {
                    assert(key1(id)[0] == id);
                    assert(before.contains_key(key1(id)) <==> is_current(members, id, i as nat) && !self.deployments@.contains_key(key1(id)));
                    if let Some(held) = members[i as int].value.deployment_id {
                        assert(key1(held@)[0] == held@);
                    }
                }
            }
            i += 1;
        }
        let mut j: usize = 0;
        while j < self.instances.len()
            invariant
                j <= instances.len(),
                forall|id: Seq<char>| #[trigger]
                    wanted@.contains_key(key1(id)) <==> (is_current(members, id, members.len())
                        || has_instance(instances, id, j as nat))
                        && !self.deployments@.contains_key(key1(id)),
            decreases instances.len() - j,
        {
            let ghost before = wanted@;
            let id = &self.instances.value_at(j).value.deployment_id;
            if self.deployments.at(id).is_none() {
                wanted.insert(id.clone(), true);
            }
            proof {
                let held = id@;
                assert forall|id: Seq<char>| #[trigger]
                    wanted@.contains_key(key1(id)) <==> (is_current(members, id, members.len())
                        || has_instance(instances, id, (j + 1) as nat))
                        && !self.deployments@.contains_key(key1(id)) by {
                    assert(key1(id)[0] == id);
                    assert(key1(held)[0] == held);
                    assert(before.contains_key(key1(id)) <==> (is_current(members, id, members.len())
                        || has_instance(instances, id, j as nat))
                        && !self.deployments@.contains_key(key1(id)));
                    if id == held {
                        assert(instances[j as int].value.deployment_id@ == id);
                    }
                }
            }
            j += 1;
        }
        let r = wanted.names();
        proof {
            assert forall|id: Seq<char>| #[trigger]
                texts(r@).contains(id) <==> self.refers_to(id) && !self.deployments@.contains_key(
                    key1(id),
                ) by {
                assert(texts(r@).contains(id) <==> wanted@.contains_key(key1(id)));
            }
        }
        r
    }

    /// Add a deployment desired state refers to.
    pub fn add_deployment(&mut self, deployment: Stored<DeploymentRecord>)
        requires
            old(self).is_keyed(),
        ensures
            final(self).deployments@ == old(self).deployments@.insert(
                key1(deployment.id@),
                deployment,
            ),
            final(self).is_keyed(),
            final(self).environments == old(self).environments,
            final(self).projects == old(self).projects,
            final(self).memberships == old(self).memberships,
            final(self).workloads == old(self).workloads,
            final(self).revisions == old(self).revisions,
            final(self).instances == old(self).instances,
            final(self).traffic == old(self).traffic,
            final(self).domains == old(self).domains,
            final(self).dns_records == old(self).dns_records,
            final(self).certificates == old(self).certificates,
    {
        self.deployments.insert(deployment.id.clone(), deployment);
    }

    /// Take over the revisions that were read before and that deployments
    /// still refer to: revisions never change.
    pub fn reuse_revisions(&mut self, known: Table<String, ProjectRevisionRecord>)
        ensures
            forall|key: Seq<Seq<char>>| #[trigger]
                final(self).revisions@.contains_key(key) <==> known@.contains_key(key)
                    && is_released(
                    old(self).deployments.values(),
                    key[0],
                    old(self).deployments.values().len(),
                ),
            forall|key: Seq<Seq<char>>| #[trigger]
                final(self).revisions@.contains_key(key) ==> final(self).revisions@[key]
                    == known@[key],
            *final(self) == (Desired { revisions: final(self).revisions, ..*old(self) }),
    {
        let mut known = known;
        known.retain(&Released { deployments: &self.deployments });
        self.revisions = known;
    }

    /// The revisions deployments released and desired state does not hold
    /// yet, in order.
    pub fn missing_revisions(&self) -> (r: Vec<String>)
        ensures
            forall|id: Seq<char>| #[trigger]
                texts(r@).contains(id) <==> is_released(
                    self.deployments.values(),
                    id,
                    self.deployments.values().len(),
                )
                    && !self.revisions@.contains_key(key1(id)),
            in_order(r@),
    {
        let mut wanted: Table<String, bool> = Table::new();
        let ghost deployments = self.deployments.values();
        let mut i: usize = 0;
        while i < self.deployments.len()
            invariant
                i <= deployments.len(),
                forall|id: Seq<char>| #[trigger]
                    wanted@.contains_key(key1(id)) <==> is_released(deployments, id, i as nat)
                        && !self.revisions@.contains_key(key1(id)),
            decreases deployments.len() - i,
        {
            let ghost before = wanted@;
            let id = &self.deployments.value_at(i).value.revision_id;
            if self.revisions.at(id).is_none() {
                wanted.insert(id.clone(), true);
            }
            proof {
                let held = id@;
                assert forall|id: Seq<char>| #[trigger]
                    wanted@.contains_key(key1(id)) <==> is_released(deployments, id, (i + 1) as nat)
                        && !self.revisions@.contains_key(key1(id)) by {
                    assert(key1(id)[0] == id);
                    assert(key1(held)[0] == held);
                    assert(before.contains_key(key1(id)) <==> is_released(deployments, id, i as nat)
                        && !self.revisions@.contains_key(key1(id)));
                    if id == held {
                        assert(deployments[i as int].value.revision_id@ == id);
                    }
                }
            }
            i += 1;
        }
        let r = wanted.names();
        proof {
            assert forall|id: Seq<char>| #[trigger]
                texts(r@).contains(id) <==> is_released(
                    self.deployments.values(),
                    id,
                    self.deployments.values().len(),
                )
                    && !self.revisions@.contains_key(key1(id)) by {
                assert(texts(r@).contains(id) <==> wanted@.contains_key(key1(id)));
            }
        }
        r
    }
}

/// The statuses of a release in flight, in the order a release goes through
/// them.
pub fn in_flight_statuses() -> (r: Vec<DeploymentStatus>)
    ensures
        r@ == seq![
            DeploymentStatus::Pending,
            DeploymentStatus::Starting,
            DeploymentStatus::Ready,
            DeploymentStatus::NetworkReady,
            DeploymentStatus::Switching,
            DeploymentStatus::Active,
            DeploymentStatus::Draining,
        ],
        forall|status: DeploymentStatus| #[trigger] r@.contains(status) <==> !status.terminal(),
{
    let r = vec![
        DeploymentStatus::Pending,
        DeploymentStatus::Starting,
        DeploymentStatus::Ready,
        DeploymentStatus::NetworkReady,
        DeploymentStatus::Switching,
        DeploymentStatus::Active,
        DeploymentStatus::Draining,
    ];
    proof {
        assert(r@ =~= seq![
            DeploymentStatus::Pending,
            DeploymentStatus::Starting,
            DeploymentStatus::Ready,
            DeploymentStatus::NetworkReady,
            DeploymentStatus::Switching,
            DeploymentStatus::Active,
            DeploymentStatus::Draining,
        ]);
        assert(r@[0] is Pending && r@[1] is Starting && r@[2] is Ready && r@[3] is NetworkReady
            && r@[4] is Switching && r@[5] is Active && r@[6] is Draining);
        assert forall|status: DeploymentStatus| #[trigger]
            r@.contains(status) <==> !status.terminal() by {
            if r@.contains(status) {
                let i = choose|i: int| 0 <= i < r@.len() && r@[i] == status;
                assert(!r@[i].terminal());
            }
            if !status.terminal() {
                match status {
                    DeploymentStatus::Pending => {
                        assert(r@[0] == status);
                    },
                    DeploymentStatus::Starting => {
                        assert(r@[1] == status);
                    },
                    DeploymentStatus::Ready => {
                        assert(r@[2] == status);
                    },
                    DeploymentStatus::NetworkReady => {
                        assert(r@[3] == status);
                    },
                    DeploymentStatus::Switching => {
                        assert(r@[4] == status);
                    },
                    DeploymentStatus::Active => {
                        assert(r@[5] == status);
                    },
                    _ => {
                        assert(r@[6] == status);
                    },
                }
            }
        }
    }
    r
}

/// Desired state as last read, and why it could not be read again.
pub struct Snapshot {
    pub desired: Desired,
    pub state_error: Option<String>,
}

impl Snapshot {
    /// Take in what reading desired state gave. On failure the snapshot is
    /// kept and the error is reported: nothing is started or stopped from
    /// intent that was not read.
    pub fn refresh(&mut self, loaded: Result<Desired, String>) -> (r: bool)
        ensures
            match loaded {
                Ok(desired) => {
                    &&& r
                    &&& final(self).desired == desired
                    &&& final(self).state_error is None
                },
                Err(error) => {
                    &&& !r
                    &&& final(self).desired == old(self).desired
                    &&& final(self).state_error == Some(error)
                },
            },
    {
        match loaded {
            Ok(desired) => {
                self.desired = desired;
                self.state_error = None;
                true
            },
            Err(error) => {
                self.state_error = Some(error);
                false
            },
        }
    }
}

// ---- Laws -------------------------------------------------------------------

/// Every record of a list is found under its key, unless a later one has the
/// same; and nothing is found that was not listed.
pub proof fn law_listed_records_are_found<K: MapKey, V, F: KeyOf<K, V>>(
    list: Seq<V>,
    by: F,
    n: nat,
    key: Seq<Seq<char>>,
)
    requires
        n <= list.len(),
    ensures
        forall|i: int|
            (0 <= i < n && by.parts_of(#[trigger] list[i]) == key && forall|j: int|
                i < j < n ==> by.parts_of(#[trigger] list[j]) != key) ==> keyed::<K, V, F>(
                list,
                by,
                n,
            ).contains_key(key) && keyed::<K, V, F>(list, by, n)[key] == list[i],
        keyed::<K, V, F>(list, by, n).contains_key(key) ==> exists|i: int|
            0 <= i < n && by.parts_of(#[trigger] list[i]) == key && keyed::<K, V, F>(
                list,
                by,
                n,
            )[key] == list[i],
    decreases n,
{
    if n > 0 {
        law_listed_records_are_found::<K, V, F>(list, by, (n - 1) as nat, key);
        let before = keyed::<K, V, F>(list, by, (n - 1) as nat);
        let after = keyed::<K, V, F>(list, by, n);
        if by.parts_of(list[n - 1]) == key {
            assert(after[key] == list[n - 1]);
            assert forall|i: int|
                (0 <= i < n && by.parts_of(#[trigger] list[i]) == key && forall|j: int|
                    i < j < n ==> by.parts_of(#[trigger] list[j]) != key) implies
                after.contains_key(key) && after[key] == list[i] by {
                if i < n - 1 {
                    assert(by.parts_of(list[n - 1]) != key);
                }
            }
        } else {
            assert forall|i: int|
                (0 <= i < n && by.parts_of(#[trigger] list[i]) == key && forall|j: int|
                    i < j < n ==> by.parts_of(#[trigger] list[j]) != key) implies
                after.contains_key(key) && after[key] == list[i] by {
                assert(i < n - 1);
                assert(before.contains_key(key) && before[key] == list[i]);
            }
            if after.contains_key(key) {
                assert(before.contains_key(key));
                let i = choose|i: int|
                    0 <= i < n - 1 && by.parts_of(#[trigger] list[i]) == key && before[key]
                        == list[i];
                assert(by.parts_of(list[i]) == key);
            }
        }
    }
}

/// A deployment is referred to exactly where a project has it current or an
/// instance belongs to it.
pub proof fn law_deployments_are_referred_to(desired: Desired, deployment_id: Seq<char>)
    ensures
        desired.refers_to(deployment_id) <==> (exists|i: int|
            0 <= i < desired.memberships.values().len() && ((
            #[trigger] desired.memberships.values()[i]).value.deployment_id matches Some(id)
                && id@ == deployment_id)) || (exists|i: int|
            0 <= i < desired.instances.values().len() && (
            #[trigger] desired.instances.values()[i]).value.deployment_id@ == deployment_id),
{
    let members = desired.memberships.values();
    let instances = desired.instances.values();
    if is_current(members, deployment_id, members.len()) {
        let i = choose|i: int|
            0 <= i < members.len() && opt_text((#[trigger] members[i]).value.deployment_id)
                == Some(deployment_id);
        assert(members[i].value.deployment_id is Some);
    }
    if exists|i: int|
        0 <= i < members.len() && ((#[trigger] members[i]).value.deployment_id matches Some(id)
            && id@ == deployment_id) {
        let i = choose|i: int|
            0 <= i < members.len() && ((#[trigger] members[i]).value.deployment_id matches Some(id)
                && id@ == deployment_id);
        assert(opt_text(members[i].value.deployment_id) == Some(deployment_id));
    }
}

/// Every record of desired state is found by what it says of itself.
pub proof fn law_records_are_found_by_what_they_say(desired: Desired, key: Seq<Seq<char>>)
    requires
        desired.is_keyed(),
    ensures
        desired.environments@.contains_key(key) ==> key
            == seq![desired.environments@[key].value.name@],
        desired.projects@.contains_key(key) ==> key == seq![desired.projects@[key].value.name@],
        desired.memberships@.contains_key(key) ==> key == seq![
            desired.memberships@[key].value.environment@,
            desired.memberships@[key].value.project@,
        ],
        desired.workloads@.contains_key(key) ==> key == seq![
            desired.workloads@[key].value.environment@,
            desired.workloads@[key].value.project@,
            desired.workloads@[key].value.name@,
        ],
        desired.deployments@.contains_key(key) ==> key == seq![desired.deployments@[key].id@],
        desired.instances@.contains_key(key) ==> key == seq![desired.instances@[key].id@],
        desired.traffic@.contains_key(key) ==> key
            == seq![desired.traffic@[key].value.endpoint@],
        desired.domains@.contains_key(key) ==> key == seq![desired.domains@[key].value.name@],
        desired.dns_records@.contains_key(key) ==> key == seq![desired.dns_records@[key].id@],
        desired.certificates@.contains_key(key) ==> key
            == seq![desired.certificates@[key].value.domain@],
{
}

} // verus!
