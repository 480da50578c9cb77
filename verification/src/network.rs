//! Converging the network: the routes ingress serves, and what each domain's
//! state is, from its parts.

use vstd::prelude::*;

use crate::desired::Desired;
use crate::domains::{record_of, RecordOf};
use crate::error::{EnvironmentError, Refusal};
use crate::ids::{endpoint, endpoint_text};
use crate::node::NetworkConfig;
use crate::search::{lemma_matching_upto, matching, positions};
use crate::state::{
    CertificateRecord, DnsRecordRecord, DomainRecord, Reconciliation, Stored,
    TrafficAssignmentRecord,
};
use crate::status::{DnsProviderView, EndpointView, NetworkStatus};
use crate::table::{key1, select, Table};
use crate::text::{
    copy_option, decimal, decimal_text, join, joined, opt_text, same, same_option, texts,
};
use crate::time::{day_of, time_text, DAY};

verus! {

// ---- Routes -----------------------------------------------------------------

/// The endpoint a domain routes to.
pub open spec fn domain_endpoint(domain: DomainRecord) -> Seq<char> {
    endpoint_text(domain.environment@, domain.project@, domain.workload@, domain.port@)
}

fn endpoint_of(domain: &DomainRecord) -> (r: String)
    ensures
        r@ == domain_endpoint(*domain),
{
    endpoint(&domain.environment, &domain.project, &domain.workload, &domain.port)
}

/// The ports ingress forwards to, by domain name, for the first `n` domains:
/// those whose endpoint is assigned.
pub open spec fn routes_upto(desired: Desired, n: nat) -> Map<Seq<Seq<char>>, u16>
    decreases n,
{
    if n == 0 {
        Map::empty()
    } else {
        let before = routes_upto(desired, (n - 1) as nat);
        let domain = desired.domains.values()[n - 1].value;
        let place = key1(domain_endpoint(domain));
        if desired.traffic@.contains_key(place) {
            before.insert(key1(domain.name@), desired.traffic@[place].value.host_port)
        } else {
            before
        }
    }
}

/// The routes ingress serves: each domain to the port of its endpoint.
pub fn ingress_routes(desired: &Desired) -> (r: Table<String, u16>)
    ensures
        r@ == routes_upto(*desired, desired.domains.values().len()),
{
    let mut r: Table<String, u16> = Table::new();
    let mut i: usize = 0;
    while i < desired.domains.len()
        invariant
            i <= desired.domains.values().len(),
            r@ == routes_upto(*desired, i as nat),
        decreases desired.domains.values().len() - i,
    {
        let domain = &desired.domains.value_at(i).value;
        if let Some(assignment) = desired.traffic.at(&endpoint_of(domain)) {
            r.insert(domain.name.clone(), assignment.value.host_port);
        }
        i += 1;
    }
    r
}

/// Whether a node's network has anything to converge but its routes: a node
/// without domains and DNS records only clears them.
pub fn has_network(desired: &Desired) -> (r: bool)
    ensures
        r == (desired.domains.rows().len() > 0 || desired.dns_records.rows().len() > 0),
{
    !desired.domains.is_empty() || !desired.dns_records.is_empty()
}

// ---- A domain's parts -------------------------------------------------------

/// Whether a state is this status, with these texts, as of `now`.
pub open spec fn is_state(
    state: Reconciliation,
    status: Seq<char>,
    desired: Option<Seq<char>>,
    actual: Option<Seq<char>>,
    last_error: Option<Seq<char>>,
    now: i64,
) -> bool {
    &&& state.status@ == status
    &&& opt_text(state.desired) == desired
    &&& opt_text(state.actual) == actual
    &&& opt_text(state.last_error) == last_error
    &&& state.last_reconciled_at == Some(now)
}

/// Whether a state says how a domain is routed: it waits until something
/// serves its endpoint, and is only degraded where no ingress runs.
pub open spec fn is_routing_state(
    state: Reconciliation,
    desired: Desired,
    domain: DomainRecord,
    has_ingress: bool,
    now: i64,
) -> bool {
    let place = domain_endpoint(domain);
    if desired.traffic@.contains_key(key1(place)) {
        let assignment = desired.traffic@[key1(place)].value;
        if has_ingress {
            is_state(
                state,
                "healthy"@,
                Some(place),
                Some(
                    "port "@ + decimal_text(assignment.host_port as nat) + " → "@
                        + assignment.instance_id@ + " ("@ + assignment.revision@ + ")"@,
                ),
                None,
                now,
            )
        } else {
            is_state(
                state,
                "degraded"@,
                Some(place),
                Some("port "@ + decimal_text(assignment.host_port as nat)),
                Some("ingress is not configured on this node"@),
                now,
            )
        }
    } else {
        is_state(
            state,
            "pending"@,
            Some(place),
            None,
            Some("nothing serves "@ + place + " yet"@),
            now,
        )
    }
}

/// How a domain is routed.
pub fn routing_state(desired: &Desired, domain: &DomainRecord, has_ingress: bool, now: i64) -> (r:
    Reconciliation)
    ensures
        is_routing_state(r, *desired, *domain, has_ingress, now),
{
    let place = endpoint_of(domain);
    match desired.traffic.at(&place) {
        Some(assignment) => {
            let mut actual = "port ".to_owned();
            actual.append(&decimal(assignment.value.host_port as u64));
            if has_ingress {
                actual.append(" → ");
                actual.append(&assignment.value.instance_id);
                actual.append(" (");
                actual.append(&assignment.value.revision);
                actual.append(")");
                Reconciliation {
                    status: "healthy".to_owned(),
                    desired: Some(place),
                    actual: Some(actual),
                    last_error: None,
                    last_reconciled_at: Some(now),
                }
            } else {
                Reconciliation {
                    status: "degraded".to_owned(),
                    desired: Some(place),
                    actual: Some(actual),
                    last_error: Some("ingress is not configured on this node".to_owned()),
                    last_reconciled_at: Some(now),
                }
            }
        },
        None => {
            let mut error = "nothing serves ".to_owned();
            error.append(&place);
            error.append(" yet");
            Reconciliation {
                status: "pending".to_owned(),
                desired: Some(place),
                actual: None,
                last_error: Some(error),
                last_reconciled_at: Some(now),
            }
        },
    }
}

/// What is wanted of a DNS record, in words.
pub open spec fn wanted_text(record: DnsRecordRecord) -> Seq<char> {
    record.record_type@ + " "@ + record.value@
}

/// What a DNS record is, in words.
pub open spec fn actual_text(record: DnsRecordRecord) -> Seq<char> {
    record.record_type@ + " "@ + (match record.state.actual {
        Some(actual) => actual@,
        None => "-"@,
    })
}

/// What is wanted of DNS records at the given positions.
pub open spec fn wanted_texts(records: Seq<Stored<DnsRecordRecord>>, at: Seq<int>) -> Seq<Seq<char>> {
    at.map_values(|i: int| wanted_text(records[i].value))
}

/// What DNS records at the given positions are.
pub open spec fn actual_texts(records: Seq<Stored<DnsRecordRecord>>, at: Seq<int>) -> Seq<Seq<char>> {
    at.map_values(|i: int| actual_text(records[i].value))
}

/// The first of the positions whose record failed, from the `k`-th on.
pub open spec fn first_failed(
    records: Seq<Stored<DnsRecordRecord>>,
    at: Seq<int>,
    k: int,
) -> Option<int>
    decreases at.len() - k,
{
    if k < 0 || k >= at.len() {
        None
    } else if records[at[k]].value.state.status@ == "failed"@ {
        Some(at[k])
    } else {
        first_failed(records, at, k + 1)
    }
}

/// Whether every record at the given positions is as wanted.
pub open spec fn all_healthy(records: Seq<Stored<DnsRecordRecord>>, at: Seq<int>) -> bool {
    forall|k: int|
        0 <= k < at.len() ==> records[#[trigger] at[k]].value.state.status@ == "healthy"@
}

/// Whether a state sums up a domain's DNS records.
pub open spec fn is_dns_state(
    state: Reconciliation,
    desired: Desired,
    domain: Seq<char>,
    now: i64,
) -> bool {
    let records = desired.dns_records.values();
    let at = matching(records, record_of(domain));
    let failed = first_failed(records, at, 0);
    if at.len() == 0 {
        is_state(state, "unmanaged"@, None, None, None, now)
    } else {
        is_state(
            state,
            if failed is Some {
                "failed"@
            } else if all_healthy(records, at) {
                "healthy"@
            } else {
                "pending"@
            },
            Some(joined(wanted_texts(records, at), ", "@)),
            Some(joined(actual_texts(records, at), ", "@)),
            match failed {
                Some(i) => opt_text(records[i].value.state.last_error),
                None => None,
            },
            now,
        )
    }
}

/// How a domain's DNS records are.
pub fn dns_state(desired: &Desired, domain: &str, now: i64) -> (r: Reconciliation)
    ensures
        is_dns_state(r, *desired, domain@, now),
{
    let records = select(&desired.dns_records, &RecordOf { name: domain });
    let ghost all = desired.dns_records.values();
    let ghost at = positions(records@);
    if records.len() == 0 {
        return Reconciliation {
            status: "unmanaged".to_owned(),
            desired: None,
            actual: None,
            last_error: None,
            last_reconciled_at: Some(now),
        };
    }
    let mut failed: Option<usize> = None;
    let mut healthy = true;
    let mut wanted: Vec<String> = Vec::new();
    let mut actual: Vec<String> = Vec::new();
    let mut k: usize = 0;
    proof {
        assert(texts(wanted@) =~= wanted_texts(all, at).take(0));
        assert(texts(actual@) =~= actual_texts(all, at).take(0));
    }
    while k < records.len()
        invariant
            k <= records@.len(),
            match failed {
                Some(i) => i < all.len() && first_failed(all, at, 0) == Some(i as int),
                None => first_failed(all, at, 0) == first_failed(all, at, k as int),
            },
            healthy == (forall|j: int|
                0 <= j < k ==> all[#[trigger] at[j]].value.state.status@ == "healthy"@),
            texts(wanted@) == wanted_texts(all, at).take(k as int),
            texts(actual@) == actual_texts(all, at).take(k as int),
        decreases records@.len() - k,
    {
        let i: usize = records[k];
        let record = &desired.dns_records.value_at(i).value;
        proof {
            assert(at[k as int] == i);
        }
        if failed.is_none() && same(&record.state.status, "failed") {
            failed = Some(i);
        }
        if !same(&record.state.status, "healthy") {
            healthy = false;
        }
        let mut want = record.record_type.clone();
        want.append(" ");
        want.append(&record.value);
        let mut have = record.record_type.clone();
        have.append(" ");
        match &record.state.actual {
            Some(value) => have.append(value),
            None => have.append("-"),
        }
        let ghost before = (wanted@, actual@);
        wanted.push(want);
        actual.push(have);
        proof {
            assert(texts(wanted@) =~= texts(before.0).push(want@));
            assert(texts(actual@) =~= texts(before.1).push(have@));
            assert(wanted_texts(all, at).take(k + 1) =~= wanted_texts(all, at).take(k as int).push(
                want@,
            ));
            assert(actual_texts(all, at).take(k + 1) =~= actual_texts(all, at).take(k as int).push(
                have@,
            ));
        }
        k += 1;
    }
    proof {
        assert(wanted_texts(all, at).take(k as int) =~= wanted_texts(all, at));
        assert(actual_texts(all, at).take(k as int) =~= actual_texts(all, at));
    }
    let status = if failed.is_some() {
        "failed"
    } else if healthy {
        "healthy"
    } else {
        "pending"
    };
    Reconciliation {
        status: status.to_owned(),
        desired: Some(join(&wanted, ", ")),
        actual: Some(join(&actual, ", ")),
        last_error: match failed {
            Some(i) => copy_option(&desired.dns_records.value_at(i).value.state.last_error),
            None => None,
        },
        last_reconciled_at: Some(now),
    }
}

/// Whether a state sums up a domain's certificate: a valid one serves only
/// where this node holds its key.
pub open spec fn is_tls_state(
    state: Reconciliation,
    certificate: Option<CertificateRecord>,
    served: bool,
    now: i64,
) -> bool {
    match certificate {
        None => is_state(state, "disabled"@, None, None, None, now),
        Some(certificate) => {
            let status = certificate.status@;
            is_state(
                state,
                if status == "valid"@ {
                    if served {
                        "healthy"@
                    } else {
                        "degraded"@
                    }
                } else if status == "failed"@ || status == "expired"@ {
                    "failed"@
                } else {
                    "pending"@
                },
                Some("a valid certificate from "@ + certificate.issuer@),
                match certificate.expires_at {
                    Some(at) => Some(status + " until "@ + time_text(at, DAY@)),
                    None => None,
                },
                if certificate.last_error is Some {
                    opt_text(certificate.last_error)
                } else if status == "valid"@ && !served {
                    Some("this node does not hold the certificate's key yet"@)
                } else {
                    None
                },
                now,
            )
        },
    }
}

/// How a domain's certificate is.
pub fn tls_state(certificate: Option<&CertificateRecord>, served: bool, now: i64) -> (r:
    Reconciliation)
    ensures
        is_tls_state(
            r,
            match certificate {
                Some(certificate) => Some(*certificate),
                None => None,
            },
            served,
            now,
        ),
{
    match certificate {
        None => Reconciliation {
            status: "disabled".to_owned(),
            desired: None,
            actual: None,
            last_error: None,
            last_reconciled_at: Some(now),
        },
        Some(certificate) => {
            let valid = same(&certificate.status, "valid");
            let status = if valid {
                if served {
                    "healthy"
                } else {
                    "degraded"
                }
            } else if same(&certificate.status, "failed") || same(
                &certificate.status,
                "expired",
            ) {
                "failed"
            } else {
                "pending"
            };
            let mut wanted = "a valid certificate from ".to_owned();
            wanted.append(&certificate.issuer);
            let actual = match certificate.expires_at {
                Some(at) => {
                    let mut text = certificate.status.clone();
                    text.append(" until ");
                    text.append(&day_of(at));
                    Some(text)
                },
                None => None,
            };
            let last_error = match &certificate.last_error {
                Some(error) => Some(error.clone()),
                None => if valid && !served {
                    Some("this node does not hold the certificate's key yet".to_owned())
                } else {
                    None
                },
            };
            Reconciliation {
                status: status.to_owned(),
                desired: Some(wanted),
                actual,
                last_error,
                last_reconciled_at: Some(now),
            }
        },
    }
}

// ---- A domain as a whole ----------------------------------------------------

/// Statuses that ask for nothing more.
pub open spec fn is_settled(status: Seq<char>) -> bool {
    status == "healthy"@ || status == "unmanaged"@ || status == "disabled"@
}

fn settled(status: &str) -> (r: bool)
    ensures
        r == is_settled(status@),
{
    same(status, "healthy") || same(status, "unmanaged") || same(status, "disabled")
}

/// A domain's status, from those of its parts: any failure is its own, and
/// it is healthy only when no part asks for more.
pub open spec fn combined_status(dns: Seq<char>, tls: Seq<char>, routing: Seq<char>) -> Seq<char> {
    if dns == "failed"@ || tls == "failed"@ || routing == "failed"@ {
        "failed"@
    } else if is_settled(dns) && is_settled(tls) && is_settled(routing) {
        "healthy"@
    } else if dns == "degraded"@ || tls == "degraded"@ || routing == "degraded"@ {
        "degraded"@
    } else {
        "pending"@
    }
}

pub fn combine_status(dns: &str, tls: &str, routing: &str) -> (r: &'static str)
    ensures
        r@ == combined_status(dns@, tls@, routing@),
{
    if same(dns, "failed") || same(tls, "failed") || same(routing, "failed") {
        "failed"
    } else if settled(dns) && settled(tls) && settled(routing) {
        "healthy"
    } else if same(dns, "degraded") || same(tls, "degraded") || same(routing, "degraded") {
        "degraded"
    } else {
        "pending"
    }
}

/// Whether two states say the same, whenever each was reached.
pub open spec fn is_same_state(a: Reconciliation, b: Reconciliation) -> bool {
    &&& a.status@ == b.status@
    &&& opt_text(a.desired) == opt_text(b.desired)
    &&& opt_text(a.actual) == opt_text(b.actual)
    &&& opt_text(a.last_error) == opt_text(b.last_error)
}

pub fn same_state(a: &Reconciliation, b: &Reconciliation) -> (r: bool)
    ensures
        r == is_same_state(*a, *b),
{
    same(&a.status, &b.status) && same_option(&a.desired, &b.desired) && same_option(
        &a.actual,
        &b.actual,
    ) && same_option(&a.last_error, &b.last_error)
}

/// A domain's state, from its parts.
#[derive(Debug)]
pub struct DomainState {
    pub status: String,
    pub dns: Reconciliation,
    pub tls: Reconciliation,
    pub routing: Reconciliation,
}

/// The certificate of a domain.
pub open spec fn certificate_of(desired: Desired, domain: Seq<char>) -> Option<CertificateRecord> {
    if desired.certificates@.contains_key(key1(domain)) {
        Some(desired.certificates@[key1(domain)].value)
    } else {
        None
    }
}

/// Whether a state is the one its parts give a domain.
pub open spec fn is_domain_state(
    state: DomainState,
    desired: Desired,
    domain: DomainRecord,
    has_ingress: bool,
    served: bool,
    now: i64,
) -> bool {
    &&& is_dns_state(state.dns, desired, domain.name@, now)
    &&& is_tls_state(state.tls, certificate_of(desired, domain.name@), served, now)
    &&& is_routing_state(state.routing, desired, domain, has_ingress, now)
    &&& state.status@ == combined_status(
        state.dns.status@,
        state.tls.status@,
        state.routing.status@,
    )
}

/// Whether a domain's record already says what its state is.
pub open spec fn is_recorded(domain: DomainRecord, state: DomainState) -> bool {
    &&& domain.status@ == state.status@
    &&& is_same_state(domain.dns, state.dns)
    &&& is_same_state(domain.tls, state.tls)
    &&& is_same_state(domain.routing, state.routing)
}

/// What a domain's state is, and whether its record has yet to say so.
pub fn domain_state(
    desired: &Desired,
    domain: &DomainRecord,
    has_ingress: bool,
    served: bool,
    now: i64,
) -> (r: (DomainState, bool))
    ensures
        is_domain_state(r.0, *desired, *domain, has_ingress, served, now),
        r.1 == !is_recorded(*domain, r.0),
{
    let dns = dns_state(desired, &domain.name, now);
    let tls = match desired.certificates.at(&domain.name) {
        Some(certificate) => tls_state(Some(&certificate.value), served, now),
        None => tls_state(None, served, now),
    };
    let routing = routing_state(desired, domain, has_ingress, now);
    let status = combine_status(&dns.status, &tls.status, &routing.status);
    let state = DomainState { status: status.to_owned(), dns, tls, routing };
    let recorded = same(&domain.status, status) && same_state(&domain.dns, &state.dns)
        && same_state(&domain.tls, &state.tls) && same_state(&domain.routing, &state.routing);
    (state, !recorded)
}

impl DomainState {
    /// Make a domain's record say its state.
    pub fn apply(self, record: &mut DomainRecord)
        ensures
            *final(record) == (DomainRecord {
                status: self.status,
                dns: self.dns,
                tls: self.tls,
                routing: self.routing,
                ..*old(record)
            }),
    {
        record.status = self.status;
        record.dns = self.dns;
        record.tls = self.tls;
        record.routing = self.routing;
    }
}

/// What one domain's record is updated to.
pub struct DomainUpdate {
    /// The domain's position.
    pub domain: usize,
    pub state: DomainState,
}

/// Whether ingress serves a certificate for the domain at a position.
pub open spec fn is_served(served: Seq<bool>, i: int) -> bool {
    0 <= i < served.len() && served[i]
}

/// Whether the domain at a position has a state its record does not say.
pub open spec fn is_stale(
    desired: Desired,
    has_ingress: bool,
    served: Seq<bool>,
    now: i64,
    i: int,
) -> bool {
    exists|state: DomainState|
        is_domain_state(
            state,
            desired,
            desired.domains.values()[i].value,
            has_ingress,
            is_served(served, i),
            now,
        ) && !#[trigger] is_recorded(desired.domains.values()[i].value, state)
}

/// Whether updates are those the first `n` domains need: one for each whose
/// record does not say its state, in order.
pub open spec fn are_updates(
    updates: Seq<DomainUpdate>,
    desired: Desired,
    has_ingress: bool,
    served: Seq<bool>,
    now: i64,
    n: nat,
) -> bool {
    &&& forall|k: int|
        0 <= k < updates.len() ==> {
            let i = (#[trigger] updates[k]).domain as int;
            &&& 0 <= i < n
            &&& is_domain_state(
                updates[k].state,
                desired,
                desired.domains.values()[i].value,
                has_ingress,
                is_served(served, i),
                now,
            )
            &&& !is_recorded(desired.domains.values()[i].value, updates[k].state)
        }
    &&& forall|j: int, k: int|
        0 <= j < k < updates.len() ==> (#[trigger] updates[j]).domain < (
        #[trigger] updates[k]).domain
    &&& forall|i: int|
        0 <= i < n && #[trigger] is_stale(desired, has_ingress, served, now, i) ==> exists|k: int|
            0 <= k < updates.len() && (#[trigger] updates[k]).domain == i
}

/// Two states of one domain, from the same facts, say the same.
proof fn lemma_one_state(
    a: DomainState,
    b: DomainState,
    desired: Desired,
    domain: DomainRecord,
    has_ingress: bool,
    served: bool,
    now: i64,
)
    requires
        is_domain_state(a, desired, domain, has_ingress, served, now),
        is_domain_state(b, desired, domain, has_ingress, served, now),
    ensures
        is_recorded(domain, a) == is_recorded(domain, b),
{
}

/// The updates that make every domain's record say its state.
pub fn domain_updates(desired: &Desired, has_ingress: bool, served: &Vec<bool>, now: i64) -> (r: Vec<
    DomainUpdate,
>)
    ensures
        are_updates(
            r@,
            *desired,
            has_ingress,
            served@,
            now,
            desired.domains.values().len(),
        ),
{
    let mut r: Vec<DomainUpdate> = Vec::new();
    let mut i: usize = 0;
    while i < desired.domains.len()
        invariant
            i <= desired.domains.values().len(),
            are_updates(r@, *desired, has_ingress, served@, now, i as nat),
        decreases desired.domains.values().len() - i,
    {
        let domain = &desired.domains.value_at(i).value;
        let here = i < served.len() && served[i];
        let (state, stale) = domain_state(desired, domain, has_ingress, here, now);
        let ghost before = r@;
        if stale {
            r.push(DomainUpdate { domain: i, state });
        }
        proof {
            assert forall|j: int|
                0 <= j < i + 1 && #[trigger] is_stale(
                    *desired,
                    has_ingress,
                    served@,
                    now,
                    j,
                ) implies exists|k: int| 0 <= k < r@.len() && (#[trigger] r@[k]).domain == j by {
                if j == i {
                    let other = choose|other: DomainState|
                        is_domain_state(
                            other,
                            *desired,
                            desired.domains.values()[j].value,
                            has_ingress,
                            is_served(served@, j),
                            now,
                        ) && !#[trigger] is_recorded(desired.domains.values()[j].value, other);
                    lemma_one_state(other, state, *desired, *domain, has_ingress, here, now);
                    assert(r@[r@.len() - 1].domain == j);
                } else {
                    let k = choose|k: int| 0 <= k < before.len() && (#[trigger] before[k]).domain == j;
                    assert(r@[k].domain == j);
                }
            }
        }
        i += 1;
    }
    r
}

// ---- Laws -------------------------------------------------------------------

/// A domain is healthy exactly when its name resolves as wanted, its
/// certificate serves and its route is up, or each of those is not asked
/// for.
pub proof fn law_healthy_needs_every_part(dns: Seq<char>, tls: Seq<char>, routing: Seq<char>)
    ensures
        combined_status(dns, tls, routing) == "healthy"@ <==> is_settled(dns) && is_settled(tls)
            && is_settled(routing),
        combined_status(dns, tls, routing) == "failed"@ <==> dns == "failed"@ || tls == "failed"@
            || routing == "failed"@,
{
    reveal_strlit("healthy");
    reveal_strlit("failed");
    reveal_strlit("degraded");
    reveal_strlit("pending");
    reveal_strlit("unmanaged");
    reveal_strlit("disabled");
    assert("healthy"@[0] == 'h' && "failed"@[0] == 'f' && "degraded"@[0] == 'd' && "pending"@[0]
        == 'p' && "unmanaged"@[0] == 'u' && "disabled"@[1] == 'i');
}

/// Ingress serves a domain's endpoint or nothing: each route leads to the
/// port of the endpoint its domain names.
pub proof fn law_routes_lead_to_their_endpoint(desired: Desired, n: nat, name: Seq<char>)
    requires
        n <= desired.domains.values().len(),
        routes_upto(desired, n).contains_key(key1(name)),
    ensures
        exists|i: int|
            {
                let domain = (#[trigger] desired.domains.values()[i]).value;
                &&& 0 <= i < n
                &&& domain.name@ == name
                &&& desired.traffic@.contains_key(key1(domain_endpoint(domain)))
                &&& routes_upto(desired, n)[key1(name)]
                    == desired.traffic@[key1(domain_endpoint(domain))].value.host_port
            },
    decreases n,
{
    if n > 0 {
        let before = routes_upto(desired, (n - 1) as nat);
        let domain = desired.domains.values()[n - 1].value;
        let place = key1(domain_endpoint(domain));
        assert(key1(name)[0] == name);
        assert(key1(domain.name@)[0] == domain.name@);
        if desired.traffic@.contains_key(place) && domain.name@ == name {
            assert(desired.domains.values()[n - 1].value.name@ == name);
        } else {
            assert(before.contains_key(key1(name)));
            law_routes_lead_to_their_endpoint(desired, (n - 1) as nat, name);
        }
    }
}

// ---- Status -----------------------------------------------------------------

/// How a host port is served right now.
#[derive(Debug)]
pub struct ServedPort {
    pub port: u16,
    pub listening: bool,
    pub open_connections: usize,
}

/// The last entry of a port: what a table of ports, filled in order, holds.
pub open spec fn last_served(served: Seq<ServedPort>, port: u16, n: nat) -> Option<int>
    decreases n,
{
    if n == 0 {
        None
    } else if served[n - 1].port == port {
        Some(n - 1)
    } else {
        last_served(served, port, (n - 1) as nat)
    }
}

fn find_served(served: &Vec<ServedPort>, port: u16) -> (r: Option<usize>)
    ensures
        match r {
            Some(i) => i < served@.len() && last_served(served@, port, served@.len()) == Some(
                i as int,
            ),
            None => last_served(served@, port, served@.len()) is None,
        },
{
    let mut n: usize = served.len();
    while n > 0
        invariant
            n <= served@.len(),
            last_served(served@, port, served@.len()) == last_served(served@, port, n as nat),
        decreases n,
    {
        if served[n - 1].port == port {
            return Some(n - 1);
        }
        n -= 1;
    }
    None
}

/// The first error of a port.
pub open spec fn error_of(errors: Seq<(u16, String)>, port: u16, i: int) -> Option<Seq<char>>
    decreases errors.len() - i,
{
    if i < 0 || i >= errors.len() {
        None
    } else if errors[i].0 == port {
        Some(errors[i].1@)
    } else {
        error_of(errors, port, i + 1)
    }
}

fn find_error(errors: &Vec<(u16, String)>, port: u16) -> (r: Option<String>)
    ensures
        opt_text(r) == error_of(errors@, port, 0),
{
    let mut i: usize = 0;
    while i < errors.len()
        invariant
            i <= errors@.len(),
            error_of(errors@, port, 0) == error_of(errors@, port, i as int),
        decreases errors@.len() - i,
    {
        if errors[i].0 == port {
            return Some(errors[i].1.clone());
        }
        i += 1;
    }
    None
}

/// Whether a view is of a traffic assignment, served as observed.
pub open spec fn is_endpoint_view(
    view: EndpointView,
    assignment: TrafficAssignmentRecord,
    served: Seq<ServedPort>,
    errors: Seq<(u16, String)>,
) -> bool {
    let entry = last_served(served, assignment.host_port, served.len());
    &&& view.endpoint == assignment.endpoint
    &&& view.host_port == assignment.host_port
    &&& view.instance_id == assignment.instance_id
    &&& view.target_port == assignment.target_port
    &&& view.revision == assignment.revision
    &&& view.listening == (entry matches Some(i) && served[i].listening)
    &&& view.open_connections == (match entry {
        Some(i) => served[i].open_connections,
        None => 0,
    })
    &&& opt_text(view.error) == error_of(errors, assignment.host_port, 0)
}

/// Every endpoint, where it forwards, and how it is served.
pub fn endpoint_views(
    desired: &Desired,
    served: &Vec<ServedPort>,
    errors: &Vec<(u16, String)>,
) -> (r: Vec<EndpointView>)
    ensures
        r@.len() == desired.traffic.values().len(),
        forall|i: int|
            0 <= i < r@.len() ==> is_endpoint_view(
                #[trigger] r@[i],
                desired.traffic.values()[i].value,
                served@,
                errors@,
            ),
{
    let mut r: Vec<EndpointView> = Vec::new();
    let mut i: usize = 0;
    while i < desired.traffic.len()
        invariant
            i <= desired.traffic.values().len(),
            r@.len() == i,
            forall|j: int|
                0 <= j < i ==> is_endpoint_view(
                    #[trigger] r@[j],
                    desired.traffic.values()[j].value,
                    served@,
                    errors@,
                ),
        decreases desired.traffic.values().len() - i,
    {
        let assignment = &desired.traffic.value_at(i).value;
        let (listening, open_connections) = match find_served(served, assignment.host_port) {
            Some(k) => (served[k].listening, served[k].open_connections),
            None => (false, 0),
        };
        r.push(
            EndpointView {
                endpoint: assignment.endpoint.clone(),
                host_port: assignment.host_port,
                instance_id: assignment.instance_id.clone(),
                target_port: assignment.target_port,
                revision: assignment.revision.clone(),
                listening,
                open_connections,
                error: find_error(errors, assignment.host_port),
            },
        );
        i += 1;
    }
    r
}

// ---- The node's network -----------------------------------------------------

/// What talks to a DNS provider.
#[derive(Debug, Clone, Copy, PartialEq, Eq, Structural)]
pub enum DnsProviderKind {
    Hetzner,
    Cloudflare,
    File,
}

impl DnsProviderKind {
    pub open spec fn name(self) -> Seq<char> {
        match self {
            DnsProviderKind::Hetzner => "hetzner"@,
            DnsProviderKind::Cloudflare => "cloudflare"@,
            DnsProviderKind::File => "file"@,
        }
    }

    pub fn as_str(self) -> (r: &'static str)
        ensures
            r@ == self.name(),
    {
        match self {
            DnsProviderKind::Hetzner => "hetzner",
            DnsProviderKind::Cloudflare => "cloudflare",
            DnsProviderKind::File => "file",
        }
    }
}

/// A DNS provider as it is shown. `error` is why it cannot be used.
pub fn dns_provider_view(name: &str, kind: DnsProviderKind, zone: &str, error: &Option<String>) -> (
r: DnsProviderView)
    ensures
        r.name@ == name@,
        r.kind@ == kind.name(),
        r.zone@ == zone@,
        r.error == *error,
{
    DnsProviderView {
        name: name.to_owned(),
        kind: kind.as_str().to_owned(),
        zone: zone.to_owned(),
        error: copy_option(error),
    }
}

/// The node's network as it is shown: what is configured, where ingress
/// listens, and every endpoint as it is served.
pub fn network_status(
    desired: &Desired,
    config: &NetworkConfig,
    node_id: &str,
    ingress_http: Option<String>,
    ingress_https: Option<String>,
    dns_providers: Vec<DnsProviderView>,
    acme_directory: Option<String>,
    served: &Vec<ServedPort>,
    errors: &Vec<(u16, String)>,
) -> (r: NetworkStatus)
    ensures
        r.node_id@ == node_id@,
        r.endpoint_address == config.endpoint_address,
        r.ingress_http == ingress_http,
        r.ingress_https == ingress_https,
        r.public_ipv4 == config.public_ipv4,
        r.public_ipv6 == config.public_ipv6,
        r.dns_providers == dns_providers,
        r.acme_directory == acme_directory,
        r.endpoints@.len() == desired.traffic.values().len(),
        forall|i: int|
            0 <= i < r.endpoints@.len() ==> is_endpoint_view(
                #[trigger] r.endpoints@[i],
                desired.traffic.values()[i].value,
                served@,
                errors@,
            ),
{
    NetworkStatus {
        node_id: node_id.to_owned(),
        endpoint_address: config.endpoint_address.clone(),
        ingress_http,
        ingress_https,
        public_ipv4: copy_option(&config.public_ipv4),
        public_ipv6: copy_option(&config.public_ipv6),
        dns_providers,
        acme_directory,
        endpoints: endpoint_views(desired, served, errors),
    }
}

/// What ingress listens for.
#[derive(Debug, Clone, Copy, PartialEq, Eq, Structural)]
pub enum IngressKind {
    Http,
    Https,
}

/// Whether a node has ingress: it listens for one kind of request at least.
pub fn has_ingress(config: &NetworkConfig) -> (r: bool)
    ensures
        r == (config.ingress_http is Some || config.ingress_https is Some),
{
    config.ingress_http.is_some() || config.ingress_https.is_some()
}

/// The report of ingress that cannot listen.
pub fn ingress_refusal(kind: IngressKind, address: &str, error: &str) -> (r: EnvironmentError)
    ensures
        r.reports(
            Refusal::Invalid(
                "ingress "@ + (match kind {
                    IngressKind::Http => "HTTP"@,
                    IngressKind::Https => "HTTPS"@,
                }) + " cannot listen on "@ + address@ + ": "@ + error@,
            ),
        ),
{
    let mut text = "ingress ".to_owned();
    text.append(
        match kind {
            IngressKind::Http => "HTTP",
            IngressKind::Https => "HTTPS",
        },
    );
    text.append(" cannot listen on ");
    text.append(address);
    text.append(": ");
    text.append(error);
    EnvironmentError::Invalid(text)
}

// ---- Laws of a domain's parts -----------------------------------------------

/// A domain fails where a part fails, is healthy where no part asks for
/// more, and is degraded or pending as its worst part is.
pub proof fn law_domains_are_as_their_parts(dns: Seq<char>, tls: Seq<char>, routing: Seq<char>)
    ensures
        (dns == "failed"@ || tls == "failed"@ || routing == "failed"@) ==> combined_status(
            dns,
            tls,
            routing,
        ) == "failed"@,
        combined_status(dns, tls, routing) == "healthy"@ ==> (dns == "healthy"@ || dns
            == "unmanaged"@ || dns == "disabled"@) && (tls == "healthy"@ || tls == "unmanaged"@
            || tls == "disabled"@) && (routing == "healthy"@ || routing == "unmanaged"@ || routing
            == "disabled"@),
        combined_status("healthy"@, "healthy"@, "healthy"@) == "healthy"@,
        combined_status("unmanaged"@, "disabled"@, "healthy"@) == "healthy"@,
        dns != "failed"@ && tls != "failed"@ && routing != "failed"@ && (dns == "degraded"@ || tls
            == "degraded"@ || routing == "degraded"@) ==> combined_status(dns, tls, routing)
            == "degraded"@,
        dns != "failed"@ && tls != "failed"@ && routing != "failed"@ && dns != "degraded"@ && tls
            != "degraded"@ && routing != "degraded"@ && (dns == "pending"@ || tls == "pending"@
            || routing == "pending"@) ==> combined_status(dns, tls, routing) == "pending"@,
{
    reveal_strlit("healthy");
    reveal_strlit("failed");
    reveal_strlit("degraded");
    reveal_strlit("pending");
    reveal_strlit("unmanaged");
    reveal_strlit("disabled");
    assert("healthy"@[0] == 'h' && "failed"@[0] == 'f' && "degraded"@[0] == 'd' && "pending"@[0]
        == 'p' && "unmanaged"@[0] == 'u' && "disabled"@[1] == 'i' && "degraded"@[1] == 'e');
}

/// A domain's DNS is unmanaged exactly when it has no record, failed when
/// one of its records failed, and healthy exactly when it has records and
/// every one is healthy. Records of other domains have no say.
pub proof fn law_dns_is_as_its_records(
    state: Reconciliation,
    desired: Desired,
    domain: Seq<char>,
    now: i64,
)
    requires
        is_dns_state(state, desired, domain, now),
    ensures
        state.last_reconciled_at == Some(now),
        state.status@ == "unmanaged"@ <==> forall|i: int|
            0 <= i < desired.dns_records.values().len()
                ==> (#[trigger] desired.dns_records.values()[i]).value.domain@ != domain,
        state.status@ == "failed"@ <==> exists|i: int|
            0 <= i < desired.dns_records.values().len()
                && (#[trigger] desired.dns_records.values()[i]).value.domain@ == domain
                && desired.dns_records.values()[i].value.state.status@ == "failed"@,
        state.status@ == "healthy"@ <==> (exists|i: int|
            0 <= i < desired.dns_records.values().len()
                && (#[trigger] desired.dns_records.values()[i]).value.domain@ == domain)
            && forall|i: int|
            0 <= i < desired.dns_records.values().len()
                && (#[trigger] desired.dns_records.values()[i]).value.domain@ == domain
                ==> desired.dns_records.values()[i].value.state.status@ == "healthy"@,
{
    reveal_strlit("healthy");
    reveal_strlit("failed");
    reveal_strlit("pending");
    reveal_strlit("unmanaged");
    assert("healthy"@[0] == 'h' && "failed"@[0] == 'f' && "pending"@[0] == 'p' && "unmanaged"@[0]
        == 'u');
    let records = desired.dns_records.values();
    let at = matching(records, record_of(domain));
    lemma_matching_upto(records, record_of(domain), records.len());
    lemma_first_failed(records, at, 0);
    assert forall|i: int|
        0 <= i < records.len() && (#[trigger] records[i]).value.domain@ == domain implies exists|
        k: int,
    |
        0 <= k < at.len() && #[trigger] at[k] == i by {
        assert(record_of(domain)(records[i]));
        assert(at.contains(i));
    }
    assert forall|k: int| 0 <= k < at.len() implies 0 <= #[trigger] at[k] < records.len()
        && records[at[k]].value.domain@ == domain by {
        assert(record_of(domain)(records[at[k]]));
    }
    if at.len() > 0 {
        assert(records[at[0]].value.domain@ == domain);
        match first_failed(records, at, 0) {
            Some(i) => {
                let k = choose|k: int| 0 <= k < at.len() && #[trigger] at[k] == i;
                assert(records[at[k]].value.state.status@ == "failed"@);
            },
            None => {},
        }
        if all_healthy(records, at) {
            assert forall|i: int|
                0 <= i < records.len() && (#[trigger] records[i]).value.domain@
                    == domain implies records[i].value.state.status@ == "healthy"@ by {
                let k = choose|k: int| 0 <= k < at.len() && #[trigger] at[k] == i;
            }
        }
    }
}

/// The first failed record is one of those looked at, and none is exactly
/// when none failed.
proof fn lemma_first_failed(records: Seq<Stored<DnsRecordRecord>>, at: Seq<int>, k: int)
    requires
        0 <= k <= at.len(),
    ensures
        match first_failed(records, at, k) {
            Some(i) => records[i].value.state.status@ == "failed"@ && exists|j: int|
                k <= j < at.len() && #[trigger] at[j] == i,
            None => forall|j: int|
                k <= j < at.len() ==> records[#[trigger] at[j]].value.state.status@ != "failed"@,
        },
    decreases at.len() - k,
{
    if k < at.len() {
        lemma_first_failed(records, at, k + 1);
        if records[at[k]].value.state.status@ == "failed"@ {
            assert(at[k] == first_failed(records, at, k)->0);
        } else {
            match first_failed(records, at, k + 1) {
                Some(i) => {
                    let j = choose|j: int| k + 1 <= j < at.len() && #[trigger] at[j] == i;
                    assert(k <= j < at.len() && at[j] == i);
                },
                None => {},
            }
        }
    }
}

/// A domain's certificate is healthy exactly when it is valid and this node
/// holds its key; one that failed or ran out is a failure, and none at all
/// is disabled.
pub proof fn law_certificates_serve_where_their_key_is(
    state: Reconciliation,
    certificate: Option<CertificateRecord>,
    served: bool,
    now: i64,
)
    requires
        is_tls_state(state, certificate, served, now),
    ensures
        state.last_reconciled_at == Some(now),
        state.status@ == "disabled"@ <==> certificate is None,
        state.status@ == "healthy"@ <==> (certificate matches Some(record) && record.status@
            == "valid"@ && served),
        state.status@ == "degraded"@ <==> (certificate matches Some(record) && record.status@
            == "valid"@ && !served),
        state.status@ == "failed"@ <==> (certificate matches Some(record) && (record.status@
            == "failed"@ || record.status@ == "expired"@)),
        certificate matches Some(record) ==> record.last_error matches Some(error) ==> opt_text(
            state.last_error,
        ) == Some(error@),
{
    reveal_strlit("healthy");
    reveal_strlit("failed");
    reveal_strlit("degraded");
    reveal_strlit("pending");
    reveal_strlit("disabled");
    reveal_strlit("valid");
    reveal_strlit("expired");
    assert("healthy"@[0] == 'h' && "failed"@[0] == 'f' && "degraded"@[0] == 'd' && "pending"@[0]
        == 'p' && "disabled"@[1] == 'i' && "degraded"@[1] == 'e' && "valid"@[0] == 'v'
        && "expired"@[0] == 'e');
}

/// A domain's route is up exactly when its endpoint is assigned and ingress
/// runs; it waits while nothing is assigned.
pub proof fn law_routes_are_up_where_something_serves(
    state: Reconciliation,
    desired: Desired,
    domain: DomainRecord,
    has_ingress: bool,
    now: i64,
)
    requires
        is_routing_state(state, desired, domain, has_ingress, now),
    ensures
        ({
            let place = domain.environment@ + "/"@ + domain.project@ + "/"@ + domain.workload@
                + "/"@ + domain.port@;
            let assigned = desired.traffic@.contains_key(seq![place]);
            &&& state.last_reconciled_at == Some(now)
            &&& opt_text(state.desired) == Some(place)
            &&& state.status@ == "pending"@ <==> !assigned
            &&& state.status@ == "healthy"@ <==> assigned && has_ingress
            &&& state.status@ == "degraded"@ <==> assigned && !has_ingress
            &&& state.last_error is None <==> assigned && has_ingress
        }),
{
    reveal_strlit("healthy");
    reveal_strlit("degraded");
    reveal_strlit("pending");
    assert("healthy"@[0] == 'h' && "degraded"@[0] == 'd' && "pending"@[0] == 'p');
    let place = domain_endpoint(domain);
    assert(key1(place) =~= seq![place]);
}

/// A domain's record needs writing when it says anything else than its
/// state, whenever either was reached.
pub proof fn law_only_changed_states_are_written(domain: DomainRecord, state: DomainState)
    ensures
        is_recorded(domain, state) ==> domain.status@ == state.status@ && domain.dns.status@
            == state.dns.status@ && domain.tls.status@ == state.tls.status@
            && domain.routing.status@ == state.routing.status@ && opt_text(domain.dns.last_error)
            == opt_text(state.dns.last_error) && opt_text(domain.tls.last_error) == opt_text(
            state.tls.last_error,
        ) && opt_text(domain.routing.last_error) == opt_text(state.routing.last_error)
            && opt_text(domain.dns.actual) == opt_text(state.dns.actual) && opt_text(
            domain.tls.actual,
        ) == opt_text(state.tls.actual) && opt_text(domain.routing.actual) == opt_text(
            state.routing.actual,
        ) && opt_text(domain.dns.desired) == opt_text(state.dns.desired) && opt_text(
            domain.tls.desired,
        ) == opt_text(state.tls.desired) && opt_text(domain.routing.desired) == opt_text(
            state.routing.desired,
        ),
        domain.status == state.status && domain.dns == state.dns && domain.tls == state.tls
            && domain.routing == state.routing ==> is_recorded(domain, state),
        forall|at: Option<i64>|
            #[trigger] is_same_state(
                state.dns,
                (Reconciliation { last_reconciled_at: at, ..state.dns }),
            ),
{
}

/// Every domain whose endpoint is assigned is served.
pub proof fn law_every_assigned_domain_is_served(desired: Desired, n: nat, i: int)
    requires
        0 <= i < n <= desired.domains.values().len(),
        desired.traffic@.contains_key(
            key1(domain_endpoint(desired.domains.values()[i].value)),
        ),
    ensures
        routes_upto(desired, n).contains_key(
            seq![desired.domains.values()[i].value.name@],
        ),
    decreases n,
{
    let name = desired.domains.values()[i].value.name@;
    assert(key1(name) =~= seq![name]);
    if i < n - 1 {
        law_every_assigned_domain_is_served(desired, (n - 1) as nat, i);
    }
}

/// An endpoint is shown as it was last observed: listening where the last
/// report of its port says so, and with the first error of its port.
pub proof fn law_endpoints_are_shown_as_observed(
    view: EndpointView,
    assignment: TrafficAssignmentRecord,
    served: Seq<ServedPort>,
    errors: Seq<(u16, String)>,
)
    requires
        is_endpoint_view(view, assignment, served, errors),
    ensures
        view.endpoint@ == assignment.endpoint@,
        view.host_port == assignment.host_port,
        view.instance_id@ == assignment.instance_id@,
        view.target_port == assignment.target_port,
        view.revision@ == assignment.revision@,
        view.listening ==> exists|i: int|
            0 <= i < served.len() && (#[trigger] served[i]).port == assignment.host_port
                && served[i].listening && served[i].open_connections == view.open_connections,
        forall|i: int|
            (0 <= i < served.len() && (#[trigger] served[i]).port == assignment.host_port && forall|
                j: int,
            |
                i < j < served.len() ==> (#[trigger] served[j]).port != assignment.host_port)
                ==> view.listening == served[i].listening && view.open_connections
                == served[i].open_connections,
        view.error is Some <==> exists|i: int|
            0 <= i < errors.len() && (#[trigger] errors[i]).0 == assignment.host_port,
{
    lemma_last_served(served, assignment.host_port, served.len());
    lemma_error_of(errors, assignment.host_port, 0);
    assert(opt_text(view.error) is Some == view.error is Some);
    match last_served(served, assignment.host_port, served.len()) {
        Some(i) => {
            assert(served[i].port == assignment.host_port);
        },
        None => {},
    }
}

proof fn lemma_last_served(served: Seq<ServedPort>, port: u16, n: nat)
    requires
        n <= served.len(),
    ensures
        match last_served(served, port, n) {
            Some(i) => 0 <= i < n && served[i].port == port && forall|j: int|
                i < j < n ==> (#[trigger] served[j]).port != port,
            None => forall|j: int| 0 <= j < n ==> (#[trigger] served[j]).port != port,
        },
    decreases n,
{
    if n > 0 {
        lemma_last_served(served, port, (n - 1) as nat);
    }
}

proof fn lemma_error_of(errors: Seq<(u16, String)>, port: u16, i: int)
    requires
        0 <= i <= errors.len(),
    ensures
        match error_of(errors, port, i) {
            Some(text) => exists|j: int|
                i <= j < errors.len() && (#[trigger] errors[j]).0 == port && errors[j].1@ == text,
            None => forall|j: int| i <= j < errors.len() ==> (#[trigger] errors[j]).0 != port,
        },
    decreases errors.len() - i,
{
    if i < errors.len() {
        lemma_error_of(errors, port, i + 1);
        if errors[i].0 == port {
            assert(errors[i].1@ == error_of(errors, port, i)->0);
        }
    }
}

} // verus!
