//! What a release finds on its way: how its workloads proved ready, what its
//! endpoints and domains looked like before traffic moved, and what moved.

use vstd::prelude::*;

use crate::model::ReadinessCheck;
use crate::table::{Duplicate, Table};
use crate::text::{copy_option, opt_text};

verus! {

// ---- Readiness --------------------------------------------------------------

/// How a workload of a release proved ready.
#[derive(Debug, PartialEq, Eq)]
pub struct ReadinessResult {
    pub check: ReadinessCheck,
    pub ready_at: Option<i64>,
    pub detail: Option<String>,
}

pub ghost struct ReadinessText {
    pub check: ReadinessCheck,
    pub ready_at: Option<i64>,
    pub detail: Option<Seq<char>>,
}

impl View for ReadinessResult {
    type V = ReadinessText;

    open spec fn view(&self) -> ReadinessText {
        ReadinessText {
            check: self.check,
            ready_at: self.ready_at,
            detail: opt_text(self.detail),
        }
    }
}

impl Duplicate for ReadinessResult {
    fn duplicate(&self) -> (r: Self) {
        ReadinessResult {
            check: self.check,
            ready_at: self.ready_at,
            detail: copy_option(&self.detail),
        }
    }
}

/// How each workload of a release proved ready, by its name.
pub type ReadinessResults = Table<String, ReadinessResult>;

pub open spec fn readiness_texts(results: Map<Seq<Seq<char>>, ReadinessResult>) -> Map<
    Seq<Seq<char>>,
    ReadinessText,
> {
    results.map_values(|result: ReadinessResult| result@)
}

pub open spec fn opt_readiness(results: Option<ReadinessResults>) -> Option<
    Map<Seq<Seq<char>>, ReadinessText>,
> {
    match results {
        Some(results) => Some(readiness_texts(results@)),
        None => None,
    }
}

// ---- Network ----------------------------------------------------------------

/// What an endpoint looked like before traffic moved to it.
#[derive(Debug, PartialEq, Eq)]
pub struct EndpointResult {
    pub endpoint: String,
    pub host_port: u16,
    pub target_port: Option<u16>,
    pub listening: bool,
    pub reachable: bool,
}

pub ghost struct EndpointResultText {
    pub endpoint: Seq<char>,
    pub host_port: u16,
    pub target_port: Option<u16>,
    pub listening: bool,
    pub reachable: bool,
}

impl View for EndpointResult {
    type V = EndpointResultText;

    open spec fn view(&self) -> EndpointResultText {
        EndpointResultText {
            endpoint: self.endpoint@,
            host_port: self.host_port,
            target_port: self.target_port,
            listening: self.listening,
            reachable: self.reachable,
        }
    }
}

/// How a domain of the released project stood.
#[derive(Debug, PartialEq, Eq)]
pub struct DomainResult {
    pub domain: String,
    pub endpoint: String,
    pub dns: String,
    pub tls: String,
    pub routing: String,
}

pub ghost struct DomainResultText {
    pub domain: Seq<char>,
    pub endpoint: Seq<char>,
    pub dns: Seq<char>,
    pub tls: Seq<char>,
    pub routing: Seq<char>,
}

impl View for DomainResult {
    type V = DomainResultText;

    open spec fn view(&self) -> DomainResultText {
        DomainResultText {
            domain: self.domain@,
            endpoint: self.endpoint@,
            dns: self.dns@,
            tls: self.tls@,
            routing: self.routing@,
        }
    }
}

/// The network of a release, as it was verified.
#[derive(Debug, PartialEq, Eq)]
pub struct NetworkResult {
    pub endpoints: Vec<EndpointResult>,
    pub domains: Vec<DomainResult>,
    /// Whether DNS or TLS of some domain had failed.
    pub degraded: bool,
    pub verified_at: i64,
}

pub ghost struct NetworkText {
    pub endpoints: Seq<EndpointResultText>,
    pub domains: Seq<DomainResultText>,
    pub degraded: bool,
    pub verified_at: i64,
}

pub open spec fn endpoint_results(endpoints: Seq<EndpointResult>) -> Seq<EndpointResultText> {
    endpoints.map_values(|endpoint: EndpointResult| endpoint@)
}

pub open spec fn domain_results(domains: Seq<DomainResult>) -> Seq<DomainResultText> {
    domains.map_values(|domain: DomainResult| domain@)
}

impl View for NetworkResult {
    type V = NetworkText;

    open spec fn view(&self) -> NetworkText {
        NetworkText {
            endpoints: endpoint_results(self.endpoints@),
            domains: domain_results(self.domains@),
            degraded: self.degraded,
            verified_at: self.verified_at,
        }
    }
}

pub open spec fn opt_network(result: Option<NetworkResult>) -> Option<NetworkText> {
    match result {
        Some(result) => Some(result@),
        None => None,
    }
}

impl Clone for NetworkResult {
    fn clone(&self) -> (r: Self)
        ensures
            r@ == self@,
    {
        let mut endpoints: Vec<EndpointResult> = Vec::new();
        let mut i: usize = 0;
        proof {
            assert(endpoint_results(endpoints@) =~= endpoint_results(self.endpoints@).take(0));
        }
        while i < self.endpoints.len()
            invariant
                i <= self.endpoints@.len(),
                endpoint_results(endpoints@) == endpoint_results(self.endpoints@).take(i as int),
            decreases self.endpoints@.len() - i,
        {
            let endpoint = &self.endpoints[i];
            let ghost before = endpoints@;
            endpoints.push(
                EndpointResult {
                    endpoint: endpoint.endpoint.clone(),
                    host_port: endpoint.host_port,
                    target_port: endpoint.target_port,
                    listening: endpoint.listening,
                    reachable: endpoint.reachable,
                },
            );
            proof {
                assert(endpoint_results(endpoints@) =~= endpoint_results(before).push(endpoint@));
                assert(endpoint_results(self.endpoints@).take(i + 1) =~= endpoint_results(
                    self.endpoints@,
                ).take(i as int).push(endpoint@));
            }
            i += 1;
        }
        let mut domains: Vec<DomainResult> = Vec::new();
        let mut j: usize = 0;
        proof {
            assert(domain_results(domains@) =~= domain_results(self.domains@).take(0));
        }
        while j < self.domains.len()
            invariant
                j <= self.domains@.len(),
                domain_results(domains@) == domain_results(self.domains@).take(j as int),
            decreases self.domains@.len() - j,
        {
            let domain = &self.domains[j];
            let ghost before = domains@;
            domains.push(
                DomainResult {
                    domain: domain.domain.clone(),
                    endpoint: domain.endpoint.clone(),
                    dns: domain.dns.clone(),
                    tls: domain.tls.clone(),
                    routing: domain.routing.clone(),
                },
            );
            proof {
                assert(domain_results(domains@) =~= domain_results(before).push(domain@));
                assert(domain_results(self.domains@).take(j + 1) =~= domain_results(
                    self.domains@,
                ).take(j as int).push(domain@));
            }
            j += 1;
        }
        proof {
            assert(endpoint_results(self.endpoints@).take(i as int) =~= endpoint_results(
                self.endpoints@,
            ));
            assert(domain_results(self.domains@).take(j as int) =~= domain_results(self.domains@));
        }
        NetworkResult {
            endpoints,
            domains,
            degraded: self.degraded,
            verified_at: self.verified_at,
        }
    }
}

// ---- Traffic ----------------------------------------------------------------

/// An endpoint whose traffic moved: where it went before, if anywhere, and
/// where it goes now.
#[derive(Debug, PartialEq, Eq)]
pub struct MovedEndpoint {
    pub endpoint: String,
    pub host_port: u16,
    pub from_instance: Option<String>,
    pub from_revision: Option<String>,
    pub to_instance: String,
    pub to_port: u16,
}

pub ghost struct MovedText {
    pub endpoint: Seq<char>,
    pub host_port: u16,
    pub from_instance: Option<Seq<char>>,
    pub from_revision: Option<Seq<char>>,
    pub to_instance: Seq<char>,
    pub to_port: u16,
}

impl View for MovedEndpoint {
    type V = MovedText;

    open spec fn view(&self) -> MovedText {
        MovedText {
            endpoint: self.endpoint@,
            host_port: self.host_port,
            from_instance: opt_text(self.from_instance),
            from_revision: opt_text(self.from_revision),
            to_instance: self.to_instance@,
            to_port: self.to_port,
        }
    }
}

pub open spec fn moved_texts(moved: Seq<MovedEndpoint>) -> Seq<MovedText> {
    moved.map_values(|endpoint: MovedEndpoint| endpoint@)
}

pub fn copy_moved(moved: &Vec<MovedEndpoint>) -> (r: Vec<MovedEndpoint>)
    ensures
        moved_texts(r@) == moved_texts(moved@),
{
    let mut r: Vec<MovedEndpoint> = Vec::new();
    let mut i: usize = 0;
    proof {
        assert(moved_texts(r@) =~= moved_texts(moved@).take(0));
    }
    while i < moved.len()
        invariant
            i <= moved@.len(),
            moved_texts(r@) == moved_texts(moved@).take(i as int),
        decreases moved@.len() - i,
    {
        let endpoint = &moved[i];
        let ghost before = r@;
        r.push(
            MovedEndpoint {
                endpoint: endpoint.endpoint.clone(),
                host_port: endpoint.host_port,
                from_instance: copy_option(&endpoint.from_instance),
                from_revision: copy_option(&endpoint.from_revision),
                to_instance: endpoint.to_instance.clone(),
                to_port: endpoint.to_port,
            },
        );
        proof {
            assert(moved_texts(r@) =~= moved_texts(before).push(endpoint@));
            assert(moved_texts(moved@).take(i + 1) =~= moved_texts(moved@).take(i as int).push(
                endpoint@,
            ));
        }
        i += 1;
    }
    proof {
        assert(moved_texts(moved@).take(i as int) =~= moved_texts(moved@));
    }
    r
}

/// An endpoint that was verified through the data plane, and how.
#[derive(Debug, PartialEq, Eq)]
pub struct VerifiedEndpoint {
    pub endpoint: String,
    pub verified: String,
}

pub ghost struct VerifiedText {
    pub endpoint: Seq<char>,
    pub verified: Seq<char>,
}

impl View for VerifiedEndpoint {
    type V = VerifiedText;

    open spec fn view(&self) -> VerifiedText {
        VerifiedText { endpoint: self.endpoint@, verified: self.verified@ }
    }
}

pub open spec fn verified_texts(verified: Seq<VerifiedEndpoint>) -> Seq<VerifiedText> {
    verified.map_values(|endpoint: VerifiedEndpoint| endpoint@)
}

pub fn copy_verified(verified: &Vec<VerifiedEndpoint>) -> (r: Vec<VerifiedEndpoint>)
    ensures
        verified_texts(r@) == verified_texts(verified@),
{
    let mut r: Vec<VerifiedEndpoint> = Vec::new();
    let mut i: usize = 0;
    proof {
        assert(verified_texts(r@) =~= verified_texts(verified@).take(0));
    }
    while i < verified.len()
        invariant
            i <= verified@.len(),
            verified_texts(r@) == verified_texts(verified@).take(i as int),
        decreases verified@.len() - i,
    {
        let endpoint = &verified[i];
        let ghost before = r@;
        r.push(
            VerifiedEndpoint {
                endpoint: endpoint.endpoint.clone(),
                verified: endpoint.verified.clone(),
            },
        );
        proof {
            assert(verified_texts(r@) =~= verified_texts(before).push(endpoint@));
            assert(verified_texts(verified@).take(i + 1) =~= verified_texts(verified@).take(
                i as int,
            ).push(endpoint@));
        }
        i += 1;
    }
    proof {
        assert(verified_texts(verified@).take(i as int) =~= verified_texts(verified@));
    }
    r
}

/// The switch of a release's traffic: what moved and when, and, once it was
/// verified, how and when.
#[derive(Debug, PartialEq, Eq)]
pub struct SwitchResult {
    pub endpoints: Option<Vec<MovedEndpoint>>,
    pub switched_at: Option<i64>,
    pub verified: Option<Vec<VerifiedEndpoint>>,
    pub verified_at: Option<i64>,
}

pub ghost struct SwitchText {
    pub endpoints: Option<Seq<MovedText>>,
    pub switched_at: Option<i64>,
    pub verified: Option<Seq<VerifiedText>>,
    pub verified_at: Option<i64>,
}

impl View for SwitchResult {
    type V = SwitchText;

    open spec fn view(&self) -> SwitchText {
        SwitchText {
            endpoints: match self.endpoints {
                Some(endpoints) => Some(moved_texts(endpoints@)),
                None => None,
            },
            switched_at: self.switched_at,
            verified: match self.verified {
                Some(verified) => Some(verified_texts(verified@)),
                None => None,
            },
            verified_at: self.verified_at,
        }
    }
}

impl Clone for SwitchResult {
    fn clone(&self) -> (r: Self)
        ensures
            r@ == self@,
    {
        SwitchResult {
            endpoints: match &self.endpoints {
                Some(endpoints) => Some(copy_moved(endpoints)),
                None => None,
            },
            switched_at: self.switched_at,
            verified: match &self.verified {
                Some(verified) => Some(copy_verified(verified)),
                None => None,
            },
            verified_at: self.verified_at,
        }
    }
}

pub open spec fn opt_switch(result: Option<SwitchResult>) -> Option<SwitchText> {
    match result {
        Some(result) => Some(result@),
        None => None,
    }
}

// ---- Laws -------------------------------------------------------------------

/// Two results that say the same are the same in every part.
pub proof fn law_readiness_results_say_everything(a: ReadinessResult, b: ReadinessResult)
    requires
        a@ == b@,
    ensures
        a.check == b.check,
        a.ready_at == b.ready_at,
        opt_text(a.detail) == opt_text(b.detail),
{
}

/// Two networks that say the same have the same endpoints and domains, in
/// order and in every part.
pub proof fn law_network_results_say_everything(a: NetworkResult, b: NetworkResult, i: int)
    requires
        a@ == b@,
    ensures
        a.degraded == b.degraded,
        a.verified_at == b.verified_at,
        a.endpoints@.len() == b.endpoints@.len(),
        a.domains@.len() == b.domains@.len(),
        0 <= i < a.endpoints@.len() ==> a.endpoints@[i].endpoint@ == b.endpoints@[i].endpoint@
            && a.endpoints@[i].host_port == b.endpoints@[i].host_port
            && a.endpoints@[i].target_port == b.endpoints@[i].target_port
            && a.endpoints@[i].listening == b.endpoints@[i].listening
            && a.endpoints@[i].reachable == b.endpoints@[i].reachable,
        0 <= i < a.domains@.len() ==> a.domains@[i].domain@ == b.domains@[i].domain@
            && a.domains@[i].endpoint@ == b.domains@[i].endpoint@ && a.domains@[i].dns@
            == b.domains@[i].dns@ && a.domains@[i].tls@ == b.domains@[i].tls@
            && a.domains@[i].routing@ == b.domains@[i].routing@,
{
    assert(endpoint_results(a.endpoints@).len() == a.endpoints@.len());
    assert(endpoint_results(b.endpoints@).len() == b.endpoints@.len());
    assert(domain_results(a.domains@).len() == a.domains@.len());
    assert(domain_results(b.domains@).len() == b.domains@.len());
    if 0 <= i < a.endpoints@.len() {
        assert(endpoint_results(a.endpoints@)[i] == a.endpoints@[i]@);
        assert(endpoint_results(b.endpoints@)[i] == b.endpoints@[i]@);
    }
    if 0 <= i < a.domains@.len() {
        assert(domain_results(a.domains@)[i] == a.domains@[i]@);
        assert(domain_results(b.domains@)[i] == b.domains@[i]@);
    }
}

/// Two lists of moved endpoints that say the same moved the same endpoints
/// from and to the same instances, in order.
pub proof fn law_moves_say_everything(a: Seq<MovedEndpoint>, b: Seq<MovedEndpoint>, i: int)
    requires
        moved_texts(a) == moved_texts(b),
    ensures
        a.len() == b.len(),
        0 <= i < a.len() ==> a[i].endpoint@ == b[i].endpoint@ && a[i].host_port == b[i].host_port
            && opt_text(a[i].from_instance) == opt_text(b[i].from_instance) && opt_text(
            a[i].from_revision,
        ) == opt_text(b[i].from_revision) && a[i].to_instance@ == b[i].to_instance@ && a[i].to_port
            == b[i].to_port,
{
    assert(moved_texts(a).len() == a.len());
    assert(moved_texts(b).len() == b.len());
    if 0 <= i < a.len() {
        assert(moved_texts(a)[i] == a[i]@);
        assert(moved_texts(b)[i] == b[i]@);
    }
}

/// Two switches that say the same moved the same and were verified alike,
/// at the same times.
pub proof fn law_switches_say_everything(a: SwitchResult, b: SwitchResult, i: int)
    requires
        a@ == b@,
    ensures
        a.switched_at == b.switched_at,
        a.verified_at == b.verified_at,
        a.endpoints is Some == b.endpoints is Some,
        a.endpoints is Some ==> moved_texts(a.endpoints->0@) == moved_texts(b.endpoints->0@),
        a.verified is Some == b.verified is Some,
        a.verified is Some ==> a.verified->0@.len() == b.verified->0@.len(),
        a.verified is Some && 0 <= i < a.verified->0@.len() ==> a.verified->0@[i].endpoint@
            == b.verified->0@[i].endpoint@ && a.verified->0@[i].verified@
            == b.verified->0@[i].verified@,
{
    if a.verified is Some {
        let left = a.verified->0@;
        let right = b.verified->0@;
        assert(verified_texts(left) == verified_texts(right));
        assert(verified_texts(left).len() == left.len());
        assert(verified_texts(right).len() == right.len());
        if 0 <= i < left.len() {
            assert(verified_texts(left)[i] == left[i]@);
            assert(verified_texts(right)[i] == right[i]@);
        }
    }
}

} // verus!
