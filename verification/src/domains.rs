//! Domains: which endpoint each routes to, and the DNS records and
//! certificate that come with it. A domain belongs to one environment and
//! routes to one workload port of one project there.

use vstd::prelude::*;
use vstd::utf8::encode_utf8;

use crate::desired::Desired;
use crate::error::{EnvironmentError, Refusal};
use crate::events::{
    fact, fact_texts, project_scope, text_fact, Datum, DatumText, EventKind, Notice, Scope,
};
use crate::ids::{endpoint, endpoint_text};
use crate::model::{PortSpec, WorkloadKind};
use crate::search::{found, lemma_first, lemma_matching_upto, matching, positions};
use crate::state::{
    CertificateRecord, DnsRecordRecord, DomainRecord, Reconciliation, RevisionWorkload, Stored,
};
use crate::status::{CertificateView, DnsRecordView, DomainView};
use crate::table::{find_item, in_order, key1, key2, select, Table, Test};
use crate::text::{
    alphanumeric, chars_of, debug_text, decimal, decimal_text, is_alphanumeric,
    law_case_is_changed_for_letters_alone, lower_text, lowercase, opt_text, pieces, quoted, same,
    some_is, split, texts, trim_end, without_trailing,
};

verus! {

/// How long a managed DNS record may be cached, in seconds.
pub const RECORD_TTL: u32 = 300;

// ---- Names ------------------------------------------------------------------

/// One label of a domain name: one to 63 letters, digits and hyphens, with
/// no hyphen at either end.
pub open spec fn valid_label(label: Seq<char>) -> bool {
    &&& 1 <= label.len() <= 63
    &&& label[0] != '-'
    &&& label.last() != '-'
    &&& forall|i: int|
        0 <= i < label.len() ==> is_alphanumeric(#[trigger] label[i]) || label[i] == '-'
}

/// A DNS name Compute will manage: at least two labels, in at most 253
/// bytes.
pub open spec fn valid_domain(name: Seq<char>) -> bool {
    let labels = pieces(name, '.');
    &&& encode_utf8(name).len() <= 253
    &&& labels.len() >= 2
    &&& forall|i: int| 0 <= i < labels.len() ==> valid_label(#[trigger] labels[i])
}

/// A domain name as it is stored: without trailing dots, in lower case.
pub open spec fn normal_domain(name: Seq<char>) -> Seq<char> {
    lower_text(without_trailing(name, '.'))
}

fn label_is_valid(label: &str) -> (r: bool)
    ensures
        r == valid_label(label@),
{
    let text = chars_of(label);
    if text.len() == 0 || text.len() > 63 || text[0] == '-' || text[text.len() - 1] == '-' {
        return false;
    }
    let mut i: usize = 0;
    while i < text.len()
        invariant
            i <= text@.len(),
            forall|j: int|
                0 <= j < i ==> is_alphanumeric(#[trigger] text@[j]) || text@[j] == '-',
        decreases text@.len() - i,
    {
        if !alphanumeric(text[i]) && text[i] != '-' {
            proof {
                assert(!is_alphanumeric(label@[i as int]));
            }
            return false;
        }
        i += 1;
    }
    true
}

/// A DNS name Compute will manage: lowercase letters, digits, and hyphens,
/// in at least two labels.
pub fn validate_domain(name: &str) -> (r: Result<String, EnvironmentError>)
    ensures
        match r {
            Ok(normal) => valid_domain(normal_domain(name@)) && normal@ == normal_domain(name@),
            Err(error) => !valid_domain(normal_domain(name@)) && error.reports(
                Refusal::Invalid(
                    debug_text(normal_domain(name@)) + " is not a domain name Compute can manage"@,
                ),
            ),
        },
{
    let normal = lowercase(&trim_end(name, '.'));
    let labels = split(&chars_of(&normal), '.');
    let mut valid = byte_length(&normal) <= 253 && labels.len() >= 2;
    let mut i: usize = 0;
    while i < labels.len()
        invariant
            i <= labels@.len(),
            valid ==> encode_utf8(normal@).len() <= 253 && labels@.len() >= 2 && forall|j: int|
                0 <= j < i ==> valid_label((#[trigger] labels@[j])@),
            !valid ==> !valid_domain(normal@),
        decreases labels@.len() - i,
    {
        proof {
            assert(texts(labels@)[i as int] == labels@[i as int]@);
        }
        if !label_is_valid(&labels[i]) {
            valid = false;
        }
        i += 1;
    }
    if !valid {
        let mut text = quoted(&normal);
        text.append(" is not a domain name Compute can manage");
        return Err(EnvironmentError::Invalid(text));
    }
    proof {
        assert forall|j: int| 0 <= j < texts(labels@).len() implies valid_label(
            #[trigger] texts(labels@)[j],
        ) by {
            assert(valid_label(labels@[j]@));
        }
    }
    Ok(normal)
}

// ---- What a domain routes to ------------------------------------------------

/// A domain as it is added.
#[derive(Debug)]
pub struct DomainDefinition {
    pub name: String,
    pub environment: String,
    pub project: String,
    pub workload: Option<String>,
    pub port: Option<String>,
    pub dns_provider: Option<String>,
    pub tls: Option<bool>,
}

/// Services with ports can be routed to.
pub open spec fn routable() -> spec_fn(RevisionWorkload) -> bool {
    |workload: RevisionWorkload|
        workload.kind == WorkloadKind::Service && workload.ports@.len() > 0
}

pub open spec fn routable_named(name: Seq<char>) -> spec_fn(RevisionWorkload) -> bool {
    |workload: RevisionWorkload| routable()(workload) && workload.name@ == name
}

struct RoutableNamed<'a> {
    name: &'a str,
}

impl<'a> Test<RevisionWorkload> for RoutableNamed<'a> {
    closed spec fn pred(&self) -> spec_fn(RevisionWorkload) -> bool {
        routable_named(self.name@)
    }

    fn test(&self, item: &RevisionWorkload) -> (r: bool) {
        item.kind == WorkloadKind::Service && item.ports.len() > 0 && same(&item.name, self.name)
    }
}

pub open spec fn port_spec_named(name: Seq<char>) -> spec_fn(PortSpec) -> bool {
    |port: PortSpec| port.name@ == name
}

/// Selects a declared port by name.
pub struct PortSpecNamed<'a> {
    pub name: &'a str,
}

impl<'a> Test<PortSpec> for PortSpecNamed<'a> {
    open spec fn pred(&self) -> spec_fn(PortSpec) -> bool {
        port_spec_named(self.name@)
    }

    fn test(&self, item: &PortSpec) -> (r: bool) {
        same(&item.name, self.name)
    }
}

/// The workload a domain routes to: the one it names, or the only service
/// with ports.
pub open spec fn routed_workload(
    workloads: Seq<RevisionWorkload>,
    definition: DomainDefinition,
) -> Result<RevisionWorkload, Refusal> {
    match definition.workload {
        Some(name) => match found(workloads, routable_named(name@)) {
            Some(workload) => Ok(workload),
            None => Err(
                Refusal::Invalid(
                    name@ + " is not a service with ports in "@ + definition.project@,
                ),
            ),
        },
        None => {
            let services = matching(workloads, routable());
            if services.len() == 1 {
                Ok(workloads[services[0]])
            } else {
                Err(
                    Refusal::Invalid(
                        definition.project@ + " has "@ + decimal_text(services.len())
                            + " services with ports; name the workload"@,
                    ),
                )
            }
        },
    }
}

/// The port a domain routes to: the one it names, or the first.
pub open spec fn routed_port(
    workload: RevisionWorkload,
    definition: DomainDefinition,
) -> Result<PortSpec, Refusal> {
    match definition.port {
        Some(name) => match found(workload.ports@, port_spec_named(name@)) {
            Some(port) => Ok(port),
            None => Err(
                Refusal::Invalid(workload.name@ + " declares no port "@ + name@),
            ),
        },
        None => Ok(workload.ports@[0]),
    }
}

/// What a domain routes to.
pub ghost struct Target {
    pub environment_id: Seq<char>,
    pub environment: Seq<char>,
    pub project_id: Seq<char>,
    pub workload: Seq<char>,
    pub port: Seq<char>,
}

/// What a domain with a valid name routes to, or why it is refused: it
/// exists already, its environment or project does not, the project has not
/// been released there, or it does not single out a service's port.
pub open spec fn domain_target(
    desired: Desired,
    name: Seq<char>,
    definition: DomainDefinition,
) -> Result<Target, Refusal> {
    if desired.domains@.contains_key(key1(name)) {
        Err(
            Refusal::Conflict(
                "domain "@ + name + " already exists; a domain routes to exactly one place"@,
            ),
        )
    } else {
        match desired.environment_named(definition.environment@) {
            None => Err(Refusal::NotFound("environment "@ + definition.environment@)),
            Some(environment) => {
                let home = environment.value.name@;
                let key = key2(home, definition.project@);
                if !desired.memberships@.contains_key(key) {
                    Err(
                        Refusal::NotFound(
                            "project "@ + definition.project@ + " in "@ + home
                                + "; a domain routes only within its environment"@,
                        ),
                    )
                } else {
                    let membership = desired.memberships@[key];
                    match membership.value.deployment_id {
                        None => Err(
                            Refusal::Conflict(
                                definition.project@ + " has not been released to "@ + home
                                    + " yet"@,
                            ),
                        ),
                        Some(deployment) => match desired.revision_for(deployment@) {
                            None => Err(
                                Refusal::NotFound("the revision of "@ + deployment@),
                            ),
                            Some(revision) => match routed_workload(
                                revision.workloads@,
                                definition,
                            ) {
                                Err(refusal) => Err(refusal),
                                Ok(workload) => match routed_port(workload, definition) {
                                    Err(refusal) => Err(refusal),
                                    Ok(port) => Ok(
                                        Target {
                                            environment_id: environment.id@,
                                            environment: home,
                                            project_id: membership.value.project_id@,
                                            workload: workload.name@,
                                            port: port.name@,
                                        },
                                    ),
                                },
                            },
                        },
                    }
                }
            },
        }
    }
}

/// Where a domain routes to.
#[derive(Debug)]
pub struct DomainTarget {
    pub environment_id: String,
    pub environment: String,
    pub project_id: String,
    pub workload: String,
    pub port: String,
}

impl View for DomainTarget {
    type V = Target;

    open spec fn view(&self) -> Target {
        Target {
            environment_id: self.environment_id@,
            environment: self.environment@,
            project_id: self.project_id@,
            workload: self.workload@,
            port: self.port@,
        }
    }
}

fn find_routed_workload<'a>(
    workloads: &'a Vec<RevisionWorkload>,
    definition: &DomainDefinition,
) -> (r: Result<&'a RevisionWorkload, EnvironmentError>)
    ensures
        match r {
            Ok(workload) => routed_workload(workloads@, *definition) == Ok::<
                RevisionWorkload,
                Refusal,
            >(*workload) && workload.ports@.len() > 0,
            Err(error) => routed_workload(workloads@, *definition) matches Err(refusal)
                && error.reports(refusal),
        },
{
    match &definition.workload {
        Some(name) => match find_item(workloads, &RoutableNamed { name }) {
            Some(workload) => {
                proof {
                    crate::search::lemma_first(workloads@, routable_named(name@));
                }
                Ok(workload)
            },
            None => {
                let mut text = name.clone();
                text.append(" is not a service with ports in ");
                text.append(&definition.project);
                Err(EnvironmentError::Invalid(text))
            },
        },
        None => {
            let mut services: Vec<usize> = Vec::new();
            let mut i: usize = 0;
            proof {
                assert(positions(services@) =~= Seq::<int>::empty());
            }
            while i < workloads.len()
                invariant
                    i <= workloads@.len(),
                    positions(services@) == crate::search::matching_upto(
                        workloads@,
                        routable(),
                        i as nat,
                    ),
                    services@.len() <= i,
                    forall|j: int|
                        0 <= j < services@.len() ==> (#[trigger] services@[j]) < workloads@.len()
                            && routable()(workloads@[services@[j] as int]),
                decreases workloads@.len() - i,
            {
                if workloads[i].kind == WorkloadKind::Service && workloads[i].ports.len() > 0 {
                    let ghost before = services@;
                    services.push(i);
                    proof {
                        assert(positions(services@) =~= positions(before).push(i as int));
                    }
                }
                i += 1;
            }
            if services.len() == 1 {
                proof {
                    assert(positions(services@)[0] == services@[0]);
                }
                Ok(&workloads[services[0]])
            } else {
                let mut text = definition.project.clone();
                text.append(" has ");
                text.append(&decimal(services.len() as u64));
                text.append(" services with ports; name the workload");
                Err(EnvironmentError::Invalid(text))
            }
        },
    }
}

/// Find what a domain with a valid name routes to.
pub fn find_target(desired: &Desired, name: &str, definition: &DomainDefinition) -> (r: Result<
    DomainTarget,
    EnvironmentError,
>)
    ensures
        match r {
            Ok(target) => domain_target(*desired, name@, *definition) == Ok::<Target, Refusal>(
                target@,
            ),
            Err(error) => domain_target(*desired, name@, *definition) matches Err(refusal)
                && error.reports(refusal),
        },
        r matches Ok(target) ==> {
            &&& definition.port matches Some(port) ==> target.port@ == port@
            &&& definition.workload matches Some(workload) ==> target.workload@ == workload@
        },
{
    proof {
        if domain_target(*desired, name@, *definition) is Ok {
            law_domains_route_where_they_say(*desired, name@, *definition);
        }
    }
    if desired.domains.at(name).is_some() {
        let mut text = "domain ".to_owned();
        text.append(name);
        text.append(" already exists; a domain routes to exactly one place");
        return Err(EnvironmentError::Conflict(text));
    }
    let environment = match desired.environment(&definition.environment) {
        Some(environment) => environment,
        None => {
            let mut text = "environment ".to_owned();
            text.append(&definition.environment);
            return Err(EnvironmentError::NotFound(text));
        },
    };
    let home = &environment.value.name;
    let membership = match desired.membership_of(home, &definition.project) {
        Some(membership) => membership,
        None => {
            let mut text = "project ".to_owned();
            text.append(&definition.project);
            text.append(" in ");
            text.append(home);
            text.append("; a domain routes only within its environment");
            return Err(EnvironmentError::NotFound(text));
        },
    };
    let deployment = match &membership.value.deployment_id {
        Some(deployment) => deployment,
        None => {
            let mut text = definition.project.clone();
            text.append(" has not been released to ");
            text.append(home);
            text.append(" yet");
            return Err(EnvironmentError::Conflict(text));
        },
    };
    let revision = match desired.revision_of(deployment) {
        Some(revision) => revision,
        None => {
            let mut text = "the revision of ".to_owned();
            text.append(deployment);
            return Err(EnvironmentError::NotFound(text));
        },
    };
    let workload = match find_routed_workload(&revision.workloads, definition) {
        Ok(workload) => workload,
        Err(error) => {
            return Err(error);
        },
    };
    let port = match &definition.port {
        Some(name) => match find_item(&workload.ports, &PortSpecNamed { name }) {
            Some(port) => port,
            None => {
                let mut text = workload.name.clone();
                text.append(" declares no port ");
                text.append(name);
                return Err(EnvironmentError::Invalid(text));
            },
        },
        None => &workload.ports[0],
    };
    Ok(
        DomainTarget {
            environment_id: environment.id.clone(),
            environment: home.clone(),
            project_id: membership.value.project_id.clone(),
            workload: workload.name.clone(),
            port: port.name.clone(),
        },
    )
}

// ---- DNS --------------------------------------------------------------------

/// A configured DNS provider, as it concerns one domain: its zone, and the
/// domain's name in it or why it is not in it.
#[derive(Debug)]
pub struct ProviderOption {
    pub name: String,
    pub zone: String,
    pub relative: Result<String, String>,
}

pub open spec fn provider_named(name: Seq<char>) -> spec_fn(ProviderOption) -> bool {
    |provider: ProviderOption| provider.name@ == name
}

struct ProviderNamed<'a> {
    name: &'a str,
}

impl<'a> Test<ProviderOption> for ProviderNamed<'a> {
    closed spec fn pred(&self) -> spec_fn(ProviderOption) -> bool {
        provider_named(self.name@)
    }

    fn test(&self, item: &ProviderOption) -> (r: bool) {
        same(&item.name, self.name)
    }
}

/// The provider, among the first `n`, with the longest zone that holds the
/// domain; of equals, the last.
pub open spec fn closest_zone(providers: Seq<ProviderOption>, n: nat) -> Option<int>
    decreases n,
{
    if n == 0 {
        None
    } else {
        let before = closest_zone(providers, (n - 1) as nat);
        let size = encode_utf8(providers[n - 1].zone@).len();
        if providers[n - 1].relative is Ok && (before is None || size >= encode_utf8(
            providers[before->0].zone@,
        ).len()) {
            Some(n - 1)
        } else {
            before
        }
    }
}

/// The provider that manages a domain's records: the one it names, none when
/// it says so, or the one whose zone holds it.
pub open spec fn dns_provider(
    providers: Seq<ProviderOption>,
    wanted: Option<String>,
) -> Result<Option<ProviderOption>, Refusal> {
    match wanted {
        Some(name) => if name@ == "none"@ {
            Ok(None)
        } else {
            match found(providers, provider_named(name@)) {
                None => Err(
                    Refusal::Invalid("no DNS provider "@ + name@ + " is configured"@),
                ),
                Some(provider) => match provider.relative {
                    Ok(_) => Ok(Some(provider)),
                    Err(error) => Err(Refusal::Invalid(error@)),
                },
            }
        },
        None => match closest_zone(providers, providers.len()) {
            Some(i) => Ok(Some(providers[i])),
            None => Ok(None),
        },
    }
}

fn byte_length(text: &str) -> (r: usize)
    ensures
        r == encode_utf8(text@).len(),
{
    text.as_bytes().len()
}

/// Choose the provider that manages a domain's records.
pub fn choose_provider<'a>(providers: &'a Vec<ProviderOption>, wanted: &Option<String>) -> (r:
    Result<Option<&'a ProviderOption>, EnvironmentError>)
    ensures
        match r {
            Ok(Some(provider)) => dns_provider(providers@, *wanted) == Ok::<
                Option<ProviderOption>,
                Refusal,
            >(Some(*provider)) && provider.relative is Ok,
            Ok(None) => dns_provider(providers@, *wanted) == Ok::<Option<ProviderOption>, Refusal>(
                None,
            ),
            Err(error) => dns_provider(providers@, *wanted) matches Err(refusal) && error.reports(
                refusal,
            ),
        },
{
    match wanted {
        Some(name) => {
            if same(name, "none") {
                return Ok(None);
            }
            match find_item(providers, &ProviderNamed { name }) {
                None => {
                    let mut text = "no DNS provider ".to_owned();
                    text.append(name);
                    text.append(" is configured");
                    Err(EnvironmentError::Invalid(text))
                },
                Some(provider) => match &provider.relative {
                    Ok(_) => Ok(Some(provider)),
                    Err(error) => Err(EnvironmentError::Invalid(error.clone())),
                },
            }
        },
        None => {
            let mut best: Option<usize> = None;
            let mut i: usize = 0;
            while i < providers.len()
                invariant
                    i <= providers@.len(),
                    match best {
                        Some(k) => k < i && closest_zone(providers@, i as nat) == Some(k as int)
                            && providers@[k as int].relative is Ok,
                        None => closest_zone(providers@, i as nat) is None,
                    },
                decreases providers@.len() - i,
            {
                if providers[i].relative.is_ok() {
                    let closer = match best {
                        Some(k) => byte_length(&providers[i].zone) >= byte_length(&providers[k].zone),
                        None => true,
                    };
                    if closer {
                        best = Some(i);
                    }
                }
                i += 1;
            }
            match best {
                Some(k) => Ok(Some(&providers[k])),
                None => Ok(None),
            }
        },
    }
}

// ---- Adding -----------------------------------------------------------------

/// What the node's network is configured with.
#[derive(Debug)]
pub struct NodeAddresses {
    pub public_ipv4: Option<String>,
    pub public_ipv6: Option<String>,
    /// The directory certificates are issued from.
    pub acme_directory: Option<String>,
}

/// Whether a domain gets a certificate, or why it cannot: it does when it
/// asks for one, or when it says nothing and issuance is configured.
pub open spec fn tls_choice(wanted: Option<bool>, node: NodeAddresses) -> Result<bool, Refusal> {
    let tls = match wanted {
        Some(tls) => tls,
        None => node.acme_directory is Some,
    };
    if tls && node.acme_directory is None {
        Err(Refusal::Invalid("TLS needs certificate issuance: configure network.acme"@))
    } else {
        Ok(tls)
    }
}

/// Why a domain whose name is valid is refused, whatever comes first.
pub open spec fn domain_refusal(
    desired: Desired,
    name: Seq<char>,
    definition: DomainDefinition,
    providers: Seq<ProviderOption>,
    node: NodeAddresses,
) -> Option<Refusal> {
    match domain_target(desired, name, definition) {
        Err(refusal) => Some(refusal),
        Ok(_) => match dns_provider(providers, definition.dns_provider) {
            Err(refusal) => Some(refusal),
            Ok(provider) => if provider is Some && node.public_ipv4 is None && node.public_ipv6 is None {
                Some(
                    Refusal::Invalid(
                        "DNS records need the node's public address: set network.public_ipv4 or public_ipv6"@,
                    ),
                )
            } else {
                match tls_choice(definition.tls, node) {
                    Err(refusal) => Some(refusal),
                    Ok(_) => None,
                }
            },
        },
    }
}

/// A state nothing has been done about yet.
pub open spec fn fresh_state(state: Reconciliation, status: Seq<char>) -> bool {
    &&& state.status@ == status
    &&& state.desired is None
    &&& state.actual is None
    &&& state.last_error is None
    &&& state.last_reconciled_at is None
}

pub fn reconciliation(status: &str) -> (r: Reconciliation)
    ensures
        fresh_state(r, status@),
{
    Reconciliation {
        status: status.to_owned(),
        desired: None,
        actual: None,
        last_error: None,
        last_reconciled_at: None,
    }
}

/// Whether `record` is a new domain's.
pub open spec fn is_new_domain(
    record: DomainRecord,
    name: Seq<char>,
    definition: DomainDefinition,
    target: Target,
    provider: Option<ProviderOption>,
    tls: bool,
    certificate_id: Seq<char>,
    now: i64,
) -> bool {
    &&& record.name@ == name
    &&& record.environment_id@ == target.environment_id
    &&& record.environment@ == target.environment
    &&& record.project_id@ == target.project_id
    &&& record.project@ == definition.project@
    &&& record.workload@ == target.workload
    &&& record.port@ == target.port
    &&& record.dns_provider@ == (match provider {
        Some(provider) => provider.name@,
        None => "none"@,
    })
    &&& opt_text(record.certificate_id) == (if tls {
        Some(certificate_id)
    } else {
        None
    })
    &&& record.status@ == "pending"@
    &&& fresh_state(
        record.dns,
        if provider is Some {
            "pending"@
        } else {
            "unmanaged"@
        },
    )
    &&& fresh_state(
        record.tls,
        if tls {
            "pending"@
        } else {
            "disabled"@
        },
    )
    &&& fresh_state(record.routing, "pending"@)
    &&& record.created_at == now
}

/// Whether `record` is a new DNS record of a domain.
pub open spec fn is_new_record(
    record: DnsRecordRecord,
    name: Seq<char>,
    provider: ProviderOption,
    record_type: Seq<char>,
    value: Seq<char>,
) -> bool {
    &&& record.domain@ == name
    &&& record.provider@ == provider.name@
    &&& record.zone@ == provider.zone@
    &&& provider.relative matches Ok(relative) && record.name@ == relative@
    &&& record.record_type@ == record_type
    &&& record.value@ == value
    &&& record.ttl == RECORD_TTL
    &&& record.provider_record_id is None
    &&& record.state.status@ == "pending"@
    &&& opt_text(record.state.desired) == Some(value)
    &&& record.state.actual is None
    &&& record.state.last_error is None
    &&& record.state.last_reconciled_at is None
}

/// Whether records are those a domain gets: one per public address of the
/// node, at its provider.
pub open spec fn are_new_records(
    records: Seq<DnsRecordRecord>,
    name: Seq<char>,
    provider: Option<ProviderOption>,
    node: NodeAddresses,
) -> bool {
    match provider {
        None => records.len() == 0,
        Some(provider) => match (node.public_ipv4, node.public_ipv6) {
            (Some(v4), Some(v6)) => records.len() == 2 && is_new_record(
                records[0],
                name,
                provider,
                "A"@,
                v4@,
            ) && is_new_record(records[1], name, provider, "AAAA"@, v6@),
            (Some(v4), None) => records.len() == 1 && is_new_record(
                records[0],
                name,
                provider,
                "A"@,
                v4@,
            ),
            (None, Some(v6)) => records.len() == 1 && is_new_record(
                records[0],
                name,
                provider,
                "AAAA"@,
                v6@,
            ),
            (None, None) => records.len() == 0,
        },
    }
}

fn new_record(name: &str, provider: &ProviderOption, record_type: &str, value: &str) -> (r:
    DnsRecordRecord)
    requires
        provider.relative is Ok,
    ensures
        is_new_record(r, name@, *provider, record_type@, value@),
{
    DnsRecordRecord {
        domain: name.to_owned(),
        provider: provider.name.clone(),
        zone: provider.zone.clone(),
        name: match &provider.relative {
            Ok(relative) => relative.clone(),
            Err(_) => String::new(),
        },
        record_type: record_type.to_owned(),
        value: value.to_owned(),
        ttl: RECORD_TTL,
        provider_record_id: None,
        state: Reconciliation {
            status: "pending".to_owned(),
            desired: Some(value.to_owned()),
            actual: None,
            last_error: None,
            last_reconciled_at: None,
        },
    }
}

/// A certificate nothing has been done about yet.
pub open spec fn is_new_certificate(
    certificate: CertificateRecord,
    name: Seq<char>,
    issuer: Seq<char>,
) -> bool {
    &&& certificate.domain@ == name
    &&& certificate.issuer@ == issuer
    &&& certificate.status@ == "pending"@
    &&& certificate.renewal_status@ == "not_due"@
    &&& certificate.not_before is None
    &&& certificate.expires_at is None
    &&& certificate.fingerprint is None
    &&& certificate.secret_reference is None
    &&& certificate.held_by is None
    &&& certificate.last_error is None
    &&& certificate.last_reconciled_at is None
}

/// What adding a domain writes.
pub struct DomainPlan {
    pub domain: DomainRecord,
    pub records: Vec<DnsRecordRecord>,
    pub certificate: Option<CertificateRecord>,
    /// The endpoint it routes to.
    pub endpoint: String,
    /// The stored assignment of that endpoint, and the domains it then has.
    pub traffic: Option<(String, Vec<String>)>,
    pub notice: Notice,
}

/// Add a domain: it routes to one port of one service released in its
/// environment; its records are managed at the provider whose zone holds
/// it; and it gets a certificate when issuance is configured.
pub fn add_domain(
    desired: &Desired,
    definition: &DomainDefinition,
    providers: &Vec<ProviderOption>,
    node: &NodeAddresses,
    certificate_id: &str,
    now: i64,
) -> (r: Result<DomainPlan, EnvironmentError>)
    ensures
        ({
            let name = normal_domain(definition.name@);
            if !valid_domain(name) {
                r matches Err(error) && error.reports(
                    Refusal::Invalid(
                        debug_text(name) + " is not a domain name Compute can manage"@,
                    ),
                )
            } else {
                match domain_refusal(*desired, name, *definition, providers@, *node) {
                    Some(refusal) => r matches Err(error) && error.reports(refusal),
                    None => {
                        &&& r matches Ok(plan)
                        &&& domain_target(*desired, name, *definition) matches Ok(target)
                        &&& dns_provider(providers@, definition.dns_provider) matches Ok(provider)
                        &&& tls_choice(definition.tls, *node) matches Ok(tls)
                        &&& is_new_domain(
                            plan.domain,
                            name,
                            *definition,
                            target,
                            provider,
                            tls,
                            certificate_id@,
                            now,
                        )
                        &&& are_new_records(plan.records@, name, provider, *node)
                        &&& match plan.certificate {
                            Some(certificate) => tls && is_new_certificate(
                                certificate,
                                name,
                                node.acme_directory->0@,
                            ),
                            None => !tls,
                        }
                        &&& plan.endpoint@ == endpoint_text(
                            target.environment,
                            definition.project@,
                            target.workload,
                            target.port,
                        )
                        &&& if desired.traffic@.contains_key(key1(plan.endpoint@)) {
                            &&& plan.traffic matches Some(traffic)
                            &&& traffic.0@ == desired.traffic@[key1(plan.endpoint@)].id@
                            &&& names_domains(
                                traffic.1@,
                                *desired,
                                plan.endpoint@,
                                Some(name),
                                None,
                            )
                        } else {
                            plan.traffic is None
                        }
                        &&& plan.notice.says(
                            EventKind::DomainCreated,
                            project_scope(target.environment, definition.project@),
                            name + " routes to "@ + plan.endpoint@,
                            seq![
                                text_fact("domain"@, name),
                                text_fact("endpoint"@, plan.endpoint@),
                                text_fact("dns_provider"@, plan.domain.dns_provider@),
                                fact("tls"@, DatumText::Flag(tls)),
                            ],
                        )
                    },
                }
            }
        }),
        r matches Ok(plan) ==> {
            &&& definition.port matches Some(port) ==> plan.domain.port@ == port@
            &&& definition.workload matches Some(workload) ==> plan.domain.workload@ == workload@
        },
{
    let name = match validate_domain(&definition.name) {
        Ok(name) => name,
        Err(error) => {
            return Err(error);
        },
    };
    let target = match find_target(desired, &name, definition) {
        Ok(target) => target,
        Err(error) => {
            return Err(error);
        },
    };
    let provider = match choose_provider(providers, &definition.dns_provider) {
        Ok(provider) => provider,
        Err(error) => {
            return Err(error);
        },
    };
    if provider.is_some() && node.public_ipv4.is_none() && node.public_ipv6.is_none() {
        return Err(
            EnvironmentError::Invalid(
                "DNS records need the node's public address: set network.public_ipv4 or public_ipv6".to_owned(),
            ),
        );
    }
    let tls = match definition.tls {
        Some(tls) => tls,
        None => node.acme_directory.is_some(),
    };
    if tls && node.acme_directory.is_none() {
        return Err(
            EnvironmentError::Invalid(
                "TLS needs certificate issuance: configure network.acme".to_owned(),
            ),
        );
    }
    let mut records: Vec<DnsRecordRecord> = Vec::new();
    if let Some(provider) = provider {
        if let Some(address) = &node.public_ipv4 {
            records.push(new_record(&name, provider, "A", address));
        }
        if let Some(address) = &node.public_ipv6 {
            records.push(new_record(&name, provider, "AAAA", address));
        }
    }
    let certificate = if tls {
        match &node.acme_directory {
            Some(directory) => Some(
                CertificateRecord {
                    domain: name.clone(),
                    issuer: directory.clone(),
                    status: "pending".to_owned(),
                    renewal_status: "not_due".to_owned(),
                    not_before: None,
                    expires_at: None,
                    fingerprint: None,
                    secret_reference: None,
                    held_by: None,
                    last_error: None,
                    last_reconciled_at: None,
                },
            ),
            None => None,
        }
    } else {
        None
    };
    let place = endpoint(
        &target.environment,
        &definition.project,
        &target.workload,
        &target.port,
    );
    let traffic = match desired.traffic.at(&place) {
        Some(assignment) => Some(
            (assignment.id.clone(), domain_names(desired, &place, Some(&name), None)),
        ),
        None => None,
    };
    let mut message = name.clone();
    message.append(" routes to ");
    message.append(&place);
    let dns_provider = match provider {
        Some(provider) => provider.name.clone(),
        None => "none".to_owned(),
    };
    let notice = Notice::new(
        EventKind::DomainCreated,
        Scope::project(&target.environment, &definition.project),
        message,
    ).with("domain", Datum::text(&name)).with("endpoint", Datum::text(&place)).with(
        "dns_provider",
        Datum::text(&dns_provider),
    ).with("tls", Datum::Flag(tls));
    let domain = DomainRecord {
        name: name.clone(),
        environment_id: target.environment_id,
        environment: target.environment,
        project_id: target.project_id,
        project: definition.project.clone(),
        workload: target.workload,
        port: target.port,
        dns_provider,
        certificate_id: if tls {
            Some(certificate_id.to_owned())
        } else {
            None
        },
        status: "pending".to_owned(),
        dns: reconciliation(
            if provider.is_some() {
                "pending"
            } else {
                "unmanaged"
            },
        ),
        tls: reconciliation(
            if tls {
                "pending"
            } else {
                "disabled"
            },
        ),
        routing: reconciliation("pending"),
        created_at: now,
    };
    Ok(DomainPlan { domain, records, certificate, endpoint: place, traffic, notice })
}

// ---- The domains of an endpoint ---------------------------------------------

/// Whether a stored domain of that name routes to an endpoint.
pub open spec fn routes_here(desired: Desired, name: Seq<char>, place: Seq<char>, n: nat) -> bool {
    exists|i: int|
        0 <= i < n && (#[trigger] desired.domains.values()[i]).value.name@ == name
            && endpoint_text(
            desired.domains.values()[i].value.environment@,
            desired.domains.values()[i].value.project@,
            desired.domains.values()[i].value.workload@,
            desired.domains.values()[i].value.port@,
        ) == place
}

/// Whether a list names the domains routed to an endpoint, with one added or
/// one removed: each once, in order.
pub open spec fn names_domains(
    names: Seq<String>,
    desired: Desired,
    place: Seq<char>,
    added: Option<Seq<char>>,
    removed: Option<Seq<char>>,
) -> bool {
    &&& forall|name: Seq<char>| #[trigger]
        texts(names).contains(name) <==> added == Some(name) || (routes_here(
            desired,
            name,
            place,
            desired.domains.values().len(),
        ) && removed != Some(name))
    &&& in_order(names)
}

/// The domains routed to an endpoint, after adding or removing one.
pub fn domain_names(desired: &Desired, place: &str, added: Option<&str>, removed: Option<&str>) -> (r:
    Vec<String>)
    ensures
        names_domains(
            r@,
            *desired,
            place@,
            match added {
                Some(name) => Some(name@),
                None => None,
            },
            match removed {
                Some(name) => Some(name@),
                None => None,
            },
        ),
{
    let ghost plus: Option<Seq<char>> = match added {
        Some(name) => Some(name@),
        None => None,
    };
    let ghost minus: Option<Seq<char>> = match removed {
        Some(name) => Some(name@),
        None => None,
    };
    let ghost domains = desired.domains.values();
    let mut names: Table<String, bool> = Table::new();
    let mut i: usize = 0;
    while i < desired.domains.len()
        invariant
            i <= domains.len(),
            forall|name: Seq<char>| #[trigger]
                names@.contains_key(key1(name)) <==> routes_here(*desired, name, place@, i as nat)
                    && minus != Some(name),
        decreases domains.len() - i,
    {
        let domain = &desired.domains.value_at(i).value;
        let here = same(
            &endpoint(&domain.environment, &domain.project, &domain.workload, &domain.port),
            place,
        );
        let gone = match removed {
            Some(name) => same(&domain.name, name),
            None => false,
        };
        let ghost before = names@;
        if here && !gone {
            names.insert(domain.name.clone(), true);
        }
        proof {
            assert forall|name: Seq<char>| #[trigger]
                names@.contains_key(key1(name)) <==> routes_here(
                    *desired,
                    name,
                    place@,
                    (i + 1) as nat,
                ) && minus != Some(name) by {
                assert(key1(name)[0] == name);
                assert(key1(domain.name@)[0] == domain.name@);
                assert(before.contains_key(key1(name)) <==> routes_here(
                    *desired,
                    name,
                    place@,
                    i as nat,
                ) && minus != Some(name));
                if routes_here(*desired, name, place@, i as nat) {
                    let k = choose|k: int|
                        0 <= k < i && (#[trigger] domains[k]).value.name@ == name && endpoint_text(
                            domains[k].value.environment@,
                            domains[k].value.project@,
                            domains[k].value.workload@,
                            domains[k].value.port@,
                        ) == place@;
                    assert(domains[k].value.name@ == name);
                }
                if here && domain.name@ == name {
                    assert(domains[i as int].value.name@ == name);
                }
                if routes_here(*desired, name, place@, (i + 1) as nat) && !routes_here(
                    *desired,
                    name,
                    place@,
                    i as nat,
                ) {
                    let k = choose|k: int|
                        0 <= k < i + 1 && (#[trigger] domains[k]).value.name@ == name
                            && endpoint_text(
                            domains[k].value.environment@,
                            domains[k].value.project@,
                            domains[k].value.workload@,
                            domains[k].value.port@,
                        ) == place@;
                    assert(k == i);
                }
            }
        }
        i += 1;
    }
    let ghost kept = names@;
    if let Some(name) = added {
        names.insert(name.to_owned(), true);
    }
    proof {
        assert forall|name: Seq<char>| #[trigger] names@.contains_key(key1(name)) <==> plus == Some(
            name,
        ) || (routes_here(*desired, name, place@, domains.len()) && minus != Some(name)) by {
            assert(key1(name)[0] == name);
            if let Some(extra) = plus {
                assert(key1(extra)[0] == extra);
            }
            assert(kept.contains_key(key1(name)) <==> routes_here(
                *desired,
                name,
                place@,
                domains.len(),
            ) && minus != Some(name));
        }
    }
    let r = names.names();
    proof {
        assert forall|name: Seq<char>| #[trigger]
            texts(r@).contains(name) <==> plus == Some(name) || (routes_here(
                *desired,
                name,
                place@,
                domains.len(),
            ) && minus != Some(name)) by {
            assert(texts(r@).contains(name) <==> names@.contains_key(key1(name)));
        }
    }
    r
}

// ---- Removing ---------------------------------------------------------------

pub open spec fn record_of(name: Seq<char>) -> spec_fn(Stored<DnsRecordRecord>) -> bool {
    |record: Stored<DnsRecordRecord>| record.value.domain@ == name
}

/// Selects a domain's DNS records.
pub struct RecordOf<'a> {
    pub name: &'a str,
}

impl<'a> Test<Stored<DnsRecordRecord>> for RecordOf<'a> {
    open spec fn pred(&self) -> spec_fn(Stored<DnsRecordRecord>) -> bool {
        record_of(self.name@)
    }

    fn test(&self, item: &Stored<DnsRecordRecord>) -> (r: bool) {
        same(&item.value.domain, self.name)
    }
}

/// What removing a domain deletes.
pub struct DomainRemoval {
    pub name: String,
    pub domain_id: String,
    /// Positions of its DNS records.
    pub records: Vec<usize>,
    /// Its certificate, and where its key is kept.
    pub certificate: Option<(String, Option<String>)>,
    /// The endpoint it routed to.
    pub endpoint: String,
    /// The stored assignment of that endpoint, and the domains it then has.
    pub traffic: Option<(String, Vec<String>)>,
    pub notice: Notice,
}

/// Remove a domain: its route, its DNS records, and its certificate.
pub fn remove_domain(desired: &Desired, name: &str) -> (r: Result<DomainRemoval, EnvironmentError>)
    ensures
        ({
            let wanted = lower_text(name@);
            if !desired.domains@.contains_key(key1(wanted)) {
                r matches Err(error) && error.reports(Refusal::NotFound("domain "@ + wanted))
            } else {
                let domain = desired.domains@[key1(wanted)];
                &&& r matches Ok(removal)
                &&& removal.name@ == wanted
                &&& removal.domain_id@ == domain.id@
                &&& positions(removal.records@) == matching(
                    desired.dns_records.values(),
                    record_of(wanted),
                )
                &&& if desired.certificates@.contains_key(key1(wanted)) {
                    &&& removal.certificate matches Some(certificate)
                    &&& certificate.0@ == desired.certificates@[key1(wanted)].id@
                    &&& certificate.1
                        == desired.certificates@[key1(wanted)].value.secret_reference
                } else {
                    removal.certificate is None
                }
                &&& removal.endpoint@ == endpoint_text(
                    domain.value.environment@,
                    domain.value.project@,
                    domain.value.workload@,
                    domain.value.port@,
                )
                &&& if desired.traffic@.contains_key(key1(removal.endpoint@)) {
                    &&& removal.traffic matches Some(traffic)
                    &&& traffic.0@ == desired.traffic@[key1(removal.endpoint@)].id@
                    &&& names_domains(
                        traffic.1@,
                        *desired,
                        removal.endpoint@,
                        None,
                        Some(wanted),
                    )
                } else {
                    removal.traffic is None
                }
                &&& removal.notice.says(
                    EventKind::DomainRemoved,
                    project_scope(domain.value.environment@, domain.value.project@),
                    wanted + " no longer routes to "@ + removal.endpoint@,
                    seq![text_fact("domain"@, wanted)],
                )
            }
        }),
{
    let wanted = lowercase(name);
    let domain = match desired.domains.at(&wanted) {
        Some(domain) => domain,
        None => {
            let mut text = "domain ".to_owned();
            text.append(&wanted);
            return Err(EnvironmentError::NotFound(text));
        },
    };
    let place = endpoint(
        &domain.value.environment,
        &domain.value.project,
        &domain.value.workload,
        &domain.value.port,
    );
    let traffic = match desired.traffic.at(&place) {
        Some(assignment) => Some(
            (assignment.id.clone(), domain_names(desired, &place, None, Some(&wanted))),
        ),
        None => None,
    };
    let certificate = match desired.certificates.at(&wanted) {
        Some(certificate) => Some(
            (
                certificate.id.clone(),
                crate::text::copy_option(&certificate.value.secret_reference),
            ),
        ),
        None => None,
    };
    let records = select(&desired.dns_records, &RecordOf { name: &wanted });
    let mut message = wanted.clone();
    message.append(" no longer routes to ");
    message.append(&place);
    let notice = Notice::new(
        EventKind::DomainRemoved,
        Scope::project(&domain.value.environment, &domain.value.project),
        message,
    ).with("domain", Datum::text(&wanted));
    Ok(
        DomainRemoval {
            name: wanted,
            domain_id: domain.id.clone(),
            records,
            certificate,
            endpoint: place,
            traffic,
            notice,
        },
    )
}

/// What removing a domain reports, with what could not be cleaned up at its
/// DNS provider.
pub fn removed_domain(removal: Notice, errors: Vec<String>) -> (r: Notice)
    ensures
        r.says(
            removal.kind,
            removal.scope@,
            removal.message@,
            fact_texts(removal.facts@).push(
                fact("dns_cleanup_errors"@, DatumText::Texts(texts(errors@))),
            ),
        ),
{
    removal.with("dns_cleanup_errors", Datum::Texts(errors))
}

/// How removing a DNS record at its provider went.
#[derive(Debug)]
pub enum Cleanup {
    Removed,
    Refused(String),
    /// The provider cannot be used, and why.
    Unusable(String),
    NotConfigured,
}

/// What is reported of a DNS record that could not be removed.
pub fn cleanup_error(record: &DnsRecordRecord, outcome: &Cleanup) -> (r: Option<String>)
    ensures
        opt_text(r) == (match *outcome {
            Cleanup::Removed => None,
            Cleanup::Refused(error) => Some(record.record_type@ + ": "@ + error@),
            Cleanup::Unusable(error) => Some(error@),
            Cleanup::NotConfigured => Some(
                "DNS provider "@ + record.provider@ + " is not configured"@,
            ),
        }),
{
    match outcome {
        Cleanup::Removed => None,
        Cleanup::Refused(error) => {
            let mut text = record.record_type.clone();
            text.append(": ");
            text.append(error);
            Some(text)
        },
        Cleanup::Unusable(error) => Some(error.clone()),
        Cleanup::NotConfigured => Some(not_configured(&record.provider)),
    }
}

/// The report of a provider that is not configured.
pub fn not_configured(provider: &str) -> (r: String)
    ensures
        r@ == "DNS provider "@ + provider@ + " is not configured"@,
{
    let mut text = "DNS provider ".to_owned();
    text.append(provider);
    text.append(" is not configured");
    text
}

// ---- Views ------------------------------------------------------------------

/// The public facts of a certificate, as a node sees them.
pub fn certificate_view(certificate: &Stored<CertificateRecord>, node_id: &str) -> (r:
    CertificateView)
    ensures
        is_certificate_view(r, *certificate, node_id@),
{
    CertificateView {
        certificate_id: certificate.id.clone(),
        held_here: some_is(&certificate.value.held_by, node_id),
        record: certificate.value.clone(),
    }
}

pub open spec fn is_certificate_view(
    view: CertificateView,
    certificate: Stored<CertificateRecord>,
    node_id: Seq<char>,
) -> bool {
    &&& view.certificate_id == certificate.id
    &&& view.held_here == (opt_text(certificate.value.held_by) == Some(node_id))
    &&& view.record == certificate.value
}

/// The certificates, by domain, as a node sees them.
pub fn certificates(desired: &Desired, node_id: &str) -> (r: Vec<CertificateView>)
    ensures
        r@.len() == desired.certificates.values().len(),
        forall|i: int|
            0 <= i < r@.len() ==> is_certificate_view(
                #[trigger] r@[i],
                desired.certificates.values()[i],
                node_id@,
            ),
{
    let mut r: Vec<CertificateView> = Vec::new();
    let mut i: usize = 0;
    while i < desired.certificates.len()
        invariant
            i <= desired.certificates.values().len(),
            r@.len() == i,
            forall|j: int|
                0 <= j < i ==> is_certificate_view(
                    #[trigger] r@[j],
                    desired.certificates.values()[j],
                    node_id@,
                ),
        decreases desired.certificates.values().len() - i,
    {
        r.push(certificate_view(desired.certificates.value_at(i), node_id));
        i += 1;
    }
    r
}

/// The domain whose certificate is to be renewed, when it has one.
pub fn renew_certificate(desired: &Desired, domain: &str) -> (r: Result<String, EnvironmentError>)
    ensures
        match r {
            Ok(name) => name@ == lower_text(domain@) && desired.certificates@.contains_key(
                key1(name@),
            ),
            Err(error) => !desired.certificates@.contains_key(key1(lower_text(domain@)))
                && error.reports(Refusal::NotFound("a certificate for "@ + lower_text(domain@))),
        },
{
    let name = lowercase(domain);
    if desired.certificates.at(&name).is_none() {
        let mut text = "a certificate for ".to_owned();
        text.append(&name);
        return Err(EnvironmentError::NotFound(text));
    }
    Ok(name)
}

pub open spec fn is_record_view(view: DnsRecordView, record: Stored<DnsRecordRecord>) -> bool {
    view.record_id == record.id && view.record == record.value
}

/// Every DNS record.
pub fn dns_status(desired: &Desired) -> (r: Vec<DnsRecordView>)
    ensures
        r@.len() == desired.dns_records.values().len(),
        forall|i: int|
            0 <= i < r@.len() ==> is_record_view(
                #[trigger] r@[i],
                desired.dns_records.values()[i],
            ),
{
    let mut r: Vec<DnsRecordView> = Vec::new();
    let mut i: usize = 0;
    while i < desired.dns_records.len()
        invariant
            i <= desired.dns_records.values().len(),
            r@.len() == i,
            forall|j: int|
                0 <= j < i ==> is_record_view(#[trigger] r@[j], desired.dns_records.values()[j]),
        decreases desired.dns_records.values().len() - i,
    {
        let record = desired.dns_records.value_at(i);
        r.push(DnsRecordView { record_id: record.id.clone(), record: record.value.clone() });
        i += 1;
    }
    r
}

/// Whether a view is of a stored domain, as a node sees it.
pub open spec fn is_domain_view(
    view: DomainView,
    desired: Desired,
    name: Seq<char>,
    node_id: Seq<char>,
) -> bool {
    let domain = desired.domains@[key1(name)];
    let records = matching(desired.dns_records.values(), record_of(name));
    &&& view.domain_id == domain.id
    &&& view.record == domain.value
    &&& view.endpoint@ == endpoint_text(
        domain.value.environment@,
        domain.value.project@,
        domain.value.workload@,
        domain.value.port@,
    )
    &&& if desired.traffic@.contains_key(key1(view.endpoint@)) {
        let assignment = desired.traffic@[key1(view.endpoint@)].value;
        &&& view.host_port == Some(assignment.host_port)
        &&& view.serving_revision == Some(assignment.revision)
        &&& view.serving_deployment == Some(assignment.deployment_id)
    } else {
        view.host_port is None && view.serving_revision is None && view.serving_deployment is None
    }
    &&& view.dns_records@.len() == records.len()
    &&& forall|i: int|
        0 <= i < records.len() ==> is_record_view(
            #[trigger] view.dns_records@[i],
            desired.dns_records.values()[records[i]],
        )
    &&& match view.certificate {
        Some(certificate) => desired.certificates@.contains_key(key1(name)) && is_certificate_view(
            certificate,
            desired.certificates@[key1(name)],
            node_id,
        ),
        None => !desired.certificates@.contains_key(key1(name)),
    }
}

/// A domain, with what it routes to, its records and its certificate.
pub fn domain_view(desired: &Desired, name: &str, node_id: &str) -> (r: Result<
    DomainView,
    EnvironmentError,
>)
    ensures
        match r {
            Ok(view) => desired.domains@.contains_key(key1(name@)) && is_domain_view(
                view,
                *desired,
                name@,
                node_id@,
            ),
            Err(error) => !desired.domains@.contains_key(key1(name@)) && error.reports(
                Refusal::NotFound("domain "@ + name@),
            ),
        },
{
    let domain = match desired.domains.at(name) {
        Some(domain) => domain,
        None => {
            let mut text = "domain ".to_owned();
            text.append(name);
            return Err(EnvironmentError::NotFound(text));
        },
    };
    let place = endpoint(
        &domain.value.environment,
        &domain.value.project,
        &domain.value.workload,
        &domain.value.port,
    );
    let (host_port, serving_revision, serving_deployment) = match desired.traffic.at(&place) {
        Some(assignment) => (
            Some(assignment.value.host_port),
            Some(assignment.value.revision.clone()),
            Some(assignment.value.deployment_id.clone()),
        ),
        None => (None, None, None),
    };
    let records = select(&desired.dns_records, &RecordOf { name });
    let mut dns_records: Vec<DnsRecordView> = Vec::new();
    let mut i: usize = 0;
    while i < records.len()
        invariant
            i <= records@.len(),
            dns_records@.len() == i,
            forall|j: int|
                0 <= j < i ==> is_record_view(
                    #[trigger] dns_records@[j],
                    desired.dns_records.values()[records@[j] as int],
                ),
        decreases records@.len() - i,
    {
        let record = desired.dns_records.value_at(records[i]);
        dns_records.push(
            DnsRecordView { record_id: record.id.clone(), record: record.value.clone() },
        );
        i += 1;
    }
    proof {
        assert forall|j: int| 0 <= j < records@.len() implies positions(records@)[j]
            == records@[j] by {}
    }
    let certificate = match desired.certificates.at(name) {
        Some(certificate) => Some(certificate_view(certificate, node_id)),
        None => None,
    };
    Ok(
        DomainView {
            domain_id: domain.id.clone(),
            record: domain.value.clone(),
            endpoint: place,
            host_port,
            serving_revision,
            serving_deployment,
            dns_records,
            certificate,
        },
    )
}

// ---- Laws -------------------------------------------------------------------

/// A domain routes to what it names: a domain that names a port routes to
/// that port of its service, and one that names a workload to that workload.
/// One that names no port routes to the service's first. The service is one
/// of the revision released to the project in the domain's environment.
pub proof fn law_domains_route_where_they_say(
    desired: Desired,
    name: Seq<char>,
    definition: DomainDefinition,
)
    requires
        domain_target(desired, name, definition) is Ok,
    ensures
        ({
            let target = domain_target(desired, name, definition)->Ok_0;
            let key = key2(target.environment, definition.project@);
            let membership = desired.memberships@[key];
            let deployment = desired.deployments@[key1(membership.value.deployment_id->0@)];
            let revision = desired.revisions@[key1(deployment.value.revision_id@)];
            &&& !desired.domains@.contains_key(key1(name))
            &&& definition.port matches Some(port) ==> target.port == port@
            &&& definition.workload matches Some(workload) ==> target.workload == workload@
            &&& desired.memberships@.contains_key(key)
            &&& membership.value.deployment_id is Some
            &&& desired.deployments@.contains_key(key1(membership.value.deployment_id->0@))
            &&& desired.revisions@.contains_key(key1(deployment.value.revision_id@))
            &&& target.project_id == membership.value.project_id@
            &&& exists|i: int|
                {
                    &&& 0 <= i < revision.workloads@.len()
                    &&& (#[trigger] revision.workloads@[i]).name@ == target.workload
                    &&& revision.workloads@[i].kind == WorkloadKind::Service
                    &&& exists|j: int|
                        0 <= j < revision.workloads@[i].ports@.len() && (
                        #[trigger] revision.workloads@[i].ports@[j]).name@ == target.port
                    &&& definition.port is None ==> revision.workloads@[i].ports@[0].name@
                        == target.port
                    &&& definition.workload is None ==> forall|k: int|
                        0 <= k < revision.workloads@.len() && k != i ==> (
                        #[trigger] revision.workloads@[k]).kind != WorkloadKind::Service
                            || revision.workloads@[k].ports@.len() == 0
                }
        }),
{
    let target = domain_target(desired, name, definition)->Ok_0;
    let key = key2(target.environment, definition.project@);
    let membership = desired.memberships@[key];
    let deployment = desired.deployments@[key1(membership.value.deployment_id->0@)];
    let workloads = desired.revisions@[key1(deployment.value.revision_id@)].workloads@;
    let workload = routed_workload(workloads, definition)->Ok_0;
    let i = match definition.workload {
        Some(wanted) => {
            lemma_first(workloads, routable_named(wanted@));
            crate::search::first(workloads, routable_named(wanted@))->0
        },
        None => {
            lemma_matching_upto(workloads, routable(), workloads.len());
            matching(workloads, routable())[0]
        },
    };
    assert(workloads[i] == workload);
    match definition.port {
        Some(wanted) => {
            lemma_first(workload.ports@, port_spec_named(wanted@));
        },
        None => {
            assert(workload.ports@[0].name@ == target.port);
        },
    }
    if definition.workload is None {
        let services = matching(workloads, routable());
        assert forall|k: int| 0 <= k < workloads.len() && k != i implies (
        #[trigger] workloads[k]).kind != WorkloadKind::Service || workloads[k].ports@.len()
            == 0 by {
            if routable()(workloads[k]) {
                assert(services.contains(k));
            }
        }
    }
}

/// A domain that names a workload which is no service with ports of the
/// revision, or a port which its service does not declare, is refused; so is
/// one that names no workload where there is not exactly one service with
/// ports.
pub proof fn law_unclear_domains_are_refused(
    workloads: Seq<RevisionWorkload>,
    definition: DomainDefinition,
)
    ensures
        definition.workload matches Some(wanted) ==> (routed_workload(workloads, definition) is Ok
            <==> exists|i: int|
            0 <= i < workloads.len() && (#[trigger] workloads[i]).name@ == wanted@
                && workloads[i].kind == WorkloadKind::Service && workloads[i].ports@.len() > 0),
        definition.workload is None && routed_workload(workloads, definition) is Err ==> forall|
            i: int,
        |
            0 <= i < workloads.len() && (#[trigger] workloads[i]).kind == WorkloadKind::Service
                && workloads[i].ports@.len() > 0 ==> exists|k: int|
                0 <= k < workloads.len() && k != i && (#[trigger] workloads[k]).kind
                    == WorkloadKind::Service && workloads[k].ports@.len() > 0,
        forall|workload: RevisionWorkload|
            definition.port is Some ==> (#[trigger] routed_port(workload, definition) is Ok
                <==> exists|j: int|
                0 <= j < workload.ports@.len() && (#[trigger] workload.ports@[j]).name@
                    == definition.port->0@),
{
    if let Some(wanted) = definition.workload {
        lemma_first(workloads, routable_named(wanted@));
    } else {
        let services = matching(workloads, routable());
        lemma_matching_upto(workloads, routable(), workloads.len());
        if services.len() != 1 {
            assert forall|i: int|
                0 <= i < workloads.len() && (#[trigger] workloads[i]).kind == WorkloadKind::Service
                    && workloads[i].ports@.len() > 0 implies exists|k: int|
                0 <= k < workloads.len() && k != i && (#[trigger] workloads[k]).kind
                    == WorkloadKind::Service && workloads[k].ports@.len() > 0 by {
                assert(routable()(workloads[i]));
                assert(services.contains(i));
                let a = services[0];
                let b = services[1];
                assert(services.len() >= 2);
                assert(services[0] < services[1]);
                assert(routable()(workloads[a]) && routable()(workloads[b]));
            }
        }
    }
    assert forall|workload: RevisionWorkload| definition.port is Some implies (
    #[trigger] routed_port(workload, definition) is Ok <==> exists|j: int|
        0 <= j < workload.ports@.len() && (#[trigger] workload.ports@[j]).name@
            == definition.port->0@) by {
        lemma_first(workload.ports@, port_spec_named(definition.port->0@));
    }
}

/// The provider with the closest zone.
proof fn lemma_closest_zone(providers: Seq<ProviderOption>, n: nat)
    requires
        n <= providers.len(),
    ensures
        match closest_zone(providers, n) {
            Some(i) => {
                &&& 0 <= i < n
                &&& providers[i].relative is Ok
                &&& forall|j: int|
                    0 <= j < n && (#[trigger] providers[j]).relative is Ok ==> encode_utf8(
                        providers[j].zone@,
                    ).len() <= encode_utf8(providers[i].zone@).len()
            },
            None => forall|j: int| 0 <= j < n ==> (#[trigger] providers[j]).relative is Err,
        },
    decreases n,
{
    if n > 0 {
        lemma_closest_zone(providers, (n - 1) as nat);
    }
}

/// A domain's records are managed at the provider it names, at none when it
/// says so, and otherwise at a provider whose zone holds the domain, with no
/// closer one configured. A provider whose zone does not hold it is never
/// chosen.
pub proof fn law_the_closest_zone_manages_a_domain(
    providers: Seq<ProviderOption>,
    wanted: Option<String>,
)
    ensures
        dns_provider(providers, wanted) matches Ok(Some(provider)) ==> {
            &&& providers.contains(provider)
            &&& provider.relative is Ok
            &&& wanted matches Some(name) ==> provider.name@ == name@
            &&& wanted is None ==> forall|j: int|
                0 <= j < providers.len() && (#[trigger] providers[j]).relative is Ok
                    ==> encode_utf8(providers[j].zone@).len() <= encode_utf8(provider.zone@).len()
        },
        wanted matches Some(name) ==> name@ == "none"@ ==> dns_provider(providers, wanted) == Ok::<
            Option<ProviderOption>,
            Refusal,
        >(None),
        wanted matches Some(name) ==> name@ != "none"@ && (forall|j: int|
            0 <= j < providers.len() ==> (#[trigger] providers[j]).name@ != name@) ==> dns_provider(
            providers,
            wanted,
        ) is Err,
        wanted is None ==> dns_provider(providers, wanted) is Ok && (dns_provider(
            providers,
            wanted,
        )->Ok_0 is None <==> forall|j: int|
            0 <= j < providers.len() ==> (#[trigger] providers[j]).relative is Err),
{
    if let Some(name) = wanted {
        lemma_first(providers, provider_named(name@));
    } else {
        lemma_closest_zone(providers, providers.len());
    }
}

/// A domain gets a certificate when it asks for one, or says nothing where
/// issuance is configured; never when it declines. Asking where issuance is
/// not configured is refused.
pub proof fn law_certificates_follow_the_configuration(wanted: Option<bool>, node: NodeAddresses)
    ensures
        wanted == Some(false) ==> tls_choice(wanted, node) == Ok::<bool, Refusal>(false),
        wanted == Some(true) && node.acme_directory is Some ==> tls_choice(wanted, node) == Ok::<
            bool,
            Refusal,
        >(true),
        wanted == Some(true) && node.acme_directory is None ==> tls_choice(wanted, node) is Err,
        wanted is None ==> tls_choice(wanted, node) == Ok::<bool, Refusal>(
            node.acme_directory is Some,
        ),
{
}

/// A domain's records say where the node is: its IPv4 address in an `A`
/// record, its IPv6 address in an `AAAA` record, each as the node has it, at
/// the chosen provider and in its zone; nothing has been done about them
/// yet. A domain without a provider gets none.
pub proof fn law_records_hold_the_addresses_of_the_node(
    records: Seq<DnsRecordRecord>,
    name: Seq<char>,
    provider: Option<ProviderOption>,
    node: NodeAddresses,
)
    requires
        are_new_records(records, name, provider, node),
    ensures
        provider is None ==> records.len() == 0,
        forall|i: int|
            0 <= i < records.len() ==> {
                let record = #[trigger] records[i];
                &&& record.domain@ == name
                &&& provider matches Some(provider) && record.provider@ == provider.name@
                    && record.zone@ == provider.zone@
                &&& record.ttl == 300
                &&& record.record_type@ == "A"@ || record.record_type@ == "AAAA"@
                &&& record.record_type@ == "A"@ ==> opt_text(node.public_ipv4) == Some(
                    record.value@,
                )
                &&& record.record_type@ == "AAAA"@ ==> opt_text(node.public_ipv6) == Some(
                    record.value@,
                )
                &&& record.provider_record_id is None
            },
        provider is Some && node.public_ipv4 is Some ==> exists|i: int|
            0 <= i < records.len() && (#[trigger] records[i]).record_type@ == "A"@,
        provider is Some && node.public_ipv6 is Some ==> exists|i: int|
            0 <= i < records.len() && (#[trigger] records[i]).record_type@ == "AAAA"@,
        records.len() <= 2,
        provider is Some ==> records.len() == (if node.public_ipv4 is Some {
            1int
        } else {
            0
        }) + (if node.public_ipv6 is Some {
            1int
        } else {
            0
        }),
{
    reveal_strlit("A");
    reveal_strlit("AAAA");
    assert("A"@.len() != "AAAA"@.len());
    if provider is Some {
        if node.public_ipv4 is Some {
            assert(records[0].record_type@ == "A"@);
        }
        if node.public_ipv6 is Some {
            assert(records[records.len() - 1].record_type@ == "AAAA"@);
        }
    }
}

/// Names of domains are lower case and without trailing dots, of at least
/// two labels in at most 253 bytes, each label of one to 63 letters, digits
/// and hyphens that neither begins nor ends with a hyphen.
pub proof fn law_managed_names_are_domain_names(name: Seq<char>, i: int, j: int)
    requires
        valid_domain(name),
        0 <= i < pieces(name, '.').len(),
        0 <= j < pieces(name, '.')[i].len(),
    ensures
        encode_utf8(name).len() <= 253,
        pieces(name, '.').len() >= 2,
        1 <= pieces(name, '.')[i].len() <= 63,
        pieces(name, '.')[i][0] != '-',
        pieces(name, '.')[i].last() != '-',
        ({
            let c = pieces(name, '.')[i][j];
            'a' <= c <= 'z' || 'A' <= c <= 'Z' || '0' <= c <= '9' || c == '-'
        }),
{
    assert(valid_label(pieces(name, '.')[i]));
}

/// Adding a domain to an endpoint and removing it again leaves the domains
/// of the endpoint as they were, when the domain did not route there before;
/// every other domain of the endpoint stays in both.
pub proof fn law_removing_undoes_adding(
    desired: Desired,
    place: Seq<char>,
    name: Seq<char>,
    with: Seq<String>,
    without: Seq<String>,
    plain: Seq<String>,
)
    requires
        names_domains(with, desired, place, Some(name), None),
        names_domains(without, desired, place, None, Some(name)),
        names_domains(plain, desired, place, None, None),
    ensures
        texts(with).contains(name),
        !texts(without).contains(name),
        forall|other: Seq<char>|
            other != name ==> (#[trigger] texts(with).contains(other) <==> texts(plain).contains(
                other,
            )),
        forall|other: Seq<char>|
            other != name ==> (#[trigger] texts(without).contains(other) <==> texts(
                plain,
            ).contains(other)),
{
}

/// A domain is named by the endpoint it routes to: by every domain stored
/// with that environment, project, workload and port, and by no other.
pub proof fn law_endpoints_name_their_domains(
    desired: Desired,
    place: Seq<char>,
    names: Seq<String>,
    i: int,
)
    requires
        names_domains(names, desired, place, None, None),
        0 <= i < desired.domains.values().len(),
    ensures
        ({
            let domain = desired.domains.values()[i].value;
            domain.environment@ + "/"@ + domain.project@ + "/"@ + domain.workload@ + "/"@
                + domain.port@ == place ==> texts(names).contains(domain.name@)
        }),
        forall|name: Seq<char>| #[trigger]
            texts(names).contains(name) ==> exists|k: int|
                {
                    &&& 0 <= k < desired.domains.values().len()
                    &&& (#[trigger] desired.domains.values()[k]).value.name@ == name
                    &&& desired.domains.values()[k].value.environment@ + "/"@
                        + desired.domains.values()[k].value.project@ + "/"@
                        + desired.domains.values()[k].value.workload@ + "/"@
                        + desired.domains.values()[k].value.port@ == place
                },
{
    let domain = desired.domains.values()[i].value;
    if endpoint_text(domain.environment@, domain.project@, domain.workload@, domain.port@)
        == place {
        assert(routes_here(desired, domain.name@, place, desired.domains.values().len()));
    }
}

/// A new domain is where it was asked for, routes to its target, waits to be
/// converged, and holds a certificate exactly when it has one.
pub proof fn law_new_domains_wait_to_be_converged(
    record: DomainRecord,
    name: Seq<char>,
    definition: DomainDefinition,
    target: Target,
    provider: Option<ProviderOption>,
    tls: bool,
    certificate_id: Seq<char>,
    now: i64,
)
    requires
        is_new_domain(record, name, definition, target, provider, tls, certificate_id, now),
    ensures
        record.name@ == name,
        record.environment@ == target.environment,
        record.project@ == definition.project@,
        record.workload@ == target.workload,
        record.port@ == target.port,
        record.certificate_id is Some <==> tls,
        record.status@ == "pending"@,
        record.routing.status@ == "pending"@,
        provider is None <==> record.dns.status@ == "unmanaged"@,
        tls <==> record.tls.status@ == "pending"@,
        provider matches Some(provider) ==> record.dns_provider@ == provider.name@,
{
    reveal_strlit("pending");
    reveal_strlit("unmanaged");
    reveal_strlit("disabled");
    assert("pending"@.len() != "unmanaged"@.len());
    assert("pending"@.len() != "disabled"@.len());
}

/// Removing a domain removes every DNS record of it, and no record of
/// another domain.
pub proof fn law_only_its_own_records_are_removed(
    records: Seq<Stored<DnsRecordRecord>>,
    name: Seq<char>,
    i: int,
)
    requires
        0 <= i < records.len(),
    ensures
        matching(records, record_of(name)).contains(i) <==> records[i].value.domain@ == name,
{
    lemma_matching_upto(records, record_of(name), records.len());
    if matching(records, record_of(name)).contains(i) {
        let k = choose|k: int|
            0 <= k < matching(records, record_of(name)).len() && matching(
                records,
                record_of(name),
            )[k] == i;
        assert(record_of(name)(records[matching(records, record_of(name))[k]]));
    }
}

/// A domain is one name however it is written: in capitals or not, and with
/// or without the final dot.
pub proof fn law_domains_are_one_name_however_written(name: Seq<char>, i: int)
    ensures
        normal_domain(name.push('.')) == normal_domain(name),
        normal_domain(name).len() <= name.len(),
        0 <= i < normal_domain(name).len() ==> !('A' <= normal_domain(name)[i]
            && normal_domain(name)[i] <= 'Z'),
        0 <= i < normal_domain(name).len() && !('A' <= name[i] && name[i] <= 'Z')
            ==> normal_domain(name)[i] == name[i],
        normal_domain(name).len() > 0 ==> normal_domain(name).last() != '.',
{
    assert(name.push('.').drop_last() =~= name);
    lemma_without_trailing(name, '.');
    let bare = without_trailing(name, '.');
    if 0 <= i < bare.len() {
        law_case_is_changed_for_letters_alone(bare, i);
        assert(bare[i] == name[i]);
    }
    if bare.len() > 0 {
        law_case_is_changed_for_letters_alone(bare, bare.len() - 1);
    }
}

proof fn lemma_without_trailing(s: Seq<char>, c: char)
    ensures
        without_trailing(s, c).len() <= s.len(),
        without_trailing(s, c) == s.take(without_trailing(s, c).len() as int),
        without_trailing(s, c).len() > 0 ==> without_trailing(s, c).last() != c,
    decreases s.len(),
{
    if s.len() > 0 && s.last() == c {
        lemma_without_trailing(s.drop_last(), c);
        let left = without_trailing(s.drop_last(), c);
        assert(s.drop_last().take(left.len() as int) =~= s.take(left.len() as int));
    } else {
        assert(s.take(s.len() as int) =~= s);
    }
}

/// A label of a domain name is letters, digits and hyphens, one to
/// sixty-three of them, with no hyphen at either end.
pub proof fn law_labels_are_letters_digits_and_hyphens(label: Seq<char>, i: int)
    ensures
        valid_label(label) ==> 1 <= label.len() <= 63 && label[0] != '-' && label.last() != '-',
        valid_label(label) && 0 <= i < label.len() ==> ('a' <= label[i] && label[i] <= 'z') || (
        'A' <= label[i] && label[i] <= 'Z') || ('0' <= label[i] && label[i] <= '9') || label[i]
            == '-',
        label.len() > 0 && label.len() <= 63 && (forall|j: int|
            0 <= j < label.len() ==> 'a' <= (#[trigger] label[j]) && label[j] <= 'z')
            ==> valid_label(label),
{
    if label.len() > 0 && label.len() <= 63 && forall|j: int|
        0 <= j < label.len() ==> 'a' <= (#[trigger] label[j]) && label[j] <= 'z' {
        assert('a' <= label[0]);
        assert('a' <= label[label.len() - 1]);
    }
}

/// A domain is shown with its own record, the endpoint it routes to, what
/// serves there, its own DNS records and its own certificate.
pub proof fn law_domains_are_shown_as_they_are(
    view: DomainView,
    desired: Desired,
    name: Seq<char>,
    node_id: Seq<char>,
    i: int,
)
    requires
        is_domain_view(view, desired, name, node_id),
    ensures
        ({
            let domain = desired.domains@[seq![name]];
            let place = domain.value.environment@ + "/"@ + domain.value.project@ + "/"@
                + domain.value.workload@ + "/"@ + domain.value.port@;
            &&& view.domain_id == domain.id
            &&& view.record == domain.value
            &&& view.endpoint@ == place
            &&& desired.traffic@.contains_key(seq![place]) ==> view.host_port == Some(
                desired.traffic@[seq![place]].value.host_port,
            ) && view.serving_revision == Some(desired.traffic@[seq![place]].value.revision)
                && view.serving_deployment == Some(
                desired.traffic@[seq![place]].value.deployment_id,
            )
            &&& !desired.traffic@.contains_key(seq![place]) ==> view.host_port is None
                && view.serving_revision is None
            &&& 0 <= i < view.dns_records@.len() ==> view.dns_records@[i].record.domain@ == name
            &&& view.certificate is Some <==> desired.certificates@.contains_key(seq![name])
            &&& view.certificate matches Some(certificate) ==> certificate.record
                == desired.certificates@[seq![name]].value && (certificate.held_here <==> opt_text(
                certificate.record.held_by,
            ) == Some(node_id))
        }),
{
    assert(key1(name) =~= seq![name]);
    assert(key1(view.endpoint@) =~= seq![view.endpoint@]);
    let all = desired.dns_records.values();
    let records = matching(all, record_of(name));
    lemma_matching_upto(all, record_of(name), all.len());
    if 0 <= i < view.dns_records@.len() {
        assert(is_record_view(view.dns_records@[i], all[records[i]]));
        assert(record_of(name)(all[records[i]]));
    }
}

/// A DNS record waits to be applied: it is of its domain, in the zone of
/// its provider, for five minutes, and nothing is known of it yet.
pub proof fn law_new_records_wait_to_be_applied(
    record: DnsRecordRecord,
    name: Seq<char>,
    provider: ProviderOption,
    record_type: Seq<char>,
    value: Seq<char>,
)
    requires
        is_new_record(record, name, provider, record_type, value),
    ensures
        record.domain@ == name,
        record.provider@ == provider.name@,
        record.zone@ == provider.zone@,
        provider.relative matches Ok(relative) && record.name@ == relative@,
        record.record_type@ == record_type,
        record.value@ == value,
        record.ttl == 5 * 60,
        record.provider_record_id is None,
        record.state.status@ == "pending"@,
        opt_text(record.state.desired) == Some(value),
        record.state.actual is None,
        record.state.last_error is None,
        record.state.last_reconciled_at is None,
{
}

/// A certificate waits to be issued: it is of its domain, and no one holds
/// it yet.
pub proof fn law_new_certificates_wait_to_be_issued(
    certificate: CertificateRecord,
    name: Seq<char>,
    issuer: Seq<char>,
)
    requires
        is_new_certificate(certificate, name, issuer),
    ensures
        certificate.domain@ == name,
        certificate.issuer@ == issuer,
        certificate.status@ == "pending"@,
        certificate.renewal_status@ == "not_due"@,
        certificate.not_before is None,
        certificate.expires_at is None,
        certificate.fingerprint is None,
        certificate.secret_reference is None,
        certificate.held_by is None,
        certificate.last_error is None,
        certificate.last_reconciled_at is None,
{
}

/// A new domain belongs to the environment and project of what it routes
/// to, since now, and none of its parts has been converged.
pub proof fn law_new_domains_belong_to_their_project(
    record: DomainRecord,
    name: Seq<char>,
    definition: DomainDefinition,
    target: Target,
    provider: Option<ProviderOption>,
    tls: bool,
    certificate_id: Seq<char>,
    now: i64,
)
    requires
        is_new_domain(record, name, definition, target, provider, tls, certificate_id, now),
    ensures
        record.name@ == name,
        record.environment_id@ == target.environment_id,
        record.environment@ == target.environment,
        record.project_id@ == target.project_id,
        record.project@ == definition.project@,
        record.workload@ == target.workload,
        record.port@ == target.port,
        record.created_at == now,
        record.status@ == "pending"@,
        record.dns.actual is None && record.dns.last_error is None
            && record.dns.last_reconciled_at is None,
        record.tls.actual is None && record.tls.last_error is None
            && record.tls.last_reconciled_at is None,
        record.routing.actual is None && record.routing.last_error is None
            && record.routing.last_reconciled_at is None,
        record.routing.status@ == "pending"@,
        provider is Some ==> record.dns.status@ == "pending"@,
        provider is None ==> record.dns.status@ == "unmanaged"@ && record.dns_provider@ == "none"@,
        tls ==> record.tls.status@ == "pending"@ && opt_text(record.certificate_id) == Some(
            certificate_id,
        ),
        !tls ==> record.tls.status@ == "disabled"@ && record.certificate_id is None,
        provider matches Some(option) ==> record.dns_provider@ == option.name@,
{
}

} // verus!
