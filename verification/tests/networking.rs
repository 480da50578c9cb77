use compute_environment::certificates::{
    certificate_issued, certificate_step, load_error, must_load, CertificateFacts,
    CertificateUpdate, IssueOutcome, Issued,
};
use compute_environment::desired::Desired;
use compute_environment::dns::{
    applied_record, check_record, record_is_due, AppliedRecord, DnsStep, FoundRecord, Lookup,
};
use compute_environment::domains::{
    add_domain, certificates, choose_provider, cleanup_error, dns_status, domain_view,
    remove_domain, removed_domain, renew_certificate, validate_domain, Cleanup, DomainDefinition, NodeAddresses,
    ProviderOption,
};
use compute_environment::events::{Datum, EventKind};
use compute_environment::model::{
    Config, DesiredState, PortBinding, PortSpec, Readiness, ReadinessCheck, RestartPolicy,
    WorkloadKind,
};
use compute_environment::network::{
    combine_status, dns_provider_view, domain_updates, endpoint_views, has_ingress, has_network,
    ingress_refusal, ingress_routes, network_status, DnsProviderKind, DomainState, IngressKind,
    ServedPort,
};
use compute_environment::network_runtime::NetworkRuntime;
use compute_environment::node::NetworkConfig;
use compute_environment::state::{
    CertificateRecord, DeploymentRecord, DeploymentStatus, DnsRecordRecord, DomainRecord,
    EnvironmentProjectRecord, EnvironmentRecord, InstanceState, ProjectRevisionRecord,
    Reconciliation, RevisionWorkload, Stored, TrafficAssignmentRecord, WorkloadInstanceRecord,
    WorkloadRecord,
};
use compute_environment::table::Table;

const NOW: i64 = 1_700_000_000_000_000_000;
const SECOND: i64 = 1_000_000_000;

fn strings(values: &[&str]) -> Vec<String> {
    values.iter().map(|value| value.to_string()).collect()
}

fn key(workload: &str) -> (String, String, String) {
    ("prod".to_string(), "shop".to_string(), workload.to_string())
}

fn nothing_desired() -> Desired {
    Desired {
        environments: Table::new(),
        projects: Table::new(),
        memberships: Table::new(),
        workloads: Table::new(),
        deployments: Table::new(),
        revisions: Table::new(),
        instances: Table::new(),
        traffic: Table::new(),
        domains: Table::new(),
        dns_records: Table::new(),
        certificates: Table::new(),
    }
}

fn binding(name: &str, logical: u16, host: u16) -> PortBinding {
    PortBinding { name: name.into(), logical, host }
}

fn readiness(check: ReadinessCheck) -> Readiness {
    Readiness {
        check,
        port: None,
        path: None,
        task: None,
        timeout_ms: 60_000,
        interval_ms: 1_000,
    }
}

fn environment(name: &str, state: DesiredState) -> Stored<EnvironmentRecord> {
    let mut config = Config::new();
    config.insert("LOG".into(), "info".into());
    Stored {
        id: format!("env_{name}"),
        value: EnvironmentRecord {
            name: name.into(),
            desired_state: state,
            config,
            policy: None,
            provider: None,
            created_at: 1,
        },
    }
}

fn membership(state: DesiredState, deployment: Option<&str>) -> Stored<EnvironmentProjectRecord> {
    let mut config = Config::new();
    config.insert("MODE".into(), "live".into());
    Stored {
        id: "mem_1".into(),
        value: EnvironmentProjectRecord {
            environment_id: "env_prod".into(),
            environment: "prod".into(),
            project_id: "prj_shop".into(),
            project: "shop".into(),
            desired_state: state,
            config,
            revision_id: deployment.map(|_| "rev_1".to_string()),
            deployment_id: deployment.map(str::to_string),
            created_at: 2,
            updated_at: 2,
        },
    }
}

fn revision_workload(name: &str, kind: WorkloadKind, ports: &[(&str, u16)]) -> RevisionWorkload {
    RevisionWorkload {
        name: name.into(),
        kind,
        bundle_id: format!("bundle_{name}"),
        artifact: format!("sha256:{name}"),
        workload_identity: format!("identity_{name}"),
        runtime: "python".into(),
        runtime_version: Some("3.12".into()),
        dependency: None,
        distribution: None,
        readiness: None,
        default_readiness: readiness(if ports.is_empty() {
            ReadinessCheck::Process
        } else {
            ReadinessCheck::Port
        }),
        ports: ports
            .iter()
            .map(|(name, port)| PortSpec { name: name.to_string(), port: *port })
            .collect(),
        restart: RestartPolicy::OnFailure,
        desired_state: DesiredState::Running,
    }
}

fn revision(id: &str, workloads: Vec<RevisionWorkload>) -> Stored<ProjectRevisionRecord> {
    Stored {
        id: id.into(),
        value: ProjectRevisionRecord {
            project_id: "prj_shop".into(),
            project: "shop".into(),
            revision: format!("label-{id}"),
            revision_digest: format!("sha256:{id}"),
            source: None,
            workloads,
            created_at: 1,
        },
    }
}

fn deployment(id: &str, status: DeploymentStatus, previous: Option<&str>) -> Stored<DeploymentRecord> {
    Stored {
        id: id.into(),
        value: DeploymentRecord {
            environment_id: "env_prod".into(),
            environment: "prod".into(),
            project_id: "prj_shop".into(),
            project: "shop".into(),
            version: 1,
            revision_id: "rev_1".into(),
            revision: "label-rev_1".into(),
            revision_digest: "sha256:rev_1".into(),
            status,
            promoted_from: None,
            previous: previous.map(str::to_string),
            workloads: vec![],
            failure: None,
            receipt_ids: vec![],
            old_revision: None,
            config_digest: None,
            config: Config::new(),
            readiness_result: None,
            network_result: None,
            traffic_switch_result: None,
            rollback_reason: None,
            receipt: None,
            status_since: Some(NOW),
            completed_at: None,
            created_at: NOW,
            updated_at: NOW,
        },
    }
}

fn instance(
    id: &str,
    workload: &str,
    deployment_id: &str,
    state: InstanceState,
    ports: Vec<PortBinding>,
) -> Stored<WorkloadInstanceRecord> {
    Stored {
        id: id.into(),
        value: WorkloadInstanceRecord {
            environment_id: "env_prod".into(),
            environment: "prod".into(),
            project_id: "prj_shop".into(),
            project: "shop".into(),
            workload: workload.into(),
            workload_id: format!("wl_{workload}"),
            deployment_id: deployment_id.into(),
            revision: "label-rev_1".into(),
            state,
            ports,
            readiness: None,
            started_at: Some(NOW),
            ready_at: None,
            stopped_at: None,
            error: None,
            updated_at: NOW,
        },
    }
}

fn workload(name: &str, kind: WorkloadKind, deployment_id: &str, ports: Vec<PortBinding>) -> Stored<WorkloadRecord> {
    Stored {
        id: format!("wl_{name}"),
        value: WorkloadRecord {
            environment_id: "env_prod".into(),
            environment: "prod".into(),
            project_id: "prj_shop".into(),
            project: "shop".into(),
            name: name.into(),
            kind,
            desired_state: DesiredState::Running,
            restart: RestartPolicy::OnFailure,
            bundle_id: format!("bundle_{name}"),
            workload_identity: format!("identity_{name}"),
            runtime: "python".into(),
            ports,
            deployment_id: deployment_id.into(),
        },
    }
}

fn traffic(workload: &str, host_port: u16, deployment_id: &str, instance_id: &str) -> Stored<TrafficAssignmentRecord> {
    Stored {
        id: format!("trf_{workload}"),
        value: TrafficAssignmentRecord {
            endpoint: format!("prod/shop/{workload}/http"),
            environment: "prod".into(),
            project: "shop".into(),
            workload: workload.into(),
            port: "http".into(),
            host_port,
            domains: vec![],
            deployment_id: deployment_id.into(),
            revision: "label-rev_1".into(),
            instance_id: instance_id.into(),
            target_port: 30000,
            status: "active".into(),
            previous_deployment_id: None,
            previous_instance_id: None,
            switched_at: 1,
        },
    }
}

fn reconciliation_of(status: &str) -> Reconciliation {
    Reconciliation {
        status: status.into(),
        desired: None,
        actual: None,
        last_error: None,
        last_reconciled_at: None,
    }
}

fn domain(name: &str, workload: &str) -> Stored<DomainRecord> {
    Stored {
        id: format!("dom_{name}"),
        value: DomainRecord {
            name: name.into(),
            environment_id: "env_prod".into(),
            environment: "prod".into(),
            project_id: "prj_shop".into(),
            project: "shop".into(),
            workload: workload.into(),
            port: "http".into(),
            dns_provider: "none".into(),
            certificate_id: None,
            status: "pending".into(),
            dns: reconciliation_of("unmanaged"),
            tls: reconciliation_of("disabled"),
            routing: reconciliation_of("pending"),
            created_at: 1,
        },
    }
}

/// One service, `api`, that `dep_1` serves on port 20000.
fn serving() -> Desired {
    let mut desired = nothing_desired();
    desired
        .environments
        .insert("prod".into(), environment("prod", DesiredState::Running));
    desired.memberships.insert(
        ("prod".into(), "shop".into()),
        membership(DesiredState::Running, Some("dep_1")),
    );
    desired.workloads.insert(
        key("api"),
        workload("api", WorkloadKind::Service, "dep_1", vec![binding("http", 8000, 20000)]),
    );
    desired
        .deployments
        .insert("dep_1".into(), deployment("dep_1", DeploymentStatus::Complete, None));
    desired.revisions.insert(
        "rev_1".into(),
        revision("rev_1", vec![revision_workload("api", WorkloadKind::Service, &[("http", 8000)])]).value,
    );
    desired.instances.insert(
        "ins_1".into(),
        instance("ins_1", "api", "dep_1", InstanceState::Serving, vec![binding("http", 8000, 30000)]),
    );
    desired
        .traffic
        .insert("prod/shop/api/http".into(), traffic("api", 20000, "dep_1", "ins_1"));
    desired
}

const DAY: i64 = 86_400 * SECOND;

fn provider(name: &str, zone: &str, relative: Result<&str, &str>) -> ProviderOption {
    ProviderOption {
        name: name.into(),
        zone: zone.into(),
        relative: relative.map(str::to_string).map_err(str::to_string),
    }
}

fn definition(name: &str) -> DomainDefinition {
    DomainDefinition {
        name: name.into(),
        environment: "prod".into(),
        project: "shop".into(),
        workload: None,
        port: None,
        dns_provider: None,
        tls: None,
    }
}

fn node(v4: Option<&str>, acme: Option<&str>) -> NodeAddresses {
    NodeAddresses {
        public_ipv4: v4.map(str::to_string),
        public_ipv6: None,
        acme_directory: acme.map(str::to_string),
    }
}

fn record(status: &str) -> DnsRecordRecord {
    DnsRecordRecord {
        domain: "shop.example".into(),
        provider: "cloud".into(),
        zone: "example".into(),
        name: "shop".into(),
        record_type: "A".into(),
        value: "192.0.2.1".into(),
        ttl: 300,
        provider_record_id: None,
        state: reconciliation_of(status),
    }
}

fn certificate(status: &str, expires_at: Option<i64>) -> CertificateRecord {
    CertificateRecord {
        domain: "shop.example".into(),
        issuer: "https://acme".into(),
        status: status.into(),
        renewal_status: "not_due".into(),
        not_before: None,
        expires_at,
        fingerprint: None,
        secret_reference: None,
        held_by: None,
        last_error: None,
        last_reconciled_at: None,
    }
}

// ---- Domains ----------------------------------------------------------------

#[test]
fn domain_names_are_ordinary() {
    assert_eq!(validate_domain("Shop.Example.").unwrap(), "shop.example");
    assert_eq!(validate_domain("a-1.example").unwrap(), "a-1.example");
    let long = format!("{}.example", "a".repeat(63));
    assert_eq!(validate_domain(&long).unwrap(), long);
    for name in ["example", "", "-a.example", "a-.example", "a..example", "a_b.example", "é.example"] {
        assert!(validate_domain(name).is_err());
    }
    assert!(validate_domain(&format!("{}.example", "a".repeat(64))).is_err());
    assert!(validate_domain(&"a.".repeat(127)).is_ok());
    assert!(validate_domain(&format!("{}a", "a.".repeat(127))).is_err());
    assert_eq!(
        validate_domain("Example").unwrap_err().to_text(),
        "invalid: \"example\" is not a domain name Compute can manage"
    );
}

#[test]
fn the_closest_zone_manages_a_domain() {
    let providers = vec![
        provider("wide", "example", Ok("shop")),
        provider("close", "shop.example", Ok("@")),
        provider("other", "test", Err("shop.example is not in test")),
    ];
    let chosen = |wanted: Option<&str>| {
        choose_provider(&providers, &wanted.map(str::to_string))
            .map(|provider| provider.map(|provider| provider.name.clone()))
            .map_err(|error| error.to_text())
    };
    assert_eq!(chosen(None), Ok(Some("close".into())));
    assert_eq!(chosen(Some("none")), Ok(None));
    assert_eq!(chosen(Some("wide")), Ok(Some("wide".into())));
    assert_eq!(chosen(Some("other")), Err("invalid: shop.example is not in test".into()));
    assert_eq!(
        chosen(Some("gone")),
        Err("invalid: no DNS provider gone is configured".into())
    );
}

#[test]
fn a_domain_gets_a_route_records_and_a_certificate() {
    let desired = serving();
    let providers = vec![provider("cloud", "example", Ok("shop"))];
    let plan = add_domain(
        &desired,
        &definition("Shop.example"),
        &providers,
        &node(Some("192.0.2.1"), Some("https://acme")),
        "crt_1",
        NOW,
    )
    .ok()
    .unwrap();
    assert_eq!(plan.domain.name, "shop.example");
    assert_eq!(plan.domain.workload, "api");
    assert_eq!(plan.domain.port, "http");
    assert_eq!(plan.domain.dns_provider, "cloud");
    assert_eq!(plan.domain.certificate_id.as_deref(), Some("crt_1"));
    assert_eq!(plan.domain.dns.status, "pending");
    assert_eq!(plan.endpoint, "prod/shop/api/http");
    assert_eq!(plan.records.len(), 1);
    assert_eq!(plan.records[0].record_type, "A");
    assert_eq!(plan.records[0].name, "shop");
    assert_eq!(plan.records[0].state.desired.as_deref(), Some("192.0.2.1"));
    assert_eq!(plan.certificate.unwrap().issuer, "https://acme");
    assert_eq!(plan.traffic, Some(("trf_api".into(), strings(&["shop.example"]))));
    assert_eq!(plan.notice.message, "shop.example routes to prod/shop/api/http");
    let bare = add_domain(
        &desired,
        &definition("shop.example"),
        &vec![],
        &node(None, None),
        "crt_1",
        NOW,
    )
    .ok()
    .unwrap();
    assert_eq!(bare.domain.dns_provider, "none");
    assert_eq!(bare.domain.dns.status, "unmanaged");
    assert_eq!(bare.domain.tls.status, "disabled");
    assert!(bare.records.is_empty());
    assert!(bare.certificate.is_none());
}

#[test]
fn a_domain_routes_to_exactly_one_place() {
    let refused = |desired: &Desired, definition: DomainDefinition, acme: bool| {
        let providers = vec![provider("cloud", "example", Ok("shop"))];
        add_domain(
            desired,
            &definition,
            &providers,
            &node(if acme { Some("192.0.2.1") } else { None }, None),
            "crt_1",
            NOW,
        )
        .err()
        .unwrap()
        .to_text()
    };
    let desired = serving();
    let with = |change: fn(&mut DomainDefinition)| {
        let mut definition = definition("shop.example");
        change(&mut definition);
        definition
    };
    assert_eq!(
        refused(&desired, with(|d| d.environment = "dev".into()), true),
        "not found: environment dev"
    );
    assert_eq!(
        refused(&desired, with(|d| d.project = "blog".into()), true),
        "not found: project blog in prod; a domain routes only within its environment"
    );
    assert_eq!(
        refused(&desired, with(|d| d.workload = Some("job".into())), true),
        "invalid: job is not a service with ports in shop"
    );
    assert_eq!(
        refused(&desired, with(|d| d.port = Some("admin".into())), true),
        "invalid: api declares no port admin"
    );
    assert_eq!(
        refused(&desired, with(|d| d.tls = Some(true)), true),
        "invalid: TLS needs certificate issuance: configure network.acme"
    );
    assert_eq!(
        refused(&desired, definition("shop.example"), false),
        "invalid: DNS records need the node's public address: set network.public_ipv4 or public_ipv6"
    );
    let mut taken = serving();
    taken.domains.insert("shop.example".into(), domain("shop.example", "api"));
    assert_eq!(
        refused(&taken, definition("shop.example"), true),
        "conflict: domain shop.example already exists; a domain routes to exactly one place"
    );
    let mut unreleased = serving();
    unreleased.memberships.insert(
        ("prod".into(), "shop".into()),
        membership(DesiredState::Running, None),
    );
    assert_eq!(
        refused(&unreleased, definition("shop.example"), true),
        "conflict: shop has not been released to prod yet"
    );
    let mut two = serving();
    two.revisions.insert(
        "rev_1".into(),
        revision(
            "rev_1",
            vec![
                revision_workload("api", WorkloadKind::Service, &[("http", 1)]),
                revision_workload("web", WorkloadKind::Service, &[("http", 1)]),
            ],
        )
        .value,
    );
    assert_eq!(
        refused(&two, definition("shop.example"), true),
        "invalid: shop has 2 services with ports; name the workload"
    );
}

#[test]
fn a_removed_domain_leaves_nothing() {
    let mut desired = serving();
    desired.domains.insert("shop.example".into(), domain("shop.example", "api"));
    desired.domains.insert("www.example".into(), domain("www.example", "api"));
    desired
        .dns_records
        .insert("dns_1".into(), Stored { id: "dns_1".into(), value: record("healthy") });
    let mut held = certificate("valid", None);
    held.secret_reference = Some("secret_1".into());
    desired
        .certificates
        .insert("shop.example".into(), Stored { id: "crt_1".into(), value: held });
    let removal = remove_domain(&desired, "Shop.example").ok().unwrap();
    assert_eq!(removal.name, "shop.example");
    assert_eq!(removal.records, vec![0]);
    assert_eq!(removal.certificate, Some(("crt_1".into(), Some("secret_1".into()))));
    assert_eq!(removal.traffic, Some(("trf_api".into(), strings(&["www.example"]))));
    assert_eq!(
        removal.notice.message,
        "shop.example no longer routes to prod/shop/api/http"
    );
    let told = removed_domain(removal.notice, vec!["refused".into()]);
    assert_eq!(told.facts[1].name, "dns_cleanup_errors");
    assert!(matches!(&told.facts[1].value, Datum::Texts(errors) if errors[0] == "refused"));
    assert_eq!(
        remove_domain(&desired, "gone.example").err().unwrap().to_text(),
        "not found: domain gone.example"
    );
    assert_eq!(cleanup_error(&record("x"), &Cleanup::Removed), None);
    assert_eq!(
        cleanup_error(&record("x"), &Cleanup::Refused("no".into())).as_deref(),
        Some("A: no")
    );
    assert_eq!(
        cleanup_error(&record("x"), &Cleanup::NotConfigured).as_deref(),
        Some("DNS provider cloud is not configured")
    );
    assert_eq!(renew_certificate(&desired, "SHOP.example").unwrap(), "shop.example");
    assert_eq!(
        renew_certificate(&desired, "www.example").unwrap_err().to_text(),
        "not found: a certificate for www.example"
    );
    assert_eq!(dns_status(&desired)[0].record_id, "dns_1");
    assert!(!certificates(&desired, "node_1")[0].held_here);
    let view = domain_view(&desired, "shop.example", "node_1").ok().unwrap();
    assert_eq!(view.endpoint, "prod/shop/api/http");
    assert_eq!(view.host_port, Some(20000));
    assert_eq!(view.serving_deployment.as_deref(), Some("dep_1"));
    assert_eq!(view.dns_records.len(), 1);
    assert_eq!(view.certificate.unwrap().certificate_id, "crt_1");
}

// ---- State ------------------------------------------------------------------

#[test]
fn a_domain_is_as_well_as_its_parts() {
    assert_eq!(combine_status("healthy", "healthy", "healthy"), "healthy");
    assert_eq!(combine_status("unmanaged", "disabled", "healthy"), "healthy");
    assert_eq!(combine_status("healthy", "failed", "degraded"), "failed");
    assert_eq!(combine_status("healthy", "pending", "degraded"), "degraded");
    assert_eq!(combine_status("healthy", "pending", "healthy"), "pending");
}

#[test]
fn domains_record_what_they_are() {
    let mut desired = serving();
    desired.domains.insert("shop.example".into(), domain("shop.example", "api"));
    let mut healthy = record("healthy");
    healthy.state.actual = Some("192.0.2.1".into());
    desired
        .dns_records
        .insert("dns_1".into(), Stored { id: "dns_1".into(), value: healthy });
    desired.certificates.insert(
        "shop.example".into(),
        Stored { id: "crt_1".into(), value: certificate("valid", Some(NOW)) },
    );
    let updates = domain_updates(&desired, true, &vec![true], NOW);
    assert_eq!(updates.len(), 1);
    let state = &updates[0].state;
    assert_eq!(state.status, "healthy");
    assert_eq!(state.dns.desired.as_deref(), Some("A 192.0.2.1"));
    assert_eq!(state.tls.actual.as_deref(), Some("valid until 2023-11-14"));
    assert_eq!(state.routing.actual.as_deref(), Some("port 20000 → ins_1 (label-rev_1)"));
    let updates = domain_updates(&desired, false, &vec![false], NOW);
    let state = &updates[0].state;
    assert_eq!(state.status, "degraded");
    assert_eq!(
        state.tls.last_error.as_deref(),
        Some("this node does not hold the certificate's key yet")
    );
    assert_eq!(
        state.routing.last_error.as_deref(),
        Some("ingress is not configured on this node")
    );
    desired.traffic = Table::new();
    let updates = domain_updates(&desired, true, &vec![true], NOW);
    assert_eq!(updates[0].state.status, "pending");
    assert_eq!(
        updates[0].state.routing.last_error.as_deref(),
        Some("nothing serves prod/shop/api/http yet")
    );
    let mut failed = record("failed");
    failed.state.last_error = Some("refused".into());
    desired
        .dns_records
        .insert("dns_1".into(), Stored { id: "dns_1".into(), value: failed });
    let updates = domain_updates(&desired, true, &vec![true], NOW);
    assert_eq!(updates[0].state.status, "failed");
    assert_eq!(updates[0].state.dns.last_error.as_deref(), Some("refused"));
    assert_eq!(updates[0].state.dns.actual.as_deref(), Some("A -"));
}

#[test]
fn a_recorded_state_is_not_written_again() {
    let mut desired = serving();
    desired.domains.insert("shop.example".into(), domain("shop.example", "api"));
    let updates = domain_updates(&desired, true, &vec![], NOW);
    let mut told = domain("shop.example", "api");
    let state = updates.into_iter().next().unwrap().state;
    told.value.status = state.status;
    told.value.dns = state.dns;
    told.value.tls = state.tls;
    told.value.routing = state.routing;
    desired.domains.insert("shop.example".into(), told);
    assert_eq!(domain_updates(&desired, true, &vec![], NOW + SECOND).len(), 0);
}

#[test]
fn ingress_leads_to_endpoints() {
    let mut desired = serving();
    desired.domains.insert("shop.example".into(), domain("shop.example", "api"));
    desired.domains.insert("web.example".into(), domain("web.example", "web"));
    let routes = ingress_routes(&desired);
    assert_eq!(routes.len(), 1);
    assert_eq!(routes.at("shop.example"), Some(&20000));
    let served = vec![ServedPort { port: 20000, listening: true, open_connections: 3 }];
    let views = endpoint_views(&desired, &served, &vec![(20000, "busy".into())]);
    assert_eq!(views.len(), 1);
    assert!(views[0].listening);
    assert_eq!(views[0].open_connections, 3);
    assert_eq!(views[0].error.as_deref(), Some("busy"));
    let idle = endpoint_views(&desired, &vec![], &vec![]);
    assert!(!idle[0].listening);
    assert_eq!(idle[0].open_connections, 0);
}

// ---- DNS --------------------------------------------------------------------

#[test]
fn records_are_checked_in_time() {
    let second: u64 = 1_000_000_000;
    assert!(record_is_due(&record("healthy"), false, None, 60_000));
    assert!(!record_is_due(&record("healthy"), false, Some(59 * second), 60_000));
    assert!(record_is_due(&record("healthy"), false, Some(60 * second), 60_000));
    assert!(record_is_due(&record("pending"), false, Some(5 * second), 60_000));
    assert!(!record_is_due(&record("pending"), false, Some(5 * second - 1), 60_000));
    assert!(record_is_due(&record("healthy"), true, Some(0), 60_000));
    let mut runtime = NetworkRuntime::new();
    runtime.dns_forced = true;
    assert!(runtime.begin_cycle());
    assert!(!runtime.begin_cycle());
    assert!(runtime.check_dns("dns_1", &record("healthy"), false, 60_000, second));
    assert!(!runtime.check_dns("dns_1", &record("healthy"), false, 60_000, 2 * second));
    assert!(runtime.check_dns("dns_1", &record("healthy"), true, 60_000, 2 * second));
}

fn found(values: &[&str]) -> Lookup {
    Lookup::Found(
        values
            .iter()
            .map(|value| FoundRecord { value: value.to_string(), ttl: 300 })
            .collect(),
    )
}

#[test]
fn a_wrong_record_is_restored() {
    match check_record(&record("pending"), &found(&["192.0.2.1"]), NOW) {
        DnsStep::Settled(outcome) => {
            assert_eq!(outcome.record.state.status, "healthy");
            assert!(outcome.notices.is_empty());
        }
        _ => panic!("it is as wanted"),
    }
    let before = |values: &[&str]| match check_record(&record("healthy"), &found(values), NOW) {
        DnsStep::Apply(before) => before,
        _ => panic!("it is not as wanted"),
    };
    assert_eq!(before(&[]), "nothing");
    assert_eq!(before(&["192.0.2.9", "192.0.2.8"]), "192.0.2.9, 192.0.2.8");
    let applied = || Ok(AppliedRecord { value: "192.0.2.1".into(), id: Some("r1".into()) });
    let drifted = applied_record(&record("healthy"), "192.0.2.9", &applied(), NOW);
    assert_eq!(drifted.notices[0].kind, EventKind::DnsDrifted);
    assert_eq!(
        drifted.notices[0].message,
        "shop.example A drifted to 192.0.2.9; restored 192.0.2.1"
    );
    assert_eq!(
        drifted.notices[1].message,
        "shop.example A → 192.0.2.1 at cloud"
    );
    assert_eq!(drifted.record.provider_record_id.as_deref(), Some("r1"));
    match check_record(&drifted.record, &found(&["192.0.2.1"]), NOW + 1) {
        DnsStep::Settled(outcome) => assert!(outcome.notices.is_empty()),
        _ => panic!("it was restored"),
    }
    let created = applied_record(&record("pending"), "nothing", &applied(), NOW);
    assert_eq!(created.notices.len(), 1);
}

#[test]
fn a_dns_failure_is_reported_once() {
    let settled = |record: DnsRecordRecord, lookup: Lookup| match check_record(&record, &lookup, NOW) {
        DnsStep::Settled(outcome) => outcome,
        _ => panic!("the provider did not answer"),
    };
    let failed = settled(record("pending"), Lookup::Failed("refused".into()));
    assert_eq!(failed.record.state.status, "failed");
    assert_eq!(failed.record.state.last_error.as_deref(), Some("refused"));
    assert_eq!(
        failed.notices[0].message,
        "shop.example A could not be reconciled at cloud: refused"
    );
    assert!(settled(failed.record, Lookup::Failed("refused".into())).notices.is_empty());
    assert_eq!(
        settled(record("pending"), Lookup::NotConfigured).record.state.last_error.as_deref(),
        Some("DNS provider cloud is not configured")
    );
    assert_eq!(
        settled(record("pending"), Lookup::Unusable("no token".into()))
            .record
            .state
            .last_error
            .as_deref(),
        Some("no token")
    );
    let refused = applied_record(&record("pending"), "nothing", &Err("refused".into()), NOW);
    assert_eq!(refused.record.state.status, "failed");
}

// ---- Certificates -----------------------------------------------------------

fn facts(held: bool) -> CertificateFacts {
    CertificateFacts {
        held,
        has_ingress: true,
        ingress_http: true,
        forced: false,
        issuing: false,
        since_attempt_ns: None,
    }
}

#[test]
fn certificates_are_renewed_before_they_expire() {
    let fresh = certificate("valid", Some(NOW + 31 * DAY));
    assert_eq!(certificate_step(&fresh, facts(true), 30, 60_000, NOW).issue, None);
    let due = certificate("valid", Some(NOW + 30 * DAY));
    let step = certificate_step(&due, facts(true), 30, 60_000, NOW);
    assert_eq!(step.issue, Some(true));
    assert_eq!(step.aging.unwrap().renewal_status, Some("due"));
    assert_eq!(step.attempt.unwrap().renewal_status, Some("renewing"));
    let expired = certificate("valid", Some(NOW));
    let step = certificate_step(&expired, facts(true), 30, 60_000, NOW);
    assert_eq!(step.aging.unwrap().status, Some("expired"));
    let new = certificate("pending", None);
    let step = certificate_step(&new, facts(false), 30, 60_000, NOW);
    assert_eq!(step.issue, Some(false));
    assert_eq!(step.attempt.unwrap().status, Some("issuing"));
    let mut recent = facts(false);
    recent.since_attempt_ns = Some(59_999_999_999);
    assert_eq!(certificate_step(&new, recent, 30, 60_000, NOW).issue, None);
    recent.since_attempt_ns = Some(60_000_000_000);
    assert_eq!(certificate_step(&new, recent, 30, 60_000, NOW).issue, Some(false));
    let mut busy = facts(false);
    busy.issuing = true;
    assert_eq!(certificate_step(&new, busy, 30, 60_000, NOW).issue, None);
    let mut asked = facts(true);
    asked.forced = true;
    assert_eq!(certificate_step(&fresh, asked, 30, 60_000, NOW).issue, Some(true));
    let mut closed = facts(false);
    closed.ingress_http = false;
    let step = certificate_step(&new, closed, 30, 60_000, NOW);
    assert_eq!(step.issue, None);
    assert_eq!(
        step.attempt.unwrap().last_error.as_deref(),
        Some("HTTP-01 needs ingress HTTP on this node (network.ingress_http)")
    );
}

#[test]
fn an_issued_certificate_replaces_the_last() {
    let issued = || Issued {
        not_before: NOW,
        not_after: NOW + 90 * DAY,
        fingerprint: "fp_2".into(),
        secret_reference: "secret_2".into(),
    };
    let mut held = certificate("valid", Some(NOW + DAY));
    held.secret_reference = Some("secret_1".into());
    let stored = Stored { id: "crt_1".into(), value: held };
    match certificate_issued("shop.example", Some(&stored), true, Ok(issued()), "node_1", NOW) {
        IssueOutcome::Valid { record, forget, notice } => {
            assert_eq!(record.status, "valid");
            assert_eq!(record.held_by.as_deref(), Some("node_1"));
            assert_eq!(record.expires_at, Some(NOW + 90 * DAY));
            assert_eq!(forget.as_deref(), Some("secret_1"));
            assert_eq!(notice.kind, EventKind::CertificateRenewed);
            assert_eq!(
                notice.message,
                "certificate for shop.example renewed until 2024-02-12"
            );
            let step = certificate_step(&record, facts(true), 30, 60_000, NOW + 59 * DAY);
            assert!(step.aging.is_none());
            assert_eq!(step.issue, None);
        }
        _ => panic!("it was issued"),
    }
    match certificate_issued("shop.example", Some(&stored), true, Err("no".into()), "node_1", NOW) {
        IssueOutcome::Failed { update, notice } => {
            assert_eq!(update.status, None);
            assert_eq!(update.renewal_status, Some("failed"));
            assert_eq!(
                notice.message,
                "certificate for shop.example could not be issued: no"
            );
        }
        _ => panic!("it was not issued"),
    }
    match certificate_issued("shop.example", None, false, Ok(issued()), "node_1", NOW) {
        IssueOutcome::Gone { forget } => assert_eq!(forget.as_deref(), Some("secret_2")),
        _ => panic!("the domain is gone"),
    }
    let new = Stored { id: "crt_1".into(), value: certificate("pending", None) };
    match certificate_issued("shop.example", Some(&new), false, Err("no".into()), "node_1", NOW) {
        IssueOutcome::Failed { update, .. } => assert_eq!(update.status, Some("failed")),
        _ => panic!("it was not issued"),
    }
}

#[test]
fn ingress_loads_what_this_node_holds() {
    let print = |text: &str| Some(text.to_string());
    assert!(must_load(true, true, &print("a"), &None));
    assert!(must_load(true, true, &print("a"), &print("b")));
    assert!(!must_load(true, true, &print("a"), &print("a")));
    assert!(!must_load(false, true, &print("a"), &None));
    assert!(!must_load(true, true, &None, &None));
    assert_eq!(load_error("bad key"), "cannot serve the certificate: bad key");
    let mut runtime = NetworkRuntime::new();
    runtime.set_loaded("shop.example", &print("a"));
    assert_eq!(runtime.loaded_certificate("shop.example"), print("a"));
    runtime.set_loaded("shop.example", &None);
    assert_eq!(runtime.loaded_certificate("shop.example"), None);
    runtime.begin_issue("shop.example", 10);
    let busy = runtime.certificate_facts("shop.example", true, true, true, 15);
    assert!(busy.issuing);
    assert_eq!(busy.since_attempt_ns, Some(5));
    runtime.end_issue("shop.example");
    runtime.force_certificate("shop.example");
    let asked = runtime.certificate_facts("shop.example", true, true, true, 15);
    assert!(asked.forced);
    assert!(!asked.issuing);
    assert_eq!(asked.since_attempt_ns, None);
}

#[test]
fn a_network_starts_with_a_domain() {
    let mut desired = serving();
    assert!(!has_network(&desired));
    desired.domains.insert("shop.test".into(), domain("shop.test", "api"));
    assert!(has_network(&desired));
}

#[test]
fn a_node_shows_its_network() {
    let mut config = NetworkConfig::default();
    assert!(!has_ingress(&config));
    config.ingress_https = Some("0.0.0.0:443".into());
    config.public_ipv4 = Some("192.0.2.1".into());
    assert!(has_ingress(&config));
    let provider = dns_provider_view(
        "main",
        DnsProviderKind::Cloudflare,
        "shop.test",
        &Some("no token".to_string()),
    );
    assert_eq!((provider.kind.as_str(), provider.zone.as_str()), ("cloudflare", "shop.test"));
    let status = network_status(
        &serving(),
        &config,
        "node_1",
        None,
        Some("0.0.0.0:443".into()),
        vec![provider],
        None,
        &vec![],
        &vec![(20000, "in use".to_string())],
    );
    assert_eq!(status.node_id, "node_1");
    assert_eq!(status.endpoint_address, "127.0.0.1");
    assert_eq!(status.public_ipv4.as_deref(), Some("192.0.2.1"));
    assert_eq!(status.dns_providers[0].error.as_deref(), Some("no token"));
    assert_eq!(status.endpoints.len(), 1);
    assert_eq!(status.endpoints[0].error.as_deref(), Some("in use"));
    assert!(!status.endpoints[0].listening);
    assert_eq!(
        ingress_refusal(IngressKind::Http, "0.0.0.0:80", "in use").to_text(),
        "invalid: ingress HTTP cannot listen on 0.0.0.0:80: in use"
    );
}

#[test]
fn an_update_changes_only_what_it_says() {
    let mut record = certificate("valid", Some(NOW));
    record.last_error = Some("before".into());
    CertificateUpdate { status: None, renewal_status: Some("renewing"), last_error: None }
        .apply(&mut record, NOW);
    assert_eq!(record.status, "valid");
    assert_eq!(record.renewal_status, "renewing");
    assert_eq!(record.last_error, Some("before".to_string()));
    assert_eq!(record.last_reconciled_at, Some(NOW));
    let failed = CertificateUpdate {
        status: Some("failed"),
        renewal_status: None,
        last_error: Some("no answer".into()),
    };
    failed.apply(&mut record, NOW + SECOND);
    assert_eq!(record.status, "failed");
    assert_eq!(record.renewal_status, "renewing");
    assert_eq!(record.last_error, Some("no answer".to_string()));
    assert_eq!(record.last_reconciled_at, Some(NOW + SECOND));
    assert_eq!(record.expires_at, Some(NOW));
}

#[test]
fn a_domain_takes_over_its_state() {
    let mut record = domain("shop.example", "api").value;
    let state = DomainState {
        status: "degraded".into(),
        dns: reconciliation_of("healthy"),
        tls: reconciliation_of("failed"),
        routing: reconciliation_of("healthy"),
    };
    state.apply(&mut record);
    assert_eq!(record.status, "degraded");
    assert_eq!(record.dns.status, "healthy");
    assert_eq!(record.tls.status, "failed");
    assert_eq!(record.routing.status, "healthy");
    assert_eq!(record.name, "shop.example");
    assert_eq!(record.workload, "api");
}
