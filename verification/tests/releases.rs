use compute_environment::admission::{
    find_revision, placement_failure, used_endpoint_ports, used_instance_ports, Admission,
    AdmissionDecision, AdmissionNext, PlacementFailure, PlacementReport, Prepared, Selected,
};
use compute_environment::adopt::adopt_services;
use compute_environment::announce::{
    admitted, completed, draining, failed, instance_ready, instance_stopped, release_ready,
    rolled_back, switched,
};
use compute_environment::deploy::{
    added_project, check_project, config_document, deployment_id, next_version, plan_release,
    project_release, promote, promotion_notice, promotion_source, record_release, release_again, release_config, release_place,
    resolve_revision, revision_query, wait_is_over, DeployRequest, MembershipChange, PromoteRequest, RevisionQuery,
};
use compute_environment::desired::Desired;
use compute_environment::error::EnvironmentError;
use compute_environment::events::{EventData, EventKind, EventRecord, Notice, Scope};
use compute_environment::model::{
    ActualState, Config, DesiredState, PortBinding, PortSpec, Readiness, ReadinessCheck,
    RestartPolicy, WorkloadDefinition, WorkloadKind,
};
use compute_environment::network_runtime::NetworkRuntime;
use compute_environment::ports::{free_port, plan_ports, PortPool};
use compute_environment::readiness::{
    await_readiness, http_check, listens, next_check, port_check, probe_for, process_check, readiness_gate,
    task_check, Check, Probe, ReadinessNext, TaskEnd, UnitObservation,
};
use compute_environment::receipts::{copy_workloads, write_receipt};
use compute_environment::release::{
    complete, drain_instances, drained_message, endpoints_to_verify, fail, finish_drain,
    gone_reason, network_degraded, network_result, roll_back, rollback, step, switch_checks,
    verified_endpoints, verify_assignment, verify_network, verify_switch, EndpointProbe, Next, RollBack, RollbackRequest, Route, Step,
    SwitchObservation, SwitchProbe,
};
use compute_environment::revisions::{
    check_label, identify_revision, register_revision, revision_workloads, validate_readiness, Registration,
    RevisionDefinition, WorkloadFacts,
};
use compute_environment::results::{
    DomainResult, EndpointResult, MovedEndpoint, NetworkResult, ReadinessResult, SwitchResult,
    VerifiedEndpoint,
};
use compute_environment::routing::{moved_endpoints, route_to, run_config};
use compute_environment::state::{
    ApplicationArtifactEvidence, DeploymentRecord, DeploymentStatus, DeploymentWorkload,
    DomainRecord, EnvironmentProjectRecord,
    EnvironmentRecord, InstanceState, ProjectRevisionRecord, Reconciliation, RevisionWorkload,
    Stored, TrafficAssignmentRecord, WorkloadInstanceRecord, WorkloadRecord,
};
use compute_environment::table::Table;

const NOW: i64 = 1_700_000_000_000_000_000;
const SECOND: i64 = 1_000_000_000;

fn strings(values: &[&str]) -> Vec<String> {
    values.iter().map(|value| value.to_string()).collect()
}

fn artifact(id: &str) -> ApplicationArtifactEvidence {
    ApplicationArtifactEvidence {
        artifact_id: id.into(),
        url: Some("https://apps.example/shop".into()),
        version: Some("1.2".into()),
        capabilities: strings(&["http"]),
    }
}

/// The facts of a notice, each as its name and value.
fn told(notice: &Notice) -> Vec<String> {
    notice.facts.iter().map(|fact| format!("{} = {:?}", fact.name, fact.value)).collect()
}

fn key(workload: &str) -> (String, String, String) {
    ("prod".to_string(), "shop".to_string(), workload.to_string())
}

fn nothing_desired() -> Desired {
    Desired {
        environments: Table::new(),
        projects: Table::new(),
        memberships: Table::new(),
        workloads: Table::new(),
        deployments: Table::new(),
        revisions: Table::new(),
        instances: Table::new(),
        traffic: Table::new(),
        domains: Table::new(),
        dns_records: Table::new(),
        certificates: Table::new(),
    }
}

fn binding(name: &str, logical: u16, host: u16) -> PortBinding {
    PortBinding { name: name.into(), logical, host }
}

fn readiness(check: ReadinessCheck) -> Readiness {
    Readiness {
        check,
        port: None,
        path: None,
        task: None,
        timeout_ms: 60_000,
        interval_ms: 1_000,
    }
}

fn environment(name: &str, state: DesiredState) -> Stored<EnvironmentRecord> {
    let mut config = Config::new();
    config.insert("LOG".into(), "info".into());
    Stored {
        id: format!("env_{name}"),
        value: EnvironmentRecord {
            name: name.into(),
            desired_state: state,
            config,
            policy: None,
            provider: None,
            created_at: 1,
        },
    }
}

fn membership(state: DesiredState, deployment: Option<&str>) -> Stored<EnvironmentProjectRecord> {
    let mut config = Config::new();
    config.insert("MODE".into(), "live".into());
    Stored {
        id: "mem_1".into(),
        value: EnvironmentProjectRecord {
            environment_id: "env_prod".into(),
            environment: "prod".into(),
            project_id: "prj_shop".into(),
            project: "shop".into(),
            desired_state: state,
            config,
            revision_id: deployment.map(|_| "rev_1".to_string()),
            deployment_id: deployment.map(str::to_string),
            created_at: 2,
            updated_at: 2,
        },
    }
}

fn revision_workload(name: &str, kind: WorkloadKind, ports: &[(&str, u16)]) -> RevisionWorkload {
    RevisionWorkload {
        name: name.into(),
        kind,
        bundle_id: format!("bundle_{name}"),
        artifact: format!("sha256:{name}"),
        workload_identity: format!("identity_{name}"),
        runtime: "python".into(),
        runtime_version: Some("3.12".into()),
        dependency: None,
        distribution: None,
        readiness: None,
        default_readiness: readiness(if ports.is_empty() {
            ReadinessCheck::Process
        } else {
            ReadinessCheck::Port
        }),
        ports: ports
            .iter()
            .map(|(name, port)| PortSpec { name: name.to_string(), port: *port })
            .collect(),
        restart: RestartPolicy::OnFailure,
        desired_state: DesiredState::Running,
    }
}

fn revision(id: &str, workloads: Vec<RevisionWorkload>) -> Stored<ProjectRevisionRecord> {
    Stored {
        id: id.into(),
        value: ProjectRevisionRecord {
            project_id: "prj_shop".into(),
            project: "shop".into(),
            revision: format!("label-{id}"),
            revision_digest: format!("sha256:{id}"),
            source: None,
            workloads,
            created_at: 1,
        },
    }
}

fn deployment(id: &str, status: DeploymentStatus, previous: Option<&str>) -> Stored<DeploymentRecord> {
    Stored {
        id: id.into(),
        value: DeploymentRecord {
            environment_id: "env_prod".into(),
            environment: "prod".into(),
            project_id: "prj_shop".into(),
            project: "shop".into(),
            version: 1,
            revision_id: "rev_1".into(),
            revision: "label-rev_1".into(),
            revision_digest: "sha256:rev_1".into(),
            status,
            promoted_from: None,
            previous: previous.map(str::to_string),
            workloads: vec![],
            failure: None,
            receipt_ids: vec![],
            old_revision: None,
            config_digest: None,
            config: Config::new(),
            readiness_result: None,
            network_result: None,
            traffic_switch_result: None,
            rollback_reason: None,
            receipt: None,
            status_since: Some(NOW),
            completed_at: None,
            created_at: NOW,
            updated_at: NOW,
        },
    }
}

fn instance(
    id: &str,
    workload: &str,
    deployment_id: &str,
    state: InstanceState,
    ports: Vec<PortBinding>,
) -> Stored<WorkloadInstanceRecord> {
    Stored {
        id: id.into(),
        value: WorkloadInstanceRecord {
            environment_id: "env_prod".into(),
            environment: "prod".into(),
            project_id: "prj_shop".into(),
            project: "shop".into(),
            workload: workload.into(),
            workload_id: format!("wl_{workload}"),
            deployment_id: deployment_id.into(),
            revision: "label-rev_1".into(),
            state,
            ports,
            readiness: None,
            started_at: Some(NOW),
            ready_at: None,
            stopped_at: None,
            error: None,
            updated_at: NOW,
        },
    }
}

fn workload(name: &str, kind: WorkloadKind, deployment_id: &str, ports: Vec<PortBinding>) -> Stored<WorkloadRecord> {
    Stored {
        id: format!("wl_{name}"),
        value: WorkloadRecord {
            environment_id: "env_prod".into(),
            environment: "prod".into(),
            project_id: "prj_shop".into(),
            project: "shop".into(),
            name: name.into(),
            kind,
            desired_state: DesiredState::Running,
            restart: RestartPolicy::OnFailure,
            bundle_id: format!("bundle_{name}"),
            workload_identity: format!("identity_{name}"),
            runtime: "python".into(),
            ports,
            deployment_id: deployment_id.into(),
        },
    }
}

fn traffic(workload: &str, host_port: u16, deployment_id: &str, instance_id: &str) -> Stored<TrafficAssignmentRecord> {
    Stored {
        id: format!("trf_{workload}"),
        value: TrafficAssignmentRecord {
            endpoint: format!("prod/shop/{workload}/http"),
            environment: "prod".into(),
            project: "shop".into(),
            workload: workload.into(),
            port: "http".into(),
            host_port,
            domains: vec![],
            deployment_id: deployment_id.into(),
            revision: "label-rev_1".into(),
            instance_id: instance_id.into(),
            target_port: 30000,
            status: "active".into(),
            previous_deployment_id: None,
            previous_instance_id: None,
            switched_at: 1,
        },
    }
}

fn reconciliation_of(status: &str) -> Reconciliation {
    Reconciliation {
        status: status.into(),
        desired: None,
        actual: None,
        last_error: None,
        last_reconciled_at: None,
    }
}

fn domain(name: &str, workload: &str) -> Stored<DomainRecord> {
    Stored {
        id: format!("dom_{name}"),
        value: DomainRecord {
            name: name.into(),
            environment_id: "env_prod".into(),
            environment: "prod".into(),
            project_id: "prj_shop".into(),
            project: "shop".into(),
            workload: workload.into(),
            port: "http".into(),
            dns_provider: "none".into(),
            certificate_id: None,
            status: "pending".into(),
            dns: reconciliation_of("unmanaged"),
            tls: reconciliation_of("disabled"),
            routing: reconciliation_of("pending"),
            created_at: 1,
        },
    }
}

/// One service, `api`, that `dep_1` serves on port 20000.
fn serving() -> Desired {
    let mut desired = nothing_desired();
    desired
        .environments
        .insert("prod".into(), environment("prod", DesiredState::Running));
    desired.memberships.insert(
        ("prod".into(), "shop".into()),
        membership(DesiredState::Running, Some("dep_1")),
    );
    desired.workloads.insert(
        key("api"),
        workload("api", WorkloadKind::Service, "dep_1", vec![binding("http", 8000, 20000)]),
    );
    desired
        .deployments
        .insert("dep_1".into(), deployment("dep_1", DeploymentStatus::Complete, None));
    desired.revisions.insert(
        "rev_1".into(),
        revision("rev_1", vec![revision_workload("api", WorkloadKind::Service, &[("http", 8000)])]).value,
    );
    desired.instances.insert(
        "ins_1".into(),
        instance("ins_1", "api", "dep_1", InstanceState::Serving, vec![binding("http", 8000, 30000)]),
    );
    desired
        .traffic
        .insert("prod/shop/api/http".into(), traffic("api", 20000, "dep_1", "ins_1"));
    desired
}

/// `serving`, with `dep_2` in flight beside it.
fn releasing(status: DeploymentStatus, state: InstanceState) -> (Desired, Stored<DeploymentRecord>) {
    let mut desired = serving();
    desired.revisions.insert(
        "rev_2".into(),
        revision("rev_2", vec![revision_workload("api", WorkloadKind::Service, &[("http", 8000)])]).value,
    );
    let release = || {
        let mut release = deployment("dep_2", status, Some("dep_1"));
        release.value.revision_id = "rev_2".into();
        release.value.revision = "label-rev_2".into();
        release.value.workloads = vec![evidence("api", vec![binding("http", 8000, 20000)])];
        release
    };
    desired.deployments.insert("dep_2".into(), release());
    desired.instances.insert(
        "ins_2".into(),
        instance("ins_2", "api", "dep_2", state, vec![binding("http", 8000, 30001)]),
    );
    (desired, release())
}

fn evidence(name: &str, endpoints: Vec<PortBinding>) -> DeploymentWorkload {
    DeploymentWorkload {
        name: name.into(),
        kind: WorkloadKind::Service,
        bundle_id: format!("bundle_{name}"),
        artifact: format!("sha256:{name}"),
        runtime: "python".into(),
        runtime_version: None,
        resolved_runtime_version: None,
        distribution: None,
        admitted: true,
        policy_id: None,
        admission_id: None,
        placement_id: None,
        provider: None,
        reasons: vec![],
        endpoints,
        pool_placement: None,
        application_artifact: Some(artifact("art_1")),
    }
}

fn pool() -> PortPool {
    PortPool {
        endpoints: (20000, 20002),
        instances: (30000, 30003),
        unavailable_endpoints: vec![20001],
        unavailable_instances: vec![],
    }
}

// ---- Ports ------------------------------------------------------------------

#[test]
fn the_first_free_port_is_taken() {
    assert_eq!(free_port((20000, 20003), &vec![20000], &vec![20001], true).unwrap(), 20002);
    assert_eq!(
        free_port((20000, 20001), &vec![20000], &vec![20001], true).unwrap_err().to_text(),
        "invalid: no free host port in 20000-20001 for an endpoint"
    );
    assert_eq!(
        free_port((5, 4), &vec![], &vec![], false).unwrap_err().to_text(),
        "invalid: no free host port in 5-4 for an instance"
    );
    assert_eq!(free_port((65535, 65535), &vec![], &vec![], true).unwrap(), 65535);
}

#[test]
fn endpoints_keep_their_ports_across_releases() {
    let desired = serving();
    let workload = revision_workload("api", WorkloadKind::Service, &[("http", 8000), ("admin", 9000)]);
    let mut endpoints = used_endpoint_ports(&desired, "dep_2");
    let mut instances = used_instance_ports(&desired);
    assert_eq!(instances, vec![30000]);
    let (kept, own) =
        plan_ports(&desired, &key("api"), &workload, &mut endpoints, &mut instances, &pool()).unwrap();
    assert_eq!(kept, vec![binding("http", 8000, 20000), binding("admin", 9000, 20002)]);
    assert_eq!(own, vec![binding("http", 8000, 30001), binding("admin", 9000, 30002)]);
}

#[test]
fn ended_instances_free_their_ports() {
    let (mut desired, _) = releasing(DeploymentStatus::Starting, InstanceState::Starting);
    assert_eq!(used_instance_ports(&desired), vec![30000, 30001]);
    desired.instances.insert(
        "ins_2".into(),
        instance("ins_2", "api", "dep_2", InstanceState::Failed, vec![binding("http", 8000, 30001)]),
    );
    assert_eq!(used_instance_ports(&desired), vec![30000]);
    let own = used_endpoint_ports(&desired, "dep_2");
    let other = used_endpoint_ports(&desired, "dep_9");
    assert_eq!(other.len(), own.len() + 1);
}

// ---- Admission --------------------------------------------------------------

fn report(selected: Option<Selected>) -> PlacementReport {
    PlacementReport {
        policy_id: "pol_1".into(),
        placement_id: "plc_1".into(),
        selected,
        failure: Some(PlacementFailure { code: "no_provider".into(), message: "none fits".into() }),
        providers: vec![
            None,
            Some(AdmissionDecision {
                admitted: false,
                policy_id: "pol_2".into(),
                admission_id: "adm_2".into(),
                reasons: strings(&["too big", "too loud"]),
            }),
        ],
    }
}

fn selected(local: bool) -> Selected {
    Selected {
        provider_id: "local".into(),
        local,
        policy_id: "pol_3".into(),
        admission_id: "adm_3".into(),
    }
}

#[test]
fn placement_says_why_it_chose_nothing() {
    let placed = report(None);
    let (text, decision) = placement_failure(&placed);
    assert_eq!(text, "no_provider: none fits: too big; too loud");
    assert_eq!(decision.unwrap().admission_id, "adm_2");
    let mut bare = report(None);
    bare.failure = None;
    bare.providers = vec![];
    assert_eq!(placement_failure(&bare).0, "placement_failed");
}

#[test]
fn an_admitted_service_gets_an_instance() {
    let desired = serving();
    let mut release = deployment("dep_2", DeploymentStatus::Pending, Some("dep_1"));
    let workload = revision_workload("web", WorkloadKind::Service, &[("http", 8000)]);
    let content = revision("rev_1", vec![workload]).value;
    let mut admission = Admission::begin(&desired, "dep_2");
    assert_eq!(admission.next(&content), AdmissionNext::Workload(0));
    let ports = admission.plan(&desired, &release, &content, &pool()).unwrap();
    assert_eq!(ports.0, vec![binding("http", 8000, 20002)]);
    let prepared = Prepared::Report(report(Some(selected(true))));
    admission.settle(&release.value, &content, "wl_web", "ins_web", ports, &prepared);
    assert_eq!(admission.failure, None);
    assert_eq!(admission.next(&content), AdmissionNext::Start);
    assert!(admission.evidence[0].admitted);
    assert_eq!(admission.evidence[0].admission_id.as_deref(), Some("adm_3"));
    let instances = admission.conclude(&desired, &mut release, &content, NOW + 1).unwrap();
    assert_eq!(instances.len(), 1);
    assert_eq!(instances[0].id, "ins_web");
    assert_eq!(instances[0].value.state, InstanceState::Starting);
    assert_eq!(instances[0].value.workload_id, "wl_web");
    assert_eq!(instances[0].value.ports, vec![binding("http", 8000, 30001)]);
    assert_eq!(instances[0].value.deployment_id, "dep_2");
    assert_eq!(instances[0].value.started_at, Some(NOW + 1));
    assert_eq!(release.value.status, DeploymentStatus::Starting);
    assert_eq!(release.value.workloads.len(), 1);
    assert_eq!(release.value.status_since, Some(NOW + 1));
}

#[test]
fn a_release_starts_whole_or_not_at_all() {
    let desired = serving();
    let mut release = deployment("dep_2", DeploymentStatus::Pending, Some("dep_1"));
    let content = revision(
        "rev_1",
        vec![
            revision_workload("job", WorkloadKind::Task, &[]),
            revision_workload("web", WorkloadKind::Service, &[("http", 8000)]),
            revision_workload("work", WorkloadKind::Service, &[]),
        ],
    )
    .value;
    let accept = Prepared::Report(report(Some(selected(true))));
    let mut whole = Admission::begin(&desired, "dep_2");
    let mut partly = Admission::begin(&desired, "dep_2");
    for (i, id) in ["wl_job", "wl_web", "wl_work"].iter().enumerate() {
        assert_eq!(whole.next(&content), AdmissionNext::Workload(i));
        let ports = whole.plan(&desired, &release, &content, &pool()).unwrap();
        whole.settle(&release.value, &content, id, &format!("ins_{id}"), ports, &accept);
        if i < 2 {
            let ports = partly.plan(&desired, &release, &content, &pool()).unwrap();
            partly.settle(&release.value, &content, id, &format!("ins_{id}"), ports, &accept);
        }
    }
    assert_eq!(whole.next(&content), AdmissionNext::Start);
    let planned: Vec<&str> = whole.instances.iter().map(|i| i.workload.as_str()).collect();
    assert_eq!(planned, vec!["web", "work"]);

    let ports = partly.plan(&desired, &release, &content, &pool()).unwrap();
    let refuse = Prepared::Report(report(None));
    partly.settle(&release.value, &content, "wl_work", "ins_wl_work", ports, &refuse);
    assert_eq!(partly.next(&content), AdmissionNext::Fail);
    let (reason, evidence) =
        partly.conclude(&desired, &mut release, &content, NOW).unwrap_err();
    assert_eq!(reason, "work: no_provider: none fits: too big; too loud");
    assert_eq!(evidence.len(), 3);
    assert_eq!(release.value.status, DeploymentStatus::Pending);

    let created = whole.conclude(&desired, &mut release, &content, NOW).unwrap();
    assert_eq!(created.len(), 2);
    assert_eq!(created[1].value.workload, "work");
    assert_eq!(created[1].id, "ins_wl_work");
    assert_eq!(release.value.workloads.len(), 3);
}

#[test]
fn an_instance_is_created_once() {
    let mut desired = serving();
    let mut release = deployment("dep_2", DeploymentStatus::Pending, Some("dep_1"));
    let workload = revision_workload("web", WorkloadKind::Service, &[]);
    let content = revision("rev_1", vec![workload]).value;
    let admitted = |desired: &Desired, release: &Stored<DeploymentRecord>| {
        let mut admission = Admission::begin(desired, "dep_2");
        let ports = admission.plan(desired, release, &content, &pool()).unwrap();
        let prepared = Prepared::Report(report(Some(selected(true))));
        admission.settle(&release.value, &content, "wl_web", "ins_web", ports, &prepared);
        admission
    };
    let first = admitted(&desired, &release);
    let mut created = first.conclude(&desired, &mut release, &content, NOW).unwrap();
    let instance = created.pop().unwrap();
    desired.instances.insert(instance.id.clone(), instance);
    let again = admitted(&desired, &release);
    assert_eq!(again.instances.len(), 1);
    assert!(again.conclude(&desired, &mut release, &content, NOW).unwrap().is_empty());
}

#[test]
fn a_refused_workload_fails_the_release() {
    let desired = serving();
    let release = deployment("dep_2", DeploymentStatus::Pending, Some("dep_1"));
    let workload = revision_workload("web", WorkloadKind::Service, &[]);
    let content = revision("rev_1", vec![workload]).value;
    let settled = |prepared: Prepared| {
        let mut admission = Admission::begin(&desired, "dep_2");
        let ports = admission.plan(&desired, &release, &content, &pool()).unwrap();
        admission.settle(&release.value, &content, "wl_web", "ins_web", ports, &prepared);
        admission
    };
    let refused = settled(Prepared::Report(report(None)));
    assert_eq!(
        refused.failure.as_deref(),
        Some("web: no_provider: none fits: too big; too loud")
    );
    assert_eq!(refused.next(&content), AdmissionNext::Fail);
    assert_eq!(refused.evidence[0].policy_id.as_deref(), Some("pol_2"));
    assert!(refused.instances.is_empty());

    let elsewhere = settled(Prepared::Report(report(Some(selected(false)))));
    assert_eq!(
        elsewhere.failure.as_deref(),
        Some("web: services run on the daemon's own node; placement selected local")
    );

    let broken = settled(Prepared::Failed("invalid: no".into()));
    assert_eq!(broken.failure.as_deref(), Some("web: invalid: no"));
    assert_eq!(broken.next(&content), AdmissionNext::Fail);
    assert!(broken.evidence.is_empty());
}

#[test]
fn a_service_without_a_port_left_is_not_admitted() {
    let desired = serving();
    let release = deployment("dep_2", DeploymentStatus::Pending, Some("dep_1"));
    let workload = revision_workload("web", WorkloadKind::Service, &[("http", 8000)]);
    let content = revision("rev_1", vec![workload]).value;
    let mut narrow = pool();
    narrow.endpoints = (20000, 20001);
    let mut admission = Admission::begin(&desired, "dep_2");
    assert!(admission.plan(&desired, &release, &content, &narrow).is_none());
    assert_eq!(
        admission.failure.as_deref(),
        Some("web: invalid: no free host port in 20000-20001 for an endpoint")
    );
    assert_eq!(admission.next(&content), AdmissionNext::Fail);
    let task = revision_workload("job", WorkloadKind::Task, &[]);
    let content = revision("rev_1", vec![task]).value;
    let mut tasks = Admission::begin(&desired, "dep_2");
    assert_eq!(tasks.plan(&desired, &release, &content, &narrow), Some((vec![], vec![])));
}

// ---- Readiness --------------------------------------------------------------

fn observation(state: ActualState, held: bool, failures: u32) -> UnitObservation {
    UnitObservation {
        state: Some(state),
        held,
        failures,
        error: None,
        running_since: None,
    }
}

#[test]
fn readiness_waits_before_it_probes() {
    let gate = |unit: Option<&UnitObservation>, restart: RestartPolicy| {
        readiness_gate(true, unit, restart)
    };
    let never = RestartPolicy::Never;
    assert_eq!(readiness_gate(false, None, never), Some(Check::Waiting("checking".into())));
    assert_eq!(gate(None, never), Some(Check::Waiting("not started yet".into())));
    let running = observation(ActualState::Running, false, 0);
    assert_eq!(gate(Some(&running), never), None);
    let starting = observation(ActualState::Starting, false, 0);
    assert_eq!(gate(Some(&starting), never), Some(Check::Waiting("starting".into())));
    let mut denied = observation(ActualState::Denied, true, 0);
    denied.error = Some("no".into());
    assert_eq!(gate(Some(&denied), never), Some(Check::Failed("denied: no".into())));
    let failed = observation(ActualState::Failed, true, 2);
    assert_eq!(gate(Some(&failed), never), Some(Check::Failed("it exited".into())));
    let retried = RestartPolicy::OnFailure;
    assert_eq!(gate(Some(&failed), retried), Some(Check::Waiting("starting".into())));
    let spent = observation(ActualState::Stopped, true, 3);
    assert_eq!(gate(Some(&spent), retried), Some(Check::Failed("it exited".into())));
}

#[test]
fn readiness_probes_what_it_names() {
    let ports = vec![binding("http", 8000, 30000), binding("admin", 9000, 30001)];
    assert_eq!(probe_for(&readiness(ReadinessCheck::Process), &ports).unwrap(), Probe::Process);
    assert_eq!(
        probe_for(&readiness(ReadinessCheck::Port), &ports).unwrap(),
        Probe::Port { name: "http".into(), host: 30000 }
    );
    let mut named = readiness(ReadinessCheck::Http);
    named.port = Some("admin".into());
    assert_eq!(
        probe_for(&named, &ports).unwrap(),
        Probe::Http { name: "admin".into(), host: 30001, path: "/".into() }
    );
    named.port = Some("gone".into());
    assert_eq!(
        probe_for(&named, &ports).unwrap_err(),
        Check::Failed("readiness names a port the service does not declare".into())
    );
    assert_eq!(
        probe_for(&readiness(ReadinessCheck::Task), &ports).unwrap_err(),
        Check::Failed("a task readiness check needs a task".into())
    );
}

#[test]
fn probes_are_judged() {
    assert_eq!(
        process_check(NOW, Some(NOW - 500_000_000)),
        Check::Ready("running for 500ms".into())
    );
    assert_eq!(
        process_check(NOW, Some(NOW - 499_999_999)),
        Check::Waiting("the process has just started".into())
    );
    assert_eq!(
        process_check(NOW, Some(NOW + 5)),
        Check::Waiting("the process has just started".into())
    );
    assert_eq!(port_check("http", true), Check::Ready("port http accepts connections".into()));
    assert_eq!(
        port_check("http", false),
        Check::Waiting("port http is not accepting connections".into())
    );
    assert_eq!(
        http_check("http", "/health", Some(204)),
        Check::Ready("GET /health on port http answered 204".into())
    );
    assert_eq!(
        http_check("http", "/health", Some(503)),
        Check::Waiting("GET /health answered 503".into())
    );
    assert_eq!(
        http_check("http", "/health", None),
        Check::Waiting("GET /health on port http got no answer".into())
    );
    let ended = |status: &str, exit_code: Option<i32>| {
        task_check("probe", &TaskEnd::Ended { status: status.into(), exit_code })
    };
    assert_eq!(ended("completed", Some(0)), Check::Ready("task probe exited 0".into()));
    assert_eq!(ended("completed", None), Check::Ready("task probe exited 0".into()));
    assert_eq!(
        ended("completed", Some(-2)),
        Check::Waiting("task probe ended completed (-2)".into())
    );
    assert_eq!(
        ended("timeout", None),
        Check::Waiting("task probe ended timeout (no exit code)".into())
    );
    assert_eq!(
        task_check("probe", &TaskEnd::Failed("denied".into())),
        Check::Waiting("task probe: denied".into())
    );
}

#[test]
fn a_release_is_ready_when_its_instances_are() {
    let (desired, release) = releasing(DeploymentStatus::Starting, InstanceState::Starting);
    let unused = || Check::Waiting("unused".into());
    let ready = await_readiness(&desired, &release, &vec![unused(), Check::Ready("up".into())], NOW);
    assert_eq!(ready.next, ReadinessNext::Advance);
    assert_eq!(ready.ready, vec![(1, ReadinessCheck::Port, "up".to_string())]);
    assert_eq!(
        ready.results.at("api"),
        Some(&ReadinessResult {
            check: ReadinessCheck::Port,
            ready_at: Some(NOW),
            detail: Some("up".into()),
        })
    );
    let waiting =
        await_readiness(&desired, &release, &vec![unused(), Check::Waiting("starting".into())], NOW);
    assert_eq!(waiting.next, ReadinessNext::Wait);
    assert!(waiting.results.is_empty());
    let late = await_readiness(
        &desired,
        &release,
        &vec![unused(), Check::Waiting("starting".into())],
        NOW + 60 * SECOND + 1,
    );
    assert_eq!(
        late.next,
        ReadinessNext::Fail("readiness timed out after 60s: api: starting".into())
    );
    let failed =
        await_readiness(&desired, &release, &vec![unused(), Check::Failed("it exited".into())], NOW);
    assert_eq!(
        failed.next,
        ReadinessNext::Fail("api failed before it was ready: it exited".into())
    );
    assert!(listens(&desired, "dep_2", "api"));
    assert!(!listens(&desired, "dep_2", "gone"));
}

#[test]
fn only_instances_that_may_become_ready_are_probed() {
    let (mut desired, release) = releasing(DeploymentStatus::Starting, InstanceState::Starting);
    let unused = || Check::Waiting("unused".into());
    assert_eq!(next_check(&desired, &release, &vec![]), Some(1));
    assert_eq!(next_check(&desired, &release, &vec![unused()]), Some(1));
    assert_eq!(next_check(&desired, &release, &vec![unused(), unused()]), None);
    desired.instances.insert(
        "ins_3".into(),
        instance("ins_3", "api", "dep_2", InstanceState::Starting, vec![]),
    );
    assert_eq!(next_check(&desired, &release, &vec![unused(), unused()]), Some(2));
    // Nothing is probed after a failure; what is put down for an instance
    // that is not probed makes no difference.
    let failed = || Check::Failed("no".into());
    assert_eq!(next_check(&desired, &release, &vec![unused(), failed()]), None);
    assert_eq!(next_check(&desired, &release, &vec![failed()]), Some(1));
    let judged = |first: Check, last: Check| {
        await_readiness(&desired, &release, &vec![first, failed(), last], NOW).next
    };
    assert_eq!(judged(unused(), unused()), judged(failed(), Check::Ready("up".into())));

    let (ready, release) = releasing(DeploymentStatus::Starting, InstanceState::Ready);
    assert_eq!(next_check(&ready, &release, &vec![]), None);
    let (mut stopped, release) = releasing(DeploymentStatus::Starting, InstanceState::Starting);
    stopped
        .environments
        .insert("prod".into(), environment("prod", DesiredState::Stopped));
    assert_eq!(next_check(&stopped, &release, &vec![]), None);
    let (mut missing, release) = releasing(DeploymentStatus::Starting, InstanceState::Starting);
    missing.revisions.remove(&"rev_2".to_string());
    assert_eq!(next_check(&missing, &release, &vec![]), None);
}

#[test]
fn a_stopped_service_is_ready_as_it_is() {
    let (mut desired, release) = releasing(DeploymentStatus::Starting, InstanceState::Starting);
    desired
        .environments
        .insert("prod".into(), environment("prod", DesiredState::Stopped));
    let checks = vec![Check::Waiting("unused".into()), Check::Failed("unused".into())];
    let ready = await_readiness(&desired, &release, &checks, NOW);
    assert_eq!(ready.next, ReadinessNext::Advance);
    assert_eq!(
        ready.ready,
        vec![(1, ReadinessCheck::Port, "not started: its desired state is stopped".to_string())]
    );
}

// ---- Steps ------------------------------------------------------------------

#[test]
fn each_status_has_its_step() {
    let expected = [
        (DeploymentStatus::Pending, Step::Admit),
        (DeploymentStatus::Starting, Step::AwaitReadiness),
        (DeploymentStatus::Ready, Step::VerifyNetwork),
        (DeploymentStatus::NetworkReady, Step::Switch),
        (DeploymentStatus::Switching, Step::VerifySwitch),
        (DeploymentStatus::Active, Step::BeginDrain),
        (DeploymentStatus::Draining, Step::FinishDrain),
        (DeploymentStatus::Complete, Step::Nothing),
        (DeploymentStatus::Failed, Step::Nothing),
        (DeploymentStatus::RolledBack, Step::Nothing),
    ];
    for (status, next) in expected {
        let (desired, release) = releasing(status, InstanceState::Starting);
        assert_eq!(step(&desired, &release), next);
    }
    let (mut desired, release) = releasing(DeploymentStatus::Pending, InstanceState::Starting);
    desired.memberships = Table::new();
    assert_eq!(step(&desired, &release), Step::ProjectGone);
    desired.environments = Table::new();
    assert_eq!(step(&desired, &release), Step::EnvironmentGone);
    assert_eq!(
        gone_reason(Step::EnvironmentGone),
        Some(("environment", "the environment was destroyed"))
    );
    assert_eq!(
        gone_reason(Step::ProjectGone),
        Some(("project", "the project was removed from the environment"))
    );
    let mut current = serving();
    current.instances = Table::new();
    let old = deployment("dep_1", DeploymentStatus::Pending, None);
    assert_eq!(step(&current, &old), Step::Complete);
}

fn probe(error: Option<&str>, listening: bool, bindable: bool, accepts: bool) -> EndpointProbe {
    EndpointProbe { error: error.map(str::to_string), listening, bindable, accepts }
}

#[test]
fn endpoints_are_verified_before_traffic_moves() {
    let (desired, release) = releasing(DeploymentStatus::Ready, InstanceState::Ready);
    let checks = endpoints_to_verify(&desired, &release);
    assert_eq!(checks.len(), 1);
    assert_eq!(checks[0].endpoint, "prod/shop/api/http");
    assert_eq!(checks[0].host, 20000);
    assert_eq!(checks[0].target, Some(30001));
    let next = |probe: EndpointProbe, now: i64| {
        verify_network(&release.value, &checks, &vec![probe], now, 10_000)
    };
    assert_eq!(
        next(probe(None, true, false, true), NOW),
        Next::Status(DeploymentStatus::NetworkReady)
    );
    assert_eq!(
        next(probe(Some("cannot listen"), true, true, true), NOW),
        Next::Fail("cannot listen".into())
    );
    assert_eq!(
        next(probe(None, false, false, true), NOW),
        Next::Fail(
            "endpoint prod/shop/api/http cannot listen: port 20000 is in use by another process".into()
        )
    );
    assert_eq!(next(probe(None, true, true, false), NOW), Next::Wait);
    assert_eq!(
        next(probe(None, true, true, false), NOW + 10 * SECOND + 1),
        Next::Fail("api stopped accepting connections on http".into())
    );
}

#[test]
fn failing_domains_never_hold_a_release_back() {
    let (mut desired, release) = releasing(DeploymentStatus::Ready, InstanceState::Ready);
    assert!(!network_degraded(&desired, &release.value));
    let checks = endpoints_to_verify(&desired, &release);
    let probes = vec![probe(None, true, false, true)];
    let mut failing = domain("shop.example", "api");
    failing.value.tls.status = "failed".into();
    desired.domains.insert("shop.example".into(), failing);
    assert!(network_degraded(&desired, &release.value));
    let found = network_result(&desired, &release.value, &checks, &probes, NOW);
    assert_eq!(
        found,
        NetworkResult {
            endpoints: vec![EndpointResult {
                endpoint: "prod/shop/api/http".into(),
                host_port: 20000,
                target_port: Some(30001),
                listening: true,
                reachable: true,
            }],
            domains: vec![DomainResult {
                domain: "shop.example".into(),
                endpoint: "prod/shop/api/http".into(),
                dns: desired.domains.at("shop.example").unwrap().value.dns.status.clone(),
                tls: "failed".into(),
                routing: desired.domains.at("shop.example").unwrap().value.routing.status.clone(),
            }],
            degraded: true,
            verified_at: NOW,
        }
    );
}

#[test]
fn traffic_moves_by_name() {
    let (mut desired, mut release) = releasing(DeploymentStatus::NetworkReady, InstanceState::Ready);
    let service = |name: &str| revision_workload(name, WorkloadKind::Service, &[("http", 8000)]);
    desired.revisions.insert(
        "rev_2".into(),
        revision("rev_2", vec![service("web"), service("api"), service("web")]).value,
    );
    desired.instances.insert(
        "ins_3".into(),
        instance("ins_3", "web", "dep_2", InstanceState::Ready, vec![binding("http", 8000, 30002)]),
    );
    release.value.workloads.push(evidence("web", vec![binding("http", 8000, 20005)]));
    let change = route_to(&desired, &release, NOW).ok().unwrap();
    let written: Vec<&str> = change.workloads.iter().map(|w| w.record.name.as_str()).collect();
    assert_eq!(written, vec!["web", "api", "web"]);
    let moved: Vec<&str> = change.traffic.iter().map(|t| t.record.endpoint.as_str()).collect();
    assert_eq!(moved, vec!["prod/shop/api/http", "prod/shop/web/http"]);
}

#[test]
fn records_are_told_by_what_they_are_found_by() {
    let (mut desired, release) = releasing(DeploymentStatus::NetworkReady, InstanceState::Ready);
    let mut stray = workload("api", WorkloadKind::Service, "dep_1", vec![]);
    stray.id = "wl_stray".into();
    desired.workloads.insert(key("old"), stray);
    let mut elsewhere = workload("old", WorkloadKind::Service, "dep_1", vec![]);
    elsewhere.id = "wl_elsewhere".into();
    desired.workloads.insert(("dev".into(), "shop".into(), "old".into()), elsewhere);
    let mut assignment = traffic("api", 20009, "dep_1", "ins_9");
    assignment.id = "trf_stray".into();
    desired.traffic.insert("prod/shop/old/http".into(), assignment);
    assert_eq!(desired.workloads_of("dev", "shop"), vec![0]);
    assert_eq!(desired.workloads_of("prod", "shop"), vec![1, 2]);
    let change = route_to(&desired, &release, NOW).ok().unwrap();
    assert_eq!(change.removed_workloads, strings(&["wl_stray"]));
    assert_eq!(change.removed_traffic, strings(&["trf_stray"]));
}

#[test]
fn some_statuses_serve() {
    for status in [DeploymentStatus::Active, DeploymentStatus::Draining, DeploymentStatus::Complete] {
        assert!(status.serves());
    }
    for status in [
        DeploymentStatus::Pending,
        DeploymentStatus::Starting,
        DeploymentStatus::Ready,
        DeploymentStatus::NetworkReady,
        DeploymentStatus::Switching,
        DeploymentStatus::Failed,
        DeploymentStatus::RolledBack,
    ] {
        assert!(!status.serves());
    }
}

#[test]
fn traffic_moves_in_one_change() {
    let (mut desired, release) = releasing(DeploymentStatus::NetworkReady, InstanceState::Ready);
    desired.domains.insert("shop.example".into(), domain("shop.example", "api"));
    desired.workloads.insert(
        key("old"),
        workload("old", WorkloadKind::Service, "dep_1", vec![binding("http", 1, 20009)]),
    );
    desired
        .traffic
        .insert("prod/shop/old/http".into(), traffic("old", 20009, "dep_1", "ins_9"));
    let change = route_to(&desired, &release, NOW + 5).ok().unwrap();
    assert_eq!(change.membership.replaces.as_deref(), Some("mem_1"));
    assert_eq!(change.membership.record.deployment_id.as_deref(), Some("dep_2"));
    assert_eq!(change.membership.record.created_at, 2);
    assert_eq!(change.membership.record.config.at("MODE").map(String::as_str), Some("live"));
    assert_eq!(change.workloads.len(), 1);
    assert_eq!(change.workloads[0].record.deployment_id, "dep_2");
    assert_eq!(change.removed_workloads, strings(&["wl_old"]));
    assert_eq!(change.instances.len(), 2);
    assert_eq!(change.instances[0].id, "ins_1");
    assert_eq!(change.instances[0].state, InstanceState::Draining);
    assert_eq!(change.instances[1].id, "ins_2");
    assert_eq!(change.instances[1].state, InstanceState::Serving);
    assert_eq!(change.traffic.len(), 1);
    let moved = &change.traffic[0];
    assert_eq!(moved.record.instance_id, "ins_2");
    assert_eq!(moved.record.host_port, 20000);
    assert_eq!(moved.record.target_port, 30001);
    assert_eq!(moved.record.domains, strings(&["shop.example"]));
    assert_eq!(moved.record.previous_instance_id.as_deref(), Some("ins_1"));
    assert_eq!(moved.from_revision.as_deref(), Some("label-rev_1"));
    assert_eq!(change.removed_traffic, strings(&["trf_old"]));
    assert_eq!(
        moved_endpoints(&change.traffic),
        vec![MovedEndpoint {
            endpoint: "prod/shop/api/http".into(),
            host_port: 20000,
            from_instance: Some("ins_1".into()),
            from_revision: Some("label-rev_1".into()),
            to_instance: "ins_2".into(),
            to_port: 30001,
        }]
    );
    let mut missing = desired;
    missing.revisions = Table::new();
    assert_eq!(
        route_to(&missing, &release, NOW).err().unwrap().to_text(),
        "not found: revision rev_2"
    );
}

fn seen(instance: &str, status: Option<u16>, accepts: bool) -> SwitchObservation {
    SwitchObservation {
        route: Some(Route { instance_id: instance.into(), target_port: 30001 }),
        status,
        accepts,
    }
}

#[test]
fn a_switch_is_verified_through_the_data_plane() {
    let (mut desired, release) = releasing(DeploymentStatus::Switching, InstanceState::Serving);
    let mut moved = traffic("api", 20000, "dep_2", "ins_2");
    moved.value.target_port = 30001;
    desired.traffic.insert("prod/shop/api/http".into(), moved);
    let checks = switch_checks(&desired, "dep_2");
    assert_eq!(checks.len(), 1);
    assert_eq!(checks[0].probe, SwitchProbe::Accepts);
    assert_eq!(
        verify_assignment(&checks[0], &seen("ins_2", None, true)).unwrap(),
        "the endpoint forwards to an instance that accepts connections"
    );
    assert_eq!(
        verify_assignment(&checks[0], &seen("ins_1", None, true)).unwrap_err(),
        "endpoint prod/shop/api/http does not yet forward to ins_2"
    );
    let refused = verify_assignment(&checks[0], &seen("ins_2", None, false)).unwrap_err();
    assert_eq!(refused, "the instance behind prod/shop/api/http does not accept connections");
    let next = |observation: SwitchObservation, now: i64| {
        verify_switch(&release.value, &checks, &vec![observation], now, 10_000)
    };
    assert_eq!(next(seen("ins_2", None, true), NOW), Next::Status(DeploymentStatus::Active));
    assert_eq!(
        verified_endpoints(&checks, &vec![seen("ins_2", None, true)]),
        vec![VerifiedEndpoint {
            endpoint: "prod/shop/api/http".into(),
            verified: "the endpoint forwards to an instance that accepts connections".into(),
        }]
    );
    assert!(verified_endpoints(&checks, &vec![seen("ins_2", None, false)]).is_empty());
    assert_eq!(next(seen("ins_2", None, false), NOW), Next::Wait);
    assert_eq!(
        next(seen("ins_2", None, false), NOW + 10 * SECOND + 1),
        Next::RollBack(refused)
    );
}

#[test]
fn an_http_switch_is_verified_by_its_answer() {
    let (mut desired, _) = releasing(DeploymentStatus::Switching, InstanceState::Serving);
    let mut api = revision_workload("api", WorkloadKind::Service, &[("http", 8000)]);
    let mut check = readiness(ReadinessCheck::Http);
    check.path = Some("/health".into());
    api.readiness = Some(check);
    desired.revisions.insert("rev_2".into(), revision("rev_2", vec![api]).value);
    let mut moved = traffic("api", 20000, "dep_2", "ins_2");
    moved.value.target_port = 30001;
    desired.traffic.insert("prod/shop/api/http".into(), moved);
    let checks = switch_checks(&desired, "dep_2");
    assert_eq!(checks[0].probe, SwitchProbe::Http { path: "/health".into() });
    assert_eq!(
        verify_assignment(&checks[0], &seen("ins_2", Some(200), false)).unwrap(),
        "GET /health through the endpoint answered 200"
    );
    assert_eq!(
        verify_assignment(&checks[0], &seen("ins_2", Some(503), true)).unwrap_err(),
        "GET /health through endpoint prod/shop/api/http answered Some(503)"
    );
    assert_eq!(
        verify_assignment(&checks[0], &seen("ins_2", None, true)).unwrap_err(),
        "GET /health through endpoint prod/shop/api/http answered None"
    );
}

#[test]
fn a_failed_release_leaves_what_serves() {
    let (desired, release) = releasing(DeploymentStatus::Starting, InstanceState::Starting);
    let change = fail(&desired, &release);
    assert_eq!(change.instances, vec![1]);
    assert_eq!(change.membership, None);
    let mut first = desired;
    first.memberships.insert(
        ("prod".into(), "shop".into()),
        membership(DesiredState::Running, None),
    );
    assert_eq!(fail(&first, &release).membership.as_deref(), Some("mem_1"));
}

#[test]
fn a_rollback_serves_again_what_served() {
    let (desired, release) = releasing(DeploymentStatus::Switching, InstanceState::Serving);
    let previous = deployment("dep_1", DeploymentStatus::Complete, None);
    match roll_back(&desired, &release, Some(&previous), NOW).ok().unwrap() {
        RollBack::Return(change) => {
            assert_eq!(change.membership.record.deployment_id.as_deref(), Some("dep_1"));
            assert_eq!(change.traffic[0].record.instance_id, "ins_1");
            assert_eq!(change.instances.len(), 1);
            assert_eq!(change.instances[0].id, "ins_2");
            assert_eq!(change.instances[0].state, InstanceState::Draining);
        }
        _ => panic!("something served before"),
    }
    match roll_back(&desired, &release, None, NOW).ok().unwrap() {
        RollBack::TakeOut { traffic, workloads, membership, failure } => {
            assert_eq!(traffic, vec![0]);
            assert_eq!(workloads, vec![0]);
            assert_eq!(membership.as_deref(), Some("mem_1"));
            assert_eq!(failure.instances, vec![1]);
        }
        _ => panic!("nothing served before"),
    }
}

#[test]
fn operators_roll_back_by_status() {
    let ask = |status: DeploymentStatus, id: &str, previous: Option<&str>| {
        let (desired, _) = releasing(DeploymentStatus::Complete, InstanceState::Serving);
        rollback(&desired, &deployment(id, status, previous))
    };
    assert!(matches!(
        ask(DeploymentStatus::Ready, "dep_2", None),
        Ok(RollbackRequest::Abandon(reason)) if reason == "rolled back by an operator before traffic moved"
    ));
    assert!(matches!(
        ask(DeploymentStatus::Draining, "dep_2", None),
        Ok(RollbackRequest::Return(reason)) if reason == "rolled back by an operator"
    ));
    assert!(matches!(
        ask(DeploymentStatus::Complete, "dep_1", Some("dep_0")),
        Ok(RollbackRequest::ReleaseAgain { previous }) if previous == "dep_0"
    ));
    let refused = |status: DeploymentStatus, id: &str| ask(status, id, None).err().unwrap().to_text();
    assert_eq!(
        refused(DeploymentStatus::Complete, "dep_2"),
        "conflict: dep_2 is not the current deployment of shop in prod"
    );
    assert_eq!(
        refused(DeploymentStatus::Complete, "dep_1"),
        "conflict: dep_1 replaced nothing; there is nothing to roll back to"
    );
    assert_eq!(
        refused(DeploymentStatus::RolledBack, "dep_2"),
        "conflict: dep_2 is rolled_back; there is nothing to roll back"
    );
}

#[test]
fn draining_ends_when_connections_do() {
    let (mut desired, mut release) = releasing(DeploymentStatus::Draining, InstanceState::Serving);
    desired.instances.insert(
        "ins_1".into(),
        instance("ins_1", "api", "dep_1", InstanceState::Draining, vec![binding("http", 8000, 30000)]),
    );
    assert_eq!(finish_drain(&desired, &release.value), Next::Wait);
    let elsewhere = vec![Route { instance_id: "ins_2".into(), target_port: 30001 }];
    let behind = vec![Route { instance_id: "ins_1".into(), target_port: 30000 }];
    let drained = |routes: &Vec<Route>, open: u64, now: i64| {
        drain_instances(&desired, routes, &vec![open, 0], now, 30_000)
    };
    assert_eq!(drained(&elsewhere, 0, NOW), vec![0]);
    assert_eq!(drained(&elsewhere, 3, NOW), Vec::<usize>::new());
    assert_eq!(drained(&elsewhere, 3, NOW + 30 * SECOND), vec![0]);
    assert_eq!(drained(&behind, 0, NOW), Vec::<usize>::new());
    assert_eq!(drained_message("api", "r1", 0), "api r1 drained and stopped");
    assert_eq!(
        drained_message("api", "r1", 2),
        "api r1 stopped after the drain timeout with 2 connection(s) open"
    );
    desired.instances.insert(
        "ins_1".into(),
        instance("ins_1", "api", "dep_1", InstanceState::Stopped, vec![]),
    );
    assert_eq!(
        finish_drain(&desired, &release.value),
        Next::Status(DeploymentStatus::Complete)
    );
    assert_eq!(complete(&desired, &release), vec![0]);
    release.id = "dep_1".into();
    assert_eq!(complete(&desired, &release), Vec::<usize>::new());
}

#[test]
fn what_a_release_replaced_stays_until_it_is_verified() {
    let (mut desired, _) = releasing(DeploymentStatus::Switching, InstanceState::Serving);
    desired.instances.insert(
        "ins_1".into(),
        instance("ins_1", "api", "dep_1", InstanceState::Draining, vec![]),
    );
    assert_eq!(
        drain_instances(&desired, &vec![], &vec![0, 0], NOW + 60 * SECOND, 30_000),
        Vec::<usize>::new()
    );
}

// ---- Adoption ---------------------------------------------------------------

#[test]
fn services_without_instances_are_adopted() {
    let mut desired = serving();
    desired.instances = Table::new();
    let adopted =
        adopt_services(&desired, &strings(&["ins_new"]), (30000, 30001), &vec![30000], NOW).unwrap();
    assert_eq!(adopted.len(), 1);
    assert_eq!(adopted[0].instance_id, "ins_new");
    assert_eq!(adopted[0].instance.state, InstanceState::Serving);
    assert_eq!(adopted[0].instance.ports, vec![binding("http", 8000, 30001)]);
    assert_eq!(
        adopted[0].instance.readiness.as_deref(),
        Some("adopted: running before zero-downtime releases")
    );
    assert_eq!(adopted[0].traffic[0].record.host_port, 20000);
    assert_eq!(adopted[0].traffic[0].record.target_port, 30001);
    assert_eq!(adopted[0].traffic[0].replaces.as_deref(), Some("trf_api"));
    assert!(adopt_services(&desired, &strings(&["x"]), (30000, 30000), &vec![30000], NOW).is_none());
    let served = serving();
    assert_eq!(
        adopt_services(&served, &strings(&["x"]), (30000, 30009), &vec![], NOW).unwrap().len(),
        0
    );
}

// ---- Reports ----------------------------------------------------------------

#[test]
fn releases_are_reported() {
    let release = deployment("dep_2", DeploymentStatus::Pending, None);
    let mut workload = evidence("api", vec![]);
    workload.admission_id = Some("adm_1".into());
    let placed = admitted(&release, &vec![workload]);
    assert_eq!(told(&placed[0]), strings(&["admissions = Options([Some(\"adm_1\")])"]));
    assert_eq!(told(&placed[1]), strings(&["providers = Options([None])"]));
    assert_eq!(placed[0].message, "shop label-rev_1 admitted in prod");
    assert_eq!(placed[1].message, "shop label-rev_1 placed in prod; starting its instances");
    assert_eq!(placed[1].scope.deployment_id.as_deref(), Some("dep_2"));
    let ready = instance_ready("ins_2", &key("api"), "r1", "dep_2", ReadinessCheck::Http, "up");
    assert_eq!(ready.message, "api r1 is ready in prod/shop: up");
    assert_eq!(told(&ready), strings(&["instance_id = Text(\"ins_2\")", "check = Check(Http)"]));
    let results = Table::new();
    assert_eq!(release_ready(&release, &results).message, "shop label-rev_1 is ready in prod");
    assert_eq!(release_ready(&release, &results).facts[0].name, "readiness");
    assert_eq!(switched(&release, &vec![]).len(), 2);
    let endpoint = || MovedEndpoint {
        endpoint: "prod/shop/api/http".into(),
        host_port: 20000,
        from_instance: None,
        from_revision: None,
        to_instance: "ins_2".into(),
        to_port: 30001,
    };
    let moved = switched(&release, &vec![endpoint(), endpoint(), endpoint()]);
    assert_eq!(told(&moved[1]), strings(&["revision = Text(\"label-rev_1\")", "previous = Null"]));
    assert_eq!(told(&moved[0]), told(&moved[2]));
    assert_eq!(moved[0].message, "shop label-rev_1 now receives traffic in prod");
    assert_eq!(moved[1].message, "shop label-rev_1 is now current in prod");
    assert_eq!(moved[2].message, "3 endpoint(s) switched to label-rev_1");
    assert_eq!(
        draining(&release, 30_000).message,
        "shop label-rev_1 serves in prod; draining what it replaced"
    );
    assert_eq!(told(&draining(&release, 30_000)), strings(&["drain_timeout_ms = Number(30000)"]));
    let done = completed(&release, "sha256:r");
    assert_eq!(done.message, "shop label-rev_1 is released in prod");
    assert_eq!(
        told(&done),
        strings(&["revision = Text(\"label-rev_1\")", "receipt = Text(\"sha256:r\")"])
    );
    let lost = failed(&release, "network", "no", "sha256:r");
    assert_eq!(lost.message, "shop label-rev_1 was not released to prod: no");
    assert_eq!(
        told(&lost),
        strings(&[
            "stage = Text(\"network\")",
            "reason = Text(\"no\")",
            "receipt = Text(\"sha256:r\")"
        ])
    );
    let back = rolled_back(&release, "dep_1", "r0", "no", &vec![], "sha256:r");
    assert_eq!(back.message, "shop label-rev_1 was rolled back to r0 in prod: no");
    assert_eq!(
        told(&back),
        strings(&[
            "reason = Text(\"no\")",
            "to_deployment = Text(\"dep_1\")",
            "endpoints = Endpoints([])",
            "receipt = Text(\"sha256:r\")"
        ])
    );
    let stopped = instance_stopped("ins_1", &key("api"), "r1", "dep_1", 2);
    assert_eq!(stopped.kind, EventKind::InstanceStopped);
    assert_eq!(
        told(&stopped),
        strings(&["instance_id = Text(\"ins_1\")", "open_connections = Number(2)"])
    );
}

// ---- Deploying --------------------------------------------------------------

fn request() -> DeployRequest {
    DeployRequest {
        project: "shop".into(),
        environment: "prod".into(),
        revision: None,
        config: None,
        desired_state: None,
        placement: None,
        artifact: None,
        required_config: vec![],
    }
}

#[test]
fn versions_count_a_projects_releases() {
    assert_eq!(next_version(None), 1);
    assert_eq!(next_version(Some(0)), 1);
    assert_eq!(next_version(Some(3)), 4);
    assert_eq!(next_version(Some(u64::MAX)), u64::MAX);
    assert_eq!(deployment_id("prj_shop", 4), "dep_429a73f01f304ea06027c4e7");
}

#[test]
fn a_release_is_planned() {
    let desired = serving();
    let place = release_place(&desired, &request()).ok().unwrap();
    let config = release_config(&desired, "prod", &request());
    assert_eq!(config.at("MODE").map(String::as_str), Some("live"));
    let mut asked = request();
    asked.placement = Some("plc".into());
    let target = revision(
        "rev_2",
        vec![revision_workload("api", WorkloadKind::Service, &[("http", 8000)])],
    );
    let plan = record_release(
        &desired,
        place,
        &asked,
        "prj_shop",
        &target,
        config,
        &b"abc".to_vec(),
        Some(3),
        None,
        None,
        NOW,
    )
    .ok()
    .unwrap();
    assert_eq!(plan.deployment_id, "dep_429a73f01f304ea06027c4e7");
    assert_eq!(plan.record.version, 4);
    assert_eq!(plan.record.status, DeploymentStatus::Pending);
    assert!(plan.record.readiness_result.is_none());
    assert!(plan.record.network_result.is_none());
    assert!(plan.record.traffic_switch_result.is_none());
    assert_eq!(plan.record.previous.as_deref(), Some("dep_1"));
    assert_eq!(plan.record.old_revision.as_deref(), Some("label-rev_1"));
    assert_eq!(
        plan.record.config_digest.as_deref(),
        Some("sha256:ba7816bf8f01cfea414140de5dae2223b00361a396177a9cb410ff61f20015ad")
    );
    assert_eq!(plan.record.workloads.len(), 1);
    assert_eq!(plan.record.workloads[0].pool_placement.as_deref(), Some("plc"));
    assert!(matches!(plan.membership, MembershipChange::Keep));
    assert_eq!(plan.notices.len(), 1);
    assert_eq!(plan.notices[0].message, "Releasing shop label-rev_2 to prod");
    assert_eq!(
        told(&plan.notices[0]),
        strings(&[
            "revision = Text(\"label-rev_2\")",
            "revision_id = Text(\"rev_2\")",
            "old_revision = Text(\"label-rev_1\")",
            "promoted_from = Null"
        ])
    );
}

#[test]
fn a_projects_first_release_adds_it() {
    let mut desired = serving();
    desired.memberships = Table::new();
    let place = release_place(&desired, &request()).ok().unwrap();
    let target = revision("rev_1", vec![]);
    let plan = plan_release(
        &desired,
        place,
        &request(),
        "prj_shop",
        &target,
        Config::new(),
        None,
        Some("dep_0".into()),
        Some("dep_9"),
        NOW,
    )
    .ok()
    .unwrap();
    match plan.membership {
        MembershipChange::Create(record) => {
            assert_eq!(record.deployment_id, None);
            assert_eq!(record.desired_state, DesiredState::Running);
        }
        _ => panic!("the project was not in the environment"),
    }
    assert_eq!(plan.record.version, 1);
    assert_eq!(plan.record.promoted_from.as_deref(), Some("dep_0"));
    assert_eq!(plan.notices[0].kind, EventKind::ProjectAdded);
    assert_eq!(plan.notices[0].message, "shop added to prod");
    assert_eq!(told(&plan.notices[0]), strings(&["revision = Text(\"label-rev_1\")"]));
    assert_eq!(
        told(&plan.notices[1])[3..],
        strings(&["promoted_from = Text(\"dep_0\")", "rollback_of = Text(\"dep_9\")"])[..]
    );
}

#[test]
fn one_release_of_a_project_at_a_time() {
    let (desired, _) = releasing(DeploymentStatus::Starting, InstanceState::Starting);
    let place = release_place(&desired, &request()).ok().unwrap();
    let target = revision("rev_1", vec![]);
    let error = plan_release(
        &desired,
        place,
        &request(),
        "prj_shop",
        &target,
        Config::new(),
        None,
        None,
        None,
        NOW,
    )
    .err()
    .unwrap();
    assert_eq!(
        error.to_text(),
        "conflict: shop is already being released to prod (dep_2, starting); wait for it or roll it back"
    );
}

#[test]
fn required_configuration_must_be_given() {
    let desired = serving();
    let place = release_place(&desired, &request()).ok().unwrap();
    let mut asked = request();
    asked.required_config = strings(&["LOG", "TOKEN", "URL"]);
    let target = revision("rev_1", vec![]);
    let error = plan_release(
        &desired,
        place,
        &asked,
        "prj_shop",
        &target,
        Config::new(),
        None,
        None,
        None,
        NOW,
    )
    .err()
    .unwrap();
    assert_eq!(
        error.to_text(),
        "invalid: shop requires configuration it was not given: TOKEN, URL"
    );
    let mut nowhere = request();
    nowhere.environment = "moon".into();
    assert_eq!(
        release_place(&desired, &nowhere).err().unwrap().to_text(),
        "not found: environment moon"
    );
}

#[test]
fn revisions_are_found_by_identifier_label_or_age() {
    assert_eq!(revision_query(&None), RevisionQuery::Newest);
    assert_eq!(revision_query(&Some("v1".into())), RevisionQuery::ByLabel);
    assert_eq!(revision_query(&Some("rev_1".into())), RevisionQuery::ById);
    let find = |project_id: &str, selector: Option<&str>, known: bool| {
        resolve_revision(
            "project_revisions",
            project_id,
            "shop",
            &selector.map(str::to_string),
            if known { Some(revision("rev_1", vec![])) } else { None },
        )
    };
    assert_eq!(find("prj_shop", Some("rev_1"), true).ok().unwrap().id, "rev_1");
    assert_eq!(
        find("prj_other", Some("rev_1"), true).err().unwrap().to_text(),
        "invalid: rev_1 is a revision of shop, not shop"
    );
    assert_eq!(
        find("prj_shop", Some("rev_1"), false).err().unwrap().to_text(),
        "not found: project_revisions rev_1"
    );
    assert_eq!(
        find("prj_shop", Some("v1"), false).err().unwrap().to_text(),
        "not found: revision v1 of shop"
    );
    assert_eq!(
        find("prj_shop", None, false).err().unwrap().to_text(),
        "not found: any revision of shop; register one first"
    );
}

fn promotion(allow_unhealthy: bool) -> PromoteRequest {
    PromoteRequest {
        project: "shop".into(),
        from: "preprod".into(),
        to: "prod".into(),
        config: None,
        allow_unhealthy,
    }
}

#[test]
fn promotion_releases_the_exact_revision() {
    let source = deployment("dep_1", DeploymentStatus::Complete, None);
    let asked = promote(promotion(false), &source.value).ok().unwrap();
    assert_eq!(asked.revision.as_deref(), Some("rev_1"));
    assert_eq!(asked.environment, "prod");
    let unready = deployment("dep_1", DeploymentStatus::Switching, None);
    assert_eq!(
        promote(promotion(false), &unready.value).err().unwrap().to_text(),
        "conflict: shop label-rev_1 is switching in preprod, not released; promote a validated revision"
    );
    assert!(promote(promotion(true), &unready.value).is_ok());
    assert_eq!(
        promotion_source(&promotion(false), &membership(DesiredState::Running, Some("dep_1")).value)
            .unwrap(),
        "dep_1"
    );
    assert_eq!(
        promotion_source(&promotion(false), &membership(DesiredState::Running, None).value)
            .unwrap_err()
            .to_text(),
        "conflict: shop has no current deployment in preprod"
    );
    let notice = promotion_notice("shop", "dep_1", &source.value, "dep_2", &source.value).unwrap();
    assert_eq!(told(&notice)[0], "from_deployment = Text(\"dep_1\")");
    assert_eq!(notice.message, "shop label-rev_1 promoted from prod to prod");
    let failed = deployment("dep_2", DeploymentStatus::Failed, None);
    assert!(promotion_notice("shop", "dep_1", &source.value, "dep_2", &failed.value).is_none());
}

#[test]
fn rolling_back_a_complete_release_releases_again() {
    let release = deployment("dep_2", DeploymentStatus::Complete, Some("dep_1"));
    let mut previous = deployment("dep_1", DeploymentStatus::Complete, None);
    previous.value.revision_id = "rev_0".into();
    previous.value.config.insert("MODE".into(), "old".into());
    previous.value.workloads = vec![evidence("api", vec![])];
    let again = release_again(&release.value, &previous.value);
    assert_eq!(again.revision.as_deref(), Some("rev_0"));
    assert_eq!(again.artifact, Some(artifact("art_1")));
    assert_eq!(
        again.config.unwrap().at("MODE").map(String::as_str),
        Some("old")
    );
    assert!(added_project("shop", &release.value).is_ok());
    let mut failed = deployment("dep_3", DeploymentStatus::Failed, None);
    failed.value.failure = Some("no port".into());
    assert_eq!(
        added_project("shop", &failed.value).unwrap_err().to_text(),
        "admission denied: shop was not deployed: no port"
    );
}

#[test]
fn deployments_run_with_their_own_configuration() {
    let member = membership(DesiredState::Running, None);
    let mut record = deployment("dep_1", DeploymentStatus::Complete, None);
    assert_eq!(run_config(&record.value, Some(&member)).at("MODE").map(String::as_str), Some("live"));
    record.value.config_digest = Some("sha256:x".into());
    assert!(run_config(&record.value, Some(&member)).is_empty());
    record.value.config.insert("MODE".into(), "own".into());
    assert_eq!(run_config(&record.value, Some(&member)).at("MODE").map(String::as_str), Some("own"));
}

// ---- Revisions --------------------------------------------------------------

fn definition(name: &str, kind: WorkloadKind, ports: &[(&str, u16)]) -> WorkloadDefinition {
    WorkloadDefinition {
        name: name.into(),
        kind,
        bundle: vec![1],
        ports: ports
            .iter()
            .map(|(name, port)| PortSpec { name: name.to_string(), port: *port })
            .collect(),
        restart: RestartPolicy::Never,
        desired_state: DesiredState::Running,
        readiness: None,
    }
}

fn facts() -> Result<WorkloadFacts, String> {
    Ok(WorkloadFacts {
        bundle_id: Ok("bundle".into()),
        artifact: "sha256:a".into(),
        workload_identity: Ok("identity".into()),
        runtime: "python".into(),
        runtime_version: None,
        dependency: None,
        distribution: None,
        default_readiness: readiness(ReadinessCheck::Process),
    })
}

fn registered(workloads: Vec<WorkloadDefinition>) -> Result<Vec<RevisionWorkload>, String> {
    let bundles = workloads.iter().map(|_| facts()).collect();
    let definition = RevisionDefinition { revision: "v1".into(), source: None, workloads };
    revision_workloads("shop", &definition, &bundles).map_err(|error| error.to_text())
}

#[test]
fn revisions_list_their_workloads_by_name() {
    let workloads = registered(vec![
        definition("web", WorkloadKind::Service, &[("http", 80)]),
        definition("api", WorkloadKind::Service, &[]),
    ])
    .unwrap();
    assert_eq!(workloads[0].name, "api");
    assert_eq!(workloads[1].name, "web");
    assert_eq!(
        registered(vec![]).unwrap_err(),
        "invalid: a project needs at least one workload"
    );
    let twice = vec![
        definition("api", WorkloadKind::Service, &[]),
        definition("api", WorkloadKind::Task, &[]),
    ];
    assert_eq!(registered(twice).unwrap_err(), "invalid: workload api is declared twice");
    let zero = vec![definition("api", WorkloadKind::Service, &[("http", 0)])];
    assert_eq!(
        registered(zero).unwrap_err(),
        "invalid: workload api declares an invalid or duplicate port http"
    );
    let task = vec![definition("job", WorkloadKind::Task, &[("http", 80)])];
    assert_eq!(
        registered(task).unwrap_err(),
        "invalid: task job cannot declare ports; only services listen"
    );
}

#[test]
fn readiness_names_only_what_is_declared() {
    let judged = |check: Readiness, kind: WorkloadKind, ports: &[(&str, u16)]| {
        let mut workload = definition("api", kind, ports);
        workload.readiness = Some(check);
        let siblings = vec![definition("probe", WorkloadKind::Task, &[])];
        validate_readiness(&workload, &siblings).err().map(|error| error.message())
    };
    let http = || readiness(ReadinessCheck::Http);
    assert_eq!(judged(http(), WorkloadKind::Service, &[("http", 80)]), None);
    assert_eq!(
        judged(http(), WorkloadKind::Task, &[]).as_deref(),
        Some("api: only services have readiness checks")
    );
    let mut named = http();
    named.port = Some("gone".into());
    assert_eq!(
        judged(named, WorkloadKind::Service, &[("http", 80)]).as_deref(),
        Some("api: readiness names port gone, which it does not declare")
    );
    assert_eq!(
        judged(http(), WorkloadKind::Service, &[]).as_deref(),
        Some("api: a port or http readiness check needs a declared port")
    );
    let mut relative = http();
    relative.path = Some("health".into());
    assert_eq!(
        judged(relative, WorkloadKind::Service, &[("http", 80)]).as_deref(),
        Some("api: an http readiness path starts with /")
    );
    let mut task = readiness(ReadinessCheck::Task);
    assert_eq!(
        judged(task.clone(), WorkloadKind::Service, &[]).as_deref(),
        Some("api: readiness task \"\" is not a task of this revision")
    );
    task.task = Some("probe".into());
    assert_eq!(judged(task.clone(), WorkloadKind::Service, &[]), None);
    task.interval_ms = 0;
    assert_eq!(
        judged(task, WorkloadKind::Service, &[]).as_deref(),
        Some("api: readiness timeout and interval must be positive")
    );
}

#[test]
fn the_order_of_declaration_does_not_matter() {
    let declared = |names: &[&str]| {
        let workloads = names
            .iter()
            .map(|name| definition(name, WorkloadKind::Service, &[("http", 80)]))
            .collect();
        registered(workloads).unwrap()
    };
    let one = declared(&["web", "api", "job"]);
    let other = declared(&["job", "web", "api"]);
    assert_eq!(format!("{one:?}"), format!("{other:?}"));
    assert_ne!(format!("{one:?}"), format!("{:?}", declared(&["web", "api"])));
    let content = |workloads: &Vec<RevisionWorkload>| format!("{workloads:?}").into_bytes();
    assert_eq!(
        identify_revision("v1", &content(&one)),
        identify_revision("v1", &content(&other))
    );
}

#[test]
fn labels_are_checked_after_names() {
    let refused = || Err(EnvironmentError::Invalid("a label holds no space".into()));
    assert!(check_label("shop", Ok(())).is_ok());
    assert_eq!(
        check_label("shop", refused()).unwrap_err().to_text(),
        "invalid: a label holds no space"
    );
    let name = check_label("", Ok(())).unwrap_err().to_text();
    assert_eq!(check_label("", refused()).unwrap_err().to_text(), name);
    assert!(name.starts_with("invalid: "));
}

#[test]
fn revisions_are_immutable() {
    let definition = || RevisionDefinition { revision: "v1".into(), source: None, workloads: vec![] };
    let (digest, identity) = identify_revision("v1", &b"abc".to_vec());
    assert_eq!(
        digest,
        "sha256:ba7816bf8f01cfea414140de5dae2223b00361a396177a9cb410ff61f20015ad"
    );
    assert_eq!(identity, format!("v1\n{digest}"));
    let register = |existing: Option<&Stored<ProjectRevisionRecord>>, known: bool| {
        register_revision(
            "shop",
            "prj_shop",
            "rev_1",
            "sha256:new",
            &definition(),
            vec![],
            existing,
            known,
            NOW,
        )
    };
    let same = revision("rev_1", vec![]);
    assert!(matches!(register(Some(&same), true), Ok(Registration::Existing)));
    let other = revision("rev_9", vec![]);
    assert_eq!(
        register(Some(&other), true).err().unwrap().to_text(),
        "conflict: revision v1 of shop already names different content (sha256:rev_9); revisions are immutable"
    );
    match register(None, false).ok().unwrap() {
        Registration::Create { revision, project, notices } => {
            assert_eq!(revision.revision_digest, "sha256:new");
            assert_eq!(project.unwrap().name, "shop");
            assert_eq!(notices[0].message, "Project shop registered");
            assert_eq!(notices[1].message, "shop revision v1 registered");
        }
        _ => panic!("new content is registered"),
    }
    match register(None, true).ok().unwrap() {
        Registration::Create { project, notices, .. } => {
            assert!(project.is_none());
            assert_eq!(notices.len(), 1);
        }
        _ => panic!("new content is registered"),
    }
}

fn admitted_evidence() -> DeploymentWorkload {
    let mut workload = evidence("api", vec![binding("http", 8000, 20000)]);
    workload.reasons = strings(&["fits"]);
    workload
}

#[test]
fn a_step_writes_only_what_it_decides() {
    let later = NOW + SECOND;
    let mut record = deployment("dep_1", DeploymentStatus::Pending, None).value;
    record.advance(DeploymentStatus::Starting, later);
    assert_eq!(record.status, DeploymentStatus::Starting);
    assert_eq!(record.status_since, Some(later));
    assert_eq!(record.created_at, NOW);
    record.advance(DeploymentStatus::Ready, later + 1);
    assert_eq!(record.status_since, Some(later + 1));
    assert_eq!(record.completed_at, None);
    record.complete(later + 2);
    assert_eq!(record.status, DeploymentStatus::Complete);
    assert_eq!(record.completed_at, Some(later + 2));
    record.roll_back("slow".into(), later + 3);
    assert_eq!(record.status, DeploymentStatus::RolledBack);
    assert_eq!(record.rollback_reason.as_deref(), Some("slow"));
    assert_eq!(record.failure, None);
    record.receive("sha256:receipt".into());
    assert_eq!(record.receipt.as_deref(), Some("sha256:receipt"));
    record.collect("rcp_1");
    assert_eq!(record.receipt_ids, strings(&["rcp_1"]));
    let mut failing = deployment("dep_2", DeploymentStatus::Starting, None).value;
    failing.fail(None, "broken".into(), later);
    assert_eq!(failing.status, DeploymentStatus::Failed);
    assert_eq!(failing.failure.as_deref(), Some("broken"));
    assert_eq!(failing.workloads.len(), 0);
    failing.fail(Some(vec![admitted_evidence()]), "again".into(), later);
    assert_eq!(failing.workloads.len(), 1);
}

#[test]
fn an_instance_is_proved_served_and_stopped() {
    let later = NOW + SECOND;
    let mut record = instance("ins_1", "api", "dep_1", InstanceState::Starting, vec![]).value;
    record.prove("up".into(), later);
    assert_eq!(record.state, InstanceState::Ready);
    assert_eq!(record.ready_at, Some(later));
    assert_eq!(record.readiness.as_deref(), Some("up"));
    record.enter(InstanceState::Serving, later + 1);
    assert_eq!(record.state, InstanceState::Serving);
    assert_eq!(record.stopped_at, None);
    record.enter(InstanceState::Stopped, later + 2);
    assert_eq!(record.stopped_at, Some(later + 2));
    let mut failing = instance("ins_2", "api", "dep_1", InstanceState::Starting, vec![]).value;
    failing.fail("broken".into(), later);
    assert_eq!(failing.state, InstanceState::Failed);
    assert_eq!(failing.error.as_deref(), Some("broken"));
    assert_eq!(failing.stopped_at, Some(later));
}

#[test]
fn a_receipt_holds_no_configuration() {
    let mut record = deployment("dep_1", DeploymentStatus::Complete, Some("dep_0")).value;
    record.config.insert("TOKEN".into(), "hidden".into());
    record.config_digest = Some("sha256:c".into());
    record.workloads = copy_workloads(&vec![admitted_evidence()]);
    record.receipt_ids = strings(&["rcp_1"]);
    let mut results = Table::new();
    results.insert(
        "api".to_string(),
        ReadinessResult { check: ReadinessCheck::Port, ready_at: Some(NOW), detail: None },
    );
    record.ready(results, NOW);
    record.network_ready(
        NetworkResult { endpoints: vec![], domains: vec![], degraded: false, verified_at: NOW },
        NOW + 1,
    );
    record.switch(vec![], NOW + 2);
    record.activate(
        vec![VerifiedEndpoint { endpoint: "e".into(), verified: "it answered".into() }],
        NOW + 3,
    );
    assert_eq!(record.status, DeploymentStatus::Active);
    assert_eq!(record.status_since, Some(NOW + 3));
    let events = vec![EventRecord {
        sequence: 7,
        kind: EventKind::ServiceStarted,
        at: NOW,
        scope: Scope::environment("prod"),
        message: "m".into(),
        data: EventData::Null,
    }];
    let receipt = write_receipt("dep_1", &record, &events, "1.0", "daemon_1");
    let shown = format!("{receipt:?}");
    assert_eq!(receipt.format, "compute.deployment-receipt@1");
    assert_eq!(receipt.deployment_id, "dep_1");
    assert_eq!(receipt.previous_deployment_id.as_deref(), Some("dep_0"));
    assert_eq!(receipt.config_digest.as_deref(), Some("sha256:c"));
    assert_eq!(receipt.workloads[0].reasons, strings(&["fits"]));
    assert_eq!(receipt.workloads[0].endpoints[0].host, 20000);
    assert_eq!(receipt.execution_receipts, strings(&["rcp_1"]));
    assert_eq!(
        receipt.readiness.unwrap().at("api").map(|result| result.check),
        Some(ReadinessCheck::Port)
    );
    assert_eq!(receipt.network.as_ref().map(|result| result.verified_at), Some(NOW));
    assert_eq!(
        receipt.traffic_switch,
        Some(SwitchResult {
            endpoints: Some(vec![]),
            switched_at: Some(NOW + 2),
            verified: Some(vec![VerifiedEndpoint {
                endpoint: "e".into(),
                verified: "it answered".into(),
            }]),
            verified_at: Some(NOW + 3),
        })
    );
    assert_eq!(receipt.events.len(), 1);
    assert_eq!(receipt.events[0].sequence, 7);
    assert_eq!((receipt.compute.as_str(), receipt.daemon.as_str()), ("1.0", "daemon_1"));
    assert!(!shown.contains("hidden"));
}

#[test]
fn a_project_is_added_by_a_release() {
    let mut env = Config::new();
    assert!(check_project("shop", &env).is_ok());
    assert!(check_project("Shop!", &env).is_err());
    env.insert("MODE".into(), "live".into());
    assert!(check_project("shop", &env).is_ok());
    let request = project_release("shop", "prod", "rev_1".into(), env, DesiredState::Stopped);
    assert_eq!(request.project, "shop");
    assert_eq!(request.environment, "prod");
    assert_eq!(request.revision.as_deref(), Some("rev_1"));
    assert_eq!(request.desired_state, Some(DesiredState::Stopped));
    assert!(request.required_config.is_empty());
    assert!(!wait_is_over(DeploymentStatus::Starting, 1, 2));
    assert!(wait_is_over(DeploymentStatus::Starting, 2, 2));
    assert!(wait_is_over(DeploymentStatus::Failed, 1, 2));
}

#[test]
fn one_unready_instance_holds_its_release() {
    let (mut desired, release) = releasing(DeploymentStatus::Starting, InstanceState::Starting);
    desired.revisions.insert(
        "rev_2".into(),
        revision(
            "rev_2",
            vec![
                revision_workload("api", WorkloadKind::Service, &[("http", 8000)]),
                revision_workload("web", WorkloadKind::Service, &[]),
            ],
        )
        .value,
    );
    desired.workloads.insert(key("web"), workload("web", WorkloadKind::Service, "dep_1", vec![]));
    desired
        .instances
        .insert("ins_3".into(), instance("ins_3", "web", "dep_2", InstanceState::Starting, vec![]));
    let up = || Check::Ready("up".into());
    let next = |api: Check, web: Check| {
        await_readiness(&desired, &release, &vec![Check::Waiting("unused".into()), api, web], NOW)
            .next
    };
    assert_eq!(next(up(), up()), ReadinessNext::Advance);
    assert_eq!(next(up(), Check::Waiting("starting".into())), ReadinessNext::Record);
    assert_eq!(
        next(up(), Check::Failed("it exited".into())),
        ReadinessNext::Fail("web failed before it was ready: it exited".into())
    );
}

#[test]
fn configuration_is_hashed_as_json() {
    let mut own = Config::new();
    own.insert("QUOTE".into(), "a \"b\"".into());
    own.insert("MODE".into(), "live".into());
    let home = environment("prod", DesiredState::Running);
    assert_eq!(
        String::from_utf8(config_document(&home.value.config, &own)).unwrap(),
        r#"{"environment":{"LOG":"info"},"project":{"MODE":"live","QUOTE":"a \"b\""}}"#
    );
    assert_eq!(
        config_document(&Config::new(), &Config::new()),
        br#"{"environment":{},"project":{}}"#.to_vec()
    );
    let mut desired = serving();
    desired.memberships = Table::new();
    let release = |config: Config| {
        plan_release(
            &desired,
            &home,
            &request(),
            "prj_shop",
            &revision("rev_1", vec![]),
            config,
            None,
            None,
            None,
            NOW,
        )
        .ok()
        .unwrap()
        .record
        .config_digest
        .unwrap()
    };
    let mut other = Config::new();
    other.insert("MODE".into(), "live".into());
    assert_ne!(release(Config::new()), release(other));
    assert!(release(Config::new()).starts_with("sha256:"));
}

#[test]
fn a_release_needs_its_revision() {
    let (desired, mut release) = releasing(DeploymentStatus::Pending, InstanceState::Starting);
    let found = find_revision(&desired, &release.value).map(|revision| revision.revision.clone());
    assert_eq!(found, Ok("label-rev_2".to_string()));
    release.value.revision_id = "rev_3".into();
    let missing = find_revision(&desired, &release.value).map(|revision| revision.revision.clone());
    assert_eq!(missing, Err("revision rev_3 is missing".to_string()));
}

#[test]
fn readiness_is_checked_at_its_interval() {
    let second = SECOND as u64;
    let mut runtime = NetworkRuntime::new();
    assert!(runtime.check_readiness("ins_1", 1_000, 5));
    assert!(!runtime.check_readiness("ins_1", 1_000, 5 + second - 1));
    assert!(runtime.check_readiness("ins_2", 1_000, 6));
    assert!(runtime.check_readiness("ins_1", 1_000, 5 + second));
    assert!(!runtime.check_readiness("ins_1", 1_000, 5 + second + 1));
}
