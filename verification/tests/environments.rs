use compute_environment::admission::{AdmissionDecision, PlacementFailure, PlacementReport, Selected};
use compute_environment::cycle::resources_examined;
use compute_environment::desired::{Desired, Unit, Want};
use compute_environment::events::{Datum, EventData, EventKind, EventRecord, Scope};
use compute_environment::execute::{
    admission_refusal, check_task, deployment_receipts, dispatch, invocation_of, never_started,
    output_limit, placement_view, provider_failure, receipt_record, receipt_warning, remember,
    run_environment, task_refusal, AdmissionIds, Dispatch, ExecutionRecord, ExecutionResult, Invocation, Outcome, WorkloadRuntime,
};
use compute_environment::lifecycle::{
    create_environment, destroy_environment, forget_units, register_service, release_holds,
    remove_project, removed_service, set_environment_state, set_project_state, set_workload_state,
    stop_units, units_of, verb, workload_record, Coverage, ServiceDefinition,
};
use compute_environment::load::{in_flight_statuses, Listing, Snapshot};
use compute_environment::model::{
    ActualState, Config, DesiredState, EnvironmentDefinition, PortBinding, PortSpec, Readiness,
    ReadinessCheck, RestartPolicy, WorkloadKind,
};
use compute_environment::node::{daemon_status, DaemonConfig};
use compute_environment::prepare::{
    invalid_policy, policy_sources, prepare_unit, receipt_scope, PolicySourceKind,
};
use compute_environment::queries::{self, Field};
use compute_environment::reconcile::{
    appeared, converge, endpoint_error, endpoint_unavailable, find_observed_state, forget_ended,
    health_events, health_message, health_notices, is_remembered, observe, sync_endpoints, workload_health, StatusWrite,
};
use compute_environment::release::Route;
use compute_environment::runtime::{active, remember_output};
use compute_environment::state::{
    DeploymentRecord, DeploymentStatus, DomainRecord, EnvironmentProjectRecord, EnvironmentRecord,
    InstanceState, ProjectRecord, ProjectRevisionRecord, Reconciliation, RevisionWorkload, Stored,
    TrafficAssignmentRecord, WorkloadInstanceRecord, WorkloadRecord,
};
use compute_environment::status::{Health, PlacementView};
use compute_environment::supervision::collect_unit;
use compute_environment::table::Table;
use compute_environment::terminal::{TerminalLog, CAPACITY};
use compute_environment::views::{
    aggregate, combine_health, declare, deployment_receipt, deployment_view, environment_reference,
    environment_summary, environment_view, environments_of, execution_view, instance_view,
    local_execution, log_source, log_start, missing_receipt, placement_of, project_detail,
    project_summary, project_view, projects_in, receipt_document, revision_view, running_services,
    workload_artifact, workload_view, Child, Declared, EventFilter, LogSource, WorkloadSight,
};

const NOW: i64 = 1_700_000_000_000_000_000;
const SECOND: i64 = 1_000_000_000;

fn strings(values: &[&str]) -> Vec<String> {
    values.iter().map(|value| value.to_string()).collect()
}

fn key(workload: &str) -> (String, String, String) {
    ("prod".to_string(), "shop".to_string(), workload.to_string())
}

fn nothing_desired() -> Desired {
    Desired {
        environments: Table::new(),
        projects: Table::new(),
        memberships: Table::new(),
        workloads: Table::new(),
        deployments: Table::new(),
        revisions: Table::new(),
        instances: Table::new(),
        traffic: Table::new(),
        domains: Table::new(),
        dns_records: Table::new(),
        certificates: Table::new(),
    }
}

fn binding(name: &str, logical: u16, host: u16) -> PortBinding {
    PortBinding { name: name.into(), logical, host }
}

fn readiness(check: ReadinessCheck) -> Readiness {
    Readiness {
        check,
        port: None,
        path: None,
        task: None,
        timeout_ms: 60_000,
        interval_ms: 1_000,
    }
}

fn environment(name: &str, state: DesiredState) -> Stored<EnvironmentRecord> {
    let mut config = Config::new();
    config.insert("LOG".into(), "info".into());
    Stored {
        id: format!("env_{name}"),
        value: EnvironmentRecord {
            name: name.into(),
            desired_state: state,
            config,
            policy: None,
            provider: None,
            created_at: 1,
        },
    }
}

fn membership(state: DesiredState, deployment: Option<&str>) -> Stored<EnvironmentProjectRecord> {
    let mut config = Config::new();
    config.insert("MODE".into(), "live".into());
    Stored {
        id: "mem_1".into(),
        value: EnvironmentProjectRecord {
            environment_id: "env_prod".into(),
            environment: "prod".into(),
            project_id: "prj_shop".into(),
            project: "shop".into(),
            desired_state: state,
            config,
            revision_id: deployment.map(|_| "rev_1".to_string()),
            deployment_id: deployment.map(str::to_string),
            created_at: 2,
            updated_at: 2,
        },
    }
}

fn revision_workload(name: &str, kind: WorkloadKind, ports: &[(&str, u16)]) -> RevisionWorkload {
    RevisionWorkload {
        name: name.into(),
        kind,
        bundle_id: format!("bundle_{name}"),
        artifact: format!("sha256:{name}"),
        workload_identity: format!("identity_{name}"),
        runtime: "python".into(),
        runtime_version: Some("3.12".into()),
        dependency: None,
        distribution: None,
        readiness: None,
        default_readiness: readiness(if ports.is_empty() {
            ReadinessCheck::Process
        } else {
            ReadinessCheck::Port
        }),
        ports: ports
            .iter()
            .map(|(name, port)| PortSpec { name: name.to_string(), port: *port })
            .collect(),
        restart: RestartPolicy::OnFailure,
        desired_state: DesiredState::Running,
    }
}

fn revision(id: &str, workloads: Vec<RevisionWorkload>) -> Stored<ProjectRevisionRecord> {
    Stored {
        id: id.into(),
        value: ProjectRevisionRecord {
            project_id: "prj_shop".into(),
            project: "shop".into(),
            revision: format!("label-{id}"),
            revision_digest: format!("sha256:{id}"),
            source: None,
            workloads,
            created_at: 1,
        },
    }
}

fn deployment(id: &str, status: DeploymentStatus, previous: Option<&str>) -> Stored<DeploymentRecord> {
    Stored {
        id: id.into(),
        value: DeploymentRecord {
            environment_id: "env_prod".into(),
            environment: "prod".into(),
            project_id: "prj_shop".into(),
            project: "shop".into(),
            version: 1,
            revision_id: "rev_1".into(),
            revision: "label-rev_1".into(),
            revision_digest: "sha256:rev_1".into(),
            status,
            promoted_from: None,
            previous: previous.map(str::to_string),
            workloads: vec![],
            failure: None,
            receipt_ids: vec![],
            old_revision: None,
            config_digest: None,
            config: Config::new(),
            readiness_result: None,
            network_result: None,
            traffic_switch_result: None,
            rollback_reason: None,
            receipt: None,
            status_since: Some(NOW),
            completed_at: None,
            created_at: NOW,
            updated_at: NOW,
        },
    }
}

fn instance(
    id: &str,
    workload: &str,
    deployment_id: &str,
    state: InstanceState,
    ports: Vec<PortBinding>,
) -> Stored<WorkloadInstanceRecord> {
    Stored {
        id: id.into(),
        value: WorkloadInstanceRecord {
            environment_id: "env_prod".into(),
            environment: "prod".into(),
            project_id: "prj_shop".into(),
            project: "shop".into(),
            workload: workload.into(),
            workload_id: format!("wl_{workload}"),
            deployment_id: deployment_id.into(),
            revision: "label-rev_1".into(),
            state,
            ports,
            readiness: None,
            started_at: Some(NOW),
            ready_at: None,
            stopped_at: None,
            error: None,
            updated_at: NOW,
        },
    }
}

fn workload(name: &str, kind: WorkloadKind, deployment_id: &str, ports: Vec<PortBinding>) -> Stored<WorkloadRecord> {
    Stored {
        id: format!("wl_{name}"),
        value: WorkloadRecord {
            environment_id: "env_prod".into(),
            environment: "prod".into(),
            project_id: "prj_shop".into(),
            project: "shop".into(),
            name: name.into(),
            kind,
            desired_state: DesiredState::Running,
            restart: RestartPolicy::OnFailure,
            bundle_id: format!("bundle_{name}"),
            workload_identity: format!("identity_{name}"),
            runtime: "python".into(),
            ports,
            deployment_id: deployment_id.into(),
        },
    }
}

fn traffic(workload: &str, host_port: u16, deployment_id: &str, instance_id: &str) -> Stored<TrafficAssignmentRecord> {
    Stored {
        id: format!("trf_{workload}"),
        value: TrafficAssignmentRecord {
            endpoint: format!("prod/shop/{workload}/http"),
            environment: "prod".into(),
            project: "shop".into(),
            workload: workload.into(),
            port: "http".into(),
            host_port,
            domains: vec![],
            deployment_id: deployment_id.into(),
            revision: "label-rev_1".into(),
            instance_id: instance_id.into(),
            target_port: 30000,
            status: "active".into(),
            previous_deployment_id: None,
            previous_instance_id: None,
            switched_at: 1,
        },
    }
}

fn reconciliation_of(status: &str) -> Reconciliation {
    Reconciliation {
        status: status.into(),
        desired: None,
        actual: None,
        last_error: None,
        last_reconciled_at: None,
    }
}

fn domain(name: &str, workload: &str) -> Stored<DomainRecord> {
    Stored {
        id: format!("dom_{name}"),
        value: DomainRecord {
            name: name.into(),
            environment_id: "env_prod".into(),
            environment: "prod".into(),
            project_id: "prj_shop".into(),
            project: "shop".into(),
            workload: workload.into(),
            port: "http".into(),
            dns_provider: "none".into(),
            certificate_id: None,
            status: "pending".into(),
            dns: reconciliation_of("unmanaged"),
            tls: reconciliation_of("disabled"),
            routing: reconciliation_of("pending"),
            created_at: 1,
        },
    }
}

/// One service, `api`, that `dep_1` serves on port 20000.
fn serving() -> Desired {
    let mut desired = nothing_desired();
    desired
        .environments
        .insert("prod".into(), environment("prod", DesiredState::Running));
    desired.memberships.insert(
        ("prod".into(), "shop".into()),
        membership(DesiredState::Running, Some("dep_1")),
    );
    desired.workloads.insert(
        key("api"),
        workload("api", WorkloadKind::Service, "dep_1", vec![binding("http", 8000, 20000)]),
    );
    desired
        .deployments
        .insert("dep_1".into(), deployment("dep_1", DeploymentStatus::Complete, None));
    desired.revisions.insert(
        "rev_1".into(),
        revision("rev_1", vec![revision_workload("api", WorkloadKind::Service, &[("http", 8000)])]).value,
    );
    desired.instances.insert(
        "ins_1".into(),
        instance("ins_1", "api", "dep_1", InstanceState::Serving, vec![binding("http", 8000, 30000)]),
    );
    desired
        .traffic
        .insert("prod/shop/api/http".into(), traffic("api", 20000, "dep_1", "ins_1"));
    desired
}

fn unit(workload: &str, deployment_id: &str) -> Unit {
    Unit::new(&key(workload), deployment_id)
}

fn running(generation: u64) -> WorkloadRuntime {
    let mut runtime = WorkloadRuntime::new();
    runtime.service = true;
    runtime.generation = generation;
    runtime.state = Some(ActualState::Running);
    runtime.deployment_id = Some("dep_1".into());
    runtime.started_at = Some(NOW);
    runtime
}

fn units(entries: Vec<(Unit, WorkloadRuntime)>) -> Table<Unit, WorkloadRuntime> {
    let mut table = Table::new();
    for (unit, runtime) in entries {
        table.insert(unit, runtime);
    }
    table
}

// ---- Desired state ----------------------------------------------------------

#[test]
fn desired_state_is_loaded_by_name() {
    let listing = Listing {
        environments: vec![environment("prod", DesiredState::Running)],
        projects: vec![Stored {
            id: "prj_shop".into(),
            value: ProjectRecord { name: "shop".into(), source: None, created_at: 1 },
        }],
        memberships: vec![membership(DesiredState::Running, Some("dep_1"))],
        workloads: vec![workload("api", WorkloadKind::Service, "dep_1", vec![])],
        instances: vec![
            instance("ins_1", "api", "dep_1", InstanceState::Serving, vec![]),
            instance("ins_2", "api", "dep_0", InstanceState::Stopped, vec![]),
        ],
        traffic: vec![traffic("api", 20000, "dep_1", "ins_1")],
        domains: vec![domain("shop.example", "api")],
        dns_records: vec![],
        certificates: vec![],
        deployments: vec![deployment("dep_2", DeploymentStatus::Starting, Some("dep_1"))],
    };
    let mut desired = Desired::of(listing);
    assert_eq!(desired.environment("prod").unwrap().id, "env_prod");
    assert_eq!(desired.environment("env_prod").unwrap().value.name, "prod");
    assert!(desired.environment("dev").is_none());
    assert!(desired.traffic.at("prod/shop/api/http").is_some());
    assert!(desired.domains.at("shop.example").is_some());
    assert_eq!(desired.missing_deployments(), strings(&["dep_0", "dep_1"]));
    desired.add_deployment(deployment("dep_1", DeploymentStatus::Complete, None));
    assert_eq!(desired.missing_deployments(), strings(&["dep_0"]));
    assert_eq!(desired.missing_revisions(), strings(&["rev_1"]));
    assert_eq!(desired.in_flight().len(), 1);
    assert_eq!(resources_examined(&desired), 5);
    assert_eq!(in_flight_statuses().len(), 7);
}

#[test]
fn an_unreadable_state_keeps_the_last_snapshot() {
    let mut snapshot = Snapshot { desired: serving(), state_error: None };
    assert!(!snapshot.refresh(Err("timed out".into())));
    assert_eq!(snapshot.state_error.as_deref(), Some("timed out"));
    assert!(snapshot.desired.environment("prod").is_some());
    assert!(snapshot.refresh(Ok(nothing_desired())));
    assert_eq!(snapshot.state_error, None);
    assert!(snapshot.desired.environment("prod").is_none());
}

#[test]
fn instances_run_while_everything_above_them_does() {
    let desired = serving();
    let want = |state: InstanceState| desired.want(&instance("i", "api", "dep_1", state, vec![]).value);
    assert_eq!(want(InstanceState::Starting), Want::Run);
    assert_eq!(want(InstanceState::Ready), Want::Run);
    assert_eq!(want(InstanceState::Serving), Want::Run);
    assert_eq!(want(InstanceState::Draining), Want::KeepIfRunning);
    assert_eq!(want(InstanceState::Stopped), Want::Stop);
    assert_eq!(want(InstanceState::Failed), Want::Stop);
    let serves = instance("i", "api", "dep_1", InstanceState::Serving, vec![]).value;
    let mut stopped = serving();
    stopped.environments.insert("prod".into(), environment("prod", DesiredState::Stopped));
    assert_eq!(stopped.want(&serves), Want::Stop);
    let mut stopped = serving();
    stopped.memberships.insert(
        ("prod".into(), "shop".into()),
        membership(DesiredState::Stopped, Some("dep_1")),
    );
    assert_eq!(stopped.want(&serves), Want::Stop);
    let mut stopped = serving();
    let mut api = workload("api", WorkloadKind::Service, "dep_1", vec![]);
    api.value.desired_state = DesiredState::Stopped;
    stopped.workloads.insert(key("api"), api);
    assert_eq!(stopped.want(&serves), Want::Stop);
}

#[test]
fn siblings_do_not_stop_each_other() {
    let mut desired = serving();
    let mut web = workload("web", WorkloadKind::Service, "dep_1", vec![]);
    web.value.desired_state = DesiredState::Stopped;
    desired.workloads.insert(key("web"), web);
    let serves = instance("i", "api", "dep_1", InstanceState::Serving, vec![]).value;
    assert_eq!(desired.want(&serves), Want::Run);
    assert_eq!(desired.workloads_of("prod", "shop"), vec![0, 1]);
    assert_eq!(desired.instance(&key("api"), "dep_1").unwrap().id, "ins_1");
    assert!(desired.instance(&key("web"), "dep_1").is_none());
    assert_eq!(desired.revision_workload("dep_1", "api").unwrap().name, "api");
    assert!(desired.revision_workload("dep_9", "api").is_none());
}

// ---- Lifecycle --------------------------------------------------------------

fn definition(name: &str) -> EnvironmentDefinition {
    EnvironmentDefinition {
        name: name.into(),
        desired_state: DesiredState::Running,
        env: Config::new(),
        policy: None,
        provider: None,
    }
}

#[test]
fn environments_are_created_once() {
    let desired = serving();
    let plan =
        create_environment(&nothing_desired(), definition("prod"), None, true, "daemon_1", NOW).ok().unwrap();
    assert_eq!(plan.id, "env_a15d0fe5bf7657f0f7fd4d4f");
    assert_eq!(plan.record.created_at, NOW);
    assert_eq!(plan.notice.message, "Environment prod created");
    let refused = |definition: EnvironmentDefinition, policy: Option<Result<String, String>>, known: bool| {
        create_environment(&desired, definition, policy, known, "daemon_1", NOW)
            .err()
            .unwrap()
            .to_text()
    };
    assert_eq!(refused(definition("prod"), None, true), "conflict: environment prod already exists");
    assert_eq!(refused(definition("dev"), Some(Err("bad policy".into())), true), "invalid: bad policy");
    let mut pinned = definition("dev");
    pinned.provider = Some("moon".into());
    assert_eq!(
        refused(pinned, None, false),
        "invalid: provider moon is not in the daemon's pool"
    );
    assert!(refused(definition("Not A Name"), None, true).starts_with("invalid: "));
    let mut owned = definition("dev");
    owned.env.insert("COMPUTE_PORT_HTTP".into(), "1".into());
    assert!(refused(owned, None, true).starts_with("invalid: "));
}

#[test]
fn a_wish_changes_only_what_should_run() {
    let desired = serving();
    let mut record = environment("prod", DesiredState::Running).value;
    record.want(DesiredState::Stopped);
    assert_eq!(record.desired_state, DesiredState::Stopped);
    assert_eq!(record.name, "prod");
    let mut member = membership(DesiredState::Running, Some("dep_1")).value;
    member.want(DesiredState::Stopped, NOW + 9);
    assert_eq!(member.desired_state, DesiredState::Stopped);
    assert_eq!(member.updated_at, NOW + 9);
    assert_eq!(member.deployment_id.as_deref(), Some("dep_1"));
    let mut api = workload("api", WorkloadKind::Service, "dep_1", vec![]).value;
    api.want(DesiredState::Stopped);
    assert_eq!(api.desired_state, DesiredState::Stopped);
    assert_eq!(api.deployment_id, "dep_1");
    assert_eq!(desired.workloads.len(), 1);
}

#[test]
fn an_environment_with_a_domain_stays() {
    let mut desired = serving();
    let (id, removal) = destroy_environment(&desired, "env_prod").ok().unwrap();
    assert_eq!(id, "env_prod");
    assert_eq!(removal.memberships, vec![0]);
    assert_eq!(removal.workloads, vec![0]);
    assert_eq!(removal.instances, vec![0]);
    assert_eq!(removal.traffic, vec![0]);
    assert_eq!(removal.stop, vec![key("api"), key("api")]);
    assert_eq!(removal.notice.message, "Environment prod destroyed");
    assert!(matches!(&removal.notice.facts[0].value, Datum::Text(id) if id == "env_prod"));
    let (id, removal) = remove_project(&desired, "prod", "shop").ok().unwrap();
    assert_eq!(id, "mem_1");
    assert_eq!(removal.notice.message, "shop removed from prod");
    desired.domains.insert("shop.example".into(), domain("shop.example", "api"));
    assert_eq!(
        destroy_environment(&desired, "prod").err().unwrap().to_text(),
        "conflict: domain shop.example routes to prod; remove it first"
    );
    assert_eq!(
        remove_project(&desired, "prod", "shop").err().unwrap().to_text(),
        "conflict: domain shop.example routes to shop in prod; remove it first"
    );
    assert_eq!(
        destroy_environment(&desired, "dev").err().unwrap().to_text(),
        "not found: environment dev"
    );
    assert_eq!(
        remove_project(&desired, "prod", "blog").err().unwrap().to_text(),
        "not found: project blog in prod"
    );
}

#[test]
fn operations_go_by_key() {
    let mut desired = serving();
    let mut stray = workload("job", WorkloadKind::Service, "dep_1", vec![]);
    stray.value.environment = "dev".into();
    stray.value.project = "blog".into();
    desired.workloads.insert(key("zed"), stray);
    let (_, removal) = remove_project(&desired, "prod", "shop").ok().unwrap();
    assert_eq!(removal.workloads, vec![0, 1]);
    assert_eq!(removal.memberships, vec![0]);
    let change =
        set_project_state(&desired, "env_prod", "shop", DesiredState::Stopped, false).ok().unwrap();
    assert_eq!(change.keys, vec![key("api"), key("zed")]);
    let change = set_environment_state(&desired, "prod", DesiredState::Stopped, false).ok().unwrap();
    assert_eq!(change.keys, vec![key("api"), key("zed")]);
}

#[test]
fn removal_leaves_other_projects_alone() {
    let mut desired = serving();
    let mut blog = workload("api", WorkloadKind::Service, "dep_7", vec![]);
    blog.value.project = "blog".into();
    desired
        .workloads
        .insert(("prod".into(), "blog".into(), "api".into()), blog);
    let (_, removal) = remove_project(&desired, "prod", "shop").ok().unwrap();
    assert_eq!(removal.workloads, vec![1]);
    let mut runtime = units(vec![
        (unit("api", "dep_1"), running(1)),
        (
            Unit::new(&("prod".into(), "blog".into(), "api".into()), "dep_7"),
            running(1),
        ),
    ]);
    forget_units(&mut runtime, Coverage { environment: "prod", project: Some("shop") });
    assert_eq!(runtime.len(), 1);
    assert_eq!(runtime.key_at(0).key.1, "blog");
    forget_units(&mut runtime, Coverage { environment: "prod", project: None });
    assert_eq!(runtime.len(), 0);
}

#[test]
fn lifecycle_changes_say_what_they_do() {
    let desired = serving();
    assert_eq!(verb(DesiredState::Running, false), "started");
    assert_eq!(verb(DesiredState::Stopped, false), "stopped");
    assert_eq!(verb(DesiredState::Running, true), "restarted");
    let change = set_environment_state(&desired, "prod", DesiredState::Running, true).ok().unwrap();
    assert_eq!(change.notice.kind, EventKind::EnvironmentRestarted);
    assert_eq!(change.notice.message, "Environment prod restarted");
    assert_eq!(change.keys, vec![key("api")]);
    assert!(change.stop);
    assert!(change.release);
    let change =
        set_project_state(&desired, "prod", "shop", DesiredState::Stopped, false).ok().unwrap();
    assert_eq!(change.notice.kind, EventKind::ProjectStopped);
    assert_eq!(change.notice.message, "shop in prod stopped");
    assert_eq!(change.notice.facts[0].name, "desired_state");
    assert!(matches!(&change.notice.facts[0].value, Datum::Text(state) if state == "stopped"));
    assert_eq!(change.notice.scope.deployment_id.as_deref(), Some("dep_1"));
    assert!(!change.stop);
    assert!(!change.release);
    let change =
        set_workload_state(&desired, "prod", "shop", "api", DesiredState::Running, false).ok().unwrap();
    assert_eq!(change.id, "wl_api");
    assert_eq!(change.notice.message, "api started in prod/shop");
    let mut tasks = serving();
    tasks
        .workloads
        .insert(key("job"), workload("job", WorkloadKind::Task, "dep_1", vec![]));
    assert_eq!(
        set_workload_state(&tasks, "prod", "shop", "job", DesiredState::Running, false)
            .err()
            .unwrap()
            .to_text(),
        "invalid: job is a task; run it instead of starting or stopping it"
    );
    assert_eq!(
        workload_record(&tasks, "prod", "shop", "gone").err().unwrap().to_text(),
        "not found: workload gone in prod/shop"
    );
}

#[test]
fn an_explicit_start_releases_holds() {
    let mut held = running(1);
    held.held = true;
    held.consecutive_failures = 3;
    let mut other = running(1);
    other.held = true;
    let mut runtime = units(vec![(unit("api", "dep_1"), held), (unit("web", "dep_1"), other)]);
    release_holds(&mut runtime, &vec![key("api")]);
    let api = runtime.get(&unit("api", "dep_1")).unwrap();
    assert!(!api.held);
    assert_eq!(api.consecutive_failures, 0);
    assert!(runtime.get(&unit("web", "dep_1")).unwrap().held);
}

#[test]
fn shared_services_keep_when_they_were_created() {
    let service = |name: &str| ServiceDefinition {
        name: name.into(),
        capabilities: strings(&["kv"]),
        provider: "local".into(),
        environment: None,
        project: None,
        workload: None,
        endpoint: None,
        description: None,
    };
    let (first, notice) = register_service(service("cache"), true, None, 5).ok().unwrap();
    assert_eq!(notice.message, "Shared service cache registered");
    assert_eq!(first.created_at, 5);
    let (again, _) = register_service(service("cache"), true, Some(&first), 9).ok().unwrap();
    assert_eq!(again.created_at, 5);
    assert_eq!(again.updated_at, 9);
    assert_eq!(
        register_service(service("cache"), false, None, 5).err().unwrap().to_text(),
        "invalid: provider local is not in the daemon's pool"
    );
    assert_eq!(removed_service("cache").message, "Shared service cache removed");
}

// ---- Convergence ------------------------------------------------------------

#[test]
fn missing_instances_start_and_unwanted_units_stop() {
    let desired = serving();
    let nothing = units(vec![]);
    assert_eq!(converge(&desired, &nothing).to_start, vec![0]);
    let runs = units(vec![(unit("api", "dep_1"), running(1)), (unit("api", "dep_0"), running(1))]);
    let convergence = converge(&desired, &runs);
    assert_eq!(convergence.to_start, Vec::<usize>::new());
    assert_eq!(convergence.to_stop, vec![0]);
    assert_eq!(runs.key_at(0).deployment_id, "dep_0");
    let mut held = running(1);
    held.state = Some(ActualState::Failed);
    held.held = true;
    let failed = units(vec![(unit("api", "dep_1"), held)]);
    let convergence = converge(&desired, &failed);
    assert_eq!(convergence.to_start, Vec::<usize>::new());
    assert_eq!(convergence.to_stop, Vec::<usize>::new());
}

#[test]
fn a_draining_instance_is_kept_but_not_restarted() {
    let mut desired = serving();
    desired.instances.insert(
        "ins_1".into(),
        instance("ins_1", "api", "dep_1", InstanceState::Draining, vec![]),
    );
    let kept = converge(&desired, &units(vec![(unit("api", "dep_1"), running(1))]));
    assert_eq!(kept.to_stop, Vec::<usize>::new());
    let gone = converge(&desired, &units(vec![]));
    assert_eq!(gone.to_start, Vec::<usize>::new());
}

#[test]
fn units_are_remembered_while_something_runs_as_them() {
    let mut desired = serving();
    desired
        .workloads
        .insert(key("job"), workload("job", WorkloadKind::Task, "dep_1", vec![]));
    let mut ended = running(1);
    ended.state = Some(ActualState::Stopped);
    assert!(is_remembered(&desired, &unit("api", "dep_1"), &ended));
    assert!(is_remembered(&desired, &unit("job", "dep_1"), &ended));
    assert!(!is_remembered(&desired, &unit("api", "dep_0"), &ended));
    ended.state = Some(ActualState::Stopping);
    assert!(is_remembered(&desired, &unit("api", "dep_0"), &ended));
}

#[test]
fn endpoints_follow_their_assignments() {
    let desired = serving();
    let route = |instance: &str, port: u16| Route { instance_id: instance.into(), target_port: port };
    let followed = sync_endpoints(&desired, &vec![(20000, route("ins_1", 30000))]);
    assert_eq!(followed.assign, Vec::<usize>::new());
    assert_eq!(followed.keep, vec![20000]);
    assert!(!followed.stale);
    let moved = sync_endpoints(
        &desired,
        &vec![(20000, route("ins_0", 30000)), (20005, route("ins_5", 1))],
    );
    assert_eq!(moved.assign, vec![0]);
    assert!(moved.stale);
    assert_eq!(
        endpoint_error("prod/shop/api/http", 20000, "in use"),
        "endpoint prod/shop/api/http cannot listen on port 20000: in use"
    );
    let errors = vec![(20000, "in use".to_string()), (20001, "in use".to_string())];
    assert_eq!(appeared(&errors, &vec![(20000, "other".to_string())]), vec![1]);
}

#[test]
fn health_is_observed_and_reported() {
    let service = WorkloadKind::Service;
    let task = WorkloadKind::Task;
    let runs = ActualState::Running;
    assert_eq!(workload_health(service, runs, &vec![true, true]), Health::Healthy);
    assert_eq!(workload_health(service, runs, &vec![true, false]), Health::Unhealthy);
    assert_eq!(workload_health(service, ActualState::Starting, &vec![]), Health::Unknown);
    assert_eq!(workload_health(service, ActualState::Denied, &vec![]), Health::Unhealthy);
    assert_eq!(workload_health(task, ActualState::Completed, &vec![]), Health::Healthy);
    assert_eq!(workload_health(task, ActualState::Failed, &vec![]), Health::Unhealthy);
    assert_eq!(find_observed_state(None, task), ActualState::Pending);
    assert_eq!(find_observed_state(None, service), ActualState::Stopped);
    let healthy = Health::Healthy;
    assert_eq!(
        health_events(service, runs, None, healthy),
        vec![EventKind::ServiceStarted, EventKind::ServiceHealthy]
    );
    assert_eq!(
        health_events(service, runs, None, Health::Unhealthy),
        vec![EventKind::ServiceStarted]
    );
    assert_eq!(health_events(service, runs, Some(healthy), healthy), Vec::new());
    assert_eq!(
        health_events(service, runs, Some(healthy), Health::Unhealthy),
        vec![EventKind::ServiceUnhealthy]
    );
    assert_eq!(health_events(task, runs, None, healthy), Vec::new());
    assert_eq!(
        health_message(&key("api"), EventKind::ServiceUnhealthy),
        "api is unhealthy in prod/shop"
    );
    assert_eq!(health_message(&key("api"), EventKind::ServiceStarted), "api started in prod/shop");
    let ports = vec![PortBinding { name: "http".into(), logical: 8000, host: 20000 }];
    let api = workload("api", WorkloadKind::Service, "dep_1", ports);
    let notices = health_notices(&key("api"), &api.value, runs, None, healthy);
    assert_eq!(notices.len(), 2);
    assert_eq!(notices[0].scope.deployment_id.as_deref(), Some("dep_1"));
    assert!(
        matches!(&notices[0].facts[0].value, Datum::Ports(ports) if *ports == api.value.ports)
    );
    assert!(notices[1].facts.is_empty());
    let taken = endpoint_unavailable(20000, "in use".into());
    assert_eq!(taken.message, "in use");
    assert!(matches!(taken.facts[1].value, Datum::Number(20000)));
}

#[test]
fn a_status_is_written_when_it_changes() {
    let api = workload("api", WorkloadKind::Service, "dep_1", vec![]);
    let mut runtime = running(1);
    runtime.restarts = 2;
    let created = match observe(&key("api"), &api, Some(&runtime), Health::Healthy, None, "daemon_1", NOW) {
        StatusWrite::Create(status) => status,
        _ => panic!("nothing was stored"),
    };
    assert_eq!(created.actual_state, "running");
    assert_eq!(created.health, "healthy");
    assert_eq!(created.restarts, 2);
    assert_eq!(created.observed_at, NOW);
    assert!(matches!(
        observe(&key("api"), &api, Some(&runtime), Health::Healthy, Some(&created), "daemon_1", NOW + 1),
        StatusWrite::Unchanged
    ));
    match observe(&key("api"), &api, Some(&runtime), Health::Unhealthy, Some(&created), "daemon_1", NOW + 1) {
        StatusWrite::Replace(status) => {
            assert_eq!(status.health, "unhealthy");
            assert_eq!(status.observed_at, NOW + 1);
        }
        _ => panic!("its health changed"),
    }
}

// ---- Running ----------------------------------------------------------------

#[test]
fn configuration_is_layered() {
    let config = |entries: &[(&str, &str)]| {
        let mut config = Config::new();
        for (name, value) in entries {
            config.insert(name.to_string(), value.to_string());
        }
        config
    };
    let own = config(&[("A", "own"), ("B", "own"), ("C", "own")]);
    let environment = config(&[("B", "environment"), ("C", "environment")]);
    let project = config(&[("C", "project"), ("PORT", "1")]);
    let one = vec![binding("http-api", 8000, 30000)];
    let variables = run_environment(own, &environment, &project, &one);
    let value = |name: &str| variables.at(name).map(String::as_str);
    assert_eq!(value("A"), Some("own"));
    assert_eq!(value("B"), Some("environment"));
    assert_eq!(value("C"), Some("project"));
    assert_eq!(value("COMPUTE_PORT_HTTP_API"), Some("30000"));
    assert_eq!(value("PORT"), Some("30000"));
    let two = vec![binding("http", 8000, 30000), binding("admin", 9000, 30001)];
    let variables = run_environment(Config::new(), &Config::new(), &project, &two);
    assert_eq!(variables.at("PORT").map(String::as_str), Some("1"));
    assert_eq!(variables.at("COMPUTE_PORT_ADMIN").map(String::as_str), Some("30001"));
}

#[test]
fn a_unit_is_prepared_from_its_own_deployment() {
    let mut desired = serving();
    let target = prepare_unit(&desired, &unit("api", "dep_1")).ok().unwrap();
    assert_eq!(target.environment.id, "env_prod");
    assert_eq!(target.project_id, "prj_shop");
    assert_eq!(target.workload.bundle_id, "bundle_api");
    assert_eq!(target.ports, vec![binding("http", 8000, 30000)]);
    assert_eq!(target.config.at("MODE").map(String::as_str), Some("live"));
    let scope = receipt_scope(&target, "wl_api");
    assert_eq!(scope.environment, "prod");
    assert_eq!(scope.project, "shop");
    assert_eq!(scope.revision, "label-rev_1");
    assert_eq!(scope.workload_id, "wl_api");
    assert_eq!(scope.workload_kind, "service");
    let refused = |desired: &Desired, unit: Unit| prepare_unit(desired, &unit).err().unwrap().to_text();
    assert_eq!(
        refused(&desired, unit("gone", "dep_1")),
        "not found: workload gone in revision label-rev_1"
    );
    assert_eq!(refused(&desired, unit("api", "dep_9")), "not found: deployment dep_9");
    desired.revisions = Table::new();
    assert_eq!(refused(&desired, unit("api", "dep_1")), "not found: the revision of dep_1");
    desired.environments = Table::new();
    assert_eq!(refused(&desired, unit("api", "dep_1")), "not found: environment prod");
    assert_eq!(
        invalid_policy("prod", "bad").to_text(),
        "invalid: environment prod has an invalid policy: bad"
    );
}

fn report(selected: Option<Selected>) -> PlacementReport {
    PlacementReport {
        policy_id: "pol_1".into(),
        placement_id: "plc_1".into(),
        selected,
        failure: Some(PlacementFailure { code: "no_provider".into(), message: "none fits".into() }),
        providers: vec![],
    }
}

#[test]
fn services_run_on_their_own_node() {
    let remote = || {
        Some(Selected {
            provider_id: "far".into(),
            local: false,
            policy_id: "p".into(),
            admission_id: "a".into(),
        })
    };
    assert_eq!(dispatch(&report(remote()), false), Dispatch::Run);
    assert_eq!(
        dispatch(&report(remote()), true),
        Dispatch::Failed("services run on the daemon's own node; placement selected far".into())
    );
    assert_eq!(
        dispatch(&report(None), false),
        Dispatch::Denied("no_provider: none fits".into())
    );
    let decision = |admitted: bool| AdmissionDecision {
        admitted,
        policy_id: "p".into(),
        admission_id: "a".into(),
        reasons: strings(&["too big", "too loud"]),
    };
    assert_eq!(admission_refusal(&decision(true)), None);
    assert_eq!(admission_refusal(&decision(false)).as_deref(), Some("too big; too loud"));
    assert_eq!(receipt_warning(Some(Ok(()))), None);
    assert_eq!(receipt_warning(Some(Err("bad".into()))).as_deref(), Some("bad"));
    assert_eq!(receipt_warning(None).as_deref(), Some("execution returned no receipt"));
    assert_eq!(output_limit(WorkloadKind::Service, None), Some(1_048_576));
    assert_eq!(output_limit(WorkloadKind::Task, None), None);
    assert_eq!(output_limit(WorkloadKind::Service, Some(5)), Some(5));
    assert!(check_task(WorkloadKind::Task, "job").is_ok());
    assert_eq!(
        check_task(WorkloadKind::Service, "api").unwrap_err().to_text(),
        "invalid: api is a service; start it instead of running it"
    );
    assert_eq!(
        task_refusal(&None).to_text(),
        "admission denied: the task did not execute"
    );
    assert_eq!(task_refusal(&Some("no".into())).to_text(), "admission denied: no");
}

#[test]
fn a_failing_service_backs_off() {
    let mut runtime = running(1);
    let mut delays = Vec::new();
    for _ in 0..8 {
        delays.push(runtime.backoff(1_000, 0));
    }
    assert_eq!(delays, vec![1_000, 2_000, 4_000, 8_000, 16_000, 32_000, 60_000, 60_000]);
    assert_eq!(runtime.consecutive_failures, 8);
    assert_eq!(runtime.backoff(1_000, 60_000_000_001), 1_000);
    assert_eq!(runtime.consecutive_failures, 1);
    assert_eq!(runtime.backoff(u64::MAX, 60_000_000_000), 60_000);
}

#[test]
fn a_short_backoff_doubles_up_to_a_minute_too() {
    let mut runtime = running(1);
    runtime.consecutive_failures = 7;
    assert_eq!(runtime.backoff(100, 1_000_000_000), 12_800);
    assert_eq!(runtime.consecutive_failures, 8);
    assert_eq!(runtime.backoff(100, 0), 25_600);
    assert_eq!(runtime.backoff(100, 0), 51_200);
    assert_eq!(runtime.backoff(100, 0), 60_000);
    runtime.consecutive_failures = u32::MAX - 1;
    assert_eq!(runtime.backoff(1, 0), 60_000);
    runtime.consecutive_failures = 16;
    assert_eq!(runtime.backoff(1, 0), 60_000);
    runtime.consecutive_failures = 15;
    assert_eq!(runtime.backoff(1, 0), 32_768);
    assert_eq!(runtime.backoff(0, 0), 0);
}

fn invocation(service: bool, stopping: bool) -> Invocation {
    let mut invocation =
        invocation_of(&serving(), &unit("api", "dep_1"), 1, service, stopping, "wl_api", Some("dep_1".into()));
    invocation.restart = Some(RestartPolicy::OnFailure);
    invocation
}

fn executed(completed: bool, exit_code: Option<i32>) -> Outcome {
    Outcome::Executed(
        ExecutionResult {
            execution_id: "exe_1".into(),
            status: if completed { "completed" } else { "timeout" }.into(),
            completed,
            exit_code,
            error: None,
            admission: Some(AdmissionIds { policy_id: "p".into(), admission_id: "a".into() }),
            receipt_id: Some("rcp_1".into()),
        },
        None,
        PlacementView { placement_id: Some("plc_1".into()), provider: Some("local".into()), node: None },
    )
}

#[test]
fn an_invocation_knows_its_deployment() {
    let known = invocation_of(&serving(), &unit("api", "dep_1"), 3, true, false, "wl_api", None);
    assert_eq!(known.restart, Some(RestartPolicy::OnFailure));
    assert_eq!(known.environment_id, "env_prod");
    assert_eq!(known.workload_id, "wl_api");
    let gone = invocation_of(&serving(), &unit("api", "dep_9"), 3, true, false, "wl_api", None);
    assert_eq!(gone.restart, None);
    assert_eq!(gone.environment_id, "");
    assert_eq!(gone.workload_id, "");
}

#[test]
fn a_service_that_exits_is_held() {
    let mut runtime = running(1);
    let done = runtime
        .finish(&invocation(true, false), executed(true, Some(0)), 1_000, NOW + SECOND)
        .unwrap();
    assert_eq!(runtime.state, Some(ActualState::Stopped));
    assert!(runtime.held);
    assert_eq!(done.restart_after_ms, None);
    let event = done.event.unwrap();
    assert_eq!(event.kind, EventKind::ServiceStopped);
    assert_eq!(event.message, "api in prod/shop stopped");
    assert_eq!(event.scope.execution_id.as_deref(), Some("exe_1"));
    let record = done.execution.unwrap();
    assert_eq!(record.execution_id, "exe_1");
    assert_eq!(record.started_at, NOW);
    assert_eq!(record.finished_at, Some(NOW + SECOND));
    assert_eq!(record.placement_id.as_deref(), Some("plc_1"));
    assert_eq!(runtime.evidence.receipt_ids, strings(&["rcp_1"]));
    let receipt = receipt_record(&record, "rcp_1", Some("sha256:x".into()), NOW);
    assert_eq!(receipt.execution_id, "exe_1");
    assert_eq!(receipt.policy_id.as_deref(), Some("p"));
    assert_eq!(receipt.artifact_digest.as_deref(), Some("sha256:x"));
}

#[test]
fn a_service_that_fails_is_started_again() {
    let mut runtime = running(1);
    let done = runtime
        .finish(&invocation(true, false), executed(true, Some(3)), 1_000, NOW + SECOND)
        .unwrap();
    assert_eq!(runtime.state, Some(ActualState::Failed));
    assert_eq!(runtime.error.as_deref(), Some("exited with status 3"));
    assert_eq!(done.restart_after_ms, Some(1_000));
    assert_eq!(done.event.unwrap().message, "api in prod/shop failed: exited with status 3");
    assert!(runtime.retry(1));
    assert!(!runtime.held);
    assert_eq!(runtime.restarts, 1);
    assert!(!runtime.retry(2));
    let mut late = running(1);
    let done = late
        .finish(&invocation(true, false), executed(false, None), 1_000, NOW + SECOND)
        .unwrap();
    assert_eq!(late.error.as_deref(), Some("ended as timeout"));
    assert_eq!(done.event.unwrap().kind, EventKind::ServiceFailed);
}

#[test]
fn a_stopped_service_is_not_started_again() {
    let mut runtime = running(1);
    let done = runtime
        .finish(&invocation(true, true), executed(false, Some(137)), 1_000, NOW + SECOND)
        .unwrap();
    assert_eq!(runtime.state, Some(ActualState::Stopped));
    assert!(!runtime.held);
    assert_eq!(runtime.error, None);
    assert_eq!(done.restart_after_ms, None);
    assert_eq!(done.event.unwrap().kind, EventKind::ServiceStopped);
    let mut runtime = running(1);
    let done = runtime
        .finish(&invocation(true, true), Outcome::Failed("gone".into()), 1_000, NOW)
        .unwrap();
    assert!(done.event.is_none());
    assert_eq!(runtime.state, Some(ActualState::Stopped));
}

#[test]
fn a_denied_workload_does_not_run() {
    let mut runtime = running(1);
    let denial = Outcome::Denied(
        "too big".into(),
        Some(AdmissionIds { policy_id: "p".into(), admission_id: "a".into() }),
    );
    let done = runtime.finish(&invocation(false, false), denial, 1_000, NOW).unwrap();
    assert_eq!(runtime.state, Some(ActualState::Denied));
    assert!(runtime.held);
    assert_eq!(runtime.evidence.admission_id.as_deref(), Some("a"));
    assert!(done.execution.is_none());
    let event = done.event.unwrap();
    assert_eq!(event.kind, EventKind::TaskDenied);
    assert_eq!(event.message, "api in prod/shop was denied: too big");
}

#[test]
fn a_superseded_invocation_changes_nothing() {
    let mut runtime = running(2);
    assert!(runtime.finish(&invocation(true, false), executed(true, Some(0)), 1_000, NOW).is_none());
    assert_eq!(runtime.state, Some(ActualState::Running));
    let mut task = running(1);
    let left = collect_unit(NOW - SECOND, &invocation(true, false), executed(false, Some(3)), NOW);
    let record = left.execution.unwrap();
    assert_eq!(record.started_at, NOW - SECOND);
    assert_eq!(record.exit_code, Some(3));
    assert_eq!(left.event.unwrap().kind, EventKind::ServiceFailed);
    assert_eq!(left.restart_after_ms, None);
    let done = task.finish(&invocation(false, false), executed(true, None), 1_000, NOW).unwrap();
    assert_eq!(task.state, Some(ActualState::Completed));
    assert_eq!(done.event.unwrap().message, "api in prod/shop completed");
    assert!(!task.held);
}

#[test]
fn units_start_run_and_stop() {
    let mut runtime = WorkloadRuntime::new();
    assert!(!active(runtime.state));
    assert_eq!(runtime.start("dep_1".into(), "/logs".into(), NOW), 1);
    assert_eq!(runtime.state, Some(ActualState::Starting));
    let ids = || AdmissionIds { policy_id: "p".into(), admission_id: "a".into() };
    let placement = || PlacementView { placement_id: None, provider: Some("local".into()), node: None };
    assert!(runtime.admitted(1, true, ids(), placement(), NOW));
    assert_eq!(runtime.state, Some(ActualState::Starting));
    assert!(!runtime.admitted(0, true, ids(), placement(), NOW));
    assert!(!runtime.admitted(1, false, ids(), placement(), NOW + 1));
    assert_eq!(runtime.state, Some(ActualState::Running));
    assert_eq!(runtime.running_since, Some(NOW + 1));
    assert!(runtime.stop());
    assert!(!runtime.stop());
    runtime.stopped(false);
    assert_eq!(runtime.state, Some(ActualState::Stopped));
    assert_eq!(runtime.error.as_deref(), Some("service did not stop within 30s"));
    assert_eq!(runtime.run(NOW + 2), 2);
    assert_eq!(runtime.state, Some(ActualState::Running));
}

#[test]
fn memory_of_the_past_is_bounded() {
    let mut receipts = strings(&["a", "b"]);
    remember(&mut receipts, "c".into(), 2);
    assert_eq!(receipts, strings(&["b", "c"]));
    let many: Vec<String> = (0..40).map(|n| format!("r{n}")).collect();
    let kept = deployment_receipts(&many, "last");
    assert_eq!(kept.len(), 32);
    assert_eq!(kept[0], "r9");
    assert_eq!(kept[31], "last");
    let mut outputs = Table::new();
    for n in 0..300 {
        remember_output(&mut outputs, format!("exe_{n:03}"), "out".into(), "err".into());
    }
    assert_eq!(outputs.len(), 256);
    assert!(outputs.at("exe_043").is_none());
    assert!(outputs.at("exe_044").is_some());
}

fn execution(id: &str, status: &str) -> ExecutionRecord {
    ExecutionRecord {
        execution_id: id.into(),
        environment_id: "env_prod".into(),
        environment: "prod".into(),
        project_id: "prj_shop".into(),
        project: "shop".into(),
        workload_id: "wl_api".into(),
        workload: "api".into(),
        kind: WorkloadKind::Task,
        deployment_id: None,
        status: status.into(),
        exit_code: Some(0),
        started_at: NOW,
        finished_at: Some(NOW),
        receipt_id: None,
        policy_id: None,
        admission_id: None,
        placement_id: None,
        provider: None,
        error: None,
    }
}

#[test]
fn ended_executions_are_found() {
    let mut log = TerminalLog::new();
    assert!(log.get("exe_0").is_none());
    log.insert(execution("exe_0", "completed"));
    log.insert(execution("exe_0", "failed"));
    assert_eq!(log.get("exe_0").unwrap().status, "failed");
    let pending = vec![execution("exe_9", "completed")];
    assert_eq!(local_execution(&log, &pending, "exe_9").unwrap().execution_id, "exe_9");
    assert_eq!(local_execution(&log, &pending, "exe_0").unwrap().status, "failed");
    assert!(local_execution(&log, &pending, "exe_5").is_none());
    for n in 1..=CAPACITY {
        log.insert(execution(&format!("exe_{n}"), "completed"));
    }
    assert!(log.get("exe_0").is_none());
    assert!(log.get("exe_1").is_some());
}

// ---- Views ------------------------------------------------------------------

#[test]
fn parents_show_their_children() {
    let child = |desired: DesiredState, actual: ActualState| Child { desired, actual };
    let runs = DesiredState::Running;
    let stops = DesiredState::Stopped;
    let shown = |desired: DesiredState, states: &[(DesiredState, ActualState)]| {
        aggregate(desired, &states.iter().map(|(d, a)| child(*d, *a)).collect())
    };
    let up = (runs, ActualState::Running);
    let failed = (runs, ActualState::Failed);
    assert_eq!(shown(runs, &[]), ActualState::Running);
    assert_eq!(shown(runs, &[up, up]), ActualState::Running);
    assert_eq!(shown(runs, &[up, (stops, ActualState::Failed)]), ActualState::Running);
    assert_eq!(
        shown(runs, &[(runs, ActualState::Starting), (runs, ActualState::Pending)]),
        ActualState::Starting
    );
    assert_eq!(shown(runs, &[failed, (runs, ActualState::Denied)]), ActualState::Failed);
    assert_eq!(shown(runs, &[up, failed]), ActualState::Degraded);
    assert_eq!(shown(stops, &[up]), ActualState::Stopping);
    assert_eq!(shown(stops, &[failed]), ActualState::Stopped);
    let healthy = Health::Healthy;
    assert_eq!(combine_health(&vec![]), Health::Healthy);
    assert_eq!(combine_health(&vec![healthy, Health::Unknown]), Health::Unknown);
    assert_eq!(
        combine_health(&vec![healthy, Health::Unknown, Health::Unhealthy]),
        Health::Unhealthy
    );
}

fn sight(accepts: Vec<bool>) -> WorkloadSight {
    WorkloadSight {
        accepts,
        declared: Some(Declared {
            memory_bytes: Some(64),
            wall_time_ms: None,
            network: "none".into(),
        }),
        disk_bytes: 7,
    }
}

#[test]
fn environments_are_shown_with_what_runs() {
    let mut desired = serving();
    desired
        .workloads
        .insert(key("job"), workload("job", WorkloadKind::Task, "dep_1", vec![]));
    desired.projects.insert(
        "shop".into(),
        Stored {
            id: "prj_shop".into(),
            value: ProjectRecord { name: "shop".into(), source: Some("git".into()), created_at: 3 },
        },
    );
    let runtime = units(vec![(unit("api", "dep_1"), running(1))]);
    let api = workload_view(&desired, &runtime, &key("api"), &sight(vec![false])).ok().unwrap();
    assert_eq!(api.actual_state, ActualState::Running);
    assert_eq!(api.health, Health::Unhealthy);
    assert_eq!(api.resources.cpu, "not_measured");
    assert_eq!(api.resources.memory_limit_bytes, Some(64));
    assert_eq!(api.resources.disk_bytes, 7);
    let job = workload_view(&desired, &runtime, &key("job"), &sight(vec![])).ok().unwrap();
    assert_eq!(job.actual_state, ActualState::Pending);
    assert_eq!(job.health, Health::Healthy);
    assert_eq!(
        workload_view(&desired, &runtime, &key("gone"), &sight(vec![]))
            .err()
            .unwrap()
            .to_text(),
        "not found: workload gone in prod/shop"
    );
    let project = project_view(&desired, "prod", "shop", vec![api, job], 9).ok().unwrap();
    assert_eq!(project.actual_state, ActualState::Running);
    assert_eq!(project.health, Health::Unhealthy);
    assert_eq!(project.workload_count, 2);
    assert_eq!(project.service_count, 1);
    assert_eq!(project.provider, "local");
    assert_eq!(project.revision, "label-rev_1");
    assert_eq!(project.deployment.as_ref().unwrap().deployment_id, "dep_1");
    assert_eq!(project.deployed_at, NOW);
    let view =
        environment_view(desired.environment("prod").unwrap(), vec![project], "pol_1", 11);
    assert_eq!(view.version, "compute.environment@1");
    assert_eq!(view.actual_state, ActualState::Running);
    assert_eq!(view.project_count, 1);
    assert_eq!(view.workload_count, 2);
    assert_eq!(view.policy_id, "pol_1");
    let row = environment_summary(view);
    assert_eq!(row.provider, "local");
    assert_eq!(row.service_count, 1);
    assert_eq!(
        project_view(&desired, "prod", "blog", vec![], 0).err().unwrap().to_text(),
        "not found: project blog in prod"
    );
    assert_eq!(
        workload_artifact(&desired, &key("api")).as_deref(),
        Some("sha256:api")
    );
    assert_eq!(workload_artifact(&desired, &key("gone")), None);
    let placed = placement_of(project_view(&desired, "prod", "shop", vec![], 0).ok().unwrap());
    assert_eq!(placed.environment, "prod");
    let revisions = vec![revision_view("rev_1".into(), revision("rev_1", vec![]).value)];
    let summary = project_summary(&desired, "shop", &revisions, vec![placed]).ok().unwrap();
    assert_eq!(summary.latest_revision.as_deref(), Some("label-rev_1"));
    assert_eq!(summary.revision_count, 1);
    assert_eq!(summary.environments.len(), 1);
    assert_eq!(
        project_summary(&desired, "blog", &revisions, vec![]).err().unwrap().to_text(),
        "not found: project blog"
    );
}

#[test]
fn a_daemon_reports_how_it_stands() {
    let desired = serving();
    let mut starting = running(1);
    starting.state = Some(ActualState::Starting);
    let runtime = units(vec![
        (unit("api", "dep_1"), running(1)),
        (unit("web", "dep_1"), starting),
    ]);
    assert_eq!(running_services(&runtime), 1);
    let status = daemon_status(
        "1.0",
        "daemon_1",
        7,
        NOW,
        &DaemonConfig::new("/state".into()),
        "db:1",
        "/artifacts",
        &Some("timed out".into()),
        None,
        &desired,
        &runtime,
    );
    assert!(!status.state_available);
    assert_eq!(status.environments, 1);
    assert_eq!(status.running_services, 1);
    assert_eq!(status.state_dir, "/state");
    assert_eq!(status.state, "db:1");
    let seen = instance_view(
        &runtime,
        instance("ins_1", "api", "dep_1", InstanceState::Serving, vec![]),
        4,
    );
    assert_eq!(seen.actual_state, Some(ActualState::Running));
    assert_eq!(seen.open_connections, 4);
}

#[test]
fn receipts_and_logs_are_found() {
    let mut release = deployment("dep_1", DeploymentStatus::Complete, None);
    assert_eq!(
        deployment_receipt(&release).unwrap_err().to_text(),
        "not found: a receipt for dep_1; one is written when the release ends"
    );
    release.value.receipt = Some("sha256:r".into());
    assert_eq!(deployment_receipt(&release).unwrap(), "sha256:r");
    assert_eq!(receipt_document("rcp", &Some("sha256:d".into())).unwrap(), "sha256:d");
    assert_eq!(
        receipt_document("rcp", &None).unwrap_err().to_text(),
        "not found: the receipt document of rcp"
    );
    assert_eq!(missing_receipt("sha256:d").to_text(), "not found: receipt artifact sha256:d");
    assert_eq!(log_start(10), 0);
    assert_eq!(log_start(65_536), 0);
    assert_eq!(log_start(65_537), 1);
}

fn event(sequence: u64, project: Option<&str>) -> EventRecord {
    EventRecord {
        sequence,
        kind: EventKind::ServiceStarted,
        at: NOW,
        scope: match project {
            Some(project) => Scope::project("prod", project),
            None => Scope::environment("prod"),
        },
        message: "m".into(),
        data: EventData::Null,
    }
}

#[test]
fn events_are_filtered_and_arranged() {
    let mut filter = EventFilter::everything();
    assert_eq!(filter.query().limit, 200);
    assert!(!filter.query().ascending);
    assert!(filter.selects(&event(1, None)));
    let sequences =
        |events: Vec<EventRecord>| events.iter().map(|event| event.sequence).collect::<Vec<u64>>();
    assert_eq!(sequences(filter.arrange(vec![event(3, None), event(2, None)])), vec![2, 3]);
    filter.after = Some(2);
    filter.limit = Some(5_000);
    filter.project = Some("shop".into());
    assert_eq!(filter.query().limit, 1_000);
    assert!(filter.query().ascending);
    assert!(filter.selects(&event(3, Some("shop"))));
    assert!(!filter.selects(&event(2, Some("shop"))));
    assert!(!filter.selects(&event(3, Some("blog"))));
    assert!(!filter.selects(&event(3, None)));
    assert_eq!(sequences(filter.arrange(vec![event(3, None), event(4, None)])), vec![3, 4]);
}

#[test]
fn units_of_named_workloads_stop() {
    let mut table = units(vec![
        (unit("api", "dep_1"), running(1)),
        (unit("api", "dep_2"), running(2)),
        (unit("web", "dep_1"), running(3)),
    ]);
    let mut held = running(4);
    held.state = Some(ActualState::Failed);
    table.insert(unit("job", "dep_1"), held);
    let named = units_of(&table, &vec![key("api"), key("job")]);
    assert_eq!(named.len(), 3);
    let stopping = stop_units(&mut table, &named);
    assert_eq!(stopping.len(), 2);
    let of = |name: &str, release: &str| table.get(&unit(name, release)).unwrap();
    assert_eq!(of("api", "dep_1").state, Some(ActualState::Stopping));
    assert_eq!(of("api", "dep_2").state, Some(ActualState::Stopping));
    assert_eq!(of("web", "dep_1").state, Some(ActualState::Running));
    assert_eq!(of("job", "dep_1").state, Some(ActualState::Failed));
}

#[test]
fn ended_units_are_forgotten() {
    let desired = serving();
    let mut ended = running(1);
    ended.state = Some(ActualState::Stopped);
    let mut old = running(2);
    old.state = Some(ActualState::Stopped);
    let mut table = units(vec![
        (unit("api", "dep_1"), ended),
        (unit("api", "dep_0"), old),
        (unit("web", "dep_0"), running(3)),
    ]);
    forget_ended(&desired, &mut table);
    assert!(table.get(&unit("api", "dep_1")).is_some());
    assert!(table.get(&unit("api", "dep_0")).is_none());
    assert!(table.get(&unit("web", "dep_0")).is_some());
}

#[test]
fn health_is_noted_of_what_runs() {
    let mut runtime = running(1);
    runtime.note_health(ActualState::Running, Health::Unhealthy);
    assert_eq!(runtime.health, Some(Health::Unhealthy));
    runtime.note_health(ActualState::Stopped, Health::Unknown);
    assert_eq!(runtime.health, None);
}

#[test]
fn a_refusal_is_no_failure() {
    let chosen = report(Some(Selected {
        provider_id: "far".into(),
        local: false,
        policy_id: "p".into(),
        admission_id: "a".into(),
    }));
    let place = placement_view(&chosen, "node_7").unwrap();
    assert_eq!(place.placement_id.as_deref(), Some("plc_1"));
    assert_eq!(place.provider.as_deref(), Some("far"));
    assert_eq!(place.node.as_deref(), Some("node_7"));
    assert!(placement_view(&report(None), "node_7").is_none());
    let ids = AdmissionIds { policy_id: "p".into(), admission_id: "a".into() };
    assert!(matches!(
        provider_failure("no".into(), Some(ids)),
        Outcome::Denied(message, Some(_)) if message == "no"
    ));
    assert!(matches!(
        provider_failure("broken".into(), None),
        Outcome::Failed(message) if message == "broken"
    ));
    assert!(matches!(
        never_started(),
        Outcome::Failed(message) if message == "stopped before starting"
    ));
}

#[test]
fn revisions_are_read_once() {
    let mut desired = serving();
    desired.revisions = Table::new();
    let mut known = Table::new();
    known.insert("rev_1".to_string(), revision("rev_1", vec![]).value);
    known.insert("rev_0".to_string(), revision("rev_0", vec![]).value);
    assert_eq!(desired.missing_revisions(), strings(&["rev_1"]));
    desired.reuse_revisions(known);
    assert_eq!(desired.revisions.len(), 1);
    assert!(desired.missing_revisions().is_empty());
}

#[test]
fn places_are_listed_by_name() {
    let desired = serving();
    assert_eq!(projects_in(&desired, "prod"), strings(&["shop"]));
    assert!(projects_in(&desired, "dev").is_empty());
    assert_eq!(environments_of(&desired, "shop"), strings(&["prod"]));
    assert!(environments_of(&desired, "blog").is_empty());
    assert_eq!(environment_reference(&desired, "prod".into()), "env_prod");
    assert_eq!(environment_reference(&desired, "env_9".into()), "env_9");
}

#[test]
fn a_release_is_shown_with_its_instances() {
    let table = units(vec![(unit("api", "dep_1"), running(1))]);
    let shown = deployment_view(
        &table,
        deployment("dep_1", DeploymentStatus::Active, None),
        vec![
            instance("ins_1", "api", "dep_1", InstanceState::Serving, vec![]),
            instance("ins_2", "web", "dep_1", InstanceState::Starting, vec![]),
        ],
        &vec![4],
    );
    assert_eq!(shown.deployment_id, "dep_1");
    assert_eq!(shown.instances.len(), 2);
    assert_eq!(shown.instances[0].instance_id, "ins_1");
    assert_eq!(shown.instances[0].actual_state, Some(ActualState::Running));
    assert_eq!(shown.instances[0].open_connections, 4);
    assert_eq!(shown.instances[1].actual_state, None);
    assert_eq!(shown.instances[1].open_connections, 0);
    let mut desired = serving();
    desired.projects.insert(
        "shop".into(),
        Stored {
            id: "prj_shop".into(),
            value: ProjectRecord { name: "shop".into(), source: None, created_at: 3 },
        },
    );
    let summary = project_summary(&desired, "shop", &vec![], vec![]).ok().unwrap();
    let detail = project_detail(summary, vec![], vec![shown]);
    assert_eq!(detail.summary.name, "shop");
    assert_eq!(detail.deployments.len(), 1);
}

#[test]
fn output_is_found_where_it_is_kept() {
    let mut outputs = Table::new();
    remember_output(&mut outputs, "exe_1".into(), "out".into(), "err".into());
    let shown = execution_view(execution("exe_1", "completed"), &outputs);
    assert_eq!((shown.stdout.as_str(), shown.stderr.as_str()), ("out", "err"));
    let forgotten = execution_view(execution("exe_0", "completed"), &outputs);
    assert_eq!((forgotten.stdout.as_str(), forgotten.stderr.as_str()), ("", ""));
    let desired = serving();
    let none = Table::new();
    let mut view = workload_view(&desired, &none, &key("api"), &sight(vec![])).ok().unwrap();
    assert_eq!(log_source(&view, &outputs), LogSource::Nothing);
    view.execution_id = Some("exe_1".into());
    assert_eq!(log_source(&view, &outputs), LogSource::Output("out".into(), "err".into()));
    view.log_directory = Some("/logs".into());
    assert_eq!(log_source(&view, &outputs), LogSource::Directory("/logs".into()));
}

#[test]
fn lists_are_asked_newest_first() {
    let desired = serving();
    let releases =
        queries::deployments(&desired, Some("prod".into()), Some("prj_shop".into()), Some(5));
    assert_eq!(
        releases.equal,
        vec![
            (Field::EnvironmentId, "env_prod".to_string()),
            (Field::ProjectId, "prj_shop".to_string()),
        ]
    );
    assert_eq!((releases.order, releases.descending), (Field::CreatedAt, true));
    assert_eq!(releases.limit, Some(5));
    let all = queries::deployments(&desired, None, None, None);
    assert!(all.equal.is_empty());
    assert_eq!(all.limit, None);
    let executions = queries::executions(&desired, "prod", "shop", 3).ok().unwrap();
    assert_eq!(executions.order.as_str(), "started_at");
    assert_eq!(
        executions.equal,
        vec![
            (Field::ProjectId, "prj_shop".to_string()),
            (Field::EnvironmentId, "env_prod".to_string()),
        ]
    );
    let receipts = queries::receipts(&desired, "prod", "shop", 3).ok().unwrap();
    assert_eq!(receipts.order, Field::CreatedAt);
    assert_eq!(
        queries::receipts(&desired, "prod", "blog", 3).err().unwrap().to_text(),
        "not found: project blog in prod"
    );
    let audit = queries::audit_records(Some("ada".into()), 10);
    assert_eq!(audit.equal, vec![(Field::OperatorId, "ada".to_string())]);
    assert_eq!((audit.order, audit.limit), (Field::At, Some(10)));
    assert!(queries::audit_records(None, 10).equal.is_empty());
    assert_eq!(queries::revisions("prj_shop".into()).limit, None);
    assert_eq!(queries::services().order.as_str(), "name");
    assert!(!queries::providers().descending);
}

#[test]
fn policies_apply_from_the_node_inwards() {
    let both = policy_sources("prod", Some("node"), Some(Ok("own"))).ok().unwrap();
    assert_eq!(
        both,
        vec![(PolicySourceKind::Local, "node"), (PolicySourceKind::Environment, "own")]
    );
    assert!(policy_sources::<u8>("prod", None, None).ok().unwrap().is_empty());
    assert_eq!(
        policy_sources("prod", Some("node"), Some(Err("no version".into())))
            .err()
            .unwrap()
            .to_text(),
        "invalid: environment prod has an invalid policy: no version"
    );
}

#[test]
fn long_limits_are_told_as_the_longest() {
    let short = declare(Some(1), Some(5_000), "none".into());
    assert_eq!(short.wall_time_ms, Some(5_000));
    let long = declare(None, Some(u128::MAX), "none".into());
    assert_eq!(long.wall_time_ms, Some(u64::MAX));
    assert_eq!(declare(None, None, "none".into()).wall_time_ms, None);
}
