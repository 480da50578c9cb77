use compute_environment::applications::{
    artifact_evidence,
    application_deployments, application_release, application_revision, application_source,
    application_url, application_view, applications_environment, find_version, host_literal,
    no_application, node_url, parse_version, required_env, rollback_application, unless_missing,
    unless_taken, url_host, Address, ApplicationDeploymentState,
    ApplicationHost, ApplicationRequest, ApplicationSource, ArtifactManifest, VersionRecord,
};
use compute_environment::error::EnvironmentError;
use compute_environment::model::{
    ActualState, Config, DesiredState, PortBinding, ReadinessCheck, RestartPolicy, WorkloadKind,
};
use compute_environment::state::{
    ApplicationArtifactEvidence, DeploymentRecord, DeploymentStatus, DeploymentWorkload,
};
use compute_environment::status::{DeploymentSummary, Health, ProjectView};

fn artifact(id: &str) -> ApplicationArtifactEvidence {
    ApplicationArtifactEvidence {
        artifact_id: id.into(),
        url: None,
        version: None,
        capabilities: vec![],
    }
}

fn version(number: u64, status: DeploymentStatus, revision: &str) -> VersionRecord {
    VersionRecord {
        deployment_id: format!("dep_{number}"),
        record: DeploymentRecord {
            environment_id: "env_1".into(),
            environment: "applications".into(),
            project_id: "prj_1".into(),
            project: "blog".into(),
            version: number,
            revision_id: revision.into(),
            revision: revision.into(),
            revision_digest: "sha256:x".into(),
            status,
            promoted_from: None,
            previous: None,
            workloads: vec![DeploymentWorkload {
                name: "app".into(),
                kind: WorkloadKind::Service,
                bundle_id: "bundle".into(),
                artifact: "sha256:b".into(),
                runtime: "python".into(),
                runtime_version: Some("3".into()),
                resolved_runtime_version: Some("3.12".into()),
                distribution: None,
                admitted: true,
                policy_id: None,
                admission_id: None,
                placement_id: None,
                provider: None,
                reasons: vec![],
                endpoints: vec![PortBinding { name: "http".into(), logical: 80, host: 20001 }],
                pool_placement: Some("plc".into()),
                application_artifact: Some(artifact("art")),
            }],
            failure: None,
            receipt_ids: vec!["rcp".into()],
            old_revision: None,
            config_digest: None,
            config: Config::new(),
            readiness_result: None,
            network_result: None,
            traffic_switch_result: None,
            rollback_reason: Some("slow".into()),
            receipt: None,
            status_since: None,
            completed_at: None,
            created_at: 1,
            updated_at: 1,
        },
    }
}

fn project(current: Option<&str>, desired_state: DesiredState) -> ProjectView {
    ProjectView {
        project_id: "prj_1".into(),
        name: "blog".into(),
        environment: "applications".into(),
        environment_id: "env_1".into(),
        revision: "r".into(),
        revision_id: "rev".into(),
        revision_digest: "sha256:x".into(),
        source: None,
        desired_state,
        actual_state: ActualState::Running,
        health: Health::Healthy,
        deployment: current.map(|id| DeploymentSummary {
            deployment_id: id.into(),
            version: 1,
            status: DeploymentStatus::Complete,
            revision: "r".into(),
            created_at: 1,
            updated_at: 1,
            promoted_from: None,
        }),
        deployed_at: 1,
        config: Config::new(),
        workload_count: 1,
        service_count: 1,
        provider: "local".into(),
        workloads: vec![],
        disk_bytes: 0,
    }
}

fn host() -> ApplicationHost {
    ApplicationHost {
        host: Some("apps.example".into()),
        address: Address::V4 { text: "0.0.0.0".into(), unspecified: true },
        public_url: None,
    }
}

#[test]
fn versions_and_hosts_parse() {
    assert_eq!(parse_version("v3"), Some(3));
    assert_eq!(parse_version("3"), Some(3));
    assert_eq!(parse_version("dep_abc"), None);
    assert_eq!(
        url_host("http://10.0.0.20:8787").as_deref(),
        Some("10.0.0.20")
    );
    assert_eq!(url_host("https://[::1]:8787/").as_deref(), Some("[::1]"));
    assert_eq!(
        url_host("http://node.example").as_deref(),
        Some("node.example")
    );
}

#[test]
fn url_hosts_are_recovered() {
    let addresses = [
        Address::V4 { text: "10.0.0.20".into(), unspecified: false },
        Address::V6 { text: "fe80::1".into(), unspecified: false },
        Address::V6 { text: "::ffff:10.0.0.1".into(), unspecified: false },
        Address::V6 { text: "::".into(), unspecified: true },
    ];
    for address in &addresses {
        let host = host_literal(address);
        for path in ["", "/", "/a:b/[c]", "/x://y"] {
            for scheme in ["http", "https"] {
                for port in [0u16, 80, 65535] {
                    let url = format!("{scheme}://{host}:{port}{path}");
                    assert_eq!(url_host(&url), Some(host.clone()));
                }
            }
        }
    }
}

#[test]
fn odd_versions_and_hosts_are_refused() {
    assert_eq!(parse_version("18446744073709551615"), Some(u64::MAX));
    assert_eq!(parse_version("18446744073709551616"), None);
    assert_eq!(parse_version("+7"), Some(7));
    assert_eq!(parse_version("-7"), None);
    assert_eq!(parse_version("v"), None);
    assert_eq!(parse_version(""), None);
    assert_eq!(parse_version("vv3"), None);
    assert_eq!(url_host("http://"), None);
    assert_eq!(url_host("http://[::1"), None);
    assert_eq!(url_host("host:80/path").as_deref(), Some("host"));
    assert_eq!(url_host(":80"), None);
}

#[test]
fn applications_have_an_address() {
    assert_eq!(application_url(&host(), 20001), "http://apps.example:20001");
    let mut node = host();
    node.host = None;
    assert_eq!(application_url(&node, 1), "http://127.0.0.1:1");
    node.public_url = Some("https://node.example:8787/".into());
    assert_eq!(application_url(&node, 1), "http://node.example:1");
    node.address = Address::V6 { text: "fe80::1".into(), unspecified: false };
    assert_eq!(application_url(&node, 1), "http://[fe80::1]:1");
    assert_eq!(host_literal(&Address::V4 { text: "10.0.0.1".into(), unspecified: false }), "10.0.0.1");
}

#[test]
fn versions_stand_in_product_terms() {
    let versions = vec![
        version(5, DeploymentStatus::Starting, "rev_a"),
        version(4, DeploymentStatus::Failed, "rev_d"),
        version(3, DeploymentStatus::RolledBack, "rev_c"),
        version(2, DeploymentStatus::Complete, "rev_b"),
        version(1, DeploymentStatus::Complete, "rev_a"),
    ];
    let views = application_deployments("blog", &project(Some("dep_2"), DesiredState::Running), &versions, &host());
    let states: Vec<ApplicationDeploymentState> = views.iter().map(|view| view.state).collect();
    assert_eq!(
        states,
        vec![
            ApplicationDeploymentState::Deploying,
            ApplicationDeploymentState::Failed,
            ApplicationDeploymentState::RolledBack,
            ApplicationDeploymentState::Active,
            ApplicationDeploymentState::Superseded,
        ]
    );
    assert_eq!(views[0].rollback_of, Some(1));
    assert_eq!(views[1].rollback_of, None);
    assert_eq!(views[0].endpoint.as_deref(), Some("http://apps.example:20001"));
    assert_eq!(views[0].runtime_version.as_deref(), Some("3.12"));
    assert_eq!(views[0].failure.as_deref(), Some("slow"));
    assert_eq!(views.iter().filter(|view| view.active).count(), 1);
    assert_eq!(find_version("blog", &views, "v4").ok().unwrap().version, 4);
    assert_eq!(find_version("blog", &views, "dep_3").ok().unwrap().version, 3);
    assert_eq!(
        find_version("blog", &views, "v9").err().unwrap().to_text(),
        "not found: blog v9"
    );
    let stopped = application_deployments("blog", &project(Some("dep_2"), DesiredState::Stopped), &versions, &host());
    assert_eq!(stopped[3].state, ApplicationDeploymentState::Stopped);
    let view = application_view("blog", "node_1", ActualState::Running, views);
    assert_eq!(view.status, "running");
    assert_eq!(view.active, Some(3));
    assert_eq!(view.deploying, Some(0));
    let first = application_deployments("blog", &project(None, DesiredState::Running), &versions, &host());
    let view = application_view("blog", "node_1", ActualState::Stopped, first);
    assert_eq!(view.status, "deploying");
    assert_eq!(view.endpoint.as_deref(), Some("http://apps.example:20001"));
    assert_eq!(
        no_application("blog").to_text(),
        "not found: application blog is not deployed on this node"
    );
}

#[test]
fn a_rollback_releases_an_earlier_version_again() {
    let versions = vec![
        version(2, DeploymentStatus::Failed, "rev_b"),
        version(1, DeploymentStatus::Complete, "rev_a"),
    ];
    let request = rollback_application("blog", "v1", Some("plc".into()), &versions).ok().unwrap();
    assert_eq!(request.revision.as_deref(), Some("rev_a"));
    assert_eq!(request.environment, "applications");
    assert_eq!(request.artifact, Some(artifact("art")));
    assert_eq!(request.placement.as_deref(), Some("plc"));
    assert_eq!(request.desired_state, Some(DesiredState::Running));
    assert_eq!(
        rollback_application("blog", "dep_2", None, &versions).err().unwrap().to_text(),
        "invalid: blog v2 never served; roll back to a version that did"
    );
    assert_eq!(
        rollback_application("blog", "7", None, &versions).err().unwrap().to_text(),
        "not found: blog has no version 7"
    );
}

#[test]
fn a_request_deploys_an_artifact_or_a_bundle() {
    let source = |artifact: bool, bytes: usize, port: Option<u16>, identity: Result<(), String>| {
        let request = ApplicationRequest { has_artifact: artifact, bundle_bytes: bytes, port };
        application_source(true, &request, identity).map_err(|error| error.to_text())
    };
    assert_eq!(source(true, 0, None, Ok(())), Ok(ApplicationSource::Artifact));
    assert_eq!(source(false, 9, Some(80), Ok(())), Ok(ApplicationSource::Bundle { port: 80 }));
    let both = "invalid: an application artifact carries its bundle and port; send one or the other";
    assert_eq!(source(true, 9, None, Ok(())), Err(both.into()));
    assert_eq!(source(true, 0, Some(80), Ok(())), Err(both.into()));
    let portless = "invalid: an application needs the port it listens on";
    assert_eq!(source(false, 9, None, Ok(())), Err(portless.into()));
    assert_eq!(source(false, 9, Some(0), Ok(())), Err(portless.into()));
    assert_eq!(
        source(false, 0, Some(80), Ok(())),
        Err("invalid: a deployment needs an application artifact or a bundle".into())
    );
    assert_eq!(source(false, 9, Some(80), Err("bad name".into())), Err("bad name".into()));
    let request = ApplicationRequest { has_artifact: true, bundle_bytes: 0, port: None };
    assert_eq!(
        application_source(false, &request, Ok(())).unwrap_err().to_text(),
        "invalid: this node does not host application deployments"
    );
}

#[test]
fn defaults_satisfy_a_requirement() {
    let mut defaults = Config::new();
    defaults.insert("MODE".into(), "live".into());
    let manifest = ArtifactManifest {
        application: "blog".into(),
        required: vec!["MODE".into(), "TOKEN".into()],
        defaults,
        version: Some("1.2".into()),
        capabilities: vec!["http".into()],
    };
    assert_eq!(required_env("blog", &manifest).ok().unwrap(), vec!["TOKEN".to_string()]);
    assert_eq!(
        required_env("shop", &manifest).err().unwrap().to_text(),
        "invalid: the artifact is application blog, not shop"
    );
    assert_eq!(
        artifact_evidence("art".into(), Some("https://apps.example/blog".into()), manifest),
        ApplicationArtifactEvidence {
            artifact_id: "art".into(),
            url: Some("https://apps.example/blog".into()),
            version: Some("1.2".into()),
            capabilities: vec!["http".into()],
        }
    );
    let revision = application_revision("sha256:abc", None, vec![1], 80);
    assert_eq!(revision.revision, "artifact-abc");
    assert_eq!(revision.workloads[0].name, "app");
    assert_eq!(revision.workloads[0].restart, RestartPolicy::OnFailure);
    assert_eq!(revision.workloads[0].ports[0].port, 80);
    let readiness = revision.workloads[0].readiness.as_ref().unwrap();
    assert_eq!(readiness.check, ReadinessCheck::Http);
    assert_eq!(readiness.interval_ms, 250);
    let release = application_release("blog", "rev_a".into(), None, None, None, vec!["TOKEN".into()]);
    assert_eq!(release.project, "blog");
    assert_eq!(release.required_config, vec!["TOKEN".to_string()]);
}

#[test]
fn what_is_missing_or_taken_is_no_error() {
    let missing: Result<u8, EnvironmentError> = Err(EnvironmentError::NotFound("x".into()));
    assert!(matches!(unless_missing(missing), Ok(None)));
    assert!(matches!(unless_missing(Ok(3)), Ok(Some(3))));
    let down: Result<u8, EnvironmentError> = Err(EnvironmentError::Unavailable("x".into()));
    assert!(matches!(unless_missing(down), Err(EnvironmentError::Unavailable(_))));
    assert!(unless_taken(Err(EnvironmentError::Conflict("x".into()))).is_ok());
    assert!(unless_taken(Ok(())).is_ok());
    assert!(unless_taken(Err(EnvironmentError::Invalid("x".into()))).is_err());
}

#[test]
fn applications_have_an_environment_of_their_own() {
    let definition = applications_environment();
    assert_eq!(definition.name, "applications");
    assert_eq!(definition.desired_state, DesiredState::Running);
    assert!(definition.env.is_empty());
    assert_eq!(node_url(&Some("https://n".into()), "daemon_1"), "https://n");
    assert_eq!(node_url(&None, "daemon_1"), "daemon_1");
}
