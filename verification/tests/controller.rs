use compute_environment::cycle::{
    announce_outage, credentials_are_old, cycle_is_recorded, cycle_notices, data_plane_restarted,
    recovered, start_service, Advance, Phase, ReconcileCount,
};
use compute_environment::dataplane::{
    check_protocol, data_plane_info, file_name, launch_step, outcome_path, parse_start_time,
    parse_status, reply_error, same_process, socket_path, supervisor_step, unit_path, Adopted,
    DataPlaneInfo, LaunchStep, ProcessIdentity, RouteTable, Seen, SupervisorStep, UnitManifest, UnitOutcome, UnitRegistry, UnitStatus,
    SUPERVISOR_PROTOCOL,
};
use compute_environment::desired::Unit;
use compute_environment::error::EnvironmentError;
use compute_environment::events::{Datum, EventKind};
use compute_environment::execute::WorkloadRuntime;
use compute_environment::identity::ControllerIdentity;
use compute_environment::json::{field_number, field_text, JsonField};
use compute_environment::manifest::{
    bundle_source, content_revision, invalid_manifest, listed_project, manifest_path,
    policy_source, project_definition, relative, workload_definition, BundleSource, PolicySource,
    ProjectEntry, ProjectSection, WorkloadEntry,
};
use compute_environment::model::{
    ActualState, Config, DesiredState, ProjectDefinition, RestartPolicy, WorkloadKind,
};
use compute_environment::node::{
    check_security, control_plane, daemon_started, daemon_stopped, health, instance_id, node_id,
    node_is_taken, provider_pool, provider_record, rest, security_view, unreadable_state,
    DaemonConfig, ProviderConfig, ProviderKind,
};
use compute_environment::operators::{
    audit_log_path, bootstrap_path, bootstrap_request, bootstrapped, created, must_bootstrap,
    pending_records, revoke_credential, rolls_over, rotate_credential, rotation_request,
    OperatorCredentialRecord, RefusalCount, Revocation, Write, AUDIT_LOG_BYTES,
};
use compute_environment::prepare::{cache_path, is_artifact, logs_dir, missing_artifact};
use compute_environment::processes::{end_step, reap, record, record_file, EndStep, Reap};
use compute_environment::release::Route;
use compute_environment::status::SecurityMode;
use compute_environment::supervision::{
    detach, known_units, reattach, resume_unit, running_units, supervised_units, UnitFate,
};
use compute_environment::table::Table;
use compute_environment::tls::{
    certificate_status, load_refusal, unreadable, CertificateFacts, LoadedTls, TlsStatus,
};
use compute_environment::upgrade::{
    begin_hand_over, binary_path, check_build, check_copy, check_file, check_hand_over,
    current_build, read_answer, record_path, report_build, resume_upgrade, rollback_target, short, ArtifactAnswer,
    ArtifactFile, BuildIdentity, ReportedBuild, Resume, UpgradeRecord,
};

const NOW: i64 = 1_700_000_000_000_000_000;
const SECOND: i64 = 1_000_000_000;

fn strings(values: &[&str]) -> Vec<String> {
    values.iter().map(|value| value.to_string()).collect()
}

fn manifest(unit_id: &str, workload: &str) -> UnitManifest {
    UnitManifest {
        unit_id: unit_id.into(),
        environment: "prod".into(),
        project: "shop".into(),
        workload: workload.into(),
        deployment_id: "dep_1".into(),
        environment_id: "env_1".into(),
        project_id: "prj_1".into(),
        workload_id: "wl_1".into(),
        revision: "r1".into(),
        runtime: "python".into(),
        bundle_identity: "sha256:b".into(),
        dependency_identity: None,
        ports: vec![("http".into(), 30000)],
        network: "host".into(),
        isolation: "process".into(),
        desired_state: "running".into(),
        log_directory: Some("/logs".into()),
        placement_id: Some("plc_1".into()),
        provider: Some("local".into()),
        started_at: 7,
    }
}

fn running(unit_id: &str, workload: &str) -> UnitStatus {
    UnitStatus {
        manifest: manifest(unit_id, workload),
        process: Some(ProcessIdentity {
            pid: 77,
            boot_id: Some("boot".into()),
            start_time: Some(5),
        }),
        outcome: None,
        finished_at: None,
    }
}

// ---- Manifests --------------------------------------------------------------

fn entry(bundle: Option<&str>, workload: Option<&str>) -> WorkloadEntry {
    WorkloadEntry {
        name: "api".into(),
        kind: WorkloadKind::Service,
        bundle: bundle.map(str::to_string),
        workload: workload.map(str::to_string),
        ports: vec![],
        restart: RestartPolicy::OnFailure,
        desired_state: DesiredState::Running,
        readiness: None,
    }
}

#[test]
fn paths_of_a_manifest_are_relative_to_it() {
    assert_eq!(relative("/src/shop", "dist/api.compute"), "/src/shop/dist/api.compute");
    assert_eq!(relative("/src/shop", "/dist/api.compute"), "/dist/api.compute");
    assert_eq!(manifest_path("/src/shop", true), "/src/shop/compute.project.toml");
    assert_eq!(manifest_path("/src/shop.toml", false), "/src/shop.toml");
    assert_eq!(invalid_manifest("/m", "bad").to_text(), "invalid: /m: bad");
}

#[test]
fn a_workload_has_one_source() {
    assert_eq!(
        bundle_source(&entry(Some("a"), None), "/s").unwrap(),
        BundleSource::Read("/s/a".into())
    );
    assert_eq!(
        bundle_source(&entry(None, Some("b")), "/s").unwrap(),
        BundleSource::Build("/s/b".into())
    );
    for (bundle, workload) in [(None, None), (Some("a"), Some("b"))] {
        let error = bundle_source(&entry(bundle, workload), "/s").unwrap_err();
        assert_eq!(
            error.to_text(),
            "invalid: workload api needs exactly one of bundle or workload"
        );
    }
    let definition = workload_definition(entry(Some("a"), None), vec![1, 2]);
    assert_eq!(definition.bundle, vec![1, 2]);
    assert_eq!(definition.restart, RestartPolicy::OnFailure);
}

#[test]
fn a_policy_has_one_source() {
    assert_eq!(policy_source(false, &None, "/e").unwrap(), PolicySource::Absent);
    assert_eq!(policy_source(true, &None, "/e").unwrap(), PolicySource::Inline);
    assert_eq!(
        policy_source(false, &Some("p.json".into()), "/e").unwrap(),
        PolicySource::File("/e/p.json".into())
    );
    assert_eq!(
        policy_source(true, &Some("p.json".into()), "/e").unwrap_err().message(),
        "use either [environment.policy] or policy_file, not both"
    );
}

#[test]
fn content_revisions_ignore_order() {
    assert_eq!(content_revision(&strings(&["a", "b"])), "content-7e18f737311b");
    assert_eq!(content_revision(&strings(&["b", "a"])), "content-7e18f737311b");
    assert_ne!(content_revision(&strings(&["a"])), content_revision(&strings(&["b"])));
}

fn section(name: Option<&str>, revision: Option<&str>) -> ProjectSection {
    let mut env = Config::new();
    env.insert("A".into(), "own".into());
    env.insert("B".into(), "own".into());
    ProjectSection {
        name: name.map(str::to_string),
        revision: revision.map(str::to_string),
        env,
    }
}

fn defined(name: Option<&str>, directory: Option<&str>) -> Result<ProjectDefinition, EnvironmentError> {
    project_definition(
        section(name, None),
        directory.map(str::to_string),
        "/src/shop",
        &strings(&["b", "a"]),
        vec![],
    )
}

#[test]
fn projects_take_their_name_from_the_manifest_or_the_directory() {
    assert_eq!(defined(Some("shop"), Some("dir")).ok().unwrap().name, "shop");
    let project = defined(None, Some("dir")).ok().unwrap();
    assert_eq!(project.name, "dir");
    assert_eq!(project.revision, "content-7e18f737311b");
    assert_eq!(project.source.as_deref(), Some("/src/shop"));
    assert_eq!(project.desired_state, DesiredState::Running);
    assert_eq!(
        defined(None, None).err().unwrap().to_text(),
        "invalid: the project needs a name"
    );
    let named = project_definition(section(Some("shop"), Some("abc")), None, "/s", &vec![], vec![]);
    assert_eq!(named.ok().unwrap().revision, "abc");
}

fn listing(name: &str, revision: Option<&str>, state: Option<DesiredState>) -> ProjectEntry {
    let mut env = Config::new();
    env.insert("B".into(), "listed".into());
    env.insert("C".into(), "listed".into());
    ProjectEntry {
        name: name.into(),
        source: "../shop".into(),
        revision: revision.map(str::to_string),
        desired_state: state,
        env,
    }
}

#[test]
fn an_environment_overrides_a_project() {
    let project = defined(Some("shop"), None).ok().unwrap();
    let listed = listed_project(project, listing("shop", Some("abc"), Some(DesiredState::Stopped)))
        .ok()
        .unwrap();
    assert_eq!(listed.revision, "abc");
    assert_eq!(listed.desired_state, DesiredState::Stopped);
    assert_eq!(listed.env.at("A").map(String::as_str), Some("own"));
    assert_eq!(listed.env.at("B").map(String::as_str), Some("listed"));
    assert_eq!(listed.env.at("C").map(String::as_str), Some("listed"));
    let project = defined(Some("shop"), None).ok().unwrap();
    let error = listed_project(project, listing("store", None, None)).err().unwrap();
    assert_eq!(
        error.message(),
        "project store in the manifest names a source whose project is shop"
    );
}

// ---- Processes --------------------------------------------------------------

#[test]
fn only_the_recorded_process_is_ended() {
    let key = ("prod".to_string(), "shop".to_string(), "api".to_string());
    assert_eq!(
        record_file("/var", &key),
        "/var/processes/16a48a8c034b13b98bfcfd22.json"
    );
    assert_eq!(record(&key, 77, None, Some(5)), None);
    assert_eq!(record(&key, 77, Some("boot".into()), None), None);
    let kept = record(&key, 77, Some("boot".into()), Some(5)).unwrap();
    let here = Some("boot".to_string());
    assert_eq!(
        reap(&kept, &here, Some(5)),
        Reap::End { group: 77, workload: "prod/shop/api".into() }
    );
    assert_eq!(reap(&kept, &here, Some(6)), Reap::Leave);
    assert_eq!(reap(&kept, &here, None), Reap::Leave);
    assert_eq!(reap(&kept, &Some("other".into()), Some(5)), Reap::Leave);
    assert_eq!(reap(&kept, &None, Some(5)), Reap::Leave);
    let huge = record(&key, 0x8000_0000, Some("boot".into()), Some(5)).unwrap();
    assert_eq!(reap(&huge, &here, Some(5)), Reap::Leave);
}

// ---- TLS --------------------------------------------------------------------

fn facts(not_after: i64) -> CertificateFacts {
    CertificateFacts {
        fingerprint: "ab".into(),
        not_after,
        names: strings(&["node.example"]),
    }
}

#[test]
fn an_expired_certificate_is_refused() {
    assert_eq!(
        certificate_status("/tls/cert.pem", facts(NOW), NOW).unwrap_err(),
        "the certificate in /tls/cert.pem expired at 2023-11-14 22:13:20 UTC"
    );
    let status = certificate_status("/tls/cert.pem", facts(NOW + 1), NOW).unwrap();
    assert!(status.enabled);
    assert_eq!(status.fingerprint.as_deref(), Some("ab"));
    assert_eq!(status.reloads, 0);
    assert_eq!(unreadable("/tls/key.pem", "gone"), "/tls/key.pem: gone");
    assert_eq!(
        load_refusal("gone").to_text(),
        "invalid: TLS is required and cannot be loaded: gone"
    );
    assert!(!TlsStatus::disabled().enabled);
}

#[test]
fn a_failed_reload_keeps_the_certificate() {
    let status = certificate_status("/c", facts(NOW + 1), NOW).unwrap();
    let mut loaded = LoadedTls { status, modified: (Some(1), Some(1)), checked: 10 };
    assert!(!loaded.is_due(10 + 999_999_999));
    assert_eq!(loaded.checked, 10);
    assert!(loaded.is_due(10 + 1_000_000_000));
    assert_eq!(loaded.checked, 10 + 1_000_000_000);
    assert!(!loaded.has_changed((Some(1), Some(1))));
    assert!(loaded.has_changed((Some(1), None)));
    loaded.reload(Err("half-written".into()), (Some(2), Some(1)));
    assert_eq!(loaded.status.fingerprint.as_deref(), Some("ab"));
    assert_eq!(loaded.status.last_error.as_deref(), Some("half-written"));
    assert_eq!(loaded.status.reloads, 0);
    assert!(loaded.has_changed((Some(2), Some(1))));
    let mut newer = facts(NOW + 2);
    newer.fingerprint = "cd".into();
    loaded.reload(certificate_status("/c", newer, NOW), (Some(2), Some(2)));
    assert_eq!(loaded.status.fingerprint.as_deref(), Some("cd"));
    assert_eq!(loaded.status.last_error, None);
    assert_eq!(loaded.status.reloads, 1);
    assert!(!loaded.has_changed((Some(2), Some(2))));
}

// ---- Operators --------------------------------------------------------------

fn credential(id: &str) -> OperatorCredentialRecord {
    OperatorCredentialRecord {
        credential_id: id.into(),
        operator_id: "ana".into(),
        scopes: strings(&["read", "deploy"]),
        description: Some("laptop".into()),
        created_at: NOW,
        expires_at: Some(NOW + 90 * SECOND + 5),
        revoked_at: None,
    }
}

#[test]
fn a_production_node_issues_its_first_credential() {
    assert!(must_bootstrap(SecurityMode::Production, false));
    assert!(!must_bootstrap(SecurityMode::Production, true));
    assert!(!must_bootstrap(SecurityMode::Development, false));
    let request = bootstrap_request("admin");
    assert_eq!(request.operator_id, "bootstrap-admin");
    assert_eq!(request.scopes, strings(&["admin"]));
    assert_eq!(request.expires_in_seconds, None);
    assert_eq!(bootstrap_path("/var"), "/var/bootstrap-admin.token");
    let notice = bootstrapped("cred_1", "/var/t");
    assert_eq!(notice.kind, EventKind::CredentialBootstrapped);
    assert_eq!(
        notice.message,
        "issued bootstrap admin credential cred_1; its token is in /var/t"
    );
    assert_eq!(
        created(&credential("cred_1")).message,
        "credential cred_1 created for ana (read, deploy)"
    );
}

#[test]
fn revoking_is_final() {
    let error = revoke_credential(None, "cred_1", NOW).unwrap_err();
    assert_eq!(error.to_text(), "not found: credential cred_1");
    let Ok(Revocation::Revoked(revoked, notice)) =
        revoke_credential(Some(credential("cred_1")), "cred_1", NOW)
    else {
        panic!("an active credential is revoked");
    };
    assert_eq!(revoked.revoked_at, Some(NOW));
    assert_eq!(notice.message, "credential cred_1 of ana revoked");
    let Ok(Revocation::Already(again)) = revoke_credential(Some(revoked), "cred_1", NOW + 1) else {
        panic!("revoking again changes nothing");
    };
    assert_eq!(again.revoked_at, Some(NOW));
    assert_eq!(
        rotation_request(Some(&again), "cred_1").unwrap_err().to_text(),
        "conflict: credential cred_1 is revoked; create a new one"
    );
}

#[test]
fn rotation_keeps_what_a_credential_is_for() {
    let request = rotation_request(Some(&credential("cred_1")), "cred_1").unwrap();
    assert_eq!(request.operator_id, "ana");
    assert_eq!(request.scopes, strings(&["read", "deploy"]));
    assert_eq!(request.description.as_deref(), Some("laptop"));
    assert_eq!(request.expires_in_seconds, Some(90));
    let mut short_lived = credential("cred_1");
    short_lived.expires_at = Some(NOW - 5);
    assert_eq!(
        rotation_request(Some(&short_lived), "cred_1").unwrap().expires_in_seconds,
        Some(1)
    );
    let (old, notice) =
        rotate_credential(credential("cred_1"), &credential("cred_2"), "cred_1", 60, NOW);
    assert_eq!(old.revoked_at, Some(NOW + 60 * SECOND));
    assert_eq!(notice.message, "credential cred_1 of ana rotated to cred_2");
    assert!(matches!(&notice.facts[1].value, Datum::Text(from) if from == "cred_1"));
    let (old, _) =
        rotate_credential(credential("cred_1"), &credential("cred_2"), "cred_1", 0, NOW);
    assert_eq!(old.revoked_at, Some(NOW));
}

#[test]
fn a_group_that_does_not_end_is_killed() {
    assert_eq!(end_step(1, false), EndStep::Done);
    assert_eq!(end_step(50, false), EndStep::Done);
    assert_eq!(end_step(1, true), EndStep::Wait);
    assert_eq!(end_step(49, true), EndStep::Wait);
    assert_eq!(end_step(50, true), EndStep::Kill);
    assert_eq!(end_step(u32::MAX, true), EndStep::Kill);
}

#[test]
fn refusals_are_recorded_sixty_times_a_minute() {
    let mut count = RefusalCount { minute: 0, count: 0 };
    for _ in 0..60 {
        assert!(count.refused(NOW));
    }
    assert!(!count.refused(NOW));
    assert!(!count.refused(NOW + SECOND));
    assert!(count.refused(NOW + 60 * SECOND));
    assert_eq!(count.count, 1);
    let mut before = RefusalCount { minute: 5, count: 9 };
    assert!(before.refused(-61 * SECOND));
    assert_eq!(before.minute, -1);
    assert!(before.refused(-59 * SECOND));
    assert_eq!(before.minute, 0);
}

#[test]
fn audit_records_wait_until_they_are_written() {
    let kept = pending_records(
        strings(&["a", "b", "c"]),
        &vec![Write::Failed, Write::Present, Write::Failed],
        strings(&["d"]),
    );
    assert_eq!(kept, strings(&["a", "c", "d"]));
    let none = pending_records(strings(&["a"]), &vec![Write::Written], strings(&["d"]));
    assert_eq!(none, strings(&["d"]));
    assert_eq!(audit_log_path("/var"), "/var/audit.log");
    assert!(!rolls_over(None));
    assert!(!rolls_over(Some(AUDIT_LOG_BYTES)));
    assert!(rolls_over(Some(64 * 1024 * 1024 + 1)));
}

// ---- Upgrades ---------------------------------------------------------------

fn build(id: &str) -> BuildIdentity {
    BuildIdentity {
        path: "/bin/compute".into(),
        version: "1.2.0".into(),
        git_commit: "abc".into(),
        build_id: id.into(),
        platform: "linux-x86_64".into(),
        api: "v1".into(),
        supervisor_protocol: SUPERVISOR_PROTOCOL,
    }
}

fn upgrade(status: &str) -> UpgradeRecord {
    UpgradeRecord {
        upgrade_id: "upg_1".into(),
        kind: "upgrade".into(),
        status: status.into(),
        from: build("sha256:aaaaaaaaaaaaaaaaaaaa"),
        to: build("sha256:bbbbbbbbbbbbbbbbbbbb"),
        units: strings(&["u1", "u2"]),
        timeout_seconds: 60,
        requested_by: "ana".into(),
        started_at: NOW,
        finished_at: None,
        reason: Some("it died".into()),
        controller: None,
    }
}

fn reported() -> ReportedBuild {
    ReportedBuild {
        name: "compute".into(),
        version: "1.3.0".into(),
        git_commit: "def".into(),
        platform: "linux-x86_64".into(),
        api: "v1".into(),
        supervisor_protocol: 1,
    }
}

#[test]
fn an_artifact_must_be_the_one_expected() {
    let hashed = || ArtifactFile::Hashed("sha256:ab".into());
    assert_eq!(check_file("/a", hashed(), &None).unwrap(), "sha256:ab");
    assert_eq!(check_file("/a", hashed(), &Some("ab".into())).unwrap(), "sha256:ab");
    assert_eq!(check_file("/a", hashed(), &Some("sha256:ab".into())).unwrap(), "sha256:ab");
    let cases = [
        (hashed(), Some("cd".to_string()), "/a is sha256:ab, not the expected sha256:cd"),
        (ArtifactFile::Unreadable("gone".into()), None, "/a: gone"),
        (ArtifactFile::NotAFile, None, "/a is not a file"),
        (ArtifactFile::Unhashable("gone".into()), None, "/a: gone"),
    ];
    for (file, expected, text) in cases {
        let error = check_file("/a", file, &expected).unwrap_err();
        assert_eq!(error.kind(), "upgrade_failed");
        assert_eq!(error.message(), text);
    }
}

#[test]
fn only_a_compatible_build_takes_over() {
    let current = build("sha256:aa");
    let judge = |answer: ArtifactAnswer| check_build("/a", "sha256:bb".into(), answer, &current);
    let accepted = judge(ArtifactAnswer::Reported(reported())).unwrap();
    assert_eq!(accepted.build_id, "sha256:bb");
    assert_eq!(accepted.version, "1.3.0");
    assert_eq!(accepted.path, "/a");
    let refused = |answer: ArtifactAnswer| judge(answer).unwrap_err().message();
    assert_eq!(refused(ArtifactAnswer::DoesNotRun("x".into())), "/a does not run: x");
    assert_eq!(
        refused(ArtifactAnswer::Unreadable("x".into())),
        "/a is not a Compute build (version --json: x)"
    );
    let mut other = reported();
    other.name = "bash".into();
    assert_eq!(refused(ArtifactAnswer::Reported(other)), "/a does not identify as Compute");
    let mut other = reported();
    other.platform = "darwin".into();
    assert_eq!(
        refused(ArtifactAnswer::Reported(other)),
        "/a is built for darwin, this node is linux-x86_64"
    );
    let mut other = reported();
    other.api = "v2".into();
    assert_eq!(
        refused(ArtifactAnswer::Reported(other)),
        "/a serves v2, not v1; clients would break"
    );
    let mut other = reported();
    other.supervisor_protocol = 2;
    assert_eq!(
        refused(ArtifactAnswer::Reported(other)),
        "/a speaks supervisor protocol 2, this node's supervisor speaks 1; it could not reattach"
    );
    let mut wide = reported();
    wide.supervisor_protocol = 0x1_0000_0001;
    assert_eq!(
        refused(ArtifactAnswer::Reported(wide)),
        "/a speaks supervisor protocol 4294967297, this node's supervisor speaks 1; it could not \
         reattach"
    );
}

#[test]
fn builds_are_kept_by_their_digest() {
    let id = "sha256:0123456789abcdef0123456789abcdef";
    assert_eq!(binary_path("/var", id), "/var/binaries/0123456789abcdef/compute");
    assert_eq!(binary_path("/var", "unknown"), "/var/binaries/unknown/compute");
    assert_eq!(short(id), "0123456789ab");
    assert_eq!(short("unknown"), "unknown");
    assert_eq!(record_path("/var"), "/var/upgrade.json");
    assert!(check_copy(&build("sha256:aa"), "/k", "sha256:aa").is_ok());
    assert_eq!(
        check_copy(&build("sha256:aa"), "/k", "sha256:bb").unwrap_err().message(),
        "the copy of /bin/compute kept at /k does not match its build ID"
    );
    let identity = ControllerIdentity {
        version: "1.2.0".into(),
        git_commit: "abc".into(),
        build_id: "sha256:aa".into(),
        build_profile: "release".into(),
        platform: "linux-x86_64".into(),
        executable: "/bin/compute".into(),
    };
    assert_eq!(current_build(identity, "v1"), build("sha256:aa"));
}

#[test]
fn one_hand_over_at_a_time() {
    let from = build("sha256:aa");
    let to = build("sha256:bb");
    assert!(check_hand_over(true, None, &from, &to).is_ok());
    assert!(check_hand_over(true, Some(&upgrade("completed")), &from, &to).is_ok());
    assert!(check_hand_over(true, Some(&upgrade("rolled_back")), &from, &to).is_ok());
    assert!(check_hand_over(true, Some(&upgrade("failed")), &from, &to).is_ok());
    assert_eq!(
        check_hand_over(true, Some(&upgrade("started")), &from, &to).unwrap_err().to_text(),
        "conflict: upgrade upg_1 is started"
    );
    assert_eq!(
        check_hand_over(true, None, &from, &build("sha256:aa")).unwrap_err().to_text(),
        "conflict: this controller already runs sha256:aa"
    );
    assert_eq!(check_hand_over(false, None, &from, &to).unwrap_err().kind(), "upgrade_failed");
}

#[test]
fn a_hand_over_is_recorded() {
    let (record, notice) = begin_hand_over(
        "/var",
        "upgrade",
        build("sha256:aa"),
        build("sha256:bb"),
        strings(&["u1"]),
        None,
        "ana",
        NOW,
    );
    assert_eq!(record.upgrade_id, "upg_b8a3dfad2ff6bf9a3319cd98");
    assert_eq!(record.status, "started");
    assert_eq!(record.timeout_seconds, 60);
    assert_eq!(record.from.path, "/var/binaries/aa/compute");
    assert_eq!(record.to.path, "/var/binaries/bb/compute");
    assert!(!record.is_terminal());
    assert_eq!(notice.kind, EventKind::UpgradeStarted);
    assert!(
        matches!(&notice.facts[0].value, Datum::Upgrade(told) if told.upgrade_id == record.upgrade_id)
    );
    assert_eq!(
        notice.message,
        "upgrade of the controller from 1.2.0 (aa) to 1.2.0 (bb) started; workloads keep running"
    );
    for (asked, given) in [(Some(1), 5), (Some(5), 5), (Some(90), 90), (Some(9999), 3600)] {
        let (record, _) = begin_hand_over(
            "/var",
            "rollback",
            build("sha256:aa"),
            build("sha256:bb"),
            vec![],
            asked,
            "ana",
            NOW,
        );
        assert_eq!(record.timeout_seconds, given);
    }
}

#[test]
fn a_rollback_returns_to_what_ran_before() {
    let last = upgrade("completed");
    let target = rollback_target(Some(&last), &last.to).unwrap();
    assert_eq!(target, last.from);
    assert_eq!(
        rollback_target(None, &last.to).unwrap_err().to_text(),
        "not found: no upgrade has run on this node"
    );
    assert_eq!(
        rollback_target(Some(&last), &build("sha256:cc")).unwrap_err().message(),
        "this controller (sha256:cc) is not the one the last upgrade installed (sha256:bbbbbbbbbbbbbbbbbbbb); nothing to roll back to"
    );
}

#[test]
fn a_new_controller_accounts_for_every_unit() {
    let own = "sha256:bbbbbbbbbbbbbbbbbbbb";
    let resume = |record: UpgradeRecord, own: &str, running: &[&str], known: &[&str]| {
        resume_upgrade(
            Some(record),
            own,
            &strings(running),
            &strings(known),
            "daemon_2",
            "3.5",
            NOW + 9,
        )
    };
    let Resume::Refused(record, error) = resume(upgrade("started"), own, &["u1", "u2"], &["u1"])
    else {
        panic!("a unit that still runs is not accounted for");
    };
    assert_eq!(record.status, "refused");
    assert_eq!(error.message(), "the new controller could not reattach u2");
    let Resume::Completed(record, notices) = resume(upgrade("started"), own, &["u1"], &["u1"])
    else {
        panic!("a unit that ended is accounted for");
    };
    assert_eq!(record.status, "completed");
    assert_eq!(record.finished_at, Some(NOW + 9));
    assert_eq!(record.controller.as_deref(), Some("daemon_2"));
    assert!(record.is_terminal());
    assert_eq!(notices[0].message, "controller 1.2.0 (bbbbbbbbbbbb) reattached 2 workloads");
    assert_eq!(
        notices[1].message,
        "upgrade to bbbbbbbbbbbb completed in 3.5s without restarting a workload"
    );
    let before = "sha256:aaaaaaaaaaaaaaaaaaaa";
    let Resume::RolledBack(record, notices) = resume(upgrade("rolling_back"), before, &[], &[])
    else {
        panic!("the previous build runs again");
    };
    assert_eq!(record.status, "rolled_back");
    assert_eq!(notices[0].message, "upgrade to bbbbbbbbbbbb failed: it died");
    assert_eq!(
        notices[1].message,
        "controller 1.2.0 (aaaaaaaaaaaa) restored; workloads kept running"
    );
    assert!(matches!(resume(upgrade("started"), before, &[], &[]), Resume::Nothing));
    assert!(matches!(resume(upgrade("completed"), own, &[], &[]), Resume::Nothing));
    assert!(matches!(
        resume_upgrade(None, own, &vec![], &vec![], "daemon_2", "0.0", NOW),
        Resume::Nothing
    ));
}

// ---- The node ---------------------------------------------------------------

#[test]
fn a_daemon_starts_with_usual_settings() {
    let config = DaemonConfig::new("/var/compute".into());
    assert_eq!(config.port_range, (20000, 29999));
    assert_eq!(config.instance_port_range, (30000, 39999));
    assert_eq!(config.drain_timeout_ms, 30_000);
    assert_eq!(config.switch_timeout_ms, 10_000);
    assert_eq!(config.restart_delay_ms, 1_000);
    assert_eq!(config.reconcile_interval_ms, 5_000);
    assert_eq!(config.network.endpoint_address, "127.0.0.1");
    assert_eq!(config.network.dns_interval_ms, 60_000);
    assert_eq!(config.network.certificate_retry_ms, 300_000);
    assert_eq!(rest(5_000, false), 5_000);
    assert_eq!(rest(5_000, true), 100);
    assert_eq!(rest(50, true), 50);
}

#[test]
fn nodes_and_daemons_have_identities() {
    assert_eq!(instance_id(42, NOW), "daemon_a9d1f1fa7e782e48c77546e6");
    assert_eq!(
        node_id(&None, 42, NOW, "/var/compute"),
        ("node_e7898215bf3bd31f3d3b43b3".to_string(), true)
    );
    assert_eq!(
        node_id(&Some(" \n".into()), 42, NOW, "/var/compute"),
        ("node_e7898215bf3bd31f3d3b43b3".to_string(), true)
    );
    assert_eq!(
        node_id(&Some("node_1\n".into()), 42, NOW, "/var/compute"),
        ("node_1".to_string(), false)
    );
    assert_eq!(
        node_is_taken("/var").to_text(),
        "conflict: another Compute daemon owns /var"
    );
    assert_eq!(
        unreadable_state("db:1", "refused").to_text(),
        "control state unavailable: cannot read control state at db:1: refused"
    );
    let started = daemon_started("daemon_1", "/state", "/artifacts", &vec!["prod/shop/api".into()]);
    assert_eq!(started.message, "Compute daemon daemon_1 started");
    assert_eq!(started.facts[0].name, "state");
    assert!(matches!(&started.facts[0].value, Datum::Text(state) if state == "/state"));
    assert_eq!(started.facts[1].name, "artifacts");
    assert!(matches!(&started.facts[2].value, Datum::Texts(reaped) if reaped[0] == "prod/shop/api"));
    let counted = started.with("count", Datum::Number(7));
    assert!(matches!(counted.facts[3].value, Datum::Number(7)));
    assert_eq!(daemon_stopped("daemon_1").message, "Compute daemon daemon_1 stopped");
}

#[test]
fn a_shared_token_is_no_production_credential() {
    assert!(check_security(SecurityMode::Development, true).is_ok());
    assert!(check_security(SecurityMode::Production, false).is_ok());
    assert_eq!(
        check_security(SecurityMode::Production, true).unwrap_err().message(),
        "a shared token is not a production credential; issue operator credentials with `compute auth create`"
    );
    let view = security_view(
        SecurityMode::Development,
        "no mode is set",
        true,
        None,
        &strings(&["active", "revoked", "active"]),
    );
    assert!(view.authentication_required);
    assert_eq!(view.active_credentials, 2);
    assert!(!view.tls.enabled);
    let open = security_view(SecurityMode::Development, "", false, None, &vec![]);
    assert!(!open.authentication_required);
}

#[test]
fn a_degraded_control_plane_says_so() {
    assert_eq!(health(&None), "ok");
    assert_eq!(health(&Some("x".into())), "degraded_control_plane");
    assert_eq!(control_plane("/state", &None, Some(3)).mode, "normal");
    let view = control_plane("/state", &Some("x".into()), None);
    assert_eq!(view.state, "/state");
    assert_eq!(view.mode, "degraded_control_plane");
    assert_eq!(view.error.as_deref(), Some("x"));
}

fn provider(id: &str, kind: ProviderKind) -> ProviderConfig {
    ProviderConfig { id: id.into(), kind, endpoint: None, priority: 3 }
}

#[test]
fn the_own_node_is_always_in_the_pool() {
    let pool = provider_pool(vec![provider("far", ProviderKind::Remote)]);
    assert_eq!(pool.len(), 2);
    assert_eq!(pool[1].id, "local");
    assert_eq!(pool[1].priority, 0);
    let pool = provider_pool(vec![provider("here", ProviderKind::Local)]);
    assert_eq!(pool.len(), 1);
    let record = provider_record(&provider("far", ProviderKind::Remote), "daemon_1", NOW);
    assert_eq!(record.kind, "remote");
    assert_eq!(record.registered_by, "daemon_1");
}

#[test]
fn artifacts_are_checked_before_they_are_used() {
    let digest = "sha256:ba7816bf8f01cfea414140de5dae2223b00361a396177a9cb410ff61f20015ad";
    assert_eq!(
        cache_path("/var", digest),
        "/var/cache/ba7816bf8f01cfea414140de5dae2223b00361a396177a9cb410ff61f20015ad"
    );
    assert!(is_artifact(&b"abc".to_vec(), digest));
    assert!(!is_artifact(&b"abd".to_vec(), digest));
    assert_eq!(
        missing_artifact("sha256:ab", "/artifacts").to_text(),
        "not found: artifact sha256:ab is not in /artifacts"
    );
    let key = ("prod".to_string(), "shop".to_string(), "api".to_string());
    assert_eq!(logs_dir("/var", &key), "/var/logs/prod/shop/api");
}

// ---- Cycles -----------------------------------------------------------------

fn walk(start: Phase, outcomes: &[bool]) -> Phase {
    outcomes.iter().fold(start, |phase, outcome| phase.next(*outcome))
}

#[test]
fn a_cycle_that_cannot_read_state_does_nothing() {
    assert_eq!(walk(Phase::DataPlane, &[false]), Phase::Refresh);
    assert_eq!(walk(Phase::DataPlane, &[true]), Phase::Reattach);
    assert_eq!(walk(Phase::Refresh, &[false]), Phase::Outage);
    assert_eq!(walk(Phase::Refresh, &[false, true, true, true]), Phase::Abandoned);
    assert_eq!(walk(Phase::RefreshReleases, &[false]), Phase::Abandoned);
    assert_eq!(
        walk(Phase::DataPlane, &[false, true, false, false, false, false, false]),
        Phase::Network
    );
    assert_eq!(
        walk(Phase::DataPlane, &[true, true, true, true, true, true, true, true, true, true, true]),
        Phase::Finished
    );
}

#[test]
fn quiet_cycles_are_only_counted() {
    assert!(cycle_is_recorded(true, true, true, 0, 0));
    assert!(cycle_is_recorded(true, true, false, 1, 0));
    assert!(!cycle_is_recorded(true, true, false, 0, 0));
    assert!(!cycle_is_recorded(false, true, true, 1, 0));
    assert!(!cycle_is_recorded(true, false, true, 1, 1));
    let mut count = ReconcileCount { cycles: 0, errors_total: 0 };
    assert_eq!(count.count(true, false), 0);
    assert_eq!(count.count(false, true), 1);
    assert_eq!(count, ReconcileCount { cycles: 2, errors_total: 1 });
    let notices = cycle_notices(NOW, "12.5", 7, 1, 0);
    assert_eq!(
        notices[0].message,
        "reconciliation started at 2023-11-14T22:13:20+00:00"
    );
    assert_eq!(
        notices[1].message,
        "reconciliation finished in 12.5 ms: 7 resources examined, 1 changed, 0 errors"
    );
    let restarted = data_plane_restarted(None);
    assert_eq!(restarted.kind, EventKind::DataPlaneRestarted);
    assert!(matches!(restarted.facts[0].value, Datum::Plane(None)));
    assert_eq!(Phase::Reattach.measured_as(), Some("data_plane"));
    assert_eq!(Phase::RefreshObserved.measured_as(), Some("observe"));
    assert_eq!(Phase::Finished.measured_as(), None);
}

#[test]
fn an_outage_is_announced_once() {
    let mut announced = false;
    let notices = announce_outage(&mut announced, Some(NOW), &Some("refused".into())).unwrap();
    assert!(matches!(notices[0].facts[0].value, Datum::Moment(NOW)));
    assert!(matches!(&notices[1].facts[1].value, Datum::Text(error) if error == "refused"));
    assert_eq!(notices[0].message, "durable control state is unreachable: refused");
    assert_eq!(notices[1].kind, EventKind::ControllerDegraded);
    assert!(announce_outage(&mut announced, None, &None).is_none());
    assert_eq!(
        recovered(NOW, "4.0", "4.012".into()).message,
        "durable control state is reachable again after 4.0s"
    );
    assert!(credentials_are_old(None, NOW));
    assert!(!credentials_are_old(Some(NOW - 30 * SECOND), NOW));
    assert!(credentials_are_old(Some(NOW - 30 * SECOND - 1), NOW));
}

#[test]
fn each_generation_of_a_service_logs_for_itself() {
    let key = ("prod".to_string(), "shop".to_string(), "api".to_string());
    let unit = Unit::new(&key, "dep_1");
    let mut runtime: Table<Unit, WorkloadRuntime> = Table::new();
    assert_eq!(start_service(&mut runtime, &unit, "/var", NOW), 1);
    let started = runtime.get(&unit).unwrap();
    assert_eq!(started.state, Some(ActualState::Starting));
    assert!(started.service && started.supervised && !started.held);
    assert_eq!(
        started.log_directory.as_deref(),
        Some("/var/logs/prod/shop/api/20231114T221320.000Z-0001")
    );
    assert_eq!(start_service(&mut runtime, &unit, "/var", NOW), 2);
    assert_eq!(runtime.len(), 1);
}

// ---- The data plane ---------------------------------------------------------

#[test]
fn a_reused_pid_is_another_process() {
    let process = ProcessIdentity {
        pid: 77,
        boot_id: Some("boot".into()),
        start_time: Some(5),
    };
    assert!(same_process(&process, &Some("boot".into()), Some(5)));
    assert!(!same_process(&process, &Some("boot".into()), Some(6)));
    assert!(!same_process(&process, &Some("other".into()), Some(5)));
    assert!(!same_process(&process, &Some("boot".into()), None));
    let stat = "77 (a) b) S 1 2 3 4 5 6 7 8 9 10 11 12 13 14 15 16 17 18 4242 20";
    assert_eq!(parse_start_time(stat), Some(4242));
    assert_eq!(parse_start_time("77 (a) S 1 2"), None);
    assert_eq!(parse_start_time("77"), None);
}

#[test]
fn a_status_line_is_read() {
    assert_eq!(parse_status("HTTP/1.1 200 OK\r\n"), Some(200));
    assert_eq!(parse_status("HTTP/1.1 x"), None);
    assert_eq!(parse_status("HTTP/1.1"), None);
    assert_eq!(parse_status("HTTP/1.1 70000 x"), None);
}

#[test]
fn registry_files_are_named_after_units() {
    assert_eq!(file_name("prod/shop.api-1_x"), "prod_shop_api-1_x");
    assert_eq!(unit_path("/r", "a/b"), "/r/units/a_b.json");
    assert_eq!(outcome_path("/r", "a/b"), "/r/outcomes/a_b.json");
    assert_eq!(socket_path("/var"), "/var/supervisor.sock");
}

#[test]
fn an_outcome_is_kept_until_it_is_acknowledged() {
    let mut registry = UnitRegistry::new();
    assert!(registry.start(manifest("u1", "api")).is_ok());
    assert_eq!(
        registry.start(manifest("u1", "api")).unwrap_err().to_text(),
        "conflict: unit u1 was already started"
    );
    assert!(registry.started("u1", None));
    assert!(!registry.started("u2", None));
    assert_eq!(registry.wait("u1", 5).unwrap(), false);
    assert!(!registry.ack("u1"));
    registry.ended("u1", UnitOutcome::Executed { response: "first".into() });
    registry.ended("u1", UnitOutcome::Executed { response: "second".into() });
    assert_eq!(registry.wait("u1", 6).unwrap(), true);
    assert_eq!(registry.wait("u1", 7).unwrap(), true);
    let status = registry.units.at("u1").unwrap();
    assert_eq!(status.finished_at, Some(6));
    assert_eq!(status.state(), "exited");
    assert!(
        matches!(&status.outcome, Some(UnitOutcome::Executed { response }) if response == "first")
    );
    assert!(registry.ack("u1"));
    assert_eq!(registry.wait("u1", 8).unwrap_err().to_text(), "not found: unit u1");
}

#[test]
fn units_left_behind_are_orphaned() {
    let mut registry = UnitRegistry::new();
    assert_eq!(registry.adopt(running("u1", "api"), true, 9), Adopted::Stop(77));
    assert_eq!(registry.adopt(running("u1", "api"), true, 9), Adopted::Known);
    assert_eq!(registry.adopt(running("u2", "web"), false, 9), Adopted::Ended);
    assert!(matches!(
        &registry.units.at("u1").unwrap().outcome,
        Some(UnitOutcome::Orphaned { message })
            if message == "process 77 was left by a supervisor that stopped; it was stopped so it cannot run twice"
    ));
    assert!(matches!(
        &registry.units.at("u2").unwrap().outcome,
        Some(UnitOutcome::Orphaned { message })
            if message == "its process ended while no supervisor was running"
    ));
    let mut ended = running("u3", "job");
    ended.outcome = Some(UnitOutcome::Executed { response: "{}".into() });
    registry.restore(ended);
    assert_eq!(registry.wait("u3", 10).unwrap(), true);
}

fn route(instance: &str) -> Route {
    Route { instance_id: instance.into(), target_port: 30000 }
}

#[test]
fn routes_are_written_when_they_change() {
    let mut routes = RouteTable::new();
    assert!(routes.assign(20001, route("b")));
    assert!(routes.assign(20000, route("a")));
    assert!(!routes.assign(20000, route("a")));
    assert!(routes.assign(20000, route("c")));
    let saved = routes.saved();
    assert_eq!(saved.len(), 2);
    assert_eq!(saved[0].port, 20000);
    assert_eq!(saved[0].instance_id, "c");
    assert!(!routes.retain(&vec![20000, 20001]));
    assert!(routes.retain(&vec![20001]));
    assert_eq!(routes.saved().len(), 1);
}

fn plane(protocol: u32) -> DataPlaneInfo {
    DataPlaneInfo {
        kind: "supervisor".into(),
        protocol,
        pid: 12,
        version: "1".into(),
        build_id: None,
        started_at: 0,
        units: 0,
        routes: 0,
        orphans_stopped: 0,
    }
}

#[test]
fn another_protocol_is_never_taken_over() {
    assert_eq!(supervisor_step(Some(&plane(1)), false, "/s").unwrap(), SupervisorStep::Use);
    assert_eq!(supervisor_step(None, true, "/s").unwrap(), SupervisorStep::Launch);
    assert_eq!(
        supervisor_step(None, false, "/s").unwrap_err().message(),
        "no supervisor answers at /s"
    );
    assert_eq!(
        supervisor_step(Some(&plane(2)), true, "/s").unwrap_err().message(),
        "the supervisor on this node (pid 12) speaks protocol 2, not 1; refusing to take it over"
    );
    assert_eq!(launch_step(Some(&plane(1)), 15_000, 12, "/var").unwrap(), LaunchStep::Use);
    assert_eq!(launch_step(None, 14_999, 12, "/var").unwrap(), LaunchStep::Wait);
    assert_eq!(
        launch_step(None, 15_000, 12, "/var").unwrap_err().message(),
        "the supervisor (pid 12) did not answer; see /var/supervisor.log"
    );
    assert_eq!(
        launch_step(Some(&plane(2)), 0, 12, "/var").unwrap_err().message(),
        "the supervisor on this node (pid 12) speaks protocol 2, not 1; refusing to take it over"
    );
    assert!(check_protocol(&plane(1)).is_ok());
    assert_eq!(check_protocol(&plane(0)).unwrap_err().kind(), "invalid");
    assert_eq!(reply_error("not_found", "unit u1".into()).kind(), "not_found");
    assert_eq!(reply_error("conflict", "x".into()).kind(), "conflict");
}

// ---- Supervision ------------------------------------------------------------

#[test]
fn found_units_are_accounted_for() {
    let mut exited = running("u2", "web");
    exited.outcome = Some(UnitOutcome::Executed { response: "{}".into() });
    let mut lost = running("u3", "job");
    lost.outcome = Some(UnitOutcome::Orphaned { message: "gone".into() });
    lost.process = None;
    let mut fresh = running("u5", "cron");
    fresh.process = None;
    let units = vec![running("u1", "api"), exited, lost, running("u4", "old"), fresh];
    let (recovery, found) = reattach(&units, &strings(&["u4"]));
    assert_eq!(recovery.reattached, strings(&["prod/shop/api", "prod/shop/cron"]));
    assert_eq!(recovery.collected, strings(&["prod/shop/web"]));
    assert_eq!(recovery.orphaned, strings(&["prod/shop/job"]));
    assert_eq!(found.len(), 4);
    assert_eq!(found[0].fate, UnitFate::Reattach);
    assert_eq!(found[0].notices[0].message, "prod/shop/api found running on the data plane");
    assert_eq!(
        found[0].notices[1].message,
        "prod/shop/api reattached without a restart (pid 77)"
    );
    assert_eq!(found[1].fate, UnitFate::Collect);
    assert_eq!(found[1].notices.len(), 1);
    assert_eq!(found[1].notices[0].message, "prod/shop/web found exited on the data plane");
    assert_eq!(found[2].notices[1].message, "prod/shop/job was orphaned: gone");
    assert_eq!(found[3].unit, 4);
    assert_eq!(
        found[3].notices[1].message,
        "prod/shop/cron reattached without a restart (pid unknown)"
    );
    assert_eq!(found[0].notices[0].scope.deployment_id.as_deref(), Some("dep_1"));
    assert_eq!(running_units(&units), strings(&["u1", "u4", "u5"]));
}

#[test]
fn a_reattached_unit_runs_on() {
    let mut runtime: Table<Unit, WorkloadRuntime> = Table::new();
    assert_eq!(resume_unit(&mut runtime, &running("u1", "api"), NOW), 1);
    let key = ("prod".to_string(), "shop".to_string(), "api".to_string());
    let unit = runtime.get(&Unit::new(&key, "dep_1")).unwrap();
    assert_eq!(unit.state, Some(ActualState::Running));
    assert_eq!(unit.started_at, Some(7));
    assert_eq!(unit.running_since, Some(NOW));
    assert_eq!(unit.pid, Some(77));
    assert_eq!(unit.placement.provider.as_deref(), Some("local"));
    assert_eq!(supervised_units(&runtime), strings(&["u1"]));
    assert_eq!(known_units(&runtime), strings(&["u1"]));
    assert_eq!(
        detach(true, "daemon_1").unwrap().message,
        "Compute controller daemon_1 stopped; its workloads keep running"
    );
    assert_eq!(
        detach(false, "daemon_1").unwrap_err().message(),
        "this controller runs its workloads in its own process; they cannot outlive it"
    );
}

#[test]
fn releases_advance_in_bounded_rounds() {
    let mut advance = Advance::new();
    let mut rounds = 0;
    while advance.left > 0 {
        assert!(advance.round(true));
        rounds += 1;
    }
    assert_eq!(rounds, 8);
    assert!(advance.changed);
    let mut still = Advance::new();
    assert!(!still.round(false));
    assert_eq!(still.left, 0);
    assert!(!still.changed);
    let mut lost = Advance::new();
    assert!(lost.round(true));
    lost.unreadable();
    assert_eq!(lost.left, 0);
    assert!(lost.changed);
}

#[test]
fn a_supervisor_serves_recorded_routes_again() {
    let mut routes = RouteTable::new();
    for (port, instance) in [(20001u16, "ins_b"), (20000, "ins_a")] {
        assert!(routes.assign(port, Route { instance_id: instance.into(), target_port: 30000 }));
    }
    let mut next = RouteTable::new();
    for recorded in routes.saved() {
        next.assign(
            recorded.port,
            Route { instance_id: recorded.instance_id, target_port: recorded.target_port },
        );
    }
    let seen = vec![Seen { routed: true, open_connections: 2, served_connections: 9 }];
    let served = next.statuses(&vec![20000, 20001], &seen);
    assert_eq!(served.len(), 2);
    assert_eq!((served[0].port, served[0].instance_id.as_str()), (20000, "ins_a"));
    assert!(served[0].listening);
    assert_eq!((served[0].open_connections, served[0].served_connections), (2, 9));
    assert!(!served[1].listening);
    assert!(!next.statuses(&vec![], &seen)[0].listening);
    let info =
        data_plane_info(&UnitRegistry::new(), &next, "supervisor", 7, "1.0", None, 5, 1);
    assert_eq!((info.units, info.routes, info.orphans_stopped), (0, 2, 1));
    assert_eq!(info.protocol, SUPERVISOR_PROTOCOL);
    assert_eq!(info.kind, "supervisor");
}

#[test]
fn an_artifact_says_what_it_is() {
    let told = br#"{"name":"compute","version":"1.2","git_commit":7,"platform":"linux",
        "api":"compute.api@1","supervisor_protocol":1,"extra":[true]}"#;
    match read_answer(Ok(told.to_vec())) {
        ArtifactAnswer::Reported(report) => {
            assert_eq!((report.name.as_str(), report.version.as_str()), ("compute", "1.2"));
            assert_eq!(report.git_commit, "");
            assert_eq!(report.platform, "linux");
            assert_eq!(report.api, "compute.api@1");
            assert_eq!(report.supervisor_protocol, 1);
        }
        _ => panic!("the answer is JSON"),
    }
    match read_answer(Ok(b"[1]".to_vec())) {
        ArtifactAnswer::Reported(report) => {
            assert_eq!(report.name, "");
            assert_eq!(report.supervisor_protocol, 0);
        }
        _ => panic!("the answer is JSON"),
    }
    assert!(matches!(
        read_answer(Ok(b"compute 1.2".to_vec())),
        ArtifactAnswer::Unreadable(error) if error == "expected value at line 1 column 1"
    ));
    assert!(matches!(
        read_answer(Err("killed".into())),
        ArtifactAnswer::DoesNotRun(error) if error == "killed"
    ));
    let fields = vec![
        ("version".to_string(), JsonField::Text("old".into())),
        ("version".to_string(), JsonField::Text("new".into())),
        ("supervisor_protocol".to_string(), JsonField::Other),
    ];
    assert_eq!(report_build(&fields).version, "new");
    assert_eq!(field_text(&fields, "name"), "");
    assert_eq!(field_number(&fields, "supervisor_protocol"), 0);
}
