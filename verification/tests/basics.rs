use compute_environment::digest::{content_identity, hex, project_id, short_digest, workload_id};
use compute_environment::error::{from_state, EnvironmentError, StateError};
use compute_environment::events::{
    attribute, object, Change, Datum, EventData, EventKind, Notice, RequestContext, Scope,
    Sequence,
};
use compute_environment::ids::{endpoint, label};
use compute_environment::model::{
    validate_env, validate_name, ActualState, Config, DesiredState, RestartPolicy, WorkloadKind,
};
use compute_environment::table::Table;
use compute_environment::text::{
    decimal, find_text, head_of, join, join_path, less, lowercase, parse_number, signed_decimal,
    sort_texts, split, split_words, trim, trim_end, trim_prefix, uppercase,
};
use compute_environment::time::{day_of, moment_of, moment_rfc3339, stamp_of};

fn strings(values: &[&str]) -> Vec<String> {
    values.iter().map(|value| value.to_string()).collect()
}

fn characters(text: &str) -> Vec<char> {
    text.chars().collect()
}

#[test]
fn errors_report_kind_message_and_status() {
    let cases: Vec<(EnvironmentError, &str, &str, &str, u16)> = vec![
        (EnvironmentError::Invalid("x".into()), "invalid", "x", "invalid: x", 400),
        (EnvironmentError::NotFound("x".into()), "not_found", "x", "not found: x", 404),
        (EnvironmentError::NoRoute("x".into()), "no_route", "x", "no such operation: x", 404),
        (EnvironmentError::Conflict("x".into()), "conflict", "x", "conflict: x", 409),
        (EnvironmentError::Denied("x".into()), "admission_denied", "x", "admission denied: x", 403),
        (EnvironmentError::Unauthorized("x".into()), "unauthorized", "x", "unauthorized: x", 401),
        (
            EnvironmentError::Unavailable("x".into()),
            "state_unavailable",
            "x",
            "control state unavailable: x",
            503,
        ),
        (EnvironmentError::Io("x".into()), "io", "I/O error: x", "I/O error: x", 500),
        (EnvironmentError::Json("x".into()), "invalid", "JSON error: x", "JSON error: x", 400),
        (EnvironmentError::Compute("x".into()), "invalid", "x", "x", 400),
        (
            EnvironmentError::RuntimeUnavailable("x".into()),
            "runtime_unavailable",
            "x",
            "runtime unavailable: x",
            503,
        ),
        (
            EnvironmentError::UpgradeFailed("x".into()),
            "upgrade_failed",
            "x",
            "upgrade failed: x",
            409,
        ),
    ];
    for (error, kind, message, report, status) in cases {
        assert_eq!(error.kind(), kind);
        assert_eq!(error.message(), message);
        assert_eq!(error.to_text(), report);
        assert_eq!(error.status(), status);
    }
}

#[test]
fn state_errors_become_environment_errors() {
    let retry = "x; another change landed first, retry against the current state";
    assert!(
        matches!(from_state(StateError::Conflict("x".into())), EnvironmentError::Conflict(text) if text == retry)
    );
    assert!(
        matches!(from_state(StateError::Precondition("x".into())), EnvironmentError::Conflict(text) if text == retry)
    );
    assert!(
        matches!(from_state(StateError::NotFound("x".into())), EnvironmentError::NotFound(text) if text == "x")
    );
    assert!(
        matches!(from_state(StateError::Invalid("x".into())), EnvironmentError::Invalid(text) if text == "x")
    );
    assert!(
        matches!(from_state(StateError::Unavailable("x".into())), EnvironmentError::Unavailable(text) if text == "x")
    );
}

#[test]
fn names_are_ordinary_identifiers() {
    for name in ["preprod", "prod", "review-123", "customer-acme", "1st", "a"] {
        assert!(validate_name("environment", name).is_ok(), "{name}");
    }
    assert!(validate_name("environment", &"a".repeat(63)).is_ok());
    for name in ["", "-a", "Prod", "a_b", "a b", "caf\u{e9}"] {
        assert!(validate_name("environment", name).is_err(), "{name}");
    }
    assert!(validate_name("environment", &"a".repeat(64)).is_err());
    let error = validate_name("project", "A\"b").unwrap_err();
    assert_eq!(
        error.message(),
        "invalid project name \"A\\\"b\": use 1-63 lowercase letters, digits, or '-', starting with a letter or digit"
    );
}

#[test]
fn configuration_keys_belong_to_the_operator() {
    let mut env = Config::new();
    env.insert("LOG_LEVEL".into(), "info".into());
    assert!(validate_env("project", &env).is_ok());
    for (name, value) in [
        ("", "x"),
        ("A=B", "x"),
        ("A\0B", "x"),
        ("A", "x\0"),
        ("COMPUTE_TOKEN", "x"),
        ("PORT", "80"),
    ] {
        let mut env = Config::new();
        env.insert("LOG_LEVEL".into(), "info".into());
        env.insert(name.into(), value.into());
        let error = validate_env("project", &env).unwrap_err();
        assert_eq!(
            error.message(),
            format!("project configuration key {name:?} is invalid or reserved by Compute")
        );
    }
}

#[test]
fn states_have_names_and_defaults() {
    let states = [
        (ActualState::Pending, "pending"),
        (ActualState::Starting, "starting"),
        (ActualState::Running, "running"),
        (ActualState::Stopping, "stopping"),
        (ActualState::Stopped, "stopped"),
        (ActualState::Completed, "completed"),
        (ActualState::Failed, "failed"),
        (ActualState::Denied, "denied"),
        (ActualState::Degraded, "degraded"),
    ];
    for (state, name) in states {
        assert_eq!(state.as_str(), name);
    }
    assert_eq!(WorkloadKind::Service.as_str(), "service");
    assert_eq!(WorkloadKind::Task.as_str(), "task");
    assert_eq!(DesiredState::default(), DesiredState::Running);
    assert_eq!(RestartPolicy::default(), RestartPolicy::Never);
}

#[test]
fn digests_identify_content() {
    assert_eq!(
        content_identity(&b"abc".to_vec()),
        "sha256:ba7816bf8f01cfea414140de5dae2223b00361a396177a9cb410ff61f20015ad"
    );
    assert_eq!(hex(&vec![0x00, 0x0f, 0xa0, 0xff]), "000fa0ff");
    assert_eq!(short_digest(&[]), "e3b0c44298fc1c149afbf4c8");
    assert_eq!(project_id("env_1", "shop"), "prj_b6108c961f2beceaa8882ae6");
    assert_eq!(workload_id("prj_1", "api"), "wl_4bd3548fc8d27a2be58384c3");
    // Parts are framed: they never run together.
    assert_ne!(short_digest(&["ab", "c"]), short_digest(&["a", "bc"]));
}

#[test]
fn moments_are_written_in_utc() {
    let at: i64 = 1_700_000_000_123_000_000;
    assert_eq!(day_of(at), "2023-11-14");
    assert_eq!(stamp_of(at), "20231114T221320.123Z");
    assert_eq!(moment_of(1_700_000_000_000_000_000), "2023-11-14 22:13:20 UTC");
    assert_eq!(
        moment_rfc3339(1_700_000_000_000_000_000),
        "2023-11-14T22:13:20+00:00"
    );
}

#[test]
fn names_are_made_of_names() {
    assert_eq!(endpoint("prod", "shop", "api", "http"), "prod/shop/api/http");
    assert_eq!(label("prod", "shop", "api"), "prod/shop/api");
}

#[test]
fn text_helpers_do_as_they_say() {
    assert!(less("a", "b") && less("a", "ab") && !less("b", "a") && !less("a", "a"));
    assert!(less("Z", "a"));
    assert_eq!(trim_prefix("sha256:sha256:ab", "sha256:"), "ab");
    assert_eq!(trim_end("a.b..", '.'), "a.b");
    assert_eq!(trim("  a b\n"), "a b");
    assert_eq!(trim(" \t\n"), "");
    assert_eq!(head_of("abcdef", 4), "abcd");
    assert_eq!(head_of("ab", 4), "ab");
    assert_eq!(lowercase("Ab-\u{c9}"), "ab-\u{c9}");
    assert_eq!(uppercase("ab-\u{e9}"), "AB-\u{e9}");
    assert_eq!(split(&characters("a..b"), '.'), strings(&["a", "", "b"]));
    assert_eq!(split(&characters(""), '.'), strings(&[""]));
    assert_eq!(split_words(&characters(" a  b\tc\n")), strings(&["a", "b", "c"]));
    assert_eq!(find_text(&characters("a://b"), "://"), Some(1));
    assert_eq!(find_text(&characters("ab"), "://"), None);
    assert_eq!(decimal(0), "0");
    assert_eq!(decimal(18446744073709551615), "18446744073709551615");
    assert_eq!(signed_decimal(-9223372036854775808), "-9223372036854775808");
    assert_eq!(parse_number(&characters("+12"), 100), Some(12));
    assert_eq!(parse_number(&characters("101"), 100), None);
    assert_eq!(parse_number(&characters("1a"), 100), None);
    assert_eq!(parse_number(&characters("+"), 100), None);
    assert_eq!(join(&strings(&["a", "b"]), ", "), "a, b");
    assert_eq!(join(&strings(&[]), ", "), "");
    assert_eq!(join_path("/var", "x"), "/var/x");
    assert_eq!(join_path("/var/", "x"), "/var/x");
    assert_eq!(join_path("", "x"), "x");
    assert_eq!(join_path("/var", "/x"), "/x");
    assert_eq!(sort_texts(&strings(&["b", "a", "b", ""])), strings(&["", "a", "b", "b"]));
}

#[test]
fn tables_keep_their_keys_in_order() {
    let mut table: Table<String, u64> = Table::new();
    assert!(table.is_empty());
    assert_eq!(table.insert("b".into(), 1), None);
    assert_eq!(table.insert("a".into(), 2), None);
    assert_eq!(table.insert("b".into(), 3), Some(1));
    assert_eq!(table.len(), 2);
    assert_eq!(table.key_at(0), "a");
    assert_eq!(table.at("b"), Some(&3));
    assert_eq!(table.at("c"), None);
    assert_eq!(table.remove(&"a".to_string()), Some(2));
    assert!(!table.contains_key(&"a".to_string()));
    assert_eq!(table.len(), 1);
}

#[test]
fn a_notice_is_reported_with_its_facts() {
    let mut sequence = Sequence { last: 0 };
    let mut change = Change::new();
    let notice = Notice::new(
        EventKind::EnvironmentCreated,
        Scope::environment("prod"),
        "Environment prod created".into(),
    )
    .with("environment_id", Datum::text("env_1"))
    .with("policy", Datum::option(&None))
    .with("since", Datum::moment(Some(5)))
    .with("environment_id", Datum::text("env_2"));
    sequence.report(&mut change, notice, &None, 9);
    assert_eq!(change.events.len(), 1);
    assert_eq!(change.events[0].sequence, 1);
    assert_eq!(change.events[0].at, 9);
    assert_eq!(change.events[0].message, "Environment prod created");
    match &change.events[0].data {
        EventData::Object(data) => {
            assert_eq!(data.len(), 3);
            assert!(matches!(data.at("environment_id"), Some(Datum::Text(id)) if id == "env_2"));
            assert!(matches!(data.at("policy"), Some(Datum::Null)));
            assert!(matches!(data.at("since"), Some(Datum::Moment(5))));
        }
        _ => panic!("facts are an object"),
    }
    assert!(matches!(object(vec![]), EventData::Object(data) if data.is_empty()));
}

#[test]
fn events_are_numbered_and_attributed() {
    let mut sequence = Sequence { last: 6 };
    let mut change = Change::new();
    let request = Some(RequestContext {
        request_id: "req_1".into(),
        operator_id: "ana".into(),
        credential_id: Some("cred_1".into()),
    });
    sequence.event(
        &mut change,
        EventKind::EnvironmentCreated,
        Scope::environment("prod"),
        "Environment prod created".into(),
        EventData::Null,
        &request,
        5,
    );
    sequence.event(
        &mut change,
        EventKind::ProjectAdded,
        Scope::project("prod", "shop").deployment("dep_1"),
        "shop added to prod".into(),
        EventData::Null,
        &None,
        6,
    );
    assert_eq!(change.events.len(), 2);
    assert_eq!(change.events[0].sequence, 7);
    assert_eq!(change.events[1].sequence, 8);
    assert_eq!(sequence.last, 8);
    assert_eq!(change.events[1].scope.deployment_id.as_deref(), Some("dep_1"));
    match &change.events[0].data {
        EventData::Object(data) => {
            assert!(matches!(data.at("request_id"), Some(Datum::Text(text)) if text == "req_1"));
            assert!(matches!(data.at("operator_id"), Some(Datum::Text(text)) if text == "ana"));
            assert!(data.at("credential_id").is_none());
        }
        _ => panic!("data without a value becomes an object"),
    }
    sequence.continue_after(4);
    assert_eq!(sequence.last, 8);
    sequence.continue_after(40);
    assert_eq!(sequence.last, 40);
}

#[test]
fn attribution_never_overwrites() {
    let request = Some(RequestContext {
        request_id: "req_1".into(),
        operator_id: "ana".into(),
        credential_id: Some("cred_1".into()),
    });
    let mut data: Table<String, Datum> = Table::new();
    data.insert("operator_id".into(), Datum::Text("bo".into()));
    match attribute(EventData::Object(data), &request) {
        EventData::Object(data) => {
            assert!(matches!(data.at("operator_id"), Some(Datum::Text(text)) if text == "bo"));
            assert!(matches!(data.at("request_id"), Some(Datum::Text(text)) if text == "req_1"));
            assert!(matches!(data.at("credential_id"), Some(Datum::Text(text)) if text == "cred_1"));
        }
        _ => panic!("an object stays an object"),
    }
    assert!(
        matches!(attribute(EventData::Other("[1]".into()), &request), EventData::Other(text) if text == "[1]")
    );
}
