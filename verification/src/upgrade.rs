//! Upgrading the controller without touching its workloads.
//!
//! The artifact is validated first: its digest, its platform and the
//! protocols it speaks. The controller then stops supervising and hands
//! over. A new build that cannot account for every workload that was running
//! refuses to take over, and the previous build is restored.

use vstd::prelude::*;

use crate::dataplane::SUPERVISOR_PROTOCOL;
use crate::digest::{parts_of, short_digest, short_digest_text};
use crate::error::{EnvironmentError, Refusal};
use crate::events::{fact, no_scope, Datum, DatumText, EventKind, FactText, Notice, Scope};
use crate::identity::ControllerIdentity;
use crate::json::{
    field_number, field_text, number_of, object_texts, parse_object, parsed_object, text_of,
    FieldText, JsonField,
};
use crate::text::{
    copy_list, copy_option, decimal, decimal_text, first_chars, head_of, join, join_path, joined,
    law_prefixes_are_taken_away, list_has, opt_text, path_text, same, signed_decimal, signed_text,
    starts_with, texts, trim_prefix, without_prefix,
};

verus! {

/// A Compute build, as it describes itself and as its bytes hash.
#[derive(Debug, PartialEq, Eq)]
pub struct BuildIdentity {
    pub path: String,
    pub version: String,
    pub git_commit: String,
    /// SHA-256 of the executable.
    pub build_id: String,
    pub platform: String,
    pub api: String,
    pub supervisor_protocol: u32,
}

impl Clone for BuildIdentity {
    fn clone(&self) -> (r: Self)
        ensures
            r == *self,
    {
        BuildIdentity {
            path: self.path.clone(),
            version: self.version.clone(),
            git_commit: self.git_commit.clone(),
            build_id: self.build_id.clone(),
            platform: self.platform.clone(),
            api: self.api.clone(),
            supervisor_protocol: self.supervisor_protocol,
        }
    }
}

/// An operator's request to replace the controller.
#[derive(Debug)]
pub struct UpgradeRequest {
    /// The new Compute executable, on this node.
    pub artifact: String,
    /// Refuse unless the artifact has exactly this SHA-256.
    pub expect_sha256: Option<String>,
    /// How long the new controller has to become ready, in seconds.
    pub timeout_seconds: Option<u64>,
}

/// Where an upgrade stands. `started`, then `completed`; or `started`,
/// `rolling_back` and `rolled_back`.
#[derive(Debug)]
pub struct UpgradeRecord {
    pub upgrade_id: String,
    /// `upgrade` or `rollback`.
    pub kind: String,
    pub status: String,
    pub from: BuildIdentity,
    pub to: BuildIdentity,
    /// Units running when it began; the new controller must reattach every
    /// one still running, or refuse.
    pub units: Vec<String>,
    pub timeout_seconds: u64,
    pub requested_by: String,
    pub started_at: i64,
    pub finished_at: Option<i64>,
    pub reason: Option<String>,
    /// The controller instance serving after it.
    pub controller: Option<String>,
}

/// The record of an upgrade as plain values.
pub ghost struct UpgradeText {
    pub upgrade_id: Seq<char>,
    pub kind: Seq<char>,
    pub status: Seq<char>,
    pub from: BuildIdentity,
    pub to: BuildIdentity,
    pub units: Seq<String>,
    pub timeout_seconds: u64,
    pub requested_by: Seq<char>,
    pub started_at: i64,
    pub finished_at: Option<i64>,
    pub reason: Option<Seq<char>>,
    pub controller: Option<Seq<char>>,
}

impl View for UpgradeRecord {
    type V = UpgradeText;

    open spec fn view(&self) -> UpgradeText {
        UpgradeText {
            upgrade_id: self.upgrade_id@,
            kind: self.kind@,
            status: self.status@,
            from: self.from,
            to: self.to,
            units: self.units@,
            timeout_seconds: self.timeout_seconds,
            requested_by: self.requested_by@,
            started_at: self.started_at,
            finished_at: self.finished_at,
            reason: opt_text(self.reason),
            controller: opt_text(self.controller),
        }
    }
}

impl Clone for UpgradeRecord {
    fn clone(&self) -> (r: Self)
        ensures
            r@ == self@,
    {
        UpgradeRecord {
            upgrade_id: self.upgrade_id.clone(),
            kind: self.kind.clone(),
            status: self.status.clone(),
            from: self.from.clone(),
            to: self.to.clone(),
            units: copy_list(&self.units),
            timeout_seconds: self.timeout_seconds,
            requested_by: self.requested_by.clone(),
            started_at: self.started_at,
            finished_at: self.finished_at,
            reason: copy_option(&self.reason),
            controller: copy_option(&self.controller),
        }
    }
}

/// The record of an upgrade, as a fact.
pub open spec fn upgrade_facts(record: UpgradeRecord) -> Seq<FactText> {
    seq![fact("upgrade"@, DatumText::Upgrade(record@))]
}

fn upgrade_notice(kind: EventKind, message: String, record: &UpgradeRecord) -> (r: Notice)
    ensures
        r.says(kind, no_scope(), message@, upgrade_facts(*record)),
{
    Notice::new(kind, Scope::default(), message).with("upgrade", Datum::Upgrade(record.clone()))
}

impl UpgradeRecord {
    pub open spec fn terminal(self) -> bool {
        self.status@ == "completed"@ || self.status@ == "rolled_back"@ || self.status@
            == "failed"@
    }

    /// Whether the upgrade ended.
    pub fn is_terminal(&self) -> (r: bool)
        ensures
            r == self.terminal(),
    {
        same(&self.status, "completed") || same(&self.status, "rolled_back") || same(
            &self.status,
            "failed",
        )
    }
}

/// Where a node keeps the record of its last upgrade.
pub fn record_path(state_dir: &str) -> (r: String)
    ensures
        r@ == path_text(state_dir@, "upgrade.json"@),
{
    join_path(state_dir, "upgrade.json")
}

/// The running controller's build, serving an API version.
pub fn current_build(identity: ControllerIdentity, api: &str) -> (r: BuildIdentity)
    ensures
        r.path == identity.executable,
        r.version == identity.version,
        r.git_commit == identity.git_commit,
        r.build_id == identity.build_id,
        r.platform == identity.platform,
        r.api@ == api@,
        r.supervisor_protocol == SUPERVISOR_PROTOCOL,
{
    BuildIdentity {
        path: identity.executable,
        version: identity.version,
        git_commit: identity.git_commit,
        build_id: identity.build_id,
        platform: identity.platform,
        api: api.to_owned(),
        supervisor_protocol: SUPERVISOR_PROTOCOL,
    }
}

// ---- Validating an artifact -------------------------------------------------

/// What reading an artifact gave.
#[derive(Debug)]
pub enum ArtifactFile {
    Unreadable(String),
    NotAFile,
    Unhashable(String),
    Hashed(String),
}

/// A digest as it is compared: with its algorithm.
pub open spec fn full_digest(expected: Seq<char>) -> Seq<char> {
    if "sha256:"@.is_prefix_of(expected) {
        expected
    } else {
        "sha256:"@ + expected
    }
}

/// Why an artifact's file is refused.
pub open spec fn file_refusal(path: Seq<char>, file: ArtifactFile, expected: Option<Seq<char>>) -> Option<
    Seq<char>,
> {
    match file {
        ArtifactFile::Unreadable(error) => Some(path + ": "@ + error@),
        ArtifactFile::NotAFile => Some(path + " is not a file"@),
        ArtifactFile::Unhashable(error) => Some(path + ": "@ + error@),
        ArtifactFile::Hashed(digest) => match expected {
            Some(expected) => if full_digest(expected) != digest@ {
                Some(
                    path + " is "@ + digest@ + ", not the expected "@ + full_digest(expected),
                )
            } else {
                None
            },
            None => None,
        },
    }
}

/// Check an artifact's file: it can be read, and has the digest expected.
/// Returns its digest.
pub fn check_file(path: &str, file: ArtifactFile, expected: &Option<String>) -> (r: Result<
    String,
    EnvironmentError,
>)
    ensures
        match file_refusal(path@, file, opt_text(*expected)) {
            Some(text) => r matches Err(error) && error.reports(Refusal::UpgradeFailed(text)),
            None => file matches ArtifactFile::Hashed(digest) && r == Ok::<
                String,
                EnvironmentError,
            >(digest),
        },
{
    let mut text = path.to_owned();
    match file {
        ArtifactFile::Unreadable(error) => {
            text.append(": ");
            text.append(&error);
        },
        ArtifactFile::NotAFile => {
            text.append(" is not a file");
        },
        ArtifactFile::Unhashable(error) => {
            text.append(": ");
            text.append(&error);
        },
        ArtifactFile::Hashed(digest) => {
            let expected = match expected {
                Some(expected) => if starts_with(expected, "sha256:") {
                    expected.clone()
                } else {
                    "sha256:".to_owned().concat(expected)
                },
                None => {
                    return Ok(digest);
                },
            };
            if same(&expected, &digest) {
                return Ok(digest);
            }
            text.append(" is ");
            text.append(&digest);
            text.append(", not the expected ");
            text.append(&expected);
        },
    }
    Err(EnvironmentError::UpgradeFailed(text))
}

/// What an artifact says of itself when it is run. What it leaves out is
/// empty.
#[derive(Debug)]
pub struct ReportedBuild {
    pub name: String,
    pub version: String,
    pub git_commit: String,
    pub platform: String,
    pub api: String,
    pub supervisor_protocol: u64,
}

/// Whether a report is what the fields of an answer say.
pub open spec fn is_report(report: ReportedBuild, fields: Seq<(Seq<char>, FieldText)>) -> bool {
    &&& report.name@ == text_of(fields, "name"@)
    &&& report.version@ == text_of(fields, "version"@)
    &&& report.git_commit@ == text_of(fields, "git_commit"@)
    &&& report.platform@ == text_of(fields, "platform"@)
    &&& report.api@ == text_of(fields, "api"@)
    &&& report.supervisor_protocol == number_of(fields, "supervisor_protocol"@)
}

/// Take what an artifact says of itself from the fields of its answer.
pub fn report_build(fields: &Vec<(String, JsonField)>) -> (r: ReportedBuild)
    ensures
        is_report(r, object_texts(fields@)),
{
    ReportedBuild {
        name: field_text(fields, "name"),
        version: field_text(fields, "version"),
        git_commit: field_text(fields, "git_commit"),
        platform: field_text(fields, "platform"),
        api: field_text(fields, "api"),
        supervisor_protocol: field_number(fields, "supervisor_protocol"),
    }
}

/// What running an artifact gave.
#[derive(Debug)]
pub enum ArtifactAnswer {
    DoesNotRun(String),
    /// What it said cannot be read, and why.
    Unreadable(String),
    Reported(ReportedBuild),
}

/// Read what an artifact said when it was run: what it printed, or why it
/// does not run.
pub fn read_answer(output: Result<Vec<u8>, String>) -> (r: ArtifactAnswer)
    ensures
        match output {
            Err(error) => r == ArtifactAnswer::DoesNotRun(error),
            Ok(bytes) => match parsed_object(bytes@) {
                Err(error) => r matches ArtifactAnswer::Unreadable(text) && text@ == error,
                Ok(fields) => r matches ArtifactAnswer::Reported(report) && is_report(
                    report,
                    fields,
                ),
            },
        },
{
    match output {
        Err(error) => ArtifactAnswer::DoesNotRun(error),
        Ok(bytes) => match parse_object(&bytes) {
            Err(error) => ArtifactAnswer::Unreadable(error),
            Ok(fields) => ArtifactAnswer::Reported(report_build(&fields)),
        },
    }
}

/// Why an artifact that answered is refused: it is not a compatible
/// Compute. Another platform, another API or another supervisor protocol is
/// never taken over.
pub open spec fn build_refusal(path: Seq<char>, answer: ArtifactAnswer, current: BuildIdentity) -> Option<
    Seq<char>,
> {
    match answer {
        ArtifactAnswer::DoesNotRun(error) => Some(path + " does not run: "@ + error@),
        ArtifactAnswer::Unreadable(error) => Some(
            path + " is not a Compute build (version --json: "@ + error@ + ")"@,
        ),
        ArtifactAnswer::Reported(reported) => if reported.name@ != "compute"@ {
            Some(path + " does not identify as Compute"@)
        } else if reported.platform@ != current.platform@ {
            Some(
                path + " is built for "@ + reported.platform@ + ", this node is "@
                    + current.platform@,
            )
        } else if reported.api@ != current.api@ {
            Some(
                path + " serves "@ + reported.api@ + ", not "@ + current.api@
                    + "; clients would break"@,
            )
        } else if reported.supervisor_protocol != current.supervisor_protocol {
            Some(
                path + " speaks supervisor protocol "@ + decimal_text(
                    reported.supervisor_protocol as nat,
                ) + ", this node's supervisor speaks "@ + decimal_text(
                    current.supervisor_protocol as nat,
                ) + "; it could not reattach"@,
            )
        } else {
            None
        },
    }
}

/// Check what an artifact says of itself against the running build.
pub fn check_build(
    path: &str,
    digest: String,
    answer: ArtifactAnswer,
    current: &BuildIdentity,
) -> (r: Result<BuildIdentity, EnvironmentError>)
    ensures
        match build_refusal(path@, answer, *current) {
            Some(text) => r matches Err(error) && error.reports(Refusal::UpgradeFailed(text)),
            None => {
                &&& r matches Ok(build)
                &&& answer matches ArtifactAnswer::Reported(reported)
                &&& build.path@ == path@
                &&& build.version == reported.version
                &&& build.git_commit == reported.git_commit
                &&& build.build_id == digest
                &&& build.platform == reported.platform
                &&& build.api == reported.api
                &&& build.supervisor_protocol == current.supervisor_protocol
            },
        },
{
    let mut text = path.to_owned();
    let reported = match answer {
        ArtifactAnswer::DoesNotRun(error) => {
            text.append(" does not run: ");
            text.append(&error);
            return Err(EnvironmentError::UpgradeFailed(text));
        },
        ArtifactAnswer::Unreadable(error) => {
            text.append(" is not a Compute build (version --json: ");
            text.append(&error);
            text.append(")");
            return Err(EnvironmentError::UpgradeFailed(text));
        },
        ArtifactAnswer::Reported(reported) => reported,
    };
    if !same(&reported.name, "compute") {
        text.append(" does not identify as Compute");
        return Err(EnvironmentError::UpgradeFailed(text));
    }
    if !same(&reported.platform, &current.platform) {
        text.append(" is built for ");
        text.append(&reported.platform);
        text.append(", this node is ");
        text.append(&current.platform);
        return Err(EnvironmentError::UpgradeFailed(text));
    }
    if !same(&reported.api, &current.api) {
        text.append(" serves ");
        text.append(&reported.api);
        text.append(", not ");
        text.append(&current.api);
        text.append("; clients would break");
        return Err(EnvironmentError::UpgradeFailed(text));
    }
    if reported.supervisor_protocol != current.supervisor_protocol as u64 {
        text.append(" speaks supervisor protocol ");
        text.append(&decimal(reported.supervisor_protocol));
        text.append(", this node's supervisor speaks ");
        text.append(&decimal(current.supervisor_protocol as u64));
        text.append("; it could not reattach");
        return Err(EnvironmentError::UpgradeFailed(text));
    }
    Ok(
        BuildIdentity {
            path: text,
            version: reported.version,
            git_commit: reported.git_commit,
            build_id: digest,
            platform: reported.platform,
            api: reported.api,
            supervisor_protocol: current.supervisor_protocol,
        },
    )
}

// ---- Keeping builds ---------------------------------------------------------

/// Where a node keeps a build, by what its bytes hash to.
pub open spec fn kept_path(state_dir: Seq<char>, build_id: Seq<char>) -> Seq<char> {
    path_text(
        path_text(
            path_text(state_dir, "binaries"@),
            first_chars(without_prefix(build_id, "sha256:"@), 16),
        ),
        "compute"@,
    )
}

pub fn binary_path(state_dir: &str, build_id: &str) -> (r: String)
    ensures
        r@ == kept_path(state_dir@, build_id@),
{
    let digest = trim_prefix(build_id, "sha256:");
    join_path(
        &join_path(&join_path(state_dir, "binaries"), &head_of(&digest, 16)),
        "compute",
    )
}

/// Check the copy of a build that was just kept: it must hash to the
/// build's identity.
pub fn check_copy(build: &BuildIdentity, path: &str, digest: &str) -> (r: Result<
    (),
    EnvironmentError,
>)
    ensures
        if digest@ == build.build_id@ {
            r is Ok
        } else {
            r matches Err(error) && error.reports(
                Refusal::UpgradeFailed(
                    "the copy of "@ + build.path@ + " kept at "@ + path@
                        + " does not match its build ID"@,
                ),
            )
        },
{
    if same(digest, &build.build_id) {
        return Ok(());
    }
    let mut text = "the copy of ".to_owned();
    text.append(&build.path);
    text.append(" kept at ");
    text.append(path);
    text.append(" does not match its build ID");
    Err(EnvironmentError::UpgradeFailed(text))
}

/// A build's identity, shortened for reports.
pub open spec fn short_build(build_id: Seq<char>) -> Seq<char> {
    first_chars(without_prefix(build_id, "sha256:"@), 12)
}

pub fn short(build_id: &str) -> (r: String)
    ensures
        r@ == short_build(build_id@),
{
    head_of(&trim_prefix(build_id, "sha256:"), 12)
}

// ---- Handing over -----------------------------------------------------------

/// The build a rollback returns to: the one the last upgrade replaced, when
/// the running build is the one it installed.
pub open spec fn rollback_build(last: Option<UpgradeRecord>, current: BuildIdentity) -> Option<
    BuildIdentity,
> {
    match last {
        Some(last) => if last.to.build_id@ == current.build_id@ {
            Some(last.from)
        } else {
            None
        },
        None => None,
    }
}

/// The build a rollback returns to: the one the last upgrade replaced, when
/// the running build is the one it installed.
pub fn rollback_target(last: Option<&UpgradeRecord>, current: &BuildIdentity) -> (r: Result<
    BuildIdentity,
    EnvironmentError,
>)
    ensures
        match last {
            None => r matches Err(error) && error.reports(
                Refusal::NotFound("no upgrade has run on this node"@),
            ),
            Some(last) => if last.to.build_id@ == current.build_id@ {
                r matches Ok(build) && rollback_build(Some(*last), *current) == Some(build)
            } else {
                r matches Err(error) && error.reports(
                    Refusal::Conflict(
                        "this controller ("@ + current.build_id@
                            + ") is not the one the last upgrade installed ("@
                            + last.to.build_id@ + "); nothing to roll back to"@,
                    ),
                )
            },
        },
{
    match last {
        None => Err(EnvironmentError::NotFound("no upgrade has run on this node".to_owned())),
        Some(last) => if same(&last.to.build_id, &current.build_id) {
            Ok(last.from.clone())
        } else {
            let mut text = "this controller (".to_owned();
            text.append(&current.build_id);
            text.append(") is not the one the last upgrade installed (");
            text.append(&last.to.build_id);
            text.append("); nothing to roll back to");
            Err(EnvironmentError::Conflict(text))
        },
    }
}

/// Why a hand-over to another build is refused.
pub open spec fn hand_over_refusal(
    independent: bool,
    last: Option<UpgradeRecord>,
    from: BuildIdentity,
    to: BuildIdentity,
) -> Option<Refusal> {
    if !independent {
        Some(
            Refusal::UpgradeFailed(
                "this controller runs its workloads in its own process; upgrading it would stop them. Start it with the supervisor data plane"@,
            ),
        )
    } else if last is Some && !last->0.terminal() {
        Some(
            Refusal::Conflict(
                "upgrade "@ + last->0.upgrade_id@ + " is "@ + last->0.status@,
            ),
        )
    } else if from.build_id@ == to.build_id@ {
        Some(Refusal::Conflict("this controller already runs "@ + to.build_id@))
    } else {
        None
    }
}

/// Check that a hand-over to another build may begin.
pub fn check_hand_over(
    independent: bool,
    last: Option<&UpgradeRecord>,
    from: &BuildIdentity,
    to: &BuildIdentity,
) -> (r: Result<(), EnvironmentError>)
    ensures
        match hand_over_refusal(
            independent,
            match last {
                Some(last) => Some(*last),
                None => None,
            },
            *from,
            *to,
        ) {
            Some(refusal) => r matches Err(error) && error.reports(refusal),
            None => r is Ok,
        },
{
    if !independent {
        return Err(
            EnvironmentError::UpgradeFailed(
                "this controller runs its workloads in its own process; upgrading it would stop them. Start it with the supervisor data plane".to_owned(),
            ),
        );
    }
    if let Some(last) = last {
        if !last.is_terminal() {
            let mut text = "upgrade ".to_owned();
            text.append(&last.upgrade_id);
            text.append(" is ");
            text.append(&last.status);
            return Err(EnvironmentError::Conflict(text));
        }
    }
    if same(&from.build_id, &to.build_id) {
        let mut text = "this controller already runs ".to_owned();
        text.append(&to.build_id);
        return Err(EnvironmentError::Conflict(text));
    }
    Ok(())
}

/// How long a new controller has to become ready: a minute, and never less
/// than five seconds or more than an hour.
pub open spec fn hand_over_timeout(asked: Option<u64>) -> u64 {
    let seconds = match asked {
        Some(seconds) => seconds,
        None => 60,
    };
    if seconds < 5 {
        5
    } else if seconds > 3600 {
        3600
    } else {
        seconds
    }
}

/// An upgrade's identifier: the build it installs, and when it began.
pub open spec fn upgrade_id_text(build_id: Seq<char>, at: i64) -> Seq<char> {
    "upg_"@ + short_digest_text(seq![build_id, signed_text(at as int)])
}

pub open spec fn started_text(kind: Seq<char>, from: BuildIdentity, to: BuildIdentity) -> Seq<char> {
    kind + " of the controller from "@ + from.version@ + " ("@ + short_build(from.build_id@)
        + ") to "@ + to.version@ + " ("@ + short_build(to.build_id@)
        + ") started; workloads keep running"@
}

/// Whether a build is another, kept on this node.
pub open spec fn is_kept(kept: BuildIdentity, build: BuildIdentity, state_dir: Seq<char>) -> bool {
    &&& kept.path@ == kept_path(state_dir, build.build_id@)
    &&& kept == (BuildIdentity { path: kept.path, ..build })
}

/// Begin a hand-over: the record the new controller finishes, and what is
/// reported. Both builds were kept, so either can run again. `units` are the
/// units running now.
pub fn begin_hand_over(
    state_dir: &str,
    kind: &str,
    from: BuildIdentity,
    to: BuildIdentity,
    units: Vec<String>,
    timeout_seconds: Option<u64>,
    requested_by: &str,
    now: i64,
) -> (r: (UpgradeRecord, Notice))
    ensures
        r.0.upgrade_id@ == upgrade_id_text(to.build_id@, now),
        r.0.kind@ == kind@,
        r.0.status@ == "started"@,
        is_kept(r.0.from, from, state_dir@),
        is_kept(r.0.to, to, state_dir@),
        r.0.units == units,
        r.0.timeout_seconds == hand_over_timeout(timeout_seconds),
        r.0.requested_by@ == requested_by@,
        r.0.started_at == now,
        r.0.finished_at is None,
        r.0.reason is None,
        r.0.controller is None,
        r.1.says(
            EventKind::UpgradeStarted,
            no_scope(),
            started_text(kind@, from, to),
            upgrade_facts(r.0),
        ),
{
    let mut message = kind.to_owned();
    message.append(" of the controller from ");
    message.append(&from.version);
    message.append(" (");
    message.append(&short(&from.build_id));
    message.append(") to ");
    message.append(&to.version);
    message.append(" (");
    message.append(&short(&to.build_id));
    message.append(") started; workloads keep running");
    let moment = signed_decimal(now);
    let parts = [to.build_id.as_str(), moment.as_str()];
    proof {
        assert(parts_of(parts@) =~= seq![to.build_id@, moment@]);
    }
    let upgrade_id = "upg_".to_owned().concat(&short_digest(&parts));
    let seconds: u64 = match timeout_seconds {
        Some(seconds) => seconds,
        None => 60,
    };
    let timeout_seconds: u64 = if seconds < 5 {
        5
    } else if seconds > 3600 {
        3600
    } else {
        seconds
    };
    let mut from = from;
    from.path = binary_path(state_dir, &from.build_id);
    let mut to = to;
    to.path = binary_path(state_dir, &to.build_id);
    let record = UpgradeRecord {
        upgrade_id,
        kind: kind.to_owned(),
        status: "started".to_owned(),
        from,
        to,
        units,
        timeout_seconds,
        requested_by: requested_by.to_owned(),
        started_at: now,
        finished_at: None,
        reason: None,
        controller: None,
    };
    let notice = upgrade_notice(EventKind::UpgradeStarted, message, &record);
    (record, notice)
}

// ---- Taking over ------------------------------------------------------------

/// The units, among the first `n` that ran when an upgrade began, that
/// still run and that the node does not know.
pub open spec fn unattached(
    units: Seq<String>,
    running: Seq<String>,
    known: Seq<String>,
    n: nat,
) -> Seq<Seq<char>>
    decreases n,
{
    if n == 0 {
        Seq::empty()
    } else {
        let before = unattached(units, running, known, (n - 1) as nat);
        let unit = units[n - 1]@;
        if texts(running).contains(unit) && !texts(known).contains(unit) {
            before.push(unit)
        } else {
            before
        }
    }
}

fn find_unattached(units: &Vec<String>, running: &Vec<String>, known: &Vec<String>) -> (r: Vec<
    String,
>)
    ensures
        texts(r@) == unattached(units@, running@, known@, units@.len()),
{
    let mut r: Vec<String> = Vec::new();
    let mut i: usize = 0;
    proof {
        assert(texts(r@) =~= Seq::<Seq<char>>::empty());
    }
    while i < units.len()
        invariant
            i <= units@.len(),
            texts(r@) == unattached(units@, running@, known@, i as nat),
        decreases units@.len() - i,
    {
        if list_has(running, &units[i]) && !list_has(known, &units[i]) {
            let ghost before = r@;
            r.push(units[i].clone());
            proof {
                assert(texts(r@) =~= texts(before).push(units@[i as int]@));
            }
        }
        i += 1;
    }
    r
}

/// What a controller that starts does about the upgrade it is part of.
#[derive(Debug)]
pub enum Resume {
    /// It is part of none.
    Nothing,
    /// It cannot take over; the record says so, and the previous build is
    /// restored.
    Refused(UpgradeRecord, EnvironmentError),
    /// It took over.
    Completed(UpgradeRecord, Vec<Notice>),
    /// The previous build runs again.
    RolledBack(UpgradeRecord, Vec<Notice>),
}

/// Whether a record is another with a new status.
pub open spec fn is_moved(
    after: UpgradeRecord,
    before: UpgradeRecord,
    status: Seq<char>,
    finished_at: Option<i64>,
    reason: Option<Seq<char>>,
    controller: Option<Seq<char>>,
) -> bool {
    &&& after.status@ == status
    &&& after.finished_at == finished_at
    &&& opt_text(after.reason) == reason
    &&& opt_text(after.controller) == controller
    &&& after.upgrade_id == before.upgrade_id
    &&& after.kind == before.kind
    &&& after.from == before.from
    &&& after.to == before.to
    &&& after.units == before.units
    &&& after.timeout_seconds == before.timeout_seconds
    &&& after.requested_by == before.requested_by
    &&& after.started_at == before.started_at
}

pub open spec fn unattached_text(missing: Seq<Seq<char>>) -> Seq<char> {
    "the new controller could not reattach "@ + joined(missing, ", "@)
}

pub open spec fn ready_text(record: UpgradeRecord) -> Seq<char> {
    "controller "@ + record.to.version@ + " ("@ + short_build(record.to.build_id@)
        + ") reattached "@ + decimal_text(record.units@.len()) + " workloads"@
}

pub open spec fn completed_text(record: UpgradeRecord, seconds: Seq<char>) -> Seq<char> {
    record.kind@ + " to "@ + short_build(record.to.build_id@) + " completed in "@ + seconds
        + "s without restarting a workload"@
}

pub open spec fn upgrade_failed_text(record: UpgradeRecord) -> Seq<char> {
    record.kind@ + " to "@ + short_build(record.to.build_id@) + " failed: "@ + (
    match record.reason {
        Some(reason) => reason@,
        None => ""@,
    })
}

pub open spec fn restored_text(record: UpgradeRecord) -> Seq<char> {
    "controller "@ + record.from.version@ + " ("@ + short_build(record.from.build_id@)
        + ") restored; workloads kept running"@
}

/// Finish the upgrade a controller that starts is part of. A new build that
/// cannot account for every workload that was running refuses to take over.
/// `seconds` says how long the upgrade took.
pub fn resume_upgrade(
    record: Option<UpgradeRecord>,
    own_build: &str,
    running: &Vec<String>,
    known: &Vec<String>,
    instance_id: &str,
    seconds: &str,
    now: i64,
) -> (r: Resume)
    ensures
        match record {
            None => r is Nothing,
            Some(record) => {
                let missing = unattached(
                    record.units@,
                    running@,
                    known@,
                    record.units@.len(),
                );
                if record.status@ == "started"@ && record.to.build_id@ == own_build@ {
                    if missing.len() > 0 {
                        &&& r matches Resume::Refused(after, error)
                        &&& is_moved(
                            after,
                            record,
                            "refused"@,
                            record.finished_at,
                            Some(unattached_text(missing)),
                            opt_text(record.controller),
                        )
                        &&& error.reports(Refusal::UpgradeFailed(unattached_text(missing)))
                    } else {
                        &&& r matches Resume::Completed(after, notices)
                        &&& is_moved(
                            after,
                            record,
                            "completed"@,
                            Some(now),
                            opt_text(record.reason),
                            Some(instance_id@),
                        )
                        &&& notices@.len() == 2
                        &&& notices@[0].says(
                            EventKind::UpgradeReady,
                            no_scope(),
                            ready_text(record),
                            upgrade_facts(after),
                        )
                        &&& notices@[1].says(
                            EventKind::UpgradeCompleted,
                            no_scope(),
                            completed_text(record, seconds@),
                            upgrade_facts(after),
                        )
                    }
                } else if record.status@ == "rolling_back"@ && record.from.build_id@
                    == own_build@ {
                    &&& r matches Resume::RolledBack(after, notices)
                    &&& is_moved(
                        after,
                        record,
                        "rolled_back"@,
                        Some(now),
                        opt_text(record.reason),
                        Some(instance_id@),
                    )
                    &&& notices@.len() == 2
                    &&& notices@[0].says(
                        EventKind::UpgradeFailed,
                        no_scope(),
                        upgrade_failed_text(record),
                        upgrade_facts(after),
                    )
                    &&& notices@[1].says(
                        EventKind::UpgradeRolledBack,
                        no_scope(),
                        restored_text(record),
                        upgrade_facts(after),
                    )
                } else {
                    r is Nothing
                }
            },
        },
{
    let record = match record {
        Some(record) => record,
        None => {
            return Resume::Nothing;
        },
    };
    let mut record = record;
    if same(&record.status, "started") && same(&record.to.build_id, own_build) {
        let missing = find_unattached(&record.units, running, known);
        proof {
            assert(texts(missing@).len() == missing@.len());
        }
        if missing.len() > 0 {
            let mut reason = "the new controller could not reattach ".to_owned();
            reason.append(&join(&missing, ", "));
            record.status = "refused".to_owned();
            let error = EnvironmentError::UpgradeFailed(reason.clone());
            record.reason = Some(reason);
            return Resume::Refused(record, error);
        }
        let mut ready = "controller ".to_owned();
        ready.append(&record.to.version);
        ready.append(" (");
        ready.append(&short(&record.to.build_id));
        ready.append(") reattached ");
        ready.append(&decimal(record.units.len() as u64));
        ready.append(" workloads");
        let mut completed = record.kind.clone();
        completed.append(" to ");
        completed.append(&short(&record.to.build_id));
        completed.append(" completed in ");
        completed.append(seconds);
        completed.append("s without restarting a workload");
        record.status = "completed".to_owned();
        record.finished_at = Some(now);
        record.controller = Some(instance_id.to_owned());
        let mut notices: Vec<Notice> = Vec::new();
        notices.push(upgrade_notice(EventKind::UpgradeReady, ready, &record));
        notices.push(upgrade_notice(EventKind::UpgradeCompleted, completed, &record));
        return Resume::Completed(record, notices);
    }
    if same(&record.status, "rolling_back") && same(&record.from.build_id, own_build) {
        let mut failed = record.kind.clone();
        failed.append(" to ");
        failed.append(&short(&record.to.build_id));
        failed.append(" failed: ");
        match &record.reason {
            Some(reason) => failed.append(reason),
            None => failed.append(""),
        }
        let mut restored = "controller ".to_owned();
        restored.append(&record.from.version);
        restored.append(" (");
        restored.append(&short(&record.from.build_id));
        restored.append(") restored; workloads kept running");
        record.status = "rolled_back".to_owned();
        record.finished_at = Some(now);
        record.controller = Some(instance_id.to_owned());
        let mut notices: Vec<Notice> = Vec::new();
        notices.push(upgrade_notice(EventKind::UpgradeFailed, failed, &record));
        notices.push(upgrade_notice(EventKind::UpgradeRolledBack, restored, &record));
        return Resume::RolledBack(record, notices);
    }
    Resume::Nothing
}

// ---- Laws -------------------------------------------------------------------

/// A new controller completes an upgrade only when every unit that ran when
/// it began either ended or is known to it.
pub proof fn law_completion_accounts_for_every_unit(
    units: Seq<String>,
    running: Seq<String>,
    known: Seq<String>,
    n: nat,
    i: int,
)
    requires
        n <= units.len(),
        unattached(units, running, known, n).len() == 0,
        0 <= i < n,
    ensures
        texts(running).contains(units[i]@) ==> texts(known).contains(units[i]@),
    decreases n,
{
    if i < n - 1 {
        law_completion_accounts_for_every_unit(units, running, known, (n - 1) as nat, i);
    }
}

/// The time a new controller has is always between five seconds and an
/// hour.
pub proof fn law_hand_over_time_is_bounded(asked: Option<u64>)
    ensures
        5 <= hand_over_timeout(asked) <= 3600,
{
}

/// Rolling back an upgrade returns to the build it replaced, and rolling
/// back that rollback returns to the build it installed: whatever ran, the
/// record of the last hand-over names the build that ran before it.
pub proof fn law_rollback_undoes_an_upgrade(
    state_dir: Seq<char>,
    upgrade: UpgradeRecord,
    rollback: UpgradeRecord,
)
    requires
        rollback_build(Some(upgrade), upgrade.to) matches Some(target) && is_kept(
            rollback.to,
            target,
            state_dir,
        ),
        is_kept(rollback.from, upgrade.to, state_dir),
    ensures
        rollback.to.build_id == upgrade.from.build_id,
        rollback_build(Some(rollback), rollback.to) matches Some(again) && again.build_id
            == upgrade.to.build_id,
{
}

/// An artifact's file is accepted exactly when it could be hashed and, where
/// a digest was expected, has that digest, written with its algorithm or
/// without.
pub proof fn law_only_the_expected_artifact_is_accepted(
    path: Seq<char>,
    file: ArtifactFile,
    expected: Option<Seq<char>>,
    hex: Seq<char>,
)
    ensures
        file_refusal(path, file, expected) is None ==> file is Hashed,
        expected is None ==> (file_refusal(path, file, expected) is None <==> file is Hashed),
        expected matches Some(wanted) ==> (file matches ArtifactFile::Hashed(digest)
            ==> file_refusal(path, file, expected) is None ==> digest@ == wanted || digest@
            == "sha256:"@ + wanted),
        file matches ArtifactFile::Hashed(digest) ==> {
            &&& digest@ == "sha256:"@ + hex && (hex.len() == 0 || hex[0] != 's') ==> {
                &&& file_refusal(path, file, Some(hex)) is None
                &&& file_refusal(path, file, Some(digest@)) is None
            }
        },
{
    reveal_strlit("sha256:");
    assert("sha256:"@.len() == 7 && "sha256:"@[0] == 's');
    if let ArtifactFile::Hashed(digest) = file {
        if digest@ == "sha256:"@ + hex {
            assert(digest@.subrange(0, 7) =~= "sha256:"@);
        }
    }
}

/// Another build takes over exactly when it is Compute, built for this
/// platform, serves this API, and speaks this supervisor's protocol.
pub proof fn law_only_compatible_builds_take_over(
    path: Seq<char>,
    answer: ArtifactAnswer,
    current: BuildIdentity,
)
    ensures
        build_refusal(path, answer, current) is None <==> {
            &&& answer matches ArtifactAnswer::Reported(reported)
            &&& reported.name@ == "compute"@
            &&& reported.platform@ == current.platform@
            &&& reported.api@ == current.api@
            &&& reported.supervisor_protocol == current.supervisor_protocol
        },
{
}

/// A controller hands over exactly when its workloads can outlive it, no
/// other upgrade is under way, and the other build is another one.
pub proof fn law_hand_overs_are_one_at_a_time(
    independent: bool,
    last: Option<UpgradeRecord>,
    from: BuildIdentity,
    to: BuildIdentity,
)
    ensures
        hand_over_refusal(independent, last, from, to) is None <==> {
            &&& independent
            &&& from.build_id@ != to.build_id@
            &&& last matches Some(last) ==> last.status@ == "completed"@ || last.status@
                == "rolled_back"@ || last.status@ == "failed"@
        },
{
}

/// A rollback returns to the build the last upgrade replaced, and only while
/// the build it installed runs.
pub proof fn law_rollback_returns_to_what_was_replaced(
    last: Option<UpgradeRecord>,
    current: BuildIdentity,
)
    ensures
        rollback_build(last, current) is Some <==> (last matches Some(last)
            && last.to.build_id@ == current.build_id@),
        rollback_build(last, current) matches Some(build) ==> (last matches Some(last) && build
            == last.from),
{
}

/// A new controller has the time that was asked for, within five seconds and
/// an hour; a minute where none was.
pub proof fn law_hand_over_time_is_as_asked(asked: Option<u64>)
    ensures
        asked is None ==> hand_over_timeout(asked) == 60,
        asked matches Some(seconds) ==> {
            &&& 5 <= seconds <= 3600 ==> hand_over_timeout(asked) == seconds
            &&& seconds < 5 ==> hand_over_timeout(asked) == 5
            &&& seconds > 3600 ==> hand_over_timeout(asked) == 3600
        },
{
}

/// A unit that ran when the upgrade began, still runs, and is not known to
/// the new controller is missing, and nothing else is.
pub proof fn law_unattached_units_are_missing(
    units: Seq<String>,
    running: Seq<String>,
    known: Seq<String>,
    n: nat,
    i: int,
)
    requires
        0 <= i < n <= units.len(),
    ensures
        texts(running).contains(units[i]@) && !texts(known).contains(units[i]@) ==> unattached(
            units,
            running,
            known,
            n,
        ).contains(units[i]@),
        forall|id: Seq<char>| #[trigger]
            unattached(units, running, known, n).contains(id) ==> texts(running).contains(id)
                && !texts(known).contains(id),
    decreases n,
{
    let before = unattached(units, running, known, (n - 1) as nat);
    let after = unattached(units, running, known, n);
    if n > 1 {
        law_unattached_units_are_missing(
            units,
            running,
            known,
            (n - 1) as nat,
            if i < n - 1 {
                i
            } else {
                0
            },
        );
    }
    if texts(running).contains(units[i]@) && !texts(known).contains(units[i]@) {
        if i == n - 1 {
            assert(after[after.len() - 1] == units[i]@);
        } else {
            let k = choose|k: int| 0 <= k < before.len() && before[k] == units[i]@;
            assert(after[k] == before[k]);
        }
    }
    assert forall|id: Seq<char>| #[trigger] after.contains(id) implies texts(running).contains(id)
        && !texts(known).contains(id) by {
        let k = choose|k: int| 0 <= k < after.len() && after[k] == id;
        if k < before.len() {
            assert(before[k] == id);
            assert(before.contains(id));
        }
    }
}

/// A record that moves on keeps what it is about: its builds, its units, its
/// time and who asked for it.
pub proof fn law_upgrade_records_keep_what_they_are_about(
    after: UpgradeRecord,
    before: UpgradeRecord,
    status: Seq<char>,
    finished_at: Option<i64>,
    reason: Option<Seq<char>>,
    controller: Option<Seq<char>>,
)
    requires
        is_moved(after, before, status, finished_at, reason, controller),
    ensures
        after.status@ == status,
        after.from.build_id@ == before.from.build_id@,
        after.to.build_id@ == before.to.build_id@,
        after.upgrade_id@ == before.upgrade_id@,
        after.units@ == before.units@,
        after.timeout_seconds == before.timeout_seconds,
        after.requested_by@ == before.requested_by@,
        after.finished_at == finished_at,
        opt_text(after.controller) == controller,
{
}

/// What an artifact says of itself is read from the fields of its answer,
/// each by its own name.
pub proof fn law_reports_are_read_by_name(
    report: ReportedBuild,
    fields: Seq<(Seq<char>, FieldText)>,
)
    requires
        is_report(report, fields),
    ensures
        report.name@ == text_of(fields, "name"@),
        report.platform@ == text_of(fields, "platform"@),
        report.api@ == text_of(fields, "api"@),
        report.version@ == text_of(fields, "version"@),
        report.supervisor_protocol == number_of(fields, "supervisor_protocol"@),
{
}

/// A digest may be given with or without its kind.
pub proof fn law_digests_may_leave_out_their_kind(digest: Seq<char>)
    ensures
        "sha256:"@.is_prefix_of(digest) ==> full_digest(digest) == digest,
        !"sha256:"@.is_prefix_of(digest) ==> full_digest(digest) == "sha256:"@ + digest,
        "sha256:"@.is_prefix_of(full_digest(digest)),
        full_digest(full_digest(digest)) == full_digest(digest),
{
    assert("sha256:"@ =~= ("sha256:"@ + digest).subrange(0, "sha256:"@.len() as int));
}

/// A build is shown by the first twelve digits of its digest, and kept in a
/// directory of its first sixteen.
pub proof fn law_builds_are_named_by_their_digest(state_dir: Seq<char>, digits: Seq<char>)
    requires
        digits.len() >= 16,
        !"sha256:"@.is_prefix_of(digits),
    ensures
        short_build("sha256:"@ + digits) == digits.take(12),
        kept_path(state_dir, "sha256:"@ + digits) == path_text(
            path_text(path_text(state_dir, "binaries"@), digits.take(16)),
            "compute"@,
        ),
{
    reveal_strlit("sha256:");
    law_prefixes_are_taken_away(digits, "sha256:"@);
    assert(digits.len() == 16 ==> digits.take(16) =~= digits);
}

/// An upgrade that moves on changes how it stands and nothing else.
pub proof fn law_upgrades_move_on(
    after: UpgradeRecord,
    before: UpgradeRecord,
    status: Seq<char>,
    finished_at: Option<i64>,
    reason: Option<Seq<char>>,
    controller: Option<Seq<char>>,
)
    requires
        is_moved(after, before, status, finished_at, reason, controller),
    ensures
        after.status@ == status,
        after.finished_at == finished_at,
        opt_text(after.reason) == reason,
        opt_text(after.controller) == controller,
        after.upgrade_id == before.upgrade_id,
        after.kind == before.kind,
        after.from == before.from,
        after.to == before.to,
        after.units == before.units,
        after.timeout_seconds == before.timeout_seconds,
        after.requested_by == before.requested_by,
        after.started_at == before.started_at,
{
}

/// A hand-over that another upgrade or the same build stands in the way of
/// is a conflict; one that would stop the workloads is a failed upgrade.
pub proof fn law_hand_over_refusals_say_why(
    independent: bool,
    last: Option<UpgradeRecord>,
    from: BuildIdentity,
    to: BuildIdentity,
)
    ensures
        !independent ==> (hand_over_refusal(independent, last, from, to) matches Some(refusal)
            && refusal is UpgradeFailed),
        independent ==> (hand_over_refusal(independent, last, from, to) matches Some(refusal)
            ==> refusal is Conflict),
{
}

} // verus!
