//! Deployments: how a request to release a revision becomes a release, and
//! promotion, which releases the exact revision current elsewhere.

use vstd::prelude::*;

use crate::adopt::{releasing_in, ReleasingIn};
use crate::desired::Desired;
use crate::digest::{content_identity, content_identity_text, parts_of, short_digest, short_digest_text};
use crate::error::{EnvironmentError, Refusal};
use crate::events::{
    datum_option, fact, project_scope, text_fact, Datum, EventKind, FactText, Notice, Scope, ScopeText,
};
use crate::json::{document_texts, field_texts, json_document, names_differ, to_json};
use crate::model::{
    invalid_name_text, refused_entry, refused_entry_text, refused_row, valid_name, validate_env, validate_name,
    Config, DesiredState,
};
use crate::routing::{run_config, run_config_rows};
use crate::search::{first, found, lemma_first};
use crate::state::{
    copy_artifact, opt_artifact, ApplicationArtifactEvidence, DeploymentRecord, DeploymentStatus,
    DeploymentWorkload, EnvironmentProjectRecord, EnvironmentRecord, ProjectRevisionRecord,
    RevisionWorkload, Stored,
};
use crate::table::{find_value, key1, key2, MapKey, Table};
use crate::text::{
    copy_option, decimal, decimal_text, join, joined, lemma_parts_irreflexive, opt_text, parts_less,
    same, starts_with, texts,
};

verus! {

/// What is to be released, where, and with what.
pub struct DeployRequest {
    pub project: String,
    pub environment: String,
    /// A revision's identifier or label; the newest when there is none.
    pub revision: Option<String>,
    /// Project configuration; what the project had there when there is none.
    pub config: Option<Config>,
    pub desired_state: Option<DesiredState>,
    /// The caller's own placement, as evidence.
    pub placement: Option<String>,
    /// The application artifact it came from, as evidence.
    pub artifact: Option<ApplicationArtifactEvidence>,
    /// Variables that must be configured.
    pub required_config: Vec<String>,
}

// ---- Where ------------------------------------------------------------------

/// Why a request names nowhere to release to.
pub open spec fn place_refusal(desired: Desired, request: DeployRequest) -> Option<Refusal> {
    let refused = match request.config {
        Some(config) => first(config.rows(), refused_row()),
        None => None,
    };
    match refused {
        Some(i) => Some(
            Refusal::Invalid(refused_entry_text("project"@, request.config->0.rows()[i].0@)),
        ),
        None => if desired.environment_named(request.environment@) is None {
            Some(Refusal::NotFound("environment "@ + request.environment@))
        } else {
            None
        },
    }
}

/// The environment a request releases to, once its configuration is valid.
pub fn release_place<'a>(desired: &'a Desired, request: &DeployRequest) -> (r: Result<
    &'a Stored<EnvironmentRecord>,
    EnvironmentError,
>)
    ensures
        match r {
            Ok(environment) => place_refusal(*desired, *request) is None
                && desired.environment_named(request.environment@) == Some(*environment),
            Err(error) => place_refusal(*desired, *request) matches Some(refusal)
                && error.reports(refusal),
        },
{
    if let Some(config) = &request.config {
        if let Err(error) = validate_env("project", config) {
            return Err(error);
        }
    }
    match desired.environment(&request.environment) {
        Some(environment) => Ok(environment),
        None => {
            let mut text = "environment ".to_owned();
            text.append(&request.environment);
            Err(EnvironmentError::NotFound(text))
        },
    }
}

// ---- What -------------------------------------------------------------------

/// Which revision a selector asks for.
#[derive(Debug, Clone, Copy, PartialEq, Eq, Structural)]
pub enum RevisionQuery {
    /// The one with this identifier.
    ById,
    /// The newest with this label.
    ByLabel,
    /// The newest.
    Newest,
}

pub open spec fn revision_asked(selector: Option<Seq<char>>) -> RevisionQuery {
    match selector {
        Some(selector) => if "rev_"@.is_prefix_of(selector) {
            RevisionQuery::ById
        } else {
            RevisionQuery::ByLabel
        },
        None => RevisionQuery::Newest,
    }
}

pub fn revision_query(selector: &Option<String>) -> (r: RevisionQuery)
    ensures
        r == revision_asked(opt_text(*selector)),
{
    match selector {
        Some(selector) => if starts_with(selector, "rev_") {
            RevisionQuery::ById
        } else {
            RevisionQuery::ByLabel
        },
        None => RevisionQuery::Newest,
    }
}

/// The report of a revision that is not there.
pub open spec fn no_revision(
    collection: Seq<char>,
    project: Seq<char>,
    selector: Option<Seq<char>>,
) -> Seq<char> {
    match selector {
        Some(selector) => if "rev_"@.is_prefix_of(selector) {
            collection + " "@ + selector
        } else {
            "revision "@ + selector + " of "@ + project
        },
        None => "any revision of "@ + project + "; register one first"@,
    }
}

/// The report of a document that is not stored.
pub fn not_stored(collection: &str, id: &str) -> (r: String)
    ensures
        r@ == collection@ + " "@ + id@,
{
    let mut text = collection.to_owned();
    text.append(" ");
    text.append(id);
    text
}

/// The revision a selector names, from what control state answered: it must
/// be one of the project. `collection` names where revisions are stored.
pub fn resolve_revision(
    collection: &str,
    project_id: &str,
    project: &str,
    selector: &Option<String>,
    answer: Option<Stored<ProjectRevisionRecord>>,
) -> (r: Result<Stored<ProjectRevisionRecord>, EnvironmentError>)
    ensures
        match answer {
            None => r matches Err(error) && error.reports(
                Refusal::NotFound(no_revision(collection@, project@, opt_text(*selector))),
            ),
            Some(revision) => if revision_asked(opt_text(*selector)) == RevisionQuery::ById
                && revision.value.project_id@ != project_id@ {
                r matches Err(error) && error.reports(
                    Refusal::Invalid(
                        selector->0@ + " is a revision of "@ + revision.value.project@ + ", not "@
                            + project@,
                    ),
                )
            } else {
                r == Ok::<Stored<ProjectRevisionRecord>, EnvironmentError>(revision)
            },
        },
{
    match answer {
        Some(revision) => {
            if let Some(selector) = selector {
                if starts_with(selector, "rev_") && !same(&revision.value.project_id, project_id) {
                    let mut text = selector.clone();
                    text.append(" is a revision of ");
                    text.append(&revision.value.project);
                    text.append(", not ");
                    text.append(project);
                    return Err(EnvironmentError::Invalid(text));
                }
            }
            Ok(revision)
        },
        None => {
            let text = match selector {
                Some(selector) => if starts_with(selector, "rev_") {
                    not_stored(collection, selector)
                } else {
                    let mut text = "revision ".to_owned();
                    text.append(selector);
                    text.append(" of ");
                    text.append(project);
                    text
                },
                None => {
                    let mut text = "any revision of ".to_owned();
                    text.append(project);
                    text.append("; register one first");
                    text
                },
            };
            Err(EnvironmentError::NotFound(text))
        },
    }
}

// ---- With what --------------------------------------------------------------

/// The membership of a project in an environment.
pub open spec fn membership_in(
    desired: Desired,
    environment: Seq<char>,
    project: Seq<char>,
) -> Option<Stored<EnvironmentProjectRecord>> {
    if desired.memberships@.contains_key(key2(environment, project)) {
        Some(desired.memberships@[key2(environment, project)])
    } else {
        None
    }
}

/// The configuration a release runs with: the one given, or else the one
/// the project has there.
pub open spec fn release_config_rows(
    request: DeployRequest,
    membership: Option<Stored<EnvironmentProjectRecord>>,
) -> Seq<(String, String)> {
    match (request.config, membership) {
        (Some(config), _) => config.rows(),
        (None, Some(membership)) => membership.value.config.rows(),
        (None, None) => Seq::empty(),
    }
}

pub fn release_config(desired: &Desired, environment: &str, request: &DeployRequest) -> (r: Config)
    ensures
        r.rows() == release_config_rows(
            *request,
            membership_in(*desired, environment@, request.project@),
        ),
{
    match &request.config {
        Some(config) => config.copy(),
        None => match desired.membership_of(environment, &request.project) {
            Some(membership) => membership.value.config.copy(),
            None => Table::new(),
        },
    }
}

/// The required variables, among the first `n`, that neither the project
/// nor its environment configures.
pub open spec fn missing_config(
    required: Seq<String>,
    config: Map<Seq<Seq<char>>, String>,
    environment: Map<Seq<Seq<char>>, String>,
    n: nat,
) -> Seq<Seq<char>>
    decreases n,
{
    if n == 0 {
        Seq::empty()
    } else {
        let before = missing_config(required, config, environment, (n - 1) as nat);
        let name = required[n - 1]@;
        if config.contains_key(key1(name)) || environment.contains_key(key1(name)) {
            before
        } else {
            before.push(name)
        }
    }
}

fn find_missing(required: &Vec<String>, config: &Config, environment: &Config) -> (r: Vec<String>)
    ensures
        texts(r@) == missing_config(required@, config@, environment@, required@.len()),
{
    let mut r: Vec<String> = Vec::new();
    let mut i: usize = 0;
    proof {
        assert(texts(r@) =~= Seq::<Seq<char>>::empty());
    }
    while i < required.len()
        invariant
            i <= required@.len(),
            texts(r@) == missing_config(required@, config@, environment@, i as nat),
        decreases required@.len() - i,
    {
        if config.at(&required[i]).is_none() && environment.at(&required[i]).is_none() {
            let ghost before = r@;
            r.push(required[i].clone());
            proof {
                assert(texts(r@) =~= texts(before).push(required@[i as int]@));
            }
        }
        i += 1;
    }
    r
}

// ---- The release ------------------------------------------------------------

/// The version after the latest one.
pub open spec fn version_after(latest: Option<u64>) -> u64 {
    match latest {
        None => 1,
        Some(version) => if version == u64::MAX {
            u64::MAX
        } else {
            (version + 1) as u64
        },
    }
}

pub fn next_version(latest: Option<u64>) -> (r: u64)
    ensures
        r == version_after(latest),
        r >= 1,
{
    match latest {
        None => 1,
        Some(version) => if version == u64::MAX {
            u64::MAX
        } else {
            version + 1
        },
    }
}

/// A deployment's identifier: its project and version, digested.
pub open spec fn deployment_id_text(project_id: Seq<char>, version: u64) -> Seq<char> {
    "dep_"@ + short_digest_text(seq![project_id, decimal_text(version as nat)])
}

pub fn deployment_id(project_id: &str, version: u64) -> (r: String)
    ensures
        r@ == deployment_id_text(project_id@, version),
{
    let number = decimal(version);
    let parts = [project_id, number.as_str()];
    proof {
        assert(parts_of(parts@) =~= seq![project_id@, number@]);
    }
    "dep_".to_owned().concat(&short_digest(&parts))
}

/// Whether evidence is a workload's before anything was decided of it.
pub open spec fn is_first_evidence(
    evidence: DeploymentWorkload,
    workload: RevisionWorkload,
    request: DeployRequest,
) -> bool {
    &&& evidence.name == workload.name
    &&& evidence.kind == workload.kind
    &&& evidence.bundle_id == workload.bundle_id
    &&& evidence.artifact == workload.artifact
    &&& evidence.runtime == workload.runtime
    &&& evidence.runtime_version == workload.runtime_version
    &&& evidence.resolved_runtime_version is None
    &&& evidence.distribution == workload.distribution
    &&& !evidence.admitted
    &&& evidence.policy_id is None
    &&& evidence.admission_id is None
    &&& evidence.placement_id is None
    &&& evidence.provider is None
    &&& evidence.reasons@.len() == 0
    &&& evidence.endpoints@.len() == 0
    &&& evidence.pool_placement == request.placement
    &&& opt_artifact(evidence.application_artifact) == opt_artifact(request.artifact)
}

/// Whether evidence is what a release starts with: the caller's placement
/// and artifact, for each workload, when there is one to record.
pub open spec fn is_start_evidence(
    evidence: Seq<DeploymentWorkload>,
    workloads: Seq<RevisionWorkload>,
    request: DeployRequest,
) -> bool {
    if request.placement is Some || request.artifact is Some {
        &&& evidence.len() == workloads.len()
        &&& forall|i: int|
            0 <= i < workloads.len() ==> is_first_evidence(
                #[trigger] evidence[i],
                workloads[i],
                request,
            )
    } else {
        evidence.len() == 0
    }
}

fn start_evidence(workloads: &Vec<RevisionWorkload>, request: &DeployRequest) -> (r: Vec<
    DeploymentWorkload,
>)
    ensures
        is_start_evidence(r@, workloads@, *request),
{
    let mut r: Vec<DeploymentWorkload> = Vec::new();
    if request.placement.is_none() && request.artifact.is_none() {
        return r;
    }
    let mut i: usize = 0;
    while i < workloads.len()
        invariant
            i <= workloads@.len(),
            r@.len() == i,
            forall|j: int|
                0 <= j < i ==> is_first_evidence(#[trigger] r@[j], workloads@[j], *request),
        decreases workloads@.len() - i,
    {
        let workload = &workloads[i];
        r.push(
            DeploymentWorkload {
                name: workload.name.clone(),
                kind: workload.kind,
                bundle_id: workload.bundle_id.clone(),
                artifact: workload.artifact.clone(),
                runtime: workload.runtime.clone(),
                runtime_version: copy_option(&workload.runtime_version),
                resolved_runtime_version: None,
                distribution: copy_option(&workload.distribution),
                admitted: false,
                policy_id: None,
                admission_id: None,
                placement_id: None,
                provider: None,
                reasons: Vec::new(),
                endpoints: Vec::new(),
                pool_placement: copy_option(&request.placement),
                application_artifact: copy_artifact(&request.artifact),
            },
        );
        i += 1;
    }
    r
}

/// What a release does to its project's membership.
pub enum MembershipChange {
    Keep,
    /// It is to run, or to stop.
    SetState(DesiredState),
    /// The project's first release there.
    Create(EnvironmentProjectRecord),
}

/// A release, as it is recorded.
pub struct ReleasePlan {
    pub deployment_id: String,
    pub record: DeploymentRecord,
    pub membership: MembershipChange,
    pub notices: Vec<Notice>,
}

/// Why a release of a revision that was found is refused: another is in
/// flight, or configuration it requires is missing.
pub open spec fn release_refusal(
    desired: Desired,
    environment: EnvironmentRecord,
    request: DeployRequest,
    config: Map<Seq<Seq<char>>, String>,
) -> Option<Refusal> {
    let home = environment.name@;
    let missing = missing_config(
        request.required_config@,
        config,
        environment.config@,
        request.required_config@.len(),
    );
    match found(desired.deployments.values(), releasing_in(home, request.project@)) {
        Some(release) => Some(
            Refusal::Conflict(
                request.project@ + " is already being released to "@ + home + " ("@ + release.id@
                    + ", "@ + release.value.status.name() + "); wait for it or roll it back"@,
            ),
        ),
        None => if missing.len() > 0 {
            Some(
                Refusal::Invalid(
                    request.project@ + " requires configuration it was not given: "@ + joined(
                        missing,
                        ", "@,
                    ),
                ),
            )
        } else {
            None
        },
    }
}

/// The revision the deployment that a release replaces released.
pub open spec fn replaced_revision(desired: Desired, previous: Option<String>) -> Option<Seq<char>> {
    match previous {
        Some(id) => if desired.deployments@.contains_key(key1(id@)) {
            Some(desired.deployments@[key1(id@)].value.revision@)
        } else {
            None
        },
        None => None,
    }
}

/// Whether a record is a new release's: pending, of exactly the revision
/// given, replacing what is current there.
pub open spec fn is_new_release(
    record: DeploymentRecord,
    desired: Desired,
    environment: Stored<EnvironmentRecord>,
    request: DeployRequest,
    project_id: Seq<char>,
    revision: Stored<ProjectRevisionRecord>,
    config_rows: Seq<(String, String)>,
    config_digest: Seq<char>,
    version: u64,
    promoted_from: Option<String>,
    now: i64,
) -> bool {
    let membership = membership_in(desired, environment.value.name@, request.project@);
    let previous = match membership {
        Some(membership) => membership.value.deployment_id,
        None => None,
    };
    &&& record.environment_id == environment.id
    &&& record.environment == environment.value.name
    &&& record.project_id@ == project_id
    &&& record.project == request.project
    &&& record.version == version
    &&& record.revision_id == revision.id
    &&& record.revision == revision.value.revision
    &&& record.revision_digest == revision.value.revision_digest
    &&& record.status == DeploymentStatus::Pending
    &&& record.promoted_from == promoted_from
    &&& record.previous == previous
    &&& is_start_evidence(record.workloads@, revision.value.workloads@, request)
    &&& record.failure is None
    &&& record.receipt_ids@.len() == 0
    &&& opt_text(record.old_revision) == replaced_revision(desired, previous)
    &&& opt_text(record.config_digest) == Some(config_digest)
    &&& record.config.rows() == config_rows
    &&& record.readiness_result is None
    &&& record.network_result is None
    &&& record.traffic_switch_result is None
    &&& record.rollback_reason is None
    &&& record.receipt is None
    &&& record.status_since == Some(now)
    &&& record.completed_at is None
    &&& record.created_at == now
    &&& record.updated_at == now
}

/// Whether a release does to its project's membership what it should: the
/// first one creates it, with no current deployment until traffic switches.
pub open spec fn is_membership_change(
    change: MembershipChange,
    desired: Desired,
    environment: Stored<EnvironmentRecord>,
    request: DeployRequest,
    project_id: Seq<char>,
    config_rows: Seq<(String, String)>,
    now: i64,
) -> bool {
    match membership_in(desired, environment.value.name@, request.project@) {
        Some(existing) => match request.desired_state {
            Some(state) => if state != existing.value.desired_state {
                change == MembershipChange::SetState(state)
            } else {
                change is Keep
            },
            None => change is Keep,
        },
        None => {
            &&& change matches MembershipChange::Create(record)
            &&& record.environment_id == environment.id
            &&& record.environment == environment.value.name
            &&& record.project_id@ == project_id
            &&& record.project == request.project
            &&& record.desired_state == (match request.desired_state {
                Some(state) => state,
                None => DesiredState::Running,
            })
            &&& record.config.rows() == config_rows
            &&& record.revision_id is None
            &&& record.deployment_id is None
            &&& record.created_at == now
            &&& record.updated_at == now
        },
    }
}

/// The scope of a release.
pub open spec fn release_scope(
    environment: Seq<char>,
    project: Seq<char>,
    deployment_id: Seq<char>,
) -> ScopeText {
    ScopeText { deployment_id: Some(deployment_id), ..project_scope(environment, project) }
}

/// What is hashed of a release's configuration: that of its environment, and
/// its own.
pub open spec fn configuration(environment: Config, project: Config) -> Seq<u8> {
    json_document(
        seq![
            ("environment"@, field_texts(environment.rows())),
            ("project"@, field_texts(project.rows())),
        ],
    )
}

/// The entries of a configuration, in the order of their names.
fn copy_fields(config: &Config) -> (r: Vec<(String, String)>)
    ensures
        r@ == config.rows(),
        names_differ(field_texts(r@)),
{
    let mut r: Vec<(String, String)> = Vec::new();
    let mut i: usize = 0;
    while i < config.len()
        invariant
            i <= config.rows().len(),
            r@ == config.rows().take(i as int),
        decreases config.rows().len() - i,
    {
        r.push((config.key_at(i).clone(), config.value_at(i).clone()));
        proof {
            assert(config.rows().take(i + 1) =~= config.rows().take(i as int).push(
                config.rows()[i as int],
            ));
        }
        i += 1;
    }
    proof {
        assert(config.rows().take(i as int) =~= config.rows());
        use_type_invariant(config);
        config.lemma_ascending();
        let rows = config.rows();
        let fields = field_texts(r@);
        assert forall|a: int, b: int|
            #![trigger fields[a], fields[b]]
            0 <= a < b < fields.len() implies fields[a].0 != fields[b].0 by {
            assert(parts_less(rows[a].0.parts(), rows[b].0.parts()));
            lemma_parts_irreflexive(rows[a].0.parts());
        }
    }
    r
}

/// Write what is hashed of a release's configuration.
pub fn config_document(environment: &Config, project: &Config) -> (r: Vec<u8>)
    ensures
        r@ == configuration(*environment, *project),
{
    let mut document: Vec<(String, Vec<(String, String)>)> = Vec::new();
    document.push(("environment".to_owned(), copy_fields(environment)));
    document.push(("project".to_owned(), copy_fields(project)));
    proof {
        let texts = document_texts(document@);
        assert(texts =~= seq![
            ("environment"@, field_texts(environment.rows())),
            ("project"@, field_texts(project.rows())),
        ]);
        reveal_strlit("environment");
        reveal_strlit("project");
        assert("environment"@.len() != "project"@.len());
        assert(names_differ(texts));
    }
    to_json(&document)
}

/// What is known of a release as it begins: what it releases, what served
/// before, where it was promoted from, and what it rolls back, if anything.
pub open spec fn started_facts(
    revision: Stored<ProjectRevisionRecord>,
    old_revision: Option<String>,
    promoted_from: Option<String>,
    rollback_of: Option<Seq<char>>,
) -> Seq<FactText> {
    let facts = seq![
        text_fact("revision"@, revision.value.revision@),
        text_fact("revision_id"@, revision.id@),
        fact("old_revision"@, datum_option(opt_text(old_revision))),
        fact("promoted_from"@, datum_option(opt_text(promoted_from))),
    ];
    match rollback_of {
        Some(id) => facts.push(text_fact("rollback_of"@, id)),
        None => facts,
    }
}

/// Whether this is how a release is recorded, with this digest of its
/// configuration, or why it is refused.
pub open spec fn is_release(
    r: Result<ReleasePlan, EnvironmentError>,
    desired: Desired,
    environment: Stored<EnvironmentRecord>,
    request: DeployRequest,
    project_id: Seq<char>,
    revision: Stored<ProjectRevisionRecord>,
    config: Config,
    config_digest: Seq<char>,
    latest_version: Option<u64>,
    promoted_from: Option<String>,
    rollback_of: Option<Seq<char>>,
    now: i64,
) -> bool {
    match release_refusal(desired, environment.value, request, config@) {
        Some(refusal) => r matches Err(error) && error.reports(refusal),
        None => {
            let home = environment.value.name@;
            &&& r matches Ok(plan)
            &&& plan.deployment_id@ == deployment_id_text(
                project_id,
                version_after(latest_version),
            )
            &&& is_new_release(
                plan.record,
                desired,
                environment,
                request,
                project_id,
                revision,
                config.rows(),
                config_digest,
                version_after(latest_version),
                promoted_from,
                now,
            )
            &&& is_membership_change(
                plan.membership,
                desired,
                environment,
                request,
                project_id,
                config.rows(),
                now,
            )
            &&& plan.notices@.len() == (if plan.membership is Create {
                2int
            } else {
                1int
            })
            &&& plan.membership is Create ==> plan.notices@[0].says(
                EventKind::ProjectAdded,
                release_scope(home, request.project@, plan.deployment_id@),
                request.project@ + " added to "@ + home,
                seq![text_fact("revision"@, revision.value.revision@)],
            )
            &&& plan.notices@.last().says(
                EventKind::DeploymentStarted,
                release_scope(home, request.project@, plan.deployment_id@),
                "Releasing "@ + request.project@ + " "@ + revision.value.revision@ + " to "@
                    + home,
                started_facts(revision, plan.record.old_revision, promoted_from, rollback_of),
            )
        },
    }
}

/// Record a release: the controller then takes it through its states.
pub fn plan_release(
    desired: &Desired,
    environment: &Stored<EnvironmentRecord>,
    request: &DeployRequest,
    project_id: &str,
    revision: &Stored<ProjectRevisionRecord>,
    config: Config,
    latest_version: Option<u64>,
    promoted_from: Option<String>,
    rollback_of: Option<&str>,
    now: i64,
) -> (r: Result<ReleasePlan, EnvironmentError>)
    ensures
        is_release(
            r,
            *desired,
            *environment,
            *request,
            project_id@,
            *revision,
            config,
            content_identity_text(configuration(environment.value.config, config)),
            latest_version,
            promoted_from,
            match rollback_of {
                Some(id) => Some(id@),
                None => None,
            },
            now,
        ),
{
    let document = config_document(&environment.value.config, &config);
    record_release(
        desired,
        environment,
        request,
        project_id,
        revision,
        config,
        &document,
        latest_version,
        promoted_from,
        rollback_of,
        now,
    )
}

/// Record a release whose configuration is hashed from a document.
pub fn record_release(
    desired: &Desired,
    environment: &Stored<EnvironmentRecord>,
    request: &DeployRequest,
    project_id: &str,
    revision: &Stored<ProjectRevisionRecord>,
    config: Config,
    config_document: &Vec<u8>,
    latest_version: Option<u64>,
    promoted_from: Option<String>,
    rollback_of: Option<&str>,
    now: i64,
) -> (r: Result<ReleasePlan, EnvironmentError>)
    ensures
        is_release(
            r,
            *desired,
            *environment,
            *request,
            project_id@,
            *revision,
            config,
            content_identity_text(config_document@),
            latest_version,
            promoted_from,
            match rollback_of {
                Some(id) => Some(id@),
                None => None,
            },
            now,
        ),
{
    let home = &environment.value.name;
    let project = &request.project;
    if let Some(release) = find_value(
        &desired.deployments,
        &ReleasingIn { environment: home, project },
    ) {
        let mut text = project.clone();
        text.append(" is already being released to ");
        text.append(home);
        text.append(" (");
        text.append(&release.id);
        text.append(", ");
        text.append(release.value.status.as_str());
        text.append("); wait for it or roll it back");
        return Err(EnvironmentError::Conflict(text));
    }
    let missing = find_missing(&request.required_config, &config, &environment.value.config);
    proof {
        assert(texts(missing@).len() == missing@.len());
    }
    if missing.len() > 0 {
        let mut text = project.clone();
        text.append(" requires configuration it was not given: ");
        text.append(&join(&missing, ", "));
        return Err(EnvironmentError::Invalid(text));
    }
    let membership = desired.membership_of(home, project);
    let previous = match membership {
        Some(membership) => copy_option(&membership.value.deployment_id),
        None => None,
    };
    let old_revision = match &previous {
        Some(id) => match desired.deployments.at(id) {
            Some(deployment) => Some(deployment.value.revision.clone()),
            None => None,
        },
        None => None,
    };
    let version = next_version(latest_version);
    let id = deployment_id(project_id, version);
    let record = DeploymentRecord {
        environment_id: environment.id.clone(),
        environment: home.clone(),
        project_id: project_id.to_owned(),
        project: project.clone(),
        version,
        revision_id: revision.id.clone(),
        revision: revision.value.revision.clone(),
        revision_digest: revision.value.revision_digest.clone(),
        status: DeploymentStatus::Pending,
        promoted_from,
        previous,
        workloads: start_evidence(&revision.value.workloads, request),
        failure: None,
        receipt_ids: Vec::new(),
        old_revision,
        config_digest: Some(content_identity(config_document)),
        config: config.copy(),
        readiness_result: None,
        network_result: None,
        traffic_switch_result: None,
        rollback_reason: None,
        receipt: None,
        status_since: Some(now),
        completed_at: None,
        created_at: now,
        updated_at: now,
    };
    let mut notices: Vec<Notice> = Vec::new();
    let change = match membership {
        Some(existing) => match request.desired_state {
            Some(state) => if state != existing.value.desired_state {
                MembershipChange::SetState(state)
            } else {
                MembershipChange::Keep
            },
            None => MembershipChange::Keep,
        },
        None => {
            let mut message = project.clone();
            message.append(" added to ");
            message.append(home);
            notices.push(
                Notice::new(
                    EventKind::ProjectAdded,
                    Scope::project(home, project).deployment(&id),
                    message,
                ).with("revision", Datum::text(&revision.value.revision)),
            );
            MembershipChange::Create(
                EnvironmentProjectRecord {
                    environment_id: environment.id.clone(),
                    environment: home.clone(),
                    project_id: project_id.to_owned(),
                    project: project.clone(),
                    desired_state: match request.desired_state {
                        Some(state) => state,
                        None => DesiredState::Running,
                    },
                    config,
                    revision_id: None,
                    deployment_id: None,
                    created_at: now,
                    updated_at: now,
                },
            )
        },
    };
    let mut message = "Releasing ".to_owned();
    message.append(project);
    message.append(" ");
    message.append(&revision.value.revision);
    message.append(" to ");
    message.append(home);
    let started = Notice::new(
        EventKind::DeploymentStarted,
        Scope::project(home, project).deployment(&id),
        message,
    ).with("revision", Datum::text(&revision.value.revision)).with(
        "revision_id",
        Datum::text(&revision.id),
    ).with("old_revision", Datum::option(&record.old_revision)).with(
        "promoted_from",
        Datum::option(&record.promoted_from),
    );
    notices.push(
        match rollback_of {
            Some(id) => started.with("rollback_of", Datum::text(id)),
            None => started,
        },
    );
    Ok(ReleasePlan { deployment_id: id, record, membership: change, notices })
}

// ---- Releasing again --------------------------------------------------------

/// The first application artifact evidence names.
pub open spec fn artifact_from(workloads: Seq<DeploymentWorkload>, i: int) -> Option<
    ApplicationArtifactEvidence,
>
    decreases workloads.len() - i,
{
    if i < 0 || i >= workloads.len() {
        None
    } else if workloads[i].application_artifact is Some {
        workloads[i].application_artifact
    } else {
        artifact_from(workloads, i + 1)
    }
}

fn find_artifact(workloads: &Vec<DeploymentWorkload>) -> (r: Option<ApplicationArtifactEvidence>)
    ensures
        opt_artifact(r) == opt_artifact(artifact_from(workloads@, 0)),
{
    let mut i: usize = 0;
    while i < workloads.len()
        invariant
            i <= workloads@.len(),
            artifact_from(workloads@, 0) == artifact_from(workloads@, i as int),
        decreases workloads@.len() - i,
    {
        if workloads[i].application_artifact.is_some() {
            return copy_artifact(&workloads[i].application_artifact);
        }
        i += 1;
    }
    None
}

/// The request that rolls a complete release back: release what it replaced
/// again, with the configuration and artifact that had.
pub fn release_again(release: &DeploymentRecord, previous: &DeploymentRecord) -> (r: DeployRequest)
    ensures
        r.project == release.project,
        r.environment == release.environment,
        r.revision == Some(previous.revision_id),
        r.config matches Some(config) && config.rows() == run_config_rows(*previous, None),
        r.desired_state is None,
        r.placement is None,
        opt_artifact(r.artifact) == opt_artifact(artifact_from(previous.workloads@, 0)),
        r.required_config@.len() == 0,
{
    DeployRequest {
        project: release.project.clone(),
        environment: release.environment.clone(),
        revision: Some(previous.revision_id.clone()),
        config: Some(run_config(previous, None)),
        desired_state: None,
        placement: None,
        artifact: find_artifact(&previous.workloads),
        required_config: Vec::new(),
    }
}

// ---- Promotion --------------------------------------------------------------

/// What is to be promoted, from where and to where.
pub struct PromoteRequest {
    pub project: String,
    pub from: String,
    pub to: String,
    pub config: Option<Config>,
    /// Promote a revision that is not released where it is.
    pub allow_unhealthy: bool,
}

/// The deployment a promotion starts from: the one current in the source.
pub fn promotion_source(request: &PromoteRequest, membership: &EnvironmentProjectRecord) -> (r:
    Result<String, EnvironmentError>)
    ensures
        match membership.deployment_id {
            Some(id) => r == Ok::<String, EnvironmentError>(id),
            None => r matches Err(error) && error.reports(
                Refusal::Conflict(
                    request.project@ + " has no current deployment in "@ + request.from@,
                ),
            ),
        },
{
    match &membership.deployment_id {
        Some(id) => Ok(id.clone()),
        None => {
            let mut text = request.project.clone();
            text.append(" has no current deployment in ");
            text.append(&request.from);
            Err(EnvironmentError::Conflict(text))
        },
    }
}

/// Whether a deployment with a status was released.
pub open spec fn was_released(status: DeploymentStatus) -> bool {
    status is Active || status is Draining || status is Complete
}

/// The request that promotes a deployment: release its exact revision in
/// the target. One that was not released is promoted only on request.
pub fn promote(request: PromoteRequest, source: &DeploymentRecord) -> (r: Result<
    DeployRequest,
    EnvironmentError,
>)
    ensures
        if !was_released(source.status) && !request.allow_unhealthy {
            r matches Err(error) && error.reports(
                Refusal::Conflict(
                    request.project@ + " "@ + source.revision@ + " is "@ + source.status.name()
                        + " in "@ + request.from@
                        + ", not released; promote a validated revision"@,
                ),
            )
        } else {
            &&& r matches Ok(release)
            &&& release.project == request.project
            &&& release.environment == request.to
            &&& release.revision == Some(source.revision_id)
            &&& release.config == request.config
            &&& release.desired_state is None
            &&& release.placement is None
            &&& release.artifact is None
            &&& release.required_config@.len() == 0
        },
{
    let released = match source.status {
        DeploymentStatus::Active => true,
        DeploymentStatus::Draining => true,
        DeploymentStatus::Complete => true,
        _ => false,
    };
    if !released && !request.allow_unhealthy {
        let mut text = request.project.clone();
        text.append(" ");
        text.append(&source.revision);
        text.append(" is ");
        text.append(source.status.as_str());
        text.append(" in ");
        text.append(&request.from);
        text.append(", not released; promote a validated revision");
        return Err(EnvironmentError::Conflict(text));
    }
    Ok(
        DeployRequest {
            project: request.project,
            environment: request.to,
            revision: Some(source.revision_id.clone()),
            config: request.config,
            desired_state: None,
            placement: None,
            artifact: None,
            required_config: Vec::new(),
        },
    )
}

/// What is recorded of a promotion, unless the release failed at once.
pub fn promotion_notice(
    project: &str,
    source_id: &str,
    source: &DeploymentRecord,
    deployment_id: &str,
    deployment: &DeploymentRecord,
) -> (r: Option<Notice>)
    ensures
        if deployment.status is Failed {
            r is None
        } else {
            r matches Some(notice) && notice.says(
                EventKind::DeploymentPromoted,
                release_scope(deployment.environment@, project@, deployment_id@),
                project@ + " "@ + source.revision@ + " promoted from "@ + source.environment@
                    + " to "@ + deployment.environment@,
                seq![
                    text_fact("from_deployment"@, source_id@),
                    text_fact("revision_digest"@, source.revision_digest@),
                ],
            )
        },
{
    if let DeploymentStatus::Failed = deployment.status {
        return None;
    }
    let mut message = project.to_owned();
    message.append(" ");
    message.append(&source.revision);
    message.append(" promoted from ");
    message.append(&source.environment);
    message.append(" to ");
    message.append(&deployment.environment);
    Some(
        Notice::new(
            EventKind::DeploymentPromoted,
            Scope::project(&deployment.environment, project).deployment(deployment_id),
            message,
        ).with("from_deployment", Datum::text(source_id)).with(
            "revision_digest",
            Datum::text(&source.revision_digest),
        ),
    )
}

/// How long adding a project waits for its release to end.
pub const ADD_PROJECT_WAIT_MS: u64 = 900_000;

/// Whether waiting for a release is over: it ended, or the deadline came.
/// Moments are nanoseconds of a clock that never goes back.
pub fn wait_is_over(status: DeploymentStatus, now: u64, deadline: u64) -> (r: bool)
    ensures
        r == (status.terminal() || now >= deadline),
{
    status.is_terminal() || now >= deadline
}

/// Why a project cannot be added, whatever its content.
pub open spec fn project_refusal(name: Seq<char>, env: Config) -> Option<Refusal> {
    if !valid_name(name) {
        Some(Refusal::Invalid(invalid_name_text("project"@, name)))
    } else {
        match first(env.rows(), refused_row()) {
            Some(i) => Some(Refusal::Invalid(refused_entry_text("project"@, env.rows()[i].0@))),
            None => None,
        }
    }
}

/// Check a project's name and configuration before its content is
/// registered.
pub fn check_project(name: &str, env: &Config) -> (r: Result<(), EnvironmentError>)
    ensures
        match project_refusal(name@, *env) {
            Some(refusal) => r matches Err(error) && error.reports(refusal),
            None => r is Ok,
        },
{
    if let Err(error) = validate_name("project", name) {
        return Err(error);
    }
    if let Err(error) = validate_env("project", env) {
        return Err(error);
    }
    Ok(())
}

/// The request that releases a project that is added, at the revision its
/// content was registered as.
pub fn project_release(
    name: &str,
    environment: &str,
    revision_id: String,
    env: Config,
    desired_state: DesiredState,
) -> (r: DeployRequest)
    ensures
        r.project@ == name@,
        r.environment@ == environment@,
        r.revision == Some(revision_id),
        r.config == Some(env),
        r.desired_state == Some(desired_state),
        r.placement is None,
        r.artifact is None,
        r.required_config@.len() == 0,
{
    DeployRequest {
        project: name.to_owned(),
        environment: environment.to_owned(),
        revision: Some(revision_id),
        config: Some(env),
        desired_state: Some(desired_state),
        placement: None,
        artifact: None,
        required_config: Vec::new(),
    }
}

/// What adding a project comes to once its release ended or was waited for
/// long enough.
pub fn added_project(project: &str, deployment: &DeploymentRecord) -> (r: Result<
    (),
    EnvironmentError,
>)
    ensures
        if deployment.status is Failed || deployment.status is RolledBack {
            r matches Err(error) && error.reports(
                Refusal::Denied(
                    project@ + " was not deployed: "@ + (match (
                        deployment.failure,
                        deployment.rollback_reason,
                    ) {
                        (Some(failure), _) => failure@,
                        (None, Some(reason)) => reason@,
                        (None, None) => ""@,
                    }),
                ),
            )
        } else {
            r is Ok
        },
{
    match deployment.status {
        DeploymentStatus::Failed | DeploymentStatus::RolledBack => {
            let mut text = project.to_owned();
            text.append(" was not deployed: ");
            match (&deployment.failure, &deployment.rollback_reason) {
                (Some(failure), _) => text.append(failure),
                (None, Some(reason)) => text.append(reason),
                (None, None) => text.append(""),
            }
            Err(EnvironmentError::Denied(text))
        },
        _ => Ok(()),
    }
}

// ---- Laws -------------------------------------------------------------------

/// What was validated in the source is what runs in the target: a promotion
/// asks for the source's revision by its identifier, and the release of the
/// revision found under it has the content digest that revision has.
pub proof fn law_promotion_keeps_content(
    source: DeploymentRecord,
    request: PromoteRequest,
    release: DeployRequest,
    revision: Stored<ProjectRevisionRecord>,
    plan: ReleasePlan,
    desired: Desired,
    environment: Stored<EnvironmentRecord>,
    project_id: Seq<char>,
    config_rows: Seq<(String, String)>,
    config_digest: Seq<char>,
    version: u64,
    promoted_from: Option<String>,
    now: i64,
)
    requires
        was_released(source.status) || request.allow_unhealthy,
        release.revision == Some(source.revision_id),
        revision.id@ == source.revision_id@,
        revision.value.revision_digest@ == source.revision_digest@,
        is_new_release(
            plan.record,
            desired,
            environment,
            release,
            project_id,
            revision,
            config_rows,
            config_digest,
            version,
            promoted_from,
            now,
        ),
    ensures
        plan.record.revision_id@ == source.revision_id@,
        plan.record.revision_digest@ == source.revision_digest@,
{
}

/// One release of a project to an environment at a time: while one is in
/// flight, another is refused.
pub proof fn law_one_release_at_a_time(
    desired: Desired,
    environment: EnvironmentRecord,
    request: DeployRequest,
    config: Map<Seq<Seq<char>>, String>,
    i: int,
)
    requires
        0 <= i < desired.deployments.values().len(),
        releasing_in(environment.name@, request.project@)(desired.deployments.values()[i]),
    ensures
        release_refusal(desired, environment, request, config) matches Some(Refusal::Conflict(_)),
{
    crate::search::lemma_first(
        desired.deployments.values(),
        releasing_in(environment.name@, request.project@),
    );
}

/// Versions only go up, until the largest.
pub proof fn law_versions_increase(latest: u64)
    ensures
        latest < u64::MAX ==> version_after(Some(latest)) > latest,
        version_after(Some(latest)) >= 1,
        version_after(None) == 1,
{
}

/// While a release of a project to an environment has not ended, another is
/// refused as a conflict; and only then.
pub proof fn law_releases_in_flight_block_others(
    desired: Desired,
    environment: EnvironmentRecord,
    request: DeployRequest,
    config: Map<Seq<Seq<char>>, String>,
)
    ensures
        release_refusal(desired, environment, request, config) matches Some(Refusal::Conflict(_))
            <==> exists|i: int|
            {
                let release = #[trigger] desired.deployments.values()[i];
                &&& 0 <= i < desired.deployments.values().len()
                &&& release.value.environment@ == environment.name@
                &&& release.value.project@ == request.project@
                &&& release.value.status != DeploymentStatus::Complete
                &&& release.value.status != DeploymentStatus::Failed
                &&& release.value.status != DeploymentStatus::RolledBack
            },
{
    let deployments = desired.deployments.values();
    let releasing = releasing_in(environment.name@, request.project@);
    lemma_first(deployments, releasing);
    if let Some(i) = first(deployments, releasing) {
        assert(releasing(deployments[i]));
        assert(0 <= i < deployments.len());
    } else {
        assert forall|i: int| 0 <= i < deployments.len() implies !releasing(
            #[trigger] deployments[i],
        ) by {}
    }
}

/// What is missing is exactly what neither configuration has.
proof fn lemma_missing_config(
    required: Seq<String>,
    config: Map<Seq<Seq<char>>, String>,
    environment: Map<Seq<Seq<char>>, String>,
    n: nat,
)
    requires
        n <= required.len(),
    ensures
        missing_config(required, config, environment, n).len() > 0 <==> exists|i: int|
            0 <= i < n && !config.contains_key(key1((#[trigger] required[i])@))
                && !environment.contains_key(key1(required[i]@)),
    decreases n,
{
    if n > 0 {
        lemma_missing_config(required, config, environment, (n - 1) as nat);
        if missing_config(required, config, environment, (n - 1) as nat).len() > 0 {
            let i = choose|i: int|
                0 <= i < n - 1 && !config.contains_key(key1((#[trigger] required[i])@))
                    && !environment.contains_key(key1(required[i]@));
            assert(!config.contains_key(key1(required[i]@)));
        } else if missing_config(required, config, environment, n).len() > 0 {
            assert(!config.contains_key(key1(required[n - 1]@)));
        }
    }
}

/// A release of which some required variable is configured neither for the
/// project nor for the environment is refused; one that has them all, and no
/// other release in flight, is not.
pub proof fn law_required_configuration_is_required(
    desired: Desired,
    environment: EnvironmentRecord,
    request: DeployRequest,
    config: Map<Seq<Seq<char>>, String>,
)
    ensures
        (exists|i: int|
            0 <= i < request.required_config@.len() && !config.contains_key(
                key1((#[trigger] request.required_config@[i])@),
            ) && !environment.config@.contains_key(key1(request.required_config@[i]@)))
            ==> release_refusal(desired, environment, request, config) is Some,
        release_refusal(desired, environment, request, config) matches Some(Refusal::Invalid(_))
            ==> exists|i: int|
            0 <= i < request.required_config@.len() && !config.contains_key(
                key1((#[trigger] request.required_config@[i])@),
            ) && !environment.config@.contains_key(key1(request.required_config@[i]@)),
        release_refusal(desired, environment, request, config) matches Some(refusal)
            ==> refusal is Conflict || refusal is Invalid,
{
    lemma_missing_config(
        request.required_config@,
        config,
        environment.config@,
        request.required_config@.len(),
    );
}

/// Every release of a project is numbered one more than the one before it,
/// from 1 on.
pub proof fn law_versions_count_up(latest: u64)
    ensures
        version_after(None) == 1,
        latest < u64::MAX ==> version_after(Some(latest)) == latest + 1,
{
}

/// A new release is of exactly the revision that was asked for, in the
/// environment and the project it was asked for, replaces the deployment
/// current there, and has gone nowhere yet.
pub proof fn law_new_releases_replace_what_is_current(
    record: DeploymentRecord,
    desired: Desired,
    environment: Stored<EnvironmentRecord>,
    request: DeployRequest,
    project_id: Seq<char>,
    revision: Stored<ProjectRevisionRecord>,
    config_rows: Seq<(String, String)>,
    config_digest: Seq<char>,
    version: u64,
    promoted_from: Option<String>,
    now: i64,
)
    requires
        is_new_release(
            record,
            desired,
            environment,
            request,
            project_id,
            revision,
            config_rows,
            config_digest,
            version,
            promoted_from,
            now,
        ),
    ensures
        ({
            let key = key2(environment.value.name@, request.project@);
            &&& record.environment_id@ == environment.id@
            &&& record.environment@ == environment.value.name@
            &&& record.project@ == request.project@
            &&& record.project_id@ == project_id
            &&& record.revision_id@ == revision.id@
            &&& record.revision@ == revision.value.revision@
            &&& record.revision_digest@ == revision.value.revision_digest@
            &&& record.version == version
            &&& record.status == DeploymentStatus::Pending
            &&& desired.memberships@.contains_key(key) ==> opt_text(record.previous) == opt_text(
                desired.memberships@[key].value.deployment_id,
            )
            &&& !desired.memberships@.contains_key(key) ==> record.previous is None
            &&& record.previous matches Some(previous) ==> desired.deployments@.contains_key(
                key1(previous@),
            ) ==> opt_text(record.old_revision) == Some(
                desired.deployments@[key1(previous@)].value.revision@,
            )
            &&& record.config.rows() == config_rows
            &&& opt_text(record.config_digest) == Some(config_digest)
            &&& opt_text(record.promoted_from) == opt_text(promoted_from)
            &&& record.status_since == Some(now)
            &&& record.created_at == now
            &&& record.failure is None
            &&& record.receipt_ids@.len() == 0
            &&& forall|i: int|
                0 <= i < record.workloads@.len() ==> !(#[trigger] record.workloads@[i]).admitted
        }),
{
    assert forall|i: int| 0 <= i < record.workloads@.len() implies !(
    #[trigger] record.workloads@[i]).admitted by {
        if request.placement is Some || request.artifact is Some {
            assert(is_first_evidence(
                record.workloads@[i],
                revision.value.workloads@[i],
                request,
            ));
        }
    }
}

/// The first release of a project to an environment adds the project there,
/// with no current deployment until traffic moves; a later one changes only
/// whether the project runs, and only when it asks for that.
pub proof fn law_projects_join_with_their_first_release(
    change: MembershipChange,
    desired: Desired,
    environment: Stored<EnvironmentRecord>,
    request: DeployRequest,
    project_id: Seq<char>,
    config_rows: Seq<(String, String)>,
    now: i64,
)
    requires
        is_membership_change(
            change,
            desired,
            environment,
            request,
            project_id,
            config_rows,
            now,
        ),
    ensures
        ({
            let key = key2(environment.value.name@, request.project@);
            let there = desired.memberships@.contains_key(key);
            &&& change is Create <==> !there
            &&& change matches MembershipChange::Create(record) ==> {
                &&& record.environment@ == environment.value.name@
                &&& record.project@ == request.project@
                &&& record.deployment_id is None
                &&& record.revision_id is None
                &&& request.desired_state matches Some(state) ==> record.desired_state == state
                &&& request.desired_state is None ==> record.desired_state == DesiredState::Running
            }
            &&& there && request.desired_state is None ==> change is Keep
            &&& there ==> (request.desired_state matches Some(state) ==> {
                &&& state == desired.memberships@[key].value.desired_state ==> change is Keep
                &&& state != desired.memberships@[key].value.desired_state ==> change
                    == MembershipChange::SetState(state)
            })
        }),
{
}

/// A release runs with the configuration it was given; only one that was
/// given none runs with the project's own.
pub proof fn law_given_configuration_is_used(
    request: DeployRequest,
    membership: Option<Stored<EnvironmentProjectRecord>>,
)
    ensures
        request.config matches Some(config) ==> release_config_rows(request, membership)
            == config.rows(),
        request.config is None ==> (membership matches Some(membership) ==> release_config_rows(
            request,
            Some(membership),
        ) == membership.value.config.rows()),
        request.config is None && membership is None ==> release_config_rows(
            request,
            membership,
        ).len() == 0,
{
}

/// Only a deployment that is active, drains or is complete was released and
/// is promoted without being asked to promote it regardless.
pub proof fn law_only_released_revisions_are_promoted(status: DeploymentStatus)
    ensures
        was_released(status) <==> status == DeploymentStatus::Active || status
            == DeploymentStatus::Draining || status == DeploymentStatus::Complete,
{
}

/// A selector that begins as an identifier does asks for that revision, any
/// other for the newest with that label; none asks for the newest.
pub proof fn law_selectors_are_told_apart(selector: Seq<char>, rest: Seq<char>)
    ensures
        revision_asked(None) == RevisionQuery::Newest,
        selector == "rev_"@ + rest ==> revision_asked(Some(selector)) == RevisionQuery::ById,
        selector.len() > 0 && selector[0] != 'r' ==> revision_asked(Some(selector))
            == RevisionQuery::ByLabel,
        selector.len() < 4 ==> revision_asked(Some(selector)) == RevisionQuery::ByLabel,
{
    reveal_strlit("rev_");
    assert("rev_"@.len() == 4 && "rev_"@[0] == 'r');
    if selector == "rev_"@ + rest {
        assert("rev_"@ =~= selector.subrange(0, 4));
    }
}

/// A request names somewhere to release to exactly when its environment
/// exists and every entry of its configuration may be set.
pub proof fn law_releases_need_an_environment(desired: Desired, request: DeployRequest)
    ensures
        desired.environment_named(request.environment@) is None ==> place_refusal(
            desired,
            request,
        ) is Some,
        place_refusal(desired, request) is None ==> (request.config matches Some(config) ==> forall|
            i: int,
        |
            0 <= i < config.rows().len() ==> !refused_entry(
                (#[trigger] config.rows()[i]).0@,
                config.rows()[i].1@,
            )),
        desired.environment_named(request.environment@) is Some && request.config is None
            ==> place_refusal(desired, request) is None,
{
    if let Some(config) = request.config {
        lemma_first(config.rows(), refused_row());
        if place_refusal(desired, request) is None {
            assert forall|i: int| 0 <= i < config.rows().len() implies !refused_entry(
                (#[trigger] config.rows()[i]).0@,
                config.rows()[i].1@,
            ) by {
                assert(!refused_row()(config.rows()[i]));
            }
        }
    }
}

/// A release starts with nothing decided of its workloads: none is admitted
/// or placed, and each is what its revision holds.
pub proof fn law_releases_start_undecided(
    evidence: Seq<DeploymentWorkload>,
    workloads: Seq<RevisionWorkload>,
    request: DeployRequest,
    i: int,
)
    requires
        is_start_evidence(evidence, workloads, request),
        0 <= i < evidence.len(),
    ensures
        evidence.len() == workloads.len(),
        request.placement is Some || request.artifact is Some,
        !evidence[i].admitted,
        evidence[i].runtime == workloads[i].runtime,
        evidence[i].runtime_version == workloads[i].runtime_version,
        evidence[i].resolved_runtime_version is None,
        evidence[i].distribution == workloads[i].distribution,
        evidence[i].policy_id is None,
        evidence[i].reasons@.len() == 0,
        evidence[i].admission_id is None,
        evidence[i].placement_id is None,
        evidence[i].provider is None,
        evidence[i].endpoints@.len() == 0,
        evidence[i].name == workloads[i].name,
        evidence[i].kind == workloads[i].kind,
        evidence[i].bundle_id == workloads[i].bundle_id,
        evidence[i].artifact == workloads[i].artifact,
        evidence[i].pool_placement == request.placement,
        request.artifact is None ==> evidence[i].application_artifact is None,
{
    assert(is_first_evidence(evidence[i], workloads[i], request));
    assert(opt_artifact(evidence[i].application_artifact) == opt_artifact(request.artifact));
}

/// The artifact of a release is the first that its evidence names, and none
/// only where it names none.
pub proof fn law_releases_name_their_first_artifact(workloads: Seq<DeploymentWorkload>, i: int)
    requires
        0 <= i <= workloads.len(),
    ensures
        artifact_from(workloads, i) is None <==> forall|k: int|
            i <= k < workloads.len() ==> (#[trigger] workloads[k]).application_artifact is None,
        forall|k: int|
            (i <= k < workloads.len() && (#[trigger] workloads[k]).application_artifact is Some
                && forall|j: int|
                i <= j < k ==> (#[trigger] workloads[j]).application_artifact is None)
                ==> artifact_from(workloads, i) == workloads[k].application_artifact,
    decreases workloads.len() - i,
{
    if i < workloads.len() {
        law_releases_name_their_first_artifact(workloads, i + 1);
    }
}

/// What a release replaces is the revision of the deployment before it,
/// where that is known.
pub proof fn law_replaced_revisions_are_the_previous_ones(desired: Desired, previous: Option<String>)
    ensures
        previous is None ==> replaced_revision(desired, previous) is None,
        previous matches Some(id) ==> desired.deployments@.contains_key(seq![id@])
            ==> replaced_revision(desired, previous) == Some(
            desired.deployments@[seq![id@]].value.revision@,
        ),
{
    match previous {
        Some(id) => {
            assert(key1(id@) =~= seq![id@]);
        },
        None => {},
    }
}

/// A release begins with nothing known of how it goes, now.
pub proof fn law_releases_begin_now(
    record: DeploymentRecord,
    desired: Desired,
    environment: Stored<EnvironmentRecord>,
    request: DeployRequest,
    project_id: Seq<char>,
    revision: Stored<ProjectRevisionRecord>,
    config_rows: Seq<(String, String)>,
    config_digest: Seq<char>,
    version: u64,
    promoted_from: Option<String>,
    now: i64,
)
    requires
        is_new_release(
            record,
            desired,
            environment,
            request,
            project_id,
            revision,
            config_rows,
            config_digest,
            version,
            promoted_from,
            now,
        ),
    ensures
        record.status is Pending,
        record.status_since == Some(now),
        record.created_at == now,
        record.updated_at == now,
        record.completed_at is None,
        record.failure is None,
        record.rollback_reason is None,
        record.readiness_result is None,
        record.network_result is None,
        record.traffic_switch_result is None,
        record.receipt is None,
        record.receipt_ids@.len() == 0,
        record.environment_id == environment.id,
        record.environment == environment.value.name,
        record.project_id@ == project_id,
        record.project == request.project,
        record.version == version,
        record.revision_id == revision.id,
        record.revision == revision.value.revision,
        record.revision_digest == revision.value.revision_digest,
        record.promoted_from == promoted_from,
        record.config.rows() == config_rows,
        opt_text(record.config_digest) == Some(config_digest),
{
}

/// A project that joins an environment begins there now, without a release,
/// with the configuration it was given.
pub proof fn law_joining_projects_begin_now(
    record: EnvironmentProjectRecord,
    desired: Desired,
    environment: Stored<EnvironmentRecord>,
    request: DeployRequest,
    project_id: Seq<char>,
    config_rows: Seq<(String, String)>,
    now: i64,
)
    requires
        is_membership_change(
            MembershipChange::Create(record),
            desired,
            environment,
            request,
            project_id,
            config_rows,
            now,
        ),
    ensures
        !desired.memberships@.contains_key(
            seq![environment.value.name@, request.project@],
        ),
        record.environment_id == environment.id,
        record.environment == environment.value.name,
        record.project_id@ == project_id,
        record.project == request.project,
        record.config.rows() == config_rows,
        record.revision_id is None,
        record.deployment_id is None,
        record.created_at == now,
        record.updated_at == now,
        request.desired_state is None ==> record.desired_state is Running,
        request.desired_state matches Some(state) ==> record.desired_state == state,
{
    assert(key2(environment.value.name@, request.project@) =~= seq![
        environment.value.name@,
        request.project@,
    ]);
}

/// A release that is refused is in the way of another, or lacks
/// configuration that it requires: a conflict, or invalid.
pub proof fn law_release_refusals_say_why(
    desired: Desired,
    environment: EnvironmentRecord,
    request: DeployRequest,
    config: Map<Seq<Seq<char>>, String>,
)
    ensures
        release_refusal(desired, environment, request, config) matches Some(refusal)
            ==> refusal is Conflict || refusal is Invalid,
        request.required_config@.len() == 0 ==> (release_refusal(
            desired,
            environment,
            request,
            config,
        ) matches Some(refusal) ==> refusal is Conflict),
        desired.deployments.values().len() == 0 ==> (release_refusal(
            desired,
            environment,
            request,
            config,
        ) matches Some(refusal) ==> refusal is Invalid),
{
    lemma_first(
        desired.deployments.values(),
        releasing_in(environment.name@, request.project@),
    );
}

} // verus!
