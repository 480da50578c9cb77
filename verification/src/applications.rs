//! Applications: the product view of a project in a node's `applications`
//! environment. An application is a project with one service, released
//! through the ordinary release lifecycle; its versions are its releases.

use vstd::prelude::*;

use crate::admission::{evidence_named, EvidenceNamed};
use crate::deploy::DeployRequest;
use crate::error::{EnvironmentError, Refusal};
use crate::model::{
    ActualState, Config, DesiredState, EnvironmentDefinition, PortSpec, Readiness, ReadinessCheck,
    RestartPolicy, WorkloadDefinition, WorkloadKind,
};
use crate::revisions::RevisionDefinition;
use crate::search::{first, found, lemma_first};
use crate::state::{
    copy_artifact, opt_artifact, ApplicationArtifactEvidence, DeploymentRecord, DeploymentStatus,
    DeploymentWorkload,
};
use crate::status::ProjectView;
use crate::table::{find_in, find_item, key1, Test};
use crate::text::{
    chars_of, copy_list, copy_option, decimal, decimal_text, find_from, find_text, index_from,
    index_of, last_index, last_index_of, law_numbers_are_read_back, lemma_decimal_digits,
    lemma_index_from, lemma_index_none, lemma_last_index, opt_text, parse_number, parsed_number,
    same, slice_of, texts, trim_prefix, without_prefix,
};

verus! {

/// The environment applications are released to on every node.
pub const APPLICATIONS_ENVIRONMENT: &'static str = "applications";

/// An application's one service.
pub const APPLICATION_WORKLOAD: &'static str = "app";

/// How many versions of an application are shown.
pub const HISTORY: usize = 50;

// ---- Versions and hosts -----------------------------------------------------

/// A version as it is written: a number, with or without a `v` before it.
pub open spec fn version_body(target: Seq<char>) -> Seq<char> {
    if target.len() > 0 && target[0] == 'v' {
        target.skip(1)
    } else {
        target
    }
}

/// The version a text names.
pub open spec fn named_version(target: Seq<char>) -> Option<nat> {
    parsed_number(version_body(target), u64::MAX as nat)
}

pub fn parse_version(target: &str) -> (r: Option<u64>)
    ensures
        match r {
            Some(version) => named_version(target@) == Some(version as nat),
            None => named_version(target@) is None,
        },
{
    let text = chars_of(target);
    let from: usize = if text.len() > 0 && text[0] == 'v' {
        1
    } else {
        0
    };
    let body = chars_of(&slice_of(&text, from, text.len()));
    proof {
        assert(body@ =~= version_body(target@));
    }
    parse_number(&body, u64::MAX)
}

/// What follows the scheme of a URL; all of it when it names none.
pub open spec fn after_scheme(url: Seq<char>) -> Seq<char> {
    match find_from(url, "://"@, 0) {
        Some(i) => url.skip(i + 3),
        None => url,
    }
}

/// What stands before the first slash.
pub open spec fn before_slash(rest: Seq<char>) -> Seq<char> {
    match index_from(rest, '/', 0) {
        Some(i) => rest.take(i),
        None => rest,
    }
}

/// The host of an authority: without its port, and with the brackets of an
/// IPv6 address.
pub open spec fn authority_host(authority: Seq<char>) -> Option<Seq<char>> {
    let host = if authority.len() > 0 && authority[0] == '[' {
        match index_from(authority, ']', 0) {
            Some(i) => Some(authority.take(i + 1)),
            None => None,
        }
    } else {
        match last_index(authority, ':', authority.len()) {
            Some(i) => Some(authority.take(i)),
            None => Some(authority),
        }
    };
    match host {
        Some(host) => if host.len() > 0 {
            Some(host)
        } else {
            None
        },
        None => None,
    }
}

/// The host a URL names.
pub open spec fn host_of_url(url: Seq<char>) -> Option<Seq<char>> {
    authority_host(before_slash(after_scheme(url)))
}

fn host_in(authority: &Vec<char>) -> (r: Option<String>)
    ensures
        opt_text(r) == authority_host(authority@),
{
    let end: usize = if authority.len() > 0 && authority[0] == '[' {
        match index_of(authority, ']') {
            Some(i) => i + 1,
            None => {
                return None;
            },
        }
    } else {
        match last_index_of(authority, ':') {
            Some(i) => i,
            None => authority.len(),
        }
    };
    proof {
        assert(authority@.subrange(0, end as int) =~= authority@.take(end as int));
        assert(authority@.take(authority@.len() as int) =~= authority@);
    }
    if end == 0 {
        None
    } else {
        Some(slice_of(authority, 0, end))
    }
}

pub fn url_host(url: &str) -> (r: Option<String>)
    ensures
        opt_text(r) == host_of_url(url@),
{
    let text = chars_of(url);
    proof {
        reveal_strlit("://");
    }
    let rest = match find_text(&text, "://") {
        Some(i) => {
            proof {
                assert(text@.subrange(i + 3, text@.len() as int) =~= text@.skip(i + 3));
            }
            chars_of(&slice_of(&text, i + 3, text.len()))
        },
        None => text,
    };
    let authority = match index_of(&rest, '/') {
        Some(i) => {
            proof {
                assert(rest@.subrange(0, i as int) =~= rest@.take(i as int));
            }
            chars_of(&slice_of(&rest, 0, i))
        },
        None => rest,
    };
    host_in(&authority)
}

/// An address services listen on.
#[derive(Debug)]
pub enum Address {
    V4 { text: String, unspecified: bool },
    V6 { text: String, unspecified: bool },
}

pub open spec fn address_literal(address: Address) -> Seq<char> {
    match address {
        Address::V4 { text, .. } => text@,
        Address::V6 { text, .. } => "["@ + text@ + "]"@,
    }
}

/// An address as the host of a URL.
pub fn host_literal(address: &Address) -> (r: String)
    ensures
        r@ == address_literal(*address),
{
    match address {
        Address::V4 { text, .. } => text.clone(),
        Address::V6 { text, .. } => {
            let mut host = "[".to_owned();
            host.append(text);
            host.append("]");
            host
        },
    }
}

pub open spec fn is_unspecified(address: Address) -> bool {
    match address {
        Address::V4 { unspecified, .. } => unspecified,
        Address::V6 { unspecified, .. } => unspecified,
    }
}

/// Where applications on a node are reached.
#[derive(Debug)]
pub struct ApplicationHost {
    /// The configured host, if any.
    pub host: Option<String>,
    pub address: Address,
    pub public_url: Option<String>,
}

/// The host applications are reached at: the one configured, or the address
/// they listen on, or, when that is any address, the node's public host.
pub open spec fn application_host(node: ApplicationHost) -> Seq<char> {
    match node.host {
        Some(host) => host@,
        None => if !is_unspecified(node.address) {
            address_literal(node.address)
        } else {
            let public = match node.public_url {
                Some(url) => host_of_url(url@),
                None => None,
            };
            match public {
                Some(host) => host,
                None => "127.0.0.1"@,
            }
        },
    }
}

/// Where an application endpoint on a port is reached.
pub open spec fn application_url_text(node: ApplicationHost, port: u16) -> Seq<char> {
    "http://"@ + application_host(node) + ":"@ + decimal_text(port as nat)
}

pub fn application_url(node: &ApplicationHost, port: u16) -> (r: String)
    ensures
        r@ == application_url_text(*node, port),
{
    let host = match &node.host {
        Some(host) => host.clone(),
        None => {
            let unspecified = match &node.address {
                Address::V4 { unspecified, .. } => *unspecified,
                Address::V6 { unspecified, .. } => *unspecified,
            };
            if !unspecified {
                host_literal(&node.address)
            } else {
                let public = match &node.public_url {
                    Some(url) => url_host(url),
                    None => None,
                };
                match public {
                    Some(host) => host,
                    None => "127.0.0.1".to_owned(),
                }
            }
        },
    };
    let mut url = "http://".to_owned();
    url.append(&host);
    url.append(":");
    url.append(&decimal(port as u64));
    url
}

// ---- Versions of an application ---------------------------------------------

/// Where a version stands, in product terms.
#[derive(Debug, Clone, Copy, PartialEq, Eq, Structural)]
pub enum ApplicationDeploymentState {
    Deploying,
    Active,
    Stopped,
    Superseded,
    RolledBack,
    Failed,
}

/// A release of an application, newest first among its versions.
pub struct VersionRecord {
    pub deployment_id: String,
    pub record: DeploymentRecord,
}

/// One version of an application.
#[derive(Debug)]
pub struct ApplicationDeploymentView {
    pub application: String,
    pub version: u64,
    pub deployment_id: String,
    pub state: ApplicationDeploymentState,
    pub active: bool,
    /// The version whose content this one released again.
    pub rollback_of: Option<u64>,
    pub endpoint: Option<String>,
    pub runtime: Option<String>,
    pub runtime_version: Option<String>,
    pub placement: Option<String>,
    pub artifact: Option<ApplicationArtifactEvidence>,
    pub failure: Option<String>,
    pub receipt: Option<String>,
    pub execution_receipts: Vec<String>,
    pub created_at: i64,
    pub completed_at: Option<i64>,
}

/// Where a version stands: a release that failed or was rolled back stays
/// so; the current one is active, or stopped with its application; one that
/// has not served yet is deploying; the rest were superseded.
pub open spec fn version_state(version: VersionRecord, active: bool, stopped: bool) -> ApplicationDeploymentState {
    if version.record.status is Failed {
        ApplicationDeploymentState::Failed
    } else if version.record.status is RolledBack {
        ApplicationDeploymentState::RolledBack
    } else if active {
        if stopped {
            ApplicationDeploymentState::Stopped
        } else {
            ApplicationDeploymentState::Active
        }
    } else if !version.record.status.terminal() && !version.record.status.serving() {
        ApplicationDeploymentState::Deploying
    } else {
        ApplicationDeploymentState::Superseded
    }
}

/// The first version from `j` on that served a revision.
pub open spec fn served_before(versions: Seq<VersionRecord>, revision: Seq<char>, j: int) -> Option<u64>
    decreases versions.len() - j,
{
    if j < 0 || j >= versions.len() {
        None
    } else if versions[j].record.revision_id@ == revision && versions[j].record.status.serving() {
        Some(versions[j].record.version)
    } else {
        served_before(versions, revision, j + 1)
    }
}

/// The version a version released again: one that served the same revision,
/// when the version just before released another.
pub open spec fn released_again(versions: Seq<VersionRecord>, i: int) -> Option<u64> {
    let revision = versions[i].record.revision_id@;
    if i + 1 < versions.len() && versions[i + 1].record.revision_id@ != revision {
        served_before(versions, revision, i + 1)
    } else {
        None
    }
}

fn find_released_again(versions: &Vec<VersionRecord>, i: usize) -> (r: Option<u64>)
    requires
        i < versions@.len(),
    ensures
        r == released_again(versions@, i as int),
{
    let revision = &versions[i].record.revision_id;
    let size: usize = versions.len();
    if i + 1 >= size || same(&versions[i + 1].record.revision_id, revision) {
        return None;
    }
    let mut j: usize = i + 1;
    while j < versions.len()
        invariant
            i < j <= versions@.len(),
            served_before(versions@, revision@, i + 1) == served_before(
                versions@,
                revision@,
                j as int,
            ),
        decreases versions@.len() - j,
    {
        if same(&versions[j].record.revision_id, revision) && versions[j].record.status.serves() {
            return Some(versions[j].record.version);
        }
        j += 1;
    }
    None
}

/// The evidence of an application's service, or of its first workload.
pub open spec fn application_evidence(workloads: Seq<DeploymentWorkload>) -> Option<DeploymentWorkload> {
    match found(workloads, evidence_named(APPLICATION_WORKLOAD@)) {
        Some(workload) => Some(workload),
        None => if workloads.len() > 0 {
            Some(workloads[0])
        } else {
            None
        },
    }
}

fn find_application_evidence(workloads: &Vec<DeploymentWorkload>) -> (r: Option<&DeploymentWorkload>)
    ensures
        match r {
            Some(workload) => application_evidence(workloads@) == Some(*workload),
            None => application_evidence(workloads@) is None,
        },
{
    match find_item(workloads, &EvidenceNamed { name: APPLICATION_WORKLOAD }) {
        Some(workload) => Some(workload),
        None => if workloads.len() > 0 {
            Some(&workloads[0])
        } else {
            None
        },
    }
}

/// The deployment current of a project.
pub open spec fn current_of(project: ProjectView) -> Option<Seq<char>> {
    match project.deployment {
        Some(summary) => Some(summary.deployment_id@),
        None => None,
    }
}

/// Whether an application is stopped.
pub open spec fn is_stopped(project: ProjectView) -> bool {
    project.desired_state == DesiredState::Stopped || project.actual_state == ActualState::Stopped
}

/// Whether a view is of the `i`-th version of an application.
pub open spec fn is_version_view(
    view: ApplicationDeploymentView,
    name: Seq<char>,
    project: ProjectView,
    versions: Seq<VersionRecord>,
    i: int,
    node: ApplicationHost,
) -> bool {
    let version = versions[i];
    let record = version.record;
    let evidence = application_evidence(record.workloads@);
    &&& view.application@ == name
    &&& view.version == record.version
    &&& view.deployment_id == version.deployment_id
    &&& view.active == (current_of(project) == Some(version.deployment_id@))
    &&& view.state == version_state(version, view.active, is_stopped(project))
    &&& view.rollback_of == released_again(versions, i)
    &&& match evidence {
        Some(workload) => {
            &&& opt_text(view.endpoint) == (if workload.endpoints@.len() > 0 {
                Some(application_url_text(node, workload.endpoints@[0].host))
            } else {
                None
            })
            &&& view.runtime == Some(workload.runtime)
            &&& view.runtime_version == (if workload.resolved_runtime_version is Some {
                workload.resolved_runtime_version
            } else {
                workload.runtime_version
            })
            &&& view.placement == workload.pool_placement
            &&& opt_artifact(view.artifact) == opt_artifact(workload.application_artifact)
        },
        None => {
            &&& view.endpoint is None
            &&& view.runtime is None
            &&& view.runtime_version is None
            &&& view.placement is None
            &&& view.artifact is None
        },
    }
    &&& view.failure == (if record.failure is Some {
        record.failure
    } else {
        record.rollback_reason
    })
    &&& view.receipt == record.receipt
    &&& view.execution_receipts@ == record.receipt_ids@
    &&& view.created_at == record.created_at
    &&& view.completed_at == record.completed_at
}

fn version_view(
    name: &str,
    project: &ProjectView,
    versions: &Vec<VersionRecord>,
    i: usize,
    node: &ApplicationHost,
) -> (r: ApplicationDeploymentView)
    requires
        i < versions@.len(),
    ensures
        is_version_view(r, name@, *project, versions@, i as int, *node),
{
    let version = &versions[i];
    let record = &version.record;
    let active = match &project.deployment {
        Some(summary) => same(&summary.deployment_id, &version.deployment_id),
        None => false,
    };
    let stopped = project.desired_state == DesiredState::Stopped || project.actual_state
        == ActualState::Stopped;
    let state = match record.status {
        DeploymentStatus::Failed => ApplicationDeploymentState::Failed,
        DeploymentStatus::RolledBack => ApplicationDeploymentState::RolledBack,
        _ => if active {
            if stopped {
                ApplicationDeploymentState::Stopped
            } else {
                ApplicationDeploymentState::Active
            }
        } else if !record.status.is_terminal() && !record.status.serves() {
            ApplicationDeploymentState::Deploying
        } else {
            ApplicationDeploymentState::Superseded
        },
    };
    let mut view = ApplicationDeploymentView {
        application: name.to_owned(),
        version: record.version,
        deployment_id: version.deployment_id.clone(),
        state,
        active,
        rollback_of: find_released_again(versions, i),
        endpoint: None,
        runtime: None,
        runtime_version: None,
        placement: None,
        artifact: None,
        failure: if record.failure.is_some() {
            copy_option(&record.failure)
        } else {
            copy_option(&record.rollback_reason)
        },
        receipt: copy_option(&record.receipt),
        execution_receipts: copy_list(&record.receipt_ids),
        created_at: record.created_at,
        completed_at: record.completed_at,
    };
    if let Some(workload) = find_application_evidence(&record.workloads) {
        if workload.endpoints.len() > 0 {
            view.endpoint = Some(application_url(node, workload.endpoints[0].host));
        }
        view.runtime = Some(workload.runtime.clone());
        view.runtime_version = if workload.resolved_runtime_version.is_some() {
            copy_option(&workload.resolved_runtime_version)
        } else {
            copy_option(&workload.runtime_version)
        };
        view.placement = copy_option(&workload.pool_placement);
        view.artifact = copy_artifact(&workload.application_artifact);
    }
    view
}

/// An application's versions, newest first, in product terms.
pub fn application_deployments(
    name: &str,
    project: &ProjectView,
    versions: &Vec<VersionRecord>,
    node: &ApplicationHost,
) -> (r: Vec<ApplicationDeploymentView>)
    ensures
        r@.len() == versions@.len(),
        forall|i: int|
            0 <= i < r@.len() ==> is_version_view(
                #[trigger] r@[i],
                name@,
                *project,
                versions@,
                i,
                *node,
            ),
{
    let mut r: Vec<ApplicationDeploymentView> = Vec::new();
    let mut i: usize = 0;
    while i < versions.len()
        invariant
            i <= versions@.len(),
            r@.len() == i,
            forall|j: int|
                0 <= j < i ==> is_version_view(
                    #[trigger] r@[j],
                    name@,
                    *project,
                    versions@,
                    j,
                    *node,
                ),
        decreases versions@.len() - i,
    {
        r.push(version_view(name, project, versions, i, node));
        i += 1;
    }
    r
}

/// Whether a version is the one a target names: by identifier or number.
pub open spec fn version_named(target: Seq<char>) -> spec_fn(ApplicationDeploymentView) -> bool {
    |view: ApplicationDeploymentView|
        view.deployment_id@ == target || named_version(target) == Some(view.version as nat)
}

struct VersionNamed<'a> {
    target: &'a str,
}

impl<'a> Test<ApplicationDeploymentView> for VersionNamed<'a> {
    closed spec fn pred(&self) -> spec_fn(ApplicationDeploymentView) -> bool {
        version_named(self.target@)
    }

    fn test(&self, item: &ApplicationDeploymentView) -> (r: bool) {
        same(&item.deployment_id, self.target) || match parse_version(self.target) {
            Some(version) => version == item.version,
            None => false,
        }
    }
}

/// One version, by version number or deployment identifier.
pub fn find_version<'a>(
    name: &str,
    versions: &'a Vec<ApplicationDeploymentView>,
    target: &str,
) -> (r: Result<&'a ApplicationDeploymentView, EnvironmentError>)
    ensures
        match found(versions@, version_named(target@)) {
            Some(view) => r matches Ok(found_view) && *found_view == view,
            None => r matches Err(error) && error.reports(
                Refusal::NotFound(name@ + " "@ + target@),
            ),
        },
{
    match find_item(versions, &VersionNamed { target }) {
        Some(view) => Ok(view),
        None => {
            let mut text = name.to_owned();
            text.append(" ");
            text.append(target);
            Err(EnvironmentError::NotFound(text))
        },
    }
}

// ---- One application --------------------------------------------------------

pub open spec fn is_active() -> spec_fn(ApplicationDeploymentView) -> bool {
    |view: ApplicationDeploymentView| view.active
}

struct IsActive {}

impl Test<ApplicationDeploymentView> for IsActive {
    closed spec fn pred(&self) -> spec_fn(ApplicationDeploymentView) -> bool {
        is_active()
    }

    fn test(&self, item: &ApplicationDeploymentView) -> (r: bool) {
        item.active
    }
}

pub open spec fn is_deploying() -> spec_fn(ApplicationDeploymentView) -> bool {
    |view: ApplicationDeploymentView| view.state == ApplicationDeploymentState::Deploying
}

struct IsDeploying {}

impl Test<ApplicationDeploymentView> for IsDeploying {
    closed spec fn pred(&self) -> spec_fn(ApplicationDeploymentView) -> bool {
        is_deploying()
    }

    fn test(&self, item: &ApplicationDeploymentView) -> (r: bool) {
        item.state == ApplicationDeploymentState::Deploying
    }
}

pub open spec fn has_endpoint() -> spec_fn(ApplicationDeploymentView) -> bool {
    |view: ApplicationDeploymentView| view.endpoint is Some
}

struct HasEndpoint {}

impl Test<ApplicationDeploymentView> for HasEndpoint {
    closed spec fn pred(&self) -> spec_fn(ApplicationDeploymentView) -> bool {
        has_endpoint()
    }

    fn test(&self, item: &ApplicationDeploymentView) -> (r: bool) {
        item.endpoint.is_some()
    }
}

/// One application: its status, stable endpoint and versions.
#[derive(Debug)]
pub struct ApplicationView {
    pub application: String,
    pub status: String,
    pub node: String,
    pub endpoint: Option<String>,
    /// Positions among the versions.
    pub active: Option<usize>,
    pub deploying: Option<usize>,
    pub deployments: Vec<ApplicationDeploymentView>,
}

pub open spec fn position(value: Option<usize>) -> Option<int> {
    match value {
        Some(i) => Some(i as int),
        None => None,
    }
}

/// The endpoint of an application: the active version's, or else the newest
/// one a version has.
pub open spec fn stable_endpoint(versions: Seq<ApplicationDeploymentView>) -> Option<String> {
    match first(versions, is_active()) {
        Some(i) if versions[i].endpoint is Some => versions[i].endpoint,
        _ => match found(versions, has_endpoint()) {
            Some(view) => view.endpoint,
            None => None,
        },
    }
}

/// An application as it is now, given its versions.
pub fn application_view(
    name: &str,
    node: &str,
    actual_state: ActualState,
    deployments: Vec<ApplicationDeploymentView>,
) -> (r: ApplicationView)
    ensures
        r.application@ == name@,
        r.node@ == node@,
        r.deployments@ == deployments@,
        position(r.active) == first(deployments@, is_active()),
        position(r.deploying) == first(deployments@, is_deploying()),
        r.status@ == (if r.deploying is Some && r.active is None {
            "deploying"@
        } else {
            actual_state.name()
        }),
        r.endpoint == stable_endpoint(deployments@),
{
    let active = find_in(&deployments, &IsActive {  });
    let deploying = find_in(&deployments, &IsDeploying {  });
    let status = if deploying.is_some() && active.is_none() {
        "deploying"
    } else {
        actual_state.as_str()
    };
    let endpoint = match active {
        Some(i) => copy_option(&deployments[i].endpoint),
        None => None,
    };
    let endpoint = match endpoint {
        Some(endpoint) => Some(endpoint),
        None => match find_item(&deployments, &HasEndpoint {  }) {
            Some(view) => copy_option(&view.endpoint),
            None => None,
        },
    };
    ApplicationView {
        application: name.to_owned(),
        status: status.to_owned(),
        node: node.to_owned(),
        endpoint,
        active,
        deploying,
        deployments,
    }
}

/// What reading something that may not be there gave: nothing where it is
/// not found, and the error where it could not be read.
pub fn unless_missing<T>(result: Result<T, EnvironmentError>) -> (r: Result<
    Option<T>,
    EnvironmentError,
>)
    ensures
        match result {
            Ok(value) => r == Ok::<Option<T>, EnvironmentError>(Some(value)),
            Err(EnvironmentError::NotFound(_)) => r == Ok::<Option<T>, EnvironmentError>(None),
            Err(error) => r == Err::<Option<T>, EnvironmentError>(error),
        },
{
    match result {
        Ok(value) => Ok(Some(value)),
        Err(EnvironmentError::NotFound(_)) => Ok(None),
        Err(error) => Err(error),
    }
}

/// What a failure to create the environment of applications is: none where
/// another request created it first.
pub fn unless_taken(result: Result<(), EnvironmentError>) -> (r: Result<(), EnvironmentError>)
    ensures
        match result {
            Ok(_) => r is Ok,
            Err(EnvironmentError::Conflict(_)) => r is Ok,
            Err(error) => r == Err::<(), EnvironmentError>(error),
        },
{
    match result {
        Ok(_) => Ok(()),
        Err(EnvironmentError::Conflict(_)) => Ok(()),
        Err(error) => Err(error),
    }
}

/// The environment applications are released to, as it is created.
pub fn applications_environment() -> (r: EnvironmentDefinition)
    ensures
        r.name@ == APPLICATIONS_ENVIRONMENT@,
        r.desired_state == DesiredState::Running,
        r.env@ == Map::<Seq<Seq<char>>, String>::empty(),
        r.policy is None,
        r.provider is None,
{
    EnvironmentDefinition {
        name: APPLICATIONS_ENVIRONMENT.to_owned(),
        desired_state: DesiredState::Running,
        env: Config::new(),
        policy: None,
        provider: None,
    }
}

/// How a node is named to those who use its applications: by its public
/// address, or by its instance.
pub fn node_url(public_url: &Option<String>, instance_id: &str) -> (r: String)
    ensures
        r@ == (match *public_url {
            Some(url) => url@,
            None => instance_id@,
        }),
{
    match public_url {
        Some(url) => url.clone(),
        None => instance_id.to_owned(),
    }
}

/// The report of an application that is not there.
pub fn no_application(name: &str) -> (r: EnvironmentError)
    ensures
        r.reports(
            Refusal::NotFound("application "@ + name@ + " is not deployed on this node"@),
        ),
{
    let mut text = "application ".to_owned();
    text.append(name);
    text.append(" is not deployed on this node");
    EnvironmentError::NotFound(text)
}

// ---- Rolling back -----------------------------------------------------------

/// Whether a release is the one a target names.
pub open spec fn record_named(target: Seq<char>) -> spec_fn(VersionRecord) -> bool {
    |version: VersionRecord|
        version.deployment_id@ == target || named_version(target) == Some(
            version.record.version as nat,
        )
}

struct RecordNamed<'a> {
    target: &'a str,
}

impl<'a> Test<VersionRecord> for RecordNamed<'a> {
    closed spec fn pred(&self) -> spec_fn(VersionRecord) -> bool {
        record_named(self.target@)
    }

    fn test(&self, item: &VersionRecord) -> (r: bool) {
        same(&item.deployment_id, self.target) || match parse_version(self.target) {
            Some(version) => version == item.record.version,
            None => false,
        }
    }
}

/// The artifact an application's service came from.
pub open spec fn service_artifact(workloads: Seq<DeploymentWorkload>) -> Option<
    ApplicationArtifactEvidence,
> {
    match found(workloads, evidence_named(APPLICATION_WORKLOAD@)) {
        Some(workload) => workload.application_artifact,
        None => None,
    }
}

/// The request that deploys an earlier version's revision and configuration
/// again, as the next version. History is never edited, and a version that
/// never served is not returned to.
pub fn rollback_application(
    name: &str,
    target: &str,
    placement: Option<String>,
    versions: &Vec<VersionRecord>,
) -> (r: Result<DeployRequest, EnvironmentError>)
    ensures
        match found(versions@, record_named(target@)) {
            None => r matches Err(error) && error.reports(
                Refusal::NotFound(name@ + " has no version "@ + target@),
            ),
            Some(version) => if version.record.status is Failed
                || version.record.status is RolledBack {
                r matches Err(error) && error.reports(
                    Refusal::Invalid(
                        name@ + " v"@ + decimal_text(version.record.version as nat)
                            + " never served; roll back to a version that did"@,
                    ),
                )
            } else {
                &&& r matches Ok(request)
                &&& request.project@ == name@
                &&& request.environment@ == APPLICATIONS_ENVIRONMENT@
                &&& request.revision == Some(version.record.revision_id)
                &&& request.config matches Some(config)
                &&& config.rows() == version.record.config.rows()
                &&& request.desired_state == Some(DesiredState::Running)
                &&& request.placement == placement
                &&& opt_artifact(request.artifact) == opt_artifact(
                    service_artifact(version.record.workloads@),
                )
                &&& request.required_config@.len() == 0
            },
        },
{
    let version = match find_item(versions, &RecordNamed { target }) {
        Some(version) => version,
        None => {
            let mut text = name.to_owned();
            text.append(" has no version ");
            text.append(target);
            return Err(EnvironmentError::NotFound(text));
        },
    };
    match version.record.status {
        DeploymentStatus::Failed | DeploymentStatus::RolledBack => {
            let mut text = name.to_owned();
            text.append(" v");
            text.append(&decimal(version.record.version));
            text.append(" never served; roll back to a version that did");
            return Err(EnvironmentError::Invalid(text));
        },
        _ => {},
    }
    let artifact = match find_item(
        &version.record.workloads,
        &EvidenceNamed { name: APPLICATION_WORKLOAD },
    ) {
        Some(workload) => copy_artifact(&workload.application_artifact),
        None => None,
    };
    Ok(
        DeployRequest {
            project: name.to_owned(),
            environment: APPLICATIONS_ENVIRONMENT.to_owned(),
            revision: Some(version.record.revision_id.clone()),
            config: Some(version.record.config.copy()),
            desired_state: Some(DesiredState::Running),
            placement,
            artifact,
            required_config: Vec::new(),
        },
    )
}

// ---- Deploying --------------------------------------------------------------

/// A request to deploy an application: from an artifact, or a bundle and
/// the port it listens on.
#[derive(Debug)]
pub struct ApplicationRequest {
    pub has_artifact: bool,
    pub bundle_bytes: usize,
    pub port: Option<u16>,
}

/// What a request deploys.
#[derive(Debug, Clone, Copy, PartialEq, Eq, Structural)]
pub enum ApplicationSource {
    Artifact,
    Bundle { port: u16 },
}

/// Decide what a request deploys. `identity` is what the application's name
/// and port are refused for.
pub fn application_source(
    hosts_deployments: bool,
    request: &ApplicationRequest,
    identity: Result<(), String>,
) -> (r: Result<ApplicationSource, EnvironmentError>)
    ensures
        if !hosts_deployments {
            r matches Err(error) && error.reports(
                Refusal::Invalid("this node does not host application deployments"@),
            )
        } else if request.has_artifact {
            if request.bundle_bytes > 0 || request.port is Some {
                r matches Err(error) && error.reports(
                    Refusal::Invalid(
                        "an application artifact carries its bundle and port; send one or the other"@,
                    ),
                )
            } else {
                r == Ok::<ApplicationSource, EnvironmentError>(ApplicationSource::Artifact)
            }
        } else if !(request.port matches Some(port) && port > 0) {
            r matches Err(error) && error.reports(
                Refusal::Invalid("an application needs the port it listens on"@),
            )
        } else if request.bundle_bytes == 0 {
            r matches Err(error) && error.reports(
                Refusal::Invalid("a deployment needs an application artifact or a bundle"@),
            )
        } else {
            match identity {
                Err(text) => r matches Err(error) && error.reports(Refusal::Compute(text@)),
                Ok(_) => r == Ok::<ApplicationSource, EnvironmentError>(
                    ApplicationSource::Bundle { port: request.port->0 },
                ),
            }
        },
{
    if !hosts_deployments {
        return Err(
            EnvironmentError::Invalid("this node does not host application deployments".to_owned()),
        );
    }
    if request.has_artifact {
        if request.bundle_bytes > 0 || request.port.is_some() {
            return Err(
                EnvironmentError::Invalid(
                    "an application artifact carries its bundle and port; send one or the other".to_owned(),
                ),
            );
        }
        return Ok(ApplicationSource::Artifact);
    }
    let port: u16 = match request.port {
        Some(port) => port,
        None => 0,
    };
    if port == 0 {
        return Err(
            EnvironmentError::Invalid("an application needs the port it listens on".to_owned()),
        );
    }
    if request.bundle_bytes == 0 {
        return Err(
            EnvironmentError::Invalid(
                "a deployment needs an application artifact or a bundle".to_owned(),
            ),
        );
    }
    match identity {
        Ok(_) => Ok(ApplicationSource::Bundle { port }),
        Err(error) => Err(EnvironmentError::Compute(error)),
    }
}

/// What an application artifact says of itself.
pub struct ArtifactManifest {
    pub application: String,
    pub required: Vec<String>,
    /// Defaults built into the artifact.
    pub defaults: Config,
    pub version: Option<String>,
    pub capabilities: Vec<String>,
}

/// What is kept of the artifact an application is deployed from.
pub fn artifact_evidence(artifact_id: String, url: Option<String>, manifest: ArtifactManifest) -> (r:
    ApplicationArtifactEvidence)
    ensures
        r == (ApplicationArtifactEvidence {
            artifact_id,
            url,
            version: manifest.version,
            capabilities: manifest.capabilities,
        }),
{
    ApplicationArtifactEvidence {
        artifact_id,
        url,
        version: manifest.version,
        capabilities: manifest.capabilities,
    }
}

/// The variables among the first `n` that an artifact requires and has no
/// default for.
pub open spec fn required_upto(manifest: ArtifactManifest, n: nat) -> Seq<Seq<char>>
    decreases n,
{
    if n == 0 {
        Seq::empty()
    } else {
        let before = required_upto(manifest, (n - 1) as nat);
        let name = manifest.required@[n - 1]@;
        if manifest.defaults@.contains_key(key1(name)) {
            before
        } else {
            before.push(name)
        }
    }
}

/// What an artifact requires of configuration, when it is the application
/// being deployed. Defaults built into it satisfy a requirement too.
pub fn required_env(name: &str, manifest: &ArtifactManifest) -> (r: Result<
    Vec<String>,
    EnvironmentError,
>)
    ensures
        if manifest.application@ != name@ {
            r matches Err(error) && error.reports(
                Refusal::Invalid(
                    "the artifact is application "@ + manifest.application@ + ", not "@ + name@,
                ),
            )
        } else {
            r matches Ok(required) && texts(required@) == required_upto(
                *manifest,
                manifest.required@.len(),
            )
        },
{
    if !same(&manifest.application, name) {
        let mut text = "the artifact is application ".to_owned();
        text.append(&manifest.application);
        text.append(", not ");
        text.append(name);
        return Err(EnvironmentError::Invalid(text));
    }
    let mut r: Vec<String> = Vec::new();
    let mut i: usize = 0;
    proof {
        assert(texts(r@) =~= Seq::<Seq<char>>::empty());
    }
    while i < manifest.required.len()
        invariant
            i <= manifest.required@.len(),
            texts(r@) == required_upto(*manifest, i as nat),
        decreases manifest.required@.len() - i,
    {
        if manifest.defaults.at(&manifest.required[i]).is_none() {
            let ghost before = r@;
            r.push(manifest.required[i].clone());
            proof {
                assert(texts(r@) =~= texts(before).push(manifest.required@[i as int]@));
            }
        }
        i += 1;
    }
    Ok(r)
}

/// Whether a readiness check is the one applications get: a page answers.
pub open spec fn is_application_readiness(readiness: Readiness) -> bool {
    &&& readiness.check is Http
    &&& opt_text(readiness.port) == Some("http"@)
    &&& opt_text(readiness.path) == Some("/"@)
    &&& readiness.task is None
    &&& readiness.timeout_ms == 60_000
    &&& readiness.interval_ms == 250
}

/// The revision an application's bundle makes: one service on one port,
/// labelled by its content.
pub fn application_revision(
    bundle_id: &str,
    source: Option<String>,
    bundle: Vec<u8>,
    port: u16,
) -> (r: RevisionDefinition)
    ensures
        r.revision@ == "artifact-"@ + without_prefix(bundle_id@, "sha256:"@),
        r.source == source,
        r.workloads@.len() == 1,
        ({
            let workload = r.workloads@[0];
            &&& workload.name@ == APPLICATION_WORKLOAD@
            &&& workload.kind == WorkloadKind::Service
            &&& workload.bundle == bundle
            &&& workload.ports@.len() == 1
            &&& workload.ports@[0].name@ == "http"@
            &&& workload.ports@[0].port == port
            &&& workload.restart == RestartPolicy::OnFailure
            &&& workload.desired_state == DesiredState::Running
            &&& workload.readiness matches Some(readiness)
            &&& is_application_readiness(readiness)
        }),
{
    let mut revision = "artifact-".to_owned();
    revision.append(&trim_prefix(bundle_id, "sha256:"));
    let mut ports: Vec<PortSpec> = Vec::new();
    ports.push(PortSpec { name: "http".to_owned(), port });
    let readiness = Readiness {
        check: ReadinessCheck::Http,
        port: Some("http".to_owned()),
        path: Some("/".to_owned()),
        task: None,
        timeout_ms: 60_000,
        interval_ms: 250,
    };
    let mut workloads: Vec<WorkloadDefinition> = Vec::new();
    workloads.push(
        WorkloadDefinition {
            name: APPLICATION_WORKLOAD.to_owned(),
            kind: WorkloadKind::Service,
            bundle,
            ports,
            restart: RestartPolicy::OnFailure,
            desired_state: DesiredState::Running,
            readiness: Some(readiness),
        },
    );
    RevisionDefinition { revision, source, workloads }
}

/// The request that releases an application's revision.
pub fn application_release(
    name: &str,
    revision_id: String,
    config: Option<Config>,
    placement: Option<String>,
    artifact: Option<ApplicationArtifactEvidence>,
    required_config: Vec<String>,
) -> (r: DeployRequest)
    ensures
        r.project@ == name@,
        r.environment@ == APPLICATIONS_ENVIRONMENT@,
        r.revision == Some(revision_id),
        r.config == config,
        r.desired_state == Some(DesiredState::Running),
        r.placement == placement,
        r.artifact == artifact,
        r.required_config == required_config,
{
    DeployRequest {
        project: name.to_owned(),
        environment: APPLICATIONS_ENVIRONMENT.to_owned(),
        revision: Some(revision_id),
        config,
        desired_state: Some(DesiredState::Running),
        placement,
        artifact,
        required_config,
    }
}

// ---- Laws -------------------------------------------------------------------

/// Whether a character stands in the text of an IP address.
pub open spec fn is_address_char(c: char) -> bool {
    '0' <= c <= '9' || 'a' <= c <= 'f' || c == '.' || c == ':'
}

/// Whether an address is written as one: in digits and dots, or, for IPv6,
/// with letters and colons too.
pub open spec fn is_written(address: Address) -> bool {
    match address {
        Address::V4 { text, .. } => text@.len() > 0 && forall|i: int|
            0 <= i < text@.len() ==> is_address_char(#[trigger] text@[i]) && text@[i] != ':',
        Address::V6 { text, .. } => forall|i: int|
            0 <= i < text@.len() ==> is_address_char(#[trigger] text@[i]),
    }
}

/// A scheme that holds no colon is left out of what follows it.
proof fn lemma_after_scheme(scheme: Seq<char>, rest: Seq<char>, i: int)
    requires
        0 <= i <= scheme.len(),
        forall|j: int| 0 <= j < scheme.len() ==> #[trigger] scheme[j] != ':',
    ensures
        find_from(scheme + "://"@ + rest, "://"@, i) == Some(scheme.len() as int),
    decreases scheme.len() - i,
{
    reveal_strlit("://");
    let url = scheme + "://"@ + rest;
    if i < scheme.len() {
        assert(url.skip(i)[0] == scheme[i]);
        assert("://"@[0] == ':');
        lemma_after_scheme(scheme, rest, i + 1);
    } else {
        assert("://"@ =~= url.skip(i).take(3));
    }
}

/// The host of a URL is recovered exactly. An address, written as the host
/// of a URL of any scheme and followed by a port and by a path or nothing,
/// is what the URL names: with the brackets of an IPv6 address, and without
/// port and path.
pub proof fn law_url_hosts_are_recovered(
    scheme: Seq<char>,
    address: Address,
    port: u16,
    path: Seq<char>,
)
    requires
        is_written(address),
        forall|i: int| 0 <= i < scheme.len() ==> #[trigger] scheme[i] != ':',
        path.len() == 0 || path[0] == '/',
    ensures
        host_of_url(
            scheme + "://"@ + (address_literal(address) + ":"@ + decimal_text(port as nat) + path),
        ) == Some(address_literal(address)),
{
    reveal_strlit("://");
    reveal_strlit(":");
    reveal_strlit("[");
    reveal_strlit("]");
    let host = address_literal(address);
    let digits = decimal_text(port as nat);
    let authority = host + ":"@ + digits;
    let rest = authority + path;
    let url = scheme + "://"@ + rest;
    lemma_decimal_digits(port as nat);
    lemma_after_scheme(scheme, rest, 0);
    assert(after_scheme(url) =~= rest);
    assert forall|i: int| 0 <= i < host.len() implies host[i] != '/' by {
        match address {
            Address::V4 { text, .. } => {
                assert(is_address_char(text@[i]));
            },
            Address::V6 { text, .. } => {
                if 0 < i < host.len() - 1 {
                    assert(host[i] == text@[i - 1]);
                    assert(is_address_char(text@[i - 1]));
                }
            },
        }
    }
    assert forall|i: int| 0 <= i < authority.len() implies authority[i] != '/' by {
        if i < host.len() {
            assert(authority[i] == host[i]);
        } else if i > host.len() {
            assert(authority[i] == digits[i - host.len() - 1]);
        }
    }
    assert(before_slash(rest) =~= authority) by {
        if path.len() == 0 {
            assert(rest =~= authority);
            lemma_index_none(rest, '/', 0);
        } else {
            assert(rest[authority.len() as int] == path[0]);
            assert forall|i: int| 0 <= i < authority.len() implies rest[i] != '/' by {
                assert(rest[i] == authority[i]);
            }
            lemma_index_from(rest, '/', 0, authority.len() as int);
        }
    }
    assert(authority.take(host.len() as int) =~= host);
    match address {
        Address::V4 { text, .. } => {
            assert(authority[0] == text@[0]);
            assert(is_address_char(text@[0]));
            assert forall|i: int| host.len() < i < authority.len() implies authority[i] != ':' by {
                assert(authority[i] == digits[i - host.len() - 1]);
            }
            lemma_last_index(authority, ':', authority.len(), host.len() as int);
        },
        Address::V6 { text, .. } => {
            let close = host.len() - 1;
            assert(authority[0] == '[');
            assert forall|i: int| 0 <= i < close implies authority[i] != ']' by {
                if i > 0 {
                    assert(authority[i] == text@[i - 1]);
                    assert(is_address_char(text@[i - 1]));
                }
            }
            assert(authority[close] == ']');
            lemma_index_from(authority, ']', 0, close);
        },
    }
}

/// At most one version of an application is active: the one whose
/// identifier its project has current.
pub proof fn law_one_active_version(
    views: Seq<ApplicationDeploymentView>,
    name: Seq<char>,
    project: ProjectView,
    versions: Seq<VersionRecord>,
    node: ApplicationHost,
    i: int,
    j: int,
)
    requires
        views.len() == versions.len(),
        forall|k: int|
            0 <= k < views.len() ==> is_version_view(
                #[trigger] views[k],
                name,
                project,
                versions,
                k,
                node,
            ),
        0 <= i < views.len(),
        0 <= j < views.len(),
        views[i].active,
        views[j].active,
    ensures
        views[i].deployment_id@ == views[j].deployment_id@,
{
}

/// A version that failed or was rolled back is never shown as active,
/// stopped or superseded, whatever is current.
pub proof fn law_failed_versions_stay_failed(version: VersionRecord, active: bool, stopped: bool)
    requires
        version.record.status is Failed || version.record.status is RolledBack,
    ensures
        version_state(version, active, stopped) == (if version.record.status is Failed {
            ApplicationDeploymentState::Failed
        } else {
            ApplicationDeploymentState::RolledBack
        }),
{
}

/// A version is named by its number, with or without a `v` before it.
pub proof fn law_versions_are_named_by_number(version: u64)
    ensures
        named_version(decimal_text(version as nat)) == Some(version as nat),
        named_version(seq!['v'] + decimal_text(version as nat)) == Some(version as nat),
{
    law_numbers_are_read_back(version as nat, u64::MAX as nat);
    lemma_decimal_digits(version as nat);
    let text = decimal_text(version as nat);
    assert((seq!['v'] + text).skip(1) =~= text);
}

/// A version that was neither failed nor rolled back is active or stopped
/// where it is current; otherwise it is deploying until it served, and
/// superseded from there on.
pub proof fn law_versions_show_where_they_stand(
    version: VersionRecord,
    active: bool,
    stopped: bool,
)
    requires
        !(version.record.status is Failed),
        !(version.record.status is RolledBack),
    ensures
        active && stopped ==> version_state(version, active, stopped)
            == ApplicationDeploymentState::Stopped,
        active && !stopped ==> version_state(version, active, stopped)
            == ApplicationDeploymentState::Active,
        !active && (version.record.status is Pending || version.record.status is Starting
            || version.record.status is Ready || version.record.status is NetworkReady
            || version.record.status is Switching) ==> version_state(version, active, stopped)
            == ApplicationDeploymentState::Deploying,
        !active && (version.record.status is Active || version.record.status is Draining
            || version.record.status is Complete) ==> version_state(version, active, stopped)
            == ApplicationDeploymentState::Superseded,
{
}

/// A version rolls back to an earlier one exactly when the version just
/// before it released other content and an earlier one served the same.
pub proof fn law_rollbacks_return_to_what_served(versions: Seq<VersionRecord>, i: int)
    requires
        0 <= i < versions.len(),
    ensures
        released_again(versions, i) is Some <==> i + 1 < versions.len() && versions[i
            + 1].record.revision_id@ != versions[i].record.revision_id@ && exists|j: int|
            i < j < versions.len() && (#[trigger] versions[j]).record.revision_id@
                == versions[i].record.revision_id@ && (versions[j].record.status is Active
                || versions[j].record.status is Draining || versions[j].record.status is Complete),
        released_again(versions, i) matches Some(version) ==> exists|j: int|
            i + 1 < j < versions.len() && (#[trigger] versions[j]).record.version == version
                && versions[j].record.revision_id@ == versions[i].record.revision_id@ && (
            versions[j].record.status is Active || versions[j].record.status is Draining
                || versions[j].record.status is Complete),
{
    lemma_served_before(versions, versions[i].record.revision_id@, i + 1);
}

proof fn lemma_served_before(versions: Seq<VersionRecord>, revision: Seq<char>, j: int)
    requires
        0 <= j <= versions.len(),
    ensures
        match served_before(versions, revision, j) {
            Some(version) => exists|k: int|
                j <= k < versions.len() && (#[trigger] versions[k]).record.version == version
                    && versions[k].record.revision_id@ == revision
                    && versions[k].record.status.serving(),
            None => forall|k: int|
                j <= k < versions.len() && (#[trigger] versions[k]).record.revision_id@ == revision
                    ==> !versions[k].record.status.serving(),
        },
    decreases versions.len() - j,
{
    if j < versions.len() {
        lemma_served_before(versions, revision, j + 1);
        if versions[j].record.revision_id@ == revision && versions[j].record.status.serving() {
            assert(versions[j].record.version == served_before(versions, revision, j)->0);
        }
    }
}

/// A version is shown as it was released: its number, when, how it failed,
/// its endpoint at the node's host, and as active exactly when its project
/// has it current.
pub proof fn law_versions_are_shown_as_released(
    view: ApplicationDeploymentView,
    name: Seq<char>,
    project: ProjectView,
    versions: Seq<VersionRecord>,
    i: int,
    node: ApplicationHost,
)
    requires
        0 <= i < versions.len(),
        is_version_view(view, name, project, versions, i, node),
    ensures
        view.application@ == name,
        view.version == versions[i].record.version,
        view.deployment_id@ == versions[i].deployment_id@,
        view.active <==> (project.deployment matches Some(summary) && summary.deployment_id@
            == versions[i].deployment_id@),
        view.state is Stopped ==> project.desired_state is Stopped
            || project.actual_state is Stopped,
        view.state is Active ==> !(project.desired_state is Stopped) && !(
        project.actual_state is Stopped),
        view.created_at == versions[i].record.created_at,
        view.completed_at == versions[i].record.completed_at,
        view.receipt == versions[i].record.receipt,
        view.execution_receipts@ == versions[i].record.receipt_ids@,
        versions[i].record.failure is Some ==> view.failure == versions[i].record.failure,
        versions[i].record.failure is None ==> view.failure
            == versions[i].record.rollback_reason,
        view.endpoint is Some ==> exists|k: int|
            0 <= k < versions[i].record.workloads@.len() && (
            #[trigger] versions[i].record.workloads@[k]).endpoints@.len() > 0 && opt_text(
                view.endpoint,
            ) == Some(
                application_url_text(node, versions[i].record.workloads@[k].endpoints@[0].host),
            ),
{
    let workloads = versions[i].record.workloads@;
    let p = evidence_named(APPLICATION_WORKLOAD@);
    lemma_first(workloads, p);
    if view.endpoint is Some {
        let k = match first(workloads, p) {
            Some(k) => k,
            None => 0,
        };
        assert(workloads[k].endpoints@.len() > 0);
    }
}

/// An application is reached at the host its node is configured with; with
/// none, at the address it listens on; and where that is any address, at
/// the host of the node's public URL, or else at this machine.
pub proof fn law_applications_are_reached_at_their_node(node: ApplicationHost, port: u16)
    ensures
        ({
            let unspecified = match node.address {
                Address::V4 { unspecified, .. } => unspecified,
                Address::V6 { unspecified, .. } => unspecified,
            };
            let url = application_url_text(node, port);
            let tail = ":"@ + decimal_text(port as nat);
            &&& node.host matches Some(host) ==> url == "http://"@ + host@ + tail
            &&& node.host is None && !unspecified ==> (match node.address {
                Address::V4 { text, .. } => url == "http://"@ + text@ + tail,
                Address::V6 { text, .. } => url == "http://"@ + ("["@ + text@ + "]"@) + tail,
            })
            &&& node.host is None && unspecified && node.public_url is None ==> url == "http://"@
                + "127.0.0.1"@ + tail
            &&& node.host is None && unspecified ==> (node.public_url matches Some(public)
                ==> host_of_url(public@) matches Some(host) ==> url == "http://"@ + host + tail)
        }),
{
    let url = application_url_text(node, port);
    let tail = ":"@ + decimal_text(port as nat);
    assert(url =~= "http://"@ + application_host(node) + tail);
}

/// An application's endpoint is the active version's where it has one, and
/// otherwise one that some version has; there is none only where no version
/// has one.
pub proof fn law_endpoints_come_from_the_active_version(versions: Seq<ApplicationDeploymentView>)
    ensures
        forall|i: int|
            (0 <= i < versions.len() && (#[trigger] versions[i]).active && versions[i].endpoint
                is Some && forall|j: int|
                0 <= j < i ==> !(#[trigger] versions[j]).active) ==> stable_endpoint(versions)
                == versions[i].endpoint,
        stable_endpoint(versions) is None <==> forall|i: int|
            0 <= i < versions.len() ==> (#[trigger] versions[i]).endpoint is None,
        stable_endpoint(versions) is Some ==> exists|i: int|
            0 <= i < versions.len() && (#[trigger] versions[i]).endpoint == stable_endpoint(
                versions,
            ),
{
    lemma_first(versions, is_active());
    lemma_first(versions, has_endpoint());
    assert forall|i: int|
        (0 <= i < versions.len() && (#[trigger] versions[i]).active && versions[i].endpoint is Some
            && forall|j: int| 0 <= j < i ==> !(#[trigger] versions[j]).active) implies
        stable_endpoint(versions) == versions[i].endpoint by {
        assert(is_active()(versions[i]));
        let k = first(versions, is_active())->0;
        assert(is_active()(versions[k]));
        assert(versions[k].active);
    }
    match first(versions, has_endpoint()) {
        Some(k) => {
            assert(has_endpoint()(versions[k]));
            assert(versions[k].endpoint is Some);
        },
        None => {
            assert forall|i: int| 0 <= i < versions.len() implies (
            #[trigger] versions[i]).endpoint is None by {
                assert(!has_endpoint()(versions[i]));
            }
        },
    }
}

/// An artifact's requirement is left to configuration exactly when the
/// artifact has no default for it.
pub proof fn law_defaults_satisfy_requirements(manifest: ArtifactManifest, n: nat, name: Seq<char>)
    requires
        n <= manifest.required@.len(),
    ensures
        required_upto(manifest, n).contains(name) <==> !manifest.defaults@.contains_key(seq![name])
            && exists|i: int| 0 <= i < n && (#[trigger] manifest.required@[i])@ == name,
    decreases n,
{
    assert(key1(name) =~= seq![name]);
    if n > 0 {
        law_defaults_satisfy_requirements(manifest, (n - 1) as nat, name);
        let before = required_upto(manifest, (n - 1) as nat);
        let after = required_upto(manifest, n);
        let last = manifest.required@[n - 1]@;
        if before.contains(name) {
            let k = choose|k: int| 0 <= k < before.len() && before[k] == name;
            assert(after[k] == name);
        }
        if last == name && !manifest.defaults@.contains_key(key1(name)) {
            assert(after[after.len() - 1] == name);
        }
        if after.contains(name) {
            let k = choose|k: int| 0 <= k < after.len() && after[k] == name;
            if k < before.len() {
                assert(before[k] == name);
            } else {
                assert(manifest.required@[n - 1]@ == name);
            }
        }
        if exists|i: int| 0 <= i < n && (#[trigger] manifest.required@[i])@ == name {
            let i = choose|i: int| 0 <= i < n && (#[trigger] manifest.required@[i])@ == name;
            if i < n - 1 {
                assert(0 <= i < n - 1 && manifest.required@[i]@ == name);
            }
        }
    }
}

/// A version is found by its identifier or its number, and there is none
/// only where none has either.
pub proof fn law_versions_are_found_by_identifier_or_number(
    versions: Seq<VersionRecord>,
    target: Seq<char>,
)
    ensures
        match found(versions, record_named(target)) {
            Some(version) => versions.contains(version) && (version.deployment_id@ == target
                || named_version(target) == Some(version.record.version as nat)),
            None => forall|i: int|
                0 <= i < versions.len() ==> (#[trigger] versions[i]).deployment_id@ != target
                    && named_version(target) != Some(versions[i].record.version as nat),
        },
{
    let p = record_named(target);
    lemma_first(versions, p);
    match first(versions, p) {
        Some(i) => {
            assert(p(versions[i]));
        },
        None => {
            assert forall|i: int| 0 <= i < versions.len() implies (
            #[trigger] versions[i]).deployment_id@ != target && named_version(target) != Some(
                versions[i].record.version as nat,
            ) by {
                assert(!p(versions[i]));
            }
        },
    }
}

/// A version's view is found as its release is.
pub proof fn law_versions_are_found_alike(
    version: VersionRecord,
    view: ApplicationDeploymentView,
    target: Seq<char>,
)
    requires
        view.deployment_id@ == version.deployment_id@,
        view.version == version.record.version,
    ensures
        version_named(target)(view) == record_named(target)(version),
        version_named(version.deployment_id@)(view),
{
}

/// A version shows the runtime, placement and artifact that its service was
/// given, and the runtime version that was resolved before the one asked
/// for.
pub proof fn law_versions_show_their_evidence(
    view: ApplicationDeploymentView,
    name: Seq<char>,
    project: ProjectView,
    versions: Seq<VersionRecord>,
    i: int,
    node: ApplicationHost,
)
    requires
        0 <= i < versions.len(),
        is_version_view(view, name, project, versions, i, node),
    ensures
        versions[i].record.workloads@.len() == 0 ==> view.endpoint is None && view.runtime is None
            && view.runtime_version is None && view.placement is None && view.artifact is None,
        versions[i].record.workloads@.len() == 1 ==> {
            let workload = versions[i].record.workloads@[0];
            &&& view.runtime == Some(workload.runtime)
            &&& view.placement == workload.pool_placement
            &&& view.artifact is Some <==> workload.application_artifact is Some
            &&& workload.resolved_runtime_version is Some ==> view.runtime_version
                == workload.resolved_runtime_version
            &&& workload.resolved_runtime_version is None ==> view.runtime_version
                == workload.runtime_version
            &&& view.endpoint is Some <==> workload.endpoints@.len() > 0
        },
        view.rollback_of == released_again(versions, i),
{
    let workloads = versions[i].record.workloads@;
    let p = evidence_named(APPLICATION_WORKLOAD@);
    lemma_first(workloads, p);
    assert(opt_text(view.endpoint) is Some == view.endpoint is Some);
    if workloads.len() == 1 {
        assert(application_evidence(workloads) == Some(workloads[0]));
    }
}

/// An application is ready when its first page answers on its one port,
/// within a minute, asked four times a second.
pub proof fn law_applications_are_ready_when_a_page_answers(readiness: Readiness)
    requires
        is_application_readiness(readiness),
    ensures
        readiness.check is Http,
        opt_text(readiness.port) == Some("http"@),
        opt_text(readiness.path) == Some("/"@),
        readiness.task is None,
        readiness.timeout_ms == 60 * 1_000,
        4 * readiness.interval_ms == 1_000,
{
}

} // verus!
