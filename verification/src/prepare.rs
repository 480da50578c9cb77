//! Preparing one invocation of a workload: which revision, configuration
//! and ports it runs with.

use vstd::prelude::*;

use crate::desired::{revision_workload_named, Desired, RevisionWorkloadNamed, Unit};
use crate::digest::content_identity;
use crate::digest::content_identity_text;
use crate::error::{EnvironmentError, Refusal};
use crate::events::Key;
use crate::model::{copy_ports, Config, PortBinding};
use crate::routing::{run_config, run_config_rows};
use crate::search::{first, found, lemma_first};
use crate::state::{
    EnvironmentProjectRecord, EnvironmentRecord, ProjectRevisionRecord, RevisionWorkload, Stored,
};
use crate::table::{find_item, key1, key2};
use crate::text::{join_path, path_text, same, trim_prefix, without_prefix};

verus! {

/// What an invocation needs from desired state.
pub struct Target<'a> {
    pub environment: &'a Stored<EnvironmentRecord>,
    pub project_id: &'a str,
    pub revision: &'a ProjectRevisionRecord,
    pub workload: &'a RevisionWorkload,
    /// The project's configuration it runs with.
    pub config: Config,
    /// For a service, its instance's ports.
    pub ports: Vec<PortBinding>,
}

/// Why a unit cannot be prepared: what it needs is not there.
pub open spec fn unit_refusal(desired: Desired, unit: Unit) -> Option<Refusal> {
    let deployment = key1(unit.deployment_id@);
    if !desired.environments@.contains_key(key1(unit.key.0@)) {
        Some(Refusal::NotFound("environment "@ + unit.key.0@))
    } else if !desired.deployments@.contains_key(deployment) {
        Some(Refusal::NotFound("deployment "@ + unit.deployment_id@))
    } else {
        match desired.revision_for(unit.deployment_id@) {
            None => Some(Refusal::NotFound("the revision of "@ + unit.deployment_id@)),
            Some(revision) => if found(
                revision.workloads@,
                revision_workload_named(unit.key.2@),
            ) is None {
                Some(
                    Refusal::NotFound(
                        "workload "@ + unit.key.2@ + " in revision "@ + revision.revision@,
                    ),
                )
            } else {
                None
            },
        }
    }
}

/// The membership of a unit's project in its environment.
pub open spec fn unit_membership(desired: Desired, unit: Unit) -> Option<
    Stored<EnvironmentProjectRecord>,
> {
    let key = key2(unit.key.0@, unit.key.1@);
    if desired.memberships@.contains_key(key) {
        Some(desired.memberships@[key])
    } else {
        None
    }
}

/// Whether a target is what a unit needs.
pub open spec fn is_target(target: Target, desired: Desired, unit: Unit) -> bool {
    let deployment = desired.deployments@[key1(unit.deployment_id@)].value;
    &&& *target.environment == desired.environments@[key1(unit.key.0@)]
    &&& target.project_id@ == deployment.project_id@
    &&& desired.revision_for(unit.deployment_id@) == Some(*target.revision)
    &&& found(target.revision.workloads@, revision_workload_named(unit.key.2@)) == Some(
        *target.workload,
    )
    &&& target.config.rows() == run_config_rows(deployment, unit_membership(desired, unit))
    &&& target.ports@ == (match desired.instance_at(
        unit.key.0@,
        unit.key.1@,
        unit.key.2@,
        unit.deployment_id@,
    ) {
        Some(instance) => instance.value.ports@,
        None => Seq::empty(),
    })
}

fn missing(what: &str, name: &str) -> (r: EnvironmentError)
    ensures
        r.reports(Refusal::NotFound(what@ + name@)),
{
    let mut text = what.to_owned();
    text.append(name);
    EnvironmentError::NotFound(text)
}

/// Prepare a unit: a workload at one deployment's revision, with that
/// deployment's configuration and, for a service, its instance's ports.
pub fn prepare_unit<'a>(desired: &'a Desired, unit: &Unit) -> (r: Result<
    Target<'a>,
    EnvironmentError,
>)
    ensures
        match unit_refusal(*desired, *unit) {
            Some(refusal) => r matches Err(error) && error.reports(refusal),
            None => r matches Ok(target) && is_target(target, *desired, *unit),
        },
{
    let environment = match desired.environments.at(&unit.key.0) {
        Some(environment) => environment,
        None => {
            return Err(missing("environment ", &unit.key.0));
        },
    };
    let deployment = match desired.deployments.at(&unit.deployment_id) {
        Some(deployment) => deployment,
        None => {
            return Err(missing("deployment ", &unit.deployment_id));
        },
    };
    let revision = match desired.revision_of(&unit.deployment_id) {
        Some(revision) => revision,
        None => {
            return Err(missing("the revision of ", &unit.deployment_id));
        },
    };
    let ports = match desired.instance(&unit.key, &unit.deployment_id) {
        Some(instance) => copy_ports(&instance.value.ports),
        None => Vec::new(),
    };
    let config = run_config(
        &deployment.value,
        desired.membership_of(&unit.key.0, &unit.key.1),
    );
    let workload = match find_item(
        &revision.workloads,
        &RevisionWorkloadNamed { name: &unit.key.2 },
    ) {
        Some(workload) => workload,
        None => {
            let mut text = "workload ".to_owned();
            text.append(&unit.key.2);
            text.append(" in revision ");
            text.append(&revision.revision);
            return Err(EnvironmentError::NotFound(text));
        },
    };
    Ok(
        Target {
            environment,
            project_id: deployment.value.project_id.as_str(),
            revision,
            workload,
            config,
            ports,
        },
    )
}

/// What a receipt says it was for.
#[derive(Debug, PartialEq, Eq)]
pub struct ReceiptScope {
    pub environment_id: String,
    pub environment: String,
    pub project_id: String,
    pub project: String,
    pub revision: String,
    pub workload_id: String,
    pub workload: String,
    pub workload_kind: String,
}

/// What the receipt of an invocation is for.
pub fn receipt_scope(target: &Target, workload_id: &str) -> (r: ReceiptScope)
    ensures
        r.environment_id@ == target.environment.id@,
        r.environment@ == target.environment.value.name@,
        r.project_id@ == target.project_id@,
        r.project@ == target.revision.project@,
        r.revision@ == target.revision.revision@,
        r.workload_id@ == workload_id@,
        r.workload@ == target.workload.name@,
        r.workload_kind@ == target.workload.kind.name(),
{
    ReceiptScope {
        environment_id: target.environment.id.clone(),
        environment: target.environment.value.name.clone(),
        project_id: target.project_id.to_owned(),
        project: target.revision.project.clone(),
        revision: target.revision.revision.clone(),
        workload_id: workload_id.to_owned(),
        workload: target.workload.name.clone(),
        workload_kind: target.workload.kind.as_str().to_owned(),
    }
}

/// Why an environment's policy cannot be applied.
pub fn invalid_policy(environment: &str, error: &str) -> (r: EnvironmentError)
    ensures
        r.reports(
            Refusal::Invalid(
                "environment "@ + environment@ + " has an invalid policy: "@ + error@,
            ),
        ),
{
    let mut text = "environment ".to_owned();
    text.append(environment);
    text.append(" has an invalid policy: ");
    text.append(error);
    EnvironmentError::Invalid(text)
}

/// Where a policy comes from.
#[derive(Debug, Clone, Copy, PartialEq, Eq, Structural)]
pub enum PolicySourceKind {
    /// The node's own.
    Local,
    /// The environment's.
    Environment,
}

/// The policies that apply in an environment: the node's, then its own.
pub open spec fn policies_of<P>(local: Option<P>, own: Option<P>) -> Seq<(PolicySourceKind, P)> {
    let node = match local {
        Some(policy) => seq![(PolicySourceKind::Local, policy)],
        None => Seq::empty(),
    };
    match own {
        Some(policy) => node.push((PolicySourceKind::Environment, policy)),
        None => node,
    }
}

/// Gather the policies that apply in an environment. `own` is the
/// environment's policy as it was read, or why it could not be.
pub fn policy_sources<P>(
    environment: &str,
    local: Option<P>,
    own: Option<Result<P, String>>,
) -> (r: Result<Vec<(PolicySourceKind, P)>, EnvironmentError>)
    ensures
        match own {
            None => r matches Ok(sources) && sources@ == policies_of(local, None),
            Some(Ok(policy)) => r matches Ok(sources) && sources@ == policies_of(
                local,
                Some(policy),
            ),
            Some(Err(reason)) => r matches Err(error) && error.reports(
                Refusal::Invalid(
                    "environment "@ + environment@ + " has an invalid policy: "@ + reason@,
                ),
            ),
        },
{
    let mut sources: Vec<(PolicySourceKind, P)> = Vec::new();
    if let Some(policy) = local {
        sources.push((PolicySourceKind::Local, policy));
    }
    proof {
        assert(sources@ =~= policies_of(local, None));
    }
    match own {
        None => {},
        Some(Ok(policy)) => {
            sources.push((PolicySourceKind::Environment, policy));
        },
        Some(Err(reason)) => {
            return Err(invalid_policy(environment, &reason));
        },
    }
    Ok(sources)
}

// ---- Artifacts --------------------------------------------------------------

/// Where a node caches an artifact.
pub fn cache_path(state_dir: &str, digest: &str) -> (r: String)
    ensures
        r@ == path_text(
            path_text(state_dir@, "cache"@),
            without_prefix(digest@, "sha256:"@),
        ),
{
    join_path(&join_path(state_dir, "cache"), &trim_prefix(digest, "sha256:"))
}

/// Whether cached bytes are the artifact with a digest. Only then are they
/// used; the cache is never trusted.
pub fn is_artifact(bytes: &Vec<u8>, digest: &str) -> (r: bool)
    ensures
        r == (content_identity_text(bytes@) == digest@),
{
    same(&content_identity(bytes), digest)
}

/// What is reported of an artifact that is nowhere.
pub fn missing_artifact(digest: &str, location: &str) -> (r: EnvironmentError)
    ensures
        r.reports(Refusal::NotFound("artifact "@ + digest@ + " is not in "@ + location@)),
{
    let mut text = "artifact ".to_owned();
    text.append(digest);
    text.append(" is not in ");
    text.append(location);
    EnvironmentError::NotFound(text)
}

/// Where a workload's logs are kept.
pub fn logs_dir(state_dir: &str, key: &Key) -> (r: String)
    ensures
        r@ == path_text(
            path_text(path_text(path_text(state_dir@, "logs"@), key.0@), key.1@),
            key.2@,
        ),
{
    join_path(&join_path(&join_path(&join_path(state_dir, "logs"), &key.0), &key.1), &key.2)
}

// ---- Laws -------------------------------------------------------------------

/// A unit is prepared exactly when its environment and its deployment are
/// there, the deployment's revision is there, and the revision has its
/// workload.
pub proof fn law_units_need_what_they_run(desired: Desired, unit: Unit)
    ensures
        unit_refusal(desired, unit) is None <==> desired.environments@.contains_key(
            key1(unit.key.0@),
        ) && desired.deployments@.contains_key(key1(unit.deployment_id@)) && (
        desired.revision_for(unit.deployment_id@) matches Some(revision) && exists|i: int|
            0 <= i < revision.workloads@.len() && (#[trigger] revision.workloads@[i]).name@
                == unit.key.2@),
        unit_refusal(desired, unit) matches Some(refusal) ==> refusal is NotFound,
{
    match desired.revision_for(unit.deployment_id@) {
        Some(revision) => {
            let p = revision_workload_named(unit.key.2@);
            lemma_first(revision.workloads@, p);
            match first(revision.workloads@, p) {
                Some(i) => {
                    assert(p(revision.workloads@[i]));
                    assert(revision.workloads@[i].name@ == unit.key.2@);
                },
                None => {
                    assert forall|i: int| 0 <= i < revision.workloads@.len() implies (
                    #[trigger] revision.workloads@[i]).name@ != unit.key.2@ by {
                        assert(!p(revision.workloads@[i]));
                    }
                },
            }
        },
        None => {},
    }
}

/// A unit runs in its own environment, for its deployment's project, and as
/// the workload of its name.
pub proof fn law_units_run_as_themselves(target: Target, desired: Desired, unit: Unit)
    requires
        is_target(target, desired, unit),
    ensures
        target.workload.name@ == unit.key.2@,
        *target.environment == desired.environments@[seq![unit.key.0@]],
        target.project_id@
            == desired.deployments@[seq![unit.deployment_id@]].value.project_id@,
        target.revision.workloads@.contains(*target.workload),
{
    assert(key1(unit.key.0@) =~= seq![unit.key.0@]);
    assert(key1(unit.deployment_id@) =~= seq![unit.deployment_id@]);
    let p = revision_workload_named(unit.key.2@);
    lemma_first(target.revision.workloads@, p);
    let i = first(target.revision.workloads@, p)->0;
    assert(p(target.revision.workloads@[i]));
}

/// Every policy that there is applies: the node's before the environment's.
pub proof fn law_every_policy_applies<P>(local: Option<P>, own: Option<P>)
    ensures
        local matches Some(policy) ==> policies_of(local, own).len() > 0 && policies_of(
            local,
            own,
        )[0] == (PolicySourceKind::Local, policy),
        own matches Some(policy) ==> policies_of(local, own).len() > 0 && policies_of(
            local,
            own,
        ).last() == (PolicySourceKind::Environment, policy),
        policies_of(local, own).len() == (if local is Some {
            1int
        } else {
            0
        }) + (if own is Some {
            1int
        } else {
            0
        }),
{
}

/// A unit runs at its deployment's own revision, and a service on its own
/// instance's ports.
pub proof fn law_units_run_at_their_revision(target: Target, desired: Desired, unit: Unit)
    requires
        is_target(target, desired, unit),
    ensures
        desired.revision_for(unit.deployment_id@) == Some(*target.revision),
        desired.instance_at(
            unit.key.0@,
            unit.key.1@,
            unit.key.2@,
            unit.deployment_id@,
        ) is None ==> target.ports@.len() == 0,
        desired.instance_at(
            unit.key.0@,
            unit.key.1@,
            unit.key.2@,
            unit.deployment_id@,
        ) matches Some(instance) ==> target.ports@ == instance.value.ports@,
        target.config.rows() == run_config_rows(
            desired.deployments@[key1(unit.deployment_id@)].value,
            unit_membership(desired, unit),
        ),
        unit_membership(desired, unit) matches Some(membership) ==> desired.memberships@[seq![
            unit.key.0@,
            unit.key.1@,
        ]] == membership,
{
    assert(key2(unit.key.0@, unit.key.1@) =~= seq![unit.key.0@, unit.key.1@]);
}

} // verus!
