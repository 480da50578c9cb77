//! Declarative manifests. They describe what Compute should operate, not
//! how a project builds.
//!
//! An environment manifest lists projects; a project manifest, in a
//! project's source, lists its workloads.

use vstd::prelude::*;
use vstd::utf8::encode_utf8;

use crate::digest::{content_identity_text, text_identity};
use crate::error::{EnvironmentError, Refusal};
use crate::execute::{config_text, layer, layered};
use crate::model::{
    Config, DesiredState, PortSpec, ProjectDefinition, Readiness, RestartPolicy, WorkloadDefinition,
    WorkloadKind,
};
use crate::text::{
    chars_of, first_chars, join, join_path, joined, opt_text, path_text, same, slice_of, sort_texts,
    text_ordered, texts,
};

verus! {

/// The file that describes a project, in its source directory.
pub const PROJECT_MANIFEST: &'static str = "compute.project.toml";

/// A project as an environment manifest lists it.
pub struct ProjectEntry {
    pub name: String,
    /// A directory containing a project manifest, or the manifest itself.
    pub source: String,
    pub revision: Option<String>,
    pub desired_state: Option<DesiredState>,
    pub env: Config,
}

/// What a project manifest says of the project itself.
pub struct ProjectSection {
    pub name: Option<String>,
    pub revision: Option<String>,
    pub env: Config,
}

/// A workload as a project manifest lists it.
#[derive(Debug)]
pub struct WorkloadEntry {
    pub name: String,
    pub kind: WorkloadKind,
    /// A bundle, already built.
    pub bundle: Option<String>,
    /// A workload to build a bundle from.
    pub workload: Option<String>,
    pub ports: Vec<PortSpec>,
    pub restart: RestartPolicy,
    pub desired_state: DesiredState,
    pub readiness: Option<Readiness>,
}

/// A path of a manifest: relative to the manifest's directory, unless it is
/// absolute.
pub fn relative(base: &str, path: &str) -> (r: String)
    ensures
        r@ == path_text(base@, path@),
{
    join_path(base, path)
}

/// Where a project's manifest is: in the source, when that is a directory,
/// or the source itself.
pub fn manifest_path(source: &str, is_directory: bool) -> (r: String)
    ensures
        r@ == (if is_directory {
            path_text(source@, PROJECT_MANIFEST@)
        } else {
            source@
        }),
{
    if is_directory {
        join_path(source, PROJECT_MANIFEST)
    } else {
        source.to_owned()
    }
}

/// Why a manifest cannot be read.
pub fn invalid_manifest(path: &str, error: &str) -> (r: EnvironmentError)
    ensures
        r.reports(Refusal::Invalid(path@ + ": "@ + error@)),
{
    let mut text = path.to_owned();
    text.append(": ");
    text.append(error);
    EnvironmentError::Invalid(text)
}

// ---- Policies ---------------------------------------------------------------

/// Where an environment's policy is.
#[derive(Debug, PartialEq, Eq)]
pub enum PolicySource {
    Absent,
    Inline,
    /// In a file.
    File(String),
}

/// Where an environment's policy is: in the manifest or in a file, not both.
pub fn policy_source(inline: bool, file: &Option<String>, base: &str) -> (r: Result<
    PolicySource,
    EnvironmentError,
>)
    ensures
        match *file {
            Some(path) => if inline {
                r matches Err(error) && error.reports(
                    Refusal::Invalid(
                        "use either [environment.policy] or policy_file, not both"@,
                    ),
                )
            } else {
                r matches Ok(PolicySource::File(at)) && at@ == path_text(base@, path@)
            },
            None => if inline {
                r == Ok::<PolicySource, EnvironmentError>(PolicySource::Inline)
            } else {
                r == Ok::<PolicySource, EnvironmentError>(PolicySource::Absent)
            },
        },
{
    match file {
        Some(path) => if inline {
            Err(
                EnvironmentError::Invalid(
                    "use either [environment.policy] or policy_file, not both".to_owned(),
                ),
            )
        } else {
            Ok(PolicySource::File(relative(base, path)))
        },
        None => if inline {
            Ok(PolicySource::Inline)
        } else {
            Ok(PolicySource::Absent)
        },
    }
}

// ---- Workloads --------------------------------------------------------------

/// Where a workload's bundle comes from.
#[derive(Debug, PartialEq, Eq)]
pub enum BundleSource {
    /// It is read.
    Read(String),
    /// It is built.
    Build(String),
}

/// Where a workload's bundle comes from: exactly one of a bundle and a
/// workload to build it from.
pub fn bundle_source(entry: &WorkloadEntry, base: &str) -> (r: Result<
    BundleSource,
    EnvironmentError,
>)
    ensures
        match (entry.bundle, entry.workload) {
            (Some(bundle), None) => r matches Ok(BundleSource::Read(path)) && path@ == path_text(
                base@,
                bundle@,
            ),
            (None, Some(workload)) => r matches Ok(BundleSource::Build(path)) && path@ == path_text(
                base@,
                workload@,
            ),
            _ => r matches Err(error) && error.reports(
                Refusal::Invalid(
                    "workload "@ + entry.name@ + " needs exactly one of bundle or workload"@,
                ),
            ),
        },
{
    match (&entry.bundle, &entry.workload) {
        (Some(bundle), None) => Ok(BundleSource::Read(relative(base, bundle))),
        (None, Some(workload)) => Ok(BundleSource::Build(relative(base, workload))),
        _ => {
            let mut text = "workload ".to_owned();
            text.append(&entry.name);
            text.append(" needs exactly one of bundle or workload");
            Err(EnvironmentError::Invalid(text))
        },
    }
}

/// A workload's definition, with its bundle.
pub fn workload_definition(entry: WorkloadEntry, bundle: Vec<u8>) -> (r: WorkloadDefinition)
    ensures
        r.name == entry.name,
        r.kind == entry.kind,
        r.bundle == bundle,
        r.ports == entry.ports,
        r.restart == entry.restart,
        r.desired_state == entry.desired_state,
        r.readiness == entry.readiness,
{
    WorkloadDefinition {
        name: entry.name,
        kind: entry.kind,
        bundle,
        ports: entry.ports,
        restart: entry.restart,
        desired_state: entry.desired_state,
        readiness: entry.readiness,
    }
}

// ---- Projects ---------------------------------------------------------------

/// The revision a project has when its manifest names none: what its
/// bundles are, whatever order they are listed in.
pub open spec fn content_revision_text(identities: Seq<Seq<char>>) -> Seq<char> {
    let all = joined(identities.sort_by(text_ordered()), "\n"@);
    "content-"@ + first_chars(
        content_identity_text(encode_utf8(all)).skip("sha256:"@.len() as int),
        12,
    )
}

pub fn content_revision(identities: &Vec<String>) -> (r: String)
    ensures
        r@ == content_revision_text(texts(identities@)),
        r@.len() == 20,
{
    proof {
        reveal_strlit("sha256:");
        reveal_strlit("content-");
    }
    let all = join(&sort_texts(identities), "\n");
    let digest = chars_of(&text_identity(&all));
    let prefix = chars_of("sha256:");
    proof {
        assert(digest@ == content_identity_text(encode_utf8(all@)));
    }
    let mut to: usize = digest.len();
    if to - prefix.len() > 12 {
        to = prefix.len() + 12;
    }
    let head = slice_of(&digest, prefix.len(), to);
    proof {
        assert(head@ =~= first_chars(digest@.skip("sha256:"@.len() as int), 12));
    }
    "content-".to_owned().concat(&head)
}

/// A project, as its manifest and its source describe it. `directory` is
/// the name of the directory it is in.
pub fn project_definition(
    section: ProjectSection,
    directory: Option<String>,
    base: &str,
    identities: &Vec<String>,
    workloads: Vec<WorkloadDefinition>,
) -> (r: Result<ProjectDefinition, EnvironmentError>)
    ensures
        match (section.name, directory) {
            (None, None) => r matches Err(error) && error.reports(
                Refusal::Invalid("the project needs a name"@),
            ),
            _ => {
                &&& r matches Ok(project)
                &&& project.name == (match section.name {
                    Some(name) => name,
                    None => directory->0,
                })
                &&& match section.revision {
                    Some(revision) => project.revision == revision,
                    None => project.revision@ == content_revision_text(texts(identities@)),
                }
                &&& opt_text(project.source) == Some(base@)
                &&& project.desired_state == DesiredState::Running
                &&& project.env == section.env
                &&& project.workloads == workloads
            },
        },
{
    let name = match section.name {
        Some(name) => name,
        None => match directory {
            Some(name) => name,
            None => {
                return Err(EnvironmentError::Invalid("the project needs a name".to_owned()));
            },
        },
    };
    let revision = match section.revision {
        Some(revision) => revision,
        None => content_revision(identities),
    };
    Ok(
        ProjectDefinition {
            name,
            revision,
            source: Some(base.to_owned()),
            desired_state: DesiredState::Running,
            env: section.env,
            workloads,
        },
    )
}

/// A project as an environment manifest lists it: what the environment says
/// of it goes over what it says of itself.
pub fn listed_project(project: ProjectDefinition, entry: ProjectEntry) -> (r: Result<
    ProjectDefinition,
    EnvironmentError,
>)
    ensures
        if project.name@ != entry.name@ {
            r matches Err(error) && error.reports(
                Refusal::Invalid(
                    "project "@ + entry.name@ + " in the manifest names a source whose project is "@
                        + project.name@,
                ),
            )
        } else {
            &&& r matches Ok(listed)
            &&& listed.name == project.name
            &&& listed.revision == (match entry.revision {
                Some(revision) => revision,
                None => project.revision,
            })
            &&& listed.source == project.source
            &&& listed.desired_state == (match entry.desired_state {
                Some(state) => state,
                None => project.desired_state,
            })
            &&& config_text(listed.env@) == layered(
                config_text(project.env@),
                entry.env.rows(),
                entry.env.rows().len(),
            )
            &&& listed.workloads == project.workloads
        },
{
    if !same(&project.name, &entry.name) {
        let mut text = "project ".to_owned();
        text.append(&entry.name);
        text.append(" in the manifest names a source whose project is ");
        text.append(&project.name);
        return Err(EnvironmentError::Invalid(text));
    }
    let mut project = project;
    if let Some(revision) = entry.revision {
        project.revision = revision;
    }
    if let Some(state) = entry.desired_state {
        project.desired_state = state;
    }
    let mut env = project.env;
    layer(&mut env, &entry.env);
    project.env = env;
    Ok(project)
}

// ---- Laws -------------------------------------------------------------------

/// The order in which a project lists its workloads does not change its
/// content revision: the same bundles have the same revision.
pub proof fn law_content_revision_ignores_order(a: Seq<Seq<char>>, b: Seq<Seq<char>>)
    requires
        a.to_multiset() == b.to_multiset(),
    ensures
        content_revision_text(a) == content_revision_text(b),
{
    crate::text::lemma_text_ordered();
    a.lemma_sort_by_ensures(text_ordered());
    b.lemma_sort_by_ensures(text_ordered());
    vstd::seq_lib::lemma_sorted_unique(
        a.sort_by(text_ordered()),
        b.sort_by(text_ordered()),
        text_ordered(),
    );
}

} // verus!
