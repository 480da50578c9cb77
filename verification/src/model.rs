//! The `compute.environment@1` model.
//!
//! Project = software. Environment = a deployed instance of software.
//! Workload = a service or task within a project in an environment.
//! Execution = one invocation of a workload.

use vstd::prelude::*;
use vstd::utf8::encode_utf8;

use crate::error::EnvironmentError;
use crate::search::{first, first_from};
use crate::table::Table;
use crate::text::{copy_option, debug_text, has_char, quoted, same, starts_with};

verus! {

/// The version of the environment model.
pub const ENVIRONMENT_VERSION: &'static str = "compute.environment@1";

/// What the operator wants.
#[derive(Debug, Clone, Copy, PartialEq, Eq, Structural)]
pub enum DesiredState {
    Running,
    Stopped,
}

impl Default for DesiredState {
    fn default() -> (r: Self)
        ensures
            r == DesiredState::Running,
    {
        DesiredState::Running
    }
}

/// What Compute observes.
#[derive(Debug, Clone, Copy, PartialEq, Eq, Structural)]
pub enum ActualState {
    /// Not started yet.
    Pending,
    Starting,
    Running,
    Stopping,
    Stopped,
    /// A task finished successfully.
    Completed,
    /// The workload exited unsuccessfully; siblings are unaffected.
    Failed,
    /// Admission denied execution; nothing ran.
    Denied,
    /// Some children run and some do not.
    Degraded,
}

impl ActualState {
    pub open spec fn name(self) -> Seq<char> {
        match self {
            ActualState::Pending => "pending"@,
            ActualState::Starting => "starting"@,
            ActualState::Running => "running"@,
            ActualState::Stopping => "stopping"@,
            ActualState::Stopped => "stopped"@,
            ActualState::Completed => "completed"@,
            ActualState::Failed => "failed"@,
            ActualState::Denied => "denied"@,
            ActualState::Degraded => "degraded"@,
        }
    }

    pub fn as_str(self) -> (r: &'static str)
        ensures
            r@ == self.name(),
    {
        match self {
            ActualState::Pending => "pending",
            ActualState::Starting => "starting",
            ActualState::Running => "running",
            ActualState::Stopping => "stopping",
            ActualState::Stopped => "stopped",
            ActualState::Completed => "completed",
            ActualState::Failed => "failed",
            ActualState::Denied => "denied",
            ActualState::Degraded => "degraded",
        }
    }
}

#[derive(Debug, Clone, Copy, PartialEq, Eq, Structural)]
pub enum WorkloadKind {
    /// Long-lived: an API, a worker, a web server. Runs until stopped.
    Service,
    /// Runs to completion on request: build, test, migration, lint.
    Task,
}

impl WorkloadKind {
    pub open spec fn name(self) -> Seq<char> {
        match self {
            WorkloadKind::Service => "service"@,
            WorkloadKind::Task => "task"@,
        }
    }

    pub fn as_str(self) -> (r: &'static str)
        ensures
            r@ == self.name(),
    {
        match self {
            WorkloadKind::Service => "service",
            WorkloadKind::Task => "task",
        }
    }
}

#[derive(Debug, Clone, Copy, PartialEq, Eq, Structural)]
pub enum RestartPolicy {
    /// A service that exits stays down until explicitly started.
    Never,
    /// A service that exits unsuccessfully is started again after a delay.
    OnFailure,
}

impl Default for RestartPolicy {
    fn default() -> (r: Self)
        ensures
            r == RestartPolicy::Never,
    {
        RestartPolicy::Never
    }
}

/// How a service proves that it is ready.
#[derive(Debug, Clone, Copy, PartialEq, Eq, Structural)]
pub enum ReadinessCheck {
    /// Its process stays up.
    Process,
    /// A port accepts connections.
    Port,
    /// A port answers an HTTP request.
    Http,
    /// A task of the same revision completes.
    Task,
}

/// A readiness check and its limits.
#[derive(Debug, PartialEq, Eq)]
pub struct Readiness {
    pub check: ReadinessCheck,
    pub port: Option<String>,
    pub path: Option<String>,
    pub task: Option<String>,
    pub timeout_ms: u64,
    pub interval_ms: u64,
}

impl Clone for Readiness {
    fn clone(&self) -> (r: Self)
        ensures
            r == *self,
    {
        Readiness {
            check: self.check,
            port: copy_option(&self.port),
            path: copy_option(&self.path),
            task: copy_option(&self.task),
            timeout_ms: self.timeout_ms,
            interval_ms: self.interval_ms,
        }
    }
}

/// A logical port. The environment layer chooses the host binding and
/// passes it to the workload as `COMPUTE_PORT_<NAME>` (and `PORT` when the
/// workload declares exactly one port).
#[derive(Debug, Clone, PartialEq, Eq)]
pub struct PortSpec {
    pub name: String,
    pub port: u16,
}

/// A logical port bound to a host port.
#[derive(Debug, PartialEq, Eq)]
pub struct PortBinding {
    pub name: String,
    pub logical: u16,
    pub host: u16,
}

impl Clone for PortBinding {
    fn clone(&self) -> (r: Self)
        ensures
            r == *self,
    {
        PortBinding { name: self.name.clone(), logical: self.logical, host: self.host }
    }
}

/// A copy of a list of bindings.
pub fn copy_ports(ports: &Vec<PortBinding>) -> (r: Vec<PortBinding>)
    ensures
        r@ == ports@,
{
    let mut r: Vec<PortBinding> = Vec::new();
    let mut i: usize = 0;
    while i < ports.len()
        invariant
            i <= ports@.len(),
            r@ == ports@.take(i as int),
        decreases ports@.len() - i,
    {
        r.push(ports[i].clone());
        proof {
            assert(ports@.take(i + 1) =~= ports@.take(i as int).push(ports@[i as int]));
        }
        i += 1;
    }
    proof {
        assert(ports@.take(i as int) =~= ports@);
    }
    r
}

/// A copy of a list of declared ports.
pub fn copy_port_specs(ports: &Vec<PortSpec>) -> (r: Vec<PortSpec>)
    ensures
        r@ == ports@,
{
    let mut r: Vec<PortSpec> = Vec::new();
    let mut i: usize = 0;
    while i < ports.len()
        invariant
            i <= ports@.len(),
            r@ == ports@.take(i as int),
        decreases ports@.len() - i,
    {
        r.push(PortSpec { name: ports[i].name.clone(), port: ports[i].port });
        proof {
            assert(ports@.take(i + 1) =~= ports@.take(i as int).push(ports@[i as int]));
        }
        i += 1;
    }
    proof {
        assert(ports@.take(i as int) =~= ports@);
    }
    r
}

/// A workload as its project declares it.
#[derive(Debug, PartialEq, Eq)]
pub struct WorkloadDefinition {
    pub name: String,
    pub kind: WorkloadKind,
    /// The canonical `.compute` bundle.
    pub bundle: Vec<u8>,
    pub ports: Vec<PortSpec>,
    pub restart: RestartPolicy,
    /// For services: whether this service should run while its project
    /// runs. Tasks run only when invoked.
    pub desired_state: DesiredState,
    pub readiness: Option<Readiness>,
}

/// Configuration: values by variable name.
pub type Config = Table<String, String>;

/// A project as it is added to an environment.
pub struct ProjectDefinition {
    pub name: String,
    /// Operator-supplied revision label, such as a commit.
    pub revision: String,
    /// Where the project came from; informational.
    pub source: Option<String>,
    pub desired_state: DesiredState,
    /// Project configuration for this environment.
    pub env: Config,
    pub workloads: Vec<WorkloadDefinition>,
}

/// An environment as it is created.
pub struct EnvironmentDefinition {
    pub name: String,
    pub desired_state: DesiredState,
    /// Environment configuration, visible to every project workload.
    pub env: Config,
    /// Execution policy for every workload in this environment, as a
    /// `compute.policy@1` document. It can only restrict.
    pub policy: Option<String>,
    /// Pin workloads to one provider of the daemon's pool.
    pub provider: Option<String>,
}

/// Stored workload: definition without bundle bytes, plus identities.
#[derive(Debug, PartialEq, Eq)]
pub struct WorkloadRecord {
    pub workload_id: String,
    pub name: String,
    pub kind: WorkloadKind,
    pub bundle_id: String,
    pub workload_identity: String,
    pub ports: Vec<PortSpec>,
    pub restart: RestartPolicy,
    pub desired_state: DesiredState,
}

/// Stored project of an environment: what is deployed.
#[derive(Debug)]
pub struct ProjectRecord {
    pub project_id: String,
    pub name: String,
    pub revision: String,
    /// Digest of every workload bundle: the deployed content.
    pub revision_digest: String,
    pub source: Option<String>,
    pub desired_state: DesiredState,
    pub env: Config,
    pub workloads: Vec<WorkloadRecord>,
    pub deployed_at: i64,
}

/// Stored environment, with its projects.
#[derive(Debug)]
pub struct EnvironmentRecord {
    pub version: String,
    pub environment_id: String,
    pub name: String,
    pub desired_state: DesiredState,
    pub env: Config,
    pub policy: Option<String>,
    pub provider: Option<String>,
    pub created_at: i64,
    pub projects: Table<String, ProjectRecord>,
}

// ---- Names ------------------------------------------------------------------

pub open spec fn lower_or_digit(byte: u8) -> bool {
    (97 <= byte && byte <= 122) || (48 <= byte && byte <= 57)
}

/// Names are ordinary identifiers: one to 63 bytes of lowercase letters,
/// digits, and hyphens, starting with a letter or digit.
pub open spec fn valid_name(name: Seq<char>) -> bool {
    let bytes = encode_utf8(name);
    &&& 1 <= bytes.len() <= 63
    &&& lower_or_digit(bytes[0])
    &&& forall|i: int|
        0 <= i < bytes.len() ==> lower_or_digit(#[trigger] bytes[i]) || bytes[i] == 45
}

pub open spec fn invalid_name_text(kind: Seq<char>, name: Seq<char>) -> Seq<char> {
    "invalid "@ + kind + " name "@ + debug_text(name)
        + ": use 1-63 lowercase letters, digits, or '-', starting with a letter or digit"@
}

/// Whether a name is valid, as a test on its bytes.
fn name_is_valid(name: &str) -> (r: bool)
    ensures
        r == valid_name(name@),
{
    let bytes = name.as_bytes();
    if bytes.len() == 0 || bytes.len() > 63 {
        return false;
    }
    if !((97 <= bytes[0] && bytes[0] <= 122) || (48 <= bytes[0] && bytes[0] <= 57)) {
        return false;
    }
    let mut i: usize = 0;
    while i < bytes.len()
        invariant
            i <= bytes@.len(),
            forall|j: int|
                0 <= j < i ==> lower_or_digit(#[trigger] bytes@[j]) || bytes@[j] == 45,
        decreases bytes@.len() - i,
    {
        let byte: u8 = bytes[i];
        if !((97 <= byte && byte <= 122) || (48 <= byte && byte <= 57) || byte == 45) {
            proof {
                assert(!lower_or_digit(bytes@[i as int]));
            }
            return false;
        }
        i += 1;
    }
    true
}

/// Names are ordinary identifiers: `preprod`, `prod`, `review-123`,
/// `customer-acme`. Nothing is reserved.
pub fn validate_name(kind: &str, name: &str) -> (r: Result<(), EnvironmentError>)
    ensures
        match r {
            Ok(_) => valid_name(name@),
            Err(error) => !valid_name(name@) && error is Invalid && error.text()
                == invalid_name_text(kind@, name@),
        },
{
    if name_is_valid(name) {
        Ok(())
    } else {
        let mut text = "invalid ".to_owned();
        text.append(kind);
        text.append(" name ");
        text.append(&quoted(name));
        text.append(
            ": use 1-63 lowercase letters, digits, or '-', starting with a letter or digit",
        );
        Err(EnvironmentError::Invalid(text))
    }
}

// ---- Configuration ----------------------------------------------------------

/// Whether a configuration entry is one Compute cannot set or owns itself.
pub open spec fn refused_entry(name: Seq<char>, value: Seq<char>) -> bool {
    ||| name.len() == 0
    ||| name.contains('=')
    ||| name.contains('\0')
    ||| value.contains('\0')
    ||| "COMPUTE_"@.is_prefix_of(name)
    ||| name == "PORT"@
}

pub open spec fn refused_row() -> spec_fn((String, String)) -> bool {
    |row: (String, String)| refused_entry(row.0@, row.1@)
}

pub open spec fn refused_entry_text(scope: Seq<char>, name: Seq<char>) -> Seq<char> {
    scope + " configuration key "@ + debug_text(name) + " is invalid or reserved by Compute"@
}

/// Configuration keys: environment variable names that Compute does not
/// own. The first one refused, in key order, is reported.
pub fn validate_env(scope: &str, env: &Config) -> (r: Result<(), EnvironmentError>)
    ensures
        match r {
            Ok(_) => first(env.rows(), refused_row()) is None,
            Err(error) => first(env.rows(), refused_row()) matches Some(i) && error is Invalid
                && error.text() == refused_entry_text(scope@, env.rows()[i].0@),
        },
{
    let mut i: usize = 0;
    while i < env.len()
        invariant
            i <= env.rows().len(),
            first(env.rows(), refused_row()) == first_from(env.rows(), refused_row(), i as int),
        decreases env.rows().len() - i,
    {
        let name = env.key_at(i);
        let value = env.value_at(i);
        if name.as_str().is_empty() || has_char(name, '=') || has_char(name, '\0') || has_char(value, '\0')
            || starts_with(name, "COMPUTE_") || same(name, "PORT") {
            let mut text = scope.to_owned();
            text.append(" configuration key ");
            text.append(&quoted(name));
            text.append(" is invalid or reserved by Compute");
            return Err(EnvironmentError::Invalid(text));
        }
        i += 1;
    }
    Ok(())
}

// ---- Laws -------------------------------------------------------------------

/// Names are one to 63 bytes long, of lower-case letters, digits and hyphens,
/// and never begin with a hyphen; every such name is valid.
pub proof fn law_names_are_plain(name: Seq<char>)
    ensures
        valid_name(name) <==> {
            let bytes = encode_utf8(name);
            &&& 1 <= bytes.len() <= 63
            &&& bytes[0] != 45
            &&& forall|i: int|
                0 <= i < bytes.len() ==> 97 <= #[trigger] bytes[i] <= 122 || 48 <= bytes[i] <= 57
                    || bytes[i] == 45
        },
{
    let bytes = encode_utf8(name);
    if valid_name(name) {
        assert forall|i: int| 0 <= i < bytes.len() implies 97 <= #[trigger] bytes[i] <= 122 || 48
            <= bytes[i] <= 57 || bytes[i] == 45 by {}
    }
}

/// No configuration sets what Compute owns: a name that begins `COMPUTE_`,
/// the name `PORT`, and what no environment variable can hold are refused.
/// Everything else may be set.
pub proof fn law_computes_variables_are_reserved(
    name: Seq<char>,
    value: Seq<char>,
    rest: Seq<char>,
)
    ensures
        name == "COMPUTE_"@ + rest ==> refused_entry(name, value),
        name == "PORT"@ ==> refused_entry(name, value),
        name.len() == 0 ==> refused_entry(name, value),
        forall|i: int| 0 <= i < name.len() && #[trigger] name[i] == '=' ==> refused_entry(name, value),
        forall|i: int|
            0 <= i < name.len() && #[trigger] name[i] == '\0' ==> refused_entry(name, value),
        forall|i: int|
            0 <= i < value.len() && #[trigger] value[i] == '\0' ==> refused_entry(name, value),
        (name.len() > 0 && name[0] != 'C' && name[0] != 'P' && (forall|i: int|
            0 <= i < name.len() ==> #[trigger] name[i] != '=' && name[i] != '\0') && (forall|i: int|
            0 <= i < value.len() ==> #[trigger] value[i] != '\0')) ==> !refused_entry(name, value),
{
    reveal_strlit("COMPUTE_");
    reveal_strlit("PORT");
    assert("COMPUTE_"@.len() == 8 && "COMPUTE_"@[0] == 'C');
    assert("PORT"@.len() == 4 && "PORT"@[0] == 'P');
    if name == "COMPUTE_"@ + rest {
        assert("COMPUTE_"@ =~= name.subrange(0, 8));
    }
}

} // verus!
