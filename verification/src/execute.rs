//! Executing a workload: what it is given, and what its outcome changes.

use vstd::prelude::*;

use crate::admission::{
    elsewhere_text, failure_text, placement_failure, AdmissionDecision, PlacementReport,
};
use crate::desired::{Desired, Unit};
use crate::error::{EnvironmentError, Refusal};
use crate::events::{
    datum_option, fact, workload_scope, Datum, DatumText, EventKind, FactText, Key, Notice, Scope,
    ScopeText,
};
use crate::model::{ActualState, Config, PortBinding, RestartPolicy, WorkloadKind};
use crate::status::{Evidence, Health, PlacementView};
use crate::table::{key1, MapKey};
use crate::text::{
    chars_of, copy_option, decimal, decimal_text, join, joined, opt_text, signed_decimal,
    signed_text, texts, upper_text, uppercase,
};

verus! {

/// Output a service may keep, unless its bundle says otherwise.
pub const SERVICE_OUTPUT_BYTES: u64 = 1_048_576;

/// Receipts kept in memory per workload.
pub const RECENT_RECEIPTS: usize = 16;

/// Executions whose output is kept in memory.
pub const RECENT_EXECUTIONS: usize = 256;

/// Receipts kept on a deployment.
pub const DEPLOYMENT_RECEIPTS: usize = 32;

/// The longest a failing service waits before it is started again.
pub const MAX_BACKOFF_MS: u64 = 60_000;

// ---- What a workload is given -----------------------------------------------

/// Configuration as text.
pub open spec fn config_text(config: Map<Seq<Seq<char>>, String>) -> Map<Seq<Seq<char>>, Seq<char>> {
    Map::new(|key: Seq<Seq<char>>| config.contains_key(key), |key: Seq<Seq<char>>| config[key]@)
}

/// `base` with the first `n` rows of a layer over it.
pub open spec fn layered(
    base: Map<Seq<Seq<char>>, Seq<char>>,
    rows: Seq<(String, String)>,
    n: nat,
) -> Map<Seq<Seq<char>>, Seq<char>>
    decreases n,
{
    if n == 0 {
        base
    } else {
        layered(base, rows, (n - 1) as nat).insert(key1(rows[n - 1].0@), rows[n - 1].1@)
    }
}

/// The variable a port's host binding is passed in: its name in capitals,
/// with underscores for hyphens.
pub open spec fn port_variable(name: Seq<char>) -> Seq<char> {
    "COMPUTE_PORT_"@ + upper_text(name).map_values(
        |c: char|
            if c == '-' {
                '_'
            } else {
                c
            },
    )
}

/// `base` with the first `n` port bindings over it.
pub open spec fn with_ports(
    base: Map<Seq<Seq<char>>, Seq<char>>,
    ports: Seq<PortBinding>,
    n: nat,
) -> Map<Seq<Seq<char>>, Seq<char>>
    decreases n,
{
    if n == 0 {
        base
    } else {
        with_ports(base, ports, (n - 1) as nat).insert(
            key1(port_variable(ports[n - 1].name@)),
            decimal_text(ports[n - 1].host as nat),
        )
    }
}

/// The variables a workload runs with: its own, then the environment's, then
/// the project's, then Compute's port bindings, each over the ones before.
pub open spec fn run_variables(
    own: Map<Seq<Seq<char>>, Seq<char>>,
    environment: Seq<(String, String)>,
    project: Seq<(String, String)>,
    ports: Seq<PortBinding>,
) -> Map<Seq<Seq<char>>, Seq<char>> {
    let configured = layered(
        layered(own, environment, environment.len()),
        project,
        project.len(),
    );
    let bound = with_ports(configured, ports, ports.len());
    if ports.len() == 1 {
        bound.insert(key1("PORT"@), decimal_text(ports[0].host as nat))
    } else {
        bound
    }
}

fn set_variable(variables: &mut Config, name: String, value: String)
    ensures
        config_text(final(variables)@) == config_text(old(variables)@).insert(key1(name@), value@),
{
    let ghost before = variables@;
    variables.insert(name, value);
    proof {
        assert(config_text(variables@) =~= config_text(before).insert(key1(name@), value@));
    }
}

/// Put a layer of configuration over another.
pub fn layer(variables: &mut Config, over: &Config)
    ensures
        config_text(final(variables)@) == layered(
            config_text(old(variables)@),
            over.rows(),
            over.rows().len(),
        ),
{
    let ghost base = config_text(variables@);
    let mut i: usize = 0;
    while i < over.len()
        invariant
            i <= over.rows().len(),
            config_text(variables@) == layered(base, over.rows(), i as nat),
        decreases over.rows().len() - i,
    {
        set_variable(variables, over.key_at(i).clone(), over.value_at(i).clone());
        i += 1;
    }
}

fn variable_of(name: &str) -> (r: String)
    ensures
        r@ == port_variable(name@),
{
    let capitals = chars_of(&uppercase(name));
    let mut r = "COMPUTE_PORT_".to_owned();
    let ghost wanted = capitals@.map_values(
        |c: char|
            if c == '-' {
                '_'
            } else {
                c
            },
    );
    let ghost prefix = "COMPUTE_PORT_"@;
    let mut i: usize = 0;
    proof {
        assert(prefix + wanted.take(0) =~= prefix);
    }
    while i < capitals.len()
        invariant
            i <= capitals@.len(),
            r@ == prefix + wanted.take(i as int),
        decreases capitals@.len() - i,
    {
        let c: char = if capitals[i] == '-' {
            '_'
        } else {
            capitals[i]
        };
        r.push(c);
        proof {
            assert(wanted.take(i + 1) =~= wanted.take(i as int).push(c));
            assert(r@ =~= prefix + wanted.take(i + 1));
        }
        i += 1;
    }
    proof {
        assert(wanted.take(i as int) =~= wanted);
    }
    r
}

/// The variables a workload runs with. Configuration layering: workload <
/// environment < project < Compute-owned port bindings.
pub fn run_environment(
    own: Config,
    environment: &Config,
    project: &Config,
    ports: &Vec<PortBinding>,
) -> (r: Config)
    ensures
        config_text(r@) == run_variables(
            config_text(own@),
            environment.rows(),
            project.rows(),
            ports@,
        ),
{
    let mut variables = own;
    layer(&mut variables, environment);
    layer(&mut variables, project);
    let ghost configured = config_text(variables@);
    let mut i: usize = 0;
    while i < ports.len()
        invariant
            i <= ports@.len(),
            config_text(variables@) == with_ports(configured, ports@, i as nat),
        decreases ports@.len() - i,
    {
        set_variable(&mut variables, variable_of(&ports[i].name), decimal(ports[i].host as u64));
        i += 1;
    }
    if ports.len() == 1 {
        set_variable(&mut variables, "PORT".to_owned(), decimal(ports[0].host as u64));
    }
    variables
}

/// How much output is kept: what the bundle declares, or, for a service, the
/// default.
pub fn output_limit(kind: WorkloadKind, declared: Option<u64>) -> (r: Option<u64>)
    ensures
        r == (if kind == WorkloadKind::Service && declared is None {
            Some(SERVICE_OUTPUT_BYTES)
        } else {
            declared
        }),
        kind == WorkloadKind::Service && declared is None ==> r == Some(1_048_576u64),
{
    match declared {
        Some(bytes) => Some(bytes),
        None => if kind == WorkloadKind::Service {
            Some(SERVICE_OUTPUT_BYTES)
        } else {
            None
        },
    }
}

// ---- Whether it may run -----------------------------------------------------

/// Whether a placed workload runs.
#[derive(Debug, PartialEq, Eq)]
pub enum Dispatch {
    /// Placement selected nothing: execution is denied.
    Denied(String),
    /// It cannot run where placement selected.
    Failed(String),
    Run,
}

/// Whether a placed workload runs: a service only on the daemon's own node.
pub fn dispatch(report: &PlacementReport, service: bool) -> (r: Dispatch)
    ensures
        match report.selected {
            None => r matches Dispatch::Denied(text) && text@ == failure_text(*report),
            Some(selected) => if service && !selected.local {
                r matches Dispatch::Failed(text) && text@ == elsewhere_text(selected.provider_id@)
            } else {
                r == Dispatch::Run
            },
        },
{
    match &report.selected {
        None => {
            let (text, _) = placement_failure(report);
            Dispatch::Denied(text)
        },
        Some(selected) => {
            if service && !selected.local {
                let mut text =
                    "services run on the daemon's own node; placement selected ".to_owned();
                text.append(&selected.provider_id);
                Dispatch::Failed(text)
            } else {
                Dispatch::Run
            }
        },
    }
}

/// Why admission refuses an execution, when it does: its reasons.
pub fn admission_refusal(decision: &AdmissionDecision) -> (r: Option<String>)
    ensures
        if decision.admitted {
            r is None
        } else {
            opt_text(r) == Some(joined(texts(decision.reasons@), "; "@))
        },
{
    if decision.admitted {
        None
    } else {
        Some(join(&decision.reasons, "; "))
    }
}

/// The placement an execution gets, on the node that was selected.
pub fn placement_view(report: &PlacementReport, node: &str) -> (r: Option<PlacementView>)
    ensures
        match report.selected {
            Some(selected) => r matches Some(view) && opt_text(view.placement_id) == Some(
                report.placement_id@,
            ) && opt_text(view.provider) == Some(selected.provider_id@) && opt_text(view.node)
                == Some(node@),
            None => r is None,
        },
{
    match &report.selected {
        Some(selected) => Some(
            PlacementView {
                placement_id: Some(report.placement_id.clone()),
                provider: Some(selected.provider_id.clone()),
                node: Some(node.to_owned()),
            },
        ),
        None => None,
    }
}

/// What is reported of an execution's receipt: nothing when it verifies, why
/// it does not, or that there is none.
pub fn receipt_warning(receipt: Option<Result<(), String>>) -> (r: Option<String>)
    ensures
        match receipt {
            Some(Ok(_)) => r is None,
            Some(Err(error)) => r == Some(error),
            None => opt_text(r) == Some("execution returned no receipt"@),
        },
{
    match receipt {
        Some(Ok(_)) => None,
        Some(Err(error)) => Some(error),
        None => Some("execution returned no receipt".to_owned()),
    }
}

// ---- What runs --------------------------------------------------------------

/// What a node knows of a unit it runs or ran.
#[derive(Debug)]
pub struct WorkloadRuntime {
    pub service: bool,
    pub state: Option<ActualState>,
    pub generation: u64,
    /// Held down after exiting on its own, failing without a restart
    /// policy, or being denied, until an explicit start.
    pub held: bool,
    pub restarts: u64,
    pub consecutive_failures: u32,
    /// Whether a task of this controller waits for it to end.
    pub supervised: bool,
    pub deployment_id: Option<String>,
    pub execution_id: Option<String>,
    pub started_at: Option<i64>,
    pub finished_at: Option<i64>,
    pub exit_code: Option<i32>,
    pub error: Option<String>,
    pub placement: PlacementView,
    pub evidence: Evidence,
    pub log_directory: Option<String>,
    pub health: Option<Health>,
    /// When the process was last seen running, for process readiness.
    pub running_since: Option<i64>,
    pub unit_id: Option<String>,
    pub pid: Option<u32>,
}

/// A decision admission made, by its identifiers.
#[derive(Debug)]
pub struct AdmissionIds {
    pub policy_id: String,
    pub admission_id: String,
}

/// How an execution went.
#[derive(Debug)]
pub struct ExecutionResult {
    pub execution_id: String,
    /// Its status, and whether that is completion.
    pub status: String,
    pub completed: bool,
    pub exit_code: Option<i32>,
    pub error: Option<String>,
    pub admission: Option<AdmissionIds>,
    pub receipt_id: Option<String>,
}

/// How an invocation ended.
#[derive(Debug)]
pub enum Outcome {
    /// Admission refused it; nothing executed.
    Denied(String, Option<AdmissionIds>),
    /// Nothing executed, for a reason.
    Failed(String),
    /// It executed; with what to warn of, and where.
    Executed(ExecutionResult, Option<String>, PlacementView),
}

/// How an invocation that its provider refused or could not run ended: a
/// refusal by admission is no failure.
pub fn provider_failure(message: String, admission: Option<AdmissionIds>) -> (r: Outcome)
    ensures
        r == (match admission {
            Some(decision) => Outcome::Denied(message, Some(decision)),
            None => Outcome::Failed(message),
        }),
{
    match admission {
        Some(decision) => Outcome::Denied(message, Some(decision)),
        None => Outcome::Failed(message),
    }
}

/// How an invocation ended that was stopped before its process started.
pub fn never_started() -> (r: Outcome)
    ensures
        r matches Outcome::Failed(message) && message@ == "stopped before starting"@,
{
    Outcome::Failed("stopped before starting".to_owned())
}

/// Durable evidence of one execution.
#[derive(Debug, Clone)]
pub struct ExecutionRecord {
    pub execution_id: String,
    pub environment_id: String,
    pub environment: String,
    pub project_id: String,
    pub project: String,
    pub workload_id: String,
    pub workload: String,
    pub kind: WorkloadKind,
    pub deployment_id: Option<String>,
    pub status: String,
    pub exit_code: Option<i32>,
    pub started_at: i64,
    pub finished_at: Option<i64>,
    pub receipt_id: Option<String>,
    pub policy_id: Option<String>,
    pub admission_id: Option<String>,
    pub placement_id: Option<String>,
    pub provider: Option<String>,
    pub error: Option<String>,
}

// ---- Backoff ----------------------------------------------------------------

pub open spec fn power_of_two(n: nat) -> nat
    decreases n,
{
    if n == 0 {
        1
    } else {
        2 * power_of_two((n - 1) as nat)
    }
}

pub open spec fn min_int(a: int, b: int) -> int {
    if a < b {
        a
    } else {
        b
    }
}

/// How many failures in a row count: none once a run lasted over a minute.
pub open spec fn failures_before(failures: u32, ran_ns: int) -> u32 {
    if ran_ns > 60_000_000_000 {
        0
    } else {
        failures
    }
}

/// The delay before a failing service is started again: doubled for each
/// failure in a row, up to a minute.
pub open spec fn backoff_ms(base_ms: u64, failures: u32) -> int {
    min_int(base_ms * power_of_two(failures as nat), MAX_BACKOFF_MS as int)
}

proof fn lemma_first_delay(base_ms: u64)
    ensures
        base_ms * power_of_two(0) == base_ms,
{
    let factor = power_of_two(0);
    assert(base_ms * factor == base_ms) by (nonlinear_arith)
        requires
            factor == 1,
    ;
}

/// More failures never shorten the delay.
proof fn lemma_delay_grows(base_ms: u64, n: nat, m: nat)
    requires
        n <= m,
    ensures
        base_ms * power_of_two(n) <= base_ms * power_of_two(m),
    decreases m - n,
{
    if n < m {
        lemma_delay_grows(base_ms, n, (m - 1) as nat);
        lemma_delay_doubles(base_ms, (m - 1) as nat);
        assert(0 <= base_ms * power_of_two((m - 1) as nat)) by (nonlinear_arith);
    }
}

proof fn lemma_delay_doubles(base_ms: u64, n: nat)
    ensures
        base_ms * power_of_two(n + 1) == 2 * (base_ms * power_of_two(n)),
{
    let factor = power_of_two(n);
    assert(power_of_two(n + 1) == 2 * factor);
    assert(base_ms * (2 * factor) == 2 * (base_ms * factor)) by (nonlinear_arith);
}

proof fn lemma_no_delay(base_ms: u64, n: nat, m: nat)
    requires
        base_ms * power_of_two(n) == 0,
    ensures
        base_ms * power_of_two(m) == 0,
{
    lemma_delay_grows(base_ms, 0, n);
    lemma_first_delay(base_ms);
    assert(base_ms * power_of_two(m) == 0) by (nonlinear_arith)
        requires
            base_ms == 0,
    ;
}

impl WorkloadRuntime {
    /// Exponential backoff for a failing service: the delay doubles with
    /// each consecutive failure, up to a minute, and resets once a run
    /// lasts.
    pub fn backoff(&mut self, base_ms: u64, ran_ns: i128) -> (r: u64)
        requires
            old(self).consecutive_failures < u32::MAX,
        ensures
            r == backoff_ms(base_ms, failures_before(old(self).consecutive_failures, ran_ns as int)),
            *final(self) == (WorkloadRuntime {
                consecutive_failures: (failures_before(
                    old(self).consecutive_failures,
                    ran_ns as int,
                ) + 1) as u32,
                ..*old(self)
            }),
    {
        if ran_ns > 60_000_000_000 {
            self.consecutive_failures = 0;
        }
        let failures: u32 = self.consecutive_failures;
        self.consecutive_failures = failures + 1;
        let mut delay: u64 = if base_ms < MAX_BACKOFF_MS {
            base_ms
        } else {
            MAX_BACKOFF_MS
        };
        let mut i: u32 = 0;
        proof {
            lemma_first_delay(base_ms);
        }
        while i < failures && 0 < delay && delay < MAX_BACKOFF_MS
            invariant
                i <= failures,
                delay == backoff_ms(base_ms, i),
            decreases failures - i,
        {
            proof {
                lemma_delay_doubles(base_ms, i as nat);
            }
            delay = if delay < MAX_BACKOFF_MS / 2 {
                delay * 2
            } else {
                MAX_BACKOFF_MS
            };
            i += 1;
        }
        proof {
            lemma_delay_grows(base_ms, i as nat, failures as nat);
            if delay == 0 {
                lemma_no_delay(base_ms, i as nat, failures as nat);
            }
        }
        delay
    }
}

// ---- Ending -----------------------------------------------------------------

/// Whether an execution succeeded: it completed, with exit code 0 if any.
pub open spec fn succeeded(result: ExecutionResult) -> bool {
    result.completed && (result.exit_code is None || result.exit_code == Some(0i32))
}

/// The state an execution leaves its workload in.
pub open spec fn ended_state(service: bool, stopping: bool, ok: bool) -> ActualState {
    if stopping {
        ActualState::Stopped
    } else if !ok {
        ActualState::Failed
    } else if service {
        ActualState::Stopped
    } else {
        ActualState::Completed
    }
}

/// What an execution's end is recorded as.
pub open spec fn ended_kind(service: bool, stopping: bool, ok: bool) -> EventKind {
    if service {
        if stopping || ok {
            EventKind::ServiceStopped
        } else {
            EventKind::ServiceFailed
        }
    } else if ok {
        EventKind::TaskCompleted
    } else {
        EventKind::TaskFailed
    }
}

/// Why an execution did not succeed.
pub open spec fn failure_reason(result: ExecutionResult) -> Seq<char> {
    match result.error {
        Some(error) => error@,
        None => match result.exit_code {
            Some(code) => "exited with status "@ + signed_text(code as int),
            None => "ended as "@ + result.status@,
        },
    }
}

/// The error an execution leaves: a warning, or why it failed while nobody
/// stopped it.
pub open spec fn ended_error(
    result: ExecutionResult,
    warning: Option<String>,
    stopping: bool,
) -> Option<Seq<char>> {
    match warning {
        Some(warning) => Some(warning@),
        None => if !succeeded(result) && !stopping {
            Some(failure_reason(result))
        } else {
            None
        },
    }
}

fn find_error(result: &ExecutionResult, warning: &Option<String>, stopping: bool, ok: bool) -> (r:
    Option<String>)
    requires
        ok == succeeded(*result),
    ensures
        opt_text(r) == ended_error(*result, *warning, stopping),
{
    if let Some(warning) = warning {
        return Some(warning.clone());
    }
    if ok || stopping {
        return None;
    }
    Some(
        match &result.error {
            Some(error) => error.clone(),
            None => match result.exit_code {
                Some(code) => {
                    let mut text = "exited with status ".to_owned();
                    text.append(&signed_decimal(code as i64));
                    text
                },
                None => {
                    let mut text = "ended as ".to_owned();
                    text.append(&result.status);
                    text
                },
            },
        },
    )
}

/// A workload where it runs, as messages name it.
pub open spec fn place_text(key: Key) -> Seq<char> {
    key.2@ + " in "@ + key.0@ + "/"@ + key.1@
}

fn place(key: &Key) -> (r: String)
    ensures
        r@ == place_text(*key),
{
    let mut text = key.2.clone();
    text.append(" in ");
    text.append(&key.0);
    text.append("/");
    text.append(&key.1);
    text
}

/// What is said of an execution's end.
pub open spec fn ended_message(key: Key, kind: EventKind, error: Option<Seq<char>>) -> Seq<char> {
    if kind == EventKind::TaskCompleted {
        place_text(key) + " completed"@
    } else if kind == EventKind::ServiceStopped {
        place_text(key) + " stopped"@
    } else {
        place_text(key) + " failed: "@ + (match error {
            Some(error) => error,
            None => ""@,
        })
    }
}

/// The last items of a list, at most `limit` of them.
pub open spec fn recent<T>(list: Seq<T>, limit: nat) -> Seq<T> {
    if list.len() <= limit {
        list
    } else {
        list.skip(list.len() - limit)
    }
}

/// Add an item to a list and forget the oldest one if there are then more
/// than `limit`.
pub fn remember(list: &mut Vec<String>, item: String, limit: usize)
    requires
        old(list)@.len() <= limit,
    ensures
        final(list)@ == recent(old(list)@.push(item), limit as nat),
        final(list)@.len() <= limit,
{
    let ghost all = list@.push(item);
    list.push(item);
    if list.len() > limit {
        list.remove(0);
        proof {
            assert(list@ =~= all.skip(1));
        }
    }
}

/// The receipts of a deployment with one more, the oldest forgotten beyond
/// the limit.
pub fn deployment_receipts(receipts: &Vec<String>, receipt: &str) -> (r: Vec<String>)
    ensures
        texts(r@) == recent(texts(receipts@).push(receipt@), DEPLOYMENT_RECEIPTS as nat),
        r@.len() == (if receipts@.len() < 32 {
            receipts@.len() + 1
        } else {
            32
        }),
        r@.last()@ == receipt@,
{
    let mut all = crate::text::copy_list(receipts);
    all.push(receipt.to_owned());
    let ghost wanted = texts(receipts@).push(receipt@);
    proof {
        assert(texts(all@) =~= wanted);
    }
    let mut excess: usize = if all.len() > DEPLOYMENT_RECEIPTS {
        all.len() - DEPLOYMENT_RECEIPTS
    } else {
        0
    };
    let ghost start = all@;
    let ghost dropped = excess as int;
    proof {
        assert(start.skip(0) =~= start);
    }
    while excess > 0
        invariant
            0 <= excess <= dropped <= start.len(),
            all@ == start.skip(dropped - excess),
        decreases excess,
    {
        all.remove(0);
        proof {
            assert(start.skip(dropped - excess).remove(0) =~= start.skip(dropped - excess + 1));
        }
        excess -= 1;
    }
    proof {
        assert(texts(all@) =~= wanted.skip(dropped));
        assert(wanted.skip(0) =~= wanted);
        assert(texts(all@)[all@.len() - 1] == receipt@);
    }
    all
}

/// Under which admission an execution was denied, if it got that far.
pub open spec fn denied_facts(decision: Option<AdmissionIds>) -> Seq<FactText> {
    seq![
        fact(
            "admission_id"@,
            match decision {
                Some(decision) => DatumText::Text(decision.admission_id@),
                None => DatumText::Null,
            },
        ),
    ]
}

/// How an execution ended, and its receipt.
pub open spec fn ended_facts(result: ExecutionResult) -> Seq<FactText> {
    seq![
        fact(
            "exit_code"@,
            match result.exit_code {
                Some(code) => DatumText::Integer(code as int),
                None => DatumText::Null,
            },
        ),
        fact("receipt_id"@, datum_option(opt_text(result.receipt_id))),
    ]
}

/// What ending an invocation leads to.
#[derive(Debug)]
pub struct Finished {
    /// What is recorded.
    pub event: Option<Notice>,
    /// When a failed service is started again, in milliseconds from now.
    pub restart_after_ms: Option<u64>,
    /// The evidence of what executed.
    pub execution: Option<ExecutionRecord>,
}

/// Who an invocation was of.
#[derive(Debug)]
pub struct Invocation {
    pub unit: Unit,
    pub generation: u64,
    pub service: bool,
    /// Whether it was being stopped.
    pub stopping: bool,
    pub restart: Option<RestartPolicy>,
    pub workload_id: String,
    pub environment_id: String,
    pub project_id: String,
    pub deployment_id: Option<String>,
}

/// Who an invocation's events are about.
pub open spec fn invocation_scope(invocation: Invocation, execution_id: Option<Seq<char>>) -> ScopeText {
    ScopeText {
        deployment_id: opt_text(invocation.deployment_id),
        execution_id,
        ..workload_scope(
            invocation.unit.key.0@,
            invocation.unit.key.1@,
            invocation.unit.key.2@,
        )
    }
}

fn scope_of(invocation: &Invocation) -> (r: Scope)
    ensures
        r@ == invocation_scope(*invocation, None),
{
    let scope = Scope::workload(&invocation.unit.key);
    match &invocation.deployment_id {
        Some(id) => scope.deployment(id),
        None => scope,
    }
}

/// What desired state says of an invocation that ended: its workload's
/// restart policy, and the identifiers it is recorded under. They are empty
/// once its deployment is gone.
pub open spec fn is_invocation_of(r: Invocation, desired: Desired, unit: Unit, workload_id: Seq<char>) -> bool {
    &&& r.unit.parts() == unit.parts()
    &&& if desired.deployments@.contains_key(key1(unit.deployment_id@)) {
        let deployment = desired.deployments@[key1(unit.deployment_id@)].value;
        &&& r.restart == (match desired.released_workload(unit.deployment_id@, unit.key.2@) {
            Some(workload) => Some(workload.restart),
            None => None,
        })
        &&& r.workload_id@ == workload_id
        &&& r.environment_id@ == deployment.environment_id@
        &&& r.project_id@ == deployment.project_id@
    } else {
        &&& r.restart is None
        &&& r.workload_id@.len() == 0
        &&& r.environment_id@.len() == 0
        &&& r.project_id@.len() == 0
    }
}

/// An invocation that ended. `workload_id` is its workload's identifier.
pub fn invocation_of(
    desired: &Desired,
    unit: &Unit,
    generation: u64,
    service: bool,
    stopping: bool,
    workload_id: &str,
    deployment_id: Option<String>,
) -> (r: Invocation)
    ensures
        is_invocation_of(r, *desired, *unit, workload_id@),
        r.generation == generation,
        r.service == service,
        r.stopping == stopping,
        r.deployment_id == deployment_id,
{
    let unit = Unit::new(&unit.key, &unit.deployment_id);
    match desired.deployments.at(&unit.deployment_id) {
        Some(deployment) => {
            let restart = match desired.revision_workload(&unit.deployment_id, &unit.key.2) {
                Some(workload) => Some(workload.restart),
                None => None,
            };
            Invocation {
                unit,
                generation,
                service,
                stopping,
                restart,
                workload_id: workload_id.to_owned(),
                environment_id: deployment.value.environment_id.clone(),
                project_id: deployment.value.project_id.clone(),
                deployment_id,
            }
        },
        None => Invocation {
            unit,
            generation,
            service,
            stopping,
            restart: None,
            workload_id: String::new(),
            environment_id: String::new(),
            project_id: String::new(),
            deployment_id,
        },
    }
}

/// A receipt, as it is recorded.
#[derive(Debug, PartialEq, Eq)]
pub struct ReceiptRecord {
    pub receipt_id: String,
    pub execution_id: String,
    pub environment_id: String,
    pub project_id: String,
    pub workload_id: String,
    pub deployment_id: Option<String>,
    pub policy_id: Option<String>,
    pub admission_id: Option<String>,
    /// Where the receipt document is, when it could be stored.
    pub artifact_digest: Option<String>,
    pub created_at: i64,
}

/// The record of an execution's receipt.
pub fn receipt_record(
    execution: &ExecutionRecord,
    receipt_id: &str,
    artifact_digest: Option<String>,
    now: i64,
) -> (r: ReceiptRecord)
    ensures
        r.receipt_id@ == receipt_id@,
        r.execution_id == execution.execution_id,
        r.environment_id == execution.environment_id,
        r.project_id == execution.project_id,
        r.workload_id == execution.workload_id,
        r.deployment_id == execution.deployment_id,
        r.policy_id == execution.policy_id,
        r.admission_id == execution.admission_id,
        r.artifact_digest == artifact_digest,
        r.created_at == now,
{
    ReceiptRecord {
        receipt_id: receipt_id.to_owned(),
        execution_id: execution.execution_id.clone(),
        environment_id: execution.environment_id.clone(),
        project_id: execution.project_id.clone(),
        workload_id: execution.workload_id.clone(),
        deployment_id: copy_option(&execution.deployment_id),
        policy_id: copy_option(&execution.policy_id),
        admission_id: copy_option(&execution.admission_id),
        artifact_digest,
        created_at: now,
    }
}

/// Check that a workload is run to completion on request: only a task is.
pub fn check_task(kind: WorkloadKind, workload: &str) -> (r: Result<(), EnvironmentError>)
    ensures
        if kind == WorkloadKind::Task {
            r is Ok
        } else {
            r matches Err(error) && error.reports(
                Refusal::Invalid(workload@ + " is a service; start it instead of running it"@),
            )
        },
{
    if kind == WorkloadKind::Task {
        return Ok(());
    }
    let mut text = workload.to_owned();
    text.append(" is a service; start it instead of running it");
    Err(EnvironmentError::Invalid(text))
}

/// What running a task that did not execute is refused with.
pub fn task_refusal(error: &Option<String>) -> (r: EnvironmentError)
    ensures
        r.reports(
            Refusal::Denied(
                match opt_text(*error) {
                    Some(error) => error,
                    None => "the task did not execute"@,
                },
            ),
        ),
{
    match error {
        Some(error) => EnvironmentError::Denied(error.clone()),
        None => EnvironmentError::Denied("the task did not execute".to_owned()),
    }
}

/// How long a run lasted, in nanoseconds.
pub open spec fn ran_for(started_at: Option<i64>, now: i64) -> int {
    match started_at {
        Some(started) => now - started,
        None => 0,
    }
}

/// Whether `record` is the evidence of an execution.
pub open spec fn is_execution_record(
    record: ExecutionRecord,
    invocation: Invocation,
    result: ExecutionResult,
    placement: PlacementView,
    started_at: Option<i64>,
    error: Option<Seq<char>>,
    now: i64,
) -> bool {
    &&& record.execution_id@ == result.execution_id@
    &&& record.environment_id@ == invocation.environment_id@
    &&& record.environment@ == invocation.unit.key.0@
    &&& record.project_id@ == invocation.project_id@
    &&& record.project@ == invocation.unit.key.1@
    &&& record.workload_id@ == invocation.workload_id@
    &&& record.workload@ == invocation.unit.key.2@
    &&& record.kind == (if invocation.service {
        WorkloadKind::Service
    } else {
        WorkloadKind::Task
    })
    &&& record.deployment_id == invocation.deployment_id
    &&& record.status@ == result.status@
    &&& record.exit_code == result.exit_code
    &&& record.started_at == (match started_at {
        Some(started) => started,
        None => now,
    })
    &&& record.finished_at == Some(now)
    &&& record.receipt_id == result.receipt_id
    &&& opt_text(record.policy_id) == (match result.admission {
        Some(admission) => Some(admission.policy_id@),
        None => None,
    })
    &&& opt_text(record.admission_id) == (match result.admission {
        Some(admission) => Some(admission.admission_id@),
        None => None,
    })
    &&& record.placement_id == placement.placement_id
    &&& record.provider == placement.provider
    &&& opt_text(record.error) == error
}

impl WorkloadRuntime {
    /// Whether a failure calls for another start.
    pub open spec fn restarts_after(
        self,
        invocation: Invocation,
        failed: bool,
        base_ms: u64,
        now: i64,
        restart_after_ms: Option<u64>,
        failures: u32,
    ) -> bool {
        let counted = failures_before(self.consecutive_failures, ran_for(self.started_at, now));
        if failed && invocation.service && !invocation.stopping && invocation.restart == Some(
            RestartPolicy::OnFailure,
        ) {
            &&& restart_after_ms == Some(backoff_ms(base_ms, counted) as u64)
            &&& failures == counted + 1
        } else {
            restart_after_ms is None && failures == self.consecutive_failures
        }
    }

    /// What ending an invocation never changes.
    pub open spec fn same_unit(self, other: Self) -> bool {
        &&& other.service == self.service
        &&& other.generation == self.generation
        &&& other.restarts == self.restarts
        &&& other.deployment_id == self.deployment_id
        &&& other.started_at == self.started_at
        &&& other.log_directory == self.log_directory
        &&& other.health == self.health
        &&& other.unit_id == self.unit_id
        &&& other.pid == self.pid
    }

    /// Record how an invocation ended, unless a newer one superseded it:
    /// the workload's new state, the evidence of what executed, and whether
    /// it is started again.
    pub fn finish(
        &mut self,
        invocation: &Invocation,
        outcome: Outcome,
        restart_delay_ms: u64,
        now: i64,
    ) -> (r: Option<Finished>)
        requires
            old(self).consecutive_failures < u32::MAX,
            old(self).evidence.receipt_ids@.len() <= RECENT_RECEIPTS,
        ensures
            final(self).evidence.receipt_ids@.len() <= RECENT_RECEIPTS,
            final(self).evidence.receipt_ids@.len() <= 16,
            invocation.restart == Some(RestartPolicy::Never) || invocation.restart is None
                || !invocation.service || invocation.stopping || outcome is Denied ==> {
                &&& r matches Some(done) ==> done.restart_after_ms is None
                &&& final(self).consecutive_failures == old(self).consecutive_failures
            },
            if old(self).generation != invocation.generation {
                r is None && *final(self) == *old(self)
            } else {
                &&& r matches Some(done)
                &&& old(self).same_unit(*final(self))
                &&& final(self).finished_at == Some(now)
                &&& final(self).running_since is None
                &&& !final(self).supervised
                &&& match outcome {
                    Outcome::Denied(message, decision) => {
                        &&& final(self).state == Some(ActualState::Denied)
                        &&& final(self).held
                        &&& opt_text(final(self).error) == Some(message@)
                        &&& final(self).exit_code == old(self).exit_code
                        &&& final(self).execution_id == old(self).execution_id
                        &&& final(self).placement == old(self).placement
                        &&& final(self).consecutive_failures == old(self).consecutive_failures
                        &&& final(self).evidence.receipt_ids == old(self).evidence.receipt_ids
                        &&& match decision {
                            Some(decision) => opt_text(final(self).evidence.policy_id) == Some(
                                decision.policy_id@,
                            ) && opt_text(final(self).evidence.admission_id) == Some(
                                decision.admission_id@,
                            ),
                            None => final(self).evidence == old(self).evidence,
                        }
                        &&& done.event matches Some(event)
                        &&& event.says(
                            if invocation.service {
                                EventKind::ServiceDenied
                            } else {
                                EventKind::TaskDenied
                            },
                            invocation_scope(*invocation, None),
                            place_text(invocation.unit.key) + " was denied: "@ + message@,
                            denied_facts(decision),
                        )
                        &&& done.restart_after_ms is None
                        &&& done.execution is None
                    },
                    Outcome::Failed(message) => {
                        &&& final(self).state == Some(
                            if invocation.stopping {
                                ActualState::Stopped
                            } else {
                                ActualState::Failed
                            },
                        )
                        &&& final(self).held == (old(self).held || !invocation.stopping)
                        &&& opt_text(final(self).error) == Some(message@)
                        &&& final(self).exit_code == old(self).exit_code
                        &&& final(self).execution_id == old(self).execution_id
                        &&& final(self).placement == old(self).placement
                        &&& final(self).evidence == old(self).evidence
                        &&& if invocation.stopping {
                            done.event is None
                        } else {
                            &&& done.event matches Some(event)
                            &&& event.says(
                                if invocation.service {
                                    EventKind::ServiceFailed
                                } else {
                                    EventKind::TaskFailed
                                },
                                invocation_scope(*invocation, None),
                                place_text(invocation.unit.key) + " failed: "@ + message@,
                                seq![],
                            )
                        }
                        &&& old(self).restarts_after(
                            *invocation,
                            true,
                            restart_delay_ms,
                            now,
                            done.restart_after_ms,
                            final(self).consecutive_failures,
                        )
                        &&& done.execution is None
                    },
                    Outcome::Executed(result, warning, placement) => {
                        let ok = succeeded(result);
                        let error = ended_error(result, warning, invocation.stopping);
                        let kind = ended_kind(invocation.service, invocation.stopping, ok);
                        &&& final(self).state == Some(
                            ended_state(invocation.service, invocation.stopping, ok),
                        )
                        &&& final(self).held == (invocation.service && !invocation.stopping)
                        &&& final(self).exit_code == result.exit_code
                        &&& opt_text(final(self).error) == error
                        &&& opt_text(final(self).execution_id) == Some(result.execution_id@)
                        &&& final(self).placement == placement
                        &&& match result.admission {
                            Some(admission) => opt_text(final(self).evidence.policy_id) == Some(
                                admission.policy_id@,
                            ) && opt_text(final(self).evidence.admission_id) == Some(
                                admission.admission_id@,
                            ),
                            None => final(self).evidence.policy_id == old(self).evidence.policy_id
                                && final(self).evidence.admission_id
                                == old(self).evidence.admission_id,
                        }
                        &&& match result.receipt_id {
                            Some(receipt) => final(self).evidence.receipt_ids@ == recent(
                                old(self).evidence.receipt_ids@.push(receipt),
                                RECENT_RECEIPTS as nat,
                            ),
                            None => final(self).evidence.receipt_ids
                                == old(self).evidence.receipt_ids,
                        }
                        &&& old(self).restarts_after(
                            *invocation,
                            !ok,
                            restart_delay_ms,
                            now,
                            done.restart_after_ms,
                            final(self).consecutive_failures,
                        )
                        &&& done.event matches Some(event)
                        &&& event.says(
                            kind,
                            invocation_scope(*invocation, Some(result.execution_id@)),
                            ended_message(invocation.unit.key, kind, error),
                            ended_facts(result),
                        )
                        &&& done.execution matches Some(record)
                        &&& is_execution_record(
                            record,
                            *invocation,
                            result,
                            placement,
                            old(self).started_at,
                            error,
                            now,
                        )
                    },
                }
            },
    {
        if self.generation != invocation.generation {
            return None;
        }
        let ran_ns: i128 = match self.started_at {
            Some(started) => now as i128 - started as i128,
            None => 0,
        };
        self.finished_at = Some(now);
        self.running_since = None;
        self.supervised = false;
        let service = invocation.service;
        let stopping = invocation.stopping;
        let restart_policy = match invocation.restart {
            Some(RestartPolicy::OnFailure) => true,
            _ => false,
        };
        match outcome {
            Outcome::Denied(message, decision) => {
                self.state = Some(ActualState::Denied);
                self.held = true;
                self.error = Some(message.clone());
                let admission = match decision {
                    Some(decision) => {
                        self.evidence.policy_id = Some(decision.policy_id);
                        self.evidence.admission_id = Some(decision.admission_id.clone());
                        Datum::Text(decision.admission_id)
                    },
                    None => Datum::Null,
                };
                let mut text = place(&invocation.unit.key);
                text.append(" was denied: ");
                text.append(&message);
                let kind = if service {
                    EventKind::ServiceDenied
                } else {
                    EventKind::TaskDenied
                };
                Some(
                    Finished {
                        event: Some(
                            Notice::new(kind, scope_of(invocation), text).with(
                                "admission_id",
                                admission,
                            ),
                        ),
                        restart_after_ms: None,
                        execution: None,
                    },
                )
            },
            Outcome::Failed(message) => {
                let mut restart_after_ms: Option<u64> = None;
                let mut event: Option<Notice> = None;
                self.error = Some(message.clone());
                if stopping {
                    self.state = Some(ActualState::Stopped);
                } else {
                    self.state = Some(ActualState::Failed);
                    let mut text = place(&invocation.unit.key);
                    text.append(" failed: ");
                    text.append(&message);
                    let kind = if service {
                        EventKind::ServiceFailed
                    } else {
                        EventKind::TaskFailed
                    };
                    event = Some(Notice::new(kind, scope_of(invocation), text));
                    self.held = true;
                    if service && restart_policy {
                        restart_after_ms = Some(self.backoff(restart_delay_ms, ran_ns));
                    }
                }
                Some(Finished { event, restart_after_ms, execution: None })
            },
            Outcome::Executed(result, warning, placement) => {
                let ok = result.completed && match result.exit_code {
                    Some(code) => code == 0,
                    None => true,
                };
                let state = if stopping {
                    ActualState::Stopped
                } else if !ok {
                    ActualState::Failed
                } else if service {
                    ActualState::Stopped
                } else {
                    ActualState::Completed
                };
                self.state = Some(state);
                self.held = service && !stopping;
                self.exit_code = result.exit_code;
                let error = find_error(&result, &warning, stopping, ok);
                self.error = copy_option(&error);
                self.execution_id = Some(result.execution_id.clone());
                if let Some(admission) = &result.admission {
                    self.evidence.policy_id = Some(admission.policy_id.clone());
                    self.evidence.admission_id = Some(admission.admission_id.clone());
                }
                if let Some(receipt) = &result.receipt_id {
                    remember(&mut self.evidence.receipt_ids, receipt.clone(), RECENT_RECEIPTS);
                }
                let mut restart_after_ms: Option<u64> = None;
                if service && !stopping && !ok && restart_policy {
                    restart_after_ms = Some(self.backoff(restart_delay_ms, ran_ns));
                }
                let kind = if service {
                    if stopping || ok {
                        EventKind::ServiceStopped
                    } else {
                        EventKind::ServiceFailed
                    }
                } else if ok {
                    EventKind::TaskCompleted
                } else {
                    EventKind::TaskFailed
                };
                let mut text = place(&invocation.unit.key);
                match kind {
                    EventKind::TaskCompleted => {
                        text.append(" completed");
                    },
                    EventKind::ServiceStopped => {
                        text.append(" stopped");
                    },
                    _ => {
                        text.append(" failed: ");
                        match &error {
                            Some(error) => {
                                text.append(error);
                            },
                            None => {
                                text.append("");
                            },
                        }
                    },
                }
                let record = ExecutionRecord {
                    execution_id: result.execution_id.clone(),
                    environment_id: invocation.environment_id.clone(),
                    environment: invocation.unit.key.0.clone(),
                    project_id: invocation.project_id.clone(),
                    project: invocation.unit.key.1.clone(),
                    workload_id: invocation.workload_id.clone(),
                    workload: invocation.unit.key.2.clone(),
                    kind: if service {
                        WorkloadKind::Service
                    } else {
                        WorkloadKind::Task
                    },
                    deployment_id: copy_option(&invocation.deployment_id),
                    status: result.status.clone(),
                    exit_code: result.exit_code,
                    started_at: match self.started_at {
                        Some(started) => started,
                        None => now,
                    },
                    finished_at: Some(now),
                    receipt_id: copy_option(&result.receipt_id),
                    policy_id: match &result.admission {
                        Some(admission) => Some(admission.policy_id.clone()),
                        None => None,
                    },
                    admission_id: match &result.admission {
                        Some(admission) => Some(admission.admission_id.clone()),
                        None => None,
                    },
                    placement_id: copy_option(&placement.placement_id),
                    provider: copy_option(&placement.provider),
                    error,
                };
                self.placement = placement;
                Some(
                    Finished {
                        event: Some(
                            Notice::new(
                                kind,
                                scope_of(invocation).execution(&result.execution_id),
                                text,
                            ).with(
                                "exit_code",
                                match result.exit_code {
                                    Some(code) => Datum::Integer(code as i64),
                                    None => Datum::Null,
                                },
                            ).with("receipt_id", Datum::option(&result.receipt_id)),
                        ),
                        restart_after_ms,
                        execution: Some(record),
                    },
                )
            },
        }
    }
}

// ---- Laws -------------------------------------------------------------------

/// A failed invocation is started again only if its workload's restart
/// policy says so, it is a service, and nobody was stopping it. Any other
/// end leaves it down, and counts no failure.
pub proof fn law_only_failing_services_restart(
    runtime: WorkloadRuntime,
    invocation: Invocation,
    failed: bool,
    base_ms: u64,
    now: i64,
    restart_after_ms: Option<u64>,
    failures: u32,
)
    requires
        runtime.restarts_after(invocation, failed, base_ms, now, restart_after_ms, failures),
    ensures
        restart_after_ms is Some <==> {
            &&& failed
            &&& invocation.service
            &&& !invocation.stopping
            &&& invocation.restart == Some(RestartPolicy::OnFailure)
        },
        restart_after_ms is None ==> failures == runtime.consecutive_failures,
        invocation.restart == Some(RestartPolicy::Never) || invocation.restart is None
            ==> restart_after_ms is None && failures == runtime.consecutive_failures,
{
}

/// A service that fails is started again after its delay, twice as long
/// after each further failure in a row and never over a minute; after a run
/// of more than a minute the count starts anew.
pub proof fn law_delays_double_up_to_a_minute(
    runtime: WorkloadRuntime,
    invocation: Invocation,
    base_ms: u64,
    now: i64,
    delay_ms: u64,
    failures: u32,
)
    requires
        runtime.consecutive_failures < u32::MAX,
        runtime.restarts_after(invocation, true, base_ms, now, Some(delay_ms), failures),
    ensures
        delay_ms <= 60_000,
        (runtime.started_at matches Some(started) && now - started > 60_000_000_000) ==> failures
            == 1,
        (runtime.started_at matches Some(started) ==> now - started <= 60_000_000_000)
            ==> failures == runtime.consecutive_failures + 1,
        failures == 1 ==> delay_ms == (if base_ms < 60_000 {
            base_ms
        } else {
            60_000
        }),
        failures > 1 ==> delay_ms == (if 2 * backoff_ms(base_ms, (failures - 2) as u32) < 60_000 {
            2 * backoff_ms(base_ms, (failures - 2) as u32)
        } else {
            60_000
        }),
{
    lemma_first_delay(base_ms);
    let counted = failures_before(runtime.consecutive_failures, ran_for(runtime.started_at, now));
    lemma_delay_grows(base_ms, 0, counted as nat);
    if failures > 1 {
        let before: u32 = (failures - 2) as u32;
        lemma_delay_doubles(base_ms, before as nat);
        lemma_delay_grows(base_ms, 0, before as nat);
    }
}

/// An execution succeeded exactly when it completed with exit code 0, or
/// without one.
pub proof fn law_only_clean_exits_succeed(result: ExecutionResult)
    ensures
        succeeded(result) <==> result.completed && (result.exit_code matches Some(code) ==> code
            == 0),
{
}

/// What was stopped is stopped, however it ended; what failed while nobody
/// stopped it is failed; a task that succeeded is completed, and a service
/// that ended by itself is stopped.
pub proof fn law_ends_are_told_apart(service: bool, stopping: bool, ok: bool)
    ensures
        ended_state(service, stopping, ok) == ActualState::Failed <==> !stopping && !ok,
        ended_state(service, stopping, ok) == ActualState::Completed <==> !stopping && ok
            && !service,
        ended_state(service, stopping, ok) == ActualState::Stopped <==> stopping || ok && service,
        ended_kind(service, stopping, ok) == EventKind::ServiceFailed <==> service && !stopping
            && !ok,
        ended_kind(service, stopping, ok) == EventKind::ServiceStopped <==> service && (stopping
            || ok),
        ended_kind(service, stopping, ok) == EventKind::TaskCompleted <==> !service && ok,
        ended_kind(service, stopping, ok) == EventKind::TaskFailed <==> !service && !ok,
{
}

/// An execution that failed while nobody stopped it says why: by its own
/// error, or else by its exit code. One that succeeded, or was stopped,
/// leaves no error but a warning.
pub proof fn law_failures_say_why(
    result: ExecutionResult,
    warning: Option<String>,
    stopping: bool,
)
    ensures
        warning matches Some(text) ==> ended_error(result, warning, stopping) == Some(text@),
        warning is None && (stopping || result.completed && result.exit_code == Some(0i32))
            ==> ended_error(result, warning, stopping) is None,
        warning is None && !stopping && !result.completed ==> ended_error(
            result,
            warning,
            stopping,
        ) is Some,
        warning is None && !stopping ==> (result.exit_code matches Some(code) ==> code != 0
            ==> ended_error(result, warning, stopping) == Some(
            match result.error {
                Some(error) => error@,
                None => "exited with status "@ + signed_text(code as int),
            },
        )),
{
}

/// Compute's port bindings stand over every configured variable: each port
/// of a workload is passed in its own variable, whatever the configuration
/// says, as long as no later port has the same variable.
pub proof fn law_ports_are_passed_to_the_workload(
    own: Map<Seq<Seq<char>>, Seq<char>>,
    environment: Seq<(String, String)>,
    project: Seq<(String, String)>,
    ports: Seq<PortBinding>,
    i: int,
)
    requires
        0 <= i < ports.len(),
        forall|j: int|
            i < j < ports.len() ==> port_variable((#[trigger] ports[j]).name@) != port_variable(
                ports[i].name@,
            ),
        port_variable(ports[i].name@) != "PORT"@,
    ensures
        run_variables(own, environment, project, ports).contains_key(
            key1(port_variable(ports[i].name@)),
        ),
        run_variables(own, environment, project, ports)[key1(port_variable(ports[i].name@))]
            == decimal_text(ports[i].host as nat),
        ports.len() == 1 ==> run_variables(own, environment, project, ports)[key1("PORT"@)]
            == decimal_text(ports[0].host as nat),
{
    let configured = layered(
        layered(own, environment, environment.len()),
        project,
        project.len(),
    );
    lemma_port_stays(configured, ports, ports.len(), i);
    if key1(port_variable(ports[i].name@)) == key1("PORT"@) {
        assert(key1(port_variable(ports[i].name@))[0] == key1("PORT"@)[0]);
    }
}

/// A port's variable stays as long as no later port has the same one.
proof fn lemma_port_stays(
    base: Map<Seq<Seq<char>>, Seq<char>>,
    ports: Seq<PortBinding>,
    n: nat,
    i: int,
)
    requires
        0 <= i < n <= ports.len(),
        forall|j: int|
            i < j < n ==> port_variable((#[trigger] ports[j]).name@) != port_variable(
                ports[i].name@,
            ),
    ensures
        with_ports(base, ports, n).contains_key(key1(port_variable(ports[i].name@))),
        with_ports(base, ports, n)[key1(port_variable(ports[i].name@))] == decimal_text(
            ports[i].host as nat,
        ),
    decreases n,
{
    if i < n - 1 {
        lemma_port_stays(base, ports, (n - 1) as nat, i);
        let last = key1(port_variable(ports[n - 1].name@));
        if last == key1(port_variable(ports[i].name@)) {
            assert(last[0] == key1(port_variable(ports[i].name@))[0]);
        }
    }
}

/// A layer's variables stand over those below it, which show through where
/// the layer has none.
proof fn lemma_layered(
    base: Map<Seq<Seq<char>>, Seq<char>>,
    over: Seq<(String, String)>,
    n: nat,
    name: Seq<char>,
)
    requires
        n <= over.len(),
    ensures
        (forall|i: int| 0 <= i < n ==> (#[trigger] over[i]).0@ != name) ==> {
            &&& layered(base, over, n).contains_key(key1(name)) == base.contains_key(key1(name))
            &&& base.contains_key(key1(name)) ==> layered(base, over, n)[key1(name)]
                == base[key1(name)]
        },
        forall|i: int|
            0 <= i < n && (#[trigger] over[i]).0@ == name && (forall|j: int|
                i < j < n ==> (#[trigger] over[j]).0@ != name) ==> layered(
                base,
                over,
                n,
            ).contains_key(key1(name)) && layered(base, over, n)[key1(name)] == over[i].1@,
    decreases n,
{
    if n > 0 {
        lemma_layered(base, over, (n - 1) as nat, name);
        if key1(over[n - 1].0@) == key1(name) {
            assert(key1(over[n - 1].0@)[0] == key1(name)[0]);
        }
    }
}

/// What the project configures stands over what the environment configures,
/// and that over the workload's own: a variable that no port has is the
/// project's if it has it, else the environment's, else the workload's.
pub proof fn law_projects_override_environments(
    own: Map<Seq<Seq<char>>, Seq<char>>,
    environment: Seq<(String, String)>,
    project: Seq<(String, String)>,
    name: Seq<char>,
)
    requires
        forall|i: int, j: int|
            0 <= i < j < project.len() ==> (#[trigger] project[i]).0@ != (#[trigger] project[j]).0@,
        forall|i: int, j: int|
            0 <= i < j < environment.len() ==> (#[trigger] environment[i]).0@ != (
            #[trigger] environment[j]).0@,
    ensures
        forall|i: int|
            0 <= i < project.len() && (#[trigger] project[i]).0@ == name ==> run_variables(
                own,
                environment,
                project,
                seq![],
            ).contains_key(key1(name)) && run_variables(own, environment, project, seq![])[key1(
                name,
            )] == project[i].1@,
        forall|i: int|
            0 <= i < environment.len() && (#[trigger] environment[i]).0@ == name && (forall|
                j: int,
            |
                0 <= j < project.len() ==> (#[trigger] project[j]).0@ != name) ==> run_variables(
                own,
                environment,
                project,
                seq![],
            ).contains_key(key1(name)) && run_variables(own, environment, project, seq![])[key1(
                name,
            )] == environment[i].1@,
        (forall|i: int| 0 <= i < project.len() ==> (#[trigger] project[i]).0@ != name) && (forall|
            i: int,
        |
            0 <= i < environment.len() ==> (#[trigger] environment[i]).0@ != name) ==> {
            let all = run_variables(own, environment, project, seq![]);
            &&& all.contains_key(key1(name)) == own.contains_key(key1(name))
            &&& own.contains_key(key1(name)) ==> all[key1(name)] == own[key1(name)]
        },
{
    let below = layered(own, environment, environment.len());
    lemma_layered(own, environment, environment.len(), name);
    lemma_layered(below, project, project.len(), name);
}

/// A list of recent items never outgrows its limit, always ends with what
/// was added last, and forgets nothing while there is room.
pub proof fn law_recent_lists_keep_the_newest<T>(list: Seq<T>, item: T, limit: nat)
    requires
        limit > 0,
    ensures
        recent(list.push(item), limit).len() <= limit,
        recent(list.push(item), limit).last() == item,
        list.len() < limit ==> recent(list.push(item), limit) == list.push(item),
{
}

/// Failures are forgotten once a service ran for more than a minute, and
/// only then; one that never started ran for no time.
pub proof fn law_old_failures_are_forgotten(failures: u32, started_at: i64, now: i64)
    ensures
        now - started_at > 60 * 1_000_000_000 ==> failures_before(
            failures,
            ran_for(Some(started_at), now),
        ) == 0,
        now - started_at <= 60 * 1_000_000_000 ==> failures_before(
            failures,
            ran_for(Some(started_at), now),
        ) == failures,
        failures_before(failures, ran_for(None, now)) == failures,
{
}

/// What executed is recorded under what it ran for, as it ended, with its
/// receipt and its placement.
pub proof fn law_executions_are_recorded_as_they_ran(
    record: ExecutionRecord,
    invocation: Invocation,
    result: ExecutionResult,
    placement: PlacementView,
    started_at: Option<i64>,
    error: Option<Seq<char>>,
    now: i64,
)
    requires
        is_execution_record(record, invocation, result, placement, started_at, error, now),
    ensures
        record.execution_id@ == result.execution_id@,
        record.environment_id@ == invocation.environment_id@,
        record.environment@ == invocation.unit.key.0@,
        record.project_id@ == invocation.project_id@,
        record.project@ == invocation.unit.key.1@,
        record.workload_id@ == invocation.workload_id@,
        record.workload@ == invocation.unit.key.2@,
        record.kind is Service <==> invocation.service,
        record.deployment_id == invocation.deployment_id,
        record.status@ == result.status@,
        record.exit_code == result.exit_code,
        started_at matches Some(at) ==> record.started_at == at,
        record.finished_at == Some(now),
        record.receipt_id == result.receipt_id,
        record.placement_id == placement.placement_id,
        record.provider == placement.provider,
        record.error is Some <==> error is Some,
        result.admission matches Some(admission) ==> opt_text(record.admission_id) == Some(
            admission.admission_id@,
        ) && opt_text(record.policy_id) == Some(admission.policy_id@),
{
}

/// An invocation that ended is of its own unit, and of the project and
/// environment its deployment released to; once the deployment is gone it
/// restarts no more.
pub proof fn law_invocations_end_for_their_deployment(
    invocation: Invocation,
    desired: Desired,
    unit: Unit,
    workload_id: Seq<char>,
)
    requires
        is_invocation_of(invocation, desired, unit, workload_id),
    ensures
        invocation.unit.key.0@ == unit.key.0@,
        invocation.unit.key.1@ == unit.key.1@,
        invocation.unit.key.2@ == unit.key.2@,
        invocation.unit.deployment_id@ == unit.deployment_id@,
        !desired.deployments@.contains_key(seq![unit.deployment_id@])
            ==> invocation.restart is None,
        desired.deployments@.contains_key(seq![unit.deployment_id@]) ==> invocation.project_id@
            == desired.deployments@[seq![unit.deployment_id@]].value.project_id@
            && invocation.environment_id@
            == desired.deployments@[seq![unit.deployment_id@]].value.environment_id@
            && invocation.workload_id@ == workload_id,
        !desired.deployments@.contains_key(seq![unit.deployment_id@])
            ==> invocation.project_id@.len() == 0 && invocation.environment_id@.len() == 0
            && invocation.workload_id@.len() == 0,
{
    assert(key1(unit.deployment_id@) =~= seq![unit.deployment_id@]);
    assert(invocation.unit.parts()[0] == invocation.unit.key.0@);
    assert(invocation.unit.parts()[1] == invocation.unit.key.1@);
    assert(invocation.unit.parts()[2] == invocation.unit.key.2@);
    assert(invocation.unit.parts()[3] == invocation.unit.deployment_id@);
}

/// An invocation that ends leaves the unit what it is: its generation, its
/// deployment, its process and where it logs.
pub proof fn law_ending_keeps_what_a_unit_is(before: WorkloadRuntime, after: WorkloadRuntime)
    requires
        before.same_unit(after),
    ensures
        after.service == before.service,
        after.generation == before.generation,
        after.restarts == before.restarts,
        after.deployment_id == before.deployment_id,
        after.started_at == before.started_at,
        after.log_directory == before.log_directory,
        after.health == before.health,
        after.unit_id == before.unit_id,
        after.pid == before.pid,
{
}

/// The end of an execution is told by its kind: a task completed, a service
/// stopped, and everything else failed for its reason.
pub proof fn law_ends_are_told_by_kind(key: Key, kind: EventKind, error: Option<Seq<char>>)
    ensures
        kind == EventKind::TaskCompleted ==> ended_message(key, kind, error) == place_text(key)
            + " completed"@,
        kind == EventKind::ServiceStopped ==> ended_message(key, kind, error) == place_text(key)
            + " stopped"@,
        kind != EventKind::TaskCompleted && kind != EventKind::ServiceStopped ==> (
        error matches Some(reason) ==> ended_message(key, kind, error) == place_text(key)
            + " failed: "@ + reason),
{
}

} // verus!
