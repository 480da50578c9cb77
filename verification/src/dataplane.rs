//! The data plane: where services run and where their stable endpoints
//! listen, behind an explicit boundary the controller drives.
//!
//! The registry exists for process recovery only. It is never a second
//! source of desired state, and it holds no secrets: a unit's configuration
//! is not in its manifest.

use vstd::prelude::*;

use crate::error::{EnvironmentError, Refusal};
use crate::release::Route;
use crate::table::{key1, Table};
use crate::text::{
    alphanumeric, chars_of, copy_option, decimal, decimal_text, is_alphanumeric, join_path,
    last_index, last_index_of, law_numbers_are_read_back, law_pieces_are_divided_by_separators,
    lemma_decimal_digits, lemma_last_index, lemma_pieces, opt_text, parse_number, parsed_number,
    path_text, pieces, same, same_option, slice_of, split, split_words, texts, words,
};

verus! {

/// The supervisor protocol. A controller refuses a supervisor that speaks
/// another version rather than guessing.
pub const SUPERVISOR_PROTOCOL: u32 = 1;

/// How long a supervisor that was started has to answer.
pub const SUPERVISOR_START_MS: u64 = 15_000;

/// Everything needed to recognize and reattach a running unit, and nothing
/// secret.
#[derive(Debug, Clone)]
pub struct UnitManifest {
    /// Unique per start: a restarted unit has a new identifier.
    pub unit_id: String,
    pub environment: String,
    pub project: String,
    pub workload: String,
    pub deployment_id: String,
    pub environment_id: String,
    pub project_id: String,
    pub workload_id: String,
    pub revision: String,
    pub runtime: String,
    pub bundle_identity: String,
    pub dependency_identity: Option<String>,
    /// Instance ports, by name.
    pub ports: Vec<(String, u16)>,
    pub network: String,
    pub isolation: String,
    pub desired_state: String,
    pub log_directory: Option<String>,
    pub placement_id: Option<String>,
    pub provider: Option<String>,
    pub started_at: i64,
}

/// A running process, identified so that a reused PID is never mistaken for
/// it.
#[derive(Debug)]
pub struct ProcessIdentity {
    pub pid: u32,
    pub boot_id: Option<String>,
    pub start_time: Option<u64>,
}

impl Clone for ProcessIdentity {
    fn clone(&self) -> (r: Self)
        ensures
            r == *self,
    {
        ProcessIdentity {
            pid: self.pid,
            boot_id: copy_option(&self.boot_id),
            start_time: self.start_time,
        }
    }
}

/// How a unit ended.
#[derive(Debug, Clone)]
pub enum UnitOutcome {
    /// It executed; the response, as a document.
    Executed { response: String },
    /// The runtime could not run it; nothing executed. When admission
    /// refused it at execution, the decision says why.
    Failed { message: String, admission: Option<String> },
    /// Its process was left behind by a supervisor that died, and was
    /// stopped; its result is unknown.
    Orphaned { message: String },
}

/// A unit as the supervisor sees it.
#[derive(Debug, Clone)]
pub struct UnitStatus {
    pub manifest: UnitManifest,
    pub process: Option<ProcessIdentity>,
    /// How it ended, until that is acknowledged.
    pub outcome: Option<UnitOutcome>,
    pub finished_at: Option<i64>,
}

impl UnitStatus {
    pub open spec fn state_text(self) -> Seq<char> {
        if self.outcome is Some {
            "exited"@
        } else {
            "running"@
        }
    }

    /// `running`, or `exited` with an outcome not yet acknowledged.
    pub fn state(&self) -> (r: &'static str)
        ensures
            r@ == self.state_text(),
    {
        if self.outcome.is_some() {
            "exited"
        } else {
            "running"
        }
    }
}

/// An endpoint as the data plane serves it.
#[derive(Debug, PartialEq, Eq)]
pub struct RouteStatus {
    pub port: u16,
    pub instance_id: String,
    pub target_port: u16,
    pub listening: bool,
    pub open_connections: usize,
    pub served_connections: u64,
}

/// Who the supervisor is.
#[derive(Debug)]
pub struct DataPlaneInfo {
    /// `in_process` or `supervisor`.
    pub kind: String,
    pub protocol: u32,
    pub pid: u32,
    pub version: String,
    pub build_id: Option<String>,
    pub started_at: i64,
    pub units: usize,
    pub routes: usize,
    /// Units a previous supervisor left behind and this one stopped.
    pub orphans_stopped: usize,
}

// ---- Processes --------------------------------------------------------------

/// Whether an identity names a live process, seen with this boot and start
/// time: the same boot, the same start time. A reused PID never matches.
pub open spec fn is_same_process(
    process: ProcessIdentity,
    boot_id: Option<Seq<char>>,
    start_time: Option<u64>,
) -> bool {
    &&& process.boot_id is Some
    &&& opt_text(process.boot_id) == boot_id
    &&& process.start_time is Some
    &&& process.start_time == start_time
}

pub fn same_process(
    process: &ProcessIdentity,
    boot_id: &Option<String>,
    start_time: Option<u64>,
) -> (r: bool)
    ensures
        r == is_same_process(*process, opt_text(*boot_id), start_time),
{
    process.boot_id.is_some() && same_option(&process.boot_id, boot_id) && match (
        process.start_time,
        start_time,
    ) {
        (Some(recorded), Some(seen)) => recorded == seen,
        _ => false,
    }
}

/// The start time in what the kernel says of a process: the twentieth word
/// after the command, which stands in parentheses.
pub open spec fn stat_start_time(stat: Seq<char>) -> Option<nat> {
    match last_index(stat, ')', stat.len()) {
        Some(i) => if i + 2 <= stat.len() {
            let fields = words(stat.skip(i + 2));
            if fields.len() > 19 {
                parsed_number(fields[19], u64::MAX as nat)
            } else {
                None
            }
        } else {
            None
        },
        None => None,
    }
}

/// Read a process's start time, in clock ticks, out of what the kernel says
/// of it.
pub fn parse_start_time(stat: &str) -> (r: Option<u64>)
    ensures
        match r {
            Some(ticks) => stat_start_time(stat@) == Some(ticks as nat),
            None => stat_start_time(stat@) is None,
        },
{
    let text = chars_of(stat);
    let size: usize = text.len();
    let at: usize = match last_index_of(&text, ')') {
        Some(at) => at,
        None => {
            return None;
        },
    };
    if at + 1 >= size {
        return None;
    }
    proof {
        assert(text@.subrange(at + 2, size as int) =~= text@.skip(at + 2));
    }
    let fields = split_words(&chars_of(&slice_of(&text, at + 2, size)));
    proof {
        assert(texts(fields@).len() == fields@.len());
    }
    if fields.len() > 19 {
        proof {
            assert(texts(fields@)[19] == fields@[19]@);
        }
        parse_number(&chars_of(&fields[19]), u64::MAX)
    } else {
        None
    }
}

/// The status in the first line of an HTTP response: its second word.
pub open spec fn response_status(head: Seq<char>) -> Option<nat> {
    let parts = pieces(head, ' ');
    if parts.len() > 1 {
        parsed_number(parts[1], 65535)
    } else {
        None
    }
}

pub fn parse_status(head: &str) -> (r: Option<u16>)
    ensures
        match r {
            Some(status) => response_status(head@) == Some(status as nat),
            None => response_status(head@) is None,
        },
{
    let parts = split(&chars_of(head), ' ');
    proof {
        assert(texts(parts@).len() == parts@.len());
    }
    if parts.len() > 1 {
        proof {
            assert(texts(parts@)[1] == parts@[1]@);
        }
        match parse_number(&chars_of(&parts[1]), 65535) {
            Some(status) => Some(status as u16),
            None => None,
        }
    } else {
        None
    }
}

// ---- Files ------------------------------------------------------------------

/// A character as it stands in a file name.
pub open spec fn file_char(c: char) -> char {
    if is_alphanumeric(c) || c == '-' || c == '_' {
        c
    } else {
        '_'
    }
}

/// A unit's identifier as a file name.
pub open spec fn file_name_text(unit_id: Seq<char>) -> Seq<char> {
    unit_id.map_values(|c: char| file_char(c))
}

pub fn file_name(unit_id: &str) -> (r: String)
    ensures
        r@ == file_name_text(unit_id@),
{
    let text = chars_of(unit_id);
    let mut r = String::new();
    let mut i: usize = 0;
    while i < text.len()
        invariant
            i <= text@.len(),
            r@ == file_name_text(text@).take(i as int),
        decreases text@.len() - i,
    {
        let c = text[i];
        let kept: char = if alphanumeric(c) || c == '-' || c == '_' {
            c
        } else {
            '_'
        };
        r.push(kept);
        proof {
            assert(file_name_text(text@).take(i + 1) =~= file_name_text(text@).take(i as int).push(
                kept,
            ));
        }
        i += 1;
    }
    proof {
        assert(file_name_text(text@).take(i as int) =~= file_name_text(text@));
    }
    r
}

/// Where a registry keeps a document of a unit.
pub open spec fn unit_file(registry: Seq<char>, directory: Seq<char>, unit_id: Seq<char>) -> Seq<char> {
    path_text(path_text(registry, directory), file_name_text(unit_id) + ".json"@)
}

/// Where a registry keeps a running unit.
pub fn unit_path(registry: &str, unit_id: &str) -> (r: String)
    ensures
        r@ == unit_file(registry@, "units"@, unit_id@),
{
    join_path(&join_path(registry, "units"), &file_name(unit_id).concat(".json"))
}

/// Where a registry keeps an outcome that was not acknowledged.
pub fn outcome_path(registry: &str, unit_id: &str) -> (r: String)
    ensures
        r@ == unit_file(registry@, "outcomes"@, unit_id@),
{
    join_path(&join_path(registry, "outcomes"), &file_name(unit_id).concat(".json"))
}

/// The node-local socket a supervisor serves in a state directory.
pub fn socket_path(state_dir: &str) -> (r: String)
    ensures
        r@ == path_text(state_dir@, "supervisor.sock"@),
{
    join_path(state_dir, "supervisor.sock")
}

// ---- Units ------------------------------------------------------------------

/// The units a supervisor runs, and how those that ended did, until the
/// controller acknowledges it.
pub struct UnitRegistry {
    pub units: Table<String, UnitStatus>,
}

/// What is known of units, by what names them.
pub type Units = Map<Seq<Seq<char>>, UnitStatus>;

/// What happens to a registered unit.
pub ghost enum UnitStep {
    Start(UnitManifest),
    Started(Seq<char>, Option<ProcessIdentity>),
    Ended(Seq<char>, UnitOutcome),
    Wait(Seq<char>, i64),
    Ack(Seq<char>),
}

/// What is known of units once one thing more happened.
pub open spec fn after_step(units: Units, step: UnitStep) -> Units {
    match step {
        UnitStep::Start(manifest) => {
            let key = key1(manifest.unit_id@);
            if units.contains_key(key) {
                units
            } else {
                units.insert(
                    key,
                    UnitStatus { manifest, process: None, outcome: None, finished_at: None },
                )
            }
        },
        UnitStep::Started(id, process) => {
            let key = key1(id);
            if units.contains_key(key) {
                units.insert(key, UnitStatus { process, ..units[key] })
            } else {
                units
            }
        },
        UnitStep::Ended(id, outcome) => {
            let key = key1(id);
            if units.contains_key(key) && units[key].outcome is None {
                units.insert(key, UnitStatus { outcome: Some(outcome), ..units[key] })
            } else {
                units
            }
        },
        UnitStep::Wait(id, now) => {
            let key = key1(id);
            if units.contains_key(key) && units[key].outcome is Some
                && units[key].finished_at is None {
                units.insert(key, UnitStatus { finished_at: Some(now), ..units[key] })
            } else {
                units
            }
        },
        UnitStep::Ack(id) => {
            let key = key1(id);
            if units.contains_key(key) && units[key].outcome is Some {
                units.remove(key)
            } else {
                units
            }
        },
    }
}

/// What is known of units once the first `n` steps happened.
pub open spec fn after_steps(units: Units, steps: Seq<UnitStep>, n: nat) -> Units
    decreases n,
{
    if n == 0 {
        units
    } else {
        after_step(after_steps(units, steps, (n - 1) as nat), steps[n - 1])
    }
}

impl UnitRegistry {
    pub open spec fn has(self, unit_id: Seq<char>) -> bool {
        self.units@.contains_key(key1(unit_id))
    }

    pub open spec fn unit(self, unit_id: Seq<char>) -> UnitStatus {
        self.units@[key1(unit_id)]
    }

    pub fn new() -> (r: Self)
        ensures
            r.units@ == Map::<Seq<Seq<char>>, UnitStatus>::empty(),
    {
        UnitRegistry { units: Table::new() }
    }

    /// Register a unit that is about to start. A unit identifier is started
    /// at most once.
    pub fn start(&mut self, manifest: UnitManifest) -> (r: Result<(), EnvironmentError>)
        ensures
            if old(self).has(manifest.unit_id@) {
                r matches Err(error) && error.reports(
                    Refusal::Conflict(
                        "unit "@ + manifest.unit_id@ + " was already started"@,
                    ),
                )
            } else {
                r is Ok
            },
            final(self).units@ == after_step(old(self).units@, UnitStep::Start(manifest)),
    {
        if self.units.at(&manifest.unit_id).is_some() {
            let mut text = "unit ".to_owned();
            text.append(&manifest.unit_id);
            text.append(" was already started");
            return Err(EnvironmentError::Conflict(text));
        }
        let id = manifest.unit_id.clone();
        self.units.insert(
            id,
            UnitStatus { manifest, process: None, outcome: None, finished_at: None },
        );
        Ok(())
    }

    /// A unit's process exists, or never came to. Returns whether the unit
    /// still runs.
    pub fn started(&mut self, unit_id: &str, process: Option<ProcessIdentity>) -> (r: bool)
        ensures
            r == (old(self).has(unit_id@) && old(self).unit(unit_id@).outcome is None),
            final(self).units@ == after_step(
                old(self).units@,
                UnitStep::Started(unit_id@, process),
            ),
    {
        let ghost before = self.units@;
        match self.units.remove(&unit_id.to_owned()) {
            Some(status) => {
                let mut status = status;
                let running = status.outcome.is_none();
                status.process = process;
                self.units.insert(unit_id.to_owned(), status);
                proof {
                    assert(self.units@ =~= before.insert(key1(unit_id@), status));
                }
                running
            },
            None => {
                proof {
                    assert(self.units@ =~= before);
                }
                false
            },
        }
    }

    /// A unit ended. Its first outcome stays.
    pub fn ended(&mut self, unit_id: &str, outcome: UnitOutcome)
        ensures
            final(self).units@ == after_step(old(self).units@, UnitStep::Ended(unit_id@, outcome)),
    {
        let ghost before = self.units@;
        match self.units.remove(&unit_id.to_owned()) {
            Some(status) => {
                let mut status = status;
                if status.outcome.is_none() {
                    status.outcome = Some(outcome);
                }
                self.units.insert(unit_id.to_owned(), status);
                proof {
                    assert(self.units@ =~= before.insert(key1(unit_id@), status));
                    if before[key1(unit_id@)].outcome is Some {
                        assert(self.units@ =~= before);
                    }
                }
            },
            None => {
                proof {
                    assert(self.units@ =~= before);
                }
            },
        }
    }

    /// How a unit ended, if it did. The outcome is kept until it is
    /// acknowledged, so a controller that dies before recording it finds it
    /// again; the first time it is asked for is kept as when it finished.
    pub fn wait(&mut self, unit_id: &str, now: i64) -> (r: Result<bool, EnvironmentError>)
        ensures
            if old(self).has(unit_id@) {
                r == Ok::<bool, EnvironmentError>(old(self).unit(unit_id@).outcome is Some)
            } else {
                r matches Err(error) && error.reports(Refusal::NotFound("unit "@ + unit_id@))
            },
            final(self).units@ == after_step(old(self).units@, UnitStep::Wait(unit_id@, now)),
    {
        let ghost before = self.units@;
        match self.units.remove(&unit_id.to_owned()) {
            Some(status) => {
                let mut status = status;
                let ended = status.outcome.is_some();
                if ended && status.finished_at.is_none() {
                    status.finished_at = Some(now);
                }
                self.units.insert(unit_id.to_owned(), status);
                proof {
                    assert(self.units@ =~= before.insert(key1(unit_id@), status));
                    if !(ended && before[key1(unit_id@)].finished_at is None) {
                        assert(self.units@ =~= before);
                    }
                }
                Ok(ended)
            },
            None => {
                proof {
                    assert(self.units@ =~= before);
                }
                let mut text = "unit ".to_owned();
                text.append(unit_id);
                Err(EnvironmentError::NotFound(text))
            },
        }
    }

    /// The controller recorded an outcome durably; forget it. A unit that
    /// still runs is kept. Returns whether a unit was forgotten.
    pub fn ack(&mut self, unit_id: &str) -> (r: bool)
        ensures
            r == (old(self).has(unit_id@) && old(self).unit(unit_id@).outcome is Some),
            final(self).units@ == after_step(old(self).units@, UnitStep::Ack(unit_id@)),
    {
        let ended = match self.units.at(unit_id) {
            Some(status) => status.outcome.is_some(),
            None => false,
        };
        if ended {
            self.units.remove(&unit_id.to_owned());
        }
        ended
    }

    /// Take over an outcome that a previous supervisor kept.
    pub fn restore(&mut self, status: UnitStatus)
        ensures
            final(self).units@ == old(self).units@.insert(
                key1(status.manifest.unit_id@),
                status,
            ),
    {
        self.units.insert(status.manifest.unit_id.clone(), status);
    }

    /// Take over a unit a previous supervisor was running. Its process
    /// cannot be supervised, so one that is still alive is to be stopped;
    /// either way the unit was orphaned. One whose outcome is known stays.
    pub fn adopt(&mut self, status: UnitStatus, alive: bool, now: i64) -> (r: Adopted)
        ensures
            ({
                let id = status.manifest.unit_id@;
                if old(self).has(id) {
                    r is Known && final(self).units@ == old(self).units@
                } else {
                    let left = match status.process {
                        Some(process) => alive,
                        None => false,
                    };
                    &&& r == (if left {
                        Adopted::Stop(status.process->0.pid)
                    } else {
                        Adopted::Ended
                    })
                    &&& final(self).has(id)
                    &&& final(self).unit(id) == (UnitStatus {
                        outcome: final(self).unit(id).outcome,
                        finished_at: Some(now),
                        ..status
                    })
                    &&& final(self).unit(id).outcome matches Some(
                        UnitOutcome::Orphaned { message },
                    )
                    &&& message@ == (if left {
                        left_behind_text(status.process->0.pid)
                    } else {
                        "its process ended while no supervisor was running"@
                    })
                    &&& final(self).units@.remove(key1(id)) == old(self).units@
                }
            }),
    {
        if self.units.at(&status.manifest.unit_id).is_some() {
            return Adopted::Known;
        }
        let ghost before = self.units@;
        let (adopted, message) = match &status.process {
            Some(process) => if alive {
                let mut text = "process ".to_owned();
                text.append(&decimal(process.pid as u64));
                text.append(
                    " was left by a supervisor that stopped; it was stopped so it cannot run twice",
                );
                (Adopted::Stop(process.pid), text)
            } else {
                (
                    Adopted::Ended,
                    "its process ended while no supervisor was running".to_owned(),
                )
            },
            None => (
                Adopted::Ended,
                "its process ended while no supervisor was running".to_owned(),
            ),
        };
        let id = status.manifest.unit_id.clone();
        let mut status = status;
        status.outcome = Some(UnitOutcome::Orphaned { message });
        status.finished_at = Some(now);
        self.units.insert(id, status);
        proof {
            assert(self.units@.remove(key1(status.manifest.unit_id@)) =~= before);
        }
        adopted
    }
}

pub open spec fn left_behind_text(pid: u32) -> Seq<char> {
    "process "@ + decimal_text(pid as nat)
        + " was left by a supervisor that stopped; it was stopped so it cannot run twice"@
}

/// What is done about a unit a previous supervisor was running.
#[derive(Debug, Clone, Copy, PartialEq, Eq, Structural)]
pub enum Adopted {
    /// Its outcome is known.
    Known,
    /// It ended.
    Ended,
    /// Its process group is still there and is to be stopped.
    Stop(u32),
}

// ---- Routes -----------------------------------------------------------------

/// Whether two routes lead to the same place.
pub open spec fn is_same_route(a: Route, b: Route) -> bool {
    a.instance_id@ == b.instance_id@ && a.target_port == b.target_port
}

/// Whether entries are in strictly ascending order of port, so no port
/// occurs twice.
pub open spec fn by_port(entries: Seq<(u16, Route)>) -> bool {
    forall|i: int, j: int|
        0 <= i < j < entries.len() ==> (#[trigger] entries[i]).0 < (#[trigger] entries[j]).0
}

/// Whether some entry has the port.
pub open spec fn has_port(entries: Seq<(u16, Route)>, port: u16) -> bool {
    exists|i: int| 0 <= i < entries.len() && (#[trigger] entries[i]).0 == port
}

/// The position of an entry with the port.
pub open spec fn entry_of(entries: Seq<(u16, Route)>, port: u16) -> int {
    choose|i: int| 0 <= i < entries.len() && (#[trigger] entries[i]).0 == port
}

/// The mapping entries describe.
pub open spec fn routes_of(entries: Seq<(u16, Route)>) -> Map<u16, Route> {
    Map::new(|port: u16| has_port(entries, port), |port: u16| entries[entry_of(entries, port)].1)
}

proof fn lemma_entry(entries: Seq<(u16, Route)>, i: int)
    requires
        by_port(entries),
        0 <= i < entries.len(),
    ensures
        has_port(entries, entries[i].0),
        entry_of(entries, entries[i].0) == i,
{
    let j = entry_of(entries, entries[i].0);
    assert(entries[i].0 == entries[i].0);
    assert(0 <= j < entries.len() && entries[j].0 == entries[i].0);
}

/// The entries among the first `n` whose ports are kept.
spec fn kept_entries(entries: Seq<(u16, Route)>, keep: Seq<u16>, n: nat) -> Seq<(u16, Route)>
    decreases n,
{
    if n == 0 {
        Seq::empty()
    } else {
        let before = kept_entries(entries, keep, (n - 1) as nat);
        if keep.contains(entries[n - 1].0) {
            before.push(entries[n - 1])
        } else {
            before
        }
    }
}

/// Whether every one of the first `n` ports is kept.
spec fn all_kept(entries: Seq<(u16, Route)>, keep: Seq<u16>, n: nat) -> bool
    decreases n,
{
    n == 0 || (all_kept(entries, keep, (n - 1) as nat) && keep.contains(entries[n - 1].0))
}

/// Whether an entry is one of the first `n` whose ports are kept.
spec fn is_kept_entry(
    entries: Seq<(u16, Route)>,
    keep: Seq<u16>,
    n: nat,
    entry: (u16, Route),
) -> bool {
    exists|i: int| 0 <= i < n && (#[trigger] entries[i]) == entry && keep.contains(entries[i].0)
}

proof fn lemma_kept_entries(entries: Seq<(u16, Route)>, keep: Seq<u16>, n: nat)
    requires
        by_port(entries),
        n <= entries.len(),
    ensures
        by_port(kept_entries(entries, keep, n)),
        forall|a: int|
            0 <= a < kept_entries(entries, keep, n).len() ==> is_kept_entry(
                entries,
                keep,
                n,
                #[trigger] kept_entries(entries, keep, n)[a],
            ),
        forall|i: int|
            0 <= i < n && keep.contains((#[trigger] entries[i]).0) ==> kept_entries(
                entries,
                keep,
                n,
            ).contains(entries[i]),
        all_kept(entries, keep, n) <==> forall|i: int|
            0 <= i < n ==> keep.contains((#[trigger] entries[i]).0),
    decreases n,
{
    if n > 0 {
        lemma_kept_entries(entries, keep, (n - 1) as nat);
        let before = kept_entries(entries, keep, (n - 1) as nat);
        let after = kept_entries(entries, keep, n);
        assert forall|a: int| 0 <= a < after.len() implies is_kept_entry(
            entries,
            keep,
            n,
            #[trigger] after[a],
        ) by {
            if a < before.len() {
                assert(after[a] == before[a]);
                assert(is_kept_entry(entries, keep, (n - 1) as nat, before[a]));
                let i = choose|i: int|
                    0 <= i < n - 1 && (#[trigger] entries[i]) == before[a] && keep.contains(
                        entries[i].0,
                    );
                assert(entries[i] == after[a]);
            } else {
                assert(after[a] == entries[n - 1]);
            }
        }
        assert forall|i: int|
            0 <= i < n && keep.contains((#[trigger] entries[i]).0) implies after.contains(
            entries[i],
        ) by {
            if i == n - 1 {
                assert(after[after.len() - 1] == entries[i]);
            } else {
                assert(before.contains(entries[i]));
                let a = choose|a: int| 0 <= a < before.len() && before[a] == entries[i];
                assert(after[a] == entries[i]);
            }
        }
        assert forall|a: int, b: int| 0 <= a < b < after.len() implies (#[trigger] after[a]).0 < (
        #[trigger] after[b]).0 by {
            if b < before.len() {
                assert(after[a] == before[a] && after[b] == before[b]);
            } else {
                assert(after[a] == before[a]);
                assert(is_kept_entry(entries, keep, (n - 1) as nat, before[a]));
                let i = choose|i: int|
                    0 <= i < n - 1 && (#[trigger] entries[i]) == before[a] && keep.contains(
                        entries[i].0,
                    );
                assert(after[b] == entries[n - 1]);
                assert(entries[i].0 < entries[n - 1].0);
            }
        }
    }
}

/// What the kept entries map, and whether any was dropped.
proof fn lemma_kept_map(start: Seq<(u16, Route)>, after: Seq<(u16, Route)>, keep: Seq<u16>)
    requires
        by_port(start),
        after == kept_entries(start, keep, start.len()),
    ensures
        by_port(after),
        forall|port: u16| #[trigger]
            routes_of(after).contains_key(port) <==> routes_of(start).contains_key(port)
                && keep.contains(port),
        forall|port: u16| #[trigger]
            routes_of(after).contains_key(port) ==> routes_of(after)[port] == routes_of(
                start,
            )[port],
        all_kept(start, keep, start.len()) <==> !exists|port: u16| #[trigger]
            routes_of(start).contains_key(port) && !keep.contains(port),
{
    lemma_kept_entries(start, keep, start.len());
    assert forall|port: u16| #[trigger] routes_of(after).contains_key(port) implies {
        &&& routes_of(start).contains_key(port)
        &&& keep.contains(port)
        &&& routes_of(after)[port] == routes_of(start)[port]
    } by {
        let a = entry_of(after, port);
        assert(is_kept_entry(start, keep, start.len(), after[a]));
        let i = choose|i: int|
            0 <= i < start.len() && (#[trigger] start[i]) == after[a] && keep.contains(start[i].0);
        lemma_entry(start, i);
    }
    assert forall|port: u16|
        routes_of(start).contains_key(port) && keep.contains(port) implies #[trigger] routes_of(
        after,
    ).contains_key(port) by {
        let i = entry_of(start, port);
        assert(start[i].0 == port);
        assert(after.contains(start[i]));
        let a = choose|a: int| 0 <= a < after.len() && after[a] == start[i];
        assert(after[a].0 == port);
    }
    if all_kept(start, keep, start.len()) {
        assert forall|port: u16| #[trigger] routes_of(start).contains_key(port) implies keep.contains(
            port,
        ) by {
            let i = entry_of(start, port);
            assert(start[i].0 == port);
        }
    } else {
        let i = choose|i: int| 0 <= i < start.len() && !keep.contains((#[trigger] start[i]).0);
        lemma_entry(start, i);
        assert(routes_of(start).contains_key(start[i].0));
    }
}

/// What the listener of a port reports of its route.
#[derive(Debug, Clone, Copy, PartialEq, Eq, Structural)]
pub struct Seen {
    /// Whether it forwards anywhere.
    pub routed: bool,
    /// Connections open to, and served by, the route's instance.
    pub open_connections: usize,
    pub served_connections: u64,
}

/// What is reported of a route: of one that nothing reports on, that it
/// forwards nowhere.
pub open spec fn seen_of(seen: Seq<Seen>, i: int) -> Seen {
    if i < seen.len() {
        seen[i]
    } else {
        Seen { routed: false, open_connections: 0, served_connections: 0 }
    }
}

/// A route as it is served.
pub open spec fn served_route(entry: (u16, Route), listening: Seq<u16>, seen: Seen) -> RouteStatus {
    RouteStatus {
        port: entry.0,
        instance_id: entry.1.instance_id,
        target_port: entry.1.target_port,
        listening: listening.contains(entry.0) && seen.routed,
        open_connections: seen.open_connections,
        served_connections: seen.served_connections,
    }
}

/// Where each host port forwards to, in order of port.
pub struct RouteTable {
    entries: Vec<(u16, Route)>,
}

impl View for RouteTable {
    type V = Map<u16, Route>;

    open spec fn view(&self) -> Map<u16, Route> {
        routes_of(self.rows())
    }
}

impl RouteTable {
    /// The entries, in order of port.
    pub closed spec fn rows(self) -> Seq<(u16, Route)> {
        self.entries@
    }

    #[verifier::type_invariant]
    pub closed spec fn wf(self) -> bool {
        by_port(self.entries@)
    }

    pub fn new() -> (r: Self)
        ensures
            r@ == Map::<u16, Route>::empty(),
    {
        let r = RouteTable { entries: Vec::new() };
        proof {
            assert(r@ =~= Map::<u16, Route>::empty());
        }
        r
    }

    /// Route a port. Returns whether that changed anything.
    pub fn assign(&mut self, port: u16, route: Route) -> (r: bool)
        ensures
            final(self)@ == old(self)@.insert(port, route),
            r == !(old(self)@.contains_key(port) && is_same_route(old(self)@[port], route)),
    {
        proof {
            use_type_invariant(&*self);
        }
        let ghost before = self.entries@;
        let mut entries: Vec<(u16, Route)> = Vec::new();
        std::mem::swap(&mut entries, &mut self.entries);
        let mut i: usize = 0;
        while i < entries.len() && entries[i].0 < port
            invariant
                i <= entries@.len(),
                entries@ == before,
                forall|j: int| 0 <= j < i ==> (#[trigger] before[j]).0 < port,
            decreases entries@.len() - i,
        {
            i += 1;
        }
        let present = i < entries.len() && entries[i].0 == port;
        let mut changed = true;
        if present {
            proof {
                lemma_entry(before, i as int);
            }
            let entry = entries.remove(i);
            changed = !(same(&entry.1.instance_id, &route.instance_id) && entry.1.target_port
                == route.target_port);
        } else {
            proof {
                if has_port(before, port) {
                    let j = entry_of(before, port);
                    assert(before[j].0 == port);
                }
            }
        }
        entries.insert(i, (port, route));
        proof {
            let after = entries@;
            let shift = if present {
                0int
            } else {
                1int
            };
            assert forall|j: int| 0 <= j < i implies after[j] == before[j] by {}
            assert(after[i as int] == (port, route));
            assert forall|j: int| i < j < after.len() implies (#[trigger] after[j]) == before[j
                - shift] by {}
            assert(by_port(after));
            assert(routes_of(after) =~= routes_of(before).insert(port, route)) by {
                assert forall|p: u16| #[trigger]
                    routes_of(after).contains_key(p) <==> routes_of(before).insert(
                        port,
                        route,
                    ).contains_key(p) by {
                    if has_port(after, p) {
                        let j = entry_of(after, p);
                        if j < i {
                            assert(before[j].0 == p);
                        } else if j > i {
                            assert(before[j - shift].0 == p);
                        }
                    }
                    if p == port {
                        assert(after[i as int].0 == p);
                    } else if has_port(before, p) {
                        let j = entry_of(before, p);
                        if j < i {
                            assert(after[j].0 == p);
                        } else {
                            assert(after[j + shift] == before[j]);
                        }
                    }
                }
                assert forall|p: u16| #[trigger]
                    routes_of(after).contains_key(p) implies routes_of(after)[p] == routes_of(
                    before,
                ).insert(port, route)[p] by {
                    let j = entry_of(after, p);
                    if j < i {
                        lemma_entry(before, j);
                    } else if j > i {
                        lemma_entry(before, j - shift);
                    }
                }
            }
        }
        self.entries = entries;
        changed
    }

    /// Keep only the given ports. Returns whether that changed anything.
    pub fn retain(&mut self, keep: &Vec<u16>) -> (r: bool)
        ensures
            forall|port: u16| #[trigger]
                final(self)@.contains_key(port) <==> old(self)@.contains_key(port)
                    && keep@.contains(port),
            forall|port: u16| #[trigger]
                final(self)@.contains_key(port) ==> final(self)@[port] == old(self)@[port],
            r == (exists|port: u16| #[trigger]
                old(self)@.contains_key(port) && !keep@.contains(port)),
    {
        proof {
            use_type_invariant(&*self);
        }
        let ghost start = self.entries@;
        let mut entries: Vec<(u16, Route)> = Vec::new();
        std::mem::swap(&mut entries, &mut self.entries);
        let mut turned: Vec<(u16, Route)> = Vec::new();
        while entries.len() > 0
            invariant
                entries@.len() + turned@.len() == start.len(),
                entries@ == start.take(entries@.len() as int),
                forall|k: int|
                    0 <= k < turned@.len() ==> (#[trigger] turned@[k]) == start[start.len() - 1 - k],
            decreases entries@.len(),
        {
            if let Some(entry) = entries.pop() {
                proof {
                    assert(entries@ =~= start.take(entries@.len() as int));
                }
                turned.push(entry);
            }
        }
        let mut changed = false;
        let mut kept: Vec<(u16, Route)> = Vec::new();
        while turned.len() > 0
            invariant
                turned@.len() <= start.len(),
                forall|k: int|
                    0 <= k < turned@.len() ==> (#[trigger] turned@[k]) == start[start.len() - 1 - k],
                kept@ == kept_entries(start, keep@, (start.len() - turned@.len()) as nat),
                changed == !all_kept(start, keep@, (start.len() - turned@.len()) as nat),
            decreases turned@.len(),
        {
            if let Some(entry) = turned.pop() {
                if crate::ports::has_port(keep, entry.0) {
                    kept.push(entry);
                } else {
                    changed = true;
                }
            }
        }
        proof {
            lemma_kept_entries(start, keep@, start.len());
            lemma_kept_map(start, kept@, keep@);
            if changed {
                let port = choose|port: u16| #[trigger]
                    routes_of(start).contains_key(port) && !keep@.contains(port);
                assert(old(self)@.contains_key(port) && !keep@.contains(port));
            }
        }
        self.entries = kept;
        changed
    }

    /// The routes as they are recorded, for a supervisor that takes over.
    pub fn saved(&self) -> (r: Vec<RouteStatus>)
        ensures
            by_port(self.rows()),
            r@.len() == self.rows().len(),
            forall|i: int|
                0 <= i < r@.len() ==> (#[trigger] r@[i]) == (RouteStatus {
                    port: self.rows()[i].0,
                    instance_id: self.rows()[i].1.instance_id,
                    target_port: self.rows()[i].1.target_port,
                    listening: true,
                    open_connections: 0,
                    served_connections: 0,
                }),
    {
        proof {
            use_type_invariant(self);
        }
        let mut r: Vec<RouteStatus> = Vec::new();
        let mut i: usize = 0;
        while i < self.entries.len()
            invariant
                i <= self.entries@.len(),
                r@.len() == i,
                forall|j: int|
                    0 <= j < i ==> (#[trigger] r@[j]) == (RouteStatus {
                        port: self.entries@[j].0,
                        instance_id: self.entries@[j].1.instance_id,
                        target_port: self.entries@[j].1.target_port,
                        listening: true,
                        open_connections: 0,
                        served_connections: 0,
                    }),
            decreases self.entries@.len() - i,
        {
            r.push(
                RouteStatus {
                    port: self.entries[i].0,
                    instance_id: self.entries[i].1.instance_id.clone(),
                    target_port: self.entries[i].1.target_port,
                    listening: true,
                    open_connections: 0,
                    served_connections: 0,
                },
            );
            i += 1;
        }
        r
    }

    /// The routes as they are served. `listening` are the ports that are
    /// listened on, and `seen` is what the listeners report of each route,
    /// in order of port.
    pub fn statuses(&self, listening: &Vec<u16>, seen: &Vec<Seen>) -> (r: Vec<RouteStatus>)
        ensures
            r@.len() == self.rows().len(),
            forall|i: int|
                0 <= i < r@.len() ==> (#[trigger] r@[i]) == served_route(
                    self.rows()[i],
                    listening@,
                    seen_of(seen@, i),
                ),
    {
        let mut r: Vec<RouteStatus> = Vec::new();
        let mut i: usize = 0;
        while i < self.entries.len()
            invariant
                i <= self.entries@.len(),
                r@.len() == i,
                forall|j: int|
                    0 <= j < i ==> (#[trigger] r@[j]) == served_route(
                        self.entries@[j],
                        listening@,
                        seen_of(seen@, j),
                    ),
            decreases self.entries@.len() - i,
        {
            let sight = if i < seen.len() {
                seen[i]
            } else {
                Seen { routed: false, open_connections: 0, served_connections: 0 }
            };
            let port = self.entries[i].0;
            r.push(
                RouteStatus {
                    port,
                    instance_id: self.entries[i].1.instance_id.clone(),
                    target_port: self.entries[i].1.target_port,
                    listening: crate::ports::has_port(listening, port) && sight.routed,
                    open_connections: sight.open_connections,
                    served_connections: sight.served_connections,
                },
            );
            i += 1;
        }
        r
    }
}

/// Who a supervisor is that runs these units and serves these routes.
pub fn data_plane_info(
    registry: &UnitRegistry,
    routes: &RouteTable,
    kind: &str,
    pid: u32,
    version: &str,
    build_id: Option<String>,
    started_at: i64,
    orphans_stopped: usize,
) -> (r: DataPlaneInfo)
    ensures
        r.kind@ == kind@,
        r.protocol == SUPERVISOR_PROTOCOL,
        r.pid == pid,
        r.version@ == version@,
        r.build_id == build_id,
        r.started_at == started_at,
        r.units == registry.units.rows().len(),
        r.routes == routes.rows().len(),
        r.orphans_stopped == orphans_stopped,
{
    DataPlaneInfo {
        kind: kind.to_owned(),
        protocol: SUPERVISOR_PROTOCOL,
        pid,
        version: version.to_owned(),
        build_id,
        started_at,
        units: registry.units.len(),
        routes: routes.entries.len(),
        orphans_stopped,
    }
}

/// The routes a supervisor serves that took over the first `n` recorded
/// ones.
pub open spec fn taken_over(recorded: Seq<RouteStatus>, n: nat) -> Map<u16, Route>
    decreases n,
{
    if n == 0 {
        Map::empty()
    } else {
        taken_over(recorded, (n - 1) as nat).insert(
            recorded[n - 1].port,
            Route {
                instance_id: recorded[n - 1].instance_id,
                target_port: recorded[n - 1].target_port,
            },
        )
    }
}

/// A supervisor that takes over every recorded route serves exactly the
/// routes that were served when they were recorded.
pub proof fn law_recorded_routes_are_served_again(
    rows: Seq<(u16, Route)>,
    recorded: Seq<RouteStatus>,
)
    requires
        by_port(rows),
        recorded.len() == rows.len(),
        forall|i: int|
            0 <= i < rows.len() ==> (#[trigger] recorded[i]) == (RouteStatus {
                port: rows[i].0,
                instance_id: rows[i].1.instance_id,
                target_port: rows[i].1.target_port,
                listening: true,
                open_connections: 0,
                served_connections: 0,
            }),
    ensures
        taken_over(recorded, recorded.len()) == routes_of(rows),
{
    lemma_taken_over(rows, recorded, rows.len());
    assert(rows.take(rows.len() as int) =~= rows);
}

proof fn lemma_taken_over(rows: Seq<(u16, Route)>, recorded: Seq<RouteStatus>, n: nat)
    requires
        n <= rows.len(),
        by_port(rows),
        recorded.len() == rows.len(),
        forall|i: int|
            0 <= i < rows.len() ==> (#[trigger] recorded[i]).port == rows[i].0
                && recorded[i].instance_id == rows[i].1.instance_id && recorded[i].target_port
                == rows[i].1.target_port,
    ensures
        taken_over(recorded, n) == routes_of(rows.take(n as int)),
    decreases n,
{
    let now = rows.take(n as int);
    if n == 0 {
        assert(taken_over(recorded, n) =~= routes_of(now));
    } else {
        lemma_taken_over(rows, recorded, (n - 1) as nat);
        let before = rows.take(n - 1);
        let last = rows[n - 1];
        assert(recorded[n - 1].port == last.0);
        assert(now =~= before.push(last));
        assert(by_port(now));
        assert(by_port(before));
        assert(routes_of(now) =~= routes_of(before).insert(last.0, last.1)) by {
            assert forall|port: u16| #[trigger]
                routes_of(now).contains_key(port) <==> routes_of(before).insert(
                    last.0,
                    last.1,
                ).contains_key(port) by {
                if has_port(now, port) {
                    let j = entry_of(now, port);
                    if j < n - 1 {
                        assert(before[j].0 == port);
                    }
                }
                if port == last.0 {
                    assert(now[n - 1].0 == port);
                } else if has_port(before, port) {
                    let j = entry_of(before, port);
                    assert(now[j].0 == port);
                }
            }
            assert forall|port: u16| #[trigger]
                routes_of(now).contains_key(port) implies routes_of(now)[port] == routes_of(
                before,
            ).insert(last.0, last.1)[port] by {
                let j = entry_of(now, port);
                if j < n - 1 {
                    lemma_entry(before, j);
                } else {
                    lemma_entry(now, n - 1);
                }
            }
        }
    }
}

// ---- The supervisor ---------------------------------------------------------

/// What a controller does about its node's supervisor.
#[derive(Debug, Clone, Copy, PartialEq, Eq, Structural)]
pub enum SupervisorStep {
    /// Use the one that answered.
    Use,
    /// Start one.
    Launch,
}

pub open spec fn foreign_text(info: DataPlaneInfo) -> Seq<char> {
    "the supervisor on this node (pid "@ + decimal_text(info.pid as nat) + ") speaks protocol "@
        + decimal_text(info.protocol as nat) + ", not "@ + decimal_text(SUPERVISOR_PROTOCOL as nat)
        + "; refusing to take it over"@
}

/// Check that a supervisor speaks this build's protocol: one that speaks
/// another is never taken over.
pub fn check_protocol(info: &DataPlaneInfo) -> (r: Result<(), EnvironmentError>)
    ensures
        match r {
            Ok(_) => info.protocol == SUPERVISOR_PROTOCOL,
            Err(error) => info.protocol != SUPERVISOR_PROTOCOL && error.reports(
                Refusal::Invalid(foreign_text(*info)),
            ),
        },
{
    if info.protocol == SUPERVISOR_PROTOCOL {
        return Ok(());
    }
    let mut text = "the supervisor on this node (pid ".to_owned();
    text.append(&decimal(info.pid as u64));
    text.append(") speaks protocol ");
    text.append(&decimal(info.protocol as u64));
    text.append(", not ");
    text.append(&decimal(SUPERVISOR_PROTOCOL as u64));
    text.append("; refusing to take it over");
    Err(EnvironmentError::Invalid(text))
}

/// Decide about a node's supervisor: the running one when it answers,
/// otherwise a new one if there is a way to start it. A supervisor speaking
/// another protocol is never taken over.
pub fn supervisor_step(
    answer: Option<&DataPlaneInfo>,
    can_launch: bool,
    socket: &str,
) -> (r: Result<SupervisorStep, EnvironmentError>)
    ensures
        match answer {
            Some(info) => if info.protocol == SUPERVISOR_PROTOCOL {
                r == Ok::<SupervisorStep, EnvironmentError>(SupervisorStep::Use)
            } else {
                r matches Err(error) && error.reports(Refusal::Invalid(foreign_text(*info)))
            },
            None => if can_launch {
                r == Ok::<SupervisorStep, EnvironmentError>(SupervisorStep::Launch)
            } else {
                r matches Err(error) && error.reports(
                    Refusal::RuntimeUnavailable("no supervisor answers at "@ + socket@),
                )
            },
        },
        r matches Ok(SupervisorStep::Use) ==> answer matches Some(info) && info.protocol
            == SUPERVISOR_PROTOCOL,
{
    match answer {
        Some(info) => match check_protocol(info) {
            Ok(_) => Ok(SupervisorStep::Use),
            Err(error) => Err(error),
        },
        None => if can_launch {
            Ok(SupervisorStep::Launch)
        } else {
            let mut text = "no supervisor answers at ".to_owned();
            text.append(socket);
            Err(EnvironmentError::RuntimeUnavailable(text))
        },
    }
}

/// What a controller does about a supervisor it just started.
#[derive(Debug, Clone, Copy, PartialEq, Eq, Structural)]
pub enum LaunchStep {
    /// Use it: it answered.
    Use,
    /// Ask it again a little later.
    Wait,
}

pub open spec fn silent_text(pid: u32, state_dir: Seq<char>) -> Seq<char> {
    "the supervisor (pid "@ + decimal_text(pid as nat) + ") did not answer; see "@ + path_text(
        state_dir,
        "supervisor.log"@,
    )
}

/// Decide about a supervisor that was started a while ago: it is used once
/// it answers, unless what answers speaks another protocol, and it is given
/// up when it stays silent too long.
pub fn launch_step(
    answer: Option<&DataPlaneInfo>,
    waited_ms: u64,
    pid: u32,
    state_dir: &str,
) -> (r: Result<LaunchStep, EnvironmentError>)
    ensures
        match answer {
            Some(info) => if info.protocol == SUPERVISOR_PROTOCOL {
                r == Ok::<LaunchStep, EnvironmentError>(LaunchStep::Use)
            } else {
                r matches Err(error) && error.reports(Refusal::Invalid(foreign_text(*info)))
            },
            None => if waited_ms < SUPERVISOR_START_MS {
                r == Ok::<LaunchStep, EnvironmentError>(LaunchStep::Wait)
            } else {
                r matches Err(error) && error.reports(
                    Refusal::RuntimeUnavailable(silent_text(pid, state_dir@)),
                )
            },
        },
        r matches Ok(LaunchStep::Use) ==> answer matches Some(info) && info.protocol
            == SUPERVISOR_PROTOCOL,
        answer is None ==> (r is Ok <==> waited_ms < 15_000),
{
    match answer {
        Some(info) => match check_protocol(info) {
            Ok(_) => Ok(LaunchStep::Use),
            Err(error) => Err(error),
        },
        None => if waited_ms < SUPERVISOR_START_MS {
            Ok(LaunchStep::Wait)
        } else {
            Err(supervisor_silent(pid, state_dir))
        },
    }
}

/// The report of a supervisor that was started and never answered.
fn supervisor_silent(pid: u32, state_dir: &str) -> (r: EnvironmentError)
    ensures
        r.reports(Refusal::RuntimeUnavailable(silent_text(pid, state_dir@))),
{
    let mut text = "the supervisor (pid ".to_owned();
    text.append(&decimal(pid as u64));
    text.append(") did not answer; see ");
    text.append(&join_path(state_dir, "supervisor.log"));
    EnvironmentError::RuntimeUnavailable(text)
}

/// The error a supervisor's reply stands for: anything it does not name
/// precisely means that the runtime cannot be reached.
pub fn reply_error(kind: &str, message: String) -> (r: EnvironmentError)
    ensures
        r.text() == message@,
        if kind@ == "not_found"@ {
            r is NotFound
        } else if kind@ == "conflict"@ {
            r is Conflict
        } else if kind@ == "invalid"@ {
            r is Invalid
        } else {
            r is RuntimeUnavailable
        },
{
    if same(kind, "not_found") {
        EnvironmentError::NotFound(message)
    } else if same(kind, "conflict") {
        EnvironmentError::Conflict(message)
    } else if same(kind, "invalid") {
        EnvironmentError::Invalid(message)
    } else {
        EnvironmentError::RuntimeUnavailable(message)
    }
}

// ---- Laws -------------------------------------------------------------------

/// However a unit ended, that is kept until it is acknowledged: nothing that
/// happens to this unit or to another changes or forgets it.
pub proof fn law_outcomes_are_kept_until_acknowledged(
    units: Units,
    steps: Seq<UnitStep>,
    id: Seq<char>,
    n: nat,
)
    requires
        units.contains_key(key1(id)),
        units[key1(id)].outcome is Some,
        n <= steps.len(),
        forall|i: int| 0 <= i < steps.len() ==> (#[trigger] steps[i]) != UnitStep::Ack(id),
    ensures
        after_steps(units, steps, n).contains_key(key1(id)),
        after_steps(units, steps, n)[key1(id)].outcome == units[key1(id)].outcome,
        after_steps(units, steps, n)[key1(id)].manifest == units[key1(id)].manifest,
    decreases n,
{
    if n > 0 {
        law_outcomes_are_kept_until_acknowledged(units, steps, id, (n - 1) as nat);
        let step = steps[n - 1];
        if let UnitStep::Ack(other) = step {
            assert(other != id);
            assert(key1(other)[0] != key1(id)[0]);
        }
    }
}

/// A unit that was registered is not registered again under its identifier
/// while it is known, whatever else happens: its manifest stays.
pub proof fn law_units_are_started_once(
    units: Units,
    steps: Seq<UnitStep>,
    id: Seq<char>,
    n: nat,
)
    requires
        units.contains_key(key1(id)),
        n <= steps.len(),
        forall|i: int| 0 <= i < steps.len() ==> (#[trigger] steps[i]) != UnitStep::Ack(id),
    ensures
        after_steps(units, steps, n).contains_key(key1(id)),
        after_steps(units, steps, n)[key1(id)].manifest == units[key1(id)].manifest,
    decreases n,
{
    if n > 0 {
        law_units_are_started_once(units, steps, id, (n - 1) as nat);
        let step = steps[n - 1];
        if let UnitStep::Ack(other) = step {
            assert(other != id);
            assert(key1(other)[0] != key1(id)[0]);
        }
    }
}

/// A process identifier alone never proves anything: an identity without a
/// boot or a start time matches no process, and neither does one from
/// another boot.
pub proof fn law_reused_pids_never_match(
    process: ProcessIdentity,
    boot_id: Option<Seq<char>>,
    start_time: Option<u64>,
)
    ensures
        process.boot_id is None ==> !is_same_process(process, boot_id, start_time),
        process.start_time is None ==> !is_same_process(process, boot_id, start_time),
        opt_text(process.boot_id) != boot_id ==> !is_same_process(process, boot_id, start_time),
        process.start_time != start_time ==> !is_same_process(process, boot_id, start_time),
{
}

/// A process is recognised exactly when its boot and its start time were
/// recorded and both are what is seen now.
pub proof fn law_recorded_processes_match(
    process: ProcessIdentity,
    boot_id: Option<Seq<char>>,
    start_time: Option<u64>,
)
    ensures
        is_same_process(process, boot_id, start_time) <==> (process.boot_id matches Some(boot)
            && boot_id == Some(boot@)) && (process.start_time matches Some(ticks) && start_time
            == Some(ticks)),
{
}

/// What happens to a unit is recorded of that unit: one that starts is
/// registered without an outcome, one that ends keeps the first outcome it
/// had, one that is acknowledged is forgotten only once it ended.
pub proof fn law_steps_are_recorded(units: Units, step: UnitStep)
    ensures
        step matches UnitStep::Start(manifest) ==> {
            let key = key1(manifest.unit_id@);
            &&& after_step(units, step).contains_key(key)
            &&& !units.contains_key(key) ==> {
                &&& after_step(units, step)[key].manifest == manifest
                &&& after_step(units, step)[key].outcome is None
                &&& after_step(units, step)[key].process is None
            }
            &&& units.contains_key(key) ==> after_step(units, step) == units
        },
        step matches UnitStep::Started(id, process) ==> {
            let key = key1(id);
            units.contains_key(key) ==> {
                &&& after_step(units, step)[key].process == process
                &&& after_step(units, step)[key].outcome == units[key].outcome
                &&& after_step(units, step)[key].manifest == units[key].manifest
            }
        },
        step matches UnitStep::Ended(id, outcome) ==> {
            let key = key1(id);
            &&& units.contains_key(key) && units[key].outcome is None ==> after_step(
                units,
                step,
            )[key].outcome == Some(outcome)
            &&& units.contains_key(key) && units[key].outcome is Some ==> after_step(
                units,
                step,
            )[key].outcome == units[key].outcome
        },
        step matches UnitStep::Wait(id, now) ==> {
            let key = key1(id);
            units.contains_key(key) ==> {
                &&& after_step(units, step)[key].outcome == units[key].outcome
                &&& units[key].outcome is Some && units[key].finished_at is None ==> after_step(
                    units,
                    step,
                )[key].finished_at == Some(now)
                &&& units[key].finished_at is Some ==> after_step(units, step)[key].finished_at
                    == units[key].finished_at
            }
        },
        step matches UnitStep::Ack(id) ==> {
            let key = key1(id);
            &&& units.contains_key(key) && units[key].outcome is None ==> after_step(
                units,
                step,
            ).contains_key(key)
            &&& units.contains_key(key) && units[key].outcome is Some ==> !after_step(
                units,
                step,
            ).contains_key(key)
        },
{
}

/// What happens to one unit leaves every other as it is.
pub proof fn law_other_units_are_unaffected(units: Units, step: UnitStep, other: Seq<Seq<char>>)
    requires
        units.contains_key(other),
        other != key1(
            match step {
                UnitStep::Start(manifest) => manifest.unit_id@,
                UnitStep::Started(id, _) => id,
                UnitStep::Ended(id, _) => id,
                UnitStep::Wait(id, _) => id,
                UnitStep::Ack(id) => id,
            },
        ),
    ensures
        after_step(units, step).contains_key(other),
        after_step(units, step)[other] == units[other],
{
}

/// A unit's file stays in its directory: its name holds letters, digits,
/// hyphens and underscores alone, one for each character of the identifier,
/// and an identifier of such characters is its own name.
pub proof fn law_unit_files_stay_in_their_directory(unit_id: Seq<char>, i: int)
    requires
        0 <= i < unit_id.len(),
    ensures
        file_name_text(unit_id).len() == unit_id.len(),
        ({
            let c = file_name_text(unit_id)[i];
            'a' <= c <= 'z' || 'A' <= c <= 'Z' || '0' <= c <= '9' || c == '-' || c == '_'
        }),
        ({
            let c = unit_id[i];
            'a' <= c <= 'z' || 'A' <= c <= 'Z' || '0' <= c <= '9' || c == '-' || c == '_'
        }) ==> file_name_text(unit_id)[i] == unit_id[i],
{
}

/// Two routes are the same exactly when they lead to the same instance and
/// the same port of it.
pub proof fn law_routes_differ_by_instance_or_port(a: Route, b: Route)
    ensures
        is_same_route(a, b) <==> a.instance_id@ == b.instance_id@ && a.target_port
            == b.target_port,
{
}

/// A route is reported as listening exactly when its port is listened on and
/// its listener forwards it; it is reported where it leads.
pub proof fn law_routes_are_reported_as_served(
    entry: (u16, Route),
    listening: Seq<u16>,
    seen: Seen,
)
    ensures
        ({
            let status = served_route(entry, listening, seen);
            &&& status.port == entry.0
            &&& status.instance_id@ == entry.1.instance_id@
            &&& status.target_port == entry.1.target_port
            &&& status.listening <==> listening.contains(entry.0) && seen.routed
            &&& status.open_connections == seen.open_connections
            &&& status.served_connections == seen.served_connections
        }),
{
}

/// A process's start time is the twentieth word after its command. The
/// command stands in parentheses and may hold any character itself.
pub proof fn law_start_times_follow_the_command(head: Seq<char>, rest: Seq<char>)
    requires
        forall|i: int| 0 <= i < rest.len() ==> (#[trigger] rest[i]) != ')',
    ensures
        words(rest).len() >= 20 ==> stat_start_time(head + seq![')', ' '] + rest) == parsed_number(
            words(rest)[19],
            0xffff_ffff_ffff_ffff,
        ),
        words(rest).len() < 20 ==> stat_start_time(head + seq![')', ' '] + rest) is None,
{
    let stat = head + seq![')', ' '] + rest;
    let at = head.len() as int;
    assert(stat[at] == ')');
    assert(stat[at + 1] == ' ');
    assert forall|i: int| at < i < stat.len() implies stat[i] != ')' by {
        if i > at + 1 {
            assert(stat[i] == rest[i - at - 2]);
        }
    }
    lemma_last_index(stat, ')', stat.len(), at);
    assert(stat.skip(at + 2) =~= rest);
}

/// The status of a response is what stands after the version, whatever
/// reason follows.
pub proof fn law_statuses_follow_the_version(version: Seq<char>, status: u16, reason: Seq<char>)
    requires
        forall|i: int| 0 <= i < version.len() ==> (#[trigger] version[i]) != ' ',
    ensures
        response_status(
            version.push(' ') + (decimal_text(status as nat).push(' ') + reason),
        ) == Some(status as nat),
        response_status(version.push(' ') + decimal_text(status as nat)) == Some(status as nat),
        response_status(version) is None,
{
    let digits = decimal_text(status as nat);
    law_numbers_are_read_back(status as nat, 65535);
    lemma_decimal_digits(status as nat);
    assert forall|i: int| 0 <= i < digits.len() implies (#[trigger] digits[i]) != ' ' by {}
    law_pieces_are_divided_by_separators(digits, ' ', reason);
    law_pieces_are_divided_by_separators(version, ' ', digits);
    law_pieces_are_divided_by_separators(version, ' ', digits.push(' ') + reason);
    lemma_pieces(reason, ' ');
    assert(pieces(version.push(' ') + (digits.push(' ') + reason), ' ')[1] == digits);
    assert(pieces(version.push(' ') + digits, ' ')[1] == digits);
    assert(pieces(version, ' ').len() == 1);
}

/// A unit runs until it has an outcome.
pub proof fn law_units_run_until_they_end(status: UnitStatus)
    ensures
        status.outcome is None <==> status.state_text() == "running"@,
        status.outcome is Some <==> status.state_text() == "exited"@,
{
    reveal_strlit("running");
    reveal_strlit("exited");
    assert("running"@.len() != "exited"@.len());
}

} // verus!
