//! Reconciliation cycles: the order of their phases, and what is recorded of
//! them.
//!
//! A cycle that cannot read control state changes nothing: Compute fails
//! closed rather than acting on intent it cannot confirm.

use vstd::prelude::*;

use crate::desired::{not_ended, Desired, Unit};
use crate::dataplane::DataPlaneInfo;
use crate::events::{
    datum_moment, datum_option, fact, no_scope, Datum, DatumText, EventKind, FactText, Key, Notice,
    Scope,
};
use crate::execute::WorkloadRuntime;
use crate::prepare::logs_dir;
use crate::search::{matching, matching_upto};
use crate::table::{MapKey, Table};
use crate::text::{decimal, decimal_text, join_path, opt_text, path_text};
use crate::time::{moment_rfc3339, rfc3339_text, stamp_of, time_text, STAMP};

verus! {

/// How old a node's credentials may be before they are read again.
pub const CREDENTIAL_AGE_NS: u64 = 30_000_000_000;

/// Where a cycle stands. Each phase is work, whose outcome decides what
/// follows.
#[derive(Debug, Clone, Copy, PartialEq, Eq, Structural)]
pub enum Phase {
    /// Replace a supervisor that died. Outcome: whether one was replaced.
    DataPlane,
    /// Recover the units of the supervisor that was replaced.
    Reattach,
    /// Read desired state. Outcome: whether it could be read.
    Refresh,
    /// Say that control state is unreachable.
    Outage,
    /// Write what could not be written before.
    Pending,
    /// Advance each release in flight. Outcome: whether one advanced.
    Releases,
    /// Read what advancing wrote. Outcome: whether it could be read.
    RefreshReleases,
    Converge,
    Endpoints,
    /// Write what is observed. Outcome: whether anything was written.
    Observe,
    /// Read what observing wrote.
    RefreshObserved,
    Network,
    /// The cycle is complete.
    Finished,
    /// The cycle ended without acting.
    Abandoned,
}

impl Phase {
    /// The phase that follows, by the outcome of this one.
    pub open spec fn following(self, outcome: bool) -> Phase {
        match self {
            Phase::DataPlane => if outcome {
                Phase::Reattach
            } else {
                Phase::Refresh
            },
            Phase::Reattach => Phase::Refresh,
            Phase::Refresh => if outcome {
                Phase::Pending
            } else {
                Phase::Outage
            },
            Phase::Outage => Phase::Abandoned,
            Phase::Pending => Phase::Releases,
            Phase::Releases => if outcome {
                Phase::RefreshReleases
            } else {
                Phase::Converge
            },
            Phase::RefreshReleases => if outcome {
                Phase::Converge
            } else {
                Phase::Abandoned
            },
            Phase::Converge => Phase::Endpoints,
            Phase::Endpoints => Phase::Observe,
            Phase::Observe => if outcome {
                Phase::RefreshObserved
            } else {
                Phase::Network
            },
            Phase::RefreshObserved => Phase::Network,
            Phase::Network => Phase::Finished,
            Phase::Finished => Phase::Finished,
            Phase::Abandoned => Phase::Abandoned,
        }
    }

    /// What the time a phase takes is counted as.
    pub open spec fn counted_as(self) -> Option<Seq<char>> {
        match self {
            Phase::DataPlane => Some("data_plane"@),
            Phase::Reattach => Some("data_plane"@),
            Phase::Refresh => Some("refresh"@),
            Phase::Outage => Some("refresh"@),
            Phase::Pending => Some("pending"@),
            Phase::Releases => Some("releases"@),
            Phase::RefreshReleases => Some("refresh"@),
            Phase::Converge => Some("converge"@),
            Phase::Endpoints => Some("endpoints"@),
            Phase::Observe => Some("observe"@),
            Phase::RefreshObserved => Some("observe"@),
            Phase::Network => Some("network"@),
            Phase::Finished => None,
            Phase::Abandoned => None,
        }
    }

    pub fn measured_as(self) -> (r: Option<&'static str>)
        ensures
            match r {
                Some(name) => self.counted_as() == Some(name@),
                None => self.counted_as() is None,
            },
    {
        match self {
            Phase::DataPlane | Phase::Reattach => Some("data_plane"),
            Phase::Refresh | Phase::Outage | Phase::RefreshReleases => Some("refresh"),
            Phase::Pending => Some("pending"),
            Phase::Releases => Some("releases"),
            Phase::Converge => Some("converge"),
            Phase::Endpoints => Some("endpoints"),
            Phase::Observe | Phase::RefreshObserved => Some("observe"),
            Phase::Network => Some("network"),
            Phase::Finished | Phase::Abandoned => None,
        }
    }

    pub fn next(self, outcome: bool) -> (r: Phase)
        ensures
            r == self.following(outcome),
    {
        match self {
            Phase::DataPlane => if outcome {
                Phase::Reattach
            } else {
                Phase::Refresh
            },
            Phase::Reattach => Phase::Refresh,
            Phase::Refresh => if outcome {
                Phase::Pending
            } else {
                Phase::Outage
            },
            Phase::Outage => Phase::Abandoned,
            Phase::Pending => Phase::Releases,
            Phase::Releases => if outcome {
                Phase::RefreshReleases
            } else {
                Phase::Converge
            },
            Phase::RefreshReleases => if outcome {
                Phase::Converge
            } else {
                Phase::Abandoned
            },
            Phase::Converge => Phase::Endpoints,
            Phase::Endpoints => Phase::Observe,
            Phase::Observe => if outcome {
                Phase::RefreshObserved
            } else {
                Phase::Network
            },
            Phase::RefreshObserved => Phase::Network,
            Phase::Network => Phase::Finished,
            Phase::Finished => Phase::Finished,
            Phase::Abandoned => Phase::Abandoned,
        }
    }

    /// Whether the phase acts on desired state.
    pub open spec fn acts(self) -> bool {
        self is Pending || self is Releases || self is Converge || self is Endpoints
            || self is Observe || self is Network
    }

    /// Whether nothing follows.
    pub open spec fn is_end(self) -> bool {
        self is Finished || self is Abandoned
    }

    /// How many phases may still follow.
    pub open spec fn left(self) -> nat {
        match self {
            Phase::DataPlane => 11,
            Phase::Reattach => 10,
            Phase::Refresh => 9,
            Phase::Outage => 1,
            Phase::Pending => 8,
            Phase::Releases => 7,
            Phase::RefreshReleases => 6,
            Phase::Converge => 5,
            Phase::Endpoints => 4,
            Phase::Observe => 3,
            Phase::RefreshObserved => 2,
            Phase::Network => 1,
            Phase::Finished => 0,
            Phase::Abandoned => 0,
        }
    }
}

/// The phase a cycle is in after some outcomes.
pub open spec fn phase_after(start: Phase, outcomes: Seq<bool>) -> Phase
    decreases outcomes.len(),
{
    if outcomes.len() == 0 {
        start
    } else {
        phase_after(start, outcomes.drop_last()).following(outcomes.last())
    }
}

// ---- Advancing releases -----------------------------------------------------

/// How many rounds of steps releases are advanced by in one cycle at most.
pub const ADVANCE_ROUNDS: u8 = 8;

/// How far advancing the releases has come in a cycle: each round steps
/// every release once, and another follows while one got further and what
/// it wrote can be read.
#[derive(Debug, Clone, Copy, PartialEq, Eq, Structural)]
pub struct Advance {
    /// How many rounds may still follow.
    pub left: u8,
    /// Whether control state changed.
    pub changed: bool,
}

impl Advance {
    pub fn new() -> (r: Self)
        ensures
            r == (Advance { left: ADVANCE_ROUNDS, changed: false }),
            r.left == 8,
    {
        Advance { left: ADVANCE_ROUNDS, changed: false }
    }

    /// What a round leaves: nothing more to do unless a release got
    /// further, and unless what it wrote can be read.
    pub open spec fn after(self, progressed: bool, readable: bool) -> Advance {
        Advance {
            left: if progressed && readable && self.left > 0 {
                (self.left - 1) as u8
            } else {
                0
            },
            changed: self.changed || progressed,
        }
    }

    /// A round came to its end. Returns whether control state is read
    /// again before the next.
    pub fn round(&mut self, progressed: bool) -> (r: bool)
        ensures
            r == progressed,
            *final(self) == old(self).after(progressed, true),
    {
        if progressed {
            self.changed = true;
            self.left = if self.left > 0 {
                self.left - 1
            } else {
                0
            };
        } else {
            self.left = 0;
        }
        progressed
    }

    /// Control state could not be read again: no round follows.
    pub fn unreadable(&mut self)
        ensures
            *final(self) == (Advance { left: 0, ..*old(self) }),
    {
        self.left = 0;
    }
}

/// Where advancing stands after some rounds: of each, whether a release got
/// further and whether what it wrote could be read.
pub open spec fn advanced(rounds: Seq<(bool, bool)>) -> Advance
    decreases rounds.len(),
{
    if rounds.len() == 0 {
        Advance { left: ADVANCE_ROUNDS, changed: false }
    } else {
        advanced(rounds.drop_last()).after(rounds.last().0, rounds.last().1)
    }
}

// ---- What is measured -------------------------------------------------------

/// What a cycle examined.
pub open spec fn examined_count(desired: Desired) -> nat {
    desired.workloads.rows().len() + desired.instances.rows().len() + desired.traffic.rows().len()
        + matching(desired.deployments.values(), not_ended()).len()
}

/// How many resources a cycle examined.
pub fn resources_examined(desired: &Desired) -> (r: usize)
    requires
        examined_count(*desired) <= usize::MAX,
    ensures
        r == examined_count(*desired),
{
    let releases = desired.in_flight();
    proof {
        assert(releases@.len() == crate::search::positions(releases@).len());
    }
    desired.workloads.len() + desired.instances.len() + desired.traffic.len() + releases.len()
}

/// Cycles since start.
#[derive(Debug, Clone, Copy, PartialEq, Eq, Structural)]
pub struct ReconcileCount {
    pub cycles: u64,
    pub errors_total: u64,
}

impl ReconcileCount {
    /// Count a cycle. Returns its errors: one, unless it was completed and
    /// control state can be read.
    pub fn count(&mut self, completed: bool, state_error: bool) -> (r: usize)
        requires
            old(self).cycles < u64::MAX,
            old(self).errors_total < u64::MAX,
        ensures
            r == (if !completed || state_error {
                1int
            } else {
                0int
            }),
            final(self).cycles == old(self).cycles + 1,
            final(self).errors_total == old(self).errors_total + r,
    {
        let errors: usize = if !completed || state_error {
            1
        } else {
            0
        };
        self.cycles = self.cycles + 1;
        self.errors_total = self.errors_total + errors as u64;
        errors
    }
}

/// Whether a cycle is recorded: full cycles that did something are; idle
/// ones are only counted, so a quiet node writes nothing.
pub fn cycle_is_recorded(
    full: bool,
    state_readable: bool,
    first: bool,
    changed: usize,
    errors: usize,
) -> (r: bool)
    ensures
        r == (full && state_readable && (first || changed > 0 || errors > 0)),
{
    full && state_readable && (first || changed > 0 || errors > 0)
}

pub open spec fn finished_text(
    duration: Seq<char>,
    examined: nat,
    changed: nat,
    errors: nat,
) -> Seq<char> {
    "reconciliation finished in "@ + duration + " ms: "@ + decimal_text(examined)
        + " resources examined, "@ + decimal_text(changed) + " changed, "@ + decimal_text(errors)
        + " errors"@
}

/// What is recorded of a cycle. `duration` is how long it took, in
/// milliseconds. What was measured of the cycle is added by who measured it.
pub fn cycle_notices(
    started_at: i64,
    duration: &str,
    examined: usize,
    changed: usize,
    errors: usize,
) -> (r: Vec<Notice>)
    ensures
        r@.len() == 2,
        r@[0].says(
            EventKind::ReconcileStarted,
            no_scope(),
            "reconciliation started at "@ + rfc3339_text(started_at),
            seq![fact("started_at"@, DatumText::Moment(started_at))],
        ),
        r@[1].says(
            EventKind::ReconcileFinished,
            no_scope(),
            finished_text(duration@, examined as nat, changed as nat, errors as nat),
            seq![],
        ),
{
    let mut notices: Vec<Notice> = Vec::new();
    let mut message = "reconciliation started at ".to_owned();
    message.append(&moment_rfc3339(started_at));
    notices.push(
        Notice::new(EventKind::ReconcileStarted, Scope::default(), message).with(
            "started_at",
            Datum::Moment(started_at),
        ),
    );
    let mut message = "reconciliation finished in ".to_owned();
    message.append(duration);
    message.append(" ms: ");
    message.append(&decimal(examined as u64));
    message.append(" resources examined, ");
    message.append(&decimal(changed as u64));
    message.append(" changed, ");
    message.append(&decimal(errors as u64));
    message.append(" errors");
    notices.push(Notice::new(EventKind::ReconcileFinished, Scope::default(), message));
    notices
}

/// A supervisor was replaced by this one, if it says who it is.
pub fn data_plane_restarted(info: Option<DataPlaneInfo>) -> (r: Notice)
    ensures
        r.says(
            EventKind::DataPlaneRestarted,
            no_scope(),
            "the supervisor was unreachable; a new one was started"@,
            seq![fact("data_plane"@, DatumText::Plane(info))],
        ),
{
    Notice::new(
        EventKind::DataPlaneRestarted,
        Scope::default(),
        "the supervisor was unreachable; a new one was started".to_owned(),
    ).with("data_plane", Datum::Plane(info))
}

// ---- Outages ----------------------------------------------------------------

/// Since when durable state is unreachable, and why.
pub open spec fn outage_facts(since: Option<i64>, error: Option<String>) -> Seq<FactText> {
    seq![
        fact("since"@, datum_moment(since)),
        fact("error"@, datum_option(opt_text(error))),
    ]
}

/// Durable state became unreachable: say so once, while it lasts.
pub fn announce_outage(announced: &mut bool, since: Option<i64>, error: &Option<String>) -> (r:
    Option<Vec<Notice>>)
    ensures
        *final(announced),
        r is None <==> *old(announced),
        r matches Some(notices) ==> {
            &&& notices@.len() == 2
            &&& notices@[0].says(
                EventKind::FeltDbUnavailable,
                no_scope(),
                "durable control state is unreachable: "@ + (match opt_text(*error) {
                    Some(error) => error,
                    None => ""@,
                }),
                outage_facts(since, *error),
            )
            &&& notices@[1].says(
                EventKind::ControllerDegraded,
                no_scope(),
                "control plane degraded: workloads keep running, reads are served from the last snapshot, changes are refused"@,
                outage_facts(since, *error),
            )
        },
{
    if *announced {
        return None;
    }
    *announced = true;
    let mut notices: Vec<Notice> = Vec::new();
    let mut message = "durable control state is unreachable: ".to_owned();
    match error {
        Some(error) => message.append(error),
        None => message.append(""),
    }
    notices.push(
        Notice::new(EventKind::FeltDbUnavailable, Scope::default(), message).with(
            "since",
            Datum::moment(since),
        ).with("error", Datum::option(error)),
    );
    notices.push(
        Notice::new(
            EventKind::ControllerDegraded,
            Scope::default(),
            "control plane degraded: workloads keep running, reads are served from the last snapshot, changes are refused".to_owned(),
        ).with("since", Datum::moment(since)).with("error", Datum::option(error)),
    );
    Some(notices)
}

/// Durable state answers again, after so many seconds: `seconds` as the
/// message shows them, and `outage` as the JSON number they are.
pub fn recovered(since: i64, seconds: &str, outage: String) -> (r: Notice)
    ensures
        r.says(
            EventKind::FeltDbRecovered,
            no_scope(),
            "durable control state is reachable again after "@ + seconds@ + "s"@,
            seq![
                fact("since"@, DatumText::Moment(since)),
                fact("outage_seconds"@, DatumText::Json(outage@)),
            ],
        ),
{
    let mut message = "durable control state is reachable again after ".to_owned();
    message.append(seconds);
    message.append("s");
    Notice::new(EventKind::FeltDbRecovered, Scope::default(), message).with(
        "since",
        Datum::Moment(since),
    ).with("outage_seconds", Datum::Json(outage))
}

/// Whether a node's credentials are read again: they never were, or long
/// ago.
pub fn credentials_are_old(loaded_at: Option<i64>, now: i64) -> (r: bool)
    ensures
        r == (match loaded_at {
            Some(at) => now - at > CREDENTIAL_AGE_NS,
            None => true,
        }),
        r <==> (loaded_at matches Some(at) ==> now - at > 30_000_000_000),
{
    match loaded_at {
        Some(at) => now as i128 - at as i128 > CREDENTIAL_AGE_NS as i128,
        None => true,
    }
}

// ---- Starting ---------------------------------------------------------------

/// A number in at least `width` decimal digits.
pub open spec fn padded(n: nat, width: nat) -> Seq<char> {
    let digits = decimal_text(n);
    if digits.len() >= width {
        digits
    } else {
        Seq::new((width - digits.len()) as nat, |i: int| '0') + digits
    }
}

fn pad(n: u64, width: usize) -> (r: String)
    ensures
        r@ == padded(n as nat, width as nat),
{
    let digits = decimal(n);
    let size: usize = crate::text::chars_of(&digits).len();
    let mut r = String::new();
    let mut i: usize = size;
    while i < width
        invariant
            size == digits@.len(),
            size <= i,
            i <= width || i == size,
            r@ == Seq::new((i - size) as nat, |k: int| '0'),
        decreases width - i,
    {
        let ghost before = r@;
        r.push('0');
        proof {
            assert(r@ =~= Seq::new((i + 1 - size) as nat, |k: int| '0'));
        }
        i += 1;
    }
    r.append(&digits);
    proof {
        if size >= width {
            assert(r@ =~= digits@);
        }
    }
    r
}

/// Where one generation of a service logs.
pub open spec fn service_logs(state_dir: Seq<char>, key: Key, generation: u64, now: i64) -> Seq<char> {
    path_text(
        path_text(
            path_text(path_text(path_text(state_dir, "logs"@), key.0@), key.1@),
            key.2@,
        ),
        time_text(now, STAMP@) + "-"@ + padded(generation as nat, 4),
    )
}

/// Start a service: a new generation of its unit, which logs in a directory
/// of its own. Returns the generation.
pub fn start_service(
    runtime: &mut Table<Unit, WorkloadRuntime>,
    unit: &Unit,
    state_dir: &str,
    now: i64,
) -> (r: u64)
    requires
        old(runtime)@.contains_key(unit.parts()) ==> old(
            runtime,
        )@[unit.parts()].generation < u64::MAX,
    ensures
        ({
            let key = unit.parts();
            let known = old(runtime)@.contains_key(key);
            let after = final(runtime)@[key];
            &&& final(runtime)@.contains_key(key)
            &&& final(runtime)@.remove(key) == old(runtime)@.remove(key)
            &&& r == (if known {
                old(runtime)@[key].generation + 1
            } else {
                1
            })
            &&& exists|before: WorkloadRuntime|
                (if known {
                    before == old(runtime)@[key]
                } else {
                    before.is_fresh()
                }) && #[trigger] before.starts_as(after, unit.deployment_id@, now)
            &&& after.generation == r
            &&& opt_text(after.log_directory) == Some(service_logs(state_dir@, unit.key, r, now))
        }),
{
    let ghost before = runtime@;
    let key = Unit::new(&unit.key, &unit.deployment_id);
    let known = match runtime.remove(&key) {
        Some(known) => known,
        None => WorkloadRuntime::new(),
    };
    let mut known = known;
    let ghost was = known;
    let mut name = stamp_of(now);
    name.append("-");
    name.append(&pad(known.generation + 1, 4));
    let log_directory = join_path(&logs_dir(state_dir, &unit.key), &name);
    let generation = known.start(unit.deployment_id.clone(), log_directory, now);
    runtime.insert(key, known);
    proof {
        assert(runtime@.remove(unit.parts()) =~= before.remove(unit.parts()));
        assert(was.starts_as(known, unit.deployment_id@, now));
    }
    generation
}

// ---- Laws -------------------------------------------------------------------

/// A cycle that cannot read control state does nothing more: from the read
/// that failed on, no phase acts.
pub proof fn law_nothing_acts_on_unread_state(outcomes: Seq<bool>)
    ensures
        !phase_after(Phase::Refresh.following(false), outcomes).acts(),
        !phase_after(Phase::RefreshReleases.following(false), outcomes).acts(),
    decreases outcomes.len(),
{
    lemma_abandoned(Phase::Outage, outcomes);
    lemma_abandoned(Phase::Abandoned, outcomes);
}

proof fn lemma_abandoned(start: Phase, outcomes: Seq<bool>)
    requires
        start is Outage || start is Abandoned,
    ensures
        phase_after(start, outcomes) is Outage || phase_after(start, outcomes) is Abandoned,
    decreases outcomes.len(),
{
    if outcomes.len() > 0 {
        lemma_abandoned(start, outcomes.drop_last());
    }
}

/// Every phase that acts comes after desired state was read: a cycle that
/// acts has read it.
pub proof fn law_acting_follows_reading(outcomes: Seq<bool>)
    requires
        phase_after(Phase::DataPlane, outcomes).acts(),
    ensures
        exists|k: int|
            0 <= k < outcomes.len() && #[trigger] outcomes[k] && phase_after(
                Phase::DataPlane,
                outcomes.take(k),
            ) == Phase::Refresh,
    decreases outcomes.len(),
{
    let before = outcomes.drop_last();
    let phase = phase_after(Phase::DataPlane, before);
    if phase == Phase::Refresh {
        let k = outcomes.len() - 1;
        assert(outcomes.take(k) =~= before);
        assert(outcomes[k]);
    } else if phase.acts() {
        law_acting_follows_reading(before);
        let k = choose|k: int|
            0 <= k < before.len() && #[trigger] before[k] && phase_after(
                Phase::DataPlane,
                before.take(k),
            ) == Phase::Refresh;
        assert(outcomes.take(k) =~= before.take(k));
        assert(outcomes[k]);
    } else {
        // What reads again was preceded by what acts.
        assert(phase is RefreshReleases || phase is RefreshObserved);
        let earlier = before.drop_last();
        assert(phase_after(Phase::DataPlane, earlier).acts());
        law_acting_follows_reading(earlier);
        let k = choose|k: int|
            0 <= k < earlier.len() && #[trigger] earlier[k] && phase_after(
                Phase::DataPlane,
                earlier.take(k),
            ) == Phase::Refresh;
        assert(outcomes.take(k) =~= earlier.take(k));
        assert(outcomes[k]);
    }
}

/// Advancing ends: no cycle makes more rounds than it may, and none follows
/// one in which no release got further. It reports a change exactly when a
/// release got further in some round.
pub proof fn law_advancing_ends(rounds: Seq<(bool, bool)>)
    ensures
        advanced(rounds).left + rounds.len() <= ADVANCE_ROUNDS || advanced(rounds).left == 0,
        rounds.len() > 0 && !rounds.last().0 ==> advanced(rounds).left == 0,
        advanced(rounds).changed <==> exists|i: int|
            0 <= i < rounds.len() && (#[trigger] rounds[i]).0,
    decreases rounds.len(),
{
    if rounds.len() > 0 {
        let before = rounds.drop_last();
        law_advancing_ends(before);
        assert forall|i: int| 0 <= i < before.len() implies before[i] == rounds[i] by {}
        if advanced(before).changed {
            let i = choose|i: int| 0 <= i < before.len() && (#[trigger] before[i]).0;
            assert(rounds[i].0);
        }
        if rounds.last().0 {
            assert(rounds[rounds.len() - 1].0);
        }
        if exists|i: int| 0 <= i < rounds.len() && (#[trigger] rounds[i]).0 {
            let i = choose|i: int| 0 <= i < rounds.len() && (#[trigger] rounds[i]).0;
            if i < before.len() {
                assert(before[i].0);
            }
        }
    }
}

/// Every cycle ends: whatever its phases come to, fewer and fewer are left.
pub proof fn law_cycles_end(phase: Phase, outcome: bool)
    ensures
        phase.is_end() <==> phase.left() == 0,
        !phase.is_end() ==> phase.following(outcome).left() < phase.left(),
{
}

/// A cycle goes through its phases in order: the data plane, reading desired
/// state, what is pending, releases, converging, endpoints, observing and
/// the network; what was replaced or written is read again before the next
/// phase.
pub proof fn law_phases_come_in_order(outcome: bool)
    ensures
        Phase::DataPlane.following(true) == Phase::Reattach,
        Phase::DataPlane.following(false) == Phase::Refresh,
        Phase::Reattach.following(outcome) == Phase::Refresh,
        Phase::Refresh.following(true) == Phase::Pending,
        !Phase::Refresh.following(false).acts(),
        Phase::Pending.following(outcome) == Phase::Releases,
        Phase::Releases.following(true) == Phase::RefreshReleases,
        Phase::Releases.following(false) == Phase::Converge,
        Phase::RefreshReleases.following(true) == Phase::Converge,
        Phase::RefreshReleases.following(false).is_end(),
        Phase::Converge.following(outcome) == Phase::Endpoints,
        Phase::Endpoints.following(outcome) == Phase::Observe,
        Phase::Observe.following(true) == Phase::RefreshObserved,
        Phase::Observe.following(false) == Phase::Network,
        Phase::RefreshObserved.following(outcome) == Phase::Network,
        Phase::Network.following(outcome) == Phase::Finished,
{
}

/// At most eight rounds advance the releases in one cycle, and another
/// follows only while a release got further and what it wrote can be read.
pub proof fn law_rounds_follow_progress(advance: Advance, progressed: bool, readable: bool)
    ensures
        advance.after(progressed, readable).left > 0 ==> progressed && readable
            && advance.after(progressed, readable).left + 1 == advance.left,
        progressed && readable && advance.left > 1 ==> advance.after(progressed, readable).left
            == advance.left - 1,
        advance.after(progressed, readable).changed <==> advance.changed || progressed,
        advanced(seq![]).left == 8,
        !advanced(seq![]).changed,
{
}

/// A number is padded with zeroes in front, to its width and no further.
pub proof fn law_numbers_are_padded_in_front(n: nat, width: nat)
    ensures
        padded(n, width).len() >= width,
        padded(n, width).len() == (if decimal_text(n).len() < width {
            width
        } else {
            decimal_text(n).len()
        }),
        forall|i: int|
            0 <= i < padded(n, width).len() - decimal_text(n).len() ==> (#[trigger] padded(
                n,
                width,
            )[i]) == '0',
        padded(n, width).skip(padded(n, width).len() - decimal_text(n).len()) == decimal_text(n),
{
    assert(padded(n, width).skip(padded(n, width).len() - decimal_text(n).len()) =~= decimal_text(
        n,
    ));
}

/// The time of a phase counts towards the part of the cycle it belongs to:
/// reading desired state again to the reading, and reattaching to the data
/// plane. What ends a cycle takes no time.
pub proof fn law_phases_count_towards_their_part()
    ensures
        Phase::DataPlane.counted_as() == Some("data_plane"@),
        Phase::Reattach.counted_as() == Phase::DataPlane.counted_as(),
        Phase::Refresh.counted_as() == Some("refresh"@),
        Phase::Outage.counted_as() == Phase::Refresh.counted_as(),
        Phase::RefreshReleases.counted_as() == Phase::Refresh.counted_as(),
        Phase::Pending.counted_as() == Some("pending"@),
        Phase::Releases.counted_as() == Some("releases"@),
        Phase::Converge.counted_as() == Some("converge"@),
        Phase::Endpoints.counted_as() == Some("endpoints"@),
        Phase::Observe.counted_as() == Some("observe"@),
        Phase::RefreshObserved.counted_as() == Phase::Observe.counted_as(),
        Phase::Network.counted_as() == Some("network"@),
        Phase::Finished.counted_as() is None,
        Phase::Abandoned.counted_as() is None,
{
}

/// A cycle examines every workload, instance and assignment there is, and
/// every release that has not ended.
pub proof fn law_cycles_examine_everything(desired: Desired)
    ensures
        examined_count(desired) >= desired.workloads.rows().len()
            + desired.instances.rows().len() + desired.traffic.rows().len(),
        examined_count(desired) <= desired.workloads.rows().len()
            + desired.instances.rows().len() + desired.traffic.rows().len()
            + desired.deployments.values().len(),
        (forall|i: int|
            0 <= i < desired.deployments.values().len() ==> ((
            #[trigger] desired.deployments.values()[i]).value.status is Complete
                || desired.deployments.values()[i].value.status is Failed
                || desired.deployments.values()[i].value.status is RolledBack)) ==> examined_count(
            desired,
        ) == desired.workloads.rows().len() + desired.instances.rows().len()
            + desired.traffic.rows().len(),
{
    let all = desired.deployments.values();
    lemma_matching_count(all, not_ended(), all.len());
}

/// No more items match than there are, and none where none meets the test.
proof fn lemma_matching_count<T>(s: Seq<T>, p: spec_fn(T) -> bool, n: nat)
    requires
        n <= s.len(),
    ensures
        matching_upto(s, p, n).len() <= n,
        (forall|i: int| 0 <= i < n ==> !p(#[trigger] s[i])) ==> matching_upto(s, p, n).len() == 0,
    decreases n,
{
    if n > 0 {
        lemma_matching_count(s, p, (n - 1) as nat);
    }
}

} // verus!
