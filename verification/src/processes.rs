//! Node-local records of running service process groups.
//!
//! A daemon that is killed leaves its services running. The daemon that
//! replaces it on the same node must not start second copies next to them,
//! so it ends what a previous instance recorded. A record is only acted on
//! when its process group leader is provably the same process: same boot,
//! same start time. A reused PID is never signalled.

use vstd::prelude::*;

use crate::digest::{parts_of, short_digest, short_digest_text};
use crate::events::Key;
use crate::ids::{label, label_text};
use crate::text::{join_path, opt_text, path_text, some_is};

verus! {

/// A running service's process group.
#[derive(Debug, PartialEq, Eq)]
pub struct ProcessRecord {
    pub environment: String,
    pub project: String,
    pub workload: String,
    pub pid: u32,
    pub boot_id: String,
    pub start_time: u64,
}

/// Where process groups are recorded.
pub fn directory(state_dir: &str) -> (r: String)
    ensures
        r@ == path_text(state_dir@, "processes"@),
{
    join_path(state_dir, "processes")
}

/// Where a workload's process group is recorded.
pub fn record_file(state_dir: &str, key: &Key) -> (r: String)
    ensures
        r@ == path_text(
            path_text(state_dir@, "processes"@),
            short_digest_text(seq![key.0@, key.1@, key.2@]) + ".json"@,
        ),
{
    let parts = [key.0.as_str(), key.1.as_str(), key.2.as_str()];
    proof {
        assert(parts_of(parts@) =~= seq![key.0@, key.1@, key.2@]);
    }
    let name = short_digest(&parts).concat(".json");
    join_path(&directory(state_dir), &name)
}

/// What is recorded of a process group: nothing where the boot or the start
/// time of its leader is not known.
pub fn record(key: &Key, pid: u32, boot_id: Option<String>, start_time: Option<u64>) -> (r: Option<
    ProcessRecord,
>)
    ensures
        match (boot_id, start_time) {
            (Some(boot_id), Some(start_time)) => r == Some(
                ProcessRecord {
                    environment: key.0,
                    project: key.1,
                    workload: key.2,
                    pid,
                    boot_id,
                    start_time,
                },
            ),
            _ => r is None,
        },
{
    match (boot_id, start_time) {
        (Some(boot_id), Some(start_time)) => Some(
            ProcessRecord {
                environment: key.0.clone(),
                project: key.1.clone(),
                workload: key.2.clone(),
                pid,
                boot_id,
                start_time,
            },
        ),
        _ => None,
    }
}

impl ProcessRecord {
    /// Whether the process that has the recorded PID now is the one that was
    /// recorded.
    pub open spec fn is_same(self, boot_id: Option<Seq<char>>, start_time: Option<u64>) -> bool {
        boot_id == Some(self.boot_id@) && start_time == Some(self.start_time)
    }

    pub fn same_process(&self, boot_id: &Option<String>, start_time: Option<u64>) -> (r: bool)
        ensures
            r == self.is_same(opt_text(*boot_id), start_time),
    {
        match start_time {
            Some(at) => at == self.start_time && some_is(boot_id, &self.boot_id),
            None => false,
        }
    }
}

/// What is done about a recorded process group.
#[derive(Debug, PartialEq, Eq)]
pub enum Reap {
    /// Its leader is still the process recorded, and its group can be named:
    /// it is ended. The workload is reported once it was.
    End { group: i32, workload: String },
    /// It is left alone.
    Leave,
}

/// What is done about a recorded process group. A process that cannot be
/// told to be the one recorded is never signalled.
pub fn reap(record: &ProcessRecord, boot_id: &Option<String>, start_time: Option<u64>) -> (r: Reap)
    ensures
        if record.is_same(opt_text(*boot_id), start_time) && record.pid <= i32::MAX {
            r matches Reap::End { group, workload } && group == record.pid && workload@
                == label_text(record.environment@, record.project@, record.workload@)
        } else {
            r is Leave
        },
{
    if record.same_process(boot_id, start_time) && record.pid <= 0x7fff_ffff {
        Reap::End {
            group: record.pid as i32,
            workload: label(&record.environment, &record.project, &record.workload),
        }
    } else {
        Reap::Leave
    }
}

/// How often a process group that was asked to end is looked at before it is
/// killed.
pub const END_POLLS: u32 = 50;

/// What comes next for a process group that was asked to end.
#[derive(Debug, Clone, Copy, PartialEq, Eq, Structural)]
pub enum EndStep {
    /// It ended.
    Done,
    /// It had long enough: kill it.
    Kill,
    /// Look at it again a little later.
    Wait,
}

/// Decide about a process group that was asked to end, from how often it was
/// looked at and whether it was there the last time.
pub fn end_step(polls: u32, alive: bool) -> (r: EndStep)
    ensures
        r == (if !alive {
            EndStep::Done
        } else if polls >= END_POLLS {
            EndStep::Kill
        } else {
            EndStep::Wait
        }),
        r is Kill <==> alive && polls >= 50,
        r is Done <==> !alive,
{
    if !alive {
        EndStep::Done
    } else if polls >= END_POLLS {
        EndStep::Kill
    } else {
        EndStep::Wait
    }
}

// ---- Laws -------------------------------------------------------------------

/// After a reboot no record is acted on, and neither is one whose PID a
/// process started at another time has now.
pub proof fn law_reused_pids_are_never_signalled(
    record: ProcessRecord,
    boot_id: Option<Seq<char>>,
    start_time: Option<u64>,
)
    requires
        boot_id != Some(record.boot_id@) || start_time != Some(record.start_time),
    ensures
        !record.is_same(boot_id, start_time),
{
}

/// A process group is ended exactly when its leader is the process that was
/// recorded: of the same boot, started at the same time.
pub proof fn law_recorded_groups_are_recognised(
    record: ProcessRecord,
    boot_id: Seq<char>,
    start_time: u64,
)
    ensures
        record.is_same(Some(boot_id), Some(start_time)) <==> record.boot_id@ == boot_id
            && record.start_time == start_time,
        !record.is_same(None, Some(start_time)),
        !record.is_same(Some(boot_id), None),
{
}

} // verus!
