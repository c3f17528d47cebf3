//! The schedulers whose spool directories can be watched, and what they have
//! in common.

pub mod environment;
pub mod job;
pub mod slurm;
pub mod torque;

use job::{files_view, EnvMap, JobInfo, ReadError, ReadRequest};
use regex::Regex;
use slurm::{Slurm, SlurmJobEntry};
use std::time::Instant;
use torque::{Torque, TorqueArgs, TorqueJobEntry};
use vstd::prelude::*;

verus! {

/// What was created, as far as the notifier knows.
#[derive(Clone, Copy, Debug, PartialEq, Eq, Structural)]
pub enum CreateKind {
    Any,
    File,
    Folder,
    Other,
}

/// The kind of a raw event of the notifier.
#[derive(Clone, Copy, Debug, PartialEq, Eq, Structural)]
pub enum EventKind {
    Any,
    Access,
    Create(CreateKind),
    Modify,
    Remove,
    Other,
}

/// A raw event of the notifier: what happened, and to which paths.
#[derive(Debug)]
pub struct Event {
    pub kind: EventKind,
    pub paths: Vec<String>,
}

/// What a path led to when it was looked up.
#[derive(Clone, Copy, Debug, PartialEq, Eq, Structural)]
pub enum PathKind {
    Directory,
    File,
    Other,
}

/// The texts of a list of strings.
pub open spec fn texts_of(v: Seq<String>) -> Seq<Seq<char>> {
    Seq::new(v.len(), |i: int| v[i]@)
}

/// Whether `r` is what an event gives that qualifies or not: its paths, or
/// nothing.
pub open spec fn passes(qualifies: bool, event: &Event, r: Option<Vec<String>>) -> bool {
    match r {
        Some(paths) => qualifies && texts_of(paths@) == texts_of(event.paths@),
        None => !qualifies,
    }
}

/// A copy of a list of paths.
pub fn copy_paths(paths: &Vec<String>) -> (r: Vec<String>)
    ensures
        texts_of(r@) == texts_of(paths@),
{
    let mut r: Vec<String> = Vec::new();
    let mut i: usize = 0;
    while i < paths.len()
        invariant
            i <= paths@.len(),
            r@.len() == i,
            forall|k: int| 0 <= k < i ==> (#[trigger] r@[k])@ == paths@[k]@,
        decreases paths@.len() - i,
    {
        r.push(paths[i].clone());
        i += 1;
    }
    assert(texts_of(r@) =~= texts_of(paths@));
    r
}

/// What is particular to a scheduler: where its jobs appear, which events
/// announce one, and how a job is captured.
pub trait Scheduler {
    /// The captured jobs of this scheduler.
    type Job: JobInfo;

    /// The directories to watch, none of them recursively.
    fn watch_locations(&self) -> Vec<String>;

    /// The job that the path of an event stands for, if it still leads to
    /// one; `found` is what the path led to when it was looked up.
    fn create_job_info(&self, event_path: &str, found: PathKind) -> Option<Self::Job>;

    /// The paths of a raw event, if it announces a new job.
    fn verify_event_kind(&self, event: &Event) -> Option<Vec<String>>;
}

/// Denotes the schedulers that are supported.
#[derive(Clone, Copy, Debug, PartialEq, Eq, Structural)]
pub enum SchedulerKind {
    Slurm,
    Torque,
}

/// Command line options of the hash-spooled scheduler.
pub struct SlurmArgs {
    /// A regular expression; the variables of the environment whose names it
    /// matches are left out.
    pub filter_regex: Option<String>,
}

/// The command line options of the scheduler that was chosen.
pub enum SchedArgs {
    Slurm(SlurmArgs),
    Torque(TorqueArgs),
}

/// A captured job of either scheduler.
pub enum JobEntry {
    Slurm(SlurmJobEntry),
    Torque(TorqueJobEntry),
}

impl JobEntry {
    /// The job ID.
    pub open spec fn id(&self) -> Seq<char> {
        match *self {
            JobEntry::Slurm(e) => e.id(),
            JobEntry::Torque(e) => e.id(),
        }
    }

    /// The name of the cluster.
    pub open spec fn cluster_name(&self) -> Seq<char> {
        match *self {
            JobEntry::Slurm(e) => e.cluster_name(),
            JobEntry::Torque(e) => e.cluster_name(),
        }
    }

    /// When the entry was made.
    pub open spec fn made_at(&self) -> Instant {
        match *self {
            JobEntry::Slurm(e) => e.made_at(),
            JobEntry::Torque(e) => e.made_at(),
        }
    }

    /// Whether every file of the job has been read.
    pub open spec fn complete(&self) -> bool {
        match *self {
            JobEntry::Slurm(e) => e.complete(),
            JobEntry::Torque(e) => e.complete(),
        }
    }

    /// Whether `r` asks for what this entry reads next.
    pub open spec fn requests(&self, r: ReadRequest) -> bool {
        match *self {
            JobEntry::Slurm(e) => e.requests(r),
            JobEntry::Torque(e) => e.requests(r),
        }
    }

    /// Whether `after` is this entry once it has taken `outcome`, with `r` as
    /// the answer.
    pub open spec fn takes_file(
        &self,
        outcome: Result<Vec<u8>, ReadError>,
        after: &JobEntry,
        r: Result<(), ReadError>,
    ) -> bool {
        match (*self, *after) {
            (JobEntry::Slurm(a), JobEntry::Slurm(b)) => a.takes_file(outcome, &b, r),
            (JobEntry::Torque(a), JobEntry::Torque(b)) => a.takes_file(outcome, &b, r),
            (_, _) => false,
        }
    }

    /// Whether `after` is this entry once it has taken the files `found`.
    pub open spec fn takes_matches(&self, found: Seq<(String, Vec<u8>)>, after: &JobEntry) -> bool {
        match (*self, *after) {
            (JobEntry::Slurm(a), JobEntry::Slurm(b)) => a == b,
            (JobEntry::Torque(a), JobEntry::Torque(b)) => a.takes_matches(found, &b),
            (_, _) => false,
        }
    }

    /// The files that go to the archive.
    pub open spec fn archive_files(&self) -> Seq<(Seq<char>, Seq<u8>)> {
        match *self {
            JobEntry::Slurm(e) => e.archive_files(),
            JobEntry::Torque(e) => e.archive_files(),
        }
    }

    /// The job script as text; empty while no script has been read.
    pub open spec fn script_text(&self) -> Seq<char> {
        match *self {
            JobEntry::Slurm(e) => e.script_text(),
            JobEntry::Torque(e) => e.script_text(),
        }
    }

    /// Whether `r` holds the further details of the job.
    pub open spec fn gives_extra_info(&self, r: Option<EnvMap>) -> bool {
        match *self {
            JobEntry::Slurm(e) => e.gives_extra_info(r),
            JobEntry::Torque(e) => e.gives_extra_info(r),
        }
    }
}

impl JobInfo for JobEntry {
    fn jobid(&self) -> (r: String)
        ensures
            r@ == self.id(),
    {
        match self {
            JobEntry::Slurm(e) => e.jobid(),
            JobEntry::Torque(e) => e.jobid(),
        }
    }

    fn moment(&self) -> (r: Instant)
        ensures
            r == self.made_at(),
    {
        match self {
            JobEntry::Slurm(e) => e.moment(),
            JobEntry::Torque(e) => e.moment(),
        }
    }

    fn cluster(&self) -> (r: String)
        ensures
            r@ == self.cluster_name(),
    {
        match self {
            JobEntry::Slurm(e) => e.cluster(),
            JobEntry::Torque(e) => e.cluster(),
        }
    }

    fn next_read(&self) -> (r: ReadRequest)
        ensures
            self.requests(r),
            r is Complete <==> self.complete(),
    {
        match self {
            JobEntry::Slurm(e) => e.next_read(),
            JobEntry::Torque(e) => e.next_read(),
        }
    }

    fn supply_file(&mut self, outcome: Result<Vec<u8>, ReadError>) -> (r: Result<(), ReadError>)
        ensures
            old(self).takes_file(outcome, final(self), r),
    {
        match self {
            JobEntry::Slurm(e) => e.supply_file(outcome),
            JobEntry::Torque(e) => e.supply_file(outcome),
        }
    }

    fn supply_matches(&mut self, found: Vec<(String, Vec<u8>)>)
        ensures
            old(self).takes_matches(found@, final(self)),
    {
        match self {
            JobEntry::Slurm(e) => e.supply_matches(found),
            JobEntry::Torque(e) => e.supply_matches(found),
        }
    }

    fn files(&self) -> (r: Vec<(String, Vec<u8>)>)
        ensures
            files_view(r@) == self.archive_files(),
    {
        match self {
            JobEntry::Slurm(e) => e.files(),
            JobEntry::Torque(e) => e.files(),
        }
    }

    fn script(&self) -> (r: String)
        ensures
            r@ == self.script_text(),
    {
        match self {
            JobEntry::Slurm(e) => e.script(),
            JobEntry::Torque(e) => e.script(),
        }
    }

    fn extra_info(&self) -> (r: Option<EnvMap>)
        ensures
            self.gives_extra_info(r),
    {
        match self {
            JobEntry::Slurm(e) => e.extra_info(),
            JobEntry::Torque(e) => e.extra_info(),
        }
    }
}

/// The scheduler that was chosen for this run.
pub enum Adapter {
    Slurm(Slurm),
    Torque(Torque),
}

impl Adapter {
    /// The directories to watch.
    pub open spec fn locations(&self) -> Seq<Seq<char>> {
        match *self {
            Adapter::Slurm(s) => s.locations(),
            Adapter::Torque(t) => t.locations(),
        }
    }

    /// Whether `event` announces a new job.
    pub open spec fn qualifies(&self, event: &Event) -> bool {
        match *self {
            Adapter::Slurm(s) => s.qualifies(event),
            Adapter::Torque(t) => t.qualifies(event),
        }
    }

    /// Whether `r` is the job that `event_path` stands for.
    pub open spec fn captures(&self, event_path: Seq<char>, found: PathKind, r: Option<JobEntry>) -> bool {
        match *self {
            Adapter::Slurm(s) => match r {
                Some(JobEntry::Slurm(e)) => s.captures(event_path, found, Some(e)),
                Some(JobEntry::Torque(_)) => false,
                None => s.captures(event_path, found, None),
            },
            Adapter::Torque(t) => match r {
                Some(JobEntry::Torque(e)) => t.captures(event_path, found, Some(e)),
                Some(JobEntry::Slurm(_)) => false,
                None => t.captures(event_path, found, None),
            },
        }
    }
}

impl Scheduler for Adapter {
    type Job = JobEntry;

    fn watch_locations(&self) -> (r: Vec<String>)
        ensures
            texts_of(r@) == self.locations(),
    {
        match self {
            Adapter::Slurm(s) => s.watch_locations(),
            Adapter::Torque(t) => t.watch_locations(),
        }
    }

    fn create_job_info(&self, event_path: &str, found: PathKind) -> (r: Option<JobEntry>)
        ensures
            self.captures(event_path@, found, r),
    {
        match self {
            Adapter::Slurm(s) => match s.create_job_info(event_path, found) {
                Some(e) => Some(JobEntry::Slurm(e)),
                None => None,
            },
            Adapter::Torque(t) => match t.create_job_info(event_path, found) {
                Some(e) => Some(JobEntry::Torque(e)),
                None => None,
            },
        }
    }

    fn verify_event_kind(&self, event: &Event) -> (r: Option<Vec<String>>)
        ensures
            passes(self.qualifies(event), event, r),
    {
        match self {
            Adapter::Slurm(s) => s.verify_event_kind(event),
            Adapter::Torque(t) => t.verify_event_kind(event),
        }
    }
}

/// The scheduler of the kind `kind` for the spool directory `spool_path`.
///
/// The filter is for the hash-spooled scheduler, which leaves out the
/// variables whose names it matches; `subdirs` is for the other one, and says
/// whether its spool directory has the subdirectories `0` to `9`.
pub fn create(
    kind: &SchedulerKind,
    spool_path: &str,
    cluster: &str,
    filter_regex: &Option<Regex>,
    subdirs: bool,
) -> (r: Adapter)
    ensures
        match *kind {
            SchedulerKind::Slurm => r matches Adapter::Slurm(s) && s.base@ == spool_path@
                && s.cluster@ == cluster@ && s.filter_regex == *filter_regex,
            SchedulerKind::Torque => r matches Adapter::Torque(t) && t.base@ == spool_path@
                && t.cluster@ == cluster@ && t.subdirs == subdirs,
        },
{
    match kind {
        SchedulerKind::Slurm => Adapter::Slurm(Slurm::new(spool_path, cluster, filter_regex)),
        SchedulerKind::Torque => {
            let mut t = Torque::new(spool_path, cluster);
            t.subdirs = subdirs;
            Adapter::Torque(t)
        },
    }
}

} // verus!
