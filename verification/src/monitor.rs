//! What a watcher does with a raw event of the notifier.

use crate::scheduler::{Adapter, Event, JobEntry, PathKind, Scheduler};
use vstd::prelude::*;

verus! {

/// What becomes of a raw event.
pub enum Queued {
    /// The event announces a job, which goes to the work queue.
    Job(JobEntry),
    /// The event announces a job that could not be captured any more.
    Vanished,
    /// The event does not announce a job.
    Ignored,
}

/// Whether `r` is what becomes of `event`: a job goes to the work queue only
/// if the event qualifies, and it is the job that the first path of the event
/// stands for.
pub open spec fn queues(scheduler: &Adapter, event: &Event, found: PathKind, r: Queued) -> bool {
    if scheduler.qualifies(event) {
        match r {
            Queued::Job(job) => scheduler.captures(event.paths@[0]@, found, Some(job)),
            Queued::Vanished => scheduler.captures(event.paths@[0]@, found, None),
            Queued::Ignored => false,
        }
    } else {
        r is Ignored
    }
}

/// Checks that a raw event pertains to a job of the scheduler and, if it
/// does, captures the job for the work queue.
///
/// `found` is what the first path of the event led to when it was looked up;
/// it is of no account where the event has no path or does not qualify.
pub fn check_and_queue(scheduler: &Adapter, event: &Event, found: PathKind) -> (r: Queued)
    ensures
        queues(scheduler, event, found, r),
{
    match scheduler.verify_event_kind(event) {
        Some(paths) => {
            assert(paths@.len() == event.paths@.len()) by {
                assert(crate::scheduler::texts_of(paths@).len() == paths@.len());
                assert(crate::scheduler::texts_of(event.paths@).len() == event.paths@.len());
            }
            assert(paths@[0]@ == crate::scheduler::texts_of(paths@)[0]);
            assert(event.paths@[0]@ == crate::scheduler::texts_of(event.paths@)[0]);
            match scheduler.create_job_info(paths[0].as_str(), found) {
                Some(job) => Queued::Job(job),
                None => Queued::Vanished,
            }
        },
        None => Queued::Ignored,
    }
}

/// An event of another kind than the one that announces a job puts nothing
/// into the work queue.
pub proof fn lemma_other_kinds_ignored(
    scheduler: &Adapter,
    event: &Event,
    found: PathKind,
    r: Queued,
)
    requires
        queues(scheduler, event, found, r),
        match *scheduler {
            Adapter::Slurm(_) => event.kind != crate::scheduler::EventKind::Create(
                crate::scheduler::CreateKind::Folder,
            ),
            Adapter::Torque(_) => event.kind != crate::scheduler::EventKind::Create(
                crate::scheduler::CreateKind::File,
            ),
        },
    ensures
        !scheduler.qualifies(event),
        r is Ignored,
{
}

} // verus!
