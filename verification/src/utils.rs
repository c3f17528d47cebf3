//! Waiting for a file that the scheduler writes after it has made the
//! directory for it.
//!
//! The waiting itself happens outside: whoever reads the file looks whether it
//! is there, sleeps, and looks whether its directory is still there. What to do
//! after each of these is decided here.

use crate::scheduler::job::ReadError;
use vstd::prelude::*;

verus! {

/// The time to sleep between two looks at the file, in milliseconds.
pub const POLL_INTERVAL_MS: u64 = 10;

/// How far the wait for a file has come.
#[derive(Clone, Copy, Debug, PartialEq, Eq, Structural)]
pub enum PollState {
    /// The file is being looked for; `remaining` sleeps are left after this
    /// look.
    Probing { remaining: u32 },
    /// The file was not there; after the sleep its directory is looked for.
    Sleeping { remaining: u32 },
    /// The file can be read.
    Readable,
    /// The wait has failed.
    Failed(ReadError),
}

/// What has been observed outside.
#[derive(Clone, Copy, Debug, PartialEq, Eq, Structural)]
pub enum PollEvent {
    /// The file was looked for.
    Probed { exists: bool },
    /// The sleep is over and the directory of the file was looked for.
    Slept { parent_exists: bool },
}

/// What to do outside.
#[derive(Clone, Copy, Debug, PartialEq, Eq, Structural)]
pub enum PollAction {
    /// Look whether the file is there.
    Probe,
    /// Sleep for `POLL_INTERVAL_MS`, then look whether the directory of the
    /// file is there.
    Sleep,
    /// Read the file.
    Read,
    /// Give up with this error.
    Fail(ReadError),
}

/// The state after `event` was observed in `state`.
///
/// A file that is there is read. A file that is not there is waited for as
/// long as sleeps are left; when none is left, the wait fails with `Timeout`.
/// After each sleep a directory that is gone ends the wait with `ParentGone`.
/// An event that the state does not wait for changes nothing.
pub open spec fn poll_next(state: PollState, event: PollEvent) -> PollState {
    match (state, event) {
        (PollState::Probing { remaining }, PollEvent::Probed { exists }) => {
            if exists {
                PollState::Readable
            } else if remaining > 0 {
                PollState::Sleeping { remaining }
            } else {
                PollState::Failed(ReadError::Timeout)
            }
        },
        (PollState::Sleeping { remaining }, PollEvent::Slept { parent_exists }) => {
            if !parent_exists {
                PollState::Failed(ReadError::ParentGone)
            } else if remaining > 0 {
                PollState::Probing { remaining: (remaining - 1) as u32 }
            } else {
                PollState::Probing { remaining: 0 }
            }
        },
        (_, _) => state,
    }
}

/// What to do in `state`.
pub open spec fn poll_action(state: PollState) -> PollAction {
    match state {
        PollState::Probing { .. } => PollAction::Probe,
        PollState::Sleeping { .. } => PollAction::Sleep,
        PollState::Readable => PollAction::Read,
        PollState::Failed(e) => PollAction::Fail(e),
    }
}

/// The state after the events `events` were observed one after the other.
pub open spec fn poll_run(state: PollState, events: Seq<PollEvent>) -> PollState
    decreases events.len(),
{
    if events.len() == 0 {
        state
    } else {
        poll_next(poll_run(state, events.drop_last()), events.last())
    }
}

/// The number of sleeps that the events `events` lead to.
pub open spec fn poll_sleeps(state: PollState, events: Seq<PollEvent>) -> nat
    decreases events.len(),
{
    if events.len() == 0 {
        0
    } else {
        let before = poll_run(state, events.drop_last());
        let after = poll_next(before, events.last());
        poll_sleeps(state, events.drop_last()) + if before is Probing && after is Sleeping {
            1nat
        } else {
            0nat
        }
    }
}

/// The sleeps that are left in `state`.
pub open spec fn poll_budget(state: PollState) -> nat {
    match state {
        PollState::Probing { remaining } => remaining as nat,
        PollState::Sleeping { remaining } => if remaining > 0 {
            (remaining - 1) as nat
        } else {
            0
        },
        _ => 0,
    }
}

/// The events of `rounds` rounds in which the file is not there and its
/// directory is.
pub open spec fn idle_rounds(rounds: nat) -> Seq<PollEvent>
    decreases rounds,
{
    if rounds == 0 {
        Seq::empty()
    } else {
        idle_rounds((rounds - 1) as nat).push(PollEvent::Probed { exists: false }).push(
            PollEvent::Slept { parent_exists: true },
        )
    }
}

/// The wait for a file that is waited for through at most `polls` sleeps.
pub fn poll_start(polls: u32) -> (r: (PollState, PollAction))
    ensures
        r.0 == (PollState::Probing { remaining: polls }),
        r.1 == PollAction::Probe,
{
    (PollState::Probing { remaining: polls }, PollAction::Probe)
}

/// The state after `event` was observed in `state`, and what to do next.
pub fn poll_step(state: PollState, event: PollEvent) -> (r: (PollState, PollAction))
    ensures
        r.0 == poll_next(state, event),
        r.1 == poll_action(r.0),
{
    let next = match (state, event) {
        (PollState::Probing { remaining }, PollEvent::Probed { exists }) => {
            if exists {
                PollState::Readable
            } else if remaining > 0 {
                PollState::Sleeping { remaining }
            } else {
                PollState::Failed(ReadError::Timeout)
            }
        },
        (PollState::Sleeping { remaining }, PollEvent::Slept { parent_exists }) => {
            if !parent_exists {
                PollState::Failed(ReadError::ParentGone)
            } else if remaining > 0 {
                PollState::Probing { remaining: remaining - 1 }
            } else {
                PollState::Probing { remaining: 0 }
            }
        },
        (_, _) => state,
    };
    let action = match next {
        PollState::Probing { .. } => PollAction::Probe,
        PollState::Sleeping { .. } => PollAction::Sleep,
        PollState::Readable => PollAction::Read,
        PollState::Failed(e) => PollAction::Fail(e),
    };
    (next, action)
}

proof fn lemma_poll_budget(state: PollState, events: Seq<PollEvent>)
    requires
        state matches PollState::Sleeping { remaining } ==> remaining > 0,
    ensures
        poll_sleeps(state, events) + poll_budget(poll_run(state, events)) <= poll_budget(state),
        poll_run(state, events) matches PollState::Sleeping { remaining } ==> remaining > 0,
    decreases events.len(),
{
    if events.len() > 0 {
        lemma_poll_budget(state, events.drop_last());
    }
}

/// However the events fall, a wait that begins with `polls` sleeps left
/// never sleeps more than `polls` times.
pub proof fn lemma_poll_sleeps_bounded(polls: u32, events: Seq<PollEvent>)
    ensures
        poll_sleeps(PollState::Probing { remaining: polls }, events) <= polls,
{
    lemma_poll_budget(PollState::Probing { remaining: polls }, events);
}

proof fn lemma_idle_rounds(polls: u32, rounds: nat)
    requires
        rounds <= polls,
    ensures
        poll_run(PollState::Probing { remaining: polls }, idle_rounds(rounds)) == (
        PollState::Probing { remaining: (polls - rounds) as u32 }),
    decreases rounds,
{
    if rounds > 0 {
        lemma_idle_rounds(polls, (rounds - 1) as nat);
        let start = PollState::Probing { remaining: polls };
        let a = idle_rounds((rounds - 1) as nat);
        let b = a.push(PollEvent::Probed { exists: false });
        let c = b.push(PollEvent::Slept { parent_exists: true });
        assert(b.drop_last() == a);
        assert(b.last() == PollEvent::Probed { exists: false });
        assert(c.drop_last() == b);
        assert(c.last() == PollEvent::Slept { parent_exists: true });
        assert(idle_rounds(rounds) == c);
        let left = (polls - (rounds - 1)) as u32;
        assert(poll_run(start, a) == PollState::Probing { remaining: left });
        assert(poll_run(start, b) == PollState::Sleeping { remaining: left });
        assert(poll_run(start, c) == PollState::Probing { remaining: (left - 1) as u32 });
    }
}

/// A file that is there at a look within the bound is read: after any number
/// of sleeps up to `polls`, a look that finds the file ends the wait with the
/// file to be read.
pub proof fn lemma_poll_reads_within_bound(polls: u32, rounds: nat)
    requires
        rounds <= polls,
    ensures
        poll_run(
            PollState::Probing { remaining: polls },
            idle_rounds(rounds).push(PollEvent::Probed { exists: true }),
        ) == PollState::Readable,
{
    lemma_idle_rounds(polls, rounds);
    let events = idle_rounds(rounds).push(PollEvent::Probed { exists: true });
    assert(events.drop_last() == idle_rounds(rounds));
    assert(events.last() == PollEvent::Probed { exists: true });
}

/// A file that never appears in a directory that stays is given up after
/// `polls` sleeps, with `Timeout`.
pub proof fn lemma_poll_times_out(polls: u32)
    ensures
        poll_run(
            PollState::Probing { remaining: polls },
            idle_rounds(polls as nat).push(PollEvent::Probed { exists: false }),
        ) == PollState::Failed(ReadError::Timeout),
{
    lemma_idle_rounds(polls, polls as nat);
    let events = idle_rounds(polls as nat).push(PollEvent::Probed { exists: false });
    assert(events.drop_last() == idle_rounds(polls as nat));
    assert(events.last() == PollEvent::Probed { exists: false });
}

} // verus!
