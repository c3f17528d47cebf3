//! The processor: the single consumer of the work queue.
//!
//! The processor waits for a record or for the stop broadcast. A record is
//! left alone until two seconds have passed since its event, so that the
//! scheduler has had the time to write the job's files; then its files are
//! read and the record is handed to the sink. On the stop broadcast the
//! processor either leaves the queue as it is, or works through what is in it.
//!
//! Waiting, sleeping, reading and submitting happen outside. What to do after
//! each of them is decided here.

use vstd::prelude::*;

verus! {

/// The least age of a record at which its files are read, in milliseconds.
pub const DEBOUNCE_MS: u64 = 2000;

/// Why a sink did not take a record.
#[derive(Clone, Copy, Debug, PartialEq, Eq, Structural)]
pub enum SinkError {
    /// The record could not be put into the form that the sink sends.
    InvalidData,
    /// The transport of the sink failed.
    Transport,
}

/// Where the processor stands.
#[derive(Clone, Copy, Debug, PartialEq, Eq, Structural)]
pub enum Phase {
    /// No record is at hand.
    Idle,
    /// A record is at hand that is too young to be read.
    Debouncing,
    /// The files of the record at hand are being read.
    Reading,
    /// The record at hand is being handed to the sink.
    Submitting,
    /// The processor has ended in an orderly way.
    Stopped,
    /// The processor has ended with an error.
    Surfaced,
}

/// The state of the processor.
#[derive(Clone, Copy, Debug, PartialEq, Eq, Structural)]
pub struct Processor {
    /// Whether the queue is worked through on the stop broadcast.
    pub cleanup: bool,
    /// Where the processor stands.
    pub phase: Phase,
    /// Whether the stop broadcast has been observed and the queue is being
    /// worked through.
    pub draining: bool,
}

/// What has happened outside.
#[derive(Clone, Copy, Debug, PartialEq, Eq, Structural)]
pub enum ProcessorEvent {
    /// A record was taken from the queue; its event was observed
    /// `elapsed_ms` milliseconds ago.
    Work { elapsed_ms: u64 },
    /// The stop broadcast was observed while `queue_depth` records were in
    /// the queue.
    Stop { queue_depth: usize },
    /// Nothing more can come from the queue.
    Closed,
    /// The sleep is over.
    Slept,
    /// The files of the record were read, or could not be read.
    ReadDone { ok: bool },
    /// The sink took the record.
    Submitted,
    /// The sink did not take the record.
    SubmitFailed { error: SinkError },
}

/// What to do outside.
#[derive(Clone, Copy, Debug, PartialEq, Eq, Structural)]
pub enum ProcessorAction {
    /// Wait for the stop broadcast or for a record, whichever comes first.
    Await,
    /// Take the next record from the queue without looking for the stop
    /// broadcast.
    Take,
    /// Sleep for `ms` milliseconds.
    Sleep { ms: u64 },
    /// Read the files of the record at hand.
    Read,
    /// Hand the record at hand to the sink.
    Submit,
    /// End in an orderly way; `skipped` records are left in the queue.
    Finish { skipped: usize },
    /// End with the error of the record at hand.
    Surface,
}

/// How long a record that is `elapsed_ms` milliseconds old is left alone.
pub open spec fn debounce_wait(elapsed_ms: u64) -> u64 {
    if elapsed_ms < DEBOUNCE_MS {
        (DEBOUNCE_MS - elapsed_ms) as u64
    } else {
        0
    }
}

/// What to do when no record is at hand.
pub open spec fn idle_action(draining: bool) -> ProcessorAction {
    if draining {
        ProcessorAction::Take
    } else {
        ProcessorAction::Await
    }
}

/// The state after `event` has happened in `state`, and what to do next.
///
/// A record is read once it is two seconds old, whether it arrives while the
/// processor waits or is taken while the queue is worked through. Files that
/// cannot be read end the processor with an error. A
/// record that was read is handed to the sink. If the sink cannot put it into
/// its form, the record is dropped and the processor goes on; if the
/// transport fails, the processor ends with an error. The stop broadcast ends
/// the processor, at once or, with `cleanup`, when the queue is exhausted. An
/// event that the state does not wait for changes nothing.
pub open spec fn transition(state: Processor, event: ProcessorEvent) -> (
    Processor,
    ProcessorAction,
) {
    match (state.phase, event) {
        (Phase::Idle, ProcessorEvent::Work { elapsed_ms }) => {
            if elapsed_ms < DEBOUNCE_MS {
                (
                    Processor { phase: Phase::Debouncing, ..state },
                    ProcessorAction::Sleep { ms: debounce_wait(elapsed_ms) },
                )
            } else {
                (Processor { phase: Phase::Reading, ..state }, ProcessorAction::Read)
            }
        },
        (Phase::Idle, ProcessorEvent::Stop { queue_depth }) => {
            if state.draining {
                (state, ProcessorAction::Take)
            } else if state.cleanup {
                (Processor { draining: true, ..state }, ProcessorAction::Take)
            } else {
                (
                    Processor { phase: Phase::Stopped, ..state },
                    ProcessorAction::Finish { skipped: queue_depth },
                )
            }
        },
        (Phase::Idle, ProcessorEvent::Closed) => (
            Processor { phase: Phase::Stopped, ..state },
            ProcessorAction::Finish { skipped: 0 },
        ),
        (Phase::Idle, _) => (state, idle_action(state.draining)),
        (Phase::Debouncing, ProcessorEvent::Slept) => (
            Processor { phase: Phase::Reading, ..state },
            ProcessorAction::Read,
        ),
        (Phase::Debouncing, _) => (state, ProcessorAction::Sleep { ms: 0 }),
        (Phase::Reading, ProcessorEvent::ReadDone { ok }) => {
            if ok {
                (Processor { phase: Phase::Submitting, ..state }, ProcessorAction::Submit)
            } else {
                (Processor { phase: Phase::Surfaced, ..state }, ProcessorAction::Surface)
            }
        },
        (Phase::Reading, _) => (state, ProcessorAction::Read),
        (Phase::Submitting, ProcessorEvent::Submitted) => (
            Processor { phase: Phase::Idle, ..state },
            idle_action(state.draining),
        ),
        (Phase::Submitting, ProcessorEvent::SubmitFailed { error }) => {
            match error {
                SinkError::Transport => (
                    Processor { phase: Phase::Surfaced, ..state },
                    ProcessorAction::Surface,
                ),
                SinkError::InvalidData => (
                    Processor { phase: Phase::Idle, ..state },
                    idle_action(state.draining),
                ),
            }
        },
        (Phase::Submitting, _) => (state, ProcessorAction::Submit),
        (Phase::Stopped, _) => (state, ProcessorAction::Finish { skipped: 0 }),
        (Phase::Surfaced, _) => (state, ProcessorAction::Surface),
    }
}

/// The state after the events `events` have happened one after the other.
pub open spec fn run(state: Processor, events: Seq<ProcessorEvent>) -> Processor
    decreases events.len(),
{
    if events.len() == 0 {
        state
    } else {
        transition(run(state, events.drop_last()), events.last()).0
    }
}

/// The number of records that are handed to the sink while the events
/// `events` happen: each step from reading to submitting counts.
pub open spec fn submissions(state: Processor, events: Seq<ProcessorEvent>) -> nat
    decreases events.len(),
{
    if events.len() == 0 {
        0
    } else {
        let before = run(state, events.drop_last());
        let after = transition(before, events.last()).0;
        submissions(state, events.drop_last()) + if before.phase == Phase::Reading && after.phase
            == Phase::Submitting {
            1nat
        } else {
            0nat
        }
    }
}

/// What the sink answers to a record that it takes, or that it cannot put
/// into its form.
pub open spec fn answer(taken: bool) -> ProcessorEvent {
    if taken {
        ProcessorEvent::Submitted
    } else {
        ProcessorEvent::SubmitFailed { error: SinkError::InvalidData }
    }
}

/// The events of one record that is taken from the queue when it is
/// `elapsed_ms` milliseconds old while the queue is worked through: the sleep
/// that a young record is left alone for ends, its files are read, and the
/// sink takes it or cannot put it into its form.
pub open spec fn drained_record(elapsed_ms: u64, taken: bool) -> Seq<ProcessorEvent> {
    let rest = seq![ProcessorEvent::ReadDone { ok: true }, answer(taken)];
    if elapsed_ms < DEBOUNCE_MS {
        seq![ProcessorEvent::Work { elapsed_ms }, ProcessorEvent::Slept] + rest
    } else {
        seq![ProcessorEvent::Work { elapsed_ms }] + rest
    }
}

/// The events of the given records, each with its age and with whether the
/// sink takes it, as they are worked through one after the other.
pub open spec fn drained_records(records: Seq<(u64, bool)>) -> Seq<ProcessorEvent>
    decreases records.len(),
{
    if records.len() == 0 {
        Seq::empty()
    } else {
        drained_records(records.drop_last()) + drained_record(
            records.last().0,
            records.last().1,
        )
    }
}

impl Processor {
    /// A processor that waits for its first record.
    pub fn new(cleanup: bool) -> (r: (Processor, ProcessorAction))
        ensures
            r.0 == (Processor { cleanup, phase: Phase::Idle, draining: false }),
            r.1 == ProcessorAction::Await,
    {
        (Processor { cleanup, phase: Phase::Idle, draining: false }, ProcessorAction::Await)
    }

    /// Takes note of `event` and says what to do next.
    pub fn step(&mut self, event: ProcessorEvent) -> (action: ProcessorAction)
        ensures
            (*final(self), action) == transition(*old(self), event),
    {
        match (self.phase, event) {
            (Phase::Idle, ProcessorEvent::Work { elapsed_ms }) => {
                if elapsed_ms < DEBOUNCE_MS {
                    self.phase = Phase::Debouncing;
                    ProcessorAction::Sleep { ms: debounce(elapsed_ms) }
                } else {
                    self.phase = Phase::Reading;
                    ProcessorAction::Read
                }
            },
            (Phase::Idle, ProcessorEvent::Stop { queue_depth }) => {
                if self.draining {
                    ProcessorAction::Take
                } else if self.cleanup {
                    self.draining = true;
                    ProcessorAction::Take
                } else {
                    self.phase = Phase::Stopped;
                    ProcessorAction::Finish { skipped: queue_depth }
                }
            },
            (Phase::Idle, ProcessorEvent::Closed) => {
                self.phase = Phase::Stopped;
                ProcessorAction::Finish { skipped: 0 }
            },
            (Phase::Idle, _) => {
                if self.draining {
                    ProcessorAction::Take
                } else {
                    ProcessorAction::Await
                }
            },
            (Phase::Debouncing, ProcessorEvent::Slept) => {
                self.phase = Phase::Reading;
                ProcessorAction::Read
            },
            (Phase::Debouncing, _) => ProcessorAction::Sleep { ms: 0 },
            (Phase::Reading, ProcessorEvent::ReadDone { ok }) => {
                if ok {
                    self.phase = Phase::Submitting;
                    ProcessorAction::Submit
                } else {
                    self.phase = Phase::Surfaced;
                    ProcessorAction::Surface
                }
            },
            (Phase::Reading, _) => ProcessorAction::Read,
            (Phase::Submitting, ProcessorEvent::Submitted) => {
                self.phase = Phase::Idle;
                if self.draining {
                    ProcessorAction::Take
                } else {
                    ProcessorAction::Await
                }
            },
            (Phase::Submitting, ProcessorEvent::SubmitFailed { error }) => {
                match error {
                    SinkError::Transport => {
                        self.phase = Phase::Surfaced;
                        ProcessorAction::Surface
                    },
                    SinkError::InvalidData => {
                        self.phase = Phase::Idle;
                        if self.draining {
                            ProcessorAction::Take
                        } else {
                            ProcessorAction::Await
                        }
                    },
                }
            },
            (Phase::Submitting, _) => ProcessorAction::Submit,
            (Phase::Stopped, _) => ProcessorAction::Finish { skipped: 0 },
            (Phase::Surfaced, _) => ProcessorAction::Surface,
        }
    }
}

/// How long a record that is `elapsed_ms` milliseconds old is left alone
/// before its files are read.
pub fn debounce(elapsed_ms: u64) -> (ms: u64)
    ensures
        ms == debounce_wait(elapsed_ms),
        elapsed_ms + ms >= DEBOUNCE_MS,
        ms == 0 <==> elapsed_ms >= DEBOUNCE_MS,
{
    if elapsed_ms < DEBOUNCE_MS {
        DEBOUNCE_MS - elapsed_ms
    } else {
        0
    }
}

/// A record that is taken from the queue is not read before it is two
/// seconds old: it is read at once only at that age, and else after a sleep
/// that brings it to that age.
pub proof fn lemma_debounce_floor(state: Processor, elapsed_ms: u64)
    requires
        state.phase == Phase::Idle,
    ensures
        match transition(state, ProcessorEvent::Work { elapsed_ms }).1 {
            ProcessorAction::Read => elapsed_ms >= DEBOUNCE_MS,
            ProcessorAction::Sleep { ms } => elapsed_ms + ms == DEBOUNCE_MS,
            _ => false,
        },
        transition(state, ProcessorEvent::Work { elapsed_ms }).0.phase != Phase::Submitting,
{
}

/// The processor with the clock beside it.
pub struct Timeline {
    /// The state of the processor.
    pub processor: Processor,
    /// The time of the last event, in milliseconds.
    pub now: int,
    /// The time of the event that announced the record at hand.
    pub moment: int,
    /// The time before which the sleep that is under way does not end.
    pub wake: int,
}

/// Whether `event` can happen at the time `at`: time does not run backwards,
/// and a sleep does not end early.
pub open spec fn in_time(t: Timeline, event: ProcessorEvent, at: int) -> bool {
    &&& at >= t.now
    &&& t.processor.phase == Phase::Debouncing && event == ProcessorEvent::Slept ==> at >= t.wake
}

/// The timeline after `event` has happened at the time `at`: a record that is
/// taken from the queue brings its moment, and a sleep that begins sets the
/// time before which it does not end.
pub open spec fn advance(t: Timeline, event: ProcessorEvent, at: int) -> Timeline {
    let (next, action) = transition(t.processor, event);
    Timeline {
        processor: next,
        now: at,
        moment: if t.processor.phase == Phase::Idle && event is Work {
            at - event->elapsed_ms
        } else {
            t.moment
        },
        wake: if t.processor.phase == Phase::Idle && action is Sleep {
            at + action->ms
        } else {
            t.wake
        },
    }
}

/// The timeline after the events `events` have happened, each at its time.
pub open spec fn advance_all(t: Timeline, events: Seq<(ProcessorEvent, int)>) -> Timeline
    decreases events.len(),
{
    if events.len() == 0 {
        t
    } else {
        advance(advance_all(t, events.drop_last()), events.last().0, events.last().1)
    }
}

/// Whether each of the events `events` can happen at its time.
pub open spec fn all_in_time(t: Timeline, events: Seq<(ProcessorEvent, int)>) -> bool
    decreases events.len(),
{
    if events.len() == 0 {
        true
    } else {
        all_in_time(t, events.drop_last()) && in_time(
            advance_all(t, events.drop_last()),
            events.last().0,
            events.last().1,
        )
    }
}

/// Whether the record at hand is old enough for where the processor stands:
/// a record that is being read or submitted is at least two seconds old, and
/// one that is left alone will be when its sleep ends.
pub open spec fn old_enough(t: Timeline) -> bool {
    &&& t.processor.phase == Phase::Reading || t.processor.phase == Phase::Submitting ==> t.now
        - t.moment >= DEBOUNCE_MS
    &&& t.processor.phase == Phase::Debouncing ==> t.wake - t.moment >= DEBOUNCE_MS
}

/// An event in time keeps the record at hand old enough.
pub proof fn lemma_old_enough_step(t: Timeline, event: ProcessorEvent, at: int)
    requires
        old_enough(t),
        in_time(t, event, at),
    ensures
        old_enough(advance(t, event, at)),
{
}

/// Every record is at least two seconds old when it is handed to the sink:
/// whatever happens from the moment at which the processor begins to wait, as
/// long as time does not run backwards and no sleep ends early, a record that
/// is being read or submitted has that age.
pub proof fn lemma_submitted_records_are_old_enough(
    start: Timeline,
    events: Seq<(ProcessorEvent, int)>,
)
    requires
        start.processor.phase == Phase::Idle,
        all_in_time(start, events),
    ensures
        old_enough(advance_all(start, events)),
        events.len() > 0 && transition(
            advance_all(start, events.drop_last()).processor,
            events.last().0,
        ).1 == ProcessorAction::Submit ==> events.last().1 - advance_all(start, events).moment
            >= DEBOUNCE_MS,
    decreases events.len(),
{
    if events.len() > 0 {
        lemma_submitted_records_are_old_enough(start, events.drop_last());
        lemma_old_enough_step(
            advance_all(start, events.drop_last()),
            events.last().0,
            events.last().1,
        );
    }
}

/// What has happened first and what has happened then can be told apart in
/// the count of submissions.
pub proof fn lemma_run_append(
    state: Processor,
    first: Seq<ProcessorEvent>,
    then: Seq<ProcessorEvent>,
)
    ensures
        run(state, first + then) == run(run(state, first), then),
        submissions(state, first + then) == submissions(state, first) + submissions(
            run(state, first),
            then,
        ),
    decreases then.len(),
{
    if then.len() == 0 {
        assert(first + then == first);
    } else {
        lemma_run_append(state, first, then.drop_last());
        assert((first + then).drop_last() == first + then.drop_last());
        assert((first + then).last() == then.last());
    }
}

/// One event is one transition.
pub proof fn lemma_run_one(state: Processor, event: ProcessorEvent)
    ensures
        run(state, seq![event]) == transition(state, event).0,
        submissions(state, seq![event]) == if state.phase == Phase::Reading && transition(
            state,
            event,
        ).0.phase == Phase::Submitting {
            1nat
        } else {
            0nat
        },
{
    let one = seq![event];
    assert(one.drop_last() == Seq::<ProcessorEvent>::empty());
    assert(one.last() == event);
    assert(run(state, one.drop_last()) == state);
    assert(submissions(state, one.drop_last()) == 0);
}

proof fn lemma_ended(state: Processor, events: Seq<ProcessorEvent>)
    requires
        state.phase == Phase::Stopped || state.phase == Phase::Surfaced,
    ensures
        run(state, events) == state,
        submissions(state, events) == 0,
    decreases events.len(),
{
    if events.len() > 0 {
        lemma_ended(state, events.drop_last());
    }
}

/// Without `cleanup`, no record is handed to the sink after the stop
/// broadcast was observed, whatever happens then.
pub proof fn lemma_no_submission_after_stop(
    state: Processor,
    queue_depth: usize,
    events: Seq<ProcessorEvent>,
)
    requires
        !state.cleanup,
        !state.draining,
        state.phase == Phase::Idle,
    ensures
        transition(state, ProcessorEvent::Stop { queue_depth }).1 == (ProcessorAction::Finish {
            skipped: queue_depth,
        }),
        submissions(transition(state, ProcessorEvent::Stop { queue_depth }).0, events) == 0,
        submissions(state, seq![ProcessorEvent::Stop { queue_depth }] + events) == 0,
{
    let stop = seq![ProcessorEvent::Stop { queue_depth }];
    let stopped = transition(state, ProcessorEvent::Stop { queue_depth }).0;
    lemma_ended(stopped, events);
    lemma_run_one(state, ProcessorEvent::Stop { queue_depth });
    lemma_run_append(state, stop, events);
}

proof fn lemma_drained_record(state: Processor, elapsed_ms: u64, taken: bool)
    requires
        state.draining,
        state.phase == Phase::Idle,
    ensures
        run(state, drained_record(elapsed_ms, taken)) == state,
        submissions(state, drained_record(elapsed_ms, taken)) == 1,
{
    let work = ProcessorEvent::Work { elapsed_ms };
    let read = ProcessorEvent::ReadDone { ok: true };
    let debouncing = Processor { phase: Phase::Debouncing, ..state };
    let reading = Processor { phase: Phase::Reading, ..state };
    let submitting = Processor { phase: Phase::Submitting, ..state };
    lemma_run_one(state, work);
    lemma_run_one(debouncing, ProcessorEvent::Slept);
    lemma_run_one(reading, read);
    lemma_run_one(submitting, answer(taken));
    assert(transition(debouncing, ProcessorEvent::Slept).0 == reading);
    assert(transition(reading, read).0 == submitting);
    assert(transition(submitting, answer(taken)).0 == state);
    let first = if elapsed_ms < DEBOUNCE_MS {
        seq![work] + seq![ProcessorEvent::Slept]
    } else {
        seq![work]
    };
    if elapsed_ms < DEBOUNCE_MS {
        assert(transition(state, work).0 == debouncing);
        lemma_run_append(state, seq![work], seq![ProcessorEvent::Slept]);
    } else {
        assert(transition(state, work).0 == reading);
    }
    assert(run(state, first) == reading);
    assert(submissions(state, first) == 0);
    lemma_run_append(state, first, seq![read]);
    lemma_run_append(state, first + seq![read], seq![answer(taken)]);
    assert(drained_record(elapsed_ms, taken) =~= first + seq![read] + seq![answer(taken)]);
}

proof fn lemma_drained_records(state: Processor, records: Seq<(u64, bool)>)
    requires
        state.draining,
        state.phase == Phase::Idle,
    ensures
        run(state, drained_records(records)) == state,
        submissions(state, drained_records(records)) == records.len(),
    decreases records.len(),
{
    if records.len() > 0 {
        lemma_drained_records(state, records.drop_last());
        lemma_drained_record(state, records.last().0, records.last().1);
        lemma_run_append(
            state,
            drained_records(records.drop_last()),
            drained_record(records.last().0, records.last().1),
        );
    }
}

/// With `cleanup`, the records that are in the queue when the stop broadcast
/// is observed are all handed to the sink, provided that the files of each
/// can be read and that the transport of the sink does not fail: the number
/// of submissions at the end is the number before the stop broadcast plus
/// the number of these records, and the processor has ended in an orderly
/// way.
pub proof fn lemma_drain_submits_queue(
    start: Processor,
    before: Seq<ProcessorEvent>,
    queue_depth: usize,
    records: Seq<(u64, bool)>,
)
    requires
        run(start, before).cleanup,
        !run(start, before).draining,
        run(start, before).phase == Phase::Idle,
        records.len() == queue_depth,
    ensures
        submissions(
            start,
            before + seq![ProcessorEvent::Stop { queue_depth }] + drained_records(records) + seq![
                ProcessorEvent::Closed,
            ],
        ) == submissions(start, before) + queue_depth,
        run(
            start,
            before + seq![ProcessorEvent::Stop { queue_depth }] + drained_records(records) + seq![
                ProcessorEvent::Closed,
            ],
        ).phase == Phase::Stopped,
{
    let at_stop = run(start, before);
    let stop = seq![ProcessorEvent::Stop { queue_depth }];
    let closed = seq![ProcessorEvent::Closed];
    let draining = Processor { draining: true, ..at_stop };
    lemma_run_one(at_stop, ProcessorEvent::Stop { queue_depth });
    assert(transition(at_stop, ProcessorEvent::Stop { queue_depth }).0 == draining);
    lemma_drained_records(draining, records);
    lemma_run_one(draining, ProcessorEvent::Closed);
    lemma_run_append(start, before, stop);
    lemma_run_append(start, before + stop, drained_records(records));
    lemma_run_append(start, before + stop + drained_records(records), closed);
}

} // verus!
