use vstd::prelude::*;

use crate::change::{duplicate_all, views, Change, ConsumerError, ProcessedBatch};

verus! {

/// The baseline a cursor stands for: its value, or zero before the first cycle.
pub open spec fn baseline_of(cursor: Option<i64>) -> i64 {
    match cursor {
        Some(v) => v,
        None => 0,
    }
}

/// A cycle is idle when no version was assigned since the cursor was persisted.
pub open spec fn is_idle(now: i64, last: Option<i64>) -> bool {
    last == Some(now)
}

/// The baseline to fetch changes after: the cursor, or zero when there is none.
pub fn fetch_baseline(last: Option<i64>) -> (r: i64)
    ensures
        r == baseline_of(last),
{
    match last {
        Some(v) => v,
        None => 0,
    }
}

/// Whether a cycle that observed `now` and read `last` must fetch and persist.
pub fn needs_fetch(now: i64, last: Option<i64>) -> (r: bool)
    ensures
        r == !is_idle(now, last),
{
    match last {
        Some(v) => v != now,
        None => true,
    }
}


/// Where one polling cycle stands: each phase waits for the outcome of the
/// action that led to it.
pub enum Phase {
    AwaitVersion,
    AwaitCursor { now: i64 },
    AwaitChanges { now: i64, last: Option<i64> },
    AwaitApply { now: i64, last: Option<i64>, batch: Vec<Change> },
    AwaitCursorWrite { now: i64, batch: Vec<Change> },
    Done,
}

/// The outcome of an action, reported back by whoever performed it.
pub enum Event {
    VersionRead(i64),
    CursorRead(Option<i64>),
    ChangesFetched(Vec<Change>),
    BatchApplied,
    CursorWritten,
    SourceFailed,
    CursorStoreFailed,
    ApplyFailed,
}

/// What the cycle asks to be done next.
pub enum Action {
    ReadCursor,
    FetchChanges { baseline: i64 },
    ApplyBatch { changes: Vec<Change> },
    WriteCursor { version: i64, existed: bool },
    Finish(Result<ProcessedBatch, ConsumerError>),
}

/// One polling cycle of the consumer, as a state machine: it is started by
/// reading the current version, and each reported outcome yields the next
/// action, until a `Finish`.
pub struct ConsumerCycle {
    pub phase: Phase,
}

/// The cycle's result when it finishes without an error: the batch and the
/// cursor value persisted for it.
pub open spec fn finished_ok(a: Action, batch: Seq<Change>, now: i64) -> bool {
    match a {
        Action::Finish(Ok(pb)) => views(pb.changes@) == views(batch) && pb.cursor == now,
        _ => false,
    }
}

impl ConsumerCycle {
    /// A new cycle. Its first action is always to read the current version.
    pub fn start() -> (r: ConsumerCycle)
        ensures
            r.phase is AwaitVersion,
    {
        ConsumerCycle { phase: Phase::AwaitVersion }
    }

    /// Whether the cycle is waiting for `e`: each phase takes the outcome of
    /// its own action, success or failure, and a finished cycle takes none.
    pub open spec fn accepts_spec(&self, e: &Event) -> bool {
        match self.phase {
            Phase::AwaitVersion => e is VersionRead || e is SourceFailed,
            Phase::AwaitCursor { .. } => e is CursorRead || e is CursorStoreFailed,
            Phase::AwaitChanges { .. } => e is ChangesFetched || e is SourceFailed,
            Phase::AwaitApply { .. } => e is BatchApplied || e is ApplyFailed,
            Phase::AwaitCursorWrite { .. } => e is CursorWritten || e is CursorStoreFailed,
            Phase::Done => false,
        }
    }

    /// Whether the cycle is waiting for `e`.
    pub fn accepts(&self, e: &Event) -> (r: bool)
        ensures
            r == self.accepts_spec(e),
    {
        match self.phase {
            Phase::AwaitVersion => matches!(e, Event::VersionRead(_) | Event::SourceFailed),
            Phase::AwaitCursor { .. } => matches!(e, Event::CursorRead(_) | Event::CursorStoreFailed),
            Phase::AwaitChanges { .. } => matches!(e, Event::ChangesFetched(_) | Event::SourceFailed),
            Phase::AwaitApply { .. } => matches!(e, Event::BatchApplied | Event::ApplyFailed),
            Phase::AwaitCursorWrite { .. } => matches!(e, Event::CursorWritten | Event::CursorStoreFailed),
            Phase::Done => false,
        }
    }

    /// Takes the outcome of the last action and decides the next one.
    /// The version is read before the cursor and the changes; the changes are
    /// fetched after the cursor's baseline; the cursor is written, as that
    /// first version, only once the batch was applied, and its insert or
    /// update path follows whether the cursor was found. Every failure ends
    /// the cycle with its error before the cursor is written. An idle cycle
    /// ends at once with no changes.
    pub fn step(self, e: Event) -> (r: (ConsumerCycle, Action))
        requires
            self.accepts_spec(&e),
        ensures
            match (self.phase, e) {
                (Phase::AwaitVersion, Event::VersionRead(now)) =>
                    r.0.phase == (Phase::AwaitCursor { now }) && r.1 is ReadCursor,
                (Phase::AwaitCursor { now }, Event::CursorRead(last)) => if is_idle(now, last) {
                    r.0.phase is Done && finished_ok(r.1, Seq::empty(), now)
                } else {
                    r.0.phase == (Phase::AwaitChanges { now, last })
                        && r.1 == (Action::FetchChanges { baseline: baseline_of(last) })
                },
                (Phase::AwaitChanges { now, last }, Event::ChangesFetched(cs)) => {
                    &&& r.0.phase == (Phase::AwaitApply { now, last, batch: cs })
                    &&& r.1 matches Action::ApplyBatch { changes } && views(changes@) == views(cs@)
                },
                (Phase::AwaitApply { now, last, batch }, Event::BatchApplied) => {
                    &&& r.0.phase == (Phase::AwaitCursorWrite { now, batch })
                    &&& r.1 == (Action::WriteCursor { version: now, existed: last is Some })
                },
                (Phase::AwaitCursorWrite { now, batch }, Event::CursorWritten) =>
                    r.0.phase is Done && finished_ok(r.1, batch@, now),
                (Phase::AwaitApply { .. }, Event::ApplyFailed) =>
                    r.0.phase is Done && r.1 == Action::Finish(Err(ConsumerError::DownstreamApplyFailed)),
                (_, Event::SourceFailed) =>
                    r.0.phase is Done && r.1 == Action::Finish(Err(ConsumerError::SourceUnavailable)),
                (_, Event::CursorStoreFailed) =>
                    r.0.phase is Done && r.1 == Action::Finish(Err(ConsumerError::CursorStoreUnavailable)),
                _ => false,
            },
    {
        let done = ConsumerCycle { phase: Phase::Done };
        match (self.phase, e) {
            (Phase::AwaitVersion, Event::VersionRead(now)) => {
                (ConsumerCycle { phase: Phase::AwaitCursor { now } }, Action::ReadCursor)
            },
            (Phase::AwaitCursor { now }, Event::CursorRead(last)) => {
                if needs_fetch(now, last) {
                    let baseline = fetch_baseline(last);
                    (ConsumerCycle { phase: Phase::AwaitChanges { now, last } }, Action::FetchChanges { baseline })
                } else {
                    let batch = ProcessedBatch { changes: Vec::new(), cursor: now };
                    proof {
                        assert(views(batch.changes@) =~= views(Seq::empty()));
                    }
                    (done, Action::Finish(Ok(batch)))
                }
            },
            (Phase::AwaitChanges { now, last }, Event::ChangesFetched(cs)) => {
                let changes = duplicate_all(&cs);
                (ConsumerCycle { phase: Phase::AwaitApply { now, last, batch: cs } }, Action::ApplyBatch { changes })
            },
            (Phase::AwaitApply { now, last, batch }, Event::BatchApplied) => {
                let existed = last.is_some();
                (ConsumerCycle { phase: Phase::AwaitCursorWrite { now, batch } }, Action::WriteCursor { version: now, existed })
            },
            (Phase::AwaitCursorWrite { now, batch }, Event::CursorWritten) => {
                (done, Action::Finish(Ok(ProcessedBatch { changes: batch, cursor: now })))
            },
            (Phase::AwaitApply { .. }, Event::ApplyFailed) => {
                (done, Action::Finish(Err(ConsumerError::DownstreamApplyFailed)))
            },
            (_, Event::SourceFailed) => (done, Action::Finish(Err(ConsumerError::SourceUnavailable))),
            (_, _) => (done, Action::Finish(Err(ConsumerError::CursorStoreUnavailable))),
        }
    }
}

} // verus!
