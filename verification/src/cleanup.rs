//! The decisions of the cleanup loop.
//!
//! The loop wakes once per period. While the process is to keep running it
//! asks for the records that are due, and for each of them, in their order,
//! has the file deleted and then, only if the file is gone, has the record
//! removed. A file that could not be deleted keeps its record, so that the
//! next pass tries again. The loop itself touches neither files nor the
//! schedule: `Cleaner::step` takes what happened and says what to do next.

use crate::store::{
    due_among, due_only, is_due, lemma_due_among, record_views, RecordView, ScheduleRecord,
};
use vstd::prelude::*;

verus! {

/// How an attempt to delete a file ended.
#[derive(Debug, Clone, Copy, PartialEq, Eq, Structural)]
pub enum DeletionOutcome {
    /// The file was deleted.
    Deleted,
    /// There was no such file.
    Missing,
    /// The file is still there.
    Failed,
}

/// True when the file is gone, so that its record has served its purpose.
pub open spec fn settles(outcome: DeletionOutcome) -> bool {
    outcome != DeletionOutcome::Failed
}

/// What the driver of the loop reports.
#[derive(Debug, PartialEq, Eq)]
pub enum CleanerEvent {
    /// A period has passed: whether the process is to keep running, and the
    /// Unix time.
    Wake { running: bool, now: i64 },
    /// The schedule answered a listing.
    Listed { records: Vec<ScheduleRecord> },
    /// The schedule could not be listed.
    ListFailed,
    /// The attempt to delete the file has ended.
    FileDone { outcome: DeletionOutcome },
    /// The attempt to remove the record has ended.
    RecordDone { removed: bool },
}

/// What the driver of the loop is to do next.
#[derive(Debug, PartialEq, Eq)]
pub enum CleanerAction {
    /// List the records that are due at `now`.
    ListDue { now: i64 },
    /// Delete the file of the record `id`.
    DeleteFile { id: i64, path: String },
    /// Remove the record `id` from the schedule.
    RemoveRecord { id: i64 },
    /// Wait for the next period.
    Sleep,
    /// Leave the loop.
    Stop,
}

/// Where the cleanup loop stands.
#[derive(Debug, PartialEq, Eq)]
pub enum Cleaner {
    /// Between two passes.
    Idle,
    /// A listing for the time `now` is under way.
    Listing { now: i64 },
    /// The file of `queue[next]` is being deleted; the records before it are
    /// dealt with. All of `queue` was due at `now`.
    Deleting { now: i64, queue: Vec<ScheduleRecord>, next: usize },
    /// The file of `queue[next]` is gone and its record is being removed.
    Removing { now: i64, queue: Vec<ScheduleRecord>, next: usize },
    /// The loop has ended.
    Stopped,
}

/// A `CleanerEvent` as plain values.
pub enum EventModel {
    Wake { running: bool, now: int },
    Listed { records: Seq<RecordView> },
    ListFailed,
    FileDone { outcome: DeletionOutcome },
    RecordDone { removed: bool },
}

/// A `CleanerAction` as plain values.
pub enum ActionModel {
    ListDue { now: int },
    DeleteFile { id: int, path: Seq<char> },
    RemoveRecord { id: int },
    Sleep,
    Stop,
}

/// A `Cleaner` as plain values.
pub enum CleanerModel {
    Idle,
    Listing { now: int },
    Deleting { now: int, queue: Seq<RecordView>, next: int },
    Removing { now: int, queue: Seq<RecordView>, next: int },
    Stopped,
}

impl View for CleanerEvent {
    type V = EventModel;

    open spec fn view(&self) -> EventModel {
        match *self {
            CleanerEvent::Wake { running, now } => EventModel::Wake { running, now: now as int },
            CleanerEvent::Listed { records } => EventModel::Listed {
                records: record_views(records@),
            },
            CleanerEvent::ListFailed => EventModel::ListFailed,
            CleanerEvent::FileDone { outcome } => EventModel::FileDone { outcome },
            CleanerEvent::RecordDone { removed } => EventModel::RecordDone { removed },
        }
    }
}

impl View for CleanerAction {
    type V = ActionModel;

    open spec fn view(&self) -> ActionModel {
        match *self {
            CleanerAction::ListDue { now } => ActionModel::ListDue { now: now as int },
            CleanerAction::DeleteFile { id, path } => ActionModel::DeleteFile {
                id: id as int,
                path: path@,
            },
            CleanerAction::RemoveRecord { id } => ActionModel::RemoveRecord { id: id as int },
            CleanerAction::Sleep => ActionModel::Sleep,
            CleanerAction::Stop => ActionModel::Stop,
        }
    }
}

impl View for Cleaner {
    type V = CleanerModel;

    open spec fn view(&self) -> CleanerModel {
        match *self {
            Cleaner::Idle => CleanerModel::Idle,
            Cleaner::Listing { now } => CleanerModel::Listing { now: now as int },
            Cleaner::Deleting { now, queue, next } => CleanerModel::Deleting {
                now: now as int,
                queue: record_views(queue@),
                next: next as int,
            },
            Cleaner::Removing { now, queue, next } => CleanerModel::Removing {
                now: now as int,
                queue: record_views(queue@),
                next: next as int,
            },
            Cleaner::Stopped => CleanerModel::Stopped,
        }
    }
}

/// The pass goes on with the record at `next`: its file is deleted. When no
/// record is left the pass is over and the loop sleeps.
pub open spec fn resume(now: int, queue: Seq<RecordView>, next: int) -> (
    CleanerModel,
    ActionModel,
) {
    if 0 <= next < queue.len() {
        (
            CleanerModel::Deleting { now, queue, next },
            ActionModel::DeleteFile { id: queue[next].id, path: queue[next].path },
        )
    } else {
        (CleanerModel::Idle, ActionModel::Sleep)
    }
}

/// The next state of the loop and what its driver is to do.
///
/// Once stopped, the loop stays stopped. A wake-up ends the loop when the
/// process is to stop, and begins a pass otherwise. The answer to a listing
/// starts the pass on the records that are due. A file that is gone has its
/// record removed; one that is not is passed over. Any report that answers
/// nothing the loop asked for ends the pass.
pub open spec fn cleaner_step(state: CleanerModel, event: EventModel) -> (
    CleanerModel,
    ActionModel,
) {
    match (state, event) {
        (CleanerModel::Stopped, _) => (CleanerModel::Stopped, ActionModel::Stop),
        (_, EventModel::Wake { running, now }) => if running {
            (CleanerModel::Listing { now }, ActionModel::ListDue { now })
        } else {
            (CleanerModel::Stopped, ActionModel::Stop)
        },
        (CleanerModel::Listing { now }, EventModel::Listed { records }) => resume(
            now,
            due_among(records, now),
            0,
        ),
        (CleanerModel::Deleting { now, queue, next }, EventModel::FileDone { outcome }) => if 0
            <= next < queue.len() && settles(outcome) {
            (
                CleanerModel::Removing { now, queue, next },
                ActionModel::RemoveRecord { id: queue[next].id },
            )
        } else {
            resume(now, queue, next + 1)
        },
        (CleanerModel::Removing { now, queue, next }, EventModel::RecordDone { removed }) => resume(
            now,
            queue,
            next + 1,
        ),
        _ => (CleanerModel::Idle, ActionModel::Sleep),
    }
}

/// Goes on with the record at `next`, or ends the pass.
fn resume_at(now: i64, queue: Vec<ScheduleRecord>, next: usize) -> (r: (Cleaner, CleanerAction))
    ensures
        (r.0@, r.1@) == resume(now as int, record_views(queue@), next as int),
{
    if next < queue.len() {
        let id = queue[next].id;
        let path = queue[next].path.clone();
        assert(record_views(queue@)[next as int] == queue@[next as int]@);
        (Cleaner::Deleting { now, queue, next }, CleanerAction::DeleteFile { id, path })
    } else {
        (Cleaner::Idle, CleanerAction::Sleep)
    }
}

impl Cleaner {
    /// The loop before its first pass.
    pub fn new() -> (cleaner: Cleaner)
        ensures
            cleaner@ == CleanerModel::Idle,
    {
        Cleaner::Idle
    }

    /// Takes what the driver reports and says what it is to do next.
    pub fn step(self, event: CleanerEvent) -> (r: (Cleaner, CleanerAction))
        ensures
            (r.0@, r.1@) == cleaner_step(self@, event@),
    {
        match self {
            Cleaner::Stopped => (Cleaner::Stopped, CleanerAction::Stop),
            Cleaner::Idle => match event {
                CleanerEvent::Wake { running, now } => Self::wake(running, now),
                _ => (Cleaner::Idle, CleanerAction::Sleep),
            },
            Cleaner::Listing { now } => match event {
                CleanerEvent::Wake { running, now } => Self::wake(running, now),
                CleanerEvent::Listed { records } => {
                    let queue = due_only(&records, now);
                    resume_at(now, queue, 0)
                },
                _ => (Cleaner::Idle, CleanerAction::Sleep),
            },
            Cleaner::Deleting { now, queue, next } => match event {
                CleanerEvent::Wake { running, now } => Self::wake(running, now),
                CleanerEvent::FileDone { outcome } => {
                    if next >= queue.len() {
                        (Cleaner::Idle, CleanerAction::Sleep)
                    } else if outcome != DeletionOutcome::Failed {
                        let id = queue[next].id;
                        assert(record_views(queue@)[next as int] == queue@[next as int]@);
                        (Cleaner::Removing { now, queue, next }, CleanerAction::RemoveRecord { id })
                    } else {
                        resume_at(now, queue, next + 1)
                    }
                },
                _ => (Cleaner::Idle, CleanerAction::Sleep),
            },
            Cleaner::Removing { now, queue, next } => match event {
                CleanerEvent::Wake { running, now } => Self::wake(running, now),
                CleanerEvent::RecordDone { removed } => {
                    if next >= queue.len() {
                        (Cleaner::Idle, CleanerAction::Sleep)
                    } else {
                        resume_at(now, queue, next + 1)
                    }
                },
                _ => (Cleaner::Idle, CleanerAction::Sleep),
            },
        }
    }

    /// Begins a pass, or ends the loop when the process is to stop.
    fn wake(running: bool, now: i64) -> (r: (Cleaner, CleanerAction))
        ensures
            r.0@ == (if running {
                CleanerModel::Listing { now: now as int }
            } else {
                CleanerModel::Stopped
            }),
            r.1@ == (if running {
                ActionModel::ListDue { now: now as int }
            } else {
                ActionModel::Stop
            }),
    {
        if running {
            (Cleaner::Listing { now }, CleanerAction::ListDue { now })
        } else {
            (Cleaner::Stopped, CleanerAction::Stop)
        }
    }
}

/// True when a pass, if one is under way, stands at a record of its queue
/// and every record of the queue was due when the pass began.
pub open spec fn well_formed(state: CleanerModel) -> bool {
    match state {
        CleanerModel::Deleting { now, queue, next } => 0 <= next < queue.len() && forall|i: int|
            0 <= i < queue.len() ==> is_due(#[trigger] queue[i], now),
        CleanerModel::Removing { now, queue, next } => 0 <= next < queue.len() && forall|i: int|
            0 <= i < queue.len() ==> is_due(#[trigger] queue[i], now),
        _ => true,
    }
}

/// A step leaves a well-formed loop well-formed.
pub proof fn lemma_step_well_formed(state: CleanerModel, event: EventModel)
    requires
        well_formed(state),
    ensures
        well_formed(cleaner_step(state, event).0),
{
    match (state, event) {
        (CleanerModel::Listing { now }, EventModel::Listed { records }) => {
            lemma_due_among(records, now);
        },
        _ => {},
    }
}

/// Only the file of a record that is due is ever deleted: the loop asks for a
/// deletion only for the record that its pass stands at, and that record was
/// due when the pass began.
pub proof fn lemma_deletes_only_due(state: CleanerModel, event: EventModel)
    requires
        well_formed(state),
    ensures
        cleaner_step(state, event).1 matches ActionModel::DeleteFile { id, path } ==> ({
            &&& cleaner_step(state, event).0 matches CleanerModel::Deleting { now, queue, next }
            &&& 0 <= next < queue.len()
            &&& queue[next].id == id
            &&& queue[next].path == path
            &&& is_due(queue[next], now)
        }),
{
    lemma_step_well_formed(state, event);
}

/// Deletion comes before removal: the loop asks for the removal of a record
/// only in answer to the report that the file of that record is gone.
pub proof fn lemma_removal_follows_deletion(state: CleanerModel, event: EventModel)
    ensures
        cleaner_step(state, event).1 matches ActionModel::RemoveRecord { id } ==> ({
            &&& state matches CleanerModel::Deleting { queue, next, .. }
            &&& 0 <= next < queue.len()
            &&& queue[next].id == id
            &&& event matches EventModel::FileDone { outcome }
            &&& settles(outcome)
        }),
{
}

/// A file that could not be deleted keeps its record: the answer to a failed
/// deletion is never a removal.
pub proof fn lemma_failure_keeps_record(state: CleanerModel)
    ensures
        !(cleaner_step(
            state,
            EventModel::FileDone { outcome: DeletionOutcome::Failed },
        ).1 is RemoveRecord),
{
}

/// A file that is gone, whether deleted now or missing already, has its
/// record removed.
pub proof fn lemma_gone_file_removes_record(
    now: int,
    queue: Seq<RecordView>,
    next: int,
    outcome: DeletionOutcome,
)
    requires
        0 <= next < queue.len(),
        outcome == DeletionOutcome::Deleted || outcome == DeletionOutcome::Missing,
    ensures
        cleaner_step(
            CleanerModel::Deleting { now, queue, next },
            EventModel::FileDone { outcome },
        ).1 == (ActionModel::RemoveRecord { id: queue[next].id }),
{
}

/// Shutdown: a wake-up that finds the process stopping ends the loop, and a
/// loop that has ended asks for nothing but to stop.
pub proof fn lemma_stop(state: CleanerModel, event: EventModel)
    ensures
        event matches EventModel::Wake { running: false, .. } ==> cleaner_step(state, event) == (
            CleanerModel::Stopped,
            ActionModel::Stop,
        ),
        cleaner_step(CleanerModel::Stopped, event) == (CleanerModel::Stopped, ActionModel::Stop),
{
}

/// The state that a sequence of reports leads to, and the actions that were
/// asked for on the way, one for each report.
pub open spec fn run(state: CleanerModel, events: Seq<EventModel>) -> (
    CleanerModel,
    Seq<ActionModel>,
)
    decreases events.len(),
{
    if events.len() == 0 {
        (state, Seq::empty())
    } else {
        let before = run(state, events.drop_last());
        let last = cleaner_step(before.0, events.last());
        (last.0, before.1.push(last.1))
    }
}

/// A run asks for one action per report; the action at `k` is the step from
/// the state that the first `k` reports led to.
pub proof fn lemma_run_at(state: CleanerModel, events: Seq<EventModel>, k: int)
    requires
        0 <= k < events.len(),
    ensures
        run(state, events).1.len() == events.len(),
        run(state, events.take(k)).1.len() == k,
        run(state, events).1.take(k) == run(state, events.take(k)).1,
        run(state, events).1[k] == cleaner_step(run(state, events.take(k)).0, events[k]).1,
    decreases events.len(),
{
    let shorter = events.drop_last();
    lemma_run_len(state, events);
    lemma_run_len(state, shorter);
    if k == events.len() - 1 {
        assert(events.take(k) =~= shorter);
        assert(run(state, events).1.take(k) =~= run(state, shorter).1);
    } else {
        lemma_run_at(state, shorter, k);
        assert(shorter.take(k) =~= events.take(k));
        assert(run(state, events).1.take(k) =~= run(state, shorter).1.take(k));
    }
}

proof fn lemma_run_len(state: CleanerModel, events: Seq<EventModel>)
    ensures
        run(state, events).1.len() == events.len(),
    decreases events.len(),
{
    if events.len() > 0 {
        lemma_run_len(state, events.drop_last());
    }
}

/// True when the loop, if it is deleting, stands at a record whose deletion
/// was the last action asked for.
spec fn tracks(state: CleanerModel, actions: Seq<ActionModel>) -> bool {
    state matches CleanerModel::Deleting { queue, next, .. } ==> 0 <= next < queue.len()
        && actions.len() > 0 && actions.last() == (ActionModel::DeleteFile {
        id: queue[next].id,
        path: queue[next].path,
    })
}

proof fn lemma_run_tracks(events: Seq<EventModel>)
    ensures
        tracks(run(CleanerModel::Idle, events).0, run(CleanerModel::Idle, events).1),
    decreases events.len(),
{
    if events.len() > 0 {
        lemma_run_tracks(events.drop_last());
    }
}

/// Deletion comes before removal, over a whole run from the idle loop: an
/// action that removes a record answers the report that a file is gone, and
/// the action just before it was the deletion of the file of that record.
pub proof fn lemma_run_delete_then_remove(events: Seq<EventModel>, k: int)
    requires
        0 <= k < events.len(),
        run(CleanerModel::Idle, events).1[k] is RemoveRecord,
    ensures
        k >= 1,
        events[k] matches EventModel::FileDone { outcome } && settles(outcome),
        run(CleanerModel::Idle, events).1[k - 1] matches ActionModel::DeleteFile { id, .. } && id
            == run(CleanerModel::Idle, events).1[k]->RemoveRecord_id,
{
    let actions = run(CleanerModel::Idle, events).1;
    let before = run(CleanerModel::Idle, events.take(k));
    lemma_run_at(CleanerModel::Idle, events, k);
    lemma_run_tracks(events.take(k));
    lemma_removal_follows_deletion(before.0, events[k]);
    assert(before.1.last() == actions.take(k)[k - 1]);
}

/// A run from the idle loop never leaves the well-formed states.
pub proof fn lemma_run_well_formed(events: Seq<EventModel>)
    ensures
        well_formed(run(CleanerModel::Idle, events).0),
    decreases events.len(),
{
    if events.len() > 0 {
        lemma_run_well_formed(events.drop_last());
        lemma_step_well_formed(run(CleanerModel::Idle, events.drop_last()).0, events.last());
    }
}

/// Nothing is deleted before its time, over a whole run from the idle loop:
/// an action that deletes a file leaves the loop at the record of that file,
/// in a pass at whose time the record was due.
pub proof fn lemma_run_deletes_only_due(events: Seq<EventModel>, k: int)
    requires
        0 <= k < events.len(),
        run(CleanerModel::Idle, events).1[k] is DeleteFile,
    ensures
        run(CleanerModel::Idle, events.take(k + 1)).0 matches CleanerModel::Deleting {
            now,
            queue,
            next,
        } && 0 <= next < queue.len() && is_due(queue[next], now) && run(
            CleanerModel::Idle,
            events,
        ).1[k] == (ActionModel::DeleteFile { id: queue[next].id, path: queue[next].path }),
{
    let before = run(CleanerModel::Idle, events.take(k));
    lemma_run_at(CleanerModel::Idle, events, k);
    lemma_run_well_formed(events.take(k));
    lemma_deletes_only_due(before.0, events[k]);
    assert(events.take(k + 1).drop_last() =~= events.take(k));
    assert(events.take(k + 1).last() == events[k]);
}

/// Shutdown, over a whole run: from the wake-up that finds the process
/// stopping on, every action is to stop; nothing more is asked of the files
/// or of the schedule.
pub proof fn lemma_run_stops(state: CleanerModel, events: Seq<EventModel>, k: int, j: int)
    requires
        0 <= k <= j < events.len(),
        events[k] matches EventModel::Wake { running: false, .. },
    ensures
        run(state, events).1[j] == ActionModel::Stop,
        run(state, events).0 == CleanerModel::Stopped,
    decreases events.len(),
{
    let shorter = events.drop_last();
    lemma_run_len(state, events);
    lemma_run_len(state, shorter);
    if j == events.len() - 1 {
        if k < j {
            lemma_run_stops(state, shorter, k, j - 1);
        }
    } else {
        lemma_run_stops(state, shorter, k, j);
        lemma_run_stops(state, shorter, k, events.len() - 2);
    }
}

} // verus!
