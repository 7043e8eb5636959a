//! The decisions of the persistence loop.
//!
//! The loop wakes once per period, takes at most one request from the queue
//! that the capture loop fills, and has it stored in the schedule. A request
//! that could not be stored is kept and tried again at the next wake-up; when
//! storing has failed too often in a row the loop gives up, so that the
//! process ends rather than lose schedules without a word.

use crate::decode::{RequestView, ScheduleRequest};
use crate::retry::RetryBudget;
use vstd::prelude::*;

verus! {

/// What the driver of the loop reports.
#[derive(Debug, PartialEq, Eq)]
pub enum PersistEvent {
    /// A period has passed: whether the process is to keep running.
    Wake { running: bool },
    /// The queue was asked: the request at its head, if it had one.
    Received { request: Option<ScheduleRequest> },
    /// The attempt to store the request has ended, well or not.
    Stored { ok: bool },
}

/// What the driver of the loop is to do next.
#[derive(Debug, PartialEq, Eq)]
pub enum PersistAction {
    /// Ask the queue for a request, without waiting for one.
    Receive,
    /// Store the request in the schedule.
    Insert { request: ScheduleRequest },
    /// Wait for the next period.
    Sleep,
    /// Leave the loop.
    Stop,
    /// Give up: storing has failed too often.
    Abort,
}

/// Where the persistence loop stands.
#[derive(Debug, PartialEq, Eq)]
pub enum Persister {
    /// Between two rounds, with the request that is still to be stored, if
    /// the last attempt failed.
    Idle { budget: RetryBudget, pending: Option<ScheduleRequest> },
    /// The queue is being asked.
    Receiving { budget: RetryBudget },
    /// The request is being stored.
    Storing { budget: RetryBudget, request: ScheduleRequest },
    /// The loop has ended.
    Stopped,
    /// The loop has given up.
    Failed,
}

/// A `PersistEvent` as plain values.
pub enum PersistEventModel {
    Wake { running: bool },
    Received { request: Option<RequestView> },
    Stored { ok: bool },
}

/// A `PersistAction` as plain values.
pub enum PersistActionModel {
    Receive,
    Insert { request: RequestView },
    Sleep,
    Stop,
    Abort,
}

/// A `Persister` as plain values.
pub enum PersisterModel {
    Idle { budget: RetryBudget, pending: Option<RequestView> },
    Receiving { budget: RetryBudget },
    Storing { budget: RetryBudget, request: RequestView },
    Stopped,
    Failed,
}

/// An optional request as plain values.
pub open spec fn request_view(request: Option<ScheduleRequest>) -> Option<RequestView> {
    match request {
        Some(request) => Some(request@),
        None => None,
    }
}

impl View for PersistEvent {
    type V = PersistEventModel;

    open spec fn view(&self) -> PersistEventModel {
        match *self {
            PersistEvent::Wake { running } => PersistEventModel::Wake { running },
            PersistEvent::Received { request } => PersistEventModel::Received {
                request: request_view(request),
            },
            PersistEvent::Stored { ok } => PersistEventModel::Stored { ok },
        }
    }
}

impl View for PersistAction {
    type V = PersistActionModel;

    open spec fn view(&self) -> PersistActionModel {
        match *self {
            PersistAction::Receive => PersistActionModel::Receive,
            PersistAction::Insert { request } => PersistActionModel::Insert { request: request@ },
            PersistAction::Sleep => PersistActionModel::Sleep,
            PersistAction::Stop => PersistActionModel::Stop,
            PersistAction::Abort => PersistActionModel::Abort,
        }
    }
}

impl View for Persister {
    type V = PersisterModel;

    open spec fn view(&self) -> PersisterModel {
        match *self {
            Persister::Idle { budget, pending } => PersisterModel::Idle {
                budget,
                pending: request_view(pending),
            },
            Persister::Receiving { budget } => PersisterModel::Receiving { budget },
            Persister::Storing { budget, request } => PersisterModel::Storing {
                budget,
                request: request@,
            },
            Persister::Stopped => PersisterModel::Stopped,
            Persister::Failed => PersisterModel::Failed,
        }
    }
}

/// The request that the loop holds and has not stored yet, if any.
pub open spec fn pending_of(state: PersisterModel) -> Option<RequestView> {
    match state {
        PersisterModel::Idle { pending, .. } => pending,
        PersisterModel::Storing { request, .. } => Some(request),
        _ => None,
    }
}

/// A round begins, or the loop ends when the process is to stop. A round
/// begins with the request that is still to be stored; with none, the queue
/// is asked.
pub open spec fn wake_up(running: bool, budget: RetryBudget, pending: Option<RequestView>) -> (
    PersisterModel,
    PersistActionModel,
) {
    if !running {
        (PersisterModel::Stopped, PersistActionModel::Stop)
    } else {
        match pending {
            Some(request) => (
                PersisterModel::Storing { budget, request },
                PersistActionModel::Insert { request },
            ),
            None => (PersisterModel::Receiving { budget }, PersistActionModel::Receive),
        }
    }
}

/// The next state of the loop and what its driver is to do.
///
/// A loop that has stopped or given up stays so. A wake-up ends the loop when
/// the process is to stop, and begins a round otherwise. A request that the
/// queue hands over is stored. A request that was stored starts the count of
/// failures over. One that was not is kept for the next round, unless the
/// budget is exhausted: then the loop gives up. A report that answers nothing
/// the loop asked for ends the round; the request that the loop holds stays.
pub open spec fn persister_step(state: PersisterModel, event: PersistEventModel) -> (
    PersisterModel,
    PersistActionModel,
) {
    match state {
        PersisterModel::Stopped => (PersisterModel::Stopped, PersistActionModel::Stop),
        PersisterModel::Failed => (PersisterModel::Failed, PersistActionModel::Abort),
        PersisterModel::Idle { budget, pending } => match event {
            PersistEventModel::Wake { running } => wake_up(running, budget, pending),
            _ => (state, PersistActionModel::Sleep),
        },
        PersisterModel::Receiving { budget } => match event {
            PersistEventModel::Wake { running } => wake_up(running, budget, None),
            PersistEventModel::Received { request: Some(request) } => (
                PersisterModel::Storing { budget, request },
                PersistActionModel::Insert { request },
            ),
            _ => (PersisterModel::Idle { budget, pending: None }, PersistActionModel::Sleep),
        },
        PersisterModel::Storing { budget, request } => match event {
            PersistEventModel::Wake { running } => wake_up(running, budget, Some(request)),
            PersistEventModel::Stored { ok: true } => (
                PersisterModel::Idle { budget: budget.after_success(), pending: None },
                PersistActionModel::Sleep,
            ),
            PersistEventModel::Stored { ok: false } => match budget.after_failure() {
                Some(left) => (
                    PersisterModel::Idle { budget: left, pending: Some(request) },
                    PersistActionModel::Sleep,
                ),
                None => (PersisterModel::Failed, PersistActionModel::Abort),
            },
            _ => (
                PersisterModel::Idle { budget, pending: Some(request) },
                PersistActionModel::Sleep,
            ),
        },
    }
}

/// Begins a round, or ends the loop when the process is to stop.
fn wake(running: bool, budget: RetryBudget, pending: Option<ScheduleRequest>) -> (r: (
    Persister,
    PersistAction,
))
    ensures
        (r.0@, r.1@) == wake_up(running, budget, request_view(pending)),
{
    if !running {
        return (Persister::Stopped, PersistAction::Stop);
    }
    match pending {
        Some(request) => {
            let copy = request.clone();
            (Persister::Storing { budget, request }, PersistAction::Insert { request: copy })
        },
        None => (Persister::Receiving { budget }, PersistAction::Receive),
    }
}

impl Persister {
    /// A loop that puts up with `limit` failed attempts in a row.
    pub fn new(limit: u32) -> (persister: Persister)
        ensures
            persister@ == (PersisterModel::Idle {
                budget: RetryBudget { limit, failures: 0 },
                pending: None,
            }),
    {
        Persister::Idle { budget: RetryBudget::new(limit), pending: None }
    }

    /// Takes what the driver reports and says what it is to do next.
    pub fn step(self, event: PersistEvent) -> (r: (Persister, PersistAction))
        ensures
            (r.0@, r.1@) == persister_step(self@, event@),
    {
        match self {
            Persister::Stopped => (Persister::Stopped, PersistAction::Stop),
            Persister::Failed => (Persister::Failed, PersistAction::Abort),
            Persister::Idle { budget, pending } => match event {
                PersistEvent::Wake { running } => wake(running, budget, pending),
                _ => (Persister::Idle { budget, pending }, PersistAction::Sleep),
            },
            Persister::Receiving { budget } => match event {
                PersistEvent::Wake { running } => wake(running, budget, None),
                PersistEvent::Received { request: Some(request) } => {
                    let copy = request.clone();
                    (
                        Persister::Storing { budget, request },
                        PersistAction::Insert { request: copy },
                    )
                },
                _ => (Persister::Idle { budget, pending: None }, PersistAction::Sleep),
            },
            Persister::Storing { budget, request } => match event {
                PersistEvent::Wake { running } => wake(running, budget, Some(request)),
                PersistEvent::Stored { ok: true } => (
                    Persister::Idle { budget: budget.record_success(), pending: None },
                    PersistAction::Sleep,
                ),
                PersistEvent::Stored { ok: false } => match budget.record_failure() {
                    Some(left) => (
                        Persister::Idle { budget: left, pending: Some(request) },
                        PersistAction::Sleep,
                    ),
                    None => (Persister::Failed, PersistAction::Abort),
                },
                _ => (Persister::Idle { budget, pending: Some(request) }, PersistAction::Sleep),
            },
        }
    }
}

/// Nothing is made up: a request that the loop has stored is the one it was
/// holding or the one that the queue has just handed over.
pub proof fn lemma_insert_source(state: PersisterModel, event: PersistEventModel)
    ensures
        persister_step(state, event).1 matches PersistActionModel::Insert { request } ==> ({
            ||| pending_of(state) == Some(request)
            ||| (state is Receiving && event == (PersistEventModel::Received {
                request: Some(request),
            }))
        }),
{
}

/// Nothing is lost without a word: whatever is reported, a request that the
/// loop holds is still held after the step, unless it was stored, or the loop
/// stopped or gave up.
pub proof fn lemma_pending_kept(state: PersisterModel, event: PersistEventModel)
    requires
        pending_of(state) is Some,
    ensures
        ({
            let after = persister_step(state, event).0;
            ||| pending_of(after) == pending_of(state)
            ||| (state is Storing && event == (PersistEventModel::Stored { ok: true }))
            ||| after is Stopped
            ||| after is Failed
        }),
{
}

/// A request that could not be stored is tried again at the next wake-up, as
/// long as the budget lasts.
pub proof fn lemma_failed_write_retried(budget: RetryBudget, request: RequestView)
    requires
        !budget.exhausted(),
    ensures
        ({
            let failed = persister_step(
                PersisterModel::Storing { budget, request },
                PersistEventModel::Stored { ok: false },
            );
            &&& failed.1 == PersistActionModel::Sleep
            &&& pending_of(failed.0) == Some(request)
            &&& persister_step(failed.0, PersistEventModel::Wake { running: true }).1 == (
            PersistActionModel::Insert { request })
        }),
{
}

/// The loop gives up only on a failed attempt to store, and only when the
/// failures in a row have used up the budget.
pub proof fn lemma_persister_gives_up(state: PersisterModel, event: PersistEventModel)
    requires
        !(state is Failed),
    ensures
        persister_step(state, event).0 is Failed <==> (state matches PersisterModel::Storing {
            budget,
            ..
        } && budget.exhausted() && event == (PersistEventModel::Stored { ok: false })),
{
}

/// Shutdown: a wake-up that finds the process stopping ends the loop, and a
/// loop that has ended or given up asks for nothing more of the queue or of
/// the schedule.
pub proof fn lemma_persister_stops(state: PersisterModel, event: PersistEventModel)
    ensures
        !(state is Failed) && event == (PersistEventModel::Wake { running: false })
            ==> persister_step(state, event) == (
            PersisterModel::Stopped,
            PersistActionModel::Stop,
        ),
        state is Stopped ==> persister_step(state, event) == (
            PersisterModel::Stopped,
            PersistActionModel::Stop,
        ),
        state is Failed ==> persister_step(state, event) == (
            PersisterModel::Failed,
            PersistActionModel::Abort,
        ),
{
}

} // verus!
