//! The decisions of the capture loop.
//!
//! The loop polls the buffer that the capture program fills. Each record that
//! comes out of it is decoded; a record that is refused is counted and
//! dropped, and the loop goes on. Records that the kernel reports as lost are
//! counted too. A poll that fails is tried again, up to a limit of failures
//! in a row.

use crate::decode::{decode_event, decoded, DecodeError, RequestView, ScheduleRequest};
use crate::retry::RetryBudget;
use vstd::prelude::*;

verus! {

/// One more, unless the count is at its ceiling.
pub open spec fn bumped(n: u64) -> u64 {
    if n < u64::MAX {
        (n + 1) as u64
    } else {
        n
    }
}

/// The sum, or the ceiling of the count where the sum is above it.
pub open spec fn raised(n: u64, by: u64) -> u64 {
    if n + by <= u64::MAX {
        (n + by) as u64
    } else {
        u64::MAX
    }
}

/// Counts of what came out of the capture buffer.
#[derive(Debug, Clone, Copy, PartialEq, Eq, Structural)]
pub struct CaptureStats {
    /// Records that were decoded into a request.
    pub accepted: u64,
    /// Records that were refused.
    pub refused: u64,
    /// Records that the kernel dropped before they could be read.
    pub lost: u64,
}

impl CaptureStats {
    /// Counts that start at nothing.
    pub fn new() -> (stats: CaptureStats)
        ensures
            stats == (CaptureStats { accepted: 0, refused: 0, lost: 0 }),
    {
        CaptureStats { accepted: 0, refused: 0, lost: 0 }
    }

    /// Decodes a record that came out of the buffer and counts it as accepted
    /// or refused.
    pub fn on_sample(&mut self, data: &[u8]) -> (r: Result<ScheduleRequest, DecodeError>)
        ensures
            match r {
                Ok(request) => decoded(data@) == Ok::<RequestView, DecodeError>(request@)
                    && *final(self) == (CaptureStats {
                    accepted: bumped(old(self).accepted),
                    ..*old(self)
                }),
                Err(e) => decoded(data@) == Err::<RequestView, DecodeError>(e) && *final(self) == (
                CaptureStats { refused: bumped(old(self).refused), ..*old(self) }),
            },
    {
        let r = decode_event(data);
        match &r {
            Ok(_) => {
                if self.accepted < u64::MAX {
                    self.accepted = self.accepted + 1;
                }
            },
            Err(_) => {
                if self.refused < u64::MAX {
                    self.refused = self.refused + 1;
                }
            },
        }
        r
    }

    /// Counts records that the kernel reports as lost.
    pub fn on_lost(&mut self, count: u64)
        ensures
            *final(self) == (CaptureStats { lost: raised(old(self).lost, count), ..*old(self) }),
    {
        if count > u64::MAX - self.lost {
            self.lost = u64::MAX;
        } else {
            self.lost = self.lost + count;
        }
    }
}

/// What the driver of the capture loop reports.
#[derive(Debug, Clone, Copy, PartialEq, Eq, Structural)]
pub enum PollEvent {
    /// The loop is at the start of a round: whether the process is to keep
    /// running.
    Wake { running: bool },
    /// A poll has ended, well or not.
    Polled { ok: bool },
}

/// What the driver of the capture loop is to do next.
#[derive(Debug, Clone, Copy, PartialEq, Eq, Structural)]
pub enum PollAction {
    /// Poll the buffer, for a bounded time.
    Poll,
    /// Go to the start of the next round.
    Next,
    /// Leave the loop.
    Stop,
    /// Give up: polling has failed too often.
    Abort,
}

/// Where the capture loop stands.
#[derive(Debug, Clone, Copy, PartialEq, Eq, Structural)]
pub enum Poller {
    /// Polling, with what is left of the budget of failures.
    Running { budget: RetryBudget },
    /// The loop has ended.
    Stopped,
    /// The loop has given up.
    Failed,
}

/// The next state of the capture loop and what its driver is to do.
///
/// A loop that has stopped or given up stays so. A round begins with a poll
/// while the process is to keep running and ends the loop otherwise. A poll
/// that went well starts the count of failures over; one that failed is
/// fatal once the budget is exhausted.
pub open spec fn poller_step(state: Poller, event: PollEvent) -> (Poller, PollAction) {
    match (state, event) {
        (Poller::Stopped, _) => (Poller::Stopped, PollAction::Stop),
        (Poller::Failed, _) => (Poller::Failed, PollAction::Abort),
        (Poller::Running { budget }, PollEvent::Wake { running }) => if running {
            (state, PollAction::Poll)
        } else {
            (Poller::Stopped, PollAction::Stop)
        },
        (Poller::Running { budget }, PollEvent::Polled { ok }) => if ok {
            (Poller::Running { budget: budget.after_success() }, PollAction::Next)
        } else {
            match budget.after_failure() {
                Some(left) => (Poller::Running { budget: left }, PollAction::Next),
                None => (Poller::Failed, PollAction::Abort),
            }
        },
    }
}

impl Poller {
    /// A loop that puts up with `limit` failed polls in a row.
    pub fn new(limit: u32) -> (poller: Poller)
        ensures
            poller == (Poller::Running { budget: RetryBudget { limit, failures: 0 } }),
    {
        Poller::Running { budget: RetryBudget::new(limit) }
    }

    /// Takes what the driver reports and says what it is to do next.
    pub fn step(self, event: PollEvent) -> (r: (Poller, PollAction))
        ensures
            r == poller_step(self, event),
    {
        match self {
            Poller::Stopped => (Poller::Stopped, PollAction::Stop),
            Poller::Failed => (Poller::Failed, PollAction::Abort),
            Poller::Running { budget } => match event {
                PollEvent::Wake { running } => if running {
                    (self, PollAction::Poll)
                } else {
                    (Poller::Stopped, PollAction::Stop)
                },
                PollEvent::Polled { ok } => if ok {
                    (Poller::Running { budget: budget.record_success() }, PollAction::Next)
                } else {
                    match budget.record_failure() {
                        Some(left) => (Poller::Running { budget: left }, PollAction::Next),
                        None => (Poller::Failed, PollAction::Abort),
                    }
                },
            },
        }
    }
}

/// Shutdown: at the start of a round a loop that finds the process stopping
/// ends, and once it has ended or given up it asks for no more polls.
pub proof fn lemma_poller_stops(state: Poller, event: PollEvent)
    ensures
        state is Running && event == (PollEvent::Wake { running: false }) ==> poller_step(
            state,
            event,
        ) == (Poller::Stopped, PollAction::Stop),
        !(state is Running) ==> poller_step(state, event).0 == state && poller_step(
            state,
            event,
        ).1 != PollAction::Poll && poller_step(state, event).1 != PollAction::Next,
{
}

/// The loop gives up only on a failed poll, and only when the failures in a
/// row have used up the budget.
pub proof fn lemma_poller_gives_up(budget: RetryBudget, event: PollEvent)
    ensures
        poller_step(Poller::Running { budget }, event).0 is Failed <==> budget.exhausted()
            && event == (PollEvent::Polled { ok: false }),
{
}

} // verus!
