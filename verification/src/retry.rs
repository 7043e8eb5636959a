//! How many failures in a row a loop puts up with.

use vstd::prelude::*;

verus! {

/// A count of failures in a row, and how many of them are put up with.
#[derive(Debug, Clone, Copy, PartialEq, Eq, Structural)]
pub struct RetryBudget {
    /// Failures in a row after which the next one is fatal.
    pub limit: u32,
    /// Failures since the last success.
    pub failures: u32,
}

impl RetryBudget {
    /// True when one more failure is fatal.
    pub open spec fn exhausted(self) -> bool {
        self.failures >= self.limit
    }

    /// The budget after a success: the count starts over.
    pub open spec fn after_success(self) -> RetryBudget {
        RetryBudget { limit: self.limit, failures: 0 }
    }

    /// The budget after a failure, where there is one: one more failure is on
    /// the count, unless the budget was exhausted already.
    pub open spec fn after_failure(self) -> Option<RetryBudget> {
        if self.exhausted() {
            None
        } else {
            Some(RetryBudget { limit: self.limit, failures: (self.failures + 1) as u32 })
        }
    }

    /// A budget that puts up with `limit` failures in a row.
    pub fn new(limit: u32) -> (budget: RetryBudget)
        ensures
            budget == (RetryBudget { limit, failures: 0 }),
    {
        RetryBudget { limit, failures: 0 }
    }

    /// Takes note of a success.
    pub fn record_success(self) -> (budget: RetryBudget)
        ensures
            budget == self.after_success(),
    {
        RetryBudget { limit: self.limit, failures: 0 }
    }

    /// Takes note of a failure. Returns nothing when the failure is fatal.
    pub fn record_failure(self) -> (budget: Option<RetryBudget>)
        ensures
            budget == self.after_failure(),
    {
        if self.failures >= self.limit {
            None
        } else {
            Some(RetryBudget { limit: self.limit, failures: self.failures + 1 })
        }
    }
}

/// A budget that was fresh puts up with exactly `limit` failures in a row:
/// after `n` of them, the next one is fatal when `n` has reached the limit and
/// not before.
pub proof fn lemma_failures_in_a_row(limit: u32, n: nat)
    requires
        n <= limit,
    ensures
        failures_in_a_row(limit, n) == Some(RetryBudget { limit, failures: n as u32 }),
        failures_in_a_row(limit, n + 1) is None <==> n == limit,
    decreases n,
{
    if n > 0 {
        lemma_failures_in_a_row(limit, (n - 1) as nat);
    }
}

/// The budget that is left after `n` failures in a row on a fresh budget, if
/// none of them was fatal.
pub open spec fn failures_in_a_row(limit: u32, n: nat) -> Option<RetryBudget>
    decreases n,
{
    if n == 0 {
        Some(RetryBudget { limit, failures: 0 })
    } else {
        match failures_in_a_row(limit, (n - 1) as nat) {
            Some(budget) => budget.after_failure(),
            None => None,
        }
    }
}

} // verus!
