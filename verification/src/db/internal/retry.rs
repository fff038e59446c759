//! The retrying executor: how often a failed write is tried again.
use vstd::prelude::*;

verus! {

/// The pause between a failed attempt and the next one, in milliseconds.
pub const RETRY_DELAY_MS: u64 = 10;

/// What the caller does next.
#[derive(Debug, Clone, Copy, PartialEq, Eq, Structural)]
pub enum Step {
    /// Run the statement once more.
    Attempt,
    /// Stop: the budget is spent.
    GiveUp,
}

/// The view of a [`RetryingExecutor`]: the budget of attempts, and how many
/// of them have failed.
pub struct RetryState {
    pub budget: nat,
    pub failures: nat,
}

/// What the executor asks for in a state: one more attempt as long as fewer
/// attempts have failed than the budget allows.
pub open spec fn step_of(state: RetryState) -> Step {
    if state.failures < state.budget {
        Step::Attempt
    } else {
        Step::GiveUp
    }
}

/// The state after one more failed attempt.
pub open spec fn after_failure(state: RetryState) -> RetryState {
    if state.failures < state.budget {
        RetryState { budget: state.budget, failures: state.failures + 1 }
    } else {
        state
    }
}

/// How a write ended: the number of attempts that were made, and the number of
/// rows it changed where one of them succeeded.
pub struct WriteOutcome {
    pub attempts: nat,
    pub rows: Option<usize>,
}

/// The course of a write from a state on, where `results[k]` is what the
/// engine answers to the attempt made after `k` failures, `None` for a
/// failure: the caller follows [`step_of`], stops at the first success, and
/// records each failure.
pub open spec fn run(state: RetryState, results: Seq<Option<usize>>) -> WriteOutcome
    decreases state.budget - state.failures,
{
    match step_of(state) {
        Step::GiveUp => WriteOutcome { attempts: 0, rows: None },
        Step::Attempt => match results[state.failures as int] {
            Some(rows) => WriteOutcome { attempts: 1, rows: Some(rows) },
            None => {
                let rest = run(after_failure(state), results);
                WriteOutcome { attempts: rest.attempts + 1, rows: rest.rows }
            },
        },
    }
}

/// A write whose every attempt fails is given up after exactly as many
/// attempts as are left of the budget, no fewer and no more, and ends without
/// a row count.
pub proof fn lemma_exhaustion(state: RetryState, results: Seq<Option<usize>>)
    requires
        state.failures <= state.budget <= results.len(),
        forall|k: int| 0 <= k < results.len() ==> results[k] is None,
    ensures
        run(state, results).attempts == state.budget - state.failures,
        run(state, results).rows is None,
    decreases state.budget - state.failures,
{
    if state.failures < state.budget {
        lemma_exhaustion(after_failure(state), results);
    }
}

/// A write succeeds exactly when some attempt within the budget does; it then
/// ends at the first such attempt, with the rows of that attempt.
pub proof fn lemma_first_success(state: RetryState, results: Seq<Option<usize>>, k: nat)
    requires
        state.failures <= k < state.budget <= results.len(),
        forall|j: int| state.failures <= j < k ==> results[j] is None,
        results[k as int] is Some,
    ensures
        run(state, results).attempts == k - state.failures + 1,
        run(state, results).rows == results[k as int],
    decreases k - state.failures,
{
    if state.failures < k {
        lemma_first_success(after_failure(state), results, k);
    }
}

/// Counts the failed attempts of one write against its budget.
pub struct RetryingExecutor {
    budget: u32,
    failures: u32,
}

impl View for RetryingExecutor {
    type V = RetryState;

    closed spec fn view(&self) -> RetryState {
        RetryState { budget: self.budget as nat, failures: self.failures as nat }
    }
}

impl RetryingExecutor {
    #[verifier::type_invariant]
    spec fn within_budget(&self) -> bool {
        self.failures <= self.budget
    }

    /// An executor for a write that may be attempted `budget` times.
    pub fn new(budget: u32) -> (executor: RetryingExecutor)
        ensures
            executor@ == (RetryState { budget: budget as nat, failures: 0 }),
    {
        RetryingExecutor { budget, failures: 0 }
    }

    /// What to do next: attempt the statement, or give the write up.
    pub fn next_step(&self) -> (step: Step)
        ensures
            step == step_of(self@),
    {
        if self.failures < self.budget {
            Step::Attempt
        } else {
            Step::GiveUp
        }
    }

    /// Records that an attempt failed, and says how many milliseconds to wait
    /// before the next step.
    pub fn attempt_failed(&mut self) -> (delay: u64)
        ensures
            final(self)@ == after_failure(old(self)@),
            delay == RETRY_DELAY_MS,
    {
        proof {
            use_type_invariant(&*self);
        }
        if self.failures < self.budget {
            self.failures = self.failures + 1;
        }
        RETRY_DELAY_MS
    }

    /// The number of attempts that have failed.
    pub fn failures(&self) -> (failures: u32)
        ensures
            failures as nat == self@.failures,
    {
        self.failures
    }
}

} // verus!
