//! Whether and when a call of the model is tried again.

use vstd::prelude::*;

use crate::provider::{doubled_up_to, lemma_doubled_bounds, LlmError, LlmErrorView, RetryPolicy};
use crate::session::{OutcomeView, TurnOutcome};
use crate::time::Duration;

verus! {

/// The longest wait before another try, in nanoseconds.
pub const MAX_WAIT_NANOS: u64 = 10_000_000_000;

/// The wait that is doubled before every try, in nanoseconds.
pub const BASE_WAIT_NANOS: u64 = 250_000_000;

/// How long to wait before the try of a number: as long as the vendor asked for,
/// else a quarter of a second doubled for every try, and never longer than ten
/// seconds.
pub open spec fn wait_before(e: LlmErrorView, attempt: u32) -> int {
    match e.asked_wait() {
        Some(w) if w.total() > 0 => if w.total() <= MAX_WAIT_NANOS {
            w.total()
        } else {
            MAX_WAIT_NANOS as int
        },
        _ => doubled_up_to(
            BASE_WAIT_NANOS as int,
            MAX_WAIT_NANOS as int,
            if attempt <= 5 {
                attempt as nat
            } else {
                5
            },
        ),
    }
}

/// How long to wait before the try of a number.
pub fn retry_wait(e: &LlmError, attempt: u32) -> (r: Duration)
    requires
        e.deep_view().asked_wait() matches Some(w) ==> w.wf(),
    ensures
        r.wf(),
        r.total() == wait_before(e.deep_view(), attempt),
{
    let longest = Duration::from_secs(10);
    if let LlmError::RateLimited { retry_after: Some(after) } = e {
        if !after.is_zero() {
            return (*after).shorter(longest);
        }
    }
    let policy = RetryPolicy {
        max_retries: 0,
        base_delay: Duration::from_millis(250),
        max_delay: longest,
    };
    policy.backoff_for(if attempt <= 5 { attempt } else { 5 })
}

/// What follows a call of the model.
#[derive(Debug)]
pub enum RetryStep {
    /// Wait, and call it again.
    Again(Duration),
    /// That was it.
    Stop(TurnOutcome),
}

/// Whether a call is tried again after one that ended so.
pub open spec fn tries_again(outcome: OutcomeView, attempt: u32, max_retries: u32) -> bool {
    outcome matches OutcomeView::Error(e) && e.retryable() && attempt < max_retries
}

/// Decides what follows a call of the model: failures that can pass are tried
/// again as often as allowed, and everything else stands.
pub fn after_call(outcome: TurnOutcome, attempt: u32, max_retries: u32) -> (r: RetryStep)
    requires
        outcome matches TurnOutcome::Error(e) ==> (e.deep_view().asked_wait() matches Some(w)
            ==> w.wf()),
    ensures
        r is Again <==> tries_again(outcome.deep_view(), attempt, max_retries),
        r matches RetryStep::Again(wait) ==> wait.wf() && wait.total() == wait_before(
            outcome.deep_view()->Error_0,
            (attempt + 1) as u32,
        ),
        r matches RetryStep::Stop(o) ==> o == outcome,
{
    match &outcome {
        TurnOutcome::Error(e) => {
            if e.is_retryable() && attempt < max_retries {
                return RetryStep::Again(retry_wait(e, attempt + 1));
            }
        },
        _ => {},
    }
    RetryStep::Stop(outcome)
}

/// No wait is longer than ten seconds.
pub proof fn law_wait_is_bounded(e: LlmErrorView, attempt: u32)
    ensures
        0 <= wait_before(e, attempt) <= MAX_WAIT_NANOS,
{
    lemma_doubled_bounds(
        BASE_WAIT_NANOS as int,
        MAX_WAIT_NANOS as int,
        if attempt <= 5 {
            attempt as nat
        } else {
            5
        },
    );
}

/// There is always a wait before another try.
pub proof fn law_wait_is_real(e: LlmErrorView, attempt: u32)
    ensures
        wait_before(e, attempt) > 0,
{
    let n = if attempt <= 5 {
        attempt as nat
    } else {
        5
    };
    lemma_positive(n);
}

proof fn lemma_positive(n: nat)
    ensures
        doubled_up_to(BASE_WAIT_NANOS as int, MAX_WAIT_NANOS as int, n) > 0,
    decreases n,
{
    if n > 0 {
        lemma_positive((n - 1) as nat);
    }
}

/// A cancelled, timed out or successful call is not made again, nor is one that
/// failed for good.
pub proof fn law_only_passing_failures_are_retried(
    outcome: OutcomeView,
    attempt: u32,
    max_retries: u32,
)
    requires
        tries_again(outcome, attempt, max_retries),
    ensures
        outcome matches OutcomeView::Error(e) && e.retryable(),
        attempt < max_retries,
{
}

} // verus!
