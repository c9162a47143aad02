//! Circuit breaker: tracks consecutive no-progress iterations and opens once
//! the configured limit is reached.

use vstd::prelude::*;

use crate::types::{CircuitBreakerState, CircuitState};

verus! {

/// In-memory breaker: the persisted state plus the configured limit.
#[derive(Clone, Debug)]
pub struct CircuitBreaker {
    pub state: CircuitBreakerState,
    pub no_progress_limit: u32,
}

/// What the run loop should do after a breaker update.
#[derive(Clone, Debug, PartialEq, Eq, Structural)]
pub enum CircuitBreakerAction {
    Continue,
    OpenCircuit,
}

/// The breaker value after one progress iteration: counter cleared, closed.
pub open spec fn spec_after_progress(cb: CircuitBreaker) -> CircuitBreaker {
    CircuitBreaker {
        state: CircuitBreakerState { state: CircuitState::Closed, consecutive_no_progress: 0 },
        no_progress_limit: cb.no_progress_limit,
    }
}

/// The breaker value after one no-progress iteration: counter incremented,
/// open once the counter reaches the limit, half-open below it.
pub open spec fn spec_after_no_progress(cb: CircuitBreaker) -> CircuitBreaker {
    let count = (cb.state.consecutive_no_progress + 1) as u32;
    CircuitBreaker {
        state: CircuitBreakerState {
            state: if count >= cb.no_progress_limit {
                CircuitState::Open
            } else {
                CircuitState::HalfOpen
            },
            consecutive_no_progress: count,
        },
        no_progress_limit: cb.no_progress_limit,
    }
}

/// The breaker after `k` consecutive no-progress iterations.
pub open spec fn spec_after_no_progress_run(cb: CircuitBreaker, k: nat) -> CircuitBreaker
    decreases k,
{
    if k == 0 {
        cb
    } else {
        spec_after_no_progress(spec_after_no_progress_run(cb, (k - 1) as nat))
    }
}

impl CircuitBreaker {
    /// A fresh breaker: closed, counter zero.
    pub fn new(no_progress_limit: u32) -> (r: Self)
        ensures
            r.state.state == CircuitState::Closed,
            r.state.consecutive_no_progress == 0,
            r.no_progress_limit == no_progress_limit,
    {
        CircuitBreaker { state: CircuitBreakerState::default(), no_progress_limit }
    }

    /// Restore a breaker from a persisted state, keeping it verbatim.
    pub fn from_state(state: CircuitBreakerState, no_progress_limit: u32) -> (r: Self)
        ensures
            r.state == state,
            r.no_progress_limit == no_progress_limit,
    {
        CircuitBreaker { state, no_progress_limit }
    }

    /// Progress clears the counter and closes the breaker.
    pub fn record_progress(&mut self) -> (r: CircuitBreakerAction)
        ensures
            *final(self) == spec_after_progress(*old(self)),
            r == CircuitBreakerAction::Continue,
    {
        self.state.consecutive_no_progress = 0;
        self.state.state = CircuitState::Closed;
        CircuitBreakerAction::Continue
    }

    /// A no-progress iteration increments the counter; once it reaches the
    /// limit the breaker opens and the caller is told to stop.
    pub fn record_no_progress(&mut self) -> (r: CircuitBreakerAction)
        requires
            old(self).state.consecutive_no_progress < u32::MAX,
        ensures
            *final(self) == spec_after_no_progress(*old(self)),
            r == (if old(self).state.consecutive_no_progress + 1 >= old(self).no_progress_limit {
                CircuitBreakerAction::OpenCircuit
            } else {
                CircuitBreakerAction::Continue
            }),
    {
        self.state.consecutive_no_progress = self.state.consecutive_no_progress + 1;
        if self.state.consecutive_no_progress >= self.no_progress_limit {
            self.state.state = CircuitState::Open;
            CircuitBreakerAction::OpenCircuit
        } else {
            self.state.state = CircuitState::HalfOpen;
            CircuitBreakerAction::Continue
        }
    }

    pub fn is_open(&self) -> (r: bool)
        ensures
            r == (self.state.state == CircuitState::Open),
    {
        matches!(self.state.state, CircuitState::Open)
    }

    pub fn is_closed(&self) -> (r: bool)
        ensures
            r == (self.state.state == CircuitState::Closed),
    {
        matches!(self.state.state, CircuitState::Closed)
    }

    pub fn is_half_open(&self) -> (r: bool)
        ensures
            r == (self.state.state == CircuitState::HalfOpen),
    {
        matches!(self.state.state, CircuitState::HalfOpen)
    }

    pub fn consecutive_no_progress(&self) -> (r: u32)
        ensures
            r == self.state.consecutive_no_progress,
    {
        self.state.consecutive_no_progress
    }

    /// An explicit reset returns the breaker to the fresh closed state.
    pub fn reset(&mut self)
        ensures
            *final(self) == spec_after_progress(*old(self)),
    {
        self.state = CircuitBreakerState::default();
    }
}

/// Exactly `limit` consecutive no-progress iterations open the breaker.
///
/// Starting from any breaker whose counter was just cleared (by progress or a
/// reset), a run of `k` consecutive no-progress iterations leaves the counter
/// at `k`; the breaker stays out of the open state for every run shorter than
/// the limit and is open for every run that reaches it. Intervening progress
/// returns the counter to zero, so only an unbroken run can open the breaker.
pub proof fn lemma_breaker_opens_exactly_at_limit(cb: CircuitBreaker, k: nat)
    requires
        cb.state.consecutive_no_progress == 0,
        cb.no_progress_limit >= 1,
        k <= u32::MAX,
    ensures
        spec_after_no_progress_run(cb, k).state.consecutive_no_progress == k,
        spec_after_no_progress_run(cb, k).no_progress_limit == cb.no_progress_limit,
        k > 0 && k < cb.no_progress_limit ==> spec_after_no_progress_run(cb, k).state.state
            == CircuitState::HalfOpen,
        k >= cb.no_progress_limit ==> spec_after_no_progress_run(cb, k).state.state
            == CircuitState::Open,
        spec_after_progress(spec_after_no_progress_run(cb, k)).state.consecutive_no_progress == 0,
    decreases k,
{
    if k > 0 {
        lemma_breaker_opens_exactly_at_limit_step(cb, (k - 1) as nat);
    }
}

/// Helper induction for [`lemma_breaker_opens_exactly_at_limit`]: the counter
/// after a run of `k` no-progress iterations from a cleared breaker is `k`.
proof fn lemma_breaker_opens_exactly_at_limit_step(cb: CircuitBreaker, k: nat)
    requires
        cb.state.consecutive_no_progress == 0,
        cb.no_progress_limit >= 1,
        k < u32::MAX,
    ensures
        spec_after_no_progress_run(cb, k).state.consecutive_no_progress == k,
        spec_after_no_progress_run(cb, k).no_progress_limit == cb.no_progress_limit,
    decreases k,
{
    if k > 0 {
        lemma_breaker_opens_exactly_at_limit_step(cb, (k - 1) as nat);
    }
}

} // verus!
