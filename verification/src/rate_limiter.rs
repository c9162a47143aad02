//! Rate limiter: admits or rejects an iteration against an hourly call
//! budget. The budget lives in two scalar files; this module holds the
//! decision logic and the exact text codec of that state, while the caller
//! does the reading and writing.

use vstd::prelude::*;

use crate::num::{
    all_digits, parse_u32_chars, parse_u64_chars, spec_parse_u32, spec_parse_u64, spec_u64_digits,
    lemma_u32_decimal_round_trip, lemma_u64_decimal_round_trip,
};
use crate::text::{chars_of, is_space, spec_trim, spec_trim_end, spec_trim_start, trim_chars};

verus! {

/// Seconds in the sliding window after which the counter resets.
pub const RESET_WINDOW_SECS: u64 = 3600;

/// The limiter itself holds only the configured budget.
pub struct RateLimiter {
    pub max_calls_per_hour: u32,
}

/// The outcome of one admission check.
#[derive(Clone, Debug, PartialEq, Eq, Structural)]
pub struct RateLimitResult {
    pub allowed: bool,
    pub current_count: u32,
    pub remaining: u32,
}

/// The persisted budget state: calls made in the current window and the
/// epoch second at which the window last began.
#[derive(Clone, Debug, PartialEq, Eq, Structural)]
pub struct RateLimitState {
    pub count: u32,
    pub last_reset_epoch: u64,
}

/// The state after the window check: reset to a fresh window when at least
/// an hour has passed since the last reset, otherwise unchanged.
pub open spec fn spec_maybe_reset(state: RateLimitState, now_epoch: u64) -> RateLimitState {
    if now_epoch >= state.last_reset_epoch + RESET_WINDOW_SECS {
        RateLimitState { count: 0, last_reset_epoch: now_epoch }
    } else {
        state
    }
}

/// The count that one scalar file yields: its text trimmed and parsed as a
/// decimal, zero when the file is missing or unparsable.
pub open spec fn spec_count_of_text(text: Option<Seq<char>>) -> u32 {
    match text {
        Some(s) => match spec_parse_u32(spec_trim(s)) {
            Some(c) => c,
            None => 0,
        },
        None => 0,
    }
}

/// The reset epoch that one scalar file yields, zero when missing or
/// unparsable.
pub open spec fn spec_reset_of_text(text: Option<Seq<char>>) -> u64 {
    match text {
        Some(s) => match spec_parse_u64(spec_trim(s)) {
            Some(e) => e,
            None => 0,
        },
        None => 0,
    }
}

impl RateLimiter {
    pub fn new(max_calls_per_hour: u32) -> (r: Self)
        ensures
            r.max_calls_per_hour == max_calls_per_hour,
    {
        RateLimiter { max_calls_per_hour }
    }

    /// Reset the window when an hour has passed; otherwise keep the state.
    pub fn maybe_reset(&self, state: RateLimitState, now_epoch: u64) -> (r: (u32, u64))
        ensures
            r.0 == spec_maybe_reset(state, now_epoch).count,
            r.1 == spec_maybe_reset(state, now_epoch).last_reset_epoch,
    {
        let elapsed: u64 = if now_epoch >= state.last_reset_epoch {
            now_epoch - state.last_reset_epoch
        } else {
            0
        };
        if elapsed >= RESET_WINDOW_SECS {
            (0, now_epoch)
        } else {
            (state.count, state.last_reset_epoch)
        }
    }

    /// Admit or reject one call. After the window check, a count at or over
    /// the budget is rejected with zero remaining and the state is persisted
    /// unchanged; otherwise the count is incremented, persisted, and the
    /// call is admitted with the rest of the budget reported.
    pub fn check_and_increment(&self, state: RateLimitState, now_epoch: u64) -> (r: (
        RateLimitResult,
        RateLimitState,
    ))
        ensures
            ({
                let after = spec_maybe_reset(state, now_epoch);
                if after.count >= self.max_calls_per_hour {
                    r.0 == (RateLimitResult { allowed: false, current_count: after.count, remaining: 0 })
                        && r.1 == after
                } else {
                    r.0 == (RateLimitResult {
                        allowed: true,
                        current_count: (after.count + 1) as u32,
                        remaining: (self.max_calls_per_hour - (after.count + 1)) as u32,
                    }) && r.1 == (RateLimitState {
                        count: (after.count + 1) as u32,
                        last_reset_epoch: after.last_reset_epoch,
                    })
                }
            }),
            r.0.allowed <==> spec_maybe_reset(state, now_epoch).count < self.max_calls_per_hour,
    {
        let (count, last_reset) = self.maybe_reset(state, now_epoch);
        if count >= self.max_calls_per_hour {
            (
                RateLimitResult { allowed: false, current_count: count, remaining: 0 },
                RateLimitState { count, last_reset_epoch: last_reset },
            )
        } else {
            let new_count = count + 1;
            (
                RateLimitResult {
                    allowed: true,
                    current_count: new_count,
                    remaining: self.max_calls_per_hour - new_count,
                },
                RateLimitState { count: new_count, last_reset_epoch: last_reset },
            )
        }
    }

    /// The state that the two scalar files yield, missing or unparsable
    /// content falling back to zero.
    pub fn get_state(&self, count_text: Option<&str>, reset_text: Option<&str>) -> (r:
        RateLimitState)
        ensures
            r.count == spec_count_of_text(match count_text {
                Some(t) => Some(t@),
                None => None,
            }),
            r.last_reset_epoch == spec_reset_of_text(match reset_text {
                Some(t) => Some(t@),
                None => None,
            }),
    {
        let count: u32 = match count_text {
            Some(t) => {
                let v = chars_of(t);
                let trimmed = trim_chars(&v);
                match parse_u32_chars(&trimmed) {
                    Some(c) => c,
                    None => 0,
                }
            },
            None => 0,
        };
        let last_reset: u64 = match reset_text {
            Some(t) => {
                let v = chars_of(t);
                let trimmed = trim_chars(&v);
                match parse_u64_chars(&trimmed) {
                    Some(e) => e,
                    None => 0,
                }
            },
            None => 0,
        };
        RateLimitState { count, last_reset_epoch: last_reset }
    }

    /// The fresh state an explicit reset persists: zero calls, window
    /// starting now.
    pub fn reset(&self, now_epoch: u64) -> (r: RateLimitState)
        ensures
            r.count == 0,
            r.last_reset_epoch == now_epoch,
    {
        RateLimitState { count: 0, last_reset_epoch: now_epoch }
    }
}

/// The decimal text persisted for the call count.
pub fn encode_count(count: u32) -> (s: String)
    ensures
        s@ == spec_u64_digits(count as nat),
{
    crate::num::u32_to_string(count)
}

/// The decimal text persisted for the reset epoch.
pub fn encode_reset(epoch: u64) -> (s: String)
    ensures
        s@ == spec_u64_digits(epoch as nat),
{
    crate::num::u64_to_string(epoch)
}

/// A non-empty all-digit text is unchanged by trimming.
proof fn lemma_trim_digits(s: Seq<char>)
    requires
        s.len() > 0,
        all_digits(s),
    ensures
        spec_trim(s) == s,
{
    assert(!is_space(s[0]));
    assert(spec_trim_start(s) == s);
    assert(!is_space(s.last()));
    assert(spec_trim_end(s) == s);
}

/// Rate-limiter persistence: the scalar texts persisted for a state are
/// read back as exactly that state, so the budget survives across
/// independent limiter instances sharing the same runtime directory.
pub proof fn lemma_rate_limit_state_round_trip(state: RateLimitState)
    ensures
        spec_count_of_text(Some(spec_u64_digits(state.count as nat))) == state.count,
        spec_reset_of_text(Some(spec_u64_digits(state.last_reset_epoch as nat)))
            == state.last_reset_epoch,
{
    crate::num::lemma_u64_digits_shape(state.count as nat);
    lemma_trim_digits(spec_u64_digits(state.count as nat));
    lemma_u32_decimal_round_trip(state.count);
    crate::num::lemma_u64_digits_shape(state.last_reset_epoch as nat);
    lemma_trim_digits(spec_u64_digits(state.last_reset_epoch as nat));
    lemma_u64_decimal_round_trip(state.last_reset_epoch);
}

} // verus!
