//! Drift of the local clock against the platform's.
//!
//! The platform's clock arrives with each registration. Drift is observed and
//! reported, never corrected here.

use vstd::prelude::*;

verus! {

/// Seconds between two looks at the platform's clock.
pub const DATE_OBSERVER_INTERVAL: u64 = 60;

/// Drift in seconds beyond which an operator should know.
pub const DATE_DRIFT_WARN_SECS: u64 = 5;

/// What one sample of the platform's clock calls for.
#[derive(Debug, Clone, Copy, PartialEq, Eq, Structural)]
pub enum DateDriftOutcome {
    /// Back within the threshold: clear the latch.
    Recovered,
    /// Nothing new: keep the latch.
    Stable,
    /// Beyond the threshold and moved since the last warning: warn with the
    /// signed drift and latch its magnitude.
    Warn(i64),
}

/// The distance of two numbers.
pub open spec fn distance(a: int, b: int) -> int {
    if a < b {
        b - a
    } else {
        a - b
    }
}

/// What a drift calls for, given the magnitude last warned of.
pub open spec fn drift_outcome(drift: int, last_warned: Option<u64>) -> DateDriftOutcome {
    let size = distance(drift, 0);
    if size <= DATE_DRIFT_WARN_SECS {
        if last_warned is Some {
            DateDriftOutcome::Recovered
        } else {
            DateDriftOutcome::Stable
        }
    } else if last_warned is Some && distance(size, last_warned->0 as int) < DATE_DRIFT_WARN_SECS {
        DateDriftOutcome::Stable
    } else {
        DateDriftOutcome::Warn(drift as i64)
    }
}

/// Evaluates one sample. The drift is how far the local clock runs ahead.
pub fn evaluate_date_drift(
    platform_unix: i64,
    local_unix: i64,
    last_warned: Option<u64>,
) -> (outcome: DateDriftOutcome)
    requires
        i64::MIN <= local_unix - platform_unix <= i64::MAX,
    ensures
        outcome == drift_outcome(local_unix - platform_unix, last_warned),
{
    let drift: i64 = local_unix - platform_unix;
    let size: u64 = if drift >= 0 {
        drift as u64
    } else {
        (-(drift + 1)) as u64 + 1
    };
    if size <= DATE_DRIFT_WARN_SECS {
        return if last_warned.is_some() {
            DateDriftOutcome::Recovered
        } else {
            DateDriftOutcome::Stable
        };
    }
    match last_warned {
        Some(prev) => {
            let moved: u64 = if size < prev {
                prev - size
            } else {
                size - prev
            };
            if moved < DATE_DRIFT_WARN_SECS {
                DateDriftOutcome::Stable
            } else {
                DateDriftOutcome::Warn(drift)
            }
        },
        None => DateDriftOutcome::Warn(drift),
    }
}

/// The latch after an outcome.
pub open spec fn latch_after(outcome: DateDriftOutcome, latch: Option<u64>) -> Option<u64> {
    match outcome {
        DateDriftOutcome::Recovered => None,
        DateDriftOutcome::Stable => latch,
        DateDriftOutcome::Warn(drift) => Some(distance(drift as int, 0) as u64),
    }
}

/// Moves the latch on after an outcome.
pub fn update_latch(outcome: DateDriftOutcome, latch: Option<u64>) -> (next: Option<u64>)
    ensures
        next == latch_after(outcome, latch),
{
    match outcome {
        DateDriftOutcome::Recovered => None,
        DateDriftOutcome::Stable => latch,
        DateDriftOutcome::Warn(drift) => if drift >= 0 {
            Some(drift as u64)
        } else {
            Some((-(drift + 1)) as u64 + 1)
        },
    }
}

/// A drift that does not move is warned of once: whatever a sample called for,
/// the same drift calls for nothing after it.
pub proof fn unmoved_drift_is_reported_once(drift: int, latch: Option<u64>)
    requires
        i64::MIN <= drift <= i64::MAX,
    ensures
        drift_outcome(drift, latch_after(drift_outcome(drift, latch), latch))
            == DateDriftOutcome::Stable,
{
}

/// A latch is held only for a drift that was beyond the threshold, and is
/// cleared by the first sample within it.
pub proof fn recovery_clears_the_latch(drift: int, latch: Option<u64>)
    requires
        i64::MIN <= drift <= i64::MAX,
        latch is Some ==> latch->0 > DATE_DRIFT_WARN_SECS,
    ensures
        latch_after(drift_outcome(drift, latch), latch) is Some ==> latch_after(
            drift_outcome(drift, latch),
            latch,
        )->0 > DATE_DRIFT_WARN_SECS,
        distance(drift, 0) <= DATE_DRIFT_WARN_SECS ==> latch_after(
            drift_outcome(drift, latch),
            latch,
        ) is None,
{
}

/// A drift of more than five seconds is warned of when it is first seen, and
/// again when it has moved by five seconds or more; one of less is told apart
/// only by whether it comes after a warning.
pub proof fn drifts_are_told(drift: int, latch: Option<u64>)
    requires
        i64::MIN <= drift <= i64::MAX,
    ensures
        ({
            let size = if drift < 0 {
                -drift
            } else {
                drift
            };
            let outcome = drift_outcome(drift, latch);
            &&& size > 5 && latch is None ==> outcome == DateDriftOutcome::Warn(drift as i64)
            &&& size > 5 && latch is Some && (size >= latch->0 + 5 || size + 5 <= latch->0)
                ==> outcome == DateDriftOutcome::Warn(drift as i64)
            &&& size > 5 && latch is Some && latch->0 - 5 < size < latch->0 + 5 ==> outcome
                == DateDriftOutcome::Stable
            &&& size <= 5 && latch is Some ==> outcome == DateDriftOutcome::Recovered
            &&& size <= 5 && latch is None ==> outcome == DateDriftOutcome::Stable
            &&& latch_after(DateDriftOutcome::Warn(drift as i64), latch) == Some(size as u64)
        }),
{
}

} // verus!
