//! Retrying one file's download inside a concurrent batch, so a flaky file
//! does not take every other download down with it. The app runs the loop
//! (the attempt and the pause between attempts are I/O); this module decides
//! what follows each attempt.

use vstd::prelude::*;

use crate::error::AppError;

verus! {

/// How many extra attempts a single file gets before its failure is allowed
/// to take down the whole batch.
pub const MAX_RETRIES: u32 = 2;

/// Delay between retries, in milliseconds; fixed, not exponential.
pub const RETRY_DELAY_MS: u64 = 2000;

/// What follows an attempt.
#[derive(Debug)]
pub enum RetryStep {
    /// Wait the retry delay, then attempt again.
    Retry,
    /// The download is over, with this result.
    Finish(Result<(), AppError>),
}

/// The retries left after an attempt with this outcome, and the next step:
/// success and cancellation end at once, another failure is retried while
/// retries are left and returned otherwise.
pub open spec fn step_spec(retries_left: u32, ok: bool, cancelled: bool) -> (u32, bool) {
    if ok || cancelled {
        (retries_left, false)
    } else if retries_left > 0 {
        ((retries_left - 1) as u32, true)
    } else {
        (retries_left, false)
    }
}

/// Before each attempt: a cancelled batch is not attempted at all.
pub fn before_attempt(still_wanted: bool) -> (r: Option<AppError>)
    ensures
        !still_wanted <==> r matches Some(AppError::Cancelled),
        still_wanted <==> r is None,
{
    if !still_wanted {
        Some(AppError::Cancelled)
    } else {
        None
    }
}

/// After an attempt with `outcome`, with `retries_left` retries left.
pub fn after_attempt(retries_left: &mut u32, outcome: Result<(), AppError>) -> (r: RetryStep)
    ensures
        ({
            let (left, retry) = step_spec(
                *old(retries_left),
                outcome is Ok,
                outcome matches Err(AppError::Cancelled),
            );
            &&& *final(retries_left) == left
            &&& (r is Retry) == retry
            &&& !retry ==> r == RetryStep::Finish(outcome)
        }),
{
    let retry = match &outcome {
        Ok(()) => false,
        Err(AppError::Cancelled) => false,
        Err(_) => *retries_left > 0,
    };
    if retry {
        *retries_left = *retries_left - 1;
        RetryStep::Retry
    } else {
        RetryStep::Finish(outcome)
    }
}

/// How many attempts a download makes whose attempts all fail (without
/// being cancelled), starting with `left` retries.
pub open spec fn attempts_when_failing(left: u32) -> nat
    decreases left,
{
    let (next, retry) = step_spec(left, false, false);
    if retry {
        1 + attempts_when_failing(next)
    } else {
        1
    }
}

/// A download that keeps failing is attempted exactly `max_retries + 1`
/// times, then gives up: it never retries forever.
pub proof fn lemma_failing_attempts(max_retries: u32)
    ensures
        attempts_when_failing(max_retries) == max_retries + 1,
    decreases max_retries,
{
    if max_retries > 0 {
        lemma_failing_attempts((max_retries - 1) as u32);
    }
}

/// A cancellation is never retried, whatever retries are left.
pub proof fn lemma_cancel_not_retried(left: u32)
    ensures
        step_spec(left, false, true) == (left, false),
{
}

/// A success ends the download at once.
pub proof fn lemma_success_finishes(left: u32)
    ensures
        step_spec(left, true, false) == (left, false),
{
}

/// An outcome that ends the download whatever retries are left.
pub open spec fn finishes(o: Result<(), AppError>) -> bool {
    o is Ok || o matches Err(AppError::Cancelled)
}

/// How many of the outcomes `os` the retry loop consumes, starting with
/// `left` retries: each attempt takes the next outcome, and `step_spec`
/// says whether another attempt follows.
pub open spec fn attempts_made(left: u32, os: Seq<Result<(), AppError>>) -> nat
    decreases os.len(),
{
    if os.len() == 0 {
        0
    } else {
        let (next, retry) = step_spec(left, os[0] is Ok, os[0] matches Err(AppError::Cancelled));
        if retry {
            1 + attempts_made(next, os.drop_first())
        } else {
            1
        }
    }
}

/// The position of the first outcome that ends the download, or the
/// number of outcomes when none does.
pub open spec fn first_finishing(os: Seq<Result<(), AppError>>) -> nat
    decreases os.len(),
{
    if os.len() == 0 {
        0
    } else if finishes(os[0]) {
        0
    } else {
        1 + first_finishing(os.drop_first())
    }
}

/// Whatever the attempts give, the loop makes exactly as many attempts as
/// it takes to reach the first success or cancellation, but never more than
/// `max_retries + 1`, and the download ends with the outcome of its last
/// attempt. Stated for outcome sequences long enough to reach that point.
pub proof fn lemma_attempts_for_outcomes(max_retries: u32, os: Seq<Result<(), AppError>>)
    requires
        first_finishing(os) < os.len() || max_retries < os.len(),
    ensures
        attempts_made(max_retries, os) == vstd::math::min((first_finishing(os) + 1) as int, max_retries + 1),
        1 <= attempts_made(max_retries, os) <= os.len(),
        attempts_made(max_retries, os) < max_retries + 1 ==> finishes(os[attempts_made(max_retries, os) - 1]),
    decreases os.len(),
{
    if os.len() > 0 && !finishes(os[0]) && max_retries > 0 {
        let rest = os.drop_first();
        assert(first_finishing(os) == 1 + first_finishing(rest));
        lemma_attempts_for_outcomes((max_retries - 1) as u32, rest);
        assert(rest[attempts_made((max_retries - 1) as u32, rest) - 1] == os[attempts_made(max_retries, os) - 1]);
    }
}

} // verus!
