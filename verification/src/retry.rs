//! Bounded retry with exponential backoff around a call to the upstream
//! provider. The caller makes the call and sleeps; this module decides,
//! after each call, what happens next.

use vstd::prelude::*;
use vstd::arithmetic::power2::pow2;
use vstd::arithmetic::power2::lemma_pow2_unfold;
use vstd::arithmetic::power2::lemma_pow2_strictly_increases;
use vstd::arithmetic::power2::lemma2_to64;
use vstd::arithmetic::power2::lemma2_to64_rest;
use vstd::string::StringExecFns;
use crate::error::SwapError;
use crate::text::contains;
use crate::text::has_substring;
use crate::text::lowercase_of;
use crate::text::to_lowercase;

verus! {

/// The most retries that follow a first failed call.
pub const MAX_RETRIES: u32 = 3;

/// Whether an error message, given in lowercase, tells of rate limiting by
/// the upstream: it does when it speaks of a rate limit, of too many
/// requests, or of the HTTP status 429.
pub open spec fn tells_of_rate_limit(lowered: Seq<char>) -> bool {
    ||| has_substring(lowered, "rate limit"@)
    ||| has_substring(lowered, "429"@)
    ||| has_substring(lowered, "too many requests"@)
}

/// Whether an error message tells of rate limiting by the upstream,
/// whatever the case of its letters.
pub open spec fn is_rate_limit_text(msg: Seq<char>) -> bool {
    tells_of_rate_limit(lowercase_of(msg))
}

/// The message of the failure that a call refused by the local rate limiter
/// counts as.
pub open spec fn throttled_text() -> Seq<char> {
    "rate limit: no token left for the call"@
}

/// Seconds slept before retry number `retry`, counted from 1: one second,
/// doubled with each further retry.
pub open spec fn backoff_of(retry: nat) -> nat
    recommends
        retry >= 1,
{
    pow2((retry - 1) as nat)
}

/// Seconds slept in all before retries 1 to `retries`.
pub open spec fn total_backoff(retries: nat) -> nat
    decreases retries,
{
    if retries == 0 {
        0
    } else {
        total_backoff((retries - 1) as nat) + backoff_of(retries)
    }
}

/// Whether an error message, given in lowercase, tells of rate limiting by
/// the upstream.
pub fn is_rate_limit_lowered(lowered: &str) -> (retryable: bool)
    ensures
        retryable == tells_of_rate_limit(lowered@),
{
    contains(lowered, "rate limit") || contains(lowered, "429") || contains(
        lowered,
        "too many requests",
    )
}

/// Whether an error message tells of rate limiting by the upstream,
/// whatever the case of its letters.
pub fn is_rate_limit_error(msg: &str) -> (retryable: bool)
    ensures
        retryable == is_rate_limit_text(msg@),
{
    let lowered = to_lowercase(msg);
    is_rate_limit_lowered(lowered.as_str())
}

/// Seconds to sleep before retry number `retry`, counted from 1.
pub fn backoff_seconds(retry: u32) -> (secs: u64)
    requires
        1 <= retry <= 64,
    ensures
        secs == backoff_of(retry as nat),
        retry == 1 ==> secs == 1,
        retry == 2 ==> secs == 2,
        retry == 3 ==> secs == 4,
{
    let mut secs: u64 = 1;
    let mut done: u32 = 1;
    proof {
        lemma2_to64();
    }
    while done < retry
        invariant
            1 <= done <= retry <= 64,
            secs == pow2((done - 1) as nat),
        decreases retry - done,
    {
        proof {
            lemma_pow2_unfold(done as nat);
            lemma_pow2_strictly_increases(done as nat, 64);
            lemma2_to64_rest();
        }
        secs = secs * 2;
        done += 1;
    }
    proof {
        lemma2_to64();
    }
    secs
}

/// How far a retried call has come: the retries made so far, and the
/// seconds slept before them.
#[derive(Clone, Copy, Debug, PartialEq, Eq, Structural)]
pub struct RetryState {
    pub retries: u32,
    pub slept_secs: u64,
}

/// The sum of two numbers of seconds, held at the largest number that can
/// be written.
pub open spec fn seconds_sum(a: u64, b: u64) -> u64 {
    if a + b > u64::MAX {
        u64::MAX
    } else {
        (a + b) as u64
    }
}

/// What the caller does after a call has returned.
pub enum RetryStep<T> {
    /// The operation is over, with this result.
    Finished(Result<T, SwapError>),
    /// Sleep for `delay_secs` seconds, then call again in state `next`.
    Backoff { delay_secs: u64, next: RetryState },
}

impl RetryState {
    /// The invariant of a state reached from the first call: no more than
    /// the allowed retries were made, and the seconds slept are those of
    /// the backoff schedule.
    pub open spec fn wf(self) -> bool {
        &&& self.retries <= MAX_RETRIES
        &&& self.slept_secs == total_backoff(self.retries as nat)
    }

    /// The state after one more retry.
    pub open spec fn retried(self) -> RetryState {
        RetryState {
            retries: (self.retries + 1) as u32,
            slept_secs: seconds_sum(
                self.slept_secs,
                backoff_of((self.retries + 1) as nat) as u64,
            ),
        }
    }

    /// Whether a failure with the message `msg` is retried in this state.
    pub open spec fn retries_on(self, msg: Seq<char>) -> bool {
        is_rate_limit_text(msg) && self.retries < MAX_RETRIES
    }

    /// The step that follows a call's outcome in this state.
    pub open spec fn step<T>(self, outcome: Result<T, String>) -> RetryStep<T> {
        match outcome {
            Ok(value) => RetryStep::Finished(Ok(value)),
            Err(msg) => if self.retries_on(msg@) {
                RetryStep::Backoff {
                    delay_secs: backoff_of((self.retries + 1) as nat) as u64,
                    next: self.retried(),
                }
            } else if is_rate_limit_text(msg@) {
                RetryStep::Finished(Err(SwapError::RateLimited(msg)))
            } else {
                RetryStep::Finished(Err(SwapError::ExternalApiError(msg)))
            },
        }
    }

    /// The state before the first call.
    pub fn new() -> (state: RetryState)
        ensures
            state == (RetryState { retries: 0, slept_secs: 0 }),
            state.wf(),
    {
        RetryState { retries: 0, slept_secs: 0 }
    }

    /// Decides what follows when the local rate limiter refused the tokens
    /// for a call, so that the call was not made: the refusal counts as a
    /// rate-limit failure of the call, with the same backoff and the same
    /// limit on retries.
    pub fn throttled<T>(self) -> (step: RetryStep<T>)
        ensures
            self.retries < MAX_RETRIES ==> step == (RetryStep::<T>::Backoff {
                delay_secs: backoff_of((self.retries + 1) as nat) as u64,
                next: self.retried(),
            }),
            self.retries >= MAX_RETRIES ==> (step matches RetryStep::Finished(
                Err(SwapError::RateLimited(msg)),
            ) && msg@ == throttled_text()),
    {
        if self.retries < MAX_RETRIES {
            self.backoff()
        } else {
            RetryStep::Finished(
                Err(SwapError::RateLimited(String::from_str("rate limit: no token left for the call"))),
            )
        }
    }

    fn backoff<T>(self) -> (step: RetryStep<T>)
        requires
            self.retries < MAX_RETRIES,
        ensures
            step == (RetryStep::<T>::Backoff {
                delay_secs: backoff_of((self.retries + 1) as nat) as u64,
                next: self.retried(),
            }),
    {
        let retry: u32 = self.retries + 1;
        let delay_secs: u64 = backoff_seconds(retry);
        let slept_secs: u64 = if self.slept_secs > u64::MAX - delay_secs {
            u64::MAX
        } else {
            self.slept_secs + delay_secs
        };
        RetryStep::Backoff { delay_secs, next: RetryState { retries: retry, slept_secs } }
    }

    /// Decides what follows a call that returned `outcome`, an error being
    /// given by its message. A success ends the operation with its value. A
    /// rate-limit failure is retried after a backoff while retries are left;
    /// with none left it ends the operation as rate limited. Any other
    /// failure ends it at once.
    pub fn next<T>(self, outcome: Result<T, String>) -> (step: RetryStep<T>)
        ensures
            step == self.step(outcome),
    {
        match outcome {
            Ok(value) => RetryStep::Finished(Ok(value)),
            Err(msg) => {
                let rate_limited = is_rate_limit_error(msg.as_str());
                if rate_limited && self.retries < MAX_RETRIES {
                    self.backoff()
                } else if rate_limited {
                    RetryStep::Finished(Err(SwapError::RateLimited(msg)))
                } else {
                    RetryStep::Finished(Err(SwapError::ExternalApiError(msg)))
                }
            },
        }
    }
}

/// Runs `operation`, and runs it again after each backoff that the retry
/// rules ask for, `sleep` being called with the seconds of each backoff.
/// The result is the value of the attempt that succeeded, or the failure of
/// the last attempt: as rate limited when it was a rate-limit failure, which
/// it can only be once the retries are used up, and else as a failure of the
/// upstream. The operation runs four times at most. Beside the result
/// stands the state in which the last attempt was made: the retries that
/// went before it and the seconds slept for them. An operation that ends as
/// rate limited has used every retry.
pub fn call_with_retry<T, F, S>(operation: F, sleep: S) -> (done: (
    Result<T, SwapError>,
    RetryState,
)) where F: Fn() -> Result<T, String>, S: Fn(u64) -> ()
    requires
        operation.requires(()),
        forall|secs: u64| sleep.requires((secs,)),
    ensures
        done.1.wf(),
        match done.0 {
            Ok(value) => operation.ensures((), Ok(value)),
            Err(SwapError::RateLimited(msg)) => {
                &&& operation.ensures((), Err(msg))
                &&& is_rate_limit_text(msg@)
                &&& done.1.retries == MAX_RETRIES
                &&& done.1.slept_secs == 7
            },
            Err(SwapError::ExternalApiError(msg)) => operation.ensures((), Err(msg))
                && !is_rate_limit_text(msg@),
            Err(_) => false,
        },
{
    let mut state = RetryState::new();
    loop
        invariant
            state.wf(),
            operation.requires(()),
            forall|secs: u64| sleep.requires((secs,)),
        decreases MAX_RETRIES - state.retries,
    {
        let outcome = operation();
        proof {
            lemma_retries_bounded::<T>(state, outcome);
            lemma_backoff_schedule();
        }
        match state.next(outcome) {
            RetryStep::Finished(result) => {
                return (result, state);
            },
            RetryStep::Backoff { delay_secs, next } => {
                sleep(delay_secs);
                state = next;
            },
        }
    }
}

/// The message of a refusal by the local rate limiter, which is in
/// lowercase, tells of rate limiting.
pub proof fn lemma_throttled_tells_of_rate_limit()
    ensures
        tells_of_rate_limit(throttled_text()),
{
    reveal_strlit("rate limit: no token left for the call");
    reveal_strlit("rate limit");
    assert(throttled_text().subrange(0, 0 + ("rate limit"@.len() as int)) =~= "rate limit"@);
}

/// The delays before the first, second and third retry are 1, 2 and 4
/// seconds, so a call that uses every retry has slept 7 seconds in all.
pub proof fn lemma_backoff_schedule()
    ensures
        backoff_of(1) == 1,
        backoff_of(2) == 2,
        backoff_of(3) == 4,
        total_backoff(MAX_RETRIES as nat) == 7,
{
    lemma2_to64();
    reveal_with_fuel(total_backoff, 4);
}

/// A call that is refused twice for rate limiting and then succeeds ends
/// with the value of the third attempt, after sleeps of one and then two
/// seconds.
pub proof fn lemma_third_attempt_succeeds<T>(first: String, second: String, value: T)
    requires
        is_rate_limit_text(first@),
        is_rate_limit_text(second@),
    ensures
        ({
            let fresh = RetryState { retries: 0, slept_secs: 0 };
            let once = RetryState { retries: 1, slept_secs: 1 };
            let twice = RetryState { retries: 2, slept_secs: 3 };
            &&& fresh.step(Err::<T, String>(first)) == RetryStep::<T>::Backoff {
                delay_secs: 1,
                next: once,
            }
            &&& once.step(Err::<T, String>(second)) == RetryStep::<T>::Backoff {
                delay_secs: 2,
                next: twice,
            }
            &&& twice.step(Ok::<T, String>(value)) == RetryStep::Finished(
                Ok::<T, SwapError>(value),
            )
        }),
{
    lemma2_to64();
    reveal_with_fuel(total_backoff, 4);
}

/// From a state reached from the first call, a step never leads past the
/// allowed retries, a sleep is never longer than 4 seconds, the seconds
/// slept in all never exceed 7, and a failure that is not a rate-limit
/// failure ends the operation without a sleep.
pub proof fn lemma_retries_bounded<T>(state: RetryState, outcome: Result<T, String>)
    requires
        state.wf(),
    ensures
        state.slept_secs <= 7,
        match state.step(outcome) {
            RetryStep::Backoff { delay_secs, next } => {
                &&& next.wf()
                &&& next.retries == state.retries + 1
                &&& next.slept_secs == state.slept_secs + delay_secs
                &&& next.slept_secs <= 7
                &&& next.retries <= MAX_RETRIES
                &&& delay_secs == backoff_of(next.retries as nat)
                &&& 1 <= delay_secs <= 4
                &&& outcome is Err
                &&& is_rate_limit_text(outcome->Err_0@)
            },
            RetryStep::Finished(result) => {
                &&& outcome is Ok ==> result == Ok::<T, SwapError>(outcome->Ok_0)
                &&& outcome is Err ==> result is Err
            },
        },
        outcome is Err && !is_rate_limit_text(outcome->Err_0@) ==> state.step(outcome)
            == RetryStep::Finished(Err::<T, SwapError>(SwapError::ExternalApiError(outcome->Err_0))),
{
    lemma2_to64();
    reveal_with_fuel(total_backoff, 4);
}

} // verus!
