//! Retry policy: which errors are worth retrying, how long to wait before
//! the next attempt (exponential backoff with jitter) and the decisions of
//! the retry loop around a job.

use vstd::prelude::*;
use vstd::arithmetic::power2::{pow2, lemma_pow2_unfold, lemma_pow2_pos};
use rand::Rng;
use crate::text::str_eq;
use crate::types::{AppErrorView, is_error};

verus! {

broadcast use vstd::string::group_string_axioms;

// ---------------------------------------------------------------------------
// Error classes
// ---------------------------------------------------------------------------

/// Whether an error is worth retrying.
#[derive(Debug, Clone, Copy, PartialEq, Eq, Structural)]
pub enum ErrorClass {
    /// Temporary: rate limit, network trouble, timeout.
    Retryable,
    /// Permanent: invalid input, authentication, and anything unknown.
    Permanent,
}

/// Whether an error code names a temporary failure.
pub open spec fn is_retryable_code(code: Seq<char>) -> bool {
    code == "RATE_LIMIT"@ || code == "NETWORK_ERROR"@ || code == "TIMEOUT"@
}

/// Classifies an error: rate limits, network errors and timeouts are
/// retryable; every other code (including unknown ones) is permanent.
pub fn classify_error(error: &AppErrorView) -> (c: ErrorClass)
    ensures
        c == (if is_retryable_code(error.code@) { ErrorClass::Retryable } else { ErrorClass::Permanent }),
{
    let code = error.code.as_str();
    if str_eq(code, "RATE_LIMIT") || str_eq(code, "NETWORK_ERROR") || str_eq(code, "TIMEOUT") {
        ErrorClass::Retryable
    } else {
        ErrorClass::Permanent
    }
}

// ---------------------------------------------------------------------------
// Backoff
// ---------------------------------------------------------------------------

/// Exponential backoff (base 2) with a cap and ±10% jitter.
#[derive(Debug, Clone, Copy)]
pub struct BackoffCalculator {
    /// Delay before the first retry, in milliseconds.
    pub initial_delay_ms: u64,
    /// Largest delay before jitter, in milliseconds.
    pub max_delay_ms: u64,
}

/// The smaller of two numbers.
pub open spec fn min_of(a: nat, b: nat) -> nat {
    if a <= b { a } else { b }
}

/// `initial * 2^e` for the attempt number `e` read as a signed 32-bit
/// exponent: doubled `e` times for `e` up to `i32::MAX` (saturating at
/// `u64::MAX`), halved `2^32 - e` times above that.
pub open spec fn scaled_delay(initial: u64, attempt: u32) -> nat {
    if attempt <= 0x7fff_ffff {
        min_of(initial as nat * pow2(attempt as nat), u64::MAX as nat)
    } else {
        initial as nat / pow2((0x1_0000_0000 - attempt) as nat)
    }
}

/// The delay before jitter: the scaled delay, capped at the maximum.
pub open spec fn capped_delay(b: BackoffCalculator, attempt: u32) -> nat {
    min_of(scaled_delay(b.initial_delay_ms, attempt), b.max_delay_ms as nat)
}

/// Whether `delay` is `base` scaled by a jitter factor in `[0.9, 1.1)`,
/// counted in millionths, rounded down and saturated at `u64::MAX`.
pub open spec fn is_jittered(base: nat, delay: nat) -> bool {
    exists|j: nat| 900_000 <= j < 1_100_000 && delay == min_of(#[trigger] (base * j) / 1_000_000, u64::MAX as nat)
}

/// A random number in `[lo, hi)` from the thread-local generator
/// (`rand::thread_rng().gen_range(lo..hi)`). It is random; only its range is
/// claimed. The range is not empty, for which the call panics.
#[verifier::external_body]
fn random_in_range(lo: u64, hi: u64) -> (r: u64)
    requires
        lo < hi,
    ensures
        lo <= r < hi,
{
    rand::thread_rng().gen_range(lo..hi)
}

proof fn lemma_mul_pow2_step(x: nat, k: nat)
    ensures
        x * pow2(k + 1) == 2 * (x * pow2(k)),
{
    lemma_pow2_unfold(k + 1);
    assert(x * (2 * pow2(k)) == 2 * (x * pow2(k))) by (nonlinear_arith);
}

proof fn lemma_mul_pow2_mono(x: nat, k1: nat, k2: nat)
    requires
        k1 <= k2,
    ensures
        x * pow2(k1) <= x * pow2(k2),
    decreases k2 - k1,
{
    if k1 < k2 {
        lemma_mul_pow2_mono(x, k1, (k2 - 1) as nat);
        lemma_mul_pow2_step(x, (k2 - 1) as nat);
    }
}

impl BackoffCalculator {
    pub fn new(initial_delay_ms: u64, max_delay_ms: u64) -> (b: BackoffCalculator)
        ensures
            b.initial_delay_ms == initial_delay_ms,
            b.max_delay_ms == max_delay_ms,
    {
        BackoffCalculator { initial_delay_ms, max_delay_ms }
    }

    /// The delay before jitter for the given attempt (0-based):
    /// `min(initial * 2^attempt, max)`.
    pub fn base_delay_ms(&self, attempt: u32) -> (d: u64)
        ensures
            d as nat == capped_delay(*self, attempt),
    {
        let initial = self.initial_delay_ms;
        let scaled: u64 = if attempt <= 0x7fff_ffff {
            let mut v: u64 = initial;
            let mut k: u32 = 0;
            proof {
                vstd::arithmetic::power::lemma_pow0(2);
                vstd::arithmetic::power2::lemma_pow2(0);
            }
            while k < attempt && v != 0 && v != u64::MAX
                invariant
                    k <= attempt,
                    v as nat == min_of(initial as nat * pow2(k as nat), u64::MAX as nat),
                decreases attempt - k,
            {
                proof {
                    lemma_mul_pow2_step(initial as nat, k as nat);
                }
                v = if v > u64::MAX / 2 { u64::MAX } else { v * 2 };
                k += 1;
            }
            proof {
                lemma_mul_pow2_mono(initial as nat, k as nat, attempt as nat);
                if v == 0 {
                    lemma_pow2_pos(k as nat);
                    assert(initial == 0) by (nonlinear_arith)
                        requires initial * pow2(k as nat) == 0, pow2(k as nat) > 0;
                    assert(initial * pow2(attempt as nat) == 0);
                }
            }
            v
        } else {
            let n: u64 = 0x1_0000_0000u64 - attempt as u64;
            if n >= 64 {
                proof {
                    vstd::arithmetic::power2::lemma2_to64();
                    if n > 64 {
                        vstd::arithmetic::power2::lemma_pow2_strictly_increases(64, n as nat);
                    }
                    vstd::arithmetic::div_mod::lemma_basic_div(initial as int, pow2(n as nat) as int);
                }
                0
            } else {
                proof {
                    vstd::bits::lemma_u64_shr_is_div(initial, n);
                }
                initial >> n
            }
        };
        if scaled < self.max_delay_ms { scaled } else { self.max_delay_ms }
    }

    /// The delay before retrying after the given attempt (0-based), in
    /// milliseconds: `min(initial * 2^attempt, max)` scaled by a random
    /// factor in `[0.9, 1.1)`.
    pub fn calculate(&self, attempt: u32) -> (d: u64)
        ensures
            is_jittered(capped_delay(*self, attempt), d as nat),
    {
        let clamped = self.base_delay_ms(attempt);
        let j = random_in_range(900_000, 1_100_000);
        jittered_delay(clamped, j)
    }
}

/// A delay of `base` milliseconds scaled by the jitter factor `j`
/// millionths, rounded down and saturated at `u64::MAX`.
pub fn jittered_delay(base: u64, j: u64) -> (d: u64)
    requires
        900_000 <= j < 1_100_000,
    ensures
        d as nat == min_of((base as nat * j as nat) / 1_000_000, u64::MAX as nat),
        is_jittered(base as nat, d as nat),
{
    proof {
        assert(base as nat * j as nat <= 0xffff_ffff_ffff_ffff * 1_100_000) by (nonlinear_arith)
            requires base <= 0xffff_ffff_ffff_ffffu64, j < 1_100_000;
    }
    let with_jitter: u128 = (base as u128 * j as u128) / 1_000_000;
    let d: u64 = if with_jitter > u64::MAX as u128 { u64::MAX } else { with_jitter as u64 };
    assert(d as nat == min_of((base as nat * j as nat) / 1_000_000, u64::MAX as nat));
    assert(is_jittered(base as nat, d as nat)) by {
        assert(900_000 <= j as nat && (j as nat) < 1_100_000);
    }
    d
}

impl Default for BackoffCalculator {
    /// 100 ms at first, at most 30 s.
    fn default() -> (b: Self)
        ensures
            b.initial_delay_ms == 100,
            b.max_delay_ms == 30_000,
    {
        BackoffCalculator::new(100, 30_000)
    }
}

// ---------------------------------------------------------------------------
// Retry policy
// ---------------------------------------------------------------------------

/// When and after how long to retry a failed job.
#[derive(Debug, Clone, Copy)]
pub struct RetryPolicy {
    /// How many runs a job gets, the first one included.
    pub max_attempts: u32,
    pub backoff: BackoffCalculator,
}

/// Whether a job that has run `attempts_made` times and failed with this
/// error may run again.
pub open spec fn retry_allowed(p: RetryPolicy, attempts_made: u32, error: AppErrorView) -> bool {
    attempts_made < p.max_attempts && is_retryable_code(error.code@)
}

/// Whether the loop retries after run number `attempt` (counted from 0)
/// failed with this error: runs remain after the `attempt + 1` made, and
/// the error is retryable.
pub open spec fn retries_after(p: RetryPolicy, attempt: u32, error: AppErrorView) -> bool {
    attempt + 1 < p.max_attempts && is_retryable_code(error.code@)
}

impl RetryPolicy {
    pub fn new(max_attempts: u32) -> (p: RetryPolicy)
        ensures
            p.max_attempts == max_attempts,
            p.backoff.initial_delay_ms == 100,
            p.backoff.max_delay_ms == 30_000,
    {
        RetryPolicy { max_attempts, backoff: BackoffCalculator::default() }
    }

    /// Whether to retry after `current_attempt` runs: runs remain and the
    /// error is retryable.
    pub fn should_retry(&self, current_attempt: u32, error: &AppErrorView) -> (r: bool)
        ensures
            r == retry_allowed(*self, current_attempt, *error),
    {
        if current_attempt >= self.max_attempts {
            return false;
        }
        classify_error(error) == ErrorClass::Retryable
    }

    /// The delay before the next attempt, in milliseconds.
    pub fn delay_before_retry(&self, current_attempt: u32) -> (d: u64)
        ensures
            is_jittered(capped_delay(self.backoff, current_attempt), d as nat),
    {
        self.backoff.calculate(current_attempt)
    }
}

impl Default for RetryPolicy {
    /// Three runs: the first and two retries.
    fn default() -> (p: Self)
        ensures
            p.max_attempts == 3,
            p.backoff.initial_delay_ms == 100,
            p.backoff.max_delay_ms == 30_000,
    {
        RetryPolicy::new(3)
    }
}

// ---------------------------------------------------------------------------
// The retry loop
// ---------------------------------------------------------------------------

/// What the retry loop does after a run of the job.
#[derive(Debug)]
pub enum RetryStep {
    /// Stop with this outcome.
    Finish(Result<(), AppErrorView>),
    /// Wait this long (unless cancelled) and run again as attempt `attempt`.
    Retry { attempt: u32, delay_ms: u64 },
}

/// The error reported when a job is cancelled while waiting to retry.
pub fn cancelled_during_retry() -> (e: AppErrorView)
    ensures
        is_error(e, "CANCELLED"@, "Job cancelled during retry wait"@),
{
    AppErrorView::new("CANCELLED", "Job cancelled during retry wait")
}

/// The decision of the retry loop after run number `attempt` (counted from
/// 0) ended with `outcome`: success finishes; an error finishes unless the
/// policy allows another run after the `attempt + 1` made, in which case the
/// next run is number `attempt + 1`, after the policy's delay for `attempt`.
/// A job that keeps failing with a retryable error therefore runs
/// `max_attempts` times (once when that is 0).
pub fn next_retry_step(policy: &RetryPolicy, attempt: u32, outcome: Result<(), AppErrorView>) -> (s: RetryStep)
    ensures
        match outcome {
            Ok(()) => s == RetryStep::Finish(Ok(())),
            Err(e) => if retries_after(*policy, attempt, e) {
                s matches RetryStep::Retry { attempt: next, delay_ms }
                    && next == attempt + 1
                    && next < policy.max_attempts
                    && is_jittered(capped_delay(policy.backoff, attempt), delay_ms as nat)
            } else {
                s == RetryStep::Finish(Err(e))
            },
        },
{
    match outcome {
        Ok(()) => RetryStep::Finish(Ok(())),
        Err(err) => {
            if attempt == u32::MAX || !policy.should_retry(attempt + 1, &err) {
                return RetryStep::Finish(Err(err));
            }
            let next = attempt + 1;
            let delay_ms = policy.delay_before_retry(attempt);
            RetryStep::Retry { attempt: next, delay_ms }
        },
    }
}

// ---------------------------------------------------------------------------
// Laws
// ---------------------------------------------------------------------------

/// Jitter keeps a delay within 10% of its base: at least nine tenths of the
/// base (rounded down) and at most eleven tenths.
pub proof fn lemma_jitter_bounds(base: nat, delay: nat)
    requires
        base <= u64::MAX,
        is_jittered(base, delay),
    ensures
        base * 9 / 10 <= delay,
        delay <= base * 11 / 10,
{
    let j = choose|j: nat| 900_000 <= j < 1_100_000 && delay == min_of(#[trigger] (base * j) / 1_000_000, u64::MAX as nat);
    assert(base * 9 / 10 == (base * 900_000) / 1_000_000) by (nonlinear_arith);
    assert(base * 11 / 10 == (base * 1_100_000) / 1_000_000) by (nonlinear_arith);
    assert(base * 900_000 <= base * j) by (nonlinear_arith) requires 900_000 <= j;
    assert(base * j <= base * 1_100_000) by (nonlinear_arith) requires j < 1_100_000;
    vstd::arithmetic::div_mod::lemma_div_is_ordered((base * 900_000) as int, (base * j) as int, 1_000_000);
    vstd::arithmetic::div_mod::lemma_div_is_ordered((base * j) as int, (base * 1_100_000) as int, 1_000_000);
}

/// Below the cap, each retry waits twice as long before jitter as the one
/// before it.
pub proof fn lemma_backoff_doubles(b: BackoffCalculator, attempt: u32)
    requires
        attempt < 0x7fff_ffff,
        b.initial_delay_ms * pow2(attempt as nat + 1) <= b.max_delay_ms,
    ensures
        capped_delay(b, (attempt + 1) as u32) == 2 * capped_delay(b, attempt),
{
    lemma_mul_pow2_step(b.initial_delay_ms as nat, attempt as nat);
}

/// Below the cap, with a base delay of at least 2 ms, a retry's delay is
/// longer than the previous retry's, whatever the jitter drawn for each.
pub proof fn lemma_retry_delay_grows(b: BackoffCalculator, attempt: u32, d0: nat, d1: nat)
    requires
        attempt < 0x7fff_ffff,
        b.initial_delay_ms * pow2(attempt as nat + 1) <= b.max_delay_ms,
        capped_delay(b, attempt) >= 2,
        is_jittered(capped_delay(b, attempt), d0),
        is_jittered(capped_delay(b, (attempt + 1) as u32), d1),
    ensures
        d0 < d1,
{
    lemma_backoff_doubles(b, attempt);
    let c = capped_delay(b, attempt);
    assert(2 * c <= b.max_delay_ms);
    lemma_jitter_bounds(c, d0);
    lemma_jitter_bounds(2 * c, d1);
    assert(c * 11 / 10 < (2 * c) * 9 / 10) by (nonlinear_arith) requires c >= 2;
}

/// Only rate limits, network errors and timeouts are retried. An error with
/// any other code (a rejected request, a bad file, a failed login, an
/// unknown code) is permanent, and the retry loop ends with it whatever
/// runs remain; one of these three codes is retryable and is retried while
/// runs remain.
pub proof fn lemma_only_temporary_errors_retried(p: RetryPolicy, attempt: u32, e: AppErrorView)
    ensures
        !(e.code@ == "RATE_LIMIT"@ || e.code@ == "NETWORK_ERROR"@ || e.code@ == "TIMEOUT"@) ==>
            !is_retryable_code(e.code@) && !retries_after(p, attempt, e) && !retry_allowed(p, attempt, e),
        (e.code@ == "RATE_LIMIT"@ || e.code@ == "NETWORK_ERROR"@ || e.code@ == "TIMEOUT"@) ==>
            is_retryable_code(e.code@) && (attempt + 1 < p.max_attempts ==> retries_after(p, attempt, e)),
{
}

} // verus!
