use vstd::prelude::*;
use vstd::arithmetic::power::lemma_pow0;
use vstd::arithmetic::power2::{pow2, lemma_pow2_unfold};

verus! {

/// Opaque error value of the `anyhow` crate, carried through unchanged.
#[verifier::external_type_specification]
#[verifier::external_body]
pub struct ExAnyhowError(anyhow::Error);

/// Errors reported by the digital I/O driver.
#[derive(Clone, Copy, Debug, PartialEq, Eq, Structural)]
pub enum HardwareError {
    /// Reading a pin level failed.
    Read,
    /// Driving an output pin failed.
    Write,
    /// Configuring a pin (direction, pull resistor) failed.
    Configuration,
}

/// Passes a result through unchanged; the error case is the place where a
/// caller reports the failure under `context`.
pub fn handle_error<T>(result: Result<T, anyhow::Error>, context: &str) -> (r: Result<T, anyhow::Error>)
    ensures
        r == result,
{
    match result {
        Ok(value) => Ok(value),
        Err(e) => Err(e),
    }
}

/// Keeps a successful result; on failure runs `recovery_fn` once and returns
/// what it returns.
pub fn handle_error_with_recovery<T, F>(result: Result<T, anyhow::Error>, context: &str, recovery_fn: F) -> (r: Result<T, anyhow::Error>)
    where
        F: FnOnce() -> Result<T, anyhow::Error>,
    requires
        result is Err ==> recovery_fn.requires(()),
    ensures
        result is Ok ==> r == result,
        result is Err ==> recovery_fn.ensures((), r),
{
    match result {
        Ok(value) => Ok(value),
        Err(_) => recovery_fn(),
    }
}

/// `d` doubled, saturating at `u32::MAX`.
pub open spec fn doubled(d: u32) -> u32 {
    if d <= u32::MAX / 2 {
        (d * 2) as u32
    } else {
        u32::MAX
    }
}

/// The delay slept after the `k`-th failure (counting from zero).
pub open spec fn backoff_delay(initial_delay_ms: u32, k: nat) -> u32
    decreases k,
{
    if k == 0 {
        initial_delay_ms
    } else {
        doubled(backoff_delay(initial_delay_ms, (k - 1) as nat))
    }
}

/// Until it saturates, the delay after the `k`-th failure is the initial
/// delay doubled `k` times.
pub proof fn lemma_backoff_doubles(initial_delay_ms: u32, k: nat)
    requires
        initial_delay_ms * pow2(k) <= u32::MAX,
    ensures
        backoff_delay(initial_delay_ms, k) == initial_delay_ms * pow2(k),
    decreases k,
{
    if k == 0 {
        lemma_pow0(2);
        assert(pow2(0) == 1);
        assert(initial_delay_ms * pow2(k) == initial_delay_ms) by (nonlinear_arith)
            requires
                pow2(k) == 1,
        ;
    } else {
        let p = pow2((k - 1) as nat);
        lemma_pow2_unfold(k);
        assert(initial_delay_ms * pow2(k) == 2 * (initial_delay_ms * p)) by (nonlinear_arith)
            requires
                pow2(k) == 2 * p,
        ;
        lemma_backoff_doubles(initial_delay_ms, (k - 1) as nat);
        assert(initial_delay_ms * p <= u32::MAX / 2);
        assert(backoff_delay(initial_delay_ms, k) == doubled(backoff_delay(initial_delay_ms, (k - 1) as nat)));
        assert(doubled(backoff_delay(initial_delay_ms, (k - 1) as nat)) == 2 * (initial_delay_ms * p));
    }
}

/// State of one bounded retry with exponential backoff.
pub struct RetryPolicy {
    pub max_attempts: u32,
    pub initial_delay_ms: u32,
    /// Failed attempts so far.
    pub failures: u32,
    /// Delay to sleep after the next failure, unless it is the last.
    pub delay_ms: u32,
}

impl RetryPolicy {
    pub open spec fn wf(&self) -> bool {
        &&& self.failures == 0 || self.failures < self.max_attempts
        &&& self.delay_ms == backoff_delay(self.initial_delay_ms, self.failures as nat)
    }

    /// A fresh policy: no failure seen yet.
    pub fn new(max_attempts: u32, initial_delay_ms: u32) -> (r: Self)
        ensures
            r.wf(),
            r.max_attempts == max_attempts,
            r.initial_delay_ms == initial_delay_ms,
            r.failures == 0,
    {
        RetryPolicy { max_attempts, initial_delay_ms, failures: 0, delay_ms: initial_delay_ms }
    }

    /// Records a failed attempt. Returns `None` when the attempts are used up
    /// (the error is to be surfaced), else `Some(d)`: sleep `d` ms and retry.
    pub fn on_failure(&mut self) -> (r: Option<u32>)
        requires
            old(self).wf(),
        ensures
            final(self).max_attempts == old(self).max_attempts,
            final(self).initial_delay_ms == old(self).initial_delay_ms,
            final(self).failures == old(self).failures + 1,
            final(self).delay_ms == doubled(old(self).delay_ms),
            r is None <==> final(self).failures >= final(self).max_attempts,
            r is Some ==> final(self).wf() && r == Some(
                backoff_delay(old(self).initial_delay_ms, old(self).failures as nat),
            ),
    {
        proof {
            assert(self.failures < u32::MAX);
        }
        self.failures = self.failures + 1;
        let d = self.delay_ms;
        self.delay_ms = if d <= u32::MAX / 2 {
            d * 2
        } else {
            u32::MAX
        };
        if self.failures >= self.max_attempts {
            None
        } else {
            Some(d)
        }
    }
}

/// What one attempt's outcome tells the caller of a retry to do.
#[derive(Debug)]
pub enum RetryStep<T, E> {
    /// Stop and hand this result to the caller: a success, or the error of
    /// the last allowed attempt.
    Finish(Result<T, E>),
    /// Sleep this many milliseconds, then run the operation again.
    SleepThenRetry(u32),
}

/// Number of attempts a retry allows: `max_attempts`, but at least one.
pub open spec fn attempt_limit(max_attempts: u32) -> nat {
    if max_attempts == 0 {
        1
    } else {
        max_attempts as nat
    }
}

/// A fresh policy, as `RetryPolicy::new` makes it.
pub open spec fn fresh_policy(max_attempts: u32, initial_delay_ms: u32) -> RetryPolicy {
    RetryPolicy { max_attempts, initial_delay_ms, failures: 0, delay_ms: initial_delay_ms }
}

/// The policy after one more failed attempt.
pub open spec fn after_failure(p: RetryPolicy) -> RetryPolicy {
    RetryPolicy {
        max_attempts: p.max_attempts,
        initial_delay_ms: p.initial_delay_ms,
        failures: (p.failures + 1) as u32,
        delay_ms: doubled(p.delay_ms),
    }
}

/// A run of the retry from policy `p`, where attempt `j` of the run
/// succeeds exactly when `ok[j]`: the number of attempts made, and the
/// delays slept between them, in order.
pub open spec fn retry_run(p: RetryPolicy, ok: Seq<bool>) -> (nat, Seq<u32>)
    decreases ok.len(),
{
    if ok.len() == 0 {
        (0, Seq::empty())
    } else if ok[0] {
        (1, Seq::empty())
    } else if after_failure(p).failures >= p.max_attempts {
        (1, Seq::empty())
    } else {
        let rest = retry_run(after_failure(p), ok.drop_first());
        (rest.0 + 1, seq![p.delay_ms] + rest.1)
    }
}

impl RetryPolicy {
    /// Takes the outcome of one attempt. A success finishes with it, and so
    /// does a failure once the attempts are used up; any other failure asks
    /// for a sleep of the current backoff delay before the next attempt.
    pub fn on_outcome<T, E>(&mut self, outcome: Result<T, E>) -> (r: RetryStep<T, E>)
        requires
            old(self).wf(),
        ensures
            outcome is Ok ==> r == RetryStep::<T, E>::Finish(outcome) && *final(self) == *old(self),
            outcome is Err ==> *final(self) == after_failure(*old(self)),
            outcome is Err && final(self).failures >= final(self).max_attempts ==> r
                == RetryStep::<T, E>::Finish(outcome),
            outcome is Err && final(self).failures < final(self).max_attempts ==> r
                == RetryStep::<T, E>::SleepThenRetry(old(self).delay_ms) && final(self).wf(),
    {
        match outcome {
            Ok(v) => RetryStep::Finish(Ok(v)),
            Err(e) => {
                match self.on_failure() {
                    None => RetryStep::Finish(Err(e)),
                    Some(d) => RetryStep::SleepThenRetry(d),
                }
            },
        }
    }
}

/// A retry that starts fresh stops at the first success, or after
/// `max_attempts` failed attempts (at least one), and never later. Between
/// consecutive attempts it sleeps `initial_delay_ms`, doubled (saturating)
/// for each earlier sleep, and it sleeps after neither a success nor the
/// last attempt: one sleep fewer than attempts.
pub proof fn lemma_retry_run(max_attempts: u32, initial_delay_ms: u32, ok: Seq<bool>)
    requires
        ok.len() >= attempt_limit(max_attempts),
    ensures
        ({
            let (n, sleeps) = retry_run(fresh_policy(max_attempts, initial_delay_ms), ok);
            &&& 1 <= n <= attempt_limit(max_attempts)
            &&& forall|j: int| 0 <= j < n - 1 ==> !ok[j]
            &&& ok[n - 1] || n == attempt_limit(max_attempts)
            &&& sleeps == Seq::new((n - 1) as nat, |j: int| backoff_delay(initial_delay_ms, j as nat))
        }),
{
    lemma_retry_run_from(fresh_policy(max_attempts, initial_delay_ms), ok);
}

proof fn lemma_retry_run_from(p: RetryPolicy, ok: Seq<bool>)
    requires
        p.wf(),
        ok.len() + p.failures >= attempt_limit(p.max_attempts),
    ensures
        ({
            let (n, sleeps) = retry_run(p, ok);
            &&& 1 <= n
            &&& p.failures + n <= attempt_limit(p.max_attempts)
            &&& forall|j: int| 0 <= j < n - 1 ==> !ok[j]
            &&& ok[n - 1] || p.failures + n == attempt_limit(p.max_attempts)
            &&& sleeps == Seq::new(
                (n - 1) as nat,
                |j: int| backoff_delay(p.initial_delay_ms, (p.failures + j) as nat),
            )
        }),
    decreases ok.len(),
{
    let limit = attempt_limit(p.max_attempts);
    assert(p.failures < limit);
    if ok[0] {
        assert(retry_run(p, ok).1 =~= Seq::new(
            0,
            |j: int| backoff_delay(p.initial_delay_ms, (p.failures + j) as nat),
        ));
    } else if after_failure(p).failures >= p.max_attempts {
        assert(retry_run(p, ok).1 =~= Seq::new(
            0,
            |j: int| backoff_delay(p.initial_delay_ms, (p.failures + j) as nat),
        ));
    } else {
        let q = after_failure(p);
        let rest = ok.drop_first();
        assert(q.delay_ms == backoff_delay(q.initial_delay_ms, q.failures as nat));
        lemma_retry_run_from(q, rest);
        let (m, s) = retry_run(q, rest);
        let (n, sleeps) = retry_run(p, ok);
        assert(n == m + 1);
        assert forall|j: int| 0 <= j < n - 1 implies !ok[j] by {
            if j > 0 {
                assert(ok[j] == rest[j - 1]);
            }
        }
        assert(ok[n - 1] == rest[m - 1]);
        assert(sleeps =~= Seq::new(
            (n - 1) as nat,
            |j: int| backoff_delay(p.initial_delay_ms, (p.failures + j) as nat),
        ));
    }
}

} // verus!
