//! Capped exponential backoff for requests that fail for a passing reason.

use vstd::prelude::*;

verus! {

/// `base` doubled `times` times.
pub open spec fn doubled(base: nat, times: nat) -> nat
    decreases times,
{
    if times == 0 {
        base
    } else {
        2 * doubled(base, (times - 1) as nat)
    }
}

/// The pause before the retry that follows the `failures`-th failure in a
/// row: nothing before the first failure, then `base`, doubling with each
/// further failure, never more than `cap`.
pub open spec fn backoff_delay(base: nat, cap: nat, failures: nat) -> nat {
    if failures == 0 {
        0
    } else if doubled(base, (failures - 1) as nat) <= cap {
        doubled(base, (failures - 1) as nat)
    } else {
        cap
    }
}

/// Doubling never makes a value smaller.
pub proof fn lemma_doubled_monotonic(base: nat, i: nat, j: nat)
    requires
        i <= j,
    ensures
        doubled(base, i) <= doubled(base, j),
    decreases j - i,
{
    if i < j {
        lemma_doubled_monotonic(base, i, (j - 1) as nat);
    }
}

/// Zero stays zero however often it is doubled.
pub proof fn lemma_doubled_zero(times: nat)
    ensures
        doubled(0, times) == 0,
    decreases times,
{
    if times > 0 {
        lemma_doubled_zero((times - 1) as nat);
    }
}

/// How a failing request is retried.
#[derive(Clone, Copy, Debug, PartialEq, Eq, Structural)]
pub struct RetryPolicy {
    /// The pause after the first failure, in milliseconds.
    pub base_delay_ms: u64,
    /// The longest pause, in milliseconds.
    pub max_delay_ms: u64,
    /// The number of attempts after which a request is given up.
    pub max_attempts: u32,
}

impl RetryPolicy {
    /// The standard policy: half a second at first, at most thirty seconds,
    /// ten attempts.
    pub open spec fn spec_standard() -> RetryPolicy {
        RetryPolicy { base_delay_ms: 500, max_delay_ms: 30_000, max_attempts: 10 }
    }

    /// Half a second at first, at most thirty seconds, ten attempts.
    #[verifier::when_used_as_spec(spec_standard)]
    pub fn standard() -> (policy: RetryPolicy)
        ensures
            policy == Self::spec_standard(),
    {
        RetryPolicy { base_delay_ms: 500, max_delay_ms: 30_000, max_attempts: 10 }
    }

    /// The pause in milliseconds before the retry that follows the
    /// `failures`-th failure in a row.
    pub fn delay_ms(&self, failures: u32) -> (delay: u64)
        ensures
            delay == backoff_delay(
                self.base_delay_ms as nat,
                self.max_delay_ms as nat,
                failures as nat,
            ),
    {
        if failures == 0 {
            return 0;
        }
        if self.base_delay_ms == 0 {
            proof {
                lemma_doubled_zero((failures - 1) as nat);
            }
            return 0;
        }
        let cap = self.max_delay_ms;
        let mut delay: u64 = self.base_delay_ms;
        let mut done: u32 = 1;
        while done < failures && delay <= cap
            invariant
                1 <= done <= failures,
                delay == doubled(self.base_delay_ms as nat, (done - 1) as nat),
                cap == self.max_delay_ms,
            decreases failures - done,
        {
            if delay > cap - delay {
                // Twice the delay is past the cap, and so is every later one.
                proof {
                    lemma_doubled_monotonic(
                        self.base_delay_ms as nat,
                        done as nat,
                        (failures - 1) as nat,
                    );
                }
                return cap;
            }
            delay = delay + delay;
            done = done + 1;
        }
        if delay > cap {
            proof {
                lemma_doubled_monotonic(
                    self.base_delay_ms as nat,
                    (done - 1) as nat,
                    (failures - 1) as nat,
                );
            }
            cap
        } else {
            delay
        }
    }
}

} // verus!
