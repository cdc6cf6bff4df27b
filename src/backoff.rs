use vstd::prelude::*;

verus! {

/// Retry and concurrency settings of the dispatcher. Delays are in
/// milliseconds.
#[derive(Clone, Copy, Debug, PartialEq, Eq, Structural)]
pub struct RetryPolicy {
    /// Most sends that may run at once.
    pub max_concurrent_sends: u64,
    /// Most send attempts made for one event.
    pub max_retries: u32,
    /// Delay before the second attempt.
    pub base_backoff: u64,
    /// Factor by which the delay grows after each further attempt.
    pub backoff_multiplier: u64,
    /// Ceiling on any delay.
    pub max_backoff: u64,
}

/// `base * mult^(attempt - 1)`, for attempts counted from 1.
pub open spec fn raw_backoff(base: nat, mult: nat, attempt: nat) -> nat
    decreases attempt,
{
    if attempt <= 1 {
        base
    } else {
        raw_backoff(base, mult, (attempt - 1) as nat) * mult
    }
}

/// The delay after a failed attempt: the exponential delay, capped.
pub open spec fn backoff_spec(p: RetryPolicy, attempt: nat) -> nat {
    let d = raw_backoff(p.base_backoff as nat, p.backoff_multiplier as nat, attempt);
    if d <= p.max_backoff {
        d
    } else {
        p.max_backoff as nat
    }
}

/// The delay spread by a random draw over the upper half of its range.
pub open spec fn jitter_spec(delay: u64, draw: u64) -> nat {
    let half = (delay / 2) as nat;
    (delay - half) as nat + (draw as nat % (half + 1))
}

proof fn lemma_cap_step(t: nat, s: nat, m: nat)
    requires
        s >= 1,
    ensures
        (if (if t <= s { t } else { s }) * m <= s {
            (if t <= s { t } else { s }) * m
        } else {
            s
        }) == (if t * m <= s { t * m } else { s }),
{
    if t > s && m >= 1 {
        assert(t * m >= t) by (nonlinear_arith)
            requires
                m >= 1,
        ;
        assert(s * m >= s) by (nonlinear_arith)
            requires
                m >= 1,
        ;
    }
}

impl RetryPolicy {
    /// Delay before the attempt that follows failed attempt `attempt`:
    /// `min(base_backoff * backoff_multiplier^(attempt - 1), max_backoff)`.
    pub fn backoff_delay(&self, attempt: u32) -> (r: u64)
        ensures
            r as nat == backoff_spec(*self, attempt as nat),
    {
        let cap: u128 = self.max_backoff as u128 + 1;
        let base: u128 = self.base_backoff as u128;
        let mult: u128 = self.backoff_multiplier as u128;
        let mut cur: u128 = if base <= cap {
            base
        } else {
            cap
        };
        let mut i: u32 = 1;
        while i < attempt
            invariant
                1 <= i,
                attempt >= 1 ==> i <= attempt,
                attempt == 0 ==> i == 1,
                cap == self.max_backoff as nat + 1,
                base == self.base_backoff,
                mult == self.backoff_multiplier,
                cur <= cap,
                cur as nat == (if raw_backoff(base as nat, mult as nat, i as nat) <= cap {
                    raw_backoff(base as nat, mult as nat, i as nat)
                } else {
                    cap as nat
                }),
            decreases attempt - i,
        {
            proof {
                lemma_cap_step(
                    raw_backoff(base as nat, mult as nat, i as nat),
                    cap as nat,
                    mult as nat,
                );
                assert(cur * mult <= u64::MAX as nat * u64::MAX as nat + u64::MAX as nat) by (nonlinear_arith)
                    requires
                        cur <= u64::MAX as nat + 1,
                        mult <= u64::MAX as nat,
                ;
            }
            let next: u128 = cur * mult;
            cur = if next <= cap {
                next
            } else {
                cap
            };
            i = i + 1;
        }
        assert(raw_backoff(base as nat, mult as nat, attempt as nat) == raw_backoff(
            base as nat,
            mult as nat,
            i as nat,
        ));
        if cur <= self.max_backoff as u128 {
            cur as u64
        } else {
            self.max_backoff
        }
    }
}

/// Spreads `delay` by a random `draw`: the result lies between the upper
/// half of `delay` and `delay` itself.
pub fn jittered(delay: u64, draw: u64) -> (r: u64)
    ensures
        r as nat == jitter_spec(delay, draw),
        delay - delay / 2 <= r <= delay,
{
    let half: u64 = delay / 2;
    (delay - half) + draw % (half + 1)
}

} // verus!
