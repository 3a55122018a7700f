//! The retry plugin: how many times a failed request is tried again, and
//! how long to wait before each try.
use vstd::prelude::*;

verus! {

#[derive(Clone, Copy, PartialEq, Eq, Structural, Debug)]
pub enum BackOff {
    /// The same interval each time.
    Fixed,
    /// The base interval doubled for each earlier retry.
    Exponential,
    /// A uniform draw between the base and the maximum interval.
    Random,
}

pub struct RetryConfig {
    pub retries: u16,
    pub retryable_methods: Vec<String>,
    pub backoff: BackOff,
    /// Milliseconds.
    pub base_interval: u64,
    /// Milliseconds.
    pub max_interval: u64,
}

impl RetryConfig {
    /// Three retries of any method, exponential from 100 ms, at most 10 s.
    pub fn new() -> (r: Self)
        ensures
            r.retries == 3,
            r.retryable_methods@.len() == 1,
            r.retryable_methods@[0]@ == "*"@,
            r.backoff == BackOff::Exponential,
            r.base_interval == 100,
            r.max_interval == 10000,
    {
        let mut methods: Vec<String> = Vec::new();
        methods.push(String::from_str("*"));
        RetryConfig {
            retries: 3,
            retryable_methods: methods,
            backoff: BackOff::Exponential,
            base_interval: 100,
            max_interval: 10000,
        }
    }
}

pub open spec fn pow2(n: nat) -> nat
    decreases n,
{
    if n == 0 {
        1
    } else {
        2 * pow2((n - 1) as nat)
    }
}

pub open spec fn saturate(x: int) -> int {
    if x > u64::MAX {
        u64::MAX as int
    } else {
        x
    }
}

/// The wait before retry number `times + 1`; `draw` is the uniform draw a
/// random back-off uses.
pub open spec fn retry_delay(c: RetryConfig, times: nat, draw: u64) -> int {
    match c.backoff {
        BackOff::Fixed => c.base_interval as int,
        BackOff::Exponential => saturate(c.base_interval * pow2(times)),
        BackOff::Random => if c.base_interval < c.max_interval {
            draw as int
        } else {
            c.base_interval as int
        },
    }
}

/// How many retries were already made.
#[derive(Clone, Copy, PartialEq, Eq, Structural, Debug)]
pub struct RetryPolicy {
    pub times: u16,
}

/// `base * 2^times`, saturating at `u64::MAX`.
fn exponential_delay(base: u64, times: u16) -> (r: u64)
    ensures
        r == saturate(base * pow2(times as nat)),
{
    let mut v: u64 = base;
    let mut k: u16 = 0;
    assert(pow2(0) == 1);
    assert(base * pow2(0) == base);
    while k < times
        invariant
            k <= times,
            v == saturate(base * pow2(k as nat)),
        decreases times - k,
    {
        proof {
            assert(pow2((k + 1) as nat) == 2 * pow2(k as nat));
            assert(base * pow2((k + 1) as nat) == 2 * (base * pow2(k as nat))) by (nonlinear_arith)
                requires
                    pow2((k + 1) as nat) == 2 * pow2(k as nat),
            ;
        }
        if v > u64::MAX / 2 {
            v = u64::MAX;
        } else {
            v = v * 2;
        }
        k += 1;
    }
    v
}

impl RetryPolicy {
    pub fn new() -> (r: Self)
        ensures
            r.times == 0,
    {
        RetryPolicy { times: 0 }
    }

    /// Whether to retry after an outcome, and if so after how many
    /// milliseconds and with which policy. Only failures are retried, and
    /// at most `retries` times.
    pub fn retry(&self, config: &RetryConfig, failed: bool, draw: u64) -> (r: Option<(u64, RetryPolicy)>)
        requires
            config.backoff == BackOff::Random && config.base_interval < config.max_interval ==> config.base_interval
                <= draw < config.max_interval,
        ensures
            (failed && self.times < config.retries) ==> (r matches Some((d, p)) && d == retry_delay(
                *config,
                self.times as nat,
                draw,
            ) && p.times == self.times + 1),
            !(failed && self.times < config.retries) ==> r.is_none(),
    {
        if !(failed && self.times < config.retries) {
            return None;
        }
        let delay = match config.backoff {
            BackOff::Fixed => config.base_interval,
            BackOff::Exponential => exponential_delay(config.base_interval, self.times),
            BackOff::Random => if config.base_interval < config.max_interval {
                draw
            } else {
                config.base_interval
            },
        };
        Some((delay, RetryPolicy { times: self.times + 1 }))
    }
}

} // verus!
