//! The fixed-window rate limit: a counter and the time of its last reset,
//! kept per service in the cache, and the decision taken on each request.
use vstd::prelude::*;
use vstd::string::*;
use vstd::utf8::encode_utf8;

use crate::reflect::Reflect;
use crate::response::{SgResponse, TOO_MANY_REQUESTS};

verus! {

pub struct RateLimitConfig {
    pub max_request_number: Option<u64>,
    pub time_window_ms: Option<u64>,
}

pub const DEFAULT_TIME_WINDOW_MS: u64 = 1000;

/// The counter and the time (ms) of its last reset.
#[derive(Clone, Copy, PartialEq, Eq, Structural, Debug)]
pub struct LimitState {
    pub count: u64,
    pub last_reset_ms: u64,
}

/// One request at `now`: the counter goes up (saturating); the first request
/// of a window records the time; past the maximum, the request is refused
/// while the window is still open, and otherwise the window restarts with
/// this request.
pub open spec fn limit_step(max: u64, window: u64, s: LimitState, now: u64) -> (bool, LimitState) {
    let count = if s.count == u64::MAX { u64::MAX } else { (s.count + 1) as u64 };
    let ts = if count == 1 { now } else { s.last_reset_ms };
    if count > max {
        if ts + window > now {
            (false, LimitState { count, last_reset_ms: ts })
        } else {
            (true, LimitState { count: 1, last_reset_ms: now })
        }
    } else {
        (true, LimitState { count, last_reset_ms: ts })
    }
}

impl RateLimitConfig {
    pub open spec fn window(&self) -> u64 {
        match self.time_window_ms {
            Some(w) => w,
            None => DEFAULT_TIME_WINDOW_MS,
        }
    }

    /// Whether the request at `now` passes, and the state after it. Without
    /// a maximum every request passes and the state stays.
    pub fn check(&self, state: LimitState, now_ms: u64) -> (r: (bool, LimitState))
        ensures
            match self.max_request_number {
                None => r == (true, state),
                Some(max) => r == limit_step(max, self.window(), state, now_ms),
            },
    {
        let max = match self.max_request_number {
            Some(m) => m,
            None => return (true, state),
        };
        let window = match self.time_window_ms {
            Some(w) => w,
            None => DEFAULT_TIME_WINDOW_MS,
        };
        let count = if state.count == u64::MAX { u64::MAX } else { state.count + 1 };
        let ts = if count == 1 { now_ms } else { state.last_reset_ms };
        if count > max {
            if (ts as u128) + (window as u128) > now_ms as u128 {
                (false, LimitState { count, last_reset_ms: ts })
            } else {
                (true, LimitState { count: 1, last_reset_ms: now_ms })
            }
        } else {
            (true, LimitState { count, last_reset_ms: ts })
        }
    }
}

/// The state before any request.
pub fn initial_limit_state() -> (r: LimitState)
    ensures
        r.count == 0,
        r.last_reset_ms == 0,
{
    LimitState { count: 0, last_reset_ms: 0 }
}

pub const LIMIT_KEY_PREFIX: &'static str = "sg:plugin:filter:limit:";

/// The cache key of the counter of service `id`.
pub fn limit_counter_key(id: &str) -> (r: String)
    ensures
        r@ == LIMIT_KEY_PREFIX@ + id@,
{
    let mut k = String::from_str(LIMIT_KEY_PREFIX);
    k.append(id);
    k
}

/// The cache key of the last reset time of service `id`.
pub fn limit_timestamp_key(id: &str) -> (r: String)
    ensures
        r@ == LIMIT_KEY_PREFIX@ + id@ + "_ts"@,
{
    let mut k = limit_counter_key(id);
    k.append("_ts");
    k
}

/// The answer to a refused request.
pub fn too_many_requests(reflect: Reflect) -> (r: SgResponse)
    requires
        reflect.wf(),
    ensures
        r.wf(),
        r.status == TOO_MANY_REQUESTS,
        r.body@.content == encode_utf8("[SG.Filter.Limit] too many requests"@),
        r.body@.extensions == reflect@,
{
    SgResponse::with_code_message(TOO_MANY_REQUESTS, "[SG.Filter.Limit] too many requests", reflect)
}

/// Within one window no more than `max` requests pass after a restart of
/// the counter: a request passes only while the counter, this request
/// included, is at most `max`, or when it starts a new window.
pub proof fn lemma_limit_bound(max: u64, window: u64, s: LimitState, now: u64)
    requires
        max >= 1,
    ensures
        limit_step(max, window, s, now).0 ==> limit_step(max, window, s, now).1.count <= max,
        !limit_step(max, window, s, now).0 ==> limit_step(max, window, s, now).1.last_reset_ms + window > now,
{
}

} // verus!

verus! {

/// The rate limit of one service.
pub struct RateLimitFilter {
    pub config: RateLimitConfig,
    pub service_id: String,
}

impl RateLimitFilter {
    /// The decision on a request at `now` given the service's counter
    /// `state`: the request passes, or is answered with `429`; and the
    /// counter after it.
    pub fn filter(&self, state: LimitState, now_ms: u64, reflect: Reflect) -> (r: (Result<(), SgResponse>, LimitState))
        requires
            reflect.wf(),
        ensures
            r.1 == (match self.config.max_request_number {
                None => state,
                Some(max) => limit_step(max, self.config.window(), state, now_ms).1,
            }),
            r.0.is_ok() == (match self.config.max_request_number {
                None => true,
                Some(max) => limit_step(max, self.config.window(), state, now_ms).0,
            }),
            r.0 matches Err(resp) ==> resp.wf() && resp.status == TOO_MANY_REQUESTS && resp.body@.content == encode_utf8(
                "[SG.Filter.Limit] too many requests"@,
            ) && resp.body@.extensions == reflect@,
    {
        let (pass, next) = self.config.check(state, now_ms);
        if pass {
            (Ok(()), next)
        } else {
            (Err(too_many_requests(reflect)), next)
        }
    }

    /// The cache key of this service's counter.
    pub fn counter_key(&self) -> (r: String)
        ensures
            r@ == LIMIT_KEY_PREFIX@ + self.service_id@,
    {
        limit_counter_key(self.service_id.as_str())
    }
}

} // verus!

verus! {

/// With at most 2 requests per 1000 ms, starting from a fresh counter: two
/// requests within the window pass, a third within it is refused, and a
/// request 1200 ms after the first passes and restarts the window.
pub proof fn lemma_two_per_second(t: u64, a: u64, b: u64)
    requires
        a <= b < 1000,
        t + 1200 <= u64::MAX,
    ensures
        ({
            let s0 = LimitState { count: 0, last_reset_ms: 0 };
            let r1 = limit_step(2, 1000, s0, t);
            let r2 = limit_step(2, 1000, r1.1, (t + a) as u64);
            let r3 = limit_step(2, 1000, r2.1, (t + b) as u64);
            let r4 = limit_step(2, 1000, r3.1, (t + 1200) as u64);
            &&& r1.0 && r2.0 && !r3.0 && r4.0
            &&& r4.1 == LimitState { count: 1, last_reset_ms: (t + 1200) as u64 }
        }),
{
}

} // verus!
