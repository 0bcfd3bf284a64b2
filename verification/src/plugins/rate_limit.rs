//! Slows a scan down while the target answers 429 Too Many Requests, and
//! speeds it up again as requests succeed.
use crate::plugin::Plugin;
use crate::types::{duration_from_millis_u32, millis_duration_u32, RequestContext, RequestView, ResponseContext, ResponseView, ResultView, ScanResult};
use std::sync::atomic::AtomicU32;
use std::sync::atomic::Ordering;
use std::sync::Arc;
use std::time::Duration;
use vstd::prelude::*;

verus! {

/// The longest delay, in milliseconds, that repeated 429 answers lead to.
pub const MAX_DELAY_MS: u32 = 10_000;

/// The delay after an answer with `status`, from the current delay `cur` and
/// the base delay `base`, or `None` where the delay stays: a 429 starts the
/// delay at `base` or doubles it up to the maximum; an answer below 400 halves
/// a running delay, but not below `base`.
pub open spec fn next_delay_spec(cur: u32, base: u32, status: u16) -> Option<u32> {
    if status == 429 {
        Some(
            if cur == 0 {
                base
            } else if 2 * cur <= MAX_DELAY_MS {
                (2 * cur) as u32
            } else {
                MAX_DELAY_MS
            },
        )
    } else if status < 400 && cur > 0 {
        Some(
            if cur / 2 >= base {
                cur / 2
            } else {
                base
            },
        )
    } else {
        None
    }
}

/// The delay stays within its bounds: from no delay, or from a delay between
/// the base (at most the maximum) and the maximum, every answer leads to a
/// delay between the base and the maximum, or leaves the delay as it is; an
/// error answer other than 429 always leaves it.
pub proof fn lemma_delay_stays_in_bounds(cur: u32, base: u32, status: u16)
    requires
        base <= MAX_DELAY_MS,
        cur == 0 || base <= cur <= MAX_DELAY_MS,
    ensures
        next_delay_spec(cur, base, status) matches Some(n) ==> base <= n <= MAX_DELAY_MS,
        status >= 400 && status != 429 ==> next_delay_spec(cur, base, status) is None,
        status == 429 ==> next_delay_spec(cur, base, status) is Some,
{
}

/// Keeps a delay between requests that grows while the target answers 429.
pub struct RateLimitPlugin {
    delay: Arc<AtomicU32>,
    base_ms: u32,
}

impl RateLimitPlugin {
    /// A plugin with no delay yet, that starts delaying at `base_ms` milliseconds.
    pub fn new(base_ms: u32) -> (p: RateLimitPlugin)
        ensures
            p.base() == base_ms,
    {
        RateLimitPlugin { delay: Arc::new(AtomicU32::new(0)), base_ms }
    }

    /// The base delay, in milliseconds.
    pub closed spec fn base(&self) -> u32 {
        self.base_ms
    }

    /// The delay that follows an answer with `status`, or `None` where it stays.
    /// The doubling is computed without overflow.
    pub fn next_delay(cur: u32, base_ms: u32, status: u16) -> (r: Option<u32>)
        ensures
            r == next_delay_spec(cur, base_ms, status),
    {
        if status == 429 {
            if cur == 0 {
                Some(base_ms)
            } else if cur <= MAX_DELAY_MS / 2 {
                Some(cur * 2)
            } else {
                Some(MAX_DELAY_MS)
            }
        } else if status < 400 && cur > 0 {
            let half = cur / 2;
            if half >= base_ms {
                Some(half)
            } else {
                Some(base_ms)
            }
        } else {
            None
        }
    }

    /// The delay to wait before the next request, if there is one. The delay
    /// is shared between threads, so its value is whatever the latest answer left.
    pub fn current_delay(&self) -> (d: Option<Duration>)
        ensures
            d matches Some(x) ==> exists|ms: u32| ms > 0 && x == millis_duration_u32(ms),
    {
        let ms = self.delay.load(Ordering::Relaxed);
        delay_for(ms)
    }
}

/// The delay of `ms` milliseconds, or `None` for no delay.
pub fn delay_for(ms: u32) -> (d: Option<Duration>)
    ensures
        ms == 0 ==> d is None,
        ms > 0 ==> d == Some(millis_duration_u32(ms)),
{
    if ms > 0 {
        Some(duration_from_millis_u32(ms))
    } else {
        None
    }
}

impl Plugin for RateLimitPlugin {
    open spec fn plugin_name(&self) -> Seq<char> {
        "rate_limit"@
    }

    open spec fn plugin_version(&self) -> Seq<char> {
        "0.1.0"@
    }

    open spec fn request_effect(&self, req: RequestView) -> RequestView {
        req
    }

    open spec fn response_effect(&self, resp: ResponseView) -> ResponseView {
        resp
    }

    open spec fn result_effect(&self, result: ResultView) -> ResultView {
        result
    }

    fn name(&self) -> (r: &str) {
        "rate_limit"
    }

    fn version(&self) -> (r: &str) {
        "0.1.0"
    }

    fn on_request(&self, req: RequestContext) -> (r: RequestContext) {
        req
    }

    fn on_response(&self, resp: ResponseContext) -> (r: ResponseContext) {
        if resp.status == 429 || resp.status < 400 {
            let cur = self.delay.load(Ordering::Relaxed);
            if let Some(next) = Self::next_delay(cur, self.base_ms, resp.status) {
                self.delay.store(next, Ordering::Relaxed);
            }
        }
        resp
    }

    fn on_result(&self, result: &mut ScanResult) {
    }
}

/// The delay never grows past the larger of the current delay, the base
/// delay and the maximum.
pub proof fn lemma_delay_bounded(cur: u32, base: u32, status: u16)
    ensures
        next_delay_spec(cur, base, status) matches Some(n) ==> n <= cur || n <= base || n <= MAX_DELAY_MS,
{
}

/// A 429 answer always leaves a delay: the base delay where there was none,
/// else a larger one until the maximum is reached.
pub proof fn lemma_throttled_delays(cur: u32, base: u32)
    ensures
        next_delay_spec(cur, base, 429) is Some,
        cur == 0 ==> next_delay_spec(cur, base, 429) == Some(base),
        0 < cur < MAX_DELAY_MS ==> next_delay_spec(cur, base, 429)->0 > cur,
{
}

/// A successful answer shrinks a running delay, but never below the base delay.
pub proof fn lemma_success_relaxes(cur: u32, base: u32, status: u16)
    requires
        status < 400,
        cur > 0,
    ensures
        next_delay_spec(cur, base, status) is Some,
        next_delay_spec(cur, base, status)->0 >= base,
        cur >= 2 * base ==> next_delay_spec(cur, base, status)->0 < cur,
{
}

} // verus!
