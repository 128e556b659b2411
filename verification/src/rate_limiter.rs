//! A token bucket that paces requests to a fixed number of permits per
//! interval.
//!
//! Time is counted in nanoseconds since the limiter was made; the caller
//! reads the clock and hands the reading in. One token is held as
//! `interval` units, so that refilling `permits` tokens per `interval`
//! nanoseconds adds exactly `permits` units per nanosecond and no rounding
//! ever takes place.

use vstd::prelude::*;
use crate::rate_limit::RateLimitConfig;

verus! {

/// Why a limiter could not be made.
#[derive(Debug, Clone, Copy, PartialEq, Eq, Structural)]
pub enum RateLimiterError {
    ZeroPermits,
    ZeroInterval,
}

impl RateLimiterError {
    pub open spec fn message(&self) -> Seq<char> {
        match self {
            RateLimiterError::ZeroPermits => "rate limiter permits must be greater than 0"@,
            RateLimiterError::ZeroInterval => "rate limiter interval must be greater than 0"@,
        }
    }

    /// The error's message.
    pub fn to_string(&self) -> (s: String)
        ensures
            s@ == self.message(),
    {
        match self {
            RateLimiterError::ZeroPermits => "rate limiter permits must be greater than 0".to_string(),
            RateLimiterError::ZeroInterval => "rate limiter interval must be greater than 0".to_string(),
        }
    }
}

/// A token bucket: at most `permits` tokens, refilled at `permits` tokens
/// per `interval` nanoseconds, starting with one token.
pub struct RateLimiter {
    permits: u64,
    interval: u64,
    /// Tokens held, in units of `1 / interval` token.
    units: u128,
    /// When the bucket was last refilled.
    last_refill: u64,
    /// How many tokens were handed out so far.
    granted: Ghost<nat>,
}

impl RateLimiter {
    /// The bucket's size in units: `permits` whole tokens.
    pub open spec fn capacity(permits: nat, interval: nat) -> nat {
        permits * interval
    }

    pub closed spec fn permits_spec(&self) -> nat {
        self.permits as nat
    }

    pub closed spec fn interval_spec(&self) -> nat {
        self.interval as nat
    }

    /// Tokens held after the last refill, in units of `1 / interval` token.
    pub closed spec fn units_spec(&self) -> nat {
        self.units as nat
    }

    pub closed spec fn last_refill_spec(&self) -> nat {
        self.last_refill as nat
    }

    /// How many tokens were handed out since the limiter was made.
    pub closed spec fn granted_spec(&self) -> nat {
        self.granted@
    }

    /// The units held at time `now`: what was held, plus `permits` units
    /// per nanosecond since the last refill, up to the bucket's size.
    pub open spec fn units_at(&self, now: nat) -> nat {
        if now <= self.last_refill_spec() {
            self.units_spec()
        } else {
            let grown = self.units_spec() + (now - self.last_refill_spec()) * self.permits_spec();
            let cap = Self::capacity(self.permits_spec(), self.interval_spec());
            if grown < cap {
                grown as nat
            } else {
                cap
            }
        }
    }

    /// The bucket never holds more than `permits` tokens, and every token
    /// handed out was either the first one or refilled at the set rate.
    pub closed spec fn wf(&self) -> bool {
        &&& self.permits > 0
        &&& self.interval > 0
        &&& self.units <= Self::capacity(self.permits as nat, self.interval as nat)
        &&& self.granted@ * self.interval + self.units <= self.interval + self.last_refill
            * self.permits
    }

    /// A limiter of `permits` tokens per `interval` nanoseconds; zero
    /// permits or a zero interval are refused.
    pub fn new(permits: u64, interval: u64) -> (r: Result<Self, RateLimiterError>)
        ensures
            match r {
                Ok(l) => permits > 0 && interval > 0 && l.wf() && l.permits_spec() == permits
                    && l.interval_spec() == interval && l.units_spec() == interval
                    && l.last_refill_spec() == 0 && l.granted_spec() == 0,
                Err(e) => if permits == 0 {
                    e == RateLimiterError::ZeroPermits
                } else {
                    interval == 0 && e == RateLimiterError::ZeroInterval
                },
            },
    {
        if permits == 0 {
            return Err(RateLimiterError::ZeroPermits);
        }
        if interval == 0 {
            return Err(RateLimiterError::ZeroInterval);
        }
        proof {
            assert(1 * (interval as int) <= (permits as int) * (interval as int)) by (nonlinear_arith)
                requires
                    permits >= 1,
                    interval >= 1,
            ;
        }
        Ok(RateLimiter {
            permits,
            interval,
            units: interval as u128,
            last_refill: 0,
            granted: Ghost(0),
        })
    }

    /// A limiter for a configured rate: `rate` permits per period.
    pub fn from_config(config: RateLimitConfig) -> (r: Result<Self, RateLimiterError>)
        ensures
            match r {
                Ok(l) => config.rate > 0 && l.wf() && l.permits_spec() == config.rate && l.interval_spec()
                    == config.period.seconds() * 1_000_000_000 && l.units_spec()
                    == l.interval_spec() && l.last_refill_spec() == 0 && l.granted_spec() == 0,
                Err(e) => config.rate == 0 && e == RateLimiterError::ZeroPermits,
            },
    {
        let secs = config.interval();
        Self::new(config.rate, secs * 1_000_000_000)
    }

    /// The permits per interval.
    pub fn permits(&self) -> (p: u64)
        ensures
            p == self.permits_spec(),
    {
        self.permits
    }

    /// The interval in nanoseconds.
    pub fn interval(&self) -> (i: u64)
        ensures
            i == self.interval_spec(),
    {
        self.interval
    }

    /// Takes a token at time `now` (nanoseconds since the limiter was
    /// made) if the bucket holds one after refilling; otherwise takes
    /// nothing and says how many nanoseconds to wait until one is there.
    pub fn try_acquire(&mut self, now: u64) -> (r: Result<(), u64>)
        requires
            old(self).wf(),
        ensures
            final(self).wf(),
            final(self).permits_spec() == old(self).permits_spec(),
            final(self).interval_spec() == old(self).interval_spec(),
            final(self).last_refill_spec() == if now > old(self).last_refill_spec() {
                now as nat
            } else {
                old(self).last_refill_spec()
            },
            match r {
                Ok(()) => old(self).units_at(now as nat) >= old(self).interval_spec()
                    && final(self).units_spec() == old(self).units_at(now as nat)
                    - old(self).interval_spec() && final(self).granted_spec()
                    == old(self).granted_spec() + 1,
                Err(wait) => old(self).units_at(now as nat) < old(self).interval_spec()
                    && final(self).units_spec() == old(self).units_at(now as nat)
                    && final(self).granted_spec() == old(self).granted_spec()
                    && wait > 0 && (wait - 1) * old(self).permits_spec() < old(self).interval_spec()
                    - old(self).units_at(now as nat) && old(self).interval_spec()
                    - old(self).units_at(now as nat) <= wait * old(self).permits_spec(),
            },
    {
        let permits = self.permits;
        let interval = self.interval;
        proof {
            lemma_u64_product_fits(permits, interval);
            lemma_u64_product_fits((now - self.last_refill) as u64, permits);
        }
        let cap: u128 = (permits as u128) * (interval as u128);
        let mut units = self.units;
        let mut last = self.last_refill;
        if now > last {
            let added: u128 = ((now - last) as u128) * (permits as u128);
            if added < cap - units {
                units = units + added;
            } else {
                units = cap;
            }
            last = now;
        }
        let ghost granted = self.granted@;
        proof {
            assert(units as nat == self.units_at(now as nat));
            assert(granted * interval + units <= interval + last * permits) by (nonlinear_arith)
                requires
                    granted * interval + self.units <= interval + self.last_refill * permits,
                    units <= self.units + (last - self.last_refill) * permits,
                    self.last_refill <= last,
            ;
        }
        if units >= interval as u128 {
            proof {
                assert((granted + 1) * interval == granted * interval + interval) by (nonlinear_arith);
            }
            *self = RateLimiter {
                permits,
                interval,
                units: units - interval as u128,
                last_refill: last,
                granted: Ghost(granted + 1),
            };
            Ok(())
        } else {
            let missing: u128 = interval as u128 - units;
            let wait: u128 = (missing + (permits as u128 - 1)) / permits as u128;
            proof {
                assert(wait > 0 && (wait - 1) * permits < missing && missing <= wait * permits)
                    by (nonlinear_arith)
                    requires
                        wait == (missing + (permits - 1)) / (permits as int),
                        permits > 0,
                        missing > 0,
                ;
                assert(wait <= u64::MAX) by (nonlinear_arith)
                    requires
                        wait == (missing + (permits - 1)) / (permits as int),
                        permits > 0,
                        missing <= u64::MAX,
                ;
            }
            *self = RateLimiter { permits, interval, units, last_refill: last, granted: Ghost(granted) };
            Err(wait as u64)
        }
    }
}

/// The product of two `u64` values fits in a `u128`.
proof fn lemma_u64_product_fits(a: u64, b: u64)
    ensures
        a * b <= u128::MAX,
{
    assert(a * b <= u64::MAX * u64::MAX) by (nonlinear_arith)
        requires
            a <= u64::MAX,
            b <= u64::MAX,
    ;
}

/// The pacing law: by the time of the last refill, a limiter has handed
/// out at most one token more than `permits` per `interval` allows, that
/// is, `granted * interval <= interval + last_refill * permits`.
pub proof fn tokens_never_exceed_rate(limiter: &RateLimiter)
    requires
        limiter.wf(),
    ensures
        limiter.granted_spec() * limiter.interval_spec() <= limiter.interval_spec()
            + limiter.last_refill_spec() * limiter.permits_spec(),
        limiter.units_spec() <= RateLimiter::capacity(
            limiter.permits_spec(),
            limiter.interval_spec(),
        ),
{
}

/// Waiting as long as a refused acquire says is enough: after that many
/// nanoseconds the bucket holds a whole token.
pub proof fn waiting_is_enough(limiter: &RateLimiter, now: nat, wait: nat)
    requires
        limiter.wf(),
        limiter.last_refill_spec() <= now,
        limiter.interval_spec() <= limiter.units_at(now) + wait * limiter.permits_spec(),
    ensures
        limiter.units_at(now + wait) >= limiter.interval_spec(),
{
    let p = limiter.permits_spec();
    let i = limiter.interval_spec();
    let u = limiter.units_spec();
    let l = limiter.last_refill_spec();
    assert(i <= p * i) by (nonlinear_arith)
        requires
            p >= 1,
    ;
    assert((now + wait - l) * p == (now - l) * p + wait * p) by (nonlinear_arith)
        requires
            now >= l,
    ;
    if now == l {
        assert(now - l == 0);
        assert(0 * p == 0);
    }
}

} // verus!
