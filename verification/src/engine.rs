//! The decisions of the load-test engine: checking its settings, how many
//! workers start and when more join during a ramp-up, whether a worker
//! may send another request, and how each outcome is counted.
//!
//! Spawning tasks, sleeping and reading the clock belong to the caller,
//! which hands the results in: times are nanoseconds from a point of the
//! caller's choosing.

use vstd::prelude::*;
use crate::text::{trimmed_chars, trim_seq};
use crate::config::append_str;
use crate::rate_limit::RateLimitConfig;
use crate::retry::{HttpClientError, HttpErrorKind, HttpResponse, retry_count};
use crate::stats::{
    ErrorCategory, StatsCollector, category_error_counts, count_status, keep_error,
    kept_latency, status_error_counts,
};
use crate::validation::{
    ValidationConfig, failure_texts, validate_response, validation_failures,
};

verus! {

/// What the engine runs: the request to send and how to send it.
/// Durations are in milliseconds.
pub struct EngineConfig {
    pub url: String,
    pub method: String,
    pub body: Option<String>,
    pub headers: Vec<(String, String)>,
    pub validation: ValidationConfig,
    pub concurrency: usize,
    pub timeout: u64,
    pub insecure: bool,
    pub rate_limit: Option<RateLimitConfig>,
    pub ramp_up: Option<u128>,
    pub ramp_up_step: usize,
    pub keep_alive: bool,
    pub retry: usize,
    pub retry_delay: u128,
}

impl EngineConfig {
    /// A GET of `url` by `concurrency` workers, with a ten-second timeout,
    /// keep-alive, no ramp-up, no rate limit, no retries and no checks.
    pub fn new(url: String, concurrency: usize) -> (c: Self)
        ensures
            c.url@ == url@,
            c.method@ == "GET"@,
            c.body is None,
            c.headers@.len() == 0,
            c.validation.expect_status is None,
            c.validation.expect_body is None,
            c.validation.expect_headers is None,
            c.concurrency == concurrency,
            c.timeout == 10_000,
            !c.insecure,
            c.rate_limit is None,
            c.ramp_up is None,
            c.ramp_up_step == 1,
            c.keep_alive,
            c.retry == 0,
            c.retry_delay == 0,
    {
        let mut method = String::new();
        append_str(&mut method, "GET");
        EngineConfig {
            url,
            method,
            body: None,
            headers: Vec::new(),
            validation: ValidationConfig::new(),
            concurrency,
            timeout: 10_000,
            insecure: false,
            rate_limit: None,
            ramp_up: None,
            ramp_up_step: 1,
            keep_alive: true,
            retry: 0,
            retry_delay: 0,
        }
    }
}

/// Why the engine refused its settings.
#[derive(Debug, Clone, Copy, PartialEq, Eq, Structural)]
pub enum EngineError {
    EmptyUrl,
    ZeroConcurrency,
    ZeroRampUpStep,
    ZeroLiveStatsInterval,
    ZeroDuration,
}

impl EngineError {
    pub open spec fn message(&self) -> Seq<char> {
        match self {
            EngineError::EmptyUrl => "target URL cannot be empty"@,
            EngineError::ZeroConcurrency => "concurrency must be greater than 0"@,
            EngineError::ZeroRampUpStep => "ramp-up step must be greater than 0"@,
            EngineError::ZeroLiveStatsInterval => "live stats interval must be greater than 0"@,
            EngineError::ZeroDuration => "duration must be greater than 0"@,
        }
    }

    /// The error's message.
    pub fn to_string(&self) -> (s: String)
        ensures
            s@ == self.message(),
    {
        let mut s = String::new();
        match self {
            EngineError::EmptyUrl => append_str(&mut s, "target URL cannot be empty"),
            EngineError::ZeroConcurrency => append_str(&mut s, "concurrency must be greater than 0"),
            EngineError::ZeroRampUpStep => append_str(&mut s, "ramp-up step must be greater than 0"),
            EngineError::ZeroLiveStatsInterval => append_str(
                &mut s,
                "live stats interval must be greater than 0",
            ),
            EngineError::ZeroDuration => append_str(&mut s, "duration must be greater than 0"),
        }
        s
    }
}

/// The first setting that the engine refuses, in the order it checks
/// them, or `None`.
pub open spec fn engine_fault(
    url: Seq<char>,
    concurrency: nat,
    ramp_up_step: nat,
    live_stats_interval: nat,
) -> Option<EngineError> {
    if trim_seq(url).len() == 0 {
        Some(EngineError::EmptyUrl)
    } else if concurrency == 0 {
        Some(EngineError::ZeroConcurrency)
    } else if ramp_up_step == 0 {
        Some(EngineError::ZeroRampUpStep)
    } else if live_stats_interval == 0 {
        Some(EngineError::ZeroLiveStatsInterval)
    } else {
        None
    }
}

/// Checks the settings an engine is made with: a URL that is not blank,
/// at least one worker, a ramp-up step of at least one and a live-stats
/// interval (in nanoseconds) above zero.
pub fn check_engine_config(config: &EngineConfig, live_stats_interval: u64) -> (r: Result<
    (),
    EngineError,
>)
    ensures
        match r {
            Ok(()) => engine_fault(
                config.url@,
                config.concurrency as nat,
                config.ramp_up_step as nat,
                live_stats_interval as nat,
            ) is None,
            Err(e) => engine_fault(
                config.url@,
                config.concurrency as nat,
                config.ramp_up_step as nat,
                live_stats_interval as nat,
            ) == Some(e),
        },
{
    let url = trimmed_chars(config.url.as_str());
    if url.len() == 0 {
        return Err(EngineError::EmptyUrl);
    }
    if config.concurrency == 0 {
        return Err(EngineError::ZeroConcurrency);
    }
    if config.ramp_up_step == 0 {
        return Err(EngineError::ZeroRampUpStep);
    }
    if live_stats_interval == 0 {
        return Err(EngineError::ZeroLiveStatsInterval);
    }
    Ok(())
}

/// A run for a set time must last longer than zero.
pub fn check_run_duration(duration: u128) -> (r: Result<(), EngineError>)
    ensures
        r is Ok <==> duration > 0,
        r is Err ==> r == Err::<(), EngineError>(EngineError::ZeroDuration),
{
    if duration == 0 {
        Err(EngineError::ZeroDuration)
    } else {
        Ok(())
    }
}

/// How long a second Ctrl+C may take to force the program to quit, in
/// milliseconds.
pub fn force_quit_window() -> (ms: u64)
    ensures
        ms == 2000,
{
    2000
}

/// How often the live-stats updater looks at the clock, in nanoseconds:
/// every 100 milliseconds, or at its interval when that is shorter.
pub fn live_stats_poll_interval(interval: u64) -> (ns: u64)
    ensures
        ns == if interval < 100_000_000 {
            interval
        } else {
            100_000_000
        },
{
    if interval < 100_000_000 {
        interval
    } else {
        100_000_000
    }
}

// ---------------------------------------------------------------------------
// Ramp-up
// ---------------------------------------------------------------------------

/// The number of steps by which `target_workers` are reached when
/// `ramp_up_step` join at each: the least number of steps whose workers
/// cover the target.
pub open spec fn ramp_up_step_count_spec(target_workers: nat, ramp_up_step: nat) -> nat {
    if target_workers == 0 {
        0
    } else {
        ((target_workers - 1) / (ramp_up_step as int) + 1) as nat
    }
}

/// The time between ramp-up steps: the ramp-up time shared evenly among
/// the steps (at least one), rounded down.
pub open spec fn ramp_up_step_interval_spec(target_workers: nat, duration: nat, ramp_up_step: nat) -> nat {
    let count = ramp_up_step_count_spec(target_workers, ramp_up_step);
    duration / (if count == 0 {
        1
    } else {
        count
    })
}

/// A ramp-up reaches its target in its last step and not before, and
/// spreads its time evenly: with `count` steps of `ramp_up_step` workers,
/// `count` steps cover the target while one fewer does not, and `count`
/// intervals fit in the ramp-up time with less than one more interval's
/// worth left over.
pub proof fn ramp_up_steps_share_the_time(target_workers: nat, duration: nat, ramp_up_step: nat)
    requires
        target_workers > 0,
        ramp_up_step > 0,
    ensures
        ({
            let count = ramp_up_step_count_spec(target_workers, ramp_up_step);
            let interval = ramp_up_step_interval_spec(target_workers, duration, ramp_up_step);
            &&& count >= 1
            &&& (count - 1) * ramp_up_step < target_workers <= count * ramp_up_step
            &&& interval * count <= duration < (interval + 1) * count
        }),
{
    let count = ramp_up_step_count_spec(target_workers, ramp_up_step);
    let q = (target_workers - 1) / (ramp_up_step as int);
    assert(q * ramp_up_step <= target_workers - 1 < (q + 1) * ramp_up_step) by (nonlinear_arith)
        requires
            q == (target_workers - 1) / (ramp_up_step as int),
            ramp_up_step > 0,
            target_workers >= 1,
    ;
    assert(count == q + 1);
    let interval = duration / count;
    assert(interval * count <= duration < (interval + 1) * count) by (nonlinear_arith)
        requires
            interval == duration / count,
            count >= 1,
    ;
}

/// The number of steps of a ramp-up.
pub fn calculate_ramp_up_step_count(target_workers: usize, ramp_up_step: usize) -> (n: usize)
    requires
        target_workers == 0 || ramp_up_step > 0,
    ensures
        n == ramp_up_step_count_spec(target_workers as nat, ramp_up_step as nat),
        target_workers > 0 ==> n >= 1 && (n - 1) * ramp_up_step < target_workers && target_workers
            <= n * ramp_up_step,
{
    if target_workers == 0 {
        return 0;
    }
    let n = (target_workers - 1) / ramp_up_step + 1;
    proof {
        let q = (target_workers - 1) / (ramp_up_step as int);
        assert(q * ramp_up_step <= target_workers - 1 < (q + 1) * ramp_up_step) by (nonlinear_arith)
            requires
                q == (target_workers - 1) / (ramp_up_step as int),
                ramp_up_step > 0,
                target_workers >= 1,
        ;
    }
    n
}

/// The time between two ramp-up steps: the ramp-up time (in nanoseconds)
/// shared evenly among the steps, at least one step, rounded down to the
/// nanosecond.
pub fn calculate_ramp_up_step_interval(
    target_workers: usize,
    ramp_up_duration: u64,
    ramp_up_step: usize,
) -> (interval: u64)
    requires
        target_workers == 0 || ramp_up_step > 0,
    ensures
        interval == ramp_up_step_interval_spec(
            target_workers as nat,
            ramp_up_duration as nat,
            ramp_up_step as nat,
        ),
{
    let count = calculate_ramp_up_step_count(target_workers, ramp_up_step);
    let steps: u64 = if count == 0 {
        1
    } else {
        count as u64
    };
    ramp_up_duration / steps
}

/// Where a ramp-up stands: how many workers run, how many are wanted, the
/// time between steps and when the last step was taken (nanoseconds).
#[derive(Debug, Clone, Copy, PartialEq, Eq, Structural)]
pub struct RampUpState {
    pub current_workers: usize,
    pub target_workers: usize,
    pub step_interval: u64,
    pub last_ramp_up: u64,
}

impl RampUpState {
    /// The first step: `ramp_up_step` workers, or all of them if fewer are
    /// wanted, starting at `now`.
    pub fn new(target_workers: usize, ramp_up_duration: u64, ramp_up_step: usize, now: u64) -> (s:
        Self)
        requires
            target_workers == 0 || ramp_up_step > 0,
        ensures
            s.current_workers == if ramp_up_step < target_workers {
                ramp_up_step
            } else {
                target_workers
            },
            s.target_workers == target_workers,
            s.step_interval == ramp_up_step_interval_spec(
                target_workers as nat,
                ramp_up_duration as nat,
                ramp_up_step as nat,
            ),
            s.last_ramp_up == now,
    {
        let step_interval = calculate_ramp_up_step_interval(
            target_workers,
            ramp_up_duration,
            ramp_up_step,
        );
        let current_workers = if ramp_up_step < target_workers {
            ramp_up_step
        } else {
            target_workers
        };
        RampUpState { current_workers, target_workers, step_interval, last_ramp_up: now }
    }

    /// At time `now`, adds the next step's workers if the target is not yet
    /// reached and a whole step interval has passed since the last step
    /// (no time has passed if `now` is earlier); says how many joined.
    pub fn advance(&mut self, now: u64, ramp_up_step: usize) -> (added: usize)
        ensures
            final(self).target_workers == old(self).target_workers,
            final(self).step_interval == old(self).step_interval,
            if old(self).current_workers < old(self).target_workers && (if now
                > old(self).last_ramp_up {
                now - old(self).last_ramp_up
            } else {
                0
            }) >= old(self).step_interval {
                &&& added == if ramp_up_step < old(self).target_workers
                    - old(self).current_workers {
                    ramp_up_step as int
                } else {
                    old(self).target_workers - old(self).current_workers
                }
                &&& final(self).current_workers == old(self).current_workers + added
                &&& final(self).last_ramp_up == now
            } else {
                &&& added == 0
                &&& *final(self) == *old(self)
            },
    {
        if self.current_workers >= self.target_workers {
            return 0;
        }
        let elapsed: u64 = if now > self.last_ramp_up {
            now - self.last_ramp_up
        } else {
            0
        };
        if elapsed < self.step_interval {
            return 0;
        }
        let remaining = self.target_workers - self.current_workers;
        let added = if ramp_up_step < remaining {
            ramp_up_step
        } else {
            remaining
        };
        self.current_workers = self.current_workers + added;
        self.last_ramp_up = now;
        added
    }
}

/// A ramp-up never goes past its target and never takes workers away:
/// from a state within its target, `advance` adds at most one step and
/// stays within the target.
pub proof fn ramp_up_stays_within_target(
    before: RampUpState,
    after: RampUpState,
    now: u64,
    step: usize,
    added: usize,
)
    requires
        before.current_workers <= before.target_workers,
        after.target_workers == before.target_workers,
        if before.current_workers < before.target_workers && (if now > before.last_ramp_up {
            now - before.last_ramp_up
        } else {
            0
        }) >= before.step_interval {
            &&& added == if step < before.target_workers - before.current_workers {
                step as int
            } else {
                before.target_workers - before.current_workers
            }
            &&& after.current_workers == before.current_workers + added
        } else {
            added == 0 && after == before
        },
    ensures
        before.current_workers <= after.current_workers <= after.target_workers,
        added <= step,
        after.current_workers == before.current_workers + added,
{
}

/// The worker counts that the live stats show during a ramp-up.
#[derive(Debug, Clone, Copy, PartialEq, Eq, Structural)]
pub struct RampUpProgress {
    pub current_workers: usize,
    pub target_workers: usize,
}

impl RampUpProgress {
    /// Progress at `initial_workers` of `target_workers`, capped at the
    /// target.
    pub fn new(initial_workers: usize, target_workers: usize) -> (p: Self)
        ensures
            p.current_workers == if initial_workers < target_workers {
                initial_workers
            } else {
                target_workers
            },
            p.target_workers == target_workers,
    {
        let current = if initial_workers < target_workers {
            initial_workers
        } else {
            target_workers
        };
        RampUpProgress { current_workers: current, target_workers }
    }

    /// Sets the running workers, capped at the target.
    pub fn set_current_workers(&mut self, current_workers: usize)
        ensures
            final(self).current_workers == if current_workers < old(self).target_workers {
                current_workers
            } else {
                old(self).target_workers
            },
            final(self).target_workers == old(self).target_workers,
    {
        self.current_workers = if current_workers < self.target_workers {
            current_workers
        } else {
            self.target_workers
        };
    }
}

/// The ramp-up progress that an engine shows: only with a ramp-up time
/// above zero, starting at one step of workers out of all of them.
pub fn ramp_up_progress(config: &EngineConfig) -> (p: Option<RampUpProgress>)
    ensures
        match config.ramp_up {
            Some(d) if d > 0 => p == Some(
                RampUpProgress {
                    current_workers: if config.ramp_up_step < config.concurrency {
                        config.ramp_up_step
                    } else {
                        config.concurrency
                    },
                    target_workers: config.concurrency,
                },
            ),
            _ => p is None,
        },
{
    match config.ramp_up {
        Some(d) => {
            if d > 0 {
                let first = if config.ramp_up_step < config.concurrency {
                    config.ramp_up_step
                } else {
                    config.concurrency
                };
                Some(RampUpProgress::new(first, config.concurrency))
            } else {
                None
            }
        },
        None => None,
    }
}

/// How the workers of a run start.
#[derive(Debug, Clone, Copy, PartialEq, Eq, Structural)]
pub enum WorkerPlan {
    /// All of them at once.
    Batch(usize),
    /// A step at a time.
    RampUp(RampUpState),
}

/// How the workers start: step by step when there is a ramp-up time above
/// zero (in milliseconds; its nanoseconds saturate at `u64::MAX`), all at
/// once otherwise.
pub fn plan_workers(config: &EngineConfig, now: u64) -> (p: WorkerPlan)
    requires
        config.ramp_up_step > 0,
    ensures
        match config.ramp_up {
            Some(d) if d > 0 => p == WorkerPlan::RampUp(
                RampUpState {
                    current_workers: if config.ramp_up_step < config.concurrency {
                        config.ramp_up_step
                    } else {
                        config.concurrency
                    },
                    target_workers: config.concurrency,
                    step_interval: ramp_up_step_interval_spec(
                        config.concurrency as nat,
                        if d * 1_000_000 > u64::MAX {
                            u64::MAX as nat
                        } else {
                            (d * 1_000_000) as nat
                        },
                        config.ramp_up_step as nat,
                    ) as u64,
                    last_ramp_up: now,
                },
            ),
            _ => p == WorkerPlan::Batch(config.concurrency),
        },
{
    match config.ramp_up {
        Some(d) => {
            if d > 0 {
                let nanos: u64 = if d > (u64::MAX / 1_000_000) as u128 {
                    u64::MAX
                } else {
                    (d * 1_000_000) as u64
                };
                WorkerPlan::RampUp(
                    RampUpState::new(config.concurrency, nanos, config.ramp_up_step, now),
                )
            } else {
                WorkerPlan::Batch(config.concurrency)
            }
        },
        None => WorkerPlan::Batch(config.concurrency),
    }
}

// ---------------------------------------------------------------------------
// Workers
// ---------------------------------------------------------------------------

/// One take from a budget of `remaining` requests: `None` when none is
/// left, else the budget that remains.
pub open spec fn slot_after(remaining: nat) -> Option<nat> {
    if remaining == 0 {
        None
    } else {
        Some((remaining - 1) as nat)
    }
}

/// `calls` takes, one after another, from a budget of `remaining`
/// requests: how many of them were granted a request, and the budget left.
pub open spec fn take_slots(remaining: nat, calls: nat) -> (nat, nat)
    decreases calls,
{
    if calls == 0 {
        (0, remaining)
    } else {
        match slot_after(remaining) {
            None => take_slots(remaining, (calls - 1) as nat),
            Some(left) => {
                let (granted, rest) = take_slots(left, (calls - 1) as nat);
                (granted + 1, rest)
            },
        }
    }
}

/// A budget of requests is never overdrawn nor left unused: however many
/// takes are made from a budget of `n` (by one worker or shared among
/// many), exactly as many requests are granted as there were takes, up to
/// `n`, and the budget is what is left of `n`.
pub proof fn request_budget_grants_exactly(n: nat, calls: nat)
    ensures
        take_slots(n, calls).0 == if calls < n {
            calls
        } else {
            n
        },
        take_slots(n, calls).1 == n - take_slots(n, calls).0,
    decreases calls,
{
    if calls > 0 {
        if n == 0 {
            request_budget_grants_exactly(n, (calls - 1) as nat);
        } else {
            request_budget_grants_exactly((n - 1) as nat, (calls - 1) as nat);
        }
    }
}

/// Takes one request from a shared budget of `remaining` requests: `None`
/// when none is left, else the budget that remains.
pub fn next_request_slot(remaining: usize) -> (r: Option<usize>)
    ensures
        match r {
            Some(n) => slot_after(remaining as nat) == Some(n as nat),
            None => slot_after(remaining as nat) is None,
        },
{
    if remaining == 0 {
        None
    } else {
        Some(remaining - 1)
    }
}

/// Whether a run that counts requests has none left to hand out.
pub fn has_no_remaining_requests(remaining: Option<usize>) -> (b: bool)
    ensures
        b == (remaining == Some(0usize)),
{
    match remaining {
        Some(n) => n == 0,
        None => false,
    }
}

/// The statistics category of a failed request.
pub fn error_category(kind: HttpErrorKind) -> (c: ErrorCategory)
    ensures
        c == match kind {
            HttpErrorKind::Timeout => ErrorCategory::Timeout,
            HttpErrorKind::Connection => ErrorCategory::Connection,
            _ => ErrorCategory::Other,
        },
{
    match kind {
        HttpErrorKind::Timeout => ErrorCategory::Timeout,
        HttpErrorKind::Connection => ErrorCategory::Connection,
        _ => ErrorCategory::Other,
    }
}

/// Texts joined with `sep` between them.
pub open spec fn join_texts(parts: Seq<Seq<char>>, sep: Seq<char>) -> Seq<char>
    decreases parts.len(),
{
    if parts.len() == 0 {
        Seq::empty()
    } else if parts.len() == 1 {
        parts[0]
    } else {
        join_texts(parts.drop_last(), sep) + sep + parts.last()
    }
}

/// Strings joined with `sep` between them.
pub fn join_strings(parts: &Vec<String>, sep: &str) -> (s: String)
    ensures
        s@ == join_texts(failure_texts(parts@), sep@),
{
    let mut s = String::new();
    let mut i: usize = 0;
    while i < parts.len()
        invariant
            i <= parts@.len(),
            s@ == join_texts(failure_texts(parts@).subrange(0, i as int), sep@),
        decreases parts.len() - i,
    {
        if i > 0 {
            append_str(&mut s, sep);
        }
        append_str(&mut s, parts[i].as_str());
        proof {
            let t = failure_texts(parts@).subrange(0, i + 1);
            assert(t.drop_last() =~= failure_texts(parts@).subrange(0, i as int));
        }
        i = i + 1;
    }
    proof {
        assert(failure_texts(parts@).subrange(0, parts@.len() as int) =~= failure_texts(parts@));
    }
    s
}

/// The retries that a request took, by what it ended with.
pub open spec fn outcome_retries(outcome: Result<HttpResponse, HttpClientError>) -> nat {
    let attempts = match outcome {
        Ok(response) => response.retry_stats.total_attempts,
        Err(error) => error.retry_stats_spec().total_attempts,
    };
    if attempts == 0 {
        0
    } else {
        (attempts - 1) as nat
    }
}

/// Counts what a request ended with. A response that passes validation is
/// counted with its latency, status and retries. One that fails validation
/// is counted as a validation error whose message joins the failures with
/// `; `, and its status code, latency and retries are recorded as well. A
/// failed request is an error of its category, with its message and
/// retries.
pub fn record_outcome(
    stats: &mut StatsCollector,
    outcome: &Result<HttpResponse, HttpClientError>,
    validation: &ValidationConfig,
)
    requires
        old(stats).wf(),
        old(stats)@.total_requests < u64::MAX,
        old(stats)@.validation_errors < usize::MAX,
        old(stats)@.retries + outcome_retries(*outcome) <= usize::MAX,
    ensures
        final(stats).wf(),
        final(stats)@.total_requests == old(stats)@.total_requests + 1,
        match outcome {
            Ok(response) => {
                let retries = if response.retry_stats.total_attempts == 0 {
                    0
                } else {
                    response.retry_stats.total_attempts - 1
                };
                let failures = validation_failures(*response, *validation);
                &&& final(stats)@.retries == old(stats)@.retries + retries
                &&& final(stats)@.status_codes == count_status(
                    old(stats)@.status_codes,
                    response.status,
                )
                &&& final(stats)@.samples.len() == old(stats)@.samples.len() + 1
                &&& kept_latency(old(stats)@.samples, final(stats)@.samples, response.latency)
                &&& if failures.len() == 0 {
                    &&& final(stats)@.validation_errors == old(stats)@.validation_errors
                    &&& final(stats)@.errors == old(stats)@.errors
                    &&& if response.status >= 400 {
                        final(stats)@.error_counts == status_error_counts(
                            old(stats)@.error_counts,
                            response.status,
                        ) && final(stats)@.successful_requests
                            == old(stats)@.successful_requests
                    } else {
                        final(stats)@.error_counts == old(stats)@.error_counts
                            && final(stats)@.successful_requests
                            == old(stats)@.successful_requests + 1
                    }
                } else {
                    &&& final(stats)@.validation_errors == old(stats)@.validation_errors + 1
                    &&& final(stats)@.error_counts == category_error_counts(
                        old(stats)@.error_counts,
                        ErrorCategory::Other,
                    )
                    &&& final(stats)@.successful_requests == old(stats)@.successful_requests
                    &&& final(stats)@.errors == keep_error(
                        old(stats)@.errors,
                        join_texts(failures, "; "@),
                    )
                }
            },
            Err(error) => {
                let retries = if error.retry_stats_spec().total_attempts == 0 {
                    0
                } else {
                    error.retry_stats_spec().total_attempts - 1
                };
                let category = match error.kind_spec() {
                    HttpErrorKind::Timeout => ErrorCategory::Timeout,
                    HttpErrorKind::Connection => ErrorCategory::Connection,
                    _ => ErrorCategory::Other,
                };
                &&& final(stats)@.retries == old(stats)@.retries + retries
                &&& final(stats)@.error_counts == category_error_counts(
                    old(stats)@.error_counts,
                    category,
                )
                &&& final(stats)@.successful_requests == old(stats)@.successful_requests
                &&& final(stats)@.validation_errors == old(stats)@.validation_errors
                &&& final(stats)@.errors == keep_error(old(stats)@.errors, error.message_spec())
                &&& final(stats)@.status_codes == old(stats)@.status_codes
                &&& final(stats)@.samples == old(stats)@.samples
            },
        },
{
    match outcome {
        Ok(response) => {
            let retries = retry_count(response.retry_stats.total_attempts);
            let result = validate_response(response, validation);
            if result.passed {
                stats.record_with_retries(response.latency, response.status, retries);
            } else {
                let message = join_strings(&result.failures, "; ");
                stats.record_validation_error_with_retries(
                    response.latency,
                    response.status,
                    message.as_str(),
                    retries,
                );
            }
        },
        Err(error) => {
            let category = error_category(error.kind());
            let retries = retry_count(error.retry_stats().total_attempts);
            let message = error.to_string();
            stats.record_error_with_retries(category, message.as_str(), retries);
        },
    }
}

} // verus!
