//! Counting the outcomes of a load test: requests, errors by category,
//! status codes, latencies, retries and the first error messages.
//!
//! Latencies are given in nanoseconds and kept in microseconds; the
//! elapsed time of a run is measured by the caller and handed to
//! `snapshot`.

use vstd::prelude::*;
use vstd::multiset::Multiset;
use std::collections::BTreeMap;
use crate::histogram::{HdrHistogram, count_of, duration_to_micros_spec, kept_sample, sample_bounds};

verus! {

broadcast use vstd::std_specs::btree::group_btree_axioms;

/// How many error messages are kept; later ones are counted only.
pub const MAX_STORED_ERRORS: usize = 100usize;

/// What kind of failure an error was.
#[derive(Debug, Clone, Copy, PartialEq, Eq, Structural)]
pub enum ErrorCategory {
    Timeout,
    Connection,
    Http,
    Other,
}

/// Errors counted by kind.
#[derive(Debug, Clone, Copy, PartialEq, Eq, Structural)]
pub struct ErrorCounts {
    pub timeout: u64,
    pub connection: u64,
    pub http_4xx: u64,
    pub http_5xx: u64,
    pub http_other: u64,
    pub other: u64,
}

impl ErrorCounts {
    pub open spec fn total_spec(&self) -> nat {
        (self.timeout + self.connection + self.http_4xx + self.http_5xx + self.http_other
            + self.other) as nat
    }

    pub open spec fn http_total_spec(&self) -> nat {
        (self.http_4xx + self.http_5xx + self.http_other) as nat
    }

    /// No errors at all.
    pub fn new() -> (c: Self)
        ensures
            c.total_spec() == 0,
            c == (ErrorCounts {
                timeout: 0,
                connection: 0,
                http_4xx: 0,
                http_5xx: 0,
                http_other: 0,
                other: 0,
            }),
    {
        ErrorCounts { timeout: 0, connection: 0, http_4xx: 0, http_5xx: 0, http_other: 0, other: 0 }
    }

    /// All errors.
    pub fn total(&self) -> (n: u64)
        requires
            self.total_spec() <= u64::MAX,
        ensures
            n == self.total_spec(),
    {
        self.timeout + self.connection + self.http_4xx + self.http_5xx + self.http_other
            + self.other
    }

    /// The errors that carry an HTTP status.
    pub fn http_total(&self) -> (n: u64)
        requires
            self.http_total_spec() <= u64::MAX,
        ensures
            n == self.http_total_spec(),
    {
        self.http_4xx + self.http_5xx + self.http_other
    }
}

impl Default for ErrorCounts {
    fn default() -> (c: Self)
        ensures
            c.total_spec() == 0,
    {
        ErrorCounts::new()
    }
}

/// Latency percentiles in microseconds.
#[derive(Debug, Clone, Copy, PartialEq, Eq, Structural)]
pub struct Percentiles {
    pub p50: u64,
    pub p95: u64,
    pub p99: u64,
    pub p999: u64,
}

impl Default for Percentiles {
    fn default() -> (p: Self)
        ensures
            p == (Percentiles { p50: 0, p95: 0, p99: 0, p999: 0 }),
    {
        Percentiles { p50: 0, p95: 0, p99: 0, p999: 0 }
    }
}

/// The counters of a run, as mathematical values.
pub struct StatsView {
    pub total_requests: nat,
    pub successful_requests: nat,
    pub total_errors: nat,
    pub validation_errors: nat,
    pub retries: nat,
    pub error_counts: ErrorCounts,
    pub status_codes: Map<u16, u64>,
    pub samples: Multiset<u64>,
    pub errors: Seq<Seq<char>>,
}

/// The error counter that a failed response with this status adds to.
pub open spec fn status_error_counts(c: ErrorCounts, status: u16) -> ErrorCounts {
    if 400 <= status <= 499 {
        ErrorCounts { http_4xx: (c.http_4xx + 1) as u64, ..c }
    } else if 500 <= status <= 599 {
        ErrorCounts { http_5xx: (c.http_5xx + 1) as u64, ..c }
    } else {
        ErrorCounts { http_other: (c.http_other + 1) as u64, ..c }
    }
}

/// The error counter that a failure of this category adds to.
pub open spec fn category_error_counts(c: ErrorCounts, category: ErrorCategory) -> ErrorCounts {
    match category {
        ErrorCategory::Timeout => ErrorCounts { timeout: (c.timeout + 1) as u64, ..c },
        ErrorCategory::Connection => ErrorCounts { connection: (c.connection + 1) as u64, ..c },
        ErrorCategory::Http => ErrorCounts { http_other: (c.http_other + 1) as u64, ..c },
        ErrorCategory::Other => ErrorCounts { other: (c.other + 1) as u64, ..c },
    }
}

/// A failed response counts under the range of its status and nowhere
/// else: 400 to 499 adds one to `http_4xx`, 500 to 599 one to `http_5xx`,
/// any other status of 400 or more one to `http_other`, and every other
/// counter stays as it was.
pub proof fn error_status_lands_in_its_range(c: ErrorCounts, status: u16)
    requires
        status >= 400,
        c.http_4xx < u64::MAX,
        c.http_5xx < u64::MAX,
        c.http_other < u64::MAX,
    ensures
        ({
            let d = status_error_counts(c, status);
            &&& d.timeout == c.timeout
            &&& d.connection == c.connection
            &&& d.other == c.other
            &&& d.http_4xx == c.http_4xx + if status <= 499 {
                1int
            } else {
                0int
            }
            &&& d.http_5xx == c.http_5xx + if 500 <= status <= 599 {
                1int
            } else {
                0int
            }
            &&& d.http_other == c.http_other + if status >= 600 {
                1int
            } else {
                0int
            }
        }),
{
}

/// A failed request counts under its category and nowhere else: a
/// timeout under `timeout`, a connection failure under `connection`, an
/// HTTP failure under `http_other` and anything else under `other`.
pub proof fn error_category_lands_in_its_counter(c: ErrorCounts, category: ErrorCategory)
    requires
        c.timeout < u64::MAX,
        c.connection < u64::MAX,
        c.http_other < u64::MAX,
        c.other < u64::MAX,
    ensures
        ({
            let d = category_error_counts(c, category);
            &&& d.http_4xx == c.http_4xx
            &&& d.http_5xx == c.http_5xx
            &&& d.timeout == c.timeout + if category == ErrorCategory::Timeout {
                1int
            } else {
                0int
            }
            &&& d.connection == c.connection + if category == ErrorCategory::Connection {
                1int
            } else {
                0int
            }
            &&& d.http_other == c.http_other + if category == ErrorCategory::Http {
                1int
            } else {
                0int
            }
            &&& d.other == c.other + if category == ErrorCategory::Other {
                1int
            } else {
                0int
            }
        }),
{
}

/// The status-code counts with one more response of this status.
pub open spec fn count_status(codes: Map<u16, u64>, status: u16) -> Map<u16, u64> {
    codes.insert(
        status,
        if codes.contains_key(status) {
            (codes[status] + 1) as u64
        } else {
            1
        },
    )
}

/// Counting a response's status adds one to that status's count (a status
/// seen for the first time starts at one) and leaves every other status's
/// count as it was.
pub proof fn status_counts_count_each_response(codes: Map<u16, u64>, status: u16, other: u16)
    requires
        codes.contains_key(status) ==> codes[status] < u64::MAX,
        other != status,
    ensures
        count_status(codes, status).contains_key(status),
        count_status(codes, status)[status] == 1 + if codes.contains_key(status) {
            codes[status] as int
        } else {
            0int
        },
        count_status(codes, status).contains_key(other) == codes.contains_key(other),
        codes.contains_key(other) ==> count_status(codes, status)[other] == codes[other],
{
}

/// Recording a latency adds exactly one sample: the one the histogram
/// keeps for its microseconds, which is at least them, less than one
/// part in 1024 above them, and exactly them below `EXACT_BELOW`.
pub open spec fn kept_latency(before: Multiset<u64>, after: Multiset<u64>, latency_nanos: u64) -> bool {
    let micros = duration_to_micros_spec(latency_nanos);
    &&& after == before.insert(kept_sample(micros))
    &&& sample_bounds(micros, kept_sample(micros))
}

/// The responses counted under the status codes below `k`.
pub open spec fn status_total_below(codes: Map<u16, u64>, k: nat) -> nat
    decreases k,
{
    if k == 0 {
        0
    } else {
        let code = (k - 1) as u16;
        status_total_below(codes, (k - 1) as nat) + if codes.contains_key(code) {
            codes[code] as nat
        } else {
            0
        }
    }
}

/// The responses counted under all status codes.
pub open spec fn status_total(codes: Map<u16, u64>) -> nat {
    status_total_below(codes, 65536)
}

/// No status code, no responses.
proof fn lemma_status_total_empty(k: nat)
    requires
        k <= 65536,
    ensures
        status_total_below(Map::<u16, u64>::empty(), k) == 0,
    decreases k,
{
    if k > 0 {
        lemma_status_total_empty((k - 1) as nat);
    }
}

/// Counting one more response of a status adds one to the totals of the
/// codes above it.
proof fn lemma_status_total_count(codes: Map<u16, u64>, status: u16, k: nat)
    requires
        k <= 65536,
        codes.contains_key(status) ==> codes[status] < u64::MAX,
    ensures
        status_total_below(count_status(codes, status), k) == status_total_below(codes, k) + if status
            < k {
            1nat
        } else {
            0nat
        },
    decreases k,
{
    if k > 0 {
        lemma_status_total_count(codes, status, (k - 1) as nat);
        let code = (k - 1) as u16;
        assert(code as nat == k - 1);
    }
}

/// The kept messages with one more error: it is kept while fewer than
/// `MAX_STORED_ERRORS` are.
pub open spec fn keep_error(errors: Seq<Seq<char>>, message: Seq<char>) -> Seq<Seq<char>> {
    if errors.len() < MAX_STORED_ERRORS {
        errors.push(message)
    } else {
        errors
    }
}

/// The texts of a list of strings.
pub open spec fn texts(v: Seq<String>) -> Seq<Seq<char>> {
    v.map_values(|s: String| s@)
}

/// The counters of a load test.
pub struct StatsCollector {
    total_requests: u64,
    successful_requests: u64,
    total_errors: u64,
    validation_errors: usize,
    retries: usize,
    error_counts: ErrorCounts,
    status_codes: BTreeMap<u16, u64>,
    histogram: HdrHistogram,
    errors: Vec<String>,
}

impl View for StatsCollector {
    type V = StatsView;

    closed spec fn view(&self) -> StatsView {
        StatsView {
            total_requests: self.total_requests as nat,
            successful_requests: self.successful_requests as nat,
            total_errors: self.total_errors as nat,
            validation_errors: self.validation_errors as nat,
            retries: self.retries as nat,
            error_counts: self.error_counts,
            status_codes: self.status_codes@,
            samples: self.histogram.samples(),
            errors: texts(self.errors@),
        }
    }
}

impl StatsCollector {
    /// What every operation keeps: each request is a success or an error,
    /// the errors are those counted by kind, validation failures are among
    /// the other errors, no status was seen more often than there were
    /// requests, at most one latency was kept per request, and at most
    /// `MAX_STORED_ERRORS` messages are kept.
    pub open spec fn wf(&self) -> bool {
        &&& self@.total_requests <= u64::MAX
        &&& self@.total_requests == self@.successful_requests + self@.total_errors
        &&& self@.total_errors == self@.error_counts.total_spec()
        &&& self@.validation_errors <= self@.error_counts.other
        &&& forall|k: u16| #[trigger]
            self@.status_codes.contains_key(k) ==> self@.status_codes[k] <= self@.total_requests
        &&& self@.samples.len() <= self@.total_requests
        &&& status_total(self@.status_codes) == self@.samples.len()
        &&& self@.errors.len() <= MAX_STORED_ERRORS
    }

    /// No requests counted yet.
    pub fn new() -> (s: Self)
        ensures
            s.wf(),
            s@.total_requests == 0,
            s@.successful_requests == 0,
            s@.total_errors == 0,
            s@.validation_errors == 0,
            s@.retries == 0,
            s@.error_counts.total_spec() == 0,
            s@.status_codes == Map::<u16, u64>::empty(),
            s@.samples == Multiset::<u64>::empty(),
            s@.errors == Seq::<Seq<char>>::empty(),
    {
        let s = StatsCollector {
            total_requests: 0,
            successful_requests: 0,
            total_errors: 0,
            validation_errors: 0,
            retries: 0,
            error_counts: ErrorCounts::new(),
            status_codes: BTreeMap::new(),
            histogram: HdrHistogram::new(),
            errors: Vec::new(),
        };
        proof {
            assert(texts(s.errors@) =~= Seq::<Seq<char>>::empty());
            lemma_status_total_empty(65536);
        }
        s
    }

    /// Adds one to the count of a status code.
    fn count_status_code(&mut self, status: u16)
        requires
            old(self).total_requests > 0,
            forall|k: u16| #[trigger]
                old(self).status_codes@.contains_key(k) ==> old(self).status_codes@[k]
                    < old(self).total_requests,
        ensures
            forall|k: u16| #[trigger]
                final(self).status_codes@.contains_key(k) ==> final(self).status_codes@[k]
                    <= final(self).total_requests,
            status_total(final(self).status_codes@) == status_total(old(self).status_codes@) + 1,
            final(self).status_codes@ == count_status(old(self).status_codes@, status),
            final(self).total_requests == old(self).total_requests,
            final(self).successful_requests == old(self).successful_requests,
            final(self).total_errors == old(self).total_errors,
            final(self).validation_errors == old(self).validation_errors,
            final(self).retries == old(self).retries,
            final(self).error_counts == old(self).error_counts,
            final(self).histogram == old(self).histogram,
            final(self).errors == old(self).errors,
    {
        let current: u64 = match self.status_codes.get(&status) {
            Some(c) => *c,
            None => 0,
        };
        proof {
            assert(self.status_codes@.contains_key(status) ==> current == self.status_codes@[status]);
            assert(current < self.total_requests) by {
                if self.status_codes@.contains_key(status) {
                    assert(old(self).status_codes@.contains_key(status));
                }
            }
        }
        let ghost before = self.status_codes@;
        self.status_codes.insert(status, current + 1);
        proof {
            assert(before.contains_key(status) ==> before[status] < u64::MAX);
            lemma_status_total_count(before, status, 65536);
            assert(self.status_codes@ == count_status(before, status));
            assert forall|k: u16| #[trigger]
                self.status_codes@.contains_key(k) implies self.status_codes@[k]
                    <= self.total_requests by {
                if k != status {
                    assert(old(self).status_codes@.contains_key(k));
                }
            }
        }
    }

    /// Keeps an error message while fewer than `MAX_STORED_ERRORS` are kept.
    fn keep_error_message(&mut self, message: &str)
        ensures
            texts(final(self).errors@) == keep_error(texts(old(self).errors@), message@),
            final(self).total_requests == old(self).total_requests,
            final(self).successful_requests == old(self).successful_requests,
            final(self).total_errors == old(self).total_errors,
            final(self).validation_errors == old(self).validation_errors,
            final(self).retries == old(self).retries,
            final(self).error_counts == old(self).error_counts,
            final(self).histogram == old(self).histogram,
            final(self).status_codes == old(self).status_codes,
    {
        if self.errors.len() < MAX_STORED_ERRORS {
            let ghost before = self.errors@;
            self.errors.push(message.to_string());
            proof {
                assert(texts(self.errors@) =~= texts(before).push(message@));
            }
        }
    }

    /// Counts a response with its latency and status code. A status of 400
    /// or more is an error: 4xx, 5xx or other HTTP error by its range.
    pub fn record(&mut self, latency_nanos: u64, status_code: u16)
        requires
            old(self).wf(),
            old(self)@.total_requests < u64::MAX,
        ensures
            final(self).wf(),
            final(self)@.total_requests == old(self)@.total_requests + 1,
            final(self)@.status_codes == count_status(old(self)@.status_codes, status_code),
            final(self)@.samples.len() == old(self)@.samples.len() + 1,
            old(self)@.samples.subset_of(final(self)@.samples),
            kept_latency(old(self)@.samples, final(self)@.samples, latency_nanos),
            if status_code >= 400 {
                &&& final(self)@.total_errors == old(self)@.total_errors + 1
                &&& final(self)@.successful_requests == old(self)@.successful_requests
                &&& final(self)@.error_counts == status_error_counts(
                    old(self)@.error_counts,
                    status_code,
                )
            } else {
                &&& final(self)@.total_errors == old(self)@.total_errors
                &&& final(self)@.successful_requests == old(self)@.successful_requests + 1
                &&& final(self)@.error_counts == old(self)@.error_counts
            },
            final(self)@.validation_errors == old(self)@.validation_errors,
            final(self)@.retries == old(self)@.retries,
            final(self)@.errors == old(self)@.errors,
    {
        self.total_requests = self.total_requests + 1;
        proof {
            assert forall|k: u16| #[trigger]
                self.status_codes@.contains_key(k) implies self.status_codes@[k]
                    < self.total_requests by {
                assert(old(self)@.status_codes.contains_key(k));
            }
        }
        self.histogram.record(latency_nanos);
        self.count_status_code(status_code);
        proof {
            assert(texts(self.errors@) == old(self)@.errors);
        }
        if status_code >= 400 {
            self.total_errors = self.total_errors + 1;
            if 400 <= status_code && status_code <= 499 {
                self.error_counts.http_4xx = self.error_counts.http_4xx + 1;
            } else if 500 <= status_code && status_code <= 599 {
                self.error_counts.http_5xx = self.error_counts.http_5xx + 1;
            } else {
                self.error_counts.http_other = self.error_counts.http_other + 1;
            }
        } else {
            self.successful_requests = self.successful_requests + 1;
        }
    }

    /// Counts a failed request of the given category and keeps its message
    /// while fewer than `MAX_STORED_ERRORS` are kept.
    pub fn record_error(&mut self, category: ErrorCategory, error: &str)
        requires
            old(self).wf(),
            old(self)@.total_requests < u64::MAX,
        ensures
            final(self).wf(),
            final(self)@.total_requests == old(self)@.total_requests + 1,
            final(self)@.total_errors == old(self)@.total_errors + 1,
            final(self)@.successful_requests == old(self)@.successful_requests,
            final(self)@.error_counts == category_error_counts(old(self)@.error_counts, category),
            final(self)@.errors == keep_error(old(self)@.errors, error@),
            final(self)@.status_codes == old(self)@.status_codes,
            final(self)@.samples == old(self)@.samples,
            final(self)@.validation_errors == old(self)@.validation_errors,
            final(self)@.retries == old(self)@.retries,
    {
        self.total_requests = self.total_requests + 1;
        self.total_errors = self.total_errors + 1;
        match category {
            ErrorCategory::Timeout => {
                self.error_counts.timeout = self.error_counts.timeout + 1;
            },
            ErrorCategory::Connection => {
                self.error_counts.connection = self.error_counts.connection + 1;
            },
            ErrorCategory::Http => {
                self.error_counts.http_other = self.error_counts.http_other + 1;
            },
            ErrorCategory::Other => {
                self.error_counts.other = self.error_counts.other + 1;
            },
        }
        self.keep_error_message(error);
        proof {
            assert forall|k: u16| #[trigger]
                self@.status_codes.contains_key(k) implies self@.status_codes[k]
                    <= self@.total_requests by {
                assert(old(self)@.status_codes.contains_key(k));
            }
        }
    }

    /// Adds to the count of retries.
    fn add_retries(&mut self, retries: usize)
        requires
            old(self).retries + retries <= usize::MAX,
        ensures
            final(self).retries == old(self).retries + retries,
            final(self).total_requests == old(self).total_requests,
            final(self).successful_requests == old(self).successful_requests,
            final(self).total_errors == old(self).total_errors,
            final(self).validation_errors == old(self).validation_errors,
            final(self).error_counts == old(self).error_counts,
            final(self).histogram == old(self).histogram,
            final(self).status_codes == old(self).status_codes,
            final(self).errors == old(self).errors,
    {
        self.retries = self.retries + retries;
    }

    /// `record`, and the retries that the request took.
    pub fn record_with_retries(&mut self, latency_nanos: u64, status_code: u16, retries: usize)
        requires
            old(self).wf(),
            old(self)@.total_requests < u64::MAX,
            old(self)@.retries + retries <= usize::MAX,
        ensures
            final(self).wf(),
            final(self)@.total_requests == old(self)@.total_requests + 1,
            final(self)@.status_codes == count_status(old(self)@.status_codes, status_code),
            final(self)@.samples.len() == old(self)@.samples.len() + 1,
            old(self)@.samples.subset_of(final(self)@.samples),
            kept_latency(old(self)@.samples, final(self)@.samples, latency_nanos),
            if status_code >= 400 {
                &&& final(self)@.total_errors == old(self)@.total_errors + 1
                &&& final(self)@.successful_requests == old(self)@.successful_requests
                &&& final(self)@.error_counts == status_error_counts(
                    old(self)@.error_counts,
                    status_code,
                )
            } else {
                &&& final(self)@.total_errors == old(self)@.total_errors
                &&& final(self)@.successful_requests == old(self)@.successful_requests + 1
                &&& final(self)@.error_counts == old(self)@.error_counts
            },
            final(self)@.validation_errors == old(self)@.validation_errors,
            final(self)@.retries == old(self)@.retries + retries,
            final(self)@.errors == old(self)@.errors,
    {
        self.record(latency_nanos, status_code);
        self.add_retries(retries);
    }

    /// `record_error`, and the retries that the request took.
    pub fn record_error_with_retries(&mut self, category: ErrorCategory, error: &str, retries: usize)
        requires
            old(self).wf(),
            old(self)@.total_requests < u64::MAX,
            old(self)@.retries + retries <= usize::MAX,
        ensures
            final(self).wf(),
            final(self)@.total_requests == old(self)@.total_requests + 1,
            final(self)@.total_errors == old(self)@.total_errors + 1,
            final(self)@.successful_requests == old(self)@.successful_requests,
            final(self)@.error_counts == category_error_counts(old(self)@.error_counts, category),
            final(self)@.errors == keep_error(old(self)@.errors, error@),
            final(self)@.status_codes == old(self)@.status_codes,
            final(self)@.samples == old(self)@.samples,
            final(self)@.validation_errors == old(self)@.validation_errors,
            final(self)@.retries == old(self)@.retries + retries,
    {
        self.record_error(category, error);
        self.add_retries(retries);
    }

    /// Counts a response that failed validation: it is an error of the
    /// other kind and a validation error, and its status code and latency
    /// are counted as well; its message is kept like any error's.
    pub fn record_validation_error_with_retries(
        &mut self,
        latency_nanos: u64,
        status_code: u16,
        error: &str,
        retries: usize,
    )
        requires
            old(self).wf(),
            old(self)@.total_requests < u64::MAX,
            old(self)@.validation_errors < usize::MAX,
            old(self)@.retries + retries <= usize::MAX,
        ensures
            final(self).wf(),
            final(self)@.total_requests == old(self)@.total_requests + 1,
            final(self)@.total_errors == old(self)@.total_errors + 1,
            final(self)@.successful_requests == old(self)@.successful_requests,
            final(self)@.validation_errors == old(self)@.validation_errors + 1,
            final(self)@.error_counts == category_error_counts(
                old(self)@.error_counts,
                ErrorCategory::Other,
            ),
            final(self)@.status_codes == count_status(old(self)@.status_codes, status_code),
            final(self)@.samples.len() == old(self)@.samples.len() + 1,
            old(self)@.samples.subset_of(final(self)@.samples),
            kept_latency(old(self)@.samples, final(self)@.samples, latency_nanos),
            final(self)@.errors == keep_error(old(self)@.errors, error@),
            final(self)@.retries == old(self)@.retries + retries,
    {
        self.total_requests = self.total_requests + 1;
        self.total_errors = self.total_errors + 1;
        self.validation_errors = self.validation_errors + 1;
        proof {
            assert forall|k: u16| #[trigger]
                self.status_codes@.contains_key(k) implies self.status_codes@[k]
                    < self.total_requests by {
                assert(old(self)@.status_codes.contains_key(k));
            }
        }
        self.error_counts.other = self.error_counts.other + 1;
        self.histogram.record(latency_nanos);
        self.count_status_code(status_code);
        self.keep_error_message(error);
        self.add_retries(retries);
    }

    /// Requests counted.
    pub fn total_requests(&self) -> (n: u64)
        ensures
            n == self@.total_requests,
    {
        self.total_requests
    }

    /// Requests that succeeded.
    pub fn successful_requests(&self) -> (n: u64)
        ensures
            n == self@.successful_requests,
    {
        self.successful_requests
    }

    /// Requests that failed.
    pub fn total_errors(&self) -> (n: u64)
        ensures
            n == self@.total_errors,
    {
        self.total_errors
    }

    /// Responses that failed validation.
    pub fn validation_errors(&self) -> (n: usize)
        ensures
            n == self@.validation_errors,
    {
        self.validation_errors
    }

    /// Retries made.
    pub fn retries(&self) -> (n: usize)
        ensures
            n == self@.retries,
    {
        self.retries
    }

    /// The latencies recorded.
    pub fn histogram(&self) -> (h: &HdrHistogram)
        ensures
            h.samples() == self@.samples,
    {
        &self.histogram
    }

    /// The counters at this moment, with `duration_nanos` as the run's
    /// elapsed time.
    pub fn snapshot(&self, duration_nanos: u64) -> (s: StatsSnapshot)
        requires
            self.wf(),
            self@.samples.len() < u64::MAX,
        ensures
            s.duration == duration_nanos,
            s.total_requests == self@.total_requests,
            s.successful_requests == self@.successful_requests,
            s.total_errors == self@.total_errors,
            s.validation_errors == self@.validation_errors,
            s.retries == self@.retries,
            s.error_counts == self@.error_counts,
            s.status_codes@ == self@.status_codes,
            s.histogram.samples() == self@.samples,
            s.latencies@.len() == self@.samples.len(),
            forall|x: u64| #[trigger] count_of(s.latencies@, x) == self@.samples.count(x),
            forall|i: int, j: int| 0 <= i <= j < s.latencies@.len() ==> s.latencies@[i] <= s.latencies@[j],
            texts(s.errors@) == self@.errors,
    {
        let mut errors: Vec<String> = Vec::new();
        let mut i: usize = 0;
        while i < self.errors.len()
            invariant
                i <= self.errors@.len(),
                texts(errors@) == texts(self.errors@).subrange(0, i as int),
            decreases self.errors@.len() - i,
        {
            let ghost before = errors@;
            errors.push(self.errors[i].clone());
            proof {
                assert(texts(errors@) =~= texts(before).push(self.errors@[i as int]@));
                assert(texts(self.errors@).subrange(0, i + 1) =~= texts(self.errors@).subrange(0, i as int).push(self.errors@[i as int]@));
            }
            i = i + 1;
        }
        proof {
            assert(texts(self.errors@).subrange(0, self.errors@.len() as int) =~= texts(self.errors@));
        }
        StatsSnapshot {
            duration: duration_nanos,
            total_requests: self.total_requests,
            successful_requests: self.successful_requests,
            total_errors: self.total_errors,
            validation_errors: self.validation_errors,
            retries: self.retries,
            error_counts: self.error_counts,
            status_codes: self.status_codes.clone(),
            histogram: self.histogram.clone(),
            latencies: self.histogram.to_durations(),
            errors,
        }
    }
}

impl Default for StatsCollector {
    /// No requests counted yet.
    fn default() -> (s: Self)
        ensures
            s.wf(),
            s@.total_requests == 0,
            s@.successful_requests == 0,
            s@.total_errors == 0,
            s@.validation_errors == 0,
            s@.retries == 0,
            s@.error_counts.total_spec() == 0,
            s@.status_codes == Map::<u16, u64>::empty(),
            s@.samples == Multiset::<u64>::empty(),
            s@.errors == Seq::<Seq<char>>::empty(),
    {
        StatsCollector::new()
    }
}

/// The counters of a load test at one moment.
pub struct StatsSnapshot {
    /// Elapsed time of the run in nanoseconds.
    pub duration: u64,
    pub total_requests: u64,
    pub successful_requests: u64,
    pub total_errors: u64,
    pub validation_errors: usize,
    pub retries: usize,
    pub error_counts: ErrorCounts,
    /// How many responses came back with each status code.
    pub status_codes: BTreeMap<u16, u64>,
    pub histogram: HdrHistogram,
    /// Every latency in microseconds, in increasing order.
    pub latencies: Vec<u64>,
    /// The first error messages.
    pub errors: Vec<String>,
}

/// Each request counted is a success or an error, each error is counted
/// under exactly one kind, and each response (not each failed request) is
/// counted once under its status code and once among the latencies.
pub proof fn requests_are_successes_or_errors(s: &StatsCollector)
    requires
        s.wf(),
    ensures
        s@.total_requests == s@.successful_requests + s@.total_errors,
        s@.total_errors == s@.error_counts.timeout + s@.error_counts.connection
            + s@.error_counts.http_4xx + s@.error_counts.http_5xx + s@.error_counts.http_other
            + s@.error_counts.other,
        s@.validation_errors <= s@.total_errors,
        status_total(s@.status_codes) == s@.samples.len(),
        s@.samples.len() <= s@.total_requests,
{
}

/// However many errors are recorded, at most `MAX_STORED_ERRORS` (100)
/// messages are kept, and they are the first ones: a message is kept,
/// after those before it, exactly while fewer than 100 are kept.
pub proof fn stored_errors_are_bounded(errors: Seq<Seq<char>>, message: Seq<char>)
    requires
        errors.len() <= MAX_STORED_ERRORS,
    ensures
        MAX_STORED_ERRORS == 100,
        keep_error(errors, message).len() <= MAX_STORED_ERRORS,
        keep_error(errors, message).subrange(0, errors.len() as int) == errors,
        errors.len() < 100 ==> keep_error(errors, message) == errors.push(message),
        errors.len() == 100 ==> keep_error(errors, message) == errors,
{
    assert(keep_error(errors, message).subrange(0, errors.len() as int) =~= errors);
}

} // verus!
