//! The request side of a load test that involves no I/O: which methods can
//! be sent, how transport failures are classified, and when a failed
//! attempt is retried.

use vstd::prelude::*;
use crate::text::{chars_eq_str, upper_chars, upper_seq, chars_of, string_from_chars};
use crate::config::append_str;

verus! {

/// How many times a failed request is retried, and the delay before each
/// retry in milliseconds.
#[derive(Debug, Clone, Copy, PartialEq, Eq, Structural)]
pub struct RetryConfig {
    pub max_retries: usize,
    pub delay: u128,
}

impl RetryConfig {
    /// No retries and no delay.
    pub fn disabled() -> (c: Self)
        ensures
            c.max_retries == 0,
            c.delay == 0,
    {
        RetryConfig { max_retries: 0, delay: 0 }
    }

    /// Attempts allowed in all: the first one and `max_retries` more,
    /// saturating at `usize::MAX`.
    pub open spec fn max_attempts(&self) -> nat {
        if self.max_retries == usize::MAX {
            usize::MAX as nat
        } else {
            (self.max_retries + 1) as nat
        }
    }
}

impl Default for RetryConfig {
    /// No retries.
    fn default() -> (c: Self)
        ensures
            c.max_retries == 0,
            c.delay == 0,
    {
        RetryConfig::disabled()
    }
}

/// How many attempts a request took.
#[derive(Debug, Clone, Copy, PartialEq, Eq, Structural)]
pub struct RetryStats {
    pub total_attempts: usize,
    pub retried: bool,
}

impl Default for RetryStats {
    /// No attempts.
    fn default() -> (s: Self)
        ensures
            s.total_attempts == 0,
            !s.retried,
    {
        RetryStats { total_attempts: 0, retried: false }
    }
}

/// The statistics of a request that took `total_attempts` attempts.
pub fn retry_stats(total_attempts: usize) -> (s: RetryStats)
    ensures
        s.total_attempts == total_attempts,
        s.retried == (total_attempts > 1),
{
    RetryStats { total_attempts, retried: total_attempts > 1 }
}

/// The retries that a request took: one less than its attempts, never
/// below zero.
pub fn retry_count(total_attempts: usize) -> (n: usize)
    ensures
        n == if total_attempts == 0 {
            0
        } else {
            total_attempts - 1
        },
{
    total_attempts.saturating_sub(1)
}

/// The kinds of failure of a request.
#[derive(Debug, Clone, Copy, PartialEq, Eq, Structural)]
pub enum HttpErrorKind {
    Timeout,
    Connection,
    Request,
    UnsupportedMethod,
    Other,
}

/// A failed request: its kind, message and attempts.
#[derive(Debug, Clone)]
pub struct HttpClientError {
    kind: HttpErrorKind,
    message: String,
    retry_stats: RetryStats,
}

impl HttpClientError {
    pub closed spec fn kind_spec(&self) -> HttpErrorKind {
        self.kind
    }

    pub closed spec fn message_spec(&self) -> Seq<char> {
        self.message@
    }

    pub closed spec fn retry_stats_spec(&self) -> RetryStats {
        self.retry_stats
    }

    /// An error of the given kind and message, with no attempts recorded.
    pub fn new(kind: HttpErrorKind, message: String) -> (e: Self)
        ensures
            e.kind_spec() == kind,
            e.message_spec() == message@,
            e.retry_stats_spec() == (RetryStats { total_attempts: 0, retried: false }),
    {
        HttpClientError { kind, message, retry_stats: RetryStats { total_attempts: 0, retried: false } }
    }

    /// The kind of failure.
    pub fn kind(&self) -> (k: HttpErrorKind)
        ensures
            k == self.kind_spec(),
    {
        self.kind
    }

    /// The attempts that the request took.
    pub fn retry_stats(&self) -> (s: RetryStats)
        ensures
            s == self.retry_stats_spec(),
    {
        self.retry_stats
    }

    /// The same error with the given attempts.
    pub fn with_retry_stats(self, retry_stats: RetryStats) -> (e: Self)
        ensures
            e.kind_spec() == self.kind_spec(),
            e.message_spec() == self.message_spec(),
            e.retry_stats_spec() == retry_stats,
    {
        HttpClientError { kind: self.kind, message: self.message, retry_stats }
    }

    /// The error's message.
    pub fn to_string(&self) -> (s: String)
        ensures
            s@ == self.message_spec(),
    {
        self.message.clone()
    }
}

/// A response as the load test sees it: status code, headers in the order
/// they came (each value `None` where it is not visible ASCII), body text,
/// how long the last attempt took in nanoseconds, and the attempts made.
#[derive(Debug, Clone)]
pub struct HttpResponse {
    pub status: u16,
    pub headers: Vec<(String, Option<String>)>,
    pub body: String,
    pub latency: u64,
    pub retry_stats: RetryStats,
}

/// The methods that a request can be sent with.
#[derive(Debug, Clone, Copy, PartialEq, Eq, Structural)]
pub enum HttpMethod {
    Get,
    Post,
    Put,
    Delete,
    Patch,
    Head,
    Options,
}

/// The method that an upper-cased name denotes.
pub open spec fn method_spec(m: Seq<char>) -> Option<HttpMethod> {
    if m == "GET"@ {
        Some(HttpMethod::Get)
    } else if m == "POST"@ {
        Some(HttpMethod::Post)
    } else if m == "PUT"@ {
        Some(HttpMethod::Put)
    } else if m == "DELETE"@ {
        Some(HttpMethod::Delete)
    } else if m == "PATCH"@ {
        Some(HttpMethod::Patch)
    } else if m == "HEAD"@ {
        Some(HttpMethod::Head)
    } else if m == "OPTIONS"@ {
        Some(HttpMethod::Options)
    } else {
        None
    }
}

/// The method to send a request with: the name is upper-cased (ASCII) and
/// must be one of the seven supported methods; any other name gives an
/// `UnsupportedMethod` error whose message is `unsupported method: NAME`.
pub fn request_method(method: &str) -> (r: Result<HttpMethod, HttpClientError>)
    ensures
        match r {
            Ok(m) => method_spec(upper_seq(method@)) == Some(m),
            Err(e) => method_spec(upper_seq(method@)) is None && e.kind_spec()
                == HttpErrorKind::UnsupportedMethod && e.message_spec() == "unsupported method: "@
                + upper_seq(method@) && e.retry_stats_spec() == (RetryStats {
                total_attempts: 0,
                retried: false,
            }),
        },
{
    let v = chars_of(method);
    let u = upper_chars(&v);
    if chars_eq_str(&u, "GET") {
        Ok(HttpMethod::Get)
    } else if chars_eq_str(&u, "POST") {
        Ok(HttpMethod::Post)
    } else if chars_eq_str(&u, "PUT") {
        Ok(HttpMethod::Put)
    } else if chars_eq_str(&u, "DELETE") {
        Ok(HttpMethod::Delete)
    } else if chars_eq_str(&u, "PATCH") {
        Ok(HttpMethod::Patch)
    } else if chars_eq_str(&u, "HEAD") {
        Ok(HttpMethod::Head)
    } else if chars_eq_str(&u, "OPTIONS") {
        Ok(HttpMethod::Options)
    } else {
        let mut message = String::new();
        append_str(&mut message, "unsupported method: ");
        let name = string_from_chars(&u);
        append_str(&mut message, name.as_str());
        Err(HttpClientError::new(HttpErrorKind::UnsupportedMethod, message))
    }
}

/// Whether a request of this method carries the body: every method but
/// HEAD does.
pub fn sends_body(method: HttpMethod) -> (b: bool)
    ensures
        b == (method != HttpMethod::Head),
{
    !matches!(method, HttpMethod::Head)
}

/// The kind of a transport failure, from what the HTTP client reports of
/// it: a timeout first, then a failed connection, then a malformed request.
pub fn classify_transport_error(is_timeout: bool, is_connect: bool, is_request: bool) -> (k:
    HttpErrorKind)
    ensures
        k == if is_timeout {
            HttpErrorKind::Timeout
        } else if is_connect {
            HttpErrorKind::Connection
        } else if is_request {
            HttpErrorKind::Request
        } else {
            HttpErrorKind::Other
        },
{
    if is_timeout {
        HttpErrorKind::Timeout
    } else if is_connect {
        HttpErrorKind::Connection
    } else if is_request {
        HttpErrorKind::Request
    } else {
        HttpErrorKind::Other
    }
}

/// The words that begin the message of a transport failure of this kind.
pub fn transport_error_prefix(kind: HttpErrorKind) -> (s: &'static str)
    ensures
        s@ == match kind {
            HttpErrorKind::Timeout => "request timed out: "@,
            HttpErrorKind::Connection =>
                "connection failed, DNS failed, or target refused connection: "@,
            HttpErrorKind::Request => "invalid request: "@,
            _ => "HTTP client error: "@,
        },
{
    match kind {
        HttpErrorKind::Timeout => "request timed out: ",
        HttpErrorKind::Connection => "connection failed, DNS failed, or target refused connection: ",
        HttpErrorKind::Request => "invalid request: ",
        _ => "HTTP client error: ",
    }
}

/// Whether a transport failure of this kind is worth another attempt:
/// connection failures and timeouts are.
pub fn should_retry_error(kind: HttpErrorKind) -> (b: bool)
    ensures
        b == (kind == HttpErrorKind::Connection || kind == HttpErrorKind::Timeout),
{
    matches!(kind, HttpErrorKind::Connection | HttpErrorKind::Timeout)
}

/// What an attempt ended with.
#[derive(Debug, Clone, Copy, PartialEq, Eq, Structural)]
pub enum AttemptOutcome {
    /// No response: the request or the reading of its body failed.
    Failed(HttpErrorKind),
    /// A response with this status code.
    Responded(u16),
}

/// Whether an attempt that ended so is worth another: transient transport
/// failures and 5xx responses are.
pub open spec fn is_transient(outcome: AttemptOutcome) -> bool {
    match outcome {
        AttemptOutcome::Failed(k) => k == HttpErrorKind::Connection || k == HttpErrorKind::Timeout,
        AttemptOutcome::Responded(s) => 500 <= s && s <= 599,
    }
}

/// Whether to make another attempt after `attempts` attempts, the last of
/// which ended with `outcome`: only after a transient outcome, and only
/// while fewer than `retry.max_attempts()` attempts were made.
pub fn should_retry(retry: RetryConfig, attempts: usize, outcome: AttemptOutcome) -> (b: bool)
    ensures
        b == (is_transient(outcome) && (attempts as nat) < retry.max_attempts()),
{
    let max_attempts = retry.max_retries.saturating_add(1);
    let transient = match outcome {
        AttemptOutcome::Failed(k) => should_retry_error(k),
        AttemptOutcome::Responded(s) => 500 <= s && s <= 599,
    };
    transient && attempts < max_attempts
}

/// The attempts that a request takes when its attempts end, in order, with
/// `outcomes`, counting from attempt `i + 1`: `should_retry` decides after
/// each attempt whether another follows.
pub open spec fn attempts_taken(retry: RetryConfig, outcomes: Seq<AttemptOutcome>, i: nat) -> nat
    decreases outcomes.len() - i,
{
    if i >= outcomes.len() {
        i
    } else if is_transient(outcomes[i as int]) && i + 1 < retry.max_attempts() {
        attempts_taken(retry, outcomes, i + 1)
    } else {
        i + 1
    }
}

/// `--retry N` means one attempt and at most N retries: a request takes at
/// least one attempt and never more than `max_attempts`; it stops at the
/// first outcome that is not transient, so a 4xx response is never retried.
pub proof fn retries_are_bounded(retry: RetryConfig, outcomes: Seq<AttemptOutcome>, i: nat)
    requires
        i < outcomes.len(),
        i < retry.max_attempts(),
    ensures
        i + 1 <= attempts_taken(retry, outcomes, i) <= retry.max_attempts(),
        !is_transient(outcomes[i as int]) ==> attempts_taken(retry, outcomes, i) == i + 1,
        forall|j: int|
            i <= j < attempts_taken(retry, outcomes, i) - 1 ==> #[trigger] is_transient(
                outcomes[j],
            ),
    decreases outcomes.len() - i,
{
    let next = (i + 1) as nat;
    if is_transient(outcomes[i as int]) && next < retry.max_attempts() {
        if next < outcomes.len() {
            retries_are_bounded(retry, outcomes, next);
        } else {
            assert(attempts_taken(retry, outcomes, next) == next);
        }
        assert(attempts_taken(retry, outcomes, i) == attempts_taken(retry, outcomes, next));
    } else {
        assert(attempts_taken(retry, outcomes, i) == next);
    }
}

/// A 4xx response ends a request at once.
pub proof fn client_errors_are_not_retried(status: u16)
    requires
        400 <= status <= 499,
    ensures
        !is_transient(AttemptOutcome::Responded(status)),
{
}

/// Every 5xx response is retried while attempts are left: after attempt
/// number `attempts`, with at most `--retry` attempts made so far,
/// `should_retry` answers yes for any status from 500 to 599 (below the
/// machine limit of `usize::MAX` attempts).
pub proof fn server_errors_are_retried(retry: RetryConfig, attempts: usize, status: u16)
    requires
        500 <= status <= 599,
        attempts <= retry.max_retries,
        attempts < usize::MAX,
    ensures
        is_transient(AttemptOutcome::Responded(status)),
        (attempts as nat) < retry.max_attempts(),
{
}

/// Nothing else is retried: a retry follows only a 5xx response, a
/// connection failure or a timeout, and only after at most `--retry`
/// attempts; no retry follows once `--retry` retries were made.
pub proof fn only_transient_outcomes_are_retried(
    retry: RetryConfig,
    attempts: usize,
    outcome: AttemptOutcome,
)
    ensures
        is_transient(outcome) && (attempts as nat) < retry.max_attempts() ==> (match outcome {
            AttemptOutcome::Responded(s) => 500 <= s <= 599,
            AttemptOutcome::Failed(k) => k == HttpErrorKind::Connection || k
                == HttpErrorKind::Timeout,
        }) && attempts <= retry.max_retries,
        attempts > retry.max_retries ==> !((attempts as nat) < retry.max_attempts()),
{
}

/// What to do after an attempt.
#[derive(Debug, Clone, Copy, PartialEq, Eq, Structural)]
pub enum SendStep {
    /// Wait for the retry delay and try again.
    Retry,
    /// Hand back the response, with the attempts made.
    Respond(RetryStats),
    /// Hand back the failure, with the attempts made.
    Fail(RetryStats),
}

/// The step after attempt number `attempts` ended with `outcome`.
pub open spec fn step_after(retry: RetryConfig, attempts: usize, outcome: AttemptOutcome) -> SendStep {
    if is_transient(outcome) && (attempts as nat) < retry.max_attempts() {
        SendStep::Retry
    } else {
        match outcome {
            AttemptOutcome::Failed(_) => SendStep::Fail(
                RetryStats { total_attempts: attempts, retried: attempts > 1 },
            ),
            AttemptOutcome::Responded(_) => SendStep::Respond(
                RetryStats { total_attempts: attempts, retried: attempts > 1 },
            ),
        }
    }
}

/// A request whose attempts end, in order, with `outcomes` (enough of them
/// for every attempt it may make) is retried after each of its first
/// `attempts_taken - 1` attempts and stops after attempt number
/// `attempts_taken`, reporting that many attempts: the loop that follows
/// `after_attempt` makes exactly the attempts that `retries_are_bounded`
/// bounds.
pub proof fn send_loop_makes_attempts_taken(retry: RetryConfig, outcomes: Seq<AttemptOutcome>)
    requires
        outcomes.len() >= retry.max_attempts(),
    ensures
        ({
            let n = attempts_taken(retry, outcomes, 0);
            &&& 1 <= n <= retry.max_attempts()
            &&& forall|k: usize|
                1 <= k < n ==> #[trigger] step_after(retry, k, outcomes[k - 1]) == SendStep::Retry
            &&& step_after(retry, n as usize, outcomes[n - 1]) != SendStep::Retry
            &&& match step_after(retry, n as usize, outcomes[n - 1]) {
                SendStep::Respond(stats) => stats.total_attempts == n && outcomes[n - 1] is Responded,
                SendStep::Fail(stats) => stats.total_attempts == n && outcomes[n - 1] is Failed,
                SendStep::Retry => false,
            }
        }),
{
    assert(retry.max_attempts() >= 1);
    retries_are_bounded(retry, outcomes, 0);
    lemma_attempts_taken_stops(retry, outcomes, 0);
    let n = attempts_taken(retry, outcomes, 0);
    assert forall|k: usize| 1 <= k < n implies #[trigger] step_after(retry, k, outcomes[k - 1])
        == SendStep::Retry by {
        assert(is_transient(outcomes[k - 1]));
    }
}

/// Where `attempts_taken` stops, the last outcome is final: it is not
/// transient, or no attempt is left.
proof fn lemma_attempts_taken_stops(retry: RetryConfig, outcomes: Seq<AttemptOutcome>, i: nat)
    requires
        i < outcomes.len(),
        i < retry.max_attempts(),
        outcomes.len() >= retry.max_attempts(),
    ensures
        !(is_transient(outcomes[attempts_taken(retry, outcomes, i) - 1])
            && attempts_taken(retry, outcomes, i) < retry.max_attempts()),
        i + 1 <= attempts_taken(retry, outcomes, i) <= retry.max_attempts(),
    decreases outcomes.len() - i,
{
    retries_are_bounded(retry, outcomes, i);
    let next = (i + 1) as nat;
    if is_transient(outcomes[i as int]) && next < retry.max_attempts() {
        lemma_attempts_taken_stops(retry, outcomes, next);
        assert(attempts_taken(retry, outcomes, i) == attempts_taken(retry, outcomes, next));
    } else {
        assert(attempts_taken(retry, outcomes, i) == next);
    }
}

/// After attempt number `attempts` ended with `outcome`: retry while the
/// outcome is transient and attempts are left, else stop with the
/// response or the failure and the number of attempts made.
pub fn after_attempt(retry: RetryConfig, attempts: usize, outcome: AttemptOutcome) -> (step: SendStep)
    ensures
        step == step_after(retry, attempts, outcome),
{
    if should_retry(retry, attempts, outcome) {
        SendStep::Retry
    } else {
        match outcome {
            AttemptOutcome::Failed(_) => SendStep::Fail(retry_stats(attempts)),
            AttemptOutcome::Responded(_) => SendStep::Respond(retry_stats(attempts)),
        }
    }
}

/// Whether a character may stand in a header name: an ASCII letter or
/// digit, or one of ``!#$%&'*+-.^_`|~``.
pub open spec fn header_name_char_ok(c: char) -> bool {
    ||| ('a' <= c && c <= 'z')
    ||| ('A' <= c && c <= 'Z')
    ||| ('0' <= c && c <= '9')
    ||| c == '!' || c == '#' || c == '$' || c == '%' || c == '&' || c == '\''
    ||| c == '*' || c == '+' || c == '-' || c == '.' || c == '^' || c == '_'
    ||| c == '`' || c == '|' || c == '~'
}

/// Whether `HeaderName::from_bytes` accepts a name: one to 65535
/// characters, each allowed in a header name.
pub open spec fn header_name_is_valid(name: Seq<char>) -> bool {
    &&& 1 <= name.len() <= 65535
    &&& forall|i: int| 0 <= i < name.len() ==> header_name_char_ok(#[trigger] name[i])
}

/// Whether a character may stand in a header value: visible ASCII, a
/// space or a tab, or any character outside ASCII (its bytes are all 128
/// or more).
pub open spec fn header_value_char_ok(c: char) -> bool {
    (c as u32 >= 32 && c as u32 != 127) || c == '\t'
}

/// Whether `HeaderValue::from_str` accepts a value.
pub open spec fn header_value_is_valid(value: Seq<char>) -> bool {
    forall|i: int| 0 <= i < value.len() ==> header_value_char_ok(#[trigger] value[i])
}

/// `HeaderName::from_bytes` on the bytes of `name`: whether it is a valid
/// header name. The source accepts one to 65535 bytes, each of which its
/// table of header characters maps to a non-zero byte: the ASCII letters
/// and digits and ``!#$%&'*+-.^_`|~``; a byte of a character outside ASCII
/// is refused.
#[verifier::external_body]
fn check_header_name(name: &str) -> (ok: bool)
    ensures
        ok == header_name_is_valid(name@),
{
    reqwest::header::HeaderName::from_bytes(name.as_bytes()).is_ok()
}

/// `HeaderValue::from_str`: every byte of the value must be at least 32
/// and not 127, or a tab.
#[verifier::external_body]
fn check_header_value(value: &str) -> (ok: bool)
    ensures
        ok == header_value_is_valid(value@),
{
    reqwest::header::HeaderValue::from_str(value).is_ok()
}

/// The index of the first header, from `i` on, whose name or value is
/// refused; the length when there is none.
pub open spec fn first_bad_request_header(headers: Seq<(Seq<char>, Seq<char>)>, i: int) -> int
    decreases headers.len() - i,
{
    if i < 0 || i >= headers.len() {
        headers.len() as int
    } else if !header_name_is_valid(headers[i].0) || !header_value_is_valid(headers[i].1) {
        i
    } else {
        first_bad_request_header(headers, i + 1)
    }
}

/// The message of a refused header.
pub open spec fn bad_header_message(name: Seq<char>, value: Seq<char>) -> Seq<char> {
    if !header_name_is_valid(name) {
        "invalid header name `"@ + name + "`: invalid HTTP header name"@
    } else {
        "invalid header value for `"@ + name + "`: failed to parse header value"@
    }
}

/// The texts of header pairs.
pub open spec fn header_pairs_text(h: Seq<(String, String)>) -> Seq<(Seq<char>, Seq<char>)> {
    h.map_values(|p: (String, String)| (p.0@, p.1@))
}

/// Checks the headers of a request in order: the first whose name or
/// value the HTTP library refuses gives a `Request` error that names it.
pub fn check_request_headers(headers: &Vec<(String, String)>) -> (r: Result<(), HttpClientError>)
    ensures
        ({
            let h = header_pairs_text(headers@);
            let i = first_bad_request_header(h, 0);
            match r {
                Ok(()) => i == h.len(),
                Err(e) => i < h.len() && e.kind_spec() == HttpErrorKind::Request
                    && e.message_spec() == bad_header_message(h[i].0, h[i].1)
                    && e.retry_stats_spec() == (RetryStats { total_attempts: 0, retried: false }),
            }
        }),
{
    let ghost h = header_pairs_text(headers@);
    let mut i: usize = 0;
    while i < headers.len()
        invariant
            i <= headers@.len(),
            h == header_pairs_text(headers@),
            first_bad_request_header(h, 0) == first_bad_request_header(h, i as int),
        decreases headers.len() - i,
    {
        let key = headers[i].0.as_str();
        let value = headers[i].1.as_str();
        if !check_header_name(key) {
            let mut m = String::new();
            append_str(&mut m, "invalid header name `");
            append_str(&mut m, key);
            append_str(&mut m, "`: invalid HTTP header name");
            return Err(HttpClientError::new(HttpErrorKind::Request, m));
        }
        if !check_header_value(value) {
            let mut m = String::new();
            append_str(&mut m, "invalid header value for `");
            append_str(&mut m, key);
            append_str(&mut m, "`: failed to parse header value");
            return Err(HttpClientError::new(HttpErrorKind::Request, m));
        }
        i = i + 1;
    }
    Ok(())
}

} // verus!
