//! How command-line arguments and the configuration file combine into the
//! settings of a run. Arguments given on the command line win over the
//! configuration file, which wins over the defaults.

use vstd::prelude::*;
use crate::text::{
    chars_of, eq_ignore_ascii_case, eq_ignore_case, parse_unsigned, parse_unsigned_spec,
    string_from_chars, string_of, trim_bounds, trim_seq, trimmed_chars, u64_to_string,
    decimal_seq, chars_eq_str, lemma_trim_idempotent, is_digit, trim_start_seq, trim_end_seq,
};
use crate::config::{
    append_str, copy_range, find_char, find_char_index, find_from, lemma_find_from,
    normalize_method, parse_duration, parse_duration_spec, parse_header, parse_header_spec,
    parse_output_format, validate_method, is_supported_method, output_format_spec, ClankConfig,
    DurationError, DurationFault, HeaderError, HeaderFault, MethodError, OutputFormat,
    OutputFormatError, DEFAULT_CONFIG_FILE,
};
use crate::rate_limit::{RateLimitConfig, lemma_decimal_digits};
use crate::validation::ValidationConfig;

verus! {

/// The command-line arguments of a run. Durations are in milliseconds.
#[derive(Debug, Clone)]
pub struct Cli {
    pub target_url: Option<String>,
    pub url: Option<String>,
    pub config: Option<String>,
    pub no_config: bool,
    pub method: Option<String>,
    pub body: Option<String>,
    pub body_file: Option<String>,
    pub content_type: Option<String>,
    pub headers: Vec<String>,
    pub expect_status: Option<String>,
    pub expect_body: Option<String>,
    pub expect_headers: Vec<String>,
    pub concurrency: Option<usize>,
    pub rate_limit: Option<RateLimitConfig>,
    pub requests: Option<usize>,
    pub duration: Option<u128>,
    pub ramp_up: Option<u128>,
    pub ramp_up_step: usize,
    pub retry: usize,
    pub retry_delay: u128,
    pub timeout_secs: Option<u64>,
    pub output: Option<OutputFormat>,
    pub insecure: bool,
    pub keep_alive: bool,
    pub no_keep_alive: bool,
    pub quiet: bool,
    pub stats_interval_ms: u64,
    pub no_color: bool,
}

/// Why the settings of a run could not be resolved.
#[derive(Debug, Clone, PartialEq, Eq)]
pub enum CliError {
    RequestsAndDuration,
    ConfigAndNoConfig,
    ZeroStatsInterval,
    ZeroRampUpStep,
    DuplicateUrl,
    MissingUrl,
    BodyConflict,
    EmptyContentType,
    ZeroTimeout,
    Header(HeaderError),
    Method(MethodError),
    Status(StatusError),
    Output(OutputFormatError),
}

impl CliError {
    pub open spec fn message(&self) -> Seq<char> {
        match self {
            CliError::RequestsAndDuration => "use either --requests or --duration, not both"@,
            CliError::ConfigAndNoConfig => "use either --config or --no-config, not both"@,
            CliError::ZeroStatsInterval => "--stats-interval-ms must be greater than 0"@,
            CliError::ZeroRampUpStep => "--ramp-up-step must be greater than 0"@,
            CliError::DuplicateUrl =>
                "provide target URL either as positional argument or --url, not both"@,
            CliError::MissingUrl => "target URL is required. Usage: clank-cli <URL> -c 10 -d 5s"@,
            CliError::BodyConflict => "use either --body or --body-file, not both"@,
            CliError::EmptyContentType => "content type cannot be empty"@,
            CliError::ZeroTimeout => "timeout_secs must be greater than 0"@,
            CliError::Header(e) => e.message(),
            CliError::Method(e) => e.message(),
            CliError::Status(e) => e.message(),
            CliError::Output(e) => e.message(),
        }
    }

    /// The error's message.
    pub fn to_string(&self) -> (s: String)
        ensures
            s@ == self.message(),
    {
        match self {
            CliError::Header(e) => e.to_string(),
            CliError::Method(e) => e.to_string(),
            CliError::Status(e) => e.to_string(),
            CliError::Output(e) => e.to_string(),
            _ => {
                let mut s = String::new();
                match self {
                    CliError::RequestsAndDuration => append_str(
                        &mut s,
                        "use either --requests or --duration, not both",
                    ),
                    CliError::ConfigAndNoConfig => append_str(
                        &mut s,
                        "use either --config or --no-config, not both",
                    ),
                    CliError::ZeroStatsInterval => append_str(
                        &mut s,
                        "--stats-interval-ms must be greater than 0",
                    ),
                    CliError::ZeroRampUpStep => append_str(
                        &mut s,
                        "--ramp-up-step must be greater than 0",
                    ),
                    CliError::DuplicateUrl => append_str(
                        &mut s,
                        "provide target URL either as positional argument or --url, not both",
                    ),
                    CliError::MissingUrl => append_str(
                        &mut s,
                        "target URL is required. Usage: clank-cli <URL> -c 10 -d 5s",
                    ),
                    CliError::BodyConflict => append_str(
                        &mut s,
                        "use either --body or --body-file, not both",
                    ),
                    CliError::EmptyContentType => append_str(&mut s, "content type cannot be empty"),
                    _ => append_str(&mut s, "timeout_secs must be greater than 0"),
                }
                s
            },
        }
    }
}

/// The checks made on the arguments before anything is read: at most one
/// of `--requests` and `--duration`, at most one of `--config` and
/// `--no-config`, a positive stats interval and a positive ramp-up step.
pub fn check_arguments(cli: &Cli) -> (r: Result<(), CliError>)
    ensures
        match r {
            Ok(()) => !(cli.requests is Some && cli.duration is Some) && !(cli.config is Some
                && cli.no_config) && cli.stats_interval_ms != 0 && cli.ramp_up_step != 0,
            Err(CliError::RequestsAndDuration) => cli.requests is Some && cli.duration is Some,
            Err(CliError::ConfigAndNoConfig) => !(cli.requests is Some && cli.duration is Some)
                && cli.config is Some && cli.no_config,
            Err(CliError::ZeroStatsInterval) => !(cli.requests is Some && cli.duration is Some)
                && !(cli.config is Some && cli.no_config) && cli.stats_interval_ms == 0,
            Err(CliError::ZeroRampUpStep) => !(cli.requests is Some && cli.duration is Some)
                && !(cli.config is Some && cli.no_config) && cli.stats_interval_ms != 0
                && cli.ramp_up_step == 0,
            Err(_) => false,
        },
{
    if cli.requests.is_some() && cli.duration.is_some() {
        return Err(CliError::RequestsAndDuration);
    }
    if cli.config.is_some() && cli.no_config {
        return Err(CliError::ConfigAndNoConfig);
    }
    if cli.stats_interval_ms == 0 {
        return Err(CliError::ZeroStatsInterval);
    }
    if cli.ramp_up_step == 0 {
        return Err(CliError::ZeroRampUpStep);
    }
    Ok(())
}

/// The configuration file to read: none with `--no-config`, else the one
/// named by `--config`, else `clank.yaml`.
pub fn config_path(cli: &Cli) -> (p: Option<String>)
    ensures
        cli.no_config ==> p is None,
        !cli.no_config ==> match cli.config {
            Some(c) => p matches Some(x) && x@ == c@,
            None => p matches Some(x) && x@ == DEFAULT_CONFIG_FILE@,
        },
{
    if cli.no_config {
        return None;
    }
    match &cli.config {
        Some(c) => Some(c.clone()),
        None => Some(String::from_str(DEFAULT_CONFIG_FILE)),
    }
}

/// The target URL: the positional argument or `--url` (not both), else the
/// configuration's.
pub fn resolve_url(cli: &Cli, config: Option<&ClankConfig>) -> (r: Result<String, CliError>)
    ensures
        match (cli.target_url, cli.url) {
            (Some(_), Some(_)) => r == Err::<String, CliError>(CliError::DuplicateUrl),
            (Some(u), None) => r matches Ok(x) && x@ == u@,
            (None, Some(u)) => r matches Ok(x) && x@ == u@,
            (None, None) => match config {
                Some(c) => r matches Ok(x) && x@ == c.url@,
                None => r == Err::<String, CliError>(CliError::MissingUrl),
            },
        },
{
    match (&cli.target_url, &cli.url) {
        (Some(_), Some(_)) => Err(CliError::DuplicateUrl),
        (Some(u), None) => Ok(u.clone()),
        (None, Some(u)) => Ok(u.clone()),
        (None, None) => match config {
            Some(c) => Ok(c.url.clone()),
            None => Err(CliError::MissingUrl),
        },
    }
}

/// The method asked for before normalization: `--method`, else the
/// configuration's, else `GET`.
pub open spec fn method_choice(cli: &Cli, config: Option<&ClankConfig>) -> Seq<char> {
    match cli.method {
        Some(m) => m@,
        None => match config {
            Some(c) => c.method@,
            None => "GET"@,
        },
    }
}

/// The request method, normalized and checked by `validate_method`.
pub fn resolve_method(cli: &Cli, config: Option<&ClankConfig>) -> (r: Result<String, MethodError>)
    ensures
        match r {
            Ok(m) => m@ == normalize_method(method_choice(cli, config)) && is_supported_method(m@),
            Err(MethodError::Empty) => normalize_method(method_choice(cli, config)).len() == 0,
            Err(MethodError::Unsupported(m)) => m@ == normalize_method(method_choice(cli, config))
                && !is_supported_method(m@),
        },
{
    match &cli.method {
        Some(m) => validate_method(m.as_str()),
        None => match config {
            Some(c) => validate_method(c.method.as_str()),
            None => validate_method("GET"),
        },
    }
}

/// Where the request body comes from.
#[derive(Debug, Clone, PartialEq, Eq)]
pub enum BodySource {
    /// No body.
    Absent,
    /// The body given as text.
    Inline(String),
    /// The body held by the file at this path.
    File(String),
}

/// The request body: `--body` or `--body-file` (not both), else the
/// configuration's body file, else its inline body.
pub fn resolve_body(cli: &Cli, config: Option<&ClankConfig>) -> (r: Result<BodySource, CliError>)
    ensures
        cli.body is Some && cli.body_file is Some ==> r == Err::<BodySource, CliError>(
            CliError::BodyConflict,
        ),
        !(cli.body is Some && cli.body_file is Some) ==> match cli.body {
            Some(b) => r matches Ok(BodySource::Inline(x)) && x@ == b@,
            None => match cli.body_file {
                Some(f) => r matches Ok(BodySource::File(x)) && x@ == f@,
                None => match config {
                    Some(c) => match c.body_file {
                        Some(f) => r matches Ok(BodySource::File(x)) && x@ == f@,
                        None => match c.body {
                            Some(b) => r matches Ok(BodySource::Inline(x)) && x@ == b@,
                            None => r == Ok::<BodySource, CliError>(BodySource::Absent),
                        },
                    },
                    None => r == Ok::<BodySource, CliError>(BodySource::Absent),
                },
            },
        },
{
    if cli.body.is_some() && cli.body_file.is_some() {
        return Err(CliError::BodyConflict);
    }
    if let Some(b) = &cli.body {
        return Ok(BodySource::Inline(b.clone()));
    }
    if let Some(f) = &cli.body_file {
        return Ok(BodySource::File(f.clone()));
    }
    if let Some(c) = config {
        if let Some(f) = &c.body_file {
            return Ok(BodySource::File(f.clone()));
        }
        if let Some(b) = &c.body {
            return Ok(BodySource::Inline(b.clone()));
        }
    }
    Ok(BodySource::Absent)
}

/// A header as a pair of texts.
pub open spec fn pair_view(p: (String, String)) -> (Seq<char>, Seq<char>) {
    (p.0@, p.1@)
}

/// Headers as pairs of texts.
pub open spec fn pairs_view(v: Seq<(String, String)>) -> Seq<(Seq<char>, Seq<char>)> {
    v.map_values(|p: (String, String)| pair_view(p))
}

/// Texts of a list of strings.
pub open spec fn texts_view(v: Seq<String>) -> Seq<Seq<char>> {
    v.map_values(|s: String| s@)
}

/// The headers parsed from `hs[i..]`, or the refusal of the first one that
/// `parse_header` refuses.
pub open spec fn headers_from(hs: Seq<Seq<char>>, i: int) -> Result<
    Seq<(Seq<char>, Seq<char>)>,
    HeaderFault,
>
    decreases hs.len() - i,
{
    if i < 0 || i >= hs.len() {
        Ok(Seq::empty())
    } else {
        match parse_header_spec(hs[i]) {
            Err(f) => Err(f),
            Ok(p) => match headers_from(hs, i + 1) {
                Ok(rest) => Ok(seq![p] + rest),
                Err(f) => Err(f),
            },
        }
    }
}

/// `out` followed by the headers of `r`, or the refusal in `r`.
pub open spec fn after(out: Seq<(Seq<char>, Seq<char>)>, r: Result<Seq<(Seq<char>, Seq<char>)>, HeaderFault>) -> Result<Seq<(Seq<char>, Seq<char>)>, HeaderFault> {
    match r {
        Ok(rest) => Ok(out + rest),
        Err(f) => Err(f),
    }
}

/// Parses every header of `headers` with `parse_header`, stopping at the
/// first that it refuses.
pub fn parse_headers(headers: &Vec<String>) -> (r: Result<Vec<(String, String)>, HeaderError>)
    ensures
        match r {
            Ok(v) => headers_from(texts_view(headers@), 0) == Ok::<
                Seq<(Seq<char>, Seq<char>)>,
                HeaderFault,
            >(pairs_view(v@)),
            Err(e) => headers_from(texts_view(headers@), 0) == Err::<
                Seq<(Seq<char>, Seq<char>)>,
                HeaderFault,
            >(e.fault()),
        },
{
    let ghost hs = texts_view(headers@);
    let mut out: Vec<(String, String)> = Vec::new();
    let mut i: usize = 0;
    while i < headers.len()
        invariant
            i <= headers@.len(),
            hs == texts_view(headers@),
            headers_from(hs, 0) == after(pairs_view(out@), headers_from(hs, i as int)),
        decreases headers.len() - i,
    {
        proof {
            assert(hs[i as int] == headers@[i as int]@);
        }
        match parse_header(headers[i].as_str()) {
            Err(e) => {
                return Err(e);
            },
            Ok(p) => {
                let ghost before = pairs_view(out@);
                out.push(p);
                proof {
                    assert(pairs_view(out@) =~= before + seq![pair_view(p)]);
                    match headers_from(hs, i + 1) {
                        Ok(rest) => {
                            assert(before + (seq![pair_view(p)] + rest) =~= pairs_view(out@)
                                + rest);
                        },
                        Err(_) => {},
                    }
                }
            },
        }
        i = i + 1;
    }
    proof {
        assert(pairs_view(out@) + Seq::<(Seq<char>, Seq<char>)>::empty() =~= pairs_view(out@));
    }
    Ok(out)
}

/// Whether some `Key: Value` text in `hs` has the key `key`, compared
/// trimmed and without regard to ASCII case.
pub open spec fn has_header_key(hs: Seq<Seq<char>>, key: Seq<char>) -> bool {
    exists|i: int|
        0 <= i < hs.len() && find_char(#[trigger] hs[i], ':') >= 0 && eq_ignore_case(
            trim_seq(hs[i].subrange(0, find_char(hs[i], ':'))),
            key,
        )
}

/// Whether one of the `Key: Value` texts has the key `key`, ASCII case
/// ignored.
pub fn headers_contain_key(headers: &Vec<String>, expected_key: &str) -> (b: bool)
    ensures
        b == has_header_key(texts_view(headers@), expected_key@),
{
    let ghost hs = texts_view(headers@);
    let key = chars_of(expected_key);
    let mut i: usize = 0;
    while i < headers.len()
        invariant
            i <= headers@.len(),
            hs == texts_view(headers@),
            key@ == expected_key@,
            forall|j: int|
                0 <= j < i ==> !(find_char(#[trigger] hs[j], ':') >= 0 && eq_ignore_case(
                    trim_seq(hs[j].subrange(0, find_char(hs[j], ':'))),
                    key@,
                )),
        decreases headers.len() - i,
    {
        let v = chars_of(headers[i].as_str());
        proof {
            assert(hs[i as int] == v@);
        }
        match find_char_index(&v, ':') {
            Some(k) => {
                let before = copy_range(&v, 0, k);
                let (a, b) = trim_bounds(&before);
                let trimmed = copy_range(&before, a, b);
                if eq_ignore_ascii_case(&trimmed, &key) {
                    return true;
                }
            },
            None => {},
        }
        i = i + 1;
    }
    false
}

/// The content type to apply: `--content-type`, else none when a
/// command-line header already sets `Content-Type`, else the
/// configuration's.
pub open spec fn content_type_choice(cli: &Cli, config: Option<&ClankConfig>) -> Option<
    Seq<char>,
> {
    match cli.content_type {
        Some(c) => Some(c@),
        None => if has_header_key(texts_view(cli.headers@), "content-type"@) {
            None
        } else {
            match config {
                Some(c) => match c.content_type {
                    Some(ct) => Some(ct@),
                    None => None,
                },
                None => None,
            }
        },
    }
}

/// The content type to apply to the request headers, if any.
pub fn resolve_content_type(cli: &Cli, config: Option<&ClankConfig>) -> (r: Option<String>)
    ensures
        match r {
            Some(x) => content_type_choice(cli, config) == Some(x@),
            None => content_type_choice(cli, config) is None,
        },
{
    if let Some(c) = &cli.content_type {
        return Some(c.clone());
    }
    if headers_contain_key(&cli.headers, "content-type") {
        return None;
    }
    match config {
        Some(c) => match &c.content_type {
            Some(ct) => Some(ct.clone()),
            None => None,
        },
        None => None,
    }
}

/// `hs` without the headers whose key is `key`, ASCII case ignored.
pub open spec fn drop_key(hs: Seq<(Seq<char>, Seq<char>)>, key: Seq<char>) -> Seq<
    (Seq<char>, Seq<char>),
>
    decreases hs.len(),
{
    if hs.len() == 0 {
        hs
    } else {
        let r = drop_key(hs.drop_last(), key);
        if eq_ignore_case(hs.last().0, key) {
            r
        } else {
            r.push(hs.last())
        }
    }
}

/// Replaces every `Content-Type` header with one that holds the trimmed
/// `content_type`; a blank content type is refused and changes nothing.
pub fn apply_content_type_header(headers: &mut Vec<(String, String)>, content_type: &str) -> (r:
    Result<(), CliError>)
    ensures
        match r {
            Ok(()) => trim_seq(content_type@).len() > 0 && pairs_view(final(headers)@) == drop_key(
                pairs_view(old(headers)@),
                "content-type"@,
            ).push(("Content-Type"@, trim_seq(content_type@))),
            Err(e) => trim_seq(content_type@).len() == 0 && e == CliError::EmptyContentType
                && final(headers)@ == old(headers)@,
        },
{
    let t = trimmed_chars(content_type);
    if t.len() == 0 {
        return Err(CliError::EmptyContentType);
    }
    let key = chars_of("content-type");
    let ghost old_view = pairs_view(headers@);
    let mut kept: Vec<(String, String)> = Vec::new();
    let mut i: usize = 0;
    while i < headers.len()
        invariant
            i <= headers@.len(),
            key@ == "content-type"@,
            old_view == pairs_view(headers@),
            pairs_view(kept@) == drop_key(old_view.subrange(0, i as int), key@),
        decreases headers.len() - i,
    {
        let name = chars_of(headers[i].0.as_str());
        let keep = !eq_ignore_ascii_case(&name, &key);
        proof {
            let s = old_view.subrange(0, i + 1);
            assert(s.drop_last() =~= old_view.subrange(0, i as int));
            assert(s.last() == pair_view(headers@[i as int]));
        }
        if keep {
            let ghost before = pairs_view(kept@);
            let p = (headers[i].0.clone(), headers[i].1.clone());
            kept.push(p);
            proof {
                assert(pairs_view(kept@) =~= before.push(pair_view(p)));
            }
        }
        i = i + 1;
    }
    proof {
        assert(old_view.subrange(0, headers@.len() as int) =~= old_view);
    }
    let ghost before = pairs_view(kept@);
    let value = string_from_chars(&t);
    let p = (String::from_str("Content-Type"), value);
    kept.push(p);
    proof {
        assert(pairs_view(kept@) =~= before.push(pair_view(p)));
    }
    *headers = kept;
    Ok(())
}

/// The headers of a run, as `(key, value)` pairs.
pub open spec fn headers_choice(cli: &Cli, config: Option<&ClankConfig>) -> Result<
    Seq<(Seq<char>, Seq<char>)>,
    HeaderFault,
> {
    if cli.headers@.len() > 0 {
        headers_from(texts_view(cli.headers@), 0)
    } else {
        match config {
            Some(c) => headers_from(texts_view(c.headers@), 0),
            None => Ok(Seq::empty()),
        }
    }
}

/// The request headers: the command line's `--header`s when there are any,
/// else the configuration's, with the content type (see
/// `resolve_content_type`) replacing any `Content-Type` header.
pub fn resolve_headers(cli: &Cli, config: Option<&ClankConfig>) -> (r: Result<
    Vec<(String, String)>,
    CliError,
>)
    ensures
        match headers_choice(cli, config) {
            Err(f) => r matches Err(CliError::Header(e)) && e.fault() == f,
            Ok(base) => match content_type_choice(cli, config) {
                None => r matches Ok(v) && pairs_view(v@) == base,
                Some(ct) => if trim_seq(ct).len() == 0 {
                    r == Err::<Vec<(String, String)>, CliError>(CliError::EmptyContentType)
                } else {
                    r matches Ok(v) && pairs_view(v@) == drop_key(base, "content-type"@).push(
                        ("Content-Type"@, trim_seq(ct)),
                    )
                },
            },
        },
{
    let parsed = if cli.headers.len() > 0 {
        parse_headers(&cli.headers)
    } else {
        match config {
            Some(c) => parse_headers(&c.headers),
            None => Ok(Vec::new()),
        }
    };
    let mut headers = match parsed {
        Ok(h) => h,
        Err(e) => {
            return Err(CliError::Header(e));
        },
    };
    proof {
        if cli.headers@.len() == 0 && config is None {
            assert(pairs_view(headers@) =~= Seq::<(Seq<char>, Seq<char>)>::empty());
        }
    }
    match resolve_content_type(cli, config) {
        Some(ct) => {
            match apply_content_type_header(&mut headers, ct.as_str()) {
                Ok(()) => {},
                Err(e) => {
                    return Err(e);
                },
            }
        },
        None => {},
    }
    Ok(headers)
}

// ---------------------------------------------------------------------------
// Expected status codes
// ---------------------------------------------------------------------------

/// Why a list of expected status codes was refused.
pub enum StatusFault {
    Empty,
    Invalid(Seq<char>),
    OutOfRange(u16),
}

/// An error of `parse_expect_status`.
#[derive(Debug, Clone, PartialEq, Eq)]
pub enum StatusError {
    Empty,
    Invalid(String),
    OutOfRange(u16),
}

impl View for StatusError {
    type V = StatusFault;

    open spec fn view(&self) -> StatusFault {
        match self {
            StatusError::Empty => StatusFault::Empty,
            StatusError::Invalid(s) => StatusFault::Invalid(s@),
            StatusError::OutOfRange(c) => StatusFault::OutOfRange(*c),
        }
    }
}

impl StatusError {
    pub open spec fn message(&self) -> Seq<char> {
        match self {
            StatusError::Empty => "expected status code cannot be empty"@,
            StatusError::Invalid(s) => "invalid status code: "@ + s@,
            StatusError::OutOfRange(c) => "status code must be between 100 and 599: "@
                + decimal_seq(*c as nat),
        }
    }

    /// The error's message.
    pub fn to_string(&self) -> (s: String)
        ensures
            s@ == self.message(),
    {
        let mut s = String::new();
        match self {
            StatusError::Empty => append_str(&mut s, "expected status code cannot be empty"),
            StatusError::Invalid(x) => {
                append_str(&mut s, "invalid status code: ");
                append_str(&mut s, x.as_str());
            },
            StatusError::OutOfRange(c) => {
                append_str(&mut s, "status code must be between 100 and 599: ");
                let d = u64_to_string(*c as u64);
                append_str(&mut s, d.as_str());
            },
        }
        s
    }
}

/// The status code of one comma-separated item.
pub open spec fn status_item(seg: Seq<char>) -> Result<u16, StatusFault> {
    let t = trim_seq(seg);
    if t.len() == 0 {
        Err(StatusFault::Empty)
    } else {
        match parse_unsigned_spec(t, 65535) {
            None => Err(StatusFault::Invalid(t)),
            Some(v) => if v < 100 || v > 599 {
                Err(StatusFault::OutOfRange(v as u16))
            } else {
                Ok(v as u16)
            },
        }
    }
}

/// An expected status is a number from 100 to 599: written in decimal,
/// such a number is read as itself, and any other number up to 65535 is
/// refused as out of range.
pub proof fn status_items_are_http_codes(n: nat)
    requires
        n <= 65535,
    ensures
        100 <= n <= 599 ==> status_item(decimal_seq(n)) == Ok::<u16, StatusFault>(n as u16),
        !(100 <= n <= 599) ==> status_item(decimal_seq(n)) == Err::<u16, StatusFault>(
            StatusFault::OutOfRange(n as u16),
        ),
{
    let d = decimal_seq(n);
    lemma_decimal_digits(n);
    assert(is_digit(d[0]) && is_digit(d.last()));
    assert(trim_start_seq(d) == d);
    assert(trim_end_seq(d) == d);
    assert(d[0] != '+');
}

/// Every status that a list of expected statuses yields is from 100 to
/// 599.
pub proof fn expected_statuses_are_http_codes(s: Seq<char>, pos: int)
    requires
        statuses_from(s, pos) is Ok,
    ensures
        forall|i: int|
            0 <= i < statuses_from(s, pos)->Ok_0.len() ==> 100 <= #[trigger] statuses_from(
                s,
                pos,
            )->Ok_0[i] <= 599,
    decreases s.len() - pos,
{
    if 0 <= pos <= s.len() {
        let k = find_from(s, ',', pos);
        lemma_find_from(s, ',', pos);
        if k >= pos {
            expected_statuses_are_http_codes(s, k + 1);
        }
        let r = statuses_from(s, pos)->Ok_0;
        assert forall|i: int| 0 <= i < r.len() implies 100 <= #[trigger] r[i] <= 599 by {
            if i > 0 {
                assert(r[i] == statuses_from(s, k + 1)->Ok_0[i - 1]);
            }
        }
    }
}

/// The status codes of the comma-separated items of `s` from index `pos`
/// on, or the refusal of the first bad item.
pub open spec fn statuses_from(s: Seq<char>, pos: int) -> Result<Seq<u16>, StatusFault>
    decreases s.len() - pos,
{
    if pos < 0 || pos > s.len() {
        Ok(Seq::empty())
    } else {
        let k = find_from(s, ',', pos);
        let seg = if k < 0 {
            s.subrange(pos, s.len() as int)
        } else {
            s.subrange(pos, k)
        };
        match status_item(seg) {
            Err(f) => Err(f),
            Ok(v) => if k < pos {
                Ok(seq![v])
            } else {
                proof {
                    lemma_find_from(s, ',', pos);
                }
                match statuses_from(s, k + 1) {
                    Ok(rest) => Ok(seq![v] + rest),
                    Err(f) => Err(f),
                }
            },
        }
    }
}

pub open spec fn statuses_after(out: Seq<u16>, r: Result<Seq<u16>, StatusFault>) -> Result<
    Seq<u16>,
    StatusFault,
> {
    match r {
        Ok(rest) => Ok(out + rest),
        Err(f) => Err(f),
    }
}

/// Checks one item of a status list.
fn parse_status_item(v: &Vec<char>, from: usize, to: usize) -> (r: Result<u16, StatusError>)
    requires
        from <= to <= v@.len(),
    ensures
        match r {
            Ok(c) => status_item(v@.subrange(from as int, to as int)) == Ok::<u16, StatusFault>(c),
            Err(e) => status_item(v@.subrange(from as int, to as int)) == Err::<u16, StatusFault>(
                e@,
            ),
        },
{
    let seg = copy_range(v, from, to);
    let (a, b) = trim_bounds(&seg);
    if a == b {
        return Err(StatusError::Empty);
    }
    let t = copy_range(&seg, a, b);
    match parse_unsigned(&t, 65535) {
        None => Err(StatusError::Invalid(string_from_chars(&t))),
        Some(x) => {
            let c = x as u16;
            if c < 100 || c > 599 {
                Err(StatusError::OutOfRange(c))
            } else {
                Ok(c)
            }
        },
    }
}

/// Parses a comma-separated list of expected status codes, each between
/// 100 and 599, such as `200,201,204`.
pub fn parse_expect_status(input: &str) -> (r: Result<Vec<u16>, StatusError>)
    ensures
        match r {
            Ok(v) => statuses_from(input@, 0) == Ok::<Seq<u16>, StatusFault>(v@),
            Err(e) => statuses_from(input@, 0) == Err::<Seq<u16>, StatusFault>(e@),
        },
{
    let v = chars_of(input);
    let n = v.len();
    let mut out: Vec<u16> = Vec::new();
    let mut pos: usize = 0;
    loop
        invariant
            n == v@.len(),
            v@ == input@,
            pos <= n,
            statuses_from(v@, 0) == statuses_after(out@, statuses_from(v@, pos as int)),
        decreases n - pos,
    {
        proof {
            lemma_find_from(v@, ',', pos as int);
        }
        let mut k = pos;
        while k < n && v[k] != ','
            invariant
                n == v@.len(),
                pos <= k <= n,
                find_from(v@, ',', pos as int) == find_from(v@, ',', k as int),
            decreases n - k,
        {
            k = k + 1;
        }
        let end_found = k < n;
        let item = parse_status_item(&v, pos, k);
        match item {
            Err(e) => {
                return Err(e);
            },
            Ok(c) => {
                let ghost before = out@;
                out.push(c);
                if !end_found {
                    proof {
                        assert(out@ =~= before + seq![c]);
                        assert(before + seq![c] =~= out@ + Seq::<u16>::empty());
                    }
                    return Ok(out);
                }
                proof {
                    match statuses_from(v@, k + 1) {
                        Ok(rest) => {
                            assert(before + (seq![c] + rest) =~= out@ + rest);
                        },
                        Err(_) => {},
                    }
                }
                pos = k + 1;
            },
        }
    }
}

/// The response checks asked for on the command line.
pub fn resolve_validation(cli: &Cli) -> (r: Result<ValidationConfig, CliError>)
    ensures
        match r {
            Ok(vc) => (match cli.expect_status {
                None => vc.expect_status is None,
                Some(s) => vc.expect_status matches Some(l) && statuses_from(s@, 0) == Ok::<
                    Seq<u16>,
                    StatusFault,
                >(l@),
            }) && (match cli.expect_body {
                None => vc.expect_body is None,
                Some(b) => vc.expect_body matches Some(x) && x@ == b@,
            }) && (if cli.expect_headers@.len() == 0 {
                vc.expect_headers is None
            } else {
                vc.expect_headers matches Some(h) && headers_from(
                    texts_view(cli.expect_headers@),
                    0,
                ) == Ok::<Seq<(Seq<char>, Seq<char>)>, HeaderFault>(pairs_view(h@))
            }),
            Err(CliError::Status(e)) => cli.expect_status matches Some(s) && statuses_from(s@, 0)
                == Err::<Seq<u16>, StatusFault>(e@),
            Err(CliError::Header(e)) => (match cli.expect_status {
                None => true,
                Some(s) => statuses_from(s@, 0) is Ok,
            }) && cli.expect_headers@.len() > 0 && headers_from(texts_view(cli.expect_headers@), 0)
                == Err::<Seq<(Seq<char>, Seq<char>)>, HeaderFault>(e.fault()),
            Err(_) => false,
        },
{
    let expect_status = match &cli.expect_status {
        None => None,
        Some(s) => match parse_expect_status(s.as_str()) {
            Ok(l) => Some(l),
            Err(e) => {
                return Err(CliError::Status(e));
            },
        },
    };
    let expect_body = match &cli.expect_body {
        None => None,
        Some(b) => Some(b.clone()),
    };
    let expect_headers = if cli.expect_headers.len() == 0 {
        None
    } else {
        match parse_headers(&cli.expect_headers) {
            Ok(h) => Some(h),
            Err(e) => {
                return Err(CliError::Header(e));
            },
        }
    };
    Ok(ValidationConfig { expect_status, expect_body, expect_headers })
}

/// The number of workers: `--concurrency`, else the configuration's, else 10.
pub fn resolve_concurrency(cli: &Cli, config: Option<&ClankConfig>) -> (n: usize)
    ensures
        n == match cli.concurrency {
            Some(c) => c,
            None => match config {
                Some(c) => c.concurrency,
                None => 10,
            },
        },
{
    match cli.concurrency {
        Some(c) => c,
        None => match config {
            Some(c) => c.concurrency,
            None => 10,
        },
    }
}

/// The timeout in seconds: `--timeout-secs`, else the configuration's,
/// else 10.
pub fn resolve_timeout_secs(cli: &Cli, config: Option<&ClankConfig>) -> (n: u64)
    ensures
        n == match cli.timeout_secs {
            Some(c) => c,
            None => match config {
                Some(c) => c.timeout_secs,
                None => 10,
            },
        },
{
    match cli.timeout_secs {
        Some(c) => c,
        None => match config {
            Some(c) => c.timeout_secs,
            None => 10,
        },
    }
}

/// Whether certificate checks are off: `--insecure`, else the
/// configuration's setting.
pub fn resolve_insecure(cli: &Cli, config: Option<&ClankConfig>) -> (b: bool)
    ensures
        b == (cli.insecure || (config matches Some(c) && c.insecure)),
{
    if cli.insecure {
        true
    } else {
        match config {
            Some(c) => c.insecure,
            None => false,
        }
    }
}

/// The output format: `--output`, else the configuration's (checked by
/// `parse_output_format`), else text.
pub fn resolve_output_format(cli: &Cli, config: Option<&ClankConfig>) -> (r: Result<
    OutputFormat,
    OutputFormatError,
>)
    ensures
        match cli.output {
            Some(f) => r == Ok::<OutputFormat, OutputFormatError>(f),
            None => match config {
                Some(c) => match c.output {
                    Some(o) => match r {
                        Ok(f) => output_format_spec(o@) == Some(f),
                        Err(e) => output_format_spec(o@) is None && e.input@ == o@,
                    },
                    None => r == Ok::<OutputFormat, OutputFormatError>(OutputFormat::Text),
                },
                None => r == Ok::<OutputFormat, OutputFormatError>(OutputFormat::Text),
            },
        },
{
    if let Some(f) = cli.output {
        return Ok(f);
    }
    if let Some(c) = config {
        if let Some(o) = &c.output {
            return parse_output_format(o.as_str());
        }
    }
    Ok(OutputFormat::Text)
}

/// The rate limit: `--rate-limit`, else the configuration's, else none.
pub fn resolve_rate_limit(cli: &Cli, config: Option<&ClankConfig>) -> (r: Option<RateLimitConfig>)
    ensures
        r == match cli.rate_limit {
            Some(l) => Some(l),
            None => match config {
                Some(c) => c.rate_limit,
                None => None,
            },
        },
{
    match cli.rate_limit {
        Some(l) => Some(l),
        None => match config {
            Some(c) => c.rate_limit,
            None => None,
        },
    }
}

/// The ramp-up duration in milliseconds; a zero ramp-up means none.
pub fn resolve_ramp_up(cli: &Cli) -> (r: Option<u128>)
    ensures
        r == match cli.ramp_up {
            Some(d) => if d == 0 {
                None
            } else {
                Some(d)
            },
            None => None,
        },
{
    match cli.ramp_up {
        Some(d) => if d == 0 {
            None
        } else {
            Some(d)
        },
        None => None,
    }
}

/// The number of workers added at each ramp-up step.
pub fn resolve_ramp_up_step(cli: &Cli) -> (n: usize)
    ensures
        n == cli.ramp_up_step,
{
    cli.ramp_up_step
}

/// Whether connections are reused: on unless `--no-keep-alive` is given
/// without `--keep-alive`.
pub fn resolve_keep_alive(cli: &Cli) -> (b: bool)
    ensures
        b == (cli.keep_alive || !cli.no_keep_alive),
{
    cli.keep_alive || !cli.no_keep_alive
}

/// Whether a request of this method is worth a warning for having no body:
/// POST, PUT and PATCH without one.
pub fn body_is_missing(method: &str, has_body: bool) -> (b: bool)
    ensures
        b == (!has_body && (method@ == "POST"@ || method@ == "PUT"@ || method@ == "PATCH"@)),
{
    if has_body {
        return false;
    }
    let m = chars_of(method);
    chars_eq_str(&m, "POST") || chars_eq_str(&m, "PUT") || chars_eq_str(&m, "PATCH")
}

/// What a ramp-up argument means in milliseconds: `0`, `0s`, `0m` and `0h`
/// switch ramp-up off, anything else is a duration.
pub open spec fn ramp_up_arg_spec(value: Seq<char>) -> Result<nat, DurationFault> {
    let t = trim_seq(value);
    if t == "0"@ || t == "0s"@ || t == "0m"@ || t == "0h"@ {
        Ok(0)
    } else {
        parse_duration_spec(t)
    }
}

/// What a retry-delay argument means in milliseconds: `0`, `0ms`, `0s`,
/// `0m` and `0h` mean no delay, anything else is a duration.
pub open spec fn retry_delay_arg_spec(value: Seq<char>) -> Result<nat, DurationFault> {
    let t = trim_seq(value);
    if t == "0"@ || t == "0ms"@ || t == "0s"@ || t == "0m"@ || t == "0h"@ {
        Ok(0)
    } else {
        parse_duration_spec(t)
    }
}

/// Parses the `--ramp-up` argument into milliseconds.
pub fn parse_ramp_up_arg(value: &str) -> (r: Result<u128, DurationError>)
    ensures
        match r {
            Ok(ms) => ramp_up_arg_spec(value@) == Ok::<nat, DurationFault>(ms as nat),
            Err(e) => ramp_up_arg_spec(value@) == Err::<nat, DurationFault>(e@),
        },
        r matches Err(DurationError::InvalidFormat(x)) ==> x@ == trim_seq(value@),
        r matches Err(DurationError::MissingUnit(x)) ==> x@ == trim_seq(value@),
{
    let t = trimmed_chars(value);
    if chars_eq_str(&t, "0") || chars_eq_str(&t, "0s") || chars_eq_str(&t, "0m") || chars_eq_str(
        &t,
        "0h",
    ) {
        return Ok(0);
    }
    let s = string_from_chars(&t);
    proof {
        lemma_trim_idempotent(value@);
    }
    parse_duration(s.as_str())
}

/// Parses the `--retry-delay` argument into milliseconds.
pub fn parse_retry_delay_arg(value: &str) -> (r: Result<u128, DurationError>)
    ensures
        match r {
            Ok(ms) => retry_delay_arg_spec(value@) == Ok::<nat, DurationFault>(ms as nat),
            Err(e) => retry_delay_arg_spec(value@) == Err::<nat, DurationFault>(e@),
        },
        r matches Err(DurationError::InvalidFormat(x)) ==> x@ == trim_seq(value@),
        r matches Err(DurationError::MissingUnit(x)) ==> x@ == trim_seq(value@),
{
    let t = trimmed_chars(value);
    if chars_eq_str(&t, "0") || chars_eq_str(&t, "0ms") || chars_eq_str(&t, "0s") || chars_eq_str(
        &t,
        "0m",
    ) || chars_eq_str(&t, "0h") {
        return Ok(0);
    }
    let s = string_from_chars(&t);
    proof {
        lemma_trim_idempotent(value@);
    }
    parse_duration(s.as_str())
}

} // verus!
