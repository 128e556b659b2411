//! Response validation: expected status codes, a body pattern and headers.

use vstd::prelude::*;
use regex::Regex;
use crate::text::{chars_of, chars_eq, decimal_seq, eq_ignore_ascii_case, eq_ignore_case, u64_to_string};
use crate::config::append_str;
use crate::retry::HttpResponse;

verus! {

/// What a response is expected to hold. `None` means that aspect is not
/// checked.
#[derive(Debug, Clone, PartialEq, Eq)]
pub struct ValidationConfig {
    pub expect_status: Option<Vec<u16>>,
    pub expect_body: Option<String>,
    pub expect_headers: Option<Vec<(String, String)>>,
}

impl ValidationConfig {
    /// A configuration that checks nothing.
    pub fn new() -> (c: Self)
        ensures
            c.expect_status is None,
            c.expect_body is None,
            c.expect_headers is None,
    {
        ValidationConfig { expect_status: None, expect_body: None, expect_headers: None }
    }
}

impl Default for ValidationConfig {
    /// A configuration that checks nothing.
    fn default() -> (c: Self)
        ensures
            c.expect_status is None,
            c.expect_body is None,
            c.expect_headers is None,
    {
        ValidationConfig::new()
    }
}

/// The outcome of validating one response: the failures found, in the order
/// in which they were checked.
#[derive(Debug, Clone, PartialEq, Eq)]
pub struct ValidationResult {
    pub passed: bool,
    pub failures: Vec<String>,
}

impl Default for ValidationResult {
    /// No verdict yet: not passed, no failures.
    fn default() -> (r: Self)
        ensures
            !r.passed,
            r.failures@.len() == 0,
    {
        ValidationResult { passed: false, failures: Vec::new() }
    }
}

/// `Regex` of the regex crate.
#[verifier::external_type_specification]
#[verifier::external_body]
pub struct ExRegex(Regex);

/// What compiling a pattern with `Regex::new` gives: `None` when it
/// compiles, else the error's message.
pub uninterp spec fn regex_compile_error(pattern: Seq<char>) -> Option<Seq<char>>;

/// Whether the regex compiled from `pattern` matches somewhere in
/// `haystack` (`Regex::is_match`).
pub uninterp spec fn regex_is_match(pattern: Seq<char>, haystack: Seq<char>) -> bool;

/// A compiled body pattern, with the text it was compiled from.
pub struct BodyPattern {
    pattern: String,
    regex: Regex,
}

impl BodyPattern {
    pub closed spec fn pattern_spec(&self) -> Seq<char> {
        self.pattern@
    }
}

/// `Regex::new`: compiles a pattern, or gives the message of the error
/// that refused it.
#[verifier::external_body]
fn compile_body_pattern(pattern: &str) -> (r: Result<BodyPattern, String>)
    ensures
        match r {
            Ok(p) => regex_compile_error(pattern@) is None && p.pattern_spec() == pattern@,
            Err(e) => regex_compile_error(pattern@) == Some(e@),
        },
{
    match Regex::new(pattern) {
        Ok(regex) => Ok(BodyPattern { pattern: pattern.to_string(), regex }),
        Err(error) => Err(error.to_string()),
    }
}

/// `Regex::is_match` on the pattern's compiled regex.
#[verifier::external_body]
fn body_pattern_matches(p: &BodyPattern, haystack: &str) -> (b: bool)
    ensures
        b == regex_is_match(p.pattern_spec(), haystack@),
{
    p.regex.is_match(haystack)
}

/// The items of a status list as `{:?}` prints them, between the brackets.
pub open spec fn status_items_text(s: Seq<u16>) -> Seq<char>
    decreases s.len(),
{
    if s.len() == 0 {
        Seq::empty()
    } else if s.len() == 1 {
        decimal_seq(s[0] as nat)
    } else {
        status_items_text(s.drop_last()) + ", "@ + decimal_seq(s.last() as nat)
    }
}

/// The failure for a status that is not among the expected ones.
pub open spec fn status_failure(expected: Seq<u16>, actual: u16) -> Seq<char> {
    "expected status ["@ + status_items_text(expected) + "], got "@ + decimal_seq(actual as nat)
}

/// The failure, if any, of a body against a pattern.
pub open spec fn body_failure(pattern: Seq<char>, body: Seq<char>) -> Option<Seq<char>> {
    match regex_compile_error(pattern) {
        Some(e) => Some("invalid body regex `"@ + pattern + "`: "@ + e),
        None => if regex_is_match(pattern, body) {
            None
        } else {
            Some("expected body to match pattern `"@ + pattern + "`"@)
        },
    }
}

/// The index of the first header whose name equals `key` when ASCII case
/// is ignored, counting from `i`; the length when there is none.
pub open spec fn first_header_from(headers: Seq<(Seq<char>, Option<Seq<char>>)>, key: Seq<char>, i: int) -> int
    decreases headers.len() - i,
{
    if i >= headers.len() || i < 0 {
        headers.len() as int
    } else if eq_ignore_case(headers[i].0, key) {
        i
    } else {
        first_header_from(headers, key, i + 1)
    }
}

/// The value of the first header named `key` (ASCII case ignored), if
/// there is one and it is readable.
pub open spec fn header_value_spec(headers: Seq<(Seq<char>, Option<Seq<char>>)>, key: Seq<char>) -> Option<Seq<char>> {
    let i = first_header_from(headers, key, 0);
    if i < headers.len() {
        headers[i].1
    } else {
        None
    }
}

/// The failure, if any, of one expected header.
pub open spec fn header_failure(headers: Seq<(Seq<char>, Option<Seq<char>>)>, key: Seq<char>, expected: Seq<char>) -> Option<Seq<char>> {
    match header_value_spec(headers, key) {
        Some(actual) => if actual == expected {
            None
        } else {
            Some("expected header `"@ + key + ": "@ + expected + "`, got `"@ + key + ": "@ + actual + "`"@)
        },
        None => Some("expected header `"@ + key + ": "@ + expected + "`"@),
    }
}

/// The failures of the expected headers, in order.
pub open spec fn header_failures(headers: Seq<(Seq<char>, Option<Seq<char>>)>, expected: Seq<(Seq<char>, Seq<char>)>) -> Seq<Seq<char>>
    decreases expected.len(),
{
    if expected.len() == 0 {
        Seq::empty()
    } else {
        let rest = header_failures(headers, expected.drop_last());
        match header_failure(headers, expected.last().0, expected.last().1) {
            Some(f) => rest.push(f),
            None => rest,
        }
    }
}

pub open spec fn option_seq(o: Option<Seq<char>>) -> Seq<Seq<char>> {
    match o {
        Some(f) => seq![f],
        None => Seq::empty(),
    }
}

/// Whether the first header named `key` (ASCII case ignored) is there
/// and holds exactly `value`.
pub open spec fn first_header_holds(
    headers: Seq<(Seq<char>, Option<Seq<char>>)>,
    key: Seq<char>,
    value: Seq<char>,
) -> bool {
    exists|i: int|
        0 <= i < headers.len() && eq_ignore_case(#[trigger] headers[i].0, key) && headers[i].1
            == Some(value) && forall|j: int|
            0 <= j < i ==> !eq_ignore_case(#[trigger] headers[j].0, key)
}

proof fn lemma_first_header_from(
    headers: Seq<(Seq<char>, Option<Seq<char>>)>,
    key: Seq<char>,
    i: int,
)
    requires
        0 <= i <= headers.len(),
    ensures
        i <= first_header_from(headers, key, i) <= headers.len(),
        first_header_from(headers, key, i) < headers.len() ==> eq_ignore_case(
            headers[first_header_from(headers, key, i)].0,
            key,
        ),
        forall|j: int|
            i <= j < first_header_from(headers, key, i) ==> !eq_ignore_case(
                #[trigger] headers[j].0,
                key,
            ),
    decreases headers.len() - i,
{
    if i < headers.len() && !eq_ignore_case(headers[i].0, key) {
        lemma_first_header_from(headers, key, i + 1);
    }
}

/// An expected header adds no failure exactly when the first header of
/// that name (ASCII case ignored) is there and holds the expected value;
/// a header that is missing, unreadable or holds any other value (even
/// one of the same length) is a failure.
pub proof fn header_passes_only_with_its_value(
    headers: Seq<(Seq<char>, Option<Seq<char>>)>,
    key: Seq<char>,
    expected: Seq<char>,
)
    ensures
        header_failure(headers, key, expected) is None <==> first_header_holds(
            headers,
            key,
            expected,
        ),
{
    lemma_first_header_from(headers, key, 0);
    let r = first_header_from(headers, key, 0);
    if first_header_holds(headers, key, expected) {
        let i = choose|i: int|
            0 <= i < headers.len() && eq_ignore_case(#[trigger] headers[i].0, key)
                && headers[i].1 == Some(expected) && forall|j: int|
                0 <= j < i ==> !eq_ignore_case(#[trigger] headers[j].0, key);
        if i < r {
            assert(!eq_ignore_case(headers[i].0, key));
        } else if i > r {
            assert(!eq_ignore_case(headers[r].0, key));
        }
    } else if r < headers.len() && headers[r].1 == Some(expected) {
        assert(eq_ignore_case(headers[r].0, key) && headers[r].1 == Some(expected) && forall|
            j: int,
        | 0 <= j < r ==> !eq_ignore_case(#[trigger] headers[j].0, key));
    }
}

/// The expected headers add no failure exactly when, for each of them,
/// the first header of that name holds the expected value; each one that
/// does not adds one failure.
pub proof fn headers_pass_only_with_their_values(
    headers: Seq<(Seq<char>, Option<Seq<char>>)>,
    expected: Seq<(Seq<char>, Seq<char>)>,
)
    ensures
        header_failures(headers, expected).len() == 0 <==> forall|j: int|
            0 <= j < expected.len() ==> first_header_holds(
                headers,
                #[trigger] expected[j].0,
                expected[j].1,
            ),
        header_failures(headers, expected).len() <= expected.len(),
    decreases expected.len(),
{
    if expected.len() > 0 {
        let rest = expected.drop_last();
        headers_pass_only_with_their_values(headers, rest);
        header_passes_only_with_its_value(headers, expected.last().0, expected.last().1);
        let last = expected.len() - 1;
        assert(expected[last] == expected.last());
        if forall|j: int|
            0 <= j < expected.len() ==> first_header_holds(
                headers,
                #[trigger] expected[j].0,
                expected[j].1,
            ) {
            assert forall|j: int| 0 <= j < rest.len() implies first_header_holds(
                headers,
                #[trigger] rest[j].0,
                rest[j].1,
            ) by {
                assert(rest[j] == expected[j]);
                assert(first_header_holds(headers, expected[j].0, expected[j].1));
            }
        } else if header_failures(headers, expected).len() == 0 {
            assert forall|j: int| 0 <= j < expected.len() implies first_header_holds(
                headers,
                #[trigger] expected[j].0,
                expected[j].1,
            ) by {
                if j < last {
                    assert(rest[j] == expected[j]);
                    assert(first_header_holds(headers, rest[j].0, rest[j].1));
                }
            }
        }
    }
}

/// The headers of a response as text.
pub open spec fn headers_view(h: Seq<(String, Option<String>)>) -> Seq<(Seq<char>, Option<Seq<char>>)> {
    h.map_values(|p: (String, Option<String>)| (p.0@, match p.1 { Some(v) => Some(v@), None => None }))
}

/// Expected headers as text.
pub open spec fn pairs_text(h: Seq<(String, String)>) -> Seq<(Seq<char>, Seq<char>)> {
    h.map_values(|p: (String, String)| (p.0@, p.1@))
}

/// All failures of a response against what was expected: the status
/// first, then the body, then each expected header in turn.
pub open spec fn validation_failures(response: HttpResponse, validation: ValidationConfig) -> Seq<Seq<char>> {
    status_part(response, validation) + body_part(response, validation) + header_part(
        response,
        validation,
    )
}

/// The status failure, if the status is checked and not expected.
pub open spec fn status_part(response: HttpResponse, validation: ValidationConfig) -> Seq<Seq<char>> {
    match validation.expect_status {
        Some(expected) => if expected@.contains(response.status) {
            Seq::empty()
        } else {
            seq![status_failure(expected@, response.status)]
        },
        None => Seq::empty(),
    }
}

/// The body failure, if the body is checked and fails.
pub open spec fn body_part(response: HttpResponse, validation: ValidationConfig) -> Seq<Seq<char>> {
    match validation.expect_body {
        Some(pattern) => option_seq(body_failure(pattern@, response.body@)),
        None => Seq::empty(),
    }
}

/// The header failures, if headers are checked.
pub open spec fn header_part(response: HttpResponse, validation: ValidationConfig) -> Seq<Seq<char>> {
    match validation.expect_headers {
        Some(expected) => header_failures(headers_view(response.headers@), pairs_text(expected@)),
        None => Seq::empty(),
    }
}

/// A response passes exactly when every check that is asked for holds: its
/// status is among the expected ones, the body pattern compiles and
/// matches the body, and the first header of each expected name (ASCII
/// case ignored) holds exactly the expected value.
pub proof fn response_passes_exactly_when_every_check_holds(
    response: HttpResponse,
    validation: ValidationConfig,
)
    ensures
        validation_failures(response, validation).len() == 0 <==> {
            &&& (validation.expect_status matches Some(e) ==> e@.contains(response.status))
            &&& (validation.expect_body matches Some(p) ==> regex_compile_error(p@) is None
                && regex_is_match(p@, response.body@))
            &&& (validation.expect_headers matches Some(h) ==> forall|j: int|
                0 <= j < h@.len() ==> first_header_holds(
                    headers_view(response.headers@),
                    (#[trigger] h@[j]).0@,
                    h@[j].1@,
                ))
        },
{
    match validation.expect_headers {
        Some(h) => {
            let hv = headers_view(response.headers@);
            let e = pairs_text(h@);
            headers_pass_only_with_their_values(hv, e);
            assert forall|j: int| 0 <= j < h@.len() implies e[j] == (h@[j].0@, h@[j].1@) by {}
            if forall|j: int|
                0 <= j < h@.len() ==> first_header_holds(hv, (#[trigger] h@[j]).0@, h@[j].1@) {
                assert forall|j: int| 0 <= j < e.len() implies first_header_holds(
                    hv,
                    #[trigger] e[j].0,
                    e[j].1,
                ) by {
                    assert(first_header_holds(hv, h@[j].0@, h@[j].1@));
                }
            }
            if header_failures(hv, e).len() == 0 {
                assert forall|j: int| 0 <= j < h@.len() implies first_header_holds(
                    hv,
                    (#[trigger] h@[j]).0@,
                    h@[j].1@,
                ) by {
                    assert(first_header_holds(hv, e[j].0, e[j].1));
                }
            }
        },
        None => {},
    }
}

/// The texts of a list of strings.
pub open spec fn failure_texts(v: Seq<String>) -> Seq<Seq<char>> {
    v.map_values(|s: String| s@)
}

/// Whether `v` holds `x`.
fn contains_status(v: &Vec<u16>, x: u16) -> (b: bool)
    ensures
        b == v@.contains(x),
{
    let mut i: usize = 0;
    while i < v.len()
        invariant
            i <= v@.len(),
            forall|k: int| 0 <= k < i ==> v@[k] != x,
        decreases v.len() - i,
    {
        if v[i] == x {
            return true;
        }
        i = i + 1;
    }
    false
}

/// The status list as `{:?}` prints it, without the brackets.
fn status_items(v: &Vec<u16>) -> (s: String)
    ensures
        s@ == status_items_text(v@),
{
    let mut s = String::new();
    let mut i: usize = 0;
    while i < v.len()
        invariant
            i <= v@.len(),
            s@ == status_items_text(v@.subrange(0, i as int)),
        decreases v.len() - i,
    {
        if i > 0 {
            append_str(&mut s, ", ");
        }
        let d = u64_to_string(v[i] as u64);
        append_str(&mut s, d.as_str());
        proof {
            let t = v@.subrange(0, i + 1);
            assert(t.drop_last() =~= v@.subrange(0, i as int));
        }
        i = i + 1;
    }
    proof {
        assert(v@.subrange(0, v@.len() as int) =~= v@);
    }
    s
}

/// The value of the first header named `key` (ASCII case ignored), if
/// there is one and it is readable.
pub fn header_value(headers: &Vec<(String, Option<String>)>, key: &str) -> (r: Option<String>)
    ensures
        match r {
            Some(v) => header_value_spec(headers_view(headers@), key@) == Some(v@),
            None => header_value_spec(headers_view(headers@), key@) is None,
        },
{
    let ghost hv = headers_view(headers@);
    let k = chars_of(key);
    let mut i: usize = 0;
    while i < headers.len()
        invariant
            i <= headers@.len(),
            hv == headers_view(headers@),
            k@ == key@,
            first_header_from(hv, key@, 0) == first_header_from(hv, key@, i as int),
        decreases headers.len() - i,
    {
        let name = chars_of(headers[i].0.as_str());
        if eq_ignore_ascii_case(&name, &k) {
            return match &headers[i].1 {
                Some(v) => Some(v.clone()),
                None => None,
            };
        }
        i = i + 1;
    }
    None
}

/// Checks a response against what was expected and lists every failure:
/// a status not among those expected, a body that the pattern does not
/// match (or a pattern that does not compile), and each expected header
/// that is missing or has another value. The response passes when there
/// is no failure.
pub fn validate_response(response: &HttpResponse, validation: &ValidationConfig) -> (r: ValidationResult)
    ensures
        failure_texts(r.failures@) == validation_failures(*response, *validation),
        r.passed == (r.failures@.len() == 0),
{
    let mut failures: Vec<String> = Vec::new();
    let ghost mut expected_so_far: Seq<Seq<char>> = Seq::empty();
    match &validation.expect_status {
        Some(expected) => {
            if !contains_status(expected, response.status) {
                let mut m = String::new();
                append_str(&mut m, "expected status [");
                let items = status_items(expected);
                append_str(&mut m, items.as_str());
                append_str(&mut m, "], got ");
                let d = u64_to_string(response.status as u64);
                append_str(&mut m, d.as_str());
                failures.push(m);
            }
        },
        None => {},
    }
    proof {
        expected_so_far = status_part(*response, *validation);
        assert(failure_texts(failures@) =~= expected_so_far);
    }
    match &validation.expect_body {
        Some(pattern) => {
            match compile_body_pattern(pattern.as_str()) {
                Ok(compiled) => {
                    if !body_pattern_matches(&compiled, response.body.as_str()) {
                        let mut m = String::new();
                        append_str(&mut m, "expected body to match pattern `");
                        append_str(&mut m, pattern.as_str());
                        append_str(&mut m, "`");
                        let ghost before = failures@;
                        failures.push(m);
                        proof {
                            assert(failure_texts(failures@) =~= failure_texts(before).push(m@));
                        }
                    }
                },
                Err(error) => {
                    let mut m = String::new();
                    append_str(&mut m, "invalid body regex `");
                    append_str(&mut m, pattern.as_str());
                    append_str(&mut m, "`: ");
                    append_str(&mut m, error.as_str());
                    let ghost before = failures@;
                    failures.push(m);
                    proof {
                        assert(failure_texts(failures@) =~= failure_texts(before).push(m@));
                    }
                },
            }
        },
        None => {},
    }
    proof {
        assert(failure_texts(failures@) =~= expected_so_far + body_part(*response, *validation));
        expected_so_far = expected_so_far + body_part(*response, *validation);
    }
    match &validation.expect_headers {
        Some(expected) => {
            let ghost hv = headers_view(response.headers@);
            let mut i: usize = 0;
            while i < expected.len()
                invariant
                    i <= expected@.len(),
                    hv == headers_view(response.headers@),
                    failure_texts(failures@) == expected_so_far + header_failures(hv, pairs_text(expected@).subrange(0, i as int)),
                decreases expected.len() - i,
            {
                let key = expected[i].0.as_str();
                let want = expected[i].1.as_str();
                let ghost before = failures@;
                proof {
                    let t = pairs_text(expected@).subrange(0, i + 1);
                    assert(t.drop_last() =~= pairs_text(expected@).subrange(0, i as int));
                    assert(t.last() == (key@, want@));
                }
                match header_value(&response.headers, key) {
                    Some(actual) => {
                        let a = chars_of(actual.as_str());
                        let w = chars_of(want);
                        if !chars_eq(&a, &w) {
                            let mut m = String::new();
                            append_str(&mut m, "expected header `");
                            append_str(&mut m, key);
                            append_str(&mut m, ": ");
                            append_str(&mut m, want);
                            append_str(&mut m, "`, got `");
                            append_str(&mut m, key);
                            append_str(&mut m, ": ");
                            append_str(&mut m, actual.as_str());
                            append_str(&mut m, "`");
                            failures.push(m);
                            proof {
                                assert(failure_texts(failures@) =~= failure_texts(before).push(m@));
                            }
                        }
                    },
                    None => {
                        let mut m = String::new();
                        append_str(&mut m, "expected header `");
                        append_str(&mut m, key);
                        append_str(&mut m, ": ");
                        append_str(&mut m, want);
                        append_str(&mut m, "`");
                        failures.push(m);
                        proof {
                            assert(failure_texts(failures@) =~= failure_texts(before).push(m@));
                        }
                    },
                }
                proof {
                    assert(failure_texts(failures@) =~= expected_so_far + header_failures(hv, pairs_text(expected@).subrange(0, i + 1)));
                }
                i = i + 1;
            }
            proof {
                assert(pairs_text(expected@).subrange(0, expected@.len() as int) =~= pairs_text(expected@));
            }
        },
        None => {
            proof {
                assert(failure_texts(failures@) =~= expected_so_far + Seq::<Seq<char>>::empty());
            }
        },
    }
    proof {
        assert(failure_texts(failures@) =~= validation_failures(*response, *validation));
    }
    let passed = failures.len() == 0;
    ValidationResult { passed, failures }
}

} // verus!
