//! Parsing and validation of the user's settings: durations, HTTP methods,
//! headers, output formats and the configuration file's contents.

use vstd::prelude::*;
use crate::text::{
    all_digits, chars_eq_str, chars_of, digits_to_u64, digits_value, is_digit, is_digit_char,
    lower_chars, lower_seq, push_char, string_from_chars, string_of, trim_bounds, trim_seq,
    trimmed_chars, upper_chars, upper_seq, trim_start_seq, trim_end_seq, is_ws, decimal_seq,
    lemma_trimmed_ends,
};
use crate::rate_limit::{RateLimitConfig, lemma_decimal_digits};

verus! {

/// The configuration file read when none is named.
pub const DEFAULT_CONFIG_FILE: &'static str = "clank.yaml";

/// Appends a string literal (or any `&str`) to `s`.
pub fn append_str(s: &mut String, t: &str)
    ensures
        final(s)@ == old(s)@ + t@,
{
    s.append(t);
}

// ---------------------------------------------------------------------------
// Durations
// ---------------------------------------------------------------------------

/// Why a duration was refused.
pub enum DurationFault {
    Empty,
    InvalidFormat,
    InvalidNumber(Seq<char>),
    MissingUnit,
    UnsupportedUnit(char),
    TooLarge,
    NotPositive,
}

/// An error of `parse_duration`, with the text that its message quotes.
#[derive(Debug, Clone, PartialEq, Eq)]
pub enum DurationError {
    Empty,
    InvalidFormat(String),
    InvalidNumber(String),
    MissingUnit(String),
    UnsupportedUnit(char),
    TooLarge,
    NotPositive,
}

impl View for DurationError {
    type V = DurationFault;

    open spec fn view(&self) -> DurationFault {
        match self {
            DurationError::Empty => DurationFault::Empty,
            DurationError::InvalidFormat(_) => DurationFault::InvalidFormat,
            DurationError::InvalidNumber(n) => DurationFault::InvalidNumber(n@),
            DurationError::MissingUnit(_) => DurationFault::MissingUnit,
            DurationError::UnsupportedUnit(c) => DurationFault::UnsupportedUnit(*c),
            DurationError::TooLarge => DurationFault::TooLarge,
            DurationError::NotPositive => DurationFault::NotPositive,
        }
    }
}

impl DurationError {
    pub open spec fn message(&self) -> Seq<char> {
        match self {
            DurationError::Empty => "duration cannot be empty"@,
            DurationError::InvalidFormat(i) => "invalid duration format: "@ + i@,
            DurationError::InvalidNumber(n) => "invalid duration number: "@ + n@,
            DurationError::MissingUnit(i) => "missing duration unit in: "@ + i@,
            DurationError::UnsupportedUnit(c) => "unsupported duration unit: "@ + seq![*c],
            DurationError::TooLarge => "duration is too large"@,
            DurationError::NotPositive => "duration must be greater than 0"@,
        }
    }

    /// The error's message.
    pub fn to_string(&self) -> (s: String)
        ensures
            s@ == self.message(),
    {
        let mut s = String::new();
        match self {
            DurationError::Empty => append_str(&mut s, "duration cannot be empty"),
            DurationError::InvalidFormat(i) => {
                append_str(&mut s, "invalid duration format: ");
                append_str(&mut s, i.as_str());
            },
            DurationError::InvalidNumber(n) => {
                append_str(&mut s, "invalid duration number: ");
                append_str(&mut s, n.as_str());
            },
            DurationError::MissingUnit(i) => {
                append_str(&mut s, "missing duration unit in: ");
                append_str(&mut s, i.as_str());
            },
            DurationError::UnsupportedUnit(c) => {
                append_str(&mut s, "unsupported duration unit: ");
                push_char(&mut s, *c);
            },
            DurationError::TooLarge => append_str(&mut s, "duration is too large"),
            DurationError::NotPositive => append_str(&mut s, "duration must be greater than 0"),
        }
        s
    }
}

/// The first index at or after `i` that does not hold a digit.
pub open spec fn digit_run_end(s: Seq<char>, i: int) -> int
    decreases s.len() - i,
{
    if 0 <= i < s.len() && is_digit(s[i]) {
        digit_run_end(s, i + 1)
    } else {
        i
    }
}

pub proof fn lemma_digit_run_end(s: Seq<char>, i: int)
    requires
        0 <= i <= s.len(),
    ensures
        i <= digit_run_end(s, i) <= s.len(),
        all_digits(s.subrange(i, digit_run_end(s, i))),
        digit_run_end(s, i) < s.len() ==> !is_digit(s[digit_run_end(s, i)]),
    decreases s.len() - i,
{
    if i < s.len() && is_digit(s[i]) {
        lemma_digit_run_end(s, i + 1);
        let j = digit_run_end(s, i);
        assert forall|k: int| 0 <= k < j - i implies #[trigger] is_digit(
            s.subrange(i, j)[k],
        ) by {
            if k > 0 {
                assert(s.subrange(i, j)[k] == s.subrange(i + 1, j)[k - 1]);
            }
        }
    }
}

/// The unit that starts at index `j` of `s`: its length in milliseconds and
/// how many characters it takes. `ms`, `s`, `m` and `h` are the units.
pub open spec fn unit_at(s: Seq<char>, j: int) -> Option<(nat, int)> {
    if s[j] == 's' {
        Some((1000, 1))
    } else if s[j] == 'h' {
        Some((3_600_000, 1))
    } else if s[j] == 'm' {
        if j + 1 < s.len() && s[j + 1] == 's' {
            Some((1, 2))
        } else {
            Some((60_000, 1))
        }
    } else {
        None
    }
}

/// The longest duration there is, in milliseconds: `u64::MAX` seconds and
/// 999 milliseconds.
pub const MAX_DURATION_MS: u128 = 18_446_744_073_709_551_615_999;

/// Reads the components of a duration from index `i` on, `acc` being the
/// milliseconds read so far.
pub open spec fn duration_components(s: Seq<char>, i: int, acc: nat) -> Result<nat, DurationFault>
    decreases s.len() - i,
{
    if i < 0 || i >= s.len() {
        Ok(acc)
    } else {
        let j = digit_run_end(s, i);
        let digits = s.subrange(i, j);
        if j <= i {
            Err(DurationFault::InvalidFormat)
        } else if digits_value(digits) > u64::MAX {
            Err(DurationFault::InvalidNumber(digits))
        } else if j >= s.len() {
            Err(DurationFault::MissingUnit)
        } else {
            match unit_at(s, j) {
                None => Err(DurationFault::UnsupportedUnit(s[j])),
                Some((mult, len)) => {
                    let comp = digits_value(digits) * mult;
                    if comp > MAX_DURATION_MS || acc + comp > MAX_DURATION_MS {
                        Err(DurationFault::TooLarge)
                    } else {
                        duration_components(s, j + len, acc + comp)
                    }
                },
            }
        }
    }
}

/// What a duration text means, in milliseconds: one or more components of
/// a number and a unit (`ms`, `s`, `m`, `h`), such as `1h30m` or `100ms`,
/// surrounded by optional whitespace, with a positive total no longer than
/// `MAX_DURATION_MS`.
pub open spec fn parse_duration_spec(input: Seq<char>) -> Result<nat, DurationFault> {
    let t = trim_seq(input);
    if t.len() == 0 {
        Err(DurationFault::Empty)
    } else {
        match duration_components(t, 0, 0) {
            Ok(total) => if total == 0 {
                Err(DurationFault::NotPositive)
            } else {
                Ok(total)
            },
            Err(f) => Err(f),
        }
    }
}

proof fn lemma_run_end_in_prefix(a: Seq<char>, b: Seq<char>, i: int)
    requires
        0 <= i <= a.len(),
        digit_run_end(a, i) < a.len(),
    ensures
        digit_run_end(a + b, i) == digit_run_end(a, i),
    decreases a.len() - i,
{
    if i < a.len() && is_digit(a[i]) {
        lemma_run_end_in_prefix(a, b, i + 1);
    }
    assert(i < a.len() ==> (a + b)[i] == a[i]);
}

proof fn lemma_run_end_in_suffix(a: Seq<char>, b: Seq<char>, i: int)
    requires
        0 <= i <= b.len(),
    ensures
        digit_run_end(a + b, a.len() + i) == a.len() + digit_run_end(b, i),
    decreases b.len() - i,
{
    if i < b.len() && is_digit(b[i]) {
        lemma_run_end_in_suffix(a, b, i + 1);
    }
    assert(i < b.len() ==> (a + b)[a.len() + i] == b[i]);
}

proof fn lemma_components_grow(s: Seq<char>, i: int, acc: nat)
    requires
        duration_components(s, i, acc) is Ok,
    ensures
        acc <= duration_components(s, i, acc)->Ok_0,
    decreases s.len() - i,
{
    if 0 <= i < s.len() {
        let j = digit_run_end(s, i);
        if let Some((mult, len)) = unit_at(s, j) {
            let comp = digits_value(s.subrange(i, j)) * mult;
            if j > i && j < s.len() && len > 0 {
                lemma_components_grow(s, j + len, acc + comp);
            }
        }
    }
}

proof fn lemma_components_shift_acc(s: Seq<char>, i: int, acc: nat, extra: nat)
    requires
        duration_components(s, i, acc) is Ok,
        duration_components(s, i, acc)->Ok_0 + extra <= MAX_DURATION_MS,
    ensures
        duration_components(s, i, acc + extra) == Ok::<nat, DurationFault>(
            duration_components(s, i, acc)->Ok_0 + extra,
        ),
    decreases s.len() - i,
{
    if 0 <= i < s.len() {
        lemma_digit_run_end(s, i);
        let j = digit_run_end(s, i);
        if let Some((mult, len)) = unit_at(s, j) {
            let comp = digits_value(s.subrange(i, j)) * mult;
            if j > i && j < s.len() && comp <= MAX_DURATION_MS && acc + comp <= MAX_DURATION_MS {
                lemma_components_grow(s, j + len, acc + comp);
                lemma_components_shift_acc(s, j + len, acc + comp, extra);
            }
        }
    }
}

proof fn lemma_components_in_prefix(a: Seq<char>, b: Seq<char>, i: int, acc: nat)
    requires
        0 <= i <= a.len(),
        b.len() > 0,
        is_digit(b[0]),
        duration_components(a, i, acc) is Ok,
    ensures
        duration_components(a + b, i, acc) == duration_components(
            a + b,
            a.len() as int,
            duration_components(a, i, acc)->Ok_0,
        ),
    decreases a.len() - i,
{
    if i < a.len() {
        lemma_digit_run_end(a, i);
        let j = digit_run_end(a, i);
        let s = a + b;
        lemma_run_end_in_prefix(a, b, i);
        assert(s.subrange(i, j) =~= a.subrange(i, j));
        assert(s[j] == a[j]);
        if j + 1 < a.len() {
            assert(s[j + 1] == a[j + 1]);
        } else {
            assert(s[j + 1] == b[0]);
        }
        assert(unit_at(s, j) == unit_at(a, j));
        if let Some((mult, len)) = unit_at(a, j) {
            let comp = digits_value(a.subrange(i, j)) * mult;
            lemma_components_in_prefix(a, b, j + len, acc + comp);
        }
    }
}

proof fn lemma_components_in_suffix(a: Seq<char>, b: Seq<char>, i: int, acc: nat)
    requires
        0 <= i <= b.len(),
    ensures
        duration_components(a + b, a.len() + i, acc) == duration_components(b, i, acc),
    decreases b.len() - i,
{
    if i < b.len() {
        let s = a + b;
        let k = a.len() + i;
        lemma_digit_run_end(b, i);
        lemma_run_end_in_suffix(a, b, i);
        let j = digit_run_end(b, i);
        assert(s.subrange(k, a.len() + j) =~= b.subrange(i, j));
        if j < b.len() {
            assert(s[a.len() + j] == b[j]);
            if j + 1 < b.len() {
                assert(s[a.len() + j + 1] == b[j + 1]);
            }
            assert(unit_at(s, a.len() + j) == match unit_at(b, j) {
                Some((m, l)) => Some((m, l)),
                None => None::<(nat, int)>,
            });
            if let Some((mult, len)) = unit_at(b, j) {
                let comp = digits_value(b.subrange(i, j)) * mult;
                lemma_components_in_suffix(a, b, j + len, acc + comp);
                assert(a.len() + j + len == a.len() + (j + len));
            }
        }
    }
}

/// Durations add when their texts are written one after the other: if `a`
/// and `b` each parse (with no whitespace around them) and their sum is
/// no longer than the longest duration, `a` followed by `b` parses to the
/// sum.
pub proof fn joined_durations_add(a: Seq<char>, b: Seq<char>, da: nat, db: nat)
    requires
        a == trim_seq(a),
        b == trim_seq(b),
        parse_duration_spec(a) == Ok::<nat, DurationFault>(da),
        parse_duration_spec(b) == Ok::<nat, DurationFault>(db),
        da + db <= MAX_DURATION_MS,
    ensures
        parse_duration_spec(a + b) == Ok::<nat, DurationFault>(da + db),
{
    let s = a + b;
    lemma_trimmed_ends(a);
    lemma_trimmed_ends(b);
    assert(duration_components(a, 0, 0) == Ok::<nat, DurationFault>(da));
    assert(duration_components(b, 0, 0) == Ok::<nat, DurationFault>(db));
    lemma_digit_run_end(b, 0);
    assert(is_digit(b[0]));
    assert(s[0] == a[0]);
    assert(s.last() == b.last());
    assert(trim_start_seq(s) == s);
    assert(trim_end_seq(s) == s);
    lemma_components_in_prefix(a, b, 0, 0);
    lemma_components_in_suffix(a, b, 0, da);
    assert(a.len() + 0 == a.len());
    lemma_components_shift_acc(b, 0, 0, da);
    assert(duration_components(s, 0, 0) == Ok::<nat, DurationFault>(da + db));
}

proof fn lemma_run_end_of_number(d: Seq<char>, u: Seq<char>, i: int)
    requires
        0 <= i <= d.len(),
        all_digits(d),
        u.len() > 0,
        !is_digit(u[0]),
    ensures
        digit_run_end(d + u, i) == d.len(),
    decreases d.len() - i,
{
    if i < d.len() {
        assert((d + u)[i] == d[i]);
        lemma_run_end_of_number(d, u, i + 1);
    } else {
        assert((d + u)[i] == u[0]);
    }
}

/// A duration of one component: the number `d` followed by the unit `u`,
/// which stands for `mult` milliseconds and takes `len` characters.
proof fn lemma_one_component(d: Seq<char>, u: Seq<char>, mult: nat, len: int)
    requires
        d.len() > 0,
        all_digits(d),
        1 <= digits_value(d) <= u64::MAX,
        u.len() == len,
        1 <= len <= 2,
        mult >= 1,
        !is_digit(u[0]),
        !is_ws(u.last()),
        unit_at(d + u, d.len() as int) == Some((mult, len)),
    ensures
        parse_duration_spec(d + u) == if digits_value(d) * mult <= MAX_DURATION_MS {
            Ok::<nat, DurationFault>(digits_value(d) * mult)
        } else {
            Err::<nat, DurationFault>(DurationFault::TooLarge)
        },
{
    let t = d + u;
    assert(t[0] == d[0]);
    assert(is_digit(d[0]));
    assert(t.last() == u.last());
    assert(trim_start_seq(t) == t);
    assert(trim_end_seq(t) == t);
    lemma_run_end_of_number(d, u, 0);
    assert(t.subrange(0, d.len() as int) =~= d);
    let comp = digits_value(d) * mult;
    assert(comp >= 1) by (nonlinear_arith)
        requires
            digits_value(d) >= 1,
            mult >= 1,
            comp == digits_value(d) * mult,
    ;
    if comp <= MAX_DURATION_MS {
        assert(duration_components(t, d.len() + len, comp) == Ok::<nat, DurationFault>(comp));
    }
}

/// What a single number with a unit means: `n` followed by `ms` is `n`
/// milliseconds, by `s` `n` seconds, by `m` `n` minutes and by `h` `n`
/// hours, counted in milliseconds; a minute or hour count whose total
/// passes the longest duration is too large.
pub proof fn duration_units_scale(n: nat)
    requires
        1 <= n <= u64::MAX,
    ensures
        parse_duration_spec(decimal_seq(n) + "ms"@) == Ok::<nat, DurationFault>(n),
        parse_duration_spec(decimal_seq(n) + "s"@) == Ok::<nat, DurationFault>(n * 1000),
        parse_duration_spec(decimal_seq(n) + "m"@) == if n * 60_000 <= MAX_DURATION_MS {
            Ok::<nat, DurationFault>(n * 60_000)
        } else {
            Err::<nat, DurationFault>(DurationFault::TooLarge)
        },
        parse_duration_spec(decimal_seq(n) + "h"@) == if n * 3_600_000 <= MAX_DURATION_MS {
            Ok::<nat, DurationFault>(n * 3_600_000)
        } else {
            Err::<nat, DurationFault>(DurationFault::TooLarge)
        },
{
    reveal_strlit("ms");
    reveal_strlit("s");
    reveal_strlit("m");
    reveal_strlit("h");
    let d = decimal_seq(n);
    lemma_decimal_digits(n);
    let dl = d.len() as int;
    assert((d + "ms"@)[dl] == 'm' && (d + "ms"@)[dl + 1] == 's');
    lemma_one_component(d, "ms"@, 1, 2);
    assert((d + "s"@)[dl] == 's');
    lemma_one_component(d, "s"@, 1000, 1);
    assert((d + "m"@)[dl] == 'm');
    lemma_one_component(d, "m"@, 60_000, 1);
    assert((d + "h"@)[dl] == 'h');
    lemma_one_component(d, "h"@, 3_600_000, 1);
}

/// Parses a duration such as `30s`, `5m`, `1h30m` or `100ms` into
/// milliseconds.
pub fn parse_duration(input: &str) -> (r: Result<u128, DurationError>)
    ensures
        match r {
            Ok(ms) => parse_duration_spec(input@) == Ok::<nat, DurationFault>(ms as nat),
            Err(e) => parse_duration_spec(input@) == Err::<nat, DurationFault>(e@),
        },
        r matches Err(DurationError::InvalidFormat(x)) ==> x@ == trim_seq(input@),
        r matches Err(DurationError::MissingUnit(x)) ==> x@ == trim_seq(input@),
{
    let t = trimmed_chars(input);
    let n = t.len();
    if n == 0 {
        return Err(DurationError::Empty);
    }
    let mut i: usize = 0;
    let mut total: u128 = 0;
    while i < n
        invariant
            n == t@.len(),
            t@ == trim_seq(input@),
            i <= n,
            total <= MAX_DURATION_MS,
            duration_components(t@, 0, 0) == duration_components(t@, i as int, total as nat),
        decreases n - i,
    {
        proof {
            lemma_digit_run_end(t@, i as int);
        }
        let mut j = i;
        while j < n && is_digit_char(t[j])
            invariant
                n == t@.len(),
                i <= j <= n,
                digit_run_end(t@, i as int) == digit_run_end(t@, j as int),
            decreases n - j,
        {
            j = j + 1;
        }
        proof {
            lemma_digit_run_end(t@, j as int);
        }
        assert(j == digit_run_end(t@, i as int));
        if j == i {
            return Err(DurationError::InvalidFormat(string_from_chars(&t)));
        }
        let value = match digits_to_u64(&t, i, j, u64::MAX) {
            Some(v) => v,
            None => {
                return Err(DurationError::InvalidNumber(string_of(&t, i, j)));
            },
        };
        if j == n {
            return Err(DurationError::MissingUnit(string_from_chars(&t)));
        }
        let c = t[j];
        let (mult, len): (u128, usize) = if c == 's' {
            (1000, 1)
        } else if c == 'h' {
            (3_600_000, 1)
        } else if c == 'm' {
            if j + 1 < n && t[j + 1] == 's' {
                (1, 2)
            } else {
                (60_000, 1)
            }
        } else {
            return Err(DurationError::UnsupportedUnit(c));
        };
        let wide: u128 = value as u128;
        assert(wide * mult <= u64::MAX * 3_600_000) by (nonlinear_arith)
            requires
                wide <= u64::MAX,
                mult <= 3_600_000,
        ;
        let comp: u128 = wide * mult;
        if comp > MAX_DURATION_MS {
            return Err(DurationError::TooLarge);
        }
        if total + comp > MAX_DURATION_MS {
            return Err(DurationError::TooLarge);
        }
        total = total + comp;
        i = j + len;
    }
    if total == 0 {
        return Err(DurationError::NotPositive);
    }
    Ok(total)
}

// ---------------------------------------------------------------------------
// HTTP methods
// ---------------------------------------------------------------------------

/// The methods that requests can be sent with.
pub open spec fn is_supported_method(m: Seq<char>) -> bool {
    ||| m == "GET"@
    ||| m == "POST"@
    ||| m == "PUT"@
    ||| m == "DELETE"@
    ||| m == "PATCH"@
    ||| m == "HEAD"@
    ||| m == "OPTIONS"@
}

/// A method as it is compared: trimmed and in upper case.
pub open spec fn normalize_method(m: Seq<char>) -> Seq<char> {
    upper_seq(trim_seq(m))
}

/// An error of `validate_method`.
#[derive(Debug, Clone, PartialEq, Eq)]
pub enum MethodError {
    Empty,
    Unsupported(String),
}

impl MethodError {
    pub open spec fn message(&self) -> Seq<char> {
        match self {
            MethodError::Empty => "HTTP method cannot be empty"@,
            MethodError::Unsupported(m) => "unsupported method: "@ + m@,
        }
    }

    /// The error's message.
    pub fn to_string(&self) -> (s: String)
        ensures
            s@ == self.message(),
    {
        let mut s = String::new();
        match self {
            MethodError::Empty => append_str(&mut s, "HTTP method cannot be empty"),
            MethodError::Unsupported(m) => {
                append_str(&mut s, "unsupported method: ");
                append_str(&mut s, m.as_str());
            },
        }
        s
    }
}

/// Whether `v` names one of the supported methods.
pub fn is_supported_method_chars(v: &Vec<char>) -> (b: bool)
    ensures
        b == is_supported_method(v@),
{
    chars_eq_str(v, "GET") || chars_eq_str(v, "POST") || chars_eq_str(v, "PUT") || chars_eq_str(
        v,
        "DELETE",
    ) || chars_eq_str(v, "PATCH") || chars_eq_str(v, "HEAD") || chars_eq_str(v, "OPTIONS")
}

/// Normalizes an HTTP method (trimmed, upper case) and accepts it when it is
/// one of GET, POST, PUT, DELETE, PATCH, HEAD and OPTIONS.
pub fn validate_method(method: &str) -> (r: Result<String, MethodError>)
    ensures
        match r {
            Ok(m) => m@ == normalize_method(method@) && is_supported_method(m@) && m@.len() > 0,
            Err(MethodError::Empty) => normalize_method(method@).len() == 0,
            Err(MethodError::Unsupported(m)) => m@ == normalize_method(method@) && m@.len() > 0
                && !is_supported_method(m@),
        },
{
    let t = trimmed_chars(method);
    let u = upper_chars(&t);
    if u.len() == 0 {
        return Err(MethodError::Empty);
    }
    let normalized = string_from_chars(&u);
    if is_supported_method_chars(&u) {
        Ok(normalized)
    } else {
        Err(MethodError::Unsupported(normalized))
    }
}

// ---------------------------------------------------------------------------
// Headers
// ---------------------------------------------------------------------------

/// The index of the first `c` in `s` at or after `i`, or `-1`.
pub open spec fn find_from(s: Seq<char>, c: char, i: int) -> int
    decreases s.len() - i,
{
    if i < 0 || i >= s.len() {
        -1
    } else if s[i] == c {
        i
    } else {
        find_from(s, c, i + 1)
    }
}

/// The index of the first `c` in `s`, or `-1`.
pub open spec fn find_char(s: Seq<char>, c: char) -> int {
    find_from(s, c, 0)
}

pub proof fn lemma_find_from(s: Seq<char>, c: char, i: int)
    requires
        0 <= i <= s.len(),
    ensures
        find_from(s, c, i) == -1 || (i <= find_from(s, c, i) < s.len() && s[find_from(s, c, i)]
            == c),
        find_from(s, c, i) == -1 ==> forall|k: int| i <= k < s.len() ==> s[k] != c,
        find_from(s, c, i) != -1 ==> forall|k: int| i <= k < find_from(s, c, i) ==> s[k] != c,
    decreases s.len() - i,
{
    if i < s.len() && s[i] != c {
        lemma_find_from(s, c, i + 1);
    }
}

/// What `Key: Value` text means as a header: split at the first `:`, both
/// sides trimmed; `None` for the key when there is no `:`, an empty key is
/// refused.
pub open spec fn parse_header_spec(s: Seq<char>) -> Result<(Seq<char>, Seq<char>), HeaderFault> {
    let k = find_char(s, ':');
    if k < 0 {
        Err(HeaderFault::MissingColon)
    } else {
        let key = trim_seq(s.subrange(0, k));
        let value = trim_seq(s.subrange(k + 1, s.len() as int));
        if key.len() == 0 {
            Err(HeaderFault::EmptyKey)
        } else {
            Ok((key, value))
        }
    }
}

/// A header is split at its first colon: text `key:value` whose key holds
/// no colon reads as the trimmed key and the trimmed value (colons in the
/// value are kept), unless the key is blank; text with no colon at all is
/// refused.
pub proof fn headers_split_at_the_first_colon(key: Seq<char>, value: Seq<char>)
    requires
        forall|i: int| 0 <= i < key.len() ==> key[i] != ':',
    ensures
        parse_header_spec(key + seq![':'] + value) == if trim_seq(key).len() == 0 {
            Err::<(Seq<char>, Seq<char>), HeaderFault>(HeaderFault::EmptyKey)
        } else {
            Ok::<(Seq<char>, Seq<char>), HeaderFault>((trim_seq(key), trim_seq(value)))
        },
        (forall|i: int| 0 <= i < value.len() ==> value[i] != ':') ==> parse_header_spec(value)
            == Err::<(Seq<char>, Seq<char>), HeaderFault>(HeaderFault::MissingColon),
{
    let s = key + seq![':'] + value;
    let k = key.len() as int;
    lemma_find_from(s, ':', 0);
    assert(s[k] == ':');
    let f = find_char(s, ':');
    assert(f == k) by {
        if f == -1 {
            assert(s[k] != ':');
        } else if f < k {
            assert(s[f] == key[f]);
        } else if f > k {
            assert(s[k] != ':');
        }
    }
    assert(s.subrange(0, k) =~= key);
    assert(s.subrange(k + 1, s.len() as int) =~= value);
    lemma_find_from(value, ':', 0);
}

/// Why a header was refused.
pub enum HeaderFault {
    MissingColon,
    EmptyKey,
}

/// An error of `parse_header`; each variant holds the header text.
#[derive(Debug, Clone, PartialEq, Eq)]
pub enum HeaderError {
    InvalidFormat(String),
    EmptyKey(String),
}

impl HeaderError {
    pub open spec fn fault(&self) -> HeaderFault {
        match self {
            HeaderError::InvalidFormat(_) => HeaderFault::MissingColon,
            HeaderError::EmptyKey(_) => HeaderFault::EmptyKey,
        }
    }

    pub open spec fn input(&self) -> Seq<char> {
        match self {
            HeaderError::InvalidFormat(i) => i@,
            HeaderError::EmptyKey(i) => i@,
        }
    }

    pub open spec fn message(&self) -> Seq<char> {
        match self {
            HeaderError::InvalidFormat(i) => "invalid header format: "@ + i@
                + ". Expected: Key: Value"@,
            HeaderError::EmptyKey(i) => "header key cannot be empty: "@ + i@,
        }
    }

    /// The error's message.
    pub fn to_string(&self) -> (s: String)
        ensures
            s@ == self.message(),
    {
        let mut s = String::new();
        match self {
            HeaderError::InvalidFormat(i) => {
                append_str(&mut s, "invalid header format: ");
                append_str(&mut s, i.as_str());
                append_str(&mut s, ". Expected: Key: Value");
            },
            HeaderError::EmptyKey(i) => {
                append_str(&mut s, "header key cannot be empty: ");
                append_str(&mut s, i.as_str());
            },
        }
        s
    }
}

/// The index of the first `c` in `v`, if any.
pub fn find_char_index(v: &Vec<char>, c: char) -> (r: Option<usize>)
    ensures
        match r {
            Some(k) => find_char(v@, c) == k as int && k < v@.len() && v@[k as int] == c,
            None => find_char(v@, c) == -1,
        },
{
    let mut i: usize = 0;
    while i < v.len()
        invariant
            i <= v@.len(),
            find_char(v@, c) == find_from(v@, c, i as int),
        decreases v.len() - i,
    {
        if v[i] == c {
            return Some(i);
        }
        i = i + 1;
    }
    None
}

/// Parses a `Key: Value` header into its trimmed key and value.
pub fn parse_header(input: &str) -> (r: Result<(String, String), HeaderError>)
    ensures
        match r {
            Ok((k, v)) => parse_header_spec(input@) == Ok::<(Seq<char>, Seq<char>), HeaderFault>(
                (k@, v@),
            ),
            Err(e) => parse_header_spec(input@) == Err::<(Seq<char>, Seq<char>), HeaderFault>(
                e.fault(),
            ) && e.input() == input@,
        },
{
    let v = chars_of(input);
    match find_char_index(&v, ':') {
        None => Err(HeaderError::InvalidFormat(string_from_chars(&v))),
        Some(k) => {
            let n = v.len();
            let before = copy_range(&v, 0, k);
            let after = copy_range(&v, k + 1, n);
            let (a, b) = trim_bounds(&before);
            let (c, d) = trim_bounds(&after);
            if a == b {
                return Err(HeaderError::EmptyKey(string_from_chars(&v)));
            }
            Ok((string_of(&before, a, b), string_of(&after, c, d)))
        },
    }
}

/// A copy of `v[from..to]`.
pub fn copy_range(v: &Vec<char>, from: usize, to: usize) -> (r: Vec<char>)
    requires
        from <= to <= v@.len(),
    ensures
        r@ == v@.subrange(from as int, to as int),
{
    let mut r: Vec<char> = Vec::new();
    let mut i = from;
    while i < to
        invariant
            from <= i <= to <= v@.len(),
            r@ == v@.subrange(from as int, i as int),
        decreases to - i,
    {
        r.push(v[i]);
        i = i + 1;
        proof {
            assert(r@ =~= v@.subrange(from as int, i as int));
        }
    }
    r
}

// ---------------------------------------------------------------------------
// Output formats
// ---------------------------------------------------------------------------

/// How the summary of a run is printed.
#[derive(Debug, Clone, Copy, PartialEq, Eq, Structural)]
pub enum OutputFormat {
    Text,
    Json,
    Csv,
    Html,
}

/// The format that a name selects, compared trimmed and in lower case.
pub open spec fn output_format_spec(s: Seq<char>) -> Option<OutputFormat> {
    let n = lower_seq(trim_seq(s));
    if n == "text"@ {
        Some(OutputFormat::Text)
    } else if n == "json"@ {
        Some(OutputFormat::Json)
    } else if n == "csv"@ {
        Some(OutputFormat::Csv)
    } else if n == "html"@ {
        Some(OutputFormat::Html)
    } else {
        None
    }
}

/// An unsupported output format, holding the text as it was given.
#[derive(Debug, Clone, PartialEq, Eq)]
pub struct OutputFormatError {
    pub input: String,
}

impl OutputFormatError {
    pub open spec fn message(&self) -> Seq<char> {
        "unsupported output format: "@ + self.input@
            + ". Supported formats: text, json, csv, html"@
    }

    /// The error's message.
    pub fn to_string(&self) -> (s: String)
        ensures
            s@ == self.message(),
    {
        let mut s = String::new();
        append_str(&mut s, "unsupported output format: ");
        append_str(&mut s, self.input.as_str());
        append_str(&mut s, ". Supported formats: text, json, csv, html");
        s
    }
}

/// Parses an output format name: `text`, `json`, `csv` or `html`, in any
/// ASCII case and with surrounding whitespace.
pub fn parse_output_format(input: &str) -> (r: Result<OutputFormat, OutputFormatError>)
    ensures
        match r {
            Ok(f) => output_format_spec(input@) == Some(f),
            Err(e) => output_format_spec(input@) is None && e.input@ == input@,
        },
{
    let t = trimmed_chars(input);
    let n = lower_chars(&t);
    if chars_eq_str(&n, "text") {
        Ok(OutputFormat::Text)
    } else if chars_eq_str(&n, "json") {
        Ok(OutputFormat::Json)
    } else if chars_eq_str(&n, "csv") {
        Ok(OutputFormat::Csv)
    } else if chars_eq_str(&n, "html") {
        Ok(OutputFormat::Html)
    } else {
        Err(OutputFormatError { input: String::from_str(input) })
    }
}

// ---------------------------------------------------------------------------
// The configuration file
// ---------------------------------------------------------------------------

/// The settings that a configuration file holds, once parsed. Fields that
/// the file leaves out take the values of `default_method`,
/// `default_concurrency` and `default_timeout`.
#[derive(Debug, Clone, PartialEq, Eq)]
pub struct ClankConfig {
    pub url: String,
    pub method: String,
    pub body: Option<String>,
    pub body_file: Option<String>,
    pub content_type: Option<String>,
    pub concurrency: usize,
    pub timeout_secs: u64,
    pub headers: Vec<String>,
    pub insecure: bool,
    pub output: Option<String>,
    pub rate_limit: Option<RateLimitConfig>,
}

/// The method used when none is configured.
pub fn default_method() -> (m: String)
    ensures
        m@ == "GET"@,
{
    String::from_str("GET")
}

/// The number of workers used when none is configured.
pub fn default_concurrency() -> (n: usize)
    ensures
        n == 10,
{
    10
}

/// The request timeout, in seconds, used when none is configured.
pub fn default_timeout() -> (n: u64)
    ensures
        n == 10,
{
    10
}

/// The first configured header, from index `i` on, that `parse_header`
/// refuses, or `-1`.
pub open spec fn first_bad_header(hs: Seq<Seq<char>>, i: int) -> int
    decreases hs.len() - i,
{
    if i < 0 || i >= hs.len() {
        -1
    } else if parse_header_spec(hs[i]) is Err {
        i
    } else {
        first_bad_header(hs, i + 1)
    }
}

/// The headers of a configuration, as text.
pub open spec fn header_texts(hs: Seq<String>) -> Seq<Seq<char>> {
    hs.map_values(|h: String| h@)
}

/// Why a configuration was refused.
pub enum ConfigFault {
    EmptyUrl,
    Method,
    BodyConflict,
    EmptyBodyFile,
    EmptyContentType,
    ZeroConcurrency,
    ZeroTimeout,
    Header(int),
    Output,
}

/// An error of `ClankConfig::validate`.
#[derive(Debug, Clone, PartialEq, Eq)]
pub enum ConfigError {
    EmptyUrl,
    Method(MethodError),
    BodyConflict,
    EmptyBodyFile,
    EmptyContentType,
    ZeroConcurrency,
    ZeroTimeout,
    Header(String, HeaderError),
    Output(OutputFormatError),
}

impl ConfigError {
    pub open spec fn message(&self) -> Seq<char> {
        match self {
            ConfigError::EmptyUrl => "config url cannot be empty"@,
            ConfigError::Method(_) => "invalid config method"@,
            ConfigError::BodyConflict => "config body and body_file cannot be used together"@,
            ConfigError::EmptyBodyFile => "config body_file cannot be empty"@,
            ConfigError::EmptyContentType => "config content_type cannot be empty"@,
            ConfigError::ZeroConcurrency => "config concurrency must be greater than 0"@,
            ConfigError::ZeroTimeout => "config timeout_secs must be greater than 0"@,
            ConfigError::Header(h, _) => "invalid config header: "@ + h@,
            ConfigError::Output(_) => "invalid config output format"@,
        }
    }

    /// The error's message.
    pub fn to_string(&self) -> (s: String)
        ensures
            s@ == self.message(),
    {
        let mut s = String::new();
        match self {
            ConfigError::EmptyUrl => append_str(&mut s, "config url cannot be empty"),
            ConfigError::Method(_) => append_str(&mut s, "invalid config method"),
            ConfigError::BodyConflict => append_str(
                &mut s,
                "config body and body_file cannot be used together",
            ),
            ConfigError::EmptyBodyFile => append_str(&mut s, "config body_file cannot be empty"),
            ConfigError::EmptyContentType => append_str(
                &mut s,
                "config content_type cannot be empty",
            ),
            ConfigError::ZeroConcurrency => append_str(
                &mut s,
                "config concurrency must be greater than 0",
            ),
            ConfigError::ZeroTimeout => append_str(
                &mut s,
                "config timeout_secs must be greater than 0",
            ),
            ConfigError::Header(h, _) => {
                append_str(&mut s, "invalid config header: ");
                append_str(&mut s, h.as_str());
            },
            ConfigError::Output(_) => append_str(&mut s, "invalid config output format"),
        }
        s
    }
}

impl ClankConfig {
    /// The first rule that the configuration breaks, checked in this order:
    /// a blank url, an unsupported method, both a body and a body file, an
    /// empty body file name, a blank content type, no workers, a zero
    /// timeout, a malformed header, an unknown output format.
    pub open spec fn fault(&self) -> Option<ConfigFault> {
        let m = normalize_method(self.method@);
        let hs = header_texts(self.headers@);
        if trim_seq(self.url@).len() == 0 {
            Some(ConfigFault::EmptyUrl)
        } else if m.len() == 0 || !is_supported_method(m) {
            Some(ConfigFault::Method)
        } else if self.body is Some && self.body_file is Some {
            Some(ConfigFault::BodyConflict)
        } else if self.body_file matches Some(f) && f@.len() == 0 {
            Some(ConfigFault::EmptyBodyFile)
        } else if self.content_type matches Some(ct) && trim_seq(ct@).len() == 0 {
            Some(ConfigFault::EmptyContentType)
        } else if self.concurrency == 0 {
            Some(ConfigFault::ZeroConcurrency)
        } else if self.timeout_secs == 0 {
            Some(ConfigFault::ZeroTimeout)
        } else if first_bad_header(hs, 0) >= 0 {
            Some(ConfigFault::Header(first_bad_header(hs, 0)))
        } else if self.output matches Some(o) && output_format_spec(o@) is None {
            Some(ConfigFault::Output)
        } else {
            None
        }
    }

    /// Checks the configuration and reports the first rule that it breaks
    /// (see `fault`).
    pub fn validate(&self) -> (r: Result<(), ConfigError>)
        ensures
            r is Ok <==> self.fault() is None,
            r matches Err(e) ==> match (e, self.fault()) {
                (ConfigError::EmptyUrl, Some(ConfigFault::EmptyUrl)) => true,
                (ConfigError::Method(_), Some(ConfigFault::Method)) => true,
                (ConfigError::BodyConflict, Some(ConfigFault::BodyConflict)) => true,
                (ConfigError::EmptyBodyFile, Some(ConfigFault::EmptyBodyFile)) => true,
                (ConfigError::EmptyContentType, Some(ConfigFault::EmptyContentType)) => true,
                (ConfigError::ZeroConcurrency, Some(ConfigFault::ZeroConcurrency)) => true,
                (ConfigError::ZeroTimeout, Some(ConfigFault::ZeroTimeout)) => true,
                (ConfigError::Header(h, he), Some(ConfigFault::Header(i))) => 0 <= i
                    < self.headers@.len() && h@ == self.headers@[i]@ && he.input() == h@,
                (ConfigError::Output(oe), Some(ConfigFault::Output)) => self.output matches Some(
                    o,
                ) && oe.input@ == o@,
                _ => false,
            },
    {
        let url = trimmed_chars(self.url.as_str());
        if url.len() == 0 {
            return Err(ConfigError::EmptyUrl);
        }
        match validate_method(self.method.as_str()) {
            Err(e) => {
                return Err(ConfigError::Method(e));
            },
            Ok(_) => {},
        }
        if self.body.is_some() && self.body_file.is_some() {
            return Err(ConfigError::BodyConflict);
        }
        match &self.body_file {
            Some(f) => {
                if f.as_str().is_empty() {
                    return Err(ConfigError::EmptyBodyFile);
                }
            },
            None => {},
        }
        match &self.content_type {
            Some(ct) => {
                let t = trimmed_chars(ct.as_str());
                if t.len() == 0 {
                    return Err(ConfigError::EmptyContentType);
                }
            },
            None => {},
        }
        if self.concurrency == 0 {
            return Err(ConfigError::ZeroConcurrency);
        }
        if self.timeout_secs == 0 {
            return Err(ConfigError::ZeroTimeout);
        }
        let ghost hs = header_texts(self.headers@);
        let mut i: usize = 0;
        while i < self.headers.len()
            invariant
                i <= self.headers@.len(),
                hs == header_texts(self.headers@),
                first_bad_header(hs, 0) == first_bad_header(hs, i as int),
                trim_seq(self.url@).len() != 0,
                normalize_method(self.method@).len() != 0,
                is_supported_method(normalize_method(self.method@)),
                !(self.body is Some && self.body_file is Some),
                !(self.body_file matches Some(f) && f@.len() == 0),
                !(self.content_type matches Some(ct) && trim_seq(ct@).len() == 0),
                self.concurrency != 0,
                self.timeout_secs != 0,
            decreases self.headers.len() - i,
        {
            let h = &self.headers[i];
            proof {
                assert(hs[i as int] == self.headers@[i as int]@);
            }
            match parse_header(h.as_str()) {
                Err(e) => {
                    return Err(ConfigError::Header(h.clone(), e));
                },
                Ok(_) => {},
            }
            i = i + 1;
        }
        match &self.output {
            Some(o) => match parse_output_format(o.as_str()) {
                Err(e) => {
                    return Err(ConfigError::Output(e));
                },
                Ok(_) => {},
            },
            None => {},
        }
        Ok(())
    }
}

} // verus!
