//! Rate limit settings such as `100/s`, `5000/m` or `10000/h`.

use vstd::prelude::*;
use crate::text::{
    all_digits, chars_eq_str, decimal_seq, digit_char, digit_of, digits_value, is_digit, is_ws,
    lemma_digits_value_grows, lower_chars, lower_seq, parse_unsigned, parse_unsigned_spec,
    string_from_chars, trim_bounds, trim_end_seq, trim_seq, trim_start_seq, trimmed_chars,
    u64_to_string,
};
use crate::config::{append_str, find_char, find_char_index, lemma_find_from, copy_range};

verus! {

/// The period that a rate limit counts requests over.
#[derive(Debug, Clone, Copy, PartialEq, Eq, Structural)]
pub enum RatePeriod {
    Second,
    Minute,
    Hour,
}

/// At most `rate` requests per `period`.
#[derive(Debug, Clone, Copy, PartialEq, Eq, Structural)]
pub struct RateLimitConfig {
    pub rate: u64,
    pub period: RatePeriod,
}

impl RatePeriod {
    pub open spec fn seconds(&self) -> nat {
        match self {
            RatePeriod::Second => 1,
            RatePeriod::Minute => 60,
            RatePeriod::Hour => 3600,
        }
    }

    pub open spec fn suffix_spec(&self) -> Seq<char> {
        match self {
            RatePeriod::Second => "s"@,
            RatePeriod::Minute => "m"@,
            RatePeriod::Hour => "h"@,
        }
    }

    /// The length of the period in seconds.
    pub fn duration(&self) -> (secs: u64)
        ensures
            secs == self.seconds(),
    {
        match self {
            RatePeriod::Second => 1,
            RatePeriod::Minute => 60,
            RatePeriod::Hour => 60 * 60,
        }
    }

    /// The period's short name: `s`, `m` or `h`.
    pub fn suffix(&self) -> (s: &'static str)
        ensures
            s@ == self.suffix_spec(),
    {
        match self {
            RatePeriod::Second => "s",
            RatePeriod::Minute => "m",
            RatePeriod::Hour => "h",
        }
    }
}

/// The period that a name selects, compared trimmed and in lower case.
pub open spec fn rate_period_spec(s: Seq<char>) -> Option<RatePeriod> {
    let n = lower_seq(trim_seq(s));
    if n == "s"@ || n == "sec"@ || n == "second"@ || n == "seconds"@ {
        Some(RatePeriod::Second)
    } else if n == "m"@ || n == "min"@ || n == "minute"@ || n == "minutes"@ {
        Some(RatePeriod::Minute)
    } else if n == "h"@ || n == "hour"@ || n == "hours"@ {
        Some(RatePeriod::Hour)
    } else {
        None
    }
}

/// The period names and the lengths they select: once trimmed and in
/// lower case, `s`, `sec`, `second` and `seconds` (and only they) select a
/// period of one second; `m`, `min`, `minute` and `minutes` (and only
/// they) one of 60 seconds; `h`, `hour` and `hours` (and only they) one of
/// 3600 seconds; every other name is refused.
pub proof fn period_names_select_their_length(name: Seq<char>)
    ensures
        ({
            let n = lower_seq(trim_seq(name));
            &&& (rate_period_spec(name) matches Some(p) && p.seconds() == 1) <==> (n == "s"@ || n
                == "sec"@ || n == "second"@ || n == "seconds"@)
            &&& (rate_period_spec(name) matches Some(p) && p.seconds() == 60) <==> (n == "m"@
                || n == "min"@ || n == "minute"@ || n == "minutes"@)
            &&& (rate_period_spec(name) matches Some(p) && p.seconds() == 3600) <==> (n == "h"@
                || n == "hour"@ || n == "hours"@)
            &&& rate_period_spec(name) is None <==> !(n == "s"@ || n == "sec"@ || n == "second"@
                || n == "seconds"@ || n == "m"@ || n == "min"@ || n == "minute"@ || n
                == "minutes"@ || n == "h"@ || n == "hour"@ || n == "hours"@)
        }),
{
    reveal_strlit("s");
    reveal_strlit("sec");
    reveal_strlit("second");
    reveal_strlit("seconds");
    reveal_strlit("m");
    reveal_strlit("min");
    reveal_strlit("minute");
    reveal_strlit("minutes");
    reveal_strlit("h");
    reveal_strlit("hour");
    reveal_strlit("hours");
    assert("s"@.len() == 1 && "s"@[0] == 's');
    assert("sec"@.len() == 3 && "sec"@[0] == 's');
    assert("second"@.len() == 6 && "second"@[0] == 's');
    assert("seconds"@.len() == 7 && "seconds"@[0] == 's');
    assert("m"@.len() == 1 && "m"@[0] == 'm');
    assert("min"@.len() == 3 && "min"@[0] == 'm');
    assert("minute"@.len() == 6 && "minute"@[0] == 'm');
    assert("minutes"@.len() == 7 && "minutes"@[0] == 'm');
    assert("h"@.len() == 1 && "h"@[0] == 'h');
    assert("hour"@.len() == 4 && "hour"@[0] == 'h');
    assert("hours"@.len() == 5 && "hours"@[0] == 'h');
}

/// Why a rate limit was refused.
pub enum RateLimitFault {
    Empty,
    InvalidFormat,
    InvalidValue(Seq<char>),
    UnsupportedPeriod(Seq<char>),
    Zero,
}

/// An error of the rate limit parsers, with the text its message quotes.
#[derive(Debug, Clone, PartialEq, Eq)]
pub enum RateLimitError {
    Empty,
    InvalidFormat(String),
    InvalidValue(String),
    UnsupportedPeriod(String),
    Zero,
}

impl View for RateLimitError {
    type V = RateLimitFault;

    open spec fn view(&self) -> RateLimitFault {
        match self {
            RateLimitError::Empty => RateLimitFault::Empty,
            RateLimitError::InvalidFormat(_) => RateLimitFault::InvalidFormat,
            RateLimitError::InvalidValue(v) => RateLimitFault::InvalidValue(v@),
            RateLimitError::UnsupportedPeriod(p) => RateLimitFault::UnsupportedPeriod(p@),
            RateLimitError::Zero => RateLimitFault::Zero,
        }
    }
}

impl RateLimitError {
    pub open spec fn message(&self) -> Seq<char> {
        match self {
            RateLimitError::Empty => "rate limit cannot be empty"@,
            RateLimitError::InvalidFormat(i) => "invalid rate limit format: "@ + i@
                + ". Expected: <rate>/<s|m|h>"@,
            RateLimitError::InvalidValue(v) => "invalid rate limit value: "@ + v@,
            RateLimitError::UnsupportedPeriod(p) => "unsupported rate limit period: "@ + p@
                + ". Supported periods: s, m, h"@,
            RateLimitError::Zero => "rate limit must be greater than 0"@,
        }
    }

    /// The error's message.
    pub fn to_string(&self) -> (s: String)
        ensures
            s@ == self.message(),
    {
        let mut s = String::new();
        match self {
            RateLimitError::Empty => append_str(&mut s, "rate limit cannot be empty"),
            RateLimitError::InvalidFormat(i) => {
                append_str(&mut s, "invalid rate limit format: ");
                append_str(&mut s, i.as_str());
                append_str(&mut s, ". Expected: <rate>/<s|m|h>");
            },
            RateLimitError::InvalidValue(v) => {
                append_str(&mut s, "invalid rate limit value: ");
                append_str(&mut s, v.as_str());
            },
            RateLimitError::UnsupportedPeriod(p) => {
                append_str(&mut s, "unsupported rate limit period: ");
                append_str(&mut s, p.as_str());
                append_str(&mut s, ". Supported periods: s, m, h");
            },
            RateLimitError::Zero => append_str(&mut s, "rate limit must be greater than 0"),
        }
        s
    }
}

/// What a rate limit text means: `<rate>/<period>` with a positive rate,
/// whitespace allowed around the whole and around each part.
pub open spec fn parse_rate_limit_spec(input: Seq<char>) -> Result<RateLimitConfig, RateLimitFault> {
    let t = trim_seq(input);
    let k = find_char(t, '/');
    if t.len() == 0 {
        Err(RateLimitFault::Empty)
    } else if k < 0 {
        Err(RateLimitFault::InvalidFormat)
    } else {
        let rate_part = t.subrange(0, k);
        let period_part = trim_seq(t.subrange(k + 1, t.len() as int));
        match parse_unsigned_spec(trim_seq(rate_part), u64::MAX as nat) {
            None => Err(RateLimitFault::InvalidValue(rate_part)),
            Some(rate) => match rate_period_spec(period_part) {
                None => Err(RateLimitFault::UnsupportedPeriod(period_part)),
                Some(period) => if rate == 0 {
                    Err(RateLimitFault::Zero)
                } else {
                    Ok(RateLimitConfig { rate: rate as u64, period })
                },
            },
        }
    }
}

impl RateLimitConfig {
    /// Refuses a rate of zero.
    pub fn validate(&self) -> (r: Result<(), RateLimitError>)
        ensures
            r is Ok <==> self.rate > 0,
            r matches Err(e) ==> e == RateLimitError::Zero,
    {
        if self.rate == 0 {
            return Err(RateLimitError::Zero);
        }
        Ok(())
    }

    /// The length of the period in seconds.
    pub fn interval(&self) -> (secs: u64)
        ensures
            secs == self.period.seconds(),
    {
        self.period.duration()
    }

    pub open spec fn display_spec(&self) -> Seq<char> {
        decimal_seq(self.rate as nat) + "/"@ + self.period.suffix_spec()
    }

    /// The limit as text, such as `100/s`.
    pub fn as_display_string(&self) -> (s: String)
        ensures
            s@ == self.display_spec(),
    {
        let mut s = u64_to_string(self.rate);
        append_str(&mut s, "/");
        append_str(&mut s, self.period.suffix());
        s
    }
}

/// Parses a rate period name: `s`, `sec`, `second`, `seconds`, `m`, `min`,
/// `minute`, `minutes`, `h`, `hour` or `hours`, in any ASCII case.
pub fn parse_rate_period(input: &str) -> (r: Result<RatePeriod, RateLimitError>)
    ensures
        match r {
            Ok(p) => rate_period_spec(input@) == Some(p),
            Err(e) => rate_period_spec(input@) is None && e@ == RateLimitFault::UnsupportedPeriod(
                input@,
            ),
        },
{
    let t = trimmed_chars(input);
    let n = lower_chars(&t);
    if chars_eq_str(&n, "s") || chars_eq_str(&n, "sec") || chars_eq_str(&n, "second")
        || chars_eq_str(&n, "seconds") {
        Ok(RatePeriod::Second)
    } else if chars_eq_str(&n, "m") || chars_eq_str(&n, "min") || chars_eq_str(&n, "minute")
        || chars_eq_str(&n, "minutes") {
        Ok(RatePeriod::Minute)
    } else if chars_eq_str(&n, "h") || chars_eq_str(&n, "hour") || chars_eq_str(&n, "hours") {
        Ok(RatePeriod::Hour)
    } else {
        Err(RateLimitError::UnsupportedPeriod(String::from_str(input)))
    }
}

/// Parses a rate limit such as `100/s`, `5000/m` or `10000/h`.
pub fn parse_rate_limit(input: &str) -> (r: Result<RateLimitConfig, RateLimitError>)
    ensures
        match r {
            Ok(c) => parse_rate_limit_spec(input@) == Ok::<RateLimitConfig, RateLimitFault>(c),
            Err(e) => parse_rate_limit_spec(input@) == Err::<RateLimitConfig, RateLimitFault>(e@),
        },
        r matches Err(RateLimitError::InvalidFormat(x)) ==> x@ == trim_seq(input@),
{
    let t = trimmed_chars(input);
    if t.len() == 0 {
        return Err(RateLimitError::Empty);
    }
    let k = match find_char_index(&t, '/') {
        None => {
            return Err(RateLimitError::InvalidFormat(string_from_chars(&t)));
        },
        Some(k) => k,
    };
    let rate_part = copy_range(&t, 0, k);
    let period_all = copy_range(&t, k + 1, t.len());
    let (a, b) = trim_bounds(&rate_part);
    let rate_trimmed = copy_range(&rate_part, a, b);
    let (c, d) = trim_bounds(&period_all);
    let period_part = copy_range(&period_all, c, d);
    let rate = match parse_unsigned(&rate_trimmed, u64::MAX) {
        None => {
            return Err(RateLimitError::InvalidValue(string_from_chars(&rate_part)));
        },
        Some(r) => r,
    };
    let period_text = string_from_chars(&period_part);
    let period = match parse_rate_period(period_text.as_str()) {
        Err(_) => {
            return Err(RateLimitError::UnsupportedPeriod(period_text));
        },
        Ok(p) => p,
    };
    let config = RateLimitConfig { rate, period };
    if rate == 0 {
        return Err(RateLimitError::Zero);
    }
    Ok(config)
}

/// The decimal rendering of a number is a non-empty run of digits whose
/// value is the number.
pub proof fn lemma_decimal_digits(n: nat)
    ensures
        decimal_seq(n).len() > 0,
        all_digits(decimal_seq(n)),
        digits_value(decimal_seq(n)) == n,
    decreases n,
{
    if n < 10 {
        let d = decimal_seq(n);
        assert(d == seq![digit_char(n)]);
        assert(d.drop_last() =~= Seq::<char>::empty());
        assert(digit_char(n) as u32 == n + 48);
        assert(digit_of(d.last()) == n);
        assert(digits_value(d) == digits_value(d.drop_last()) * 10 + digit_of(d.last()));
        assert(digits_value(d.drop_last()) == 0);
    } else {
        lemma_decimal_digits(n / 10);
        let prefix = decimal_seq(n / 10);
        let c = digit_char(n % 10);
        assert(c as u32 == n % 10 + 48);
        assert(decimal_seq(n) == prefix.push(c));
        lemma_digits_value_grows(prefix, c);
        assert(digit_of(c) == n % 10);
        assert((n / 10) * 10 + n % 10 == n) by (nonlinear_arith);
        assert forall|i: int| 0 <= i < prefix.push(c).len() implies #[trigger] is_digit(
            prefix.push(c)[i],
        ) by {
            if i < prefix.len() {
                assert(prefix.push(c)[i] == prefix[i]);
            }
        }
    }
}

/// Text that neither starts nor ends with whitespace is its own trim.
proof fn lemma_trim_unchanged(s: Seq<char>)
    requires
        s.len() > 0,
        !is_ws(s[0]),
        !is_ws(s.last()),
    ensures
        trim_seq(s) == s,
{
    assert(trim_start_seq(s) == s);
    assert(trim_end_seq(s) == s);
}

/// Parsing the text of a rate limit gives the rate limit back: reading
/// undoes `as_display_string` for every rate above zero.
pub proof fn display_then_parse_round_trips(config: RateLimitConfig)
    requires
        config.rate > 0,
    ensures
        parse_rate_limit_spec(config.display_spec()) == Ok::<RateLimitConfig, RateLimitFault>(
            config,
        ),
{
    let d = decimal_seq(config.rate as nat);
    lemma_decimal_digits(config.rate as nat);
    reveal_strlit("/");
    reveal_strlit("s");
    reveal_strlit("m");
    reveal_strlit("h");
    reveal_strlit("sec");
    reveal_strlit("second");
    reveal_strlit("seconds");
    reveal_strlit("min");
    reveal_strlit("minute");
    reveal_strlit("minutes");
    reveal_strlit("hour");
    reveal_strlit("hours");
    let suffix = config.period.suffix_spec();
    assert(suffix.len() == 1);
    let t = d + "/"@ + suffix;
    assert(t == config.display_spec());
    assert(is_digit(d[0]));
    assert(t[0] == d[0]);
    assert(!is_ws(t[0]));
    assert(t.last() == suffix[0]);
    assert(!is_ws(t.last()));
    lemma_trim_unchanged(t);
    let k = d.len() as int;
    assert(t[k] == '/');
    lemma_find_from(t, '/', 0);
    let f = find_char(t, '/');
    assert(f == k) by {
        if f == -1 {
            assert(t[k] != '/');
        } else if f < k {
            assert(is_digit(d[f]));
            assert(t[f] == d[f]);
        } else if f > k {
            assert(t[k] != '/');
        }
    }
    assert(t.subrange(0, k) =~= d);
    assert(t.subrange(k + 1, t.len() as int) =~= suffix);
    assert(is_digit(d.last()));
    lemma_trim_unchanged(d);
    lemma_trim_unchanged(suffix);
    assert(d[0] != '+');
    assert(lower_seq(suffix) =~= suffix);
    assert(parse_unsigned_spec(d, u64::MAX as nat) == Some(config.rate as nat));
}

} // verus!
