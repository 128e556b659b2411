//! Terminal presentation that involves no floating point: colouring text,
//! choosing how progress is shown, and writing an ETA.

use vstd::prelude::*;
use crate::text::{decimal_seq, u64_to_string, digits_value, all_digits};
use crate::rate_limit::lemma_decimal_digits;
use crate::config::append_str;

verus! {

/// How a piece of output is coloured.
#[derive(Debug, Clone, Copy, PartialEq, Eq, Structural)]
pub enum ColorMode {
    Success,
    Warning,
    Error,
    Neutral,
}

/// `text` under an ANSI style with the given code: the code's escape,
/// the text, and the reset escape.
pub open spec fn ansi(code: Seq<char>, text: Seq<char>) -> Seq<char> {
    "\x1b["@ + code + "m"@ + text + "\x1b[0m"@
}

/// Whether `s` is `text` styled with `code`, or `text` alone when the
/// terminal takes no colours.
pub open spec fn styled_or_plain(s: Seq<char>, code: Seq<char>, text: Seq<char>) -> bool {
    s == ansi(code, text) || s == text
}

/// `console::style(text).green().to_string()`: the text in green, or the
/// plain text where the console crate finds that stdout takes no colours
/// (which depends on the terminal and on environment variables, so two calls may
/// differ).
#[verifier::external_body]
fn paint_green(text: &str) -> (s: String)
    ensures
        styled_or_plain(s@, "32"@, text@),
{
    console::style(text).green().to_string()
}

/// `console::style(text).red().to_string()`: red, or plain as for green.
#[verifier::external_body]
fn paint_red(text: &str) -> (s: String)
    ensures
        styled_or_plain(s@, "31"@, text@),
{
    console::style(text).red().to_string()
}

/// `console::style(text).yellow().to_string()`: yellow, or plain as for
/// green.
#[verifier::external_body]
fn paint_yellow(text: &str) -> (s: String)
    ensures
        styled_or_plain(s@, "33"@, text@),
{
    console::style(text).yellow().to_string()
}

/// `console::style(text).dim().to_string()`: dimmed, or plain as for
/// green.
#[verifier::external_body]
fn paint_dim(text: &str) -> (s: String)
    ensures
        styled_or_plain(s@, "2"@, text@),
{
    console::style(text).dim().to_string()
}

/// `console::style(text).bold().to_string()`: bold, or plain as for
/// green.
#[verifier::external_body]
fn paint_bold(text: &str) -> (s: String)
    ensures
        styled_or_plain(s@, "1"@, text@),
{
    console::style(text).bold().to_string()
}

/// Text in green (plain where the terminal takes no colours).
pub fn success(text: &str) -> (s: String)
    ensures
        styled_or_plain(s@, "32"@, text@),
{
    paint_green(text)
}

/// Text in red (plain where the terminal takes no colours).
pub fn error(text: &str) -> (s: String)
    ensures
        styled_or_plain(s@, "31"@, text@),
{
    paint_red(text)
}

/// Text in yellow (plain where the terminal takes no colours).
pub fn warning(text: &str) -> (s: String)
    ensures
        styled_or_plain(s@, "33"@, text@),
{
    paint_yellow(text)
}

/// Dimmed text (plain where the terminal takes no colours).
pub fn dim(text: &str) -> (s: String)
    ensures
        styled_or_plain(s@, "2"@, text@),
{
    paint_dim(text)
}

/// Bold text (plain where the terminal takes no colours).
pub fn bold(text: &str) -> (s: String)
    ensures
        styled_or_plain(s@, "1"@, text@),
{
    paint_bold(text)
}

/// The ANSI colour code of a mode, if it has one.
pub open spec fn mode_code(mode: ColorMode) -> Option<Seq<char>> {
    match mode {
        ColorMode::Success => Some("32"@),
        ColorMode::Warning => Some("33"@),
        ColorMode::Error => Some("31"@),
        ColorMode::Neutral => None,
    }
}

/// Text coloured for its mode when colour is enabled: unchanged when it
/// is disabled or the mode is neutral.
pub fn maybe_color(text: &str, mode: ColorMode, enabled: bool) -> (s: String)
    ensures
        !enabled ==> s@ == text@,
        enabled ==> match mode_code(mode) {
            Some(code) => styled_or_plain(s@, code, text@),
            None => s@ == text@,
        },
{
    if !enabled {
        let mut s = String::new();
        append_str(&mut s, text);
        return s;
    }
    match mode {
        ColorMode::Success => success(text),
        ColorMode::Warning => warning(text),
        ColorMode::Error => error(text),
        ColorMode::Neutral => {
            let mut s = String::new();
            append_str(&mut s, text);
            s
        },
    }
}

/// Red for a count of errors above zero, neutral otherwise.
pub fn count_error_color(count: u64) -> (m: ColorMode)
    ensures
        m == if count > 0 {
            ColorMode::Error
        } else {
            ColorMode::Neutral
        },
{
    if count > 0 {
        ColorMode::Error
    } else {
        ColorMode::Neutral
    }
}

/// Yellow for a count above zero, neutral otherwise.
pub fn count_warning_color(count: u64) -> (m: ColorMode)
    ensures
        m == if count > 0 {
            ColorMode::Warning
        } else {
            ColorMode::Neutral
        },
{
    if count > 0 {
        ColorMode::Warning
    } else {
        ColorMode::Neutral
    }
}

// ---------------------------------------------------------------------------
// Progress
// ---------------------------------------------------------------------------

/// How progress is shown.
#[derive(Debug, Clone, Copy, PartialEq, Eq, Structural)]
pub enum ProgressMode {
    /// Not at all.
    Disabled,
    /// A bar over a number of requests.
    Requests,
    /// A bar over a length of time.
    Duration,
    /// A spinner, for a run without an end.
    Spinner,
}

/// How progress is shown: not at all when it is disabled or stderr is no
/// terminal; else by requests when their number is set, by time when a
/// duration is set, and as a spinner otherwise. Colour needs all three of
/// enabled progress, a terminal and enabled colour.
pub fn choose_progress_mode(
    total_requests: Option<u64>,
    has_duration: bool,
    enabled: bool,
    is_terminal: bool,
    color_enabled: bool,
) -> (r: (ProgressMode, bool))
    ensures
        r.0 == if !enabled || !is_terminal {
            ProgressMode::Disabled
        } else if total_requests is Some {
            ProgressMode::Requests
        } else if has_duration {
            ProgressMode::Duration
        } else {
            ProgressMode::Spinner
        },
        r.1 == (enabled && is_terminal && color_enabled),
{
    let color = enabled && is_terminal && color_enabled;
    if !enabled || !is_terminal {
        return (ProgressMode::Disabled, false);
    }
    let mode = match total_requests {
        Some(_) => ProgressMode::Requests,
        None => if has_duration {
            ProgressMode::Duration
        } else {
            ProgressMode::Spinner
        },
    };
    (mode, color)
}

/// A duration in whole milliseconds as a progress length: at least one,
/// and at most `u64::MAX`.
pub fn duration_to_millis(millis: u128) -> (m: u64)
    ensures
        m == if millis == 0 {
            1
        } else if millis > u64::MAX {
            u64::MAX as int
        } else {
            millis as int
        },
{
    if millis == 0 {
        1
    } else if millis > u64::MAX as u128 {
        u64::MAX
    } else {
        millis as u64
    }
}

/// The position of a timed bar: the elapsed milliseconds, up to the total.
pub fn duration_position(elapsed_millis: u64, total_millis: u64) -> (p: u64)
    ensures
        p == if elapsed_millis < total_millis {
            elapsed_millis
        } else {
            total_millis
        },
{
    if elapsed_millis < total_millis {
        elapsed_millis
    } else {
        total_millis
    }
}

// ---------------------------------------------------------------------------
// ETA
// ---------------------------------------------------------------------------

/// Two digits: a leading zero below ten.
pub open spec fn two_digits(n: nat) -> Seq<char> {
    if n < 10 {
        "0"@ + decimal_seq(n)
    } else {
        decimal_seq(n)
    }
}

/// A remaining time as `H:MM:SS` from one hour on and `MM:SS` below,
/// with any fraction of a second rounded up.
pub open spec fn format_duration_spec(secs: nat, subsec_nanos: nat) -> Seq<char> {
    let total = if subsec_nanos > 0 {
        secs + 1
    } else {
        secs
    };
    let hours = total / 3600;
    let minutes = (total % 3600) / 60;
    let seconds = total % 60;
    if hours > 0 {
        decimal_seq(hours) + ":"@ + two_digits(minutes) + ":"@ + two_digits(seconds)
    } else {
        two_digits(minutes) + ":"@ + two_digits(seconds)
    }
}

/// Every number below a hundred is written with exactly two digits that
/// read back as the number.
pub proof fn two_digits_read_back(n: nat)
    requires
        n < 100,
    ensures
        two_digits(n).len() == 2,
        all_digits(two_digits(n)),
        digits_value(two_digits(n)) == n,
{
    reveal_strlit("0");
    lemma_decimal_digits(n);
    let d = decimal_seq(n);
    if n < 10 {
        assert(d.len() == 1);
        let t = "0"@ + d;
        assert(t.drop_last() =~= "0"@);
        assert(t.last() == d.last());
        assert(d.drop_last() =~= Seq::<char>::empty());
        assert(digits_value("0"@) == digits_value(Seq::<char>::empty()) * 10 + 0) by {
            assert("0"@.drop_last() =~= Seq::<char>::empty());
        }
        assert forall|i: int| 0 <= i < t.len() implies #[trigger] crate::text::is_digit(t[i]) by {
            if i == 1 {
                assert(t[1] == d[0]);
            }
        }
    } else {
        lemma_decimal_digits(n / 10);
        assert(decimal_seq(n / 10).len() == 1);
    }
}

/// The ETA reads as hours, minutes and seconds of the remaining time,
/// rounded up to the second: for the hours `h`, minutes `m` and seconds
/// `sec` that make it up (minutes and seconds below 60), it is `h:mm:ss`
/// when there is at least an hour and `mm:ss` otherwise.
pub proof fn eta_reads_as_hours_minutes_seconds(
    secs: nat,
    subsec_nanos: nat,
    h: nat,
    m: nat,
    sec: nat,
)
    requires
        m < 60,
        sec < 60,
        h * 3600 + m * 60 + sec == secs + if subsec_nanos > 0 {
            1int
        } else {
            0int
        },
    ensures
        format_duration_spec(secs, subsec_nanos) == if h > 0 {
            decimal_seq(h) + ":"@ + two_digits(m) + ":"@ + two_digits(sec)
        } else {
            two_digits(m) + ":"@ + two_digits(sec)
        },
{
    let total: nat = if subsec_nanos > 0 {
        secs + 1
    } else {
        secs
    };
    assert(total / 3600 == h && (total % 3600) / 60 == m && total % 60 == sec) by (nonlinear_arith)
        requires
            m < 60,
            sec < 60,
            h * 3600 + m * 60 + sec == total,
    ;
}

/// Appends `n` with at least two digits.
fn push_two_digits(s: &mut String, n: u64)
    requires
        n < 100,
    ensures
        final(s)@ == old(s)@ + two_digits(n as nat),
{
    if n < 10 {
        append_str(s, "0");
    }
    let d = u64_to_string(n);
    append_str(s, d.as_str());
}

/// A remaining time given as whole seconds and nanoseconds, as `H:MM:SS`
/// from one hour on and `MM:SS` below, any fraction rounded up.
pub fn format_duration(secs: u64, subsec_nanos: u32) -> (s: String)
    requires
        secs < u64::MAX || subsec_nanos == 0,
    ensures
        s@ == format_duration_spec(secs as nat, subsec_nanos as nat),
{
    let total = if subsec_nanos > 0 {
        secs + 1
    } else {
        secs
    };
    let hours = total / 3600;
    let minutes = (total % 3600) / 60;
    let seconds = total % 60;
    let mut s = String::new();
    if hours > 0 {
        let h = u64_to_string(hours);
        append_str(&mut s, h.as_str());
        append_str(&mut s, ":");
        push_two_digits(&mut s, minutes);
        append_str(&mut s, ":");
        push_two_digits(&mut s, seconds);
    } else {
        push_two_digits(&mut s, minutes);
        append_str(&mut s, ":");
        push_two_digits(&mut s, seconds);
    }
    s
}

/// The ETA message of a progress bar: `ETA ` and the remaining time, or
/// `ETA --:--` when it cannot be estimated.
pub fn formatted_eta(eta: Option<(u64, u32)>) -> (s: String)
    requires
        match eta {
            Some((secs, nanos)) => secs < u64::MAX || nanos == 0,
            None => true,
        },
    ensures
        s@ == match eta {
            Some((secs, nanos)) => "ETA "@ + format_duration_spec(secs as nat, nanos as nat),
            None => "ETA --:--"@,
        },
{
    let mut s = String::new();
    match eta {
        Some((secs, nanos)) => {
            append_str(&mut s, "ETA ");
            let d = format_duration(secs, nanos);
            append_str(&mut s, d.as_str());
        },
        None => append_str(&mut s, "ETA --:--"),
    }
    s
}

} // verus!
