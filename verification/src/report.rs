//! The parts of the HTML report that are counted rather than measured:
//! latency buckets, status-code and error breakdowns, the validation
//! section, and the escaping of the embedded JSON.
//!
//! Latencies are in microseconds; a bucket bound of `n` milliseconds is
//! `n * 1000` microseconds.

use vstd::prelude::*;
use std::collections::BTreeMap;
use crate::text::{chars_of, decimal_seq, u64_to_string, string_from_chars};
use crate::config::append_str;
use crate::rate_limit::RateLimitConfig;
use crate::stats::{ErrorCounts, texts};
use crate::validation::ValidationConfig;

verus! {

broadcast use vstd::std_specs::btree::group_btree_axioms;

/// A labelled count in a chart.
#[derive(Debug, Clone, PartialEq, Eq)]
pub struct ChartPoint {
    pub label: String,
    pub value: u64,
}

/// How many of `latencies` fall in each bucket, for `bucket_of` mapping a
/// latency to its bucket.
pub open spec fn bucket_count(latencies: Seq<u64>, bucket: spec_fn(u64) -> int, b: int) -> nat
    decreases latencies.len(),
{
    if latencies.len() == 0 {
        0
    } else {
        bucket_count(latencies.drop_last(), bucket, b) + if bucket(latencies.last()) == b {
            1nat
        } else {
            0nat
        }
    }
}

/// The chart bucket of a latency: up to 50 ms, 100 ms, 250 ms, 500 ms,
/// 1 s, and above.
pub open spec fn chart_bucket(micros: u64) -> int {
    if micros <= 50_000 {
        0
    } else if micros <= 100_000 {
        1
    } else if micros <= 250_000 {
        2
    } else if micros <= 500_000 {
        3
    } else if micros <= 1_000_000 {
        4
    } else {
        5
    }
}

/// The histogram bucket of a latency: below 1, 5, 10, 25, 50, 100, 250
/// and 500 ms, up to 1 s, and above.
pub open spec fn histogram_bucket(micros: u64) -> int {
    if micros < 1_000 {
        0
    } else if micros < 5_000 {
        1
    } else if micros < 10_000 {
        2
    } else if micros < 25_000 {
        3
    } else if micros < 50_000 {
        4
    } else if micros < 100_000 {
        5
    } else if micros < 250_000 {
        6
    } else if micros < 500_000 {
        7
    } else if micros <= 1_000_000 {
        8
    } else {
        9
    }
}

/// The total of the first `n` buckets' counts.
pub open spec fn buckets_total(latencies: Seq<u64>, bucket: spec_fn(u64) -> int, n: nat) -> nat
    decreases n,
{
    if n == 0 {
        0
    } else {
        buckets_total(latencies, bucket, (n - 1) as nat) + bucket_count(
            latencies,
            bucket,
            n - 1,
        )
    }
}

/// Counting into buckets one latency at a time adds one to exactly one
/// bucket.
proof fn lemma_counts_grow(
    latencies: Seq<u64>,
    bucket: spec_fn(u64) -> int,
    n: int,
    i: int,
)
    requires
        0 <= i < latencies.len(),
        0 <= bucket(latencies[i]) < n,
    ensures
        forall|b: int|
            #![trigger bucket_count(latencies.subrange(0, i + 1), bucket, b)]
            bucket_count(latencies.subrange(0, i + 1), bucket, b) == bucket_count(
                latencies.subrange(0, i),
                bucket,
                b,
            ) + if bucket(latencies[i]) == b {
                1nat
            } else {
                0nat
            },
{
    assert(latencies.subrange(0, i + 1).drop_last() =~= latencies.subrange(0, i));
}

/// With one more latency, the first `n` buckets hold one more exactly
/// when the latency falls among them.
proof fn lemma_total_grows(latencies: Seq<u64>, bucket: spec_fn(u64) -> int, n: nat)
    requires
        latencies.len() > 0,
    ensures
        buckets_total(latencies, bucket, n) == buckets_total(latencies.drop_last(), bucket, n) + if 0
            <= bucket(latencies.last()) < n {
            1nat
        } else {
            0nat
        },
    decreases n,
{
    if n > 0 {
        lemma_total_grows(latencies, bucket, (n - 1) as nat);
    }
}

/// The counts of `n` buckets add up to the number of latencies when every
/// latency falls in one of them.
proof fn lemma_bucket_counts_total(latencies: Seq<u64>, bucket: spec_fn(u64) -> int, n: nat)
    requires
        forall|i: int| 0 <= i < latencies.len() ==> 0 <= #[trigger] bucket(latencies[i]) < n,
    ensures
        buckets_total(latencies, bucket, n) == latencies.len(),
    decreases latencies.len(),
{
    if latencies.len() > 0 {
        let prefix = latencies.drop_last();
        assert forall|i: int| 0 <= i < prefix.len() implies 0 <= #[trigger] bucket(prefix[i])
            < n by {
            assert(prefix[i] == latencies[i]);
        }
        lemma_bucket_counts_total(prefix, bucket, n);
        lemma_total_grows(latencies, bucket, n);
        assert(0 <= bucket(latencies[latencies.len() - 1]) < n);
    } else {
        lemma_total_empty(latencies, bucket, n);
    }
}

proof fn lemma_total_empty(latencies: Seq<u64>, bucket: spec_fn(u64) -> int, n: nat)
    requires
        latencies.len() == 0,
    ensures
        buckets_total(latencies, bucket, n) == 0,
    decreases n,
{
    if n > 0 {
        lemma_total_empty(latencies, bucket, (n - 1) as nat);
    }
}

/// Counts latencies into `n` buckets.
fn count_buckets(latencies: &Vec<u64>, n: usize, chart: bool) -> (counts: Vec<u64>)
    requires
        n == (if chart {
            6usize
        } else {
            10usize
        }),
    ensures
        counts@.len() == n,
        forall|b: int|
            0 <= b < n ==> #[trigger] counts@[b] == bucket_count(
                latencies@,
                if chart {
                    |m: u64| chart_bucket(m)
                } else {
                    |m: u64| histogram_bucket(m)
                },
                b,
            ),
{
    let ghost bucket: spec_fn(u64) -> int = if chart {
        |m: u64| chart_bucket(m)
    } else {
        |m: u64| histogram_bucket(m)
    };
    let mut counts: Vec<u64> = Vec::new();
    let mut b: usize = 0;
    while b < n
        invariant
            b <= n,
            counts@.len() == b,
            forall|k: int| 0 <= k < b ==> counts@[k] == 0,
        decreases n - b,
    {
        counts.push(0);
        b = b + 1;
    }
    let mut i: usize = 0;
    while i < latencies.len()
        invariant
            i <= latencies@.len(),
            n == (if chart {
                6usize
            } else {
                10usize
            }),
            bucket == (if chart {
                |m: u64| chart_bucket(m)
            } else {
                |m: u64| histogram_bucket(m)
            }),
            counts@.len() == n,
            forall|k: int|
                0 <= k < n ==> #[trigger] counts@[k] == bucket_count(
                    latencies@.subrange(0, i as int),
                    bucket,
                    k,
                ),
            forall|k: int| 0 <= k < n ==> counts@[k] <= i,
        decreases latencies.len() - i,
    {
        let m = latencies[i];
        let index: usize = if chart {
            if m <= 50_000 {
                0
            } else if m <= 100_000 {
                1
            } else if m <= 250_000 {
                2
            } else if m <= 500_000 {
                3
            } else if m <= 1_000_000 {
                4
            } else {
                5
            }
        } else {
            if m < 1_000 {
                0
            } else if m < 5_000 {
                1
            } else if m < 10_000 {
                2
            } else if m < 25_000 {
                3
            } else if m < 50_000 {
                4
            } else if m < 100_000 {
                5
            } else if m < 250_000 {
                6
            } else if m < 500_000 {
                7
            } else if m <= 1_000_000 {
                8
            } else {
                9
            }
        };
        proof {
            assert(bucket(m) == index as int);
            lemma_counts_grow(latencies@, bucket, n as int, i as int);
        }
        let c = counts[index];
        counts.set(index, c + 1);
        proof {
            assert forall|k: int| 0 <= k < n implies #[trigger] counts@[k] == bucket_count(
                latencies@.subrange(0, i + 1),
                bucket,
                k,
            ) by {
                assert(bucket_count(latencies@.subrange(0, i + 1), bucket, k) == bucket_count(
                    latencies@.subrange(0, i as int),
                    bucket,
                    k,
                ) + if bucket(latencies@[i as int]) == k {
                    1nat
                } else {
                    0nat
                });
            }
        }
        i = i + 1;
    }
    proof {
        assert(latencies@.subrange(0, latencies@.len() as int) =~= latencies@);
    }
    counts
}

/// The labels of the chart's latency buckets.
pub open spec fn chart_labels() -> Seq<Seq<char>> {
    seq!["0-50ms"@, "50-100ms"@, "100-250ms"@, "250-500ms"@, "500ms-1s"@, ">1s"@]
}

/// The labels of the histogram's latency buckets.
pub open spec fn histogram_labels() -> Seq<Seq<char>> {
    seq![
        "<1ms"@,
        "1-5ms"@,
        "5-10ms"@,
        "10-25ms"@,
        "25-50ms"@,
        "50-100ms"@,
        "100-250ms"@,
        "250-500ms"@,
        "500ms-1s"@,
        ">1s"@,
    ]
}

/// A chart point.
fn point(label: &str, value: u64) -> (p: ChartPoint)
    ensures
        p.label@ == label@,
        p.value == value,
{
    let mut s = String::new();
    append_str(&mut s, label);
    ChartPoint { label: s, value }
}

/// The latencies of the chart in six buckets: up to 50 ms, 100 ms,
/// 250 ms, 500 ms, 1 s, and above (bounds included).
pub fn latency_buckets(latencies: &Vec<u64>) -> (points: Vec<ChartPoint>)
    ensures
        points@.len() == 6,
        forall|b: int|
            0 <= b < 6 ==> (#[trigger] points@[b]).label@ == chart_labels()[b] && points@[b].value
                == bucket_count(latencies@, |m: u64| chart_bucket(m), b),
{
    let counts = count_buckets(latencies, 6, true);
    let mut points: Vec<ChartPoint> = Vec::new();
    points.push(point("0-50ms", counts[0]));
    points.push(point("50-100ms", counts[1]));
    points.push(point("100-250ms", counts[2]));
    points.push(point("250-500ms", counts[3]));
    points.push(point("500ms-1s", counts[4]));
    points.push(point(">1s", counts[5]));
    points
}

/// The latencies of the report's histogram in ten buckets: below 1, 5,
/// 10, 25, 50, 100, 250 and 500 ms, up to 1 s, and above.
pub fn latency_histogram_counts(latencies: &Vec<u64>) -> (points: Vec<ChartPoint>)
    ensures
        points@.len() == 10,
        forall|b: int|
            0 <= b < 10 ==> (#[trigger] points@[b]).label@ == histogram_labels()[b]
                && points@[b].value == bucket_count(latencies@, |m: u64| histogram_bucket(m), b),
{
    let counts = count_buckets(latencies, 10, false);
    let mut points: Vec<ChartPoint> = Vec::new();
    points.push(point("<1ms", counts[0]));
    points.push(point("1-5ms", counts[1]));
    points.push(point("5-10ms", counts[2]));
    points.push(point("10-25ms", counts[3]));
    points.push(point("25-50ms", counts[4]));
    points.push(point("50-100ms", counts[5]));
    points.push(point("100-250ms", counts[6]));
    points.push(point("250-500ms", counts[7]));
    points.push(point("500ms-1s", counts[8]));
    points.push(point(">1s", counts[9]));
    points
}

/// Every latency lands in exactly one bucket: the six chart buckets and
/// the ten histogram buckets each add up to the number of latencies.
pub proof fn buckets_hold_every_latency(latencies: Seq<u64>)
    ensures
        buckets_total(latencies, |m: u64| chart_bucket(m), 6) == latencies.len(),
        buckets_total(latencies, |m: u64| histogram_bucket(m), 10) == latencies.len(),
{
    lemma_bucket_counts_total(latencies, |m: u64| chart_bucket(m), 6);
    lemma_bucket_counts_total(latencies, |m: u64| histogram_bucket(m), 10);
}

/// Counting into a bucket counts the latencies that a test picks out,
/// when the bucket holds exactly the latencies the test accepts.
proof fn lemma_bucket_count_is_filter(
    latencies: Seq<u64>,
    bucket: spec_fn(u64) -> int,
    b: int,
    inside: spec_fn(u64) -> bool,
)
    requires
        forall|m: u64| (#[trigger] bucket(m) == b) == inside(m),
    ensures
        bucket_count(latencies, bucket, b) == latencies.filter(inside).len(),
    decreases latencies.len(),
{
    reveal(Seq::filter);
    if latencies.len() > 0 {
        lemma_bucket_count_is_filter(latencies.drop_last(), bucket, b, inside);
        assert(bucket(latencies.last()) == b <==> inside(latencies.last()));
    }
}

/// Each point of the latency chart counts exactly the latencies inside the
/// range its label names (bounds in microseconds, upper bound included):
/// `0-50ms` up to 50 ms, `50-100ms` above 50 ms up to 100 ms, `100-250ms`
/// above 100 ms up to 250 ms, `250-500ms` above 250 ms up to 500 ms,
/// `500ms-1s` above 500 ms up to 1 s, and `>1s` above 1 s.
pub proof fn chart_points_count_their_ranges(latencies: Seq<u64>)
    ensures
        bucket_count(latencies, |m: u64| chart_bucket(m), 0) == latencies.filter(
            |m: u64| m <= 50_000,
        ).len(),
        bucket_count(latencies, |m: u64| chart_bucket(m), 1) == latencies.filter(
            |m: u64| 50_000 < m && m <= 100_000,
        ).len(),
        bucket_count(latencies, |m: u64| chart_bucket(m), 2) == latencies.filter(
            |m: u64| 100_000 < m && m <= 250_000,
        ).len(),
        bucket_count(latencies, |m: u64| chart_bucket(m), 3) == latencies.filter(
            |m: u64| 250_000 < m && m <= 500_000,
        ).len(),
        bucket_count(latencies, |m: u64| chart_bucket(m), 4) == latencies.filter(
            |m: u64| 500_000 < m && m <= 1_000_000,
        ).len(),
        bucket_count(latencies, |m: u64| chart_bucket(m), 5) == latencies.filter(
            |m: u64| 1_000_000 < m,
        ).len(),
{
    let f = |m: u64| chart_bucket(m);
    lemma_bucket_count_is_filter(latencies, f, 0, |m: u64| m <= 50_000);
    lemma_bucket_count_is_filter(latencies, f, 1, |m: u64| 50_000 < m && m <= 100_000);
    lemma_bucket_count_is_filter(latencies, f, 2, |m: u64| 100_000 < m && m <= 250_000);
    lemma_bucket_count_is_filter(latencies, f, 3, |m: u64| 250_000 < m && m <= 500_000);
    lemma_bucket_count_is_filter(latencies, f, 4, |m: u64| 500_000 < m && m <= 1_000_000);
    lemma_bucket_count_is_filter(latencies, f, 5, |m: u64| 1_000_000 < m);
}

/// Each bar of the report's histogram counts exactly the latencies inside
/// the range its label names (bounds in microseconds): `<1ms` below 1 ms,
/// `1-5ms` from 1 ms to below 5 ms, and so on through `250-500ms`;
/// `500ms-1s` from 500 ms up to 1 s included, and `>1s` above 1 s.
pub proof fn histogram_bars_count_their_ranges(latencies: Seq<u64>)
    ensures
        bucket_count(latencies, |m: u64| histogram_bucket(m), 0) == latencies.filter(
            |m: u64| m < 1_000,
        ).len(),
        bucket_count(latencies, |m: u64| histogram_bucket(m), 1) == latencies.filter(
            |m: u64| 1_000 <= m && m < 5_000,
        ).len(),
        bucket_count(latencies, |m: u64| histogram_bucket(m), 2) == latencies.filter(
            |m: u64| 5_000 <= m && m < 10_000,
        ).len(),
        bucket_count(latencies, |m: u64| histogram_bucket(m), 3) == latencies.filter(
            |m: u64| 10_000 <= m && m < 25_000,
        ).len(),
        bucket_count(latencies, |m: u64| histogram_bucket(m), 4) == latencies.filter(
            |m: u64| 25_000 <= m && m < 50_000,
        ).len(),
        bucket_count(latencies, |m: u64| histogram_bucket(m), 5) == latencies.filter(
            |m: u64| 50_000 <= m && m < 100_000,
        ).len(),
        bucket_count(latencies, |m: u64| histogram_bucket(m), 6) == latencies.filter(
            |m: u64| 100_000 <= m && m < 250_000,
        ).len(),
        bucket_count(latencies, |m: u64| histogram_bucket(m), 7) == latencies.filter(
            |m: u64| 250_000 <= m && m < 500_000,
        ).len(),
        bucket_count(latencies, |m: u64| histogram_bucket(m), 8) == latencies.filter(
            |m: u64| 500_000 <= m && m <= 1_000_000,
        ).len(),
        bucket_count(latencies, |m: u64| histogram_bucket(m), 9) == latencies.filter(
            |m: u64| 1_000_000 < m,
        ).len(),
{
    let f = |m: u64| histogram_bucket(m);
    lemma_bucket_count_is_filter(latencies, f, 0, |m: u64| m < 1_000);
    lemma_bucket_count_is_filter(latencies, f, 1, |m: u64| 1_000 <= m && m < 5_000);
    lemma_bucket_count_is_filter(latencies, f, 2, |m: u64| 5_000 <= m && m < 10_000);
    lemma_bucket_count_is_filter(latencies, f, 3, |m: u64| 10_000 <= m && m < 25_000);
    lemma_bucket_count_is_filter(latencies, f, 4, |m: u64| 25_000 <= m && m < 50_000);
    lemma_bucket_count_is_filter(latencies, f, 5, |m: u64| 50_000 <= m && m < 100_000);
    lemma_bucket_count_is_filter(latencies, f, 6, |m: u64| 100_000 <= m && m < 250_000);
    lemma_bucket_count_is_filter(latencies, f, 7, |m: u64| 250_000 <= m && m < 500_000);
    lemma_bucket_count_is_filter(latencies, f, 8, |m: u64| 500_000 <= m && m <= 1_000_000);
    lemma_bucket_count_is_filter(latencies, f, 9, |m: u64| 1_000_000 < m);
}

/// Whether `entries` lists the map's entries in increasing key order:
/// each entry is in the map, every key of the map has an entry, and the
/// keys increase.
pub open spec fn sorted_entries_of(entries: Seq<(u16, u64)>, m: Map<u16, u64>) -> bool {
    &&& forall|i: int|
        0 <= i < entries.len() ==> m.contains_key(#[trigger] entries[i].0) && m[entries[i].0]
            == entries[i].1
    &&& forall|k: u16| #[trigger] m.contains_key(k) ==> exists|i: int| 0 <= i < entries.len() && #[trigger] entries[i].0 == k
    &&& forall|i: int, j: int| 0 <= i < j < entries.len() ==> entries[i].0 < entries[j].0
}

/// The status codes and their counts in increasing order of code.
pub fn status_code_counts(codes: &BTreeMap<u16, u64>) -> (entries: Vec<(u16, u64)>)
    ensures
        sorted_entries_of(entries@, codes@),
{
    let mut entries: Vec<(u16, u64)> = Vec::new();
    let mut code: u32 = 0;
    while code <= 65535
        invariant
            code <= 65536,
            forall|i: int|
                0 <= i < entries@.len() ==> codes@.contains_key(#[trigger] entries@[i].0)
                    && codes@[entries@[i].0] == entries@[i].1 && entries@[i].0 < code,
            forall|k: u16| #[trigger] codes@.contains_key(k) && k < code ==> exists|i: int| 0 <= i < entries@.len() && #[trigger] entries@[i].0 == k,
            forall|i: int, j: int| 0 <= i < j < entries@.len() ==> entries@[i].0 < entries@[j].0,
        decreases 65536 - code,
    {
        let key = code as u16;
        match codes.get(&key) {
            Some(count) => {
                let ghost before = entries@;
                entries.push((key, *count));
                proof {
                    assert(entries@[before.len() as int].0 == key);
                    assert forall|k: u16| #[trigger] codes@.contains_key(k) && k < code + 1 implies exists|i: int| 0 <= i < entries@.len() && #[trigger] entries@[i].0 == k by {
                        if k < code {
                            let i = choose|i: int| 0 <= i < before.len() && #[trigger] before[i].0 == k;
                            assert(entries@[i].0 == k);
                        } else {
                            assert(entries@[before.len() as int].0 == k);
                        }
                    }
                }
            },
            None => {},
        }
        code = code + 1;
    }
    entries
}

/// The status codes as chart points labelled with the code, in increasing
/// order of code.
pub fn status_code_points(codes: &BTreeMap<u16, u64>) -> (points: Vec<ChartPoint>)
    ensures
        exists|entries: Seq<(u16, u64)>|
            #[trigger] sorted_entries_of(entries, codes@) && points@.len() == entries.len() && (
            forall|i: int|
                0 <= i < entries.len() ==> (#[trigger] points@[i]).label@ == decimal_seq(
                    entries[i].0 as nat,
                ) && points@[i].value == entries[i].1),
{
    let entries = status_code_counts(codes);
    let mut points: Vec<ChartPoint> = Vec::new();
    let mut i: usize = 0;
    while i < entries.len()
        invariant
            i <= entries@.len(),
            points@.len() == i,
            forall|k: int|
                0 <= k < i ==> (#[trigger] points@[k]).label@ == decimal_seq(entries@[k].0 as nat)
                    && points@[k].value == entries@[k].1,
        decreases entries.len() - i,
    {
        let (code, count) = entries[i];
        let label = u64_to_string(code as u64);
        points.push(ChartPoint { label, value: count });
        i = i + 1;
    }
    points
}

/// The labels and counts of the error kinds, in their fixed order.
pub open spec fn error_kinds(c: ErrorCounts) -> Seq<(Seq<char>, u64)> {
    seq![
        ("Timeout"@, c.timeout),
        ("Connection"@, c.connection),
        ("HTTP 4xx"@, c.http_4xx),
        ("HTTP 5xx"@, c.http_5xx),
        ("HTTP Other"@, c.http_other),
        ("Other"@, c.other),
    ]
}

/// The error kinds that occurred, in their fixed order.
pub open spec fn nonzero_kinds(kinds: Seq<(Seq<char>, u64)>) -> Seq<(Seq<char>, u64)> {
    kinds.filter(|k: (Seq<char>, u64)| k.1 > 0)
}

/// The chart points of a list of labels and counts.
pub open spec fn points_view(points: Seq<ChartPoint>) -> Seq<(Seq<char>, u64)> {
    points.map_values(|p: ChartPoint| (p.label@, p.value))
}

/// The error kinds that occurred, as chart points in the order Timeout,
/// Connection, HTTP 4xx, HTTP 5xx, HTTP Other, Other.
pub fn error_breakdown_points(error_counts: &ErrorCounts) -> (points: Vec<ChartPoint>)
    ensures
        points_view(points@) == nonzero_kinds(error_kinds(*error_counts)),
{
    let mut points: Vec<ChartPoint> = Vec::new();
    let ghost kinds = error_kinds(*error_counts);
    if error_counts.timeout > 0 {
        points.push(point("Timeout", error_counts.timeout));
    }
    proof {
        lemma_filter_push(kinds.subrange(0, 0), kinds[0]);
        assert(nonzero_kinds(Seq::<(Seq<char>, u64)>::empty()) =~= Seq::<(Seq<char>, u64)>::empty()) by {
            reveal(Seq::filter);
        }
        assert(kinds.subrange(0, 1) =~= kinds.subrange(0, 0).push(kinds[0]));
        assert(kinds.subrange(0, 0) =~= Seq::<(Seq<char>, u64)>::empty());
        assert(points_view(points@) =~= nonzero_kinds(kinds.subrange(0, 1)));
    }
    if error_counts.connection > 0 {
        points.push(point("Connection", error_counts.connection));
    }
    proof {
        lemma_filter_push(kinds.subrange(0, 1), kinds[1]);
        assert(kinds.subrange(0, 2) =~= kinds.subrange(0, 1).push(kinds[1]));
        assert(points_view(points@) =~= nonzero_kinds(kinds.subrange(0, 2)));
    }
    if error_counts.http_4xx > 0 {
        points.push(point("HTTP 4xx", error_counts.http_4xx));
    }
    proof {
        lemma_filter_push(kinds.subrange(0, 2), kinds[2]);
        assert(kinds.subrange(0, 3) =~= kinds.subrange(0, 2).push(kinds[2]));
        assert(points_view(points@) =~= nonzero_kinds(kinds.subrange(0, 3)));
    }
    if error_counts.http_5xx > 0 {
        points.push(point("HTTP 5xx", error_counts.http_5xx));
    }
    proof {
        lemma_filter_push(kinds.subrange(0, 3), kinds[3]);
        assert(kinds.subrange(0, 4) =~= kinds.subrange(0, 3).push(kinds[3]));
        assert(points_view(points@) =~= nonzero_kinds(kinds.subrange(0, 4)));
    }
    if error_counts.http_other > 0 {
        points.push(point("HTTP Other", error_counts.http_other));
    }
    proof {
        lemma_filter_push(kinds.subrange(0, 4), kinds[4]);
        assert(kinds.subrange(0, 5) =~= kinds.subrange(0, 4).push(kinds[4]));
        assert(points_view(points@) =~= nonzero_kinds(kinds.subrange(0, 5)));
    }
    if error_counts.other > 0 {
        points.push(point("Other", error_counts.other));
    }
    proof {
        lemma_filter_push(kinds.subrange(0, 5), kinds[5]);
        assert(kinds.subrange(0, 6) =~= kinds.subrange(0, 5).push(kinds[5]));
        assert(kinds.subrange(0, 6) =~= kinds);
        assert(points_view(points@) =~= nonzero_kinds(kinds));
    }
    points
}

/// Filtering a sequence with one more item filters the item on its own.
proof fn lemma_filter_push(s: Seq<(Seq<char>, u64)>, x: (Seq<char>, u64))
    ensures
        nonzero_kinds(s.push(x)) == if x.1 > 0 {
            nonzero_kinds(s).push(x)
        } else {
            nonzero_kinds(s)
        },
{
    reveal(Seq::filter);
    assert(s.push(x).drop_last() =~= s);
}

/// The validation section of the report.
#[derive(Debug, Clone, PartialEq, Eq)]
pub struct ValidationReport {
    pub expected_status: Option<Vec<u16>>,
    pub expected_body: Option<String>,
    pub expected_headers: Vec<String>,
    pub failures: Vec<String>,
}

/// Whether a validation setting checks anything: a status list, a body
/// pattern, or at least one header.
pub open spec fn has_expectations(validation: Option<ValidationConfig>) -> bool {
    match validation {
        Some(v) => v.expect_status is Some || v.expect_body is Some || match v.expect_headers {
            Some(h) => h@.len() > 0,
            None => false,
        },
        None => false,
    }
}

/// `key: value` for an expected header.
pub open spec fn header_line(key: Seq<char>, value: Seq<char>) -> Seq<char> {
    key + ": "@ + value
}

/// A copy of a list of statuses.
fn copy_statuses(v: &Vec<u16>) -> (c: Vec<u16>)
    ensures
        c@ == v@,
{
    let mut c: Vec<u16> = Vec::new();
    let mut i: usize = 0;
    while i < v.len()
        invariant
            i <= v@.len(),
            c@ == v@.subrange(0, i as int),
        decreases v.len() - i,
    {
        c.push(v[i]);
        i = i + 1;
        proof {
            assert(c@ =~= v@.subrange(0, i as int));
        }
    }
    c
}

/// A copy of a list of strings.
fn copy_strings(v: &Vec<String>) -> (c: Vec<String>)
    ensures
        texts(c@) == texts(v@),
{
    let mut c: Vec<String> = Vec::new();
    let mut i: usize = 0;
    while i < v.len()
        invariant
            i <= v@.len(),
            texts(c@) == texts(v@.subrange(0, i as int)),
        decreases v.len() - i,
    {
        let ghost before = c@;
        c.push(v[i].clone());
        proof {
            assert(texts(c@) =~= texts(before).push(v@[i as int]@));
            assert(texts(v@.subrange(0, i + 1)) =~= texts(v@.subrange(0, i as int)).push(v@[i as int]@));
        }
        i = i + 1;
    }
    proof {
        assert(v@.subrange(0, v@.len() as int) =~= v@);
    }
    c
}

/// The expected headers as `key: value` lines.
fn header_lines(h: &Vec<(String, String)>) -> (lines: Vec<String>)
    ensures
        lines@.len() == h@.len(),
        forall|i: int| 0 <= i < h@.len() ==> (#[trigger] lines@[i])@ == header_line(h@[i].0@, h@[i].1@),
{
    let mut lines: Vec<String> = Vec::new();
    let mut i: usize = 0;
    while i < h.len()
        invariant
            i <= h@.len(),
            lines@.len() == i,
            forall|k: int| 0 <= k < i ==> (#[trigger] lines@[k])@ == header_line(h@[k].0@, h@[k].1@),
        decreases h.len() - i,
    {
        let mut s = String::new();
        append_str(&mut s, h[i].0.as_str());
        append_str(&mut s, ": ");
        append_str(&mut s, h[i].1.as_str());
        lines.push(s);
        i = i + 1;
    }
    lines
}

/// The validation section: present when something is checked or some
/// error was kept, with the expected status list and body pattern, the
/// expected headers as `key: value` lines, and the kept error messages.
pub fn build_validation_report(validation: Option<&ValidationConfig>, errors: &Vec<String>) -> (r:
    Option<ValidationReport>)
    ensures
        ({
            let v = match validation {
                Some(v) => Some(*v),
                None => None,
            };
            match r {
                None => !has_expectations(v) && errors@.len() == 0,
                Some(report) => (has_expectations(v) || errors@.len() > 0) && texts(
                    report.failures@,
                ) == texts(errors@) && match validation {
                    Some(v) => {
                        &&& match (report.expected_status, v.expect_status) {
                            (Some(a), Some(b)) => a@ == b@,
                            (None, None) => true,
                            _ => false,
                        }
                        &&& match (report.expected_body, v.expect_body) {
                            (Some(a), Some(b)) => a@ == b@,
                            (None, None) => true,
                            _ => false,
                        }
                        &&& match v.expect_headers {
                            Some(h) => report.expected_headers@.len() == h@.len() && forall|i: int|
                                0 <= i < h@.len() ==> (#[trigger] report.expected_headers@[i])@
                                    == header_line(h@[i].0@, h@[i].1@),
                            None => report.expected_headers@.len() == 0,
                        }
                    },
                    None => report.expected_status is None && report.expected_body is None
                        && report.expected_headers@.len() == 0,
                },
            }
        }),
{
    let checks = match validation {
        Some(v) => v.expect_status.is_some() || v.expect_body.is_some() || match &v.expect_headers {
            Some(h) => h.len() > 0,
            None => false,
        },
        None => false,
    };
    if !checks && errors.len() == 0 {
        return None;
    }
    let failures = copy_strings(errors);
    match validation {
        Some(v) => {
            let expected_status = match &v.expect_status {
                Some(s) => Some(copy_statuses(s)),
                None => None,
            };
            let expected_body = match &v.expect_body {
                Some(b) => Some(b.clone()),
                None => None,
            };
            let expected_headers = match &v.expect_headers {
                Some(h) => header_lines(h),
                None => Vec::new(),
            };
            Some(ValidationReport { expected_status, expected_body, expected_headers, failures })
        },
        None => Some(
            ValidationReport {
                expected_status: None,
                expected_body: None,
                expected_headers: Vec::new(),
                failures,
            },
        ),
    }
}

/// The JSON text with every `</` written `<\/`, so that it cannot close
/// the script element that holds it.
pub open spec fn escape_script_json_spec(s: Seq<char>) -> Seq<char>
    decreases s.len(),
{
    if s.len() == 0 {
        Seq::empty()
    } else if s.len() >= 2 && s[0] == '<' && s[1] == '/' {
        seq!['<', '\\', '/'] + escape_script_json_spec(s.subrange(2, s.len() as int))
    } else {
        seq![s[0]] + escape_script_json_spec(s.subrange(1, s.len() as int))
    }
}

/// The first character of an escaped text is the text's first character.
proof fn lemma_escape_first(s: Seq<char>)
    requires
        s.len() > 0,
    ensures
        escape_script_json_spec(s).len() > 0,
        escape_script_json_spec(s)[0] == s[0],
{
}

/// Escaped JSON never holds `</`, so it cannot end the script element
/// that holds it.
pub proof fn escaped_json_never_closes_script(s: Seq<char>)
    ensures
        forall|i: int|
            0 <= i < escape_script_json_spec(s).len() - 1 ==> !(
            #[trigger] escape_script_json_spec(s)[i] == '<' && escape_script_json_spec(s)[i + 1]
                == '/'),
    decreases s.len(),
{
    if s.len() == 0 {
    } else if s.len() >= 2 && s[0] == '<' && s[1] == '/' {
        let rest = s.subrange(2, s.len() as int);
        escaped_json_never_closes_script(rest);
        let e = escape_script_json_spec(s);
        let r = escape_script_json_spec(rest);
        assert(e == seq!['<', '\\', '/'] + r);
        assert forall|i: int| 0 <= i < e.len() - 1 implies !(#[trigger] e[i] == '<' && e[i + 1]
            == '/') by {
            if i >= 3 {
                assert(e[i] == r[i - 3] && e[i + 1] == r[i - 2]);
            }
        }
    } else {
        let rest = s.subrange(1, s.len() as int);
        escaped_json_never_closes_script(rest);
        let e = escape_script_json_spec(s);
        let r = escape_script_json_spec(rest);
        assert(e == seq![s[0]] + r);
        assert forall|i: int| 0 <= i < e.len() - 1 implies !(#[trigger] e[i] == '<' && e[i + 1]
            == '/') by {
            if i >= 1 {
                assert(e[i] == r[i - 1] && e[i + 1] == r[i]);
            } else if s[0] == '<' {
                lemma_escape_first(rest);
                assert(rest[0] == s[1]);
            }
        }
    }
}

/// Writes every `</` in the JSON as `<\/`.
pub fn escape_script_json(json: &str) -> (escaped: String)
    ensures
        escaped@ == escape_script_json_spec(json@),
{
    let v = chars_of(json);
    let mut out: Vec<char> = Vec::new();
    let mut i: usize = 0;
    proof {
        assert(v@.subrange(0, v@.len() as int) =~= v@);
        assert(out@ + escape_script_json_spec(v@) =~= escape_script_json_spec(v@));
    }
    while i < v.len()
        invariant
            i <= v@.len(),
            out@ + escape_script_json_spec(v@.subrange(i as int, v@.len() as int))
                == escape_script_json_spec(v@),
        decreases v.len() - i,
    {
        let rest = Ghost(v@.subrange(i as int, v@.len() as int));
        if i + 1 < v.len() && v[i] == '<' && v[i + 1] == '/' {
            out.push('<');
            out.push('\\');
            out.push('/');
            proof {
                assert(rest@.subrange(2, rest@.len() as int) =~= v@.subrange(i + 2, v@.len() as int));
                assert(out@ + escape_script_json_spec(v@.subrange(i + 2, v@.len() as int))
                    =~= (out@.subrange(0, out@.len() - 3)) + escape_script_json_spec(rest@));
            }
            i = i + 2;
        } else {
            out.push(v[i]);
            proof {
                assert(rest@.subrange(1, rest@.len() as int) =~= v@.subrange(i + 1, v@.len() as int));
                assert(out@ + escape_script_json_spec(v@.subrange(i + 1, v@.len() as int))
                    =~= (out@.subrange(0, out@.len() - 1)) + escape_script_json_spec(rest@));
            }
            i = i + 1;
        }
    }
    proof {
        assert(v@.subrange(v@.len() as int, v@.len() as int) =~= Seq::<char>::empty());
        assert(out@ + Seq::<char>::empty() =~= out@);
    }
    string_from_chars(&out)
}

/// The rate limit as the report shows it: `N/s`, `N/m` or `N/h`, or
/// `unlimited` when there is none.
pub fn rate_limit_label(rate_limit: Option<RateLimitConfig>) -> (s: String)
    ensures
        s@ == match rate_limit {
            Some(c) => c.display_spec(),
            None => "unlimited"@,
        },
{
    match rate_limit {
        Some(c) => c.as_display_string(),
        None => {
            let mut s = String::new();
            append_str(&mut s, "unlimited");
            s
        },
    }
}

/// Whether a character is an ASCII letter or digit.
pub open spec fn is_ascii_alnum(c: char) -> bool {
    let u = c as u32;
    (48 <= u && u <= 57) || (65 <= u && u <= 90) || (97 <= u && u <= 122)
}

/// Reading `s` from the left: the slug so far, and whether a separator is
/// owed before the next letter or digit.
pub open spec fn slug_state(s: Seq<char>) -> (Seq<char>, bool)
    decreases s.len(),
{
    if s.len() == 0 {
        (Seq::empty(), false)
    } else {
        let (acc, pending) = slug_state(s.drop_last());
        let c = s.last();
        if is_ascii_alnum(c) {
            if pending {
                (acc.push('-').push(c), false)
            } else {
                (acc.push(c), false)
            }
        } else {
            (acc, acc.len() > 0)
        }
    }
}

/// The runs of ASCII letters and digits of `s`, joined by `-`.
pub open spec fn slug(s: Seq<char>) -> Seq<char> {
    slug_state(s).0
}

/// The default name of an HTML report: the target URL as a slug, then
/// `-report-` and the time in seconds since the Unix epoch, as in
/// `http-localhost-8080-report-1700000000.html`.
pub fn report_file_name(url: &str, unix_secs: u64) -> (name: String)
    ensures
        name@ == slug(url@) + "-report-"@ + decimal_seq(unix_secs as nat) + ".html"@,
{
    let v = chars_of(url);
    let mut out: Vec<char> = Vec::new();
    let mut pending = false;
    let mut i: usize = 0;
    while i < v.len()
        invariant
            i <= v@.len(),
            (out@, pending) == slug_state(v@.subrange(0, i as int)),
        decreases v.len() - i,
    {
        let c = v[i];
        proof {
            assert(v@.subrange(0, i + 1).drop_last() =~= v@.subrange(0, i as int));
        }
        let code = c as u32;
        let alnum = (48 <= code && code <= 57) || (65 <= code && code <= 90) || (97 <= code
            && code <= 122);
        if alnum {
            if pending {
                out.push('-');
            }
            out.push(c);
            pending = false;
        } else {
            pending = out.len() > 0;
        }
        i = i + 1;
    }
    proof {
        assert(v@.subrange(0, v@.len() as int) =~= v@);
    }
    let mut name = string_from_chars(&out);
    append_str(&mut name, "-report-");
    let secs = u64_to_string(unix_secs);
    append_str(&mut name, secs.as_str());
    append_str(&mut name, ".html");
    name
}

} // verus!
