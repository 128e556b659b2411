//! Latency samples kept in an HDR histogram with three significant digits,
//! in microseconds.

use vstd::prelude::*;
use vstd::multiset::Multiset;
use hdrhistogram::Histogram;

verus! {

/// Latencies in microseconds, held in an HDR histogram of `u64` counts
/// with three significant digits that grows as needed.
#[verifier::external_body]
pub struct HdrHistogram {
    inner: Histogram<u64>,
}

/// The samples that a histogram holds, one per recorded value, each taken
/// at the value the histogram reports for it: the highest value of the
/// range of values that it cannot tell apart.
pub uninterp spec fn histogram_samples(h: HdrHistogram) -> Multiset<u64>;

/// The largest value that an auto-resizing histogram can track.
pub const MAX_TRACKABLE: u64 = 4611686018427387903u64;

/// Values below this one are kept exactly: with three significant digits
/// and a lowest value of 1, the first bucket has 2048 slots of width 1.
pub const EXACT_BELOW: u64 = 2048u64;

/// The sum of the counts of a list of (value, count) pairs.
pub open spec fn bucket_total(buckets: Seq<(u64, u64)>) -> nat
    decreases buckets.len(),
{
    if buckets.len() == 0 {
        0
    } else {
        bucket_total(buckets.drop_last()) + buckets.last().1 as nat
    }
}

/// `Histogram::<u64>::new(3)`: an empty auto-resizing histogram with three
/// significant digits. Three digits is a valid precision, so the call does
/// not fail.
#[verifier::external_body]
fn new_histogram() -> (h: HdrHistogram)
    ensures
        histogram_samples(h) == Multiset::<u64>::empty(),
{
    HdrHistogram {
        inner: Histogram::<u64>::new(3).expect("three significant digits is a valid precision"),
    }
}

/// The sample that recording `value` keeps in a histogram with three
/// significant digits and a lowest value of 1 (every `HdrHistogram` is
/// made so): the highest value that the histogram cannot tell apart from
/// `value` (`Histogram::highest_equivalent`). It depends on `value` alone:
/// the ranges of equal values are fixed when the histogram is made, and
/// growing it only adds ranges above.
pub uninterp spec fn kept_sample(value: u64) -> u64;

/// How far a kept sample may be from the value recorded: at least the
/// value and less than one part in 1024 above it (the range of the value
/// is `2^k` wide where `1024 * 2^k <= value`), and the value itself below
/// `EXACT_BELOW`.
pub open spec fn sample_bounds(value: u64, kept: u64) -> bool {
    &&& value <= kept
    &&& kept <= value + value / 1024
    &&& (value < EXACT_BELOW ==> kept == value)
}

/// `Histogram::record`: adds one sample. Up to `MAX_TRACKABLE` the
/// histogram grows as needed and the call does not fail. The sample it
/// keeps is `kept_sample(value)`, the highest value of the range of
/// values it cannot tell apart from `value`
/// (`Histogram::highest_equivalent`, `equivalent_range`): at least
/// `value`, at most `value + value / 1024`, and exactly `value` below
/// `EXACT_BELOW`.
#[verifier::external_body]
fn record_sample(h: &mut HdrHistogram, value: u64)
    requires
        value <= MAX_TRACKABLE,
    ensures
        histogram_samples(*final(h)) == histogram_samples(*old(h)).insert(kept_sample(value)),
        forall|x: u64|
            #[trigger] histogram_samples(*final(h)).count(x) > histogram_samples(*old(h)).count(x)
                ==> x == kept_sample(value) && sample_bounds(value, x),
{
    h.inner.record(value).expect("an auto-resizing histogram records values up to its limit")
}

/// `Histogram::len`: how many samples were recorded (the count saturates
/// at `u64::MAX`).
#[verifier::external_body]
fn sample_count(h: &HdrHistogram) -> (n: u64)
    ensures
        n == if histogram_samples(*h).len() < u64::MAX {
            histogram_samples(*h).len()
        } else {
            u64::MAX as nat
        },
{
    h.inner.len()
}

/// `Histogram::max` on a histogram with samples: the greatest sample.
#[verifier::external_body]
fn max_sample(h: &HdrHistogram) -> (m: u64)
    requires
        histogram_samples(*h).len() > 0,
    ensures
        histogram_samples(*h).count(m) > 0,
        forall|x: u64| histogram_samples(*h).count(x) > 0 ==> x <= m,
{
    h.inner.max()
}

/// `Histogram::min` on a histogram with samples: the lowest value of the
/// range of the least sample, so no greater than any sample, and the
/// least sample itself below `EXACT_BELOW`.
#[verifier::external_body]
fn min_sample(h: &HdrHistogram) -> (m: u64)
    requires
        histogram_samples(*h).len() > 0,
    ensures
        forall|x: u64| histogram_samples(*h).count(x) > 0 ==> m <= x,
        histogram_samples(*h).count(m) > 0 || m >= EXACT_BELOW,
{
    h.inner.min()
}

/// `Histogram::iter_recorded`: every recorded value once, in increasing
/// order, each with how many samples it holds; their counts add up to the
/// number of samples.
#[verifier::external_body]
fn recorded_buckets(h: &HdrHistogram) -> (b: Vec<(u64, u64)>)
    requires
        histogram_samples(*h).len() < u64::MAX,
    ensures
        forall|i: int|
            0 <= i < b.len() ==> b[i].1 > 0 && histogram_samples(*h).count(b[i].0) == b[i].1,
        forall|i: int, j: int| 0 <= i < j < b.len() ==> b[i].0 < b[j].0,
        forall|x: u64|
            histogram_samples(*h).count(x) > 0 ==> exists|i: int| 0 <= i < b.len() && #[trigger] b[i].0 == x,
        bucket_total(b@) == histogram_samples(*h).len(),
{
    let mut buckets = Vec::new();
    for value in h.inner.iter_recorded() {
        buckets.push((value.value_iterated_to(), value.count_since_last_iteration()));
    }
    buckets
}

/// `Histogram::clone`: a histogram with the same samples.
#[verifier::external_body]
fn clone_histogram(h: &HdrHistogram) -> (c: HdrHistogram)
    ensures
        histogram_samples(c) == histogram_samples(*h),
{
    HdrHistogram { inner: h.inner.clone() }
}

/// A duration in nanoseconds as whole microseconds, never below one.
pub fn duration_to_micros(nanos: u64) -> (micros: u64)
    ensures
        micros == if nanos / 1000 == 0 {
            1
        } else {
            nanos / 1000
        },
{
    let micros = nanos / 1000;
    if micros == 0 {
        1
    } else {
        micros
    }
}

impl HdrHistogram {
    /// The samples held, in microseconds.
    pub open spec fn samples(&self) -> Multiset<u64> {
        histogram_samples(*self)
    }

    /// An empty histogram.
    pub fn new() -> (h: Self)
        ensures
            h.samples() == Multiset::<u64>::empty(),
    {
        new_histogram()
    }

    /// Records a latency given in nanoseconds, as microseconds (at least
    /// one); latencies below about two milliseconds are kept exactly.
    pub fn record(&mut self, latency_nanos: u64)
        ensures
            final(self).samples() == old(self).samples().insert(
                kept_sample(duration_to_micros_spec(latency_nanos)),
            ),
            sample_bounds(
                duration_to_micros_spec(latency_nanos),
                kept_sample(duration_to_micros_spec(latency_nanos)),
            ),
            old(self).samples().subset_of(final(self).samples()),
            final(self).samples().len() == old(self).samples().len() + 1,
    {
        let micros = duration_to_micros(latency_nanos);
        let ghost before = self.samples();
        record_sample(self, micros);
        proof {
            let k = kept_sample(micros);
            assert(self.samples().count(k) > before.count(k));
        }
    }

    /// Records each latency in turn: the histogram gains the sample kept
    /// for each of them.
    pub fn record_many(&mut self, latencies: &[u64])
        ensures
            final(self).samples() == old(self).samples().add(kept_samples(latencies@)),
            forall|i: int|
                0 <= i < latencies@.len() ==> sample_bounds(
                    duration_to_micros_spec(#[trigger] latencies@[i]),
                    kept_sample(duration_to_micros_spec(latencies@[i])),
                ),
            final(self).samples().len() == old(self).samples().len() + latencies@.len(),
    {
        let mut i: usize = 0;
        proof {
            assert(latencies@.subrange(0, 0) =~= Seq::<u64>::empty());
            assert(old(self).samples().add(Multiset::empty()) =~= old(self).samples());
        }
        while i < latencies.len()
            invariant
                i <= latencies@.len(),
                self.samples() == old(self).samples().add(kept_samples(latencies@.subrange(0, i as int))),
                forall|k: int|
                    0 <= k < i ==> sample_bounds(
                        duration_to_micros_spec(#[trigger] latencies@[k]),
                        kept_sample(duration_to_micros_spec(latencies@[k])),
                    ),
                self.samples().len() == old(self).samples().len() + i,
            decreases latencies@.len() - i,
        {
            let ghost before = self.samples();
            self.record(latencies[i]);
            proof {
                let pre = latencies@.subrange(0, i as int);
                let next = latencies@.subrange(0, i + 1);
                assert(next.drop_last() =~= pre);
                assert(self.samples() =~= old(self).samples().add(kept_samples(next)));
            }
            i = i + 1;
        }
        proof {
            assert(latencies@.subrange(0, latencies@.len() as int) =~= latencies@);
        }
    }

    /// The least latency in microseconds, or `None` when nothing was
    /// recorded.
    pub fn min(&self) -> (m: Option<u64>)
        ensures
            match m {
                None => self.samples().len() == 0,
                Some(v) => self.samples().len() > 0 && (forall|x: u64|
                    self.samples().count(x) > 0 ==> v <= x) && (self.samples().count(v) > 0 || v
                    >= EXACT_BELOW),
            },
    {
        if self.is_empty() {
            None
        } else {
            Some(min_sample(self))
        }
    }

    /// The greatest latency in microseconds, or `None` when nothing was
    /// recorded.
    pub fn max(&self) -> (m: Option<u64>)
        ensures
            match m {
                None => self.samples().len() == 0,
                Some(v) => self.samples().count(v) > 0 && forall|x: u64|
                    self.samples().count(x) > 0 ==> x <= v,
            },
    {
        if self.is_empty() {
            None
        } else {
            Some(max_sample(self))
        }
    }

    /// Whether nothing was recorded.
    pub fn is_empty(&self) -> (b: bool)
        ensures
            b == (self.samples().len() == 0),
    {
        sample_count(self) == 0
    }

    /// How many latencies were recorded, saturating at `u64::MAX`.
    pub fn len(&self) -> (n: u64)
        ensures
            n == if self.samples().len() < u64::MAX {
                self.samples().len()
            } else {
                u64::MAX as nat
            },
    {
        sample_count(self)
    }

    /// Every sample in increasing order, in microseconds.
    pub fn to_durations(&self) -> (v: Vec<u64>)
        requires
            self.samples().len() < u64::MAX,
        ensures
            v@.len() == self.samples().len(),
            forall|x: u64| #[trigger] count_of(v@, x) == self.samples().count(x),
            forall|i: int, j: int| 0 <= i <= j < v@.len() ==> v@[i] <= v@[j],
    {
        let buckets = recorded_buckets(self);
        let mut out: Vec<u64> = Vec::new();
        let mut i: usize = 0;
        while i < buckets.len()
            invariant
                i <= buckets@.len(),
                out@.len() == bucket_total(buckets@.subrange(0, i as int)),
                forall|b: int| 0 <= b < i ==> #[trigger] count_of(out@, buckets@[b].0) == buckets@[b].1,
                forall|x: u64| (forall|b: int| 0 <= b < i ==> buckets@[b].0 != x) ==> #[trigger] count_of(out@, x) == 0,
                forall|k: int| 0 <= k < out@.len() ==> exists|b: int| 0 <= b < i && #[trigger] out@[k] == buckets@[b].0,
                forall|k: int, l: int| 0 <= k <= l < out@.len() ==> out@[k] <= out@[l],
                forall|b: int| 0 <= b < buckets@.len() ==> buckets@[b].1 > 0 && self.samples().count(buckets@[b].0) == buckets@[b].1,
                forall|b: int, c: int| 0 <= b < c < buckets@.len() ==> buckets@[b].0 < buckets@[c].0,
                forall|x: u64| self.samples().count(x) > 0 ==> exists|b: int| 0 <= b < buckets@.len() && #[trigger] buckets@[b].0 == x,
                bucket_total(buckets@) == self.samples().len(),
                self.samples().len() < u64::MAX,
            decreases buckets@.len() - i,
        {
            let (value, count) = buckets[i];
            proof {
                lemma_bucket_total_prefix(buckets@, i as int);
                lemma_bucket_total_bound(buckets@, (i + 1) as int);
                assert(buckets@.subrange(0, (i + 1) as int).drop_last() =~= buckets@.subrange(0, i as int));
                assert(count_of(out@, value) == 0) by {
                    assert forall|b: int| 0 <= b < i implies buckets@[b].0 != value by {
                        assert(buckets@[b].0 < buckets@[i as int].0);
                    }
                }
            }
            let ghost start = out@;
            let mut n: u64 = 0;
            while n < count
                invariant
                    n <= count,
                    out@.len() == bucket_total(buckets@.subrange(0, i as int)) + n,
                    bucket_total(buckets@.subrange(0, i as int)) + count <= self.samples().len(),
                    self.samples().len() < u64::MAX,
                    i < buckets@.len(),
                    value == buckets@[i as int].0,
                    out@ == start + Seq::new(n as nat, |k: int| value),
                    forall|k: int| 0 <= k < out@.len() ==> exists|b: int| 0 <= b <= i && #[trigger] out@[k] == buckets@[b].0,
                    forall|k: int, l: int| 0 <= k <= l < out@.len() ==> out@[k] <= out@[l],
                    forall|b: int, c: int| 0 <= b < c < buckets@.len() ==> buckets@[b].0 < buckets@[c].0,
                decreases count - n,
            {
                proof {
                    assert forall|k: int| 0 <= k < out@.len() implies out@[k] <= value by {
                        let b = choose|b: int| 0 <= b <= i && #[trigger] out@[k] == buckets@[b].0;
                        if b < i {
                            assert(buckets@[b].0 < buckets@[i as int].0);
                        }
                    }
                }
                out.push(value);
                n = n + 1;
                proof {
                    assert(out@ =~= start + Seq::new(n as nat, |k: int| value));
                }
            }
            proof {
                assert forall|x: u64| #[trigger] count_of(out@, x) == count_of(start, x) + if x == value {
                    count as nat
                } else {
                    0nat
                } by {
                    lemma_count_of_run(start, value, count as nat, x);
                }
            }
            i = i + 1;
        }
        proof {
            assert(buckets@.subrange(0, buckets@.len() as int) =~= buckets@);
            assert forall|x: u64| #[trigger] count_of(out@, x) == self.samples().count(x) by {
                if self.samples().count(x) > 0 {
                    let b = choose|b: int| 0 <= b < buckets@.len() && #[trigger] buckets@[b].0 == x;
                    assert(count_of(out@, buckets@[b].0) == buckets@[b].1);
                } else {
                    assert forall|b: int| 0 <= b < buckets@.len() implies buckets@[b].0 != x by {
                        assert(self.samples().count(buckets@[b].0) == buckets@[b].1);
                    }
                }
            }
        }
        out
    }

    /// A histogram with the same samples.
    pub fn clone(&self) -> (c: Self)
        ensures
            c.samples() == self.samples(),
    {
        clone_histogram(self)
    }

    /// The recorded values in increasing order, each with its number of
    /// samples.
    pub fn recorded(&self) -> (b: Vec<(u64, u64)>)
        requires
            self.samples().len() < u64::MAX,
        ensures
            forall|i: int|
                0 <= i < b.len() ==> b[i].1 > 0 && self.samples().count(b[i].0) == b[i].1,
            forall|i: int, j: int| 0 <= i < j < b.len() ==> b[i].0 < b[j].0,
            bucket_total(b@) == self.samples().len(),
    {
        recorded_buckets(self)
    }
}

impl Default for HdrHistogram {
    /// An empty histogram.
    fn default() -> (h: Self)
        ensures
            h.samples() == Multiset::<u64>::empty(),
    {
        HdrHistogram::new()
    }
}

/// The samples kept for a list of latencies in nanoseconds.
pub open spec fn kept_samples(latencies: Seq<u64>) -> Multiset<u64>
    decreases latencies.len(),
{
    if latencies.len() == 0 {
        Multiset::empty()
    } else {
        kept_samples(latencies.drop_last()).insert(
            kept_sample(duration_to_micros_spec(latencies.last())),
        )
    }
}

pub open spec fn duration_to_micros_spec(nanos: u64) -> u64 {
    if nanos / 1000 == 0 {
        1
    } else {
        (nanos / 1000) as u64
    }
}

/// A latency is counted in whole microseconds, rounded down, and never as
/// less than one microsecond.
pub proof fn latencies_count_in_whole_microseconds(nanos: u64)
    ensures
        duration_to_micros_spec(nanos) >= 1,
        nanos >= 1000 ==> duration_to_micros_spec(nanos) * 1000 <= nanos
            < (duration_to_micros_spec(nanos) + 1) * 1000,
        nanos < 1000 ==> duration_to_micros_spec(nanos) == 1,
{
}

/// How many times `x` occurs in `s`.
pub open spec fn count_of(s: Seq<u64>, x: u64) -> nat
    decreases s.len(),
{
    if s.len() == 0 {
        0
    } else {
        count_of(s.drop_last(), x) + if s.last() == x {
            1nat
        } else {
            0nat
        }
    }
}

/// Appending `n` copies of `v` adds `n` occurrences of `v` and none of
/// anything else.
proof fn lemma_count_of_run(s: Seq<u64>, v: u64, n: nat, x: u64)
    ensures
        count_of(s + Seq::new(n, |k: int| v), x) == count_of(s, x) + if x == v {
            n
        } else {
            0nat
        },
    decreases n,
{
    if n == 0 {
        assert(s + Seq::new(0, |k: int| v) =~= s);
    } else {
        let m = (n - 1) as nat;
        lemma_count_of_run(s, v, m, x);
        assert((s + Seq::new(n, |k: int| v)).drop_last() =~= s + Seq::new(m, |k: int| v));
    }
}

/// The total of a prefix grows by the count of the next pair.
proof fn lemma_bucket_total_prefix(buckets: Seq<(u64, u64)>, i: int)
    requires
        0 <= i < buckets.len(),
    ensures
        bucket_total(buckets.subrange(0, i + 1)) == bucket_total(buckets.subrange(0, i))
            + buckets[i].1,
{
    assert(buckets.subrange(0, i + 1).drop_last() =~= buckets.subrange(0, i));
}

/// A prefix's total is no more than the whole total.
proof fn lemma_bucket_total_bound(buckets: Seq<(u64, u64)>, i: int)
    requires
        0 <= i <= buckets.len(),
    ensures
        bucket_total(buckets.subrange(0, i)) <= bucket_total(buckets),
    decreases buckets.len() - i,
{
    if i < buckets.len() {
        lemma_bucket_total_bound(buckets, i + 1);
        lemma_bucket_total_prefix(buckets, i);
    } else {
        assert(buckets.subrange(0, i) =~= buckets);
    }
}

} // verus!
