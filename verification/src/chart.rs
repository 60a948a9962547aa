//! The bars of the chart: mappings grouped into fixed ranges of size, each
//! range reduced by the metric that the chart shows.

use crate::aggregate::{amount, lemma_total_prefix, or_zero, total, Measure};
use crate::parser::{mapping_views, MappingView, MemoryStats};
use crate::ui::ChartMetric;
use crate::utils::{
    BYTES_PER_KB, SIZE_16MB, SIZE_1MB, SIZE_256MB, SIZE_4KB, SIZE_64KB, TOP_CHART_RANGES,
};
use vstd::prelude::*;

verus! {

/// The number of size ranges.
pub const RANGE_COUNT: usize = 6;

/// The smallest size of range `r`.
pub open spec fn range_low(r: int) -> nat {
    if r <= 0 {
        0
    } else if r == 1 {
        SIZE_4KB as nat
    } else if r == 2 {
        SIZE_64KB as nat
    } else if r == 3 {
        SIZE_1MB as nat
    } else if r == 4 {
        SIZE_16MB as nat
    } else {
        SIZE_256MB as nat
    }
}

/// Whether `size` lies in range `r`: at or above its smallest size and
/// below that of the next range. The last range has no upper end.
pub open spec fn in_range(size: u64, r: int) -> bool {
    range_low(r) <= size && (r >= RANGE_COUNT - 1 || size < range_low(r + 1))
}

/// The sum of a measure over the mappings whose size lies in range `r`.
pub open spec fn range_total(ms: Seq<MappingView>, r: int, what: Measure) -> nat
    decreases ms.len(),
{
    if ms.len() == 0 {
        0
    } else {
        range_total(ms.drop_last(), r, what) + if in_range(ms.last().size, r) {
            amount(ms.last(), what)
        } else {
            0
        }
    }
}

/// The value that the chart shows for range `r`: sizes in mebibytes,
/// resident sizes in kibibytes, counts as they are; the mean of an empty
/// range is zero.
pub open spec fn bucket_value(ms: Seq<MappingView>, r: int, metric: ChartMetric) -> nat {
    match metric {
        ChartMetric::Size | ChartMetric::TotalSize => range_total(ms, r, Measure::Size) / (
        BYTES_PER_KB as nat) / (BYTES_PER_KB as nat),
        ChartMetric::Count => range_total(ms, r, Measure::Count),
        ChartMetric::TotalRss => range_total(ms, r, Measure::Rss) / (BYTES_PER_KB as nat),
        ChartMetric::AverageRss => if range_total(ms, r, Measure::Count) == 0 {
            0
        } else {
            range_total(ms, r, Measure::Rss) / range_total(ms, r, Measure::Count) / (
            BYTES_PER_KB as nat)
        },
    }
}

/// One bar of the chart.
#[derive(Debug, Clone, Copy, PartialEq, Eq, Structural)]
pub struct ChartBar {
    /// The number of the size range, from zero.
    pub range: usize,
    /// The value of the range under the metric.
    pub value: u64,
}

/// Whether bar `a` stands before bar `b`: the larger value first, and of
/// two equal values the lower range.
pub open spec fn bar_before(a: ChartBar, b: ChartBar) -> bool {
    a.value > b.value || (a.value == b.value && a.range < b.range)
}

/// Whether `bars` is the chart of `ms` under `metric` over the ranges below
/// `upto`: one bar for each range whose value is not zero, in order.
pub open spec fn is_chart_of(
    bars: Seq<ChartBar>,
    ms: Seq<MappingView>,
    metric: ChartMetric,
    upto: int,
) -> bool {
    &&& forall|i: int|
        0 <= i < bars.len() ==> {
            &&& 0 <= (#[trigger] bars[i]).range < upto
            &&& bars[i].value > 0
            &&& bars[i].value == bucket_value(ms, bars[i].range as int, metric)
        }
    &&& forall|r: int|
        0 <= r < upto && bucket_value(ms, r, metric) > 0 ==> exists|i: int|
            0 <= i < bars.len() && (#[trigger] bars[i]).range == r
    &&& forall|i: int, j: int|
        0 <= i < j < bars.len() ==> bar_before(#[trigger] bars[i], #[trigger] bars[j])
}

/// A range sums to no more than all mappings.
pub proof fn lemma_range_le_total(ms: Seq<MappingView>, r: int, what: Measure)
    ensures
        range_total(ms, r, what) <= total(ms, what),
    decreases ms.len(),
{
    if ms.len() > 0 {
        lemma_range_le_total(ms.drop_last(), r, what);
    }
}

/// The range in which `size` lies.
pub fn range_of_size(size: u64) -> (r: usize)
    ensures
        r < RANGE_COUNT,
        in_range(size, r as int),
        forall|other: int| 0 <= other < RANGE_COUNT && in_range(size, other) ==> other == r,
{
    if size < SIZE_4KB {
        0
    } else if size < SIZE_64KB {
        1
    } else if size < SIZE_1MB {
        2
    } else if size < SIZE_16MB {
        3
    } else if size < SIZE_256MB {
        4
    } else {
        5
    }
}

/// The count of the mappings and the sums of their sizes and resident sizes,
/// by range.
pub struct RangeSums {
    pub counts: Vec<u64>,
    pub sizes: Vec<u64>,
    pub rss: Vec<u64>,
}

impl RangeSums {
    /// Whether these are the sums of `ms`.
    pub open spec fn sums_of(&self, ms: Seq<MappingView>) -> bool {
        &&& self.counts@.len() == RANGE_COUNT
        &&& self.sizes@.len() == RANGE_COUNT
        &&& self.rss@.len() == RANGE_COUNT
        &&& forall|r: int|
            0 <= r < RANGE_COUNT ==> #[trigger] self.counts@[r] == range_total(
                ms,
                r,
                Measure::Count,
            )
        &&& forall|r: int|
            0 <= r < RANGE_COUNT ==> #[trigger] self.sizes@[r] == range_total(ms, r, Measure::Size)
        &&& forall|r: int|
            0 <= r < RANGE_COUNT ==> #[trigger] self.rss@[r] == range_total(ms, r, Measure::Rss)
    }
}

/// Whether the sums that the chart takes fit 64 bits: the sum of the sizes
/// and the sum of the resident set sizes of all mappings.
pub open spec fn chart_fits(ms: Seq<MappingView>) -> bool {
    &&& total(ms, Measure::Size) <= u64::MAX
    &&& total(ms, Measure::Rss) <= u64::MAX
}

/// Tells whether the sums that the chart takes fit 64 bits, so that
/// `chart_data` can run.
pub fn can_chart(stats: &MemoryStats) -> (ok: bool)
    ensures
        ok == chart_fits(stats.views()),
{
    let ghost ms = stats.views();
    let n = stats.mappings.len();
    let mut size: u64 = 0;
    let mut rss: u64 = 0;
    let mut i: usize = 0;
    assert(ms.take(0) =~= Seq::empty());
    while i < n
        invariant
            n == stats.mappings@.len(),
            i <= n,
            ms == mapping_views(stats.mappings@),
            size == total(ms.take(i as int), Measure::Size),
            rss == total(ms.take(i as int), Measure::Rss),
        decreases n - i,
    {
        let m = &stats.mappings[i];
        proof {
            assert(ms.take(i + 1).drop_last() =~= ms.take(i as int));
            assert(ms.take(i + 1).last() == m@);
            lemma_total_prefix(ms, i + 1, Measure::Size);
            lemma_total_prefix(ms, i + 1, Measure::Rss);
        }
        let resident = or_zero(m.rss);
        if m.size > u64::MAX - size || resident > u64::MAX - rss {
            return false;
        }
        size = size + m.size;
        rss = rss + resident;
        i = i + 1;
    }
    assert(ms.take(n as int) =~= ms);
    true
}

/// Sums the mappings by range.
pub fn range_sums(stats: &MemoryStats) -> (sums: RangeSums)
    requires
        chart_fits(stats.views()),
    ensures
        sums.sums_of(stats.views()),
{
    let ghost ms = stats.views();
    let mut counts: Vec<u64> = vec![0, 0, 0, 0, 0, 0];
    let mut sizes: Vec<u64> = vec![0, 0, 0, 0, 0, 0];
    let mut rss: Vec<u64> = vec![0, 0, 0, 0, 0, 0];
    let n = stats.mappings.len();
    let mut i: usize = 0;
    assert(ms.take(0) =~= Seq::empty());
    while i < n
        invariant
            n == stats.mappings@.len(),
            i <= n,
            ms == mapping_views(stats.mappings@),
            total(ms, Measure::Size) <= u64::MAX,
            total(ms, Measure::Rss) <= u64::MAX,
            counts@.len() == RANGE_COUNT,
            sizes@.len() == RANGE_COUNT,
            rss@.len() == RANGE_COUNT,
            forall|r: int|
                0 <= r < RANGE_COUNT ==> #[trigger] counts@[r] == range_total(
                    ms.take(i as int),
                    r,
                    Measure::Count,
                ),
            forall|r: int|
                0 <= r < RANGE_COUNT ==> #[trigger] sizes@[r] == range_total(
                    ms.take(i as int),
                    r,
                    Measure::Size,
                ),
            forall|r: int|
                0 <= r < RANGE_COUNT ==> #[trigger] rss@[r] == range_total(
                    ms.take(i as int),
                    r,
                    Measure::Rss,
                ),
        decreases n - i,
    {
        let m = &stats.mappings[i];
        let r = range_of_size(m.size);
        let resident = or_zero(m.rss);
        proof {
            let cur = ms.take(i + 1);
            assert(cur.drop_last() =~= ms.take(i as int));
            assert(cur.last() == m@);
            lemma_total_prefix(ms, i + 1, Measure::Count);
            lemma_total_prefix(ms, i + 1, Measure::Size);
            lemma_total_prefix(ms, i + 1, Measure::Rss);
            crate::aggregate::lemma_count_is_len(cur);
            lemma_range_le_total(cur, r as int, Measure::Count);
            lemma_range_le_total(cur, r as int, Measure::Size);
            lemma_range_le_total(cur, r as int, Measure::Rss);
        }
        let c = counts[r];
        let s = sizes[r];
        let t = rss[r];
        counts.set(r, c + 1);
        sizes.set(r, s + m.size);
        rss.set(r, t + resident);
        i = i + 1;
    }
    assert(ms.take(n as int) =~= ms);
    RangeSums { counts, sizes, rss }
}

/// The value that the chart shows for range `r`.
fn bucket(sums: &RangeSums, r: usize, metric: ChartMetric, Ghost(ms): Ghost<Seq<MappingView>>) -> (value: u64)
    requires
        sums.sums_of(ms),
        r < RANGE_COUNT,
    ensures
        value == bucket_value(ms, r as int, metric),
{
    match metric {
        ChartMetric::Size | ChartMetric::TotalSize => sums.sizes[r] / BYTES_PER_KB / BYTES_PER_KB,
        ChartMetric::Count => sums.counts[r],
        ChartMetric::TotalRss => sums.rss[r] / BYTES_PER_KB,
        ChartMetric::AverageRss => {
            if sums.counts[r] == 0 {
                0
            } else {
                sums.rss[r] / sums.counts[r] / BYTES_PER_KB
            }
        },
    }
}

/// The words that name range `r` on the chart.
pub open spec fn range_name(r: int) -> Seq<char> {
    if r <= 0 {
        "< 4KB"@
    } else if r == 1 {
        "4KB-64KB"@
    } else if r == 2 {
        "64KB-1MB"@
    } else if r == 3 {
        "1MB-16MB"@
    } else if r == 4 {
        "16MB-256MB"@
    } else {
        ">= 256MB"@
    }
}

/// The words that name a size range on the chart.
pub fn range_label(r: usize) -> (label: &'static str)
    ensures
        label@ == range_name(r as int),
{
    if r == 0 {
        "< 4KB"
    } else if r == 1 {
        "4KB-64KB"
    } else if r == 2 {
        "64KB-1MB"
    } else if r == 3 {
        "1MB-16MB"
    } else if r == 4 {
        "16MB-256MB"
    } else {
        ">= 256MB"
    }
}

/// The heading of the chart under a metric.
pub open spec fn title_of(metric: ChartMetric) -> Seq<char> {
    match metric {
        ChartMetric::Size => "Memory Usage by Size Range (MB)"@,
        ChartMetric::Count => "Mapping Count by Size Range"@,
        ChartMetric::TotalSize => "Total Size by Range (MB)"@,
        ChartMetric::TotalRss => "Total RSS by Size Range (KB)"@,
        ChartMetric::AverageRss => "Average RSS by Size Range (KB)"@,
    }
}

/// The heading of the chart under a metric.
pub fn chart_title(metric: ChartMetric) -> (title: &'static str)
    ensures
        title@ == title_of(metric),
{
    match metric {
        ChartMetric::Size => "Memory Usage by Size Range (MB)",
        ChartMetric::Count => "Mapping Count by Size Range",
        ChartMetric::TotalSize => "Total Size by Range (MB)",
        ChartMetric::TotalRss => "Total RSS by Size Range (KB)",
        ChartMetric::AverageRss => "Average RSS by Size Range (KB)",
    }
}

/// The bars of the chart: one for each size range whose value under the
/// metric is not zero, the largest value first, at most `TOP_CHART_RANGES`.
/// The sums of the sizes and of the resident set sizes must fit 64 bits,
/// which `can_chart` tells, and which holds of all that the parsers give.
pub fn chart_data(stats: &MemoryStats, metric: ChartMetric) -> (bars: Vec<ChartBar>)
    requires
        chart_fits(stats.views()),
    ensures
        is_chart_of(bars@, stats.views(), metric, RANGE_COUNT as int),
        bars@.len() <= TOP_CHART_RANGES,
{
    let ghost ms = stats.views();
    let sums = range_sums(stats);
    let mut bars: Vec<ChartBar> = Vec::new();
    let mut r: usize = 0;
    while r < RANGE_COUNT
        invariant
            r <= RANGE_COUNT,
            sums.sums_of(ms),
            bars@.len() <= r,
            is_chart_of(bars@, ms, metric, r as int),
        decreases RANGE_COUNT - r,
    {
        let value = bucket(&sums, r, metric, Ghost(ms));
        if value > 0 {
            let mut p: usize = 0;
            while p < bars.len() && bars[p].value >= value
                invariant
                    p <= bars@.len(),
                    forall|i: int| 0 <= i < p ==> (#[trigger] bars@[i]).value >= value,
                decreases bars@.len() - p,
            {
                p = p + 1;
            }
            let ghost before = bars@;
            let bar = ChartBar { range: r, value };
            bars.insert(p, bar);
            proof {
                assert forall|q: int|
                    0 <= q < r + 1 && bucket_value(ms, q, metric) > 0 implies exists|i: int|
                    0 <= i < bars@.len() && (#[trigger] bars@[i]).range == q by {
                    if q == r {
                        assert(bars@[p as int].range == q);
                    } else {
                        let i = choose|i: int| 0 <= i < before.len() && before[i].range == q;
                        if i < p {
                            assert(bars@[i].range == q);
                        } else {
                            assert(bars@[i + 1].range == q);
                        }
                    }
                }
                assert forall|i: int, j: int| 0 <= i < j < bars@.len() implies bar_before(
                    #[trigger] bars@[i],
                    #[trigger] bars@[j],
                ) by {
                    if j < p {
                        assert(bar_before(before[i], before[j]));
                    } else if j == p {
                        assert(before[i].range < r);
                    } else if i < p {
                        assert(bar_before(before[i], before[j - 1]));
                    } else if i == p {
                        assert(before[p as int].value < value);
                        if j - 1 > p {
                            assert(bar_before(before[p as int], before[j - 1]));
                        }
                    } else {
                        assert(bar_before(before[i - 1], before[j - 1]));
                    }
                }
            }
        } else {
            assert forall|q: int|
                0 <= q < r + 1 && bucket_value(ms, q, metric) > 0 implies exists|i: int|
                0 <= i < bars@.len() && (#[trigger] bars@[i]).range == q by {
                let i = choose|i: int| 0 <= i < bars@.len() && bars@[i].range == q;
                assert(bars@[i].range == q);
            }
        }
        r = r + 1;
    }
    if bars.len() > TOP_CHART_RANGES {
        bars.truncate(TOP_CHART_RANGES);
    }
    bars
}

} // verus!
