//! Totals and the histogram by size and permissions, derived from a list of
//! mappings.

use crate::parser::{mapping_views, HistogramEntry, HistogramRow, MappingView, MemoryStats};
use vstd::prelude::*;

verus! {

/// What is summed over mappings.
pub enum Measure {
    Count,
    Size,
    Rss,
    Pss,
}

/// What one mapping adds to a sum; an absent value adds nothing.
pub open spec fn amount(m: MappingView, what: Measure) -> nat {
    match what {
        Measure::Count => 1,
        Measure::Size => m.size as nat,
        Measure::Rss => match m.rss {
            Some(v) => v as nat,
            None => 0,
        },
        Measure::Pss => match m.pss {
            Some(v) => v as nat,
            None => 0,
        },
    }
}

/// The sum of a measure over all mappings.
pub open spec fn total(ms: Seq<MappingView>, what: Measure) -> nat
    decreases ms.len(),
{
    if ms.len() == 0 {
        0
    } else {
        total(ms.drop_last(), what) + amount(ms.last(), what)
    }
}

/// The sum of a measure over the mappings with the given key.
pub open spec fn group_total(ms: Seq<MappingView>, key: (u64, Seq<char>), what: Measure) -> nat
    decreases ms.len(),
{
    if ms.len() == 0 {
        0
    } else {
        group_total(ms.drop_last(), key, what) + if ms.last().key() == key {
            amount(ms.last(), what)
        } else {
            0
        }
    }
}

/// The distinct keys of the mappings, in the order in which they first occur.
pub open spec fn first_keys(ms: Seq<MappingView>) -> Seq<(u64, Seq<char>)>
    decreases ms.len(),
{
    if ms.len() == 0 {
        Seq::empty()
    } else if first_keys(ms.drop_last()).contains(ms.last().key()) {
        first_keys(ms.drop_last())
    } else {
        first_keys(ms.drop_last()).push(ms.last().key())
    }
}

/// Whether the count and the three sums fit their integer types.
pub open spec fn fits(ms: Seq<MappingView>) -> bool {
    &&& ms.len() <= u32::MAX
    &&& total(ms, Measure::Size) <= u64::MAX
    &&& total(ms, Measure::Rss) <= u64::MAX
    &&& total(ms, Measure::Pss) <= u64::MAX
}

/// Whether `entry` holds the count and the sums of the mappings with `key`.
pub open spec fn is_entry_of(entry: HistogramEntry, ms: Seq<MappingView>, key: (u64, Seq<char>)) -> bool {
    &&& entry.count == group_total(ms, key, Measure::Count)
    &&& entry.total_size == group_total(ms, key, Measure::Size)
    &&& entry.total_rss == group_total(ms, key, Measure::Rss)
    &&& entry.total_pss == group_total(ms, key, Measure::Pss)
}

/// Whether `rows` is the histogram of `ms`: one row for each distinct key, in
/// the order of first occurrence, with the sums of its group.
pub open spec fn is_histogram_of(rows: Seq<HistogramRow>, ms: Seq<MappingView>) -> bool {
    &&& rows.len() == first_keys(ms).len()
    &&& forall|i: int|
        0 <= i < rows.len() ==> {
            &&& (#[trigger] rows[i]).key() == first_keys(ms)[i]
            &&& is_entry_of(rows[i].entry, ms, rows[i].key())
        }
}

/// A prefix sums to no more than the whole.
pub proof fn lemma_total_prefix(ms: Seq<MappingView>, i: int, what: Measure)
    requires
        0 <= i <= ms.len(),
    ensures
        total(ms.take(i), what) <= total(ms, what),
    decreases ms.len() - i,
{
    if i == ms.len() {
        assert(ms.take(i) =~= ms);
    } else {
        lemma_total_prefix(ms, i + 1, what);
        assert(ms.take(i + 1).drop_last() =~= ms.take(i));
    }
}

/// A group sums to no more than all mappings.
pub proof fn lemma_group_le_total(ms: Seq<MappingView>, key: (u64, Seq<char>), what: Measure)
    ensures
        group_total(ms, key, what) <= total(ms, what),
    decreases ms.len(),
{
    if ms.len() > 0 {
        lemma_group_le_total(ms.drop_last(), key, what);
    }
}

/// A key is among the first keys exactly if some mapping has it.
pub proof fn lemma_first_keys_contains(ms: Seq<MappingView>, key: (u64, Seq<char>))
    ensures
        first_keys(ms).contains(key) <==> exists|i: int| 0 <= i < ms.len() && ms[i].key() == key,
    decreases ms.len(),
{
    if ms.len() > 0 {
        let prev = ms.drop_last();
        lemma_first_keys_contains(prev, key);
        if first_keys(ms).contains(key) {
            if first_keys(prev).contains(key) {
                let i = choose|i: int| 0 <= i < prev.len() && prev[i].key() == key;
                assert(ms[i].key() == key);
            } else {
                let fk = first_keys(prev).push(ms.last().key());
                let j = choose|j: int| 0 <= j < fk.len() && fk[j] == key;
                assert(j == fk.len() - 1);
                assert(ms[ms.len() - 1].key() == key);
            }
        }
        if exists|i: int| 0 <= i < ms.len() && ms[i].key() == key {
            let i = choose|i: int| 0 <= i < ms.len() && ms[i].key() == key;
            if i < prev.len() {
                assert(prev[i].key() == key);
                let j = choose|j: int|
                    0 <= j < first_keys(prev).len() && first_keys(prev)[j] == key;
                assert(first_keys(ms)[j] == key);
            } else {
                if first_keys(prev).contains(key) {
                    let j = choose|j: int|
                        0 <= j < first_keys(prev).len() && first_keys(prev)[j] == key;
                    assert(first_keys(ms)[j] == key);
                } else {
                    assert(first_keys(ms)[first_keys(ms).len() - 1] == key);
                }
            }
        }
    }
}

/// A key that no mapping has sums to nothing.
pub proof fn lemma_absent_key(ms: Seq<MappingView>, key: (u64, Seq<char>), what: Measure)
    requires
        !first_keys(ms).contains(key),
    ensures
        group_total(ms, key, what) == 0,
    decreases ms.len(),
{
    if ms.len() > 0 {
        let prev = ms.drop_last();
        lemma_first_keys_contains(ms, key);
        lemma_first_keys_contains(prev, key);
        assert(ms.last().key() != key) by {
            if ms.last().key() == key {
                assert(ms[ms.len() - 1].key() == key);
            }
        }
        assert(!first_keys(prev).contains(key)) by {
            if first_keys(prev).contains(key) {
                let i = choose|i: int| 0 <= i < prev.len() && prev[i].key() == key;
                assert(ms[i].key() == key);
            }
        }
        lemma_absent_key(prev, key, what);
    }
}

/// No key occurs twice among the first keys.
pub proof fn lemma_first_keys_distinct(ms: Seq<MappingView>)
    ensures
        forall|i: int, j: int|
            0 <= i < j < first_keys(ms).len() ==> first_keys(ms)[i] != first_keys(ms)[j],
    decreases ms.len(),
{
    if ms.len() > 0 {
        let prev = first_keys(ms.drop_last());
        lemma_first_keys_distinct(ms.drop_last());
        assert forall|i: int, j: int| 0 <= i < j < first_keys(ms).len() implies first_keys(ms)[i]
            != first_keys(ms)[j] by {
            if j == prev.len() {
                assert(!prev.contains(ms.last().key()));
                assert(prev[i] == first_keys(ms)[i]);
            } else {
                assert(prev[i] == first_keys(ms)[i]);
                assert(prev[j] == first_keys(ms)[j]);
            }
        }
    }
}

/// The value of an optional byte count in a sum.
pub fn or_zero(v: Option<u64>) -> (n: u64)
    ensures
        n == match v {
            Some(x) => x,
            None => 0,
        },
{
    match v {
        Some(x) => x,
        None => 0,
    }
}

/// The position of the row with the given key, if there is one.
pub fn find_row(rows: &Vec<HistogramRow>, size: u64, permissions: &String) -> (found: Option<usize>)
    ensures
        match found {
            Some(j) => j < rows@.len() && rows@[j as int].key() == (size, permissions@),
            None => forall|j: int| 0 <= j < rows@.len() ==> rows@[j].key() != (size, permissions@),
        },
{
    let mut j: usize = 0;
    while j < rows.len()
        invariant
            j <= rows@.len(),
            forall|l: int| 0 <= l < j ==> rows@[l].key() != (size, permissions@),
        decreases rows@.len() - j,
    {
        if rows[j].size == size && rows[j].permissions == *permissions {
            return Some(j);
        }
        j = j + 1;
    }
    None
}

impl MemoryStats {
    /// The views of the mappings, in order.
    pub open spec fn views(&self) -> Seq<MappingView> {
        mapping_views(self.mappings@)
    }

    /// Whether the totals and the histogram are those of the mappings.
    pub open spec fn aggregated(&self) -> bool {
        &&& self.total_virtual == total(self.views(), Measure::Size)
        &&& self.total_rss == total(self.views(), Measure::Rss)
        &&& self.total_pss == total(self.views(), Measure::Pss)
        &&& is_histogram_of(self.histogram@, self.views())
    }

    /// Statistics of no mappings.
    pub fn new() -> (stats: Self)
        ensures
            stats.mappings@.len() == 0,
            stats.histogram@.len() == 0,
            stats.total_virtual == 0,
            stats.total_rss == 0,
            stats.total_pss == 0,
            stats.process_name is None,
            stats.pid is None,
            stats.aggregated(),
    {
        let stats = MemoryStats {
            mappings: Vec::new(),
            histogram: Vec::new(),
            total_virtual: 0,
            total_rss: 0,
            total_pss: 0,
            process_name: None,
            pid: None,
        };
        assert(stats.views() =~= Seq::empty());
        stats
    }

    /// Whether the count of the mappings and their three sums fit their
    /// integer types, so that `build_histogram` can run.
    pub fn can_aggregate(&self) -> (ok: bool)
        ensures
            ok == fits(self.views()),
    {
        let n = self.mappings.len();
        if n > 0xFFFF_FFFF {
            return false;
        }
        let ghost ms = self.views();
        let mut size: u64 = 0;
        let mut rss: u64 = 0;
        let mut pss: u64 = 0;
        let mut i: usize = 0;
        while i < n
            invariant
                n == self.mappings@.len(),
                n <= u32::MAX,
                i <= n,
                ms == mapping_views(self.mappings@),
                size == total(ms.take(i as int), Measure::Size),
                rss == total(ms.take(i as int), Measure::Rss),
                pss == total(ms.take(i as int), Measure::Pss),
            decreases n - i,
        {
            let m = &self.mappings[i];
            proof {
                assert(ms.take(i + 1).drop_last() =~= ms.take(i as int));
                assert(ms.take(i + 1).last() == m@);
                lemma_total_prefix(ms, i + 1, Measure::Size);
                lemma_total_prefix(ms, i + 1, Measure::Rss);
                lemma_total_prefix(ms, i + 1, Measure::Pss);
            }
            let r = or_zero(m.rss);
            let p = or_zero(m.pss);
            if m.size > u64::MAX - size || r > u64::MAX - rss || p > u64::MAX - pss {
                return false;
            }
            size = size + m.size;
            rss = rss + r;
            pss = pss + p;
            i = i + 1;
        }
        assert(ms.take(n as int) =~= ms);
        true
    }

    /// Rebuilds the totals and the histogram from the mappings. The rows
    /// stand in the order in which their keys first occur.
    pub fn build_histogram(&mut self)
        requires
            fits(old(self).views()),
        ensures
            final(self).mappings == old(self).mappings,
            final(self).process_name == old(self).process_name,
            final(self).pid == old(self).pid,
            final(self).aggregated(),
    {
        let n = self.mappings.len();
        let ghost ms = self.views();
        let mut rows: Vec<HistogramRow> = Vec::new();
        let mut size: u64 = 0;
        let mut rss: u64 = 0;
        let mut pss: u64 = 0;
        let mut i: usize = 0;
        assert(ms.take(0) =~= Seq::empty());
        while i < n
            invariant
                n == self.mappings@.len(),
                i <= n,
                ms == mapping_views(self.mappings@),
                fits(ms),
                size == total(ms.take(i as int), Measure::Size),
                rss == total(ms.take(i as int), Measure::Rss),
                pss == total(ms.take(i as int), Measure::Pss),
                is_histogram_of(rows@, ms.take(i as int)),
            decreases n - i,
        {
            let m = &self.mappings[i];
            let ghost prev = ms.take(i as int);
            let ghost cur = ms.take(i + 1);
            let ghost key = m@.key();
            proof {
                assert(cur.drop_last() =~= prev);
                assert(cur.last() == m@);
                lemma_total_prefix(ms, i + 1, Measure::Count);
                lemma_total_prefix(ms, i + 1, Measure::Size);
                lemma_total_prefix(ms, i + 1, Measure::Rss);
                lemma_total_prefix(ms, i + 1, Measure::Pss);
                lemma_total_prefix(ms, ms.len() as int, Measure::Count);
                lemma_count_is_len(ms);
                lemma_group_le_total(cur, key, Measure::Count);
                lemma_group_le_total(cur, key, Measure::Size);
                lemma_group_le_total(cur, key, Measure::Rss);
                lemma_group_le_total(cur, key, Measure::Pss);
                lemma_first_keys_distinct(prev);
            }
            let r = or_zero(m.rss);
            let p = or_zero(m.pss);
            let ghost before = rows@;
            match find_row(&rows, m.size, &m.permissions) {
                Some(j) => {
                    let e = rows[j].entry;
                    let row = HistogramRow {
                        size: m.size,
                        permissions: rows[j].permissions.clone(),
                        entry: HistogramEntry {
                            count: e.count + 1,
                            total_size: e.total_size + m.size,
                            total_rss: e.total_rss + r,
                            total_pss: e.total_pss + p,
                        },
                    };
                    rows.set(j, row);
                    proof {
                        assert(first_keys(prev)[j as int] == key);
                        assert(first_keys(prev).contains(key));
                        assert forall|l: int| 0 <= l < rows@.len() implies {
                            &&& (#[trigger] rows@[l]).key() == first_keys(cur)[l]
                            &&& is_entry_of(rows@[l].entry, cur, rows@[l].key())
                        } by {
                            if l != j {
                                assert(rows@[l] == before[l]);
                                assert(before[l].key() != key);
                            }
                        }
                    }
                },
                None => {
                    let row = HistogramRow {
                        size: m.size,
                        permissions: m.permissions.clone(),
                        entry: HistogramEntry { count: 1, total_size: m.size, total_rss: r, total_pss: p },
                    };
                    rows.push(row);
                    proof {
                        assert(!first_keys(prev).contains(key)) by {
                            if first_keys(prev).contains(key) {
                                let l = choose|l: int|
                                    0 <= l < first_keys(prev).len() && first_keys(prev)[l] == key;
                                assert(before[l].key() == key);
                            }
                        }
                        lemma_absent_key(prev, key, Measure::Count);
                        lemma_absent_key(prev, key, Measure::Size);
                        lemma_absent_key(prev, key, Measure::Rss);
                        lemma_absent_key(prev, key, Measure::Pss);
                        assert forall|l: int| 0 <= l < rows@.len() implies {
                            &&& (#[trigger] rows@[l]).key() == first_keys(cur)[l]
                            &&& is_entry_of(rows@[l].entry, cur, rows@[l].key())
                        } by {
                            if l < before.len() {
                                assert(rows@[l] == before[l]);
                                assert(before[l].key() != key);
                            }
                        }
                    }
                },
            }
            size = size + m.size;
            rss = rss + r;
            pss = pss + p;
            i = i + 1;
        }
        assert(ms.take(n as int) =~= ms);
        self.histogram = rows;
        self.total_virtual = size;
        self.total_rss = rss;
        self.total_pss = pss;
    }
}

/// The count of all mappings is their number.
pub proof fn lemma_count_is_len(ms: Seq<MappingView>)
    ensures
        total(ms, Measure::Count) == ms.len(),
    decreases ms.len(),
{
    if ms.len() > 0 {
        lemma_count_is_len(ms.drop_last());
    }
}

/// What one entry adds to a sum over the histogram.
pub open spec fn entry_amount(entry: HistogramEntry, what: Measure) -> nat {
    match what {
        Measure::Count => entry.count as nat,
        Measure::Size => entry.total_size as nat,
        Measure::Rss => entry.total_rss as nat,
        Measure::Pss => entry.total_pss as nat,
    }
}

/// The sum of a measure over the entries of all rows.
pub open spec fn rows_total(rows: Seq<HistogramRow>, what: Measure) -> nat
    decreases rows.len(),
{
    if rows.len() == 0 {
        0
    } else {
        rows_total(rows.drop_last(), what) + entry_amount(rows.last().entry, what)
    }
}

/// The sum of a measure over the groups of the given keys.
pub open spec fn keys_total(keys: Seq<(u64, Seq<char>)>, ms: Seq<MappingView>, what: Measure) -> nat
    decreases keys.len(),
{
    if keys.len() == 0 {
        0
    } else {
        keys_total(keys.drop_last(), ms, what) + group_total(ms, keys.last(), what)
    }
}

/// One more mapping adds its amount to the groups of distinct keys once if
/// its key is among them, and not at all if it is not.
pub proof fn lemma_keys_total_step(keys: Seq<(u64, Seq<char>)>, ms: Seq<MappingView>, what: Measure)
    requires
        ms.len() > 0,
        forall|i: int, j: int| 0 <= i < j < keys.len() ==> keys[i] != keys[j],
    ensures
        keys_total(keys, ms, what) == keys_total(keys, ms.drop_last(), what) + if keys.contains(
            ms.last().key(),
        ) {
            amount(ms.last(), what)
        } else {
            0
        },
    decreases keys.len(),
{
    if keys.len() > 0 {
        let front = keys.drop_last();
        let key = ms.last().key();
        lemma_keys_total_step(front, ms, what);
        if keys.last() == key {
            assert(keys[keys.len() - 1] == key);
            assert(!front.contains(key)) by {
                if front.contains(key) {
                    let i = choose|i: int| 0 <= i < front.len() && front[i] == key;
                    assert(keys[i] == keys[keys.len() - 1]);
                }
            }
        } else {
            assert(front.contains(key) == keys.contains(key)) by {
                if front.contains(key) {
                    let i = choose|i: int| 0 <= i < front.len() && front[i] == key;
                    assert(keys[i] == key);
                }
                if keys.contains(key) {
                    let i = choose|i: int| 0 <= i < keys.len() && keys[i] == key;
                    assert(front[i] == key);
                }
            }
        }
    }
}

/// The groups of the distinct keys sum to what all mappings sum to.
pub proof fn lemma_groups_cover(ms: Seq<MappingView>, what: Measure)
    ensures
        keys_total(first_keys(ms), ms, what) == total(ms, what),
    decreases ms.len(),
{
    if ms.len() > 0 {
        let prev = ms.drop_last();
        let key = ms.last().key();
        lemma_groups_cover(prev, what);
        lemma_first_keys_distinct(prev);
        lemma_keys_total_step(first_keys(prev), ms, what);
        if !first_keys(prev).contains(key) {
            lemma_absent_key(prev, key, what);
            assert(first_keys(ms).drop_last() =~= first_keys(prev));
        }
    }
}

/// The rows of a histogram sum to the sums of the groups of their keys.
pub proof fn lemma_rows_total(rows: Seq<HistogramRow>, ms: Seq<MappingView>, what: Measure, n: int)
    requires
        is_histogram_of(rows, ms),
        0 <= n <= rows.len(),
    ensures
        rows_total(rows.take(n), what) == keys_total(first_keys(ms).take(n), ms, what),
    decreases n,
{
    if n > 0 {
        lemma_rows_total(rows, ms, what, n - 1);
        assert(rows.take(n).drop_last() =~= rows.take(n - 1));
        assert(first_keys(ms).take(n).drop_last() =~= first_keys(ms).take(n - 1));
        assert(rows.take(n).last() == rows[n - 1]);
    }
}

/// In aggregated statistics the entries of the histogram sum to the totals:
/// their sizes to the total virtual size, their resident and proportional
/// set sizes to those totals, and their counts to the number of mappings.
pub proof fn lemma_histogram_sums(stats: MemoryStats)
    requires
        stats.aggregated(),
    ensures
        rows_total(stats.histogram@, Measure::Size) == stats.total_virtual,
        rows_total(stats.histogram@, Measure::Rss) == stats.total_rss,
        rows_total(stats.histogram@, Measure::Pss) == stats.total_pss,
        rows_total(stats.histogram@, Measure::Count) == stats.mappings@.len(),
{
    let rows = stats.histogram@;
    let ms = stats.views();
    assert(rows.take(rows.len() as int) =~= rows);
    assert(first_keys(ms).take(rows.len() as int) =~= first_keys(ms));
    lemma_rows_total(rows, ms, Measure::Size, rows.len() as int);
    lemma_rows_total(rows, ms, Measure::Rss, rows.len() as int);
    lemma_rows_total(rows, ms, Measure::Pss, rows.len() as int);
    lemma_rows_total(rows, ms, Measure::Count, rows.len() as int);
    lemma_groups_cover(ms, Measure::Size);
    lemma_groups_cover(ms, Measure::Rss);
    lemma_groups_cover(ms, Measure::Pss);
    lemma_groups_cover(ms, Measure::Count);
    lemma_count_is_len(ms);
}

/// In aggregated statistics no two rows of the histogram have the same
/// size and permissions, and every row counts at least one mapping.
pub proof fn lemma_histogram_keys_unique(stats: MemoryStats)
    requires
        stats.aggregated(),
    ensures
        forall|i: int, j: int|
            0 <= i < j < stats.histogram@.len() ==> stats.histogram@[i].key()
                != stats.histogram@[j].key(),
        forall|i: int| 0 <= i < stats.histogram@.len() ==> stats.histogram@[i].entry.count >= 1,
{
    let rows = stats.histogram@;
    let ms = stats.views();
    lemma_first_keys_distinct(ms);
    assert forall|i: int| 0 <= i < rows.len() implies rows[i].entry.count >= 1 by {
        let key = rows[i].key();
        assert(first_keys(ms)[i] == key);
        assert(first_keys(ms).contains(key));
        lemma_present_key(ms, key);
    }
}

/// A key that some mapping has counts at least one mapping.
pub proof fn lemma_present_key(ms: Seq<MappingView>, key: (u64, Seq<char>))
    requires
        first_keys(ms).contains(key),
    ensures
        group_total(ms, key, Measure::Count) >= 1,
    decreases ms.len(),
{
    if ms.len() > 0 {
        if ms.last().key() != key {
            let prev = ms.drop_last();
            assert(first_keys(prev).contains(key)) by {
                let i = choose|i: int| 0 <= i < first_keys(ms).len() && first_keys(ms)[i] == key;
                if first_keys(prev).contains(ms.last().key()) {
                } else {
                    assert(i < first_keys(prev).len());
                    assert(first_keys(prev)[i] == key);
                }
            }
            lemma_present_key(prev, key);
        }
    }
}

/// Aggregated statistics of the same mappings have the same totals and the
/// same histogram.
pub proof fn lemma_same_mappings_same_statistics(a: MemoryStats, b: MemoryStats)
    requires
        a.aggregated(),
        b.aggregated(),
        a.views() == b.views(),
    ensures
        a.total_virtual == b.total_virtual,
        a.total_rss == b.total_rss,
        a.total_pss == b.total_pss,
        a.histogram@.len() == b.histogram@.len(),
        forall|i: int|
            0 <= i < a.histogram@.len() ==> {
                &&& a.histogram@[i].key() == b.histogram@[i].key()
                &&& a.histogram@[i].entry == b.histogram@[i].entry
            },
{
}

} // verus!
