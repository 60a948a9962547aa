//! The order of the histogram's rows under each sort criterion.

use crate::parser::HistogramRow;
use crate::text::chars_of;
use crate::ui::SortBy;
use crate::utils::{average, calculate_average};
use vstd::prelude::*;
use vstd::string::*;

verus! {

/// Whether text `a` stands before text `b` in the dictionary order of their
/// characters' code points; a proper prefix stands before what it begins.
pub open spec fn text_less(a: Seq<char>, b: Seq<char>) -> bool
    decreases a.len(),
{
    if b.len() == 0 {
        false
    } else if a.len() == 0 {
        true
    } else if a[0] != b[0] {
        (a[0] as u32) < (b[0] as u32)
    } else {
        text_less(a.drop_first(), b.drop_first())
    }
}

/// Different characters have different code points.
pub proof fn lemma_code_points_differ(x: char, y: char)
    ensures
        x != y ==> x as u32 != y as u32,
{
}

/// Of two different texts, one stands before the other.
pub proof fn lemma_text_total(a: Seq<char>, b: Seq<char>)
    ensures
        a == b || text_less(a, b) || text_less(b, a),
    decreases a.len(),
{
    if a.len() > 0 && b.len() > 0 && a[0] == b[0] {
        lemma_text_total(a.drop_first(), b.drop_first());
        if a.drop_first() == b.drop_first() {
            assert(a =~= seq![a[0]] + a.drop_first());
            assert(b =~= seq![b[0]] + b.drop_first());
        }
    } else if a.len() == 0 && b.len() == 0 {
        assert(a =~= b);
    } else if a.len() > 0 && b.len() > 0 {
        lemma_code_points_differ(a[0], b[0]);
    }
}

/// No text stands before one that stands before it, nor before itself.
pub proof fn lemma_text_asymmetric(a: Seq<char>, b: Seq<char>)
    ensures
        !(text_less(a, b) && text_less(b, a)),
    decreases a.len(),
{
    if a.len() > 0 && b.len() > 0 && a[0] == b[0] {
        lemma_text_asymmetric(a.drop_first(), b.drop_first());
    }
}

/// The order of texts is transitive.
pub proof fn lemma_text_transitive(a: Seq<char>, b: Seq<char>, c: Seq<char>)
    requires
        text_less(a, b),
        text_less(b, c),
    ensures
        text_less(a, c),
    decreases a.len(),
{
    if a.len() > 0 && b.len() > 0 && c.len() > 0 && a[0] == b[0] && b[0] == c[0] {
        lemma_text_transitive(a.drop_first(), b.drop_first(), c.drop_first());
    }
}

/// Tells whether text `a` stands before text `b`.
pub fn text_is_less(a: &[char], b: &[char]) -> (less: bool)
    ensures
        less == text_less(a@, b@),
{
    let mut i: usize = 0;
    assert(a@.skip(0) =~= a@ && b@.skip(0) =~= b@);
    while i < a.len() && i < b.len() && a[i] == b[i]
        invariant
            i <= a@.len(),
            i <= b@.len(),
            text_less(a@, b@) == text_less(a@.skip(i as int), b@.skip(i as int)),
        decreases a@.len() - i,
    {
        assert(a@.skip(i as int).drop_first() =~= a@.skip(i + 1));
        assert(b@.skip(i as int).drop_first() =~= b@.skip(i + 1));
        i = i + 1;
    }
    if i >= b.len() {
        false
    } else if i >= a.len() {
        true
    } else {
        (a[i] as u32) < (b[i] as u32)
    }
}

/// The number by which a row is ordered under a criterion that orders by a
/// number: the larger number first.
pub open spec fn sort_value(row: HistogramRow, by: SortBy) -> nat {
    match by {
        SortBy::Count => row.entry.count as nat,
        SortBy::Size => row.size as nat,
        SortBy::Permissions => 0,
        SortBy::TotalRss => row.entry.total_rss as nat,
        SortBy::AvgRss => average(row.entry.total_rss, row.entry.count) as nat,
        SortBy::TotalPss => row.entry.total_pss as nat,
        SortBy::AvgPss => average(row.entry.total_pss, row.entry.count) as nat,
    }
}

/// Whether the criterion puts row `a` strictly before row `b`: by
/// permissions the text that stands first, by any other criterion the
/// larger number.
pub open spec fn row_better(a: HistogramRow, b: HistogramRow, by: SortBy) -> bool {
    if by == SortBy::Permissions {
        text_less(a.permissions@, b.permissions@)
    } else {
        sort_value(a, by) > sort_value(b, by)
    }
}

/// Whether row `i` stands before row `j` once sorted: the criterion puts it
/// first, or it puts neither first and `i` stood first before.
pub open spec fn comes_before(rows: Seq<HistogramRow>, by: SortBy, i: int, j: int) -> bool {
    row_better(rows[i], rows[j], by) || (!row_better(rows[j], rows[i], by) && i < j)
}

/// Whether `order` lists the positions of the first `n` rows in sorted order.
pub open spec fn is_order_of(rows: Seq<HistogramRow>, by: SortBy, order: Seq<usize>, n: int) -> bool {
    &&& order.len() == n
    &&& forall|k: int| 0 <= k < order.len() ==> 0 <= #[trigger] order[k] < n
    &&& forall|a: int, b: int|
        0 <= a < b < order.len() ==> comes_before(
            rows,
            by,
            #[trigger] order[a] as int,
            #[trigger] order[b] as int,
        )
}

/// Whether `order` lists the positions of all rows in sorted order. The
/// sort is stable: rows that the criterion does not tell apart keep their order.
pub open spec fn is_sort_order(rows: Seq<HistogramRow>, by: SortBy, order: Seq<usize>) -> bool {
    is_order_of(rows, by, order, rows.len() as int)
}

/// A row that the criterion puts before a second one, it puts before any
/// third that it does not put before the second.
pub proof fn lemma_better_chain(a: HistogramRow, b: HistogramRow, c: HistogramRow, by: SortBy)
    requires
        row_better(a, b, by),
        !row_better(c, b, by),
    ensures
        row_better(a, c, by),
{
    if by == SortBy::Permissions {
        lemma_text_total(c.permissions@, b.permissions@);
        if text_less(b.permissions@, c.permissions@) {
            lemma_text_transitive(a.permissions@, b.permissions@, c.permissions@);
        }
    }
}

/// The criterion puts no row before one that it puts before it.
pub proof fn lemma_better_asymmetric(a: HistogramRow, b: HistogramRow, by: SortBy)
    ensures
        !(row_better(a, b, by) && row_better(b, a, by)),
{
    if by == SortBy::Permissions {
        lemma_text_asymmetric(a.permissions@, b.permissions@);
    }
}

/// The characters of the permissions of every row.
fn permission_chars(rows: &Vec<HistogramRow>) -> (out: Vec<Vec<char>>)
    ensures
        out@.len() == rows@.len(),
        forall|i: int| 0 <= i < out@.len() ==> (#[trigger] out@[i])@ == rows@[i].permissions@,
{
    let mut out: Vec<Vec<char>> = Vec::new();
    let mut i: usize = 0;
    while i < rows.len()
        invariant
            i <= rows@.len(),
            out@.len() == i,
            forall|k: int| 0 <= k < out@.len() ==> (#[trigger] out@[k])@ == rows@[k].permissions@,
        decreases rows@.len() - i,
    {
        out.push(chars_of(rows[i].permissions.as_str()));
        i = i + 1;
    }
    out
}

/// The number by which a row is ordered under a criterion.
fn value_of(row: &HistogramRow, by: SortBy) -> (v: u64)
    ensures
        v == sort_value(*row, by),
{
    match by {
        SortBy::Count => row.entry.count as u64,
        SortBy::Size => row.size,
        SortBy::Permissions => 0,
        SortBy::TotalRss => row.entry.total_rss,
        SortBy::AvgRss => calculate_average(row.entry.total_rss, row.entry.count),
        SortBy::TotalPss => row.entry.total_pss,
        SortBy::AvgPss => calculate_average(row.entry.total_pss, row.entry.count),
    }
}

/// Tells whether the criterion puts row `i` strictly before row `j`.
fn is_better(rows: &Vec<HistogramRow>, perms: &Vec<Vec<char>>, by: SortBy, i: usize, j: usize) -> (b:
    bool)
    requires
        i < rows@.len(),
        j < rows@.len(),
        perms@.len() == rows@.len(),
        forall|k: int| 0 <= k < perms@.len() ==> (#[trigger] perms@[k])@ == rows@[k].permissions@,
    ensures
        b == row_better(rows@[i as int], rows@[j as int], by),
{
    match by {
        SortBy::Permissions => text_is_less(perms[i].as_slice(), perms[j].as_slice()),
        _ => value_of(&rows[i], by) > value_of(&rows[j], by),
    }
}

/// The positions of the rows in the order of the criterion.
pub fn sort_order(rows: &Vec<HistogramRow>, by: SortBy) -> (order: Vec<usize>)
    ensures
        is_sort_order(rows@, by, order@),
{
    let perms = permission_chars(rows);
    let n = rows.len();
    let mut order: Vec<usize> = Vec::new();
    let mut i: usize = 0;
    while i < n
        invariant
            n == rows@.len(),
            i <= n,
            perms@.len() == rows@.len(),
            forall|k: int| 0 <= k < perms@.len() ==> (#[trigger] perms@[k])@ == rows@[k].permissions@,
            is_order_of(rows@, by, order@, i as int),
        decreases n - i,
    {
        let mut p: usize = 0;
        while p < order.len() && !is_better(rows, &perms, by, i, order[p])
            invariant
                n == rows@.len(),
                i < n,
                p <= order@.len(),
                perms@.len() == rows@.len(),
                forall|k: int|
                    0 <= k < perms@.len() ==> (#[trigger] perms@[k])@ == rows@[k].permissions@,
                is_order_of(rows@, by, order@, i as int),
                forall|a: int|
                    0 <= a < p ==> !row_better(rows@[i as int], rows@[#[trigger] order@[a] as int], by),
            decreases order@.len() - p,
        {
            p = p + 1;
        }
        let ghost before = order@;
        order.insert(p, i);
        proof {
            assert forall|a: int, b: int| 0 <= a < b < order@.len() implies comes_before(
                rows@,
                by,
                #[trigger] order@[a] as int,
                #[trigger] order@[b] as int,
            ) by {
                if b < p {
                    assert(comes_before(rows@, by, before[a] as int, before[b] as int));
                } else if b == p {
                    assert(before[a] < i);
                } else if a < p {
                    assert(comes_before(rows@, by, before[a] as int, before[b - 1] as int));
                } else if a == p {
                    let first = before[p as int];
                    let other = before[b - 1];
                    assert(row_better(rows@[i as int], rows@[first as int], by));
                    if b - 1 > p {
                        assert(comes_before(rows@, by, first as int, other as int));
                        lemma_better_asymmetric(rows@[first as int], rows@[other as int], by);
                        lemma_better_chain(
                            rows@[i as int],
                            rows@[first as int],
                            rows@[other as int],
                            by,
                        );
                    }
                } else {
                    assert(comes_before(rows@, by, before[a - 1] as int, before[b - 1] as int));
                }
            }
        }
        i = i + 1;
    }
    order
}

/// Of two rows, neither stands before the other once sorted if the other
/// stands before it; no row stands before itself.
pub proof fn lemma_before_asymmetric(rows: Seq<HistogramRow>, by: SortBy, i: int, j: int)
    ensures
        !(comes_before(rows, by, i, j) && comes_before(rows, by, j, i)),
{
    lemma_better_asymmetric(rows[i], rows[j], by);
}

/// Every position of the rows occurs in a sort order.
pub proof fn lemma_order_covers(rows: Seq<HistogramRow>, by: SortBy, order: Seq<usize>, x: int)
    requires
        is_sort_order(rows, by, order),
        0 <= x < rows.len(),
    ensures
        exists|k: int| 0 <= k < order.len() && order[k] == x,
{
    let n = rows.len() as int;
    let positions = order.map_values(|v: usize| v as int);
    assert forall|i: int, j: int|
        0 <= i < positions.len() && 0 <= j < positions.len() && i != j implies positions[i]
        != positions[j] by {
        lemma_before_asymmetric(rows, by, order[i] as int, order[j] as int);
        if i < j {
            assert(comes_before(rows, by, order[i] as int, order[j] as int));
        } else {
            assert(comes_before(rows, by, order[j] as int, order[i] as int));
        }
    }
    positions.unique_seq_to_set();
    vstd::seq_lib::seq_to_set_is_finite(positions);
    vstd::set_lib::lemma_int_range(0, n);
    assert(positions.to_set().subset_of(vstd::set_lib::set_int_range(0, n))) by {
        assert forall|v: int| positions.to_set().contains(v) implies vstd::set_lib::set_int_range(
            0,
            n,
        ).contains(v) by {
            let k = choose|k: int| 0 <= k < positions.len() && positions[k] == v;
            assert(order[k] < n);
        }
    }
    vstd::set_lib::lemma_subset_equality(positions.to_set(), vstd::set_lib::set_int_range(0, n));
    assert(vstd::set_lib::set_int_range(0, n).contains(x));
    assert(positions.to_set().contains(x));
    let k = choose|k: int| 0 <= k < positions.len() && positions[k] == x;
    assert(order[k] == x);
}

/// Where two sort orders of the same rows agree up to a place, what the
/// first holds at that place does not stand before what the second holds there.
pub proof fn lemma_not_before(
    rows: Seq<HistogramRow>,
    by: SortBy,
    first: Seq<usize>,
    second: Seq<usize>,
    k: int,
)
    requires
        is_sort_order(rows, by, first),
        is_sort_order(rows, by, second),
        0 <= k < rows.len(),
        forall|j: int| 0 <= j < k ==> first[j] == second[j],
    ensures
        !comes_before(rows, by, first[k] as int, second[k] as int),
{
    if comes_before(rows, by, first[k] as int, second[k] as int) {
        let x = first[k] as int;
        lemma_before_asymmetric(rows, by, x, second[k] as int);
        lemma_before_asymmetric(rows, by, x, x);
        lemma_order_covers(rows, by, second, x);
        let p = choose|p: int| 0 <= p < second.len() && second[p] == x;
        if p < k {
            assert(comes_before(rows, by, first[p] as int, first[k] as int));
        } else if p > k {
            assert(comes_before(rows, by, second[k] as int, second[p] as int));
        }
    }
}

/// Two sort orders of the same rows hold the same position at every place.
pub proof fn lemma_same_place(
    rows: Seq<HistogramRow>,
    by: SortBy,
    first: Seq<usize>,
    second: Seq<usize>,
    k: int,
)
    requires
        is_sort_order(rows, by, first),
        is_sort_order(rows, by, second),
        0 <= k < rows.len(),
    ensures
        first[k] == second[k],
    decreases k,
{
    assert forall|j: int| 0 <= j < k implies first[j] == second[j] by {
        lemma_same_place(rows, by, first, second, j);
    }
    lemma_not_before(rows, by, first, second, k);
    lemma_not_before(rows, by, second, first, k);
}

/// The rows have one sort order only under each criterion: the order that
/// `sort_order` gives is the only one that its contract admits.
pub proof fn lemma_sort_order_unique(
    rows: Seq<HistogramRow>,
    by: SortBy,
    first: Seq<usize>,
    second: Seq<usize>,
)
    requires
        is_sort_order(rows, by, first),
        is_sort_order(rows, by, second),
    ensures
        first == second,
{
    assert forall|k: int| 0 <= k < first.len() implies first[k] == second[k] by {
        lemma_same_place(rows, by, first, second, k);
    }
    assert(first =~= second);
}

} // verus!
