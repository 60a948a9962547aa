//! The report of the histogram as a table: the order of its rows and the
//! text of its cells.

use crate::format::{bytes_text, decimal, push_decimal, to_decimal};
use crate::parser::{HistogramRow, MemoryStats};
use crate::ui::AppState;
use crate::sort::{is_sort_order, sort_order};
use crate::ui::SortBy;
use crate::utils::{average, calculate_average, format_bytes};
use vstd::prelude::*;
use vstd::string::*;

verus! {

/// The views of a sequence of texts.
pub open spec fn texts(v: Seq<String>) -> Seq<Seq<char>> {
    v.map_values(|s: String| s@)
}

/// The criterion that a name stands for; any other name stands for the count.
pub open spec fn sort_by_of(name: Seq<char>) -> SortBy {
    if name == "size"@ {
        SortBy::Size
    } else if name == "perms"@ {
        SortBy::Permissions
    } else if name == "rss_total"@ {
        SortBy::TotalRss
    } else if name == "rss_avg"@ {
        SortBy::AvgRss
    } else if name == "pss_total"@ {
        SortBy::TotalPss
    } else if name == "pss_avg"@ {
        SortBy::AvgPss
    } else {
        SortBy::Count
    }
}

/// The criterion that a name stands for.
pub fn sort_by_name(name: &str) -> (by: SortBy)
    ensures
        by == sort_by_of(name@),
{
    let name = String::from_str(name);
    if name == String::from_str("size") {
        SortBy::Size
    } else if name == String::from_str("perms") {
        SortBy::Permissions
    } else if name == String::from_str("rss_total") {
        SortBy::TotalRss
    } else if name == String::from_str("rss_avg") {
        SortBy::AvgRss
    } else if name == String::from_str("pss_total") {
        SortBy::TotalPss
    } else if name == String::from_str("pss_avg") {
        SortBy::AvgPss
    } else {
        SortBy::Count
    }
}

/// Whether `out` holds the rows of `rows` in the order of the criterion,
/// rows that it does not tell apart in the order in which they stood.
pub open spec fn is_sorted_copy(rows: Seq<HistogramRow>, by: SortBy, out: Seq<HistogramRow>) -> bool {
    exists|order: Seq<usize>|
        {
            &&& is_sort_order(rows, by, order)
            &&& out.len() == order.len()
            &&& forall|k: int|
                0 <= k < out.len() ==> {
                    &&& (#[trigger] out[k]).key() == rows[order[k] as int].key()
                    &&& out[k].entry == rows[order[k] as int].entry
                }
        }
}

/// The rows of the histogram in the order of the criterion.
pub fn sort_histogram(rows: &Vec<HistogramRow>, by: SortBy) -> (out: Vec<HistogramRow>)
    ensures
        is_sorted_copy(rows@, by, out@),
{
    let order = sort_order(rows, by);
    let mut out: Vec<HistogramRow> = Vec::new();
    let mut k: usize = 0;
    while k < order.len()
        invariant
            k <= order@.len(),
            is_sort_order(rows@, by, order@),
            out@.len() == k,
            forall|l: int|
                0 <= l < out@.len() ==> {
                    &&& (#[trigger] out@[l]).key() == rows@[order@[l] as int].key()
                    &&& out@[l].entry == rows@[order@[l] as int].entry
                },
        decreases order@.len() - k,
    {
        out.push(rows[order[k]].clone());
        k = k + 1;
    }
    out
}

/// The rows of the histogram in the order of the criterion that `sort_by` names.
pub fn sort_histogram_data(histogram: &Vec<HistogramRow>, sort_by: &str) -> (out: Vec<HistogramRow>)
    ensures
        is_sorted_copy(histogram@, sort_by_of(sort_by@), out@),
{
    sort_histogram(histogram, sort_by_name(sort_by))
}

/// Whether the statistics hold any resident or proportional set size, so
/// that the table shows the columns for them.
pub fn has_rss_pss(stats: &MemoryStats) -> (wide: bool)
    ensures
        wide == (stats.total_rss > 0 || stats.total_pss > 0),
{
    stats.total_rss > 0 || stats.total_pss > 0
}

/// The cells of a row of the table: size, permissions, count and total
/// size, and in the wide table the totals and means of the resident and
/// the proportional set size.
pub open spec fn row_cells(row: HistogramRow, wide: bool) -> Seq<Seq<char>> {
    let narrow = seq![
        bytes_text(row.size as nat),
        row.permissions@,
        decimal(row.entry.count as nat),
        bytes_text(row.entry.total_size as nat),
    ];
    if wide {
        narrow + seq![
            bytes_text(row.entry.total_rss as nat),
            bytes_text(average(row.entry.total_rss, row.entry.count) as nat),
            bytes_text(row.entry.total_pss as nat),
            bytes_text(average(row.entry.total_pss, row.entry.count) as nat),
        ]
    } else {
        narrow
    }
}

/// The cells of one row of the table.
pub fn histogram_cells(row: &HistogramRow, wide: bool) -> (cells: Vec<String>)
    ensures
        texts(cells@) == row_cells(*row, wide),
{
    let mut cells: Vec<String> = Vec::new();
    cells.push(format_bytes(row.size));
    cells.push(row.permissions.clone());
    cells.push(to_decimal(row.entry.count as u64));
    cells.push(format_bytes(row.entry.total_size));
    if wide {
        cells.push(format_bytes(row.entry.total_rss));
        cells.push(format_bytes(calculate_average(row.entry.total_rss, row.entry.count)));
        cells.push(format_bytes(row.entry.total_pss));
        cells.push(format_bytes(calculate_average(row.entry.total_pss, row.entry.count)));
    }
    assert(texts(cells@) =~= row_cells(*row, wide));
    cells
}

/// The headings of the columns of the table.
pub open spec fn column_names(wide: bool) -> Seq<Seq<char>> {
    let narrow = seq!["Size"@, "Perms"@, "Count"@, "Total Size"@];
    if wide {
        narrow + seq!["Total RSS"@, "Avg RSS"@, "Total PSS"@, "Avg PSS"@]
    } else {
        narrow
    }
}

/// The headings of the columns of the table: eight in the wide table, four
/// in the narrow one.
pub fn histogram_columns(wide: bool) -> (names: Vec<&'static str>)
    ensures
        names@.len() == column_names(wide).len(),
        forall|i: int| 0 <= i < names@.len() ==> (#[trigger] names@[i])@ == column_names(wide)[i],
{
    let mut names: Vec<&'static str> = Vec::new();
    names.push("Size");
    names.push("Perms");
    names.push("Count");
    names.push("Total Size");
    if wide {
        names.push("Total RSS");
        names.push("Avg RSS");
        names.push("Total PSS");
        names.push("Avg PSS");
    }
    names
}

/// The cells of the table, row by row.
pub fn histogram_table(rows: &Vec<HistogramRow>, has_rss_pss: bool) -> (table: Vec<Vec<String>>)
    ensures
        table@.len() == rows@.len(),
        forall|i: int|
            0 <= i < table@.len() ==> texts((#[trigger] table@[i])@) == row_cells(
                rows@[i],
                has_rss_pss,
            ),
{
    let mut table: Vec<Vec<String>> = Vec::new();
    let mut i: usize = 0;
    while i < rows.len()
        invariant
            i <= rows@.len(),
            table@.len() == i,
            forall|k: int|
                0 <= k < table@.len() ==> texts((#[trigger] table@[k])@) == row_cells(
                    rows@[k],
                    has_rss_pss,
                ),
        decreases rows@.len() - i,
    {
        table.push(histogram_cells(&rows[i], has_rss_pss));
        i = i + 1;
    }
    table
}

/// A run of `n` copies of one character.
pub open spec fn repeated(c: char, n: nat) -> Seq<char> {
    Seq::new(n, |i: int| c)
}

/// `t` with spaces before it up to `width` characters.
pub open spec fn padded_left(t: Seq<char>, width: nat) -> Seq<char> {
    if t.len() >= width {
        t
    } else {
        repeated(' ', (width - t.len()) as nat) + t
    }
}

/// `t` with spaces on both sides up to `width` characters, the odd one after it.
pub open spec fn centered(t: Seq<char>, width: nat) -> Seq<char> {
    if t.len() >= width {
        t
    } else {
        repeated(' ', ((width - t.len()) / 2) as nat) + t + repeated(
            ' ',
            (width - t.len() - (width - t.len()) / 2) as nat,
        )
    }
}

/// Appends `n` copies of `c` to `out`.
pub fn push_repeated(out: &mut String, c: char, n: usize)
    ensures
        final(out)@ == old(out)@ + repeated(c, n as nat),
{
    let mut i: usize = 0;
    while i < n
        invariant
            i <= n,
            out@ == old(out)@ + repeated(c, i as nat),
        decreases n - i,
    {
        out.push(c);
        assert(out@ =~= old(out)@ + repeated(c, (i + 1) as nat));
        i = i + 1;
    }
}

/// Appends `t`, with spaces before it up to `width` characters, to `out`.
pub fn push_padded_left(out: &mut String, t: &str, width: usize)
    ensures
        final(out)@ == old(out)@ + padded_left(t@, width as nat),
{
    let len = t.unicode_len();
    if len < width {
        push_repeated(out, ' ', width - len);
    }
    out.append(t);
    assert(out@ =~= old(out)@ + padded_left(t@, width as nat));
}

/// Appends `t`, with spaces on both sides up to `width` characters, to `out`.
pub fn push_centered(out: &mut String, t: &str, width: usize)
    ensures
        final(out)@ == old(out)@ + centered(t@, width as nat),
{
    let len = t.unicode_len();
    if len < width {
        let before: usize = (width - len) / 2;
        push_repeated(out, ' ', before);
        out.append(t);
        push_repeated(out, ' ', width - len - before);
    } else {
        out.append(t);
    }
    assert(out@ =~= old(out)@ + centered(t@, width as nat));
}

/// A line of the table from its cells: the first four columns, and in the
/// wide table four more, each of a fixed width and set off by a bar.
pub open spec fn table_line(cells: Seq<Seq<char>>, wide: bool) -> Seq<char> {
    let narrow = padded_left(cells[0], 17) + " | "@ + centered(cells[1], 11) + " | "@
        + padded_left(cells[2], 5) + " | "@ + padded_left(cells[3], 18);
    if wide {
        narrow + " | "@ + padded_left(cells[4], 17) + " | "@ + padded_left(cells[5], 13) + " | "@
            + padded_left(cells[6], 17) + " | "@ + padded_left(cells[7], 13)
    } else {
        narrow
    }
}

/// Sets the four cells of a narrow line, or the eight of a wide one.
fn line_of_cells(
    c0: &str,
    c1: &str,
    c2: &str,
    c3: &str,
    rest: Option<(&str, &str, &str, &str)>,
) -> (line: String)
    ensures
        match rest {
            None => line@ == table_line(seq![c0@, c1@, c2@, c3@], false),
            Some(r) => line@ == table_line(
                seq![c0@, c1@, c2@, c3@, r.0@, r.1@, r.2@, r.3@],
                true,
            ),
        },
{
    let mut line = String::new();
    push_padded_left(&mut line, c0, 17);
    line.append(" | ");
    push_centered(&mut line, c1, 11);
    line.append(" | ");
    push_padded_left(&mut line, c2, 5);
    line.append(" | ");
    push_padded_left(&mut line, c3, 18);
    match rest {
        Some(r) => {
            line.append(" | ");
            push_padded_left(&mut line, r.0, 17);
            line.append(" | ");
            push_padded_left(&mut line, r.1, 13);
            line.append(" | ");
            push_padded_left(&mut line, r.2, 17);
            line.append(" | ");
            push_padded_left(&mut line, r.3, 13);
            assert(line@ =~= table_line(
                seq![c0@, c1@, c2@, c3@, r.0@, r.1@, r.2@, r.3@],
                true,
            ));
        },
        None => {
            assert(line@ =~= table_line(seq![c0@, c1@, c2@, c3@], false));
        },
    }
    line
}

/// The line of the table that names its columns.
pub fn heading_line(wide: bool) -> (line: String)
    ensures
        line@ == table_line(column_names(wide), wide),
{
    if wide {
        let line = line_of_cells(
            "Size",
            "Perms",
            "Count",
            "Total Size",
            Some(("Total RSS", "Avg RSS", "Total PSS", "Avg PSS")),
        );
        assert(column_names(true) =~= seq![
            "Size"@,
            "Perms"@,
            "Count"@,
            "Total Size"@,
            "Total RSS"@,
            "Avg RSS"@,
            "Total PSS"@,
            "Avg PSS"@,
        ]);
        line
    } else {
        line_of_cells("Size", "Perms", "Count", "Total Size", None)
    }
}

/// The line of the table for one row of the histogram.
pub fn row_line(row: &HistogramRow, wide: bool) -> (line: String)
    ensures
        line@ == table_line(row_cells(*row, wide), wide),
{
    let cells = histogram_cells(row, wide);
    assert(texts(cells@).len() == row_cells(*row, wide).len());
    if wide {
        assert(texts(cells@) =~= seq![
            cells@[0]@,
            cells@[1]@,
            cells@[2]@,
            cells@[3]@,
            cells@[4]@,
            cells@[5]@,
            cells@[6]@,
            cells@[7]@,
        ]);
        line_of_cells(
            cells[0].as_str(),
            cells[1].as_str(),
            cells[2].as_str(),
            cells[3].as_str(),
            Some((cells[4].as_str(), cells[5].as_str(), cells[6].as_str(), cells[7].as_str())),
        )
    } else {
        assert(texts(cells@) =~= seq![cells@[0]@, cells@[1]@, cells@[2]@, cells@[3]@]);
        line_of_cells(
            cells[0].as_str(),
            cells[1].as_str(),
            cells[2].as_str(),
            cells[3].as_str(),
            None,
        )
    }
}

/// The number of dashes in the rule under the names of the columns.
pub open spec fn rule_length(wide: bool) -> nat {
    if wide {
        137
    } else {
        56
    }
}

/// The lines that head the report: the process id and the name of the
/// process where the source is a live process, else the path of the
/// source; then an empty line.
pub open spec fn header_text(stats: MemoryStats, file_path: Seq<char>) -> Seq<Seq<char>> {
    match stats.pid {
        Some(pid) => match stats.process_name {
            Some(name) => seq![
                "Memory Analysis for PID: "@ + decimal(pid as nat),
                "Process Name: "@ + name@,
                Seq::empty(),
            ],
            None => seq!["Memory Analysis for PID: "@ + decimal(pid as nat), Seq::empty()],
        },
        None => seq!["Memory Analysis for file: "@ + file_path, Seq::empty()],
    }
}

/// The lines that head the report.
pub fn header_lines(stats: &MemoryStats, file_path: &str) -> (lines: Vec<String>)
    ensures
        texts(lines@) == header_text(*stats, file_path@),
{
    let mut lines: Vec<String> = Vec::new();
    match stats.pid {
        Some(pid) => {
            let mut line = String::from_str("Memory Analysis for PID: ");
            push_decimal(&mut line, pid as u64);
            lines.push(line);
            match &stats.process_name {
                Some(name) => {
                    let mut line = String::from_str("Process Name: ");
                    line.append(name.as_str());
                    lines.push(line);
                },
                None => {},
            }
        },
        None => {
            let mut line = String::from_str("Memory Analysis for file: ");
            line.append(file_path);
            lines.push(line);
        },
    }
    lines.push(String::new());
    assert(texts(lines@) =~= header_text(*stats, file_path@));
    lines
}

/// The lines that sum the statistics up: the number of mappings, the total
/// virtual size, and the totals of the resident and the proportional set
/// size where they are not zero; then an empty line.
pub open spec fn summary_text(stats: MemoryStats) -> Seq<Seq<char>> {
    seq![
        "Summary:"@,
        "  Total Mappings: "@ + decimal(stats.mappings@.len()),
        "  Total Virtual Memory: "@ + bytes_text(stats.total_virtual as nat),
    ] + (if stats.total_rss > 0 {
        seq!["  Total RSS: "@ + bytes_text(stats.total_rss as nat)]
    } else {
        Seq::empty()
    }) + (if stats.total_pss > 0 {
        seq!["  Total PSS: "@ + bytes_text(stats.total_pss as nat)]
    } else {
        Seq::empty()
    }) + seq![Seq::empty()]
}

/// The lines that sum the statistics up.
pub fn summary_lines(stats: &MemoryStats) -> (lines: Vec<String>)
    ensures
        texts(lines@) == summary_text(*stats),
{
    let mut lines: Vec<String> = Vec::new();
    lines.push(String::from_str("Summary:"));
    let mut line = String::from_str("  Total Mappings: ");
    push_decimal(&mut line, stats.mappings.len() as u64);
    lines.push(line);
    let mut line = String::from_str("  Total Virtual Memory: ");
    line.append(format_bytes(stats.total_virtual).as_str());
    lines.push(line);
    if stats.total_rss > 0 {
        let mut line = String::from_str("  Total RSS: ");
        line.append(format_bytes(stats.total_rss).as_str());
        lines.push(line);
    }
    if stats.total_pss > 0 {
        let mut line = String::from_str("  Total PSS: ");
        line.append(format_bytes(stats.total_pss).as_str());
        lines.push(line);
    }
    lines.push(String::new());
    assert(texts(lines@) =~= summary_text(*stats));
    lines
}

/// The lines of the table: the names of the columns, a rule, and one line
/// for each row.
pub open spec fn table_text(rows: Seq<HistogramRow>, wide: bool) -> Seq<Seq<char>> {
    seq![table_line(column_names(wide), wide), repeated('-', rule_length(wide))] + rows.map_values(
        |row: HistogramRow| table_line(row_cells(row, wide), wide),
    )
}

/// The lines of the table, narrow or wide.
pub fn table_lines(rows: &Vec<HistogramRow>, has_rss_pss: bool) -> (lines: Vec<String>)
    ensures
        texts(lines@) == table_text(rows@, has_rss_pss),
{
    let mut lines: Vec<String> = Vec::new();
    lines.push(heading_line(has_rss_pss));
    let mut rule = String::new();
    push_repeated(
        &mut rule,
        '-',
        if has_rss_pss {
            137
        } else {
            56
        },
    );
    assert(rule@ =~= repeated('-', rule_length(has_rss_pss)));
    lines.push(rule);
    let mut i: usize = 0;
    assert(rows@.take(0) =~= Seq::empty());
    assert(texts(lines@) =~= table_text(rows@.take(0), has_rss_pss));
    while i < rows.len()
        invariant
            i <= rows@.len(),
            texts(lines@) == table_text(rows@.take(i as int), has_rss_pss),
        decreases rows@.len() - i,
    {
        let ghost before = lines@;
        let line = row_line(&rows[i], has_rss_pss);
        lines.push(line);
        proof {
            let cell_line = |row: HistogramRow|
                table_line(row_cells(row, has_rss_pss), has_rss_pss);
            assert(rows@.take(i + 1) =~= rows@.take(i as int).push(rows@[i as int]));
            assert(rows@.take(i + 1).map_values(cell_line) =~= rows@.take(i as int).map_values(
                cell_line,
            ).push(cell_line(rows@[i as int])));
            assert(texts(lines@) =~= texts(before).push(line@));
        }
        assert(texts(lines@) =~= table_text(rows@.take(i + 1), has_rss_pss));
        i = i + 1;
    }
    assert(rows@.take(rows@.len() as int) =~= rows@);
    lines
}

/// The lines that close the report: an empty one, and the names of the
/// sort criteria.
pub open spec fn options_text() -> Seq<Seq<char>> {
    seq![
        Seq::empty(),
        "Sort options: count, size, perms, rss_total, rss_avg, pss_total, pss_avg"@,
    ]
}

/// The whole report of statistics whose histogram stands sorted in `sorted`.
pub open spec fn report_text(stats: MemoryStats, file_path: Seq<char>, sorted: Seq<HistogramRow>) -> Seq<
    Seq<char>,
> {
    header_text(stats, file_path) + summary_text(stats) + table_text(
        sorted,
        stats.total_rss > 0 || stats.total_pss > 0,
    ) + options_text()
}

/// The report of the session's statistics, line by line, with the table in
/// the order of the criterion that `sort_by` names. Without statistics the
/// report says so.
pub fn dump_histogram(app: &AppState, sort_by: &str) -> (lines: Vec<String>)
    ensures
        match app.memory_stats {
            None => texts(lines@) == seq!["No data loaded"@],
            Some(stats) => exists|sorted: Seq<HistogramRow>|
                {
                    &&& is_sorted_copy(stats.histogram@, sort_by_of(sort_by@), sorted)
                    &&& texts(lines@) == report_text(stats, app.file_path@, sorted)
                },
        },
{
    let mut lines: Vec<String> = Vec::new();
    match &app.memory_stats {
        None => {
            lines.push(String::from_str("No data loaded"));
            assert(texts(lines@) =~= seq!["No data loaded"@]);
        },
        Some(stats) => {
            let mut header = header_lines(stats, app.file_path.as_str());
            let mut summary = summary_lines(stats);
            let sorted = sort_histogram_data(&stats.histogram, sort_by);
            let mut table = table_lines(&sorted, has_rss_pss(stats));
            let ghost h = texts(header@);
            let ghost s = texts(summary@);
            let ghost t = texts(table@);
            lines.append(&mut header);
            lines.append(&mut summary);
            lines.append(&mut table);
            lines.push(String::new());
            lines.push(
                String::from_str(
                    "Sort options: count, size, perms, rss_total, rss_avg, pss_total, pss_avg",
                ),
            );
            assert(texts(lines@) =~= h + s + t + options_text());
            assert(texts(lines@) == report_text(*stats, app.file_path@, sorted@));
        },
    }
    lines
}

} // verus!
