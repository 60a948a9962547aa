//! The texts that the views of the interactive session show.

use crate::chart::{chart_title, title_of};
use crate::format::{bytes_text, decimal, hex_padded, push_decimal, push_hex};
use crate::parser::{text_view, MappingView, MemoryMapping, MemoryStats};
use crate::report::texts;
use crate::ui::{AppState, AppView, ChartMetric, SortBy};
use crate::utils::format_bytes;
use vstd::prelude::*;
use vstd::string::*;

verus! {

/// The name of the process in the statistics, if they hold one.
pub open spec fn name_in(stats: Option<MemoryStats>) -> Option<Seq<char>> {
    match stats {
        Some(s) => text_view(s.process_name),
        None => None,
    }
}

/// The title of the session: the name of the program, then the process id
/// where there is one, then the name of the process where it is known.
pub open spec fn title_text(pid: Option<u32>, name: Option<Seq<char>>) -> Seq<char> {
    match pid {
        None => "SMAPS Spy TUI"@,
        Some(p) => match name {
            Some(n) => "SMAPS Spy TUI - PID: "@ + decimal(p as nat) + " ("@ + n + ")"@,
            None => "SMAPS Spy TUI - PID: "@ + decimal(p as nat),
        },
    }
}

/// The title of the session.
pub fn header_title(app: &AppState) -> (title: String)
    ensures
        title@ == title_text(app.pid, name_in(app.memory_stats)),
{
    let pid = match app.pid {
        Some(p) => p,
        None => {
            return String::from_str("SMAPS Spy TUI");
        },
    };
    let mut title = String::from_str("SMAPS Spy TUI - PID: ");
    push_decimal(&mut title, pid as u64);
    match &app.memory_stats {
        Some(stats) => match &stats.process_name {
            Some(name) => {
                title.append(" (");
                title.append(name.as_str());
                title.append(")");
            },
            None => {},
        },
        None => {},
    }
    title
}

/// The text of a byte count that may be absent.
pub open spec fn optional_bytes_text(v: Option<u64>) -> Seq<char> {
    match v {
        Some(n) => bytes_text(n as nat),
        None => "N/A"@,
    }
}

/// The text of a byte count, or the words that say it is not known.
pub fn format_optional_bytes(v: Option<u64>) -> (text: String)
    ensures
        text@ == optional_bytes_text(v),
{
    match v {
        Some(n) => format_bytes(n),
        None => String::from_str("N/A"),
    }
}

/// A text that may be absent, or the given words in its place.
pub open spec fn text_or(t: Option<Seq<char>>, otherwise: Seq<char>) -> Seq<char> {
    match t {
        Some(s) => s,
        None => otherwise,
    }
}

/// The cells of a mapping in the table of mappings: start, end, size,
/// permissions, resident and proportional set size, and path.
pub open spec fn mapping_row(m: MappingView) -> Seq<Seq<char>> {
    seq![
        hex_padded(m.start_addr as nat, 16),
        hex_padded(m.end_addr as nat, 16),
        bytes_text(m.size as nat),
        m.permissions,
        optional_bytes_text(m.rss),
        optional_bytes_text(m.pss),
        text_or(m.path, Seq::empty()),
    ]
}

/// The cells of a mapping in the table of mappings.
pub fn mapping_cells(m: &MemoryMapping) -> (cells: Vec<String>)
    ensures
        texts(cells@) == mapping_row(m@),
{
    let mut start = String::new();
    push_hex(&mut start, m.start_addr, 16);
    let mut end = String::new();
    push_hex(&mut end, m.end_addr, 16);
    let path = match &m.path {
        Some(p) => p.clone(),
        None => String::new(),
    };
    let mut cells: Vec<String> = Vec::new();
    cells.push(start);
    cells.push(end);
    cells.push(format_bytes(m.size));
    cells.push(m.permissions.clone());
    cells.push(format_optional_bytes(m.rss));
    cells.push(format_optional_bytes(m.pss));
    cells.push(path);
    assert(texts(cells@) =~= mapping_row(m@));
    cells
}

/// What the details of a mapping say: its address range, size,
/// permissions, resident and proportional set size, and path.
pub open spec fn detail_row(m: MappingView) -> Seq<Seq<char>> {
    seq![
        hex_padded(m.start_addr as nat, 16) + "-"@ + hex_padded(m.end_addr as nat, 16),
        bytes_text(m.size as nat),
        m.permissions,
        optional_bytes_text(m.rss),
        optional_bytes_text(m.pss),
        text_or(m.path, "N/A"@),
    ]
}

/// What the details of a mapping say.
pub fn detail_values(m: &MemoryMapping) -> (values: Vec<String>)
    ensures
        texts(values@) == detail_row(m@),
{
    let mut range = String::new();
    push_hex(&mut range, m.start_addr, 16);
    range.append("-");
    push_hex(&mut range, m.end_addr, 16);
    let path = match &m.path {
        Some(p) => p.clone(),
        None => String::from_str("N/A"),
    };
    let mut values: Vec<String> = Vec::new();
    values.push(range);
    values.push(format_bytes(m.size));
    values.push(m.permissions.clone());
    values.push(format_optional_bytes(m.rss));
    values.push(format_optional_bytes(m.pss));
    values.push(path);
    assert(texts(values@) =~= detail_row(m@));
    values
}

/// The position of the mapping whose details are shown: the selected one,
/// where the statistics hold a mapping at its position.
pub open spec fn detailed_position(v: AppView) -> Option<usize> {
    match (v.memory_stats, v.selected_mapping) {
        (Some(stats), Some(i)) => if i < stats.mappings@.len() {
            Some(i)
        } else {
            None
        },
        _ => None,
    }
}

/// The position of the mapping whose details are shown.
pub fn detailed_mapping(app: &AppState) -> (position: Option<usize>)
    ensures
        position == detailed_position(app@),
{
    match (&app.memory_stats, app.selected_mapping) {
        (Some(stats), Some(i)) => {
            if i < stats.mappings.len() {
                Some(i)
            } else {
                None
            }
        },
        _ => None,
    }
}

/// What the summary says of the statistics: the number of mappings, the
/// total virtual size, and the totals of the resident and the proportional
/// set size.
pub open spec fn summary_row(stats: MemoryStats) -> Seq<Seq<char>> {
    seq![
        decimal(stats.mappings@.len()),
        bytes_text(stats.total_virtual as nat),
        bytes_text(stats.total_rss as nat),
        bytes_text(stats.total_pss as nat),
    ]
}

/// What the summary says of the statistics.
pub fn summary_values(stats: &MemoryStats) -> (values: Vec<String>)
    ensures
        texts(values@) == summary_row(*stats),
{
    let mut count = String::new();
    push_decimal(&mut count, stats.mappings.len() as u64);
    let mut values: Vec<String> = Vec::new();
    values.push(count);
    values.push(format_bytes(stats.total_virtual));
    values.push(format_bytes(stats.total_rss));
    values.push(format_bytes(stats.total_pss));
    assert(texts(values@) =~= summary_row(*stats));
    values
}

/// The line at the foot of the screen: the status message while there is
/// one, else the keys in short.
pub open spec fn footer_line(v: AppView) -> Seq<char> {
    if v.status_message.len() == 0 {
        "Press 'h' for help, 'q' to quit, 'r' to reload, '1-4' to switch views, 's' to change sort"@
    } else {
        v.status_message
    }
}

/// The line at the foot of the screen.
pub fn footer_text(app: &AppState) -> (line: String)
    ensures
        line@ == footer_line(app@),
{
    if app.status_message.as_str().unicode_len() == 0 {
        String::from_str(
            "Press 'h' for help, 'q' to quit, 'r' to reload, '1-4' to switch views, 's' to change sort",
        )
    } else {
        app.status_message.clone()
    }
}

/// The share of the screen, in percent, that stays free on either side of a
/// popup that takes `percent` of it.
pub fn side_margin(percent: u16) -> (margin: u16)
    requires
        percent <= 100,
    ensures
        margin == (100 - percent) / 2,
{
    (100 - percent) / 2
}

/// The heading of the histogram under a sort criterion.
pub fn histogram_heading(sort_by: SortBy) -> (heading: String)
    ensures
        heading@ == "Memory Histogram (Sort: "@ + sort_by.label() + ")"@,
{
    let mut heading = String::from_str("Memory Histogram (Sort: ");
    heading.append(sort_by.name());
    heading.append(")");
    heading
}

/// The heading of the chart under a metric, with the key that changes it.
pub fn chart_heading(metric: ChartMetric) -> (heading: String)
    ensures
        heading@ == title_of(metric) + " (Press 'm' to switch metrics)"@,
{
    let mut heading = String::from_str(chart_title(metric));
    heading.append(" (Press 'm' to switch metrics)");
    heading
}

} // verus!
