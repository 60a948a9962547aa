//! The state of an interactive session and its transitions.

use crate::parser::{
    all_valid, parse_file, parse_records, pid_of_path, text_view, MappingView, MemoryStats,
};
use crate::records::{error_text, ParseError, ParseErrorView};
use crate::text::trimmed;
use crate::utils::{FILE_WATCH_INTERVAL_SECS, STATUS_MESSAGE_TIMEOUT_SECS};
use vstd::prelude::*;
use vstd::string::*;

verus! {

/// The criterion by which the histogram is ordered.
#[derive(Debug, Clone, Copy, PartialEq, Eq, Structural)]
pub enum SortBy {
    Count,
    Size,
    Permissions,
    TotalRss,
    AvgRss,
    TotalPss,
    AvgPss,
}

/// What the bars of the chart measure.
#[derive(Debug, Clone, Copy, PartialEq, Eq, Structural)]
pub enum ChartMetric {
    Size,
    Count,
    TotalSize,
    TotalRss,
    AverageRss,
}

/// The four views.
#[derive(Debug, Clone, Copy, PartialEq, Eq, Structural)]
pub enum ViewMode {
    Histogram,
    Mappings,
    Chart,
    Details,
}

impl SortBy {
    /// The criterion that follows this one in the cycle.
    pub open spec fn successor(self) -> SortBy {
        match self {
            SortBy::Count => SortBy::Size,
            SortBy::Size => SortBy::Permissions,
            SortBy::Permissions => SortBy::TotalRss,
            SortBy::TotalRss => SortBy::AvgRss,
            SortBy::AvgRss => SortBy::TotalPss,
            SortBy::TotalPss => SortBy::AvgPss,
            SortBy::AvgPss => SortBy::Count,
        }
    }

    /// The position of this criterion in the cycle.
    pub open spec fn position(self) -> nat {
        match self {
            SortBy::Count => 0,
            SortBy::Size => 1,
            SortBy::Permissions => 2,
            SortBy::TotalRss => 3,
            SortBy::AvgRss => 4,
            SortBy::TotalPss => 5,
            SortBy::AvgPss => 6,
        }
    }

    /// The criterion that follows this one in the cycle.
    pub fn next(self) -> (n: SortBy)
        ensures
            n == self.successor(),
            n.position() == (self.position() + 1) % 7,
    {
        match self {
            SortBy::Count => SortBy::Size,
            SortBy::Size => SortBy::Permissions,
            SortBy::Permissions => SortBy::TotalRss,
            SortBy::TotalRss => SortBy::AvgRss,
            SortBy::AvgRss => SortBy::TotalPss,
            SortBy::TotalPss => SortBy::AvgPss,
            SortBy::AvgPss => SortBy::Count,
        }
    }
}

impl ViewMode {
    /// The view that follows this one in the cycle.
    pub open spec fn successor(self) -> ViewMode {
        match self {
            ViewMode::Histogram => ViewMode::Mappings,
            ViewMode::Mappings => ViewMode::Chart,
            ViewMode::Chart => ViewMode::Details,
            ViewMode::Details => ViewMode::Histogram,
        }
    }

    /// The position of this view in the cycle, which is that of its tab.
    pub open spec fn position(self) -> nat {
        match self {
            ViewMode::Histogram => 0,
            ViewMode::Mappings => 1,
            ViewMode::Chart => 2,
            ViewMode::Details => 3,
        }
    }

    /// Whether this view shows a table with a selected row.
    pub open spec fn has_table(self) -> bool {
        self == ViewMode::Histogram || self == ViewMode::Mappings
    }

    /// The view that follows this one in the cycle.
    pub fn next(self) -> (n: ViewMode)
        ensures
            n == self.successor(),
            n.position() == (self.position() + 1) % 4,
    {
        match self {
            ViewMode::Histogram => ViewMode::Mappings,
            ViewMode::Mappings => ViewMode::Chart,
            ViewMode::Chart => ViewMode::Details,
            ViewMode::Details => ViewMode::Histogram,
        }
    }

    /// Tells whether this view shows a table with a selected row.
    pub fn is_table(self) -> (b: bool)
        ensures
            b == self.has_table(),
    {
        match self {
            ViewMode::Histogram => true,
            ViewMode::Mappings => true,
            _ => false,
        }
    }

    /// The number of the tab of this view, from zero.
    pub fn tab_index(self) -> (i: usize)
        ensures
            i == self.position(),
    {
        match self {
            ViewMode::Histogram => 0,
            ViewMode::Mappings => 1,
            ViewMode::Chart => 2,
            ViewMode::Details => 3,
        }
    }
}

impl ChartMetric {
    /// The metric that follows this one in the cycle.
    pub open spec fn successor(self) -> ChartMetric {
        match self {
            ChartMetric::Size => ChartMetric::Count,
            ChartMetric::Count => ChartMetric::TotalSize,
            ChartMetric::TotalSize => ChartMetric::TotalRss,
            ChartMetric::TotalRss => ChartMetric::AverageRss,
            ChartMetric::AverageRss => ChartMetric::Size,
        }
    }

    /// The position of this metric in the cycle.
    pub open spec fn position(self) -> nat {
        match self {
            ChartMetric::Size => 0,
            ChartMetric::Count => 1,
            ChartMetric::TotalSize => 2,
            ChartMetric::TotalRss => 3,
            ChartMetric::AverageRss => 4,
        }
    }

    /// The metric that follows this one in the cycle.
    pub fn next(self) -> (n: ChartMetric)
        ensures
            n == self.successor(),
            n.position() == (self.position() + 1) % 5,
    {
        match self {
            ChartMetric::Size => ChartMetric::Count,
            ChartMetric::Count => ChartMetric::TotalSize,
            ChartMetric::TotalSize => ChartMetric::TotalRss,
            ChartMetric::TotalRss => ChartMetric::AverageRss,
            ChartMetric::AverageRss => ChartMetric::Size,
        }
    }
}

/// The row of a table that is selected, if any.
#[derive(Debug, Clone, Copy, PartialEq, Eq, Structural)]
pub struct TableState {
    pub selected: Option<usize>,
}

impl TableState {
    /// A table without a selected row.
    pub fn new() -> (t: TableState)
        ensures
            t.selected is None,
    {
        TableState { selected: None }
    }

    /// The selected row.
    pub fn selected(&self) -> (s: Option<usize>)
        ensures
            s == self.selected,
    {
        self.selected
    }

    /// Selects a row, or none.
    pub fn select(&mut self, index: Option<usize>)
        ensures
            final(self).selected == index,
    {
        self.selected = index;
    }
}

/// The row after `current` in a table of `len` rows, the first after the last.
pub open spec fn next_index(current: nat, len: nat) -> nat {
    if current + 1 >= len {
        0
    } else {
        current + 1
    }
}

/// The row before `current` in a table of `len` rows, the last before the first.
pub open spec fn previous_index(current: nat, len: nat) -> nat {
    if current == 0 {
        (len - 1) as nat
    } else {
        (current - 1) as nat
    }
}

/// The row in use where `selected` is the selection: the first where there is none.
pub open spec fn current_row(selected: Option<usize>) -> nat {
    match selected {
        Some(i) => i as nat,
        None => 0,
    }
}

impl SortBy {
    /// The name of this criterion in a status message.
    pub open spec fn label(self) -> Seq<char> {
        match self {
            SortBy::Count => "Count"@,
            SortBy::Size => "Size"@,
            SortBy::Permissions => "Permissions"@,
            SortBy::TotalRss => "TotalRss"@,
            SortBy::AvgRss => "AvgRss"@,
            SortBy::TotalPss => "TotalPss"@,
            SortBy::AvgPss => "AvgPss"@,
        }
    }

    /// The name of this criterion in a status message.
    pub fn name(self) -> (n: &'static str)
        ensures
            n@ == self.label(),
    {
        match self {
            SortBy::Count => "Count",
            SortBy::Size => "Size",
            SortBy::Permissions => "Permissions",
            SortBy::TotalRss => "TotalRss",
            SortBy::AvgRss => "AvgRss",
            SortBy::TotalPss => "TotalPss",
            SortBy::AvgPss => "AvgPss",
        }
    }
}

impl ChartMetric {
    /// The name of this metric in a status message.
    pub open spec fn label(self) -> Seq<char> {
        match self {
            ChartMetric::Size => "Size"@,
            ChartMetric::Count => "Count"@,
            ChartMetric::TotalSize => "TotalSize"@,
            ChartMetric::TotalRss => "TotalRss"@,
            ChartMetric::AverageRss => "AverageRss"@,
        }
    }

    /// The name of this metric in a status message.
    pub fn name(self) -> (n: &'static str)
        ensures
            n@ == self.label(),
    {
        match self {
            ChartMetric::Size => "Size",
            ChartMetric::Count => "Count",
            ChartMetric::TotalSize => "TotalSize",
            ChartMetric::TotalRss => "TotalRss",
            ChartMetric::AverageRss => "AverageRss",
        }
    }
}

/// A key of the interactive session.
#[derive(Debug, Clone, Copy, PartialEq, Eq, Structural)]
pub enum Key {
    Char(char),
    Esc,
    Tab,
    Up,
    Down,
    Other,
}

/// What the session does after a key.
#[derive(Debug, Clone, Copy, PartialEq, Eq, Structural)]
pub enum Action {
    /// Go on with the next event.
    Continue,
    /// End the session.
    Quit,
    /// Read the source again and hand it to `reload`.
    Reload,
}

/// The state of an interactive session.
#[derive(Debug)]
pub struct AppState {
    pub memory_stats: Option<MemoryStats>,
    pub view_mode: ViewMode,
    pub chart_metric: ChartMetric,
    pub sort_by: SortBy,
    pub table_state: TableState,
    pub selected_mapping: Option<usize>,
    pub show_help: bool,
    pub file_path: String,
    pub pid: Option<u32>,
    pub status_message: String,
    /// Milliseconds since the status message was set.
    pub status_age_ms: u64,
}

/// What an `AppState` holds, with its texts as sequences of characters.
pub struct AppView {
    pub memory_stats: Option<MemoryStats>,
    pub view_mode: ViewMode,
    pub chart_metric: ChartMetric,
    pub sort_by: SortBy,
    pub selected: Option<usize>,
    pub selected_mapping: Option<usize>,
    pub show_help: bool,
    pub file_path: Seq<char>,
    pub pid: Option<u32>,
    pub status_message: Seq<char>,
    pub status_age_ms: u64,
}

impl View for AppState {
    type V = AppView;

    open spec fn view(&self) -> AppView {
        AppView {
            memory_stats: self.memory_stats,
            view_mode: self.view_mode,
            chart_metric: self.chart_metric,
            sort_by: self.sort_by,
            selected: self.table_state.selected,
            selected_mapping: self.selected_mapping,
            show_help: self.show_help,
            file_path: self.file_path@,
            pid: self.pid,
            status_message: self.status_message@,
            status_age_ms: self.status_age_ms,
        }
    }
}

/// The words that report a failed reload.
pub open spec fn reload_error_text(reason: Seq<char>) -> Seq<char> {
    "Error reloading: "@ + reason
}

impl AppView {
    /// The state at the start of a session on the given source.
    pub open spec fn initial(file_path: Seq<char>, pid: Option<u32>) -> AppView {
        AppView {
            memory_stats: None,
            view_mode: ViewMode::Histogram,
            chart_metric: ChartMetric::Size,
            sort_by: SortBy::Count,
            selected: None,
            selected_mapping: None,
            show_help: false,
            file_path,
            pid,
            status_message: Seq::empty(),
            status_age_ms: 0,
        }
    }

    /// The state with the next sort criterion.
    pub open spec fn cycle_sort(self) -> AppView {
        AppView { sort_by: self.sort_by.successor(), ..self }
    }

    /// The state with the next view. Where the next view shows a table and
    /// statistics are loaded, the first row of the table is selected.
    pub open spec fn cycle_view(self) -> AppView {
        if self.view_mode.successor().has_table() && self.memory_stats is Some {
            AppView { view_mode: self.view_mode.successor(), selected: Some(0), ..self }
        } else {
            AppView { view_mode: self.view_mode.successor(), ..self }
        }
    }

    /// The state with the next chart metric.
    pub open spec fn cycle_chart_metric(self) -> AppView {
        AppView { chart_metric: self.chart_metric.successor(), ..self }
    }

    /// The state with the given table row selected.
    pub open spec fn select(self, row: Option<usize>) -> AppView {
        AppView { selected: row, ..self }
    }

    /// The state in the given view.
    pub open spec fn show(self, view_mode: ViewMode) -> AppView {
        AppView { view_mode, ..self }
    }

    /// The state with the help shown if it was hidden, and hidden if it was shown.
    pub open spec fn toggle_help(self) -> AppView {
        AppView { show_help: !self.show_help, ..self }
    }

    /// The state with a fresh status message.
    pub open spec fn with_status(self, message: Seq<char>) -> AppView {
        AppView { status_message: message, status_age_ms: 0, ..self }
    }

    /// The number of rows of the table that the selection moves in: the
    /// histogram's in its view, the mappings' in any other, none without data.
    pub open spec fn active_len(self) -> nat {
        match self.memory_stats {
            Some(stats) => if self.view_mode == ViewMode::Histogram {
                stats.histogram@.len()
            } else {
                stats.mappings@.len()
            },
            None => 0,
        }
    }

    /// The state with the selection moved by one row, forward or backward,
    /// around the ends of the table. An empty table leaves the state as it is.
    pub open spec fn move_selection(self, forward: bool) -> AppView {
        if self.active_len() == 0 {
            self
        } else {
            let row = if forward {
                next_index(current_row(self.selected), self.active_len())
            } else {
                previous_index(current_row(self.selected), self.active_len())
            };
            AppView { selected: Some(row as usize), selected_mapping: Some(row as usize), ..self }
        }
    }

    /// The state that holds freshly read statistics, with the first row selected.
    pub open spec fn loaded(self, stats: MemoryStats) -> AppView {
        AppView {
            memory_stats: Some(stats),
            selected: Some(0),
            selected_mapping: Some(0),
            ..self
        }
    }

    /// The state after `elapsed_ms` more milliseconds: a status message
    /// disappears once it is older than its timeout.
    pub open spec fn tick(self, elapsed_ms: u64) -> AppView {
        if self.status_message.len() == 0 {
            self
        } else {
            let age = if self.status_age_ms + elapsed_ms > u64::MAX {
                u64::MAX
            } else {
                (self.status_age_ms + elapsed_ms) as u64
            };
            if age > STATUS_MESSAGE_TIMEOUT_SECS * 1000 {
                AppView { status_message: Seq::empty(), status_age_ms: 0, ..self }
            } else {
                AppView { status_age_ms: age, ..self }
            }
        }
    }

    /// What the session does after a key. While the help is shown only the
    /// keys that close it count.
    pub open spec fn action_of(self, key: Key) -> Action {
        if key == Key::Char('q') || key == Key::Esc {
            if self.show_help {
                Action::Continue
            } else {
                Action::Quit
            }
        } else if key == Key::Char('r') && !self.show_help {
            Action::Reload
        } else {
            Action::Continue
        }
    }

    /// The state after a key. While the help is shown only the keys that
    /// close it count.
    pub open spec fn after_key(self, key: Key) -> AppView {
        if self.show_help {
            if key == Key::Char('q') || key == Key::Esc || key == Key::Char('h') {
                self.toggle_help()
            } else {
                self
            }
        } else {
            match key {
                Key::Char('h') => self.toggle_help(),
                Key::Char('s') => self.cycle_sort().with_status(
                    "Sort by: "@ + self.sort_by.successor().label(),
                ),
                Key::Char('1') => self.show(ViewMode::Histogram).select(Some(0)),
                Key::Char('2') => self.show(ViewMode::Mappings).select(Some(0)),
                Key::Char('3') => self.show(ViewMode::Chart),
                Key::Char('4') => self.show(ViewMode::Details),
                Key::Char('m') => if self.view_mode == ViewMode::Chart {
                    self.cycle_chart_metric().with_status(
                        "Chart metric: "@ + self.chart_metric.successor().label(),
                    )
                } else {
                    self
                },
                Key::Tab => self.cycle_view(),
                Key::Down | Key::Char('j') => if self.view_mode.has_table() {
                    self.move_selection(true)
                } else {
                    self
                },
                Key::Up | Key::Char('k') => if self.view_mode.has_table() {
                    self.move_selection(false)
                } else {
                    self
                },
                _ => self,
            }
        }
    }
}

impl AppState {
    /// The state at the start of a session on the given source.
    pub fn new(file_path: String, pid: Option<u32>) -> (app: Self)
        ensures
            app@ == AppView::initial(file_path@, pid),
    {
        AppState {
            memory_stats: None,
            view_mode: ViewMode::Histogram,
            chart_metric: ChartMetric::Size,
            sort_by: SortBy::Count,
            table_state: TableState::new(),
            selected_mapping: None,
            show_help: false,
            file_path,
            pid,
            status_message: String::new(),
            status_age_ms: 0,
        }
    }

    /// Goes on to the next sort criterion.
    pub fn next_sort(&mut self)
        ensures
            final(self)@ == old(self)@.cycle_sort(),
    {
        self.sort_by = self.sort_by.next();
    }

    /// Goes on to the next view, and selects the first row where that view
    /// shows a table and statistics are loaded.
    pub fn next_view(&mut self)
        ensures
            final(self)@ == old(self)@.cycle_view(),
    {
        self.view_mode = self.view_mode.next();
        if self.view_mode.is_table() && self.memory_stats.is_some() {
            self.table_state.select(Some(0));
        }
    }

    /// Goes on to the next chart metric.
    pub fn next_chart_metric(&mut self)
        ensures
            final(self)@ == old(self)@.cycle_chart_metric(),
    {
        self.chart_metric = self.chart_metric.next();
    }

    /// The number of rows of the table that the selection moves in.
    pub fn table_len(&self) -> (len: usize)
        ensures
            len == self@.active_len(),
    {
        match &self.memory_stats {
            Some(stats) => match self.view_mode {
                ViewMode::Histogram => stats.histogram.len(),
                _ => stats.mappings.len(),
            },
            None => 0,
        }
    }

    /// Selects the next row, the first after the last.
    pub fn table_next(&mut self)
        ensures
            final(self)@ == old(self)@.move_selection(true),
    {
        let len = self.table_len();
        if len > 0 {
            let current: usize = match self.table_state.selected() {
                Some(i) => i,
                None => 0,
            };
            let next: usize = if current >= len - 1 {
                0
            } else {
                current + 1
            };
            self.table_state.select(Some(next));
            self.selected_mapping = Some(next);
        }
    }

    /// Selects the previous row, the last before the first.
    pub fn table_previous(&mut self)
        ensures
            final(self)@ == old(self)@.move_selection(false),
    {
        let len = self.table_len();
        if len > 0 {
            let current: usize = match self.table_state.selected() {
                Some(i) => i,
                None => 0,
            };
            let previous: usize = if current == 0 {
                len - 1
            } else {
                current - 1
            };
            self.table_state.select(Some(previous));
            self.selected_mapping = Some(previous);
        }
    }

    /// Moves the selection by one row, forward or backward.
    pub fn move_selection(&mut self, forward: bool)
        ensures
            final(self)@ == old(self)@.move_selection(forward),
    {
        if forward {
            self.table_next();
        } else {
            self.table_previous();
        }
    }

    /// Shows the help if it was hidden, and hides it if it was shown.
    pub fn toggle_help(&mut self)
        ensures
            final(self)@ == old(self)@.toggle_help(),
    {
        self.show_help = !self.show_help;
    }

    /// Shows a status message from now on.
    pub fn set_status(&mut self, message: String)
        ensures
            final(self)@ == old(self)@.with_status(message@),
    {
        self.status_message = message;
        self.status_age_ms = 0;
    }
}

/// Whether the source is to be read again: only while watching, once the
/// interval since the last reload has passed.
pub open spec fn is_reload_due(watch: bool, elapsed_ms: u64) -> bool {
    watch && elapsed_ms >= FILE_WATCH_INTERVAL_SECS * 1000
}

/// Tells whether the source is to be read again.
pub fn reload_due(watch: bool, elapsed_ms: u64) -> (due: bool)
    ensures
        due == is_reload_due(watch, elapsed_ms),
{
    watch && elapsed_ms >= FILE_WATCH_INTERVAL_SECS * 1000
}

/// The name that a reload notes for the process: that of its metadata file,
/// where the source names a process and the file could be read.
pub open spec fn noted_name(pid: Option<u32>, comm: Option<String>) -> Option<Seq<char>> {
    match (pid, comm) {
        (Some(_), Some(c)) => Some(trimmed(c@)),
        _ => None,
    }
}

/// Whether `stats` is what the text `content` of the source at `file_path`
/// holds, with the process name that `comm` gives.
pub open spec fn is_parse_of(
    stats: MemoryStats,
    file_path: Seq<char>,
    content: Seq<char>,
    comm: Option<String>,
) -> bool {
    &&& parse_records(content) == Ok::<Seq<MappingView>, ParseErrorView>(stats.views())
    &&& stats.aggregated()
    &&& all_valid(stats.views())
    &&& stats.pid == pid_of_path(file_path)
    &&& text_view(stats.process_name) == noted_name(stats.pid, comm)
}

impl AppState {
    /// Takes one key and says what the session does next. `q` and escape
    /// end the session, `r` asks for a reload, `h` shows the help, `s` goes
    /// on to the next sort criterion, `1` to `4` choose a view, tab goes on to
    /// the next view, `m` goes on to the next metric of the chart, and the
    /// arrows or `j` and `k` move the selection in a table. While the help is
    /// shown, `q`, escape and `h` close it and no other key does anything.
    pub fn handle_key(&mut self, key: Key) -> (action: Action)
        ensures
            final(self)@ == old(self)@.after_key(key),
            action == old(self)@.action_of(key),
    {
        if self.show_help {
            match key {
                Key::Char('q') | Key::Esc | Key::Char('h') => {
                    self.toggle_help();
                },
                _ => {},
            }
            return Action::Continue;
        }
        match key {
            Key::Char('q') | Key::Esc => {
                return Action::Quit;
            },
            Key::Char('r') => {
                return Action::Reload;
            },
            Key::Char('h') => {
                self.toggle_help();
            },
            Key::Char('s') => {
                self.next_sort();
                let mut message = String::from_str("Sort by: ");
                message.append(self.sort_by.name());
                self.set_status(message);
            },
            Key::Char('1') => {
                self.view_mode = ViewMode::Histogram;
                self.table_state.select(Some(0));
            },
            Key::Char('2') => {
                self.view_mode = ViewMode::Mappings;
                self.table_state.select(Some(0));
            },
            Key::Char('3') => {
                self.view_mode = ViewMode::Chart;
            },
            Key::Char('4') => {
                self.view_mode = ViewMode::Details;
            },
            Key::Char('m') => {
                if self.view_mode == ViewMode::Chart {
                    self.next_chart_metric();
                    let mut message = String::from_str("Chart metric: ");
                    message.append(self.chart_metric.name());
                    self.set_status(message);
                }
            },
            Key::Tab => {
                self.next_view();
            },
            Key::Down | Key::Char('j') => {
                if self.view_mode.is_table() {
                    self.move_selection(true);
                }
            },
            Key::Up | Key::Char('k') => {
                if self.view_mode.is_table() {
                    self.move_selection(false);
                }
            },
            _ => {},
        }
        Action::Continue
    }

    /// Lets `elapsed_ms` milliseconds pass.
    pub fn tick(&mut self, elapsed_ms: u64)
        ensures
            final(self)@ == old(self)@.tick(elapsed_ms),
    {
        if self.status_message.as_str().unicode_len() == 0 {
            return ;
        }
        let age: u64 = if elapsed_ms > u64::MAX - self.status_age_ms {
            u64::MAX
        } else {
            self.status_age_ms + elapsed_ms
        };
        if age > STATUS_MESSAGE_TIMEOUT_SECS * 1000 {
            self.status_message = String::new();
            self.status_age_ms = 0;
        } else {
            self.status_age_ms = age;
        }
    }

    /// Reads the text of the source and takes its statistics into the
    /// state, with the first row selected. `comm` is the text of the
    /// process's metadata file, where it could be read. A text that holds no
    /// memory map leaves the state as it was.
    pub fn load_data(&mut self, content: &str, comm: Option<String>) -> (r: Result<(), ParseError>)
        ensures
            match r {
                Ok(()) => {
                    &&& final(self).memory_stats matches Some(stats) && is_parse_of(
                        stats,
                        old(self).file_path@,
                        content@,
                        comm,
                    )
                    &&& final(self)@ == old(self)@.loaded(final(self).memory_stats->0)
                },
                Err(e) => {
                    &&& parse_records(content@) == Err::<Seq<MappingView>, ParseErrorView>(e@)
                    &&& *final(self) == *old(self)
                },
            },
    {
        match parse_file(self.file_path.as_str(), content) {
            Ok(mut stats) => {
                if stats.pid.is_some() {
                    match &comm {
                        Some(c) => {
                            stats.set_process_name(c.as_str());
                        },
                        None => {},
                    }
                }
                self.memory_stats = Some(stats);
                self.table_state.select(Some(0));
                self.selected_mapping = Some(0);
                Ok(())
            },
            Err(e) => Err(e),
        }
    }

    /// Takes the outcome of reading the source again: its text, or the
    /// words that say why it could not be read. A text that holds a memory
    /// map replaces the statistics; anything else leaves them as they were
    /// and says so in the status message.
    pub fn reload(&mut self, read: Result<String, String>, comm: Option<String>)
        ensures
            reload_fails(read) ==> final(self).memory_stats == old(self).memory_stats
                && final(self).status_message@.len() > 0,
            match read {
                Err(reason) => final(self)@ == old(self)@.with_status(reload_error_text(reason@)),
                Ok(content) => match parse_records(content@) {
                    Err(e) => final(self)@ == old(self)@.with_status(
                        reload_error_text(error_text(e)),
                    ),
                    Ok(_) => {
                        &&& final(self).memory_stats matches Some(stats) && is_parse_of(
                            stats,
                            old(self).file_path@,
                            content@,
                            comm,
                        )
                        &&& final(self)@ == old(self)@.loaded(
                            final(self).memory_stats->0,
                        ).with_status("Reloaded"@)
                    },
                },
            },
    {
        let reason = match read {
            Ok(content) => match self.load_data(content.as_str(), comm) {
                Ok(()) => {
                    self.set_status(String::from_str("Reloaded"));
                    return ;
                },
                Err(e) => e.message(),
            },
            Err(reason) => reason,
        };
        let mut message = String::from_str("Error reloading: ");
        message.append(reason.as_str());
        proof {
            lemma_reload_error_not_empty(reason@);
        }
        self.set_status(message);
    }
}

/// Whether reading the source again fails: it could not be read, or its
/// text holds no memory map.
pub open spec fn reload_fails(read: Result<String, String>) -> bool {
    match read {
        Err(_) => true,
        Ok(content) => parse_records(content@) is Err,
    }
}

/// The report of a failed reload is never empty.
pub proof fn lemma_reload_error_not_empty(reason: Seq<char>)
    ensures
        reload_error_text(reason).len() > 0,
{
    reveal_strlit("Error reloading: ");
}

impl AppView {
    /// The state after the selection has moved `times` rows in one direction.
    pub open spec fn moved(self, forward: bool, times: nat) -> AppView
        decreases times,
    {
        if times == 0 {
            self
        } else {
            self.moved(forward, (times - 1) as nat).move_selection(forward)
        }
    }
}

/// Moving forward from the first row of a table reaches row `k` after `k`
/// steps, as long as `k` is below the number of rows.
pub proof fn lemma_forward_steps(v: AppView, k: nat)
    requires
        current_row(v.selected) == 0,
        k < v.active_len() <= usize::MAX,
    ensures
        v.moved(true, k).active_len() == v.active_len(),
        current_row(v.moved(true, k).selected) == k,
    decreases k,
{
    if k > 0 {
        lemma_forward_steps(v, (k - 1) as nat);
    }
}

/// Moving backward from the first row of a table reaches row `n - k` after
/// `k` steps, for `k` from one to the number `n` of rows.
pub proof fn lemma_backward_steps(v: AppView, k: nat)
    requires
        current_row(v.selected) == 0,
        1 <= k <= v.active_len() <= usize::MAX,
    ensures
        v.moved(false, k).active_len() == v.active_len(),
        current_row(v.moved(false, k).selected) == v.active_len() - k,
    decreases k,
{
    if k > 1 {
        lemma_backward_steps(v, (k - 1) as nat);
    } else {
        assert(v.moved(false, 0) == v);
    }
}

/// In a table that is not empty, as many moves in one direction as the
/// table has rows lead from the first row back to the first row.
pub proof fn lemma_selection_wraps(v: AppView, forward: bool)
    requires
        current_row(v.selected) == 0,
        0 < v.active_len() <= usize::MAX,
    ensures
        v.moved(forward, v.active_len()).selected == Some(0usize),
{
    let n = v.active_len();
    if forward {
        lemma_forward_steps(v, (n - 1) as nat);
    } else {
        lemma_backward_steps(v, n);
    }
}

} // verus!
