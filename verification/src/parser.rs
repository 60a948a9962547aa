//! Memory mappings, their statistics, and the readers of the two text
//! formats that describe them.

use crate::aggregate::{fits, total, Measure};
use crate::number::{parse_u32, parse_unsigned};
use crate::records::{
    apply_attribute, header_outcome, is_header, is_rss, parse_header, rss_tag, with_attribute,
    Header, LineOutcome, ParseError, ParseErrorView,
};
use crate::text::{
    chars_of, contains_char, fields, find_char, find_char_from, has_prefix, lines,
    spans_are_lines, split_fields, split_lines, starts_with, string_of, trim, trimmed,
};
use crate::utils::MAX_LINES_AFTER_MAPPING;
use vstd::prelude::*;
use vstd::slice::slice_subrange;

verus! {

/// One contiguous region of a process's virtual memory.
#[derive(Debug)]
pub struct MemoryMapping {
    pub start_addr: u64,
    pub end_addr: u64,
    pub size: u64,
    pub permissions: String,
    pub rss: Option<u64>,
    pub pss: Option<u64>,
    pub path: Option<String>,
}

/// What a `MemoryMapping` holds, with its texts as sequences of characters.
pub struct MappingView {
    pub start_addr: u64,
    pub end_addr: u64,
    pub size: u64,
    pub permissions: Seq<char>,
    pub rss: Option<u64>,
    pub pss: Option<u64>,
    pub path: Option<Seq<char>>,
}

impl MappingView {
    /// The end lies above the start, and the size is their distance.
    pub open spec fn valid(self) -> bool {
        &&& self.end_addr > self.start_addr
        &&& self.size == self.end_addr - self.start_addr
    }

    /// The key under which the histogram counts this mapping.
    pub open spec fn key(self) -> (u64, Seq<char>) {
        (self.size, self.permissions)
    }
}

/// The view of an optional text.
pub open spec fn text_view(t: Option<String>) -> Option<Seq<char>> {
    match t {
        Some(s) => Some(s@),
        None => None,
    }
}

impl View for MemoryMapping {
    type V = MappingView;

    open spec fn view(&self) -> MappingView {
        MappingView {
            start_addr: self.start_addr,
            end_addr: self.end_addr,
            size: self.size,
            permissions: self.permissions@,
            rss: self.rss,
            pss: self.pss,
            path: text_view(self.path),
        }
    }
}

impl Clone for MemoryMapping {
    fn clone(&self) -> (res: Self)
        ensures
            res@ == self@,
    {
        let path = match &self.path {
            Some(p) => Some(p.clone()),
            None => None,
        };
        MemoryMapping {
            start_addr: self.start_addr,
            end_addr: self.end_addr,
            size: self.size,
            permissions: self.permissions.clone(),
            rss: self.rss,
            pss: self.pss,
            path,
        }
    }
}

/// The views of a sequence of mappings, in order.
pub open spec fn mapping_views(ms: Seq<MemoryMapping>) -> Seq<MappingView> {
    ms.map_values(|m: MemoryMapping| m@)
}

/// What the histogram holds for one key.
#[derive(Debug, Clone, Copy, PartialEq, Eq, Structural)]
pub struct HistogramEntry {
    pub count: u32,
    pub total_size: u64,
    pub total_rss: u64,
    pub total_pss: u64,
}

/// One key of the histogram with its entry.
#[derive(Debug)]
pub struct HistogramRow {
    pub size: u64,
    pub permissions: String,
    pub entry: HistogramEntry,
}

impl HistogramRow {
    /// The key of this row.
    pub open spec fn key(&self) -> (u64, Seq<char>) {
        (self.size, self.permissions@)
    }
}

impl Clone for HistogramRow {
    fn clone(&self) -> (res: Self)
        ensures
            res.key() == self.key(),
            res.entry == self.entry,
    {
        HistogramRow {
            size: self.size,
            permissions: self.permissions.clone(),
            entry: self.entry,
        }
    }
}

/// The result of one parse: the mappings in the order of the source, and
/// what is derived from them.
#[derive(Debug)]
pub struct MemoryStats {
    pub mappings: Vec<MemoryMapping>,
    pub histogram: Vec<HistogramRow>,
    pub total_virtual: u64,
    pub total_rss: u64,
    pub total_pss: u64,
    pub process_name: Option<String>,
    pub pid: Option<u32>,
}

impl Clone for MemoryStats {
    fn clone(&self) -> (res: Self)
        ensures
            res.mappings@.len() == self.mappings@.len(),
            mapping_views(res.mappings@) == mapping_views(self.mappings@),
            res.histogram@.len() == self.histogram@.len(),
            forall|i: int|
                0 <= i < res.histogram@.len() ==> {
                    &&& (#[trigger] res.histogram@[i]).key() == self.histogram@[i].key()
                    &&& res.histogram@[i].entry == self.histogram@[i].entry
                },
            res.total_virtual == self.total_virtual,
            res.total_rss == self.total_rss,
            res.total_pss == self.total_pss,
            text_view(res.process_name) == text_view(self.process_name),
            res.pid == self.pid,
    {
        let mut mappings: Vec<MemoryMapping> = Vec::new();
        let mut i: usize = 0;
        while i < self.mappings.len()
            invariant
                i <= self.mappings@.len(),
                mappings@.len() == i,
                forall|k: int| 0 <= k < i ==> (#[trigger] mappings@[k])@ == self.mappings@[k]@,
            decreases self.mappings@.len() - i,
        {
            mappings.push(self.mappings[i].clone());
            i = i + 1;
        }
        let mut histogram: Vec<HistogramRow> = Vec::new();
        let mut j: usize = 0;
        while j < self.histogram.len()
            invariant
                j <= self.histogram@.len(),
                histogram@.len() == j,
                forall|k: int|
                    0 <= k < j ==> {
                        &&& (#[trigger] histogram@[k]).key() == self.histogram@[k].key()
                        &&& histogram@[k].entry == self.histogram@[k].entry
                    },
            decreases self.histogram@.len() - j,
        {
            histogram.push(self.histogram[j].clone());
            j = j + 1;
        }
        let process_name = match &self.process_name {
            Some(name) => Some(name.clone()),
            None => None,
        };
        assert(mapping_views(mappings@) =~= mapping_views(self.mappings@));
        MemoryStats {
            mappings,
            histogram,
            total_virtual: self.total_virtual,
            total_rss: self.total_rss,
            total_pss: self.total_pss,
            process_name,
            pid: self.pid,
        }
    }
}

/// The two text formats.
#[derive(Debug, Clone, Copy, PartialEq, Eq, Structural)]
pub enum FileType {
    Maps,
    Smaps,
}

/// Whether every mapping is valid.
pub open spec fn all_valid(ms: Seq<MappingView>) -> bool {
    forall|i: int| 0 <= i < ms.len() ==> (#[trigger] ms[i]).valid()
}

/// Whether no mapping has a resident or a proportional set size.
pub open spec fn all_bare(ms: Seq<MappingView>) -> bool {
    forall|i: int| 0 <= i < ms.len() ==> (#[trigger] ms[i]).rss is None && ms[i].pss is None
}

/// The mappings as far as their sums fit, else the error that says they do not.
pub open spec fn checked(records: Result<Seq<MappingView>, ParseErrorView>) -> Result<
    Seq<MappingView>,
    ParseErrorView,
> {
    match records {
        Ok(ms) => if fits(ms) {
            Ok(ms)
        } else {
            Err(ParseErrorView::Overflow)
        },
        Err(e) => Err(e),
    }
}

impl MemoryStats {
    /// The statistics of the given mappings, where their sums fit.
    pub fn from_mappings(mappings: Vec<MemoryMapping>) -> (r: Result<MemoryStats, ParseError>)
        ensures
            match r {
                Ok(stats) => {
                    &&& fits(mapping_views(mappings@))
                    &&& stats.mappings == mappings
                    &&& stats.aggregated()
                    &&& stats.pid is None
                    &&& stats.process_name is None
                },
                Err(e) => !fits(mapping_views(mappings@)) && e@ == ParseErrorView::Overflow,
            },
    {
        let mut stats = MemoryStats {
            mappings,
            histogram: Vec::new(),
            total_virtual: 0,
            total_rss: 0,
            total_pss: 0,
            process_name: None,
            pid: None,
        };
        if !stats.can_aggregate() {
            return Err(ParseError::Overflow);
        }
        stats.build_histogram();
        Ok(stats)
    }
}

/// What one line of the plain format says: a line of fewer than two fields
/// is skipped, any other is read as a header.
pub open spec fn maps_line(line: Seq<char>) -> LineOutcome {
    if fields(line).len() < 2 {
        LineOutcome::Skip
    } else {
        header_outcome(fields(line))
    }
}

/// The mappings of the lines of the plain format, in order, or the error of
/// the first line that fails.
pub open spec fn maps_fold(ls: Seq<Seq<char>>) -> Result<Seq<MappingView>, ParseErrorView>
    decreases ls.len(),
{
    if ls.len() == 0 {
        Ok(Seq::empty())
    } else {
        match maps_fold(ls.drop_last()) {
            Err(e) => Err(e),
            Ok(ms) => match maps_line(ls.last()) {
                LineOutcome::Skip => Ok(ms),
                LineOutcome::Record(m) => Ok(ms.push(m)),
                LineOutcome::Bad(e) => Err(e),
            },
        }
    }
}

/// What a text in the plain format holds.
pub open spec fn maps_records(text: Seq<char>) -> Result<Seq<MappingView>, ParseErrorView> {
    checked(maps_fold(lines(text)))
}

/// Once a prefix of the lines has failed, the whole fails in the same way.
pub proof fn lemma_maps_error_stays(ls: Seq<Seq<char>>, k: int)
    requires
        0 <= k <= ls.len(),
        maps_fold(ls.take(k)) is Err,
    ensures
        maps_fold(ls) == maps_fold(ls.take(k)),
    decreases ls.len(),
{
    if k == ls.len() {
        assert(ls.take(k) =~= ls);
    } else {
        assert(ls.drop_last().take(k) =~= ls.take(k));
        lemma_maps_error_stays(ls.drop_last(), k);
    }
}

/// The plain format gives mappings that are valid and bare.
pub proof fn lemma_maps_fold_bare(ls: Seq<Seq<char>>)
    ensures
        maps_fold(ls) matches Ok(ms) ==> all_valid(ms) && all_bare(ms),
    decreases ls.len(),
{
    if ls.len() > 0 {
        lemma_maps_fold_bare(ls.drop_last());
    }
}

/// Bare mappings sum to no resident and no proportional set size.
pub proof fn lemma_bare_totals(ms: Seq<MappingView>)
    requires
        all_bare(ms),
    ensures
        total(ms, Measure::Rss) == 0,
        total(ms, Measure::Pss) == 0,
    decreases ms.len(),
{
    if ms.len() > 0 {
        assert(ms.last() == ms[ms.len() - 1]);
        assert forall|i: int| 0 <= i < ms.drop_last().len() implies (#[trigger] ms.drop_last()[i]).rss
            is None && ms.drop_last()[i].pss is None by {
            assert(ms.drop_last()[i] == ms[i]);
        }
        lemma_bare_totals(ms.drop_last());
    }
}

/// Reads a text in the plain format: one mapping for each line that holds a
/// well-formed range, in the order of the lines.
pub fn parse_maps_file(content: &str) -> (r: Result<MemoryStats, ParseError>)
    ensures
        match r {
            Ok(stats) => {
                &&& maps_records(content@) == Ok::<Seq<MappingView>, ParseErrorView>(stats.views())
                &&& stats.aggregated()
                &&& all_valid(stats.views())
                &&& all_bare(stats.views())
                &&& stats.total_rss == 0
                &&& stats.total_pss == 0
                &&& stats.pid is None
                &&& stats.process_name is None
            },
            Err(e) => maps_records(content@) == Err::<Seq<MappingView>, ParseErrorView>(e@),
        },
{
    let text = chars_of(content);
    let line_spans = split_lines(text.as_slice());
    let ghost ls = lines(text@);
    let mut mappings: Vec<MemoryMapping> = Vec::new();
    let n = line_spans.len();
    let mut k: usize = 0;
    assert(ls.take(0) =~= Seq::empty());
    assert(mapping_views(mappings@) =~= Seq::empty());
    while k < n
        invariant
            n == line_spans@.len(),
            k <= n,
            text@ == content@,
            ls == lines(text@),
            spans_are_lines(text@, line_spans@),
            maps_fold(ls.take(k as int)) == Ok::<Seq<MappingView>, ParseErrorView>(
                mapping_views(mappings@),
            ),
        decreases n - k,
    {
        let line = slice_subrange(text.as_slice(), line_spans[k].start, line_spans[k].end);
        assert(line@ == ls[k as int]);
        assert(ls.take(k + 1).drop_last() =~= ls.take(k as int));
        assert(ls.take(k + 1).last() == ls[k as int]);
        let spans = split_fields(line);
        if spans.len() >= 2 {
            match parse_header(line, &spans) {
                Header::Skip => {},
                Header::Record(m) => {
                    let ghost before = mappings@;
                    mappings.push(m);
                    assert(mapping_views(mappings@) =~= mapping_views(before).push(m@));
                },
                Header::Bad(e) => {
                    proof {
                        lemma_maps_error_stays(ls, k + 1);
                    }
                    return Err(e);
                },
            }
        }
        k = k + 1;
    }
    assert(ls.take(n as int) =~= ls);
    proof {
        lemma_maps_fold_bare(ls);
        lemma_bare_totals(mapping_views(mappings@));
    }
    MemoryStats::from_mappings(mappings)
}

/// Where the reader of the rich format stands: the mappings that are
/// complete, and the one whose attributes are still being read.
pub struct SmapsState {
    pub done: Seq<MappingView>,
    pub open: Option<MappingView>,
}

/// The view of an optional mapping.
pub open spec fn open_view(m: Option<MemoryMapping>) -> Option<MappingView> {
    match m {
        Some(m) => Some(m@),
        None => None,
    }
}

/// The complete mappings, with the open one appended.
pub open spec fn flushed(st: SmapsState) -> Seq<MappingView> {
    match st.open {
        Some(m) => st.done.push(m),
        None => st.done,
    }
}

/// The state after one more line. A header closes the open mapping and
/// opens the one it describes, if any; any other line is an attribute of the
/// open mapping, and is ignored where none is open.
pub open spec fn smaps_step(st: SmapsState, line: Seq<char>) -> Result<SmapsState, ParseErrorView> {
    if is_header(fields(line)) {
        match header_outcome(fields(line)) {
            LineOutcome::Skip => Ok(SmapsState { done: flushed(st), open: None }),
            LineOutcome::Record(m) => Ok(SmapsState { done: flushed(st), open: Some(m) }),
            LineOutcome::Bad(e) => Err(e),
        }
    } else {
        match st.open {
            Some(m) => Ok(
                SmapsState { done: st.done, open: Some(with_attribute(m, fields(line))) },
            ),
            None => Ok(st),
        }
    }
}

/// The state after all lines, or the error of the first line that fails.
pub open spec fn smaps_fold(ls: Seq<Seq<char>>) -> Result<SmapsState, ParseErrorView>
    decreases ls.len(),
{
    if ls.len() == 0 {
        Ok(SmapsState { done: Seq::empty(), open: None })
    } else {
        match smaps_fold(ls.drop_last()) {
            Err(e) => Err(e),
            Ok(st) => smaps_step(st, ls.last()),
        }
    }
}

/// What a text in the rich format holds: the last open mapping is closed
/// where the text ends.
pub open spec fn smaps_records(text: Seq<char>) -> Result<Seq<MappingView>, ParseErrorView> {
    checked(
        match smaps_fold(lines(text)) {
            Ok(st) => Ok(flushed(st)),
            Err(e) => Err(e),
        },
    )
}

/// Once a prefix of the lines has failed, the whole fails in the same way.
pub proof fn lemma_smaps_error_stays(ls: Seq<Seq<char>>, k: int)
    requires
        0 <= k <= ls.len(),
        smaps_fold(ls.take(k)) is Err,
    ensures
        smaps_fold(ls) == smaps_fold(ls.take(k)),
    decreases ls.len(),
{
    if k == ls.len() {
        assert(ls.take(k) =~= ls);
    } else {
        assert(ls.drop_last().take(k) =~= ls.take(k));
        lemma_smaps_error_stays(ls.drop_last(), k);
    }
}

/// Reads a text in the rich format: one mapping for each header line that
/// holds a well-formed range, with the sizes that its attribute lines give.
pub fn parse_smaps_file(content: &str) -> (r: Result<MemoryStats, ParseError>)
    ensures
        match r {
            Ok(stats) => {
                &&& smaps_records(content@) == Ok::<Seq<MappingView>, ParseErrorView>(stats.views())
                &&& stats.aggregated()
                &&& all_valid(stats.views())
                &&& stats.pid is None
                &&& stats.process_name is None
            },
            Err(e) => smaps_records(content@) == Err::<Seq<MappingView>, ParseErrorView>(e@),
        },
{
    let text = chars_of(content);
    let line_spans = split_lines(text.as_slice());
    let ghost ls = lines(text@);
    let mut mappings: Vec<MemoryMapping> = Vec::new();
    let mut current: Option<MemoryMapping> = None;
    let n = line_spans.len();
    let mut k: usize = 0;
    assert(ls.take(0) =~= Seq::empty());
    assert(mapping_views(mappings@) =~= Seq::empty());
    while k < n
        invariant
            n == line_spans@.len(),
            k <= n,
            text@ == content@,
            ls == lines(text@),
            spans_are_lines(text@, line_spans@),
            smaps_fold(ls.take(k as int)) == Ok::<SmapsState, ParseErrorView>(
                SmapsState { done: mapping_views(mappings@), open: open_view(current) },
            ),
            all_valid(mapping_views(mappings@)),
            current matches Some(m) ==> m@.valid(),
        decreases n - k,
    {
        let line = slice_subrange(text.as_slice(), line_spans[k].start, line_spans[k].end);
        assert(line@ == ls[k as int]);
        assert(ls.take(k + 1).drop_last() =~= ls.take(k as int));
        assert(ls.take(k + 1).last() == ls[k as int]);
        let spans = split_fields(line);
        let header = spans.len() >= 2 && {
            let first = slice_subrange(line, spans[0].start, spans[0].end);
            assert(first@ == fields(line@)[0]);
            find_char_from(first, '-', 0) < first.len()
        };
        if header {
            match current {
                Some(m) => {
                    let ghost before = mappings@;
                    mappings.push(m);
                    assert(mapping_views(mappings@) =~= mapping_views(before).push(m@));
                },
                None => {},
            }
            match parse_header(line, &spans) {
                Header::Skip => {
                    current = None;
                },
                Header::Record(m) => {
                    current = Some(m);
                },
                Header::Bad(e) => {
                    proof {
                        lemma_smaps_error_stays(ls, k + 1);
                    }
                    return Err(e);
                },
            }
        } else {
            match current {
                Some(mut m) => {
                    apply_attribute(&mut m, line, &spans);
                    current = Some(m);
                },
                None => {
                    current = None;
                },
            }
        }
        k = k + 1;
    }
    assert(ls.take(n as int) =~= ls);
    match current {
        Some(m) => {
            let ghost before = mappings@;
            mappings.push(m);
            assert(mapping_views(mappings@) =~= mapping_views(before).push(m@));
        },
        None => {},
    }
    MemoryStats::from_mappings(mappings)
}

/// A line that looks like a mapping to the detector: it holds a dash and
/// has at least two fields.
pub open spec fn is_mapping_like(line: Seq<char>) -> bool {
    contains_char(line, '-') && fields(line).len() >= 2
}

/// The format that the lines from position `i` on show. `found` says that a
/// line like a mapping came before, `after` how many other lines followed
/// the last of them. The first line that begins with the tag of the resident
/// set size decides for the rich format; the scan gives up once more than
/// `limit` lines have followed a mapping.
pub open spec fn detect_from(ls: Seq<Seq<char>>, i: int, found: bool, after: nat, limit: nat) -> FileType
    decreases ls.len() - i,
{
    if i < 0 || i >= ls.len() {
        FileType::Maps
    } else if starts_with(ls[i], rss_tag()) {
        FileType::Smaps
    } else if is_mapping_like(ls[i]) {
        detect_from(ls, i + 1, true, 0, limit)
    } else if found {
        if after + 1 > limit {
            FileType::Maps
        } else {
            detect_from(ls, i + 1, true, after + 1, limit)
        }
    } else {
        detect_from(ls, i + 1, false, after, limit)
    }
}

/// The format of a text, for a given limit of the scan.
pub open spec fn detected_type(text: Seq<char>, limit: nat) -> FileType {
    detect_from(lines(text), 0, false, 0, limit)
}

/// Tells the format of a text, giving up once more than `limit` lines have
/// followed a line that looks like a mapping.
pub fn detect_file_type_within(content: &str, limit: usize) -> (t: FileType)
    ensures
        t == detected_type(content@, limit as nat),
{
    let text = chars_of(content);
    let line_spans = split_lines(text.as_slice());
    let ghost ls = lines(text@);
    let n = line_spans.len();
    let mut found = false;
    let mut after: usize = 0;
    let mut k: usize = 0;
    while k < n
        invariant
            n == line_spans@.len(),
            k <= n,
            text@ == content@,
            ls == lines(text@),
            spans_are_lines(text@, line_spans@),
            after <= limit,
            detected_type(content@, limit as nat) == detect_from(
                ls,
                k as int,
                found,
                after as nat,
                limit as nat,
            ),
        decreases n - k,
    {
        let line = slice_subrange(text.as_slice(), line_spans[k].start, line_spans[k].end);
        assert(line@ == ls[k as int]);
        if is_rss(line) {
            return FileType::Smaps;
        }
        if find_char_from(line, '-', 0) < line.len() && split_fields(line).len() >= 2 {
            found = true;
            after = 0;
        } else if found {
            if after >= limit {
                return FileType::Maps;
            }
            after = after + 1;
        }
        k = k + 1;
    }
    FileType::Maps
}

/// Tells the format of a text.
pub fn detect_file_type(content: &str) -> (t: FileType)
    ensures
        t == detected_type(content@, MAX_LINES_AFTER_MAPPING as nat),
{
    detect_file_type_within(content, MAX_LINES_AFTER_MAPPING)
}

/// What a text holds, read in the format that it shows.
pub open spec fn parse_records(text: Seq<char>) -> Result<Seq<MappingView>, ParseErrorView> {
    match detected_type(text, MAX_LINES_AFTER_MAPPING as nat) {
        FileType::Maps => maps_records(text),
        FileType::Smaps => smaps_records(text),
    }
}

/// The directory of the process information of the host.
pub open spec fn proc_prefix() -> Seq<char> {
    seq!['/', 'p', 'r', 'o', 'c', '/']
}

/// The process id that a path names: the decimal number between the
/// directory of the process information and the next slash.
pub open spec fn pid_of_path(path: Seq<char>) -> Option<u32> {
    if starts_with(path, proc_prefix()) {
        let rest = path.skip(6);
        match parse_unsigned(rest.take(find_char(rest, '/', 0)), 10, u32::MAX as nat) {
            Some(v) => Some(v as u32),
            None => None,
        }
    } else {
        None
    }
}

/// Finds the process id in the path of a live process.
pub fn pid_from_path(file_path: &str) -> (pid: Option<u32>)
    ensures
        pid == pid_of_path(file_path@),
{
    let path = chars_of(file_path);
    let prefix: Vec<char> = vec!['/', 'p', 'r', 'o', 'c', '/'];
    assert(prefix@ =~= proc_prefix());
    if !has_prefix(path.as_slice(), prefix.as_slice()) {
        return None;
    }
    let rest = slice_subrange(path.as_slice(), 6, path.len());
    assert(rest@ =~= path@.skip(6));
    let end = find_char_from(rest, '/', 0);
    let segment = slice_subrange(rest, 0, end);
    assert(segment@ =~= rest@.take(end as int));
    parse_u32(segment)
}

/// Reads a text in whichever of the two formats it shows, and notes the
/// process id where the path is that of a live process.
pub fn parse_file(file_path: &str, content: &str) -> (r: Result<MemoryStats, ParseError>)
    ensures
        match r {
            Ok(stats) => {
                &&& parse_records(content@) == Ok::<Seq<MappingView>, ParseErrorView>(stats.views())
                &&& stats.aggregated()
                &&& all_valid(stats.views())
                &&& stats.pid == pid_of_path(file_path@)
                &&& stats.process_name is None
            },
            Err(e) => parse_records(content@) == Err::<Seq<MappingView>, ParseErrorView>(e@),
        },
{
    let parsed = match detect_file_type(content) {
        FileType::Maps => parse_maps_file(content),
        FileType::Smaps => parse_smaps_file(content),
    };
    match parsed {
        Ok(mut stats) => {
            stats.pid = pid_from_path(file_path);
            Ok(stats)
        },
        Err(e) => Err(e),
    }
}

impl MemoryStats {
    /// Notes the short name of the process, as its metadata file gives it:
    /// the text without the whitespace around it.
    pub fn set_process_name(&mut self, comm: &str)
        ensures
            final(self).process_name matches Some(name) && name@ == trimmed(comm@),
            final(self).mappings == old(self).mappings,
            final(self).histogram == old(self).histogram,
            final(self).total_virtual == old(self).total_virtual,
            final(self).total_rss == old(self).total_rss,
            final(self).total_pss == old(self).total_pss,
            final(self).pid == old(self).pid,
    {
        let text = chars_of(comm);
        self.process_name = Some(string_of(trim(text.as_slice())));
    }
}

/// What the parser of a format reads from a text.
pub open spec fn records_as(kind: FileType, text: Seq<char>) -> Result<Seq<MappingView>, ParseErrorView> {
    match kind {
        FileType::Maps => maps_records(text),
        FileType::Smaps => smaps_records(text),
    }
}

/// Whether `stats` is what the parser of the format `kind` gives for a text.
pub open spec fn is_dedicated_result(kind: FileType, text: Seq<char>, stats: MemoryStats) -> bool {
    &&& records_as(kind, text) == Ok::<Seq<MappingView>, ParseErrorView>(stats.views())
    &&& stats.aggregated()
    &&& stats.pid is None
    &&& stats.process_name is None
}

/// Whether `stats` is what the unified parser gives for a text from a path.
pub open spec fn is_unified_result(file_path: Seq<char>, text: Seq<char>, stats: MemoryStats) -> bool {
    &&& parse_records(text) == Ok::<Seq<MappingView>, ParseErrorView>(stats.views())
    &&& stats.aggregated()
    &&& stats.pid == pid_of_path(file_path)
    &&& stats.process_name is None
}

/// The unified parser reads a text as the parser of the format does that
/// the text shows: it finds the same mappings, or fails with the same error.
pub proof fn lemma_unified_is_dedicated(text: Seq<char>)
    ensures
        parse_records(text) == records_as(
            detected_type(text, MAX_LINES_AFTER_MAPPING as nat),
            text,
        ),
{
}

/// Telling the format of a text and reading it with the parser of that
/// format gives the statistics that the unified parser gives: the same
/// mappings, totals, histogram, process id and process name. This holds for
/// every path that names no process; for the path of a live process the
/// unified parser notes the process id, which the other parsers never do.
pub proof fn lemma_detect_then_parse(
    file_path: Seq<char>,
    text: Seq<char>,
    dedicated: MemoryStats,
    unified: MemoryStats,
)
    requires
        pid_of_path(file_path) is None,
        is_dedicated_result(detected_type(text, MAX_LINES_AFTER_MAPPING as nat), text, dedicated),
        is_unified_result(file_path, text, unified),
    ensures
        dedicated.views() == unified.views(),
        dedicated.total_virtual == unified.total_virtual,
        dedicated.total_rss == unified.total_rss,
        dedicated.total_pss == unified.total_pss,
        dedicated.histogram@.len() == unified.histogram@.len(),
        forall|i: int|
            0 <= i < dedicated.histogram@.len() ==> {
                &&& dedicated.histogram@[i].key() == unified.histogram@[i].key()
                &&& dedicated.histogram@[i].entry == unified.histogram@[i].entry
            },
        dedicated.pid == unified.pid,
        text_view(dedicated.process_name) == text_view(unified.process_name),
{
    lemma_unified_is_dedicated(text);
    crate::aggregate::lemma_same_mappings_same_statistics(dedicated, unified);
}

} // verus!
