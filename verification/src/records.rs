//! What one line of a memory map says: the shared rule for header lines and
//! the attributes that follow them.

use crate::number::{parse_u64, parse_unsigned};
use crate::parser::{MappingView, MemoryMapping};
use crate::text::{
    contains_char, fields, find_char, find_char_from, has_prefix, join_fields, join_from,
    spans_are_fields, starts_with, string_of, Span,
};
use vstd::prelude::*;
use vstd::slice::slice_subrange;
use vstd::string::*;

verus! {

/// Why a text is no memory map.
#[derive(Debug)]
pub enum ParseError {
    /// The text before the dash of a range is no hexadecimal address.
    StartAddress(String),
    /// The text after the dash of a range is no hexadecimal address.
    EndAddress(String),
    /// The mappings are too many, or too large, for their sums.
    Overflow,
}

/// What a `ParseError` holds, with its texts as sequences of characters.
pub enum ParseErrorView {
    StartAddress(Seq<char>),
    EndAddress(Seq<char>),
    Overflow,
}

impl View for ParseError {
    type V = ParseErrorView;

    open spec fn view(&self) -> ParseErrorView {
        match self {
            ParseError::StartAddress(t) => ParseErrorView::StartAddress(t@),
            ParseError::EndAddress(t) => ParseErrorView::EndAddress(t@),
            ParseError::Overflow => ParseErrorView::Overflow,
        }
    }
}

/// The words in which an error is reported.
pub open spec fn error_text(e: ParseErrorView) -> Seq<char> {
    match e {
        ParseErrorView::StartAddress(t) => "Failed to parse start address: "@ + t,
        ParseErrorView::EndAddress(t) => "Failed to parse end address: "@ + t,
        ParseErrorView::Overflow => "Mappings are too large to be summed"@,
    }
}

impl ParseError {
    /// The words in which this error is reported.
    pub fn message(&self) -> (text: String)
        ensures
            text@ == error_text(self@),
    {
        match self {
            ParseError::StartAddress(t) => {
                let mut text = String::from_str("Failed to parse start address: ");
                text.append(t.as_str());
                text
            },
            ParseError::EndAddress(t) => {
                let mut text = String::from_str("Failed to parse end address: ");
                text.append(t.as_str());
                text
            },
            ParseError::Overflow => String::from_str("Mappings are too large to be summed"),
        }
    }
}

/// What a line adds to the list of mappings.
pub enum LineOutcome {
    /// Nothing: the line is skipped.
    Skip,
    /// One mapping.
    Record(MappingView),
    /// The whole parse fails.
    Bad(ParseErrorView),
}

/// The two sides of an address range: `field` holds exactly one dash.
pub open spec fn range_of(field: Seq<char>) -> Option<(Seq<char>, Seq<char>)> {
    let p = find_char(field, '-', 0);
    if p < field.len() && find_char(field, '-', p + 1) >= field.len() {
        Some((field.take(p), field.skip(p + 1)))
    } else {
        None
    }
}

/// The path of a line: its fields from the sixth on, if there are any.
pub open spec fn path_of(fs: Seq<Seq<char>>) -> Option<Seq<char>> {
    if fs.len() > 5 {
        Some(join_from(fs, 5))
    } else {
        None
    }
}

/// The largest 64-bit unsigned number.
pub open spec fn max_u64() -> nat {
    u64::MAX as nat
}

/// What a line with the fields `fs`, at least two, says as a header. A field
/// that is no range, or a range that does not end above its start, makes no
/// mapping; an address that is no hexadecimal number fails the parse.
pub open spec fn header_outcome(fs: Seq<Seq<char>>) -> LineOutcome {
    match range_of(fs[0]) {
        None => LineOutcome::Skip,
        Some((low, high)) => match parse_unsigned(low, 16, max_u64()) {
            None => LineOutcome::Bad(ParseErrorView::StartAddress(low)),
            Some(start) => match parse_unsigned(high, 16, max_u64()) {
                None => LineOutcome::Bad(ParseErrorView::EndAddress(high)),
                Some(end) => if end > start {
                    LineOutcome::Record(
                        MappingView {
                            start_addr: start as u64,
                            end_addr: end as u64,
                            size: (end - start) as u64,
                            permissions: fs[1],
                            rss: None,
                            pss: None,
                            path: path_of(fs),
                        },
                    )
                } else {
                    LineOutcome::Skip
                },
            },
        },
    }
}

/// A header line: at least two fields, the first of them with a dash.
pub open spec fn is_header(fs: Seq<Seq<char>>) -> bool {
    fs.len() >= 2 && contains_char(fs[0], '-')
}

/// What reading a header gave.
pub enum Header {
    Skip,
    Record(MemoryMapping),
    Bad(ParseError),
}

impl View for Header {
    type V = LineOutcome;

    open spec fn view(&self) -> LineOutcome {
        match self {
            Header::Skip => LineOutcome::Skip,
            Header::Record(m) => LineOutcome::Record(m@),
            Header::Bad(e) => LineOutcome::Bad(e@),
        }
    }
}

/// Reads a line of at least two fields as a header.
pub fn parse_header(line: &[char], spans: &Vec<Span>) -> (out: Header)
    requires
        spans_are_fields(line@, spans@),
        spans@.len() >= 2,
    ensures
        out@ == header_outcome(fields(line@)),
        out matches Header::Record(m) ==> m@.valid(),
{
    let ghost fs = fields(line@);
    let field = slice_subrange(line, spans[0].start, spans[0].end);
    assert(field@ == fs[0]);
    let n = field.len();
    let p = find_char_from(field, '-', 0);
    if p >= n {
        return Header::Skip;
    }
    let q = find_char_from(field, '-', p + 1);
    if q < n {
        return Header::Skip;
    }
    let low = slice_subrange(field, 0, p);
    let high = slice_subrange(field, p + 1, n);
    assert(low@ =~= field@.take(p as int));
    assert(high@ =~= field@.skip(p + 1));
    let start = match parse_u64(low, 16) {
        None => {
            return Header::Bad(ParseError::StartAddress(string_of(low)));
        },
        Some(v) => v,
    };
    let end = match parse_u64(high, 16) {
        None => {
            return Header::Bad(ParseError::EndAddress(string_of(high)));
        },
        Some(v) => v,
    };
    if end <= start {
        return Header::Skip;
    }
    let perms = slice_subrange(line, spans[1].start, spans[1].end);
    assert(perms@ == fs[1]);
    let path = if spans.len() > 5 {
        Some(join_fields(line, spans, 5))
    } else {
        None
    };
    Header::Record(
        MemoryMapping {
            start_addr: start,
            end_addr: end,
            size: end - start,
            permissions: string_of(perms),
            rss: None,
            pss: None,
            path,
        },
    )
}

/// The tag of the attribute that gives the resident set size.
pub open spec fn rss_tag() -> Seq<char> {
    seq!['R', 's', 's', ':']
}

/// The tag of the attribute that gives the proportional set size.
pub open spec fn pss_tag() -> Seq<char> {
    seq!['P', 's', 's', ':']
}

/// The byte count that a decimal count of kibibytes stands for, where both
/// fit 64 bits.
pub open spec fn kib_bytes(field: Seq<char>) -> Option<u64> {
    match parse_unsigned(field, 10, max_u64()) {
        Some(v) => if v * 1024 <= u64::MAX {
            Some((v * 1024) as u64)
        } else {
            None
        },
        None => None,
    }
}

/// The mapping `m` after an attribute line with the fields `fs`. Only the
/// two known tags count, each with a value that `kib_bytes` can read; any
/// other line leaves the mapping as it is.
pub open spec fn with_attribute(m: MappingView, fs: Seq<Seq<char>>) -> MappingView {
    if fs.len() >= 2 && starts_with(fs[0], rss_tag()) {
        match kib_bytes(fs[1]) {
            Some(b) => MappingView { rss: Some(b), ..m },
            None => m,
        }
    } else if fs.len() >= 2 && starts_with(fs[0], pss_tag()) {
        match kib_bytes(fs[1]) {
            Some(b) => MappingView { pss: Some(b), ..m },
            None => m,
        }
    } else {
        m
    }
}

/// Reads a decimal count of kibibytes as a count of bytes.
pub fn parse_kib(field: &[char]) -> (bytes: Option<u64>)
    ensures
        bytes == kib_bytes(field@),
{
    match parse_u64(field, 10) {
        Some(v) => {
            if v <= u64::MAX / 1024 {
                Some(v * 1024)
            } else {
                None
            }
        },
        None => None,
    }
}

/// Tests whether `field` begins with the tag for the resident set size.
pub fn is_rss(field: &[char]) -> (b: bool)
    ensures
        b == starts_with(field@, rss_tag()),
{
    let tag: Vec<char> = vec!['R', 's', 's', ':'];
    assert(tag@ =~= rss_tag());
    has_prefix(field, tag.as_slice())
}

/// Tests whether `field` begins with the tag for the proportional set size.
pub fn is_pss(field: &[char]) -> (b: bool)
    ensures
        b == starts_with(field@, pss_tag()),
{
    let tag: Vec<char> = vec!['P', 's', 's', ':'];
    assert(tag@ =~= pss_tag());
    has_prefix(field, tag.as_slice())
}

/// Takes the attribute of one line into the mapping that is being read.
pub fn apply_attribute(m: &mut MemoryMapping, line: &[char], spans: &Vec<Span>)
    requires
        spans_are_fields(line@, spans@),
    ensures
        final(m)@ == with_attribute(old(m)@, fields(line@)),
{
    if spans.len() < 2 {
        return ;
    }
    let ghost fs = fields(line@);
    let tag = slice_subrange(line, spans[0].start, spans[0].end);
    let value = slice_subrange(line, spans[1].start, spans[1].end);
    assert(tag@ == fs[0]);
    assert(value@ == fs[1]);
    if is_rss(tag) {
        match parse_kib(value) {
            Some(b) => {
                m.rss = Some(b);
            },
            None => {},
        }
    } else if is_pss(tag) {
        match parse_kib(value) {
            Some(b) => {
                m.pss = Some(b);
            },
            None => {},
        }
    }
}

} // verus!
