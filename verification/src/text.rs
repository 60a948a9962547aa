//! Characters, lines and whitespace-separated fields of the input text.

use vstd::prelude::*;

verus! {

/// `String::push` appends one character to the end of the string.
pub assume_specification[ String::push ](s: &mut String, ch: char)
    ensures
        final(s)@ == old(s)@.push(ch),
;

/// The characters of `s`, in order.
pub fn chars_of(s: &str) -> (out: Vec<char>)
    ensures
        out@ == s@,
{
    broadcast use {vstd::string::axiom_spec_iter, vstd::string::next_postcondition};

    let mut out: Vec<char> = Vec::new();
    for c in it: s.chars()
        invariant
            it.seq() == s@,
            out@ == s@.take(it.index() as int),
    {
        out.push(c);
    }
    out
}

/// Whether `c` has the Unicode property White_Space.
pub open spec fn is_whitespace(c: char) -> bool {
    let n = c as u32;
    ||| 0x09 <= n <= 0x0D
    ||| n == 0x20
    ||| n == 0x85
    ||| n == 0xA0
    ||| n == 0x1680
    ||| 0x2000 <= n <= 0x200A
    ||| n == 0x2028
    ||| n == 0x2029
    ||| n == 0x202F
    ||| n == 0x205F
    ||| n == 0x3000
}

/// Tests a character for the Unicode property White_Space.
pub fn char_is_whitespace(c: char) -> (b: bool)
    ensures
        b == is_whitespace(c),
{
    let n: u32 = c as u32;
    (0x09 <= n && n <= 0x0D) || n == 0x20 || n == 0x85 || n == 0xA0 || n == 0x1680 || (0x2000 <= n
        && n <= 0x200A) || n == 0x2028 || n == 0x2029 || n == 0x202F || n == 0x205F || n == 0x3000
}

/// A half-open range of positions in a text.
pub struct Span {
    pub start: usize,
    pub end: usize,
}

/// First position at or after `i` that holds whitespace, or the length of `s`.
pub open spec fn word_end(s: Seq<char>, i: int) -> int
    decreases s.len() - i,
{
    if 0 <= i < s.len() && !is_whitespace(s[i]) {
        word_end(s, i + 1)
    } else {
        i
    }
}

/// The maximal runs of non-whitespace characters that start at or after `i`,
/// as pairs of start and end positions, in order.
pub open spec fn field_bounds_from(s: Seq<char>, i: int) -> Seq<(int, int)>
    decreases s.len() - i,
{
    if i < 0 || i >= s.len() {
        Seq::empty()
    } else if is_whitespace(s[i]) {
        field_bounds_from(s, i + 1)
    } else if i < word_end(s, i) <= s.len() {
        seq![(i, word_end(s, i))] + field_bounds_from(s, word_end(s, i))
    } else {
        Seq::empty()
    }
}

/// The whitespace-separated fields of `s`, in order; none of them is empty.
pub open spec fn fields(s: Seq<char>) -> Seq<Seq<char>> {
    field_bounds_from(s, 0).map_values(|b: (int, int)| s.subrange(b.0, b.1))
}

/// `word_end` lies between its start and the end of the text.
pub proof fn lemma_word_end_bounds(s: Seq<char>, i: int)
    requires
        0 <= i <= s.len(),
    ensures
        i <= word_end(s, i) <= s.len(),
        i < s.len() && !is_whitespace(s[i]) ==> i < word_end(s, i),
    decreases s.len() - i,
{
    if i < s.len() && !is_whitespace(s[i]) {
        lemma_word_end_bounds(s, i + 1);
    }
}

/// Every field bound lies inside the text and encloses at least one character.
pub proof fn lemma_field_bounds_valid(s: Seq<char>, i: int, k: int)
    requires
        0 <= i,
        0 <= k < field_bounds_from(s, i).len(),
    ensures
        i <= field_bounds_from(s, i)[k].0 < field_bounds_from(s, i)[k].1 <= s.len(),
    decreases s.len() - i,
{
    if i < s.len() {
        if is_whitespace(s[i]) {
            lemma_field_bounds_valid(s, i + 1, k);
        } else {
            lemma_word_end_bounds(s, i);
            if k > 0 {
                lemma_field_bounds_valid(s, word_end(s, i), k - 1);
            }
        }
    }
}

/// Whether `spans` are the fields of `s`, by position.
pub open spec fn spans_are_fields(s: Seq<char>, spans: Seq<Span>) -> bool {
    &&& spans.len() == fields(s).len()
    &&& forall|k: int|
        0 <= k < spans.len() ==> {
            &&& (#[trigger] spans[k]).start < spans[k].end <= s.len()
            &&& s.subrange(spans[k].start as int, spans[k].end as int) == fields(s)[k]
        }
}

/// Splits a line into its whitespace-separated fields.
pub fn split_fields(line: &[char]) -> (spans: Vec<Span>)
    ensures
        spans_are_fields(line@, spans@),
{
    let n = line.len();
    let mut spans: Vec<Span> = Vec::new();
    let mut i: usize = 0;
    while i < n
        invariant
            n == line@.len(),
            i <= n,
            field_bounds_from(line@, 0) =~= spans@.map_values(
                |sp: Span| (sp.start as int, sp.end as int),
            ) + field_bounds_from(line@, i as int),
        decreases n - i,
    {
        if char_is_whitespace(line[i]) {
            i = i + 1;
        } else {
            let start = i;
            while i < n && !char_is_whitespace(line[i])
                invariant
                    n == line@.len(),
                    start <= i <= n,
                    word_end(line@, start as int) == word_end(line@, i as int),
                decreases n - i,
            {
                i = i + 1;
            }
            spans.push(Span { start, end: i });
        }
    }
    proof {
        let bounds = field_bounds_from(line@, 0);
        assert(bounds =~= spans@.map_values(|sp: Span| (sp.start as int, sp.end as int)));
        assert forall|k: int| 0 <= k < spans@.len() implies {
            &&& (#[trigger] spans@[k]).start < spans@[k].end <= line@.len()
            &&& line@.subrange(spans@[k].start as int, spans@[k].end as int) == fields(line@)[k]
        } by {
            lemma_field_bounds_valid(line@, 0, k);
            assert(bounds[k] == (spans@[k].start as int, spans@[k].end as int));
        }
    }
    spans
}

/// First position at or after `i` that holds `c`, or the length of `s`.
pub open spec fn find_char(s: Seq<char>, c: char, i: int) -> int
    decreases s.len() - i,
{
    if 0 <= i < s.len() && s[i] != c {
        find_char(s, c, i + 1)
    } else {
        i
    }
}

/// `find_char` stays inside the text, and nothing before its result holds `c`.
pub proof fn lemma_find_char(s: Seq<char>, c: char, i: int)
    requires
        0 <= i <= s.len(),
    ensures
        i <= find_char(s, c, i) <= s.len(),
        find_char(s, c, i) < s.len() ==> s[find_char(s, c, i)] == c,
        forall|j: int| i <= j < find_char(s, c, i) ==> s[j] != c,
    decreases s.len() - i,
{
    if i < s.len() && s[i] != c {
        lemma_find_char(s, c, i + 1);
    }
}

/// Finds the first position at or after `from` that holds `c`.
pub fn find_char_from(s: &[char], c: char, from: usize) -> (pos: usize)
    requires
        from <= s@.len(),
    ensures
        pos == find_char(s@, c, from as int),
        from <= pos <= s@.len(),
{
    let n = s.len();
    let mut i: usize = from;
    while i < n && s[i] != c
        invariant
            n == s@.len(),
            from <= i <= n,
            find_char(s@, c, from as int) == find_char(s@, c, i as int),
        decreases n - i,
    {
        i = i + 1;
    }
    i
}

/// Whether `c` occurs in `s`.
pub open spec fn contains_char(s: Seq<char>, c: char) -> bool {
    find_char(s, c, 0) < s.len()
}

/// The line bounds of `s` that start at or after `i`: a line ends before
/// the next line feed, or where the text ends.
pub open spec fn line_bounds_from(s: Seq<char>, i: int) -> Seq<(int, int)>
    decreases s.len() - i,
{
    if i < 0 || i >= s.len() {
        Seq::empty()
    } else if i <= find_char(s, '\n', i) < s.len() {
        seq![(i, find_char(s, '\n', i))] + line_bounds_from(s, find_char(s, '\n', i) + 1)
    } else {
        seq![(i, s.len() as int)]
    }
}

/// The lines of `s`, without their line feeds. A text that ends in a line
/// feed has no empty last line. A carriage return before a line feed stays
/// in its line, where it is whitespace.
pub open spec fn lines(s: Seq<char>) -> Seq<Seq<char>> {
    line_bounds_from(s, 0).map_values(|b: (int, int)| s.subrange(b.0, b.1))
}

/// Every line bound lies inside the text.
pub proof fn lemma_line_bounds_valid(s: Seq<char>, i: int, k: int)
    requires
        0 <= i,
        0 <= k < line_bounds_from(s, i).len(),
    ensures
        i <= line_bounds_from(s, i)[k].0 <= line_bounds_from(s, i)[k].1 <= s.len(),
    decreases s.len() - i,
{
    if i < s.len() {
        lemma_find_char(s, '\n', i);
        if find_char(s, '\n', i) < s.len() && k > 0 {
            lemma_line_bounds_valid(s, find_char(s, '\n', i) + 1, k - 1);
        }
    }
}

/// Whether `spans` are the lines of `s`, by position.
pub open spec fn spans_are_lines(s: Seq<char>, spans: Seq<Span>) -> bool {
    &&& spans.len() == lines(s).len()
    &&& forall|k: int|
        0 <= k < spans.len() ==> {
            &&& (#[trigger] spans[k]).start <= spans[k].end <= s.len()
            &&& s.subrange(spans[k].start as int, spans[k].end as int) == lines(s)[k]
        }
}

/// Splits a text into its lines.
pub fn split_lines(text: &[char]) -> (spans: Vec<Span>)
    ensures
        spans_are_lines(text@, spans@),
{
    let n = text.len();
    let mut spans: Vec<Span> = Vec::new();
    let mut i: usize = 0;
    while i < n
        invariant
            n == text@.len(),
            i <= n,
            line_bounds_from(text@, 0) =~= spans@.map_values(
                |sp: Span| (sp.start as int, sp.end as int),
            ) + line_bounds_from(text@, i as int),
        decreases n - i,
    {
        let end = find_char_from(text, '\n', i);
        spans.push(Span { start: i, end });
        if end < n {
            i = end + 1;
        } else {
            i = n;
        }
    }
    proof {
        let bounds = line_bounds_from(text@, 0);
        assert(bounds =~= spans@.map_values(|sp: Span| (sp.start as int, sp.end as int)));
        assert forall|k: int| 0 <= k < spans@.len() implies {
            &&& (#[trigger] spans@[k]).start <= spans@[k].end <= text@.len()
            &&& text@.subrange(spans@[k].start as int, spans@[k].end as int) == lines(text@)[k]
        } by {
            lemma_line_bounds_valid(text@, 0, k);
            assert(bounds[k] == (spans@[k].start as int, spans@[k].end as int));
        }
    }
    spans
}

/// Whether `s` begins with `prefix`.
pub open spec fn starts_with(s: Seq<char>, prefix: Seq<char>) -> bool {
    s.len() >= prefix.len() && s.take(prefix.len() as int) == prefix
}

/// Tests whether `s` begins with `prefix`.
pub fn has_prefix(s: &[char], prefix: &[char]) -> (b: bool)
    ensures
        b == starts_with(s@, prefix@),
{
    let n = prefix.len();
    if s.len() < n {
        return false;
    }
    let mut i: usize = 0;
    while i < n
        invariant
            n == prefix@.len(),
            n <= s@.len(),
            i <= n,
            s@.take(i as int) == prefix@.take(i as int),
        decreases n - i,
    {
        if s[i] != prefix[i] {
            assert(s@.take(n as int)[i as int] != prefix@[i as int]);
            return false;
        }
        assert(s@.take(i + 1) =~= s@.take(i as int).push(s@[i as int]));
        assert(prefix@.take(i + 1) =~= prefix@.take(i as int).push(prefix@[i as int]));
        i = i + 1;
    }
    assert(prefix@.take(n as int) =~= prefix@);
    true
}

/// Appends the characters of `chars` to `out`.
pub fn push_chars(out: &mut String, chars: &[char])
    ensures
        final(out)@ == old(out)@ + chars@,
{
    let n = chars.len();
    let mut i: usize = 0;
    while i < n
        invariant
            n == chars@.len(),
            i <= n,
            out@ == old(out)@ + chars@.take(i as int),
        decreases n - i,
    {
        out.push(chars[i]);
        assert(chars@.take(i + 1) =~= chars@.take(i as int).push(chars@[i as int]));
        assert(out@ =~= old(out)@ + chars@.take(i + 1));
        i = i + 1;
    }
    assert(chars@.take(n as int) =~= chars@);
}

/// The string that holds the characters of `chars`.
pub fn string_of(chars: &[char]) -> (out: String)
    ensures
        out@ == chars@,
{
    let mut out = String::new();
    push_chars(&mut out, chars);
    assert(out@ =~= chars@);
    out
}

/// The fields of `fs` from position `from` on, joined by single spaces.
pub open spec fn join_from(fs: Seq<Seq<char>>, from: int) -> Seq<char>
    decreases fs.len(),
{
    if fs.len() <= from || fs.len() == 0 {
        Seq::empty()
    } else if fs.len() == from + 1 {
        fs.last()
    } else {
        join_from(fs.drop_last(), from) + seq![' '] + fs.last()
    }
}

/// Joins the fields of `line` from position `from` on by single spaces.
pub fn join_fields(line: &[char], spans: &Vec<Span>, from: usize) -> (out: String)
    requires
        spans_are_fields(line@, spans@),
    ensures
        out@ == join_from(fields(line@), from as int),
{
    let ghost fs = fields(line@);
    let mut out = String::new();
    let n = spans.len();
    if from >= n {
        return out;
    }
    let mut k: usize = from;
    assert(fs.take(from as int).len() <= from);
    while k < n
        invariant
            n == spans@.len(),
            from <= k <= n,
            fs == fields(line@),
            spans_are_fields(line@, spans@),
            out@ == join_from(fs.take(k as int), from as int),
        decreases n - k,
    {
        let sp = &spans[k];
        let field = vstd::slice::slice_subrange(line, sp.start, sp.end);
        assert(field@ == fs[k as int]);
        assert(fs.take(k + 1).drop_last() =~= fs.take(k as int));
        assert(fs.take(k + 1).last() == fs[k as int]);
        if k > from {
            out.push(' ');
        }
        push_chars(&mut out, field);
        assert(out@ =~= join_from(fs.take(k + 1), from as int));
        k = k + 1;
    }
    assert(fs.take(n as int) =~= fs);
    out
}

/// `s` without the whitespace at its end.
pub open spec fn trim_end(s: Seq<char>) -> Seq<char>
    decreases s.len(),
{
    if s.len() > 0 && is_whitespace(s.last()) {
        trim_end(s.drop_last())
    } else {
        s
    }
}

/// `s` without the whitespace at its start.
pub open spec fn trim_start(s: Seq<char>) -> Seq<char>
    decreases s.len(),
{
    if s.len() > 0 && is_whitespace(s[0]) {
        trim_start(s.drop_first())
    } else {
        s
    }
}

/// `s` without the whitespace at either end.
pub open spec fn trimmed(s: Seq<char>) -> Seq<char> {
    trim_start(trim_end(s))
}

/// Cuts the whitespace off both ends of `s`.
pub fn trim(s: &[char]) -> (out: &[char])
    ensures
        out@ == trimmed(s@),
{
    let mut end: usize = s.len();
    assert(s@.take(end as int) =~= s@);
    while end > 0 && char_is_whitespace(s[end - 1])
        invariant
            end <= s@.len(),
            trim_end(s@) == trim_end(s@.take(end as int)),
        decreases end,
    {
        assert(s@.take(end as int).drop_last() =~= s@.take(end - 1));
        end = end - 1;
    }
    let mut start: usize = 0;
    assert(s@.take(end as int) =~= s@.subrange(0, end as int));
    while start < end && char_is_whitespace(s[start])
        invariant
            start <= end <= s@.len(),
            trim_start(s@.take(end as int)) == trim_start(s@.subrange(start as int, end as int)),
        decreases end - start,
    {
        assert(s@.subrange(start as int, end as int).drop_first() =~= s@.subrange(
            start + 1,
            end as int,
        ));
        start = start + 1;
    }
    vstd::slice::slice_subrange(s, start, end)
}

} // verus!
