//! The in-memory text of one file, stored as lines of characters so that
//! editing and cursor arithmetic work in Unicode scalar values.

use vstd::prelude::*;

use crate::chars::{char_matches, chars_match, chars_of, string_from_chars};

verus! {

/// A (line, char-column) position within a buffer.
pub type Pos = (usize, usize);

/// Line ending style detected on load, preserved on save.
#[derive(Clone, Copy, PartialEq, Eq, Structural, Debug)]
pub enum LineEnding {
    Lf,
    CrLf,
}

// ---- the model: text as a sequence of lines ---------------------------

/// A position as a pair of mathematical integers.
pub open spec fn ipos(p: Pos) -> (int, int) {
    (p.0 as int, p.1 as int)
}

/// The lines held by a vector of lines.
pub open spec fn lines_view(v: Seq<Vec<char>>) -> Seq<Seq<char>> {
    Seq::new(v.len(), |i: int| v[i]@)
}

/// `a` comes no later than `b` in reading order.
pub open spec fn pos_le(a: (int, int), b: (int, int)) -> bool {
    a.0 < b.0 || (a.0 == b.0 && a.1 <= b.1)
}

/// `p` is a line of `t` and a column within (or just past the end of) it.
pub open spec fn valid_pos(t: Seq<Seq<char>>, p: (int, int)) -> bool {
    0 <= p.0 < t.len() && 0 <= p.1 <= t[p.0].len()
}

/// `s` and `e` are valid positions and `s` does not come after `e`.
pub open spec fn valid_range(t: Seq<Seq<char>>, s: (int, int), e: (int, int)) -> bool {
    valid_pos(t, s) && valid_pos(t, e) && pos_le(s, e)
}

/// A range that can be deleted: `e` lies in the text and `s` does not come
/// after it. A start column past the end of its line stands for the end of
/// that line.
pub open spec fn deletable_range(t: Seq<Seq<char>>, s: (int, int), e: (int, int)) -> bool {
    0 <= s.0 && 0 <= s.1 && valid_pos(t, e) && pos_le(s, e)
}

/// `p` with its column cut back to the length of its line.
pub open spec fn start_in_line(t: Seq<Seq<char>>, p: (int, int)) -> (int, int) {
    if p.1 <= t[p.0].len() {
        p
    } else {
        (p.0, t[p.0].len() as int)
    }
}

/// The text between `s` and `e`, as line fragments.
pub open spec fn spec_extract(t: Seq<Seq<char>>, s: (int, int), e: (int, int)) -> Seq<Seq<char>> {
    if s.0 == e.0 {
        seq![t[s.0].subrange(s.1, e.1)]
    } else {
        seq![t[s.0].skip(s.1)] + t.subrange(s.0 + 1, e.0) + seq![t[e.0].take(e.1)]
    }
}

/// `t` with the text between `s` and `e` removed; the two ends join.
pub open spec fn spec_delete(t: Seq<Seq<char>>, s: (int, int), e: (int, int)) -> Seq<Seq<char>> {
    t.take(s.0).push(t[s.0].take(s.1) + t[e.0].skip(e.1)) + t.skip(e.0 + 1)
}

/// `t` with the fragments `ins` spliced in at `p`.
pub open spec fn spec_insert(t: Seq<Seq<char>>, p: (int, int), ins: Seq<Seq<char>>) -> Seq<Seq<char>> {
    let line = t[p.0];
    let n = ins.len();
    if n == 0 {
        t
    } else if n == 1 {
        t.update(p.0, line.take(p.1) + ins[0] + line.skip(p.1))
    } else {
        t.take(p.0).push(line.take(p.1) + ins[0]) + ins.subrange(1, n - 1) + seq![
            ins[n - 1] + line.skip(p.1),
        ] + t.skip(p.0 + 1)
    }
}

/// The position just after fragments `ins` once they are spliced in at `p`.
pub open spec fn spec_insert_end(p: (int, int), ins: Seq<Seq<char>>) -> (int, int) {
    let n = ins.len();
    if n == 0 {
        p
    } else if n == 1 {
        (p.0, p.1 + ins[0].len())
    } else {
        (p.0 + n - 1, ins[n - 1].len() as int)
    }
}

/// `pos` moved to the nearest position that exists in `t`.
pub open spec fn spec_clamp(t: Seq<Seq<char>>, pos: (int, int)) -> (int, int) {
    let line = if pos.0 < t.len() - 1 { pos.0 } else { t.len() - 1 };
    let col = if pos.1 < t[line].len() { pos.1 } else { t[line].len() as int };
    (line, col)
}

// ---- the model: search ---------------------------------------------------

/// `needle` occurs in `line` at column `i`.
pub open spec fn matches_at(line: Seq<char>, needle: Seq<char>, i: int, case_sensitive: bool) -> bool {
    &&& 0 <= i
    &&& i + needle.len() <= line.len()
    &&& forall|j: int| 0 <= j < needle.len() ==> chars_match(#[trigger] line[i + j], needle[j], case_sensitive)
}

/// The first column at or after `from` where `needle` occurs in `line`.
pub open spec fn first_match(line: Seq<char>, needle: Seq<char>, from: int, case_sensitive: bool) -> Option<int>
    decreases line.len() - from,
{
    if from < 0 || from + needle.len() > line.len() {
        None
    } else if matches_at(line, needle, from, case_sensitive) {
        Some(from)
    } else {
        first_match(line, needle, from + 1, case_sensitive)
    }
}

/// The first occurrence of `needle` in lines `l..` of `t`, searching line
/// `from.0` only from column `from.1`.
pub open spec fn forward_search(
    t: Seq<Seq<char>>,
    l: int,
    from: (int, int),
    needle: Seq<char>,
    case_sensitive: bool,
) -> Option<(int, int)>
    decreases t.len() - l,
{
    if l < 0 || l >= t.len() {
        None
    } else {
        let start = if l == from.0 { from.1 } else { 0 };
        match first_match(t[l], needle, start, case_sensitive) {
            Some(c) => Some((l, c)),
            None => forward_search(t, l + 1, from, needle, case_sensitive),
        }
    }
}

/// The first occurrence of `needle` in whole lines `l..=last` of `t`.
pub open spec fn wrap_search(
    t: Seq<Seq<char>>,
    l: int,
    last: int,
    needle: Seq<char>,
    case_sensitive: bool,
) -> Option<(int, int)>
    decreases last + 1 - l,
{
    if l < 0 || l > last || l >= t.len() {
        None
    } else {
        match first_match(t[l], needle, 0, case_sensitive) {
            Some(c) => Some((l, c)),
            None => wrap_search(t, l + 1, last, needle, case_sensitive),
        }
    }
}

/// What `Buffer::find_from` finds: the match's start and end and whether
/// the search wrapped past the end of the document.
pub open spec fn spec_find_from(
    t: Seq<Seq<char>>,
    from: (int, int),
    needle: Seq<char>,
    case_sensitive: bool,
    allow_wrap: bool,
) -> Option<((int, int), (int, int), bool)> {
    if needle.len() == 0 {
        None
    } else {
        match forward_search(t, from.0, from, needle, case_sensitive) {
            Some(p) => Some((p, (p.0, p.1 + needle.len()), false)),
            None => if !allow_wrap {
                None
            } else {
                let last = if from.0 < t.len() - 1 { from.0 } else { t.len() - 1 };
                match wrap_search(t, 0, last, needle, case_sensitive) {
                    Some(p) => Some((p, (p.0, p.1 + needle.len()), true)),
                    None => None,
                }
            },
        }
    }
}

/// The model of a search result.
pub open spec fn found_view(r: Option<(Pos, Pos, bool)>) -> Option<((int, int), (int, int), bool)> {
    match r {
        Some((s, e, w)) => Some((ipos(s), ipos(e), w)),
        None => None,
    }
}

// ---- the model: conversion between text and lines ------------------------

/// `t` with every CR LF pair replaced by LF.
pub open spec fn normalize_crlf(t: Seq<char>) -> Seq<char>
    decreases t.len(),
{
    if t.len() == 0 {
        t
    } else if t.len() >= 2 && t.last() == '\n' && t[t.len() - 2] == '\r' {
        normalize_crlf(t.take(t.len() - 2)).push('\n')
    } else {
        normalize_crlf(t.drop_last()).push(t.last())
    }
}

/// `t` cut at every LF (which are dropped); always at least one line.
pub open spec fn split_lines(t: Seq<char>) -> Seq<Seq<char>>
    decreases t.len(),
{
    if t.len() == 0 {
        seq![Seq::<char>::empty()]
    } else {
        let prev = split_lines(t.drop_last());
        if t.last() == '\n' {
            prev.push(Seq::<char>::empty())
        } else {
            prev.update(prev.len() - 1, prev.last().push(t.last()))
        }
    }
}

/// The lines of `text`: CR LF and LF both end a line.
pub open spec fn spec_text_to_lines(text: Seq<char>) -> Seq<Seq<char>> {
    split_lines(normalize_crlf(text))
}

/// The lines joined with LF between them.
pub open spec fn join_lines(t: Seq<Seq<char>>) -> Seq<char>
    decreases t.len(),
{
    if t.len() == 0 {
        Seq::<char>::empty()
    } else if t.len() == 1 {
        t[0]
    } else {
        join_lines(t.drop_last()) + seq!['\n'] + t.last()
    }
}

/// `t` with every LF replaced by `sep`.
pub open spec fn replace_newlines(t: Seq<char>, sep: Seq<char>) -> Seq<char>
    decreases t.len(),
{
    if t.len() == 0 {
        t
    } else {
        let prev = replace_newlines(t.drop_last(), sep);
        if t.last() == '\n' {
            prev + sep
        } else {
            prev.push(t.last())
        }
    }
}

/// `t` holds a CR immediately followed by an LF.
pub open spec fn contains_crlf(t: Seq<char>) -> bool {
    exists|i: int| 0 <= i && i + 1 < t.len() && #[trigger] t[i] == '\r' && t[i + 1] == '\n'
}

/// The characters that end a line in a file of the given style.
pub open spec fn separator(le: LineEnding) -> Seq<char> {
    match le {
        LineEnding::Lf => seq!['\n'],
        LineEnding::CrLf => seq!['\r', '\n'],
    }
}

/// The file contents that lines `t` are written as.
pub open spec fn spec_file_text(t: Seq<Seq<char>>, le: LineEnding) -> Seq<char> {
    replace_newlines(join_lines(t), separator(le))
}

/// The line ending style that a file's contents are read as having.
pub open spec fn spec_detect_line_ending(text: Seq<char>) -> LineEnding {
    if contains_crlf(text) {
        LineEnding::CrLf
    } else {
        LineEnding::Lf
    }
}

// ---- executable helpers --------------------------------------------------

/// Appends `src[from..to]` to `dst`.
fn append_range(dst: &mut Vec<char>, src: &[char], from: usize, to: usize)
    requires
        from <= to <= src@.len(),
    ensures
        final(dst)@ == old(dst)@ + src@.subrange(from as int, to as int),
{
    let ghost start = dst@;
    let mut i = from;
    while i < to
        invariant
            from <= i <= to,
            to <= src@.len(),
            dst@ == start + src@.subrange(from as int, i as int),
        decreases to - i,
    {
        dst.push(src[i]);
        assert(src@.subrange(from as int, i + 1) =~= src@.subrange(from as int, i as int).push(
            src@[i as int],
        ));
        i = i + 1;
    }
}

/// A copy of `src[from..to]`.
fn copy_range(src: &[char], from: usize, to: usize) -> (r: Vec<char>)
    requires
        from <= to <= src@.len(),
    ensures
        r@ == src@.subrange(from as int, to as int),
{
    let mut r: Vec<char> = Vec::new();
    append_range(&mut r, src, from, to);
    assert(r@ =~= src@.subrange(from as int, to as int));
    r
}

/// Splits text into lines; CR LF and LF both end a line.
pub fn text_to_lines(text: &str) -> (r: Vec<Vec<char>>)
    ensures
        lines_view(r@) == spec_text_to_lines(text@),
        r@.len() >= 1,
{
    let chars = chars_of(text);
    let n = chars.len();
    // first pass: CR LF becomes LF
    let mut norm: Vec<char> = Vec::new();
    let mut i: usize = 0;
    while i < n
        invariant
            n == chars@.len(),
            i <= n,
            norm@ == normalize_crlf(chars@.take(i as int)),
            i > 0 && i < n ==> !(chars@[i - 1] == '\r' && chars@[i as int] == '\n'),
        decreases n - i,
    {
        if chars[i] == '\r' && i + 1 < n && chars[i + 1] == '\n' {
            norm.push('\n');
            proof {
                let t = chars@.take(i + 2);
                assert(t.take(t.len() - 2) =~= chars@.take(i as int));
            }
            i = i + 2;
        } else {
            norm.push(chars[i]);
            proof {
                let t = chars@.take(i + 1);
                assert(t.drop_last() =~= chars@.take(i as int));
            }
            i = i + 1;
        }
    }
    assert(chars@.take(n as int) =~= chars@);
    // second pass: cut at LF
    let mut lines: Vec<Vec<char>> = Vec::new();
    let mut cur: Vec<char> = Vec::new();
    let m = norm.len();
    let mut j: usize = 0;
    while j < m
        invariant
            m == norm@.len(),
            j <= m,
            lines_view(lines@).push(cur@) == split_lines(norm@.take(j as int)),
        decreases m - j,
    {
        let ghost before = split_lines(norm@.take(j as int));
        assert(norm@.take(j + 1).drop_last() =~= norm@.take(j as int));
        if norm[j] == '\n' {
            let done = cur;
            lines.push(done);
            cur = Vec::new();
            assert(lines_view(lines@).push(cur@) =~= before.push(Seq::<char>::empty()));
        } else {
            cur.push(norm[j]);
            assert(lines_view(lines@).push(cur@) =~= before.update(
                before.len() - 1,
                before.last().push(norm@[j as int]),
            ));
        }
        j = j + 1;
    }
    assert(norm@.take(m as int) =~= norm@);
    lines.push(cur);
    lines
}

proof fn lemma_lines_view_take(v: Seq<Vec<char>>, i: int)
    requires
        0 <= i < v.len(),
    ensures
        lines_view(v.take(i + 1)).drop_last() == lines_view(v.take(i)),
        lines_view(v.take(i + 1)).last() == v[i]@,
        lines_view(v.take(i + 1)).len() == i + 1,
{
    assert(lines_view(v.take(i + 1)).drop_last() =~= lines_view(v.take(i)));
}

proof fn lemma_lines_view_push(v: Seq<Vec<char>>, x: Vec<char>)
    ensures
        lines_view(v.push(x)) == lines_view(v).push(x@),
{
    assert(lines_view(v.push(x)) =~= lines_view(v).push(x@));
}

/// The lines joined with LF between them, as characters.
fn join_chars(lines: &[Vec<char>]) -> (r: Vec<char>)
    ensures
        r@ == join_lines(lines_view(lines@)),
{
    let mut acc: Vec<char> = Vec::new();
    let n = lines.len();
    let mut i: usize = 0;
    while i < n
        invariant
            n == lines@.len(),
            i <= n,
            acc@ == join_lines(lines_view(lines@.take(i as int))),
        decreases n - i,
    {
        proof {
            lemma_lines_view_take(lines@, i as int);
        }
        let ghost prev = acc@;
        if i > 0 {
            acc.push('\n');
        }
        let line = &lines[i];
        append_range(&mut acc, line.as_slice(), 0, line.len());
        proof {
            let lv = lines_view(lines@.take(i + 1));
            assert(line@.subrange(0, line@.len() as int) =~= line@);
            if i == 0 {
                assert(lv.len() == 1);
                assert(acc@ =~= lv[0]);
            } else {
                assert(acc@ =~= prev + seq!['\n'] + lv.last());
            }
        }
        i = i + 1;
    }
    assert(lines@.take(n as int) =~= lines@);
    acc
}

/// Joins lines with LF between them.
pub fn lines_to_text(lines: &[Vec<char>]) -> (r: String)
    ensures
        r@ == join_lines(lines_view(lines@)),
{
    let joined = join_chars(lines);
    string_from_chars(joined.as_slice())
}

/// Whether `text` holds a CR immediately followed by an LF.
fn has_crlf(text: &[char]) -> (r: bool)
    ensures
        r == contains_crlf(text@),
{
    let n = text.len();
    let mut i: usize = 0;
    while i < n && i + 1 < n
        invariant
            n == text@.len(),
            i <= n,
            forall|k: int| 0 <= k < i && k + 1 < n ==> !(#[trigger] text@[k] == '\r' && text@[k + 1] == '\n'),
        decreases n - i,
    {
        if text[i] == '\r' && text[i + 1] == '\n' {
            return true;
        }
        i = i + 1;
    }
    false
}

proof fn lemma_first_match_fits(line: Seq<char>, needle: Seq<char>, from: int, cs: bool)
    ensures
        first_match(line, needle, from, cs) matches Some(i) ==> from <= i && matches_at(line, needle, i, cs),
    decreases line.len() - from,
{
    if from < 0 || from + needle.len() > line.len() {
    } else if matches_at(line, needle, from, cs) {
    } else {
        lemma_first_match_fits(line, needle, from + 1, cs);
    }
}

/// The first column at or after `from_col` where `needle` occurs in `line`.
fn find_in_line(line: &[char], needle: &[char], from_col: usize, case_sensitive: bool) -> (r: Option<usize>)
    ensures
        match r {
            Some(i) => first_match(line@, needle@, from_col as int, case_sensitive) == Some(i as int),
            None => first_match(line@, needle@, from_col as int, case_sensitive) is None,
        },
{
    let n = needle.len();
    let len = line.len();
    let mut i = from_col;
    while n <= len && i <= len - n
        invariant
            n == needle@.len(),
            len == line@.len(),
            from_col <= i,
            first_match(line@, needle@, from_col as int, case_sensitive) == first_match(
                line@,
                needle@,
                i as int,
                case_sensitive,
            ),
        decreases len - i,
    {
        let mut matched = true;
        let mut j: usize = 0;
        while j < n
            invariant
                n == needle@.len(),
                len == line@.len(),
                i + n <= len,
                j <= n,
                forall|k: int| 0 <= k < j ==> chars_match(#[trigger] line@[i + k], needle@[k], case_sensitive),
                !matched ==> j < n && !chars_match(line@[i + j], needle@[j as int], case_sensitive),
            ensures
                matched ==> j == n,
                forall|k: int| 0 <= k < j ==> chars_match(#[trigger] line@[i + k], needle@[k], case_sensitive),
                !matched ==> j < n && !chars_match(line@[i + j], needle@[j as int], case_sensitive),
            decreases n - j,
        {
            if !char_matches(line[i + j], needle[j], case_sensitive) {
                matched = false;
                break;
            }
            j = j + 1;
        }
        if matched {
            assert(matches_at(line@, needle@, i as int, case_sensitive));
            return Some(i);
        }
        assert(!matches_at(line@, needle@, i as int, case_sensitive)) by {
            assert(!chars_match(line@[i + j], needle@[j as int], case_sensitive));
        }
        i = i + 1;
    }
    None
}

/// The in-memory text of one file.
pub struct Buffer {
    pub lines: Vec<Vec<char>>,
    pub filename: Option<String>,
    pub dirty: bool,
    pub line_ending: LineEnding,
}

impl Buffer {
    /// The lines of text.
    pub open spec fn text(&self) -> Seq<Seq<char>> {
        lines_view(self.lines@)
    }

    /// A buffer always holds at least one (possibly empty) line.
    pub open spec fn wf(&self) -> bool {
        self.lines@.len() >= 1
    }

    /// The file name as characters.
    pub open spec fn filename_view(&self) -> Option<Seq<char>> {
        match self.filename {
            Some(f) => Some(f@),
            None => None,
        }
    }

    /// An empty, unnamed, unmodified buffer.
    pub fn new() -> (r: Self)
        ensures
            r.wf(),
            r.text() == seq![Seq::<char>::empty()],
            r.filename is None,
            !r.dirty,
            r.line_ending == LineEnding::Lf,
    {
        let mut lines: Vec<Vec<char>> = Vec::new();
        lines.push(Vec::new());
        let r = Buffer { lines, filename: None, dirty: false, line_ending: LineEnding::Lf };
        assert(r.text() =~= seq![Seq::<char>::empty()]);
        r
    }

    /// The buffer that a file with these contents and name is read into:
    /// the line ending style is CR LF when the contents hold one.
    pub fn from_file_contents(contents: &str, filename: String) -> (r: Self)
        ensures
            r.wf(),
            r.text() == spec_text_to_lines(contents@),
            r.line_ending == spec_detect_line_ending(contents@),
            r.filename_view() == Some(filename@),
            !r.dirty,
    {
        let chars = chars_of(contents);
        let line_ending = if has_crlf(chars.as_slice()) {
            LineEnding::CrLf
        } else {
            LineEnding::Lf
        };
        let lines = text_to_lines(contents);
        Buffer { lines, filename: Some(filename), dirty: false, line_ending }
    }

    /// The file contents that `lines` are written as, with this buffer's
    /// line ending style.
    pub fn block_contents(&self, lines: &[Vec<char>]) -> (r: String)
        ensures
            r@ == spec_file_text(lines_view(lines@), self.line_ending),
    {
        let joined = join_chars(lines);
        let ghost sep = separator(self.line_ending);
        let mut out: Vec<char> = Vec::new();
        let n = joined.len();
        let mut i: usize = 0;
        while i < n
            invariant
                n == joined@.len(),
                i <= n,
                sep == separator(self.line_ending),
                out@ == replace_newlines(joined@.take(i as int), sep),
            decreases n - i,
        {
            assert(joined@.take(i + 1).drop_last() =~= joined@.take(i as int));
            let c = joined[i];
            if c == '\n' {
                match self.line_ending {
                    LineEnding::Lf => {
                        out.push('\n');
                    },
                    LineEnding::CrLf => {
                        out.push('\r');
                        out.push('\n');
                    },
                }
                assert(out@ =~= replace_newlines(joined@.take(i as int), sep) + sep);
            } else {
                out.push(c);
            }
            i = i + 1;
        }
        assert(joined@.take(n as int) =~= joined@);
        string_from_chars(out.as_slice())
    }

    /// The file contents that this buffer is saved as.
    pub fn file_contents(&self) -> (r: String)
        ensures
            r@ == spec_file_text(self.text(), self.line_ending),
    {
        self.block_contents(self.lines.as_slice())
    }

    /// Length of line `line`, in characters.
    pub fn line_len(&self, line: usize) -> (r: usize)
        requires
            line < self.lines@.len(),
        ensures
            r == self.text()[line as int].len(),
    {
        self.lines[line].len()
    }

    /// Number of lines.
    pub fn num_lines(&self) -> (r: usize)
        ensures
            r == self.text().len(),
    {
        self.lines.len()
    }

    /// The name shown for this buffer: the file name, or `UNTITLED.TXT`.
    pub fn display_name(&self) -> (r: String)
        ensures
            r@ == (match self.filename_view() {
                Some(f) => f,
                None => "UNTITLED.TXT"@,
            }),
    {
        match &self.filename {
            Some(p) => p.clone(),
            None => "UNTITLED.TXT".to_string(),
        }
    }

    /// Clamp a (line, col) pair to valid bounds within the buffer.
    pub fn clamp(&self, pos: Pos) -> (r: Pos)
        requires
            self.wf(),
        ensures
            ipos(r) == spec_clamp(self.text(), ipos(pos)),
            valid_pos(self.text(), ipos(r)),
    {
        let last = self.num_lines() - 1;
        let line = if pos.0 < last { pos.0 } else { last };
        let len = self.line_len(line);
        let col = if pos.1 < len { pos.1 } else { len };
        (line, col)
    }

    /// Extract the text between start and end (start <= end) as a list of
    /// line fragments, without modifying the buffer.
    pub fn extract_range(&self, start: Pos, end: Pos) -> (r: Vec<Vec<char>>)
        requires
            valid_range(self.text(), ipos(start), ipos(end)),
        ensures
            lines_view(r@) == spec_extract(self.text(), ipos(start), ipos(end)),
    {
        let (sl, sc) = start;
        let (el, ec) = end;
        let ghost t = self.text();
        if sl == el {
            let frag = copy_range(self.lines[sl].as_slice(), sc, ec);
            let mut r: Vec<Vec<char>> = Vec::new();
            r.push(frag);
            assert(lines_view(r@) =~= spec_extract(t, ipos(start), ipos(end)));
            return r;
        }
        let mut result: Vec<Vec<char>> = Vec::new();
        let first = &self.lines[sl];
        result.push(copy_range(first.as_slice(), sc, first.len()));
        let mut l = sl + 1;
        while l < el
            invariant
                sl < l <= el,
                el < self.lines@.len(),
                t == self.text(),
                lines_view(result@) == seq![t[sl as int].skip(sc as int)] + t.subrange(sl + 1, l as int),
            decreases el - l,
        {
            let line = &self.lines[l];
            let ghost before = result@;
            let frag = copy_range(line.as_slice(), 0, line.len());
            result.push(frag);
            proof {
                lemma_lines_view_push(before, frag);
                assert(line@.subrange(0, line@.len() as int) =~= line@);
                assert(lines_view(result@) =~= seq![t[sl as int].skip(sc as int)] + t.subrange(
                    sl + 1,
                    l + 1,
                ));
            }
            l = l + 1;
        }
        result.push(copy_range(self.lines[el].as_slice(), 0, ec));
        assert(lines_view(result@) =~= spec_extract(t, ipos(start), ipos(end)));
        result
    }

    /// Delete the text between start and end (start <= end) in place. A
    /// start column past the end of its line deletes from the end of that
    /// line.
    pub fn delete_range(&mut self, start: Pos, end: Pos)
        requires
            deletable_range(old(self).text(), ipos(start), ipos(end)),
        ensures
            final(self).text() == spec_delete(
                old(self).text(),
                start_in_line(old(self).text(), ipos(start)),
                ipos(end),
            ),
            final(self).dirty,
            final(self).filename == old(self).filename,
            final(self).line_ending == old(self).line_ending,
    {
        let (sl, sc0) = start;
        let (el, ec) = end;
        let ghost t = self.text();
        let sc = if sc0 <= self.lines[sl].len() { sc0 } else { self.lines[sl].len() };
        assert((sl as int, sc as int) == start_in_line(t, ipos(start)));
        let mut joined = copy_range(self.lines[sl].as_slice(), 0, sc);
        let last = &self.lines[el];
        append_range(&mut joined, last.as_slice(), ec, last.len());
        let count = self.lines.len();
        assert(el < count);
        let mut tail = self.lines.split_off(el + 1);
        self.lines.truncate(sl + 1);
        self.lines.set(sl, joined);
        self.lines.append(&mut tail);
        proof {
            assert(t[sl as int].subrange(0, sc as int) =~= t[sl as int].take(sc as int));
            assert(t[el as int].subrange(ec as int, t[el as int].len() as int) =~= t[el as int].skip(ec as int));
            assert(self.text() =~= spec_delete(t, (sl as int, sc as int), ipos(end)));
        }
        self.dirty = true;
    }

    /// Insert (possibly multi-line) text at pos, splicing it into the
    /// existing line structure. Returns the cursor position at the end
    /// of the inserted text.
    pub fn insert_lines_at(&mut self, pos: Pos, text: &[Vec<char>]) -> (r: Pos)
        requires
            valid_pos(old(self).text(), ipos(pos)),
        ensures
            final(self).text() == spec_insert(old(self).text(), ipos(pos), lines_view(text@)),
            ipos(r) == spec_insert_end(ipos(pos), lines_view(text@)),
            final(self).dirty == (old(self).dirty || text@.len() > 0),
            final(self).filename == old(self).filename,
            final(self).line_ending == old(self).line_ending,
    {
        let (l, c) = pos;
        let ghost t = self.text();
        let ghost ins = lines_view(text@);
        let n = text.len();
        if n == 0 {
            return pos;
        }
        self.dirty = true;
        let line = &self.lines[l];
        let line_len = line.len();
        if n == 1 {
            let mut nl = copy_range(line.as_slice(), 0, c);
            let first = &text[0];
            append_range(&mut nl, first.as_slice(), 0, first.len());
            let first_len = first.len();
            append_range(&mut nl, self.lines[l].as_slice(), c, line_len);
            let total = nl.len();
            assert(c + first_len <= total);
            proof {
                assert(first@.subrange(0, first@.len() as int) =~= first@);
                assert(nl@ =~= t[l as int].take(c as int) + ins[0] + t[l as int].skip(c as int));
            }
            self.lines.set(l, nl);
            assert(self.text() =~= spec_insert(t, ipos(pos), ins));
            return (l, c + first_len);
        }
        let mut head = copy_range(line.as_slice(), 0, c);
        let first = &text[0];
        append_range(&mut head, first.as_slice(), 0, first.len());
        let lastfrag = &text[n - 1];
        let last_len = lastfrag.len();
        let mut last = copy_range(lastfrag.as_slice(), 0, last_len);
        append_range(&mut last, self.lines[l].as_slice(), c, line_len);
        proof {
            assert(first@.subrange(0, first@.len() as int) =~= first@);
            assert(head@ =~= t[l as int].take(c as int) + ins[0]);
            assert(last@ =~= ins[n - 1] + t[l as int].skip(c as int));
        }
        let count = self.lines.len();
        assert(l < count);
        let mut tail = self.lines.split_off(l + 1);
        self.lines.set(l, head);
        let mut i: usize = 1;
        while i < n - 1
            invariant
                1 <= i <= n - 1,
                n == text@.len(),
                self.dirty,
                self.filename == old(self).filename,
                self.line_ending == old(self).line_ending,
                n >= 2,
                ins == lines_view(text@),
                l < t.len(),
                self.lines@.len() == l + i,
                lines_view(self.lines@) == t.take(l as int).push(t[l as int].take(c as int) + ins[0])
                    + ins.subrange(1, i as int),
            decreases n - 1 - i,
        {
            let frag = &text[i];
            let ghost before = self.lines@;
            let copy = copy_range(frag.as_slice(), 0, frag.len());
            self.lines.push(copy);
            proof {
                lemma_lines_view_push(before, copy);
                assert(frag@.subrange(0, frag@.len() as int) =~= frag@);
                assert(lines_view(self.lines@) =~= t.take(l as int).push(
                    t[l as int].take(c as int) + ins[0],
                ) + ins.subrange(1, i + 1));
            }
            i = i + 1;
        }
        self.lines.push(last);
        self.lines.append(&mut tail);
        let new_count = self.lines.len();
        assert(self.text() =~= spec_insert(t, ipos(pos), ins));
        assert(l + n - 1 < new_count);
        (l + n - 1, last_len)
    }

    /// Search forward from `from` (inclusive) for `needle`, wrapping around
    /// to the start of the document if not found before the end. Returns
    /// the match's (start, end) and whether the search had to wrap. When
    /// `allow_wrap` is false, only the forward pass runs.
    pub fn find_from(&self, from: Pos, needle: &[char], case_sensitive: bool, allow_wrap: bool) -> (r: Option<
        (Pos, Pos, bool),
    >)
        requires
            self.wf(),
        ensures
            found_view(r) == spec_find_from(self.text(), ipos(from), needle@, case_sensitive, allow_wrap),
    {
        let ghost t = self.text();
        let n = needle.len();
        if n == 0 {
            return None;
        }
        let total = self.num_lines();
        let mut l = from.0;
        while l < total
            invariant
                total == t.len(),
                t == self.text(),
                n == needle@.len(),
                n > 0,
                from.0 <= l,
                forward_search(t, from.0 as int, ipos(from), needle@, case_sensitive) == forward_search(
                    t,
                    l as int,
                    ipos(from),
                    needle@,
                    case_sensitive,
                ),
            decreases total - l,
        {
            let start_col = if l == from.0 { from.1 } else { 0 };
            let line = &self.lines[l];
            match find_in_line(line.as_slice(), needle, start_col, case_sensitive) {
                Some(pos) => {
                    let line_len = line.len();
                    assert(pos + n <= line_len) by {
                        reveal_with_fuel(first_match, 1);
                        lemma_first_match_fits(t[l as int], needle@, start_col as int, case_sensitive);
                    }
                    assert(forward_search(t, l as int, ipos(from), needle@, case_sensitive) == Some((l as int, pos as int)));
                    return Some(((l, pos), (l, pos + n), false));
                },
                None => {},
            }
            l = l + 1;
        }
        if !allow_wrap {
            return None;
        }
        let last = if from.0 < total - 1 { from.0 } else { total - 1 };
        let mut l: usize = 0;
        while l <= last
            invariant
                total == t.len(),
                t == self.text(),
                n == needle@.len(),
                n > 0,
                allow_wrap,
                last < total,
                last == (if from.0 < total - 1 { from.0 as int } else { total - 1 }),
                forward_search(t, from.0 as int, ipos(from), needle@, case_sensitive) is None,
                wrap_search(t, 0, last as int, needle@, case_sensitive) == wrap_search(
                    t,
                    l as int,
                    last as int,
                    needle@,
                    case_sensitive,
                ),
            decreases last + 1 - l,
        {
            let line = &self.lines[l];
            match find_in_line(line.as_slice(), needle, 0, case_sensitive) {
                Some(pos) => {
                    let line_len = line.len();
                    assert(pos + n <= line_len) by {
                        lemma_first_match_fits(t[l as int], needle@, 0, case_sensitive);
                    }
                    assert(wrap_search(t, l as int, last as int, needle@, case_sensitive) == Some((l as int, pos as int)));
                    return Some(((l, pos), (l, pos + n), true));
                },
                None => {},
            }
            l = l + 1;
        }
        None
    }

    /// Records the outcome of writing `file_contents()` to `path`: on
    /// success the buffer takes that name and is no longer modified; on
    /// failure nothing changes and the error is handed back.
    pub fn save_as(&mut self, path: String, written: Result<(), String>) -> (r: Result<(), String>)
        ensures
            match written {
                Ok(()) => {
                    &&& r is Ok
                    &&& final(self).filename_view() == Some(path@)
                    &&& !final(self).dirty
                    &&& final(self).lines == old(self).lines
                    &&& final(self).line_ending == old(self).line_ending
                },
                Err(e) => r == Err::<(), String>(e) && *final(self) == *old(self),
            },
    {
        match written {
            Ok(()) => {
                self.filename = Some(path);
                self.dirty = false;
                Ok(())
            },
            Err(e) => Err(e),
        }
    }

    /// Records the outcome of writing `file_contents()` to this buffer's own
    /// file: without a file name this fails with `no filename set` (and
    /// nothing should have been written); otherwise success clears the
    /// modified flag and returns the name, and failure hands back the error.
    pub fn save(&mut self, written: Result<(), String>) -> (r: Result<String, String>)
        ensures
            match old(self).filename {
                None => r matches Err(e) && e@ == "no filename set"@ && *final(self) == *old(self),
                Some(name) => match written {
                    Ok(()) => {
                        &&& r matches Ok(p) && p@ == name@
                        &&& !final(self).dirty
                        &&& final(self).lines == old(self).lines
                        &&& final(self).filename == old(self).filename
                        &&& final(self).line_ending == old(self).line_ending
                    },
                    Err(e) => r == Err::<String, String>(e) && *final(self) == *old(self),
                },
            },
    {
        let path = match &self.filename {
            Some(p) => p.clone(),
            None => {
                return Err("no filename set".to_string());
            },
        };
        match written {
            Ok(()) => {
                self.dirty = false;
                Ok(path)
            },
            Err(e) => Err(e),
        }
    }
}

} // verus!
