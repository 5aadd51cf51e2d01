//! Laws of the buffer model: what one operation undoes of another, what a
//! file read gives back of a file write, and what a search finds.

use vstd::prelude::*;

use crate::buffer::{
    contains_crlf, first_match, join_lines, matches_at, normalize_crlf, replace_newlines, separator,
    spec_delete, spec_detect_line_ending, spec_extract, spec_file_text, spec_insert, spec_insert_end,
    spec_text_to_lines, split_lines, valid_pos, valid_range, LineEnding, forward_search, wrap_search,
    spec_find_from, pos_le,
};

verus! {

/// No character of `s` is an LF.
pub open spec fn no_newline(s: Seq<char>) -> bool {
    forall|i: int| 0 <= i < s.len() ==> s[i] != '\n'
}

/// `s` ends with a CR.
pub open spec fn ends_with_cr(s: Seq<char>) -> bool {
    s.len() > 0 && s.last() == '\r'
}

/// Lines that a file of style `le` holds faithfully: none contains an LF; in
/// CR LF style there are at least two of them (so that the style shows in
/// the file); in LF style no line but the last ends with a CR (which would
/// read back as part of a CR LF pair).
pub open spec fn storable(t: Seq<Seq<char>>, le: LineEnding) -> bool {
    &&& t.len() >= 1
    &&& forall|i: int| 0 <= i < t.len() ==> no_newline(#[trigger] t[i])
    &&& le == LineEnding::CrLf ==> t.len() >= 2
    &&& le == LineEnding::Lf ==> forall|i: int| 0 <= i < t.len() - 1 ==> !ends_with_cr(#[trigger] t[i])
}

// ---- extract, delete and insert ----------------------------------------

/// Deleting a range and inserting what it held at its start gives back the
/// original text, with the cursor at the range's end.
pub proof fn lemma_extract_delete_insert_roundtrip(t: Seq<Seq<char>>, s: (int, int), e: (int, int))
    requires
        valid_range(t, s, e),
    ensures
        spec_insert(spec_delete(t, s, e), s, spec_extract(t, s, e)) == t,
        spec_insert_end(s, spec_extract(t, s, e)) == e,
{
    let d = spec_delete(t, s, e);
    let x = spec_extract(t, s, e);
    let r = spec_insert(d, s, x);
    assert(d[s.0] == t[s.0].take(s.1) + t[e.0].skip(e.1));
    assert(d[s.0].take(s.1) =~= t[s.0].take(s.1));
    assert(d[s.0].skip(s.1) =~= t[e.0].skip(e.1));
    if s.0 == e.0 {
        assert(x.len() == 1);
        assert(t[s.0].take(s.1) + t[s.0].subrange(s.1, e.1) + t[s.0].skip(e.1) =~= t[s.0]);
        assert(r =~= t);
    } else {
        let n = x.len();
        assert(n == e.0 - s.0 + 1);
        assert(t[s.0].take(s.1) + t[s.0].skip(s.1) =~= t[s.0]);
        assert(t[e.0].take(e.1) + t[e.0].skip(e.1) =~= t[e.0]);
        assert(x.subrange(1, n - 1) =~= t.subrange(s.0 + 1, e.0));
        assert(d.skip(s.0 + 1) =~= t.skip(e.0 + 1));
        assert(d.take(s.0) =~= t.take(s.0));
        assert(r =~= t);
    }
}

/// Extracting the range that an insertion filled gives back the inserted
/// fragments.
pub proof fn lemma_insert_then_extract(t: Seq<Seq<char>>, p: (int, int), ins: Seq<Seq<char>>)
    requires
        valid_pos(t, p),
        ins.len() >= 1,
    ensures
        valid_range(spec_insert(t, p, ins), p, spec_insert_end(p, ins)),
        spec_extract(spec_insert(t, p, ins), p, spec_insert_end(p, ins)) == ins,
{
    let r = spec_insert(t, p, ins);
    let e = spec_insert_end(p, ins);
    let n = ins.len();
    let line = t[p.0];
    lemma_insert_shape(t, p, ins);
    if n == 1 {
        assert(r[p.0] == line.take(p.1) + ins[0] + line.skip(p.1));
        assert(r[p.0].subrange(p.1, e.1) =~= ins[0]);
        assert(spec_extract(r, p, e) =~= ins);
    } else {
        assert(r[p.0] == line.take(p.1) + ins[0]);
        assert(r[p.0].skip(p.1) =~= ins[0]);
        assert(r[e.0] == ins[n - 1] + line.skip(p.1));
        assert(r[e.0].take(e.1) =~= ins[n - 1]);
        assert(r.subrange(p.0 + 1, e.0) =~= ins.subrange(1, n - 1));
        assert(spec_extract(r, p, e) =~= ins);
    }
}

/// Deleting the range that an insertion filled gives back the text as it
/// was before the insertion.
pub proof fn lemma_insert_then_delete(t: Seq<Seq<char>>, p: (int, int), ins: Seq<Seq<char>>)
    requires
        valid_pos(t, p),
        ins.len() >= 1,
    ensures
        spec_delete(spec_insert(t, p, ins), p, spec_insert_end(p, ins)) == t,
{
    let r = spec_insert(t, p, ins);
    let e = spec_insert_end(p, ins);
    let n = ins.len();
    let line = t[p.0];
    lemma_insert_shape(t, p, ins);
    if n == 1 {
        assert(r[p.0] == line.take(p.1) + ins[0] + line.skip(p.1));
        assert(r[p.0].take(p.1) =~= line.take(p.1));
        assert(r[p.0].skip(e.1) =~= line.skip(p.1));
        assert(line.take(p.1) + line.skip(p.1) =~= line);
    } else {
        assert(r[p.0] == line.take(p.1) + ins[0]);
        assert(r[p.0 + n - 1] == ins[n - 1] + line.skip(p.1));
        assert(r[p.0].take(p.1) =~= line.take(p.1));
        assert(r[e.0].skip(e.1) =~= line.skip(p.1));
        assert(line.take(p.1) + line.skip(p.1) =~= line);
        assert(r.skip(e.0 + 1) =~= t.skip(p.0 + 1));
        assert(r.take(p.0) =~= t.take(p.0));
    }
    assert(spec_delete(r, p, e) =~= t);
}

/// Deleting a range leaves at least one line.
pub proof fn lemma_delete_keeps_a_line(t: Seq<Seq<char>>, s: (int, int), e: (int, int))
    requires
        valid_range(t, s, e),
    ensures
        spec_delete(t, s, e).len() == t.len() - (e.0 - s.0),
        spec_delete(t, s, e).len() >= 1,
{
}

/// Inserting fragments adds one line less than there are fragments, and the
/// returned end is a valid position of the new text.
pub proof fn lemma_insert_shape(t: Seq<Seq<char>>, p: (int, int), ins: Seq<Seq<char>>)
    requires
        valid_pos(t, p),
    ensures
        ins.len() == 0 ==> spec_insert(t, p, ins).len() == t.len(),
        ins.len() > 0 ==> spec_insert(t, p, ins).len() == t.len() + ins.len() - 1,
        valid_pos(spec_insert(t, p, ins), spec_insert_end(p, ins)),
{
    let n = ins.len();
    let r = spec_insert(t, p, ins);
    let end = spec_insert_end(p, ins);
    if n == 1 {
        assert(r[p.0] == t[p.0].take(p.1) + ins[0] + t[p.0].skip(p.1));
    } else if n >= 2 {
        assert(r[p.0 + n - 1] == ins[n - 1] + t[p.0].skip(p.1));
    }
}

// ---- text and lines ------------------------------------------------------

proof fn lemma_join_push(t: Seq<Seq<char>>, x: Seq<char>)
    requires
        t.len() >= 1,
    ensures
        join_lines(t.push(x)) == join_lines(t) + seq!['\n'] + x,
{
    assert(t.push(x).drop_last() =~= t);
}

proof fn lemma_replace_concat(a: Seq<char>, b: Seq<char>, sep: Seq<char>)
    ensures
        replace_newlines(a + b, sep) == replace_newlines(a, sep) + replace_newlines(b, sep),
    decreases b.len(),
{
    if b.len() == 0 {
        assert(a + b =~= a);
        assert(replace_newlines(a, sep) + replace_newlines(b, sep) =~= replace_newlines(a, sep));
    } else {
        assert((a + b).drop_last() =~= a + b.drop_last());
        lemma_replace_concat(a, b.drop_last(), sep);
        if b.last() == '\n' {
            assert(replace_newlines(a + b, sep) =~= replace_newlines(a, sep) + replace_newlines(b, sep));
        } else {
            assert(replace_newlines(a + b, sep) =~= replace_newlines(a, sep) + replace_newlines(b, sep));
        }
    }
}

proof fn lemma_replace_no_newline(s: Seq<char>, sep: Seq<char>)
    requires
        no_newline(s),
    ensures
        replace_newlines(s, sep) == s,
    decreases s.len(),
{
    if s.len() > 0 {
        lemma_replace_no_newline(s.drop_last(), sep);
        assert(s.drop_last().push(s.last()) =~= s);
    }
}

proof fn lemma_replace_lf_identity(s: Seq<char>)
    ensures
        replace_newlines(s, seq!['\n']) == s,
    decreases s.len(),
{
    if s.len() > 0 {
        lemma_replace_lf_identity(s.drop_last());
        assert(s.drop_last() + seq!['\n'] =~= s.drop_last().push('\n'));
        assert(s.drop_last().push(s.last()) =~= s);
    }
}

proof fn lemma_norm_concat(a: Seq<char>, b: Seq<char>)
    requires
        !(ends_with_cr(a) && b.len() > 0 && b[0] == '\n'),
    ensures
        normalize_crlf(a + b) == normalize_crlf(a) + normalize_crlf(b),
    decreases b.len(),
{
    let s = a + b;
    if b.len() == 0 {
        assert(s =~= a);
        assert(normalize_crlf(a) + normalize_crlf(b) =~= normalize_crlf(a));
    } else if s.len() >= 2 && s.last() == '\n' && s[s.len() - 2] == '\r' {
        if b.len() >= 2 {
            assert(b[b.len() - 2] == s[s.len() - 2]);
            assert(s.take(s.len() - 2) =~= a + b.take(b.len() - 2));
            if b.len() > 2 {
                assert(b.take(b.len() - 2)[0] == b[0]);
            }
            lemma_norm_concat(a, b.take(b.len() - 2));
            assert(normalize_crlf(s) =~= normalize_crlf(a) + normalize_crlf(b));
        } else {
            assert(s[s.len() - 2] == a.last());
            assert(false);
        }
    } else {
        assert(s.drop_last() =~= a + b.drop_last());
        if b.len() >= 2 {
            assert(b.last() == s.last());
            assert(b[b.len() - 2] == s[s.len() - 2]);
            assert(b.drop_last()[0] == b[0]);
        }
        lemma_norm_concat(a, b.drop_last());
        assert(normalize_crlf(s) =~= normalize_crlf(a) + normalize_crlf(b));
    }
}

proof fn lemma_norm_no_newline(s: Seq<char>)
    requires
        no_newline(s),
    ensures
        normalize_crlf(s) == s,
    decreases s.len(),
{
    if s.len() > 0 {
        lemma_norm_no_newline(s.drop_last());
        assert(s.drop_last().push(s.last()) =~= s);
    }
}

proof fn lemma_split_concat(a: Seq<char>, b: Seq<char>)
    ensures
        split_lines(a + seq!['\n'] + b) == split_lines(a) + split_lines(b),
    decreases b.len(),
{
    let s = a + seq!['\n'] + b;
    if b.len() == 0 {
        assert(s =~= a.push('\n'));
        assert(s.drop_last() =~= a);
        assert(split_lines(s) =~= split_lines(a) + split_lines(b));
    } else {
        assert(s.drop_last() =~= a + seq!['\n'] + b.drop_last());
        lemma_split_concat(a, b.drop_last());
        lemma_split_nonempty(b.drop_last());
        assert(split_lines(s) =~= split_lines(a) + split_lines(b));
    }
}

pub(crate) proof fn lemma_split_nonempty(s: Seq<char>)
    ensures
        split_lines(s).len() >= 1,
    decreases s.len(),
{
    if s.len() > 0 {
        lemma_split_nonempty(s.drop_last());
    }
}

proof fn lemma_split_no_newline(s: Seq<char>)
    requires
        no_newline(s),
    ensures
        split_lines(s) == seq![s],
    decreases s.len(),
{
    if s.len() > 0 {
        lemma_split_no_newline(s.drop_last());
        assert(s.drop_last().push(s.last()) =~= s);
        assert(s.last() != '\n');
        assert(split_lines(s) =~= seq![s]);
    } else {
        assert(s =~= Seq::<char>::empty());
    }
}

proof fn lemma_file_text_push(t: Seq<Seq<char>>, x: Seq<char>, le: LineEnding)
    requires
        t.len() >= 1,
        no_newline(x),
    ensures
        spec_file_text(t.push(x), le) == spec_file_text(t, le) + separator(le) + x,
{
    let sep = separator(le);
    lemma_join_push(t, x);
    lemma_replace_concat(join_lines(t) + seq!['\n'], x, sep);
    lemma_replace_concat(join_lines(t), seq!['\n'], sep);
    lemma_replace_no_newline(x, sep);
    assert(seq!['\n'].drop_last() =~= Seq::<char>::empty());
    assert(replace_newlines(Seq::<char>::empty(), sep) =~= Seq::<char>::empty());
    assert(seq!['\n'].last() == '\n');
    assert(replace_newlines(seq!['\n'], sep) =~= sep);
}

proof fn lemma_file_text_single(x: Seq<char>, le: LineEnding)
    requires
        no_newline(x),
    ensures
        spec_file_text(seq![x], le) == x,
{
    lemma_replace_no_newline(x, separator(le));
}

proof fn lemma_file_text_last_cr(t: Seq<Seq<char>>, le: LineEnding)
    requires
        t.len() >= 1,
        forall|i: int| 0 <= i < t.len() ==> no_newline(#[trigger] t[i]),
        le == LineEnding::Lf,
    ensures
        ends_with_cr(spec_file_text(t, le)) ==> ends_with_cr(t.last()),
{
    if t.len() == 1 {
        lemma_file_text_single(t[0], le);
    } else {
        let p = t.drop_last();
        assert(p.push(t.last()) =~= t);
        assert(no_newline(t[t.len() - 1]));
        lemma_file_text_push(p, t.last(), le);
    }
}

proof fn lemma_file_text_roundtrip_lines(t: Seq<Seq<char>>, le: LineEnding)
    requires
        t.len() >= 1,
        forall|i: int| 0 <= i < t.len() ==> no_newline(#[trigger] t[i]),
        le == LineEnding::Lf ==> forall|i: int| 0 <= i < t.len() - 1 ==> !ends_with_cr(#[trigger] t[i]),
    ensures
        spec_text_to_lines(spec_file_text(t, le)) == t,
        le == LineEnding::Lf ==> !contains_crlf(spec_file_text(t, le)),
    decreases t.len(),
{
    assert(no_newline(t[t.len() - 1]));
    if t.len() == 1 {
        let x = t[0];
        lemma_file_text_single(x, le);
        lemma_norm_no_newline(x);
        lemma_split_no_newline(x);
        assert(seq![x] =~= t);
        if le == LineEnding::Lf {
            assert forall|i: int| 0 <= i && i + 1 < x.len() implies !(#[trigger] x[i] == '\r' && x[i + 1]
                == '\n') by {
                assert(x[i + 1] != '\n');
            }
        }
    } else {
        let p = t.drop_last();
        let x = t.last();
        assert(p.push(x) =~= t);
        assert forall|i: int| 0 <= i < p.len() implies no_newline(#[trigger] p[i]) by {
            assert(p[i] == t[i]);
        }
        if le == LineEnding::Lf {
            assert forall|i: int| 0 <= i < p.len() - 1 implies !ends_with_cr(#[trigger] p[i]) by {
                assert(p[i] == t[i]);
            }
        }
        lemma_file_text_roundtrip_lines(p, le);
        lemma_file_text_push(p, x, le);
        let fp = spec_file_text(p, le);
        let f = spec_file_text(t, le);
        lemma_norm_no_newline(x);
        lemma_split_no_newline(x);
        match le {
            LineEnding::CrLf => {
                let a = fp + seq!['\r', '\n'];
                assert(f =~= a + x);
                if x.len() > 0 {
                    assert(x[0] != '\n');
                }
                lemma_norm_concat(a, x);
                assert(a.take(a.len() - 2) =~= fp);
                assert(normalize_crlf(a) == normalize_crlf(fp).push('\n'));
                assert(normalize_crlf(f) =~= normalize_crlf(fp) + seq!['\n'] + x);
                lemma_split_concat(normalize_crlf(fp), x);
                assert(split_lines(normalize_crlf(f)) =~= t);
            },
            LineEnding::Lf => {
                let b = seq!['\n'] + x;
                assert(f =~= fp + b);
                assert(!ends_with_cr(p.last())) by {
                    assert(p.last() == t[t.len() - 2]);
                }
                lemma_file_text_last_cr(p, le);
                lemma_norm_concat(fp, b);
                lemma_norm_concat(seq!['\n'], x);
                assert(seq!['\n'].drop_last() =~= Seq::<char>::empty());
                assert(normalize_crlf(Seq::<char>::empty()) =~= Seq::<char>::empty());
                assert(seq!['\n'].last() == '\n');
                assert(normalize_crlf(seq!['\n']) =~= seq!['\n']);
                assert(normalize_crlf(f) =~= normalize_crlf(fp) + seq!['\n'] + x);
                lemma_split_concat(normalize_crlf(fp), x);
                assert(split_lines(normalize_crlf(f)) =~= t);
                assert forall|i: int| 0 <= i && i + 1 < f.len() implies !(#[trigger] f[i] == '\r' && f[i
                    + 1] == '\n') by {
                    if i + 1 < fp.len() {
                        assert(fp[i] == f[i] && fp[i + 1] == f[i + 1]);
                    } else if i + 1 == fp.len() {
                        assert(f[i] == fp.last());
                    } else if i == fp.len() {
                        assert(f[i] == '\n');
                    } else {
                        assert(f[i + 1] == x[i + 1 - fp.len() - 1]);
                    }
                }
            },
        }
    }
}

/// Writing lines to a file in style `le` and reading the file back gives
/// the same lines and the same line ending style.
pub proof fn lemma_save_load_roundtrip(t: Seq<Seq<char>>, le: LineEnding)
    requires
        storable(t, le),
    ensures
        spec_text_to_lines(spec_file_text(t, le)) == t,
        spec_detect_line_ending(spec_file_text(t, le)) == le,
{
    lemma_file_text_roundtrip_lines(t, le);
    if le == LineEnding::CrLf {
        let p = t.drop_last();
        let x = t.last();
        assert(p.push(x) =~= t);
        assert(no_newline(t[t.len() - 1]));
        lemma_file_text_push(p, x, le);
        let fp = spec_file_text(p, le);
        let f = spec_file_text(t, le);
        assert(f[fp.len() as int] == '\r');
        assert(f[fp.len() as int + 1] == '\n');
    }
}

/// Joining lines with LF and splitting the result again gives back the
/// lines, when none contains an LF and none but the last ends with a CR.
pub proof fn lemma_lines_text_roundtrip(t: Seq<Seq<char>>)
    requires
        storable(t, LineEnding::Lf),
    ensures
        spec_text_to_lines(join_lines(t)) == t,
{
    lemma_replace_lf_identity(join_lines(t));
    lemma_file_text_roundtrip_lines(t, LineEnding::Lf);
}

proof fn lemma_join_split(s: Seq<char>)
    ensures
        join_lines(split_lines(s)) == s,
    decreases s.len(),
{
    if s.len() > 0 {
        let p = s.drop_last();
        lemma_join_split(p);
        lemma_split_nonempty(p);
        let sp = split_lines(p);
        if s.last() == '\n' {
            lemma_join_push(sp, Seq::<char>::empty());
            assert(join_lines(split_lines(s)) =~= s);
        } else {
            lemma_join_last(sp, s.last());
            assert(join_lines(split_lines(s)) =~= s);
        }
    }
}

proof fn lemma_join_last(t: Seq<Seq<char>>, c: char)
    requires
        t.len() >= 1,
    ensures
        join_lines(t.update(t.len() - 1, t.last().push(c))) == join_lines(t).push(c),
{
    let u = t.update(t.len() - 1, t.last().push(c));
    if t.len() == 1 {
    } else {
        assert(u.drop_last() =~= t.drop_last());
        assert(join_lines(u) =~= join_lines(t).push(c));
    }
}

/// Splitting text into lines and joining them with LF gives the text with
/// every CR LF turned into LF.
pub proof fn lemma_text_lines_roundtrip(text: Seq<char>)
    ensures
        join_lines(spec_text_to_lines(text)) == normalize_crlf(text),
{
    lemma_join_split(normalize_crlf(text));
}

/// Every LF of `t` comes right after a CR.
pub open spec fn lf_after_cr(t: Seq<char>) -> bool {
    forall|i: int| 0 <= i < t.len() && #[trigger] t[i] == '\n' ==> i > 0 && t[i - 1] == '\r'
}

proof fn lemma_norm_without_crlf(t: Seq<char>)
    requires
        !contains_crlf(t),
    ensures
        normalize_crlf(t) == t,
    decreases t.len(),
{
    if t.len() > 0 {
        let p = t.drop_last();
        if t.len() >= 2 && t.last() == '\n' && t[t.len() - 2] == '\r' {
            assert(t[t.len() - 2] == '\r' && t[t.len() - 2 + 1] == '\n');
        }
        assert(!contains_crlf(p)) by {
            if contains_crlf(p) {
                let i = choose|i: int| 0 <= i && i + 1 < p.len() && #[trigger] p[i] == '\r' && p[i + 1] == '\n';
                assert(t[i] == '\r' && t[i + 1] == '\n');
            }
        }
        lemma_norm_without_crlf(p);
        assert(p.push(t.last()) =~= t);
    }
}

proof fn lemma_crlf_text_roundtrip(t: Seq<char>)
    requires
        lf_after_cr(t),
    ensures
        replace_newlines(normalize_crlf(t), seq!['\r', '\n']) == t,
    decreases t.len(),
{
    let sep = seq!['\r', '\n'];
    if t.len() > 0 {
        if t.last() == '\n' {
            let n = t.len() as int;
            assert(t[n - 1] == '\n');
            let p = t.take(n - 2);
            assert forall|i: int| 0 <= i < p.len() && #[trigger] p[i] == '\n' implies i > 0 && p[i - 1] == '\r' by {
                assert(t[i] == '\n');
            }
            lemma_crlf_text_roundtrip(p);
            let np = normalize_crlf(p);
            assert(np.push('\n').drop_last() =~= np);
            assert(p + sep =~= t);
        } else {
            let p = t.drop_last();
            assert forall|i: int| 0 <= i < p.len() && #[trigger] p[i] == '\n' implies i > 0 && p[i - 1] == '\r' by {
                assert(t[i] == '\n');
            }
            lemma_crlf_text_roundtrip(p);
            let np = normalize_crlf(p);
            assert(np.push(t.last()).drop_last() =~= np);
            assert(p.push(t.last()) =~= t);
        }
    }
}

/// Reading file contents into lines and writing them back in the detected
/// line ending style gives the same contents, provided the file does not
/// mix styles (where it holds a CR LF, every LF comes after a CR).
pub proof fn lemma_load_save_roundtrip(text: Seq<char>)
    requires
        contains_crlf(text) ==> lf_after_cr(text),
    ensures
        spec_file_text(spec_text_to_lines(text), spec_detect_line_ending(text)) == text,
{
    lemma_text_lines_roundtrip(text);
    if contains_crlf(text) {
        lemma_crlf_text_roundtrip(text);
    } else {
        lemma_norm_without_crlf(text);
        lemma_replace_lf_identity(text);
    }
}

// ---- search --------------------------------------------------------------

proof fn lemma_first_match_sound(line: Seq<char>, needle: Seq<char>, from: int, cs: bool)
    requires
        0 <= from,
    ensures
        first_match(line, needle, from, cs) matches Some(i) ==> from <= i && matches_at(line, needle, i, cs)
            && forall|k: int| from <= k < i ==> !matches_at(line, needle, k, cs),
        first_match(line, needle, from, cs) is None ==> forall|k: int|
            from <= k ==> !#[trigger] matches_at(line, needle, k, cs),
    decreases line.len() - from,
{
    if from + needle.len() > line.len() {
    } else if matches_at(line, needle, from, cs) {
    } else {
        lemma_first_match_sound(line, needle, from + 1, cs);
    }
}

proof fn lemma_forward_search(t: Seq<Seq<char>>, l: int, from: (int, int), needle: Seq<char>, cs: bool)
    requires
        0 <= from.0 <= l,
        0 <= from.1,
    ensures
        forward_search(t, l, from, needle, cs) matches Some(p) ==> l <= p.0 < t.len() && pos_le(from, p)
            && matches_at(t[p.0], needle, p.1, cs) && forall|q: (int, int)|
            #![trigger matches_at(t[q.0], needle, q.1, cs)]
            l <= q.0 && pos_le(from, q) && pos_le(q, p) && q != p ==> !matches_at(t[q.0], needle, q.1, cs),
        forward_search(t, l, from, needle, cs) is None ==> forall|p: (int, int)|
            #![trigger matches_at(t[p.0], needle, p.1, cs)]
            l <= p.0 < t.len() && pos_le(from, p) ==> !matches_at(t[p.0], needle, p.1, cs),
    decreases t.len() - l,
{
    if l < t.len() {
        let start = if l == from.0 { from.1 } else { 0 };
        lemma_first_match_sound(t[l], needle, start, cs);
        lemma_forward_search(t, l + 1, from, needle, cs);
    }
}

proof fn lemma_wrap_search(t: Seq<Seq<char>>, l: int, last: int, needle: Seq<char>, cs: bool)
    requires
        0 <= l,
    ensures
        wrap_search(t, l, last, needle, cs) is None ==> forall|q: (int, int)|
            #![trigger matches_at(t[q.0], needle, q.1, cs)]
            l <= q.0 <= last && q.0 < t.len() ==> !matches_at(t[q.0], needle, q.1, cs),
        wrap_search(t, l, last, needle, cs) matches Some(p) ==> l <= p.0 <= last && p.0 < t.len()
            && matches_at(t[p.0], needle, p.1, cs) && forall|q: (int, int)|
            #![trigger matches_at(t[q.0], needle, q.1, cs)]
            l <= q.0 && pos_le(q, p) && q != p ==> !matches_at(t[q.0], needle, q.1, cs),
    decreases last + 1 - l,
{
    if l <= last && l < t.len() {
        lemma_first_match_sound(t[l], needle, 0, cs);
        lemma_wrap_search(t, l + 1, last, needle, cs);
    }
}

/// A search finds an occurrence of the needle, with the end just past it;
/// a search that did not wrap found the first occurrence at or after where
/// it started; a search that wrapped found none there, and found the first
/// occurrence from the start of the text; and a search without wrapping
/// finds nothing only when no occurrence starts at or after its starting
/// point, and a search with wrapping finds nothing only when the needle
/// occurs nowhere in the text.
pub proof fn lemma_find_sound(
    t: Seq<Seq<char>>,
    from: (int, int),
    needle: Seq<char>,
    cs: bool,
    allow_wrap: bool,
)
    requires
        t.len() >= 1,
        0 <= from.0,
        0 <= from.1,
    ensures
        spec_find_from(t, from, needle, cs, allow_wrap) matches Some((s, e, wrapped)) ==> {
            &&& 0 <= s.0 < t.len()
            &&& matches_at(t[s.0], needle, s.1, cs)
            &&& e == (s.0, s.1 + needle.len())
            &&& valid_pos(t, e)
            &&& wrapped ==> allow_wrap
            &&& !wrapped ==> pos_le(from, s)
            &&& !wrapped ==> forall|q: (int, int)|
                #![trigger matches_at(t[q.0], needle, q.1, cs)]
                0 <= q.0 && pos_le(from, q) && pos_le(q, s) && q != s ==> !matches_at(t[q.0], needle, q.1, cs)
            &&& wrapped ==> forall|q: (int, int)|
                #![trigger matches_at(t[q.0], needle, q.1, cs)]
                0 <= q.0 < t.len() && pos_le(from, q) ==> !matches_at(t[q.0], needle, q.1, cs)
            &&& wrapped ==> forall|q: (int, int)|
                #![trigger matches_at(t[q.0], needle, q.1, cs)]
                0 <= q.0 && pos_le(q, s) && q != s ==> !matches_at(t[q.0], needle, q.1, cs)
        },
        needle.len() > 0 && spec_find_from(t, from, needle, cs, false) is None ==> forall|p: (int, int)|
            #![trigger matches_at(t[p.0], needle, p.1, cs)]
            0 <= p.0 < t.len() && pos_le(from, p) ==> !matches_at(t[p.0], needle, p.1, cs),
        needle.len() > 0 && spec_find_from(t, from, needle, cs, true) is None ==> forall|p: (int, int)|
            #![trigger matches_at(t[p.0], needle, p.1, cs)]
            0 <= p.0 < t.len() ==> !matches_at(t[p.0], needle, p.1, cs),
{
    lemma_forward_search(t, from.0, from, needle, cs);
    let last = if from.0 < t.len() - 1 { from.0 } else { t.len() - 1 };
    lemma_wrap_search(t, 0, last, needle, cs);
}

} // verus!
