//! Laws of the editor's state machine: what one command undoes of
//! another, and what a finished "replace all" leaves behind.

use vstd::prelude::*;

use crate::buffer::{
    matches_at, normalize_crlf, pos_le, spec_delete, spec_extract, spec_find_from, spec_insert_end,
    spec_text_to_lines, valid_pos, valid_range,
};
use crate::buffer_laws::{
    lemma_delete_keeps_a_line, lemma_find_sound, lemma_insert_shape, lemma_insert_then_delete,
    lemma_insert_then_extract, lemma_split_nonempty,
};
use crate::editor_model::{
    advance, class_at, lemma_skip_forward, retreat, skip_back_spaces, skip_backward, skip_forward,
    spec_word_left_pos, spec_word_right_pos, CharClass,
    adjusted_pos, lemma_adjusted_pos_valid, replace_limit, spec_delete_char_left, spec_insert_char,
    spec_begin_replace, spec_command, spec_execute, spec_move_block, spec_newline, spec_replace_confirm_key, spec_normalized_marks, spec_replace_at, spec_replace_loop,
    EditorModel,
};
use crate::keymap::{spec_translate, Command, KeyCode, KeyEvent, PrefixState};

verus! {

/// Typing a character in insert mode and then pressing backspace gives
/// back the text and the cursor; only the modified flag is set.
pub proof fn lemma_type_then_backspace(m: EditorModel, c: char)
    requires
        m.wf(),
        m.insert_mode,
    ensures
        spec_delete_char_left(spec_insert_char(m, c)) == (EditorModel { dirty: true, ..m }),
{
    let m1 = spec_insert_char(m, c);
    let line = m.lines[m.cur_line];
    assert(line.insert(m.cur_col, c).remove(m.cur_col) =~= line);
    assert(m1.lines.update(m.cur_line, m1.lines[m.cur_line].remove(m.cur_col)) =~= m.lines);
}

/// Pressing Enter and then backspace gives back the text and the cursor;
/// only the modified flag is set.
pub proof fn lemma_enter_then_backspace(m: EditorModel)
    requires
        m.wf(),
    ensures
        spec_delete_char_left(spec_newline(m)) == (EditorModel { dirty: true, ..m }),
{
    let m1 = spec_newline(m);
    let line = m.lines[m.cur_line];
    assert(line.take(m.cur_col) + line.skip(m.cur_col) =~= line);
    let joined = m1.lines.update(m.cur_line, m1.lines[m.cur_line] + m1.lines[m.cur_line + 1]).remove(
        m.cur_line + 1,
    );
    assert(joined =~= m.lines);
}

/// A key press starts a prefix only from the idle state and then executes
/// nothing; the key after a prefix always ends it.
pub proof fn lemma_prefix_keys(ev: KeyEvent, p: PrefixState)
    ensures
        spec_translate(ev, p).1 != PrefixState::NoPrefix ==> p == PrefixState::NoPrefix
            && spec_translate(ev, p).0 == Command::NoOp,
        p != PrefixState::NoPrefix ==> spec_translate(ev, p).1 == PrefixState::NoPrefix,
{
}

/// Moving a marked block to a cursor outside it: the block lands where the
/// cursor was (shifted by what the removal took away) and is marked there;
/// the marked text is the block's text, taking it out again gives the text
/// without the block, and the cursor ends just after it.
pub proof fn lemma_move_block(m: EditorModel, s: (int, int), e: (int, int))
    requires
        m.wf(),
        spec_normalized_marks(m) == Some((s, e)),
        valid_range(m.lines, s, e),
        !(pos_le(s, m.cursor()) && pos_le(m.cursor(), e)),
    ensures
        ({
            let p = m.cursor();
            let r = spec_move_block(m);
            let s2 = if pos_le(p, s) {
                p
            } else if p.0 == e.0 {
                (s.0, s.1 + p.1 - e.1)
            } else {
                (p.0 - (e.0 - s.0), p.1)
            };
            &&& r.mark_start == Some(s2)
            &&& r.mark_end == Some(r.cursor())
            &&& valid_range(r.lines, s2, r.cursor())
            &&& spec_extract(r.lines, s2, r.cursor()) == spec_extract(m.lines, s, e)
            &&& spec_delete(r.lines, s2, r.cursor()) == spec_delete(m.lines, s, e)
            &&& r.message == "Block moved"@
        }),
{
    let t = m.lines;
    let b = spec_extract(t, s, e);
    let d = spec_delete(t, s, e);
    let p = m.cursor();
    lemma_adjusted_pos_valid(t, s, e, p);
    let adj = adjusted_pos(p, s, e);
    lemma_insert_then_extract(d, adj, b);
    lemma_insert_then_delete(d, adj, b);
}

/// Answering "yes" to "Replace this occurrence?": the replacement takes
/// the match's place (it stands at the match's start, and taking it out
/// again gives the text with the match taken out), and the search goes on
/// from the end of the replacement. The next occurrence offered is the first
/// one at or after that end; when there is none, the cursor rests at that
/// end and no occurrence lies at or after it.
pub proof fn lemma_replace_yes(m: EditorModel, ev: KeyEvent)
    requires
        m.wf(),
        m.replace_state is Some,
        m.replace_state->Some_0.search.len() > 0,
        valid_range(m.lines, m.replace_state->Some_0.match_start, m.replace_state->Some_0.match_end),
        ev.code == KeyCode::Char('y') || ev.code == KeyCode::Char('Y'),
    ensures
        ({
            let st = m.replace_state->Some_0;
            let s = st.match_start;
            let ins = spec_text_to_lines(st.replace);
            let end = spec_insert_end(s, ins);
            let r = spec_replace_confirm_key(m, ev);
            &&& valid_range(r.lines, s, end)
            &&& spec_extract(r.lines, s, end) == ins
            &&& spec_delete(r.lines, s, end) == spec_delete(m.lines, s, st.match_end)
            &&& match r.replace_state {
                Some(next) => {
                    &&& pos_le(end, next.match_start)
                    &&& 0 <= next.match_start.0 < r.lines.len()
                    &&& matches_at(r.lines[next.match_start.0], st.search, next.match_start.1, false)
                    &&& next.match_end == (next.match_start.0, next.match_start.1 + st.search.len())
                    &&& r.cursor() == next.match_start
                    &&& forall|q: (int, int)|
                        #![trigger matches_at(r.lines[q.0], st.search, q.1, false)]
                        0 <= q.0 && pos_le(end, q) && pos_le(q, next.match_start) && q != next.match_start
                            ==> !matches_at(r.lines[q.0], st.search, q.1, false)
                },
                None => {
                    &&& r.cursor() == end
                    &&& forall|q: (int, int)|
                        #![trigger matches_at(r.lines[q.0], st.search, q.1, false)]
                        0 <= q.0 < r.lines.len() && pos_le(end, q) ==> !matches_at(
                            r.lines[q.0],
                            st.search,
                            q.1,
                            false,
                        )
                },
            }
        }),
{
    let st = m.replace_state->Some_0;
    let t = m.lines;
    let s = st.match_start;
    let e = st.match_end;
    let ins = spec_text_to_lines(st.replace);
    let end = spec_insert_end(s, ins);
    let d = spec_delete(t, s, e);
    lemma_delete_keeps_a_line(t, s, e);
    assert(d[s.0] == t[s.0].take(s.1) + t[e.0].skip(e.1));
    assert(valid_pos(d, s));
    lemma_split_nonempty(normalize_crlf(st.replace));
    lemma_insert_shape(d, s, ins);
    lemma_insert_then_extract(d, s, ins);
    lemma_insert_then_delete(d, s, ins);
    reveal(spec_replace_loop);
    let m0 = EditorModel { replace_state: None, ..m };
    let m1 = spec_replace_at(m0, s, e, st.replace);
    assert(m1.lines == crate::buffer::spec_insert(d, s, ins));
    assert(m1.cursor() == end);
    lemma_find_sound(m1.lines, end, st.search, false, false);
}

// ---- word movement -------------------------------------------------------

/// The position after the last character of the text.
pub open spec fn text_end(t: Seq<Seq<char>>) -> (int, int) {
    (t.len() - 1, t[t.len() - 1].len() as int)
}

/// From `p` to `mid` runs the word (or punctuation run) under `p`, as far as
/// it goes; from `mid` to `r` runs nothing but space (line ends count as
/// space).
pub open spec fn run_then_spaces(t: Seq<Seq<char>>, p: (int, int), mid: (int, int), r: (int, int)) -> bool {
    &&& valid_pos(t, mid)
    &&& pos_le(p, mid)
    &&& pos_le(mid, r)
    &&& forall|q: (int, int)|
        #![trigger class_at(t, q)]
        valid_pos(t, q) && pos_le(p, q) && pos_le(q, mid) && q != mid ==> class_at(t, q) == class_at(t, p)
            && class_at(t, p) != CharClass::Space
    &&& class_at(t, p) != CharClass::Space ==> mid == text_end(t) || class_at(t, mid) != class_at(t, p)
    &&& forall|q: (int, int)|
        #![trigger class_at(t, q)]
        valid_pos(t, q) && pos_le(mid, q) && pos_le(q, r) && q != r ==> class_at(t, q) == CharClass::Space
}

proof fn lemma_next_position(t: Seq<Seq<char>>, p: (int, int), q: (int, int))
    requires
        valid_pos(t, p),
        valid_pos(t, q),
        pos_le(p, q),
        q != p,
    ensures
        advance(t, p) matches Some(a) && valid_pos(t, a) && pos_le(a, q),
{
}

proof fn lemma_skip_run(t: Seq<Seq<char>>, p: (int, int), cls: CharClass)
    requires
        valid_pos(t, p),
    ensures
        ({
            let f = skip_forward(t, p, cls);
            &&& f == text_end(t) || class_at(t, f) != cls
            &&& forall|q: (int, int)|
                #![trigger class_at(t, q)]
                valid_pos(t, q) && pos_le(p, q) && pos_le(q, f) && q != f ==> class_at(t, q) == cls
        }),
    decreases t.len() - p.0, t[p.0].len() - p.1,
{
    lemma_skip_forward(t, p, cls);
    if class_at(t, p) == cls {
        match advance(t, p) {
            Some(a) => {
                lemma_skip_run(t, a, cls);
                lemma_skip_forward(t, a, cls);
                let f = skip_forward(t, p, cls);
                assert forall|q: (int, int)|
                    valid_pos(t, q) && pos_le(p, q) && pos_le(q, f) && q != f implies #[trigger] class_at(t, q)
                    == cls by {
                    if q != p {
                        lemma_next_position(t, p, q);
                    }
                }
            },
            None => {},
        }
    }
}

/// Word-right stays in the text and never moves back; it lands on a
/// character that is not a space, unless it reached the end of the text;
/// and on the way it passes first the rest of the word (or punctuation run)
/// under the cursor, all of it, then only spaces and line ends.
pub proof fn lemma_word_right_lands(t: Seq<Seq<char>>, p: (int, int))
    requires
        valid_pos(t, p),
    ensures
        ({
            let r = spec_word_right_pos(t, p);
            &&& valid_pos(t, r)
            &&& pos_le(p, r)
            &&& r == text_end(t) || class_at(t, r) != CharClass::Space
            &&& exists|mid: (int, int)| #[trigger] run_then_spaces(t, p, mid, r)
        }),
{
    let start = class_at(t, p);
    let r = spec_word_right_pos(t, p);
    if start != CharClass::Space {
        lemma_skip_run(t, p, start);
        lemma_skip_forward(t, p, start);
        let mid = skip_forward(t, p, start);
        lemma_skip_run(t, mid, CharClass::Space);
        lemma_skip_forward(t, mid, CharClass::Space);
        assert(run_then_spaces(t, p, mid, r));
    } else {
        lemma_skip_run(t, p, CharClass::Space);
        lemma_skip_forward(t, p, CharClass::Space);
        assert(run_then_spaces(t, p, p, r));
    }
}

/// `q` comes right before `r`: no position of the text lies between them.
pub open spec fn just_before(t: Seq<Seq<char>>, q: (int, int), r: (int, int)) -> bool {
    &&& valid_pos(t, q)
    &&& pos_le(q, r)
    &&& q != r
    &&& forall|x: (int, int)| valid_pos(t, x) && pos_le(q, x) && pos_le(x, r) ==> x == q || x == r
}

/// From `r` to `mid` runs a word (or punctuation run) of the class at `r`;
/// from `mid` to `p` runs nothing but space (line ends count as space).
pub open spec fn run_back_then_spaces(t: Seq<Seq<char>>, r: (int, int), mid: (int, int), p: (int, int)) -> bool {
    &&& valid_pos(t, mid)
    &&& pos_le(r, mid)
    &&& pos_le(mid, p)
    &&& forall|x: (int, int)|
        #![trigger class_at(t, x)]
        valid_pos(t, x) && pos_le(r, x) && pos_le(x, mid) && x != mid ==> class_at(t, x) == class_at(t, r)
            && class_at(t, r) != CharClass::Space
    &&& forall|x: (int, int)|
        #![trigger class_at(t, x)]
        valid_pos(t, x) && pos_le(mid, x) && pos_le(x, p) && x != p ==> class_at(t, x) == CharClass::Space
}

proof fn lemma_previous_position(t: Seq<Seq<char>>, r: (int, int))
    requires
        valid_pos(t, r),
        r != (0int, 0int),
    ensures
        retreat(t, r) matches Some(b) && just_before(t, b, r) && forall|x: (int, int)|
            valid_pos(t, x) && #[trigger] pos_le(x, r) && x != r ==> pos_le(x, b),
{
}

proof fn lemma_skip_back_spaces(t: Seq<Seq<char>>, p: (int, int))
    requires
        valid_pos(t, p),
    ensures
        ({
            let (q, found) = skip_back_spaces(t, p);
            &&& valid_pos(t, q)
            &&& pos_le(q, p)
            &&& found ==> q != p && class_at(t, q) != CharClass::Space && forall|x: (int, int)|
                #![trigger class_at(t, x)]
                valid_pos(t, x) && pos_le(q, x) && pos_le(x, p) && x != q && x != p ==> class_at(t, x)
                    == CharClass::Space
            &&& !found ==> q == (0int, 0int) && forall|x: (int, int)|
                #![trigger class_at(t, x)]
                valid_pos(t, x) && pos_le(q, x) && pos_le(x, p) && x != p ==> class_at(t, x)
                    == CharClass::Space
        }),
    decreases p.0, p.1,
{
    if p != (0int, 0int) {
        lemma_previous_position(t, p);
        let b = retreat(t, p)->Some_0;
        if class_at(t, b) == CharClass::Space {
            lemma_skip_back_spaces(t, b);
        }
    }
}

proof fn lemma_skip_backward(t: Seq<Seq<char>>, q: (int, int), cls: CharClass)
    requires
        valid_pos(t, q),
    ensures
        ({
            let r = skip_backward(t, q, cls);
            &&& valid_pos(t, r)
            &&& pos_le(r, q)
            &&& forall|x: (int, int)|
                #![trigger class_at(t, x)]
                valid_pos(t, x) && pos_le(r, x) && pos_le(x, q) && x != q ==> class_at(t, x) == cls
            &&& r == (0int, 0int) || forall|b: (int, int)| #[trigger] just_before(t, b, r) ==> class_at(t, b) != cls
        }),
    decreases q.0, q.1,
{
    if q != (0int, 0int) {
        lemma_previous_position(t, q);
        let b = retreat(t, q)->Some_0;
        if class_at(t, b) == cls {
            lemma_skip_backward(t, b, cls);
        } else {
            assert forall|b2: (int, int)| #[trigger] just_before(t, b2, q) implies class_at(t, b2) != cls by {
                assert(pos_le(b2, b));
            }
        }
    }
}

/// Word-left stays in the text and never moves forward; it lands at the
/// start of the text or at the start of a word (or punctuation run): a
/// character that is not a space, right after a character of another class.
/// On the way back it passes only spaces and line ends, then the rest of
/// that word.
pub proof fn lemma_word_left_lands(t: Seq<Seq<char>>, p: (int, int))
    requires
        valid_pos(t, p),
    ensures
        ({
            let r = spec_word_left_pos(t, p);
            &&& valid_pos(t, r)
            &&& pos_le(r, p)
            &&& r == (0int, 0int) || {
                &&& class_at(t, r) != CharClass::Space
                &&& forall|b: (int, int)| #[trigger] just_before(t, b, r) ==> class_at(t, b) != class_at(t, r)
            }
            &&& exists|mid: (int, int)| #[trigger] run_back_then_spaces(t, r, mid, p)
        }),
{
    lemma_skip_back_spaces(t, p);
    let (q, found) = skip_back_spaces(t, p);
    let r = spec_word_left_pos(t, p);
    if !found {
        assert(run_back_then_spaces(t, r, r, p));
    } else {
        let cls = class_at(t, q);
        lemma_skip_backward(t, q, cls);
        lemma_next_position(t, q, p);
        let mid = advance(t, q)->Some_0;
        assert forall|x: (int, int)|
            valid_pos(t, x) && pos_le(r, x) && pos_le(x, mid) && x != mid implies #[trigger] class_at(t, x)
            == class_at(t, r) && class_at(t, r) != CharClass::Space by {
            if x != q && pos_le(q, x) {
                lemma_next_position(t, q, x);
            }
            if r != q {
                lemma_next_position(t, r, q);
            }
        }
        assert forall|x: (int, int)|
            valid_pos(t, x) && pos_le(mid, x) && pos_le(x, p) && x != p implies #[trigger] class_at(t, x)
            == CharClass::Space by {
            if x == q {
                lemma_next_position(t, q, mid);
            }
        }
        assert(run_back_then_spaces(t, r, mid, p));
    }
}

// ---- cursor movement -----------------------------------------------------

/// Going to the end of the document leaves the text as it is and puts the
/// cursor after its last character: a position of the text that no other
/// position comes after.
pub proof fn lemma_doc_end(m: EditorModel)
    requires
        m.cursor_on_line(),
    ensures
        ({
            let r = spec_execute(m, Command::DocEnd).0;
            &&& r.lines == m.lines
            &&& valid_pos(r.lines, r.cursor())
            &&& forall|q: (int, int)| valid_pos(r.lines, q) ==> #[trigger] pos_le(q, r.cursor())
        }),
{
    reveal(spec_command);
}

/// Going to the start of the document leaves the text as it is and puts
/// the cursor on the position that comes before every other.
pub proof fn lemma_doc_start(m: EditorModel)
    requires
        m.cursor_on_line(),
    ensures
        ({
            let r = spec_execute(m, Command::DocStart).0;
            &&& r.lines == m.lines
            &&& valid_pos(r.lines, r.cursor())
            &&& forall|q: (int, int)| valid_pos(r.lines, q) ==> #[trigger] pos_le(r.cursor(), q)
        }),
{
    reveal(spec_command);
}

/// Going to the start or the end of the line keeps the cursor on its line
/// and puts it before, or after, every position of that line.
pub proof fn lemma_line_start_end(m: EditorModel)
    requires
        m.cursor_on_line(),
    ensures
        ({
            let r = spec_execute(m, Command::LineStart).0;
            &&& r.lines == m.lines
            &&& r.cur_line == m.cur_line
            &&& valid_pos(r.lines, r.cursor())
            &&& forall|q: (int, int)|
                valid_pos(r.lines, q) && q.0 == r.cur_line ==> #[trigger] pos_le(r.cursor(), q)
        }),
        ({
            let r = spec_execute(m, Command::LineEnd).0;
            &&& r.lines == m.lines
            &&& r.cur_line == m.cur_line
            &&& valid_pos(r.lines, r.cursor())
            &&& forall|q: (int, int)|
                valid_pos(r.lines, q) && q.0 == r.cur_line ==> #[trigger] pos_le(q, r.cursor())
        }),
{
    reveal(spec_command);
}

/// Moving right goes to the next position of the text (the start of the
/// next line from the end of a line), and stays at the end of the text;
/// moving left goes to the previous position, and stays at the start.
/// Neither changes the text.
pub proof fn lemma_move_left_right(m: EditorModel)
    requires
        m.wf(),
    ensures
        ({
            let p = m.cursor();
            let r = spec_execute(m, Command::MoveRight).0;
            let c = r.cursor();
            &&& r.lines == m.lines
            &&& valid_pos(r.lines, c)
            &&& p == text_end(m.lines) ==> c == p
            &&& p != text_end(m.lines) ==> pos_le(p, c) && c != p && forall|q: (int, int)|
                valid_pos(m.lines, q) && #[trigger] pos_le(p, q) && q != p ==> pos_le(c, q)
        }),
        ({
            let p = m.cursor();
            let r = spec_execute(m, Command::MoveLeft).0;
            let c = r.cursor();
            &&& r.lines == m.lines
            &&& valid_pos(r.lines, c)
            &&& p == (0int, 0int) ==> c == p
            &&& p != (0int, 0int) ==> pos_le(c, p) && c != p && forall|q: (int, int)|
                valid_pos(m.lines, q) && #[trigger] pos_le(q, p) && q != p ==> pos_le(q, c)
        }),
{
    reveal(spec_command);
}

/// What a replace question offers after the search resumed at `from` in the
/// text `t`: when a question is open, its match is the first occurrence at or
/// after `from` and the cursor is on it; otherwise no occurrence lies at or
/// after `from` and the cursor rests at `from`.
pub open spec fn offers_next_from(r: EditorModel, t: Seq<Seq<char>>, search: Seq<char>, from: (int, int)) -> bool {
    &&& r.lines == t
    &&& match r.replace_state {
        Some(next) => {
            &&& pos_le(from, next.match_start)
            &&& 0 <= next.match_start.0 < t.len()
            &&& matches_at(t[next.match_start.0], search, next.match_start.1, false)
            &&& next.match_end == (next.match_start.0, next.match_start.1 + search.len())
            &&& next.search == search
            &&& r.cursor() == next.match_start
            &&& forall|q: (int, int)|
                #![trigger matches_at(t[q.0], search, q.1, false)]
                0 <= q.0 && pos_le(from, q) && pos_le(q, next.match_start) && q != next.match_start
                    ==> !matches_at(t[q.0], search, q.1, false)
        },
        None => {
            &&& r.cursor() == from
            &&& forall|q: (int, int)|
                #![trigger matches_at(t[q.0], search, q.1, false)]
                0 <= q.0 < t.len() && pos_le(from, q) ==> !matches_at(t[q.0], search, q.1, false)
        },
    }
}

/// Starting a replace leaves the text as it is and asks about the first
/// occurrence at or after the cursor (or reports that there is none there).
pub proof fn lemma_replace_begins_at_cursor(m: EditorModel, search: Seq<char>, replace: Seq<char>)
    requires
        m.wf(),
        search.len() > 0,
    ensures
        offers_next_from(spec_begin_replace(m, search, replace), m.lines, search, m.cursor()),
{
    reveal(spec_replace_loop);
    lemma_find_sound(m.lines, m.cursor(), search, false, false);
}

/// Answering "no" leaves the text as it is and asks about the first
/// occurrence at or after the end of the match that was declined.
pub proof fn lemma_replace_no(m: EditorModel, ev: KeyEvent)
    requires
        m.wf(),
        m.replace_state is Some,
        m.replace_state->Some_0.search.len() > 0,
        valid_range(m.lines, m.replace_state->Some_0.match_start, m.replace_state->Some_0.match_end),
        ev.code == KeyCode::Char('n') || ev.code == KeyCode::Char('N'),
    ensures
        offers_next_from(
            spec_replace_confirm_key(m, ev),
            m.lines,
            m.replace_state->Some_0.search,
            m.replace_state->Some_0.match_end,
        ),
{
    let st = m.replace_state->Some_0;
    reveal(spec_replace_loop);
    lemma_find_sound(m.lines, st.match_end, st.search, false, false);
}

/// When "replace all" reports that it is complete, no match of the search
/// text starts at or after the cursor (the end of the last replacement).
pub proof fn lemma_replace_all_complete(
    m: EditorModel,
    search: Seq<char>,
    replace: Seq<char>,
    done: int,
)
    requires
        0 <= done <= replace_limit(),
    ensures
        ({
            let r = spec_replace_loop(m, search, replace, true, done);
            r.message == "Replace complete."@ ==> spec_find_from(r.lines, r.cursor(), search, false, false)
                is None
        }),
    decreases replace_limit() - done,
{
    reveal(spec_replace_loop);
    reveal_strlit("Replace complete.");
    reveal_strlit("Too many replacements; stopped.");
    match spec_find_from(m.lines, m.cursor(), search, false, false) {
        Some((s, e, wrapped)) => {
            if done + 1 <= replace_limit() {
                let m1 = EditorModel {
                    mark_start: Some(s),
                    mark_end: Some(e),
                    block_visible: true,
                    last_match_end: Some(e),
                    ..m.with_cursor(s)
                };
                lemma_replace_all_complete(spec_replace_at(m1, s, e, replace), search, replace, done + 1);
            } else {
                assert("Too many replacements; stopped."@ != "Replace complete."@) by {
                    assert("Too many replacements; stopped."@[0] != "Replace complete."@[0]);
                }
            }
        },
        None => {
            let r = spec_replace_loop(m, search, replace, true, done);
            assert(r.lines == m.lines && r.cursor() == m.cursor());
        },
    }
}

} // verus!
