//! Laws of the editing commands, stated over the text they leave behind: what
//! each one inserts or removes, related to the cursor movements and to the
//! buffer's extract, delete and insert.

use vstd::prelude::*;

use crate::buffer::{
    matches_at, normalize_crlf, pos_le, spec_delete, spec_extract, spec_insert, spec_text_to_lines,
    valid_pos, valid_range,
};
use crate::buffer_laws::{
    lemma_delete_keeps_a_line, lemma_extract_delete_insert_roundtrip, lemma_find_sound,
    lemma_insert_shape, lemma_insert_then_delete, lemma_insert_then_extract,
    lemma_save_load_roundtrip, lemma_split_nonempty, storable,
};
use crate::editor_model::{
    after_find, lemma_word_right_forward, marked_block, spec_clamp_cursor, spec_command,
    spec_delete_word_right, spec_do_save, spec_ensure_visible, spec_execute, spec_finish_read,
    spec_prompt_key, spec_word_right, spec_word_right_pos, EditorModel, IoRequestModel,
    PendingIoModel, SaveThen,
};
use crate::keymap::{Command, KeyCode, KeyEvent};

verus! {

proof fn lemma_delete_in_line(t: Seq<Seq<char>>, l: int, a: int, b: int)
    requires
        0 <= l < t.len(),
        0 <= a <= b <= t[l].len(),
    ensures
        spec_delete(t, (l, a), (l, b)) == t.update(l, t[l].take(a) + t[l].skip(b)),
{
    assert(spec_delete(t, (l, a), (l, b)) =~= t.update(l, t[l].take(a) + t[l].skip(b)));
}

proof fn lemma_delete_nothing(t: Seq<Seq<char>>, p: (int, int))
    requires
        valid_pos(t, p),
    ensures
        spec_delete(t, p, p) == t,
{
    lemma_delete_in_line(t, p.0, p.1, p.1);
    assert(t[p.0].take(p.1) + t[p.0].skip(p.1) =~= t[p.0]);
    assert(t.update(p.0, t[p.0]) =~= t);
}

proof fn lemma_delete_line_break(t: Seq<Seq<char>>, l: int)
    requires
        0 <= l,
        l + 1 < t.len(),
    ensures
        spec_delete(t, (l, t[l].len() as int), (l + 1, 0)) == t.update(l, t[l] + t[l + 1]).remove(l + 1),
{
    assert(t[l].take(t[l].len() as int) =~= t[l]);
    assert(t[l + 1].skip(0) =~= t[l + 1]);
    assert(spec_delete(t, (l, t[l].len() as int), (l + 1, 0)) =~= t.update(l, t[l] + t[l + 1]).remove(l + 1));
}

/// Deleting the character to the right removes the text between the cursor
/// and the position that moving right reaches (nothing at the end of the
/// text), and leaves the cursor where it was.
pub proof fn lemma_delete_right(m: EditorModel)
    requires
        m.wf(),
    ensures
        ({
            let p = m.cursor();
            let next = spec_execute(m, Command::MoveRight).0.cursor();
            let r = spec_execute(m, Command::DeleteCharRight).0;
            &&& r.lines == spec_delete(m.lines, p, next)
            &&& r.cursor() == p
        }),
{
    reveal(spec_command);
    let t = m.lines;
    let (l, c) = m.cursor();
    let line = t[l];
    if c < line.len() {
        lemma_delete_in_line(t, l, c, c + 1);
        assert(line.take(c) + line.skip(c + 1) =~= line.remove(c));
    } else if l + 1 < t.len() {
        lemma_delete_line_break(t, l);
    } else {
        lemma_delete_nothing(t, (l, c));
    }
}

/// Deleting the character to the left removes the text between the position
/// that moving left reaches and the cursor (nothing at the start of the
/// text), and puts the cursor at that position.
pub proof fn lemma_delete_left(m: EditorModel)
    requires
        m.wf(),
    ensures
        ({
            let p = m.cursor();
            let prev = spec_execute(m, Command::MoveLeft).0.cursor();
            let r = spec_execute(m, Command::DeleteCharLeft).0;
            &&& r.lines == spec_delete(m.lines, prev, p)
            &&& r.cursor() == prev
        }),
{
    reveal(spec_command);
    let t = m.lines;
    let (l, c) = m.cursor();
    if c > 0 {
        lemma_delete_in_line(t, l, c - 1, c);
        assert(t[l].take(c - 1) + t[l].skip(c) =~= t[l].remove(c - 1));
    } else if l > 0 {
        lemma_delete_line_break(t, l - 1);
    } else {
        lemma_delete_nothing(t, (l, c));
    }
}

/// Deleting a word removes the text between the cursor and the position
/// that word-right reaches, and leaves the cursor where it was.
pub proof fn lemma_delete_word_right(m: EditorModel)
    requires
        m.wf(),
    ensures
        ({
            let p = m.cursor();
            let w = spec_execute(m, Command::WordRight).0.cursor();
            let r = spec_execute(m, Command::DeleteWordRight).0;
            &&& r.lines == spec_delete(m.lines, p, w)
            &&& r.cursor() == p
        }),
{
    let t = m.lines;
    let p = m.cursor();
    lemma_word_right_forward(t, p);
    lemma_delete_nothing(t, p);
    let w = spec_word_right_pos(t, p);
    let m0 = m.with_message(Seq::<char>::empty());
    assert(spec_execute(m, Command::WordRight).0 == spec_clamp_cursor(spec_word_right(m0))) by {
        reveal(spec_command);
    }
    assert(spec_execute(m, Command::DeleteWordRight).0 == spec_clamp_cursor(spec_delete_word_right(m0))) by {
        reveal(spec_command);
    }
    if w != p {
        lemma_delete_keeps_a_line(t, p, w);
        assert(spec_delete(t, p, w)[p.0] == t[p.0].take(p.1) + t[w.0].skip(w.1));
    }
}

/// Typing a character puts it just before the new cursor, one column on:
/// in insert mode (or at the end of a line) taking it out again gives the
/// text as it was; in overwrite mode it takes the place of the character
/// that was under the cursor.
pub proof fn lemma_typing(m: EditorModel, ch: char)
    requires
        m.wf(),
    ensures
        ({
            let p = m.cursor();
            let r = spec_execute(m, Command::InsertChar(ch)).0;
            let c = r.cursor();
            &&& c == (p.0, p.1 + 1)
            &&& valid_range(r.lines, p, c)
            &&& spec_extract(r.lines, p, c) == seq![seq![ch]]
            &&& m.insert_mode || p.1 == m.line_len(p.0) ==> spec_delete(r.lines, p, c) == m.lines
            &&& !m.insert_mode && p.1 < m.line_len(p.0) ==> spec_delete(r.lines, p, c) == spec_delete(
                m.lines,
                p,
                c,
            )
        }),
{
    reveal(spec_command);
    let t = m.lines;
    let (l, col) = m.cursor();
    let line = t[l];
    let r = spec_execute(m, Command::InsertChar(ch)).0;
    let nl = r.lines[l];
    assert(nl.subrange(col, col + 1) =~= seq![ch]);
    assert(spec_extract(r.lines, (l, col), (l, col + 1)) =~= seq![seq![ch]]);
    lemma_delete_in_line(r.lines, l, col, col + 1);
    if m.insert_mode || col == line.len() {
        assert(nl.take(col) + nl.skip(col + 1) =~= line);
        assert(r.lines.update(l, line) =~= t);
    } else {
        lemma_delete_in_line(t, l, col, col + 1);
        assert(nl.take(col) + nl.skip(col + 1) =~= line.take(col) + line.skip(col + 1));
        assert(r.lines.update(l, line.take(col) + line.skip(col + 1)) =~= t.update(l, line.take(col) + line.skip(col + 1)));
    }
}

/// Enter puts a line break before the new cursor, at the start of the next
/// line; taking the break out again gives the text as it was.
pub proof fn lemma_enter(m: EditorModel)
    requires
        m.wf(),
    ensures
        ({
            let p = m.cursor();
            let r = spec_execute(m, Command::Enter).0;
            let c = r.cursor();
            &&& c == (p.0 + 1, 0int)
            &&& valid_range(r.lines, p, c)
            &&& spec_extract(r.lines, p, c) == seq![Seq::<char>::empty(), Seq::<char>::empty()]
            &&& spec_delete(r.lines, p, c) == m.lines
        }),
{
    reveal(spec_command);
    let t = m.lines;
    let (l, col) = m.cursor();
    let line = t[l];
    let r = spec_execute(m, Command::Enter).0;
    assert(r.lines[l] == line.take(col));
    assert(r.lines[l + 1] == line.skip(col));
    assert(line.take(col).skip(col) =~= Seq::<char>::empty());
    assert(line.skip(col).take(0) =~= Seq::<char>::empty());
    assert(r.lines.subrange(l + 1, l + 1) =~= Seq::<Seq<char>>::empty());
    assert(spec_extract(r.lines, (l, col), (l + 1, 0)) =~= seq![Seq::<char>::empty(), Seq::<char>::empty()]);
    assert(line.take(col) + line.skip(col) =~= line);
    assert(line.take(col).take(col) =~= line.take(col));
    assert(line.skip(col).skip(0) =~= line.skip(col));
    assert(spec_delete(r.lines, (l, col), (l + 1, 0)) =~= t);
}

/// Copying the marked block puts a copy of its text at the cursor, ending at
/// the new cursor; taking the copy out again gives the text as it was.
pub proof fn lemma_copy_block(m: EditorModel)
    requires
        m.wf(),
        marked_block(m) is Some,
    ensures
        ({
            let (s, e) = marked_block(m)->Some_0;
            let p = m.cursor();
            let r = spec_execute(m, Command::CopyBlock).0;
            &&& valid_range(r.lines, p, r.cursor())
            &&& spec_extract(r.lines, p, r.cursor()) == spec_extract(m.lines, s, e)
            &&& spec_delete(r.lines, p, r.cursor()) == m.lines
        }),
{
    reveal(spec_command);
    let (s, e) = marked_block(m)->Some_0;
    let t = m.lines;
    let p = m.cursor();
    let b = spec_extract(t, s, e);
    assert(b.len() >= 1);
    lemma_insert_shape(t, p, b);
    lemma_insert_then_extract(t, p, b);
    lemma_insert_then_delete(t, p, b);
}

/// Deleting the marked block puts the cursor where the block began and
/// unmarks it; putting the block's text back there gives the text as it
/// was.
pub proof fn lemma_delete_block(m: EditorModel)
    requires
        m.wf(),
        marked_block(m) is Some,
    ensures
        ({
            let (s, e) = marked_block(m)->Some_0;
            let r = spec_execute(m, Command::DeleteBlock).0;
            &&& r.cursor() == s
            &&& r.mark_start is None && r.mark_end is None
            &&& spec_insert(r.lines, s, spec_extract(m.lines, s, e)) == m.lines
        }),
{
    reveal(spec_command);
    let (s, e) = marked_block(m)->Some_0;
    let t = m.lines;
    lemma_delete_keeps_a_line(t, s, e);
    lemma_extract_delete_insert_roundtrip(t, s, e);
    assert(spec_delete(t, s, e)[s.0] == t[s.0].take(s.1) + t[e.0].skip(e.1));
}

/// Moving up or down goes to the neighbouring line (and stays at the first
/// or last line), keeping the column where that line is long enough and
/// otherwise going to its end. The text does not change.
pub proof fn lemma_move_up_down(m: EditorModel)
    requires
        m.wf(),
    ensures
        ({
            let r = spec_execute(m, Command::MoveUp).0;
            &&& r.lines == m.lines
            &&& r.cur_line == (if m.cur_line > 0 { m.cur_line - 1 } else { m.cur_line })
            &&& valid_pos(r.lines, r.cursor())
            &&& r.cur_col <= m.cur_col
            &&& r.cur_col == m.cur_col || r.cur_col == r.line_len(r.cur_line)
        }),
        ({
            let r = spec_execute(m, Command::MoveDown).0;
            &&& r.lines == m.lines
            &&& r.cur_line == (if m.cur_line + 1 < m.lines.len() { m.cur_line + 1 } else { m.cur_line })
            &&& valid_pos(r.lines, r.cursor())
            &&& r.cur_col <= m.cur_col
            &&& r.cur_col == m.cur_col || r.cur_col == r.line_len(r.cur_line)
        }),
{
    reveal(spec_command);
}

/// A search (Find, or Find again from the end of the last match) selects an
/// occurrence of the needle whenever the text holds one, ignoring case: the
/// first at or after where it starts, or, when there is none there, the
/// first from the start of the text. It marks the occurrence and puts the
/// cursor at its start. When the text holds no occurrence the cursor stays.
/// The text never changes.
pub proof fn lemma_find_selects(m: EditorModel, needle: Seq<char>, from: (int, int))
    requires
        m.wf(),
        needle.len() > 0,
        0 <= from.0,
        0 <= from.1,
    ensures
        ({
            let t = m.lines;
            let r = after_find(m, needle, from);
            let c = r.cursor();
            &&& r.lines == t
            &&& (exists|q: (int, int)| 0 <= q.0 < t.len() && #[trigger] matches_at(t[q.0], needle, q.1, false)) ==> {
                &&& 0 <= c.0 < t.len()
                &&& matches_at(t[c.0], needle, c.1, false)
                &&& r.mark_start == Some(c)
                &&& r.mark_end == Some((c.0, c.1 + needle.len()))
                &&& {
                    ||| pos_le(from, c) && forall|q: (int, int)|
                        #![trigger matches_at(t[q.0], needle, q.1, false)]
                        0 <= q.0 && pos_le(from, q) && pos_le(q, c) && q != c ==> !matches_at(t[q.0], needle, q.1, false)
                    ||| (forall|q: (int, int)|
                        #![trigger matches_at(t[q.0], needle, q.1, false)]
                        0 <= q.0 < t.len() && pos_le(from, q) ==> !matches_at(t[q.0], needle, q.1, false))
                        && forall|q: (int, int)|
                        #![trigger matches_at(t[q.0], needle, q.1, false)]
                        0 <= q.0 && pos_le(q, c) && q != c ==> !matches_at(t[q.0], needle, q.1, false)
                }
            }
            &&& (forall|q: (int, int)| 0 <= q.0 < t.len() ==> !#[trigger] matches_at(t[q.0], needle, q.1, false))
                ==> c == m.cursor()
        }),
{
    lemma_find_sound(m.lines, from, needle, false, true);
}

/// Deleting to the end of the line removes the text between the cursor and
/// the position that going to the end of the line reaches, and leaves the
/// cursor where it was.
pub proof fn lemma_delete_to_eol(m: EditorModel)
    requires
        m.wf(),
    ensures
        ({
            let p = m.cursor();
            let eol = spec_execute(m, Command::LineEnd).0.cursor();
            let r = spec_execute(m, Command::DeleteToEol).0;
            &&& r.lines == spec_delete(m.lines, p, eol)
            &&& r.cursor() == p
        }),
{
    reveal(spec_command);
    let t = m.lines;
    let (l, c) = m.cursor();
    lemma_delete_in_line(t, l, c, t[l].len() as int);
    assert(t[l].take(c) + t[l].skip(t[l].len() as int) =~= t[l].take(c));
}

/// Opening a line puts a line break at the cursor and leaves the cursor
/// before it; taking the break out again gives the text as it was.
pub proof fn lemma_open_line(m: EditorModel)
    requires
        m.wf(),
    ensures
        ({
            let p = m.cursor();
            let r = spec_execute(m, Command::OpenLine).0;
            let brk = (p.0 + 1, 0int);
            &&& r.cursor() == p
            &&& valid_range(r.lines, p, brk)
            &&& spec_extract(r.lines, p, brk) == seq![Seq::<char>::empty(), Seq::<char>::empty()]
            &&& spec_delete(r.lines, p, brk) == m.lines
        }),
{
    reveal(spec_command);
    let t = m.lines;
    let (l, col) = m.cursor();
    let line = t[l];
    let r = spec_execute(m, Command::OpenLine).0;
    assert(r.lines[l] == line.take(col));
    assert(r.lines[l + 1] == line.skip(col));
    assert(line.take(col).skip(col) =~= Seq::<char>::empty());
    assert(line.skip(col).take(0) =~= Seq::<char>::empty());
    assert(r.lines.subrange(l + 1, l + 1) =~= Seq::<Seq<char>>::empty());
    assert(spec_extract(r.lines, (l, col), (l + 1, 0)) =~= seq![Seq::<char>::empty(), Seq::<char>::empty()]);
    assert(line.take(col) + line.skip(col) =~= line);
    assert(line.take(col).take(col) =~= line.take(col));
    assert(line.skip(col).skip(0) =~= line.skip(col));
    assert(spec_delete(r.lines, (l, col), (l + 1, 0)) =~= t);
}

/// Deleting a line removes the cursor's line and keeps every other line in
/// order (the only line of the text is emptied instead); the cursor goes to
/// the start of the line that took its place, or of the new last line, and
/// the block is unmarked.
pub proof fn lemma_delete_line(m: EditorModel)
    requires
        m.cursor_on_line(),
    ensures
        ({
            let t = m.lines;
            let l = m.cur_line;
            let r = spec_execute(m, Command::DeleteLine).0;
            &&& t.len() == 1 ==> r.lines == seq![Seq::<char>::empty()] && r.cursor() == (0int, 0int)
            &&& t.len() > 1 ==> {
                &&& r.lines.len() == t.len() - 1
                &&& forall|i: int| 0 <= i < l ==> #[trigger] r.lines[i] == t[i]
                &&& forall|i: int| l <= i < r.lines.len() ==> #[trigger] r.lines[i] == t[i + 1]
                &&& r.cursor() == (if l < t.len() - 1 { l } else { l - 1 }, 0int)
            }
            &&& r.mark_start is None && r.mark_end is None && !r.block_visible
        }),
{
    reveal(spec_command);
}

/// Paging moves the cursor and the top of the view by the height of the
/// view (at least one line), stopping at the first or last line; the column
/// is kept where the new line is long enough and goes to its end otherwise.
/// The text does not change.
pub proof fn lemma_page_up_down(m: EditorModel)
    requires
        m.cursor_on_line(),
        m.top_line >= 0,
    ensures
        ({
            let rows = if m.text_rows > 1 { m.text_rows } else { 1 };
            let r = spec_execute(m, Command::PageDown).0;
            &&& r.lines == m.lines
            &&& r.cur_line == (if m.cur_line + rows < m.lines.len() { m.cur_line + rows } else { m.lines.len() - 1 })
            &&& r.top_line == (if m.top_line + rows < m.lines.len() { m.top_line + rows } else { m.lines.len() - 1 })
            &&& valid_pos(r.lines, r.cursor())
            &&& r.cur_col <= m.cur_col
            &&& r.cur_col == m.cur_col || r.cur_col == r.line_len(r.cur_line)
        }),
        ({
            let rows = if m.text_rows > 1 { m.text_rows } else { 1 };
            let r = spec_execute(m, Command::PageUp).0;
            &&& r.lines == m.lines
            &&& r.cur_line == (if m.cur_line >= rows { m.cur_line - rows } else { 0 })
            &&& r.top_line == (if m.top_line >= rows { m.top_line - rows } else { 0 })
            &&& valid_pos(r.lines, r.cursor())
            &&& r.cur_col <= m.cur_col
            &&& r.cur_col == m.cur_col || r.cur_col == r.line_len(r.cur_line)
        }),
{
    reveal(spec_command);
}

/// Scrolling to the cursor (at display column `dcol`) brings it into the
/// view: its line lies among the rows shown and its column among the
/// columns shown. A cursor already in view does not scroll it.
pub proof fn lemma_ensure_visible(m: EditorModel, dcol: int)
    requires
        m.cur_line >= 0,
        m.top_line >= 0,
        m.left_col >= 0,
        dcol >= 0,
    ensures
        ({
            let rows = if m.text_rows > 1 { m.text_rows } else { 1 };
            let cols = if m.text_cols > 1 { m.text_cols } else { 1 };
            let r = spec_ensure_visible(m, dcol);
            &&& r.top_line <= r.cur_line < r.top_line + rows
            &&& r.left_col <= dcol < r.left_col + cols
            &&& r.top_line >= 0 && r.left_col >= 0
            &&& m.top_line <= m.cur_line < m.top_line + rows ==> r.top_line == m.top_line
            &&& m.left_col <= dcol < m.left_col + cols ==> r.left_col == m.left_col
            &&& r == (EditorModel { top_line: r.top_line, left_col: r.left_col, ..m })
        }),
{
}

/// At an open prompt, typing a character (without Control) adds it to the
/// answer, and Backspace then gives back the prompt as it was.
pub proof fn lemma_prompt_type_then_backspace(m: EditorModel, c: char)
    requires
        m.prompt is Some,
    ensures
        ({
            let typed = spec_prompt_key(m, KeyEvent { code: KeyCode::Char(c), ctrl: false }).0;
            &&& typed.prompt_input == m.prompt_input.push(c)
            &&& spec_prompt_key(typed, KeyEvent { code: KeyCode::Backspace, ctrl: false }).0 == m
        }),
{
    let typed = spec_prompt_key(m, KeyEvent { code: KeyCode::Char(c), ctrl: false }).0;
    assert(typed.prompt_input.drop_last() =~= m.prompt_input);
}

/// Reading a file into the text puts the file's lines at the cursor, ending
/// at the new cursor; taking them out again gives the text as it was.
pub proof fn lemma_read_file_inserts(m: EditorModel, path: Seq<char>, contents: Seq<char>)
    requires
        m.wf(),
        m.pending_io == Some(PendingIoModel::ReadFile(path)),
    ensures
        ({
            let p = m.cursor();
            let r = spec_finish_read(m, Ok(contents));
            &&& valid_range(r.lines, p, r.cursor())
            &&& spec_extract(r.lines, p, r.cursor()) == spec_text_to_lines(contents)
            &&& spec_delete(r.lines, p, r.cursor()) == m.lines
        }),
{
    let lines = spec_text_to_lines(contents);
    lemma_split_nonempty(normalize_crlf(contents));
    lemma_insert_shape(m.lines, m.cursor(), lines);
    lemma_insert_then_extract(m.lines, m.cursor(), lines);
    lemma_insert_then_delete(m.lines, m.cursor(), lines);
}

/// Saving to the buffer's own file asks to write contents that read back as
/// the buffer's lines, in its line ending style, when the lines can be
/// stored in that style.
pub proof fn lemma_save_writes_what_reads_back(m: EditorModel, then: SaveThen)
    requires
        m.filename is Some,
        storable(m.lines, m.line_ending),
    ensures
        spec_do_save(m, then).1 matches Some(IoRequestModel::Write { path, contents }) && path
            == m.filename->Some_0 && spec_text_to_lines(contents) == m.lines,
{
    lemma_save_load_roundtrip(m.lines, m.line_ending);
}

} // verus!
