//! The editor as a mathematical state machine: every command and key press
//! is a function from one model state to the next.

use vstd::prelude::*;

use crate::buffer::{
    deletable_range, pos_le, spec_clamp, start_in_line, spec_delete, spec_extract, spec_file_text,
    spec_find_from, spec_insert, spec_insert_end, spec_text_to_lines, valid_pos, valid_range,
    LineEnding,
};
use crate::chars::{is_unicode_alphanumeric, is_unicode_whitespace};
use crate::keymap::{spec_translate, Command, KeyCode, KeyEvent, PrefixState};

verus! {

/// What to do once the buffer has been saved.
#[derive(Clone, Copy, PartialEq, Eq, Structural, Debug)]
pub enum SaveThen {
    Stay,
    Exit,
}

/// The question a prompt on the status line is asking.
#[derive(Clone, Copy, PartialEq, Eq, Structural, Debug)]
pub enum PromptKind {
    Find,
    ReplaceSearch,
    ReplaceWith,
    SaveAs(SaveThen),
    WriteBlock,
    ReadFile,
    GoToLine,
    ConfirmQuit,
}

/// How word movement sees a character.
#[derive(Clone, Copy, PartialEq, Eq, Structural, Debug)]
pub enum CharClass {
    Space,
    Word,
    Punct,
}

/// A search-and-replace waiting for the user to confirm one match.
pub struct ReplaceModel {
    pub search: Seq<char>,
    pub replace: Seq<char>,
    pub match_start: (int, int),
    pub match_end: (int, int),
}

/// The file operation whose outcome the editor is waiting for.
pub enum PendingIoModel {
    /// Saving to the buffer's own file.
    Save(SaveThen),
    /// Saving under a new name.
    SaveAs(SaveThen, Seq<char>),
    /// Writing the marked block to a file.
    WriteBlock(Seq<char>),
    /// Reading a file into the text at the cursor.
    ReadFile(Seq<char>),
}

/// A file operation that the editor asks its caller to perform.
pub enum IoRequestModel {
    Write { path: Seq<char>, contents: Seq<char> },
    Read { path: Seq<char> },
}

/// The whole state of the editor.
pub struct EditorModel {
    pub lines: Seq<Seq<char>>,
    pub filename: Option<Seq<char>>,
    pub dirty: bool,
    pub line_ending: LineEnding,
    pub cur_line: int,
    pub cur_col: int,
    pub top_line: int,
    pub left_col: int,
    pub insert_mode: bool,
    pub mark_start: Option<(int, int)>,
    pub mark_end: Option<(int, int)>,
    pub block_visible: bool,
    pub message: Seq<char>,
    pub quit: bool,
    pub menu_visible: bool,
    pub help_visible: bool,
    pub prefix: PrefixState,
    pub prompt: Option<PromptKind>,
    pub prompt_input: Seq<char>,
    pub prompt_label: Seq<char>,
    pub text_rows: int,
    pub text_cols: int,
    pub pending_replace_search: Option<Seq<char>>,
    pub last_search: Option<Seq<char>>,
    pub last_match_end: Option<(int, int)>,
    pub replace_state: Option<ReplaceModel>,
    pub pending_io: Option<PendingIoModel>,
}

pub open spec fn min(a: int, b: int) -> int {
    if a < b {
        a
    } else {
        b
    }
}

pub open spec fn max(a: int, b: int) -> int {
    if a < b {
        b
    } else {
        a
    }
}

impl EditorModel {
    /// The cursor position.
    pub open spec fn cursor(self) -> (int, int) {
        (self.cur_line, self.cur_col)
    }

    /// The text is non-empty and the cursor is on it.
    pub open spec fn wf(self) -> bool {
        &&& self.lines.len() >= 1
        &&& valid_pos(self.lines, self.cursor())
    }

    /// The text is non-empty and the cursor is on one of its lines; its
    /// column may lie past the end of that line.
    pub open spec fn cursor_on_line(self) -> bool {
        &&& self.lines.len() >= 1
        &&& 0 <= self.cur_line < self.lines.len()
        &&& 0 <= self.cur_col
    }

    /// Length of line `l`.
    pub open spec fn line_len(self, l: int) -> int {
        self.lines[l].len() as int
    }

    pub open spec fn with_cursor(self, p: (int, int)) -> Self {
        EditorModel { cur_line: p.0, cur_col: p.1, ..self }
    }

    pub open spec fn with_message(self, m: Seq<char>) -> Self {
        EditorModel { message: m, ..self }
    }

    /// New text, marked as modified.
    pub open spec fn with_text(self, t: Seq<Seq<char>>) -> Self {
        EditorModel { lines: t, dirty: true, ..self }
    }
}

// ---- movement ------------------------------------------------------------

pub open spec fn spec_move_up(m: EditorModel) -> EditorModel {
    if m.cur_line > 0 {
        m.with_cursor((m.cur_line - 1, min(m.cur_col, m.line_len(m.cur_line - 1))))
    } else {
        m
    }
}

pub open spec fn spec_move_down(m: EditorModel) -> EditorModel {
    if m.cur_line + 1 < m.lines.len() {
        m.with_cursor((m.cur_line + 1, min(m.cur_col, m.line_len(m.cur_line + 1))))
    } else {
        m
    }
}

pub open spec fn spec_move_left(m: EditorModel) -> EditorModel {
    if m.cur_col > 0 {
        m.with_cursor((m.cur_line, m.cur_col - 1))
    } else if m.cur_line > 0 {
        m.with_cursor((m.cur_line - 1, m.line_len(m.cur_line - 1)))
    } else {
        m
    }
}

pub open spec fn spec_move_right(m: EditorModel) -> EditorModel {
    if m.cur_col < m.line_len(m.cur_line) {
        m.with_cursor((m.cur_line, m.cur_col + 1))
    } else if m.cur_line + 1 < m.lines.len() {
        m.with_cursor((m.cur_line + 1, 0))
    } else {
        m
    }
}

pub open spec fn spec_page_up(m: EditorModel) -> EditorModel {
    let rows = max(m.text_rows, 1);
    let l = max(m.cur_line - rows, 0);
    EditorModel {
        cur_line: l,
        cur_col: min(m.cur_col, m.line_len(l)),
        top_line: max(m.top_line - rows, 0),
        ..m
    }
}

pub open spec fn spec_page_down(m: EditorModel) -> EditorModel {
    let rows = max(m.text_rows, 1);
    let last = m.lines.len() - 1;
    let l = min(m.cur_line + rows, last);
    EditorModel {
        cur_line: l,
        cur_col: min(m.cur_col, m.line_len(l)),
        top_line: min(m.top_line + rows, last),
        ..m
    }
}

// ---- word movement -------------------------------------------------------

pub open spec fn classify(c: char) -> CharClass {
    if is_unicode_whitespace(c) {
        CharClass::Space
    } else if is_unicode_alphanumeric(c) || c == '_' {
        CharClass::Word
    } else {
        CharClass::Punct
    }
}

/// The class of the character at `p`; the end of a line counts as space.
pub open spec fn class_at(t: Seq<Seq<char>>, p: (int, int)) -> CharClass {
    if p.1 >= t[p.0].len() {
        CharClass::Space
    } else {
        classify(t[p.0][p.1])
    }
}

/// The next position in reading order, if any.
pub open spec fn advance(t: Seq<Seq<char>>, p: (int, int)) -> Option<(int, int)> {
    if p.1 < t[p.0].len() {
        Some((p.0, p.1 + 1))
    } else if p.0 + 1 < t.len() {
        Some((p.0 + 1, 0))
    } else {
        None
    }
}

/// The previous position in reading order, if any.
pub open spec fn retreat(t: Seq<Seq<char>>, p: (int, int)) -> Option<(int, int)> {
    if p.1 > 0 {
        Some((p.0, p.1 - 1))
    } else if p.0 > 0 {
        Some((p.0 - 1, t[p.0 - 1].len() as int))
    } else {
        None
    }
}

/// Moves forward from `p` while the character there is of class `cls`.
pub open spec fn skip_forward(t: Seq<Seq<char>>, p: (int, int), cls: CharClass) -> (int, int)
    decreases t.len() - p.0, t[p.0].len() - p.1,
    when 0 <= p.0 < t.len() && 0 <= p.1 <= t[p.0].len()
{
    if class_at(t, p) != cls {
        p
    } else {
        match advance(t, p) {
            Some(q) => skip_forward(t, q, cls),
            None => p,
        }
    }
}

/// Where a word-right movement from `p` lands: past the rest of the word
/// (or punctuation run) under `p`, then past the spaces after it.
pub open spec fn spec_word_right_pos(t: Seq<Seq<char>>, p: (int, int)) -> (int, int) {
    let start = class_at(t, p);
    let p1 = if start != CharClass::Space {
        skip_forward(t, p, start)
    } else {
        p
    };
    skip_forward(t, p1, CharClass::Space)
}

/// Moves back from `p` over spaces; returns where it stopped and whether it
/// stopped on a character that is not a space (rather than at the start).
pub open spec fn skip_back_spaces(t: Seq<Seq<char>>, p: (int, int)) -> ((int, int), bool)
    decreases p.0, p.1,
    when 0 <= p.0 < t.len() && 0 <= p.1 <= t[p.0].len()
{
    match retreat(t, p) {
        Some(prev) => if class_at(t, prev) == CharClass::Space {
            skip_back_spaces(t, prev)
        } else {
            (prev, true)
        },
        None => (p, false),
    }
}

/// Moves back from `p` while the previous character is of class `cls`.
pub open spec fn skip_backward(t: Seq<Seq<char>>, p: (int, int), cls: CharClass) -> (int, int)
    decreases p.0, p.1,
    when 0 <= p.0 < t.len() && 0 <= p.1 <= t[p.0].len()
{
    match retreat(t, p) {
        Some(prev) => if class_at(t, prev) == cls {
            skip_backward(t, prev, cls)
        } else {
            p
        },
        None => p,
    }
}

/// Where a word-left movement from `p` lands: back over spaces, then to the
/// start of the word (or punctuation run) before them.
pub open spec fn spec_word_left_pos(t: Seq<Seq<char>>, p: (int, int)) -> (int, int) {
    let (q, found) = skip_back_spaces(t, p);
    if !found {
        q
    } else {
        skip_backward(t, q, class_at(t, q))
    }
}

pub open spec fn spec_word_right(m: EditorModel) -> EditorModel {
    m.with_cursor(spec_word_right_pos(m.lines, m.cursor()))
}

pub open spec fn spec_word_left(m: EditorModel) -> EditorModel {
    m.with_cursor(spec_word_left_pos(m.lines, m.cursor()))
}

// ---- editing -------------------------------------------------------------

pub open spec fn spec_insert_char(m: EditorModel, ch: char) -> EditorModel {
    let line = m.lines[m.cur_line];
    let new_line = if m.insert_mode || m.cur_col >= line.len() {
        line.insert(m.cur_col, ch)
    } else {
        line.update(m.cur_col, ch)
    };
    m.with_text(m.lines.update(m.cur_line, new_line)).with_cursor((m.cur_line, m.cur_col + 1))
}

/// The text with line `l` split at column `c`.
pub open spec fn split_line(t: Seq<Seq<char>>, l: int, c: int) -> Seq<Seq<char>> {
    t.update(l, t[l].take(c)).insert(l + 1, t[l].skip(c))
}

/// The text with line `l` and the line after it joined.
pub open spec fn join_with_next(t: Seq<Seq<char>>, l: int) -> Seq<Seq<char>> {
    t.update(l, t[l] + t[l + 1]).remove(l + 1)
}

/// The cursor column, cut back to the length of the cursor's line.
pub open spec fn col_in_line(m: EditorModel) -> int {
    min(m.cur_col, m.line_len(m.cur_line))
}

pub open spec fn spec_newline(m: EditorModel) -> EditorModel {
    m.with_text(split_line(m.lines, m.cur_line, col_in_line(m))).with_cursor((m.cur_line + 1, 0))
}

pub open spec fn spec_open_line(m: EditorModel) -> EditorModel {
    m.with_text(split_line(m.lines, m.cur_line, col_in_line(m)))
}

pub open spec fn spec_delete_char_right(m: EditorModel) -> EditorModel {
    if m.cur_col < m.line_len(m.cur_line) {
        m.with_text(m.lines.update(m.cur_line, m.lines[m.cur_line].remove(m.cur_col)))
    } else if m.cur_line + 1 < m.lines.len() {
        m.with_text(join_with_next(m.lines, m.cur_line))
    } else {
        m
    }
}

pub open spec fn spec_delete_char_left(m: EditorModel) -> EditorModel {
    if m.cur_col > 0 {
        m.with_text(m.lines.update(m.cur_line, m.lines[m.cur_line].remove(m.cur_col - 1))).with_cursor(
            (m.cur_line, m.cur_col - 1),
        )
    } else if m.cur_line > 0 {
        m.with_text(join_with_next(m.lines, m.cur_line - 1)).with_cursor(
            (m.cur_line - 1, m.line_len(m.cur_line - 1)),
        )
    } else {
        m
    }
}

pub open spec fn spec_delete_word_right(m: EditorModel) -> EditorModel {
    let start = m.cursor();
    let end = spec_word_right_pos(m.lines, start);
    if end != start {
        m.with_text(spec_delete(m.lines, start, end))
    } else {
        m
    }
}

pub open spec fn spec_clear_mark(m: EditorModel) -> EditorModel {
    EditorModel { mark_start: None, mark_end: None, block_visible: false, ..m }
}

pub open spec fn spec_delete_line(m: EditorModel) -> EditorModel {
    let n = m.lines.len();
    let m1 = if n == 1 {
        m.with_text(seq![Seq::<char>::empty()]).with_cursor((0, 0))
    } else {
        let l = if m.cur_line >= n - 1 {
            n - 2
        } else {
            m.cur_line
        };
        m.with_text(m.lines.remove(m.cur_line)).with_cursor((l, 0))
    };
    spec_clear_mark(m1)
}

pub open spec fn spec_delete_to_eol(m: EditorModel) -> EditorModel {
    m.with_text(m.lines.update(m.cur_line, m.lines[m.cur_line].take(col_in_line(m))))
}

// ---- blocks --------------------------------------------------------------

/// The marked block with its ends in reading order, when both are set.
pub open spec fn spec_normalized_marks(m: EditorModel) -> Option<((int, int), (int, int))> {
    match (m.mark_start, m.mark_end) {
        (Some(a), Some(b)) => Some(
            if pos_le(a, b) {
                (a, b)
            } else {
                (b, a)
            },
        ),
        _ => None,
    }
}

/// The marked block, when both ends are set and both lie in the text.
pub open spec fn marked_block(m: EditorModel) -> Option<((int, int), (int, int))> {
    match spec_normalized_marks(m) {
        Some((s, e)) => if valid_range(m.lines, s, e) {
            Some((s, e))
        } else {
            None
        },
        None => None,
    }
}

pub open spec fn spec_copy_block(m: EditorModel) -> EditorModel {
    match marked_block(m) {
        None => m.with_message("No block marked"@),
        Some((s, e)) => {
            let text = spec_extract(m.lines, s, e);
            let m1 = if text.len() > 0 {
                m.with_text(spec_insert(m.lines, m.cursor(), text))
            } else {
                m
            };
            m1.with_cursor(spec_insert_end(m.cursor(), text)).with_message("Block copied"@)
        },
    }
}

/// Where the cursor lands in the text once the block `s..e` is removed,
/// for a cursor outside the block.
pub open spec fn adjusted_pos(p: (int, int), s: (int, int), e: (int, int)) -> (int, int) {
    if pos_le(p, s) && p != s {
        p
    } else if p.0 == e.0 {
        (s.0, s.1 + max(p.1 - e.1, 0))
    } else {
        (p.0 - (e.0 - s.0), p.1)
    }
}

/// Moves the block `s..e` to the cursor (which lies outside it) and marks
/// it there.
pub open spec fn spec_relocate_block(m: EditorModel, s: (int, int), e: (int, int)) -> EditorModel {
    let text = spec_extract(m.lines, s, e);
    let deleted = spec_delete(m.lines, s, e);
    let adj = adjusted_pos(m.cursor(), s, e);
    let end = spec_insert_end(adj, text);
    EditorModel {
        mark_start: Some(adj),
        mark_end: Some(end),
        ..m.with_text(spec_insert(deleted, adj, text)).with_cursor(end).with_message("Block moved"@)
    }
}

/// Moving the block to the cursor. A cursor inside the marked span is
/// refused first; marks that no longer lie in the text are reported as no
/// block.
pub open spec fn spec_move_block(m: EditorModel) -> EditorModel {
    match spec_normalized_marks(m) {
        None => m.with_message("No block marked"@),
        Some((s, e)) => {
            let p = m.cursor();
            if pos_le(s, p) && pos_le(p, e) {
                m.with_message("Cannot move a block into itself"@)
            } else if valid_range(m.lines, s, e) {
                spec_relocate_block(m, s, e)
            } else {
                m.with_message("No block marked"@)
            }
        },
    }
}

/// The marked block as it can be deleted: its end lies in the text (a start
/// column past the end of its line stands for the end of that line).
pub open spec fn deletable_block(m: EditorModel) -> Option<((int, int), (int, int))> {
    match spec_normalized_marks(m) {
        Some((s, e)) => if deletable_range(m.lines, s, e) {
            Some((s, e))
        } else {
            None
        },
        None => None,
    }
}

/// Deleting the block; the cursor goes to where the block began (kept on
/// its line).
pub open spec fn spec_delete_block(m: EditorModel) -> EditorModel {
    match deletable_block(m) {
        None => m.with_message("No block marked"@),
        Some((s, e)) => {
            let t = spec_delete(m.lines, start_in_line(m.lines, s), e);
            spec_clear_mark(m.with_text(t).with_cursor(spec_clamp(t, s))).with_message("Block deleted"@)
        },
    }
}

// ---- search and replace --------------------------------------------------

/// The state after a search from `from` found `s..e` (or failed).
pub open spec fn after_find(m: EditorModel, needle: Seq<char>, from: (int, int)) -> EditorModel {
    match spec_find_from(m.lines, from, needle, false, true) {
        Some((s, e, wrapped)) => EditorModel {
            mark_start: Some(s),
            mark_end: Some(e),
            block_visible: true,
            last_match_end: Some(e),
            ..m.with_cursor(s).with_message(
                if wrapped {
                    "Found (search wrapped)"@
                } else {
                    "Found"@
                },
            )
        },
        None => m.with_message("\""@ + needle + "\" not found"@),
    }
}

pub open spec fn spec_do_find(m: EditorModel, needle: Seq<char>) -> EditorModel {
    after_find(m, needle, m.cursor())
}

pub open spec fn spec_repeat_find(m: EditorModel) -> EditorModel {
    match m.last_search {
        None => m.with_message("No previous Find/Replace"@),
        Some(text) => {
            let from = match m.last_match_end {
                Some(p) => p,
                None => m.cursor(),
            };
            after_find(m, text, from)
        },
    }
}

/// The text after replacing `s..e` with `replace`, and the end of the
/// replacement.
pub open spec fn replaced_text(t: Seq<Seq<char>>, s: (int, int), e: (int, int), replace: Seq<char>) -> (
    Seq<Seq<char>>,
    (int, int),
) {
    let lines = spec_text_to_lines(replace);
    (spec_insert(spec_delete(t, s, e), s, lines), spec_insert_end(s, lines))
}

/// Replaces `s..e` with `replace` and puts the cursor after it.
pub open spec fn spec_replace_at(m: EditorModel, s: (int, int), e: (int, int), replace: Seq<char>) -> EditorModel {
    let (t, end) = replaced_text(m.lines, s, e, replace);
    m.with_text(t).with_cursor(end)
}

/// Most replacements that one "replace all" performs.
pub open spec fn replace_limit() -> int {
    200_000
}

/// Finds the next match after the cursor (without wrapping); in "all" mode
/// replaces it and goes on, otherwise stops to ask about it.
#[verifier::opaque]
pub open spec fn spec_replace_loop(
    m: EditorModel,
    search: Seq<char>,
    replace: Seq<char>,
    all: bool,
    done: int,
) -> EditorModel
    decreases replace_limit() - done,
    when 0 <= done <= replace_limit()
{
    match spec_find_from(m.lines, m.cursor(), search, false, false) {
        Some((s, e, wrapped)) => {
            let m1 = EditorModel {
                mark_start: Some(s),
                mark_end: Some(e),
                block_visible: true,
                last_match_end: Some(e),
                ..m.with_cursor(s)
            };
            if all {
                if done + 1 > replace_limit() {
                    EditorModel {
                        replace_state: None,
                        ..m1.with_message("Too many replacements; stopped."@)
                    }
                } else {
                    spec_replace_loop(spec_replace_at(m1, s, e, replace), search, replace, all, done + 1)
                }
            } else {
                EditorModel {
                    replace_state: Some(
                        ReplaceModel { search, replace, match_start: s, match_end: e },
                    ),
                    ..m1.with_message(
                        if wrapped {
                            "Replace this occurrence? Y)es N)o A)ll Esc)stop"@ + " [wrapped]"@
                        } else {
                            "Replace this occurrence? Y)es N)o A)ll Esc)stop"@
                        },
                    )
                }
            }
        },
        None => EditorModel {
            replace_state: None,
            ..spec_clear_mark(m).with_message(
                if all {
                    "Replace complete."@
                } else {
                    "No occurrences found."@
                },
            )
        },
    }
}

pub open spec fn spec_begin_replace(m: EditorModel, search: Seq<char>, replace: Seq<char>) -> EditorModel {
    if search.len() == 0 {
        m.with_message("Replace cancelled (empty search)"@)
    } else {
        spec_replace_loop(EditorModel { last_search: Some(search), ..m }, search, replace, false, 0)
    }
}

/// What the answer `ev` does to the match `st` once the question is closed.
pub open spec fn spec_replace_answer(m0: EditorModel, st: ReplaceModel, ev: KeyEvent) -> EditorModel {
    match ev.code {
        KeyCode::Char(c) => if c == 'y' || c == 'Y' {
            spec_replace_loop(
                spec_replace_at(m0, st.match_start, st.match_end, st.replace),
                st.search,
                st.replace,
                false,
                0,
            )
        } else if c == 'n' || c == 'N' {
            spec_replace_loop(m0.with_cursor(st.match_end), st.search, st.replace, false, 0)
        } else if c == 'a' || c == 'A' {
            spec_replace_loop(m0.with_cursor(st.match_start), st.search, st.replace, true, 0)
        } else {
            spec_clear_mark(m0).with_message("Replace stopped."@)
        },
        _ => spec_clear_mark(m0).with_message("Replace stopped."@),
    }
}

/// The answer to "Replace this occurrence?". A match that no longer lies in
/// the text stops the replacing.
pub open spec fn spec_replace_confirm_key(m: EditorModel, ev: KeyEvent) -> EditorModel {
    match m.replace_state {
        None => m,
        Some(st) => {
            let m0 = EditorModel { replace_state: None, ..m };
            if !valid_range(m.lines, st.match_start, st.match_end) {
                spec_clear_mark(m0).with_message("Replace stopped."@)
            } else {
                spec_replace_answer(m0, st, ev)
            }
        },
    }
}

// ---- prompts and files ---------------------------------------------------

pub open spec fn spec_start_prompt(m: EditorModel, kind: PromptKind, label: Seq<char>) -> EditorModel {
    EditorModel { prompt: Some(kind), prompt_input: Seq::<char>::empty(), prompt_label: label, ..m }
}

/// `s` without leading characters with the `White_Space` property.
pub open spec fn trim_start(s: Seq<char>) -> Seq<char>
    decreases s.len(),
{
    if s.len() > 0 && is_unicode_whitespace(s[0]) {
        trim_start(s.drop_first())
    } else {
        s
    }
}

/// `s` without trailing characters with the `White_Space` property.
pub open spec fn trim_end(s: Seq<char>) -> Seq<char>
    decreases s.len(),
{
    if s.len() > 0 && is_unicode_whitespace(s.last()) {
        trim_end(s.drop_last())
    } else {
        s
    }
}

pub open spec fn is_digit(c: char) -> bool {
    '0' <= c && c <= '9'
}

/// Every character of `s` is a decimal digit.
pub open spec fn all_digits(s: Seq<char>) -> bool {
    forall|i: int| 0 <= i < s.len() ==> is_digit(#[trigger] s[i])
}

/// The value of a string of decimal digits.
pub open spec fn digits_value(s: Seq<char>) -> int
    decreases s.len(),
{
    if s.len() == 0 {
        0
    } else {
        digits_value(s.drop_last()) * 10 + (s.last() as int - '0' as int)
    }
}

/// The number that `usize::from_str` reads from `s`: an optional `+`, then
/// one or more decimal digits, with a value that fits in `usize`.
pub open spec fn spec_parse_usize(s: Seq<char>) -> Option<int> {
    let body = if s.len() > 0 && s[0] == '+' {
        s.drop_first()
    } else {
        s
    };
    if body.len() == 0 || !all_digits(body) {
        None
    } else if digits_value(body) > usize::MAX {
        None
    } else {
        Some(digits_value(body))
    }
}

/// The line number typed at the "Go to line" prompt, if it is one.
pub open spec fn spec_line_number(input: Seq<char>) -> Option<int> {
    spec_parse_usize(trim_end(trim_start(input)))
}

pub open spec fn spec_submit_find(m: EditorModel, input: Seq<char>) -> (EditorModel, Option<IoRequestModel>) {
    if input.len() == 0 {
        (m.with_message("Find cancelled (empty)"@), None)
    } else {
        (spec_do_find(EditorModel { last_search: Some(input), ..m }, input), None)
    }
}

pub open spec fn spec_submit_replace_search(m: EditorModel, input: Seq<char>) -> (
    EditorModel,
    Option<IoRequestModel>,
) {
    if input.len() == 0 {
        (m.with_message("Replace cancelled (empty search)"@), None)
    } else {
        (
            spec_start_prompt(
                EditorModel { pending_replace_search: Some(input), ..m },
                PromptKind::ReplaceWith,
                "Replace \""@ + input + "\" with:"@,
            ),
            None,
        )
    }
}

pub open spec fn spec_submit_replace_with(m: EditorModel, input: Seq<char>) -> (
    EditorModel,
    Option<IoRequestModel>,
) {
    let search = match m.pending_replace_search {
        Some(s) => s,
        None => Seq::<char>::empty(),
    };
    (spec_begin_replace(EditorModel { pending_replace_search: None, ..m }, search, input), None)
}

pub open spec fn spec_submit_save_as(m: EditorModel, then: SaveThen, input: Seq<char>) -> (
    EditorModel,
    Option<IoRequestModel>,
) {
    if input.len() == 0 {
        (m.with_message("Save cancelled"@), None)
    } else {
        (
            EditorModel { pending_io: Some(PendingIoModel::SaveAs(then, input)), ..m },
            Some(IoRequestModel::Write { path: input, contents: spec_file_text(m.lines, m.line_ending) }),
        )
    }
}

pub open spec fn spec_submit_write_block(m: EditorModel, input: Seq<char>) -> (
    EditorModel,
    Option<IoRequestModel>,
) {
    if input.len() == 0 {
        (m.with_message("Cancelled"@), None)
    } else {
        match marked_block(m) {
            Some((s, e)) => (
                EditorModel { pending_io: Some(PendingIoModel::WriteBlock(input)), ..m },
                Some(
                    IoRequestModel::Write {
                        path: input,
                        contents: spec_file_text(spec_extract(m.lines, s, e), m.line_ending),
                    },
                ),
            ),
            None => (m.with_message("No block marked"@), None),
        }
    }
}

pub open spec fn spec_submit_read_file(m: EditorModel, input: Seq<char>) -> (
    EditorModel,
    Option<IoRequestModel>,
) {
    if input.len() == 0 {
        (m.with_message("Cancelled"@), None)
    } else {
        (
            EditorModel { pending_io: Some(PendingIoModel::ReadFile(input)), ..m },
            Some(IoRequestModel::Read { path: input }),
        )
    }
}

pub open spec fn spec_submit_go_to_line(m: EditorModel, input: Seq<char>) -> (
    EditorModel,
    Option<IoRequestModel>,
) {
    match spec_line_number(input) {
        Some(n) => if n >= 1 {
            (m.with_cursor((min(n - 1, m.lines.len() - 1), 0)), None)
        } else {
            (m.with_message("Invalid line number"@), None)
        },
        None => (m.with_message("Invalid line number"@), None),
    }
}

pub open spec fn spec_submit_confirm_quit(m: EditorModel, input: Seq<char>) -> (
    EditorModel,
    Option<IoRequestModel>,
) {
    if input == seq!['y'] || input == seq!['Y'] {
        (EditorModel { quit: true, ..m }, None)
    } else {
        (m.with_message("Quit cancelled"@), None)
    }
}

/// The result of submitting a prompt: the next state and the file
/// operation to perform, if any.
#[verifier::opaque]
pub open spec fn spec_submit_prompt(m: EditorModel, kind: PromptKind, input: Seq<char>) -> (
    EditorModel,
    Option<IoRequestModel>,
) {
    match kind {
        PromptKind::Find => spec_submit_find(m, input),
        PromptKind::ReplaceSearch => spec_submit_replace_search(m, input),
        PromptKind::ReplaceWith => spec_submit_replace_with(m, input),
        PromptKind::SaveAs(then) => spec_submit_save_as(m, then, input),
        PromptKind::WriteBlock => spec_submit_write_block(m, input),
        PromptKind::ReadFile => spec_submit_read_file(m, input),
        PromptKind::GoToLine => spec_submit_go_to_line(m, input),
        PromptKind::ConfirmQuit => spec_submit_confirm_quit(m, input),
    }
}

/// A key press while a prompt is open.
pub open spec fn spec_prompt_key(m: EditorModel, ev: KeyEvent) -> (EditorModel, Option<IoRequestModel>) {
    match m.prompt {
        None => (m, None),
        Some(kind) => match ev.code {
            KeyCode::Esc => (
                EditorModel { prompt: None, prompt_input: Seq::<char>::empty(), ..m }.with_message(
                    "Cancelled"@,
                ),
                None,
            ),
            KeyCode::Enter => spec_submit_prompt(
                EditorModel { prompt: None, prompt_input: Seq::<char>::empty(), ..m },
                kind,
                m.prompt_input,
            ),
            KeyCode::Backspace => (EditorModel { prompt_input: drop_last_char(m.prompt_input), ..m }, None),
            KeyCode::Char(c) => if ev.ctrl {
                if c == 'h' || c == 'H' {
                    (EditorModel { prompt_input: drop_last_char(m.prompt_input), ..m }, None)
                } else {
                    (m, None)
                }
            } else {
                (EditorModel { prompt_input: m.prompt_input.push(c), ..m }, None)
            },
            _ => (m, None),
        },
    }
}

/// `s` without its last character, if it has one.
pub open spec fn drop_last_char(s: Seq<char>) -> Seq<char> {
    if s.len() > 0 {
        s.drop_last()
    } else {
        s
    }
}

pub open spec fn spec_do_save(m: EditorModel, then: SaveThen) -> (EditorModel, Option<IoRequestModel>) {
    match m.filename {
        Some(name) => (
            EditorModel { pending_io: Some(PendingIoModel::Save(then)), ..m },
            Some(IoRequestModel::Write { path: name, contents: spec_file_text(m.lines, m.line_ending) }),
        ),
        None => (spec_start_prompt(m, PromptKind::SaveAs(then), "Save as:"@), None),
    }
}

/// The state once the requested write finished (`Ok`) or failed (`Err`
/// with the error's text).
pub open spec fn spec_finish_write(m: EditorModel, result: Result<(), Seq<char>>) -> EditorModel {
    let m0 = EditorModel { pending_io: None, ..m };
    match m.pending_io {
        Some(PendingIoModel::Save(then)) => match m.filename {
            None => m0.with_message("Save failed: "@ + "no filename set"@),
            Some(name) => match result {
                Ok(()) => EditorModel {
                    dirty: false,
                    quit: m.quit || then == SaveThen::Exit,
                    ..m0.with_message("Saved "@ + name)
                },
                Err(e) => m0.with_message("Save failed: "@ + e),
            },
        },
        Some(PendingIoModel::SaveAs(then, path)) => match result {
            Ok(()) => EditorModel {
                dirty: false,
                filename: Some(path),
                quit: m.quit || then == SaveThen::Exit,
                ..m0.with_message("Saved "@ + path)
            },
            Err(e) => m0.with_message("Save failed: "@ + e),
        },
        Some(PendingIoModel::WriteBlock(path)) => match result {
            Ok(()) => m0.with_message("Block written to "@ + path),
            Err(e) => m0.with_message("Write failed: "@ + e),
        },
        _ => m,
    }
}

/// The state once the requested read finished (`Ok` with the file's
/// contents) or failed (`Err` with the error's text).
pub open spec fn spec_finish_read(m: EditorModel, result: Result<Seq<char>, Seq<char>>) -> EditorModel {
    let m0 = EditorModel { pending_io: None, ..m };
    match m.pending_io {
        Some(PendingIoModel::ReadFile(path)) => match result {
            Ok(contents) => {
                let lines = spec_text_to_lines(contents);
                m0.with_text(spec_insert(m.lines, m.cursor(), lines)).with_cursor(
                    spec_insert_end(m.cursor(), lines),
                ).with_message("Read "@ + path)
            },
            Err(e) => m0.with_message("Read failed: "@ + e),
        },
        _ => m,
    }
}

// ---- commands and keys ---------------------------------------------------

pub open spec fn spec_clamp_cursor(m: EditorModel) -> EditorModel {
    m.with_cursor(spec_clamp(m.lines, m.cursor()))
}

/// The effect of a cursor movement command.
pub open spec fn spec_motion_command(m: EditorModel, cmd: Command) -> (EditorModel, Option<IoRequestModel>) {
    match cmd {
        Command::MoveUp => (spec_move_up(m), None),
        Command::MoveDown => (spec_move_down(m), None),
        Command::MoveLeft => (spec_move_left(m), None),
        Command::MoveRight => (spec_move_right(m), None),
        Command::WordLeft => (spec_word_left(m), None),
        Command::WordRight => (spec_word_right(m), None),
        Command::LineStart => (m.with_cursor((m.cur_line, 0)), None),
        Command::LineEnd => (m.with_cursor((m.cur_line, m.line_len(m.cur_line))), None),
        Command::ScreenTop => (m.with_cursor((min(m.top_line, m.lines.len() - 1), m.cur_col)), None),
        Command::ScreenBottom => (
            m.with_cursor((min(m.top_line + max(m.text_rows - 1, 0), m.lines.len() - 1), m.cur_col)),
            None,
        ),
        Command::DocStart => (m.with_cursor((0, 0)), None),
        Command::DocEnd => (
            m.with_cursor((m.lines.len() - 1, m.line_len(m.lines.len() - 1))),
            None,
        ),
        Command::PageUp => (spec_page_up(m), None),
        Command::PageDown => (spec_page_down(m), None),
        Command::GoToBlockBegin => match m.mark_start {
            Some(p) => (m.with_cursor(p), None),
            None => (m.with_message("No block marked"@), None),
        },
        Command::GoToBlockEnd => match m.mark_end {
            Some(p) => (m.with_cursor(p), None),
            None => (m.with_message("No block marked"@), None),
        },
        Command::GoToLinePrompt => (spec_start_prompt(m, PromptKind::GoToLine, "Go to line:"@), None),
        _ => (m, None),
    }
}

/// The effect of a text editing command.
pub open spec fn spec_edit_command(m: EditorModel, cmd: Command) -> (EditorModel, Option<IoRequestModel>) {
    match cmd {
        Command::InsertChar(c) => (spec_insert_char(m, c), None),
        Command::Enter => (spec_newline(m), None),
        Command::Tab => (spec_insert_char(m, '\t'), None),
        Command::OpenLine => (spec_open_line(m), None),
        Command::DeleteCharRight => (spec_delete_char_right(m), None),
        Command::DeleteCharLeft => (spec_delete_char_left(m), None),
        Command::DeleteWordRight => (spec_delete_word_right(m), None),
        Command::DeleteLine => (spec_delete_line(m), None),
        Command::DeleteToEol => (spec_delete_to_eol(m), None),
        Command::ToggleInsertMode => (EditorModel { insert_mode: !m.insert_mode, ..m }, None),
        _ => (m, None),
    }
}

/// The effect of a block command.
pub open spec fn spec_block_command(m: EditorModel, cmd: Command) -> (EditorModel, Option<IoRequestModel>) {
    match cmd {
        Command::MarkBegin => (
            EditorModel { mark_start: Some(m.cursor()), block_visible: true, ..m }.with_message(
                "Block begin"@,
            ),
            None,
        ),
        Command::MarkEnd => (
            EditorModel { mark_end: Some(m.cursor()), block_visible: true, ..m }.with_message(
                "Block end"@,
            ),
            None,
        ),
        Command::CopyBlock => (spec_copy_block(m), None),
        Command::MoveBlock => (spec_move_block(m), None),
        Command::DeleteBlock => (spec_delete_block(m), None),
        Command::HideBlock => if m.mark_start is None && m.mark_end is None {
            (m.with_message("No block marked"@), None)
        } else {
            (EditorModel { block_visible: !m.block_visible, ..m }, None)
        },
        Command::WriteBlockPrompt => (
            spec_start_prompt(m, PromptKind::WriteBlock, "Write block to file:"@),
            None,
        ),
        Command::ReadFilePrompt => (
            spec_start_prompt(m, PromptKind::ReadFile, "Read file into text:"@),
            None,
        ),
        _ => (m, None),
    }
}

/// The effect of a file, search, display or other command.
pub open spec fn spec_other_command(m: EditorModel, cmd: Command) -> (EditorModel, Option<IoRequestModel>) {
    match cmd {
        Command::NoOp => (m, None),
        Command::Beep => (m.with_message("Not a WordStar command"@), None),
        Command::CancelPrefix => (m.with_message("Cancelled"@), None),
        Command::Save => spec_do_save(m, SaveThen::Stay),
        Command::SaveDone => spec_do_save(m, SaveThen::Stay),
        Command::SaveExitPrompt => spec_do_save(m, SaveThen::Exit),
        Command::QuitPrompt => if m.dirty {
            (
                spec_start_prompt(
                    m,
                    PromptKind::ConfirmQuit,
                    "Abandon changes since last save? (Y/N):"@,
                ),
                None,
            )
        } else {
            (EditorModel { quit: true, ..m }, None)
        },
        Command::FindPrompt => (spec_start_prompt(m, PromptKind::Find, "Find:"@), None),
        Command::ReplacePrompt => (spec_start_prompt(m, PromptKind::ReplaceSearch, "Find:"@), None),
        Command::RepeatFind => (spec_repeat_find(m), None),
        Command::ToggleMenu => (EditorModel { menu_visible: !m.menu_visible, ..m }, None),
        Command::Help => (EditorModel { help_visible: true, ..m }, None),
        _ => (m, None),
    }
}

/// Which group a command belongs to.
pub open spec fn command_group(cmd: Command) -> int {
    match cmd {
        Command::MoveUp => 0,
        Command::MoveDown => 0,
        Command::MoveLeft => 0,
        Command::MoveRight => 0,
        Command::WordLeft => 0,
        Command::WordRight => 0,
        Command::LineStart => 0,
        Command::LineEnd => 0,
        Command::ScreenTop => 0,
        Command::ScreenBottom => 0,
        Command::DocStart => 0,
        Command::DocEnd => 0,
        Command::PageUp => 0,
        Command::PageDown => 0,
        Command::GoToBlockBegin => 0,
        Command::GoToBlockEnd => 0,
        Command::GoToLinePrompt => 0,
        Command::InsertChar(_) => 1,
        Command::Enter => 1,
        Command::Tab => 1,
        Command::OpenLine => 1,
        Command::DeleteCharRight => 1,
        Command::DeleteCharLeft => 1,
        Command::DeleteWordRight => 1,
        Command::DeleteLine => 1,
        Command::DeleteToEol => 1,
        Command::ToggleInsertMode => 1,
        Command::MarkBegin => 2,
        Command::MarkEnd => 2,
        Command::CopyBlock => 2,
        Command::MoveBlock => 2,
        Command::DeleteBlock => 2,
        Command::HideBlock => 2,
        Command::WriteBlockPrompt => 2,
        Command::ReadFilePrompt => 2,
        _ => 3,
    }
}

/// Commands that the editor carries out whatever the cursor column: where
/// the column lies past the end of its line, they either do not use it or
/// act as at the end of the line.
pub open spec fn ignores_column(cmd: Command) -> bool {
    match cmd {
        Command::MoveUp => true,
        Command::MoveDown => true,
        Command::MoveLeft => true,
        Command::MoveRight => true,
        Command::LineStart => true,
        Command::LineEnd => true,
        Command::ScreenTop => true,
        Command::ScreenBottom => true,
        Command::DocStart => true,
        Command::DocEnd => true,
        Command::PageUp => true,
        Command::PageDown => true,
        Command::GoToBlockBegin => true,
        Command::GoToBlockEnd => true,
        Command::GoToLinePrompt => true,
        Command::Enter => true,
        Command::OpenLine => true,
        Command::DeleteCharRight => true,
        Command::DeleteLine => true,
        Command::DeleteToEol => true,
        Command::ToggleInsertMode => true,
        Command::MarkBegin => true,
        Command::MarkEnd => true,
        Command::DeleteBlock => true,
        Command::HideBlock => true,
        Command::WriteBlockPrompt => true,
        Command::ReadFilePrompt => true,
        Command::NoOp => true,
        Command::Beep => true,
        Command::CancelPrefix => true,
        Command::Save => true,
        Command::SaveDone => true,
        Command::SaveExitPrompt => true,
        Command::QuitPrompt => true,
        Command::FindPrompt => true,
        Command::ReplacePrompt => true,
        Command::RepeatFind => true,
        Command::ToggleMenu => true,
        Command::Help => true,
        _ => false,
    }
}

/// The effect of a command, before the cursor is clamped.
#[verifier::opaque]
pub open spec fn spec_command(m: EditorModel, cmd: Command) -> (EditorModel, Option<IoRequestModel>) {
    if command_group(cmd) == 0 {
        spec_motion_command(m, cmd)
    } else if command_group(cmd) == 1 {
        spec_edit_command(m, cmd)
    } else if command_group(cmd) == 2 {
        spec_block_command(m, cmd)
    } else {
        spec_other_command(m, cmd)
    }
}

/// Executes a command: clears the message (unless the command is a no-op),
/// applies it, then clamps the cursor into the text.
pub open spec fn spec_execute(m: EditorModel, cmd: Command) -> (EditorModel, Option<IoRequestModel>) {
    let m0 = if cmd != Command::NoOp {
        m.with_message(Seq::<char>::empty())
    } else {
        m
    };
    let (m1, io) = spec_command(m0, cmd);
    (spec_clamp_cursor(m1), io)
}

/// A key press: it closes the help screen, goes to an open prompt or to a
/// pending replace question, or else is translated into a command.
pub open spec fn spec_handle_key(m: EditorModel, ev: KeyEvent) -> (EditorModel, Option<IoRequestModel>) {
    if m.help_visible {
        (EditorModel { help_visible: false, ..m }, None)
    } else if m.prompt is Some {
        spec_prompt_key(m, ev)
    } else if m.replace_state is Some {
        (spec_replace_confirm_key(m, ev), None)
    } else {
        let (cmd, prefix) = spec_translate(ev, m.prefix);
        spec_execute(EditorModel { prefix, ..m }, cmd)
    }
}

// ---- viewport ------------------------------------------------------------

/// Scrolls so that the cursor (at display column `dcol`) is on screen.
pub open spec fn spec_ensure_visible(m: EditorModel, dcol: int) -> EditorModel {
    let rows = max(m.text_rows, 1);
    let top = if m.cur_line < m.top_line {
        m.cur_line
    } else if m.cur_line >= m.top_line + rows {
        m.cur_line + 1 - rows
    } else {
        m.top_line
    };
    let cols = max(m.text_cols, 1);
    let left = if dcol < m.left_col {
        dcol
    } else if dcol >= m.left_col + cols {
        dcol + 1 - cols
    } else {
        m.left_col
    };
    EditorModel { top_line: top, left_col: left, ..m }
}

// ---- facts about movement -------------------------------------------------

pub proof fn lemma_skip_forward(t: Seq<Seq<char>>, p: (int, int), cls: CharClass)
    requires
        valid_pos(t, p),
    ensures
        valid_pos(t, skip_forward(t, p, cls)),
        pos_le(p, skip_forward(t, p, cls)),
    decreases t.len() - p.0, t[p.0].len() - p.1,
{
    if class_at(t, p) == cls {
        if let Some(q) = advance(t, p) {
            lemma_skip_forward(t, q, cls);
        }
    }
}

/// Word-right never moves backwards and stays in the text.
pub proof fn lemma_word_right_forward(t: Seq<Seq<char>>, p: (int, int))
    requires
        valid_pos(t, p),
    ensures
        valid_pos(t, spec_word_right_pos(t, p)),
        pos_le(p, spec_word_right_pos(t, p)),
{
    let start = class_at(t, p);
    if start != CharClass::Space {
        lemma_skip_forward(t, p, start);
        let p1 = skip_forward(t, p, start);
        lemma_skip_forward(t, p1, CharClass::Space);
    } else {
        lemma_skip_forward(t, p, CharClass::Space);
    }
}

/// A position outside a deleted block, moved as `adjusted_pos` moves it,
/// is a position of the text without the block.
pub proof fn lemma_adjusted_pos_valid(t: Seq<Seq<char>>, s: (int, int), e: (int, int), p: (int, int))
    requires
        valid_range(t, s, e),
        valid_pos(t, p),
        !(pos_le(s, p) && pos_le(p, e)),
    ensures
        valid_pos(spec_delete(t, s, e), adjusted_pos(p, s, e)),
{
    let d = spec_delete(t, s, e);
    assert(d[s.0] == t[s.0].take(s.1) + t[e.0].skip(e.1));
    if pos_le(p, s) && p != s {
        if p.0 < s.0 {
            assert(d[p.0] == t[p.0]);
        }
    } else if p.0 == e.0 {
    } else {
        assert(d[p.0 - (e.0 - s.0)] == t[p.0]);
    }
}

/// A string of digits has a value at least that of each of its prefixes.
pub proof fn lemma_digits_value_monotone(s: Seq<char>, j: int)
    requires
        0 <= j <= s.len(),
        forall|i: int| 0 <= i < s.len() ==> is_digit(#[trigger] s[i]),
    ensures
        0 <= digits_value(s.take(j)) <= digits_value(s),
    decreases s.len(),
{
    if j == s.len() {
        assert(s.take(j) =~= s);
        if s.len() > 0 {
            lemma_digits_value_monotone(s.drop_last(), j - 1);
        }
    } else {
        let p = s.drop_last();
        assert(p.take(j) =~= s.take(j));
        assert(is_digit(s[s.len() - 1]));
        lemma_digits_value_monotone(p, j);
    }
}

} // verus!
