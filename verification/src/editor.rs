//! The editor: a buffer, a cursor, a marked block, search and replace,
//! prompts, and the file operations that it asks its caller to perform.

use vstd::prelude::*;

pub use crate::editor_model::{
    PromptKind, SaveThen,
};

use crate::buffer::{
    ipos, lines_view, pos_le, spec_clamp, start_in_line, valid_pos, valid_range, Buffer, Pos,
};
use crate::editor_model::{
    advance, class_at, retreat, skip_back_spaces, skip_backward, skip_forward, spec_move_down,
    spec_move_left, spec_move_right, spec_move_up, spec_page_down, spec_page_up, spec_word_left,
    spec_word_right, CharClass, spec_insert_char, spec_newline, spec_open_line,
    spec_delete_char_right, spec_delete_char_left, spec_delete_word_right, spec_delete_line,
    spec_delete_to_eol, spec_clear_mark, spec_normalized_marks, lemma_word_right_forward,
    split_line, join_with_next, marked_block, spec_copy_block, spec_move_block, spec_delete_block,
    adjusted_pos, lemma_adjusted_pos_valid, after_find, spec_relocate_block, spec_do_find,
    spec_repeat_find, replaced_text, spec_replace_loop, replace_limit, spec_begin_replace,
    spec_replace_confirm_key, spec_replace_answer, spec_start_prompt, spec_submit_prompt,
    spec_prompt_key, spec_do_save, spec_finish_write, spec_finish_read, spec_submit_find,
    spec_submit_replace_search, spec_submit_replace_with, spec_submit_save_as,
    spec_submit_write_block, spec_submit_read_file, spec_submit_go_to_line,
    spec_submit_confirm_quit, spec_command, spec_execute, spec_handle_key, spec_ensure_visible,
    min, max, command_group, spec_motion_command, spec_edit_command, spec_block_command,
    spec_other_command, ignores_column, EditorModel, IoRequestModel, PendingIoModel, ReplaceModel,
};
use crate::buffer_laws::{lemma_find_sound, lemma_insert_shape};
use crate::chars::{chars_of, is_alphanumeric, is_whitespace, pop_char, push_char};
use crate::keymap::{spec_translate, translate, Command, KeyCode, KeyEvent, PrefixState};
use crate::util::{display_width, prefix_len, spec_display_width, TAB_SIZE};
use crate::line_number::parse_line_number;

verus! {

/// A search-and-replace waiting for the user to confirm one match.
pub struct ReplaceState {
    pub search: String,
    pub replace: String,
    pub match_start: Pos,
    pub match_end: Pos,
}

/// The file operation whose outcome the editor is waiting for.
pub enum PendingIo {
    Save(SaveThen),
    SaveAs(SaveThen, String),
    WriteBlock(String),
    ReadFile(String),
}

/// A file operation that the editor asks its caller to perform; the caller
/// reports the outcome with `finish_write` or `finish_read`.
pub enum IoRequest {
    Write { path: String, contents: String },
    Read { path: String },
}

impl View for IoRequest {
    type V = IoRequestModel;

    open spec fn view(&self) -> IoRequestModel {
        match self {
            IoRequest::Write { path, contents } => IoRequestModel::Write { path: path@, contents: contents@ },
            IoRequest::Read { path } => IoRequestModel::Read { path: path@ },
        }
    }
}

/// The model of an optional request.
pub open spec fn request_view(r: Option<IoRequest>) -> Option<IoRequestModel> {
    match r {
        Some(q) => Some(q@),
        None => None,
    }
}

pub open spec fn opt_pos(p: Option<Pos>) -> Option<(int, int)> {
    match p {
        Some(q) => Some(ipos(q)),
        None => None,
    }
}

pub open spec fn opt_string(s: Option<String>) -> Option<Seq<char>> {
    match s {
        Some(x) => Some(x@),
        None => None,
    }
}

/// The editor.
pub struct Editor {
    pub buffer: Buffer,
    pub cur_line: usize,
    pub cur_col: usize,
    pub top_line: usize,
    pub left_col: usize,
    pub insert_mode: bool,
    pub mark_start: Option<Pos>,
    pub mark_end: Option<Pos>,
    pub block_visible: bool,
    pub message: String,
    pub quit: bool,
    pub menu_visible: bool,
    pub help_visible: bool,
    pub prefix: PrefixState,
    pub prompt: Option<PromptKind>,
    pub prompt_input: String,
    pub prompt_label: String,
    pub text_rows: usize,
    pub text_cols: usize,
    pub pending_replace_search: Option<String>,
    pub last_search: Option<String>,
    pub last_match_end: Option<Pos>,
    pub replace_state: Option<ReplaceState>,
    pub pending_io: Option<PendingIo>,
}

impl View for Editor {
    type V = EditorModel;

    open spec fn view(&self) -> EditorModel {
        EditorModel {
            lines: self.buffer.text(),
            filename: self.buffer.filename_view(),
            dirty: self.buffer.dirty,
            line_ending: self.buffer.line_ending,
            cur_line: self.cur_line as int,
            cur_col: self.cur_col as int,
            top_line: self.top_line as int,
            left_col: self.left_col as int,
            insert_mode: self.insert_mode,
            mark_start: opt_pos(self.mark_start),
            mark_end: opt_pos(self.mark_end),
            block_visible: self.block_visible,
            message: self.message@,
            quit: self.quit,
            menu_visible: self.menu_visible,
            help_visible: self.help_visible,
            prefix: self.prefix,
            prompt: self.prompt,
            prompt_input: self.prompt_input@,
            prompt_label: self.prompt_label@,
            text_rows: self.text_rows as int,
            text_cols: self.text_cols as int,
            pending_replace_search: opt_string(self.pending_replace_search),
            last_search: opt_string(self.last_search),
            last_match_end: opt_pos(self.last_match_end),
            replace_state: match self.replace_state {
                Some(st) => Some(
                    ReplaceModel {
                        search: st.search@,
                        replace: st.replace@,
                        match_start: ipos(st.match_start),
                        match_end: ipos(st.match_end),
                    },
                ),
                None => None,
            },
            pending_io: match self.pending_io {
                Some(PendingIo::Save(then)) => Some(PendingIoModel::Save(then)),
                Some(PendingIo::SaveAs(then, p)) => Some(PendingIoModel::SaveAs(then, p@)),
                Some(PendingIo::WriteBlock(p)) => Some(PendingIoModel::WriteBlock(p@)),
                Some(PendingIo::ReadFile(p)) => Some(PendingIoModel::ReadFile(p@)),
                None => None,
            },
        }
    }
}

impl Editor {
    /// The text is non-empty and the cursor is on it.
    pub open spec fn wf(&self) -> bool {
        self@.wf()
    }

    /// A fresh editor on `buffer`, with the cursor at the start, insert
    /// mode on, the key menu shown and a greeting on the status line.
    pub fn new(buffer: Buffer) -> (r: Self)
        requires
            buffer.wf(),
        ensures
            r.wf(),
            r.buffer == buffer,
            r@.cursor() == (0int, 0int),
            r.top_line == 0 && r.left_col == 0,
            r.insert_mode,
            r.mark_start is None && r.mark_end is None && !r.block_visible,
            r.message@ == "mustang -- WordStar 3.3 style editor. ^J for help."@,
            !r.quit && r.menu_visible && !r.help_visible,
            r.prefix == PrefixState::NoPrefix,
            r.prompt is None,
            r.prompt_input@ == Seq::<char>::empty(),
            r.prompt_label@ == Seq::<char>::empty(),
            r.text_rows == 1 && r.text_cols == 1,
            r.pending_replace_search is None && r.last_search is None,
            r.last_match_end is None && r.replace_state is None && r.pending_io is None,
    {
        Editor {
            buffer,
            cur_line: 0,
            cur_col: 0,
            top_line: 0,
            left_col: 0,
            insert_mode: true,
            mark_start: None,
            mark_end: None,
            block_visible: false,
            message: "mustang -- WordStar 3.3 style editor. ^J for help.".to_string(),
            quit: false,
            menu_visible: true,
            help_visible: false,
            prefix: PrefixState::NoPrefix,
            prompt: None,
            prompt_input: String::new(),
            prompt_label: String::new(),
            text_rows: 1,
            text_cols: 1,
            pending_replace_search: None,
            last_search: None,
            last_match_end: None,
            replace_state: None,
            pending_io: None,
        }
    }

    fn clamp_cursor(&mut self)
        requires
            old(self).buffer.wf(),
        ensures
            final(self)@ == old(self)@.with_cursor(spec_clamp(old(self)@.lines, old(self)@.cursor())),
            final(self).wf(),
    {
        let pos = self.buffer.clamp((self.cur_line, self.cur_col));
        self.cur_line = pos.0;
        self.cur_col = pos.1;
    }

    // ---- movement -------------------------------------------------------

    /// Moves the cursor up a line, keeping its column where the line allows.
    pub fn move_up(&mut self)
        requires
            old(self)@.cursor_on_line(),
        ensures
            final(self)@ == spec_move_up(old(self)@),
            final(self)@.cursor_on_line(),
            old(self).wf() ==> final(self).wf(),
    {
        if self.cur_line > 0 {
            self.cur_line = self.cur_line - 1;
            let len = self.buffer.line_len(self.cur_line);
            self.cur_col = if self.cur_col < len { self.cur_col } else { len };
        }
    }

    /// Moves the cursor down a line, keeping its column where the line allows.
    pub fn move_down(&mut self)
        requires
            old(self)@.cursor_on_line(),
        ensures
            final(self)@ == spec_move_down(old(self)@),
            final(self)@.cursor_on_line(),
            old(self).wf() ==> final(self).wf(),
    {
        if self.cur_line < self.buffer.num_lines() - 1 {
            self.cur_line = self.cur_line + 1;
            let len = self.buffer.line_len(self.cur_line);
            self.cur_col = if self.cur_col < len { self.cur_col } else { len };
        }
    }

    /// Moves the cursor one character left, to the end of the previous line
    /// from the start of a line.
    pub fn move_left(&mut self)
        requires
            old(self)@.cursor_on_line(),
        ensures
            final(self)@ == spec_move_left(old(self)@),
            final(self)@.cursor_on_line(),
            old(self).wf() ==> final(self).wf(),
    {
        if self.cur_col > 0 {
            self.cur_col = self.cur_col - 1;
        } else if self.cur_line > 0 {
            self.cur_line = self.cur_line - 1;
            self.cur_col = self.buffer.line_len(self.cur_line);
        }
    }

    /// Moves the cursor one character right, to the start of the next line
    /// from the end of a line.
    pub fn move_right(&mut self)
        requires
            old(self)@.cursor_on_line(),
        ensures
            final(self)@ == spec_move_right(old(self)@),
            final(self)@.cursor_on_line(),
            old(self).wf() ==> final(self).wf(),
    {
        if self.cur_col < self.buffer.line_len(self.cur_line) {
            self.cur_col = self.cur_col + 1;
        } else if self.cur_line < self.buffer.num_lines() - 1 {
            self.cur_line = self.cur_line + 1;
            self.cur_col = 0;
        }
    }

    fn page_up(&mut self)
        requires
            old(self)@.cursor_on_line(),
        ensures
            final(self)@ == spec_page_up(old(self)@),
            final(self).wf(),
    {
        let rows = if self.text_rows > 1 { self.text_rows } else { 1 };
        self.cur_line = self.cur_line.saturating_sub(rows);
        let len = self.buffer.line_len(self.cur_line);
        self.cur_col = if self.cur_col < len { self.cur_col } else { len };
        self.top_line = self.top_line.saturating_sub(rows);
    }

    fn page_down(&mut self)
        requires
            old(self)@.cursor_on_line(),
        ensures
            final(self)@ == spec_page_down(old(self)@),
            final(self).wf(),
    {
        let rows = if self.text_rows > 1 { self.text_rows } else { 1 };
        let last = self.buffer.num_lines() - 1;
        self.cur_line = if rows < last - self.cur_line { self.cur_line + rows } else { last };
        let len = self.buffer.line_len(self.cur_line);
        self.cur_col = if self.cur_col < len { self.cur_col } else { len };
        self.top_line = if self.top_line < last && rows < last - self.top_line {
            self.top_line + rows
        } else {
            last
        };
    }

    // ---- word movement ----------------------------------------------------

    fn char_class_at(&self, pos: Pos) -> (r: CharClass)
        requires
            pos.0 < self.buffer.lines@.len(),
        ensures
            r == class_at(self@.lines, ipos(pos)),
    {
        let (l, c) = pos;
        if c >= self.buffer.line_len(l) {
            CharClass::Space
        } else {
            let ch = self.buffer.lines[l][c];
            if is_whitespace(ch) {
                CharClass::Space
            } else if is_alphanumeric(ch) || ch == '_' {
                CharClass::Word
            } else {
                CharClass::Punct
            }
        }
    }

    fn advance_pos(&self, pos: Pos) -> (r: Option<Pos>)
        requires
            valid_pos(self@.lines, ipos(pos)),
        ensures
            opt_pos(r) == advance(self@.lines, ipos(pos)),
    {
        let (l, c) = pos;
        if c < self.buffer.line_len(l) {
            Some((l, c + 1))
        } else if l < self.buffer.num_lines() - 1 {
            Some((l + 1, 0))
        } else {
            None
        }
    }

    fn retreat_pos(&self, pos: Pos) -> (r: Option<Pos>)
        requires
            valid_pos(self@.lines, ipos(pos)),
        ensures
            opt_pos(r) == retreat(self@.lines, ipos(pos)),
    {
        let (l, c) = pos;
        if c > 0 {
            Some((l, c - 1))
        } else if l > 0 {
            Some((l - 1, self.buffer.line_len(l - 1)))
        } else {
            None
        }
    }

    /// Moves forward from `pos` while the character there is of class `cls`.
    fn skip_forward_from(&self, pos: Pos, cls: CharClass) -> (r: Pos)
        requires
            valid_pos(self@.lines, ipos(pos)),
        ensures
            ipos(r) == skip_forward(self@.lines, ipos(pos), cls),
            valid_pos(self@.lines, ipos(r)),
    {
        let ghost t = self@.lines;
        let mut p = pos;
        loop
            invariant
                t == self@.lines,
                valid_pos(t, ipos(p)),
                skip_forward(t, ipos(pos), cls) == skip_forward(t, ipos(p), cls),
            decreases t.len() - p.0, t[p.0 as int].len() - p.1,
        {
            if self.char_class_at(p) != cls {
                return p;
            }
            match self.advance_pos(p) {
                Some(q) => {
                    p = q;
                },
                None => {
                    return p;
                },
            }
        }
    }

    /// Moves the cursor past the rest of the word (or punctuation run) under
    /// it, then past the spaces and line ends that follow.
    pub fn word_right(&mut self)
        requires
            old(self).wf(),
        ensures
            final(self)@ == spec_word_right(old(self)@),
            final(self).wf(),
    {
        let pos = (self.cur_line, self.cur_col);
        let start_class = self.char_class_at(pos);
        let p1 = if start_class != CharClass::Space {
            self.skip_forward_from(pos, start_class)
        } else {
            pos
        };
        let p2 = self.skip_forward_from(p1, CharClass::Space);
        self.cur_line = p2.0;
        self.cur_col = p2.1;
    }

    /// Moves back from `pos` over spaces; returns where it stopped and
    /// whether it stopped on a character that is not a space.
    fn back_over_spaces(&self, pos: Pos) -> (r: (Pos, bool))
        requires
            valid_pos(self@.lines, ipos(pos)),
        ensures
            (ipos(r.0), r.1) == skip_back_spaces(self@.lines, ipos(pos)),
            valid_pos(self@.lines, ipos(r.0)),
    {
        let ghost t = self@.lines;
        let mut p = pos;
        loop
            invariant
                t == self@.lines,
                valid_pos(t, ipos(p)),
                skip_back_spaces(t, ipos(pos)) == skip_back_spaces(t, ipos(p)),
            decreases p.0, p.1,
        {
            match self.retreat_pos(p) {
                Some(prev) => {
                    if self.char_class_at(prev) == CharClass::Space {
                        p = prev;
                    } else {
                        return (prev, true);
                    }
                },
                None => {
                    return (p, false);
                },
            }
        }
    }

    /// Moves back from `pos` while the previous character is of class `cls`.
    fn back_over_class(&self, pos: Pos, cls: CharClass) -> (r: Pos)
        requires
            valid_pos(self@.lines, ipos(pos)),
        ensures
            ipos(r) == skip_backward(self@.lines, ipos(pos), cls),
            valid_pos(self@.lines, ipos(r)),
    {
        let ghost t = self@.lines;
        let mut p = pos;
        loop
            invariant
                t == self@.lines,
                valid_pos(t, ipos(p)),
                skip_backward(t, ipos(pos), cls) == skip_backward(t, ipos(p), cls),
            decreases p.0, p.1,
        {
            match self.retreat_pos(p) {
                Some(prev) => {
                    if self.char_class_at(prev) == cls {
                        p = prev;
                    } else {
                        return p;
                    }
                },
                None => {
                    return p;
                },
            }
        }
    }

    /// Moves the cursor back over spaces and line ends, then to the start of
    /// the word (or punctuation run) before them.
    pub fn word_left(&mut self)
        requires
            old(self).wf(),
        ensures
            final(self)@ == spec_word_left(old(self)@),
            final(self).wf(),
    {
        let pos = (self.cur_line, self.cur_col);
        let (q, found) = self.back_over_spaces(pos);
        let r = if !found {
            q
        } else {
            let class = self.char_class_at(q);
            self.back_over_class(q, class)
        };
        self.cur_line = r.0;
        self.cur_col = r.1;
    }

    // ---- editing ----------------------------------------------------------

    /// Types `ch` at the cursor: inserted in insert mode (or at the end of
    /// the line), otherwise replacing the character under the cursor.
    pub fn insert_char(&mut self, ch: char)
        requires
            old(self).wf(),
        ensures
            final(self)@ == spec_insert_char(old(self)@, ch),
            final(self).wf(),
    {
        let l = self.cur_line;
        let c = self.cur_col;
        let len = self.buffer.line_len(l);
        if self.insert_mode || c >= len {
            self.buffer.lines[l].insert(c, ch);
        } else {
            self.buffer.lines[l].set(c, ch);
        }
        let new_len = self.buffer.line_len(l);
        assert(c < new_len);
        self.cur_col = c + 1;
        self.buffer.dirty = true;
        assert(self@.lines =~= spec_insert_char(old(self)@, ch).lines);
    }

    /// Splits the line at the cursor and moves to the start of the new line.
    pub fn newline(&mut self)
        requires
            old(self)@.cursor_on_line(),
        ensures
            final(self)@ == spec_newline(old(self)@),
            final(self).wf(),
    {
        let l = self.cur_line;
        let len = self.buffer.line_len(l);
        let c = if self.cur_col < len { self.cur_col } else { len };
        let rest = self.buffer.lines[l].split_off(c);
        let n = self.buffer.lines.len();
        self.buffer.lines.insert(l + 1, rest);
        self.cur_line = l + 1;
        self.cur_col = 0;
        self.buffer.dirty = true;
        assert(self@.lines =~= split_line(old(self)@.lines, l as int, c as int));
    }

    /// Splits the line at the cursor, leaving the cursor where it is.
    pub fn open_line(&mut self)
        requires
            old(self)@.cursor_on_line(),
        ensures
            final(self)@ == spec_open_line(old(self)@),
            final(self)@.cursor_on_line(),
            old(self).wf() ==> final(self).wf(),
    {
        let l = self.cur_line;
        let len = self.buffer.line_len(l);
        let c = if self.cur_col < len { self.cur_col } else { len };
        let rest = self.buffer.lines[l].split_off(c);
        let n = self.buffer.lines.len();
        self.buffer.lines.insert(l + 1, rest);
        self.buffer.dirty = true;
        assert(self@.lines =~= split_line(old(self)@.lines, l as int, c as int));
    }

    /// Deletes the character under the cursor, or joins the next line at
    /// the end of a line.
    pub fn delete_char_right(&mut self)
        requires
            old(self)@.cursor_on_line(),
        ensures
            final(self)@ == spec_delete_char_right(old(self)@),
            final(self)@.cursor_on_line(),
            old(self).wf() ==> final(self).wf(),
    {
        let l = self.cur_line;
        let c = self.cur_col;
        let len = self.buffer.line_len(l);
        if c < len {
            self.buffer.lines[l].remove(c);
            self.buffer.dirty = true;
            assert(self@.lines =~= old(self)@.lines.update(l as int, old(self)@.lines[l as int].remove(c as int)));
        } else if l < self.buffer.num_lines() - 1 {
            let mut next = self.buffer.lines.remove(l + 1);
            self.buffer.lines[l].append(&mut next);
            self.buffer.dirty = true;
            assert(self@.lines =~= join_with_next(old(self)@.lines, l as int));
        }
    }

    /// Deletes the character before the cursor, or joins this line to the
    /// previous one at the start of a line.
    pub fn delete_char_left(&mut self)
        requires
            old(self).wf(),
        ensures
            final(self)@ == spec_delete_char_left(old(self)@),
            final(self).wf(),
    {
        let l = self.cur_line;
        let c = self.cur_col;
        if c > 0 {
            self.buffer.lines[l].remove(c - 1);
            self.cur_col = c - 1;
            self.buffer.dirty = true;
            assert(self@.lines =~= old(self)@.lines.update(l as int, old(self)@.lines[l as int].remove(c - 1)));
        } else if l > 0 {
            let mut cur = self.buffer.lines.remove(l);
            self.cur_line = l - 1;
            self.cur_col = self.buffer.line_len(l - 1);
            self.buffer.lines[l - 1].append(&mut cur);
            self.buffer.dirty = true;
            assert(self@.lines =~= join_with_next(old(self)@.lines, l - 1));
        }
    }

    /// Deletes from the cursor to where word-right would move it.
    pub fn delete_word_right(&mut self)
        requires
            old(self).wf(),
        ensures
            final(self)@ == spec_delete_word_right(old(self)@),
            final(self).wf(),
    {
        let start = (self.cur_line, self.cur_col);
        proof {
            lemma_word_right_forward(self@.lines, ipos(start));
        }
        self.word_right();
        let end = (self.cur_line, self.cur_col);
        self.cur_line = start.0;
        self.cur_col = start.1;
        if end.0 != start.0 || end.1 != start.1 {
            self.buffer.delete_range(start, end);
            proof {
                crate::buffer_laws::lemma_delete_keeps_a_line(old(self)@.lines, ipos(start), ipos(end));
                assert(self@.lines[start.0 as int] == old(self)@.lines[start.0 as int].take(start.1 as int)
                    + old(self)@.lines[end.0 as int].skip(end.1 as int));
            }
        }
    }

    fn clear_mark(&mut self)
        ensures
            final(self)@ == spec_clear_mark(old(self)@),
    {
        self.mark_start = None;
        self.mark_end = None;
        self.block_visible = false;
    }

    /// Deletes the cursor's line (or empties the only line), moves to the
    /// start of a line, and forgets the marked block.
    pub fn delete_line(&mut self)
        requires
            old(self)@.cursor_on_line(),
        ensures
            final(self)@ == spec_delete_line(old(self)@),
            final(self).wf(),
    {
        if self.buffer.num_lines() == 1 {
            self.buffer.lines[0].clear();
            self.cur_line = 0;
            assert(self@.lines =~= seq![Seq::<char>::empty()]);
        } else {
            let l = self.cur_line;
            self.buffer.lines.remove(l);
            if self.cur_line >= self.buffer.num_lines() {
                self.cur_line = self.buffer.num_lines() - 1;
            }
            assert(self@.lines =~= old(self)@.lines.remove(l as int));
        }
        self.cur_col = 0;
        self.buffer.dirty = true;
        self.clear_mark();
    }

    /// Deletes from the cursor to the end of its line.
    pub fn delete_to_eol(&mut self)
        requires
            old(self)@.cursor_on_line(),
        ensures
            final(self)@ == spec_delete_to_eol(old(self)@),
            final(self)@.cursor_on_line(),
            old(self).wf() ==> final(self).wf(),
    {
        let l = self.cur_line;
        let len = self.buffer.line_len(l);
        let c = if self.cur_col < len { self.cur_col } else { len };
        self.buffer.lines[l].truncate(c);
        self.buffer.dirty = true;
        assert(self@.lines =~= old(self)@.lines.update(l as int, old(self)@.lines[l as int].take(c as int)));
    }

    // ---- block operations -------------------------------------------------

    /// The marked block with its ends in reading order, when both are set.
    pub fn normalized_marks(&self) -> (r: Option<(Pos, Pos)>)
        ensures
            match r {
                Some((s, e)) => spec_normalized_marks(self@) == Some((ipos(s), ipos(e))),
                None => spec_normalized_marks(self@) is None,
            },
    {
        match (self.mark_start, self.mark_end) {
            (Some(a), Some(b)) => Some(
                if a.0 < b.0 || (a.0 == b.0 && a.1 <= b.1) {
                    (a, b)
                } else {
                    (b, a)
                },
            ),
            _ => None,
        }
    }

    /// Whether `s..e` is a range of the current text.
    fn is_range(&self, s: Pos, e: Pos) -> (r: bool)
        ensures
            r == valid_range(self@.lines, ipos(s), ipos(e)),
    {
        let n = self.buffer.num_lines();
        s.0 < n && e.0 < n && s.1 <= self.buffer.line_len(s.0) && e.1 <= self.buffer.line_len(e.0) && (s.0
            < e.0 || (s.0 == e.0 && s.1 <= e.1))
    }

    /// The marked block, when both ends are set and lie in the text.
    fn block(&self) -> (r: Option<(Pos, Pos)>)
        ensures
            match r {
                Some((s, e)) => marked_block(self@) == Some((ipos(s), ipos(e))),
                None => marked_block(self@) is None,
            },
    {
        match self.normalized_marks() {
            Some((s, e)) => if self.is_range(s, e) {
                Some((s, e))
            } else {
                None
            },
            None => None,
        }
    }

    fn copy_block(&mut self)
        requires
            old(self).wf(),
        ensures
            final(self)@ == spec_copy_block(old(self)@),
            final(self).wf(),
    {
        let (s, e) = match self.block() {
            Some(b) => b,
            None => {
                self.message = "No block marked".to_string();
                return ;
            },
        };
        let text = self.buffer.extract_range(s, e);
        let pos = (self.cur_line, self.cur_col);
        proof {
            lemma_insert_shape(self@.lines, ipos(pos), lines_view(text@));
        }
        let new_pos = self.buffer.insert_lines_at(pos, text.as_slice());
        self.cur_line = new_pos.0;
        self.cur_col = new_pos.1;
        self.message = "Block copied".to_string();
    }

    fn move_block(&mut self)
        requires
            old(self).wf(),
        ensures
            final(self)@ == spec_move_block(old(self)@),
            final(self).wf(),
    {
        let (s, e) = match self.normalized_marks() {
            Some(b) => b,
            None => {
                self.message = "No block marked".to_string();
                return ;
            },
        };
        let pos = (self.cur_line, self.cur_col);
        let after_start = s.0 < pos.0 || (s.0 == pos.0 && s.1 <= pos.1);
        let before_end = pos.0 < e.0 || (pos.0 == e.0 && pos.1 <= e.1);
        if after_start && before_end {
            self.message = "Cannot move a block into itself".to_string();
            return ;
        }
        if !self.is_range(s, e) {
            self.message = "No block marked".to_string();
            return ;
        }
        self.relocate_block(s, e);
    }

    fn relocate_block(&mut self, s: Pos, e: Pos)
        requires
            old(self).wf(),
            valid_range(old(self)@.lines, ipos(s), ipos(e)),
            !(pos_le(ipos(s), old(self)@.cursor()) && pos_le(old(self)@.cursor(), ipos(e))),
        ensures
            final(self)@ == spec_relocate_block(old(self)@, ipos(s), ipos(e)),
            final(self).wf(),
    {
        let pos = (self.cur_line, self.cur_col);
        let ghost t = self@.lines;
        let text = self.buffer.extract_range(s, e);
        let end_line_len = self.buffer.line_len(e.0);
        self.buffer.delete_range(s, e);
        proof {
            lemma_adjusted_pos_valid(t, ipos(s), ipos(e), ipos(pos));
        }
        let adj_pos = if pos.0 < s.0 || (pos.0 == s.0 && pos.1 < s.1) {
            pos
        } else {
            if pos.0 == e.0 {
                // The cursor keeps its distance from the end of the joined line.
                (s.0, self.buffer.line_len(s.0) - (end_line_len - pos.1))
            } else {
                (pos.0 - (e.0 - s.0), pos.1)
            }
        };
        assert(ipos(adj_pos) == adjusted_pos(ipos(pos), ipos(s), ipos(e)));
        proof {
            lemma_insert_shape(self@.lines, ipos(adj_pos), lines_view(text@));
        }
        let new_end = self.buffer.insert_lines_at(adj_pos, text.as_slice());
        self.cur_line = new_end.0;
        self.cur_col = new_end.1;
        self.mark_start = Some(adj_pos);
        self.mark_end = Some(new_end);
        self.message = "Block moved".to_string();
    }

    fn delete_block(&mut self)
        requires
            old(self)@.cursor_on_line(),
        ensures
            final(self)@ == spec_delete_block(old(self)@),
            final(self)@.cursor_on_line(),
            old(self).wf() ==> final(self).wf(),
    {
        let (s, e) = match self.normalized_marks() {
            Some(b) => b,
            None => {
                self.message = "No block marked".to_string();
                return ;
            },
        };
        let n = self.buffer.num_lines();
        let deletable = e.0 < n && e.1 <= self.buffer.line_len(e.0) && (s.0 < e.0 || (s.0 == e.0
            && s.1 <= e.1));
        if !deletable {
            self.message = "No block marked".to_string();
            return ;
        }
        let ghost t = self@.lines;
        let ghost s2 = start_in_line(t, ipos(s));
        self.buffer.delete_range(s, e);
        proof {
            crate::buffer_laws::lemma_delete_keeps_a_line(t, s2, ipos(e));
        }
        let p = self.buffer.clamp(s);
        self.cur_line = p.0;
        self.cur_col = p.1;
        self.clear_mark();
        self.message = "Block deleted".to_string();
    }

    // ---- search and replace -------------------------------------------------

    /// Searches for `needle` from `from` (case-insensitively, wrapping) and
    /// selects the match, or reports that there is none.
    fn find_and_select(&mut self, needle_str: &str, from: Pos)
        requires
            old(self)@.cursor_on_line(),
        ensures
            final(self)@ == after_find(old(self)@, needle_str@, ipos(from)),
            final(self)@.cursor_on_line(),
            old(self).wf() ==> final(self).wf(),
    {
        let needle = chars_of(needle_str);
        proof {
            lemma_find_sound(self@.lines, ipos(from), needle@, false, true);
        }
        match self.buffer.find_from(from, needle.as_slice(), false, true) {
            Some((s, e, wrapped)) => {
                self.cur_line = s.0;
                self.cur_col = s.1;
                self.mark_start = Some(s);
                self.mark_end = Some(e);
                self.block_visible = true;
                self.last_match_end = Some(e);
                self.message = if wrapped {
                    "Found (search wrapped)".to_string()
                } else {
                    "Found".to_string()
                };
            },
            None => {
                let mut msg = "\"".to_string();
                msg.append(needle_str);
                msg.append("\" not found");
                self.message = msg;
            },
        }
    }

    fn do_find(&mut self, needle_str: &str)
        requires
            old(self).wf(),
        ensures
            final(self)@ == spec_do_find(old(self)@, needle_str@),
            final(self).wf(),
    {
        let from = (self.cur_line, self.cur_col);
        self.find_and_select(needle_str, from);
    }

    fn repeat_find(&mut self)
        requires
            old(self)@.cursor_on_line(),
        ensures
            final(self)@ == spec_repeat_find(old(self)@),
            final(self)@.cursor_on_line(),
            old(self).wf() ==> final(self).wf(),
    {
        let text = match &self.last_search {
            Some(t) => t.clone(),
            None => {
                self.message = "No previous Find/Replace".to_string();
                return ;
            },
        };
        let from = match self.last_match_end {
            Some(p) => p,
            None => (self.cur_line, self.cur_col),
        };
        self.find_and_select(text.as_str(), from);
    }

    /// Replaces the text `s..e` with `replace`; returns the end of the
    /// replacement.
    fn do_replace_at(&mut self, s: Pos, e: Pos, replace: &str) -> (r: Pos)
        requires
            old(self).wf(),
            valid_range(old(self)@.lines, ipos(s), ipos(e)),
        ensures
            final(self)@ == old(self)@.with_text(replaced_text(old(self)@.lines, ipos(s), ipos(e), replace@).0),
            ipos(r) == replaced_text(old(self)@.lines, ipos(s), ipos(e), replace@).1,
            valid_pos(final(self)@.lines, ipos(r)),
            final(self).buffer.wf(),
    {
        let ghost t = self@.lines;
        self.buffer.delete_range(s, e);
        proof {
            crate::buffer_laws::lemma_delete_keeps_a_line(t, ipos(s), ipos(e));
            assert(self@.lines[s.0 as int] == t[s.0 as int].take(s.1 as int) + t[e.0 as int].skip(e.1 as int));
        }
        let repl_lines = crate::buffer::text_to_lines(replace);
        proof {
            lemma_insert_shape(self@.lines, ipos(s), lines_view(repl_lines@));
        }
        self.buffer.insert_lines_at(s, repl_lines.as_slice())
    }

    /// Looks for the next match from the cursor without wrapping: in "all"
    /// mode replaces every match in turn (at most `replace_limit()` of
    /// them), otherwise stops at the match to ask about it.
    #[verifier::rlimit(60)]
    fn try_next_replace_match(&mut self, search: String, replace: String, replace_all: bool)
        requires
            old(self).wf(),
        ensures
            final(self)@ == spec_replace_loop(old(self)@, search@, replace@, replace_all, 0),
            final(self).wf(),
    {
        let needle = chars_of(search.as_str());
        let mut guard: usize = 0;
        loop
            invariant
                self.wf(),
                needle@ == search@,
                0 <= guard <= replace_limit(),
                spec_replace_loop(old(self)@, search@, replace@, replace_all, 0) == spec_replace_loop(
                    self@,
                    search@,
                    replace@,
                    replace_all,
                    guard as int,
                ),
            decreases replace_limit() - guard,
        {
            let from = (self.cur_line, self.cur_col);
            proof {
                lemma_find_sound(self@.lines, ipos(from), needle@, false, false);
                reveal(spec_replace_loop);
            }
            match self.buffer.find_from(from, needle.as_slice(), false, false) {
                Some((s, e, wrapped)) => {
                    self.cur_line = s.0;
                    self.cur_col = s.1;
                    self.mark_start = Some(s);
                    self.mark_end = Some(e);
                    self.block_visible = true;
                    self.last_match_end = Some(e);
                    if replace_all {
                        guard = guard + 1;
                        if guard > 200_000 {
                            self.message = "Too many replacements; stopped.".to_string();
                            self.replace_state = None;
                            return ;
                        }
                        let end_pos = self.do_replace_at(s, e, replace.as_str());
                        self.cur_line = end_pos.0;
                        self.cur_col = end_pos.1;
                    } else {
                        let mut msg = "Replace this occurrence? Y)es N)o A)ll Esc)stop".to_string();
                        if wrapped {
                            msg.append(" [wrapped]");
                        }
                        self.message = msg;
                        self.replace_state = Some(
                            ReplaceState { search, replace, match_start: s, match_end: e },
                        );
                        return ;
                    }
                },
                None => {
                    self.replace_state = None;
                    self.clear_mark();
                    self.message = if replace_all {
                        "Replace complete.".to_string()
                    } else {
                        "No occurrences found.".to_string()
                    };
                    return ;
                },
            }
        }
    }

    fn begin_replace(&mut self, search: String, replace: String)
        requires
            old(self).wf(),
        ensures
            final(self)@ == spec_begin_replace(old(self)@, search@, replace@),
            final(self).wf(),
    {
        if search.as_str().is_empty() {
            self.message = "Replace cancelled (empty search)".to_string();
            return ;
        }
        self.last_search = Some(search.clone());
        self.try_next_replace_match(search, replace, false);
    }

    /// Answers the "Replace this occurrence?" question: `y` replaces and
    /// goes on, `n` skips, `a` replaces this and all later matches, any
    /// other key stops.
    #[verifier::rlimit(60)]
    fn handle_replace_confirm_key(&mut self, ev: KeyEvent)
        requires
            old(self).wf(),
        ensures
            final(self)@ == spec_replace_confirm_key(old(self)@, ev),
            final(self).wf(),
    {
        let mut taken: Option<ReplaceState> = None;
        std::mem::swap(&mut taken, &mut self.replace_state);
        let state = match taken {
            Some(st) => st,
            None => {
                return ;
            },
        };
        if !self.is_range(state.match_start, state.match_end) {
            self.clear_mark();
            self.message = "Replace stopped.".to_string();
            return ;
        }
        self.answer_replace(state, ev);
    }

    #[verifier::rlimit(60)]
    fn answer_replace(&mut self, state: ReplaceState, ev: KeyEvent)
        requires
            old(self).wf(),
            valid_range(old(self)@.lines, ipos(state.match_start), ipos(state.match_end)),
        ensures
            final(self)@ == spec_replace_answer(
                old(self)@,
                ReplaceModel {
                    search: state.search@,
                    replace: state.replace@,
                    match_start: ipos(state.match_start),
                    match_end: ipos(state.match_end),
                },
                ev,
            ),
            final(self).wf(),
    {
        let ReplaceState { search, replace, match_start, match_end } = state;
        match ev.code {
            KeyCode::Char(c) => {
                if c == 'y' || c == 'Y' {
                    let end_pos = self.do_replace_at(match_start, match_end, replace.as_str());
                    self.cur_line = end_pos.0;
                    self.cur_col = end_pos.1;
                    self.try_next_replace_match(search, replace, false);
                } else if c == 'n' || c == 'N' {
                    self.cur_line = match_end.0;
                    self.cur_col = match_end.1;
                    self.try_next_replace_match(search, replace, false);
                } else if c == 'a' || c == 'A' {
                    self.cur_line = match_start.0;
                    self.cur_col = match_start.1;
                    self.try_next_replace_match(search, replace, true);
                } else {
                    self.clear_mark();
                    self.message = "Replace stopped.".to_string();
                }
            },
            _ => {
                self.clear_mark();
                self.message = "Replace stopped.".to_string();
            },
        }
    }

    // ---- prompts ------------------------------------------------------------

    fn start_prompt(&mut self, kind: PromptKind, label: &str)
        ensures
            final(self)@ == spec_start_prompt(old(self)@, kind, label@),
    {
        self.prompt = Some(kind);
        self.prompt_input = String::new();
        self.prompt_label = label.to_string();
    }

    fn submit_find(&mut self, input: String) -> (r: Option<IoRequest>)
        requires
            old(self).wf(),
        ensures
            (final(self)@, request_view(r)) == spec_submit_find(old(self)@, input@),
            final(self).wf(),
    {
        if input.as_str().is_empty() {
            self.message = "Find cancelled (empty)".to_string();
            return None;
        }
        self.last_search = Some(input.clone());
        self.do_find(input.as_str());
        None
    }

    fn submit_replace_search(&mut self, input: String) -> (r: Option<IoRequest>)
        requires
            old(self).wf(),
        ensures
            (final(self)@, request_view(r)) == spec_submit_replace_search(old(self)@, input@),
            final(self).wf(),
    {
        if input.as_str().is_empty() {
            self.message = "Replace cancelled (empty search)".to_string();
            return None;
        }
        self.pending_replace_search = Some(input.clone());
        let mut label = "Replace \"".to_string();
        label.append(input.as_str());
        label.append("\" with:");
        self.start_prompt(PromptKind::ReplaceWith, label.as_str());
        None
    }

    fn submit_replace_with(&mut self, input: String) -> (r: Option<IoRequest>)
        requires
            old(self).wf(),
        ensures
            (final(self)@, request_view(r)) == spec_submit_replace_with(old(self)@, input@),
            final(self).wf(),
    {
        let mut pending: Option<String> = None;
        std::mem::swap(&mut pending, &mut self.pending_replace_search);
        let search = match pending {
            Some(s) => s,
            None => String::new(),
        };
        self.begin_replace(search, input);
        None
    }

    fn submit_save_as(&mut self, then: SaveThen, input: String) -> (r: Option<IoRequest>)
        requires
            old(self).wf(),
        ensures
            (final(self)@, request_view(r)) == spec_submit_save_as(old(self)@, then, input@),
            final(self).wf(),
    {
        if input.as_str().is_empty() {
            self.message = "Save cancelled".to_string();
            return None;
        }
        let contents = self.buffer.file_contents();
        self.pending_io = Some(PendingIo::SaveAs(then, input.clone()));
        Some(IoRequest::Write { path: input, contents })
    }

    fn submit_write_block(&mut self, input: String) -> (r: Option<IoRequest>)
        requires
            old(self).wf(),
        ensures
            (final(self)@, request_view(r)) == spec_submit_write_block(old(self)@, input@),
            final(self).wf(),
    {
        if input.as_str().is_empty() {
            self.message = "Cancelled".to_string();
            return None;
        }
        match self.block() {
            Some((s, e)) => {
                let text = self.buffer.extract_range(s, e);
                let contents = self.buffer.block_contents(text.as_slice());
                self.pending_io = Some(PendingIo::WriteBlock(input.clone()));
                Some(IoRequest::Write { path: input, contents })
            },
            None => {
                self.message = "No block marked".to_string();
                None
            },
        }
    }

    fn submit_read_file(&mut self, input: String) -> (r: Option<IoRequest>)
        requires
            old(self).wf(),
        ensures
            (final(self)@, request_view(r)) == spec_submit_read_file(old(self)@, input@),
            final(self).wf(),
    {
        if input.as_str().is_empty() {
            self.message = "Cancelled".to_string();
            return None;
        }
        self.pending_io = Some(PendingIo::ReadFile(input.clone()));
        Some(IoRequest::Read { path: input })
    }

    fn submit_go_to_line(&mut self, input: String) -> (r: Option<IoRequest>)
        requires
            old(self).wf(),
        ensures
            (final(self)@, request_view(r)) == spec_submit_go_to_line(old(self)@, input@),
            final(self).wf(),
    {
        match parse_line_number(input.as_str()) {
            Some(n) => {
                if n >= 1 {
                    let last = self.buffer.num_lines() - 1;
                    self.cur_line = if n - 1 < last { n - 1 } else { last };
                    self.cur_col = 0;
                } else {
                    self.message = "Invalid line number".to_string();
                }
            },
            None => {
                self.message = "Invalid line number".to_string();
            },
        }
        None
    }

    fn submit_confirm_quit(&mut self, input: String) -> (r: Option<IoRequest>)
        requires
            old(self).wf(),
        ensures
            (final(self)@, request_view(r)) == spec_submit_confirm_quit(old(self)@, input@),
            final(self).wf(),
    {
        let cs = chars_of(input.as_str());
        if cs.len() == 1 && (cs[0] == 'y' || cs[0] == 'Y') {
            assert(input@ =~= seq![cs@[0]]);
            self.quit = true;
        } else {
            assert(input@ != seq!['y'] && input@ != seq!['Y']) by {
                if cs@.len() == 1 {
                    assert(cs@[0] != seq!['y'][0] && cs@[0] != seq!['Y'][0]);
                }
            }
            self.message = "Quit cancelled".to_string();
        }
        None
    }

    fn submit_prompt(&mut self, kind: PromptKind, input: String) -> (r: Option<IoRequest>)
        requires
            old(self).wf(),
        ensures
            (final(self)@, request_view(r)) == spec_submit_prompt(old(self)@, kind, input@),
            final(self).wf(),
    {
        proof {
            reveal(spec_submit_prompt);
        }
        match kind {
            PromptKind::Find => self.submit_find(input),
            PromptKind::ReplaceSearch => self.submit_replace_search(input),
            PromptKind::ReplaceWith => self.submit_replace_with(input),
            PromptKind::SaveAs(then) => self.submit_save_as(then, input),
            PromptKind::WriteBlock => self.submit_write_block(input),
            PromptKind::ReadFile => self.submit_read_file(input),
            PromptKind::GoToLine => self.submit_go_to_line(input),
            PromptKind::ConfirmQuit => self.submit_confirm_quit(input),
        }
    }

    #[verifier::rlimit(40)]
    fn handle_prompt_key(&mut self, ev: KeyEvent) -> (r: Option<IoRequest>)
        requires
            old(self).wf(),
        ensures
            (final(self)@, request_view(r)) == spec_prompt_key(old(self)@, ev),
            final(self).wf(),
    {
        let kind = match self.prompt {
            Some(k) => k,
            None => {
                return None;
            },
        };
        match ev.code {
            KeyCode::Esc => {
                self.prompt = None;
                self.prompt_input = String::new();
                self.message = "Cancelled".to_string();
                None
            },
            KeyCode::Enter => {
                let mut input = String::new();
                std::mem::swap(&mut input, &mut self.prompt_input);
                self.prompt = None;
                self.submit_prompt(kind, input)
            },
            KeyCode::Backspace => {
                pop_char(&mut self.prompt_input);
                None
            },
            KeyCode::Char(c) => {
                if ev.ctrl {
                    if c == 'h' || c == 'H' {
                        pop_char(&mut self.prompt_input);
                    }
                } else {
                    push_char(&mut self.prompt_input, c);
                }
                None
            },
            _ => None,
        }
    }

    // ---- files --------------------------------------------------------------

    fn do_save(&mut self, then: SaveThen) -> (r: Option<IoRequest>)
        requires
            old(self)@.cursor_on_line(),
        ensures
            (final(self)@, request_view(r)) == spec_do_save(old(self)@, then),
            final(self)@.cursor_on_line(),
            old(self).wf() ==> final(self).wf(),
    {
        match &self.buffer.filename {
            Some(name) => {
                let path = name.clone();
                let contents = self.buffer.file_contents();
                self.pending_io = Some(PendingIo::Save(then));
                Some(IoRequest::Write { path, contents })
            },
            None => {
                self.start_prompt(PromptKind::SaveAs(then), "Save as:");
                None
            },
        }
    }

    /// Reports the outcome of the write that the editor asked for (`Err`
    /// with the error's text): a save clears the modified flag (and takes
    /// the new name, or quits, as asked); the status line tells the result.
    /// Does nothing when no write is pending.
    pub fn finish_write(&mut self, result: Result<(), String>)
        requires
            old(self).wf(),
        ensures
            final(self)@ == spec_finish_write(
                old(self)@,
                match result {
                    Ok(()) => Ok(()),
                    Err(e) => Err(e@),
                },
            ),
            final(self).wf(),
    {
        let is_write = match &self.pending_io {
            Some(PendingIo::Save(_)) => true,
            Some(PendingIo::SaveAs(_, _)) => true,
            Some(PendingIo::WriteBlock(_)) => true,
            _ => false,
        };
        if !is_write {
            return ;
        }
        let mut pending: Option<PendingIo> = None;
        std::mem::swap(&mut pending, &mut self.pending_io);
        match pending {
            Some(PendingIo::Save(then)) => {
                match self.buffer.save(result) {
                    Ok(p) => {
                        let mut msg = "Saved ".to_string();
                        msg.append(p.as_str());
                        self.message = msg;
                        if let SaveThen::Exit = then {
                            self.quit = true;
                        }
                    },
                    Err(e) => {
                        let mut msg = "Save failed: ".to_string();
                        msg.append(e.as_str());
                        self.message = msg;
                    },
                }
            },
            Some(PendingIo::SaveAs(then, path)) => {
                match self.buffer.save_as(path, result) {
                    Ok(()) => {
                        let mut msg = "Saved ".to_string();
                        let name = self.buffer.display_name();
                        msg.append(name.as_str());
                        self.message = msg;
                        if let SaveThen::Exit = then {
                            self.quit = true;
                        }
                    },
                    Err(e) => {
                        let mut msg = "Save failed: ".to_string();
                        msg.append(e.as_str());
                        self.message = msg;
                    },
                }
            },
            Some(PendingIo::WriteBlock(path)) => {
                match result {
                    Ok(()) => {
                        let mut msg = "Block written to ".to_string();
                        msg.append(path.as_str());
                        self.message = msg;
                    },
                    Err(e) => {
                        let mut msg = "Write failed: ".to_string();
                        msg.append(e.as_str());
                        self.message = msg;
                    },
                }
            },
            _ => {},
        }
    }

    /// Reports the outcome of the read that the editor asked for (`Ok` with
    /// the file's contents, `Err` with the error's text): the text is
    /// inserted at the cursor, which moves to its end. Does nothing when no
    /// read is pending.
    pub fn finish_read(&mut self, result: Result<String, String>)
        requires
            old(self).wf(),
        ensures
            final(self)@ == spec_finish_read(
                old(self)@,
                match result {
                    Ok(c) => Ok(c@),
                    Err(e) => Err(e@),
                },
            ),
            final(self).wf(),
    {
        let is_read = match &self.pending_io {
            Some(PendingIo::ReadFile(_)) => true,
            _ => false,
        };
        if !is_read {
            return ;
        }
        let mut pending: Option<PendingIo> = None;
        std::mem::swap(&mut pending, &mut self.pending_io);
        if let Some(PendingIo::ReadFile(path)) = pending {
            match result {
                Ok(content) => {
                    let lines = crate::buffer::text_to_lines(content.as_str());
                    let pos = (self.cur_line, self.cur_col);
                    proof {
                        lemma_insert_shape(self@.lines, ipos(pos), lines_view(lines@));
                    }
                    let new_pos = self.buffer.insert_lines_at(pos, lines.as_slice());
                    self.cur_line = new_pos.0;
                    self.cur_col = new_pos.1;
                    self.buffer.dirty = true;
                    let mut msg = "Read ".to_string();
                    msg.append(path.as_str());
                    self.message = msg;
                },
                Err(e) => {
                    let mut msg = "Read failed: ".to_string();
                    msg.append(e.as_str());
                    self.message = msg;
                },
            }
        }
    }

    // ---- viewport -------------------------------------------------------

    /// Records the size of the text area on screen.
    pub fn set_viewport(&mut self, rows: usize, cols: usize)
        ensures
            final(self)@ == (EditorModel { text_rows: rows as int, text_cols: cols as int, ..old(self)@ }),
    {
        self.text_rows = rows;
        self.text_cols = cols;
    }

    fn display_col(&self, line: usize, col: usize) -> (r: usize)
        requires
            line < self.buffer.lines@.len(),
            prefix_len(self@.lines[line as int].len() as int, col as int) * (TAB_SIZE + 3) <= usize::MAX,
        ensures
            r == spec_display_width(self@.lines[line as int], col as int, TAB_SIZE as int),
    {
        display_width(self.buffer.lines[line].as_slice(), col, TAB_SIZE)
    }

    /// The display column of the cursor (tabs and wide characters counted).
    pub fn cursor_display_col(&self) -> (r: usize)
        requires
            self.wf(),
            self.cur_col * (TAB_SIZE + 3) <= usize::MAX,
        ensures
            r == spec_display_width(self@.lines[self.cur_line as int], self.cur_col as int, TAB_SIZE as int),
    {
        self.display_col(self.cur_line, self.cur_col)
    }

    /// Scrolls the view so that the cursor is inside the text area.
    pub fn ensure_visible(&mut self)
        requires
            old(self).wf(),
            old(self).cur_col * (TAB_SIZE + 3) <= usize::MAX,
        ensures
            final(self)@ == spec_ensure_visible(
                old(self)@,
                spec_display_width(
                    old(self)@.lines[old(self).cur_line as int],
                    old(self).cur_col as int,
                    TAB_SIZE as int,
                ),
            ),
            final(self).wf(),
    {
        let rows = if self.text_rows > 1 { self.text_rows } else { 1 };
        if self.cur_line < self.top_line {
            self.top_line = self.cur_line;
        } else if self.cur_line - self.top_line >= rows {
            self.top_line = self.cur_line - rows + 1;
        }
        let cols = if self.text_cols > 1 { self.text_cols } else { 1 };
        let dcol = self.display_col(self.cur_line, self.cur_col);
        if dcol < self.left_col {
            self.left_col = dcol;
        } else if dcol - self.left_col >= cols {
            self.left_col = dcol - cols + 1;
        }
    }

    // ---- commands and keys ------------------------------------------------

    fn go_to_mark(&mut self, mark: Option<Pos>)
        requires
            old(self)@.cursor_on_line(),
        ensures
            final(self)@ == (match mark {
                Some(p) => old(self)@.with_cursor(ipos(p)),
                None => old(self)@.with_message("No block marked"@),
            }),
            final(self).buffer.wf(),
    {
        match mark {
            Some(p) => {
                self.cur_line = p.0;
                self.cur_col = p.1;
            },
            None => {
                self.message = "No block marked".to_string();
            },
        }
    }

    fn set_cursor(&mut self, p: Pos)
        ensures
            final(self)@ == old(self)@.with_cursor(ipos(p)),
    {
        self.cur_line = p.0;
        self.cur_col = p.1;
    }

    fn screen_top(&mut self)
        requires
            old(self)@.cursor_on_line(),
        ensures
            final(self)@ == old(self)@.with_cursor(
                (min(old(self)@.top_line, old(self)@.lines.len() - 1), old(self)@.cur_col),
            ),
            final(self).buffer.wf(),
    {
        let last = self.buffer.num_lines() - 1;
        self.cur_line = if self.top_line < last { self.top_line } else { last };
    }

    fn screen_bottom(&mut self)
        requires
            old(self)@.cursor_on_line(),
        ensures
            final(self)@ == old(self)@.with_cursor(
                (
                    min(old(self)@.top_line + max(old(self)@.text_rows - 1, 0), old(self)@.lines.len() - 1),
                    old(self)@.cur_col,
                ),
            ),
            final(self).buffer.wf(),
    {
        let last = self.buffer.num_lines() - 1;
        let down = if self.text_rows > 0 { self.text_rows - 1 } else { 0 };
        self.cur_line = if self.top_line < last && down < last - self.top_line {
            self.top_line + down
        } else {
            last
        };
    }

    #[verifier::rlimit(40)]
    fn run_motion(&mut self, cmd: Command) -> (r: Option<IoRequest>)
        requires
            old(self).wf() || (old(self)@.cursor_on_line() && ignores_column(cmd)),
            command_group(cmd) == 0,
        ensures
            (final(self)@, request_view(r)) == spec_motion_command(old(self)@, cmd),
            final(self).buffer.wf(),
    {
        match cmd {
            Command::MoveUp => self.move_up(),
            Command::MoveDown => self.move_down(),
            Command::MoveLeft => self.move_left(),
            Command::MoveRight => self.move_right(),
            Command::WordLeft => self.word_left(),
            Command::WordRight => self.word_right(),
            Command::LineStart => self.set_cursor((self.cur_line, 0)),
            Command::LineEnd => {
                let len = self.buffer.line_len(self.cur_line);
                self.set_cursor((self.cur_line, len));
            },
            Command::ScreenTop => self.screen_top(),
            Command::ScreenBottom => self.screen_bottom(),
            Command::DocStart => self.set_cursor((0, 0)),
            Command::DocEnd => {
                let last = self.buffer.num_lines() - 1;
                let len = self.buffer.line_len(last);
                self.set_cursor((last, len));
            },
            Command::PageUp => self.page_up(),
            Command::PageDown => self.page_down(),
            Command::GoToBlockBegin => {
                let mark = self.mark_start;
                self.go_to_mark(mark);
            },
            Command::GoToBlockEnd => {
                let mark = self.mark_end;
                self.go_to_mark(mark);
            },
            Command::GoToLinePrompt => self.start_prompt(PromptKind::GoToLine, "Go to line:"),
            _ => {},
        }
        None
    }

    fn run_edit(&mut self, cmd: Command) -> (r: Option<IoRequest>)
        requires
            old(self).wf() || (old(self)@.cursor_on_line() && ignores_column(cmd)),
            command_group(cmd) == 1,
        ensures
            (final(self)@, request_view(r)) == spec_edit_command(old(self)@, cmd),
            final(self).buffer.wf(),
            old(self).wf() ==> final(self).wf(),
    {
        match cmd {
            Command::InsertChar(c) => self.insert_char(c),
            Command::Enter => self.newline(),
            Command::Tab => self.insert_char('\t'),
            Command::OpenLine => self.open_line(),
            Command::DeleteCharRight => self.delete_char_right(),
            Command::DeleteCharLeft => self.delete_char_left(),
            Command::DeleteWordRight => self.delete_word_right(),
            Command::DeleteLine => self.delete_line(),
            Command::DeleteToEol => self.delete_to_eol(),
            Command::ToggleInsertMode => {
                self.insert_mode = !self.insert_mode;
            },
            _ => {},
        }
        None
    }

    #[verifier::rlimit(40)]
    fn run_block(&mut self, cmd: Command) -> (r: Option<IoRequest>)
        requires
            old(self).wf() || (old(self)@.cursor_on_line() && ignores_column(cmd)),
            command_group(cmd) == 2,
        ensures
            (final(self)@, request_view(r)) == spec_block_command(old(self)@, cmd),
            final(self).buffer.wf(),
            old(self).wf() ==> final(self).wf(),
    {
        match cmd {
            Command::MarkBegin => {
                self.mark_start = Some((self.cur_line, self.cur_col));
                self.block_visible = true;
                self.message = "Block begin".to_string();
            },
            Command::MarkEnd => {
                self.mark_end = Some((self.cur_line, self.cur_col));
                self.block_visible = true;
                self.message = "Block end".to_string();
            },
            Command::CopyBlock => self.copy_block(),
            Command::MoveBlock => self.move_block(),
            Command::DeleteBlock => self.delete_block(),
            Command::HideBlock => {
                if self.mark_start.is_none() && self.mark_end.is_none() {
                    self.message = "No block marked".to_string();
                } else {
                    self.block_visible = !self.block_visible;
                }
            },
            Command::WriteBlockPrompt => self.start_prompt(PromptKind::WriteBlock, "Write block to file:"),
            Command::ReadFilePrompt => self.start_prompt(PromptKind::ReadFile, "Read file into text:"),
            _ => {},
        }
        None
    }

    #[verifier::rlimit(40)]
    fn run_other(&mut self, cmd: Command) -> (r: Option<IoRequest>)
        requires
            old(self).wf() || (old(self)@.cursor_on_line() && ignores_column(cmd)),
            command_group(cmd) == 3,
        ensures
            (final(self)@, request_view(r)) == spec_other_command(old(self)@, cmd),
            final(self).buffer.wf(),
            old(self).wf() ==> final(self).wf(),
    {
        match cmd {
            Command::NoOp => {},
            Command::Beep => {
                self.message = "Not a WordStar command".to_string();
            },
            Command::CancelPrefix => {
                self.message = "Cancelled".to_string();
            },
            Command::Save => {
                return self.do_save(SaveThen::Stay);
            },
            Command::SaveDone => {
                return self.do_save(SaveThen::Stay);
            },
            Command::SaveExitPrompt => {
                return self.do_save(SaveThen::Exit);
            },
            Command::QuitPrompt => {
                if self.buffer.dirty {
                    self.start_prompt(PromptKind::ConfirmQuit, "Abandon changes since last save? (Y/N):");
                } else {
                    self.quit = true;
                }
            },
            Command::FindPrompt => self.start_prompt(PromptKind::Find, "Find:"),
            Command::ReplacePrompt => self.start_prompt(PromptKind::ReplaceSearch, "Find:"),
            Command::RepeatFind => self.repeat_find(),
            Command::ToggleMenu => {
                self.menu_visible = !self.menu_visible;
            },
            Command::Help => {
                self.help_visible = true;
            },
            _ => {},
        }
        None
    }

    fn group_of(cmd: Command) -> (r: u8)
        ensures
            r == command_group(cmd),
    {
        match cmd {
            Command::MoveUp => 0,
            Command::MoveDown => 0,
            Command::MoveLeft => 0,
            Command::MoveRight => 0,
            Command::WordLeft => 0,
            Command::WordRight => 0,
            Command::LineStart => 0,
            Command::LineEnd => 0,
            Command::ScreenTop => 0,
            Command::ScreenBottom => 0,
            Command::DocStart => 0,
            Command::DocEnd => 0,
            Command::PageUp => 0,
            Command::PageDown => 0,
            Command::GoToBlockBegin => 0,
            Command::GoToBlockEnd => 0,
            Command::GoToLinePrompt => 0,
            Command::InsertChar(_) => 1,
            Command::Enter => 1,
            Command::Tab => 1,
            Command::OpenLine => 1,
            Command::DeleteCharRight => 1,
            Command::DeleteCharLeft => 1,
            Command::DeleteWordRight => 1,
            Command::DeleteLine => 1,
            Command::DeleteToEol => 1,
            Command::ToggleInsertMode => 1,
            Command::MarkBegin => 2,
            Command::MarkEnd => 2,
            Command::CopyBlock => 2,
            Command::MoveBlock => 2,
            Command::DeleteBlock => 2,
            Command::HideBlock => 2,
            Command::WriteBlockPrompt => 2,
            Command::ReadFilePrompt => 2,
            _ => 3,
        }
    }

    fn run_command(&mut self, cmd: Command) -> (r: Option<IoRequest>)
        requires
            old(self).wf() || (old(self)@.cursor_on_line() && ignores_column(cmd)),
        ensures
            (final(self)@, request_view(r)) == spec_command(old(self)@, cmd),
            final(self).buffer.wf(),
    {
        proof {
            reveal(spec_command);
        }
        let group = Self::group_of(cmd);
        if group == 0 {
            self.run_motion(cmd)
        } else if group == 1 {
            self.run_edit(cmd)
        } else if group == 2 {
            self.run_block(cmd)
        } else {
            self.run_other(cmd)
        }
    }

    /// Executes a command: clears the status message (unless the command
    /// does nothing), applies it, then clamps the cursor into the text.
    #[verifier::rlimit(40)]
    pub fn execute(&mut self, cmd: Command) -> (r: Option<IoRequest>)
        requires
            old(self).wf() || (old(self)@.cursor_on_line() && ignores_column(cmd)),
        ensures
            (final(self)@, request_view(r)) == spec_execute(old(self)@, cmd),
            final(self).wf(),
    {
        if cmd != Command::NoOp {
            self.message = String::new();
        }
        let r = self.run_command(cmd);
        self.clamp_cursor();
        r
    }

    /// Handles one key press: closes the help screen, answers an open
    /// prompt or a pending replace question, or translates the key into a
    /// command and executes it. Returns the file operation that the caller
    /// must perform and report back, if any.
    pub fn handle_key(&mut self, ev: KeyEvent) -> (r: Option<IoRequest>)
        requires
            old(self).wf() || {
                &&& old(self)@.cursor_on_line()
                &&& !old(self).help_visible
                &&& old(self).prompt is None
                &&& old(self).replace_state is None
                &&& ignores_column(spec_translate(ev, old(self).prefix).0)
            },
        ensures
            (final(self)@, request_view(r)) == spec_handle_key(old(self)@, ev),
            final(self).wf(),
    {
        if self.help_visible {
            self.help_visible = false;
            return None;
        }
        if self.prompt.is_some() {
            return self.handle_prompt_key(ev);
        }
        if self.replace_state.is_some() {
            self.handle_replace_confirm_key(ev);
            return None;
        }
        let cmd = translate(ev, &mut self.prefix);
        self.execute(cmd)
    }
}

} // verus!
