//! What the terminal shows: the layout of the screen, the ruler, the rows of
//! text with the marked block, the key menu, the status line and the help
//! box, as plain strings for the front end to print.

use vstd::prelude::*;

use crate::buffer::{ipos, pos_le};
use crate::chars::{chars_of, push_char};
use crate::editor::Editor;
use crate::editor_model::{max, min, spec_normalized_marks, EditorModel};
use crate::keymap::PrefixState;
use crate::util::{char_display_width, spec_char_width, spec_display_width, TAB_SIZE};

verus! {

/// Where the parts of the screen go.
pub struct Layout {
    /// Width of the screen in columns (at least 1).
    pub cols: usize,
    /// Height of the screen in rows (at least 1).
    pub rows: usize,
    /// Rows of text shown below the ruler (at least 1).
    pub text_rows: usize,
    /// First row of the key menu.
    pub menu_row: usize,
    /// Row of the status line.
    pub status_row: usize,
}

/// The screen layout for a terminal of the given size: a ruler on top, then
/// the text, then the three-line key menu (when shown) and the status line.
pub fn screen_layout(term_cols: u16, term_rows: u16, menu_visible: bool) -> (r: Layout)
    ensures
        r.cols == max(term_cols as int, 1),
        r.rows == max(term_rows as int, 1),
        r.text_rows == max(r.rows - (2 + if menu_visible { 3int } else { 0int }), 1),
        r.menu_row == min(1 + r.text_rows, r.rows - 1),
        r.status_row == min(r.menu_row + if menu_visible { 3int } else { 0int }, r.rows - 1),
        r.cols <= 65535 && r.rows <= 65535,
{
    let cols: usize = if term_cols as usize > 1 { term_cols as usize } else { 1 };
    let rows: usize = if term_rows as usize > 1 { term_rows as usize } else { 1 };
    let reserved: usize = if menu_visible { 5 } else { 2 };
    let text_rows: usize = if rows > reserved && rows - reserved > 1 { rows - reserved } else { 1 };
    let menu_row: usize = if 1 + text_rows < rows - 1 { 1 + text_rows } else { rows - 1 };
    let below: usize = if menu_visible { menu_row + 3 } else { menu_row };
    let status_row: usize = if below < rows - 1 { below } else { rows - 1 };
    Layout { cols, rows, text_rows, menu_row, status_row }
}

/// The ruler character above screen column `i` when the view starts at
/// text column `left_col`.
pub open spec fn ruler_char(left_col: int, i: int) -> char {
    let col_num = left_col + i + 1;
    if i == 0 {
        'L'
    } else if col_num % 10 == 0 {
        digit_char((col_num / 10) % 10)
    } else {
        '.'
    }
}

/// The decimal digit for `d` (0 to 9).
pub open spec fn digit_char(d: int) -> char {
    if d == 0 {
        '0'
    } else if d == 1 {
        '1'
    } else if d == 2 {
        '2'
    } else if d == 3 {
        '3'
    } else if d == 4 {
        '4'
    } else if d == 5 {
        '5'
    } else if d == 6 {
        '6'
    } else if d == 7 {
        '7'
    } else if d == 8 {
        '8'
    } else {
        '9'
    }
}

fn digit(d: usize) -> (r: char)
    requires
        d < 10,
    ensures
        r == digit_char(d as int),
{
    if d == 0 {
        '0'
    } else if d == 1 {
        '1'
    } else if d == 2 {
        '2'
    } else if d == 3 {
        '3'
    } else if d == 4 {
        '4'
    } else if d == 5 {
        '5'
    } else if d == 6 {
        '6'
    } else if d == 7 {
        '7'
    } else if d == 8 {
        '8'
    } else {
        '9'
    }
}

/// The ruler line: `L` over the first column, the tens digit over every
/// tenth text column, dots elsewhere.
pub fn ruler(left_col: usize, cols: usize) -> (r: String)
    requires
        left_col + cols <= usize::MAX,
    ensures
        r@ == Seq::new(cols as nat, |i: int| ruler_char(left_col as int, i)),
{
    let mut s = String::new();
    let mut i: usize = 0;
    while i < cols
        invariant
            i <= cols,
            left_col + cols <= usize::MAX,
            s@ == Seq::new(i as nat, |k: int| ruler_char(left_col as int, k)),
        decreases cols - i,
    {
        let col_num = left_col + i + 1;
        let c = if i == 0 {
            'L'
        } else if col_num % 10 == 0 {
            digit((col_num / 10) % 10)
        } else {
            '.'
        };
        push_char(&mut s, c);
        assert(s@ =~= Seq::new((i + 1) as nat, |k: int| ruler_char(left_col as int, k)));
        i = i + 1;
    }
    s
}

// ---- rows of text ------------------------------------------------------------

/// What one character of a row of text shows: the character itself (a tab
/// shows as spaces), in reverse video when it lies in the marked block.
pub struct Cell {
    pub text: String,
    pub marked: bool,
}

/// The model of a cell.
pub struct CellModel {
    pub text: Seq<char>,
    pub marked: bool,
}

/// `n` spaces.
pub open spec fn spaces(n: int) -> Seq<char> {
    Seq::new(n as nat, |i: int| ' ')
}

/// The block that is shown highlighted, if any.
pub open spec fn shown_block(m: EditorModel) -> Option<((int, int), (int, int))> {
    if m.block_visible {
        spec_normalized_marks(m)
    } else {
        None
    }
}

/// Whether the character at `p` is highlighted.
pub open spec fn in_shown_block(block: Option<((int, int), (int, int))>, p: (int, int)) -> bool {
    match block {
        Some((s, e)) => pos_le(s, p) && pos_le(p, e) && p != e,
        None => false,
    }
}

/// The cells of `line` (line number `l`) from character `ci` on, the
/// character starting at display column `col` with `printed` screen columns
/// already used: characters left of `left_col` are skipped, and the row
/// stops once `cols` screen columns are used.
pub open spec fn row_cells(
    line: Seq<char>,
    l: int,
    ci: int,
    col: int,
    printed: int,
    left_col: int,
    cols: int,
    block: Option<((int, int), (int, int))>,
) -> Seq<CellModel>
    decreases line.len() - ci,
{
    if ci < 0 || ci >= line.len() || printed >= cols {
        Seq::empty()
    } else {
        let ch = line[ci];
        let w = spec_char_width(ch, col, TAB_SIZE as int);
        if col + w > left_col && col >= left_col {
            let n = if ch == '\t' {
                min(w, cols - printed)
            } else {
                w
            };
            let text = if ch == '\t' {
                spaces(n)
            } else {
                seq![ch]
            };
            seq![CellModel { text, marked: in_shown_block(block, (l, ci)) }] + row_cells(
                line,
                l,
                ci + 1,
                col + w,
                printed + n,
                left_col,
                cols,
                block,
            )
        } else {
            row_cells(line, l, ci + 1, col + w, printed, left_col, cols, block)
        }
    }
}

/// The models of a vector of cells.
pub open spec fn cells_view(v: Seq<Cell>) -> Seq<CellModel> {
    Seq::new(v.len(), |i: int| CellModel { text: v[i].text@, marked: v[i].marked })
}

fn spaces_string(n: usize) -> (r: String)
    ensures
        r@ == spaces(n as int),
{
    let mut s = String::new();
    let mut i: usize = 0;
    while i < n
        invariant
            i <= n,
            s@ == spaces(i as int),
        decreases n - i,
    {
        push_char(&mut s, ' ');
        assert(s@ =~= spaces(i + 1));
        i = i + 1;
    }
    s
}

/// The cells shown for line `l` of the text on a screen `cols` wide.
pub fn text_row(editor: &Editor, l: usize, cols: usize) -> (r: Vec<Cell>)
    requires
        editor.wf(),
        l < editor.buffer.lines@.len(),
        cols <= 65535,
        editor.buffer.lines@[l as int]@.len() * (TAB_SIZE + 3) <= usize::MAX,
    ensures
        cells_view(r@) == row_cells(
            editor@.lines[l as int],
            l as int,
            0,
            0,
            0,
            editor.left_col as int,
            cols as int,
            shown_block(editor@),
        ),
{
    let ghost block = shown_block(editor@);
    let marks = if editor.block_visible {
        editor.normalized_marks()
    } else {
        None
    };
    let line = &editor.buffer.lines[l];
    let ghost t = line@;
    let n = line.len();
    let left = editor.left_col;
    let mut cells: Vec<Cell> = Vec::new();
    let mut ci: usize = 0;
    let mut col: usize = 0;
    let mut printed: usize = 0;
    while ci < n && printed < cols
        invariant
            n == t.len(),
            t == editor@.lines[l as int],
            line@ == t,
            ci <= n,
            col <= ci * (TAB_SIZE + 3),
            n * (TAB_SIZE + 3) <= usize::MAX,
            printed <= cols + TAB_SIZE + 3,
            cols <= 65535,
            left == editor.left_col,
            match marks {
                Some((s, e)) => block == Some((ipos(s), ipos(e))),
                None => block is None,
            },
            row_cells(t, l as int, 0, 0, 0, left as int, cols as int, block) == cells_view(cells@)
                + row_cells(t, l as int, ci as int, col as int, printed as int, left as int, cols as int, block),
        decreases n - ci,
    {
        let ch = line[ci];
        let w = char_display_width(ch, col, TAB_SIZE);
        proof {
            assert((ci + 1) * (TAB_SIZE + 3) == ci * (TAB_SIZE + 3) + (TAB_SIZE + 3)) by (nonlinear_arith);
            assert((ci + 1) * (TAB_SIZE + 3) <= n * (TAB_SIZE + 3)) by (nonlinear_arith)
                requires
                    ci + 1 <= n,
            ;
        }
        if col + w > left && col >= left {
            let cn = if ch == '\t' {
                if w < cols - printed { w } else { cols - printed }
            } else {
                w
            };
            let text = if ch == '\t' {
                spaces_string(cn)
            } else {
                let mut s = String::new();
                push_char(&mut s, ch);
                s
            };
            let marked = match marks {
                Some((s, e)) => (s.0 < l || (s.0 == l && s.1 <= ci)) && (l < e.0 || (l == e.0 && ci < e.1)),
                None => false,
            };
            let ghost before = cells@;
            let cell = Cell { text, marked };
            cells.push(cell);
            proof {
                assert(cells_view(cells@) =~= cells_view(before).push(CellModel { text: cell.text@, marked }));
                assert(in_shown_block(block, (l as int, ci as int)) == marked);
                assert(seq![CellModel { text: cell.text@, marked }] + row_cells(
                    t,
                    l as int,
                    ci + 1,
                    col + w,
                    printed + cn,
                    left as int,
                    cols as int,
                    block,
                ) == row_cells(t, l as int, ci as int, col as int, printed as int, left as int, cols as int, block));
                assert(cells_view(before) + row_cells(t, l as int, ci as int, col as int, printed as int, left as int, cols as int, block)
                    =~= cells_view(cells@) + row_cells(t, l as int, ci + 1, col + w, printed + cn, left as int, cols as int, block));
            }
            printed = printed + cn;
        }
        col = col + w;
        ci = ci + 1;
    }
    assert(row_cells(t, l as int, ci as int, col as int, printed as int, left as int, cols as int, block) =~= Seq::<CellModel>::empty());
    assert(cells_view(cells@) + Seq::<CellModel>::empty() =~= cells_view(cells@));
    cells
}


// ---- key menu ------------------------------------------------------------------

/// Line `i` (0 to 2) of the key menu shown in prefix state `prefix`.
pub open spec fn menu_text(prefix: PrefixState, i: int) -> Seq<char> {
    match prefix {
        PrefixState::K => {
            if i == 0 {
                "^K B=mark begin  K=mark end  C=copy  V=move  Y=delete  H=hide/show block"@
            } else if i == 1 {
                "^K W=write block to file  R=read file  S/D=save  X=save & exit"@
            } else {
                "^K Q=quit without saving                              Esc=cancel"@
            }
        },
        PrefixState::Q => {
            if i == 0 {
                "^Q S=line start  D=line end  E=screen top  X=screen bottom"@
            } else if i == 1 {
                "^Q R=doc start   C=doc end   F=find   A=find&replace   Y=del to EOL"@
            } else {
                "^Q B=goto block begin  K=goto block end  L=goto line   Esc=cancel"@
            }
        },
        PrefixState::O => {
            if i == 0 {
                "^O H=hide/show this key menu"@
            } else if i == 1 {
                ""@
            } else {
                "                 Esc=cancel"@
            }
        },
        PrefixState::NoPrefix => {
            if i == 0 {
                "^E up  ^X down  ^S left  ^D right   ^A word-left  ^F word-right  ^R/^C page up/down"@
            } else if i == 1 {
                "^G del-char  ^H bksp  ^T del-word  ^Y del-line  ^N open-line  ^V ins/ovr  Tab"@
            } else {
                "^K block/file menu   ^Q quick-move/find menu   ^L repeat find   ^J/F1 help"@
            }
        },
    }
}

fn menu_text_of(prefix: PrefixState, i: usize) -> (r: &'static str)
    ensures
        r@ == menu_text(prefix, i as int),
{
    match prefix {
        PrefixState::K => {
            if i == 0 {
                "^K B=mark begin  K=mark end  C=copy  V=move  Y=delete  H=hide/show block"
            } else if i == 1 {
                "^K W=write block to file  R=read file  S/D=save  X=save & exit"
            } else {
                "^K Q=quit without saving                              Esc=cancel"
            }
        },
        PrefixState::Q => {
            if i == 0 {
                "^Q S=line start  D=line end  E=screen top  X=screen bottom"
            } else if i == 1 {
                "^Q R=doc start   C=doc end   F=find   A=find&replace   Y=del to EOL"
            } else {
                "^Q B=goto block begin  K=goto block end  L=goto line   Esc=cancel"
            }
        },
        PrefixState::O => {
            if i == 0 {
                "^O H=hide/show this key menu"
            } else if i == 1 {
                ""
            } else {
                "                 Esc=cancel"
            }
        },
        PrefixState::NoPrefix => {
            if i == 0 {
                "^E up  ^X down  ^S left  ^D right   ^A word-left  ^F word-right  ^R/^C page up/down"
            } else if i == 1 {
                "^G del-char  ^H bksp  ^T del-word  ^Y del-line  ^N open-line  ^V ins/ovr  Tab"
            } else {
                "^K block/file menu   ^Q quick-move/find menu   ^L repeat find   ^J/F1 help"
            }
        },
    }
}

/// The first `n` characters of `s` (all of them when it is shorter).
pub open spec fn fit(s: Seq<char>, n: int) -> Seq<char> {
    if s.len() > n {
        s.take(n)
    } else {
        s
    }
}

/// `s` cut or padded with spaces to exactly `n` characters.
pub open spec fn fit_pad(s: Seq<char>, n: int) -> Seq<char> {
    if s.len() > n {
        s.take(n)
    } else {
        s + spaces(n - s.len())
    }
}

/// Cutting or padding to `n` characters gives exactly `n` characters: the
/// first ones of `s`, then spaces.
pub proof fn lemma_fit_pad(s: Seq<char>, n: int)
    requires
        n >= 0,
    ensures
        fit_pad(s, n).len() == n,
        forall|i: int| 0 <= i < n && i < s.len() ==> #[trigger] fit_pad(s, n)[i] == s[i],
        forall|i: int| s.len() <= i < n ==> #[trigger] fit_pad(s, n)[i] == ' ',
{
}

fn fit_chars(s: &[char], n: usize) -> (r: String)
    ensures
        r@ == fit(s@, n as int),
{
    let m = if s.len() > n { n } else { s.len() };
    let mut out = String::new();
    let mut i: usize = 0;
    while i < m
        invariant
            i <= m,
            m <= s@.len(),
            out@ == s@.take(i as int),
        decreases m - i,
    {
        push_char(&mut out, s[i]);
        assert(out@ =~= s@.take(i + 1));
        i = i + 1;
    }
    assert(s@.take(m as int) =~= fit(s@, n as int));
    out
}

fn fit_pad_chars(s: &[char], n: usize) -> (r: String)
    ensures
        r@ == fit_pad(s@, n as int),
{
    let mut out = fit_chars(s, n);
    if s.len() <= n {
        let pad = spaces_string(n - s.len());
        out.append(pad.as_str());
        assert(out@ =~= fit_pad(s@, n as int));
    }
    out
}

/// The three lines of the key menu, cut to the screen width.
pub fn menu_lines(prefix: PrefixState, cols: usize) -> (r: Vec<String>)
    ensures
        r@.len() == 3,
        forall|i: int| 0 <= i < 3 ==> #[trigger] r@[i]@ == fit(menu_text(prefix, i), cols as int),
{
    let mut out: Vec<String> = Vec::new();
    let mut i: usize = 0;
    while i < 3
        invariant
            i <= 3,
            out@.len() == i,
            forall|k: int| 0 <= k < i ==> #[trigger] out@[k]@ == fit(menu_text(prefix, k), cols as int),
        decreases 3 - i,
    {
        let text = chars_of(menu_text_of(prefix, i));
        out.push(fit_chars(text.as_slice(), cols));
        i = i + 1;
    }
    out
}

// ---- status line ----------------------------------------------------------------

/// The decimal digits of `n`.
pub open spec fn spec_decimal(n: nat) -> Seq<char>
    decreases n,
{
    if n < 10 {
        seq![digit_char(n as int)]
    } else {
        spec_decimal(n / 10).push(digit_char((n % 10) as int))
    }
}

/// The decimal digits of `n`.
pub fn decimal(n: usize) -> (r: String)
    ensures
        r@ == spec_decimal(n as nat),
    decreases n,
{
    if n < 10 {
        let mut s = String::new();
        push_char(&mut s, digit(n));
        assert(s@ =~= seq![digit_char(n as int)]);
        s
    } else {
        let mut s = decimal(n / 10);
        push_char(&mut s, digit(n % 10));
        s
    }
}

/// The name shown for the buffer.
pub open spec fn shown_name(m: EditorModel) -> Seq<char> {
    match m.filename {
        Some(f) => f,
        None => "UNTITLED.TXT"@,
    }
}

/// What the status line says: the prompt and what has been typed, or the
/// file name, a `*` when modified, the cursor's line and column (from 1),
/// the typing mode, the message and the state of the marked block.
pub open spec fn status_text(m: EditorModel) -> Seq<char> {
    if m.prompt is Some {
        m.prompt_label + " "@ + m.prompt_input
    } else {
        let mode = if m.insert_mode {
            "INS"@
        } else {
            "OVR"@
        };
        let dirty = if m.dirty {
            "*"@
        } else {
            " "@
        };
        let block = if m.mark_start is Some || m.mark_end is Some {
            if m.block_visible {
                " [BLOCK MARKED]"@
            } else {
                " [block hidden]"@
            }
        } else {
            ""@
        };
        shown_name(m) + dirty + "  L"@ + spec_decimal((m.cur_line + 1) as nat) + ":C"@ + spec_decimal(
            (m.cur_col + 1) as nat,
        ) + "  "@ + mode + "  "@ + m.message + block
    }
}

/// The status line, cut or padded to the screen width.
pub fn status_line(editor: &Editor, cols: usize) -> (r: String)
    requires
        editor.wf(),
        editor.cur_line < usize::MAX,
        editor.cur_col < usize::MAX,
    ensures
        r@ == fit_pad(status_text(editor@), cols as int),
{
    let mut s = String::new();
    if editor.prompt.is_some() {
        s.append(editor.prompt_label.as_str());
        s.append(" ");
        s.append(editor.prompt_input.as_str());
    } else {
        let name = editor.buffer.display_name();
        s.append(name.as_str());
        s.append(if editor.buffer.dirty { "*" } else { " " });
        s.append("  L");
        let line_no = decimal(editor.cur_line + 1);
        s.append(line_no.as_str());
        s.append(":C");
        let col_no = decimal(editor.cur_col + 1);
        s.append(col_no.as_str());
        s.append("  ");
        s.append(if editor.insert_mode { "INS" } else { "OVR" });
        s.append("  ");
        s.append(editor.message.as_str());
        if editor.mark_start.is_some() || editor.mark_end.is_some() {
            s.append(if editor.block_visible { " [BLOCK MARKED]" } else { " [block hidden]" });
        } else {
            s.append("");
        }
    }
    let cs = chars_of(s.as_str());
    fit_pad_chars(cs.as_slice(), cols)
}

// ---- help box ----------------------------------------------------------------

/// Number of lines of help.
pub open spec fn help_len() -> int {
27
}

/// Line `i` of the help text.
pub open spec fn help_text(i: int) -> Seq<char> {
    if i == 0 {
        "mustang -- WordStar 3.3 style editor"@
    } else if i == 1 {
        ""@
    } else if i == 2 {
        "Cursor:  ^E up        ^X down        ^S left        ^D right"@
    } else if i == 3 {
        "         ^A word-left            ^F word-right"@
    } else if i == 4 {
        "         ^Q S line start          ^Q D line end"@
    } else if i == 5 {
        "         ^Q E screen top          ^Q X screen bottom"@
    } else if i == 6 {
        "         ^Q R doc start           ^Q C doc end"@
    } else if i == 7 {
        "         ^R/PgUp page up          ^C/PgDn page down"@
    } else if i == 8 {
        "         ^Q L go to line"@
    } else if i == 9 {
        ""@
    } else if i == 10 {
        "Editing: ^G del char right (Del)  ^H del char left (Bksp)"@
    } else if i == 11 {
        "         ^T del word right        ^Y del line"@
    } else if i == 12 {
        "         ^Q Y del to end of line   ^N open line"@
    } else if i == 13 {
        "         ^V toggle insert/overwrite mode"@
    } else if i == 14 {
        ""@
    } else if i == 15 {
        "Block:   ^K B mark begin   ^K K mark end"@
    } else if i == 16 {
        "         ^K C copy block   ^K V move block   ^K Y delete block"@
    } else if i == 17 {
        "         ^K H hide/show    ^K W write to file   ^K R read file in"@
    } else if i == 18 {
        "         ^Q B goto block begin     ^Q K goto block end"@
    } else if i == 19 {
        ""@
    } else if i == 20 {
        "Search:  ^Q F find    ^Q A find & replace    ^L repeat find"@
    } else if i == 21 {
        ""@
    } else if i == 22 {
        "File:    ^K S/D save    ^K X save & exit    ^K Q quit without saving"@
    } else if i == 23 {
        ""@
    } else if i == 24 {
        "Misc:    ^O H hide/show key menu    ^J or F1 this help"@
    } else if i == 25 {
        ""@
    } else {
        "              -- press any key to continue --"@
    }
}

fn help_text_of(i: usize) -> (r: &'static str)
    ensures
        r@ == help_text(i as int),
{
    if i == 0 {
        "mustang -- WordStar 3.3 style editor"
    } else if i == 1 {
        ""
    } else if i == 2 {
        "Cursor:  ^E up        ^X down        ^S left        ^D right"
    } else if i == 3 {
        "         ^A word-left            ^F word-right"
    } else if i == 4 {
        "         ^Q S line start          ^Q D line end"
    } else if i == 5 {
        "         ^Q E screen top          ^Q X screen bottom"
    } else if i == 6 {
        "         ^Q R doc start           ^Q C doc end"
    } else if i == 7 {
        "         ^R/PgUp page up          ^C/PgDn page down"
    } else if i == 8 {
        "         ^Q L go to line"
    } else if i == 9 {
        ""
    } else if i == 10 {
        "Editing: ^G del char right (Del)  ^H del char left (Bksp)"
    } else if i == 11 {
        "         ^T del word right        ^Y del line"
    } else if i == 12 {
        "         ^Q Y del to end of line   ^N open line"
    } else if i == 13 {
        "         ^V toggle insert/overwrite mode"
    } else if i == 14 {
        ""
    } else if i == 15 {
        "Block:   ^K B mark begin   ^K K mark end"
    } else if i == 16 {
        "         ^K C copy block   ^K V move block   ^K Y delete block"
    } else if i == 17 {
        "         ^K H hide/show    ^K W write to file   ^K R read file in"
    } else if i == 18 {
        "         ^Q B goto block begin     ^Q K goto block end"
    } else if i == 19 {
        ""
    } else if i == 20 {
        "Search:  ^Q F find    ^Q A find & replace    ^L repeat find"
    } else if i == 21 {
        ""
    } else if i == 22 {
        "File:    ^K S/D save    ^K X save & exit    ^K Q quit without saving"
    } else if i == 23 {
        ""
    } else if i == 24 {
        "Misc:    ^O H hide/show key menu    ^J or F1 this help"
    } else if i == 25 {
        ""
    } else {
        "              -- press any key to continue --"
    }
}

/// The widest help line, in characters.
pub open spec fn help_width(n: int) -> int
    decreases n,
{
    if n <= 0 {
        0
    } else {
        max(help_width(n - 1), help_text(n - 1).len() as int)
    }
}

/// The help box: where it starts and its lines.
pub struct HelpBox {
    pub top: usize,
    pub left: usize,
    pub lines: Vec<String>,
}

/// The help box for a screen of `cols` by `rows`: centred, four columns
/// wider than the widest help line (but no wider than the screen), as many
/// lines as fit, each indented by two spaces and padded to the box width.
pub fn help_box(cols: usize, rows: usize) -> (r: HelpBox)
    requires
        cols <= 65535,
    ensures
        ({
            let h = min(help_len(), rows as int);
            let w = min(help_width(help_len()) + 4, cols as int);
            &&& r.top == max(rows - h, 0) / 2
            &&& r.left == max(cols - w, 0) / 2
            &&& r.lines@.len() == h
            &&& forall|i: int| 0 <= i < h ==> #[trigger] r.lines@[i]@ == fit_pad("  "@ + help_text(i), w)
        }),
{
    let count: usize = 27;
    let mut widest: usize = 0;
    let mut i: usize = 0;
    while i < count
        invariant
            i <= count,
            count == help_len(),
            widest == help_width(i as int),
        decreases count - i,
    {
        let text = chars_of(help_text_of(i));
        if text.len() > widest {
            widest = text.len();
        }
        i = i + 1;
    }
    let h: usize = if count < rows { count } else { rows };
    let w: usize = if widest < cols && cols - widest > 4 { widest + 4 } else { cols };
    let mut lines: Vec<String> = Vec::new();
    let mut k: usize = 0;
    while k < h
        invariant
            k <= h,
            h == min(help_len(), rows as int),
            w == min(help_width(help_len()) + 4, cols as int),
            lines@.len() == k,
            forall|j: int| 0 <= j < k ==> #[trigger] lines@[j]@ == fit_pad("  "@ + help_text(j), w as int),
        decreases h - k,
    {
        let mut s = "  ".to_string();
        s.append(help_text_of(k));
        let cs = chars_of(s.as_str());
        lines.push(fit_pad_chars(cs.as_slice(), w));
        k = k + 1;
    }
    HelpBox { top: (rows - h) / 2, left: (cols - w) / 2, lines }
}

// ---- cursor --------------------------------------------------------------------

/// Where the cursor appears on the screen (row, column), given its display
/// column `dcol`.
pub open spec fn spec_cursor_on_screen(m: EditorModel, dcol: int, rows: int, cols: int) -> (int, int) {
    (min(1 + max(m.cur_line - m.top_line, 0), max(rows - 1, 0)), min(max(dcol - m.left_col, 0), max(cols - 1, 0)))
}

/// Where the cursor appears on the screen (row, column).
pub fn cursor_on_screen(editor: &Editor, rows: usize, cols: usize) -> (r: (usize, usize))
    requires
        editor.wf(),
        editor.cur_col * (TAB_SIZE + 3) <= usize::MAX,
    ensures
        (r.0 as int, r.1 as int) == spec_cursor_on_screen(
            editor@,
            spec_display_width(editor@.lines[editor.cur_line as int], editor.cur_col as int, TAB_SIZE as int),
            rows as int,
            cols as int,
        ),
{
    let last_row = if rows > 0 { rows - 1 } else { 0 };
    let below = if editor.cur_line > editor.top_line { editor.cur_line - editor.top_line } else { 0 };
    let row = if below < last_row { 1 + below } else { last_row };
    let dcol = editor.cursor_display_col();
    let last_col = if cols > 0 { cols - 1 } else { 0 };
    let right = if dcol > editor.left_col { dcol - editor.left_col } else { 0 };
    let col = if right < last_col { right } else { last_col };
    (row, col)
}

} // verus!
