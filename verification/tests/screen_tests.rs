use mustang::buffer::Buffer;
use mustang::editor::Editor;
use mustang::keymap::{KeyCode, KeyEvent, PrefixState};
use mustang::screen::{cursor_on_screen, decimal, help_box, menu_lines, ruler, screen_layout, status_line, text_row};

fn editor_with(text: &str) -> Editor {
    let mut ed = Editor::new(Buffer::new());
    for c in text.chars() {
        if c == '\n' {
            ed.handle_key(KeyEvent::new(KeyCode::Enter, false));
        } else {
            ed.handle_key(KeyEvent::new(KeyCode::Char(c), false));
        }
    }
    ed
}

#[test]
fn layout_with_and_without_menu() {
    let l = screen_layout(80, 24, true);
    assert_eq!((l.cols, l.rows, l.text_rows, l.menu_row, l.status_row), (80, 24, 19, 20, 23));
    let l = screen_layout(80, 24, false);
    assert_eq!((l.text_rows, l.menu_row, l.status_row), (22, 23, 23));
    let l = screen_layout(0, 0, true);
    assert_eq!((l.cols, l.rows, l.text_rows, l.menu_row, l.status_row), (1, 1, 1, 0, 0));
}

#[test]
fn ruler_marks_tens() {
    assert_eq!(ruler(0, 12), "L........1..");
    assert_eq!(ruler(15, 8), "L...2...");
    assert_eq!(ruler(95, 10), "L...0.....");
}

#[test]
fn decimal_digits() {
    assert_eq!(decimal(0), "0");
    assert_eq!(decimal(7), "7");
    assert_eq!(decimal(1203), "1203");
}

#[test]
fn text_row_expands_tabs_and_highlights_the_block() {
    let mut ed = editor_with("a\tbc");
    ed.mark_start = Some((0, 2));
    ed.mark_end = Some((0, 3));
    ed.block_visible = true;
    let cells = text_row(&ed, 0, 80);
    let texts: Vec<String> = cells.iter().map(|c| c.text.clone()).collect();
    let marks: Vec<bool> = cells.iter().map(|c| c.marked).collect();
    assert_eq!(texts, vec!["a", "       ", "b", "c"]);
    assert_eq!(marks, vec![false, false, true, false]);
    ed.block_visible = false;
    assert!(text_row(&ed, 0, 80).iter().all(|c| !c.marked));
}

#[test]
fn text_row_scrolls_and_cuts() {
    let mut ed = editor_with("abcdef");
    ed.left_col = 2;
    let texts: Vec<String> = text_row(&ed, 0, 3).iter().map(|c| c.text.clone()).collect();
    assert_eq!(texts, vec!["c", "d", "e"]);
    let ed = editor_with("a\tb");
    let texts: Vec<String> = text_row(&ed, 0, 4).iter().map(|c| c.text.clone()).collect();
    assert_eq!(texts, vec!["a", "   "]);
}

#[test]
fn menu_follows_the_prefix() {
    let lines = menu_lines(PrefixState::O, 80);
    assert_eq!(lines, vec!["^O H=hide/show this key menu", "", "                 Esc=cancel"]);
    let lines = menu_lines(PrefixState::K, 6);
    assert_eq!(lines, vec!["^K B=m", "^K W=w", "^K Q=q"]);
}

#[test]
fn status_line_content() {
    let mut ed = editor_with("ab\nc");
    ed.message = "hi".to_string();
    assert_eq!(status_line(&ed, 40), format!("{:<40}", "UNTITLED.TXT*  L2:C2  INS  hi"));
    assert_eq!(status_line(&ed, 5), "UNTIT");
    ed.mark_start = Some((0, 0));
    assert_eq!(status_line(&ed, 80).trim_end(), "UNTITLED.TXT*  L2:C2  INS  hi [block hidden]");
    ed.handle_key(KeyEvent::new(KeyCode::Char('q'), true));
    ed.handle_key(KeyEvent::new(KeyCode::Char('f'), false));
    ed.handle_key(KeyEvent::new(KeyCode::Char('x'), false));
    assert_eq!(status_line(&ed, 8), "Find: x ");
}

#[test]
fn help_box_is_centred() {
    let hb = help_box(80, 40);
    assert_eq!(hb.lines.len(), 27);
    assert_eq!(hb.top, 6);
    assert_eq!(hb.lines[0].chars().count(), 72);
    assert_eq!(hb.left, 4);
    assert!(hb.lines[0].starts_with("  mustang -- WordStar 3.3 style editor"));
    let small = help_box(10, 3);
    assert_eq!(small.lines.len(), 3);
    assert_eq!((small.top, small.left), (0, 0));
    assert_eq!(small.lines[0], "  mustang ");
}

#[test]
fn cursor_position_on_screen() {
    let mut ed = editor_with("x\n\tyz");
    ed.top_line = 1;
    ed.left_col = 4;
    assert_eq!(cursor_on_screen(&ed, 24, 80), (1, 6));
    assert_eq!(cursor_on_screen(&ed, 1, 3), (0, 2));
}
