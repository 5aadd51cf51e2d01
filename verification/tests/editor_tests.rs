use mustang::buffer::{lines_to_text, Buffer};
use mustang::editor::{Editor, IoRequest};
use mustang::editor_model::PromptKind;
use mustang::keymap::{KeyCode, KeyEvent};

fn key(code: KeyCode) -> KeyEvent {
    KeyEvent::new(code, false)
}

fn ctrl(c: char) -> KeyEvent {
    KeyEvent::new(KeyCode::Char(c), true)
}

fn plain(c: char) -> KeyEvent {
    KeyEvent::new(KeyCode::Char(c), false)
}

fn type_str(ed: &mut Editor, s: &str) {
    for c in s.chars() {
        assert!(ed.handle_key(plain(c)).is_none());
    }
}

fn text(ed: &Editor) -> String {
    lines_to_text(&ed.buffer.lines)
}

fn new_editor() -> Editor {
    Editor::new(Buffer::new())
}

#[test]
fn insert_newline_backspace() {
    let mut ed = new_editor();
    type_str(&mut ed, "hello");
    assert_eq!(text(&ed), "hello");
    ed.handle_key(key(KeyCode::Enter));
    type_str(&mut ed, "world");
    assert_eq!(text(&ed), "hello\nworld");
    ed.handle_key(key(KeyCode::Backspace));
    assert_eq!(text(&ed), "hello\nworl");
    assert_eq!((ed.cur_line, ed.cur_col), (1, 4));
}

#[test]
fn backspace_at_line_start_joins_lines() {
    let mut ed = new_editor();
    type_str(&mut ed, "abc");
    ed.handle_key(key(KeyCode::Enter));
    type_str(&mut ed, "def");
    ed.cur_col = 0;
    ed.handle_key(key(KeyCode::Backspace));
    assert_eq!(text(&ed), "abcdef");
    assert_eq!((ed.cur_line, ed.cur_col), (0, 3));
}

#[test]
fn overwrite_mode_replaces_chars() {
    let mut ed = new_editor();
    type_str(&mut ed, "hello");
    ed.cur_col = 1;
    ed.handle_key(ctrl('v'));
    assert!(!ed.insert_mode);
    type_str(&mut ed, "XY");
    assert_eq!(text(&ed), "hXYlo");
}

#[test]
fn word_movement() {
    let mut ed = new_editor();
    type_str(&mut ed, "foo bar baz");
    ed.cur_col = 0;
    ed.word_right();
    assert_eq!((ed.cur_line, ed.cur_col), (0, 4));
    ed.word_right();
    assert_eq!((ed.cur_line, ed.cur_col), (0, 8));
    ed.word_left();
    assert_eq!((ed.cur_line, ed.cur_col), (0, 4));
    ed.word_left();
    assert_eq!((ed.cur_line, ed.cur_col), (0, 0));
}

#[test]
fn delete_word_right_removes_word_and_trailing_space() {
    let mut ed = new_editor();
    type_str(&mut ed, "foo bar baz");
    ed.cur_col = 0;
    ed.delete_word_right();
    assert_eq!(text(&ed), "bar baz");
    assert_eq!((ed.cur_line, ed.cur_col), (0, 0));
}

#[test]
fn delete_line_via_command() {
    let mut ed = new_editor();
    type_str(&mut ed, "one");
    ed.handle_key(key(KeyCode::Enter));
    type_str(&mut ed, "two");
    ed.handle_key(key(KeyCode::Enter));
    type_str(&mut ed, "three");
    ed.cur_line = 1;
    ed.handle_key(ctrl('y'));
    assert_eq!(text(&ed), "one\nthree");
}

#[test]
fn block_copy_via_keys() {
    let mut ed = new_editor();
    type_str(&mut ed, "one two three");
    ed.cur_col = 4;
    ed.handle_key(ctrl('k'));
    ed.handle_key(plain('b'));
    ed.cur_col = 7;
    ed.handle_key(ctrl('k'));
    ed.handle_key(plain('k'));
    ed.cur_col = 13;
    ed.handle_key(ctrl('k'));
    ed.handle_key(plain('c'));
    assert_eq!(text(&ed), "one two threetwo");
}

#[test]
fn block_move_via_keys() {
    let mut ed = new_editor();
    type_str(&mut ed, "one two three");
    ed.cur_col = 4;
    ed.handle_key(ctrl('k'));
    ed.handle_key(plain('b'));
    ed.cur_col = 8;
    ed.handle_key(ctrl('k'));
    ed.handle_key(plain('k'));
    ed.cur_col = 13;
    ed.handle_key(ctrl('k'));
    ed.handle_key(plain('v'));
    assert_eq!(text(&ed), "one threetwo ");
}

#[test]
fn block_delete_via_keys() {
    let mut ed = new_editor();
    type_str(&mut ed, "one two three");
    ed.cur_col = 4;
    ed.handle_key(ctrl('k'));
    ed.handle_key(plain('b'));
    ed.cur_col = 8;
    ed.handle_key(ctrl('k'));
    ed.handle_key(plain('k'));
    ed.handle_key(ctrl('k'));
    ed.handle_key(plain('y'));
    assert_eq!(text(&ed), "one three");
    assert_eq!((ed.cur_line, ed.cur_col), (0, 4));
}

#[test]
fn find_moves_cursor_to_match() {
    let mut ed = new_editor();
    type_str(&mut ed, "the quick brown fox");
    ed.cur_col = 0;
    ed.handle_key(ctrl('q'));
    ed.handle_key(plain('f'));
    type_str(&mut ed, "brown");
    ed.handle_key(key(KeyCode::Enter));
    assert_eq!((ed.cur_line, ed.cur_col), (0, 10));
}

#[test]
fn find_not_found_reports_message() {
    let mut ed = new_editor();
    type_str(&mut ed, "hello world");
    ed.cur_col = 0;
    ed.handle_key(ctrl('q'));
    ed.handle_key(plain('f'));
    type_str(&mut ed, "xyz");
    ed.handle_key(key(KeyCode::Enter));
    assert!(ed.message.contains("not found"));
}

#[test]
fn replace_yes_no_all_flow() {
    let mut ed = new_editor();
    type_str(&mut ed, "cat cat cat");
    ed.cur_col = 0;
    ed.handle_key(ctrl('q'));
    ed.handle_key(plain('a'));
    type_str(&mut ed, "cat");
    ed.handle_key(key(KeyCode::Enter));
    type_str(&mut ed, "dog");
    ed.handle_key(key(KeyCode::Enter));
    ed.handle_key(plain('y'));
    ed.handle_key(plain('n'));
    ed.handle_key(plain('a'));
    assert_eq!(text(&ed), "dog cat dog");
}

#[test]
fn save_without_filename_prompts_then_saves() {
    let mut ed = new_editor();
    type_str(&mut ed, "hello file");
    ed.handle_key(ctrl('k'));
    assert!(ed.handle_key(plain('s')).is_none());
    assert!(ed.prompt.is_some());
    type_str(&mut ed, "saved.txt");
    let request = ed.handle_key(key(KeyCode::Enter));
    assert!(ed.prompt.is_none());
    match request {
        Some(IoRequest::Write { path, contents }) => {
            assert_eq!(path, "saved.txt");
            assert_eq!(contents, "hello file");
        }
        _ => panic!("expected a write request"),
    }
    ed.finish_write(Ok(()));
    assert!(!ed.buffer.dirty);
    assert_eq!(ed.message, "Saved saved.txt");
    assert_eq!(ed.buffer.display_name(), "saved.txt");
}

#[test]
fn quit_without_changes_is_immediate() {
    let mut ed = new_editor();
    ed.handle_key(ctrl('k'));
    ed.handle_key(plain('q'));
    assert!(ed.quit);
}

#[test]
fn quit_with_unsaved_changes_prompts_for_confirmation() {
    let mut ed = new_editor();
    type_str(&mut ed, "unsaved");
    ed.handle_key(ctrl('k'));
    ed.handle_key(plain('q'));
    assert!(!ed.quit);
    assert!(ed.prompt.is_some());
    ed.handle_key(plain('y'));
    ed.handle_key(key(KeyCode::Enter));
    assert!(ed.quit);
}

#[test]
fn new_editor_greets() {
    let ed = new_editor();
    assert_eq!(ed.message, "mustang -- WordStar 3.3 style editor. ^J for help.");
    assert!(ed.insert_mode && ed.menu_visible && !ed.quit);
}

#[test]
fn typing_then_backspace_is_undone() {
    let mut ed = new_editor();
    type_str(&mut ed, "abc");
    ed.cur_col = 1;
    ed.insert_char('Z');
    assert_eq!(text(&ed), "aZbc");
    ed.delete_char_left();
    assert_eq!(text(&ed), "abc");
    assert_eq!(ed.cur_col, 1);
    ed.newline();
    assert_eq!(text(&ed), "a\nbc");
    ed.delete_char_left();
    assert_eq!(text(&ed), "abc");
    assert_eq!((ed.cur_line, ed.cur_col), (0, 1));
}

#[test]
fn movement_at_edges() {
    let mut ed = new_editor();
    type_str(&mut ed, "ab");
    ed.handle_key(key(KeyCode::Enter));
    type_str(&mut ed, "wxyz");
    ed.move_up();
    assert_eq!((ed.cur_line, ed.cur_col), (0, 2));
    ed.move_right();
    assert_eq!((ed.cur_line, ed.cur_col), (1, 0));
    ed.move_left();
    assert_eq!((ed.cur_line, ed.cur_col), (0, 2));
    ed.move_down();
    assert_eq!((ed.cur_line, ed.cur_col), (1, 2));
    ed.move_down();
    assert_eq!((ed.cur_line, ed.cur_col), (1, 2));
    ed.cur_line = 0;
    ed.cur_col = 0;
    ed.move_left();
    ed.move_up();
    assert_eq!((ed.cur_line, ed.cur_col), (0, 0));
}

#[test]
fn delete_char_right_and_to_eol() {
    let mut ed = new_editor();
    type_str(&mut ed, "ab");
    ed.handle_key(key(KeyCode::Enter));
    type_str(&mut ed, "cd");
    ed.cur_line = 0;
    ed.cur_col = 2;
    ed.delete_char_right();
    assert_eq!(text(&ed), "abcd");
    ed.cur_col = 0;
    ed.delete_char_right();
    assert_eq!(text(&ed), "bcd");
    ed.cur_col = 1;
    ed.delete_to_eol();
    assert_eq!(text(&ed), "b");
    ed.open_line();
    assert_eq!(text(&ed), "b\n");
    assert_eq!((ed.cur_line, ed.cur_col), (0, 1));
}

#[test]
fn block_errors_are_reported() {
    let mut ed = new_editor();
    type_str(&mut ed, "one two");
    ed.handle_key(ctrl('k'));
    ed.handle_key(plain('c'));
    assert_eq!(ed.message, "No block marked");
    ed.cur_col = 0;
    ed.handle_key(ctrl('k'));
    ed.handle_key(plain('b'));
    ed.cur_col = 3;
    ed.handle_key(ctrl('k'));
    ed.handle_key(plain('k'));
    ed.cur_col = 2;
    ed.handle_key(ctrl('k'));
    ed.handle_key(plain('v'));
    assert_eq!(ed.message, "Cannot move a block into itself");
    assert_eq!(ed.normalized_marks(), Some(((0, 0), (0, 3))));
    ed.handle_key(ctrl('k'));
    ed.handle_key(plain('h'));
    assert!(!ed.block_visible);
}

#[test]
fn stale_marks_are_not_used() {
    let mut ed = new_editor();
    type_str(&mut ed, "abcdef");
    ed.mark_start = Some((0, 2));
    ed.mark_end = Some((0, 5));
    ed.cur_col = 1;
    ed.delete_to_eol();
    ed.handle_key(ctrl('k'));
    ed.handle_key(plain('y'));
    assert_eq!(ed.message, "No block marked");
    assert_eq!(text(&ed), "a");
}

#[test]
fn repeat_find_wraps() {
    let mut ed = new_editor();
    type_str(&mut ed, "x ab ab");
    ed.handle_key(ctrl('l'));
    assert_eq!(ed.message, "No previous Find/Replace");
    ed.cur_col = 0;
    ed.handle_key(ctrl('q'));
    ed.handle_key(plain('f'));
    type_str(&mut ed, "AB");
    ed.handle_key(key(KeyCode::Enter));
    assert_eq!(ed.message, "Found");
    assert_eq!(ed.cur_col, 2);
    ed.handle_key(ctrl('l'));
    assert_eq!(ed.cur_col, 5);
    ed.handle_key(ctrl('l'));
    assert_eq!(ed.cur_col, 2);
    assert_eq!(ed.message, "Found (search wrapped)");
}

#[test]
fn replace_all_and_stop() {
    let mut ed = new_editor();
    type_str(&mut ed, "a-a-a");
    ed.cur_col = 0;
    ed.handle_key(ctrl('q'));
    ed.handle_key(plain('a'));
    type_str(&mut ed, "a");
    ed.handle_key(key(KeyCode::Enter));
    assert_eq!(ed.prompt_label, "Replace \"a\" with:");
    type_str(&mut ed, "bb");
    ed.handle_key(key(KeyCode::Enter));
    assert_eq!(ed.message, "Replace this occurrence? Y)es N)o A)ll Esc)stop");
    ed.handle_key(plain('a'));
    assert_eq!(text(&ed), "bb-bb-bb");
    assert_eq!(ed.message, "Replace complete.");
    ed.cur_col = 0;
    ed.handle_key(ctrl('q'));
    ed.handle_key(plain('a'));
    type_str(&mut ed, "bb");
    ed.handle_key(key(KeyCode::Enter));
    type_str(&mut ed, "c");
    ed.handle_key(key(KeyCode::Enter));
    ed.handle_key(key(KeyCode::Esc));
    assert_eq!(ed.message, "Replace stopped.");
    assert_eq!(text(&ed), "bb-bb-bb");
}

#[test]
fn prompt_editing_and_cancel() {
    let mut ed = new_editor();
    ed.handle_key(ctrl('q'));
    ed.handle_key(plain('l'));
    assert_eq!(ed.prompt, Some(PromptKind::GoToLine));
    assert_eq!(ed.prompt_label, "Go to line:");
    type_str(&mut ed, "12");
    ed.handle_key(key(KeyCode::Backspace));
    ed.handle_key(ctrl('h'));
    assert_eq!(ed.prompt_input, "");
    ed.handle_key(key(KeyCode::Esc));
    assert_eq!(ed.prompt, None);
    assert_eq!(ed.message, "Cancelled");
}

#[test]
fn go_to_line_prompt() {
    let mut ed = new_editor();
    type_str(&mut ed, "a");
    ed.handle_key(key(KeyCode::Enter));
    type_str(&mut ed, "b");
    ed.handle_key(key(KeyCode::Enter));
    type_str(&mut ed, "c");
    for (input, expected) in [(" 2 ", Some(1)), ("+1", Some(0)), ("99", Some(2))] {
        ed.handle_key(ctrl('q'));
        ed.handle_key(plain('l'));
        type_str(&mut ed, input);
        ed.handle_key(key(KeyCode::Enter));
        assert_eq!(Some(ed.cur_line), expected);
        assert_eq!(ed.cur_col, 0);
    }
    for input in ["0", "x", "-1", "", "+", "99999999999999999999999"] {
        ed.handle_key(ctrl('q'));
        ed.handle_key(plain('l'));
        type_str(&mut ed, input);
        ed.handle_key(key(KeyCode::Enter));
        assert_eq!(ed.message, "Invalid line number");
    }
}

#[test]
fn read_file_inserts_text() {
    let mut ed = new_editor();
    type_str(&mut ed, "ad");
    ed.cur_col = 1;
    ed.handle_key(ctrl('k'));
    ed.handle_key(plain('r'));
    type_str(&mut ed, "in.txt");
    match ed.handle_key(key(KeyCode::Enter)) {
        Some(IoRequest::Read { path }) => assert_eq!(path, "in.txt"),
        _ => panic!("expected a read request"),
    }
    ed.finish_read(Ok("b\r\nc".to_string()));
    assert_eq!(text(&ed), "ab\ncd");
    assert_eq!((ed.cur_line, ed.cur_col), (1, 1));
    assert_eq!(ed.message, "Read in.txt");
    ed.finish_read(Ok("ignored".to_string()));
    assert_eq!(text(&ed), "ab\ncd");
}

#[test]
fn failed_writes_are_reported() {
    let mut ed = Editor::new(Buffer::from_file_contents("x", "f.txt".to_string()));
    ed.handle_key(plain('y'));
    ed.handle_key(ctrl('k'));
    match ed.handle_key(plain('x')) {
        Some(IoRequest::Write { path, contents }) => {
            assert_eq!(path, "f.txt");
            assert_eq!(contents, "yx");
        }
        _ => panic!("expected a write request"),
    }
    ed.finish_write(Err("disk full".to_string()));
    assert_eq!(ed.message, "Save failed: disk full");
    assert!(ed.buffer.dirty && !ed.quit);
    ed.handle_key(ctrl('k'));
    ed.handle_key(plain('x'));
    ed.finish_write(Ok(()));
    assert_eq!(ed.message, "Saved f.txt");
    assert!(!ed.buffer.dirty && ed.quit);
}

#[test]
fn write_block_request() {
    let mut ed = new_editor();
    type_str(&mut ed, "hello");
    ed.cur_col = 1;
    ed.handle_key(ctrl('k'));
    ed.handle_key(plain('b'));
    ed.cur_col = 3;
    ed.handle_key(ctrl('k'));
    ed.handle_key(plain('k'));
    ed.handle_key(ctrl('k'));
    ed.handle_key(plain('w'));
    type_str(&mut ed, "blk");
    match ed.handle_key(key(KeyCode::Enter)) {
        Some(IoRequest::Write { path, contents }) => {
            assert_eq!(path, "blk");
            assert_eq!(contents, "el");
        }
        _ => panic!("expected a write request"),
    }
    ed.finish_write(Err("nope".to_string()));
    assert_eq!(ed.message, "Write failed: nope");
}

#[test]
fn help_screen_swallows_one_key() {
    let mut ed = new_editor();
    ed.handle_key(ctrl('j'));
    assert!(ed.help_visible);
    ed.handle_key(plain('z'));
    assert!(!ed.help_visible);
    assert_eq!(text(&ed), "");
    ed.handle_key(ctrl('o'));
    ed.handle_key(plain('h'));
    assert!(!ed.menu_visible);
    ed.handle_key(ctrl('z'));
    assert_eq!(ed.message, "Not a WordStar command");
}

#[test]
fn viewport_follows_the_cursor() {
    let mut ed = new_editor();
    for _ in 0..10 {
        ed.handle_key(key(KeyCode::Enter));
    }
    type_str(&mut ed, "\t日本");
    ed.set_viewport(3, 4);
    ed.ensure_visible();
    assert_eq!(ed.top_line, 8);
    assert_eq!(ed.cursor_display_col(), 12);
    assert_eq!(ed.left_col, 9);
    ed.handle_key(ctrl('r'));
    assert_eq!(ed.cur_line, 7);
    assert_eq!(ed.top_line, 5);
    ed.handle_key(ctrl('c'));
    assert_eq!(ed.cur_line, 10);
    ed.handle_key(ctrl('q'));
    ed.handle_key(plain('e'));
    assert_eq!(ed.cur_line, 8);
    ed.handle_key(ctrl('q'));
    ed.handle_key(plain('x'));
    assert_eq!(ed.cur_line, 10);
}

#[test]
fn move_into_stale_block_is_refused_first() {
    let mut ed = new_editor();
    type_str(&mut ed, "abc");
    ed.handle_key(key(KeyCode::Enter));
    type_str(&mut ed, "def");
    ed.mark_start = Some((0, 1));
    ed.mark_end = Some((1, 2));
    ed.cur_line = 0;
    ed.cur_col = 3;
    ed.handle_key(ctrl('g'));
    assert_eq!(text(&ed), "abcdef");
    ed.handle_key(ctrl('k'));
    ed.handle_key(plain('v'));
    assert_eq!(ed.message, "Cannot move a block into itself");
    assert_eq!(text(&ed), "abcdef");
    assert_eq!((ed.cur_line, ed.cur_col), (0, 3));
}

#[test]
fn delete_block_with_start_past_line_end() {
    let mut ed = new_editor();
    type_str(&mut ed, "abcd");
    ed.handle_key(key(KeyCode::Enter));
    type_str(&mut ed, "efgh");
    ed.mark_start = Some((0, 3));
    ed.mark_end = Some((1, 2));
    ed.cur_line = 0;
    ed.cur_col = 1;
    ed.handle_key(ctrl('q'));
    ed.handle_key(plain('y'));
    assert_eq!(text(&ed), "a\nefgh");
    ed.handle_key(ctrl('k'));
    ed.handle_key(plain('y'));
    assert_eq!(ed.message, "Block deleted");
    assert_eq!(text(&ed), "agh");
    assert_eq!((ed.cur_line, ed.cur_col), (0, 3));
    assert_eq!(ed.normalized_marks(), None);
}

#[test]
fn delete_line_with_column_past_line_end() {
    let mut ed = new_editor();
    type_str(&mut ed, "one");
    ed.handle_key(key(KeyCode::Enter));
    type_str(&mut ed, "three");
    ed.cur_line = 0;
    ed.mark_start = Some((0, 1));
    ed.delete_line();
    assert_eq!(text(&ed), "three");
    assert_eq!((ed.cur_line, ed.cur_col), (0, 0));
    assert!(ed.buffer.dirty);
    assert_eq!(ed.mark_start, None);
    assert!(!ed.block_visible);
}

#[test]
fn moved_block_is_marked_where_it_landed() {
    let mut ed = new_editor();
    type_str(&mut ed, "ab");
    ed.handle_key(key(KeyCode::Enter));
    type_str(&mut ed, "cd");
    ed.handle_key(key(KeyCode::Enter));
    type_str(&mut ed, "ef");
    ed.mark_start = Some((0, 1));
    ed.mark_end = Some((1, 1));
    ed.cur_line = 2;
    ed.cur_col = 1;
    ed.handle_key(ctrl('k'));
    ed.handle_key(plain('v'));
    assert_eq!(ed.message, "Block moved");
    assert_eq!(text(&ed), "ad\neb\ncf");
    assert_eq!(ed.mark_start, Some((1, 1)));
    assert_eq!(ed.mark_end, Some((2, 1)));
    assert_eq!((ed.cur_line, ed.cur_col), (2, 1));
}

#[test]
fn moves_from_column_past_line_end() {
    let mut ed = new_editor();
    type_str(&mut ed, "ab");
    ed.handle_key(key(KeyCode::Enter));
    type_str(&mut ed, "hello");
    ed.cur_line = 0;
    ed.handle_key(ctrl('s'));
    assert_eq!((ed.cur_line, ed.cur_col), (0, 2));
    ed.cur_col = 5;
    ed.handle_key(ctrl('d'));
    assert_eq!((ed.cur_line, ed.cur_col), (1, 0));
}

#[test]
fn edits_from_column_past_line_end() {
    let mut ed = new_editor();
    type_str(&mut ed, "ab");
    ed.handle_key(key(KeyCode::Enter));
    type_str(&mut ed, "hello");
    ed.cur_line = 0;
    ed.handle_key(key(KeyCode::Enter));
    assert_eq!(text(&ed), "ab\n\nhello");
    assert_eq!((ed.cur_line, ed.cur_col), (1, 0));
    ed.cur_line = 0;
    ed.cur_col = 9;
    ed.handle_key(ctrl('g'));
    assert_eq!(text(&ed), "ab\nhello");
    assert_eq!((ed.cur_line, ed.cur_col), (0, 2));
}
