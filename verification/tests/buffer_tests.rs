use mustang::buffer::{lines_to_text, text_to_lines, Buffer, LineEnding};

fn buf(text: &str) -> Buffer {
    Buffer {
        lines: text_to_lines(text),
        filename: None,
        dirty: false,
        line_ending: LineEnding::Lf,
    }
}

fn chars(s: &str) -> Vec<char> {
    s.chars().collect()
}

#[test]
fn extract_range_single_line() {
    let b = buf("hello world");
    let out = b.extract_range((0, 6), (0, 11));
    assert_eq!(lines_to_text(&out), "world");
}

#[test]
fn extract_range_multi_line() {
    let b = buf("abc\ndefg\nhi");
    let out = b.extract_range((0, 1), (2, 1));
    assert_eq!(lines_to_text(&out), "bc\ndefg\nh");
}

#[test]
fn delete_range_multi_line_joins() {
    let mut b = buf("abc\ndefg\nhi");
    b.delete_range((0, 1), (2, 1));
    assert_eq!(lines_to_text(&b.lines), "ai");
}

#[test]
fn insert_lines_at_single_line() {
    let mut b = buf("hello world");
    let end = b.insert_lines_at((0, 5), &text_to_lines(", cruel"));
    assert_eq!(lines_to_text(&b.lines), "hello, cruel world");
    assert_eq!(end, (0, 12));
}

#[test]
fn insert_lines_at_multi_line_splices() {
    let mut b = buf("ai");
    let end = b.insert_lines_at((0, 1), &text_to_lines("bc\ndefg\nh"));
    assert_eq!(lines_to_text(&b.lines), "abc\ndefg\nhi");
    assert_eq!(end, (2, 1));
}

#[test]
fn roundtrip_extract_delete_insert_is_identity() {
    let original = "line one\nline two\nline three\n";
    let mut b = buf(original);
    let extracted = b.extract_range((0, 5), (2, 4));
    b.delete_range((0, 5), (2, 4));
    let end = b.insert_lines_at((0, 5), &extracted);
    assert_eq!(lines_to_text(&b.lines), original);
    assert_eq!(end, (2, 4));
}

#[test]
fn find_from_wraps_around() {
    let b = buf("needle here\nsecond needle\nlast line");
    let (s1, e1, w1) = b
        .find_from((0, 1), &['n', 'e', 'e', 'd', 'l', 'e'], false, true)
        .unwrap();
    assert_eq!((s1, e1, w1), ((1, 7), (1, 13), false));
    let (s2, _e2, w2) = b
        .find_from((1, 8), &['n', 'e', 'e', 'd', 'l', 'e'], false, true)
        .unwrap();
    assert_eq!(s2, (0, 0));
    assert!(w2);
}

#[test]
fn find_from_no_wrap_stops_at_end_of_document() {
    let b = buf("needle here\nsecond needle\nlast line");
    let found = b.find_from((1, 8), &['n', 'e', 'e', 'd', 'l', 'e'], false, false);
    assert_eq!(found, None);
}

#[test]
fn find_from_case_insensitive() {
    let b = buf("Hello World");
    let found = b.find_from((0, 0), &['w', 'o', 'r', 'l', 'd'], false, true);
    assert_eq!(found, Some(((0, 6), (0, 11), false)));
    let not_found = b.find_from((0, 0), &['w', 'o', 'r', 'l', 'd'], true, true);
    assert_eq!(not_found, None);
}

#[test]
fn save_and_load_roundtrip_preserves_crlf() {
    let mut b = Buffer::from_file_contents("one\r\ntwo\r\nthree", "crlf.txt".to_string());
    assert!(matches!(b.line_ending, LineEnding::CrLf));
    assert_eq!(b.lines.len(), 3);
    let raw = b.file_contents();
    assert_eq!(b.save_as("out.txt".to_string(), Ok(())), Ok(()));
    assert_eq!(raw, "one\r\ntwo\r\nthree");
    assert_eq!(b.display_name(), "out.txt");
}

#[test]
fn new_buffer_is_one_empty_unnamed_line() {
    let b = Buffer::new();
    assert_eq!(b.num_lines(), 1);
    assert_eq!(b.line_len(0), 0);
    assert!(!b.dirty);
    assert_eq!(b.display_name(), "UNTITLED.TXT");
}

#[test]
fn text_to_lines_splits_on_lf_and_crlf() {
    assert_eq!(text_to_lines(""), vec![Vec::<char>::new()]);
    assert_eq!(text_to_lines("a\r\nb\nc"), vec![chars("a"), chars("b"), chars("c")]);
    assert_eq!(text_to_lines("x\n"), vec![chars("x"), Vec::new()]);
    assert_eq!(text_to_lines("lone\rcr"), vec![chars("lone\rcr")]);
}

#[test]
fn lines_to_text_joins_with_lf() {
    assert_eq!(lines_to_text(&[chars("a"), chars("b"), Vec::new()]), "a\nb\n");
    assert_eq!(lines_to_text(&[]), "");
}

#[test]
fn lines_text_roundtrip_law() {
    let lines = vec![chars("first"), Vec::new(), chars("last\r")];
    assert_eq!(text_to_lines(&lines_to_text(&lines)), lines);
    // text -> lines -> text turns CR LF into LF
    assert_eq!(lines_to_text(&text_to_lines("a\r\nb")), "a\nb");
}

#[test]
fn file_contents_use_the_line_ending() {
    let mut b = buf("a\nb");
    assert_eq!(b.file_contents(), "a\nb");
    b.line_ending = LineEnding::CrLf;
    assert_eq!(b.file_contents(), "a\r\nb");
    assert_eq!(b.block_contents(&[chars("x"), chars("y"), chars("z")]), "x\r\ny\r\nz");
}

#[test]
fn lf_file_with_cr_line_end_reads_as_crlf() {
    let b = Buffer::from_file_contents("a\r\n", "f".to_string());
    assert!(matches!(b.line_ending, LineEnding::CrLf));
    assert_eq!(b.lines, vec![chars("a"), Vec::new()]);
    let plain = Buffer::from_file_contents("a\nb", "f".to_string());
    assert!(matches!(plain.line_ending, LineEnding::Lf));
}

#[test]
fn clamp_keeps_positions_inside_the_text() {
    let b = buf("abc\nde");
    assert_eq!(b.clamp((0, 2)), (0, 2));
    assert_eq!(b.clamp((0, 9)), (0, 3));
    assert_eq!(b.clamp((7, 9)), (1, 2));
}

#[test]
fn delete_range_single_line_and_dirty_flag() {
    let mut b = buf("hello world");
    b.delete_range((0, 5), (0, 11));
    assert_eq!(lines_to_text(&b.lines), "hello");
    assert!(b.dirty);
}

#[test]
fn insert_nothing_changes_nothing() {
    let mut b = buf("abc");
    let end = b.insert_lines_at((0, 1), &[]);
    assert_eq!(end, (0, 1));
    assert!(!b.dirty);
    assert_eq!(lines_to_text(&b.lines), "abc");
}

#[test]
fn find_empty_needle_finds_nothing() {
    let b = buf("abc");
    assert_eq!(b.find_from((0, 0), &[], false, true), None);
}

#[test]
fn find_wraps_to_earlier_match_on_start_line() {
    let b = buf("ab ab");
    assert_eq!(b.find_from((0, 4), &['a', 'b'], true, true), Some(((0, 0), (0, 2), true)));
    assert_eq!(b.find_from((0, 4), &['a', 'b'], true, false), None);
}

#[test]
fn find_is_unicode_case_insensitive() {
    let b = buf("ÄRGER");
    assert_eq!(b.find_from((0, 0), &['ä'], false, true), Some(((0, 0), (0, 1), false)));
}

#[test]
fn save_records_name_and_errors() {
    let mut b = buf("x");
    assert_eq!(b.save(Ok(())), Err("no filename set".to_string()));
    b.dirty = true;
    assert_eq!(b.save_as("f.txt".to_string(), Err("denied".to_string())), Err("denied".to_string()));
    assert!(b.dirty);
    assert_eq!(b.filename, None);
    assert_eq!(b.save_as("f.txt".to_string(), Ok(())), Ok(()));
    assert_eq!(b.filename, Some("f.txt".to_string()));
    assert!(!b.dirty);
    b.dirty = true;
    assert_eq!(b.save(Err("full".to_string())), Err("full".to_string()));
    assert!(b.dirty);
    assert_eq!(b.save(Ok(())), Ok("f.txt".to_string()));
    assert!(!b.dirty);
}

#[test]
fn loaded_text_is_saved_back_unchanged() {
    for text in ["", "plain\ntext\n", "one\r\ntwo\r\n\r\nthree", "tab\there\n日本語", "lone\rcr\n"] {
        let b = Buffer::from_file_contents(text, "f".to_string());
        assert_eq!(b.file_contents(), text);
    }
}
