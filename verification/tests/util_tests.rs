use mustang::util::{char_display_width, display_width, TAB_SIZE};

#[test]
fn tabs_expand_to_next_stop() {
    let chars: Vec<char> = "a\tb".chars().collect();
    assert_eq!(display_width(&chars, 1, 8), 1);
    assert_eq!(display_width(&chars, 2, 8), 8);
    assert_eq!(display_width(&chars, 3, 8), 9);
}

#[test]
fn cjk_chars_are_double_width() {
    let chars: Vec<char> = "日本語".chars().collect();
    assert_eq!(display_width(&chars, 1, 8), 2);
    assert_eq!(display_width(&chars, 3, 8), 6);
}

#[test]
fn ascii_is_single_width() {
    let chars: Vec<char> = "hello".chars().collect();
    assert_eq!(display_width(&chars, 5, 8), 5);
}

#[test]
fn display_width_stops_at_the_end_of_the_line() {
    let chars: Vec<char> = "ab".chars().collect();
    assert_eq!(display_width(&chars, 10, TAB_SIZE), 2);
    assert_eq!(display_width(&chars, 0, TAB_SIZE), 0);
}

#[test]
fn char_width_of_tabs_controls_and_wide_chars() {
    assert_eq!(char_display_width('\t', 3, 8), 5);
    assert_eq!(char_display_width('\t', 8, 8), 8);
    assert_eq!(char_display_width('x', 0, 8), 1);
    assert_eq!(char_display_width('語', 0, 8), 2);
    // control characters have no width of their own and count as one column
    assert_eq!(char_display_width('\u{1}', 0, 8), 1);
}

#[test]
fn tab_law_lands_on_a_stop() {
    let chars: Vec<char> = "abc\t".chars().collect();
    assert_eq!(display_width(&chars, 4, 4) % 4, 0);
    assert_eq!(display_width(&chars, 4, 4), 4);
}

#[test]
fn ascii_case_folding_and_widths() {
    assert!(mustang::chars::char_matches('A', 'a', false));
    assert!(mustang::chars::char_matches('q', 'Q', false));
    assert!(!mustang::chars::char_matches('A', 'a', true));
    assert!(!mustang::chars::char_matches('A', 'b', false));
    assert_eq!(mustang::util::char_display_width('~', 3, 8), 1);
    assert_eq!(mustang::util::char_display_width('\t', 3, 8), 5);
}
