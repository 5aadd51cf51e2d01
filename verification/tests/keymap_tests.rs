use mustang::keymap::{translate, Command, KeyCode, KeyEvent, PrefixState};

#[test]
fn control_letters_and_prefixes() {
    let mut p = PrefixState::NoPrefix;
    assert_eq!(translate(KeyEvent::new(KeyCode::Char('e'), true), &mut p), Command::MoveUp);
    assert_eq!(p, PrefixState::NoPrefix);
    assert_eq!(translate(KeyEvent::new(KeyCode::Char('K'), true), &mut p), Command::NoOp);
    assert_eq!(p, PrefixState::K);
    assert_eq!(translate(KeyEvent::new(KeyCode::Char('b'), false), &mut p), Command::MarkBegin);
    assert_eq!(p, PrefixState::NoPrefix);
    assert_eq!(translate(KeyEvent::new(KeyCode::Char('q'), true), &mut p), Command::NoOp);
    assert_eq!(translate(KeyEvent::new(KeyCode::Char('F'), false), &mut p), Command::FindPrompt);
    assert_eq!(translate(KeyEvent::new(KeyCode::Char('o'), true), &mut p), Command::NoOp);
    assert_eq!(translate(KeyEvent::new(KeyCode::Esc, false), &mut p), Command::CancelPrefix);
    assert_eq!(p, PrefixState::NoPrefix);
}

#[test]
fn unknown_keys_beep_or_do_nothing() {
    let mut p = PrefixState::NoPrefix;
    assert_eq!(translate(KeyEvent::new(KeyCode::Char('z'), true), &mut p), Command::Beep);
    assert_eq!(translate(KeyEvent::new(KeyCode::Esc, false), &mut p), Command::NoOp);
    assert_eq!(translate(KeyEvent::new(KeyCode::F(2), false), &mut p), Command::NoOp);
    assert_eq!(translate(KeyEvent::new(KeyCode::F(1), false), &mut p), Command::Help);
    p = PrefixState::K;
    assert_eq!(translate(KeyEvent::new(KeyCode::Up, false), &mut p), Command::Beep);
    assert_eq!(p, PrefixState::NoPrefix);
}

#[test]
fn plain_keys() {
    let mut p = PrefixState::NoPrefix;
    assert_eq!(translate(KeyEvent::new(KeyCode::Char('x'), false), &mut p), Command::InsertChar('x'));
    assert_eq!(translate(KeyEvent::new(KeyCode::Backspace, false), &mut p), Command::DeleteCharLeft);
    assert_eq!(translate(KeyEvent::new(KeyCode::Enter, true), &mut p), Command::Enter);
    assert_eq!(translate(KeyEvent::new(KeyCode::Tab, false), &mut p), Command::Tab);
}
