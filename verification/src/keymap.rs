//! Translation of key presses into editor commands, including the WordStar
//! two-key ^K / ^Q / ^O prefix sequences.

use vstd::prelude::*;

use crate::chars::ascii_lower;

verus! {

/// The key that was pressed.
#[derive(Clone, Copy, PartialEq, Eq, Structural, Debug)]
pub enum KeyCode {
    Char(char),
    Enter,
    Backspace,
    Delete,
    Esc,
    Tab,
    Up,
    Down,
    Left,
    Right,
    Home,
    End,
    PageUp,
    PageDown,
    F(u8),
    Other,
}

/// One key press: the key and whether Control was held.
#[derive(Clone, Copy, PartialEq, Eq, Structural, Debug)]
pub struct KeyEvent {
    pub code: KeyCode,
    pub ctrl: bool,
}

impl KeyEvent {
    /// A key press.
    pub fn new(code: KeyCode, ctrl: bool) -> (r: Self)
        ensures
            r == (KeyEvent { code, ctrl }),
    {
        KeyEvent { code, ctrl }
    }
}

/// Commands the editor can execute. Named after what they do rather than
/// the key that triggers them, since several keys can map to the same
/// action (e.g. Backspace and ^H).
#[derive(Clone, Copy, PartialEq, Eq, Structural, Debug)]
pub enum Command {
    MoveUp,
    MoveDown,
    MoveLeft,
    MoveRight,
    WordLeft,
    WordRight,
    LineStart,
    LineEnd,
    ScreenTop,
    ScreenBottom,
    DocStart,
    DocEnd,
    PageUp,
    PageDown,
    GoToBlockBegin,
    GoToBlockEnd,
    GoToLinePrompt,
    InsertChar(char),
    Enter,
    Tab,
    OpenLine,
    DeleteCharRight,
    DeleteCharLeft,
    DeleteWordRight,
    DeleteLine,
    DeleteToEol,
    ToggleInsertMode,
    MarkBegin,
    MarkEnd,
    CopyBlock,
    MoveBlock,
    DeleteBlock,
    HideBlock,
    WriteBlockPrompt,
    ReadFilePrompt,
    Save,
    SaveDone,
    SaveExitPrompt,
    QuitPrompt,
    FindPrompt,
    ReplacePrompt,
    RepeatFind,
    ToggleMenu,
    Help,
    CancelPrefix,
    Beep,
    NoOp,
}

/// Whether we're mid-way through a WordStar two-key ^K / ^Q / ^O prefix
/// sequence.
#[derive(Clone, Copy, PartialEq, Eq, Structural, Debug, Default)]
pub enum PrefixState {
    #[default]
    NoPrefix,
    K,
    Q,
    O,
}

/// The command of the key that follows ^K.
pub open spec fn spec_k_command(c: char) -> Command {
    match c {
        'B' | 'b' => Command::MarkBegin,
        'K' | 'k' => Command::MarkEnd,
        'C' | 'c' => Command::CopyBlock,
        'V' | 'v' => Command::MoveBlock,
        'Y' | 'y' => Command::DeleteBlock,
        'H' | 'h' => Command::HideBlock,
        'W' | 'w' => Command::WriteBlockPrompt,
        'R' | 'r' => Command::ReadFilePrompt,
        'S' | 's' => Command::Save,
        'D' | 'd' => Command::SaveDone,
        'X' | 'x' => Command::SaveExitPrompt,
        'Q' | 'q' => Command::QuitPrompt,
        _ => Command::Beep,
    }
}

/// The command of the key that follows ^Q.
pub open spec fn spec_q_command(c: char) -> Command {
    match c {
        'S' | 's' => Command::LineStart,
        'D' | 'd' => Command::LineEnd,
        'E' | 'e' => Command::ScreenTop,
        'X' | 'x' => Command::ScreenBottom,
        'R' | 'r' => Command::DocStart,
        'C' | 'c' => Command::DocEnd,
        'F' | 'f' => Command::FindPrompt,
        'A' | 'a' => Command::ReplacePrompt,
        'Y' | 'y' => Command::DeleteToEol,
        'B' | 'b' => Command::GoToBlockBegin,
        'K' | 'k' => Command::GoToBlockEnd,
        'L' | 'l' => Command::GoToLinePrompt,
        _ => Command::Beep,
    }
}

/// The command of the key that follows ^O.
pub open spec fn spec_o_command(c: char) -> Command {
    match c {
        'H' | 'h' => Command::ToggleMenu,
        _ => Command::Beep,
    }
}

/// The command of a second key after a prefix.
pub open spec fn spec_after_prefix(code: KeyCode, prefix: PrefixState) -> Command {
    match code {
        KeyCode::Esc => Command::CancelPrefix,
        KeyCode::Char(c) => match prefix {
            PrefixState::K => spec_k_command(c),
            PrefixState::Q => spec_q_command(c),
            _ => spec_o_command(c),
        },
        _ => Command::Beep,
    }
}

/// The command of Control with a letter, and the prefix it starts.
pub open spec fn spec_ctrl_command(c: char) -> (Command, PrefixState) {
    match c {
        'k' | 'K' => (Command::NoOp, PrefixState::K),
        'q' | 'Q' => (Command::NoOp, PrefixState::Q),
        'o' | 'O' => (Command::NoOp, PrefixState::O),
        'e' | 'E' => (Command::MoveUp, PrefixState::NoPrefix),
        'x' | 'X' => (Command::MoveDown, PrefixState::NoPrefix),
        's' | 'S' => (Command::MoveLeft, PrefixState::NoPrefix),
        'd' | 'D' => (Command::MoveRight, PrefixState::NoPrefix),
        'a' | 'A' => (Command::WordLeft, PrefixState::NoPrefix),
        'f' | 'F' => (Command::WordRight, PrefixState::NoPrefix),
        'r' | 'R' => (Command::PageUp, PrefixState::NoPrefix),
        'c' | 'C' => (Command::PageDown, PrefixState::NoPrefix),
        'g' | 'G' => (Command::DeleteCharRight, PrefixState::NoPrefix),
        'h' | 'H' => (Command::DeleteCharLeft, PrefixState::NoPrefix),
        't' | 'T' => (Command::DeleteWordRight, PrefixState::NoPrefix),
        'y' | 'Y' => (Command::DeleteLine, PrefixState::NoPrefix),
        'n' | 'N' => (Command::OpenLine, PrefixState::NoPrefix),
        'v' | 'V' => (Command::ToggleInsertMode, PrefixState::NoPrefix),
        'l' | 'L' => (Command::RepeatFind, PrefixState::NoPrefix),
        'j' | 'J' => (Command::Help, PrefixState::NoPrefix),
        _ => (Command::Beep, PrefixState::NoPrefix),
    }
}

/// The command of a key pressed without a prefix and without Control (or
/// with Control on a key that is not a character).
pub open spec fn spec_plain_command(code: KeyCode) -> Command {
    match code {
        KeyCode::Up => Command::MoveUp,
        KeyCode::Down => Command::MoveDown,
        KeyCode::Left => Command::MoveLeft,
        KeyCode::Right => Command::MoveRight,
        KeyCode::Home => Command::LineStart,
        KeyCode::End => Command::LineEnd,
        KeyCode::PageUp => Command::PageUp,
        KeyCode::PageDown => Command::PageDown,
        KeyCode::Delete => Command::DeleteCharRight,
        KeyCode::Backspace => Command::DeleteCharLeft,
        KeyCode::Enter => Command::Enter,
        KeyCode::Tab => Command::Tab,
        KeyCode::F(n) => if n == 1 {
            Command::Help
        } else {
            Command::NoOp
        },
        KeyCode::Esc => Command::NoOp,
        KeyCode::Char(c) => Command::InsertChar(c),
        KeyCode::Other => Command::NoOp,
    }
}

/// The command of a key press and the prefix state that follows it.
pub open spec fn spec_translate(ev: KeyEvent, prefix: PrefixState) -> (Command, PrefixState) {
    if prefix != PrefixState::NoPrefix {
        (spec_after_prefix(ev.code, prefix), PrefixState::NoPrefix)
    } else if ev.ctrl && ev.code is Char {
        spec_ctrl_command(ev.code->Char_0)
    } else {
        (spec_plain_command(ev.code), PrefixState::NoPrefix)
    }
}

fn k_command(c: char) -> (r: Command)
    ensures
        r == spec_k_command(c),
{
    match c {
        'B' | 'b' => Command::MarkBegin,
        'K' | 'k' => Command::MarkEnd,
        'C' | 'c' => Command::CopyBlock,
        'V' | 'v' => Command::MoveBlock,
        'Y' | 'y' => Command::DeleteBlock,
        'H' | 'h' => Command::HideBlock,
        'W' | 'w' => Command::WriteBlockPrompt,
        'R' | 'r' => Command::ReadFilePrompt,
        'S' | 's' => Command::Save,
        'D' | 'd' => Command::SaveDone,
        'X' | 'x' => Command::SaveExitPrompt,
        'Q' | 'q' => Command::QuitPrompt,
        _ => Command::Beep,
    }
}

fn q_command(c: char) -> (r: Command)
    ensures
        r == spec_q_command(c),
{
    match c {
        'S' | 's' => Command::LineStart,
        'D' | 'd' => Command::LineEnd,
        'E' | 'e' => Command::ScreenTop,
        'X' | 'x' => Command::ScreenBottom,
        'R' | 'r' => Command::DocStart,
        'C' | 'c' => Command::DocEnd,
        'F' | 'f' => Command::FindPrompt,
        'A' | 'a' => Command::ReplacePrompt,
        'Y' | 'y' => Command::DeleteToEol,
        'B' | 'b' => Command::GoToBlockBegin,
        'K' | 'k' => Command::GoToBlockEnd,
        'L' | 'l' => Command::GoToLinePrompt,
        _ => Command::Beep,
    }
}

fn ctrl_command(c: char) -> (r: (Command, PrefixState))
    ensures
        r == spec_ctrl_command(c),
{
    match c {
        'k' | 'K' => (Command::NoOp, PrefixState::K),
        'q' | 'Q' => (Command::NoOp, PrefixState::Q),
        'o' | 'O' => (Command::NoOp, PrefixState::O),
        'e' | 'E' => (Command::MoveUp, PrefixState::NoPrefix),
        'x' | 'X' => (Command::MoveDown, PrefixState::NoPrefix),
        's' | 'S' => (Command::MoveLeft, PrefixState::NoPrefix),
        'd' | 'D' => (Command::MoveRight, PrefixState::NoPrefix),
        'a' | 'A' => (Command::WordLeft, PrefixState::NoPrefix),
        'f' | 'F' => (Command::WordRight, PrefixState::NoPrefix),
        'r' | 'R' => (Command::PageUp, PrefixState::NoPrefix),
        'c' | 'C' => (Command::PageDown, PrefixState::NoPrefix),
        'g' | 'G' => (Command::DeleteCharRight, PrefixState::NoPrefix),
        'h' | 'H' => (Command::DeleteCharLeft, PrefixState::NoPrefix),
        't' | 'T' => (Command::DeleteWordRight, PrefixState::NoPrefix),
        'y' | 'Y' => (Command::DeleteLine, PrefixState::NoPrefix),
        'n' | 'N' => (Command::OpenLine, PrefixState::NoPrefix),
        'v' | 'V' => (Command::ToggleInsertMode, PrefixState::NoPrefix),
        'l' | 'L' => (Command::RepeatFind, PrefixState::NoPrefix),
        'j' | 'J' => (Command::Help, PrefixState::NoPrefix),
        _ => (Command::Beep, PrefixState::NoPrefix),
    }
}

fn plain_command(code: KeyCode) -> (r: Command)
    ensures
        r == spec_plain_command(code),
{
    match code {
        KeyCode::Up => Command::MoveUp,
        KeyCode::Down => Command::MoveDown,
        KeyCode::Left => Command::MoveLeft,
        KeyCode::Right => Command::MoveRight,
        KeyCode::Home => Command::LineStart,
        KeyCode::End => Command::LineEnd,
        KeyCode::PageUp => Command::PageUp,
        KeyCode::PageDown => Command::PageDown,
        KeyCode::Delete => Command::DeleteCharRight,
        KeyCode::Backspace => Command::DeleteCharLeft,
        KeyCode::Enter => Command::Enter,
        KeyCode::Tab => Command::Tab,
        KeyCode::F(n) => if n == 1 {
            Command::Help
        } else {
            Command::NoOp
        },
        KeyCode::Esc => Command::NoOp,
        KeyCode::Char(c) => Command::InsertChar(c),
        KeyCode::Other => Command::NoOp,
    }
}

/// Translate one key press into a Command, given (and updating) the current
/// prefix state. Call only for key presses, not key releases.
pub fn translate(ev: KeyEvent, prefix: &mut PrefixState) -> (r: Command)
    ensures
        (r, *final(prefix)) == spec_translate(ev, *old(prefix)),
{
    match *prefix {
        PrefixState::K => {
            *prefix = PrefixState::NoPrefix;
            return match ev.code {
                KeyCode::Esc => Command::CancelPrefix,
                KeyCode::Char(c) => k_command(c),
                _ => Command::Beep,
            };
        },
        PrefixState::Q => {
            *prefix = PrefixState::NoPrefix;
            return match ev.code {
                KeyCode::Esc => Command::CancelPrefix,
                KeyCode::Char(c) => q_command(c),
                _ => Command::Beep,
            };
        },
        PrefixState::O => {
            *prefix = PrefixState::NoPrefix;
            return match ev.code {
                KeyCode::Esc => Command::CancelPrefix,
                KeyCode::Char(c) => match c {
                    'H' | 'h' => Command::ToggleMenu,
                    _ => Command::Beep,
                },
                _ => Command::Beep,
            };
        },
        PrefixState::NoPrefix => {},
    }
    if ev.ctrl {
        if let KeyCode::Char(c) = ev.code {
            let (cmd, next) = ctrl_command(c);
            *prefix = next;
            return cmd;
        }
    }
    plain_command(ev.code)
}

/// The ASCII uppercase of `c`: `a`..`z` become `A`..`Z`, anything else
/// stays.
pub open spec fn ascii_upper(c: char) -> char {
    if 0x61 <= (c as u32) && (c as u32) <= 0x7A {
        ((c as u32) - 32) as char
    } else {
        c
    }
}

/// Keys are read without regard to letter case: the key after a ^K, ^Q or
/// ^O prefix means the same in either case and whether or not Control is
/// held with it, and a letter typed with Control means the same in either
/// case.
pub proof fn lemma_keys_ignore_case(c: char, ctrl: bool, other_ctrl: bool, p: PrefixState)
    ensures
        p != PrefixState::NoPrefix ==> spec_translate(KeyEvent { code: KeyCode::Char(c), ctrl }, p)
            == spec_translate(KeyEvent { code: KeyCode::Char(ascii_upper(c)), ctrl: other_ctrl }, p),
        spec_translate(KeyEvent { code: KeyCode::Char(c), ctrl: true }, PrefixState::NoPrefix)
            == spec_translate(
            KeyEvent { code: KeyCode::Char(ascii_lower(c)), ctrl: true },
            PrefixState::NoPrefix,
        ),
{
}

} // verus!
