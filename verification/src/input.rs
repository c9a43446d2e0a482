//! What the keys of a terminal mean.

use vstd::prelude::*;

verus! {

#[derive(Debug, Clone, Copy, PartialEq, Eq, Structural)]
pub enum Action {
    Quit,
    Next,
    Previous,
    First,
    Last,
    ToggleQueueCurrent,
    UnqueueCurrent,
    ShowDeleteQueueGrid,
    ToggleGrid,
    OpenHighlighted,
    PageDown,
    PageUp,
    ConfirmDeleteQueued,
    ConfirmYes,
    ConfirmNo,
    ToggleFullscreenUi,
    ToggleRecursive,
    Rescan,
    ToggleTimeSort,
    ToggleNameSort,
    ToggleInfoOverlay,
    ToggleHelpOverlay,
    ToggleZoom,
    Noop,
}

/// A key of a terminal.
#[derive(Debug, Clone, Copy, PartialEq, Eq, Structural)]
pub enum KeyCode {
    Char(char),
    Enter,
    Esc,
    Left,
    Right,
    Up,
    Down,
    Home,
    End,
    Other,
}

/// The modifiers that are held with a key: one of these, none, or something else.
#[derive(Debug, Clone, Copy, PartialEq, Eq, Structural)]
pub enum KeyModifiers {
    Plain,
    Shift,
    Control,
    Mixed,
}

/// A key of a terminal that was pressed, repeated or released.
#[derive(Debug, Clone, Copy, PartialEq, Eq, Structural)]
pub struct KeyEvent {
    pub code: KeyCode,
    pub modifiers: KeyModifiers,
    pub pressed: bool,
}

impl KeyEvent {
    /// The press of a key.
    pub fn new(code: KeyCode, modifiers: KeyModifiers) -> (key: KeyEvent)
        ensures
            key == (KeyEvent { code, modifiers, pressed: true }),
    {
        KeyEvent { code, modifiers, pressed: true }
    }
}

/// What a key means while a deletion is asked about.
pub open spec fn confirm_action(code: KeyCode) -> Action {
    match code {
        KeyCode::Char(c) => if c == 'y' || c == 'Y' {
            Action::ConfirmYes
        } else if c == 'n' || c == 'N' {
            Action::ConfirmNo
        } else {
            Action::Noop
        },
        KeyCode::Esc => Action::ConfirmNo,
        _ => Action::Noop,
    }
}

/// What a character means without modifiers.
pub open spec fn plain_action(c: char) -> Action {
    if c == 'q' {
        Action::Quit
    } else if c == 'j' {
        Action::Next
    } else if c == 'k' {
        Action::Previous
    } else if c == 'd' || c == ' ' {
        Action::ToggleQueueCurrent
    } else if c == 'u' {
        Action::UnqueueCurrent
    } else if c == 'D' {
        Action::ShowDeleteQueueGrid
    } else if c == 'g' {
        Action::ToggleGrid
    } else if c == 'l' {
        Action::OpenHighlighted
    } else if c == 'f' {
        Action::ToggleFullscreenUi
    } else if c == 'r' {
        Action::ToggleRecursive
    } else if c == 'R' {
        Action::Rescan
    } else if c == 't' {
        Action::ToggleTimeSort
    } else if c == 'n' {
        Action::ToggleNameSort
    } else if c == 'i' {
        Action::ToggleInfoOverlay
    } else if c == 'h' {
        Action::ToggleHelpOverlay
    } else if c == 'z' {
        Action::ToggleZoom
    } else {
        Action::Noop
    }
}

/// What a character means with shift.
pub open spec fn shift_action(c: char) -> Action {
    if c == 'D' {
        Action::ShowDeleteQueueGrid
    } else if c == 'R' {
        Action::Rescan
    } else if c == '?' {
        Action::ToggleHelpOverlay
    } else {
        Action::Noop
    }
}

/// What a character means with control.
pub open spec fn control_action(c: char) -> Action {
    if c == 'd' {
        Action::PageDown
    } else if c == 'u' {
        Action::PageUp
    } else if c == 'r' {
        Action::ConfirmDeleteQueued
    } else {
        Action::Noop
    }
}

/// What a key means while no deletion is asked about.
pub open spec fn usual_action(code: KeyCode, modifiers: KeyModifiers) -> Action {
    match code {
        KeyCode::Char(c) => match modifiers {
            KeyModifiers::Plain => plain_action(c),
            KeyModifiers::Shift => shift_action(c),
            KeyModifiers::Control => control_action(c),
            KeyModifiers::Mixed => Action::Noop,
        },
        _ => if modifiers != KeyModifiers::Plain {
            Action::Noop
        } else {
            match code {
                KeyCode::Enter => Action::OpenHighlighted,
                KeyCode::Left => Action::Previous,
                KeyCode::Up => Action::Previous,
                KeyCode::Right => Action::Next,
                KeyCode::Down => Action::Next,
                KeyCode::Home => Action::First,
                KeyCode::End => Action::Last,
                _ => Action::Noop,
            }
        },
    }
}

/// What a key means.
pub open spec fn key_action(key: KeyEvent, confirm_delete: bool) -> Action {
    if !key.pressed {
        Action::Noop
    } else if confirm_delete {
        confirm_action(key.code)
    } else {
        usual_action(key.code, key.modifiers)
    }
}

fn plain_key(c: char) -> (action: Action)
    ensures
        action == plain_action(c),
{
    match c {
        'q' => Action::Quit,
        'j' => Action::Next,
        'k' => Action::Previous,
        'd' | ' ' => Action::ToggleQueueCurrent,
        'u' => Action::UnqueueCurrent,
        'D' => Action::ShowDeleteQueueGrid,
        'g' => Action::ToggleGrid,
        'l' => Action::OpenHighlighted,
        'f' => Action::ToggleFullscreenUi,
        'r' => Action::ToggleRecursive,
        'R' => Action::Rescan,
        't' => Action::ToggleTimeSort,
        'n' => Action::ToggleNameSort,
        'i' => Action::ToggleInfoOverlay,
        'h' => Action::ToggleHelpOverlay,
        'z' => Action::ToggleZoom,
        _ => Action::Noop,
    }
}

/// What a key means. While a deletion is asked about, only the answers do anything.
pub fn action_for_key(key: KeyEvent, confirm_delete: bool) -> (action: Action)
    ensures
        action == key_action(key, confirm_delete),
{
    if !key.pressed {
        return Action::Noop;
    }
    if confirm_delete {
        return match key.code {
            KeyCode::Char('y') | KeyCode::Char('Y') => Action::ConfirmYes,
            KeyCode::Char('n') | KeyCode::Char('N') | KeyCode::Esc => Action::ConfirmNo,
            _ => Action::Noop,
        };
    }
    match (key.code, key.modifiers) {
        (KeyCode::Char(c), KeyModifiers::Plain) => plain_key(c),
        (KeyCode::Char('D'), KeyModifiers::Shift) => Action::ShowDeleteQueueGrid,
        (KeyCode::Char('R'), KeyModifiers::Shift) => Action::Rescan,
        (KeyCode::Char('?'), KeyModifiers::Shift) => Action::ToggleHelpOverlay,
        (KeyCode::Char('d'), KeyModifiers::Control) => Action::PageDown,
        (KeyCode::Char('u'), KeyModifiers::Control) => Action::PageUp,
        (KeyCode::Char('r'), KeyModifiers::Control) => Action::ConfirmDeleteQueued,
        (KeyCode::Enter, KeyModifiers::Plain) => Action::OpenHighlighted,
        (KeyCode::Left, KeyModifiers::Plain) => Action::Previous,
        (KeyCode::Up, KeyModifiers::Plain) => Action::Previous,
        (KeyCode::Right, KeyModifiers::Plain) => Action::Next,
        (KeyCode::Down, KeyModifiers::Plain) => Action::Next,
        (KeyCode::Home, KeyModifiers::Plain) => Action::First,
        (KeyCode::End, KeyModifiers::Plain) => Action::Last,
        _ => Action::Noop,
    }
}

/// While a deletion is asked about, a key answers the question or does nothing.
pub proof fn law_confirmation_captures_every_key(key: KeyEvent)
    ensures
        key_action(key, true) == Action::ConfirmYes || key_action(key, true) == Action::ConfirmNo
            || key_action(key, true) == Action::Noop,
{
}

/// Without a question there is no answer: no key deletes anything by itself.
pub proof fn law_no_key_answers_without_question(key: KeyEvent)
    ensures
        key_action(key, false) != Action::ConfirmYes,
        key_action(key, false) != Action::ConfirmNo,
{
}

/// What each key that is pressed means, while nothing is asked: with no modifier, with
/// shift, and with control. With other modifiers a key means nothing.
pub proof fn law_keys_mean(key: KeyEvent)
    requires
        key.pressed,
    ensures
        key.modifiers == KeyModifiers::Plain && key.code == KeyCode::Char('q') ==> key_action(
            key,
            false,
        ) == Action::Quit,
        key.modifiers == KeyModifiers::Plain && key.code == KeyCode::Char('j') ==> key_action(
            key,
            false,
        ) == Action::Next,
        key.modifiers == KeyModifiers::Plain && key.code == KeyCode::Char('k') ==> key_action(
            key,
            false,
        ) == Action::Previous,
        key.modifiers == KeyModifiers::Plain && key.code == KeyCode::Char('d') ==> key_action(
            key,
            false,
        ) == Action::ToggleQueueCurrent,
        key.modifiers == KeyModifiers::Plain && key.code == KeyCode::Char(' ') ==> key_action(
            key,
            false,
        ) == Action::ToggleQueueCurrent,
        key.modifiers == KeyModifiers::Plain && key.code == KeyCode::Char('u') ==> key_action(
            key,
            false,
        ) == Action::UnqueueCurrent,
        key.modifiers == KeyModifiers::Plain && key.code == KeyCode::Char('D') ==> key_action(
            key,
            false,
        ) == Action::ShowDeleteQueueGrid,
        key.modifiers == KeyModifiers::Plain && key.code == KeyCode::Char('g') ==> key_action(
            key,
            false,
        ) == Action::ToggleGrid,
        key.modifiers == KeyModifiers::Plain && key.code == KeyCode::Char('l') ==> key_action(
            key,
            false,
        ) == Action::OpenHighlighted,
        key.modifiers == KeyModifiers::Plain && key.code == KeyCode::Char('f') ==> key_action(
            key,
            false,
        ) == Action::ToggleFullscreenUi,
        key.modifiers == KeyModifiers::Plain && key.code == KeyCode::Char('r') ==> key_action(
            key,
            false,
        ) == Action::ToggleRecursive,
        key.modifiers == KeyModifiers::Plain && key.code == KeyCode::Char('R') ==> key_action(
            key,
            false,
        ) == Action::Rescan,
        key.modifiers == KeyModifiers::Plain && key.code == KeyCode::Char('t') ==> key_action(
            key,
            false,
        ) == Action::ToggleTimeSort,
        key.modifiers == KeyModifiers::Plain && key.code == KeyCode::Char('n') ==> key_action(
            key,
            false,
        ) == Action::ToggleNameSort,
        key.modifiers == KeyModifiers::Plain && key.code == KeyCode::Char('i') ==> key_action(
            key,
            false,
        ) == Action::ToggleInfoOverlay,
        key.modifiers == KeyModifiers::Plain && key.code == KeyCode::Char('h') ==> key_action(
            key,
            false,
        ) == Action::ToggleHelpOverlay,
        key.modifiers == KeyModifiers::Plain && key.code == KeyCode::Char('z') ==> key_action(
            key,
            false,
        ) == Action::ToggleZoom,
        key.modifiers == KeyModifiers::Shift && key.code == KeyCode::Char('D') ==> key_action(
            key,
            false,
        ) == Action::ShowDeleteQueueGrid,
        key.modifiers == KeyModifiers::Shift && key.code == KeyCode::Char('R') ==> key_action(
            key,
            false,
        ) == Action::Rescan,
        key.modifiers == KeyModifiers::Shift && key.code == KeyCode::Char('?') ==> key_action(
            key,
            false,
        ) == Action::ToggleHelpOverlay,
        key.modifiers == KeyModifiers::Control && key.code == KeyCode::Char('d') ==> key_action(
            key,
            false,
        ) == Action::PageDown,
        key.modifiers == KeyModifiers::Control && key.code == KeyCode::Char('u') ==> key_action(
            key,
            false,
        ) == Action::PageUp,
        key.modifiers == KeyModifiers::Control && key.code == KeyCode::Char('r') ==> key_action(
            key,
            false,
        ) == Action::ConfirmDeleteQueued,
        key.modifiers == KeyModifiers::Plain && key.code == KeyCode::Enter ==> key_action(key, false)
            == Action::OpenHighlighted,
        key.modifiers == KeyModifiers::Plain && key.code == KeyCode::Left ==> key_action(key, false)
            == Action::Previous,
        key.modifiers == KeyModifiers::Plain && key.code == KeyCode::Up ==> key_action(key, false)
            == Action::Previous,
        key.modifiers == KeyModifiers::Plain && key.code == KeyCode::Right ==> key_action(key, false)
            == Action::Next,
        key.modifiers == KeyModifiers::Plain && key.code == KeyCode::Down ==> key_action(key, false)
            == Action::Next,
        key.modifiers == KeyModifiers::Plain && key.code == KeyCode::Home ==> key_action(key, false)
            == Action::First,
        key.modifiers == KeyModifiers::Plain && key.code == KeyCode::End ==> key_action(key, false)
            == Action::Last,
        key.modifiers == KeyModifiers::Mixed ==> key_action(key, false) == Action::Noop,
{
}

/// While a deletion is asked about, `y` confirms it, `n` and escape cancel it, in either
/// case; a key that is released means nothing at any time.
pub proof fn law_answers(key: KeyEvent, asked: bool)
    ensures
        !key.pressed ==> key_action(key, asked) == Action::Noop,
        key.pressed && (key.code == KeyCode::Char('y') || key.code == KeyCode::Char('Y'))
            ==> key_action(key, true) == Action::ConfirmYes,
        key.pressed && (key.code == KeyCode::Char('n') || key.code == KeyCode::Char('N')
            || key.code == KeyCode::Esc) ==> key_action(key, true) == Action::ConfirmNo,
        key_action(key, true) == Action::ConfirmYes ==> key.code == KeyCode::Char('y') || key.code
            == KeyCode::Char('Y'),
{
}

} // verus!
