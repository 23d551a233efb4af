//! The keys of the keyboard and the actions they stand for.

use vstd::prelude::*;

verus! {

/// What the user can ask for.
#[derive(Debug, Clone, Copy, PartialEq, Eq, Structural)]
pub enum InputAction {
    Tab(u8),
    Left,
    Right,
    Up,
    Down,
    Space,
    Pause,
    Stop,
    Quit,
    Enter,
    Delete,
}

/// A key of the keyboard, as far as this program tells keys apart.
#[derive(Debug, Clone, Copy, PartialEq, Eq, Structural)]
pub enum Key {
    Char(char),
    Left,
    Right,
    Up,
    Down,
    Enter,
    Delete,
    Backspace,
    Other,
}

/// The action that a character key stands for, if it stands for one.
pub open spec fn action_of_char(c: char) -> Option<InputAction> {
    if c == '1' {
        Some(InputAction::Tab(1))
    } else if c == '2' {
        Some(InputAction::Tab(2))
    } else if c == '3' {
        Some(InputAction::Tab(3))
    } else if c == '4' {
        Some(InputAction::Tab(4))
    } else if c == ' ' {
        Some(InputAction::Space)
    } else if c == 'p' {
        Some(InputAction::Pause)
    } else if c == 's' || c == 'S' {
        Some(InputAction::Stop)
    } else if c == 'q' || c == 'Q' {
        Some(InputAction::Quit)
    } else {
        None
    }
}

/// The action that a key stands for, if it stands for one.
pub open spec fn action_of(key: Key) -> Option<InputAction> {
    match key {
        Key::Char(c) => action_of_char(c),
        Key::Left => Some(InputAction::Left),
        Key::Right => Some(InputAction::Right),
        Key::Up => Some(InputAction::Up),
        Key::Down => Some(InputAction::Down),
        Key::Enter => Some(InputAction::Enter),
        Key::Delete => Some(InputAction::Delete),
        Key::Backspace => Some(InputAction::Delete),
        Key::Other => None,
    }
}

/// The action that a key stands for. The digits one to four choose a tab,
/// the arrows move, the space bar starts and pauses, `p` pauses, `s` stops,
/// `q` quits, Enter adds, Delete and Backspace delete; the two letters may
/// be capitals. Any other key stands for nothing.
pub fn handle_key(key: Key) -> (action: Option<InputAction>)
    ensures
        action == action_of(key),
        action is None <==> (key is Other || (key matches Key::Char(c) && action_of_char(c)
            is None)),
{
    match key {
        Key::Char(c) => {
            if c == '1' {
                Some(InputAction::Tab(1))
            } else if c == '2' {
                Some(InputAction::Tab(2))
            } else if c == '3' {
                Some(InputAction::Tab(3))
            } else if c == '4' {
                Some(InputAction::Tab(4))
            } else if c == ' ' {
                Some(InputAction::Space)
            } else if c == 'p' {
                Some(InputAction::Pause)
            } else if c == 's' || c == 'S' {
                Some(InputAction::Stop)
            } else if c == 'q' || c == 'Q' {
                Some(InputAction::Quit)
            } else {
                None
            }
        },
        Key::Left => Some(InputAction::Left),
        Key::Right => Some(InputAction::Right),
        Key::Up => Some(InputAction::Up),
        Key::Down => Some(InputAction::Down),
        Key::Enter => Some(InputAction::Enter),
        Key::Delete => Some(InputAction::Delete),
        Key::Backspace => Some(InputAction::Delete),
        Key::Other => None,
    }
}

} // verus!
