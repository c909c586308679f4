//! From key presses to navigation intents.

use vstd::prelude::*;

verus! {

/// A key press, as far as the menu tells keys apart.
#[derive(Clone, Copy, Debug, PartialEq, Eq)]
pub enum Key {
    Up,
    Down,
    Left,
    Right,
    Enter,
    Esc,
    /// A character key.
    Char(char),
    /// Any other key.
    Other,
}

/// What the user asks of the menu.
#[derive(Clone, Copy, Debug, PartialEq, Eq)]
pub enum MenuEvent {
    /// Move the selection by this many items; negative is towards the top.
    Move(i32),
    /// Toggle the expansion of the selected item.
    Expand,
    /// Collapse the selected item.
    Collapse,
    /// Accept the selected item.
    Confirm,
    /// Leave without a selection.
    Quit,
}

/// The intent bound to `key`, or `None` for a key that is bound to nothing.
pub open spec fn event_for(key: Key) -> Option<MenuEvent> {
    match key {
        Key::Up => Some(MenuEvent::Move(-1i32)),
        Key::Down => Some(MenuEvent::Move(1i32)),
        Key::Right => Some(MenuEvent::Expand),
        Key::Left => Some(MenuEvent::Collapse),
        Key::Enter => Some(MenuEvent::Confirm),
        Key::Esc => Some(MenuEvent::Quit),
        Key::Char(c) => if c == 'k' {
            Some(MenuEvent::Move(-1i32))
        } else if c == 'j' {
            Some(MenuEvent::Move(1i32))
        } else if c == 'l' {
            Some(MenuEvent::Expand)
        } else if c == 'h' {
            Some(MenuEvent::Collapse)
        } else if c == 'q' {
            Some(MenuEvent::Quit)
        } else {
            None
        },
        Key::Other => None,
    }
}

/// Translates one key press. `None` tells the caller to read the next key:
/// keys without a binding are passed over.
pub fn read_menu_event(key: Key) -> (event: Option<MenuEvent>)
    ensures
        event == event_for(key),
{
    match key {
        Key::Up => Some(MenuEvent::Move(-1)),
        Key::Down => Some(MenuEvent::Move(1)),
        Key::Right => Some(MenuEvent::Expand),
        Key::Left => Some(MenuEvent::Collapse),
        Key::Enter => Some(MenuEvent::Confirm),
        Key::Esc => Some(MenuEvent::Quit),
        Key::Char(c) => {
            if c == 'k' {
                Some(MenuEvent::Move(-1))
            } else if c == 'j' {
                Some(MenuEvent::Move(1))
            } else if c == 'l' {
                Some(MenuEvent::Expand)
            } else if c == 'h' {
                Some(MenuEvent::Collapse)
            } else if c == 'q' {
                Some(MenuEvent::Quit)
            } else {
                None
            }
        },
        Key::Other => None,
    }
}

} // verus!
