//! Keys and the actions they stand for.
use vstd::prelude::*;

verus! {

/// What a key press asks of the UI.
#[derive(Clone, Copy, Debug, PartialEq, Eq, Structural)]
pub enum Action {
    Quit,
    Up,
    Down,
    Confirm,
    ModeSwitch,
    Tab,
    Char(char),
    Backspace,
    OpenLog,
    PageUp,
    PageDown,
    Ignore,
}

/// A key, as far as the UI tells keys apart.
#[derive(Clone, Copy, Debug, PartialEq, Eq, Structural)]
pub enum Key {
    Char(char),
    Esc,
    Up,
    Down,
    Enter,
    Tab,
    Backspace,
    F(u8),
    PageUp,
    PageDown,
    Other,
}

/// The modifiers held with a key: exactly Control, exactly Shift, or any
/// other combination (none included).
#[derive(Clone, Copy, Debug, PartialEq, Eq, Structural)]
pub enum Modifiers {
    Control,
    Shift,
    Other,
}

/// The action of a key press.
pub open spec fn action_spec(key: Key, mods: Modifiers) -> Action {
    match key {
        Key::Char(c) => if (c == 'c' || c == 'd') && mods == Modifiers::Control {
            Action::Quit
        } else if c == ':' {
            Action::ModeSwitch
        } else {
            Action::Char(c)
        },
        Key::Esc => Action::ModeSwitch,
        Key::Up => if mods == Modifiers::Shift {
            Action::PageUp
        } else {
            Action::Up
        },
        Key::Down => if mods == Modifiers::Shift {
            Action::PageDown
        } else {
            Action::Down
        },
        Key::Enter => Action::Confirm,
        Key::Tab => Action::Tab,
        Key::Backspace => Action::Backspace,
        Key::F(n) => if n == 12 {
            Action::OpenLog
        } else {
            Action::Ignore
        },
        Key::PageUp => Action::PageUp,
        Key::PageDown => Action::PageDown,
        Key::Other => Action::Ignore,
    }
}

/// The action of a key press (see `action_spec`).
pub fn action_for(key: Key, mods: Modifiers) -> (r: Action)
    ensures
        r == action_spec(key, mods),
{
    match key {
        Key::Char(c) => {
            if (c == 'c' || c == 'd') && mods == Modifiers::Control {
                Action::Quit
            } else if c == ':' {
                Action::ModeSwitch
            } else {
                Action::Char(c)
            }
        },
        Key::Esc => Action::ModeSwitch,
        Key::Up => if mods == Modifiers::Shift {
            Action::PageUp
        } else {
            Action::Up
        },
        Key::Down => if mods == Modifiers::Shift {
            Action::PageDown
        } else {
            Action::Down
        },
        Key::Enter => Action::Confirm,
        Key::Tab => Action::Tab,
        Key::Backspace => Action::Backspace,
        Key::F(n) => if n == 12 {
            Action::OpenLog
        } else {
            Action::Ignore
        },
        Key::PageUp => Action::PageUp,
        Key::PageDown => Action::PageDown,
        Key::Other => Action::Ignore,
    }
}

} // verus!

verus! {

/// The keys: Ctrl+C and Ctrl+D quit, `:` and Esc switch mode, Shift+Up and
/// Shift+Down page the log as PageUp and PageDown do, F12 opens the log,
/// Enter confirms, Tab switches panes, the arrows move, and any other
/// character is typed.
pub proof fn lemma_key_bindings(c: char, mods: Modifiers, n: u8)
    ensures
        action_spec(Key::Char('c'), Modifiers::Control) == Action::Quit,
        action_spec(Key::Char('d'), Modifiers::Control) == Action::Quit,
        action_spec(Key::Char(':'), mods) == Action::ModeSwitch,
        action_spec(Key::Esc, mods) == Action::ModeSwitch,
        action_spec(Key::Up, Modifiers::Shift) == Action::PageUp,
        action_spec(Key::Down, Modifiers::Shift) == Action::PageDown,
        mods != Modifiers::Shift ==> action_spec(Key::Up, mods) == Action::Up,
        mods != Modifiers::Shift ==> action_spec(Key::Down, mods) == Action::Down,
        action_spec(Key::PageUp, mods) == Action::PageUp,
        action_spec(Key::PageDown, mods) == Action::PageDown,
        action_spec(Key::F(12), mods) == Action::OpenLog,
        n != 12 ==> action_spec(Key::F(n), mods) == Action::Ignore,
        action_spec(Key::Enter, mods) == Action::Confirm,
        action_spec(Key::Tab, mods) == Action::Tab,
        action_spec(Key::Backspace, mods) == Action::Backspace,
        c != ':' && !((c == 'c' || c == 'd') && mods == Modifiers::Control) ==> action_spec(Key::Char(c), mods)
            == Action::Char(c),
{
}

} // verus!
