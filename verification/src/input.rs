//! Terminal input as the screens read it, and what a dialog answers.

use vstd::prelude::*;

use crate::mouse::MouseEvent;

verus! {

/// The Control modifier bit (the only modifier the screens tell apart).
pub const CONTROL: u8 = 0b0000_0010u8;

/// The keys the screens tell apart.
#[derive(Clone, Copy, Debug)]
pub enum KeyCode {
    Esc,
    Enter,
    Tab,
    BackTab,
    Up,
    Down,
    Char(char),
    /// Any other key.
    Other,
}

/// Whether a key went down, repeats or went up.
#[derive(Clone, Copy, Debug)]
pub enum KeyEventKind {
    Press,
    Repeat,
    Release,
}

/// A key event: the key, the modifier bits held (Shift 1, Control 2, Alt 4,
/// Super 8, Hyper 16, Meta 32) and its kind.
#[derive(Clone, Copy, Debug)]
pub struct KeyEvent {
    pub code: KeyCode,
    pub modifiers: u8,
    pub kind: KeyEventKind,
}

/// A terminal event.
#[derive(Clone, Copy, Debug)]
pub enum Event {
    Key(KeyEvent),
    Mouse(MouseEvent),
    Resize(u16, u16),
    /// Focus changes, pastes and the like.
    Other,
}

/// What a dialog asks of the application after an event.
#[derive(Clone, Copy, Debug)]
pub enum DialogEvent {
    /// Nothing to do.
    NoAction,
    /// Close the dialog.
    CloseDialog,
}

/// Ctrl+C (either case), with no other modifier held.
pub open spec fn is_ctrl_c(key: KeyEvent) -> bool {
    key.modifiers == CONTROL && (key.code == KeyCode::Char('c') || key.code == KeyCode::Char('C'))
}

/// Esc, `q` or Ctrl+C: the keys that close a dialog.
pub open spec fn is_close_key(key: KeyEvent) -> bool {
    key.code is Esc || key.code == KeyCode::Char('q') || is_ctrl_c(key)
}

pub fn key_is_ctrl_c(key: &KeyEvent) -> (r: bool)
    ensures
        r == is_ctrl_c(*key),
{
    key.modifiers == CONTROL && match key.code {
        KeyCode::Char(c) => c == 'c' || c == 'C',
        _ => false,
    }
}

pub fn key_closes(key: &KeyEvent) -> (r: bool)
    ensures
        r == is_close_key(*key),
{
    let plain = match key.code {
        KeyCode::Esc => true,
        KeyCode::Char(c) => c == 'q',
        _ => false,
    };
    plain || key_is_ctrl_c(key)
}

} // verus!
