//! The welcome dialog shown while the library is empty.

use vstd::prelude::*;

use crate::input::{is_close_key, key_closes, DialogEvent, Event, KeyCode, KeyEvent, KeyEventKind};
use crate::mouse::Rect;

verus! {

/// The welcome dialog. It holds no state of its own.
pub struct WelcomeDialog {}

/// The answer to a key press: the closing keys and Enter dismiss the dialog,
/// other keys do nothing.
pub open spec fn welcome_answer(key: KeyEvent) -> DialogEvent {
    if is_close_key(key) || key.code is Enter {
        DialogEvent::CloseDialog
    } else {
        DialogEvent::NoAction
    }
}

impl WelcomeDialog {
    pub fn new() -> Self {
        WelcomeDialog {}
    }

    /// Answers a key press.
    pub fn handle_keypress(&self, key: KeyEvent) -> (r: DialogEvent)
        ensures
            r == welcome_answer(key),
    {
        if key_closes(&key) {
            return DialogEvent::CloseDialog;
        }
        match key.code {
            KeyCode::Enter => DialogEvent::CloseDialog,
            _ => DialogEvent::NoAction,
        }
    }

    /// Answers an event: key presses as `handle_keypress` does, anything
    /// else with nothing.
    pub fn handle_event(&self, event: Event) -> (r: DialogEvent)
        ensures
            r == (match event {
                Event::Key(key) => if key.kind is Press { welcome_answer(key) } else { DialogEvent::NoAction },
                _ => DialogEvent::NoAction,
            }),
    {
        match event {
            Event::Key(key) => match key.kind {
                KeyEventKind::Press => self.handle_keypress(key),
                _ => DialogEvent::NoAction,
            },
            _ => DialogEvent::NoAction,
        }
    }

    /// Where and how large the dialog is drawn.
    pub fn get_size(&self) -> (r: Rect)
        ensures
            r == (Rect { x: 70, y: 18, width: 0, height: 0 }),
    {
        Rect { x: 70, y: 18, width: 0, height: 0 }
    }

    pub fn get_title(&self) -> (r: String)
        ensures
            r@ == "Welcome"@,
    {
        String::from_str("Welcome")
    }

    pub fn get_instructions(&self) -> (r: String)
        ensures
            r@ == "Esc/q/Enter: dismiss"@,
    {
        String::from_str("Esc/q/Enter: dismiss")
    }
}

} // verus!
