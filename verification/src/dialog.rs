//! The yes/no confirmation dialog that guards destructive actions.

use vstd::prelude::*;
use crate::input::Key;

verus! {

/// A confirmation holding the action to run when the user accepts.
#[derive(Debug)]
pub struct ConfirmDialog<A> {
    pub visible: bool,
    pub message: String,
    pub pending_action: Option<A>,
}

impl<A> ConfirmDialog<A> {
    /// A hidden dialog with nothing pending.
    pub fn new() -> (d: Self)
        ensures
            !d.visible,
            d.message@.len() == 0,
            d.pending_action.is_none(),
    {
        ConfirmDialog { visible: false, message: String::new(), pending_action: None }
    }

    /// Asks `message`, running `action` on acceptance.
    pub fn show(&mut self, message: String, action: A)
        ensures
            final(self).visible,
            final(self).message == message,
            final(self).pending_action == Some(action),
    {
        self.visible = true;
        self.message = message;
        self.pending_action = Some(action);
    }

    /// Hides the dialog and forgets the pending action.
    pub fn dismiss(&mut self)
        ensures
            !final(self).visible,
            final(self).message@.len() == 0,
            final(self).pending_action.is_none(),
    {
        self.visible = false;
        self.message = String::new();
        self.pending_action = None;
    }

    /// `y`/Enter accepts (the pending action is handed back), `n`/Esc
    /// cancels; either closes the dialog. Other keys do nothing.
    pub fn handle_key_event(&mut self, key: Key) -> (r: Option<A>)
        ensures
            key == Key::Char('y') || key == Key::Enter ==> {
                &&& r == old(self).pending_action
                &&& !final(self).visible
                &&& final(self).message@.len() == 0
                &&& final(self).pending_action.is_none()
            },
            key == Key::Char('n') || key == Key::Esc ==> {
                &&& r.is_none()
                &&& !final(self).visible
                &&& final(self).message@.len() == 0
                &&& final(self).pending_action.is_none()
            },
            !(key == Key::Char('y') || key == Key::Enter || key == Key::Char('n') || key == Key::Esc) ==> {
                &&& r.is_none()
                &&& *final(self) == *old(self)
            },
    {
        if key == Key::Char('y') || key == Key::Enter {
            let action = self.pending_action.take();
            self.dismiss();
            action
        } else if key == Key::Char('n') || key == Key::Esc {
            self.dismiss();
            None
        } else {
            None
        }
    }
}

} // verus!
