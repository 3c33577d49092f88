//! The built-in login window: a two-tab screen whose only state is the
//! selected tab. Its content is rendered by the embedding program; the
//! logic here is the tab selection.

use vstd::prelude::*;

verus! {

use vstd::string::StringExecFns;
use crate::event::{InputEvent, KeyInput};
use crate::shell::WindowUpdate;

/// The login window's state.
#[derive(Debug, Clone, Copy, PartialEq, Eq)]
pub struct LoginWindow {
    /// The selected tab: 0 for the login form, 1 for the new-account
    /// form.
    pub current_tab: u8,
}

impl LoginWindow {
    /// A login window showing its first tab.
    pub fn new() -> (w: Box<LoginWindow>)
        ensures
            w.current_tab == 0,
    {
        Box::new(LoginWindow { current_tab: 0 })
    }

    /// The window's title.
    pub fn get_title(&self) -> (t: String)
        ensures
            t@ == "Login"@,
    {
        String::from_str("Login")
    }

    /// F1 and F2 select a tab; every key asks for a redraw; other
    /// events do nothing.
    pub fn handle<W>(&mut self, event: &InputEvent) -> (u: WindowUpdate<W>)
        ensures
            match *event {
                InputEvent::Key(key) => (u matches WindowUpdate::Draw) && match key {
                    KeyInput::F(n) => final(self).current_tab == (if n == 1 {
                        0u8
                    } else if n == 2 {
                        1u8
                    } else {
                        old(self).current_tab
                    }),
                    _ => final(self).current_tab == old(self).current_tab,
                },
                _ => (u matches WindowUpdate::Idle) && final(self).current_tab == old(
                    self,
                ).current_tab,
            },
    {
        match event {
            InputEvent::Key(key) => {
                match key {
                    KeyInput::F(n) => {
                        if *n == 1 {
                            self.current_tab = 0;
                        } else if *n == 2 {
                            self.current_tab = 1;
                        }
                    },
                    _ => {},
                }
                WindowUpdate::Draw
            },
            _ => WindowUpdate::Idle,
        }
    }
}

} // verus!
