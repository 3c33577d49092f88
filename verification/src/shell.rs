//! The window stack, the interaction-mode state machine, and the
//! routing of input events.
//!
//! The shell owns an ordered stack of windows; the last one is focused
//! and is the only one that receives updates and events. A single mode
//! value decides how key events are routed. The embedding program drives
//! the loop: it asks the focused window for an update, polls for an
//! event, hands both to the shell, and performs the returned
//! [`ShellEffect`] (drawing, clearing, building a spotlight dialog,
//! forwarding an event) — every decision is taken here.

use vstd::prelude::*;

verus! {

use crate::event::{InputEvent, KeyInput};

/// The interaction mode: a single global value that decides how key
/// events are routed.
#[derive(Debug, Clone, Copy, PartialEq, Eq, Structural)]
pub enum WindowMode {
    /// Keys navigate the interface: they pop windows and switch modes.
    Navigate,
    /// Keys go to the spotlight search dialog on top of the stack.
    Search,
    /// Keys go to the focused window.
    Insert,
}

/// What a window asks the shell to do, returned by a window's update or
/// event handler and applied by [`Shell::apply_update`]; never stored.
pub enum WindowUpdate<W> {
    /// Redraw the focused window right away.
    Draw,
    /// Push a window on the stack; it becomes the focused one.
    New(W),
    /// Pop the focused window.
    Close,
    /// No effect.
    Idle,
}

/// What the embedding program must do after a shell transition.
#[derive(Debug, Clone, Copy, PartialEq, Eq, Structural)]
pub enum ShellEffect {
    /// Nothing.
    Silent,
    /// Redraw the focused window immediately.
    DrawNow,
    /// A window was popped: clear the terminal surface so that stale
    /// cells do not bleed through, and let the pending redraw repaint.
    ClearScreen,
    /// Build a spotlight dialog from the titles of the windows on the
    /// stack and push it with [`Shell::push_window`].
    OpenSpotlight,
    /// Forward the event to the focused window's handler and apply the
    /// returned [`WindowUpdate`] with [`Shell::apply_update`].
    Forward,
}

/// The runtime state threaded through the loop: the window stack, the
/// mode, and the pending-redraw flag.
pub struct Shell<W> {
    /// The active windows, in activation order; the last is focused.
    pub windows: Vec<W>,
    /// The current interaction mode.
    pub mode: WindowMode,
    /// Whether a redraw is pending for the next iteration.
    pub redraw: bool,
}

/// What applying a [`WindowUpdate`] does to the stack and the redraw
/// flag, and the effect it leaves to the embedding program.
pub open spec fn update_step<W>(windows: Seq<W>, redraw: bool, update: WindowUpdate<W>) -> (
    Seq<W>,
    bool,
    ShellEffect,
) {
    match update {
        WindowUpdate::Draw => (windows, redraw, ShellEffect::DrawNow),
        WindowUpdate::New(w) => (windows.push(w), true, ShellEffect::Silent),
        WindowUpdate::Close => (windows.drop_last(), true, ShellEffect::ClearScreen),
        WindowUpdate::Idle => (windows, redraw, ShellEffect::Silent),
    }
}

/// Key routing in Navigate mode: `q` or backspace pops the focused
/// window; `i` or the insert key enters Insert mode; `f` or space
/// enters Search mode and asks for a spotlight dialog; every other key
/// is ignored.
pub open spec fn navigate_step<W>(windows: Seq<W>, redraw: bool, key: KeyInput) -> (
    WindowMode,
    Seq<W>,
    bool,
    ShellEffect,
) {
    if (key matches KeyInput::Char('q')) || (key matches KeyInput::Backspace) {
        (WindowMode::Navigate, windows.drop_last(), true, ShellEffect::ClearScreen)
    } else if (key matches KeyInput::Char('i')) || (key matches KeyInput::Insert) {
        (WindowMode::Insert, windows, true, ShellEffect::Silent)
    } else if (key matches KeyInput::Char('f')) || (key matches KeyInput::Char(' ')) {
        (WindowMode::Search, windows, true, ShellEffect::OpenSpotlight)
    } else {
        (WindowMode::Navigate, windows, redraw, ShellEffect::Silent)
    }
}

/// The complete routing of one input event: the whole key-binding
/// surface of the shell in one function.
///
/// Escape is resolved before mode-specific routing: in Insert mode it
/// returns to Navigate, in Search mode it returns to Navigate and pops
/// the dialog; both swallow the key. A resize always forces a redraw
/// and is still forwarded where the mode forwards events. In Search and
/// Insert mode every event not swallowed above is forwarded to the
/// focused window.
///
/// A deliberate asymmetry: only escape pairs leaving Search mode with
/// popping the dialog. Popping a window in Navigate mode never touches
/// the mode, so a caller that pops the dialog by other means while the
/// mode is Search leaves the shell searching whatever window surfaces.
pub open spec fn shell_step<W>(
    mode: WindowMode,
    windows: Seq<W>,
    redraw: bool,
    event: InputEvent,
) -> (WindowMode, Seq<W>, bool, ShellEffect) {
    match event {
        InputEvent::Key(key) => {
            if (key matches KeyInput::Esc) && mode == WindowMode::Insert {
                (WindowMode::Navigate, windows, true, ShellEffect::Silent)
            } else if (key matches KeyInput::Esc) && mode == WindowMode::Search {
                (WindowMode::Navigate, windows.drop_last(), true, ShellEffect::ClearScreen)
            } else if mode == WindowMode::Navigate {
                navigate_step(windows, redraw, key)
            } else {
                (mode, windows, redraw, ShellEffect::Forward)
            }
        },
        InputEvent::Resize => {
            if mode == WindowMode::Navigate {
                (mode, windows, true, ShellEffect::Silent)
            } else {
                (mode, windows, true, ShellEffect::Forward)
            }
        },
        InputEvent::Other => {
            if mode == WindowMode::Navigate {
                (mode, windows, redraw, ShellEffect::Silent)
            } else {
                (mode, windows, redraw, ShellEffect::Forward)
            }
        },
    }
}

impl<W> Shell<W> {
    /// A shell holding one window, in Navigate mode, with a first
    /// redraw pending.
    pub fn new(initial: W) -> (s: Shell<W>)
        ensures
            s.windows@ == seq![initial],
            s.mode == WindowMode::Navigate,
            s.redraw,
    {
        let mut windows: Vec<W> = Vec::new();
        windows.push(initial);
        proof {
            assert(windows@ =~= seq![initial]);
        }
        Shell { windows, mode: WindowMode::Navigate, redraw: true }
    }

    /// The loop runs while a window is on the stack.
    pub fn is_running(&self) -> (b: bool)
        ensures
            b == (self.windows@.len() > 0),
    {
        self.windows.len() > 0
    }

    /// Consume the pending-redraw flag: the caller redraws when it was
    /// set.
    pub fn take_redraw(&mut self) -> (b: bool)
        ensures
            b == old(self).redraw,
            !final(self).redraw,
            final(self).windows@ == old(self).windows@,
            final(self).mode == old(self).mode,
    {
        let b = self.redraw;
        self.redraw = false;
        b
    }

    /// Push a window; it becomes the focused one. Used by the embedding
    /// program to push the spotlight dialog after
    /// [`ShellEffect::OpenSpotlight`].
    pub fn push_window(&mut self, window: W)
        ensures
            final(self).windows@ == old(self).windows@.push(window),
            final(self).mode == old(self).mode,
            final(self).redraw == old(self).redraw,
    {
        self.windows.push(window);
    }

    /// Apply what the focused window asked for; see [`update_step`] for
    /// the exact transition.
    pub fn apply_update(&mut self, update: WindowUpdate<W>) -> (effect: ShellEffect)
        requires
            old(self).windows@.len() > 0,
        ensures
            (final(self).windows@, final(self).redraw, effect) == update_step(
                old(self).windows@,
                old(self).redraw,
                update,
            ),
            final(self).mode == old(self).mode,
    {
        match update {
            WindowUpdate::Draw => ShellEffect::DrawNow,
            WindowUpdate::New(w) => {
                self.windows.push(w);
                self.redraw = true;
                ShellEffect::Silent
            },
            WindowUpdate::Close => {
                let _ = self.windows.pop();
                self.redraw = true;
                ShellEffect::ClearScreen
            },
            WindowUpdate::Idle => ShellEffect::Silent,
        }
    }

    /// Route one input event; see [`shell_step`] for the exact
    /// transition.
    pub fn on_event(&mut self, event: &InputEvent) -> (effect: ShellEffect)
        requires
            old(self).windows@.len() > 0,
        ensures
            final(self).mode == shell_step(
                old(self).mode,
                old(self).windows@,
                old(self).redraw,
                *event,
            ).0,
            final(self).windows@ == shell_step(
                old(self).mode,
                old(self).windows@,
                old(self).redraw,
                *event,
            ).1,
            final(self).redraw == shell_step(
                old(self).mode,
                old(self).windows@,
                old(self).redraw,
                *event,
            ).2,
            effect == shell_step(old(self).mode, old(self).windows@, old(self).redraw, *event).3,
    {
        match event {
            InputEvent::Key(key) => {
                if matches!(key, KeyInput::Esc) && self.mode == WindowMode::Insert {
                    self.mode = WindowMode::Navigate;
                    self.redraw = true;
                    ShellEffect::Silent
                } else if matches!(key, KeyInput::Esc) && self.mode == WindowMode::Search {
                    self.mode = WindowMode::Navigate;
                    self.redraw = true;
                    let _ = self.windows.pop();
                    ShellEffect::ClearScreen
                } else if self.mode == WindowMode::Navigate {
                    if matches!(key, KeyInput::Char('q')) || matches!(key, KeyInput::Backspace) {
                        let _ = self.windows.pop();
                        self.redraw = true;
                        ShellEffect::ClearScreen
                    } else if matches!(key, KeyInput::Char('i')) || matches!(key, KeyInput::Insert) {
                        self.mode = WindowMode::Insert;
                        self.redraw = true;
                        ShellEffect::Silent
                    } else if matches!(key, KeyInput::Char('f')) || matches!(key, KeyInput::Char(' ')) {
                        self.mode = WindowMode::Search;
                        self.redraw = true;
                        ShellEffect::OpenSpotlight
                    } else {
                        ShellEffect::Silent
                    }
                } else {
                    ShellEffect::Forward
                }
            },
            InputEvent::Resize => {
                self.redraw = true;
                if self.mode == WindowMode::Navigate {
                    ShellEffect::Silent
                } else {
                    ShellEffect::Forward
                }
            },
            InputEvent::Other => {
                if self.mode == WindowMode::Navigate {
                    ShellEffect::Silent
                } else {
                    ShellEffect::Forward
                }
            },
        }
    }
}

/// The status-bar label of a mode.
pub fn status_label(mode: WindowMode) -> (s: String)
    ensures
        s@ == match mode {
            WindowMode::Navigate => " Navigate"@,
            WindowMode::Search => " Search"@,
            WindowMode::Insert => " Insert"@,
        },
{
    match mode {
        WindowMode::Navigate => " Navigate".to_owned(),
        WindowMode::Search => " Search".to_owned(),
        WindowMode::Insert => " Insert".to_owned(),
    }
}

/// The stack after `n` successive closes.
pub open spec fn close_n<W>(windows: Seq<W>, n: nat) -> Seq<W>
    decreases n,
{
    if n == 0 {
        windows
    } else {
        close_n(windows.drop_last(), (n - 1) as nat)
    }
}

/// Closing `n` windows truncates the stack to its first `len - n`
/// entries.
pub proof fn lemma_close_n_is_take<W>(windows: Seq<W>, n: nat)
    requires
        n <= windows.len(),
    ensures
        close_n(windows, n) == windows.take(windows.len() - n),
    decreases n,
{
    if n == 0 {
        assert(windows.take(windows.len() as int) =~= windows);
    } else {
        lemma_close_n_is_take(windows.drop_last(), (n - 1) as nat);
        assert(windows.drop_last().take(windows.len() - n) =~= windows.take(
            windows.len() - n,
        ));
    }
}

/// Stack balance: pushing any row of windows onto a non-empty stack and
/// then closing as many returns the stack exactly to what it was; one
/// further close removes the window below — with a single window at the
/// base, that empties the stack and the loop terminates.
pub proof fn lemma_stack_balance<W>(base: Seq<W>, pushed: Seq<W>)
    requires
        base.len() > 0,
    ensures
        close_n(base + pushed, pushed.len()) == base,
        close_n(base + pushed, pushed.len() + 1) == base.drop_last(),
{
    lemma_close_n_is_take(base + pushed, pushed.len());
    assert((base + pushed).take(base.len() as int) =~= base);
    lemma_close_n_is_take(base + pushed, pushed.len() + 1);
    assert((base + pushed).take(base.len() - 1) =~= base.drop_last());
}

/// Insert passthrough: in Insert mode every key except escape is
/// forwarded to the focused window, with the mode, the stack and the
/// redraw flag untouched; escape itself is swallowed and never
/// forwarded.
pub proof fn lemma_insert_passthrough<W>(windows: Seq<W>, redraw: bool, key: KeyInput)
    ensures
        !(key matches KeyInput::Esc) ==> shell_step(
            WindowMode::Insert,
            windows,
            redraw,
            InputEvent::Key(key),
        ) == (WindowMode::Insert, windows, redraw, ShellEffect::Forward),
        (key matches KeyInput::Esc) ==> shell_step(
            WindowMode::Insert,
            windows,
            redraw,
            InputEvent::Key(key),
        ).3 == ShellEffect::Silent,
{
}

} // verus!
