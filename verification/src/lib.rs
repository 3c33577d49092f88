//! Runtime for a modal, stack-based terminal interface.
//!
//! The library holds the logic of the runtime: the LIFO stack of active
//! windows with the interaction-mode state machine that routes key events
//! (`shell`), the input-event model (`event`), the spotlight search
//! overlay with its fuzzy scoring and stable ranking (`spotlight`,
//! `rank`, `text`), and the state of the built-in login window (`login`).
//! Drawing to a terminal and polling for events are left to the embedding
//! program, which drives the shell through its verified transitions.

pub mod event;
pub mod login;
pub mod rank;
pub mod shell;
pub mod spotlight;
pub mod text;
