//! Core of a line-oriented modal text editor: the buffer/cursor editing
//! model, the finite-state machine that governs editing modes, and the
//! viewport logic that maps buffer and cursor onto a bounded terminal
//! grid with scrolling.

pub mod editor;
pub mod key;
pub mod mode_manager;
pub mod state_machine;
pub mod storage;
pub mod viewport;
