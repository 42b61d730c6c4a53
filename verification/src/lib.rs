//! Watches a game window for fixed on-screen color signatures and decides,
//! tick by tick, how to advance or close the dialog they indicate.
//!
//! The verified core: the pixel/frame model, the signature registry, the
//! frame scanner, the control-loop state machine, the dialog-end heuristic,
//! the toggle controller, and the synthetic-input payload encoding. All
//! operating-system work (window lookup, capture, input injection, audio,
//! notifications, hotkeys) lives outside the library and hands it plain
//! values.

pub mod control;
pub mod input;
pub mod pixel;
pub mod scanner;
pub mod target;
pub mod textmatch;
pub mod toggle;
