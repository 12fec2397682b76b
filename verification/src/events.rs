//! The editor's input events, as the terminal layer hands them over.

use vstd::prelude::*;

verus! {

/// One keyboard event, already mapped from the terminal's raw input.
pub enum EventKind {
    NormalMode,
    Quit,
    KeyPressed(char),
    Backspace,
    ScrollUp,
    ScrollDown,
    SaveFile,
    EnterKey,
    ShiftedKey(char),
    Tab,
    ShiftTab,
    RequestCompletion,
}

} // verus!
