//! The editor's modes.

use vstd::prelude::*;

verus! {

/// The modal states the editor can be in.
#[derive(PartialEq, Eq, Structural)]
pub enum Mode {
    Normal,
    Insert,
    Visual,
    Command,
}

impl Mode {
    /// The mode's display name.
    pub fn name(&self) -> (r: &'static str)
        ensures
            r@ == match self {
                Mode::Normal => "Normal"@,
                Mode::Insert => "Insert"@,
                Mode::Visual => "Visual"@,
                Mode::Command => "Command"@,
            },
    {
        match self {
            Mode::Normal => "Normal",
            Mode::Insert => "Insert",
            Mode::Visual => "Visual",
            Mode::Command => "Command",
        }
    }
}

} // verus!
