//! The modes of the editor, as the status bar names them.

use vstd::prelude::*;

verus! {

#[derive(Debug, Clone, Copy, PartialEq, Eq, Structural)]
pub enum Mode {
    Select,
    Normal,
    Insert,
}

impl Default for Mode {
    fn default() -> (mode: Self)
        ensures
            mode == Mode::Select,
    {
        Mode::Select
    }
}

impl Mode {
    /// The mode's name, as it is shown.
    pub open spec fn name(self) -> Seq<char> {
        match self {
            Mode::Select => "Select"@,
            Mode::Normal => "Normal"@,
            Mode::Insert => "Insert"@,
        }
    }

    pub fn as_str(&self) -> (name: &'static str)
        ensures
            name@ == self.name(),
    {
        match self {
            Mode::Select => "Select",
            Mode::Normal => "Normal",
            Mode::Insert => "Insert",
        }
    }
}

} // verus!
