//! The camera framing chosen in the menu.

use vstd::prelude::*;

verus! {

/// Camera framing: centered on the car, or leading its velocity.
#[derive(Debug, Clone, Copy, Default, PartialEq, Eq, Structural)]
pub enum CameraMode {
    #[default]
    Centered,
    LookAhead,
}

impl CameraMode {
    pub open spec fn spec_label(self) -> Seq<char> {
        match self {
            CameraMode::Centered => "CENTERED"@,
            CameraMode::LookAhead => "LOOK AHEAD"@,
        }
    }

    /// Menu text for the framing.
    pub fn label(self) -> (s: &'static str)
        ensures
            s@ == self.spec_label(),
    {
        match self {
            CameraMode::Centered => "CENTERED",
            CameraMode::LookAhead => "LOOK AHEAD",
        }
    }
}

} // verus!
