use vstd::prelude::*;

verus! {

/// One discrete control action of a move's input sequence.
#[derive(Clone, Copy, Debug, PartialEq, Eq, Structural)]
pub enum Input {
    /// Shift the falling piece one column to the left.
    Left,
    /// Shift the falling piece one column to the right.
    Right,
    /// Rotate clockwise.
    Cw,
    /// Rotate counterclockwise.
    Ccw,
    /// Rotate 180 degrees.
    Flip,
    /// Swap the falling piece with the held piece.
    Hold,
    /// Soft-drop.
    Sd,
    /// Hard-drop.
    Hd,
}

/// The stable numeric identity of each action, part of the wire contract:
/// left 1, right 2, clockwise 3, counterclockwise 4, flip 5, hard-drop 6,
/// soft-drop 7, hold 8. It must not be renumbered.
pub open spec fn spec_input_code(i: Input) -> u8 {
    match i {
        Input::Left => 1,
        Input::Right => 2,
        Input::Cw => 3,
        Input::Ccw => 4,
        Input::Flip => 5,
        Input::Hd => 6,
        Input::Sd => 7,
        Input::Hold => 8,
    }
}

impl Input {
    /// The numeric identity used whenever a move sequence crosses the
    /// host boundary.
    pub fn code(self) -> (r: u8)
        ensures
            r == spec_input_code(self),
    {
        match self {
            Input::Left => 1,
            Input::Right => 2,
            Input::Cw => 3,
            Input::Ccw => 4,
            Input::Flip => 5,
            Input::Hd => 6,
            Input::Sd => 7,
            Input::Hold => 8,
        }
    }
}

} // verus!
