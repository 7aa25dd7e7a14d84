use crate::color::{Color, spec_color_of_char};
use crate::matrix::{Matrix, spec_grid_of_flags};
use vstd::prelude::*;

verus! {

/// One decision point: the board occupancy, the held piece if any, and the
/// upcoming piece queue, first element next to drop. Immutable once built.
pub struct Snapshot {
    pub hold: Option<Color>,
    pub queue: Vec<Color>,
    pub matrix: Matrix,
}

/// The held color a host-supplied character stands for: an absent or
/// unrecognized character means nothing is held.
pub open spec fn spec_hold_of(c: Option<char>) -> Option<Color> {
    match c {
        Option::None => Option::None,
        Option::Some(ch) => spec_color_of_char(ch),
    }
}

/// The queue a host-supplied character sequence stands for: recognized
/// characters in order, unrecognized ones dropped.
pub open spec fn spec_colors_of(s: Seq<char>) -> Seq<Color>
    decreases s.len(),
{
    if s.len() == 0 {
        Seq::empty()
    } else {
        spec_colors_of(s.drop_last()) + match spec_color_of_char(s.last()) {
            Option::Some(color) => seq![color],
            Option::None => Seq::empty(),
        }
    }
}

impl Snapshot {
    /// The matrix holds its full capacity.
    pub open spec fn wf(self) -> bool {
        self.matrix.wf()
    }

    /// Builds a snapshot from plain host values: an optional held-piece
    /// character, the upcoming piece characters in order, and the occupancy
    /// grid as a flat boolean sequence (row-major, 10 wide, entries past the
    /// 400-cell capacity silently ignored). Unrecognized queue characters
    /// are dropped; an unrecognized hold character means nothing is held.
    pub fn from_parts(hold: Option<char>, next: &Vec<char>, field: &Vec<bool>) -> (r: Snapshot)
        ensures
            r.wf(),
            r.hold == spec_hold_of(hold),
            r.queue@ == spec_colors_of(next@),
            r.matrix@ == spec_grid_of_flags(field@),
    {
        let hold_color = match hold {
            Option::None => Option::None,
            Option::Some(ch) => match Color::from_char(ch) {
                Result::Ok(color) => Option::Some(color),
                Result::Err(_) => Option::None,
            },
        };
        let mut queue: Vec<Color> = Vec::new();
        let mut i: usize = 0;
        while i < next.len()
            invariant
                i <= next@.len(),
                queue@ == spec_colors_of(next@.take(i as int)),
            decreases next@.len() - i,
        {
            proof {
                assert(next@.take(i + 1).drop_last() =~= next@.take(i as int));
                assert(next@.take(i + 1).last() == next@[i as int]);
            }
            match Color::from_char(next[i]) {
                Result::Ok(color) => {
                    queue.push(color);
                    assert(queue@ =~= spec_colors_of(next@.take(i + 1)));
                },
                Result::Err(_) => {
                    assert(queue@ =~= spec_colors_of(next@.take(i + 1)));
                },
            }
            i = i + 1;
        }
        proof {
            assert(next@.take(next@.len() as int) =~= next@);
        }
        Snapshot { hold: hold_color, queue, matrix: Matrix::from_flags(field) }
    }
}

} // verus!
