use vstd::prelude::*;

verus! {

/// A fixed-width occupancy grid of 10 columns and 40 rows. A cell is either
/// filled or empty; cell `(row, column)` lives at flat index
/// `row * 10 + column`, with row 0 at the bottom of the board.
pub struct Matrix {
    cells: Vec<bool>,
}

/// The grid a flat boolean sequence describes: flat index `i` is filled when
/// `i` lies within the sequence and the sequence holds `true` there. Indices
/// at 400 and beyond are ignored.
pub open spec fn spec_grid_of_flags(flags: Seq<bool>) -> Seq<bool> {
    Seq::new(400, |i: int| 0 <= i < flags.len() && flags[i])
}

/// Whether the flat cell sequence `m` is filled at `(row, col)`.
pub open spec fn spec_cell(m: Seq<bool>, row: int, col: int) -> bool {
    m[row * 10 + col]
}

impl View for Matrix {
    type V = Seq<bool>;

    closed spec fn view(&self) -> Seq<bool> {
        self.cells@
    }
}

impl Matrix {
    /// A matrix holds exactly its 400-cell capacity.
    pub open spec fn wf(self) -> bool {
        self@.len() == 400
    }

    /// An empty matrix.
    pub fn new() -> (r: Matrix)
        ensures
            r.wf(),
            forall|i: int| 0 <= i < 400 ==> !r@[i],
    {
        let mut cells: Vec<bool> = Vec::new();
        let mut i: usize = 0;
        while i < 400
            invariant
                i <= 400,
                cells@.len() == i,
                forall|j: int| 0 <= j < i ==> !cells@[j],
            decreases 400 - i,
        {
            cells.push(false);
            i = i + 1;
        }
        Matrix { cells }
    }

    /// Sets the cell at `(row, col)` filled.
    pub fn set(&mut self, row: usize, col: usize)
        requires
            old(self).wf(),
            row < 40,
            col < 10,
        ensures
            final(self).wf(),
            final(self)@ == old(self)@.update(row * 10 + col, true),
    {
        let idx: usize = row * 10 + col;
        self.cells.set(idx, true);
    }

    /// Whether the cell at `(row, col)` is filled.
    pub fn get(&self, row: usize, col: usize) -> (r: bool)
        requires
            self.wf(),
            row < 40,
            col < 10,
        ensures
            r == spec_cell(self@, row as int, col as int),
    {
        self.cells[row * 10 + col]
    }

    /// An exact copy of this matrix.
    pub fn duplicate(&self) -> (r: Matrix)
        requires
            self.wf(),
        ensures
            r.wf(),
            r@ == self@,
    {
        let mut cells: Vec<bool> = Vec::new();
        let mut i: usize = 0;
        while i < 400
            invariant
                self.wf(),
                i <= 400,
                cells@.len() == i,
                forall|j: int| 0 <= j < i ==> cells@[j] == self@[j],
            decreases 400 - i,
        {
            cells.push(self.cells[i]);
            i = i + 1;
        }
        let r = Matrix { cells };
        assert(r@ =~= self@);
        r
    }

    /// Builds a matrix from a flat boolean sequence, row-major from the
    /// bottom row up: flat index `i` addresses `(i / 10, i % 10)`. Entries
    /// at index 400 and beyond are silently ignored, never an error.
    pub fn from_flags(flags: &Vec<bool>) -> (r: Matrix)
        ensures
            r.wf(),
            r@ == spec_grid_of_flags(flags@),
    {
        let mut m = Matrix::new();
        let limit: usize = if flags.len() < 400 {
            flags.len()
        } else {
            400
        };
        let mut i: usize = 0;
        while i < limit
            invariant
                i <= limit,
                limit <= 400,
                limit <= flags@.len(),
                m.wf(),
                forall|j: int| 0 <= j < i ==> m@[j] == flags@[j],
                forall|j: int| i <= j < 400 ==> !m@[j],
            decreases limit - i,
        {
            if flags[i] {
                let row: usize = i / 10;
                let col: usize = i % 10;
                assert(row * 10 + col == i);
                m.set(row, col);
            }
            i = i + 1;
        }
        assert(m@ =~= spec_grid_of_flags(flags@));
        m
    }
}

/// Grid truncation: a flat sequence longer than the 400-cell capacity
/// yields the same grid as its first 400 entries; the excess is ignored.
pub proof fn lemma_grid_truncation(flags: Seq<bool>)
    requires
        flags.len() >= 400,
    ensures
        spec_grid_of_flags(flags) == spec_grid_of_flags(flags.take(400)),
{
    assert(spec_grid_of_flags(flags) =~= spec_grid_of_flags(flags.take(400)));
}

} // verus!
