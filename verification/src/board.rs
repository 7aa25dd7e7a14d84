use crate::config::Parameters;
use crate::matrix::{Matrix, spec_cell};
use vstd::prelude::*;

verus! {

/// Whether a piece whose cells are `cells` sits entirely on empty board
/// cells when its origin is at `(r, c)`.
pub open spec fn spec_fits(m: Seq<bool>, cells: Seq<(u8, u8)>, r: int, c: int) -> bool {
    forall|k: int|
        0 <= k < cells.len() ==> {
            let rr = r + (#[trigger] cells[k]).0;
            let cc = c + cells[k].1;
            0 <= rr < 40 && 0 <= cc < 10 && !spec_cell(m, rr, cc)
        }
}

/// The row a piece dropped from origin row `r` comes to rest on: it falls
/// one row at a time while the row below is free, row 0 being the floor.
pub open spec fn spec_fall(m: Seq<bool>, cells: Seq<(u8, u8)>, r: int, c: int) -> int
    decreases r,
{
    if r > 0 && spec_fits(m, cells, r - 1, c) {
        spec_fall(m, cells, r - 1, c)
    } else {
        r
    }
}

/// Where a hard-dropped piece of height `height` lands in column `c`, or
/// `None` when it cannot enter the board there.
pub open spec fn spec_landing(m: Seq<bool>, cells: Seq<(u8, u8)>, height: int, c: int) -> Option<
    int,
> {
    let r0 = 40 - height;
    if spec_fits(m, cells, r0, c) {
        Some(spec_fall(m, cells, r0, c))
    } else {
        None
    }
}

/// The board after the first `k` cells of a piece at `(r, c)` are filled in.
pub open spec fn spec_place(m: Seq<bool>, cells: Seq<(u8, u8)>, r: int, c: int, k: int) -> Seq<
    bool,
>
    decreases k,
{
    if k <= 0 {
        m
    } else {
        spec_place(m, cells, r, c, k - 1).update(
            (r + cells[k - 1].0) * 10 + (c + cells[k - 1].1),
            true,
        )
    }
}

/// Number of filled cells among the first `n` flat indices.
pub open spec fn spec_filled(m: Seq<bool>, n: int) -> int
    decreases n,
{
    if n <= 0 {
        0
    } else {
        spec_filled(m, n - 1) + if m[n - 1] {
            1int
        } else {
            0int
        }
    }
}

/// Height of column `col` considering only rows below `from`: one more than
/// the highest filled row, 0 when the column is empty.
pub open spec fn spec_col_height(m: Seq<bool>, col: int, from: int) -> int
    decreases from,
{
    if from <= 0 {
        0
    } else if spec_cell(m, from - 1, col) {
        from
    } else {
        spec_col_height(m, col, from - 1)
    }
}

/// The tallest column height among the first `c` columns.
pub open spec fn spec_max_height(m: Seq<bool>, c: int) -> int
    decreases c,
{
    if c <= 0 {
        0
    } else {
        let h = spec_col_height(m, c - 1, 40);
        let rest = spec_max_height(m, c - 1);
        if h > rest {
            h
        } else {
            rest
        }
    }
}

/// Height of the neighbor of a column, the board walls counting as full
/// height.
pub open spec fn spec_wall_height(m: Seq<bool>, c: int) -> int {
    if c < 0 || c >= 10 {
        40
    } else {
        spec_col_height(m, c, 40)
    }
}

/// A column is a deep well when both neighbors stand at least three rows
/// above it: only a vertical I piece fills it without leaving holes.
pub open spec fn spec_is_well(m: Seq<bool>, c: int) -> bool {
    &&& spec_wall_height(m, c - 1) >= spec_col_height(m, c, 40) + 3
    &&& spec_wall_height(m, c + 1) >= spec_col_height(m, c, 40) + 3
}

/// Number of deep wells among the first `c` columns.
pub open spec fn spec_wells(m: Seq<bool>, c: int) -> int
    decreases c,
{
    if c <= 0 {
        0
    } else {
        spec_wells(m, c - 1) + if spec_is_well(m, c - 1) {
            1int
        } else {
            0int
        }
    }
}

/// Clamps an unbounded integer into the i64 range.
pub open spec fn spec_clamp_i64(x: int) -> i64 {
    if x > i64::MAX {
        i64::MAX
    } else if x < i64::MIN {
        i64::MIN
    } else {
        x as i64
    }
}

/// The rating of a board under the configured weights: a weighted sum of the
/// tallest column, the estimated piece count, and the deep-well count, plus
/// the per-piece penalty, lower meaning better. This is the engine's
/// internal, replaceable scoring policy; callers rely only on it being a
/// deterministic function of board and weights.
pub open spec fn spec_rating(params: Parameters, m: Seq<bool>) -> i64 {
    spec_clamp_i64(
        params.row_factor * spec_max_height(m, 10) + params.piece_estimate_factor * ((spec_filled(
            m,
            400,
        ) + 3) / 4) + params.i_dependency_factor * spec_wells(m, 10) + params.piece_penalty,
    )
}

/// Whether the piece fits at origin `(r, c)`.
pub fn fits(m: &Matrix, cells: &Vec<(u8, u8)>, r: u8, c: u8) -> (b: bool)
    requires
        m.wf(),
        r <= 40,
        c <= 10,
    ensures
        b == spec_fits(m@, cells@, r as int, c as int),
{
    let mut k: usize = 0;
    while k < cells.len()
        invariant
            m.wf(),
            r <= 40,
            c <= 10,
            k <= cells@.len(),
            forall|j: int|
                0 <= j < k ==> {
                    let rr = r + (#[trigger] cells@[j]).0;
                    let cc = c + cells@[j].1;
                    rr < 40 && cc < 10 && !spec_cell(m@, rr, cc)
                },
        decreases cells@.len() - k,
    {
        let (dr, dc) = cells[k];
        if dr >= 40 || dc >= 10 {
            return false;
        }
        let rr = r + dr;
        let cc = c + dc;
        if rr >= 40 || cc >= 10 {
            return false;
        }
        if m.get(rr as usize, cc as usize) {
            return false;
        }
        k = k + 1;
    }
    true
}

/// The rest row of a piece dropped from `(r, c)`.
pub fn fall(m: &Matrix, cells: &Vec<(u8, u8)>, r: u8, c: u8) -> (rr: u8)
    requires
        m.wf(),
        r <= 40,
        c <= 10,
    ensures
        rr == spec_fall(m@, cells@, r as int, c as int),
        rr <= r,
    decreases r,
{
    if r > 0 && fits(m, cells, r - 1, c) {
        fall(m, cells, r - 1, c)
    } else {
        r
    }
}

/// The board with the piece filled in at `(r, c)`.
pub fn place(m: &Matrix, cells: &Vec<(u8, u8)>, r: u8, c: u8) -> (out: Matrix)
    requires
        m.wf(),
        spec_fits(m@, cells@, r as int, c as int),
    ensures
        out.wf(),
        out@ == spec_place(m@, cells@, r as int, c as int, cells@.len() as int),
{
    let mut out = m.duplicate();
    let mut k: usize = 0;
    while k < cells.len()
        invariant
            m.wf(),
            out.wf(),
            spec_fits(m@, cells@, r as int, c as int),
            k <= cells@.len(),
            out@ == spec_place(m@, cells@, r as int, c as int, k as int),
        decreases cells@.len() - k,
    {
        let (dr, dc) = cells[k];
        assert(r + dr < 40 && c + dc < 10);
        out.set((r + dr) as usize, (c + dc) as usize);
        k = k + 1;
    }
    out
}

/// Height of column `col` considering only rows below `from`.
pub fn col_height_from(m: &Matrix, col: usize, from: usize) -> (h: usize)
    requires
        m.wf(),
        col < 10,
        from <= 40,
    ensures
        h == spec_col_height(m@, col as int, from as int),
        h <= from,
    decreases from,
{
    if from == 0 {
        0
    } else if m.get(from - 1, col) {
        from
    } else {
        col_height_from(m, col, from - 1)
    }
}

/// One weighted term of the rating: a configured weight times a small
/// non-negative board feature.
fn mul_weight(w: i64, f: i128) -> (r: i128)
    requires
        0 <= f <= 400,
    ensures
        r as int == (w as int) * (f as int),
        (i64::MIN as int) * 400 <= r as int <= (i64::MAX as int) * 400,
{
    proof {
        assert((w as int) * (f as int) <= (i64::MAX as int) * 400 && (w as int) * (f as int) >= (
        i64::MIN as int) * 400) by (nonlinear_arith)
            requires
                0 <= f as int <= 400,
                i64::MIN as int <= w as int <= i64::MAX as int,
        ;
    }
    (w as i128) * (f as i128)
}

/// The rating of a board under the configured weights.
pub fn rating(params: &Parameters, m: &Matrix) -> (r: i64)
    requires
        m.wf(),
    ensures
        r == spec_rating(*params, m@),
{
    // Tallest column.
    let mut maxh: usize = 0;
    let mut c: usize = 0;
    while c < 10
        invariant
            m.wf(),
            c <= 10,
            maxh == spec_max_height(m@, c as int),
            maxh <= 40,
        decreases 10 - c,
    {
        let h = col_height_from(m, c, 40);
        if h > maxh {
            maxh = h;
        }
        c = c + 1;
    }
    // Filled cells.
    let mut filled: usize = 0;
    let mut i: usize = 0;
    while i < 400
        invariant
            m.wf(),
            i <= 400,
            filled == spec_filled(m@, i as int),
            filled <= i,
        decreases 400 - i,
    {
        let row = i / 10;
        let col = i % 10;
        assert(row * 10 + col == i);
        if m.get(row, col) {
            filled = filled + 1;
        }
        i = i + 1;
    }
    // Deep wells.
    let mut wells: usize = 0;
    let mut w: usize = 0;
    while w < 10
        invariant
            m.wf(),
            w <= 10,
            wells == spec_wells(m@, w as int),
            wells <= w,
        decreases 10 - w,
    {
        let h = col_height_from(m, w, 40);
        let left: usize = if w == 0 {
            40
        } else {
            col_height_from(m, w - 1, 40)
        };
        let right: usize = if w == 9 {
            40
        } else {
            col_height_from(m, w + 1, 40)
        };
        if left >= h + 3 && right >= h + 3 {
            assert(spec_is_well(m@, w as int));
            wells = wells + 1;
        } else {
            assert(!spec_is_well(m@, w as int));
        }
        w = w + 1;
    }
    // Weighted sum in a wide intermediate, clamped into the rating range.
    let sum: i128 = mul_weight(params.row_factor, maxh as i128) + mul_weight(
        params.piece_estimate_factor,
        ((filled as i128) + 3) / 4,
    ) + mul_weight(params.i_dependency_factor, wells as i128) + (params.piece_penalty as i128);
    if sum > i64::MAX as i128 {
        i64::MAX
    } else if sum < i64::MIN as i128 {
        i64::MIN
    } else {
        sum as i64
    }
}

} // verus!
