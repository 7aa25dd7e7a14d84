use crate::color::Color;
use vstd::prelude::*;

verus! {

/// One rotation state of a piece as a ruleset describes it: the set of
/// occupied cells, each given as a `(row, column)` offset. Offsets need not
/// be normalized; the shape-table build translates them.
#[derive(Clone, Debug)]
pub struct OrientDef {
    pub cells: Vec<(u8, u8)>,
}

/// One piece of a ruleset: its color and its rotation states, listed in
/// clockwise order starting from the spawn state.
#[derive(Clone, Debug)]
pub struct PieceDef {
    pub color: Color,
    pub orientations: Vec<OrientDef>,
}

/// A ruleset description: the piece geometries of one game variant, as
/// pre-supplied data. The engine consumes it only through
/// `ShapeTable::build`.
#[derive(Clone, Debug)]
pub struct Ruleset {
    pub pieces: Vec<PieceDef>,
}

/// An orientation's cells are consistent when there is at least one cell and
/// the cells span at most the 10-column, 40-row board, wherever they sit.
pub open spec fn spec_orient_valid(cells: Seq<(u8, u8)>) -> bool {
    &&& cells.len() >= 1
    &&& forall|j: int, k: int|
        0 <= j < cells.len() && 0 <= k < cells.len() ==> #[trigger] cells[j].0 - #[trigger] cells[k].0
            < 40 && cells[j].1 - cells[k].1 < 10
}

/// A piece is consistent when it has one to four rotation states, each of
/// them consistent.
pub open spec fn spec_piece_valid(p: PieceDef) -> bool {
    &&& 1 <= p.orientations@.len() <= 4
    &&& forall|o: int|
        0 <= o < p.orientations@.len() ==> spec_orient_valid(#[trigger] p.orientations@[o].cells@)
}

/// A ruleset is internally consistent when every piece is consistent and no
/// two pieces share a color.
pub open spec fn spec_ruleset_valid(rs: Ruleset) -> bool {
    &&& forall|p: int| 0 <= p < rs.pieces@.len() ==> spec_piece_valid(#[trigger] rs.pieces@[p])
    &&& forall|p: int, q: int|
        0 <= p < rs.pieces@.len() && 0 <= q < rs.pieces@.len() && p != q
            ==> (#[trigger] rs.pieces@[p].color) != (#[trigger] rs.pieces@[q].color)
}

} // verus!
