use crate::color::Color;
use crate::error::Error;
use crate::ruleset::{OrientDef, Ruleset, spec_orient_valid, spec_piece_valid, spec_ruleset_valid};
use vstd::prelude::*;

verus! {

/// One rotation state in compiled form: cells translated so that the lowest
/// occupied row and the leftmost occupied column are zero, with the bounding
/// extents precomputed.
#[derive(Clone, Debug)]
pub struct Orientation {
    pub cells: Vec<(u8, u8)>,
    pub width: u8,
    pub height: u8,
}

/// The compiled geometry of one piece: its rotation states in clockwise
/// order from spawn.
#[derive(Clone, Debug)]
pub struct PieceShape {
    pub color: Color,
    pub orientations: Vec<Orientation>,
}

/// Immutable mapping from color to piece geometry, built once from a ruleset
/// and shared read-only by every analysis spawned from a session.
#[derive(Clone, Debug)]
pub struct ShapeTable {
    pub shapes: Vec<PieceShape>,
}

/// `norm` is `orig` translated by one fixed offset, cell for cell: every
/// cell moves by the same row and column difference as the first cell.
pub open spec fn spec_shifted(orig: Seq<(u8, u8)>, norm: Seq<(u8, u8)>) -> bool {
    &&& norm.len() == orig.len()
    &&& forall|j: int|
        0 <= j < orig.len() ==> (#[trigger] norm[j]).0 - orig[j].0 == norm[0].0 - orig[0].0
            && norm[j].1 - orig[j].1 == norm[0].1 - orig[0].1
}

impl Orientation {
    /// Cells are nonempty, normalized (some cell touches row 0 and some cell
    /// touches column 0), and the stored extents are exactly the bounding
    /// box, which fits the 10-column, 40-row board.
    pub open spec fn wf(self) -> bool {
        let cs = self.cells@;
        &&& cs.len() >= 1
        &&& 1 <= self.width <= 10
        &&& 1 <= self.height <= 40
        &&& forall|k: int|
            0 <= k < cs.len() ==> (#[trigger] cs[k]).0 < self.height && cs[k].1 < self.width
        &&& exists|k: int| 0 <= k < cs.len() && (#[trigger] cs[k]).0 == 0
        &&& exists|k: int| 0 <= k < cs.len() && (#[trigger] cs[k]).1 == 0
        &&& exists|k: int| 0 <= k < cs.len() && (#[trigger] cs[k]).0 + 1 == self.height
        &&& exists|k: int| 0 <= k < cs.len() && (#[trigger] cs[k]).1 + 1 == self.width
    }
}

impl PieceShape {
    /// One to four well-formed rotation states.
    pub open spec fn wf(self) -> bool {
        &&& 1 <= self.orientations@.len() <= 4
        &&& forall|o: int| 0 <= o < self.orientations@.len() ==> (#[trigger] self.orientations@[o]).wf()
    }
}

impl ShapeTable {
    /// Every piece is well-formed and no two pieces share a color.
    pub open spec fn wf(self) -> bool {
        &&& forall|p: int| 0 <= p < self.shapes@.len() ==> (#[trigger] self.shapes@[p]).wf()
        &&& forall|p: int, q: int|
            0 <= p < self.shapes@.len() && 0 <= q < self.shapes@.len() && p != q
                ==> (#[trigger] self.shapes@[p]).color != (#[trigger] self.shapes@[q]).color
    }

    /// The table compiled from `rs` models it piece for piece: same colors in
    /// the same order, same orientation counts, and each orientation's cells
    /// are the ruleset's cells translated to normal position.
    pub open spec fn models(self, rs: Ruleset) -> bool {
        &&& self.shapes@.len() == rs.pieces@.len()
        &&& forall|p: int|
            0 <= p < rs.pieces@.len() ==> {
                &&& (#[trigger] self.shapes@[p]).color == rs.pieces@[p].color
                &&& self.shapes@[p].orientations@.len() == rs.pieces@[p].orientations@.len()
                &&& forall|o: int|
                    0 <= o < rs.pieces@[p].orientations@.len() ==> spec_shifted(
                        rs.pieces@[p].orientations@[o].cells@,
                        (#[trigger] self.shapes@[p].orientations@[o]).cells@,
                    )
            }
    }

    /// Compiles a ruleset into a shape table. Fails with `InvalidRuleset`
    /// exactly when the ruleset is internally inconsistent; on success the
    /// table is well-formed and models the ruleset.
    pub fn build(rs: &Ruleset) -> (r: Result<ShapeTable, Error>)
        ensures
            match r {
                Ok(t) => spec_ruleset_valid(*rs) && t.wf() && t.models(*rs),
                Err(e) => e == Error::InvalidRuleset && !spec_ruleset_valid(*rs),
            },
    {
        let mut shapes: Vec<PieceShape> = Vec::new();
        let mut p: usize = 0;
        while p < rs.pieces.len()
            invariant
                p <= rs.pieces@.len(),
                shapes@.len() == p,
                forall|i: int| 0 <= i < p ==> spec_piece_valid(#[trigger] rs.pieces@[i]),
                forall|i: int| 0 <= i < p ==> (#[trigger] shapes@[i]).wf(),
                forall|i: int, j: int|
                    0 <= i < p && 0 <= j < p && i != j ==> (#[trigger] shapes@[i]).color != (
                    #[trigger] shapes@[j]).color,
                forall|i: int|
                    0 <= i < p ==> {
                        &&& (#[trigger] shapes@[i]).color == rs.pieces@[i].color
                        &&& shapes@[i].orientations@.len() == rs.pieces@[i].orientations@.len()
                        &&& forall|o: int|
                            0 <= o < rs.pieces@[i].orientations@.len() ==> spec_shifted(
                                rs.pieces@[i].orientations@[o].cells@,
                                (#[trigger] shapes@[i].orientations@[o]).cells@,
                            )
                    },
            decreases rs.pieces@.len() - p,
        {
            let piece = &rs.pieces[p];
            let n = piece.orientations.len();
            if n < 1 || n > 4 {
                assert(!spec_piece_valid(rs.pieces@[p as int]));
                return Err(Error::InvalidRuleset);
            }
            let mut orients: Vec<Orientation> = Vec::new();
            let mut o: usize = 0;
            while o < n
                invariant
                    o <= n,
                    n == piece.orientations@.len(),
                    piece == rs.pieces@[p as int],
                    p < rs.pieces@.len(),
                    orients@.len() == o,
                    forall|i: int|
                        0 <= i < o ==> spec_orient_valid(#[trigger] piece.orientations@[i].cells@),
                    forall|i: int| 0 <= i < o ==> (#[trigger] orients@[i]).wf(),
                    forall|i: int|
                        0 <= i < o ==> spec_shifted(
                            piece.orientations@[i].cells@,
                            (#[trigger] orients@[i]).cells@,
                        ),
                decreases n - o,
            {
                match build_orientation(&piece.orientations[o]) {
                    Ok(orient) => orients.push(orient),
                    Err(e) => {
                        assert(!spec_piece_valid(rs.pieces@[p as int]));
                        return Err(e);
                    },
                }
                o = o + 1;
            }
            let mut q: usize = 0;
            while q < p
                invariant
                    q <= p,
                    p < rs.pieces@.len(),
                    shapes@.len() == p,
                    piece == rs.pieces@[p as int],
                    forall|i: int| 0 <= i < p ==> (#[trigger] shapes@[i]).color == rs.pieces@[i].color,
                    forall|i: int| 0 <= i < q ==> (#[trigger] shapes@[i]).color != piece.color,
                decreases p - q,
            {
                if shapes[q].color == piece.color {
                    assert(!spec_ruleset_valid(*rs));
                    return Err(Error::InvalidRuleset);
                }
                q = q + 1;
            }
            shapes.push(PieceShape { color: piece.color, orientations: orients });
            p = p + 1;
        }
        let table = ShapeTable { shapes };
        proof {
            assert forall|i: int, j: int|
                0 <= i < rs.pieces@.len() && 0 <= j < rs.pieces@.len() && i != j implies (
            #[trigger] rs.pieces@[i]).color != (#[trigger] rs.pieces@[j]).color by {
                assert(table.shapes@[i].color == rs.pieces@[i].color);
                assert(table.shapes@[j].color == rs.pieces@[j].color);
                assert(table.shapes@[i].color != table.shapes@[j].color);
            }
            assert(spec_ruleset_valid(*rs));
            assert(table.wf());
            assert(table.models(*rs));
        }
        Ok(table)
    }
}

/// Normalizes one orientation: translates the cells so the lowest occupied
/// row and leftmost occupied column become zero, and records the extents.
/// Fails with `InvalidRuleset` exactly when the cells are inconsistent.
fn build_orientation(od: &OrientDef) -> (r: Result<Orientation, Error>)
    ensures
        match r {
            Ok(orient) => spec_orient_valid(od.cells@) && orient.wf() && spec_shifted(
                od.cells@,
                orient.cells@,
            ),
            Err(e) => e == Error::InvalidRuleset && !spec_orient_valid(od.cells@),
        },
{
    let cs = &od.cells;
    let n = cs.len();
    if n == 0 {
        return Err(Error::InvalidRuleset);
    }
    let mut min_r: u8 = cs[0].0;
    let mut max_r: u8 = cs[0].0;
    let mut min_c: u8 = cs[0].1;
    let mut max_c: u8 = cs[0].1;
    let mut i: usize = 1;
    while i < n
        invariant
            1 <= i <= n,
            n == cs@.len(),
            forall|j: int|
                0 <= j < i ==> min_r <= (#[trigger] cs@[j]).0 <= max_r && min_c <= cs@[j].1 <= max_c,
            exists|j: int| 0 <= j < i && (#[trigger] cs@[j]).0 == min_r,
            exists|j: int| 0 <= j < i && (#[trigger] cs@[j]).0 == max_r,
            exists|j: int| 0 <= j < i && (#[trigger] cs@[j]).1 == min_c,
            exists|j: int| 0 <= j < i && (#[trigger] cs@[j]).1 == max_c,
        decreases n - i,
    {
        let (row, col) = cs[i];
        if row < min_r {
            min_r = row;
        }
        if row > max_r {
            max_r = row;
        }
        if col < min_c {
            min_c = col;
        }
        if col > max_c {
            max_c = col;
        }
        i = i + 1;
    }
    if max_r - min_r >= 40 || max_c - min_c >= 10 {
        proof {
            let jmaxr = choose|j: int| 0 <= j < cs@.len() && (#[trigger] cs@[j]).0 == max_r;
            let jminr = choose|j: int| 0 <= j < cs@.len() && (#[trigger] cs@[j]).0 == min_r;
            let jmaxc = choose|j: int| 0 <= j < cs@.len() && (#[trigger] cs@[j]).1 == max_c;
            let jminc = choose|j: int| 0 <= j < cs@.len() && (#[trigger] cs@[j]).1 == min_c;
            if max_r - min_r >= 40 {
                assert(cs@[jmaxr].0 - cs@[jminr].0 >= 40);
            } else {
                assert(cs@[jmaxc].1 - cs@[jminc].1 >= 10);
            }
        }
        return Err(Error::InvalidRuleset);
    }
    proof {
        assert forall|j: int, k: int| 0 <= j < cs@.len() && 0 <= k < cs@.len() implies (
        #[trigger] cs@[j]).0 - (#[trigger] cs@[k]).0 < 40 && cs@[j].1 - cs@[k].1 < 10 by {
            assert(min_r <= cs@[j].0 <= max_r && min_c <= cs@[j].1 <= max_c);
            assert(min_r <= cs@[k].0 <= max_r && min_c <= cs@[k].1 <= max_c);
        }
    }
    let mut ncells: Vec<(u8, u8)> = Vec::new();
    let mut j: usize = 0;
    while j < n
        invariant
            j <= n,
            n == cs@.len(),
            ncells@.len() == j,
            forall|k: int| 0 <= k < n ==> min_r <= (#[trigger] cs@[k]).0 && min_c <= cs@[k].1,
            forall|k: int|
                0 <= k < j ==> (#[trigger] ncells@[k]).0 == cs@[k].0 - min_r && ncells@[k].1
                    == cs@[k].1 - min_c,
        decreases n - j,
    {
        let (row, col) = cs[j];
        ncells.push((row - min_r, col - min_c));
        j = j + 1;
    }
    let orient = Orientation { cells: ncells, width: max_c - min_c + 1, height: max_r - min_r + 1 };
    proof {
        let jminr = choose|j: int| 0 <= j < cs@.len() && (#[trigger] cs@[j]).0 == min_r;
        let jmaxr = choose|j: int| 0 <= j < cs@.len() && (#[trigger] cs@[j]).0 == max_r;
        let jminc = choose|j: int| 0 <= j < cs@.len() && (#[trigger] cs@[j]).1 == min_c;
        let jmaxc = choose|j: int| 0 <= j < cs@.len() && (#[trigger] cs@[j]).1 == max_c;
        assert(orient.cells@[jminr].0 == 0);
        assert(orient.cells@[jmaxr].0 + 1 == orient.height);
        assert(orient.cells@[jminc].1 == 0);
        assert(orient.cells@[jmaxc].1 + 1 == orient.width);
        assert forall|k: int| 0 <= k < orient.cells@.len() implies (#[trigger] orient.cells@[k]).0
            < orient.height && orient.cells@[k].1 < orient.width by {
            assert(min_r <= cs@[k].0 <= max_r && min_c <= cs@[k].1 <= max_c);
        }
        assert(orient.wf());
        assert(spec_shifted(od.cells@, orient.cells@));
    }
    Ok(orient)
}

} // verus!
