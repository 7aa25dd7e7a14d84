use crate::board::{fall, fits, place, rating, spec_fall, spec_fits, spec_landing, spec_place,
    spec_rating};
use crate::color::Color;
use crate::config::{Config, Parameters};
use crate::matrix::Matrix;
use crate::shape::{PieceShape, ShapeTable};
use crate::snapshot::Snapshot;
use vstd::prelude::*;

verus! {

/// One reachable placement the search found: its rating and the placement
/// parameters its input sequence is derived from. `orient` is the rotation
/// state index, `col` the target column, `spawn` the column the piece enters
/// the board at, and `use_hold` whether the hold action precedes the rest.
#[derive(Clone, Copy, Debug, PartialEq, Eq, Structural)]
pub struct MoveRec {
    pub rating: i64,
    pub use_hold: bool,
    pub orient: u8,
    pub col: u8,
    pub spawn: u8,
}

/// The field bounds every placement record found by the search obeys.
pub open spec fn spec_rec_valid(rec: MoveRec) -> bool {
    rec.orient < 4 && rec.col < 10 && rec.spawn < 10
}

/// Candidate number `k` of a shape: rotation state `k / 10` hard-dropped
/// into column `k % 10`, or `None` when the piece cannot be placed there.
pub open spec fn spec_candidate(
    params: Parameters,
    m: Seq<bool>,
    shape: PieceShape,
    use_hold: bool,
    k: int,
) -> Option<MoveRec> {
    let o = k / 10;
    let c = k % 10;
    let orient = shape.orientations@[o];
    match spec_landing(m, orient.cells@, orient.height as int, c) {
        Option::Some(r) => Option::Some(
            MoveRec {
                rating: spec_rating(
                    params,
                    spec_place(m, orient.cells@, r, c, orient.cells@.len() as int),
                ),
                use_hold,
                orient: o as u8,
                col: c as u8,
                spawn: ((10 - orient.width) / 2) as u8,
            },
        ),
        Option::None => Option::None,
    }
}

/// The placements found among the first `k` candidates of a shape, together
/// with the search budget left: each candidate examined costs one unit, and
/// examination stops when the budget runs out.
pub open spec fn spec_scan_shape(
    params: Parameters,
    m: Seq<bool>,
    shape: PieceShape,
    use_hold: bool,
    k: int,
    budget: int,
) -> (Seq<MoveRec>, int)
    decreases k,
{
    if k <= 0 || budget <= 0 {
        (Seq::empty(), budget)
    } else {
        let (pre, b) = spec_scan_shape(params, m, shape, use_hold, k - 1, budget);
        if b <= 0 {
            (pre, b)
        } else {
            match spec_candidate(params, m, shape, use_hold, k - 1) {
                Option::Some(rec) => (pre.push(rec), b - 1),
                Option::None => (pre, b - 1),
            }
        }
    }
}

/// The shape of `color` in the table, scanning from index `i`.
pub open spec fn spec_find_from(shapes: Seq<PieceShape>, color: Color, i: int) -> Option<PieceShape>
    decreases shapes.len() - i,
{
    if i < 0 || i >= shapes.len() {
        Option::None
    } else if shapes[i].color == color {
        Option::Some(shapes[i])
    } else {
        spec_find_from(shapes, color, i + 1)
    }
}

/// The placements for one optional piece identity: all candidates of its
/// shape, or none when there is no piece or the table does not know it.
pub open spec fn spec_scan_color(
    params: Parameters,
    m: Seq<bool>,
    table: ShapeTable,
    color: Option<Color>,
    use_hold: bool,
    budget: int,
) -> (Seq<MoveRec>, int) {
    match color {
        Option::Some(col) => match spec_find_from(table.shapes@, col, 0) {
            Option::Some(shape) => spec_scan_shape(
                params,
                m,
                shape,
                use_hold,
                shape.orientations@.len() * 10 as int,
                budget,
            ),
            Option::None => (Seq::empty(), budget),
        },
        Option::None => (Seq::empty(), budget),
    }
}

/// The piece the job places without using hold: the front of the queue, or
/// the held piece when the queue is empty.
pub open spec fn spec_active(snap: Snapshot) -> Option<Color> {
    if snap.queue@.len() > 0 {
        Option::Some(snap.queue@[0])
    } else {
        snap.hold
    }
}

/// The piece the job places after the hold action: the held piece, or the
/// second of the queue when nothing is held.
pub open spec fn spec_alt(snap: Snapshot) -> Option<Color> {
    if snap.queue@.len() > 0 {
        match snap.hold {
            Option::Some(h) => Option::Some(h),
            Option::None => if snap.queue@.len() > 1 {
                Option::Some(snap.queue@[1])
            } else {
                Option::None
            },
        }
    } else {
        Option::None
    }
}

/// Everything the search of one analysis job finds, in discovery order, and
/// the budget left over: the placements of the active piece first, then of
/// the piece reachable through hold, bounded by `search_limit` candidates.
pub open spec fn spec_search_result(config: Config, table: ShapeTable, snap: Snapshot) -> (
    Seq<MoveRec>,
    int,
) {
    let (first, b1) = spec_scan_color(
        config.parameters,
        snap.matrix@,
        table,
        spec_active(snap),
        false,
        config.search_limit as int,
    );
    let (second, b2) = spec_scan_color(
        config.parameters,
        snap.matrix@,
        table,
        spec_alt(snap),
        true,
        b1,
    );
    (first + second, b2)
}

/// The budget never goes negative and never grows.
pub proof fn lemma_scan_budget(
    params: Parameters,
    m: Seq<bool>,
    shape: PieceShape,
    use_hold: bool,
    k: int,
    budget: int,
)
    requires
        budget >= 0,
    ensures
        0 <= spec_scan_shape(params, m, shape, use_hold, k, budget).1 <= budget,
    decreases k,
{
    if k > 0 && budget > 0 {
        lemma_scan_budget(params, m, shape, use_hold, k - 1, budget);
    }
}

/// Once the budget is exhausted, scanning further candidates changes
/// nothing.
pub proof fn lemma_scan_stalls(
    params: Parameters,
    m: Seq<bool>,
    shape: PieceShape,
    use_hold: bool,
    k: int,
    k2: int,
    budget: int,
)
    requires
        0 <= k <= k2,
        spec_scan_shape(params, m, shape, use_hold, k, budget).1 <= 0,
    ensures
        spec_scan_shape(params, m, shape, use_hold, k2, budget) == spec_scan_shape(
            params,
            m,
            shape,
            use_hold,
            k,
            budget,
        ),
    decreases k2 - k,
{
    if k2 > k {
        lemma_scan_stalls(params, m, shape, use_hold, k, k2 - 1, budget);
    }
}

/// One scan leaves a budget between zero and what it was given.
pub proof fn lemma_scan_color_budget(
    params: Parameters,
    m: Seq<bool>,
    table: ShapeTable,
    color: Option<Color>,
    use_hold: bool,
    budget: int,
)
    requires
        budget >= 0,
    ensures
        0 <= spec_scan_color(params, m, table, color, use_hold, budget).1 <= budget,
{
    if color is Some {
        match spec_find_from(table.shapes@, color->Some_0, 0) {
            Option::Some(shape) => {
                lemma_scan_budget(params, m, shape, use_hold, shape.orientations@.len() * 10 as int, budget);
            },
            Option::None => {},
        }
    }
}

/// A whole search examines at most `search_limit` candidates: the budget it
/// leaves lies between zero and the limit.
pub proof fn lemma_search_budget(config: Config, table: ShapeTable, snap: Snapshot)
    ensures
        0 <= spec_search_result(config, table, snap).1 <= config.search_limit,
{
    let b1 = spec_scan_color(
        config.parameters,
        snap.matrix@,
        table,
        spec_active(snap),
        false,
        config.search_limit as int,
    ).1;
    lemma_scan_color_budget(
        config.parameters,
        snap.matrix@,
        table,
        spec_active(snap),
        false,
        config.search_limit as int,
    );
    lemma_scan_color_budget(config.parameters, snap.matrix@, table, spec_alt(snap), true, b1);
}

/// A piece that fits where it starts still fits where it comes to rest.
pub proof fn lemma_fall_fits(m: Seq<bool>, cells: Seq<(u8, u8)>, r: int, c: int)
    requires
        0 <= r,
        spec_fits(m, cells, r, c),
    ensures
        0 <= spec_fall(m, cells, r, c) <= r,
        spec_fits(m, cells, spec_fall(m, cells, r, c), c),
    decreases r,
{
    if r > 0 && spec_fits(m, cells, r - 1, c) {
        lemma_fall_fits(m, cells, r - 1, c);
    }
}

/// The shape of `color` in the table, as an index into its pieces.
fn find_shape(table: &ShapeTable, color: Color) -> (r: Option<usize>)
    ensures
        match r {
            Option::Some(i) => i < table.shapes@.len() && spec_find_from(table.shapes@, color, 0)
                == Option::Some(table.shapes@[i as int]),
            Option::None => spec_find_from(table.shapes@, color, 0) is None,
        },
{
    let mut i: usize = 0;
    while i < table.shapes.len()
        invariant
            i <= table.shapes@.len(),
            spec_find_from(table.shapes@, color, 0) == spec_find_from(table.shapes@, color, i as int),
        decreases table.shapes@.len() - i,
    {
        if table.shapes[i].color == color {
            return Option::Some(i);
        }
        i = i + 1;
    }
    Option::None
}

/// Scans every candidate of one shape, appending the placements found to
/// `out` and returning the budget left.
fn scan_shape(
    params: &Parameters,
    m: &Matrix,
    shape: &PieceShape,
    use_hold: bool,
    budget: usize,
    out: &mut Vec<MoveRec>,
) -> (nb: usize)
    requires
        m.wf(),
        shape.wf(),
    ensures
        ({
            let (recs, b) = spec_scan_shape(
                *params,
                m@,
                *shape,
                use_hold,
                shape.orientations@.len() * 10 as int,
                budget as int,
            );
            &&& final(out)@ == old(out)@ + recs
            &&& nb as int == b
        }),
        forall|j: int|
            old(out)@.len() <= j < final(out)@.len() ==> spec_rec_valid(#[trigger] final(out)@[j]),
{
    let n = shape.orientations.len();
    let mut b: usize = budget;
    let mut o: usize = 0;
    proof {
        lemma_scan_budget(*params, m@, *shape, use_hold, 0, budget as int);
    }
    while o < n && b > 0
        invariant
            m.wf(),
            shape.wf(),
            n == shape.orientations@.len(),
            o <= n,
            ({
                let (recs, bk) = spec_scan_shape(
                    *params,
                    m@,
                    *shape,
                    use_hold,
                    o * 10,
                    budget as int,
                );
                &&& out@ == old(out)@ + recs
                &&& b as int == bk
            }),
            forall|j: int|
                old(out)@.len() <= j < out@.len() ==> spec_rec_valid(#[trigger] out@[j]),
        decreases n - o,
    {
        let mut c: usize = 0;
        while c < 10 && b > 0
            invariant
                m.wf(),
                shape.wf(),
                n == shape.orientations@.len(),
                o < n,
                c <= 10,
                ({
                    let (recs, bk) = spec_scan_shape(
                        *params,
                        m@,
                        *shape,
                        use_hold,
                        o * 10 + c,
                        budget as int,
                    );
                    &&& out@ == old(out)@ + recs
                    &&& b as int == bk
                }),
                forall|j: int|
                    old(out)@.len() <= j < out@.len() ==> spec_rec_valid(#[trigger] out@[j]),
            decreases 10 - c,
        {
            let ghost k: int = o * 10 + c;
            proof {
                lemma_scan_budget(*params, m@, *shape, use_hold, k, budget as int);
                assert(k / 10 == o && k % 10 == c) by (nonlinear_arith)
                    requires
                        k == o * 10 + c,
                        0 <= c < 10,
                        0 <= o,
                ;
            }
            let orient = &shape.orientations[o];
            assert(orient.wf());
            let r0: u8 = 40 - orient.height;
            if fits(m, &orient.cells, r0, c as u8) {
                proof {
                    lemma_fall_fits(m@, orient.cells@, r0 as int, c as int);
                }
                let rest = fall(m, &orient.cells, r0, c as u8);
                let placed = place(m, &orient.cells, rest, c as u8);
                let score = rating(params, &placed);
                let rec = MoveRec {
                    rating: score,
                    use_hold,
                    orient: o as u8,
                    col: c as u8,
                    spawn: (10 - orient.width) / 2,
                };
                assert(spec_candidate(*params, m@, *shape, use_hold, k) == Option::Some(rec));
                out.push(rec);
            } else {
                assert(spec_candidate(*params, m@, *shape, use_hold, k) is None);
            }
            b = b - 1;
            c = c + 1;
            assert(out@ == old(out)@ + spec_scan_shape(
                *params,
                m@,
                *shape,
                use_hold,
                k + 1,
                budget as int,
            ).0);
        }
        if b == 0 && c < 10 {
            proof {
                lemma_scan_stalls(
                    *params,
                    m@,
                    *shape,
                    use_hold,
                    o * 10 + c,
                    (o + 1) * 10,
                    budget as int,
                );
            }
        }
        o = o + 1;
    }
    if b == 0 && o < n {
        proof {
            lemma_scan_stalls(*params, m@, *shape, use_hold, o * 10, n * 10, budget as int);
        }
    }
    b
}

/// Scans the candidates of one optional piece identity.
fn scan_color(
    params: &Parameters,
    m: &Matrix,
    table: &ShapeTable,
    color: Option<Color>,
    use_hold: bool,
    budget: usize,
    out: &mut Vec<MoveRec>,
) -> (nb: usize)
    requires
        m.wf(),
        table.wf(),
    ensures
        ({
            let (recs, b) = spec_scan_color(*params, m@, *table, color, use_hold, budget as int);
            &&& final(out)@ == old(out)@ + recs
            &&& nb as int == b
        }),
        forall|j: int|
            old(out)@.len() <= j < final(out)@.len() ==> spec_rec_valid(#[trigger] final(out)@[j]),
{
    match color {
        Option::Some(col) => match find_shape(table, col) {
            Option::Some(i) => {
                let shape = &table.shapes[i];
                scan_shape(params, m, shape, use_hold, budget, out)
            },
            Option::None => {
                proof {
                    assert(out@ + Seq::<MoveRec>::empty() =~= out@);
                }
                budget
            },
        },
        Option::None => {
            proof {
                assert(out@ + Seq::<MoveRec>::empty() =~= out@);
            }
            budget
        },
    }
}

/// Runs one job's whole search: the active piece's placements, then the
/// placements reachable through hold, in discovery order, examining at most
/// `search_limit` candidates. Returns the placements and the budget left.
pub fn run_search(config: &Config, table: &ShapeTable, snap: &Snapshot) -> (res: (
    Vec<MoveRec>,
    usize,
))
    requires
        table.wf(),
        snap.wf(),
    ensures
        ({
            let (recs, b) = spec_search_result(*config, *table, *snap);
            &&& res.0@ == recs
            &&& res.1 as int == b
        }),
        forall|j: int| 0 <= j < res.0@.len() ==> spec_rec_valid(#[trigger] res.0@[j]),
{
    let active: Option<Color> = if snap.queue.len() > 0 {
        Option::Some(snap.queue[0])
    } else {
        snap.hold
    };
    let alt: Option<Color> = if snap.queue.len() > 0 {
        match snap.hold {
            Option::Some(h) => Option::Some(h),
            Option::None => if snap.queue.len() > 1 {
                Option::Some(snap.queue[1])
            } else {
                Option::None
            },
        }
    } else {
        Option::None
    };
    let mut out: Vec<MoveRec> = Vec::new();
    let b1 = scan_color(&config.parameters, &snap.matrix, table, active, false, config.search_limit, &mut out);
    let b2 = scan_color(&config.parameters, &snap.matrix, table, alt, true, b1, &mut out);
    proof {
        let (first, _) = spec_scan_color(
            config.parameters,
            snap.matrix@,
            *table,
            spec_active(*snap),
            false,
            config.search_limit as int,
        );
        assert(Seq::<MoveRec>::empty() + first =~= first);
    }
    (out, b2)
}

} // verus!
