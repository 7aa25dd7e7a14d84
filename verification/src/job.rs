use crate::clock::{elapsed_ms, instant_now};
use crate::config::Config;
use crate::error::Error;
use crate::input::Input;
use crate::search::{MoveRec, run_search, spec_rec_valid, spec_search_result, lemma_search_budget};
use crate::shape::ShapeTable;
use crate::snapshot::Snapshot;
use core::cmp::Ordering;
use std::rc::Rc;
use vstd::prelude::*;

verus! {

/// Where an analysis job stands: `Running` from creation until `wait`
/// completes, `Ready` once its result set is stable, `Discarded` after its
/// resources are released.
#[derive(Clone, Copy, Debug, PartialEq, Eq, Structural)]
pub enum JobState {
    Running,
    Ready,
    Discarded,
}

/// An opaque identifier of one reachable placement, valid only within the
/// analysis job that issued it.
#[derive(Clone, Copy, Debug, PartialEq, Eq, Structural)]
pub struct Move {
    pub id: usize,
}

/// The externally visible form of a move: its rating (lower is better) and
/// the input sequence that realizes it, possibly truncated.
#[derive(Clone, Debug)]
pub struct Suggestion {
    pub rating: i64,
    pub inputs: Vec<Input>,
}

/// Search effort actually spent by a completed job.
#[derive(Clone, Copy, Debug, PartialEq, Eq, Structural)]
pub struct Stats {
    pub iterations: u64,
    pub nodes: u64,
    pub time_taken_ms: u64,
}

/// Long-lived holder of a configuration and a shape table; factory for
/// analysis jobs.
pub struct Session {
    config: Config,
    table: Rc<ShapeTable>,
}

/// One bounded search over one snapshot, and its queryable result set.
pub struct AnalysisJob {
    state: JobState,
    config: Config,
    table: Rc<ShapeTable>,
    snapshot: Snapshot,
    moves: Vec<MoveRec>,
    iterations: usize,
    time_taken_ms: u64,
}

/// Whether move `a` ranks strictly better than move `b`: a lower rating
/// wins, and equal ratings are broken by discovery order.
pub open spec fn spec_key_lt(recs: Seq<MoveRec>, a: int, b: int) -> bool {
    recs[a].rating < recs[b].rating || (recs[a].rating == recs[b].rating && a < b)
}

/// The ordering `cmp` reports between two valid moves of one job:
/// `Less` means the first ranks better. It is a strict total order.
pub open spec fn spec_cmp_res(recs: Seq<MoveRec>, a: int, b: int) -> Ordering {
    if a == b {
        Ordering::Equal
    } else if spec_key_lt(recs, a, b) {
        Ordering::Less
    } else {
        Ordering::Greater
    }
}

/// The rotation actions that reach rotation state `orient` from spawn.
pub open spec fn spec_rot_inputs(orient: u8) -> Seq<Input> {
    if orient == 1 {
        seq![Input::Cw]
    } else if orient == 2 {
        seq![Input::Flip]
    } else if orient == 3 {
        seq![Input::Ccw]
    } else {
        Seq::empty()
    }
}

/// `n` copies of one action.
pub open spec fn spec_repeat(i: Input, n: int) -> Seq<Input>
    decreases n,
{
    if n <= 0 {
        Seq::empty()
    } else {
        spec_repeat(i, n - 1).push(i)
    }
}

/// The horizontal shifts that move a piece from its spawn column to the
/// placement's target column.
pub open spec fn spec_shift_inputs(rec: MoveRec) -> Seq<Input> {
    if rec.col < rec.spawn {
        spec_repeat(Input::Left, rec.spawn - rec.col)
    } else {
        spec_repeat(Input::Right, rec.col - rec.spawn)
    }
}

/// The full input sequence that realizes a placement: hold if used, then
/// the rotation, then the horizontal shifts, then a hard drop.
pub open spec fn spec_inputs(rec: MoveRec) -> Seq<Input> {
    (if rec.use_hold {
        seq![Input::Hold]
    } else {
        Seq::empty()
    }) + spec_rot_inputs(rec.orient) + spec_shift_inputs(rec) + seq![Input::Hd]
}

/// The input sequence truncated to at most `max` actions, keeping the first
/// actions.
pub open spec fn spec_truncated_inputs(rec: MoveRec, max: int) -> Seq<Input> {
    let full = spec_inputs(rec);
    if full.len() <= max {
        full
    } else {
        full.take(max)
    }
}

impl Session {
    /// The session's active configuration.
    pub closed spec fn spec_config(self) -> Config {
        self.config
    }

    /// The session's shape table.
    pub closed spec fn spec_table(self) -> ShapeTable {
        *self.table
    }

    /// The shape table is well-formed.
    pub open spec fn wf(self) -> bool {
        self.spec_table().wf()
    }

    /// Binds a configuration and a shape table into a reusable handle.
    pub fn create(config: Config, table: ShapeTable) -> (s: Session)
        requires
            table.wf(),
        ensures
            s.wf(),
            s.spec_config() == config,
            s.spec_table() == table,
    {
        Session { config, table: Rc::new(table) }
    }

    /// A copy of the active configuration; mutating the copy does not
    /// affect the session.
    pub fn get_config(&self) -> (c: Config)
        ensures
            c == self.spec_config(),
    {
        self.config
    }

    /// Replaces the active configuration. Takes effect for subsequently
    /// started jobs only; an in-flight job keeps the configuration it was
    /// started with.
    pub fn set_config(&mut self, config: Config)
        requires
            old(self).wf(),
        ensures
            final(self).wf(),
            final(self).spec_config() == config,
            final(self).spec_table() == old(self).spec_table(),
    {
        self.config = config;
    }

    /// Starts a new analysis job over `snapshot` with the session's current
    /// configuration and shape table. Returns immediately with the job in
    /// the `Running` state; the session remains free to start further jobs.
    pub fn analyze(&self, snapshot: Snapshot) -> (job: AnalysisJob)
        requires
            self.wf(),
            snapshot.wf(),
        ensures
            job.wf(),
            job.spec_state() == JobState::Running,
            job.spec_config() == self.spec_config(),
            job.spec_table() == self.spec_table(),
            job.spec_snapshot() == snapshot,
    {
        AnalysisJob {
            state: JobState::Running,
            config: self.config,
            table: self.table.clone(),
            snapshot,
            moves: Vec::new(),
            iterations: 0,
            time_taken_ms: 0,
        }
    }
}

impl AnalysisJob {
    /// Where the job stands in its lifecycle.
    pub closed spec fn spec_state(self) -> JobState {
        self.state
    }

    /// The configuration the job was started with.
    pub closed spec fn spec_config(self) -> Config {
        self.config
    }

    /// The shape table the job searches with.
    pub closed spec fn spec_table(self) -> ShapeTable {
        *self.table
    }

    /// The snapshot the job analyzes.
    pub closed spec fn spec_snapshot(self) -> Snapshot {
        self.snapshot
    }

    /// The placement records of the result set, in discovery order; empty
    /// unless the job is `Ready`.
    pub closed spec fn spec_recs(self) -> Seq<MoveRec> {
        self.moves@
    }

    /// Candidates examined by the completed search.
    pub closed spec fn spec_iterations(self) -> int {
        self.iterations as int
    }

    /// Wall-clock milliseconds the search took.
    pub closed spec fn spec_time_ms(self) -> u64 {
        self.time_taken_ms
    }

    /// Internal consistency: once `Ready`, the result set is exactly what
    /// the deterministic search of the job's inputs finds; otherwise it is
    /// empty.
    pub closed spec fn wf(self) -> bool {
        &&& self.snapshot.wf()
        &&& self.spec_table().wf()
        &&& self.state == JobState::Ready ==> {
            let (recs, b) = spec_search_result(self.config, self.spec_table(), self.snapshot);
            &&& self.moves@ == recs
            &&& 0 <= b <= self.config.search_limit
            &&& self.iterations as int == self.config.search_limit - b
            &&& forall|j: int| 0 <= j < recs.len() ==> spec_rec_valid(#[trigger] recs[j])
        }
        &&& self.state != JobState::Ready ==> self.moves@ == Seq::<MoveRec>::empty()
    }

    /// Once `Ready`, the result set is exactly the deterministic search
    /// result of the job's snapshot, configuration and shape table, its
    /// records within bounds, and the iteration count is the number of
    /// candidates the budget allowed.
    pub proof fn lemma_ready_recs(self)
        requires
            self.wf(),
            self.spec_state() == JobState::Ready,
        ensures
            self.spec_recs() == spec_search_result(
                self.spec_config(),
                self.spec_table(),
                self.spec_snapshot(),
            ).0,
            self.spec_iterations() == self.spec_config().search_limit - spec_search_result(
                self.spec_config(),
                self.spec_table(),
                self.spec_snapshot(),
            ).1,
            forall|j: int|
                0 <= j < self.spec_recs().len() ==> spec_rec_valid(#[trigger] self.spec_recs()[j]),
    {
    }

    /// Suspends until the job has produced a stable result set. On a
    /// `Running` job it performs the bounded search and moves the job to
    /// `Ready`; on a `Ready` job it changes nothing; on a discarded job it
    /// fails with `JobDiscarded`.
    pub fn wait(&mut self) -> (r: Result<(), Error>)
        requires
            old(self).wf(),
        ensures
            final(self).wf(),
            match old(self).spec_state() {
                JobState::Discarded => r == Err::<(), Error>(Error::JobDiscarded) && *final(self)
                    == *old(self),
                JobState::Ready => r == Ok::<(), Error>(()) && *final(self) == *old(self),
                JobState::Running => {
                    &&& r == Ok::<(), Error>(())
                    &&& final(self).spec_state() == JobState::Ready
                    &&& final(self).spec_config() == old(self).spec_config()
                    &&& final(self).spec_table() == old(self).spec_table()
                    &&& final(self).spec_snapshot() == old(self).spec_snapshot()
                    &&& final(self).spec_recs() == spec_search_result(
                        old(self).spec_config(),
                        old(self).spec_table(),
                        old(self).spec_snapshot(),
                    ).0
                    &&& final(self).spec_iterations() == old(self).spec_config().search_limit
                        - spec_search_result(
                        old(self).spec_config(),
                        old(self).spec_table(),
                        old(self).spec_snapshot(),
                    ).1
                },
            },
    {
        match self.state {
            JobState::Discarded => Err(Error::JobDiscarded),
            JobState::Ready => Ok(()),
            JobState::Running => {
                let started = instant_now();
                proof {
                    lemma_search_budget(self.config, self.spec_table(), self.snapshot);
                }
                let (moves, left) = run_search(&self.config, &*self.table, &self.snapshot);
                self.moves = moves;
                self.iterations = self.config.search_limit - left;
                self.time_taken_ms = elapsed_ms(&started);
                self.state = JobState::Ready;
                Ok(())
            },
        }
    }

    /// The distinct reachable placements found, as move identifiers. The
    /// order carries no ranking; rank with `cmp`. Fails with `JobNotReady`
    /// before `wait` completes and `JobDiscarded` after discard.
    pub fn all_moves(&self) -> (r: Result<Vec<Move>, Error>)
        requires
            self.wf(),
        ensures
            match self.spec_state() {
                JobState::Running => r == Err::<Vec<Move>, Error>(Error::JobNotReady),
                JobState::Discarded => r == Err::<Vec<Move>, Error>(Error::JobDiscarded),
                JobState::Ready => {
                    &&& r matches Ok(ids)
                    &&& ids@.len() == self.spec_recs().len()
                    &&& forall|i: int| 0 <= i < ids@.len() ==> (#[trigger] ids@[i]).id == i
                },
            },
    {
        match self.state {
            JobState::Running => Err(Error::JobNotReady),
            JobState::Discarded => Err(Error::JobDiscarded),
            JobState::Ready => {
                let mut ids: Vec<Move> = Vec::new();
                let mut i: usize = 0;
                while i < self.moves.len()
                    invariant
                        i <= self.moves@.len(),
                        ids@.len() == i,
                        forall|j: int| 0 <= j < i ==> (#[trigger] ids@[j]).id == j,
                    decreases self.moves@.len() - i,
                {
                    ids.push(Move { id: i });
                    i = i + 1;
                }
                Ok(ids)
            },
        }
    }

    /// Compares two moves of this job: `Less` means the first ranks
    /// strictly better (lower rating, ties broken by discovery order).
    /// Fails with `UnknownMove` on an identifier this job did not issue,
    /// `JobNotReady` before `wait` completes, `JobDiscarded` after discard.
    pub fn cmp(&self, a: Move, b: Move) -> (r: Result<Ordering, Error>)
        requires
            self.wf(),
        ensures
            match self.spec_state() {
                JobState::Running => r == Err::<Ordering, Error>(Error::JobNotReady),
                JobState::Discarded => r == Err::<Ordering, Error>(Error::JobDiscarded),
                JobState::Ready => if a.id < self.spec_recs().len() && b.id
                    < self.spec_recs().len() {
                    r == Ok::<Ordering, Error>(spec_cmp_res(self.spec_recs(), a.id as int, b.id as int))
                } else {
                    r == Err::<Ordering, Error>(Error::UnknownMove)
                },
            },
    {
        match self.state {
            JobState::Running => Err(Error::JobNotReady),
            JobState::Discarded => Err(Error::JobDiscarded),
            JobState::Ready => {
                if a.id >= self.moves.len() || b.id >= self.moves.len() {
                    return Err(Error::UnknownMove);
                }
                if a.id == b.id {
                    Ok(Ordering::Equal)
                } else {
                    let ra = self.moves[a.id].rating;
                    let rb = self.moves[b.id].rating;
                    if ra < rb || (ra == rb && a.id < b.id) {
                        Ok(Ordering::Less)
                    } else {
                        Ok(Ordering::Greater)
                    }
                }
            },
        }
    }

    /// The externally visible form of one move: its rating and the input
    /// sequence that realizes it, truncated to at most `max_inputs` leading
    /// actions (`usize::MAX` in practice means no truncation). Fails with
    /// `UnknownMove`, `JobNotReady` or `JobDiscarded` as `cmp` does.
    pub fn suggestion(&self, mv: Move, max_inputs: usize) -> (r: Result<Suggestion, Error>)
        requires
            self.wf(),
        ensures
            match self.spec_state() {
                JobState::Running => r == Err::<Suggestion, Error>(Error::JobNotReady),
                JobState::Discarded => r == Err::<Suggestion, Error>(Error::JobDiscarded),
                JobState::Ready => if mv.id < self.spec_recs().len() {
                    &&& r matches Ok(s)
                    &&& s.rating == self.spec_recs()[mv.id as int].rating
                    &&& s.inputs@ == spec_truncated_inputs(
                        self.spec_recs()[mv.id as int],
                        max_inputs as int,
                    )
                } else {
                    r == Err::<Suggestion, Error>(Error::UnknownMove)
                },
            },
    {
        match self.state {
            JobState::Running => Err(Error::JobNotReady),
            JobState::Discarded => Err(Error::JobDiscarded),
            JobState::Ready => {
                if mv.id >= self.moves.len() {
                    return Err(Error::UnknownMove);
                }
                let rec = self.moves[mv.id];
                assert(spec_rec_valid(rec));
                let mut full: Vec<Input> = Vec::new();
                if rec.use_hold {
                    full.push(Input::Hold);
                }
                if rec.orient == 1 {
                    full.push(Input::Cw);
                } else if rec.orient == 2 {
                    full.push(Input::Flip);
                } else if rec.orient == 3 {
                    full.push(Input::Ccw);
                }
                let ghost base: Seq<Input> = full@;
                let (dir, count) = if rec.col < rec.spawn {
                    (Input::Left, rec.spawn - rec.col)
                } else {
                    (Input::Right, rec.col - rec.spawn)
                };
                let mut s: u8 = 0;
                while s < count
                    invariant
                        s <= count,
                        full@ == base + spec_repeat(dir, s as int),
                    decreases count - s,
                {
                    full.push(dir);
                    s = s + 1;
                }
                full.push(Input::Hd);
                proof {
                    assert(full@ =~= spec_inputs(rec));
                }
                if full.len() <= max_inputs {
                    Ok(Suggestion { rating: rec.rating, inputs: full })
                } else {
                    let mut trunc: Vec<Input> = Vec::new();
                    let mut j: usize = 0;
                    while j < max_inputs
                        invariant
                            j <= max_inputs,
                            max_inputs < full@.len(),
                            full@ == spec_inputs(rec),
                            trunc@ == spec_inputs(rec).take(j as int),
                        decreases max_inputs - j,
                    {
                        trunc.push(full[j]);
                        proof {
                            assert(trunc@ =~= spec_inputs(rec).take(j + 1));
                        }
                        j = j + 1;
                    }
                    Ok(Suggestion { rating: rec.rating, inputs: trunc })
                }
            },
        }
    }

    /// Search effort metrics; `None` exactly when the job found no legal
    /// placement. Guarded like every other query.
    pub fn stats(&self) -> (r: Result<Option<Stats>, Error>)
        requires
            self.wf(),
        ensures
            match self.spec_state() {
                JobState::Running => r == Err::<Option<Stats>, Error>(Error::JobNotReady),
                JobState::Discarded => r == Err::<Option<Stats>, Error>(Error::JobDiscarded),
                JobState::Ready => {
                    &&& r matches Ok(os)
                    &&& (os is Some <==> self.spec_recs().len() > 0)
                    &&& (os matches Some(s) ==> s.iterations == self.spec_iterations() && s.nodes
                        == self.spec_recs().len() && s.time_taken_ms == self.spec_time_ms())
                },
            },
    {
        match self.state {
            JobState::Running => Err(Error::JobNotReady),
            JobState::Discarded => Err(Error::JobDiscarded),
            JobState::Ready => {
                if self.moves.len() == 0 {
                    Ok(Option::None)
                } else {
                    Ok(
                        Option::Some(
                            Stats {
                                iterations: self.iterations as u64,
                                nodes: self.moves.len() as u64,
                                time_taken_ms: self.time_taken_ms,
                            },
                        ),
                    )
                }
            },
        }
    }

    /// The ranking protocol in one call: collects `all_moves`, sorts them
    /// with `cmp` (best first, ties impossible since discovery order breaks
    /// them), and maps each to its suggestion truncated to `max_inputs`.
    /// Guarded like every other query.
    pub fn ranked_suggestions(&self, max_inputs: usize) -> (r: Result<Vec<Suggestion>, Error>)
        requires
            self.wf(),
        ensures
            match self.spec_state() {
                JobState::Running => r == Err::<Vec<Suggestion>, Error>(Error::JobNotReady),
                JobState::Discarded => r == Err::<Vec<Suggestion>, Error>(Error::JobDiscarded),
                JobState::Ready => {
                    &&& r matches Ok(sugs)
                    &&& sugs@.len() == self.spec_recs().len()
                    &&& spec_ranked_output(self.spec_recs(), sugs@, max_inputs as int)
                    &&& forall|i: int, j: int|
                        0 <= i < j < sugs@.len() ==> (#[trigger] sugs@[i]).rating <= (
                        #[trigger] sugs@[j]).rating
                },
            },
    {
        match self.state {
            JobState::Running => Err(Error::JobNotReady),
            JobState::Discarded => Err(Error::JobDiscarded),
            JobState::Ready => {
                let ids = ranked_ids(&self.moves);
                let mut sugs: Vec<Suggestion> = Vec::new();
                let mut j: usize = 0;
                while j < ids.len()
                    invariant
                        self.wf(),
                        self.spec_state() == JobState::Ready,
                        spec_ranked(self.spec_recs(), ids@),
                        j <= ids@.len(),
                        sugs@.len() == j,
                        forall|i: int|
                            0 <= i < j ==> (#[trigger] sugs@[i]).rating == self.spec_recs()[ids@[i] as int].rating
                                && sugs@[i].inputs@ == spec_truncated_inputs(
                                self.spec_recs()[ids@[i] as int],
                                max_inputs as int,
                            ),
                    decreases ids@.len() - j,
                {
                    let id = ids[j];
                    match self.suggestion(Move { id }, max_inputs) {
                        Result::Ok(s) => sugs.push(s),
                        Result::Err(_) => {
                            proof {
                                assert(false);
                            }
                        },
                    }
                    j = j + 1;
                }
                proof {
                    assert(spec_suggestions_of(self.spec_recs(), ids@, sugs@, max_inputs as int));
                }
                Ok(sugs)
            },
        }
    }

    /// Discards the job: releases its result set and refuses every further
    /// operation with `JobDiscarded`. Gives no partial-result guarantee.
    pub fn discard(&mut self)
        requires
            old(self).wf(),
        ensures
            final(self).wf(),
            final(self).spec_state() == JobState::Discarded,
    {
        self.state = JobState::Discarded;
        self.moves = Vec::new();
    }
}

/// `ids` lists every move of the result set exactly once, best first: each
/// earlier move ranks strictly better than each later one.
pub open spec fn spec_ranked(recs: Seq<MoveRec>, ids: Seq<usize>) -> bool {
    &&& ids.len() == recs.len()
    &&& forall|i: int, j: int|
        0 <= i < j < ids.len() ==> spec_key_lt(recs, (#[trigger] ids[i]) as int, (
        #[trigger] ids[j]) as int)
    &&& forall|i: int| 0 <= i < ids.len() ==> (#[trigger] ids[i]) < recs.len()
    &&& forall|v: int| 0 <= v < recs.len() ==> #[trigger] spec_appears(ids, v)
}

/// The identifier `v` occurs somewhere in `ids`.
pub open spec fn spec_appears(ids: Seq<usize>, v: int) -> bool {
    exists|i: int| 0 <= i < ids.len() && (#[trigger] ids[i]) as int == v
}

/// `sugs` are the suggestions of the moves `ids`, in that order, truncated
/// to `max` actions.
pub open spec fn spec_suggestions_of(
    recs: Seq<MoveRec>,
    ids: Seq<usize>,
    sugs: Seq<Suggestion>,
    max: int,
) -> bool {
    &&& sugs.len() == ids.len()
    &&& forall|j: int|
        0 <= j < ids.len() ==> (#[trigger] sugs[j]).rating == recs[ids[j] as int].rating
            && sugs[j].inputs@ == spec_truncated_inputs(recs[ids[j] as int], max)
}

/// `sugs` is the full ranked output: the suggestions of all moves sorted
/// best first.
pub open spec fn spec_ranked_output(recs: Seq<MoveRec>, sugs: Seq<Suggestion>, max: int) -> bool {
    exists|ids: Seq<usize>|
        #[trigger] spec_ranked(recs, ids) && spec_suggestions_of(recs, ids, sugs, max)
}

/// Whether move `a` ranks strictly better than move `b`.
fn key_lt(recs: &Vec<MoveRec>, a: usize, b: usize) -> (r: bool)
    requires
        a < recs@.len(),
        b < recs@.len(),
    ensures
        r == spec_key_lt(recs@, a as int, b as int),
{
    let ra = recs[a].rating;
    let rb = recs[b].rating;
    ra < rb || (ra == rb && a < b)
}

/// Sorts the move identifiers of a result set best first by insertion.
fn ranked_ids(recs: &Vec<MoveRec>) -> (ids: Vec<usize>)
    ensures
        spec_ranked(recs@, ids@),
{
    let n = recs.len();
    let mut ids: Vec<usize> = Vec::new();
    let mut v: usize = 0;
    while v < n
        invariant
            v <= n,
            n == recs@.len(),
            ids@.len() == v,
            forall|i: int, j: int|
                0 <= i < j < ids@.len() ==> spec_key_lt(recs@, (#[trigger] ids@[i]) as int, (
                #[trigger] ids@[j]) as int),
            forall|i: int| 0 <= i < ids@.len() ==> (#[trigger] ids@[i]) < v,
            forall|w: int| 0 <= w < v ==> #[trigger] spec_appears(ids@, w),
        decreases n - v,
    {
        let mut p: usize = 0;
        while p < ids.len() && !key_lt(recs, v, ids[p])
            invariant
                p <= ids@.len(),
                v < n,
                n == recs@.len(),
                forall|i: int| 0 <= i < ids@.len() ==> (#[trigger] ids@[i]) < v,
                forall|j: int| 0 <= j < p ==> !spec_key_lt(recs@, v as int, (#[trigger] ids@[j]) as int),
            decreases ids@.len() - p,
        {
            p = p + 1;
        }
        let ghost prev = ids@;
        ids.insert(p, v);
        proof {
            assert(ids@ == prev.insert(p as int, v));
            assert forall|i: int, j: int| 0 <= i < j < ids@.len() implies spec_key_lt(
                recs@,
                (#[trigger] ids@[i]) as int,
                (#[trigger] ids@[j]) as int,
            ) by {
                if j < p {
                    assert(ids@[i] == prev[i] && ids@[j] == prev[j]);
                } else if i > p {
                    assert(ids@[i] == prev[i - 1] && ids@[j] == prev[j - 1]);
                } else if i == p && j > p {
                    // v against a later element: the scan stopped because v
                    // ranks better than prev[p], which ranks better still.
                    assert(ids@[j] == prev[j - 1]);
                    assert(spec_key_lt(recs@, v as int, prev[p as int] as int));
                    if j - 1 > p {
                        assert(spec_key_lt(recs@, prev[p as int] as int, prev[j - 1] as int));
                    }
                } else if i < p && j == p {
                    // an earlier element against v: the scan passed it, and
                    // identifiers in the list are all below v.
                    assert(ids@[i] == prev[i]);
                    assert(!spec_key_lt(recs@, v as int, prev[i] as int));
                    assert(prev[i] < v);
                } else if i < p && j > p {
                    assert(ids@[i] == prev[i] && ids@[j] == prev[j - 1]);
                    assert(!spec_key_lt(recs@, v as int, prev[i] as int));
                    assert(prev[i] < v);
                    assert(spec_key_lt(recs@, prev[i] as int, v as int));
                    assert(spec_key_lt(recs@, v as int, prev[j - 1] as int));
                }
            }
            assert forall|w: int| 0 <= w < v + 1 implies #[trigger] spec_appears(ids@, w) by {
                if w == v {
                    assert(ids@[p as int] as int == w);
                } else {
                    assert(spec_appears(prev, w));
                    let i0 = choose|i: int| 0 <= i < prev.len() && (#[trigger] prev[i]) as int == w;
                    if i0 < p {
                        assert(ids@[i0] as int == w);
                    } else {
                        assert(ids@[i0 + 1] as int == w);
                    }
                }
            }
        }
        v = v + 1;
    }
    ids
}

/// The first `k` positions of two best-first orders of one result set
/// agree.
proof fn lemma_ranked_unique_upto(recs: Seq<MoveRec>, ids1: Seq<usize>, ids2: Seq<usize>, k: int)
    requires
        spec_ranked(recs, ids1),
        spec_ranked(recs, ids2),
        0 <= k <= recs.len(),
    ensures
        forall|j: int| 0 <= j < k ==> ids1[j] == ids2[j],
    decreases k,
{
    if k > 0 {
        lemma_ranked_unique_upto(recs, ids1, ids2, k - 1);
        let v1 = ids1[k - 1];
        let v2 = ids2[k - 1];
        assert(spec_appears(ids2, v1 as int));
        let p = choose|i: int| 0 <= i < ids2.len() && (#[trigger] ids2[i]) as int == v1 as int;
        assert(spec_appears(ids1, v2 as int));
        let q = choose|i: int| 0 <= i < ids1.len() && (#[trigger] ids1[i]) as int == v2 as int;
        if p < k - 1 {
            // v1 would already stand at an earlier position of both orders,
            // contradicting strictness.
            assert(ids1[p] == ids2[p]);
            assert(spec_key_lt(recs, ids1[p] as int, ids1[k - 1] as int));
            assert(false);
        } else if q < k - 1 {
            assert(ids1[q] == ids2[q]);
            assert(spec_key_lt(recs, ids2[q] as int, ids2[k - 1] as int));
            assert(false);
        } else if p > k - 1 && q > k - 1 {
            // Each would rank strictly better than the other.
            assert(spec_key_lt(recs, v2 as int, ids2[p] as int));
            assert(spec_key_lt(recs, v1 as int, ids1[q] as int));
            assert(false);
        }
    }
}

/// The best-first order of one result set is unique: any two sequences that
/// each list every move exactly once, sorted strictly best first, are
/// equal. The ranking protocol therefore has exactly one output.
pub proof fn lemma_ranked_unique(recs: Seq<MoveRec>, ids1: Seq<usize>, ids2: Seq<usize>)
    requires
        spec_ranked(recs, ids1),
        spec_ranked(recs, ids2),
    ensures
        ids1 == ids2,
{
    lemma_ranked_unique_upto(recs, ids1, ids2, recs.len() as int);
    assert(ids1 =~= ids2);
}

/// Determinism: two ready jobs over one snapshot, configuration and shape
/// table hold identical move sets, identical iteration counts, and rank
/// every pair of moves identically.
pub proof fn lemma_determinism(a: AnalysisJob, b: AnalysisJob)
    requires
        a.wf(),
        b.wf(),
        a.spec_state() == JobState::Ready,
        b.spec_state() == JobState::Ready,
        a.spec_config() == b.spec_config(),
        a.spec_table() == b.spec_table(),
        a.spec_snapshot() == b.spec_snapshot(),
    ensures
        a.spec_recs() == b.spec_recs(),
        a.spec_iterations() == b.spec_iterations(),
        forall|x: int, y: int|
            0 <= x < a.spec_recs().len() && 0 <= y < a.spec_recs().len() ==> spec_cmp_res(
                a.spec_recs(),
                x,
                y,
            ) == spec_cmp_res(b.spec_recs(), x, y),
{
    a.lemma_ready_recs();
    b.lemma_ready_recs();
}

/// Ranking total order: over the moves of one ready job, `cmp` is a strict
/// total order — reflexively equal, antisymmetric, transitive, and total.
pub proof fn lemma_cmp_total_order(recs: Seq<MoveRec>, a: int, b: int, c: int)
    requires
        0 <= a < recs.len(),
        0 <= b < recs.len(),
        0 <= c < recs.len(),
    ensures
        spec_cmp_res(recs, a, b) == Ordering::Equal <==> a == b,
        spec_cmp_res(recs, a, b) == Ordering::Less <==> spec_cmp_res(recs, b, a)
            == Ordering::Greater,
        a != b ==> (spec_cmp_res(recs, a, b) == Ordering::Less || spec_cmp_res(recs, a, b)
            == Ordering::Greater),
        spec_cmp_res(recs, a, b) == Ordering::Less && spec_cmp_res(recs, b, c) == Ordering::Less
            ==> spec_cmp_res(recs, a, c) == Ordering::Less,
{
}

/// The number of copies `spec_repeat` yields.
pub proof fn lemma_repeat_len(i: Input, n: int)
    requires
        n >= 0,
    ensures
        spec_repeat(i, n).len() == n,
    decreases n,
{
    if n > 0 {
        lemma_repeat_len(i, n - 1);
    }
}

/// Truncation law: truncating to `k` keeps exactly the first `k` actions
/// of the untruncated sequence when that sequence is at least `k` long, and
/// the whole sequence otherwise; the `usize::MAX` sentinel never truncates.
pub proof fn lemma_truncation(rec: MoveRec, k: int)
    requires
        0 <= k,
    ensures
        spec_inputs(rec).len() >= k ==> spec_truncated_inputs(rec, k) == spec_inputs(rec).take(k),
        spec_inputs(rec).len() < k ==> spec_truncated_inputs(rec, k) == spec_inputs(rec),
        spec_truncated_inputs(rec, usize::MAX as int) == spec_inputs(rec),
{
    if spec_inputs(rec).len() == k {
        assert(spec_inputs(rec).take(k) =~= spec_inputs(rec));
    }
    if rec.col < rec.spawn {
        lemma_repeat_len(Input::Left, rec.spawn - rec.col);
    } else {
        lemma_repeat_len(Input::Right, rec.col - rec.spawn);
    }
}

/// Every placement's untruncated input sequence is finite, nonempty, and
/// ends in the hard-drop action.
pub proof fn lemma_inputs_end_hard_drop(rec: MoveRec)
    ensures
        spec_inputs(rec).len() >= 1,
        spec_inputs(rec).last() == Input::Hd,
{
}

} // verus!
