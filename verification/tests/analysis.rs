use blockfish::color::Color;
use blockfish::config::Config;
use blockfish::error::Error;
use blockfish::job::{AnalysisJob, Move, Session};
use blockfish::ruleset::{OrientDef, PieceDef, Ruleset};
use blockfish::shape::ShapeTable;
use blockfish::snapshot::Snapshot;
use std::cmp::Ordering;

fn i_only_table() -> ShapeTable {
    let rs = Ruleset {
        pieces: vec![PieceDef {
            color: Color::I,
            orientations: vec![
                OrientDef { cells: vec![(0, 0), (0, 1), (0, 2), (0, 3)] },
                OrientDef { cells: vec![(0, 0), (1, 0), (2, 0), (3, 0)] },
            ],
        }],
    };
    ShapeTable::build(&rs).unwrap()
}

fn empty_board_snapshot(queue: &str) -> Snapshot {
    let next: Vec<char> = queue.chars().collect();
    let field = vec![false; 200]; // a 10-wide, 20-row board, all empty
    Snapshot::from_parts(None, &next, &field)
}

fn ready_job(session: &Session, snap: Snapshot) -> AnalysisJob {
    let mut job = session.analyze(snap);
    job.wait().unwrap();
    job
}

#[test]
fn end_to_end_i_piece_scenario() {
    let session = Session::create(Config::default(), i_only_table());
    let job = ready_job(&session, empty_board_snapshot("I"));
    let moves = job.all_moves().unwrap();
    assert!(moves.len() >= 1);
    // Horizontal in 7 columns, vertical in 10.
    assert_eq!(moves.len(), 17);
    let ranked = job.ranked_suggestions(usize::MAX).unwrap();
    assert_eq!(ranked.len(), 17);
    let best = &ranked[0];
    // Flat placement, entering at column 3, dropped at column 0.
    assert_eq!(best.rating, 3);
    let codes: Vec<u8> = best.inputs.iter().map(|i| i.code()).collect();
    assert_eq!(codes, vec![1, 1, 1, 6]);
    // Every suggestion's input sequence ends in a hard drop (numeric id 6).
    for s in &ranked {
        assert!(!s.inputs.is_empty());
        assert_eq!(s.inputs.last().unwrap().code(), 6);
    }
    // Ranked output is best first: ratings never decrease.
    for w in ranked.windows(2) {
        assert!(w[0].rating <= w[1].rating);
    }
}

#[test]
fn determinism_two_runs_agree() {
    let session = Session::create(Config::default(), i_only_table());
    let a = ready_job(&session, empty_board_snapshot("I"));
    let b = ready_job(&session, empty_board_snapshot("I"));
    let ma = a.all_moves().unwrap();
    let mb = b.all_moves().unwrap();
    assert_eq!(ma.len(), mb.len());
    for x in 0..ma.len() {
        let sa = a.suggestion(ma[x], usize::MAX).unwrap();
        let sb = b.suggestion(mb[x], usize::MAX).unwrap();
        assert_eq!(sa.rating, sb.rating);
        assert_eq!(sa.inputs, sb.inputs);
        for y in 0..ma.len() {
            assert_eq!(a.cmp(ma[x], ma[y]).unwrap(), b.cmp(mb[x], mb[y]).unwrap());
        }
    }
}

#[test]
fn truncation_law_on_suggestions() {
    let session = Session::create(Config::default(), i_only_table());
    let job = ready_job(&session, empty_board_snapshot("I"));
    let moves = job.all_moves().unwrap();
    for &mv in &moves {
        let full = job.suggestion(mv, usize::MAX).unwrap().inputs;
        for k in 0..full.len() + 2 {
            let truncated = job.suggestion(mv, k).unwrap().inputs;
            if full.len() >= k {
                assert_eq!(truncated.as_slice(), &full[..k]);
            } else {
                assert_eq!(truncated, full);
            }
        }
    }
}

#[test]
fn cmp_is_a_strict_total_order() {
    let session = Session::create(Config::default(), i_only_table());
    let job = ready_job(&session, empty_board_snapshot("I"));
    let moves = job.all_moves().unwrap();
    for &a in &moves {
        for &b in &moves {
            let ab = job.cmp(a, b).unwrap();
            let ba = job.cmp(b, a).unwrap();
            // Antisymmetry and totality.
            assert_eq!(ab == Ordering::Equal, a == b);
            assert_eq!(ab == Ordering::Less, ba == Ordering::Greater);
            for &c in &moves {
                let bc = job.cmp(b, c).unwrap();
                let ac = job.cmp(a, c).unwrap();
                if ab == Ordering::Less && bc == Ordering::Less {
                    assert_eq!(ac, Ordering::Less);
                }
            }
        }
    }
}

#[test]
fn queries_guarded_by_state_machine() {
    let session = Session::create(Config::default(), i_only_table());
    let mut job = session.analyze(empty_board_snapshot("I"));
    // Still running: every result query fails with JobNotReady.
    assert_eq!(job.all_moves().err(), Some(Error::JobNotReady));
    assert_eq!(job.cmp(Move { id: 0 }, Move { id: 0 }).err(), Some(Error::JobNotReady));
    assert_eq!(job.suggestion(Move { id: 0 }, usize::MAX).err(), Some(Error::JobNotReady));
    assert_eq!(job.stats().err(), Some(Error::JobNotReady));
    assert_eq!(job.ranked_suggestions(usize::MAX).err(), Some(Error::JobNotReady));
    job.wait().unwrap();
    assert!(job.all_moves().is_ok());
    // Discarded: everything fails with JobDiscarded, wait included.
    job.discard();
    assert_eq!(job.all_moves().err(), Some(Error::JobDiscarded));
    assert_eq!(job.cmp(Move { id: 0 }, Move { id: 0 }).err(), Some(Error::JobDiscarded));
    assert_eq!(job.suggestion(Move { id: 0 }, usize::MAX).err(), Some(Error::JobDiscarded));
    assert_eq!(job.stats().err(), Some(Error::JobDiscarded));
    assert_eq!(job.ranked_suggestions(usize::MAX).err(), Some(Error::JobDiscarded));
    assert_eq!(job.wait().err(), Some(Error::JobDiscarded));
}

#[test]
fn unknown_move_is_rejected() {
    let session = Session::create(Config::default(), i_only_table());
    let job = ready_job(&session, empty_board_snapshot("I"));
    let n = job.all_moves().unwrap().len();
    assert_eq!(job.suggestion(Move { id: n }, usize::MAX).err(), Some(Error::UnknownMove));
    assert_eq!(job.cmp(Move { id: 0 }, Move { id: n }).err(), Some(Error::UnknownMove));
}

#[test]
fn wait_is_idempotent() {
    let session = Session::create(Config::default(), i_only_table());
    let mut job = session.analyze(empty_board_snapshot("I"));
    job.wait().unwrap();
    let first = job.all_moves().unwrap();
    job.wait().unwrap();
    assert_eq!(job.all_moves().unwrap(), first);
}

#[test]
fn stats_reflect_search_effort() {
    let session = Session::create(Config::default(), i_only_table());
    let job = ready_job(&session, empty_board_snapshot("I"));
    let stats = job.stats().unwrap().unwrap();
    // One shape, two orientations, ten columns each: twenty candidates.
    assert_eq!(stats.iterations, 20);
    assert_eq!(stats.nodes, 17);
}

#[test]
fn stats_absent_without_work() {
    let session = Session::create(Config::default(), i_only_table());
    // Empty queue, nothing held: no legal placements at all.
    let job = ready_job(&session, empty_board_snapshot(""));
    assert!(job.all_moves().unwrap().is_empty());
    assert_eq!(job.stats().unwrap(), None);
}

#[test]
fn search_limit_bounds_iterations() {
    let mut config = Config::default();
    config.search_limit = 5;
    let session = Session::create(config, i_only_table());
    let job = ready_job(&session, empty_board_snapshot("I"));
    let stats = job.stats().unwrap().unwrap();
    assert_eq!(stats.iterations, 5);
    assert!(job.all_moves().unwrap().len() <= 5);
}

#[test]
fn held_piece_is_analyzed_when_queue_is_empty() {
    let session = Session::create(Config::default(), i_only_table());
    // Held I over an empty queue: placements come through the active slot.
    let next: Vec<char> = Vec::new();
    let field = vec![false; 200];
    let snap = Snapshot::from_parts(Some('I'), &next, &field);
    let job = ready_job(&session, snap);
    assert_eq!(job.all_moves().unwrap().len(), 17);
}

#[test]
fn hold_action_reaches_the_held_piece() {
    let session = Session::create(Config::default(), i_only_table());
    // The next piece, J, is unknown to this table; the held I is reachable
    // only through the hold action, so every move starts with it (id 8).
    let next: Vec<char> = vec!['J'];
    let field = vec![false; 200];
    let snap = Snapshot::from_parts(Some('I'), &next, &field);
    let job = ready_job(&session, snap);
    let moves = job.all_moves().unwrap();
    assert_eq!(moves.len(), 17);
    for &mv in &moves {
        let s = job.suggestion(mv, usize::MAX).unwrap();
        assert_eq!(s.inputs.first().unwrap().code(), 8);
        assert_eq!(s.inputs.last().unwrap().code(), 6);
    }
}

#[test]
fn unrecognized_snapshot_characters_are_dropped() {
    let session = Session::create(Config::default(), i_only_table());
    // 'x' is not a color; the queue keeps only the I.
    let next: Vec<char> = vec!['x', 'I'];
    let field = vec![false; 200];
    let snap = Snapshot::from_parts(Some('x'), &next, &field);
    let job = ready_job(&session, snap);
    assert_eq!(job.all_moves().unwrap().len(), 17);
}

#[test]
fn sessions_reconfigure_between_jobs() {
    let mut session = Session::create(Config::default(), i_only_table());
    assert_eq!(session.get_config(), Config::default());
    let mut config = Config::default();
    config.search_limit = 3;
    session.set_config(config);
    assert_eq!(session.get_config().search_limit, 3);
    // A copy returned by get_config does not alias the session.
    let mut copy = session.get_config();
    copy.search_limit = 99;
    assert_eq!(session.get_config().search_limit, 3);
    let job = ready_job(&session, empty_board_snapshot("I"));
    assert_eq!(job.stats().unwrap().unwrap().iterations, 3);
}

#[test]
fn concurrent_jobs_are_independent() {
    let session = Session::create(Config::default(), i_only_table());
    // Two jobs from one session over different snapshots, both in flight
    // before either completes.
    let mut tall_field = vec![false; 200];
    for i in 0..150 {
        tall_field[i] = true; // fifteen full rows
    }
    let next: Vec<char> = vec!['I'];
    let mut job_a = session.analyze(empty_board_snapshot("I"));
    let mut job_b = session.analyze(Snapshot::from_parts(None, &next, &tall_field));
    job_b.wait().unwrap();
    job_a.wait().unwrap();
    let ranked_a = job_a.ranked_suggestions(usize::MAX).unwrap();
    let ranked_b = job_b.ranked_suggestions(usize::MAX).unwrap();
    assert_eq!(ranked_a.len(), 17);
    assert_eq!(ranked_b.len(), 17);
    // Each job's results agree with an independent run over its own
    // snapshot, unaffected by the other job.
    let solo_a = ready_job(&session, empty_board_snapshot("I"));
    let solo_b = ready_job(&session, Snapshot::from_parts(None, &next, &tall_field));
    let solo_ranked_a = solo_a.ranked_suggestions(usize::MAX).unwrap();
    let solo_ranked_b = solo_b.ranked_suggestions(usize::MAX).unwrap();
    for (x, y) in ranked_a.iter().zip(solo_ranked_a.iter()) {
        assert_eq!(x.rating, y.rating);
        assert_eq!(x.inputs, y.inputs);
    }
    for (x, y) in ranked_b.iter().zip(solo_ranked_b.iter()) {
        assert_eq!(x.rating, y.rating);
        assert_eq!(x.inputs, y.inputs);
    }
    // The fuller board rates strictly worse than the empty one.
    assert!(ranked_b[0].rating > ranked_a[0].rating);
}
