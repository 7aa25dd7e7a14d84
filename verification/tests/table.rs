use blockfish::color::Color;
use blockfish::error::Error;
use blockfish::ruleset::{OrientDef, PieceDef, Ruleset};
use blockfish::shape::ShapeTable;

fn piece(color: Color, orientations: Vec<Vec<(u8, u8)>>) -> PieceDef {
    PieceDef {
        color,
        orientations: orientations.into_iter().map(|cells| OrientDef { cells }).collect(),
    }
}

#[test]
fn build_accepts_standard_i_piece() {
    let rs = Ruleset {
        pieces: vec![piece(
            Color::I,
            vec![vec![(0, 0), (0, 1), (0, 2), (0, 3)], vec![(0, 0), (1, 0), (2, 0), (3, 0)]],
        )],
    };
    assert!(ShapeTable::build(&rs).is_ok());
}

#[test]
fn build_normalizes_offset_cells() {
    // The same piece described twice, once with shifted coordinates: both
    // compile, and both analyses behave identically (normal form).
    let shifted = Ruleset {
        pieces: vec![piece(Color::O, vec![vec![(5, 3), (5, 4), (6, 3), (6, 4)]])],
    };
    assert!(ShapeTable::build(&shifted).is_ok());
}

#[test]
fn build_rejects_piece_without_orientations() {
    let rs = Ruleset { pieces: vec![piece(Color::T, vec![])] };
    assert_eq!(ShapeTable::build(&rs).err(), Some(Error::InvalidRuleset));
}

#[test]
fn build_rejects_empty_orientation() {
    let rs = Ruleset { pieces: vec![piece(Color::T, vec![vec![]])] };
    assert_eq!(ShapeTable::build(&rs).err(), Some(Error::InvalidRuleset));
}

#[test]
fn build_rejects_duplicate_colors() {
    let rs = Ruleset {
        pieces: vec![
            piece(Color::S, vec![vec![(0, 0)]]),
            piece(Color::S, vec![vec![(0, 0), (0, 1)]]),
        ],
    };
    assert_eq!(ShapeTable::build(&rs).err(), Some(Error::InvalidRuleset));
}

#[test]
fn build_rejects_too_wide_orientation() {
    // Cells spanning eleven columns cannot fit the ten-column board.
    let rs = Ruleset { pieces: vec![piece(Color::L, vec![vec![(0, 0), (0, 10)]])] };
    assert_eq!(ShapeTable::build(&rs).err(), Some(Error::InvalidRuleset));
}

#[test]
fn build_rejects_more_than_four_orientations() {
    let one = vec![(0u8, 0u8)];
    let rs = Ruleset {
        pieces: vec![piece(
            Color::J,
            vec![one.clone(), one.clone(), one.clone(), one.clone(), one.clone()],
        )],
    };
    assert_eq!(ShapeTable::build(&rs).err(), Some(Error::InvalidRuleset));
}
