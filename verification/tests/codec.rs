use blockfish::color::Color;
use blockfish::error::Error;
use blockfish::input::Input;
use blockfish::matrix::Matrix;

#[test]
fn color_round_trip_alphabet() {
    for ch in ['I', 'J', 'L', 'O', 'S', 'T', 'Z'] {
        let color = Color::from_char(ch).unwrap();
        assert_eq!(color.to_char(), ch);
    }
}

#[test]
fn color_rejects_unrecognized() {
    for ch in ['X', 'i', 'a', '1', ' ', '?'] {
        assert_eq!(Color::from_char(ch), Err(Error::InvalidColor));
    }
}

#[test]
fn input_codes_are_stable() {
    assert_eq!(Input::Left.code(), 1);
    assert_eq!(Input::Right.code(), 2);
    assert_eq!(Input::Cw.code(), 3);
    assert_eq!(Input::Ccw.code(), 4);
    assert_eq!(Input::Flip.code(), 5);
    assert_eq!(Input::Hd.code(), 6);
    assert_eq!(Input::Sd.code(), 7);
    assert_eq!(Input::Hold.code(), 8);
}

#[test]
fn matrix_starts_empty_and_sets_cells() {
    let mut m = Matrix::new();
    assert!(!m.get(0, 0));
    assert!(!m.get(39, 9));
    m.set(3, 7);
    assert!(m.get(3, 7));
    assert!(!m.get(3, 6));
    assert!(!m.get(7, 3));
}

#[test]
fn matrix_from_flags_maps_row_major() {
    let mut flags = vec![false; 25];
    flags[0] = true; // row 0, column 0
    flags[13] = true; // row 1, column 3
    let m = Matrix::from_flags(&flags);
    assert!(m.get(0, 0));
    assert!(m.get(1, 3));
    assert!(!m.get(0, 1));
    assert!(!m.get(2, 5));
}

#[test]
fn matrix_truncates_past_capacity() {
    // 450 entries, everything from index 399 on set: entries at 400 and
    // beyond are ignored, without an error.
    let mut long = vec![false; 450];
    for i in 399..450 {
        long[i] = true;
    }
    let m = Matrix::from_flags(&long);
    assert!(m.get(39, 9)); // flat index 399 survives
    let short = {
        let mut f = vec![false; 400];
        f[399] = true;
        Matrix::from_flags(&f)
    };
    for row in 0..40 {
        for col in 0..10 {
            assert_eq!(m.get(row, col), short.get(row, col));
        }
    }
}
