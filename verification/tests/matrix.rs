use led_matrix::glyph::Glyph;
use led_matrix::matrix::{Line, MutMatrix, OutOfRange, PinWrite, Polarity, SCAN_PERIOD_MS};

struct Pins {
    rows: [bool; 5],
    cols: [bool; 5],
}

impl Pins {
    fn write(&mut self, w: &PinWrite) {
        match w.line {
            Line::Row(r) => self.rows[r as usize] = w.high,
            Line::Col(c) => self.cols[c as usize] = w.high,
        }
    }

    fn rows_high(&self) -> usize {
        self.rows.iter().filter(|&&r| r).count()
    }
}

fn filled() -> MutMatrix {
    let mut m = MutMatrix::new();
    for r in 0..5 {
        for c in 0..5 {
            m.set(r, c, true).unwrap();
        }
    }
    m
}

#[test]
fn new_matrix_is_dark() {
    let m = MutMatrix::new();
    for r in 0..5 {
        for c in 0..5 {
            assert_eq!(m.get(r, c), Ok(false));
        }
    }
}

#[test]
fn set_records_one_pixel_only() {
    let mut m = MutMatrix::new();
    assert_eq!(m.set(2, 3, true), Ok(()));
    for r in 0..5 {
        for c in 0..5 {
            assert_eq!(m.get(r, c), Ok(r == 2 && c == 3));
        }
    }
    assert_eq!(m.set(2, 3, false), Ok(()));
    assert_eq!(m.get(2, 3), Ok(false));
}

#[test]
fn indices_outside_the_matrix_are_refused() {
    let mut m = filled();
    assert_eq!(m.set(5, 0, false), Err(OutOfRange));
    assert_eq!(m.set(0, 5, false), Err(OutOfRange));
    assert_eq!(m.set(255, 255, false), Err(OutOfRange));
    assert_eq!(m.clear_col(5), Err(OutOfRange));
    assert_eq!(m.get(5, 0), Err(OutOfRange));
    assert_eq!(m.get(0, 5), Err(OutOfRange));
    for r in 0..5 {
        for c in 0..5 {
            assert_eq!(m.get(r, c), Ok(true));
        }
    }
}

#[test]
fn clear_darkens_everything() {
    let mut m = filled();
    m.clear();
    for r in 0..5 {
        for c in 0..5 {
            assert_eq!(m.get(r, c), Ok(false));
        }
    }
}

#[test]
fn clear_col_leaves_the_other_columns() {
    for col in 0..5u8 {
        let mut m = filled();
        assert_eq!(m.clear_col(col), Ok(()));
        for r in 0..5 {
            for c in 0..5 {
                assert_eq!(m.get(r, c), Ok(c != col));
            }
        }
    }
}

#[test]
fn show_glyph_copies_the_bitmap() {
    let mut m = filled();
    let g = Glyph::character(b'7');
    m.show_glyph(&g);
    for r in 0..5u8 {
        for c in 0..5u8 {
            assert_eq!(m.get(r, c), Ok(g.rows[r as usize][c as usize]));
        }
    }
}

#[test]
fn the_writes_of_a_row_and_a_column() {
    assert_eq!(
        MutMatrix::set_row(3),
        PinWrite { line: Line::Row(3), high: true }
    );
    assert_eq!(
        MutMatrix::clear_row(3),
        PinWrite { line: Line::Row(3), high: false }
    );
    assert_eq!(
        MutMatrix::write_col(4, true),
        PinWrite { line: Line::Col(4), high: true }
    );
    assert_eq!(
        MutMatrix::write_col(0, false),
        PinWrite { line: Line::Col(0), high: false }
    );
}

#[test]
fn a_tick_releases_settles_and_asserts_in_that_order() {
    let mut m = MutMatrix::new();
    m.set(1, 0, true).unwrap();
    m.set(1, 3, true).unwrap();
    m.set(0, 1, true).unwrap();
    let writes = m.draw();
    assert_eq!(
        writes,
        vec![
            PinWrite { line: Line::Row(0), high: false },
            PinWrite { line: Line::Col(0), high: false },
            PinWrite { line: Line::Col(1), high: true },
            PinWrite { line: Line::Col(2), high: true },
            PinWrite { line: Line::Col(3), high: false },
            PinWrite { line: Line::Col(4), high: true },
            PinWrite { line: Line::Row(1), high: true },
        ]
    );
}

#[test]
fn the_row_cursor_wraps_after_five_ticks() {
    let mut m = MutMatrix::new();
    let mut asserted = Vec::new();
    for _ in 0..11 {
        let writes = m.draw();
        assert_eq!(writes.len(), 7);
        match writes[6].line {
            Line::Row(r) => asserted.push(r),
            Line::Col(_) => panic!("the last write of a tick asserts a row"),
        }
    }
    assert_eq!(asserted, vec![1, 2, 3, 4, 0, 1, 2, 3, 4, 0, 1]);
}

#[test]
fn scanning_never_asserts_two_rows_and_shows_the_buffer() {
    let mut m = MutMatrix::new();
    let g = Glyph::character(b'4');
    m.show_glyph(&g);
    let mut pins = Pins { rows: [false; 5], cols: [true; 5] };
    for tick in 0..23usize {
        if tick == 9 {
            m.show_glyph(&Glyph::character(b'2'));
        }
        let writes = m.draw();
        for (k, w) in writes.iter().enumerate() {
            pins.write(w);
            assert!(pins.rows_high() <= 1);
            if k < 6 {
                assert_eq!(pins.rows_high(), 0);
            }
        }
        let row = (tick + 1) % 5;
        assert!(pins.rows[row]);
        assert_eq!(pins.rows_high(), 1);
        for c in 0..5u8 {
            assert_eq!(pins.cols[c as usize], !m.get(row as u8, c).unwrap());
        }
    }
}

#[test]
fn the_scan_period_is_twenty_milliseconds() {
    assert_eq!(SCAN_PERIOD_MS, 20);
}

#[test]
fn active_high_columns_are_driven_high_where_lit() {
    let mut m = MutMatrix::with_columns(Polarity::ActiveHigh);
    assert!(!m.level_for(false));
    assert!(m.level_for(true));
    m.set(1, 0, true).unwrap();
    m.set(1, 3, true).unwrap();
    let writes = m.draw();
    assert_eq!(
        writes,
        vec![
            PinWrite { line: Line::Row(0), high: false },
            PinWrite { line: Line::Col(0), high: true },
            PinWrite { line: Line::Col(1), high: false },
            PinWrite { line: Line::Col(2), high: false },
            PinWrite { line: Line::Col(3), high: true },
            PinWrite { line: Line::Col(4), high: false },
            PinWrite { line: Line::Row(1), high: true },
        ]
    );
}

#[test]
fn the_reference_wiring_drives_lit_columns_low() {
    let m = MutMatrix::new();
    assert!(m.level_for(false));
    assert!(!m.level_for(true));
}
