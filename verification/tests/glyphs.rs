use led_matrix::digits::DigitDisplay;
use led_matrix::glyph::{Glyph, Mode};
use tiny_led_matrix::Render;

fn picture(g: &Glyph) -> Vec<String> {
    g.rows
        .iter()
        .map(|row| row.iter().map(|&p| if p { '#' } else { '.' }).collect())
        .collect()
}

#[test]
fn the_glyph_of_one() {
    let g = Glyph::character(b'1');
    assert_eq!(picture(&g), vec!["..#..", ".##..", "..#..", "..#..", ".###."]);
}

#[test]
fn the_glyph_of_space_is_dark() {
    let g = Glyph::character(b' ');
    assert_eq!(picture(&g), vec![".....", ".....", ".....", ".....", "....."]);
}

#[test]
fn glyphs_agree_with_the_font_for_every_code() {
    for ch in 0..=255u8 {
        let g = Glyph::character(ch);
        let image = microbit_text::font::character(ch);
        for y in 0..5 {
            for x in 0..5 {
                assert_eq!(g.rows[y][x], image.brightness_at(x, y) != 0);
                assert_eq!(g.get(y, x), g.rows[y][x]);
            }
        }
    }
}

#[test]
fn digit_glyphs_differ_from_each_other() {
    for a in b'0'..=b'9' {
        for b in b'0'..=b'9' {
            if a != b {
                assert_ne!(Glyph::character(a).rows, Glyph::character(b).rows);
            }
        }
    }
}

#[test]
fn render_gives_the_glyph_of_the_current_digit() {
    let mut d = DigitDisplay::<5>::new();
    d.set(41).unwrap();
    assert_eq!(d.render().rows, Glyph::character(b'4').rows);
    assert!(!d.next());
    assert_eq!(d.render().rows, Glyph::character(b'1').rows);
    assert_eq!(
        picture(&d.render()),
        vec!["..#..", ".##..", "..#..", "..#..", ".###."]
    );
}

#[test]
fn blank_glyph_has_no_lit_pixel() {
    let g = Glyph::blank();
    assert!(g.rows.iter().all(|row| row.iter().all(|&p| !p)));
}

#[test]
fn mode_icons_are_arrows() {
    let down = [
        [0, 0, 9, 0, 0],
        [0, 0, 9, 0, 0],
        [9, 0, 9, 0, 9],
        [0, 9, 9, 9, 0],
        [0, 0, 9, 0, 0],
    ];
    let up = [
        [0, 0, 9, 0, 0],
        [0, 9, 9, 9, 0],
        [9, 0, 9, 0, 9],
        [0, 0, 9, 0, 0],
        [0, 0, 9, 0, 0],
    ];
    for y in 0..5 {
        for x in 0..5 {
            assert_eq!(Mode::CountDown.brightness_at(x, y), down[y][x]);
            assert_eq!(Mode::CountUp.brightness_at(x, y), up[y][x]);
            assert_eq!(
                Mode::CountUp.brightness_at(x, y),
                Mode::CountDown.brightness_at(x, 4 - y)
            );
        }
    }
    assert_eq!(
        picture(&Mode::CountDown.glyph()),
        vec!["..#..", "..#..", "#.#.#", ".###.", "..#.."]
    );
    assert_eq!(
        picture(&Mode::CountUp.glyph()),
        vec!["..#..", ".###.", "#.#.#", "..#..", "..#.."]
    );
}

#[test]
fn toggling_switches_between_the_two_modes() {
    assert_eq!(Mode::CountDown.toggled(), Mode::CountUp);
    assert_eq!(Mode::CountUp.toggled(), Mode::CountDown);
    assert_eq!(Mode::CountUp.toggled().toggled(), Mode::CountUp);
}
