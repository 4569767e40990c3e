use led_matrix::digits::DigitDisplay;
use led_matrix::glyph::Glyph;
use led_matrix::scroller::{scroll_step, Pause, SCROLL_PERIOD_SECS};
use led_matrix::timeout::{timeout_result, Raced, TimeoutError};

#[test]
fn pause_durations() {
    assert_eq!(Pause::NoPause.duration(), (0, 0));
    assert_eq!(Pause::ShortPause.duration(), (500, 500));
    assert_eq!(Pause::LongPause.duration(), (5000, 500));
    assert_eq!(SCROLL_PERIOD_SECS, 5);
}

#[test]
fn only_a_short_pause_repeats() {
    assert!(Pause::ShortPause.repeats());
    assert!(!Pause::LongPause.repeats());
    assert!(!Pause::NoPause.repeats());
}

#[test]
fn a_period_starts_only_while_text_is_shown() {
    assert_eq!(Pause::period_start(true), Pause::ShortPause);
    assert_eq!(Pause::period_start(false), Pause::NoPause);
    assert!(!Pause::period_start(false).repeats());
}

#[test]
fn forty_two_scrolls_short_then_long() {
    let mut d = DigitDisplay::<5>::new();
    d.set(42).unwrap();
    d.show();
    let mut pause = Pause::period_start(true);
    let mut seen = Vec::new();
    while pause.repeats() {
        let step = scroll_step(&mut d);
        pause = step.pause;
        seen.push((step.glyph.map(|g| g.rows), pause, pause.duration()));
    }
    assert_eq!(
        seen,
        vec![
            (
                Some(Glyph::character(b'4').rows),
                Pause::ShortPause,
                (500, 500)
            ),
            (
                Some(Glyph::character(b'2').rows),
                Pause::LongPause,
                (5000, 500)
            ),
        ]
    );
    assert_eq!(d.cursor(), 0);
}

#[test]
fn a_hidden_display_yields_no_glyph_and_no_pause() {
    let mut d = DigitDisplay::<5>::new();
    d.set(42).unwrap();
    d.conceal();
    let step = scroll_step(&mut d);
    assert!(step.glyph.is_none());
    assert_eq!(step.pause, Pause::NoPause);
    assert_eq!(d.cursor(), 5);
    assert!(!d.is_visible());
}

#[test]
fn a_single_digit_gets_a_long_pause_at_once() {
    let mut d = DigitDisplay::<5>::new();
    d.set(7).unwrap();
    let step = scroll_step(&mut d);
    assert_eq!(step.glyph.map(|g| g.rows), Some(Glyph::character(b'7').rows));
    assert_eq!(step.pause, Pause::LongPause);
    assert_eq!(d.cursor(), 0);
}

#[test]
fn a_finished_operation_gives_its_output() {
    assert_eq!(timeout_result(Raced::Finished(17u32)), Ok(17));
}

#[test]
fn an_expired_timer_gives_the_timeout_error() {
    assert_eq!(timeout_result(Raced::<u32>::Expired), Err(TimeoutError));
}
