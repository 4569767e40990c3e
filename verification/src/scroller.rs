//! The scroll orchestrator's decisions: which glyph to show next and how
//! long to hold it. The caller draws, sleeps and blanks; nothing here waits.

use crate::digits::lemma_advance_within_pass;
use crate::digits::DigitDisplay;
use crate::digits::DigitView;
use crate::digits::ASCII_ZERO;
use crate::glyph::Glyph;
use vstd::prelude::*;

verus! {

/// Period of the outer scroll timer, in seconds.
pub const SCROLL_PERIOD_SECS: u64 = 5;

/// How long a glyph is held after one scroll step.
#[derive(Clone, Copy, Debug, PartialEq, Eq, Structural)]
pub enum Pause {
    /// The display is hidden: nothing is shown.
    NoPause,
    /// Between two digits of one number.
    ShortPause,
    /// After the last digit of a number.
    LongPause,
}

impl Pause {
    /// Milliseconds for which the glyph stays visible, then milliseconds
    /// for which the matrix stays blank.
    pub open spec fn hold(self) -> (u64, u64) {
        match self {
            Pause::NoPause => (0, 0),
            Pause::ShortPause => (500, 500),
            Pause::LongPause => (5000, 500),
        }
    }

    /// The pause with which a period of the outer timer starts: the scroll
    /// loop is entered only while text is being shown.
    pub open spec fn at_period_start(showing: bool) -> Pause {
        if showing {
            Pause::ShortPause
        } else {
            Pause::NoPause
        }
    }

    /// The pause class after showing a digit: long if that ended the pass.
    pub open spec fn after_digit(complete: bool) -> Pause {
        if complete {
            Pause::LongPause
        } else {
            Pause::ShortPause
        }
    }

    /// The pause that one scroll step issues for a display: none while it
    /// is hidden, else the pause after its current digit.
    pub open spec fn of_step(v: DigitView) -> Pause {
        if v.visible() {
            Pause::after_digit(v.completes())
        } else {
            Pause::NoPause
        }
    }

    /// Milliseconds visible, then milliseconds blank.
    pub fn duration(self) -> (d: (u64, u64))
        ensures
            d == self.hold(),
    {
        match self {
            Pause::NoPause => (0, 0),
            Pause::ShortPause => (500, 500),
            Pause::LongPause => (5000, 500),
        }
    }

    /// The pause with which a period of the outer timer starts.
    pub fn period_start(showing: bool) -> (p: Pause)
        ensures
            p == Pause::at_period_start(showing),
    {
        if showing {
            Pause::ShortPause
        } else {
            Pause::NoPause
        }
    }

    /// Whether the scroll loop takes another step within this period: it
    /// does so only after a short pause.
    pub fn repeats(self) -> (again: bool)
        ensures
            again == (self == Pause::ShortPause),
    {
        match self {
            Pause::ShortPause => true,
            _ => false,
        }
    }
}

/// What one scroll step decided: the glyph to draw, if any, and the pause
/// that follows it.
#[derive(Clone, Copy, Debug)]
pub struct ScrollStep {
    pub glyph: Option<Glyph>,
    pub pause: Pause,
}

/// One scroll step. A hidden display is left alone and yields no glyph and
/// no pause. A visible one yields the glyph of its current digit and moves
/// on to the next digit; the pause is long if that ended the pass over the
/// digits, short otherwise.
pub fn scroll_step<const N: usize>(display: &mut DigitDisplay<N>) -> (step: ScrollStep)
    requires
        old(display).wf(),
    ensures
        final(display).wf(),
        step.pause == Pause::of_step(old(display)@),
        !old(display)@.visible() ==> {
            &&& final(display)@ == old(display)@
            &&& step.glyph is None
            &&& step.pause == Pause::NoPause
        },
        old(display)@.visible() ==> {
            &&& final(display)@ == old(display)@.advanced()
            &&& step.glyph is Some
            &&& step.glyph->Some_0.is_character(
                (ASCII_ZERO + old(display)@.shown[old(display)@.cursor as int]) as u8,
            )
            &&& step.pause == Pause::after_digit(old(display)@.completes())
        },
{
    if !display.is_visible() {
        return ScrollStep { glyph: None, pause: Pause::NoPause };
    }
    let glyph = display.render();
    let complete = display.next();
    let pause = if complete {
        Pause::LongPause
    } else {
        Pause::ShortPause
    };
    ScrollStep { glyph: Some(glyph), pause }
}

/// Scrolling a number from its first digit issues a short pause after every
/// digit but the last and a long pause after the last: step `k` of the pass
/// is on digit `k`, and its pause is long exactly when that is the last
/// digit, which is also when the scroll loop stops repeating.
pub proof fn lemma_pass_pauses(v: DigitView, k: nat)
    requires
        v.wf(),
        v.cursor == 0,
        k < v.shown.len(),
    ensures
        v.advanced_by(k).cursor == k,
        Pause::of_step(v.advanced_by(k)) == (if k + 1 == v.shown.len() {
            Pause::LongPause
        } else {
            Pause::ShortPause
        }),
{
    lemma_advance_within_pass(v, k);
}

} // verus!
