//! Glyphs: 5x5 binary bitmaps for characters, for the mode icons and for
//! the blank screen.

use tiny_led_matrix::Render;
use vstd::prelude::*;

verus! {

/// Rows and columns of the matrix.
pub const SIDE: usize = 5;

/// Brightness of a lit pixel of an icon.
pub const FULL: u8 = 9;

/// The brightness that the font gives the pixel in column `x` of row `y` of
/// the image for the character code `ch`.
pub uninterp spec fn font_brightness(ch: u8, x: int, y: int) -> u8;

/// Looks the character up with `microbit_text::font::character` and reads one
/// pixel of the image with its `Render::brightness_at`. Both are table
/// lookups; the second indexes a row of five and shifts by the column, so the
/// coordinates are kept inside the image.
#[verifier::external_body]
fn font_pixel(ch: u8, x: usize, y: usize) -> (b: u8)
    requires
        x < SIDE,
        y < SIDE,
    ensures
        b == font_brightness(ch, x as int, y as int),
{
    microbit_text::font::character(ch).brightness_at(x, y)
}

/// A 5x5 binary bitmap, top row first, left column first.
#[derive(Clone, Copy, Debug)]
pub struct Glyph {
    pub rows: [[bool; 5]; 5],
}

impl Glyph {
    /// Whether the pixel at `row`, `col` is lit.
    pub open spec fn lit(&self, row: int, col: int) -> bool {
        self.rows[row][col]
    }

    /// Whether this is the font's image for `ch`, a pixel lit where the font
    /// gives it any brightness.
    pub open spec fn is_character(&self, ch: u8) -> bool {
        forall|row: int, col: int|
            0 <= row < SIDE && 0 <= col < SIDE ==> #[trigger] self.lit(row, col) == (
            font_brightness(ch, col, row) != 0)
    }

    /// Whether no pixel is lit.
    pub open spec fn is_blank(&self) -> bool {
        forall|row: int, col: int|
            0 <= row < SIDE && 0 <= col < SIDE ==> !#[trigger] self.lit(row, col)
    }

    /// The glyph with every pixel dark.
    pub fn blank() -> (g: Glyph)
        ensures
            g.is_blank(),
    {
        Glyph { rows: [[false; 5]; 5] }
    }

    /// The font's glyph for a character code.
    pub fn character(ch: u8) -> (g: Glyph)
        ensures
            g.is_character(ch),
    {
        let mut rows = [[false; 5]; 5];
        let mut y: usize = 0;
        while y < SIDE
            invariant
                y <= SIDE,
                forall|r: int, c: int|
                    0 <= r < y && 0 <= c < SIDE ==> #[trigger] rows[r][c] == (font_brightness(
                        ch,
                        c,
                        r,
                    ) != 0),
            decreases SIDE - y,
        {
            let mut row = [false; 5];
            let mut x: usize = 0;
            while x < SIDE
                invariant
                    x <= SIDE,
                    y < SIDE,
                    forall|c: int|
                        0 <= c < x ==> #[trigger] row[c] == (font_brightness(ch, c, y as int)
                            != 0),
                decreases SIDE - x,
            {
                let b = font_pixel(ch, x, y);
                row[x] = b != 0;
                x += 1;
            }
            rows[y] = row;
            y += 1;
        }
        Glyph { rows }
    }

    /// Reads one pixel.
    pub fn get(&self, row: usize, col: usize) -> (v: bool)
        requires
            row < SIDE,
            col < SIDE,
        ensures
            v == self.lit(row as int, col as int),
    {
        self.rows[row][col]
    }
}

/// The counting direction that the user picks before counting starts.
#[derive(Clone, Copy, Debug, PartialEq, Eq, Structural)]
pub enum Mode {
    CountDown,
    CountUp,
}

impl Mode {
    /// The icon's brightness table: an arrow that points down for
    /// `CountDown` and up for `CountUp`.
    pub open spec fn icon(self) -> Seq<Seq<u8>> {
        match self {
            Mode::CountDown => seq![
                seq![0u8, 0u8, 9u8, 0u8, 0u8],
                seq![0u8, 0u8, 9u8, 0u8, 0u8],
                seq![9u8, 0u8, 9u8, 0u8, 9u8],
                seq![0u8, 9u8, 9u8, 9u8, 0u8],
                seq![0u8, 0u8, 9u8, 0u8, 0u8],
            ],
            Mode::CountUp => seq![
                seq![0u8, 0u8, 9u8, 0u8, 0u8],
                seq![0u8, 9u8, 9u8, 9u8, 0u8],
                seq![9u8, 0u8, 9u8, 0u8, 9u8],
                seq![0u8, 0u8, 9u8, 0u8, 0u8],
                seq![0u8, 0u8, 9u8, 0u8, 0u8],
            ],
        }
    }

    /// The other mode.
    pub open spec fn other(self) -> Mode {
        match self {
            Mode::CountDown => Mode::CountUp,
            Mode::CountUp => Mode::CountDown,
        }
    }

    /// The mode that a press of the toggling button selects.
    pub fn toggled(self) -> (m: Mode)
        ensures
            m == self.other(),
    {
        match self {
            Mode::CountDown => Mode::CountUp,
            Mode::CountUp => Mode::CountDown,
        }
    }

    /// Brightness of the icon's pixel in column `x` of row `y`.
    pub fn brightness_at(&self, x: usize, y: usize) -> (b: u8)
        requires
            x < SIDE,
            y < SIDE,
        ensures
            b == self.icon()[y as int][x as int],
            b == 0 || b == FULL,
    {
        let table: [[u8; 5]; 5] = match self {
            Mode::CountDown => [
                [0, 0, 9, 0, 0],
                [0, 0, 9, 0, 0],
                [9, 0, 9, 0, 9],
                [0, 9, 9, 9, 0],
                [0, 0, 9, 0, 0],
            ],
            Mode::CountUp => [
                [0, 0, 9, 0, 0],
                [0, 9, 9, 9, 0],
                [9, 0, 9, 0, 9],
                [0, 0, 9, 0, 0],
                [0, 0, 9, 0, 0],
            ],
        };
        table[y][x]
    }

    /// The icon as a binary glyph: a pixel is lit where the icon has any
    /// brightness.
    pub fn glyph(&self) -> (g: Glyph)
        ensures
            forall|row: int, col: int|
                0 <= row < SIDE && 0 <= col < SIDE ==> #[trigger] g.lit(row, col) == (
                self.icon()[row][col] != 0),
    {
        let mut rows = [[false; 5]; 5];
        let mut y: usize = 0;
        while y < SIDE
            invariant
                y <= SIDE,
                forall|r: int, c: int|
                    0 <= r < y && 0 <= c < SIDE ==> #[trigger] rows[r][c] == (
                    self.icon()[r][c] != 0),
            decreases SIDE - y,
        {
            let mut row = [false; 5];
            let mut x: usize = 0;
            while x < SIDE
                invariant
                    x <= SIDE,
                    y < SIDE,
                    forall|c: int|
                        0 <= c < x ==> #[trigger] row[c] == (self.icon()[y as int][c] != 0),
                decreases SIDE - x,
            {
                let b = self.brightness_at(x, y);
                row[x] = b != 0;
                x += 1;
            }
            rows[y] = row;
            y += 1;
        }
        Glyph { rows }
    }
}

/// The two arrows mirror each other top to bottom, and toggling twice gives
/// the mode back.
pub proof fn lemma_mode_icons_mirror(m: Mode, x: int, y: int)
    requires
        0 <= x < SIDE,
        0 <= y < SIDE,
    ensures
        m.other().icon()[y][x] == m.icon()[4 - y][x],
        m.other().other() == m,
{
}

} // verus!
