//! The multiplexed matrix scanner: a 5x5 pixel buffer and the row cursor,
//! and the pin writes that one scan tick makes.
//!
//! Polarity: a row line is asserted by driving it high. The polarity of the
//! column lines depends on the wiring and is part of the scanner's state. On
//! the reference board the columns are inverted relative to the rows: a
//! column is driven low where the pixel is lit and high where it is dark, so
//! an LED conducts when its row is high and its column is low. With columns
//! that are active high, a column is driven high exactly where the pixel is
//! lit.

use crate::glyph::Glyph;
use crate::glyph::SIDE;
use vstd::prelude::*;

verus! {

/// Period of the scan tick, in milliseconds.
pub const SCAN_PERIOD_MS: u32 = 20;

/// A row or column index outside the matrix.
#[derive(Clone, Copy, Debug, PartialEq, Eq, Structural)]
pub struct OutOfRange;

/// One of the ten output lines of the matrix.
#[derive(Clone, Copy, Debug, PartialEq, Eq, Structural)]
pub enum Line {
    Row(u8),
    Col(u8),
}

/// One write to an output line: drive it high or low.
#[derive(Clone, Copy, Debug, PartialEq, Eq, Structural)]
pub struct PinWrite {
    pub line: Line,
    pub high: bool,
}

/// The row that is driven after `row`.
pub open spec fn next_row(row: int) -> int {
    (row + 1) % 5
}

/// Which level of a column line lights a pixel of the asserted row.
#[derive(Clone, Copy, Debug, PartialEq, Eq, Structural)]
pub enum Polarity {
    /// A lit pixel's column is driven low: the reference wiring.
    ActiveLow,
    /// A lit pixel's column is driven high.
    ActiveHigh,
}

/// The level of a column line for a pixel; `true` is high.
pub open spec fn column_level(columns: Polarity, lit: bool) -> bool {
    match columns {
        Polarity::ActiveLow => !lit,
        Polarity::ActiveHigh => lit,
    }
}

/// The writes of one scan tick, in order: release the row that was driven,
/// settle the five columns for the pixels of the next row, then assert that
/// row.
pub open spec fn scan_writes(row: int, pixels: Seq<bool>, columns: Polarity) -> Seq<PinWrite> {
    seq![
        PinWrite { line: Line::Row(row as u8), high: false },
        PinWrite { line: Line::Col(0), high: column_level(columns, pixels[0]) },
        PinWrite { line: Line::Col(1), high: column_level(columns, pixels[1]) },
        PinWrite { line: Line::Col(2), high: column_level(columns, pixels[2]) },
        PinWrite { line: Line::Col(3), high: column_level(columns, pixels[3]) },
        PinWrite { line: Line::Col(4), high: column_level(columns, pixels[4]) },
        PinWrite { line: Line::Row(next_row(row) as u8), high: true },
    ]
}

/// The levels of the ten output lines; `true` is high.
pub struct Lines {
    pub rows: Seq<bool>,
    pub cols: Seq<bool>,
}

impl Lines {
    /// There are five row lines and five column lines.
    pub open spec fn wf(self) -> bool {
        self.rows.len() == 5 && self.cols.len() == 5
    }

    /// No row but `row` is asserted.
    pub open spec fn at_most_row(self, row: int) -> bool {
        forall|r: int| 0 <= r < 5 && #[trigger] self.rows[r] ==> r == row
    }

    /// No row is asserted.
    pub open spec fn dark(self) -> bool {
        forall|r: int| 0 <= r < 5 ==> !#[trigger] self.rows[r]
    }

    /// No two rows are asserted together.
    pub open spec fn at_most_one_row(self) -> bool {
        forall|r: int, s: int|
            0 <= r < 5 && 0 <= s < 5 && #[trigger] self.rows[r] && #[trigger] self.rows[s] ==> r
                == s
    }

    /// The columns carry the levels for `pixels`.
    pub open spec fn columns_show(self, columns: Polarity, pixels: Seq<bool>) -> bool {
        forall|c: int| 0 <= c < 5 ==> #[trigger] self.cols[c] == column_level(columns, pixels[c])
    }

    /// The lines after one write. A write to a line that does not exist
    /// changes nothing.
    pub open spec fn apply(self, w: PinWrite) -> Lines {
        match w.line {
            Line::Row(r) => if r < 5 {
                Lines { rows: self.rows.update(r as int, w.high), cols: self.cols }
            } else {
                self
            },
            Line::Col(c) => if c < 5 {
                Lines { rows: self.rows, cols: self.cols.update(c as int, w.high) }
            } else {
                self
            },
        }
    }

    /// The lines after a sequence of writes, made in order.
    pub open spec fn apply_all(self, ws: Seq<PinWrite>) -> Lines
        decreases ws.len(),
    {
        if ws.len() == 0 {
            self
        } else {
            self.apply_all(ws.drop_last()).apply(ws.last())
        }
    }
}

/// The pixel buffer and the scan cursor.
pub struct MutMatrix {
    display: [[bool; 5]; 5],
    current_row: u8,
    columns: Polarity,
}

impl MutMatrix {
    /// Whether the pixel at `row`, `col` is lit.
    pub closed spec fn lit(&self, row: int, col: int) -> bool {
        self.display[row][col]
    }

    /// The row that is driven now.
    pub closed spec fn row(&self) -> int {
        self.current_row as int
    }

    /// The polarity of the column lines.
    pub closed spec fn columns(&self) -> Polarity {
        self.columns
    }

    /// The cursor is on one of the five rows.
    pub closed spec fn wf(&self) -> bool {
        self.current_row < 5
    }

    /// The five pixels of a row, left first.
    pub open spec fn pixel_row(&self, row: int) -> Seq<bool> {
        Seq::new(5, |c: int| self.lit(row, c))
    }

    /// Whether the two matrices hold the same pixels.
    pub open spec fn same_pixels(&self, other: &MutMatrix) -> bool {
        forall|r: int, c: int|
            0 <= r < 5 && 0 <= c < 5 ==> #[trigger] self.lit(r, c) == other.lit(r, c)
    }

    /// A dark buffer, with the cursor on the first row, for the reference
    /// wiring: columns that are active low.
    pub fn new() -> (m: MutMatrix)
        ensures
            m.wf(),
            m.row() == 0,
            m.columns() == Polarity::ActiveLow,
            forall|r: int, c: int| 0 <= r < 5 && 0 <= c < 5 ==> !#[trigger] m.lit(r, c),
    {
        MutMatrix { display: [[false; 5]; 5], current_row: 0, columns: Polarity::ActiveLow }
    }

    /// A dark buffer, with the cursor on the first row, for columns of the
    /// given polarity.
    pub fn with_columns(columns: Polarity) -> (m: MutMatrix)
        ensures
            m.wf(),
            m.row() == 0,
            m.columns() == columns,
            forall|r: int, c: int| 0 <= r < 5 && 0 <= c < 5 ==> !#[trigger] m.lit(r, c),
    {
        MutMatrix { display: [[false; 5]; 5], current_row: 0, columns }
    }

    /// The level at which a column line is driven for a pixel.
    pub fn level_for(&self, lit: bool) -> (high: bool)
        ensures
            high == column_level(self.columns(), lit),
    {
        match self.columns {
            Polarity::ActiveLow => !lit,
            Polarity::ActiveHigh => lit,
        }
    }

    /// Records one pixel. An index outside the matrix is refused and
    /// nothing changes.
    pub fn set(&mut self, row: u8, col: u8, value: bool) -> (r: Result<(), OutOfRange>)
        ensures
            r is Ok <==> row < 5 && col < 5,
            r is Err ==> *final(self) == *old(self),
            final(self).row() == old(self).row(),
            final(self).columns() == old(self).columns(),
            final(self).wf() == old(self).wf(),
            r is Ok ==> forall|i: int, j: int|
                0 <= i < 5 && 0 <= j < 5 ==> #[trigger] final(self).lit(i, j) == (if i == row && j
                    == col {
                    value
                } else {
                    old(self).lit(i, j)
                }),
    {
        if row >= 5 || col >= 5 {
            return Err(OutOfRange);
        }
        let mut line = self.display[row as usize];
        line[col as usize] = value;
        self.display[row as usize] = line;
        Ok(())
    }

    /// Reads one pixel.
    pub fn get(&self, row: u8, col: u8) -> (r: Result<bool, OutOfRange>)
        ensures
            r is Ok <==> row < 5 && col < 5,
            r is Ok ==> r->Ok_0 == self.lit(row as int, col as int),
    {
        if row >= 5 || col >= 5 {
            return Err(OutOfRange);
        }
        Ok(self.display[row as usize][col as usize])
    }

    /// Darkens every pixel.
    pub fn clear(&mut self)
        ensures
            final(self).row() == old(self).row(),
            final(self).columns() == old(self).columns(),
            final(self).wf() == old(self).wf(),
            forall|r: int, c: int| 0 <= r < 5 && 0 <= c < 5 ==> !#[trigger] final(self).lit(r, c),
    {
        self.display = [[false; 5]; 5];
    }

    /// Darkens one column and leaves the other columns as they were. A
    /// column outside the matrix is refused and nothing changes.
    pub fn clear_col(&mut self, col: u8) -> (r: Result<(), OutOfRange>)
        ensures
            r is Ok <==> col < 5,
            r is Err ==> *final(self) == *old(self),
            final(self).row() == old(self).row(),
            final(self).columns() == old(self).columns(),
            final(self).wf() == old(self).wf(),
            r is Ok ==> forall|i: int, j: int|
                0 <= i < 5 && 0 <= j < 5 ==> #[trigger] final(self).lit(i, j) == (j != col
                    && old(self).lit(i, j)),
    {
        if col >= 5 {
            return Err(OutOfRange);
        }
        let mut i: usize = 0;
        while i < SIDE
            invariant
                i <= SIDE,
                col < 5,
                self.current_row == old(self).current_row,
                self.columns == old(self).columns,
                forall|r: int, c: int|
                    0 <= r < 5 && 0 <= c < 5 ==> #[trigger] self.lit(r, c) == (if r < i {
                        c != col && old(self).lit(r, c)
                    } else {
                        old(self).lit(r, c)
                    }),
            decreases SIDE - i,
        {
            let ghost before = *self;
            let mut line = self.display[i];
            line[col as usize] = false;
            self.display[i] = line;
            proof {
                assert forall|r: int, c: int| 0 <= r < 5 && 0 <= c < 5 implies #[trigger] self.lit(
                    r,
                    c,
                ) == (if r == i {
                    c != col && before.lit(r, c)
                } else {
                    before.lit(r, c)
                }) by {
                    assert(self.display@[r] == (if r == i {
                        line
                    } else {
                        before.display@[r]
                    }));
                }
            }
            i += 1;
        }
        Ok(())
    }

    /// Copies a glyph into the buffer.
    pub fn show_glyph(&mut self, glyph: &Glyph)
        ensures
            final(self).row() == old(self).row(),
            final(self).columns() == old(self).columns(),
            final(self).wf() == old(self).wf(),
            forall|r: int, c: int|
                0 <= r < 5 && 0 <= c < 5 ==> #[trigger] final(self).lit(r, c) == glyph.lit(r, c),
    {
        self.display = glyph.rows;
    }

    /// The write that asserts a row.
    pub fn set_row(row: u8) -> (w: PinWrite)
        requires
            row < 5,
        ensures
            w == (PinWrite { line: Line::Row(row), high: true }),
    {
        PinWrite { line: Line::Row(row), high: true }
    }

    /// The write that releases a row.
    pub fn clear_row(row: u8) -> (w: PinWrite)
        requires
            row < 5,
        ensures
            w == (PinWrite { line: Line::Row(row), high: false }),
    {
        PinWrite { line: Line::Row(row), high: false }
    }

    /// The write that drives a column high for `true`, low for `false`.
    pub fn write_col(col: u8, value: bool) -> (w: PinWrite)
        requires
            col < 5,
        ensures
            w == (PinWrite { line: Line::Col(col), high: value }),
    {
        PinWrite { line: Line::Col(col), high: value }
    }

    /// One scan tick: moves the cursor to the next row and gives the pin
    /// writes to make, in order. The pixels stay as they are.
    pub fn draw(&mut self) -> (writes: Vec<PinWrite>)
        requires
            old(self).wf(),
        ensures
            final(self).wf(),
            final(self).row() == next_row(old(self).row()),
            final(self).columns() == old(self).columns(),
            final(self).same_pixels(old(self)),
            writes@ == scan_writes(
                old(self).row(),
                old(self).pixel_row(next_row(old(self).row())),
                old(self).columns(),
            ),
    {
        let mut writes: Vec<PinWrite> = Vec::new();
        writes.push(Self::clear_row(self.current_row));
        self.current_row = (self.current_row + 1) % 5;
        let line = self.display[self.current_row as usize];
        let mut i: u8 = 0;
        while i < 5
            invariant
                i <= 5,
                self.current_row < 5,
                self.current_row == next_row(old(self).current_row as int),
                self.display == old(self).display,
                self.columns == old(self).columns,
                line == self.display[self.current_row as int],
                writes@.len() == 1 + i,
                writes@[0] == (PinWrite { line: Line::Row(old(self).current_row), high: false }),
                forall|c: int|
                    0 <= c < i ==> #[trigger] writes@[1 + c] == (PinWrite {
                        line: Line::Col(c as u8),
                        high: column_level(self.columns, line[c]),
                    }),
            decreases 5 - i,
        {
            let level = self.level_for(line[i as usize]);
            writes.push(Self::write_col(i, level));
            i += 1;
        }
        writes.push(Self::set_row(self.current_row));
        proof {
            let row = old(self).row();
            let pixels = old(self).pixel_row(next_row(row));
            let expected = scan_writes(row, pixels, old(self).columns());
            assert(writes@.len() == expected.len());
            assert forall|j: int| 0 <= j < 7 implies writes@[j] == expected[j] by {
                if 1 <= j <= 5 {
                    assert(writes@[1 + (j - 1)].line == Line::Col((j - 1) as u8));
                    assert(pixels[j - 1] == line[j - 1]);
                }
            }
            assert(writes@ =~= expected);
        }
        writes
    }
}

/// Within one scan tick no two rows are ever asserted together. Starting
/// from lines on which no row but the current one is asserted, the state
/// after each of the tick's writes has at most one row asserted; while the
/// columns are being settled no row is asserted at all, and the columns
/// written so far carry the levels of their pixels; and after the last
/// write exactly the next row is asserted, with the columns showing that
/// row's pixels. So the next tick starts as this one did.
pub proof fn lemma_tick_never_ghosts(
    lines: Lines,
    row: int,
    pixels: Seq<bool>,
    columns: Polarity,
    k: int,
)
    requires
        lines.wf(),
        0 <= row < 5,
        pixels.len() == 5,
        lines.at_most_row(row),
        0 <= k <= 7,
    ensures
        ({
            let s = lines.apply_all(scan_writes(row, pixels, columns).take(k));
            &&& s.wf()
            &&& s.at_most_one_row()
            &&& (1 <= k < 7 ==> s.dark())
            &&& (k >= 1 ==> forall|c: int|
                0 <= c < k - 1 && c < 5 ==> #[trigger] s.cols[c] == column_level(
                    columns,
                    pixels[c],
                ))
            &&& (k == 7 ==> s.rows[next_row(row)] && s.at_most_row(next_row(row))
                && s.columns_show(columns, pixels))
        }),
    decreases k,
{
    let ws = scan_writes(row, pixels, columns);
    if k > 0 {
        lemma_tick_never_ghosts(lines, row, pixels, columns, k - 1);
        assert(ws.take(k).drop_last() =~= ws.take(k - 1));
        assert(ws.take(k).last() == ws[k - 1]);
    }
}

/// The row that is driven after `ticks` scan ticks that started from `row`.
pub open spec fn row_after(row: int, ticks: int) -> int {
    (row + ticks) % 5
}

/// The writes of a run of scan ticks that starts with `row` driven, in
/// order. `frames[t]` holds the pixels, as they are at tick `t`, of the row
/// that this tick turns to; the buffer may change between ticks.
pub open spec fn run_writes(row: int, frames: Seq<Seq<bool>>, columns: Polarity) -> Seq<PinWrite>
    decreases frames.len(),
{
    if frames.len() == 0 {
        Seq::empty()
    } else {
        run_writes(row, frames.drop_last(), columns) + scan_writes(
            row_after(row, frames.len() - 1),
            frames.last(),
            columns,
        )
    }
}

/// Writing one sequence after another is writing their concatenation.
pub proof fn lemma_apply_concat(lines: Lines, a: Seq<PinWrite>, b: Seq<PinWrite>)
    ensures
        lines.apply_all(a + b) == lines.apply_all(a).apply_all(b),
    decreases b.len(),
{
    if b.len() == 0 {
        assert(a + b =~= a);
    } else {
        lemma_apply_concat(lines, a, b.drop_last());
        assert((a + b).drop_last() =~= a + b.drop_last());
        assert((a + b).last() == b.last());
    }
}

/// A run of scan ticks makes seven writes per tick.
pub proof fn lemma_run_writes_len(row: int, frames: Seq<Seq<bool>>, columns: Polarity)
    ensures
        run_writes(row, frames, columns).len() == 7 * frames.len(),
    decreases frames.len(),
{
    if frames.len() > 0 {
        lemma_run_writes_len(row, frames.drop_last(), columns);
    }
}

/// Scanning never ghosts, for any number of ticks and any changes of the
/// buffer between them. Start from lines on which no row but the current
/// one is asserted, and stop a run of ticks after any `j` of its writes:
/// no two rows are asserted together; in the middle of a tick no row is
/// asserted at all; and at the end of a tick exactly the row that the tick
/// turned to is asserted, with the columns showing the pixels that this row
/// had at that tick.
pub proof fn lemma_scan_never_ghosts(
    lines: Lines,
    row: int,
    frames: Seq<Seq<bool>>,
    columns: Polarity,
    j: int,
)
    requires
        lines.wf(),
        0 <= row < 5,
        forall|t: int| 0 <= t < frames.len() ==> (#[trigger] frames[t]).len() == 5,
        lines.at_most_row(row),
        0 <= j <= 7 * frames.len(),
    ensures
        ({
            let s = lines.apply_all(run_writes(row, frames, columns).take(j));
            &&& s.wf()
            &&& s.at_most_one_row()
            &&& s.at_most_row(row_after(row, j / 7))
            &&& (j % 7 != 0 ==> s.dark())
            &&& (j > 0 && j % 7 == 0 ==> s.rows[row_after(row, j / 7)] && s.columns_show(
                columns,
                frames[j / 7 - 1],
            ))
        }),
    decreases frames.len(),
{
    let n = frames.len() as int;
    let all = run_writes(row, frames, columns);
    if n == 0 {
        assert(all.take(j) =~= Seq::<PinWrite>::empty());
    } else {
        let earlier = frames.drop_last();
        let before = run_writes(row, earlier, columns);
        let at = row_after(row, n - 1);
        let tick = scan_writes(at, frames.last(), columns);
        lemma_run_writes_len(row, earlier, columns);
        if j <= 7 * (n - 1) {
            lemma_scan_never_ghosts(lines, row, earlier, columns, j);
            assert(all.take(j) =~= before.take(j));
            if j > 0 && j % 7 == 0 {
                assert(frames[j / 7 - 1] == earlier[j / 7 - 1]);
            }
        } else {
            let k = j - 7 * (n - 1);
            lemma_scan_never_ghosts(lines, row, earlier, columns, 7 * (n - 1));
            assert(before.take(7 * (n - 1)) =~= before);
            let mid = lines.apply_all(before);
            assert(mid.at_most_row(at));
            assert(all.take(j) =~= before + tick.take(k));
            lemma_apply_concat(lines, before, tick.take(k));
            lemma_tick_never_ghosts(mid, at, frames.last(), columns, k);
            assert(next_row(at) == row_after(row, n));
            if k == 7 {
                assert(j / 7 == n && j % 7 == 0);
            } else {
                assert(j / 7 == n - 1 && j % 7 == k);
            }
        }
    }
}

} // verus!
