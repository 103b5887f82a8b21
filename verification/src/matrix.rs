//! The display surface: sixteen output lines multiplexing an 8x8 LED grid.
//!
//! A draw call walks the given pixels in order. Every visible pixel is
//! flashed once: its column and row lines are driven to the energized
//! levels for one dwell period, then restored to their inactive resting
//! levels for another. The model of a call has three parts: where the
//! lines rest afterwards ([`draw_effect_cols`], [`draw_effect_rows`]),
//! which levels were driven onto each line and in what order
//! ([`writes_effect_cols`], [`writes_effect_rows`] - two writes per
//! visible pixel, none for any other line), and how many dwell periods
//! were held ([`visible_count`] - two per visible pixel).

use vstd::prelude::*;

use crate::hw::{
    dwell_micros, gpio_get, into_output_high, into_output_low, write_level, DwellTimer, Line,
};
use crate::pixel::{
    col_drive, in_bounds, row_drive, spec_col_drive, spec_in_bounds, spec_row_drive, Pixel,
    COL_REST_LEVEL, ROW_REST_LEVEL,
};

verus! {

/// Hold time of each energized and each restored phase of one pixel
/// flash, in microseconds; one flash takes two such periods.
pub const DWELL_MICROS: u32 = 5;

/// Construction failed because one output line could not be acquired.
#[derive(Clone, Copy, PartialEq, Eq, Structural, Debug)]
pub struct LineError {
    /// The logical pin number of the line that could not be acquired.
    pub pin: u8,
}

/// Line levels after the flash of one visible pixel: its column line is
/// driven back to the inactive resting level (high). A pixel outside the
/// surface touches nothing.
pub open spec fn apply_pixel_cols(cols: Seq<bool>, p: Pixel) -> Seq<bool> {
    if spec_in_bounds(p.x as int, p.y as int) {
        cols.update(p.x as int, COL_REST_LEVEL)
    } else {
        cols
    }
}

/// Line levels after the flash of one visible pixel: its row line is
/// driven back to the inactive resting level (low). A pixel outside the
/// surface touches nothing.
pub open spec fn apply_pixel_rows(rows: Seq<bool>, p: Pixel) -> Seq<bool> {
    if spec_in_bounds(p.x as int, p.y as int) {
        rows.update(p.y as int, ROW_REST_LEVEL)
    } else {
        rows
    }
}

/// Column line levels after a draw call over `ps`, starting from `cols`.
pub open spec fn draw_effect_cols(cols: Seq<bool>, ps: Seq<Pixel>) -> Seq<bool>
    decreases ps.len(),
{
    if ps.len() == 0 {
        cols
    } else {
        draw_effect_cols(apply_pixel_cols(cols, ps.first()), ps.drop_first())
    }
}

/// Row line levels after a draw call over `ps`, starting from `rows`.
pub open spec fn draw_effect_rows(rows: Seq<bool>, ps: Seq<Pixel>) -> Seq<bool>
    decreases ps.len(),
{
    if ps.len() == 0 {
        rows
    } else {
        draw_effect_rows(apply_pixel_rows(rows, ps.first()), ps.drop_first())
    }
}

pub proof fn lemma_draw_effect_cols_snoc(cols: Seq<bool>, ps: Seq<Pixel>, p: Pixel)
    ensures
        draw_effect_cols(cols, ps.push(p)) == apply_pixel_cols(draw_effect_cols(cols, ps), p),
    decreases ps.len(),
{
    if ps.len() == 0 {
        assert(ps.push(p).first() == p);
        assert(ps.push(p).drop_first() =~= ps);
        assert(draw_effect_cols(apply_pixel_cols(cols, p), ps) == apply_pixel_cols(cols, p));
    } else {
        assert(ps.push(p).first() == ps.first());
        assert(ps.push(p).drop_first() =~= ps.drop_first().push(p));
        lemma_draw_effect_cols_snoc(apply_pixel_cols(cols, ps.first()), ps.drop_first(), p);
    }
}

pub proof fn lemma_draw_effect_rows_snoc(rows: Seq<bool>, ps: Seq<Pixel>, p: Pixel)
    ensures
        draw_effect_rows(rows, ps.push(p)) == apply_pixel_rows(draw_effect_rows(rows, ps), p),
    decreases ps.len(),
{
    if ps.len() == 0 {
        assert(ps.push(p).first() == p);
        assert(ps.push(p).drop_first() =~= ps);
        assert(draw_effect_rows(apply_pixel_rows(rows, p), ps) == apply_pixel_rows(rows, p));
    } else {
        assert(ps.push(p).first() == ps.first());
        assert(ps.push(p).drop_first() =~= ps.drop_first().push(p));
        lemma_draw_effect_rows_snoc(apply_pixel_rows(rows, ps.first()), ps.drop_first(), p);
    }
}

/// Write histories of the column lines after the flash of one visible
/// pixel: the addressed column receives exactly its energize level and
/// then its inactive resting level, in that order; no other column is
/// written, and a pixel outside the surface writes nothing at all.
pub open spec fn apply_pixel_col_writes(ws: Seq<Seq<bool>>, p: Pixel) -> Seq<Seq<bool>> {
    if spec_in_bounds(p.x as int, p.y as int) {
        ws.update(p.x as int, ws[p.x as int] + seq![spec_col_drive(p.on), COL_REST_LEVEL])
    } else {
        ws
    }
}

/// Write histories of the row lines after the flash of one visible pixel:
/// the addressed row receives exactly its energize level and then its
/// inactive resting level, in that order; no other row is written, and a
/// pixel outside the surface writes nothing at all.
pub open spec fn apply_pixel_row_writes(ws: Seq<Seq<bool>>, p: Pixel) -> Seq<Seq<bool>> {
    if spec_in_bounds(p.x as int, p.y as int) {
        ws.update(p.y as int, ws[p.y as int] + seq![spec_row_drive(p.on), ROW_REST_LEVEL])
    } else {
        ws
    }
}

/// Column line write histories after a draw call over `ps`.
pub open spec fn writes_effect_cols(ws: Seq<Seq<bool>>, ps: Seq<Pixel>) -> Seq<Seq<bool>>
    decreases ps.len(),
{
    if ps.len() == 0 {
        ws
    } else {
        writes_effect_cols(apply_pixel_col_writes(ws, ps.first()), ps.drop_first())
    }
}

/// Row line write histories after a draw call over `ps`.
pub open spec fn writes_effect_rows(ws: Seq<Seq<bool>>, ps: Seq<Pixel>) -> Seq<Seq<bool>>
    decreases ps.len(),
{
    if ps.len() == 0 {
        ws
    } else {
        writes_effect_rows(apply_pixel_row_writes(ws, ps.first()), ps.drop_first())
    }
}

/// Number of pixels of a frame that lie on the visible surface: each of
/// them is flashed for two dwell periods, the rest are dropped.
pub open spec fn visible_count(ps: Seq<Pixel>) -> nat
    decreases ps.len(),
{
    if ps.len() == 0 {
        0
    } else {
        (if spec_in_bounds(ps.first().x as int, ps.first().y as int) {
            1nat
        } else {
            0nat
        }) + visible_count(ps.drop_first())
    }
}

pub proof fn lemma_writes_effect_cols_snoc(ws: Seq<Seq<bool>>, ps: Seq<Pixel>, p: Pixel)
    ensures
        writes_effect_cols(ws, ps.push(p)) == apply_pixel_col_writes(
            writes_effect_cols(ws, ps),
            p,
        ),
    decreases ps.len(),
{
    if ps.len() == 0 {
        assert(ps.push(p).first() == p);
        assert(ps.push(p).drop_first() =~= ps);
        assert(writes_effect_cols(apply_pixel_col_writes(ws, p), ps) == apply_pixel_col_writes(
            ws,
            p,
        ));
    } else {
        assert(ps.push(p).first() == ps.first());
        assert(ps.push(p).drop_first() =~= ps.drop_first().push(p));
        lemma_writes_effect_cols_snoc(apply_pixel_col_writes(ws, ps.first()), ps.drop_first(), p);
    }
}

pub proof fn lemma_writes_effect_rows_snoc(ws: Seq<Seq<bool>>, ps: Seq<Pixel>, p: Pixel)
    ensures
        writes_effect_rows(ws, ps.push(p)) == apply_pixel_row_writes(
            writes_effect_rows(ws, ps),
            p,
        ),
    decreases ps.len(),
{
    if ps.len() == 0 {
        assert(ps.push(p).first() == p);
        assert(ps.push(p).drop_first() =~= ps);
        assert(writes_effect_rows(apply_pixel_row_writes(ws, p), ps) == apply_pixel_row_writes(
            ws,
            p,
        ));
    } else {
        assert(ps.push(p).first() == ps.first());
        assert(ps.push(p).drop_first() =~= ps.drop_first().push(p));
        lemma_writes_effect_rows_snoc(apply_pixel_row_writes(ws, ps.first()), ps.drop_first(), p);
    }
}

pub proof fn lemma_visible_count_snoc(ps: Seq<Pixel>, p: Pixel)
    ensures
        visible_count(ps.push(p)) == visible_count(ps) + (if spec_in_bounds(
            p.x as int,
            p.y as int,
        ) {
            1nat
        } else {
            0nat
        }),
    decreases ps.len(),
{
    if ps.len() == 0 {
        assert(ps.push(p).first() == p);
        assert(ps.push(p).drop_first() =~= ps);
    } else {
        assert(ps.push(p).first() == ps.first());
        assert(ps.push(p).drop_first() =~= ps.drop_first().push(p));
        lemma_visible_count_snoc(ps.drop_first(), p);
    }
}

/// The 8x8 display surface: eight row lines and eight column lines, and
/// the dwell timer their flashes are held on. The timer is private, so no
/// code outside this module can reset its count.
pub struct LedMatrix {
    pub rows: Vec<Line>,
    pub cols: Vec<Line>,
    timer: DwellTimer,
}

impl LedMatrix {
    /// The eight row lines, in row order.
    pub closed spec fn row_lines(self) -> Seq<Line> {
        self.rows@
    }

    /// The eight column lines, in column order.
    pub closed spec fn col_lines(self) -> Seq<Line> {
        self.cols@
    }

    /// Eight row lines and eight column lines.
    pub closed spec fn wf(self) -> bool {
        &&& self.rows@.len() == 8
        &&& self.cols@.len() == 8
    }

    /// The resting logic levels of the eight row lines.
    pub closed spec fn row_levels(self) -> Seq<bool> {
        self.rows@.map_values(|l: Line| l.level())
    }

    /// The resting logic levels of the eight column lines.
    pub closed spec fn col_levels(self) -> Seq<bool> {
        self.cols@.map_values(|l: Line| l.level())
    }

    /// The pin handles of the eight row lines, in row order: the wiring
    /// of the source side of the grid.
    pub closed spec fn row_pin_handles(self) -> Seq<rppal::gpio::OutputPin> {
        self.rows@.map_values(|l: Line| l.pin_handle())
    }

    /// The pin handles of the eight column lines, in column order: the
    /// wiring of the sink side of the grid.
    pub closed spec fn col_pin_handles(self) -> Seq<rppal::gpio::OutputPin> {
        self.cols@.map_values(|l: Line| l.pin_handle())
    }

    /// The write histories of the eight row lines, in row order: every
    /// level ever driven onto each, oldest first.
    pub closed spec fn row_writes(self) -> Seq<Seq<bool>> {
        self.rows@.map_values(|l: Line| l.writes())
    }

    /// The write histories of the eight column lines, in column order.
    pub closed spec fn col_writes(self) -> Seq<Seq<bool>> {
        self.cols@.map_values(|l: Line| l.writes())
    }

    /// How many dwell periods this surface has held since construction.
    pub closed spec fn dwells_held(self) -> nat {
        self.timer.held()
    }

    /// Assemble the surface from sixteen line-acquisition results: the
    /// first eight are the row lines, the last eight the column lines.
    /// Construction fails as a whole: a surface is returned exactly when
    /// every single acquisition succeeded, and the reported error is the
    /// first failure, in line order. No partial matrix ever escapes.
    #[verifier::loop_isolation(false)]
    pub fn from_lines(lines: Vec<Result<Line, LineError>>) -> (r: Result<LedMatrix, LineError>)
        requires
            lines@.len() == 16,
        ensures
            r matches Ok(m) ==> {
                &&& forall|i: int| 0 <= i < 16 ==> lines@[i] is Ok
                &&& m.wf()
                &&& forall|i: int| 0 <= i < 8 ==> m.row_lines()[i] == lines@[i]->Ok_0
                &&& forall|i: int| 0 <= i < 8 ==> m.col_lines()[i] == lines@[i + 8]->Ok_0
                &&& m.dwells_held() == 0
            },
            r matches Err(e) ==> exists|i: int|
                {
                    &&& 0 <= i < 16
                    &&& lines@[i] is Err
                    &&& (forall|j: int| 0 <= j < i ==> lines@[j] is Ok)
                    &&& e == lines@[i]->Err_0
                },
    {
        let ghost orig = lines@;
        let mut lines = lines;
        proof {
            assert(orig.subrange(0, 16) =~= orig);
        }
        let mut rows: Vec<Line> = Vec::new();
        let mut cols: Vec<Line> = Vec::new();
        let mut idx: usize = 0;
        while lines.len() > 0
            invariant
                idx + lines@.len() == 16,
                lines@ == orig.subrange(idx as int, 16),
                rows@.len() == (if idx <= 8 {
                    idx as int
                } else {
                    8
                }),
                cols@.len() == (if idx <= 8 {
                    0
                } else {
                    idx - 8
                }),
                forall|j: int| 0 <= j < idx ==> orig[j] is Ok,
                forall|j: int| 0 <= j < rows@.len() ==> rows@[j] == orig[j]->Ok_0,
                forall|j: int| 0 <= j < cols@.len() ==> cols@[j] == orig[j + 8]->Ok_0,
            decreases lines@.len(),
        {
            let result = lines.remove(0);
            proof {
                let pre = orig.subrange(idx as int, 16);
                assert(pre[0] == orig[idx as int]);
                assert(pre.remove(0) =~= orig.subrange(idx as int + 1, 16)) by {
                    pre.remove_ensures(0);
                };
            }
            match result {
                Ok(line) => {
                    if idx < 8 {
                        rows.push(line);
                    } else {
                        cols.push(line);
                    }
                },
                Err(e) => {
                    return Err(e);
                },
            }
            idx = idx + 1;
        }
        Ok(LedMatrix { rows, cols, timer: DwellTimer::new() })
    }

    /// Acquire the sixteen output lines of the matrix from the GPIO
    /// peripheral, each pin requested exactly once, the eight row pins
    /// first and then the eight column pins: each row pin is configured
    /// as an output resting low, each column pin as an output resting
    /// high, the inactive levels of this wiring, one initializing write
    /// each. Acquisition is one-shot: the first failure ends the whole
    /// construction, no later pin is requested, and the error names the
    /// failing pin. The sixteen acquired lines are assembled by
    /// [`LedMatrix::from_lines`].
    #[verifier::loop_isolation(false)]
    pub fn new(gpio: &rppal::gpio::Gpio, row_pins: &Vec<u8>, col_pins: &Vec<u8>) -> (r: Result<
        LedMatrix,
        LineError,
    >)
        requires
            row_pins@.len() == 8,
            col_pins@.len() == 8,
        ensures
            r matches Ok(m) ==> {
                &&& m.wf()
                &&& forall|i: int| 0 <= i < 8 ==> m.row_levels()[i] == ROW_REST_LEVEL
                &&& forall|i: int| 0 <= i < 8 ==> m.col_levels()[i] == COL_REST_LEVEL
                &&& forall|i: int| 0 <= i < 8 ==> m.row_writes()[i] == seq![ROW_REST_LEVEL]
                &&& forall|i: int| 0 <= i < 8 ==> m.col_writes()[i] == seq![COL_REST_LEVEL]
                &&& m.dwells_held() == 0
            },
            r matches Err(e) ==> (exists|i: int|
                0 <= i < 8 && e.pin == #[trigger] row_pins@[i]) || (exists|i: int|
                0 <= i < 8 && e.pin == #[trigger] col_pins@[i]),
    {
        let mut acquired: Vec<Result<Line, LineError>> = Vec::new();
        for i in 0..8
            invariant
                acquired@.len() == i,
                forall|j: int| 0 <= j < i ==> (#[trigger] acquired@[j]) is Ok,
                forall|j: int|
                    0 <= j < i ==> (#[trigger] acquired@[j])->Ok_0.level() == ROW_REST_LEVEL,
                forall|j: int|
                    0 <= j < i ==> (#[trigger] acquired@[j])->Ok_0.writes() == seq![
                        ROW_REST_LEVEL,
                    ],
        {
            match gpio_get(gpio, row_pins[i]) {
                Ok(pin) => acquired.push(Ok(into_output_low(pin))),
                Err(_) => {
                    // One-shot: the first failure ends construction here,
                    // and no later pin is requested.
                    return Err(LineError { pin: row_pins[i] });
                },
            }
        }
        for i in 0..8
            invariant
                acquired@.len() == 8 + i,
                forall|j: int| 0 <= j < 8 + i ==> (#[trigger] acquired@[j]) is Ok,
                forall|j: int|
                    0 <= j < 8 ==> (#[trigger] acquired@[j])->Ok_0.level() == ROW_REST_LEVEL,
                forall|j: int|
                    0 <= j < 8 ==> (#[trigger] acquired@[j])->Ok_0.writes() == seq![
                        ROW_REST_LEVEL,
                    ],
                forall|j: int|
                    8 <= j < 8 + i ==> (#[trigger] acquired@[j])->Ok_0.level() == COL_REST_LEVEL,
                forall|j: int|
                    8 <= j < 8 + i ==> (#[trigger] acquired@[j])->Ok_0.writes() == seq![
                        COL_REST_LEVEL,
                    ],
        {
            match gpio_get(gpio, col_pins[i]) {
                Ok(pin) => acquired.push(Ok(into_output_high(pin))),
                Err(_) => {
                    return Err(LineError { pin: col_pins[i] });
                },
            }
        }
        let ghost acq = acquired@;
        match LedMatrix::from_lines(acquired) {
            Ok(m) => {
                proof {
                    assert forall|i: int| 0 <= i < 8 implies m.row_levels()[i] == ROW_REST_LEVEL
                        && m.row_writes()[i] == seq![ROW_REST_LEVEL] by {
                        assert(m.row_lines()[i] == acq[i]->Ok_0);
                    }
                    assert forall|i: int| 0 <= i < 8 implies m.col_levels()[i] == COL_REST_LEVEL
                        && m.col_writes()[i] == seq![COL_REST_LEVEL] by {
                        assert(m.col_lines()[i] == acq[i + 8]->Ok_0);
                    }
                }
                Ok(m)
            },
            Err(e) => {
                // Every acquisition above succeeded, so assembly cannot
                // fail: this arm is dead, and the verifier knows it.
                proof {
                    assert(false);
                }
                Err(e)
            },
        }
    }

    /// The logical size of the drawable surface: 8 columns by 8 rows.
    pub fn size(&self) -> (r: (u32, u32))
        ensures
            r.0 == 8,
            r.1 == 8,
    {
        (8, 8)
    }

    /// Flash every visible pixel of `pixels` once, in order: drive its
    /// column and row lines to the energized levels, hold for one dwell
    /// period, restore both to their inactive resting levels and hold for
    /// another. So each visible pixel writes exactly its energize level
    /// and then the resting level to its two addressed lines - four
    /// writes and two dwell periods - while every other line, and every
    /// pixel outside the surface, sees no write and no dwell. The call
    /// never fails, and the wiring - which pin handle drives which line -
    /// is untouched.
    pub fn draw_pixels(&mut self, pixels: &Vec<Pixel>)
        requires
            old(self).wf(),
        ensures
            final(self).wf(),
            final(self).col_levels() == draw_effect_cols(old(self).col_levels(), pixels@),
            final(self).row_levels() == draw_effect_rows(old(self).row_levels(), pixels@),
            final(self).col_writes() == writes_effect_cols(old(self).col_writes(), pixels@),
            final(self).row_writes() == writes_effect_rows(old(self).row_writes(), pixels@),
            final(self).dwells_held() == old(self).dwells_held() + 2 * visible_count(pixels@),
            final(self).row_pin_handles() == old(self).row_pin_handles(),
            final(self).col_pin_handles() == old(self).col_pin_handles(),
    {
        let ghost cols0 = self.col_levels();
        let ghost rows0 = self.row_levels();
        let ghost cw0 = self.col_writes();
        let ghost rw0 = self.row_writes();
        let ghost dwells0 = self.dwells_held();
        let ghost cpins0 = self.col_pin_handles();
        let ghost rpins0 = self.row_pin_handles();
        let n = pixels.len();
        for i in 0..n
            invariant
                self.wf(),
                n == pixels@.len(),
                self.col_levels() == draw_effect_cols(cols0, pixels@.take(i as int)),
                self.row_levels() == draw_effect_rows(rows0, pixels@.take(i as int)),
                self.col_writes() == writes_effect_cols(cw0, pixels@.take(i as int)),
                self.row_writes() == writes_effect_rows(rw0, pixels@.take(i as int)),
                self.dwells_held() == dwells0 + 2 * visible_count(pixels@.take(i as int)),
                self.col_pin_handles() == cpins0,
                self.row_pin_handles() == rpins0,
        {
            let ghost cols_pre = self.col_levels();
            let ghost rows_pre = self.row_levels();
            let ghost cw_pre = self.col_writes();
            let ghost rw_pre = self.row_writes();
            let p = pixels[i];
            if in_bounds(p.x, p.y) {
                let x = p.x as usize;
                let y = p.y as usize;
                // Energized phase: column driven opposite to the logical
                // level, row driven to it; exactly one LED lights up.
                let col_line = &mut self.cols[x];
                write_level(col_line, col_drive(p.on));
                let row_line = &mut self.rows[y];
                write_level(row_line, row_drive(p.on));
                dwell_micros(&mut self.timer, DWELL_MICROS);
                // Restored phase: both lines back to their inactive
                // levels, de-energizing the LED.
                let col_line = &mut self.cols[x];
                write_level(col_line, COL_REST_LEVEL);
                let row_line = &mut self.rows[y];
                write_level(row_line, ROW_REST_LEVEL);
                dwell_micros(&mut self.timer, DWELL_MICROS);
                proof {
                    assert(self.col_levels() =~= cols_pre.update(x as int, COL_REST_LEVEL));
                    assert(self.row_levels() =~= rows_pre.update(y as int, ROW_REST_LEVEL));
                    assert(self.cols@[x as int].writes() =~= cw_pre[x as int] + seq![
                        spec_col_drive(p.on),
                        COL_REST_LEVEL,
                    ]);
                    assert(self.rows@[y as int].writes() =~= rw_pre[y as int] + seq![
                        spec_row_drive(p.on),
                        ROW_REST_LEVEL,
                    ]);
                    assert(self.col_writes() =~= apply_pixel_col_writes(cw_pre, p));
                    assert(self.row_writes() =~= apply_pixel_row_writes(rw_pre, p));
                    assert(self.col_pin_handles() =~= cpins0);
                    assert(self.row_pin_handles() =~= rpins0);
                }
            }
            proof {
                assert(pixels@.take(i + 1) =~= pixels@.take(i as int).push(pixels@[i as int]));
                lemma_draw_effect_cols_snoc(cols0, pixels@.take(i as int), pixels@[i as int]);
                lemma_draw_effect_rows_snoc(rows0, pixels@.take(i as int), pixels@[i as int]);
                lemma_writes_effect_cols_snoc(cw0, pixels@.take(i as int), pixels@[i as int]);
                lemma_writes_effect_rows_snoc(rw0, pixels@.take(i as int), pixels@[i as int]);
                lemma_visible_count_snoc(pixels@.take(i as int), pixels@[i as int]);
            }
        }
        proof {
            assert(pixels@.take(n as int) =~= pixels@);
        }
    }
}

/// Pixels that lie outside the visible surface change no line level: a
/// draw call over a sequence of only such pixels leaves every column and
/// row line exactly where it found it.
pub proof fn lemma_out_of_bounds_unchanged(cols: Seq<bool>, rows: Seq<bool>, ps: Seq<Pixel>)
    requires
        forall|i: int|
            0 <= i < ps.len() ==> !spec_in_bounds(ps[i].x as int, ps[i].y as int),
    ensures
        draw_effect_cols(cols, ps) == cols,
        draw_effect_rows(rows, ps) == rows,
    decreases ps.len(),
{
    if ps.len() > 0 {
        assert(!spec_in_bounds(ps[0].x as int, ps[0].y as int));
        assert(forall|i: int|
            0 <= i < ps.drop_first().len() ==> ps.drop_first()[i] == ps[i + 1]);
        lemma_out_of_bounds_unchanged(cols, rows, ps.drop_first());
    }
}

/// One pixel outside the visible surface contributes nothing to a draw
/// call, wherever it stands in the frame: the line levels after the call
/// are those of the same frame with that pixel left out. Out-of-window
/// pixels are dropped, never an error and never a state change.
pub proof fn lemma_out_of_bounds_pixel_is_dropped(
    cols: Seq<bool>,
    rows: Seq<bool>,
    before: Seq<Pixel>,
    p: Pixel,
    after: Seq<Pixel>,
)
    requires
        !spec_in_bounds(p.x as int, p.y as int),
    ensures
        draw_effect_cols(cols, before + seq![p] + after) == draw_effect_cols(
            cols,
            before + after,
        ),
        draw_effect_rows(rows, before + seq![p] + after) == draw_effect_rows(
            rows,
            before + after,
        ),
    decreases before.len(),
{
    let with_p = before + seq![p] + after;
    let without_p = before + after;
    if before.len() == 0 {
        assert(with_p.first() == p);
        assert(with_p.drop_first() =~= after);
        assert(without_p =~= after);
        assert(apply_pixel_cols(cols, p) == cols);
        assert(apply_pixel_rows(rows, p) == rows);
    } else {
        assert(with_p.first() == before[0]);
        assert(without_p.first() == before[0]);
        assert(with_p.drop_first() =~= before.drop_first() + seq![p] + after);
        assert(without_p.drop_first() =~= before.drop_first() + after);
        lemma_out_of_bounds_pixel_is_dropped(
            apply_pixel_cols(cols, before[0]),
            apply_pixel_rows(rows, before[0]),
            before.drop_first(),
            p,
            after,
        );
    }
}

/// A whole draw call preserves the resting state, whatever the frame
/// holds: when every column line rests high and every row line rests low
/// before the call — their inactive levels — they all do so after it as
/// well. Every flash is transient; only time and light escape a draw.
pub proof fn lemma_frame_preserves_resting_state(cols: Seq<bool>, rows: Seq<bool>, ps: Seq<Pixel>)
    requires
        cols.len() == 8,
        rows.len() == 8,
        forall|i: int| 0 <= i < cols.len() ==> cols[i] == COL_REST_LEVEL,
        forall|i: int| 0 <= i < rows.len() ==> rows[i] == ROW_REST_LEVEL,
    ensures
        draw_effect_cols(cols, ps) == cols,
        draw_effect_rows(rows, ps) == rows,
    decreases ps.len(),
{
    if ps.len() > 0 {
        assert(apply_pixel_cols(cols, ps[0]) =~= cols);
        assert(apply_pixel_rows(rows, ps[0]) =~= rows);
        lemma_frame_preserves_resting_state(cols, rows, ps.drop_first());
    }
}

/// The flash of one visible pixel is transient: after the draw the
/// addressed column line rests high and the addressed row line rests low,
/// which are their inactive levels, and no other line is touched. In
/// particular, when the two lines already rested at the inactive levels,
/// the draw leaves every line exactly as it found it.
pub proof fn lemma_pixel_flash_transient(cols: Seq<bool>, rows: Seq<bool>, p: Pixel)
    requires
        cols.len() == 8,
        rows.len() == 8,
        spec_in_bounds(p.x as int, p.y as int),
    ensures
        draw_effect_cols(cols, seq![p]) == cols.update(p.x as int, COL_REST_LEVEL),
        draw_effect_rows(rows, seq![p]) == rows.update(p.y as int, ROW_REST_LEVEL),
        cols[p.x as int] == COL_REST_LEVEL ==> draw_effect_cols(cols, seq![p]) == cols,
        rows[p.y as int] == ROW_REST_LEVEL ==> draw_effect_rows(rows, seq![p]) == rows,
{
    let s = seq![p];
    assert(s.first() == p);
    assert(s.drop_first() =~= Seq::<Pixel>::empty());
    assert(draw_effect_cols(apply_pixel_cols(cols, p), s.drop_first()) == apply_pixel_cols(
        cols,
        p,
    ));
    assert(draw_effect_rows(apply_pixel_rows(rows, p), s.drop_first()) == apply_pixel_rows(
        rows,
        p,
    ));
    if cols[p.x as int] == COL_REST_LEVEL {
        assert(cols.update(p.x as int, COL_REST_LEVEL) =~= cols);
    }
    if rows[p.y as int] == ROW_REST_LEVEL {
        assert(rows.update(p.y as int, ROW_REST_LEVEL) =~= rows);
    }
}

} // verus!
