//! The scroll animator: a rendered text run, its bounding-box width, and
//! the current horizontal scroll offset.
//!
//! Each frame tick moves the text one column to the left; the offset wraps
//! modulo the run's width, so the animation has period `width`. The matrix
//! itself is redrawn continuously, as fast as the dwell times of the draw
//! operation allow: the refresh rate is decoupled from the scroll rate,
//! and the offset changes only when ticks arrive.

use vstd::prelude::*;

use vstd::arithmetic::div_mod::{
    lemma_add_mod_noop, lemma_mod_add_multiples_vanish, lemma_mod_sub_multiples_vanish,
    lemma_small_mod,
};

use crate::hw::try_recv_tick;
use crate::matrix::{
    draw_effect_cols, draw_effect_rows, visible_count, writes_effect_cols, writes_effect_rows,
    LedMatrix,
};
use crate::pixel::Pixel;

verus! {

/// Largest bounding-box width the animator accepts. Keeping the width
/// within the positive range of `i32` keeps every translated x coordinate
/// within `i32` as well.
pub const MAX_TEXT_WIDTH: u32 = 0x7fff_ffff;

/// The pixel set of a text run translated `off` columns to the left:
/// every pixel keeps its row and level and moves from x to x - off.
pub open spec fn translate_seq(ps: Seq<Pixel>, off: int) -> Seq<Pixel> {
    ps.map_values(|p: Pixel| Pixel { x: (p.x - off) as i32, y: p.y, on: p.on })
}

/// Bounding-box width of a monospace text run: `chars` glyphs of width
/// `glyph`, with `gap` blank columns between neighbouring glyphs.
pub open spec fn spec_text_run_width(chars: int, glyph: int, gap: int) -> int {
    if chars == 0 {
        0
    } else {
        chars * glyph + (chars - 1) * gap
    }
}

/// The bounding-box width of a run of `chars` monospace glyphs of width
/// `glyph` separated by `gap` blank columns, as the rasterizer reports it.
pub fn text_run_width(chars: u32, glyph: u32, gap: u32) -> (w: u32)
    requires
        spec_text_run_width(chars as int, glyph as int, gap as int) <= u32::MAX,
    ensures
        w as int == spec_text_run_width(chars as int, glyph as int, gap as int),
{
    if chars == 0 {
        0
    } else {
        proof {
            assert(chars as int * glyph as int >= 0) by (nonlinear_arith);
            assert((chars as int - 1) * gap as int >= 0) by (nonlinear_arith)
                requires
                    chars as int >= 1,
            ;
        }
        let total: u64 = (chars as u64) * (glyph as u64) + ((chars - 1) as u64) * (gap as u64);
        total as u32
    }
}

/// The scroll state: the rendered text run at translation zero, its
/// bounding-box width, and the current offset, always in [0, width).
pub struct Animator {
    pub pixels: Vec<Pixel>,
    pub width: u32,
    pub offset: u32,
}

impl Animator {
    /// A positive width within [`MAX_TEXT_WIDTH`], the offset wrapped
    /// below it, and no pixel of the run left of column zero.
    pub open spec fn wf(self) -> bool {
        &&& 0 < self.width <= MAX_TEXT_WIDTH
        &&& self.offset < self.width
        &&& forall|i: int| 0 <= i < self.pixels@.len() ==> 0 <= (#[trigger] self.pixels@[i]).x
    }

    /// The offset after `n` further ticks: one column per tick, wrapped
    /// modulo the width of the run.
    pub open spec fn spec_advanced(self, n: int) -> int {
        (self.offset + n) % (self.width as int)
    }

    /// The pixel set submitted to the surface at the current offset.
    pub open spec fn rendered(self) -> Seq<Pixel> {
        translate_seq(self.pixels@, self.offset as int)
    }

    /// A fresh animator over the rendered run `pixels` of bounding-box
    /// width `width`, starting at offset zero.
    pub fn new(pixels: Vec<Pixel>, width: u32) -> (a: Animator)
        requires
            0 < width <= MAX_TEXT_WIDTH,
            forall|i: int| 0 <= i < pixels@.len() ==> 0 <= (#[trigger] pixels@[i]).x,
        ensures
            a.wf(),
            a.pixels@ == pixels@,
            a.width == width,
            a.offset == 0,
    {
        Animator { pixels, width, offset: 0 }
    }

    /// The offset the next frame is rendered at; equal to the tick count
    /// so far reduced modulo the width of the run.
    pub fn effective_offset(&self) -> (r: u32)
        requires
            self.wf(),
        ensures
            r == self.offset,
            r < self.width,
    {
        self.offset
    }

    /// Advance the scroll by `n` ticks: the offset grows by exactly `n`,
    /// wrapped modulo the width of the run, never more and never fewer,
    /// however the `n` ticks were batched. The run itself is untouched.
    pub fn advance_ticks(&mut self, n: usize)
        requires
            old(self).wf(),
        ensures
            final(self).wf(),
            final(self).pixels@ == old(self).pixels@,
            final(self).width == old(self).width,
            final(self).offset == old(self).spec_advanced(n as int),
    {
        let w = self.width;
        let r = (n % (w as usize)) as u32;
        let s = self.offset + r;
        proof {
            let o = self.offset as int;
            let wi = w as int;
            lemma_add_mod_noop(o, n as int, wi);
            lemma_small_mod(self.offset as nat, w as nat);
            lemma_small_mod((n as usize % w as usize) as nat, w as nat);
            if s >= w {
                lemma_mod_sub_multiples_vanish(o + r, wi);
                lemma_small_mod((s - w) as nat, w as nat);
            } else {
                lemma_small_mod(s as nat, w as nat);
            }
        }
        if s >= w {
            self.offset = s - w;
        } else {
            self.offset = s;
        }
    }

    /// The pixel set of the run translated to the current offset: each
    /// pixel moves `offset` columns to the left. Pixels pushed out of the
    /// visible window stay in the set; the draw operation drops them.
    #[verifier::loop_isolation(false)]
    pub fn rendered_pixels(&self) -> (frame: Vec<Pixel>)
        requires
            self.wf(),
        ensures
            frame@ == self.rendered(),
    {
        let mut frame: Vec<Pixel> = Vec::new();
        let off = self.offset as i32;
        let n = self.pixels.len();
        for i in 0..n
            invariant
                frame@.len() == i,
                forall|j: int| 0 <= j < i ==> frame@[j] == self.rendered()[j],
        {
            let p = self.pixels[i];
            frame.push(Pixel { x: p.x - off, y: p.y, on: p.on });
        }
        proof {
            assert(frame@ =~= self.rendered());
        }
        frame
    }

    /// One iteration of the render loop: drain every pending tick without
    /// blocking, advance the offset by their number, and flash the
    /// translated run onto the surface. The returned count is the number
    /// of ticks observed; the offset advances by exactly that count,
    /// wrapped modulo the width, and the surface sees the pixel set of the
    /// new offset with its wiring untouched.
    pub fn run_frame(
        &mut self,
        rx: &std::sync::mpsc::Receiver<()>,
        display: &mut LedMatrix,
    ) -> (ticks: usize)
        requires
            old(self).wf(),
            old(display).wf(),
        ensures
            final(self).wf(),
            final(display).wf(),
            final(self).pixels@ == old(self).pixels@,
            final(self).width == old(self).width,
            final(self).offset == old(self).spec_advanced(ticks as int),
            final(display).col_levels() == draw_effect_cols(
                old(display).col_levels(),
                final(self).rendered(),
            ),
            final(display).row_levels() == draw_effect_rows(
                old(display).row_levels(),
                final(self).rendered(),
            ),
            final(display).col_writes() == writes_effect_cols(
                old(display).col_writes(),
                final(self).rendered(),
            ),
            final(display).row_writes() == writes_effect_rows(
                old(display).row_writes(),
                final(self).rendered(),
            ),
            final(display).dwells_held() == old(display).dwells_held() + 2 * visible_count(
                final(self).rendered(),
            ),
            final(display).row_pin_handles() == old(display).row_pin_handles(),
            final(display).col_pin_handles() == old(display).col_pin_handles(),
    {
        let ticks = drain_ticks(rx);
        self.advance_ticks(ticks);
        let frame = self.rendered_pixels();
        display.draw_pixels(&frame);
        ticks
    }

}

/// Drain every pending frame tick without ever blocking and return how
/// many were pending. How many that is depends on the sending thread, so
/// nothing can be promised of the count; whatever it is, the animator
/// advances by exactly that number.
pub fn drain_ticks(rx: &std::sync::mpsc::Receiver<()>) -> usize {
    let mut count: usize = 0;
    while count < usize::MAX
        invariant
            true,
        decreases usize::MAX - count,
    {
        match try_recv_tick(rx) {
            Ok(_) => {
                count = count + 1;
            },
            Err(_) => {
                return count;
            },
        }
    }
    count
}

/// Advancing by exactly the width of the run is a no-op on the offset,
/// and therefore on the rendered pixel set: the scroll cycle has period
/// `width`.
pub proof fn lemma_full_cycle_is_identity(a: Animator)
    requires
        a.wf(),
    ensures
        a.spec_advanced(a.width as int) == a.offset as int,
        translate_seq(a.pixels@, a.spec_advanced(a.width as int)) == a.rendered(),
{
    lemma_mod_add_multiples_vanish(a.offset as int, a.width as int);
    lemma_small_mod(a.offset as nat, a.width as nat);
}

/// With no ticks pending between two redraw iterations the offset is
/// unchanged, so the pixel set submitted to the surface is identical in
/// both iterations.
pub proof fn lemma_zero_ticks_same_frame(a: Animator)
    requires
        a.wf(),
    ensures
        a.spec_advanced(0) == a.offset as int,
        translate_seq(a.pixels@, a.spec_advanced(0)) == a.rendered(),
{
    lemma_small_mod(a.offset as nat, a.width as nat);
}

} // verus!
