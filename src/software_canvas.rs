//! A fixed logical pixel grid drawn onto a physical pixel buffer whose size
//! follows the host window, with nearest-block scaling and a vertical flip.

use vstd::prelude::*;
use crate::line::{
    interpolate_u32, is_steep, line_len, line_point, line_points,
    lemma_line_degenerate, lemma_line_symmetric, stepping_frame, u32_abs_diff,
};
use crate::vec4::Vec4;

verus! {

/// Why a canvas operation failed.
#[derive(Clone, Copy, Debug, PartialEq, Eq, Structural)]
pub enum CanvasError {
    /// No drawing surface could be created for the window.
    GraphicsInit,
    /// The surface could not be brought to the window's size.
    SurfaceResize,
    /// The frame could not be handed to the display.
    Present,
}

/// Whether a buffer of `w` by `h` pixels can be addressed on this machine.
pub open spec fn addressable(w: int, h: int) -> bool {
    w * h <= usize::MAX
}

/// The first physical pixel of logical cell `v` on an axis that maps
/// `logical` cells onto `physical` pixels: `floor(v * physical / logical)`.
pub open spec fn block_start(v: int, logical: int, physical: int) -> int {
    v * physical / logical
}

/// What a canvas is: its logical size, the size of its physical buffer, and
/// the buffer's pixels in row-major order, top row first.
pub struct CanvasView {
    pub canvas_width: int,
    pub canvas_height: int,
    pub surface_width: int,
    pub surface_height: int,
    /// A drawing surface has been bound.
    pub ready: bool,
    /// The buffer is reallocated on every size check, changed or not.
    pub force_resize: bool,
    pub pixels: Seq<u32>,
}

impl CanvasView {
    /// The buffer holds exactly one pixel per physical position.
    pub open spec fn valid(self) -> bool {
        &&& 0 <= self.canvas_width <= u32::MAX
        &&& 0 <= self.canvas_height <= u32::MAX
        &&& 0 <= self.surface_width <= u32::MAX
        &&& 0 <= self.surface_height <= u32::MAX
        &&& self.pixels.len() == self.surface_width * self.surface_height
    }

    /// The physical column of buffer index `i`.
    pub open spec fn column(self, i: int) -> int {
        i % self.surface_width
    }

    /// The physical row of buffer index `i`, counted from the bottom.
    pub open spec fn row_up(self, i: int) -> int {
        self.surface_height - 1 - i / self.surface_width
    }

    /// Whether buffer index `i` lies in the block of logical point `(x, y)`.
    /// Points outside the logical grid have no block.
    pub open spec fn covers(self, x: int, y: int, i: int) -> bool {
        &&& 0 <= x < self.canvas_width
        &&& 0 <= y < self.canvas_height
        &&& block_start(x, self.canvas_width, self.surface_width) <= self.column(i)
        &&& self.column(i) < block_start(x + 1, self.canvas_width, self.surface_width)
        &&& block_start(y, self.canvas_height, self.surface_height) <= self.row_up(i)
        &&& self.row_up(i) < block_start(y + 1, self.canvas_height, self.surface_height)
    }

    /// The canvas with the block of `(x, y)` set to `c`.
    pub open spec fn with_pixel(self, x: int, y: int, c: u32) -> CanvasView {
        CanvasView {
            pixels: Seq::new(
                self.pixels.len(),
                |i: int|
                    if self.covers(x, y, i) {
                        c
                    } else {
                        self.pixels[i]
                    },
            ),
            ..self
        }
    }

    /// Whether index `i` lies in the block of one of the first `count` points
    /// of the segment.
    pub open spec fn line_prefix_covers(
        self,
        x1: int,
        y1: int,
        x2: int,
        y2: int,
        count: int,
        i: int,
    ) -> bool {
        exists|k: int|
            0 <= k < count && self.covers(
                #[trigger] line_point(x1, y1, x2, y2, k).0,
                line_point(x1, y1, x2, y2, k).1,
                i,
            )
    }

    /// The canvas with the blocks of the first `count` points of the segment set to `c`.
    pub open spec fn with_line_prefix(
        self,
        x1: int,
        y1: int,
        x2: int,
        y2: int,
        c: u32,
        count: int,
    ) -> CanvasView {
        CanvasView {
            pixels: Seq::new(
                self.pixels.len(),
                |i: int|
                    if self.line_prefix_covers(x1, y1, x2, y2, count, i) {
                        c
                    } else {
                        self.pixels[i]
                    },
            ),
            ..self
        }
    }

    /// The canvas with the blocks of every point of the segment set to `c`.
    pub open spec fn with_line(self, x1: int, y1: int, x2: int, y2: int, c: u32) -> CanvasView {
        self.with_line_prefix(x1, y1, x2, y2, c, line_len(x1, y1, x2, y2))
    }

    /// The canvas with every pixel of the buffer set to `c`.
    pub open spec fn cleared(self, c: u32) -> CanvasView {
        CanvasView { pixels: Seq::new(self.pixels.len(), |i: int| c), ..self }
    }

    /// Whether a size check against a window of `w` by `h` reallocates the buffer.
    pub open spec fn resize_needed(self, w: int, h: int) -> bool {
        &&& self.ready
        &&& w > 0
        &&& h > 0
        &&& (self.force_resize || w != self.surface_width || h != self.surface_height)
    }

    /// The canvas with a fresh buffer of `w` by `h` pixels, all zero.
    pub open spec fn resized(self, w: int, h: int) -> CanvasView {
        CanvasView {
            surface_width: w,
            surface_height: h,
            pixels: Seq::new((w * h) as nat, |i: int| 0u32),
            ..self
        }
    }

    /// The canvas after a size check against a window of `w` by `h`.
    pub open spec fn after_size_check(self, w: int, h: int) -> CanvasView {
        if self.resize_needed(w, h) {
            self.resized(w, h)
        } else {
            self
        }
    }
}

/// A logical canvas of fixed size bound to a resizable physical buffer.
pub struct SoftwareCanvas {
    canvas_size: (u32, u32),
    window_size: (u32, u32),
    ready: bool,
    force_resize: bool,
    buffer: Vec<u32>,
}

impl View for SoftwareCanvas {
    type V = CanvasView;

    closed spec fn view(&self) -> CanvasView {
        CanvasView {
            canvas_width: self.canvas_size.0 as int,
            canvas_height: self.canvas_size.1 as int,
            surface_width: self.window_size.0 as int,
            surface_height: self.window_size.1 as int,
            ready: self.ready,
            force_resize: self.force_resize,
            pixels: self.buffer@,
        }
    }
}

/// `floor(v * physical / logical)` for `v <= logical`; never past `physical`.
fn block_start_u32(v: u32, logical: u32, physical: u32) -> (s: u32)
    requires
        0 < logical,
        v <= logical,
    ensures
        s as int == block_start(v as int, logical as int, physical as int),
        s <= physical,
{
    assert((v as u64) * (physical as u64) <= (logical as u64) * (physical as u64)) by (nonlinear_arith)
        requires
            v <= logical,
    ;
    assert((logical as u64) * (physical as u64) <= 0xffff_ffffu64 * 0xffff_ffffu64) by (nonlinear_arith)
        requires
            logical <= 0xffff_ffffu64,
            physical <= 0xffff_ffffu64,
    ;
    let n: u64 = (v as u64) * (physical as u64);
    let q: u64 = n / (logical as u64);
    proof {
        vstd::arithmetic::div_mod::lemma_div_is_ordered(
            n as int,
            (logical as int) * (physical as int),
            logical as int,
        );
        vstd::arithmetic::div_mod::lemma_div_multiples_vanish(physical as int, logical as int);
        assert((logical as int) * (physical as int) == (physical as int) * (logical as int)) by (nonlinear_arith);
    }
    q as u32
}

/// Consecutive logical cells start at growing physical pixels.
proof fn lemma_block_start_monotonic(v: int, logical: int, physical: int)
    requires
        0 <= v,
        0 < logical,
        0 <= physical,
    ensures
        block_start(v, logical, physical) <= block_start(v + 1, logical, physical),
{
    assert(v * physical <= (v + 1) * physical) by (nonlinear_arith)
        requires
            0 <= physical,
    ;
    vstd::arithmetic::div_mod::lemma_div_is_ordered(v * physical, (v + 1) * physical, logical);
}

/// A buffer of `len` zero pixels.
fn zeroed_buffer(len: usize) -> (v: Vec<u32>)
    ensures
        v@ == Seq::new(len as nat, |i: int| 0u32),
{
    let mut v: Vec<u32> = Vec::with_capacity(len);
    let mut n: usize = 0;
    while n < len
        invariant
            n <= len,
            v@ == Seq::new(n as nat, |i: int| 0u32),
        decreases len - n,
    {
        v.push(0);
        n += 1;
    }
    v
}

impl SoftwareCanvas {
    /// A canvas of `width` by `height` logical pixels, with no surface yet.
    pub fn new(width: u32, height: u32) -> (c: Self)
        ensures
            c@ == (CanvasView {
                canvas_width: width as int,
                canvas_height: height as int,
                surface_width: 0,
                surface_height: 0,
                ready: false,
                force_resize: false,
                pixels: Seq::empty(),
            }),
            c@.valid(),
    {
        SoftwareCanvas {
            canvas_size: (width, height),
            window_size: (0, 0),
            ready: false,
            force_resize: false,
            buffer: Vec::new(),
        }
    }

    pub fn width(&self) -> (w: u32)
        ensures
            w as int == self@.canvas_width,
    {
        self.canvas_size.0
    }

    pub fn height(&self) -> (h: u32)
        ensures
            h as int == self@.canvas_height,
    {
        self.canvas_size.1
    }

    /// The width of the physical buffer.
    pub fn surface_width(&self) -> (w: u32)
        ensures
            w as int == self@.surface_width,
    {
        self.window_size.0
    }

    /// The height of the physical buffer.
    pub fn surface_height(&self) -> (h: u32)
        ensures
            h as int == self@.surface_height,
    {
        self.window_size.1
    }

    /// The physical buffer, row-major, top row first.
    pub fn pixels(&self) -> (p: &Vec<u32>)
        ensures
            p@ == self@.pixels,
    {
        &self.buffer
    }

    /// Whether the buffer is reallocated on every size check.
    pub fn force_resize(&self) -> (f: bool)
        ensures
            f == self@.force_resize,
    {
        self.force_resize
    }

    /// Sets the policy of reallocating on every size check, for platforms
    /// whose surfaces need it.
    pub fn set_force_resize(&mut self, force: bool)
        requires
            old(self)@.valid(),
        ensures
            final(self)@ == (CanvasView { force_resize: force, ..old(self)@ }),
            final(self)@.valid(),
    {
        self.force_resize = force;
    }

    /// Reallocates the buffer to `w` by `h` zero pixels, or fails where
    /// such a buffer cannot be addressed, leaving the canvas as it was.
    fn reallocate(&mut self, w: u32, h: u32) -> (r: Result<(), CanvasError>)
        requires
            old(self)@.valid(),
        ensures
            r is Ok <==> addressable(w as int, h as int),
            r is Err ==> r == Err::<(), CanvasError>(CanvasError::SurfaceResize),
            final(self)@ == (if r is Ok {
                old(self)@.resized(w as int, h as int)
            } else {
                old(self)@
            }),
            final(self)@.valid(),
    {
        assert((w as int) * (h as int) <= 0xffff_ffff * 0xffff_ffff) by (nonlinear_arith)
            requires
                w <= 0xffff_ffffu32,
                h <= 0xffff_ffffu32,
        ;
        let len: u64 = (w as u64) * (h as u64);
        if len > usize::MAX as u64 {
            return Err(CanvasError::SurfaceResize);
        }
        self.buffer = zeroed_buffer(len as usize);
        self.window_size = (w, h);
        Ok(())
    }

    /// Binds the canvas to a freshly acquired drawing surface. A window that
    /// already reports a non-zero size has the buffer sized to match at once.
    /// Returns whether the buffer was sized; fails where a buffer of the
    /// window's size cannot be addressed.
    pub fn initialize_graphics(&mut self, window_width: u32, window_height: u32) -> (r: Result<bool, CanvasError>)
        requires
            old(self)@.valid(),
        ensures
            ({
                let bound = CanvasView { ready: true, ..old(self)@ };
                let sized = window_width > 0 && window_height > 0;
                if sized && !addressable(window_width as int, window_height as int) {
                    r == Err::<bool, CanvasError>(CanvasError::SurfaceResize) && final(self)@ == bound
                } else if sized {
                    r == Ok::<bool, CanvasError>(true)
                        && final(self)@ == bound.resized(window_width as int, window_height as int)
                } else {
                    r == Ok::<bool, CanvasError>(false) && final(self)@ == bound
                }
            }),
            final(self)@.valid(),
    {
        self.ready = true;
        if window_width > 0 && window_height > 0 {
            match self.reallocate(window_width, window_height) {
                Ok(()) => Ok(true),
                Err(e) => Err(e),
            }
        } else {
            Ok(false)
        }
    }

    /// Brings the buffer to the window's current size. A bound canvas
    /// reallocates when the size differs from the buffer's, or always under
    /// the force-resize policy; a zero width or height is ignored. Returns
    /// whether the buffer was reallocated; fails, changing nothing, where a
    /// buffer of that size cannot be addressed.
    pub fn ensure_surface_size(&mut self, window_width: u32, window_height: u32) -> (r: Result<bool, CanvasError>)
        requires
            old(self)@.valid(),
        ensures
            ({
                let needed = old(self)@.resize_needed(window_width as int, window_height as int);
                if needed && !addressable(window_width as int, window_height as int) {
                    r == Err::<bool, CanvasError>(CanvasError::SurfaceResize) && final(self)@ == old(self)@
                } else {
                    r == Ok::<bool, CanvasError>(needed)
                        && final(self)@ == old(self)@.after_size_check(window_width as int, window_height as int)
                }
            }),
            final(self)@.valid(),
    {
        if self.ready && window_width > 0 && window_height > 0 && (self.force_resize
            || window_width != self.window_size.0 || window_height != self.window_size.1) {
            match self.reallocate(window_width, window_height) {
                Ok(()) => Ok(true),
                Err(e) => Err(e),
            }
        } else {
            Ok(false)
        }
    }

    /// Sets the block of physical pixels of logical point `(x, y)` to
    /// `color`, rows flipped so that growing `y` goes up the screen. A point
    /// outside the logical grid changes nothing.
    pub fn set_pixel(&mut self, x: u32, y: u32, color: Vec4)
        requires
            old(self)@.valid(),
        ensures
            final(self)@ == old(self)@.with_pixel(x as int, y as int, color.packed() as u32),
            final(self)@.valid(),
    {
        let ghost start = self@;
        let argb = color.to_argb();
        if x >= self.canvas_size.0 || y >= self.canvas_size.1 {
            assert(self@.pixels =~= start.with_pixel(x as int, y as int, argb).pixels);
            return;
        }
        let (cw, ch) = self.canvas_size;
        let (pw, ph) = self.window_size;
        let start_x = block_start_u32(x, cw, pw);
        let end_x = block_start_u32(x + 1, cw, pw);
        let start_y = block_start_u32(y, ch, ph);
        let end_y = block_start_u32(y + 1, ch, ph);
        proof {
            lemma_block_start_monotonic(x as int, cw as int, pw as int);
            lemma_block_start_monotonic(y as int, ch as int, ph as int);
        }
        let mut sy: u32 = start_y;
        while sy < end_y
            invariant
                start == old(self)@,
                start.valid(),
                x < cw,
                y < ch,
                cw as int == start.canvas_width,
                ch as int == start.canvas_height,
                pw as int == start.surface_width,
                ph as int == start.surface_height,
                start_x as int == block_start(x as int, cw as int, pw as int),
                end_x as int == block_start(x + 1, cw as int, pw as int),
                start_y as int == block_start(y as int, ch as int, ph as int),
                end_y as int == block_start(y + 1, ch as int, ph as int),
                start_x <= end_x <= pw,
                start_y <= sy <= end_y <= ph,
                self@ == (CanvasView { pixels: self@.pixels, ..start }),
                self@.valid(),
                forall|j: int|
                    0 <= j < self.buffer@.len() ==> #[trigger] self.buffer@[j] == if start_y <= start.row_up(j)
                        < sy && start_x <= start.column(j) < end_x {
                        argb
                    } else {
                        start.pixels[j]
                    },
            decreases end_y - sy,
        {
            let real_y: u32 = ph - 1 - sy;
            let mut sx: u32 = start_x;
            while sx < end_x
                invariant
                    start == old(self)@,
                    start.valid(),
                    pw as int == start.surface_width,
                    ph as int == start.surface_height,
                    start_x <= sx <= end_x <= pw,
                    start_y <= sy < end_y <= ph,
                    real_y == ph - 1 - sy,
                    self@ == (CanvasView { pixels: self@.pixels, ..start }),
                    self@.valid(),
                    forall|j: int|
                        0 <= j < self.buffer@.len() ==> #[trigger] self.buffer@[j] == if (start_y
                            <= start.row_up(j) < sy && start_x <= start.column(j) < end_x) || (
                        start.row_up(j) == sy && start_x <= start.column(j) < sx) {
                            argb
                        } else {
                            start.pixels[j]
                        },
                decreases end_x - sx,
            {
                assert((real_y as int) * (pw as int) + (sx as int) < (pw as int) * (ph as int)) by (nonlinear_arith)
                    requires
                        real_y < ph,
                        sx < pw,
                ;
                let blen: usize = self.buffer.len();
                assert((real_y as int) * (pw as int) + (sx as int) < blen);
                let index: u64 = (real_y as u64) * (pw as u64) + sx as u64;
                let ghost before = self.buffer@;
                self.buffer.set(index as usize, argb);
                proof {
                    vstd::arithmetic::div_mod::lemma_fundamental_div_mod_converse(
                        index as int,
                        pw as int,
                        real_y as int,
                        sx as int,
                    );
                    assert forall|j: int| 0 <= j < self.buffer@.len() implies #[trigger] self.buffer@[j]
                        == if (start_y <= start.row_up(j) < sy && start_x <= start.column(j) < end_x)
                        || (start.row_up(j) == sy && start_x <= start.column(j) < sx + 1) {
                        argb
                    } else {
                        start.pixels[j]
                    } by {
                        if j != index {
                            vstd::arithmetic::div_mod::lemma_fundamental_div_mod(j, pw as int);
                            assert(before[j] == self.buffer@[j]);
                            if start.row_up(j) == sy && start.column(j) == sx {
                                assert(j / (pw as int) == real_y);
                                assert(j == (pw as int) * (real_y as int) + sx);
                                assert((pw as int) * (real_y as int) == (real_y as int) * (pw as int)) by (nonlinear_arith);
                                assert(false);
                            }
                        } else {
                            assert(index as int / (pw as int) == real_y);
                            assert(index as int % (pw as int) == sx);
                            assert(start.row_up(j) == sy);
                        }
                    }
                }
                sx += 1;
            }
            sy += 1;
        }
        assert(self@.pixels =~= start.with_pixel(x as int, y as int, argb).pixels);
    }

    /// Draws the segment from `(x1, y1)` to `(x2, y2)`: one block per step
    /// along its longer axis, from the lower end to the higher, the other
    /// coordinate rounded from the straight line between the endpoints.
    pub fn draw_line(&mut self, x1: u32, y1: u32, x2: u32, y2: u32, color: Vec4)
        requires
            old(self)@.valid(),
        ensures
            final(self)@ == old(self)@.with_line(
                x1 as int,
                y1 as int,
                x2 as int,
                y2 as int,
                color.packed() as u32,
            ),
            final(self)@.valid(),
    {
        let ghost start = self@;
        let ghost c = color.packed() as u32;
        let steep = u32_abs_diff(x1, x2) < u32_abs_diff(y1, y2);
        let (a1, b1, a2, b2) = if steep {
            (y1, x1, y2, x2)
        } else {
            (x1, y1, x2, y2)
        };
        let (sa, sb, ea, eb) = if a1 > a2 {
            (a2, b2, a1, b1)
        } else {
            (a1, b1, a2, b2)
        };
        assert((sa as int, sb as int, ea as int, eb as int) == stepping_frame(
            x1 as int,
            y1 as int,
            x2 as int,
            y2 as int,
        ));
        assert(self@.pixels =~= start.with_line_prefix(
            x1 as int,
            y1 as int,
            x2 as int,
            y2 as int,
            c,
            0,
        ).pixels);
        let steps: u64 = (ea - sa) as u64 + 1;
        let mut k: u64 = 0;
        while k < steps
            invariant
                start == old(self)@,
                start.valid(),
                c == color.packed() as u32,
                steep == is_steep(x1 as int, y1 as int, x2 as int, y2 as int),
                (sa as int, sb as int, ea as int, eb as int) == stepping_frame(
                    x1 as int,
                    y1 as int,
                    x2 as int,
                    y2 as int,
                ),
                sa <= ea,
                steps == ea - sa + 1,
                k <= steps,
                self@ == start.with_line_prefix(x1 as int, y1 as int, x2 as int, y2 as int, c, k as int),
            decreases steps - k,
        {
            let m: u32 = sa + k as u32;
            let n = interpolate_u32(sa, sb, ea, eb, m);
            proof {
                lemma_line_prefix_step(start, x1 as int, y1 as int, x2 as int, y2 as int, c, k as int);
            }
            if steep {
                self.set_pixel(n, m, color);
            } else {
                self.set_pixel(m, n, color);
            }
            k += 1;
        }
    }

    /// Draws the demonstration scene on a black background: the edges of the
    /// triangle (7, 3), (12, 37), (62, 53) in blue, green and red, and a
    /// spoke in yellow from the interior point (27, 31) to the last corner.
    pub fn render_frame(&mut self)
        requires
            old(self)@.valid(),
        ensures
            final(self)@ == old(self)@.cleared(Vec4::black().packed() as u32).with_line(
                7,
                3,
                12,
                37,
                Vec4::blue().packed() as u32,
            ).with_line(12, 37, 62, 53, Vec4::green().packed() as u32).with_line(
                62,
                53,
                7,
                3,
                Vec4::red().packed() as u32,
            ).with_line(27, 31, 62, 53, Vec4::yellow().packed() as u32),
            final(self)@.valid(),
    {
        self.clear(Vec4::black());
        let (ax, ay): (u32, u32) = (7, 3);
        let (bx, by): (u32, u32) = (12, 37);
        let (cx, cy): (u32, u32) = (62, 53);
        let (dx, dy): (u32, u32) = (27, 31);
        self.draw_line(ax, ay, bx, by, Vec4::blue());
        self.draw_line(bx, by, cx, cy, Vec4::green());
        self.draw_line(cx, cy, ax, ay, Vec4::red());
        self.draw_line(dx, dy, cx, cy, Vec4::yellow());
    }

    /// Sets every pixel of the buffer to `color`.
    pub fn clear(&mut self, color: Vec4)
        requires
            old(self)@.valid(),
        ensures
            final(self)@ == old(self)@.cleared(color.packed() as u32),
            final(self)@.valid(),
    {
        let argb = color.to_argb();
        let ghost start = self@;
        let mut i: usize = 0;
        while i < self.buffer.len()
            invariant
                i <= self.buffer@.len() == start.pixels.len(),
                self@.valid(),
                self@ == (CanvasView { pixels: self@.pixels, ..start }),
                forall|j: int| 0 <= j < i ==> #[trigger] self.buffer@[j] == argb,
                forall|j: int| i <= j < self.buffer@.len() ==> #[trigger] self.buffer@[j] == start.pixels[j],
            decreases self.buffer@.len() - i,
        {
            self.buffer.set(i, argb);
            i += 1;
        }
        assert(self@.pixels =~= start.cleared(argb).pixels);
    }
}

/// Adding the next point of a segment to a drawn prefix sets that point's block.
proof fn lemma_line_prefix_step(v: CanvasView, x1: int, y1: int, x2: int, y2: int, c: u32, count: int)
    requires
        0 <= count,
    ensures
        v.with_line_prefix(x1, y1, x2, y2, c, count).with_pixel(
            line_point(x1, y1, x2, y2, count).0,
            line_point(x1, y1, x2, y2, count).1,
            c,
        ) == v.with_line_prefix(x1, y1, x2, y2, c, count + 1),
{
    let p = line_point(x1, y1, x2, y2, count);
    let a = v.with_line_prefix(x1, y1, x2, y2, c, count).with_pixel(p.0, p.1, c);
    let b = v.with_line_prefix(x1, y1, x2, y2, c, count + 1);
    assert forall|i: int| 0 <= i < v.pixels.len() implies a.pixels[i] == b.pixels[i] by {
        if v.covers(p.0, p.1, i) {
            assert(v.line_prefix_covers(x1, y1, x2, y2, count + 1, i));
        } else if v.line_prefix_covers(x1, y1, x2, y2, count, i) {
            let k = choose|k: int|
                0 <= k < count && v.covers(
                    #[trigger] line_point(x1, y1, x2, y2, k).0,
                    line_point(x1, y1, x2, y2, k).1,
                    i,
                );
            assert(v.line_prefix_covers(x1, y1, x2, y2, count + 1, i));
        } else if v.line_prefix_covers(x1, y1, x2, y2, count + 1, i) {
            let k = choose|k: int|
                0 <= k < count + 1 && v.covers(
                    #[trigger] line_point(x1, y1, x2, y2, k).0,
                    line_point(x1, y1, x2, y2, k).1,
                    i,
                );
            assert(k != count);
            assert(v.line_prefix_covers(x1, y1, x2, y2, count, i));
        }
    }
    assert(a.pixels =~= b.pixels);
}

/// On a physical buffer at least as large as the logical grid, the block of
/// an in-range point is a non-empty rectangle inside the buffer, and setting
/// it leaves every other pixel as it was.
pub proof fn lemma_set_pixel_block(v: CanvasView, x: int, y: int, c: u32)
    requires
        v.valid(),
        v.canvas_width <= v.surface_width,
        v.canvas_height <= v.surface_height,
        0 <= x < v.canvas_width,
        0 <= y < v.canvas_height,
    ensures
        block_start(x, v.canvas_width, v.surface_width) < block_start(x + 1, v.canvas_width, v.surface_width)
            <= v.surface_width,
        block_start(y, v.canvas_height, v.surface_height) < block_start(y + 1, v.canvas_height, v.surface_height)
            <= v.surface_height,
        exists|i: int| 0 <= i < v.pixels.len() && #[trigger] v.covers(x, y, i),
        forall|i: int|
            0 <= i < v.pixels.len() ==> #[trigger] v.with_pixel(x, y, c).pixels[i] == if v.covers(x, y, i) {
                c
            } else {
                v.pixels[i]
            },
{
    lemma_block_widens(x, v.canvas_width, v.surface_width);
    lemma_block_widens(y, v.canvas_height, v.surface_height);
    let col = block_start(x, v.canvas_width, v.surface_width);
    let row = v.surface_height - 1 - block_start(y, v.canvas_height, v.surface_height);
    let i = row * v.surface_width + col;
    assert(i < v.pixels.len()) by (nonlinear_arith)
        requires
            0 <= row < v.surface_height,
            0 <= col < v.surface_width,
            i == row * v.surface_width + col,
            v.pixels.len() == v.surface_width * v.surface_height,
    ;
    assert(0 <= i) by (nonlinear_arith)
        requires
            0 <= row,
            0 <= col,
            0 <= v.surface_width,
            i == row * v.surface_width + col,
    ;
    vstd::arithmetic::div_mod::lemma_fundamental_div_mod_converse(i, v.surface_width, row, col);
    assert(v.covers(x, y, i));
}

/// For `v < logical <= physical`, cell `v` spans at least one physical pixel
/// and ends inside the axis.
proof fn lemma_block_widens(v: int, logical: int, physical: int)
    requires
        0 <= v < logical,
        logical <= physical,
    ensures
        block_start(v, logical, physical) < block_start(v + 1, logical, physical) <= physical,
{
    let a = v * physical;
    let b = (v + 1) * physical;
    assert(b == a + physical) by (nonlinear_arith)
        requires
            a == v * physical,
            b == (v + 1) * physical,
    ;
    assert(a + logical <= b);
    vstd::arithmetic::div_mod::lemma_div_is_ordered(a + logical, b, logical);
    vstd::arithmetic::div_mod::lemma_fundamental_div_mod(a, logical);
    let q = a / logical;
    assert((q + 1) * logical == logical * q + logical) by (nonlinear_arith);
    vstd::arithmetic::div_mod::lemma_fundamental_div_mod_converse(
        a + logical,
        logical,
        a / logical + 1,
        a % logical,
    );
    assert(b <= logical * physical) by (nonlinear_arith)
        requires
            v + 1 <= logical,
            0 <= physical,
            b == (v + 1) * physical,
    ;
    vstd::arithmetic::div_mod::lemma_div_is_ordered(b, logical * physical, logical);
    vstd::arithmetic::div_mod::lemma_div_multiples_vanish(physical, logical);
}

/// A point outside the logical grid has no block: setting it changes nothing.
pub proof fn lemma_set_pixel_out_of_range(v: CanvasView, x: int, y: int, c: u32)
    requires
        v.valid(),
        x >= v.canvas_width || y >= v.canvas_height,
    ensures
        v.with_pixel(x, y, c) == v,
{
    assert(v.with_pixel(x, y, c).pixels =~= v.pixels);
}

/// A segment whose endpoints coincide sets exactly the block of that point.
pub proof fn lemma_draw_line_degenerate(v: CanvasView, x: int, y: int, c: u32)
    ensures
        v.with_line(x, y, x, y, c) == v.with_pixel(x, y, c),
{
    lemma_line_degenerate(x, y);
    lemma_line_prefix_step(v, x, y, x, y, c, 0);
    assert(v.with_line_prefix(x, y, x, y, c, 0).pixels =~= v.pixels);
    assert(v.with_line_prefix(x, y, x, y, c, 0) == v);
}

/// Drawing a segment and drawing its reverse set the same pixels.
pub proof fn lemma_draw_line_symmetric(v: CanvasView, x1: int, y1: int, x2: int, y2: int, c: u32)
    ensures
        v.with_line(x1, y1, x2, y2, c) == v.with_line(x2, y2, x1, y1, c),
        line_points(x1, y1, x2, y2) == line_points(x2, y2, x1, y1),
{
    lemma_line_symmetric(x1, y1, x2, y2);
    let n = line_len(x1, y1, x2, y2);
    assert forall|i: int|
        v.line_prefix_covers(x1, y1, x2, y2, n, i) == v.line_prefix_covers(x2, y2, x1, y1, n, i) by {
        if v.line_prefix_covers(x1, y1, x2, y2, n, i) {
            let k = choose|k: int|
                0 <= k < n && v.covers(
                    #[trigger] line_point(x1, y1, x2, y2, k).0,
                    line_point(x1, y1, x2, y2, k).1,
                    i,
                );
            assert(line_point(x2, y2, x1, y1, k) == line_point(x1, y1, x2, y2, k));
        }
        if v.line_prefix_covers(x2, y2, x1, y1, n, i) {
            let k = choose|k: int|
                0 <= k < n && v.covers(
                    #[trigger] line_point(x2, y2, x1, y1, k).0,
                    line_point(x2, y2, x1, y1, k).1,
                    i,
                );
            assert(line_point(x2, y2, x1, y1, k) == line_point(x1, y1, x2, y2, k));
        }
    }
    assert(v.with_line(x1, y1, x2, y2, c).pixels =~= v.with_line(x2, y2, x1, y1, c).pixels);
}

/// Without the force-resize policy, a second size check against the same
/// window size reallocates nothing and changes nothing.
pub proof fn lemma_size_check_idempotent(v: CanvasView, w: int, h: int)
    requires
        v.valid(),
        !v.force_resize,
    ensures
        !v.after_size_check(w, h).resize_needed(w, h),
        v.after_size_check(w, h).after_size_check(w, h) == v.after_size_check(w, h),
{
}

} // verus!
