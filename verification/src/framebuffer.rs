//! The pixel buffer that a frame is painted into.

use vstd::prelude::*;
use crate::color::Color;

verus! {

/// A rectangle of pixels with a pen colour and a background colour.
///
/// Pixels are stored row by row; the buffer always holds exactly
/// `width * height` of them.
pub struct Framebuffer {
    width: u32,
    height: u32,
    pixels: Vec<Color>,
    background_color: Color,
    current_color: Color,
}

/// What a framebuffer is to the contracts.
pub struct FrameView {
    pub width: nat,
    pub height: nat,
    /// Row-major pixels, `width * height` of them.
    pub pixels: Seq<Color>,
    pub background: Color,
    pub current: Color,
}

impl FrameView {
    /// Whether `(x, y)` names a pixel of the buffer.
    pub open spec fn holds(self, x: int, y: int) -> bool {
        0 <= x < self.width && 0 <= y < self.height
    }

    /// The colour of the pixel at column `x`, row `y`.
    pub open spec fn at(self, x: int, y: int) -> Color {
        self.pixels[y * self.width + x]
    }

    pub open spec fn wf(self) -> bool {
        self.pixels.len() == self.width * self.height
    }

    /// The same buffer with the pixel at `(x, y)` painted `color`; unchanged
    /// if there is no such pixel.
    pub open spec fn put(self, x: int, y: int, color: Color) -> FrameView {
        if self.holds(x, y) {
            FrameView { pixels: self.pixels.update(y * self.width + x, color), ..self }
        } else {
            self
        }
    }

    /// Whether `(px, py)` lies in the rectangle with corner `(x, y)`, `w`
    /// columns wide and `h` rows high.
    pub open spec fn in_rect(px: int, py: int, x: int, y: int, w: int, h: int) -> bool {
        x <= px < x + w && y <= py < y + h
    }

    /// The same buffer with every pixel of the rectangle painted in the pen
    /// colour. The part of the rectangle outside the buffer is ignored.
    pub open spec fn fill(self, x: int, y: int, w: int, h: int) -> FrameView {
        FrameView {
            pixels: Seq::new(
                self.pixels.len(),
                |i: int|
                    if self.width > 0 && Self::in_rect(
                        i % (self.width as int),
                        i / (self.width as int),
                        x,
                        y,
                        w,
                        h,
                    ) {
                        self.current
                    } else {
                        self.pixels[i]
                    },
            ),
            ..self
        }
    }

    /// The same buffer with every pixel in the background colour.
    pub open spec fn cleared(self) -> FrameView {
        FrameView { pixels: Seq::new(self.pixels.len(), |i: int| self.background), ..self }
    }
}

/// Row-major addressing: inside a buffer of `w` columns and `h` rows, the
/// index of a pixel is in range and determines the pixel.
pub proof fn lemma_pixel_index(w: int, h: int, x: int, y: int)
    requires
        0 <= x < w,
        0 <= y < h,
    ensures
        0 <= y * w + x < w * h,
        (y * w + x) % w == x,
        (y * w + x) / w == y,
{
    assert(0 <= y * w && y * w + w <= w * h) by (nonlinear_arith)
        requires
            0 <= y < h,
            0 < w,
    ;
    vstd::arithmetic::div_mod::lemma_fundamental_div_mod_converse(y * w + x, w, y, x);
}

/// Two pixels of one buffer with the same index are the same pixel.
pub proof fn lemma_pixel_index_injective(w: int, x: int, y: int, x2: int, y2: int)
    requires
        0 <= x < w,
        0 <= x2 < w,
        0 <= y,
        0 <= y2,
        y * w + x == y2 * w + x2,
    ensures
        x == x2,
        y == y2,
{
    vstd::arithmetic::div_mod::lemma_fundamental_div_mod_converse(y * w + x, w, y, x);
    vstd::arithmetic::div_mod::lemma_fundamental_div_mod_converse(y2 * w + x2, w, y2, x2);
}

/// Every index of a buffer belongs to a pixel.
pub proof fn lemma_index_pixel(w: int, h: int, i: int)
    requires
        0 <= i < w * h,
        0 <= h,
        0 <= w,
    ensures
        0 < w,
        0 <= i % w < w,
        0 <= i / w < h,
        (i / w) * w + i % w == i,
{
    assert(w > 0) by (nonlinear_arith)
        requires
            0 <= i < w * h,
            0 <= h,
            0 <= w,
    ;
    vstd::arithmetic::div_mod::lemma_fundamental_div_mod(i, w);
    vstd::arithmetic::div_mod::lemma_mod_bound(i, w);
    let q = i / w;
    assert(w * q == q * w) by (nonlinear_arith);
    assert(0 <= q < h) by (nonlinear_arith)
        requires
            0 <= i < w * h,
            i == q * w + i % w,
            0 <= i % w < w,
            0 < w,
    ;
}

/// Two well-formed buffers of one size whose pixels agree everywhere hold
/// the same pixel data.
pub proof fn lemma_same_pixels(a: FrameView, b: FrameView)
    requires
        a.wf(),
        b.wf(),
        a.width == b.width,
        a.height == b.height,
        forall|x: int, y: int| a.holds(x, y) ==> #[trigger] a.at(x, y) == b.at(x, y),
    ensures
        a.pixels == b.pixels,
{
    assert forall|i: int| 0 <= i < a.pixels.len() implies a.pixels[i] == b.pixels[i] by {
        lemma_index_pixel(a.width as int, a.height as int, i);
        let x = i % (a.width as int);
        let y = i / (a.width as int);
        assert(a.at(x, y) == b.at(x, y));
    }
    assert(a.pixels =~= b.pixels);
}

/// Painting a pixel changes neither the size of a buffer nor its colours.
pub proof fn lemma_put_frame(v: FrameView, x: int, y: int, color: Color)
    requires
        v.wf(),
    ensures
        v.put(x, y, color).wf(),
        v.put(x, y, color) == (FrameView { pixels: v.put(x, y, color).pixels, ..v }),
{
    if v.holds(x, y) {
        lemma_pixel_index(v.width as int, v.height as int, x, y);
    }
}

/// What `put` does to each pixel.
pub proof fn lemma_put_at(v: FrameView, x: int, y: int, color: Color, px: int, py: int)
    requires
        v.wf(),
        v.holds(px, py),
    ensures
        v.put(x, y, color).wf(),
        v.put(x, y, color).at(px, py) == if px == x && py == y {
            color
        } else {
            v.at(px, py)
        },
{
    lemma_pixel_index(v.width as int, v.height as int, px, py);
    if v.holds(x, y) {
        lemma_pixel_index(v.width as int, v.height as int, x, y);
        if py * v.width + px == y * v.width + x {
            lemma_pixel_index_injective(v.width as int, px, py, x, y);
        }
    }
}

/// What `fill` does to each pixel.
pub proof fn lemma_fill_at(v: FrameView, x: int, y: int, w: int, h: int, px: int, py: int)
    requires
        v.wf(),
        v.holds(px, py),
    ensures
        v.fill(x, y, w, h).wf(),
        v.fill(x, y, w, h).at(px, py) == if FrameView::in_rect(px, py, x, y, w, h) {
            v.current
        } else {
            v.at(px, py)
        },
{
    lemma_pixel_index(v.width as int, v.height as int, px, py);
}

/// Filling keeps the size of a buffer.
pub proof fn lemma_fill_at_wf(v: FrameView, x: int, y: int, w: int, h: int)
    requires
        v.wf(),
    ensures
        v.fill(x, y, w, h).wf(),
        v.fill(x, y, w, h).width == v.width,
        v.fill(x, y, w, h).height == v.height,
{
}

impl View for Framebuffer {
    type V = FrameView;

    closed spec fn view(&self) -> FrameView {
        FrameView {
            width: self.width as nat,
            height: self.height as nat,
            pixels: self.pixels@,
            background: self.background_color,
            current: self.current_color,
        }
    }
}

impl Framebuffer {
    #[verifier::type_invariant]
    spec fn consistent(self) -> bool {
        self.pixels@.len() == self.width * self.height <= usize::MAX
    }

    /// A buffer of black pixels, with a white pen and a black background.
    pub fn new(width: u32, height: u32) -> (fb: Framebuffer)
        requires
            width * height <= usize::MAX,
        ensures
            fb@.wf(),
            fb@ == (FrameView {
                width: width as nat,
                height: height as nat,
                pixels: Seq::new((width * height) as nat, |i: int| Color::black()),
                background: Color::black(),
                current: Color::white(),
            }),
    {
        proof {
            assert(0 <= width * height <= 0xffff_ffff * 0xffff_ffff) by (nonlinear_arith)
                requires
                    0 <= width <= 0xffff_ffff,
                    0 <= height <= 0xffff_ffff,
            ;
        }
        let total: u64 = width as u64 * height as u64;
        let mut pixels: Vec<Color> = Vec::new();
        let mut i: u64 = 0;
        while i < total
            invariant
                i <= total,
                total <= usize::MAX,
                pixels@.len() == i,
                forall|k: int| 0 <= k < i ==> pixels@[k] == Color::black(),
            decreases total - i,
        {
            pixels.push(Color::black());
            i += 1;
        }
        proof {
            assert(pixels@ =~= Seq::new((width * height) as nat, |i: int| Color::black()));
        }
        Framebuffer {
            width,
            height,
            pixels,
            background_color: Color::black(),
            current_color: Color::white(),
        }
    }

    /// Number of columns.
    pub fn width(&self) -> (w: u32)
        ensures
            w == self@.width,
            self@.wf(),
    {
        proof {
            use_type_invariant(self);
        }
        self.width
    }

    /// Number of rows.
    pub fn height(&self) -> (h: u32)
        ensures
            h == self@.height,
            self@.wf(),
    {
        proof {
            use_type_invariant(self);
        }
        self.height
    }

    /// The pen colour.
    pub fn current_color(&self) -> (c: Color)
        ensures
            c == self@.current,
    {
        self.current_color
    }

    /// The background colour.
    pub fn background_color(&self) -> (c: Color)
        ensures
            c == self@.background,
    {
        self.background_color
    }

    /// The colour of the pixel at `(x, y)`, if the buffer has such a pixel.
    pub fn get_pixel(&self, x: u32, y: u32) -> (c: Option<Color>)
        ensures
            self@.wf(),
            c == if self@.holds(x as int, y as int) {
                Some(self@.at(x as int, y as int))
            } else {
                None
            },
    {
        proof {
            use_type_invariant(self);
        }
        if x < self.width && y < self.height {
            proof {
                lemma_pixel_index(self.width as int, self.height as int, x as int, y as int);
                assert(0 <= y as int * self.width as int) by (nonlinear_arith);
            }
            let i: usize = y as usize * self.width as usize + x as usize;
            Some(self.pixels[i])
        } else {
            None
        }
    }

    /// Paints every pixel in the background colour.
    pub fn clear(&mut self)
        ensures
            final(self)@ == old(self)@.cleared(),
            final(self)@.wf(),
    {
        proof {
            use_type_invariant(&*self);
        }
        let n: usize = self.pixels.len();
        let mut i: usize = 0;
        while i < n
            invariant
                i <= n,
                n == self.pixels@.len(),
                self.pixels@.len() == self.width * self.height,
                self.width == old(self).width,
                self.height == old(self).height,
                self.background_color == old(self).background_color,
                self.current_color == old(self).current_color,
                forall|k: int| 0 <= k < i ==> self.pixels@[k] == self.background_color,
            decreases n - i,
        {
            self.pixels[i] = self.background_color;
            i += 1;
        }
        proof {
            assert(self.pixels@ =~= old(self)@.cleared().pixels);
        }
    }

    /// Paints the pixel at `(x, y)` in the pen colour; does nothing if the
    /// buffer has no such pixel.
    pub fn set_pixel(&mut self, x: u32, y: u32)
        ensures
            final(self)@ == old(self)@.put(x as int, y as int, old(self)@.current),
            final(self)@.wf(),
    {
        let color = self.current_color;
        self.put_pixel(x, y, color);
    }

    /// Paints the pixel at `(x, y)` in the given colour and leaves the pen
    /// alone; does nothing if the buffer has no such pixel.
    pub fn put_pixel(&mut self, x: u32, y: u32, color: Color)
        ensures
            final(self)@ == old(self)@.put(x as int, y as int, color),
            final(self)@.wf(),
    {
        proof {
            use_type_invariant(&*self);
        }
        if x < self.width && y < self.height {
            proof {
                lemma_pixel_index(self.width as int, self.height as int, x as int, y as int);
                assert(0 <= y as int * self.width as int) by (nonlinear_arith);
            }
            let i: usize = y as usize * self.width as usize + x as usize;
            self.pixels[i] = color;
        }
    }

    /// Sets the colour that `clear` paints.
    pub fn set_background_color(&mut self, color: Color)
        ensures
            final(self)@ == (FrameView { background: color, ..old(self)@ }),
            final(self)@.wf(),
    {
        proof {
            use_type_invariant(&*self);
        }
        self.background_color = color;
    }

    /// Sets the pen colour, which `set_pixel` and `fill_rect` paint.
    pub fn set_current_color(&mut self, color: Color)
        ensures
            final(self)@ == (FrameView { current: color, ..old(self)@ }),
            final(self)@.wf(),
    {
        proof {
            use_type_invariant(&*self);
        }
        self.current_color = color;
    }
    /// Paints, in the pen colour, the part of a rectangle that lies inside
    /// the buffer. The rectangle has its corner at `(x, y)` and is `w`
    /// columns wide and `h` rows high; with `w` or `h` not positive it is
    /// empty.
    pub fn fill_rect(&mut self, x: i32, y: i32, w: i32, h: i32)
        ensures
            final(self)@ == old(self)@.fill(x as int, y as int, w as int, h as int),
            final(self)@.wf(),
    {
        proof {
            use_type_invariant(&*self);
        }
        let ghost start = self@;
        let ghost goal = start.fill(x as int, y as int, w as int, h as int);
        let x0: i64 = if x > 0 {
            x as i64
        } else {
            0
        };
        let y0: i64 = if y > 0 {
            y as i64
        } else {
            0
        };
        let x1: i64 = if x as i64 + w as i64 <= self.width as i64 {
            x as i64 + w as i64
        } else {
            self.width as i64
        };
        let y1: i64 = if y as i64 + h as i64 <= self.height as i64 {
            y as i64 + h as i64
        } else {
            self.height as i64
        };
        let color = self.current_color;
        let mut yy: i64 = y0;
        while yy < y1
            invariant
                0 <= y0 <= yy,
                0 <= x0,
                x1 <= self.width,
                y1 <= self.height,
                x0 == if x > 0 {
                    x as int
                } else {
                    0
                },
                y0 == if y > 0 {
                    y as int
                } else {
                    0
                },
                x1 == x + w || (x1 == self.width && x1 < x + w),
                y1 == y + h || (y1 == self.height && y1 < y + h),
                color == start.current,
                self@.wf(),
                self.width * self.height <= usize::MAX,
                self@ == (FrameView { pixels: self@.pixels, ..start }),
                forall|px: int, py: int|
                    start.holds(px, py) ==> #[trigger] self@.at(px, py) == if FrameView::in_rect(
                        px,
                        py,
                        x as int,
                        y as int,
                        w as int,
                        h as int,
                    ) && py < yy {
                        color
                    } else {
                        start.at(px, py)
                    },
            decreases y1 - yy,
        {
            let mut xx: i64 = x0;
            while xx < x1
                invariant
                    0 <= x0 <= xx,
                    0 <= y0 <= yy < y1,
                    x1 <= self.width,
                    y1 <= self.height,
                    x0 == if x > 0 {
                        x as int
                    } else {
                        0
                    },
                    y0 == if y > 0 {
                        y as int
                    } else {
                        0
                    },
                    x1 == x + w || (x1 == self.width && x1 < x + w),
                    y1 == y + h || (y1 == self.height && y1 < y + h),
                    color == start.current,
                    self@.wf(),
                    self.width * self.height <= usize::MAX,
                    self@ == (FrameView { pixels: self@.pixels, ..start }),
                    forall|px: int, py: int|
                        start.holds(px, py) ==> #[trigger] self@.at(px, py)
                            == if FrameView::in_rect(
                            px,
                            py,
                            x as int,
                            y as int,
                            w as int,
                            h as int,
                        ) && (py < yy || (py == yy && px < xx)) {
                            color
                        } else {
                            start.at(px, py)
                        },
                decreases x1 - xx,
            {
                let ghost before = self@;
                proof {
                    lemma_pixel_index(self.width as int, self.height as int, xx as int, yy as int);
                    assert(0 <= yy * self.width as int) by (nonlinear_arith)
                        requires
                            0 <= yy,
                    ;
                }
                let i: usize = yy as usize * self.width as usize + xx as usize;
                self.pixels[i] = color;
                proof {
                    assert(self@ == before.put(xx as int, yy as int, color));
                    assert forall|px: int, py: int| start.holds(px, py) implies #[trigger] self@.at(
                        px,
                        py,
                    ) == if FrameView::in_rect(px, py, x as int, y as int, w as int, h as int) && (py
                        < yy || (py == yy && px < xx + 1)) {
                        color
                    } else {
                        start.at(px, py)
                    } by {
                        lemma_put_at(before, xx as int, yy as int, color, px, py);
                        assert(before.at(px, py) == if FrameView::in_rect(
                            px,
                            py,
                            x as int,
                            y as int,
                            w as int,
                            h as int,
                        ) && (py < yy || (py == yy && px < xx)) {
                            color
                        } else {
                            start.at(px, py)
                        });
                    }
                }
                xx += 1;
            }
            yy += 1;
        }
        proof {
            assert forall|px: int, py: int| start.holds(px, py) implies #[trigger] self@.at(px, py)
                == goal.at(px, py) by {
                lemma_fill_at(start, x as int, y as int, w as int, h as int, px, py);
            }
            lemma_fill_at_wf(start, x as int, y as int, w as int, h as int);
            lemma_same_pixels(self@, goal);
        }
    }
}

} // verus!
