//! The raster surface: an owned pixel buffer of fixed logical dimensions,
//! held row-major, mutated in place by brush stamps, cleared, resized, and
//! exported as packed RGB bytes.

use vstd::prelude::*;

verus! {

use crate::geom::{MAX_COORD, in_capsule, capsule_hit, lemma_abs_mul_bound};

/// Largest accepted canvas dimension. Keeps `width * height` and the
/// derived byte counts well inside `usize`, and every pixel coordinate
/// inside `MAX_COORD`.
pub const MAX_DIM: i32 = 16384;

/// One pixel: an RGB colour.
#[derive(Clone, Copy, PartialEq, Eq, Structural, Debug)]
pub struct Color {
    pub r: u8,
    pub g: u8,
    pub b: u8,
}

/// The dimensions a raster surface can take.
pub open spec fn valid_dims(w: int, h: int) -> bool {
    &&& 1 <= w <= MAX_DIM
    &&& 1 <= h <= MAX_DIM
}

/// Decides `valid_dims`.
pub fn dims_ok(w: i32, h: i32) -> (ok: bool)
    ensures
        ok == valid_dims(w as int, h as int),
{
    1 <= w && w <= MAX_DIM && 1 <= h && h <= MAX_DIM
}

/// Row-major position of a pixel lies inside the buffer.
pub proof fn lemma_index_bounds(x: int, y: int, w: int, h: int)
    by (nonlinear_arith)
    requires
        0 <= x < w,
        0 <= y < h,
    ensures
        0 <= y * w + x < w * h,
{
}

/// Row-major order: an earlier pixel has a smaller position.
pub proof fn lemma_row_major_lt(x1: int, y1: int, x2: int, y2: int, w: int)
    by (nonlinear_arith)
    requires
        0 <= x1 < w,
        0 <= x2,
        0 <= y1,
        y1 < y2 || (y1 == y2 && x1 < x2),
    ensures
        y1 * w + x1 < y2 * w + x2,
{
}

/// Distinct pixels have distinct row-major positions.
pub proof fn lemma_index_injective(x1: int, y1: int, x2: int, y2: int, w: int)
    by (nonlinear_arith)
    requires
        0 <= x1 < w,
        0 <= x2 < w,
        0 <= y1,
        0 <= y2,
        !(x1 == x2 && y1 == y2),
    ensures
        y1 * w + x1 != y2 * w + x2,
{
}

pub struct Raster {
    width: i32,
    height: i32,
    pixels: Vec<Color>,
}

/// After a stamp of colour `c` along the capsule from `(ax, ay)` to
/// `(bx, by)` with radius `r`, the pixel `(x, y)` holds `c` where the
/// capsule covers it and its previous colour elsewhere.
pub open spec fn stamped(
    before: Raster,
    after: Raster,
    ax: int,
    ay: int,
    bx: int,
    by: int,
    r: int,
    c: Color,
    x: int,
    y: int,
) -> bool {
    after.pix(x, y) == if in_capsule(x, y, ax, ay, bx, by, r) {
        c
    } else {
        before.pix(x, y)
    }
}

impl Raster {
    /// Logical width in pixels.
    pub closed spec fn width(self) -> int {
        self.width as int
    }

    /// Logical height in pixels.
    pub closed spec fn height(self) -> int {
        self.height as int
    }

    /// Colour of the pixel in column `x` of row `y`.
    pub closed spec fn pix(self, x: int, y: int) -> Color {
        self.pixels@[y * self.width + x]
    }

    /// The dimensions are valid and the buffer holds exactly one colour
    /// per pixel.
    pub closed spec fn wf(self) -> bool {
        &&& valid_dims(self.width as int, self.height as int)
        &&& self.pixels@.len() == self.width * self.height
    }

    /// A surface of the given dimensions with every pixel set to
    /// `background`.
    pub fn new(width: i32, height: i32, background: Color) -> (r: Raster)
        requires
            valid_dims(width as int, height as int),
        ensures
            r.wf(),
            r.width() == width as int,
            r.height() == height as int,
            forall|x: int, y: int|
                0 <= x < width && 0 <= y < height ==> r.pix(x, y) == background,
    {
        proof {
            lemma_abs_mul_bound(width as int, height as int, 16384, 16384);
        }
        let n: usize = (width as usize) * (height as usize);
        let mut pixels: Vec<Color> = Vec::new();
        let mut i: usize = 0;
        while i < n
            invariant
                i <= n,
                n == width as int * height as int,
                pixels@.len() == i,
                forall|j: int| 0 <= j < i ==> pixels@[j] == background,
            decreases n - i,
        {
            pixels.push(background);
            i = i + 1;
        }
        let r = Raster { width, height, pixels };
        proof {
            assert forall|x: int, y: int|
                0 <= x < width && 0 <= y < height implies r.pix(x, y) == background by {
                lemma_index_bounds(x, y, width as int, height as int);
            }
        }
        r
    }

    /// The dimensions as a pair.
    pub fn size(&self) -> (s: (i32, i32))
        ensures
            s.0 as int == self.width(),
            s.1 as int == self.height(),
    {
        (self.width, self.height)
    }

    /// Reads one pixel.
    pub fn pixel(&self, x: i32, y: i32) -> (c: Color)
        requires
            self.wf(),
            0 <= x < self.width(),
            0 <= y < self.height(),
        ensures
            c == self.pix(x as int, y as int),
    {
        proof {
            lemma_abs_mul_bound(self.width as int, self.height as int, 16384, 16384);
            lemma_index_bounds(x as int, y as int, self.width as int, self.height as int);
        }
        let idx: usize = (y as usize) * (self.width as usize) + (x as usize);
        self.pixels[idx]
    }

    /// Writes one pixel, leaving every other pixel as it was.
    fn set_pixel(&mut self, x: i32, y: i32, c: Color)
        requires
            old(self).wf(),
            0 <= x < old(self).width(),
            0 <= y < old(self).height(),
        ensures
            final(self).wf(),
            final(self).width() == old(self).width(),
            final(self).height() == old(self).height(),
            final(self).pix(x as int, y as int) == c,
            forall|xx: int, yy: int|
                0 <= xx < old(self).width() && 0 <= yy < old(self).height()
                    && !(xx == x && yy == y)
                    ==> final(self).pix(xx, yy) == old(self).pix(xx, yy),
    {
        proof {
            lemma_abs_mul_bound(self.width as int, self.height as int, 16384, 16384);
            lemma_index_bounds(x as int, y as int, self.width as int, self.height as int);
        }
        let idx: usize = (y as usize) * (self.width as usize) + (x as usize);
        self.pixels[idx] = c;
        proof {
            assert forall|xx: int, yy: int|
                0 <= xx < old(self).width() && 0 <= yy < old(self).height()
                    && !(xx == x && yy == y)
                    implies self.pix(xx, yy) == old(self).pix(xx, yy) by {
                lemma_index_bounds(xx, yy, self.width as int, self.height as int);
                lemma_index_injective(xx, yy, x as int, y as int, self.width as int);
            }
        }
    }

    /// Sets every pixel to `c`.
    pub fn fill(&mut self, c: Color)
        requires
            old(self).wf(),
        ensures
            final(self).wf(),
            final(self).width() == old(self).width(),
            final(self).height() == old(self).height(),
            forall|x: int, y: int|
                0 <= x < old(self).width() && 0 <= y < old(self).height()
                    ==> final(self).pix(x, y) == c,
    {
        let w = self.width;
        let h = self.height;
        *self = Raster::new(w, h, c);
    }

    /// Paints the round-capped thick line from `(ax, ay)` to `(bx, by)`
    /// with radius `rad`: every covered pixel takes colour `c`, the rest
    /// keep their colour. Equal endpoints paint a filled disc.
    #[verifier::loop_isolation(false)]
    pub fn stamp(&mut self, ax: i32, ay: i32, bx: i32, by: i32, rad: i32, c: Color)
        requires
            old(self).wf(),
            -MAX_COORD <= ax <= MAX_COORD,
            -MAX_COORD <= ay <= MAX_COORD,
            -MAX_COORD <= bx <= MAX_COORD,
            -MAX_COORD <= by <= MAX_COORD,
            0 <= rad <= MAX_COORD,
        ensures
            final(self).wf(),
            final(self).width() == old(self).width(),
            final(self).height() == old(self).height(),
            forall|x: int, y: int|
                0 <= x < old(self).width() && 0 <= y < old(self).height()
                    ==> stamped(
                    *old(self),
                    *final(self),
                    ax as int,
                    ay as int,
                    bx as int,
                    by as int,
                    rad as int,
                    c,
                    x,
                    y,
                ),
    {
        let w = self.width;
        let h = self.height;
        let mut y: i32 = 0;
        while y < h
            invariant
                0 <= y <= h,
                self.wf(),
                self.width() == old(self).width(),
                self.height() == old(self).height(),
                forall|xx: int, yy: int|
                    0 <= xx < w && 0 <= yy < y
                        ==> stamped(
                        *old(self),
                        *self,
                        ax as int,
                        ay as int,
                        bx as int,
                        by as int,
                        rad as int,
                        c,
                        xx,
                        yy,
                    ),
                forall|xx: int, yy: int|
                    0 <= xx < w && y <= yy < h ==> self.pix(xx, yy) == old(self).pix(xx, yy),
            decreases h - y,
        {
            let mut x: i32 = 0;
            while x < w
                invariant
                    0 <= x <= w,
                    0 <= y < h,
                    self.wf(),
                    self.width() == old(self).width(),
                    self.height() == old(self).height(),
                    forall|xx: int, yy: int|
                        (0 <= xx < w && 0 <= yy < y) || (0 <= xx < x && yy == y)
                            ==> stamped(
                            *old(self),
                            *self,
                            ax as int,
                            ay as int,
                            bx as int,
                            by as int,
                            rad as int,
                            c,
                            xx,
                            yy,
                        ),
                    forall|xx: int, yy: int|
                        0 <= xx < w && y <= yy < h && !(yy == y && xx < x)
                            ==> self.pix(xx, yy) == old(self).pix(xx, yy),
                decreases w - x,
            {
                let hit = capsule_hit(x, y, ax, ay, bx, by, rad);
                let ghost prev = *self;
                if hit {
                    self.set_pixel(x, y, c);
                }
                proof {
                    assert forall|xx: int, yy: int|
                        (0 <= xx < w && 0 <= yy < y) || (0 <= xx <= x && yy == y)
                            implies stamped(
                        *old(self),
                        *self,
                        ax as int,
                        ay as int,
                        bx as int,
                        by as int,
                        rad as int,
                        c,
                        xx,
                        yy,
                    ) by {
                        if !(xx == x && yy == y) {
                            assert(stamped(
                                *old(self),
                                prev,
                                ax as int,
                                ay as int,
                                bx as int,
                                by as int,
                                rad as int,
                                c,
                                xx,
                                yy,
                            ) || prev.pix(xx, yy) == old(self).pix(xx, yy));
                            assert(self.pix(xx, yy) == prev.pix(xx, yy));
                        }
                    }
                }
                x = x + 1;
            }
            y = y + 1;
        }
    }

    /// Replaces the surface by one of the requested dimensions, filled with
    /// `background` and holding the previous content in its top-left
    /// region, up to the smaller of the old and new extents.
    #[verifier::loop_isolation(false)]
    pub fn resize(&mut self, new_w: i32, new_h: i32, background: Color)
        requires
            old(self).wf(),
            valid_dims(new_w as int, new_h as int),
        ensures
            final(self).wf(),
            final(self).width() == new_w as int,
            final(self).height() == new_h as int,
            forall|x: int, y: int|
                0 <= x < new_w && 0 <= y < new_h
                    ==> final(self).pix(x, y) == if x < old(self).width() && y < old(
                    self,
                ).height() {
                    old(self).pix(x, y)
                } else {
                    background
                },
    {
        let mut fresh = Raster::new(new_w, new_h, background);
        let copy_w: i32 = if self.width < new_w {
            self.width
        } else {
            new_w
        };
        let copy_h: i32 = if self.height < new_h {
            self.height
        } else {
            new_h
        };
        let mut y: i32 = 0;
        while y < copy_h
            invariant
                0 <= y <= copy_h,
                fresh.wf(),
                fresh.width() == new_w as int,
                fresh.height() == new_h as int,
                forall|xx: int, yy: int|
                    0 <= xx < copy_w && 0 <= yy < y ==> fresh.pix(xx, yy) == self.pix(xx, yy),
                forall|xx: int, yy: int|
                    0 <= xx < new_w && 0 <= yy < new_h && !(xx < copy_w && yy < y)
                        ==> fresh.pix(xx, yy) == background,
            decreases copy_h - y,
        {
            let mut x: i32 = 0;
            while x < copy_w
                invariant
                    0 <= x <= copy_w,
                    0 <= y < copy_h,
                    fresh.wf(),
                    fresh.width() == new_w as int,
                    fresh.height() == new_h as int,
                    forall|xx: int, yy: int|
                        (0 <= xx < copy_w && 0 <= yy < y) || (0 <= xx < x && yy == y)
                            ==> fresh.pix(xx, yy) == self.pix(xx, yy),
                    forall|xx: int, yy: int|
                        0 <= xx < new_w && 0 <= yy < new_h && !((xx < copy_w && yy < y) || (xx < x
                            && yy == y))
                            ==> fresh.pix(xx, yy) == background,
                decreases copy_w - x,
            {
                let px = self.pixel(x, y);
                fresh.set_pixel(x, y, px);
                x = x + 1;
            }
            y = y + 1;
        }
        *self = fresh;
    }

    /// The surface as packed RGB bytes, row-major: three bytes per pixel,
    /// red then green then blue.
    #[verifier::loop_isolation(false)]
    pub fn to_rgb_data(&self) -> (data: Vec<u8>)
        requires
            self.wf(),
        ensures
            data@.len() == 3 * (self.width() * self.height()),
            forall|x: int, y: int|
                0 <= x < self.width() && 0 <= y < self.height() ==> {
                    &&& data@[3 * (y * self.width() + x)] == self.pix(x, y).r
                    &&& data@[3 * (y * self.width() + x) + 1] == self.pix(x, y).g
                    &&& data@[3 * (y * self.width() + x) + 2] == self.pix(x, y).b
                },
    {
        let w = self.width;
        let h = self.height;
        let mut data: Vec<u8> = Vec::new();
        let mut y: i32 = 0;
        while y < h
            invariant
                0 <= y <= h,
                data@.len() == 3 * ((y as int) * (w as int)),
                forall|xx: int, yy: int|
                    0 <= xx < w && 0 <= yy < y ==> {
                        &&& data@[3 * (yy * (w as int) + xx)] == self.pix(xx, yy).r
                        &&& data@[3 * (yy * (w as int) + xx) + 1] == self.pix(xx, yy).g
                        &&& data@[3 * (yy * (w as int) + xx) + 2] == self.pix(xx, yy).b
                    },
            decreases h - y,
        {
            let mut x: i32 = 0;
            while x < w
                invariant
                    0 <= x <= w,
                    0 <= y < h,
                    data@.len() == 3 * ((y as int) * (w as int) + x),
                    forall|xx: int, yy: int|
                        (0 <= xx < w && 0 <= yy < y) || (0 <= xx < x && yy == y) ==> {
                            &&& data@[3 * (yy * (w as int) + xx)] == self.pix(xx, yy).r
                            &&& data@[3 * (yy * (w as int) + xx) + 1] == self.pix(xx, yy).g
                            &&& data@[3 * (yy * (w as int) + xx) + 2] == self.pix(xx, yy).b
                        },
                decreases w - x,
            {
                let px = self.pixel(x, y);
                proof {
                    assert forall|xx: int, yy: int|
                        (0 <= xx < w && 0 <= yy < y) || (0 <= xx < x && yy == y)
                            implies 0 <= #[trigger] (yy * (w as int) + xx) && 3 * (yy * (w as int)
                        + xx) + 2 < data@.len() by {
                        lemma_index_bounds(xx, yy, w as int, h as int);
                        lemma_row_major_lt(xx, yy, x as int, y as int, w as int);
                    }
                }
                data.push(px.r);
                data.push(px.g);
                data.push(px.b);
                x = x + 1;
            }
            proof {
                assert(((y as int) + 1) * (w as int) == (y as int) * (w as int) + (w as int))
                    by (nonlinear_arith);
            }
            y = y + 1;
        }
        proof {
            assert((h as int) * (w as int) == (w as int) * (h as int)) by (nonlinear_arith);
        }
        data
    }
}

} // verus!
