//! The drawing canvas: a raster surface together with the painting state —
//! foreground and background colours, the fixed brush size, and the last
//! known cursor position. Pointer events map to brush stamps on the surface.

use vstd::prelude::*;

verus! {

use crate::geom::{MAX_COORD, in_disc, in_capsule, lemma_capsule_point};
use crate::raster::{Color, Raster, valid_dims, stamped};

/// The foreground colour a fresh canvas starts with: red.
pub open spec fn default_fg() -> Color {
    Color { r: 255, g: 0, b: 0 }
}

/// The background colour a fresh canvas starts with: white.
pub open spec fn default_bg() -> Color {
    Color { r: 255, g: 255, b: 255 }
}

/// The fixed radius of the circular brush.
pub const INSTRUMENT_SIZE: i32 = 5;

pub struct Canvas {
    raster: Raster,
    fg_color: Color,
    bg_color: Color,
    instrument_size: i32,
    coord: Option<(i32, i32)>,
}

impl Canvas {
    /// Logical width of the surface in pixels.
    pub closed spec fn width(self) -> int {
        self.raster.width()
    }

    /// Logical height of the surface in pixels.
    pub closed spec fn height(self) -> int {
        self.raster.height()
    }

    /// Colour of the pixel in column `x` of row `y`.
    pub closed spec fn pix(self, x: int, y: int) -> Color {
        self.raster.pix(x, y)
    }

    /// Current foreground (brush) colour.
    pub closed spec fn fg(self) -> Color {
        self.fg_color
    }

    /// Current background colour.
    pub closed spec fn bg(self) -> Color {
        self.bg_color
    }

    /// Brush radius.
    pub closed spec fn brush(self) -> int {
        self.instrument_size as int
    }

    /// Last known cursor position, if the cursor is over the canvas.
    pub closed spec fn coord(self) -> Option<(i32, i32)> {
        self.coord
    }

    /// The surface is well formed and the stored state is within the
    /// bounds the brush geometry accepts.
    pub closed spec fn wf(self) -> bool {
        &&& self.raster.wf()
        &&& 1 <= self.instrument_size <= MAX_COORD
        &&& (self.coord matches Some(c) ==> -MAX_COORD <= c.0 <= MAX_COORD && -MAX_COORD <= c.1
            <= MAX_COORD)
    }

    /// The two canvases show the same picture.
    pub open spec fn same_surface(self, other: Canvas) -> bool {
        &&& other.width() == self.width()
        &&& other.height() == self.height()
        &&& forall|x: int, y: int|
            0 <= x < self.width() && 0 <= y < self.height() ==> other.pix(x, y) == self.pix(x, y)
    }

    /// The two canvases hold the same colours and brush size.
    pub open spec fn same_settings(self, other: Canvas) -> bool {
        &&& other.fg() == self.fg()
        &&& other.bg() == self.bg()
        &&& other.brush() == self.brush()
    }

    /// A canvas of the given dimensions: white surface, red brush, no
    /// cursor over it yet.
    pub fn new(width: i32, height: i32) -> (c: Canvas)
        requires
            valid_dims(width as int, height as int),
        ensures
            c.wf(),
            c.width() == width as int,
            c.height() == height as int,
            c.fg() == default_fg(),
            c.bg() == default_bg(),
            c.brush() == INSTRUMENT_SIZE as int,
            c.coord() is None,
            forall|x: int, y: int|
                0 <= x < width && 0 <= y < height ==> c.pix(x, y) == default_bg(),
    {
        let bg = Color { r: 255, g: 255, b: 255 };
        Canvas {
            raster: Raster::new(width, height, bg),
            fg_color: Color { r: 255, g: 0, b: 0 },
            bg_color: bg,
            instrument_size: INSTRUMENT_SIZE,
            coord: None,
        }
    }

    /// Fills the whole surface with the current background colour.
    pub fn clean_canvas(&mut self)
        requires
            old(self).wf(),
        ensures
            final(self).wf(),
            final(self).width() == old(self).width(),
            final(self).height() == old(self).height(),
            old(self).same_settings(*final(self)),
            final(self).coord() == old(self).coord(),
            forall|x: int, y: int|
                0 <= x < old(self).width() && 0 <= y < old(self).height()
                    ==> final(self).pix(x, y) == old(self).bg(),
    {
        let bg = self.bg_color;
        self.raster.fill(bg);
    }

    /// A press of the pointer: stamps a filled disc of the brush radius in
    /// the foreground colour around the pressed point, which becomes the
    /// last known cursor position.
    pub fn instrument_push(&mut self, x: i32, y: i32)
        requires
            old(self).wf(),
            -MAX_COORD <= x <= MAX_COORD,
            -MAX_COORD <= y <= MAX_COORD,
        ensures
            final(self).wf(),
            final(self).width() == old(self).width(),
            final(self).height() == old(self).height(),
            old(self).same_settings(*final(self)),
            final(self).coord() == Some((x, y)),
            forall|px: int, py: int|
                0 <= px < old(self).width() && 0 <= py < old(self).height()
                    ==> final(self).pix(px, py) == if in_disc(
                    px - x,
                    py - y,
                    old(self).brush(),
                ) {
                    old(self).fg()
                } else {
                    old(self).pix(px, py)
                },
    {
        let rad = self.instrument_size;
        let fg = self.fg_color;
        self.raster.stamp(x, y, x, y, rad, fg);
        self.coord = Some((x, y));
        proof {
            assert forall|px: int, py: int|
                0 <= px < old(self).width() && 0 <= py < old(self).height()
                    implies self.pix(px, py) == if in_disc(px - x, py - y, old(self).brush()) {
                    old(self).fg()
                } else {
                    old(self).pix(px, py)
                } by {
                lemma_capsule_point(px, py, x as int, y as int, rad as int);
                assert(stamped(
                    old(self).raster,
                    self.raster,
                    x as int,
                    y as int,
                    x as int,
                    y as int,
                    rad as int,
                    fg,
                    px,
                    py,
                ));
            }
        }
    }

    /// A drag of the pointer. With a last known position, paints the
    /// round-capped line of the brush radius from there to the new point
    /// in the foreground colour, and the new point becomes the last known
    /// position. Without one, the event is ignored.
    pub fn instrument_drag(&mut self, x: i32, y: i32)
        requires
            old(self).wf(),
            -MAX_COORD <= x <= MAX_COORD,
            -MAX_COORD <= y <= MAX_COORD,
        ensures
            final(self).wf(),
            final(self).width() == old(self).width(),
            final(self).height() == old(self).height(),
            old(self).same_settings(*final(self)),
            old(self).coord() matches Some(c) ==> {
                &&& final(self).coord() == Some((x, y))
                &&& forall|px: int, py: int|
                    0 <= px < old(self).width() && 0 <= py < old(self).height()
                        ==> final(self).pix(px, py) == if in_capsule(
                        px,
                        py,
                        c.0 as int,
                        c.1 as int,
                        x as int,
                        y as int,
                        old(self).brush(),
                    ) {
                        old(self).fg()
                    } else {
                        old(self).pix(px, py)
                    }
            },
            old(self).coord() is None ==> {
                &&& final(self).coord() is None
                &&& old(self).same_surface(*final(self))
            },
    {
        match self.coord {
            Some(c) => {
                let rad = self.instrument_size;
                let fg = self.fg_color;
                self.raster.stamp(c.0, c.1, x, y, rad, fg);
                self.coord = Some((x, y));
                proof {
                    assert forall|px: int, py: int|
                        0 <= px < old(self).width() && 0 <= py < old(self).height()
                            implies self.pix(px, py) == if in_capsule(
                        px,
                        py,
                        c.0 as int,
                        c.1 as int,
                        x as int,
                        y as int,
                        old(self).brush(),
                    ) {
                        old(self).fg()
                    } else {
                        old(self).pix(px, py)
                    } by {
                        assert(stamped(
                            old(self).raster,
                            self.raster,
                            c.0 as int,
                            c.1 as int,
                            x as int,
                            y as int,
                            rad as int,
                            fg,
                            px,
                            py,
                        ));
                    }
                }
            },
            None => {},
        }
    }

    /// A release of the pointer: changes nothing.
    pub fn instrument_released(&mut self)
        requires
            old(self).wf(),
        ensures
            final(self).wf(),
            old(self).same_surface(*final(self)),
            old(self).same_settings(*final(self)),
            final(self).coord() == old(self).coord(),
    {
    }

    /// A move of the pointer without a pressed button: only the last known
    /// cursor position changes.
    pub fn instrument_move(&mut self, x: i32, y: i32)
        requires
            old(self).wf(),
            -MAX_COORD <= x <= MAX_COORD,
            -MAX_COORD <= y <= MAX_COORD,
        ensures
            final(self).wf(),
            old(self).same_surface(*final(self)),
            old(self).same_settings(*final(self)),
            final(self).coord() == Some((x, y)),
    {
        self.coord = Some((x, y));
    }

    /// The cursor enters the canvas: only the last known position changes.
    pub fn instrument_enter(&mut self, x: i32, y: i32)
        requires
            old(self).wf(),
            -MAX_COORD <= x <= MAX_COORD,
            -MAX_COORD <= y <= MAX_COORD,
        ensures
            final(self).wf(),
            old(self).same_surface(*final(self)),
            old(self).same_settings(*final(self)),
            final(self).coord() == Some((x, y)),
    {
        self.coord = Some((x, y));
    }

    /// The cursor leaves the canvas: the last known position is forgotten.
    pub fn instrument_leave(&mut self)
        requires
            old(self).wf(),
        ensures
            final(self).wf(),
            old(self).same_surface(*final(self)),
            old(self).same_settings(*final(self)),
            final(self).coord() is None,
    {
        self.coord = None;
    }

    /// Last known cursor position, if any.
    pub fn get_coord(&self) -> (c: Option<(i32, i32)>)
        ensures
            c == self.coord(),
    {
        self.coord
    }

    /// Current foreground colour as an RGB triple.
    pub fn get_fg_color(&self) -> (c: (u8, u8, u8))
        ensures
            c == (self.fg().r, self.fg().g, self.fg().b),
    {
        (self.fg_color.r, self.fg_color.g, self.fg_color.b)
    }

    /// Sets the foreground colour from an RGB triple.
    pub fn set_fg_color(&mut self, c: (u8, u8, u8))
        requires
            old(self).wf(),
        ensures
            final(self).wf(),
            old(self).same_surface(*final(self)),
            final(self).fg() == (Color { r: c.0, g: c.1, b: c.2 }),
            final(self).bg() == old(self).bg(),
            final(self).brush() == old(self).brush(),
            final(self).coord() == old(self).coord(),
    {
        self.fg_color = Color { r: c.0, g: c.1, b: c.2 };
    }

    /// Current background colour as an RGB triple.
    pub fn get_bg_color(&self) -> (c: (u8, u8, u8))
        ensures
            c == (self.bg().r, self.bg().g, self.bg().b),
    {
        (self.bg_color.r, self.bg_color.g, self.bg_color.b)
    }

    /// Sets the background colour from an RGB triple.
    pub fn set_bg_color(&mut self, c: (u8, u8, u8))
        requires
            old(self).wf(),
        ensures
            final(self).wf(),
            old(self).same_surface(*final(self)),
            final(self).bg() == (Color { r: c.0, g: c.1, b: c.2 }),
            final(self).fg() == old(self).fg(),
            final(self).brush() == old(self).brush(),
            final(self).coord() == old(self).coord(),
    {
        self.bg_color = Color { r: c.0, g: c.1, b: c.2 };
    }

    /// The logical dimensions of the surface.
    pub fn get_size(&self) -> (s: (i32, i32))
        ensures
            s.0 as int == self.width(),
            s.1 as int == self.height(),
    {
        self.raster.size()
    }

    /// Reads one pixel of the surface.
    pub fn pixel(&self, x: i32, y: i32) -> (c: Color)
        requires
            self.wf(),
            0 <= x < self.width(),
            0 <= y < self.height(),
        ensures
            c == self.pix(x as int, y as int),
    {
        self.raster.pixel(x, y)
    }

    /// Resizes the surface. The new surface is filled with the current
    /// background colour and keeps the previous picture in its top-left
    /// region, up to the smaller of the old and new extents.
    pub fn set_image_size(&mut self, size: (i32, i32))
        requires
            old(self).wf(),
            valid_dims(size.0 as int, size.1 as int),
        ensures
            final(self).wf(),
            final(self).width() == size.0 as int,
            final(self).height() == size.1 as int,
            old(self).same_settings(*final(self)),
            final(self).coord() == old(self).coord(),
            forall|x: int, y: int|
                0 <= x < size.0 && 0 <= y < size.1 ==> final(self).pix(x, y) == if x < old(
                    self,
                ).width() && y < old(self).height() {
                    old(self).pix(x, y)
                } else {
                    old(self).bg()
                },
    {
        let bg = self.bg_color;
        self.raster.resize(size.0, size.1, bg);
    }

    /// The surface as packed RGB bytes, row-major, three bytes per pixel:
    /// red, green, blue. This is the buffer an image encoder is handed
    /// when the canvas is saved.
    pub fn to_rgb_data(&self) -> (data: Vec<u8>)
        requires
            self.wf(),
        ensures
            data@.len() == 3 * (self.width() * self.height()),
            forall|x: int, y: int|
                0 <= x < self.width() && 0 <= y < self.height() ==> {
                    &&& data@[3 * (y * self.width() + x)] == self.pix(x, y).r
                    &&& data@[3 * (y * self.width() + x) + 1] == self.pix(x, y).g
                    &&& data@[3 * (y * self.width() + x) + 2] == self.pix(x, y).b
                },
    {
        self.raster.to_rgb_data()
    }
}

} // verus!
