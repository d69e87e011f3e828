//! The shared pixel canvas, modelled as two flat arrays: a row-major BGRA
//! framebuffer and a per-pixel owner map.  Writes blend by alpha: 0 is a
//! no-op, 255 overwrites, anything between mixes the packed color channels
//! with integer arithmetic.

use vstd::prelude::*;

use crate::bgra::Bgra;

verus! {

/// Errors of canvas construction and pixel access.
#[derive(Debug, Clone, Copy, PartialEq, Eq, Structural)]
pub enum CanvasError {
    PixelOutOfBounds { x: u32, y: u32 },
    InvalidSize,
}

/// Dimensions and initial contents for a canvas created from scratch.
pub struct CanvasCreateInfo {
    pub width: u32,
    pub height: u32,
    pub initial_canvas: Vec<Bgra>,
}

/// A `width` x `height` canvas: pixel array and owner map, row-major.
pub struct Canvas {
    width: u32,
    height: u32,
    cells: Vec<Bgra>,
    users: Vec<u32>,
}

/// The mathematical state of a canvas: its dimensions, its pixels and its
/// owner map.
pub struct CanvasView {
    pub width: u32,
    pub height: u32,
    pub cells: Seq<Bgra>,
    pub users: Seq<u32>,
}

/// Saturating subtraction on packed channel words.
pub open spec fn spec_sat_sub(a: u32, b: u32) -> u32 {
    if a >= b {
        (a - b) as u32
    } else {
        0u32
    }
}

/// The color a partially transparent write leaves behind: both packed
/// channel pairs (red/blue in 0xff00ff, green in 0x00ff00) move from the
/// old color towards the new one by `alpha`/256 of their distance, with the
/// subtraction saturating on the packed words.  The result is fully opaque.
pub open spec fn spec_blend(dst: Bgra, src: Bgra) -> Bgra {
    let c1 = dst.spec_rgb();
    let c2 = src.spec_rgb();
    let alpha = src.a as int;
    let rb0 = c1 & 0xff00ffu32;
    let gg0 = c1 & 0x00ff00u32;
    let rb = (rb0 + (spec_sat_sub(c2 & 0xff00ffu32, rb0) * alpha) / 256) as u32;
    let gg = (gg0 + (spec_sat_sub(c2 & 0x00ff00u32, gg0) * alpha) / 256) as u32;
    Bgra::spec_from_rgb((rb & 0xff00ffu32) | (gg & 0x00ff00u32))
}

impl CanvasView {
    /// The arrays match the dimensions and the canvas is not empty.
    pub open spec fn wf(self) -> bool {
        &&& self.width >= 1
        &&& self.height >= 1
        &&& self.cells.len() == (self.width as int) * (self.height as int)
        &&& self.users.len() == (self.width as int) * (self.height as int)
    }

    /// Row-major position of pixel (x, y).
    pub open spec fn index(self, x: u32, y: u32) -> int {
        (y as int) * (self.width as int) + (x as int)
    }

    pub open spec fn in_bounds(self, x: u32, y: u32) -> bool {
        x < self.width && y < self.height
    }

    pub open spec fn pixel(self, x: u32, y: u32) -> Bgra {
        self.cells[self.index(x, y)]
    }

    pub open spec fn user(self, x: u32, y: u32) -> u32 {
        self.users[self.index(x, y)]
    }

    /// The canvas after a write of `color` by `user_id` at (x, y):
    /// alpha 0 leaves everything alone, alpha 255 overwrites, and other
    /// alphas store the blend; every write except the transparent one also
    /// records the writer in the owner map.
    pub open spec fn set_pixel(self, x: u32, y: u32, color: Bgra, user_id: u32) -> CanvasView {
        if color.a == 0 {
            self
        } else {
            let new_color = if color.a == 255 {
                color
            } else {
                spec_blend(self.pixel(x, y), color)
            };
            CanvasView {
                cells: self.cells.update(self.index(x, y), new_color),
                users: self.users.update(self.index(x, y), user_id),
                ..self
            }
        }
    }
}

impl View for Canvas {
    type V = CanvasView;

    closed spec fn view(&self) -> CanvasView {
        CanvasView {
            width: self.width,
            height: self.height,
            cells: self.cells@,
            users: self.users@,
        }
    }
}

impl Canvas {
    /// A fresh canvas holding the given initial pixels; the owner map
    /// starts all zero, meaning "no owner".
    pub fn new(info: CanvasCreateInfo) -> (res: Canvas)
        requires
            info.width >= 1,
            info.height >= 1,
            info.initial_canvas@.len() == (info.width as int) * (info.height as int),
        ensures
            res@.wf(),
            res@.width == info.width,
            res@.height == info.height,
            res@.cells == info.initial_canvas@,
            res@.users == Seq::<u32>::new(info.initial_canvas@.len(), |i: int| 0u32),
    {
        let len = info.initial_canvas.len();
        let mut users: Vec<u32> = Vec::new();
        let mut i: usize = 0;
        while i < len
            invariant
                i <= len,
                users@ =~= Seq::<u32>::new(i as nat, |j: int| 0u32),
            decreases len - i,
        {
            users.push(0);
            i = i + 1;
        }
        proof {
            assert(users@ =~= Seq::<u32>::new(info.initial_canvas@.len(), |j: int| 0u32));
        }
        Canvas { width: info.width, height: info.height, cells: info.initial_canvas, users }
    }

    pub fn width(&self) -> (r: u32)
        ensures
            r == self@.width,
    {
        self.width
    }

    pub fn height(&self) -> (r: u32)
        ensures
            r == self@.height,
    {
        self.height
    }

    /// The whole pixel array, row-major.
    pub fn pixel_slice(&self) -> (r: &Vec<Bgra>)
        ensures
            r@ == self@.cells,
    {
        &self.cells
    }

    /// The whole owner map, row-major.
    pub fn user_id_slice(&self) -> (r: &Vec<u32>)
        ensures
            r@ == self@.users,
    {
        &self.users
    }

    /// Read the pixel at (x, y), or report it out of bounds.
    pub fn pixel(&self, x: u32, y: u32) -> (res: Result<Bgra, CanvasError>)
        requires
            self@.wf(),
        ensures
            self@.in_bounds(x, y) ==> res == Ok::<Bgra, CanvasError>(self@.pixel(x, y)),
            !self@.in_bounds(x, y) ==> res == Err::<Bgra, CanvasError>(
                CanvasError::PixelOutOfBounds { x, y },
            ),
    {
        if x >= self.width || y >= self.height {
            return Err(CanvasError::PixelOutOfBounds { x, y });
        }
        let idx = self.coords_to_index(x, y);
        Ok(self.cells[idx])
    }

    /// Read the owner of the pixel at (x, y), or report it out of bounds.
    pub fn user(&self, x: u32, y: u32) -> (res: Result<u32, CanvasError>)
        requires
            self@.wf(),
        ensures
            self@.in_bounds(x, y) ==> res == Ok::<u32, CanvasError>(self@.user(x, y)),
            !self@.in_bounds(x, y) ==> res == Err::<u32, CanvasError>(
                CanvasError::PixelOutOfBounds { x, y },
            ),
    {
        if x >= self.width || y >= self.height {
            return Err(CanvasError::PixelOutOfBounds { x, y });
        }
        let idx = self.coords_to_index(x, y);
        Ok(self.users[idx])
    }

    fn coords_to_index(&self, x: u32, y: u32) -> (idx: usize)
        requires
            self@.wf(),
            self@.in_bounds(x, y),
        ensures
            idx == self@.index(x, y),
            idx < self@.cells.len(),
    {
        proof {
            lemma_row_major_bounds(x as int, y as int, self.width as int, self.height as int);
        }
        let n = self.cells.len();
        assert((y as int) * (self.width as int) + (x as int) < n);
        (y as usize) * (self.width as usize) + (x as usize)
    }

    /// Write `color` at (x, y) for `user_id`, blending by alpha, or report
    /// the coordinates out of bounds and change nothing.
    pub fn set_pixel(&mut self, x: u32, y: u32, color: Bgra, user_id: u32) -> (res: Result<
        (),
        CanvasError,
    >)
        requires
            old(self)@.wf(),
        ensures
            final(self)@.wf(),
            old(self)@.in_bounds(x, y) ==> {
                &&& res == Ok::<(), CanvasError>(())
                &&& final(self)@ == old(self)@.set_pixel(x, y, color, user_id)
            },
            !old(self)@.in_bounds(x, y) ==> {
                &&& res == Err::<(), CanvasError>(CanvasError::PixelOutOfBounds { x, y })
                &&& final(self)@ == old(self)@
            },
    {
        if x >= self.width || y >= self.height {
            return Err(CanvasError::PixelOutOfBounds { x, y });
        }
        let idx = self.coords_to_index(x, y);

        if color.a == 0 {
            Ok(())
        } else if color.a == 255 {
            self.cells.set(idx, color);
            self.users.set(idx, user_id);
            Ok(())
        } else {
            let blended = blend(self.cells[idx], color);
            self.cells.set(idx, blended);
            self.users.set(idx, user_id);
            Ok(())
        }
    }
}

/// A row-major index of an in-bounds pixel lies inside the array.
proof fn lemma_row_major_bounds(x: int, y: int, w: int, h: int)
    by (nonlinear_arith)
    requires
        0 <= x < w,
        0 <= y < h,
    ensures
        0 <= y * w + x < w * h,
{
}

/// Mix `src` over `dst` with `src`'s alpha, exactly as [`spec_blend`]
/// describes.
pub fn blend(dst: Bgra, src: Bgra) -> (res: Bgra)
    ensures
        res == spec_blend(dst, src),
{
    let c1 = dst.rgb();
    let c2 = src.rgb();
    let alpha = src.a as u32;

    let rb0 = c1 & 0xff00ff;
    let gg0 = c1 & 0x00ff00;
    let rb_src = c2 & 0xff00ff;
    let gg_src = c2 & 0x00ff00;
    proof {
        assert(c1 & 0xff00ffu32 <= 0xff00ffu32 && c1 & 0x00ff00u32 <= 0x00ff00u32 && c2
            & 0xff00ffu32 <= 0xff00ffu32 && c2 & 0x00ff00u32 <= 0x00ff00u32) by (bit_vector);
    }

    let rb_diff = sat_sub(rb_src, rb0);
    let gg_diff = sat_sub(gg_src, gg0);

    proof {
        assert(rb_diff * alpha <= 0xff00ff * 255 && gg_diff * alpha <= 0x00ff00 * 255)
            by (nonlinear_arith)
            requires
                rb_diff <= 0xff00ffu32,
                gg_diff <= 0x00ff00u32,
                alpha <= 255u32,
        ;
    }
    let rb_scaled = rb_diff * alpha;
    let gg_scaled = gg_diff * alpha;
    proof {
        assert(rb_scaled >> 8u32 == rb_scaled / 256 && gg_scaled >> 8u32 == gg_scaled / 256)
            by (bit_vector);
    }

    let rb = rb0 + (rb_scaled >> 8);
    let gg = gg0 + (gg_scaled >> 8);
    Bgra::from_rgb((rb & 0xff00ff) | (gg & 0x00ff00))
}

/// Saturating subtraction on `u32`.
pub fn sat_sub(a: u32, b: u32) -> (r: u32)
    ensures
        r == spec_sat_sub(a, b),
{
    if a >= b {
        a - b
    } else {
        0
    }
}

/// The byte length of the shared region that holds a canvas: an 8-byte
/// header, four bytes per pixel and four bytes per owner entry.
pub fn shared_region_size(width: u32, height: u32) -> (r: usize)
    requires
        8 + (width as int) * (height as int) * 8 <= usize::MAX,
    ensures
        r == 8 + (width as int) * (height as int) * 8,
{
    8 + (width as usize) * (height as usize) * 8
}

/// Accept an already-created shared region only when its byte length
/// is exactly what [`shared_region_size`] asks for these dimensions.
pub fn check_region_size(width: u32, height: u32, actual: usize) -> (res: Result<
    (),
    CanvasError,
>)
    ensures
        res is Ok <==> actual == 8 + (width as int) * (height as int) * 8,
        res is Err ==> res == Err::<(), CanvasError>(CanvasError::InvalidSize),
{
    proof {
        assert((width as int) * (height as int) * 8 <= 0xffffffff * 0xffffffff * 8)
            by (nonlinear_arith)
            requires
                width <= 0xffffffffu32,
                height <= 0xffffffffu32,
        ;
    }
    let expected: u128 = 8 + (width as u128) * (height as u128) * 8;
    if (actual as u128) == expected {
        Ok(())
    } else {
        Err(CanvasError::InvalidSize)
    }
}

/// Accept a stored canvas header only when it matches the requested
/// dimensions.
pub fn check_header(
    requested_width: u32,
    requested_height: u32,
    stored_width: u32,
    stored_height: u32,
) -> (res: Result<(), CanvasError>)
    ensures
        res is Ok <==> (stored_width == requested_width && stored_height == requested_height),
        res is Err ==> res == Err::<(), CanvasError>(CanvasError::InvalidSize),
{
    if stored_width != requested_width || stored_height != requested_height {
        Err(CanvasError::InvalidSize)
    } else {
        Ok(())
    }
}

/// An opaque write followed by a read gives back exactly the written color
/// and writer.
pub proof fn lemma_canvas_round_trip(c: CanvasView, x: u32, y: u32, color: Bgra, user_id: u32)
    requires
        c.wf(),
        c.in_bounds(x, y),
        color.a == 255,
    ensures
        c.set_pixel(x, y, color, user_id).pixel(x, y) == color,
        c.set_pixel(x, y, color, user_id).user(x, y) == user_id,
{
    lemma_row_major_bounds(x as int, y as int, c.width as int, c.height as int);
}

/// A fully transparent write leaves the canvas untouched.
pub proof fn lemma_transparent_no_op(c: CanvasView, x: u32, y: u32, color: Bgra, user_id: u32)
    requires
        color.a == 0,
    ensures
        c.set_pixel(x, y, color, user_id) == c,
{
}

/// A write touches no pixel but its own: every other in-bounds
/// coordinate keeps its color and its owner.
pub proof fn lemma_set_pixel_frame(
    c: CanvasView,
    x: u32,
    y: u32,
    color: Bgra,
    user_id: u32,
    x2: u32,
    y2: u32,
)
    requires
        c.wf(),
        c.in_bounds(x, y),
        c.in_bounds(x2, y2),
        (x2, y2) != (x, y),
    ensures
        c.set_pixel(x, y, color, user_id).pixel(x2, y2) == c.pixel(x2, y2),
        c.set_pixel(x, y, color, user_id).user(x2, y2) == c.user(x2, y2),
{
    lemma_row_major_bounds(x as int, y as int, c.width as int, c.height as int);
    lemma_row_major_bounds(x2 as int, y2 as int, c.width as int, c.height as int);
    assert(c.index(x, y) != c.index(x2, y2)) by (nonlinear_arith)
        requires
            x < c.width,
            x2 < c.width,
            y < c.height,
            y2 < c.height,
            (x2 != x || y2 != y),
            c.index(x, y) == (y as int) * (c.width as int) + (x as int),
            c.index(x2, y2) == (y2 as int) * (c.width as int) + (x2 as int),
    ;
}

/// At the alpha extremes no blending happens: 255 overwrites the pixel,
/// 0 changes nothing.
pub proof fn lemma_blend_extremes(c: CanvasView, x: u32, y: u32, color: Bgra, user_id: u32)
    requires
        c.wf(),
        c.in_bounds(x, y),
    ensures
        color.a == 255 ==> c.set_pixel(x, y, color, user_id).cells == c.cells.update(
            c.index(x, y),
            color,
        ),
        color.a == 255 ==> c.set_pixel(x, y, color, user_id).users == c.users.update(
            c.index(x, y),
            user_id,
        ),
        color.a == 0 ==> c.set_pixel(x, y, color, user_id) == c,
{
}

} // verus!
